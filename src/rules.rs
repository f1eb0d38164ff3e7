//! The mathematical model of a generation and the Game of Life rule.
use vstd::prelude::*;

verus! {

/// The state of one cell.
#[derive(Clone, Copy, Debug, PartialEq, Eq, Structural)]
pub enum State {
    Alive,
    Dead,
}

/// A generation: rows top to bottom, each row a sequence of cells left to right.
pub type World = Seq<Seq<State>>;

/// The standard rule: a live cell survives with two or three live neighbours,
/// a dead cell is born with exactly three.
pub open spec fn next_state(s: State, neighbours: nat) -> State {
    match s {
        State::Alive => if neighbours == 2 || neighbours == 3 {
            State::Alive
        } else {
            State::Dead
        },
        State::Dead => if neighbours == 3 {
            State::Alive
        } else {
            State::Dead
        },
    }
}

/// The cell state a random draw stands for: `true` is alive, `false` dead.
pub open spec fn cell_of(b: bool) -> State {
    if b {
        State::Alive
    } else {
        State::Dead
    }
}

/// `w` has `height` rows of `width` cells each.
pub open spec fn world_has_dims(w: World, width: int, height: int) -> bool {
    &&& w.len() == height
    &&& forall|y: int| 0 <= y < height ==> #[trigger] w[y].len() == width
}

/// The cell at column `x`, row `y` lies on the grid and is alive.
pub open spec fn alive_at(w: World, width: int, height: int, x: int, y: int) -> bool {
    0 <= x < width && 0 <= y < height && w[y][x] == State::Alive
}

/// The eight offsets of the cells adjacent to a cell, axis and diagonal.
pub open spec fn neighbour_offsets() -> Seq<(int, int)> {
    seq![(0, 1), (1, 1), (1, 0), (1, -1), (0, -1), (-1, -1), (-1, 0), (-1, 1)]
}

/// How many of the positions `x + dx, y + dy`, for `(dx, dy)` in `offs`, are live cells.
pub open spec fn count_alive(w: World, width: int, height: int, x: int, y: int, offs: Seq<(int, int)>) -> nat
    decreases offs.len(),
{
    if offs.len() == 0 {
        0
    } else {
        let d = offs.last();
        count_alive(w, width, height, x, y, offs.drop_last())
            + if alive_at(w, width, height, x + d.0, y + d.1) { 1nat } else { 0nat }
    }
}

/// The number of live cells among the up to eight neighbours of `(x, y)`;
/// positions off the grid count as dead.
pub open spec fn neighbour_count(w: World, width: int, height: int, x: int, y: int) -> nat {
    count_alive(w, width, height, x, y, neighbour_offsets())
}

/// The generation that follows `w`: every cell evaluated against `w` alone.
pub open spec fn next_world(w: World, width: int, height: int) -> World {
    Seq::new(height as nat, |y: int| Seq::new(width as nat, |x: int|
        next_state(w[y][x], neighbour_count(w, width, height, x, y))))
}

/// The rows of a `Vec` of rows, as a generation.
pub open spec fn grid_of(rows: Seq<Vec<State>>) -> World {
    Seq::new(rows.len(), |y: int| rows[y]@)
}

/// The character a cell is drawn with.
pub open spec fn glyph(s: State) -> char {
    match s {
        State::Alive => '+',
        State::Dead => ' ',
    }
}

/// The text of one row: one glyph per cell, left to right, no separator.
pub open spec fn row_text(row: Seq<State>) -> Seq<char> {
    Seq::new(row.len(), |x: int| glyph(row[x]))
}

/// Lines joined with a newline between each two, none after the last.
pub open spec fn join_lines(lines: Seq<Seq<char>>) -> Seq<char>
    decreases lines.len(),
{
    if lines.len() == 0 {
        Seq::empty()
    } else if lines.len() == 1 {
        lines[0]
    } else {
        join_lines(lines.drop_last()) + seq!['\n'] + lines.last()
    }
}

/// The text of a whole generation: its rows top to bottom, newline-joined.
pub open spec fn world_text(w: World) -> Seq<char> {
    join_lines(Seq::new(w.len(), |y: int| row_text(w[y])))
}

/// Every cell of the `width` by `height` grid `w` is dead.
pub open spec fn all_dead(w: World, width: int, height: int) -> bool {
    forall|y: int, x: int| 0 <= y < height && 0 <= x < width ==> #[trigger] w[y][x] == State::Dead
}

/// Every cell of the `width` by `height` grid `w` is alive.
pub open spec fn all_alive(w: World, width: int, height: int) -> bool {
    forall|y: int, x: int| 0 <= y < height && 0 <= x < width ==> #[trigger] w[y][x] == State::Alive
}

/// None of the positions reached from `(x, y)` by `offs` holds a live cell,
/// so none is counted.
proof fn lemma_count_alive_none(w: World, width: int, height: int, x: int, y: int, offs: Seq<(int, int)>)
    requires
        forall|k: int| 0 <= k < offs.len() ==> !alive_at(w, width, height, x + (#[trigger] offs[k]).0, y + offs[k].1),
    ensures
        count_alive(w, width, height, x, y, offs) == 0,
    decreases offs.len(),
{
    if offs.len() > 0 {
        let rest = offs.drop_last();
        assert forall|k: int| 0 <= k < rest.len() implies
            !alive_at(w, width, height, x + (#[trigger] rest[k]).0, y + rest[k].1) by {
            assert(rest[k] == offs[k]);
        };
        lemma_count_alive_none(w, width, height, x, y, rest);
    }
}

/// The next generation has the dimensions of the current one.
pub proof fn lemma_next_world_dims(w: World, width: int, height: int)
    requires
        width >= 0,
        height >= 0,
    ensures
        world_has_dims(next_world(w, width, height), width, height),
{
}

/// A cell none of whose neighbours is alive is dead in the next generation,
/// whatever its own state: a lone live cell dies.
pub proof fn lemma_isolated_cell_dies(w: World, width: int, height: int, x: int, y: int)
    requires
        width >= 0,
        height >= 0,
        world_has_dims(w, width, height),
        0 <= x < width,
        0 <= y < height,
        forall|k: int| 0 <= k < 8 ==> !alive_at(
            w,
            width,
            height,
            x + (#[trigger] neighbour_offsets()[k]).0,
            y + neighbour_offsets()[k].1,
        ),
    ensures
        neighbour_count(w, width, height, x, y) == 0,
        next_world(w, width, height)[y][x] == State::Dead,
{
    lemma_count_alive_none(w, width, height, x, y, neighbour_offsets());
}

/// A grid whose cells are all dead stays all dead: no cell is born in an
/// empty universe.
pub proof fn lemma_dead_world_stays_dead(w: World, width: int, height: int)
    requires
        width >= 0,
        height >= 0,
        world_has_dims(w, width, height),
        all_dead(w, width, height),
    ensures
        all_dead(next_world(w, width, height), width, height),
        next_world(w, width, height) == w,
{
    let n = next_world(w, width, height);
    assert forall|y: int, x: int| 0 <= y < height && 0 <= x < width implies #[trigger] n[y][x] == State::Dead by {
        lemma_count_alive_none(w, width, height, x, y, neighbour_offsets());
    };
    assert forall|y: int| 0 <= y < height implies #[trigger] n[y] =~= w[y] by {
        assert forall|x: int| 0 <= x < width implies #[trigger] n[y][x] == w[y][x] by {
            assert(n[y][x] == State::Dead);
            assert(w[y][x] == State::Dead);
        };
    };
    assert(n =~= w);
}

/// On a grid of at least two by two whose cells are all alive, the corner
/// `(0, 0)` has exactly three neighbours on the grid, and counts all three.
pub proof fn lemma_full_grid_corner_count(w: World, width: int, height: int)
    requires
        width >= 2,
        height >= 2,
        world_has_dims(w, width, height),
        all_alive(w, width, height),
    ensures
        neighbour_count(w, width, height, 0, 0) == 3,
{
    reveal_with_fuel(count_alive, 9);
    let offs = neighbour_offsets();
    assert(alive_at(w, width, height, 0, 1));
    assert(alive_at(w, width, height, 1, 1));
    assert(alive_at(w, width, height, 1, 0));
    assert(offs.drop_last().drop_last().drop_last().drop_last().drop_last().drop_last().drop_last().drop_last().len() == 0);
}

/// A still life stays unchanged: where one step reproduces the grid,
/// a second step reproduces it again.
pub proof fn lemma_still_life_is_stable(w: World, width: int, height: int)
    requires
        next_world(w, width, height) == w,
    ensures
        next_world(next_world(w, width, height), width, height) == w,
        next_world(next_world(w, width, height), width, height) == next_world(w, width, height),
{
}

} // verus!
