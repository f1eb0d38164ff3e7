//! The simulation: one generation on a bounded grid, advanced in lockstep.
use vstd::prelude::*;

use crate::rules::{
    cell_of,    join_lines, row_text, world_text, alive_at, count_alive, grid_of, neighbour_count, neighbour_offsets, next_state, next_world,
    world_has_dims, State, World,
};

verus! {

/// The dimensions of a grid, in cells.
pub struct GameSize {
    pub width: i32,
    pub height: i32,
}

/// A position on the grid (or next to it): column `x`, row `y`.
pub struct Point {
    pub x: i32,
    pub y: i32,
}

/// Relies on `rand::random::<bool>` (the thread-local generator's `gen`):
/// nothing is promised of the value drawn.
#[verifier::external_body]
fn random_bool() -> bool {
    rand::random::<bool>()
}

/// The cell state a random draw stands for: `true` is alive, `false` dead.
pub fn state_of(b: bool) -> (r: State)
    ensures
        r == (if b {
            State::Alive
        } else {
            State::Dead
        }),
        r == cell_of(b),
{
    if b {
        State::Alive
    } else {
        State::Dead
    }
}

/// A grid of non-negative `i32` dimensions has fewer cells than `u64` can count.
proof fn lemma_cells_fit(w: int, h: int)
    requires
        0 <= w <= i32::MAX,
        0 <= h <= i32::MAX,
    ensures
        0 <= w * h <= u64::MAX,
{
    assert(0 <= w * h <= i32::MAX as int * i32::MAX as int) by (nonlinear_arith)
        requires
            0 <= w <= i32::MAX,
            0 <= h <= i32::MAX,
    ;
}

/// The row-major index of a cell on a `w` by `h` grid lies within `w * h`.
proof fn lemma_index_in_grid(x: int, y: int, w: int, h: int)
    requires
        0 <= x < w,
        0 <= y < h,
    ensures
        0 <= y * w + x < w * h,
{
    assert(0 <= y * w + x < w * h) by (nonlinear_arith)
        requires
            0 <= x < w,
            0 <= y < h,
    ;
}

/// The row after row `y` starts `w` cells further on.
proof fn lemma_next_row_start(y: int, w: int)
    ensures
        y * w + w == (y + 1) * w,
{
    assert(y * w + w == (y + 1) * w) by (nonlinear_arith);
}

impl Point {
    pub fn new(x: i32, y: i32) -> (r: Self)
        ensures
            r.x == x,
            r.y == y,
    {
        Point { x, y }
    }
}

/// A simulation: the current generation, its dimensions and the delay
/// between generations in milliseconds.
pub struct Game {
    size: GameSize,
    world: Vec<Vec<State>>,
    delay: i32,
}

impl View for Game {
    type V = World;

    closed spec fn view(&self) -> World {
        grid_of(self.world@)
    }
}

impl Game {
    /// Width of the grid.
    pub closed spec fn width(&self) -> int {
        self.size.width as int
    }

    /// Height of the grid.
    pub closed spec fn height(&self) -> int {
        self.size.height as int
    }

    /// Delay between generations, in milliseconds.
    pub closed spec fn delay(&self) -> int {
        self.delay as int
    }

    /// The dimensions are not negative and the grid holds `height` rows of
    /// `width` cells.
    pub open spec fn wf(&self) -> bool {
        &&& self.width() >= 0
        &&& self.height() >= 0
        &&& world_has_dims(self@, self.width(), self.height())
    }

    /// The position `p` lies on the grid.
    pub open spec fn on_grid(&self, p: &Point) -> bool {
        0 <= p.x < self.width() && 0 <= p.y < self.height()
    }

    /// A simulation of the given size whose cells are each drawn at random,
    /// alive or dead with equal chance: `width * height` draws, taken row by
    /// row, are handed to `from_draws`. A width or height of zero gives an
    /// empty grid of those dimensions, with no draw.
    pub fn new(size: GameSize, delay: i32) -> (r: Self)
        requires
            size.width >= 0,
            size.height >= 0,
        ensures
            r.wf(),
            r.width() == size.width,
            r.height() == size.height,
            r.delay() == delay,
    {
        proof {
            lemma_cells_fit(size.width as int, size.height as int);
        }
        let cells: u64 = (size.width as u64) * (size.height as u64);
        let mut draws: Vec<bool> = Vec::new();
        while (draws.len() as u64) < cells
            invariant
                draws@.len() <= cells,
            decreases cells - draws@.len(),
        {
            draws.push(random_bool());
        }
        let r = Game::from_draws(size, delay, &draws);
        r.unwrap()
    }

    /// A simulation whose cells are given by `draws`, row by row: the cell
    /// at column `x`, row `y` is alive where `draws[y * width + x]` is `true`.
    /// `None` where a dimension is negative or `draws` does not hold exactly
    /// `width * height` values.
    pub fn from_draws(size: GameSize, delay: i32, draws: &Vec<bool>) -> (r: Option<Self>)
        ensures
            r is Some <==> size.width >= 0 && size.height >= 0 && draws@.len() == size.width
                * size.height,
            r matches Some(g) ==> {
                &&& g.wf()
                &&& g.width() == size.width
                &&& g.height() == size.height
                &&& g.delay() == delay
                &&& forall|y: int, x: int|
                    0 <= y < size.height && 0 <= x < size.width ==> #[trigger] g@[y][x] == cell_of(
                        draws@[y * size.width + x],
                    )
            },
    {
        if size.width < 0 || size.height < 0 {
            return None;
        }
        let ghost (w, h) = (size.width as int, size.height as int);
        proof {
            lemma_cells_fit(w, h);
        }
        let n = draws.len();
        if (n as u64) != (size.width as u64) * (size.height as u64) {
            return None;
        }
        let mut world: Vec<Vec<State>> = Vec::new();
        let mut k: usize = 0;
        let mut y: i32 = 0;
        while y < size.height
            invariant
                w == size.width,
                h == size.height,
                w >= 0,
                0 <= y <= h,
                draws@.len() == w * h,
                n == draws@.len(),
                k == y * w,
                world@.len() == y,
                forall|j: int| 0 <= j < y ==> (#[trigger] world@[j])@.len() == w,
                forall|j: int, i: int|
                    0 <= j < y && 0 <= i < w ==> #[trigger] world@[j]@[i] == cell_of(draws@[j * w + i]),
            decreases h - y,
        {
            let mut row: Vec<State> = Vec::new();
            let mut x: i32 = 0;
            while x < size.width
                invariant
                    w == size.width,
                    h == size.height,
                    0 <= y < h,
                    0 <= x <= w,
                    draws@.len() == w * h,
                    n == draws@.len(),
                    k == y * w + x,
                    row@.len() == x,
                    forall|i: int| 0 <= i < x ==> #[trigger] row@[i] == cell_of(draws@[y * w + i]),
                decreases w - x,
            {
                proof {
                    lemma_index_in_grid(x as int, y as int, w, h);
                }
                row.push(state_of(draws[k]));
                k = k + 1;
                x = x + 1;
            }
            proof {
                lemma_next_row_start(y as int, w);
            }
            world.push(row);
            y = y + 1;
        }
        Some(Game { size, world, delay })
    }

    /// A simulation that starts from the given generation, for instance one
    /// drawn from a seeded source. `None` where a dimension is negative or
    /// `world` does not hold `size.height` rows of `size.width` cells.
    pub fn from_world(size: GameSize, delay: i32, world: Vec<Vec<State>>) -> (r: Option<Self>)
        ensures
            r is Some <==> size.width >= 0 && size.height >= 0 && world_has_dims(
                grid_of(world@),
                size.width as int,
                size.height as int,
            ),
            r matches Some(g) ==> {
                &&& g.wf()
                &&& g@ == grid_of(world@)
                &&& g.width() == size.width
                &&& g.height() == size.height
                &&& g.delay() == delay
            },
    {
        if size.width < 0 || size.height < 0 || world.len() != size.height as usize {
            return None;
        }
        let mut y: usize = 0;
        while y < world.len()
            invariant
                size.width >= 0,
                0 <= y <= world@.len(),
                forall|j: int| 0 <= j < y ==> (#[trigger] world@[j])@.len() == size.width,
            decreases world@.len() - y,
        {
            if world[y].len() != size.width as usize {
                assert(grid_of(world@)[y as int].len() != size.width);
                return None;
            }
            y = y + 1;
        }
        Some(Game { size, world, delay })
    }

    /// The delay between generations, in milliseconds.
    pub fn delay_ms(&self) -> (r: i32)
        ensures
            r == self.delay(),
    {
        self.delay
    }

    /// The state of the cell at `point`.
    pub fn get_point_at(&self, point: &Point) -> (r: &State)
        requires
            self.wf(),
            self.on_grid(point),
        ensures
            *r == self@[point.y as int][point.x as int],
    {
        &self.world[point.y as usize][point.x as usize]
    }

    /// The number of live cells among the up to eight neighbours of `point`;
    /// neighbours that would lie off the grid are not counted.
    pub fn get_alive_neighbor_count_for(&self, point: &Point) -> (r: usize)
        requires
            self.wf(),
            self.on_grid(point),
        ensures
            r == neighbour_count(self@, self.width(), self.height(), point.x as int, point.y as int),
            r <= 8,
    {
        let candidates = vec![
            Point::new(point.x, point.y + 1),
            Point::new(point.x + 1, point.y + 1),
            Point::new(point.x + 1, point.y),
            Point::new(point.x + 1, point.y - 1),
            Point::new(point.x, point.y - 1),
            Point::new(point.x - 1, point.y - 1),
            Point::new(point.x - 1, point.y),
            Point::new(point.x - 1, point.y + 1),
        ];
        let ghost offs = neighbour_offsets();
        let ghost (w, width, height) = (self@, self.width(), self.height());
        let ghost (px, py) = (point.x as int, point.y as int);
        assert forall|k: int| 0 <= k < 8 implies
            candidates@[k].x == px + (#[trigger] offs[k]).0 && candidates@[k].y == py + offs[k].1 by {
            if k == 0 {} else if k == 1 {} else if k == 2 {} else if k == 3 {}
            else if k == 4 {} else if k == 5 {} else if k == 6 {} else {}
        };
        let mut count: usize = 0;
        let mut i: usize = 0;
        while i < candidates.len()
            invariant
                self.wf(),
                self.on_grid(point),
                w == self@,
                width == self.width(),
                height == self.height(),
                px == point.x,
                py == point.y,
                offs == neighbour_offsets(),
                candidates@.len() == 8,
                offs.len() == 8,
                forall|k: int| 0 <= k < 8 ==>
                    candidates@[k].x == px + (#[trigger] offs[k]).0 && candidates@[k].y == py + offs[k].1,
                i <= 8,
                count <= i,
                count == count_alive(w, width, height, px, py, offs.take(i as int)),
            decreases 8 - i,
        {
            let n = &candidates[i];
            let hit = n.x >= 0 && n.x < self.size.width && n.y >= 0 && n.y < self.size.height
                && match self.get_point_at(n) {
                State::Alive => true,
                State::Dead => false,
            };
            assert(offs.take(i + 1).drop_last() =~= offs.take(i as int));
            assert(hit == alive_at(w, width, height, px + offs[i as int].0, py + offs[i as int].1));
            if hit {
                count = count + 1;
            }
            i = i + 1;
        }
        assert(offs.take(8) =~= offs);
        count
    }

    /// The state of the cell at `point` in the next generation, computed from
    /// the current generation alone.
    pub fn evaluate_point(&self, point: &Point) -> (r: State)
        requires
            self.wf(),
            self.on_grid(point),
        ensures
            r == next_state(
                self@[point.y as int][point.x as int],
                neighbour_count(self@, self.width(), self.height(), point.x as int, point.y as int),
            ),
    {
        let neighbors = self.get_alive_neighbor_count_for(point);
        match self.get_point_at(point) {
            State::Alive => {
                if neighbors < 2 || neighbors > 3 {
                    State::Dead
                } else {
                    State::Alive
                }
            },
            State::Dead => {
                if neighbors == 3 {
                    State::Alive
                } else {
                    State::Dead
                }
            },
        }
    }

    /// The next generation, computed into fresh rows from the current one.
    pub fn next_generation(&self) -> (r: Vec<Vec<State>>)
        requires
            self.wf(),
        ensures
            grid_of(r@) == next_world(self@, self.width(), self.height()),
    {
        let ghost target = next_world(self@, self.width(), self.height());
        let mut next: Vec<Vec<State>> = Vec::new();
        let mut y: i32 = 0;
        while y < self.size.height
            invariant
                self.wf(),
                target == next_world(self@, self.width(), self.height()),
                0 <= y <= self.height(),
                next@.len() == y,
                forall|j: int| 0 <= j < y ==> (#[trigger] next@[j])@ == target[j],
            decreases self.height() - y,
        {
            let mut row: Vec<State> = Vec::new();
            let mut x: i32 = 0;
            while x < self.size.width
                invariant
                    self.wf(),
                    target == next_world(self@, self.width(), self.height()),
                    0 <= y < self.height(),
                    0 <= x <= self.width(),
                    row@.len() == x,
                    forall|i: int| 0 <= i < x ==> #[trigger] row@[i] == target[y as int][i],
                decreases self.width() - x,
            {
                let p = Point::new(x, y);
                let s = self.evaluate_point(&p);
                row.push(s);
                x = x + 1;
            }
            assert(row@ =~= target[y as int]);
            next.push(row);
            y = y + 1;
        }
        assert(grid_of(next@) =~= target);
        next
    }

    /// Advances the simulation by one generation; the new generation
    /// replaces the current one only once it is complete.
    pub fn tick(&mut self)
        requires
            old(self).wf(),
        ensures
            final(self).wf(),
            final(self)@ == next_world(old(self)@, old(self).width(), old(self).height()),
            final(self).width() == old(self).width(),
            final(self).height() == old(self).height(),
            final(self).delay() == old(self).delay(),
    {
        let next = self.next_generation();
        self.world = next;
    }

    /// The text of each row, top row first: `+` for a live cell, a space for
    /// a dead one.
    pub fn to_string_vec(&self) -> (r: Vec<String>)
        requires
            self.wf(),
        ensures
            r@.len() == self@.len(),
            forall|y: int| 0 <= y < r@.len() ==> (#[trigger] r@[y])@ == row_text(self@[y]),
    {
        let mut lines: Vec<String> = Vec::new();
        let mut y: usize = 0;
        while y < self.world.len()
            invariant
                self.wf(),
                0 <= y <= self@.len(),
                lines@.len() == y,
                forall|j: int| 0 <= j < y ==> (#[trigger] lines@[j])@ == row_text(self@[j]),
            decreases self@.len() - y,
        {
            let row = &self.world[y];
            let mut line = String::new();
            let mut x: usize = 0;
            while x < row.len()
                invariant
                    0 <= x <= row@.len(),
                    line@ == row_text(row@.take(x as int)),
                decreases row@.len() - x,
            {
                proof {
                    reveal_strlit("+");
                    reveal_strlit(" ");
                }
                match row[x] {
                    State::Alive => line.append("+"),
                    State::Dead => line.append(" "),
                }
                assert(line@ =~= row_text(row@.take(x + 1)));
                x = x + 1;
            }
            assert(row@.take(x as int) =~= row@);
            lines.push(line);
            y = y + 1;
        }
        lines
    }

    /// The whole generation as text: the rows of `to_string_vec`, joined
    /// with newlines.
    pub fn to_string(&self) -> (r: String)
        requires
            self.wf(),
        ensures
            r@ == world_text(self@),
    {
        let lines = self.to_string_vec();
        let ghost texts = Seq::new(self@.len(), |y: int| row_text(self@[y]));
        let mut out = String::new();
        let mut i: usize = 0;
        while i < lines.len()
            invariant
                texts == Seq::new(self@.len(), |y: int| row_text(self@[y])),
                lines@.len() == texts.len(),
                forall|y: int| 0 <= y < lines@.len() ==> (#[trigger] lines@[y])@ == texts[y],
                0 <= i <= lines@.len(),
                out@ == join_lines(texts.take(i as int)),
            decreases lines@.len() - i,
        {
            proof {
                reveal_strlit("\n");
            }
            if i > 0 {
                out.append("\n");
            }
            out.append(lines[i].as_str());
            assert(texts.take(i + 1).drop_last() =~= texts.take(i as int));
            assert(out@ =~= join_lines(texts.take(i + 1)));
            i = i + 1;
        }
        assert(texts.take(i as int) =~= texts);
        out
    }
}

} // verus!
