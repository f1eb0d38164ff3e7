use conway_rust::{state_of, Game, GameSize, Point, State};

fn world_from(rows: &[&str]) -> Vec<Vec<State>> {
    rows.iter()
        .map(|r| r.chars().map(|c| if c == '+' { State::Alive } else { State::Dead }).collect())
        .collect()
}

fn game_from(rows: &[&str]) -> Game {
    let height = rows.len() as i32;
    let width = if rows.is_empty() { 0 } else { rows[0].len() as i32 };
    Game::from_world(GameSize { width, height }, 125, world_from(rows)).unwrap()
}

fn text(game: &Game) -> Vec<String> {
    game.to_string_vec()
}

#[test]
fn dead_grid_stays_dead() {
    let rows = ["     ", "     ", "     ", "     "];
    let mut game = game_from(&rows);
    game.tick();
    assert_eq!(text(&game), rows.to_vec());
    game.tick();
    assert_eq!(text(&game), rows.to_vec());
}

#[test]
fn lone_cell_dies() {
    let mut game = game_from(&["   ", " + ", "   "]);
    assert_eq!(game.get_alive_neighbor_count_for(&Point::new(1, 1)), 0);
    assert_eq!(game.evaluate_point(&Point::new(1, 1)), State::Dead);
    game.tick();
    assert_eq!(text(&game), vec!["   ", "   ", "   "]);
}

#[test]
fn block_is_still_life() {
    let rows = ["    ", " ++ ", " ++ ", "    "];
    let mut game = game_from(&rows);
    for y in 1..3 {
        for x in 1..3 {
            assert_eq!(game.get_alive_neighbor_count_for(&Point::new(x, y)), 3);
        }
    }
    game.tick();
    assert_eq!(text(&game), rows.to_vec());
}

#[test]
fn block_twice_is_unchanged() {
    let rows = ["    ", " ++ ", " ++ ", "    "];
    let mut game = game_from(&rows);
    game.tick();
    let first = game.to_string();
    game.tick();
    let second = game.to_string();
    assert_eq!(first, second);
    assert_eq!(second, "    \n ++ \n ++ \n    ");
}

#[test]
fn beehive_twice_is_unchanged() {
    let rows = ["      ", "  ++  ", " +  + ", "  ++  ", "      "];
    let mut game = game_from(&rows);
    game.tick();
    assert_eq!(text(&game), rows.to_vec());
    game.tick();
    assert_eq!(text(&game), rows.to_vec());
}

#[test]
fn blinker_oscillates() {
    let horizontal = ["     ", "     ", " +++ ", "     ", "     "];
    let vertical = ["     ", "  +  ", "  +  ", "  +  ", "     "];
    let mut game = game_from(&horizontal);
    game.tick();
    assert_eq!(text(&game), vertical.to_vec());
    game.tick();
    assert_eq!(text(&game), horizontal.to_vec());
}

#[test]
fn glider_moves() {
    let mut game = game_from(&["      ", "  +   ", "   +  ", " +++  ", "      ", "      "]);
    game.tick();
    assert_eq!(text(&game), vec!["      ", "      ", " + +  ", "  ++  ", "  +   ", "      "]);
}

#[test]
fn corner_of_full_grid_has_three_neighbours() {
    let game = game_from(&["+++", "+++", "+++"]);
    assert_eq!(game.get_alive_neighbor_count_for(&Point::new(0, 0)), 3);
    assert_eq!(game.get_alive_neighbor_count_for(&Point::new(2, 2)), 3);
    assert_eq!(game.get_alive_neighbor_count_for(&Point::new(1, 0)), 5);
    assert_eq!(game.get_alive_neighbor_count_for(&Point::new(1, 1)), 8);
}

#[test]
fn transition_rule() {
    // survival with two and three neighbours
    let game = game_from(&["++ ", "+  ", "   "]);
    assert_eq!(game.evaluate_point(&Point::new(0, 0)), State::Alive);
    // birth with exactly three
    assert_eq!(game.evaluate_point(&Point::new(1, 1)), State::Alive);
    // no birth with two
    let game = game_from(&["+ +", "   ", "   "]);
    assert_eq!(game.evaluate_point(&Point::new(1, 1)), State::Dead);
    // death by overcrowding with four
    let game = game_from(&["+++", "++ ", "   "]);
    assert_eq!(game.evaluate_point(&Point::new(1, 0)), State::Dead);
    // death by loneliness with one
    let game = game_from(&["++ ", "   ", "   "]);
    assert_eq!(game.evaluate_point(&Point::new(0, 0)), State::Dead);
}

#[test]
fn get_point_at_reads_column_and_row() {
    let game = game_from(&["+  ", "   ", " + "]);
    assert_eq!(*game.get_point_at(&Point::new(0, 0)), State::Alive);
    assert_eq!(*game.get_point_at(&Point::new(1, 2)), State::Alive);
    assert_eq!(*game.get_point_at(&Point::new(2, 1)), State::Dead);
    let p = Point::new(4, -2);
    assert_eq!((p.x, p.y), (4, -2));
}

#[test]
fn two_by_two_to_string() {
    let game = game_from(&["+ ", " +"]);
    assert_eq!(game.to_string(), "+ \n +");
    assert_eq!(game.to_string_vec(), vec!["+ ", " +"]);
}

#[test]
fn next_generation_leaves_current_unchanged() {
    let game = game_from(&["   ", "+++", "   "]);
    let next = game.next_generation();
    assert_eq!(next, world_from(&[" + ", " + ", " + "]));
    assert_eq!(game.to_string(), "   \n+++\n   ");
}

#[test]
fn zero_size_yields_empty_grid() {
    let game = Game::new(GameSize { width: 0, height: 0 }, 125);
    assert!(game.to_string_vec().is_empty());
    assert_eq!(game.to_string(), "");
    let mut game = Game::new(GameSize { width: 0, height: 3 }, 125);
    assert_eq!(game.to_string_vec(), vec!["", "", ""]);
    game.tick();
    assert_eq!(game.to_string(), "\n\n");
    let game = Game::new(GameSize { width: 4, height: 0 }, 125);
    assert!(game.to_string_vec().is_empty());
}

#[test]
fn from_world_rejects_inconsistent_dimensions() {
    let size = |width, height| GameSize { width, height };
    assert!(Game::from_world(size(2, 2), 10, world_from(&["++", "+"])).is_none());
    assert!(Game::from_world(size(2, 3), 10, world_from(&["++", "++"])).is_none());
    assert!(Game::from_world(size(-1, 0), 10, Vec::new()).is_none());
    assert!(Game::from_world(size(0, -1), 10, Vec::new()).is_none());
    assert!(Game::from_world(size(0, 0), 10, Vec::new()).is_some());
    assert!(Game::from_world(size(2, 1), 10, world_from(&["+ "])).is_some());
}

#[test]
fn random_grid_has_requested_dimensions() {
    let game = Game::new(GameSize { width: 7, height: 4 }, 125);
    let lines = game.to_string_vec();
    assert_eq!(lines.len(), 4);
    for line in &lines {
        assert_eq!(line.len(), 7);
        assert!(line.chars().all(|c| c == '+' || c == ' '));
    }
    let whole = game.to_string();
    assert_eq!(whole, lines.join("\n"));
}

#[test]
fn draws_map_to_states() {
    assert_eq!(state_of(true), State::Alive);
    assert_eq!(state_of(false), State::Dead);
}

#[test]
fn from_draws_fills_rows_in_order() {
    let draws = vec![true, false, false, false, true, true];
    let game = Game::from_draws(GameSize { width: 3, height: 2 }, 50, &draws).unwrap();
    assert_eq!(game.to_string_vec(), vec!["+  ", " ++"]);
    assert_eq!(game.delay_ms(), 50);
    let game = Game::from_draws(GameSize { width: 2, height: 3 }, 50, &draws).unwrap();
    assert_eq!(game.to_string(), "+ \n  \n++");
}

#[test]
fn from_draws_rejects_wrong_count() {
    let size = |width, height| GameSize { width, height };
    assert!(Game::from_draws(size(2, 2), 1, &vec![true; 3]).is_none());
    assert!(Game::from_draws(size(2, 2), 1, &vec![true; 5]).is_none());
    assert!(Game::from_draws(size(-2, -2), 1, &vec![true; 4]).is_none());
    assert!(Game::from_draws(size(0, 4), 1, &Vec::new()).is_some());
    assert_eq!(Game::from_draws(size(0, 0), 1, &Vec::new()).unwrap().to_string(), "");
}

#[test]
fn zero_width_rows_are_empty() {
    let game = Game::new(GameSize { width: 5, height: 0 }, 125);
    assert_eq!(game.to_string(), "");
    assert!(game.to_string_vec().is_empty());
}
