use snake_game::control::Turn;
use snake_game::game::{step_len_at, Game, GameStatus, StepOutcome, MAX_TAIL_LEN};
use snake_game::grid::{Coords, Direction};

fn at(row: i8, col: i8) -> Coords {
    Coords { row, col }
}

fn turn_of(letter: char) -> Turn {
    match letter {
        'L' => Turn::Left,
        'R' => Turn::Right,
        _ => Turn::Straight,
    }
}

/// Puts the food on the given cell of the grid, which must be free.
fn feed(game: &mut Game, row: u8, col: u8) {
    assert!(game.needs_food());
    assert_eq!(game.place_food(row, col), Some(at(row as i8, col as i8)));
    assert!(!game.needs_food());
}

/// Plays one step per letter; before each step the food is put on the cell
/// given for it, if the game waits for food.
fn play(game: &mut Game, turns: &str, foods: &[(u8, u8)]) {
    let mut foods = foods.iter();
    for letter in turns.chars() {
        if game.needs_food() {
            let (row, col) = *foods.next().unwrap();
            feed(game, row, col);
        }
        game.step(turn_of(letter));
    }
}

/// The cells of the grid that the snake records as occupied, row by row.
fn occupied(game: &Game) -> Vec<Coords> {
    let mut cells = Vec::new();
    for row in 0..5i8 {
        for col in 0..5i8 {
            if game.snake().occupies(&at(row, col)) {
                cells.push(at(row, col));
            }
        }
    }
    cells
}

fn body_sorted(game: &Game) -> Vec<Coords> {
    let mut body = game.snake().tail();
    body.push(game.snake().head());
    body.sort_by_key(|c| (c.row, c.col));
    body
}

/// The game after the snake has eaten five times in a row.
fn game_with_score_five() -> Game {
    let mut game = Game::new();
    play(&mut game, "SSRSR", &[(2, 3), (2, 4), (3, 4), (4, 4), (4, 3)]);
    game
}

const WINNING_TURNS: &str = "LLSRRSSSRRLLRSRRLLRSRRLL";

const WINNING_FOODS: [(u8, u8); 23] = [
    (1, 1),
    (1, 0),
    (0, 0),
    (0, 1),
    (0, 2),
    (0, 3),
    (0, 4),
    (1, 4),
    (1, 3),
    (2, 3),
    (2, 4),
    (3, 4),
    (4, 4),
    (4, 3),
    (3, 3),
    (3, 2),
    (4, 2),
    (4, 1),
    (4, 0),
    (3, 0),
    (3, 1),
    (2, 1),
    (2, 0),
];

#[test]
fn max_tail_len_leaves_two_cells_of_the_grid() {
    assert_eq!(MAX_TAIL_LEN, 23);
}

#[test]
fn new_game_starts_ongoing_without_food() {
    let game = Game::new();
    assert_eq!(game.status(), GameStatus::Ongoing);
    assert_eq!(game.score(), 0);
    assert_eq!(game.speed(), 1);
    assert_eq!(game.food(), None);
    assert!(game.needs_food());
    assert_eq!(game.snake().head(), at(2, 2));
    assert_eq!(game.snake().tail(), vec![at(2, 1)]);
    assert_eq!(game.snake().direction(), Direction::Right);
    assert_eq!(game.step_len_ms(), 1000);
}

#[test]
fn place_food_rejects_the_cells_of_the_snake() {
    let mut game = Game::new();
    assert_eq!(game.place_food(2, 2), None);
    assert!(game.needs_food());
    assert_eq!(game.place_food(2, 1), None);
    assert_eq!(game.place_food(7, 6), None);
    assert!(game.needs_food());
    assert_eq!(game.food(), None);
}

#[test]
fn place_food_accepts_a_free_cell() {
    let mut game = Game::new();
    assert_eq!(game.place_food(7, 13), Some(at(2, 3)));
    assert_eq!(game.food(), Some(at(2, 3)));
    assert!(!game.needs_food());
}

#[test]
fn place_food_takes_the_first_free_draw() {
    let mut game = Game::new();
    let draws = [(2u8, 2u8), (2, 1), (12, 11), (4, 0), (1, 1)];
    let mut placed = None;
    for (row_byte, col_byte) in draws {
        if !game.needs_food() {
            break;
        }
        placed = game.place_food(row_byte, col_byte);
    }
    assert_eq!(placed, Some(at(4, 0)));
    assert_eq!(game.food(), Some(at(4, 0)));
}

#[test]
fn place_food_leaves_food_that_is_on_the_board() {
    let mut game = Game::new();
    feed(&mut game, 0, 0);
    assert_eq!(game.place_food(4, 4), None);
    assert_eq!(game.food(), Some(at(0, 0)));
}

#[test]
fn placed_food_is_never_on_the_snake() {
    for row_byte in 0..50u8 {
        for col_byte in 0..50u8 {
            let mut trial = Game::new();
            play(&mut trial, "SS", &[(2, 3), (2, 4)]);
            assert!(trial.needs_food());
            match trial.place_food(row_byte, col_byte) {
                Some(cell) => {
                    assert!(!cell.is_out_of_bounds());
                    assert!(!trial.snake().occupies(&cell));
                    assert_eq!(cell, at((row_byte % 5) as i8, (col_byte % 5) as i8));
                },
                None => {
                    assert!(trial.snake().occupies(&at((row_byte % 5) as i8, (col_byte % 5) as i8)));
                },
            }
        }
    }
}

#[test]
fn step_waits_for_food() {
    let mut game = Game::new();
    game.step(Turn::Left);
    assert_eq!(game.snake().head(), at(2, 2));
    assert_eq!(game.snake().tail(), vec![at(2, 1)]);
    assert_eq!(game.snake().direction(), Direction::Right);
    assert_eq!(game.status(), GameStatus::Ongoing);
    assert_eq!(game.score(), 0);
    assert!(game.needs_food());
}

#[test]
fn one_move_step_from_the_start() {
    let mut game = Game::new();
    feed(&mut game, 0, 0);
    assert_eq!(game.get_step_outcome(), StepOutcome::Move(at(2, 3)));
    game.step(Turn::Straight);
    assert_eq!(game.snake().head(), at(2, 3));
    assert_eq!(game.snake().tail(), vec![at(2, 2)]);
    assert_eq!(occupied(&game), vec![at(2, 2), at(2, 3)]);
    assert_eq!(game.status(), GameStatus::Ongoing);
    assert_eq!(game.score(), 0);
    assert_eq!(game.speed(), 1);
    assert_eq!(game.food(), Some(at(0, 0)));
}

#[test]
fn step_turns_before_it_moves() {
    let mut game = Game::new();
    feed(&mut game, 0, 0);
    game.step(Turn::Left);
    assert_eq!(game.snake().direction(), Direction::Up);
    assert_eq!(game.snake().head(), at(1, 2));
    game.step(Turn::Right);
    assert_eq!(game.snake().direction(), Direction::Right);
    assert_eq!(game.snake().head(), at(1, 3));
    game.step(Turn::Right);
    assert_eq!(game.snake().direction(), Direction::Down);
    assert_eq!(game.snake().head(), at(2, 3));
    assert_eq!(game.snake().tail(), vec![at(1, 3)]);
}

#[test]
fn eating_grows_the_snake_and_takes_the_food() {
    let mut game = Game::new();
    feed(&mut game, 2, 3);
    assert_eq!(game.get_step_outcome(), StepOutcome::Eat(at(2, 3)));
    game.step(Turn::Straight);
    assert_eq!(game.snake().head(), at(2, 3));
    assert_eq!(game.snake().tail(), vec![at(2, 1), at(2, 2)]);
    assert_eq!(occupied(&game), vec![at(2, 1), at(2, 2), at(2, 3)]);
    assert_eq!(game.score(), 1);
    assert_eq!(game.speed(), 1);
    assert_eq!(game.status(), GameStatus::Ongoing);
    assert_eq!(game.food(), None);
    assert!(game.needs_food());
}

#[test]
fn fifth_point_raises_the_speed() {
    let mut game = Game::new();
    play(&mut game, "SSRS", &[(2, 3), (2, 4), (3, 4), (4, 4)]);
    assert_eq!(game.score(), 4);
    assert_eq!(game.speed(), 1);
    assert_eq!(game.step_len_ms(), 1000);
    feed(&mut game, 4, 3);
    assert_eq!(game.get_step_outcome(), StepOutcome::OutOfBounds(at(5, 4)));
    game.step(Turn::Right);
    assert_eq!(game.score(), 5);
    assert_eq!(game.speed(), 2);
    assert_eq!(game.step_len_ms(), 800);
}

#[test]
fn speed_rises_with_every_fifth_point() {
    let mut game = Game::new();
    let mut foods = WINNING_FOODS.iter();
    for letter in WINNING_TURNS.chars() {
        if game.needs_food() {
            let (row, col) = *foods.next().unwrap();
            feed(&mut game, row, col);
        }
        game.step(turn_of(letter));
        assert_eq!(game.speed(), 1 + game.score() / 5);
        assert_eq!(game.score() as usize + 1, game.snake().tail_len());
    }
    assert_eq!(game.score(), 22);
    assert_eq!(game.speed(), 5);
    assert_eq!(game.step_len_ms(), 200);
}

#[test]
fn score_of_seven_lights_one_row_and_two_cells() {
    let mut game = game_with_score_five();
    play(&mut game, "SS", &[(4, 2), (4, 1)]);
    assert_eq!(game.score(), 7);
    assert_eq!(
        game.score_matrix(9),
        [[9, 9, 9, 9, 9], [9, 9, 0, 0, 0], [0, 0, 0, 0, 0], [0, 0, 0, 0, 0], [0, 0, 0, 0, 0]]
    );
}

#[test]
fn score_matrix_of_a_new_game_is_dark() {
    let game = Game::new();
    assert_eq!(game.score_matrix(9), [[0u8; 5]; 5]);
}

#[test]
fn score_matrix_of_one_point_lights_the_first_cell() {
    let mut game = Game::new();
    play(&mut game, "S", &[(2, 3)]);
    assert_eq!(
        game.score_matrix(6),
        [[6, 0, 0, 0, 0], [0, 0, 0, 0, 0], [0, 0, 0, 0, 0], [0, 0, 0, 0, 0], [0, 0, 0, 0, 0]]
    );
}

#[test]
fn score_matrix_of_five_points_lights_the_first_row() {
    let game = game_with_score_five();
    assert_eq!(
        game.score_matrix(1),
        [[1, 1, 1, 1, 1], [0, 0, 0, 0, 0], [0, 0, 0, 0, 0], [0, 0, 0, 0, 0], [0, 0, 0, 0, 0]]
    );
}

#[test]
fn score_matrix_of_the_highest_score_fits_the_grid() {
    let mut game = Game::new();
    play(&mut game, WINNING_TURNS, &WINNING_FOODS);
    assert_eq!(game.score(), 22);
    assert_eq!(
        game.score_matrix(3),
        [[3, 3, 3, 3, 3], [3, 3, 3, 3, 3], [3, 3, 3, 3, 3], [3, 3, 3, 3, 3], [3, 3, 0, 0, 0]]
    );
}

#[test]
fn score_matrix_with_no_brightness_is_dark() {
    let game = game_with_score_five();
    assert_eq!(game.score_matrix(0), [[0u8; 5]; 5]);
}

#[test]
fn game_matrix_shows_head_tail_and_food() {
    let mut game = Game::new();
    feed(&mut game, 0, 0);
    game.step(Turn::Straight);
    assert_eq!(
        game.game_matrix(8, 4, 2),
        [[2, 0, 0, 0, 0], [0, 0, 0, 0, 0], [0, 0, 4, 8, 0], [0, 0, 0, 0, 0], [0, 0, 0, 0, 0]]
    );
}

#[test]
fn game_matrix_without_food_shows_the_snake_alone() {
    let game = Game::new();
    assert_eq!(
        game.game_matrix(8, 4, 2),
        [[0, 0, 0, 0, 0], [0, 0, 0, 0, 0], [0, 4, 8, 0, 0], [0, 0, 0, 0, 0], [0, 0, 0, 0, 0]]
    );
}

#[test]
fn game_matrix_of_a_long_snake() {
    let mut game = Game::new();
    play(&mut game, &WINNING_TURNS[..12], &WINNING_FOODS);
    feed(&mut game, 3, 4);
    assert_eq!(game.snake().head(), at(2, 4));
    assert_eq!(game.score(), 11);
    assert_eq!(game.speed(), 3);
    assert_eq!(game.food(), Some(at(3, 4)));
    assert_eq!(
        game.game_matrix(9, 5, 1),
        [[5, 5, 5, 5, 5], [5, 5, 5, 5, 5], [0, 0, 5, 5, 9], [0, 0, 0, 0, 1], [0, 0, 0, 0, 0]]
    );
    assert_eq!(
        game.score_matrix(7),
        [[7, 7, 7, 7, 7], [7, 7, 7, 7, 7], [7, 0, 0, 0, 0], [0, 0, 0, 0, 0], [0, 0, 0, 0, 0]]
    );
}

#[test]
fn leaving_the_grid_to_the_right_loses() {
    let mut game = Game::new();
    feed(&mut game, 0, 0);
    game.step(Turn::Straight);
    game.step(Turn::Straight);
    assert_eq!(game.snake().head(), at(2, 4));
    assert_eq!(game.status(), GameStatus::Ongoing);
    assert_eq!(game.get_step_outcome(), StepOutcome::OutOfBounds(at(2, 5)));
    game.step(Turn::Straight);
    assert_eq!(game.status(), GameStatus::Lost);
    assert_eq!(game.snake().head(), at(2, 4));
    assert_eq!(game.snake().tail(), vec![at(2, 3)]);
}

#[test]
fn up_from_the_top_row_is_out_of_bounds() {
    let mut game = Game::new();
    feed(&mut game, 4, 4);
    game.step(Turn::Left);
    game.step(Turn::Straight);
    assert_eq!(game.snake().head(), at(0, 2));
    assert_eq!(game.snake().direction(), Direction::Up);
    assert_eq!(game.get_step_outcome(), StepOutcome::OutOfBounds(at(-1, 2)));
    game.step(Turn::Straight);
    assert_eq!(game.status(), GameStatus::Lost);
}

#[test]
fn leaving_the_grid_at_the_bottom_and_left_loses() {
    let mut game = Game::new();
    feed(&mut game, 0, 0);
    play(&mut game, "RSS", &[]);
    assert_eq!(game.status(), GameStatus::Lost);
    assert_eq!(game.snake().head(), at(4, 2));

    let mut game = Game::new();
    feed(&mut game, 0, 0);
    play(&mut game, "LLS", &[]);
    assert_eq!(game.snake().head(), at(1, 0));
    assert_eq!(game.status(), GameStatus::Ongoing);
    assert_eq!(game.get_step_outcome(), StepOutcome::OutOfBounds(at(1, -1)));
    game.step(Turn::Straight);
    assert_eq!(game.status(), GameStatus::Lost);
}

#[test]
fn running_into_the_body_loses() {
    let mut game = Game::new();
    play(&mut game, "SLL", &[(2, 3), (1, 3), (1, 2)]);
    assert_eq!(game.snake().head(), at(1, 2));
    assert_eq!(game.snake().tail(), vec![at(2, 1), at(2, 2), at(2, 3), at(1, 3)]);
    feed(&mut game, 4, 4);
    game.step(Turn::Left);
    assert_eq!(game.status(), GameStatus::Lost);
    assert_eq!(game.snake().head(), at(1, 2));
    assert_eq!(game.snake().direction(), Direction::Down);
    assert_eq!(game.score(), 3);
}

#[test]
fn outcome_is_assessed_for_the_heading_as_it_is() {
    let mut game = Game::new();
    play(&mut game, "SLL", &[(2, 3), (1, 3), (1, 2)]);
    feed(&mut game, 4, 4);
    assert_eq!(game.snake().direction(), Direction::Left);
    assert_eq!(game.get_step_outcome(), StepOutcome::Move(at(1, 1)));
    game.step(Turn::Left);
    assert_eq!(game.snake().direction(), Direction::Down);
    assert_eq!(game.get_step_outcome(), StepOutcome::Collision(at(2, 2)));
    assert_eq!(game.status(), GameStatus::Lost);
}

#[test]
fn step_onto_the_tail_end_is_a_move() {
    let mut game = Game::new();
    play(&mut game, "SLL", &[(2, 3), (1, 3), (4, 4)]);
    assert_eq!(game.snake().head(), at(1, 2));
    assert_eq!(game.snake().tail(), vec![at(2, 2), at(2, 3), at(1, 3)]);
    assert!(game.snake().occupies(&at(2, 2)));
    assert_eq!(game.snake().tail_end(), Some(at(2, 2)));

    game.step(Turn::Left);
    assert_eq!(game.status(), GameStatus::Ongoing);
    assert_eq!(game.snake().head(), at(2, 2));
    assert_eq!(game.snake().tail(), vec![at(2, 3), at(1, 3), at(1, 2)]);
    assert_eq!(game.score(), 2);
}

#[test]
fn step_onto_the_tail_end_keeps_the_cell_occupied() {
    let mut game = Game::new();
    play(&mut game, "SLLL", &[(2, 3), (1, 3), (4, 4)]);
    assert_eq!(game.status(), GameStatus::Ongoing);
    assert_eq!(game.snake().head(), at(2, 2));
    assert_eq!(game.snake().tail(), vec![at(2, 3), at(1, 3), at(1, 2)]);
    assert_eq!(occupied(&game), vec![at(1, 2), at(1, 3), at(2, 2), at(2, 3)]);
    assert_eq!(occupied(&game), body_sorted(&game));
}

#[test]
fn circling_snake_stays_whole() {
    let mut game = Game::new();
    play(&mut game, "SLLL", &[(2, 3), (1, 3), (4, 4)]);
    for _ in 0..9 {
        game.step(Turn::Left);
        assert_eq!(game.status(), GameStatus::Ongoing);
        assert_eq!(occupied(&game), vec![at(1, 2), at(1, 3), at(2, 2), at(2, 3)]);
        assert_eq!(occupied(&game), body_sorted(&game));
    }
    assert_eq!(game.snake().head(), at(2, 3));
    assert_eq!(game.snake().tail(), vec![at(1, 3), at(1, 2), at(2, 2)]);
}

#[test]
fn food_is_never_placed_on_the_body_after_a_step_onto_the_tail_end() {
    let mut game = Game::new();
    play(&mut game, "SLLLSSLS", &[(2, 3), (1, 3), (4, 4)]);
    assert_eq!(game.score(), 3);
    assert_eq!(game.snake().head(), at(4, 4));
    assert_eq!(game.snake().tail(), vec![at(2, 2), at(3, 2), at(4, 2), at(4, 3)]);
    assert!(game.needs_food());
    let mut body = game.snake().tail();
    body.push(game.snake().head());
    for cell in body {
        assert_eq!(game.place_food(cell.row as u8, cell.col as u8), None);
        assert!(game.needs_food());
    }
    assert_eq!(game.place_food(0, 0), Some(at(0, 0)));
}

#[test]
fn eating_into_a_full_grid_wins() {
    let mut game = Game::new();
    play(&mut game, &WINNING_TURNS[..23], &WINNING_FOODS);
    feed(&mut game, 2, 0);
    assert_eq!(game.status(), GameStatus::Ongoing);
    assert_eq!(game.snake().tail_len(), 23);
    assert_eq!(game.snake().head(), at(2, 1));
    assert_eq!(game.snake().direction(), Direction::Up);
    assert_eq!(game.food(), Some(at(2, 0)));
    assert_eq!(
        game.game_matrix(9, 5, 1),
        [[5, 5, 5, 5, 5], [5, 5, 5, 5, 5], [1, 9, 5, 5, 5], [5, 5, 5, 5, 5], [5, 5, 5, 5, 5]]
    );
    game.step(Turn::Left);
    assert_eq!(game.status(), GameStatus::Won);
    assert_eq!(game.score(), 22);
    assert_eq!(game.snake().head(), at(2, 1));
    assert_eq!(game.snake().tail_len(), 23);
    assert_eq!(game.food(), Some(at(2, 0)));
}

#[test]
fn full_outcome_is_given_at_the_longest_tail() {
    let mut game = Game::new();
    play(&mut game, &WINNING_TURNS[..23], &WINNING_FOODS);
    feed(&mut game, 2, 0);
    assert_eq!(game.get_step_outcome(), StepOutcome::Collision(at(1, 1)));
    game.step(Turn::Left);
    assert_eq!(game.status(), GameStatus::Won);
    assert_eq!(game.get_step_outcome(), StepOutcome::Full(at(2, 0)));
}

#[test]
fn every_draw_but_one_is_rejected_on_the_nearly_full_grid() {
    let mut game = Game::new();
    play(&mut game, &WINNING_TURNS[..23], &WINNING_FOODS[..22]);
    assert!(game.needs_food());
    for row_byte in 0..5u8 {
        for col_byte in 0..5u8 {
            if (row_byte, col_byte) != (2, 0) {
                assert_eq!(game.place_food(row_byte, col_byte), None);
            }
        }
    }
    assert_eq!(game.place_food(2, 0), Some(at(2, 0)));
}

#[test]
fn step_does_nothing_once_the_game_is_lost() {
    let mut game = Game::new();
    feed(&mut game, 0, 0);
    play(&mut game, "SSS", &[]);
    assert_eq!(game.status(), GameStatus::Lost);
    game.step(Turn::Left);
    game.step(Turn::Straight);
    assert_eq!(game.status(), GameStatus::Lost);
    assert_eq!(game.snake().head(), at(2, 4));
    assert_eq!(game.snake().direction(), Direction::Right);
    assert_eq!(game.snake().tail(), vec![at(2, 3)]);
}

#[test]
fn step_does_nothing_once_the_game_is_won() {
    let mut game = Game::new();
    play(&mut game, WINNING_TURNS, &WINNING_FOODS);
    assert_eq!(game.status(), GameStatus::Won);
    game.step(Turn::Right);
    assert_eq!(game.status(), GameStatus::Won);
    assert_eq!(game.snake().head(), at(2, 1));
    assert_eq!(game.snake().direction(), Direction::Left);
    assert_eq!(game.score(), 22);
}

#[test]
fn reset_starts_over() {
    let mut game = game_with_score_five();
    feed(&mut game, 0, 0);
    play(&mut game, "SSSSS", &[]);
    assert_eq!(game.status(), GameStatus::Lost);
    game.reset();
    assert_eq!(game.status(), GameStatus::Ongoing);
    assert_eq!(game.score(), 0);
    assert_eq!(game.speed(), 1);
    assert_eq!(game.step_len_ms(), 1000);
    assert_eq!(game.food(), None);
    assert!(game.needs_food());
    assert_eq!(game.snake().head(), at(2, 2));
    assert_eq!(game.snake().tail(), vec![at(2, 1)]);
    assert_eq!(game.snake().direction(), Direction::Right);
    assert_eq!(occupied(&game), vec![at(2, 1), at(2, 2)]);
    feed(&mut game, 2, 3);
    game.step(Turn::Straight);
    assert_eq!(game.score(), 1);
}

#[test]
fn get_step_outcome_leaves_the_game_alone() {
    let mut game = Game::new();
    feed(&mut game, 2, 3);
    assert_eq!(game.get_step_outcome(), StepOutcome::Eat(at(2, 3)));
    assert_eq!(game.get_step_outcome(), StepOutcome::Eat(at(2, 3)));
    assert_eq!(game.snake().head(), at(2, 2));
    assert_eq!(game.score(), 0);
    assert_eq!(game.food(), Some(at(2, 3)));
}

#[test]
fn occupied_cells_are_the_body_all_through_a_game() {
    let mut game = Game::new();
    let mut foods = WINNING_FOODS.iter();
    for letter in WINNING_TURNS.chars() {
        if game.needs_food() {
            let (row, col) = *foods.next().unwrap();
            feed(&mut game, row, col);
        }
        game.step(turn_of(letter));
        let body = body_sorted(&game);
        for pair in body.windows(2) {
            assert_ne!(pair[0], pair[1]);
        }
        assert_eq!(occupied(&game), body);
    }
    assert_eq!(game.status(), GameStatus::Won);
}

#[test]
fn step_len_starts_at_a_second_and_stops_at_a_fifth() {
    assert_eq!(step_len_at(1), 1000);
    assert_eq!(step_len_at(2), 800);
    assert_eq!(step_len_at(3), 600);
    assert_eq!(step_len_at(4), 400);
    assert_eq!(step_len_at(5), 200);
    assert_eq!(step_len_at(6), 200);
    assert_eq!(step_len_at(7), 200);
    assert_eq!(step_len_at(255), 200);
}

#[test]
fn step_len_at_level_zero_follows_the_formula() {
    assert_eq!(step_len_at(0), 1200);
}

#[test]
fn step_len_never_rises_with_the_speed() {
    let mut last = step_len_at(1);
    for speed in 1..=255u8 {
        let ms = step_len_at(speed);
        assert!(ms >= 200);
        assert!(ms <= last);
        last = ms;
    }
}
