//! The game engine: one discrete step at a time it turns the snake,
//! projects its next cell, classifies what happens there and updates the
//! state; it also renders the state into frames for the display.
//!
//! The engine draws no random numbers itself. Whenever the board has no
//! food, after `new`, `reset` and each `Eat`, the game waits: the driver
//! draws two bytes from its random source and hands them to `place_food`,
//! again and again until a draw is accepted. `step` does nothing while the
//! game waits for food or is over.

use crate::control::Turn;
use crate::grid::{Coords, Direction, N_COLS, N_ROWS};
use crate::snake::{Snake, SnakeView};
use vstd::prelude::*;
use vstd::set_lib::{lemma_int_range, lemma_len_subset, lemma_map_size, set_int_range};

verus! {

/// The length of the tail at which the snake and the food fill the grid:
/// two cells less than the grid has.
pub const MAX_TAIL_LEN: usize = N_ROWS * N_COLS - 2;

/// Whether the game is still running, and how it ended if not.
#[derive(Debug, Clone, Copy, PartialEq, Eq, Structural)]
pub enum GameStatus {
    Won,
    Lost,
    Ongoing,
}

/// The outcome of a single move/step.
#[derive(Debug, Clone, Copy, PartialEq, Eq, Structural)]
pub enum StepOutcome {
    /// Grid full (player wins)
    Full(Coords),
    /// Snake has collided with itself (player loses)
    Collision(Coords),
    /// Snake has left the edge of the grid (player loses)
    OutOfBounds(Coords),
    /// Snake has eaten some food
    Eat(Coords),
    /// Snake has moved (and nothing else has happened)
    Move(Coords),
}

/// The interval between two steps, in milliseconds, at a speed level: a
/// second at level 1, a fifth of a second less with each level, and never
/// less than a fifth of a second.
pub open spec fn spec_step_len_ms(speed: u8) -> int {
    let result = 1000 - 200 * (speed - 1);
    if result > 200 {
        result
    } else {
        200
    }
}

/// Computes the interval between two steps at a speed level, in
/// milliseconds.
pub fn step_len_at(speed: u8) -> (ms: u32)
    ensures
        ms == spec_step_len_ms(speed),
{
    let result: i32 = 1000 - (200 * ((speed as i32) - 1));
    if result > 200 {
        result as u32
    } else {
        200
    }
}

/// The game as a mathematical value.
pub struct GameView {
    /// The snake.
    pub snake: SnakeView,
    /// The cell of the food, or `None` while the game waits for food.
    pub food: Option<Coords>,
    /// The speed level.
    pub speed: u8,
    /// Whether the game is running, won or lost.
    pub status: GameStatus,
    /// The number of times the snake has eaten.
    pub score: u8,
}

impl GameView {
    /// The game at its start: the snake in its starting position, no food
    /// on the board yet, speed level 1 and no points.
    pub open spec fn initial() -> GameView {
        GameView {
            snake: SnakeView::initial(),
            food: None,
            speed: 1,
            status: GameStatus::Ongoing,
            score: 0,
        }
    }

    /// What every game satisfies. The occupied cells are exactly the head
    /// and the cells of the tail, all distinct and all on the grid; the tail
    /// is no longer than `MAX_TAIL_LEN`; the score counts the cells that the
    /// tail has gained; the speed level has gone up by one for every five
    /// points; and the food lies on a cell of the grid that the snake does
    /// not occupy.
    pub open spec fn wf(self) -> bool {
        &&& self.snake.wf()
        &&& self.snake.consistent()
        &&& !self.snake.head.spec_is_out_of_bounds()
        &&& forall|i: int|
            0 <= i < self.snake.tail.len() ==> !(#[trigger] self.snake.tail[
                i
            ]).spec_is_out_of_bounds()
        &&& self.snake.tail.len() <= MAX_TAIL_LEN
        &&& self.score + 1 == self.snake.tail.len()
        &&& self.speed == 1 + self.score / 5
        &&& (self.food matches Some(food) ==> !food.spec_is_out_of_bounds()
            && !self.snake.cells.contains(food))
    }

    /// The cell that the head moves to with the next step.
    pub open spec fn next_cell(self) -> Coords {
        self.snake.head.spec_neighbour(self.snake.direction)
    }

    /// The outcome of the next step, for the heading as it is. In this
    /// order: leaving the grid is `OutOfBounds`; an occupied cell is a
    /// `Collision`, unless it is the end of the tail, which the snake leaves
    /// in the same step; the cell of the food is `Eat`, or `Full` when the
    /// tail has reached `MAX_TAIL_LEN`; anything else is a `Move`.
    pub open spec fn step_outcome(self) -> StepOutcome {
        let next = self.next_cell();
        if next.spec_is_out_of_bounds() {
            StepOutcome::OutOfBounds(next)
        } else if self.snake.cells.contains(next) {
            if next != self.snake.tail.first() {
                StepOutcome::Collision(next)
            } else {
                StepOutcome::Move(next)
            }
        } else if self.food == Some(next) {
            if self.snake.tail.len() == MAX_TAIL_LEN {
                StepOutcome::Full(next)
            } else {
                StepOutcome::Eat(next)
            }
        } else {
            StepOutcome::Move(next)
        }
    }

    /// The game after the outcome of a step was applied. Leaving the grid
    /// and a collision lose the game, a full grid wins it. Eating grows the
    /// snake onto the cell, takes the food off the board, adds a point and,
    /// with every fifth point, a speed level. A move takes the snake onto
    /// the cell.
    pub open spec fn handled(self, outcome: StepOutcome) -> GameView {
        match outcome {
            StepOutcome::OutOfBounds(_) => GameView { status: GameStatus::Lost, ..self },
            StepOutcome::Collision(_) => GameView { status: GameStatus::Lost, ..self },
            StepOutcome::Full(_) => GameView { status: GameStatus::Won, ..self },
            StepOutcome::Eat(cell) => GameView {
                snake: self.snake.moved(cell, true),
                food: None,
                speed: if (self.score + 1) % 5 == 0 {
                    (self.speed + 1) as u8
                } else {
                    self.speed
                },
                status: GameStatus::Ongoing,
                score: (self.score + 1) as u8,
            },
            StepOutcome::Move(cell) => GameView {
                snake: self.snake.moved(cell, false),
                status: GameStatus::Ongoing,
                ..self
            },
        }
    }

    /// True when a step is taken: the game is running and food is on the
    /// board.
    pub open spec fn takes_step(self) -> bool {
        self.status == GameStatus::Ongoing && self.food is Some
    }

    /// The game after one step with the given turn intent: the snake turns,
    /// the outcome of the step is assessed and applied. A game that is over
    /// or waits for food stays as it is.
    pub open spec fn stepped(self, turn: Turn) -> GameView {
        if self.takes_step() {
            let turned = GameView { snake: self.snake.turned(turn), ..self };
            turned.handled(turned.step_outcome())
        } else {
            self
        }
    }

    /// The cell where a draw of two bytes puts the food: the cell that the
    /// bytes stand for, if the game waits for food and the cell is not
    /// occupied.
    pub open spec fn food_drawn(self, row_byte: u8, col_byte: u8) -> Option<Coords> {
        if self.food is None {
            Coords::spec_random(row_byte, col_byte, Some(self.snake.cells))
        } else {
            None
        }
    }

    /// The game after a draw of two bytes was offered for the food.
    pub open spec fn fed(self, row_byte: u8, col_byte: u8) -> GameView {
        match self.food_drawn(row_byte, col_byte) {
            Some(cell) => GameView { food: Some(cell), ..self },
            None => self,
        }
    }

    /// The brightness of a cell in the frame of the playing field: that of
    /// the food on the food's cell, else that of the tail on a cell of the
    /// tail, else that of the head on the head's cell, else dark.
    pub open spec fn field_cell(
        self,
        cell: Coords,
        head_brightness: u8,
        tail_brightness: u8,
        food_brightness: u8,
    ) -> u8 {
        if self.food == Some(cell) {
            food_brightness
        } else if self.snake.tail.contains(cell) {
            tail_brightness
        } else if self.snake.head == cell {
            head_brightness
        } else {
            0
        }
    }

    /// The brightness of a cell in the frame of the score: counting the
    /// cells row by row from the top left, the first `score` cells are lit.
    pub open spec fn score_cell(self, cell: Coords, brightness: u8) -> u8 {
        if cell.row * N_COLS + cell.col < self.score {
            brightness
        } else {
            0
        }
    }
}

/// Struct to hold game state and associated behaviour
pub struct Game {
    snake: Snake,
    food_coords: Option<Coords>,
    speed: u8,
    status: GameStatus,
    score: u8,
}

impl View for Game {
    type V = GameView;

    closed spec fn view(&self) -> GameView {
        GameView {
            snake: self.snake@,
            food: self.food_coords,
            speed: self.speed,
            status: self.status,
            score: self.score,
        }
    }
}

impl Game {
    /// A new game. It waits for food.
    pub fn new() -> (game: Game)
        ensures
            game@ == GameView::initial(),
            game@.wf(),
            game@.snake.consistent(),
    {
        let snake = Snake::new();
        let game = Game {
            snake,
            food_coords: None,
            speed: 1,
            status: GameStatus::Ongoing,
            score: 0,
        };
        proof {
            lemma_initial_game();
        }
        game
    }

    /// Reset the game state to start a new game. The new game waits for
    /// food.
    pub fn reset(&mut self)
        ensures
            final(self)@ == GameView::initial(),
            final(self)@.wf(),
            final(self)@.snake.consistent(),
    {
        self.snake = Snake::new();
        self.food_coords = None;
        self.speed = 1;
        self.status = GameStatus::Ongoing;
        self.score = 0;
        proof {
            lemma_initial_game();
        }
    }

    /// Whether the game is running, won or lost.
    pub fn status(&self) -> (status: GameStatus)
        ensures
            status == self@.status,
    {
        self.status
    }

    /// The number of times the snake has eaten.
    pub fn score(&self) -> (score: u8)
        ensures
            score == self@.score,
    {
        self.score
    }

    /// The speed level.
    pub fn speed(&self) -> (speed: u8)
        ensures
            speed == self@.speed,
    {
        self.speed
    }

    /// The cell of the food, or `None` while the game waits for food.
    pub fn food(&self) -> (food: Option<Coords>)
        ensures
            food == self@.food,
    {
        self.food_coords
    }

    /// Tells whether the game waits for food.
    pub fn needs_food(&self) -> (waiting: bool)
        ensures
            waiting == (self@.food is None),
    {
        self.food_coords.is_none()
    }

    /// The snake.
    pub fn snake(&self) -> (snake: &Snake)
        ensures
            snake@ == self@.snake,
    {
        &self.snake
    }

    /// Offers one draw of two random bytes for the food. If the game waits
    /// for food and the cell that the bytes stand for is not occupied by the
    /// snake, the food is placed there and the cell is returned. Otherwise
    /// nothing changes and the result is `None`: while the game waits for
    /// food, the driver has to draw again.
    pub fn place_food(&mut self, row_byte: u8, col_byte: u8) -> (placed: Option<Coords>)
        requires
            old(self)@.wf(),
        ensures
            placed == old(self)@.food_drawn(row_byte, col_byte),
            final(self)@ == old(self)@.fed(row_byte, col_byte),
            final(self)@.wf(),
            placed matches Some(cell) ==> !cell.spec_is_out_of_bounds()
                && !final(self)@.snake.cells.contains(cell)
                && !final(self)@.snake.body().contains(cell),
    {
        proof {
            lemma_body_is_occupied(self@);
        }
        if self.food_coords.is_some() {
            return None;
        }
        let drawn = Coords::random(row_byte, col_byte, Some(self.snake.coord_set()));
        match drawn {
            Some(cell) => {
                self.food_coords = Some(cell);
            },
            None => {},
        }
        drawn
    }

    /// Assess the snake's next move and return the outcome. Doesn't actually
    /// update the game state.
    pub fn get_step_outcome(&self) -> (outcome: StepOutcome)
        requires
            self@.wf(),
        ensures
            outcome == self@.step_outcome(),
    {
        let head = self.snake.head();
        let next_move = head.neighbour(self.snake.direction());
        if next_move.is_out_of_bounds() {
            StepOutcome::OutOfBounds(next_move)
        } else if self.snake.occupies(&next_move) {
            // We haven't moved the snake yet, so if the next move is at the end of the tail, there
            // won't actually be any collision (as the tail will have moved by the time the head
            // moves onto the tile)
            if next_move != self.snake.tail_end().unwrap() {
                StepOutcome::Collision(next_move)
            } else {
                StepOutcome::Move(next_move)
            }
        } else if self.is_food(&next_move) {
            if self.snake.tail_len() == MAX_TAIL_LEN {
                StepOutcome::Full(next_move)
            } else {
                StepOutcome::Eat(next_move)
            }
        } else {
            StepOutcome::Move(next_move)
        }
    }

    /// Tells whether the food lies on the cell.
    fn is_food(&self, cell: &Coords) -> (found: bool)
        ensures
            found == (self@.food == Some(*cell)),
    {
        match self.food_coords {
            Some(food) => food == *cell,
            None => false,
        }
    }

    /// Handle the outcome of a step, updating the game's internal state.
    /// The outcome is the one that `get_step_outcome` gave for this game.
    fn handle_step_outcome(&mut self, outcome: StepOutcome)
        requires
            old(self)@.wf(),
            outcome == old(self)@.step_outcome(),
        ensures
            final(self)@ == old(self)@.handled(outcome),
            final(self)@.wf(),
    {
        proof {
            lemma_handled_keeps_wf(self@);
        }
        self.status =
        match outcome {
            StepOutcome::OutOfBounds(_) => GameStatus::Lost,
            StepOutcome::Collision(_) => GameStatus::Lost,
            StepOutcome::Full(_) => GameStatus::Won,
            StepOutcome::Eat(c) => {
                self.snake.move_snake(c, true);
                self.food_coords = None;
                self.score += 1;
                if self.score % 5 == 0 {
                    self.speed += 1
                }
                GameStatus::Ongoing
            },
            StepOutcome::Move(c) => {
                self.snake.move_snake(c, false);
                GameStatus::Ongoing
            },
        }
    }

    /// Advances the game by one step: the snake turns as the intent says,
    /// then the outcome of its next move is assessed and applied. A game
    /// that is won or lost, or that waits for food, is left as it is.
    pub fn step(&mut self, turn: Turn)
        requires
            old(self)@.wf(),
        ensures
            final(self)@ == old(self)@.stepped(turn),
            final(self)@.wf(),
            final(self)@.snake.consistent(),
    {
        proof {
            lemma_step_keeps_wf(self@, turn);
        }
        if self.status != GameStatus::Ongoing || self.food_coords.is_none() {
            return ;
        }
        self.snake.turn(turn);
        let outcome = self.get_step_outcome();
        self.handle_step_outcome(outcome);
    }

    /// Calculate the length of time to wait between game steps, in
    /// milliseconds. It gets lower as the speed level goes up with the
    /// player's score, and never falls below 200.
    pub fn step_len_ms(&self) -> (ms: u32)
        ensures
            ms == spec_step_len_ms(self@.speed),
    {
        step_len_at(self.speed)
    }

    /// Return an array representing the game state, which can be used to
    /// display the state on the LED matrix: the head, the tail and the food
    /// each in its own brightness, all other cells dark.
    pub fn game_matrix(
        &self,
        head_brightness: u8,
        tail_brightness: u8,
        food_brightness: u8,
    ) -> (values: [[u8; N_COLS]; N_ROWS])
        requires
            self@.wf(),
        ensures
            forall|r: int, c: int|
                0 <= r < N_ROWS && 0 <= c < N_COLS ==> #[trigger] values[r][c] == self@.field_cell(
                    Coords { row: r as i8, col: c as i8 },
                    head_brightness,
                    tail_brightness,
                    food_brightness,
                ),
    {
        let mut values = [[0u8; N_COLS]; N_ROWS];
        let head = self.snake.head();
        values[head.row as usize][head.col as usize] = head_brightness;
        let tail = self.snake.tail();
        let mut i: usize = 0;
        while i < tail.len()
            invariant
                i <= tail.len(),
                tail@ == self@.snake.tail,
                self@.wf(),
                forall|r: int, c: int|
                    0 <= r < N_ROWS && 0 <= c < N_COLS ==> #[trigger] values[r][c] == (if tail@.take(
                        i as int,
                    ).contains(Coords { row: r as i8, col: c as i8 }) {
                        tail_brightness
                    } else if self@.snake.head == (Coords { row: r as i8, col: c as i8 }) {
                        head_brightness
                    } else {
                        0
                    }),
            decreases tail.len() - i,
        {
            let t = tail[i];
            let ghost before = values;
            values[t.row as usize][t.col as usize] = tail_brightness;
            proof {
                lemma_take_one_more(tail@, i as int);
                assert forall|r: int, c: int| 0 <= r < N_ROWS && 0 <= c < N_COLS implies (
                #[trigger] values[r][c]) == (if r == t.row && c == t.col {
                    tail_brightness
                } else {
                    before[r][c]
                }) by {}
            }
            i += 1;
        }
        proof {
            assert(tail@.take(tail.len() as int) =~= tail@);
        }
        let ghost before = values;
        match self.food_coords {
            Some(food) => {
                values[food.row as usize][food.col as usize] = food_brightness;
                assert forall|r: int, c: int| 0 <= r < N_ROWS && 0 <= c < N_COLS implies (
                #[trigger] values[r][c]) == (if r == food.row && c == food.col {
                    food_brightness
                } else {
                    before[r][c]
                }) by {}
            },
            None => {},
        }
        values
    }

    /// Return an array representing the game score, which can be used to
    /// display the score on the LED matrix by lighting as many cells as the
    /// score says, going left to right and top to bottom.
    ///
    /// The score must not exceed the number of cells, so that the bar fits
    /// the grid. The score of a well-formed game never does.
    pub fn score_matrix(&self, brightness: u8) -> (values: [[u8; N_COLS]; N_ROWS])
        requires
            self@.score <= N_ROWS * N_COLS,
        ensures
            forall|r: int, c: int|
                0 <= r < N_ROWS && 0 <= c < N_COLS ==> #[trigger] values[r][c] == self@.score_cell(
                    Coords { row: r as i8, col: c as i8 },
                    brightness,
                ),
    {
        let mut values = [[0u8; N_COLS]; N_ROWS];
        let full_rows = (self.score as usize) / N_COLS;
        let rest = (self.score as usize) % N_COLS;
        for r in 0..full_rows
            invariant
                full_rows <= N_ROWS,
                forall|y: int, x: int|
                    0 <= y < N_ROWS && 0 <= x < N_COLS ==> #[trigger] values[y][x] == (if y < r {
                        brightness
                    } else {
                        0
                    }),
        {
            values[r] = [brightness; N_COLS];
        }
        for c in 0..rest
            invariant
                full_rows <= N_ROWS,
                rest > 0 ==> full_rows < N_ROWS,
                rest < N_COLS,
                forall|y: int, x: int|
                    0 <= y < N_ROWS && 0 <= x < N_COLS ==> #[trigger] values[y][x] == (if y
                        < full_rows || (y == full_rows && x < c) {
                        brightness
                    } else {
                        0
                    }),
        {
            values[full_rows][c] = brightness;
        }
        values
    }
}

/// The first `n + 1` items of a sequence hold what its first `n` items hold,
/// and the item at `n`.
proof fn lemma_take_one_more(s: Seq<Coords>, n: int)
    requires
        0 <= n < s.len(),
    ensures
        forall|cell: Coords| #[trigger]
            s.take(n + 1).contains(cell) <==> s.take(n).contains(cell) || cell == s[n],
{
    let fewer = s.take(n);
    let more = s.take(n + 1);
    assert forall|cell: Coords| #[trigger]
        more.contains(cell) <==> fewer.contains(cell) || cell == s[n] by {
        if fewer.contains(cell) {
            let j = choose|j: int| 0 <= j < fewer.len() && fewer[j] == cell;
            assert(more[j] == cell);
        }
        if cell == s[n] {
            assert(more[n] == cell);
        }
        if more.contains(cell) {
            let j = choose|j: int| 0 <= j < more.len() && more[j] == cell;
            if j < n {
                assert(fewer[j] == cell);
            }
        }
    }
}

/// A new game is well formed, and the occupied cells of its snake are
/// exactly the cells of its body.
pub proof fn lemma_initial_game()
    ensures
        GameView::initial().wf(),
        GameView::initial().snake.consistent(),
{
    crate::snake::lemma_initial_snake();
}

/// Every cell of the body of a well-formed game is recorded as occupied,
/// and nothing else is.
pub proof fn lemma_body_is_occupied(g: GameView)
    requires
        g.wf(),
    ensures
        forall|cell: Coords| g.snake.cells.contains(cell) <==> g.snake.body().contains(cell),
{
    let s = g.snake;
    assert forall|cell: Coords| s.body().contains(cell) implies s.cells.contains(cell) by {
        let i = choose|i: int| 0 <= i < s.body().len() && s.body()[i] == cell;
        if i < s.tail.len() {
            assert(s.tail.to_set().contains(s.tail[i]));
        }
    }
}

/// Applying the outcome of the next step keeps the game well formed.
pub proof fn lemma_handled_keeps_wf(g: GameView)
    requires
        g.wf(),
    ensures
        g.handled(g.step_outcome()).wf(),
{
    lemma_body_is_occupied(g);
    assert(g.snake.body()[0] == g.snake.tail.first());
    match g.step_outcome() {
        StepOutcome::Eat(cell) => {
            crate::snake::lemma_move_keeps_wf(g.snake, cell, true);
            crate::snake::lemma_move_keeps_consistent(g.snake, cell, true);
        },
        StepOutcome::Move(cell) => {
            crate::snake::lemma_move_keeps_wf(g.snake, cell, false);
            crate::snake::lemma_move_keeps_consistent(g.snake, cell, false);
        },
        _ => {},
    }
}

/// Every step keeps the game well formed.
pub proof fn lemma_step_keeps_wf(g: GameView, turn: Turn)
    requires
        g.wf(),
    ensures
        g.stepped(turn).wf(),
{
    if g.takes_step() {
        let turned = GameView { snake: g.snake.turned(turn), ..g };
        lemma_handled_keeps_wf(turned);
    }
}

/// After every step the occupied cells are exactly the head and the cells
/// of the tail, and no cell occurs twice in the body. This holds of the step
/// onto the cell of the end of the tail too: the tail gives the cell up and
/// the head takes it.
pub proof fn lemma_step_keeps_consistent(g: GameView, turn: Turn)
    requires
        g.wf(),
    ensures
        g.stepped(turn).snake.consistent(),
        forall|cell: Coords|
            g.stepped(turn).snake.cells.contains(cell) <==> g.stepped(turn).snake.body().contains(
                cell,
            ),
{
    lemma_step_keeps_wf(g, turn);
    lemma_body_is_occupied(g.stepped(turn));
}

/// A step onto the cell that the end of the tail occupies is a `Move`, not
/// a `Collision`.
pub proof fn lemma_step_onto_tail_end_is_move(g: GameView)
    requires
        g.wf(),
        g.next_cell() == g.snake.tail.first(),
    ensures
        g.step_outcome() == StepOutcome::Move(g.next_cell()),
{
    lemma_body_is_occupied(g);
    assert(g.snake.body()[0] == g.snake.tail.first());
}

/// A step upwards from the top row leaves the grid.
pub proof fn lemma_up_from_top_row_is_out_of_bounds(g: GameView)
    requires
        g.snake.head.row == 0,
        g.snake.direction == Direction::Up,
    ensures
        g.step_outcome() == StepOutcome::OutOfBounds(Coords { row: -1i8, col: g.snake.head.col }),
{
}

/// A step never takes a point or a speed level away.
pub proof fn lemma_step_never_slows(g: GameView, turn: Turn)
    requires
        g.wf(),
    ensures
        g.stepped(turn).score >= g.score,
        g.stepped(turn).speed >= g.speed,
        spec_step_len_ms(g.stepped(turn).speed) <= spec_step_len_ms(g.speed),
{
    lemma_step_keeps_wf(g, turn);
}

/// A game that is won or lost stays as it is, whatever steps follow.
pub proof fn lemma_finished_game_stays(g: GameView, turn: Turn)
    requires
        g.status != GameStatus::Ongoing,
    ensures
        g.stepped(turn) == g,
{
}

/// The cells of the grid.
pub open spec fn grid_cells() -> Set<Coords> {
    Set::new(|cell: Coords| !cell.spec_is_out_of_bounds())
}

/// The grid has as many cells as its rows and columns say.
pub proof fn lemma_grid_cells_len()
    ensures
        grid_cells().finite(),
        grid_cells().len() == N_ROWS * N_COLS,
{
    let numbers = set_int_range(0, 25);
    let cell_at = |k: int| Coords { row: (k / 5) as i8, col: (k % 5) as i8 };
    lemma_int_range(0, 25);
    assert(vstd::relations::injective_on(cell_at, numbers)) by {
        assert forall|k1: int, k2: int|
            numbers.contains(k1) && numbers.contains(k2) && #[trigger] cell_at(k1)
                == #[trigger] cell_at(k2) implies k1 == k2 by {
            assert(cell_at(k1).row == k1 / 5 && cell_at(k1).col == k1 % 5);
            assert(cell_at(k2).row == k2 / 5 && cell_at(k2).col == k2 % 5);
        }
    }
    assert(numbers.map(cell_at) =~= grid_cells()) by {
        assert forall|cell: Coords| grid_cells().contains(cell) implies numbers.map(
            cell_at,
        ).contains(cell) by {
            let k = cell.row * 5 + cell.col;
            assert(numbers.contains(k) && cell_at(k) == cell);
        }
        assert forall|cell: Coords| numbers.map(cell_at).contains(cell) implies grid_cells().contains(
            cell,
        ) by {
            let k = choose|k: int| numbers.contains(k) && cell_at(k) == cell;
            assert(0 <= k / 5 < 5 && 0 <= k % 5 < 5);
        }
    }
    lemma_map_size(numbers, grid_cells(), cell_at);
}

/// The snake of a well-formed game leaves a cell of the grid free, so while
/// the game waits for food there is a draw that places it: drawing again and
/// again need not go on for ever.
pub proof fn lemma_some_draw_places_food(g: GameView)
    requires
        g.wf(),
        g.food is None,
    ensures
        exists|row_byte: u8, col_byte: u8| #[trigger] g.food_drawn(row_byte, col_byte) is Some,
{
    lemma_grid_cells_len();
    crate::snake::lemma_cells_len_bound(g.snake);
    if grid_cells().subset_of(g.snake.cells) {
        lemma_len_subset(grid_cells(), g.snake.cells);
        assert(false);
    }
    let free = choose|cell: Coords| grid_cells().contains(cell) && !g.snake.cells.contains(cell);
    let row_byte = free.row as u8;
    let col_byte = free.col as u8;
    assert(Coords::spec_from_bytes(row_byte, col_byte) == free);
    assert(g.food_drawn(row_byte, col_byte) is Some);
}

/// The interval between two steps never falls below 200 milliseconds, and
/// a higher speed level never gives a longer interval.
pub proof fn lemma_step_len_floor_and_monotone(slower: u8, faster: u8)
    requires
        slower <= faster,
    ensures
        spec_step_len_ms(slower) >= 200,
        spec_step_len_ms(faster) >= 200,
        spec_step_len_ms(faster) <= spec_step_len_ms(slower),
{
}

} // verus!
