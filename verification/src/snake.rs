//! The snake: its head, the cells of its tail in the order in which it will
//! leave them, the set of the cells that it occupies, and its heading.

use crate::control::Turn;
use crate::grid::{Coords, Direction};
use crate::store::{CoordQueue, CoordSet, COORD_QUEUE_CAPACITY};
use vstd::prelude::*;
use vstd::seq_lib::seq_to_set_is_finite;
use vstd::set_lib::lemma_len_subset;

verus! {

/// The snake as a mathematical value.
pub struct SnakeView {
    /// The cell of the head.
    pub head: Coords,
    /// The cells of the tail. The first is the end of the tail, which the
    /// snake leaves next; the last is the cell just behind the head.
    pub tail: Seq<Coords>,
    /// The cells recorded as occupied.
    pub cells: Set<Coords>,
    /// The heading.
    pub direction: Direction,
}

impl SnakeView {
    /// The snake at the start of a game: two cells long in the middle row,
    /// heading right.
    pub open spec fn initial() -> SnakeView {
        SnakeView {
            head: Coords { row: 2, col: 2 },
            tail: seq![Coords { row: 2, col: 1 }],
            cells: set![Coords { row: 2, col: 2 }, Coords { row: 2, col: 1 }],
            direction: Direction::Right,
        }
    }

    /// The cells of the whole body, from the end of the tail to the head.
    pub open spec fn body(self) -> Seq<Coords> {
        self.tail.push(self.head)
    }

    /// What every snake satisfies: it has a tail, and every cell recorded as
    /// occupied is a cell of its body.
    pub open spec fn wf(self) -> bool {
        &&& self.tail.len() >= 1
        &&& forall|cell: Coords| self.cells.contains(cell) ==> self.body().contains(cell)
    }

    /// The occupied cells are exactly the head and the cells of the tail,
    /// and no cell occurs twice in the body.
    pub open spec fn consistent(self) -> bool {
        &&& self.cells =~= self.tail.to_set().insert(self.head)
        &&& self.body().no_duplicates()
    }

    /// The snake after its head moved onto `coords`. The old head becomes
    /// the newest cell of the tail; unless the snake grows, the end of the
    /// tail is given up and taken out of the occupied cells; then `coords` is
    /// recorded as occupied. So a move onto the cell that the tail gives up
    /// leaves that cell occupied, by the head.
    pub open spec fn moved(self, coords: Coords, extend: bool) -> SnakeView {
        let grown = self.tail.push(self.head);
        SnakeView {
            head: coords,
            tail: if extend {
                grown
            } else {
                grown.drop_first()
            },
            cells: if extend {
                self.cells.insert(coords)
            } else {
                self.cells.remove(grown.first()).insert(coords)
            },
            direction: self.direction,
        }
    }

    /// True when the head can move onto `coords` without meeting the body:
    /// the cell is not recorded as occupied, or it is the end of the tail and
    /// the snake does not grow, so that the tail gives the cell up in the
    /// same move.
    pub open spec fn is_free_for(self, coords: Coords, extend: bool) -> bool {
        !self.cells.contains(coords) || (!extend && coords == self.tail.first())
    }

    /// The snake after a turn intent was applied to its heading.
    pub open spec fn turned(self, turn: Turn) -> SnakeView {
        SnakeView { direction: self.direction.spec_turned(turn), ..self }
    }
}

/// The snake.
pub struct Snake {
    /// Coordinates of the snake's head.
    head: Coords,
    /// The rest of the snake's body. The end of the tail is at the front of
    /// the queue.
    tail: CoordQueue,
    /// All cells currently occupied by the snake, for fast collision checks.
    coord_set: CoordSet,
    /// The direction the snake is currently moving in.
    direction: Direction,
}

impl View for Snake {
    type V = SnakeView;

    closed spec fn view(&self) -> SnakeView {
        SnakeView {
            head: self.head,
            tail: self.tail@,
            cells: self.coord_set@,
            direction: self.direction,
        }
    }
}

impl Snake {
    /// The snake at the start of a game.
    pub fn new() -> (snake: Snake)
        ensures
            snake@ == SnakeView::initial(),
            snake@.wf(),
            snake@.consistent(),
    {
        let head = Coords { row: 2, col: 2 };
        let initial_tail = Coords { row: 2, col: 1 };
        let mut tail = CoordQueue::new();
        tail.enqueue(initial_tail).unwrap();
        let mut coord_set = CoordSet::new();
        coord_set.insert(head).unwrap();
        coord_set.insert(initial_tail).unwrap();
        let snake = Snake { head, tail, coord_set, direction: Direction::Right };
        proof {
            assert(snake@.tail =~= SnakeView::initial().tail);
            assert(snake@.cells =~= SnakeView::initial().cells);
            lemma_initial_snake();
        }
        snake
    }

    /// The cell of the head.
    pub fn head(&self) -> (head: Coords)
        ensures
            head == self@.head,
    {
        self.head
    }

    /// The heading.
    pub fn direction(&self) -> (direction: Direction)
        ensures
            direction == self@.direction,
    {
        self.direction
    }

    /// The number of cells in the tail.
    pub fn tail_len(&self) -> (n: usize)
        ensures
            n == self@.tail.len(),
    {
        self.tail.len()
    }

    /// The end of the tail: the cell that the snake leaves with its next
    /// move, unless it grows.
    pub fn tail_end(&self) -> (end: Option<Coords>)
        ensures
            match end {
                Some(cell) => self@.tail.len() > 0 && cell == self@.tail.first(),
                None => self@.tail.len() == 0,
            },
    {
        self.tail.peek()
    }

    /// The cells of the tail, its end first.
    pub fn tail(&self) -> (cells: Vec<Coords>)
        ensures
            cells@ == self@.tail,
    {
        self.tail.to_vec()
    }

    /// The set of the cells recorded as occupied.
    pub fn coord_set(&self) -> (set: &CoordSet)
        ensures
            set@ == self@.cells,
    {
        &self.coord_set
    }

    /// Tells whether the cell is recorded as occupied.
    pub fn occupies(&self, cell: &Coords) -> (found: bool)
        ensures
            found == self@.cells.contains(*cell),
    {
        self.coord_set.contains(cell)
    }

    /// Moves the snake onto the given coordinates. If `extend` is false, the
    /// snake's tail vacates the rearmost cell, and it does so before the head
    /// arrives: the head may move onto that very cell.
    ///
    /// The tail must have room for one more cell.
    pub fn move_snake(&mut self, coords: Coords, extend: bool)
        requires
            old(self)@.wf(),
            old(self)@.tail.len() < COORD_QUEUE_CAPACITY,
        ensures
            final(self)@ == old(self)@.moved(coords, extend),
            final(self)@.wf(),
            old(self)@.consistent() && old(self)@.is_free_for(coords, extend)
                ==> final(self)@.consistent(),
    {
        proof {
            lemma_cells_len_bound(self@);
            lemma_move_keeps_wf(self@, coords, extend);
            if self@.consistent() && self@.is_free_for(coords, extend) {
                lemma_move_keeps_consistent(self@, coords, extend);
            }
        }
        // Location of head becomes front of tail
        self.tail.enqueue(self.head).unwrap();
        // Head moves to new coords
        self.head = coords;

        if !extend {
            let back = self.tail.dequeue().unwrap();
            self.coord_set.remove(&back);
        }
        self.coord_set.insert(coords).unwrap();
    }

    /// Turns the heading a quarter turn clockwise.
    pub fn turn_right(&mut self)
        ensures
            final(self)@ == old(self)@.turned(Turn::Right),
    {
        self.direction =
        match self.direction {
            Direction::Up => Direction::Right,
            Direction::Down => Direction::Left,
            Direction::Left => Direction::Up,
            Direction::Right => Direction::Down,
        }
    }

    /// Turns the heading a quarter turn counter-clockwise.
    pub fn turn_left(&mut self)
        ensures
            final(self)@ == old(self)@.turned(Turn::Left),
    {
        self.direction =
        match self.direction {
            Direction::Up => Direction::Left,
            Direction::Down => Direction::Right,
            Direction::Left => Direction::Down,
            Direction::Right => Direction::Up,
        }
    }

    /// Applies a turn intent to the heading.
    pub fn turn(&mut self, direction: Turn)
        ensures
            final(self)@ == old(self)@.turned(direction),
    {
        match direction {
            Turn::Left => self.turn_left(),
            Turn::Right => self.turn_right(),
            Turn::Straight => (),
        }
    }
}

/// The snake at the start of a game is well formed, and its occupied cells
/// are exactly its two body cells.
pub proof fn lemma_initial_snake()
    ensures
        SnakeView::initial().wf(),
        SnakeView::initial().consistent(),
{
    let s = SnakeView::initial();
    assert(s.body()[0] == Coords { row: 2, col: 1 });
    assert(s.body()[1] == Coords { row: 2, col: 2 });
    assert(s.tail[0] == Coords { row: 2, col: 1 });
    assert(s.tail.to_set().contains(s.tail[0]));
    assert(s.cells =~= s.tail.to_set().insert(s.head));
}

/// A well-formed snake has at most one occupied cell for each cell of its
/// body.
pub proof fn lemma_cells_len_bound(s: SnakeView)
    requires
        s.wf(),
    ensures
        s.cells.finite(),
        s.cells.len() <= s.tail.len() + 1,
{
    broadcast use seq_to_set_is_finite;

    let body = s.body();
    body.lemma_cardinality_of_set();
    assert(s.cells.subset_of(body.to_set()));
    lemma_len_subset(s.cells, body.to_set());
}

/// A move keeps the snake well formed, wherever it goes.
pub proof fn lemma_move_keeps_wf(s: SnakeView, coords: Coords, extend: bool)
    requires
        s.wf(),
    ensures
        s.moved(coords, extend).wf(),
{
    let t = s.moved(coords, extend);
    let grown = s.tail.push(s.head);
    assert(t.body()[t.tail.len() as int] == coords);
    assert forall|cell: Coords| t.cells.contains(cell) implies t.body().contains(cell) by {
        if cell != coords {
            assert(s.cells.contains(cell));
            let i = choose|i: int| 0 <= i < grown.len() && grown[i] == cell;
            if extend {
                assert(t.body()[i] == cell);
            } else {
                assert(i != 0);
                assert(t.body()[i - 1] == cell);
            }
        }
    }
}

/// A move onto a free cell keeps the occupied cells equal to the head and
/// the cells of the tail, and keeps the cells of the body distinct. The end
/// of the tail counts as free for a move without growth.
pub proof fn lemma_move_keeps_consistent(s: SnakeView, coords: Coords, extend: bool)
    requires
        s.wf(),
        s.consistent(),
        s.is_free_for(coords, extend),
    ensures
        s.moved(coords, extend).consistent(),
{
    let t = s.moved(coords, extend);
    let grown = s.body();
    assert forall|i: int| 0 <= i < grown.len() implies s.cells.contains(#[trigger] grown[i]) by {
        if i < s.tail.len() {
            assert(s.tail.to_set().contains(s.tail[i]));
        }
    }
    assert(grown[0] == s.tail.first());
    assert(t.body().no_duplicates()) by {
        assert forall|i: int, j: int|
            0 <= i < t.body().len() && 0 <= j < t.body().len() && i != j implies t.body()[i]
            != t.body()[j] by {
            let shift: int = if extend {
                0
            } else {
                1
            };
            if i < t.tail.len() {
                assert(t.body()[i] == grown[i + shift]);
            }
            if j < t.tail.len() {
                assert(t.body()[j] == grown[j + shift]);
            }
        }
    }
    assert(t.cells =~= t.tail.to_set().insert(t.head)) by {
        assert forall|cell: Coords| t.cells.contains(cell) implies t.tail.to_set().insert(
            t.head,
        ).contains(cell) by {
            if cell != coords {
                assert(s.cells.contains(cell));
                assert(grown.contains(cell));
                let i = choose|i: int| 0 <= i < grown.len() && grown[i] == cell;
                if extend {
                    assert(t.tail[i] == cell);
                } else {
                    assert(i != 0);
                    assert(t.tail[i - 1] == cell);
                }
            }
        }
        assert forall|cell: Coords| t.tail.to_set().insert(t.head).contains(cell) implies t.cells.contains(
            cell,
        ) by {
            if cell != coords {
                let i = choose|i: int| 0 <= i < t.tail.len() && t.tail[i] == cell;
                if extend {
                    assert(grown[i] == cell);
                } else {
                    assert(grown[i + 1] == cell);
                    assert(grown[i + 1] != grown[0]);
                }
            }
        }
    }
}

} // verus!
