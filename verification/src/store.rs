//! The two containers that hold the snake's body: a queue of cells in the
//! order in which the snake will leave them, and a set of cells for
//! membership tests. Both have a fixed capacity and never allocate.

use crate::grid::Coords;
use crate::heapless_t::{
    queue_dequeue, queue_enqueue, queue_items, queue_iter, queue_len, queue_new, queue_peek,
    set_contains, set_insert, set_items, set_new, set_remove, QUEUE_CAPACITY, SET_CAPACITY,
};
use heapless::spsc::Queue;
use heapless::FnvIndexSet;
use vstd::prelude::*;
use vstd::relations::injective_on;
use vstd::set_lib::lemma_map_size;

verus! {

/// The pair that stands for a cell inside the containers.
spec fn pair_of(cell: Coords) -> (i8, i8) {
    (cell.row, cell.col)
}

/// The cell that a pair stands for.
spec fn cell_of(pair: (i8, i8)) -> Coords {
    Coords { row: pair.0, col: pair.1 }
}

/// The cells whose pairs are among `pairs`.
spec fn cells_of(pairs: Set<(i8, i8)>) -> Set<Coords> {
    Set::new(|cell: Coords| pairs.contains(pair_of(cell)))
}

fn to_pair(cell: &Coords) -> (pair: (i8, i8))
    ensures
        pair == pair_of(*cell),
        cell_of(pair) == *cell,
{
    (cell.row, cell.col)
}

fn to_cell(pair: (i8, i8)) -> (cell: Coords)
    ensures
        cell == cell_of(pair),
        pair_of(cell) == pair,
{
    Coords { row: pair.0, col: pair.1 }
}

/// A finite set of pairs stands for as many cells as it has pairs.
proof fn lemma_cells_of_len(pairs: Set<(i8, i8)>)
    requires
        pairs.finite(),
    ensures
        cells_of(pairs).finite(),
        cells_of(pairs).len() == pairs.len(),
{
    let f = |pair: (i8, i8)| cell_of(pair);
    assert(injective_on(f, pairs)) by {
        assert forall|p1: (i8, i8), p2: (i8, i8)|
            pairs.contains(p1) && pairs.contains(p2) && #[trigger] f(p1) == #[trigger] f(
                p2,
            ) implies p1 == p2 by {
            assert(pair_of(f(p1)) == p1);
            assert(pair_of(f(p2)) == p2);
        }
    }
    assert(pairs.map(f) =~= cells_of(pairs)) by {
        assert forall|cell: Coords| cells_of(pairs).contains(cell) implies pairs.map(f).contains(
            cell,
        ) by {
            assert(pairs.contains(pair_of(cell)) && f(pair_of(cell)) == cell);
        }
        assert forall|cell: Coords| pairs.map(f).contains(cell) implies cells_of(pairs).contains(
            cell,
        ) by {
            let pair = choose|pair: (i8, i8)| pairs.contains(pair) && f(pair) == cell;
            assert(pair_of(cell) == pair);
        }
    }
    lemma_map_size(pairs, cells_of(pairs), f);
}

/// A set of pairs that stands for finitely many cells is finite.
proof fn lemma_cells_of_finite(pairs: Set<(i8, i8)>)
    requires
        cells_of(pairs).finite(),
    ensures
        pairs.finite(),
{
    let g = |cell: Coords| pair_of(cell);
    assert(cells_of(pairs).map(g) =~= pairs) by {
        assert forall|pair: (i8, i8)| pairs.contains(pair) implies cells_of(pairs).map(g).contains(
            pair,
        ) by {
            assert(cells_of(pairs).contains(cell_of(pair)) && g(cell_of(pair)) == pair);
        }
    }
    cells_of(pairs).lemma_map_finite(g);
}

/// Number of cells that a `CoordQueue` can hold.
pub const COORD_QUEUE_CAPACITY: usize = QUEUE_CAPACITY;

/// Number of cells that a `CoordSet` can hold.
pub const COORD_SET_CAPACITY: usize = SET_CAPACITY;

/// A first-in, first-out queue of cells with room for
/// `COORD_QUEUE_CAPACITY` of them. Its view is the sequence of its cells,
/// the front of the queue first.
pub struct CoordQueue {
    items: Queue<(i8, i8), 32>,
}

impl View for CoordQueue {
    type V = Seq<Coords>;

    closed spec fn view(&self) -> Seq<Coords> {
        queue_items(self.items).map_values(|pair: (i8, i8)| cell_of(pair))
    }
}

impl CoordQueue {
    /// An empty queue.
    pub fn new() -> (queue: CoordQueue)
        ensures
            queue@ == Seq::<Coords>::empty(),
    {
        let queue = CoordQueue { items: queue_new() };
        assert(queue@ =~= Seq::<Coords>::empty());
        queue
    }

    /// The number of cells in the queue.
    pub fn len(&self) -> (n: usize)
        ensures
            n == self@.len(),
    {
        queue_len(&self.items)
    }

    /// Adds a cell at the back. A full queue stays as it is and hands the
    /// cell back.
    pub fn enqueue(&mut self, cell: Coords) -> (r: Result<(), Coords>)
        ensures
            match r {
                Ok(_) => old(self)@.len() < COORD_QUEUE_CAPACITY
                    && final(self)@ == old(self)@.push(cell),
                Err(back) => old(self)@.len() >= COORD_QUEUE_CAPACITY && back == cell
                    && final(self)@ == old(self)@,
            },
    {
        let pair = to_pair(&cell);
        match queue_enqueue(&mut self.items, pair) {
            Ok(()) => {
                assert(self@ =~= old(self)@.push(cell));
                Ok(())
            },
            Err(back) => Err(to_cell(back)),
        }
    }

    /// Takes the cell at the front out of the queue. An empty queue gives
    /// `None`.
    pub fn dequeue(&mut self) -> (r: Option<Coords>)
        ensures
            match r {
                Some(front) => old(self)@.len() > 0 && front == old(self)@.first()
                    && final(self)@ == old(self)@.drop_first(),
                None => old(self)@.len() == 0 && final(self)@ == old(self)@,
            },
    {
        match queue_dequeue(&mut self.items) {
            Some(pair) => {
                assert(self@ =~= old(self)@.drop_first());
                Some(to_cell(pair))
            },
            None => None,
        }
    }

    /// The cell at the front of the queue, which stays there. An empty queue
    /// gives `None`.
    pub fn peek(&self) -> (r: Option<Coords>)
        ensures
            match r {
                Some(front) => self@.len() > 0 && front == self@.first(),
                None => self@.len() == 0,
            },
    {
        match queue_peek(&self.items) {
            Some(pair) => Some(to_cell(pair)),
            None => None,
        }
    }

    /// The cells of the queue from its front to its back.
    pub fn to_vec(&self) -> (cells: Vec<Coords>)
        ensures
            cells@ == self@,
    {
        let pairs = queue_iter(&self.items);
        let mut cells: Vec<Coords> = Vec::new();
        let mut i: usize = 0;
        while i < pairs.len()
            invariant
                i <= pairs.len(),
                pairs@ == queue_items(self.items),
                cells@.len() == i,
                forall|k: int| 0 <= k < i ==> cells@[k] == #[trigger] self@[k],
            decreases pairs.len() - i,
        {
            cells.push(to_cell(pairs[i]));
            i += 1;
        }
        assert(cells@ =~= self@);
        cells
    }
}

/// A set of cells with room for `COORD_SET_CAPACITY` of them. Its view is
/// the set of its cells.
pub struct CoordSet {
    cells: FnvIndexSet<(i8, i8), 32>,
}

impl View for CoordSet {
    type V = Set<Coords>;

    closed spec fn view(&self) -> Set<Coords> {
        cells_of(set_items(self.cells))
    }
}

impl CoordSet {
    /// An empty set.
    pub fn new() -> (set: CoordSet)
        ensures
            set@ == Set::<Coords>::empty(),
    {
        let set = CoordSet { cells: set_new() };
        assert(set@ =~= Set::<Coords>::empty());
        set
    }

    /// Tells whether the set holds the cell.
    pub fn contains(&self, cell: &Coords) -> (found: bool)
        ensures
            found == self@.contains(*cell),
    {
        let pair = to_pair(cell);
        set_contains(&self.cells, &pair)
    }

    /// Adds a cell. The result is `Ok(true)` for a cell that was new to the
    /// set and `Ok(false)` for one that it held already. A set that holds
    /// `COORD_SET_CAPACITY` cells takes no new one: it stays as it is and
    /// hands the cell back.
    pub fn insert(&mut self, cell: Coords) -> (r: Result<bool, Coords>)
        requires
            old(self)@.finite(),
        ensures
            r is Err <==> !old(self)@.contains(cell) && old(self)@.len() >= COORD_SET_CAPACITY,
            match r {
                Ok(fresh) => fresh == !old(self)@.contains(cell)
                    && final(self)@ == old(self)@.insert(cell),
                Err(back) => back == cell && final(self)@ == old(self)@,
            },
            final(self)@.finite(),
    {
        let pair = to_pair(&cell);
        proof {
            lemma_cells_of_finite(set_items(self.cells));
            lemma_cells_of_len(set_items(self.cells));
        }
        match set_insert(&mut self.cells, pair) {
            Ok(fresh) => {
                assert(self@ =~= old(self)@.insert(cell));
                Ok(fresh)
            },
            Err(back) => Err(to_cell(back)),
        }
    }

    /// Takes a cell out of the set. The result tells whether the set held
    /// it.
    pub fn remove(&mut self, cell: &Coords) -> (found: bool)
        ensures
            found == old(self)@.contains(*cell),
            final(self)@ == old(self)@.remove(*cell),
    {
        let pair = to_pair(cell);
        let found = set_remove(&mut self.cells, &pair);
        assert(self@ =~= old(self)@.remove(*cell));
        found
    }
}

} // verus!
