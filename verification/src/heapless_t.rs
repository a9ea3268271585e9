//! Trusted contracts for the two fixed-capacity containers of `heapless`
//! that hold the snake's body: the queue `spsc::Queue` and the hash set
//! `FnvIndexSet`, both with `(row, col)` pairs as items.
//!
//! Nothing in this file is proved. Each function below makes one call into
//! `heapless`, and its contract records what the source of that call shows.
//! Everything else in the crate is verified against these contracts.

use heapless::spsc::Queue;
use heapless::FnvIndexSet;
use vstd::prelude::*;

verus! {

/// `heapless::spsc::Queue`, declared as an opaque type: nothing is known of
/// a value but what the contracts below say.
#[verifier::external_type_specification]
#[verifier::external_body]
#[verifier::reject_recursive_types(T)]
pub struct ExQueue<T, const N: usize>(heapless::spsc::Queue<T, N>);

/// `heapless::IndexSet`, declared as an opaque type. `FnvIndexSet` is this
/// type with the FNV hasher of `hash32`.
#[verifier::external_type_specification]
#[verifier::external_body]
#[verifier::reject_recursive_types(T)]
#[verifier::reject_recursive_types(S)]
pub struct ExIndexSet<T, S, const N: usize>(heapless::IndexSet<T, S, N>);

/// `hash32::BuildHasherDefault`, the hasher factory in the type of
/// `FnvIndexSet`. It is only named, never used.
#[verifier::external_type_specification]
#[verifier::external_body]
#[verifier::reject_recursive_types(H)]
pub struct ExBuildHasherDefault<H>(hash32::BuildHasherDefault<H>);

/// `hash32::FnvHasher`, the hasher in the type of `FnvIndexSet`. It is only
/// named, never used.
#[verifier::external_type_specification]
#[verifier::external_body]
pub struct ExFnvHasher(hash32::FnvHasher);

/// Number of items that a `Queue<_, 32>` can hold: one less than its
/// buffer, which keeps one slot free to tell a full queue from an empty one.
pub const QUEUE_CAPACITY: usize = 31;

/// Number of items that an `FnvIndexSet<_, 32>` can hold.
pub const SET_CAPACITY: usize = 32;

/// The items that a queue holds, the front of the queue first.
pub uninterp spec fn queue_items(q: Queue<(i8, i8), 32>) -> Seq<(i8, i8)>;

/// The items that a set holds.
pub uninterp spec fn set_items(s: FnvIndexSet<(i8, i8), 32>) -> Set<(i8, i8)>;

/// `Queue::new`: the new queue is empty.
#[verifier::external_body]
pub(crate) fn queue_new() -> (q: Queue<(i8, i8), 32>)
    ensures
        queue_items(q) == Seq::<(i8, i8)>::empty(),
{
    Queue::new()
}

/// `Queue::len`: the number of items in the queue.
#[verifier::external_body]
pub(crate) fn queue_len(q: &Queue<(i8, i8), 32>) -> (n: usize)
    ensures
        n == queue_items(*q).len(),
{
    q.len()
}

/// `Queue::enqueue`: while the queue holds fewer items than its capacity the
/// item is added at the back; a full queue is left as it was and hands the
/// item back.
#[verifier::external_body]
pub(crate) fn queue_enqueue(q: &mut Queue<(i8, i8), 32>, item: (i8, i8)) -> (r: Result<
    (),
    (i8, i8),
>)
    ensures
        match r {
            Ok(_) => queue_items(*old(q)).len() < QUEUE_CAPACITY && queue_items(*final(q))
                == queue_items(*old(q)).push(item),
            Err(back) => queue_items(*old(q)).len() >= QUEUE_CAPACITY && back == item
                && queue_items(*final(q)) == queue_items(*old(q)),
        },
{
    q.enqueue(item)
}

/// `Queue::dequeue`: the item at the front leaves the queue and is returned;
/// an empty queue stays empty and gives `None`.
#[verifier::external_body]
pub(crate) fn queue_dequeue(q: &mut Queue<(i8, i8), 32>) -> (r: Option<(i8, i8)>)
    ensures
        match r {
            Some(front) => queue_items(*old(q)).len() > 0 && front == queue_items(*old(q)).first()
                && queue_items(*final(q)) == queue_items(*old(q)).drop_first(),
            None => queue_items(*old(q)).len() == 0 && queue_items(*final(q)) == queue_items(*old(q)),
        },
{
    q.dequeue()
}

/// `Queue::peek`: the item at the front, copied out; `None` for an empty
/// queue.
#[verifier::external_body]
pub(crate) fn queue_peek(q: &Queue<(i8, i8), 32>) -> (r: Option<(i8, i8)>)
    ensures
        match r {
            Some(front) => queue_items(*q).len() > 0 && front == queue_items(*q).first(),
            None => queue_items(*q).len() == 0,
        },
{
    q.peek().copied()
}

/// `Queue::iter`: the items from the front of the queue to its back,
/// collected into a vector.
#[verifier::external_body]
pub(crate) fn queue_iter(q: &Queue<(i8, i8), 32>) -> (v: Vec<(i8, i8)>)
    ensures
        v@ == queue_items(*q),
{
    q.iter().copied().collect()
}

/// `FnvIndexSet::new`: the new set is empty.
#[verifier::external_body]
pub(crate) fn set_new() -> (s: FnvIndexSet<(i8, i8), 32>)
    ensures
        set_items(s) == Set::<(i8, i8)>::empty(),
{
    FnvIndexSet::new()
}

/// `IndexSet::contains`: whether the item is in the set.
#[verifier::external_body]
pub(crate) fn set_contains(s: &FnvIndexSet<(i8, i8), 32>, item: &(i8, i8)) -> (found: bool)
    ensures
        found == set_items(*s).contains(*item),
{
    s.contains(item)
}

/// `IndexSet::insert`: an item that the set already holds leaves it as it
/// was and gives `Ok(false)`; a new item is added and gives `Ok(true)`,
/// unless the set already holds as many items as its capacity, in which case it
/// is left as it was and hands the item back.
#[verifier::external_body]
pub(crate) fn set_insert(s: &mut FnvIndexSet<(i8, i8), 32>, item: (i8, i8)) -> (r: Result<
    bool,
    (i8, i8),
>)
    ensures
        r is Err <==> !set_items(*old(s)).contains(item) && set_items(*old(s)).len()
            >= SET_CAPACITY,
        match r {
            Ok(fresh) => fresh == !set_items(*old(s)).contains(item) && set_items(*final(s))
                == set_items(*old(s)).insert(item),
            Err(back) => back == item && set_items(*final(s)) == set_items(*old(s)),
        },
{
    s.insert(item)
}

/// `IndexSet::remove`: the item leaves the set; the result tells whether
/// the set held it.
#[verifier::external_body]
pub(crate) fn set_remove(s: &mut FnvIndexSet<(i8, i8), 32>, item: &(i8, i8)) -> (found: bool)
    ensures
        found == set_items(*old(s)).contains(*item),
        set_items(*final(s)) == set_items(*old(s)).remove(*item),
{
    s.remove(item)
}

} // verus!
