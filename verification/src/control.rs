//! The input latch: a single slot that holds the most recent turn intent.
//!
//! The slot is written when a button edge is seen and read once per game
//! step. The functions here work on the slot's value; the caller holds the
//! slot and keeps reader and writer apart.

use vstd::prelude::*;

verus! {

/// A turn intent: a quarter turn to the left or to the right, or none.
#[derive(Debug, Clone, Copy, PartialEq, Eq, Structural)]
pub enum Turn {
    Left,
    Right,
    Straight,
}

impl Turn {
    /// The turn intent that the two button flags stand for: the first
    /// button alone turns left, the second alone turns right, and both or
    /// neither mean no turn.
    pub open spec fn spec_from_buttons(a_pressed: bool, b_pressed: bool) -> Turn {
        if a_pressed && !b_pressed {
            Turn::Left
        } else if !a_pressed && b_pressed {
            Turn::Right
        } else {
            Turn::Straight
        }
    }

    /// Resolves the two button flags to a turn intent.
    pub fn from_buttons(a_pressed: bool, b_pressed: bool) -> (turn: Turn)
        ensures
            turn == Turn::spec_from_buttons(a_pressed, b_pressed),
    {
        match (a_pressed, b_pressed) {
            (false, false) => Turn::Straight,
            (true, false) => Turn::Left,
            (false, true) => Turn::Right,
            (true, true) => Turn::Straight,
        }
    }
}

/// One read of the latch as a function of what it holds: the value that
/// the read returns, and what the latch holds afterwards. The read returns
/// what was latched; the latch is cleared to `Turn::Straight` if `reset` is set
/// and keeps its value otherwise.
pub open spec fn spec_get_turn(latched: Turn, reset: bool) -> (Turn, Turn) {
    (
        latched,
        if reset {
            Turn::Straight
        } else {
            latched
        },
    )
}

/// Stores the intent that the two button flags stand for in the latch. What
/// the latch held before is overwritten, read or not.
pub fn record_turn(latch: &mut Turn, a_pressed: bool, b_pressed: bool)
    ensures
        *final(latch) == Turn::spec_from_buttons(a_pressed, b_pressed),
{
    *latch = Turn::from_buttons(a_pressed, b_pressed);
}

/// Reads the latch, and clears it to `Turn::Straight` if `reset` is set.
pub fn get_turn(latch: &mut Turn, reset: bool) -> (turn: Turn)
    ensures
        (turn, *final(latch)) == spec_get_turn(*old(latch), reset),
{
    let turn = *latch;
    if reset {
        *latch = Turn::Straight;
    }
    turn
}

/// Two reads in a row that both clear the latch, with nothing recorded in
/// between: the first returns what was latched, the second returns
/// `Turn::Straight`, and the latch is empty after each.
pub proof fn lemma_second_read_is_straight(latched: Turn)
    ensures
        ({
            let (first, between) = spec_get_turn(latched, true);
            let (second, after) = spec_get_turn(between, true);
            &&& first == latched
            &&& between == Turn::Straight
            &&& second == Turn::Straight
            &&& after == Turn::Straight
        }),
{
}

/// A read that does not clear the latch leaves it as it was, so the next
/// read returns the same intent again.
pub proof fn lemma_read_without_reset_keeps(latched: Turn, reset: bool)
    ensures
        ({
            let (first, between) = spec_get_turn(latched, false);
            let (second, _after) = spec_get_turn(between, reset);
            first == latched && second == latched
        }),
{
}

} // verus!
