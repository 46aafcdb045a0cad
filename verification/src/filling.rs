//! The decisions of filling the database with the seatings of the list: each seating
//! that is not stored yet is loaded and stored; one that fails to load is skipped.

use vstd::prelude::*;

verus! {

/// What happened to the seating the last action was about.
#[derive(Debug, Clone, Copy, PartialEq, Eq, Structural)]
pub enum FillEvent {
    /// Filling starts.
    Started,
    /// Whether the `i`-th seating is already stored.
    Checked { index: usize, already_stored: bool },
    /// Whether loading the `i`-th seating succeeded.
    Loaded { index: usize, ok: bool },
    /// The `i`-th seating was stored.
    Stored { index: usize },
}

/// What to do next.
#[derive(Debug, Clone, Copy, PartialEq, Eq, Structural)]
pub enum FillAction {
    /// Ask the database whether the `i`-th seating is stored.
    Check(usize),
    /// Load the votings of the `i`-th seating.
    Load(usize),
    /// Store the loaded `i`-th seating.
    Store(usize),
    /// All seatings were handled.
    Finish,
}

/// Going on with the seating at `index` of `count`.
pub open spec fn continue_at(count: usize, index: int) -> FillAction {
    if index < count {
        FillAction::Check(index as usize)
    } else {
        FillAction::Finish
    }
}

/// The action after `event` when the list has `count` seatings.
pub open spec fn fill_step_spec(count: usize, event: FillEvent) -> FillAction {
    match event {
        FillEvent::Started => continue_at(count, 0),
        FillEvent::Checked { index, already_stored } => if already_stored {
            continue_at(count, index + 1)
        } else {
            FillAction::Load(index)
        },
        FillEvent::Loaded { index, ok } => if ok {
            FillAction::Store(index)
        } else {
            continue_at(count, index + 1)
        },
        FillEvent::Stored { index } => continue_at(count, index + 1),
    }
}

fn check_after(count: usize, index: usize) -> (a: FillAction)
    ensures
        a == continue_at(count, index + 1),
{
    if index < count && index + 1 < count {
        FillAction::Check(index + 1)
    } else {
        FillAction::Finish
    }
}

/// The next action of filling the database with a list of `count` seatings, after
/// `event`: seatings are checked in order; one not stored yet is loaded and, if that
/// succeeds, stored; then the next one is checked.
pub fn fill_step(count: usize, event: FillEvent) -> (a: FillAction)
    ensures
        a == fill_step_spec(count, event),
{
    match event {
        FillEvent::Started => if count > 0 {
            FillAction::Check(0)
        } else {
            FillAction::Finish
        },
        FillEvent::Checked { index, already_stored } => if already_stored {
            check_after(count, index)
        } else {
            FillAction::Load(index)
        },
        FillEvent::Loaded { index, ok } => if ok {
            FillAction::Store(index)
        } else {
            check_after(count, index)
        },
        FillEvent::Stored { index } => check_after(count, index),
    }
}

/// The actions stay within the list, move forward, and end the filling only after
/// the last seating: checking or storing the seating at `i` leads to `i` itself
/// (loading or storing it) or to checking the one after it, or to finishing when it
/// is the last one.
pub proof fn lemma_fill_moves_forward(count: usize, event: FillEvent)
    ensures
        match fill_step_spec(count, event) {
            FillAction::Check(j) => j < count,
            _ => true,
        },
        match event {
            FillEvent::Checked { index, .. } | FillEvent::Loaded { index, .. } | FillEvent::Stored {
                index,
            } => match fill_step_spec(count, event) {
                FillAction::Check(j) => j == index + 1,
                FillAction::Load(j) => j == index,
                FillAction::Store(j) => j == index,
                FillAction::Finish => index + 1 >= count,
            },
            FillEvent::Started => fill_step_spec(count, event) == continue_at(count, 0),
        },
{
}

} // verus!
