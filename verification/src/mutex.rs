//! The protocol of a spin lock.
//!
//! A thread that wants the lock tries to flip the lock word from free to
//! held in one atomic step. When it loses, it watches the word with plain
//! reads until it sees it free, and then tries again. This module holds the
//! decisions of that loop; the loop itself, which may run for as long as the
//! lock is held by others, belongs to the caller.

use vstd::prelude::*;

verus! {

/// Where a thread stands on its way to the lock.
#[derive(Clone, Copy, Debug, PartialEq, Eq, Structural)]
pub enum Phase {
    /// About to try to flip the lock word from free to held.
    Claiming,
    /// About to read the lock word, after a lost attempt.
    Watching,
    /// Holding the lock.
    Holding,
}

/// What a thread observes when it acts on the lock word.
#[derive(Clone, Copy, Debug, PartialEq, Eq, Structural)]
pub enum Observed {
    /// The attempt to flip the word succeeded.
    Won,
    /// The attempt to flip the word failed.
    Lost,
    /// The word was read as held.
    Held,
    /// The word was read as free.
    Free,
}

/// The phase that follows `phase` once `observed` is seen.
///
/// An attempt that is won gives the lock; one that is lost sends the thread
/// watching. A read that finds the word free sends it back to trying, and
/// one that finds it held keeps it watching. A thread that holds the lock
/// keeps it, and what cannot be observed in a phase changes nothing.
pub open spec fn phase_after(phase: Phase, observed: Observed) -> Phase {
    match (phase, observed) {
        (Phase::Claiming, Observed::Won) => Phase::Holding,
        (Phase::Claiming, Observed::Lost) => Phase::Watching,
        (Phase::Watching, Observed::Free) => Phase::Claiming,
        (Phase::Watching, Observed::Held) => Phase::Watching,
        _ => phase,
    }
}

/// Decides the next phase of a thread on its way to the lock.
pub fn advance(phase: Phase, observed: Observed) -> (r: Phase)
    ensures
        r == phase_after(phase, observed),
{
    match phase {
        Phase::Claiming => match observed {
            Observed::Won => Phase::Holding,
            Observed::Lost => Phase::Watching,
            _ => Phase::Claiming,
        },
        Phase::Watching => match observed {
            Observed::Free => Phase::Claiming,
            _ => Phase::Watching,
        },
        Phase::Holding => Phase::Holding,
    }
}

/// The phase of a thread that started `Claiming` and has seen `seen`, in
/// this order.
pub open spec fn phase_reached(seen: Seq<Observed>) -> Phase
    decreases seen.len(),
{
    if seen.len() == 0 {
        Phase::Claiming
    } else {
        phase_after(phase_reached(seen.drop_last()), seen.last())
    }
}

/// The lock is only ever entered through an attempt that was won: a thread
/// that holds the lock has seen `Won`.
pub proof fn law_lock_is_entered_by_winning(seen: Seq<Observed>)
    requires
        phase_reached(seen) == Phase::Holding,
    ensures
        seen.contains(Observed::Won),
    decreases seen.len(),
{
    if seen.len() > 0 {
        if phase_reached(seen.drop_last()) == Phase::Holding {
            law_lock_is_entered_by_winning(seen.drop_last());
            let i = choose|i: int| 0 <= i < seen.drop_last().len() && seen.drop_last()[i] == Observed::Won;
            assert(seen[i] == Observed::Won);
        } else {
            assert(seen[seen.len() - 1] == Observed::Won);
        }
    }
}

} // verus!
