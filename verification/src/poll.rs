//! Waits as a series of rounds.
use vstd::prelude::*;

verus! {

/// What one round of a wait decides.
#[derive(Debug)]
pub enum Round<T> {
    /// The wait is over.
    Done(T),
    /// Nothing yet; look again after this many milliseconds.
    Again(u64),
}

} // verus!
