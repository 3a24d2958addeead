use vstd::prelude::*;

verus! {

/// The single, opaque failure kind a producer can report.
#[derive(Clone, Copy, PartialEq, Eq, Debug)]
pub struct EveError;

/// Outcome of polling a lazy sequence once: an item, a "not ready yet"
/// signal, the end of the sequence, or a failure.
#[derive(Clone, PartialEq, Eq, Debug)]
pub enum PollResult<T> {
    Item(T),
    Pending,
    Finished,
    Failed(EveError),
}

/// A lazy sequence of items, polled cooperatively: a call never blocks the
/// calling thread, it reports `Pending` when nothing is ready yet.
///
/// Implementations are supplied by users of the library; nothing is assumed
/// of them, so every contract downstream states what holds for each possible
/// outcome of a call.
pub trait Producer<T> {
    fn poll(&mut self) -> PollResult<T>;
}

} // verus!
