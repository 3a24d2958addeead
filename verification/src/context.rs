use vstd::prelude::*;

use crate::structs::{PollResult, Producer};

verus! {

/// A stateful event handler supplied by the user of the library: `work` turns
/// each incoming event into a result, possibly updating the handler's own
/// state. Nothing is assumed of implementations.
pub trait Context {
    type Event;

    type Result;

    fn work(&mut self, event: Self::Event) -> Self::Result;
}

/// Adapts a lazy sequence of events into a lazy sequence of results by
/// running every event through one [`Context`].
pub struct GlobalContext<Ctx, InStream> {
    pub context: Ctx,
    pub input: InStream,
}

impl<E, R, Ctx, InStream> GlobalContext<Ctx, InStream> where
    Ctx: Context<Event = E, Result = R>,
    InStream: Producer<E>,
 {
    pub fn new(input: InStream, initial_ctx: Ctx) -> (r: Self)
        ensures
            r.context == initial_ctx,
            r.input == input,
    {
        GlobalContext { context: initial_ctx, input }
    }

    /// Take in one outcome the input reported: an event is run through the
    /// handler once and comes back as an item; `Pending` and `Finished` pass
    /// through verbatim; a failure is propagated as the input's own error.
    /// In every case but an event the handler is not run: its state is left
    /// exactly as it was. What an event is turned into is the handler's own
    /// affair, of which nothing is assumed.
    pub fn absorb(&mut self, outcome: PollResult<E>) -> (r: PollResult<R>)
        ensures
            final(self).input == old(self).input,
            match outcome {
                PollResult::Item(_) => r matches PollResult::Item(_),
                PollResult::Pending => r is Pending && final(self).context == old(self).context,
                PollResult::Finished => r is Finished && final(self).context == old(
                    self,
                ).context,
                PollResult::Failed(k) => r == PollResult::<R>::Failed(k) && final(self).context
                    == old(self).context,
            },
    {
        match outcome {
            PollResult::Item(event) => {
                let result = self.context.work(event);
                PollResult::Item(result)
            },
            PollResult::Pending => PollResult::Pending,
            PollResult::Finished => PollResult::Finished,
            PollResult::Failed(e) => PollResult::Failed(e),
        }
    }

    /// Poll the input once and take in its outcome through [`Self::absorb`],
    /// whose contract maps each input outcome to the result. Which outcome
    /// the input reports is the input's own affair, of which nothing is
    /// assumed.
    pub fn poll(&mut self) -> (r: PollResult<R>)
        ensures
            !(r matches PollResult::Item(_)) ==> final(self).context == old(self).context,
    {
        let outcome = self.input.poll();
        self.absorb(outcome)
    }
}

} // verus!
