use stream_copy::{Context, EveError, GlobalContext, PollResult, Producer};

/// A producer that hands out a fixed list of numbers, then finishes.
struct Numbers {
    items: Vec<PollResult<u64>>,
    pos: usize,
}

impl Producer<u64> for Numbers {
    fn poll(&mut self) -> PollResult<u64> {
        if self.pos < self.items.len() {
            let item = self.items[self.pos].clone();
            self.pos += 1;
            item
        } else {
            PollResult::Finished
        }
    }
}

/// Doubles every event and remembers how many events it has handled.
struct Doubler {
    seen: u64,
}

impl Context for Doubler {
    type Event = u64;

    type Result = u64;

    fn work(&mut self, event: u64) -> u64 {
        self.seen += 1;
        event * 2
    }
}

#[test]
fn items_run_through_the_context() {
    let input = Numbers {
        items: vec![PollResult::Item(3), PollResult::Item(5)],
        pos: 0,
    };
    let mut ctx = GlobalContext::new(input, Doubler { seen: 0 });
    assert_eq!(ctx.poll(), PollResult::Item(6));
    assert_eq!(ctx.poll(), PollResult::Item(10));
    assert_eq!(ctx.poll(), PollResult::Finished);
}

#[test]
fn non_items_pass_through_and_skip_the_context() {
    let input = Numbers {
        items: vec![
            PollResult::Pending,
            PollResult::Failed(EveError),
            PollResult::Item(4),
        ],
        pos: 0,
    };
    let mut ctx = GlobalContext::new(input, Doubler { seen: 0 });
    assert_eq!(ctx.poll(), PollResult::Pending);
    assert_eq!(ctx.poll(), PollResult::Failed(EveError));
    assert_eq!(ctx.poll(), PollResult::Item(8));
    assert_eq!(ctx.poll(), PollResult::Finished);
    assert_eq!(ctx.context.seen, 1);
}

#[test]
fn absorb_maps_each_outcome_to_its_own_variant() {
    let input = Numbers { items: vec![], pos: 0 };
    let mut ctx = GlobalContext::new(input, Doubler { seen: 0 });
    assert_eq!(ctx.absorb(PollResult::Item(21)), PollResult::Item(42));
    assert_eq!(ctx.absorb(PollResult::Pending), PollResult::Pending);
    assert_eq!(ctx.absorb(PollResult::Failed(EveError)), PollResult::Failed(EveError));
    assert_eq!(ctx.absorb(PollResult::Finished), PollResult::Finished);
    // only the one event reached the handler
    assert_eq!(ctx.context.seen, 1);
}
