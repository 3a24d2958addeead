use std::cell::Cell;
use std::rc::Rc;

use stream_copy::{EveError, PollResult, Producer, StreamCopyMutex};

/// A scripted producer: hands out its steps one poll at a time, then reports
/// `Finished`; counts how often it is polled.
struct Script<T: Clone> {
    steps: Vec<PollResult<T>>,
    pos: usize,
    calls: Rc<Cell<usize>>,
}

impl<T: Clone> Script<T> {
    fn new(steps: Vec<PollResult<T>>) -> (Script<T>, Rc<Cell<usize>>) {
        let calls = Rc::new(Cell::new(0));
        let script = Script {
            steps,
            pos: 0,
            calls: calls.clone(),
        };
        (script, calls)
    }
}

impl<T: Clone> Producer<T> for Script<T> {
    fn poll(&mut self) -> PollResult<T> {
        self.calls.set(self.calls.get() + 1);
        if self.pos < self.steps.len() {
            let step = self.steps[self.pos].clone();
            self.pos += 1;
            step
        } else {
            PollResult::Finished
        }
    }
}

#[test]
fn upfront_consumer_sees_all_items_in_order() {
    let (script, _calls) = Script::new(vec![
        PollResult::Item('a'),
        PollResult::Item('b'),
        PollResult::Item('c'),
    ]);
    let mutex = StreamCopyMutex::new(script);
    let mut consumer = mutex.create_output_locked();
    assert_eq!(consumer.poll(), PollResult::Item('a'));
    assert_eq!(consumer.poll(), PollResult::Item('b'));
    assert_eq!(consumer.poll(), PollResult::Item('c'));
    assert_eq!(consumer.poll(), PollResult::Finished);
}

#[test]
fn finished_is_terminal_for_a_consumer() {
    let (script, calls) = Script::new(vec![PollResult::Item('a')]);
    let mutex = StreamCopyMutex::new(script);
    let mut consumer = mutex.create_output_locked();
    assert_eq!(consumer.poll(), PollResult::Item('a'));
    assert_eq!(consumer.poll(), PollResult::Finished);
    assert_eq!(consumer.poll(), PollResult::Finished);
    assert_eq!(consumer.poll(), PollResult::Finished);
    // the terminal outcome is cached: the producer was polled for 'a', for
    // `Finished`, and never again
    assert_eq!(calls.get(), 2);
}

#[test]
fn late_consumer_only_sees_later_items() {
    let (script, _calls) = Script::new(vec![
        PollResult::Item('a'),
        PollResult::Item('b'),
    ]);
    let mutex = StreamCopyMutex::new(script);
    let mut first = mutex.create_output_locked();
    assert_eq!(first.poll(), PollResult::Item('a'));
    // subscribed after 'a' was produced: starts empty, never receives 'a'
    let mut second = mutex.create_output_locked();
    assert_eq!(first.poll(), PollResult::Item('b'));
    assert_eq!(first.poll(), PollResult::Finished);
    assert_eq!(second.poll(), PollResult::Item('b'));
    assert_eq!(second.poll(), PollResult::Finished);
}

#[test]
fn items_are_produced_once_and_replayed_from_the_buffer() {
    let (script, calls) = Script::new(vec![
        PollResult::Item('a'),
        PollResult::Item('b'),
    ]);
    let mutex = StreamCopyMutex::new(script);
    let mut first = mutex.create_output_locked();
    let mut second = mutex.create_output_locked();
    // first drains the producer completely
    assert_eq!(first.poll(), PollResult::Item('a'));
    assert_eq!(first.poll(), PollResult::Item('b'));
    assert_eq!(first.poll(), PollResult::Finished);
    assert_eq!(calls.get(), 3);
    // second replays the same items from its own buffer: the producer is not
    // polled again
    assert_eq!(second.poll(), PollResult::Item('a'));
    assert_eq!(second.poll(), PollResult::Item('b'));
    assert_eq!(second.poll(), PollResult::Finished);
    assert_eq!(calls.get(), 3);
}

#[test]
fn pending_then_failure_buffers_nothing() {
    let (script, calls) = Script::new(vec![
        PollResult::Pending,
        PollResult::Failed(EveError),
        PollResult::Item('z'),
    ]);
    let mutex = StreamCopyMutex::new(script);
    let mut first = mutex.create_output_locked();
    let mut second = mutex.create_output_locked();
    assert_eq!(first.poll(), PollResult::Pending);
    assert_eq!(first.poll(), PollResult::Failed(EveError));
    assert_eq!(calls.get(), 2);
    // the failed call buffered nothing: the sibling's next poll has to reach
    // the producer itself, and the stream is still alive
    assert_eq!(second.poll(), PollResult::Item('z'));
    assert_eq!(calls.get(), 3);
    // the item was broadcast to both consumers at production time
    assert_eq!(first.poll(), PollResult::Item('z'));
    assert_eq!(calls.get(), 3);
}

#[test]
fn pending_leaves_every_buffer_untouched() {
    let (script, calls) = Script::new(vec![
        PollResult::Pending,
        PollResult::Pending,
        PollResult::Item('a'),
    ]);
    let mutex = StreamCopyMutex::new(script);
    let mut consumer = mutex.create_output_locked();
    assert_eq!(consumer.poll(), PollResult::Pending);
    assert_eq!(consumer.poll(), PollResult::Pending);
    assert_eq!(consumer.poll(), PollResult::Item('a'));
    assert_eq!(calls.get(), 3);
}

#[test]
fn unknown_consumer_id_is_answered_with_failed() {
    let (script, calls) = Script::new(vec![PollResult::Item('a')]);
    let mutex: StreamCopyMutex<char, Script<char>> = StreamCopyMutex::new(script);
    // no consumer with id 7 was ever registered; the producer is left alone
    assert_eq!(mutex.poll_locked(7), PollResult::Failed(EveError));
    assert_eq!(calls.get(), 0);
}

#[test]
fn cloned_handles_share_one_core() {
    let (script, calls) = Script::new(vec![
        PollResult::Item(1u64),
        PollResult::Item(2u64),
    ]);
    let mutex = StreamCopyMutex::new(script);
    let other = mutex.clone();
    let mut from_first = mutex.create_output_locked();
    let mut from_second = other.create_output_locked();
    assert_eq!(from_first.poll(), PollResult::Item(1));
    assert_eq!(from_second.poll(), PollResult::Item(1));
    assert_eq!(from_second.poll(), PollResult::Item(2));
    assert_eq!(from_first.poll(), PollResult::Item(2));
    // both handles fed from the same producer, each item produced once
    assert_eq!(calls.get(), 2);
}

#[test]
fn interleaved_polls_deliver_every_item_exactly_once() {
    let total: u64 = 25;
    let steps: Vec<PollResult<u64>> = (0..total).map(PollResult::Item).collect();
    let (script, calls) = Script::new(steps);
    let mutex = StreamCopyMutex::new(script);
    let mut consumers = vec![
        mutex.create_output_locked(),
        mutex.create_output_locked(),
        mutex.create_output_locked(),
    ];
    let mut received: Vec<Vec<u64>> = vec![Vec::new(), Vec::new(), Vec::new()];
    let mut finished = [false, false, false];
    // a fixed linear-congruential schedule interleaves the three consumers
    let mut state: u64 = 0x2545_f491_4f6c_dd1d;
    while !(finished[0] && finished[1] && finished[2]) {
        state = state.wrapping_mul(6364136223846793005).wrapping_add(1442695040888963407);
        let who = (state >> 33) as usize % 3;
        match consumers[who].poll() {
            PollResult::Item(item) => received[who].push(item),
            PollResult::Finished => finished[who] = true,
            other => panic!("unexpected outcome {:?}", other),
        }
    }
    // every consumer saw every item, in order, exactly once
    let expected: Vec<u64> = (0..total).collect();
    assert_eq!(received[0], expected);
    assert_eq!(received[1], expected);
    assert_eq!(received[2], expected);
    // and each item was computed exactly once, regardless of fan-out
    assert_eq!(calls.get(), total as usize + 1);
}
