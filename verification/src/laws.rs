//! What holds of every run of the relay, proved from the state machine.

use crate::relay::{EventView, RelayView};
use crate::trace::Trace;
use vstd::prelude::*;
use vstd::seq_lib::lemma_multiset_commutative;

verus! {

/// One arrival for each item of `items`, in order.
pub open spec fn arrivals(items: Seq<Seq<char>>) -> Seq<EventView> {
    items.map_values(|item: Seq<char>| EventView::Arrival(item))
}

/// `n` ticks in a row.
pub open spec fn ticks(n: nat) -> Seq<EventView> {
    Seq::new(n, |i: int| EventView::Tick)
}

/// The item of each arrival among `events`, in order.
pub open spec fn payloads(events: Seq<EventView>) -> Seq<Seq<char>>
    decreases events.len(),
{
    if events.len() == 0 {
        Seq::empty()
    } else {
        RelayView::fresh().intake(events[0]) + payloads(events.drop_first())
    }
}

/// Whether `events` is what an intake can deliver to a relay whose intake is
/// open or not, as `open` says: an item arrives only while the intake is open,
/// and none arrives after a closure.
pub open spec fn intake_respected(open: bool, events: Seq<EventView>) -> bool {
    &&& forall|j: int| 0 <= j < events.len() && events[j] is Arrival ==> open
    &&& forall|i: int, j: int|
        0 <= i < j < events.len() && events[i] is Closed ==> !(events[j] is Arrival)
}

impl Trace {
    /// This run followed by `later`, a run from the state in which this one
    /// ended. A run that stopped the runner has nothing after it.
    pub open spec fn followed_by(self, later: Trace) -> Trace {
        if self.stopped {
            self
        } else {
            Trace {
                state: later.state,
                consumed: self.consumed + later.consumed,
                emitted: self.emitted + later.emitted,
                stopped: later.stopped,
            }
        }
    }
}

/// A run over `first + second` is the run over `first` followed by the run
/// over `second` from the state that `first` left.
pub proof fn run_in_two_parts(start: RelayView, first: Seq<EventView>, second: Seq<EventView>)
    ensures
        start.run(first + second) == start.run(first).followed_by(start.run(first).state.run(second)),
    decreases first.len(),
{
    let whole = start.run(first + second);
    let parts = start.run(first).followed_by(start.run(first).state.run(second));
    if first.len() == 0 {
        assert(first + second =~= second);
        assert(parts.consumed =~= whole.consumed);
        assert(parts.emitted =~= whole.emitted);
    } else {
        assert((first + second)[0] == first[0]);
        assert((first + second).drop_first() =~= first.drop_first() + second);
        if !(start.action(first[0]) is Stop) {
            let after = start.next(first[0]);
            run_in_two_parts(after, first.drop_first(), second);
            assert(parts.consumed =~= whole.consumed);
            assert(parts.emitted =~= whole.emitted);
        }
    }
}

/// Every item is accounted for: what was queued at the start, followed by
/// what the run consumed, is what the run emitted followed by what is still
/// queued. A run that stopped the runner leaves a closed intake and an empty
/// queue.
pub proof fn items_accounted(start: RelayView, events: Seq<EventView>)
    ensures
        ({
            let run = start.run(events);
            &&& start.queue + run.consumed == run.emitted + run.state.queue
            &&& run.stopped ==> run.state.finished()
        }),
    decreases events.len(),
{
    let run = start.run(events);
    if events.len() == 0 {
        assert(start.queue + run.consumed =~= run.emitted + run.state.queue);
    } else if start.action(events[0]) is Stop {
        assert(start.queue + run.consumed =~= run.emitted + run.state.queue);
    } else {
        let after = start.next(events[0]);
        let rest = after.run(events.drop_first());
        items_accounted(after, events.drop_first());
        assert(start.queue + start.intake(events[0]) =~= start.action(events[0]).emission()
            + after.queue);
        assert(start.queue + run.consumed =~= (start.queue + start.intake(events[0]))
            + rest.consumed);
        assert(run.emitted + run.state.queue =~= start.action(events[0]).emission() + (
        rest.emitted + rest.state.queue));
        assert((start.action(events[0]).emission() + after.queue) + rest.consumed
            =~= start.action(events[0]).emission() + (after.queue + rest.consumed));
    }
}

/// Nothing that arrives is passed over: where no item arrives on a closed
/// intake, the items that a run consumed are the items of all the arrivals
/// among the events that it handled, in order.
pub proof fn every_arrival_is_consumed(start: RelayView, events: Seq<EventView>)
    requires
        intake_respected(start.intake_open, events),
    ensures
        start.handled(events) <= events.len(),
        start.run(events).consumed == payloads(events.take(start.handled(events) as int)),
    decreases events.len(),
{
    let run = start.run(events);
    let seen = events.take(start.handled(events) as int);
    if events.len() == 0 {
        assert(seen =~= Seq::empty());
    } else if start.action(events[0]) is Stop {
        assert(seen[0] == events[0]);
        assert(seen.drop_first() =~= Seq::empty());
        assert(payloads(seen.drop_first()) =~= Seq::empty());
        assert(payloads(seen) =~= run.consumed);
    } else {
        let after = start.next(events[0]);
        let rest = events.drop_first();
        assert(intake_respected(after.intake_open, rest)) by {
            assert forall|j: int| 0 <= j < rest.len() && rest[j] is Arrival implies after.intake_open by {
                assert(rest[j] == events[j + 1]);
                assert(events[j + 1] is Arrival);
                assert(!(events[0] is Closed));
            }
            assert forall|i: int, j: int|
                0 <= i < j < rest.len() && rest[i] is Closed implies !(rest[j] is Arrival) by {
                assert(rest[i] == events[i + 1]);
                assert(rest[j] == events[j + 1]);
            }
        }
        every_arrival_is_consumed(after, rest);
        assert(seen[0] == events[0]);
        assert(seen.drop_first() =~= rest.take(after.handled(rest) as int));
        assert(start.intake(events[0]) == RelayView::fresh().intake(events[0]));
    }
}

/// At the end nothing is left behind: a relay that starts empty, on an intake
/// that delivers no item after its closure, has emitted once it has stopped
/// the item of every arrival that it handled, each once and in order of
/// arrival.
pub proof fn stopped_run_emitted_every_arrival(events: Seq<EventView>)
    requires
        intake_respected(true, events),
    ensures
        ({
            let run = RelayView::fresh().run(events);
            let seen = events.take(RelayView::fresh().handled(events) as int);
            &&& run.consumed == payloads(seen)
            &&& run.stopped ==> run.emitted == payloads(seen) && run.state.queue.len() == 0
        }),
{
    every_arrival_is_consumed(RelayView::fresh(), events);
    conservation(events);
    items_accounted(RelayView::fresh(), events);
}

/// First in, first out: whatever the order of arrivals, ticks and closure, a
/// relay that starts empty emits the items in the order in which it consumed
/// them, none left out and none reordered. The emitted items are the first of
/// the consumed ones.
pub proof fn fifo_order(events: Seq<EventView>)
    ensures
        ({
            let run = RelayView::fresh().run(events);
            run.emitted.is_prefix_of(run.consumed)
        }),
{
    let run = RelayView::fresh().run(events);
    items_accounted(RelayView::fresh(), events);
    assert(RelayView::fresh().queue + run.consumed =~= run.consumed);
    assert(run.emitted =~= (run.emitted + run.state.queue).subrange(0, run.emitted.len() as int));
}

/// Conservation: a relay that starts empty never emits more items than it
/// consumed, and has emitted exactly as many once its intake is closed and it
/// has stopped.
pub proof fn conservation(events: Seq<EventView>)
    ensures
        ({
            let run = RelayView::fresh().run(events);
            &&& run.emitted.len() <= run.consumed.len()
            &&& run.stopped ==> !run.state.intake_open && run.emitted == run.consumed
        }),
{
    let run = RelayView::fresh().run(events);
    items_accounted(RelayView::fresh(), events);
    assert(RelayView::fresh().queue + run.consumed =~= run.consumed);
    assert((run.emitted + run.state.queue).len() == run.emitted.len() + run.state.queue.len());
    if run.stopped {
        assert(run.emitted + run.state.queue =~= run.emitted);
    }
}

/// No duplication: the item at each place of the emitted sequence is the item
/// that was consumed at that place, so no consumed item is emitted twice; and
/// no text is emitted more often than it was consumed.
pub proof fn no_duplication(events: Seq<EventView>)
    ensures
        ({
            let run = RelayView::fresh().run(events);
            &&& run.emitted.len() <= run.consumed.len()
            &&& forall|i: int| 0 <= i < run.emitted.len() ==> run.emitted[i] == run.consumed[i]
            &&& run.emitted.to_multiset().subset_of(run.consumed.to_multiset())
        }),
{
    let run = RelayView::fresh().run(events);
    items_accounted(RelayView::fresh(), events);
    fifo_order(events);
    assert(RelayView::fresh().queue + run.consumed =~= run.consumed);
    lemma_multiset_commutative(run.emitted, run.state.queue);
}

/// An idle tick changes nothing: a tick that finds the queue empty emits no
/// item and leaves the state as it was, and while the intake is open it does
/// not stop the runner, however many such ticks follow one another. (With the
/// intake closed, that tick is the one that stops the runner.)
pub proof fn idle_tick_is_noop(state: RelayView, n: nat)
    requires
        state.queue.len() == 0,
    ensures
        state.next(EventView::Tick) == state,
        !(state.action(EventView::Tick) is Emit),
        state.intake_open ==> state.action(EventView::Tick) is Idle,
        state.intake_open ==> state.run(ticks(n)) == (Trace {
            state,
            consumed: Seq::empty(),
            emitted: Seq::empty(),
            stopped: false,
        }),
    decreases n,
{
    if state.intake_open && n > 0 {
        idle_tick_is_noop(state, (n - 1) as nat);
        assert(ticks(n).drop_first() =~= ticks((n - 1) as nat));
        assert(state.run(ticks(n)).consumed =~= Seq::empty());
        assert(state.run(ticks(n)).emitted =~= Seq::empty());
    }
}

/// Arrivals fill the queue from the back: while the intake is open, a run of
/// arrivals appends its items in order, emits nothing and does not stop the
/// runner.
pub proof fn arrivals_fill_queue(state: RelayView, items: Seq<Seq<char>>)
    requires
        state.intake_open,
    ensures
        state.run(arrivals(items)) == (Trace {
            state: RelayView { queue: state.queue + items, intake_open: true },
            consumed: items,
            emitted: Seq::empty(),
            stopped: false,
        }),
    decreases items.len(),
{
    let run = state.run(arrivals(items));
    if items.len() == 0 {
        assert(state.queue + items =~= state.queue);
        assert(run.consumed =~= items);
    } else {
        let after = state.next(arrivals(items)[0]);
        arrivals_fill_queue(after, items.drop_first());
        assert(arrivals(items).drop_first() =~= arrivals(items.drop_first()));
        assert(after.queue + items.drop_first() =~= state.queue + items);
        assert(run.consumed =~= items);
        assert(run.emitted =~= Seq::empty());
    }
}

/// Ticks drain the queue from the front: `n` ticks, where at least `n` items
/// are queued, emit the `n` oldest items in order, leave the rest queued and do
/// not stop the runner.
pub proof fn ticks_drain_front(state: RelayView, n: nat)
    requires
        n <= state.queue.len(),
    ensures
        state.run(ticks(n)) == (Trace {
            state: RelayView { queue: state.queue.skip(n as int), intake_open: state.intake_open },
            consumed: Seq::empty(),
            emitted: state.queue.take(n as int),
            stopped: false,
        }),
    decreases n,
{
    let run = state.run(ticks(n));
    if n == 0 {
        assert(state.queue.skip(0) =~= state.queue);
        assert(state.queue.take(0) =~= Seq::empty());
    } else {
        let after = state.next(EventView::Tick);
        ticks_drain_front(after, (n - 1) as nat);
        assert(ticks(n).drop_first() =~= ticks((n - 1) as nat));
        assert(after.queue.skip(n - 1) =~= state.queue.skip(n as int));
        assert(run.consumed =~= Seq::empty());
        assert(run.emitted =~= state.queue.take(n as int));
    }
}

/// Drain, then stop: once the intake is closed, each tick emits the oldest
/// item that is left and the runner goes on, and the first tick that finds
/// the queue empty stops it. So `n` ticks emit the `n` oldest items while they
/// last, and one tick more than there are items ends the run with all of them
/// emitted in order.
pub proof fn drain_then_stop(state: RelayView, n: nat)
    requires
        !state.intake_open,
    ensures
        state.action(EventView::Tick) is Stop <==> state.queue.len() == 0,
        ({
            let run = state.run(ticks(n));
            &&& n <= state.queue.len() ==> {
                &&& !run.stopped
                &&& run.emitted == state.queue.take(n as int)
                &&& run.state.queue == state.queue.skip(n as int)
            }
            &&& n > state.queue.len() ==> {
                &&& run.stopped
                &&& run.emitted == state.queue
                &&& run.state.finished()
            }
        }),
{
    let len = state.queue.len();
    if n <= len {
        ticks_drain_front(state, n);
    } else {
        let more = (n - len) as nat;
        assert(ticks(n) =~= ticks(len) + ticks(more));
        ticks_drain_front(state, len);
        run_in_two_parts(state, ticks(len), ticks(more));
        let drained = state.run(ticks(len)).state;
        assert(drained.queue.len() == 0);
        assert(ticks(more)[0] == EventView::Tick);
        assert(drained.run(ticks(more)).stopped);
        assert(state.queue.take(len as int) =~= state.queue);
        assert(state.run(ticks(n)).emitted =~= state.queue);
    }
}

/// A batch drains in order: a relay that starts empty, consumes `items` with no
/// tick in between and then sees `n` ticks has emitted the first `n` of them in
/// order, and all of them, exactly, once there were as many ticks as items.
pub proof fn batch_drains_in_order(items: Seq<Seq<char>>, n: nat)
    ensures
        ({
            let run = RelayView::fresh().run(arrivals(items) + ticks(n));
            &&& n <= items.len() ==> run.emitted == items.take(n as int)
            &&& n >= items.len() ==> run.emitted == items
            &&& run.consumed == items
            &&& !run.stopped
        }),
{
    let fresh = RelayView::fresh();
    arrivals_fill_queue(fresh, items);
    let filled = fresh.run(arrivals(items)).state;
    assert(filled.queue =~= items);
    run_in_two_parts(fresh, arrivals(items), ticks(n));
    let whole = fresh.run(arrivals(items) + ticks(n));
    if n <= items.len() {
        ticks_drain_front(filled, n);
        assert(whole.emitted =~= items.take(n as int));
        assert(whole.consumed =~= items);
    } else {
        let more = (n - items.len()) as nat;
        assert(ticks(n) =~= ticks(items.len()) + ticks(more));
        ticks_drain_front(filled, items.len());
        run_in_two_parts(filled, ticks(items.len()), ticks(more));
        let drained = filled.run(ticks(items.len())).state;
        idle_tick_is_noop(drained, more);
        assert(items.take(items.len() as int) =~= items);
        assert(whole.emitted =~= items);
        assert(whole.consumed =~= items);
    }
    if n == items.len() {
        assert(items.take(n as int) =~= items);
    }
}

} // verus!
