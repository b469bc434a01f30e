//! Whole runs of the relay: what a sequence of events makes of a state.

use crate::relay::{Action, ActionView, Event, EventView, Relay, RelayView, texts};
use vstd::prelude::*;

verus! {

/// What a run of the relay over a sequence of events comes to.
pub struct Trace {
    /// The state in which the run ended.
    pub state: RelayView,
    /// The items that entered the queue during the run, in order of arrival.
    pub consumed: Seq<Seq<char>>,
    /// The items that the run emitted, in order of emission.
    pub emitted: Seq<Seq<char>>,
    /// Whether an event of the run stopped the runner.
    pub stopped: bool,
}

impl ActionView {
    /// The items that performing this action emits: one or none.
    pub open spec fn emission(self) -> Seq<Seq<char>> {
        match self {
            ActionView::Emit(item) => seq![item],
            _ => Seq::empty(),
        }
    }
}

impl RelayView {
    /// The items that `event` adds to the queue in this state: one or none.
    pub open spec fn intake(self, event: EventView) -> Seq<Seq<char>> {
        match event {
            EventView::Arrival(item) => if self.intake_open {
                seq![item]
            } else {
                Seq::empty()
            },
            _ => Seq::empty(),
        }
    }

    /// The run from this state over `events`, taken in order. The run ends with
    /// the first event that stops the runner, or else with the last event; what
    /// follows a stop is not looked at.
    pub open spec fn run(self, events: Seq<EventView>) -> Trace
        decreases events.len(),
    {
        if events.len() == 0 {
            Trace { state: self, consumed: Seq::empty(), emitted: Seq::empty(), stopped: false }
        } else if self.action(events[0]) is Stop {
            Trace { state: self, consumed: Seq::empty(), emitted: Seq::empty(), stopped: true }
        } else {
            let rest = self.next(events[0]).run(events.drop_first());
            Trace {
                state: rest.state,
                consumed: self.intake(events[0]) + rest.consumed,
                emitted: self.action(events[0]).emission() + rest.emitted,
                stopped: rest.stopped,
            }
        }
    }

    /// The number of events of `events` that the run from this state handles:
    /// all of them, or those up to and with the one that stops the runner.
    pub open spec fn handled(self, events: Seq<EventView>) -> nat
        decreases events.len(),
    {
        if events.len() == 0 {
            0
        } else if self.action(events[0]) is Stop {
            1
        } else {
            1 + self.next(events[0]).handled(events.drop_first())
        }
    }
}

/// The view of each event of `events`, in order.
pub open spec fn views(events: Seq<Event>) -> Seq<EventView> {
    events.map_values(|event: Event| event@)
}

/// What [`Relay::run`] hands back.
#[derive(Debug, PartialEq, Eq)]
pub struct Outcome {
    /// The emitted items, in order of emission.
    pub emitted: Vec<String>,
    /// Whether the run stopped the runner.
    pub stopped: bool,
}

impl Relay {
    /// Runs the relay over `events` in order, as the runner's loop would, and
    /// collects the items to emit in place of sending them. Events that follow
    /// the one that stops the runner are dropped unseen.
    pub fn run(&mut self, events: Vec<Event>) -> (outcome: Outcome)
        ensures
            final(self)@ == old(self)@.run(views(events@)).state,
            texts(outcome.emitted@) == old(self)@.run(views(events@)).emitted,
            outcome.stopped == old(self)@.run(views(events@)).stopped,
    {
        let ghost start = self@;
        let ghost all = views(events@);
        let mut emitted: Vec<String> = Vec::new();
        let mut stopped = false;
        assert(texts(emitted@) =~= Seq::empty());
        assert(all.skip(0) =~= all);
        for event in it: events
            invariant
                it.seq() == events@,
                all == views(events@),
                start.run(all).stopped == (stopped || self@.run(
                    all.skip(it.index() as int),
                ).stopped),
                start.run(all).state == if stopped {
                    self@
                } else {
                    self@.run(all.skip(it.index() as int)).state
                },
                start.run(all).emitted == if stopped {
                    texts(emitted@)
                } else {
                    texts(emitted@) + self@.run(all.skip(it.index() as int)).emitted
                },
        {
            if !stopped {
                let ghost before = self@;
                let ghost sent = texts(emitted@);
                let ghost here = all.skip(it.index() as int);
                assert(here[0] == event@);
                assert(here.drop_first() =~= all.skip(it.index() + 1));
                match self.step(event) {
                    Action::Emit(item) => {
                        emitted.push(item);
                        assert(texts(emitted@) =~= sent + before.action(here[0]).emission());
                    },
                    Action::Idle => {},
                    Action::Stop => {
                        stopped = true;
                    },
                }
                assert(!stopped ==> texts(emitted@) + before.next(here[0]).run(
                    here.drop_first(),
                ).emitted =~= sent + before.run(here).emitted);
                assert(stopped ==> texts(emitted@) =~= sent + before.run(here).emitted);
            }
        }
        Outcome { emitted, stopped }
    }
}

} // verus!
