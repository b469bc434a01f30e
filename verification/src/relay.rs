//! The relay as a state machine: a FIFO queue of items and a flag that says
//! whether the intake is still open. Each event moves the machine one step and
//! yields the action that the runner has to perform.

use std::collections::VecDeque;
use vstd::prelude::*;

verus! {

/// What the runner's loop can wake up to.
#[derive(Debug, PartialEq, Eq)]
pub enum Event {
    /// The drain timer fired.
    Tick,
    /// An item arrived on the intake.
    Arrival(String),
    /// The intake reported that every sender is gone.
    Closed,
}

/// An [`Event`] with its item as plain text.
pub enum EventView {
    Tick,
    Arrival(Seq<char>),
    Closed,
}

impl View for Event {
    type V = EventView;

    open spec fn view(&self) -> EventView {
        match self {
            Event::Tick => EventView::Tick,
            Event::Arrival(item) => EventView::Arrival(item@),
            Event::Closed => EventView::Closed,
        }
    }
}

/// What the runner has to do after a step.
#[derive(Debug, PartialEq, Eq)]
pub enum Action {
    /// Nothing: wait for the next event.
    Idle,
    /// Send this item, which has left the queue, on the emission channel.
    Emit(String),
    /// Leave the loop: the intake is closed and the queue is drained.
    Stop,
}

/// An [`Action`] with its item as plain text.
pub enum ActionView {
    Idle,
    Emit(Seq<char>),
    Stop,
}

impl View for Action {
    type V = ActionView;

    open spec fn view(&self) -> ActionView {
        match self {
            Action::Idle => ActionView::Idle,
            Action::Emit(item) => ActionView::Emit(item@),
            Action::Stop => ActionView::Stop,
        }
    }
}

/// The relay's state as mathematics: the queued items, oldest first, and
/// whether the intake is open.
pub struct RelayView {
    pub queue: Seq<Seq<char>>,
    pub intake_open: bool,
}

impl RelayView {
    /// The state of a relay that has seen no event: nothing queued, intake open.
    pub open spec fn fresh() -> RelayView {
        RelayView { queue: Seq::empty(), intake_open: true }
    }

    /// Whether the relay has nothing left to do: the intake is closed and the
    /// queue is empty.
    pub open spec fn finished(self) -> bool {
        !self.intake_open && self.queue.len() == 0
    }

    /// The action that `event` calls for in this state.
    ///
    /// Only a tick acts: it emits the oldest item if there is one, stops a
    /// finished relay, and is idle otherwise.
    pub open spec fn action(self, event: EventView) -> ActionView {
        match event {
            EventView::Tick => {
                if self.queue.len() > 0 {
                    ActionView::Emit(self.queue[0])
                } else if self.intake_open {
                    ActionView::Idle
                } else {
                    ActionView::Stop
                }
            },
            EventView::Arrival(_) => ActionView::Idle,
            EventView::Closed => ActionView::Idle,
        }
    }

    /// The state after `event`.
    ///
    /// A tick removes the oldest item, an arrival appends its item while the
    /// intake is open and is ignored once it is closed, and a closure closes
    /// the intake for good.
    pub open spec fn next(self, event: EventView) -> RelayView {
        match event {
            EventView::Tick => {
                if self.queue.len() > 0 {
                    RelayView { queue: self.queue.drop_first(), intake_open: self.intake_open }
                } else {
                    self
                }
            },
            EventView::Arrival(item) => {
                if self.intake_open {
                    RelayView { queue: self.queue.push(item), intake_open: true }
                } else {
                    self
                }
            },
            EventView::Closed => RelayView { queue: self.queue, intake_open: false },
        }
    }
}

/// The text of each item of `items`, in order.
pub open spec fn texts(items: Seq<String>) -> Seq<Seq<char>> {
    items.map_values(|item: String| item@)
}

/// The relay's state: the queue and the intake flag, owned by one runner.
pub struct Relay {
    queue: VecDeque<String>,
    intake_open: bool,
}

impl View for Relay {
    type V = RelayView;

    closed spec fn view(&self) -> RelayView {
        RelayView { queue: texts(self.queue@), intake_open: self.intake_open }
    }
}

impl Event {
    /// The event that one receive on the intake stands for: an item is an
    /// arrival, and `None` is the signal that the intake is closed.
    pub fn received(item: Option<String>) -> (event: Event)
        ensures
            event@ == match item {
                Some(text) => EventView::Arrival(text@),
                None => EventView::Closed,
            },
    {
        match item {
            Some(text) => Event::Arrival(text),
            None => Event::Closed,
        }
    }
}

impl Relay {
    /// A relay with an empty queue and an open intake.
    pub fn new() -> (relay: Relay)
        ensures
            relay@ == RelayView::fresh(),
    {
        let relay = Relay { queue: VecDeque::new(), intake_open: true };
        assert(relay@.queue =~= Seq::empty());
        relay
    }

    /// The number of items that wait in the queue.
    pub fn len(&self) -> (n: usize)
        ensures
            n == self@.queue.len(),
    {
        self.queue.len()
    }

    /// Whether no item waits in the queue.
    pub fn is_empty(&self) -> (empty: bool)
        ensures
            empty == (self@.queue.len() == 0),
    {
        self.queue.len() == 0
    }

    /// Whether the intake has not been closed yet; once it is closed the runner
    /// waits for ticks alone.
    pub fn intake_open(&self) -> (open: bool)
        ensures
            open == self@.intake_open,
    {
        self.intake_open
    }

    /// Whether the intake is closed and the queue drained, so that the next
    /// tick stops the runner.
    pub fn is_finished(&self) -> (finished: bool)
        ensures
            finished == self@.finished(),
    {
        !self.intake_open && self.queue.len() == 0
    }

    /// Appends `item` to the back of the queue. This always succeeds: the queue
    /// has no bound.
    pub fn consume(&mut self, item: String)
        ensures
            final(self)@.queue == old(self)@.queue.push(item@),
            final(self)@.intake_open == old(self)@.intake_open,
    {
        self.queue.push_back(item);
        assert(texts(self.queue@) =~= texts(old(self).queue@).push(item@));
    }

    /// Removes the oldest item and returns it, or returns `None` and changes
    /// nothing where the queue is empty.
    pub fn emit(&mut self) -> (item: Option<String>)
        ensures
            old(self)@.queue.len() == 0 ==> item is None && final(self)@ == old(self)@,
            old(self)@.queue.len() > 0 ==> item is Some && item->0@ == old(self)@.queue[0]
                && final(self)@.queue == old(self)@.queue.drop_first(),
            final(self)@.intake_open == old(self)@.intake_open,
    {
        let item = self.queue.pop_front();
        assert(texts(self.queue@) =~= if old(self)@.queue.len() > 0 {
            texts(old(self).queue@).drop_first()
        } else {
            texts(old(self).queue@)
        });
        item
    }

    /// Closes the intake: no later arrival enters the queue.
    pub fn close_intake(&mut self)
        ensures
            final(self)@.queue == old(self)@.queue,
            !final(self)@.intake_open,
    {
        self.intake_open = false;
    }

    /// One iteration of the runner's loop: moves the relay by `event` and
    /// returns what the runner has to do.
    pub fn step(&mut self, event: Event) -> (action: Action)
        ensures
            action@ == old(self)@.action(event@),
            final(self)@ == old(self)@.next(event@),
    {
        match event {
            Event::Tick => match self.emit() {
                Some(item) => Action::Emit(item),
                None => if self.intake_open {
                    Action::Idle
                } else {
                    Action::Stop
                },
            },
            Event::Arrival(item) => {
                if self.intake_open {
                    self.consume(item);
                }
                Action::Idle
            },
            Event::Closed => {
                self.close_intake();
                Action::Idle
            },
        }
    }
}

} // verus!
