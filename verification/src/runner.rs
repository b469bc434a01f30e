//! The runner: the relay's state machine joined to the emission channel.

use crate::channel::send_item;
use crate::relay::{Event, EventView, Relay, RelayView};
use crate::timer::DrainTimer;
use tokio::sync::mpsc::UnboundedSender;
use vstd::prelude::*;

verus! {

/// The single owner of the queue, the emission channel and the drain timer's
/// configuration. Whoever drives it waits for the events and hands them to
/// [`BlackholeRunner::handle`] one by one.
pub struct BlackholeRunner {
    relay: Relay,
    emitter: UnboundedSender<String>,
    timer: DrainTimer,
}

/// A runner as mathematics: the relay's state and the timer it was made with.
/// The emission endpoint, of which nothing but its identity is known, is
/// [`BlackholeRunner::emitter`].
pub struct RunnerView {
    pub relay: RelayView,
    pub timer: DrainTimer,
}

impl View for BlackholeRunner {
    type V = RunnerView;

    closed spec fn view(&self) -> RunnerView {
        RunnerView { relay: self.relay@, timer: self.timer }
    }
}

impl BlackholeRunner {
    /// The emission endpoint that the runner owns: the sender it was made with,
    /// on which every emitted item is sent.
    pub closed spec fn emitter(&self) -> UnboundedSender<String> {
        self.emitter
    }

    /// A runner with an empty queue and an open intake, which emits on
    /// `emitter` and is to be ticked as `timer` says.
    pub fn new(emitter: UnboundedSender<String>, timer: DrainTimer) -> (runner: BlackholeRunner)
        ensures
            runner@.relay == RelayView::fresh(),
            runner@.timer == timer,
            runner.emitter() == emitter,
    {
        BlackholeRunner { relay: Relay::new(), emitter, timer }
    }

    /// The timer's configuration, which never changes.
    pub fn timer(&self) -> (timer: DrainTimer)
        ensures
            timer == self@.timer,
    {
        self.timer
    }

    /// Whether the intake is still to be listened to. Once it is closed, only
    /// ticks are waited for.
    pub fn intake_open(&self) -> (open: bool)
        ensures
            open == self@.relay.intake_open,
    {
        self.relay.intake_open()
    }

    /// The number of items that wait in the queue.
    pub fn len(&self) -> (n: usize)
        ensures
            n == self@.relay.queue.len(),
    {
        self.relay.len()
    }

    /// The emission path: takes the oldest item from the queue and sends it on
    /// the emission channel. Returns `true` where there was an item, `false`
    /// where the queue was empty and nothing was sent.
    ///
    /// A send that finds no receiver is not an error: the item is gone from the
    /// queue either way and is not sent again.
    pub fn emit(&mut self) -> (productive: bool)
        ensures
            productive == (old(self)@.relay.queue.len() > 0),
            final(self)@.relay == old(self)@.relay.next(EventView::Tick),
            final(self)@.timer == old(self)@.timer,
            final(self).emitter() == old(self).emitter(),
    {
        match self.relay.emit() {
            Some(item) => {
                let _taken = send_item(&self.emitter, item);
                true
            },
            None => false,
        }
    }

    /// The intake path: appends `item` to the back of the queue.
    pub fn consume(&mut self, item: String)
        ensures
            final(self)@.relay.queue == old(self)@.relay.queue.push(item@),
            final(self)@.relay.intake_open == old(self)@.relay.intake_open,
            final(self)@.timer == old(self)@.timer,
            final(self).emitter() == old(self).emitter(),
    {
        self.relay.consume(item);
    }

    /// One iteration of the loop: handles `event` and says whether the loop
    /// goes on. It ends, with `false`, at the tick that finds the intake closed
    /// and the queue empty, and at no other event.
    pub fn handle(&mut self, event: Event) -> (running: bool)
        ensures
            running == !(old(self)@.relay.action(event@) is Stop),
            final(self)@.relay == old(self)@.relay.next(event@),
            final(self)@.timer == old(self)@.timer,
            final(self).emitter() == old(self).emitter(),
    {
        match event {
            Event::Tick => {
                let productive = self.emit();
                productive || self.relay.intake_open()
            },
            other => {
                let _idle = self.relay.step(other);
                true
            },
        }
    }
}

} // verus!
