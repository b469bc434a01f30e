use blackhole::{Action, DrainTimer, Event, Outcome, Relay};

fn item(text: &str) -> String {
    text.to_string()
}

fn arrival(text: &str) -> Event {
    Event::Arrival(item(text))
}

#[test]
fn new_relay_is_empty_and_open() {
    let relay = Relay::new();
    assert_eq!(relay.len(), 0);
    assert!(relay.is_empty());
    assert!(relay.intake_open());
    assert!(!relay.is_finished());
}

#[test]
fn received_item_is_an_arrival_and_none_is_closure() {
    assert_eq!(Event::received(Some(item("A"))), Event::Arrival(item("A")));
    assert_eq!(Event::received(Some(item(""))), Event::Arrival(item("")));
    assert_eq!(Event::received(None), Event::Closed);
}

#[test]
fn consume_appends_and_emit_takes_the_oldest() {
    let mut relay = Relay::new();
    relay.consume(item("first"));
    relay.consume(item("second"));
    relay.consume(item("third"));
    assert_eq!(relay.len(), 3);
    assert!(!relay.is_empty());
    assert_eq!(relay.emit(), Some(item("first")));
    assert_eq!(relay.len(), 2);
    assert_eq!(relay.emit(), Some(item("second")));
    assert_eq!(relay.emit(), Some(item("third")));
    assert_eq!(relay.len(), 0);
}

#[test]
fn emit_on_an_empty_queue_returns_none_and_changes_nothing() {
    let mut relay = Relay::new();
    assert_eq!(relay.emit(), None);
    assert_eq!(relay.len(), 0);
    assert!(relay.intake_open());
    relay.close_intake();
    assert_eq!(relay.emit(), None);
    assert!(!relay.intake_open());
}

#[test]
fn consume_appends_even_after_closure() {
    let mut relay = Relay::new();
    relay.close_intake();
    relay.consume(item("late"));
    assert_eq!(relay.len(), 1);
    assert!(!relay.intake_open());
    assert_eq!(relay.emit(), Some(item("late")));
}

#[test]
fn close_intake_keeps_the_queue() {
    let mut relay = Relay::new();
    relay.consume(item("A"));
    relay.close_intake();
    assert!(!relay.intake_open());
    assert_eq!(relay.len(), 1);
    assert!(!relay.is_finished());
    assert_eq!(relay.emit(), Some(item("A")));
    assert!(relay.is_finished());
}

#[test]
fn idle_tick_emits_nothing_and_does_not_stop() {
    let mut relay = Relay::new();
    for _ in 0..5 {
        assert_eq!(relay.step(Event::Tick), Action::Idle);
        assert_eq!(relay.len(), 0);
        assert!(relay.intake_open());
    }
    assert_eq!(relay.step(arrival("A")), Action::Idle);
    assert_eq!(relay.step(Event::Tick), Action::Emit(item("A")));
    assert_eq!(relay.step(Event::Tick), Action::Idle);
}

#[test]
fn tick_emits_one_item_per_tick_in_order() {
    let mut relay = Relay::new();
    assert_eq!(relay.step(arrival("A")), Action::Idle);
    assert_eq!(relay.step(arrival("B")), Action::Idle);
    assert_eq!(relay.len(), 2);
    assert_eq!(relay.step(Event::Tick), Action::Emit(item("A")));
    assert_eq!(relay.len(), 1);
    assert_eq!(relay.step(Event::Tick), Action::Emit(item("B")));
    assert_eq!(relay.len(), 0);
}

#[test]
fn tick_stops_only_a_closed_and_drained_relay() {
    let mut open_and_empty = Relay::new();
    assert_eq!(open_and_empty.step(Event::Tick), Action::Idle);

    let mut closed_with_items = Relay::new();
    closed_with_items.consume(item("A"));
    assert_eq!(closed_with_items.step(Event::Closed), Action::Idle);
    assert_eq!(closed_with_items.step(Event::Tick), Action::Emit(item("A")));

    let mut closed_and_empty = Relay::new();
    assert_eq!(closed_and_empty.step(Event::Closed), Action::Idle);
    assert!(closed_and_empty.is_finished());
    assert_eq!(closed_and_empty.step(Event::Tick), Action::Stop);
    assert_eq!(closed_and_empty.step(Event::Tick), Action::Stop);
    assert!(closed_and_empty.is_finished());
}

#[test]
fn arrival_after_closure_is_ignored() {
    let mut relay = Relay::new();
    assert_eq!(relay.step(arrival("A")), Action::Idle);
    assert_eq!(relay.step(Event::Closed), Action::Idle);
    assert_eq!(relay.step(arrival("B")), Action::Idle);
    assert_eq!(relay.len(), 1);
    assert_eq!(relay.step(Event::Tick), Action::Emit(item("A")));
    assert_eq!(relay.step(Event::Tick), Action::Stop);
}

#[test]
fn closure_is_final_and_may_be_reported_again() {
    let mut relay = Relay::new();
    assert_eq!(relay.step(Event::Closed), Action::Idle);
    assert!(!relay.intake_open());
    assert_eq!(relay.step(Event::Closed), Action::Idle);
    assert!(!relay.intake_open());
    assert_eq!(relay.len(), 0);
}

#[test]
fn run_over_no_events_changes_nothing() {
    let mut relay = Relay::new();
    relay.consume(item("A"));
    let outcome = relay.run(Vec::new());
    assert_eq!(outcome, Outcome { emitted: Vec::new(), stopped: false });
    assert_eq!(relay.len(), 1);
    assert!(relay.intake_open());
}

#[test]
fn fifo_batch_then_drain_emits_in_arrival_order() {
    let names = ["i1", "i2", "i3", "i4", "i5", "i6", "i7"];
    let mut events: Vec<Event> = names.iter().map(|name| arrival(name)).collect();
    for _ in 0..names.len() {
        events.push(Event::Tick);
    }
    let mut relay = Relay::new();
    let outcome = relay.run(events);
    let expected: Vec<String> = names.iter().map(|name| item(name)).collect();
    assert_eq!(outcome.emitted, expected);
    assert!(!outcome.stopped);
    assert!(relay.is_empty());
}

#[test]
fn fifo_holds_with_ticks_between_arrivals() {
    let mut relay = Relay::new();
    let outcome = relay.run(vec![
        Event::Tick,
        arrival("a"),
        arrival("b"),
        Event::Tick,
        arrival("c"),
        Event::Tick,
        Event::Tick,
        Event::Tick,
        arrival("d"),
    ]);
    assert_eq!(outcome.emitted, vec![item("a"), item("b"), item("c")]);
    assert!(!outcome.stopped);
    assert_eq!(relay.len(), 1);
    assert_eq!(relay.emit(), Some(item("d")));
}

#[test]
fn fewer_ticks_than_items_emit_the_oldest_only() {
    let mut relay = Relay::new();
    let outcome = relay.run(vec![arrival("a"), arrival("b"), arrival("c"), Event::Tick, Event::Tick]);
    assert_eq!(outcome.emitted, vec![item("a"), item("b")]);
    assert_eq!(relay.len(), 1);
}

#[test]
fn conservation_emitted_never_exceeds_consumed() {
    let script = vec![
        Event::Tick,
        arrival("a"),
        Event::Tick,
        Event::Tick,
        arrival("b"),
        arrival("c"),
        Event::Tick,
        Event::Closed,
        Event::Tick,
        Event::Tick,
        Event::Tick,
    ];
    let mut relay = Relay::new();
    let mut consumed = 0usize;
    let mut emitted = 0usize;
    let mut stopped = false;
    for event in script {
        if matches!(event, Event::Arrival(_)) && relay.intake_open() {
            consumed += 1;
        }
        match relay.step(event) {
            Action::Emit(_) => emitted += 1,
            Action::Stop => {
                stopped = true;
                break;
            }
            Action::Idle => {}
        }
        assert!(emitted <= consumed);
        assert_eq!(consumed - emitted, relay.len());
    }
    assert!(stopped);
    assert_eq!(consumed, 3);
    assert_eq!(emitted, 3);
    assert!(relay.is_finished());
}

#[test]
fn no_duplication_each_arrival_is_emitted_once() {
    let mut relay = Relay::new();
    let outcome = relay.run(vec![
        arrival("same"),
        arrival("same"),
        arrival("other"),
        Event::Tick,
        Event::Tick,
        Event::Tick,
        Event::Tick,
        Event::Tick,
    ]);
    assert_eq!(outcome.emitted, vec![item("same"), item("same"), item("other")]);
    assert!(relay.is_empty());
}

#[test]
fn drain_then_stop_after_closure() {
    let mut relay = Relay::new();
    let outcome = relay.run(vec![
        arrival("a"),
        arrival("b"),
        arrival("c"),
        Event::Closed,
        Event::Tick,
        Event::Tick,
    ]);
    assert_eq!(outcome.emitted, vec![item("a"), item("b")]);
    assert!(!outcome.stopped);
    assert_eq!(relay.len(), 1);
    let rest = relay.run(vec![Event::Tick]);
    assert_eq!(rest.emitted, vec![item("c")]);
    assert!(!rest.stopped);
    assert!(relay.is_finished());
    let end = relay.run(vec![Event::Tick]);
    assert_eq!(end, Outcome { emitted: Vec::new(), stopped: true });
}

#[test]
fn events_after_the_stop_are_not_seen() {
    let mut relay = Relay::new();
    let outcome = relay.run(vec![
        arrival("a"),
        Event::Closed,
        Event::Tick,
        Event::Tick,
        arrival("b"),
        Event::Tick,
    ]);
    assert_eq!(outcome, Outcome { emitted: vec![item("a")], stopped: true });
    assert!(relay.is_finished());
}

#[test]
fn scenario_three_items_leave_one_per_tick() {
    // Times in tenths of a time unit: a period of 2 units, arrivals at 0, 0.5 and 3.
    let timer = DrainTimer::new(20, 20);
    let arrivals: Vec<(u64, &str)> = vec![(0, "A"), (5, "B"), (30, "C")];
    let mut relay = Relay::new();
    let mut emissions: Vec<(u64, String)> = Vec::new();
    let mut next_arrival = 0usize;
    for tick in 0..4u64 {
        let now = timer.tick_time(tick).unwrap();
        while next_arrival < arrivals.len() && arrivals[next_arrival].0 < now {
            assert_eq!(relay.step(arrival(arrivals[next_arrival].1)), Action::Idle);
            next_arrival += 1;
        }
        match relay.step(Event::Tick) {
            Action::Emit(text) => emissions.push((now, text)),
            Action::Idle => {}
            Action::Stop => panic!("the intake is open: the relay must not stop"),
        }
    }
    assert_eq!(emissions, vec![(20, item("A")), (40, item("B")), (60, item("C"))]);
    assert!(relay.is_empty());
}

#[test]
fn scenario_closure_before_the_first_tick() {
    let mut relay = Relay::new();
    assert_eq!(relay.step(arrival("only")), Action::Idle);
    assert_eq!(relay.step(Event::received(None)), Action::Idle);
    assert!(!relay.intake_open());
    assert_eq!(relay.step(Event::Tick), Action::Emit(item("only")));
    assert_eq!(relay.step(Event::Tick), Action::Stop);
}

#[test]
fn stopped_run_has_emitted_every_arrival_it_handled() {
    let mut relay = Relay::new();
    let outcome = relay.run(vec![
        arrival("a"),
        Event::Tick,
        arrival("b"),
        arrival("c"),
        Event::Tick,
        Event::Tick,
        arrival("d"),
        Event::Closed,
        Event::Tick,
        Event::Tick,
        Event::Tick,
    ]);
    assert_eq!(
        outcome,
        Outcome { emitted: vec![item("a"), item("b"), item("c"), item("d")], stopped: true }
    );
    assert!(relay.is_finished());
}
