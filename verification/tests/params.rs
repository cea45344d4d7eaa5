use isle_ecs::event::{EventArgs, EventReader, EventWriter};
use isle_ecs::params::{Event, EventTrigger, Tick};

#[derive(Clone, Copy, Debug, PartialEq)]
struct Ping(u32);

impl EventArgs for Ping {}

#[test]
fn trigger_sends_and_event_reads() {
    let mut channel = EventWriter::<Ping>::new();
    let mut cursor = EventReader::from_writer(&channel);

    let mut trigger = EventTrigger::new(&mut channel);
    trigger.send(Ping(1));
    trigger.send(Ping(2));

    let mut view = Event::new(&mut cursor, &channel);
    assert_eq!(view.read(), Some(Ping(1)));
    assert_eq!(view.read(), Some(Ping(2)));
    assert_eq!(view.read(), None);
}

#[test]
fn event_iter_drains_pending_once() {
    let mut channel = EventWriter::<Ping>::new();
    let mut cursor = EventReader::from_writer(&channel);

    let mut trigger = EventTrigger::new(&mut channel);
    trigger.send(Ping(3));
    trigger.send(Ping(4));

    let mut view = Event::new(&mut cursor, &channel);
    let drained = view.iter();
    assert_eq!(drained, vec![Ping(3), Ping(4)]);
    assert!(view.iter().is_empty());
}

#[test]
fn cursor_state_persists_between_views() {
    let mut channel = EventWriter::<Ping>::new();
    let mut cursor = EventReader::from_writer(&channel);

    channel.send(Ping(7));
    {
        let mut view = Event::new(&mut cursor, &channel);
        assert_eq!(view.read(), Some(Ping(7)));
    }
    channel.send(Ping(8));
    {
        let mut view = Event::new(&mut cursor, &channel);
        // the first event is not replayed to the same cursor
        assert_eq!(view.read(), Some(Ping(8)));
        assert_eq!(view.read(), None);
    }
}

#[test]
fn tick_advance_measures_elapsed_time() {
    let mut tick = Tick::new();
    tick.advance(40);
    assert_eq!(tick.advance(100), 60);
    assert_eq!(tick.advance(100), 0);
    // a clock that moved backwards reads as no elapsed time
    assert_eq!(tick.advance(30), 0);
    assert_eq!(tick.advance(31), 1);
}

#[test]
fn tick_delta_runs_against_the_real_clock() {
    let mut tick = Tick::new();
    let _first = tick.delta();
    let _second = tick.delta();
}
