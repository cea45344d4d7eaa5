use isle_ecs::event::{EventArgs, EventReader, EventWriter};

#[derive(Clone, Copy, Debug)]
struct Event(usize);

impl EventArgs for Event {}

fn make_channel() -> (EventWriter<Event>, EventReader<Event>) {
    let mut writer = EventWriter::<Event>::new();
    let reader = EventReader::from_writer(&writer);

    for i in 0..5 {
        writer.send(Event(i));
    }

    (writer, reader)
}

#[test]
fn event_test_write_read() {
    let (writer, mut reader) = make_channel();

    let events: Vec<usize> = reader.iter(&writer).iter().map(|Event(i)| *i).collect();
    let comp: Vec<usize> = (0..5).collect();

    assert_eq!(events, comp);
    assert!(reader.read(&writer).is_none());
}

#[test]
fn lib_test_write_read() {
    let (writer, mut reader) = make_channel();

    let events: Vec<usize> = reader.iter(&writer).iter().map(|Event(i)| *i).collect();
    let comp: Vec<usize> = (0..5).collect();

    assert_eq!(events, comp);
    assert!(reader.read(&writer).is_none());
}

#[test]
fn reader_sees_sends_in_order() {
    let mut writer = EventWriter::<Event>::new();
    let mut reader = EventReader::from_writer(&writer);

    writer.send(Event(1));
    writer.send(Event(2));
    writer.send(Event(3));

    assert_eq!(reader.read(&writer).unwrap().0, 1);
    assert_eq!(reader.read(&writer).unwrap().0, 2);
    assert_eq!(reader.read(&writer).unwrap().0, 3);
    assert!(reader.read(&writer).is_none());
}

#[test]
fn late_reader_never_replays() {
    let mut writer = EventWriter::<Event>::new();
    let mut early = EventReader::from_writer(&writer);

    writer.send(Event(1));
    let mut late = EventReader::from_writer(&writer);
    writer.send(Event(2));
    writer.send(Event(3));

    let seen_early: Vec<usize> = early.iter(&writer).iter().map(|Event(i)| *i).collect();
    let seen_late: Vec<usize> = late.iter(&writer).iter().map(|Event(i)| *i).collect();

    assert_eq!(seen_early, vec![1, 2, 3]);
    assert_eq!(seen_late, vec![2, 3]);
}

#[test]
fn each_event_observed_exactly_once() {
    let mut writer = EventWriter::<Event>::new();
    let mut reader = EventReader::from_writer(&writer);

    writer.send(Event(7));
    assert_eq!(reader.read(&writer).unwrap().0, 7);
    assert!(reader.read(&writer).is_none());

    writer.send(Event(8));
    assert_eq!(reader.read(&writer).unwrap().0, 8);
    assert!(reader.read(&writer).is_none());
}

#[test]
fn independent_readers_do_not_disturb_each_other() {
    let mut writer = EventWriter::<Event>::new();
    let mut a = EventReader::from_writer(&writer);
    let mut b = EventReader::from_writer(&writer);

    writer.send(Event(1));
    writer.send(Event(2));

    assert_eq!(a.read(&writer).unwrap().0, 1);
    assert_eq!(a.read(&writer).unwrap().0, 2);

    assert_eq!(b.read(&writer).unwrap().0, 1);
    assert_eq!(b.read(&writer).unwrap().0, 2);
}

#[test]
fn writer_last_is_reader_start() {
    let mut writer = EventWriter::<Event>::new();
    assert_eq!(writer.last(), 0);
    writer.send(Event(1));
    assert_eq!(writer.last(), 1);

    let mut reader = EventReader::from_writer(&writer);
    assert!(reader.read(&writer).is_none());
}

#[test]
fn copied_cursor_continues_independently() {
    let mut writer = EventWriter::<Event>::new();
    let mut reader = EventReader::from_writer(&writer);

    writer.send(Event(1));
    writer.send(Event(2));

    assert_eq!(reader.read(&writer).unwrap().0, 1);

    // a mid-stream copy picks up at the same position...
    let mut copy = reader;
    assert_eq!(copy.read(&writer).unwrap().0, 2);
    assert!(copy.read(&writer).is_none());

    // ...without moving the reader it was copied from
    assert_eq!(reader.read(&writer).unwrap().0, 2);

    // a clone behaves the same way
    let mut cloned = reader.clone();
    assert!(cloned.read(&writer).is_none());
}
