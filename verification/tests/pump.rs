use runz::emitter::{pump_step, Event};

#[test]
fn zero_bytes_end_the_stream() {
    let buf = [b'x'; 16];
    let step = pump_step(Ok(0), &buf);
    assert!(matches!(step.event, Event::Stopped));
    assert!(step.finished);
    assert!(step.event.is_terminal());
}

#[test]
fn bytes_become_output_at_once() {
    let mut buf = [0u8; 16];
    buf[..6].copy_from_slice(b"hello\n");
    let step = pump_step(Ok(6), &buf);
    match &step.event {
        Event::Output { text } => assert_eq!(text, "hello\n"),
        other => panic!("unexpected event {:?}", other),
    }
    assert!(!step.finished);
    assert!(!step.event.is_terminal());
}

#[test]
fn only_the_bytes_read_are_decoded() {
    let buf = *b"abcdef";
    let step = pump_step(Ok(2), &buf);
    match step.event {
        Event::Output { text } => assert_eq!(text, "ab"),
        other => panic!("unexpected event {:?}", other),
    }
}

#[test]
fn invalid_bytes_are_replaced() {
    let buf = [b'a', 0xff, b'b'];
    let step = pump_step(Ok(3), &buf);
    match step.event {
        Event::Output { text } => assert_eq!(text, "a\u{fffd}b"),
        other => panic!("unexpected event {:?}", other),
    }
}

#[test]
fn split_sequence_is_replaced_in_each_chunk() {
    let whole = "é".as_bytes();
    let first = pump_step(Ok(1), &whole[..1]);
    let second = pump_step(Ok(1), &whole[1..]);
    match (first.event, second.event) {
        (Event::Output { text: a }, Event::Output { text: b }) => {
            assert_eq!(a, "\u{fffd}");
            assert_eq!(b, "\u{fffd}");
        }
        other => panic!("unexpected events {:?}", other),
    }
}

#[test]
fn read_error_ends_the_stream() {
    let buf = [0u8; 4];
    let failure = std::io::Error::new(std::io::ErrorKind::Other, "boom");
    let step = pump_step(Err(failure), &buf);
    match &step.event {
        Event::Error { message } => assert!(message.contains("boom")),
        other => panic!("unexpected event {:?}", other),
    }
    assert!(step.finished);
    assert!(step.event.is_terminal());
}

#[test]
fn events_have_tags_and_data() {
    assert_eq!(Event::Running.kind(), "running");
    assert_eq!(Event::Stopped.kind(), "stopped");
    let out = Event::Output { text: "x".to_string() };
    let err = Event::Error { message: "y".to_string() };
    assert_eq!(out.kind(), "output");
    assert_eq!(err.kind(), "error");
    assert_eq!(Event::Running.data(), None);
    assert_eq!(Event::Stopped.data(), None);
    assert_eq!(out.data(), Some("x".to_string()));
    assert_eq!(err.data(), Some("y".to_string()));
    assert!(!Event::Running.is_terminal());
}

#[test]
fn outputs_in_read_order_spell_what_was_produced() {
    let produced = "héllo wörld\n".as_bytes();
    let cuts = [0usize, 3, 7, produced.len()];
    let mut text = String::new();
    for pair in cuts.windows(2) {
        let chunk = &produced[pair[0]..pair[1]];
        let step = pump_step(Ok(chunk.len()), chunk);
        match step.event {
            Event::Output { text: part } => text.push_str(&part),
            other => panic!("unexpected event {:?}", other),
        }
        assert!(!step.finished);
    }
    assert_eq!(text, "héllo wörld\n");
}
