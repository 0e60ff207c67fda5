use sse_agent::body::{Polled, Turn};
use sse_agent::{Body, ErrorKind, Event};

/// Drives an adapter over the chunks of a source that never fails, to the
/// end of the source, and collects what it yields.
fn collect(chunks: &[&[u8]]) -> Vec<Event> {
    let mut body = Body::new(());
    let mut left = chunks.iter();
    let mut events = Vec::new();
    let mut turn = body.begin::<()>();
    loop {
        match turn {
            Turn::Yield(item) => {
                events.push(item.expect("Parses"));
                turn = body.begin();
            }
            Turn::Poll => {
                let polled = match left.next() {
                    Some(chunk) => Polled::Chunk(chunk.to_vec()),
                    None => Polled::Exhausted,
                };
                turn = body.turn(polled);
            }
            Turn::Done => return events,
            Turn::Wait => unreachable!(),
        }
    }
}

#[test]
fn parse_hyper_body_as_sse() {
    let events = collect(&[r#"
: test stream

data: first event
id: 1

data:second event
id

data:  third event

"#
    .as_bytes()]);
    let mut sse = events.into_iter();

    let ev = sse.next().expect("Event");
    assert_eq!(ev.data, "first event");
    assert_eq!(ev.last_event_id.as_deref(), Some("1"));

    let ev = sse.next().expect("Event");
    assert_eq!(ev.data, "second event");
    assert_eq!(ev.last_event_id.as_deref(), Some(""));

    let ev = sse.next().expect("Event");
    assert_eq!(ev.data, " third event");
    assert_eq!(ev.last_event_id, None);
}

#[test]
fn parse_example_two_events() {
    let events = collect(&[r#"
data

data
data

data:"#
        .as_bytes()]);
    let mut p = events.into_iter();

    let ev = p.next().expect("Event");
    assert_eq!(ev.event, "");
    assert_eq!(ev.data, "");

    let ev = p.next().expect("Event");
    assert_eq!(ev.event, "");
    assert_eq!(ev.data, "\n");

    assert!(p.next().is_none());
}

#[test]
fn buffered_event_is_yielded_without_polling() {
    let mut body = Body::new(());
    match body.turn::<()>(Polled::Chunk(b"data:a\n\ndata:b\n\n".to_vec())) {
        Turn::Yield(Ok(ev)) => assert_eq!(ev.data, "a"),
        _ => panic!("expected the first event"),
    }
    match body.begin::<()>() {
        Turn::Yield(Ok(ev)) => assert_eq!(ev.data, "b"),
        _ => panic!("expected the second event"),
    }
    assert!(matches!(body.begin::<()>(), Turn::Poll));
}

#[test]
fn chunk_without_event_asks_for_more() {
    let mut body = Body::new(());
    assert!(matches!(body.begin::<()>(), Turn::Poll));
    assert!(matches!(
        body.turn::<()>(Polled::Chunk(b"data: half".to_vec())),
        Turn::Poll
    ));
    match body.turn::<()>(Polled::Chunk(b" way\n\n".to_vec())) {
        Turn::Yield(Ok(ev)) => assert_eq!(ev.data, "half way"),
        _ => panic!("expected an event"),
    }
}

#[test]
fn transport_error_is_handed_on() {
    let mut body = Body::new(());
    match body.turn(Polled::Failed("connection reset")) {
        Turn::Yield(Err(err)) => match err.kind() {
            ErrorKind::Inner(inner) => assert_eq!(inner, "connection reset"),
            ErrorKind::Sse(_) => panic!("expected a transport error"),
        },
        _ => panic!("expected an error"),
    }
}

#[test]
fn parse_error_is_wrapped() {
    let mut body = Body::new(());
    match body.turn::<()>(Polled::Chunk(b"data:\xff\n".to_vec())) {
        Turn::Yield(Err(err)) => match err.kind() {
            ErrorKind::Sse(sse_agent::parser::Error::Utf8(e)) => assert_eq!(e.valid_up_to(), 0),
            ErrorKind::Inner(_) => panic!("expected a parse error"),
        },
        _ => panic!("expected an error"),
    }
}

#[test]
fn exhausted_source_ends_the_stream() {
    let mut body = Body::new(());
    assert!(matches!(body.turn::<()>(Polled::Exhausted), Turn::Done));
}

#[test]
fn source_not_ready_leaves_the_adapter_waiting() {
    let mut body = Body::new(());
    assert!(matches!(
        body.turn::<()>(Polled::Chunk(b"data: kept".to_vec())),
        Turn::Poll
    ));
    assert!(matches!(body.turn::<()>(Polled::NotReady), Turn::Wait));
    match body.turn::<()>(Polled::Chunk(b"\n\n".to_vec())) {
        Turn::Yield(Ok(ev)) => assert_eq!(ev.data, "kept"),
        _ => panic!("expected an event"),
    }
}

#[test]
fn inner_mut_reaches_the_source() {
    let mut body = Body::new(7u32);
    *body.inner_mut() += 1;
    assert_eq!(*body.inner_mut(), 8);
}

#[test]
fn undispatched_block_yields_nothing_at_stream_end() {
    let events = collect(&[b"data: one\n\n", b"data: two\n"]);
    assert_eq!(events.len(), 1);
    assert_eq!(events[0].data, "one");
}
