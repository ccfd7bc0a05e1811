use pebble::ecs::stream::{Inbox, NothingReceived, Stream, StreamState};

#[test]
fn poll_is_pending_before_an_emit_and_ready_after() {
    let (emitter, stream) = Stream::new();

    assert!(matches!(stream.poll(), StreamState::Pending));

    emitter.emit(42);

    assert!(matches!(stream.poll(), StreamState::Ready(42)));
    assert!(matches!(stream.poll(), StreamState::Pending));
}

#[test]
fn polls_yield_every_emitted_value_in_emit_order() {
    let (emitter, stream) = Stream::new();

    emitter.emit(1);
    emitter.emit(2);
    emitter.emit(3);

    let mut drained = Vec::new();
    while let StreamState::Ready(value) = stream.poll() {
        drained.push(value);
    }
    assert_eq!(drained, vec![1, 2, 3]);
}

#[test]
fn a_cloned_emitter_feeds_the_same_stream() {
    let (emitter, stream) = Stream::new();
    let clone = emitter.clone();

    emitter.emit(1);
    clone.emit(2);

    assert!(matches!(stream.poll(), StreamState::Ready(1)));
    assert!(matches!(stream.poll(), StreamState::Ready(2)));
}

#[test]
fn poll_is_disconnected_only_after_every_emitter_is_gone_and_the_backlog_is_drained() {
    let (emitter, stream) = Stream::new();
    let clone = emitter.clone();

    emitter.emit(1);
    drop(emitter);

    // one emitter left: still just Pending after the backlog
    assert!(matches!(stream.poll(), StreamState::Ready(1)));
    assert!(matches!(stream.poll(), StreamState::Pending));

    clone.emit(2);
    drop(clone);

    // last emitter gone: the buffered value still arrives first
    assert!(matches!(stream.poll(), StreamState::Ready(2)));
    assert!(matches!(stream.poll(), StreamState::Disconnected));
}

#[test]
fn emitting_into_a_dropped_stream_is_quiet() {
    let (emitter, stream) = Stream::new();
    drop(stream);
    emitter.emit(5);
}

#[test]
fn a_poll_reports_what_the_channel_gave() {
    assert!(matches!(StreamState::from_received(Ok(9)), StreamState::Ready(9)));
    assert!(matches!(
        StreamState::<u8>::from_received(Err(NothingReceived::Empty)),
        StreamState::Pending
    ));
    assert!(matches!(
        StreamState::<u8>::from_received(Err(NothingReceived::Disconnected)),
        StreamState::Disconnected
    ));
}

#[test]
fn streams_made_apart_are_kept_apart() {
    let (first, one) = Stream::new();
    let (second, other) = Stream::new();
    first.clone().emit(1);
    assert!(matches!(other.poll(), StreamState::Pending));
    assert!(matches!(one.poll(), StreamState::Ready(1)));
    second.emit(2);
    assert!(matches!(one.poll(), StreamState::Pending));
    drop(first);
    assert!(matches!(one.poll(), StreamState::Disconnected));
    assert!(matches!(other.poll(), StreamState::Ready(2)));
    assert!(matches!(other.poll(), StreamState::Pending));
}

#[test]
fn an_inbox_gives_each_value_once_and_in_order() {
    let (emitter, stream) = Stream::new();
    let mut inbox = Inbox::new(stream);
    assert!(matches!(inbox.take_next(), StreamState::Pending));
    emitter.emit(1);
    emitter.emit(2);
    emitter.emit(3);
    assert!(matches!(inbox.take_next(), StreamState::Ready(1)));
    assert_eq!(inbox.drain(), vec![2, 3]);
    assert_eq!(inbox.drain(), Vec::<i32>::new());
    emitter.emit(4);
    drop(emitter);
    assert_eq!(inbox.drain(), vec![4]);
    assert!(matches!(inbox.take_next(), StreamState::Disconnected));
}
