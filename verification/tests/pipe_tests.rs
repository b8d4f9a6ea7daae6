//! Tests of the stream-to-queue bridge and the downstream pipe stream.

use desync::desync::Desync;
use desync::pipe::{Bridge, BridgeAction, PipePoll, PipeStream, StreamEvent};

#[test]
fn piped_source_sums_into_the_handle_and_terminates() {
    let mut bridge = Bridge::new();
    let mut handle = Desync::new(0u64);
    let events: Vec<StreamEvent<u64, ()>> = vec![
        StreamEvent::Ready(1),
        StreamEvent::Ready(2),
        StreamEvent::Ready(3),
        StreamEvent::Ended,
    ];
    for ev in &events {
        match bridge.step(ev, true) {
            BridgeAction::Process => {
                if let StreamEvent::Ready(n) = ev {
                    let n = *n;
                    handle.desync(move |v| v + n);
                }
            }
            BridgeAction::Finish => break,
            BridgeAction::Wait => {}
        }
    }
    assert!(bridge.finished());
    assert_eq!(handle.into_inner(), 6);
}

#[test]
fn not_ready_leaves_the_bridge_waiting() {
    let mut bridge = Bridge::new();
    let ev: StreamEvent<u64, ()> = StreamEvent::NotReady;
    let action = bridge.step(&ev, true);
    assert_eq!(action, BridgeAction::Wait);
    assert!(!bridge.finished());
}

#[test]
fn errors_are_forwarded_to_the_processor() {
    let mut bridge = Bridge::new();
    let mut seen: Vec<Result<u64, &'static str>> = Vec::new();
    let events: Vec<StreamEvent<u64, &'static str>> =
        vec![StreamEvent::Ready(5), StreamEvent::Failed("boom"), StreamEvent::Ended];
    for ev in &events {
        match bridge.step(ev, true) {
            BridgeAction::Process => match ev {
                StreamEvent::Ready(n) => seen.push(Ok(*n)),
                StreamEvent::Failed(e) => seen.push(Err(*e)),
                _ => unreachable!(),
            },
            BridgeAction::Finish => break,
            BridgeAction::Wait => {}
        }
    }
    assert!(bridge.finished());
    assert_eq!(seen, vec![Ok(5), Err("boom")]);
}

#[test]
fn dead_downstream_terminates_the_bridge() {
    let mut bridge = Bridge::new();
    let ev: StreamEvent<u64, ()> = StreamEvent::Ready(1);
    let action = bridge.step(&ev, false);
    assert_eq!(action, BridgeAction::Finish);
    assert!(bridge.finished());
}

#[test]
fn pipe_stream_yields_items_in_order() {
    let mut s: PipeStream<u64, &'static str> = PipeStream::new();
    assert!(!s.push_item(Ok(2)));
    assert!(!s.push_item(Ok(4)));
    assert!(matches!(s.poll(), PipePoll::Item(2)));
    assert!(matches!(s.poll(), PipePoll::Item(4)));
    assert!(matches!(s.poll(), PipePoll::NotReady));
}

#[test]
fn pipe_stream_wakes_registered_consumer_on_push() {
    let mut s: PipeStream<u64, &'static str> = PipeStream::new();
    assert!(matches!(s.poll(), PipePoll::NotReady));
    // The consumer's waker was registered: the next push must fire it.
    assert!(s.push_item(Ok(9)));
    assert!(matches!(s.poll(), PipePoll::Item(9)));
}

#[test]
fn pipe_stream_forwards_errors() {
    let mut s: PipeStream<u64, &'static str> = PipeStream::new();
    s.push_item(Err("upstream failed"));
    assert!(matches!(s.poll(), PipePoll::Failed("upstream failed")));
}

#[test]
fn closed_pipe_stream_drains_then_ends() {
    let mut s: PipeStream<u64, &'static str> = PipeStream::new();
    s.push_item(Ok(1));
    let was_waiting = s.close();
    assert!(!was_waiting);
    assert!(matches!(s.poll(), PipePoll::Item(1)));
    assert!(matches!(s.poll(), PipePoll::Done));
    assert!(matches!(s.poll(), PipePoll::Done));
}

#[test]
fn close_wakes_a_waiting_consumer() {
    let mut s: PipeStream<u64, &'static str> = PipeStream::new();
    assert!(matches!(s.poll(), PipePoll::NotReady));
    assert!(s.close());
    assert!(matches!(s.poll(), PipePoll::Done));
}

#[test]
fn abandoned_stream_flushes_pending_items() {
    let mut s: PipeStream<u64, &'static str> = PipeStream::new();
    s.push_item(Ok(1));
    s.push_item(Ok(2));
    s.abandon();
    s.close();
    assert!(matches!(s.poll(), PipePoll::Done));
}
