use llm_chat::config::{Args, VocabularySource};
use llm_chat::gate::{Admission, Handoff, SessionGate};
use llm_chat::message::Outbound;
use llm_chat::queue::{BoundedQueue, Popped, PushError};
use llm_chat::responder::{Phase, Responder, ResponderAction, ResponderEvent};
use llm_chat::worker::{EngineEvent, Worker, WorkerAction};
use llm_chat::ChatRequest;

fn streaming_responder() -> Responder {
    let mut r = Responder::new();
    assert!(matches!(r.step(ResponderEvent::PromptAccepted), ResponderAction::Wait));
    assert!(r.phase == Phase::PromptQueued);
    assert!(matches!(r.step(ResponderEvent::GateRequested), ResponderAction::Wait));
    assert!(r.phase == Phase::AwaitingGate);
    assert!(matches!(r.step(ResponderEvent::GateGranted), ResponderAction::Wait));
    assert!(r.phase == Phase::Streaming);
    r
}

/// Runs a worker over the engine's events and hands everything it pushes to a
/// streaming responder; returns the bytes sent and whether the stream finished.
fn relay(events: Vec<EngineEvent>) -> (Vec<u8>, bool) {
    let mut w = Worker::new();
    let mut r = streaming_responder();
    let mut out = Vec::new();
    let mut finished = false;
    for e in events {
        match w.step(e) {
            WorkerAction::Push(item) => match r.step(ResponderEvent::Received(item)) {
                ResponderAction::Emit(b) => out.extend_from_slice(&b),
                ResponderAction::Finish => finished = true,
                ResponderAction::Wait => {}
                ResponderAction::Abort => panic!("stream aborted"),
            },
            WorkerAction::StartEngine(_) | WorkerAction::Nothing => {}
        }
    }
    (out, finished)
}

#[test]
fn round_trip_hello_world() {
    let (bytes, finished) = relay(vec![
        EngineEvent::PromptTaken("hello".to_string()),
        EngineEvent::Produced("He".to_string()),
        EngineEvent::Produced("llo".to_string()),
        EngineEvent::Produced(" world".to_string()),
        EngineEvent::Finished,
    ]);
    assert_eq!(bytes, b"Hello world".to_vec());
    assert!(finished);
}

#[test]
fn fragments_are_utf8_encoded_in_order() {
    let (bytes, finished) = relay(vec![
        EngineEvent::PromptTaken("x".to_string()),
        EngineEvent::Produced("é".to_string()),
        EngineEvent::Produced("ß!".to_string()),
        EngineEvent::Finished,
    ]);
    assert_eq!(bytes, "éß!".as_bytes().to_vec());
    assert_eq!(bytes, vec![0xC3, 0xA9, 0xC3, 0x9F, b'!']);
    assert!(finished);
}

#[test]
fn engine_failure_still_ends_the_stream() {
    let (bytes, finished) = relay(vec![
        EngineEvent::PromptTaken("hello".to_string()),
        EngineEvent::Produced("He".to_string()),
        EngineEvent::Failed,
    ]);
    assert_eq!(bytes, b"He".to_vec());
    assert!(finished);
}

#[test]
fn failure_before_any_fragment_gives_an_empty_stream() {
    let (bytes, finished) = relay(vec![EngineEvent::PromptTaken("p".to_string()), EngineEvent::Failed]);
    assert!(bytes.is_empty());
    assert!(finished);
}

#[test]
fn worker_takes_the_next_prompt_after_a_failure() {
    let mut w = Worker::new();
    assert!(w.is_idle());
    assert!(matches!(w.step(EngineEvent::PromptTaken("a".to_string())), WorkerAction::StartEngine(p) if p == "a"));
    assert!(!w.is_idle());
    assert!(matches!(w.step(EngineEvent::Failed), WorkerAction::Push(Outbound::Terminal)));
    assert!(w.is_idle());
    assert!(matches!(w.step(EngineEvent::PromptTaken("b".to_string())), WorkerAction::StartEngine(p) if p == "b"));
    assert!(matches!(w.step(EngineEvent::Produced("x".to_string())), WorkerAction::Push(Outbound::Fragment(f)) if f == "x"));
}

#[test]
fn idle_worker_pushes_nothing() {
    let mut w = Worker::new();
    assert!(matches!(w.step(EngineEvent::Produced("x".to_string())), WorkerAction::Nothing));
    assert!(matches!(w.step(EngineEvent::Finished), WorkerAction::Nothing));
}

#[test]
fn nothing_is_sent_after_the_terminal_marker() {
    let mut r = streaming_responder();
    assert!(matches!(r.step(ResponderEvent::Received(Outbound::Terminal)), ResponderAction::Finish));
    assert!(r.phase == Phase::Completed);
    assert!(r.is_done());
    assert!(matches!(
        r.step(ResponderEvent::Received(Outbound::Fragment("late".to_string()))),
        ResponderAction::Wait
    ));
    assert!(matches!(r.step(ResponderEvent::Disconnected), ResponderAction::Wait));
    assert!(r.phase == Phase::Completed);
}

#[test]
fn fragments_before_the_gate_are_not_sent() {
    let mut r = Responder::new();
    assert!(matches!(
        r.step(ResponderEvent::Received(Outbound::Fragment("x".to_string()))),
        ResponderAction::Wait
    ));
    assert!(r.phase == Phase::Idle);
}

#[test]
fn disconnect_while_streaming_aborts() {
    let mut r = streaming_responder();
    assert!(matches!(
        r.step(ResponderEvent::Received(Outbound::Fragment("a".to_string()))),
        ResponderAction::Emit(b) if b == b"a".to_vec()
    ));
    assert!(matches!(r.step(ResponderEvent::Disconnected), ResponderAction::Abort));
    assert!(r.phase == Phase::Aborted);
    assert!(r.is_done());
}

#[test]
fn failure_while_waiting_for_the_gate_aborts() {
    let mut r = Responder::new();
    r.step(ResponderEvent::PromptAccepted);
    r.step(ResponderEvent::GateRequested);
    assert!(matches!(r.step(ResponderEvent::Failed), ResponderAction::Abort));
    assert!(r.phase == Phase::Aborted);
}

#[test]
fn backpressure_with_capacity_one() {
    let mut q: BoundedQueue<Outbound> = BoundedQueue::new(1);
    assert_eq!(q.capacity(), 1);
    let frags = ["a", "b", "c", "d", "e"];
    let mut received = Vec::new();
    for f in frags {
        let mut item = Outbound::Fragment(f.to_string());
        loop {
            match q.try_push(item) {
                Ok(()) => break,
                Err(PushError::Full(back)) => {
                    // the producer waits until the consumer takes the oldest item
                    assert!(q.is_full());
                    match q.try_pop() {
                        Popped::Item(Outbound::Fragment(s)) => received.push(s),
                        _ => panic!("expected a fragment"),
                    }
                    item = back;
                }
                Err(PushError::Closed(_)) => panic!("queue closed"),
            }
        }
        assert_eq!(q.len(), 1);
    }
    match q.try_pop() {
        Popped::Item(Outbound::Fragment(s)) => received.push(s),
        _ => panic!("expected a fragment"),
    }
    assert!(q.is_empty());
    assert_eq!(received, vec!["a", "b", "c", "d", "e"]);
}

#[test]
fn second_push_waits_for_the_first_pop() {
    let mut q: BoundedQueue<u32> = BoundedQueue::new(1);
    assert!(q.try_push(1).is_ok());
    assert!(matches!(q.try_push(2), Err(PushError::Full(2))));
    assert!(matches!(q.try_pop(), Popped::Item(1)));
    assert!(q.try_push(2).is_ok());
    assert!(matches!(q.try_pop(), Popped::Item(2)));
    assert!(matches!(q.try_pop(), Popped::Empty));
}

#[test]
fn closed_queue_drains_then_reports_closed() {
    let mut q: BoundedQueue<u32> = BoundedQueue::new(3);
    assert!(q.try_push(7).is_ok());
    assert!(q.try_push(8).is_ok());
    q.close();
    assert!(q.is_closed());
    assert!(matches!(q.try_push(9), Err(PushError::Closed(9))));
    assert!(matches!(q.try_pop(), Popped::Item(7)));
    assert!(matches!(q.try_pop(), Popped::Item(8)));
    assert!(matches!(q.try_pop(), Popped::Closed));
}

#[test]
fn zero_capacity_queue_takes_nothing() {
    let mut q: BoundedQueue<u32> = BoundedQueue::new(0);
    assert!(q.is_full());
    assert!(matches!(q.try_push(1), Err(PushError::Full(1))));
}

#[test]
fn gate_has_one_holder_at_a_time() {
    let mut g = SessionGate::new();
    assert!(matches!(g.acquire(1), Admission::Granted));
    assert!(matches!(g.acquire(2), Admission::Queued));
    assert!(matches!(g.acquire(3), Admission::Queued));
    assert!(matches!(g.acquire(2), Admission::AlreadyPresent));
    assert!(matches!(g.acquire(1), Admission::AlreadyPresent));
    assert_eq!(g.holder(), Some(1));
    assert_eq!(g.waiting(), 2);
    assert!(matches!(g.release(1), Handoff::HandedTo(2)));
    assert_eq!(g.holder(), Some(2));
    assert!(matches!(g.release(2), Handoff::HandedTo(3)));
    assert!(matches!(g.release(3), Handoff::Free));
    assert_eq!(g.holder(), None);
    assert!(matches!(g.release(3), Handoff::Unknown));
}

#[test]
fn gate_serves_waiters_in_arrival_order() {
    let mut g = SessionGate::new();
    assert!(matches!(g.acquire(100), Admission::Granted));
    assert!(matches!(g.acquire(10), Admission::Queued));
    assert!(matches!(g.acquire(20), Admission::Queued));
    assert_eq!(g.position(10), Some(0));
    assert_eq!(g.position(20), Some(1));
    assert!(matches!(g.release(100), Handoff::HandedTo(10)));
    assert_eq!(g.holder(), Some(10));
    assert_eq!(g.position(20), Some(0));
}

#[test]
fn disconnected_holder_hands_the_gate_on() {
    let mut g = SessionGate::new();
    g.acquire(1);
    g.acquire(2);
    let mut r = streaming_responder();
    assert!(matches!(r.step(ResponderEvent::Disconnected), ResponderAction::Abort));
    assert!(matches!(g.release(1), Handoff::HandedTo(2)));
    assert_eq!(g.holder(), Some(2));
}

#[test]
fn waiter_that_leaves_is_skipped() {
    let mut g = SessionGate::new();
    g.acquire(1);
    g.acquire(2);
    g.acquire(3);
    assert!(matches!(g.release(2), Handoff::Withdrawn));
    assert_eq!(g.position(2), None);
    assert_eq!(g.position(3), Some(0));
    assert!(matches!(g.release(1), Handoff::HandedTo(3)));
}

fn args(path: Option<&str>, repo: Option<&str>) -> Args {
    Args {
        model_path: "model.bin".to_string(),
        vocabulary_path: path.map(|p| p.to_string()),
        vocabulary_repository: repo.map(|r| r.to_string()),
        host: "localhost".to_string(),
        port: 8080,
    }
}

#[test]
fn vocabulary_from_file() {
    assert_eq!(
        args(Some("tok.json"), None).to_vocabulary_source(),
        VocabularySource::TokenizerFile("tok.json".to_string())
    );
}

#[test]
fn vocabulary_from_repository() {
    assert_eq!(
        args(None, Some("org/model")).to_vocabulary_source(),
        VocabularySource::Remote("org/model".to_string())
    );
}

#[test]
fn vocabulary_from_model() {
    assert_eq!(args(None, None).to_vocabulary_source(), VocabularySource::Model);
}

#[test]
fn chat_request_holds_its_prompt() {
    let r = ChatRequest { prompt: "hello".to_string() };
    assert_eq!(r.prompt, "hello");
}

#[test]
fn prompt_offered_mid_generation_is_refused() {
    let mut w = Worker::new();
    assert!(matches!(w.step(EngineEvent::PromptTaken("a".to_string())), WorkerAction::StartEngine(_)));
    assert!(matches!(w.step(EngineEvent::PromptTaken("b".to_string())), WorkerAction::Nothing));
    assert!(!w.is_idle());
    assert!(matches!(w.step(EngineEvent::Finished), WorkerAction::Push(Outbound::Terminal)));
}
