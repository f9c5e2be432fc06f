//! The per-request streaming responder, as a state machine from events to
//! actions. The caller performs each action and reports what happened next.
use vstd::prelude::*;
use vstd::string::*;
use vstd::utf8::encode_utf8;
use crate::message::Outbound;

verus! {

/// Where a request stands.
#[derive(PartialEq, Eq, Structural, Clone, Copy)]
pub enum Phase {
    Idle,
    PromptQueued,
    AwaitingGate,
    Streaming,
    Completed,
    Aborted,
}

/// What happened to a request.
pub enum ResponderEvent {
    /// Its prompt entered the inbound queue.
    PromptAccepted,
    /// It asked for the session token and was put in line.
    GateRequested,
    /// It was granted the session token.
    GateGranted,
    /// It took an item off the outbound queue.
    Received(Outbound),
    /// The client went away.
    Disconnected,
    /// Something failed on the way to the client.
    Failed,
}

/// What the caller must do next.
pub enum ResponderAction {
    /// Nothing yet.
    Wait,
    /// Send these bytes to the client at once.
    Emit(Vec<u8>),
    /// End the response normally and release the session token.
    Finish,
    /// End the response early and release the session token.
    Abort,
}

/// Whether a request has ended, normally or not.
pub open spec fn is_final(p: Phase) -> bool {
    p == Phase::Completed || p == Phase::Aborted
}

/// The phase after one event. An ended request stays ended; a lost client or
/// a failure ends any other; the rest follow the order
/// idle, prompt queued, awaiting the token, streaming, completed.
pub open spec fn next_phase(p: Phase, e: ResponderEvent) -> Phase {
    if is_final(p) {
        p
    } else {
        match e {
            ResponderEvent::Disconnected | ResponderEvent::Failed => Phase::Aborted,
            ResponderEvent::PromptAccepted => if p == Phase::Idle {
                Phase::PromptQueued
            } else {
                p
            },
            ResponderEvent::GateRequested => if p == Phase::PromptQueued {
                Phase::AwaitingGate
            } else {
                p
            },
            ResponderEvent::GateGranted => if p == Phase::AwaitingGate {
                Phase::Streaming
            } else {
                p
            },
            ResponderEvent::Received(Outbound::Terminal) => if p == Phase::Streaming {
                Phase::Completed
            } else {
                p
            },
            ResponderEvent::Received(Outbound::Fragment(_)) => p,
        }
    }
}

/// The bytes a step sends to the client: the UTF-8 encoding of a fragment
/// received while streaming, and nothing otherwise.
pub open spec fn emitted(p: Phase, e: ResponderEvent) -> Seq<u8> {
    match e {
        ResponderEvent::Received(Outbound::Fragment(s)) => if p == Phase::Streaming {
            encode_utf8(s@)
        } else {
            Seq::empty()
        },
        _ => Seq::empty(),
    }
}

/// The bytes an action sends to the client.
pub open spec fn action_bytes(a: ResponderAction) -> Seq<u8> {
    match a {
        ResponderAction::Emit(b) => b@,
        _ => Seq::empty(),
    }
}

/// The phase after a whole sequence of events.
pub open spec fn run_phase(p: Phase, es: Seq<ResponderEvent>) -> Phase
    decreases es.len(),
{
    if es.len() == 0 {
        p
    } else {
        next_phase(run_phase(p, es.drop_last()), es.last())
    }
}

/// Everything sent to the client over a whole sequence of events.
pub open spec fn run_bytes(p: Phase, es: Seq<ResponderEvent>) -> Seq<u8>
    decreases es.len(),
{
    if es.len() == 0 {
        Seq::empty()
    } else {
        run_bytes(p, es.drop_last()) + emitted(run_phase(p, es.drop_last()), es.last())
    }
}

/// The fragments' UTF-8 encodings, one after the other.
pub open spec fn concat_bytes(frags: Seq<String>) -> Seq<u8>
    decreases frags.len(),
{
    if frags.len() == 0 {
        Seq::empty()
    } else {
        concat_bytes(frags.drop_last()) + encode_utf8(frags.last()@)
    }
}

/// The events of receiving each fragment in turn.
pub open spec fn received_fragments(frags: Seq<String>) -> Seq<ResponderEvent> {
    frags.map_values(|f: String| ResponderEvent::Received(Outbound::Fragment(f)))
}

/// The events of a whole generation as its token holder sees them.
pub open spec fn generation_events(frags: Seq<String>) -> Seq<ResponderEvent> {
    received_fragments(frags).push(ResponderEvent::Received(Outbound::Terminal))
}

/// One request's side of the bridge.
pub struct Responder {
    pub phase: Phase,
}

impl Responder {
    pub fn new() -> (r: Self)
        ensures
            r.phase == Phase::Idle,
    {
        Responder { phase: Phase::Idle }
    }

    /// Whether the request has ended, normally or not.
    pub fn is_done(&self) -> (r: bool)
        ensures
            r == is_final(self.phase),
    {
        self.phase == Phase::Completed || self.phase == Phase::Aborted
    }

    /// Takes one event and says what to do about it. A fragment is encoded
    /// and sent as soon as it arrives; the terminal marker ends the stream;
    /// a lost client or a failure ends it early. Both endings ask for the
    /// token to be released.
    pub fn step(&mut self, e: ResponderEvent) -> (r: ResponderAction)
        ensures
            final(self).phase == next_phase(old(self).phase, e),
            action_bytes(r) == emitted(old(self).phase, e),
            r is Emit <==> (old(self).phase == Phase::Streaming && e matches ResponderEvent::Received(
                Outbound::Fragment(_),
            )),
            r is Finish <==> (old(self).phase == Phase::Streaming && e matches ResponderEvent::Received(
                Outbound::Terminal,
            )),
            r is Abort <==> (!is_final(old(self).phase) && (e is Disconnected || e is Failed)),
    {
        if self.phase == Phase::Completed || self.phase == Phase::Aborted {
            return ResponderAction::Wait;
        }
        match e {
            ResponderEvent::Disconnected | ResponderEvent::Failed => {
                self.phase = Phase::Aborted;
                ResponderAction::Abort
            },
            ResponderEvent::PromptAccepted => {
                if self.phase == Phase::Idle {
                    self.phase = Phase::PromptQueued;
                }
                ResponderAction::Wait
            },
            ResponderEvent::GateRequested => {
                if self.phase == Phase::PromptQueued {
                    self.phase = Phase::AwaitingGate;
                }
                ResponderAction::Wait
            },
            ResponderEvent::GateGranted => {
                if self.phase == Phase::AwaitingGate {
                    self.phase = Phase::Streaming;
                }
                ResponderAction::Wait
            },
            ResponderEvent::Received(Outbound::Terminal) => {
                if self.phase == Phase::Streaming {
                    self.phase = Phase::Completed;
                    ResponderAction::Finish
                } else {
                    ResponderAction::Wait
                }
            },
            ResponderEvent::Received(Outbound::Fragment(s)) => {
                if self.phase == Phase::Streaming {
                    ResponderAction::Emit(s.as_str().as_bytes_vec())
                } else {
                    ResponderAction::Wait
                }
            },
        }
    }
}

/// Running two sequences of events one after the other is running their
/// concatenation.
pub proof fn lemma_run_append(p: Phase, a: Seq<ResponderEvent>, b: Seq<ResponderEvent>)
    ensures
        run_phase(p, a + b) == run_phase(run_phase(p, a), b),
        run_bytes(p, a + b) == run_bytes(p, a) + run_bytes(run_phase(p, a), b),
    decreases b.len(),
{
    if b.len() == 0 {
        assert(a + b =~= a);
    } else {
        lemma_run_append(p, a, b.drop_last());
        assert((a + b).drop_last() =~= a + b.drop_last());
        assert((a + b).last() == b.last());
        assert(run_bytes(p, a + b) =~= run_bytes(p, a) + run_bytes(run_phase(p, a), b));
    }
}

/// Once a request has ended, nothing more is sent and its phase stays.
pub proof fn lemma_final_is_silent(p: Phase, es: Seq<ResponderEvent>)
    requires
        is_final(p),
    ensures
        run_phase(p, es) == p,
        run_bytes(p, es) == Seq::<u8>::empty(),
    decreases es.len(),
{
    if es.len() > 0 {
        lemma_final_is_silent(p, es.drop_last());
        assert(run_bytes(p, es) =~= Seq::<u8>::empty());
    }
}

/// While streaming, fragments are sent one after the other as they come.
pub proof fn lemma_stream_fragments(frags: Seq<String>)
    ensures
        run_phase(Phase::Streaming, received_fragments(frags)) == Phase::Streaming,
        run_bytes(Phase::Streaming, received_fragments(frags)) == concat_bytes(frags),
    decreases frags.len(),
{
    if frags.len() > 0 {
        lemma_stream_fragments(frags.drop_last());
        assert(received_fragments(frags).drop_last() =~= received_fragments(frags.drop_last()));
    }
}

/// Order and completeness of a stream: a token holder that receives a
/// generation's fragments and then the terminal marker sends the client
/// exactly the fragments' bytes in the order produced, with no gap and no
/// repetition, and then its response ends; whatever comes afterwards sends
/// nothing more.
pub proof fn lemma_stream_exact(frags: Seq<String>, after: Seq<ResponderEvent>)
    ensures
        run_bytes(Phase::Streaming, generation_events(frags) + after) == concat_bytes(frags),
        run_phase(Phase::Streaming, generation_events(frags)) == Phase::Completed,
        run_phase(Phase::Streaming, generation_events(frags) + after) == Phase::Completed,
{
    let g = generation_events(frags);
    lemma_stream_fragments(frags);
    assert(g.drop_last() =~= received_fragments(frags));
    assert(run_bytes(Phase::Streaming, g) =~= concat_bytes(frags));
    lemma_run_append(Phase::Streaming, g, after);
    lemma_final_is_silent(Phase::Completed, after);
    assert(run_bytes(Phase::Streaming, g + after) =~= concat_bytes(frags));
}

} // verus!
