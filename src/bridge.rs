//! How the worker's output reaches a client through the outbound queue.
use vstd::prelude::*;
use crate::message::Outbound;
use crate::responder::{concat_bytes, generation_events, lemma_stream_exact, run_bytes, run_phase, Phase, ResponderEvent};
use crate::worker::{generation_input, lemma_worker_generation, worker_run_output, WorkerState};

verus! {

/// The events a token holder sees when it takes `items` off the outbound
/// queue, in queue order.
pub open spec fn as_received(items: Seq<Outbound>) -> Seq<ResponderEvent> {
    items.map_values(|o: Outbound| ResponderEvent::Received(o))
}

/// From engine to client: whatever the engine produces for one prompt, and
/// whether it finishes or fails, the client holding the token is sent exactly
/// the fragments' bytes in the order produced and its stream then ends. A
/// failed generation thus never leaves its client waiting.
pub proof fn lemma_generation_reaches_client(
    p: String,
    frags: Seq<String>,
    failed: bool,
    after: Seq<ResponderEvent>,
)
    ensures
        run_phase(
            Phase::Streaming,
            as_received(worker_run_output(WorkerState::Idle, generation_input(p, frags, failed))),
        ) == Phase::Completed,
        run_bytes(
            Phase::Streaming,
            as_received(worker_run_output(WorkerState::Idle, generation_input(p, frags, failed)))
                + after,
        ) == concat_bytes(frags),
{
    lemma_worker_generation(p, frags, failed, p);
    let items = worker_run_output(WorkerState::Idle, generation_input(p, frags, failed));
    assert(as_received(items) =~= generation_events(frags));
    lemma_stream_exact(frags, after);
}

} // verus!
