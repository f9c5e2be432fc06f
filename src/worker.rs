//! The generation worker's decisions. The worker's loop runs on its own
//! thread: it takes a prompt, drives the engine, and pushes what the engine
//! produces onto the outbound queue, each step as this machine directs.
use vstd::prelude::*;
use crate::message::Outbound;

verus! {

#[derive(PartialEq, Eq, Structural, Clone, Copy)]
pub enum WorkerState {
    /// Waiting for the next prompt.
    Idle,
    /// The engine is working on a prompt.
    Generating,
}

/// What the worker observed.
pub enum EngineEvent {
    /// A prompt was taken off the inbound queue.
    PromptTaken(String),
    /// The engine produced a piece of text.
    Produced(String),
    /// The engine finished the generation.
    Finished,
    /// The engine gave up on the generation.
    Failed,
}

/// What the worker must do next.
pub enum WorkerAction {
    /// Start the engine afresh on this prompt, with no memory of earlier ones.
    StartEngine(String),
    /// Push this item onto the outbound queue, waiting while it is full.
    Push(Outbound),
    /// Nothing to do.
    Nothing,
}

/// The worker's state after one observation.
pub open spec fn worker_next(s: WorkerState, e: EngineEvent) -> WorkerState {
    match e {
        EngineEvent::PromptTaken(_) => if s == WorkerState::Idle {
            WorkerState::Generating
        } else {
            s
        },
        EngineEvent::Produced(_) => s,
        EngineEvent::Finished | EngineEvent::Failed => WorkerState::Idle,
    }
}

/// The items a step pushes onto the outbound queue.
pub open spec fn worker_output(s: WorkerState, e: EngineEvent) -> Seq<Outbound> {
    if s == WorkerState::Generating {
        match e {
            EngineEvent::Produced(f) => seq![Outbound::Fragment(f)],
            EngineEvent::Finished | EngineEvent::Failed => seq![Outbound::Terminal],
            EngineEvent::PromptTaken(_) => Seq::empty(),
        }
    } else {
        Seq::empty()
    }
}

pub open spec fn pushed(a: WorkerAction) -> Seq<Outbound> {
    match a {
        WorkerAction::Push(o) => seq![o],
        _ => Seq::empty(),
    }
}

pub open spec fn worker_run_state(s: WorkerState, es: Seq<EngineEvent>) -> WorkerState
    decreases es.len(),
{
    if es.len() == 0 {
        s
    } else {
        worker_next(worker_run_state(s, es.drop_last()), es.last())
    }
}

pub open spec fn worker_run_output(s: WorkerState, es: Seq<EngineEvent>) -> Seq<Outbound>
    decreases es.len(),
{
    if es.len() == 0 {
        Seq::empty()
    } else {
        worker_run_output(s, es.drop_last()) + worker_output(
            worker_run_state(s, es.drop_last()),
            es.last(),
        )
    }
}

pub open spec fn produced_events(frags: Seq<String>) -> Seq<EngineEvent> {
    frags.map_values(|f: String| EngineEvent::Produced(f))
}

pub open spec fn fragment_items(frags: Seq<String>) -> Seq<Outbound> {
    frags.map_values(|f: String| Outbound::Fragment(f))
}

pub struct Worker {
    pub state: WorkerState,
}

impl Worker {
    pub fn new() -> (r: Self)
        ensures
            r.state == WorkerState::Idle,
    {
        Worker { state: WorkerState::Idle }
    }

    /// Whether the worker may take the next prompt.
    pub fn is_idle(&self) -> (r: bool)
        ensures
            r == (self.state == WorkerState::Idle),
    {
        self.state == WorkerState::Idle
    }

    /// Takes one observation and says what to do. Every fragment is pushed as
    /// it comes; the end of a generation, whether the engine finished or
    /// failed, pushes the terminal marker, so no client waits forever. The
    /// worker takes a prompt only while idle; one offered mid-generation is
    /// refused with `Nothing`, and the generation under way goes on.
    pub fn step(&mut self, e: EngineEvent) -> (r: WorkerAction)
        ensures
            final(self).state == worker_next(old(self).state, e),
            pushed(r) == worker_output(old(self).state, e),
            r is StartEngine <==> (e is PromptTaken && old(self).state == WorkerState::Idle),
            old(self).state == WorkerState::Idle ==> (e matches EngineEvent::PromptTaken(p) ==> r
                == WorkerAction::StartEngine(p)),
    {
        match e {
            EngineEvent::PromptTaken(p) => {
                if self.state == WorkerState::Idle {
                    self.state = WorkerState::Generating;
                    WorkerAction::StartEngine(p)
                } else {
                    WorkerAction::Nothing
                }
            },
            EngineEvent::Produced(f) => {
                if self.state == WorkerState::Generating {
                    WorkerAction::Push(Outbound::Fragment(f))
                } else {
                    WorkerAction::Nothing
                }
            },
            EngineEvent::Finished | EngineEvent::Failed => {
                let was_generating = self.state == WorkerState::Generating;
                self.state = WorkerState::Idle;
                if was_generating {
                    WorkerAction::Push(Outbound::Terminal)
                } else {
                    WorkerAction::Nothing
                }
            },
        }
    }
}

pub open spec fn generation_input(p: String, frags: Seq<String>, failed: bool) -> Seq<EngineEvent> {
    seq![EngineEvent::PromptTaken(p)] + produced_events(frags) + seq![
        if failed {
            EngineEvent::Failed
        } else {
            EngineEvent::Finished
        },
    ]
}

/// While generating, each produced fragment is pushed as it comes.
pub proof fn lemma_worker_fragments(p: String, frags: Seq<String>)
    ensures
        worker_run_state(WorkerState::Idle, seq![EngineEvent::PromptTaken(p)] + produced_events(frags))
            == WorkerState::Generating,
        worker_run_output(WorkerState::Idle, seq![EngineEvent::PromptTaken(p)] + produced_events(frags))
            == fragment_items(frags),
    decreases frags.len(),
{
    let es = seq![EngineEvent::PromptTaken(p)] + produced_events(frags);
    if frags.len() == 0 {
        assert(es =~= seq![EngineEvent::PromptTaken(p)]);
        assert(es.drop_last() =~= Seq::<EngineEvent>::empty());
        assert(es.last() == EngineEvent::PromptTaken(p));
        assert(worker_run_output(WorkerState::Idle, es.drop_last()) =~= Seq::<Outbound>::empty());
        assert(worker_output(WorkerState::Idle, EngineEvent::PromptTaken(p)) =~= Seq::<Outbound>::empty());
        assert(worker_run_output(WorkerState::Idle, es) =~= fragment_items(frags));
    } else {
        lemma_worker_fragments(p, frags.drop_last());
        assert(es.drop_last() =~= seq![EngineEvent::PromptTaken(p)] + produced_events(
            frags.drop_last(),
        ));
        assert(fragment_items(frags) =~= fragment_items(frags.drop_last()).push(
            Outbound::Fragment(frags.last()),
        ));
        assert(worker_run_output(WorkerState::Idle, es) =~= fragment_items(frags));
    }
}

/// One generation from the worker's side: the prompt starts the engine,
/// each fragment is pushed in the order produced, and the end of the
/// generation pushes exactly one terminal marker, last, whether the engine
/// finished or failed. The worker is then idle, and the next prompt it takes
/// starts a new generation.
pub proof fn lemma_worker_generation(p: String, frags: Seq<String>, failed: bool, q: String)
    ensures
        worker_run_output(WorkerState::Idle, generation_input(p, frags, failed)) == fragment_items(
            frags,
        ).push(Outbound::Terminal),
        worker_run_state(WorkerState::Idle, generation_input(p, frags, failed)) == WorkerState::Idle,
        worker_next(
            worker_run_state(WorkerState::Idle, generation_input(p, frags, failed)),
            EngineEvent::PromptTaken(q),
        ) == WorkerState::Generating,
{
    let es = generation_input(p, frags, failed);
    lemma_worker_fragments(p, frags);
    assert(es.drop_last() =~= seq![EngineEvent::PromptTaken(p)] + produced_events(frags));
    assert(worker_run_output(WorkerState::Idle, es) =~= fragment_items(frags).push(
        Outbound::Terminal,
    ));
}

} // verus!
