use vstd::prelude::*;

verus! {

/// Why bootstrapping stopped before any task was started.
#[derive(Debug, Clone, Copy, PartialEq, Eq, Structural)]
pub enum BootstrapError {
    /// No chain context could be derived from the network.
    Context,
    /// The beacon node's genesis details could not be fetched.
    BeaconNode,
}

/// Where the bootstrap sequence stands.
#[derive(Debug, Clone, Copy, PartialEq, Eq, Structural)]
pub enum Stage {
    DerivingContext,
    FetchingGenesis,
    InitializingRelay,
    SpawningServer,
    SpawningSlotLoop,
    Running,
    Failed(BootstrapError),
}

/// What the outside work reports back to the bootstrap sequence.
#[derive(Debug, Clone, Copy)]
pub enum Event {
    ContextDerived,
    ContextFailed,
    GenesisFetched([u8; 32]),
    GenesisFailed,
    RelayInitialized,
    ServerSpawned,
    SlotLoopSpawned,
}

/// What the bootstrap sequence asks to be done next.
#[derive(Debug, Clone, Copy)]
pub enum Action {
    DeriveContext,
    FetchGenesis,
    /// Build the relay from this genesis validators root and run its setup.
    InitializeRelay([u8; 32]),
    SpawnServer,
    SpawnSlotLoop,
    /// Both tasks run: hand out the combined handle.
    Finish,
    /// Stop with this error; nothing has been started.
    Fail(BootstrapError),
    /// The event does not belong to the current stage.
    Ignore,
}

impl Action {
    pub open spec fn starts_task(self) -> bool {
        self matches Action::SpawnServer || self matches Action::SpawnSlotLoop
    }
}

/// The bootstrap sequence of the service: derive a chain context unless one
/// was supplied, fetch the genesis details, initialize the relay, then start
/// the API server and the slot loop, or fail before either starts.
#[derive(Debug, Clone, Copy, PartialEq, Eq, Structural)]
pub struct Bootstrap {
    pub stage: Stage,
}

pub open spec fn start_spec(context_supplied: bool) -> (Stage, Action) {
    if context_supplied {
        (Stage::FetchingGenesis, Action::FetchGenesis)
    } else {
        (Stage::DerivingContext, Action::DeriveContext)
    }
}

pub open spec fn next(stage: Stage, event: Event) -> (Stage, Action) {
    match (stage, event) {
        (Stage::DerivingContext, Event::ContextDerived) => (
            Stage::FetchingGenesis,
            Action::FetchGenesis,
        ),
        (Stage::DerivingContext, Event::ContextFailed) => (
            Stage::Failed(BootstrapError::Context),
            Action::Fail(BootstrapError::Context),
        ),
        (Stage::FetchingGenesis, Event::GenesisFetched(root)) => (
            Stage::InitializingRelay,
            Action::InitializeRelay(root),
        ),
        (Stage::FetchingGenesis, Event::GenesisFailed) => (
            Stage::Failed(BootstrapError::BeaconNode),
            Action::Fail(BootstrapError::BeaconNode),
        ),
        (Stage::InitializingRelay, Event::RelayInitialized) => (
            Stage::SpawningServer,
            Action::SpawnServer,
        ),
        (Stage::SpawningServer, Event::ServerSpawned) => (
            Stage::SpawningSlotLoop,
            Action::SpawnSlotLoop,
        ),
        (Stage::SpawningSlotLoop, Event::SlotLoopSpawned) => (Stage::Running, Action::Finish),
        _ => (stage, Action::Ignore),
    }
}

/// The actions that a sequence of events draws from a stage.
pub open spec fn run(stage: Stage, events: Seq<Event>) -> Seq<Action>
    decreases events.len(),
{
    if events.len() == 0 {
        seq![]
    } else {
        let (s, a) = next(stage, events[0]);
        seq![a] + run(s, events.drop_first())
    }
}

/// All the actions of a bootstrap: the first, then those the events draw.
pub open spec fn trace(context_supplied: bool, events: Seq<Event>) -> Seq<Action> {
    let (s, a) = start_spec(context_supplied);
    seq![a] + run(s, events)
}

impl Bootstrap {
    pub fn start(context_supplied: bool) -> (r: (Bootstrap, Action))
        ensures
            (r.0.stage, r.1) == start_spec(context_supplied),
    {
        if context_supplied {
            (Bootstrap { stage: Stage::FetchingGenesis }, Action::FetchGenesis)
        } else {
            (Bootstrap { stage: Stage::DerivingContext }, Action::DeriveContext)
        }
    }

    pub fn step(&mut self, event: Event) -> (a: Action)
        ensures
            (final(self).stage, a) == next(old(self).stage, event),
    {
        let (stage, action) = match (self.stage, event) {
            (Stage::DerivingContext, Event::ContextDerived) => (
                Stage::FetchingGenesis,
                Action::FetchGenesis,
            ),
            (Stage::DerivingContext, Event::ContextFailed) => (
                Stage::Failed(BootstrapError::Context),
                Action::Fail(BootstrapError::Context),
            ),
            (Stage::FetchingGenesis, Event::GenesisFetched(root)) => (
                Stage::InitializingRelay,
                Action::InitializeRelay(root),
            ),
            (Stage::FetchingGenesis, Event::GenesisFailed) => (
                Stage::Failed(BootstrapError::BeaconNode),
                Action::Fail(BootstrapError::BeaconNode),
            ),
            (Stage::InitializingRelay, Event::RelayInitialized) => (
                Stage::SpawningServer,
                Action::SpawnServer,
            ),
            (Stage::SpawningServer, Event::ServerSpawned) => (
                Stage::SpawningSlotLoop,
                Action::SpawnSlotLoop,
            ),
            (Stage::SpawningSlotLoop, Event::SlotLoopSpawned) => (Stage::Running, Action::Finish),
            (stage, _) => (stage, Action::Ignore),
        };
        self.stage = stage;
        action
    }
}

/// How far a stage lies along the sequence; a failure lies past its end.
pub open spec fn rank(stage: Stage) -> int {
    match stage {
        Stage::DerivingContext => 0,
        Stage::FetchingGenesis => 1,
        Stage::InitializingRelay => 2,
        Stage::SpawningServer => 3,
        Stage::SpawningSlotLoop => 4,
        Stage::Running => 5,
        Stage::Failed(_) => 6,
    }
}

pub open spec fn has_fail(acts: Seq<Action>) -> bool {
    exists|i: int| #![trigger acts[i]]
        0 <= i < acts.len() && acts[i] matches Action::Fail(_)
}

pub open spec fn has_finish(acts: Seq<Action>) -> bool {
    exists|i: int| #![trigger acts[i]]
        0 <= i < acts.len() && acts[i] matches Action::Finish
}

pub open spec fn starts_any_task(acts: Seq<Action>) -> bool {
    exists|i: int| #![trigger acts[i]]
        0 <= i < acts.len() && acts[i].starts_task()
}

pub open spec fn has_spawn_server(acts: Seq<Action>) -> bool {
    exists|i: int| #![trigger acts[i]]
        0 <= i < acts.len() && acts[i] matches Action::SpawnServer
}

pub open spec fn has_spawn_slot_loop(acts: Seq<Action>) -> bool {
    exists|i: int| #![trigger acts[i]]
        0 <= i < acts.len() && acts[i] matches Action::SpawnSlotLoop
}

proof fn lemma_run_len(stage: Stage, events: Seq<Event>)
    ensures
        run(stage, events).len() == events.len(),
    decreases events.len(),
{
    if events.len() > 0 {
        let (s, a) = next(stage, events[0]);
        lemma_run_len(s, events.drop_first());
    }
}

/// Once running or failed, every later event is ignored.
proof fn lemma_settled(stage: Stage, events: Seq<Event>)
    requires
        rank(stage) >= 5,
    ensures
        forall|i: int|
            #![trigger run(stage, events)[i]]
            0 <= i < run(stage, events).len() ==> run(stage, events)[i] matches Action::Ignore,
    decreases events.len(),
{
    if events.len() > 0 {
        let (s, a) = next(stage, events[0]);
        lemma_settled(s, events.drop_first());
        let rest = run(s, events.drop_first());
        assert(run(stage, events) == seq![a] + rest);
    }
}

proof fn lemma_fail_before_tasks(stage: Stage, events: Seq<Event>)
    ensures
        has_fail(run(stage, events)) ==> rank(stage) <= 1 && !starts_any_task(run(stage, events)),
    decreases events.len(),
{
    if events.len() > 0 {
        let (s, a) = next(stage, events[0]);
        let rest = run(s, events.drop_first());
        let acts = run(stage, events);
        assert(acts == seq![a] + rest);
        lemma_fail_before_tasks(s, events.drop_first());
        if has_fail(acts) {
            if let Action::Fail(_) = a {
                lemma_settled(s, events.drop_first());
                assert forall|i: int| 0 <= i < acts.len() implies !acts[i].starts_task() by {
                    if i > 0 {
                        assert(acts[i] == rest[i - 1]);
                    }
                }
            } else {
                let i = choose|i: int|
                    #![trigger acts[i]]
                    0 <= i < acts.len() && acts[i] matches Action::Fail(_);
                assert(rest[i - 1] == acts[i]);
                assert(has_fail(rest));
                assert forall|j: int| 0 <= j < acts.len() implies !acts[j].starts_task() by {
                    if j > 0 {
                        assert(acts[j] == rest[j - 1]);
                    }
                }
            }
        }
    }
}

proof fn lemma_finish_after_tasks(stage: Stage, events: Seq<Event>)
    ensures
        has_finish(run(stage, events)) ==> (rank(stage) <= 2 ==> has_spawn_server(
            run(stage, events),
        )) && (rank(stage) <= 3 ==> has_spawn_slot_loop(run(stage, events))),
    decreases events.len(),
{
    if events.len() > 0 {
        let (s, a) = next(stage, events[0]);
        let rest = run(s, events.drop_first());
        let acts = run(stage, events);
        assert(acts == seq![a] + rest);
        lemma_finish_after_tasks(s, events.drop_first());
        if has_finish(acts) && !(a matches Action::Finish) {
            let i = choose|i: int|
                #![trigger acts[i]]
                0 <= i < acts.len() && acts[i] matches Action::Finish;
            assert(rest[i - 1] == acts[i]);
            assert(has_finish(rest));
            if rank(s) >= 5 {
                lemma_settled(s, events.drop_first());
                assert(false);
            }
            if has_spawn_server(rest) {
                let j = choose|j: int|
                    #![trigger rest[j]]
                    0 <= j < rest.len() && rest[j] matches Action::SpawnServer;
                assert(acts[j + 1] == rest[j]);
            }
            if has_spawn_slot_loop(rest) {
                let j = choose|j: int|
                    #![trigger rest[j]]
                    0 <= j < rest.len() && rest[j] matches Action::SpawnSlotLoop;
                assert(acts[j + 1] == rest[j]);
            }
            assert(acts[0] == a);
        }
    }
}

/// Bootstrapping is all or nothing. Whatever the events, a bootstrap that
/// fails (a context that cannot be derived, genesis details that cannot be
/// fetched) starts no task, before the failure or after it; and the combined
/// handle is handed out only after both the API server and the slot loop
/// were started.
pub proof fn lemma_bootstrap_atomic(context_supplied: bool, events: Seq<Event>)
    ensures
        has_fail(trace(context_supplied, events)) ==> !starts_any_task(
            trace(context_supplied, events),
        ),
        has_finish(trace(context_supplied, events)) ==> has_spawn_server(
            trace(context_supplied, events),
        ) && has_spawn_slot_loop(trace(context_supplied, events)),
{
    let (s, a) = start_spec(context_supplied);
    let rest = run(s, events);
    let acts = trace(context_supplied, events);
    assert(acts == seq![a] + rest);
    lemma_fail_before_tasks(s, events);
    lemma_finish_after_tasks(s, events);
    if has_fail(acts) {
        let i = choose|i: int|
            #![trigger acts[i]]
            0 <= i < acts.len() && acts[i] matches Action::Fail(_);
        assert(rest[i - 1] == acts[i]);
        assert(has_fail(rest));
        assert forall|j: int| 0 <= j < acts.len() implies !acts[j].starts_task() by {
            if j > 0 {
                assert(acts[j] == rest[j - 1]);
            }
        }
    }
    if has_finish(acts) {
        let i = choose|i: int|
            #![trigger acts[i]]
            0 <= i < acts.len() && acts[i] matches Action::Finish;
        assert(rest[i - 1] == acts[i]);
        assert(has_finish(rest));
        let j = choose|j: int|
            #![trigger rest[j]]
            0 <= j < rest.len() && rest[j] matches Action::SpawnServer;
        assert(acts[j + 1] == rest[j]);
        let k = choose|k: int|
            #![trigger rest[k]]
            0 <= k < rest.len() && rest[k] matches Action::SpawnSlotLoop;
        assert(acts[k + 1] == rest[k]);
    }
}

} // verus!
