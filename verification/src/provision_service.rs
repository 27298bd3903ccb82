//! The service that carries plans out: what it remembers, and what it does
//! next.
//!
//! A run goes on after each event to the next command that is not done yet. It
//! ends when the network is not ready, when a command fails, when it is
//! cancelled, or when everything is done.

use crate::execution::{ExecutionRequest, JobState};
use crate::graph::contains_text;
use crate::path::{is_absolute, join_path, joined, joins_have_one_separator};
use crate::provision::{
    operation_views, NetworkState, OperationView, PlanView, ProvisionOperation, ProvisionPlan,
    ProvisionRequest,
};
use crate::resource::MachineProfile;
use crate::text::{
    byte_len, copy_texts, debug_form, debug_text, decimal, decimal_of, decimals_are_digits,
    decimals_say_their_number, exit_code_of, exit_code_text, is_digit, join, optional_text, same,
    texts, texts_divide_at_the_first_separator,
};
use vstd::prelude::*;
use vstd::utf8::encode_utf8;

verus! {

/// Largest status document.
pub const MAX_STATUS_BYTES: usize = 65_536;

/// What the service remembers.
#[derive(Clone, Debug, PartialEq, Eq)]
pub struct PersistedState {
    /// The last request.
    pub request_id: Option<String>,
    /// Where it stands.
    pub phase: String,
    /// Whether the network was ready.
    pub network: NetworkState,
    /// Profile of the request.
    pub profile: Option<MachineProfile>,
    /// Bundles of the request.
    pub selected_bundles: Vec<String>,
    /// Bundles that are done.
    pub completed_bundles: Vec<String>,
    /// Bundle that is being worked on.
    pub current_bundle: Option<String>,
    /// What went wrong.
    pub last_error: Option<String>,
}

/// What the service remembers, in mathematical terms.
#[verifier::ext_equal]
pub struct StateView {
    /// The last request.
    pub request_id: Option<Seq<char>>,
    /// Where it stands.
    pub phase: Seq<char>,
    /// Whether the network was ready.
    pub network: NetworkState,
    /// Profile of the request.
    pub profile: Option<MachineProfile>,
    /// Bundles of the request.
    pub selected_bundles: Seq<Seq<char>>,
    /// Bundles that are done.
    pub completed_bundles: Seq<Seq<char>>,
    /// Bundle that is being worked on.
    pub current_bundle: Option<Seq<char>>,
    /// What went wrong.
    pub last_error: Option<Seq<char>>,
}

impl View for PersistedState {
    type V = StateView;

    open spec fn view(&self) -> StateView {
        StateView {
            request_id: optional_text(self.request_id),
            phase: self.phase@,
            network: self.network,
            profile: self.profile,
            selected_bundles: texts(self.selected_bundles@),
            completed_bundles: texts(self.completed_bundles@),
            current_bundle: optional_text(self.current_bundle),
            last_error: optional_text(self.last_error),
        }
    }
}

/// The state before anything was asked for.
pub open spec fn fresh_state() -> StateView {
    StateView {
        request_id: None,
        phase: "idle"@,
        network: NetworkState::Unknown,
        profile: None,
        selected_bundles: Seq::empty(),
        completed_bundles: Seq::empty(),
        current_bundle: None,
        last_error: None,
    }
}

impl Default for PersistedState {
    fn default() -> (state: PersistedState)
        ensures
            state@ == fresh_state(),
    {
        let state = PersistedState {
            request_id: None,
            phase: "idle".to_owned(),
            network: NetworkState::Unknown,
            profile: None,
            selected_bundles: Vec::new(),
            completed_bundles: Vec::new(),
            current_bundle: None,
            last_error: None,
        };
        assert(state@ =~= fresh_state());
        state
    }
}

/// The service: what it remembers and the request that it works on.
#[derive(Clone, Debug, PartialEq, Eq)]
pub struct Runtime {
    /// What is remembered.
    pub state: PersistedState,
    /// The request that is worked on.
    pub active: Option<String>,
}

/// The service in mathematical terms.
#[verifier::ext_equal]
pub struct RuntimeView {
    /// What is remembered.
    pub state: StateView,
    /// The request that is worked on.
    pub active: Option<Seq<char>>,
}

impl View for Runtime {
    type V = RuntimeView;

    open spec fn view(&self) -> RuntimeView {
        RuntimeView { state: self.state@, active: optional_text(self.active) }
    }
}

/// A stored state in mathematical terms.
pub open spec fn stored_state(stored: Option<PersistedState>) -> Option<StateView> {
    match stored {
        Some(state) => Some(state@),
        None => None,
    }
}

/// The service after it was started. A request that was being worked on is
/// interrupted.
pub open spec fn loaded(stored: Option<StateView>) -> RuntimeView {
    let state = match stored {
        Some(state) => if state.phase == "running"@ || state.phase == "waiting-network"@ {
            StateView {
                phase: "interrupted"@,
                current_bundle: None,
                last_error: Some("provisioning service restarted; press Start to resume"@),
                ..state
            }
        } else {
            state
        },
        None => fresh_state(),
    };
    RuntimeView { state, active: None }
}

/// The service after it accepted a request. What was done for the same bundles
/// before stays done.
pub open spec fn started(
    runtime: RuntimeView,
    profile: MachineProfile,
    bundles: Seq<Seq<char>>,
    id: Seq<char>,
) -> RuntimeView {
    RuntimeView {
        state: StateView {
            request_id: Some(id),
            phase: "waiting-network"@,
            network: NetworkState::Unknown,
            profile: Some(profile),
            selected_bundles: bundles,
            completed_bundles: if runtime.state.selected_bundles == bundles {
                runtime.state.completed_bundles
            } else {
                Seq::empty()
            },
            current_bundle: None,
            last_error: None,
        },
        active: Some(id),
    }
}

/// How a command of a plan went.
#[derive(Clone, Debug, PartialEq, Eq)]
pub enum OperationOutcome {
    /// It ran.
    Ran {
        /// How it ended.
        state: JobState,
        /// Its exit code, where it has one.
        exit_code: Option<i32>,
    },
    /// It could not be run.
    NotRun(String),
}

/// What happened in a run.
#[derive(Clone, Debug, PartialEq, Eq)]
pub enum RunEvent {
    /// It began.
    Started,
    /// The network was looked at.
    Network(NetworkState),
    /// A command came to its end.
    Finished {
        /// Its place in the plan.
        index: usize,
        /// How it went.
        outcome: OperationOutcome,
    },
}

/// What a run does next.
#[derive(Clone, Copy, Debug, PartialEq, Eq, Structural)]
pub enum RunDecision {
    /// Look at the network.
    ProbeNetwork,
    /// Run the command at this place of the plan.
    Execute(usize),
    /// Nothing: it is over.
    Ended,
}

/// The place of the first command from a place on that is not done yet.
pub open spec fn first_open(
    operations: Seq<OperationView>,
    completed: Seq<Seq<char>>,
    from: int,
) -> Option<int>
    decreases operations.len() - from,
{
    if from < 0 || from >= operations.len() {
        None
    } else if completed.contains(operations[from].bundle_id) {
        first_open(operations, completed, from + 1)
    } else {
        Some(from)
    }
}

/// The service with a request ended, if it is the one that is worked on.
pub open spec fn cleared(runtime: RuntimeView, id: Seq<char>) -> RuntimeView {
    if runtime.active == Some(id) {
        RuntimeView { active: None, ..runtime }
    } else {
        runtime
    }
}

/// The service after a run came to an end.
pub open spec fn ended(
    runtime: RuntimeView,
    id: Seq<char>,
    phase: Seq<char>,
    error: Option<Seq<char>>,
) -> RuntimeView {
    cleared(
        RuntimeView {
            state: StateView { phase, current_bundle: None, last_error: error, ..runtime.state },
            ..runtime
        },
        id,
    )
}

/// What follows once the commands before a place are settled.
pub open spec fn proceed(
    runtime: RuntimeView,
    id: Seq<char>,
    plan: PlanView,
    from: int,
    cancelled: bool,
) -> (RuntimeView, RunDecision) {
    match first_open(plan.operations, runtime.state.completed_bundles, from) {
        Some(at) => if cancelled {
            (ended(runtime, id, "cancelled"@, runtime.state.last_error), RunDecision::Ended)
        } else {
            (
                RuntimeView {
                    state: StateView {
                        current_bundle: Some(plan.operations[at].bundle_id),
                        last_error: None,
                        ..runtime.state
                    },
                    ..runtime
                },
                RunDecision::Execute(at as usize),
            )
        },
        None => (
            ended(
                runtime,
                id,
                if plan.external_provider_bundle_ids.len() == 0 {
                    "succeeded"@
                } else {
                    "external-provider-required"@
                },
                None,
            ),
            RunDecision::Ended,
        ),
    }
}

/// What follows an event of a run.
pub open spec fn run_step(
    runtime: RuntimeView,
    id: Seq<char>,
    plan: PlanView,
    event: RunEvent,
    cancelled: bool,
) -> (RuntimeView, RunDecision) {
    match event {
        RunEvent::Started => if plan.operations.len() == 0 {
            (ended(runtime, id, "external-provider-required"@, None), RunDecision::Ended)
        } else {
            (runtime, RunDecision::ProbeNetwork)
        },
        RunEvent::Network(network) => if network != NetworkState::Connected {
            (
                cleared(
                    RuntimeView {
                        state: StateView {
                            network,
                            phase: "waiting-network"@,
                            last_error: Some(
                                "connect Wi-Fi in NetworkManager, then press Start again"@,
                            ),
                            ..runtime.state
                        },
                        ..runtime
                    },
                    id,
                ),
                RunDecision::Ended,
            )
        } else {
            proceed(
                RuntimeView {
                    state: StateView {
                        network,
                        phase: "running"@,
                        last_error: None,
                        ..runtime.state
                    },
                    ..runtime
                },
                id,
                plan,
                0,
                cancelled,
            )
        },
        RunEvent::Finished { index, outcome } => {
            let bundle = plan.operations[index as int].bundle_id;
            match outcome {
                OperationOutcome::Ran { state, exit_code } => match state {
                    JobState::Succeeded => proceed(
                        RuntimeView {
                            state: StateView {
                                completed_bundles: runtime.state.completed_bundles.push(bundle),
                                current_bundle: None,
                                ..runtime.state
                            },
                            ..runtime
                        },
                        id,
                        plan,
                        index + 1,
                        cancelled,
                    ),
                    JobState::Cancelled => (
                        ended(runtime, id, "cancelled"@, runtime.state.last_error),
                        RunDecision::Ended,
                    ),
                    JobState::Failed => (
                        ended(
                            runtime,
                            id,
                            "failed"@,
                            Some(bundle + " failed with "@ + exit_code_of(exit_code)),
                        ),
                        RunDecision::Ended,
                    ),
                },
                OperationOutcome::NotRun(error) => (
                    ended(
                        runtime,
                        id,
                        "failed"@,
                        Some(bundle + " execution failed: "@ + error@),
                    ),
                    RunDecision::Ended,
                ),
            }
        },
    }
}

fn next_open(operations: &Vec<ProvisionOperation>, completed: &Vec<String>, from: usize) -> (at:
    Option<usize>)
    requires
        from <= operations@.len(),
    ensures
        match at {
            Some(place) => first_open(
                operation_views(operations@),
                texts(completed@),
                from as int,
            ) == Some(place as int) && from <= place < operations@.len(),
            None => first_open(operation_views(operations@), texts(completed@), from as int) is None,
        },
{
    let mut i: usize = from;
    let ghost all = operation_views(operations@);
    let ghost done = texts(completed@);
    while i < operations.len()
        invariant
            from <= i <= operations@.len(),
            all == operation_views(operations@),
            done == texts(completed@),
            first_open(all, done, from as int) == first_open(all, done, i as int),
        decreases operations.len() - i,
    {
        assert(all[i as int].bundle_id == operations@[i as int].bundle_id@);
        if !contains_text(completed, operations[i].bundle_id.as_str()) {
            return Some(i);
        }
        i = i + 1;
    }
    None
}

impl Runtime {
    /// Starts the service with what it remembered.
    pub fn load(stored: Option<PersistedState>) -> (runtime: Runtime)
        ensures
            runtime@ == loaded(stored_state(stored)),
    {
        let ghost kept = stored_state(stored);
        let state = match stored {
            Some(old_state) => {
                let mut state = old_state;
                if same(state.phase.as_str(), "running") || same(
                    state.phase.as_str(),
                    "waiting-network",
                ) {
                    state.phase = "interrupted".to_owned();
                    state.current_bundle = None;
                    state.last_error = Some(
                        "provisioning service restarted; press Start to resume".to_owned(),
                    );
                }
                state
            },
            None => PersistedState::default(),
        };
        let runtime = Runtime { state, active: None };
        assert(runtime@.state =~= loaded(kept).state);
        assert(runtime@ =~= loaded(kept));
        runtime
    }

    /// Accepts a request, unless another one is worked on.
    pub fn start(&mut self, request: &ProvisionRequest, plan: &ProvisionPlan, request_id: &str) -> (
    result: Result<String, String>)
        ensures
            match result {
                Ok(id) => old(self)@.active is None && id@ == request_id@ && final(self)@
                    == started(old(self)@, request.profile, plan@.bundle_ids, request_id@),
                Err(message) => old(self)@.active is Some && message@
                    == "another provisioning request is already running"@ && *final(self)
                    == *old(self),
            },
    {
        if self.active.is_some() {
            return Err("another provisioning request is already running".to_owned());
        }
        let ghost before = self@;
        let resumed = same_texts(&self.state.selected_bundles, &plan.bundle_ids);
        let completed = if resumed {
            copy_texts(&self.state.completed_bundles)
        } else {
            Vec::new()
        };
        self.state = PersistedState {
            request_id: Some(request_id.to_owned()),
            phase: "waiting-network".to_owned(),
            network: NetworkState::Unknown,
            profile: Some(request.profile),
            selected_bundles: copy_texts(&plan.bundle_ids),
            completed_bundles: completed,
            current_bundle: None,
            last_error: None,
        };
        self.active = Some(request_id.to_owned());
        proof {
            let after = started(before, request.profile, plan@.bundle_ids, request_id@);
            assert(self@.state.completed_bundles =~= after.state.completed_bundles);
            assert(self@.state =~= after.state);
            assert(self@ =~= after);
        }
        Ok(request_id.to_owned())
    }

    /// Forgets a request that came to its end.
    pub fn clear_active(&mut self, request_id: &str)
        ensures
            final(self)@ == cleared(old(self)@, request_id@),
            final(self).state == old(self).state,
    {
        let ghost before = self@;
        let matching = match &self.active {
            Some(active) => same(active.as_str(), request_id),
            None => false,
        };
        if matching {
            self.active = None;
        }
        assert(self@ =~= cleared(before, request_id@));
    }

    fn end(&mut self, request_id: &str, phase: &str, error: Option<String>)
        ensures
            final(self)@ == ended(old(self)@, request_id@, phase@, optional_text(error)),
    {
        let ghost before = self@;
        self.state.phase = phase.to_owned();
        self.state.current_bundle = None;
        self.state.last_error = error;
        proof {
            let noted = RuntimeView {
                state: StateView {
                    phase: phase@,
                    current_bundle: None,
                    last_error: optional_text(error),
                    ..before.state
                },
                ..before
            };
            assert(self@.state =~= noted.state);
            assert(self@ =~= noted);
        }
        self.clear_active(request_id);
    }

    fn go_on(
        &mut self,
        request_id: &str,
        plan: &ProvisionPlan,
        from: usize,
        cancelled: bool,
    ) -> (decision: RunDecision)
        requires
            from <= plan.operations@.len(),
        ensures
            (final(self)@, decision) == proceed(
                old(self)@,
                request_id@,
                plan@,
                from as int,
                cancelled,
            ),
    {
        let ghost before = self@;
        match next_open(&plan.operations, &self.state.completed_bundles, from) {
            Some(at) => {
                if cancelled {
                    let error = self.state.last_error.clone();
                    self.end(request_id, "cancelled", error);
                    RunDecision::Ended
                } else {
                    let bundle = plan.operations[at].bundle_id.clone();
                    assert(plan@.operations[at as int].bundle_id == bundle@);
                    self.state.current_bundle = Some(bundle);
                    self.state.last_error = None;
                    proof {
                        let after = proceed(before, request_id@, plan@, from as int, cancelled).0;
                        assert(self@.state =~= after.state);
                        assert(self@ =~= after);
                    }
                    RunDecision::Execute(at)
                }
            },
            None => {
                if plan.external_provider_bundle_ids.len() == 0 {
                    self.end(request_id, "succeeded", None);
                } else {
                    self.end(request_id, "external-provider-required", None);
                }
                RunDecision::Ended
            },
        }
    }

    /// Decides what follows an event of a run. `cancelled` says whether
    /// cancellation was asked for.
    pub fn run(
        &mut self,
        request_id: &str,
        plan: &ProvisionPlan,
        event: &RunEvent,
        cancelled: bool,
    ) -> (decision: RunDecision)
        requires
            event matches RunEvent::Finished { index, .. } ==> index < plan.operations@.len(),
        ensures
            (final(self)@, decision) == run_step(
                old(self)@,
                request_id@,
                plan@,
                *event,
                cancelled,
            ),
    {
        let ghost before = self@;
        match event {
            RunEvent::Started => {
                if plan.operations.len() == 0 {
                    self.end(request_id, "external-provider-required", None);
                    RunDecision::Ended
                } else {
                    RunDecision::ProbeNetwork
                }
            },
            RunEvent::Network(network) => {
                self.state.network = *network;
                if *network != NetworkState::Connected {
                    self.state.phase = "waiting-network".to_owned();
                    self.state.last_error = Some(
                        "connect Wi-Fi in NetworkManager, then press Start again".to_owned(),
                    );
                    proof {
                        let noted = RuntimeView {
                            state: StateView {
                                network: *network,
                                phase: "waiting-network"@,
                                last_error: Some(
                                    "connect Wi-Fi in NetworkManager, then press Start again"@,
                                ),
                                ..before.state
                            },
                            ..before
                        };
                        assert(self@.state =~= noted.state);
                        assert(self@ =~= noted);
                    }
                    self.clear_active(request_id);
                    RunDecision::Ended
                } else {
                    self.state.phase = "running".to_owned();
                    self.state.last_error = None;
                    proof {
                        let noted = RuntimeView {
                            state: StateView {
                                network: *network,
                                phase: "running"@,
                                last_error: None,
                                ..before.state
                            },
                            ..before
                        };
                        assert(self@.state =~= noted.state);
                        assert(self@ =~= noted);
                    }
                    self.go_on(request_id, plan, 0, cancelled)
                }
            },
            RunEvent::Finished { index, outcome } => {
                let count: usize = plan.operations.len();
                assert(*index < count);
                let bundle = plan.operations[*index].bundle_id.clone();
                assert(plan@.operations[*index as int].bundle_id == bundle@);
                match outcome {
                    OperationOutcome::Ran { state, exit_code } => match state {
                        JobState::Succeeded => {
                            self.state.completed_bundles.push(bundle);
                            self.state.current_bundle = None;
                            proof {
                                let noted = RuntimeView {
                                    state: StateView {
                                        completed_bundles: before.state.completed_bundles.push(
                                            bundle@,
                                        ),
                                        current_bundle: None,
                                        ..before.state
                                    },
                                    ..before
                                };
                                assert(self@.state.completed_bundles
                                    =~= noted.state.completed_bundles);
                                assert(self@.state =~= noted.state);
                                assert(self@ =~= noted);
                            }
                            self.go_on(request_id, plan, *index + 1, cancelled)
                        },
                        JobState::Cancelled => {
                            let error = self.state.last_error.clone();
                            self.end(request_id, "cancelled", error);
                            RunDecision::Ended
                        },
                        JobState::Failed => {
                            let mut error = join(bundle.as_str(), " failed with ");
                            error.append(exit_code_text(*exit_code).as_str());
                            self.end(request_id, "failed", Some(error));
                            RunDecision::Ended
                        },
                    },
                    OperationOutcome::NotRun(reason) => {
                        let mut error = join(bundle.as_str(), " execution failed: ");
                        error.append(reason.as_str());
                        self.end(request_id, "failed", Some(error));
                        RunDecision::Ended
                    },
                }
            },
        }
    }

    /// Whether a request may be cancelled: it has to be the one that is worked
    /// on.
    pub fn cancel(&self, request_id: &str) -> (result: Result<(), String>)
        ensures
            match result {
                Ok(_) => self@.active == Some(request_id@),
                Err(message) => match self@.active {
                    None => message@ == "no provisioning request is running"@,
                    Some(active) => active != request_id@ && message@
                        == "provisioning request ID does not match the active request"@,
                },
            },
    {
        match &self.active {
            None => Err("no provisioning request is running".to_owned()),
            Some(active) => if same(active.as_str(), request_id) {
                Ok(())
            } else {
                Err("provisioning request ID does not match the active request".to_owned())
            },
        }
    }
}

fn same_texts(left: &Vec<String>, right: &Vec<String>) -> (result: bool)
    ensures
        result == (texts(left@) == texts(right@)),
{
    let ghost a = texts(left@);
    let ghost b = texts(right@);
    if left.len() != right.len() {
        assert(a.len() != b.len());
        return false;
    }
    let mut i: usize = 0;
    while i < left.len()
        invariant
            i <= left@.len(),
            left@.len() == right@.len(),
            a == texts(left@),
            b == texts(right@),
            forall|k: int| 0 <= k < i ==> a[k] == b[k],
        decreases left.len() - i,
    {
        if !same(left[i].as_str(), right[i].as_str()) {
            assert(a[i as int] != b[i as int]);
            return false;
        }
        i = i + 1;
    }
    assert(a =~= b);
    true
}

proof fn lemma_first_open(operations: Seq<OperationView>, completed: Seq<Seq<char>>, from: int)
    requires
        from >= 0,
    ensures
        match first_open(operations, completed, from) {
            Some(at) => from <= at < operations.len() && !completed.contains(
                operations[at].bundle_id,
            ) && forall|k: int|
                from <= k < at ==> completed.contains((#[trigger] operations[k]).bundle_id),
            None => forall|k: int|
                from <= k < operations.len() ==> completed.contains(
                    (#[trigger] operations[k]).bundle_id,
                ),
        },
    decreases operations.len() - from,
{
    if from < operations.len() && completed.contains(operations[from].bundle_id) {
        lemma_first_open(operations, completed, from + 1);
    }
}

/// A command that is run belongs to a bundle that is not done yet, and that
/// bundle is shown as the one that is worked on.
pub proof fn runs_never_repeat_what_is_done(
    runtime: RuntimeView,
    id: Seq<char>,
    plan: PlanView,
    event: RunEvent,
    cancelled: bool,
)
    requires
        plan.operations.len() <= usize::MAX,
        event matches RunEvent::Finished { index, .. } ==> index < plan.operations.len(),
    ensures
        ({
            let (after, decision) = run_step(runtime, id, plan, event, cancelled);
            decision matches RunDecision::Execute(at) ==> {
                &&& at < plan.operations.len()
                &&& !after.state.completed_bundles.contains(plan.operations[at as int].bundle_id)
                &&& after.state.current_bundle == Some(plan.operations[at as int].bundle_id)
                &&& after.state.last_error is None
            }
        }),
{
    let done = match event {
        RunEvent::Finished { index, .. } => runtime.state.completed_bundles.push(
            plan.operations[index as int].bundle_id,
        ),
        _ => runtime.state.completed_bundles,
    };
    let from = match event {
        RunEvent::Finished { index, .. } => index + 1,
        _ => 0,
    };
    lemma_first_open(plan.operations, done, from);
}

/// A run that is over is not worked on any more.
pub proof fn ended_runs_are_cleared(
    runtime: RuntimeView,
    id: Seq<char>,
    plan: PlanView,
    event: RunEvent,
    cancelled: bool,
)
    requires
        runtime.active == Some(id),
    ensures
        ({
            let (after, decision) = run_step(runtime, id, plan, event, cancelled);
            after.active is None <==> decision == RunDecision::Ended
        }),
{
}

/// Nothing is run while the network is not ready.
pub proof fn nothing_runs_without_a_network(
    runtime: RuntimeView,
    id: Seq<char>,
    plan: PlanView,
    network: NetworkState,
    cancelled: bool,
)
    requires
        network != NetworkState::Connected,
    ensures
        run_step(runtime, id, plan, RunEvent::Network(network), cancelled).1 == RunDecision::Ended,
        run_step(runtime, id, plan, RunEvent::Started, cancelled).1 matches RunDecision::Execute(_)
            ==> false,
{
}

/// What is done stays done through a restart of the service and a new request
/// for the same bundles.
pub proof fn interrupted_work_is_resumed(
    stored: StateView,
    profile: MachineProfile,
    id: Seq<char>,
)
    ensures
        started(loaded(Some(stored)), profile, stored.selected_bundles, id).state.completed_bundles
            == stored.completed_bundles,
{
}

/// A run that succeeds has every command of its plan done.
pub proof fn success_means_that_everything_is_done(
    runtime: RuntimeView,
    id: Seq<char>,
    plan: PlanView,
    from: int,
    cancelled: bool,
)
    requires
        0 <= from,
        forall|k: int|
            0 <= k < from && k < plan.operations.len()
                ==> runtime.state.completed_bundles.contains(
                (#[trigger] plan.operations[k]).bundle_id,
            ),
        proceed(runtime, id, plan, from, cancelled).1 == RunDecision::Ended,
        proceed(runtime, id, plan, from, cancelled).0.state.phase == "succeeded"@,
    ensures
        forall|k: int|
            0 <= k < plan.operations.len() ==> runtime.state.completed_bundles.contains(
                (#[trigger] plan.operations[k]).bundle_id,
            ),
{
    reveal_strlit("cancelled");
    reveal_strlit("succeeded");
    assert("cancelled"@[0] != "succeeded"@[0]);
    lemma_first_open(plan.operations, runtime.state.completed_bundles, from);
}

/// The name of a request of a process.
pub open spec fn request_name(process: nat, counter: nat) -> Seq<char> {
    "provision-"@ + decimal_of(process) + "-"@ + decimal_of(counter)
}

/// Builds the request for a command of a plan.
pub fn execution_request(plan: &ProvisionPlan, index: usize, process: u32) -> (request:
    ExecutionRequest)
    requires
        index < plan.operations@.len(),
    ensures
        request.id@ == request_name(process as nat, index as nat),
        texts(request.argv@) == plan@.operations[index as int].argv,
{
    let mut id = join("provision-", decimal(process as u64).as_str());
    id.append("-");
    id.append(decimal(index as u64).as_str());
    ExecutionRequest::from_argv(id.as_str(), copy_texts(&plan.operations[index].argv))
}

/// Returns the identifier of a request.
pub fn next_request_id(process: u32, counter: u64) -> (id: String)
    ensures
        id@ == request_name(process as nat, counter as nat),
{
    let mut id = join("provision-", decimal(process as u64).as_str());
    id.append("-");
    id.append(decimal(counter).as_str());
    id
}

/// The network after a probe.
pub open spec fn network_after(probe: Option<(JobState, Option<i32>)>) -> NetworkState {
    match probe {
        Some((JobState::Succeeded, _)) => NetworkState::Connected,
        Some((JobState::Failed, Some(code))) => if code == 1 {
            NetworkState::Offline
        } else {
            NetworkState::Unknown
        },
        _ => NetworkState::Unknown,
    }
}

/// What the network probe says, from how it ended. A probe that could not be
/// run says nothing.
pub fn probe_network(probe: Option<(JobState, Option<i32>)>) -> (network: NetworkState)
    ensures
        network == network_after(probe),
{
    match probe {
        Some((JobState::Succeeded, _)) => NetworkState::Connected,
        Some((JobState::Failed, Some(code))) => if code == 1 {
            NetworkState::Offline
        } else {
            NetworkState::Unknown
        },
        _ => NetworkState::Unknown,
    }
}

/// Builds a request from what the service was sent. An empty image is none.
pub fn build_request(
    bundle_ids: Vec<String>,
    profile: &str,
    available_disk_bytes: u64,
    consent: bool,
    environment_image: &str,
) -> (result: Result<ProvisionRequest, String>)
    ensures
        match result {
            Ok(request) => {
                &&& request.bundle_ids == bundle_ids
                &&& request.profile.label() == profile@
                &&& request.available_disk_bytes == available_disk_bytes
                &&& request.consent == consent
                &&& optional_text(request.environment_image) == if environment_image@.len() == 0 {
                    None
                } else {
                    Some(environment_image@)
                }
            },
            Err(message) => message@ == "unknown machine profile "@ + debug_form(profile@)
                && forall|other: MachineProfile| profile@ != #[trigger] other.label(),
        },
{
    match MachineProfile::parse(profile) {
        Some(known) => Ok(
            ProvisionRequest {
                bundle_ids,
                profile: known,
                available_disk_bytes,
                consent,
                environment_image: if environment_image.is_empty() {
                    None
                } else {
                    Some(environment_image.to_owned())
                },
            },
        ),
        None => Err(join("unknown machine profile ", debug_text(profile).as_str())),
    }
}

/// Checks the size of a status document.
pub fn check_status(document: String) -> (result: Result<String, String>)
    ensures
        match result {
            Ok(text) => encode_utf8(document@).len() <= MAX_STATUS_BYTES && text == document,
            Err(message) => encode_utf8(document@).len() > MAX_STATUS_BYTES && message@
                == "provision status exceeded its display limit"@,
        },
{
    if byte_len(document.as_str()) > MAX_STATUS_BYTES {
        return Err("provision status exceeded its display limit".to_owned());
    }
    Ok(document)
}

/// The file of the state, from the directory of states and the home.
pub open spec fn state_file(
    state_home: Option<Seq<char>>,
    home: Option<Seq<char>>,
) -> Option<Seq<char>> {
    match (state_home, home) {
        (Some(directory), _) => Some(joined(directory, "devcore/provisioning.json"@)),
        (None, Some(directory)) => Some(
            joined(directory, ".local/state/devcore/provisioning.json"@),
        ),
        (None, None) => None,
    }
}

/// The file that the service remembers its state in, from the two settings that
/// may name a directory.
pub fn state_path(state_home: Option<String>, home: Option<String>) -> (result: Result<
    String,
    String,
>)
    ensures
        match result {
            Ok(path) => state_file(optional_text(state_home), optional_text(home)) == Some(path@),
            Err(message) => state_file(optional_text(state_home), optional_text(home)) is None
                && message@
                == "XDG_STATE_HOME or HOME is required for provisioning state"@,
        },
{
    match state_home {
        Some(directory) => Ok(join_path(directory.as_str(), "devcore/provisioning.json")),
        None => match home {
            Some(directory) => Ok(
                join_path(directory.as_str(), ".local/state/devcore/provisioning.json"),
            ),
            None => Err("XDG_STATE_HOME or HOME is required for provisioning state".to_owned()),
        },
    }
}

/// No two requests have the same name.
pub proof fn requests_have_names_of_their_own(p: nat, c: nat, q: nat, d: nat)
    ensures
        request_name(p, c) == request_name(q, d) ==> p == q && c == d,
        "provision-"@.is_prefix_of(request_name(p, c)),
{
    let lead = "provision-"@;
    reveal_strlit("-");
    assert("-"@ =~= seq!['-']);
    decimals_are_digits(p);
    decimals_are_digits(q);
    decimals_say_their_number(p, 0);
    decimals_say_their_number(q, 0);
    decimals_say_their_number(c, 0);
    decimals_say_their_number(d, 0);
    let a = decimal_of(p).push('-') + decimal_of(c);
    let b = decimal_of(q).push('-') + decimal_of(d);
    assert(request_name(p, c) =~= lead + a);
    assert(request_name(q, d) =~= lead + b);
    assert((lead + a).skip(lead.len() as int) =~= a);
    assert((lead + b).skip(lead.len() as int) =~= b);
    assert((lead + a).take(lead.len() as int) =~= lead);
    assert(!decimal_of(p).contains('-')) by {
        if decimal_of(p).contains('-') {
            let k = choose|k: int| 0 <= k < decimal_of(p).len() && decimal_of(p)[k] == '-';
            assert(is_digit(decimal_of(p)[k]));
        }
    }
    assert(!decimal_of(q).contains('-')) by {
        if decimal_of(q).contains('-') {
            let k = choose|k: int| 0 <= k < decimal_of(q).len() && decimal_of(q)[k] == '-';
            assert(is_digit(decimal_of(q)[k]));
        }
    }
    texts_divide_at_the_first_separator(decimal_of(p), decimal_of(c), '-');
    texts_divide_at_the_first_separator(decimal_of(q), decimal_of(d), '-');
}

/// The network is connected only where the probe succeeded, and offline only where
/// it said so.
pub proof fn probes_say_what_they_saw(probe: Option<(JobState, Option<i32>)>)
    ensures
        network_after(probe) == NetworkState::Connected <==> (probe matches Some(
            (JobState::Succeeded, _),
        )),
        network_after(probe) == NetworkState::Offline <==> (probe matches Some(
            (JobState::Failed, code),
        ) && code == Some(1i32)),
        network_after(None) == NetworkState::Unknown,
{
}

/// The state lies in the directory of states where one is set, otherwise below the
/// home.
pub proof fn the_state_lies_where_states_lie(directory: Seq<char>, home: Option<Seq<char>>)
    requires
        directory.len() > 0,
        directory.last() != '/',
    ensures
        state_file(Some(directory), home) == Some(
            directory.push('/') + "devcore/provisioning.json"@,
        ),
        state_file(None, Some(directory)) == Some(
            directory.push('/') + ".local/state/devcore/provisioning.json"@,
        ),
        state_file(None, None) is None,
        MAX_STATUS_BYTES == 64 * 1024,
{
    reveal_strlit("devcore/provisioning.json");
    reveal_strlit(".local/state/devcore/provisioning.json");
    joins_have_one_separator(directory, "devcore/provisioning.json"@);
    joins_have_one_separator(directory, ".local/state/devcore/provisioning.json"@);
}

/// Only a command that succeeded is done; everything that was done stays done.
pub proof fn only_success_completes(
    runtime: RuntimeView,
    id: Seq<char>,
    plan: PlanView,
    event: RunEvent,
    cancelled: bool,
)
    ensures
        ({
            let done = runtime.state.completed_bundles;
            let after = run_step(runtime, id, plan, event, cancelled).0.state.completed_bundles;
            match event {
                RunEvent::Finished {
                    index,
                    outcome: OperationOutcome::Ran { state: JobState::Succeeded, .. },
                } => after == done.push(plan.operations[index as int].bundle_id),
                _ => after == done,
            }
        }),
        run_step(runtime, id, plan, event, cancelled).0.state.selected_bundles
            == runtime.state.selected_bundles,
        run_step(runtime, id, plan, event, cancelled).0.state.profile == runtime.state.profile,
        run_step(runtime, id, plan, event, cancelled).0.state.request_id
            == runtime.state.request_id,
{
}

/// The first command that is not done comes next: every one between the start of
/// the search and it is done.
pub proof fn the_first_open_command_is_next(
    operations: Seq<OperationView>,
    completed: Seq<Seq<char>>,
    from: int,
    k: int,
)
    requires
        0 <= from,
    ensures
        first_open(operations, completed, from) matches Some(at) ==> from <= at
            < operations.len() && !completed.contains(operations[at].bundle_id) && (from <= k < at
            ==> completed.contains(operations[k].bundle_id)),
        first_open(operations, completed, from) is None && from <= k < operations.len()
            ==> completed.contains(operations[k].bundle_id),
    decreases operations.len() - from,
{
    if from < operations.len() && completed.contains(operations[from].bundle_id) {
        the_first_open_command_is_next(operations, completed, from + 1, k);
    }
}

/// A run that fails says which bundle failed and why; one that was cancelled or has
/// succeeded says so.
pub proof fn runs_end_in_a_phase_of_their_own(
    runtime: RuntimeView,
    id: Seq<char>,
    plan: PlanView,
    index: usize,
    code: Option<i32>,
    error: String,
    cancelled: bool,
)
    requires
        index < plan.operations.len() <= usize::MAX,
        runtime.active == Some(id),
    ensures
        ({
            let bundle = plan.operations[index as int].bundle_id;
            let failed = run_step(
                runtime,
                id,
                plan,
                RunEvent::Finished {
                    index,
                    outcome: OperationOutcome::Ran { state: JobState::Failed, exit_code: code },
                },
                cancelled,
            );
            &&& failed.1 == RunDecision::Ended
            &&& failed.0.state.phase == "failed"@
            &&& failed.0.state.last_error == Some(bundle + " failed with "@ + exit_code_of(code))
        }),
        ({
            let not_run = run_step(
                runtime,
                id,
                plan,
                RunEvent::Finished { index, outcome: OperationOutcome::NotRun(error) },
                cancelled,
            );
            &&& not_run.1 == RunDecision::Ended
            &&& not_run.0.state.phase == "failed"@
            &&& not_run.0.state.last_error == Some(
                plan.operations[index as int].bundle_id + " execution failed: "@ + error@,
            )
        }),
        ({
            let stopped = run_step(
                runtime,
                id,
                plan,
                RunEvent::Finished {
                    index,
                    outcome: OperationOutcome::Ran { state: JobState::Cancelled, exit_code: code },
                },
                cancelled,
            );
            &&& stopped.1 == RunDecision::Ended
            &&& stopped.0.state.phase == "cancelled"@
        }),
        ({
            let last = run_step(
                runtime,
                id,
                plan,
                RunEvent::Finished {
                    index,
                    outcome: OperationOutcome::Ran { state: JobState::Succeeded, exit_code: code },
                },
                cancelled,
            );
            &&& index == plan.operations.len() - 1 ==> last.1 == RunDecision::Ended
                && last.0.state.last_error is None
            &&& index == plan.operations.len() - 1 && plan.external_provider_bundle_ids.len() == 0
                ==> last.0.state.phase == "succeeded"@
            &&& index == plan.operations.len() - 1 && plan.external_provider_bundle_ids.len() > 0
                ==> last.0.state.phase == "external-provider-required"@
            &&& cancelled ==> last.1 == RunDecision::Ended
        }),
{
}

/// A run that is started with a network, and not cancelled, carries out its first
/// command that is not done yet.
pub proof fn connected_runs_go_on(
    runtime: RuntimeView,
    id: Seq<char>,
    plan: PlanView,
    cancelled: bool,
)
    requires
        0 < plan.operations.len() <= usize::MAX,
    ensures
        run_step(runtime, id, plan, RunEvent::Started, cancelled) == (
            runtime,
            RunDecision::ProbeNetwork,
        ),
        !cancelled && !runtime.state.completed_bundles.contains(plan.operations[0].bundle_id) ==> {
            let (after, decision) = run_step(
                runtime,
                id,
                plan,
                RunEvent::Network(NetworkState::Connected),
                cancelled,
            );
            &&& decision == RunDecision::Execute(0)
            &&& after.state.phase == "running"@
            &&& after.state.network == NetworkState::Connected
            &&& after.active == runtime.active
        },
{
}

/// A restart forgets which request was active and marks what was under way as
/// interrupted; everything else is remembered.
pub proof fn restarts_interrupt_what_was_under_way(stored: StateView)
    ensures
        loaded(Some(stored)).active is None,
        stored.phase == "running"@ || stored.phase == "waiting-network"@ ==> loaded(
            Some(stored),
        ).state.phase == "interrupted"@ && loaded(Some(stored)).state.current_bundle is None
            && loaded(Some(stored)).state.last_error is Some,
        stored.phase != "running"@ && stored.phase != "waiting-network"@ ==> loaded(
            Some(stored),
        ).state == stored,
        loaded(Some(stored)).state.selected_bundles == stored.selected_bundles,
        loaded(Some(stored)).state.completed_bundles == stored.completed_bundles,
        loaded(Some(stored)).state.profile == stored.profile,
        loaded(Some(stored)).state.request_id == stored.request_id,
        loaded(None).state.phase == "idle"@,
        loaded(None).state.completed_bundles.len() == 0,
        loaded(None).state.selected_bundles.len() == 0,
{
}

/// A request that is started waits for the network under its own name. What an
/// earlier request for other bundles had done does not count for it.
pub proof fn requests_start_afresh(
    runtime: RuntimeView,
    profile: MachineProfile,
    bundles: Seq<Seq<char>>,
    id: Seq<char>,
)
    ensures
        ({
            let after = started(runtime, profile, bundles, id);
            &&& after.active == Some(id)
            &&& after.state.request_id == Some(id)
            &&& after.state.phase == "waiting-network"@
            &&& after.state.profile == Some(profile)
            &&& after.state.selected_bundles == bundles
            &&& after.state.network == NetworkState::Unknown
            &&& after.state.current_bundle is None
            &&& after.state.last_error is None
            &&& runtime.state.selected_bundles != bundles ==> after.state.completed_bundles.len()
                == 0
            &&& runtime.state.selected_bundles == bundles ==> after.state.completed_bundles
                == runtime.state.completed_bundles
        }),
{
}

} // verus!
