//! Test plans: steps, their order, their schedule and their commands.

use crate::environment::{
    container_directory, containers_see_their_workspace, environments_run_what_was_asked_for,
    outside_workspace, EnvironmentError, EnvironmentSpec,
};
use crate::execution::ExecutionRequest;
use crate::graph::{
    contains_text, first_missing, graph_of, ids, is_closed, is_first_missing, is_topological,
    on_cycle, order_steps, step_order, Node,
};
use crate::resource::{ScopePlanError, WorkloadBudgets, WorkloadClass, WorkloadScopePlan};
use crate::text::{
    contains_white_space, copy_texts, debug_form, debug_text, ends_in, gives, has_white_space,
    is_white_space, join, push_text, same, texts,
};
use vstd::prelude::*;

verus! {

/// Kinds of tests.
#[derive(Clone, Copy, Debug, PartialEq, Eq, Structural)]
pub enum TestKind {
    /// Linting, formatting and type checks.
    StaticAnalysis,
    /// Tests inside one process.
    Unit,
    /// Tests over several local components.
    Integration,
    /// User interface and accessibility tests.
    Ui,
    /// Service contract tests.
    Api,
    /// Tests with a local database.
    Database,
    /// Tests on an attached device.
    Device,
    /// Tests on a virtual device.
    Emulator,
    /// Measurements.
    Performance,
    /// Behaviour under memory pressure.
    MemoryPressure,
    /// Security and policy checks.
    Security,
    /// Suites from earlier failures.
    Regression,
}

impl TestKind {
    /// The stable identifier of a kind.
    pub open spec fn label(self) -> Seq<char> {
        match self {
            TestKind::StaticAnalysis => "static-analysis"@,
            TestKind::Unit => "unit"@,
            TestKind::Integration => "integration"@,
            TestKind::Ui => "ui"@,
            TestKind::Api => "api"@,
            TestKind::Database => "database"@,
            TestKind::Device => "device"@,
            TestKind::Emulator => "emulator"@,
            TestKind::Performance => "performance"@,
            TestKind::MemoryPressure => "memory-pressure"@,
            TestKind::Security => "security"@,
            TestKind::Regression => "regression"@,
        }
    }

    /// The workload class whose budget a kind of tests uses.
    pub open spec fn workload(self) -> WorkloadClass {
        match self {
            TestKind::Emulator => WorkloadClass::Emulator,
            TestKind::StaticAnalysis => WorkloadClass::Indexer,
            _ => WorkloadClass::Build,
        }
    }

    /// Returns the stable identifier of a kind.
    pub fn as_str(self) -> (text: &'static str)
        ensures
            text@ == self.label(),
    {
        match self {
            TestKind::StaticAnalysis => "static-analysis",
            TestKind::Unit => "unit",
            TestKind::Integration => "integration",
            TestKind::Ui => "ui",
            TestKind::Api => "api",
            TestKind::Database => "database",
            TestKind::Device => "device",
            TestKind::Emulator => "emulator",
            TestKind::Performance => "performance",
            TestKind::MemoryPressure => "memory-pressure",
            TestKind::Security => "security",
            TestKind::Regression => "regression",
        }
    }

    /// Reads the identifier of a kind.
    pub fn parse(value: &str) -> (kind: Option<TestKind>)
        ensures
            match kind {
                Some(found) => value@ == found.label(),
                None => forall|other: TestKind| value@ != #[trigger] other.label(),
            },
    {
        if same(value, "static-analysis") {
            Some(TestKind::StaticAnalysis)
        } else if same(value, "unit") {
            Some(TestKind::Unit)
        } else if same(value, "integration") {
            Some(TestKind::Integration)
        } else if same(value, "ui") {
            Some(TestKind::Ui)
        } else if same(value, "api") {
            Some(TestKind::Api)
        } else if same(value, "database") {
            Some(TestKind::Database)
        } else if same(value, "device") {
            Some(TestKind::Device)
        } else if same(value, "emulator") {
            Some(TestKind::Emulator)
        } else if same(value, "performance") {
            Some(TestKind::Performance)
        } else if same(value, "memory-pressure") {
            Some(TestKind::MemoryPressure)
        } else if same(value, "security") {
            Some(TestKind::Security)
        } else if same(value, "regression") {
            Some(TestKind::Regression)
        } else {
            None
        }
    }

    /// Returns the workload class whose budget a kind of tests uses.
    pub fn workload_class(self) -> (workload: WorkloadClass)
        ensures
            workload == self.workload(),
    {
        match self {
            TestKind::Emulator => WorkloadClass::Emulator,
            TestKind::StaticAnalysis => WorkloadClass::Indexer,
            _ => WorkloadClass::Build,
        }
    }
}

/// Different kinds have different identifiers.
pub proof fn kind_labels_differ(a: TestKind, b: TestKind)
    requires
        a.label() == b.label(),
    ensures
        a == b,
{
    reveal_strlit("static-analysis");
    reveal_strlit("unit");
    reveal_strlit("integration");
    reveal_strlit("ui");
    reveal_strlit("api");
    reveal_strlit("database");
    reveal_strlit("device");
    reveal_strlit("emulator");
    reveal_strlit("performance");
    reveal_strlit("memory-pressure");
    reveal_strlit("security");
    reveal_strlit("regression");
    assert("static-analysis"@.len() == 15);
    assert("unit"@.len() == 4);
    assert("integration"@.len() == 11);
    assert("ui"@.len() == 2);
    assert("api"@.len() == 3);
    assert("database"@.len() == 8);
    assert("device"@.len() == 6);
    assert("emulator"@.len() == 8);
    assert("performance"@.len() == 11);
    assert("memory-pressure"@.len() == 15);
    assert("security"@.len() == 8);
    assert("regression"@.len() == 10);
    assert("static-analysis"@[0] != "memory-pressure"@[0]);
    assert("integration"@[0] != "performance"@[0]);
    assert("database"@[0] != "emulator"@[0]);
    assert("database"@[0] != "security"@[0]);
    assert("emulator"@[0] != "security"@[0]);
}

/// A program with its arguments; no shell is involved.
#[derive(Clone, Debug, PartialEq, Eq)]
pub struct TestCommand {
    /// Program, found inside the environment.
    pub program: String,
    /// Arguments, one entry each.
    pub args: Vec<String>,
}

/// A program name that can be run: not empty and without white space.
pub open spec fn valid_program(program: Seq<char>) -> bool {
    program.len() > 0 && !has_white_space(program)
}

impl TestCommand {
    /// Creates a command.
    pub fn new(program: &str, args: Vec<String>) -> (command: TestCommand)
        ensures
            command.program@ == program@,
            command.args == args,
    {
        TestCommand { program: program.to_owned(), args }
    }

    /// Checks the program of the command.
    pub fn validate(&self) -> (result: Result<(), TestPlanError>)
        ensures
            match result {
                Ok(_) => valid_program(self.program@),
                Err(error) => !valid_program(self.program@) && error
                    == TestPlanError::InvalidCommand(self.program),
            },
    {
        if self.program.as_str().is_empty() || contains_white_space(self.program.as_str()) {
            return Err(TestPlanError::InvalidCommand(self.program.clone()));
        }
        Ok(())
    }
}

/// One step of a test plan.
#[derive(Clone, Debug, PartialEq, Eq)]
pub struct TestStep {
    /// Identifier within the plan.
    pub id: String,
    /// Kind of the tests.
    pub kind: TestKind,
    /// Command that runs them.
    pub command: TestCommand,
    /// Directory in which they run.
    pub working_directory: String,
    /// Steps that have to come first.
    pub dependencies: Vec<String>,
}

/// What a request for a test step may be: the command is checked first, then
/// the environment, then the working directory.
pub open spec fn is_test_command(
    step: TestStep,
    environment: EnvironmentSpec,
    result: Result<Seq<Seq<char>>, TestPlanError>,
) -> bool {
    match result {
        Ok(argv) => valid_program(step.command.program@) && environment.checked() is Ok
            && container_directory(environment.workspace@, step.working_directory@) is Some && argv
            == environment.run_argv_at(
            container_directory(environment.workspace@, step.working_directory@)->0,
            step.command.program@,
            texts(step.command.args@),
        ),
        Err(TestPlanError::InvalidCommand(program)) => !valid_program(step.command.program@)
            && program@ == step.command.program@,
        Err(TestPlanError::InvalidEnvironment(error)) => valid_program(step.command.program@) && (
        environment.checked() == Err::<(), EnvironmentError>(error) || (environment.checked() is Ok
            && outside_workspace(environment.workspace@, step.working_directory@, error))),
        Err(_) => false,
    }
}

impl TestStep {
    /// Creates a step without dependencies.
    pub fn new(
        id: &str,
        kind: TestKind,
        command: TestCommand,
        working_directory: &str,
    ) -> (step: TestStep)
        ensures
            step.id@ == id@,
            step.kind == kind,
            step.command == command,
            step.working_directory@ == working_directory@,
            step.dependencies@.len() == 0,
    {
        TestStep {
            id: id.to_owned(),
            kind,
            command,
            working_directory: working_directory.to_owned(),
            dependencies: Vec::new(),
        }
    }

    /// Adds a dependency.
    pub fn depends_on(self, dependency: &str) -> (step: TestStep)
        ensures
            step.id == self.id,
            step.kind == self.kind,
            step.command == self.command,
            step.working_directory == self.working_directory,
            texts(step.dependencies@) == texts(self.dependencies@).push(dependency@),
    {
        let mut dependencies = self.dependencies;
        push_text(&mut dependencies, dependency);
        TestStep {
            id: self.id,
            kind: self.kind,
            command: self.command,
            working_directory: self.working_directory,
            dependencies,
        }
    }

    /// Builds a request that runs the step in an environment.
    pub fn execution_request(&self, job_id: &str, environment: &EnvironmentSpec) -> (result: Result<
        ExecutionRequest,
        TestPlanError,
    >)
        ensures
            match result {
                Ok(request) => request.id@ == job_id@ && is_test_command(
                    *self,
                    *environment,
                    Ok(texts(request.argv@)),
                ),
                Err(error) => is_test_command(*self, *environment, Err(error)),
            },
    {
        match self.command.validate() {
            Ok(_) => {},
            Err(error) => {
                return Err(error);
            },
        }
        match environment.validate() {
            Ok(_) => {},
            Err(error) => {
                return Err(TestPlanError::InvalidEnvironment(error));
            },
        }
        match environment.run_command_at(
            self.working_directory.as_str(),
            self.command.program.as_str(),
            self.command.args.as_slice(),
        ) {
            Ok(argv) => Ok(ExecutionRequest::from_argv(job_id, argv)),
            Err(error) => Err(TestPlanError::InvalidEnvironment(error)),
        }
    }

    /// Builds a request that runs the step in a resource scope. `scoped` is the
    /// command that the scope makes of the step's command in the environment.
    pub fn execution_request_with_scope(
        &self,
        job_id: &str,
        environment: &EnvironmentSpec,
        scope: &WorkloadScopePlan,
        scoped: Result<Vec<String>, ScopePlanError>,
    ) -> (result: Result<ExecutionRequest, TestPlanError>)
        ensures
            match result {
                Ok(request) => scope.workload == self.kind.workload() && (exists|argv: Seq<
                    Seq<char>,
                >| #[trigger]
                    is_test_command(*self, *environment, Ok(argv))) && scoped is Ok && request.id@
                    == job_id@ && request.argv == scoped->Ok_0,
                Err(TestPlanError::WrongWorkload { expected, actual }) => scope.workload
                    != self.kind.workload() && expected == self.kind.workload() && actual
                    == scope.workload,
                Err(TestPlanError::InvalidScope(error)) => scope.workload == self.kind.workload()
                    && (exists|argv: Seq<Seq<char>>| #[trigger]
                    is_test_command(*self, *environment, Ok(argv))) && scoped == Err::<
                    Vec<String>,
                    ScopePlanError,
                >(error),
                Err(error) => scope.workload == self.kind.workload() && is_test_command(
                    *self,
                    *environment,
                    Err(error),
                ),
            },
    {
        let expected = self.kind.workload_class();
        if scope.workload != expected {
            return Err(TestPlanError::WrongWorkload { expected, actual: scope.workload });
        }
        match self.execution_request(job_id, environment) {
            Ok(request) => {
                assert(is_test_command(*self, *environment, Ok(texts(request.argv@))));
                match scoped {
                    Ok(command) => Ok(ExecutionRequest::from_argv(job_id, command)),
                    Err(error) => Err(TestPlanError::InvalidScope(error)),
                }
            },
            Err(error) => Err(error),
        }
    }
}

/// A list of test steps.
#[derive(Clone, Debug, PartialEq, Eq)]
pub struct TestPlan {
    steps: Vec<TestStep>,
}

impl View for TestPlan {
    type V = Seq<TestStep>;

    closed spec fn view(&self) -> Seq<TestStep> {
        self.steps@
    }
}

/// The identifiers and dependencies of a list of test steps.
pub open spec fn test_graph(steps: Seq<TestStep>) -> Seq<(Seq<char>, Seq<Seq<char>>)> {
    steps.map_values(|step: TestStep| (step.id@, texts(step.dependencies@)))
}

/// A step that cannot stand where it stands: it has no identifier, no program
/// that can be run, or the identifier of an earlier step.
pub open spec fn is_refused(steps: Seq<TestStep>, i: int) -> bool {
    ||| steps[i].id@.len() == 0
    ||| !valid_program(steps[i].command.program@)
    ||| ids(test_graph(steps)).take(i).contains(steps[i].id@)
}

/// The first step that cannot stand where it stands.
pub open spec fn is_first_refused(steps: Seq<TestStep>, i: int) -> bool {
    &&& 0 <= i < steps.len()
    &&& is_refused(steps, i)
    &&& forall|k: int| 0 <= k < i ==> !#[trigger] is_refused(steps, k)
}

/// Every step can stand where it stands.
pub open spec fn none_refused(steps: Seq<TestStep>) -> bool {
    forall|k: int| 0 <= k < steps.len() ==> !#[trigger] is_refused(steps, k)
}

/// What ordering the steps of a plan gives.
pub open spec fn is_test_order(
    steps: Seq<TestStep>,
    result: Result<Seq<Seq<char>>, TestPlanError>,
) -> bool {
    match result {
        Ok(order) => none_refused(steps) && is_closed(test_graph(steps)) && step_order(
            test_graph(steps),
        ) == Ok::<Seq<Seq<char>>, Seq<char>>(order) && is_topological(test_graph(steps), order),
        Err(TestPlanError::InvalidStepId(id)) => exists|i: int| #[trigger]
            is_first_refused(steps, i) && steps[i].id@.len() == 0 && id@ == steps[i].id@,
        Err(TestPlanError::InvalidCommand(program)) => exists|i: int| #[trigger]
            is_first_refused(steps, i) && steps[i].id@.len() > 0 && !valid_program(
                steps[i].command.program@,
            ) && program@ == steps[i].command.program@,
        Err(TestPlanError::DuplicateStep(id)) => exists|i: int| #[trigger]
            is_first_refused(steps, i) && steps[i].id@.len() > 0 && valid_program(
                steps[i].command.program@,
            ) && id@ == steps[i].id@,
        Err(TestPlanError::UnknownDependency { step, dependency }) => none_refused(steps)
            && exists|i: int, j: int| #[trigger]
            is_first_missing(test_graph(steps), i, j) && step@ == test_graph(steps)[i].0
                && dependency@ == test_graph(steps)[i].1[j],
        Err(TestPlanError::Cycle(id)) => none_refused(steps) && is_closed(test_graph(steps))
            && step_order(test_graph(steps)) == Err::<Seq<Seq<char>>, Seq<char>>(id@) && on_cycle(
            test_graph(steps),
            id@,
        ),
        Err(_) => false,
    }
}

/// The step of that identifier.
pub open spec fn step_named(steps: Seq<TestStep>, id: Seq<char>) -> TestStep {
    steps[ids(test_graph(steps)).index_of(id)]
}

/// The schedule of one step, under the current budgets.
pub open spec fn is_schedule_of(
    schedule: TestSchedule,
    step: TestStep,
    budgets: WorkloadBudgets,
) -> bool {
    &&& schedule.id@ == step.id@
    &&& schedule.kind == step.kind
    &&& schedule.workload == step.kind.workload()
    &&& schedule.max_workers == budgets.of(step.kind.workload()).max_workers
    &&& schedule.deferred == budgets.of(step.kind.workload()).deferred
}

impl Default for TestPlan {
    fn default() -> (plan: TestPlan)
        ensures
            plan@ == Seq::<TestStep>::empty(),
    {
        TestPlan::new()
    }
}

impl TestPlan {
    /// Creates an empty plan.
    pub fn new() -> (plan: TestPlan)
        ensures
            plan@ == Seq::<TestStep>::empty(),
    {
        TestPlan { steps: Vec::new() }
    }

    /// Adds a step.
    pub fn push(&mut self, step: TestStep)
        ensures
            final(self)@ == old(self)@.push(step),
    {
        self.steps.push(step);
    }

    /// Returns the steps in the order in which they were added.
    pub fn steps(&self) -> (steps: &[TestStep])
        ensures
            steps@ == self@,
    {
        self.steps.as_slice()
    }

    /// Orders the steps so that each one follows what it depends on. The steps
    /// are checked one by one first, then the dependencies, then cycles.
    pub fn execution_order(&self) -> (result: Result<Vec<String>, TestPlanError>)
        ensures
            match result {
                Ok(order) => is_test_order(self@, Ok(texts(order@))),
                Err(error) => is_test_order(self@, Err(error)),
            },
    {
        let ghost graph = test_graph(self@);
        let mut nodes: Vec<Node> = Vec::new();
        let mut seen: Vec<String> = Vec::new();
        let mut k: usize = 0;
        assert(graph_of(nodes@) =~= graph.take(0));
        assert(texts(seen@) =~= ids(graph).take(0));
        assert(ids(graph).take(0).no_duplicates());
        while k < self.steps.len()
            invariant
                k <= self.steps@.len(),
                self@ == self.steps@,
                graph == test_graph(self.steps@),
                graph_of(nodes@) == graph.take(k as int),
                texts(seen@) == ids(graph).take(k as int),
                ids(graph).take(k as int).no_duplicates(),
                forall|i: int| 0 <= i < k ==> !#[trigger] is_refused(self@, i),
            decreases self.steps.len() - k,
        {
            let step = &self.steps[k];
            assert(ids(graph)[k as int] == step.id@);
            if step.id.as_str().is_empty() {
                assert(is_first_refused(self@, k as int));
                return Err(TestPlanError::InvalidStepId(step.id.clone()));
            }
            match step.command.validate() {
                Ok(_) => {},
                Err(error) => {
                    assert(is_first_refused(self@, k as int));
                    return Err(error);
                },
            }
            if contains_text(&seen, step.id.as_str()) {
                assert(is_first_refused(self@, k as int));
                return Err(TestPlanError::DuplicateStep(step.id.clone()));
            }
            let ghost before = nodes@;
            push_text(&mut seen, step.id.as_str());
            nodes.push(
                Node { id: step.id.clone(), dependencies: copy_texts(&step.dependencies) },
            );
            proof {
                assert(graph_of(nodes@) =~= graph_of(before).push(
                    (step.id@, texts(step.dependencies@)),
                ));
                assert(graph.take(k + 1) =~= graph.take(k as int).push(graph[k as int]));
                let next = ids(graph).take(k + 1);
                assert(next =~= ids(graph).take(k as int).push(step.id@));
                assert forall|a: int, b: int| 0 <= a < b < next.len() implies #[trigger] next[a]
                    != #[trigger] next[b] by {
                    assert(ids(graph).take(k as int)[a] == next[a]);
                    if b < k {
                        assert(ids(graph).take(k as int)[b] == next[b]);
                    } else {
                        assert(ids(graph).take(k as int).contains(next[a]));
                    }
                }
                assert(next.no_duplicates());
            }
            k = k + 1;
        }
        assert(graph.take(k as int) =~= graph);
        assert(ids(graph).take(k as int) =~= ids(graph));
        assert(none_refused(self@));
        if let Some((i, j)) = first_missing(&nodes) {
            assert(graph[i as int].0 == nodes@[i as int].id@);
            assert(graph[i as int].1 == texts(nodes@[i as int].dependencies@));
            return Err(
                TestPlanError::UnknownDependency {
                    step: nodes[i].id.clone(),
                    dependency: nodes[i].dependencies[j].clone(),
                },
            );
        }
        match order_steps(&nodes) {
            Ok(order) => Ok(order),
            Err(id) => Err(TestPlanError::Cycle(id)),
        }
    }

    /// Schedules the steps in their order under the current budgets.
    pub fn schedule(&self, budgets: &WorkloadBudgets) -> (result: Result<
        Vec<TestSchedule>,
        TestPlanError,
    >)
        ensures
            match result {
                Ok(list) => is_test_order(
                    self@,
                    Ok(list@.map_values(|item: TestSchedule| item.id@)),
                ) && forall|i: int|
                    0 <= i < list@.len() ==> is_schedule_of(
                        #[trigger] list@[i],
                        step_named(self@, list@[i].id@),
                        *budgets,
                    ),
                Err(error) => is_test_order(self@, Err(error)),
            },
    {
        let order = match self.execution_order() {
            Ok(order) => order,
            Err(error) => {
                return Err(error);
            },
        };
        let ghost graph = test_graph(self@);
        let ghost all = texts(order@);
        let mut list: Vec<TestSchedule> = Vec::new();
        let mut i: usize = 0;
        while i < order.len()
            invariant
                i <= order@.len(),
                self@ == self.steps@,
                graph == test_graph(self@),
                all == texts(order@),
                is_test_order(self@, Ok(all)),
                list@.len() == i,
                forall|k: int|
                    0 <= k < i ==> (#[trigger] list@[k]).id@ == all[k] && is_schedule_of(
                        list@[k],
                        step_named(self@, list@[k].id@),
                        *budgets,
                    ),
            decreases order.len() - i,
        {
            let id = order[i].as_str();
            proof {
                assert(all[i as int] == id@);
                assert(all.contains(id@));
                assert(ids(graph).contains(id@));
            }
            let step = self.find(id);
            let workload = step.kind.workload_class();
            let budget = budgets.workload_budget(workload);
            list.push(
                TestSchedule {
                    id: order[i].clone(),
                    kind: step.kind,
                    workload,
                    max_workers: budget.max_workers,
                    deferred: budget.deferred,
                },
            );
            i = i + 1;
        }
        assert(list@.map_values(|item: TestSchedule| item.id@) =~= all);
        Ok(list)
    }

    fn find(&self, id: &str) -> (step: &TestStep)
        requires
            ids(test_graph(self@)).contains(id@),
            none_refused(self@),
        ensures
            *step == step_named(self@, id@),
            step.id@ == id@,
    {
        let ghost all = ids(test_graph(self@));
        let mut i: usize = 0;
        while i < self.steps.len()
            invariant
                i <= self.steps@.len(),
                self@ == self.steps@,
                all == ids(test_graph(self@)),
                all.contains(id@),
                none_refused(self@),
                forall|k: int| 0 <= k < i ==> all[k] != id@,
            decreases self.steps.len() - i,
        {
            assert(all[i as int] == self.steps@[i as int].id@);
            if same(self.steps[i].id.as_str(), id) {
                proof {
                    let k = all.index_of(id@);
                    assert(all[k] == id@);
                    if k != i {
                        assert(!is_refused(self@, k));
                        assert(self@[k].id@ == all[k]);
                        assert(all.take(k)[i as int] == id@);
                    }
                }
                return &self.steps[i];
            }
            i = i + 1;
        }
        proof {
            let k = choose|k: int| 0 <= k < all.len() && all[k] == id@;
            assert(false);
        }
        &self.steps[0]
    }
}

/// The decision on one test step.
#[derive(Clone, Debug, PartialEq, Eq)]
pub struct TestSchedule {
    /// Identifier of the step.
    pub id: String,
    /// Kind of the tests.
    pub kind: TestKind,
    /// Workload class whose budget is used.
    pub workload: WorkloadClass,
    /// Most parallel workers.
    pub max_workers: u16,
    /// Whether the step should wait.
    pub deferred: bool,
}

/// Why a plan or a command is refused.
#[derive(Clone, Debug, PartialEq, Eq)]
pub enum TestPlanError {
    /// A step has no identifier.
    InvalidStepId(String),
    /// A program is empty or holds white space.
    InvalidCommand(String),
    /// Two steps have the same identifier.
    DuplicateStep(String),
    /// A step depends on something that is no step.
    UnknownDependency {
        /// The step.
        step: String,
        /// What it depends on.
        dependency: String,
    },
    /// A step depends on itself.
    Cycle(String),
    /// The environment or the working directory is refused.
    InvalidEnvironment(EnvironmentError),
    /// The scope is meant for another kind of work.
    WrongWorkload {
        /// What the step needs.
        expected: WorkloadClass,
        /// What the scope is for.
        actual: WorkloadClass,
    },
    /// The scope cannot be turned into a command.
    InvalidScope(ScopePlanError),
}

impl TestPlanError {
    /// The message for people.
    pub open spec fn text(&self) -> Seq<char> {
        match self {
            TestPlanError::InvalidStepId(id) => "invalid test step id "@ + debug_form(id@),
            TestPlanError::InvalidCommand(program) => "invalid test command "@ + debug_form(
                program@,
            ),
            TestPlanError::DuplicateStep(id) => "duplicate test step "@ + debug_form(id@),
            TestPlanError::UnknownDependency { step, dependency } => "test step "@ + debug_form(
                step@,
            ) + " depends on missing step "@ + debug_form(dependency@),
            TestPlanError::Cycle(id) => "test dependency cycle includes "@ + debug_form(id@),
            TestPlanError::InvalidEnvironment(error) => "invalid test environment: "@
                + error.text(),
            TestPlanError::WrongWorkload { expected, actual } => "test scope workload is "@
                + actual.label() + ", expected "@ + expected.label(),
            TestPlanError::InvalidScope(error) => "invalid test scope: "@ + error.reason@,
        }
    }

    /// Returns the message for people.
    pub fn message(&self) -> (message: String)
        ensures
            message@ == self.text(),
    {
        match self {
            TestPlanError::InvalidStepId(id) => join(
                "invalid test step id ",
                debug_text(id.as_str()).as_str(),
            ),
            TestPlanError::InvalidCommand(program) => join(
                "invalid test command ",
                debug_text(program.as_str()).as_str(),
            ),
            TestPlanError::DuplicateStep(id) => join(
                "duplicate test step ",
                debug_text(id.as_str()).as_str(),
            ),
            TestPlanError::UnknownDependency { step, dependency } => {
                let mut message = join("test step ", debug_text(step.as_str()).as_str());
                message.append(" depends on missing step ");
                message.append(debug_text(dependency.as_str()).as_str());
                message
            },
            TestPlanError::Cycle(id) => join(
                "test dependency cycle includes ",
                debug_text(id.as_str()).as_str(),
            ),
            TestPlanError::InvalidEnvironment(error) => join(
                "invalid test environment: ",
                error.message().as_str(),
            ),
            TestPlanError::WrongWorkload { expected, actual } => {
                let mut message = join("test scope workload is ", actual.as_str());
                message.append(", expected ");
                message.append(expected.as_str());
                message
            },
            TestPlanError::InvalidScope(error) => join(
                "invalid test scope: ",
                error.reason.as_str(),
            ),
        }
    }
}

/// Emulators and static analysis have budgets of their own; every other test is
/// counted as a build.
pub proof fn tests_are_budgeted_by_their_kind(kind: TestKind)
    ensures
        kind.workload() == WorkloadClass::Emulator <==> kind == TestKind::Emulator,
        kind.workload() == WorkloadClass::Indexer <==> kind == TestKind::StaticAnalysis,
        kind != TestKind::Emulator && kind != TestKind::StaticAnalysis ==> kind.workload()
            == WorkloadClass::Build,
{
}

/// The words by which kinds of tests are asked for.
pub proof fn kind_words_are_stable()
    ensures
        TestKind::StaticAnalysis.label() == "static-analysis"@,
        TestKind::Unit.label() == "unit"@,
        TestKind::Integration.label() == "integration"@,
        TestKind::Ui.label() == "ui"@,
        TestKind::Api.label() == "api"@,
        TestKind::Database.label() == "database"@,
        TestKind::Device.label() == "device"@,
        TestKind::Emulator.label() == "emulator"@,
        TestKind::Performance.label() == "performance"@,
        TestKind::MemoryPressure.label() == "memory-pressure"@,
        TestKind::Security.label() == "security"@,
        TestKind::Regression.label() == "regression"@,
{
}

/// A test runs its own command in its environment: in a container of its image,
/// in the directory of the step, with the program and the arguments of the test.
pub proof fn tests_run_in_their_environment(
    step: TestStep,
    environment: EnvironmentSpec,
    argv: Seq<Seq<char>>,
)
    requires
        is_test_command(step, environment, Ok(argv)),
    ensures
        environment.checked() is Ok,
        step.command.program@.len() > 0,
        ends_in(
            argv,
            seq![environment.image@, step.command.program@] + texts(step.command.args@),
        ),
        gives(
            argv,
            "--workdir"@,
            container_directory(environment.workspace@, step.working_directory@)->0,
        ),
        argv.contains("--rm"@),
{
    let directory = container_directory(environment.workspace@, step.working_directory@)->0;
    environments_run_what_was_asked_for(
        environment,
        directory,
        step.command.program@,
        texts(step.command.args@),
    );
    containers_see_their_workspace(
        environment,
        directory,
        step.command.program@,
        texts(step.command.args@),
    );
}

/// A scheduled test has the workers of its class and waits exactly where its
/// class has to wait: an emulator as emulators do, static analysis as indexing
/// does, any other test as builds do.
pub proof fn schedules_follow_the_budgets(
    schedule: TestSchedule,
    step: TestStep,
    budgets: WorkloadBudgets,
)
    requires
        is_schedule_of(schedule, step, budgets),
    ensures
        schedule.id@ == step.id@ && schedule.kind == step.kind,
        step.kind == TestKind::Emulator ==> schedule.deferred == budgets.emulator.deferred
            && schedule.max_workers == budgets.emulator.max_workers,
        step.kind == TestKind::StaticAnalysis ==> schedule.deferred == budgets.indexer.deferred
            && schedule.max_workers == budgets.indexer.max_workers,
        step.kind != TestKind::Emulator && step.kind != TestKind::StaticAnalysis
            ==> schedule.deferred == budgets.build.deferred && schedule.max_workers
            == budgets.build.max_workers,
{
}

/// The program of a test is a single word: no white space, and not empty.
pub proof fn test_programs_are_single_words(program: Seq<char>)
    ensures
        !valid_program(Seq::empty()),
        program.contains(' ') || program.contains('\n') || program.contains('\t')
            ==> !valid_program(program),
        program.len() > 0 && (forall|i: int|
            0 <= i < program.len() ==> '!' <= #[trigger] program[i] <= '~') ==> valid_program(
            program,
        ),
{
    if program.contains(' ') || program.contains('\n') || program.contains('\t') {
        let i = choose|i: int|
            0 <= i < program.len() && (#[trigger] program[i] == ' ' || program[i] == '\n'
                || program[i] == '\t');
        assert(is_white_space(program[i]));
    }
}

/// A test is run exactly where its program is a word, its environment is accepted
/// and its directory lies in the workspace.
pub proof fn tests_are_refused_for_a_reason(
    step: TestStep,
    environment: EnvironmentSpec,
    result: Result<Seq<Seq<char>>, TestPlanError>,
)
    requires
        is_test_command(step, environment, result),
    ensures
        result is Ok <==> {
            &&& valid_program(step.command.program@)
            &&& environment.checked() is Ok
            &&& container_directory(environment.workspace@, step.working_directory@) is Some
        },
        !valid_program(step.command.program@) ==> (result matches Err(
            TestPlanError::InvalidCommand(program),
        ) && program@ == step.command.program@),
        valid_program(step.command.program@) && environment.checked() is Err ==> (result matches Err(
            TestPlanError::InvalidEnvironment(error),
        ) && environment.checked() == Err::<(), EnvironmentError>(error)),
        result is Err && environment.checked() is Ok && valid_program(step.command.program@) ==> (
        result matches Err(
            TestPlanError::InvalidEnvironment(EnvironmentError::InvalidWorkingDirectory(path)),
        ) && path@ == step.working_directory@),
{
}

/// A step stands where it stands only with an identifier of its own and a program
/// that can be run; the step that is named is the first that does not.
pub proof fn steps_are_refused_in_order(steps: Seq<TestStep>, i: int, j: int)
    ensures
        none_refused(steps) && 0 <= i < j < steps.len() ==> steps[i].id@ != steps[j].id@
            && steps[i].id@.len() > 0 && valid_program(steps[i].command.program@),
        is_first_refused(steps, i) ==> 0 <= i < steps.len() && !none_refused(steps),
        is_first_refused(steps, i) && 0 <= j < i ==> steps[j].id@.len() > 0 && valid_program(
            steps[j].command.program@,
        ),
        is_first_refused(steps, i) ==> steps[i].id@.len() == 0 || !valid_program(
            steps[i].command.program@,
        ) || exists|k: int| 0 <= k < i && (#[trigger] steps[k]).id@ == steps[i].id@,
{
    let names = ids(test_graph(steps));
    assert(names.len() == steps.len());
    if none_refused(steps) && 0 <= i < j < steps.len() {
        assert(!is_refused(steps, i));
        assert(!is_refused(steps, j));
        assert(names.take(j)[i] == steps[i].id@);
    }
    if is_first_refused(steps, i) {
        assert(is_refused(steps, i));
        if 0 <= j < i {
            assert(!is_refused(steps, j));
        }
        if names.take(i).contains(steps[i].id@) {
            let k = choose|k: int| 0 <= k < names.take(i).len() && names.take(i)[k] == steps[i].id@;
            assert(steps[k].id@ == steps[i].id@);
        }
    }
}

} // verus!
