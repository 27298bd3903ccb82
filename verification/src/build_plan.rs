//! Build plans: steps, their order, their commands and the addresses under
//! which results are cached.

use crate::bytes::{
    counted_fields, counted_fields_are_separated, field, fields_are_separated, fits, list_fits,
    push_bytes, push_field, push_fields,
};
use crate::environment::{
    container_directory, containers_see_their_workspace, environments_run_what_was_asked_for,
    outside_workspace, EnvironmentError, EnvironmentSpec,
};
use crate::execution::ExecutionRequest;
use crate::graph::{
    first_missing, first_repeat, graph_of, ids, is_closed, is_first_missing, is_first_repeat,
    is_topological, on_cycle, order_steps, step_order, Node,
};
use crate::resource::{ScopePlanError, WorkloadBudgets, WorkloadClass, WorkloadScopePlan};
use crate::sorted::{
    same_members, sort_and_dedup, sorted_unique, sorted_unique_depends_on_members_only,
};
use crate::text::{
    contains_char, copy_texts, debug_form, debug_text, ends_in, ends_in_digest, gives, hex,
    hex_has_two_digits_per_byte, hex_of, is_hex_digit, is_upper, is_white_space, join, push_text,
    push_texts, same, texts, trim, trimmed, trimmed_keeps_the_middle,
};
use vstd::prelude::*;
use vstd::seq_lib::lemma_concat_associative;
use vstd::utf8::{encode_utf8, is_ascii_chars_encode_utf8};
use sha2::{Digest, Sha256};

verus! {

/// Build systems that a step can use.
#[derive(Clone, Copy, Debug, PartialEq, Eq, Structural)]
pub enum BuildAdapter {
    /// Cargo.
    Cargo,
    /// The Go command.
    Go,
    /// A CMake build directory.
    CMake,
    /// Gradle.
    Gradle,
    /// Flutter.
    Flutter,
    /// Qt with a CMake build directory.
    Qt,
    /// npm scripts.
    Npm,
    /// pnpm scripts.
    Pnpm,
}

impl BuildAdapter {
    /// The stable identifier of an adapter.
    pub open spec fn label(self) -> Seq<char> {
        match self {
            BuildAdapter::Cargo => "cargo"@,
            BuildAdapter::Go => "go"@,
            BuildAdapter::CMake => "cmake"@,
            BuildAdapter::Gradle => "gradle"@,
            BuildAdapter::Flutter => "flutter"@,
            BuildAdapter::Qt => "qt"@,
            BuildAdapter::Npm => "npm"@,
            BuildAdapter::Pnpm => "pnpm"@,
        }
    }

    /// The program of an adapter.
    pub open spec fn program(self) -> Seq<char> {
        match self {
            BuildAdapter::Cargo => "cargo"@,
            BuildAdapter::Go => "go"@,
            BuildAdapter::CMake => "cmake"@,
            BuildAdapter::Gradle => "./gradlew"@,
            BuildAdapter::Flutter => "flutter"@,
            BuildAdapter::Qt => "cmake"@,
            BuildAdapter::Npm => "npm"@,
            BuildAdapter::Pnpm => "pnpm"@,
        }
    }

    /// The arguments of an adapter's program.
    pub open spec fn arguments(self) -> Seq<Seq<char>> {
        match self {
            BuildAdapter::Cargo => seq!["build"@],
            BuildAdapter::Go => seq!["build"@, "./..."@],
            BuildAdapter::CMake => seq!["--build"@, "build"@],
            BuildAdapter::Gradle => seq!["assemble"@],
            BuildAdapter::Flutter => seq!["build"@],
            BuildAdapter::Qt => seq!["--build"@, "build"@],
            BuildAdapter::Npm => seq!["run"@, "build"@],
            BuildAdapter::Pnpm => seq!["run"@, "build"@],
        }
    }

    /// Returns the stable identifier of an adapter.
    pub fn as_str(self) -> (text: &'static str)
        ensures
            text@ == self.label(),
    {
        match self {
            BuildAdapter::Cargo => "cargo",
            BuildAdapter::Go => "go",
            BuildAdapter::CMake => "cmake",
            BuildAdapter::Gradle => "gradle",
            BuildAdapter::Flutter => "flutter",
            BuildAdapter::Qt => "qt",
            BuildAdapter::Npm => "npm",
            BuildAdapter::Pnpm => "pnpm",
        }
    }

    /// Reads the identifier of an adapter.
    pub fn parse(value: &str) -> (adapter: Option<BuildAdapter>)
        ensures
            match adapter {
                Some(found) => value@ == found.label(),
                None => forall|other: BuildAdapter| value@ != #[trigger] other.label(),
            },
    {
        if same(value, "cargo") {
            Some(BuildAdapter::Cargo)
        } else if same(value, "go") {
            Some(BuildAdapter::Go)
        } else if same(value, "cmake") {
            Some(BuildAdapter::CMake)
        } else if same(value, "gradle") {
            Some(BuildAdapter::Gradle)
        } else if same(value, "flutter") {
            Some(BuildAdapter::Flutter)
        } else if same(value, "qt") {
            Some(BuildAdapter::Qt)
        } else if same(value, "npm") {
            Some(BuildAdapter::Npm)
        } else if same(value, "pnpm") {
            Some(BuildAdapter::Pnpm)
        } else {
            None
        }
    }

    /// Returns the command of an adapter; no shell is involved.
    pub fn default_command(self) -> (command: CommandSpec)
        ensures
            command.program@ == self.program(),
            words(command.args@) == self.arguments(),
    {
        let command = match self {
            BuildAdapter::Cargo => CommandSpec { program: "cargo", args: vec!["build"] },
            BuildAdapter::Go => CommandSpec { program: "go", args: vec!["build", "./..."] },
            BuildAdapter::CMake => CommandSpec { program: "cmake", args: vec!["--build", "build"] },
            BuildAdapter::Gradle => CommandSpec { program: "./gradlew", args: vec!["assemble"] },
            BuildAdapter::Flutter => CommandSpec { program: "flutter", args: vec!["build"] },
            BuildAdapter::Qt => CommandSpec { program: "cmake", args: vec!["--build", "build"] },
            BuildAdapter::Npm => CommandSpec { program: "npm", args: vec!["run", "build"] },
            BuildAdapter::Pnpm => CommandSpec { program: "pnpm", args: vec!["run", "build"] },
        };
        assert(words(command.args@) =~= self.arguments());
        command
    }
}

/// Different adapters have different identifiers.
pub proof fn adapter_labels_differ(a: BuildAdapter, b: BuildAdapter)
    requires
        a.label() == b.label(),
    ensures
        a == b,
{
    reveal_strlit("cargo");
    reveal_strlit("go");
    reveal_strlit("cmake");
    reveal_strlit("gradle");
    reveal_strlit("flutter");
    reveal_strlit("qt");
    reveal_strlit("npm");
    reveal_strlit("pnpm");
    assert("cargo"@.len() == 5);
    assert("go"@.len() == 2);
    assert("cmake"@.len() == 5);
    assert("gradle"@.len() == 6);
    assert("flutter"@.len() == 7);
    assert("qt"@.len() == 2);
    assert("npm"@.len() == 3);
    assert("pnpm"@.len() == 4);
    assert("cargo"@[1] != "cmake"@[1]);
    assert("go"@[0] != "qt"@[0]);
}

/// The views of a list of fixed words.
pub open spec fn words(list: Seq<&'static str>) -> Seq<Seq<char>> {
    list.map_values(|word: &'static str| word@)
}

/// A program with fixed arguments; no shell text is built.
#[derive(Clone, Debug, PartialEq, Eq)]
pub struct CommandSpec {
    /// Program, found inside the environment.
    pub program: &'static str,
    /// Arguments, one entry each.
    pub args: Vec<&'static str>,
}

impl CommandSpec {
    /// The arguments as texts of their own.
    fn arguments(&self) -> (list: Vec<String>)
        ensures
            texts(list@) == words(self.args@),
    {
        let mut list: Vec<String> = Vec::new();
        let mut i: usize = 0;
        assert(texts(list@) =~= words(self.args@).take(0));
        while i < self.args.len()
            invariant
                i <= self.args@.len(),
                texts(list@) == words(self.args@).take(i as int),
            decreases self.args.len() - i,
        {
            push_text(&mut list, self.args[i]);
            assert(words(self.args@).take(i + 1) =~= words(self.args@).take(i as int).push(
                self.args@[i as int]@,
            ));
            i = i + 1;
        }
        assert(words(self.args@).take(i as int) =~= words(self.args@));
        list
    }
}

/// One step of a build plan.
#[derive(Clone, Debug, PartialEq, Eq)]
pub struct BuildStep {
    /// Identifier within the plan.
    pub id: String,
    /// Build system of the step.
    pub adapter: BuildAdapter,
    /// Directory in which the step runs.
    pub working_directory: String,
    /// Steps that have to come first.
    pub dependencies: Vec<String>,
}

impl BuildStep {
    /// Creates a step without dependencies.
    pub fn new(id: &str, adapter: BuildAdapter, working_directory: &str) -> (step: BuildStep)
        ensures
            step.id@ == id@,
            step.adapter == adapter,
            step.working_directory@ == working_directory@,
            step.dependencies@.len() == 0,
    {
        BuildStep {
            id: id.to_owned(),
            adapter,
            working_directory: working_directory.to_owned(),
            dependencies: Vec::new(),
        }
    }

    /// Adds a dependency.
    pub fn depends_on(self, dependency: &str) -> (step: BuildStep)
        ensures
            step.id == self.id,
            step.adapter == self.adapter,
            step.working_directory == self.working_directory,
            texts(step.dependencies@) == texts(self.dependencies@).push(dependency@),
    {
        let mut dependencies = self.dependencies;
        push_text(&mut dependencies, dependency);
        BuildStep {
            id: self.id,
            adapter: self.adapter,
            working_directory: self.working_directory,
            dependencies,
        }
    }

    /// Returns the command of the step's adapter.
    pub fn command(&self) -> (command: CommandSpec)
        ensures
            command.program@ == self.adapter.program(),
            words(command.args@) == self.adapter.arguments(),
    {
        self.adapter.default_command()
    }

    /// What the command of the step is in an environment: the environment is
    /// checked first, then the working directory.
    pub open spec fn is_environment_command(
        &self,
        environment: EnvironmentSpec,
        result: Result<Seq<Seq<char>>, PlanError>,
    ) -> bool {
        match result {
            Ok(argv) => environment.checked() is Ok && container_directory(
                environment.workspace@,
                self.working_directory@,
            ) is Some && argv == environment.run_argv_at(
                container_directory(environment.workspace@, self.working_directory@)->0,
                self.adapter.program(),
                self.adapter.arguments(),
            ),
            Err(PlanError::InvalidEnvironment(error)) => environment.checked() == Err::<
                (),
                EnvironmentError,
            >(error) || (environment.checked() is Ok && outside_workspace(
                environment.workspace@,
                self.working_directory@,
                error,
            )),
            Err(_) => false,
        }
    }

    /// Builds the command of the step in an environment.
    pub fn environment_command(&self, environment: &EnvironmentSpec) -> (result: Result<
        Vec<String>,
        PlanError,
    >)
        ensures
            self.is_environment_command(*environment, argv_of(result)),
    {
        match environment.validate() {
            Ok(_) => {
                let command = self.command();
                let args = command.arguments();
                match environment.run_command_at(
                    self.working_directory.as_str(),
                    command.program,
                    args.as_slice(),
                ) {
                    Ok(argv) => Ok(argv),
                    Err(error) => Err(PlanError::InvalidEnvironment(error)),
                }
            },
            Err(error) => Err(PlanError::InvalidEnvironment(error)),
        }
    }

    /// Builds a request that runs the step in an environment.
    pub fn execution_request(&self, job_id: &str, environment: &EnvironmentSpec) -> (result: Result<
        ExecutionRequest,
        PlanError,
    >)
        ensures
            match result {
                Ok(request) => request.id@ == job_id@ && self.is_environment_command(
                    *environment,
                    Ok(texts(request.argv@)),
                ),
                Err(error) => self.is_environment_command(*environment, Err(error)),
            },
    {
        match self.environment_command(environment) {
            Ok(argv) => Ok(ExecutionRequest::from_argv(job_id, argv)),
            Err(error) => Err(error),
        }
    }

    /// Builds a request that runs the step in a resource scope. `scoped` is the
    /// command that the scope makes of the step's command in the environment.
    pub fn execution_request_with_scope(
        &self,
        job_id: &str,
        environment: &EnvironmentSpec,
        scope: &WorkloadScopePlan,
        scoped: Result<Vec<String>, ScopePlanError>,
    ) -> (result: Result<ExecutionRequest, PlanError>)
        ensures
            match result {
                Ok(request) => scope.workload == WorkloadClass::Build && (exists|argv: Seq<
                    Seq<char>,
                >| #[trigger]
                    self.is_environment_command(*environment, Ok(argv))) && scoped is Ok
                    && request.id@ == job_id@ && request.argv == scoped->Ok_0,
                Err(PlanError::WrongWorkload { expected, actual }) => scope.workload
                    != WorkloadClass::Build && expected == WorkloadClass::Build && actual
                    == scope.workload,
                Err(PlanError::InvalidScope(error)) => scope.workload == WorkloadClass::Build && (
                exists|argv: Seq<Seq<char>>| #[trigger]
                    self.is_environment_command(*environment, Ok(argv))) && scoped == Err::<
                    Vec<String>,
                    ScopePlanError,
                >(error),
                Err(error) => scope.workload == WorkloadClass::Build && self.is_environment_command(
                    *environment,
                    Err(error),
                ),
            },
    {
        if scope.workload != WorkloadClass::Build {
            return Err(
                PlanError::WrongWorkload {
                    expected: WorkloadClass::Build,
                    actual: scope.workload,
                },
            );
        }
        match self.environment_command(environment) {
            Ok(argv) => {
                assert(self.is_environment_command(*environment, Ok(texts(argv@))));
                match scoped {
                    Ok(command) => Ok(ExecutionRequest::from_argv(job_id, command)),
                    Err(error) => Err(PlanError::InvalidScope(error)),
                }
            },
            Err(error) => Err(error),
        }
    }
}

/// The argument vector inside a result.
pub open spec fn argv_of(result: Result<Vec<String>, PlanError>) -> Result<
    Seq<Seq<char>>,
    PlanError,
> {
    match result {
        Ok(argv) => Ok(texts(argv@)),
        Err(error) => Err(error),
    }
}

/// A list of build steps.
#[derive(Clone, Debug, PartialEq, Eq)]
pub struct BuildPlan {
    steps: Vec<BuildStep>,
}

/// The identifiers and dependencies of a list of build steps.
pub open spec fn build_graph(steps: Seq<BuildStep>) -> Seq<(Seq<char>, Seq<Seq<char>>)> {
    steps.map_values(|step: BuildStep| (step.id@, texts(step.dependencies@)))
}

impl View for BuildPlan {
    type V = Seq<BuildStep>;

    closed spec fn view(&self) -> Seq<BuildStep> {
        self.steps@
    }
}

impl Default for BuildPlan {
    fn default() -> (plan: BuildPlan)
        ensures
            plan@ == Seq::<BuildStep>::empty(),
    {
        BuildPlan::new()
    }
}

impl BuildPlan {
    /// Creates an empty plan.
    pub fn new() -> (plan: BuildPlan)
        ensures
            plan@ == Seq::<BuildStep>::empty(),
    {
        BuildPlan { steps: Vec::new() }
    }

    /// Adds a step.
    pub fn push(&mut self, step: BuildStep)
        ensures
            final(self)@ == old(self)@.push(step),
    {
        self.steps.push(step);
    }

    /// Returns the steps in the order in which they were added.
    pub fn steps(&self) -> (steps: &[BuildStep])
        ensures
            steps@ == self@,
    {
        self.steps.as_slice()
    }

    /// Orders the steps so that each one follows what it depends on. Repeated
    /// identifiers are refused first, then dependencies that are no step, then
    /// cycles.
    pub fn execution_order(&self) -> (result: Result<Vec<String>, PlanError>)
        ensures
            match result {
                Ok(order) => ids(build_graph(self@)).no_duplicates() && is_closed(build_graph(self@))
                    && step_order(build_graph(self@)) == Ok::<Seq<Seq<char>>, Seq<char>>(
                    texts(order@),
                ) && is_topological(build_graph(self@), texts(order@)),
                Err(PlanError::DuplicateStep(id)) => exists|i: int| #[trigger]
                    is_first_repeat(ids(build_graph(self@)), i) && id@ == ids(
                        build_graph(self@),
                    )[i],
                Err(PlanError::UnknownDependency { step, dependency }) => ids(
                    build_graph(self@),
                ).no_duplicates() && exists|i: int, j: int| #[trigger]
                    is_first_missing(build_graph(self@), i, j) && step@ == build_graph(self@)[i].0
                        && dependency@ == build_graph(self@)[i].1[j],
                Err(PlanError::Cycle(id)) => ids(build_graph(self@)).no_duplicates() && is_closed(
                    build_graph(self@),
                ) && step_order(build_graph(self@)) == Err::<Seq<Seq<char>>, Seq<char>>(id@)
                    && on_cycle(build_graph(self@), id@),
                Err(_) => false,
            },
    {
        let ghost graph = build_graph(self@);
        let mut nodes: Vec<Node> = Vec::new();
        let mut k: usize = 0;
        assert(graph_of(nodes@) =~= graph.take(0));
        while k < self.steps.len()
            invariant
                k <= self.steps@.len(),
                graph == build_graph(self.steps@),
                graph_of(nodes@) == graph.take(k as int),
            decreases self.steps.len() - k,
        {
            let step = &self.steps[k];
            let ghost before = nodes@;
            nodes.push(
                Node { id: step.id.clone(), dependencies: copy_texts(&step.dependencies) },
            );
            assert(graph_of(nodes@) =~= graph_of(before).push(
                (step.id@, texts(step.dependencies@)),
            ));
            assert(graph.take(k + 1) =~= graph.take(k as int).push(graph[k as int]));
            k = k + 1;
        }
        assert(graph.take(k as int) =~= graph);
        if let Some(i) = first_repeat(&nodes) {
            assert(ids(graph)[i as int] == nodes@[i as int].id@);
            return Err(PlanError::DuplicateStep(nodes[i].id.clone()));
        }
        if let Some((i, j)) = first_missing(&nodes) {
            assert(graph[i as int].0 == nodes@[i as int].id@);
            assert(graph[i as int].1 == texts(nodes@[i as int].dependencies@));
            return Err(
                PlanError::UnknownDependency {
                    step: nodes[i].id.clone(),
                    dependency: nodes[i].dependencies[j].clone(),
                },
            );
        }
        match order_steps(&nodes) {
            Ok(order) => Ok(order),
            Err(id) => Err(PlanError::Cycle(id)),
        }
    }

    /// Returns how many build workers the budgets allow.
    pub fn recommended_workers(&self, budgets: &WorkloadBudgets) -> (workers: u16)
        ensures
            workers == budgets.of(WorkloadClass::Build).max_workers,
    {
        budgets.workload_budget(WorkloadClass::Build).max_workers
    }
}

/// Why a plan, a command or a cache descriptor is refused.
#[derive(Clone, Debug, PartialEq, Eq)]
pub enum PlanError {
    /// Two steps have the same identifier.
    DuplicateStep(String),
    /// A step depends on something that is no step.
    UnknownDependency {
        /// The step.
        step: String,
        /// What it depends on.
        dependency: String,
    },
    /// A step depends on itself.
    Cycle(String),
    /// The environment or the working directory is refused.
    InvalidEnvironment(EnvironmentError),
    /// The image of the environment is not settled by a digest.
    UnpinnedEnvironment(String),
    /// The source fingerprint is blank or holds a zero character.
    InvalidCacheFingerprint(String),
    /// The scope is meant for another kind of work.
    WrongWorkload {
        /// What the step needs.
        expected: WorkloadClass,
        /// What the scope is for.
        actual: WorkloadClass,
    },
    /// The scope cannot be turned into a command.
    InvalidScope(ScopePlanError),
}

impl PlanError {
    /// The message for people.
    pub open spec fn text(&self) -> Seq<char> {
        match self {
            PlanError::DuplicateStep(id) => "duplicate build step "@ + debug_form(id@),
            PlanError::UnknownDependency { step, dependency } => "build step "@ + debug_form(step@)
                + " depends on missing step "@ + debug_form(dependency@),
            PlanError::Cycle(id) => "build dependency cycle includes "@ + debug_form(id@),
            PlanError::InvalidEnvironment(error) => "invalid build environment: "@ + error.text(),
            PlanError::UnpinnedEnvironment(image) =>
                "build cache environment image is not digest pinned: "@ + debug_form(image@),
            PlanError::InvalidCacheFingerprint(fingerprint) =>
                "invalid build cache source fingerprint "@ + debug_form(fingerprint@),
            PlanError::WrongWorkload { expected, actual } => "build scope workload is "@
                + actual.label() + ", expected "@ + expected.label(),
            PlanError::InvalidScope(error) => "invalid build scope: "@ + error.reason@,
        }
    }

    /// Returns the message for people.
    pub fn message(&self) -> (message: String)
        ensures
            message@ == self.text(),
    {
        match self {
            PlanError::DuplicateStep(id) => join(
                "duplicate build step ",
                debug_text(id.as_str()).as_str(),
            ),
            PlanError::UnknownDependency { step, dependency } => {
                let mut message = join("build step ", debug_text(step.as_str()).as_str());
                message.append(" depends on missing step ");
                message.append(debug_text(dependency.as_str()).as_str());
                message
            },
            PlanError::Cycle(id) => join(
                "build dependency cycle includes ",
                debug_text(id.as_str()).as_str(),
            ),
            PlanError::InvalidEnvironment(error) => join(
                "invalid build environment: ",
                error.message().as_str(),
            ),
            PlanError::UnpinnedEnvironment(image) => join(
                "build cache environment image is not digest pinned: ",
                debug_text(image.as_str()).as_str(),
            ),
            PlanError::InvalidCacheFingerprint(fingerprint) => join(
                "invalid build cache source fingerprint ",
                debug_text(fingerprint.as_str()).as_str(),
            ),
            PlanError::WrongWorkload { expected, actual } => {
                let mut message = join("build scope workload is ", actual.as_str());
                message.append(", expected ");
                message.append(expected.as_str());
                message
            },
            PlanError::InvalidScope(error) => join("invalid build scope: ", error.reason.as_str()),
        }
    }
}

/// The inputs that settle the result of one build step.
#[derive(Clone, Debug, PartialEq, Eq)]
pub struct BuildCacheDescriptor {
    environment_image: String,
    source_fingerprint: String,
    step_id: String,
    adapter: BuildAdapter,
    argv: Vec<String>,
    dependencies: Vec<String>,
}

/// The inputs of a descriptor as mathematical values.
pub struct CacheInputs {
    /// Image of the environment.
    pub image: Seq<char>,
    /// Fingerprint of the sources.
    pub fingerprint: Seq<char>,
    /// Identifier of the step.
    pub step: Seq<char>,
    /// Build system of the step.
    pub adapter: BuildAdapter,
    /// Command of the step.
    pub argv: Seq<Seq<char>>,
    /// Dependencies of the step, sorted, each once.
    pub dependencies: Seq<Seq<char>>,
}

impl View for BuildCacheDescriptor {
    type V = CacheInputs;

    closed spec fn view(&self) -> CacheInputs {
        CacheInputs {
            image: self.environment_image@,
            fingerprint: self.source_fingerprint@,
            step: self.step_id@,
            adapter: self.adapter,
            argv: texts(self.argv@),
            dependencies: texts(self.dependencies@),
        }
    }
}

/// The bytes `devcore-build-cache-v1`.
pub open spec fn cache_domain() -> Seq<u8> {
    encode_utf8("devcore-build-cache-v1"@)
}

/// The bytes whose digest is the address of a build result.
pub open spec fn preimage(inputs: CacheInputs) -> Seq<u8> {
    cache_domain() + field(inputs.image) + field(inputs.fingerprint) + field(inputs.step) + field(
        inputs.adapter.label(),
    ) + counted_fields(inputs.argv) + counted_fields(inputs.dependencies)
}

/// The lengths of all inputs fit in 64 bits.
pub open spec fn inputs_fit(inputs: CacheInputs) -> bool {
    fits(inputs.image) && fits(inputs.fingerprint) && fits(inputs.step) && list_fits(inputs.argv)
        && list_fits(inputs.dependencies)
}

/// A fingerprint that a descriptor can carry: not blank, and without a zero
/// character.
pub open spec fn valid_fingerprint(fingerprint: Seq<char>) -> bool {
    trimmed(fingerprint).len() > 0 && !fingerprint.contains('\0')
}

proof fn lemma_regroup(
    p: Seq<u8>,
    a: Seq<u8>,
    b: Seq<u8>,
    c: Seq<u8>,
    d: Seq<u8>,
    e: Seq<u8>,
    f: Seq<u8>,
)
    ensures
        p + a + b + c + d + e + f == p + (a + (b + (c + (d + (e + f))))),
{
    lemma_concat_associative(p + a + b + c + d, e, f);
    lemma_concat_associative(p + a + b + c, d, e + f);
    lemma_concat_associative(p + a + b, c, d + (e + f));
    lemma_concat_associative(p + a, b, c + (d + (e + f)));
    lemma_concat_associative(p, a, b + (c + (d + (e + f))));
}

proof fn lemma_same_front(front: Seq<u8>, x: Seq<u8>, y: Seq<u8>)
    requires
        front + x == front + y,
    ensures
        x == y,
{
    assert((front + x).skip(front.len() as int) =~= x);
    assert((front + y).skip(front.len() as int) =~= y);
}

/// Different inputs never share the bytes that are hashed.
pub proof fn cache_inputs_are_separated(a: CacheInputs, b: CacheInputs)
    requires
        inputs_fit(a),
        inputs_fit(b),
        preimage(a) == preimage(b),
    ensures
        a == b,
{
    let a5 = counted_fields(a.dependencies);
    let b5 = counted_fields(b.dependencies);
    let a4 = counted_fields(a.argv) + a5;
    let b4 = counted_fields(b.argv) + b5;
    let a3 = field(a.adapter.label()) + a4;
    let b3 = field(b.adapter.label()) + b4;
    let a2 = field(a.step) + a3;
    let b2 = field(b.step) + b3;
    let a1 = field(a.fingerprint) + a2;
    let b1 = field(b.fingerprint) + b2;
    lemma_regroup(
        cache_domain(),
        field(a.image),
        field(a.fingerprint),
        field(a.step),
        field(a.adapter.label()),
        counted_fields(a.argv),
        a5,
    );
    lemma_regroup(
        cache_domain(),
        field(b.image),
        field(b.fingerprint),
        field(b.step),
        field(b.adapter.label()),
        counted_fields(b.argv),
        b5,
    );
    lemma_same_front(cache_domain(), field(a.image) + a1, field(b.image) + b1);
    fields_are_separated(a.image, b.image, a1, b1);
    fields_are_separated(a.fingerprint, b.fingerprint, a2, b2);
    fields_are_separated(a.step, b.step, a3, b3);
    lemma_adapter_labels_fit(a.adapter);
    lemma_adapter_labels_fit(b.adapter);
    fields_are_separated(a.adapter.label(), b.adapter.label(), a4, b4);
    adapter_labels_differ(a.adapter, b.adapter);
    counted_fields_are_separated(a.argv, b.argv, a5, b5);
    assert(a5 + Seq::<u8>::empty() =~= a5);
    assert(b5 + Seq::<u8>::empty() =~= b5);
    counted_fields_are_separated(a.dependencies, b.dependencies, Seq::empty(), Seq::empty());
}

proof fn lemma_adapter_labels_fit(adapter: BuildAdapter)
    ensures
        fits(adapter.label()),
{
    reveal_strlit("cargo");
    reveal_strlit("go");
    reveal_strlit("cmake");
    reveal_strlit("gradle");
    reveal_strlit("flutter");
    reveal_strlit("qt");
    reveal_strlit("npm");
    reveal_strlit("pnpm");
    is_ascii_chars_encode_utf8(adapter.label());
}

/// Repeating or reordering the dependencies of a step changes nothing about
/// the inputs of its result.
pub proof fn dependency_lists_are_canonical(a: Seq<Seq<char>>, b: Seq<Seq<char>>)
    requires
        same_members(a, b),
    ensures
        sorted_unique(a) == sorted_unique(b),
{
    sorted_unique_depends_on_members_only(a, b);
}

/// What SHA-256 makes of a list of bytes.
pub uninterp spec fn sha256_of(bytes: Seq<u8>) -> Seq<u8>;

/// Computes the SHA-256 digest of a list of bytes.
///
/// Trusted: `sha2::Sha256::digest` is a function of the bytes that it is given,
/// and its digest has 32 bytes. The bound keeps the message length that the
/// digest counts in bits within 64 bits. Which digest it is is left unsaid.
#[verifier::external_body]
fn sha256(bytes: &Vec<u8>) -> (digest: Vec<u8>)
    requires
        bytes@.len() < 0x2000_0000_0000_0000,
    ensures
        digest@ == sha256_of(bytes@),
        digest@.len() == 32,
{
    Sha256::digest(bytes).to_vec()
}

/// What the result of a step in an environment depends on.
pub open spec fn inputs_of(
    environment: EnvironmentSpec,
    step: BuildStep,
    fingerprint: Seq<char>,
) -> CacheInputs {
    CacheInputs {
        image: environment.image@,
        fingerprint,
        step: step.id@,
        adapter: step.adapter,
        argv: seq![step.adapter.program()] + step.adapter.arguments(),
        dependencies: sorted_unique(texts(step.dependencies@)),
    }
}

impl BuildCacheDescriptor {
    /// Describes the result of a step in an environment. The environment is
    /// checked first, then whether its image is settled by a digest, then the
    /// fingerprint.
    pub fn from_step(
        environment: &EnvironmentSpec,
        step: &BuildStep,
        source_fingerprint: &str,
    ) -> (result: Result<BuildCacheDescriptor, PlanError>)
        ensures
            match result {
                Ok(descriptor) => environment.checked() is Ok && ends_in_digest(environment.image@)
                    && valid_fingerprint(source_fingerprint@) && descriptor@ == inputs_of(
                    *environment,
                    *step,
                    source_fingerprint@,
                ),
                Err(PlanError::InvalidEnvironment(error)) => environment.checked() == Err::<
                    (),
                    EnvironmentError,
                >(error),
                Err(PlanError::UnpinnedEnvironment(image)) => environment.checked() is Ok
                    && !ends_in_digest(environment.image@) && image@ == environment.image@,
                Err(PlanError::InvalidCacheFingerprint(text)) => environment.checked() is Ok
                    && ends_in_digest(environment.image@) && !valid_fingerprint(source_fingerprint@)
                    && text@ == source_fingerprint@,
                Err(_) => false,
            },
    {
        match environment.validate() {
            Ok(_) => {},
            Err(error) => {
                return Err(PlanError::InvalidEnvironment(error));
            },
        }
        if !environment.is_digest_pinned() {
            return Err(PlanError::UnpinnedEnvironment(environment.image.clone()));
        }
        if trim(source_fingerprint).as_str().is_empty() || contains_char(source_fingerprint, '\0') {
            return Err(PlanError::InvalidCacheFingerprint(source_fingerprint.to_owned()));
        }
        let command = step.command();
        let args = command.arguments();
        let mut argv: Vec<String> = Vec::new();
        push_text(&mut argv, command.program);
        push_texts(&mut argv, args.as_slice());
        assert(texts(argv@) =~= seq![step.adapter.program()] + step.adapter.arguments());
        Ok(
            BuildCacheDescriptor {
                environment_image: environment.image.clone(),
                source_fingerprint: source_fingerprint.to_owned(),
                step_id: step.id.clone(),
                adapter: step.adapter,
                argv,
                dependencies: sort_and_dedup(&step.dependencies),
            },
        )
    }

    /// The bytes whose digest is the address.
    pub fn key_material(&self) -> (bytes: Vec<u8>)
        ensures
            bytes@ == preimage(self@),
    {
        let mut bytes: Vec<u8> = Vec::new();
        push_bytes(&mut bytes, "devcore-build-cache-v1".as_bytes());
        assert(bytes@ =~= cache_domain());
        push_field(&mut bytes, self.environment_image.as_str());
        push_field(&mut bytes, self.source_fingerprint.as_str());
        push_field(&mut bytes, self.step_id.as_str());
        push_field(&mut bytes, self.adapter.as_str());
        push_fields(&mut bytes, &self.argv);
        push_fields(&mut bytes, &self.dependencies);
        bytes
    }

    /// Returns the address of the result: the SHA-256 digest of the inputs.
    pub fn key(&self) -> (key: BuildCacheKey)
        requires
            preimage(self@).len() < 0x2000_0000_0000_0000,
        ensures
            key@ == hex_of(sha256_of(preimage(self@))),
            key@.len() == 64,
            forall|i: int|
                0 <= i < key@.len() ==> is_hex_digit(#[trigger] key@[i]) && !is_upper(key@[i]),
    {
        let bytes = self.key_material();
        let digest = sha256(&bytes);
        proof {
            hex_has_two_digits_per_byte(digest@);
        }
        BuildCacheKey::from_digest(&digest)
    }
}

/// Address of a build result.
#[derive(Clone, Debug, PartialEq, Eq, PartialOrd, Ord, Hash)]
pub struct BuildCacheKey(String);

impl View for BuildCacheKey {
    type V = Seq<char>;

    closed spec fn view(&self) -> Seq<char> {
        self.0@
    }
}

impl BuildCacheKey {
    /// The address that a digest stands for.
    pub fn from_digest(digest: &Vec<u8>) -> (key: BuildCacheKey)
        ensures
            key@ == hex_of(digest@),
    {
        BuildCacheKey(hex(digest))
    }

    /// Returns the hexadecimal digits of the address.
    pub fn as_str(&self) -> (text: &str)
        ensures
            text@ == self@,
    {
        self.0.as_str()
    }
}

/// Each adapter builds with the tool of its ecosystem. The tool has the name of
/// the adapter, but for Gradle, which is run through the wrapper of the project,
/// and Qt, which is built as CMake is. The tool is told to build: CMake in its
/// build directory, packages by the script of that name, Go in all packages.
pub proof fn adapters_build_with_their_tool(adapter: BuildAdapter)
    ensures
        adapter != BuildAdapter::Gradle && adapter != BuildAdapter::Qt ==> adapter.program()
            == adapter.label(),
        BuildAdapter::Gradle.program() == "./gradlew"@,
        BuildAdapter::Qt.program() == BuildAdapter::CMake.program(),
        BuildAdapter::Qt.arguments() == BuildAdapter::CMake.arguments(),
        BuildAdapter::Npm.arguments() == BuildAdapter::Pnpm.arguments(),
        BuildAdapter::Flutter.arguments() == BuildAdapter::Cargo.arguments(),
        gives(BuildAdapter::CMake.arguments(), "--build"@, "build"@),
        gives(BuildAdapter::Npm.arguments(), "run"@, "build"@),
        gives(BuildAdapter::Go.arguments(), "build"@, "./..."@),
        BuildAdapter::Cargo.arguments() == seq!["build"@],
        BuildAdapter::Gradle.arguments() == seq!["assemble"@],
        adapter.arguments().len() <= 2,
{
    assert(BuildAdapter::CMake.arguments()[0] == "--build"@);
    assert(BuildAdapter::Npm.arguments()[0] == "run"@);
    assert(BuildAdapter::Go.arguments()[0] == "build"@);
}

/// The words by which adapters are asked for.
pub proof fn adapter_words_are_stable()
    ensures
        BuildAdapter::Cargo.label() == "cargo"@,
        BuildAdapter::Go.label() == "go"@,
        BuildAdapter::CMake.label() == "cmake"@,
        BuildAdapter::Gradle.label() == "gradle"@,
        BuildAdapter::Flutter.label() == "flutter"@,
        BuildAdapter::Qt.label() == "qt"@,
        BuildAdapter::Npm.label() == "npm"@,
        BuildAdapter::Pnpm.label() == "pnpm"@,
{
}

/// A build runs in its environment: in a container of its image that is removed
/// afterwards, in the directory of the step, with the tool of the adapter and
/// nothing behind its arguments.
pub proof fn builds_run_in_their_environment(
    step: BuildStep,
    environment: EnvironmentSpec,
    argv: Seq<Seq<char>>,
)
    requires
        step.is_environment_command(environment, Ok(argv)),
    ensures
        environment.checked() is Ok,
        ends_in(
            argv,
            seq![environment.image@, step.adapter.program()] + step.adapter.arguments(),
        ),
        argv.take(2) == seq!["podman"@, "run"@],
        argv.contains("--rm"@),
        gives(
            argv,
            "--workdir"@,
            container_directory(environment.workspace@, step.working_directory@)->0,
        ),
        gives(
            argv,
            "--mount"@,
            "type=bind,src="@ + environment.workspace@ + ",dst=/workspace,relabel=private"@,
        ),
{
    let directory = container_directory(environment.workspace@, step.working_directory@)->0;
    environments_run_what_was_asked_for(
        environment,
        directory,
        step.adapter.program(),
        step.adapter.arguments(),
    );
    containers_see_their_workspace(
        environment,
        directory,
        step.adapter.program(),
        step.adapter.arguments(),
    );
}

/// The address of a result depends on everything that the result depends on: two
/// steps with one address were built from the same image and the same sources,
/// under the same name, by the same adapter and command, after the same steps;
/// and the order in which those were named does not matter.
pub proof fn addresses_depend_on_every_input(
    a: EnvironmentSpec,
    x: BuildStep,
    source_a: Seq<char>,
    b: EnvironmentSpec,
    y: BuildStep,
    source_b: Seq<char>,
)
    requires
        inputs_fit(inputs_of(a, x, source_a)),
        inputs_fit(inputs_of(b, y, source_b)),
    ensures
        preimage(inputs_of(a, x, source_a)) == preimage(inputs_of(b, y, source_b)) ==> a.image@
            == b.image@ && source_a == source_b && x.id@ == y.id@ && x.adapter == y.adapter
            && sorted_unique(texts(x.dependencies@)) == sorted_unique(texts(y.dependencies@)),
        a.image@ == b.image@ && source_a == source_b && x.id@ == y.id@ && x.adapter == y.adapter
            && same_members(texts(x.dependencies@), texts(y.dependencies@)) ==> preimage(
            inputs_of(a, x, source_a),
        ) == preimage(inputs_of(b, y, source_b)),
        inputs_of(a, x, source_a).argv[0] == x.adapter.program(),
{
    if preimage(inputs_of(a, x, source_a)) == preimage(inputs_of(b, y, source_b)) {
        cache_inputs_are_separated(inputs_of(a, x, source_a), inputs_of(b, y, source_b));
    }
    if same_members(texts(x.dependencies@), texts(y.dependencies@)) {
        dependency_lists_are_canonical(texts(x.dependencies@), texts(y.dependencies@));
    }
}

/// A fingerprint of sources says something and holds no zero byte.
pub proof fn fingerprints_say_something(fingerprint: Seq<char>)
    ensures
        !valid_fingerprint(""@),
        !valid_fingerprint("  "@),
        fingerprint.contains('\0') ==> !valid_fingerprint(fingerprint),
        fingerprint.len() > 0 && (forall|i: int|
            0 <= i < fingerprint.len() ==> '!' <= #[trigger] fingerprint[i] <= '~')
            ==> valid_fingerprint(fingerprint),
{
    reveal_strlit("");
    reveal_strlit("  ");
    trimmed_keeps_the_middle(fingerprint);
    trimmed_keeps_the_middle(""@);
    trimmed_keeps_the_middle("  "@);
}

/// A build is run exactly where its environment is accepted and its directory lies
/// in the workspace.
pub proof fn builds_are_refused_for_a_reason(
    step: BuildStep,
    environment: EnvironmentSpec,
    result: Result<Seq<Seq<char>>, PlanError>,
)
    requires
        step.is_environment_command(environment, result),
    ensures
        result is Ok <==> environment.checked() is Ok && container_directory(
            environment.workspace@,
            step.working_directory@,
        ) is Some,
        environment.checked() is Err ==> (result matches Err(PlanError::InvalidEnvironment(error))
            && environment.checked() == Err::<(), EnvironmentError>(error)),
        result is Err && environment.checked() is Ok ==> (result matches Err(
            PlanError::InvalidEnvironment(EnvironmentError::InvalidWorkingDirectory(path)),
        ) && path@ == step.working_directory@),
{
}

/// A fingerprint is one that says anything at all and holds no zero character.
pub proof fn blank_fingerprints_are_refused(fingerprint: Seq<char>)
    ensures
        valid_fingerprint(fingerprint) <==> !fingerprint.contains('\0') && exists|i: int|
            0 <= i < fingerprint.len() && !is_white_space(#[trigger] fingerprint[i]),
{
    trimmed_keeps_the_middle(fingerprint);
}

} // verus!
