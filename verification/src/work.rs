//! Work in a user session: the environments that are known, and the jobs that
//! are started in them.
//!
//! Only environments whose image is settled by a digest are taken up. Jobs are
//! typed requests; what they run is decided here, never by a shell.

use crate::build_plan::{BuildAdapter, BuildStep, PlanError};
use crate::environment::{
    container_directory, containers_see_their_workspace, environments_run_what_was_asked_for,
    outside_workspace, EnvironmentError, EnvironmentSpec, NetworkPolicy, Toolchain,
};
use crate::execution::ExecutionRequest;
use crate::path::{components, join_path, joined, joins_have_one_separator, path_components};
use crate::resource::{ScopePlanError, WorkloadClass};
use crate::test_plan::{is_test_command, TestCommand, TestKind, TestPlanError, TestStep};
use crate::text::{
    copy_texts, debug_form, debug_text, ends_in, ends_in_digest, gives, join, optional_text,
    push_text, same, texts,
};
use vstd::prelude::*;

verus! {

/// Why work is refused.
#[derive(Clone, Debug, PartialEq, Eq)]
pub enum WorkError {
    /// A value is not accepted.
    InvalidValue(String),
    /// Another environment has the name.
    DuplicateEnvironment(String),
    /// No environment has the name.
    UnknownEnvironment(String),
    /// The environment refuses the command.
    Environment(EnvironmentError),
    /// The build step is refused.
    Build(PlanError),
    /// The test step is refused.
    Test(TestPlanError),
    /// There is no resource scope for the job.
    Scope(ScopePlanError),
    /// The job could not be started or found.
    Coordinator(String),
    /// A workspace file is refused.
    WorkspaceFile(String),
}

impl WorkError {
    /// The message for people.
    pub open spec fn text(&self) -> Seq<char> {
        match self {
            WorkError::InvalidValue(value) => value@,
            WorkError::DuplicateEnvironment(name) => "environment "@ + debug_form(name@)
                + " is already defined"@,
            WorkError::UnknownEnvironment(name) => "unknown environment "@ + debug_form(name@),
            WorkError::Environment(error) => error.text(),
            WorkError::Build(error) => error.text(),
            WorkError::Test(error) => error.text(),
            WorkError::Scope(error) => error.reason@,
            WorkError::Coordinator(message) => message@,
            WorkError::WorkspaceFile(message) => message@,
        }
    }

    /// Returns the message for people.
    pub fn message(&self) -> (message: String)
        ensures
            message@ == self.text(),
    {
        match self {
            WorkError::InvalidValue(value) => value.clone(),
            WorkError::DuplicateEnvironment(name) => {
                let mut message = join("environment ", debug_text(name.as_str()).as_str());
                message.append(" is already defined");
                message
            },
            WorkError::UnknownEnvironment(name) => join(
                "unknown environment ",
                debug_text(name.as_str()).as_str(),
            ),
            WorkError::Environment(error) => error.message(),
            WorkError::Build(error) => error.message(),
            WorkError::Test(error) => error.message(),
            WorkError::Scope(error) => error.reason.clone(),
            WorkError::Coordinator(message) => message.clone(),
            WorkError::WorkspaceFile(message) => message.clone(),
        }
    }
}

/// A test as it is asked for.
#[derive(Clone, Debug, PartialEq, Eq)]
pub struct TestSubmission {
    /// Identifier of the step.
    pub step_id: String,
    /// Identifier of the kind of test.
    pub kind: String,
    /// Program.
    pub program: String,
    /// Arguments of the program.
    pub args: Vec<String>,
    /// Directory of the host, in the workspace.
    pub working_directory: String,
}

/// A job to be started, with the class of its resource scope.
#[derive(Clone, Debug, PartialEq, Eq)]
pub struct PlannedJob {
    /// What is run.
    pub request: ExecutionRequest,
    /// Class of the work.
    pub workload: WorkloadClass,
}

/// The environments that are known.
#[derive(Clone, Debug)]
pub struct WorkState {
    environments: Vec<EnvironmentSpec>,
}

/// The first environment of a list with a name.
pub open spec fn named(list: Seq<EnvironmentSpec>, name: Seq<char>) -> Option<EnvironmentSpec>
    decreases list.len(),
{
    if list.len() == 0 {
        None
    } else {
        match named(list.drop_last(), name) {
            Some(environment) => Some(environment),
            None => if list.last().name@ == name {
                Some(list.last())
            } else {
                None
            },
        }
    }
}

impl View for WorkState {
    type V = Map<Seq<char>, EnvironmentSpec>;

    closed spec fn view(&self) -> Map<Seq<char>, EnvironmentSpec> {
        Map::new(
            |name: Seq<char>| named(self.environments@, name) is Some,
            |name: Seq<char>| named(self.environments@, name)->0,
        )
    }
}

/// Two definitions of the same environment. Workspaces are the same where their
/// components are.
pub open spec fn same_definition(a: EnvironmentSpec, b: EnvironmentSpec) -> bool {
    &&& a.name@ == b.name@
    &&& a.image@ == b.image@
    &&& components(a.workspace@) == components(b.workspace@)
    &&& a.toolchains@ == b.toolchains@
    &&& a.network == b.network
}

fn same_toolchains(a: &Vec<Toolchain>, b: &Vec<Toolchain>) -> (result: bool)
    ensures
        result == (a@ == b@),
{
    if a.len() != b.len() {
        return false;
    }
    let mut i: usize = 0;
    while i < a.len()
        invariant
            i <= a@.len(),
            a@.len() == b@.len(),
            forall|k: int| 0 <= k < i ==> a@[k] == b@[k],
        decreases a.len() - i,
    {
        if a[i] != b[i] {
            assert(a@[i as int] != b@[i as int]);
            return false;
        }
        i = i + 1;
    }
    assert(a@ =~= b@);
    true
}

fn same_path(a: &str, b: &str) -> (result: bool)
    ensures
        result == (components(a@) == components(b@)),
{
    let left = path_components(a);
    let right = path_components(b);
    let ghost all_left = components(a@);
    let ghost all_right = components(b@);
    if left.len() != right.len() {
        assert(all_left.len() != all_right.len());
        return false;
    }
    let mut i: usize = 0;
    while i < left.len()
        invariant
            i <= left@.len(),
            left@.len() == right@.len(),
            all_left == texts(left@),
            all_right == texts(right@),
            all_left == components(a@),
            all_right == components(b@),
            forall|k: int| 0 <= k < i ==> all_left[k] == all_right[k],
        decreases left.len() - i,
    {
        if !same(left[i].as_str(), right[i].as_str()) {
            assert(all_left[i as int] != all_right[i as int]);
            return false;
        }
        i = i + 1;
    }
    assert(all_left =~= all_right);
    true
}

fn is_same_definition(a: &EnvironmentSpec, b: &EnvironmentSpec) -> (result: bool)
    ensures
        result == same_definition(*a, *b),
{
    same(a.name.as_str(), b.name.as_str()) && same(a.image.as_str(), b.image.as_str()) && same_path(
        a.workspace.as_str(),
        b.workspace.as_str(),
    ) && same_toolchains(&a.toolchains, &b.toolchains) && a.network == b.network
}

proof fn lemma_named_in_prefix(list: Seq<EnvironmentSpec>, name: Seq<char>, n: int)
    requires
        0 <= n < list.len(),
        named(list.take(n), name) is None,
        list[n].name@ == name,
    ensures
        named(list, name) == Some(list[n]),
    decreases list.len(),
{
    if n == list.len() - 1 {
        assert(list.take(n) =~= list.drop_last());
    } else {
        assert(list.drop_last().take(n) =~= list.take(n));
        lemma_named_in_prefix(list.drop_last(), name, n);
    }
}

/// The words that ask for the state of a repository.
pub open spec fn git_status_words() -> Seq<Seq<char>> {
    seq!["status"@, "--short"@, "--branch"@]
}

/// The words that ask for the changes in a repository.
pub open spec fn git_diff_words() -> Seq<Seq<char>> {
    seq!["diff"@, "--no-color"@, "--no-ext-diff"@]
}

/// The words that ask for the last changes that were recorded.
pub open spec fn git_history_words() -> Seq<Seq<char>> {
    seq!["log"@, "--oneline"@, "--decorate"@, "--no-color"@, "-n"@, "20"@]
}

impl WorkState {
    /// A state without environments.
    pub fn new() -> (state: WorkState)
        ensures
            state@ == Map::<Seq<char>, EnvironmentSpec>::empty(),
    {
        let state = WorkState { environments: Vec::new() };
        assert(state@ =~= Map::<Seq<char>, EnvironmentSpec>::empty());
        state
    }

    /// Every environment stands under its name and has an image that is settled
    /// by a digest.
    pub open spec fn wf(&self) -> bool {
        forall|name: Seq<char>| #[trigger]
            self@.contains_key(name) ==> self@[name].name@ == name && ends_in_digest(
                self@[name].image@,
            )
    }

    fn find(&self, name: &str) -> (found: Option<&EnvironmentSpec>)
        ensures
            match found {
                Some(environment) => self@.contains_key(name@) && *environment == self@[name@],
                None => !self@.contains_key(name@),
            },
    {
        let list = &self.environments;
        let mut i: usize = 0;
        assert(list@.take(0) =~= Seq::empty());
        while i < list.len()
            invariant
                i <= list@.len(),
                list == self.environments,
                named(list@.take(i as int), name@) is None,
            decreases list.len() - i,
        {
            if same(list[i].name.as_str(), name) {
                proof {
                    lemma_named_in_prefix(list@, name@, i as int);
                }
                return Some(&list[i]);
            }
            assert(list@.take(i + 1).drop_last() =~= list@.take(i as int));
            i = i + 1;
        }
        assert(list@.take(i as int) =~= list@);
        None
    }

    /// Takes up an environment under a new name.
    pub fn define_environment(&mut self, environment: EnvironmentSpec) -> (result: Result<
        (),
        WorkError,
    >)
        ensures
            match result {
                Ok(_) => ends_in_digest(environment.image@) && !old(self)@.contains_key(
                    environment.name@,
                ) && final(self)@ == old(self)@.insert(environment.name@, environment),
                Err(WorkError::InvalidValue(message)) => !ends_in_digest(environment.image@)
                    && message@ == "environment image must be digest pinned"@ && *final(self)
                    == *old(self),
                Err(WorkError::DuplicateEnvironment(name)) => ends_in_digest(environment.image@)
                    && old(self)@.contains_key(environment.name@) && name@ == environment.name@
                    && *final(self) == *old(self),
                Err(_) => false,
            },
            old(self).wf() ==> final(self).wf(),
            forall|name: Seq<char>| #[trigger]
                old(self)@.contains_key(name) ==> final(self)@.contains_key(name)
                    && final(self)@[name] == old(self)@[name],
    {
        if !environment.is_digest_pinned() {
            return Err(
                WorkError::InvalidValue("environment image must be digest pinned".to_owned()),
            );
        }
        if self.find(environment.name.as_str()).is_some() {
            return Err(WorkError::DuplicateEnvironment(environment.name));
        }
        let ghost before = self.environments@;
        let ghost known = self@;
        self.environments.push(environment);
        proof {
            assert(self.environments@.drop_last() =~= before);
            assert(self@ =~= known.insert(environment.name@, environment));
        }
        Ok(())
    }

    /// Takes up an environment, unless it is known already. Another definition
    /// under a known name is refused.
    pub fn ensure_environment(&mut self, environment: EnvironmentSpec) -> (result: Result<
        (),
        WorkError,
    >)
        ensures
            match result {
                Ok(_) => if old(self)@.contains_key(environment.name@) {
                    same_definition(old(self)@[environment.name@], environment) && *final(self)
                        == *old(self)
                } else {
                    ends_in_digest(environment.image@) && final(self)@ == old(self)@.insert(
                        environment.name@,
                        environment,
                    )
                },
                Err(WorkError::DuplicateEnvironment(name)) => old(self)@.contains_key(
                    environment.name@,
                ) && !same_definition(old(self)@[environment.name@], environment) && name@
                    == environment.name@ && *final(self) == *old(self),
                Err(WorkError::InvalidValue(message)) => !old(self)@.contains_key(
                    environment.name@,
                ) && !ends_in_digest(environment.image@) && message@
                    == "environment image must be digest pinned"@ && *final(self) == *old(self),
                Err(_) => false,
            },
            old(self).wf() ==> final(self).wf(),
            forall|name: Seq<char>| #[trigger]
                old(self)@.contains_key(name) ==> final(self)@.contains_key(name)
                    && final(self)@[name] == old(self)@[name],
    {
        match self.find(environment.name.as_str()) {
            Some(existing) => {
                if is_same_definition(existing, &environment) {
                    return Ok(());
                }
                return Err(WorkError::DuplicateEnvironment(environment.name));
            },
            None => {},
        }
        self.define_environment(environment)
    }

    /// Returns a known environment.
    pub fn environment(&self, name: &str) -> (result: Result<&EnvironmentSpec, WorkError>)
        ensures
            match result {
                Ok(environment) => self@.contains_key(name@) && *environment == self@[name@],
                Err(WorkError::UnknownEnvironment(text)) => !self@.contains_key(name@) && text@
                    == name@,
                Err(_) => false,
            },
    {
        match self.find(name) {
            Some(environment) => Ok(environment),
            None => Err(WorkError::UnknownEnvironment(name.to_owned())),
        }
    }

    /// Each answer to a request that concerns a whole environment: the
    /// environment is looked up and checked, then the command is `argv`.
    pub open spec fn lifecycle(
        &self,
        name: Seq<char>,
        job_id: Seq<char>,
        argv: Seq<Seq<char>>,
        result: Result<PlannedJob, WorkError>,
    ) -> bool {
        match result {
            Ok(job) => self@.contains_key(name) && self@[name].checked() is Ok && job.request.id@
                == job_id && texts(job.request.argv@) == argv && job.workload
                == WorkloadClass::Build,
            Err(WorkError::UnknownEnvironment(text)) => !self@.contains_key(name) && text@ == name,
            Err(WorkError::Environment(error)) => self@.contains_key(name) && self@[name].checked()
                == Err::<(), EnvironmentError>(error),
            Err(_) => false,
        }
    }

    /// Plans the start of an environment.
    pub fn create_environment(&self, environment_name: &str, job_id: &str) -> (result: Result<
        PlannedJob,
        WorkError,
    >)
        ensures
            self.lifecycle(
                environment_name@,
                job_id@,
                self@[environment_name@].create_argv(),
                result,
            ),
    {
        match self.environment(environment_name) {
            Ok(environment) => match environment.create_execution_request(job_id) {
                Ok(request) => Ok(PlannedJob { request, workload: WorkloadClass::Build }),
                Err(error) => Err(WorkError::Environment(error)),
            },
            Err(error) => Err(error),
        }
    }

    /// Plans the stop of an environment.
    pub fn stop_environment(&self, environment_name: &str, job_id: &str) -> (result: Result<
        PlannedJob,
        WorkError,
    >)
        ensures
            self.lifecycle(
                environment_name@,
                job_id@,
                self@[environment_name@].stop_argv(),
                result,
            ),
    {
        match self.environment(environment_name) {
            Ok(environment) => match environment.stop_execution_request(job_id) {
                Ok(request) => Ok(PlannedJob { request, workload: WorkloadClass::Build }),
                Err(error) => Err(WorkError::Environment(error)),
            },
            Err(error) => Err(error),
        }
    }

    /// Plans the removal of an environment.
    pub fn remove_environment(&self, environment_name: &str, job_id: &str) -> (result: Result<
        PlannedJob,
        WorkError,
    >)
        ensures
            self.lifecycle(
                environment_name@,
                job_id@,
                self@[environment_name@].remove_argv(),
                result,
            ),
    {
        match self.environment(environment_name) {
            Ok(environment) => match environment.remove_execution_request(job_id) {
                Ok(request) => Ok(PlannedJob { request, workload: WorkloadClass::Build }),
                Err(error) => Err(WorkError::Environment(error)),
            },
            Err(error) => Err(error),
        }
    }

    /// The error of an environment for a command in a directory.
    pub open spec fn refuses(
        &self,
        name: Seq<char>,
        directory: Seq<char>,
        error: WorkError,
    ) -> bool {
        match error {
            WorkError::UnknownEnvironment(text) => !self@.contains_key(name) && text@ == name,
            WorkError::Environment(reason) => self@.contains_key(name) && (self@[name].checked()
                == Err::<(), EnvironmentError>(reason) || (self@[name].checked() is Ok
                && outside_workspace(self@[name].workspace@, directory, reason))),
            _ => false,
        }
    }

    /// A command in a directory of an environment is possible.
    pub open spec fn admits(&self, name: Seq<char>, directory: Seq<char>) -> bool {
        self@.contains_key(name) && self@[name].checked() is Ok && container_directory(
            self@[name].workspace@,
            directory,
        ) is Some
    }

    /// Plans a program in a running environment.
    pub fn exec_environment(
        &self,
        environment_name: &str,
        job_id: &str,
        working_directory: &str,
        program: &str,
        args: &Vec<String>,
    ) -> (result: Result<PlannedJob, WorkError>)
        ensures
            match result {
                Ok(job) => self.admits(environment_name@, working_directory@) && job.request.id@
                    == job_id@ && texts(job.request.argv@)
                    == self@[environment_name@].exec_argv_at(
                    container_directory(
                        self@[environment_name@].workspace@,
                        working_directory@,
                    )->0,
                    program@,
                    texts(args@),
                ) && job.workload == WorkloadClass::Interactive,
                Err(error) => self.refuses(environment_name@, working_directory@, error),
            },
    {
        match self.environment(environment_name) {
            Ok(environment) => match environment.exec_execution_request(
                job_id,
                working_directory,
                program,
                args.as_slice(),
            ) {
                Ok(request) => Ok(PlannedJob { request, workload: WorkloadClass::Interactive }),
                Err(error) => Err(WorkError::Environment(error)),
            },
            Err(error) => Err(error),
        }
    }

    /// Each answer to a request to look at a repository.
    pub open spec fn git_operation(
        &self,
        name: Seq<char>,
        job_id: Seq<char>,
        directory: Seq<char>,
        args: Seq<Seq<char>>,
        result: Result<PlannedJob, WorkError>,
    ) -> bool {
        match result {
            Ok(job) => self.admits(name, directory) && job.request.id@ == job_id && texts(
                job.request.argv@,
            ) == self@[name].run_argv_at(
                container_directory(self@[name].workspace@, directory)->0,
                "git"@,
                args,
            ) && job.workload == WorkloadClass::Interactive,
            Err(error) => self.refuses(name, directory, error),
        }
    }

    fn start_git_operation(
        &self,
        environment_name: &str,
        job_id: &str,
        working_directory: &str,
        args: &Vec<String>,
    ) -> (result: Result<PlannedJob, WorkError>)
        ensures
            self.git_operation(
                environment_name@,
                job_id@,
                working_directory@,
                texts(args@),
                result,
            ),
    {
        match self.environment(environment_name) {
            Ok(environment) => match environment.run_execution_request_at(
                job_id,
                working_directory,
                "git",
                args.as_slice(),
            ) {
                Ok(request) => Ok(PlannedJob { request, workload: WorkloadClass::Interactive }),
                Err(error) => Err(WorkError::Environment(error)),
            },
            Err(error) => Err(error),
        }
    }

    /// Plans a look at the state of a repository.
    pub fn start_git_status(
        &self,
        environment_name: &str,
        job_id: &str,
        working_directory: &str,
    ) -> (result: Result<PlannedJob, WorkError>)
        ensures
            self.git_operation(
                environment_name@,
                job_id@,
                working_directory@,
                git_status_words(),
                result,
            ),
    {
        let mut args: Vec<String> = Vec::new();
        push_text(&mut args, "status");
        push_text(&mut args, "--short");
        push_text(&mut args, "--branch");
        assert(texts(args@) =~= git_status_words());
        self.start_git_operation(environment_name, job_id, working_directory, &args)
    }

    /// Plans a look at the changes in a repository.
    pub fn start_git_diff(
        &self,
        environment_name: &str,
        job_id: &str,
        working_directory: &str,
    ) -> (result: Result<PlannedJob, WorkError>)
        ensures
            self.git_operation(
                environment_name@,
                job_id@,
                working_directory@,
                git_diff_words(),
                result,
            ),
    {
        let mut args: Vec<String> = Vec::new();
        push_text(&mut args, "diff");
        push_text(&mut args, "--no-color");
        push_text(&mut args, "--no-ext-diff");
        assert(texts(args@) =~= git_diff_words());
        self.start_git_operation(environment_name, job_id, working_directory, &args)
    }

    /// Plans a look at the last changes that were recorded in a repository.
    pub fn start_git_history(
        &self,
        environment_name: &str,
        job_id: &str,
        working_directory: &str,
    ) -> (result: Result<PlannedJob, WorkError>)
        ensures
            self.git_operation(
                environment_name@,
                job_id@,
                working_directory@,
                git_history_words(),
                result,
            ),
    {
        let mut args: Vec<String> = Vec::new();
        push_text(&mut args, "log");
        push_text(&mut args, "--oneline");
        push_text(&mut args, "--decorate");
        push_text(&mut args, "--no-color");
        push_text(&mut args, "-n");
        push_text(&mut args, "20");
        assert(texts(args@) =~= git_history_words());
        self.start_git_operation(environment_name, job_id, working_directory, &args)
    }

    /// Plans a build step. The environment is looked up before the adapter.
    pub fn start_build(
        &self,
        environment_name: &str,
        job_id: &str,
        step_id: &str,
        adapter: &str,
        working_directory: &str,
    ) -> (result: Result<PlannedJob, WorkError>)
        ensures
            match result {
                Ok(job) => self.admits(environment_name@, working_directory@) && job.request.id@
                    == job_id@ && job.workload == WorkloadClass::Build && (exists|
                    known: BuildAdapter,
                |
                    #[trigger] known.label() == adapter@ && texts(job.request.argv@)
                        == self@[environment_name@].run_argv_at(
                        container_directory(
                            self@[environment_name@].workspace@,
                            working_directory@,
                        )->0,
                        known.program(),
                        known.arguments(),
                    )),
                Err(WorkError::UnknownEnvironment(text)) => !self@.contains_key(environment_name@)
                    && text@ == environment_name@,
                Err(WorkError::InvalidValue(message)) => self@.contains_key(environment_name@)
                    && message@ == "unknown build adapter "@ + debug_form(adapter@) && forall|
                    other: BuildAdapter,
                |
                    adapter@ != #[trigger] other.label(),
                Err(WorkError::Build(PlanError::InvalidEnvironment(error))) => (exists|
                    known: BuildAdapter,
                | #[trigger]
                    known.label() == adapter@) && self.refuses(
                    environment_name@,
                    working_directory@,
                    WorkError::Environment(error),
                ),
                Err(_) => false,
            },
    {
        match self.environment(environment_name) {
            Ok(environment) => match parse_build_adapter(adapter) {
                Ok(known) => {
                    assert(known.label() == adapter@);
                    let step = BuildStep::new(step_id, known, working_directory);
                    match step.execution_request(job_id, environment) {
                        Ok(request) => Ok(PlannedJob { request, workload: WorkloadClass::Build }),
                        Err(error) => Err(WorkError::Build(error)),
                    }
                },
                Err(error) => Err(error),
            },
            Err(error) => Err(error),
        }
    }

    /// The step that a submission asks for.
    pub open spec fn is_submitted(step: TestStep, submission: TestSubmission) -> bool {
        &&& step.kind.label() == submission.kind@
        &&& step.command.program@ == submission.program@
        &&& texts(step.command.args@) == texts(submission.args@)
        &&& step.working_directory@ == submission.working_directory@
    }

    /// Plans a test step. The environment is looked up before the kind.
    pub fn start_test(&self, environment_name: &str, job_id: &str, submission: &TestSubmission) -> (
    result: Result<PlannedJob, WorkError>)
        ensures
            match result {
                Ok(job) => self@.contains_key(environment_name@) && job.request.id@ == job_id@ && (
                exists|step: TestStep| #[trigger]
                    WorkState::is_submitted(step, *submission) && is_test_command(
                        step,
                        self@[environment_name@],
                        Ok(texts(job.request.argv@)),
                    ) && job.workload == step.kind.workload()),
                Err(WorkError::UnknownEnvironment(text)) => !self@.contains_key(environment_name@)
                    && text@ == environment_name@,
                Err(WorkError::InvalidValue(message)) => self@.contains_key(environment_name@)
                    && message@ == "unknown test kind "@ + debug_form(submission.kind@) && forall|
                    other: TestKind,
                |
                    submission.kind@ != #[trigger] other.label(),
                Err(WorkError::Test(error)) => self@.contains_key(environment_name@) && (exists|
                    step: TestStep,
                | #[trigger]
                    WorkState::is_submitted(step, *submission) && is_test_command(
                        step,
                        self@[environment_name@],
                        Err(error),
                    )),
                Err(_) => false,
            },
    {
        match self.environment(environment_name) {
            Ok(environment) => match parse_test_kind(submission.kind.as_str()) {
                Ok(kind) => {
                    let step = TestStep::new(
                        submission.step_id.as_str(),
                        kind,
                        TestCommand::new(
                            submission.program.as_str(),
                            copy_texts(&submission.args),
                        ),
                        submission.working_directory.as_str(),
                    );
                    assert(WorkState::is_submitted(step, *submission));
                    match step.execution_request(job_id, environment) {
                        Ok(request) => Ok(
                            PlannedJob { request, workload: kind.workload_class() },
                        ),
                        Err(error) => Err(WorkError::Test(error)),
                    }
                },
                Err(error) => Err(error),
            },
            Err(error) => Err(error),
        }
    }
}

/// Reads the identifier of a build adapter.
pub fn parse_build_adapter(value: &str) -> (result: Result<BuildAdapter, WorkError>)
    ensures
        match result {
            Ok(adapter) => adapter.label() == value@,
            Err(WorkError::InvalidValue(message)) => message@ == "unknown build adapter "@
                + debug_form(value@) && forall|other: BuildAdapter|
                value@ != #[trigger] other.label(),
            Err(_) => false,
        },
{
    match BuildAdapter::parse(value) {
        Some(adapter) => Ok(adapter),
        None => Err(
            WorkError::InvalidValue(join("unknown build adapter ", debug_text(value).as_str())),
        ),
    }
}

/// Reads the identifier of a kind of test.
pub fn parse_test_kind(value: &str) -> (result: Result<TestKind, WorkError>)
    ensures
        match result {
            Ok(kind) => kind.label() == value@,
            Err(WorkError::InvalidValue(message)) => message@ == "unknown test kind "@
                + debug_form(value@) && forall|other: TestKind| value@ != #[trigger] other.label(),
            Err(_) => false,
        },
{
    match TestKind::parse(value) {
        Some(kind) => Ok(kind),
        None => Err(
            WorkError::InvalidValue(join("unknown test kind ", debug_text(value).as_str())),
        ),
    }
}

/// The toolchain that a word names. Some have a second name.
pub open spec fn toolchain_named(word: Seq<char>) -> Option<Toolchain> {
    if word == "rust"@ {
        Some(Toolchain::Rust)
    } else if word == "go"@ {
        Some(Toolchain::Go)
    } else if word == "python"@ {
        Some(Toolchain::Python)
    } else if word == "node"@ || word == "nodejs"@ {
        Some(Toolchain::Node)
    } else if word == "flutter"@ || word == "dart"@ {
        Some(Toolchain::Flutter)
    } else if word == "android"@ || word == "android-sdk"@ {
        Some(Toolchain::AndroidSdk)
    } else if word == "java"@ {
        Some(Toolchain::Java)
    } else if word == "qt"@ {
        Some(Toolchain::Qt)
    } else if word == "cmake"@ || word == "c-cpp"@ {
        Some(Toolchain::CMake)
    } else {
        None
    }
}

/// Reads the name of a toolchain.
pub fn toolchain_from(word: &str) -> (toolchain: Option<Toolchain>)
    ensures
        toolchain == toolchain_named(word@),
{
    if same(word, "rust") {
        Some(Toolchain::Rust)
    } else if same(word, "go") {
        Some(Toolchain::Go)
    } else if same(word, "python") {
        Some(Toolchain::Python)
    } else if same(word, "node") || same(word, "nodejs") {
        Some(Toolchain::Node)
    } else if same(word, "flutter") || same(word, "dart") {
        Some(Toolchain::Flutter)
    } else if same(word, "android") || same(word, "android-sdk") {
        Some(Toolchain::AndroidSdk)
    } else if same(word, "java") {
        Some(Toolchain::Java)
    } else if same(word, "qt") {
        Some(Toolchain::Qt)
    } else if same(word, "cmake") || same(word, "c-cpp") {
        Some(Toolchain::CMake)
    } else {
        None
    }
}

/// Reads the names of toolchains. The first one that is unknown is told.
pub fn parse_toolchains(values: &Vec<String>) -> (result: Result<Vec<Toolchain>, String>)
    ensures
        match result {
            Ok(list) => list@.len() == values@.len() && forall|i: int|
                0 <= i < values@.len() ==> toolchain_named((#[trigger] values@[i])@) == Some(
                    list@[i],
                ),
            Err(message) => exists|at: int| #[trigger]
                is_first_unknown(texts(values@), at) && message@ == "unknown toolchain "@
                    + debug_form(values@[at]@),
        },
{
    let mut list: Vec<Toolchain> = Vec::new();
    let mut i: usize = 0;
    while i < values.len()
        invariant
            i <= values@.len(),
            list@.len() == i,
            forall|k: int|
                0 <= k < i ==> toolchain_named((#[trigger] values@[k])@) == Some(list@[k]),
        decreases values.len() - i,
    {
        match toolchain_from(values[i].as_str()) {
            Some(toolchain) => {
                list.push(toolchain);
            },
            None => {
                assert(is_first_unknown(texts(values@), i as int));
                return Err(join("unknown toolchain ", debug_text(values[i].as_str()).as_str()));
            },
        }
        i = i + 1;
    }
    Ok(list)
}

/// The place of the first word of a list that names no toolchain.
pub open spec fn is_first_unknown(words: Seq<Seq<char>>, at: int) -> bool {
    &&& 0 <= at < words.len()
    &&& toolchain_named(words[at]) is None
    &&& forall|k: int| 0 <= k < at ==> toolchain_named(#[trigger] words[k]) is Some
}

/// The network policy that a switch stands for.
pub fn network_policy(enabled: bool) -> (network: NetworkPolicy)
    ensures
        network == if enabled {
            NetworkPolicy::Enabled
        } else {
            NetworkPolicy::Disabled
        },
{
    if enabled {
        NetworkPolicy::Enabled
    } else {
        NetworkPolicy::Disabled
    }
}

/// Where a job stands.
#[derive(Clone, Copy, Debug, PartialEq, Eq, Structural)]
pub enum JobLifecycle {
    /// It waits.
    Queued,
    /// It runs.
    Running,
    /// It ended well.
    Succeeded,
    /// It failed.
    Failed,
    /// It was cancelled.
    Cancelled,
}

impl JobLifecycle {
    /// The word for a stage of a job.
    pub open spec fn label(self) -> Seq<char> {
        match self {
            JobLifecycle::Queued => "queued"@,
            JobLifecycle::Running => "running"@,
            JobLifecycle::Succeeded => "succeeded"@,
            JobLifecycle::Failed => "failed"@,
            JobLifecycle::Cancelled => "cancelled"@,
        }
    }
}

/// Returns the name of a place in the life of a job.
pub fn lifecycle_name(lifecycle: JobLifecycle) -> (name: &'static str)
    ensures
        name@ == lifecycle.label(),
{
    match lifecycle {
        JobLifecycle::Queued => "queued",
        JobLifecycle::Running => "running",
        JobLifecycle::Succeeded => "succeeded",
        JobLifecycle::Failed => "failed",
        JobLifecycle::Cancelled => "cancelled",
    }
}

/// What a job writes.
#[derive(Clone, Copy, Debug, PartialEq, Eq, Structural)]
pub enum JobLogStream {
    /// Its output.
    Stdout,
    /// Its complaints.
    Stderr,
}

/// The stream of a log that a word names.
pub open spec fn stream_named(word: Seq<char>) -> Option<JobLogStream> {
    if word == "stdout"@ {
        Some(JobLogStream::Stdout)
    } else if word == "stderr"@ {
        Some(JobLogStream::Stderr)
    } else {
        None
    }
}

/// Reads the name of what a job writes.
pub fn log_stream(stream: &str) -> (result: Result<JobLogStream, WorkError>)
    ensures
        match result {
            Ok(found) => stream_named(stream@) == Some(found),
            Err(WorkError::InvalidValue(message)) => stream_named(stream@) is None && message@
                == "job log stream must be stdout or stderr"@,
            Err(_) => false,
        },
{
    if same(stream, "stdout") {
        Ok(JobLogStream::Stdout)
    } else if same(stream, "stderr") {
        Ok(JobLogStream::Stderr)
    } else {
        Err(WorkError::InvalidValue("job log stream must be stdout or stderr".to_owned()))
    }
}

/// The directory of the jobs, from the directory of states and the home.
pub open spec fn job_directory(
    state_home: Option<Seq<char>>,
    home: Option<Seq<char>>,
) -> Option<Seq<char>> {
    match (state_home, home) {
        (Some(directory), _) => Some(joined(directory, "devcore/jobs"@)),
        (None, Some(directory)) => Some(joined(directory, ".local/state/devcore/jobs"@)),
        (None, None) => None,
    }
}

/// The directory that jobs are recorded in, from the two settings that may name
/// one.
pub fn state_root(state_home: Option<String>, home: Option<String>) -> (result: Result<
    String,
    String,
>)
    ensures
        match result {
            Ok(path) => job_directory(optional_text(state_home), optional_text(home)) == Some(
                path@,
            ),
            Err(message) => job_directory(optional_text(state_home), optional_text(home)) is None
                && message@
                == "XDG_STATE_HOME or HOME is required for job persistence"@,
        },
{
    match state_home {
        Some(directory) => Ok(join_path(directory.as_str(), "devcore/jobs")),
        None => match home {
            Some(directory) => Ok(join_path(directory.as_str(), ".local/state/devcore/jobs")),
            None => Err("XDG_STATE_HOME or HOME is required for job persistence".to_owned()),
        },
    }
}

/// Looks at a repository only read it: they ask for its state, its changes or its
/// history, without colours and without programs that the repository names, and
/// the history has at most 20 entries.
pub proof fn looks_at_a_repository_only_read()
    ensures
        git_status_words()[0] == "status"@,
        git_status_words().contains("--short"@) && git_status_words().contains("--branch"@),
        git_diff_words()[0] == "diff"@,
        git_diff_words().contains("--no-color"@) && git_diff_words().contains("--no-ext-diff"@),
        git_history_words()[0] == "log"@,
        git_history_words().contains("--oneline"@) && git_history_words().contains("--decorate"@),
        git_history_words().contains("--no-color"@),
        ends_in(git_history_words(), seq!["-n"@, "20"@]),
        git_status_words().len() == 3 && git_diff_words().len() == 3 && git_history_words().len()
            == 6,
{
    assert(git_status_words()[1] == "--short"@ && git_status_words()[2] == "--branch"@);
    assert(git_diff_words()[1] == "--no-color"@ && git_diff_words()[2] == "--no-ext-diff"@);
    assert(git_history_words()[1] == "--oneline"@ && git_history_words()[2] == "--decorate"@);
    assert(git_history_words()[3] == "--no-color"@);
    assert(git_history_words().skip(4) =~= seq!["-n"@, "20"@]);
}

/// A look at a repository runs `git` in the environment, in the directory that
/// was asked for, as interactive work.
pub proof fn looks_run_in_the_environment(
    state: WorkState,
    name: Seq<char>,
    job_id: Seq<char>,
    directory: Seq<char>,
    args: Seq<Seq<char>>,
    job: PlannedJob,
)
    requires
        state.git_operation(name, job_id, directory, args, Ok(job)),
    ensures
        state@.contains_key(name),
        job.request.id@ == job_id,
        job.workload == WorkloadClass::Interactive,
        ends_in(texts(job.request.argv@), seq![state@[name].image@, "git"@] + args),
        gives(
            texts(job.request.argv@),
            "--workdir"@,
            container_directory(state@[name].workspace@, directory)->0,
        ),
{
    let inside = container_directory(state@[name].workspace@, directory)->0;
    environments_run_what_was_asked_for(state@[name], inside, "git"@, args);
    containers_see_their_workspace(state@[name], inside, "git"@, args);
}

/// The words by which toolchains are asked for: each by its own name, and some by
/// a second one.
pub proof fn toolchains_are_known_by_their_names(toolchain: Toolchain, word: Seq<char>)
    ensures
        toolchain_named(toolchain.label()) == Some(toolchain),
        toolchain_named("nodejs"@) == Some(Toolchain::Node),
        toolchain_named("dart"@) == Some(Toolchain::Flutter),
        toolchain_named("android"@) == Some(Toolchain::AndroidSdk),
        toolchain_named("c-cpp"@) == Some(Toolchain::CMake),
        toolchain_named(word) matches Some(found) ==> word == found.label() || word == "nodejs"@
            || word == "dart"@ || word == "android"@ || word == "c-cpp"@,
        Toolchain::Rust.label() == "rust"@ && Toolchain::Go.label() == "go"@
            && Toolchain::Python.label() == "python"@ && Toolchain::Node.label() == "node"@
            && Toolchain::Flutter.label() == "flutter"@ && Toolchain::AndroidSdk.label()
            == "android-sdk"@ && Toolchain::Java.label() == "java"@ && Toolchain::Qt.label() == "qt"@
            && Toolchain::CMake.label() == "cmake"@,
{
    reveal_strlit("rust");
    reveal_strlit("go");
    reveal_strlit("python");
    reveal_strlit("node");
    reveal_strlit("nodejs");
    reveal_strlit("flutter");
    reveal_strlit("dart");
    reveal_strlit("android");
    reveal_strlit("android-sdk");
    reveal_strlit("java");
    reveal_strlit("qt");
    reveal_strlit("cmake");
    reveal_strlit("c-cpp");
    assert("rust"@.len() == 4 && "node"@.len() == 4 && "java"@.len() == 4 && "dart"@.len() == 4);
    assert("go"@.len() == 2 && "qt"@.len() == 2 && "python"@.len() == 6 && "nodejs"@.len() == 6);
    assert("flutter"@.len() == 7 && "android"@.len() == 7 && "android-sdk"@.len() == 11);
    assert("cmake"@.len() == 5 && "c-cpp"@.len() == 5);
    assert("rust"@[0] == 'r' && "node"@[0] == 'n' && "java"@[0] == 'j' && "dart"@[0] == 'd');
    assert("go"@[0] == 'g' && "qt"@[0] == 'q' && "python"@[0] == 'p' && "nodejs"@[0] == 'n');
    assert("flutter"@[0] == 'f' && "android"@[0] == 'a' && "cmake"@[1] == 'm' && "c-cpp"@[1]
        == '-');
}

/// The words for the stages of a job.
pub proof fn lifecycle_words_are_stable()
    ensures
        JobLifecycle::Queued.label() == "queued"@,
        JobLifecycle::Running.label() == "running"@,
        JobLifecycle::Succeeded.label() == "succeeded"@,
        JobLifecycle::Failed.label() == "failed"@,
        JobLifecycle::Cancelled.label() == "cancelled"@,
{
}

/// A definition is the same as another one only where nothing that runs differs:
/// the name, the image, the workspace, the toolchains and the network.
pub proof fn same_definitions_run_the_same(a: EnvironmentSpec, b: EnvironmentSpec)
    ensures
        same_definition(a, b) ==> a.name@ == b.name@ && a.image@ == b.image@ && a.network
            == b.network && a.toolchains@ == b.toolchains@ && components(a.workspace@)
            == components(b.workspace@),
        a.name@ == b.name@ && a.image@ == b.image@ && a.network == b.network && a.toolchains@
            == b.toolchains@ && a.workspace@ == b.workspace@ ==> same_definition(a, b),
{
}

/// An environment is found under its name: the first one of that name, and none
/// where there is none.
pub proof fn environments_are_found_by_name(list: Seq<EnvironmentSpec>, at: int)
    requires
        0 <= at < list.len(),
        forall|k: int| 0 <= k < at ==> (#[trigger] list[k]).name@ != list[at].name@,
    ensures
        named(list, list[at].name@) == Some(list[at]),
    decreases list.len(),
{
    let rest = list.drop_last();
    if at < rest.len() {
        assert forall|k: int| 0 <= k < at implies (#[trigger] rest[k]).name@ != rest[at].name@ by {
            assert(rest[k] == list[k]);
        }
        environments_are_found_by_name(rest, at);
    } else {
        lemma_not_named(rest, list[at].name@);
    }
}

proof fn lemma_not_named(list: Seq<EnvironmentSpec>, name: Seq<char>)
    requires
        forall|k: int| 0 <= k < list.len() ==> (#[trigger] list[k]).name@ != name,
    ensures
        named(list, name) is None,
    decreases list.len(),
{
    if list.len() > 0 {
        let rest = list.drop_last();
        assert forall|k: int| 0 <= k < rest.len() implies (#[trigger] rest[k]).name@ != name by {
            assert(rest[k] == list[k]);
        }
        lemma_not_named(rest, name);
        assert(list[list.len() - 1].name@ != name);
    }
}

/// A log has two streams, each under its usual name.
pub proof fn streams_go_by_their_names(word: Seq<char>)
    ensures
        stream_named(word) == Some(JobLogStream::Stdout) <==> word == "stdout"@,
        stream_named(word) == Some(JobLogStream::Stderr) <==> word == "stderr"@,
{
    reveal_strlit("stdout");
    reveal_strlit("stderr");
    assert("stdout"@[3] == 'o' && "stderr"@[3] == 'e');
}

/// Jobs are recorded in the directory of states where one is set, otherwise below
/// the home.
pub proof fn jobs_are_recorded_where_states_lie(directory: Seq<char>, home: Option<Seq<char>>)
    requires
        directory.len() > 0,
        directory.last() != '/',
    ensures
        job_directory(Some(directory), home) == Some(directory.push('/') + "devcore/jobs"@),
        job_directory(None, Some(directory)) == Some(
            directory.push('/') + ".local/state/devcore/jobs"@,
        ),
        job_directory(None, None) is None,
{
    reveal_strlit("devcore/jobs");
    reveal_strlit(".local/state/devcore/jobs");
    joins_have_one_separator(directory, "devcore/jobs"@);
    joins_have_one_separator(directory, ".local/state/devcore/jobs"@);
}

/// A submission is carried out as it was made: its kind, its program, its arguments
/// and its directory.
pub proof fn submissions_are_carried_out(step: TestStep, submission: TestSubmission)
    requires
        WorkState::is_submitted(step, submission),
    ensures
        step.kind.label() == submission.kind@,
        step.command.program@ == submission.program@,
        texts(step.command.args@) == texts(submission.args@),
        step.working_directory@ == submission.working_directory@,
{
}

/// Work is refused for an environment that is not known, for one whose definition is
/// refused, and for a directory outside its workspace, and the reason says which.
pub proof fn work_is_refused_for_a_reason(
    state: WorkState,
    name: Seq<char>,
    directory: Seq<char>,
    error: WorkError,
)
    requires
        state.refuses(name, directory, error),
    ensures
        error matches WorkError::UnknownEnvironment(text) ==> text@ == name
            && !state@.contains_key(name),
        !state@.contains_key(name) ==> error is UnknownEnvironment,
        error matches WorkError::Environment(reason) ==> state@.contains_key(name) && (
        state@[name].checked() is Err || container_directory(
            state@[name].workspace@,
            directory,
        ) is None),
        error is UnknownEnvironment || error is Environment,
{
}

/// The first word that names no toolchain is the one that is told.
pub proof fn the_first_unknown_toolchain_is_told(words: Seq<Seq<char>>, at: int, k: int)
    requires
        is_first_unknown(words, at),
    ensures
        0 <= at < words.len(),
        toolchain_named(words[at]) is None,
        0 <= k < at ==> toolchain_named(words[k]) is Some,
{
}

} // verus!
