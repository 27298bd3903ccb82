//! The state of the work service: environments and the jobs in them.

use devcore::build_plan::BuildAdapter;
use devcore::environment::{EnvironmentSpec, NetworkPolicy, Toolchain};
use devcore::resource::WorkloadClass;
use devcore::test_plan::TestKind;
use devcore::work::{
    lifecycle_name, log_stream, network_policy, parse_build_adapter, parse_test_kind,
    parse_toolchains, state_root, toolchain_from, JobLifecycle, JobLogStream, TestSubmission,
    WorkError, WorkState,
};

const IMAGE: &str =
    "quay.io/devcore/rust@sha256:0123456789abcdef0123456789abcdef0123456789abcdef0123456789abcdef";

fn environment() -> EnvironmentSpec {
    EnvironmentSpec::new(
        "devcore-rust",
        IMAGE,
        "/workspaces/devcore",
        vec![Toolchain::Rust],
        NetworkPolicy::Disabled,
    )
    .unwrap()
}

fn submission(kind: &str) -> TestSubmission {
    TestSubmission {
        step_id: "step".to_owned(),
        kind: kind.to_owned(),
        program: "printf".to_owned(),
        args: vec!["not-started".to_owned()],
        working_directory: "/workspaces/devcore".to_owned(),
    }
}

#[test]
fn only_digest_pinned_environments_can_enter_service_state() {
    let mut work = WorkState::new();
    work.define_environment(environment()).unwrap();
    assert!(matches!(
        work.define_environment(environment()),
        Err(WorkError::DuplicateEnvironment(name)) if name == "devcore-rust"
    ));

    let mut tagged = environment();
    tagged.image = "quay.io/devcore/rust:latest".to_owned();
    assert!(matches!(
        work.define_environment(tagged),
        Err(WorkError::InvalidValue(message)) if message.contains("digest pinned")
    ));
}

#[test]
fn ensure_reuses_only_an_identical_environment_definition() {
    let mut work = WorkState::new();
    let original = environment();
    work.ensure_environment(original.clone()).unwrap();
    work.ensure_environment(original).unwrap();

    let mut changed = environment();
    changed.network = NetworkPolicy::Enabled;
    assert!(matches!(
        work.ensure_environment(changed),
        Err(WorkError::DuplicateEnvironment(name)) if name == "devcore-rust"
    ));
}

#[test]
fn outside_workspace_exec_is_rejected_before_a_job_is_registered() {
    let mut work = WorkState::new();
    work.define_environment(environment()).unwrap();

    let result = work.exec_environment(
        "devcore-rust",
        "outside-job",
        "/workspaces/other",
        "cargo",
        &vec!["test".to_owned()],
    );

    assert!(matches!(result, Err(WorkError::Environment(_))));
}

#[test]
fn outside_workspace_git_status_is_rejected_before_a_job_is_registered() {
    let mut work = WorkState::new();
    work.define_environment(environment()).unwrap();

    let result = work.start_git_status("devcore-rust", "outside-git-job", "/workspaces/other");

    assert!(matches!(result, Err(WorkError::Environment(_))));
}

#[test]
fn outside_workspace_git_read_models_are_rejected_before_a_job_is_registered() {
    let mut work = WorkState::new();
    work.define_environment(environment()).unwrap();

    let diff_result = work.start_git_diff("devcore-rust", "outside-diff-job", "/workspaces/other");
    let history_result =
        work.start_git_history("devcore-rust", "outside-history-job", "/workspaces/other");

    assert!(matches!(diff_result, Err(WorkError::Environment(_))));
    assert!(matches!(history_result, Err(WorkError::Environment(_))));
}

#[test]
fn typed_test_kind_uses_the_shared_workload_policy() {
    let mut work = WorkState::new();
    work.define_environment(environment()).unwrap();

    let result = work.start_test("devcore-rust", "bad-kind-job", &submission("not-a-test-kind"));

    assert!(
        matches!(result, Err(WorkError::InvalidValue(message)) if message.contains("test kind"))
    );
}

#[test]
fn jobs_run_in_their_environment() {
    let mut work = WorkState::new();
    work.define_environment(environment()).unwrap();
    let created = work.create_environment("devcore-rust", "create-job").unwrap();
    assert_eq!(created.request.id, "create-job");
    assert_eq!(created.request.argv, environment().create_command());
    let stopped = work.stop_environment("devcore-rust", "stop-job").unwrap();
    assert_eq!(stopped.request.argv, environment().stop_command());
    let removed = work.remove_environment("devcore-rust", "remove-job").unwrap();
    assert_eq!(removed.request.argv, environment().remove_command());
    let run = work
        .exec_environment(
            "devcore-rust",
            "exec-job",
            "/workspaces/devcore",
            "cargo",
            &vec!["check".to_owned()],
        )
        .unwrap();
    assert_eq!(
        run.request.argv,
        environment()
            .exec_command_at("/workspaces/devcore", "cargo", &["check".to_owned()])
            .unwrap()
    );
    let status = work
        .start_git_status("devcore-rust", "git-job", "/workspaces/devcore")
        .unwrap();
    assert!(status.request.argv.iter().any(|argument| argument == "git"));
    assert!(status.request.argv.iter().any(|argument| argument == "status"));
}

#[test]
fn emulator_tests_are_emulator_work() {
    let mut work = WorkState::new();
    work.define_environment(environment()).unwrap();
    let job = work.start_test("devcore-rust", "emulator-job", &submission("emulator")).unwrap();
    assert_eq!(job.workload, WorkloadClass::Emulator);
    let build = work
        .start_build("devcore-rust", "build-job", "compile", "cargo", "/workspaces/devcore")
        .unwrap();
    assert_eq!(build.workload, WorkloadClass::Build);
    assert!(matches!(
        work.start_build("devcore-rust", "build-job", "compile", "make it", "/workspaces/devcore"),
        Err(WorkError::InvalidValue(_))
    ));
}

#[test]
fn unknown_environments_are_named() {
    let work = WorkState::new();
    let error = work.environment("missing").unwrap_err();
    assert_eq!(error, WorkError::UnknownEnvironment("missing".to_owned()));
    assert!(error.message().contains("missing"));
}

#[test]
fn words_of_the_bus_are_read() {
    assert_eq!(parse_build_adapter("cargo").unwrap(), BuildAdapter::Cargo);
    assert_eq!(parse_test_kind("unit").unwrap(), TestKind::Unit);
    assert!(parse_build_adapter("ninja --all").is_err());
    assert_eq!(toolchain_from("rust"), Some(Toolchain::Rust));
    assert_eq!(
        parse_toolchains(&vec!["rust".to_owned(), "node".to_owned()]),
        Ok(vec![Toolchain::Rust, Toolchain::Node])
    );
    assert!(parse_toolchains(&vec!["wasm".to_owned()]).is_err());
    assert_eq!(network_policy(true), NetworkPolicy::Enabled);
    assert_eq!(network_policy(false), NetworkPolicy::Disabled);
    assert_eq!(lifecycle_name(JobLifecycle::Cancelled), "cancelled");
    assert_eq!(log_stream("stdout"), Ok(JobLogStream::Stdout));
    assert!(log_stream("stdin").is_err());
}

#[test]
fn the_state_directory_follows_the_settings() {
    assert!(state_root(Some("/state".to_owned()), None).unwrap().starts_with("/state/"));
    assert!(state_root(None, Some("/home/dev".to_owned()))
        .unwrap()
        .starts_with("/home/dev/.local/state/"));
    assert!(state_root(None, None).is_err());
}
