//! Test plans and their schedules.

use devcore::environment::{EnvironmentSpec, NetworkPolicy, Toolchain};
use devcore::resource::{WorkloadBudget, WorkloadBudgets, WorkloadClass, WorkloadScopePlan};
use devcore::test_plan::{TestCommand, TestKind, TestPlan, TestPlanError, TestStep};

fn words(list: &[&str]) -> Vec<String> {
    list.iter().map(|word| (*word).to_owned()).collect()
}

fn step(id: &str, kind: TestKind) -> TestStep {
    TestStep::new(
        id,
        kind,
        TestCommand::new("cargo", words(&["test", "--workspace"])),
        "/workspace/app",
    )
}

fn environment() -> EnvironmentSpec {
    EnvironmentSpec::new(
        "devcore-rust",
        "quay.io/devcore/rust@sha256:0123456789abcdef0123456789abcdef0123456789abcdef0123456789abcdef",
        "/workspaces/devcore",
        vec![Toolchain::Rust],
        NetworkPolicy::Disabled,
    )
    .unwrap()
}

fn scope(workload: WorkloadClass) -> WorkloadScopePlan {
    WorkloadScopePlan {
        unit_name: "devcore-job-unit-job".to_owned(),
        workload,
        max_workers: 1,
        cpu_weight: 300,
        memory_low_bytes: None,
        memory_high_bytes: None,
        memory_max_bytes: None,
        deferred: false,
    }
}

#[test]
fn returns_dependency_order_and_direct_arguments() {
    let mut plan = TestPlan::new();
    plan.push(step("report", TestKind::Regression).depends_on("unit"));
    plan.push(step("unit", TestKind::Unit));

    assert_eq!(plan.execution_order().unwrap(), ["unit", "report"]);
    assert_eq!(plan.steps()[0].command.args, ["test", "--workspace"]);
}

#[test]
fn deferred_workloads_are_marked_in_the_schedule() {
    let budget = |deferred: bool| WorkloadBudget {
        max_workers: 1,
        deferred,
    };
    let budgets = WorkloadBudgets {
        interactive: budget(false),
        build: budget(false),
        indexer: budget(false),
        emulator: budget(true),
        cache: budget(false),
    };
    let mut plan = TestPlan::new();
    plan.push(step("emulator", TestKind::Emulator));
    plan.push(step("static", TestKind::StaticAnalysis));

    let schedule = plan.schedule(&budgets).unwrap();
    assert!(schedule
        .iter()
        .any(|item| item.id == "emulator" && item.deferred));
    assert!(schedule
        .iter()
        .any(|item| item.id == "static" && !item.deferred));
}

#[test]
fn rejects_cycles_and_invalid_commands() {
    let mut cycle = TestPlan::new();
    cycle.push(step("a", TestKind::Unit).depends_on("b"));
    cycle.push(step("b", TestKind::Unit).depends_on("a"));
    assert!(matches!(
        cycle.execution_order(),
        Err(TestPlanError::Cycle(_))
    ));

    let mut invalid = TestPlan::new();
    invalid.push(TestStep::new(
        "bad",
        TestKind::Unit,
        TestCommand::new("cargo test", Vec::<String>::new()),
        "/workspace/app",
    ));
    assert!(matches!(
        invalid.execution_order(),
        Err(TestPlanError::InvalidCommand(_))
    ));
}

#[test]
fn creates_executor_request_inside_environment_workspace() {
    let environment = environment();
    let step = TestStep::new(
        "unit",
        TestKind::Unit,
        TestCommand::new("cargo", words(&["test", "--workspace"])),
        "/workspaces/devcore/app",
    );

    let request = step.execution_request("unit-job", &environment).unwrap();

    assert_eq!(request.id, "unit-job");
    assert_eq!(request.argv[0..3], ["podman", "run", "--rm"]);
    assert!(request
        .argv
        .iter()
        .any(|argument| argument == "/workspace/app"));
    let program_index = request
        .argv
        .iter()
        .position(|argument| argument == "cargo")
        .unwrap();
    assert!(!request.argv[program_index..]
        .iter()
        .any(|argument| argument.contains("/workspaces")));
}

#[test]
fn a_scope_of_the_same_class_gives_the_command() {
    let step = TestStep::new(
        "unit",
        TestKind::Unit,
        TestCommand::new("cargo", words(&["test", "--workspace"])),
        "/workspaces/devcore",
    );
    let scoped = words(&["systemd-run", "--user", "--scope", "--", "cargo"]);
    let request = step
        .execution_request_with_scope(
            "unit-job",
            &environment(),
            &scope(WorkloadClass::Build),
            Ok(scoped.clone()),
        )
        .unwrap();
    assert_eq!(request.argv, scoped);
}

#[test]
fn rejects_a_scope_for_the_wrong_test_workload() {
    let environment = environment();
    let step = step("emulator", TestKind::Emulator);

    assert!(matches!(
        step.execution_request_with_scope(
            "emulator-job",
            &environment,
            &scope(WorkloadClass::Build),
            Ok(Vec::new()),
        ),
        Err(TestPlanError::WrongWorkload {
            expected: WorkloadClass::Emulator,
            actual: WorkloadClass::Build,
        })
    ));
}

#[test]
fn kinds_are_named() {
    for kind in [
        TestKind::StaticAnalysis,
        TestKind::Unit,
        TestKind::Integration,
        TestKind::Ui,
        TestKind::Api,
        TestKind::Database,
        TestKind::Device,
        TestKind::Emulator,
        TestKind::Performance,
        TestKind::MemoryPressure,
        TestKind::Security,
        TestKind::Regression,
    ] {
        assert_eq!(TestKind::parse(kind.as_str()), Some(kind));
    }
    assert_eq!(TestKind::parse("not-a-test-kind"), None);
}
