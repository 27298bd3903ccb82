//! Build plans, cache keys and the cache store.

use devcore::build_cache::{BuildCacheStore, CacheStoreError, PublishDecision, PublishStage};
use devcore::build_plan::{
    BuildAdapter, BuildCacheDescriptor, BuildCacheKey, BuildPlan, BuildStep, PlanError,
};
use devcore::environment::{EnvironmentSpec, NetworkPolicy, Toolchain};
use devcore::files::FileOutcome;
use devcore::resource::{
    ScopePlanError, WorkloadBudget, WorkloadBudgets, WorkloadClass, WorkloadScopePlan,
};

fn rust_environment() -> EnvironmentSpec {
    EnvironmentSpec::new(
        "devcore-rust",
        "quay.io/devcore/rust@sha256:0123456789abcdef0123456789abcdef0123456789abcdef0123456789abcdef",
        "/workspaces/devcore",
        vec![Toolchain::Rust],
        NetworkPolicy::Disabled,
    )
    .unwrap()
}

fn scope(workload: WorkloadClass) -> WorkloadScopePlan {
    WorkloadScopePlan {
        unit_name: "devcore-job-compile-job".to_owned(),
        workload,
        max_workers: 1,
        cpu_weight: 300,
        memory_low_bytes: None,
        memory_high_bytes: Some(1_073_741_824),
        memory_max_bytes: Some(2_147_483_648),
        deferred: false,
    }
}

#[test]
fn creates_shell_free_adapter_commands() {
    let command = BuildAdapter::Cargo.default_command();

    assert_eq!(command.program, "cargo");
    assert_eq!(command.args, vec!["build"]);
}

#[test]
fn maps_build_step_into_environment_without_host_path() {
    let environment = rust_environment();
    let step = BuildStep::new(
        "compile",
        BuildAdapter::Cargo,
        "/workspaces/devcore/crates/core",
    );

    let command = step.environment_command(&environment).unwrap();

    assert_eq!(command[0], "podman");
    assert_eq!(command[1], "run");
    assert_eq!(command[2], "--rm");
    assert!(command
        .iter()
        .any(|argument| argument == "/workspace/crates/core"));
    let program_index = command
        .iter()
        .position(|argument| argument == "cargo")
        .unwrap();
    assert_eq!(command[program_index + 1], "build");
    assert!(!command[program_index..]
        .iter()
        .any(|argument| argument.contains("/workspaces")));

    let mut invalid_environment = environment;
    invalid_environment.name = "Invalid Name".to_owned();
    assert!(matches!(
        step.environment_command(&invalid_environment),
        Err(PlanError::InvalidEnvironment(_))
    ));
}

#[test]
fn creates_executor_request_from_environment_command() {
    let environment = rust_environment();
    let step = BuildStep::new("compile", BuildAdapter::Cargo, "/workspaces/devcore");

    let request = step.execution_request("compile-job", &environment).unwrap();

    assert_eq!(request.id, "compile-job");
    assert_eq!(request.argv[0..3], ["podman", "run", "--rm"]);
    let program_index = request
        .argv
        .iter()
        .position(|argument| argument == "cargo")
        .unwrap();
    assert!(!request.argv[program_index..]
        .iter()
        .any(|argument| argument.contains("/workspaces")));
}

#[test]
fn a_matching_scope_gives_the_command() {
    let environment = rust_environment();
    let step = BuildStep::new("compile", BuildAdapter::Cargo, "/workspaces/devcore");
    let scoped = vec!["systemd-run".to_owned(), "--".to_owned(), "cargo".to_owned()];

    let request = step
        .execution_request_with_scope(
            "compile-job",
            &environment,
            &scope(WorkloadClass::Build),
            Ok(scoped.clone()),
        )
        .unwrap();
    assert_eq!(request.id, "compile-job");
    assert_eq!(request.argv, scoped);

    let refused = step.execution_request_with_scope(
        "compile-job",
        &environment,
        &scope(WorkloadClass::Build),
        Err(ScopePlanError {
            reason: "empty command".to_owned(),
        }),
    );
    assert!(matches!(refused, Err(PlanError::InvalidScope(_))));
}

#[test]
fn rejects_a_scope_for_the_wrong_workload() {
    let environment = rust_environment();
    let step = BuildStep::new("compile", BuildAdapter::Cargo, "/workspaces/devcore");

    assert!(matches!(
        step.execution_request_with_scope(
            "compile-job",
            &environment,
            &scope(WorkloadClass::Indexer),
            Ok(Vec::new()),
        ),
        Err(PlanError::WrongWorkload {
            expected: WorkloadClass::Build,
            actual: WorkloadClass::Indexer,
        })
    ));
}

#[test]
fn returns_dependency_order() {
    let directory = "/workspace/app";
    let mut plan = BuildPlan::new();
    plan.push(BuildStep::new("package", BuildAdapter::Cargo, directory).depends_on("compile"));
    plan.push(BuildStep::new("compile", BuildAdapter::Cargo, directory));

    assert_eq!(plan.execution_order().unwrap(), ["compile", "package"]);
}

#[test]
fn rejects_cycles_and_missing_dependencies() {
    let directory = "/workspace/app";
    let mut missing = BuildPlan::new();
    missing.push(BuildStep::new("compile", BuildAdapter::Cargo, directory).depends_on("prepare"));
    assert!(matches!(
        missing.execution_order(),
        Err(PlanError::UnknownDependency { .. })
    ));

    let mut cycle = BuildPlan::new();
    cycle.push(BuildStep::new("a", BuildAdapter::Cargo, directory).depends_on("b"));
    cycle.push(BuildStep::new("b", BuildAdapter::Cargo, directory).depends_on("a"));
    assert!(matches!(cycle.execution_order(), Err(PlanError::Cycle(_))));
}

#[test]
fn duplicate_step_ids_are_rejected() {
    let directory = "/workspace/app";
    let mut plan = BuildPlan::new();
    plan.push(BuildStep::new("compile", BuildAdapter::Cargo, directory));
    plan.push(BuildStep::new("compile", BuildAdapter::Go, directory));

    assert!(matches!(
        plan.execution_order(),
        Err(PlanError::DuplicateStep(id)) if id == "compile"
    ));
}

#[test]
fn builds_take_the_workers_of_the_build_budget() {
    let budget = |max_workers: u16| WorkloadBudget {
        max_workers,
        deferred: false,
    };
    let budgets = WorkloadBudgets {
        interactive: budget(4),
        build: budget(1),
        indexer: budget(2),
        emulator: budget(3),
        cache: budget(5),
    };
    let mut plan = BuildPlan::new();
    plan.push(BuildStep::new("compile", BuildAdapter::Cargo, "/workspace/app"));

    assert_eq!(plan.recommended_workers(&budgets), 1);
}

#[test]
fn cache_keys_are_deterministic_and_include_reproducible_inputs() {
    let environment = rust_environment();
    let first = BuildStep::new("compile", BuildAdapter::Cargo, "/workspaces/devcore")
        .depends_on("prepare")
        .depends_on("prepare");
    let second = BuildStep::new("compile", BuildAdapter::Cargo, "/workspaces/devcore")
        .depends_on("prepare");

    let first_key = BuildCacheDescriptor::from_step(&environment, &first, "source-v1")
        .unwrap()
        .key();
    let second_key = BuildCacheDescriptor::from_step(&environment, &second, "source-v1")
        .unwrap()
        .key();
    let changed_key = BuildCacheDescriptor::from_step(&environment, &second, "source-v2")
        .unwrap()
        .key();

    assert_eq!(first_key, second_key);
    assert_ne!(first_key, changed_key);
    assert_eq!(first_key.as_str().len(), 64);
    assert!(first_key
        .as_str()
        .chars()
        .all(|character| character.is_ascii_hexdigit()));
}

#[test]
fn cache_descriptor_rejects_mutable_environment_images() {
    let environment = EnvironmentSpec::new(
        "devcore-rust",
        "quay.io/devcore/rust:latest",
        "/workspaces/devcore",
        vec![Toolchain::Rust],
        NetworkPolicy::Disabled,
    )
    .unwrap();
    let step = BuildStep::new("compile", BuildAdapter::Cargo, "/workspaces/devcore");

    assert!(matches!(
        BuildCacheDescriptor::from_step(&environment, &step, "source-v1"),
        Err(PlanError::UnpinnedEnvironment(_))
    ));
}

#[test]
fn keys_are_the_digest_of_the_key_material() {
    let step = BuildStep::new("compile", BuildAdapter::Cargo, "/workspaces/devcore");
    let descriptor =
        BuildCacheDescriptor::from_step(&rust_environment(), &step, "source-v1").unwrap();
    let material = descriptor.key_material();
    assert!(material.starts_with(b"devcore-build-cache-v1"));
    let digest: Vec<u8> = <sha2::Sha256 as sha2::Digest>::digest(&material).to_vec();
    assert_eq!(descriptor.key(), BuildCacheKey::from_digest(&digest));
    assert_eq!(BuildCacheKey::from_digest(&vec![0x0a, 0xff]).as_str(), "0aff");
}

fn key(id: &str) -> BuildCacheKey {
    let step = BuildStep::new(id, BuildAdapter::Cargo, "/workspaces/devcore");
    BuildCacheDescriptor::from_step(&rust_environment(), &step, "source-v1")
        .unwrap()
        .key()
}

/// A filesystem that is held in memory; a directory has no bytes.
#[derive(Default)]
struct Files {
    entries: Vec<(String, Option<Vec<u8>>)>,
}

impl Files {
    fn get(&self, path: &str) -> Option<&Option<Vec<u8>>> {
        self.entries.iter().find(|(name, _)| name == path).map(|(_, bytes)| bytes)
    }

    fn read(&self, path: &str) -> Vec<u8> {
        self.get(path).unwrap().clone().unwrap()
    }

    fn remove(&mut self, path: &str) {
        self.entries.retain(|(name, _)| name != path);
    }

    fn put(&mut self, path: &str, bytes: Option<Vec<u8>>) {
        self.remove(path);
        self.entries.push((path.to_owned(), bytes));
    }

    fn inspect(&self, path: &str) -> FileOutcome {
        match self.get(path) {
            Some(Some(_)) => FileOutcome::Done,
            Some(None) => FileOutcome::OtherEntry,
            None => FileOutcome::NotFound("no such file".to_owned()),
        }
    }

    fn contains(&self, store: &BuildCacheStore, key: &BuildCacheKey) -> bool {
        store.contains(key, &self.inspect(&store.artifact_path(key))).unwrap()
    }

    fn publish(
        &mut self,
        store: &BuildCacheStore,
        key: &BuildCacheKey,
        source: &str,
    ) -> Result<String, CacheStoreError> {
        let destination = store.artifact_path(key);
        let temporary = store.temporary_path(key, 7, 0);
        let mut stage = PublishStage::InspectSource;
        loop {
            let outcome = match stage {
                PublishStage::InspectSource => self.inspect(source),
                PublishStage::InspectDestination => self.inspect(&destination),
                PublishStage::CreateTemporary => {
                    assert!(self.get(&temporary).is_none());
                    self.put(&temporary, Some(Vec::new()));
                    FileOutcome::Done
                }
                PublishStage::CopyContents => {
                    let bytes = self.read(source);
                    self.put(&temporary, Some(bytes));
                    FileOutcome::Done
                }
                PublishStage::OpenSource | PublishStage::SyncTemporary => FileOutcome::Done,
                PublishStage::Rename => {
                    let bytes = self.read(&temporary);
                    self.remove(&temporary);
                    self.put(&destination, Some(bytes));
                    FileOutcome::Done
                }
            };
            match store.publish_file(key, source, &temporary, stage, &outcome) {
                PublishDecision::Continue(next) => stage = next,
                PublishDecision::Finish { remove_temporary, result } => {
                    if remove_temporary {
                        self.remove(&temporary);
                    }
                    return result;
                }
            }
        }
    }
}

#[test]
fn cache_store_publishes_regular_files_idempotently() {
    let mut files = Files::default();
    let store = BuildCacheStore::open("/cache").unwrap();
    let source = "/cache/artifact.bin";
    files.put(source, Some(b"artifact bytes".to_vec()));
    let key = key("compile");

    let first_path = files.publish(&store, &key, source).unwrap();
    assert_eq!(files.entries.len(), 2);
    let second_path = files.publish(&store, &key, source).unwrap();

    assert_eq!(first_path, second_path);
    assert!(files.contains(&store, &key));
    assert_eq!(files.read(&first_path), b"artifact bytes");
    assert_eq!(files.read(source), b"artifact bytes");
    assert_eq!(files.entries.len(), 2);

    let occupied_key = crate::key("package");
    assert_ne!(occupied_key.as_str(), key.as_str());
    files.put(&store.artifact_path(&occupied_key), None);
    assert!(matches!(
        files.publish(&store, &occupied_key, source),
        Err(CacheStoreError::InvalidDestination(_))
    ));
    assert!(!files.contains(&store, &occupied_key));
    assert!(matches!(
        files.publish(&store, &key, "/cache/missing.bin"),
        Err(CacheStoreError::Io { .. })
    ));
    assert_eq!(files.entries.len(), 3);
}

#[test]
fn refused_entries_leave_temporary_files_alone() {
    let store = BuildCacheStore::open("/cache").unwrap();
    let key = key("compile");
    let decide = |stage| {
        store.publish_file(&key, "/source", "/cache/tmp", stage, &FileOutcome::OtherEntry)
    };
    assert_eq!(
        decide(PublishStage::InspectSource),
        PublishDecision::Finish {
            remove_temporary: false,
            result: Err(CacheStoreError::InvalidSource("/source".to_owned())),
        }
    );
    assert_eq!(
        decide(PublishStage::InspectDestination),
        PublishDecision::Finish {
            remove_temporary: false,
            result: Err(CacheStoreError::InvalidDestination(store.artifact_path(&key))),
        }
    );
}

#[test]
fn failed_copies_leave_no_temporary_file() {
    let store = BuildCacheStore::open("/cache").unwrap();
    let key = key("compile");
    let decision = store.publish_file(
        &key,
        "/source",
        "/cache/tmp",
        PublishStage::CopyContents,
        &FileOutcome::Failed("disk full".to_owned()),
    );
    match decision {
        PublishDecision::Finish {
            remove_temporary: true,
            result: Err(error),
        } => assert_eq!(
            error.message(),
            "copy artifact into cache /source: disk full"
        ),
        other => panic!("unexpected decision {other:?}"),
    }
    assert!(BuildCacheStore::open("").is_err());
}
