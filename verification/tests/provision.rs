//! Optional bundles: the catalogue, plans and the service that runs them.

use devcore::execution::JobState;
use devcore::provision::{
    catalog, catalog_item, network_probe_argv, plan_error, readiness, BundleKind, NetworkState,
    ProvisionError, ProvisionRequest, FLATPAK_PROGRAM, MIN_DISK_RESERVE_BYTES,
    NETWORK_PROBE_PROGRAM, PODMAN_PROGRAM,
};
use devcore::provision_service::{
    build_request, check_status, execution_request, next_request_id, probe_network, state_path,
    OperationOutcome, RunDecision, RunEvent, Runtime, MAX_STATUS_BYTES,
};
use devcore::resource::MachineProfile;

const IMAGE: &str = "quay.io/devcore/toolchains@sha256:0123456789abcdef0123456789abcdef0123456789abcdef0123456789abcdef";
const ENOUGH_DISK: u64 = 64 * 1024 * 1024 * 1024;

fn request(ids: &[&str]) -> ProvisionRequest {
    ProvisionRequest {
        bundle_ids: ids.iter().map(|id| (*id).to_owned()).collect(),
        profile: MachineProfile::Workstation,
        available_disk_bytes: ENOUGH_DISK,
        consent: true,
        environment_image: Some(IMAGE.to_owned()),
    }
}

#[test]
fn catalog_keeps_large_payloads_out_of_the_base_image() {
    let all = catalog();
    assert!(all.iter().any(|bundle| bundle.id == "flutter"));
    assert!(all.iter().any(|bundle| bundle.id == "android-studio"));
    assert!(all.iter().any(|bundle| bundle.id == "chrome"));
    assert!(all
        .iter()
        .filter(|bundle| bundle.kind == BundleKind::Flatpak)
        .all(|bundle| bundle.source.is_some()));
}

#[test]
fn plan_requires_consent_and_digest_pinned_oci_source() {
    let without_consent = ProvisionRequest {
        bundle_ids: vec!["flutter".to_owned()],
        profile: MachineProfile::Standard,
        available_disk_bytes: ENOUGH_DISK,
        consent: false,
        environment_image: Some(IMAGE.to_owned()),
    };
    assert_eq!(without_consent.validate_consent(), Err(ProvisionError::ConsentRequired));
    assert!(without_consent.plan().is_ok());

    let without_image = ProvisionRequest {
        consent: true,
        environment_image: None,
        ..without_consent
    };
    assert_eq!(without_image.plan(), Err(ProvisionError::EnvironmentImageRequired));
}

#[test]
fn profile_and_storage_admission_protect_low_end_machines() {
    let low_machine = ProvisionRequest {
        bundle_ids: vec!["android-studio".to_owned()],
        profile: MachineProfile::Low,
        available_disk_bytes: ENOUGH_DISK,
        consent: true,
        environment_image: None,
    };
    assert!(matches!(low_machine.plan(), Err(ProvisionError::ProfileTooSmall { .. })));

    let low_disk = ProvisionRequest {
        bundle_ids: vec!["chrome".to_owned()],
        profile: MachineProfile::Balanced,
        available_disk_bytes: 1,
        consent: true,
        environment_image: None,
    };
    assert!(matches!(low_disk.plan(), Err(ProvisionError::InsufficientDisk { .. })));
}

#[test]
fn plan_uses_only_fixed_direct_argv_and_reports_external_provider() {
    let plan = ProvisionRequest {
        bundle_ids: vec!["chrome".to_owned(), "codex".to_owned(), "rust".to_owned()],
        profile: MachineProfile::Workstation,
        available_disk_bytes: ENOUGH_DISK,
        consent: true,
        environment_image: Some(IMAGE.to_owned()),
    }
    .plan()
    .unwrap();
    assert_eq!(plan.external_provider_bundle_ids, vec!["codex"]);
    assert!(plan
        .operations
        .iter()
        .all(|operation| !operation.argv.iter().any(|arg| arg.contains("sh -c"))));
    assert!(plan.operations.iter().any(|operation| operation.argv[0] == FLATPAK_PROGRAM));
    assert!(plan.operations.iter().any(|operation| operation.argv[0] == PODMAN_PROGRAM));
    assert_eq!(network_probe_argv()[0], NETWORK_PROBE_PROGRAM);
    assert!(catalog().iter().any(|bundle| bundle.id.contains("android-studio")));
}

#[test]
fn storage_estimate_is_visible_in_the_plan() {
    let plan = ProvisionRequest {
        bundle_ids: vec!["chrome".to_owned()],
        profile: MachineProfile::Balanced,
        available_disk_bytes: ENOUGH_DISK,
        consent: true,
        environment_image: None,
    }
    .plan()
    .unwrap();
    assert!(plan.estimated_bytes > 0);
    assert!(plan.network_required);
}

#[test]
fn identifiers_of_the_catalogue_differ() {
    let all = catalog();
    for (at, bundle) in all.iter().enumerate() {
        assert!(all[at + 1..].iter().all(|other| other.id != bundle.id));
        assert_eq!(catalog_item(bundle.id).unwrap(), *bundle);
    }
    assert!(catalog_item("unknown").is_none());
}

#[test]
fn each_refusal_of_a_plan_has_its_error() {
    assert_eq!(request(&[]).plan(), Err(ProvisionError::NoBundles));
    assert_eq!(
        request(&["nothing"]).plan(),
        Err(ProvisionError::UnknownBundle("nothing".to_owned()))
    );
    let mut tagged = request(&["rust"]);
    tagged.environment_image = Some("quay.io/devcore/toolchains:latest".to_owned());
    assert_eq!(
        tagged.plan(),
        Err(ProvisionError::InvalidEnvironmentImage(
            "quay.io/devcore/toolchains:latest".to_owned()
        ))
    );
    let chrome = catalog_item("chrome").unwrap();
    let mut exact = request(&["chrome"]);
    exact.available_disk_bytes = chrome.estimated_bytes + MIN_DISK_RESERVE_BYTES;
    let plan = exact.plan().unwrap();
    assert_eq!(plan.estimated_bytes, chrome.estimated_bytes);
    exact.available_disk_bytes -= 1;
    assert_eq!(
        exact.plan(),
        Err(ProvisionError::InsufficientDisk {
            available: chrome.estimated_bytes + MIN_DISK_RESERVE_BYTES - 1,
            required: chrome.estimated_bytes + MIN_DISK_RESERVE_BYTES,
        })
    );
    assert!(plan_error(&ProvisionError::NoBundles).contains(&ProvisionError::NoBundles.message()));
}

#[test]
fn repeated_choices_count_once() {
    let plan = request(&["chrome", "chrome"]).plan().unwrap();
    assert_eq!(plan.bundle_ids, vec!["chrome"]);
}

#[test]
fn readiness_always_asks_for_consent() {
    let ready = readiness(NetworkState::Offline);
    assert!(ready.consent_required);
    assert_eq!(ready.network, NetworkState::Offline);
    assert_eq!(ready.minimum_disk_reserve_bytes, 4_294_967_296);
    assert_eq!(NetworkState::Connected.as_str(), "connected");
}

#[test]
fn requests_are_read_from_the_bus() {
    let built = build_request(vec!["chrome".to_owned()], "balanced", 7, true, "").unwrap();
    assert_eq!(built.profile, MachineProfile::Balanced);
    assert_eq!(built.environment_image, None);
    assert!(build_request(Vec::new(), "huge", 7, true, "").is_err());
}

#[test]
fn a_run_does_each_operation_once() {
    let wanted = request(&["chrome"]);
    let plan = wanted.plan().unwrap();
    let mut runtime = Runtime::load(None);
    let id = next_request_id(12, 3);
    assert_eq!(runtime.start(&wanted, &plan, &id), Ok(id.clone()));
    assert!(runtime.start(&wanted, &plan, "other").is_err());
    assert!(runtime.cancel("other").is_err());
    assert!(runtime.cancel(&id).is_ok());
    assert!(matches!(
        runtime.run(&id, &plan, &RunEvent::Started, false),
        RunDecision::ProbeNetwork
    ));
    let mut decision =
        runtime.run(&id, &plan, &RunEvent::Network(NetworkState::Connected), false);
    let mut done = Vec::new();
    while let RunDecision::Execute(index) = decision {
        assert!(!done.contains(&index));
        done.push(index);
        let job = execution_request(&plan, index, 12);
        assert_eq!(job.argv, plan.operations[index].argv);
        decision = runtime.run(
            &id,
            &plan,
            &RunEvent::Finished {
                index,
                outcome: OperationOutcome::Ran { state: JobState::Succeeded, exit_code: Some(0) },
            },
            false,
        );
    }
    assert_eq!(done.len(), plan.operations.len());
    assert_eq!(runtime.state.completed_bundles, vec!["flatpak-runtime", "chrome"]);
    runtime.clear_active(&id);
    assert_eq!(runtime.active, None);
}

#[test]
fn nothing_runs_without_a_network() {
    let wanted = request(&["chrome"]);
    let plan = wanted.plan().unwrap();
    let mut runtime = Runtime::load(None);
    runtime.start(&wanted, &plan, "run").unwrap();
    runtime.run("run", &plan, &RunEvent::Started, false);
    let decision = runtime.run("run", &plan, &RunEvent::Network(NetworkState::Offline), false);
    assert!(matches!(decision, RunDecision::Ended));
    assert!(runtime.state.completed_bundles.is_empty());
}

#[test]
fn a_failed_operation_ends_the_run() {
    let wanted = request(&["chrome"]);
    let plan = wanted.plan().unwrap();
    let mut runtime = Runtime::load(None);
    runtime.start(&wanted, &plan, "run").unwrap();
    runtime.run("run", &plan, &RunEvent::Started, false);
    runtime.run("run", &plan, &RunEvent::Network(NetworkState::Connected), false);
    let decision = runtime.run(
        "run",
        &plan,
        &RunEvent::Finished { index: 0, outcome: OperationOutcome::NotRun("gone".to_owned()) },
        false,
    );
    assert!(matches!(decision, RunDecision::Ended));
    assert_eq!(runtime.state.phase, "failed");
    assert!(runtime.state.last_error.clone().unwrap().contains("gone"));
}

#[test]
fn interrupted_work_is_marked_when_it_is_loaded() {
    let wanted = request(&["chrome"]);
    let plan = wanted.plan().unwrap();
    let mut runtime = Runtime::load(None);
    runtime.start(&wanted, &plan, "run").unwrap();
    let again = Runtime::load(Some(runtime.state));
    assert_eq!(again.active, None);
    assert_eq!(again.state.selected_bundles, vec!["chrome"]);
}

#[test]
fn the_probe_tells_the_network() {
    assert_eq!(probe_network(Some((JobState::Succeeded, Some(0)))), NetworkState::Connected);
    assert_eq!(probe_network(Some((JobState::Failed, Some(1)))), NetworkState::Offline);
    assert_eq!(probe_network(None), NetworkState::Unknown);
}

#[test]
fn status_documents_are_bounded() {
    assert_eq!(check_status("{}".to_owned()), Ok("{}".to_owned()));
    assert!(check_status("x".repeat(MAX_STATUS_BYTES + 1)).is_err());
}

#[test]
fn the_state_file_is_below_the_state_directory() {
    let path = state_path(Some("/state".to_owned()), None).unwrap();
    assert!(path.starts_with("/state/"));
    let home = state_path(None, Some("/home/dev".to_owned())).unwrap();
    assert!(home.starts_with("/home/dev/.local/state/"));
    assert!(state_path(None, None).is_err());
}
