//! Updates of the base system.

use devcore::execution::{ExecutionResult, JobState};
use devcore::update::{
    channel_from_setting, format_plan_json, plan_request, status_json, status_program,
    status_request, ReleaseChannel,
    UpdateError, UpdateOperation, UpdatePlan, UpdateTarget, BOOTC_PATH,
};

const IMAGE: &str = "quay.io/devcore/os@sha256:0123456789abcdef0123456789abcdef0123456789abcdef0123456789abcdef";

#[test]
fn parses_all_release_channels() {
    assert_eq!(
        ReleaseChannel::parse("nightly").unwrap().as_str(),
        "nightly"
    );
    assert_eq!(ReleaseChannel::parse("alpha").unwrap().as_str(), "alpha");
    assert_eq!(ReleaseChannel::parse("beta").unwrap().as_str(), "beta");
    assert_eq!(ReleaseChannel::parse("stable").unwrap().as_str(), "stable");
    assert!(matches!(
        ReleaseChannel::parse("latest"),
        Err(UpdateError::InvalidChannel(_))
    ));
}

#[test]
fn apply_plan_is_digest_pinned_and_shell_free() {
    let target = UpdateTarget::new(ReleaseChannel::Alpha, IMAGE).unwrap();
    let plan = UpdatePlan::for_operation(UpdateOperation::Apply, Some(&target)).unwrap();

    assert_eq!(plan.argv()[0], BOOTC_PATH);
    assert_eq!(plan.channel(), Some(ReleaseChannel::Alpha));
    assert!(plan.argv().contains(&"ostree-container".to_owned()));
    assert!(!plan.argv().iter().any(|argument| argument.contains(' ')));
}

#[test]
fn read_only_plans_do_not_need_a_target() {
    let status = UpdatePlan::for_operation(UpdateOperation::Status, None).unwrap();
    let check = UpdatePlan::for_operation(UpdateOperation::Check, None).unwrap();
    let rollback = UpdatePlan::for_operation(UpdateOperation::Rollback, None).unwrap();

    assert_eq!(status.argv(), [BOOTC_PATH, "status", "--json"]);
    assert_eq!(check.argv(), [BOOTC_PATH, "upgrade", "--check"]);
    assert_eq!(rollback.argv(), [BOOTC_PATH, "rollback"]);
}

#[test]
fn rejects_missing_or_mutable_targets() {
    assert!(matches!(
        UpdatePlan::for_operation(UpdateOperation::Apply, None),
        Err(UpdateError::MissingTarget(UpdateOperation::Apply))
    ));
    assert!(matches!(
        UpdateTarget::new(ReleaseChannel::Stable, "quay.io/devcore/os:stable"),
        Err(UpdateError::InvalidImage(_))
    ));
    assert!(matches!(
        UpdateTarget::new(ReleaseChannel::Stable, "quay.io/devcore/os@sha256:bad"),
        Err(UpdateError::InvalidImage(_))
    ));
}

#[test]
fn formats_a_plan_without_shell_interpolation() {
    let target = UpdateTarget::new(
        ReleaseChannel::Beta,
        "quay.io/devcore/os@sha256:0123456789abcdef0123456789abcdef0123456789abcdef0123456789abcdef",
    )
    .unwrap();
    let plan = UpdatePlan::for_operation(UpdateOperation::Apply, Some(&target)).unwrap();
    let json = format_plan_json(&plan);

    assert!(json.contains("\"operation\":\"apply\""));
    assert!(json.contains("\"channel\":\"beta\""));
    assert!(json.contains("ostree-container"));
}

#[test]
fn requests_are_read_from_their_texts() {
    let plan = plan_request("status", "alpha", "").unwrap();
    assert_eq!(plan.operation(), UpdateOperation::Status);
    assert_eq!(plan.channel(), None);
    assert!(matches!(
        plan_request("erase", "alpha", ""),
        Err(UpdateError::InvalidOperation(_))
    ));
    let apply = plan_request("apply", "stable", IMAGE).unwrap();
    assert_eq!(apply.channel(), Some(ReleaseChannel::Stable));
}

#[test]
fn settings_fall_back() {
    assert_eq!(channel_from_setting(Some("beta")), ReleaseChannel::Beta);
    assert_eq!(channel_from_setting(Some("latest")), channel_from_setting(None));
    assert_eq!(status_program(false, Some("/tmp/fake")), BOOTC_PATH);
}

#[test]
fn the_status_is_what_the_program_wrote() {
    let request = status_request("/usr/bin/bootc");
    assert_eq!(request.argv[0], "/usr/bin/bootc");
    let run = |state, stdout: &[u8], output_truncated| ExecutionResult {
        state,
        exit_code: Some(0),
        stdout: stdout.to_vec(),
        output_truncated,
    };
    assert_eq!(
        status_json(run(JobState::Succeeded, b"{\"ok\":true}", false)),
        Ok("{\"ok\":true}".to_owned())
    );
    assert!(status_json(run(JobState::Succeeded, &[0xff], false)).is_err());
    assert!(status_json(run(JobState::Succeeded, b"{}", true)).is_err());
    assert!(status_json(run(JobState::Failed, b"{}", false)).is_err());
}
