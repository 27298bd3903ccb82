//! The installer: disks, settings, jobs and the service around them.

use devcore::installer::{
    confirmation_phrase, DiskEligibility, DiskInfo, InstallJob, InstallRequest, InstallSettings,
    InstallerError, InstallerState, DISK_ID_PREFIX, MINIMUM_DISK_BYTES,
};
use devcore::installer_service::{
    accept_password, digest_matches, partition_paths, sanitize_diagnostic, storage_commands,
    unmount_target_with, validate_payload_reference, ServiceError, ServiceState,
};

fn disk() -> DiskInfo {
    DiskInfo {
        id: "/dev/disk/by-id/wwn-0x5000c500a1b2c3d4".into(),
        device: "/dev/nvme0n1".into(),
        model: "Test NVMe".into(),
        size_bytes: MINIMUM_DISK_BYTES,
        removable: false,
        running_root: false,
        installer_media: false,
        virtual_device: false,
    }
}

fn settings() -> InstallSettings {
    InstallSettings::new(
        "en_US.UTF-8",
        "us",
        "Asia/Kolkata",
        "developer",
        "devcore",
        "balanced",
    )
    .unwrap()
}

#[test]
fn partition_names_cover_sata_and_nvme_devices() {
    assert_eq!(
        partition_paths("/dev/sda"),
        ("/dev/sda1".to_owned(), "/dev/sda2".to_owned())
    );
    assert_eq!(
        partition_paths("/dev/nvme0n1"),
        ("/dev/nvme0n1p1".to_owned(), "/dev/nvme0n1p2".to_owned())
    );
}

#[test]
fn payload_reference_requires_a_devcore_immutable_digest() {
    let reference = format!(
        "ghcr.io/techmigosglobal/devcoreos@sha256:{}",
        "a".repeat(64)
    );
    assert_eq!(validate_payload_reference(&reference).unwrap(), reference);
    for invalid in [
        "registry:localhost/devcore-os".to_owned(),
        "ghcr.io/techmigosglobal/devcoreos:alpha".to_owned(),
        format!(
            "ghcr.io/techmigosglobal/devcoreos@sha256:{}",
            "z".repeat(64)
        ),
    ] {
        assert!(validate_payload_reference(&invalid).is_err());
    }
}

#[test]
fn every_digit_of_the_payload_digest_counts() {
    let prefix = "ghcr.io/techmigosglobal/devcoreos@sha256:";
    let digest = "0123456789abcdefABCDEF0123456789".repeat(2);
    let reference = format!("{prefix}{digest}");
    assert_eq!(validate_payload_reference(&reference).unwrap(), reference);
    for rest in [
        format!("{}:", "z".repeat(63)),
        format!("{}:{}", "a".repeat(31), "b".repeat(32)),
        "a".repeat(63),
        "a".repeat(65),
        String::new(),
    ] {
        assert!(validate_payload_reference(&format!("{prefix}{rest}")).is_err());
    }
}

#[test]
fn busy_target_cannot_be_reported_as_unmounted() {
    let result =
        unmount_target_with(|_| Err(InstallerError::Inventory("target is busy".to_owned())));
    assert!(result.unwrap_err().message().contains("target is busy"));
}

#[test]
fn preflight_cannot_replace_a_worker_even_after_cancellation() {
    let mut state = ServiceState::new();
    state.job.ready().unwrap();
    state.job.preparing().unwrap();
    state.job.cancel().unwrap();
    state.worker_active = true;
    assert!(matches!(
        state.preflight(Ok(disk())),
        Err(ServiceError::Failed(_))
    ));
}

#[test]
fn diagnostics_are_bounded_and_secret_free_after_password_read_error() {
    assert!(sanitize_diagnostic(&"a".repeat(1000)).len() <= 512);
    assert_eq!(DISK_ID_PREFIX, "/dev/disk/by-id/");
}

#[test]
fn only_stable_large_internal_disks_are_eligible() {
    assert_eq!(disk().eligibility(), DiskEligibility::Eligible);
    for mutate in [
        |d: &mut DiskInfo| d.removable = true,
        |d: &mut DiskInfo| d.running_root = true,
        |d: &mut DiskInfo| d.installer_media = true,
        |d: &mut DiskInfo| d.virtual_device = true,
        |d: &mut DiskInfo| d.size_bytes = MINIMUM_DISK_BYTES - 1,
    ] {
        let mut candidate = disk();
        mutate(&mut candidate);
        assert!(matches!(
            candidate.eligibility(),
            DiskEligibility::Rejected(_)
        ));
    }
}

#[test]
fn request_requires_the_disk_bound_erase_phrase() {
    let disk = disk();
    let phrase = confirmation_phrase(&disk.id).unwrap();
    assert!(InstallRequest::new(&disk, &phrase, settings()).is_ok());
    assert_eq!(
        InstallRequest::new(&disk, "ERASE nvme0n1", settings()),
        Err(InstallerError::InvalidConfirmation)
    );
}

#[test]
fn state_machine_refuses_late_cancellation_and_early_success() {
    let mut job = InstallJob::new();
    assert!(job.complete().is_err());
    job.ready().unwrap();
    job.preparing().unwrap();
    assert!(job.cancel().is_ok());
    assert_eq!(job.state(), InstallerState::Cancelled);
    let mut job = InstallJob::new();
    job.ready().unwrap();
    job.preparing().unwrap();
    job.destructive().unwrap();
    assert_eq!(
        job.cancel(),
        Err(InstallerError::CancellationUnavailable(
            InstallerState::Destructive
        ))
    );
}

#[test]
fn configuration_is_revalidated_at_the_domain_boundary() {
    assert!(InstallSettings::new(
        "en_US.UTF-8",
        "us",
        "../UTC",
        "developer",
        "devcore",
        "balanced"
    )
    .is_err());
    assert!(
        InstallSettings::new("en_US.UTF-8", "us", "UTC", "Root", "devcore", "balanced").is_err()
    );
    assert!(InstallSettings::new(
        "en_US.UTF-8",
        "us",
        "UTC",
        "developer",
        "invalid.host",
        "balanced"
    )
    .is_err());
}

#[test]
fn passwords_lose_their_line_breaks_at_the_end() {
    assert_eq!(
        accept_password(b"secret-password\n".to_vec()),
        Ok(b"secret-password".to_vec())
    );
    assert!(accept_password(b"short\n".to_vec()).is_err());
}

#[test]
fn storage_is_prepared_from_the_device_alone() {
    let commands = storage_commands("/dev/sda");
    assert!(commands
        .iter()
        .all(|command| command.iter().all(|word| !word.contains("sh -c"))));
    assert!(commands
        .iter()
        .any(|command| command.iter().any(|word| word == "/dev/sda")));
}

#[test]
fn digests_are_compared_without_white_space() {
    assert!(digest_matches(&b" sha256:ab\n".to_vec(), "sha256:ab"));
    assert!(!digest_matches(&b"sha256:ac\n".to_vec(), "sha256:ab"));
}
