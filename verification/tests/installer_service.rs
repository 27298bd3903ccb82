//! The service of the installer: disks, commands, the worker and its reports.

use devcore::installer::{DiskInfo, InstallSettings, InstallerError, InstallerState};
use devcore::installer_service::{
    account_line, bounded_stderr, command_failure, config_path, configure_deployment,
    configure_target, deploy_payload, deployment_path, device_is_installer_media,
    device_is_running_root, disk_reason, finalize_target, find_disk, firstboot_marker, image_ids,
    list_disks, partition_layout, payload_digest, progress_of, resolve_local_payload, root_uuid,
    settings_from_values, sort_disks, stable_id, verify_payload, BlockDevice, ImageStep,
    ServiceError, ServiceState, SettingValue, WorkerDecision, WorkerStep,
};

fn disk() -> DiskInfo {
    DiskInfo {
        id: "/dev/disk/by-id/ata-disk".to_owned(),
        device: "/dev/sda".to_owned(),
        model: "Disk".to_owned(),
        size_bytes: 64 * 1024 * 1024 * 1024,
        removable: false,
        running_root: false,
        installer_media: false,
        virtual_device: false,
    }
}

fn settings() -> InstallSettings {
    InstallSettings::new("en_US.UTF-8", "us", "UTC", "developer", "devcore-lab", "balanced").unwrap()
}

fn device(name: &str, kind: &str) -> BlockDevice {
    BlockDevice {
        name: Some(name.to_owned()),
        path: None,
        kind: Some(kind.to_owned()),
        size: Some(7),
        removable: None,
        model: Some(" Model ".to_owned()),
    }
}

fn started() -> ServiceState {
    let mut state = ServiceState::new();
    let phrase = state.preflight(Ok(disk())).unwrap();
    state.start(&phrase, Ok(settings())).unwrap();
    state
}

#[test]
fn whole_disks_with_a_stable_name_are_listed_in_order() {
    let devices = vec![device("sdb", "disk"), device("sr0", "rom"), device("sda", "disk")];
    let names = vec![
        vec!["/dev/disk/by-id/b-disk".to_owned(), "/dev/disk/by-id/a-part1".to_owned()],
        vec!["/dev/disk/by-id/rom".to_owned()],
        vec!["/dev/disk/by-id/z".to_owned(), "/dev/disk/by-id/a".to_owned()],
    ];
    let list = list_disks(&devices, &names, Some("1 2 /dev/sda1 / rw\n"));
    assert_eq!(list.len(), 2);
    assert_eq!(list[0].id, "/dev/disk/by-id/a");
    assert_eq!(list[0].device, "/dev/sda");
    assert_eq!(list[0].model, "Model");
    assert!(list[0].running_root && !list[0].installer_media);
    assert_eq!(list[1].id, "/dev/disk/by-id/b-disk");
    assert!(!list[1].running_root);
    assert!(list_disks(&devices[..1].to_vec(), &vec![Vec::new()], None).is_empty());
}

#[test]
fn unknown_mounts_count_as_use() {
    assert!(device_is_running_root("/dev/sda", None));
    assert!(device_is_installer_media("/dev/sda", None));
    assert!(device_is_installer_media("/dev/sda", Some("7 /dev/sda1 /run/media rw")));
    assert!(!device_is_installer_media("/dev/sda", Some("7 /dev/sda1 / rw")));
    assert_eq!(stable_id(&vec!["/dev/disk/by-id/x-part2".to_owned()]), None);
}

#[test]
fn disks_are_found_by_name() {
    let sorted = sort_disks(vec![disk()]);
    assert_eq!(find_disk(&sorted, "/dev/disk/by-id/ata-disk").unwrap().device, "/dev/sda");
    assert_eq!(
        find_disk(&sorted, "other").unwrap_err(),
        InstallerError::Inventory("selected disk is no longer present".to_owned())
    );
    assert_eq!(disk_reason(&disk()), "");
}

#[test]
fn the_loaded_image_is_found_by_its_digest() {
    let ids = image_ids(&b"one\ntwo\n".to_vec());
    assert_eq!(ids, vec!["one", "two"]);
    assert_eq!(
        resolve_local_payload(&ids, &Vec::new(), "sha256:b"),
        ImageStep::Inspect("one".to_owned())
    );
    let first = vec![b"sha256:a\n".to_vec()];
    assert_eq!(
        resolve_local_payload(&ids, &first, "sha256:b"),
        ImageStep::Inspect("two".to_owned())
    );
    let both = vec![b"sha256:a\n".to_vec(), b"sha256:b\n".to_vec()];
    assert_eq!(
        resolve_local_payload(&ids, &both, "sha256:b"),
        ImageStep::Found("two".to_owned())
    );
    assert!(matches!(
        resolve_local_payload(&ids, &both, "sha256:c"),
        ImageStep::Missing(InstallerError::Inventory(_))
    ));
    assert_eq!(payload_digest("image@sha256:b").unwrap(), "sha256:b");
    assert!(payload_digest("image").is_err());
}

#[test]
fn the_worker_goes_through_every_step() {
    let mut state = started();
    let mut step = WorkerStep::AnnouncePreflight;
    let mut last = 0;
    loop {
        if let Some(progress) = progress_of(step) {
            assert!(progress.completed > last);
            last = progress.completed;
        }
        let decision = if step == WorkerStep::ResolveDisk {
            state.revalidate_and_transition(Ok(disk())).unwrap();
            state.run_install_worker(step, Ok(()))
        } else {
            state.run_install_worker(step, Ok(()))
        };
        match decision {
            WorkerDecision::Continue(next) => step = next,
            WorkerDecision::Succeeded => break,
            WorkerDecision::Failed(error) => panic!("{}", error.message()),
        }
    }
    assert_eq!(last, 100);
    assert_eq!(state.job.state(), InstallerState::Complete);
    let report = state.finish_worker(Ok(()), None).unwrap();
    assert_eq!(report.state, "complete");
    assert!(!state.worker_active);
}

#[test]
fn a_failed_worker_reports_what_went_wrong() {
    let mut state = started();
    let decision = state.run_install_worker(
        WorkerStep::VerifyPayload,
        Err(InstallerError::Inventory("bad sum".to_owned())),
    );
    let error = match decision {
        WorkerDecision::Failed(error) => error,
        _ => panic!("not refused"),
    };
    assert!(!state.needs_cleanup(false));
    let report = state
        .finish_worker(Err(error), Some(InstallerError::Inventory("busy".to_owned())))
        .unwrap();
    assert_eq!(report.state, "failed");
    assert!(report.retryable);
    assert!(report.diagnostic.contains("bad sum"));
    assert!(report.diagnostic.contains("target cleanup failed"));
}

#[test]
fn a_disk_that_changed_is_not_touched() {
    let mut state = started();
    let mut other = disk();
    other.device = "/dev/sdb".to_owned();
    assert_eq!(
        state.revalidate_and_transition(Ok(other)),
        Err(InstallerError::Inventory("disk identity changed after preflight".to_owned()))
    );
}

#[test]
fn jobs_are_asked_about_by_their_path() {
    let state = started();
    assert!(matches!(state.status("/nowhere"), Err(ServiceError::InvalidArgs(_)) | Err(ServiceError::Failed(_))));
}

#[test]
fn commands_are_fixed() {
    assert_eq!(partition_layout(), "label: gpt\nunit: MiB\n,1024,U\n,,L\n");
    let deploy = deploy_payload("id", "image", "abc");
    assert_eq!(deploy[0], "podman");
    assert!(deploy.iter().any(|word| word == "UUID=abc"));
    assert_eq!(deploy.last().unwrap(), "/target");
    assert!(finalize_target("id").iter().any(|word| word == "finalize"));
    let configure = configure_deployment(&settings(), "/deployment");
    assert_eq!(configure.len(), 3);
    assert_eq!(configure[2], vec!["chpasswd", "--root", "/deployment"]);
    assert_eq!(configure[0][0], "systemd-firstboot");
    assert_eq!(configure[1].last().unwrap(), "developer");
    assert_eq!(account_line("dev", &b"secret".to_vec()), b"dev:secret\n".to_vec());
    assert!(firstboot_marker(&settings()).starts_with("version=1\nlanguage=en_US.UTF-8\n"));
}

#[test]
fn outputs_are_read_strictly() {
    assert_eq!(root_uuid(b" 1234 \n".to_vec()).unwrap(), "1234");
    assert!(root_uuid(b"\n".to_vec()).is_err());
    assert!(root_uuid(vec![0xff]).is_err());
    let good =
        "/run/devcore-installer/target/ostree/deploy/default/deploy/abc.0";
    assert_eq!(deployment_path(format!("{good}\n").into_bytes()).unwrap(), good);
    assert!(deployment_path(b"/etc\n".to_vec()).is_err());
    assert!(deployment_path(format!("{good}/..").into_bytes()).is_err());
    assert_eq!(bounded_stderr(&b"bad\n".to_vec()).trim(), "bad");
    assert!(command_failure("mount", "exit status: 1", &b"busy".to_vec())
        .message()
        .contains("mount"));
}

#[test]
fn the_work_counts_before_what_is_undone() {
    let first = InstallerError::Inventory("first".to_owned());
    let second = InstallerError::Inventory("second".to_owned());
    assert_eq!(configure_target(Err(first.clone()), Err(second.clone())), Err(first));
    assert_eq!(configure_target(Ok(()), Err(second.clone())), Err(second));
    assert_eq!(configure_target(Ok(()), Ok(())), Ok(()));
    assert!(verify_payload(true).is_ok());
    assert_eq!(
        verify_payload(false).unwrap_err().message(),
        "disk inventory failed: embedded payload checksum verification failed"
    );
}

#[test]
fn settings_come_by_name() {
    let value = |key: &str, text: &str| SettingValue {
        key: key.to_owned(),
        text: Some(text.to_owned()),
    };
    let mut values = vec![
        value("locale", "en_US.UTF-8"),
        value("keyboard", "us"),
        value("timezone", "UTC"),
        value("username", "developer"),
        value("hostname", "devcore-lab"),
        value("profile", "balanced"),
    ];
    assert_eq!(settings_from_values(&values).unwrap(), settings());
    values[3].text = None;
    assert_eq!(
        settings_from_values(&values),
        Err(InstallerError::InvalidField { field: "username", reason: "must be a string" })
    );
    values.remove(3);
    assert_eq!(
        settings_from_values(&values),
        Err(InstallerError::InvalidField { field: "username", reason: "is required" })
    );
    assert!(!config_path(&Vec::new()).is_empty());
}
