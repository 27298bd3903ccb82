//! The screens of the installer.

use devcore::installer_screen::{
    disk_summary, make_configuration, DiskRow, InstallationStatus, InstallerScreen, NextAction,
};

fn row() -> DiskRow {
    DiskRow {
        id: "/dev/disk/by-id/ata-disk".to_owned(),
        model: "Disk".to_owned(),
        size_bytes: 64 * 1024 * 1024 * 1024,
        device: "/dev/sda".to_owned(),
    }
}

fn screen() -> InstallerScreen {
    InstallerScreen {
        step: 0,
        disk_options: Vec::new(),
        disk_id: String::new(),
        disk_summary: String::new(),
        required_confirmation: String::new(),
        password: String::new(),
        password_confirm: String::new(),
        busy: false,
        job_path: String::new(),
        progress: String::new(),
        status: String::new(),
    }
}

#[test]
fn disks_are_offered_and_checked() {
    let line = disk_summary(&row());
    assert!(line.contains("Disk") && line.contains("/dev/sda"));
    let mut shown = screen();
    shown.load_disks(Ok(vec![row()]));
    assert_eq!(shown.disk_options, vec!["/dev/disk/by-id/ata-disk"]);
    assert_eq!(shown.disk_id, "/dev/disk/by-id/ata-disk");
    assert_eq!(shown.disk_summary, line);
    shown.load_disks(Err("no bus".to_owned()));
    assert_eq!(shown.status, "no bus");
    shown.load_disks(Ok(Vec::new()));
    assert!(shown.status.starts_with("No eligible internal disk was found."));
    shown.preflight(Ok(("ERASE".to_owned(), row())));
    assert_eq!(shown.required_confirmation, "ERASE");
    assert_eq!(shown.step, 2);
}

#[test]
fn the_password_leaves_the_screen() {
    let mut shown = screen();
    shown.password = "correct horse".to_owned();
    shown.password_confirm = "correct horse".to_owned();
    assert_eq!(shown.request_install(), "correct horse");
    assert_eq!(shown.password, "");
    assert_eq!(shown.password_confirm, "");
    shown.start_install(Ok("/job/1".to_owned()));
    assert_eq!(shown.job_path, "/job/1");
    shown.refresh_status(Ok(InstallationStatus {
        state: "failed".to_owned(),
        cancellable: false,
        diagnostic: "disk gone".to_owned(),
    }));
    assert_eq!(shown.progress, "Installer state: failed \u{b7} disk gone");
    assert!(!shown.busy);
    shown.cancel_install(Err("too late".to_owned()));
    assert_eq!(shown.status, "too late");
    shown.cancel_install(Ok(true));
    assert_eq!(shown.progress, "Installation cancelled before disk changes.");
}

#[test]
fn steps_go_forth_and_back() {
    let mut shown = screen();
    assert!(matches!(shown.next(), NextAction::Show(1)));
    shown.step = 1;
    shown.back();
    assert_eq!(shown.step, 0);
    shown.back();
    assert_eq!(shown.step, 0);
}

#[test]
fn the_configuration_names_each_setting() {
    let list = make_configuration("en_US.UTF-8", "us", "UTC", "dev", "box", "low");
    let find = |key: &str| {
        list.iter().find(|entry| entry.key == key).map(|entry| entry.value.clone())
    };
    assert_eq!(find("locale"), Some("en_US.UTF-8".to_owned()));
    assert_eq!(find("keyboard"), Some("us".to_owned()));
    assert_eq!(find("timezone"), Some("UTC".to_owned()));
    assert_eq!(find("username"), Some("dev".to_owned()));
    assert_eq!(find("hostname"), Some("box".to_owned()));
    assert_eq!(find("profile"), Some("low".to_owned()));
    assert_eq!(list.len(), 6);
}
