//! Resource profiles, scopes and reports.

use devcore::cli::OutputMode;
use devcore::resource::{
    format_ac, format_battery, format_pressure, format_report, format_scope_preview,
    parse_arguments, parse_workload, preview_workload, HardwareCapacity, MachineProfile, PowerState,
    ResourceSnapshot, WorkloadClass, WorkloadScopePlan,
};

fn words(list: &[&str]) -> Vec<String> {
    list.iter().map(|word| (*word).to_owned()).collect()
}

#[test]
fn accepts_snapshot_json_mode() {
    assert_eq!(
        parse_arguments(&words(&["snapshot", "--json"])),
        Ok(OutputMode::Json)
    );
}

#[test]
fn accepts_daemon_mode() {
    assert_eq!(
        parse_arguments(&words(&["--daemon"])),
        Ok(OutputMode::Daemon)
    );
}

#[test]
fn main_rejects_unknown_arguments() {
    let error = parse_arguments(&words(&["--unsupported"])).unwrap_err();

    assert!(error.contains("unknown argument"));
}

#[test]
fn a_scope_preview_is_one_object() {
    let plan = WorkloadScopePlan {
        unit_name: "devcore-job-compile-job".to_owned(),
        workload: WorkloadClass::Build,
        max_workers: 1,
        cpu_weight: 300,
        memory_low_bytes: None,
        memory_high_bytes: Some(1024),
        memory_max_bytes: Some(2048),
        deferred: false,
    };

    assert_eq!(
        format_scope_preview(&plan),
        "{\"unit_name\":\"devcore-job-compile-job\",\"workload\":\"build\",\"max_workers\":1,\
         \"cpu_weight\":300,\"memory_low_bytes\":null,\"memory_high_bytes\":1024,\
         \"memory_max_bytes\":2048,\"deferred\":false}"
    );
}

#[test]
fn profiles_and_workloads_are_named() {
    for profile in [
        MachineProfile::Low,
        MachineProfile::Balanced,
        MachineProfile::Standard,
        MachineProfile::Workstation,
    ] {
        assert_eq!(MachineProfile::parse(profile.as_str()), Some(profile));
    }
    assert_eq!(MachineProfile::parse("LOW"), None);
    assert_eq!(parse_workload("build"), Some(WorkloadClass::Build));
    assert_eq!(parse_workload("unknown"), None);
}

#[test]
fn reports_show_unknown_values_as_such() {
    assert!(!format_report(&ResourceSnapshot {
        capacity: HardwareCapacity {
            logical_cpus: 2,
            memory_total_kib: 4096,
        },
        initial_profile: MachineProfile::Low,
        memory_available_kib: None,
        cpu_pressure: None,
        memory_pressure: None,
        io_pressure: None,
        power: PowerState {
            battery_present: false,
            battery_percent: None,
            ac_online: None,
        },
    })
    .is_empty());
    assert!(format_pressure("CPU pressure", None).contains("unavailable"));
    assert!(format_battery(Some(81)).contains("81"));
    assert_ne!(format_ac(Some(true)), format_ac(Some(false)));
}

#[test]
fn previews_need_a_known_workload() {
    assert_eq!(preview_workload("build"), Ok(WorkloadClass::Build));
    assert_eq!(
        preview_workload("mining"),
        Err("unknown workload class \"mining\"".to_owned())
    );
}
