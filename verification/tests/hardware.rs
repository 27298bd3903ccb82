//! The hardware inventory.

use devcore::cli::OutputMode;
use devcore::hardware::{
    collect_snapshot, format_report, join_with_commas, logical_cpu_count, parse_arguments,
    parse_cpu_model, parse_memory_total, parse_online, read_gpu_devices, read_network_interfaces,
    read_power_state, read_trimmed, snapshot_as_json, HardwareError, HardwareReadings,
    HardwareSnapshot, PowerSupply,
};
use devcore::json::json_escape;

fn words(list: &[&str]) -> Vec<String> {
    list.iter().map(|word| (*word).to_owned()).collect()
}

#[test]
fn parses_cpu_model_from_x86_and_arm_shapes() {
    assert_eq!(
        parse_cpu_model("model name : Test CPU\n"),
        Some("Test CPU".to_owned())
    );
    assert_eq!(
        parse_cpu_model("Hardware: Test ARM\n"),
        Some("Test ARM".to_owned())
    );
}

#[test]
fn parses_mem_total_in_kib() {
    assert_eq!(
        parse_memory_total("MemFree: 2 kB\nMemTotal: 4096 kB\n").unwrap(),
        4096
    );
    assert!(parse_memory_total("MemAvailable: 3 kB\n").is_err());
}

#[test]
fn escapes_json_control_characters() {
    assert_eq!(json_escape("GPU \"one\"\\\n"), "GPU \\\"one\\\"\\\\\\n");
}

#[test]
fn serializes_optional_hardware_values_as_null() {
    let snapshot = HardwareSnapshot {
        cpu_model: "Test CPU".to_owned(),
        logical_cpus: 2,
        memory_total_kib: 4096,
        battery_present: false,
        battery_percent: None,
        ac_online: None,
        network_interfaces: vec!["lo".to_owned(), "enp1s0".to_owned()],
        gpu_devices: 1,
    };
    assert_eq!(
        snapshot_as_json(&snapshot),
        "{\"cpu_model\":\"Test CPU\",\"logical_cpus\":2,\
         \"memory_total_kib\":4096,\"battery_present\":false,\
         \"battery_percent\":null,\"ac_online\":null,\
         \"network_interfaces\":[\"lo\",\"enp1s0\"],\"gpu_devices\":1}"
    );
    assert_eq!(snapshot.network_interface_count(), 2);
    assert!(!format_report(&snapshot).is_empty());
}

#[test]
fn accepts_json_and_daemon_modes() {
    assert_eq!(
        parse_arguments(&words(&["snapshot", "--json"])),
        Ok(OutputMode::Json)
    );
    assert_eq!(
        parse_arguments(&words(&["--daemon"])),
        Ok(OutputMode::Daemon)
    );
}

#[test]
fn rejects_unknown_arguments() {
    assert!(parse_arguments(&words(&["--unsupported"]))
        .unwrap_err()
        .contains("unknown argument"));
}

#[test]
fn control_characters_are_written_as_numbers() {
    assert_eq!(json_escape("a\u{1}b\tc\r"), "a\\u0001b\\tc\\r");
}

#[test]
fn interface_names_are_sorted() {
    assert_eq!(
        read_network_interfaces(&words(&["wlan0", "enp1s0", "lo"])),
        words(&["enp1s0", "lo", "wlan0"])
    );
    assert_eq!(join_with_commas(&words(&["a", "b"])), "a, b");
}

#[test]
fn only_cards_count_as_graphics_devices() {
    assert_eq!(
        read_gpu_devices(&words(&["card0", "card0-HDMI-A-1", "renderD128", "card1"])),
        2
    );
}

#[test]
fn unknown_parallelism_is_one_processor() {
    assert_eq!(logical_cpu_count(None), 1);
    assert_eq!(logical_cpu_count(Some(8)), 8);
    assert_eq!(logical_cpu_count(Some(0)), 1);
    assert_eq!(logical_cpu_count(Some(70_000)), 1);
}

#[test]
fn readings_are_trimmed() {
    assert_eq!(read_trimmed(&Some(" 1\n".to_owned())), Some("1".to_owned()));
    assert_eq!(read_trimmed(&Some(" \n".to_owned())), None);
    assert_eq!(read_trimmed(&None), None);
    assert_eq!(parse_online("1"), Some(true));
    assert_eq!(parse_online("0"), Some(false));
    assert_eq!(parse_online("2"), None);
}

fn supply(kind: &str, capacity: Option<&str>, online: Option<&str>) -> PowerSupply {
    PowerSupply {
        kind: Some(kind.to_owned()),
        capacity: capacity.map(str::to_owned),
        online: online.map(str::to_owned),
    }
}

fn readings() -> HardwareReadings {
    HardwareReadings {
        cpu_info: Ok("model name : Test CPU\n".to_owned()),
        memory_info: Ok("MemTotal: 4096 kB\n".to_owned()),
        parallelism: Some(4),
        power_supplies: vec![
            supply("Battery\n", Some("81\n"), None),
            supply("Mains\n", None, Some("1\n")),
        ],
        network_entries: words(&["wlan0", "lo"]),
        drm_entries: words(&["card0", "version"]),
    }
}

#[test]
fn power_comes_from_the_batteries_and_the_mains() {
    let state = read_power_state(&readings().power_supplies);
    assert!(state.battery_present);
    assert_eq!(state.battery_percent, Some(81));
    assert_eq!(state.ac_online, Some(true));
    let none = read_power_state(&Vec::new());
    assert!(!none.battery_present);
    assert_eq!(none.ac_online, None);
}

#[test]
fn an_inventory_needs_the_two_kernel_files() {
    let snapshot = collect_snapshot(&readings()).unwrap();
    assert_eq!(snapshot.cpu_model, "Test CPU");
    assert_eq!(snapshot.logical_cpus, 4);
    assert_eq!(snapshot.memory_total_kib, 4096);
    assert_eq!(snapshot.network_interfaces, words(&["lo", "wlan0"]));
    assert_eq!(snapshot.gpu_devices, 1);

    let mut unread = readings();
    unread.cpu_info = Err("denied".to_owned());
    assert!(matches!(
        collect_snapshot(&unread),
        Err(HardwareError::Read { path, .. }) if path == "/proc/cpuinfo"
    ));

    let mut malformed = readings();
    malformed.memory_info = Ok("MemTotal: many kB\n".to_owned());
    assert!(matches!(
        collect_snapshot(&malformed),
        Err(HardwareError::Malformed { .. })
    ));
}
