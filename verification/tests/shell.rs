//! The dashboard and the launchers of the shell.

use devcore::extensions::ExtensionHost;
use devcore::hardware::HardwareSnapshot;
use devcore::resource::{
    HardwareCapacity, MachineProfile, PowerState, PressureMetrics, ResourceSnapshot,
};
use devcore::shell::{
    browser_launched, check_hardware_json, clamp_workspace_index, codex_launched,
    collect_shell_snapshot, collect_system_readouts, disconnected_readouts,
    extension_host_readout, extension_launched, first_available_program, format_hardware_readout,
    format_update_readout, handle_launcher_action, install_extension, kib_to_gib_rounded,
    launch_browser, launch_codex, launch_extension_workspace, launch_terminal, list_extensions,
    live_installer_should_open_from, milli_percent, power_readout, pressure_readout,
    profile_from_str, snapshot_from_wire, studio_opened, terminal_launched, uninstall_extension,
    workspace_opened, workspace_selected, HardwareReply, LauncherStep, ShellTelemetry,
    SnapshotWire, UpdateReply, BROWSER_PROGRAMS, CODEX_PROGRAMS, TERMINAL_PROGRAM, TERMINAL_TITLE,
    TERMINAL_WORKING_DIRECTORY_OPTION,
};
use devcore::text::compact_readout;

fn no_power() -> PowerState {
    PowerState { battery_present: false, battery_percent: None, ac_online: None }
}

fn inventory() -> HardwareSnapshot {
    HardwareSnapshot {
        cpu_model: "AMD Ryzen 7 7840U".to_owned(),
        logical_cpus: 8,
        memory_total_kib: 16_777_216,
        battery_present: true,
        battery_percent: Some(72),
        ac_online: Some(true),
        network_interfaces: vec!["enp1s0".to_owned(), "lo".to_owned()],
        gpu_devices: 1,
    }
}

#[test]
fn shell_view_model_preserves_kernel_snapshot_meaning() {
    let snapshot = ResourceSnapshot {
        capacity: HardwareCapacity { logical_cpus: 4, memory_total_kib: 8 * 1024 * 1024 },
        initial_profile: MachineProfile::Balanced,
        memory_available_kib: Some(3 * 1024 * 1024),
        cpu_pressure: Some(PressureMetrics {
            some_avg10_milli_percent: 1_200,
            full_avg10_milli_percent: Some(100),
        }),
        memory_pressure: Some(PressureMetrics {
            some_avg10_milli_percent: 400,
            full_avg10_milli_percent: Some(0),
        }),
        io_pressure: None,
        power: PowerState {
            battery_present: true,
            battery_percent: Some(73),
            ac_online: Some(false),
        },
    };

    assert_eq!(
        ShellTelemetry::from_snapshot(&snapshot),
        ShellTelemetry {
            cpu_readout: "4 logical CPUs".to_owned(),
            memory_readout: "3 / 8 GiB free".to_owned(),
            power_readout: "73% · battery".to_owned(),
            pressure_readout: "CPU 1.2% · MEM 0.4%".to_owned(),
            profile: "balanced".to_owned(),
        }
    );
}

#[test]
fn presentation_helpers_round_and_degrade_without_false_values() {
    assert_eq!(kib_to_gib_rounded(1_572_864), 2);
    assert_eq!(milli_percent(9_720), "9.7%");
    assert_eq!(
        pressure_readout(
            None,
            Some(PressureMetrics {
                some_avg10_milli_percent: 0,
                full_avg10_milli_percent: None,
            })
        ),
        "MEM 0.0%"
    );

    let snapshot = ResourceSnapshot {
        capacity: HardwareCapacity { logical_cpus: 2, memory_total_kib: 4 * 1024 * 1024 },
        initial_profile: MachineProfile::Low,
        memory_available_kib: None,
        cpu_pressure: None,
        memory_pressure: None,
        io_pressure: None,
        power: no_power(),
    };
    assert_eq!(power_readout(&snapshot), "Power unavailable");
}

#[test]
fn resource_service_profiles_are_strictly_mapped() {
    assert_eq!(profile_from_str("balanced").unwrap(), MachineProfile::Balanced);
    assert!(profile_from_str("unknown").is_err());
}

#[test]
fn workspace_selector_is_bounded_to_four_desktops() {
    assert_eq!(clamp_workspace_index(-1), 1);
    assert_eq!(clamp_workspace_index(1), 1);
    assert_eq!(clamp_workspace_index(4), 4);
    assert_eq!(clamp_workspace_index(99), 4);
}

#[test]
fn install_boot_entry_opens_the_native_installer_only_in_live_mode() {
    assert!(live_installer_should_open_from(
        "rd.live.image devcore.live=1 devcore.installer=auto quiet"
    ));
    assert!(!live_installer_should_open_from("devcore.live=1 devcore.installer=manual"));
    assert!(!live_installer_should_open_from("devcore.installer=auto"));
}

#[test]
fn optional_launchers_use_only_fixed_paths() {
    for at in 0..BROWSER_PROGRAMS.len() {
        let mut installed = [false; 4];
        installed[at] = true;
        assert!(first_available_program(&BROWSER_PROGRAMS, &installed)
            .is_none_or(|path| BROWSER_PROGRAMS.contains(&path)));
        assert_eq!(launch_browser(&installed).unwrap().program, BROWSER_PROGRAMS[at]);
    }
    for at in 0..CODEX_PROGRAMS.len() {
        let mut installed = [false; 2];
        installed[at] = true;
        assert!(first_available_program(&CODEX_PROGRAMS, &installed)
            .is_none_or(|path| CODEX_PROGRAMS.contains(&path)));
        assert_eq!(launch_codex(&installed).unwrap().program, CODEX_PROGRAMS[at]);
    }
    assert!(launch_browser(&[false; 4]).is_err());
    assert!(launch_codex(&[false; 2]).is_err());
}

#[test]
fn resource_signal_payload_decodes_all_dashboard_fields() {
    let snapshot = snapshot_from_wire(&SnapshotWire {
        profile: "balanced".to_owned(),
        logical_cpus: 4,
        memory_total_kib: 8_388_608,
        memory_available_kib: Some(3_145_728),
        cpu_pressure: Some(PressureMetrics {
            some_avg10_milli_percent: 1200,
            full_avg10_milli_percent: Some(100),
        }),
        memory_pressure: Some(PressureMetrics {
            some_avg10_milli_percent: 400,
            full_avg10_milli_percent: Some(0),
        }),
        io_pressure: None,
        power: PowerState {
            battery_present: true,
            battery_percent: Some(73),
            ac_online: Some(false),
        },
    })
    .unwrap();

    assert_eq!(snapshot.initial_profile, MachineProfile::Balanced);
    assert_eq!(snapshot.capacity.logical_cpus, 4);
    assert_eq!(snapshot.memory_available_kib, Some(3_145_728));
    assert_eq!(snapshot.power.battery_percent, Some(73));
    assert_eq!(
        snapshot.cpu_pressure.map(|pressure| pressure.some_avg10_milli_percent),
        Some(1_200)
    );
    assert!(snapshot.io_pressure.is_none());
}

#[test]
fn hardware_payload_formats_bounded_inventory_for_the_overview() {
    assert_eq!(
        format_hardware_readout(&inventory()),
        "AMD Ryzen 7 7840U · 8 CPU · 16 GiB · 1 GPU · 2 net · battery 72% · AC online"
    );
    assert!(check_hardware_json(&"x".repeat(64 * 1024 + 1)).is_err());
    assert!(check_hardware_json(&"x".repeat(64 * 1024)).is_ok());
}

#[test]
fn update_readout_is_single_line_and_status_is_bounded() {
    assert_eq!(
        format_update_readout("alpha", "deployment ok\nno reboot requested"),
        "channel alpha · deployment ok no reboot requested"
    );
    assert_eq!(
        format_update_readout("stable", ""),
        "channel stable · status query returned no output"
    );
    assert_eq!(compact_readout("a\nb", 10), "a b");
    assert!(compact_readout(&"x".repeat(200), 10).ends_with('…'));
}

#[test]
fn terminal_launch_contract_uses_a_fixed_absolute_program() {
    assert_eq!(TERMINAL_PROGRAM, "/usr/bin/foot");
    assert!(TERMINAL_PROGRAM.starts_with('/'));
    assert!(!TERMINAL_PROGRAM.contains(' '));
    assert_eq!(TERMINAL_TITLE, "--title=DevCore Terminal");
    assert_eq!(TERMINAL_WORKING_DIRECTORY_OPTION, "--working-directory");
}

#[test]
fn readouts_hold_what_was_asked() {
    assert_eq!(compact_readout(&"x".repeat(200), 10), "xxxxxxxxxx…");
    let lines = collect_system_readouts(
        &HardwareReply::Inventory(inventory()),
        &UpdateReply::Asked {
            channel: Ok("alpha".to_owned()),
            status: Err("no answer".to_owned()),
        },
    );
    assert!(lines.hardware.starts_with("AMD Ryzen"));
    assert_eq!(lines.update, "Update status unavailable · no answer");
    let none = disconnected_readouts("no bus");
    assert_eq!(none.hardware, "Hardware service unavailable · no bus");
    assert_eq!(none.update, "Update service unavailable · no bus");
}

#[test]
fn the_service_is_asked_before_the_kernel() {
    let snapshot = ResourceSnapshot {
        capacity: HardwareCapacity { logical_cpus: 2, memory_total_kib: 4 * 1024 * 1024 },
        initial_profile: MachineProfile::Low,
        memory_available_kib: None,
        cpu_pressure: None,
        memory_pressure: None,
        io_pressure: None,
        power: no_power(),
    };
    let from_service =
        collect_shell_snapshot(Ok(snapshot.clone()), Err("unread".to_owned())).unwrap();
    let from_kernel =
        collect_shell_snapshot(Err("no bus".to_owned()), Ok(snapshot.clone())).unwrap();
    assert_ne!(from_service.1, from_kernel.1);
    assert_eq!(from_service.0, from_kernel.0);
    assert!(collect_shell_snapshot(Err("a".to_owned()), Err("b".to_owned())).is_err());
}

#[test]
fn launchers_do_what_their_button_says() {
    assert!(matches!(handle_launcher_action("Terminal"), LauncherStep::Terminal));
    assert!(matches!(handle_launcher_action("Rocket"), LauncherStep::Show(_)));
    let argv = launch_terminal("/workspaces/devcore", true).unwrap();
    assert_eq!(argv[0], "/usr/bin/foot");
    assert_eq!(argv.last().unwrap(), "/workspaces/devcore");
    assert!(terminal_launched("/workspaces/devcore", Err("gone".to_owned())).is_err());
    assert!(browser_launched("/usr/bin/firefox", Ok(())).is_ok());
    assert!(codex_launched("/usr/bin/codex", Err("gone".to_owned()))
        .unwrap_err()
        .contains("gone"));
    assert_eq!(
        workspace_selected(clamp_workspace_index(9)),
        "Workspace 4 selected · compositor-level window routing remains staged"
    );
}

#[test]
fn extension_commands_run_in_a_terminal() {
    let host = Some(ExtensionHost::new("/usr/bin/codium").unwrap());
    assert_eq!(
        extension_host_readout(&host),
        "VS Code-compatible host ready · /usr/bin/codium"
    );
    assert!(extension_host_readout(&None).starts_with("VS Code-compatible host not detected"));
    assert_eq!(
        list_extensions(&host).unwrap(),
        vec![
            "/usr/bin/foot",
            "--title=DevCore Extensions",
            "--",
            "/usr/bin/codium",
            "--list-extensions"
        ]
    );
    assert_eq!(install_extension(&host, "a.b").unwrap().len(), 7);
    assert_eq!(
        uninstall_extension(&host, "a").unwrap_err(),
        "invalid extension identifier \"a\""
    );
    assert_eq!(
        launch_extension_workspace(&host, "relative", true).unwrap_err(),
        "workspace path is not a safe absolute path: relative"
    );
    assert_eq!(
        launch_extension_workspace(&host, "/w", true).unwrap(),
        vec!["/usr/bin/codium", "--reuse-window", "/w"]
    );
    assert!(list_extensions(&None).is_err());
    assert_eq!(
        extension_launched(Err("gone".to_owned())).unwrap_err(),
        "extension command launch failed for /usr/bin/foot: gone"
    );
    assert_eq!(workspace_opened("/usr/bin/codium", Ok(())).unwrap(), "Opened workspace in /usr/bin/codium");
}

#[test]
fn the_studio_opens_with_files_where_there_is_an_environment() {
    assert!(studio_opened(" ", "/w").is_some());
    assert!(studio_opened("image", "").is_some());
    assert!(studio_opened("image", "/w").is_none());
}
