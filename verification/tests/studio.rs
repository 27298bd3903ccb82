//! The studio: what its fields hold and what its buttons ask for.

use devcore::studio::{
    available_disk_bytes, describe_job, disk_probe_command, disk_probe_path, format_job_readout,
    format_workspace_entries, next_studio_job, parse_provision_bundles,
    parse_studio_build_adapter, parse_studio_toolchains, validate_studio_directory,
    validate_studio_environment, validate_studio_file_path, DiskProbe, JobLogView, JobStatusView, StudioCall,
    StudioReply, StudioScreen,
};

const IMAGE: &str =
    "quay.io/devcore/rust@sha256:0123456789abcdef0123456789abcdef0123456789abcdef0123456789abcdef";

fn screen() -> StudioScreen {
    StudioScreen {
        environment_name: "devcore-rust".to_owned(),
        environment_image: IMAGE.to_owned(),
        environment_toolchains: "rust".to_owned(),
        build_adapter: "cargo".to_owned(),
        workspace_directory: "/workspaces/devcore".to_owned(),
        explorer_directory: String::new(),
        explorer_entries: String::new(),
        explorer_readout: String::new(),
        file_path: "README.md".to_owned(),
        file_content: "text".to_owned(),
        file_readout: String::new(),
        file_dirty: true,
        git_job_id: String::new(),
        git_readout: String::new(),
        job_id: String::new(),
        job_readout: String::new(),
        extension_source: "a.b".to_owned(),
        provisioning_bundles: "chrome".to_owned(),
        provisioning_image: String::new(),
        provisioning_request_id: String::new(),
        provisioning_readout: String::new(),
        profile: "balanced".to_owned(),
        status_message: String::new(),
    }
}

#[test]
fn studio_toolchain_input_is_canonicalized_and_deduplicated() {
    assert_eq!(
        parse_studio_toolchains(" Rust, nodejs, android, node, c-cpp ").unwrap(),
        vec![
            "rust".to_owned(),
            "node".to_owned(),
            "android-sdk".to_owned(),
            "cmake".to_owned()
        ]
    );
    assert!(parse_studio_toolchains(" ").is_err());
    assert!(parse_studio_toolchains("rust, wasm").is_err());
}

#[test]
fn studio_build_adapter_input_is_a_fixed_allowlist() {
    assert_eq!(parse_studio_build_adapter("  PNPM ").unwrap(), "pnpm".to_owned());
    assert!(parse_studio_build_adapter("sh -c cargo").is_err());
    assert!(parse_studio_build_adapter("").is_err());
}

#[test]
fn post_install_bundle_input_is_bounded_and_canonicalized() {
    assert_eq!(
        parse_provision_bundles(" Rust, android, chrome, rust ").unwrap(),
        vec!["rust".to_owned(), "android-sdk".to_owned(), "chrome".to_owned()]
    );
    assert!(parse_provision_bundles(" ").is_err());
    assert!(parse_provision_bundles("chrome; rm").is_err());
}

#[test]
fn workspace_listing_formats_directories_files_and_links_without_fake_paths() {
    let listing = format_workspace_entries(&[
        ("src".to_owned(), true, false, 0),
        ("README.md".to_owned(), false, false, 42),
        ("link".to_owned(), false, true, 0),
    ]);
    assert_eq!(listing, "▾ src\n· README.md · 42 B\n· link ↗");
    assert!(validate_studio_directory("").is_ok());
    assert!(validate_studio_directory("src").is_ok());
    assert!(validate_studio_directory("/etc").is_err());
}

#[test]
fn job_readout_keeps_status_metadata_and_bounded_log_text() {
    assert_eq!(
        format_job_readout(
            &JobStatusView {
                id: "job-1".to_owned(),
                lifecycle: "succeeded".to_owned(),
                exit_code: Some(0),
                output_truncated: false,
                duration_millis: 12,
                error: None,
            },
            &JobLogView {
                bytes: b"cargo ok\n".to_vec(),
                end_of_file: true,
                total_bytes: 9,
            },
        ),
        "job-1 · succeeded · exit 0 · 12 ms · log 9 bytes (complete)\ncargo ok"
    );
    assert!(format_job_readout(
        &JobStatusView {
            id: "job-2".to_owned(),
            lifecycle: "failed".to_owned(),
            exit_code: Some(1),
            output_truncated: true,
            duration_millis: 4,
            error: Some("command failed".to_owned()),
        },
        &JobLogView {
            bytes: Vec::new(),
            end_of_file: true,
            total_bytes: 0,
        },
    )
    .contains("output truncated · error: command failed"));
}

#[test]
fn logs_that_are_no_text_are_shown_with_marks() {
    let line = format_job_readout(
        &JobStatusView {
            id: "job-3".to_owned(),
            lifecycle: "succeeded".to_owned(),
            exit_code: Some(0),
            output_truncated: false,
            duration_millis: 1,
            error: None,
        },
        &JobLogView { bytes: vec![b'o', 0xff, b'k'], end_of_file: true, total_bytes: 3 },
    );
    assert!(line.ends_with("o\u{fffd}k"));
}

#[test]
fn running_jobs_need_no_log() {
    let mut status = JobStatusView {
        id: "job-4".to_owned(),
        lifecycle: "running".to_owned(),
        exit_code: None,
        output_truncated: false,
        duration_millis: 0,
        error: None,
    };
    assert!(describe_job(&status, Err("missing".to_owned())).is_ok());
    status.lifecycle = "failed".to_owned();
    assert_eq!(
        describe_job(&status, Err("missing".to_owned())),
        Err("job log read failed: missing".to_owned())
    );
}

#[test]
fn free_space_is_the_last_number() {
    assert_eq!(available_disk_bytes(&DiskProbe::Wrote(b"Avail\n1024\n".to_vec())), Ok(1024));
    assert_eq!(
        available_disk_bytes(&DiskProbe::Wrote(b"Avail\n".to_vec())),
        Err("disk-space probe returned no numeric free-space value".to_owned())
    );
    assert_eq!(
        available_disk_bytes(&DiskProbe::NotRun("gone".to_owned())),
        Err("disk-space probe failed for /usr/bin/df: gone".to_owned())
    );
    assert_eq!(
        available_disk_bytes(&DiskProbe::Failed("exit status: 1".to_owned())),
        Err("disk-space probe failed with exit status: 1".to_owned())
    );
    assert_eq!(
        disk_probe_command("/w"),
        vec!["/usr/bin/df", "-B1", "--output=avail", "--", "/w"]
    );
    assert_eq!(disk_probe_path("/workspaces/devcore", true), "/workspaces/devcore");
    assert_ne!(disk_probe_path("/workspaces/devcore", false), "/workspaces/devcore");
}

#[test]
fn fields_are_checked_before_anything_is_asked() {
    assert!(validate_studio_environment("", "/w").is_err());
    assert!(validate_studio_environment(IMAGE, " ").is_err());
    assert!(validate_studio_environment(IMAGE, "/w").is_ok());
    assert!(validate_studio_file_path("").is_err());
    assert!(validate_studio_file_path("/etc/passwd").is_err());
    assert!(validate_studio_file_path("src/lib.rs").is_ok());
}

#[test]
fn buttons_ask_for_their_call() {
    let shown = screen();
    match shown.handle_studio_action("Build", 7, 3).unwrap() {
        StudioCall::Build { job_id, adapter, workspace, .. } => {
            assert_eq!(job_id, next_studio_job("build", 7, 3));
            assert_eq!(adapter, "cargo");
            assert_eq!(workspace, "/workspaces/devcore");
        }
        _ => panic!("no build"),
    }
    assert!(matches!(
        shown.handle_studio_action("WriteFile", 7, 3).unwrap(),
        StudioCall::Write { contents, .. } if contents == "text"
    ));
    assert_eq!(
        shown.handle_studio_action("RefreshJob", 7, 3).unwrap_err(),
        "no Studio job has been submitted"
    );
    assert_eq!(
        shown.handle_studio_action("Launch \"it\"", 7, 3).unwrap_err(),
        "unsupported Studio action \"Launch \\\"it\\\"\""
    );
}

#[test]
fn a_listing_is_shown() {
    let mut shown = screen();
    let call = shown.handle_studio_action("ListFiles", 7, 3).unwrap();
    let next = shown.handle_reply(
        "ListFiles",
        &call,
        Ok(StudioReply::Entries(vec![("src".to_owned(), true, false, 0)])),
    );
    assert!(next.is_none());
    assert_eq!(shown.explorer_entries, "▾ src");
    assert_eq!(shown.explorer_readout, "1 entries · workspace root");
    assert_eq!(shown.status_message, "Workspace listing refreshed · 1 entries");
}

#[test]
fn downloads_start_only_after_the_disk_was_looked_at() {
    let mut shown = screen();
    let connect = shown.handle_studio_action("ProvisionStart", 7, 3).unwrap();
    let probe = shown.handle_reply("ProvisionStart", &connect, Ok(StudioReply::Done)).unwrap();
    assert!(matches!(&probe, StudioCall::ProbeDisk { start: true, .. }));
    let start = shown
        .handle_reply("ProvisionStart", &probe, Ok(StudioReply::Bytes(4096)))
        .unwrap();
    assert!(matches!(&start, StudioCall::ProvisionStart { disk: 4096, .. }));
    shown.handle_reply("ProvisionStart", &start, Ok(StudioReply::Text("request-1".to_owned())));
    assert_eq!(shown.provisioning_request_id, "request-1");

    let mut planning = screen();
    let connect = planning.handle_studio_action("ProvisionPlan", 7, 3).unwrap();
    let probe = planning.handle_reply("ProvisionPlan", &connect, Ok(StudioReply::Done)).unwrap();
    let plan = planning
        .handle_reply("ProvisionPlan", &probe, Ok(StudioReply::Bytes(4096)))
        .unwrap();
    assert!(matches!(plan, StudioCall::ProvisionPlan { .. }));
}

#[test]
fn the_status_document_names_the_request() {
    let mut shown = screen();
    let call = shown.handle_studio_action("ProvisionStatus", 7, 3).unwrap();
    shown.handle_reply(
        "ProvisionStatus",
        &call,
        Ok(StudioReply::Text("{\"state\":{\"request_id\":\"provision-7-1\"}}".to_owned())),
    );
    assert_eq!(shown.provisioning_request_id, "provision-7-1");
    shown.handle_reply(
        "ProvisionStatus",
        &call,
        Ok(StudioReply::Text("{\"state\":{\"request_id\":null}}".to_owned())),
    );
    assert_eq!(shown.provisioning_request_id, "provision-7-1");
}

#[test]
fn failures_only_change_the_words() {
    let mut shown = screen();
    let call = shown.handle_studio_action("Build", 7, 3).unwrap();
    shown.handle_reply("Build", &call, Err("no bus".to_owned()));
    assert_eq!(shown.status_message, "Studio action unavailable: no bus");
    assert_eq!(shown.job_id, "");
    assert_eq!(shown.file_content, "text");
}
