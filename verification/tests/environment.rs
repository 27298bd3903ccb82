//! Development environments and the containers they run in.

use devcore::environment::{EnvironmentError, EnvironmentSpec, NetworkPolicy, Toolchain};

fn spec(network: NetworkPolicy) -> EnvironmentSpec {
    EnvironmentSpec::new(
        "devcore-rust",
        "quay.io/devcore/rust@sha256:0123456789abcdef0123456789abcdef0123456789abcdef0123456789abcdef",
        "/workspaces/devcore",
        vec![Toolchain::Rust],
        network,
    )
    .unwrap()
}

#[test]
fn create_command_is_rootless_read_only_and_workspace_scoped() {
    let command = spec(NetworkPolicy::Disabled).create_command();
    let joined = command.join(" ");

    assert!(joined.contains("--userns=keep-id"));
    assert!(joined.contains("--cap-drop=ALL"));
    assert!(joined.contains("--read-only"));
    assert!(joined.contains("--network=none"));
    assert!(joined.contains("dst=/workspace"));
    assert!(!joined.contains("--privileged"));
    assert!(!joined.contains("--pid=host"));
}

#[test]
fn enabled_network_is_explicit() {
    let command = spec(NetworkPolicy::Enabled).create_command();

    assert!(!command.iter().any(|argument| argument == "--network=none"));
    assert!(spec(NetworkPolicy::Enabled).is_digest_pinned());

    let mut tagged = spec(NetworkPolicy::Enabled);
    tagged.image = "quay.io/devcore/rust:latest".to_owned();
    assert!(!tagged.is_digest_pinned());

    let mut malformed = spec(NetworkPolicy::Enabled);
    malformed.image = "quay.io/devcore/rust@sha256:not-a-digest".to_owned();
    assert!(!malformed.is_digest_pinned());
}

#[test]
fn exec_preserves_arguments_without_shell_interpolation() {
    let args = vec![
        "build".to_owned(),
        "--profile".to_owned(),
        "dev mode".to_owned(),
    ];
    let command = spec(NetworkPolicy::Disabled).exec_command("cargo", &args);

    assert_eq!(command[0], "podman");
    assert_eq!(command[3], "cargo");
    assert_eq!(command[6], "dev mode");
}

#[test]
fn exec_maps_only_workspace_relative_directories() {
    let environment = spec(NetworkPolicy::Disabled);
    let args = vec!["build".to_owned()];
    let command = environment
        .exec_command_at("/workspaces/devcore/crates/core", "cargo", &args)
        .unwrap();

    assert_eq!(
        command,
        vec![
            "podman",
            "exec",
            "--workdir",
            "/workspace/crates/core",
            "devcore-rust",
            "cargo",
            "build"
        ]
    );
    assert!(environment
        .exec_command_at("/workspaces/other", "cargo", &args)
        .is_err());
}

#[test]
fn run_maps_workspace_and_keeps_the_container_disposable() {
    let environment = spec(NetworkPolicy::Disabled);
    let args = vec!["test".to_owned()];
    let command = environment
        .run_command_at("/workspaces/devcore/crates/core", "cargo", &args)
        .unwrap();

    assert_eq!(command[0..3], ["podman", "run", "--rm"]);
    assert!(command
        .iter()
        .any(|argument| argument == "/workspace/crates/core"));
    assert!(command.iter().any(|argument| argument == "--network=none"));
    assert_eq!(command[command.len() - 2..], ["cargo", "test"]);
    assert!(environment
        .run_command_at("/workspaces/other", "cargo", &args)
        .is_err());
}

#[test]
fn creates_lifecycle_requests_without_invoking_podman() {
    let environment = spec(NetworkPolicy::Disabled);
    let args = vec!["test".to_owned()];

    let create = environment.create_execution_request("create-job").unwrap();
    let exec = environment
        .exec_execution_request("exec-job", "/workspaces/devcore", "cargo", &args)
        .unwrap();
    let run = environment
        .run_execution_request_at("run-job", "/workspaces/devcore", "cargo", &args)
        .unwrap();
    let stop = environment.stop_execution_request("stop-job").unwrap();
    let remove = environment.remove_execution_request("remove-job").unwrap();

    assert_eq!(create.argv[0..3], ["podman", "run", "--detach"]);
    assert_eq!(exec.argv[0..2], ["podman", "exec"]);
    assert_eq!(run.argv[0..3], ["podman", "run", "--rm"]);
    assert_eq!(stop.argv, ["podman", "stop", "devcore-rust"]);
    assert_eq!(remove.argv, ["podman", "rm", "devcore-rust"]);
}

#[test]
fn all_prompt_toolchains_have_stable_identifiers() {
    let toolchains = [
        Toolchain::Rust,
        Toolchain::Go,
        Toolchain::Python,
        Toolchain::Node,
        Toolchain::Flutter,
        Toolchain::AndroidSdk,
        Toolchain::Java,
        Toolchain::Qt,
        Toolchain::CMake,
    ];
    let identifiers = toolchains.map(Toolchain::as_str);

    assert_eq!(
        identifiers,
        [
            "rust",
            "go",
            "python",
            "node",
            "flutter",
            "android-sdk",
            "java",
            "qt",
            "cmake",
        ]
    );
    for toolchain in toolchains {
        assert_eq!(Toolchain::parse(toolchain.as_str()), Some(toolchain));
    }
    assert_eq!(Toolchain::parse("cobol"), None);
}

#[test]
fn lifecycle_requests_revalidate_the_environment() {
    let mut environment = spec(NetworkPolicy::Disabled);
    environment.name = "Bad Name".to_owned();

    assert!(matches!(
        environment.create_execution_request("create-job"),
        Err(EnvironmentError::InvalidName(_))
    ));
    assert!(matches!(
        environment.stop_execution_request("stop-job"),
        Err(EnvironmentError::InvalidName(_))
    ));
}

#[test]
fn invalid_definitions_are_rejected() {
    let result = EnvironmentSpec::new(
        "Bad Name",
        "image:latest",
        "/workspace/../host",
        Vec::new(),
        NetworkPolicy::Disabled,
    );

    assert!(matches!(result, Err(EnvironmentError::InvalidName(_))));

    let result = EnvironmentSpec::new(
        "devcore-rust",
        "image:latest",
        "/workspace,unsafe",
        vec![Toolchain::Rust],
        NetworkPolicy::Disabled,
    );
    assert!(matches!(result, Err(EnvironmentError::InvalidWorkspace(_))));
}

#[test]
fn workspaces_are_normalized_paths() {
    for workspace in [
        "/workspaces/./devcore",
        "/workspaces/../devcore",
        "/workspaces//devcore",
        "/workspaces/devcore/",
        "/workspaces/devcore/.",
        "/",
        "",
    ] {
        let spec = EnvironmentSpec {
            name: "devcore-rust".to_owned(),
            image: "image:latest".to_owned(),
            workspace: workspace.to_owned(),
            toolchains: vec![Toolchain::Rust],
            network: NetworkPolicy::Disabled,
        };
        assert_eq!(
            spec.validate(),
            Err(EnvironmentError::InvalidWorkspace(workspace.to_owned()))
        );
    }
}

#[test]
fn every_part_of_a_definition_is_checked() {
    let new = |name: &str, image: &str, workspace: &str, toolchains: Vec<Toolchain>| {
        EnvironmentSpec::new(name, image, workspace, toolchains, NetworkPolicy::Disabled)
    };
    assert!(matches!(
        new("ok", "bad image", "/w", vec![Toolchain::Go]),
        Err(EnvironmentError::InvalidImage(_))
    ));
    assert!(matches!(
        new("ok", "image", "relative", vec![Toolchain::Go]),
        Err(EnvironmentError::InvalidWorkspace(_))
    ));
    assert!(matches!(
        new("ok", "image", "/w/../x", vec![Toolchain::Go]),
        Err(EnvironmentError::InvalidWorkspace(_))
    ));
    assert!(new("ok", "image", "/w", Vec::new()).is_err());
    let error = new("Bad Name", "image", "/w", vec![Toolchain::Go]).unwrap_err();
    assert!(error.message().contains("Bad Name"));
}
