//! Commands for an editor that takes extensions.

use devcore::extensions::{ExtensionError, ExtensionHost, HOST_PATHS};

#[test]
fn host_plans_direct_workspace_and_extension_commands() {
    let host = ExtensionHost::new("/usr/bin/code-oss").unwrap();
    let root = "/tmp/devcore-extensions-test";
    assert_eq!(
        host.open_workspace_command(root, true).unwrap(),
        vec!["/usr/bin/code-oss".to_owned(), "--reuse-window".to_owned(), root.to_owned()]
    );
    assert_eq!(host.list_command(), vec!["/usr/bin/code-oss", "--list-extensions"]);
    assert_eq!(
        host.install_command("rust-lang.rust-analyzer").unwrap(),
        vec![
            "/usr/bin/code-oss",
            "--install-extension",
            "rust-lang.rust-analyzer",
            "--force"
        ]
    );
    assert_eq!(
        host.uninstall_command("rust-lang.rust-analyzer").unwrap(),
        vec![
            "/usr/bin/code-oss",
            "--uninstall-extension",
            "rust-lang.rust-analyzer"
        ]
    );
}

#[test]
fn extension_sources_reject_shell_fragments_and_unsafe_vsix_paths() {
    let host = ExtensionHost::new("/usr/bin/code").unwrap();
    assert!(matches!(
        host.install_command("publisher.ext; rm -rf /"),
        Err(ExtensionError::InvalidSource(_)) | Err(ExtensionError::InvalidIdentifier(_))
    ));
    assert!(host.install_command("/tmp/../extension.vsix").is_err());
    assert!(host.uninstall_command("publisher").is_err());
    assert!(host.uninstall_command("publisher.ext.more").is_err());
}

#[test]
fn workspace_requests_require_existing_absolute_directories() {
    let host = ExtensionHost::new("/usr/bin/code").unwrap();
    assert!(host.open_workspace_command("workspace", true).is_err());
    assert!(host
        .open_workspace_command("/tmp/devcore-no-such-extension-workspace", false)
        .is_err());
}

#[test]
fn the_first_installed_host_is_taken() {
    assert_eq!(
        ExtensionHost::discover(&[false, true, true, false]).unwrap().program(),
        HOST_PATHS[1]
    );
    assert!(ExtensionHost::discover(&[false; 4]).is_none());
}

#[test]
fn each_error_names_what_was_refused() {
    assert_eq!(
        ExtensionHost::new("code").unwrap_err().message(),
        "extension host path is not a safe absolute path: code"
    );
    let host = ExtensionHost::new("/usr/bin/code").unwrap();
    assert_eq!(
        host.open_workspace_command("/gone", false).unwrap_err(),
        ExtensionError::InvalidWorkspace("/gone".to_owned())
    );
    assert_eq!(
        host.install_command("a b").unwrap_err().message(),
        "invalid extension source \"a b\""
    );
    assert_eq!(
        host.uninstall_command("pub\"lisher").unwrap_err().message(),
        "invalid extension identifier \"pub\\\"lisher\""
    );
    assert!(host.install_command("/tmp/extension.vsix").is_ok());
    assert!(host.install_command("extension.vsix").is_err());
    assert!(host.install_command(&"x".repeat(513)).is_err());
}
