//! Files of a workspace, on a filesystem that is held in memory.

use devcore::environment::{EnvironmentSpec, NetworkPolicy, Toolchain};
use devcore::work::{WorkError, WorkState};
use devcore::workspace::{
    continue_list, continue_read, continue_write, EntryMetadata, ListDecision, ListReply, ListStep,
    RawEntry, ReadDecision, ReadReply, ReadStep, WorkspaceEntry, WorkspaceTextFile, WriteDecision,
    WriteReply, WriteStage, MAX_WORKSPACE_ENTRIES, MAX_WORKSPACE_TEXT_BYTES,
};

#[derive(Clone)]
enum Node {
    Directory,
    File(Vec<u8>, u32),
    Link(String),
}

struct Files {
    nodes: Vec<(String, Node)>,
}

impl Files {
    fn new(root: &str) -> Files {
        let mut files = Files { nodes: Vec::new() };
        files.put(root, Node::Directory);
        files.put(&format!("{root}/src"), Node::Directory);
        files
    }

    fn put(&mut self, path: &str, node: Node) {
        self.nodes.retain(|(name, _)| name != path);
        self.nodes.push((path.to_owned(), node));
    }

    fn file(&mut self, path: &str, text: &str) {
        self.put(path, Node::File(text.as_bytes().to_vec(), 0o644));
    }

    fn node(&self, path: &str) -> Option<Node> {
        self.nodes.iter().find(|(name, _)| name == path).map(|(_, node)| node.clone())
    }

    fn text(&self, path: &str) -> String {
        match self.node(path) {
            Some(Node::File(bytes, _)) => String::from_utf8(bytes).unwrap(),
            _ => panic!("{path} is no file"),
        }
    }

    fn resolve(&self, path: &str) -> Option<String> {
        let mut actual = String::new();
        for part in path.split('/').filter(|part| !part.is_empty()) {
            actual = format!("{actual}/{part}");
            if let Some(Node::Link(target)) = self.node(&actual) {
                actual = target;
            }
        }
        match self.node(&actual) {
            Some(_) => Some(actual),
            None => None,
        }
    }

    fn is_directory(&self, path: &str) -> bool {
        matches!(self.node(path), Some(Node::Directory))
    }

    fn read(&self, work: &WorkState, path: &str) -> Result<WorkspaceTextFile, WorkError> {
        let mut decision = work.read_workspace_file("devcore-rust", path);
        loop {
            let step = match decision {
                ReadDecision::Done(file) => return Ok(file),
                ReadDecision::Refused(error) => return Err(error),
                ReadDecision::Continue(step) => step,
            };
            let reply = match &step {
                ReadStep::ResolveRoot { workspace: path, .. }
                | ReadStep::ResolveFile { path, .. } => match self.resolve(path) {
                    Some(actual) => ReadReply::Resolved {
                        is_directory: self.is_directory(&actual),
                        path: actual,
                    },
                    None => ReadReply::Failed("No such file or directory".to_owned()),
                },
                ReadStep::InspectFile { path, .. } => match self.node(path) {
                    Some(Node::File(bytes, _)) => {
                        ReadReply::Inspected { is_file: true, bytes: bytes.len() as u64 }
                    }
                    _ => ReadReply::Inspected { is_file: false, bytes: 0 },
                },
                ReadStep::ReadContents { path, .. } => match self.node(path) {
                    Some(Node::File(bytes, _)) => ReadReply::Contents(bytes),
                    _ => ReadReply::Failed("gone".to_owned()),
                },
            };
            decision = continue_read(&step, reply);
        }
    }

    fn write(
        &mut self,
        work: &WorkState,
        path: &str,
        contents: &str,
    ) -> Result<WorkspaceTextFile, WorkError> {
        let mut decision = work.write_workspace_file("devcore-rust", path, contents);
        loop {
            let write = match decision {
                WriteDecision::Done(file) => return Ok(file),
                WriteDecision::Refused { error, .. } => return Err(error),
                WriteDecision::Continue(write) => write,
            };
            let resolve = |path: &str| match self.resolve(path) {
                Some(actual) => WriteReply::Resolved {
                    is_directory: self.is_directory(&actual),
                    path: actual,
                },
                None => WriteReply::Failed("No such file or directory".to_owned()),
            };
            let reply = match write.stage {
                WriteStage::ResolveRoot => resolve(&write.workspace),
                WriteStage::ResolveParent => resolve(&write.parent),
                WriteStage::ResolveTarget => resolve(&write.target),
                WriteStage::InspectTarget => match self.node(&write.target) {
                    None => WriteReply::Missing,
                    Some(Node::File(_, mode)) => {
                        WriteReply::Inspected { is_symlink: false, is_file: true, mode }
                    }
                    Some(Node::Link(_)) => {
                        WriteReply::Inspected { is_symlink: true, is_file: false, mode: 0o777 }
                    }
                    Some(Node::Directory) => {
                        WriteReply::Inspected { is_symlink: false, is_file: false, mode: 0o755 }
                    }
                },
                WriteStage::CreateTemporary => {
                    assert!(self.node(&write.temporary).is_none());
                    self.put(&write.temporary, Node::File(Vec::new(), write.mode));
                    WriteReply::Done
                }
                WriteStage::WriteContents => {
                    let bytes = write.contents.as_bytes().to_vec();
                    self.put(&write.temporary, Node::File(bytes, write.mode));
                    WriteReply::Done
                }
                WriteStage::Rename => {
                    let node = self.node(&write.temporary).unwrap();
                    self.nodes.retain(|(name, _)| *name != write.temporary);
                    self.put(&write.target, node);
                    WriteReply::Done
                }
            };
            decision = continue_write(write, reply, 7, 1);
        }
    }

    fn list(&self, work: &WorkState, path: &str) -> Result<Vec<WorkspaceEntry>, WorkError> {
        let mut decision = work.list_workspace("devcore-rust", path);
        loop {
            let step = match decision {
                ListDecision::Done(entries) => return Ok(entries),
                ListDecision::Refused(error) => return Err(error),
                ListDecision::Continue(step) => step,
            };
            let reply = match &step {
                ListStep::ResolveRoot { workspace: path, .. }
                | ListStep::ResolveDirectory { path, .. } => match self.resolve(path) {
                    Some(actual) => ListReply::Resolved {
                        is_directory: self.is_directory(&actual),
                        path: actual,
                    },
                    None => ListReply::Failed("No such file or directory".to_owned()),
                },
                ListStep::ReadEntries { path, .. } => ListReply::Entries(self.entries(path)),
            };
            decision = continue_list(&step, reply);
        }
    }

    fn entries(&self, directory: &str) -> Vec<RawEntry> {
        let prefix = format!("{directory}/");
        self.nodes
            .iter()
            .filter(|(name, _)| name.starts_with(&prefix) && !name[prefix.len()..].contains('/'))
            .map(|(name, node)| RawEntry::Entry {
                name: name[prefix.len()..].to_owned(),
                metadata: Ok(EntryMetadata {
                    is_directory: matches!(node, Node::Directory),
                    is_symlink: matches!(node, Node::Link(_)),
                    is_file: matches!(node, Node::File(..)),
                    bytes: match node {
                        Node::File(bytes, _) => bytes.len() as u64,
                        _ => 4096,
                    },
                }),
            })
            .collect()
    }
}

fn work(root: &str) -> WorkState {
    let mut work = WorkState::new();
    work.define_environment(
        EnvironmentSpec::new(
            "devcore-rust",
            "quay.io/devcore/rust@sha256:0123456789abcdef0123456789abcdef0123456789abcdef0123456789abcdef",
            root,
            vec![Toolchain::Rust],
            NetworkPolicy::Disabled,
        )
        .unwrap(),
    )
    .unwrap();
    work
}

#[test]
fn studio_workspace_reads_and_atomically_replaces_utf8_text() {
    let root = "/tmp/roundtrip";
    let mut files = Files::new(root);
    files.file("/tmp/roundtrip/README.md", "before\n");
    let work = work(root);

    let original = files.read(&work, "README.md").unwrap();
    assert_eq!(original.path, "README.md");
    assert_eq!(original.contents, "before\n");

    let saved = files.write(&work, "README.md", "after\n✓\n").unwrap();
    assert_eq!(saved.path, "README.md");
    assert_eq!(saved.contents, "after\n✓\n");
    assert_eq!(files.text("/tmp/roundtrip/README.md"), "after\n✓\n");
    assert!(!files.nodes.iter().any(|(name, _)| name.contains("devcore-tmp")));
}

#[test]
fn studio_workspace_lists_directories_before_bounded_file_entries() {
    let root = "/tmp/listing";
    let mut files = Files::new(root);
    files.file("/tmp/listing/README.md", "safe\n");
    files.file("/tmp/listing/src/lib.rs", "fn main() {}\n");
    let work = work(root);

    let entries = files.list(&work, "").unwrap();
    assert_eq!(entries.len(), 2);
    assert_eq!(entries[0].path, "src");
    assert!(entries[0].directory);
    assert_eq!(entries[1].path, "README.md");
    assert!(!entries[1].directory);
    assert_eq!(entries[1].bytes, 5);

    let nested = files.list(&work, "src").unwrap();
    assert_eq!(nested[0].path, "src/lib.rs");

    files.put("/tmp/listing/many", Node::Directory);
    for index in 0..=MAX_WORKSPACE_ENTRIES {
        files.file(&format!("/tmp/listing/many/file-{index}.txt"), "x");
    }
    assert!(matches!(
        files.list(&work, "many"),
        Err(WorkError::WorkspaceFile(message)) if message.contains("more than")
    ));
}

#[test]
fn studio_workspace_rejects_traversal_absolute_and_oversized_paths() {
    let root = "/tmp/boundaries";
    let mut files = Files::new(root);
    files.file("/tmp/boundaries/README.md", "safe\n");
    let work = work(root);

    for path in ["../README.md", "./README.md", "/etc/passwd"] {
        assert!(matches!(files.read(&work, path), Err(WorkError::WorkspaceFile(_))));
    }
    for directory in ["..", "./src", "/tmp"] {
        assert!(matches!(files.list(&work, directory), Err(WorkError::WorkspaceFile(_))));
    }
    assert!(matches!(
        files.write(&work, "src/too-large.txt", &"x".repeat(MAX_WORKSPACE_TEXT_BYTES + 1)),
        Err(WorkError::WorkspaceFile(message)) if message.contains("Studio limit")
    ));
}

#[test]
fn studio_workspace_does_not_follow_symlinks_outside_the_workspace() {
    let root = "/tmp/symlink";
    let mut files = Files::new(root);
    files.put("/tmp/outside", Node::Directory);
    files.file("/tmp/outside/secret.txt", "private\n");
    files.put("/tmp/symlink/link.txt", Node::Link("/tmp/outside/secret.txt".to_owned()));
    files.put("/tmp/symlink/external", Node::Link("/tmp/outside".to_owned()));

    let work = work(root);
    for path in ["link.txt", "external/new.txt"] {
        assert!(matches!(files.read(&work, path), Err(WorkError::WorkspaceFile(_))));
        assert!(matches!(
            files.write(&work, path, "blocked\n"),
            Err(WorkError::WorkspaceFile(_))
        ));
    }
    assert_eq!(files.text("/tmp/outside/secret.txt"), "private\n");
}

#[test]
fn permissions_of_a_replaced_file_are_kept() {
    let root = "/tmp/modes";
    let mut files = Files::new(root);
    files.put("/tmp/modes/run.sh", Node::File(b"old".to_vec(), 0o755));
    let work = work(root);
    files.write(&work, "run.sh", "new").unwrap();
    assert!(matches!(
        files.node("/tmp/modes/run.sh"),
        Some(Node::File(bytes, mode)) if bytes == b"new" && mode & 0o777 == 0o755
    ));
    files.write(&work, "src/fresh.txt", "text").unwrap();
    assert_eq!(files.text("/tmp/modes/src/fresh.txt"), "text");
}

#[test]
fn a_failed_write_removes_its_temporary_file() {
    let root = "/tmp/failing";
    let work = work(root);
    let mut decision = work.write_workspace_file("devcore-rust", "a.txt", "text");
    let mut removed = None;
    while let WriteDecision::Continue(write) = decision {
        let reply = match write.stage {
            WriteStage::ResolveRoot | WriteStage::ResolveParent => {
                WriteReply::Resolved { path: root.to_owned(), is_directory: true }
            }
            WriteStage::InspectTarget => WriteReply::Missing,
            WriteStage::Rename => WriteReply::Failed("read-only".to_owned()),
            _ => WriteReply::Done,
        };
        decision = continue_write(write, reply, 7, 1);
        if let WriteDecision::Refused { remove_temporary, error } = &decision {
            removed = Some(*remove_temporary);
            assert!(error.message().contains("read-only"));
        }
    }
    assert_eq!(removed, Some(true));
}

#[test]
fn texts_have_to_be_text() {
    let root = "/tmp/binary";
    let mut files = Files::new(root);
    files.put("/tmp/binary/a.bin", Node::File(vec![0xff, 0xfe], 0o644));
    let work = work(root);
    assert!(matches!(files.read(&work, "a.bin"), Err(WorkError::WorkspaceFile(_))));
    assert!(matches!(files.read(&work, "src"), Err(WorkError::WorkspaceFile(_))));
    assert!(matches!(
        work.read_workspace_file("other", "a.bin"),
        ReadDecision::Refused(WorkError::UnknownEnvironment(_))
    ));
}
