//! Rootless container environments: definitions and the commands that run
//! programs inside them.
//!
//! The commands are argument vectors for Podman. Nothing here runs them.

use crate::execution::ExecutionRequest;
use crate::path::{
    components, components_of_a_child_of_the_root, is_absolute, is_name, join_path, joined,
    dots_and_repeated_separators_say_nothing, joining_a_name_adds_a_component,
    joins_have_one_separator, names_hold_no_separator, path_is_absolute, strip_base,
};
use crate::text::{
    all_chars, chars_of, contains_char, contains_white_space, debug_form, debug_text, digit,
    ends_in, ends_in_digest, gives, has_white_space, is_digest_reference, is_digit, is_lower, join,
    lower, pieces, push_text, push_texts, same, split, texts,
};
use vstd::prelude::*;

verus! {

/// Language and toolchain families.
#[derive(Clone, Copy, Debug, PartialEq, Eq, Structural)]
pub enum Toolchain {
    /// Rust and Cargo.
    Rust,
    /// Go.
    Go,
    /// Python.
    Python,
    /// Node.js with npm or pnpm.
    Node,
    /// Flutter and Dart.
    Flutter,
    /// Android SDK and Gradle.
    AndroidSdk,
    /// Java and Gradle.
    Java,
    /// Qt.
    Qt,
    /// CMake and native code.
    CMake,
}

impl Toolchain {
    /// The stable identifier of a toolchain.
    pub open spec fn label(self) -> Seq<char> {
        match self {
            Toolchain::Rust => "rust"@,
            Toolchain::Go => "go"@,
            Toolchain::Python => "python"@,
            Toolchain::Node => "node"@,
            Toolchain::Flutter => "flutter"@,
            Toolchain::AndroidSdk => "android-sdk"@,
            Toolchain::Java => "java"@,
            Toolchain::Qt => "qt"@,
            Toolchain::CMake => "cmake"@,
        }
    }

    /// Returns the stable identifier of a toolchain.
    pub fn as_str(self) -> (text: &'static str)
        ensures
            text@ == self.label(),
    {
        match self {
            Toolchain::Rust => "rust",
            Toolchain::Go => "go",
            Toolchain::Python => "python",
            Toolchain::Node => "node",
            Toolchain::Flutter => "flutter",
            Toolchain::AndroidSdk => "android-sdk",
            Toolchain::Java => "java",
            Toolchain::Qt => "qt",
            Toolchain::CMake => "cmake",
        }
    }

    /// Reads the identifier of a toolchain.
    pub fn parse(value: &str) -> (toolchain: Option<Toolchain>)
        ensures
            match toolchain {
                Some(found) => value@ == found.label(),
                None => forall|other: Toolchain| value@ != #[trigger] other.label(),
            },
    {
        if same(value, "rust") {
            Some(Toolchain::Rust)
        } else if same(value, "go") {
            Some(Toolchain::Go)
        } else if same(value, "python") {
            Some(Toolchain::Python)
        } else if same(value, "node") {
            Some(Toolchain::Node)
        } else if same(value, "flutter") {
            Some(Toolchain::Flutter)
        } else if same(value, "android-sdk") {
            Some(Toolchain::AndroidSdk)
        } else if same(value, "java") {
            Some(Toolchain::Java)
        } else if same(value, "qt") {
            Some(Toolchain::Qt)
        } else if same(value, "cmake") {
            Some(Toolchain::CMake)
        } else {
            None
        }
    }
}

/// Different toolchains have different identifiers.
pub proof fn toolchain_labels_differ(a: Toolchain, b: Toolchain)
    requires
        a.label() == b.label(),
    ensures
        a == b,
{
    reveal_strlit("rust");
    reveal_strlit("go");
    reveal_strlit("python");
    reveal_strlit("node");
    reveal_strlit("flutter");
    reveal_strlit("android-sdk");
    reveal_strlit("java");
    reveal_strlit("qt");
    reveal_strlit("cmake");
    assert("rust"@.len() == 4);
    assert("go"@.len() == 2);
    assert("python"@.len() == 6);
    assert("node"@.len() == 4);
    assert("flutter"@.len() == 7);
    assert("android-sdk"@.len() == 11);
    assert("java"@.len() == 4);
    assert("qt"@.len() == 2);
    assert("cmake"@.len() == 5);
    assert("rust"@[0] != "node"@[0]);
    assert("rust"@[0] != "java"@[0]);
    assert("go"@[0] != "qt"@[0]);
    assert("node"@[0] != "java"@[0]);
}

/// Whether a command in an environment has a network.
#[derive(Clone, Copy, Debug, PartialEq, Eq, Structural)]
pub enum NetworkPolicy {
    /// No network.
    Disabled,
    /// A network, for commands that fetch dependencies.
    Enabled,
}

/// Definition of an environment.
#[derive(Clone, Debug, PartialEq, Eq)]
pub struct EnvironmentSpec {
    /// Name under which the container runs.
    pub name: String,
    /// Image reference.
    pub image: String,
    /// Directory that is mounted at `/workspace`.
    pub workspace: String,
    /// Toolchains that the workspace expects.
    pub toolchains: Vec<Toolchain>,
    /// Network of commands in the environment.
    pub network: NetworkPolicy,
}

/// Why a definition or a command is refused.
#[derive(Clone, Debug, PartialEq, Eq)]
pub enum EnvironmentError {
    /// The name cannot name a container.
    InvalidName(String),
    /// The image reference is empty or holds white space.
    InvalidImage(String),
    /// The workspace is no absolute, normalized path below the root.
    InvalidWorkspace(String),
    /// No toolchain is named.
    NoToolchain,
    /// The working directory is not inside the workspace.
    InvalidWorkingDirectory(String),
}

/// Lower case letters, digits and hyphens.
pub open spec fn is_name_char(c: char) -> bool {
    is_lower(c) || is_digit(c) || c == '-'
}

/// A name for a container: 1 to 63 lower case letters, digits and hyphens,
/// none of the latter in front.
pub open spec fn valid_name(name: Seq<char>) -> bool {
    &&& 0 < name.len() <= 63
    &&& forall|i: int| 0 <= i < name.len() ==> is_name_char(#[trigger] name[i])
    &&& name[0] != '-'
}

/// An image reference that can be handed on: not empty and without white space.
pub open spec fn valid_image(image: Seq<char>) -> bool {
    image.len() > 0 && !has_white_space(image)
}

/// A segment of a normalized path: neither empty nor relative.
pub open spec fn normal_segment(segment: Seq<char>) -> bool {
    segment != ""@ && segment != "."@ && segment != ".."@
}

/// A path in the one form that names it: every segment behind the first
/// separator is a name. No separator is doubled or stands at the end, so the
/// root has no such form.
pub open spec fn is_normalized(path: Seq<char>) -> bool {
    forall|i: int|
        1 <= i < pieces(path, '/').len() ==> normal_segment(#[trigger] pieces(path, '/')[i])
}

/// A directory that can be mounted: absolute, below the root, normalized, and
/// without the characters that separate mount options.
pub open spec fn valid_workspace(path: Seq<char>) -> bool {
    &&& is_absolute(path)
    &&& is_normalized(path)
    &&& !path.contains(',')
    &&& !path.contains(':')
}

fn name_char(c: char) -> (result: bool)
    ensures
        result == is_name_char(c),
{
    lower(c) || digit(c) || c == '-'
}

fn check_name(name: &str) -> (result: bool)
    ensures
        result == valid_name(name@),
{
    let chars = chars_of(name);
    chars.len() > 0 && chars.len() <= 63 && all_chars(name, name_char) && chars[0] != '-'
}

fn check_workspace(path: &str) -> (result: bool)
    ensures
        result == valid_workspace(path@),
{
    if !path_is_absolute(path) || contains_char(path, ',') || contains_char(path, ':') {
        return false;
    }
    let list = split(path, '/');
    let ghost all = pieces(path@, '/');
    let mut i: usize = 1;
    while i < list.len()
        invariant
            1 <= i <= list@.len(),
            texts(list@) == all,
            all == pieces(path@, '/'),
            forall|k: int| 1 <= k < i ==> normal_segment(#[trigger] all[k]),
        decreases list.len() - i,
    {
        assert(all[i as int] == list@[i as int]@);
        if same(list[i].as_str(), "") || same(list[i].as_str(), ".") || same(
            list[i].as_str(),
            "..",
        ) {
            return false;
        }
        i = i + 1;
    }
    true
}

/// A workspace that is accepted is not the root.
pub proof fn workspaces_lie_below_the_root(path: Seq<char>)
    requires
        valid_workspace(path),
    ensures
        path != "/"@,
        path.last() != '/',
{
    reveal_strlit("/");
    reveal_strlit("");
    reveal_with_fuel(pieces, 3);
    if path.last() == '/' {
        let all = pieces(path, '/');
        assert(all.last() == ""@);
        assert(!normal_segment(all[all.len() - 1]));
    }
}

/// The path below a base that a list of names leads to.
pub open spec fn below(base: Seq<char>, names: Seq<Seq<char>>) -> Seq<char>
    decreases names.len(),
{
    if names.len() == 0 {
        base
    } else {
        joined(below(base, names.drop_last()), names.last())
    }
}

/// Where a host directory is found inside the container, if it is in the
/// workspace.
pub open spec fn container_directory(
    workspace: Seq<char>,
    directory: Seq<char>,
) -> Option<Seq<char>> {
    let rest = components(directory).skip(components(workspace).len() as int);
    if components(workspace).is_prefix_of(components(directory)) && forall|i: int|
        0 <= i < rest.len() ==> is_name(#[trigger] rest[i]) {
        Some(below("/workspace"@, rest))
    } else {
        None
    }
}

/// The options that every container gets.
pub open spec fn isolation_options() -> Seq<Seq<char>> {
    seq![
        "--userns=keep-id"@,
        "--cap-drop=ALL"@,
        "--security-opt=no-new-privileges"@,
        "--read-only"@,
        "--tmpfs"@,
        "/tmp:rw,noexec,nosuid,nodev"@,
    ]
}

/// The option that mounts the workspace.
pub open spec fn mount_options(workspace: Seq<char>) -> Seq<Seq<char>> {
    seq![
        "--mount"@,
        "type=bind,src="@ + workspace + ",dst=/workspace,relabel=private"@,
        "--workdir"@,
    ]
}

/// The option that takes the network away, where the policy says so.
pub open spec fn network_options(network: NetworkPolicy) -> Seq<Seq<char>> {
    match network {
        NetworkPolicy::Disabled => seq!["--network=none"@],
        NetworkPolicy::Enabled => Seq::empty(),
    }
}

fn push_isolation(command: &mut Vec<String>)
    ensures
        texts(final(command)@) == texts(old(command)@) + isolation_options(),
{
    let ghost before = texts(command@);
    push_text(command, "--userns=keep-id");
    push_text(command, "--cap-drop=ALL");
    push_text(command, "--security-opt=no-new-privileges");
    push_text(command, "--read-only");
    push_text(command, "--tmpfs");
    push_text(command, "/tmp:rw,noexec,nosuid,nodev");
    assert(texts(command@) =~= before + isolation_options());
}

fn push_mount(command: &mut Vec<String>, workspace: &str)
    ensures
        texts(final(command)@) == texts(old(command)@) + mount_options(workspace@),
{
    let ghost before = texts(command@);
    push_text(command, "--mount");
    let mut mount = join("type=bind,src=", workspace);
    mount.append(",dst=/workspace,relabel=private");
    push_text(command, mount.as_str());
    push_text(command, "--workdir");
    assert(texts(command@) =~= before + mount_options(workspace@));
}

fn push_network(command: &mut Vec<String>, network: NetworkPolicy)
    ensures
        texts(final(command)@) == texts(old(command)@) + network_options(network),
{
    let ghost before = texts(command@);
    if network == NetworkPolicy::Disabled {
        push_text(command, "--network=none");
    }
    assert(texts(command@) =~= before + network_options(network));
}

impl EnvironmentSpec {
    /// What checking the definition gives: the first thing that is wrong, in
    /// the order name, image, workspace, toolchains.
    pub open spec fn checked(&self) -> Result<(), EnvironmentError> {
        if !valid_name(self.name@) {
            Err(EnvironmentError::InvalidName(self.name))
        } else if !valid_image(self.image@) {
            Err(EnvironmentError::InvalidImage(self.image))
        } else if !valid_workspace(self.workspace@) {
            Err(EnvironmentError::InvalidWorkspace(self.workspace))
        } else if self.toolchains@.len() == 0 {
            Err(EnvironmentError::NoToolchain)
        } else {
            Ok(())
        }
    }

    /// The command that creates the container.
    pub open spec fn create_argv(&self) -> Seq<Seq<char>> {
        seq!["podman"@, "run"@, "--detach"@, "--name"@, self.name@] + isolation_options()
            + mount_options(self.workspace@) + seq!["/workspace"@] + network_options(self.network)
            + seq![self.image@, "sleep"@, "infinity"@]
    }

    /// The command that runs a program in the running container.
    pub open spec fn exec_argv(&self, program: Seq<char>, args: Seq<Seq<char>>) -> Seq<Seq<char>> {
        seq!["podman"@, "exec"@, self.name@, program] + args
    }

    /// The command that stops the container.
    pub open spec fn stop_argv(&self) -> Seq<Seq<char>> {
        seq!["podman"@, "stop"@, self.name@]
    }

    /// The command that removes the stopped container.
    pub open spec fn remove_argv(&self) -> Seq<Seq<char>> {
        seq!["podman"@, "rm"@, self.name@]
    }

    /// The command that runs a program in a directory of the running container.
    pub open spec fn exec_argv_at(
        &self,
        directory: Seq<char>,
        program: Seq<char>,
        args: Seq<Seq<char>>,
    ) -> Seq<Seq<char>> {
        seq!["podman"@, "exec"@, "--workdir"@, directory, self.name@, program] + args
    }

    /// The command that runs a program in a directory of a container that is
    /// removed afterwards.
    pub open spec fn run_argv_at(
        &self,
        directory: Seq<char>,
        program: Seq<char>,
        args: Seq<Seq<char>>,
    ) -> Seq<Seq<char>> {
        seq!["podman"@, "run"@, "--rm"@] + isolation_options() + mount_options(self.workspace@)
            + seq![directory] + network_options(self.network) + seq![self.image@, program] + args
    }

    /// Creates and checks a definition.
    pub fn new(
        name: &str,
        image: &str,
        workspace: &str,
        toolchains: Vec<Toolchain>,
        network: NetworkPolicy,
    ) -> (result: Result<EnvironmentSpec, EnvironmentError>)
        ensures
            match result {
                Ok(spec) => spec.checked() is Ok && spec.name@ == name@ && spec.image@ == image@
                    && spec.workspace@ == workspace@ && spec.toolchains == toolchains
                    && spec.network == network,
                Err(EnvironmentError::InvalidName(text)) => text@ == name@ && !valid_name(name@),
                Err(EnvironmentError::InvalidImage(text)) => text@ == image@ && valid_name(name@)
                    && !valid_image(image@),
                Err(EnvironmentError::InvalidWorkspace(text)) => text@ == workspace@ && valid_name(
                    name@,
                ) && valid_image(image@) && !valid_workspace(workspace@),
                Err(EnvironmentError::NoToolchain) => valid_name(name@) && valid_image(image@)
                    && valid_workspace(workspace@) && toolchains@.len() == 0,
                Err(EnvironmentError::InvalidWorkingDirectory(_)) => false,
            },
    {
        let spec = EnvironmentSpec {
            name: name.to_owned(),
            image: image.to_owned(),
            workspace: workspace.to_owned(),
            toolchains,
            network,
        };
        match spec.validate() {
            Ok(_) => Ok(spec),
            Err(error) => Err(error),
        }
    }

    /// Checks the definition.
    pub fn validate(&self) -> (result: Result<(), EnvironmentError>)
        ensures
            result == self.checked(),
    {
        if !check_name(self.name.as_str()) {
            return Err(EnvironmentError::InvalidName(self.name.clone()));
        }
        if self.image.as_str().is_empty() || contains_white_space(self.image.as_str()) {
            return Err(EnvironmentError::InvalidImage(self.image.clone()));
        }
        if !check_workspace(self.workspace.as_str()) {
            return Err(EnvironmentError::InvalidWorkspace(self.workspace.clone()));
        }
        if self.toolchains.len() == 0 {
            return Err(EnvironmentError::NoToolchain);
        }
        Ok(())
    }

    /// Whether the image is settled by a digest.
    pub fn is_digest_pinned(&self) -> (result: bool)
        ensures
            result == ends_in_digest(self.image@),
    {
        is_digest_reference(self.image.as_str())
    }

    /// Builds the command that creates the container.
    pub fn create_command(&self) -> (command: Vec<String>)
        ensures
            texts(command@) == self.create_argv(),
    {
        let mut command: Vec<String> = Vec::new();
        push_text(&mut command, "podman");
        push_text(&mut command, "run");
        push_text(&mut command, "--detach");
        push_text(&mut command, "--name");
        push_text(&mut command, self.name.as_str());
        assert(texts(command@) =~= seq!["podman"@, "run"@, "--detach"@, "--name"@, self.name@]);
        push_isolation(&mut command);
        push_mount(&mut command, self.workspace.as_str());
        push_text(&mut command, "/workspace");
        push_network(&mut command, self.network);
        push_text(&mut command, self.image.as_str());
        push_text(&mut command, "sleep");
        push_text(&mut command, "infinity");
        assert(texts(command@) =~= self.create_argv());
        command
    }

    /// Builds the command that runs a program in the running container.
    pub fn exec_command(&self, program: &str, args: &[String]) -> (command: Vec<String>)
        ensures
            texts(command@) == self.exec_argv(program@, texts(args@)),
    {
        let mut command: Vec<String> = Vec::new();
        push_text(&mut command, "podman");
        push_text(&mut command, "exec");
        push_text(&mut command, self.name.as_str());
        push_text(&mut command, program);
        push_texts(&mut command, args);
        assert(texts(command@) =~= self.exec_argv(program@, texts(args@)));
        command
    }

    /// Builds the command that runs a program in a host directory, seen from
    /// the running container.
    pub fn exec_command_at(
        &self,
        working_directory: &str,
        program: &str,
        args: &[String],
    ) -> (result: Result<Vec<String>, EnvironmentError>)
        ensures
            match result {
                Ok(command) => container_directory(self.workspace@, working_directory@) is Some
                    && texts(command@) == self.exec_argv_at(
                    container_directory(self.workspace@, working_directory@)->0,
                    program@,
                    texts(args@),
                ),
                Err(error) => outside_workspace(
                    self.workspace@,
                    working_directory@,
                    error,
                ),
            },
    {
        match self.container_working_directory(working_directory) {
            Ok(directory) => {
                let mut command: Vec<String> = Vec::new();
                push_text(&mut command, "podman");
                push_text(&mut command, "exec");
                push_text(&mut command, "--workdir");
                push_text(&mut command, directory.as_str());
                push_text(&mut command, self.name.as_str());
                push_text(&mut command, program);
                push_texts(&mut command, args);
                assert(texts(command@) =~= self.exec_argv_at(directory@, program@, texts(args@)));
                Ok(command)
            },
            Err(error) => Err(error),
        }
    }

    /// Builds the command that runs a program in a host directory, seen from a
    /// container that is removed afterwards.
    pub fn run_command_at(
        &self,
        working_directory: &str,
        program: &str,
        args: &[String],
    ) -> (result: Result<Vec<String>, EnvironmentError>)
        ensures
            match result {
                Ok(command) => container_directory(self.workspace@, working_directory@) is Some
                    && texts(command@) == self.run_argv_at(
                    container_directory(self.workspace@, working_directory@)->0,
                    program@,
                    texts(args@),
                ),
                Err(error) => outside_workspace(
                    self.workspace@,
                    working_directory@,
                    error,
                ),
            },
    {
        match self.container_working_directory(working_directory) {
            Ok(directory) => {
                let mut command: Vec<String> = Vec::new();
                push_text(&mut command, "podman");
                push_text(&mut command, "run");
                push_text(&mut command, "--rm");
                assert(texts(command@) =~= seq!["podman"@, "run"@, "--rm"@]);
                push_isolation(&mut command);
                push_mount(&mut command, self.workspace.as_str());
                push_text(&mut command, directory.as_str());
                push_network(&mut command, self.network);
                push_text(&mut command, self.image.as_str());
                push_text(&mut command, program);
                push_texts(&mut command, args);
                assert(texts(command@) =~= self.run_argv_at(directory@, program@, texts(args@)));
                Ok(command)
            },
            Err(error) => Err(error),
        }
    }

    fn container_working_directory(&self, working_directory: &str) -> (result: Result<
        String,
        EnvironmentError,
    >)
        ensures
            match result {
                Ok(directory) => container_directory(self.workspace@, working_directory@) == Some(
                    directory@,
                ),
                Err(error) => outside_workspace(
                    self.workspace@,
                    working_directory@,
                    error,
                ),
            },
    {
        match strip_base(working_directory, self.workspace.as_str()) {
            Some(rest) => {
                let ghost all = components(working_directory@).skip(
                    components(self.workspace@).len() as int,
                );
                let mut directory = "/workspace".to_owned();
                let mut i: usize = 0;
                assert(all.take(0) =~= Seq::empty());
                while i < rest.len()
                    invariant
                        i <= rest@.len(),
                        texts(rest@) == all,
                        all == components(working_directory@).skip(
                            components(self.workspace@).len() as int,
                        ),
                        directory@ == below("/workspace"@, all.take(i as int)),
                        forall|k: int| 0 <= k < i ==> is_name(#[trigger] all[k]),
                    decreases rest.len() - i,
                {
                    let part = rest[i].as_str();
                    assert(all[i as int] == part@);
                    if same(part, "/") || same(part, ".") || same(part, "..") {
                        assert(!is_name(all[i as int]));
                        return Err(
                            EnvironmentError::InvalidWorkingDirectory(working_directory.to_owned()),
                        );
                    }
                    directory = join_path(directory.as_str(), part);
                    assert(all.take(i + 1).drop_last() =~= all.take(i as int));
                    assert(all.take(i + 1).last() == part@);
                    i = i + 1;
                }
                assert(all.take(i as int) =~= all);
                Ok(directory)
            },
            None => Err(EnvironmentError::InvalidWorkingDirectory(working_directory.to_owned())),
        }
    }

    /// Creates a request that starts the environment.
    pub fn create_execution_request(&self, job_id: &str) -> (result: Result<
        ExecutionRequest,
        EnvironmentError,
    >)
        ensures
            match result {
                Ok(request) => self.checked() is Ok && request.id@ == job_id@ && texts(
                    request.argv@,
                ) == self.create_argv(),
                Err(error) => self.checked() == Err::<(), EnvironmentError>(error),
            },
    {
        match self.validate() {
            Ok(_) => Ok(ExecutionRequest::from_argv(job_id, self.create_command())),
            Err(error) => Err(error),
        }
    }

    /// Creates a request that runs a program in the running environment.
    pub fn exec_execution_request(
        &self,
        job_id: &str,
        working_directory: &str,
        program: &str,
        args: &[String],
    ) -> (result: Result<ExecutionRequest, EnvironmentError>)
        ensures
            match result {
                Ok(request) => self.checked() is Ok && request.id@ == job_id@
                    && container_directory(self.workspace@, working_directory@) is Some && texts(
                    request.argv@,
                ) == self.exec_argv_at(
                    container_directory(self.workspace@, working_directory@)->0,
                    program@,
                    texts(args@),
                ),
                Err(error) => self.checked() == Err::<(), EnvironmentError>(error) || (
                self.checked() is Ok && outside_workspace(
                    self.workspace@,
                    working_directory@,
                    error,
                )),
            },
    {
        match self.validate() {
            Ok(_) => match self.exec_command_at(working_directory, program, args) {
                Ok(command) => Ok(ExecutionRequest::from_argv(job_id, command)),
                Err(error) => Err(error),
            },
            Err(error) => Err(error),
        }
    }

    /// Creates a request that runs a program in an environment that is removed
    /// afterwards.
    pub fn run_execution_request_at(
        &self,
        job_id: &str,
        working_directory: &str,
        program: &str,
        args: &[String],
    ) -> (result: Result<ExecutionRequest, EnvironmentError>)
        ensures
            match result {
                Ok(request) => self.checked() is Ok && request.id@ == job_id@
                    && container_directory(self.workspace@, working_directory@) is Some && texts(
                    request.argv@,
                ) == self.run_argv_at(
                    container_directory(self.workspace@, working_directory@)->0,
                    program@,
                    texts(args@),
                ),
                Err(error) => self.checked() == Err::<(), EnvironmentError>(error) || (
                self.checked() is Ok && outside_workspace(
                    self.workspace@,
                    working_directory@,
                    error,
                )),
            },
    {
        match self.validate() {
            Ok(_) => match self.run_command_at(working_directory, program, args) {
                Ok(command) => Ok(ExecutionRequest::from_argv(job_id, command)),
                Err(error) => Err(error),
            },
            Err(error) => Err(error),
        }
    }

    /// Creates a request that stops the environment.
    pub fn stop_execution_request(&self, job_id: &str) -> (result: Result<
        ExecutionRequest,
        EnvironmentError,
    >)
        ensures
            match result {
                Ok(request) => self.checked() is Ok && request.id@ == job_id@ && texts(
                    request.argv@,
                ) == self.stop_argv(),
                Err(error) => self.checked() == Err::<(), EnvironmentError>(error),
            },
    {
        match self.validate() {
            Ok(_) => Ok(ExecutionRequest::from_argv(job_id, self.stop_command())),
            Err(error) => Err(error),
        }
    }

    /// Creates a request that removes the stopped environment.
    pub fn remove_execution_request(&self, job_id: &str) -> (result: Result<
        ExecutionRequest,
        EnvironmentError,
    >)
        ensures
            match result {
                Ok(request) => self.checked() is Ok && request.id@ == job_id@ && texts(
                    request.argv@,
                ) == self.remove_argv(),
                Err(error) => self.checked() == Err::<(), EnvironmentError>(error),
            },
    {
        match self.validate() {
            Ok(_) => Ok(ExecutionRequest::from_argv(job_id, self.remove_command())),
            Err(error) => Err(error),
        }
    }

    /// Builds the command that stops the container.
    pub fn stop_command(&self) -> (command: Vec<String>)
        ensures
            texts(command@) == self.stop_argv(),
    {
        let mut command: Vec<String> = Vec::new();
        push_text(&mut command, "podman");
        push_text(&mut command, "stop");
        push_text(&mut command, self.name.as_str());
        assert(texts(command@) =~= self.stop_argv());
        command
    }

    /// Builds the command that removes the stopped container.
    pub fn remove_command(&self) -> (command: Vec<String>)
        ensures
            texts(command@) == self.remove_argv(),
    {
        let mut command: Vec<String> = Vec::new();
        push_text(&mut command, "podman");
        push_text(&mut command, "rm");
        push_text(&mut command, self.name.as_str());
        assert(texts(command@) =~= self.remove_argv());
        command
    }
}

/// The error for a working directory that is not inside the workspace.
pub open spec fn outside_workspace(
    workspace: Seq<char>,
    directory: Seq<char>,
    error: EnvironmentError,
) -> bool {
    &&& container_directory(workspace, directory) is None
    &&& error matches EnvironmentError::InvalidWorkingDirectory(path) && path@ == directory
}

impl EnvironmentError {
    /// The message for people.
    pub open spec fn text(&self) -> Seq<char> {
        match self {
            EnvironmentError::InvalidName(name) => "invalid environment name "@ + debug_form(name@),
            EnvironmentError::InvalidImage(image) => "invalid environment image "@ + debug_form(
                image@,
            ),
            EnvironmentError::InvalidWorkspace(path) => "invalid environment workspace "@ + path@,
            EnvironmentError::NoToolchain => "environment has no toolchain"@,
            EnvironmentError::InvalidWorkingDirectory(path) =>
                "working directory is outside the environment workspace: "@ + path@,
        }
    }

    /// Returns the message for people.
    pub fn message(&self) -> (message: String)
        ensures
            message@ == self.text(),
    {
        match self {
            EnvironmentError::InvalidName(name) => join(
                "invalid environment name ",
                debug_text(name.as_str()).as_str(),
            ),
            EnvironmentError::InvalidImage(image) => join(
                "invalid environment image ",
                debug_text(image.as_str()).as_str(),
            ),
            EnvironmentError::InvalidWorkspace(path) => join(
                "invalid environment workspace ",
                path.as_str(),
            ),
            EnvironmentError::NoToolchain => "environment has no toolchain".to_owned(),
            EnvironmentError::InvalidWorkingDirectory(path) => join(
                "working directory is outside the environment workspace: ",
                path.as_str(),
            ),
        }
    }
}

proof fn lemma_below(names: Seq<Seq<char>>)
    requires
        forall|i: int|
            0 <= i < names.len() ==> is_name(#[trigger] names[i]) && names[i].len() > 0
                && !names[i].contains('/'),
    ensures
        components(below("/workspace"@, names)) == seq!["/"@, "workspace"@] + names,
        is_absolute(below("/workspace"@, names)),
        below("/workspace"@, names).last() != '/',
    decreases names.len(),
{
    if names.len() == 0 {
        reveal_strlit("/workspace");
        reveal_strlit("workspace");
        reveal_strlit("/");
        reveal_strlit("");
        reveal_strlit(".");
        reveal_strlit("..");
        assert("/workspace"@.len() == 10);
        assert("workspace"@.len() == 9);
        components_of_a_child_of_the_root("workspace"@);
        assert("/workspace"@ =~= seq!['/'] + "workspace"@);
        assert(seq!["/"@, "workspace"@] + names =~= seq!["/"@, "workspace"@]);
        assert("/workspace"@.last() == 'e');
    } else {
        let rest = names.drop_last();
        assert forall|i: int| 0 <= i < rest.len() implies is_name(#[trigger] rest[i])
            && rest[i].len() > 0 && !rest[i].contains('/') by {
            assert(rest[i] == names[i]);
        }
        lemma_below(rest);
        assert(is_name(names[names.len() - 1]));
        joining_a_name_adds_a_component(below("/workspace"@, rest), names.last());
        assert((seq!["/"@, "workspace"@] + rest).push(names.last()) =~= seq!["/"@, "workspace"@]
            + names);
    }
}

/// A working directory inside the container is always the mounted workspace or
/// below it: the way from the host's workspace to the host's directory is the
/// way from `/workspace` to the container's directory.
pub proof fn container_directory_stays_in_the_workspace(
    workspace: Seq<char>,
    directory: Seq<char>,
)
    requires
        container_directory(workspace, directory) is Some,
    ensures
        components(container_directory(workspace, directory)->0) == seq!["/"@, "workspace"@]
            + components(directory).skip(components(workspace).len() as int),
        forall|i: int|
            0 <= i < components(container_directory(workspace, directory)->0).len()
                ==> (#[trigger] components(container_directory(workspace, directory)->0)[i])
                != ".."@,
{
    let skipped = components(workspace).len() as int;
    let rest = components(directory).skip(skipped);
    assert forall|i: int| 0 <= i < rest.len() implies is_name(#[trigger] rest[i]) && rest[i].len()
        > 0 && !rest[i].contains('/') by {
        assert(rest[i] == components(directory)[skipped + i]);
        names_hold_no_separator(directory, skipped + i);
    }
    lemma_below(rest);
    let all = components(container_directory(workspace, directory)->0);
    reveal_strlit("/");
    reveal_strlit("..");
    reveal_strlit("workspace");
    assert("/"@.len() == 1 && ".."@.len() == 2 && "workspace"@.len() == 9);
    assert forall|i: int| 0 <= i < all.len() implies (#[trigger] all[i]) != ".."@ by {
        if i >= 2 {
            assert(all[i] == rest[i - 2]);
        }
    }
}

/// Every command that starts a container isolates it, and takes its network
/// away unless the definition asks for one.
pub proof fn containers_are_isolated(
    spec: EnvironmentSpec,
    directory: Seq<char>,
    program: Seq<char>,
    args: Seq<Seq<char>>,
)
    ensures
        forall|option: Seq<char>| #[trigger]
            isolation_options().contains(option) ==> spec.create_argv().contains(option)
                && spec.run_argv_at(directory, program, args).contains(option),
        spec.network == NetworkPolicy::Disabled ==> spec.create_argv().contains("--network=none"@)
            && spec.run_argv_at(directory, program, args).contains("--network=none"@),
{
    let create = spec.create_argv();
    let run = spec.run_argv_at(directory, program, args);
    assert forall|option: Seq<char>| #[trigger]
        isolation_options().contains(option) implies create.contains(option) && run.contains(
        option,
    ) by {
        let i = choose|i: int| 0 <= i < isolation_options().len() && isolation_options()[i] == option;
        assert(create[5 + i] == option);
        assert(run[3 + i] == option);
    }
    if spec.network == NetworkPolicy::Disabled {
        assert(create[15] == "--network=none"@);
        assert(run[13] == "--network=none"@);
    }
}

/// Every command that starts a container binds the workspace of the host at
/// `/workspace`, writable and relabelled for this container alone, and starts in
/// it or in the directory that was asked for.
pub proof fn containers_see_their_workspace(
    spec: EnvironmentSpec,
    directory: Seq<char>,
    program: Seq<char>,
    args: Seq<Seq<char>>,
)
    ensures
        gives(
            spec.create_argv(),
            "--mount"@,
            "type=bind,src="@ + spec.workspace@ + ",dst=/workspace,relabel=private"@,
        ),
        gives(
            spec.run_argv_at(directory, program, args),
            "--mount"@,
            "type=bind,src="@ + spec.workspace@ + ",dst=/workspace,relabel=private"@,
        ),
        gives(spec.create_argv(), "--workdir"@, "/workspace"@),
        gives(spec.run_argv_at(directory, program, args), "--workdir"@, directory),
        gives(spec.exec_argv_at(directory, program, args), "--workdir"@, directory),
{
    let create = spec.create_argv();
    let run = spec.run_argv_at(directory, program, args);
    let exec = spec.exec_argv_at(directory, program, args);
    assert(create[11] == "--mount"@);
    assert(create[13] == "--workdir"@);
    assert(run[9] == "--mount"@);
    assert(run[11] == "--workdir"@);
    assert(run[12] == directory);
    assert(exec[2] == "--workdir"@);
}

/// A container runs without rights on the host: the user of the host and no
/// other, no capability, no new privileges, a filesystem that cannot be written
/// but for a scratch directory from which nothing is run.
pub proof fn containers_have_no_rights(
    spec: EnvironmentSpec,
    directory: Seq<char>,
    program: Seq<char>,
    args: Seq<Seq<char>>,
)
    ensures
        forall|argv: Seq<Seq<char>>|
            #![trigger argv.len()]
            argv == spec.create_argv() || argv == spec.run_argv_at(directory, program, args) ==> {
                &&& argv.contains("--userns=keep-id"@)
                &&& argv.contains("--cap-drop=ALL"@)
                &&& argv.contains("--security-opt=no-new-privileges"@)
                &&& argv.contains("--read-only"@)
                &&& gives(argv, "--tmpfs"@, "/tmp:rw,noexec,nosuid,nodev"@)
            },
{
    let create = spec.create_argv();
    let run = spec.run_argv_at(directory, program, args);
    assert(create[5] == "--userns=keep-id"@ && run[3] == "--userns=keep-id"@);
    assert(create[6] == "--cap-drop=ALL"@ && run[4] == "--cap-drop=ALL"@);
    assert(create[7] == "--security-opt=no-new-privileges"@);
    assert(run[5] == "--security-opt=no-new-privileges"@);
    assert(create[8] == "--read-only"@ && run[6] == "--read-only"@);
    assert(create[9] == "--tmpfs"@ && run[7] == "--tmpfs"@);
}

/// The network policy is one word: the command for a definition without a
/// network is the one for a definition with a network and `--network=none` put
/// in before the image.
pub proof fn the_network_policy_is_one_word(
    with: EnvironmentSpec,
    without: EnvironmentSpec,
    directory: Seq<char>,
    program: Seq<char>,
    args: Seq<Seq<char>>,
)
    requires
        with.network == NetworkPolicy::Enabled,
        without.network == NetworkPolicy::Disabled,
        with.name@ == without.name@,
        with.image@ == without.image@,
        with.workspace@ == without.workspace@,
    ensures
        without.create_argv() == with.create_argv().insert(
            with.create_argv().len() - 3,
            "--network=none"@,
        ),
        without.run_argv_at(directory, program, args) == with.run_argv_at(
            directory,
            program,
            args,
        ).insert(
            with.run_argv_at(directory, program, args).len() - 2 - args.len(),
            "--network=none"@,
        ),
{
    let a = with.create_argv();
    assert(without.create_argv() =~= a.insert(a.len() - 3, "--network=none"@));
    let b = with.run_argv_at(directory, program, args);
    assert(without.run_argv_at(directory, program, args) =~= b.insert(
        b.len() - 2 - args.len(),
        "--network=none"@,
    ));
}

/// What runs in an environment is what was asked for: a container is made of the
/// image of the definition, it runs the program with its arguments and nothing
/// behind them, and every later command names the container that was created.
/// A container for one program is removed afterwards, the other one stays in the
/// background.
pub proof fn environments_run_what_was_asked_for(
    spec: EnvironmentSpec,
    directory: Seq<char>,
    program: Seq<char>,
    args: Seq<Seq<char>>,
)
    ensures
        ends_in(spec.create_argv(), seq![spec.image@, "sleep"@, "infinity"@]),
        ends_in(spec.run_argv_at(directory, program, args), seq![spec.image@, program] + args),
        ends_in(spec.exec_argv(program, args), seq![spec.name@, program] + args),
        ends_in(spec.exec_argv_at(directory, program, args), seq![spec.name@, program] + args),
        ends_in(spec.stop_argv(), seq!["stop"@, spec.name@]),
        ends_in(spec.remove_argv(), seq!["rm"@, spec.name@]),
        gives(spec.create_argv(), "--name"@, spec.name@),
        spec.create_argv().contains("--detach"@),
        spec.run_argv_at(directory, program, args).contains("--rm"@),
        spec.create_argv().take(2) == seq!["podman"@, "run"@],
        spec.run_argv_at(directory, program, args).take(2) == seq!["podman"@, "run"@],
        spec.exec_argv(program, args).take(2) == seq!["podman"@, "exec"@],
        spec.exec_argv_at(directory, program, args).take(2) == seq!["podman"@, "exec"@],
        spec.stop_argv()[0] == "podman"@ && spec.stop_argv().len() == 3,
        spec.remove_argv()[0] == "podman"@ && spec.remove_argv().len() == 3,
{
    let create = spec.create_argv();
    let run = spec.run_argv_at(directory, program, args);
    let exec = spec.exec_argv(program, args);
    let at = spec.exec_argv_at(directory, program, args);
    let tail = seq![spec.image@, program] + args;
    let named = seq![spec.name@, program] + args;
    assert(create.skip(create.len() - 3) =~= seq![spec.image@, "sleep"@, "infinity"@]);
    assert(run.skip(run.len() - tail.len()) =~= tail);
    assert(exec.skip(exec.len() - named.len()) =~= named);
    assert(at.skip(at.len() - named.len()) =~= named);
    assert(spec.stop_argv().skip(1) =~= seq!["stop"@, spec.name@]);
    assert(spec.remove_argv().skip(1) =~= seq!["rm"@, spec.name@]);
    assert(create[3] == "--name"@);
    assert(create[2] == "--detach"@);
    assert(run[2] == "--rm"@);
    assert(create.take(2) =~= seq!["podman"@, "run"@]);
    assert(run.take(2) =~= seq!["podman"@, "run"@]);
    assert(exec.take(2) =~= seq!["podman"@, "exec"@]);
    assert(at.take(2) =~= seq!["podman"@, "exec"@]);
}

/// A container gets no option besides the ones that name it, isolate it, mount
/// its workspace and settle its directory and its network: nothing else stands
/// before the image.
pub proof fn containers_get_no_other_option(
    spec: EnvironmentSpec,
    directory: Seq<char>,
    program: Seq<char>,
    args: Seq<Seq<char>>,
)
    ensures
        spec.create_argv().len() == if spec.network == NetworkPolicy::Disabled {
            19int
        } else {
            18
        },
        spec.run_argv_at(directory, program, args).len() - args.len() == if spec.network
            == NetworkPolicy::Disabled {
            16int
        } else {
            15
        },
{
}

/// A definition that is accepted can be handed to the tool as it is: the name has
/// 1 to 63 lower case letters, digits and hyphens and does not begin like an
/// option, the image is a single word, the workspace cannot be taken for another
/// mount option, and a toolchain is named.
pub proof fn accepted_definitions_are_plain(spec: EnvironmentSpec)
    ensures
        spec.checked() is Ok ==> {
            &&& 1 <= spec.name@.len() <= 63
            &&& forall|i: int|
                0 <= i < spec.name@.len() ==> {
                    let c = #[trigger] spec.name@[i];
                    'a' <= c <= 'z' || '0' <= c <= '9' || c == '-'
                }
            &&& spec.name@[0] != '-'
            &&& spec.image@.len() > 0
            &&& forall|i: int|
                0 <= i < spec.image@.len() ==> {
                    let c = #[trigger] spec.image@[i];
                    c != ' ' && c != '\t' && c != '\n' && c != '\r'
                }
            &&& spec.workspace@[0] == '/' && spec.workspace@.len() > 1
            &&& !spec.workspace@.contains(',') && !spec.workspace@.contains(':')
            &&& spec.toolchains@.len() > 0
        },
{
    if spec.checked() is Ok {
        workspaces_lie_below_the_root(spec.workspace@);
        if spec.workspace@.len() == 1 {
            assert(spec.workspace@.last() == '/');
        }
    }
}

/// A working directory is understood exactly where it is the workspace or lies
/// below it by names alone.
pub proof fn the_workspace_itself_is_understood(workspace: Seq<char>)
    ensures
        container_directory(workspace, workspace) == Some("/workspace"@),
{
    let rest = components(workspace).skip(components(workspace).len() as int);
    assert(rest =~= Seq::empty());
}

/// Plain names and images are accepted: every name of 1 to 63 lower case letters,
/// digits and hyphens that does not begin with a hyphen, and every image of
/// visible ASCII characters.
pub proof fn plain_names_and_images_are_accepted(name: Seq<char>, image: Seq<char>)
    requires
        1 <= name.len() <= 63,
        name[0] != '-',
        forall|i: int|
            0 <= i < name.len() ==> {
                let c = #[trigger] name[i];
                'a' <= c <= 'z' || '0' <= c <= '9' || c == '-'
            },
        image.len() > 0,
        forall|i: int| 0 <= i < image.len() ==> '!' <= #[trigger] image[i] <= '~',
    ensures
        valid_name(name),
        valid_image(image),
{
}

/// A directory of the workspace is found under the same name in the container. What
/// does not lie in the workspace, or climbs out of it, is found nowhere.
pub proof fn directories_keep_their_names(workspace: Seq<char>, name: Seq<char>, other: Seq<char>)
    requires
        is_absolute(workspace),
        workspace.last() != '/',
        is_name(name),
        name.len() > 0,
        !name.contains('/'),
    ensures
        container_directory(workspace, workspace.push('/') + name) == Some("/workspace/"@ + name),
        container_directory(workspace, workspace.push('/').push('.').push('.')) is None,
        !components(workspace).is_prefix_of(components(other)) ==> container_directory(
            workspace,
            other,
        ) is None,
{
    reveal_strlit("/workspace");
    reveal_strlit("/workspace/");
    joining_a_name_adds_a_component(workspace, name);
    joins_have_one_separator(workspace, name);
    assert(name[0] != '/') by {
        assert(name.contains(name[0]));
    }
    let whole = components(workspace).push(name);
    let count = components(workspace).len() as int;
    assert(whole.skip(count) =~= seq![name]);
    assert(components(workspace) =~= whole.take(count));
    assert(seq![name].drop_last() =~= Seq::<Seq<char>>::empty());
    assert(below("/workspace"@, Seq::empty()) == "/workspace"@);
    assert(below("/workspace"@, seq![name]) == joined("/workspace"@, name));
    joins_have_one_separator("/workspace"@, name);
    assert("/workspace"@.push('/') =~= "/workspace/"@);
    dots_and_repeated_separators_say_nothing(workspace);
    let climbing = components(workspace).push(".."@);
    assert(climbing.skip(count) =~= seq![".."@]);
    assert(climbing.skip(count)[0] == ".."@);
    assert(!is_name(climbing.skip(count)[0]));
}

/// The complaint about a directory outside the workspace names it.
pub proof fn directories_outside_are_named(
    workspace: Seq<char>,
    directory: Seq<char>,
    error: EnvironmentError,
)
    requires
        outside_workspace(workspace, directory, error),
    ensures
        container_directory(workspace, directory) is None,
        error.text() == "working directory is outside the environment workspace: "@ + directory,
{
}

} // verus!
