//! Commands for an editor that takes extensions.
//!
//! The editor is one of a few fixed programs. Commands are argument vectors;
//! nothing is downloaded and no shell is started.

use crate::path::{
    a_text_without_separator_is_one_piece, components, is_absolute, path_components,
    path_is_absolute, pieces_of_a_join,
};
use crate::text::{
    all_chars, alphanumeric, any_char, byte_len, debug_form, debug_text, ends_in, ends_with, gives,
    is_alphanumeric, is_white_space, join, pieces, push_text, same, split, texts, white_space,
};
use vstd::prelude::*;
use vstd::utf8::encode_utf8;

verus! {

/// Programs that may be the editor, in the order of preference.
pub const HOST_PATHS: [&'static str; 4] = [
    "/usr/bin/code",
    "/usr/bin/code-oss",
    "/usr/bin/codium",
    "/usr/local/bin/code",
];

/// Longest name of an extension.
pub const MAX_EXTENSION_SOURCE_LENGTH: usize = 512;

/// Longest path.
pub const MAX_WORKSPACE_PATH_LENGTH: usize = 4096;

/// Why a command is refused.
#[derive(Clone, Debug, PartialEq, Eq)]
pub enum ExtensionError {
    /// The path is relative, too long, or climbs.
    InvalidPath {
        /// What the path is for.
        kind: &'static str,
        /// The path.
        path: String,
    },
    /// The workspace is no directory.
    InvalidWorkspace(String),
    /// The source is neither an identifier nor a package.
    InvalidSource(String),
    /// The identifier is malformed.
    InvalidIdentifier(String),
}

impl ExtensionError {
    /// The message for people.
    pub open spec fn text(&self) -> Seq<char> {
        match self {
            ExtensionError::InvalidPath { kind, path } => kind@
                + " path is not a safe absolute path: "@ + path@,
            ExtensionError::InvalidWorkspace(path) =>
                "workspace is not a safe existing directory: "@ + path@,
            ExtensionError::InvalidSource(source) => "invalid extension source "@ + debug_form(
                source@,
            ),
            ExtensionError::InvalidIdentifier(identifier) => "invalid extension identifier "@
                + debug_form(identifier@),
        }
    }

    /// Returns the message for people.
    pub fn message(&self) -> (message: String)
        ensures
            message@ == self.text(),
    {
        match self {
            ExtensionError::InvalidPath { kind, path } => {
                let mut message = join(kind, " path is not a safe absolute path: ");
                message.append(path.as_str());
                message
            },
            ExtensionError::InvalidWorkspace(path) => join(
                "workspace is not a safe existing directory: ",
                path.as_str(),
            ),
            ExtensionError::InvalidSource(source) => join(
                "invalid extension source ",
                debug_text(source.as_str()).as_str(),
            ),
            ExtensionError::InvalidIdentifier(identifier) => join(
                "invalid extension identifier ",
                debug_text(identifier.as_str()).as_str(),
            ),
        }
    }
}

/// A path climbs to a parent directory somewhere.
pub open spec fn climbs(path: Seq<char>) -> bool {
    components(path).contains(".."@)
}

fn path_climbs(path: &str) -> (result: bool)
    ensures
        result == climbs(path@),
{
    let list = path_components(path);
    let ghost all = components(path@);
    let mut i: usize = 0;
    while i < list.len()
        invariant
            i <= list@.len(),
            all == texts(list@),
            all == components(path@),
            forall|k: int| 0 <= k < i ==> all[k] != ".."@,
        decreases list.len() - i,
    {
        if same(list[i].as_str(), "..") {
            assert(all[i as int] == ".."@);
            return true;
        }
        i = i + 1;
    }
    false
}

/// A path that is accepted: absolute, bounded, and without a climb.
pub open spec fn safe_path(path: Seq<char>) -> bool {
    is_absolute(path) && encode_utf8(path).len() <= MAX_WORKSPACE_PATH_LENGTH && !climbs(path)
}

fn check_path(path: &str) -> (result: bool)
    ensures
        result == safe_path(path@),
{
    path_is_absolute(path) && byte_len(path) <= MAX_WORKSPACE_PATH_LENGTH && !path_climbs(path)
}

/// A character of a name.
pub open spec fn is_identifier_char(c: char) -> bool {
    is_alphanumeric(c) || c == '-' || c == '_'
}

fn valid_identifier_character(c: char) -> (result: bool)
    ensures
        result == is_identifier_char(c),
{
    alphanumeric(c) || c == '-' || c == '_'
}

/// A part of an identifier.
pub open spec fn is_identifier_part(part: Seq<char>) -> bool {
    part.len() > 0 && forall|i: int| 0 <= i < part.len() ==> is_identifier_char(#[trigger] part[i])
}

/// An identifier: a publisher and a name, with a dot in between.
pub open spec fn valid_identifier(identifier: Seq<char>) -> bool {
    let parts = pieces(identifier, '.');
    &&& encode_utf8(identifier).len() <= MAX_EXTENSION_SOURCE_LENGTH
    &&& parts.len() == 2
    &&& is_identifier_part(parts[0])
    &&& is_identifier_part(parts[1])
}

fn check_identifier(identifier: &str) -> (result: bool)
    ensures
        result == valid_identifier(identifier@),
{
    let parts = split(identifier, '.');
    let ghost all = pieces(identifier@, '.');
    if byte_len(identifier) > MAX_EXTENSION_SOURCE_LENGTH || parts.len() != 2 {
        return false;
    }
    assert(all[0] == parts@[0]@);
    assert(all[1] == parts@[1]@);
    let publisher = parts[0].as_str();
    let name = parts[1].as_str();
    !publisher.is_empty() && !name.is_empty() && all_chars(publisher, valid_identifier_character)
        && all_chars(name, valid_identifier_character)
}

/// A character that no source holds.
pub open spec fn is_forbidden(c: char) -> bool {
    c == '\0' || is_white_space(c)
}

fn forbidden(c: char) -> (result: bool)
    ensures
        result == is_forbidden(c),
{
    c == '\0' || white_space(c)
}

/// A source names a package file.
pub open spec fn is_package(source: Seq<char>) -> bool {
    ".vsix"@.is_suffix_of(source) || ".VSIX"@.is_suffix_of(source)
}

/// A source that can be looked at at all.
pub open spec fn plain_source(source: Seq<char>) -> bool {
    &&& 0 < source.len()
    &&& encode_utf8(source).len() <= MAX_EXTENSION_SOURCE_LENGTH
    &&& !exists|i: int| 0 <= i < source.len() && is_forbidden(#[trigger] source[i])
}

/// Whether a source is accepted, and the error where it is not.
pub open spec fn source_check(source: Seq<char>, result: Result<(), ExtensionError>) -> bool {
    if !plain_source(source) || (is_package(source) && (!is_absolute(source) || climbs(source))) {
        result matches Err(ExtensionError::InvalidSource(text)) && text@ == source
    } else if is_package(source) || valid_identifier(source) {
        result is Ok
    } else {
        result matches Err(ExtensionError::InvalidIdentifier(text)) && text@ == source
    }
}

fn validate_extension_source(source: &str) -> (result: Result<(), ExtensionError>)
    ensures
        source_check(source@, result),
{
    if source.is_empty() || byte_len(source) > MAX_EXTENSION_SOURCE_LENGTH || any_char(
        source,
        forbidden,
    ) {
        return Err(ExtensionError::InvalidSource(source.to_owned()));
    }
    if ends_with(source, ".vsix") || ends_with(source, ".VSIX") {
        if !path_is_absolute(source) || path_climbs(source) {
            return Err(ExtensionError::InvalidSource(source.to_owned()));
        }
        return Ok(());
    }
    if !check_identifier(source) {
        return Err(ExtensionError::InvalidIdentifier(source.to_owned()));
    }
    Ok(())
}

/// The editor.
#[derive(Clone, Debug, PartialEq, Eq)]
pub struct ExtensionHost {
    program: String,
}

impl View for ExtensionHost {
    type V = Seq<char>;

    closed spec fn view(&self) -> Seq<char> {
        self.program@
    }
}

/// The place of the first installed editor.
pub open spec fn is_first_installed(installed: Seq<bool>, at: int) -> bool {
    0 <= at < installed.len() && installed[at] && forall|k: int| 0 <= k < at ==> !installed[k]
}

/// The command that opens a workspace.
pub open spec fn open_argv(host: Seq<char>, workspace: Seq<char>) -> Seq<Seq<char>> {
    seq![host, "--reuse-window"@, workspace]
}

/// The command that lists the extensions.
pub open spec fn list_argv(host: Seq<char>) -> Seq<Seq<char>> {
    seq![host, "--list-extensions"@]
}

/// The command that installs an extension.
pub open spec fn install_argv(host: Seq<char>, source: Seq<char>) -> Seq<Seq<char>> {
    seq![host, "--install-extension"@, source, "--force"@]
}

/// The command that removes an extension.
pub open spec fn uninstall_argv(host: Seq<char>, identifier: Seq<char>) -> Seq<Seq<char>> {
    seq![host, "--uninstall-extension"@, identifier]
}

impl ExtensionHost {
    /// Takes a program as the editor.
    pub fn new(program: &str) -> (result: Result<ExtensionHost, ExtensionError>)
        ensures
            match result {
                Ok(host) => safe_path(program@) && host@ == program@,
                Err(ExtensionError::InvalidPath { kind, path }) => !safe_path(program@) && kind@
                    == "extension host"@ && path@ == program@,
                Err(_) => false,
            },
    {
        if !check_path(program) {
            return Err(
                ExtensionError::InvalidPath { kind: "extension host", path: program.to_owned() },
            );
        }
        Ok(ExtensionHost { program: program.to_owned() })
    }

    /// Finds the editor. `installed` says of each of the fixed programs whether
    /// it is there.
    pub fn discover(installed: &[bool; 4]) -> (host: Option<ExtensionHost>)
        ensures
            match host {
                Some(found) => exists|at: int| #[trigger]
                    is_first_installed(installed@, at) && found@ == HOST_PATHS@[at]@,
                None => forall|at: int| 0 <= at < 4 ==> !installed@[at],
            },
    {
        let mut i: usize = 0;
        while i < 4
            invariant
                i <= 4,
                forall|k: int| 0 <= k < i ==> !installed@[k],
            decreases 4 - i,
        {
            if installed[i] {
                assert(is_first_installed(installed@, i as int));
                return Some(ExtensionHost { program: HOST_PATHS[i].to_owned() });
            }
            i = i + 1;
        }
        None
    }

    /// Returns the program.
    pub fn program(&self) -> (program: &str)
        ensures
            program@ == self@,
    {
        self.program.as_str()
    }

    /// Builds the command that opens a workspace. `is_directory` says whether
    /// the workspace is a directory.
    pub fn open_workspace_command(&self, workspace: &str, is_directory: bool) -> (result: Result<
        Vec<String>,
        ExtensionError,
    >)
        ensures
            match result {
                Ok(argv) => safe_path(workspace@) && is_directory && texts(argv@) == open_argv(
                    self@,
                    workspace@,
                ),
                Err(ExtensionError::InvalidPath { kind, path }) => !safe_path(workspace@) && kind@
                    == "workspace"@ && path@ == workspace@,
                Err(ExtensionError::InvalidWorkspace(path)) => safe_path(workspace@)
                    && !is_directory && path@ == workspace@,
                Err(_) => false,
            },
    {
        if !check_path(workspace) {
            return Err(
                ExtensionError::InvalidPath { kind: "workspace", path: workspace.to_owned() },
            );
        }
        if !is_directory {
            return Err(ExtensionError::InvalidWorkspace(workspace.to_owned()));
        }
        let mut argv: Vec<String> = Vec::new();
        push_text(&mut argv, self.program.as_str());
        push_text(&mut argv, "--reuse-window");
        push_text(&mut argv, workspace);
        assert(texts(argv@) =~= seq![self@, "--reuse-window"@, workspace@]);
        Ok(argv)
    }

    /// Builds the command that lists the extensions.
    pub fn list_command(&self) -> (argv: Vec<String>)
        ensures
            texts(argv@) == list_argv(self@),
    {
        let mut argv: Vec<String> = Vec::new();
        push_text(&mut argv, self.program.as_str());
        push_text(&mut argv, "--list-extensions");
        assert(texts(argv@) =~= seq![self@, "--list-extensions"@]);
        argv
    }

    /// Builds the command that installs an extension, from its identifier or
    /// the absolute path of a package.
    pub fn install_command(&self, source: &str) -> (result: Result<Vec<String>, ExtensionError>)
        ensures
            match result {
                Ok(argv) => source_check(source@, Ok(())) && texts(argv@) == install_argv(
                    self@,
                    source@,
                ),
                Err(error) => source_check(source@, Err(error)),
            },
    {
        match validate_extension_source(source) {
            Ok(_) => {
                let mut argv: Vec<String> = Vec::new();
                push_text(&mut argv, self.program.as_str());
                push_text(&mut argv, "--install-extension");
                push_text(&mut argv, source);
                push_text(&mut argv, "--force");
                assert(texts(argv@) =~= seq![
                    self@,
                    "--install-extension"@,
                    source@,
                    "--force"@,
                ]);
                Ok(argv)
            },
            Err(error) => Err(error),
        }
    }

    /// Builds the command that removes an extension.
    pub fn uninstall_command(&self, identifier: &str) -> (result: Result<
        Vec<String>,
        ExtensionError,
    >)
        ensures
            match result {
                Ok(argv) => valid_identifier(identifier@) && texts(argv@) == uninstall_argv(
                    self@,
                    identifier@,
                ),
                Err(ExtensionError::InvalidIdentifier(text)) => !valid_identifier(identifier@)
                    && text@ == identifier@,
                Err(_) => false,
            },
    {
        if !check_identifier(identifier) {
            return Err(ExtensionError::InvalidIdentifier(identifier.to_owned()));
        }
        let mut argv: Vec<String> = Vec::new();
        push_text(&mut argv, self.program.as_str());
        push_text(&mut argv, "--uninstall-extension");
        push_text(&mut argv, identifier);
        assert(texts(argv@) =~= seq![self@, "--uninstall-extension"@, identifier@]);
        Ok(argv)
    }
}

/// No source that is accepted holds white space, so it stays one argument
/// wherever it is shown or written down.
pub proof fn sources_are_single_words(source: Seq<char>, i: int)
    requires
        source_check(source, Ok(())),
        0 <= i < source.len(),
    ensures
        !is_white_space(source[i]),
{
    assert(!is_forbidden(source[i]));
}

/// Every command runs the editor, asks it for what was meant and hands it the
/// workspace, the source or the identifier.
pub proof fn editors_are_asked_for_what_was_meant(
    host: Seq<char>,
    workspace: Seq<char>,
    source: Seq<char>,
)
    ensures
        open_argv(host, workspace)[0] == host,
        list_argv(host)[0] == host,
        install_argv(host, source)[0] == host,
        uninstall_argv(host, source)[0] == host,
        ends_in(open_argv(host, workspace), seq!["--reuse-window"@, workspace]),
        ends_in(list_argv(host), seq!["--list-extensions"@]),
        gives(install_argv(host, source), "--install-extension"@, source),
        install_argv(host, source).last() == "--force"@,
        ends_in(uninstall_argv(host, source), seq!["--uninstall-extension"@, source]),
        open_argv(host, workspace).len() == 3,
        list_argv(host).len() == 2,
        install_argv(host, source).len() == 4,
        uninstall_argv(host, source).len() == 3,
{
    assert(open_argv(host, workspace).skip(1) =~= seq!["--reuse-window"@, workspace]);
    assert(list_argv(host).skip(1) =~= seq!["--list-extensions"@]);
    assert(uninstall_argv(host, source).skip(1) =~= seq!["--uninstall-extension"@, source]);
    assert(install_argv(host, source)[1] == "--install-extension"@);
}

/// Which editors are looked for, in this order, and how long sources and paths
/// may be.
pub proof fn editors_are_looked_for_in_order()
    ensures
        HOST_PATHS@[0]@ == "/usr/bin/code"@,
        HOST_PATHS@[1]@ == "/usr/bin/code-oss"@,
        HOST_PATHS@[2]@ == "/usr/bin/codium"@,
        HOST_PATHS@[3]@ == "/usr/local/bin/code"@,
        MAX_EXTENSION_SOURCE_LENGTH == 512,
        MAX_WORKSPACE_PATH_LENGTH == 4096,
{
}

/// An identifier is a publisher, a dot and a name, both of letters, digits, dashes
/// and underscores.
pub proof fn identifiers_are_publisher_and_name(publisher: Seq<char>, name: Seq<char>)
    ensures
        ({
            let plain = |part: Seq<char>|
                part.len() > 0 && forall|i: int|
                    0 <= i < part.len() ==> is_alphanumeric(#[trigger] part[i]) || part[i] == '-'
                        || part[i] == '_';
            !publisher.contains('.') && !name.contains('.') ==> (valid_identifier(
                publisher.push('.') + name,
            ) <==> plain(publisher) && plain(name) && encode_utf8(publisher.push('.') + name).len()
                <= 512)
        }),
        !publisher.contains('.') ==> !valid_identifier(publisher),
{
    if !publisher.contains('.') {
        a_text_without_separator_is_one_piece(publisher, '.');
        if !name.contains('.') {
            a_text_without_separator_is_one_piece(name, '.');
            pieces_of_a_join(publisher, name, '.');
            let whole = publisher.push('.') + name;
            assert(pieces(whole, '.') =~= seq![publisher, name]);
            let plain = |part: Seq<char>|
                part.len() > 0 && forall|i: int|
                    0 <= i < part.len() ==> is_alphanumeric(#[trigger] part[i]) || part[i] == '-'
                        || part[i] == '_';
            assert(plain(publisher) <==> is_identifier_part(publisher)) by {
                if is_identifier_part(publisher) {
                    assert forall|i: int| 0 <= i < publisher.len() implies is_alphanumeric(
                        #[trigger] publisher[i],
                    ) || publisher[i] == '-' || publisher[i] == '_' by {
                        assert(is_identifier_char(publisher[i]));
                    }
                }
            }
            assert(plain(name) <==> is_identifier_part(name)) by {
                if is_identifier_part(name) {
                    assert forall|i: int| 0 <= i < name.len() implies is_alphanumeric(
                        #[trigger] name[i],
                    ) || name[i] == '-' || name[i] == '_' by {
                        assert(is_identifier_char(name[i]));
                    }
                }
            }
        }
    }
}

/// What is installed is an identifier or a package; a package lies at an absolute
/// path that does not climb.
pub proof fn packages_lie_at_absolute_paths(source: Seq<char>, i: int)
    ensures
        source_check(source, Ok(())) && is_package(source) ==> source[0] == '/' && !components(
            source,
        ).contains(".."@),
        source_check(source, Ok(())) && !is_package(source) ==> valid_identifier(source),
        source_check(source, Ok(())) ==> 0 < encode_utf8(source).len() <= 512,
        source_check(source, Ok(())) && 0 <= i < source.len() ==> source[i] != '\0',
        ".vsix"@.is_suffix_of(source) && is_absolute(source) && !components(source).contains(".."@)
            && encode_utf8(source).len() <= 512 && (forall|k: int|
            0 <= k < source.len() ==> !is_white_space(#[trigger] source[k]) && source[k] != '\0')
            ==> source_check(source, Ok(())),
{
    if source_check(source, Ok(())) {
        vstd::utf8::encode_utf8_first_scalar(source);
        if 0 <= i < source.len() {
            assert(!is_forbidden(source[i]));
        }
    }
    if forall|k: int|
        0 <= k < source.len() ==> !is_white_space(#[trigger] source[k]) && source[k] != '\0' {
        assert forall|k: int| 0 <= k < source.len() implies !is_forbidden(#[trigger] source[k]) by {
            assert(!is_white_space(source[k]));
        }
    }
}

/// A path of a workspace is safe exactly where it is absolute, does not climb and
/// is not too long.
pub proof fn safe_paths_are_absolute_and_do_not_climb(path: Seq<char>)
    ensures
        safe_path(path) <==> {
            &&& path.len() > 0 && path[0] == '/'
            &&& !components(path).contains(".."@)
            &&& encode_utf8(path).len() <= 4096
        },
{
}

/// The editor that is found is the first that is installed.
pub proof fn the_first_installed_editor_is_found(installed: Seq<bool>, at: int, k: int)
    ensures
        is_first_installed(installed, at) ==> 0 <= at < installed.len() && installed[at] && (0 <= k
            < at ==> !installed[k]),
        installed.len() > 0 && installed[0] ==> is_first_installed(installed, 0),
        is_first_installed(installed, at) && is_first_installed(installed, k) ==> at == k,
{
}

} // verus!
