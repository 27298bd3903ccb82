//! Text files in the workspace of an environment.
//!
//! Paths are given relative to the workspace. Reading, writing and listing go
//! through the filesystem one operation at a time; what follows each reply is
//! decided here. Nothing is opened before its actual path is known to lie in the
//! workspace, and a file is replaced by moving a finished one to its place.

use crate::environment::{below, EnvironmentSpec};
use crate::path::{
    a_text_without_separator_is_one_piece, components, components_of_a_child_of_the_root,
    is_absolute, is_name, join_path, joined, joining_a_name_adds_a_component,
    joins_have_one_separator, kept, names_hold_no_separator, path_components, path_is_absolute,
    strip_base,
};
use crate::sorted::{
    comes_before, text_before, text_before_is_irreflexive, text_before_is_total,
    text_before_is_transitive,
};
use crate::text::{
    byte_len, decimal, decimal_of, decimals_are_digits, is_digit, is_white_space, join, same, texts, trim, trimmed,
    trimmed_keeps_the_middle, utf8_text,
};
use crate::work::{WorkError, WorkState};
use vstd::prelude::*;
use vstd::utf8::{
    decode_utf8, decode_utf8_encode_utf8, encode_utf8, encode_utf8_decode_utf8,
    encode_utf8_valid_utf8, valid_utf8,
};

verus! {

/// Longest text that is read or written.
pub const MAX_WORKSPACE_TEXT_BYTES: usize = 2_097_152;

/// Most entries of a listing.
pub const MAX_WORKSPACE_ENTRIES: usize = 256;

/// A text file.
#[derive(Clone, Debug, PartialEq, Eq)]
pub struct WorkspaceTextFile {
    /// Path relative to the workspace.
    pub path: String,
    /// Text.
    pub contents: String,
}

/// An entry of a directory.
#[derive(Clone, Debug, PartialEq, Eq)]
pub struct WorkspaceEntry {
    /// Path relative to the workspace.
    pub path: String,
    /// Whether it is a directory.
    pub directory: bool,
    /// Whether it is a link, which is not followed.
    pub symlink: bool,
    /// Size of a regular file, zero for anything else.
    pub bytes: u64,
}

/// An error about a file.
pub open spec fn is_file_error(error: WorkError, message: Seq<char>) -> bool {
    error matches WorkError::WorkspaceFile(text) && text@ == message
}

/// The message for an operation that the filesystem refused.
pub open spec fn io_message(path: Seq<char>, reason: Seq<char>) -> Seq<char> {
    "workspace file operation on "@ + path + " failed: "@ + reason
}

fn workspace_io(path: &str, reason: &str) -> (error: WorkError)
    ensures
        is_file_error(error, io_message(path@, reason@)),
{
    let mut message = join("workspace file operation on ", path);
    message.append(" failed: ");
    message.append(reason);
    WorkError::WorkspaceFile(message)
}

fn about_path(lead: &str, path: &str, end: &str) -> (error: WorkError)
    ensures
        is_file_error(error, lead@ + path@ + end@),
{
    let mut message = join(lead, path);
    message.append(end);
    WorkError::WorkspaceFile(message)
}

/// The directory of an environment, as the filesystem resolved it.
#[derive(Clone, Debug, PartialEq, Eq)]
pub enum RootReply {
    /// Its actual path.
    Resolved {
        /// The path.
        path: String,
        /// Whether it is a directory.
        is_directory: bool,
    },
    /// It could not be resolved.
    Failed(String),
}

/// The names of a relative path without climbs.
pub open spec fn plain_names(path: Seq<char>) -> bool {
    forall|i: int|
        0 <= i < components(path).len() ==> is_name(#[trigger] components(path)[i])
}

/// The message for a relative path that is refused once the workspace is known,
/// if it is.
pub open spec fn relative_refusal(path: Seq<char>, allow_empty: bool) -> Option<Seq<char>> {
    if is_absolute(path) {
        Some("workspace file path must be relative"@)
    } else if !plain_names(path) {
        Some("workspace file path must not contain '.', '..', or a root"@)
    } else if !allow_empty && components(path).len() == 0 {
        Some("workspace file path cannot be empty"@)
    } else {
        None
    }
}

/// A relative path in its plain form.
pub open spec fn plain_form(path: Seq<char>) -> Seq<char> {
    below(""@, components(path))
}

/// Each answer for a relative path: the workspace is settled first.
pub open spec fn resolves(
    workspace: Seq<char>,
    reply: RootReply,
    path: Seq<char>,
    allow_empty: bool,
    result: Result<(Seq<char>, Seq<char>), WorkError>,
) -> bool {
    match reply {
        RootReply::Failed(reason) => result matches Err(error) && is_file_error(
            error,
            io_message(workspace, reason@),
        ),
        RootReply::Resolved { path: root, is_directory } => if !is_directory {
            result matches Err(error) && is_file_error(
                error,
                "environment workspace "@ + workspace + " is not a directory"@,
            )
        } else {
            match relative_refusal(path, allow_empty) {
                Some(message) => result matches Err(error) && is_file_error(error, message),
                None => result == Ok::<(Seq<char>, Seq<char>), WorkError>(
                    (root@, plain_form(path)),
                ),
            }
        },
    }
}

/// Two paths inside a result.
pub open spec fn path_pair(result: Result<(String, String), WorkError>) -> Result<
    (Seq<char>, Seq<char>),
    WorkError,
> {
    match result {
        Ok((root, normalized)) => Ok((root@, normalized@)),
        Err(error) => Err(error),
    }
}

/// Settles a relative path once the workspace is resolved. Gives the actual path
/// of the workspace and the plain form of the relative one.
pub fn resolve_relative_components(
    workspace: &str,
    reply: &RootReply,
    relative_path: &str,
    allow_empty: bool,
) -> (result: Result<(String, String), WorkError>)
    ensures
        resolves(workspace@, *reply, relative_path@, allow_empty, path_pair(result)),
{
    let root = match reply {
        RootReply::Failed(reason) => {
            return Err(workspace_io(workspace, reason.as_str()));
        },
        RootReply::Resolved { path, is_directory } => {
            if !*is_directory {
                return Err(about_path("environment workspace ", workspace, " is not a directory"));
            }
            path.clone()
        },
    };
    if path_is_absolute(relative_path) {
        return Err(WorkError::WorkspaceFile("workspace file path must be relative".to_owned()));
    }
    let parts = path_components(relative_path);
    let ghost all = components(relative_path@);
    let mut normalized = "".to_owned();
    let mut i: usize = 0;
    assert(all.take(0) =~= Seq::empty());
    while i < parts.len()
        invariant
            i <= parts@.len(),
            all == texts(parts@),
            all == components(relative_path@),
            normalized@ == below(""@, all.take(i as int)),
            forall|k: int| 0 <= k < i ==> is_name(#[trigger] all[k]),
            !is_absolute(relative_path@),
            reply matches RootReply::Resolved { path, is_directory } && *is_directory,
        decreases parts.len() - i,
    {
        let part = parts[i].as_str();
        assert(all[i as int] == part@);
        if same(part, "/") || same(part, ".") || same(part, "..") {
            assert(!is_name(components(relative_path@)[i as int]));
            return Err(
                WorkError::WorkspaceFile(
                    "workspace file path must not contain '.', '..', or a root".to_owned(),
                ),
            );
        }
        normalized = join_path(normalized.as_str(), part);
        assert(all.take(i + 1).drop_last() =~= all.take(i as int));
        assert(all.take(i + 1).last() == part@);
        i = i + 1;
    }
    assert(all.take(i as int) =~= all);
    if !allow_empty && parts.len() == 0 {
        return Err(WorkError::WorkspaceFile("workspace file path cannot be empty".to_owned()));
    }
    Ok((root, normalized))
}

/// A path lies in a directory or is the directory itself.
pub open spec fn lies_within(root: Seq<char>, path: Seq<char>) -> bool {
    components(root).is_prefix_of(components(path))
}

/// A path lies in a directory and is not the directory itself.
pub open spec fn lies_below(root: Seq<char>, path: Seq<char>) -> bool {
    lies_within(root, path) && components(root) != components(path)
}

/// The message for a path that leads out of the workspace.
pub open spec fn escape_message(requested: Seq<char>) -> Seq<char> {
    "workspace path "@ + requested + " resolves outside the registered workspace"@
}

fn ensure_within_root(root: &str, path: &str, requested: &str) -> (result: Result<(), WorkError>)
    ensures
        match result {
            Ok(_) => lies_within(root@, path@),
            Err(error) => !lies_within(root@, path@) && is_file_error(
                error,
                escape_message(requested@),
            ),
        },
{
    match strip_base(path, root) {
        Some(_) => Ok(()),
        None => Err(
            about_path("workspace path ", requested, " resolves outside the registered workspace"),
        ),
    }
}

fn ensure_below_root(root: &str, path: &str, requested: &str) -> (result: Result<(), WorkError>)
    ensures
        match result {
            Ok(_) => lies_below(root@, path@),
            Err(error) => !lies_below(root@, path@) && is_file_error(
                error,
                escape_message(requested@),
            ),
        },
{
    match strip_base(path, root) {
        Some(rest) => {
            proof {
                let whole = components(path@);
                let lead = components(root@);
                assert(texts(rest@).len() == rest@.len());
                assert(whole.skip(lead.len() as int).len() == whole.len() - lead.len());
                if rest@.len() == 0 {
                    assert(whole.len() == lead.len());
                    assert(whole =~= lead);
                } else {
                    assert(whole.len() != lead.len());
                }
            }
            if rest.len() == 0 {
                return Err(
                    about_path(
                        "workspace path ",
                        requested,
                        " resolves outside the registered workspace",
                    ),
                );
            }
            Ok(())
        },
        None => Err(
            about_path("workspace path ", requested, " resolves outside the registered workspace"),
        ),
    }
}

/// A relative path names something.
pub open spec fn names_something(path: Seq<char>) -> bool {
    trimmed(path).len() > 0
}

fn refuse_blank(path: &str) -> (result: Result<(), WorkError>)
    ensures
        match result {
            Ok(_) => names_something(path@),
            Err(error) => !names_something(path@) && is_file_error(
                error,
                "workspace file path cannot be empty"@,
            ),
        },
{
    if trim(path).as_str().is_empty() {
        return Err(WorkError::WorkspaceFile("workspace file path cannot be empty".to_owned()));
    }
    Ok(())
}

/// The next operation of a read.
#[derive(Clone, Debug, PartialEq, Eq)]
pub enum ReadStep {
    /// Resolve the workspace.
    ResolveRoot {
        /// The workspace.
        workspace: String,
        /// The path that was asked for.
        relative_path: String,
    },
    /// Resolve the file.
    ResolveFile {
        /// Actual path of the workspace.
        root: String,
        /// Plain form of the relative path.
        normalized: String,
        /// The path to resolve.
        path: String,
    },
    /// Look at the file.
    InspectFile {
        /// Plain form of the relative path.
        normalized: String,
        /// Actual path of the file.
        path: String,
    },
    /// Read the file, up to one byte more than a text may have.
    ReadContents {
        /// Plain form of the relative path.
        normalized: String,
        /// Actual path of the file.
        path: String,
    },
}

/// What the filesystem replied to an operation of a read.
#[derive(Clone, Debug, PartialEq, Eq)]
pub enum ReadReply {
    /// The actual path.
    Resolved {
        /// The path.
        path: String,
        /// Whether it is a directory.
        is_directory: bool,
    },
    /// What the file is.
    Inspected {
        /// Whether it is a regular file.
        is_file: bool,
        /// Its size.
        bytes: u64,
    },
    /// What the file holds.
    Contents(Vec<u8>),
    /// The operation failed.
    Failed(String),
}

/// What follows a reply.
#[derive(Clone, Debug, PartialEq, Eq)]
pub enum ReadDecision {
    /// The next operation.
    Continue(ReadStep),
    /// The text.
    Done(WorkspaceTextFile),
    /// No text.
    Refused(WorkError),
}

/// A refusal with a message.
pub open spec fn read_refused(decision: ReadDecision, message: Seq<char>) -> bool {
    decision matches ReadDecision::Refused(error) && is_file_error(error, message)
}

/// The message for a file that is too long.
pub open spec fn limit_message(normalized: Seq<char>) -> Seq<char> {
    "workspace file "@ + normalized + " exceeds the "@ + decimal_of(2_097_152)
        + "-byte Studio limit"@
}

/// The replies that suit an operation of a read.
pub open spec fn read_suits(step: ReadStep, reply: ReadReply) -> bool {
    reply is Failed || match step {
        ReadStep::ResolveRoot { .. } => reply is Resolved,
        ReadStep::ResolveFile { .. } => reply is Resolved,
        ReadStep::InspectFile { .. } => reply is Inspected,
        ReadStep::ReadContents { .. } => reply is Contents,
    }
}

/// What follows a reply to an operation of a read.
pub open spec fn read_follows(step: ReadStep, reply: ReadReply, decision: ReadDecision) -> bool {
    match step {
        ReadStep::ResolveRoot { workspace, relative_path } => {
            let root = match reply {
                ReadReply::Resolved { path, is_directory } => RootReply::Resolved {
                    path,
                    is_directory,
                },
                ReadReply::Failed(reason) => RootReply::Failed(reason),
                _ => arbitrary(),
            };
            match decision {
                ReadDecision::Continue(ReadStep::ResolveFile { root: actual, normalized, path }) =>
                    resolves(
                    workspace@,
                    root,
                    relative_path@,
                    false,
                    Ok((actual@, normalized@)),
                ) && path@ == joined(actual@, normalized@),
                ReadDecision::Refused(error) => resolves(
                    workspace@,
                    root,
                    relative_path@,
                    false,
                    Err(error),
                ),
                _ => false,
            }
        },
        ReadStep::ResolveFile { root, normalized, path } => match reply {
            ReadReply::Resolved { path: actual, .. } => if lies_below(root@, actual@) {
                decision matches ReadDecision::Continue(
                    ReadStep::InspectFile { normalized: kept, path: next },
                ) && kept@ == normalized@ && next@ == actual@
            } else {
                read_refused(decision, escape_message(path@))
            },
            ReadReply::Failed(reason) => read_refused(decision, io_message(path@, reason@)),
            _ => true,
        },
        ReadStep::InspectFile { normalized, path } => match reply {
            ReadReply::Inspected { is_file, bytes } => if !is_file {
                read_refused(
                    decision,
                    "workspace path "@ + normalized@ + " is not a regular file"@,
                )
            } else if bytes > usize::MAX {
                read_refused(
                    decision,
                    "workspace file "@ + normalized@ + " is larger than the Studio limit"@,
                )
            } else if bytes > MAX_WORKSPACE_TEXT_BYTES {
                read_refused(decision, limit_message(normalized@))
            } else {
                decision matches ReadDecision::Continue(
                    ReadStep::ReadContents { normalized: kept, path: next },
                ) && kept@ == normalized@ && next@ == path@
            },
            ReadReply::Failed(reason) => read_refused(decision, io_message(path@, reason@)),
            _ => true,
        },
        ReadStep::ReadContents { normalized, path } => match reply {
            ReadReply::Contents(bytes) => if bytes@.len() > MAX_WORKSPACE_TEXT_BYTES {
                read_refused(decision, limit_message(normalized@))
            } else if !valid_utf8(bytes@) {
                read_refused(
                    decision,
                    "workspace file "@ + normalized@ + " is not valid UTF-8 text"@,
                )
            } else {
                decision matches ReadDecision::Done(file) && file.path@ == normalized@
                    && file.contents@ == decode_utf8(bytes@)
            },
            ReadReply::Failed(reason) => read_refused(decision, io_message(path@, reason@)),
            _ => true,
        },
    }
}

fn over_limit(normalized: &str) -> (error: WorkError)
    ensures
        is_file_error(error, limit_message(normalized@)),
{
    let mut message = join("workspace file ", normalized);
    message.append(" exceeds the ");
    message.append(decimal(2_097_152).as_str());
    message.append("-byte Studio limit");
    WorkError::WorkspaceFile(message)
}

/// Begins a read in the workspace of an environment.
fn begin_read(environment: &EnvironmentSpec, relative_path: &str) -> (decision: ReadDecision)
    ensures
        if names_something(relative_path@) {
            decision matches ReadDecision::Continue(
                ReadStep::ResolveRoot { workspace, relative_path: asked },
            ) && workspace@ == environment.workspace@ && asked@ == relative_path@
        } else {
            read_refused(decision, "workspace file path cannot be empty"@)
        },
{
    match refuse_blank(relative_path) {
        Ok(_) => ReadDecision::Continue(
            ReadStep::ResolveRoot {
                workspace: environment.workspace.clone(),
                relative_path: relative_path.to_owned(),
            },
        ),
        Err(error) => ReadDecision::Refused(error),
    }
}

/// Decides what follows a reply to an operation of a read.
pub fn continue_read(step: &ReadStep, reply: ReadReply) -> (decision: ReadDecision)
    requires
        read_suits(*step, reply),
    ensures
        read_follows(*step, reply, decision),
{
    match step {
        ReadStep::ResolveRoot { workspace, relative_path } => {
            let root = match reply {
                ReadReply::Resolved { path, is_directory } => RootReply::Resolved {
                    path,
                    is_directory,
                },
                ReadReply::Failed(reason) => RootReply::Failed(reason),
                _ => RootReply::Failed("".to_owned()),
            };
            match resolve_relative_components(
                workspace.as_str(),
                &root,
                relative_path.as_str(),
                false,
            ) {
                Ok((actual, normalized)) => {
                    let path = join_path(actual.as_str(), normalized.as_str());
                    ReadDecision::Continue(ReadStep::ResolveFile { root: actual, normalized, path })
                },
                Err(error) => ReadDecision::Refused(error),
            }
        },
        ReadStep::ResolveFile { root, normalized, path } => match reply {
            ReadReply::Resolved { path: actual, .. } => match ensure_below_root(
                root.as_str(),
                actual.as_str(),
                path.as_str(),
            ) {
                Ok(_) => ReadDecision::Continue(
                    ReadStep::InspectFile { normalized: normalized.clone(), path: actual },
                ),
                Err(error) => ReadDecision::Refused(error),
            },
            ReadReply::Failed(reason) => ReadDecision::Refused(
                workspace_io(path.as_str(), reason.as_str()),
            ),
            _ => ReadDecision::Refused(workspace_io(path.as_str(), "")),
        },
        ReadStep::InspectFile { normalized, path } => match reply {
            ReadReply::Inspected { is_file, bytes } => {
                if !is_file {
                    ReadDecision::Refused(
                        about_path("workspace path ", normalized.as_str(), " is not a regular file"),
                    )
                } else if bytes > usize::MAX as u64 {
                    ReadDecision::Refused(
                        about_path(
                            "workspace file ",
                            normalized.as_str(),
                            " is larger than the Studio limit",
                        ),
                    )
                } else if bytes > 2_097_152 {
                    ReadDecision::Refused(over_limit(normalized.as_str()))
                } else {
                    ReadDecision::Continue(
                        ReadStep::ReadContents {
                            normalized: normalized.clone(),
                            path: path.clone(),
                        },
                    )
                }
            },
            ReadReply::Failed(reason) => ReadDecision::Refused(
                workspace_io(path.as_str(), reason.as_str()),
            ),
            _ => ReadDecision::Refused(workspace_io(path.as_str(), "")),
        },
        ReadStep::ReadContents { normalized, path } => match reply {
            ReadReply::Contents(bytes) => {
                if bytes.len() > MAX_WORKSPACE_TEXT_BYTES {
                    return ReadDecision::Refused(over_limit(normalized.as_str()));
                }
                match utf8_text(bytes) {
                    Some(contents) => ReadDecision::Done(
                        WorkspaceTextFile { path: normalized.clone(), contents },
                    ),
                    None => ReadDecision::Refused(
                        about_path(
                            "workspace file ",
                            normalized.as_str(),
                            " is not valid UTF-8 text",
                        ),
                    ),
                }
            },
            ReadReply::Failed(reason) => ReadDecision::Refused(
                workspace_io(path.as_str(), reason.as_str()),
            ),
            _ => ReadDecision::Refused(workspace_io(path.as_str(), "")),
        },
    }
}

/// A text is opened only at a path that lies below the workspace: the path that
/// is looked at and read is the one that was found there.
pub proof fn reads_stay_in_the_workspace(
    root: String,
    normalized: String,
    path: String,
    reply: ReadReply,
    decision: ReadDecision,
)
    requires
        read_follows(ReadStep::ResolveFile { root, normalized, path }, reply, decision),
        read_suits(ReadStep::ResolveFile { root, normalized, path }, reply),
    ensures
        !(decision is Done),
        decision matches ReadDecision::Continue(next) ==> next matches ReadStep::InspectFile {
            path: opened,
            ..
        } && lies_below(root@, opened@),
{
}

/// A text that was read has a bounded size.
pub proof fn texts_are_bounded(step: ReadStep, bytes: Vec<u8>, decision: ReadDecision)
    requires
        step is ReadContents,
        read_follows(step, ReadReply::Contents(bytes), decision),
        decision is Done,
    ensures
        bytes@.len() <= MAX_WORKSPACE_TEXT_BYTES,
        valid_utf8(bytes@),
{
}

/// Where a write stands.
#[derive(Clone, Copy, Debug, PartialEq, Eq, Structural)]
pub enum WriteStage {
    /// Resolve the workspace.
    ResolveRoot,
    /// Resolve the directory of the file.
    ResolveParent,
    /// Look at the file.
    InspectTarget,
    /// Resolve the file, which exists.
    ResolveTarget,
    /// Create the temporary file, which must not exist.
    CreateTemporary,
    /// Write the text to it and bring it to disk.
    WriteContents,
    /// Move it to its place.
    Rename,
}

/// A write that is under way.
#[derive(Clone, Debug, PartialEq, Eq)]
pub struct WorkspaceWrite {
    /// Where it stands.
    pub stage: WriteStage,
    /// The workspace.
    pub workspace: String,
    /// The path that was asked for.
    pub relative_path: String,
    /// The text.
    pub contents: String,
    /// Actual path of the workspace.
    pub root: String,
    /// Plain form of the relative path.
    pub normalized: String,
    /// Path of the directory of the file; its actual path once that is known.
    pub parent: String,
    /// Path of the file.
    pub target: String,
    /// Path of the temporary file.
    pub temporary: String,
    /// Permissions of the temporary file.
    pub mode: u32,
}

/// What the filesystem replied to an operation of a write.
#[derive(Clone, Debug, PartialEq, Eq)]
pub enum WriteReply {
    /// The actual path.
    Resolved {
        /// The path.
        path: String,
        /// Whether it is a directory.
        is_directory: bool,
    },
    /// What the file is; a link is not followed.
    Inspected {
        /// Whether it is a link.
        is_symlink: bool,
        /// Whether it is a regular file.
        is_file: bool,
        /// Its mode.
        mode: u32,
    },
    /// There is no such file.
    Missing,
    /// The operation is done.
    Done,
    /// The operation failed.
    Failed(String),
}

/// What follows a reply.
#[derive(Clone, Debug, PartialEq, Eq)]
pub enum WriteDecision {
    /// The next operation.
    Continue(WorkspaceWrite),
    /// The text is in its place.
    Done(WorkspaceTextFile),
    /// It is not.
    Refused {
        /// Whether the temporary file has to be removed.
        remove_temporary: bool,
        /// Why.
        error: WorkError,
    },
}

/// The replies that suit an operation of a write.
pub open spec fn write_suits(stage: WriteStage, reply: WriteReply) -> bool {
    reply is Failed || match stage {
        WriteStage::ResolveRoot => reply is Resolved,
        WriteStage::ResolveParent => reply is Resolved,
        WriteStage::InspectTarget => reply is Inspected || reply is Missing,
        WriteStage::ResolveTarget => reply is Resolved,
        WriteStage::CreateTemporary => reply is Done,
        WriteStage::WriteContents => reply is Done,
        WriteStage::Rename => reply is Done,
    }
}

/// The temporary file exists when an operation of a write is carried out.
pub open spec fn write_has_temporary(stage: WriteStage) -> bool {
    stage == WriteStage::WriteContents || stage == WriteStage::Rename
}

/// A refusal with a message; the temporary file is removed where it exists.
pub open spec fn write_refused(
    stage: WriteStage,
    decision: WriteDecision,
    message: Seq<char>,
) -> bool {
    decision matches WriteDecision::Refused { remove_temporary, error } && remove_temporary
        == write_has_temporary(stage) && is_file_error(error, message)
}

/// A write goes on, with these things settled.
pub open spec fn goes_on(
    before: WorkspaceWrite,
    decision: WriteDecision,
    stage: WriteStage,
) -> bool {
    decision matches WriteDecision::Continue(next) && next.stage == stage && next.workspace@
        == before.workspace@ && next.relative_path@ == before.relative_path@ && next.contents@
        == before.contents@
}

/// A write goes on with everything that was settled before.
pub open spec fn goes_on_unchanged(
    before: WorkspaceWrite,
    decision: WriteDecision,
    stage: WriteStage,
) -> bool {
    goes_on_with_mode(before, decision, stage, before.mode)
}

/// A write goes on with other permissions.
pub open spec fn goes_on_with_mode(
    before: WorkspaceWrite,
    decision: WriteDecision,
    stage: WriteStage,
    mode: u32,
) -> bool {
    &&& goes_on(before, decision, stage)
    &&& decision matches WriteDecision::Continue(next)
    &&& next.root@ == before.root@
    &&& next.normalized@ == before.normalized@
    &&& next.target@ == before.target@
    &&& next.parent@ == before.parent@
    &&& next.temporary@ == before.temporary@
    &&& next.mode == mode
}

/// What follows a reply to an operation of a write. `suffix` tells temporary
/// files apart.
pub open spec fn write_follows(
    write: WorkspaceWrite,
    reply: WriteReply,
    suffix: Seq<char>,
    decision: WriteDecision,
) -> bool {
    let names = components(write.relative_path@);
    match write.stage {
        WriteStage::ResolveRoot => {
            let root = match reply {
                WriteReply::Resolved { path, is_directory } => RootReply::Resolved {
                    path,
                    is_directory,
                },
                WriteReply::Failed(reason) => RootReply::Failed(reason),
                _ => arbitrary(),
            };
            match decision {
                WriteDecision::Continue(next) => goes_on(
                    write,
                    decision,
                    WriteStage::ResolveParent,
                ) && resolves(
                    write.workspace@,
                    root,
                    write.relative_path@,
                    false,
                    Ok((next.root@, next.normalized@)),
                ) && next.target@ == joined(next.root@, next.normalized@) && next.parent@ == below(
                    next.root@,
                    names.drop_last(),
                ),
                WriteDecision::Refused { remove_temporary, error } => !remove_temporary && resolves(
                    write.workspace@,
                    root,
                    write.relative_path@,
                    false,
                    Err(error),
                ),
                WriteDecision::Done(_) => false,
            }
        },
        WriteStage::ResolveParent => match reply {
            WriteReply::Resolved { path: actual, .. } => if lies_within(write.root@, actual@) {
                &&& goes_on(write, decision, WriteStage::InspectTarget)
                &&& decision matches WriteDecision::Continue(next)
                &&& next.root@ == write.root@
                &&& next.normalized@ == write.normalized@
                &&& next.target@ == write.target@
                &&& next.parent@ == actual@
                &&& next.temporary@ == joined(
                    actual@,
                    "."@ + names.last() + ".devcore-tmp-"@ + suffix,
                )
                &&& next.mode == write.mode
            } else {
                write_refused(write.stage, decision, escape_message(write.parent@))
            },
            WriteReply::Failed(reason) => write_refused(
                write.stage,
                decision,
                io_message(write.parent@, reason@),
            ),
            _ => true,
        },
        WriteStage::InspectTarget => match reply {
            WriteReply::Inspected { is_symlink, is_file, mode } => if is_symlink {
                write_refused(
                    write.stage,
                    decision,
                    "refusing to write through workspace symlink "@ + write.normalized@,
                )
            } else if !is_file {
                write_refused(
                    write.stage,
                    decision,
                    "workspace path "@ + write.normalized@ + " is not a regular file"@,
                )
            } else {
                goes_on_with_mode(
                    write,
                    decision,
                    WriteStage::ResolveTarget,
                    mode & 0xfff,
                )
            },
            WriteReply::Missing => goes_on_with_mode(
                write,
                decision,
                WriteStage::CreateTemporary,
                0x180,
            ),
            WriteReply::Failed(reason) => write_refused(
                write.stage,
                decision,
                io_message(write.target@, reason@),
            ),
            _ => true,
        },
        WriteStage::ResolveTarget => match reply {
            WriteReply::Resolved { path: actual, .. } => if lies_below(write.root@, actual@) {
                goes_on_unchanged(write, decision, WriteStage::CreateTemporary)
            } else {
                write_refused(write.stage, decision, escape_message(write.target@))
            },
            WriteReply::Failed(reason) => write_refused(
                write.stage,
                decision,
                io_message(write.target@, reason@),
            ),
            _ => true,
        },
        WriteStage::CreateTemporary => match reply {
            WriteReply::Done => goes_on_unchanged(write, decision, WriteStage::WriteContents),
            WriteReply::Failed(reason) => write_refused(
                write.stage,
                decision,
                io_message(write.temporary@, reason@),
            ),
            _ => true,
        },
        WriteStage::WriteContents => match reply {
            WriteReply::Done => goes_on_unchanged(write, decision, WriteStage::Rename),
            WriteReply::Failed(reason) => write_refused(
                write.stage,
                decision,
                io_message(write.temporary@, reason@),
            ),
            _ => true,
        },
        WriteStage::Rename => match reply {
            WriteReply::Done => decision matches WriteDecision::Done(file) && file.path@
                == write.normalized@ && file.contents@ == write.contents@,
            WriteReply::Failed(reason) => write_refused(
                write.stage,
                decision,
                io_message(write.target@, reason@),
            ),
            _ => true,
        },
    }
}

/// Checks the size of a text.
fn check_contents(contents: &str) -> (result: Result<(), WorkError>)
    ensures
        match result {
            Ok(_) => encode_utf8(contents@).len() <= MAX_WORKSPACE_TEXT_BYTES,
            Err(error) => encode_utf8(contents@).len() > MAX_WORKSPACE_TEXT_BYTES && is_file_error(
                error,
                "workspace file content exceeds the "@ + decimal_of(2_097_152)
                    + "-byte Studio limit"@,
            ),
        },
{
    if byte_len(contents) > MAX_WORKSPACE_TEXT_BYTES {
        let mut message = join("workspace file content exceeds the ", decimal(2_097_152).as_str());
        message.append("-byte Studio limit");
        return Err(WorkError::WorkspaceFile(message));
    }
    Ok(())
}

/// Begins a write in the workspace of an environment.
fn begin_write(environment: &EnvironmentSpec, relative_path: &str, contents: &str) -> (decision:
    WriteDecision)
    ensures
        if names_something(relative_path@) {
            decision matches WriteDecision::Continue(write) && write.stage
                == WriteStage::ResolveRoot && write.workspace@ == environment.workspace@
                && write.relative_path@ == relative_path@ && write.contents@ == contents@
        } else {
            write_refused(
                WriteStage::ResolveRoot,
                decision,
                "workspace file path cannot be empty"@,
            )
        },
{
    match refuse_blank(relative_path) {
        Ok(_) => WriteDecision::Continue(
            WorkspaceWrite {
                stage: WriteStage::ResolveRoot,
                workspace: environment.workspace.clone(),
                relative_path: relative_path.to_owned(),
                contents: contents.to_owned(),
                root: "".to_owned(),
                normalized: "".to_owned(),
                parent: "".to_owned(),
                target: "".to_owned(),
                temporary: "".to_owned(),
                mode: 0x180,
            },
        ),
        Err(error) => WriteDecision::Refused { remove_temporary: false, error },
    }
}

/// The path of the directory of a file, and the name of the file.
fn parent_and_name(root: &str, relative_path: &str) -> (result: (String, String))
    requires
        components(relative_path@).len() > 0,
    ensures
        result.0@ == below(root@, components(relative_path@).drop_last()),
        result.1@ == components(relative_path@).last(),
{
    let parts = path_components(relative_path);
    let ghost all = components(relative_path@);
    let mut parent = root.to_owned();
    let mut i: usize = 0;
    assert(all.take(0) =~= Seq::empty());
    assert(texts(parts@).len() == parts@.len());
    while i < parts.len() - 1
        invariant
            i < parts@.len(),
            all == texts(parts@),
            parent@ == below(root@, all.take(i as int)),
        decreases parts.len() - i,
    {
        parent = join_path(parent.as_str(), parts[i].as_str());
        assert(all.take(i + 1).drop_last() =~= all.take(i as int));
        assert(all.take(i + 1).last() == parts@[i as int]@);
        i = i + 1;
    }
    assert(all.take(i as int) =~= all.drop_last());
    let name = parts[i].clone();
    assert(all.last() == name@);
    (parent, name)
}

fn stopped(remove_temporary: bool, error: WorkError) -> (decision: WriteDecision)
    ensures
        decision == (WriteDecision::Refused { remove_temporary, error }),
{
    WriteDecision::Refused { remove_temporary, error }
}

/// Decides what follows a reply to an operation of a write. `process` and
/// `counter` tell temporary files apart.
pub fn continue_write(
    write: WorkspaceWrite,
    reply: WriteReply,
    process: u32,
    counter: u64,
) -> (decision: WriteDecision)
    requires
        write_suits(write.stage, reply),
        write.stage == WriteStage::ResolveParent ==> components(write.relative_path@).len() > 0,
    ensures
        write_follows(
            write,
            reply,
            temporary_suffix(process as nat, counter as nat),
            decision,
        ),
        decision matches WriteDecision::Continue(next) ==> next.stage == WriteStage::ResolveParent
            ==> components(next.relative_path@).len() > 0,
{
    let mut next = write;
    match next.stage {
        WriteStage::ResolveRoot => {
            let root = match reply {
                WriteReply::Resolved { path, is_directory } => RootReply::Resolved {
                    path,
                    is_directory,
                },
                WriteReply::Failed(reason) => RootReply::Failed(reason),
                _ => RootReply::Failed("".to_owned()),
            };
            match resolve_relative_components(
                next.workspace.as_str(),
                &root,
                next.relative_path.as_str(),
                false,
            ) {
                Ok((actual, normalized)) => {
                    let (parent, _name) = parent_and_name(
                        actual.as_str(),
                        next.relative_path.as_str(),
                    );
                    next.target = join_path(actual.as_str(), normalized.as_str());
                    next.root = actual;
                    next.normalized = normalized;
                    next.parent = parent;
                    next.stage = WriteStage::ResolveParent;
                    WriteDecision::Continue(next)
                },
                Err(error) => stopped(false, error),
            }
        },
        WriteStage::ResolveParent => match reply {
            WriteReply::Resolved { path: actual, .. } => match ensure_within_root(
                next.root.as_str(),
                actual.as_str(),
                next.parent.as_str(),
            ) {
                Ok(_) => {
                    let (_parent, name) = parent_and_name("", next.relative_path.as_str());
                    let mut temporary = join(".", name.as_str());
                    temporary.append(".devcore-tmp-");
                    temporary.append(decimal(process as u64).as_str());
                    temporary.append("-");
                    temporary.append(decimal(counter).as_str());
                    proof {
                        let lead = "."@ + name@ + ".devcore-tmp-"@;
                        assert(temporary@ =~= lead + (decimal_of(process as nat) + "-"@
                            + decimal_of(counter as nat)));
                    }
                    next.temporary = join_path(actual.as_str(), temporary.as_str());
                    next.parent = actual;
                    next.stage = WriteStage::InspectTarget;
                    WriteDecision::Continue(next)
                },
                Err(error) => stopped(false, error),
            },
            WriteReply::Failed(reason) => stopped(
                false,
                workspace_io(next.parent.as_str(), reason.as_str()),
            ),
            _ => stopped(false, workspace_io(next.parent.as_str(), "")),
        },
        WriteStage::InspectTarget => match reply {
            WriteReply::Inspected { is_symlink, is_file, mode } => {
                if is_symlink {
                    stopped(
                        false,
                        WorkError::WorkspaceFile(
                            join(
                                "refusing to write through workspace symlink ",
                                next.normalized.as_str(),
                            ),
                        ),
                    )
                } else if !is_file {
                    stopped(
                        false,
                        about_path(
                            "workspace path ",
                            next.normalized.as_str(),
                            " is not a regular file",
                        ),
                    )
                } else {
                    next.mode = mode & 0xfff;
                    next.stage = WriteStage::ResolveTarget;
                    WriteDecision::Continue(next)
                }
            },
            WriteReply::Missing => {
                next.mode = 0x180;
                next.stage = WriteStage::CreateTemporary;
                WriteDecision::Continue(next)
            },
            WriteReply::Failed(reason) => stopped(
                false,
                workspace_io(next.target.as_str(), reason.as_str()),
            ),
            _ => stopped(false, workspace_io(next.target.as_str(), "")),
        },
        WriteStage::ResolveTarget => match reply {
            WriteReply::Resolved { path: actual, .. } => match ensure_below_root(
                next.root.as_str(),
                actual.as_str(),
                next.target.as_str(),
            ) {
                Ok(_) => {
                    next.stage = WriteStage::CreateTemporary;
                    WriteDecision::Continue(next)
                },
                Err(error) => stopped(false, error),
            },
            WriteReply::Failed(reason) => stopped(
                false,
                workspace_io(next.target.as_str(), reason.as_str()),
            ),
            _ => stopped(false, workspace_io(next.target.as_str(), "")),
        },
        WriteStage::CreateTemporary => match reply {
            WriteReply::Done => {
                next.stage = WriteStage::WriteContents;
                WriteDecision::Continue(next)
            },
            WriteReply::Failed(reason) => stopped(
                false,
                workspace_io(next.temporary.as_str(), reason.as_str()),
            ),
            _ => stopped(false, workspace_io(next.temporary.as_str(), "")),
        },
        WriteStage::WriteContents => match reply {
            WriteReply::Done => {
                next.stage = WriteStage::Rename;
                WriteDecision::Continue(next)
            },
            WriteReply::Failed(reason) => stopped(
                true,
                workspace_io(next.temporary.as_str(), reason.as_str()),
            ),
            _ => stopped(true, workspace_io(next.temporary.as_str(), "")),
        },
        WriteStage::Rename => match reply {
            WriteReply::Done => WriteDecision::Done(
                WorkspaceTextFile { path: next.normalized, contents: next.contents },
            ),
            WriteReply::Failed(reason) => stopped(
                true,
                workspace_io(next.target.as_str(), reason.as_str()),
            ),
            _ => stopped(true, workspace_io(next.target.as_str(), "")),
        },
    }
}

/// A write never goes through a link, and the temporary file is created only
/// after the directory was found in the workspace; it lies in that directory.
pub proof fn writes_stay_in_the_workspace(
    write: WorkspaceWrite,
    reply: WriteReply,
    suffix: Seq<char>,
    decision: WriteDecision,
)
    requires
        write_suits(write.stage, reply),
        write_follows(write, reply, suffix, decision),
    ensures
        write.stage == WriteStage::ResolveParent && decision is Continue ==> lies_within(
            write.root@,
            decision->Continue_0.parent@,
        ),
        reply matches WriteReply::Inspected { is_symlink, .. } && write.stage
            == WriteStage::InspectTarget && is_symlink ==> decision is Refused,
        decision is Done ==> write.stage == WriteStage::Rename && reply is Done,
        decision matches WriteDecision::Refused { remove_temporary, .. } ==> remove_temporary
            == write_has_temporary(write.stage),
{
}

/// What tells the temporary files of a process apart.
pub open spec fn temporary_suffix(process: nat, counter: nat) -> Seq<char> {
    decimal_of(process) + "-"@ + decimal_of(counter)
}

/// The name of the temporary file that replaces a file.
pub open spec fn temporary_name(name: Seq<char>, suffix: Seq<char>) -> Seq<char> {
    "."@ + name + ".devcore-tmp-"@ + suffix
}

/// A temporary file never lies where the file that it replaces lies, whatever
/// directory the latter turns out to be in.
pub proof fn temporary_files_are_not_their_targets(
    root: Seq<char>,
    relative_path: Seq<char>,
    parent: Seq<char>,
    process: nat,
    counter: nat,
)
    requires
        relative_refusal(relative_path, false) is None,
    ensures
        joined(
            parent,
            temporary_name(components(relative_path).last(), temporary_suffix(process, counter)),
        ) != joined(root, plain_form(relative_path)),
{
    reveal_strlit("");
    reveal_strlit("/");
    reveal_strlit(".");
    reveal_strlit("-");
    reveal_strlit(".devcore-tmp-");
    decimals_are_digits(process);
    decimals_are_digits(counter);
    let names = components(relative_path);
    let name = names.last();
    names_hold_no_separator(relative_path, names.len() - 1);
    let n = name.len() as int;
    assert(forall|i: int| 0 <= i < n ==> name.contains(#[trigger] name[i]));
    let front = below(""@, names.drop_last());
    let plain = plain_form(relative_path);
    assert(plain == joined(front, name));
    let target = joined(root, plain);
    assert(target.len() == n || target[target.len() - n - 1] == '/');
    let suffix = temporary_suffix(process, counter);
    let hidden = temporary_name(name, suffix);
    let temporary = joined(parent, hidden);
    assert(forall|i: int|
        0 <= i < decimal_of(process).len() ==> is_digit(#[trigger] decimal_of(process)[i]));
    assert(forall|i: int|
        0 <= i < decimal_of(counter).len() ==> is_digit(#[trigger] decimal_of(counter)[i]));
    let at = hidden.len() - n - 1;
    assert(hidden[at] != '/');
    assert(hidden[0] == '.');
    assert(temporary[temporary.len() - n - 1] == hidden[at]);
}

/// What an operation of a write does to the regular files, each with its bytes.
/// A write that fails may leave anything in the temporary file.
pub open spec fn write_does(
    before: Map<Seq<char>, Seq<u8>>,
    write: WorkspaceWrite,
    reply: WriteReply,
    after: Map<Seq<char>, Seq<u8>>,
) -> bool {
    match (write.stage, reply) {
        (WriteStage::CreateTemporary, WriteReply::Done) => !before.contains_key(write.temporary@)
            && after == before.insert(write.temporary@, Seq::empty()),
        (WriteStage::WriteContents, WriteReply::Done) => after == before.insert(
            write.temporary@,
            encode_utf8(write.contents@),
        ),
        (WriteStage::WriteContents, _) => after == before.insert(
            write.temporary@,
            after[write.temporary@],
        ),
        (WriteStage::Rename, WriteReply::Done) => after == before.insert(
            write.target@,
            before[write.temporary@],
        ).remove(write.temporary@),
        _ => after == before,
    }
}

/// A write from its beginning to its end: each reply suits the operation before
/// it, each operation follows from that reply and does its part, and nothing
/// else changes the files.
pub open spec fn is_write(
    writes: Seq<WorkspaceWrite>,
    replies: Seq<WriteReply>,
    suffix: Seq<char>,
    end: WriteDecision,
    files: Seq<Map<Seq<char>, Seq<u8>>>,
) -> bool {
    &&& writes.len() > 0
    &&& replies.len() == writes.len()
    &&& files.len() == writes.len() + 1
    &&& writes[0].stage == WriteStage::ResolveRoot
    &&& !(end is Continue)
    &&& forall|i: int|
        0 <= i < writes.len() ==> {
            &&& write_suits((#[trigger] writes[i]).stage, replies[i])
            &&& write_follows(
                writes[i],
                replies[i],
                suffix,
                if i + 1 < writes.len() {
                    WriteDecision::Continue(writes[i + 1])
                } else {
                    end
                },
            )
            &&& write_does(files[i], writes[i], replies[i], files[i + 1])
        }
}

/// The files when a write has ended.
pub open spec fn files_after_write(
    end: WriteDecision,
    temporary: Seq<char>,
    files: Map<Seq<char>, Seq<u8>>,
) -> Map<Seq<char>, Seq<u8>> {
    match end {
        WriteDecision::Refused { remove_temporary, .. } if remove_temporary => files.remove(
            temporary,
        ),
        _ => files,
    }
}

/// What is settled, and the files, before each operation of a write.
proof fn lemma_files_of_a_write(
    writes: Seq<WorkspaceWrite>,
    replies: Seq<WriteReply>,
    suffix: Seq<char>,
    end: WriteDecision,
    files: Seq<Map<Seq<char>, Seq<u8>>>,
    i: int,
)
    requires
        is_write(writes, replies, suffix, end, files),
        0 <= i < writes.len(),
    ensures
        writes[i].relative_path@ == writes[0].relative_path@,
        writes[i].contents@ == writes[0].contents@,
        writes[i].stage == WriteStage::ResolveRoot ==> files[i] == files[0],
        writes[i].stage != WriteStage::ResolveRoot ==> {
            &&& relative_refusal(writes[i].relative_path@, false) is None
            &&& writes[i].normalized@ == plain_form(writes[i].relative_path@)
            &&& writes[i].target@ == joined(writes[i].root@, writes[i].normalized@)
        },
        writes[i].stage != WriteStage::ResolveRoot && writes[i].stage != WriteStage::ResolveParent
            ==> writes[i].temporary@ == joined(
            writes[i].parent@,
            temporary_name(components(writes[i].relative_path@).last(), suffix),
        ),
        !write_has_temporary(writes[i].stage) ==> files[i] == files[0],
        write_has_temporary(writes[i].stage) ==> !files[0].contains_key(writes[i].temporary@),
        writes[i].stage == WriteStage::WriteContents ==> files[i] == files[0].insert(
            writes[i].temporary@,
            Seq::empty(),
        ),
        writes[i].stage == WriteStage::Rename ==> files[i] == files[0].insert(
            writes[i].temporary@,
            encode_utf8(writes[i].contents@),
        ),
    decreases i,
{
    if i > 0 {
        lemma_files_of_a_write(writes, replies, suffix, end, files, i - 1);
        let before = writes[i - 1];
        assert(write_suits(before.stage, replies[i - 1]));
        assert(write_follows(
            before,
            replies[i - 1],
            suffix,
            WriteDecision::Continue(writes[i]),
        ));
        assert(write_does(files[i - 1], before, replies[i - 1], files[i]));
    }
}

/// A file is replaced as a whole. A write that ends with success leaves the text
/// in its place and no other file changed; one that ends with an error has
/// changed no file.
pub proof fn writes_replace_the_whole_file(
    writes: Seq<WorkspaceWrite>,
    replies: Seq<WriteReply>,
    process: nat,
    counter: nat,
    end: WriteDecision,
    files: Seq<Map<Seq<char>, Seq<u8>>>,
)
    requires
        is_write(writes, replies, temporary_suffix(process, counter), end, files),
    ensures
        ({
            let last = writes.last();
            let left = files_after_write(end, last.temporary@, files.last());
            &&& end matches WriteDecision::Done(file) ==> {
                &&& left == files[0].insert(last.target@, encode_utf8(writes[0].contents@))
                &&& last.target@ == joined(last.root@, file.path@)
                &&& file.path@ == plain_form(writes[0].relative_path@)
                &&& file.contents@ == writes[0].contents@
            }
            &&& end is Refused ==> left == files[0]
        }),
{
    let suffix = temporary_suffix(process, counter);
    let i = writes.len() - 1;
    let last = writes[i];
    lemma_files_of_a_write(writes, replies, suffix, end, files, i);
    assert(write_suits(last.stage, replies[i]));
    assert(write_follows(last, replies[i], suffix, end));
    assert(write_does(files[i], last, replies[i], files[i + 1]));
    let left = files_after_write(end, last.temporary@, files.last());
    if end is Done {
        temporary_files_are_not_their_targets(
            last.root@,
            last.relative_path@,
            last.parent@,
            process,
            counter,
        );
        assert(left =~= files[0].insert(last.target@, encode_utf8(writes[0].contents@)));
    } else {
        assert(left =~= files[0]);
    }
}

/// Nothing but the move touches the file that is replaced.
pub proof fn only_the_move_touches_the_target(
    writes: Seq<WorkspaceWrite>,
    replies: Seq<WriteReply>,
    process: nat,
    counter: nat,
    end: WriteDecision,
    files: Seq<Map<Seq<char>, Seq<u8>>>,
    i: int,
)
    requires
        is_write(writes, replies, temporary_suffix(process, counter), end, files),
        0 <= i < writes.len(),
        writes[i].stage != WriteStage::Rename,
    ensures
        files[i + 1].contains_key(writes[i].target@) == files[0].contains_key(writes[i].target@),
        files[0].contains_key(writes[i].target@) ==> files[i + 1][writes[i].target@]
            == files[0][writes[i].target@],
{
    let suffix = temporary_suffix(process, counter);
    let write = writes[i];
    lemma_files_of_a_write(writes, replies, suffix, end, files, i);
    assert(write_does(files[i], write, replies[i], files[i + 1]));
    if write.stage != WriteStage::ResolveRoot {
        temporary_files_are_not_their_targets(
            write.root@,
            write.relative_path@,
            write.parent@,
            process,
            counter,
        );
    }
}

/// A read from its beginning to its end: each reply suits the operation before
/// it, and each operation follows from that reply.
pub open spec fn is_read(
    steps: Seq<ReadStep>,
    replies: Seq<ReadReply>,
    end: ReadDecision,
) -> bool {
    &&& steps.len() > 0
    &&& replies.len() == steps.len()
    &&& steps[0] is ResolveRoot
    &&& forall|i: int|
        0 <= i < steps.len() ==> {
            &&& read_suits(#[trigger] steps[i], replies[i])
            &&& read_follows(
                steps[i],
                replies[i],
                if i + 1 < steps.len() {
                    ReadDecision::Continue(steps[i + 1])
                } else {
                    end
                },
            )
        }
}

/// The path that an operation of a read is about, in its plain form.
pub open spec fn path_of_step(step: ReadStep) -> Seq<char> {
    match step {
        ReadStep::ResolveRoot { relative_path, .. } => plain_form(relative_path@),
        ReadStep::ResolveFile { normalized, .. } => normalized@,
        ReadStep::InspectFile { normalized, .. } => normalized@,
        ReadStep::ReadContents { normalized, .. } => normalized@,
    }
}

/// A read keeps to its path.
proof fn lemma_path_of_a_read(
    steps: Seq<ReadStep>,
    replies: Seq<ReadReply>,
    end: ReadDecision,
    i: int,
)
    requires
        is_read(steps, replies, end),
        0 <= i < steps.len(),
    ensures
        path_of_step(steps[i]) == path_of_step(steps[0]),
    decreases i,
{
    if i > 0 {
        lemma_path_of_a_read(steps, replies, end, i - 1);
        assert(read_suits(steps[i - 1], replies[i - 1]));
        assert(read_follows(steps[i - 1], replies[i - 1], ReadDecision::Continue(steps[i])));
    }
}

/// A read gives back what was written: after a write that ended with success, a
/// read of the same path that gets the bytes which now lie in its place ends
/// with the same path and the same text.
pub proof fn reads_give_back_what_was_written(
    writes: Seq<WorkspaceWrite>,
    write_replies: Seq<WriteReply>,
    process: nat,
    counter: nat,
    written: WorkspaceTextFile,
    files: Seq<Map<Seq<char>, Seq<u8>>>,
    steps: Seq<ReadStep>,
    replies: Seq<ReadReply>,
    bytes: Vec<u8>,
    end: ReadDecision,
)
    requires
        is_write(
            writes,
            write_replies,
            temporary_suffix(process, counter),
            WriteDecision::Done(written),
            files,
        ),
        encode_utf8(writes[0].contents@).len() <= MAX_WORKSPACE_TEXT_BYTES,
        is_read(steps, replies, end),
        path_of_step(steps[0]) == plain_form(writes[0].relative_path@),
        replies.last() == ReadReply::Contents(bytes),
        bytes@ == files.last()[writes.last().target@],
    ensures
        end matches ReadDecision::Done(file) && file.path@ == written.path@ && file.contents@
            == written.contents@ && file.contents@ == writes[0].contents@,
{
    let i = steps.len() - 1;
    lemma_path_of_a_read(steps, replies, end, i);
    assert(read_suits(steps[i], replies[i]));
    assert(read_follows(steps[i], replies[i], end));
    writes_replace_the_whole_file(
        writes,
        write_replies,
        process,
        counter,
        WriteDecision::Done(written),
        files,
    );
    encode_utf8_valid_utf8(writes[0].contents@);
    encode_utf8_decode_utf8(writes[0].contents@);
}

/// What was found out about an entry of a directory.
#[derive(Clone, Copy, Debug, PartialEq, Eq, Structural)]
pub struct EntryMetadata {
    /// Whether it is a directory.
    pub is_directory: bool,
    /// Whether it is a link.
    pub is_symlink: bool,
    /// Whether it is a regular file.
    pub is_file: bool,
    /// Its size.
    pub bytes: u64,
}

/// An entry of a directory as the filesystem reports it.
#[derive(Debug, PartialEq, Eq)]
pub enum RawEntry {
    /// It could not be read.
    Unreadable(String),
    /// Its name is no text.
    NotText,
    /// It has a name.
    Entry {
        /// The name.
        name: String,
        /// What it is, or why that is not known.
        metadata: Result<EntryMetadata, String>,
    },
}

/// An entry in mathematical terms.
#[verifier::ext_equal]
pub struct EntryView {
    /// Path relative to the workspace.
    pub path: Seq<char>,
    /// Whether it is a directory.
    pub directory: bool,
    /// Whether it is a link.
    pub symlink: bool,
    /// Size of a regular file.
    pub bytes: u64,
}

impl View for WorkspaceEntry {
    type V = EntryView;

    open spec fn view(&self) -> EntryView {
        EntryView {
            path: self.path@,
            directory: self.directory,
            symlink: self.symlink,
            bytes: self.bytes,
        }
    }
}

/// The entries of a list.
pub open spec fn entry_views(list: Seq<WorkspaceEntry>) -> Seq<EntryView> {
    Seq::new(list.len(), |i: int| list[i]@)
}

/// The entries of a directory in the order in which they were read, or the
/// message for the first one that ends the listing.
pub open spec fn collected(
    raw: Seq<RawEntry>,
    normalized: Seq<char>,
    directory: Seq<char>,
) -> Result<Seq<EntryView>, Seq<char>>
    decreases raw.len(),
{
    if raw.len() == 0 {
        Ok(Seq::empty())
    } else {
        match collected(raw.drop_last(), normalized, directory) {
            Err(message) => Err(message),
            Ok(list) => if list.len() >= MAX_WORKSPACE_ENTRIES {
                Err(
                    "workspace directory "@ + normalized + " has more than "@ + decimal_of(256)
                        + " entries"@,
                )
            } else {
                match raw.last() {
                    RawEntry::Unreadable(reason) => Err(io_message(directory, reason@)),
                    RawEntry::NotText => Err(
                        "workspace directory "@ + normalized + " contains a non-UTF-8 entry"@,
                    ),
                    RawEntry::Entry { name, metadata } => match metadata {
                        Err(reason) => Err(io_message(joined(directory, name@), reason@)),
                        Ok(known) => Ok(
                            list.push(
                                EntryView {
                                    path: joined(normalized, name@),
                                    directory: known.is_directory,
                                    symlink: known.is_symlink,
                                    bytes: if known.is_file {
                                        known.bytes
                                    } else {
                                        0
                                    },
                                },
                            ),
                        ),
                    },
                }
            },
        }
    }
}

proof fn lemma_collected_stops(
    raw: Seq<RawEntry>,
    normalized: Seq<char>,
    directory: Seq<char>,
    n: int,
)
    requires
        0 <= n <= raw.len(),
        collected(raw.take(n), normalized, directory) is Err,
    ensures
        collected(raw, normalized, directory) == collected(raw.take(n), normalized, directory),
    decreases raw.len(),
{
    if n == raw.len() {
        assert(raw.take(n) =~= raw);
    } else {
        assert(raw.drop_last().take(n) =~= raw.take(n));
        lemma_collected_stops(raw.drop_last(), normalized, directory, n);
    }
}

/// An entry comes before another one: directories first, then by path.
pub open spec fn entry_before(a: EntryView, b: EntryView) -> bool {
    if a.directory == b.directory {
        text_before(a.path, b.path)
    } else {
        a.directory
    }
}

fn entry_comes_before(a: &WorkspaceEntry, b: &WorkspaceEntry) -> (result: bool)
    ensures
        result == entry_before(a@, b@),
{
    if a.directory == b.directory {
        comes_before(a.path.as_str(), b.path.as_str())
    } else {
        a.directory
    }
}

/// A list of entries with one more at its place: behind all that do not come
/// after it.
pub open spec fn with_entry(list: Seq<EntryView>, entry: EntryView) -> Seq<EntryView>
    decreases list.len(),
{
    if list.len() > 0 && entry_before(entry, list.last()) {
        with_entry(list.drop_last(), entry).push(list.last())
    } else {
        list.push(entry)
    }
}

/// Entries in their order.
pub open spec fn in_order(list: Seq<EntryView>) -> Seq<EntryView>
    decreases list.len(),
{
    if list.len() == 0 {
        Seq::empty()
    } else {
        with_entry(in_order(list.drop_last()), list.last())
    }
}

fn insert_entry(sorted: &mut Vec<WorkspaceEntry>, entry: WorkspaceEntry)
    ensures
        entry_views(final(sorted)@) == with_entry(entry_views(old(sorted)@), entry@),
{
    let ghost list = sorted@;
    let ghost before = entry_views(list);
    let mut k: usize = sorted.len();
    assert(before.take(before.len() as int) =~= before);
    assert(before.skip(before.len() as int) =~= Seq::empty());
    assert(with_entry(before, entry@) =~= with_entry(before, entry@) + Seq::empty());
    while k > 0 && entry_comes_before(&entry, &sorted[k - 1])
        invariant
            k <= sorted@.len(),
            sorted@ == list,
            before == entry_views(list),
            with_entry(before, entry@) == with_entry(before.take(k as int), entry@) + before.skip(
                k as int,
            ),
        decreases k,
    {
        proof {
            let head = before.take(k as int);
            assert(head.last() == list[k - 1]@);
            assert(head.drop_last() =~= before.take(k - 1));
            assert(with_entry(before.take(k - 1), entry@).push(head.last()) + before.skip(k as int)
                =~= with_entry(before.take(k - 1), entry@) + before.skip(k - 1));
        }
        k = k - 1;
    }
    proof {
        let head = before.take(k as int);
        if k > 0 {
            assert(head.last() == list[k - 1]@);
        }
        assert(with_entry(head, entry@) == head.push(entry@));
    }
    sorted.insert(k, entry);
    assert(entry_views(sorted@) =~= before.take(k as int).push(entry@) + before.skip(k as int));
}

/// Lists a directory that was read.
pub fn list_entries(normalized: &str, directory: &str, raw: &Vec<RawEntry>) -> (result: Result<
    Vec<WorkspaceEntry>,
    WorkError,
>)
    ensures
        match collected(raw@, normalized@, directory@) {
            Ok(entries) => result matches Ok(list) && entry_views(list@) == in_order(entries),
            Err(message) => result matches Err(error) && is_file_error(error, message),
        },
{
    let mut sorted: Vec<WorkspaceEntry> = Vec::new();
    let ghost mut entries: Seq<EntryView> = Seq::empty();
    let mut i: usize = 0;
    assert(raw@.take(0) =~= Seq::empty());
    assert(entry_views(sorted@) =~= Seq::empty());
    while i < raw.len()
        invariant
            i <= raw@.len(),
            collected(raw@.take(i as int), normalized@, directory@) == Ok::<
                Seq<EntryView>,
                Seq<char>,
            >(entries),
            entry_views(sorted@) == in_order(entries),
            sorted@.len() == entries.len(),
        decreases raw.len() - i,
    {
        proof {
            assert(raw@.take(i + 1).drop_last() =~= raw@.take(i as int));
            assert(raw@.take(i + 1).last() == raw@[i as int]);
            if collected(raw@.take(i + 1), normalized@, directory@) is Err {
                lemma_collected_stops(raw@, normalized@, directory@, i + 1);
            }
        }
        if sorted.len() >= MAX_WORKSPACE_ENTRIES {
            let mut message = join("workspace directory ", normalized);
            message.append(" has more than ");
            message.append(decimal(256).as_str());
            message.append(" entries");
            return Err(WorkError::WorkspaceFile(message));
        }
        match &raw[i] {
            RawEntry::Unreadable(reason) => {
                return Err(workspace_io(directory, reason.as_str()));
            },
            RawEntry::NotText => {
                return Err(
                    about_path("workspace directory ", normalized, " contains a non-UTF-8 entry"),
                );
            },
            RawEntry::Entry { name, metadata } => match metadata {
                Err(reason) => {
                    let path = join_path(directory, name.as_str());
                    return Err(workspace_io(path.as_str(), reason.as_str()));
                },
                Ok(known) => {
                    let entry = WorkspaceEntry {
                        path: join_path(normalized, name.as_str()),
                        directory: known.is_directory,
                        symlink: known.is_symlink,
                        bytes: if known.is_file {
                            known.bytes
                        } else {
                            0
                        },
                    };
                    proof {
                        assert(entries.push(entry@).drop_last() =~= entries);
                        entries = entries.push(entry@);
                        assert(collected(raw@.take(i + 1), normalized@, directory@) == Ok::<
                            Seq<EntryView>,
                            Seq<char>,
                        >(entries));
                    }
                    insert_entry(&mut sorted, entry);
                    proof {
                        lemma_in_order_len(entries);
                        assert(entry_views(sorted@).len() == sorted@.len());
                    }
                },
            },
        }
        i = i + 1;
    }
    assert(raw@.take(i as int) =~= raw@);
    Ok(sorted)
}

proof fn lemma_with_entry_len(list: Seq<EntryView>, entry: EntryView)
    ensures
        with_entry(list, entry).len() == list.len() + 1,
    decreases list.len(),
{
    if list.len() > 0 {
        lemma_with_entry_len(list.drop_last(), entry);
    }
}

proof fn lemma_in_order_len(list: Seq<EntryView>)
    ensures
        in_order(list).len() == list.len(),
    decreases list.len(),
{
    if list.len() > 0 {
        lemma_in_order_len(list.drop_last());
        lemma_with_entry_len(in_order(list.drop_last()), list.last());
    }
}

/// The order of entries can be followed along.
pub proof fn entry_order_is_transitive(a: EntryView, b: EntryView, c: EntryView)
    requires
        entry_before(a, b),
        entry_before(b, c),
    ensures
        entry_before(a, c),
{
    if a.directory == b.directory && b.directory == c.directory {
        text_before_is_transitive(a.path, b.path, c.path);
    }
}

/// Of two entries one comes first, or they are of one sort and have one path.
pub proof fn entry_order_is_total(a: EntryView, b: EntryView)
    ensures
        entry_before(a, b) || entry_before(b, a) || (a.directory == b.directory && a.path
            == b.path),
        !(entry_before(a, b) && entry_before(b, a)),
{
    text_before_is_total(a.path, b.path);
    if text_before(a.path, b.path) && text_before(b.path, a.path) {
        text_before_is_transitive(a.path, b.path, a.path);
        text_before_is_irreflexive(a.path);
    }
}

/// Nothing of a list stands behind what it comes before.
pub open spec fn is_ordered(list: Seq<EntryView>) -> bool {
    forall|i: int, j: int|
        0 <= i < j < list.len() ==> !entry_before(#[trigger] list[j], #[trigger] list[i])
}

proof fn lemma_with_entry(list: Seq<EntryView>, entry: EntryView)
    requires
        is_ordered(list),
    ensures
        is_ordered(with_entry(list, entry)),
        with_entry(list, entry).to_multiset() =~= list.to_multiset().insert(entry),
        forall|i: int|
            0 <= i < with_entry(list, entry).len() ==> (#[trigger] with_entry(list, entry)[i])
                == entry || list.contains(with_entry(list, entry)[i]),
    decreases list.len(),
{
    broadcast use vstd::seq_lib::group_to_multiset_ensures;

    let result = with_entry(list, entry);
    if list.len() > 0 && entry_before(entry, list.last()) {
        let rest = list.drop_last();
        assert forall|i: int, j: int| 0 <= i < j < rest.len() implies !entry_before(
            #[trigger] rest[j],
            #[trigger] rest[i],
        ) by {
            assert(!entry_before(list[j], list[i]));
        }
        lemma_with_entry(rest, entry);
        let inner = with_entry(rest, entry);
        assert(list =~= rest.push(list.last()));
        assert forall|i: int| 0 <= i < result.len() implies (#[trigger] result[i]) == entry
            || list.contains(result[i]) by {
            if i < inner.len() {
                assert(result[i] == inner[i]);
                if inner[i] != entry {
                    let k = choose|k: int| 0 <= k < rest.len() && rest[k] == inner[i];
                    assert(list[k] == inner[i]);
                }
            } else {
                assert(list[list.len() - 1] == result[i]);
            }
        }
        assert forall|i: int, j: int| 0 <= i < j < result.len() implies !entry_before(
            #[trigger] result[j],
            #[trigger] result[i],
        ) by {
            if j < inner.len() {
                assert(result[i] == inner[i] && result[j] == inner[j]);
            } else {
                assert(result[i] == inner[i]);
                if inner[i] == entry {
                    entry_order_is_total(entry, list.last());
                } else {
                    let k = choose|k: int| 0 <= k < rest.len() && rest[k] == inner[i];
                    assert(!entry_before(list[list.len() - 1], list[k]));
                }
            }
        }
    } else {
        assert forall|i: int, j: int| 0 <= i < j < result.len() implies !entry_before(
            #[trigger] result[j],
            #[trigger] result[i],
        ) by {
            if j < list.len() {
                assert(!entry_before(list[j], list[i]));
            } else if entry_before(entry, list[i]) {
                let last = list.last();
                if i < list.len() - 1 {
                    assert(!entry_before(list[list.len() - 1], list[i]));
                    entry_order_is_total(list[i], last);
                    if entry_before(list[i], last) {
                        entry_order_is_transitive(entry, list[i], last);
                    }
                }
            }
        }
        assert forall|i: int| 0 <= i < result.len() implies (#[trigger] result[i]) == entry
            || list.contains(result[i]) by {
            if i < list.len() {
                assert(list[i] == result[i]);
            }
        }
    }
}

/// A listing has its directories first and is in the order of the paths, and
/// nothing is added or lost.
pub proof fn listings_are_ordered(list: Seq<EntryView>)
    ensures
        is_ordered(in_order(list)),
        in_order(list).to_multiset() =~= list.to_multiset(),
    decreases list.len(),
{
    broadcast use vstd::seq_lib::group_to_multiset_ensures;

    if list.len() > 0 {
        listings_are_ordered(list.drop_last());
        lemma_with_entry(in_order(list.drop_last()), list.last());
        assert(list =~= list.drop_last().push(list.last()));
    } else {
        assert(list =~= Seq::empty());
    }
}

/// A listing has a bounded number of entries.
pub proof fn listings_are_bounded(
    raw: Seq<RawEntry>,
    normalized: Seq<char>,
    directory: Seq<char>,
)
    ensures
        collected(raw, normalized, directory) matches Ok(entries) ==> entries.len()
            <= MAX_WORKSPACE_ENTRIES,
    decreases raw.len(),
{
    if raw.len() > 0 {
        listings_are_bounded(raw.drop_last(), normalized, directory);
    }
}

/// The next operation of a listing.
#[derive(Clone, Debug, PartialEq, Eq)]
pub enum ListStep {
    /// Resolve the workspace.
    ResolveRoot {
        /// The workspace.
        workspace: String,
        /// The directory that was asked for.
        relative_directory: String,
    },
    /// Resolve the directory.
    ResolveDirectory {
        /// Actual path of the workspace.
        root: String,
        /// Plain form of the relative path.
        normalized: String,
        /// The path to resolve.
        path: String,
    },
    /// Read the entries, up to one more than a listing may have.
    ReadEntries {
        /// Plain form of the relative path.
        normalized: String,
        /// Actual path of the directory.
        path: String,
    },
}

/// What the filesystem replied to an operation of a listing.
#[derive(Debug, PartialEq, Eq)]
pub enum ListReply {
    /// The actual path.
    Resolved {
        /// The path.
        path: String,
        /// Whether it is a directory.
        is_directory: bool,
    },
    /// The entries.
    Entries(Vec<RawEntry>),
    /// The operation failed.
    Failed(String),
}

/// What follows a reply.
#[derive(Clone, Debug, PartialEq, Eq)]
pub enum ListDecision {
    /// The next operation.
    Continue(ListStep),
    /// The listing.
    Done(Vec<WorkspaceEntry>),
    /// No listing.
    Refused(WorkError),
}

/// A refusal with a message.
pub open spec fn list_refused(decision: ListDecision, message: Seq<char>) -> bool {
    decision matches ListDecision::Refused(error) && is_file_error(error, message)
}

/// The replies that suit an operation of a listing.
pub open spec fn list_suits(step: ListStep, reply: ListReply) -> bool {
    reply is Failed || match step {
        ListStep::ResolveRoot { .. } => reply is Resolved,
        ListStep::ResolveDirectory { .. } => reply is Resolved,
        ListStep::ReadEntries { .. } => reply is Entries,
    }
}

/// What follows a reply to an operation of a listing.
pub open spec fn list_follows(step: ListStep, reply: ListReply, decision: ListDecision) -> bool {
    match step {
        ListStep::ResolveRoot { workspace, relative_directory } => {
            let root = match reply {
                ListReply::Resolved { path, is_directory } => RootReply::Resolved {
                    path,
                    is_directory,
                },
                ListReply::Failed(reason) => RootReply::Failed(reason),
                _ => arbitrary(),
            };
            match decision {
                ListDecision::Continue(
                    ListStep::ResolveDirectory { root: actual, normalized, path },
                ) => resolves(
                    workspace@,
                    root,
                    relative_directory@,
                    true,
                    Ok((actual@, normalized@)),
                ) && path@ == joined(actual@, normalized@),
                ListDecision::Refused(error) => resolves(
                    workspace@,
                    root,
                    relative_directory@,
                    true,
                    Err(error),
                ),
                _ => false,
            }
        },
        ListStep::ResolveDirectory { root, normalized, path } => match reply {
            ListReply::Resolved { path: actual, is_directory } => if !lies_within(root@, actual@) {
                list_refused(decision, escape_message(path@))
            } else if !is_directory {
                list_refused(
                    decision,
                    "workspace path "@ + normalized@ + " is not a directory"@,
                )
            } else {
                decision matches ListDecision::Continue(
                    ListStep::ReadEntries { normalized: kept, path: next },
                ) && kept@ == normalized@ && next@ == actual@
            },
            ListReply::Failed(reason) => list_refused(decision, io_message(path@, reason@)),
            _ => true,
        },
        ListStep::ReadEntries { normalized, path } => match reply {
            ListReply::Entries(raw) => match collected(raw@, normalized@, path@) {
                Ok(entries) => decision matches ListDecision::Done(list) && entry_views(list@)
                    == in_order(entries),
                Err(message) => list_refused(decision, message),
            },
            ListReply::Failed(reason) => list_refused(decision, io_message(path@, reason@)),
            _ => true,
        },
    }
}

/// Decides what follows a reply to an operation of a listing.
pub fn continue_list(step: &ListStep, reply: ListReply) -> (decision: ListDecision)
    requires
        list_suits(*step, reply),
    ensures
        list_follows(*step, reply, decision),
{
    match step {
        ListStep::ResolveRoot { workspace, relative_directory } => {
            let root = match reply {
                ListReply::Resolved { path, is_directory } => RootReply::Resolved {
                    path,
                    is_directory,
                },
                ListReply::Failed(reason) => RootReply::Failed(reason),
                _ => RootReply::Failed("".to_owned()),
            };
            match resolve_relative_components(
                workspace.as_str(),
                &root,
                relative_directory.as_str(),
                true,
            ) {
                Ok((actual, normalized)) => {
                    let path = join_path(actual.as_str(), normalized.as_str());
                    ListDecision::Continue(
                        ListStep::ResolveDirectory { root: actual, normalized, path },
                    )
                },
                Err(error) => ListDecision::Refused(error),
            }
        },
        ListStep::ResolveDirectory { root, normalized, path } => match reply {
            ListReply::Resolved { path: actual, is_directory } => match ensure_within_root(
                root.as_str(),
                actual.as_str(),
                path.as_str(),
            ) {
                Ok(_) => {
                    if !is_directory {
                        return ListDecision::Refused(
                            about_path(
                                "workspace path ",
                                normalized.as_str(),
                                " is not a directory",
                            ),
                        );
                    }
                    ListDecision::Continue(
                        ListStep::ReadEntries { normalized: normalized.clone(), path: actual },
                    )
                },
                Err(error) => ListDecision::Refused(error),
            },
            ListReply::Failed(reason) => ListDecision::Refused(
                workspace_io(path.as_str(), reason.as_str()),
            ),
            _ => ListDecision::Refused(workspace_io(path.as_str(), "")),
        },
        ListStep::ReadEntries { normalized, path } => match reply {
            ListReply::Entries(raw) => match list_entries(
                normalized.as_str(),
                path.as_str(),
                &raw,
            ) {
                Ok(list) => ListDecision::Done(list),
                Err(error) => ListDecision::Refused(error),
            },
            ListReply::Failed(reason) => ListDecision::Refused(
                workspace_io(path.as_str(), reason.as_str()),
            ),
            _ => ListDecision::Refused(workspace_io(path.as_str(), "")),
        },
    }
}

/// Whether reading a file of an environment begins with a decision.
pub open spec fn begins_read(
    environments: Map<Seq<char>, EnvironmentSpec>,
    name: Seq<char>,
    path: Seq<char>,
    decision: ReadDecision,
) -> bool {
    if !environments.contains_key(name) {
        decision matches ReadDecision::Refused(WorkError::UnknownEnvironment(text)) && text@ == name
    } else if names_something(path) {
        decision matches ReadDecision::Continue(
            ReadStep::ResolveRoot { workspace, relative_path: asked },
        ) && workspace@ == environments[name].workspace@ && asked@ == path
    } else {
        read_refused(decision, "workspace file path cannot be empty"@)
    }
}

/// Whether replacing a file of an environment begins with a decision.
pub open spec fn begins_write(
    environments: Map<Seq<char>, EnvironmentSpec>,
    name: Seq<char>,
    path: Seq<char>,
    contents: Seq<char>,
    decision: WriteDecision,
) -> bool {
    if encode_utf8(contents).len() > MAX_WORKSPACE_TEXT_BYTES {
        write_refused(
            WriteStage::ResolveRoot,
            decision,
            "workspace file content exceeds the "@ + decimal_of(2_097_152) + "-byte Studio limit"@,
        )
    } else if !environments.contains_key(name) {
        decision matches WriteDecision::Refused {
            remove_temporary,
            error: WorkError::UnknownEnvironment(text),
        } && !remove_temporary && text@ == name
    } else if names_something(path) {
        decision matches WriteDecision::Continue(write) && write.stage == WriteStage::ResolveRoot
            && write.workspace@ == environments[name].workspace@ && write.relative_path@ == path
            && write.contents@ == contents
    } else {
        write_refused(
            WriteStage::ResolveRoot,
            decision,
            "workspace file path cannot be empty"@,
        )
    }
}

/// Whether listing a directory of an environment begins with a decision.
pub open spec fn begins_list(
    environments: Map<Seq<char>, EnvironmentSpec>,
    name: Seq<char>,
    path: Seq<char>,
    decision: ListDecision,
) -> bool {
    if !environments.contains_key(name) {
        decision matches ListDecision::Refused(WorkError::UnknownEnvironment(text)) && text@ == name
    } else {
        decision matches ListDecision::Continue(
            ListStep::ResolveRoot { workspace, relative_directory: asked },
        ) && workspace@ == environments[name].workspace@ && asked@ == path
    }
}

impl WorkState {
    /// Begins to read a text file of an environment.
    pub fn read_workspace_file(&self, environment_name: &str, relative_path: &str) -> (decision:
        ReadDecision)
        ensures
            begins_read(self@, environment_name@, relative_path@, decision),
    {
        match self.environment(environment_name) {
            Ok(environment) => begin_read(environment, relative_path),
            Err(error) => ReadDecision::Refused(error),
        }
    }

    /// Begins to replace a text file of an environment. The size of the text is
    /// checked before anything else.
    pub fn write_workspace_file(
        &self,
        environment_name: &str,
        relative_path: &str,
        contents: &str,
    ) -> (decision: WriteDecision)
        ensures
            begins_write(self@, environment_name@, relative_path@, contents@, decision),
    {
        match check_contents(contents) {
            Ok(_) => match self.environment(environment_name) {
                Ok(environment) => begin_write(environment, relative_path, contents),
                Err(error) => stopped(false, error),
            },
            Err(error) => stopped(false, error),
        }
    }

    /// Begins to list a directory of an environment. The empty path is the
    /// workspace itself.
    pub fn list_workspace(&self, environment_name: &str, relative_directory: &str) -> (decision:
        ListDecision)
        ensures
            begins_list(self@, environment_name@, relative_directory@, decision),
    {
        match self.environment(environment_name) {
            Ok(environment) => ListDecision::Continue(
                ListStep::ResolveRoot {
                    workspace: environment.workspace.clone(),
                    relative_directory: relative_directory.to_owned(),
                },
            ),
            Err(error) => ListDecision::Refused(error),
        }
    }
}

/// Files are read, written and listed in the workspace of the environment that was
/// named, under the path that was given, and for no other environment.
pub proof fn requests_go_to_the_environment_that_was_named(
    environments: Map<Seq<char>, EnvironmentSpec>,
    name: Seq<char>,
    path: Seq<char>,
    contents: Seq<char>,
    read: ReadDecision,
    write: WriteDecision,
    list: ListDecision,
)
    requires
        begins_read(environments, name, path, read),
        begins_write(environments, name, path, contents, write),
        begins_list(environments, name, path, list),
    ensures
        read matches ReadDecision::Continue(step) ==> environments.contains_key(name) && (
        step matches ReadStep::ResolveRoot { workspace, relative_path } && workspace@
            == environments[name].workspace@ && relative_path@ == path),
        write matches WriteDecision::Continue(step) ==> environments.contains_key(name)
            && step.workspace@ == environments[name].workspace@ && step.relative_path@ == path
            && step.contents@ == contents && step.stage == WriteStage::ResolveRoot,
        list matches ListDecision::Continue(step) ==> environments.contains_key(name) && (
        step matches ListStep::ResolveRoot { workspace, relative_directory } && workspace@
            == environments[name].workspace@ && relative_directory@ == path),
        environments.contains_key(name) && (exists|i: int|
            0 <= i < path.len() && !is_white_space(#[trigger] path[i])) ==> read is Continue,
        environments.contains_key(name) && encode_utf8(contents).len() <= 2 * 1024 * 1024 && (
        exists|i: int| 0 <= i < path.len() && !is_white_space(#[trigger] path[i]))
            ==> write is Continue,
        environments.contains_key(name) ==> list is Continue,
        encode_utf8(contents).len() > 2 * 1024 * 1024 ==> write is Refused,
        !(read is Done) && !(write is Done) && !(list is Done),
{
    trimmed_keeps_the_middle(path);
}

/// How long a text and a listing may be, and that the complaint names the limit.
pub proof fn limits_of_the_workspace(normalized: Seq<char>)
    ensures
        MAX_WORKSPACE_TEXT_BYTES == 2 * 1024 * 1024,
        MAX_WORKSPACE_ENTRIES == 256,
        limit_message(normalized) == "workspace file "@ + normalized + " exceeds the "@
            + decimal_of(MAX_WORKSPACE_TEXT_BYTES as nat) + "-byte Studio limit"@,
{
}

/// Paths that are absolute or hold a component other than a name are refused, and
/// so is the empty one where a file is meant; a name is accepted as it is.
pub proof fn file_paths_are_relative_names(path: Seq<char>, name: Seq<char>, allow_empty: bool)
    ensures
        path.len() > 0 && path[0] == '/' ==> relative_refusal(path, allow_empty) is Some,
        components(path).contains(".."@) ==> relative_refusal(path, allow_empty) is Some,
        relative_refusal(""@, false) is Some,
        relative_refusal(""@, true) is None,
        plain_form(""@) == ""@,
        is_name(name) && name.len() > 0 && !name.contains('/') ==> relative_refusal(
            name,
            allow_empty,
        ) is None && plain_form(name) == name,
{
    reveal_strlit("");
    reveal_strlit(".");
    reveal_strlit("..");
    reveal_strlit("/");
    let nothing: Seq<char> = Seq::empty();
    assert(""@ =~= nothing);
    assert("."@.len() == 1 && ".."@.len() == 2 && "/"@.len() == 1);
    assert("."@[0] == '.' && "/"@[0] == '/');
    assert(kept(Seq::empty()) =~= Seq::empty());
    a_text_without_separator_is_one_piece(nothing, '/');
    assert(seq![nothing].drop_last() =~= Seq::<Seq<char>>::empty());
    assert(kept(seq![nothing]) =~= Seq::empty());
    assert(components(nothing) =~= Seq::empty());
    if components(path).contains(".."@) {
        let k = choose|k: int| 0 <= k < components(path).len() && components(path)[k] == ".."@;
        assert(!is_name(components(path)[k]));
    }
    if is_name(name) && name.len() > 0 && !name.contains('/') {
        a_text_without_separator_is_one_piece(name, '/');
        assert(name[0] != '/') by {
            assert(name.contains(name[0]));
        }
        assert(seq![name].drop_last() =~= Seq::<Seq<char>>::empty());
        assert(kept(seq![name]) =~= seq![name]);
        assert(components(name) =~= seq![name]);
        joins_have_one_separator(nothing, name);
        assert(below(""@, Seq::empty()) == ""@);
        assert(plain_form(name) == joined(""@, name));
    }
}

/// The workspace lies within itself, what is in it lies below it, and what is in
/// another directory does not.
pub proof fn files_of_the_workspace_lie_below_it(
    root: Seq<char>,
    name: Seq<char>,
    a: Seq<char>,
    b: Seq<char>,
)
    ensures
        lies_within(root, root),
        !lies_below(root, root),
        is_absolute(root) && root.last() != '/' && is_name(name) && name.len() > 0
            && !name.contains('/') ==> lies_below(root, root.push('/') + name) && !lies_within(
            root.push('/') + name,
            root,
        ),
        is_name(a) && a.len() > 0 && !a.contains('/') && is_name(b) && b.len() > 0 && !b.contains(
            '/',
        ) && a != b ==> !lies_within(seq!['/'] + a, seq!['/'] + b),
{
    assert(components(root).take(components(root).len() as int) =~= components(root));
    if is_absolute(root) && root.last() != '/' && is_name(name) && name.len() > 0
        && !name.contains('/') {
        joining_a_name_adds_a_component(root, name);
        joins_have_one_separator(root, name);
        assert(name[0] != '/') by {
            assert(name.contains(name[0]));
        }
        let whole = components(root).push(name);
        assert(components(root) =~= whole.take(components(root).len() as int));
        assert(components(root).len() != whole.len());
    }
    if is_name(a) && a.len() > 0 && !a.contains('/') && is_name(b) && b.len() > 0 && !b.contains(
        '/',
    ) && a != b {
        components_of_a_child_of_the_root(a);
        components_of_a_child_of_the_root(b);
        assert(components(seq!['/'] + a)[1] == a);
        assert(components(seq!['/'] + b)[1] == b);
    }
}

/// A regular file that is small enough and holds text is read, step by step, at the
/// path that was found for it; anything else is refused.
pub proof fn text_files_are_read(
    normalized: String,
    path: String,
    is_file: bool,
    size: u64,
    bytes: Vec<u8>,
    inspected: ReadDecision,
    end: ReadDecision,
)
    requires
        read_follows(
            ReadStep::InspectFile { normalized, path },
            ReadReply::Inspected { is_file, bytes: size },
            inspected,
        ),
        read_follows(
            ReadStep::ReadContents { normalized, path },
            ReadReply::Contents(bytes),
            end,
        ),
    ensures
        inspected is Continue <==> is_file && size <= 2 * 1024 * 1024 && size <= usize::MAX,
        inspected matches ReadDecision::Continue(step) ==> (step matches ReadStep::ReadContents {
            normalized: kept,
            path: opened,
        } && kept@ == normalized@ && opened@ == path@),
        end is Done <==> bytes@.len() <= 2 * 1024 * 1024 && valid_utf8(bytes@),
        end matches ReadDecision::Done(file) ==> file.path@ == normalized@ && encode_utf8(
            file.contents@,
        ) == bytes@,
        !(end is Continue),
{
    if valid_utf8(bytes@) {
        decode_utf8_encode_utf8(bytes@);
    }
}

/// A new file can be used by its owner alone, and a file that is there keeps its
/// permissions. What is written lies next to the target, hidden, until it is moved.
pub proof fn files_keep_their_permissions(
    write: WorkspaceWrite,
    reply: WriteReply,
    suffix: Seq<char>,
    decision: WriteDecision,
)
    requires
        write_suits(write.stage, reply),
        write_follows(write, reply, suffix, decision),
    ensures
        write.stage == WriteStage::InspectTarget && reply is Missing ==> (decision matches
            WriteDecision::Continue(next) && next.mode == 6 * 8 * 8 && next.stage
            == WriteStage::CreateTemporary),
        write.stage == WriteStage::InspectTarget ==> (reply matches WriteReply::Inspected {
            is_symlink,
            is_file,
            mode,
        } ==> (!is_symlink && is_file && mode < 8 * 8 * 8 * 8 ==> (decision matches
            WriteDecision::Continue(next) && next.mode == mode && next.stage
            == WriteStage::ResolveTarget))),
        write.stage == WriteStage::ResolveParent ==> (decision matches WriteDecision::Continue(
            next,
        ) ==> (reply matches WriteReply::Resolved { path, .. } && next.temporary@ == joined(
            path@,
            "."@ + components(write.relative_path@).last() + ".devcore-tmp-"@ + suffix,
        ) && next.target@ == write.target@)),
{
    if let WriteReply::Inspected { mode, .. } = reply {
        if mode < 8 * 8 * 8 * 8 {
            assert(mode & 0xfff == mode) by (bit_vector)
                requires
                    mode < 4096,
            ;
        }
    }
}

/// The steps of a write follow each other, each after the success of the one
/// before, up to the move; a failure of any step is told and ends it.
pub proof fn writes_go_step_by_step(
    write: WorkspaceWrite,
    reply: WriteReply,
    suffix: Seq<char>,
    decision: WriteDecision,
)
    requires
        write_suits(write.stage, reply),
        write_follows(write, reply, suffix, decision),
    ensures
        decision matches WriteDecision::Continue(next) ==> match write.stage {
            WriteStage::ResolveRoot => next.stage == WriteStage::ResolveParent,
            WriteStage::ResolveParent => next.stage == WriteStage::InspectTarget,
            WriteStage::InspectTarget => next.stage == if reply is Missing {
                WriteStage::CreateTemporary
            } else {
                WriteStage::ResolveTarget
            },
            WriteStage::ResolveTarget => next.stage == WriteStage::CreateTemporary,
            WriteStage::CreateTemporary => next.stage == WriteStage::WriteContents,
            WriteStage::WriteContents => next.stage == WriteStage::Rename,
            WriteStage::Rename => false,
        },
        decision matches WriteDecision::Continue(next) ==> next.contents@ == write.contents@
            && next.relative_path@ == write.relative_path@,
        reply is Done ==> decision is Continue || decision is Done,
        write.stage == WriteStage::Rename && reply is Done ==> decision is Done,
        reply is Failed ==> decision is Refused,
        reply matches WriteReply::Failed(reason) ==> match write.stage {
            WriteStage::ResolveRoot => write_refused(
                write.stage,
                decision,
                io_message(write.workspace@, reason@),
            ),
            WriteStage::ResolveParent => write_refused(
                write.stage,
                decision,
                io_message(write.parent@, reason@),
            ),
            WriteStage::CreateTemporary | WriteStage::WriteContents => write_refused(
                write.stage,
                decision,
                io_message(write.temporary@, reason@),
            ),
            _ => write_refused(write.stage, decision, io_message(write.target@, reason@)),
        },
        write.stage == WriteStage::ResolveTarget ==> (reply matches WriteReply::Resolved {
            path,
            ..
        } ==> (decision is Continue <==> lies_below(write.root@, path@))),
{
}

/// Directories come first, and within them and within the rest the paths are in
/// order.
pub proof fn directories_come_first(a: EntryView, b: EntryView)
    ensures
        a.directory && !b.directory ==> entry_before(a, b) && !entry_before(b, a),
        a.directory == b.directory ==> (entry_before(a, b) <==> text_before(a.path, b.path)),
{
}

/// Every entry is listed with its path in the workspace and as what it is; only
/// regular files have a size. One that cannot be read ends the listing.
pub proof fn entries_are_listed_as_they_are(
    raw: Seq<RawEntry>,
    normalized: Seq<char>,
    directory: Seq<char>,
    name: String,
    known: EntryMetadata,
    reason: String,
)
    ensures
        collected(Seq::empty(), normalized, directory) == Ok::<Seq<EntryView>, Seq<char>>(
            Seq::empty(),
        ),
        collected(raw, normalized, directory) matches Ok(list) ==> {
            let more = raw.push(RawEntry::Entry { name, metadata: Ok(known) });
            let result = collected(more, normalized, directory);
            &&& list.len() < 256 ==> (result matches Ok(longer) && longer.len() == list.len() + 1
                && longer.drop_last() == list && longer.last().path == joined(normalized, name@)
                && longer.last().directory == known.is_directory && longer.last().symlink
                == known.is_symlink && (known.is_file ==> longer.last().bytes == known.bytes) && (
            !known.is_file ==> longer.last().bytes == 0))
            &&& list.len() >= 256 ==> result is Err
            &&& list.len() < 256 ==> collected(
                raw.push(RawEntry::Unreadable(reason)),
                normalized,
                directory,
            ) == Err::<Seq<EntryView>, Seq<char>>(io_message(directory, reason@))
            &&& collected(raw.push(RawEntry::NotText), normalized, directory) is Err
        },
        collected(raw, normalized, directory) is Err ==> collected(
            raw.push(RawEntry::NotText),
            normalized,
            directory,
        ) == collected(raw, normalized, directory),
{
    let more = raw.push(RawEntry::Entry { name, metadata: Ok(known) });
    assert(more.drop_last() =~= raw);
    assert(raw.push(RawEntry::Unreadable(reason)).drop_last() =~= raw);
    assert(raw.push(RawEntry::NotText).drop_last() =~= raw);
    if let Ok(list) = collected(raw, normalized, directory) {
        if list.len() < 256 {
            let longer = collected(more, normalized, directory)->Ok_0;
            assert(longer.drop_last() =~= list);
        }
    }
}

/// A directory is listed only where it lies in the workspace, at the path that was
/// found for it.
pub proof fn listings_stay_in_the_workspace(
    root: String,
    normalized: String,
    path: String,
    actual: String,
    is_directory: bool,
    decision: ListDecision,
)
    requires
        list_follows(
            ListStep::ResolveDirectory { root, normalized, path },
            ListReply::Resolved { path: actual, is_directory },
            decision,
        ),
    ensures
        decision is Continue <==> is_directory && lies_within(root@, actual@),
        decision matches ListDecision::Continue(step) ==> (step matches ListStep::ReadEntries {
            normalized: kept,
            path: opened,
        } && kept@ == normalized@ && opened@ == actual@),
        !(decision is Done),
{
}

/// The names of temporary files say which process wrote them and which of its
/// writes it was.
pub proof fn temporary_names_are_hidden(name: Seq<char>, process: nat, counter: nat)
    ensures
        temporary_name(name, temporary_suffix(process, counter)) == "."@ + name + ".devcore-tmp-"@
            + (decimal_of(process) + "-"@ + decimal_of(counter)),
{
}

/// A file and a directory are looked for where their plain path leads from the
/// actual place of the workspace, and only where that place is a directory.
pub proof fn paths_start_at_the_actual_workspace(
    workspace: String,
    relative: String,
    actual: String,
    is_directory: bool,
    read: ReadDecision,
    list: ListDecision,
)
    requires
        read_follows(
            ReadStep::ResolveRoot { workspace, relative_path: relative },
            ReadReply::Resolved { path: actual, is_directory },
            read,
        ),
        list_follows(
            ListStep::ResolveRoot { workspace, relative_directory: relative },
            ListReply::Resolved { path: actual, is_directory },
            list,
        ),
    ensures
        read is Continue <==> is_directory && relative_refusal(relative@, false) is None,
        list is Continue <==> is_directory && relative_refusal(relative@, true) is None,
        !(read is Done) && !(list is Done),
        read matches ReadDecision::Continue(step) ==> (step matches ReadStep::ResolveFile {
            root,
            normalized,
            path,
        } && root@ == actual@ && normalized@ == plain_form(relative@) && path@ == joined(
            actual@,
            plain_form(relative@),
        )),
        list matches ListDecision::Continue(step) ==> (step matches ListStep::ResolveDirectory {
            root,
            normalized,
            path,
        } && root@ == actual@ && normalized@ == plain_form(relative@) && path@ == joined(
            actual@,
            plain_form(relative@),
        )),
{
}

} // verus!
