//! The cache of build results: where a result lies, and how it is published
//! without ever overwriting one.
//!
//! The filesystem work is done elsewhere. What is decided here is which
//! operation comes next and what its outcome means.

use crate::build_plan::BuildCacheKey;
use crate::files::FileOutcome;
use crate::path::{join_path, joined, joining_keeps_paths_apart};
use crate::text::{
    decimal, decimal_of, decimals_are_digits, decimals_say_their_number, hex_has_two_digits_per_byte,
    hex_of, is_digit, is_hex_digit, join, texts_divide_at_the_first_separator,
};
use vstd::prelude::*;

verus! {

/// A directory that holds build results by their address.
#[derive(Clone, Debug)]
pub struct BuildCacheStore {
    root: String,
}

impl View for BuildCacheStore {
    type V = Seq<char>;

    closed spec fn view(&self) -> Seq<char> {
        self.root@
    }
}

/// Why a result cannot be found or published.
#[derive(Clone, Debug, PartialEq, Eq)]
pub enum CacheStoreError {
    /// The directory has no name.
    EmptyRoot,
    /// The source is no regular file.
    InvalidSource(String),
    /// Something else than a regular file lies at the address.
    InvalidDestination(String),
    /// The filesystem refused an operation.
    Io {
        /// The operation.
        operation: &'static str,
        /// The path that it was about.
        path: String,
        /// What the filesystem reported.
        source: String,
    },
}

impl CacheStoreError {
    /// The message for people.
    pub open spec fn text(&self) -> Seq<char> {
        match self {
            CacheStoreError::EmptyRoot => "build cache root is empty"@,
            CacheStoreError::InvalidSource(path) => "build cache source is not a regular file: "@
                + path@,
            CacheStoreError::InvalidDestination(path) =>
                "build cache destination is not a regular file: "@ + path@,
            CacheStoreError::Io { operation, path, source } => operation@ + " "@ + path@ + ": "@
                + source@,
        }
    }

    /// Returns the message for people.
    pub fn message(&self) -> (message: String)
        ensures
            message@ == self.text(),
    {
        match self {
            CacheStoreError::EmptyRoot => "build cache root is empty".to_owned(),
            CacheStoreError::InvalidSource(path) => join(
                "build cache source is not a regular file: ",
                path.as_str(),
            ),
            CacheStoreError::InvalidDestination(path) => join(
                "build cache destination is not a regular file: ",
                path.as_str(),
            ),
            CacheStoreError::Io { operation, path, source } => {
                let mut message = join(operation, " ");
                message.append(path.as_str());
                message.append(": ");
                message.append(source.as_str());
                message
            },
        }
    }
}

/// The operations of a publication, in their order.
#[derive(Clone, Copy, Debug, PartialEq, Eq, Structural)]
pub enum PublishStage {
    /// Look at the source.
    InspectSource,
    /// Look at the address.
    InspectDestination,
    /// Create the temporary file, which must not exist.
    CreateTemporary,
    /// Open the source.
    OpenSource,
    /// Copy the source into the temporary file.
    CopyContents,
    /// Bring the temporary file to disk.
    SyncTemporary,
    /// Move the temporary file to the address.
    Rename,
}

/// What follows an operation of a publication.
#[derive(Debug, PartialEq, Eq)]
pub enum PublishDecision {
    /// The next operation.
    Continue(PublishStage),
    /// The end, with the temporary file removed where that is asked for.
    Finish {
        /// Whether the temporary file has to be removed.
        remove_temporary: bool,
        /// The address of the result, or why there is none.
        result: Result<String, CacheStoreError>,
    },
}

/// What follows an operation, in mathematical terms. An error is an operation,
/// a path and a reason.
pub enum Decision {
    /// The next operation.
    Continue(PublishStage),
    /// The result lies at the path.
    Published {
        /// Whether the temporary file has to be removed.
        remove_temporary: bool,
        /// The path.
        path: Seq<char>,
    },
    /// The directory has no name.
    RootRefused {
        /// Whether the temporary file has to be removed.
        remove_temporary: bool,
    },
    /// The source is no regular file.
    SourceRefused {
        /// Whether the temporary file has to be removed.
        remove_temporary: bool,
        /// The path.
        path: Seq<char>,
    },
    /// Something else lies at the path.
    DestinationRefused {
        /// Whether the temporary file has to be removed.
        remove_temporary: bool,
        /// The path.
        path: Seq<char>,
    },
    /// The filesystem refused an operation.
    Refused {
        /// Whether the temporary file has to be removed.
        remove_temporary: bool,
        /// The operation.
        operation: Seq<char>,
        /// The path.
        path: Seq<char>,
        /// The reason.
        reason: Seq<char>,
    },
}

impl View for PublishDecision {
    type V = Decision;

    open spec fn view(&self) -> Decision {
        match self {
            PublishDecision::Continue(stage) => Decision::Continue(*stage),
            PublishDecision::Finish { remove_temporary, result } => match result {
                Ok(path) => Decision::Published {
                    remove_temporary: *remove_temporary,
                    path: path@,
                },
                Err(CacheStoreError::EmptyRoot) => Decision::RootRefused {
                    remove_temporary: *remove_temporary,
                },
                Err(CacheStoreError::InvalidSource(path)) => Decision::SourceRefused {
                    remove_temporary: *remove_temporary,
                    path: path@,
                },
                Err(CacheStoreError::InvalidDestination(path)) => Decision::DestinationRefused {
                    remove_temporary: *remove_temporary,
                    path: path@,
                },
                Err(CacheStoreError::Io { operation, path, source }) => Decision::Refused {
                    remove_temporary: *remove_temporary,
                    operation: operation@,
                    path: path@,
                    reason: source@,
                },
            },
        }
    }
}

/// What follows an operation of a publication.
pub open spec fn publish_step(
    stage: PublishStage,
    outcome: FileOutcome,
    source: Seq<char>,
    temporary: Seq<char>,
    destination: Seq<char>,
) -> Decision {
    match (stage, outcome) {
        (PublishStage::InspectSource, FileOutcome::Done) => Decision::Continue(
            PublishStage::InspectDestination,
        ),
        (PublishStage::InspectSource, FileOutcome::OtherEntry) => Decision::SourceRefused {
            remove_temporary: false,
            path: source,
        },
        (PublishStage::InspectSource, _) => Decision::Refused {
            remove_temporary: false,
            operation: "inspect artifact source"@,
            path: source,
            reason: outcome.reason(),
        },
        (PublishStage::InspectDestination, FileOutcome::Done) => Decision::Published {
            remove_temporary: false,
            path: destination,
        },
        (PublishStage::InspectDestination, FileOutcome::OtherEntry) => Decision::DestinationRefused {
            remove_temporary: false,
            path: destination,
        },
        (PublishStage::InspectDestination, FileOutcome::NotFound(_)) => Decision::Continue(
            PublishStage::CreateTemporary,
        ),
        (PublishStage::InspectDestination, _) => Decision::Refused {
            remove_temporary: false,
            operation: "inspect cache destination"@,
            path: destination,
            reason: outcome.reason(),
        },
        (PublishStage::CreateTemporary, FileOutcome::Done) => Decision::Continue(
            PublishStage::OpenSource,
        ),
        (PublishStage::CreateTemporary, _) => Decision::Refused {
            remove_temporary: false,
            operation: "create temporary cache artifact"@,
            path: temporary,
            reason: outcome.reason(),
        },
        (PublishStage::OpenSource, FileOutcome::Done) => Decision::Continue(
            PublishStage::CopyContents,
        ),
        (PublishStage::OpenSource, _) => Decision::Refused {
            remove_temporary: true,
            operation: "open artifact source"@,
            path: source,
            reason: outcome.reason(),
        },
        (PublishStage::CopyContents, FileOutcome::Done) => Decision::Continue(
            PublishStage::SyncTemporary,
        ),
        (PublishStage::CopyContents, _) => Decision::Refused {
            remove_temporary: true,
            operation: "copy artifact into cache"@,
            path: source,
            reason: outcome.reason(),
        },
        (PublishStage::SyncTemporary, FileOutcome::Done) => Decision::Continue(
            PublishStage::Rename,
        ),
        (PublishStage::SyncTemporary, _) => Decision::Refused {
            remove_temporary: true,
            operation: "sync temporary cache artifact"@,
            path: temporary,
            reason: outcome.reason(),
        },
        (PublishStage::Rename, FileOutcome::Done) => Decision::Published {
            remove_temporary: false,
            path: destination,
        },
        (PublishStage::Rename, FileOutcome::AlreadyExists(_)) => Decision::Published {
            remove_temporary: true,
            path: destination,
        },
        (PublishStage::Rename, _) => Decision::Refused {
            remove_temporary: true,
            operation: "publish cache artifact"@,
            path: destination,
            reason: outcome.reason(),
        },
    }
}

fn refused(
    remove_temporary: bool,
    operation: &'static str,
    path: &str,
    outcome: &FileOutcome,
) -> (decision: PublishDecision)
    ensures
        decision@ == (Decision::Refused {
            remove_temporary,
            operation: operation@,
            path: path@,
            reason: outcome.reason(),
        }),
{
    PublishDecision::Finish {
        remove_temporary,
        result: Err(
            CacheStoreError::Io { operation, path: path.to_owned(), source: outcome.failure() },
        ),
    }
}

/// The name of the temporary file of a publication.
pub open spec fn temporary_name(key: Seq<char>, process: nat, counter: nat) -> Seq<char> {
    "."@ + key + "."@ + decimal_of(process) + "."@ + decimal_of(counter) + ".tmp"@
}

impl BuildCacheStore {
    /// Names the directory of a cache. Creating it is left to the caller.
    pub fn open(root: &str) -> (result: Result<BuildCacheStore, CacheStoreError>)
        ensures
            match result {
                Ok(store) => root@.len() > 0 && store@ == root@,
                Err(error) => root@.len() == 0 && error == CacheStoreError::EmptyRoot,
            },
    {
        if root.is_empty() {
            return Err(CacheStoreError::EmptyRoot);
        }
        Ok(BuildCacheStore { root: root.to_owned() })
    }

    /// Returns the path at which a result lies.
    pub fn artifact_path(&self, key: &BuildCacheKey) -> (path: String)
        ensures
            path@ == joined(self@, key@),
    {
        join_path(self.root.as_str(), key.as_str())
    }

    /// Returns the path of the temporary file of a publication.
    pub fn temporary_path(&self, key: &BuildCacheKey, process: u32, counter: u64) -> (path: String)
        ensures
            path@ == joined(self@, temporary_name(key@, process as nat, counter as nat)),
    {
        let mut name = join(".", key.as_str());
        name.append(".");
        name.append(decimal(process as u64).as_str());
        name.append(".");
        name.append(decimal(counter).as_str());
        name.append(".tmp");
        join_path(self.root.as_str(), name.as_str())
    }

    /// Whether a complete result is there, from what an inspection of its
    /// address reported.
    pub fn contains(&self, key: &BuildCacheKey, inspected: &FileOutcome) -> (result: Result<
        bool,
        CacheStoreError,
    >)
        ensures
            match result {
                Ok(present) => (present <==> inspected is Done) && (inspected is Done
                    || inspected is OtherEntry || inspected is NotFound),
                Err(CacheStoreError::Io { operation, path, source }) => (inspected is AlreadyExists
                    || inspected is Failed) && operation@ == "inspect cache artifact"@ && path@
                    == joined(self@, key@) && source@ == inspected.reason(),
                Err(_) => false,
            },
    {
        match inspected {
            FileOutcome::Done => Ok(true),
            FileOutcome::OtherEntry => Ok(false),
            FileOutcome::NotFound(_) => Ok(false),
            _ => Err(
                CacheStoreError::Io {
                    operation: "inspect cache artifact",
                    path: self.artifact_path(key),
                    source: inspected.failure(),
                },
            ),
        }
    }

    /// Decides what follows an operation of a publication.
    pub fn publish_file(
        &self,
        key: &BuildCacheKey,
        source: &str,
        temporary: &str,
        stage: PublishStage,
        outcome: &FileOutcome,
    ) -> (decision: PublishDecision)
        ensures
            decision@ == publish_step(stage, *outcome, source@, temporary@, joined(self@, key@)),
    {
        let destination = self.artifact_path(key);
        match stage {
            PublishStage::InspectSource => match outcome {
                FileOutcome::Done => PublishDecision::Continue(PublishStage::InspectDestination),
                FileOutcome::OtherEntry => PublishDecision::Finish {
                    remove_temporary: false,
                    result: Err(CacheStoreError::InvalidSource(source.to_owned())),
                },
                _ => refused(false, "inspect artifact source", source, outcome),
            },
            PublishStage::InspectDestination => match outcome {
                FileOutcome::Done => PublishDecision::Finish {
                    remove_temporary: false,
                    result: Ok(destination),
                },
                FileOutcome::OtherEntry => PublishDecision::Finish {
                    remove_temporary: false,
                    result: Err(CacheStoreError::InvalidDestination(destination)),
                },
                FileOutcome::NotFound(_) => PublishDecision::Continue(PublishStage::CreateTemporary),
                _ => refused(false, "inspect cache destination", destination.as_str(), outcome),
            },
            PublishStage::CreateTemporary => match outcome {
                FileOutcome::Done => PublishDecision::Continue(PublishStage::OpenSource),
                _ => refused(false, "create temporary cache artifact", temporary, outcome),
            },
            PublishStage::OpenSource => match outcome {
                FileOutcome::Done => PublishDecision::Continue(PublishStage::CopyContents),
                _ => refused(true, "open artifact source", source, outcome),
            },
            PublishStage::CopyContents => match outcome {
                FileOutcome::Done => PublishDecision::Continue(PublishStage::SyncTemporary),
                _ => refused(true, "copy artifact into cache", source, outcome),
            },
            PublishStage::SyncTemporary => match outcome {
                FileOutcome::Done => PublishDecision::Continue(PublishStage::Rename),
                _ => refused(true, "sync temporary cache artifact", temporary, outcome),
            },
            PublishStage::Rename => match outcome {
                FileOutcome::Done => PublishDecision::Finish {
                    remove_temporary: false,
                    result: Ok(destination),
                },
                FileOutcome::AlreadyExists(_) => PublishDecision::Finish {
                    remove_temporary: true,
                    result: Ok(destination),
                },
                _ => refused(true, "publish cache artifact", destination.as_str(), outcome),
            },
        }
    }
}

/// The stage that a publication has reached after a list of outcomes, or how it
/// ended. Outcomes behind the end do not count.
pub open spec fn publish_run(
    outcomes: Seq<FileOutcome>,
    source: Seq<char>,
    temporary: Seq<char>,
    destination: Seq<char>,
) -> Decision
    decreases outcomes.len(),
{
    if outcomes.len() == 0 {
        Decision::Continue(PublishStage::InspectSource)
    } else {
        match publish_run(outcomes.drop_last(), source, temporary, destination) {
            Decision::Continue(stage) => publish_step(
                stage,
                outcomes.last(),
                source,
                temporary,
                destination,
            ),
            ended => ended,
        }
    }
}

/// Whether the temporary file is removed at the end of a publication.
pub open spec fn removes_temporary(end: Decision) -> bool {
    match end {
        Decision::Continue(_) => false,
        Decision::Published { remove_temporary, .. } => remove_temporary,
        Decision::RootRefused { remove_temporary } => remove_temporary,
        Decision::SourceRefused { remove_temporary, .. } => remove_temporary,
        Decision::DestinationRefused { remove_temporary, .. } => remove_temporary,
        Decision::Refused { remove_temporary, .. } => remove_temporary,
    }
}

/// Whether the temporary file exists when a stage is reached.
pub open spec fn temporary_exists(stage: PublishStage) -> bool {
    stage == PublishStage::OpenSource || stage == PublishStage::CopyContents || stage
        == PublishStage::SyncTemporary || stage == PublishStage::Rename
}

/// The number of operations before a stage.
pub open spec fn stage_index(stage: PublishStage) -> nat {
    match stage {
        PublishStage::InspectSource => 0,
        PublishStage::InspectDestination => 1,
        PublishStage::CreateTemporary => 2,
        PublishStage::OpenSource => 3,
        PublishStage::CopyContents => 4,
        PublishStage::SyncTemporary => 5,
        PublishStage::Rename => 6,
    }
}

/// A publication that goes on has gone through the operations in their order,
/// and each of them gave what the next one needs: the source was a regular
/// file, nothing lay at the address, and every later operation succeeded.
pub proof fn publication_goes_in_order(
    outcomes: Seq<FileOutcome>,
    source: Seq<char>,
    temporary: Seq<char>,
    destination: Seq<char>,
)
    ensures
        publish_run(outcomes, source, temporary, destination) matches Decision::Continue(stage)
            ==> stage_index(stage) == outcomes.len() && forall|i: int|
            0 <= i < outcomes.len() ==> if i == 1 {
                #[trigger] outcomes[i] is NotFound
            } else {
                outcomes[i] is Done
            },
    decreases outcomes.len(),
{
    if outcomes.len() > 0 {
        let rest = outcomes.drop_last();
        publication_goes_in_order(rest, source, temporary, destination);
        if publish_run(outcomes, source, temporary, destination) is Continue {
            assert(publish_run(rest, source, temporary, destination) is Continue);
            assert forall|i: int| 0 <= i < outcomes.len() implies if i == 1 {
                #[trigger] outcomes[i] is NotFound
            } else {
                outcomes[i] is Done
            } by {
                if i < rest.len() {
                    assert(rest[i] == outcomes[i]);
                }
            }
        }
    }
}

/// A publication that succeeds gives the address, and either a regular file lay
/// there already or all operations up to the move succeeded. Whenever a
/// publication ends after the temporary file was created, the file is gone: it
/// was moved to the address or is removed.
pub proof fn publication_never_leaves_a_partial_result(
    outcomes: Seq<FileOutcome>,
    source: Seq<char>,
    temporary: Seq<char>,
    destination: Seq<char>,
)
    requires
        outcomes.len() > 0,
        publish_run(outcomes.drop_last(), source, temporary, destination) is Continue,
    ensures
        ({
            let reached = publish_run(outcomes.drop_last(), source, temporary, destination);
            let end = publish_run(outcomes, source, temporary, destination);
            let stage = reached->Continue_0;
            &&& end matches Decision::Published { remove_temporary, path } ==> {
                &&& path == destination
                &&& (stage == PublishStage::InspectDestination && outcomes.last() is Done
                    && !remove_temporary) || (stage == PublishStage::Rename && outcomes.len() == 7
                    && outcomes[1] is NotFound && outcomes[4] is Done && outcomes[5] is Done && (
                outcomes.last() is Done || (outcomes.last() is AlreadyExists && remove_temporary)))
            }
            &&& !(end is Continue || end is Published) ==> removes_temporary(end)
                == temporary_exists(stage)
        }),
{
    let rest = outcomes.drop_last();
    publication_goes_in_order(rest, source, temporary, destination);
    let stage = publish_run(rest, source, temporary, destination)->Continue_0;
    if stage == PublishStage::Rename {
        assert(rest[1] == outcomes[1] && rest[4] == outcomes[4] && rest[5] == outcomes[5]);
    }
}

/// What an operation of a publication does to the regular files, each with its
/// bytes, and what its outcome tells of them. A copy that fails may leave
/// anything in the temporary file.
pub open spec fn publish_does(
    before: Map<Seq<char>, Seq<u8>>,
    stage: PublishStage,
    outcome: FileOutcome,
    source: Seq<char>,
    temporary: Seq<char>,
    destination: Seq<char>,
    after: Map<Seq<char>, Seq<u8>>,
) -> bool {
    match (stage, outcome) {
        (PublishStage::InspectSource, _) => after == before && outcome.tells_of(before, source),
        (PublishStage::InspectDestination, _) => after == before && outcome.tells_of(
            before,
            destination,
        ),
        (PublishStage::CreateTemporary, FileOutcome::Done) => !before.contains_key(temporary)
            && after == before.insert(temporary, Seq::empty()),
        (PublishStage::CopyContents, FileOutcome::Done) => after == before.insert(
            temporary,
            before[source],
        ),
        (PublishStage::CopyContents, _) => after == before.insert(temporary, after[temporary]),
        (PublishStage::Rename, FileOutcome::Done) => after == before.insert(
            destination,
            before[temporary],
        ).remove(temporary),
        (PublishStage::Rename, FileOutcome::AlreadyExists(_)) => after == before
            && before.contains_key(destination),
        _ => after == before,
    }
}

/// The stage at which an operation of a publication is carried out.
pub open spec fn stage_at(
    outcomes: Seq<FileOutcome>,
    i: int,
    source: Seq<char>,
    temporary: Seq<char>,
    destination: Seq<char>,
) -> Decision {
    publish_run(outcomes.take(i), source, temporary, destination)
}

/// The files in the course of a publication: each operation that is carried out
/// does its part, and nothing else changes them.
pub open spec fn is_publication(
    outcomes: Seq<FileOutcome>,
    source: Seq<char>,
    temporary: Seq<char>,
    destination: Seq<char>,
    files: Seq<Map<Seq<char>, Seq<u8>>>,
) -> bool {
    &&& files.len() == outcomes.len() + 1
    &&& forall|i: int|
        0 <= i < outcomes.len() ==> {
            &&& (#[trigger] stage_at(outcomes, i, source, temporary, destination)) is Continue
            &&& publish_does(
                files[i],
                stage_at(outcomes, i, source, temporary, destination)->Continue_0,
                outcomes[i],
                source,
                temporary,
                destination,
                files[i + 1],
            )
        }
}

/// The files when a publication has ended.
pub open spec fn files_at_end(
    end: Decision,
    temporary: Seq<char>,
    files: Seq<Map<Seq<char>, Seq<u8>>>,
) -> Map<Seq<char>, Seq<u8>> {
    if removes_temporary(end) {
        files.last().remove(temporary)
    } else {
        files.last()
    }
}

/// The files before each operation.
proof fn lemma_files_of_a_publication(
    outcomes: Seq<FileOutcome>,
    source: Seq<char>,
    temporary: Seq<char>,
    destination: Seq<char>,
    files: Seq<Map<Seq<char>, Seq<u8>>>,
    i: int,
)
    requires
        is_publication(outcomes, source, temporary, destination, files),
        0 <= i < outcomes.len(),
    ensures
        stage_at(outcomes, i, source, temporary, destination) matches Decision::Continue(stage)
            && stage_index(stage) == i,
        i < 3 ==> files[i] == files[0],
        i > 0 ==> files[0].contains_key(source),
        i > 1 ==> !files[0].contains_key(destination),
        i > 2 ==> !files[0].contains_key(temporary),
        3 <= i < 5 ==> files[i] == files[0].insert(temporary, Seq::empty()),
        i >= 5 ==> files[i] == files[0].insert(temporary, files[0][source]),
    decreases i,
{
    publication_goes_in_order(outcomes.take(i), source, temporary, destination);
    assert(stage_at(outcomes, i, source, temporary, destination) is Continue);
    if i > 0 {
        lemma_files_of_a_publication(outcomes, source, temporary, destination, files, i - 1);
        assert(outcomes.take(i).drop_last() =~= outcomes.take(i - 1));
        assert(outcomes.take(i).last() == outcomes[i - 1]);
    }
}

/// After a publication the address holds a result, and no other file has
/// changed: either a file lay at the address and nothing has changed at all, or
/// nothing lay there and the address holds the bytes of the source. A
/// publication that fails changes no file.
pub proof fn publication_copies_the_source(
    outcomes: Seq<FileOutcome>,
    source: Seq<char>,
    temporary: Seq<char>,
    destination: Seq<char>,
    files: Seq<Map<Seq<char>, Seq<u8>>>,
)
    requires
        temporary != destination,
        is_publication(outcomes, source, temporary, destination, files),
        !(publish_run(outcomes, source, temporary, destination) is Continue),
    ensures
        ({
            let end = publish_run(outcomes, source, temporary, destination);
            let left = files_at_end(end, temporary, files);
            &&& end is Published ==> left.contains_key(destination)
            &&& end is Published && outcomes.last() is Done && outcomes.len() == 7
                ==> !files[0].contains_key(destination) && left == files[0].insert(
                destination,
                files[0][source],
            )
            &&& !(end is Published && outcomes.last() is Done && outcomes.len() == 7) ==> left
                == files[0]
        }),
{
    let last = outcomes.len() - 1;
    lemma_files_of_a_publication(outcomes, source, temporary, destination, files, last);
    let end = publish_run(outcomes, source, temporary, destination);
    let left = files_at_end(end, temporary, files);
    assert(outcomes.drop_last() =~= outcomes.take(last));
    if end is Published && outcomes.last() is Done && outcomes.len() == 7 {
        assert(left =~= files[0].insert(destination, files[0][source]));
    } else {
        assert(left =~= files[0]);
    }
}

/// Publishing twice is publishing once: where one publication succeeded, another
/// one of the same source at the same address, whose inspections find out what
/// lies there, gives the same address and changes no file.
pub proof fn publication_is_idempotent(
    outcomes: Seq<FileOutcome>,
    temporary: Seq<char>,
    files: Seq<Map<Seq<char>, Seq<u8>>>,
    again: Seq<FileOutcome>,
    temporary_again: Seq<char>,
    files_again: Seq<Map<Seq<char>, Seq<u8>>>,
    source: Seq<char>,
    destination: Seq<char>,
)
    requires
        temporary != destination,
        is_publication(outcomes, source, temporary, destination, files),
        publish_run(outcomes, source, temporary, destination) is Published,
        is_publication(again, source, temporary_again, destination, files_again),
        !(publish_run(again, source, temporary_again, destination) is Continue),
        files_again[0] == files_at_end(
            publish_run(outcomes, source, temporary, destination),
            temporary,
            files,
        ),
        forall|i: int| 0 <= i < again.len() && i < 2 ==> (#[trigger] again[i]).answers(),
    ensures
        publish_run(again, source, temporary_again, destination) == (Decision::Published {
            remove_temporary: false,
            path: destination,
        }),
        publish_run(outcomes, source, temporary, destination)->Published_path == destination,
        files_at_end(
            publish_run(again, source, temporary_again, destination),
            temporary_again,
            files_again,
        ) == files_again[0],
{
    let last = outcomes.len() - 1;
    lemma_files_of_a_publication(outcomes, source, temporary, destination, files, last);
    publication_copies_the_source(outcomes, source, temporary, destination, files);
    assert(outcomes.drop_last() =~= outcomes.take(last));
    assert(files_again[0].contains_key(source));
    assert(files_again[0].contains_key(destination));
    reveal_with_fuel(publish_run, 3);
    assert(again.take(0) =~= Seq::empty());
    assert(stage_at(again, 0, source, temporary_again, destination) == Decision::Continue(
        PublishStage::InspectSource,
    ));
    assert(again[0].answers());
    if again.len() == 1 {
        assert(again.drop_last() =~= again.take(0));
    } else {
        assert(again.take(1).drop_last() =~= again.take(0));
        assert(stage_at(again, 1, source, temporary_again, destination) == Decision::Continue(
            PublishStage::InspectDestination,
        ));
        assert(again[1].answers());
        if again.len() == 2 {
            assert(again.drop_last() =~= again.take(1));
        } else {
            assert(again.take(2).drop_last() =~= again.take(1));
            assert(stage_at(again, 2, source, temporary_again, destination) is Published);
        }
    }
}

/// The temporary file of a publication never lies at an address: neither at the
/// one that it is for nor at that of another digest.
pub proof fn temporary_files_lie_at_no_address(
    root: Seq<char>,
    key: Seq<char>,
    process: nat,
    counter: nat,
    digest: Seq<u8>,
)
    ensures
        joined(root, temporary_name(key, process, counter)) != joined(root, hex_of(digest)),
{
    reveal_strlit(".");
    hex_has_two_digits_per_byte(digest);
    let name = temporary_name(key, process, counter);
    let address = hex_of(digest);
    assert(name[0] == '.');
    if address.len() > 0 {
        assert(is_hex_digit(address[0]));
    }
    joining_keeps_paths_apart(root, name, address);
}

/// Two publications of a result that are under way at once, in one process or in
/// two, have temporary files of their own, and all of them are hidden.
pub proof fn temporary_files_are_apart(key: Seq<char>, p: nat, c: nat, q: nat, d: nat)
    ensures
        temporary_name(key, p, c) == temporary_name(key, q, d) ==> p == q && c == d,
        temporary_name(key, p, c)[0] == '.',
        ".tmp"@.is_suffix_of(temporary_name(key, p, c)),
{
    let lead = "."@ + key + "."@;
    let end = ".tmp"@;
    reveal_strlit(".");
    assert("."@ =~= seq!['.']);
    decimals_are_digits(p);
    decimals_are_digits(q);
    decimals_say_their_number(p, 0);
    decimals_say_their_number(q, 0);
    decimals_say_their_number(c, 0);
    decimals_say_their_number(d, 0);
    let x = decimal_of(p).push('.') + decimal_of(c);
    let y = decimal_of(q).push('.') + decimal_of(d);
    assert(temporary_name(key, p, c) =~= lead + x + end);
    assert(temporary_name(key, q, d) =~= lead + y + end);
    let whole = lead + x + end;
    let other = lead + y + end;
    assert(whole.subrange(lead.len() as int, whole.len() - end.len()) =~= x);
    assert(other.subrange(lead.len() as int, other.len() - end.len()) =~= y);
    assert(whole.skip(whole.len() - end.len()) =~= end);
    assert(temporary_name(key, p, c).subrange(
        temporary_name(key, p, c).len() - end.len(),
        temporary_name(key, p, c).len() as int,
    ) =~= end);
    assert(!decimal_of(p).contains('.')) by {
        if decimal_of(p).contains('.') {
            let k = choose|k: int| 0 <= k < decimal_of(p).len() && decimal_of(p)[k] == '.';
            assert(is_digit(decimal_of(p)[k]));
        }
    }
    assert(!decimal_of(q).contains('.')) by {
        if decimal_of(q).contains('.') {
            let k = choose|k: int| 0 <= k < decimal_of(q).len() && decimal_of(q)[k] == '.';
            assert(is_digit(decimal_of(q)[k]));
        }
    }
    texts_divide_at_the_first_separator(decimal_of(p), decimal_of(c), '.');
    texts_divide_at_the_first_separator(decimal_of(q), decimal_of(d), '.');
}

/// A failure names the file that the step was about, and keeps its reason.
pub proof fn failures_name_their_file(
    stage: PublishStage,
    reason: String,
    source: Seq<char>,
    temporary: Seq<char>,
    destination: Seq<char>,
)
    ensures
        publish_step(stage, FileOutcome::Failed(reason), source, temporary, destination) matches
            Decision::Refused { path, reason: told, operation, remove_temporary } && {
            &&& told == reason@
            &&& stage == PublishStage::InspectSource ==> path == source && operation
                == "inspect artifact source"@
            &&& stage == PublishStage::InspectDestination ==> path == destination && operation
                == "inspect cache destination"@
            &&& stage == PublishStage::CreateTemporary ==> path == temporary && operation
                == "create temporary cache artifact"@
            &&& stage == PublishStage::OpenSource ==> path == source && operation
                == "open artifact source"@
            &&& stage == PublishStage::CopyContents ==> path == source && operation
                == "copy artifact into cache"@
            &&& stage == PublishStage::SyncTemporary ==> path == temporary && operation
                == "sync temporary cache artifact"@
            &&& stage == PublishStage::Rename ==> path == destination && operation
                == "publish cache artifact"@
            &&& remove_temporary <==> stage == PublishStage::OpenSource || stage
                == PublishStage::CopyContents || stage == PublishStage::SyncTemporary || stage
                == PublishStage::Rename
        },
        publish_step(
            PublishStage::InspectSource,
            FileOutcome::OtherEntry,
            source,
            temporary,
            destination,
        ) == (Decision::SourceRefused { remove_temporary: false, path: source }),
        publish_step(
            PublishStage::InspectDestination,
            FileOutcome::OtherEntry,
            source,
            temporary,
            destination,
        ) == (Decision::DestinationRefused { remove_temporary: false, path: destination }),
{
}

/// A publication in which every step goes well, and whose result is not there yet,
/// is published.
pub proof fn publications_go_through(
    outcomes: Seq<FileOutcome>,
    source: Seq<char>,
    temporary: Seq<char>,
    destination: Seq<char>,
)
    requires
        outcomes.len() <= 7,
        forall|i: int|
            0 <= i < outcomes.len() ==> if i == 1 {
                #[trigger] outcomes[i] is NotFound
            } else {
                outcomes[i] is Done
            },
    ensures
        outcomes.len() == 7 ==> publish_run(outcomes, source, temporary, destination) == (
        Decision::Published { remove_temporary: false, path: destination }),
        outcomes.len() < 7 ==> (publish_run(outcomes, source, temporary, destination) matches
            Decision::Continue(stage) && stage_index(stage) == outcomes.len()),
    decreases outcomes.len(),
{
    if outcomes.len() > 0 {
        let before = outcomes.drop_last();
        assert forall|i: int| 0 <= i < before.len() implies if i == 1 {
            #[trigger] before[i] is NotFound
        } else {
            before[i] is Done
        } by {
            assert(before[i] == outcomes[i]);
        }
        publications_go_through(before, source, temporary, destination);
        assert(outcomes.last() == outcomes[outcomes.len() - 1]);
    }
}

} // verus!
