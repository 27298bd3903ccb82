//! What the filesystem reports.

use vstd::prelude::*;

verus! {

/// What the filesystem reported on one operation.
#[derive(Clone, Debug, PartialEq, Eq)]
pub enum FileOutcome {
    /// The operation succeeded; for an inspection, the entry is a regular file.
    Done,
    /// The inspected entry is something else than a regular file.
    OtherEntry,
    /// There is no such entry.
    NotFound(String),
    /// The entry exists already.
    AlreadyExists(String),
    /// Any other failure.
    Failed(String),
}

impl FileOutcome {
    /// The words of the report; there are none where nothing failed.
    pub open spec fn reason(&self) -> Seq<char> {
        match self {
            FileOutcome::Done => ""@,
            FileOutcome::OtherEntry => ""@,
            FileOutcome::NotFound(reason) => reason@,
            FileOutcome::AlreadyExists(reason) => reason@,
            FileOutcome::Failed(reason) => reason@,
        }
    }

    /// Whether an inspection found out what the entry is.
    pub open spec fn answers(&self) -> bool {
        self is Done || self is OtherEntry || self is NotFound
    }

    /// What an inspection of a path tells of the regular files, each with its
    /// bytes.
    pub open spec fn tells_of(&self, files: Map<Seq<char>, Seq<u8>>, path: Seq<char>) -> bool {
        self.answers() ==> (self is Done <==> files.contains_key(path))
    }

    /// Returns the words of the report.
    pub fn failure(&self) -> (reason: String)
        ensures
            reason@ == self.reason(),
    {
        match self {
            FileOutcome::Done => "".to_owned(),
            FileOutcome::OtherEntry => "".to_owned(),
            FileOutcome::NotFound(reason) => reason.clone(),
            FileOutcome::AlreadyExists(reason) => reason.clone(),
            FileOutcome::Failed(reason) => reason.clone(),
        }
    }
}

} // verus!
