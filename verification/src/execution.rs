//! Requests to run a program, and how a run ended.

use crate::text::{push_text, push_texts, texts};
use vstd::prelude::*;

verus! {

/// A program with its arguments, to be run under an identifier.
#[derive(Clone, Debug, PartialEq, Eq)]
pub struct ExecutionRequest {
    /// Identifier of the job.
    pub id: String,
    /// Program and arguments, one entry each.
    pub argv: Vec<String>,
}

impl ExecutionRequest {
    /// Creates a request from a complete argument vector.
    pub fn from_argv(id: &str, argv: Vec<String>) -> (request: ExecutionRequest)
        ensures
            request.id@ == id@,
            request.argv == argv,
    {
        ExecutionRequest { id: id.to_owned(), argv }
    }

    /// Creates a request from a program and its arguments.
    pub fn new(id: &str, program: &str, args: &[String]) -> (request: ExecutionRequest)
        ensures
            request.id@ == id@,
            texts(request.argv@) == seq![program@] + texts(args@),
    {
        let mut argv: Vec<String> = Vec::new();
        push_text(&mut argv, program);
        push_texts(&mut argv, args);
        assert(texts(argv@) =~= seq![program@] + texts(args@));
        ExecutionRequest { id: id.to_owned(), argv }
    }
}

/// What a run left behind.
#[derive(Clone, Debug, PartialEq, Eq)]
pub struct ExecutionResult {
    /// How it ended.
    pub state: JobState,
    /// Its exit code, where it has one.
    pub exit_code: Option<i32>,
    /// What it wrote.
    pub stdout: Vec<u8>,
    /// Whether it wrote more than was kept.
    pub output_truncated: bool,
}

/// How a run ended.
#[derive(Clone, Copy, Debug, PartialEq, Eq, Structural)]
pub enum JobState {
    /// The program exited successfully.
    Succeeded,
    /// The program failed.
    Failed,
    /// The run was cancelled.
    Cancelled,
}

impl JobState {
    /// How a diagnostic names the end of a run.
    pub open spec fn label(self) -> Seq<char> {
        match self {
            JobState::Succeeded => "Succeeded"@,
            JobState::Failed => "Failed"@,
            JobState::Cancelled => "Cancelled"@,
        }
    }

    /// Returns how a diagnostic names the end of a run.
    pub fn as_str(self) -> (text: &'static str)
        ensures
            text@ == self.label(),
    {
        match self {
            JobState::Succeeded => "Succeeded",
            JobState::Failed => "Failed",
            JobState::Cancelled => "Cancelled",
        }
    }
}

/// The words for the states in which a job ends.
pub proof fn state_words_are_stable()
    ensures
        JobState::Succeeded.label() == "Succeeded"@,
        JobState::Failed.label() == "Failed"@,
        JobState::Cancelled.label() == "Cancelled"@,
{
}

} // verus!
