//! The studio: what its buttons ask of the services, and what it shows of their
//! replies.
//!
//! A button leads to a call or to a refusal. A reply changes the screen and may
//! lead to another call.

use crate::build_plan::BuildAdapter;
use crate::graph::contains_text;
use crate::path::{is_absolute, path_is_absolute};
use crate::text::{
    all_chars, byte_len, compact, compact_readout, copy_texts, debug_form, debug_text, decimal,
    decimal_of, decimals_are_digits, decimals_say_their_number, digit, ends_in, is_digit, is_lower,
    is_white_space, join, lines, lines_of, lossy_form, lossy_text, lower,
    lowered, optional_text, parse_number, parsed_number, pieces, push_text, same, signed_decimal,
    signed_decimal_of, split, texts, texts_divide_at_the_first_separator,
    to_lower, trim, trimmed, trimmed_keeps_the_middle,
};
use crate::work::{toolchain_from, toolchain_named};
use vstd::prelude::*;
use vstd::utf8::encode_utf8;

verus! {

/// What a list of words comes to.
pub enum Words {
    /// These words, each one once.
    Chosen(Seq<Seq<char>>),
    /// Nothing: this word is not accepted.
    Refused(Seq<char>),
}

/// A word of a list as it is read: without white space around it and in lower
/// case.
pub open spec fn word_of(part: Seq<char>) -> Seq<char> {
    lowered(trimmed(part))
}

fn read_word(part: &str) -> (word: String)
    ensures
        word@ == word_of(part@),
{
    to_lower(trim(part).as_str())
}

/// The toolchains that a list names, each one once under its own name. Parts
/// without a word do not count.
pub open spec fn toolchain_words(parts: Seq<Seq<char>>) -> Words
    decreases parts.len(),
{
    if parts.len() == 0 {
        Words::Chosen(Seq::empty())
    } else {
        match toolchain_words(parts.drop_last()) {
            Words::Refused(word) => Words::Refused(word),
            Words::Chosen(list) => {
                let word = word_of(parts.last());
                if word.len() == 0 {
                    Words::Chosen(list)
                } else {
                    match toolchain_named(word) {
                        None => Words::Refused(word),
                        Some(toolchain) => if list.contains(toolchain.label()) {
                            Words::Chosen(list)
                        } else {
                            Words::Chosen(list.push(toolchain.label()))
                        },
                    }
                }
            },
        }
    }
}

proof fn lemma_toolchain_words_stop(parts: Seq<Seq<char>>, n: int)
    requires
        0 <= n <= parts.len(),
        toolchain_words(parts.take(n)) is Refused,
    ensures
        toolchain_words(parts) == toolchain_words(parts.take(n)),
    decreases parts.len(),
{
    if n == parts.len() {
        assert(parts.take(n) =~= parts);
    } else {
        assert(parts.drop_last().take(n) =~= parts.take(n));
        lemma_toolchain_words_stop(parts.drop_last(), n);
    }
}

/// What the field for toolchains says, or the message where it says nothing.
pub open spec fn studio_toolchains(value: Seq<char>) -> Result<Seq<Seq<char>>, Seq<char>> {
    match toolchain_words(pieces(value, ',')) {
        Words::Refused(word) => Err(
            "unsupported Studio toolchain "@ + debug_form(word)
                + "; choose rust, go, python, node, flutter, android-sdk, java, qt, or cmake"@,
        ),
        Words::Chosen(list) => if list.len() == 0 {
            Err("enter at least one Studio toolchain"@)
        } else {
            Ok(list)
        },
    }
}

/// A list of texts inside a result.
pub open spec fn list_view(result: Result<Vec<String>, String>) -> Result<
    Seq<Seq<char>>,
    Seq<char>,
> {
    match result {
        Ok(list) => Ok(texts(list@)),
        Err(message) => Err(message@),
    }
}

/// Reads the field for toolchains.
pub fn parse_studio_toolchains(value: &str) -> (result: Result<Vec<String>, String>)
    ensures
        list_view(result) == studio_toolchains(value@),
{
    let parts = split(value, ',');
    let ghost all = pieces(value@, ',');
    let mut list: Vec<String> = Vec::new();
    let mut i: usize = 0;
    assert(all.take(0) =~= Seq::empty());
    assert(texts(list@) =~= Seq::empty());
    while i < parts.len()
        invariant
            i <= parts@.len(),
            all == texts(parts@),
            all == pieces(value@, ','),
            toolchain_words(all.take(i as int)) == Words::Chosen(texts(list@)),
        decreases parts.len() - i,
    {
        let word = read_word(parts[i].as_str());
        proof {
            assert(all.take(i + 1).drop_last() =~= all.take(i as int));
            assert(all.take(i + 1).last() == parts@[i as int]@);
        }
        if !word.as_str().is_empty() {
            match toolchain_from(word.as_str()) {
                None => {
                    proof {
                        lemma_toolchain_words_stop(all, i + 1);
                    }
                    let mut message = join(
                        "unsupported Studio toolchain ",
                        debug_text(word.as_str()).as_str(),
                    );
                    message.append(
                        "; choose rust, go, python, node, flutter, android-sdk, java, qt, or cmake",
                    );
                    return Err(message);
                },
                Some(toolchain) => {
                    if !contains_text(&list, toolchain.as_str()) {
                        push_text(&mut list, toolchain.as_str());
                    }
                },
            }
        }
        i = i + 1;
    }
    assert(all.take(i as int) =~= all);
    assert(texts(list@).len() == list@.len());
    if list.len() == 0 {
        return Err("enter at least one Studio toolchain".to_owned());
    }
    Ok(list)
}

/// What the field for the build adapter says, or the message where it says
/// nothing.
pub open spec fn is_studio_adapter(value: Seq<char>, result: Result<Seq<char>, Seq<char>>) -> bool {
    let word = word_of(value);
    if exists|adapter: BuildAdapter| #[trigger] adapter.label() == word {
        result == Ok::<Seq<char>, Seq<char>>(word)
    } else {
        result == Err::<Seq<char>, Seq<char>>(
            "unsupported Studio build adapter "@ + debug_form(word)
                + "; choose cargo, go, cmake, gradle, flutter, qt, npm, or pnpm"@,
        )
    }
}

/// A text inside a result.
pub open spec fn text_view(result: Result<String, String>) -> Result<Seq<char>, Seq<char>> {
    match result {
        Ok(text) => Ok(text@),
        Err(message) => Err(message@),
    }
}

/// Reads the field for the build adapter.
pub fn parse_studio_build_adapter(value: &str) -> (result: Result<String, String>)
    ensures
        is_studio_adapter(value@, text_view(result)),
{
    let word = read_word(value);
    match BuildAdapter::parse(word.as_str()) {
        Some(adapter) => {
            assert(adapter.label() == word@);
            Ok(word)
        },
        None => {
            let mut message = join(
                "unsupported Studio build adapter ",
                debug_text(word.as_str()).as_str(),
            );
            message.append("; choose cargo, go, cmake, gradle, flutter, qt, npm, or pnpm");
            Err(message)
        },
    }
}

/// A character of a bundle's identifier.
pub open spec fn is_bundle_char(c: char) -> bool {
    is_lower(c) || is_digit(c) || c == '-'
}

fn bundle_char(c: char) -> (result: bool)
    ensures
        result == is_bundle_char(c),
{
    lower(c) || digit(c) || c == '-'
}

/// The identifier that a word stands for. One bundle has a second name.
pub open spec fn bundle_named(word: Seq<char>) -> Seq<char> {
    if word == "android"@ {
        "android-sdk"@
    } else {
        word
    }
}

/// The bundles that a list names, each one once. Parts without a word do not
/// count.
pub open spec fn bundle_words(parts: Seq<Seq<char>>) -> Words
    decreases parts.len(),
{
    if parts.len() == 0 {
        Words::Chosen(Seq::empty())
    } else {
        match bundle_words(parts.drop_last()) {
            Words::Refused(word) => Words::Refused(word),
            Words::Chosen(list) => {
                let word = word_of(parts.last());
                let id = bundle_named(word);
                if word.len() == 0 {
                    Words::Chosen(list)
                } else if !(forall|i: int| 0 <= i < id.len() ==> is_bundle_char(#[trigger] id[i])) {
                    Words::Refused(id)
                } else if list.contains(id) {
                    Words::Chosen(list)
                } else {
                    Words::Chosen(list.push(id))
                }
            },
        }
    }
}

proof fn lemma_bundle_words_stop(parts: Seq<Seq<char>>, n: int)
    requires
        0 <= n <= parts.len(),
        bundle_words(parts.take(n)) is Refused,
    ensures
        bundle_words(parts) == bundle_words(parts.take(n)),
    decreases parts.len(),
{
    if n == parts.len() {
        assert(parts.take(n) =~= parts);
    } else {
        assert(parts.drop_last().take(n) =~= parts.take(n));
        lemma_bundle_words_stop(parts.drop_last(), n);
    }
}

/// What the field for bundles says, or the message where it says nothing.
pub open spec fn studio_bundles(value: Seq<char>) -> Result<Seq<Seq<char>>, Seq<char>> {
    match bundle_words(pieces(value, ',')) {
        Words::Refused(word) => Err(
            "invalid post-install bundle identifier "@ + debug_form(word),
        ),
        Words::Chosen(list) => if list.len() == 0 {
            Err("select at least one post-install bundle"@)
        } else if list.len() > 16 {
            Err("select no more than 16 post-install bundles"@)
        } else {
            Ok(list)
        },
    }
}

/// Reads the field for bundles.
pub fn parse_provision_bundles(value: &str) -> (result: Result<Vec<String>, String>)
    ensures
        list_view(result) == studio_bundles(value@),
{
    let parts = split(value, ',');
    let ghost all = pieces(value@, ',');
    let mut list: Vec<String> = Vec::new();
    let mut i: usize = 0;
    assert(all.take(0) =~= Seq::empty());
    assert(texts(list@) =~= Seq::empty());
    while i < parts.len()
        invariant
            i <= parts@.len(),
            all == texts(parts@),
            all == pieces(value@, ','),
            bundle_words(all.take(i as int)) == Words::Chosen(texts(list@)),
        decreases parts.len() - i,
    {
        let word = read_word(parts[i].as_str());
        proof {
            assert(all.take(i + 1).drop_last() =~= all.take(i as int));
            assert(all.take(i + 1).last() == parts@[i as int]@);
        }
        if !word.as_str().is_empty() {
            let id: &str = if same(word.as_str(), "android") {
                "android-sdk"
            } else {
                word.as_str()
            };
            assert(id@ == bundle_named(word@));
            if !all_chars(id, bundle_char) {
                proof {
                    lemma_bundle_words_stop(all, i + 1);
                }
                return Err(
                    join("invalid post-install bundle identifier ", debug_text(id).as_str()),
                );
            }
            if !contains_text(&list, id) {
                push_text(&mut list, id);
            }
        }
        i = i + 1;
    }
    assert(all.take(i as int) =~= all);
    assert(texts(list@).len() == list@.len());
    if list.len() == 0 {
        return Err("select at least one post-install bundle".to_owned());
    }
    if list.len() > 16 {
        return Err("select no more than 16 post-install bundles".to_owned());
    }
    Ok(list)
}

proof fn lemma_bundle_words(parts: Seq<Seq<char>>)
    ensures
        bundle_words(parts) matches Words::Chosen(list) ==> list.no_duplicates() && forall|i: int|
            0 <= i < list.len() ==> (#[trigger] list[i]).len() > 0,
    decreases parts.len(),
{
    if parts.len() > 0 {
        lemma_bundle_words(parts.drop_last());
        reveal_strlit("android-sdk");
    }
}

/// A list of bundles names each one once, and is neither empty nor too long.
pub proof fn bundle_lists_are_bounded(value: Seq<char>)
    ensures
        studio_bundles(value) matches Ok(list) ==> 1 <= list.len() <= 16 && list.no_duplicates(),
{
    lemma_bundle_words(pieces(value, ','));
}

/// The complaint about an image and a workspace, if there is one.
pub open spec fn environment_complaint(image: Seq<char>, workspace: Seq<char>) -> Option<
    Seq<char>,
> {
    if trimmed(image).len() == 0 {
        Some("enter a digest-pinned OCI image before submitting work"@)
    } else if trimmed(workspace).len() == 0 {
        Some("enter an absolute workspace directory before submitting work"@)
    } else {
        None
    }
}

/// Whether a check found a complaint, and which.
pub open spec fn complains(result: Result<(), String>, complaint: Option<Seq<char>>) -> bool {
    match complaint {
        Some(words) => result matches Err(message) && message@ == words,
        None => result is Ok,
    }
}

/// Checks that an image and a workspace were typed.
pub fn validate_studio_environment(image: &str, workspace: &str) -> (result: Result<(), String>)
    ensures
        complains(result, environment_complaint(image@, workspace@)),
{
    if trim(image).as_str().is_empty() {
        return Err("enter a digest-pinned OCI image before submitting work".to_owned());
    }
    if trim(workspace).as_str().is_empty() {
        return Err("enter an absolute workspace directory before submitting work".to_owned());
    }
    Ok(())
}

/// The complaint about the path of a file, if there is one.
pub open spec fn file_complaint(path: Seq<char>) -> Option<Seq<char>> {
    if trimmed(path).len() == 0 {
        Some("enter a workspace-relative file path before loading or saving"@)
    } else if is_absolute(path) {
        Some("Studio file paths must be relative to the workspace"@)
    } else {
        None
    }
}

/// Checks the path of a file.
pub fn validate_studio_file_path(path: &str) -> (result: Result<(), String>)
    ensures
        complains(result, file_complaint(path@)),
{
    if trim(path).as_str().is_empty() {
        return Err("enter a workspace-relative file path before loading or saving".to_owned());
    }
    if path_is_absolute(path) {
        return Err("Studio file paths must be relative to the workspace".to_owned());
    }
    Ok(())
}

/// The complaint about a directory, if there is one.
pub open spec fn directory_complaint(path: Seq<char>) -> Option<Seq<char>> {
    if is_absolute(path) {
        Some("Studio explorer directories must be relative to the workspace"@)
    } else {
        None
    }
}

/// Checks a directory.
pub fn validate_studio_directory(path: &str) -> (result: Result<(), String>)
    ensures
        complains(result, directory_complaint(path@)),
{
    if path_is_absolute(path) {
        return Err("Studio explorer directories must be relative to the workspace".to_owned());
    }
    Ok(())
}

/// An entry of a listing: path, whether it is a directory, whether it is a
/// link, size.
pub open spec fn entry_line(entry: (String, bool, bool, u64)) -> Seq<char> {
    (if entry.1 {
        "\u{25be}"@
    } else {
        "\u{b7}"@
    }) + " "@ + entry.0@ + (if entry.2 {
        " \u{2197}"@
    } else {
        ""@
    }) + (if entry.1 || entry.2 {
        ""@
    } else {
        " \u{b7} "@ + decimal_of(entry.3 as nat) + " B"@
    })
}

/// The lines of entries, with line feeds in between.
pub open spec fn entry_lines(entries: Seq<(String, bool, bool, u64)>) -> Seq<char>
    decreases entries.len(),
{
    if entries.len() == 0 {
        Seq::empty()
    } else if entries.len() == 1 {
        entry_line(entries[0])
    } else {
        entry_lines(entries.drop_last()) + "\n"@ + entry_line(entries.last())
    }
}

/// A listing as a text.
pub open spec fn listing(entries: Seq<(String, bool, bool, u64)>) -> Seq<char> {
    if entries.len() == 0 {
        "Workspace directory is empty"@
    } else {
        entry_lines(entries)
    }
}

fn format_entry(entry: &(String, bool, bool, u64)) -> (line: String)
    ensures
        line@ == entry_line(*entry),
{
    let mut line = join(
        if entry.1 {
            "\u{25be}"
        } else {
            "\u{b7}"
        },
        " ",
    );
    line.append(entry.0.as_str());
    if entry.2 {
        line.append(" \u{2197}");
    } else {
        line.append("");
    }
    if entry.1 || entry.2 {
        line.append("");
    } else {
        let mut size = join(" \u{b7} ", decimal(entry.3).as_str());
        size.append(" B");
        line.append(size.as_str());
    }
    line
}

/// Formats a listing.
pub fn format_workspace_entries(entries: &[(String, bool, bool, u64)]) -> (text: String)
    ensures
        text@ == listing(entries@),
{
    if entries.len() == 0 {
        return "Workspace directory is empty".to_owned();
    }
    let mut text = format_entry(&entries[0]);
    let mut i: usize = 1;
    assert(entries@.take(1).len() == 1 && entries@.take(1)[0] == entries@[0]);
    while i < entries.len()
        invariant
            1 <= i <= entries@.len(),
            text@ == entry_lines(entries@.take(i as int)),
        decreases entries.len() - i,
    {
        proof {
            assert(entries@.take(i + 1).drop_last() =~= entries@.take(i as int));
            assert(entries@.take(i + 1).last() == entries@[i as int]);
        }
        text.append("\n");
        text.append(format_entry(&entries[i]).as_str());
        i = i + 1;
    }
    assert(entries@.take(i as int) =~= entries@);
    text
}

/// A job as the work service tells it.
#[derive(Clone, Debug, PartialEq, Eq)]
pub struct JobStatusView {
    /// Identifier.
    pub id: String,
    /// Where it stands.
    pub lifecycle: String,
    /// Exit code, once it has one.
    pub exit_code: Option<i32>,
    /// Whether it wrote more than was kept.
    pub output_truncated: bool,
    /// How long it took.
    pub duration_millis: u64,
    /// What went wrong.
    pub error: Option<String>,
}

/// A part of what a job wrote.
#[derive(Clone, Debug, PartialEq, Eq)]
pub struct JobLogView {
    /// The part.
    pub bytes: Vec<u8>,
    /// Whether it reaches to the end.
    pub end_of_file: bool,
    /// Size of the whole.
    pub total_bytes: u64,
}

/// The readout of a job.
pub open spec fn job_line(status: JobStatusView, log: JobLogView) -> Seq<char> {
    let text = trimmed(lossy_form(log.bytes@));
    status.id@ + " \u{b7} "@ + status.lifecycle@ + " \u{b7} exit "@ + (match status.exit_code {
        Some(code) => signed_decimal_of(code as int),
        None => "pending"@,
    }) + " \u{b7} "@ + decimal_of(status.duration_millis as nat) + " ms \u{b7} log "@ + decimal_of(
        log.total_bytes as nat,
    ) + " bytes ("@ + (if log.end_of_file {
        "complete"@
    } else {
        "partial"@
    }) + ")"@ + (if status.output_truncated {
        " \u{b7} output truncated"@
    } else {
        ""@
    }) + (match status.error {
        Some(message) => if text.len() == 0 {
            " \u{b7} error: "@ + message@
        } else {
            " \u{b7} error: "@ + message@ + "\n"@ + text
        },
        None => if text.len() == 0 {
            ""@
        } else {
            "\n"@ + text
        },
    })
}

/// Formats the readout of a job.
pub fn format_job_readout(status: &JobStatusView, log: &JobLogView) -> (line: String)
    ensures
        line@ == job_line(*status, *log),
{
    let text = trim(lossy_text(&log.bytes).as_str());
    let detail = match &status.error {
        Some(message) => {
            let mut detail = join(" \u{b7} error: ", message.as_str());
            if !text.as_str().is_empty() {
                detail.append("\n");
                detail.append(text.as_str());
            }
            detail
        },
        None => if text.as_str().is_empty() {
            "".to_owned()
        } else {
            join("\n", text.as_str())
        },
    };
    let exit = match status.exit_code {
        Some(code) => signed_decimal(code),
        None => "pending".to_owned(),
    };
    let mut line = join(status.id.as_str(), " \u{b7} ");
    line.append(status.lifecycle.as_str());
    line.append(" \u{b7} exit ");
    line.append(exit.as_str());
    line.append(" \u{b7} ");
    line.append(decimal(status.duration_millis).as_str());
    line.append(" ms \u{b7} log ");
    line.append(decimal(log.total_bytes).as_str());
    line.append(" bytes (");
    line.append(
        if log.end_of_file {
            "complete"
        } else {
            "partial"
        },
    );
    line.append(")");
    line.append(
        if status.output_truncated {
            " \u{b7} output truncated"
        } else {
            ""
        },
    );
    line.append(detail.as_str());
    line
}

/// Describes a job from its status and the first part of what it wrote. A job
/// that has not ended need not have written anything.
pub fn describe_job(status: &JobStatusView, log: Result<JobLogView, String>) -> (result: Result<
    String,
    String,
>)
    ensures
        match log {
            Ok(part) => result matches Ok(line) && line@ == job_line(*status, part),
            Err(error) => if status.lifecycle@ == "queued"@ || status.lifecycle@ == "running"@ {
                result matches Ok(line) && exists|part: JobLogView| #[trigger]
                    is_unwritten(part) && line@ == job_line(*status, part)
            } else {
                result matches Err(message) && message@ == "job log read failed: "@ + error@
            },
        },
{
    match log {
        Ok(part) => Ok(format_job_readout(status, &part)),
        Err(error) => {
            if same(status.lifecycle.as_str(), "queued") || same(
                status.lifecycle.as_str(),
                "running",
            ) {
                let part = JobLogView { bytes: Vec::new(), end_of_file: false, total_bytes: 0 };
                assert(is_unwritten(part));
                return Ok(format_job_readout(status, &part));
            }
            Err(join("job log read failed: ", error.as_str()))
        },
    }
}

/// Nothing was written yet.
pub open spec fn is_unwritten(part: JobLogView) -> bool {
    part.bytes@ == Seq::<u8>::empty() && !part.end_of_file && part.total_bytes == 0
}

/// The path that is probed for a workspace.
pub open spec fn probed_path(workspace: Seq<char>, is_directory: bool) -> Seq<char> {
    if trimmed(workspace).len() > 0 && is_absolute(workspace) && is_directory {
        trimmed(workspace)
    } else {
        "/"@
    }
}

/// The path whose free room is asked for: the workspace, where it is an
/// absolute directory, or else the root.
pub fn disk_probe_path(workspace: &str, is_directory: bool) -> (path: String)
    ensures
        path@ == probed_path(workspace@, is_directory),
{
    let directory = trim(workspace);
    if !directory.as_str().is_empty() && path_is_absolute(workspace) && is_directory {
        directory
    } else {
        "/".to_owned()
    }
}

/// The last number that stands alone on a line.
pub open spec fn last_number(list: Seq<Seq<char>>) -> Option<nat>
    decreases list.len(),
{
    if list.len() == 0 {
        None
    } else {
        match parsed_number(trimmed(list.last()), u64::MAX as nat) {
            Some(number) => Some(number),
            None => last_number(list.drop_last()),
        }
    }
}

/// Program that tells the free room of a filesystem.
pub const DISK_PROGRAM: &'static str = "/usr/bin/df";

/// The command that asks for the free room of a path.
pub open spec fn probe_argv(path: Seq<char>) -> Seq<Seq<char>> {
    seq![DISK_PROGRAM@, "-B1"@, "--output=avail"@, "--"@, path]
}

/// Builds the command that asks for the free room of a path.
pub fn disk_probe_command(path: &str) -> (argv: Vec<String>)
    ensures
        texts(argv@) == probe_argv(path@),
{
    let mut argv: Vec<String> = Vec::new();
    push_text(&mut argv, DISK_PROGRAM);
    push_text(&mut argv, "-B1");
    push_text(&mut argv, "--output=avail");
    push_text(&mut argv, "--");
    push_text(&mut argv, path);
    assert(texts(argv@) =~= seq![DISK_PROGRAM@, "-B1"@, "--output=avail"@, "--"@, path@]);
    argv
}

/// How the question for the free room went.
#[derive(Clone, Debug, PartialEq, Eq)]
pub enum DiskProbe {
    /// The program could not be started.
    NotRun(String),
    /// It ended badly, with this status.
    Failed(String),
    /// It wrote this.
    Wrote(Vec<u8>),
}

/// The free room, or the message where it is not known.
pub open spec fn free_room(probe: DiskProbe) -> Result<nat, Seq<char>> {
    match probe {
        DiskProbe::NotRun(reason) => Err(
            "disk-space probe failed for "@ + DISK_PROGRAM@ + ": "@ + reason@,
        ),
        DiskProbe::Failed(status) => Err("disk-space probe failed with "@ + status@),
        DiskProbe::Wrote(stdout) => match last_number(lines_of(lossy_form(stdout@))) {
            Some(bytes) => Ok(bytes),
            None => Err("disk-space probe returned no numeric free-space value"@),
        },
    }
}

/// Reads the free room from how the question for it went.
pub fn available_disk_bytes(probe: &DiskProbe) -> (result: Result<u64, String>)
    ensures
        match result {
            Ok(bytes) => free_room(*probe) == Ok::<nat, Seq<char>>(bytes as nat),
            Err(message) => free_room(*probe) == Err::<nat, Seq<char>>(message@),
        },
{
    match probe {
        DiskProbe::NotRun(reason) => {
            let mut message = join("disk-space probe failed for ", DISK_PROGRAM);
            message.append(": ");
            message.append(reason.as_str());
            Err(message)
        },
        DiskProbe::Failed(status) => Err(join("disk-space probe failed with ", status.as_str())),
        DiskProbe::Wrote(stdout) => match number_in(stdout) {
            Some(bytes) => Ok(bytes),
            None => Err("disk-space probe returned no numeric free-space value".to_owned()),
        },
    }
}

fn number_in(stdout: &Vec<u8>) -> (number: Option<u64>)
    ensures
        match number {
            Some(bytes) => last_number(lines_of(lossy_form(stdout@))) == Some(bytes as nat),
            None => last_number(lines_of(lossy_form(stdout@))) is None,
        },
{
    let text = lossy_text(stdout);
    let list = lines(text.as_str());
    let ghost all = lines_of(text@);
    let mut i: usize = list.len();
    assert(texts(list@).len() == list@.len());
    assert(all.take(i as int) =~= all);
    while i > 0
        invariant
            i <= list@.len(),
            all == texts(list@),
            last_number(all) == last_number(all.take(i as int)),
            all == lines_of(lossy_form(stdout@)),
        decreases i,
    {
        let line = trim(list[i - 1].as_str());
        proof {
            assert(all.take(i as int).last() == list@[i - 1]@);
            assert(all.take(i as int).drop_last() =~= all.take(i - 1));
        }
        match parse_number(line.as_str(), u64::MAX) {
            Some(number) => {
                return Some(number);
            },
            None => {},
        }
        i = i - 1;
    }
    None
}

/// What the member `inner` of the member `outer` of a JSON document is, where
/// both exist and the inner one is a text.
pub uninterp spec fn json_member_of(
    document: Seq<char>,
    outer: Seq<char>,
    inner: Seq<char>,
) -> Option<Seq<char>>;

/// Finds a text in a JSON document.
///
/// Trusted: `serde_json::from_str`, `Value::get` and `Value::as_str` are
/// functions of their arguments alone, so what is found is settled by the
/// document and the two names. The grammar of JSON is left unsaid.
#[verifier::external_body]
fn json_member(document: &str, outer: &str, inner: &str) -> (text: Option<String>)
    ensures
        match text {
            Some(found) => json_member_of(document@, outer@, inner@) == Some(found@),
            None => json_member_of(document@, outer@, inner@) is None,
        },
{
    let value = serde_json::from_str::<serde_json::Value>(document).ok()?;
    value.get(outer)?.get(inner)?.as_str().map(str::to_owned)
}

/// The screen of the studio.
#[derive(Clone, Debug, PartialEq, Eq)]
pub struct StudioScreen {
    /// Name of the environment.
    pub environment_name: String,
    /// Image of the environment.
    pub environment_image: String,
    /// Toolchains of the environment, as they were typed.
    pub environment_toolchains: String,
    /// Build adapter, as it was typed.
    pub build_adapter: String,
    /// Directory of the workspace.
    pub workspace_directory: String,
    /// Directory that is listed.
    pub explorer_directory: String,
    /// Entries of that directory.
    pub explorer_entries: String,
    /// Line on the listing.
    pub explorer_readout: String,
    /// Path of the file in the editor.
    pub file_path: String,
    /// Text in the editor.
    pub file_content: String,
    /// Line on the file.
    pub file_readout: String,
    /// Whether the text was changed.
    pub file_dirty: bool,
    /// Last job on the repository.
    pub git_job_id: String,
    /// Line on that job.
    pub git_readout: String,
    /// Last build or test.
    pub job_id: String,
    /// Line on that job.
    pub job_readout: String,
    /// Extension, as it was typed.
    pub extension_source: String,
    /// Bundles, as they were typed.
    pub provisioning_bundles: String,
    /// Image for the bundles.
    pub provisioning_image: String,
    /// Last request for bundles.
    pub provisioning_request_id: String,
    /// Line on that request.
    pub provisioning_readout: String,
    /// Profile of the machine.
    pub profile: String,
    /// What is going on.
    pub status_message: String,
}

/// The screen of the studio in mathematical terms.
#[verifier::ext_equal]
pub struct Screen {
    /// Name of the environment.
    pub environment_name: Seq<char>,
    /// Image of the environment.
    pub environment_image: Seq<char>,
    /// Toolchains of the environment, as they were typed.
    pub environment_toolchains: Seq<char>,
    /// Build adapter, as it was typed.
    pub build_adapter: Seq<char>,
    /// Directory of the workspace.
    pub workspace_directory: Seq<char>,
    /// Directory that is listed.
    pub explorer_directory: Seq<char>,
    /// Entries of that directory.
    pub explorer_entries: Seq<char>,
    /// Line on the listing.
    pub explorer_readout: Seq<char>,
    /// Path of the file in the editor.
    pub file_path: Seq<char>,
    /// Text in the editor.
    pub file_content: Seq<char>,
    /// Line on the file.
    pub file_readout: Seq<char>,
    /// Whether the text was changed.
    pub file_dirty: bool,
    /// Last job on the repository.
    pub git_job_id: Seq<char>,
    /// Line on that job.
    pub git_readout: Seq<char>,
    /// Last build or test.
    pub job_id: Seq<char>,
    /// Line on that job.
    pub job_readout: Seq<char>,
    /// Extension, as it was typed.
    pub extension_source: Seq<char>,
    /// Bundles, as they were typed.
    pub provisioning_bundles: Seq<char>,
    /// Image for the bundles.
    pub provisioning_image: Seq<char>,
    /// Last request for bundles.
    pub provisioning_request_id: Seq<char>,
    /// Line on that request.
    pub provisioning_readout: Seq<char>,
    /// Profile of the machine.
    pub profile: Seq<char>,
    /// What is going on.
    pub status_message: Seq<char>,
}

impl View for StudioScreen {
    type V = Screen;

    open spec fn view(&self) -> Screen {
        Screen {
            environment_name: self.environment_name@,
            environment_image: self.environment_image@,
            environment_toolchains: self.environment_toolchains@,
            build_adapter: self.build_adapter@,
            workspace_directory: self.workspace_directory@,
            explorer_directory: self.explorer_directory@,
            explorer_entries: self.explorer_entries@,
            explorer_readout: self.explorer_readout@,
            file_path: self.file_path@,
            file_content: self.file_content@,
            file_readout: self.file_readout@,
            file_dirty: self.file_dirty,
            git_job_id: self.git_job_id@,
            git_readout: self.git_readout@,
            job_id: self.job_id@,
            job_readout: self.job_readout@,
            extension_source: self.extension_source@,
            provisioning_bundles: self.provisioning_bundles@,
            provisioning_image: self.provisioning_image@,
            provisioning_request_id: self.provisioning_request_id@,
            provisioning_readout: self.provisioning_readout@,
            profile: self.profile@,
            status_message: self.status_message@,
        }
    }
}

/// What is looked at in a repository.
#[derive(Clone, Copy, Debug, PartialEq, Eq, Structural)]
pub enum GitLook {
    /// Its state.
    Status,
    /// Its changes.
    Diff,
    /// Its last recorded changes.
    History,
}

/// A call to a service or a program.
#[derive(Clone, Debug, PartialEq, Eq)]
pub enum StudioCall {
    /// Take up the environment.
    Define {
        /// Name of the environment.
        environment: String,
        /// Image.
        image: String,
        /// Directory of the workspace.
        workspace: String,
        /// Toolchains.
        toolchains: Vec<String>,
    },
    /// List a directory.
    List {
        /// Name of the environment.
        environment: String,
        /// Directory.
        directory: String,
    },
    /// Read a file.
    Read {
        /// Name of the environment.
        environment: String,
        /// Path.
        path: String,
    },
    /// Replace a file.
    Write {
        /// Name of the environment.
        environment: String,
        /// Path.
        path: String,
        /// Text.
        contents: String,
    },
    /// Take up the environment, unless it is known, and look at the repository.
    Git {
        /// What is looked at.
        look: GitLook,
        /// Name of the environment.
        environment: String,
        /// Image.
        image: String,
        /// Directory of the workspace.
        workspace: String,
        /// Toolchains.
        toolchains: Vec<String>,
        /// Identifier of the job.
        job_id: String,
    },
    /// Take up the environment, unless it is known, and build.
    Build {
        /// Name of the environment.
        environment: String,
        /// Image.
        image: String,
        /// Directory of the workspace.
        workspace: String,
        /// Toolchains.
        toolchains: Vec<String>,
        /// Identifier of the job.
        job_id: String,
        /// Build adapter.
        adapter: String,
    },
    /// Take up the environment, unless it is known, and test.
    Test {
        /// Name of the environment.
        environment: String,
        /// Image.
        image: String,
        /// Directory of the workspace.
        workspace: String,
        /// Toolchains.
        toolchains: Vec<String>,
        /// Identifier of the job.
        job_id: String,
    },
    /// Describe a job.
    Describe {
        /// Identifier of the job.
        job_id: String,
    },
    /// Cancel a job.
    CancelJob {
        /// Identifier of the job.
        job_id: String,
    },
    /// Open the terminal.
    Terminal {
        /// Directory of the workspace.
        workspace: String,
    },
    /// Open the workspace in the editor that takes extensions.
    OpenHost {
        /// Directory of the workspace.
        workspace: String,
    },
    /// Install an extension.
    InstallExtension {
        /// Extension.
        source: String,
    },
    /// List the extensions.
    ListExtensions,
    /// Remove an extension.
    UninstallExtension {
        /// Extension.
        identifier: String,
    },
    /// Fetch the catalog of bundles.
    ProvisionCatalog,
    /// Fetch the state of the last request for bundles.
    ProvisionStatus,
    /// Connect to the service for bundles, before a plan or a start.
    ProvisionConnect {
        /// Whether the bundles are to be installed.
        start: bool,
    },
    /// Find out how much room there is.
    ProbeDisk {
        /// Whether the bundles are to be installed.
        start: bool,
        /// Bundles.
        bundles: Vec<String>,
        /// Directory of the workspace.
        workspace: String,
    },
    /// Have the bundles planned.
    ProvisionPlan {
        /// Bundles.
        bundles: Vec<String>,
        /// Profile of the machine.
        profile: String,
        /// Free bytes.
        disk: u64,
        /// Image.
        image: String,
    },
    /// Have the bundles installed.
    ProvisionStart {
        /// Bundles.
        bundles: Vec<String>,
        /// Profile of the machine.
        profile: String,
        /// Free bytes.
        disk: u64,
        /// Image.
        image: String,
    },
    /// Cancel the last request for bundles.
    ProvisionCancel {
        /// The request.
        request_id: String,
    },
}

/// A call in mathematical terms.
pub enum Call {
    /// Take up the environment.
    Define {
        /// Name of the environment.
        environment: Seq<char>,
        /// Image.
        image: Seq<char>,
        /// Directory of the workspace.
        workspace: Seq<char>,
        /// Toolchains.
        toolchains: Seq<Seq<char>>,
    },
    /// List a directory.
    List {
        /// Name of the environment.
        environment: Seq<char>,
        /// Directory.
        directory: Seq<char>,
    },
    /// Read a file.
    Read {
        /// Name of the environment.
        environment: Seq<char>,
        /// Path.
        path: Seq<char>,
    },
    /// Replace a file.
    Write {
        /// Name of the environment.
        environment: Seq<char>,
        /// Path.
        path: Seq<char>,
        /// Text.
        contents: Seq<char>,
    },
    /// Take up the environment, unless it is known, and look at the repository.
    Git {
        /// What is looked at.
        look: GitLook,
        /// Name of the environment.
        environment: Seq<char>,
        /// Image.
        image: Seq<char>,
        /// Directory of the workspace.
        workspace: Seq<char>,
        /// Toolchains.
        toolchains: Seq<Seq<char>>,
        /// Identifier of the job.
        job_id: Seq<char>,
    },
    /// Take up the environment, unless it is known, and build.
    Build {
        /// Name of the environment.
        environment: Seq<char>,
        /// Image.
        image: Seq<char>,
        /// Directory of the workspace.
        workspace: Seq<char>,
        /// Toolchains.
        toolchains: Seq<Seq<char>>,
        /// Identifier of the job.
        job_id: Seq<char>,
        /// Build adapter.
        adapter: Seq<char>,
    },
    /// Take up the environment, unless it is known, and test.
    Test {
        /// Name of the environment.
        environment: Seq<char>,
        /// Image.
        image: Seq<char>,
        /// Directory of the workspace.
        workspace: Seq<char>,
        /// Toolchains.
        toolchains: Seq<Seq<char>>,
        /// Identifier of the job.
        job_id: Seq<char>,
    },
    /// Describe a job.
    Describe {
        /// Identifier of the job.
        job_id: Seq<char>,
    },
    /// Cancel a job.
    CancelJob {
        /// Identifier of the job.
        job_id: Seq<char>,
    },
    /// Open the terminal.
    Terminal {
        /// Directory of the workspace.
        workspace: Seq<char>,
    },
    /// Open the workspace in the editor that takes extensions.
    OpenHost {
        /// Directory of the workspace.
        workspace: Seq<char>,
    },
    /// Install an extension.
    InstallExtension {
        /// Extension.
        source: Seq<char>,
    },
    /// List the extensions.
    ListExtensions,
    /// Remove an extension.
    UninstallExtension {
        /// Extension.
        identifier: Seq<char>,
    },
    /// Fetch the catalog of bundles.
    ProvisionCatalog,
    /// Fetch the state of the last request for bundles.
    ProvisionStatus,
    /// Connect to the service for bundles, before a plan or a start.
    ProvisionConnect {
        /// Whether the bundles are to be installed.
        start: bool,
    },
    /// Find out how much room there is.
    ProbeDisk {
        /// Whether the bundles are to be installed.
        start: bool,
        /// Bundles.
        bundles: Seq<Seq<char>>,
        /// Directory of the workspace.
        workspace: Seq<char>,
    },
    /// Have the bundles planned.
    ProvisionPlan {
        /// Bundles.
        bundles: Seq<Seq<char>>,
        /// Profile of the machine.
        profile: Seq<char>,
        /// Free bytes.
        disk: u64,
        /// Image.
        image: Seq<char>,
    },
    /// Have the bundles installed.
    ProvisionStart {
        /// Bundles.
        bundles: Seq<Seq<char>>,
        /// Profile of the machine.
        profile: Seq<char>,
        /// Free bytes.
        disk: u64,
        /// Image.
        image: Seq<char>,
    },
    /// Cancel the last request for bundles.
    ProvisionCancel {
        /// The request.
        request_id: Seq<char>,
    },
}

impl View for StudioCall {
    type V = Call;

    open spec fn view(&self) -> Call {
        match self {
            StudioCall::Define { environment, image, workspace, toolchains } => Call::Define {
                environment: environment@,
                image: image@,
                workspace: workspace@,
                toolchains: texts(toolchains@),
            },
            StudioCall::List { environment, directory } => Call::List {
                environment: environment@,
                directory: directory@,
            },
            StudioCall::Read { environment, path } => Call::Read {
                environment: environment@,
                path: path@,
            },
            StudioCall::Write { environment, path, contents } => Call::Write {
                environment: environment@,
                path: path@,
                contents: contents@,
            },
            StudioCall::Git { look, environment, image, workspace, toolchains, job_id } => Call::Git {
                look: *look,
                environment: environment@,
                image: image@,
                workspace: workspace@,
                toolchains: texts(toolchains@),
                job_id: job_id@,
            },
            StudioCall::Build { environment, image, workspace, toolchains, job_id, adapter } => Call::Build {
                environment: environment@,
                image: image@,
                workspace: workspace@,
                toolchains: texts(toolchains@),
                job_id: job_id@,
                adapter: adapter@,
            },
            StudioCall::Test { environment, image, workspace, toolchains, job_id } => Call::Test {
                environment: environment@,
                image: image@,
                workspace: workspace@,
                toolchains: texts(toolchains@),
                job_id: job_id@,
            },
            StudioCall::Describe { job_id } => Call::Describe {
                job_id: job_id@,
            },
            StudioCall::CancelJob { job_id } => Call::CancelJob {
                job_id: job_id@,
            },
            StudioCall::Terminal { workspace } => Call::Terminal {
                workspace: workspace@,
            },
            StudioCall::OpenHost { workspace } => Call::OpenHost {
                workspace: workspace@,
            },
            StudioCall::InstallExtension { source } => Call::InstallExtension {
                source: source@,
            },
            StudioCall::ListExtensions => Call::ListExtensions,
            StudioCall::UninstallExtension { identifier } => Call::UninstallExtension {
                identifier: identifier@,
            },
            StudioCall::ProvisionCatalog => Call::ProvisionCatalog,
            StudioCall::ProvisionStatus => Call::ProvisionStatus,
            StudioCall::ProvisionConnect { start } => Call::ProvisionConnect {
                start: *start,
            },
            StudioCall::ProbeDisk { start, bundles, workspace } => Call::ProbeDisk {
                start: *start,
                bundles: texts(bundles@),
                workspace: workspace@,
            },
            StudioCall::ProvisionPlan { bundles, profile, disk, image } => Call::ProvisionPlan {
                bundles: texts(bundles@),
                profile: profile@,
                disk: *disk,
                image: image@,
            },
            StudioCall::ProvisionStart { bundles, profile, disk, image } => Call::ProvisionStart {
                bundles: texts(bundles@),
                profile: profile@,
                disk: *disk,
                image: image@,
            },
            StudioCall::ProvisionCancel { request_id } => Call::ProvisionCancel {
                request_id: request_id@,
            },
        }
    }
}

/// What a call gave back.
#[derive(Clone, Debug, PartialEq, Eq)]
pub enum StudioReply {
    /// It was done.
    Done,
    /// The entries of a directory.
    Entries(Vec<(String, bool, bool, u64)>),
    /// A file.
    File {
        /// Its path.
        path: String,
        /// Its text.
        contents: String,
    },
    /// A file was replaced.
    Saved {
        /// Its path.
        path: String,
        /// Its size.
        bytes: u64,
    },
    /// A text.
    Text(String),
    /// A number of bytes.
    Bytes(u64),
}

/// The replies that suit a call. Any call may fail.
pub open spec fn suits(call: StudioCall, reply: Result<StudioReply, String>) -> bool {
    reply is Err || match call {
        StudioCall::List { .. } => reply->Ok_0 is Entries,
        StudioCall::Read { .. } => reply->Ok_0 is File,
        StudioCall::Write { .. } => reply->Ok_0 is Saved,
        StudioCall::Define { .. } => reply->Ok_0 is Done,
        StudioCall::CancelJob { .. } => reply->Ok_0 is Done,
        StudioCall::ProvisionConnect { .. } => reply->Ok_0 is Done,
        StudioCall::ProvisionCancel { .. } => reply->Ok_0 is Done,
        StudioCall::ProbeDisk { .. } => reply->Ok_0 is Bytes,
        _ => reply->Ok_0 is Text,
    }
}

/// The identifier of a job.
pub open spec fn job_name(kind: Seq<char>, process: nat, counter: nat) -> Seq<char> {
    "studio-"@ + kind + "-"@ + decimal_of(process) + "-"@ + decimal_of(counter)
}

/// Returns the identifier of a job.
pub fn next_studio_job(kind: &str, process: u32, counter: u64) -> (id: String)
    ensures
        id@ == job_name(kind@, process as nat, counter as nat),
{
    let mut id = join("studio-", kind);
    id.append("-");
    id.append(decimal(process as u64).as_str());
    id.append("-");
    id.append(decimal(counter).as_str());
    id
}

/// The call that looks at the repository.
pub open spec fn git_request(
    screen: Screen,
    look: GitLook,
    job_id: Seq<char>,
    result: Result<Call, Seq<char>>,
) -> bool {
    match environment_complaint(screen.environment_image, screen.workspace_directory) {
        Some(message) => result == Err::<Call, Seq<char>>(message),
        None => match studio_toolchains(screen.environment_toolchains) {
            Err(message) => result == Err::<Call, Seq<char>>(message),
            Ok(toolchains) => result == Ok::<Call, Seq<char>>(
                Call::Git {
                    look,
                    environment: screen.environment_name,
                    image: screen.environment_image,
                    workspace: screen.workspace_directory,
                    toolchains,
                    job_id,
                },
            ),
        },
    }
}

/// The call that takes up the environment.
pub open spec fn register_request(screen: Screen, result: Result<Call, Seq<char>>) -> bool {
    match environment_complaint(screen.environment_image, screen.workspace_directory) {
        Some(message) => result == Err::<Call, Seq<char>>(message),
        None => match studio_toolchains(screen.environment_toolchains) {
            Err(message) => result == Err::<Call, Seq<char>>(message),
            Ok(toolchains) => result == Ok::<Call, Seq<char>>(
                Call::Define {
                    environment: screen.environment_name,
                    image: screen.environment_image,
                    workspace: screen.workspace_directory,
                    toolchains,
                },
            ),
        },
    }
}

/// The call that builds. The toolchains are read before the adapter.
pub open spec fn build_request(
    screen: Screen,
    job_id: Seq<char>,
    result: Result<Call, Seq<char>>,
) -> bool {
    match environment_complaint(screen.environment_image, screen.workspace_directory) {
        Some(message) => result == Err::<Call, Seq<char>>(message),
        None => match studio_toolchains(screen.environment_toolchains) {
            Err(message) => result == Err::<Call, Seq<char>>(message),
            Ok(toolchains) => match result {
                Ok(call) => call matches Call::Build {
                    environment,
                    image,
                    workspace,
                    toolchains: named,
                    job_id: id,
                    adapter,
                } && environment == screen.environment_name && image == screen.environment_image
                    && workspace == screen.workspace_directory && named == toolchains && id
                    == job_id && is_studio_adapter(screen.build_adapter, Ok(adapter)),
                Err(message) => is_studio_adapter(screen.build_adapter, Err(message)),
            },
        },
    }
}

/// The call that tests.
pub open spec fn test_request(
    screen: Screen,
    job_id: Seq<char>,
    result: Result<Call, Seq<char>>,
) -> bool {
    match environment_complaint(screen.environment_image, screen.workspace_directory) {
        Some(message) => result == Err::<Call, Seq<char>>(message),
        None => match studio_toolchains(screen.environment_toolchains) {
            Err(message) => result == Err::<Call, Seq<char>>(message),
            Ok(toolchains) => result == Ok::<Call, Seq<char>>(
                Call::Test {
                    environment: screen.environment_name,
                    image: screen.environment_image,
                    workspace: screen.workspace_directory,
                    toolchains,
                    job_id,
                },
            ),
        },
    }
}

/// The call about files: the environment is checked first, then what was typed.
pub open spec fn file_request(
    screen: Screen,
    complaint: Option<Seq<char>>,
    call: Call,
    result: Result<Call, Seq<char>>,
) -> bool {
    match environment_complaint(screen.environment_image, screen.workspace_directory) {
        Some(message) => result == Err::<Call, Seq<char>>(message),
        None => match complaint {
            Some(message) => result == Err::<Call, Seq<char>>(message),
            None => result == Ok::<Call, Seq<char>>(call),
        },
    }
}

/// The call about something that was submitted before.
pub open spec fn known_request(
    id: Seq<char>,
    complaint: Seq<char>,
    call: Call,
    result: Result<Call, Seq<char>>,
) -> bool {
    result == if id.len() == 0 {
        Err::<Call, Seq<char>>(complaint)
    } else {
        Ok(call)
    }
}

/// What a button asks for first.
pub open spec fn requests(
    screen: Screen,
    action: Seq<char>,
    process: nat,
    counter: nat,
    result: Result<Call, Seq<char>>,
) -> bool {
    if action == "Register"@ {
        register_request(screen, result)
    } else if action == "ListFiles"@ {
        file_request(
            screen,
            directory_complaint(screen.explorer_directory),
            Call::List {
                environment: screen.environment_name,
                directory: screen.explorer_directory,
            },
            result,
        )
    } else if action == "ReadFile"@ {
        file_request(
            screen,
            file_complaint(screen.file_path),
            Call::Read { environment: screen.environment_name, path: screen.file_path },
            result,
        )
    } else if action == "WriteFile"@ {
        file_request(
            screen,
            file_complaint(screen.file_path),
            Call::Write {
                environment: screen.environment_name,
                path: screen.file_path,
                contents: screen.file_content,
            },
            result,
        )
    } else if action == "GitStatus"@ {
        git_request(screen, GitLook::Status, job_name("git-status"@, process, counter), result)
    } else if action == "GitDiff"@ {
        git_request(screen, GitLook::Diff, job_name("git-diff"@, process, counter), result)
    } else if action == "GitHistory"@ {
        git_request(screen, GitLook::History, job_name("git-history"@, process, counter), result)
    } else if action == "RefreshGit"@ {
        known_request(
            screen.git_job_id,
            "no Git status job has been submitted"@,
            Call::Describe { job_id: screen.git_job_id },
            result,
        )
    } else if action == "Build"@ {
        build_request(screen, job_name("build"@, process, counter), result)
    } else if action == "Test"@ {
        test_request(screen, job_name("test"@, process, counter), result)
    } else if action == "RefreshJob"@ {
        known_request(
            screen.job_id,
            "no Studio job has been submitted"@,
            Call::Describe { job_id: screen.job_id },
            result,
        )
    } else if action == "CancelJob"@ {
        known_request(
            screen.job_id,
            "no Studio job has been submitted"@,
            Call::CancelJob { job_id: screen.job_id },
            result,
        )
    } else if action == "Terminal"@ {
        result == Ok::<Call, Seq<char>>(Call::Terminal { workspace: screen.workspace_directory })
    } else if action == "OpenExtensionHost"@ {
        result == Ok::<Call, Seq<char>>(Call::OpenHost { workspace: screen.workspace_directory })
    } else if action == "InstallExtension"@ {
        result == Ok::<Call, Seq<char>>(
            Call::InstallExtension { source: screen.extension_source },
        )
    } else if action == "ListExtensions"@ {
        result == Ok::<Call, Seq<char>>(Call::ListExtensions)
    } else if action == "UninstallExtension"@ {
        result == Ok::<Call, Seq<char>>(
            Call::UninstallExtension { identifier: screen.extension_source },
        )
    } else if action == "ProvisionCatalog"@ {
        result == Ok::<Call, Seq<char>>(Call::ProvisionCatalog)
    } else if action == "ProvisionStatus"@ {
        result == Ok::<Call, Seq<char>>(Call::ProvisionStatus)
    } else if action == "ProvisionPlan"@ {
        result == Ok::<Call, Seq<char>>(Call::ProvisionConnect { start: false })
    } else if action == "ProvisionStart"@ {
        result == Ok::<Call, Seq<char>>(Call::ProvisionConnect { start: true })
    } else if action == "ProvisionCancel"@ {
        known_request(
            screen.provisioning_request_id,
            "no post-install provisioning request is active"@,
            Call::ProvisionCancel { request_id: screen.provisioning_request_id },
            result,
        )
    } else {
        result == Err::<Call, Seq<char>>("unsupported Studio action "@ + debug_form(action))
    }
}

/// A call inside a result.
pub open spec fn call_view(result: Result<StudioCall, String>) -> Result<Call, Seq<char>> {
    match result {
        Ok(call) => Ok(call@),
        Err(message) => Err(message@),
    }
}

/// A button concerns the repository.
pub open spec fn is_git_action(action: Seq<char>) -> bool {
    action == "GitStatus"@ || action == "GitDiff"@ || action == "GitHistory"@ || action
        == "RefreshGit"@
}

fn git_action(action: &str) -> (result: bool)
    ensures
        result == is_git_action(action@),
{
    same(action, "GitStatus") || same(action, "GitDiff") || same(action, "GitHistory") || same(
        action,
        "RefreshGit",
    )
}

/// The screen after a button led to nothing.
pub open spec fn after_failure(screen: Screen, action: Seq<char>, error: Seq<char>) -> Screen {
    Screen {
        git_readout: if is_git_action(action) {
            error
        } else {
            screen.git_readout
        },
        job_readout: error,
        status_message: "Studio action unavailable: "@ + error,
        ..screen
    }
}

/// The screen after a button was carried out.
pub open spec fn after_success(screen: Screen, message: Seq<char>) -> Screen {
    Screen { job_readout: message, status_message: message, ..screen }
}

/// The screen with what the service for bundles wrote. `request` is the request
/// that it names, if it names one.
pub open spec fn with_provision_status(
    screen: Screen,
    status: Seq<char>,
    request: Option<Seq<char>>,
) -> Screen {
    Screen {
        provisioning_request_id: match request {
            Some(id) => id,
            None => screen.provisioning_request_id,
        },
        provisioning_readout: compact(status, 160),
        ..screen
    }
}

/// What a reply leads to: the screen, and the next call where there is one.
pub open spec fn follows(
    screen: Screen,
    action: Seq<char>,
    call: StudioCall,
    reply: Result<StudioReply, String>,
    request: Option<Seq<char>>,
    after: Screen,
    next: Option<Call>,
) -> bool {
    match reply {
        Err(error) => next is None && after == after_failure(screen, action, error@),
        Ok(value) => match call {
            StudioCall::Define { environment, .. } => next is None && after == after_success(
                screen,
                "Environment registered: "@ + environment@,
            ),
            StudioCall::List { .. } => value matches StudioReply::Entries(entries) && next is None
                && after == after_success(
                Screen {
                    explorer_entries: listing(entries@),
                    explorer_readout: decimal_of(entries@.len()) + " entries \u{b7} "@ + (
                    if screen.explorer_directory.len() == 0 {
                        "workspace root"@
                    } else {
                        screen.explorer_directory
                    }),
                    ..screen
                },
                "Workspace listing refreshed \u{b7} "@ + decimal_of(entries@.len()) + " entries"@,
            ),
            StudioCall::Read { .. } => value matches StudioReply::File { path, contents }
                && next is None && after == after_success(
                Screen {
                    file_path: path@,
                    file_content: contents@,
                    file_dirty: false,
                    file_readout: "Loaded "@ + path@ + " \u{b7} "@ + decimal_of(
                        encode_utf8(contents@).len(),
                    ) + " bytes \u{b7} editable UTF-8 text"@,
                    ..screen
                },
                "Loaded workspace file: "@ + path@,
            ),
            StudioCall::Write { .. } => value matches StudioReply::Saved { path, bytes }
                && next is None && after == after_success(
                Screen {
                    file_path: path@,
                    file_dirty: false,
                    file_readout: "Saved "@ + path@ + " \u{b7} "@ + decimal_of(bytes as nat)
                        + " bytes \u{b7} atomic workspace update"@,
                    ..screen
                },
                "Saved workspace file: "@ + path@,
            ),
            StudioCall::Git { look, job_id, .. } => value matches StudioReply::Text(accepted)
                && next is None && after == after_success(
                Screen { git_job_id: job_id@, ..screen },
                (match look {
                    GitLook::Status => "Git status job accepted: "@,
                    GitLook::Diff => "Git diff job accepted: "@,
                    GitLook::History => "Git history job accepted: "@,
                }) + accepted@,
            ),
            StudioCall::Build { job_id, adapter, .. } => value matches StudioReply::Text(accepted)
                && next is None && after == after_success(
                Screen { job_id: job_id@, ..screen },
                adapter@ + " build job accepted: "@ + accepted@,
            ),
            StudioCall::Test { job_id, .. } => value matches StudioReply::Text(accepted)
                && next is None && after == after_success(
                Screen { job_id: job_id@, ..screen },
                "Unit-test job accepted: "@ + accepted@,
            ),
            StudioCall::Describe { .. } => value matches StudioReply::Text(readout)
                && next is None && after == after_success(
                if action == "RefreshGit"@ {
                    Screen { git_readout: readout@, ..screen }
                } else {
                    screen
                },
                readout@,
            ),
            StudioCall::CancelJob { job_id } => next is None && after == after_success(
                screen,
                "Cancellation requested: "@ + job_id@,
            ),
            StudioCall::ProvisionStatus => value matches StudioReply::Text(status) && next is None
                && after == after_success(
                with_provision_status(screen, status@, request),
                status@,
            ),
            StudioCall::ProvisionConnect { start } => match studio_bundles(
                screen.provisioning_bundles,
            ) {
                Ok(bundles) => after == screen && next == Some(
                    Call::ProbeDisk { start, bundles, workspace: screen.workspace_directory },
                ),
                Err(error) => next is None && after == after_failure(screen, action, error),
            },
            StudioCall::ProbeDisk { start, bundles, .. } => value matches StudioReply::Bytes(disk)
                && after == screen && next == Some(
                if start {
                    Call::ProvisionStart {
                        bundles: texts(bundles@),
                        profile: screen.profile,
                        disk,
                        image: screen.provisioning_image,
                    }
                } else {
                    Call::ProvisionPlan {
                        bundles: texts(bundles@),
                        profile: screen.profile,
                        disk,
                        image: screen.provisioning_image,
                    }
                },
            ),
            StudioCall::ProvisionPlan { bundles, disk, .. } => value matches StudioReply::Text(plan)
                && next is None && after == after_success(
                with_provision_status(screen, plan@, request),
                "Post-install plan ready \u{b7} "@ + decimal_of(bundles@.len())
                    + " bundles \u{b7} "@ + decimal_of(disk as nat) + " free bytes observed"@,
            ),
            StudioCall::ProvisionStart { .. } => value matches StudioReply::Text(id)
                && next is None && after == after_success(
                Screen {
                    provisioning_request_id: id@,
                    provisioning_readout:
                        "Downloads accepted after explicit confirmation \u{b7} "@ + id@,
                    ..screen
                },
                "Post-install downloads accepted \u{b7} connect Wi-Fi if status remains waiting-network"@,
            ),
            StudioCall::ProvisionCancel { request_id } => next is None && after == after_success(
                screen,
                "Post-install cancellation requested: "@ + request_id@,
            ),
            _ => value matches StudioReply::Text(text) && next is None && after == after_success(
                screen,
                text@,
            ),
        },
    }
}

/// A call inside an option.
pub open spec fn next_view(next: Option<StudioCall>) -> Option<Call> {
    match next {
        Some(call) => Some(call@),
        None => None,
    }
}

impl StudioScreen {
    fn environment_and_toolchains(&self) -> (result: Result<Vec<String>, String>)
        ensures
            list_view(result) == match environment_complaint(
                self.environment_image@,
                self.workspace_directory@,
            ) {
                Some(message) => Err(message),
                None => studio_toolchains(self.environment_toolchains@),
            },
    {
        match validate_studio_environment(
            self.environment_image.as_str(),
            self.workspace_directory.as_str(),
        ) {
            Ok(_) => parse_studio_toolchains(self.environment_toolchains.as_str()),
            Err(message) => Err(message),
        }
    }

    fn git_call(&self, look: GitLook, job_id: String) -> (result: Result<StudioCall, String>)
        ensures
            git_request(self@, look, job_id@, call_view(result)),
    {
        match self.environment_and_toolchains() {
            Ok(toolchains) => Ok(
                StudioCall::Git {
                    look,
                    environment: self.environment_name.clone(),
                    image: self.environment_image.clone(),
                    workspace: self.workspace_directory.clone(),
                    toolchains,
                    job_id,
                },
            ),
            Err(message) => Err(message),
        }
    }

    fn build_call(&self, job_id: String) -> (result: Result<StudioCall, String>)
        ensures
            build_request(self@, job_id@, call_view(result)),
    {
        match self.environment_and_toolchains() {
            Ok(toolchains) => match parse_studio_build_adapter(self.build_adapter.as_str()) {
                Ok(adapter) => Ok(
                    StudioCall::Build {
                        environment: self.environment_name.clone(),
                        image: self.environment_image.clone(),
                        workspace: self.workspace_directory.clone(),
                        toolchains,
                        job_id,
                        adapter,
                    },
                ),
                Err(message) => Err(message),
            },
            Err(message) => Err(message),
        }
    }

    fn file_check(&self) -> (result: Result<(), String>)
        ensures
            complains(
                result,
                match environment_complaint(self.environment_image@, self.workspace_directory@) {
                    Some(message) => Some(message),
                    None => file_complaint(self.file_path@),
                },
            ),
    {
        match validate_studio_environment(
            self.environment_image.as_str(),
            self.workspace_directory.as_str(),
        ) {
            Ok(_) => validate_studio_file_path(self.file_path.as_str()),
            Err(message) => Err(message),
        }
    }

    /// Decides what a button asks for first. `process` and `counter` tell jobs
    /// apart.
    pub fn handle_studio_action(&self, action: &str, process: u32, counter: u64) -> (result: Result<
        StudioCall,
        String,
    >)
        ensures
            requests(self@, action@, process as nat, counter as nat, call_view(result)),
    {
        if same(action, "Register") {
            match self.environment_and_toolchains() {
                Ok(toolchains) => Ok(
                    StudioCall::Define {
                        environment: self.environment_name.clone(),
                        image: self.environment_image.clone(),
                        workspace: self.workspace_directory.clone(),
                        toolchains,
                    },
                ),
                Err(message) => Err(message),
            }
        } else if same(action, "ListFiles") {
            match validate_studio_environment(
                self.environment_image.as_str(),
                self.workspace_directory.as_str(),
            ) {
                Ok(_) => match validate_studio_directory(self.explorer_directory.as_str()) {
                    Ok(_) => Ok(
                        StudioCall::List {
                            environment: self.environment_name.clone(),
                            directory: self.explorer_directory.clone(),
                        },
                    ),
                    Err(message) => Err(message),
                },
                Err(message) => Err(message),
            }
        } else if same(action, "ReadFile") {
            match self.file_check() {
                Ok(_) => Ok(
                    StudioCall::Read {
                        environment: self.environment_name.clone(),
                        path: self.file_path.clone(),
                    },
                ),
                Err(message) => Err(message),
            }
        } else if same(action, "WriteFile") {
            match self.file_check() {
                Ok(_) => Ok(
                    StudioCall::Write {
                        environment: self.environment_name.clone(),
                        path: self.file_path.clone(),
                        contents: self.file_content.clone(),
                    },
                ),
                Err(message) => Err(message),
            }
        } else if same(action, "GitStatus") {
            self.git_call(GitLook::Status, next_studio_job("git-status", process, counter))
        } else if same(action, "GitDiff") {
            self.git_call(GitLook::Diff, next_studio_job("git-diff", process, counter))
        } else if same(action, "GitHistory") {
            self.git_call(GitLook::History, next_studio_job("git-history", process, counter))
        } else if same(action, "RefreshGit") {
            if self.git_job_id.as_str().is_empty() {
                Err("no Git status job has been submitted".to_owned())
            } else {
                Ok(StudioCall::Describe { job_id: self.git_job_id.clone() })
            }
        } else if same(action, "Build") {
            self.build_call(next_studio_job("build", process, counter))
        } else if same(action, "Test") {
            match self.environment_and_toolchains() {
                Ok(toolchains) => Ok(
                    StudioCall::Test {
                        environment: self.environment_name.clone(),
                        image: self.environment_image.clone(),
                        workspace: self.workspace_directory.clone(),
                        toolchains,
                        job_id: next_studio_job("test", process, counter),
                    },
                ),
                Err(message) => Err(message),
            }
        } else if same(action, "RefreshJob") {
            if self.job_id.as_str().is_empty() {
                Err("no Studio job has been submitted".to_owned())
            } else {
                Ok(StudioCall::Describe { job_id: self.job_id.clone() })
            }
        } else if same(action, "CancelJob") {
            if self.job_id.as_str().is_empty() {
                Err("no Studio job has been submitted".to_owned())
            } else {
                Ok(StudioCall::CancelJob { job_id: self.job_id.clone() })
            }
        } else if same(action, "Terminal") {
            Ok(StudioCall::Terminal { workspace: self.workspace_directory.clone() })
        } else if same(action, "OpenExtensionHost") {
            Ok(StudioCall::OpenHost { workspace: self.workspace_directory.clone() })
        } else if same(action, "InstallExtension") {
            Ok(StudioCall::InstallExtension { source: self.extension_source.clone() })
        } else if same(action, "ListExtensions") {
            Ok(StudioCall::ListExtensions)
        } else if same(action, "UninstallExtension") {
            Ok(StudioCall::UninstallExtension { identifier: self.extension_source.clone() })
        } else if same(action, "ProvisionCatalog") {
            Ok(StudioCall::ProvisionCatalog)
        } else if same(action, "ProvisionStatus") {
            Ok(StudioCall::ProvisionStatus)
        } else if same(action, "ProvisionPlan") {
            Ok(StudioCall::ProvisionConnect { start: false })
        } else if same(action, "ProvisionStart") {
            Ok(StudioCall::ProvisionConnect { start: true })
        } else if same(action, "ProvisionCancel") {
            if self.provisioning_request_id.as_str().is_empty() {
                Err("no post-install provisioning request is active".to_owned())
            } else {
                Ok(
                    StudioCall::ProvisionCancel {
                        request_id: self.provisioning_request_id.clone(),
                    },
                )
            }
        } else {
            Err(join("unsupported Studio action ", debug_text(action).as_str()))
        }
    }

    /// Shows that a button led to nothing.
    pub fn show_failure(&mut self, action: &str, error: &str)
        ensures
            final(self)@ == after_failure(old(self)@, action@, error@),
    {
        let ghost before = self@;
        if git_action(action) {
            self.git_readout = error.to_owned();
        }
        self.job_readout = error.to_owned();
        self.status_message = join("Studio action unavailable: ", error);
        assert(self@ =~= after_failure(before, action@, error@));
    }

    fn show_success(&mut self, message: String)
        ensures
            final(self)@ == after_success(old(self)@, message@),
    {
        let ghost before = self@;
        self.job_readout = message.clone();
        self.status_message = message;
        assert(self@ =~= after_success(before, message@));
    }

    /// Shows what the service for bundles wrote. `request` is the request that
    /// it names, if it names one.
    pub fn update_provision_status(&mut self, status: &str, request: Option<String>)
        ensures
            final(self)@ == with_provision_status(old(self)@, status@, optional_text(request)),
    {
        let ghost before = self@;
        let ghost named = optional_text(request);
        match request {
            Some(id) => {
                self.provisioning_request_id = id;
            },
            None => {},
        }
        self.provisioning_readout = compact_readout(status, 160);
        assert(self@ =~= with_provision_status(before, status@, named));
    }

    /// Shows what a reply leads to, and decides what is called next. `request`
    /// is the request that a reply of the service for bundles names.
    pub fn apply_reply(
        &mut self,
        action: &str,
        call: &StudioCall,
        reply: Result<StudioReply, String>,
        request: Option<String>,
    ) -> (next: Option<StudioCall>)
        requires
            suits(*call, reply),
        ensures
            follows(
                old(self)@,
                action@,
                *call,
                reply,
                optional_text(request),
                final(self)@,
                next_view(next),
            ),
    {
        let ghost before = self@;
        let value = match reply {
            Ok(value) => value,
            Err(error) => {
                self.show_failure(action, error.as_str());
                return None;
            },
        };
        match call {
            StudioCall::Define { environment, .. } => {
                self.show_success(join("Environment registered: ", environment.as_str()));
                None
            },
            StudioCall::List { .. } => {
                if let StudioReply::Entries(entries) = value {
                    self.show_entries(&entries);
                }
                None
            },
            StudioCall::Read { .. } => {
                if let StudioReply::File { path, contents } = value {
                    self.show_file(path, contents);
                }
                None
            },
            StudioCall::Write { .. } => {
                if let StudioReply::Saved { path, bytes } = value {
                    self.show_saved(path, bytes);
                }
                None
            },
            StudioCall::Git { look, job_id, .. } => {
                if let StudioReply::Text(accepted) = value {
                    self.git_job_id = job_id.clone();
                    assert(self@ =~= (Screen { git_job_id: job_id@, ..before }));
                    let lead: &str = match look {
                        GitLook::Status => "Git status job accepted: ",
                        GitLook::Diff => "Git diff job accepted: ",
                        GitLook::History => "Git history job accepted: ",
                    };
                    self.show_success(join(lead, accepted.as_str()));
                }
                None
            },
            StudioCall::Build { job_id, adapter, .. } => {
                if let StudioReply::Text(accepted) = value {
                    self.job_id = job_id.clone();
                    assert(self@ =~= (Screen { job_id: job_id@, ..before }));
                    let mut message = join(adapter.as_str(), " build job accepted: ");
                    message.append(accepted.as_str());
                    self.show_success(message);
                }
                None
            },
            StudioCall::Test { job_id, .. } => {
                if let StudioReply::Text(accepted) = value {
                    self.job_id = job_id.clone();
                    assert(self@ =~= (Screen { job_id: job_id@, ..before }));
                    self.show_success(join("Unit-test job accepted: ", accepted.as_str()));
                }
                None
            },
            StudioCall::Describe { .. } => {
                if let StudioReply::Text(readout) = value {
                    if same(action, "RefreshGit") {
                        self.git_readout = readout.clone();
                        assert(self@ =~= (Screen { git_readout: readout@, ..before }));
                    }
                    self.show_success(readout);
                }
                None
            },
            StudioCall::CancelJob { job_id } => {
                self.show_success(join("Cancellation requested: ", job_id.as_str()));
                None
            },
            StudioCall::ProvisionStatus => {
                if let StudioReply::Text(status) = value {
                    self.update_provision_status(status.as_str(), request);
                    self.show_success(status);
                }
                None
            },
            StudioCall::ProvisionConnect { start } => match parse_provision_bundles(
                self.provisioning_bundles.as_str(),
            ) {
                Ok(bundles) => Some(
                    StudioCall::ProbeDisk {
                        start: *start,
                        bundles,
                        workspace: self.workspace_directory.clone(),
                    },
                ),
                Err(error) => {
                    self.show_failure(action, error.as_str());
                    None
                },
            },
            StudioCall::ProbeDisk { start, bundles, .. } => {
                if let StudioReply::Bytes(disk) = value {
                    if *start {
                        Some(
                            StudioCall::ProvisionStart {
                                bundles: copy_texts(bundles),
                                profile: self.profile.clone(),
                                disk,
                                image: self.provisioning_image.clone(),
                            },
                        )
                    } else {
                        Some(
                            StudioCall::ProvisionPlan {
                                bundles: copy_texts(bundles),
                                profile: self.profile.clone(),
                                disk,
                                image: self.provisioning_image.clone(),
                            },
                        )
                    }
                } else {
                    None
                }
            },
            StudioCall::ProvisionPlan { bundles, disk, .. } => {
                if let StudioReply::Text(plan) = value {
                    self.update_provision_status(plan.as_str(), request);
                    let mut message = join(
                        "Post-install plan ready \u{b7} ",
                        decimal(bundles.len() as u64).as_str(),
                    );
                    message.append(" bundles \u{b7} ");
                    message.append(decimal(*disk).as_str());
                    message.append(" free bytes observed");
                    self.show_success(message);
                }
                None
            },
            StudioCall::ProvisionStart { .. } => {
                if let StudioReply::Text(id) = value {
                    self.provisioning_readout = join(
                        "Downloads accepted after explicit confirmation \u{b7} ",
                        id.as_str(),
                    );
                    self.provisioning_request_id = id;
                    assert(self@ =~= (Screen {
                        provisioning_request_id: id@,
                        provisioning_readout:
                            "Downloads accepted after explicit confirmation \u{b7} "@ + id@,
                        ..before
                    }));
                    self.show_success(
                        "Post-install downloads accepted \u{b7} connect Wi-Fi if status remains waiting-network".to_owned(),
                    );
                }
                None
            },
            StudioCall::ProvisionCancel { request_id } => {
                self.show_success(
                    join("Post-install cancellation requested: ", request_id.as_str()),
                );
                None
            },
            _ => {
                if let StudioReply::Text(text) = value {
                    self.show_success(text);
                }
                None
            },
        }
    }

    fn show_entries(&mut self, entries: &Vec<(String, bool, bool, u64)>)
        ensures
            final(self)@ == after_success(
                Screen {
                    explorer_entries: listing(entries@),
                    explorer_readout: decimal_of(entries@.len()) + " entries \u{b7} "@ + (
                    if old(self)@.explorer_directory.len() == 0 {
                        "workspace root"@
                    } else {
                        old(self)@.explorer_directory
                    }),
                    ..old(self)@
                },
                "Workspace listing refreshed \u{b7} "@ + decimal_of(entries@.len()) + " entries"@,
            ),
    {
        let ghost before = self@;
        let count = decimal(entries.len() as u64);
        let mut readout = join(count.as_str(), " entries \u{b7} ");
        if self.explorer_directory.as_str().is_empty() {
            readout.append("workspace root");
        } else {
            readout.append(self.explorer_directory.as_str());
        }
        self.explorer_entries = format_workspace_entries(entries.as_slice());
        self.explorer_readout = readout;
        assert(self@ =~= (Screen {
            explorer_entries: listing(entries@),
            explorer_readout: readout@,
            ..before
        }));
        let mut message = join("Workspace listing refreshed \u{b7} ", count.as_str());
        message.append(" entries");
        self.show_success(message);
    }

    fn show_file(&mut self, path: String, contents: String)
        ensures
            final(self)@ == after_success(
                Screen {
                    file_path: path@,
                    file_content: contents@,
                    file_dirty: false,
                    file_readout: "Loaded "@ + path@ + " \u{b7} "@ + decimal_of(
                        encode_utf8(contents@).len(),
                    ) + " bytes \u{b7} editable UTF-8 text"@,
                    ..old(self)@
                },
                "Loaded workspace file: "@ + path@,
            ),
    {
        let ghost before = self@;
        let mut readout = join("Loaded ", path.as_str());
        readout.append(" \u{b7} ");
        readout.append(decimal(byte_len(contents.as_str()) as u64).as_str());
        readout.append(" bytes \u{b7} editable UTF-8 text");
        let message = join("Loaded workspace file: ", path.as_str());
        self.file_path = path;
        self.file_content = contents;
        self.file_dirty = false;
        self.file_readout = readout;
        assert(self@ =~= (Screen {
            file_path: path@,
            file_content: contents@,
            file_dirty: false,
            file_readout: readout@,
            ..before
        }));
        self.show_success(message);
    }

    fn show_saved(&mut self, path: String, bytes: u64)
        ensures
            final(self)@ == after_success(
                Screen {
                    file_path: path@,
                    file_dirty: false,
                    file_readout: "Saved "@ + path@ + " \u{b7} "@ + decimal_of(bytes as nat)
                        + " bytes \u{b7} atomic workspace update"@,
                    ..old(self)@
                },
                "Saved workspace file: "@ + path@,
            ),
    {
        let ghost before = self@;
        let mut readout = join("Saved ", path.as_str());
        readout.append(" \u{b7} ");
        readout.append(decimal(bytes).as_str());
        readout.append(" bytes \u{b7} atomic workspace update");
        let message = join("Saved workspace file: ", path.as_str());
        self.file_path = path;
        self.file_dirty = false;
        self.file_readout = readout;
        assert(self@ =~= (Screen {
            file_path: path@,
            file_dirty: false,
            file_readout: readout@,
            ..before
        }));
        self.show_success(message);
    }

    /// Shows what a reply leads to, and decides what is called next.
    pub fn handle_reply(
        &mut self,
        action: &str,
        call: &StudioCall,
        reply: Result<StudioReply, String>,
    ) -> (next: Option<StudioCall>)
        requires
            suits(*call, reply),
        ensures
            follows(
                old(self)@,
                action@,
                *call,
                reply,
                named_request(*call, reply),
                final(self)@,
                next_view(next),
            ),
    {
        let request = match (call, &reply) {
            (
                StudioCall::ProvisionStatus | StudioCall::ProvisionPlan { .. },
                Ok(StudioReply::Text(text)),
            ) => json_member(text.as_str(), "state", "request_id"),
            _ => None,
        };
        self.apply_reply(action, call, reply, request)
    }
}

/// The request that a status or a plan of the service for bundles names.
pub open spec fn named_request(call: StudioCall, reply: Result<StudioReply, String>) -> Option<
    Seq<char>,
> {
    match (call, reply) {
        (
            StudioCall::ProvisionStatus | StudioCall::ProvisionPlan { .. },
            Ok(StudioReply::Text(text)),
        ) => json_member_of(text@, "state"@, "request_id"@),
        _ => None,
    }
}

/// A failure leaves everything on the screen but the words about it.
pub proof fn failures_change_nothing_else(screen: Screen, action: Seq<char>, error: Seq<char>)
    ensures
        after_failure(screen, action, error) == (Screen {
            git_readout: after_failure(screen, action, error).git_readout,
            job_readout: error,
            status_message: "Studio action unavailable: "@ + error,
            ..screen
        }),
        !is_git_action(action) ==> after_failure(screen, action, error).git_readout
            == screen.git_readout,
{
}

/// Bundles are installed only by the button that says so, and only after the
/// room on the disk was found out.
pub proof fn downloads_need_their_button(
    screen: Screen,
    action: Seq<char>,
    process: nat,
    counter: nat,
    call: Call,
)
    requires
        requests(screen, action, process, counter, Ok(call)),
    ensures
        !(call is ProvisionStart),
        call matches Call::ProvisionConnect { start } ==> start ==> action == "ProvisionStart"@,
{
    reveal_strlit("ProvisionPlan");
    reveal_strlit("ProvisionStart");
    assert("ProvisionPlan"@.len() == 13);
    assert("ProvisionStart"@.len() == 14);
}

/// Whether a word of a list names the toolchain with a label.
pub open spec fn is_named_among(parts: Seq<Seq<char>>, label: Seq<char>) -> bool {
    exists|i: int|
        0 <= i < parts.len() && toolchain_named(word_of(#[trigger] parts[i])) is Some
            && toolchain_named(word_of(parts[i]))->0.label() == label
}

/// Everything that is chosen was named, once or more often, and everything that was
/// named is chosen, once; a word that names no toolchain is refused.
proof fn lemma_toolchain_words(parts: Seq<Seq<char>>)
    ensures
        toolchain_words(parts) matches Words::Chosen(list) ==> {
            &&& list.no_duplicates()
            &&& forall|i: int|
                0 <= i < parts.len() && word_of(#[trigger] parts[i]).len() > 0 ==> toolchain_named(
                    word_of(parts[i]),
                ) is Some && list.contains(toolchain_named(word_of(parts[i]))->0.label())
            &&& forall|k: int| 0 <= k < list.len() ==> is_named_among(parts, #[trigger] list[k])
        },
        toolchain_words(parts) matches Words::Refused(word) ==> toolchain_named(word) is None
            && exists|i: int| 0 <= i < parts.len() && word_of(#[trigger] parts[i]) == word,
    decreases parts.len(),
{
    if parts.len() > 0 {
        let before = parts.drop_last();
        lemma_toolchain_words(before);
        let last = parts.len() - 1;
        assert(parts[last] == parts.last());
        if let Words::Refused(word) = toolchain_words(before) {
            let i = choose|i: int|
                0 <= i < before.len() && word_of(#[trigger] before[i]) == word;
            assert(parts[i] == before[i]);
        }
        if let Words::Chosen(old_list) = toolchain_words(before) {
            if let Words::Chosen(list) = toolchain_words(parts) {
                assert forall|x: Seq<char>| old_list.contains(x) implies list.contains(x) by {
                    let k = choose|k: int| 0 <= k < old_list.len() && old_list[k] == x;
                    assert(list[k] == x);
                }
                assert forall|i: int|
                    0 <= i < parts.len() && word_of(
                        #[trigger] parts[i],
                    ).len() > 0 implies toolchain_named(word_of(parts[i])) is Some && list.contains(
                    toolchain_named(word_of(parts[i]))->0.label(),
                ) by {
                    if i < last {
                        assert(before[i] == parts[i]);
                    } else if !old_list.contains(toolchain_named(word_of(parts[i]))->0.label()) {
                        assert(list.last() == toolchain_named(word_of(parts[i]))->0.label());
                        assert(list[list.len() - 1] == list.last());
                    }
                }
                assert forall|k: int| 0 <= k < list.len() implies is_named_among(
                    parts,
                    #[trigger] list[k],
                ) by {
                    if k < old_list.len() {
                        assert(old_list[k] == list[k]);
                        assert(is_named_among(before, old_list[k]));
                        let i = choose|i: int|
                            0 <= i < before.len() && toolchain_named(
                                word_of(#[trigger] before[i]),
                            ) is Some && toolchain_named(word_of(before[i]))->0.label()
                                == old_list[k];
                        assert(before[i] == parts[i]);
                    } else {
                        assert(toolchain_named(word_of(parts[last])) is Some);
                    }
                }
            }
        }
    }
}

/// The toolchains of a list are those that its words name, each once, and a list is
/// accepted only where every word names one.
pub proof fn toolchain_lists_name_toolchains(value: Seq<char>, i: int)
    requires
        0 <= i < pieces(value, ',').len(),
    ensures
        studio_toolchains(value) matches Ok(list) ==> {
            let word = lowered(trimmed(pieces(value, ',')[i]));
            &&& list.len() > 0
            &&& list.no_duplicates()
            &&& word.len() > 0 ==> toolchain_named(word) is Some && list.contains(
                toolchain_named(word)->0.label(),
            )
            &&& forall|k: int|
                0 <= k < list.len() ==> is_named_among(pieces(value, ','), #[trigger] list[k])
        },
        (forall|k: int|
            0 <= k < pieces(value, ',').len() ==> toolchain_named(
                word_of(#[trigger] pieces(value, ',')[k]),
            ) is Some) ==> studio_toolchains(value) is Ok,
{
    let parts = pieces(value, ',');
    lemma_toolchain_words(parts);
    if forall|k: int|
        0 <= k < parts.len() ==> toolchain_named(word_of(#[trigger] parts[k])) is Some {
        if let Words::Refused(word) = toolchain_words(parts) {
            let k = choose|k: int| 0 <= k < parts.len() && word_of(#[trigger] parts[k]) == word;
            assert(toolchain_named(word_of(parts[k])) is Some);
        }
        if let Words::Chosen(list) = toolchain_words(parts) {
            reveal_strlit("rust");
            reveal_strlit("go");
            reveal_strlit("python");
            reveal_strlit("node");
            reveal_strlit("nodejs");
            reveal_strlit("flutter");
            reveal_strlit("dart");
            reveal_strlit("android");
            reveal_strlit("android-sdk");
            reveal_strlit("java");
            reveal_strlit("qt");
            reveal_strlit("cmake");
            reveal_strlit("c-cpp");
            assert(word_of(parts[i]).len() > 0);
            assert(list.contains(toolchain_named(word_of(parts[i]))->0.label()));
            let at = choose|at: int|
                0 <= at < list.len() && list[at] == toolchain_named(
                    word_of(parts[i]),
                )->0.label();
            assert(list.len() > 0);
        }
    }
}

/// Every word of a list of bundles is in it, in lower case and without white space,
/// and nothing but letters, digits and dashes is let through. The platform of the
/// phone goes by the name of its kit.
proof fn lemma_bundle_words_are_chosen(parts: Seq<Seq<char>>)
    ensures
        bundle_words(parts) matches Words::Chosen(list) ==> {
            &&& forall|i: int|
                0 <= i < parts.len() && word_of(#[trigger] parts[i]).len() > 0 ==> list.contains(
                    bundle_named(word_of(parts[i])),
                )
            &&& forall|k: int, c: int|
                0 <= k < list.len() && 0 <= c < list[k].len() ==> is_bundle_char(
                    #[trigger] list[k][c],
                )
            &&& list.len() <= parts.len()
        },
    decreases parts.len(),
{
    if parts.len() > 0 {
        let before = parts.drop_last();
        lemma_bundle_words_are_chosen(before);
        let last = parts.len() - 1;
        assert(parts[last] == parts.last());
        if let Words::Chosen(old_list) = bundle_words(before) {
            if let Words::Chosen(list) = bundle_words(parts) {
                assert forall|x: Seq<char>| old_list.contains(x) implies list.contains(x) by {
                    let k = choose|k: int| 0 <= k < old_list.len() && old_list[k] == x;
                    assert(list[k] == x);
                }
                assert forall|i: int|
                    0 <= i < parts.len() && word_of(
                        #[trigger] parts[i],
                    ).len() > 0 implies list.contains(bundle_named(word_of(parts[i]))) by {
                    if i < last {
                        assert(before[i] == parts[i]);
                    } else if !old_list.contains(bundle_named(word_of(parts[i]))) {
                        assert(list[list.len() - 1] == bundle_named(word_of(parts[i])));
                    }
                }
                assert forall|k: int, c: int|
                    0 <= k < list.len() && 0 <= c < list[k].len() implies is_bundle_char(
                    #[trigger] list[k][c],
                ) by {
                    if k < old_list.len() {
                        assert(list[k] == old_list[k]);
                        assert(is_bundle_char(old_list[k][c]));
                    } else {
                        let id = bundle_named(word_of(parts[last]));
                        assert(list[k] == id);
                        assert(is_bundle_char(id[c]));
                    }
                }
            }
        }
    }
}

/// The bundles of a list are those that its words name, and every one is a plain
/// identifier.
pub proof fn bundle_lists_name_their_bundles(value: Seq<char>, i: int, k: int, c: int)
    requires
        0 <= i < pieces(value, ',').len(),
    ensures
        studio_bundles(value) matches Ok(list) ==> {
            let word = lowered(trimmed(pieces(value, ',')[i]));
            &&& word.len() > 0 && word != "android"@ ==> list.contains(word)
            &&& word == "android"@ ==> list.contains("android-sdk"@)
            &&& 0 <= k < list.len() && 0 <= c < list[k].len() ==> is_lower(list[k][c]) || is_digit(
                list[k][c],
            ) || list[k][c] == '-'
        },
{
    lemma_bundle_words_are_chosen(pieces(value, ','));
    reveal_strlit("android");
    if let Ok(list) = studio_bundles(value) {
        if 0 <= k < list.len() && 0 <= c < list[k].len() {
            assert(is_bundle_char(list[k][c]));
        }
    }
}

/// An adapter is accepted exactly where its word is that of an adapter, and is
/// handed on as that word.
pub proof fn adapters_go_by_their_words(
    value: Seq<char>,
    adapter: BuildAdapter,
    result: Result<Seq<char>, Seq<char>>,
)
    requires
        is_studio_adapter(value, result),
    ensures
        lowered(trimmed(value)) == adapter.label() ==> result == Ok::<Seq<char>, Seq<char>>(
            adapter.label(),
        ),
        result matches Ok(word) ==> word == lowered(trimmed(value)) && exists|known: BuildAdapter| #[trigger]
            known.label() == word,
{
}

/// Work needs an image and a workspace, a file a path within it, and a directory
/// one that is not absolute.
pub proof fn fields_are_needed(image: Seq<char>, workspace: Seq<char>, path: Seq<char>)
    ensures
        environment_complaint(image, workspace) is None <==> (exists|i: int|
            0 <= i < image.len() && !is_white_space(#[trigger] image[i])) && (exists|i: int|
            0 <= i < workspace.len() && !is_white_space(#[trigger] workspace[i])),
        file_complaint(path) is None <==> path[0] != '/' && exists|i: int|
            0 <= i < path.len() && !is_white_space(#[trigger] path[i]),
        directory_complaint(path) is None <==> !(path.len() > 0 && path[0] == '/'),
{
    trimmed_keeps_the_middle(image);
    trimmed_keeps_the_middle(workspace);
    trimmed_keeps_the_middle(path);
}

/// A directory is marked as one, a link as one, and only a plain file has a size.
pub proof fn entries_are_marked(name: String, directory: bool, symlink: bool, bytes: u64)
    ensures
        entry_line((name, true, false, bytes)) == "\u{25be}"@ + " "@ + name@,
        entry_line((name, true, true, bytes)) == "\u{25be}"@ + " "@ + name@ + " \u{2197}"@,
        entry_line((name, false, true, bytes)) == "\u{b7}"@ + " "@ + name@ + " \u{2197}"@,
        entry_line((name, false, false, bytes)) == "\u{b7}"@ + " "@ + name@ + (" \u{b7} "@
            + decimal_of(bytes as nat) + " B"@),
{
    reveal_strlit("");
    let nothing = ""@;
    assert(nothing.len() == 0);
    let marked = "\u{25be}"@ + " "@ + name@;
    let plain = "\u{b7}"@ + " "@ + name@;
    let linked = " \u{2197}"@;
    let size = " \u{b7} "@ + decimal_of(bytes as nat) + " B"@;
    assert(marked + nothing + nothing =~= marked);
    assert(marked + linked + nothing =~= marked + linked);
    assert(plain + linked + nothing =~= plain + linked);
    assert(plain + nothing + size =~= plain + size);
}

/// A listing has a line for each entry, in order.
pub proof fn listings_have_a_line_for_each_entry(
    entries: Seq<(String, bool, bool, u64)>,
    entry: (String, bool, bool, u64),
)
    ensures
        listing(Seq::empty()) == "Workspace directory is empty"@,
        listing(seq![entry]) == entry_line(entry),
        entries.len() > 0 ==> listing(entries.push(entry)) == listing(entries) + "\n"@ + entry_line(
            entry,
        ),
{
    assert(entries.push(entry).drop_last() =~= entries);
}

/// A job is read out with its name, its state, its code, the time it took and the
/// size of its log. What was cut off, an error and the log itself follow where
/// there are any.
pub proof fn jobs_are_read_out(status: JobStatusView, log: JobLogView)
    ensures
        ({
            let text = trimmed(lossy_form(log.bytes@));
            let lead = status.id@ + " \u{b7} "@ + status.lifecycle@ + " \u{b7} exit "@ + (
            match status.exit_code {
                Some(code) => signed_decimal_of(code as int),
                None => "pending"@,
            }) + " \u{b7} "@ + decimal_of(status.duration_millis as nat) + " ms \u{b7} log "@
                + decimal_of(log.total_bytes as nat) + " bytes ("@;
            &&& lead.is_prefix_of(job_line(status, log))
            &&& log.end_of_file && !status.output_truncated && status.error is None && text.len()
                == 0 ==> job_line(status, log) == lead + "complete"@ + ")"@
            &&& !log.end_of_file && !status.output_truncated && status.error is None && text.len()
                == 0 ==> job_line(status, log) == lead + "partial"@ + ")"@
            &&& log.end_of_file && status.output_truncated && status.error is None && text.len()
                == 0 ==> job_line(status, log) == lead + "complete"@ + ")"@
                + " \u{b7} output truncated"@
            &&& log.end_of_file && !status.output_truncated && text.len() == 0 ==> (
            status.error matches Some(message) ==> job_line(status, log) == lead + "complete"@
                + ")"@ + (" \u{b7} error: "@ + message@))
            &&& status.error is None && text.len() > 0 ==> ("\n"@ + text).is_suffix_of(
                job_line(status, log),
            )
        }),
{
    let text = trimmed(lossy_form(log.bytes@));
    let lead = status.id@ + " \u{b7} "@ + status.lifecycle@ + " \u{b7} exit "@ + (
    match status.exit_code {
        Some(code) => signed_decimal_of(code as int),
        None => "pending"@,
    }) + " \u{b7} "@ + decimal_of(status.duration_millis as nat) + " ms \u{b7} log "@ + decimal_of(
        log.total_bytes as nat,
    ) + " bytes ("@;
    let complete = if log.end_of_file {
        "complete"@
    } else {
        "partial"@
    };
    let cut = if status.output_truncated {
        " \u{b7} output truncated"@
    } else {
        ""@
    };
    let rest = match status.error {
        Some(message) => if text.len() == 0 {
            " \u{b7} error: "@ + message@
        } else {
            " \u{b7} error: "@ + message@ + "\n"@ + text
        },
        None => if text.len() == 0 {
            ""@
        } else {
            "\n"@ + text
        },
    };
    assert(job_line(status, log) == lead + complete + ")"@ + cut + rest);
    lines_in_parts(lead, complete, cut, rest);
    reveal_strlit("");
    assert(""@.len() == 0);
}

proof fn lines_in_parts(
    lead: Seq<char>,
    complete: Seq<char>,
    cut: Seq<char>,
    rest: Seq<char>,
)
    ensures
        lead.is_prefix_of(lead + complete + ")"@ + cut + rest),
        rest.is_suffix_of(lead + complete + ")"@ + cut + rest),
        rest.len() == 0 ==> lead + complete + ")"@ + cut + rest == lead + complete + ")"@ + cut,
        cut.len() == 0 ==> lead + complete + ")"@ + cut + rest == lead + complete + ")"@ + rest,
        cut.len() == 0 && rest.len() == 0 ==> lead + complete + ")"@ + cut + rest == lead + complete
            + ")"@,
{
    let line = lead + complete + ")"@ + cut + rest;
    assert(line.take(lead.len() as int) =~= lead);
    assert(line.skip(line.len() - rest.len()) =~= rest);
    assert(line.subrange(line.len() - rest.len(), line.len() as int) =~= rest);
    if rest.len() == 0 {
        assert(line =~= lead + complete + ")"@ + cut);
    }
    if cut.len() == 0 {
        assert(line =~= lead + complete + ")"@ + rest);
    }
    if cut.len() == 0 && rest.len() == 0 {
        assert(line =~= lead + complete + ")"@);
    }
}

/// The free room is the number on the last line that has one, and the question for
/// it is put for the workspace or for the root.
pub proof fn free_room_is_the_last_number(list: Seq<Seq<char>>, line: Seq<char>, path: Seq<char>)
    ensures
        last_number(Seq::empty()) is None,
        parsed_number(trimmed(line), u64::MAX as nat) matches Some(number) ==> last_number(
            list.push(line),
        ) == Some(number),
        parsed_number(trimmed(line), u64::MAX as nat) is None ==> last_number(list.push(line))
            == last_number(list),
        probe_argv(path) == seq!["/usr/bin/df"@, "-B1"@, "--output=avail"@, "--"@, path],
        probed_path(path, false) == "/"@,
        probed_path(path, true) == "/"@ || probed_path(path, true) == trimmed(path),
        is_absolute(path) ==> probed_path(path, true) == trimmed(path),
{
    assert(list.push(line).drop_last() =~= list);
    if is_absolute(path) {
        trimmed_keeps_the_middle(path);
        if trimmed(path).len() == 0 {
            assert(is_white_space(path[0]));
        }
    }
}

/// Jobs of one kind have names of their own.
pub proof fn jobs_have_names_of_their_own(kind: Seq<char>, p: nat, c: nat, q: nat, d: nat)
    ensures
        job_name(kind, p, c) == job_name(kind, q, d) ==> p == q && c == d,
        ("studio-"@ + kind + "-"@).is_prefix_of(job_name(kind, p, c)),
{
    let lead = "studio-"@ + kind + "-"@;
    reveal_strlit("-");
    assert("-"@ =~= seq!['-']);
    decimals_are_digits(p);
    decimals_are_digits(q);
    decimals_say_their_number(p, 0);
    decimals_say_their_number(q, 0);
    decimals_say_their_number(c, 0);
    decimals_say_their_number(d, 0);
    let a = decimal_of(p).push('-') + decimal_of(c);
    let b = decimal_of(q).push('-') + decimal_of(d);
    assert(job_name(kind, p, c) =~= lead + a);
    assert(job_name(kind, q, d) =~= lead + b);
    assert((lead + a).skip(lead.len() as int) =~= a);
    assert((lead + b).skip(lead.len() as int) =~= b);
    assert((lead + a).take(lead.len() as int) =~= lead);
    assert(!decimal_of(p).contains('-')) by {
        if decimal_of(p).contains('-') {
            let k = choose|k: int| 0 <= k < decimal_of(p).len() && decimal_of(p)[k] == '-';
            assert(is_digit(decimal_of(p)[k]));
        }
    }
    assert(!decimal_of(q).contains('-')) by {
        if decimal_of(q).contains('-') {
            let k = choose|k: int| 0 <= k < decimal_of(q).len() && decimal_of(q)[k] == '-';
            assert(is_digit(decimal_of(q)[k]));
        }
    }
    texts_divide_at_the_first_separator(decimal_of(p), decimal_of(c), '-');
    texts_divide_at_the_first_separator(decimal_of(q), decimal_of(d), '-');
}

/// Whatever is asked of a service is asked by the button that is meant for it, with
/// what stands in the fields that are meant for it.
pub proof fn calls_come_from_their_buttons(
    screen: Screen,
    action: Seq<char>,
    process: nat,
    counter: nat,
    call: Call,
)
    requires
        requests(screen, action, process, counter, Ok(call)),
    ensures
        match call {
            Call::Define { environment, image, workspace, toolchains } => action == "Register"@
                && environment == screen.environment_name && image == screen.environment_image
                && workspace == screen.workspace_directory && studio_toolchains(
                screen.environment_toolchains,
            ) == Ok::<Seq<Seq<char>>, Seq<char>>(toolchains),
            Call::List { environment, directory } => action == "ListFiles"@ && environment
                == screen.environment_name && directory == screen.explorer_directory,
            Call::Read { environment, path } => action == "ReadFile"@ && environment
                == screen.environment_name && path == screen.file_path,
            Call::Write { environment, path, contents } => action == "WriteFile"@ && environment
                == screen.environment_name && path == screen.file_path && contents
                == screen.file_content,
            Call::Git { look, environment, image, workspace, toolchains, job_id } => action == (
            match look {
                GitLook::Status => "GitStatus"@,
                GitLook::Diff => "GitDiff"@,
                GitLook::History => "GitHistory"@,
            }) && environment == screen.environment_name && image == screen.environment_image
                && workspace == screen.workspace_directory && job_id == job_name(
                match look {
                    GitLook::Status => "git-status"@,
                    GitLook::Diff => "git-diff"@,
                    GitLook::History => "git-history"@,
                },
                process,
                counter,
            ) && studio_toolchains(screen.environment_toolchains) == Ok::<
                Seq<Seq<char>>,
                Seq<char>,
            >(toolchains),
            Call::Build { environment, image, workspace, toolchains, job_id, adapter } => action
                == "Build"@ && environment == screen.environment_name && image
                == screen.environment_image && workspace == screen.workspace_directory && job_id
                == job_name("build"@, process, counter) && adapter == lowered(
                trimmed(screen.build_adapter),
            ) && studio_toolchains(screen.environment_toolchains) == Ok::<
                Seq<Seq<char>>,
                Seq<char>,
            >(toolchains),
            Call::Test { environment, image, workspace, toolchains, job_id } => action == "Test"@
                && environment == screen.environment_name && image == screen.environment_image
                && workspace == screen.workspace_directory && job_id == job_name(
                "test"@,
                process,
                counter,
            ) && studio_toolchains(screen.environment_toolchains) == Ok::<
                Seq<Seq<char>>,
                Seq<char>,
            >(toolchains),
            Call::Describe { job_id } => (action == "RefreshGit"@ && job_id == screen.git_job_id)
                || (action == "RefreshJob"@ && job_id == screen.job_id),
            Call::CancelJob { job_id } => action == "CancelJob"@ && job_id == screen.job_id,
            Call::Terminal { workspace } => action == "Terminal"@ && workspace
                == screen.workspace_directory,
            Call::OpenHost { workspace } => action == "OpenExtensionHost"@ && workspace
                == screen.workspace_directory,
            Call::InstallExtension { source } => action == "InstallExtension"@ && source
                == screen.extension_source,
            Call::ListExtensions => action == "ListExtensions"@,
            Call::UninstallExtension { identifier } => action == "UninstallExtension"@ && identifier
                == screen.extension_source,
            Call::ProvisionCatalog => action == "ProvisionCatalog"@,
            Call::ProvisionStatus => action == "ProvisionStatus"@,
            Call::ProvisionConnect { start } => action == if start {
                "ProvisionStart"@
            } else {
                "ProvisionPlan"@
            },
            Call::ProvisionCancel { request_id } => action == "ProvisionCancel"@ && request_id
                == screen.provisioning_request_id,
            _ => false,
        },
{
}

/// A button whose fields are filled in is not refused; the others lead to a call
/// of their own.
pub proof fn filled_in_buttons_are_not_refused(
    screen: Screen,
    action: Seq<char>,
    process: nat,
    counter: nat,
    result: Result<Call, Seq<char>>,
)
    requires
        requests(screen, action, process, counter, result),
        action == "Register"@ || action == "ListFiles"@ || action == "ReadFile"@ || action
            == "WriteFile"@ || action == "GitStatus"@ || action == "GitDiff"@ || action
            == "GitHistory"@ || action == "Test"@ || action == "RefreshGit"@ || action
            == "RefreshJob"@ || action == "CancelJob"@ || action == "Terminal"@ || action
            == "OpenExtensionHost"@ || action == "InstallExtension"@ || action
            == "ListExtensions"@ || action == "UninstallExtension"@ || action
            == "ProvisionCatalog"@ || action == "ProvisionStatus"@ || action == "ProvisionPlan"@
            || action == "ProvisionStart"@ || action == "ProvisionCancel"@,
        environment_complaint(screen.environment_image, screen.workspace_directory) is None,
        studio_toolchains(screen.environment_toolchains) is Ok,
        file_complaint(screen.file_path) is None,
        directory_complaint(screen.explorer_directory) is None,
        screen.git_job_id.len() > 0,
        screen.job_id.len() > 0,
        screen.provisioning_request_id.len() > 0,
    ensures
        result is Ok,
{
    reveal_strlit("Register");
    reveal_strlit("ListFiles");
    reveal_strlit("ReadFile");
    reveal_strlit("WriteFile");
    reveal_strlit("GitStatus");
    reveal_strlit("GitDiff");
    reveal_strlit("GitHistory");
    reveal_strlit("RefreshGit");
    reveal_strlit("Build");
    reveal_strlit("Test");
    reveal_strlit("RefreshJob");
    reveal_strlit("CancelJob");
    reveal_strlit("Terminal");
    reveal_strlit("OpenExtensionHost");
    reveal_strlit("InstallExtension");
    reveal_strlit("ListExtensions");
    reveal_strlit("UninstallExtension");
    reveal_strlit("ProvisionCatalog");
    reveal_strlit("ProvisionStatus");
    reveal_strlit("ProvisionPlan");
    reveal_strlit("ProvisionStart");
    reveal_strlit("ProvisionCancel");
    assert("Register"@.len() == 8);
    assert("ListFiles"@.len() == 9);
    assert("ReadFile"@.len() == 8);
    assert("WriteFile"@.len() == 9);
    assert("GitStatus"@.len() == 9);
    assert("GitDiff"@.len() == 7);
    assert("GitHistory"@.len() == 10);
    assert("RefreshGit"@.len() == 10);
    assert("Build"@.len() == 5);
    assert("Test"@.len() == 4);
    assert("RefreshJob"@.len() == 10);
    assert("CancelJob"@.len() == 9);
    assert("Terminal"@.len() == 8);
    assert("OpenExtensionHost"@.len() == 17);
    assert("InstallExtension"@.len() == 16);
    assert("ListExtensions"@.len() == 14);
    assert("UninstallExtension"@.len() == 18);
    assert("ProvisionCatalog"@.len() == 16);
    assert("ProvisionStatus"@.len() == 15);
    assert("ProvisionPlan"@.len() == 13);
    assert("ProvisionStart"@.len() == 14);
    assert("ProvisionCancel"@.len() == 15);
    assert("Register"@[2] == 'g');
    assert("ReadFile"@[2] == 'a');
    assert("Terminal"@[2] == 'r');
    assert("ListFiles"@[0] == 'L');
    assert("WriteFile"@[0] == 'W');
    assert("GitStatus"@[0] == 'G');
    assert("CancelJob"@[0] == 'C');
    assert("GitHistory"@[7] == 'o');
    assert("RefreshGit"@[7] == 'G');
    assert("RefreshJob"@[7] == 'J');
    assert("InstallExtension"@[0] == 'I');
    assert("ProvisionCatalog"@[0] == 'P');
    assert("ListExtensions"@[0] == 'L');
    assert("ProvisionStart"@[0] == 'P');
    assert("ProvisionStatus"@[9] == 'S');
    assert("ProvisionCancel"@[9] == 'C');
}

/// An unknown button, and one whose field is empty, are refused in words.
pub proof fn other_buttons_are_refused(
    screen: Screen,
    action: Seq<char>,
    process: nat,
    counter: nat,
    result: Result<Call, Seq<char>>,
)
    requires
        requests(screen, action, process, counter, result),
    ensures
        action == "RefreshGit"@ && screen.git_job_id.len() == 0 ==> result == Err::<
            Call,
            Seq<char>,
        >("no Git status job has been submitted"@),
        (action == "RefreshJob"@ || action == "CancelJob"@) && screen.job_id.len() == 0 ==> result
            == Err::<Call, Seq<char>>("no Studio job has been submitted"@),
        action == "ProvisionCancel"@ && screen.provisioning_request_id.len() == 0 ==> result
            == Err::<Call, Seq<char>>("no post-install provisioning request is active"@),
        action == "WriteFile"@ || action == "ReadFile"@ ==> (file_complaint(
            screen.file_path,
        ) is Some ==> result is Err),
        action == "ListFiles"@ ==> (directory_complaint(screen.explorer_directory) is Some
            ==> result is Err),
        action.len() == 0 ==> result is Err,
{
    reveal_strlit("Register");
    reveal_strlit("ListFiles");
    reveal_strlit("ReadFile");
    reveal_strlit("WriteFile");
    reveal_strlit("GitStatus");
    reveal_strlit("GitDiff");
    reveal_strlit("GitHistory");
    reveal_strlit("RefreshGit");
    reveal_strlit("Build");
    reveal_strlit("Test");
    reveal_strlit("RefreshJob");
    reveal_strlit("CancelJob");
    reveal_strlit("Terminal");
    reveal_strlit("OpenExtensionHost");
    reveal_strlit("InstallExtension");
    reveal_strlit("ListExtensions");
    reveal_strlit("UninstallExtension");
    reveal_strlit("ProvisionCatalog");
    reveal_strlit("ProvisionStatus");
    reveal_strlit("ProvisionPlan");
    reveal_strlit("ProvisionStart");
    reveal_strlit("ProvisionCancel");
    assert("Register"@.len() == 8);
    assert("ListFiles"@.len() == 9);
    assert("ReadFile"@.len() == 8);
    assert("WriteFile"@.len() == 9);
    assert("GitStatus"@.len() == 9);
    assert("GitDiff"@.len() == 7);
    assert("GitHistory"@.len() == 10);
    assert("RefreshGit"@.len() == 10);
    assert("Build"@.len() == 5);
    assert("Test"@.len() == 4);
    assert("RefreshJob"@.len() == 10);
    assert("CancelJob"@.len() == 9);
    assert("Terminal"@.len() == 8);
    assert("OpenExtensionHost"@.len() == 17);
    assert("InstallExtension"@.len() == 16);
    assert("ListExtensions"@.len() == 14);
    assert("UninstallExtension"@.len() == 18);
    assert("ProvisionCatalog"@.len() == 16);
    assert("ProvisionStatus"@.len() == 15);
    assert("ProvisionPlan"@.len() == 13);
    assert("ProvisionStart"@.len() == 14);
    assert("ProvisionCancel"@.len() == 15);
    assert("Register"@[2] == 'g');
    assert("ReadFile"@[2] == 'a');
    assert("Terminal"@[2] == 'r');
    assert("ListFiles"@[0] == 'L');
    assert("WriteFile"@[0] == 'W');
    assert("GitStatus"@[0] == 'G');
    assert("CancelJob"@[0] == 'C');
    assert("GitHistory"@[7] == 'o');
    assert("RefreshGit"@[7] == 'G');
    assert("RefreshJob"@[7] == 'J');
    assert("InstallExtension"@[0] == 'I');
    assert("ProvisionCatalog"@[0] == 'P');
    assert("ListExtensions"@[0] == 'L');
    assert("ProvisionStart"@[0] == 'P');
    assert("ProvisionStatus"@[9] == 'S');
    assert("ProvisionCancel"@[9] == 'C');
}

/// What a reply changes on the screen. A failure is told and nothing follows it. A
/// file that was read is shown as it is, and one that was read or written counts as
/// saved. A job is remembered under its name. Downloads start only after the
/// question for the free room that was put in order to start them.
pub proof fn replies_change_what_they_are_about(
    screen: Screen,
    action: Seq<char>,
    call: StudioCall,
    reply: Result<StudioReply, String>,
    request: Option<Seq<char>>,
    after: Screen,
    next: Option<Call>,
)
    requires
        follows(screen, action, call, reply, request, after, next),
    ensures
        reply matches Err(error) ==> next is None && after.job_readout == error@
            && after.file_content == screen.file_content && after.file_dirty == screen.file_dirty
            && after.job_id == screen.job_id && after.status_message
            == "Studio action unavailable: "@ + error@,
        call is Read ==> (reply matches Ok(StudioReply::File { path, contents })
            ==> after.file_content == contents@ && after.file_path == path@ && !after.file_dirty),
        call is Write ==> (reply matches Ok(StudioReply::Saved { path, .. }) ==> after.file_content
            == screen.file_content && after.file_path == path@ && !after.file_dirty),
        reply is Ok && !(call is Read || call is Write) ==> after.file_content
            == screen.file_content && after.file_path == screen.file_path && after.file_dirty
            == screen.file_dirty,
        reply is Ok ==> (call matches StudioCall::Git { job_id, .. } ==> after.git_job_id == job_id@
            && after.job_id == screen.job_id),
        reply is Ok ==> (call matches StudioCall::Build { job_id, .. } ==> after.job_id == job_id@
            && after.git_job_id == screen.git_job_id),
        reply is Ok ==> (call matches StudioCall::Test { job_id, .. } ==> after.job_id == job_id@
            && after.git_job_id == screen.git_job_id),
        !(call is Git) ==> after.git_job_id == screen.git_job_id,
        !(call is Build || call is Test) ==> after.job_id == screen.job_id,
        call is ProvisionStart ==> (reply matches Ok(StudioReply::Text(id))
            ==> after.provisioning_request_id == id@),
        call is List ==> (reply matches Ok(StudioReply::Entries(entries)) ==> after.explorer_entries
            == listing(entries@)),
        next matches Some(Call::ProvisionStart { bundles, profile, disk, image }) ==> (
        call matches StudioCall::ProbeDisk { start, bundles: asked, .. } && start && bundles
            == texts(asked@) && profile == screen.profile && image == screen.provisioning_image
            && reply == Ok::<StudioReply, String>(StudioReply::Bytes(disk))),
        next matches Some(Call::ProvisionPlan { bundles, profile, disk, image }) ==> (
        call matches StudioCall::ProbeDisk { start, bundles: asked, .. } && !start && bundles
            == texts(asked@) && profile == screen.profile && image == screen.provisioning_image
            && reply == Ok::<StudioReply, String>(StudioReply::Bytes(disk))),
        next matches Some(Call::ProbeDisk { start, bundles, workspace }) ==> (
        call matches StudioCall::ProvisionConnect { start: asked } && start == asked && workspace
            == screen.workspace_directory && studio_bundles(screen.provisioning_bundles) == Ok::<
            Seq<Seq<char>>,
            Seq<char>,
        >(bundles)),
        reply is Ok && call is ProbeDisk ==> next is Some,
        reply is Ok && call is ProvisionConnect && studio_bundles(screen.provisioning_bundles) is Ok
            ==> next is Some,
        next matches Some(following) ==> following is ProbeDisk || following is ProvisionStart
            || following is ProvisionPlan,
        after.environment_name == screen.environment_name,
        after.environment_image == screen.environment_image,
        after.workspace_directory == screen.workspace_directory,
        after.profile == screen.profile,
{
}

} // verus!
