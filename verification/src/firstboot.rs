//! The first start of an installed system: the settings that are collected, how
//! they are applied, and how completion is recorded.
//!
//! The password is passed on and is no part of what is recorded.

use crate::bytes::{credentials, push_bytes};
use crate::files::FileOutcome;
use crate::installer::{
    bounded, check_hostname, check_keyboard, check_locale, check_timezone, is_username_char,
    username_char, valid_hostname, valid_keyboard, valid_locale, valid_timezone, InstallSettings,
};
use crate::installer_service::{
    commands, firstboot_record, push_command, record_line, the_installer_leaves_the_record,
};
use crate::path::{components, join_path, joined, joining_keeps_paths_apart, path_components};
use crate::resource::MachineProfile;
use crate::text::{
    all_chars, chars_of, copy_texts, debug_form, debug_text, decimal, decimal_of, exit_code_of,
    exit_code_text, gives, is_lower, join, lower, push_text, same, texts,
};
use vstd::prelude::*;
use vstd::utf8::encode_utf8;

verus! {

/// Directory of the completion record.
pub const DEFAULT_STATE_DIR: &'static str = "/var/lib/devcore";

/// The settings that are collected, without secrets.
#[derive(Clone, Debug, PartialEq, Eq)]
pub struct SetupConfig {
    /// Language and region.
    pub language: String,
    /// Keyboard layout.
    pub keyboard: String,
    /// Time zone.
    pub timezone: String,
    /// Name of the account.
    pub username: String,
    /// Name of the machine.
    pub hostname: String,
    /// Resource profile.
    pub profile: MachineProfile,
}

/// Why a command of the setup failed.
#[derive(Clone, Debug, PartialEq, Eq)]
pub enum SetupBackendError {
    /// The command could not be started or fed.
    Io {
        /// The program.
        program: String,
        /// What the system reported.
        source: String,
    },
    /// The command ended with a failure.
    Failed {
        /// The program.
        program: String,
        /// Its exit code, where it has one.
        status: Option<i32>,
    },
}

impl SetupBackendError {
    /// The message for people.
    pub open spec fn text(&self) -> Seq<char> {
        match self {
            SetupBackendError::Io { program, source } => program@ + " failed to start: "@ + source@,
            SetupBackendError::Failed { program, status } => program@
                + " exited unsuccessfully ("@ + exit_code_of(*status) + ")"@,
        }
    }

    /// Returns the message for people.
    pub fn message(&self) -> (message: String)
        ensures
            message@ == self.text(),
    {
        match self {
            SetupBackendError::Io { program, source } => {
                let mut message = join(program.as_str(), " failed to start: ");
                message.append(source.as_str());
                message
            },
            SetupBackendError::Failed { program, status } => {
                let mut message = join(program.as_str(), " exited unsuccessfully (");
                message.append(exit_code_text(*status).as_str());
                message.append(")");
                message
            },
        }
    }
}

/// Why the setup is refused or fails.
#[derive(Clone, Debug, PartialEq, Eq)]
pub enum FirstBootError {
    /// A setting is not accepted.
    InvalidValue {
        /// The setting.
        field: &'static str,
        /// The rule.
        reason: String,
    },
    /// The password is not accepted.
    InvalidPassword,
    /// The path cannot hold the record.
    InvalidStatePath(String),
    /// The filesystem refused an operation.
    StateIo {
        /// The operation.
        operation: &'static str,
        /// The path.
        path: String,
        /// What the filesystem reported.
        source: String,
    },
    /// The setup was done before.
    AlreadyComplete,
    /// A command of the setup failed.
    Backend(SetupBackendError),
}

impl FirstBootError {
    /// The message for people.
    pub open spec fn text(&self) -> Seq<char> {
        match self {
            FirstBootError::InvalidValue { field, reason } => "invalid "@ + field@ + ": "@
                + reason@,
            FirstBootError::InvalidPassword =>
                "password must be 8-1024 bytes without line delimiters"@,
            FirstBootError::InvalidStatePath(path) => "invalid first-boot state path "@ + path@,
            FirstBootError::StateIo { operation, path, source } => operation@ + " "@ + path@
                + " failed: "@ + source@,
            FirstBootError::AlreadyComplete => "first-boot setup is already complete"@,
            FirstBootError::Backend(error) => error.text(),
        }
    }

    /// Returns the message for people.
    pub fn message(&self) -> (message: String)
        ensures
            message@ == self.text(),
    {
        match self {
            FirstBootError::InvalidValue { field, reason } => {
                let mut message = join("invalid ", field);
                message.append(": ");
                message.append(reason.as_str());
                message
            },
            FirstBootError::InvalidPassword =>
                "password must be 8-1024 bytes without line delimiters".to_owned(),
            FirstBootError::InvalidStatePath(path) => join(
                "invalid first-boot state path ",
                path.as_str(),
            ),
            FirstBootError::StateIo { operation, path, source } => {
                let mut message = join(operation, " ");
                message.append(path.as_str());
                message.append(" failed: ");
                message.append(source.as_str());
                message
            },
            FirstBootError::AlreadyComplete => "first-boot setup is already complete".to_owned(),
            FirstBootError::Backend(error) => error.message(),
        }
    }

    /// The error for a setting.
    pub open spec fn refuses(&self, name: Seq<char>, rule: Seq<char>) -> bool {
        self matches FirstBootError::InvalidValue { field, reason } && field@ == name && reason@
            == rule
    }
}

/// An account name that is accepted. The names of the system are taken.
pub open spec fn valid_account(value: Seq<char>) -> bool {
    bounded(value, 32) && (is_lower(value[0]) || value[0] == '_') && (forall|i: int|
        0 <= i < value.len() ==> is_username_char(#[trigger] value[i])) && value != "root"@ && value
        != "daemon"@ && value != "bin"@ && value != "devcore"@
}

fn check_account(value: &str) -> (result: bool)
    ensures
        result == valid_account(value@),
{
    let chars = chars_of(value);
    chars.len() > 0 && chars.len() <= 32 && (lower(chars[0]) || chars[0] == '_') && all_chars(
        value,
        username_char,
    ) && !same(value, "root") && !same(value, "daemon") && !same(value, "bin") && !same(
        value,
        "devcore",
    )
}

/// Reads the identifier of a profile.
pub fn parse_profile(value: &str) -> (result: Result<MachineProfile, FirstBootError>)
    ensures
        match result {
            Ok(profile) => profile.label() == value@,
            Err(error) => error.refuses("profile"@, "unknown profile "@ + debug_form(value@))
                && forall|other: MachineProfile| value@ != #[trigger] other.label(),
        },
{
    match MachineProfile::parse(value) {
        Some(profile) => Ok(profile),
        None => Err(
            FirstBootError::InvalidValue {
                field: "profile",
                reason: join("unknown profile ", debug_text(value).as_str()),
            },
        ),
    }
}

/// A password that is accepted: 8 to 1024 bytes without zeros or line breaks.
pub open spec fn valid_secret(password: Seq<u8>) -> bool {
    &&& 8 <= password.len() <= 1024
    &&& forall|i: int|
        0 <= i < password.len() ==> (#[trigger] password[i]) != 0 && password[i] != 0x0a
            && password[i] != 0x0d
}

/// Checks a password.
pub fn validate_password(password: &[u8]) -> (result: Result<(), FirstBootError>)
    ensures
        match result {
            Ok(_) => valid_secret(password@),
            Err(error) => !valid_secret(password@) && error == FirstBootError::InvalidPassword,
        },
{
    if password.len() < 8 || password.len() > 1024 {
        return Err(FirstBootError::InvalidPassword);
    }
    let mut i: usize = 0;
    while i < password.len()
        invariant
            i <= password@.len(),
            forall|k: int|
                0 <= k < i ==> (#[trigger] password@[k]) != 0 && password@[k] != 0x0a && password@[k]
                    != 0x0d,
        decreases password.len() - i,
    {
        if password[i] == 0 || password[i] == 0x0a || password[i] == 0x0d {
            assert(password@[i as int] == 0 || password@[i as int] == 0x0a || password@[i as int]
                == 0x0d);
            return Err(FirstBootError::InvalidPassword);
        }
        i = i + 1;
    }
    Ok(())
}

impl SetupConfig {
    /// All settings are accepted.
    pub open spec fn valid(&self) -> bool {
        valid_locale(self.language@) && valid_keyboard(self.keyboard@) && valid_timezone(
            self.timezone@,
        ) && valid_account(self.username@) && valid_hostname(self.hostname@)
    }

    /// The error for the first setting that is not accepted, in the order of the
    /// fields.
    pub open spec fn refused_with(&self, error: FirstBootError) -> bool {
        if !valid_locale(self.language@) {
            error.refuses(
                "language"@,
                "must contain only bounded safe identifier characters"@,
            )
        } else if !valid_keyboard(self.keyboard@) {
            error.refuses(
                "keyboard"@,
                "must contain only bounded safe identifier characters"@,
            )
        } else if !valid_timezone(self.timezone@) {
            error.refuses(
                "timezone"@,
                "must be a bounded timezone identifier without traversal"@,
            )
        } else if !valid_account(self.username@) {
            error.refuses("username"@, "must be a non-reserved Linux username"@)
        } else {
            !valid_hostname(self.hostname@) && error.refuses(
                "hostname"@,
                "must be a bounded hostname without dots or separators"@,
            )
        }
    }

    /// The settings hold these values.
    pub open spec fn holds(
        &self,
        language: Seq<char>,
        keyboard: Seq<char>,
        timezone: Seq<char>,
        username: Seq<char>,
        hostname: Seq<char>,
        profile: Seq<char>,
    ) -> bool {
        &&& self.language@ == language
        &&& self.keyboard@ == keyboard
        &&& self.timezone@ == timezone
        &&& self.username@ == username
        &&& self.hostname@ == hostname
        &&& self.profile.label() == profile
    }

    /// The record of the settings.
    pub open spec fn record(&self) -> Seq<char> {
        "version=1\nlanguage="@ + self.language@ + "\nkeyboard="@ + self.keyboard@
            + "\ntimezone="@ + self.timezone@ + "\nusername="@ + self.username@ + "\nhostname="@
            + self.hostname@ + "\nprofile="@ + self.profile.label() + "\n"@
    }

    /// Creates and checks settings. The profile is read first.
    pub fn new(
        language: &str,
        keyboard: &str,
        timezone: &str,
        username: &str,
        hostname: &str,
        profile: &str,
    ) -> (result: Result<SetupConfig, FirstBootError>)
        ensures
            match result {
                Ok(config) => config.valid() && config.holds(
                    language@,
                    keyboard@,
                    timezone@,
                    username@,
                    hostname@,
                    profile@,
                ),
                Err(error) => (error.refuses(
                    "profile"@,
                    "unknown profile "@ + debug_form(profile@),
                ) && forall|other: MachineProfile| profile@ != #[trigger] other.label()) || exists|
                    refused: SetupConfig,
                |
                    #[trigger] refused.refused_with(error) && refused.holds(
                        language@,
                        keyboard@,
                        timezone@,
                        username@,
                        hostname@,
                        profile@,
                    ),
            },
    {
        let known = match parse_profile(profile) {
            Ok(known) => known,
            Err(error) => {
                return Err(error);
            },
        };
        let config = SetupConfig {
            language: language.to_owned(),
            keyboard: keyboard.to_owned(),
            timezone: timezone.to_owned(),
            username: username.to_owned(),
            hostname: hostname.to_owned(),
            profile: known,
        };
        match config.validate() {
            Ok(_) => Ok(config),
            Err(error) => {
                assert(config.refused_with(error));
                Err(error)
            },
        }
    }

    /// Checks the settings.
    pub fn validate(&self) -> (result: Result<(), FirstBootError>)
        ensures
            match result {
                Ok(_) => self.valid(),
                Err(error) => !self.valid() && self.refused_with(error),
            },
    {
        if !check_locale(self.language.as_str()) {
            return Err(
                FirstBootError::InvalidValue {
                    field: "language",
                    reason: "must contain only bounded safe identifier characters".to_owned(),
                },
            );
        }
        if !check_keyboard(self.keyboard.as_str()) {
            return Err(
                FirstBootError::InvalidValue {
                    field: "keyboard",
                    reason: "must contain only bounded safe identifier characters".to_owned(),
                },
            );
        }
        if !check_timezone(self.timezone.as_str()) {
            return Err(
                FirstBootError::InvalidValue {
                    field: "timezone",
                    reason: "must be a bounded timezone identifier without traversal".to_owned(),
                },
            );
        }
        if !check_account(self.username.as_str()) {
            return Err(
                FirstBootError::InvalidValue {
                    field: "username",
                    reason: "must be a non-reserved Linux username".to_owned(),
                },
            );
        }
        if !check_hostname(self.hostname.as_str()) {
            return Err(
                FirstBootError::InvalidValue {
                    field: "hostname",
                    reason: "must be a bounded hostname without dots or separators".to_owned(),
                },
            );
        }
        Ok(())
    }

    /// Formats the record of the settings.
    pub fn encode(&self) -> (text: String)
        ensures
            text@ == self.record(),
    {
        let mut text = join("version=1\nlanguage=", self.language.as_str());
        text.append("\nkeyboard=");
        text.append(self.keyboard.as_str());
        text.append("\ntimezone=");
        text.append(self.timezone.as_str());
        text.append("\nusername=");
        text.append(self.username.as_str());
        text.append("\nhostname=");
        text.append(self.hostname.as_str());
        text.append("\nprofile=");
        text.append(self.profile.as_str());
        text.append("\n");
        text
    }
}

/// No setting that is accepted holds a line break or an equals sign, so each one
/// is one line of the record.
pub proof fn settings_are_single_lines(config: SetupConfig)
    requires
        config.valid(),
    ensures
        single_line(config.language@),
        single_line(config.keyboard@),
        single_line(config.timezone@),
        single_line(config.username@),
        single_line(config.hostname@),
{
}

/// A text without line breaks and equals signs.
pub open spec fn single_line(text: Seq<char>) -> bool {
    !text.contains('\n') && !text.contains('\r') && !text.contains('=')
}

/// Where completion is recorded.
#[derive(Clone, Debug)]
pub struct FirstBootStore {
    root: String,
}

impl View for FirstBootStore {
    type V = Seq<char>;

    closed spec fn view(&self) -> Seq<char> {
        self.root@
    }
}

/// The file of the record in a directory.
pub open spec fn record_path(root: Seq<char>) -> Seq<char> {
    joined(root, "first-boot.conf"@)
}

/// A directory that can hold the record: it has a name and is not the root.
pub open spec fn valid_state_dir(root: Seq<char>) -> bool {
    root.len() > 0 && components(root) != seq!["/"@]
}

/// What an inspection of the record says.
pub open spec fn completion_of(
    root: Seq<char>,
    inspected: FileOutcome,
    result: Result<bool, FirstBootError>,
) -> bool {
    match inspected {
        FileOutcome::Done => result == Ok::<bool, FirstBootError>(true),
        FileOutcome::NotFound(_) => result == Ok::<bool, FirstBootError>(false),
        FileOutcome::OtherEntry => result matches Err(FirstBootError::InvalidStatePath(path))
            && path@ == record_path(root),
        _ => result matches Err(FirstBootError::StateIo { operation, path, source })
            && operation@ == "inspect first-boot completion"@ && path@ == record_path(root)
            && source@ == inspected.reason(),
    }
}

/// The operations that record completion, in their order.
#[derive(Clone, Copy, Debug, PartialEq, Eq, Structural)]
pub enum CommitStage {
    /// Look at the record.
    InspectCompletion,
    /// Create the temporary file, which must not exist.
    CreateTemporary,
    /// Keep it from others.
    RestrictTemporary,
    /// Write the record to it and bring it to disk.
    WriteRecord,
    /// Move it to its place.
    Publish,
}

/// What follows an operation that records completion.
#[derive(Debug, PartialEq, Eq)]
pub enum CommitDecision {
    /// The next operation.
    Continue(CommitStage),
    /// The record is there.
    Recorded,
    /// The end with an error, with the temporary file removed where that is
    /// asked for.
    Refused {
        /// Whether the temporary file has to be removed.
        remove_temporary: bool,
        /// The error.
        error: FirstBootError,
    },
}

/// The error of an operation on a path.
pub open spec fn is_io_error(
    error: FirstBootError,
    operation_name: Seq<char>,
    about: Seq<char>,
    outcome: FileOutcome,
) -> bool {
    error matches FirstBootError::StateIo { operation, path, source } && operation@
        == operation_name && path@ == about && source@ == outcome.reason()
}

/// What follows an operation that records completion.
pub open spec fn commit_step(
    root: Seq<char>,
    temporary: Seq<char>,
    stage: CommitStage,
    outcome: FileOutcome,
    decision: CommitDecision,
) -> bool {
    match stage {
        CommitStage::InspectCompletion => match outcome {
            FileOutcome::NotFound(_) => decision == CommitDecision::Continue(
                CommitStage::CreateTemporary,
            ),
            FileOutcome::Done => decision == (CommitDecision::Refused {
                remove_temporary: false,
                error: FirstBootError::AlreadyComplete,
            }),
            _ => decision matches CommitDecision::Refused { remove_temporary, error }
                && !remove_temporary && completion_of(root, outcome, Err(error)),
        },
        CommitStage::CreateTemporary => if outcome is Done {
            decision == CommitDecision::Continue(CommitStage::RestrictTemporary)
        } else {
            decision matches CommitDecision::Refused { remove_temporary, error }
                && !remove_temporary && is_io_error(
                error,
                "create first-boot temporary state"@,
                temporary,
                outcome,
            )
        },
        CommitStage::RestrictTemporary => if outcome is Done {
            decision == CommitDecision::Continue(CommitStage::WriteRecord)
        } else {
            decision matches CommitDecision::Refused { remove_temporary, error }
                && remove_temporary && is_io_error(
                error,
                "restrict first-boot state permissions"@,
                temporary,
                outcome,
            )
        },
        CommitStage::WriteRecord => if outcome is Done {
            decision == CommitDecision::Continue(CommitStage::Publish)
        } else {
            decision matches CommitDecision::Refused { remove_temporary, error }
                && remove_temporary && is_io_error(
                error,
                "write first-boot state"@,
                temporary,
                outcome,
            )
        },
        CommitStage::Publish => if outcome is Done {
            decision == CommitDecision::Recorded
        } else {
            decision matches CommitDecision::Refused { remove_temporary, error }
                && remove_temporary && is_io_error(
                error,
                "publish first-boot state"@,
                record_path(root),
                outcome,
            )
        },
    }
}

/// Whether the temporary file exists when an operation is carried out.
pub open spec fn commit_has_temporary(stage: CommitStage) -> bool {
    stage == CommitStage::RestrictTemporary || stage == CommitStage::WriteRecord || stage
        == CommitStage::Publish
}

/// What follows an operation that records settings. Settings that are not
/// accepted are refused at every operation.
pub open spec fn commit_follows(
    root: Seq<char>,
    config: SetupConfig,
    temporary: Seq<char>,
    stage: CommitStage,
    outcome: FileOutcome,
    decision: CommitDecision,
) -> bool {
    if config.valid() {
        commit_step(root, temporary, stage, outcome, decision)
    } else {
        decision matches CommitDecision::Refused { remove_temporary, error } && remove_temporary
            == commit_has_temporary(stage) && config.refused_with(error)
    }
}

/// Whenever recording ends early the temporary file is removed if it exists, and
/// the record is only said to be there after the move.
pub proof fn commits_leave_no_temporary_file(
    root: Seq<char>,
    temporary: Seq<char>,
    stage: CommitStage,
    outcome: FileOutcome,
    decision: CommitDecision,
)
    requires
        commit_step(root, temporary, stage, outcome, decision),
    ensures
        decision matches CommitDecision::Refused { remove_temporary, .. } ==> remove_temporary
            == commit_has_temporary(stage),
        decision is Recorded ==> stage == CommitStage::Publish && outcome is Done,
{
}

fn io_error(operation: &'static str, path: &str, outcome: &FileOutcome) -> (error: FirstBootError)
    ensures
        is_io_error(error, operation@, path@, *outcome),
{
    FirstBootError::StateIo { operation, path: path.to_owned(), source: outcome.failure() }
}

impl FirstBootStore {
    /// Names the directory of the record. Creating it is left to the caller.
    pub fn open(root: &str) -> (result: Result<FirstBootStore, FirstBootError>)
        ensures
            match result {
                Ok(store) => valid_state_dir(root@) && store@ == root@,
                Err(FirstBootError::InvalidStatePath(path)) => !valid_state_dir(root@) && path@
                    == root@,
                Err(_) => false,
            },
    {
        let list = path_components(root);
        proof {
            let all = components(root@);
            assert(all.len() == 1 && all[0] == "/"@ ==> all =~= seq!["/"@]);
            assert(seq!["/"@][0] == "/"@ && seq!["/"@].len() == 1);
        }
        if root.is_empty() || (list.len() == 1 && same(list[0].as_str(), "/")) {
            return Err(FirstBootError::InvalidStatePath(root.to_owned()));
        }
        Ok(FirstBootStore { root: root.to_owned() })
    }

    /// Returns the file of the record.
    pub fn path(&self) -> (path: String)
        ensures
            path@ == record_path(self@),
    {
        join_path(self.root.as_str(), "first-boot.conf")
    }

    /// Returns the temporary file of a process.
    pub fn temporary_path(&self, process: u32) -> (path: String)
        ensures
            path@ == joined(
                self@,
                ".first-boot.conf."@ + decimal_of(process as nat) + ".tmp"@,
            ),
    {
        let mut name = join(".first-boot.conf.", decimal(process as u64).as_str());
        name.append(".tmp");
        join_path(self.root.as_str(), name.as_str())
    }

    /// Whether the setup was done, from what an inspection of the record
    /// reported.
    pub fn is_complete(&self, inspected: &FileOutcome) -> (result: Result<bool, FirstBootError>)
        ensures
            completion_of(self@, *inspected, result),
    {
        match inspected {
            FileOutcome::Done => Ok(true),
            FileOutcome::NotFound(_) => Ok(false),
            FileOutcome::OtherEntry => Err(FirstBootError::InvalidStatePath(self.path())),
            _ => Err(
                io_error("inspect first-boot completion", self.path().as_str(), inspected),
            ),
        }
    }

    /// Decides what follows an operation that records the settings. Settings
    /// that are not accepted are never recorded.
    pub fn commit(
        &self,
        config: &SetupConfig,
        temporary: &str,
        stage: CommitStage,
        outcome: &FileOutcome,
    ) -> (decision: CommitDecision)
        ensures
            commit_follows(self@, *config, temporary@, stage, *outcome, decision),
    {
        match config.validate() {
            Ok(_) => {},
            Err(error) => {
                return CommitDecision::Refused {
                    remove_temporary: stage == CommitStage::RestrictTemporary || stage
                        == CommitStage::WriteRecord || stage == CommitStage::Publish,
                    error,
                };
            },
        }
        match stage {
            CommitStage::InspectCompletion => match self.is_complete(outcome) {
                Ok(false) => CommitDecision::Continue(CommitStage::CreateTemporary),
                Ok(true) => CommitDecision::Refused {
                    remove_temporary: false,
                    error: FirstBootError::AlreadyComplete,
                },
                Err(error) => CommitDecision::Refused { remove_temporary: false, error },
            },
            CommitStage::CreateTemporary => match outcome {
                FileOutcome::Done => CommitDecision::Continue(CommitStage::RestrictTemporary),
                _ => CommitDecision::Refused {
                    remove_temporary: false,
                    error: io_error("create first-boot temporary state", temporary, outcome),
                },
            },
            CommitStage::RestrictTemporary => match outcome {
                FileOutcome::Done => CommitDecision::Continue(CommitStage::WriteRecord),
                _ => CommitDecision::Refused {
                    remove_temporary: true,
                    error: io_error("restrict first-boot state permissions", temporary, outcome),
                },
            },
            CommitStage::WriteRecord => match outcome {
                FileOutcome::Done => CommitDecision::Continue(CommitStage::Publish),
                _ => CommitDecision::Refused {
                    remove_temporary: true,
                    error: io_error("write first-boot state", temporary, outcome),
                },
            },
            CommitStage::Publish => match outcome {
                FileOutcome::Done => CommitDecision::Recorded,
                _ => CommitDecision::Refused {
                    remove_temporary: true,
                    error: io_error("publish first-boot state", self.path().as_str(), outcome),
                },
            },
        }
    }
}

/// What applies settings to a system.
pub trait SetupBackend: Sized {
    /// Whether the backend, asked for these settings, may become `after` and
    /// give back `applied`. A backend that says nothing of it may do anything.
    open spec fn applies(
        before: Self,
        config: SetupConfig,
        password: Seq<u8>,
        after: Self,
        applied: Result<(), SetupBackendError>,
    ) -> bool {
        true
    }

    /// Applies the settings and sets the password.
    fn apply(&mut self, config: &SetupConfig, password: &[u8]) -> (applied: Result<
        (),
        SetupBackendError,
    >)
        ensures
            Self::applies(*old(self), *config, password@, *final(self), applied),
    ;
}

/// The tools of the system.
#[derive(Clone, Copy, Debug, PartialEq, Eq, Structural)]
pub struct SystemBackend;

/// The commands that apply settings, in their order, up to the password.
pub open spec fn setup_argv(config: SetupConfig) -> Seq<Seq<Seq<char>>> {
    seq![
        seq!["/usr/bin/localectl"@, "set-locale"@, "LANG="@ + config.language@],
        seq!["/usr/bin/localectl"@, "set-keymap"@, config.keyboard@],
        seq!["/usr/bin/timedatectl"@, "set-timezone"@, config.timezone@],
        seq!["/usr/bin/hostnamectl"@, "set-hostname"@, config.hostname@],
        seq![
            "/usr/sbin/useradd"@,
            "--create-home"@,
            "--user-group"@,
            "--shell"@,
            "/bin/bash"@,
            config.username@,
        ],
    ]
}

impl Default for SystemBackend {
    fn default() -> (backend: SystemBackend)
        ensures
            backend == SystemBackend,
    {
        SystemBackend
    }
}

fn three(program: &str, first: &str, second: &str) -> (argv: Vec<String>)
    ensures
        texts(argv@) == seq![program@, first@, second@],
{
    let mut argv: Vec<String> = Vec::new();
    push_text(&mut argv, program);
    push_text(&mut argv, first);
    push_text(&mut argv, second);
    assert(texts(argv@) =~= seq![program@, first@, second@]);
    argv
}

impl SystemBackend {
    /// Builds the commands that apply settings. They are run in their order, up
    /// to the first that fails.
    pub fn commands(&self, config: &SetupConfig) -> (list: Vec<Vec<String>>)
        ensures
            commands(list@) == setup_argv(*config),
    {
        let mut list: Vec<Vec<String>> = Vec::new();
        assert(commands(list@) =~= Seq::empty());
        let language = join("LANG=", config.language.as_str());
        push_command(&mut list, three("/usr/bin/localectl", "set-locale", language.as_str()));
        push_command(
            &mut list,
            three("/usr/bin/localectl", "set-keymap", config.keyboard.as_str()),
        );
        push_command(
            &mut list,
            three("/usr/bin/timedatectl", "set-timezone", config.timezone.as_str()),
        );
        push_command(
            &mut list,
            three("/usr/bin/hostnamectl", "set-hostname", config.hostname.as_str()),
        );
        let mut account: Vec<String> = Vec::new();
        assert(texts(account@) =~= Seq::empty());
        push_text(&mut account, "/usr/sbin/useradd");
        push_text(&mut account, "--create-home");
        push_text(&mut account, "--user-group");
        push_text(&mut account, "--shell");
        push_text(&mut account, "/bin/bash");
        push_text(&mut account, config.username.as_str());
        assert(texts(account@) =~= setup_argv(*config)[4]);
        push_command(&mut list, account);
        assert(commands(list@) =~= setup_argv(*config));
        list
    }

    /// Builds the input of the command that sets the password.
    pub fn password_input(&self, config: &SetupConfig, password: &[u8]) -> (input: Vec<u8>)
        ensures
            input@ == credentials(config.username@, password@),
    {
        let mut input: Vec<u8> = Vec::new();
        push_bytes(&mut input, config.username.as_str().as_bytes());
        input.push(0x3a);
        push_bytes(&mut input, password);
        input.push(0x0a);
        assert(input@ =~= credentials(config.username@, password@));
        input
    }
}

/// How a command of the setup went.
#[derive(Clone, Debug, PartialEq, Eq)]
pub enum SetupOutcome {
    /// It could not be started or fed.
    NotRun(String),
    /// It ended.
    Exited {
        /// Whether it ended well.
        success: bool,
        /// Its exit code, where it has one.
        code: Option<i32>,
    },
}

/// What the setup does next.
#[derive(Clone, Debug, PartialEq, Eq)]
pub enum SetupStep {
    /// Run this command.
    Run(Vec<String>),
    /// Run the program that sets the password, and feed it.
    SetPassword,
    /// Nothing: it is done.
    Done,
    /// Nothing: it failed.
    Failed(SetupBackendError),
}

/// Program that sets passwords.
pub const PASSWORD_PROGRAM: &'static str = "/usr/sbin/chpasswd";

/// The error of a program that did not do its work.
pub open spec fn is_setup_error(
    error: SetupBackendError,
    name: Seq<char>,
    outcome: SetupOutcome,
) -> bool {
    match outcome {
        SetupOutcome::NotRun(reason) => error matches SetupBackendError::Io { program, source }
            && program@ == name && source@ == reason@,
        SetupOutcome::Exited { success, code } => !success && (error matches
            SetupBackendError::Failed { program, status } && program@ == name && status == code),
    }
}

/// A command did its work.
pub open spec fn went_well(outcome: SetupOutcome) -> bool {
    outcome matches SetupOutcome::Exited { success, .. } && success
}

/// The program of each command of the setup, the password last.
pub open spec fn setup_program(config: SetupConfig, at: int) -> Seq<char> {
    if at < 5 {
        setup_argv(config)[at][0]
    } else {
        PASSWORD_PROGRAM@
    }
}

/// The first command that did not do its work.
pub open spec fn is_first_failure(outcomes: Seq<SetupOutcome>, at: int) -> bool {
    &&& 0 <= at < outcomes.len()
    &&& !went_well(outcomes[at])
    &&& forall|k: int| 0 <= k < at ==> went_well(#[trigger] outcomes[k])
}

/// What the setup does next, given how the commands so far went.
pub open spec fn is_next_step(
    config: SetupConfig,
    outcomes: Seq<SetupOutcome>,
    step: SetupStep,
) -> bool {
    match step {
        SetupStep::Failed(error) => exists|at: int| #[trigger]
            is_first_failure(outcomes, at) && is_setup_error(
                error,
                setup_program(config, at),
                outcomes[at],
            ),
        SetupStep::Run(argv) => (forall|k: int|
            0 <= k < outcomes.len() ==> went_well(#[trigger] outcomes[k])) && outcomes.len() < 5
            && texts(argv@) == setup_argv(config)[outcomes.len() as int],
        SetupStep::SetPassword => (forall|k: int|
            0 <= k < outcomes.len() ==> went_well(#[trigger] outcomes[k])) && outcomes.len() == 5,
        SetupStep::Done => (forall|k: int|
            0 <= k < outcomes.len() ==> went_well(#[trigger] outcomes[k])) && outcomes.len() == 6,
    }
}

impl SystemBackend {
    /// Tells how a program went.
    pub fn run(&self, program: &str, outcome: &SetupOutcome) -> (result: Result<
        (),
        SetupBackendError,
    >)
        ensures
            match result {
                Ok(_) => went_well(*outcome),
                Err(error) => !went_well(*outcome) && is_setup_error(error, program@, *outcome),
            },
    {
        match outcome {
            SetupOutcome::NotRun(reason) => Err(
                SetupBackendError::Io { program: program.to_owned(), source: reason.clone() },
            ),
            SetupOutcome::Exited { success, code } => if *success {
                Ok(())
            } else {
                Err(SetupBackendError::Failed { program: program.to_owned(), status: *code })
            },
        }
    }

    /// Decides what the setup does next, given how the commands so far went. The
    /// first failure ends it.
    pub fn next_step(&self, config: &SetupConfig, outcomes: &Vec<SetupOutcome>) -> (step: SetupStep)
        requires
            outcomes@.len() <= 6,
        ensures
            is_next_step(*config, outcomes@, step),
    {
        let list = self.commands(config);
        assert(commands(list@).len() == 5);
        let mut i: usize = 0;
        while i < outcomes.len()
            invariant
                i <= outcomes@.len() <= 6,
                list@.len() == 5,
                commands(list@) == setup_argv(*config),
                forall|k: int| 0 <= k < i ==> went_well(#[trigger] outcomes@[k]),
            decreases outcomes.len() - i,
        {
            let result = if i < 5 {
                assert(texts(list@[i as int]@) == setup_argv(*config)[i as int]);
                assert(texts(list@[i as int]@).len() > 0);
                assert(list@[i as int]@[0]@ == setup_argv(*config)[i as int][0]);
                self.run(list[i][0].as_str(), &outcomes[i])
            } else {
                self.run(PASSWORD_PROGRAM, &outcomes[i])
            };
            match result {
                Ok(_) => {},
                Err(error) => {
                    assert(is_first_failure(outcomes@, i as int));
                    return SetupStep::Failed(error);
                },
            }
            i = i + 1;
        }
        if i < 5 {
            let argv = copy_texts(&list[i]);
            assert(texts(list@[i as int]@) == setup_argv(*config)[i as int]);
            SetupStep::Run(argv)
        } else if i == 5 {
            SetupStep::SetPassword
        } else {
            SetupStep::Done
        }
    }
}

/// The password is set last: only after every other command did its work.
pub proof fn the_password_is_set_last(
    config: SetupConfig,
    outcomes: Seq<SetupOutcome>,
    step: SetupStep,
)
    requires
        is_next_step(config, outcomes, step),
        step == SetupStep::SetPassword,
    ensures
        outcomes.len() == setup_argv(config).len(),
        forall|k: int| 0 <= k < outcomes.len() ==> went_well(#[trigger] outcomes[k]),
{
}

/// The password is no part of any command: commands with different passwords
/// are the same.
pub proof fn commands_hold_no_password(config: SetupConfig, i: int, j: int)
    requires
        0 <= i < setup_argv(config).len(),
        0 <= j < setup_argv(config)[i].len(),
    ensures
        ({
            let word = setup_argv(config)[i][j];
            ||| word == "LANG="@ + config.language@
            ||| word == config.keyboard@
            ||| word == config.timezone@
            ||| word == config.hostname@
            ||| word == config.username@
            ||| word == "/usr/bin/localectl"@
            ||| word == "/usr/bin/timedatectl"@
            ||| word == "/usr/bin/hostnamectl"@
            ||| word == "/usr/sbin/useradd"@
            ||| word == "set-locale"@
            ||| word == "set-keymap"@
            ||| word == "set-timezone"@
            ||| word == "set-hostname"@
            ||| word == "--create-home"@
            ||| word == "--user-group"@
            ||| word == "--shell"@
            ||| word == "/bin/bash"@
        }),
{
}

/// What was reported while settings are applied.
#[derive(Clone, Debug, PartialEq, Eq)]
pub enum ApplyEvent {
    /// What an inspection of the record reported, before anything else.
    Inspected(FileOutcome),
    /// What an operation that records the settings reported.
    Committed {
        /// The operation.
        stage: CommitStage,
        /// What it reported.
        outcome: FileOutcome,
    },
}

/// What follows a report while settings are applied.
#[derive(Debug, PartialEq, Eq)]
pub enum ApplyDecision {
    /// Carry out an operation that records the settings.
    Commit(CommitStage),
    /// The settings are applied and recorded.
    Done,
    /// The end with an error, with the temporary file removed where that is
    /// asked for.
    Refused {
        /// Whether the temporary file has to be removed.
        remove_temporary: bool,
        /// The error.
        error: FirstBootError,
    },
}

/// Whether settings are handed to the backend: they and the password are
/// accepted, and nothing is recorded yet.
pub open spec fn reaches_backend(
    config: SetupConfig,
    password: Seq<u8>,
    inspected: FileOutcome,
) -> bool {
    config.valid() && valid_secret(password) && inspected is NotFound
}

/// Why settings are not handed to the backend. The settings are looked at
/// first, then the password, then the record.
pub open spec fn refused_before_backend(
    root: Seq<char>,
    config: SetupConfig,
    password: Seq<u8>,
    inspected: FileOutcome,
    error: FirstBootError,
) -> bool {
    if !config.valid() {
        config.refused_with(error)
    } else if !valid_secret(password) {
        error == FirstBootError::InvalidPassword
    } else if inspected is Done {
        error == FirstBootError::AlreadyComplete
    } else {
        completion_of(root, inspected, Err(error))
    }
}

/// A decision on recording, as one on the whole application.
pub open spec fn of_commit(decision: CommitDecision) -> ApplyDecision {
    match decision {
        CommitDecision::Continue(stage) => ApplyDecision::Commit(stage),
        CommitDecision::Recorded => ApplyDecision::Done,
        CommitDecision::Refused { remove_temporary, error } => ApplyDecision::Refused {
            remove_temporary,
            error,
        },
    }
}

/// What follows for each answer of the backend: settings that it applied are to
/// be recorded, and its failure is the end.
pub open spec fn after_backend(applied: Result<(), SetupBackendError>) -> ApplyDecision {
    match applied {
        Ok(_) => ApplyDecision::Commit(CommitStage::InspectCompletion),
        Err(error) => ApplyDecision::Refused {
            remove_temporary: false,
            error: FirstBootError::Backend(error),
        },
    }
}

/// What follows a report while settings are applied. `called` is what the
/// backend gave back where it was asked.
pub open spec fn apply_follows(
    root: Seq<char>,
    config: SetupConfig,
    password: Seq<u8>,
    temporary: Seq<char>,
    event: ApplyEvent,
    called: Option<Result<(), SetupBackendError>>,
    decision: ApplyDecision,
) -> bool {
    match event {
        ApplyEvent::Inspected(outcome) => if reaches_backend(config, password, outcome) {
            called matches Some(applied) && decision == after_backend(applied)
        } else {
            &&& called is None
            &&& decision matches ApplyDecision::Refused { remove_temporary, error }
            &&& !remove_temporary
            &&& refused_before_backend(root, config, password, outcome, error)
        },
        ApplyEvent::Committed { stage, outcome } => called is None && exists|inner: CommitDecision|
            #[trigger] commit_follows(root, config, temporary, stage, outcome, inner) && decision
                == of_commit(inner),
    }
}

/// How a backend that was asked, or was not, became another one.
pub open spec fn backend_step<B: SetupBackend>(
    before: B,
    config: SetupConfig,
    password: Seq<u8>,
    called: Option<Result<(), SetupBackendError>>,
    after: B,
) -> bool {
    match called {
        Some(applied) => B::applies(before, config, password, after, applied),
        None => after == before,
    }
}

/// Whether an event reports on what a decision asked for.
pub open spec fn reports_on(decision: ApplyDecision, event: ApplyEvent) -> bool {
    match decision {
        ApplyDecision::Commit(asked) => event matches ApplyEvent::Committed { stage, .. } && stage
            == asked,
        _ => false,
    }
}

/// An application of settings as far as it went: it begins with an inspection
/// of the record, every decision follows from the report before it and from what
/// the backend then gave back, and every later report is on what was decided.
pub open spec fn is_application(
    root: Seq<char>,
    config: SetupConfig,
    password: Seq<u8>,
    temporary: Seq<char>,
    events: Seq<ApplyEvent>,
    calls: Seq<Option<Result<(), SetupBackendError>>>,
    decisions: Seq<ApplyDecision>,
) -> bool {
    &&& events.len() == decisions.len()
    &&& events.len() == calls.len()
    &&& events.len() > 0 ==> events[0] is Inspected
    &&& forall|i: int|
        0 <= i < events.len() ==> apply_follows(
            root,
            config,
            password,
            temporary,
            #[trigger] events[i],
            calls[i],
            decisions[i],
        )
    &&& forall|i: int|
        1 <= i < events.len() ==> reports_on(decisions[i - 1], #[trigger] events[i])
}

/// The number of operations before one that records settings.
pub open spec fn commit_index(stage: CommitStage) -> nat {
    match stage {
        CommitStage::InspectCompletion => 0,
        CommitStage::CreateTemporary => 1,
        CommitStage::RestrictTemporary => 2,
        CommitStage::WriteRecord => 3,
        CommitStage::Publish => 4,
    }
}

/// Where each report and each decision of an application stands.
proof fn lemma_application_goes_in_order(
    root: Seq<char>,
    config: SetupConfig,
    password: Seq<u8>,
    temporary: Seq<char>,
    events: Seq<ApplyEvent>,
    calls: Seq<Option<Result<(), SetupBackendError>>>,
    decisions: Seq<ApplyDecision>,
    i: int,
)
    requires
        is_application(root, config, password, temporary, events, calls, decisions),
        0 <= i < events.len(),
    ensures
        decisions[i] matches ApplyDecision::Commit(stage) ==> i == commit_index(stage),
        decisions[i] is Done ==> i == 5,
        i > 0 ==> {
            &&& decisions[0] is Commit
            &&& events[i] matches ApplyEvent::Committed { stage, .. }
            &&& i == 1 + commit_index(stage)
        },
    decreases i,
{
    assert(apply_follows(root, config, password, temporary, events[i], calls[i], decisions[i]));
    if i > 0 {
        lemma_application_goes_in_order(
            root,
            config,
            password,
            temporary,
            events,
            calls,
            decisions,
            i - 1,
        );
        assert(reports_on(decisions[i - 1], events[i]));
    }
}

/// Settings are recorded only after the backend applied them. In every
/// application:
/// - the backend is asked exactly where the settings and the password are
///   accepted and nothing is recorded, and then once, at the beginning;
/// - an operation that records the settings, and the end with success, come only
///   after the backend succeeded;
/// - success comes only after the record was moved to its place;
/// - a failure of the backend is the end, and nothing is recorded.
pub proof fn settings_are_recorded_only_after_the_backend(
    root: Seq<char>,
    config: SetupConfig,
    password: Seq<u8>,
    temporary: Seq<char>,
    events: Seq<ApplyEvent>,
    calls: Seq<Option<Result<(), SetupBackendError>>>,
    decisions: Seq<ApplyDecision>,
    i: int,
)
    requires
        is_application(root, config, password, temporary, events, calls, decisions),
        0 <= i < events.len(),
    ensures
        calls[i] is Some <==> {
            &&& i == 0
            &&& events[0] matches ApplyEvent::Inspected(inspected)
            &&& reaches_backend(config, password, inspected)
        },
        decisions[i] is Commit || decisions[i] is Done ==> {
            &&& calls[0] matches Some(applied)
            &&& applied is Ok
        },
        decisions[i] is Done ==> {
            &&& i == events.len() - 1
            &&& events[i] matches ApplyEvent::Committed { stage, outcome }
            &&& stage == CommitStage::Publish
            &&& outcome is Done
        },
        calls[i] matches Some(Err(error)) ==> {
            &&& events.len() == 1
            &&& decisions[i] == ApplyDecision::Refused {
                remove_temporary: false,
                error: FirstBootError::Backend(error),
            }
        },
{
    lemma_application_goes_in_order(
        root,
        config,
        password,
        temporary,
        events,
        calls,
        decisions,
        i,
    );
    assert(apply_follows(root, config, password, temporary, events[0], calls[0], decisions[0]));
    assert(apply_follows(root, config, password, temporary, events[i], calls[i], decisions[i]));
    if i < events.len() - 1 {
        assert(reports_on(decisions[i], events[i + 1]));
    }
}

/// What the work behind a report does to the files of the record, each with its
/// bytes, and what the report tells of them. The backend, which may be asked
/// after the first report, leaves them alone; a write that fails may leave
/// anything in the temporary file.
pub open spec fn apply_does(
    before: Map<Seq<char>, Seq<u8>>,
    root: Seq<char>,
    config: SetupConfig,
    temporary: Seq<char>,
    event: ApplyEvent,
    after: Map<Seq<char>, Seq<u8>>,
) -> bool {
    let record = record_path(root);
    match event {
        ApplyEvent::Inspected(outcome) => after == before && outcome.tells_of(before, record),
        ApplyEvent::Committed { stage, outcome } => match (stage, outcome) {
            (CommitStage::InspectCompletion, _) => after == before && outcome.tells_of(
                before,
                record,
            ),
            (CommitStage::CreateTemporary, FileOutcome::Done) => !before.contains_key(temporary)
                && after == before.insert(temporary, Seq::empty()),
            (CommitStage::WriteRecord, FileOutcome::Done) => after == before.insert(
                temporary,
                encode_utf8(config.record()),
            ),
            (CommitStage::WriteRecord, _) => after == before.insert(temporary, after[temporary]),
            (CommitStage::Publish, FileOutcome::Done) => after == before.insert(
                record,
                before[temporary],
            ).remove(temporary),
            _ => after == before,
        },
    }
}

/// The files of the record in the course of an application, which nothing else
/// changes.
pub open spec fn are_files_of(
    root: Seq<char>,
    config: SetupConfig,
    temporary: Seq<char>,
    events: Seq<ApplyEvent>,
    files: Seq<Map<Seq<char>, Seq<u8>>>,
) -> bool {
    &&& files.len() == events.len() + 1
    &&& forall|i: int|
        0 <= i < events.len() ==> apply_does(
            files[i],
            root,
            config,
            temporary,
            #[trigger] events[i],
            files[i + 1],
        )
}

/// The files once a decision is carried out, as far as it speaks of them.
pub open spec fn files_left(
    decision: ApplyDecision,
    temporary: Seq<char>,
    files: Map<Seq<char>, Seq<u8>>,
) -> Map<Seq<char>, Seq<u8>> {
    match decision {
        ApplyDecision::Refused { remove_temporary, .. } if remove_temporary => files.remove(
            temporary,
        ),
        _ => files,
    }
}

/// The files before each report.
proof fn lemma_files_of_an_application(
    root: Seq<char>,
    config: SetupConfig,
    password: Seq<u8>,
    temporary: Seq<char>,
    events: Seq<ApplyEvent>,
    calls: Seq<Option<Result<(), SetupBackendError>>>,
    decisions: Seq<ApplyDecision>,
    files: Seq<Map<Seq<char>, Seq<u8>>>,
    i: int,
)
    requires
        is_application(root, config, password, temporary, events, calls, decisions),
        are_files_of(root, config, temporary, events, files),
        0 <= i < events.len(),
    ensures
        i > 0 ==> !files[0].contains_key(record_path(root)) && config.valid(),
        i < 3 ==> files[i] == files[0],
        i >= 3 ==> !files[0].contains_key(temporary),
        3 <= i < 5 ==> files[i] == files[0].insert(temporary, Seq::empty()),
        i == 5 ==> files[i] == files[0].insert(temporary, encode_utf8(config.record())),
        i <= 5,
    decreases i,
{
    lemma_application_goes_in_order(
        root,
        config,
        password,
        temporary,
        events,
        calls,
        decisions,
        i,
    );
    if i > 0 {
        let k = i - 1;
        assert(apply_follows(root, config, password, temporary, events[k], calls[k], decisions[k]));
        assert(apply_does(files[k], root, config, temporary, events[k], files[i]));
        assert(reports_on(decisions[k], events[i]));
        lemma_application_goes_in_order(
            root,
            config,
            password,
            temporary,
            events,
            calls,
            decisions,
            k,
        );
        lemma_files_of_an_application(
            root,
            config,
            password,
            temporary,
            events,
            calls,
            decisions,
            files,
            k,
        );
    }
}

/// The record appears exactly when an application ends with success: then it
/// holds the settings and no other file has changed. Until then the record is
/// not there, and an application that ends with an error has changed no file.
pub proof fn the_record_appears_with_success(
    root: Seq<char>,
    config: SetupConfig,
    password: Seq<u8>,
    temporary: Seq<char>,
    events: Seq<ApplyEvent>,
    calls: Seq<Option<Result<(), SetupBackendError>>>,
    decisions: Seq<ApplyDecision>,
    files: Seq<Map<Seq<char>, Seq<u8>>>,
    i: int,
)
    requires
        temporary != record_path(root),
        is_application(root, config, password, temporary, events, calls, decisions),
        are_files_of(root, config, temporary, events, files),
        0 <= i < events.len(),
    ensures
        ({
            let left = files_left(decisions[i], temporary, files[i + 1]);
            &&& decisions[i] is Done ==> left == files[0].insert(
                record_path(root),
                encode_utf8(config.record()),
            )
            &&& decisions[i] is Refused ==> left == files[0]
            &&& decisions[i] is Commit ==> !left.contains_key(record_path(root))
            &&& calls[0] is Some ==> !files[0].contains_key(record_path(root))
        }),
{
    lemma_files_of_an_application(
        root,
        config,
        password,
        temporary,
        events,
        calls,
        decisions,
        files,
        i,
    );
    lemma_application_goes_in_order(
        root,
        config,
        password,
        temporary,
        events,
        calls,
        decisions,
        i,
    );
    assert(apply_follows(root, config, password, temporary, events[0], calls[0], decisions[0]));
    assert(apply_does(files[0], root, config, temporary, events[0], files[1]));
    assert(apply_follows(root, config, password, temporary, events[i], calls[i], decisions[i]));
    assert(apply_does(files[i], root, config, temporary, events[i], files[i + 1]));
    let left = files_left(decisions[i], temporary, files[i + 1]);
    if decisions[i] is Done {
        assert(left =~= files[0].insert(record_path(root), encode_utf8(config.record())));
    }
    if decisions[i] is Refused {
        assert(left =~= files[0]);
    }
}

/// Success means that the setup is done: after an application that ended with
/// success, an inspection that finds out what the record is lets the setup count
/// as done. After one in which the backend failed, none does.
pub proof fn success_means_that_setup_is_done(
    root: Seq<char>,
    config: SetupConfig,
    password: Seq<u8>,
    temporary: Seq<char>,
    events: Seq<ApplyEvent>,
    calls: Seq<Option<Result<(), SetupBackendError>>>,
    decisions: Seq<ApplyDecision>,
    files: Seq<Map<Seq<char>, Seq<u8>>>,
    inspected: FileOutcome,
)
    requires
        temporary != record_path(root),
        events.len() > 0,
        is_application(root, config, password, temporary, events, calls, decisions),
        are_files_of(root, config, temporary, events, files),
        inspected.answers(),
        inspected.tells_of(
            files_left(decisions.last(), temporary, files.last()),
            record_path(root),
        ),
    ensures
        decisions.last() is Done ==> completion_of(root, inspected, Ok(true)),
        calls[0] matches Some(Err(_)) ==> !completion_of(root, inspected, Ok(true)),
{
    let i = events.len() - 1;
    the_record_appears_with_success(
        root,
        config,
        password,
        temporary,
        events,
        calls,
        decisions,
        files,
        i,
    );
    if calls[0] matches Some(Err(_)) {
        settings_are_recorded_only_after_the_backend(
            root,
            config,
            password,
            temporary,
            events,
            calls,
            decisions,
            0,
        );
    }
}

/// The temporary file of a process is another file than the record.
pub proof fn the_temporary_file_is_not_the_record(root: Seq<char>, process: nat)
    ensures
        joined(root, ".first-boot.conf."@ + decimal_of(process) + ".tmp"@) != record_path(root),
{
    reveal_strlit(".first-boot.conf.");
    reveal_strlit("first-boot.conf");
    let name = ".first-boot.conf."@ + decimal_of(process) + ".tmp"@;
    assert(name[0] == '.');
    joining_keeps_paths_apart(root, name, "first-boot.conf"@);
}

/// The first start: where completion is recorded, what applies the settings,
/// and the profile that is suggested.
#[derive(Debug)]
pub struct FirstBootCoordinator<B: SetupBackend> {
    /// Where completion is recorded.
    pub store: FirstBootStore,
    /// What applies the settings.
    pub backend: B,
    /// Profile that is suggested.
    pub suggested_profile: MachineProfile,
}

impl<B: SetupBackend> FirstBootCoordinator<B> {
    /// Creates a coordinator.
    pub fn new(
        store: FirstBootStore,
        backend: B,
        suggested_profile: MachineProfile,
    ) -> (coordinator: FirstBootCoordinator<B>)
        ensures
            coordinator.store == store,
            coordinator.backend == backend,
            coordinator.suggested_profile == suggested_profile,
    {
        FirstBootCoordinator { store, backend, suggested_profile }
    }

    /// Whether the setup is still to be done, from what an inspection of the
    /// record reported, and the profile that is suggested.
    pub fn status(&self, inspected: &FileOutcome) -> (result: Result<
        (bool, MachineProfile),
        FirstBootError,
    >)
        ensures
            match result {
                Ok((required, profile)) => completion_of(
                    self.store@,
                    *inspected,
                    Ok(!required),
                ) && profile == self.suggested_profile,
                Err(error) => completion_of(self.store@, *inspected, Err(error)),
            },
    {
        match self.store.is_complete(inspected) {
            Ok(complete) => Ok((!complete, self.suggested_profile)),
            Err(error) => Err(error),
        }
    }

    /// Checks whether settings can be handed to the backend.
    fn check(&self, config: &SetupConfig, password: &[u8], inspected: &FileOutcome) -> (result:
        Result<(), FirstBootError>)
        ensures
            match result {
                Ok(_) => reaches_backend(*config, password@, *inspected),
                Err(error) => !reaches_backend(*config, password@, *inspected)
                    && refused_before_backend(
                    self.store@,
                    *config,
                    password@,
                    *inspected,
                    error,
                ),
            },
    {
        match config.validate() {
            Ok(_) => {},
            Err(error) => {
                return Err(error);
            },
        }
        match validate_password(password) {
            Ok(_) => {},
            Err(error) => {
                return Err(error);
            },
        }
        match self.store.is_complete(inspected) {
            Ok(true) => Err(FirstBootError::AlreadyComplete),
            Ok(false) => Ok(()),
            Err(error) => Err(error),
        }
    }

    /// Applies settings and records them, one report after the other; each
    /// decision names the operation that the next report is on. The settings are
    /// checked first, then the password, then whether the setup was done before;
    /// only then the backend is asked, and only after it succeeded the settings
    /// are recorded. The end with success comes when the record is in its place.
    pub fn apply(
        &mut self,
        config: &SetupConfig,
        password: &[u8],
        temporary: &str,
        event: &ApplyEvent,
    ) -> (decision: ApplyDecision)
        ensures
            exists|called: Option<Result<(), SetupBackendError>>|
                #[trigger] apply_follows(
                    old(self).store@,
                    *config,
                    password@,
                    temporary@,
                    *event,
                    called,
                    decision,
                ) && backend_step(
                    old(self).backend,
                    *config,
                    password@,
                    called,
                    final(self).backend,
                ),
            final(self).store == old(self).store,
            final(self).suggested_profile == old(self).suggested_profile,
    {
        let ghost mut called: Option<Result<(), SetupBackendError>> = None;
        let decision = match event {
            ApplyEvent::Inspected(outcome) => match self.check(config, password, outcome) {
                Ok(_) => {
                    let applied = self.backend.apply(config, password);
                    proof {
                        called = Some(applied);
                    }
                    backend_outcome(applied)
                },
                Err(error) => ApplyDecision::Refused { remove_temporary: false, error },
            },
            ApplyEvent::Committed { stage, outcome } => {
                let inner = self.store.commit(config, temporary, *stage, outcome);
                assert(commit_follows(self.store@, *config, temporary@, *stage, *outcome, inner));
                match inner {
                    CommitDecision::Continue(next) => ApplyDecision::Commit(next),
                    CommitDecision::Recorded => ApplyDecision::Done,
                    CommitDecision::Refused { remove_temporary, error } => ApplyDecision::Refused {
                        remove_temporary,
                        error,
                    },
                }
            },
        };
        assert(apply_follows(
            old(self).store@,
            *config,
            password@,
            temporary@,
            *event,
            called,
            decision,
        ));
        decision
    }
}

/// Decides what follows for each answer of the backend.
pub fn backend_outcome(applied: Result<(), SetupBackendError>) -> (decision: ApplyDecision)
    ensures
        decision == after_backend(applied),
{
    match applied {
        Ok(_) => ApplyDecision::Commit(CommitStage::InspectCompletion),
        Err(error) => ApplyDecision::Refused {
            remove_temporary: false,
            error: FirstBootError::Backend(error),
        },
    }
}

/// The directory of the record, from the setting that may name another.
pub fn state_root(setting: Option<String>) -> (root: String)
    ensures
        root@ == match setting {
            Some(path) => path@,
            None => DEFAULT_STATE_DIR@,
        },
{
    match setting {
        Some(path) => path,
        None => DEFAULT_STATE_DIR.to_owned(),
    }
}

/// Each setting reaches the tool that applies it, and none reaches another: a
/// command whose second word sets the locale, the keyboard, the time zone or the
/// hostname has that setting as its last word, and the command that creates the
/// account has the name of the account there.
pub proof fn each_setting_reaches_its_tool(config: SetupConfig, i: int)
    requires
        0 <= i < setup_argv(config).len(),
    ensures
        ({
            let argv = setup_argv(config)[i];
            &&& argv[1] == "set-locale"@ ==> argv == seq![
                "/usr/bin/localectl"@,
                "set-locale"@,
                "LANG="@ + config.language@,
            ]
            &&& argv[1] == "set-keymap"@ ==> argv[0] == "/usr/bin/localectl"@ && argv.last()
                == config.keyboard@ && argv.len() == 3
            &&& argv[1] == "set-timezone"@ ==> argv[0] == "/usr/bin/timedatectl"@ && argv.last()
                == config.timezone@ && argv.len() == 3
            &&& argv[1] == "set-hostname"@ ==> argv[0] == "/usr/bin/hostnamectl"@ && argv.last()
                == config.hostname@ && argv.len() == 3
            &&& argv[0] == "/usr/sbin/useradd"@ ==> argv.last() == config.username@ && gives(
                argv,
                "--shell"@,
                "/bin/bash"@,
            ) && argv.contains("--create-home"@) && argv.contains("--user-group"@)
            &&& argv[1] == "set-locale"@ || argv[1] == "set-keymap"@ || argv[1] == "set-timezone"@
                || argv[1] == "set-hostname"@ || argv[0] == "/usr/sbin/useradd"@
        }),
{
    reveal_strlit("set-locale");
    reveal_strlit("set-keymap");
    reveal_strlit("set-timezone");
    reveal_strlit("set-hostname");
    reveal_strlit("--create-home");
    reveal_strlit("/usr/sbin/useradd");
    reveal_strlit("/usr/bin/localectl");
    reveal_strlit("/usr/bin/timedatectl");
    reveal_strlit("/usr/bin/hostnamectl");
    assert("set-locale"@[4] == 'l' && "set-keymap"@[4] == 'k' && "set-timezone"@[4] == 't');
    assert("set-hostname"@[4] == 'h' && "--create-home"@[0] == '-' && "set-locale"@[0] == 's');
    assert("set-keymap"@[0] == 's' && "set-timezone"@[0] == 's' && "set-hostname"@[0] == 's');
    assert("/usr/sbin/useradd"@[5] == 's' && "/usr/bin/localectl"@[5] == 'b');
    assert("/usr/bin/timedatectl"@[5] == 'b' && "/usr/bin/hostnamectl"@[5] == 'b');
    let add = setup_argv(config)[4];
    assert(add[1] == "--create-home"@ && add[2] == "--user-group"@ && add[3] == "--shell"@);
    let argv = setup_argv(config)[i];
    if i == 0 {
        assert(argv =~= seq!["/usr/bin/localectl"@, "set-locale"@, "LANG="@ + config.language@]);
    }
}

/// Every setting is applied, once: there is a command for each of them, and no
/// two commands are for the same.
pub proof fn every_setting_is_applied_once(config: SetupConfig, i: int, j: int)
    ensures
        exists|k: int|
            0 <= k < setup_argv(config).len() && (#[trigger] setup_argv(config)[k])[1]
                == "set-locale"@,
        exists|k: int|
            0 <= k < setup_argv(config).len() && (#[trigger] setup_argv(config)[k])[1]
                == "set-keymap"@,
        exists|k: int|
            0 <= k < setup_argv(config).len() && (#[trigger] setup_argv(config)[k])[1]
                == "set-timezone"@,
        exists|k: int|
            0 <= k < setup_argv(config).len() && (#[trigger] setup_argv(config)[k])[1]
                == "set-hostname"@,
        exists|k: int|
            0 <= k < setup_argv(config).len() && (#[trigger] setup_argv(config)[k])[0]
                == "/usr/sbin/useradd"@,
        0 <= i < setup_argv(config).len() && 0 <= j < setup_argv(config).len()
            && setup_argv(config)[i][1] == setup_argv(config)[j][1] ==> i == j,
        setup_argv(config).len() == 5,
        PASSWORD_PROGRAM@ == "/usr/sbin/chpasswd"@,
{
    reveal_strlit("set-locale");
    reveal_strlit("set-keymap");
    reveal_strlit("set-timezone");
    reveal_strlit("set-hostname");
    reveal_strlit("--create-home");
    assert("set-locale"@[4] == 'l' && "set-keymap"@[4] == 'k' && "set-timezone"@[4] == 't');
    assert("set-hostname"@[4] == 'h' && "--create-home"@[4] == 'e');
    let list = setup_argv(config);
    assert(list[0][1] == "set-locale"@ && list[1][1] == "set-keymap"@);
    assert(list[2][1] == "set-timezone"@ && list[3][1] == "set-hostname"@);
    assert(list[4][0] == "/usr/sbin/useradd"@);
}

/// The commands run one after the other, each only after those before it did
/// their work; a command that failed is the end and is named with what it gave
/// back.
pub proof fn setup_goes_one_command_after_the_other(
    config: SetupConfig,
    outcomes: Seq<SetupOutcome>,
    step: SetupStep,
)
    requires
        is_next_step(config, outcomes, step),
        outcomes.len() <= 6,
    ensures
        step matches SetupStep::Run(argv) ==> outcomes.len() < 5 && texts(argv@) == setup_argv(
            config,
        )[outcomes.len() as int],
        step is Done ==> outcomes.len() == 6,
        step is SetPassword ==> outcomes.len() == 5,
        !(step is Failed) ==> forall|k: int|
            0 <= k < outcomes.len() ==> (#[trigger] outcomes[k] matches SetupOutcome::Exited {
                success,
                ..
            } && success),
        (forall|k: int|
            0 <= k < outcomes.len() ==> (#[trigger] outcomes[k] matches SetupOutcome::Exited {
                success,
                ..
            } && success)) ==> !(step is Failed),
{
}

/// The record says every setting under its name, one line each, and nothing
/// besides; it is the record that the installer leaves for the same settings.
pub proof fn the_record_names_every_setting(config: SetupConfig, settings: InstallSettings)
    requires
        settings.locale@ == config.language@,
        settings.keyboard@ == config.keyboard@,
        settings.timezone@ == config.timezone@,
        settings.username@ == config.username@,
        settings.hostname@ == config.hostname@,
        settings.profile == config.profile,
    ensures
        config.record() == record_line("version"@, "1"@) + record_line(
            "language"@,
            config.language@,
        ) + record_line("keyboard"@, config.keyboard@) + record_line("timezone"@, config.timezone@)
            + record_line("username"@, config.username@) + record_line(
            "hostname"@,
            config.hostname@,
        ) + record_line("profile"@, config.profile.label()),
        config.record() == firstboot_record(settings),
{
    the_installer_leaves_the_record(settings);
}

/// Passwords have 8 to 1024 bytes and hold neither a zero byte nor a line break.
pub proof fn passwords_are_bounded_single_lines(password: Seq<u8>)
    ensures
        valid_secret(password) <==> 8 <= password.len() <= 1024 && !password.contains(0)
            && !password.contains(10) && !password.contains(13),
{
    if !valid_secret(password) && 8 <= password.len() <= 1024 {
        let i = choose|i: int|
            0 <= i < password.len() && !((#[trigger] password[i]) != 0 && password[i] != 0x0a
                && password[i] != 0x0d);
        assert(password.contains(password[i]));
    }
}

/// Names of accounts begin with a lower case letter or an underscore, have at
/// most 32 lower case letters, digits, underscores and hyphens, and are not
/// those of the system; every other such name is accepted.
pub proof fn accounts_are_not_those_of_the_system(value: Seq<char>)
    ensures
        !valid_account("root"@),
        !valid_account("daemon"@),
        !valid_account("bin"@),
        !valid_account("devcore"@),
        valid_account(value) ==> 1 <= value.len() <= 32 && ('a' <= value[0] <= 'z' || value[0]
            == '_'),
        1 <= value.len() <= 32 && ('a' <= value[0] <= 'z' || value[0] == '_') && (forall|i: int|
            0 <= i < value.len() ==> {
                let c = #[trigger] value[i];
                'a' <= c <= 'z' || '0' <= c <= '9' || c == '_' || c == '-'
            }) && value != "root"@ && value != "daemon"@ && value != "bin"@ && value
            != "devcore"@ ==> valid_account(value),
        valid_account(value) ==> forall|i: int|
            0 <= i < value.len() ==> {
                let c = #[trigger] value[i];
                'a' <= c <= 'z' || '0' <= c <= '9' || c == '_' || c == '-'
            },
{
}

/// Settings are refused before anything is run, and with the first reason there is:
/// the settings themselves, the password, and then a setup that is complete already.
pub proof fn setups_are_refused_for_a_reason(
    root: Seq<char>,
    config: SetupConfig,
    password: Seq<u8>,
    inspected: FileOutcome,
    error: FirstBootError,
)
    requires
        refused_before_backend(root, config, password, inspected, error),
    ensures
        config.valid() && !valid_secret(password) ==> error == FirstBootError::InvalidPassword,
        config.valid() && valid_secret(password) && inspected is Done ==> error
            == FirstBootError::AlreadyComplete,
        error == FirstBootError::AlreadyComplete && config.valid() && valid_secret(password)
            ==> inspected is Done,
        config.valid() && valid_secret(password) && inspected is OtherEntry ==> (error matches
            FirstBootError::InvalidStatePath(path) && path@ == joined(root, "first-boot.conf"@)),
        config.valid() && valid_secret(password) ==> (inspected matches FileOutcome::Failed(reason)
            ==> (error matches FirstBootError::StateIo { path, source, .. } && path@ == joined(
            root,
            "first-boot.conf"@,
        ) && source@ == reason@)),
        !(config.valid() && valid_secret(password) && inspected is NotFound),
{
}

/// The setup counts as complete exactly where its record is there.
pub proof fn the_record_tells_of_completion(
    root: Seq<char>,
    inspected: FileOutcome,
    result: Result<bool, FirstBootError>,
)
    requires
        completion_of(root, inspected, result),
    ensures
        result == Ok::<bool, FirstBootError>(true) <==> inspected is Done,
        result == Ok::<bool, FirstBootError>(false) <==> inspected is NotFound,
        DEFAULT_STATE_DIR@ == "/var/lib/devcore"@,
{
}

} // verus!
