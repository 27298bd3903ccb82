//! The installer's model: which disks may be erased, which settings are
//! accepted, and the course of an installation.
//!
//! Nothing here touches a device or keeps a password.

use crate::resource::MachineProfile;
use crate::text::{
    all_chars, alphanumeric, bounded_diagnostic, chars_of, contains, cut, digit, is_alphanumeric,
    is_digit, is_lower, join, last_chars, lower, occurs, occurs_at, same, shown, starts_with,
    text_of,
};
use vstd::prelude::*;

verus! {

/// Smallest disk that is accepted: 32 GiB.
pub const MINIMUM_DISK_BYTES: u64 = 34_359_738_368;

/// Directory of stable disk names.
pub const DISK_ID_PREFIX: &'static str = "/dev/disk/by-id/";

/// What is known of a disk.
#[derive(Clone, Debug, PartialEq, Eq)]
pub struct DiskInfo {
    /// Stable name.
    pub id: String,
    /// Device behind the name.
    pub device: String,
    /// Model, where known.
    pub model: String,
    /// Size in bytes.
    pub size_bytes: u64,
    /// Whether the medium can be removed.
    pub removable: bool,
    /// Whether the running system is on it.
    pub running_root: bool,
    /// Whether the installer was started from it.
    pub installer_media: bool,
    /// Whether it is no real device.
    pub virtual_device: bool,
}

/// Whether a disk may be erased.
#[derive(Clone, Copy, Debug, PartialEq, Eq)]
pub enum DiskEligibility {
    /// It may.
    Eligible,
    /// It may not, for a reason.
    Rejected(&'static str),
}

/// Letters, digits and the signs that stable disk names hold.
pub open spec fn is_disk_char(c: char) -> bool {
    is_alphanumeric(c) || c == '-' || c == '_' || c == '.' || c == '+'
}

/// A stable name of a whole disk: a name in the directory of stable names,
/// without a way out of it.
pub open spec fn stable_disk_id(value: Seq<char>) -> bool {
    &&& DISK_ID_PREFIX@.is_prefix_of(value)
    &&& value.len() > 16
    &&& !occurs(value, ".."@)
    &&& !occurs(value, "//"@)
    &&& forall|i: int| 16 <= i < value.len() ==> is_disk_char(#[trigger] value[i])
}

fn disk_char(c: char) -> (result: bool)
    ensures
        result == is_disk_char(c),
{
    alphanumeric(c) || c == '-' || c == '_' || c == '.' || c == '+'
}

/// Whether a text is a stable name of a whole disk.
pub fn is_stable_disk_id(value: &str) -> (result: bool)
    ensures
        result == stable_disk_id(value@),
{
    proof {
        reveal_strlit("/dev/disk/by-id/");
        assert("/dev/disk/by-id/"@.len() == 16);
    }
    if !starts_with(value, DISK_ID_PREFIX) {
        return false;
    }
    let chars = chars_of(value);
    if chars.len() <= 16 || contains(value, "..") || contains(value, "//") {
        return false;
    }
    let name = text_of(&chars, 16, chars.len());
    assert(forall|i: int| 0 <= i < name@.len() ==> #[trigger] name@[i] == value@[i + 16]);
    assert(forall|i: int| 16 <= i < value@.len() ==> #[trigger] value@[i] == name@[i - 16]);
    all_chars(name.as_str(), disk_char)
}

/// The decision on a disk; the first reason that applies is given.
pub open spec fn eligibility_of(disk: DiskInfo) -> DiskEligibility {
    if !stable_disk_id(disk.id@) {
        DiskEligibility::Rejected("disk identity must be a canonical /dev/disk/by-id path")
    } else if !"/dev/"@.is_prefix_of(disk.device@) {
        DiskEligibility::Rejected("disk does not resolve to a block-device path")
    } else if disk.removable {
        DiskEligibility::Rejected("removable media cannot be erased")
    } else if disk.running_root {
        DiskEligibility::Rejected("the running live root cannot be erased")
    } else if disk.installer_media {
        DiskEligibility::Rejected("the installer media cannot be erased")
    } else if disk.virtual_device {
        DiskEligibility::Rejected("loop, ram, and mapped devices are unsupported")
    } else if disk.size_bytes < MINIMUM_DISK_BYTES {
        DiskEligibility::Rejected("disk is smaller than the 32 GiB minimum")
    } else {
        DiskEligibility::Eligible
    }
}

impl DiskInfo {
    /// Decides whether the disk may be erased.
    pub fn eligibility(&self) -> (decision: DiskEligibility)
        ensures
            decision == eligibility_of(*self),
    {
        if !is_stable_disk_id(self.id.as_str()) {
            DiskEligibility::Rejected("disk identity must be a canonical /dev/disk/by-id path")
        } else if !starts_with(self.device.as_str(), "/dev/") {
            DiskEligibility::Rejected("disk does not resolve to a block-device path")
        } else if self.removable {
            DiskEligibility::Rejected("removable media cannot be erased")
        } else if self.running_root {
            DiskEligibility::Rejected("the running live root cannot be erased")
        } else if self.installer_media {
            DiskEligibility::Rejected("the installer media cannot be erased")
        } else if self.virtual_device {
            DiskEligibility::Rejected("loop, ram, and mapped devices are unsupported")
        } else if self.size_bytes < MINIMUM_DISK_BYTES {
            DiskEligibility::Rejected("disk is smaller than the 32 GiB minimum")
        } else {
            DiskEligibility::Eligible
        }
    }
}

/// Only large internal disks with a stable name may be erased, and never the
/// running system or the installer's own medium.
pub proof fn erasable_disks_are_safe(disk: DiskInfo)
    ensures
        eligibility_of(disk) == DiskEligibility::Eligible <==> stable_disk_id(disk.id@)
            && "/dev/"@.is_prefix_of(disk.device@) && !disk.removable && !disk.running_root
            && !disk.installer_media && !disk.virtual_device && disk.size_bytes
            >= MINIMUM_DISK_BYTES,
{
}

/// Why something is refused.
#[derive(Clone, Debug, PartialEq, Eq)]
pub enum InstallerError {
    /// The name of the disk is not stable.
    InvalidDiskId,
    /// The disk may not be erased.
    IneligibleDisk(&'static str),
    /// The phrase does not name the disk.
    InvalidConfirmation,
    /// A setting is not accepted.
    InvalidField {
        /// The setting.
        field: &'static str,
        /// The rule.
        reason: &'static str,
    },
    /// It is too late to cancel.
    CancellationUnavailable(InstallerState),
    /// A step would skip another one.
    InvalidTransition {
        /// State at hand.
        from: InstallerState,
        /// State that was asked for.
        to: InstallerState,
    },
    /// A disk or a command failed.
    Inventory(String),
}

impl InstallerError {
    /// The message for people.
    pub open spec fn text(&self) -> Seq<char> {
        match self {
            InstallerError::InvalidDiskId => "invalid stable disk identifier"@,
            InstallerError::IneligibleDisk(reason) => "selected disk is ineligible: "@ + reason@,
            InstallerError::InvalidConfirmation =>
                "destructive confirmation does not match selected disk"@,
            InstallerError::InvalidField { field, reason } => "invalid "@ + field@ + ": "@
                + reason@,
            InstallerError::CancellationUnavailable(state) =>
                "cancellation is unavailable during "@ + state.name(),
            InstallerError::InvalidTransition { from, to } =>
                "invalid installer state transition: "@ + from.name() + " -> "@ + to.name(),
            InstallerError::Inventory(message) => "disk inventory failed: "@ + message@,
        }
    }

    /// Returns the message for people.
    pub fn message(&self) -> (message: String)
        ensures
            message@ == self.text(),
    {
        match self {
            InstallerError::InvalidDiskId => "invalid stable disk identifier".to_owned(),
            InstallerError::IneligibleDisk(reason) => join(
                "selected disk is ineligible: ",
                reason,
            ),
            InstallerError::InvalidConfirmation =>
                "destructive confirmation does not match selected disk".to_owned(),
            InstallerError::InvalidField { field, reason } => {
                let mut message = join("invalid ", field);
                message.append(": ");
                message.append(reason);
                message
            },
            InstallerError::CancellationUnavailable(state) => join(
                "cancellation is unavailable during ",
                state.variant_name(),
            ),
            InstallerError::InvalidTransition { from, to } => {
                let mut message = join(
                    "invalid installer state transition: ",
                    from.variant_name(),
                );
                message.append(" -> ");
                message.append(to.variant_name());
                message
            },
            InstallerError::Inventory(reason) => join("disk inventory failed: ", reason.as_str()),
        }
    }
}

/// The phrase that has to be typed before a disk is erased: the last eight
/// characters of its name.
pub open spec fn phrase_of(disk_id: Seq<char>) -> Seq<char> {
    "ERASE "@ + last_chars(disk_id.skip(16), 8)
}

/// Returns the phrase that has to be typed before a disk is erased.
pub fn confirmation_phrase(disk_id: &str) -> (result: Result<String, InstallerError>)
    ensures
        match result {
            Ok(phrase) => stable_disk_id(disk_id@) && phrase@ == phrase_of(disk_id@),
            Err(error) => !stable_disk_id(disk_id@) && error == InstallerError::InvalidDiskId,
        },
{
    if !is_stable_disk_id(disk_id) {
        return Err(InstallerError::InvalidDiskId);
    }
    let chars = chars_of(disk_id);
    let start: usize = if chars.len() - 16 <= 8 {
        16
    } else {
        chars.len() - 8
    };
    let suffix = text_of(&chars, start, chars.len());
    assert(suffix@ =~= last_chars(disk_id@.skip(16), 8));
    Ok(join("ERASE ", suffix.as_str()))
}

/// Settings of the installed system, without secrets.
#[derive(Clone, Debug, PartialEq, Eq)]
pub struct InstallSettings {
    /// Language and region.
    pub locale: String,
    /// Keyboard layout.
    pub keyboard: String,
    /// Time zone.
    pub timezone: String,
    /// Name of the first account.
    pub username: String,
    /// Name of the machine.
    pub hostname: String,
    /// Resource profile.
    pub profile: MachineProfile,
}

/// A text of one up to a number of characters, all of them allowed.
pub open spec fn bounded(value: Seq<char>, limit: nat) -> bool {
    0 < value.len() <= limit
}

/// Characters of a locale.
pub open spec fn is_locale_char(c: char) -> bool {
    is_alphanumeric(c) || c == '-' || c == '_' || c == '.'
}

/// Characters of a keyboard layout.
pub open spec fn is_keyboard_char(c: char) -> bool {
    is_alphanumeric(c) || c == '-' || c == '_'
}

/// Characters of a time zone.
pub open spec fn is_timezone_char(c: char) -> bool {
    is_alphanumeric(c) || c == '/' || c == '_' || c == '+' || c == '-'
}

/// Characters of an account name.
pub open spec fn is_username_char(c: char) -> bool {
    is_lower(c) || is_digit(c) || c == '_' || c == '-'
}

/// Characters of a machine name.
pub open spec fn is_hostname_char(c: char) -> bool {
    is_alphanumeric(c) || c == '-'
}

fn locale_char(c: char) -> (result: bool)
    ensures
        result == is_locale_char(c),
{
    alphanumeric(c) || c == '-' || c == '_' || c == '.'
}

fn keyboard_char(c: char) -> (result: bool)
    ensures
        result == is_keyboard_char(c),
{
    alphanumeric(c) || c == '-' || c == '_'
}

fn timezone_char(c: char) -> (result: bool)
    ensures
        result == is_timezone_char(c),
{
    alphanumeric(c) || c == '/' || c == '_' || c == '+' || c == '-'
}

pub(crate) fn username_char(c: char) -> (result: bool)
    ensures
        result == is_username_char(c),
{
    lower(c) || digit(c) || c == '_' || c == '-'
}

fn hostname_char(c: char) -> (result: bool)
    ensures
        result == is_hostname_char(c),
{
    alphanumeric(c) || c == '-'
}

/// A locale that is accepted.
pub open spec fn valid_locale(value: Seq<char>) -> bool {
    bounded(value, 64) && forall|i: int| 0 <= i < value.len() ==> is_locale_char(#[trigger] value[i])
}

/// A keyboard layout that is accepted.
pub open spec fn valid_keyboard(value: Seq<char>) -> bool {
    bounded(value, 64) && forall|i: int|
        0 <= i < value.len() ==> is_keyboard_char(#[trigger] value[i])
}

/// A time zone that is accepted. No character of it is a dot.
pub open spec fn valid_timezone(value: Seq<char>) -> bool {
    bounded(value, 128) && value[0] != '/' && forall|i: int|
        0 <= i < value.len() ==> is_timezone_char(#[trigger] value[i])
}

/// Account names that are taken.
pub open spec fn is_reserved_name(value: Seq<char>) -> bool {
    value == "root"@ || value == "daemon"@ || value == "bin"@ || value == "devcore"@ || value
        == "devcore-live"@
}

/// An account name that is accepted.
pub open spec fn valid_username(value: Seq<char>) -> bool {
    bounded(value, 32) && (is_lower(value[0]) || value[0] == '_') && (forall|i: int|
        0 <= i < value.len() ==> is_username_char(#[trigger] value[i])) && !is_reserved_name(value)
}

/// A machine name that is accepted.
pub open spec fn valid_hostname(value: Seq<char>) -> bool {
    bounded(value, 63) && value[0] != '-' && value.last() != '-' && forall|i: int|
        0 <= i < value.len() ==> is_hostname_char(#[trigger] value[i])
}

pub(crate) fn check_locale(value: &str) -> (result: bool)
    ensures
        result == valid_locale(value@),
{
    let chars = chars_of(value);
    chars.len() > 0 && chars.len() <= 64 && all_chars(value, locale_char)
}

pub(crate) fn check_keyboard(value: &str) -> (result: bool)
    ensures
        result == valid_keyboard(value@),
{
    let chars = chars_of(value);
    chars.len() > 0 && chars.len() <= 64 && all_chars(value, keyboard_char)
}

pub(crate) fn check_timezone(value: &str) -> (result: bool)
    ensures
        result == valid_timezone(value@),
{
    let chars = chars_of(value);
    chars.len() > 0 && chars.len() <= 128 && chars[0] != '/' && all_chars(value, timezone_char)
}

fn check_username(value: &str) -> (result: bool)
    ensures
        result == valid_username(value@),
{
    let chars = chars_of(value);
    chars.len() > 0 && chars.len() <= 32 && (lower(chars[0]) || chars[0] == '_') && all_chars(
        value,
        username_char,
    ) && !same(value, "root") && !same(value, "daemon") && !same(value, "bin") && !same(
        value,
        "devcore",
    ) && !same(value, "devcore-live")
}

pub(crate) fn check_hostname(value: &str) -> (result: bool)
    ensures
        result == valid_hostname(value@),
{
    let chars = chars_of(value);
    chars.len() > 0 && chars.len() <= 63 && chars[0] != '-' && chars[chars.len() - 1] != '-'
        && all_chars(value, hostname_char)
}

/// No time zone that is accepted leads out of the directory of time zones.
pub proof fn timezones_do_not_traverse(value: Seq<char>)
    requires
        valid_timezone(value),
    ensures
        !occurs(value, ".."@),
{
    reveal_strlit("..");
    assert(".."@.len() == 2);
    if occurs(value, ".."@) {
        let at = choose|at: int| #[trigger] occurs_at(value, ".."@, at);
        assert(value.subrange(at, at + 2)[0] == ".."@[0]);
        assert(value[at] == '.');
        assert(is_timezone_char(value[at]));
    }
}

impl InstallSettings {
    /// What checking the settings gives: the first setting that is not accepted,
    /// in the order of the fields.
    pub open spec fn checked(&self) -> Result<(), InstallerError> {
        if !valid_locale(self.locale@) {
            Err(
                InstallerError::InvalidField {
                    field: "locale",
                    reason: "contains unsupported characters or exceeds its limit",
                },
            )
        } else if !valid_keyboard(self.keyboard@) {
            Err(
                InstallerError::InvalidField {
                    field: "keyboard",
                    reason: "contains unsupported characters or exceeds its limit",
                },
            )
        } else if !valid_timezone(self.timezone@) {
            Err(
                InstallerError::InvalidField {
                    field: "timezone",
                    reason: "must be a bounded time-zone identifier without traversal",
                },
            )
        } else if !valid_username(self.username@) {
            Err(
                InstallerError::InvalidField {
                    field: "username",
                    reason: "must be a non-reserved Linux username",
                },
            )
        } else if !valid_hostname(self.hostname@) {
            Err(
                InstallerError::InvalidField {
                    field: "hostname",
                    reason: "must be a bounded hostname without separators",
                },
            )
        } else {
            Ok(())
        }
    }

    /// The settings hold these values.
    pub open spec fn holds(
        &self,
        locale: Seq<char>,
        keyboard: Seq<char>,
        timezone: Seq<char>,
        username: Seq<char>,
        hostname: Seq<char>,
        profile: Seq<char>,
    ) -> bool {
        &&& self.locale@ == locale
        &&& self.keyboard@ == keyboard
        &&& self.timezone@ == timezone
        &&& self.username@ == username
        &&& self.hostname@ == hostname
        &&& self.profile.label() == profile
    }

    /// Creates and checks settings. The profile is read first.
    pub fn new(
        locale: &str,
        keyboard: &str,
        timezone: &str,
        username: &str,
        hostname: &str,
        profile: &str,
    ) -> (result: Result<InstallSettings, InstallerError>)
        ensures
            match result {
                Ok(settings) => settings.checked() is Ok && settings.holds(
                    locale@,
                    keyboard@,
                    timezone@,
                    username@,
                    hostname@,
                    profile@,
                ),
                Err(error) => (error == (InstallerError::InvalidField {
                    field: "profile",
                    reason: "must be low, balanced, standard, or workstation",
                }) && forall|other: MachineProfile| profile@ != #[trigger] other.label()) || exists|
                    refused: InstallSettings,
                |
                    #[trigger] refused.checked() == Err::<(), InstallerError>(error)
                        && refused.holds(
                        locale@,
                        keyboard@,
                        timezone@,
                        username@,
                        hostname@,
                        profile@,
                    ),
            },
    {
        match MachineProfile::parse(profile) {
            None => Err(
                InstallerError::InvalidField {
                    field: "profile",
                    reason: "must be low, balanced, standard, or workstation",
                },
            ),
            Some(known) => {
                let settings = InstallSettings {
                    locale: locale.to_owned(),
                    keyboard: keyboard.to_owned(),
                    timezone: timezone.to_owned(),
                    username: username.to_owned(),
                    hostname: hostname.to_owned(),
                    profile: known,
                };
                match settings.validate() {
                    Ok(_) => Ok(settings),
                    Err(error) => {
                        assert(settings.checked() == Err::<(), InstallerError>(error));
                        Err(error)
                    },
                }
            },
        }
    }

    /// Checks the settings.
    pub fn validate(&self) -> (result: Result<(), InstallerError>)
        ensures
            result == self.checked(),
    {
        if !check_locale(self.locale.as_str()) {
            return Err(
                InstallerError::InvalidField {
                    field: "locale",
                    reason: "contains unsupported characters or exceeds its limit",
                },
            );
        }
        if !check_keyboard(self.keyboard.as_str()) {
            return Err(
                InstallerError::InvalidField {
                    field: "keyboard",
                    reason: "contains unsupported characters or exceeds its limit",
                },
            );
        }
        if !check_timezone(self.timezone.as_str()) {
            return Err(
                InstallerError::InvalidField {
                    field: "timezone",
                    reason: "must be a bounded time-zone identifier without traversal",
                },
            );
        }
        if !check_username(self.username.as_str()) {
            return Err(
                InstallerError::InvalidField {
                    field: "username",
                    reason: "must be a non-reserved Linux username",
                },
            );
        }
        if !check_hostname(self.hostname.as_str()) {
            return Err(
                InstallerError::InvalidField {
                    field: "hostname",
                    reason: "must be a bounded hostname without separators",
                },
            );
        }
        Ok(())
    }
}

/// A request to install on one disk.
#[derive(Clone, Debug, PartialEq, Eq)]
pub struct InstallRequest {
    /// Stable name of the disk.
    pub disk_id: String,
    /// Settings of the installed system.
    pub settings: InstallSettings,
}

impl InstallRequest {
    /// Creates a request. The disk is looked at first, then the phrase, then the
    /// settings.
    pub fn new(disk: &DiskInfo, confirmation: &str, settings: InstallSettings) -> (result: Result<
        InstallRequest,
        InstallerError,
    >)
        ensures
            match result {
                Ok(request) => eligibility_of(*disk) == DiskEligibility::Eligible && confirmation@
                    == phrase_of(disk.id@) && settings.checked() is Ok && request.disk_id@
                    == disk.id@ && request.settings == settings,
                Err(InstallerError::IneligibleDisk(reason)) => eligibility_of(*disk)
                    == DiskEligibility::Rejected(reason),
                Err(InstallerError::InvalidConfirmation) => eligibility_of(*disk)
                    == DiskEligibility::Eligible && confirmation@ != phrase_of(disk.id@),
                Err(error) => eligibility_of(*disk) == DiskEligibility::Eligible && confirmation@
                    == phrase_of(disk.id@) && settings.checked() == Err::<(), InstallerError>(error),
            },
    {
        match disk.eligibility() {
            DiskEligibility::Eligible => {},
            DiskEligibility::Rejected(reason) => {
                return Err(InstallerError::IneligibleDisk(reason));
            },
        }
        match confirmation_phrase(disk.id.as_str()) {
            Err(error) => {
                assert(false);
                Err(error)
            },
            Ok(expected) => {
                if !same(confirmation, expected.as_str()) {
                    return Err(InstallerError::InvalidConfirmation);
                }
                match settings.validate() {
                    Ok(_) => Ok(InstallRequest { disk_id: disk.id.clone(), settings }),
                    Err(error) => Err(error),
                }
            },
        }
    }
}

/// States of an installation.
#[derive(Clone, Copy, Debug, PartialEq, Eq, Structural)]
pub enum InstallerState {
    /// Nothing was started.
    Idle,
    /// The inputs were accepted.
    Ready,
    /// The payload is prepared; the disk is untouched.
    Preparing,
    /// The disk is being changed.
    Destructive,
    /// The system is being deployed and configured.
    Deploying,
    /// The target is being finished.
    Finalizing,
    /// The target can be booted.
    Complete,
    /// Something failed.
    Failed,
    /// The installation was cancelled before the disk was changed.
    Cancelled,
}

impl InstallerState {
    /// The name of a state in messages.
    pub open spec fn name(self) -> Seq<char> {
        match self {
            InstallerState::Idle => "Idle"@,
            InstallerState::Ready => "Ready"@,
            InstallerState::Preparing => "Preparing"@,
            InstallerState::Destructive => "Destructive"@,
            InstallerState::Deploying => "Deploying"@,
            InstallerState::Finalizing => "Finalizing"@,
            InstallerState::Complete => "Complete"@,
            InstallerState::Failed => "Failed"@,
            InstallerState::Cancelled => "Cancelled"@,
        }
    }

    fn variant_name(self) -> (name: &'static str)
        ensures
            name@ == self.name(),
    {
        match self {
            InstallerState::Idle => "Idle",
            InstallerState::Ready => "Ready",
            InstallerState::Preparing => "Preparing",
            InstallerState::Destructive => "Destructive",
            InstallerState::Deploying => "Deploying",
            InstallerState::Finalizing => "Finalizing",
            InstallerState::Complete => "Complete",
            InstallerState::Failed => "Failed",
            InstallerState::Cancelled => "Cancelled",
        }
    }

    /// A state in which cancelling is safe.
    pub open spec fn cancellable(self) -> bool {
        self == InstallerState::Ready || self == InstallerState::Preparing
    }

    /// A state after which another attempt may be offered.
    pub open spec fn retryable(self) -> bool {
        self == InstallerState::Failed || self == InstallerState::Cancelled
    }

    /// Returns whether cancelling is safe.
    pub fn is_cancellable(self) -> (result: bool)
        ensures
            result == self.cancellable(),
    {
        self == InstallerState::Ready || self == InstallerState::Preparing
    }

    /// Returns whether another attempt may be offered.
    pub fn is_retryable(self) -> (result: bool)
        ensures
            result == self.retryable(),
    {
        self == InstallerState::Failed || self == InstallerState::Cancelled
    }
}

/// Phases of an installation that are shown.
#[derive(Clone, Copy, Debug, PartialEq, Eq, Structural)]
pub enum InstallPhase {
    /// The disk and the payload are checked.
    Preflight,
    /// Partitions and filesystems are made.
    Storage,
    /// The payload is deployed.
    Deployment,
    /// The account and the settings are made.
    Configuration,
    /// The target is finished.
    Finalization,
}

/// The course of one installation.
#[derive(Clone, Debug, PartialEq, Eq)]
pub struct InstallJob {
    state: InstallerState,
    phase: InstallPhase,
    diagnostic: Option<String>,
}

/// The course of one installation as a mathematical value.
pub struct JobView {
    /// State.
    pub state: InstallerState,
    /// Phase.
    pub phase: InstallPhase,
    /// What failed.
    pub diagnostic: Option<Seq<char>>,
}

impl View for InstallJob {
    type V = JobView;

    closed spec fn view(&self) -> JobView {
        JobView {
            state: self.state,
            phase: self.phase,
            diagnostic: match self.diagnostic {
                Some(text) => Some(text@),
                None => None,
            },
        }
    }
}

/// The steps that an installation may take.
pub open spec fn may_follow(from: InstallerState, to: InstallerState) -> bool {
    match (from, to) {
        (InstallerState::Idle, InstallerState::Ready) => true,
        (InstallerState::Ready, InstallerState::Preparing) => true,
        (InstallerState::Preparing, InstallerState::Destructive) => true,
        (InstallerState::Destructive, InstallerState::Deploying) => true,
        (InstallerState::Deploying, InstallerState::Deploying) => true,
        (InstallerState::Deploying, InstallerState::Finalizing) => true,
        (InstallerState::Finalizing, InstallerState::Complete) => true,
        _ => false,
    }
}

/// What a step does to a job: it is taken where it may follow, and otherwise
/// nothing changes.
pub open spec fn steps_to(
    before: JobView,
    to: InstallerState,
    phase: InstallPhase,
    after: JobView,
    result: Result<(), InstallerError>,
) -> bool {
    if may_follow(before.state, to) {
        result is Ok && after == (JobView { state: to, phase, diagnostic: before.diagnostic })
    } else {
        result == Err::<(), InstallerError>(
            InstallerError::InvalidTransition { from: before.state, to },
        ) && after == before
    }
}

impl Default for InstallJob {
    fn default() -> (job: InstallJob)
        ensures
            job@ == (JobView {
                state: InstallerState::Idle,
                phase: InstallPhase::Preflight,
                diagnostic: None,
            }),
    {
        InstallJob::new()
    }
}

impl InstallJob {
    /// Creates a job that was not started.
    pub fn new() -> (job: InstallJob)
        ensures
            job@ == (JobView {
                state: InstallerState::Idle,
                phase: InstallPhase::Preflight,
                diagnostic: None,
            }),
    {
        InstallJob {
            state: InstallerState::Idle,
            phase: InstallPhase::Preflight,
            diagnostic: None,
        }
    }

    /// Returns the state.
    pub fn state(&self) -> (state: InstallerState)
        ensures
            state == self@.state,
    {
        self.state
    }

    /// Returns the phase.
    pub fn phase(&self) -> (phase: InstallPhase)
        ensures
            phase == self@.phase,
    {
        self.phase
    }

    /// Returns what failed.
    pub fn diagnostic(&self) -> (diagnostic: Option<&str>)
        ensures
            match diagnostic {
                Some(text) => self@.diagnostic == Some(text@),
                None => self@.diagnostic is None,
            },
    {
        match &self.diagnostic {
            Some(text) => Some(text.as_str()),
            None => None,
        }
    }

    /// The inputs were accepted.
    pub fn ready(&mut self) -> (result: Result<(), InstallerError>)
        ensures
            steps_to(
                old(self)@,
                InstallerState::Ready,
                InstallPhase::Preflight,
                final(self)@,
                result,
            ),
    {
        self.transition(InstallerState::Ready, InstallPhase::Preflight)
    }

    /// The payload is prepared.
    pub fn preparing(&mut self) -> (result: Result<(), InstallerError>)
        ensures
            steps_to(
                old(self)@,
                InstallerState::Preparing,
                InstallPhase::Preflight,
                final(self)@,
                result,
            ),
    {
        self.transition(InstallerState::Preparing, InstallPhase::Preflight)
    }

    /// The disk is about to be changed.
    pub fn destructive(&mut self) -> (result: Result<(), InstallerError>)
        ensures
            steps_to(
                old(self)@,
                InstallerState::Destructive,
                InstallPhase::Storage,
                final(self)@,
                result,
            ),
    {
        self.transition(InstallerState::Destructive, InstallPhase::Storage)
    }

    /// The payload is deployed.
    pub fn deploying(&mut self) -> (result: Result<(), InstallerError>)
        ensures
            steps_to(
                old(self)@,
                InstallerState::Deploying,
                InstallPhase::Deployment,
                final(self)@,
                result,
            ),
    {
        self.transition(InstallerState::Deploying, InstallPhase::Deployment)
    }

    /// The account and the settings are made.
    pub fn configuring(&mut self) -> (result: Result<(), InstallerError>)
        ensures
            steps_to(
                old(self)@,
                InstallerState::Deploying,
                InstallPhase::Configuration,
                final(self)@,
                result,
            ),
    {
        self.transition(InstallerState::Deploying, InstallPhase::Configuration)
    }

    /// The target is being finished.
    pub fn finalizing(&mut self) -> (result: Result<(), InstallerError>)
        ensures
            steps_to(
                old(self)@,
                InstallerState::Finalizing,
                InstallPhase::Finalization,
                final(self)@,
                result,
            ),
    {
        self.transition(InstallerState::Finalizing, InstallPhase::Finalization)
    }

    /// The target can be booted.
    pub fn complete(&mut self) -> (result: Result<(), InstallerError>)
        ensures
            steps_to(
                old(self)@,
                InstallerState::Complete,
                InstallPhase::Finalization,
                final(self)@,
                result,
            ),
    {
        self.transition(InstallerState::Complete, InstallPhase::Finalization)
    }

    /// Cancels, as long as the disk is untouched.
    pub fn cancel(&mut self) -> (result: Result<(), InstallerError>)
        ensures
            if old(self)@.state.cancellable() {
                result is Ok && final(self)@ == (JobView {
                    state: InstallerState::Cancelled,
                    ..old(self)@
                })
            } else {
                result == Err::<(), InstallerError>(
                    InstallerError::CancellationUnavailable(old(self)@.state),
                ) && final(self)@ == old(self)@
            },
    {
        if !self.state.is_cancellable() {
            return Err(InstallerError::CancellationUnavailable(self.state));
        }
        self.state = InstallerState::Cancelled;
        Ok(())
    }

    /// Notes a failure, with a bounded message without control characters.
    pub fn fail(&mut self, message: &str)
        ensures
            final(self)@ == (JobView {
                state: InstallerState::Failed,
                phase: old(self)@.phase,
                diagnostic: Some(cut(shown(message@), 512)),
            }),
    {
        self.diagnostic = Some(bounded_diagnostic(message, 512));
        self.state = InstallerState::Failed;
    }

    fn transition(&mut self, state: InstallerState, phase: InstallPhase) -> (result: Result<
        (),
        InstallerError,
    >)
        ensures
            steps_to(old(self)@, state, phase, final(self)@, result),
    {
        let allowed = match (self.state, state) {
            (InstallerState::Idle, InstallerState::Ready) => true,
            (InstallerState::Ready, InstallerState::Preparing) => true,
            (InstallerState::Preparing, InstallerState::Destructive) => true,
            (InstallerState::Destructive, InstallerState::Deploying) => true,
            (InstallerState::Deploying, InstallerState::Deploying) => true,
            (InstallerState::Deploying, InstallerState::Finalizing) => true,
            (InstallerState::Finalizing, InstallerState::Complete) => true,
            _ => false,
        };
        if !allowed {
            return Err(InstallerError::InvalidTransition { from: self.state, to: state });
        }
        self.state = state;
        self.phase = phase;
        Ok(())
    }
}

/// What can happen to an installation.
pub enum JobEvent {
    /// A step to a state is asked for.
    Step(InstallerState),
    /// Cancelling is asked for.
    Cancel,
    /// Something failed.
    Fail,
}

/// The state after an event; what is refused changes nothing.
pub open spec fn state_after(state: InstallerState, event: JobEvent) -> InstallerState {
    match event {
        JobEvent::Step(to) => if may_follow(state, to) {
            to
        } else {
            state
        },
        JobEvent::Cancel => if state.cancellable() {
            InstallerState::Cancelled
        } else {
            state
        },
        JobEvent::Fail => InstallerState::Failed,
    }
}

/// The state that an installation has reached after a list of events.
pub open spec fn state_reached(events: Seq<JobEvent>) -> InstallerState
    decreases events.len(),
{
    if events.len() == 0 {
        InstallerState::Idle
    } else {
        state_after(state_reached(events.drop_last()), events.last())
    }
}

/// Whether the disk may have been changed in a state that was not a failure.
pub open spec fn disk_touched(state: InstallerState) -> bool {
    state == InstallerState::Destructive || state == InstallerState::Deploying || state
        == InstallerState::Finalizing || state == InstallerState::Complete
}

/// Some earlier point of the course had that state.
pub open spec fn passed(events: Seq<JobEvent>, state: InstallerState) -> bool {
    exists|k: int| 0 <= k <= events.len() && state_reached(#[trigger] events.take(k)) == state
}

/// Once the disk may have been changed no event leads back to a state that says
/// it was not: an installation cannot be cancelled any more.
pub proof fn disk_changes_cannot_be_cancelled(state: InstallerState, event: JobEvent)
    requires
        disk_touched(state),
    ensures
        disk_touched(state_after(state, event)) || state_after(state, event)
            == InstallerState::Failed,
        state_after(state, event) != InstallerState::Cancelled,
{
}

proof fn lemma_passed_earlier(events: Seq<JobEvent>, state: InstallerState)
    requires
        events.len() > 0,
        passed(events.drop_last(), state),
    ensures
        passed(events, state),
{
    let rest = events.drop_last();
    let k = choose|k: int| 0 <= k <= rest.len() && state_reached(#[trigger] rest.take(k)) == state;
    assert(rest.take(k) =~= events.take(k));
    assert(state_reached(events.take(k)) == state);
}

proof fn lemma_passed_now(events: Seq<JobEvent>)
    ensures
        passed(events, state_reached(events)),
{
    assert(events.take(events.len() as int) =~= events);
}

/// An installation is never called complete, nor the disk touched, before every
/// boundary was passed: inputs accepted, payload prepared, disk changed, system
/// deployed, target finished.
pub proof fn completion_passes_every_boundary(events: Seq<JobEvent>)
    ensures
        ({
            let state = state_reached(events);
            &&& state != InstallerState::Idle && state != InstallerState::Failed ==> passed(
                events,
                InstallerState::Ready,
            )
            &&& state == InstallerState::Preparing || disk_touched(state) ==> passed(
                events,
                InstallerState::Preparing,
            )
            &&& disk_touched(state) ==> passed(events, InstallerState::Destructive)
            &&& state == InstallerState::Deploying || state == InstallerState::Finalizing || state
                == InstallerState::Complete ==> passed(events, InstallerState::Deploying)
            &&& state == InstallerState::Finalizing || state == InstallerState::Complete ==> passed(
                events,
                InstallerState::Finalizing,
            )
            &&& state == InstallerState::Cancelled ==> !passed(events, InstallerState::Destructive)
        }),
    decreases events.len(),
{
    lemma_passed_now(events);
    if events.len() > 0 {
        let rest = events.drop_last();
        completion_passes_every_boundary(rest);
        let states = seq![
            InstallerState::Ready,
            InstallerState::Preparing,
            InstallerState::Destructive,
            InstallerState::Deploying,
            InstallerState::Finalizing,
        ];
        assert forall|i: int| 0 <= i < states.len() && passed(rest, #[trigger] states[i]) implies passed(
            events,
            states[i],
        ) by {
            lemma_passed_earlier(events, states[i]);
        }
        assert(states[0] == InstallerState::Ready && states[1] == InstallerState::Preparing
            && states[2] == InstallerState::Destructive && states[3] == InstallerState::Deploying
            && states[4] == InstallerState::Finalizing);
        if state_reached(events) == InstallerState::Cancelled {
            lemma_cancelled_is_untouched(events);
        }
    } else if passed(events, InstallerState::Destructive) {
        let k = choose|k: int|
            0 <= k <= events.len() && state_reached(#[trigger] events.take(k))
                == InstallerState::Destructive;
        assert(events.take(k) =~= events);
    }
}

proof fn lemma_cancelled_is_untouched(events: Seq<JobEvent>)
    requires
        !disk_touched(state_reached(events)),
        state_reached(events) != InstallerState::Failed,
    ensures
        !passed(events, InstallerState::Destructive),
    decreases events.len(),
{
    if passed(events, InstallerState::Destructive) {
        let k = choose|k: int|
            0 <= k <= events.len() && state_reached(#[trigger] events.take(k))
                == InstallerState::Destructive;
        if k == events.len() {
            assert(events.take(k) =~= events);
        } else {
            let rest = events.drop_last();
            assert(rest.take(k) =~= events.take(k));
            assert(passed(rest, InstallerState::Destructive));
            lemma_cancelled_is_untouched(rest);
        }
    }
}

/// Where disks are listed.
pub trait DiskInventory {
    /// Lists the disks.
    fn list_disks(&self) -> Result<Vec<DiskInfo>, InstallerError>;

    /// Looks a disk up again, right before it is erased.
    fn resolve_disk(&self, id: &str) -> Result<DiskInfo, InstallerError>;
}

/// A disk can be erased only where it has 32 GiB at least and a name below
/// `/dev/disk/by-id/` that cannot lead elsewhere.
pub proof fn erasable_disks_are_named_and_large(disk: DiskInfo, i: int)
    requires
        eligibility_of(disk) == DiskEligibility::Eligible,
    ensures
        disk.size_bytes >= 34_359_738_368,
        "/dev/disk/by-id/"@.is_prefix_of(disk.id@),
        disk.id@.len() > 16,
        "/dev/"@.is_prefix_of(disk.device@),
        16 <= i < disk.id@.len() ==> {
            let c = disk.id@[i];
            'a' <= c <= 'z' || 'A' <= c <= 'Z' || '0' <= c <= '9' || c == '-' || c == '_' || c
                == '.' || c == '+'
        },
        !disk.removable && !disk.running_root && !disk.installer_media && !disk.virtual_device,
{
}

/// Every disk of 32 GiB with a plain name that is neither removable, in use,
/// the installation media nor made up can be erased.
pub proof fn plain_disks_can_be_erased(disk: DiskInfo, name: Seq<char>)
    requires
        name.len() > 0,
        forall|i: int|
            0 <= i < name.len() ==> {
                let c = #[trigger] name[i];
                'a' <= c <= 'z' || 'A' <= c <= 'Z' || '0' <= c <= '9' || c == '-' || c == '_' || c
                    == '+'
            },
        disk.id@ == "/dev/disk/by-id/"@ + name,
        "/dev/"@.is_prefix_of(disk.device@),
        disk.size_bytes >= 34_359_738_368,
        !disk.removable,
        !disk.running_root,
        !disk.installer_media,
        !disk.virtual_device,
    ensures
        eligibility_of(disk) == DiskEligibility::Eligible,
{
    reveal_strlit("/dev/disk/by-id/");
    reveal_strlit("..");
    reveal_strlit("//");
    let id = disk.id@;
    assert(id.len() == 16 + name.len());
    assert forall|i: int| 16 <= i < id.len() implies is_disk_char(#[trigger] id[i]) by {
        assert(id[i] == name[i - 16]);
    }
    if occurs(id, ".."@) {
        let k = choose|k: int| #[trigger] occurs_at(id, ".."@, k);
        assert(id.subrange(k, k + 2)[0] == '.');
        assert(id[k] == '.');
        if k >= 16 {
            assert(id[k] == name[k - 16]);
        }
    }
    if occurs(id, "//"@) {
        let k = choose|k: int| #[trigger] occurs_at(id, "//"@, k);
        assert(id.subrange(k, k + 2)[0] == '/');
        assert(id.subrange(k, k + 2)[1] == '/');
        assert(id[k] == '/' && id[k + 1] == '/');
        if k >= 15 {
            assert(id[k + 1] == name[k + 1 - 16]);
        }
    }
}

/// The phrase that confirms an erasure names the disk: it is `ERASE` and the last
/// eight characters of its name, or all of a shorter one.
pub proof fn the_phrase_names_the_disk(name: Seq<char>)
    ensures
        name.len() >= 8 ==> phrase_of("/dev/disk/by-id/"@ + name) == "ERASE "@ + name.skip(
            name.len() - 8,
        ),
        name.len() < 8 ==> phrase_of("/dev/disk/by-id/"@ + name) == "ERASE "@ + name,
{
    reveal_strlit("/dev/disk/by-id/");
    assert(("/dev/disk/by-id/"@ + name).skip(16) =~= name);
}

/// The states of an installation follow one another in one order: nothing is
/// erased before it was prepared, nothing is deployed before it was erased, and
/// only what was finished is complete.
pub proof fn states_follow_in_order(from: InstallerState, to: InstallerState)
    requires
        may_follow(from, to),
    ensures
        to == InstallerState::Ready ==> from == InstallerState::Idle,
        to == InstallerState::Preparing ==> from == InstallerState::Ready,
        to == InstallerState::Destructive ==> from == InstallerState::Preparing,
        to == InstallerState::Deploying ==> from == InstallerState::Destructive || from
            == InstallerState::Deploying,
        to == InstallerState::Finalizing ==> from == InstallerState::Deploying,
        to == InstallerState::Complete ==> from == InstallerState::Finalizing,
        to != InstallerState::Idle && to != InstallerState::Failed && to
            != InstallerState::Cancelled,
{
}

/// An installation can go through: each state leads to the next.
pub proof fn installations_can_go_through()
    ensures
        may_follow(InstallerState::Idle, InstallerState::Ready),
        may_follow(InstallerState::Ready, InstallerState::Preparing),
        may_follow(InstallerState::Preparing, InstallerState::Destructive),
        may_follow(InstallerState::Destructive, InstallerState::Deploying),
        may_follow(InstallerState::Deploying, InstallerState::Deploying),
        may_follow(InstallerState::Deploying, InstallerState::Finalizing),
        may_follow(InstallerState::Finalizing, InstallerState::Complete),
        InstallerState::Ready.cancellable(),
        InstallerState::Preparing.cancellable(),
        InstallerState::Failed.retryable(),
        InstallerState::Cancelled.retryable(),
{
}

/// What can be cancelled has not touched the disk, and what can be tried again
/// has ended without success.
pub proof fn cancelling_leaves_the_disk_alone(state: InstallerState)
    ensures
        state.cancellable() ==> !disk_touched(state) && state != InstallerState::Complete,
        state.retryable() ==> state == InstallerState::Failed || state
            == InstallerState::Cancelled,
        state == InstallerState::Destructive || state == InstallerState::Deploying || state
            == InstallerState::Finalizing || state == InstallerState::Complete ==> disk_touched(
            state,
        ),
{
}

/// The bounds of the settings: the locale and the keyboard have at most 64
/// characters, the time zone 128 and is relative, the hostname 63 and neither
/// begins nor ends with a hyphen; none of them holds a character with a meaning
/// to a shell, a path or a record.
pub proof fn settings_are_bounded_and_plain(settings: InstallSettings, c: char)
    requires
        settings.checked() is Ok,
        c == ' ' || c == '\n' || c == '=' || c == ':' || c == ';' || c == '$' || c == '\\' || c
            == '"' || c == '\'' || c == '&' || c == '|' || c == ',',
    ensures
        1 <= settings.locale@.len() <= 64,
        1 <= settings.keyboard@.len() <= 64,
        1 <= settings.timezone@.len() <= 128 && settings.timezone@[0] != '/',
        1 <= settings.username@.len() <= 32,
        1 <= settings.hostname@.len() <= 63 && settings.hostname@[0] != '-'
            && settings.hostname@.last() != '-',
        !settings.locale@.contains(c),
        !settings.keyboard@.contains(c),
        !settings.timezone@.contains(c),
        !settings.username@.contains(c),
        !settings.hostname@.contains(c),
        !settings.hostname@.contains('.') && !settings.hostname@.contains('/'),
        !settings.keyboard@.contains('/') && !settings.locale@.contains('/'),
        settings.username@ != "root"@ && settings.username@ != "daemon"@ && settings.username@
            != "bin"@ && settings.username@ != "devcore"@ && settings.username@ != "devcore-live"@,
{
}

/// Plain settings are accepted: words of lower case letters and digits that begin
/// with a letter, within the bounds and not reserved.
pub proof fn plain_settings_are_accepted(word: Seq<char>)
    requires
        word.len() > 0,
        'a' <= word[0] <= 'z',
        forall|i: int|
            0 <= i < word.len() ==> {
                let c = #[trigger] word[i];
                'a' <= c <= 'z' || '0' <= c <= '9'
            },
    ensures
        word.len() <= 64 ==> valid_locale(word) && valid_keyboard(word),
        word.len() <= 128 ==> valid_timezone(word),
        word.len() <= 63 ==> valid_hostname(word),
        word.len() <= 32 && word != "root"@ && word != "daemon"@ && word != "bin"@ && word
            != "devcore"@ && word != "devcore-live"@ ==> valid_username(word),
{
    assert(word.last() == word[word.len() - 1]);
}

/// The names of the states.
pub proof fn states_have_their_names()
    ensures
        InstallerState::Idle.name() == "Idle"@,
        InstallerState::Ready.name() == "Ready"@,
        InstallerState::Preparing.name() == "Preparing"@,
        InstallerState::Destructive.name() == "Destructive"@,
        InstallerState::Deploying.name() == "Deploying"@,
        InstallerState::Finalizing.name() == "Finalizing"@,
        InstallerState::Complete.name() == "Complete"@,
        InstallerState::Failed.name() == "Failed"@,
        InstallerState::Cancelled.name() == "Cancelled"@,
{
}

/// A disk that must not be erased is refused with the reason that comes first.
pub proof fn refused_disks_are_told_why(disk: DiskInfo)
    requires
        stable_disk_id(disk.id@),
        "/dev/"@.is_prefix_of(disk.device@),
    ensures
        disk.removable ==> eligibility_of(disk) == DiskEligibility::Rejected(
            "removable media cannot be erased",
        ),
        !disk.removable && disk.running_root ==> eligibility_of(disk) == DiskEligibility::Rejected(
            "the running live root cannot be erased",
        ),
        !disk.removable && !disk.running_root && disk.installer_media ==> eligibility_of(disk)
            == DiskEligibility::Rejected("the installer media cannot be erased"),
        !disk.removable && !disk.running_root && !disk.installer_media && disk.virtual_device
            ==> eligibility_of(disk) == DiskEligibility::Rejected(
            "loop, ram, and mapped devices are unsupported",
        ),
        !disk.removable && !disk.running_root && !disk.installer_media && !disk.virtual_device
            && disk.size_bytes < 32 * 1_073_741_824 ==> eligibility_of(disk)
            == DiskEligibility::Rejected("disk is smaller than the 32 GiB minimum"),
{
}

} // verus!
