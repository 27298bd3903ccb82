//! Decisions of the installer service: what it answers, how the worker goes
//! through an installation, and which commands it runs.
//!
//! Running the commands and reading devices and files is left to the caller.

use crate::bytes::{credentials, push_bytes};
use crate::installer::{
    confirmation_phrase, eligibility_of, may_follow, phrase_of, DiskEligibility, DiskInfo,
    InstallJob, InstallPhase, InstallRequest, InstallSettings, InstallerError, InstallerState,
    JobView, DISK_ID_PREFIX,
};
use crate::path::{components, strip_base};
use crate::resource::MachineProfile;
use crate::sorted::{
    comes_before, text_before, text_before_is_irreflexive, text_before_is_total,
    text_before_is_transitive,
};
use crate::text::{
    all_hex, bounded_diagnostic, chars_of, contains, cut, decimal, decimal_of,
    decimals_say_their_number, digit, divided, ends_in, gives, hex_digit, is_digit, is_hex_digit, join, lines, lines_of, lossy_form,
    lossy_text, occurs, push_text, same, shown, split_once, starts_with, texts, trim, trimmed,
    utf8_text,
};
use vstd::prelude::*;
use vstd::utf8::{decode_utf8, encode_utf8, valid_utf8};

verus! {

/// Where the target is mounted.
pub const TARGET_ROOT: &'static str = "/run/devcore-installer/target";

/// Longest password.
pub const MAX_PASSWORD_BYTES: usize = 1024;

/// An answer that is an error.
#[derive(Clone, Debug, PartialEq, Eq)]
pub enum ServiceError {
    /// The service cannot do it now.
    Failed(String),
    /// The request is not acceptable.
    InvalidArgs(String),
}

impl ServiceError {
    /// The message of an error of that kind.
    pub open spec fn is_failure(&self, message: Seq<char>) -> bool {
        self matches ServiceError::Failed(text) && text@ == message
    }

    /// The message of an error of that kind.
    pub open spec fn is_refusal(&self, message: Seq<char>) -> bool {
        self matches ServiceError::InvalidArgs(text) && text@ == message
    }
}

fn invalid(error: &InstallerError) -> (result: ServiceError)
    ensures
        result.is_refusal(error.text()),
{
    ServiceError::InvalidArgs(error.message())
}

/// What the service remembers.
#[derive(Debug)]
pub struct ServiceState {
    /// The disk that was looked at last.
    pub preflight: Option<DiskInfo>,
    /// The installation at hand.
    pub job: InstallJob,
    /// Number of the installation at hand.
    pub job_number: u32,
    /// Number of the next installation.
    pub next_job: u32,
    /// Whether a worker is running.
    pub worker_active: bool,
}

/// The object path of an installation.
pub open spec fn job_path_of(number: u32) -> Seq<char> {
    "/org/devcore/Installer/job/"@ + decimal_of(number as nat)
}

/// Returns the object path of an installation.
pub fn job_path(number: u32) -> (path: String)
    ensures
        path@ == job_path_of(number),
{
    join("/org/devcore/Installer/job/", decimal(number as u64).as_str())
}

/// A state from which an installation may be started.
pub open spec fn startable(state: InstallerState) -> bool {
    state == InstallerState::Ready || state == InstallerState::Cancelled || state
        == InstallerState::Failed
}

/// A job in that state, without a diagnostic.
pub open spec fn fresh_job(state: InstallerState) -> JobView {
    JobView { state, phase: InstallPhase::Preflight, diagnostic: None }
}

fn copy_disk(disk: &DiskInfo) -> (copy: DiskInfo)
    ensures
        copy == *disk,
{
    DiskInfo {
        id: disk.id.clone(),
        device: disk.device.clone(),
        model: disk.model.clone(),
        size_bytes: disk.size_bytes,
        removable: disk.removable,
        running_root: disk.running_root,
        installer_media: disk.installer_media,
        virtual_device: disk.virtual_device,
    }
}

/// What starting an installation gives, up to the counter.
pub open spec fn start_outcome(
    state: ServiceState,
    confirmation: Seq<char>,
    settings: Result<InstallSettings, InstallerError>,
    result: Result<InstallRequest, ServiceError>,
) -> bool {
    if state.worker_active || !startable(state.job@.state) {
        result matches Err(error) && error.is_failure("installer is already running"@)
    } else if state.preflight is None {
        result matches Err(error) && error.is_refusal("run Preflight before Start"@)
    } else if settings is Err {
        result matches Err(error) && error.is_refusal(settings->Err_0.text())
    } else if eligibility_of(state.preflight->0) != DiskEligibility::Eligible {
        eligibility_of(state.preflight->0) matches DiskEligibility::Rejected(reason) && (
        result matches Err(error) && error.is_refusal(
            InstallerError::IneligibleDisk(reason).text(),
        ))
    } else if confirmation != phrase_of(state.preflight->0.id@) {
        result matches Err(error) && error.is_refusal(InstallerError::InvalidConfirmation.text())
    } else if settings->Ok_0.checked() is Err {
        result matches Err(error) && error.is_refusal(settings->Ok_0.checked()->Err_0.text())
    } else if state.next_job == u32::MAX {
        result matches Err(error) && error.is_failure("installer job counter exhausted"@)
    } else {
        result matches Ok(request) && request.disk_id@ == state.preflight->0.id@
            && request.settings == settings->Ok_0
    }
}

/// Whether a start got as far as taking up a new job.
pub open spec fn start_accepted(
    state: ServiceState,
    confirmation: Seq<char>,
    settings: Result<InstallSettings, InstallerError>,
) -> bool {
    &&& !state.worker_active
    &&& startable(state.job@.state)
    &&& state.preflight is Some
    &&& settings is Ok
    &&& eligibility_of(state.preflight->0) == DiskEligibility::Eligible
    &&& confirmation == phrase_of(state.preflight->0.id@)
    &&& settings->Ok_0.checked() is Ok
}

impl ServiceState {
    /// The state of a service that was just started.
    pub fn new() -> (state: ServiceState)
        ensures
            state.preflight is None,
            state.job@ == fresh_job(InstallerState::Idle),
            state.job_number == 0,
            state.next_job == 1,
            !state.worker_active,
    {
        ServiceState {
            preflight: None,
            job: InstallJob::new(),
            job_number: 0,
            next_job: 1,
            worker_active: false,
        }
    }

    /// Looks at a disk before an installation. `resolved` is what the inventory
    /// says of it. Answers with the phrase that has to be typed.
    pub fn preflight(&mut self, resolved: Result<DiskInfo, InstallerError>) -> (result: Result<
        String,
        ServiceError,
    >)
        ensures
            match result {
                Ok(phrase) => !old(self).worker_active && resolved is Ok && eligibility_of(
                    resolved->Ok_0,
                ) == DiskEligibility::Eligible && phrase@ == phrase_of(resolved->Ok_0.id@)
                    && final(self).preflight == Some(resolved->Ok_0) && final(self).job@
                    == fresh_job(InstallerState::Ready) && final(self).job_number
                    == old(self).job_number && final(self).next_job == old(self).next_job
                    && !final(self).worker_active,
                Err(error) => *final(self) == *old(self) && if old(self).worker_active {
                    error.is_failure("installer is already running"@)
                } else if resolved is Err {
                    error.is_refusal(resolved->Err_0.text())
                } else {
                    eligibility_of(resolved->Ok_0) matches DiskEligibility::Rejected(reason)
                        && error.is_refusal(InstallerError::IneligibleDisk(reason).text())
                },
            },
    {
        if self.worker_active {
            return Err(ServiceError::Failed("installer is already running".to_owned()));
        }
        let disk = match resolved {
            Ok(disk) => disk,
            Err(error) => {
                return Err(invalid(&error));
            },
        };
        match disk.eligibility() {
            DiskEligibility::Eligible => {},
            DiskEligibility::Rejected(reason) => {
                return Err(invalid(&InstallerError::IneligibleDisk(reason)));
            },
        }
        match confirmation_phrase(disk.id.as_str()) {
            Err(error) => {
                assert(false);
                Err(invalid(&error))
            },
            Ok(phrase) => {
                let mut job = InstallJob::new();
                let _ = job.ready();
                self.preflight = Some(disk);
                self.job = job;
                Ok(phrase)
            },
        }
    }

    /// Starts an installation on the disk that was looked at. `settings` is what
    /// reading the settings gave.
    pub fn start(
        &mut self,
        confirmation: &str,
        settings: Result<InstallSettings, InstallerError>,
    ) -> (result: Result<InstallRequest, ServiceError>)
        ensures
            start_outcome(*old(self), confirmation@, settings, result),
            if start_accepted(*old(self), confirmation@, settings) {
                &&& final(self).preflight == old(self).preflight
                &&& final(self).job@ == fresh_job(InstallerState::Preparing)
                &&& final(self).job_number == old(self).next_job
                &&& final(self).worker_active == (old(self).next_job < u32::MAX)
                &&& final(self).next_job == if old(self).next_job < u32::MAX {
                    (old(self).next_job + 1) as u32
                } else {
                    old(self).next_job
                }
            } else {
                *final(self) == *old(self)
            },
            result is Ok <==> start_accepted(*old(self), confirmation@, settings) && old(
                self,
            ).next_job < u32::MAX,
    {
        let current = self.job.state();
        if self.worker_active || !(current == InstallerState::Ready || current
            == InstallerState::Cancelled || current == InstallerState::Failed) {
            return Err(ServiceError::Failed("installer is already running".to_owned()));
        }
        let disk = match &self.preflight {
            Some(disk) => copy_disk(disk),
            None => {
                return Err(ServiceError::InvalidArgs("run Preflight before Start".to_owned()));
            },
        };
        let accepted = match settings {
            Ok(accepted) => accepted,
            Err(error) => {
                return Err(invalid(&error));
            },
        };
        let request = match InstallRequest::new(&disk, confirmation, accepted) {
            Ok(request) => request,
            Err(error) => {
                return Err(invalid(&error));
            },
        };
        let mut job = InstallJob::new();
        let _ = job.ready();
        let _ = job.preparing();
        self.job = job;
        self.job_number = self.next_job;
        if self.next_job == u32::MAX {
            return Err(ServiceError::Failed("installer job counter exhausted".to_owned()));
        }
        self.next_job = self.next_job + 1;
        self.worker_active = true;
        Ok(request)
    }

    /// Takes note that the worker could not be started.
    pub fn worker_not_started(&mut self)
        ensures
            !final(self).worker_active,
            final(self).job@ == (JobView {
                state: InstallerState::Failed,
                phase: old(self).job@.phase,
                diagnostic: Some(cut(shown("cannot start installer worker"@), 512)),
            }),
            final(self).preflight == old(self).preflight,
            final(self).job_number == old(self).job_number,
            final(self).next_job == old(self).next_job,
    {
        self.worker_active = false;
        self.job.fail("cannot start installer worker");
    }

    /// Answers a question about an installation.
    pub fn status(&self, job: &str) -> (result: Result<JobStatus, ServiceError>)
        ensures
            match result {
                Ok(status) => job@ == job_path_of(self.job_number) && status_of(self.job@, status),
                Err(error) => job@ != job_path_of(self.job_number) && error.is_refusal(
                    "unknown installer job"@,
                ),
            },
    {
        if !same(job, job_path(self.job_number).as_str()) {
            return Err(ServiceError::InvalidArgs("unknown installer job".to_owned()));
        }
        Ok(describe_job(&self.job))
    }

    /// Cancels an installation, as long as the disk is untouched. Answers
    /// whether that was so.
    pub fn cancel(&mut self, job: &str) -> (result: Result<bool, ServiceError>)
        ensures
            match result {
                Ok(accepted) => job@ == job_path_of(old(self).job_number) && accepted == old(
                    self,
                ).job@.state.cancellable() && final(self).job@ == (if accepted {
                    JobView { state: InstallerState::Cancelled, ..old(self).job@ }
                } else {
                    old(self).job@
                }),
                Err(error) => job@ != job_path_of(old(self).job_number) && error.is_refusal(
                    "unknown installer job"@,
                ) && final(self).job@ == old(self).job@,
            },
            final(self).preflight == old(self).preflight,
            final(self).job_number == old(self).job_number,
            final(self).next_job == old(self).next_job,
            final(self).worker_active == old(self).worker_active,
    {
        if !same(job, job_path(self.job_number).as_str()) {
            return Err(ServiceError::InvalidArgs("unknown installer job".to_owned()));
        }
        Ok(self.job.cancel().is_ok())
    }

    /// Looks at the disk again right before it is changed, and crosses that
    /// boundary. `resolved` is what the inventory says of the disk now.
    pub fn revalidate_and_transition(&mut self, resolved: Result<DiskInfo, InstallerError>) -> (
    result: Result<(), InstallerError>)
        ensures
            revalidation(*old(self), resolved, result),
            if result is Ok {
                final(self).job@ == (JobView {
                    state: InstallerState::Destructive,
                    phase: InstallPhase::Storage,
                    diagnostic: old(self).job@.diagnostic,
                })
            } else {
                final(self).job@ == old(self).job@
            },
            final(self).preflight == old(self).preflight,
            final(self).job_number == old(self).job_number,
            final(self).next_job == old(self).next_job,
            final(self).worker_active == old(self).worker_active,
    {
        let disk = match resolved {
            Ok(disk) => disk,
            Err(error) => {
                return Err(error);
            },
        };
        match disk.eligibility() {
            DiskEligibility::Eligible => {},
            DiskEligibility::Rejected(reason) => {
                return Err(InstallerError::IneligibleDisk(reason));
            },
        }
        let unchanged = match &self.preflight {
            Some(previous) => same(previous.id.as_str(), disk.id.as_str()) && same(
                previous.device.as_str(),
                disk.device.as_str(),
            ),
            None => false,
        };
        if !unchanged {
            return Err(
                InstallerError::Inventory("disk identity changed after preflight".to_owned()),
            );
        }
        self.job.destructive()
    }
}

/// What looking at the disk again gives: the error of the inventory, a reason
/// against the disk, a change of identity, or the step across the boundary.
pub open spec fn revalidation(
    state: ServiceState,
    resolved: Result<DiskInfo, InstallerError>,
    result: Result<(), InstallerError>,
) -> bool {
    if resolved is Err {
        result == Err::<(), InstallerError>(resolved->Err_0)
    } else if eligibility_of(resolved->Ok_0) != DiskEligibility::Eligible {
        result matches Err(InstallerError::IneligibleDisk(reason)) && eligibility_of(resolved->Ok_0)
            == DiskEligibility::Rejected(reason)
    } else if state.preflight is None || state.preflight->0.id@ != resolved->Ok_0.id@
        || state.preflight->0.device@ != resolved->Ok_0.device@ {
        result matches Err(InstallerError::Inventory(reason)) && reason@
            == "disk identity changed after preflight"@
    } else if state.job@.state == InstallerState::Preparing {
        result is Ok
    } else {
        result == Err::<(), InstallerError>(
            InstallerError::InvalidTransition {
                from: state.job@.state,
                to: InstallerState::Destructive,
            },
        )
    }
}

/// The label of a state.
pub open spec fn state_text(state: InstallerState) -> Seq<char> {
    match state {
        InstallerState::Idle => "idle"@,
        InstallerState::Ready => "ready"@,
        InstallerState::Preparing => "preparing"@,
        InstallerState::Destructive => "destructive"@,
        InstallerState::Deploying => "deploying"@,
        InstallerState::Finalizing => "finalizing"@,
        InstallerState::Complete => "complete"@,
        InstallerState::Failed => "failed"@,
        InstallerState::Cancelled => "cancelled"@,
    }
}

/// Returns the label of a state.
pub fn state_label(state: InstallerState) -> (label: &'static str)
    ensures
        label@ == state_text(state),
{
    match state {
        InstallerState::Idle => "idle",
        InstallerState::Ready => "ready",
        InstallerState::Preparing => "preparing",
        InstallerState::Destructive => "destructive",
        InstallerState::Deploying => "deploying",
        InstallerState::Finalizing => "finalizing",
        InstallerState::Complete => "complete",
        InstallerState::Failed => "failed",
        InstallerState::Cancelled => "cancelled",
    }
}

/// The label of a phase.
pub open spec fn phase_text(phase: InstallPhase) -> Seq<char> {
    match phase {
        InstallPhase::Preflight => "preflight"@,
        InstallPhase::Storage => "storage"@,
        InstallPhase::Deployment => "deployment"@,
        InstallPhase::Configuration => "configuration"@,
        InstallPhase::Finalization => "finalization"@,
    }
}

/// Returns the label of a phase.
pub fn phase_label(phase: InstallPhase) -> (label: &'static str)
    ensures
        label@ == phase_text(phase),
{
    match phase {
        InstallPhase::Preflight => "preflight",
        InstallPhase::Storage => "storage",
        InstallPhase::Deployment => "deployment",
        InstallPhase::Configuration => "configuration",
        InstallPhase::Finalization => "finalization",
    }
}

/// What is told of an installation.
#[derive(Clone, Debug, PartialEq, Eq)]
pub struct JobStatus {
    /// Label of the state.
    pub state: &'static str,
    /// Label of the phase.
    pub phase: &'static str,
    /// Whether another attempt may be offered.
    pub retryable: bool,
    /// Whether cancelling is safe.
    pub cancellable: bool,
    /// What failed, empty where nothing did.
    pub diagnostic: String,
}

/// The status tells what the job is.
pub open spec fn status_of(job: JobView, status: JobStatus) -> bool {
    &&& status.state@ == state_text(job.state)
    &&& status.phase@ == phase_text(job.phase)
    &&& status.retryable == job.state.retryable()
    &&& status.cancellable == job.state.cancellable()
    &&& status.diagnostic@ == match job.diagnostic {
        Some(text) => text,
        None => ""@,
    }
}

/// Tells what a job is.
pub fn describe_job(job: &InstallJob) -> (status: JobStatus)
    ensures
        status_of(job@, status),
{
    let diagnostic = match job.diagnostic() {
        Some(text) => text.to_owned(),
        None => "".to_owned(),
    };
    JobStatus {
        state: state_label(job.state()),
        phase: phase_label(job.phase()),
        retryable: job.state().is_retryable(),
        cancellable: job.state().is_cancellable(),
        diagnostic,
    }
}

/// Why a disk is not offered, empty where it is.
pub fn disk_reason(disk: &DiskInfo) -> (reason: &'static str)
    ensures
        match eligibility_of(*disk) {
            DiskEligibility::Eligible => reason@ == ""@,
            DiskEligibility::Rejected(text) => reason@ == text@,
        },
{
    match disk.eligibility() {
        DiskEligibility::Eligible => "",
        DiskEligibility::Rejected(text) => text,
    }
}

/// Operations of the worker, in their order. Those that announce progress are
/// operations too: they can fail.
#[derive(Clone, Copy, Debug, PartialEq, Eq, Structural)]
pub enum WorkerStep {
    /// Announce the check of the payload.
    AnnouncePreflight,
    /// Check the payload.
    VerifyPayload,
    /// Load the payload.
    LoadPayload,
    /// Read which image the payload is.
    ReadReference,
    /// Find the loaded image.
    ResolveImage,
    /// Look at the disk again.
    ResolveDisk,
    /// Announce the preparation of the disk.
    AnnounceStorage,
    /// Make partitions and filesystems and mount them.
    PrepareTarget,
    /// Announce the deployment.
    AnnounceDeployment,
    /// Deploy the payload.
    Deploy,
    /// Announce the configuration.
    AnnounceConfiguration,
    /// Make the account and the settings.
    Configure,
    /// Announce the end.
    AnnounceFinalization,
    /// Finish the target.
    Finalize,
    /// Unmount the target.
    Unmount,
    /// Announce success.
    AnnounceComplete,
}

/// The number of operations before one.
pub open spec fn step_index(step: WorkerStep) -> nat {
    match step {
        WorkerStep::AnnouncePreflight => 0,
        WorkerStep::VerifyPayload => 1,
        WorkerStep::LoadPayload => 2,
        WorkerStep::ReadReference => 3,
        WorkerStep::ResolveImage => 4,
        WorkerStep::ResolveDisk => 5,
        WorkerStep::AnnounceStorage => 6,
        WorkerStep::PrepareTarget => 7,
        WorkerStep::AnnounceDeployment => 8,
        WorkerStep::Deploy => 9,
        WorkerStep::AnnounceConfiguration => 10,
        WorkerStep::Configure => 11,
        WorkerStep::AnnounceFinalization => 12,
        WorkerStep::Finalize => 13,
        WorkerStep::Unmount => 14,
        WorkerStep::AnnounceComplete => 15,
    }
}

/// The operation after one, none after the last.
pub open spec fn step_after(step: WorkerStep) -> Option<WorkerStep> {
    match step {
        WorkerStep::AnnouncePreflight => Some(WorkerStep::VerifyPayload),
        WorkerStep::VerifyPayload => Some(WorkerStep::LoadPayload),
        WorkerStep::LoadPayload => Some(WorkerStep::ReadReference),
        WorkerStep::ReadReference => Some(WorkerStep::ResolveImage),
        WorkerStep::ResolveImage => Some(WorkerStep::ResolveDisk),
        WorkerStep::ResolveDisk => Some(WorkerStep::AnnounceStorage),
        WorkerStep::AnnounceStorage => Some(WorkerStep::PrepareTarget),
        WorkerStep::PrepareTarget => Some(WorkerStep::AnnounceDeployment),
        WorkerStep::AnnounceDeployment => Some(WorkerStep::Deploy),
        WorkerStep::Deploy => Some(WorkerStep::AnnounceConfiguration),
        WorkerStep::AnnounceConfiguration => Some(WorkerStep::Configure),
        WorkerStep::Configure => Some(WorkerStep::AnnounceFinalization),
        WorkerStep::AnnounceFinalization => Some(WorkerStep::Finalize),
        WorkerStep::Finalize => Some(WorkerStep::Unmount),
        WorkerStep::Unmount => Some(WorkerStep::AnnounceComplete),
        WorkerStep::AnnounceComplete => None,
    }
}

/// The state in which the job is when an operation is carried out.
pub open spec fn state_at(step: WorkerStep) -> InstallerState {
    if step_index(step) <= 5 {
        InstallerState::Preparing
    } else if step_index(step) <= 7 {
        InstallerState::Destructive
    } else if step_index(step) <= 11 {
        InstallerState::Deploying
    } else if step_index(step) <= 14 {
        InstallerState::Finalizing
    } else {
        InstallerState::Complete
    }
}

/// The step of the job that an operation is followed by, if any. Looking at the
/// disk again takes its step by itself.
pub open spec fn transition_after(step: WorkerStep) -> Option<(InstallerState, InstallPhase)> {
    match step {
        WorkerStep::PrepareTarget => Some((InstallerState::Deploying, InstallPhase::Deployment)),
        WorkerStep::Deploy => Some((InstallerState::Deploying, InstallPhase::Configuration)),
        WorkerStep::Configure => Some((InstallerState::Finalizing, InstallPhase::Finalization)),
        WorkerStep::Unmount => Some((InstallerState::Complete, InstallPhase::Finalization)),
        _ => None,
    }
}

/// Progress that is announced.
#[derive(Clone, Copy, Debug, PartialEq, Eq)]
pub struct Progress {
    /// Phase.
    pub phase: &'static str,
    /// Percentage.
    pub completed: u32,
    /// What is done.
    pub detail: &'static str,
}

/// What an operation announces, if it announces something.
pub open spec fn announcement(step: WorkerStep) -> Option<Progress> {
    match step {
        WorkerStep::AnnouncePreflight => Some(
            Progress {
                phase: "preflight",
                completed: 5,
                detail: "Verifying embedded BaseOS payload",
            },
        ),
        WorkerStep::AnnounceStorage => Some(
            Progress { phase: "storage", completed: 20, detail: "Preparing the selected disk" },
        ),
        WorkerStep::AnnounceDeployment => Some(
            Progress {
                phase: "deployment",
                completed: 45,
                detail: "Deploying DevCore BaseOS from local media",
            },
        ),
        WorkerStep::AnnounceConfiguration => Some(
            Progress {
                phase: "configuration",
                completed: 78,
                detail: "Creating the DevCore account",
            },
        ),
        WorkerStep::AnnounceFinalization => Some(
            Progress {
                phase: "finalization",
                completed: 94,
                detail: "Finalizing the boot target",
            },
        ),
        WorkerStep::AnnounceComplete => Some(
            Progress {
                phase: "complete",
                completed: 100,
                detail: "DevCore OS is ready to reboot",
            },
        ),
        _ => None,
    }
}

/// Returns what an operation announces, if it announces something.
pub fn progress_of(step: WorkerStep) -> (progress: Option<Progress>)
    ensures
        progress == announcement(step),
{
    match step {
        WorkerStep::AnnouncePreflight => Some(
            Progress {
                phase: "preflight",
                completed: 5,
                detail: "Verifying embedded BaseOS payload",
            },
        ),
        WorkerStep::AnnounceStorage => Some(
            Progress { phase: "storage", completed: 20, detail: "Preparing the selected disk" },
        ),
        WorkerStep::AnnounceDeployment => Some(
            Progress {
                phase: "deployment",
                completed: 45,
                detail: "Deploying DevCore BaseOS from local media",
            },
        ),
        WorkerStep::AnnounceConfiguration => Some(
            Progress {
                phase: "configuration",
                completed: 78,
                detail: "Creating the DevCore account",
            },
        ),
        WorkerStep::AnnounceFinalization => Some(
            Progress {
                phase: "finalization",
                completed: 94,
                detail: "Finalizing the boot target",
            },
        ),
        WorkerStep::AnnounceComplete => Some(
            Progress {
                phase: "complete",
                completed: 100,
                detail: "DevCore OS is ready to reboot",
            },
        ),
        _ => None,
    }
}

/// Announced progress never goes back.
pub proof fn progress_grows(a: WorkerStep, b: WorkerStep)
    requires
        step_index(a) < step_index(b),
        announcement(a) is Some,
        announcement(b) is Some,
    ensures
        announcement(a)->0.completed < announcement(b)->0.completed <= 100,
{
}

/// What the worker does after an operation.
#[derive(Debug, PartialEq, Eq)]
pub enum WorkerDecision {
    /// Carry out the next operation.
    Continue(WorkerStep),
    /// All operations are done.
    Succeeded,
    /// End with an error.
    Failed(InstallerError),
}

/// What follows an operation that succeeded: the job takes its step, which can
/// be refused, and the next operation is due.
pub open spec fn follows(
    job: JobView,
    step: WorkerStep,
    after: JobView,
    decision: WorkerDecision,
) -> bool {
    let go_on = match step_after(step) {
        Some(next) => WorkerDecision::Continue(next),
        None => WorkerDecision::Succeeded,
    };
    match transition_after(step) {
        Some((to, phase)) => if may_follow(job.state, to) {
            after == (JobView { state: to, phase, diagnostic: job.diagnostic }) && decision == go_on
        } else {
            after == job && decision == WorkerDecision::Failed(
                InstallerError::InvalidTransition { from: job.state, to },
            )
        },
        None => after == job && decision == go_on,
    }
}

fn next_decision(step: WorkerStep) -> (decision: WorkerDecision)
    ensures
        decision == match step_after(step) {
            Some(next) => WorkerDecision::Continue(next),
            None => WorkerDecision::Succeeded,
        },
{
    match step {
        WorkerStep::AnnouncePreflight => WorkerDecision::Continue(WorkerStep::VerifyPayload),
        WorkerStep::VerifyPayload => WorkerDecision::Continue(WorkerStep::LoadPayload),
        WorkerStep::LoadPayload => WorkerDecision::Continue(WorkerStep::ReadReference),
        WorkerStep::ReadReference => WorkerDecision::Continue(WorkerStep::ResolveImage),
        WorkerStep::ResolveImage => WorkerDecision::Continue(WorkerStep::ResolveDisk),
        WorkerStep::ResolveDisk => WorkerDecision::Continue(WorkerStep::AnnounceStorage),
        WorkerStep::AnnounceStorage => WorkerDecision::Continue(WorkerStep::PrepareTarget),
        WorkerStep::PrepareTarget => WorkerDecision::Continue(WorkerStep::AnnounceDeployment),
        WorkerStep::AnnounceDeployment => WorkerDecision::Continue(WorkerStep::Deploy),
        WorkerStep::Deploy => WorkerDecision::Continue(WorkerStep::AnnounceConfiguration),
        WorkerStep::AnnounceConfiguration => WorkerDecision::Continue(WorkerStep::Configure),
        WorkerStep::Configure => WorkerDecision::Continue(WorkerStep::AnnounceFinalization),
        WorkerStep::AnnounceFinalization => WorkerDecision::Continue(WorkerStep::Finalize),
        WorkerStep::Finalize => WorkerDecision::Continue(WorkerStep::Unmount),
        WorkerStep::Unmount => WorkerDecision::Continue(WorkerStep::AnnounceComplete),
        WorkerStep::AnnounceComplete => WorkerDecision::Succeeded,
    }
}

/// A worker's last word on an installation.
#[derive(Clone, Debug, PartialEq, Eq)]
pub struct WorkerReport {
    /// Label of the state.
    pub state: &'static str,
    /// Whether another attempt may be offered.
    pub retryable: bool,
    /// What is told about it.
    pub diagnostic: String,
}

/// The text that is told of a failure, with the failure of the clean-up if that
/// failed too.
pub open spec fn failure_text(error: InstallerError, cleanup: Option<InstallerError>) -> Seq<char> {
    cut(
        shown(
            match cleanup {
                Some(also) => error.text() + "; target cleanup failed: "@ + also.text(),
                None => error.text(),
            },
        ),
        512,
    )
}

impl ServiceState {
    /// Decides what follows an operation of the worker. Where the disk was
    /// looked at again, `outcome` is what crossing the boundary gave.
    pub fn run_install_worker(
        &mut self,
        step: WorkerStep,
        outcome: Result<(), InstallerError>,
    ) -> (decision: WorkerDecision)
        ensures
            match outcome {
                Ok(_) => follows(old(self).job@, step, final(self).job@, decision),
                Err(error) => decision == WorkerDecision::Failed(error) && final(self).job@ == old(
                    self,
                ).job@,
            },
            final(self).preflight == old(self).preflight,
            final(self).job_number == old(self).job_number,
            final(self).next_job == old(self).next_job,
            final(self).worker_active == old(self).worker_active,
    {
        match outcome {
            Err(error) => {
                return WorkerDecision::Failed(error);
            },
            Ok(_) => {},
        }
        let taken = match step {
            WorkerStep::PrepareTarget => self.job.deploying(),
            WorkerStep::Deploy => self.job.configuring(),
            WorkerStep::Configure => self.job.finalizing(),
            WorkerStep::Unmount => self.job.complete(),
            _ => Ok(()),
        };
        match taken {
            Ok(_) => next_decision(step),
            Err(error) => WorkerDecision::Failed(error),
        }
    }

    /// Whether a failure has to be followed by a clean-up: the disk may have
    /// been changed, and the installation was not cancelled.
    pub fn needs_cleanup(&self, storage_started: bool) -> (result: bool)
        ensures
            result == (storage_started && self.job@.state != InstallerState::Cancelled),
    {
        storage_started && self.job.state() != InstallerState::Cancelled
    }

    /// Ends the work. After success the target is told to be bootable; after a
    /// cancellation nothing is told; any other failure is noted and told, with
    /// that of the clean-up.
    pub fn finish_worker(
        &mut self,
        result: Result<(), InstallerError>,
        cleanup: Option<InstallerError>,
    ) -> (report: Option<WorkerReport>)
        ensures
            match result {
                Ok(_) => final(self).job@ == old(self).job@ && (report matches Some(told)
                    && told.state@ == "complete"@ && !told.retryable && told.diagnostic@
                    == "target finalized and safe to boot"@),
                Err(error) => if old(self).job@.state == InstallerState::Cancelled {
                    report is None && final(self).job@ == old(self).job@
                } else {
                    &&& report matches Some(told) && told.state@ == "failed"@ && told.retryable
                        && told.diagnostic@ == failure_text(error, cleanup)
                    &&& final(self).job@ == (JobView {
                        state: InstallerState::Failed,
                        phase: old(self).job@.phase,
                        diagnostic: Some(cut(shown(failure_text(error, cleanup)), 512)),
                    })
                },
            },
            !final(self).worker_active,
            final(self).preflight == old(self).preflight,
            final(self).job_number == old(self).job_number,
            final(self).next_job == old(self).next_job,
    {
        self.worker_active = false;
        match result {
            Ok(_) => Some(
                WorkerReport {
                    state: "complete",
                    retryable: false,
                    diagnostic: "target finalized and safe to boot".to_owned(),
                },
            ),
            Err(error) => {
                if self.job.state() == InstallerState::Cancelled {
                    return None;
                }
                let mut text = error.message();
                if let Some(also) = cleanup {
                    text.append("; target cleanup failed: ");
                    text.append(also.message().as_str());
                }
                let diagnostic = sanitize_diagnostic(text.as_str());
                self.job.fail(diagnostic.as_str());
                Some(WorkerReport { state: "failed", retryable: true, diagnostic })
            },
        }
    }
}

/// A worker that keeps going carries the job along: before each operation the
/// job is in the state that belongs to it, and when all operations are done the
/// job is complete. (Looking at the disk again has crossed the boundary by then.)
/// So success is only told after the target was unmounted.
pub proof fn worker_carries_the_job_along(
    job: JobView,
    step: WorkerStep,
    after: JobView,
    decision: WorkerDecision,
)
    requires
        job.state == if step == WorkerStep::ResolveDisk {
            InstallerState::Destructive
        } else {
            state_at(step)
        },
        follows(job, step, after, decision),
    ensures
        decision matches WorkerDecision::Continue(next) ==> after.state == state_at(next)
            && step_index(next) == step_index(step) + 1,
        decision is Succeeded ==> step == WorkerStep::AnnounceComplete && after.state
            == InstallerState::Complete,
        !(decision is Failed),
{
}

/// A run of the worker: it begins with the first operation, and each operation
/// is the one that is due after the one before.
pub open spec fn is_run(run: Seq<WorkerStep>) -> bool {
    &&& run.len() > 0
    &&& run[0] == WorkerStep::AnnouncePreflight
    &&& forall|i: int| 0 < i < run.len() ==> step_after(run[i - 1]) == Some(#[trigger] run[i])
}

/// The disk is changed, and the payload deployed, only after the payload was
/// verified, its image found and the disk looked at again, in this order.
pub proof fn disk_changes_come_after_every_check(run: Seq<WorkerStep>, at: int)
    requires
        is_run(run),
        0 <= at < run.len(),
        run[at] == WorkerStep::PrepareTarget || run[at] == WorkerStep::Deploy,
    ensures
        exists|payload: int, image: int, disk: int|
            0 <= payload < image < disk < at && #[trigger] run[payload] == WorkerStep::VerifyPayload
                && #[trigger] run[image] == WorkerStep::ResolveImage && #[trigger] run[disk]
                == WorkerStep::ResolveDisk,
{
    lemma_run_is_counted(run, at);
    let payload = step_index(WorkerStep::VerifyPayload) as int;
    let image = step_index(WorkerStep::ResolveImage) as int;
    let disk = step_index(WorkerStep::ResolveDisk) as int;
    lemma_run_is_counted(run, payload);
    lemma_run_is_counted(run, image);
    lemma_run_is_counted(run, disk);
    assert(run[payload] == WorkerStep::VerifyPayload);
    assert(run[image] == WorkerStep::ResolveImage);
    assert(run[disk] == WorkerStep::ResolveDisk);
}

proof fn lemma_run_is_counted(run: Seq<WorkerStep>, at: int)
    requires
        is_run(run),
        0 <= at < run.len(),
    ensures
        step_index(run[at]) == at,
    decreases at,
{
    if at > 0 {
        lemma_run_is_counted(run, at - 1);
        assert(step_after(run[at - 1]) == Some(run[at]));
    }
}

/// An installation that was cancelled goes no further than the boundary: the
/// disk is not changed.
pub proof fn cancelled_work_stops_at_the_boundary(
    state: ServiceState,
    resolved: Result<DiskInfo, InstallerError>,
    result: Result<(), InstallerError>,
)
    requires
        state.job@.state == InstallerState::Cancelled,
        revalidation(state, resolved, result),
    ensures
        result is Err,
{
}

/// Makes a text fit for a diagnostic.
pub fn sanitize_diagnostic(value: &str) -> (text: String)
    ensures
        text@ == cut(shown(value@), 512),
{
    bounded_diagnostic(value, 512)
}

/// Makes what a command wrote to its error stream fit for a diagnostic.
pub fn bounded_stderr(stderr: &Vec<u8>) -> (text: String)
    ensures
        text@ == cut(shown(lossy_form(stderr@)), 256),
{
    let text = lossy_text(stderr);
    bounded_diagnostic(text.as_str(), 256)
}

/// The error of a command that failed.
pub fn command_failure(program: &str, status: &str, stderr: &Vec<u8>) -> (error: InstallerError)
    ensures
        error matches InstallerError::Inventory(text) && text@ == program@ + " failed with "@
            + status@ + ": "@ + cut(shown(lossy_form(stderr@)), 256),
{
    let mut text = join(program, " failed with ");
    text.append(status);
    text.append(": ");
    text.append(bounded_stderr(stderr).as_str());
    InstallerError::Inventory(text)
}

/// A block device as the system lists it.
#[derive(Clone, Debug, PartialEq, Eq)]
pub struct BlockDevice {
    /// Name.
    pub name: Option<String>,
    /// Path.
    pub path: Option<String>,
    /// Kind.
    pub kind: Option<String>,
    /// Size in bytes.
    pub size: Option<u64>,
    /// Whether the medium can be removed.
    pub removable: Option<bool>,
    /// Model.
    pub model: Option<String>,
}

/// The text of an optional field, empty where there is none.
pub open spec fn text_or_empty(value: Option<String>) -> Seq<char> {
    match value {
        Some(text) => text@,
        None => ""@,
    }
}

/// The path of a device.
pub open spec fn path_of_device(device: BlockDevice) -> Seq<char> {
    match device.path {
        Some(path) => path@,
        None => "/dev/"@ + text_or_empty(device.name),
    }
}

/// A device that is a whole disk.
pub open spec fn is_whole_disk(device: BlockDevice) -> bool {
    device.kind matches Some(kind) && kind@ == "disk"@
}

/// Whether a device is a whole disk.
pub fn is_disk(device: &BlockDevice) -> (result: bool)
    ensures
        result == is_whole_disk(*device),
{
    match &device.kind {
        Some(kind) => same(kind.as_str(), "disk"),
        None => false,
    }
}

/// Returns the path of a device.
pub fn device_path(device: &BlockDevice) -> (path: String)
    ensures
        path@ == path_of_device(*device),
{
    match &device.path {
        Some(path) => path.clone(),
        None => match &device.name {
            Some(name) => join("/dev/", name.as_str()),
            None => join("/dev/", ""),
        },
    }
}

/// A stable name that can stand for a whole disk.
pub open spec fn is_whole_disk_name(name: Seq<char>) -> bool {
    DISK_ID_PREFIX@.is_prefix_of(name) && !occurs(name, "-part"@)
}

/// The name that comes first among those that stand for the whole disk.
pub open spec fn is_first_name(names: Seq<Seq<char>>, name: Seq<char>) -> bool {
    &&& names.contains(name)
    &&& is_whole_disk_name(name)
    &&& forall|i: int|
        0 <= i < names.len() && is_whole_disk_name(#[trigger] names[i]) ==> !text_before(
            names[i],
            name,
        )
}

/// Picks the stable name of a disk among the names that lead to it.
pub fn stable_id(names: &Vec<String>) -> (name: Option<String>)
    ensures
        match name {
            Some(found) => is_first_name(texts(names@), found@),
            None => forall|i: int|
                0 <= i < names@.len() ==> !is_whole_disk_name(#[trigger] texts(names@)[i]),
        },
{
    let ghost all = texts(names@);
    let mut best: Option<usize> = None;
    let mut i: usize = 0;
    while i < names.len()
        invariant
            i <= names@.len(),
            all == texts(names@),
            match best {
                Some(b) => b < i && is_whole_disk_name(all[b as int]) && forall|k: int|
                    0 <= k < i && is_whole_disk_name(#[trigger] all[k]) ==> !text_before(
                        all[k],
                        all[b as int],
                    ),
                None => forall|k: int| 0 <= k < i ==> !is_whole_disk_name(#[trigger] all[k]),
            },
        decreases names.len() - i,
    {
        let name = names[i].as_str();
        assert(all[i as int] == name@);
        if starts_with(name, DISK_ID_PREFIX) && !contains(name, "-part") {
            match best {
                None => {
                    proof {
                        text_before_is_irreflexive(name@);
                    }
                    best = Some(i);
                },
                Some(b) => {
                    assert(all[b as int] == names@[b as int]@);
                    if comes_before(name, names[b].as_str()) {
                        proof {
                            text_before_is_irreflexive(name@);
                            assert forall|k: int|
                                0 <= k < i + 1 && is_whole_disk_name(
                                    #[trigger] all[k],
                                ) implies !text_before(all[k], name@) by {
                                if k < i && text_before(all[k], name@) {
                                    text_before_is_transitive(
                                        all[k],
                                        name@,
                                        all[b as int],
                                    );
                                }
                            }
                        }
                        best = Some(i);
                    }
                },
            }
        }
        i = i + 1;
    }
    match best {
        Some(b) => {
            assert(all[b as int] == names@[b as int]@);
            assert(all.contains(all[b as int]));
            Some(names[b].clone())
        },
        None => None,
    }
}

/// Some line of a text holds a part.
pub open spec fn line_holds(text: Seq<char>, part: Seq<char>) -> bool {
    exists|i: int|
        0 <= i < lines_of(text).len() && occurs(#[trigger] lines_of(text)[i], part)
}

/// Some line of a text names a device and a place of installer media.
pub open spec fn line_holds_media(text: Seq<char>, device: Seq<char>) -> bool {
    exists|i: int|
        0 <= i < lines_of(text).len() && occurs(#[trigger] lines_of(text)[i], device) && (occurs(
            lines_of(text)[i],
            "/run/initramfs"@,
        ) || occurs(lines_of(text)[i], "/run/media"@))
}

/// Whether the running system is on a device, from the list of mounts. Where
/// the list is not known it is taken to be.
pub fn device_is_running_root(device: &str, mounts: Option<&str>) -> (result: bool)
    ensures
        result == match mounts {
            Some(text) => line_holds(text@, device@),
            None => true,
        },
{
    match mounts {
        None => true,
        Some(text) => {
            let list = lines(text);
            let ghost all = lines_of(text@);
            let mut i: usize = 0;
            while i < list.len()
                invariant
                    i <= list@.len(),
                    mounts == Some(text),
                    texts(list@) == all,
                    all == lines_of(text@),
                    forall|k: int| 0 <= k < i ==> !occurs(#[trigger] all[k], device@),
                decreases list.len() - i,
            {
                assert(all[i as int] == list@[i as int]@);
                if contains(list[i].as_str(), device) {
                    assert(occurs(all[i as int], device@));
                    return true;
                }
                i = i + 1;
            }
            false
        },
    }
}

/// Whether the installer was started from a device, from the list of mounts.
/// Where the list is not known it is taken to be.
pub fn device_is_installer_media(device: &str, mounts: Option<&str>) -> (result: bool)
    ensures
        result == match mounts {
            Some(text) => line_holds_media(text@, device@),
            None => true,
        },
{
    match mounts {
        None => true,
        Some(text) => {
            let list = lines(text);
            let ghost all = lines_of(text@);
            let mut i: usize = 0;
            while i < list.len()
                invariant
                    i <= list@.len(),
                    mounts == Some(text),
                    texts(list@) == all,
                    all == lines_of(text@),
                    forall|k: int|
                        0 <= k < i ==> !(occurs(#[trigger] all[k], device@) && (occurs(
                            all[k],
                            "/run/initramfs"@,
                        ) || occurs(all[k], "/run/media"@))),
                decreases list.len() - i,
            {
                let line = list[i].as_str();
                assert(all[i as int] == line@);
                if contains(line, device) && (contains(line, "/run/initramfs") || contains(
                    line,
                    "/run/media",
                )) {
                    assert(occurs(all[i as int], device@));
                    return true;
                }
                i = i + 1;
            }
            false
        },
    }
}

/// The characters of a text that may be absent.
pub open spec fn optional_view(text: Option<&str>) -> Option<Seq<char>> {
    match text {
        Some(value) => Some(value@),
        None => None,
    }
}

/// The facts of a disk are those of the device and its name.
pub open spec fn is_disk_of(
    disk: DiskInfo,
    device: BlockDevice,
    id: Seq<char>,
    mounts: Option<Seq<char>>,
) -> bool {
    &&& disk.id@ == id
    &&& disk.device@ == path_of_device(device)
    &&& disk.model@ == trimmed(text_or_empty(device.model))
    &&& disk.size_bytes == match device.size {
        Some(size) => size,
        None => 0,
    }
    &&& disk.removable == match device.removable {
        Some(removable) => removable,
        None => false,
    }
    &&& disk.running_root == match mounts {
        Some(text) => line_holds(text, path_of_device(device)),
        None => true,
    }
    &&& disk.installer_media == match mounts {
        Some(text) => line_holds_media(text, path_of_device(device)),
        None => true,
    }
    &&& !disk.virtual_device
}

/// Puts the facts of a disk together.
pub fn disk_from_device(device: &BlockDevice, id: String, mounts: Option<&str>) -> (disk: DiskInfo)
    ensures
        is_disk_of(disk, *device, id@, optional_view(mounts)),
{
    let path = device_path(device);
    let model = match &device.model {
        Some(text) => trim(text.as_str()),
        None => trim(""),
    };
    let size_bytes = match device.size {
        Some(size) => size,
        None => 0,
    };
    let removable = match device.removable {
        Some(removable) => removable,
        None => false,
    };
    let running_root = device_is_running_root(path.as_str(), mounts);
    let installer_media = device_is_installer_media(path.as_str(), mounts);
    DiskInfo {
        id,
        device: path,
        model,
        size_bytes,
        removable,
        running_root,
        installer_media,
        virtual_device: false,
    }
}

/// A list of disks with one more at its place: behind all whose names do not
/// come after its own.
pub open spec fn with_disk(list: Seq<DiskInfo>, disk: DiskInfo) -> Seq<DiskInfo>
    decreases list.len(),
{
    if list.len() > 0 && text_before(disk.id@, list.last().id@) {
        with_disk(list.drop_last(), disk).push(list.last())
    } else {
        list.push(disk)
    }
}

/// Disks in the order of their names; disks of one name keep their order.
pub open spec fn by_name(list: Seq<DiskInfo>) -> Seq<DiskInfo>
    decreases list.len(),
{
    if list.len() == 0 {
        Seq::empty()
    } else {
        with_disk(by_name(list.drop_last()), list.last())
    }
}

/// Puts disks in the order of their names.
pub fn sort_disks(list: Vec<DiskInfo>) -> (sorted: Vec<DiskInfo>)
    ensures
        sorted@ == by_name(list@),
{
    let mut sorted: Vec<DiskInfo> = Vec::new();
    let mut i: usize = 0;
    assert(list@.take(0) =~= Seq::empty());
    while i < list.len()
        invariant
            i <= list@.len(),
            sorted@ == by_name(list@.take(i as int)),
        decreases list.len() - i,
    {
        let ghost before = sorted@;
        let disk = copy_disk(&list[i]);
        let mut k: usize = sorted.len();
        assert(before.take(before.len() as int) =~= before);
        assert(before.skip(before.len() as int) =~= Seq::empty());
        assert(with_disk(before, disk) =~= with_disk(before, disk) + Seq::empty());
        while k > 0 && comes_before(disk.id.as_str(), sorted[k - 1].id.as_str())
            invariant
                k <= sorted@.len(),
                sorted@ == before,
                with_disk(before, disk) == with_disk(before.take(k as int), disk) + before.skip(
                    k as int,
                ),
            decreases k,
        {
            proof {
                let head = before.take(k as int);
                assert(head.last() == before[k - 1]);
                assert(head.drop_last() =~= before.take(k - 1));
                assert(with_disk(before.take(k - 1), disk).push(head.last()) + before.skip(k as int)
                    =~= with_disk(before.take(k - 1), disk) + before.skip(k - 1));
            }
            k = k - 1;
        }
        proof {
            let head = before.take(k as int);
            if k > 0 {
                assert(head.last() == before[k - 1]);
            }
            assert(with_disk(head, disk) == head.push(disk));
            assert(list@.take(i + 1).drop_last() =~= list@.take(i as int));
            assert(list@.take(i + 1).last() == disk);
        }
        sorted.insert(k, disk);
        assert(sorted@ =~= before.take(k as int).push(disk) + before.skip(k as int));
        i = i + 1;
    }
    assert(list@.take(i as int) =~= list@);
    sorted
}

/// Some name stands for a whole disk.
pub open spec fn has_name(names: Seq<Seq<char>>) -> bool {
    exists|i: int| 0 <= i < names.len() && is_whole_disk_name(#[trigger] names[i])
}

/// The disks among some devices: one for each whole disk that has a stable name,
/// in the order of the devices. `names` holds, for each device, the stable names
/// that lead to it.
pub open spec fn are_disks_of(
    disks: Seq<DiskInfo>,
    devices: Seq<BlockDevice>,
    names: Seq<Seq<Seq<char>>>,
    mounts: Option<Seq<char>>,
) -> bool
    decreases devices.len(),
{
    if devices.len() == 0 {
        disks.len() == 0
    } else if is_whole_disk(devices.last()) && has_name(names.last()) {
        &&& disks.len() > 0
        &&& is_first_name(names.last(), disks.last().id@)
        &&& is_disk_of(disks.last(), devices.last(), disks.last().id@, mounts)
        &&& are_disks_of(disks.drop_last(), devices.drop_last(), names.drop_last(), mounts)
    } else {
        are_disks_of(disks, devices.drop_last(), names.drop_last(), mounts)
    }
}

/// Lists the disks among some devices in the order of their names.
pub fn list_disks(
    devices: &Vec<BlockDevice>,
    names: &Vec<Vec<String>>,
    mounts: Option<&str>,
) -> (list: Vec<DiskInfo>)
    requires
        names@.len() == devices@.len(),
    ensures
        exists|found: Seq<DiskInfo>| #[trigger]
            are_disks_of(found, devices@, commands(names@), optional_view(mounts)) && list@
                == by_name(found),
{
    let ghost shown = optional_view(mounts);
    let ghost all = commands(names@);
    let mut found: Vec<DiskInfo> = Vec::new();
    let mut i: usize = 0;
    assert(devices@.take(0) =~= Seq::empty());
    while i < devices.len()
        invariant
            i <= devices@.len() == names@.len(),
            all == commands(names@),
            shown == optional_view(mounts),
            are_disks_of(found@, devices@.take(i as int), all.take(i as int), shown),
        decreases devices.len() - i,
    {
        let ghost before = found@;
        proof {
            assert(devices@.take(i + 1).drop_last() =~= devices@.take(i as int));
            assert(all.take(i + 1).drop_last() =~= all.take(i as int));
            assert(devices@.take(i + 1).last() == devices@[i as int]);
            assert(all.take(i + 1).last() == all[i as int]);
            assert(all[i as int] == texts(names@[i as int]@));
        }
        if is_disk(&devices[i]) {
            match stable_id(&names[i]) {
                Some(id) => {
                    proof {
                        let k = choose|k: int| 0 <= k < all[i as int].len() && all[i as int][k] == id@;
                        assert(is_whole_disk_name(all[i as int][k]));
                    }
                    found.push(disk_from_device(&devices[i], id, mounts));
                    assert(found@.drop_last() =~= before);
                },
                None => {},
            }
        }
        i = i + 1;
    }
    assert(devices@.take(i as int) =~= devices@);
    assert(all.take(i as int) =~= all);
    sort_disks(found)
}

proof fn lemma_with_disk(list: Seq<DiskInfo>, disk: DiskInfo)
    requires
        forall|i: int, j: int|
            0 <= i < j < list.len() ==> !text_before(
                (#[trigger] list[j]).id@,
                (#[trigger] list[i]).id@,
            ),
    ensures
        forall|i: int, j: int|
            0 <= i < j < with_disk(list, disk).len() ==> !text_before(
                (#[trigger] with_disk(list, disk)[j]).id@,
                (#[trigger] with_disk(list, disk)[i]).id@,
            ),
        with_disk(list, disk).to_multiset() =~= list.to_multiset().insert(disk),
        forall|i: int|
            0 <= i < with_disk(list, disk).len() ==> (#[trigger] with_disk(list, disk)[i]) == disk
                || list.contains(with_disk(list, disk)[i]),
    decreases list.len(),
{
    broadcast use vstd::seq_lib::group_to_multiset_ensures;

    let result = with_disk(list, disk);
    if list.len() > 0 && text_before(disk.id@, list.last().id@) {
        let rest = list.drop_last();
        assert forall|i: int, j: int| 0 <= i < j < rest.len() implies !text_before(
            (#[trigger] rest[j]).id@,
            (#[trigger] rest[i]).id@,
        ) by {
            assert(!text_before(list[j].id@, list[i].id@));
        }
        lemma_with_disk(rest, disk);
        let inner = with_disk(rest, disk);
        assert(list =~= rest.push(list.last()));
        assert forall|i: int| 0 <= i < result.len() implies (#[trigger] result[i]) == disk
            || list.contains(result[i]) by {
            if i < inner.len() {
                assert(result[i] == inner[i]);
                if inner[i] != disk {
                    let k = choose|k: int| 0 <= k < rest.len() && rest[k] == inner[i];
                    assert(list[k] == inner[i]);
                }
            } else {
                assert(list[list.len() - 1] == result[i]);
            }
        }
        assert forall|i: int, j: int| 0 <= i < j < result.len() implies !text_before(
            (#[trigger] result[j]).id@,
            (#[trigger] result[i]).id@,
        ) by {
            if j < inner.len() {
                assert(result[i] == inner[i] && result[j] == inner[j]);
            } else {
                assert(result[i] == inner[i]);
                if inner[i] == disk {
                    if text_before(list.last().id@, disk.id@) {
                        text_before_is_transitive(
                            disk.id@,
                            list.last().id@,
                            disk.id@,
                        );
                        text_before_is_irreflexive(disk.id@);
                    }
                } else {
                    let k = choose|k: int| 0 <= k < rest.len() && rest[k] == inner[i];
                    assert(!text_before(list[list.len() - 1].id@, list[k].id@));
                }
            }
        }
    } else {
        assert forall|i: int, j: int| 0 <= i < j < result.len() implies !text_before(
            (#[trigger] result[j]).id@,
            (#[trigger] result[i]).id@,
        ) by {
            if j < list.len() {
                assert(!text_before(list[j].id@, list[i].id@));
            } else if text_before(disk.id@, list[i].id@) {
                let last = list.last();
                if i < list.len() - 1 {
                    assert(!text_before(list[list.len() - 1].id@, list[i].id@));
                    text_before_is_total(list[i].id@, last.id@);
                    if text_before(list[i].id@, last.id@) {
                        text_before_is_transitive(disk.id@, list[i].id@, last.id@);
                    }
                }
            }
        }
        assert forall|i: int| 0 <= i < result.len() implies (#[trigger] result[i]) == disk
            || list.contains(result[i]) by {
            if i < list.len() {
                assert(list[i] == result[i]);
            }
        }
    }
}

/// The list of disks is in the order of the names, and nothing is added or
/// lost.
pub proof fn disks_are_sorted(list: Seq<DiskInfo>)
    ensures
        forall|i: int, j: int|
            0 <= i < j < by_name(list).len() ==> !text_before(
                (#[trigger] by_name(list)[j]).id@,
                (#[trigger] by_name(list)[i]).id@,
            ),
        by_name(list).to_multiset() =~= list.to_multiset(),
    decreases list.len(),
{
    broadcast use vstd::seq_lib::group_to_multiset_ensures;

    if list.len() > 0 {
        disks_are_sorted(list.drop_last());
        lemma_with_disk(by_name(list.drop_last()), list.last());
        assert(list =~= list.drop_last().push(list.last()));
    } else {
        assert(list =~= Seq::empty());
    }
}

/// Looks a disk up by its name.
pub fn find_disk(disks: &Vec<DiskInfo>, id: &str) -> (result: Result<DiskInfo, InstallerError>)
    ensures
        match result {
            Ok(disk) => exists|i: int|
                0 <= i < disks@.len() && #[trigger] disks@[i] == disk && disk.id@ == id@ && forall|
                    k: int,
                |
                    0 <= k < i ==> (#[trigger] disks@[k]).id@ != id@,
            Err(InstallerError::Inventory(reason)) => reason@
                == "selected disk is no longer present"@ && forall|k: int|
                0 <= k < disks@.len() ==> (#[trigger] disks@[k]).id@ != id@,
            Err(_) => false,
        },
{
    let mut i: usize = 0;
    while i < disks.len()
        invariant
            i <= disks@.len(),
            forall|k: int| 0 <= k < i ==> (#[trigger] disks@[k]).id@ != id@,
        decreases disks.len() - i,
    {
        if same(disks[i].id.as_str(), id) {
            let disk = copy_disk(&disks[i]);
            assert(disks@[i as int] == disk);
            return Ok(disk);
        }
        i = i + 1;
    }
    Err(InstallerError::Inventory("selected disk is no longer present".to_owned()))
}

/// The partition of that number on a device: behind a digit a `p` stands in
/// between.
pub open spec fn partition_of(device: Seq<char>, number: Seq<char>) -> Seq<char> {
    if device.len() > 0 && is_digit(device.last()) {
        device + "p"@ + number
    } else {
        device + ""@ + number
    }
}

/// The paths of the two partitions that are made on a device.
pub fn partition_paths(device: &str) -> (paths: (String, String))
    ensures
        paths.0@ == partition_of(device@, "1"@),
        paths.1@ == partition_of(device@, "2"@),
{
    let chars = chars_of(device);
    let separator = if chars.len() > 0 && digit(chars[chars.len() - 1]) {
        "p"
    } else {
        ""
    };
    let lead = join(device, separator);
    (join(lead.as_str(), "1"), join(lead.as_str(), "2"))
}

/// The commands that make the partitions and filesystems of a disk, up to the
/// first mount.
pub open spec fn storage_argv(device: Seq<char>) -> Seq<Seq<Seq<char>>> {
    seq![
        seq!["sfdisk"@, "--wipe"@, "always"@, "--wipe-partitions"@, "always"@, device],
        seq!["partprobe"@, device],
        seq!["udevadm"@, "settle"@],
        seq!["mkfs.fat"@, "-F"@, "32"@, partition_of(device, "1"@)],
        seq!["mkfs.ext4"@, "-F"@, partition_of(device, "2"@)],
    ]
}

/// A list of commands as lists of texts.
pub open spec fn commands(list: Seq<Vec<String>>) -> Seq<Seq<Seq<char>>> {
    list.map_values(|command: Vec<String>| texts(command@))
}

pub(crate) fn push_command(list: &mut Vec<Vec<String>>, command: Vec<String>)
    ensures
        commands(final(list)@) == commands(old(list)@).push(texts(command@)),
{
    list.push(command);
    assert(commands(list@) =~= commands(old(list)@).push(texts(command@)));
}

/// The commands that make the partitions and filesystems of a disk. The first
/// one reads the layout from its input.
pub fn storage_commands(device: &str) -> (list: Vec<Vec<String>>)
    ensures
        commands(list@) == storage_argv(device@),
{
    let paths = partition_paths(device);
    let mut list: Vec<Vec<String>> = Vec::new();
    assert(commands(list@) =~= Seq::empty());
    let mut sfdisk: Vec<String> = Vec::new();
    assert(texts(sfdisk@) =~= Seq::empty());
    push_text(&mut sfdisk, "sfdisk");
    push_text(&mut sfdisk, "--wipe");
    push_text(&mut sfdisk, "always");
    push_text(&mut sfdisk, "--wipe-partitions");
    push_text(&mut sfdisk, "always");
    push_text(&mut sfdisk, device);
    assert(texts(sfdisk@) =~= storage_argv(device@)[0]);
    push_command(&mut list, sfdisk);
    let mut partprobe: Vec<String> = Vec::new();
    assert(texts(partprobe@) =~= Seq::empty());
    push_text(&mut partprobe, "partprobe");
    push_text(&mut partprobe, device);
    assert(texts(partprobe@) =~= storage_argv(device@)[1]);
    push_command(&mut list, partprobe);
    let mut settle: Vec<String> = Vec::new();
    assert(texts(settle@) =~= Seq::empty());
    push_text(&mut settle, "udevadm");
    push_text(&mut settle, "settle");
    assert(texts(settle@) =~= storage_argv(device@)[2]);
    push_command(&mut list, settle);
    let mut fat: Vec<String> = Vec::new();
    assert(texts(fat@) =~= Seq::empty());
    push_text(&mut fat, "mkfs.fat");
    push_text(&mut fat, "-F");
    push_text(&mut fat, "32");
    push_text(&mut fat, paths.0.as_str());
    assert(texts(fat@) =~= storage_argv(device@)[3]);
    push_command(&mut list, fat);
    let mut ext: Vec<String> = Vec::new();
    assert(texts(ext@) =~= Seq::empty());
    push_text(&mut ext, "mkfs.ext4");
    push_text(&mut ext, "-F");
    push_text(&mut ext, paths.1.as_str());
    assert(texts(ext@) =~= storage_argv(device@)[4]);
    push_command(&mut list, ext);
    assert(commands(list@) =~= storage_argv(device@));
    list
}

/// The path of the boot partition in the target.
pub open spec fn boot_path() -> Seq<char> {
    TARGET_ROOT@ + "/boot/efi"@
}

/// The commands that put the filesystems of a disk in place and ask for the
/// identifier of the root filesystem.
pub open spec fn mount_argv(device: Seq<char>) -> Seq<Seq<Seq<char>>> {
    seq![
        seq!["mount"@, partition_of(device, "2"@), TARGET_ROOT@],
        seq!["mount"@, partition_of(device, "1"@), boot_path()],
        seq!["blkid"@, "-s"@, "UUID"@, "-o"@, "value"@, partition_of(device, "2"@)],
    ]
}

/// Builds a command from its words.
fn command_of(words: &[&str]) -> (argv: Vec<String>)
    ensures
        texts(argv@) == Seq::new(words@.len(), |i: int| words@[i]@),
{
    let mut argv: Vec<String> = Vec::new();
    let ghost all = Seq::new(words@.len(), |i: int| words@[i]@);
    let mut i: usize = 0;
    assert(texts(argv@) =~= all.take(0));
    while i < words.len()
        invariant
            i <= words@.len(),
            all == Seq::new(words@.len(), |i: int| words@[i]@),
            texts(argv@) == all.take(i as int),
        decreases words.len() - i,
    {
        push_text(&mut argv, words[i]);
        assert(all.take(i + 1) =~= all.take(i as int).push(words@[i as int]@));
        i = i + 1;
    }
    assert(all.take(i as int) =~= all);
    argv
}

/// Returns the commands that put the filesystems of a disk in place. The
/// directory of each has to exist before it is mounted there.
pub fn mount_commands(device: &str) -> (list: Vec<Vec<String>>)
    ensures
        commands(list@) == mount_argv(device@),
{
    let paths = partition_paths(device);
    let boot = join(TARGET_ROOT, "/boot/efi");
    let mut list: Vec<Vec<String>> = Vec::new();
    assert(commands(list@) =~= Seq::empty());
    let root = command_of(&["mount", paths.1.as_str(), TARGET_ROOT]);
    assert(texts(root@) =~= mount_argv(device@)[0]);
    push_command(&mut list, root);
    let esp = command_of(&["mount", paths.0.as_str(), boot.as_str()]);
    assert(texts(esp@) =~= mount_argv(device@)[1]);
    push_command(&mut list, esp);
    let blkid = command_of(&["blkid", "-s", "UUID", "-o", "value", paths.1.as_str()]);
    assert(texts(blkid@) =~= mount_argv(device@)[2]);
    push_command(&mut list, blkid);
    assert(commands(list@) =~= mount_argv(device@));
    list
}

/// The command that names the deployment of the target.
pub open spec fn deployment_argv() -> Seq<Seq<char>> {
    seq!["ostree"@, "admin"@, "--sysroot"@, TARGET_ROOT@, "--print-current-dir"@]
}

/// Returns the command that names the deployment of the target.
pub fn deployment_command() -> (argv: Vec<String>)
    ensures
        texts(argv@) == deployment_argv(),
{
    let argv = command_of(&["ostree", "admin", "--sysroot", TARGET_ROOT, "--print-current-dir"]);
    assert(texts(argv@) =~= deployment_argv());
    argv
}

/// The command that puts the lasting state of the target below a deployment.
pub open spec fn bind_argv(deployment: Seq<char>) -> Seq<Seq<char>> {
    seq![
        "mount"@,
        "--bind"@,
        TARGET_ROOT@ + "/ostree/deploy/default/var"@,
        deployment + "/var"@,
    ]
}

/// The command that takes the lasting state away again.
pub open spec fn unbind_argv(deployment: Seq<char>) -> Seq<Seq<char>> {
    seq!["umount"@, deployment + "/var"@]
}

/// Returns the commands that put the lasting state of the target below a
/// deployment and take it away again.
pub fn state_commands(deployment: &str) -> (pair: (Vec<String>, Vec<String>))
    ensures
        texts(pair.0@) == bind_argv(deployment@),
        texts(pair.1@) == unbind_argv(deployment@),
{
    let lasting = join(TARGET_ROOT, "/ostree/deploy/default/var");
    let below = join(deployment, "/var");
    let bind = command_of(&["mount", "--bind", lasting.as_str(), below.as_str()]);
    let unbind = command_of(&["umount", below.as_str()]);
    assert(texts(bind@) =~= bind_argv(deployment@));
    assert(texts(unbind@) =~= unbind_argv(deployment@));
    (bind, unbind)
}

/// Archive of the payload.
pub const PAYLOAD_ARCHIVE: &'static str = "/usr/share/devcore-installer/payload/devcore-baseos.oci.tar";

/// The command that loads the payload.
pub open spec fn load_argv() -> Seq<Seq<char>> {
    seq!["podman"@, "load"@, "--input"@, PAYLOAD_ARCHIVE@]
}

/// The command that lists the loaded images.
pub open spec fn images_argv() -> Seq<Seq<char>> {
    seq!["podman"@, "image"@, "ls"@, "--no-trunc"@, "--format"@, "{{.ID}}"@]
}

/// Returns the commands that load the payload and list the loaded images.
pub fn payload_commands() -> (pair: (Vec<String>, Vec<String>))
    ensures
        texts(pair.0@) == load_argv(),
        texts(pair.1@) == images_argv(),
{
    let load = command_of(&["podman", "load", "--input", PAYLOAD_ARCHIVE]);
    let list = command_of(&["podman", "image", "ls", "--no-trunc", "--format", "{{.ID}}"]);
    assert(texts(load@) =~= load_argv());
    assert(texts(list@) =~= images_argv());
    (load, list)
}

/// The command that asks for the digest of an image.
pub open spec fn inspect_argv(id: Seq<char>) -> Seq<Seq<char>> {
    seq!["podman"@, "image"@, "inspect"@, "--format"@, "{{.Digest}}"@, id]
}

/// Returns the command that asks for the digest of an image.
pub fn inspect_command(id: &str) -> (argv: Vec<String>)
    ensures
        texts(argv@) == inspect_argv(id@),
{
    let argv = command_of(&["podman", "image", "inspect", "--format", "{{.Digest}}", id]);
    assert(texts(argv@) =~= inspect_argv(id@));
    argv
}

/// The layout of the disk.
pub open spec fn layout_text() -> Seq<char> {
    "label: gpt\nunit: MiB\n,1024,U\n,,L\n"@
}

/// The layout of the disk: a boot partition of one gibibyte and the rest.
pub fn partition_layout() -> (layout: &'static str)
    ensures
        layout@ == layout_text(),
{
    "label: gpt\nunit: MiB\n,1024,U\n,,L\n"
}

/// Reads the identifier of the root filesystem from what a command wrote.
pub fn root_uuid(stdout: Vec<u8>) -> (result: Result<String, InstallerError>)
    ensures
        match result {
            Ok(uuid) => valid_utf8(stdout@) && uuid@ == trimmed(decode_utf8(stdout@)) && uuid@.len()
                > 0,
            Err(InstallerError::Inventory(reason)) => (!valid_utf8(stdout@) && reason@
                == "root filesystem UUID is not UTF-8"@) || (valid_utf8(stdout@) && trimmed(
                decode_utf8(stdout@),
            ).len() == 0 && reason@ == "root filesystem did not expose a UUID"@),
            Err(_) => false,
        },
{
    match utf8_text(stdout) {
        None => Err(InstallerError::Inventory("root filesystem UUID is not UTF-8".to_owned())),
        Some(text) => {
            let uuid = trim(text.as_str());
            if uuid.as_str().is_empty() {
                return Err(
                    InstallerError::Inventory("root filesystem did not expose a UUID".to_owned()),
                );
            }
            Ok(uuid)
        },
    }
}

/// The option that hands the target to a container.
pub open spec fn target_mount() -> Seq<char> {
    TARGET_ROOT@ + ":/target:rw,rbind,rprivate"@
}

/// The command that deploys the payload to the target, without a network.
pub open spec fn deploy_argv(
    local_image: Seq<char>,
    image: Seq<char>,
    root_uuid: Seq<char>,
) -> Seq<Seq<char>> {
    seq![
        "podman"@,
        "run"@,
        "--rm"@,
        "--pull=never"@,
        "--network=none"@,
        "--cgroups=disabled"@,
        "--privileged"@,
        "--pid=host"@,
        "--ipc=host"@,
        "--security-opt"@,
        "label=type:unconfined_t"@,
        "-v"@,
        "/dev:/dev"@,
        "-v"@,
        "/var/lib/containers:/var/lib/containers"@,
        "-v"@,
        target_mount(),
        local_image,
        "bootc"@,
        "install"@,
        "to-filesystem"@,
        "--skip-finalize"@,
        "--stateroot"@,
        "default"@,
        "--root-mount-spec"@,
        "UUID="@ + root_uuid,
        "--target-imgref"@,
        image,
        "--skip-fetch-check"@,
        "/target"@,
    ]
}

/// Builds the command that deploys the payload to the target.
pub fn deploy_payload(local_image: &str, image: &str, root_uuid: &str) -> (argv: Vec<String>)
    ensures
        texts(argv@) == deploy_argv(local_image@, image@, root_uuid@),
{
    let mut argv: Vec<String> = Vec::new();
    assert(texts(argv@) =~= Seq::empty());
    push_text(&mut argv, "podman");
    push_text(&mut argv, "run");
    push_text(&mut argv, "--rm");
    push_text(&mut argv, "--pull=never");
    push_text(&mut argv, "--network=none");
    push_text(&mut argv, "--cgroups=disabled");
    push_text(&mut argv, "--privileged");
    push_text(&mut argv, "--pid=host");
    push_text(&mut argv, "--ipc=host");
    push_text(&mut argv, "--security-opt");
    push_text(&mut argv, "label=type:unconfined_t");
    push_text(&mut argv, "-v");
    push_text(&mut argv, "/dev:/dev");
    push_text(&mut argv, "-v");
    push_text(&mut argv, "/var/lib/containers:/var/lib/containers");
    push_text(&mut argv, "-v");
    push_text(&mut argv, join(TARGET_ROOT, ":/target:rw,rbind,rprivate").as_str());
    push_text(&mut argv, local_image);
    push_text(&mut argv, "bootc");
    push_text(&mut argv, "install");
    push_text(&mut argv, "to-filesystem");
    push_text(&mut argv, "--skip-finalize");
    push_text(&mut argv, "--stateroot");
    push_text(&mut argv, "default");
    push_text(&mut argv, "--root-mount-spec");
    push_text(&mut argv, join("UUID=", root_uuid).as_str());
    push_text(&mut argv, "--target-imgref");
    push_text(&mut argv, image);
    push_text(&mut argv, "--skip-fetch-check");
    push_text(&mut argv, "/target");
    argv
}

/// The command that finishes the target.
pub open spec fn finalize_argv(image: Seq<char>) -> Seq<Seq<char>> {
    seq![
        "podman"@,
        "run"@,
        "--rm"@,
        "--pull=never"@,
        "--network=none"@,
        "--cgroups=disabled"@,
        "--privileged"@,
        "-v"@,
        target_mount(),
        image,
        "bootc"@,
        "install"@,
        "finalize"@,
        "/target"@,
    ]
}

/// Builds the command that finishes the target.
pub fn finalize_target(image: &str) -> (argv: Vec<String>)
    ensures
        texts(argv@) == finalize_argv(image@),
{
    let mut argv: Vec<String> = Vec::new();
    assert(texts(argv@) =~= Seq::empty());
    push_text(&mut argv, "podman");
    push_text(&mut argv, "run");
    push_text(&mut argv, "--rm");
    push_text(&mut argv, "--pull=never");
    push_text(&mut argv, "--network=none");
    push_text(&mut argv, "--cgroups=disabled");
    push_text(&mut argv, "--privileged");
    push_text(&mut argv, "-v");
    push_text(&mut argv, join(TARGET_ROOT, ":/target:rw,rbind,rprivate").as_str());
    push_text(&mut argv, image);
    push_text(&mut argv, "bootc");
    push_text(&mut argv, "install");
    push_text(&mut argv, "finalize");
    push_text(&mut argv, "/target");
    argv
}

/// The directory below which deployments lie on the target.
pub open spec fn deployment_base() -> Seq<char> {
    "/run/devcore-installer/target/ostree/deploy/default/deploy"@
}

/// A path of a deployment on the target: below the directory of deployments and
/// without a way out of it.
pub open spec fn valid_deployment(path: Seq<char>) -> bool {
    components(deployment_base()).is_prefix_of(components(path)) && !occurs(path, ".."@)
}

/// Reads the path of the deployment from what a command wrote.
pub fn deployment_path(stdout: Vec<u8>) -> (result: Result<String, InstallerError>)
    ensures
        match result {
            Ok(path) => valid_utf8(stdout@) && path@ == trimmed(decode_utf8(stdout@))
                && valid_deployment(path@),
            Err(InstallerError::Inventory(reason)) => (!valid_utf8(stdout@) && reason@
                == "target deployment path is not UTF-8"@) || (valid_utf8(stdout@)
                && !valid_deployment(trimmed(decode_utf8(stdout@))) && reason@
                == "invalid target deployment path"@),
            Err(_) => false,
        },
{
    match utf8_text(stdout) {
        None => Err(InstallerError::Inventory("target deployment path is not UTF-8".to_owned())),
        Some(text) => {
            let path = trim(text.as_str());
            if strip_base(
                path.as_str(),
                "/run/devcore-installer/target/ostree/deploy/default/deploy",
            ).is_none() || contains(path.as_str(), "..") {
                return Err(InstallerError::Inventory("invalid target deployment path".to_owned()));
            }
            Ok(path)
        },
    }
}

/// The commands that set up the deployment, but for the password.
pub open spec fn configure_argv(settings: InstallSettings, deployment: Seq<char>) -> Seq<
    Seq<Seq<char>>,
> {
    seq![
        seq![
            "systemd-firstboot"@,
            "--force"@,
            "--root"@,
            deployment,
            "--locale"@,
            settings.locale@,
            "--keymap"@,
            settings.keyboard@,
            "--timezone"@,
            settings.timezone@,
            "--hostname"@,
            settings.hostname@,
        ],
        seq![
            "useradd"@,
            "--root"@,
            deployment,
            "--create-home"@,
            "--groups"@,
            "wheel"@,
            settings.username@,
        ],
        seq!["chpasswd"@, "--root"@, deployment],
    ]
}

/// Builds the commands that set up the deployment. The last one reads the
/// account line from its input.
pub fn configure_deployment(settings: &InstallSettings, deployment: &str) -> (list: Vec<
    Vec<String>,
>)
    ensures
        commands(list@) == configure_argv(*settings, deployment@),
{
    let mut list: Vec<Vec<String>> = Vec::new();
    assert(commands(list@) =~= Seq::empty());
    let mut first: Vec<String> = Vec::new();
    assert(texts(first@) =~= Seq::empty());
    push_text(&mut first, "systemd-firstboot");
    push_text(&mut first, "--force");
    push_text(&mut first, "--root");
    push_text(&mut first, deployment);
    push_text(&mut first, "--locale");
    push_text(&mut first, settings.locale.as_str());
    push_text(&mut first, "--keymap");
    push_text(&mut first, settings.keyboard.as_str());
    push_text(&mut first, "--timezone");
    push_text(&mut first, settings.timezone.as_str());
    push_text(&mut first, "--hostname");
    push_text(&mut first, settings.hostname.as_str());
    assert(texts(first@) =~= configure_argv(*settings, deployment@)[0]);
    push_command(&mut list, first);
    let mut account: Vec<String> = Vec::new();
    assert(texts(account@) =~= Seq::empty());
    push_text(&mut account, "useradd");
    push_text(&mut account, "--root");
    push_text(&mut account, deployment);
    push_text(&mut account, "--create-home");
    push_text(&mut account, "--groups");
    push_text(&mut account, "wheel");
    push_text(&mut account, settings.username.as_str());
    assert(texts(account@) =~= configure_argv(*settings, deployment@)[1]);
    push_command(&mut list, account);
    let mut password: Vec<String> = Vec::new();
    assert(texts(password@) =~= Seq::empty());
    push_text(&mut password, "chpasswd");
    push_text(&mut password, "--root");
    push_text(&mut password, deployment);
    assert(texts(password@) =~= configure_argv(*settings, deployment@)[2]);
    push_command(&mut list, password);
    assert(commands(list@) =~= configure_argv(*settings, deployment@));
    list
}

/// The line that sets the password of an account.
pub fn account_line(username: &str, password: &Vec<u8>) -> (line: Vec<u8>)
    ensures
        line@ == credentials(username@, password@),
{
    let mut line: Vec<u8> = Vec::new();
    push_bytes(&mut line, username.as_bytes());
    line.push(0x3a);
    push_bytes(&mut line, password.as_slice());
    line.push(0x0a);
    assert(line@ =~= credentials(username@, password@));
    line
}

/// The first-boot record of an installed system.
pub open spec fn firstboot_record(settings: InstallSettings) -> Seq<char> {
    "version=1\nlanguage="@ + settings.locale@ + "\nkeyboard="@ + settings.keyboard@
        + "\ntimezone="@ + settings.timezone@ + "\nusername="@ + settings.username@
        + "\nhostname="@ + settings.hostname@ + "\nprofile="@ + settings.profile.label() + "\n"@
}

/// Formats the first-boot record of an installed system.
pub fn firstboot_marker(settings: &InstallSettings) -> (text: String)
    ensures
        text@ == firstboot_record(*settings),
{
    let mut text = join("version=1\nlanguage=", settings.locale.as_str());
    text.append("\nkeyboard=");
    text.append(settings.keyboard.as_str());
    text.append("\ntimezone=");
    text.append(settings.timezone.as_str());
    text.append("\nusername=");
    text.append(settings.username.as_str());
    text.append("\nhostname=");
    text.append(settings.hostname.as_str());
    text.append("\nprofile=");
    text.append(settings.profile.as_str());
    text.append("\n");
    text
}

/// The command that unmounts the target with everything below it.
pub open spec fn unmount_argv() -> Seq<Seq<char>> {
    seq!["umount"@, "--recursive"@, TARGET_ROOT@]
}

/// Unmounts the target by running the command for it. What the command gives is
/// what is given back: a target that is busy is never told to be unmounted.
pub fn unmount_target_with<F: FnOnce(Vec<String>) -> Result<(), InstallerError>>(run: F) -> (result:
    Result<(), InstallerError>)
    requires
        forall|argv: Vec<String>| texts(argv@) == unmount_argv() ==> call_requires(run, (argv,)),
    ensures
        exists|argv: Vec<String>|
            texts(argv@) == unmount_argv() && #[trigger] call_ensures(run, (argv,), result),
{
    let mut argv: Vec<String> = Vec::new();
    assert(texts(argv@) =~= Seq::empty());
    push_text(&mut argv, "umount");
    push_text(&mut argv, "--recursive");
    push_text(&mut argv, TARGET_ROOT);
    assert(texts(argv@) =~= unmount_argv());
    run(argv)
}

/// The repository and digest marker that the payload's reference starts with.
pub open spec fn payload_prefix() -> Seq<char> {
    "ghcr.io/techmigosglobal/devcoreos@sha256:"@
}

/// A reference of the payload: the repository of this system and a digest of 64
/// hexadecimal digits.
pub open spec fn valid_payload_reference(reference: Seq<char>) -> bool {
    &&& payload_prefix().is_prefix_of(reference)
    &&& reference.len() == payload_prefix().len() + 64
    &&& all_hex(reference.skip(payload_prefix().len() as int))
}

/// Whether all characters from one on are hexadecimal digits.
fn ends_in_hex(text: &str, start: usize) -> (result: bool)
    requires
        start <= text@.len(),
    ensures
        result == all_hex(text@.skip(start as int)),
{
    let chars = chars_of(text);
    let ghost rest = text@.skip(start as int);
    let mut i: usize = start;
    while i < chars.len()
        invariant
            start <= i <= chars@.len(),
            chars@ == text@,
            rest == text@.skip(start as int),
            forall|k: int| 0 <= k < i - start ==> is_hex_digit(#[trigger] rest[k]),
        decreases chars.len() - i,
    {
        assert(rest[i - start] == chars@[i as int]);
        if !hex_digit(chars[i]) {
            return false;
        }
        i = i + 1;
    }
    true
}

/// Checks the reference of the payload.
pub fn validate_payload_reference(reference: &str) -> (result: Result<String, InstallerError>)
    ensures
        match result {
            Ok(text) => valid_payload_reference(reference@) && text@ == reference@,
            Err(InstallerError::Inventory(reason)) => !valid_payload_reference(reference@)
                && reason@ == "embedded payload image reference is not a DevCore GHCR digest"@,
            Err(_) => false,
        },
{
    let prefix = "ghcr.io/techmigosglobal/devcoreos@sha256:";
    let lead = chars_of(prefix).len();
    let length = chars_of(reference).len();
    if starts_with(reference, prefix) && length - lead == 64 && ends_in_hex(reference, lead) {
        Ok(reference.to_owned())
    } else {
        Err(
            InstallerError::Inventory(
                "embedded payload image reference is not a DevCore GHCR digest".to_owned(),
            ),
        )
    }
}

/// The digest of a reference: what stands behind the first `@`.
pub fn payload_digest(reference: &str) -> (result: Result<String, InstallerError>)
    ensures
        match result {
            Ok(digest) => divided(reference@, '@') is Some && digest@ == (divided(
                reference@,
                '@',
            )->0).1,
            Err(InstallerError::Inventory(reason)) => divided(reference@, '@') is None && reason@
                == "payload digest is missing"@,
            Err(_) => false,
        },
{
    match split_once(reference, '@') {
        Some((_, digest)) => Ok(digest),
        None => Err(InstallerError::Inventory("payload digest is missing".to_owned())),
    }
}

/// The identifiers of the loaded images, from what a command wrote.
pub fn image_ids(stdout: &Vec<u8>) -> (list: Vec<String>)
    ensures
        texts(list@) == lines_of(lossy_form(stdout@)),
{
    let text = lossy_text(stdout);
    lines(text.as_str())
}

/// Whether what a command wrote of an image is the digest that is looked for.
pub fn digest_matches(inspected: &Vec<u8>, digest: &str) -> (result: bool)
    ensures
        result == (trimmed(lossy_form(inspected@)) == digest@),
{
    let text = lossy_text(inspected);
    same(trim(text.as_str()).as_str(), digest)
}

/// What is done to find the image that was loaded.
#[derive(Clone, Debug, PartialEq, Eq)]
pub enum ImageStep {
    /// Ask for the digest of this image.
    Inspect(String),
    /// This is the image.
    Found(String),
    /// There is none.
    Missing(InstallerError),
}

/// The first image whose digest is the one that is looked for.
pub open spec fn is_first_match(inspected: Seq<Vec<u8>>, digest: Seq<char>, at: int) -> bool {
    &&& 0 <= at < inspected.len()
    &&& trimmed(lossy_form(inspected[at]@)) == digest
    &&& forall|k: int| 0 <= k < at ==> trimmed(lossy_form((#[trigger] inspected[k])@)) != digest
}

/// Decides how the search for the image goes on. `inspected` holds what a
/// command wrote of the digests of the first images.
pub fn resolve_local_payload(ids: &Vec<String>, inspected: &Vec<Vec<u8>>, digest: &str) -> (step:
    ImageStep)
    requires
        inspected@.len() <= ids@.len(),
    ensures
        match step {
            ImageStep::Found(id) => exists|at: int| #[trigger]
                is_first_match(inspected@, digest@, at) && id@ == ids@[at]@,
            ImageStep::Inspect(id) => inspected@.len() < ids@.len() && id@
                == ids@[inspected@.len() as int]@ && forall|at: int|
                !#[trigger] is_first_match(inspected@, digest@, at),
            ImageStep::Missing(error) => inspected@.len() == ids@.len() && (forall|at: int|
                !#[trigger] is_first_match(inspected@, digest@, at)) && (error matches
                InstallerError::Inventory(reason) && reason@
                == "loaded payload does not match the embedded image digest"@),
        },
{
    let mut i: usize = 0;
    while i < inspected.len()
        invariant
            i <= inspected@.len() <= ids@.len(),
            forall|k: int|
                0 <= k < i ==> trimmed(lossy_form((#[trigger] inspected@[k])@)) != digest@,
        decreases inspected.len() - i,
    {
        if digest_matches(&inspected[i], digest) {
            assert(is_first_match(inspected@, digest@, i as int));
            return ImageStep::Found(ids[i].clone());
        }
        i = i + 1;
    }
    if i < ids.len() {
        ImageStep::Inspect(ids[i].clone())
    } else {
        ImageStep::Missing(
            InstallerError::Inventory(
                "loaded payload does not match the embedded image digest".to_owned(),
            ),
        )
    }
}

/// Tells how the configuration of the target went. A failure of the work itself
/// counts before one of what is undone after it.
pub fn configure_target(
    configured: Result<(), InstallerError>,
    unmounted: Result<(), InstallerError>,
) -> (result: Result<(), InstallerError>)
    ensures
        result == if configured is Err {
            configured
        } else {
            unmounted
        },
{
    match configured {
        Ok(_) => unmounted,
        Err(error) => Err(error),
    }
}

/// Tells how the check of the payload went.
pub fn verify_payload(success: bool) -> (result: Result<(), InstallerError>)
    ensures
        match result {
            Ok(_) => success,
            Err(InstallerError::Inventory(reason)) => !success && reason@
                == "embedded payload checksum verification failed"@,
            Err(_) => false,
        },
{
    if success {
        Ok(())
    } else {
        Err(
            InstallerError::Inventory("embedded payload checksum verification failed".to_owned()),
        )
    }
}

/// The password without the line breaks at its end.
pub open spec fn without_breaks(password: Seq<u8>) -> Seq<u8>
    decreases password.len(),
{
    if password.len() > 0 && (password.last() == 0x0a || password.last() == 0x0d) {
        without_breaks(password.drop_last())
    } else {
        password
    }
}

/// A password that is accepted: 8 to 1024 bytes without zeros or line breaks.
pub open spec fn valid_password(password: Seq<u8>) -> bool {
    &&& 8 <= password.len() <= MAX_PASSWORD_BYTES
    &&& !password.contains(0)
    &&& !password.contains(0x0a)
    &&& !password.contains(0x0d)
}

/// Takes the password from what was read. Line breaks at its end are dropped.
pub fn accept_password(raw: Vec<u8>) -> (result: Result<Vec<u8>, InstallerError>)
    ensures
        match result {
            Ok(password) => valid_password(without_breaks(raw@)) && password@ == without_breaks(
                raw@,
            ),
            Err(error) => !valid_password(without_breaks(raw@)) && error == (
            InstallerError::InvalidField {
                field: "password",
                reason: "must be 8-1024 bytes without line breaks",
            }),
        },
{
    let mut password = raw;
    while password.len() > 0 && (password[password.len() - 1] == 0x0a || password[password.len()
        - 1] == 0x0d)
        invariant
            without_breaks(password@) == without_breaks(raw@),
        decreases password.len(),
    {
        password.pop();
    }
    let mut accepted = password.len() >= 8 && password.len() <= MAX_PASSWORD_BYTES;
    let mut i: usize = 0;
    while i < password.len()
        invariant
            i <= password@.len(),
            accepted <==> (8 <= password@.len() <= MAX_PASSWORD_BYTES && forall|k: int|
                0 <= k < i ==> (#[trigger] password@[k]) != 0 && password@[k] != 0x0a && password@[k]
                    != 0x0d),
        decreases password.len() - i,
    {
        if password[i] == 0 || password[i] == 0x0a || password[i] == 0x0d {
            accepted = false;
        }
        i = i + 1;
    }
    if accepted {
        Ok(password)
    } else {
        proof {
            if 8 <= password@.len() <= MAX_PASSWORD_BYTES {
                let k = choose|k: int|
                    0 <= k < password@.len() && !((#[trigger] password@[k]) != 0 && password@[k]
                        != 0x0a && password@[k] != 0x0d);
                assert(password@.contains(password@[k]));
            }
        }
        Err(
            InstallerError::InvalidField {
                field: "password",
                reason: "must be 8-1024 bytes without line breaks",
            },
        )
    }
}

/// A setting as the service gets it: a name and a value, which may be no text.
#[derive(Clone, Debug, PartialEq, Eq)]
pub struct SettingValue {
    /// Name.
    pub key: String,
    /// Value, if it is a text.
    pub text: Option<String>,
}

/// The position of the first setting of that name.
pub open spec fn setting_at(values: Seq<SettingValue>, key: Seq<char>, i: int) -> bool {
    &&& 0 <= i < values.len()
    &&& values[i].key@ == key
    &&& forall|k: int| 0 <= k < i ==> (#[trigger] values[k]).key@ != key
}

/// What looking a setting up gives.
pub open spec fn lookup(
    values: Seq<SettingValue>,
    key: &'static str,
    result: Result<Seq<char>, InstallerError>,
) -> bool {
    match result {
        Ok(text) => exists|i: int| #[trigger]
            setting_at(values, key@, i) && (values[i].text matches Some(found) && found@ == text),
        Err(error) => (error == (InstallerError::InvalidField { field: key, reason: "is required" })
            && forall|k: int| 0 <= k < values.len() ==> (#[trigger] values[k]).key@ != key@) || (
        error == (InstallerError::InvalidField { field: key, reason: "must be a string" })
            && exists|i: int| #[trigger] setting_at(values, key@, i) && values[i].text is None),
    }
}

/// Looks a setting up.
pub fn string_value(values: &Vec<SettingValue>, key: &'static str) -> (result: Result<
    String,
    InstallerError,
>)
    ensures
        match result {
            Ok(text) => lookup(values@, key, Ok(text@)),
            Err(error) => lookup(values@, key, Err(error)),
        },
{
    let mut i: usize = 0;
    while i < values.len()
        invariant
            i <= values@.len(),
            forall|k: int| 0 <= k < i ==> (#[trigger] values@[k]).key@ != key@,
        decreases values.len() - i,
    {
        if same(values[i].key.as_str(), key) {
            assert(setting_at(values@, key@, i as int));
            return match &values[i].text {
                Some(text) => Ok(text.clone()),
                None => Err(
                    InstallerError::InvalidField { field: key, reason: "must be a string" },
                ),
            };
        }
        i = i + 1;
    }
    Err(InstallerError::InvalidField { field: key, reason: "is required" })
}

/// What is found under a name.
pub open spec fn finds(values: Seq<SettingValue>, key: &'static str, text: Seq<char>) -> bool {
    lookup(values, key, Ok(text))
}

/// A name under which no text is found, with the error for it.
pub open spec fn misses(
    values: Seq<SettingValue>,
    key: &'static str,
    error: InstallerError,
) -> bool {
    lookup(values, key, Err(error))
}

/// Where looking a name up fails no text is found under it.
proof fn lemma_misses(values: Seq<SettingValue>, key: &'static str, error: InstallerError)
    requires
        misses(values, key, error),
    ensures
        !found(values, key),
{
    if found(values, key) {
        let text = choose|text: Seq<char>| #[trigger] finds(values, key, text);
        let i = choose|i: int| #[trigger]
            setting_at(values, key@, i) && (values[i].text matches Some(found) && found@ == text);
        assert(values[i].key@ == key@);
        let k = choose|k: int| #[trigger] setting_at(values, key@, k) && values[k].text is None;
        if setting_at(values, key@, k) {
            assert(k == i);
        }
    }
}

/// Reads the settings. They are looked up in a fixed order, the profile first,
/// and checked when all of them are there.
pub fn settings_from_values(values: &Vec<SettingValue>) -> (result: Result<
    InstallSettings,
    InstallerError,
>)
    ensures
        match result {
            Ok(settings) => settings.checked() is Ok && all_found(
                values@,
                settings.profile.label(),
                settings.locale@,
                settings.keyboard@,
                settings.timezone@,
                settings.username@,
                settings.hostname@,
            ),
            Err(error) => settings_error(values@, error),
        },
{
    let profile = match string_value(values, "profile") {
        Ok(text) => text,
        Err(error) => {
            proof {
                lemma_misses(values@, "profile", error);
            }
            return Err(error);
        },
    };
    assert(finds(values@, "profile", profile@));
    let locale = match string_value(values, "locale") {
        Ok(text) => text,
        Err(error) => {
            proof {
                lemma_misses(values@, "locale", error);
            }
            return Err(error);
        },
    };
    assert(finds(values@, "locale", locale@));
    let keyboard = match string_value(values, "keyboard") {
        Ok(text) => text,
        Err(error) => {
            proof {
                lemma_misses(values@, "keyboard", error);
            }
            return Err(error);
        },
    };
    assert(finds(values@, "keyboard", keyboard@));
    let timezone = match string_value(values, "timezone") {
        Ok(text) => text,
        Err(error) => {
            proof {
                lemma_misses(values@, "timezone", error);
            }
            return Err(error);
        },
    };
    assert(finds(values@, "timezone", timezone@));
    let username = match string_value(values, "username") {
        Ok(text) => text,
        Err(error) => {
            proof {
                lemma_misses(values@, "username", error);
            }
            return Err(error);
        },
    };
    assert(finds(values@, "username", username@));
    let hostname = match string_value(values, "hostname") {
        Ok(text) => text,
        Err(error) => {
            proof {
                lemma_misses(values@, "hostname", error);
            }
            return Err(error);
        },
    };
    assert(finds(values@, "hostname", hostname@));
    assert(all_found(values@, profile@, locale@, keyboard@, timezone@, username@, hostname@));
    InstallSettings::new(
        locale.as_str(),
        keyboard.as_str(),
        timezone.as_str(),
        username.as_str(),
        hostname.as_str(),
        profile.as_str(),
    )
}

/// All settings are found.
pub open spec fn all_found(
    values: Seq<SettingValue>,
    profile: Seq<char>,
    locale: Seq<char>,
    keyboard: Seq<char>,
    timezone: Seq<char>,
    username: Seq<char>,
    hostname: Seq<char>,
) -> bool {
    &&& finds(values, "profile", profile)
    &&& finds(values, "locale", locale)
    &&& finds(values, "keyboard", keyboard)
    &&& finds(values, "timezone", timezone)
    &&& finds(values, "username", username)
    &&& finds(values, "hostname", hostname)
}

/// Some text is found under a name.
pub open spec fn found(values: Seq<SettingValue>, key: &'static str) -> bool {
    exists|text: Seq<char>| #[trigger] finds(values, key, text)
}

/// The error of reading settings: that of the first setting that is missing, or
/// of an unknown profile, or of the first setting that is not accepted.
pub open spec fn settings_error(values: Seq<SettingValue>, error: InstallerError) -> bool {
    if !found(values, "profile") {
        misses(values, "profile", error)
    } else if !found(values, "locale") {
        misses(values, "locale", error)
    } else if !found(values, "keyboard") {
        misses(values, "keyboard", error)
    } else if !found(values, "timezone") {
        misses(values, "timezone", error)
    } else if !found(values, "username") {
        misses(values, "username", error)
    } else if !found(values, "hostname") {
        misses(values, "hostname", error)
    } else {
        exists|
            profile: Seq<char>,
            locale: Seq<char>,
            keyboard: Seq<char>,
            timezone: Seq<char>,
            username: Seq<char>,
            hostname: Seq<char>,
        | #[trigger]
            all_found(values, profile, locale, keyboard, timezone, username, hostname) && ((error
                == (InstallerError::InvalidField {
                field: "profile",
                reason: "must be low, balanced, standard, or workstation",
            }) && forall|other: MachineProfile| profile != #[trigger] other.label()) || exists|
                refused: InstallSettings,
            |
                #[trigger] refused.checked() == Err::<(), InstallerError>(error) && refused.holds(
                    locale,
                    keyboard,
                    timezone,
                    username,
                    hostname,
                    profile,
                ))
    }
}

/// The configuration file that arguments ask for.
pub open spec fn configuration_file(arguments: Seq<Seq<char>>) -> Seq<char> {
    if arguments.len() == 2 && arguments[0] == "--config"@ {
        arguments[1]
    } else {
        "/usr/share/devcore-installer/config.json"@
    }
}

/// The configuration file that the service was asked to use: the one behind
/// `--config` where that is all there is, otherwise the usual one.
pub fn config_path(arguments: &Vec<String>) -> (path: String)
    ensures
        path@ == configuration_file(texts(arguments@)),
{
    if arguments.len() == 2 && same(arguments[0].as_str(), "--config") {
        arguments[1].clone()
    } else {
        "/usr/share/devcore-installer/config.json".to_owned()
    }
}

/// A filesystem is made where it is mounted later: the FAT filesystem on the
/// partition that is mounted for booting, ext4 on the one that is mounted as the
/// root of the target and whose identifier is asked for. Both lie on the device
/// that is partitioned, and they differ.
pub proof fn filesystems_are_made_where_they_are_mounted(device: Seq<char>)
    ensures
        exists|i: int|
            0 <= i < storage_argv(device).len() && (#[trigger] storage_argv(device)[i])[0]
                == "mkfs.fat"@ && gives(storage_argv(device)[i], "-F"@, "32"@)
                && storage_argv(device)[i].last() == mount_argv(device)[1][1],
        exists|i: int|
            0 <= i < storage_argv(device).len() && (#[trigger] storage_argv(device)[i])[0]
                == "mkfs.ext4"@ && storage_argv(device)[i].last() == mount_argv(device)[0][1],
        forall|i: int|
            0 <= i < storage_argv(device).len() ==> {
                let argv = #[trigger] storage_argv(device)[i];
                &&& argv[0] == "mkfs.fat"@ ==> argv.last() == mount_argv(device)[1][1]
                &&& argv[0] == "mkfs.ext4"@ ==> argv.last() == mount_argv(device)[0][1]
                    && argv.last() == mount_argv(device)[2].last()
            },
        mount_argv(device)[0][0] == "mount"@ && mount_argv(device)[1][0] == "mount"@,
        mount_argv(device)[0][2] == "/run/devcore-installer/target"@,
        mount_argv(device)[1][2] == "/run/devcore-installer/target/boot/efi"@,
        ends_in(mount_argv(device)[2], seq!["-o"@, "value"@, mount_argv(device)[0][1]]),
        gives(mount_argv(device)[2], "-s"@, "UUID"@),
        mount_argv(device)[2][0] == "blkid"@,
        device.is_prefix_of(mount_argv(device)[0][1]),
        device.is_prefix_of(mount_argv(device)[1][1]),
        mount_argv(device)[0][1] != mount_argv(device)[1][1],
{
    reveal_strlit("mkfs.fat");
    reveal_strlit("mkfs.ext4");
    reveal_strlit("sfdisk");
    reveal_strlit("partprobe");
    reveal_strlit("udevadm");
    reveal_strlit("1");
    reveal_strlit("2");
    reveal_strlit("p");
    reveal_strlit("");
    reveal_strlit("/boot/efi");
    reveal_strlit("/run/devcore-installer/target");
    reveal_strlit("/run/devcore-installer/target/boot/efi");
    let list = storage_argv(device);
    let mounts = mount_argv(device);
    assert(list[3][0] == "mkfs.fat"@ && list[3][1] == "-F"@);
    assert(list[4][0] == "mkfs.ext4"@);
    assert("mkfs.fat"@.len() == 8 && "mkfs.ext4"@.len() == 9 && "sfdisk"@.len() == 6);
    assert("partprobe"@.len() == 9 && "udevadm"@.len() == 7);
    assert("partprobe"@[0] != "mkfs.ext4"@[0]);
    assert(boot_path() =~= "/run/devcore-installer/target/boot/efi"@);
    assert(mounts[2].skip(3) =~= seq!["-o"@, "value"@, mounts[0][1]]);
    assert(mounts[2][1] == "-s"@);
    assert(partition_of(device, "1"@).last() == '1');
    assert(partition_of(device, "2"@).last() == '2');
}

/// The disk is partitioned before anything else is done to it, all of it, and
/// the system takes note of the partitions before filesystems are made. The
/// layout has a boot partition of 1024 MiB as the first, and gives the rest to
/// the second.
pub proof fn the_whole_disk_is_laid_out_first(device: Seq<char>)
    ensures
        storage_argv(device).len() == 5,
        storage_argv(device)[0][0] == "sfdisk"@,
        storage_argv(device)[0].last() == device,
        gives(storage_argv(device)[0], "--wipe"@, "always"@),
        gives(storage_argv(device)[0], "--wipe-partitions"@, "always"@),
        storage_argv(device)[1] == seq!["partprobe"@, device],
        storage_argv(device)[2] == seq!["udevadm"@, "settle"@],
        layout_text() == "label: gpt\n"@ + "unit: MiB\n"@ + ",1024,U\n"@ + ",,L\n"@,
{
    reveal_strlit("label: gpt\nunit: MiB\n,1024,U\n,,L\n");
    reveal_strlit("label: gpt\n");
    reveal_strlit("unit: MiB\n");
    reveal_strlit(",1024,U\n");
    reveal_strlit(",,L\n");
    assert(layout_text() =~= "label: gpt\n"@ + "unit: MiB\n"@ + ",1024,U\n"@ + ",,L\n"@);
    let first = storage_argv(device)[0];
    assert(first[1] == "--wipe"@ && first[3] == "--wipe-partitions"@);
}

/// Partitions are numbered as the kernel names them: behind a device whose name
/// ends in a digit a `p` stands in between, behind any other nothing.
pub proof fn partitions_are_named_like_the_kernel_does(device: Seq<char>, number: Seq<char>)
    ensures
        device.len() > 0 && '0' <= device.last() <= '9' ==> partition_of(device, number) == device
            + seq!['p'] + number,
        device.len() == 0 || device.last() < '0' || device.last() > '9' ==> partition_of(
            device,
            number,
        ) == device + number,
{
    reveal_strlit("p");
    reveal_strlit("");
    assert("p"@ =~= seq!['p']);
    assert(device + ""@ =~= device);
}

/// The payload is deployed to the target that was mounted, from the image that
/// was loaded and no other, without a network; the target boots from the root
/// filesystem with the identifier that was found and follows the image it was
/// deployed from. The same image finishes the same target.
pub proof fn deployments_go_to_the_mounted_target(
    local_image: Seq<char>,
    image: Seq<char>,
    uuid: Seq<char>,
)
    ensures
        ({
            let deploy = deploy_argv(local_image, image, uuid);
            let finalize = finalize_argv(local_image);
            let target = "/run/devcore-installer/target:/target:rw,rbind,rprivate"@;
            &&& deploy.take(3) == seq!["podman"@, "run"@, "--rm"@]
            &&& finalize.take(3) == seq!["podman"@, "run"@, "--rm"@]
            &&& gives(deploy, "-v"@, target) && gives(finalize, "-v"@, target)
            &&& gives(deploy, "-v"@, "/dev:/dev"@)
            &&& gives(deploy, "-v"@, "/var/lib/containers:/var/lib/containers"@)
            &&& deploy.contains("--pull=never"@) && finalize.contains("--pull=never"@)
            &&& deploy.contains("--network=none"@) && finalize.contains("--network=none"@)
            &&& deploy.contains("--privileged"@) && finalize.contains("--privileged"@)
            &&& deploy.contains("--pid=host"@) && deploy.contains("--ipc=host"@)
            &&& gives(deploy, "--security-opt"@, "label=type:unconfined_t"@)
            &&& gives(deploy, local_image, "bootc"@) && gives(finalize, local_image, "bootc"@)
            &&& gives(deploy, "bootc"@, "install"@) && gives(deploy, "install"@, "to-filesystem"@)
            &&& gives(deploy, "--root-mount-spec"@, "UUID="@ + uuid)
            &&& gives(deploy, "--target-imgref"@, image)
            &&& gives(deploy, "--stateroot"@, "default"@)
            &&& deploy.contains("--skip-finalize"@) && deploy.contains("--skip-fetch-check"@)
            &&& deploy.last() == "/target"@
            &&& ends_in(finalize, seq!["bootc"@, "install"@, "finalize"@, "/target"@])
        }),
{
    reveal_strlit("/run/devcore-installer/target");
    reveal_strlit(":/target:rw,rbind,rprivate");
    reveal_strlit("/run/devcore-installer/target:/target:rw,rbind,rprivate");
    let deploy = deploy_argv(local_image, image, uuid);
    let finalize = finalize_argv(local_image);
    assert(target_mount() =~= "/run/devcore-installer/target:/target:rw,rbind,rprivate"@);
    assert(deploy.take(3) =~= seq!["podman"@, "run"@, "--rm"@]);
    assert(finalize.take(3) =~= seq!["podman"@, "run"@, "--rm"@]);
    assert(deploy[3] == "--pull=never"@ && deploy[4] == "--network=none"@);
    assert(finalize[3] == "--pull=never"@ && finalize[4] == "--network=none"@);
    assert(deploy[6] == "--privileged"@ && finalize[6] == "--privileged"@);
    assert(deploy[7] == "--pid=host"@ && deploy[8] == "--ipc=host"@);
    assert(deploy[9] == "--security-opt"@ && deploy[11] == "-v"@ && deploy[13] == "-v"@);
    assert(deploy[15] == "-v"@ && finalize[7] == "-v"@);
    assert(deploy[17] == local_image && deploy[18] == "bootc"@ && deploy[19] == "install"@);
    assert(finalize[9] == local_image);
    assert(deploy[21] == "--skip-finalize"@ && deploy[22] == "--stateroot"@);
    assert(deploy[24] == "--root-mount-spec"@ && deploy[26] == "--target-imgref"@);
    assert(deploy[28] == "--skip-fetch-check"@);
    assert(finalize.skip(10) =~= seq!["bootc"@, "install"@, "finalize"@, "/target"@]);
}

/// Each setting reaches the tool that applies it on the target: the locale, the
/// keyboard, the time zone and the hostname go to the tool for the first boot,
/// the account is created with its home and may administer the system, and its
/// password is set in the same deployment.
pub proof fn settings_reach_the_target(settings: InstallSettings, deployment: Seq<char>)
    ensures
        ({
            let list = configure_argv(settings, deployment);
            &&& list.len() == 3
            &&& list[0][0] == "systemd-firstboot"@
            &&& gives(list[0], "--root"@, deployment)
            &&& gives(list[0], "--locale"@, settings.locale@)
            &&& gives(list[0], "--keymap"@, settings.keyboard@)
            &&& gives(list[0], "--timezone"@, settings.timezone@)
            &&& gives(list[0], "--hostname"@, settings.hostname@)
            &&& list[0].contains("--force"@) && list[0].len() == 12
            &&& list[1][0] == "useradd"@
            &&& gives(list[1], "--root"@, deployment)
            &&& gives(list[1], "--groups"@, "wheel"@)
            &&& list[1].contains("--create-home"@)
            &&& list[1].last() == settings.username@ && list[1].len() == 7
            &&& list[2] == seq!["chpasswd"@, "--root"@, deployment]
        }),
{
    let first = configure_argv(settings, deployment)[0];
    let second = configure_argv(settings, deployment)[1];
    assert(first[1] == "--force"@ && first[2] == "--root"@ && first[4] == "--locale"@);
    assert(first[6] == "--keymap"@ && first[8] == "--timezone"@ && first[10] == "--hostname"@);
    assert(second[1] == "--root"@ && second[3] == "--create-home"@ && second[4] == "--groups"@);
}

/// The lasting state of the target is put where the deployment looks for it, and
/// taken away from there again. The deployment is looked for on the target, and
/// taking the target down reaches everything below it.
pub proof fn the_state_is_put_below_the_deployment(deployment: Seq<char>)
    ensures
        bind_argv(deployment) == seq![
            "mount"@,
            "--bind"@,
            "/run/devcore-installer/target/ostree/deploy/default/var"@,
            deployment + "/var"@,
        ],
        unbind_argv(deployment)[0] == "umount"@,
        unbind_argv(deployment).last() == bind_argv(deployment).last(),
        unbind_argv(deployment).len() == 2,
        gives(deployment_argv(), "--sysroot"@, "/run/devcore-installer/target"@),
        deployment_argv().take(2) == seq!["ostree"@, "admin"@],
        deployment_argv().last() == "--print-current-dir"@,
        unmount_argv() == seq!["umount"@, "--recursive"@, "/run/devcore-installer/target"@],
{
    reveal_strlit("/run/devcore-installer/target");
    reveal_strlit("/ostree/deploy/default/var");
    reveal_strlit("/run/devcore-installer/target/ostree/deploy/default/var");
    assert(TARGET_ROOT@ + "/ostree/deploy/default/var"@
        =~= "/run/devcore-installer/target/ostree/deploy/default/var"@);
    assert(deployment_argv()[2] == "--sysroot"@);
    assert(deployment_argv().take(2) =~= seq!["ostree"@, "admin"@]);
}

/// The payload comes from the installation media and from nowhere else; the
/// images that were loaded are listed by their full identifiers, and each is
/// asked for its digest.
pub proof fn the_payload_comes_from_the_media(id: Seq<char>)
    ensures
        load_argv().take(2) == seq!["podman"@, "load"@],
        gives(
            load_argv(),
            "--input"@,
            "/usr/share/devcore-installer/payload/devcore-baseos.oci.tar"@,
        ),
        images_argv().take(3) == seq!["podman"@, "image"@, "ls"@],
        images_argv().contains("--no-trunc"@),
        gives(images_argv(), "--format"@, "{{.ID}}"@),
        inspect_argv(id).take(3) == seq!["podman"@, "image"@, "inspect"@],
        gives(inspect_argv(id), "--format"@, "{{.Digest}}"@),
        inspect_argv(id).last() == id,
{
    assert(load_argv().take(2) =~= seq!["podman"@, "load"@]);
    assert(load_argv()[2] == "--input"@);
    assert(images_argv().take(3) =~= seq!["podman"@, "image"@, "ls"@]);
    assert(images_argv()[3] == "--no-trunc"@ && images_argv()[4] == "--format"@);
    assert(inspect_argv(id).take(3) =~= seq!["podman"@, "image"@, "inspect"@]);
    assert(inspect_argv(id)[3] == "--format"@);
}

/// A reference of the payload is accepted exactly where it is the repository of
/// this system with a SHA-256 digest.
pub proof fn payloads_are_pinned_by_digest(reference: Seq<char>, digest: Seq<char>)
    ensures
        digest.len() == 64 && (forall|i: int|
            0 <= i < 64 ==> {
                let c = #[trigger] digest[i];
                '0' <= c <= '9' || 'a' <= c <= 'f' || 'A' <= c <= 'F'
            }) ==> valid_payload_reference("ghcr.io/techmigosglobal/devcoreos@sha256:"@ + digest),
        valid_payload_reference(reference) ==> exists|rest: Seq<char>|
            rest.len() == 64 && reference == "ghcr.io/techmigosglobal/devcoreos@sha256:"@ + rest
                && #[trigger] all_hex(rest),
{
    let prefix = "ghcr.io/techmigosglobal/devcoreos@sha256:"@;
    assert((prefix + digest).skip(prefix.len() as int) =~= digest);
    if valid_payload_reference(reference) {
        let rest = reference.skip(prefix.len() as int);
        assert(reference =~= prefix + rest);
        assert(all_hex(rest));
    }
}

/// A complete installation does every step, each after the one that it needs:
/// the payload is verified, loaded and identified and the disk looked up again
/// before the disk is changed; then the payload is deployed, the deployment
/// configured and finished, and the target taken down.
pub proof fn complete_runs_do_every_step(run: Seq<WorkerStep>)
    requires
        is_run(run),
        run.last() == WorkerStep::AnnounceComplete,
    ensures
        run.len() == 16,
        run[1] == WorkerStep::VerifyPayload,
        run[2] == WorkerStep::LoadPayload,
        run[3] == WorkerStep::ReadReference,
        run[4] == WorkerStep::ResolveImage,
        run[5] == WorkerStep::ResolveDisk,
        run[7] == WorkerStep::PrepareTarget,
        run[9] == WorkerStep::Deploy,
        run[11] == WorkerStep::Configure,
        run[13] == WorkerStep::Finalize,
        run[14] == WorkerStep::Unmount,
        step_after(WorkerStep::AnnounceComplete) is None,
{
    lemma_position_in_run(run, run.len() - 1);
    lemma_position_in_run(run, 1);
    lemma_position_in_run(run, 2);
    lemma_position_in_run(run, 3);
    lemma_position_in_run(run, 4);
    lemma_position_in_run(run, 5);
    lemma_position_in_run(run, 7);
    lemma_position_in_run(run, 9);
    lemma_position_in_run(run, 11);
    lemma_position_in_run(run, 13);
    lemma_position_in_run(run, 14);
}

proof fn lemma_position_in_run(run: Seq<WorkerStep>, i: int)
    requires
        is_run(run),
        0 <= i < run.len(),
    ensures
        step_index(run[i]) == i,
    decreases i,
{
    if i > 0 {
        lemma_position_in_run(run, i - 1);
        assert(step_after(run[i - 1]) == Some(run[i]));
    }
}

/// What is announced is the phase that the job is in, and the words for states
/// and phases are their names in lower case.
pub proof fn announcements_tell_the_phase(step: WorkerStep)
    ensures
        step == WorkerStep::AnnouncePreflight ==> announcement(step)->0.phase@ == phase_text(
            InstallPhase::Preflight,
        ),
        step == WorkerStep::AnnounceStorage ==> announcement(step)->0.phase@ == phase_text(
            InstallPhase::Storage,
        ),
        step == WorkerStep::AnnounceDeployment ==> announcement(step)->0.phase@ == phase_text(
            InstallPhase::Deployment,
        ),
        step == WorkerStep::AnnounceConfiguration ==> announcement(step)->0.phase@ == phase_text(
            InstallPhase::Configuration,
        ),
        step == WorkerStep::AnnounceFinalization ==> announcement(step)->0.phase@ == phase_text(
            InstallPhase::Finalization,
        ),
        step == WorkerStep::AnnounceComplete ==> announcement(step)->0.phase@ == state_text(
            InstallerState::Complete,
        ) && announcement(step)->0.completed == 100,
        phase_text(InstallPhase::Preflight) == "preflight"@,
        phase_text(InstallPhase::Storage) == "storage"@,
        phase_text(InstallPhase::Deployment) == "deployment"@,
        phase_text(InstallPhase::Configuration) == "configuration"@,
        phase_text(InstallPhase::Finalization) == "finalization"@,
        state_text(InstallerState::Idle) == "idle"@,
        state_text(InstallerState::Ready) == "ready"@,
        state_text(InstallerState::Preparing) == "preparing"@,
        state_text(InstallerState::Destructive) == "destructive"@,
        state_text(InstallerState::Deploying) == "deploying"@,
        state_text(InstallerState::Finalizing) == "finalizing"@,
        state_text(InstallerState::Complete) == "complete"@,
        state_text(InstallerState::Failed) == "failed"@,
        state_text(InstallerState::Cancelled) == "cancelled"@,
        announcement(step) is None ==> step != WorkerStep::AnnouncePreflight && step
            != WorkerStep::AnnounceComplete,
{
}

/// A disk that is in use cannot be erased: neither one that a mounted filesystem
/// names, nor any disk where it is not known what is mounted.
pub proof fn mounted_disks_are_not_erased(
    disk: DiskInfo,
    device: BlockDevice,
    id: Seq<char>,
    mounts: Option<Seq<char>>,
    line: int,
)
    requires
        is_disk_of(disk, device, id, mounts),
    ensures
        mounts is None ==> eligibility_of(disk) != DiskEligibility::Eligible,
        mounts matches Some(text) && 0 <= line < lines_of(text).len() && occurs(
            lines_of(text)[line],
            disk.device@,
        ) ==> eligibility_of(disk) != DiskEligibility::Eligible,
        device.removable == Some(true) ==> eligibility_of(disk) != DiskEligibility::Eligible,
        device.size is None ==> eligibility_of(disk) != DiskEligibility::Eligible,
        device.size matches Some(size) ==> disk.size_bytes == size,
        device.path matches Some(path) ==> disk.device@ == path@,
        device.path is None && device.name is Some ==> disk.device@ == "/dev/"@
            + device.name->0@,
{
}

/// A password is taken without the line break that ends it, and where it has 8
/// to 1024 bytes and holds no other.
pub proof fn passwords_lose_their_line_break(password: Seq<u8>)
    requires
        8 <= password.len() <= 1024,
        !password.contains(0),
        !password.contains(10),
        !password.contains(13),
    ensures
        valid_password(password),
        without_breaks(password) == password,
        without_breaks(password.push(10)) == password,
        without_breaks(password.push(13).push(10)) == password,
{
    assert(password.contains(password[password.len() - 1]));
    assert(password.push(10).drop_last() =~= password);
    assert(password.push(13).drop_last() =~= password);
    assert(password.push(13).push(10).drop_last() =~= password.push(13));
    reveal_with_fuel(without_breaks, 3);
}

/// Passwords that are too short or too long, or that hold a break or a zero byte
/// inside, are refused.
pub proof fn unsafe_passwords_are_refused(password: Seq<u8>)
    requires
        password.len() < 8 || password.len() > 1024 || password.contains(0) || password.contains(
            10,
        ) || password.contains(13),
    ensures
        !valid_password(password),
{
}

/// The record that the installer leaves says the same as the one that the first
/// start writes: one line for each setting, under its name.
pub proof fn the_installer_leaves_the_record(settings: InstallSettings)
    ensures
        firstboot_record(settings) == record_line("version"@, "1"@) + record_line(
            "language"@,
            settings.locale@,
        ) + record_line("keyboard"@, settings.keyboard@) + record_line(
            "timezone"@,
            settings.timezone@,
        ) + record_line("username"@, settings.username@) + record_line(
            "hostname"@,
            settings.hostname@,
        ) + record_line("profile"@, settings.profile.label()),
{
    reveal_strlit("version=1\nlanguage=");
    reveal_strlit("version");
    reveal_strlit("1");
    reveal_strlit("language");
    reveal_strlit("\nkeyboard=");
    reveal_strlit("keyboard");
    reveal_strlit("\ntimezone=");
    reveal_strlit("timezone");
    reveal_strlit("\nusername=");
    reveal_strlit("username");
    reveal_strlit("\nhostname=");
    reveal_strlit("hostname");
    reveal_strlit("\nprofile=");
    reveal_strlit("profile");
    reveal_strlit("\n");
    reveal_strlit("=");
    assert("version=1\nlanguage="@ =~= "version"@ + "="@ + "1"@ + "\n"@ + "language"@ + "="@);
    assert("\nkeyboard="@ =~= "\n"@ + "keyboard"@ + "="@);
    assert("\ntimezone="@ =~= "\n"@ + "timezone"@ + "="@);
    assert("\nusername="@ =~= "\n"@ + "username"@ + "="@);
    assert("\nhostname="@ =~= "\n"@ + "hostname"@ + "="@);
    assert("\nprofile="@ =~= "\n"@ + "profile"@ + "="@);
    assert(firstboot_record(settings) =~= record_line("version"@, "1"@) + record_line(
        "language"@,
        settings.locale@,
    ) + record_line("keyboard"@, settings.keyboard@) + record_line(
        "timezone"@,
        settings.timezone@,
    ) + record_line("username"@, settings.username@) + record_line(
        "hostname"@,
        settings.hostname@,
    ) + record_line("profile"@, settings.profile.label()));
}

/// A line of a record: a name and its value.
pub open spec fn record_line(name: Seq<char>, value: Seq<char>) -> Seq<char> {
    name + "="@ + value + "\n"@
}

/// An installation starts only on the disk that was checked, with the words that
/// name this disk and with settings that are accepted; every other attempt is
/// refused. One that failed or was cancelled can be started again.
pub proof fn installations_start_confirmed(
    state: ServiceState,
    confirmation: Seq<char>,
    settings: Result<InstallSettings, InstallerError>,
    result: Result<InstallRequest, ServiceError>,
)
    requires
        start_outcome(state, confirmation, settings, result),
    ensures
        result matches Ok(request) ==> {
            &&& !state.worker_active
            &&& state.job@.state == InstallerState::Ready || state.job@.state
                == InstallerState::Failed || state.job@.state == InstallerState::Cancelled
            &&& state.preflight is Some
            &&& request.disk_id@ == state.preflight->0.id@
            &&& eligibility_of(state.preflight->0) == DiskEligibility::Eligible
            &&& confirmation == phrase_of(state.preflight->0.id@)
            &&& settings == Ok::<InstallSettings, InstallerError>(request.settings)
            &&& request.settings.checked() is Ok
        },
        start_accepted(state, confirmation, settings) && state.next_job < u32::MAX ==> result is Ok,
        startable(InstallerState::Failed) && startable(InstallerState::Cancelled) && startable(
            InstallerState::Ready,
        ),
        !startable(InstallerState::Idle) && !startable(InstallerState::Complete) && !startable(
            InstallerState::Destructive,
        ),
        state.worker_active ==> (result matches Err(error) && error.is_failure(
            "installer is already running"@,
        )),
{
}

/// The boundary to the destructive part is crossed only where the disk is still the
/// one that was checked: the same name, the same device, and still one that may be
/// erased.
pub proof fn disks_are_looked_at_again(
    state: ServiceState,
    resolved: Result<DiskInfo, InstallerError>,
    result: Result<(), InstallerError>,
)
    requires
        revalidation(state, resolved, result),
    ensures
        result is Ok <==> {
            &&& resolved is Ok
            &&& state.preflight is Some
            &&& state.preflight->0.id@ == resolved->Ok_0.id@
            &&& state.preflight->0.device@ == resolved->Ok_0.device@
            &&& eligibility_of(resolved->Ok_0) == DiskEligibility::Eligible
            &&& state.job@.state == InstallerState::Preparing
        },
{
}

/// Jobs are told apart by their paths.
pub proof fn jobs_have_paths_of_their_own(a: u32, b: u32)
    ensures
        job_path_of(a) == job_path_of(b) ==> a == b,
        "/org/devcore/Installer/job/"@.is_prefix_of(job_path_of(a)),
{
    let lead = "/org/devcore/Installer/job/"@;
    decimals_say_their_number(a as nat, 0);
    decimals_say_their_number(b as nat, 0);
    assert(job_path_of(a).skip(lead.len() as int) =~= decimal_of(a as nat));
    assert(job_path_of(b).skip(lead.len() as int) =~= decimal_of(b as nat));
    assert(job_path_of(a).take(lead.len() as int) =~= lead);
}

/// Where the parts of the target lie: the boot partition and the deployments below
/// its root, and the root in the containers that write to it. The layout of a record
/// is a name, an equals sign, a value and the end of the line.
pub proof fn the_parts_of_the_target(name: Seq<char>, value: Seq<char>)
    ensures
        boot_path() == "/run/devcore-installer/target"@ + "/boot"@ + "/efi"@,
        deployment_base() == "/run/devcore-installer/target"@ + "/ostree/deploy/default"@
            + "/deploy"@,
        target_mount() == "/run/devcore-installer/target"@ + ":"@ + "/target"@ + ":"@
            + "rw,rbind,rprivate"@,
        bind_argv(name)[2] == "/run/devcore-installer/target"@ + "/ostree/deploy/default"@
            + "/var"@,
        record_line(name, value) == name.push('=') + value.push('\n'),
{
    reveal_strlit("/boot");
    reveal_strlit("/efi");
    reveal_strlit("/boot/efi");
    reveal_strlit("/run/devcore-installer/target");
    reveal_strlit("/ostree/deploy/default");
    reveal_strlit("/deploy");
    reveal_strlit("/var");
    reveal_strlit("/ostree/deploy/default/var");
    reveal_strlit("/run/devcore-installer/target/ostree/deploy/default/deploy");
    reveal_strlit(":");
    reveal_strlit("/target");
    reveal_strlit("rw,rbind,rprivate");
    reveal_strlit(":/target:rw,rbind,rprivate");
    reveal_strlit("=");
    reveal_strlit("\n");
    let root = "/run/devcore-installer/target"@;
    assert("/boot/efi"@ =~= "/boot"@ + "/efi"@);
    assert(root + ("/boot"@ + "/efi"@) =~= root + "/boot"@ + "/efi"@);
    assert(deployment_base() =~= root + "/ostree/deploy/default"@ + "/deploy"@);
    assert("/ostree/deploy/default/var"@ =~= "/ostree/deploy/default"@ + "/var"@);
    assert(root + ("/ostree/deploy/default"@ + "/var"@) =~= root + "/ostree/deploy/default"@
        + "/var"@);
    assert(":/target:rw,rbind,rprivate"@ =~= ":"@ + "/target"@ + ":"@ + "rw,rbind,rprivate"@);
    assert(root + (":"@ + "/target"@ + ":"@ + "rw,rbind,rprivate"@) =~= root + ":"@ + "/target"@
        + ":"@ + "rw,rbind,rprivate"@);
    assert("="@ =~= seq!['=']);
    assert("\n"@ =~= seq!['\n']);
    assert(name + "="@ + value + "\n"@ =~= name.push('=') + value.push('\n'));
}

/// Only whole disks are offered, under the name that comes first among the stable
/// ones, and never one of their partitions.
pub proof fn partitions_are_no_disks(device: BlockDevice, names: Seq<Seq<char>>, name: Seq<char>)
    ensures
        is_whole_disk(device) ==> (device.kind matches Some(kind) && kind@ == "disk"@),
        device.kind is None ==> !is_whole_disk(device),
        is_first_name(names, name) ==> names.contains(name) && "/dev/disk/by-id/"@.is_prefix_of(
            name,
        ) && !occurs(name, "-part"@),
        device.path matches Some(path) ==> path_of_device(device) == path@,
{
}

/// A disk is taken for what the system says of it; what it does not say is the less
/// favourable, apart from being removable.
pub proof fn disks_are_what_the_system_says(
    disk: DiskInfo,
    device: BlockDevice,
    id: Seq<char>,
    mounts: Option<Seq<char>>,
)
    requires
        is_disk_of(disk, device, id, mounts),
    ensures
        disk.id@ == id,
        device.size matches Some(size) ==> disk.size_bytes == size,
        device.size is None ==> disk.size_bytes == 0 && eligibility_of(disk)
            != DiskEligibility::Eligible,
        device.removable == Some(true) ==> eligibility_of(disk) != DiskEligibility::Eligible,
        mounts is None ==> disk.running_root && disk.installer_media && eligibility_of(disk)
            != DiskEligibility::Eligible,
        device.model matches Some(model) ==> disk.model@ == trimmed(model@),
{
}

/// Every setting is the first text that was sent under its name.
pub proof fn settings_are_what_was_sent(
    values: Seq<SettingValue>,
    profile: Seq<char>,
    locale: Seq<char>,
    keyboard: Seq<char>,
    timezone: Seq<char>,
    username: Seq<char>,
    hostname: Seq<char>,
    i: int,
)
    requires
        all_found(values, profile, locale, keyboard, timezone, username, hostname),
        0 <= i < values.len(),
        forall|k: int| 0 <= k < i ==> (#[trigger] values[k]).key@ != values[i].key@,
    ensures
        values[i].key@ == "profile"@ ==> (values[i].text matches Some(text) && text@ == profile),
        values[i].key@ == "locale"@ ==> (values[i].text matches Some(text) && text@ == locale),
        values[i].key@ == "keyboard"@ ==> (values[i].text matches Some(text) && text@ == keyboard),
        values[i].key@ == "timezone"@ ==> (values[i].text matches Some(text) && text@ == timezone),
        values[i].key@ == "username"@ ==> (values[i].text matches Some(text) && text@ == username),
        values[i].key@ == "hostname"@ ==> (values[i].text matches Some(text) && text@ == hostname),
{
    the_first_setting_counts(values, "profile", profile, i);
    the_first_setting_counts(values, "locale", locale, i);
    the_first_setting_counts(values, "keyboard", keyboard, i);
    the_first_setting_counts(values, "timezone", timezone, i);
    the_first_setting_counts(values, "username", username, i);
    the_first_setting_counts(values, "hostname", hostname, i);
}

proof fn the_first_setting_counts(
    values: Seq<SettingValue>,
    key: &'static str,
    text: Seq<char>,
    i: int,
)
    requires
        finds(values, key, text),
        0 <= i < values.len(),
        forall|k: int| 0 <= k < i ==> (#[trigger] values[k]).key@ != values[i].key@,
    ensures
        values[i].key@ == key@ ==> (values[i].text matches Some(found) && found@ == text),
{
    let j = choose|j: int| #[trigger]
        setting_at(values, key@, j) && (values[j].text matches Some(found) && found@ == text);
    if values[i].key@ == key@ {
        if i < j {
            assert(values[i].key@ != key@);
        } else if j < i {
            assert(values[j].key@ != values[i].key@);
        }
    }
}

/// A failure tells its reason first and is cut to a bounded length; the progress
/// that is announced only grows.
pub proof fn failures_are_told_in_short(error: InstallerError, also: InstallerError)
    ensures
        failure_text(error, None).len() <= 512,
        failure_text(error, Some(also)).len() <= 512,
        failure_text(error, None) == cut(shown(error.text()), 512),
        failure_text(error, Some(also)) == cut(
            shown(error.text() + "; target cleanup failed: "@ + also.text()),
            512,
        ),
        announcement(WorkerStep::AnnouncePreflight)->0.completed == 5,
        announcement(WorkerStep::AnnounceStorage)->0.completed == 20,
        announcement(WorkerStep::AnnounceDeployment)->0.completed == 45,
        announcement(WorkerStep::AnnounceConfiguration)->0.completed == 78,
        announcement(WorkerStep::AnnounceFinalization)->0.completed == 94,
{
}

/// Another configuration is used only where it is all that is asked for.
pub proof fn configurations_are_asked_for(path: Seq<char>, arguments: Seq<Seq<char>>)
    ensures
        configuration_file(seq!["--config"@, path]) == path,
        arguments.len() != 2 || arguments[0] != "--config"@ ==> configuration_file(arguments)
            == "/usr/share/devcore-installer/config.json"@,
{
    assert(seq!["--config"@, path][0] == "--config"@);
    assert(seq!["--config"@, path][1] == path);
}

} // verus!
