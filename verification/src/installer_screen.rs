//! The screen of the installer.
//!
//! Each page hands a request to the installer service and shows its answer.

use crate::text::{decimal, decimal_of, join, push_text, same, texts};
use vstd::prelude::*;

verus! {

/// A disk as the service describes it.
#[derive(Clone, Debug, PartialEq, Eq)]
pub struct DiskRow {
    /// Stable name.
    pub id: String,
    /// Model.
    pub model: String,
    /// Size.
    pub size_bytes: u64,
    /// Device.
    pub device: String,
}

/// The line on a disk.
pub open spec fn disk_line(row: DiskRow) -> Seq<char> {
    row.model@ + " \u{b7} "@ + decimal_of((row.size_bytes / 1_073_741_824) as nat)
        + " GiB \u{b7} "@ + row.device@
}

/// Formats the line on a disk.
pub fn disk_summary(row: &DiskRow) -> (line: String)
    ensures
        line@ == disk_line(*row),
{
    let mut line = join(row.model.as_str(), " \u{b7} ");
    line.append(decimal(row.size_bytes / 1_073_741_824).as_str());
    line.append(" GiB \u{b7} ");
    line.append(row.device.as_str());
    line
}

/// The screen.
#[derive(Clone, Debug, PartialEq, Eq)]
pub struct InstallerScreen {
    /// Page that is shown.
    pub step: i32,
    /// Disks that can be chosen.
    pub disk_options: Vec<String>,
    /// Disk that is chosen.
    pub disk_id: String,
    /// Line on that disk.
    pub disk_summary: String,
    /// Words that have to be typed before it is erased.
    pub required_confirmation: String,
    /// Password.
    pub password: String,
    /// Password, once more.
    pub password_confirm: String,
    /// Whether an installation is under way.
    pub busy: bool,
    /// The installation.
    pub job_path: String,
    /// Where it stands.
    pub progress: String,
    /// What is going on.
    pub status: String,
}

/// The screen in mathematical terms.
#[verifier::ext_equal]
pub struct ScreenView {
    /// Page that is shown.
    pub step: i32,
    /// Disks that can be chosen.
    pub disk_options: Seq<Seq<char>>,
    /// Disk that is chosen.
    pub disk_id: Seq<char>,
    /// Line on that disk.
    pub disk_summary: Seq<char>,
    /// Words that have to be typed before it is erased.
    pub required_confirmation: Seq<char>,
    /// Password.
    pub password: Seq<char>,
    /// Password, once more.
    pub password_confirm: Seq<char>,
    /// Whether an installation is under way.
    pub busy: bool,
    /// The installation.
    pub job_path: Seq<char>,
    /// Where it stands.
    pub progress: Seq<char>,
    /// What is going on.
    pub status: Seq<char>,
}

impl View for InstallerScreen {
    type V = ScreenView;

    open spec fn view(&self) -> ScreenView {
        ScreenView {
            step: self.step,
            disk_options: texts(self.disk_options@),
            disk_id: self.disk_id@,
            disk_summary: self.disk_summary@,
            required_confirmation: self.required_confirmation@,
            password: self.password@,
            password_confirm: self.password_confirm@,
            busy: self.busy,
            job_path: self.job_path@,
            progress: self.progress@,
            status: self.status@,
        }
    }
}

/// The names of disks.
pub open spec fn disk_names(rows: Seq<DiskRow>) -> Seq<Seq<char>> {
    Seq::new(rows.len(), |i: int| rows[i].id@)
}

/// The screen after the disks were asked for. The first one is chosen.
pub open spec fn after_disks(
    screen: ScreenView,
    result: Result<Vec<DiskRow>, String>,
) -> ScreenView {
    match result {
        Ok(rows) => if rows@.len() == 0 {
            ScreenView {
                status:
                    "No eligible internal disk was found. Connect a non-removable disk of at least 32 GiB."@,
                ..screen
            }
        } else {
            ScreenView {
                disk_options: disk_names(rows@),
                disk_id: rows@[0].id@,
                disk_summary: disk_line(rows@[0]),
                status:
                    "Eligible disks loaded. Review the selected target before continuing."@,
                ..screen
            }
        },
        Err(error) => ScreenView { status: error@, ..screen },
    }
}

/// The screen after the chosen disk was checked. The page moves on only where
/// the check went well.
pub open spec fn after_preflight(
    screen: ScreenView,
    result: Result<(String, DiskRow), String>,
) -> ScreenView {
    match result {
        Ok((phrase, row)) => ScreenView {
            required_confirmation: phrase@,
            disk_summary: disk_line(row),
            status: "Disk identity revalidated. Continue to account setup."@,
            step: 2,
            ..screen
        },
        Err(error) => ScreenView { status: error@, ..screen },
    }
}

/// The screen after the installation was asked for.
pub open spec fn after_request(screen: ScreenView) -> ScreenView {
    ScreenView {
        password: Seq::empty(),
        password_confirm: Seq::empty(),
        busy: true,
        status: "Starting protected installer job\u{2026}"@,
        ..screen
    }
}

/// The screen after the service answered to the request.
pub open spec fn after_start(screen: ScreenView, result: Result<String, String>) -> ScreenView {
    match result {
        Ok(job) => ScreenView {
            job_path: job@,
            progress:
                "Payload verification has started. You can continue using the live desktop."@,
            status: "Installer job accepted."@,
            step: 4,
            ..screen
        },
        Err(error) => ScreenView { busy: false, status: error@, ..screen },
    }
}

/// Where an installation stands, as the service tells it.
#[derive(Clone, Debug, PartialEq, Eq)]
pub struct InstallationStatus {
    /// Label of its state.
    pub state: String,
    /// Whether it can be cancelled.
    pub cancellable: bool,
    /// What went wrong.
    pub diagnostic: String,
}

/// The screen after the installation was asked about.
pub open spec fn after_status(
    screen: ScreenView,
    result: Result<InstallationStatus, String>,
) -> ScreenView {
    match result {
        Ok(status) => ScreenView {
            busy: status.cancellable || status.state@ == "preparing"@,
            progress: if status.diagnostic@.len() == 0 {
                "Installer state: "@ + status.state@
            } else {
                "Installer state: "@ + status.state@ + " \u{b7} "@ + status.diagnostic@
            },
            status: "Status refreshed from the protected installer service."@,
            ..screen
        },
        Err(error) => ScreenView { status: error@, ..screen },
    }
}

/// The screen after the installation was to be cancelled.
pub open spec fn after_cancel(screen: ScreenView, result: Result<bool, String>) -> ScreenView {
    match result {
        Ok(true) => ScreenView {
            busy: false,
            progress: "Installation cancelled before disk changes."@,
            ..screen
        },
        Ok(false) => ScreenView {
            progress: "Cancellation is unavailable after destructive storage begins."@,
            ..screen
        },
        Err(error) => ScreenView { status: error@, ..screen },
    }
}

/// What the button that goes on does.
#[derive(Clone, Copy, Debug, PartialEq, Eq, Structural)]
pub enum NextAction {
    /// Show this page.
    Show(i32),
    /// Check the chosen disk.
    RunPreflight,
    /// Nothing.
    Stay,
}

/// What the button that goes on does on a page.
pub open spec fn action_on(step: i32) -> NextAction {
    if step == 0 {
        NextAction::Show(1)
    } else if step == 1 {
        NextAction::RunPreflight
    } else if step == 2 {
        NextAction::Show(3)
    } else {
        NextAction::Stay
    }
}

/// The page before a page.
pub open spec fn step_before(step: i32) -> i32 {
    if step > 0 {
        (step - 1) as i32
    } else {
        step
    }
}

/// Whether the installation can be asked for with a confirmation.
pub open spec fn may_start(screen: ScreenView, confirmation: Seq<char>) -> bool {
    !screen.busy && confirmation == screen.required_confirmation && screen.password.len() > 0
        && screen.password == screen.password_confirm
}

impl InstallerScreen {
    /// Shows the disks.
    pub fn load_disks(&mut self, result: Result<Vec<DiskRow>, String>)
        ensures
            final(self)@ == after_disks(old(self)@, result),
    {
        let ghost before = self@;
        match result {
            Ok(rows) => {
                if rows.len() == 0 {
                    self.status =
                    "No eligible internal disk was found. Connect a non-removable disk of at least 32 GiB.".to_owned();
                } else {
                    let mut options: Vec<String> = Vec::new();
                    let mut i: usize = 0;
                    assert(texts(options@) =~= disk_names(rows@).take(0));
                    while i < rows.len()
                        invariant
                            i <= rows@.len(),
                            texts(options@) == disk_names(rows@).take(i as int),
                        decreases rows.len() - i,
                    {
                        push_text(&mut options, rows[i].id.as_str());
                        assert(disk_names(rows@).take(i + 1) =~= disk_names(rows@).take(
                            i as int,
                        ).push(rows@[i as int].id@));
                        i = i + 1;
                    }
                    assert(disk_names(rows@).take(i as int) =~= disk_names(rows@));
                    self.disk_options = options;
                    self.disk_id = rows[0].id.clone();
                    self.disk_summary = disk_summary(&rows[0]);
                    self.status =
                    "Eligible disks loaded. Review the selected target before continuing.".to_owned();
                }
            },
            Err(error) => {
                self.status = error;
            },
        }
        assert(self@ =~= after_disks(before, result));
    }

    /// Shows how the check of the chosen disk went.
    pub fn preflight(&mut self, result: Result<(String, DiskRow), String>)
        ensures
            final(self)@ == after_preflight(old(self)@, result),
    {
        let ghost before = self@;
        match result {
            Ok((phrase, row)) => {
                self.disk_summary = disk_summary(&row);
                self.required_confirmation = phrase;
                self.status = "Disk identity revalidated. Continue to account setup.".to_owned();
                self.step = 2;
            },
            Err(error) => {
                self.status = error;
            },
        }
        assert(self@ =~= after_preflight(before, result));
    }

    /// Takes the password off the screen for the request.
    pub fn request_install(&mut self) -> (password: String)
        ensures
            final(self)@ == after_request(old(self)@),
            password@ == old(self)@.password,
    {
        let ghost before = self@;
        let password = self.password.clone();
        self.password = String::new();
        self.password_confirm = String::new();
        self.busy = true;
        self.status = "Starting protected installer job\u{2026}".to_owned();
        assert(self@ =~= after_request(before));
        password
    }

    /// Shows the answer to the request.
    pub fn start_install(&mut self, result: Result<String, String>)
        ensures
            final(self)@ == after_start(old(self)@, result),
    {
        let ghost before = self@;
        match result {
            Ok(job) => {
                self.job_path = job;
                self.progress =
                "Payload verification has started. You can continue using the live desktop.".to_owned();
                self.status = "Installer job accepted.".to_owned();
                self.step = 4;
            },
            Err(error) => {
                self.busy = false;
                self.status = error;
            },
        }
        assert(self@ =~= after_start(before, result));
    }

    /// Shows where the installation stands.
    pub fn refresh_status(&mut self, result: Result<InstallationStatus, String>)
        ensures
            final(self)@ == after_status(old(self)@, result),
    {
        let ghost before = self@;
        match &result {
            Ok(status) => {
                self.busy = status.cancellable || same(status.state.as_str(), "preparing");
                let mut progress = join("Installer state: ", status.state.as_str());
                if !status.diagnostic.as_str().is_empty() {
                    progress.append(" \u{b7} ");
                    progress.append(status.diagnostic.as_str());
                }
                self.progress = progress;
                self.status = "Status refreshed from the protected installer service.".to_owned();
            },
            Err(error) => {
                self.status = error.clone();
            },
        }
        assert(self@ =~= after_status(before, result));
    }

    /// Shows whether the installation was cancelled.
    pub fn cancel_install(&mut self, result: Result<bool, String>)
        ensures
            final(self)@ == after_cancel(old(self)@, result),
    {
        let ghost before = self@;
        match result {
            Ok(cancelled) => {
                if cancelled {
                    self.busy = false;
                    self.progress = "Installation cancelled before disk changes.".to_owned();
                } else {
                    self.progress =
                    "Cancellation is unavailable after destructive storage begins.".to_owned();
                }
            },
            Err(error) => {
                self.status = error;
            },
        }
        assert(self@ =~= after_cancel(before, result));
    }

    /// Decides what the button that goes on does. The page after the choice of
    /// a disk is reached only through the check of that disk.
    pub fn next(&self) -> (action: NextAction)
        ensures
            action == action_on(self.step),
    {
        if self.step == 0 {
            NextAction::Show(1)
        } else if self.step == 1 {
            NextAction::RunPreflight
        } else if self.step == 2 {
            NextAction::Show(3)
        } else {
            NextAction::Stay
        }
    }

    /// Shows the page before, down to the first one.
    pub fn back(&mut self)
        ensures
            final(self)@ == (ScreenView {
                step: step_before(old(self).step),
                ..old(self)@
            }),
    {
        if self.step > 0 {
            self.step = self.step - 1;
        }
    }

    /// Whether the installation can be asked for: nothing is under way, the
    /// words were typed, and there is a password that was typed twice.
    pub fn can_start(&self, confirmation: &str) -> (result: bool)
        ensures
            result == may_start(self@, confirmation@),
    {
        !self.busy && same(confirmation, self.required_confirmation.as_str())
            && !self.password.as_str().is_empty() && same(
            self.password.as_str(),
            self.password_confirm.as_str(),
        )
    }
}

/// The password is gone from the screen as soon as the installation is asked
/// for, whatever comes of it.
pub proof fn passwords_leave_the_screen(screen: ScreenView, result: Result<String, String>)
    ensures
        after_start(after_request(screen), result).password.len() == 0,
        after_start(after_request(screen), result).password_confirm.len() == 0,
{
}

/// One setting of an installation.
#[derive(Clone, Debug, PartialEq, Eq)]
pub struct ConfigurationEntry {
    /// Its name.
    pub key: &'static str,
    /// Its value.
    pub value: String,
}

/// The names and values of a list of settings.
pub open spec fn named_values(list: Seq<ConfigurationEntry>) -> Seq<(Seq<char>, Seq<char>)> {
    list.map_values(|entry: ConfigurationEntry| (entry.key@, entry.value@))
}

/// The settings of an installation, each under its name.
pub open spec fn configuration_of(
    locale: Seq<char>,
    keyboard: Seq<char>,
    timezone: Seq<char>,
    username: Seq<char>,
    hostname: Seq<char>,
    profile: Seq<char>,
) -> Seq<(Seq<char>, Seq<char>)> {
    seq![
        ("locale"@, locale),
        ("keyboard"@, keyboard),
        ("timezone"@, timezone),
        ("username"@, username),
        ("hostname"@, hostname),
        ("profile"@, profile),
    ]
}

/// Names the settings of an installation for the service.
pub fn make_configuration(
    locale: &str,
    keyboard: &str,
    timezone: &str,
    username: &str,
    hostname: &str,
    profile: &str,
) -> (list: Vec<ConfigurationEntry>)
    ensures
        list@.len() == 6,
        list@[0].key@ == "locale"@ && list@[0].value@ == locale@,
        list@[1].key@ == "keyboard"@ && list@[1].value@ == keyboard@,
        list@[2].key@ == "timezone"@ && list@[2].value@ == timezone@,
        list@[3].key@ == "username"@ && list@[3].value@ == username@,
        list@[4].key@ == "hostname"@ && list@[4].value@ == hostname@,
        list@[5].key@ == "profile"@ && list@[5].value@ == profile@,
        named_values(list@) == configuration_of(
            locale@,
            keyboard@,
            timezone@,
            username@,
            hostname@,
            profile@,
        ),
{
    let list = vec![
        ConfigurationEntry { key: "locale", value: locale.to_owned() },
        ConfigurationEntry { key: "keyboard", value: keyboard.to_owned() },
        ConfigurationEntry { key: "timezone", value: timezone.to_owned() },
        ConfigurationEntry { key: "username", value: username.to_owned() },
        ConfigurationEntry { key: "hostname", value: hostname.to_owned() },
        ConfigurationEntry { key: "profile", value: profile.to_owned() },
    ];
    assert(named_values(list@) =~= configuration_of(
        locale@,
        keyboard@,
        timezone@,
        username@,
        hostname@,
        profile@,
    ));
    list
}

/// Every setting goes to the service under its own name, once.
pub proof fn settings_go_under_their_names(
    locale: Seq<char>,
    keyboard: Seq<char>,
    timezone: Seq<char>,
    username: Seq<char>,
    hostname: Seq<char>,
    profile: Seq<char>,
    i: int,
)
    requires
        0 <= i < configuration_of(locale, keyboard, timezone, username, hostname, profile).len(),
    ensures
        ({
            let list = configuration_of(locale, keyboard, timezone, username, hostname, profile);
            &&& list.len() == 6
            &&& list.contains(("locale"@, locale))
            &&& list.contains(("keyboard"@, keyboard))
            &&& list.contains(("timezone"@, timezone))
            &&& list.contains(("username"@, username))
            &&& list.contains(("hostname"@, hostname))
            &&& list.contains(("profile"@, profile))
            &&& list[i].0 == "username"@ ==> list[i].1 == username
            &&& list[i].0 == "hostname"@ ==> list[i].1 == hostname
        }),
{
    let list = configuration_of(locale, keyboard, timezone, username, hostname, profile);
    reveal_strlit("locale");
    reveal_strlit("keyboard");
    reveal_strlit("timezone");
    reveal_strlit("username");
    reveal_strlit("hostname");
    reveal_strlit("profile");
    assert("locale"@[0] == 'l' && "keyboard"@[0] == 'k' && "timezone"@[0] == 't');
    assert("username"@[0] == 'u' && "hostname"@[0] == 'h' && "profile"@[0] == 'p');
    assert(list[0] == ("locale"@, locale));
    assert(list[1] == ("keyboard"@, keyboard));
    assert(list[2] == ("timezone"@, timezone));
    assert(list[3] == ("username"@, username));
    assert(list[4] == ("hostname"@, hostname));
    assert(list[5] == ("profile"@, profile));
}

/// The installation is asked for only with the words that the service wants, a
/// password that was typed twice, and nothing under way; once it is asked for it
/// cannot be asked for again.
pub proof fn installations_need_a_confirmation(screen: ScreenView, confirmation: Seq<char>)
    ensures
        may_start(screen, confirmation) ==> {
            &&& confirmation == screen.required_confirmation
            &&& screen.password == screen.password_confirm
            &&& screen.password.len() > 0
            &&& !screen.busy
        },
        !screen.busy && screen.password == screen.password_confirm && screen.password.len() > 0
            ==> may_start(screen, screen.required_confirmation),
        !may_start(after_request(screen), confirmation),
{
}

/// No page is skipped: the page after the choice of a disk is reached only by a
/// check that succeeds, and going back goes back by one page.
pub proof fn the_check_of_the_disk_is_not_skipped(screen: ScreenView, step: i32)
    ensures
        action_on(step) matches NextAction::Show(page) ==> page == step + 1 && step != 1,
        action_on(step) == NextAction::RunPreflight <==> step == 1,
        action_on(0) == NextAction::Show(1),
        action_on(2) == NextAction::Show(3),
        step > 2 ==> action_on(step) == NextAction::Stay,
        step > 0 ==> step_before(step) == step - 1,
        step_before(0) == 0,
        forall|error: String| (#[trigger] after_preflight(screen, Err(error))).step == screen.step
            && after_preflight(screen, Err(error)).status == error@
            && after_preflight(screen, Err(error)).required_confirmation
            == screen.required_confirmation,
        forall|phrase: String, row: DiskRow|
            (#[trigger] after_preflight(screen, Ok((phrase, row)))).step == 2 && after_preflight(
                screen,
                Ok((phrase, row)),
            ).required_confirmation == phrase@ && after_preflight(
                screen,
                Ok((phrase, row)),
            ).disk_summary == disk_line(row),
{
}

/// A disk is described by its model, its size in whole gibibytes and its device.
pub proof fn disks_are_described(row: DiskRow, gibibytes: nat, rest: nat)
    requires
        row.size_bytes == 1024 * 1024 * 1024 * gibibytes + rest,
        rest < 1024 * 1024 * 1024,
    ensures
        disk_line(row) == row.model@ + " \u{b7} "@ + decimal_of(gibibytes) + " GiB \u{b7} "@
            + row.device@,
{
}

/// The disks that were found are offered by their names, in order, and the first
/// one is chosen; where there is none, or a failure, the choice stays as it was.
pub proof fn the_first_disk_is_chosen(screen: ScreenView, rows: Vec<DiskRow>, error: String, i: int)
    ensures
        rows@.len() > 0 ==> {
            let shown = after_disks(screen, Ok(rows));
            &&& shown.disk_id == rows@[0].id@
            &&& shown.disk_summary == disk_line(rows@[0])
            &&& shown.disk_options.len() == rows@.len()
            &&& 0 <= i < rows@.len() ==> shown.disk_options[i] == rows@[i].id@
            &&& shown.step == screen.step
            &&& shown.busy == screen.busy
        },
        rows@.len() == 0 ==> after_disks(screen, Ok(rows)).disk_id == screen.disk_id && after_disks(
            screen,
            Ok(rows),
        ).disk_options == screen.disk_options,
        after_disks(screen, Err(error)).status == error@,
        after_disks(screen, Err(error)).disk_id == screen.disk_id,
{
}

/// An accepted job is shown on the last page, with its path, while it runs; a
/// refused one gives the screen back.
pub proof fn jobs_are_shown_while_they_run(screen: ScreenView, job: String, error: String)
    ensures
        after_start(after_request(screen), Ok(job)).busy,
        after_start(screen, Ok(job)).step == 4,
        after_start(screen, Ok(job)).job_path == job@,
        !after_start(after_request(screen), Err(error)).busy,
        after_start(screen, Err(error)).step == screen.step,
        after_start(screen, Err(error)).status == error@,
        after_start(screen, Err(error)).job_path == screen.job_path,
{
}

/// The screen is busy as long as a job can be cancelled or is being prepared. A
/// cancelled job frees it; a job that cannot be cancelled any more does not.
pub proof fn the_screen_follows_the_job(
    screen: ScreenView,
    status: InstallationStatus,
    error: String,
)
    ensures
        after_status(screen, Ok(status)).busy <==> status.cancellable || status.state@
            == "preparing"@,
        status.diagnostic@.len() == 0 ==> after_status(screen, Ok(status)).progress
            == "Installer state: "@ + status.state@,
        status.diagnostic@.len() > 0 ==> after_status(screen, Ok(status)).progress
            == "Installer state: "@ + status.state@ + " \u{b7} "@ + status.diagnostic@,
        after_status(screen, Ok(status)).step == screen.step,
        after_status(screen, Err(error)).busy == screen.busy,
        after_status(screen, Err(error)).progress == screen.progress,
        after_status(screen, Err(error)).status == error@,
        !after_cancel(screen, Ok(true)).busy,
        after_cancel(screen, Ok(false)).busy == screen.busy,
        after_cancel(screen, Err(error)).busy == screen.busy,
        after_cancel(screen, Err(error)).status == error@,
        after_cancel(screen, Ok(true)).progress == "Installation cancelled before disk changes."@,
        after_cancel(screen, Ok(false)).progress
            == "Cancellation is unavailable after destructive storage begins."@,
{
}

} // verus!
