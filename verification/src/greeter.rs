//! The login screen and the setup screen that comes before it on a new system.
//!
//! A login is a conversation with the login service; what each reply leads to
//! is decided here. Responses are handed on and not kept.

use crate::resource::{MachineProfile, ResourceSnapshot};
use crate::session::{AuthMessageKind, GreetdResponse, SessionError, SessionLaunchSpec};
use crate::text::{
    byte_len, decimal, decimal_of, is_white_space, join, same, trim, trimmed,
    trimmed_keeps_the_middle,
};
use vstd::prelude::*;
use vstd::utf8::encode_utf8;

verus! {

/// What a submission led to.
#[derive(Clone, Debug, PartialEq, Eq)]
pub enum LoginOutcome {
    /// The service asks for something or tells something.
    Prompt {
        /// What it is.
        kind: AuthMessageKind,
        /// Its words.
        message: String,
        /// Whether a response is wanted.
        response_required: bool,
    },
    /// The session was started.
    Started,
    /// The login failed.
    Failure(String),
}

/// A message of this kind wants a response.
pub open spec fn wants_response(kind: AuthMessageKind) -> bool {
    kind == AuthMessageKind::Visible || kind == AuthMessageKind::Secret
}

impl LoginOutcome {
    /// The outcome for a message of the service.
    pub fn prompt(kind: AuthMessageKind, message: String) -> (outcome: LoginOutcome)
        ensures
            outcome == (LoginOutcome::Prompt {
                kind,
                message,
                response_required: wants_response(kind),
            }),
    {
        LoginOutcome::Prompt {
            response_required: kind == AuthMessageKind::Visible || kind == AuthMessageKind::Secret,
            kind,
            message,
        }
    }
}

/// What a submission asks for first.
#[derive(Clone, Debug, PartialEq, Eq)]
pub enum SubmitStep {
    /// Send the response in the conversation that is under way.
    Answer,
    /// Open a conversation for the user.
    OpenSession,
    /// Nothing: show this.
    Show(LoginOutcome),
}

/// What a reply of the service leads to.
#[derive(Clone, Debug, PartialEq, Eq)]
pub enum ReplyStep {
    /// Start the session.
    StartSession,
    /// Show this.
    Show(LoginOutcome),
}

/// A login.
#[derive(Clone, Debug)]
pub struct LoginController {
    /// Whether a conversation is under way.
    pub in_session: bool,
    /// What is started at its end.
    pub launch: SessionLaunchSpec,
}

/// The outcome for a reply that starts nothing.
pub open spec fn is_outcome_of(reply: GreetdResponse, outcome: LoginOutcome) -> bool {
    match reply {
        GreetdResponse::Success => outcome == LoginOutcome::Started,
        GreetdResponse::AuthMessage { kind, message } => outcome == (LoginOutcome::Prompt {
            kind,
            message,
            response_required: wants_response(kind),
        }),
        GreetdResponse::Error { description, .. } => outcome == LoginOutcome::Failure(description),
    }
}

/// Whether a submission of a user name leads to a step.
pub open spec fn is_step_of(in_session: bool, username: Seq<char>, step: SubmitStep) -> bool {
    if in_session {
        step == SubmitStep::Answer
    } else if trimmed(username).len() == 0 {
        step matches SubmitStep::Show(LoginOutcome::Failure(message)) && message@
            == "Username is required"@
    } else {
        step == SubmitStep::OpenSession
    }
}

/// Whether a reply leads to a result, and whether the conversation goes on.
pub open spec fn follows_reply(
    in_session: bool,
    reply: GreetdResponse,
    goes_on: bool,
    result: Result<ReplyStep, SessionError>,
) -> bool {
    match reply {
        GreetdResponse::Success => goes_on == in_session && if in_session {
            result == Ok::<ReplyStep, SessionError>(ReplyStep::StartSession)
        } else {
            result matches Err(SessionError::InvalidSocket(path)) && path@
                == "missing greetd session"@
        },
        GreetdResponse::AuthMessage { .. } => goes_on == in_session && (result matches Ok(
            ReplyStep::Show(outcome),
        ) && is_outcome_of(reply, outcome)),
        GreetdResponse::Error { .. } => !goes_on && (result matches Ok(ReplyStep::Show(outcome))
            && is_outcome_of(reply, outcome)),
    }
}

impl LoginController {
    /// A login without a conversation.
    pub fn new() -> (controller: LoginController)
        ensures
            !controller.in_session,
            controller.launch.is_devcore(),
    {
        LoginController { in_session: false, launch: SessionLaunchSpec::devcore() }
    }

    /// Decides what a submission asks for first. A new conversation needs a
    /// user.
    pub fn submit(&self, username: &str) -> (step: SubmitStep)
        ensures
            is_step_of(self.in_session, username@, step),
    {
        if self.in_session {
            return SubmitStep::Answer;
        }
        if trim(username).as_str().is_empty() {
            return SubmitStep::Show(LoginOutcome::Failure("Username is required".to_owned()));
        }
        SubmitStep::OpenSession
    }

    /// Takes note of the conversation that was opened.
    pub fn session_opened(&mut self)
        ensures
            final(self).in_session,
            final(self).launch == old(self).launch,
    {
        self.in_session = true;
    }

    /// Decides what a reply of the service leads to. An error ends the
    /// conversation.
    pub fn process_reply(&mut self, reply: GreetdResponse) -> (result: Result<
        ReplyStep,
        SessionError,
    >)
        ensures
            final(self).launch == old(self).launch,
            follows_reply(old(self).in_session, reply, final(self).in_session, result),
    {
        match reply {
            GreetdResponse::Success => {
                if !self.in_session {
                    return Err(SessionError::InvalidSocket("missing greetd session".to_owned()));
                }
                Ok(ReplyStep::StartSession)
            },
            GreetdResponse::AuthMessage { kind, message } => Ok(
                ReplyStep::Show(LoginOutcome::prompt(kind, message)),
            ),
            GreetdResponse::Error { description, .. } => {
                self.in_session = false;
                Ok(ReplyStep::Show(LoginOutcome::Failure(description)))
            },
        }
    }

    /// Decides what the reply to the start of the session leads to.
    pub fn process_start_reply(&self, reply: GreetdResponse) -> (outcome: LoginOutcome)
        ensures
            is_outcome_of(reply, outcome),
    {
        match reply {
            GreetdResponse::Success => LoginOutcome::Started,
            GreetdResponse::AuthMessage { kind, message } => LoginOutcome::prompt(kind, message),
            GreetdResponse::Error { description, .. } => LoginOutcome::Failure(description),
        }
    }
}

/// The login screen.
#[derive(Clone, Debug, PartialEq, Eq)]
pub struct GreeterScreen {
    /// What the service asks.
    pub prompt: String,
    /// Whether the field for the response is shown.
    pub auth_visible: bool,
    /// Whether a response is wanted.
    pub response_required: bool,
    /// Whether the response is hidden.
    pub response_secret: bool,
    /// What is going on.
    pub status_message: String,
}

/// The login screen in mathematical terms.
#[verifier::ext_equal]
pub struct GreeterView {
    /// What the service asks.
    pub prompt: Seq<char>,
    /// Whether the field for the response is shown.
    pub auth_visible: bool,
    /// Whether a response is wanted.
    pub response_required: bool,
    /// Whether the response is hidden.
    pub response_secret: bool,
    /// What is going on.
    pub status_message: Seq<char>,
}

impl View for GreeterScreen {
    type V = GreeterView;

    open spec fn view(&self) -> GreeterView {
        GreeterView {
            prompt: self.prompt@,
            auth_visible: self.auth_visible,
            response_required: self.response_required,
            response_secret: self.response_secret,
            status_message: self.status_message@,
        }
    }
}

/// The screen after an outcome.
pub open spec fn after_outcome(screen: GreeterView, outcome: LoginOutcome) -> GreeterView {
    match outcome {
        LoginOutcome::Prompt { kind, message, response_required } => GreeterView {
            prompt: message@,
            auth_visible: true,
            response_required,
            response_secret: kind == AuthMessageKind::Secret,
            status_message: "PAM requested the next authentication step"@,
        },
        LoginOutcome::Started => screen,
        LoginOutcome::Failure(message) => GreeterView {
            auth_visible: false,
            response_required: false,
            response_secret: false,
            status_message: message@,
            ..screen
        },
    }
}

impl GreeterScreen {
    /// Shows an outcome. Returns whether the screen is done.
    pub fn apply_outcome(&mut self, outcome: LoginOutcome) -> (done: bool)
        ensures
            final(self)@ == after_outcome(old(self)@, outcome),
            done == (outcome is Started),
    {
        let ghost before = self@;
        match outcome {
            LoginOutcome::Prompt { kind, message, response_required } => {
                self.prompt = message;
                self.auth_visible = true;
                self.response_required = response_required;
                self.response_secret = kind == AuthMessageKind::Secret;
                self.status_message = "PAM requested the next authentication step".to_owned();
                assert(self@ =~= after_outcome(before, outcome));
                false
            },
            LoginOutcome::Started => true,
            LoginOutcome::Failure(message) => {
                self.auth_visible = false;
                self.response_required = false;
                self.response_secret = false;
                self.status_message = message;
                assert(self@ =~= after_outcome(before, outcome));
                false
            },
        }
    }

    /// The response that is sent: what was typed, if the field is shown.
    pub fn input(&self, typed: String) -> (response: Option<String>)
        ensures
            response == if self.auth_visible {
                Some(typed)
            } else {
                None
            },
    {
        if self.auth_visible {
            Some(typed)
        } else {
            None
        }
    }
}

/// A response is hidden only where the service asked for a secret, and a secret
/// is always hidden.
pub proof fn secrets_are_hidden(screen: GreeterView, kind: AuthMessageKind, message: String)
    ensures
        after_outcome(
            screen,
            LoginOutcome::Prompt { kind, message, response_required: wants_response(kind) },
        ).response_secret <==> kind == AuthMessageKind::Secret,
        after_outcome(screen, LoginOutcome::Failure(message)).auth_visible == false,
{
}

/// What the setup screen is given.
#[derive(Clone, Debug, PartialEq, Eq)]
pub struct FirstBootInfo {
    /// Profile that is suggested.
    pub suggested_profile: String,
}

/// What the setup screen is given, from what the setup service said. Without a
/// setup to be done there is no screen.
pub fn first_boot_status(required: bool, suggested_profile: String) -> (info: Option<FirstBootInfo>)
    ensures
        info == if required {
            Some(FirstBootInfo { suggested_profile })
        } else {
            None
        },
{
    if required {
        Some(FirstBootInfo { suggested_profile })
    } else {
        None
    }
}

/// The profile after another one on the button that goes round. Whatever is not
/// known leads to the smallest.
pub open spec fn profile_after(profile: Seq<char>) -> Seq<char> {
    if profile == "low"@ {
        "balanced"@
    } else if profile == "balanced"@ {
        "standard"@
    } else if profile == "standard"@ {
        "workstation"@
    } else {
        "low"@
    }
}

/// Returns the profile after another one.
pub fn next_profile(profile: &str) -> (next: &'static str)
    ensures
        next@ == profile_after(profile@),
{
    if same(profile, "low") {
        "balanced"
    } else if same(profile, "balanced") {
        "standard"
    } else if same(profile, "standard") {
        "workstation"
    } else {
        "low"
    }
}

/// The button comes round to every profile: four steps lead back to where it
/// stood, and whatever it stood on, it stands on a known profile afterwards.
pub proof fn profiles_come_round(profile: Seq<char>)
    ensures
        profile == "low"@ || profile == "balanced"@ || profile == "standard"@ || profile
            == "workstation"@ ==> profile_after(
            profile_after(profile_after(profile_after(profile))),
        ) == profile,
        ({
            let next = profile_after(profile);
            next == "low"@ || next == "balanced"@ || next == "standard"@ || next == "workstation"@
        }),
{
    reveal_strlit("low");
    reveal_strlit("balanced");
    reveal_strlit("standard");
    reveal_strlit("workstation");
    assert("low"@.len() == 3);
    assert("balanced"@.len() == 8);
    assert("standard"@.len() == 8);
    assert("workstation"@.len() == 11);
    assert("balanced"@[0] != "standard"@[0]);
}

/// The line on the hardware.
pub open spec fn hardware_line(snapshot: ResourceSnapshot) -> Seq<char> {
    "Detected "@ + decimal_of(snapshot.capacity.logical_cpus as nat) + " logical CPUs \u{b7} "@
        + decimal_of((snapshot.capacity.memory_total_kib / 1024) as nat)
        + " MiB memory \u{b7} suggested "@ + snapshot.initial_profile.label() + " profile"@
}

/// Formats the line on the hardware, or why there is none.
pub fn hardware_readout(snapshot: &Result<ResourceSnapshot, String>) -> (line: String)
    ensures
        line@ == match snapshot {
            Ok(found) => hardware_line(*found),
            Err(error) => "Hardware analysis unavailable: "@ + error@,
        },
{
    match snapshot {
        Ok(found) => {
            let mut line = join(
                "Detected ",
                decimal(found.capacity.logical_cpus as u64).as_str(),
            );
            line.append(" logical CPUs \u{b7} ");
            line.append(decimal(found.capacity.memory_total_kib / 1024).as_str());
            line.append(" MiB memory \u{b7} suggested ");
            line.append(found.initial_profile.as_str());
            line.append(" profile");
            line
        },
        Err(error) => join("Hardware analysis unavailable: ", error.as_str()),
    }
}

/// The setup screen.
#[derive(Clone, Debug, PartialEq, Eq)]
pub struct FirstBootScreen {
    /// Page that is shown.
    pub step: i32,
    /// Profile that is chosen.
    pub profile: String,
    /// Whether the setup is being applied.
    pub busy: bool,
    /// Password.
    pub account_password: String,
    /// Password, once more.
    pub account_password_confirm: String,
    /// What is going on.
    pub status_message: String,
}

/// The setup screen in mathematical terms.
#[verifier::ext_equal]
pub struct FirstBootView {
    /// Page that is shown.
    pub step: int,
    /// Profile that is chosen.
    pub profile: Seq<char>,
    /// Whether the setup is being applied.
    pub busy: bool,
    /// Password.
    pub account_password: Seq<char>,
    /// Password, once more.
    pub account_password_confirm: Seq<char>,
    /// What is going on.
    pub status_message: Seq<char>,
}

impl View for FirstBootScreen {
    type V = FirstBootView;

    open spec fn view(&self) -> FirstBootView {
        FirstBootView {
            step: self.step as int,
            profile: self.profile@,
            busy: self.busy,
            account_password: self.account_password@,
            account_password_confirm: self.account_password_confirm@,
            status_message: self.status_message@,
        }
    }
}

/// Why a password is not sent, if it is not.
pub open spec fn password_complaint(password: Seq<char>, confirmed: Seq<char>) -> Option<Seq<char>> {
    if password != confirmed {
        Some("Passwords do not match"@)
    } else if encode_utf8(password).len() < 8 {
        Some("Password must contain at least 8 characters"@)
    } else {
        None
    }
}

/// The screen after the button that finishes the setup.
pub open spec fn after_finish(screen: FirstBootView) -> FirstBootView {
    match password_complaint(screen.account_password, screen.account_password_confirm) {
        Some(message) => FirstBootView { status_message: message, ..screen },
        None => FirstBootView {
            busy: true,
            status_message: "Applying system settings and creating the account\u{2026}"@,
            ..screen
        },
    }
}

/// The screen after the setup was applied or failed.
pub open spec fn after_apply(
    screen: FirstBootView,
    result: Result<(), String>,
) -> FirstBootView {
    match result {
        Ok(_) => FirstBootView {
            busy: false,
            account_password: Seq::empty(),
            account_password_confirm: Seq::empty(),
            status_message: "Setup complete. Starting the login screen\u{2026}"@,
            ..screen
        },
        Err(error) => FirstBootView { busy: false, status_message: error@, ..screen },
    }
}

/// The page of the setup after another one.
pub open spec fn page_after(page: int) -> int {
    if page < 7 {
        page + 1
    } else {
        7
    }
}

/// The page of the setup before another one.
pub open spec fn page_before(page: int) -> int {
    if page > 0 {
        page - 1
    } else {
        0
    }
}

impl FirstBootScreen {
    /// The screen with a suggested profile and its first message.
    pub fn new(info: FirstBootInfo) -> (screen: FirstBootScreen)
        ensures
            screen@ == (FirstBootView {
                step: 0,
                profile: info.suggested_profile@,
                busy: false,
                account_password: Seq::empty(),
                account_password_confirm: Seq::empty(),
                status_message: "Configure DevCore for this machine"@,
            }),
    {
        proof {
            reveal_strlit("");
        }
        let screen = FirstBootScreen {
            step: 0,
            profile: info.suggested_profile,
            busy: false,
            account_password: String::new(),
            account_password_confirm: String::new(),
            status_message: "Configure DevCore for this machine".to_owned(),
        };
        assert(screen@ =~= (FirstBootView {
            step: 0,
            profile: info.suggested_profile@,
            busy: false,
            account_password: Seq::empty(),
            account_password_confirm: Seq::empty(),
            status_message: "Configure DevCore for this machine"@,
        }));
        screen
    }

    /// Shows the next page, up to the last one.
    pub fn next(&mut self)
        ensures
            final(self)@ == (FirstBootView {
                step: page_after(old(self).step as int),
                ..old(self)@
            }),
    {
        if self.step < 7 {
            self.step = self.step + 1;
        } else {
            self.step = 7;
        }
    }

    /// Shows the page before, down to the first one.
    pub fn back(&mut self)
        ensures
            final(self)@ == (FirstBootView {
                step: page_before(old(self).step as int),
                ..old(self)@
            }),
    {
        if self.step > 0 {
            self.step = self.step - 1;
        } else {
            self.step = 0;
        }
    }

    /// Chooses the next profile.
    pub fn cycle_profile(&mut self)
        ensures
            final(self)@ == (FirstBootView {
                profile: profile_after(old(self)@.profile),
                ..old(self)@
            }),
    {
        let next = next_profile(self.profile.as_str());
        self.profile = next.to_owned();
    }

    /// Checks the password. Returns whether the setup is to be applied.
    pub fn finish(&mut self) -> (apply: bool)
        ensures
            final(self)@ == after_finish(old(self)@),
            apply == (password_complaint(
                old(self)@.account_password,
                old(self)@.account_password_confirm,
            ) is None),
    {
        if !same(self.account_password.as_str(), self.account_password_confirm.as_str()) {
            self.status_message = "Passwords do not match".to_owned();
            return false;
        }
        if byte_len(self.account_password.as_str()) < 8 {
            self.status_message = "Password must contain at least 8 characters".to_owned();
            return false;
        }
        self.busy = true;
        self.status_message =
        "Applying system settings and creating the account\u{2026}".to_owned();
        true
    }

    /// Shows how the setup went. Returns whether the screen is done.
    pub fn applied(&mut self, result: Result<(), String>) -> (done: bool)
        ensures
            final(self)@ == after_apply(old(self)@, result),
            done == (result is Ok),
    {
        let ghost before = self@;
        self.busy = false;
        match result {
            Ok(_) => {
                self.account_password = String::new();
                self.account_password_confirm = String::new();
                self.status_message = "Setup complete. Starting the login screen\u{2026}".to_owned();
                assert(self@ =~= after_apply(before, Ok(())));
                true
            },
            Err(error) => {
                self.status_message = error;
                false
            },
        }
    }
}

/// Passwords are gone from the screen once the setup is applied.
pub proof fn passwords_are_wiped(screen: FirstBootView)
    ensures
        after_apply(screen, Ok(())).account_password.len() == 0,
        after_apply(screen, Ok(())).account_password_confirm.len() == 0,
{
}

/// A conversation is opened only where none is going on and somebody is named;
/// a submission within one is always an answer.
pub proof fn conversations_are_opened_for_somebody(
    in_session: bool,
    username: Seq<char>,
    step: SubmitStep,
)
    requires
        is_step_of(in_session, username, step),
    ensures
        step == SubmitStep::OpenSession <==> !in_session && exists|i: int|
            0 <= i < username.len() && !is_white_space(#[trigger] username[i]),
        step == SubmitStep::Answer <==> in_session,
        step matches SubmitStep::Show(outcome) ==> (outcome matches LoginOutcome::Failure(message)
            && message@ == "Username is required"@),
{
    trimmed_keeps_the_middle(username);
}

/// The session starts only once the service has agreed within a conversation. A
/// question is put to the user and the conversation goes on; an error is shown
/// and ends it.
pub proof fn sessions_start_on_success_only(
    in_session: bool,
    reply: GreetdResponse,
    goes_on: bool,
    result: Result<ReplyStep, SessionError>,
)
    requires
        follows_reply(in_session, reply, goes_on, result),
    ensures
        result == Ok::<ReplyStep, SessionError>(ReplyStep::StartSession) <==> in_session
            && reply is Success,
        result is Err <==> !in_session && reply is Success,
        result matches Err(error) ==> error.text() == "invalid greetd socket "@
            + "missing greetd session"@,
        goes_on <==> in_session && !(reply is Error),
        reply matches GreetdResponse::Error { description, .. } ==> result == Ok::<
            ReplyStep,
            SessionError,
        >(ReplyStep::Show(LoginOutcome::Failure(description))),
        reply matches GreetdResponse::AuthMessage { kind, message } ==> (result matches Ok(
            ReplyStep::Show(LoginOutcome::Prompt { kind: asked, message: shown, response_required }),
        ) && asked == kind && shown == message && (response_required <==> kind
            == AuthMessageKind::Visible || kind == AuthMessageKind::Secret)),
{
}

/// What the reply to the start of a session is shown as: only success starts it.
pub proof fn only_success_starts(reply: GreetdResponse, outcome: LoginOutcome)
    requires
        is_outcome_of(reply, outcome),
    ensures
        outcome == LoginOutcome::Started <==> reply is Success,
        outcome is Failure <==> reply is Error,
        outcome is Prompt <==> reply is AuthMessage,
{
}

/// A question opens the field for the answer and shows the words of the service;
/// a failure closes it and says why. Nothing else on the screen changes.
pub proof fn the_screen_follows_the_conversation(
    screen: GreeterView,
    kind: AuthMessageKind,
    message: String,
    required: bool,
)
    ensures
        ({
            let asked = after_outcome(
                screen,
                LoginOutcome::Prompt { kind, message, response_required: required },
            );
            &&& asked.prompt == message@
            &&& asked.auth_visible
            &&& asked.response_required == required
            &&& asked.response_secret <==> kind == AuthMessageKind::Secret
        }),
        ({
            let failed = after_outcome(screen, LoginOutcome::Failure(message));
            &&& failed.status_message == message@
            &&& failed.prompt == screen.prompt
            &&& !failed.auth_visible
            &&& !failed.response_required
            &&& !failed.response_secret
        }),
        after_outcome(screen, LoginOutcome::Started) == screen,
{
}

/// The profiles follow each other from the smallest to the largest, and then from
/// the start.
pub proof fn profiles_follow_by_size(other: Seq<char>)
    ensures
        profile_after(MachineProfile::Low.label()) == MachineProfile::Balanced.label(),
        profile_after(MachineProfile::Balanced.label()) == MachineProfile::Standard.label(),
        profile_after(MachineProfile::Standard.label()) == MachineProfile::Workstation.label(),
        profile_after(MachineProfile::Workstation.label()) == MachineProfile::Low.label(),
        other != MachineProfile::Low.label() && other != MachineProfile::Balanced.label() && other
            != MachineProfile::Standard.label() ==> profile_after(other)
            == MachineProfile::Low.label(),
{
    profiles_come_round("low"@);
    reveal_strlit("low");
    reveal_strlit("balanced");
    reveal_strlit("standard");
    reveal_strlit("workstation");
    assert("low"@.len() == 3 && "balanced"@.len() == 8 && "standard"@.len() == 8);
    assert("workstation"@.len() == 11);
    assert("balanced"@[0] == 'b' && "standard"@[0] == 's');
}

/// The pages of the setup are gone through one by one, forth and back, and none
/// lies beyond the first and the last.
pub proof fn pages_are_gone_through_one_by_one(page: int)
    requires
        0 <= page <= 7,
    ensures
        0 <= page_after(page) <= 7,
        0 <= page_before(page) <= 7,
        page < 7 ==> page_after(page) == page + 1 && page_before(page_after(page)) == page,
        page > 0 ==> page_before(page) == page - 1 && page_after(page_before(page)) == page,
        page_after(7) == 7,
        page_before(0) == 0,
{
}

/// Memory is read out in whole mebibytes, next to the processors and the profile
/// that the machine was given.
pub proof fn machines_are_read_out(snapshot: ResourceSnapshot, mebibytes: nat, rest: nat)
    requires
        snapshot.capacity.memory_total_kib == 1024 * mebibytes + rest,
        rest < 1024,
    ensures
        hardware_line(snapshot) == "Detected "@ + decimal_of(snapshot.capacity.logical_cpus as nat)
            + " logical CPUs \u{b7} "@ + decimal_of(mebibytes) + " MiB memory \u{b7} suggested "@
            + snapshot.initial_profile.label() + " profile"@,
{
}

/// A password is accepted exactly where it was typed twice and has eight bytes.
/// The setup is applied only with such a password; a failure leaves what was typed
/// and gives the screen back.
pub proof fn the_setup_needs_a_confirmed_password(screen: FirstBootView, error: String)
    ensures
        password_complaint(screen.account_password, screen.account_password_confirm) is None <==> {
            &&& screen.account_password == screen.account_password_confirm
            &&& encode_utf8(screen.account_password).len() >= 8
        },
        screen.account_password != screen.account_password_confirm ==> after_finish(
            screen,
        ).status_message == "Passwords do not match"@,
        !screen.busy ==> (after_finish(screen).busy <==> password_complaint(
            screen.account_password,
            screen.account_password_confirm,
        ) is None),
        after_finish(screen).account_password == screen.account_password,
        after_finish(screen).step == screen.step,
        after_finish(screen).profile == screen.profile,
        !after_apply(screen, Err(error)).busy,
        after_apply(screen, Err(error)).status_message == error@,
        after_apply(screen, Err(error)).account_password == screen.account_password,
        !after_apply(screen, Ok(())).busy,
        after_apply(screen, Ok(())).step == screen.step,
{
}

} // verus!
