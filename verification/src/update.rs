//! Update planning: release channels, image targets and the `bootc` commands
//! that inspect, apply or roll back an update. Nothing here runs them.

use crate::execution::{ExecutionRequest, ExecutionResult, JobState};
use crate::json::{json_strings, quoted_list};
use crate::text::{
    all_hex, byte_len, chars_of, contains_char, contains_white_space, debug_form, debug_text,
    digests_have_64_digits, ends_in_digest,
    exit_code_of, exit_code_text, gives, has_white_space, is_digest_reference, is_white_space, join,
    push_text, same, texts, utf8_text,
};
use vstd::prelude::*;
use vstd::utf8::{decode_utf8, encode_utf8, valid_utf8};

verus! {

/// The program that carries out updates.
pub const BOOTC_PATH: &'static str = "/usr/bin/bootc";

/// Release channels.
#[derive(Clone, Copy, Debug, PartialEq, Eq, Structural)]
pub enum ReleaseChannel {
    /// Development images.
    Nightly,
    /// Early integration images.
    Alpha,
    /// Feature-complete images.
    Beta,
    /// Supported images.
    Stable,
}

impl ReleaseChannel {
    /// The stable identifier of a channel.
    pub open spec fn label(self) -> Seq<char> {
        match self {
            ReleaseChannel::Nightly => "nightly"@,
            ReleaseChannel::Alpha => "alpha"@,
            ReleaseChannel::Beta => "beta"@,
            ReleaseChannel::Stable => "stable"@,
        }
    }

    /// Returns the stable identifier of a channel.
    pub fn as_str(self) -> (text: &'static str)
        ensures
            text@ == self.label(),
    {
        match self {
            ReleaseChannel::Nightly => "nightly",
            ReleaseChannel::Alpha => "alpha",
            ReleaseChannel::Beta => "beta",
            ReleaseChannel::Stable => "stable",
        }
    }

    /// Reads the identifier of a channel.
    pub fn parse(value: &str) -> (result: Result<ReleaseChannel, UpdateError>)
        ensures
            match result {
                Ok(channel) => value@ == channel.label(),
                Err(UpdateError::InvalidChannel(text)) => text@ == value@ && forall|
                    other: ReleaseChannel,
                |
                    value@ != #[trigger] other.label(),
                Err(_) => false,
            },
    {
        if same(value, "nightly") {
            Ok(ReleaseChannel::Nightly)
        } else if same(value, "alpha") {
            Ok(ReleaseChannel::Alpha)
        } else if same(value, "beta") {
            Ok(ReleaseChannel::Beta)
        } else if same(value, "stable") {
            Ok(ReleaseChannel::Stable)
        } else {
            Err(UpdateError::InvalidChannel(value.to_owned()))
        }
    }
}

/// Different channels have different identifiers.
pub proof fn channel_labels_differ(a: ReleaseChannel, b: ReleaseChannel)
    requires
        a.label() == b.label(),
    ensures
        a == b,
{
    reveal_strlit("nightly");
    reveal_strlit("alpha");
    reveal_strlit("beta");
    reveal_strlit("stable");
    assert("nightly"@.len() == 7);
    assert("alpha"@.len() == 5);
    assert("beta"@.len() == 4);
    assert("stable"@.len() == 6);
}

/// Operations of the update service.
#[derive(Clone, Copy, Debug, PartialEq, Eq, Structural)]
pub enum UpdateOperation {
    /// Look at the deployments.
    Status,
    /// Ask for an update without applying it.
    Check,
    /// Switch to a target image.
    Apply,
    /// Select the previous deployment.
    Rollback,
}

impl UpdateOperation {
    /// The stable identifier of an operation.
    pub open spec fn label(self) -> Seq<char> {
        match self {
            UpdateOperation::Status => "status"@,
            UpdateOperation::Check => "check"@,
            UpdateOperation::Apply => "apply"@,
            UpdateOperation::Rollback => "rollback"@,
        }
    }

    /// Returns the stable identifier of an operation.
    pub fn as_str(self) -> (text: &'static str)
        ensures
            text@ == self.label(),
    {
        match self {
            UpdateOperation::Status => "status",
            UpdateOperation::Check => "check",
            UpdateOperation::Apply => "apply",
            UpdateOperation::Rollback => "rollback",
        }
    }

    /// Reads the identifier of an operation.
    pub fn parse(value: &str) -> (result: Result<UpdateOperation, UpdateError>)
        ensures
            match result {
                Ok(operation) => value@ == operation.label(),
                Err(UpdateError::InvalidOperation(text)) => text@ == value@ && forall|
                    other: UpdateOperation,
                |
                    value@ != #[trigger] other.label(),
                Err(_) => false,
            },
    {
        if same(value, "status") {
            Ok(UpdateOperation::Status)
        } else if same(value, "check") {
            Ok(UpdateOperation::Check)
        } else if same(value, "apply") {
            Ok(UpdateOperation::Apply)
        } else if same(value, "rollback") {
            Ok(UpdateOperation::Rollback)
        } else {
            Err(UpdateError::InvalidOperation(value.to_owned()))
        }
    }
}

/// Different operations have different identifiers.
pub proof fn operation_labels_differ(a: UpdateOperation, b: UpdateOperation)
    requires
        a.label() == b.label(),
    ensures
        a == b,
{
    reveal_strlit("status");
    reveal_strlit("check");
    reveal_strlit("apply");
    reveal_strlit("rollback");
    assert("status"@.len() == 6);
    assert("check"@.len() == 5);
    assert("apply"@.len() == 5);
    assert("rollback"@.len() == 8);
    assert("check"@[0] != "apply"@[0]);
}

/// A channel and an image to switch to.
#[derive(Clone, Debug, PartialEq, Eq)]
pub struct UpdateTarget {
    /// Release channel.
    pub channel: ReleaseChannel,
    /// Image reference.
    pub image: String,
}

/// An image that an update may switch to: at most 512 bytes, not taken for an
/// option, without white space or zero characters, and settled by a digest.
pub open spec fn valid_update_image(image: Seq<char>) -> bool {
    &&& image.len() > 0
    &&& encode_utf8(image).len() <= 512
    &&& image[0] != '-'
    &&& !has_white_space(image)
    &&& !image.contains('\0')
    &&& ends_in_digest(image)
}

impl UpdateTarget {
    /// Creates a target whose image is settled by a digest.
    pub fn new(channel: ReleaseChannel, image: &str) -> (result: Result<UpdateTarget, UpdateError>)
        ensures
            match result {
                Ok(target) => valid_update_image(image@) && target.channel == channel
                    && target.image@ == image@,
                Err(UpdateError::InvalidImage(text)) => !valid_update_image(image@) && text@
                    == image@,
                Err(_) => false,
            },
    {
        let target = UpdateTarget { channel, image: image.to_owned() };
        match target.validate() {
            Ok(_) => Ok(target),
            Err(error) => Err(error),
        }
    }

    /// Checks the image.
    pub fn validate(&self) -> (result: Result<(), UpdateError>)
        ensures
            match result {
                Ok(_) => valid_update_image(self.image@),
                Err(error) => !valid_update_image(self.image@) && error
                    == UpdateError::InvalidImage(self.image),
            },
    {
        let image = self.image.as_str();
        let chars = chars_of(image);
        if chars.len() == 0 || byte_len(image) > 512 || chars[0] == '-' || contains_white_space(
            image,
        ) || contains_char(image, '\0') {
            return Err(UpdateError::InvalidImage(self.image.clone()));
        }
        if !is_digest_reference(image) {
            return Err(UpdateError::InvalidImage(self.image.clone()));
        }
        Ok(())
    }
}

/// A planned operation with its command.
#[derive(Clone, Debug, PartialEq, Eq)]
pub struct UpdatePlan {
    operation: UpdateOperation,
    channel: Option<ReleaseChannel>,
    argv: Vec<String>,
}

/// A plan as a mathematical value.
pub struct PlanView {
    /// The operation.
    pub operation: UpdateOperation,
    /// Channel of the target, for an operation that has one.
    pub channel: Option<ReleaseChannel>,
    /// Program and arguments.
    pub argv: Seq<Seq<char>>,
}

impl View for UpdatePlan {
    type V = PlanView;

    closed spec fn view(&self) -> PlanView {
        PlanView { operation: self.operation, channel: self.channel, argv: texts(self.argv@) }
    }
}

/// The plan of an operation, where there is one.
pub open spec fn plan_of(operation: UpdateOperation, target: Option<UpdateTarget>) -> Option<
    PlanView,
> {
    match operation {
        UpdateOperation::Status => Some(
            PlanView { operation, channel: None, argv: seq![BOOTC_PATH@, "status"@, "--json"@] },
        ),
        UpdateOperation::Check => Some(
            PlanView { operation, channel: None, argv: seq![BOOTC_PATH@, "upgrade"@, "--check"@] },
        ),
        UpdateOperation::Rollback => Some(
            PlanView { operation, channel: None, argv: seq![BOOTC_PATH@, "rollback"@] },
        ),
        UpdateOperation::Apply => match target {
            Some(chosen) => if valid_update_image(chosen.image@) {
                Some(
                    PlanView {
                        operation,
                        channel: Some(chosen.channel),
                        argv: seq![
                            BOOTC_PATH@,
                            "switch"@,
                            "--transport"@,
                            "ostree-container"@,
                            chosen.image@,
                        ],
                    },
                )
            } else {
                None
            },
            None => None,
        },
    }
}

/// A target that was handed over by reference.
pub open spec fn target_of(target: Option<&UpdateTarget>) -> Option<UpdateTarget> {
    match target {
        Some(chosen) => Some(*chosen),
        None => None,
    }
}

impl UpdatePlan {
    /// Plans an operation. Only applying an update needs a target, whose image
    /// is checked again.
    pub fn for_operation(operation: UpdateOperation, target: Option<&UpdateTarget>) -> (result:
        Result<UpdatePlan, UpdateError>)
        ensures
            match result {
                Ok(plan) => plan_of(operation, target_of(target)) == Some(plan@),
                Err(UpdateError::MissingTarget(named)) => operation == UpdateOperation::Apply
                    && target is None && named == UpdateOperation::Apply,
                Err(UpdateError::InvalidImage(image)) => operation == UpdateOperation::Apply
                    && target is Some && !valid_update_image(target->0.image@) && image@
                    == target->0.image@,
                Err(_) => false,
            },
    {
        let mut argv: Vec<String> = Vec::new();
        let mut channel: Option<ReleaseChannel> = None;
        push_text(&mut argv, BOOTC_PATH);
        match operation {
            UpdateOperation::Status => {
                push_text(&mut argv, "status");
                push_text(&mut argv, "--json");
                assert(texts(argv@) =~= seq![BOOTC_PATH@, "status"@, "--json"@]);
            },
            UpdateOperation::Check => {
                push_text(&mut argv, "upgrade");
                push_text(&mut argv, "--check");
                assert(texts(argv@) =~= seq![BOOTC_PATH@, "upgrade"@, "--check"@]);
            },
            UpdateOperation::Rollback => {
                push_text(&mut argv, "rollback");
                assert(texts(argv@) =~= seq![BOOTC_PATH@, "rollback"@]);
            },
            UpdateOperation::Apply => match target {
                None => {
                    return Err(UpdateError::MissingTarget(UpdateOperation::Apply));
                },
                Some(chosen) => {
                    match chosen.validate() {
                        Ok(_) => {},
                        Err(error) => {
                            return Err(error);
                        },
                    }
                    channel = Some(chosen.channel);
                    push_text(&mut argv, "switch");
                    push_text(&mut argv, "--transport");
                    push_text(&mut argv, "ostree-container");
                    push_text(&mut argv, chosen.image.as_str());
                    assert(texts(argv@) =~= seq![
                        BOOTC_PATH@,
                        "switch"@,
                        "--transport"@,
                        "ostree-container"@,
                        chosen.image@,
                    ]);
                },
            },
        }
        Ok(UpdatePlan { operation, channel, argv })
    }

    /// Returns the planned operation.
    pub fn operation(&self) -> (operation: UpdateOperation)
        ensures
            operation == self@.operation,
    {
        self.operation
    }

    /// Returns the channel of the target, if the operation has one.
    pub fn channel(&self) -> (channel: Option<ReleaseChannel>)
        ensures
            channel == self@.channel,
    {
        self.channel
    }

    /// Returns the program and its arguments.
    pub fn argv(&self) -> (argv: &[String])
        ensures
            texts(argv@) == self@.argv,
    {
        self.argv.as_slice()
    }

    fn argv_list(&self) -> (argv: &Vec<String>)
        ensures
            texts(argv@) == self@.argv,
    {
        &self.argv
    }
}

/// Every plan runs the fixed program, and the only part that a caller can
/// choose is the image of an update, which is settled by a digest, holds no
/// white space and cannot be taken for an option.
pub proof fn plans_run_the_fixed_program(
    operation: UpdateOperation,
    target: Option<UpdateTarget>,
    other: Option<UpdateTarget>,
)
    requires
        plan_of(operation, target) is Some,
    ensures
        plan_of(operation, target)->0.argv[0] == BOOTC_PATH@,
        operation != UpdateOperation::Apply ==> plan_of(operation, target) == plan_of(
            operation,
            other,
        ) && plan_of(operation, target)->0.channel is None,
        operation == UpdateOperation::Apply ==> ({
            let argv = plan_of(operation, target)->0.argv;
            &&& argv.len() == 5
            &&& ends_in_digest(argv[4])
            &&& !has_white_space(argv[4])
            &&& argv[4][0] != '-'
        }),
{
}

/// Why an update cannot be planned.
#[derive(Clone, Debug, PartialEq, Eq)]
pub enum UpdateError {
    /// No such channel.
    InvalidChannel(String),
    /// The image is refused.
    InvalidImage(String),
    /// No such operation.
    InvalidOperation(String),
    /// The operation needs a target.
    MissingTarget(UpdateOperation),
}

impl UpdateError {
    /// The message for people.
    pub open spec fn text(&self) -> Seq<char> {
        match self {
            UpdateError::InvalidChannel(channel) => "invalid release channel "@ + debug_form(
                channel@,
            ),
            UpdateError::InvalidImage(image) => "invalid update image "@ + debug_form(image@),
            UpdateError::InvalidOperation(operation) => "invalid update operation "@ + debug_form(
                operation@,
            ),
            UpdateError::MissingTarget(operation) => "update operation "@ + operation.label()
                + " requires an image target"@,
        }
    }

    /// Returns the message for people.
    pub fn message(&self) -> (message: String)
        ensures
            message@ == self.text(),
    {
        match self {
            UpdateError::InvalidChannel(channel) => join(
                "invalid release channel ",
                debug_text(channel.as_str()).as_str(),
            ),
            UpdateError::InvalidImage(image) => join(
                "invalid update image ",
                debug_text(image.as_str()).as_str(),
            ),
            UpdateError::InvalidOperation(operation) => join(
                "invalid update operation ",
                debug_text(operation.as_str()).as_str(),
            ),
            UpdateError::MissingTarget(operation) => {
                let mut message = join("update operation ", operation.as_str());
                message.append(" requires an image target");
                message
            },
        }
    }
}

/// A plan as one JSON object.
pub open spec fn plan_json(plan: PlanView) -> Seq<char> {
    "{\"operation\":\""@ + plan.operation.label() + "\",\"channel\":"@ + (match plan.channel {
        Some(channel) => "\""@ + channel.label() + "\""@,
        None => "null"@,
    }) + ",\"argv\":["@ + quoted_list(plan.argv) + "]}"@
}

/// Formats a plan as one JSON object.
pub fn format_plan_json(plan: &UpdatePlan) -> (text: String)
    ensures
        text@ == plan_json(plan@),
{
    let channel = match plan.channel() {
        Some(channel) => {
            let mut quoted = join("\"", channel.as_str());
            quoted.append("\"");
            quoted
        },
        None => "null".to_owned(),
    };
    let mut text = join("{\"operation\":\"", plan.operation().as_str());
    text.append("\",\"channel\":");
    text.append(channel.as_str());
    text.append(",\"argv\":[");
    text.append(json_strings(plan.argv_list()).as_str());
    text.append("]}");
    text
}

/// Plans an operation named by its identifiers, as the service is asked to.
/// The operation is read first, then the channel, then the image where the
/// operation applies one.
pub fn plan_request(operation: &str, channel: &str, image: &str) -> (result: Result<
    UpdatePlan,
    UpdateError,
>)
    ensures
        match result {
            Ok(plan) => plan@.operation.label() == operation@ && (exists|chosen: ReleaseChannel|
                #[trigger]
                chosen.label() == channel@ && (plan@.channel is Some ==> plan@.channel == Some(
                    chosen,
                ))) && match plan@.operation {
                UpdateOperation::Apply => valid_update_image(image@) && plan@.channel is Some
                    && plan@.argv == seq![
                    BOOTC_PATH@,
                    "switch"@,
                    "--transport"@,
                    "ostree-container"@,
                    image@,
                ],
                _ => plan_of(plan@.operation, None) == Some(plan@),
            },
            Err(UpdateError::InvalidOperation(text)) => text@ == operation@ && forall|
                other: UpdateOperation,
            |
                operation@ != #[trigger] other.label(),
            Err(UpdateError::InvalidChannel(text)) => text@ == channel@ && (exists|
                known: UpdateOperation,
            |
                operation@ == #[trigger] known.label()) && forall|other: ReleaseChannel|
                channel@ != #[trigger] other.label(),
            Err(UpdateError::InvalidImage(text)) => text@ == image@ && operation@
                == UpdateOperation::Apply.label() && (exists|known: ReleaseChannel|
                channel@ == #[trigger] known.label()) && !valid_update_image(image@),
            Err(UpdateError::MissingTarget(_)) => false,
        },
{
    let wanted = match UpdateOperation::parse(operation) {
        Ok(wanted) => wanted,
        Err(error) => {
            return Err(error);
        },
    };
    assert(operation@ == wanted.label());
    let chosen = match ReleaseChannel::parse(channel) {
        Ok(chosen) => chosen,
        Err(error) => {
            return Err(error);
        },
    };
    assert(chosen.label() == channel@);
    if wanted == UpdateOperation::Apply {
        match UpdateTarget::new(chosen, image) {
            Ok(target) => UpdatePlan::for_operation(wanted, Some(&target)),
            Err(error) => Err(error),
        }
    } else {
        UpdatePlan::for_operation(wanted, None)
    }
}

/// The channel that a setting names, the early integration channel where it
/// names none.
pub fn channel_from_setting(setting: Option<&str>) -> (channel: ReleaseChannel)
    ensures
        match setting {
            Some(value) => channel.label() == value@ || (channel == ReleaseChannel::Alpha
                && forall|other: ReleaseChannel| value@ != #[trigger] other.label()),
            None => channel == ReleaseChannel::Alpha,
        },
{
    match setting {
        Some(value) => match ReleaseChannel::parse(value) {
            Ok(channel) => channel,
            Err(_) => ReleaseChannel::Alpha,
        },
        None => ReleaseChannel::Alpha,
    }
}

/// The program whose status is queried: the fixed one, unless the service runs
/// on a session bus and the setting names another.
pub fn status_program(session_bus: bool, setting: Option<&str>) -> (program: String)
    ensures
        program@ == if session_bus && setting is Some {
            setting->0@
        } else {
            BOOTC_PATH@
        },
{
    match setting {
        Some(value) => if session_bus {
            value.to_owned()
        } else {
            BOOTC_PATH.to_owned()
        },
        None => BOOTC_PATH.to_owned(),
    }
}

/// Bytes of output that a status query keeps.
pub const STATUS_OUTPUT_LIMIT: usize = 1_048_576;

/// Builds the status query.
pub fn status_request(program: &str) -> (request: ExecutionRequest)
    ensures
        request.id@ == "update-status"@,
        texts(request.argv@) == seq![program@, "status"@, "--json"@],
{
    let mut args: Vec<String> = Vec::new();
    push_text(&mut args, "status");
    push_text(&mut args, "--json");
    let request = ExecutionRequest::new("update-status", program, args.as_slice());
    assert(texts(request.argv@) =~= seq![program@, "status"@, "--json"@]);
    request
}

/// What a status query answers: its output, if it ended well, was kept whole
/// and is text.
pub open spec fn status_answer(run: ExecutionResult) -> Result<Seq<char>, Seq<char>> {
    if run.state != JobState::Succeeded {
        Err(
            "bootc status failed with state "@ + run.state.label() + " and exit code "@
                + exit_code_of(run.exit_code),
        )
    } else if run.output_truncated {
        Err("bootc status output exceeded the Update1 limit"@)
    } else if !valid_utf8(run.stdout@) {
        Err("bootc status returned non-UTF-8 output"@)
    } else {
        Ok(decode_utf8(run.stdout@))
    }
}

/// Reads the answer of a status query.
pub fn status_json(run: ExecutionResult) -> (result: Result<String, String>)
    ensures
        match result {
            Ok(text) => status_answer(run) == Ok::<Seq<char>, Seq<char>>(text@),
            Err(message) => status_answer(run) == Err::<Seq<char>, Seq<char>>(message@),
        },
{
    if run.state != JobState::Succeeded {
        let mut message = join("bootc status failed with state ", run.state.as_str());
        message.append(" and exit code ");
        message.append(exit_code_text(run.exit_code).as_str());
        return Err(message);
    }
    if run.output_truncated {
        return Err("bootc status output exceeded the Update1 limit".to_owned());
    }
    match utf8_text(run.stdout) {
        Some(text) => Ok(text),
        None => Err("bootc status returned non-UTF-8 output".to_owned()),
    }
}

/// What each operation does: the status is asked for in a form that programs
/// read, a check looks for an upgrade without making it, a rollback goes back,
/// and an application switches to the image that was chosen and to no other.
/// Only an application changes which image the system follows.
pub proof fn operations_do_what_they_say(target: UpdateTarget)
    ensures
        plan_of(UpdateOperation::Status, None) matches Some(plan) && plan.argv == seq![
            "/usr/bin/bootc"@,
            "status"@,
            "--json"@,
        ],
        plan_of(UpdateOperation::Check, None) matches Some(plan) && plan.argv == seq![
            "/usr/bin/bootc"@,
            "upgrade"@,
            "--check"@,
        ],
        plan_of(UpdateOperation::Rollback, None) matches Some(plan) && plan.argv == seq![
            "/usr/bin/bootc"@,
            "rollback"@,
        ],
        valid_update_image(target.image@) ==> (plan_of(UpdateOperation::Apply, Some(target))
            matches Some(plan) && plan.argv.take(2) == seq!["/usr/bin/bootc"@, "switch"@] && gives(
            plan.argv,
            "--transport"@,
            "ostree-container"@,
        ) && plan.argv.last() == target.image@ && plan.channel == Some(target.channel)
            && plan.operation == UpdateOperation::Apply),
        plan_of(UpdateOperation::Apply, None) is None,
        !valid_update_image(target.image@) ==> plan_of(UpdateOperation::Apply, Some(target))
            is None,
{
    if valid_update_image(target.image@) {
        let argv = plan_of(UpdateOperation::Apply, Some(target))->0.argv;
        assert(argv.take(2) =~= seq!["/usr/bin/bootc"@, "switch"@]);
        assert(argv[2] == "--transport"@);
    }
}

/// A plan is for the operation that was asked for.
pub proof fn plans_are_for_their_operation(
    operation: UpdateOperation,
    target: Option<UpdateTarget>,
)
    ensures
        plan_of(operation, target) matches Some(plan) ==> plan.operation == operation && (
        plan.channel is Some <==> operation == UpdateOperation::Apply),
{
}

/// The words by which channels and operations are asked for.
pub proof fn update_words_are_stable()
    ensures
        ReleaseChannel::Nightly.label() == "nightly"@,
        ReleaseChannel::Alpha.label() == "alpha"@,
        ReleaseChannel::Beta.label() == "beta"@,
        ReleaseChannel::Stable.label() == "stable"@,
        UpdateOperation::Status.label() == "status"@,
        UpdateOperation::Check.label() == "check"@,
        UpdateOperation::Apply.label() == "apply"@,
        UpdateOperation::Rollback.label() == "rollback"@,
{
}

/// An image to switch to is settled by its digest, is one word that is not taken
/// for an option, and has at most 512 bytes.
pub proof fn update_images_are_pinned(image: Seq<char>)
    ensures
        valid_update_image(image) ==> {
            &&& image.len() >= 72
            &&& image.subrange(image.len() - 72, image.len() - 64) == "@sha256:"@
            &&& forall|i: int|
                image.len() - 64 <= i < image.len() ==> {
                    let c = #[trigger] image[i];
                    '0' <= c <= '9' || 'a' <= c <= 'f' || 'A' <= c <= 'F'
                }
            &&& image[0] != '-'
            &&& !image.contains(' ') && !image.contains('\n') && !image.contains('\t')
                && !image.contains('\0')
            &&& encode_utf8(image).len() <= 512
        },
{
    if valid_update_image(image) {
        assert forall|i: int| 0 <= i < image.len() implies #[trigger] image[i] != ' ' && image[i]
            != '\n' && image[i] != '\t' by {
            assert(!is_white_space(image[i]));
        }
    }
}

/// The answer to a request for the status is what the tool wrote, and is given
/// only where the tool succeeded and all of it was read.
pub proof fn the_status_is_what_the_tool_wrote(run: ExecutionResult)
    ensures
        status_answer(run) is Ok <==> run.state == JobState::Succeeded && !run.output_truncated
            && valid_utf8(run.stdout@),
        status_answer(run) matches Ok(text) ==> text == decode_utf8(run.stdout@),
        STATUS_OUTPUT_LIMIT == 1_048_576,
{
}

/// The document for a plan names its operation, its channel, where it has one,
/// and its words.
pub proof fn plans_are_shown_as_they_are(plan: PlanView)
    ensures
        plan.channel is None ==> plan_json(plan) == "{\"operation\":\""@ + plan.operation.label()
            + "\",\"channel\":null,\"argv\":["@ + quoted_list(plan.argv) + "]}"@,
        plan.channel matches Some(channel) ==> plan_json(plan) == "{\"operation\":\""@
            + plan.operation.label() + "\",\"channel\":\""@ + channel.label()
            + "\",\"argv\":["@ + quoted_list(plan.argv) + "]}"@,
{
    reveal_strlit("\",\"channel\":null,\"argv\":[");
    reveal_strlit("\",\"channel\":");
    reveal_strlit("null");
    reveal_strlit(",\"argv\":[");
    reveal_strlit("\",\"channel\":\"");
    reveal_strlit("\"");
    reveal_strlit("\",\"argv\":[");
    assert("\",\"channel\":null,\"argv\":["@ =~= "\",\"channel\":"@ + "null"@ + ",\"argv\":["@);
    assert("\",\"channel\":\""@ =~= "\",\"channel\":"@ + "\""@);
    assert("\",\"argv\":["@ =~= "\""@ + ",\"argv\":["@);
    if plan.channel is None {
        assert(plan_json(plan) =~= "{\"operation\":\""@ + plan.operation.label()
            + "\",\"channel\":null,\"argv\":["@ + quoted_list(plan.argv) + "]}"@);
    } else {
        let channel = plan.channel->0;
        assert(plan_json(plan) =~= "{\"operation\":\""@ + plan.operation.label()
            + "\",\"channel\":\""@ + channel.label() + "\",\"argv\":["@ + quoted_list(
            plan.argv,
        ) + "]}"@);
    }
}

/// An image with a digest is accepted unless it is too long, looks like an option, or
/// holds white space or a zero character.
pub proof fn plain_update_images_are_accepted(name: Seq<char>, digest: Seq<char>)
    requires
        all_hex(digest),
        digest.len() == 64,
        name.len() > 0,
        name[0] != '-',
        forall|i: int|
            0 <= i < name.len() ==> !is_white_space(#[trigger] name[i]) && name[i] != '\0',
        encode_utf8(name + "@sha256:"@ + digest).len() <= 512,
    ensures
        valid_update_image(name + "@sha256:"@ + digest),
{
    reveal_strlit("@sha256:");
    digests_have_64_digits(name, digest);
    let image = name + "@sha256:"@ + digest;
    assert forall|i: int| 0 <= i < image.len() implies !is_white_space(#[trigger] image[i])
        && image[i] != '\0' by {
        if i < name.len() {
            assert(image[i] == name[i]);
        } else if i < name.len() + 8 {
            assert(image[i] == "@sha256:"@[i - name.len()]);
        } else {
            assert(image[i] == digest[i - name.len() - 8]);
        }
    }
    assert(!has_white_space(image));
}

} // verus!
