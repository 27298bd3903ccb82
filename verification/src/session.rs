//! The user session: the command that starts it and the frames of the
//! conversation with the login service.
//!
//! The login service authenticates. Answers pass through unseen.

use crate::bytes::{big_endian, push_big_endian, push_bytes, the_last_byte_counts_least};
use crate::compositor::{config_of, default_config, Backend, ConfigView, DEFAULT_SOCKET};
use crate::path::{
    components, components_of_a_child_of_the_root, dots_and_repeated_separators_say_nothing,
    is_absolute, is_name,
    joining_a_name_adds_a_component, joins_have_one_separator, path_components, path_is_absolute,
};
use crate::text::{chars_of, contains_char, copy_texts, gives, join, push_text, texts};
use vstd::prelude::*;

verus! {

/// Longest frame that is read.
pub const MAX_FRAME_BYTES: usize = 1_048_576;

/// Kinds of messages in a login conversation.
#[derive(Clone, Copy, Debug, PartialEq, Eq, Structural)]
pub enum AuthMessageKind {
    /// The answer may be shown.
    Visible,
    /// The answer stays hidden.
    Secret,
    /// Information without an answer.
    Info,
    /// An error to be shown.
    Error,
}

/// Replies of the login service.
#[derive(Clone, Debug, PartialEq, Eq)]
pub enum GreetdResponse {
    /// The request succeeded.
    Success,
    /// The conversation goes on.
    AuthMessage {
        /// How the message is presented.
        kind: AuthMessageKind,
        /// The message.
        message: String,
    },
    /// The request was refused.
    Error {
        /// Identifier of the error.
        error_type: String,
        /// What went wrong.
        description: String,
    },
}

/// The programs and settings of a user session.
#[derive(Clone, Debug, PartialEq, Eq)]
pub struct SessionLaunchSpec {
    /// The compositor.
    pub compositor: String,
    /// The shell that the compositor starts.
    pub shell: String,
    /// Settings for the session.
    pub environment: Vec<String>,
}

/// Why a session cannot be started or a conversation not be held.
#[derive(Clone, Debug, PartialEq, Eq)]
pub enum SessionError {
    /// No socket of the login service is known.
    SocketNotConfigured,
    /// The socket has no name.
    InvalidSocket(String),
    /// A program is no absolute path below the root.
    InvalidExecutable(String),
    /// A setting is no name and value.
    InvalidEnvironment,
    /// The socket failed.
    Io(String),
    /// A frame was refused.
    Protocol(String),
}

impl SessionError {
    /// The message for people.
    pub open spec fn text(&self) -> Seq<char> {
        match self {
            SessionError::SocketNotConfigured => "GREETD_SOCK is not configured"@,
            SessionError::InvalidSocket(path) => "invalid greetd socket "@ + path@,
            SessionError::InvalidExecutable(path) => "invalid session executable "@ + path@,
            SessionError::InvalidEnvironment => "invalid session environment entry"@,
            SessionError::Io(error) => "greetd I/O error: "@ + error@,
            SessionError::Protocol(error) => "greetd protocol error: "@ + error@,
        }
    }

    /// Returns the message for people.
    pub fn message(&self) -> (message: String)
        ensures
            message@ == self.text(),
    {
        match self {
            SessionError::SocketNotConfigured => "GREETD_SOCK is not configured".to_owned(),
            SessionError::InvalidSocket(path) => join("invalid greetd socket ", path.as_str()),
            SessionError::InvalidExecutable(path) => join(
                "invalid session executable ",
                path.as_str(),
            ),
            SessionError::InvalidEnvironment => "invalid session environment entry".to_owned(),
            SessionError::Io(error) => join("greetd I/O error: ", error.as_str()),
            SessionError::Protocol(error) => join("greetd protocol error: ", error.as_str()),
        }
    }
}

/// A program that can be started: an absolute path below the root without zero
/// characters.
pub open spec fn valid_executable(path: Seq<char>) -> bool {
    is_absolute(path) && components(path) != seq!["/"@] && !path.contains('\0')
}

/// A setting: a name that is not empty, an equals sign and a value, without
/// zero characters.
pub open spec fn valid_entry(entry: Seq<char>) -> bool {
    entry.len() > 0 && entry[0] != '=' && !entry.contains('\0') && entry.contains('=')
}

/// All settings of a list are proper.
pub open spec fn valid_entries(entries: Seq<String>) -> bool {
    forall|i: int| 0 <= i < entries.len() ==> valid_entry(#[trigger] entries[i]@)
}

/// Whether a path is that of a program that can be started.
pub fn is_absolute_executable(path: &str) -> (result: bool)
    ensures
        result == valid_executable(path@),
{
    if !path_is_absolute(path) || contains_char(path, '\0') {
        return false;
    }
    let list = path_components(path);
    proof {
        let all = components(path@);
        assert(all[0] == "/"@);
        assert(all.len() == 1 ==> all =~= seq!["/"@]);
        assert(all.len() != 1 ==> all.len() != seq!["/"@].len());
    }
    list.len() != 1
}

fn is_entry(entry: &str) -> (result: bool)
    ensures
        result == valid_entry(entry@),
{
    let chars = chars_of(entry);
    chars.len() > 0 && chars[0] != '=' && !contains_char(entry, '\0') && contains_char(entry, '=')
}

impl SessionLaunchSpec {
    /// What checking the session gives: the compositor is looked at first, then
    /// the shell, then the settings.
    pub open spec fn checked(&self) -> Result<(), SessionError> {
        if !valid_executable(self.compositor@) {
            Err(SessionError::InvalidExecutable(self.compositor))
        } else if !valid_executable(self.shell@) {
            Err(SessionError::InvalidExecutable(self.shell))
        } else if !valid_entries(self.environment@) {
            Err(SessionError::InvalidEnvironment)
        } else {
            Ok(())
        }
    }

    /// The programs and settings of this system.
    pub open spec fn is_devcore(&self) -> bool {
        &&& self.compositor@ == "/usr/bin/devcore-compositor"@
        &&& self.shell@ == "/usr/bin/devcore-shell"@
        &&& texts(self.environment@) == seq![
            "XDG_CURRENT_DESKTOP=DevCore"@,
            "XDG_SESSION_DESKTOP=devcore"@,
            "XDG_SESSION_TYPE=wayland"@,
            "GDK_BACKEND=wayland"@,
            "QT_QPA_PLATFORM=wayland"@,
            "SDL_VIDEODRIVER=wayland"@,
        ]
    }

    /// The session of this system.
    pub fn devcore() -> (launch: SessionLaunchSpec)
        ensures
            launch.is_devcore(),
    {
        let mut environment: Vec<String> = Vec::new();
        assert(texts(environment@) =~= Seq::empty());
        push_text(&mut environment, "XDG_CURRENT_DESKTOP=DevCore");
        push_text(&mut environment, "XDG_SESSION_DESKTOP=devcore");
        push_text(&mut environment, "XDG_SESSION_TYPE=wayland");
        push_text(&mut environment, "GDK_BACKEND=wayland");
        push_text(&mut environment, "QT_QPA_PLATFORM=wayland");
        push_text(&mut environment, "SDL_VIDEODRIVER=wayland");
        assert(texts(environment@) =~= seq![
            "XDG_CURRENT_DESKTOP=DevCore"@,
            "XDG_SESSION_DESKTOP=devcore"@,
            "XDG_SESSION_TYPE=wayland"@,
            "GDK_BACKEND=wayland"@,
            "QT_QPA_PLATFORM=wayland"@,
            "SDL_VIDEODRIVER=wayland"@,
        ]);
        SessionLaunchSpec {
            compositor: "/usr/bin/devcore-compositor".to_owned(),
            shell: "/usr/bin/devcore-shell".to_owned(),
            environment,
        }
    }

    /// Checks the programs and the settings.
    pub fn validate(&self) -> (result: Result<(), SessionError>)
        ensures
            result == self.checked(),
    {
        if !is_absolute_executable(self.compositor.as_str()) {
            return Err(SessionError::InvalidExecutable(self.compositor.clone()));
        }
        if !is_absolute_executable(self.shell.as_str()) {
            return Err(SessionError::InvalidExecutable(self.shell.clone()));
        }
        let mut i: usize = 0;
        while i < self.environment.len()
            invariant
                i <= self.environment@.len(),
                valid_executable(self.compositor@),
                valid_executable(self.shell@),
                forall|k: int| 0 <= k < i ==> valid_entry(#[trigger] self.environment@[k]@),
            decreases self.environment.len() - i,
        {
            if !is_entry(self.environment[i].as_str()) {
                assert(!valid_entry(self.environment@[i as int]@));
                return Err(SessionError::InvalidEnvironment);
            }
            i = i + 1;
        }
        Ok(())
    }

    /// The command that starts the session.
    pub open spec fn argv(&self) -> Seq<Seq<char>> {
        seq![self.compositor@, "--backend"@, "drm"@, "--shell"@, self.shell@]
    }

    /// Returns the command that starts the session.
    pub fn command(&self) -> (result: Result<Vec<String>, SessionError>)
        ensures
            match result {
                Ok(argv) => self.checked() is Ok && texts(argv@) == self.argv(),
                Err(error) => self.checked() == Err::<(), SessionError>(error),
            },
    {
        match self.validate() {
            Ok(_) => {
                let mut argv: Vec<String> = Vec::new();
                assert(texts(argv@) =~= Seq::empty());
                push_text(&mut argv, self.compositor.as_str());
                push_text(&mut argv, "--backend");
                push_text(&mut argv, "drm");
                push_text(&mut argv, "--shell");
                push_text(&mut argv, self.shell.as_str());
                Ok(argv)
            },
            Err(error) => Err(error),
        }
    }
}

/// The command of a checked session is one that the compositor accepts: it
/// draws to the display and starts the shell.
pub proof fn session_command_suits_the_compositor(launch: SessionLaunchSpec)
    requires
        launch.checked() is Ok,
    ensures
        config_of(launch.argv().skip(1), default_config()) == Ok::<ConfigView, Seq<char>>(
            ConfigView {
                backend: Backend::NativeDrm,
                socket: DEFAULT_SOCKET@,
                shell: Some(launch.shell@),
            },
        ),
{
    reveal_with_fuel(config_of, 3);
    reveal_strlit("--backend");
    reveal_strlit("--shell");
    reveal_strlit("--socket");
    reveal_strlit("drm");
    reveal_strlit("nested");
    assert("--backend"@.len() == 9 && "--shell"@.len() == 7 && "--socket"@.len() == 8);
    assert("drm"@.len() == 3 && "nested"@.len() == 6);
    let arguments = launch.argv().skip(1);
    assert(arguments =~= seq!["--backend"@, "drm"@, "--shell"@, launch.shell@]);
    assert(arguments.skip(2) =~= seq!["--shell"@, launch.shell@]);
    assert(arguments.skip(2).skip(2) =~= Seq::empty());
}

/// A conversation with the login service.
#[derive(Clone, Debug, PartialEq, Eq)]
pub struct GreetdSession {
    /// Path of the socket on which the service listens.
    pub socket: String,
}

/// What the login service is asked.
#[derive(Clone, Debug, PartialEq, Eq)]
pub enum GreetdRequest {
    /// Begin a conversation for a user.
    CreateSession {
        /// Name of the user.
        username: String,
    },
    /// Here is the answer to the latest message.
    PostAuthMessageResponse {
        /// The answer, if the message wants one.
        response: Option<String>,
    },
    /// Start the session of the user who was let in.
    StartSession {
        /// Command of the session.
        cmd: Vec<String>,
        /// Environment of the session.
        env: Vec<String>,
    },
    /// Give the conversation up.
    CancelSession,
}

/// How sending a request and reading the reply went.
#[derive(Clone, Debug, PartialEq, Eq)]
pub enum Exchange {
    /// The request could not be sent.
    NotSent(String),
    /// The reply could not be read.
    Unreadable(String),
    /// The reply.
    Reply(GreetdResponse),
}

/// What an exchange leads to.
pub open spec fn reply_of(exchange: Exchange) -> Result<GreetdResponse, SessionError> {
    match exchange {
        Exchange::NotSent(reason) => Err(SessionError::Io(reason)),
        Exchange::Unreadable(reason) => Err(SessionError::Protocol(reason)),
        Exchange::Reply(reply) => Ok(reply),
    }
}

impl GreetdSession {
    /// A conversation over the socket that a setting names.
    pub fn connect_from_environment(setting: Option<String>) -> (result: Result<
        GreetdSession,
        SessionError,
    >)
        ensures
            match result {
                Ok(session) => setting matches Some(path) && path@.len() > 0 && session.socket@
                    == path@,
                Err(SessionError::SocketNotConfigured) => setting is None,
                Err(SessionError::InvalidSocket(path)) => setting is Some && setting->0@.len() == 0
                    && path@.len() == 0,
                Err(_) => false,
            },
    {
        match setting {
            None => Err(SessionError::SocketNotConfigured),
            Some(path) => GreetdSession::connect(path.as_str()),
        }
    }

    /// A conversation over a socket. A socket without a name is refused.
    pub fn connect(socket: &str) -> (result: Result<GreetdSession, SessionError>)
        ensures
            match result {
                Ok(session) => socket@.len() > 0 && session.socket@ == socket@,
                Err(SessionError::InvalidSocket(path)) => socket@.len() == 0 && path@ == socket@,
                Err(_) => false,
            },
    {
        if socket.is_empty() {
            Err(SessionError::InvalidSocket(socket.to_owned()))
        } else {
            Ok(GreetdSession { socket: socket.to_owned() })
        }
    }

    /// The request that begins a conversation for a user.
    pub fn create_session(&self, username: &str) -> (request: GreetdRequest)
        ensures
            request matches GreetdRequest::CreateSession { username: name } && name@ == username@,
    {
        GreetdRequest::CreateSession { username: username.to_owned() }
    }

    /// The request that forwards an answer, which is not kept.
    pub fn post_auth_message_response(&self, response: Option<String>) -> (request: GreetdRequest)
        ensures
            request == (GreetdRequest::PostAuthMessageResponse { response }),
    {
        GreetdRequest::PostAuthMessageResponse { response }
    }

    /// The request that starts a session. Only a valid session is asked for.
    pub fn start_session(&self, launch: &SessionLaunchSpec) -> (result: Result<
        GreetdRequest,
        SessionError,
    >)
        ensures
            match result {
                Ok(request) => launch.checked() is Ok && (request matches
                    GreetdRequest::StartSession { cmd, env } && texts(cmd@) == launch.argv()
                    && texts(env@) == texts(launch.environment@)),
                Err(error) => launch.checked() == Err::<(), SessionError>(error),
            },
    {
        match launch.command() {
            Ok(cmd) => Ok(GreetdRequest::StartSession { cmd, env: copy_texts(&launch.environment) }),
            Err(error) => Err(error),
        }
    }

    /// The request that gives the conversation up.
    pub fn cancel_session(&self) -> (request: GreetdRequest)
        ensures
            request == GreetdRequest::CancelSession,
    {
        GreetdRequest::CancelSession
    }

    /// Turns an exchange into a reply or into an error.
    pub fn request(&self, exchange: Exchange) -> (result: Result<GreetdResponse, SessionError>)
        ensures
            result == reply_of(exchange),
    {
        match exchange {
            Exchange::NotSent(reason) => Err(SessionError::Io(reason)),
            Exchange::Unreadable(reason) => Err(SessionError::Protocol(reason)),
            Exchange::Reply(reply) => Ok(reply),
        }
    }
}

/// Order of the bytes of a number.
#[derive(Clone, Copy, Debug, PartialEq, Eq, Structural)]
pub enum ByteOrder {
    /// The lowest byte first.
    LittleEndian,
    /// The highest byte first.
    BigEndian,
}

/// The four bytes of a length in the order of the machine.
pub open spec fn length_bytes(length: nat, order: ByteOrder) -> Seq<u8> {
    match order {
        ByteOrder::BigEndian => big_endian(length, 4),
        ByteOrder::LittleEndian => big_endian(length, 4).reverse(),
    }
}

/// A frame: the length of the payload and the payload.
pub open spec fn frame(payload: Seq<u8>, order: ByteOrder) -> Seq<u8> {
    length_bytes(payload.len(), order) + payload
}

/// Frames a payload. A payload whose length does not fit in 32 bits is refused.
pub fn encode_frame(payload: &Vec<u8>, order: ByteOrder) -> (result: Option<Vec<u8>>)
    ensures
        match result {
            Some(bytes) => payload@.len() <= u32::MAX && bytes@ == frame(payload@, order),
            None => payload@.len() > u32::MAX,
        },
{
    if payload.len() > 0xffff_ffff {
        return None;
    }
    let mut header: Vec<u8> = Vec::new();
    push_big_endian(&mut header, payload.len() as u64, 4);
    assert(header@ =~= big_endian(payload@.len(), 4));
    proof {
        lemma_four_bytes(payload@.len());
    }
    let mut bytes: Vec<u8> = Vec::new();
    match order {
        ByteOrder::BigEndian => {
            push_bytes(&mut bytes, header.as_slice());
            assert(bytes@ =~= length_bytes(payload@.len(), order));
        },
        ByteOrder::LittleEndian => {
            bytes.push(header[3]);
            bytes.push(header[2]);
            bytes.push(header[1]);
            bytes.push(header[0]);
            assert(bytes@ =~= length_bytes(payload@.len(), order));
        },
    }
    push_bytes(&mut bytes, payload.as_slice());
    Some(bytes)
}

/// The number that four bytes denote.
pub open spec fn length_of(header: Seq<u8>, order: ByteOrder) -> nat {
    match order {
        ByteOrder::BigEndian => (header[0] * 0x100_0000 + header[1] * 0x1_0000 + header[2] * 0x100
            + header[3]) as nat,
        ByteOrder::LittleEndian => (header[3] * 0x100_0000 + header[2] * 0x1_0000 + header[1]
            * 0x100 + header[0]) as nat,
    }
}

proof fn lemma_four_bytes(length: nat)
    requires
        length <= u32::MAX,
    ensures
        big_endian(length, 4).len() == 4,
        length == big_endian(length, 4)[0] * 0x100_0000 + big_endian(length, 4)[1] * 0x1_0000
            + big_endian(length, 4)[2] * 0x100 + big_endian(length, 4)[3],
{
    reveal_with_fuel(big_endian, 5);
    let bytes = big_endian(length, 4);
    assert(bytes =~= seq![
        (length / 256 / 256 / 256 % 256) as u8,
        (length / 256 / 256 % 256) as u8,
        (length / 256 % 256) as u8,
        (length % 256) as u8,
    ]);
}

/// The length of a framed payload is what its header says, and the payload
/// follows the header.
pub proof fn frames_keep_their_payload(payload: Seq<u8>, order: ByteOrder)
    requires
        payload.len() <= u32::MAX,
    ensures
        frame(payload, order).len() == payload.len() + 4,
        length_of(frame(payload, order).take(4), order) == payload.len(),
        frame(payload, order).skip(4) == payload,
{
    lemma_four_bytes(payload.len());
    let header = frame(payload, order).take(4);
    assert(header =~= length_bytes(payload.len(), order));
    assert(frame(payload, order).skip(4) =~= payload);
    let plain = big_endian(payload.len(), 4);
    match order {
        ByteOrder::BigEndian => {},
        ByteOrder::LittleEndian => {
            assert(header[0] == plain[3] && header[1] == plain[2] && header[2] == plain[1]
                && header[3] == plain[0]);
        },
    }
}

/// Reads the length of a frame from its header. A frame that is too long is
/// refused before anything is read of it.
pub fn frame_length(header: &[u8; 4], order: ByteOrder) -> (result: Result<usize, SessionError>)
    ensures
        match result {
            Ok(length) => length == length_of(header@, order) && length <= MAX_FRAME_BYTES,
            Err(SessionError::Protocol(reason)) => length_of(header@, order) > MAX_FRAME_BYTES
                && reason@ == "greetd frame exceeds safety limit"@,
            Err(_) => false,
        },
{
    let length: u32 = match order {
        ByteOrder::BigEndian => header[0] as u32 * 0x100_0000 + header[1] as u32 * 0x1_0000
            + header[2] as u32 * 0x100 + header[3] as u32,
        ByteOrder::LittleEndian => header[3] as u32 * 0x100_0000 + header[2] as u32 * 0x1_0000
            + header[1] as u32 * 0x100 + header[0] as u32,
    };
    if length > 1_048_576 {
        return Err(SessionError::Protocol("greetd frame exceeds safety limit".to_owned()));
    }
    Ok(length as usize)
}

/// The session of the desktop is started by its own programs, on a display of its
/// own kind, with every setting well formed.
pub proof fn the_desktop_starts_its_own_programs(launch: SessionLaunchSpec)
    requires
        launch.is_devcore(),
    ensures
        launch.argv() == seq![
            "/usr/bin/devcore-compositor"@,
            "--backend"@,
            "drm"@,
            "--shell"@,
            "/usr/bin/devcore-shell"@,
        ],
        launch.environment@.len() == 6,
        texts(launch.environment@).contains("XDG_CURRENT_DESKTOP=DevCore"@),
        texts(launch.environment@).contains("XDG_SESSION_DESKTOP=devcore"@),
        texts(launch.environment@).contains("XDG_SESSION_TYPE=wayland"@),
        texts(launch.environment@).contains("GDK_BACKEND=wayland"@),
        texts(launch.environment@).contains("QT_QPA_PLATFORM=wayland"@),
        texts(launch.environment@).contains("SDL_VIDEODRIVER=wayland"@),
        launch.checked() is Ok,
{
    let list = texts(launch.environment@);
    assert(list.len() == launch.environment@.len());
    assert(list.len() == 6);
    assert(list[0] == "XDG_CURRENT_DESKTOP=DevCore"@);
    assert(list[1] == "XDG_SESSION_DESKTOP=devcore"@);
    assert(list[2] == "XDG_SESSION_TYPE=wayland"@);
    assert(list[3] == "GDK_BACKEND=wayland"@);
    assert(list[4] == "QT_QPA_PLATFORM=wayland"@);
    assert(list[5] == "SDL_VIDEODRIVER=wayland"@);
    reveal_strlit("XDG_CURRENT_DESKTOP=DevCore");
    reveal_strlit("XDG_SESSION_DESKTOP=devcore");
    reveal_strlit("XDG_SESSION_TYPE=wayland");
    reveal_strlit("GDK_BACKEND=wayland");
    reveal_strlit("QT_QPA_PLATFORM=wayland");
    reveal_strlit("SDL_VIDEODRIVER=wayland");
    reveal_strlit("/usr/bin/devcore-compositor");
    reveal_strlit("/usr/bin/devcore-shell");
    reveal_strlit("/usr/bin");
    reveal_strlit("devcore-compositor");
    reveal_strlit("devcore-shell");
    reveal_strlit("/");
    reveal_strlit(".");
    reveal_strlit("..");
    assert("/"@.len() == 1 && "."@.len() == 1 && ".."@.len() == 2);
    assert("/usr/bin/devcore-compositor"@ =~= "/usr/bin"@.push('/') + "devcore-compositor"@);
    assert("/usr/bin/devcore-shell"@ =~= "/usr/bin"@.push('/') + "devcore-shell"@);
    executables_are_absolute_names(launch.shell@, "/usr/bin"@, "devcore-compositor"@);
    executables_are_absolute_names(launch.shell@, "/usr/bin"@, "devcore-shell"@);
    assert("XDG_CURRENT_DESKTOP=DevCore"@[19] == '=');
    assert("XDG_SESSION_DESKTOP=devcore"@[19] == '=');
    assert("XDG_SESSION_TYPE=wayland"@[16] == '=');
    assert("GDK_BACKEND=wayland"@[11] == '=');
    assert("QT_QPA_PLATFORM=wayland"@[15] == '=');
    assert("SDL_VIDEODRIVER=wayland"@[15] == '=');
    assert forall|i: int| 0 <= i < launch.environment@.len() implies valid_entry(
        #[trigger] launch.environment@[i]@,
    ) by {
        assert(list[i] == launch.environment@[i]@);
        assert(valid_entry(list[0]) && valid_entry(list[1]) && valid_entry(list[2]));
        assert(valid_entry(list[3]) && valid_entry(list[4]) && valid_entry(list[5]));
    }
}

/// Every session runs its compositor on the hardware and hands it the shell.
pub proof fn sessions_run_what_was_chosen(launch: SessionLaunchSpec)
    ensures
        launch.argv()[0] == launch.compositor@,
        gives(launch.argv(), "--backend"@, "drm"@),
        gives(launch.argv(), "--shell"@, launch.shell@),
        launch.argv().len() == 5,
{
    assert(launch.argv()[1] == "--backend"@);
    assert(launch.argv()[3] == "--shell"@);
}

/// A launch is accepted exactly where both programs and every setting are, and
/// the program that is named is one that is not.
pub proof fn launches_are_accepted_as_a_whole(launch: SessionLaunchSpec)
    ensures
        launch.checked() is Ok <==> valid_executable(launch.compositor@) && valid_executable(
            launch.shell@,
        ) && valid_entries(launch.environment@),
        launch.checked() matches Err(SessionError::InvalidExecutable(path)) ==> (path
            == launch.compositor || path == launch.shell) && !valid_executable(path@),
        launch.checked() matches Err(SessionError::InvalidEnvironment) ==> !valid_entries(
            launch.environment@,
        ),
        launch.checked() matches Err(error) ==> error is InvalidExecutable
            || error is InvalidEnvironment,
{
}

/// Programs are given by absolute paths that name something; any name below the
/// root, or below a directory, does.
pub proof fn executables_are_absolute_names(path: Seq<char>, directory: Seq<char>, name: Seq<char>)
    ensures
        valid_executable(path) ==> path.len() > 0 && path[0] == '/' && !path.contains('\0'),
        !valid_executable("/"@),
        is_name(name) && name.len() > 0 && !name.contains('/') && !name.contains('\0')
            ==> valid_executable(seq!['/'] + name),
        is_name(name) && name.len() > 0 && !name.contains('/') && !name.contains('\0')
            && is_absolute(directory) && directory.last() != '/' && !directory.contains('\0')
            ==> valid_executable(directory.push('/') + name),
{
    reveal_strlit("/");
    assert("/"@ =~= seq!['/']);
    dots_and_repeated_separators_say_nothing(seq!['/']);
    if is_name(name) && name.len() > 0 && !name.contains('/') && !name.contains('\0') {
        components_of_a_child_of_the_root(name);
        let whole = seq!['/'] + name;
        assert(components(whole).len() == 2);
        if whole.contains('\0') {
            let k = choose|k: int| 0 <= k < whole.len() && whole[k] == '\0';
            assert(name[k - 1] == '\0');
        }
        if is_absolute(directory) && directory.last() != '/' && !directory.contains('\0') {
            joining_a_name_adds_a_component(directory, name);
            joins_have_one_separator(directory, name);
            let below = directory.push('/') + name;
            assert(components(below).len() == components(directory).len() + 1);
            if below.contains('\0') {
                let k = choose|k: int| 0 <= k < below.len() && below[k] == '\0';
                if k < directory.len() {
                    assert(directory[k] == '\0');
                } else {
                    assert(name[k - directory.len() - 1] == '\0');
                }
            }
        }
    }
}

/// A setting is a name, an equals sign and a value.
pub proof fn settings_have_a_name_and_a_value(name: Seq<char>, value: Seq<char>)
    ensures
        name.len() > 0 && name[0] != '=' && !name.contains('\0') && !value.contains('\0')
            ==> valid_entry(name.push('=') + value),
        !name.contains('=') ==> !valid_entry(name),
        !valid_entry(seq!['='] + value),
        name.contains('\0') || value.contains('\0') ==> !valid_entry(name.push('=') + value),
{
    let entry = name.push('=') + value;
    assert(entry[name.len() as int] == '=');
    if entry.contains('\0') {
        let k = choose|k: int| 0 <= k < entry.len() && entry[k] == '\0';
        if k < name.len() {
            assert(name[k] == '\0');
        } else {
            assert(value[k - name.len() - 1] == '\0');
        }
    }
    if name.contains('\0') {
        let k = choose|k: int| 0 <= k < name.len() && name[k] == '\0';
        assert(entry[k] == '\0');
    }
    if value.contains('\0') {
        let k = choose|k: int| 0 <= k < value.len() && value[k] == '\0';
        assert(entry[name.len() + 1 + k] == '\0');
    }
}

/// Where the byte that counts least stands in the length of a frame, that the two
/// orders mirror each other, and how long a frame may be.
pub proof fn lengths_follow_the_order_of_bytes(payload: Seq<u8>, header: Seq<u8>)
    requires
        header.len() == 4,
    ensures
        frame(payload, ByteOrder::BigEndian)[3] as nat == payload.len() % 256,
        frame(payload, ByteOrder::LittleEndian)[0] as nat == payload.len() % 256,
        length_of(header, ByteOrder::LittleEndian) == length_of(
            header.reverse(),
            ByteOrder::BigEndian,
        ),
        length_of(header, ByteOrder::LittleEndian) % 256 == header[0],
        length_of(header, ByteOrder::BigEndian) % 256 == header[3],
        MAX_FRAME_BYTES == 1024 * 1024,
{
    the_last_byte_counts_least(payload.len(), 4);
    let bytes = big_endian(payload.len(), 4);
    assert(frame(payload, ByteOrder::BigEndian)[3] == bytes[3]);
    assert(frame(payload, ByteOrder::LittleEndian)[0] == bytes.reverse()[0]);
}

/// A reply that came is handed on, a request that was not sent is a failure of
/// the connection, and a reply that cannot be read is one of the protocol.
pub proof fn failures_keep_their_reason(exchange: Exchange)
    ensures
        reply_of(exchange) is Ok <==> exchange is Reply,
        exchange matches Exchange::Reply(reply) ==> reply_of(exchange) == Ok::<
            GreetdResponse,
            SessionError,
        >(reply),
        exchange matches Exchange::NotSent(reason) ==> reply_of(exchange) == Err::<
            GreetdResponse,
            SessionError,
        >(SessionError::Io(reason)),
        exchange matches Exchange::Unreadable(reason) ==> reply_of(exchange) == Err::<
            GreetdResponse,
            SessionError,
        >(SessionError::Protocol(reason)),
        forall|error: SessionError| error is Io ==> (#[trigger] error.text()) == "greetd I/O error: "@
            + error->Io_0@,
        forall|error: SessionError| error is Protocol ==> (#[trigger] error.text())
            == "greetd protocol error: "@ + error->Protocol_0@,
        forall|error: SessionError| error is InvalidSocket ==> (#[trigger] error.text())
            == "invalid greetd socket "@ + error->InvalidSocket_0@,
        forall|error: SessionError| error is InvalidExecutable ==> (#[trigger] error.text())
            == "invalid session executable "@ + error->InvalidExecutable_0@,
{
}

/// One setting that is not well formed spoils all of them, and nothing else does.
pub proof fn one_bad_setting_spoils_all(entries: Seq<String>, i: int)
    ensures
        valid_entries(Seq::empty()),
        0 <= i < entries.len() && !valid_entry(entries[i]@) ==> !valid_entries(entries),
        !valid_entries(entries) ==> exists|k: int|
            0 <= k < entries.len() && !valid_entry(#[trigger] entries[k]@),
{
}

} // verus!
