//! Decisions of the compositor: its command line, its windows and workspaces,
//! and when it draws.
//!
//! Windows are known here by their number. The surfaces behind them, the
//! display and the input devices are handled elsewhere.

use crate::path::{is_absolute, path_is_absolute};
use crate::text::{contains_char, debug_form, debug_text, join, same, texts};
use vstd::prelude::*;

verus! {

/// Name of the socket on which the compositor listens.
pub const DEFAULT_SOCKET: &'static str = "wayland-devcore-nested";

/// Number of workspaces.
pub const WORKSPACE_COUNT: u8 = 4;

/// Where the compositor draws.
#[derive(Clone, Copy, Debug, PartialEq, Eq, Structural)]
pub enum Backend {
    /// Into a window of another desktop.
    Nested,
    /// To the display.
    NativeDrm,
}

/// What the compositor was asked to do.
#[derive(Clone, Debug, PartialEq, Eq)]
pub struct CompositorConfig {
    /// Where it draws.
    pub backend: Backend,
    /// Name of its socket.
    pub socket: String,
    /// Program that is started inside it.
    pub shell: Option<String>,
}

/// The configuration as a mathematical value.
pub struct ConfigView {
    /// Where the compositor draws.
    pub backend: Backend,
    /// Name of its socket.
    pub socket: Seq<char>,
    /// Program that is started inside it.
    pub shell: Option<Seq<char>>,
}

impl View for CompositorConfig {
    type V = ConfigView;

    open spec fn view(&self) -> ConfigView {
        ConfigView {
            backend: self.backend,
            socket: self.socket@,
            shell: match self.shell {
                Some(path) => Some(path@),
                None => None,
            },
        }
    }
}

/// A socket name: not empty, no path and without zero characters.
pub open spec fn valid_socket(name: Seq<char>) -> bool {
    name.len() > 0 && !name.contains('/') && !name.contains('\0')
}

/// The backend that a word names.
pub open spec fn backend_named(word: Seq<char>) -> Option<Backend> {
    if word == "nested"@ {
        Some(Backend::Nested)
    } else if word == "drm"@ || word == "native-drm"@ {
        Some(Backend::NativeDrm)
    } else {
        None
    }
}

/// What reading one option, with the word behind it if there is one, makes of a
/// configuration.
pub open spec fn option_of(
    config: ConfigView,
    option: Seq<char>,
    value: Option<Seq<char>>,
) -> Result<ConfigView, Seq<char>> {
    if option == "--backend"@ {
        match value {
            None => Err("--backend requires nested or drm"@),
            Some(word) => match backend_named(word) {
                Some(backend) => Ok(ConfigView { backend, ..config }),
                None => Err("unknown compositor backend "@ + debug_form(word)),
            },
        }
    } else if option == "--socket"@ {
        match value {
            None => Err("--socket requires a name"@),
            Some(word) => if valid_socket(word) {
                Ok(ConfigView { socket: word, ..config })
            } else {
                Err("--socket must be a non-empty Wayland name"@)
            },
        }
    } else if option == "--shell"@ {
        match value {
            None => Err("--shell requires an absolute executable"@),
            Some(word) => if is_absolute(word) {
                Ok(ConfigView { shell: Some(word), ..config })
            } else {
                Err("--shell must be an absolute executable path"@)
            },
        }
    } else if option == "--help"@ || option == "-h"@ {
        Err(
            "usage: devcore-compositor [--backend nested|drm] [--shell PATH] [--socket NAME]"@,
        )
    } else {
        Err("unknown compositor argument "@ + debug_form(option))
    }
}

/// What reading a command line makes of a configuration: options with a word
/// each, from left to right, up to the first error.
pub open spec fn config_of(arguments: Seq<Seq<char>>, config: ConfigView) -> Result<
    ConfigView,
    Seq<char>,
>
    decreases arguments.len(),
{
    if arguments.len() == 0 {
        Ok(config)
    } else {
        let value = if arguments.len() > 1 {
            Some(arguments[1])
        } else {
            None
        };
        match option_of(config, arguments[0], value) {
            Ok(next) => config_of(arguments.skip(2), next),
            Err(message) => Err(message),
        }
    }
}

/// The configuration before any option is read.
pub open spec fn default_config() -> ConfigView {
    ConfigView { backend: Backend::Nested, socket: DEFAULT_SOCKET@, shell: None }
}

fn read_option(config: CompositorConfig, option: &str, value: Option<&String>) -> (result: Result<
    CompositorConfig,
    String,
>)
    ensures
        match result {
            Ok(next) => option_of(
                config@,
                option@,
                match value {
                    Some(word) => Some(word@),
                    None => None,
                },
            ) == Ok::<ConfigView, Seq<char>>(next@),
            Err(message) => option_of(
                config@,
                option@,
                match value {
                    Some(word) => Some(word@),
                    None => None,
                },
            ) == Err::<ConfigView, Seq<char>>(message@),
        },
{
    proof {
        reveal_strlit("nested");
        reveal_strlit("drm");
        reveal_strlit("native-drm");
        reveal_strlit("--backend");
        reveal_strlit("--socket");
        reveal_strlit("--shell");
        reveal_strlit("--help");
        reveal_strlit("-h");
    }
    if same(option, "--backend") {
        match value {
            None => Err("--backend requires nested or drm".to_owned()),
            Some(word) => if same(word.as_str(), "nested") {
                Ok(
                    CompositorConfig {
                        backend: Backend::Nested,
                        socket: config.socket,
                        shell: config.shell,
                    },
                )
            } else if same(word.as_str(), "drm") || same(word.as_str(), "native-drm") {
                Ok(
                    CompositorConfig {
                        backend: Backend::NativeDrm,
                        socket: config.socket,
                        shell: config.shell,
                    },
                )
            } else {
                Err(join("unknown compositor backend ", debug_text(word.as_str()).as_str()))
            },
        }
    } else if same(option, "--socket") {
        match value {
            None => Err("--socket requires a name".to_owned()),
            Some(word) => if word.as_str().is_empty() || contains_char(word.as_str(), '/')
                || contains_char(word.as_str(), '\0') {
                Err("--socket must be a non-empty Wayland name".to_owned())
            } else {
                Ok(
                    CompositorConfig {
                        backend: config.backend,
                        socket: word.clone(),
                        shell: config.shell,
                    },
                )
            },
        }
    } else if same(option, "--shell") {
        match value {
            None => Err("--shell requires an absolute executable".to_owned()),
            Some(word) => if path_is_absolute(word.as_str()) {
                Ok(
                    CompositorConfig {
                        backend: config.backend,
                        socket: config.socket,
                        shell: Some(word.clone()),
                    },
                )
            } else {
                Err("--shell must be an absolute executable path".to_owned())
            },
        }
    } else if same(option, "--help") || same(option, "-h") {
        Err(
            "usage: devcore-compositor [--backend nested|drm] [--shell PATH] [--socket NAME]".to_owned(),
        )
    } else {
        Err(join("unknown compositor argument ", debug_text(option).as_str()))
    }
}

/// Reads the command line of the compositor.
pub fn parse_arguments(arguments: &Vec<String>) -> (result: Result<CompositorConfig, String>)
    ensures
        match result {
            Ok(config) => config_of(texts(arguments@), default_config()) == Ok::<
                ConfigView,
                Seq<char>,
            >(config@),
            Err(message) => config_of(texts(arguments@), default_config()) == Err::<
                ConfigView,
                Seq<char>,
            >(message@),
        },
{
    let ghost all = texts(arguments@);
    let mut config = CompositorConfig {
        backend: Backend::Nested,
        socket: DEFAULT_SOCKET.to_owned(),
        shell: None,
    };
    let mut i: usize = 0;
    assert(all.skip(0) =~= all);
    while i < arguments.len()
        invariant
            i <= arguments@.len(),
            all == texts(arguments@),
            config_of(all, default_config()) == config_of(all.skip(i as int), config@),
        decreases arguments.len() - i,
    {
        let ghost rest = all.skip(i as int);
        assert(rest[0] == arguments@[i as int]@);
        let value = if i + 1 < arguments.len() {
            assert(rest[1] == arguments@[i + 1]@);
            Some(&arguments[i + 1])
        } else {
            None
        };
        match read_option(config, arguments[i].as_str(), value) {
            Ok(next) => {
                config = next;
            },
            Err(message) => {
                return Err(message);
            },
        }
        if i + 1 < arguments.len() {
            assert(rest.skip(2) =~= all.skip(i + 2));
            i = i + 2;
        } else {
            assert(option_of(config@, rest[0], None) is Err) by {
                lemma_options_need_a_word(config@, rest[0]);
            }
            i = i + 1;
        }
    }
    assert(all.skip(i as int) =~= Seq::empty());
    Ok(config)
}

/// No option stands alone.
proof fn lemma_options_need_a_word(config: ConfigView, option: Seq<char>)
    ensures
        option_of(config, option, None) is Err,
{
}

/// A configuration that was read has a proper socket name and, if it starts a
/// program, an absolute path for it.
pub proof fn configurations_are_valid(arguments: Seq<Seq<char>>, config: ConfigView)
    requires
        valid_socket(config.socket),
        config.shell matches Some(path) ==> is_absolute(path),
    ensures
        config_of(arguments, config) matches Ok(result) ==> valid_socket(result.socket) && (
        result.shell matches Some(path) ==> is_absolute(path)),
    decreases arguments.len(),
{
    if arguments.len() > 0 {
        let value = if arguments.len() > 1 {
            Some(arguments[1])
        } else {
            None
        };
        if let Ok(next) = option_of(config, arguments[0], value) {
            configurations_are_valid(arguments.skip(2), next);
        }
    }
}

/// A window of the compositor.
#[derive(Clone, Copy, Debug, PartialEq, Eq, Structural)]
pub struct ManagedWindow {
    /// Number of the window.
    pub id: u64,
    /// Workspace on which it is.
    pub workspace: u8,
}

/// The windows of the compositor, from the bottom of the stack to its top.
#[derive(Clone, Debug)]
pub struct WindowStack {
    /// The windows.
    pub windows: Vec<ManagedWindow>,
    /// Number of the next window.
    pub next_window_id: u64,
    /// Workspace that is shown.
    pub active_workspace: u8,
    /// Window that has the keyboard.
    pub focused_window: Option<u64>,
    /// Whether something has to be drawn.
    pub render_requested: bool,
}

/// The numbers of the windows on a workspace, from bottom to top.
pub open spec fn on_workspace(windows: Seq<ManagedWindow>, workspace: u8) -> Seq<u64>
    decreases windows.len(),
{
    if windows.len() == 0 {
        Seq::empty()
    } else if windows.last().workspace == workspace {
        on_workspace(windows.drop_last(), workspace).push(windows.last().id)
    } else {
        on_workspace(windows.drop_last(), workspace)
    }
}

/// The windows whose numbers are in a list, in their order.
pub open spec fn living(windows: Seq<ManagedWindow>, alive: Seq<u64>) -> Seq<ManagedWindow>
    decreases windows.len(),
{
    if windows.len() == 0 {
        Seq::empty()
    } else if alive.contains(windows.last().id) {
        living(windows.drop_last(), alive).push(windows.last())
    } else {
        living(windows.drop_last(), alive)
    }
}

/// Some window of the list has that number.
pub open spec fn has_window(windows: Seq<ManagedWindow>, id: u64) -> bool {
    exists|i: int| 0 <= i < windows.len() && #[trigger] windows[i].id == id
}

/// Some window of the list has that number and is on that workspace.
pub open spec fn shows_window(windows: Seq<ManagedWindow>, workspace: u8, id: u64) -> bool {
    exists|i: int|
        0 <= i < windows.len() && #[trigger] windows[i].id == id && windows[i].workspace == workspace
}

/// The topmost window of a workspace.
pub open spec fn topmost_on(windows: Seq<ManagedWindow>, workspace: u8) -> Option<u64> {
    let shown = on_workspace(windows, workspace);
    if shown.len() > 0 {
        Some(shown.last())
    } else {
        None
    }
}

/// The window that gets keyboard input: the focused one if it is on the
/// workspace, otherwise the topmost one there.
pub open spec fn keyboard_target(
    windows: Seq<ManagedWindow>,
    workspace: u8,
    focused: Option<u64>,
) -> Option<u64> {
    if focused is Some && shows_window(windows, workspace, focused->0) {
        focused
    } else {
        topmost_on(windows, workspace)
    }
}

/// The focused window where only some windows are left.
pub open spec fn focus_among(windows: Seq<ManagedWindow>, focused: Option<u64>) -> Option<u64> {
    match focused {
        Some(id) => if has_window(windows, id) {
            Some(id)
        } else {
            None
        },
        None => None,
    }
}

/// The workspace with the number that is nearest.
pub open spec fn nearest_workspace(workspace: u8) -> u8 {
    if workspace < 1 {
        1
    } else if workspace > WORKSPACE_COUNT {
        WORKSPACE_COUNT
    } else {
        workspace
    }
}

/// The window that was hit: the topmost one of the shown windows for which
/// `hits` says so, if there is one.
pub open spec fn is_hit(shown: Seq<u64>, hits: Seq<bool>, target: Option<u64>) -> bool {
    match target {
        Some(id) => exists|i: int| #[trigger] is_topmost_hit(hits, i) && id == shown[i],
        None => forall|i: int| 0 <= i < hits.len() ==> !#[trigger] hits[i],
    }
}

impl WindowStack {
    /// What holds of the stack: the shown workspace exists, and unless numbers
    /// have run out every window has a number of its own, below the next one.
    pub open spec fn wf(&self) -> bool {
        &&& 1 <= self.active_workspace <= WORKSPACE_COUNT
        &&& self.next_window_id < u64::MAX ==> {
            &&& forall|i: int|
                0 <= i < self.windows@.len() ==> (#[trigger] self.windows@[i]).id
                    < self.next_window_id
            &&& forall|i: int, j: int|
                0 <= i < j < self.windows@.len() ==> (#[trigger] self.windows@[i]).id
                    < (#[trigger] self.windows@[j]).id
        }
    }

    /// The stack is another one without the windows that are gone. A focused
    /// window that is gone has lost the keyboard.
    pub open spec fn is_pruned(&self, before: WindowStack, alive: Seq<u64>) -> bool {
        &&& self.windows@ == living(before.windows@, alive)
        &&& self.focused_window == focus_among(self.windows@, before.focused_window)
        &&& self.next_window_id == before.next_window_id
        &&& self.active_workspace == before.active_workspace
        &&& self.render_requested == before.render_requested
    }

    /// The numbers of the shown windows that are not gone, from bottom to top.
    pub open spec fn shown(&self, alive: Seq<u64>) -> Seq<u64> {
        on_workspace(living(self.windows@, alive), self.active_workspace)
    }

    /// A stack without windows that shows the first workspace.
    pub fn new() -> (stack: WindowStack)
        ensures
            stack.wf(),
            stack.windows@.len() == 0,
            stack.next_window_id == 1,
            stack.active_workspace == 1,
            stack.focused_window is None,
            !stack.render_requested,
    {
        WindowStack {
            windows: Vec::new(),
            next_window_id: 1,
            active_workspace: 1,
            focused_window: None,
            render_requested: false,
        }
    }

    /// Adds a window on top of the shown workspace and gives it the keyboard.
    pub fn register_window(&mut self) -> (id: u64)
        requires
            old(self).wf(),
        ensures
            final(self).wf(),
            id == old(self).next_window_id,
            final(self).windows@ == old(self).windows@.push(
                ManagedWindow { id, workspace: old(self).active_workspace },
            ),
            final(self).next_window_id == if old(self).next_window_id < u64::MAX {
                old(self).next_window_id + 1
            } else {
                u64::MAX as int
            },
            final(self).active_workspace == old(self).active_workspace,
            final(self).focused_window == Some(id),
            final(self).render_requested,
    {
        let id = self.next_window_id;
        if self.next_window_id < u64::MAX {
            self.next_window_id = self.next_window_id + 1;
        }
        self.windows.push(ManagedWindow { id, workspace: self.active_workspace });
        self.focused_window = Some(id);
        self.render_requested = true;
        id
    }

    /// Drops the windows that are gone; `alive` holds the numbers of those that
    /// are not. A focused window that is gone loses the keyboard.
    pub fn prune_windows(&mut self, alive: &Vec<u64>)
        requires
            old(self).wf(),
        ensures
            final(self).wf(),
            final(self).is_pruned(*old(self), alive@),
    {
        let mut kept: Vec<ManagedWindow> = Vec::new();
        let ghost all = self.windows@;
        let mut i: usize = 0;
        assert(all.take(0) =~= Seq::empty());
        while i < self.windows.len()
            invariant
                i <= self.windows@.len(),
                all == self.windows@,
                *self == *old(self),
                kept@ == living(all.take(i as int), alive@),
            decreases self.windows.len() - i,
        {
            let window = self.windows[i];
            assert(all.take(i + 1).drop_last() =~= all.take(i as int));
            assert(all.take(i + 1).last() == window);
            if contains_number(alive, window.id) {
                kept.push(window);
            }
            i = i + 1;
        }
        assert(all.take(i as int) =~= all);
        proof {
            if self.next_window_id < u64::MAX {
                lemma_living_is_ordered(all, alive@, self.next_window_id);
            }
        }
        if let Some(id) = self.focused_window {
            if !holds(&kept, id) {
                self.focused_window = None;
            }
        }
        self.windows = kept;
    }

    /// Drops the windows that are gone and returns the numbers of those that are
    /// shown, from bottom to top.
    pub fn visible_windows(&mut self, alive: &Vec<u64>) -> (shown: Vec<u64>)
        requires
            old(self).wf(),
        ensures
            final(self).wf(),
            final(self).is_pruned(*old(self), alive@),
            shown@ == old(self).shown(alive@),
    {
        self.prune_windows(alive);
        self.shown_windows()
    }

    fn shown_windows(&self) -> (shown: Vec<u64>)
        ensures
            shown@ == on_workspace(self.windows@, self.active_workspace),
    {
        let mut shown: Vec<u64> = Vec::new();
        let ghost all = self.windows@;
        let mut i: usize = 0;
        assert(all.take(0) =~= Seq::empty());
        while i < self.windows.len()
            invariant
                i <= self.windows@.len(),
                all == self.windows@,
                shown@ == on_workspace(all.take(i as int), self.active_workspace),
            decreases self.windows.len() - i,
        {
            let window = self.windows[i];
            assert(all.take(i + 1).drop_last() =~= all.take(i as int));
            assert(all.take(i + 1).last() == window);
            if window.workspace == self.active_workspace {
                shown.push(window.id);
            }
            i = i + 1;
        }
        assert(all.take(i as int) =~= all);
        shown
    }

    /// Drops the windows that are gone and returns the one that gets keyboard
    /// input: the focused one if it is shown, otherwise the topmost one that is.
    pub fn focused_surface(&mut self, alive: &Vec<u64>) -> (target: Option<u64>)
        requires
            old(self).wf(),
        ensures
            final(self).wf(),
            final(self).is_pruned(*old(self), alive@),
            target == keyboard_target(
                final(self).windows@,
                final(self).active_workspace,
                final(self).focused_window,
            ),
    {
        self.prune_windows(alive);
        self.keyboard()
    }

    fn keyboard(&self) -> (target: Option<u64>)
        ensures
            target == keyboard_target(self.windows@, self.active_workspace, self.focused_window),
    {
        if let Some(id) = self.focused_window {
            let mut i: usize = 0;
            while i < self.windows.len()
                invariant
                    i <= self.windows@.len(),
                    self.focused_window == Some(id),
                    forall|k: int|
                        0 <= k < i ==> !((#[trigger] self.windows@[k]).id == id
                            && self.windows@[k].workspace == self.active_workspace),
                decreases self.windows.len() - i,
            {
                let window = self.windows[i];
                if window.id == id && window.workspace == self.active_workspace {
                    assert(self.windows@[i as int].id == id);
                    return Some(id);
                }
                i = i + 1;
            }
        }
        self.topmost()
    }

    fn topmost(&self) -> (top: Option<u64>)
        ensures
            top == topmost_on(self.windows@, self.active_workspace),
    {
        let shown = self.shown_windows();
        if shown.len() > 0 {
            Some(shown[shown.len() - 1])
        } else {
            None
        }
    }

    /// Drops the windows that are gone and returns the topmost one under the
    /// pointer. `hits` says of each window that is then shown, from bottom to top,
    /// whether it lies there.
    pub fn pointer_focus_at(&mut self, alive: &Vec<u64>, hits: &Vec<bool>) -> (target: Option<u64>)
        requires
            old(self).wf(),
            hits@.len() == old(self).shown(alive@).len(),
        ensures
            final(self).wf(),
            final(self).is_pruned(*old(self), alive@),
            is_hit(old(self).shown(alive@), hits@, target),
    {
        let shown = self.visible_windows(alive);
        match topmost_hit(hits) {
            Some(i) => {
                assert(is_topmost_hit(hits@, i as int));
                Some(shown[i])
            },
            None => None,
        }
    }

    /// Drops the windows that are gone and gives the keyboard to the topmost one
    /// under the pointer. `hits` says of each window that is then shown, from
    /// bottom to top, whether it lies there.
    pub fn focus_window_at(&mut self, alive: &Vec<u64>, hits: &Vec<bool>) -> (target: Option<u64>)
        requires
            old(self).wf(),
            hits@.len() == old(self).shown(alive@).len(),
        ensures
            final(self).wf(),
            is_hit(old(self).shown(alive@), hits@, target),
            target is Some ==> final(self).is_pruned(
                WindowStack { focused_window: target, ..*old(self) },
                alive@,
            ) && final(self).focused_window == target,
            target is None ==> final(self).is_pruned(*old(self), alive@),
    {
        let target = self.pointer_focus_at(alive, hits);
        if target.is_some() {
            proof {
                let left = living(old(self).windows@, alive@);
                let i = choose|i: int| #[trigger]
                    is_topmost_hit(hits@, i) && target->0 == old(self).shown(alive@)[i];
                lemma_shown_windows_exist(left, self.active_workspace, i);
            }
            self.focused_window = target;
        }
        target
    }

    /// Shows another workspace, the nearest one where there is none of that
    /// number, and gives the keyboard to its topmost window.
    pub fn switch_workspace(&mut self, workspace: u8)
        requires
            old(self).wf(),
        ensures
            final(self).wf(),
            final(self).active_workspace == nearest_workspace(workspace),
            final(self).focused_window == topmost_on(
                old(self).windows@,
                nearest_workspace(workspace),
            ),
            final(self).windows == old(self).windows,
            final(self).next_window_id == old(self).next_window_id,
            final(self).render_requested,
    {
        if workspace < 1 {
            self.active_workspace = 1;
        } else if workspace > WORKSPACE_COUNT {
            self.active_workspace = WORKSPACE_COUNT;
        } else {
            self.active_workspace = workspace;
        }
        self.focused_window = self.topmost();
        self.render_requested = true;
    }

    /// Takes note of a client that committed a surface.
    pub fn commit(&mut self)
        ensures
            *final(self) == (WindowStack { render_requested: true, ..*old(self) }),
    {
        self.render_requested = true;
    }

    /// Handles a key. A shortcut shows another workspace and names the window
    /// there that gets the keyboard; `alive` holds the numbers of the windows
    /// that are not gone. Any other key goes to the window that has the keyboard.
    pub fn handle_key(&mut self, pressed: bool, logo: bool, keysym: u32, alive: &Vec<u64>) -> (step:
        KeyStep)
        requires
            old(self).wf(),
        ensures
            final(self).wf(),
            match step {
                KeyStep::Forward => shortcut_of(pressed, logo, keysym) is None && *final(self)
                    == *old(self),
                KeyStep::Switched { focus } => shortcut_of(pressed, logo, keysym) is Some && ({
                    let workspace = shortcut_of(pressed, logo, keysym)->0;
                    let left = living(old(self).windows@, alive@);
                    &&& final(self).active_workspace == workspace
                    &&& final(self).windows@ == left
                    &&& final(self).focused_window == focus_among(
                        left,
                        topmost_on(old(self).windows@, workspace),
                    )
                    &&& focus == keyboard_target(left, workspace, final(self).focused_window)
                    &&& final(self).render_requested
                    &&& final(self).next_window_id == old(self).next_window_id
                }),
            },
    {
        match shortcut(pressed, logo, keysym) {
            Some(workspace) => {
                self.switch_workspace(workspace);
                KeyStep::Switched { focus: self.focused_surface(alive) }
            },
            None => KeyStep::Forward,
        }
    }

    /// Handles a motion of the pointer, after the windows that are gone are
    /// dropped. The pointer enters the topmost window under it, and the keyboard
    /// stays where it is. `hits` says of each window that is then shown, from
    /// bottom to top, whether it lies under the pointer.
    pub fn dispatch_pointer_motion(&mut self, alive: &Vec<u64>, hits: &Vec<bool>) -> (targets:
        PointerTargets)
        requires
            old(self).wf(),
            hits@.len() == old(self).shown(alive@).len(),
        ensures
            final(self).wf(),
            final(self).is_pruned(*old(self), alive@),
            is_hit(old(self).shown(alive@), hits@, targets.pointer),
            targets.keyboard == keyboard_target(
                final(self).windows@,
                final(self).active_workspace,
                final(self).focused_window,
            ),
    {
        let pointer = self.pointer_focus_at(alive, hits);
        PointerTargets { pointer, keyboard: self.keyboard() }
    }

    /// Handles a button of the pointer. One that goes down drops the windows that
    /// are gone and gives the keyboard to the topmost one under the pointer; one
    /// that goes up changes nothing.
    pub fn dispatch_pointer_button(
        &mut self,
        pressed: bool,
        alive: &Vec<u64>,
        hits: &Vec<bool>,
    ) -> (target: Option<u64>)
        requires
            old(self).wf(),
            pressed ==> hits@.len() == old(self).shown(alive@).len(),
        ensures
            final(self).wf(),
            !pressed ==> target is None && *final(self) == *old(self),
            pressed ==> is_hit(old(self).shown(alive@), hits@, target),
            pressed && target is Some ==> final(self).is_pruned(
                WindowStack { focused_window: target, ..*old(self) },
                alive@,
            ) && final(self).focused_window == target,
            pressed && target is None ==> final(self).is_pruned(*old(self), alive@),
    {
        if pressed {
            self.focus_window_at(alive, hits)
        } else {
            None
        }
    }

    /// Drops the windows that are gone and returns what is drawn, from bottom to
    /// top: the shown windows, each with its place.
    pub fn scene(&mut self, alive: &Vec<u64>) -> (list: Vec<(u64, (i32, i32))>)
        requires
            old(self).wf(),
        ensures
            final(self).wf(),
            final(self).is_pruned(*old(self), alive@),
            list@.len() == old(self).shown(alive@).len(),
            forall|i: int|
                0 <= i < list@.len() ==> (#[trigger] list@[i]).0 == old(self).shown(alive@)[i]
                    && list@[i].1 == location_of(i),
    {
        let shown = self.visible_windows(alive);
        let mut list: Vec<(u64, (i32, i32))> = Vec::new();
        let mut i: usize = 0;
        while i < shown.len()
            invariant
                i <= shown@.len(),
                list@.len() == i,
                forall|k: int|
                    0 <= k < i ==> (#[trigger] list@[k]).0 == shown@[k] && list@[k].1
                        == location_of(k),
            decreases shown.len() - i,
        {
            list.push((shown[i], window_location(i)));
            i = i + 1;
        }
        list
    }
}

/// What a key does.
#[derive(Clone, Copy, Debug, PartialEq, Eq, Structural)]
pub enum KeyStep {
    /// It goes to the window that has the keyboard.
    Forward,
    /// It showed another workspace.
    Switched {
        /// Window that gets the keyboard.
        focus: Option<u64>,
    },
}

/// Where input goes after a motion of the pointer.
#[derive(Clone, Copy, Debug, PartialEq, Eq, Structural)]
pub struct PointerTargets {
    /// Window under the pointer.
    pub pointer: Option<u64>,
    /// Window that has the keyboard.
    pub keyboard: Option<u64>,
}

/// After a shortcut the keyboard is on a window of the shown workspace, if there
/// is one.
pub proof fn shortcuts_focus_a_shown_window(
    windows: Seq<ManagedWindow>,
    workspace: u8,
    focused: Option<u64>,
)
    ensures
        keyboard_target(windows, workspace, focused) is Some <==> on_workspace(
            windows,
            workspace,
        ).len() > 0,
        keyboard_target(windows, workspace, focused) matches Some(id) ==> shows_window(
            windows,
            workspace,
            id,
        ),
{
    if let Some(id) = focused {
        if shows_window(windows, workspace, id) {
            let i = choose|i: int|
                0 <= i < windows.len() && #[trigger] windows[i].id == id && windows[i].workspace
                    == workspace;
            lemma_shown_is_on_workspace(windows, workspace, i);
        }
    }
    if on_workspace(windows, workspace).len() > 0 {
        lemma_topmost_is_shown(windows, workspace);
    }
}

proof fn lemma_shown_is_on_workspace(windows: Seq<ManagedWindow>, workspace: u8, i: int)
    requires
        0 <= i < windows.len(),
        windows[i].workspace == workspace,
    ensures
        on_workspace(windows, workspace).len() > 0,
    decreases windows.len(),
{
    if i < windows.len() - 1 {
        lemma_shown_is_on_workspace(windows.drop_last(), workspace, i);
    }
}

proof fn lemma_topmost_is_shown(windows: Seq<ManagedWindow>, workspace: u8)
    requires
        on_workspace(windows, workspace).len() > 0,
    ensures
        shows_window(windows, workspace, on_workspace(windows, workspace).last()),
    decreases windows.len(),
{
    let rest = windows.drop_last();
    if windows.last().workspace == workspace {
        assert(windows[windows.len() - 1].id == on_workspace(windows, workspace).last());
    } else {
        lemma_topmost_is_shown(rest, workspace);
        let id = on_workspace(rest, workspace).last();
        let k = choose|k: int|
            0 <= k < rest.len() && #[trigger] rest[k].id == id && rest[k].workspace == workspace;
        assert(windows[k].id == id && windows[k].workspace == workspace);
    }
}

proof fn lemma_shown_windows_exist(windows: Seq<ManagedWindow>, workspace: u8, i: int)
    requires
        0 <= i < on_workspace(windows, workspace).len(),
    ensures
        has_window(windows, on_workspace(windows, workspace)[i]),
    decreases windows.len(),
{
    let id = on_workspace(windows, workspace)[i];
    let rest = windows.drop_last();
    if windows.last().workspace == workspace && i == on_workspace(rest, workspace).len() {
        assert(windows[windows.len() - 1].id == id);
    } else {
        lemma_shown_windows_exist(rest, workspace, i);
        let k = choose|k: int| 0 <= k < rest.len() && #[trigger] rest[k].id == id;
        assert(windows[k].id == id);
    }
}

/// How the program that the compositor started is.
#[derive(Clone, Debug, PartialEq, Eq)]
pub enum ShellStatus {
    /// None was started.
    Absent,
    /// It runs.
    Running,
    /// It has ended.
    Exited,
    /// The system could not tell.
    Unknown(String),
}

/// What the main loop does after it has handled what came in.
#[derive(Clone, Debug, PartialEq, Eq)]
pub enum LoopStep {
    /// Draw and go on.
    Continue,
    /// End well.
    Stop,
    /// End with an error.
    Fail(String),
}

/// Decides whether the compositor goes on. It ends with its own window or with
/// the program that it started.
pub fn next_turn(window_closed: bool, shell: &ShellStatus) -> (step: LoopStep)
    ensures
        match step {
            LoopStep::Stop => window_closed || *shell == ShellStatus::Exited,
            LoopStep::Fail(reason) => !window_closed && (shell matches ShellStatus::Unknown(error)
                && error@ == reason@),
            LoopStep::Continue => !window_closed && (shell is Absent || shell is Running),
        },
{
    if window_closed {
        return LoopStep::Stop;
    }
    match shell {
        ShellStatus::Exited => LoopStep::Stop,
        ShellStatus::Unknown(error) => LoopStep::Fail(error.clone()),
        _ => LoopStep::Continue,
    }
}

/// The settings that the program gets from the compositor.
pub open spec fn shell_settings(backend: Backend, socket: Seq<char>) -> Seq<(Seq<char>, Seq<char>)> {
    match backend {
        Backend::Nested => seq![("WAYLAND_DISPLAY"@, socket)],
        Backend::NativeDrm => seq![
            ("WAYLAND_DISPLAY"@, socket),
            ("XDG_SESSION_TYPE"@, "wayland"@),
            ("XDG_CURRENT_DESKTOP"@, "DevCore"@),
        ],
    }
}

impl CompositorConfig {
    /// Returns the settings that the program gets.
    pub fn shell_environment(&self) -> (list: Vec<(&'static str, String)>)
        ensures
            list@.len() == shell_settings(self.backend, self.socket@).len(),
            forall|i: int|
                0 <= i < list@.len() ==> ((#[trigger] list@[i]).0@, list@[i].1@) == shell_settings(
                    self.backend,
                    self.socket@,
                )[i],
    {
        let mut list: Vec<(&'static str, String)> = Vec::new();
        list.push(("WAYLAND_DISPLAY", self.socket.clone()));
        match self.backend {
            Backend::Nested => {},
            Backend::NativeDrm => {
                list.push(("XDG_SESSION_TYPE", "wayland".to_owned()));
                list.push(("XDG_CURRENT_DESKTOP", "DevCore".to_owned()));
            },
        }
        list
    }
}

/// Tells that the program could not be started.
pub fn shell_failure(path: &str, error: &str) -> (message: String)
    ensures
        message@ == "cannot launch shell "@ + path@ + ": "@ + error@,
{
    let mut message = join("cannot launch shell ", path);
    message.append(": ");
    message.append(error);
    message
}

/// Position `i` is the last one that was hit.
pub open spec fn is_topmost_hit(hits: Seq<bool>, i: int) -> bool {
    &&& 0 <= i < hits.len()
    &&& hits[i]
    &&& forall|k: int| i < k < hits.len() ==> !#[trigger] hits[k]
}

/// The topmost position that was hit.
pub fn topmost_hit(hits: &Vec<bool>) -> (position: Option<usize>)
    ensures
        match position {
            Some(i) => is_topmost_hit(hits@, i as int),
            None => forall|i: int| 0 <= i < hits@.len() ==> !#[trigger] hits@[i],
        },
{
    let mut i: usize = hits.len();
    while i > 0
        invariant
            i <= hits@.len(),
            forall|k: int| i <= k < hits@.len() ==> !#[trigger] hits@[k],
        decreases i,
    {
        if hits[i - 1] {
            return Some(i - 1);
        }
        i = i - 1;
    }
    None
}

fn contains_number(list: &Vec<u64>, number: u64) -> (found: bool)
    ensures
        found == list@.contains(number),
{
    let mut i: usize = 0;
    while i < list.len()
        invariant
            i <= list@.len(),
            forall|k: int| 0 <= k < i ==> list@[k] != number,
        decreases list.len() - i,
    {
        if list[i] == number {
            return true;
        }
        i = i + 1;
    }
    false
}

fn holds(windows: &Vec<ManagedWindow>, id: u64) -> (found: bool)
    ensures
        found == has_window(windows@, id),
{
    let mut i: usize = 0;
    while i < windows.len()
        invariant
            i <= windows@.len(),
            forall|k: int| 0 <= k < i ==> (#[trigger] windows@[k]).id != id,
        decreases windows.len() - i,
    {
        if windows[i].id == id {
            assert(windows@[i as int].id == id);
            return true;
        }
        i = i + 1;
    }
    false
}

proof fn lemma_living_is_ordered(windows: Seq<ManagedWindow>, alive: Seq<u64>, bound: u64)
    requires
        forall|i: int| 0 <= i < windows.len() ==> (#[trigger] windows[i]).id < bound,
        forall|i: int, j: int|
            0 <= i < j < windows.len() ==> (#[trigger] windows[i]).id < (#[trigger] windows[j]).id,
    ensures
        forall|i: int|
            0 <= i < living(windows, alive).len() ==> (#[trigger] living(windows, alive)[i]).id
                < bound,
        forall|i: int, j: int|
            0 <= i < j < living(windows, alive).len() ==> (#[trigger] living(windows, alive)[i]).id
                < (#[trigger] living(windows, alive)[j]).id,
    decreases windows.len(),
{
    if windows.len() > 0 {
        let rest = windows.drop_last();
        assert forall|i: int| 0 <= i < rest.len() implies (#[trigger] rest[i]).id
            < windows.last().id by {
            assert(rest[i] == windows[i]);
            assert(windows[i].id < windows[windows.len() - 1].id);
        }
        assert forall|i: int, j: int| 0 <= i < j < rest.len() implies (#[trigger] rest[i]).id < (
        #[trigger] rest[j]).id by {
            assert(windows[i].id < windows[j].id);
        }
        lemma_living_is_ordered(rest, alive, windows.last().id);
        let inner = living(rest, alive);
        let kept = living(windows, alive);
        assert(windows[windows.len() - 1].id < bound);
        assert forall|i: int| 0 <= i < kept.len() implies (#[trigger] kept[i]).id < bound by {
            if i < inner.len() {
                assert(kept[i] == inner[i]);
            }
        }
        assert forall|i: int, j: int| 0 <= i < j < kept.len() implies (#[trigger] kept[i]).id < (
        #[trigger] kept[j]).id by {
            assert(kept[i] == inner[i]);
            if j < inner.len() {
                assert(kept[j] == inner[j]);
            }
        }
    }
}

/// Once gone windows are dropped, the focused window exists.
pub proof fn focus_stays_on_a_window(windows: Seq<ManagedWindow>, alive: Seq<u64>, id: u64)
    requires
        has_window(living(windows, alive), id),
    ensures
        has_window(windows, id),
        alive.contains(id),
    decreases windows.len(),
{
    let kept = living(windows, alive);
    let i = choose|i: int| 0 <= i < kept.len() && #[trigger] kept[i].id == id;
    let rest = windows.drop_last();
    if alive.contains(windows.last().id) && i == kept.len() - 1 {
        assert(windows[windows.len() - 1].id == id);
    } else {
        assert(living(rest, alive)[i].id == id);
        focus_stays_on_a_window(rest, alive, id);
        let k = choose|k: int| 0 <= k < rest.len() && #[trigger] rest[k].id == id;
        assert(windows[k].id == id);
    }
}

/// A window that is gone is neither shown nor given input.
pub proof fn gone_windows_are_out_of_reach(
    stack: WindowStack,
    alive: Seq<u64>,
    focused: Option<u64>,
)
    ensures
        forall|i: int|
            0 <= i < stack.shown(alive).len() ==> alive.contains(#[trigger] stack.shown(alive)[i]),
        keyboard_target(
            living(stack.windows@, alive),
            stack.active_workspace,
            focused,
        ) matches Some(id) ==> alive.contains(id),
{
    let left = living(stack.windows@, alive);
    let workspace = stack.active_workspace;
    assert forall|i: int| 0 <= i < stack.shown(alive).len() implies alive.contains(
        #[trigger] stack.shown(alive)[i],
    ) by {
        lemma_shown_windows_exist(left, workspace, i);
        focus_stays_on_a_window(stack.windows@, alive, stack.shown(alive)[i]);
    }
    shortcuts_focus_a_shown_window(left, workspace, focused);
    if let Some(id) = keyboard_target(left, workspace, focused) {
        let i = choose|i: int|
            0 <= i < left.len() && #[trigger] left[i].id == id && left[i].workspace == workspace;
        assert(left[i].id == id);
        focus_stays_on_a_window(stack.windows@, alive, id);
    }
}

/// A number within the range of 32-bit integers.
pub open spec fn saturated(value: int) -> int {
    if value > i32::MAX {
        i32::MAX as int
    } else if value < i32::MIN {
        i32::MIN as int
    } else {
        value
    }
}

/// Where a window is drawn: each one is moved 32 points right and down from the
/// one below it.
pub open spec fn location_of(stack_index: int) -> (i32, i32) {
    let offset = saturated(32 * (stack_index as i32)) as i32;
    (offset, offset)
}

/// Returns where a window is drawn.
pub fn window_location(stack_index: usize) -> (location: (i32, i32))
    ensures
        location == location_of(stack_index as int),
{
    let index: i32 = #[verifier::truncate]
    (stack_index as i32);
    let wide: i64 = index as i64 * 32;
    let offset: i32 = if wide > 0x7fff_ffff {
        0x7fff_ffff
    } else if wide < -0x8000_0000 {
        -0x8000_0000
    } else {
        wide as i32
    };
    (offset, offset)
}

/// The largest coordinate inside an output of that size.
pub fn pointer_bound(size: i32) -> (bound: i32)
    ensures
        bound == if size > 0 {
            size - 1
        } else {
            0
        },
{
    if size > 0 {
        size - 1
    } else {
        0
    }
}

/// The workspace that a number key selects.
pub fn workspace_from_keysym(value: u32) -> (workspace: Option<u8>)
    ensures
        workspace == if 0x31 <= value <= 0x34 {
            Some((value - 0x30) as u8)
        } else {
            None
        },
{
    if value >= 0x31 && value <= 0x34 {
        Some((value - 0x30) as u8)
    } else {
        None
    }
}

/// The workspace that a key event selects: a number key that goes down while
/// the logo key is held. Other keys go to the focused window.
pub open spec fn shortcut_of(pressed: bool, logo: bool, keysym: u32) -> Option<u8> {
    if pressed && logo && 0x31 <= keysym <= 0x34 {
        Some((keysym - 0x30) as u8)
    } else {
        None
    }
}

/// Returns the workspace that a key event selects.
pub fn shortcut(pressed: bool, logo: bool, keysym: u32) -> (workspace: Option<u8>)
    ensures
        workspace == shortcut_of(pressed, logo, keysym),
{
    if pressed && logo {
        workspace_from_keysym(keysym)
    } else {
        None
    }
}

/// Position `i` is the first one that is set.
pub open spec fn is_first_set(flags: Seq<bool>, i: int) -> bool {
    &&& 0 <= i < flags.len()
    &&& flags[i]
    &&& forall|k: int| 0 <= k < i ==> !#[trigger] flags[k]
}

/// The first position that is set.
pub fn first_set(flags: &Vec<bool>) -> (position: Option<usize>)
    ensures
        match position {
            Some(i) => is_first_set(flags@, i as int),
            None => forall|k: int| 0 <= k < flags@.len() ==> !#[trigger] flags@[k],
        },
{
    let mut i: usize = 0;
    while i < flags.len()
        invariant
            i <= flags@.len(),
            forall|k: int| 0 <= k < i ==> !#[trigger] flags@[k],
        decreases flags.len() - i,
    {
        if flags[i] {
            return Some(i);
        }
        i = i + 1;
    }
    None
}

/// Picks the display: the first connector that has a controller.
pub fn choose_output(has_controller: &Vec<bool>) -> (result: Result<usize, String>)
    ensures
        match result {
            Ok(i) => is_first_set(has_controller@, i as int),
            Err(reason) => (forall|k: int|
                0 <= k < has_controller@.len() ==> !#[trigger] has_controller@[k]) && reason@
                == "no connected DRM output for the active seat"@,
        },
{
    match first_set(has_controller) {
        Some(i) => Ok(i),
        None => Err("no connected DRM output for the active seat".to_owned()),
    }
}

/// The mode that is chosen: the first preferred one, otherwise the first.
pub open spec fn is_chosen_mode(preferred: Seq<bool>, i: int) -> bool {
    is_first_set(preferred, i) || (i == 0 && preferred.len() > 0 && forall|k: int|
        0 <= k < preferred.len() ==> !#[trigger] preferred[k])
}

/// Picks the display mode: the first preferred one, otherwise the first.
pub fn choose_mode(preferred: &Vec<bool>) -> (result: Result<usize, String>)
    ensures
        match result {
            Ok(i) => is_chosen_mode(preferred@, i as int),
            Err(reason) => preferred@.len() == 0 && reason@
                == "connected DRM output has no mode"@,
        },
{
    match first_set(preferred) {
        Some(i) => Ok(i),
        None => if preferred.len() > 0 {
            Ok(0)
        } else {
            Err("connected DRM output has no mode".to_owned())
        },
    }
}

/// When the next frame is drawn.
#[derive(Clone, Copy, Debug, PartialEq, Eq, Structural)]
pub struct FrameScheduler {
    /// Whether a frame waits for the display.
    pub frame_queued: bool,
    /// Whether something has to be drawn.
    pub render_requested: bool,
}

/// What happened to the display or its clients.
#[derive(Clone, Copy, Debug, PartialEq, Eq, Structural)]
pub enum FrameEvent {
    /// The display has taken the frame that waited.
    FrameRetired,
    /// The display could not say so.
    RetireFailed,
    /// An input device or a client changed something.
    Damage,
    /// The session was put to the background.
    Paused,
    /// The session came back.
    Activated,
    /// A frame was drawn; an empty one is not handed to the display.
    Drawn {
        /// Whether the frame was empty.
        empty: bool,
    },
}

impl FrameScheduler {
    /// Whether a frame has to be drawn now.
    pub open spec fn due(self) -> bool {
        !self.frame_queued && self.render_requested
    }

    /// The state after an event.
    pub open spec fn after(self, event: FrameEvent) -> FrameScheduler {
        match event {
            FrameEvent::FrameRetired => FrameScheduler { frame_queued: false, ..self },
            FrameEvent::RetireFailed => self,
            FrameEvent::Damage => FrameScheduler { render_requested: true, ..self },
            FrameEvent::Paused => FrameScheduler { frame_queued: false, ..self },
            FrameEvent::Activated => FrameScheduler { render_requested: true, ..self },
            FrameEvent::Drawn { empty } => FrameScheduler {
                frame_queued: self.frame_queued || !empty,
                render_requested: false,
            },
        }
    }

    /// A scheduler that has a first frame to draw.
    pub fn new() -> (scheduler: FrameScheduler)
        ensures
            scheduler.due(),
    {
        FrameScheduler { frame_queued: false, render_requested: true }
    }

    /// Returns whether a frame has to be drawn now.
    pub fn should_render(&self) -> (result: bool)
        ensures
            result == self.due(),
    {
        !self.frame_queued && self.render_requested
    }

    /// Takes note of an event.
    pub fn handle(&mut self, event: FrameEvent)
        ensures
            *final(self) == old(self).after(event),
    {
        match event {
            FrameEvent::FrameRetired => {
                self.frame_queued = false;
            },
            FrameEvent::RetireFailed => {},
            FrameEvent::Damage => {
                self.render_requested = true;
            },
            FrameEvent::Paused => {
                self.frame_queued = false;
            },
            FrameEvent::Activated => {
                self.render_requested = true;
            },
            FrameEvent::Drawn { empty } => {
                if !empty {
                    self.frame_queued = true;
                }
                self.render_requested = false;
            },
        }
    }
}

/// After a frame was drawn none is due until something changes, and while a
/// frame waits for the display none is due at all.
pub proof fn frames_are_drawn_one_at_a_time(scheduler: FrameScheduler, empty: bool)
    ensures
        !scheduler.after(FrameEvent::Drawn { empty }).due(),
        !empty ==> !scheduler.after(FrameEvent::Drawn { empty }).after(FrameEvent::Damage).due(),
        scheduler.after(FrameEvent::Drawn { empty }).after(FrameEvent::Damage).after(
            FrameEvent::FrameRetired,
        ).due(),
{
}

/// Keyboard input goes to the focused window wherever it is shown, whatever lies
/// above it.
pub proof fn the_focused_window_gets_the_keyboard(
    windows: Seq<ManagedWindow>,
    workspace: u8,
    at: int,
)
    requires
        0 <= at < windows.len(),
        windows[at].workspace == workspace,
    ensures
        keyboard_target(windows, workspace, Some(windows[at].id)) == Some(windows[at].id),
{
    assert(shows_window(windows, workspace, windows[at].id));
}

/// Where no focused window is shown, keyboard input goes to the window that lies
/// above all others of the workspace, and to none where it is empty.
pub proof fn otherwise_the_topmost_window_gets_the_keyboard(
    windows: Seq<ManagedWindow>,
    workspace: u8,
    focused: Option<u64>,
    at: int,
)
    requires
        focused matches Some(id) ==> forall|k: int|
            0 <= k < windows.len() ==> !((#[trigger] windows[k]).id == id && windows[k].workspace
                == workspace),
        -1 <= at < windows.len(),
        at >= 0 ==> windows[at].workspace == workspace,
        forall|k: int| at < k < windows.len() ==> (#[trigger] windows[k]).workspace != workspace,
    ensures
        keyboard_target(windows, workspace, focused) == if at >= 0 {
            Some(windows[at].id)
        } else {
            None
        },
{
    lemma_topmost_is_last(windows, workspace, at);
}

proof fn lemma_topmost_is_last(windows: Seq<ManagedWindow>, workspace: u8, at: int)
    requires
        -1 <= at < windows.len(),
        at >= 0 ==> windows[at].workspace == workspace,
        forall|k: int| at < k < windows.len() ==> (#[trigger] windows[k]).workspace != workspace,
    ensures
        topmost_on(windows, workspace) == if at >= 0 {
            Some(windows[at].id)
        } else {
            None
        },
    decreases windows.len(),
{
    if windows.len() > 0 && at < windows.len() - 1 {
        let rest = windows.drop_last();
        assert(windows[windows.len() - 1].workspace != workspace);
        assert forall|k: int| at < k < rest.len() implies (#[trigger] rest[k]).workspace
            != workspace by {
            assert(rest[k] == windows[k]);
        }
        lemma_topmost_is_last(rest, workspace, at);
    }
}

/// The window that was clicked has the keyboard from then on: `after` is the
/// stack after a press that hit the window, and later the same windows are
/// alive.
pub proof fn clicked_windows_get_the_keyboard(
    before: WindowStack,
    after: WindowStack,
    alive: Seq<u64>,
    hits: Seq<bool>,
    id: u64,
)
    requires
        hits.len() == before.shown(alive).len(),
        is_hit(before.shown(alive), hits, Some(id)),
        after.focused_window == Some(id),
        after.is_pruned(WindowStack { focused_window: Some(id), ..before }, alive),
    ensures
        keyboard_target(after.windows@, after.active_workspace, after.focused_window) == Some(id),
        living(after.windows@, alive) == after.windows@,
        before.shown(alive).contains(id),
{
    let shown = before.shown(alive);
    let i = choose|i: int| #[trigger] is_topmost_hit(hits, i) && id == shown[i];
    assert(shown[i] == id);
    lemma_shown_windows_are_shown(after.windows@, after.active_workspace, i);
    lemma_pruning_twice(before.windows@, alive);
}

proof fn lemma_shown_windows_are_shown(windows: Seq<ManagedWindow>, workspace: u8, i: int)
    requires
        0 <= i < on_workspace(windows, workspace).len(),
    ensures
        shows_window(windows, workspace, on_workspace(windows, workspace)[i]),
    decreases windows.len(),
{
    let id = on_workspace(windows, workspace)[i];
    let rest = windows.drop_last();
    if windows.last().workspace == workspace && i == on_workspace(rest, workspace).len() {
        assert(windows[windows.len() - 1].id == id);
    } else {
        lemma_shown_windows_are_shown(rest, workspace, i);
        let k = choose|k: int|
            0 <= k < rest.len() && #[trigger] rest[k].id == id && rest[k].workspace == workspace;
        assert(windows[k].id == id && windows[k].workspace == workspace);
    }
}

proof fn lemma_pruning_twice(windows: Seq<ManagedWindow>, alive: Seq<u64>)
    ensures
        living(living(windows, alive), alive) == living(windows, alive),
    decreases windows.len(),
{
    if windows.len() > 0 {
        let rest = windows.drop_last();
        lemma_pruning_twice(rest, alive);
        if alive.contains(windows.last().id) {
            assert(living(windows, alive).drop_last() =~= living(rest, alive));
        }
    }
}

/// The window under the pointer is the one that lies above every other that was
/// hit.
pub proof fn the_pointer_enters_what_it_sees(
    shown: Seq<u64>,
    hits: Seq<bool>,
    target: Option<u64>,
    at: int,
)
    requires
        hits.len() == shown.len(),
        is_hit(shown, hits, target),
        0 <= at < hits.len(),
        hits[at],
        forall|k: int| at < k < hits.len() ==> !#[trigger] hits[k],
    ensures
        target == Some(shown[at]),
{
    if let Some(id) = target {
        let i = choose|i: int| #[trigger] is_topmost_hit(hits, i) && id == shown[i];
        if i < at {
            assert(!hits[at]);
        }
    }
}

/// Windows are shown on their own workspace alone and in the order in which they
/// came: a new one lies above the others of its workspace and changes no other
/// workspace.
pub proof fn new_windows_lie_on_top(
    windows: Seq<ManagedWindow>,
    window: ManagedWindow,
    workspace: u8,
)
    ensures
        window.workspace == workspace ==> on_workspace(windows.push(window), workspace)
            == on_workspace(windows, workspace).push(window.id),
        window.workspace != workspace ==> on_workspace(windows.push(window), workspace)
            == on_workspace(windows, workspace),
        on_workspace(Seq::empty(), workspace).len() == 0,
{
    assert(windows.push(window).drop_last() =~= windows);
}

/// Exactly the windows that are alive are kept, in their order, and the keyboard
/// stays with its window unless that one is gone.
pub proof fn living_windows_are_kept(
    windows: Seq<ManagedWindow>,
    window: ManagedWindow,
    alive: Seq<u64>,
    focused: u64,
)
    ensures
        alive.contains(window.id) ==> living(windows.push(window), alive) == living(
            windows,
            alive,
        ).push(window),
        !alive.contains(window.id) ==> living(windows.push(window), alive) == living(
            windows,
            alive,
        ),
        living(Seq::empty(), alive).len() == 0,
        has_window(windows, focused) ==> focus_among(windows, Some(focused)) == Some(focused),
        !has_window(windows, focused) ==> focus_among(windows, Some(focused)) is None,
        focus_among(windows, None) is None,
{
    assert(windows.push(window).drop_last() =~= windows);
}

/// The logo key with one of the digits 1 to 4 shows the workspace of that
/// number; no other key does, and no key without the logo key or on its way up.
pub proof fn shortcuts_name_their_workspace(
    pressed: bool,
    logo: bool,
    keysym: u32,
    workspace: u8,
)
    requires
        1 <= workspace <= 4,
    ensures
        shortcut_of(true, true, (0x30 + workspace) as u32) == Some(workspace),
        !pressed || !logo || keysym < 0x31 || keysym > 0x34 ==> shortcut_of(pressed, logo, keysym)
            is None,
        nearest_workspace(workspace) == workspace,
{
}

/// There are four workspaces; a number beyond them means the nearest one.
pub proof fn there_are_four_workspaces(workspace: u8)
    ensures
        1 <= nearest_workspace(workspace) <= 4,
        workspace == 0 ==> nearest_workspace(workspace) == 1,
        workspace > 4 ==> nearest_workspace(workspace) == 4,
        1 <= workspace <= 4 ==> nearest_workspace(workspace) == workspace,
{
}

/// Windows are staggered: the lowest one lies at the corner and each further one
/// 32 points to the right and down.
pub proof fn windows_are_staggered(stack_index: int)
    requires
        0 <= stack_index < 1_000_000,
    ensures
        location_of(0) == (0i32, 0i32),
        location_of(stack_index + 1).0 == location_of(stack_index).0 + 32,
        location_of(stack_index + 1).1 == location_of(stack_index).1 + 32,
{
}

/// A frame is due once something changed and none is under way: damage and
/// activation ask for one, a frame that was retired or a pause makes room for
/// it, a frame that was drawn answers what was asked, and one that could not be
/// retired changes nothing.
pub proof fn frames_answer_what_was_asked(scheduler: FrameScheduler, empty: bool)
    ensures
        scheduler.due() <==> scheduler.render_requested && !scheduler.frame_queued,
        scheduler.after(FrameEvent::Damage).render_requested,
        scheduler.after(FrameEvent::Damage).frame_queued == scheduler.frame_queued,
        scheduler.after(FrameEvent::Activated).render_requested,
        scheduler.after(FrameEvent::Activated).frame_queued == scheduler.frame_queued,
        !scheduler.after(FrameEvent::FrameRetired).frame_queued,
        scheduler.after(FrameEvent::FrameRetired).render_requested == scheduler.render_requested,
        !scheduler.after(FrameEvent::Paused).frame_queued,
        scheduler.after(FrameEvent::Paused).render_requested == scheduler.render_requested,
        scheduler.after(FrameEvent::RetireFailed) == scheduler,
        !scheduler.after(FrameEvent::Drawn { empty }).render_requested,
        scheduler.after(FrameEvent::Drawn { empty: false }).frame_queued,
        scheduler.after(FrameEvent::Drawn { empty: true }).frame_queued == scheduler.frame_queued,
{
}

/// A program that is started finds the display: its socket is named to it, and
/// on a display of its own also the kind of the session and its desktop.
pub proof fn programs_find_the_display(backend: Backend, socket: Seq<char>)
    ensures
        shell_settings(backend, socket)[0] == ("WAYLAND_DISPLAY"@, socket),
        backend == Backend::Nested <==> shell_settings(backend, socket).len() == 1,
        backend == Backend::NativeDrm ==> shell_settings(backend, socket).len() == 3
            && shell_settings(backend, socket).contains(("XDG_SESSION_TYPE"@, "wayland"@))
            && shell_settings(backend, socket).contains(("XDG_CURRENT_DESKTOP"@, "DevCore"@)),
{
    if backend == Backend::NativeDrm {
        let list = shell_settings(backend, socket);
        assert(list[1] == ("XDG_SESSION_TYPE"@, "wayland"@));
        assert(list[2] == ("XDG_CURRENT_DESKTOP"@, "DevCore"@));
    }
}

/// Each option changes what it names and nothing else, and without options the
/// compositor runs nested, under its own socket name, and starts nothing.
pub proof fn options_change_what_they_name(config: ConfigView, value: Seq<char>)
    ensures
        option_of(config, "--backend"@, Some("nested"@)) == Ok::<ConfigView, Seq<char>>(
            ConfigView { backend: Backend::Nested, ..config },
        ),
        option_of(config, "--backend"@, Some("drm"@)) == Ok::<ConfigView, Seq<char>>(
            ConfigView { backend: Backend::NativeDrm, ..config },
        ),
        option_of(config, "--backend"@, Some("native-drm"@)) == Ok::<ConfigView, Seq<char>>(
            ConfigView { backend: Backend::NativeDrm, ..config },
        ),
        value != "nested"@ && value != "drm"@ && value != "native-drm"@ ==> option_of(
            config,
            "--backend"@,
            Some(value),
        ) is Err,
        value.len() > 0 && !value.contains('/') && !value.contains('\0') ==> option_of(
            config,
            "--socket"@,
            Some(value),
        ) == Ok::<ConfigView, Seq<char>>(ConfigView { socket: value, ..config }),
        value.len() == 0 || value.contains('/') || value.contains('\0') ==> option_of(
            config,
            "--socket"@,
            Some(value),
        ) is Err,
        value.len() > 0 && value[0] == '/' ==> option_of(config, "--shell"@, Some(value)) == Ok::<
            ConfigView,
            Seq<char>,
        >(ConfigView { shell: Some(value), ..config }),
        value.len() == 0 || value[0] != '/' ==> option_of(config, "--shell"@, Some(value)) is Err,
        value != "--backend"@ && value != "--socket"@ && value != "--shell"@ ==> option_of(
            config,
            value,
            Some(value),
        ) is Err,
        default_config().backend == Backend::Nested,
        default_config().socket == "wayland-devcore-nested"@,
        default_config().shell is None,
{
    reveal_strlit("nested");
    reveal_strlit("drm");
    reveal_strlit("native-drm");
    reveal_strlit("--backend");
    reveal_strlit("--socket");
    reveal_strlit("--shell");
    assert("nested"@.len() == 6 && "drm"@.len() == 3 && "native-drm"@.len() == 10);
    assert("--backend"@.len() == 9 && "--socket"@.len() == 8 && "--shell"@.len() == 7);
}

/// What is preferred comes first: a mode is chosen that is preferred where there is
/// one, and no earlier one is; otherwise the first of all.
pub proof fn preferred_modes_are_chosen(flags: Seq<bool>, i: int, k: int)
    ensures
        is_first_set(flags, i) ==> 0 <= i < flags.len() && flags[i] && (0 <= k < i ==> !flags[k]),
        is_first_set(flags, i) && is_first_set(flags, k) ==> i == k,
        is_chosen_mode(flags, i) && 0 <= k < flags.len() && flags[k] ==> flags[i] && 0 <= i <= k,
        is_chosen_mode(flags, i) && !flags[i] ==> i == 0,
        is_chosen_mode(flags, i) ==> 0 <= i < flags.len(),
{
    if is_first_set(flags, i) && is_first_set(flags, k) {
        assert(i < k ==> !flags[i]);
        assert(k < i ==> !flags[k]);
    }
    if is_chosen_mode(flags, i) && 0 <= k < flags.len() && flags[k] && k < i {
        assert(!flags[k]);
    }
}

/// Both options that ask for help are answered with the usage, whatever follows
/// them.
pub proof fn help_is_answered_with_the_usage(config: ConfigView, value: Option<Seq<char>>)
    ensures
        option_of(config, "--help"@, value) == Err::<ConfigView, Seq<char>>(
            "usage: devcore-compositor [--backend nested|drm] [--shell PATH] [--socket NAME]"@,
        ),
        option_of(config, "-h"@, value) == option_of(config, "--help"@, value),
{
    reveal_strlit("--backend");
    reveal_strlit("--socket");
    reveal_strlit("--shell");
    reveal_strlit("--help");
    reveal_strlit("-h");
    assert("--backend"@.len() == 9 && "--socket"@.len() == 8 && "--shell"@.len() == 7);
    assert("--help"@.len() == 6 && "-h"@.len() == 2);
}

} // verus!
