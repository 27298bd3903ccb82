//! The compositor: its launch contract, windows, workspaces and frames.

use devcore::compositor::{
    choose_mode, choose_output, next_turn, parse_arguments, pointer_bound, shell_failure, shortcut,
    topmost_hit,
    window_location, workspace_from_keysym, Backend, CompositorConfig, FrameEvent, FrameScheduler,
    KeyStep, LoopStep, ShellStatus, WindowStack, DEFAULT_SOCKET, WORKSPACE_COUNT,
};

fn words(list: &[&str]) -> Vec<String> {
    list.iter().map(|word| (*word).to_owned()).collect()
}

#[test]
fn nested_socket_name_is_private_to_devcore() {
    assert_eq!(DEFAULT_SOCKET, "wayland-devcore-nested");
    assert!(!DEFAULT_SOCKET.contains('/'));
}

#[test]
fn launch_contract_accepts_an_absolute_shell() {
    assert_eq!(
        parse_arguments(&words(&[
            "--shell",
            "/usr/bin/devcore-shell",
            "--socket",
            "wayland-test",
        ])),
        Ok(CompositorConfig {
            backend: Backend::Nested,
            socket: "wayland-test".to_owned(),
            shell: Some("/usr/bin/devcore-shell".to_owned()),
        })
    );
}

#[test]
fn launch_contract_rejects_relative_shell_and_unsafe_socket() {
    assert!(parse_arguments(&words(&["--shell", "devcore-shell"])).is_err());
    assert!(parse_arguments(&words(&["--socket", "../wayland"])).is_err());
}

#[test]
fn native_backend_is_explicitly_opt_in() {
    assert_eq!(
        parse_arguments(&words(&["--backend", "drm"]))
            .expect("valid backend")
            .backend,
        Backend::NativeDrm
    );
}

#[test]
fn workspace_shortcuts_and_stack_locations_are_bounded() {
    // The symbols of the keys 0, 1 and 4.
    assert_eq!(WORKSPACE_COUNT, 4);
    assert_eq!(workspace_from_keysym(0x31), Some(1));
    assert_eq!(workspace_from_keysym(0x34), Some(4));
    assert_eq!(workspace_from_keysym(0x30), None);
    assert_eq!(window_location(0), (0, 0));
    assert_eq!(window_location(2), (64, 64));
}

#[test]
fn the_bound_of_a_pointer_is_the_last_pixel() {
    assert_eq!(pointer_bound(1920), 1919);
    assert_eq!(pointer_bound(1), 0);
    assert_eq!(pointer_bound(0), 0);
    assert_eq!(pointer_bound(-4), 0);
}

#[test]
fn defaults_stand_without_arguments() {
    assert_eq!(
        parse_arguments(&Vec::new()),
        Ok(CompositorConfig {
            backend: Backend::Nested,
            socket: DEFAULT_SOCKET.to_owned(),
            shell: None,
        })
    );
    assert!(parse_arguments(&words(&["--backend", "x11"])).is_err());
    assert!(parse_arguments(&words(&["--backend"])).is_err());
    assert!(parse_arguments(&words(&["--unknown"])).is_err());
}

#[test]
fn workspace_keys_need_the_logo_key() {
    assert_eq!(shortcut(true, true, 0x32), Some(2));
    assert_eq!(shortcut(true, false, 0x32), None);
    assert_eq!(shortcut(false, true, 0x32), None);
}

#[test]
fn windows_live_on_their_workspace() {
    let mut stack = WindowStack::new();
    let first = stack.register_window();
    let second = stack.register_window();
    let alive = vec![first, second];
    assert_eq!(stack.visible_windows(&alive), vec![first, second]);
    assert_eq!(stack.focused_surface(&alive), Some(second));

    stack.switch_workspace(2);
    assert!(stack.visible_windows(&alive).is_empty());
    let third = stack.register_window();
    let alive = vec![first, second, third];
    assert_eq!(stack.visible_windows(&alive), vec![third]);

    stack.switch_workspace(1);
    assert_eq!(stack.visible_windows(&alive), vec![first, second]);
    assert_eq!(stack.focus_window_at(&alive, &vec![true, false]), Some(first));
    stack.prune_windows(&vec![first, third]);
    assert_eq!(stack.visible_windows(&alive), vec![first]);
}

#[test]
fn windows_that_are_gone_get_no_input() {
    let mut stack = WindowStack::new();
    let first = stack.register_window();
    let second = stack.register_window();
    let third = stack.register_window();

    let mut looked = stack.clone();
    assert_eq!(looked.visible_windows(&vec![first, third]), vec![first, third]);
    assert_eq!(looked.windows.len(), 2);
    assert_eq!(looked.focused_window, Some(third));

    let mut asked = stack.clone();
    assert_eq!(asked.focused_surface(&vec![first, second]), Some(second));
    assert_eq!(asked.focused_window, None);
    assert_eq!(asked.windows.len(), 2);

    let mut moved = stack.clone();
    let targets = moved.dispatch_pointer_motion(&vec![first, second], &vec![true, false]);
    assert_eq!(targets.pointer, Some(first));
    assert_eq!(targets.keyboard, Some(second));
    assert_eq!(moved.windows.len(), 2);

    let mut drawn = stack.clone();
    assert_eq!(drawn.scene(&vec![third]), vec![(third, (0, 0))]);

    let mut released = stack.clone();
    assert_eq!(released.dispatch_pointer_button(false, &vec![first], &Vec::new()), None);
    assert_eq!(released.windows.len(), 3);
    assert_eq!(released.focused_window, Some(third));

    assert_eq!(stack.dispatch_pointer_button(true, &vec![first], &vec![false]), None);
    assert_eq!(stack.windows.len(), 1);
    assert_eq!(stack.focused_window, None);
    assert_eq!(stack.pointer_focus_at(&vec![first], &vec![true]), Some(first));
}

#[test]
fn the_topmost_window_is_hit() {
    assert_eq!(topmost_hit(&vec![true, true, false]), Some(1));
    assert_eq!(topmost_hit(&vec![false, false]), None);
}

#[test]
fn the_first_controller_and_the_preferred_mode_are_taken() {
    assert_eq!(choose_output(&vec![false, true, true]), Ok(1));
    assert_eq!(
        choose_output(&vec![false]),
        Err("no connected DRM output for the active seat".to_owned())
    );
    assert_eq!(choose_mode(&vec![false, false, true]), Ok(2));
    assert_eq!(choose_mode(&vec![false, false]), Ok(0));
    assert_eq!(
        choose_mode(&Vec::new()),
        Err("connected DRM output has no mode".to_owned())
    );
}

#[test]
fn a_frame_waits_for_the_one_before() {
    let mut scheduler = FrameScheduler::new();
    assert!(scheduler.should_render());
    scheduler.handle(FrameEvent::Drawn { empty: false });
    scheduler.handle(FrameEvent::Damage);
    assert!(!scheduler.should_render());
    scheduler.handle(FrameEvent::RetireFailed);
    assert!(!scheduler.should_render());
    scheduler.handle(FrameEvent::FrameRetired);
    assert!(scheduler.should_render());
    scheduler.handle(FrameEvent::Drawn { empty: true });
    assert!(!scheduler.should_render());
    scheduler.handle(FrameEvent::Paused);
    assert!(!scheduler.should_render());
    scheduler.handle(FrameEvent::Activated);
    assert!(scheduler.should_render());
}

#[test]
fn shortcuts_show_another_workspace() {
    let mut stack = WindowStack::new();
    let first = stack.register_window();
    assert_eq!(stack.handle_key(true, false, 0x32, &vec![first]), KeyStep::Forward);
    assert_eq!(
        stack.handle_key(true, true, 0x32, &vec![first]),
        KeyStep::Switched { focus: None }
    );
    let second = stack.register_window();
    assert_eq!(
        stack.handle_key(true, true, 0x31, &vec![first, second]),
        KeyStep::Switched { focus: Some(first) }
    );
    assert_eq!(
        stack.handle_key(true, true, 0x32, &vec![first]),
        KeyStep::Switched { focus: None }
    );
}

#[test]
fn the_pointer_enters_the_topmost_window() {
    let mut stack = WindowStack::new();
    let first = stack.register_window();
    let second = stack.register_window();
    let alive = vec![first, second];
    let targets = stack.dispatch_pointer_motion(&alive, &vec![true, false]);
    assert_eq!(targets.pointer, Some(first));
    assert_eq!(targets.keyboard, Some(second));
    assert_eq!(stack.dispatch_pointer_button(false, &alive, &vec![true, false]), None);
    assert_eq!(stack.focused_window, Some(second));
    assert_eq!(stack.dispatch_pointer_button(true, &alive, &vec![true, false]), Some(first));
    assert_eq!(stack.focused_window, Some(first));
    assert_eq!(stack.scene(&alive), vec![(first, (0, 0)), (second, (32, 32))]);
    stack.render_requested = false;
    stack.commit();
    assert!(stack.render_requested);
}

#[test]
fn the_compositor_ends_with_its_window_or_its_shell() {
    assert_eq!(next_turn(true, &ShellStatus::Running), LoopStep::Stop);
    assert_eq!(next_turn(false, &ShellStatus::Exited), LoopStep::Stop);
    assert_eq!(next_turn(false, &ShellStatus::Running), LoopStep::Continue);
    assert_eq!(next_turn(false, &ShellStatus::Absent), LoopStep::Continue);
    assert_eq!(
        next_turn(false, &ShellStatus::Unknown("gone".to_owned())),
        LoopStep::Fail("gone".to_owned())
    );
}

#[test]
fn the_shell_learns_the_socket() {
    let nested = parse_arguments(&words(&["--socket", "wayland-test"])).unwrap();
    assert_eq!(
        nested.shell_environment(),
        vec![("WAYLAND_DISPLAY", "wayland-test".to_owned())]
    );
    let native = parse_arguments(&words(&["--backend", "drm"])).unwrap();
    assert_eq!(native.shell_environment().len(), 3);
    assert_eq!(shell_failure("/bin/x", "denied"), "cannot launch shell /bin/x: denied");
}
