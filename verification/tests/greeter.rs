//! The login screen and the setup screen.

use devcore::greeter::{
    first_boot_status, hardware_readout, next_profile, FirstBootInfo, FirstBootScreen,
    GreeterScreen, LoginController, LoginOutcome, ReplyStep, SubmitStep,
};
use devcore::resource::{HardwareCapacity, MachineProfile, PowerState, ResourceSnapshot};
use devcore::session::{AuthMessageKind, GreetdResponse};

#[test]
fn profile_cycle_is_stable_and_conservative_for_unknown_values() {
    assert_eq!(next_profile("low"), "balanced");
    assert_eq!(next_profile("balanced"), "standard");
    assert_eq!(next_profile("standard"), "workstation");
    assert_eq!(next_profile("workstation"), "low");
    assert_eq!(next_profile("unexpected"), "low");
}

#[test]
fn first_boot_info_keeps_only_the_profile_hint() {
    assert_eq!(
        FirstBootInfo {
            suggested_profile: "balanced".to_owned(),
        },
        FirstBootInfo {
            suggested_profile: "balanced".to_owned(),
        }
    );
}

#[test]
fn only_visible_and_secret_messages_request_input() {
    assert!(matches!(
        LoginOutcome::prompt(AuthMessageKind::Secret, "response".to_owned()),
        LoginOutcome::Prompt {
            response_required: true,
            kind: AuthMessageKind::Secret,
            ..
        }
    ));
    assert!(matches!(
        LoginOutcome::prompt(AuthMessageKind::Info, "notice".to_owned()),
        LoginOutcome::Prompt {
            response_required: false,
            kind: AuthMessageKind::Info,
            ..
        }
    ));
}

#[test]
fn a_login_goes_from_the_name_to_the_session() {
    let mut controller = LoginController::new();
    assert!(matches!(controller.submit("developer"), SubmitStep::OpenSession));
    assert!(matches!(controller.submit("  "), SubmitStep::Show(LoginOutcome::Failure(_))));
    controller.session_opened();
    assert!(controller.in_session);
    let prompt = controller
        .process_reply(GreetdResponse::AuthMessage {
            kind: AuthMessageKind::Secret,
            message: "Password:".to_owned(),
        })
        .unwrap();
    assert!(matches!(
        prompt,
        ReplyStep::Show(LoginOutcome::Prompt { response_required: true, .. })
    ));
    assert!(matches!(controller.submit("developer"), SubmitStep::Answer));
    assert!(matches!(
        controller.process_reply(GreetdResponse::Success).unwrap(),
        ReplyStep::StartSession
    ));
    assert!(matches!(
        controller.process_start_reply(GreetdResponse::Success),
        LoginOutcome::Started
    ));
}

#[test]
fn a_refused_login_can_begin_anew() {
    let mut controller = LoginController::new();
    controller.session_opened();
    let refused = controller
        .process_reply(GreetdResponse::Error {
            error_type: "auth_error".to_owned(),
            description: "no".to_owned(),
        })
        .unwrap();
    assert!(matches!(refused, ReplyStep::Show(LoginOutcome::Failure(_))));
    assert!(!controller.in_session);
}

#[test]
fn secrets_are_hidden_on_the_screen() {
    let mut screen = GreeterScreen {
        prompt: String::new(),
        auth_visible: false,
        response_required: false,
        response_secret: false,
        status_message: String::new(),
    };
    let done = screen
        .apply_outcome(LoginOutcome::prompt(AuthMessageKind::Secret, "Password:".to_owned()));
    assert!(!done);
    assert!(screen.response_secret && screen.auth_visible && screen.response_required);
    assert_eq!(screen.prompt, "Password:");
    assert_eq!(screen.input("typed".to_owned()), Some("typed".to_owned()));
    screen.apply_outcome(LoginOutcome::prompt(AuthMessageKind::Info, "notice".to_owned()));
    assert!(!screen.response_secret && !screen.response_required);
    screen.apply_outcome(LoginOutcome::Failure("no".to_owned()));
    assert_eq!(screen.input("typed".to_owned()), None);
    assert!(screen.apply_outcome(LoginOutcome::Started));
}

#[test]
fn the_setup_is_offered_only_where_it_is_due() {
    assert_eq!(first_boot_status(false, "low".to_owned()), None);
    assert_eq!(
        first_boot_status(true, "low".to_owned()),
        Some(FirstBootInfo { suggested_profile: "low".to_owned() })
    );
}

#[test]
fn the_setup_screen_wipes_passwords() {
    let mut screen = FirstBootScreen::new(FirstBootInfo { suggested_profile: "low".to_owned() });
    assert_eq!(screen.profile, "low");
    assert_eq!(screen.status_message, "Configure DevCore for this machine");
    screen.cycle_profile();
    assert_eq!(screen.profile, "balanced");
    screen.back();
    let first = screen.step;
    screen.next();
    assert_eq!(screen.step, first + 1);
    screen.back();
    assert_eq!(screen.step, first);
    screen.account_password = "correct horse".to_owned();
    screen.account_password_confirm = "battery staple".to_owned();
    assert!(!screen.finish());
    screen.account_password_confirm = "correct horse".to_owned();
    assert!(screen.finish());
    assert!(screen.busy);
    assert!(!screen.applied(Err("disk full".to_owned())));
    assert!(!screen.busy);
    assert_eq!(screen.status_message, "disk full");
    assert!(screen.applied(Ok(())));
    assert_eq!(screen.account_password, "");
    assert_eq!(screen.account_password_confirm, "");
}

#[test]
fn the_machine_is_described_or_not() {
    let snapshot = ResourceSnapshot {
        capacity: HardwareCapacity { logical_cpus: 4, memory_total_kib: 8 * 1024 * 1024 },
        initial_profile: MachineProfile::Balanced,
        memory_available_kib: None,
        cpu_pressure: None,
        memory_pressure: None,
        io_pressure: None,
        power: PowerState { battery_present: false, battery_percent: None, ac_online: None },
    };
    let line = hardware_readout(&Ok(snapshot));
    assert!(line.contains('4') && line.contains('8'));
    assert_ne!(hardware_readout(&Err("unreadable".to_owned())), line);
}
