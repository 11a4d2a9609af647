use std::cell::Cell;

use ores_clis_core::{
    invalid_environment_message, parse_enabled, setup_signal_handlers_with, EnvLookup, ShutdownAction,
    ShutdownLifecycleGate, ShutdownLifecyclePhase, ShutdownReason, SignalDispatcher, SignalEvent,
    SignalHandlerError, SignalHandlerOptions, SignalHandlerStatus, SignalInstallRegistry, StdinRead,
    TerminalState, TtyRequirement, SIGNAL_HANDLERS_ENV, SIGNAL_TTY_REQUIREMENT_ENV,
};

#[test]
fn default_interactive_policy_is_driven_by_stdin() {
    let options = SignalHandlerOptions::new(TerminalState::new(true, false, false));
    assert!(options.interactive_sigint());
}

#[test]
fn ctrl_d_is_never_advertised_without_tty_stdin() {
    let terminals = TerminalState::new(false, true, true);
    for requirement in [
        TtyRequirement::Stdin,
        TtyRequirement::StdinAndStdout,
        TtyRequirement::StdinAndStderr,
        TtyRequirement::All,
    ] {
        assert!(!SignalHandlerOptions::new(terminals).with_tty_requirement(requirement).interactive_sigint());
    }
}

#[test]
fn stdout_and_stderr_can_tighten_interactive_policy() {
    let terminals = TerminalState::new(true, false, true);
    assert!(!SignalHandlerOptions::new(terminals)
        .with_tty_requirement(TtyRequirement::StdinAndStdout)
        .interactive_sigint());
    assert!(SignalHandlerOptions::new(terminals)
        .with_tty_requirement(TtyRequirement::StdinAndStderr)
        .interactive_sigint());
}

#[test]
fn enabled_switch_accepts_common_boolean_spellings() {
    for enabled in ["1", "true", "yes", "on"] {
        assert!(parse_enabled(enabled).expect("enabled value"));
    }
    for disabled in ["0", "false", "no", "off"] {
        assert!(!parse_enabled(disabled).expect("disabled value"));
    }
    assert!(parse_enabled("maybe").is_err());
}

#[test]
fn tty_requirement_parser_preserves_stdin_requirement() {
    assert_eq!("stdin".parse::<TtyRequirement>().expect("stdin"), TtyRequirement::Stdin);
    assert_eq!("stdin+stdout".parse::<TtyRequirement>().expect("stdout"), TtyRequirement::StdinAndStdout);
    assert_eq!("stdin+stderr".parse::<TtyRequirement>().expect("stderr"), TtyRequirement::StdinAndStderr);
    assert_eq!("all".parse::<TtyRequirement>().expect("all"), TtyRequirement::All);
    assert!("stdout".parse::<TtyRequirement>().is_err());
}

fn interactive_options() -> SignalHandlerOptions {
    SignalHandlerOptions::new(TerminalState::new(true, true, true))
}

fn piped_options() -> SignalHandlerOptions {
    SignalHandlerOptions::new(TerminalState::new(false, false, false))
}

#[test]
fn disabled_signal_policy_does_not_install_or_block() {
    let options = SignalHandlerOptions::from_env(
        TerminalState::new(false, false, false),
        EnvLookup::Present("off".to_string()),
        EnvLookup::NotPresent,
    )
    .unwrap();
    assert!(!options.enabled());
    let mut registry = SignalInstallRegistry::new();
    let calls = Cell::new(0);
    let status = setup_signal_handlers_with(&mut registry, options, |_| {
        calls.set(calls.get() + 1);
        Ok(())
    });
    assert_eq!(status, Ok(SignalHandlerStatus::Disabled));
    assert_eq!(status.unwrap().as_str(), "disabled");
    assert_eq!(calls.get(), 0);
    assert!(!registry.is_installed());
}

#[test]
fn repeated_signal_installation_is_idempotent_in_one_process() {
    let mut registry = SignalInstallRegistry::new();
    let calls = Cell::new(0);
    let first = setup_signal_handlers_with(&mut registry, piped_options(), |_| {
        calls.set(calls.get() + 1);
        Ok(())
    });
    let second = setup_signal_handlers_with(&mut registry, piped_options(), |_| {
        calls.set(calls.get() + 1);
        Ok(())
    });
    assert_eq!(first.unwrap().as_str(), "installed");
    assert_eq!(second.unwrap().as_str(), "already-installed");
    assert_eq!(calls.get(), 1);
}

#[test]
fn disabled_install_does_not_consume_the_global_installation_slot() {
    let mut registry = SignalInstallRegistry::new();
    let first = setup_signal_handlers_with(&mut registry, piped_options().with_enabled(false), |_| Ok(()));
    let second = setup_signal_handlers_with(&mut registry, piped_options(), |_| Ok(()));
    assert_eq!(first.unwrap().as_str(), "disabled");
    assert_eq!(second.unwrap().as_str(), "installed");
    assert!(registry.is_installed());
}

#[test]
fn noninteractive_sigint_emits_one_sigint_drain_without_ctrl_d_guidance() {
    let mut dispatcher = SignalDispatcher::new(piped_options().interactive_sigint());
    let reaction = dispatcher.on_signal(SignalEvent::Interrupt);
    assert_eq!(reaction.shutdown, Some(ShutdownReason::SigInt));
    assert!(!reaction.start_ctrl_d_waiter);
    let notice = reaction.notice.unwrap();
    assert_eq!(notice, "SIGINT received; shutting down process.");
    assert!(!notice.contains("Ctrl-D"));

    let mut gate = ShutdownLifecycleGate::new();
    assert!(gate.try_apply(ShutdownAction::Drain(ShutdownReason::SigInt)));
    assert_eq!(gate.phase(), ShutdownLifecyclePhase::Draining);
}

#[test]
fn sigterm_emits_one_sigterm_drain() {
    let mut dispatcher = SignalDispatcher::new(interactive_options().interactive_sigint());
    let reaction = dispatcher.on_signal(SignalEvent::Terminate);
    assert_eq!(reaction.shutdown, Some(ShutdownReason::SigTerm));
    assert_eq!(reaction.notice.as_deref(), Some("SIGTERM received; shutting down process."));
    assert!(!reaction.start_ctrl_d_waiter);
}

#[test]
fn repeated_noninteractive_sigint_does_not_duplicate_or_force() {
    let mut dispatcher = SignalDispatcher::new(false);
    let shutdowns = (0..3)
        .filter_map(|_| dispatcher.on_signal(SignalEvent::Interrupt).shutdown)
        .collect::<Vec<_>>();
    assert_eq!(shutdowns, vec![ShutdownReason::SigInt]);
}

#[test]
fn repeated_sigterm_does_not_duplicate_or_force() {
    let mut dispatcher = SignalDispatcher::new(true);
    let shutdowns = (0..3)
        .filter_map(|_| dispatcher.on_signal(SignalEvent::Terminate).shutdown)
        .collect::<Vec<_>>();
    assert_eq!(shutdowns, vec![ShutdownReason::SigTerm]);
}

#[test]
fn sigint_then_sigterm_preserves_the_first_drain_reason() {
    let mut dispatcher = SignalDispatcher::new(false);
    assert_eq!(dispatcher.on_signal(SignalEvent::Interrupt).shutdown, Some(ShutdownReason::SigInt));
    assert_eq!(dispatcher.on_signal(SignalEvent::Terminate).shutdown, None);
}

#[test]
fn sigterm_then_sigint_preserves_the_first_drain_reason() {
    let mut dispatcher = SignalDispatcher::new(false);
    assert_eq!(dispatcher.on_signal(SignalEvent::Terminate).shutdown, Some(ShutdownReason::SigTerm));
    let later = dispatcher.on_signal(SignalEvent::Interrupt);
    assert_eq!(later.shutdown, None);
    assert!(!later.notice.unwrap().contains("Ctrl-D"));
}

#[test]
fn legacy_exit_codes_follow_the_signal_convention() {
    assert_eq!(ShutdownReason::SigInt.conventional_exit_code(), 130);
    assert_eq!(ShutdownReason::SigTerm.conventional_exit_code(), 143);
    assert_eq!(ShutdownReason::CtrlD.conventional_exit_code(), 0);
}

// Further cases of the signal policy.

#[test]
fn interactive_sigint_waits_for_ctrl_d() {
    let mut dispatcher = SignalDispatcher::new(true);
    let first = dispatcher.on_signal(SignalEvent::Interrupt);
    assert!(first.start_ctrl_d_waiter);
    assert_eq!(first.shutdown, None);
    assert_eq!(first.notice.as_deref(), Some("SIGINT received; use Ctrl-D to shutdown process."));
    let second = dispatcher.on_signal(SignalEvent::Interrupt);
    assert!(!second.start_ctrl_d_waiter);
    assert_eq!(second.shutdown, None);

    let ordinary = dispatcher.on_stdin(&StdinRead::Data { count: 1, first_byte: b'a' });
    assert_eq!(ordinary.notice, None);
    assert!(!ordinary.waiter_done);
    let interrupted = dispatcher.on_stdin(&StdinRead::Interrupted);
    assert_eq!(interrupted.shutdown, None);
    let ctrl_d = dispatcher.on_stdin(&StdinRead::Data { count: 1, first_byte: 4 });
    assert_eq!(ctrl_d.shutdown, Some(ShutdownReason::CtrlD));
    assert!(ctrl_d.waiter_done);
    assert_eq!(ctrl_d.notice.as_deref(), Some("Ctrl-D received; shutting down process."));
}

#[test]
fn end_of_input_confirms_shutdown_once() {
    let mut dispatcher = SignalDispatcher::new(true);
    dispatcher.on_signal(SignalEvent::Interrupt);
    let eof = dispatcher.on_stdin(&StdinRead::Data { count: 0, first_byte: 0 });
    assert_eq!(eof.shutdown, Some(ShutdownReason::CtrlD));
    assert_eq!(eof.notice.as_deref(), Some("Ctrl-D/EOF received; shutting down process."));
    assert_eq!(dispatcher.on_signal(SignalEvent::Terminate).shutdown, None);
}

#[test]
fn waiter_failures_fall_back_to_sigint_shutdown() {
    let mut dispatcher = SignalDispatcher::new(true);
    dispatcher.on_signal(SignalEvent::Interrupt);
    let failed = dispatcher.on_stdin(&StdinRead::Failed("bad descriptor".to_string()));
    assert_eq!(failed.shutdown, Some(ShutdownReason::SigInt));
    assert!(failed.waiter_done);
    assert_eq!(
        failed.notice.as_deref(),
        Some("stdin failed while waiting for Ctrl-D (bad descriptor); shutting down process.")
    );

    let mut other = SignalDispatcher::new(true);
    other.on_signal(SignalEvent::Interrupt);
    let unavailable = other.on_waiter_unavailable("no threads");
    assert_eq!(unavailable.shutdown, Some(ShutdownReason::SigInt));
    assert_eq!(
        unavailable.notice.as_deref(),
        Some("could not attach Ctrl-D shutdown waiter (no threads); shutting down process.")
    );
}

#[test]
fn failed_platform_install_frees_the_slot() {
    let mut registry = SignalInstallRegistry::new();
    let seen = Cell::new(None);
    let failed = setup_signal_handlers_with(&mut registry, interactive_options(), |interactive| {
        seen.set(Some(interactive));
        Err(SignalHandlerError::Install { message: "no signals".to_string() })
    });
    assert_eq!(seen.get(), Some(true));
    assert_eq!(failed.unwrap_err().to_string(), "failed to install signal handlers: no signals");
    assert!(!registry.is_installed());
    let retry = setup_signal_handlers_with(&mut registry, interactive_options(), |_| Ok(()));
    assert_eq!(retry, Ok(SignalHandlerStatus::Installed));
}

#[test]
fn options_from_environment_values() {
    let terminals = TerminalState::new(true, false, true);
    let defaults = SignalHandlerOptions::from_env(terminals, EnvLookup::NotPresent, EnvLookup::NotPresent).unwrap();
    assert_eq!(defaults, SignalHandlerOptions::new(terminals));
    assert!(defaults.interactive_sigint());

    let tightened = SignalHandlerOptions::from_env(
        terminals,
        EnvLookup::Present(" YES ".to_string()),
        EnvLookup::Present("stdin+stdout".to_string()),
    )
    .unwrap();
    assert!(tightened.enabled());
    assert!(!tightened.interactive_sigint());

    let bad_switch = SignalHandlerOptions::from_env(
        terminals,
        EnvLookup::Present("maybe".to_string()),
        EnvLookup::Present("all".to_string()),
    )
    .unwrap_err();
    assert_eq!(
        bad_switch,
        SignalHandlerError::InvalidEnvironment {
            variable: SIGNAL_HANDLERS_ENV,
            value: "maybe".to_string(),
            expected: "1/true/yes/on or 0/false/no/off",
        }
    );
    assert_eq!(
        bad_switch.to_string(),
        "invalid ORES_CLIS_SIGNAL_HANDLERS value \"maybe\"; expected 1/true/yes/on or 0/false/no/off"
    );

    let not_unicode =
        SignalHandlerOptions::from_env(terminals, EnvLookup::NotPresent, EnvLookup::NotUnicode("a\u{fffd}".to_string()))
            .unwrap_err();
    assert_eq!(
        not_unicode,
        SignalHandlerError::InvalidEnvironment {
            variable: SIGNAL_TTY_REQUIREMENT_ENV,
            value: "a\u{fffd}".to_string(),
            expected: "valid UTF-8 configuration",
        }
    );
}

#[test]
fn error_messages_quote_values_like_debug_strings() {
    let error = "std\"out\n".parse::<TtyRequirement>().unwrap_err();
    assert_eq!(
        error.to_string(),
        "invalid ORES_CLIS_SIGNAL_TTY_REQUIREMENT value \"std\\\"out\\n\"; expected stdin, stdin+stdout, stdin+stderr, or all"
    );
    assert_eq!(
        SignalHandlerError::UnsupportedPlatform.to_string(),
        "signal handlers are unsupported on this target platform"
    );
    assert_eq!("STDIN+STDOUT+STDERR".parse::<TtyRequirement>().unwrap(), TtyRequirement::All);
    assert_eq!(TtyRequirement::default(), TtyRequirement::Stdin);
}

#[test]
fn invalid_environment_messages_are_assembled_in_order() {
    assert_eq!(
        invalid_environment_message("VAR", "\"x\"", "y or z"),
        "invalid VAR value \"x\"; expected y or z"
    );
    assert_eq!(invalid_environment_message("", "", ""), "invalid  value ; expected ");
}

#[test]
fn any_shutdown_input_runs_the_callback_exactly_once() {
    let mut dispatcher = SignalDispatcher::new(true);
    let mut reasons = Vec::new();
    reasons.extend(dispatcher.on_signal(SignalEvent::Interrupt).shutdown);
    reasons.extend(dispatcher.on_stdin(&StdinRead::Data { count: 1, first_byte: b'x' }).shutdown);
    reasons.extend(dispatcher.on_signal(SignalEvent::Terminate).shutdown);
    reasons.extend(dispatcher.on_stdin(&StdinRead::Data { count: 0, first_byte: 0 }).shutdown);
    reasons.extend(dispatcher.on_signal(SignalEvent::Terminate).shutdown);
    assert_eq!(reasons, vec![ShutdownReason::SigTerm]);
}

#[test]
fn installer_is_not_run_when_already_installed() {
    let mut registry = SignalInstallRegistry::new();
    assert_eq!(setup_signal_handlers_with(&mut registry, piped_options(), |_| Ok(())), Ok(SignalHandlerStatus::Installed));
    let ran = Cell::new(false);
    let again = setup_signal_handlers_with(&mut registry, piped_options(), |_| {
        ran.set(true);
        Ok(())
    });
    assert_eq!(again, Ok(SignalHandlerStatus::AlreadyInstalled));
    assert!(!ran.get());
}
