use ores_clis_core::{
    paint, CliPolicy, ColorMode, ColorRole, EnvironmentHints, LogLevel, OutputMode, StreamEmitter,
    TerminalState,
};

fn tty(stdout_tty: bool, stderr_tty: bool) -> TerminalState {
    TerminalState { stdin_tty: true, stdout_tty, stderr_tty }
}

#[test]
fn auto_output_is_human_on_tty_and_json_when_piped() {
    let policy = CliPolicy::default();
    assert_eq!(
        policy.resolve(tty(true, true), EnvironmentHints::default()).output_mode(),
        OutputMode::Human
    );
    assert_eq!(
        policy.resolve(tty(false, false), EnvironmentHints::default()).output_mode(),
        OutputMode::Json
    );
}

#[test]
fn auto_color_follows_destination_stream_tty() {
    let runtime = CliPolicy::default().resolve(tty(true, false), EnvironmentHints::default());
    assert!(runtime.color_stdout());
    assert!(!runtime.color_stderr());
}

#[test]
fn json_stdout_is_ansi_free_but_tty_stderr_can_stay_colored() {
    let runtime = CliPolicy { output: OutputMode::Json, color: ColorMode::Always, log_level: LogLevel::Trace }
        .resolve(tty(false, true), EnvironmentHints::default());
    assert!(!runtime.color_stdout());
    assert!(runtime.color_stderr());
}

#[test]
fn no_color_disables_auto_but_not_explicit_color() {
    let env = EnvironmentHints { no_color: true, force_color: false };
    let automatic = CliPolicy::default().resolve(tty(true, true), env);
    assert!(!automatic.color_stdout());

    let explicit = CliPolicy { color: ColorMode::Always, ..CliPolicy::default() }.resolve(tty(true, true), env);
    assert!(explicit.color_stdout());
}

#[test]
fn trace_and_compatibility_levels_parse() {
    assert_eq!("trace".parse::<LogLevel>().unwrap(), LogLevel::Trace);
    assert_eq!("warning".parse::<LogLevel>().unwrap(), LogLevel::Warn);
    assert_eq!("off".parse::<LogLevel>().unwrap(), LogLevel::Silent);
    assert!("verbose".parse::<LogLevel>().is_err());
}

#[test]
fn quiet_and_error_allow_only_errors() {
    assert!(LogLevel::Quiet.allows(LogLevel::Error));
    assert!(!LogLevel::Quiet.allows(LogLevel::Warn));
    assert!(LogLevel::Error.allows(LogLevel::Error));
    assert!(!LogLevel::Error.allows(LogLevel::Warn));
}

#[test]
fn semantic_palette_is_zero_cost_when_disabled() {
    assert_eq!(paint(false, ColorRole::Success, "ok"), "ok");
    assert_eq!(paint(true, ColorRole::Error, "boom"), "\u{1b}[31mboom\u{1b}[0m");
}

#[test]
fn json_emitter_rejects_ansi() {
    let mut emitter = StreamEmitter::new(Vec::<u8>::new());
    assert!(emitter.emit_json_line("{\"ok\":true}").is_ok());
    assert!(emitter.emit_json_line("\u{1b}[31m{\"ok\":false}").is_err());
}

// Further cases of the policy core.

#[test]
fn force_color_enables_auto_color_on_pipes() {
    let env = EnvironmentHints { no_color: false, force_color: true };
    let runtime = CliPolicy::default().resolve(tty(false, false), env);
    assert_eq!(runtime.output_mode(), OutputMode::Json);
    assert!(!runtime.color_stdout());
    assert!(runtime.color_stderr());

    let human = CliPolicy { output: OutputMode::Human, ..CliPolicy::default() }.resolve(tty(false, false), env);
    assert!(human.color_stdout());
}

#[test]
fn explicit_never_wins_over_force_color() {
    let env = EnvironmentHints { no_color: false, force_color: true };
    let runtime = CliPolicy { color: ColorMode::Never, ..CliPolicy::default() }.resolve(tty(true, true), env);
    assert!(!runtime.color_stdout());
    assert!(!runtime.color_stderr());
}

#[test]
fn explicit_output_is_kept_regardless_of_terminal() {
    let human = CliPolicy { output: OutputMode::Human, ..CliPolicy::default() }
        .resolve(tty(false, false), EnvironmentHints::default());
    assert_eq!(human.output_mode(), OutputMode::Human);
    assert!(!human.json());
    let json = CliPolicy { output: OutputMode::Json, ..CliPolicy::default() }
        .resolve(tty(true, true), EnvironmentHints::default());
    assert!(json.json());
}

#[test]
fn resolved_log_level_filters_records() {
    let runtime = CliPolicy { log_level: LogLevel::Warn, ..CliPolicy::default() }
        .resolve(tty(true, true), EnvironmentHints::default());
    assert_eq!(runtime.log_level(), LogLevel::Warn);
    assert!(runtime.allows_log(LogLevel::Error));
    assert!(runtime.allows_log(LogLevel::Warn));
    assert!(!runtime.allows_log(LogLevel::Info));
}

#[test]
fn log_threshold_is_monotone_in_verbosity() {
    let levels = [
        LogLevel::Silent,
        LogLevel::Quiet,
        LogLevel::Error,
        LogLevel::Warn,
        LogLevel::Info,
        LogLevel::Debug,
        LogLevel::Trace,
    ];
    for (i, lower) in levels.iter().enumerate() {
        for higher in &levels[i..] {
            for record in &levels {
                if lower.allows(*record) {
                    assert!(higher.allows(*record), "{higher:?} must admit what {lower:?} admits");
                }
            }
        }
    }
    for threshold in &levels {
        assert!(!threshold.allows(LogLevel::Silent));
        assert!(!threshold.allows(LogLevel::Quiet));
        assert!(!LogLevel::Silent.allows(*threshold));
    }
}

#[test]
fn every_level_has_a_canonical_spelling_that_parses_back() {
    for level in [
        LogLevel::Silent,
        LogLevel::Quiet,
        LogLevel::Error,
        LogLevel::Warn,
        LogLevel::Info,
        LogLevel::Debug,
        LogLevel::Trace,
    ] {
        assert_eq!(level.as_str().parse::<LogLevel>().unwrap(), level);
    }
    assert_eq!(LogLevel::Warn.as_str(), "warn");
}

#[test]
fn color_and_output_aliases_parse() {
    assert_eq!("YES".parse::<ColorMode>().unwrap(), ColorMode::Always);
    assert_eq!(" off ".parse::<ColorMode>().unwrap(), ColorMode::Never);
    assert_eq!("auto".parse::<ColorMode>().unwrap(), ColorMode::Auto);
    assert_eq!("ndjson".parse::<OutputMode>().unwrap(), OutputMode::Json);
    assert_eq!("plain".parse::<OutputMode>().unwrap(), OutputMode::Human);
    let error = "sometimes".parse::<ColorMode>().unwrap_err();
    assert_eq!(error.to_string(), "invalid --color value `sometimes`; expected auto, always, or never");
    let error = "xml".parse::<OutputMode>().unwrap_err();
    assert_eq!(error.to_string(), "invalid --output value `xml`; expected auto, human, or json");
}

#[test]
fn painting_wraps_each_role_and_resets() {
    assert_eq!(paint(true, ColorRole::Success, "ok"), "\u{1b}[32mok\u{1b}[0m");
    assert_eq!(paint(true, ColorRole::Warning, "w"), "\u{1b}[33mw\u{1b}[0m");
    assert_eq!(paint(true, ColorRole::Muted, ""), "\u{1b}[2m\u{1b}[0m");
    assert_eq!(paint(false, ColorRole::Error, "boom"), "boom");
}

#[test]
fn environment_values_decide_color_hints() {
    let none = EnvironmentHints::from_values(false, None, None, None, None);
    assert_eq!(none, EnvironmentHints::default());
    let no_color = EnvironmentHints::from_values(true, None, None, None, Some("xterm"));
    assert!(no_color.no_color);
    let clicolor_off = EnvironmentHints::from_values(false, Some("0"), None, None, None);
    assert!(clicolor_off.no_color);
    let clicolor_on = EnvironmentHints::from_values(false, Some("1"), None, None, None);
    assert!(!clicolor_on.no_color);
    let dumb = EnvironmentHints::from_values(false, None, None, None, Some("dumb"));
    assert!(dumb.no_color);
    let forced = EnvironmentHints::from_values(false, None, Some(" Yes "), None, None);
    assert!(forced.force_color);
    let forced_off = EnvironmentHints::from_values(false, None, Some("false"), Some(""), None);
    assert!(!forced_off.force_color);
    let force_env = EnvironmentHints::from_values(false, None, None, Some("3"), None);
    assert!(force_env.force_color);
}

#[test]
fn terminal_snapshot_keeps_its_flags() {
    let terminals = TerminalState::new(true, false, true);
    assert_eq!(terminals, TerminalState { stdin_tty: true, stdout_tty: false, stderr_tty: true });
}

#[test]
fn stream_emitter_writes_lines_with_newlines() {
    let mut emitter = StreamEmitter::new(Vec::<u8>::new());
    emitter.emit_line("plain text").unwrap();
    emitter.emit_json_line("{\"n\":1}").unwrap();
    assert!(emitter.emit_json_line("{\"a\":\"b\nc\"}").is_ok());
    emitter.flush().unwrap();
    assert_eq!(emitter.into_inner(), b"plain text\n{\"n\":1}\n{\"a\":\"b\nc\"}\n".to_vec());
}

#[test]
fn stream_emitter_rejected_record_writes_nothing() {
    let mut emitter = StreamEmitter::new(Vec::<u8>::new()).with_flush_each_record(false);
    assert!(emitter.emit_json_line("\u{1b}[0m").is_err());
    assert!(emitter.into_inner().is_empty());
}
