use ores_clis_core::{
    parse_shared_argv, parse_shared_argv_with_reserved, CliPolicy, ColorMode, LogLevel, OutputMode,
    SharedArgError,
};

#[test]
fn parses_all_canonical_shared_flags() {
    let parsed = parse_shared_argv(&["--color=always", "--json", "--log-level=trace", "status"]).unwrap();

    assert_eq!(parsed.policy.color, ColorMode::Always);
    assert_eq!(parsed.policy.output, OutputMode::Json);
    assert_eq!(parsed.policy.log_level, LogLevel::Trace);
    assert_eq!(parsed.passthrough, vec!["status"]);
}

#[test]
fn supports_negation_aliases() {
    let parsed = parse_shared_argv(&["--!color", "--!json"]).unwrap();
    assert_eq!(parsed.policy.color, ColorMode::Never);
    assert_eq!(parsed.policy.output, OutputMode::Human);
}

#[test]
fn supports_split_output_and_log_level_values() {
    let parsed = parse_shared_argv(&["--output", "human", "--log-level", "debug"]).unwrap();
    assert_eq!(parsed.policy.output, OutputMode::Human);
    assert_eq!(parsed.policy.log_level, LogLevel::Debug);
}

#[test]
fn duplicate_identical_choices_are_idempotent() {
    let parsed = parse_shared_argv(&[
        "--json",
        "--output=json",
        "--color",
        "--color=always",
        "--log-level=warning",
        "--log-level=warn",
    ])
    .unwrap();
    assert_eq!(parsed.policy.output, OutputMode::Json);
    assert_eq!(parsed.policy.color, ColorMode::Always);
    assert_eq!(parsed.policy.log_level, LogLevel::Warn);
}

#[test]
fn contradictory_output_flags_fail_deterministically() {
    let error = parse_shared_argv(&["--json", "--no-json"]).unwrap_err();
    assert!(matches!(error, SharedArgError::Conflict { field: "output", .. }));
}

#[test]
fn contradictory_color_flags_fail_deterministically() {
    let error = parse_shared_argv(&["--color", "--no-color"]).unwrap_err();
    assert!(matches!(error, SharedArgError::Conflict { field: "color", .. }));
}

#[test]
fn contradictory_log_levels_fail_deterministically() {
    let error = parse_shared_argv(&["--log-level=info", "--silent"]).unwrap_err();
    assert!(matches!(error, SharedArgError::Conflict { field: "log-level", .. }));
}

#[test]
fn unrelated_args_are_preserved_verbatim() {
    let parsed = parse_shared_argv(&["audit", "--org", "zed-pkg", "--json"]).unwrap();
    assert_eq!(parsed.passthrough, vec!["audit", "--org", "zed-pkg"]);
    assert_eq!(parsed.policy.output, OutputMode::Json);
}

#[test]
fn terminator_stops_shared_parsing() {
    let parsed = parse_shared_argv(&["--json", "--", "--no-json", "payload"]).unwrap();
    assert_eq!(parsed.policy.output, OutputMode::Json);
    assert_eq!(parsed.passthrough, vec!["--no-json", "payload"]);
}

#[test]
fn missing_required_value_is_an_error() {
    let error = parse_shared_argv(&["--log-level"]).unwrap_err();
    assert_eq!(error, SharedArgError::MissingValue { flag: "--log-level" });
}

#[test]
fn unknown_shared_value_is_an_error() {
    let error = parse_shared_argv(&["--log-level=verbose"]).unwrap_err();
    assert!(matches!(error, SharedArgError::InvalidValue { .. }));
}

#[test]
fn defaults_remain_automatic_and_info() {
    let parsed = parse_shared_argv(&["status"]).unwrap();
    assert_eq!(parsed.policy, CliPolicy::default());
    assert_eq!(parsed.passthrough, vec!["status"]);
}

#[test]
fn reserved_quiet_stays_with_consumer() {
    let parsed = parse_shared_argv_with_reserved(&["conformance", "--quiet", "--json"], &["--quiet"]).unwrap();

    assert_eq!(parsed.policy.output, OutputMode::Json);
    assert_eq!(parsed.policy.log_level, LogLevel::Info);
    assert_eq!(parsed.passthrough, vec!["conformance", "--quiet"]);
}

#[test]
fn explicit_log_level_still_reaches_shared_policy() {
    let parsed =
        parse_shared_argv_with_reserved(&["conformance", "--quiet", "--log-level=quiet"], &["--quiet"]).unwrap();

    assert_eq!(parsed.policy.log_level, LogLevel::Quiet);
    assert_eq!(parsed.passthrough, vec!["conformance", "--quiet"]);
}

#[test]
fn empty_reservations_match_default_parser() {
    let tokens = ["status", "--json", "--color=never"];
    let regular = parse_shared_argv(&tokens).unwrap();
    let reserved = parse_shared_argv_with_reserved(&tokens, &[]).unwrap();
    assert_eq!(regular, reserved);
}

#[test]
fn terminator_remains_authoritative() {
    let parsed = parse_shared_argv_with_reserved(&["--json", "--", "--quiet"], &["--quiet", "--"]).unwrap();
    assert_eq!(parsed.passthrough, vec!["--", "--quiet"]);
}

// Further cases of the shared flag grammar.

#[test]
fn conflict_reports_both_spellings_in_order() {
    let error = parse_shared_argv(&["--no-json", "--output=json"]).unwrap_err();
    assert_eq!(
        error,
        SharedArgError::Conflict {
            field: "output",
            first: "--no-json".to_string(),
            second: "json".to_string(),
        }
    );
    assert_eq!(
        error.to_string(),
        "conflicting explicit output choices: `--no-json` versus `json`"
    );
}

#[test]
fn conflicts_fail_whichever_order_they_come_in() {
    let forward = parse_shared_argv(&["--color", "--no-color"]).unwrap_err();
    let backward = parse_shared_argv(&["--no-color", "--color"]).unwrap_err();
    assert!(matches!(forward, SharedArgError::Conflict { field: "color", .. }));
    assert!(matches!(backward, SharedArgError::Conflict { field: "color", .. }));
}

#[test]
fn repeating_a_choice_changes_nothing() {
    let once = parse_shared_argv(&["--json", "run"]).unwrap();
    let twice = parse_shared_argv(&["--json", "--json", "run"]).unwrap();
    assert_eq!(once, twice);
}

#[test]
fn missing_value_messages_name_the_flag() {
    let error = parse_shared_argv(&["--output"]).unwrap_err();
    assert_eq!(error, SharedArgError::MissingValue { flag: "--output" });
    assert_eq!(error.to_string(), "missing value for --output");
}

#[test]
fn invalid_value_carries_value_and_message() {
    let error = parse_shared_argv(&["--color=sometimes"]).unwrap_err();
    match &error {
        SharedArgError::InvalidValue { flag, value, message } => {
            assert_eq!(*flag, "--color");
            assert_eq!(value, "sometimes");
            assert_eq!(message, "invalid --color value `sometimes`; expected auto, always, or never");
        }
        other => panic!("unexpected error {other:?}"),
    }
}

#[test]
fn terminator_after_tokens_keeps_everything_after_it() {
    let parsed = parse_shared_argv(&["run", "--", "--", "--json"]).unwrap();
    assert_eq!(parsed.policy.output, OutputMode::Auto);
    assert_eq!(parsed.passthrough, vec!["run", "--", "--json"]);
}

#[test]
fn reserved_tokens_pass_through_unchanged_in_place() {
    let parsed =
        parse_shared_argv_with_reserved(&["--verbose", "x", "--json", "--verbose"], &["--verbose"]).unwrap();
    assert_eq!(parsed.policy.output, OutputMode::Json);
    assert_eq!(parsed.passthrough, vec!["--verbose", "x", "--verbose"]);
}

#[test]
fn repeated_prefixes_are_stripped_from_inline_values() {
    let parsed = parse_shared_argv(&["--color=--color=never"]).unwrap();
    assert_eq!(parsed.policy.color, ColorMode::Never);
}

#[test]
fn values_are_trimmed_and_case_insensitive() {
    let parsed = parse_shared_argv(&["--output", " JSON ", "--log-level=Warning"]).unwrap();
    assert_eq!(parsed.policy.output, OutputMode::Json);
    assert_eq!(parsed.policy.log_level, LogLevel::Warn);
}

#[test]
fn reserved_terminator_keeps_its_place_after_reserved_tokens() {
    let parsed =
        parse_shared_argv_with_reserved(&["--quiet", "--json", "--", "--color", "x"], &["--quiet", "--"]).unwrap();
    assert_eq!(parsed.policy.output, OutputMode::Json);
    assert_eq!(parsed.policy.color, ColorMode::Auto);
    assert_eq!(parsed.passthrough, vec!["--quiet", "--", "--color", "x"]);
}

#[test]
fn terminator_is_dropped_when_not_reserved() {
    let parsed = parse_shared_argv_with_reserved(&["--quiet", "--", "--json"], &["--quiet"]).unwrap();
    assert_eq!(parsed.policy.output, OutputMode::Auto);
    assert_eq!(parsed.passthrough, vec!["--quiet", "--json"]);
}

#[test]
fn reserved_value_position_reports_the_hidden_token_as_invalid() {
    let error = parse_shared_argv_with_reserved(&["--output", "--quiet"], &["--quiet"]).unwrap_err();
    assert!(matches!(error, SharedArgError::InvalidValue { flag: "--output", .. }));
}

#[test]
fn terminator_alone_is_never_reserved() {
    let tokens = ["--json", "--", "--quiet", "x"];
    let plain = parse_shared_argv(&tokens).unwrap();
    let reserved = parse_shared_argv_with_reserved(&tokens, &["--"]).unwrap();
    assert_eq!(plain, reserved);
    assert_eq!(reserved.passthrough, vec!["--quiet", "x"]);
    let single = parse_shared_argv_with_reserved(&["--"], &["--"]).unwrap();
    assert!(single.passthrough.is_empty());
}

#[test]
fn reserved_tokens_behave_as_ordinary_arguments() {
    let parsed =
        parse_shared_argv_with_reserved(&["--quiet", "--json", "--quiet", "x"], &["--quiet"]).unwrap();
    assert_eq!(parsed.policy.log_level, LogLevel::Info);
    assert_eq!(parsed.policy.output, OutputMode::Json);
    assert_eq!(parsed.passthrough, vec!["--quiet", "--quiet", "x"]);
}
