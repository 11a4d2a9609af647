//! Parser-agnostic extraction of the shared policy flags from argv.
//!
//! The parser is specified as a left-to-right state machine over the tokens
//! (`arg_step`), so that every property of a parse can be stated over
//! prefixes of the argument list.
use vstd::prelude::*;
use vstd::string::StringExecFns;

use crate::policy::{
    policy_error_message, CliPolicy, ColorMode, LogLevel, OutputMode, color_mode_from_spelling,
    default_cli_policy, log_level_from_spelling, output_mode_from_spelling,
};
use crate::text::{owned, str_equals, str_starts_with, strip_prefix_repeated,
    strip_prefix_repeated_exec};

verus! {

/// A policy field that the shared flags set.
#[derive(Debug, Clone, Copy, PartialEq, Eq, Structural)]
pub enum SharedField {
    /// `--output`, `--json`, `--no-json`.
    Output,
    /// `--color`, `--no-color`.
    Color,
    /// `--log-level`, `--quiet`, `--silent`.
    LogLevel,
}

/// One explicit choice made by a shared flag.
#[derive(Debug, Clone, Copy, PartialEq, Eq, Structural)]
pub enum SharedChoice {
    /// An output mode.
    Output(OutputMode),
    /// A color mode.
    Color(ColorMode),
    /// A log threshold.
    LogLevel(LogLevel),
}

/// The field a choice sets.
pub open spec fn choice_field(choice: SharedChoice) -> SharedField {
    match choice {
        SharedChoice::Output(_) => SharedField::Output,
        SharedChoice::Color(_) => SharedField::Color,
        SharedChoice::LogLevel(_) => SharedField::LogLevel,
    }
}

/// Name of a field in conflict reports.
pub open spec fn field_name(field: SharedField) -> Seq<char> {
    match field {
        SharedField::Output => "output"@,
        SharedField::Color => "color"@,
        SharedField::LogLevel => "log-level"@,
    }
}

/// Flag that names a field in missing/invalid value reports.
pub open spec fn field_flag(field: SharedField) -> Seq<char> {
    match field {
        SharedField::Output => "--output"@,
        SharedField::Color => "--color"@,
        SharedField::LogLevel => "--log-level"@,
    }
}

/// Description of the accepted values of a field.
pub open spec fn field_expected(field: SharedField) -> Seq<char> {
    match field {
        SharedField::Output => "auto, human, or json"@,
        SharedField::Color => "auto, always, or never"@,
        SharedField::LogLevel => "silent, quiet, error, warn, info, debug, or trace"@,
    }
}

/// What one argv token means to the shared parser, outside a value position
/// and before the terminator.
pub enum TokenMeaning {
    /// `--`: every later token belongs to the consumer.
    Terminator,
    /// A flag that makes a choice by itself.
    Flag(SharedChoice),
    /// A flag whose value is the next token.
    TakesValue(SharedField),
    /// `--FIELD=VALUE`.
    Inline(SharedField, Seq<char>),
    /// Not a shared flag.
    Unrelated,
}

/// Classification of a token.
pub open spec fn token_meaning(t: Seq<char>) -> TokenMeaning {
    if t == "--"@ {
        TokenMeaning::Terminator
    } else if t == "--color"@ {
        TokenMeaning::Flag(SharedChoice::Color(ColorMode::Always))
    } else if t == "--no-color"@ || t == "--!color"@ {
        TokenMeaning::Flag(SharedChoice::Color(ColorMode::Never))
    } else if t == "--json"@ {
        TokenMeaning::Flag(SharedChoice::Output(OutputMode::Json))
    } else if t == "--no-json"@ || t == "--!json"@ {
        TokenMeaning::Flag(SharedChoice::Output(OutputMode::Human))
    } else if t == "--quiet"@ {
        TokenMeaning::Flag(SharedChoice::LogLevel(LogLevel::Quiet))
    } else if t == "--silent"@ {
        TokenMeaning::Flag(SharedChoice::LogLevel(LogLevel::Silent))
    } else if t == "--output"@ {
        TokenMeaning::TakesValue(SharedField::Output)
    } else if t == "--log-level"@ {
        TokenMeaning::TakesValue(SharedField::LogLevel)
    } else if "--color="@.is_prefix_of(t) {
        TokenMeaning::Inline(SharedField::Color, strip_prefix_repeated(t, "--color="@))
    } else if "--output="@.is_prefix_of(t) {
        TokenMeaning::Inline(SharedField::Output, strip_prefix_repeated(t, "--output="@))
    } else if "--log-level="@.is_prefix_of(t) {
        TokenMeaning::Inline(SharedField::LogLevel, strip_prefix_repeated(t, "--log-level="@))
    } else {
        TokenMeaning::Unrelated
    }
}

/// Deterministic failure of a shared-flag parse, over character sequences.
pub enum SharedArgFailure {
    /// A flag requiring a following token did not receive one.
    MissingValue { flag: Seq<char> },
    /// A shared value failed canonical parsing.
    InvalidValue { flag: Seq<char>, value: Seq<char>, message: Seq<char> },
    /// Multiple explicit choices for one field disagreed.
    Conflict { field: Seq<char>, first: Seq<char>, second: Seq<char> },
}

/// The choice a value spelling makes for a field, or why it is rejected.
pub open spec fn parse_choice(field: SharedField, value: Seq<char>) -> Result<
    SharedChoice,
    SharedArgFailure,
> {
    let invalid = SharedArgFailure::InvalidValue {
        flag: field_flag(field),
        value,
        message: policy_error_message(field_name(field), value, field_expected(field)),
    };
    match field {
        SharedField::Output => match output_mode_from_spelling(value) {
            Some(m) => Ok(SharedChoice::Output(m)),
            None => Err(invalid),
        },
        SharedField::Color => match color_mode_from_spelling(value) {
            Some(m) => Ok(SharedChoice::Color(m)),
            None => Err(invalid),
        },
        SharedField::LogLevel => match log_level_from_spelling(value) {
            Some(m) => Ok(SharedChoice::LogLevel(m)),
            None => Err(invalid),
        },
    }
}

/// The explicit choice recorded for one field, with the spelling that made it.
pub type ChoiceSlot = Option<(SharedChoice, Seq<char>)>;

/// Parser state after a prefix of argv.
pub struct ArgParseState {
    /// Explicit output choice.
    pub output: ChoiceSlot,
    /// Explicit color choice.
    pub color: ChoiceSlot,
    /// Explicit log-level choice.
    pub log_level: ChoiceSlot,
    /// Tokens kept for the consumer parser, in order.
    pub passthrough: Seq<Seq<char>>,
    /// A flag waiting for its value token.
    pub pending: Option<SharedField>,
    /// Whether `--` has been seen.
    pub terminated: bool,
    /// The first failure, after which no token changes the state.
    pub failure: Option<SharedArgFailure>,
}

/// State before any token.
pub open spec fn initial_arg_state() -> ArgParseState {
    ArgParseState {
        output: None,
        color: None,
        log_level: None,
        passthrough: Seq::empty(),
        pending: None,
        terminated: false,
        failure: None,
    }
}

impl ArgParseState {
    /// The slot of a field.
    pub open spec fn slot(self, field: SharedField) -> ChoiceSlot {
        match field {
            SharedField::Output => self.output,
            SharedField::Color => self.color,
            SharedField::LogLevel => self.log_level,
        }
    }

    /// The state with one slot replaced.
    pub open spec fn with_slot(self, field: SharedField, slot: ChoiceSlot) -> ArgParseState {
        match field {
            SharedField::Output => ArgParseState { output: slot, ..self },
            SharedField::Color => ArgParseState { color: slot, ..self },
            SharedField::LogLevel => ArgParseState { log_level: slot, ..self },
        }
    }

    /// Whether the state is between tokens with nothing pending and no failure
    /// and no terminator.
    pub open spec fn is_open(self) -> bool {
        self.pending is None && !self.terminated && self.failure is None
    }
}

/// Recording a choice into its slot: the first choice is kept with its
/// spelling; an equal later choice changes nothing; a different one fails.
pub open spec fn record_slot(slot: ChoiceSlot, choice: SharedChoice, spelling: Seq<char>) -> Result<
    ChoiceSlot,
    SharedArgFailure,
> {
    match slot {
        Some((existing, first)) => if existing != choice {
            Err(
                SharedArgFailure::Conflict {
                    field: field_name(choice_field(choice)),
                    first,
                    second: spelling,
                },
            )
        } else {
            Ok(slot)
        },
        None => Ok(Some((choice, spelling))),
    }
}

/// The state after recording a choice.
pub open spec fn record_choice(st: ArgParseState, choice: SharedChoice, spelling: Seq<char>) -> ArgParseState {
    let f = choice_field(choice);
    match record_slot(st.slot(f), choice, spelling) {
        Ok(slot) => st.with_slot(f, slot),
        Err(e) => ArgParseState { failure: Some(e), ..st },
    }
}

/// The state after parsing `value` for `field` and recording it.
pub open spec fn record_value(st: ArgParseState, field: SharedField, value: Seq<char>) -> ArgParseState {
    match parse_choice(field, value) {
        Ok(choice) => record_choice(st, choice, value),
        Err(e) => ArgParseState { failure: Some(e), ..st },
    }
}

/// One step of the parser.
pub open spec fn arg_step(st: ArgParseState, t: Seq<char>) -> ArgParseState {
    if st.failure is Some {
        st
    } else if st.terminated {
        ArgParseState { passthrough: st.passthrough.push(t), ..st }
    } else if st.pending is Some {
        record_value(ArgParseState { pending: None, ..st }, st.pending->0, t)
    } else {
        match token_meaning(t) {
            TokenMeaning::Terminator => ArgParseState { terminated: true, ..st },
            TokenMeaning::Flag(choice) => record_choice(st, choice, t),
            TokenMeaning::TakesValue(field) => ArgParseState { pending: Some(field), ..st },
            TokenMeaning::Inline(field, value) => record_value(st, field, value),
            TokenMeaning::Unrelated => ArgParseState { passthrough: st.passthrough.push(t), ..st },
        }
    }
}

/// The parser state after all of `tokens`.
pub open spec fn arg_run(tokens: Seq<Seq<char>>) -> ArgParseState
    decreases tokens.len(),
{
    if tokens.len() == 0 {
        initial_arg_state()
    } else {
        arg_step(arg_run(tokens.drop_last()), tokens.last())
    }
}

/// The value a slot gives a policy field, if it holds a choice for it.
pub open spec fn policy_with_slots(st: ArgParseState) -> CliPolicy {
    let d = default_cli_policy();
    CliPolicy {
        output: match st.output {
            Some((SharedChoice::Output(m), _)) => m,
            _ => d.output,
        },
        color: match st.color {
            Some((SharedChoice::Color(m), _)) => m,
            _ => d.color,
        },
        log_level: match st.log_level {
            Some((SharedChoice::LogLevel(m), _)) => m,
            _ => d.log_level,
        },
    }
}

/// Outcome of a finished parse.
pub open spec fn arg_finish(st: ArgParseState) -> Result<(CliPolicy, Seq<Seq<char>>), SharedArgFailure> {
    match st.failure {
        Some(e) => Err(e),
        None => match st.pending {
            Some(field) => Err(SharedArgFailure::MissingValue { flag: field_flag(field) }),
            None => Ok((policy_with_slots(st), st.passthrough)),
        },
    }
}

/// What `parse_shared_argv` computes for a token sequence.
pub open spec fn shared_argv_outcome(tokens: Seq<Seq<char>>) -> Result<
    (CliPolicy, Seq<Seq<char>>),
    SharedArgFailure,
> {
    arg_finish(arg_run(tokens))
}

/// Whether shared parsing of `tokens` ends at position `k`: the parser is
/// between flags there and the token is the `--` terminator.
pub open spec fn terminates_at(tokens: Seq<Seq<char>>, k: int) -> bool {
    &&& 0 <= k < tokens.len()
    &&& arg_run(tokens.take(k)).is_open()
    &&& token_meaning(tokens[k]) is Terminator
}

/// The outcome of shared parsing when the terminator that ends it is kept in
/// the passthrough, at its place between the tokens before and after it.
pub open spec fn terminator_kept_outcome(tokens: Seq<Seq<char>>) -> Result<
    (CliPolicy, Seq<Seq<char>>),
    SharedArgFailure,
> {
    match shared_argv_outcome(tokens) {
        Ok((policy, pass)) => if exists|k: int| terminates_at(tokens, k) {
            let k = choose|k: int| terminates_at(tokens, k);
            let m = arg_run(tokens.take(k)).passthrough.len() as int;
            Ok((policy, pass.take(m) + seq!["--"@] + pass.skip(m)))
        } else {
            Ok((policy, pass))
        },
        Err(e) => Err(e),
    }
}

/// Character views of a token list.
pub open spec fn token_views(tokens: Seq<&str>) -> Seq<Seq<char>> {
    tokens.map_values(|t: &str| t@)
}

/// Character views of owned strings.
pub open spec fn string_views(v: Seq<String>) -> Seq<Seq<char>> {
    v.map_values(|s: String| s@)
}

/// Result of parsing only the shared policy flags.
///
/// Arguments not owned by the shared policy layer are preserved verbatim in
/// `passthrough` for the consumer's real parser. A `--` terminator stops shared
/// parsing and is not included in the returned passthrough list.
#[derive(Debug, Clone, PartialEq, Eq)]
pub struct ParsedSharedArgs {
    /// Shared runtime policy derived from explicit CLI choices.
    pub policy: CliPolicy,
    /// Arguments that remain for the consumer CLI parser.
    pub passthrough: Vec<String>,
}

/// Deterministic parse/conflict failure for shared CLI flags.
#[derive(Debug, Clone, PartialEq, Eq)]
pub enum SharedArgError {
    /// A flag requiring a following token did not receive one.
    MissingValue { flag: &'static str },
    /// A shared value failed canonical parsing.
    InvalidValue { flag: &'static str, value: String, message: String },
    /// Multiple explicit choices for one field disagreed.
    Conflict { field: &'static str, first: String, second: String },
}

impl View for SharedArgError {
    type V = SharedArgFailure;

    open spec fn view(&self) -> SharedArgFailure {
        match self {
            SharedArgError::MissingValue { flag } => SharedArgFailure::MissingValue { flag: flag@ },
            SharedArgError::InvalidValue { flag, value, message } => SharedArgFailure::InvalidValue {
                flag: flag@,
                value: value@,
                message: message@,
            },
            SharedArgError::Conflict { field, first, second } => SharedArgFailure::Conflict {
                field: field@,
                first: first@,
                second: second@,
            },
        }
    }
}

/// The rendered message of a failure.
pub open spec fn failure_message(e: SharedArgFailure) -> Seq<char> {
    match e {
        SharedArgFailure::MissingValue { flag } => "missing value for "@ + flag,
        SharedArgFailure::InvalidValue { flag, value, message } => "invalid value `"@ + value
            + "` for "@ + flag + ": "@ + message,
        SharedArgFailure::Conflict { field, first, second } => "conflicting explicit "@ + field
            + " choices: `"@ + first + "` versus `"@ + second + "`"@,
    }
}

impl SharedArgError {
    /// Human-readable description of the failure.
    pub fn to_string(&self) -> (r: String)
        ensures
            r@ == failure_message(self@),
    {
        match self {
            SharedArgError::MissingValue { flag } => {
                let mut r = String::from_str("missing value for ");
                r.append(flag);
                r
            },
            SharedArgError::InvalidValue { flag, value, message } => {
                let mut r = String::from_str("invalid value `");
                r.append(value.as_str());
                r.append("` for ");
                r.append(flag);
                r.append(": ");
                r.append(message.as_str());
                r
            },
            SharedArgError::Conflict { field, first, second } => {
                let mut r = String::from_str("conflicting explicit ");
                r.append(field);
                r.append(" choices: `");
                r.append(first.as_str());
                r.append("` versus `");
                r.append(second.as_str());
                r.append("`");
                r
            },
        }
    }
}

/// Outcome of `parse_shared_argv` over character sequences.
pub open spec fn parsed_outcome(r: Result<ParsedSharedArgs, SharedArgError>) -> Result<
    (CliPolicy, Seq<Seq<char>>),
    SharedArgFailure,
> {
    match r {
        Ok(p) => Ok((p.policy, string_views(p.passthrough@))),
        Err(e) => Err(e@),
    }
}

/// Character view of an explicit slot.
pub open spec fn slot_view(slot: Option<(SharedChoice, String)>) -> ChoiceSlot {
    match slot {
        Some((c, spelling)) => Some((c, spelling@)),
        None => None,
    }
}

/// Parser state held by the executable parser between tokens.
pub open spec fn held_state(
    output: Option<(SharedChoice, String)>,
    color: Option<(SharedChoice, String)>,
    log_level: Option<(SharedChoice, String)>,
    passthrough: Seq<String>,
    terminated: bool,
) -> ArgParseState {
    ArgParseState {
        output: slot_view(output),
        color: slot_view(color),
        log_level: slot_view(log_level),
        passthrough: string_views(passthrough),
        pending: None,
        terminated,
        failure: None,
    }
}

/// Running the parser one more token.
pub proof fn lemma_arg_run_take_step(tokens: Seq<Seq<char>>, i: int)
    requires
        0 <= i < tokens.len(),
    ensures
        arg_run(tokens.take(i + 1)) == arg_step(arg_run(tokens.take(i)), tokens[i]),
{
    assert(tokens.take(i + 1).drop_last() =~= tokens.take(i));
    assert(tokens.take(i + 1).last() == tokens[i]);
}

/// Once a failure is recorded, no later token changes the state.
pub proof fn lemma_arg_run_failure_persists(tokens: Seq<Seq<char>>, i: int, j: int)
    requires
        0 <= i <= j <= tokens.len(),
        arg_run(tokens.take(i)).failure is Some,
    ensures
        arg_run(tokens.take(j)) == arg_run(tokens.take(i)),
    decreases j - i,
{
    if j > i {
        lemma_arg_run_failure_persists(tokens, i, j - 1);
        lemma_arg_run_take_step(tokens, j - 1);
    }
}

/// After the terminator every token is passed through.
pub proof fn lemma_arg_run_terminated(tokens: Seq<Seq<char>>, i: int, j: int)
    requires
        0 <= i <= j <= tokens.len(),
        arg_run(tokens.take(i)).terminated,
        arg_run(tokens.take(i)).failure is None,
    ensures
        arg_run(tokens.take(j)) == (ArgParseState {
            passthrough: arg_run(tokens.take(i)).passthrough + tokens.subrange(i, j),
            ..arg_run(tokens.take(i))
        }),
    decreases j - i,
{
    let st = arg_run(tokens.take(i));
    if j == i {
        assert(st.passthrough + tokens.subrange(i, j) =~= st.passthrough);
    } else {
        lemma_arg_run_terminated(tokens, i, j - 1);
        lemma_arg_run_take_step(tokens, j - 1);
        assert((st.passthrough + tokens.subrange(i, j - 1)).push(tokens[j - 1]) =~= st.passthrough
            + tokens.subrange(i, j));
    }
}

/// Shared parsing ends at most once.
pub proof fn lemma_terminates_at_unique(tokens: Seq<Seq<char>>, a: int, b: int)
    requires
        terminates_at(tokens, a),
        terminates_at(tokens, b),
    ensures
        a == b,
{
    if a < b {
        lemma_arg_run_take_step(tokens, a);
        lemma_arg_run_terminated(tokens, a + 1, b);
    } else if b < a {
        lemma_arg_run_take_step(tokens, b);
        lemma_arg_run_terminated(tokens, b + 1, a);
    }
}

enum TokenKind<'a> {
    Terminator,
    Flag(SharedChoice),
    TakesValue(SharedField),
    Inline(SharedField, &'a str),
    Unrelated,
}

spec fn token_kind_meaning(k: TokenKind) -> TokenMeaning {
    match k {
        TokenKind::Terminator => TokenMeaning::Terminator,
        TokenKind::Flag(c) => TokenMeaning::Flag(c),
        TokenKind::TakesValue(f) => TokenMeaning::TakesValue(f),
        TokenKind::Inline(f, v) => TokenMeaning::Inline(f, v@),
        TokenKind::Unrelated => TokenMeaning::Unrelated,
    }
}

fn classify_token<'a>(t: &'a str) -> (k: TokenKind<'a>)
    ensures
        token_kind_meaning(k) == token_meaning(t@),
{
    if str_equals(t, "--") {
        TokenKind::Terminator
    } else if str_equals(t, "--color") {
        TokenKind::Flag(SharedChoice::Color(ColorMode::Always))
    } else if str_equals(t, "--no-color") || str_equals(t, "--!color") {
        TokenKind::Flag(SharedChoice::Color(ColorMode::Never))
    } else if str_equals(t, "--json") {
        TokenKind::Flag(SharedChoice::Output(OutputMode::Json))
    } else if str_equals(t, "--no-json") || str_equals(t, "--!json") {
        TokenKind::Flag(SharedChoice::Output(OutputMode::Human))
    } else if str_equals(t, "--quiet") {
        TokenKind::Flag(SharedChoice::LogLevel(LogLevel::Quiet))
    } else if str_equals(t, "--silent") {
        TokenKind::Flag(SharedChoice::LogLevel(LogLevel::Silent))
    } else if str_equals(t, "--output") {
        TokenKind::TakesValue(SharedField::Output)
    } else if str_equals(t, "--log-level") {
        TokenKind::TakesValue(SharedField::LogLevel)
    } else if str_starts_with(t, "--color=") {
        proof {
            reveal_strlit("--color=");
        }
        TokenKind::Inline(SharedField::Color, strip_prefix_repeated_exec(t, "--color="))
    } else if str_starts_with(t, "--output=") {
        proof {
            reveal_strlit("--output=");
        }
        TokenKind::Inline(SharedField::Output, strip_prefix_repeated_exec(t, "--output="))
    } else if str_starts_with(t, "--log-level=") {
        proof {
            reveal_strlit("--log-level=");
        }
        TokenKind::Inline(SharedField::LogLevel, strip_prefix_repeated_exec(t, "--log-level="))
    } else {
        TokenKind::Unrelated
    }
}

fn field_name_str(field: SharedField) -> (r: &'static str)
    ensures
        r@ == field_name(field),
{
    match field {
        SharedField::Output => "output",
        SharedField::Color => "color",
        SharedField::LogLevel => "log-level",
    }
}

fn parse_value(field: SharedField, value: &str) -> (r: Result<SharedChoice, SharedArgError>)
    ensures
        match r {
            Ok(c) => parse_choice(field, value@) == Ok::<SharedChoice, SharedArgFailure>(c),
            Err(e) => parse_choice(field, value@) == Err::<SharedChoice, SharedArgFailure>(e@),
        },
{
    match field {
        SharedField::Output => match OutputMode::parse(value) {
            Ok(m) => Ok(SharedChoice::Output(m)),
            Err(e) => Err(
                SharedArgError::InvalidValue {
                    flag: "--output",
                    value: owned(value),
                    message: e.to_string(),
                },
            ),
        },
        SharedField::Color => match ColorMode::parse(value) {
            Ok(m) => Ok(SharedChoice::Color(m)),
            Err(e) => Err(
                SharedArgError::InvalidValue {
                    flag: "--color",
                    value: owned(value),
                    message: e.to_string(),
                },
            ),
        },
        SharedField::LogLevel => match LogLevel::parse(value) {
            Ok(m) => Ok(SharedChoice::LogLevel(m)),
            Err(e) => Err(
                SharedArgError::InvalidValue {
                    flag: "--log-level",
                    value: owned(value),
                    message: e.to_string(),
                },
            ),
        },
    }
}

fn set_explicit(
    slot: &mut Option<(SharedChoice, String)>,
    value: SharedChoice,
    spelling: &str,
    field: &'static str,
) -> (r: Result<(), SharedArgError>)
    requires
        field@ == field_name(choice_field(value)),
    ensures
        match record_slot(slot_view(*old(slot)), value, spelling@) {
            Ok(s) => r is Ok && slot_view(*final(slot)) == s,
            Err(e) => r matches Err(x) && x@ == e && *final(slot) == *old(slot),
        },
{
    match &*slot {
        Some((existing, existing_spelling)) => {
            if *existing != value {
                return Err(
                    SharedArgError::Conflict {
                        field,
                        first: existing_spelling.clone(),
                        second: owned(spelling),
                    },
                );
            }
            return Ok(());
        },
        None => {},
    }
    *slot = Some((value, owned(spelling)));
    Ok(())
}

fn record_exec(
    choice: SharedChoice,
    spelling: &str,
    output: &mut Option<(SharedChoice, String)>,
    color: &mut Option<(SharedChoice, String)>,
    log_level: &mut Option<(SharedChoice, String)>,
    Ghost(passthrough): Ghost<Seq<String>>,
) -> (r: Result<(), SharedArgError>)
    ensures
        ({
            let after = record_choice(
                held_state(*old(output), *old(color), *old(log_level), passthrough, false),
                choice,
                spelling@,
            );
            &&& r is Ok <==> after.failure is None
            &&& r is Ok ==> held_state(
                *final(output),
                *final(color),
                *final(log_level),
                passthrough,
                false,
            ) == after
            &&& r matches Err(e) ==> after.failure == Some(e@)
        }),
{
    let field = field_name_str(
        match choice {
            SharedChoice::Output(_) => SharedField::Output,
            SharedChoice::Color(_) => SharedField::Color,
            SharedChoice::LogLevel(_) => SharedField::LogLevel,
        },
    );
    match choice {
        SharedChoice::Output(_) => set_explicit(output, choice, spelling, field),
        SharedChoice::Color(_) => set_explicit(color, choice, spelling, field),
        SharedChoice::LogLevel(_) => set_explicit(log_level, choice, spelling, field),
    }
}

/// Parse the shared CLI policy flags from already-tokenized argv.
///
/// The adapter is deliberately parser-agnostic: it does not invoke a shell and
/// preserves all unrelated arguments for the consumer parser.
///
/// Supported forms:
/// - `--color`, `--color=auto|always|never`, `--no-color`, `--!color`
/// - `--json`, `--no-json`, `--!json`
/// - `--output=auto|human|json` and `--output VALUE`
/// - `--log-level=LEVEL` and `--log-level LEVEL`
/// - compatibility aliases `--quiet` and `--silent`
///
/// Duplicate identical choices are idempotent. Contradictory explicit choices
/// fail rather than depending on argument order.
pub fn parse_shared_argv(tokens: &[&str]) -> (r: Result<ParsedSharedArgs, SharedArgError>)
    ensures
        parsed_outcome(r) == shared_argv_outcome(token_views(tokens@)),
{
    parse_tokens(tokens, false)
}

/// Shared parsing that keeps the terminator ending it in the passthrough.
pub(crate) fn parse_shared_argv_keeping_terminator(tokens: &[&str]) -> (r: Result<
    ParsedSharedArgs,
    SharedArgError,
>)
    ensures
        parsed_outcome(r) == terminator_kept_outcome(token_views(tokens@)),
{
    parse_tokens(tokens, true)
}

fn parse_tokens(tokens: &[&str], keep_terminator: bool) -> (r: Result<ParsedSharedArgs, SharedArgError>)
    ensures
        keep_terminator ==> parsed_outcome(r) == terminator_kept_outcome(token_views(tokens@)),
        !keep_terminator ==> parsed_outcome(r) == shared_argv_outcome(token_views(tokens@)),
{
    let ghost views = token_views(tokens@);
    let mut kept_at: usize = 0;
    let ghost mut term_k: int = 0;
    let mut passthrough: Vec<String> = Vec::new();
    let mut explicit_output: Option<(SharedChoice, String)> = None;
    let mut explicit_color: Option<(SharedChoice, String)> = None;
    let mut explicit_log_level: Option<(SharedChoice, String)> = None;
    let mut terminated = false;
    let mut index: usize = 0;
    proof {
        assert(views.take(0) =~= Seq::<Seq<char>>::empty());
        assert(string_views(passthrough@) =~= Seq::<Seq<char>>::empty());
    }
    while index < tokens.len()
        invariant
            index <= tokens@.len(),
            views == token_views(tokens@),
            views.len() == tokens@.len(),
            arg_run(views.take(index as int)) == held_state(
                explicit_output,
                explicit_color,
                explicit_log_level,
                passthrough@,
                terminated,
            ),
            terminated ==> index == tokens@.len(),
            !terminated ==> forall|j: int| 0 <= j < index ==> !terminates_at(views, j),
            terminated ==> terminates_at(views, term_k) && kept_at as int == arg_run(
                views.take(term_k),
            ).passthrough.len() && kept_at <= passthrough@.len(),
        decreases tokens@.len() - index,
    {
        let token = tokens[index];
        proof {
            lemma_arg_run_take_step(views, index as int);
            assert(views[index as int] == token@);
        }
        match classify_token(token) {
            TokenKind::Terminator => {
                kept_at = passthrough.len();
                proof {
                    term_k = index as int;
                    assert(terminates_at(views, term_k));
                }
                let mut rest = index + 1;
                proof {
                    lemma_arg_run_terminated(views, index + 1, index + 1);
                }
                while rest < tokens.len()
                    invariant
                        index < rest <= tokens@.len(),
                        views == token_views(tokens@),
                        views.len() == tokens@.len(),
                        arg_run(views.take(index + 1)).terminated,
                        arg_run(views.take(index + 1)).failure is None,
                        kept_at <= passthrough@.len(),
                        arg_run(views.take(rest as int)) == held_state(
                            explicit_output,
                            explicit_color,
                            explicit_log_level,
                            passthrough@,
                            true,
                        ),
                    decreases tokens@.len() - rest,
                {
                    proof {
                        lemma_arg_run_take_step(views, rest as int);
                        assert(views[rest as int] == tokens@[rest as int]@);
                    }
                    let ghost before = passthrough@;
                    passthrough.push(owned(tokens[rest]));
                    proof {
                        assert(passthrough@.drop_last() =~= before);
                        assert(string_views(passthrough@) =~= string_views(before).push(
                            views[rest as int],
                        ));
                    }
                    rest += 1;
                }
                terminated = true;
                index = tokens.len();
            },
            TokenKind::Flag(choice) => {
                match record_exec(
                    choice,
                    token,
                    &mut explicit_output,
                    &mut explicit_color,
                    &mut explicit_log_level,
                    Ghost(passthrough@),
                ) {
                    Ok(()) => {},
                    Err(e) => {
                        proof {
                            lemma_arg_run_failure_persists(
                                views,
                                index + 1,
                                views.len() as int,
                            );
                            assert(views.take(views.len() as int) =~= views);
                        }
                        return Err(e);
                    },
                }
                index += 1;
            },
            TokenKind::TakesValue(field) => {
                index += 1;
                proof {
                    assert(arg_run(views.take(index as int)).pending is Some);
                }
                if index >= tokens.len() {
                    proof {
                        assert(views.take(index as int) =~= views);
                    }
                    return Err(
                        SharedArgError::MissingValue {
                            flag: match field {
                                SharedField::Output => "--output",
                                SharedField::Color => "--color",
                                SharedField::LogLevel => "--log-level",
                            },
                        },
                    );
                }
                let value = tokens[index];
                proof {
                    lemma_arg_run_take_step(views, index as int);
                    assert(views[index as int] == value@);
                }
                match parse_value(field, value) {
                    Ok(choice) => {
                        match record_exec(
                            choice,
                            value,
                            &mut explicit_output,
                            &mut explicit_color,
                            &mut explicit_log_level,
                            Ghost(passthrough@),
                        ) {
                            Ok(()) => {},
                            Err(e) => {
                                proof {
                                    lemma_arg_run_failure_persists(
                                        views,
                                        index + 1,
                                        views.len() as int,
                                    );
                                    assert(views.take(views.len() as int) =~= views);
                                }
                                return Err(e);
                            },
                        }
                    },
                    Err(e) => {
                        proof {
                            lemma_arg_run_failure_persists(views, index + 1, views.len() as int);
                            assert(views.take(views.len() as int) =~= views);
                        }
                        return Err(e);
                    },
                }
                index += 1;
            },
            TokenKind::Inline(field, value) => {
                match parse_value(field, value) {
                    Ok(choice) => {
                        match record_exec(
                            choice,
                            value,
                            &mut explicit_output,
                            &mut explicit_color,
                            &mut explicit_log_level,
                            Ghost(passthrough@),
                        ) {
                            Ok(()) => {},
                            Err(e) => {
                                proof {
                                    lemma_arg_run_failure_persists(
                                        views,
                                        index + 1,
                                        views.len() as int,
                                    );
                                    assert(views.take(views.len() as int) =~= views);
                                }
                                return Err(e);
                            },
                        }
                    },
                    Err(e) => {
                        proof {
                            lemma_arg_run_failure_persists(views, index + 1, views.len() as int);
                            assert(views.take(views.len() as int) =~= views);
                        }
                        return Err(e);
                    },
                }
                index += 1;
            },
            TokenKind::Unrelated => {
                let ghost before = passthrough@;
                passthrough.push(owned(token));
                proof {
                    assert(passthrough@.drop_last() =~= before);
                    assert(string_views(passthrough@) =~= string_views(before).push(
                        views[index as int],
                    ));
                }
                index += 1;
            },
        }
    }
    proof {
        assert(views.take(index as int) =~= views);
    }
    let mut policy = CliPolicy::default();
    if let Some((SharedChoice::Output(output), _)) = &explicit_output {
        policy.output = *output;
    }
    if let Some((SharedChoice::Color(color), _)) = &explicit_color {
        policy.color = *color;
    }
    if let Some((SharedChoice::LogLevel(log_level), _)) = &explicit_log_level {
        policy.log_level = *log_level;
    }
    if keep_terminator && terminated {
        let ghost pass = string_views(passthrough@);
        proof {
            let k = choose|k: int| terminates_at(views, k);
            lemma_terminates_at_unique(views, k, term_k);
        }
        let ghost before = passthrough@;
        let dashes = owned("--");
        passthrough.insert(kept_at, dashes);
        proof {
            assert(passthrough@ =~= before.take(kept_at as int) + seq![dashes] + before.skip(
                kept_at as int,
            ));
            assert(string_views(passthrough@) =~= pass.take(kept_at as int) + seq!["--"@]
                + pass.skip(kept_at as int));
        }
    }
    Ok(ParsedSharedArgs { policy, passthrough })
}

/// The parser state after running `tokens` from `st`.
pub open spec fn arg_run_from(st: ArgParseState, tokens: Seq<Seq<char>>) -> ArgParseState
    decreases tokens.len(),
{
    if tokens.len() == 0 {
        st
    } else {
        arg_step(arg_run_from(st, tokens.drop_last()), tokens.last())
    }
}

/// The choice a token makes by itself, outside a value position.
pub open spec fn token_choice(t: Seq<char>) -> Option<SharedChoice> {
    match token_meaning(t) {
        TokenMeaning::Flag(c) => Some(c),
        TokenMeaning::Inline(f, v) => match parse_choice(f, v) {
            Ok(c) => Some(c),
            Err(_) => None,
        },
        _ => None,
    }
}

proof fn lemma_arg_run_concat(a: Seq<Seq<char>>, b: Seq<Seq<char>>)
    ensures
        arg_run(a + b) == arg_run_from(arg_run(a), b),
    decreases b.len(),
{
    if b.len() == 0 {
        assert(a + b =~= a);
    } else {
        lemma_arg_run_concat(a, b.drop_last());
        assert((a + b).drop_last() =~= a + b.drop_last());
        assert((a + b).last() == b.last());
    }
}

proof fn lemma_arg_run_from_one(st: ArgParseState, x: Seq<char>)
    ensures
        arg_run_from(st, seq![x]) == arg_step(st, x),
{
    assert(seq![x].drop_last() =~= Seq::<Seq<char>>::empty());
    assert(arg_run_from(st, Seq::<Seq<char>>::empty()) == st);
    assert(seq![x].last() == x);
}

proof fn lemma_arg_run_from_two(st: ArgParseState, x: Seq<char>, y: Seq<char>)
    ensures
        arg_run_from(st, seq![x, y]) == arg_step(arg_step(st, x), y),
{
    assert(seq![x, y].drop_last() =~= seq![x]);
    lemma_arg_run_from_one(st, x);
    assert(seq![x, y].last() == y);
}

proof fn lemma_arg_run_from_failed(st: ArgParseState, b: Seq<Seq<char>>)
    requires
        st.failure is Some,
    ensures
        arg_run_from(st, b) == st,
    decreases b.len(),
{
    if b.len() > 0 {
        lemma_arg_run_from_failed(st, b.drop_last());
    }
}

proof fn lemma_arg_run_from_terminated(st: ArgParseState, b: Seq<Seq<char>>)
    requires
        st.terminated,
        st.failure is None,
    ensures
        arg_run_from(st, b) == (ArgParseState { passthrough: st.passthrough + b, ..st }),
    decreases b.len(),
{
    if b.len() == 0 {
        assert(st.passthrough + b =~= st.passthrough);
    } else {
        lemma_arg_run_from_terminated(st, b.drop_last());
        assert((st.passthrough + b.drop_last()).push(b.last()) =~= st.passthrough + b);
    }
}

/// `--` ends shared parsing: once the parser is between flags, everything
/// after a `--` is handed to the consumer verbatim and cannot change the
/// policy or the outcome.
pub proof fn law_terminator_stops_shared_parsing(a: Seq<Seq<char>>, b: Seq<Seq<char>>)
    requires
        arg_run(a).pending is None,
        !arg_run(a).terminated,
    ensures
        shared_argv_outcome(a + seq!["--"@] + b) == match shared_argv_outcome(a) {
            Ok((policy, passthrough)) => Ok((policy, passthrough + b)),
            Err(e) => Err(e),
        },
{
    lemma_arg_run_concat(a + seq!["--"@], b);
    lemma_arg_run_concat(a, seq!["--"@]);
    let st = arg_run(a);
    lemma_arg_run_from_one(st, "--"@);
    if st.failure is Some {
        lemma_arg_run_from_failed(st, b);
    } else {
        lemma_arg_run_from_terminated(arg_step(st, "--"@), b);
    }
}

/// Repeating an explicit choice that is already in effect changes nothing:
/// duplicate identical choices are idempotent, whatever spelling repeats it.
pub proof fn law_repeated_choice_is_idempotent(
    a: Seq<Seq<char>>,
    x: Seq<char>,
    b: Seq<Seq<char>>,
    choice: SharedChoice,
)
    requires
        arg_run(a).is_open(),
        token_choice(x) == Some(choice),
        arg_run(a).slot(choice_field(choice)) matches Some((existing, _)) && existing == choice,
    ensures
        shared_argv_outcome(a + seq![x] + b) == shared_argv_outcome(a + b),
{
    lemma_arg_run_concat(a + seq![x], b);
    lemma_arg_run_concat(a, seq![x]);
    lemma_arg_run_concat(a, b);
    lemma_arg_run_from_one(arg_run(a), x);
    assert(arg_step(arg_run(a), x) == arg_run(a));
}

/// Two explicit choices for the same field that disagree make the parse fail
/// with a conflict on that field, in either order, whatever comes before
/// (between flags) or after them.
pub proof fn law_conflicting_choices_fail_in_any_order(
    a: Seq<Seq<char>>,
    x: Seq<char>,
    y: Seq<char>,
    b: Seq<Seq<char>>,
    cx: SharedChoice,
    cy: SharedChoice,
)
    requires
        arg_run(a).is_open(),
        token_choice(x) == Some(cx),
        token_choice(y) == Some(cy),
        choice_field(cx) == choice_field(cy),
        cx != cy,
    ensures
        shared_argv_outcome(a + seq![x, y] + b) matches Err(SharedArgFailure::Conflict { field, .. })
            && field == field_name(choice_field(cx)),
        shared_argv_outcome(a + seq![y, x] + b) matches Err(SharedArgFailure::Conflict { field, .. })
            && field == field_name(choice_field(cx)),
{
    lemma_conflict_pair(a, x, y, b, cx, cy);
    lemma_conflict_pair(a, y, x, b, cy, cx);
}

proof fn lemma_conflict_pair(
    a: Seq<Seq<char>>,
    x: Seq<char>,
    y: Seq<char>,
    b: Seq<Seq<char>>,
    cx: SharedChoice,
    cy: SharedChoice,
)
    requires
        arg_run(a).is_open(),
        token_choice(x) == Some(cx),
        token_choice(y) == Some(cy),
        choice_field(cx) == choice_field(cy),
        cx != cy,
    ensures
        shared_argv_outcome(a + seq![x, y] + b) matches Err(SharedArgFailure::Conflict { field, .. })
            && field == field_name(choice_field(cx)),
{
    let f = choice_field(cx);
    let st = arg_run(a);
    lemma_arg_run_concat(a + seq![x, y], b);
    lemma_arg_run_concat(a, seq![x, y]);
    lemma_arg_run_from_two(st, x, y);
    let s1 = arg_step(st, x);
    let s2 = arg_step(s1, y);
    assert(arg_run_from(st, seq![x, y]) == s2);
    assert(s2.failure matches Some(SharedArgFailure::Conflict { field, .. }) && field == field_name(
        f,
    ));
    lemma_arg_run_from_failed(s2, b);
}

/// Arguments that are not shared flags are preserved verbatim and in order,
/// and leave the policy at its defaults (automatic output and color, `info`).
pub proof fn law_unrelated_arguments_pass_through(u: Seq<Seq<char>>)
    requires
        forall|i: int| 0 <= i < u.len() ==> token_meaning(#[trigger] u[i]) is Unrelated,
    ensures
        shared_argv_outcome(u) == Ok::<(CliPolicy, Seq<Seq<char>>), SharedArgFailure>(
            (default_cli_policy(), u),
        ),
{
    lemma_unrelated_run(u);
}

proof fn lemma_unrelated_run(u: Seq<Seq<char>>)
    requires
        forall|i: int| 0 <= i < u.len() ==> token_meaning(#[trigger] u[i]) is Unrelated,
    ensures
        arg_run(u) == (ArgParseState { passthrough: u, ..initial_arg_state() }),
    decreases u.len(),
{
    if u.len() == 0 {
        assert(u =~= Seq::<Seq<char>>::empty());
    } else {
        let p = u.drop_last();
        assert forall|i: int| 0 <= i < p.len() implies token_meaning(#[trigger] p[i]) is Unrelated by {
            assert(p[i] == u[i]);
        }
        lemma_unrelated_run(p);
        assert(token_meaning(u[u.len() - 1]) is Unrelated);
        assert(p.push(u.last()) =~= u);
    }
}


/// The state with `u` inserted into its passthrough at position `m`.
pub open spec fn with_inserted(st: ArgParseState, m: int, u: Seq<char>) -> ArgParseState {
    ArgParseState { passthrough: st.passthrough.insert(m, u), ..st }
}

proof fn lemma_step_with_inserted(st: ArgParseState, m: int, u: Seq<char>, t: Seq<char>)
    requires
        0 <= m <= st.passthrough.len(),
    ensures
        arg_step(with_inserted(st, m, u), t) == with_inserted(arg_step(st, t), m, u),
        m <= arg_step(st, t).passthrough.len(),
{
    if st.failure is None && (st.terminated || (st.pending is None && token_meaning(t) is Unrelated)) {
        assert(st.passthrough.insert(m, u).push(t) =~= st.passthrough.push(t).insert(m, u));
    }
}

proof fn lemma_run_from_with_inserted(st: ArgParseState, m: int, u: Seq<char>, b: Seq<Seq<char>>)
    requires
        0 <= m <= st.passthrough.len(),
    ensures
        arg_run_from(with_inserted(st, m, u), b) == with_inserted(arg_run_from(st, b), m, u),
        m <= arg_run_from(st, b).passthrough.len(),
    decreases b.len(),
{
    if b.len() > 0 {
        lemma_run_from_with_inserted(st, m, u, b.drop_last());
        lemma_step_with_inserted(arg_run_from(st, b.drop_last()), m, u, b.last());
    }
}

/// An argument that is not a shared flag, placed anywhere between flags, is
/// handed to the consumer verbatim, at its place among the other passthrough
/// arguments, and changes nothing else about the parse.
pub proof fn law_unrelated_argument_is_kept_in_place(
    a: Seq<Seq<char>>,
    u: Seq<char>,
    b: Seq<Seq<char>>,
)
    requires
        arg_run(a).is_open(),
        token_meaning(u) is Unrelated,
    ensures
        shared_argv_outcome(a + seq![u] + b) == match shared_argv_outcome(a + b) {
            Ok((policy, passthrough)) => Ok(
                (policy, passthrough.insert(arg_run(a).passthrough.len() as int, u)),
            ),
            Err(e) => Err(e),
        },
{
    let st = arg_run(a);
    let m = st.passthrough.len() as int;
    lemma_arg_run_concat(a + seq![u], b);
    lemma_arg_run_concat(a, seq![u]);
    lemma_arg_run_concat(a, b);
    lemma_arg_run_from_one(st, u);
    assert(st.passthrough.push(u) =~= st.passthrough.insert(m, u));
    assert(arg_step(st, u) == with_inserted(st, m, u));
    lemma_run_from_with_inserted(st, m, u, b);
    let end = arg_run_from(st, b);
    assert(policy_with_slots(with_inserted(end, m, u)) == policy_with_slots(end));
}

/// The passthrough only grows: each state's passthrough extends the one
/// before it.
pub proof fn lemma_passthrough_grows(tokens: Seq<Seq<char>>, j: int, k: int)
    requires
        0 <= j <= k <= tokens.len(),
    ensures
        arg_run(tokens.take(j)).passthrough.len() <= arg_run(tokens.take(k)).passthrough.len(),
        arg_run(tokens.take(k)).passthrough.take(arg_run(tokens.take(j)).passthrough.len() as int)
            == arg_run(tokens.take(j)).passthrough,
    decreases k - j,
{
    let pj = arg_run(tokens.take(j)).passthrough;
    if k == j {
        assert(pj.take(pj.len() as int) =~= pj);
    } else {
        lemma_passthrough_grows(tokens, j, k - 1);
        lemma_arg_run_take_step(tokens, k - 1);
        let before = arg_run(tokens.take(k - 1)).passthrough;
        let after = arg_run(tokens.take(k)).passthrough;
        assert(after == before || after == before.push(tokens[k - 1]));
        assert(after.take(pj.len() as int) =~= before.take(pj.len() as int));
    }
}

/// Every passthrough token is one of the tokens already read.
pub proof fn lemma_passthrough_from_tokens(tokens: Seq<Seq<char>>, j: int, n: int)
    requires
        0 <= j <= tokens.len(),
        0 <= n < arg_run(tokens.take(j)).passthrough.len(),
    ensures
        exists|q: int| 0 <= q < j && arg_run(tokens.take(j)).passthrough[n] == tokens[q],
    decreases j,
{
    if j > 0 {
        lemma_arg_run_take_step(tokens, j - 1);
        let before = arg_run(tokens.take(j - 1)).passthrough;
        let after = arg_run(tokens.take(j)).passthrough;
        assert(after == before || after == before.push(tokens[j - 1]));
        if n < before.len() {
            lemma_passthrough_from_tokens(tokens, j - 1, n);
            let q = choose|q: int| 0 <= q < j - 1 && before[q] == tokens[q];
        } else {
            assert(after[n] == tokens[j - 1]);
        }
    } else {
        assert(tokens.take(0) =~= Seq::<Seq<char>>::empty());
    }
}

/// A token that does not start with `-` is never a shared flag.
pub proof fn lemma_dashless_token_is_unrelated(t: Seq<char>)
    requires
        t.len() > 0,
        t[0] != '-',
    ensures
        token_meaning(t) is Unrelated,
{
    reveal_strlit("--");
    reveal_strlit("--color");
    reveal_strlit("--no-color");
    reveal_strlit("--!color");
    reveal_strlit("--json");
    reveal_strlit("--no-json");
    reveal_strlit("--!json");
    reveal_strlit("--quiet");
    reveal_strlit("--silent");
    reveal_strlit("--output");
    reveal_strlit("--log-level");
    reveal_strlit("--color=");
    reveal_strlit("--output=");
    reveal_strlit("--log-level=");
    assert(t != "--"@) by {
        if t == "--"@ {
            assert(t[0] == "--"@[0]);
        }
    }
    assert(t != "--color"@) by {
        if t == "--color"@ {
            assert(t[0] == "--color"@[0]);
        }
    }
    assert(t != "--no-color"@) by {
        if t == "--no-color"@ {
            assert(t[0] == "--no-color"@[0]);
        }
    }
    assert(t != "--!color"@) by {
        if t == "--!color"@ {
            assert(t[0] == "--!color"@[0]);
        }
    }
    assert(t != "--json"@) by {
        if t == "--json"@ {
            assert(t[0] == "--json"@[0]);
        }
    }
    assert(t != "--no-json"@) by {
        if t == "--no-json"@ {
            assert(t[0] == "--no-json"@[0]);
        }
    }
    assert(t != "--!json"@) by {
        if t == "--!json"@ {
            assert(t[0] == "--!json"@[0]);
        }
    }
    assert(t != "--quiet"@) by {
        if t == "--quiet"@ {
            assert(t[0] == "--quiet"@[0]);
        }
    }
    assert(t != "--silent"@) by {
        if t == "--silent"@ {
            assert(t[0] == "--silent"@[0]);
        }
    }
    assert(t != "--output"@) by {
        if t == "--output"@ {
            assert(t[0] == "--output"@[0]);
        }
    }
    assert(t != "--log-level"@) by {
        if t == "--log-level"@ {
            assert(t[0] == "--log-level"@[0]);
        }
    }
    assert(!"--color="@.is_prefix_of(t)) by {
        if "--color="@.is_prefix_of(t) {
            assert(t[0] == "--color="@[0]);
        }
    }
    assert(!"--output="@.is_prefix_of(t)) by {
        if "--output="@.is_prefix_of(t) {
            assert(t[0] == "--output="@[0]);
        }
    }
    assert(!"--log-level="@.is_prefix_of(t)) by {
        if "--log-level="@.is_prefix_of(t) {
            assert(t[0] == "--log-level="@[0]);
        }
    }
}

/// Whether a policy carries a choice.
pub open spec fn choice_holds(p: CliPolicy, c: SharedChoice) -> bool {
    match c {
        SharedChoice::Output(m) => p.output == m,
        SharedChoice::Color(m) => p.color == m,
        SharedChoice::LogLevel(m) => p.log_level == m,
    }
}

proof fn lemma_slot_step(st: ArgParseState, t: Seq<char>, f: SharedField)
    requires
        st.slot(f) is Some,
    ensures
        arg_step(st, t).failure is Some || arg_step(st, t).slot(f) == st.slot(f),
{
}

proof fn lemma_slot_run(st: ArgParseState, b: Seq<Seq<char>>, f: SharedField)
    requires
        st.slot(f) is Some,
    ensures
        arg_run_from(st, b).failure is Some || arg_run_from(st, b).slot(f) == st.slot(f),
    decreases b.len(),
{
    if b.len() > 0 {
        lemma_slot_run(st, b.drop_last(), f);
        let mid = arg_run_from(st, b.drop_last());
        if mid.failure is None {
            lemma_slot_step(mid, b.last(), f);
        }
    }
}

proof fn lemma_flag_decides(a: Seq<Seq<char>>, x: Seq<char>, b: Seq<Seq<char>>, c: SharedChoice)
    requires
        arg_run(a).is_open(),
        token_meaning(x) == TokenMeaning::Flag(c),
    ensures
        shared_argv_outcome(a + seq![x] + b) matches Ok((p, _)) ==> choice_holds(p, c),
{
    lemma_arg_run_concat(a + seq![x], b);
    lemma_arg_run_concat(a, seq![x]);
    lemma_arg_run_from_one(arg_run(a), x);
    let st = arg_step(arg_run(a), x);
    let f = choice_field(c);
    if st.failure is None {
        assert(st.slot(f) matches Some((k, _)) && k == c);
        lemma_slot_run(st, b, f);
    } else {
        lemma_arg_run_from_failed(st, b);
    }
}

/// Each shorthand flag makes the choice its name documents, wherever it
/// stands between flags: `--color` colors, `--no-color` and `--!color` turn
/// color off, `--json` selects JSON, `--no-json` and `--!json` select human
/// output, `--quiet` selects the quiet threshold and `--silent` the silent
/// one. A parse that succeeds carries that choice, whatever comes around it.
pub proof fn law_shorthand_flags_make_their_documented_choice(a: Seq<Seq<char>>, b: Seq<Seq<char>>)
    requires
        arg_run(a).is_open(),
    ensures
        shared_argv_outcome(a + seq!["--color"@] + b) matches Ok((p, _)) ==> p.color
            == ColorMode::Always,
        shared_argv_outcome(a + seq!["--no-color"@] + b) matches Ok((p, _)) ==> p.color
            == ColorMode::Never,
        shared_argv_outcome(a + seq!["--!color"@] + b) matches Ok((p, _)) ==> p.color
            == ColorMode::Never,
        shared_argv_outcome(a + seq!["--json"@] + b) matches Ok((p, _)) ==> p.output
            == OutputMode::Json,
        shared_argv_outcome(a + seq!["--no-json"@] + b) matches Ok((p, _)) ==> p.output
            == OutputMode::Human,
        shared_argv_outcome(a + seq!["--!json"@] + b) matches Ok((p, _)) ==> p.output
            == OutputMode::Human,
        shared_argv_outcome(a + seq!["--quiet"@] + b) matches Ok((p, _)) ==> p.log_level
            == LogLevel::Quiet,
        shared_argv_outcome(a + seq!["--silent"@] + b) matches Ok((p, _)) ==> p.log_level
            == LogLevel::Silent,
{
    reveal_strlit("--");
    reveal_strlit("--color");
    reveal_strlit("--no-color");
    reveal_strlit("--!color");
    reveal_strlit("--json");
    reveal_strlit("--no-json");
    reveal_strlit("--!json");
    reveal_strlit("--quiet");
    reveal_strlit("--silent");
    assert("--!json"@ != "--color"@) by {
        assert("--!json"@[2] != "--color"@[2]);
    }
    assert("--quiet"@ != "--color"@) by {
        assert("--quiet"@[2] != "--color"@[2]);
    }
    assert("--quiet"@ != "--!json"@) by {
        assert("--quiet"@[2] != "--!json"@[2]);
    }
    assert("--silent"@ != "--!color"@) by {
        assert("--silent"@[2] != "--!color"@[2]);
    }
    lemma_flag_decides(a, "--color"@, b, SharedChoice::Color(ColorMode::Always));
    lemma_flag_decides(a, "--no-color"@, b, SharedChoice::Color(ColorMode::Never));
    lemma_flag_decides(a, "--!color"@, b, SharedChoice::Color(ColorMode::Never));
    lemma_flag_decides(a, "--json"@, b, SharedChoice::Output(OutputMode::Json));
    lemma_flag_decides(a, "--no-json"@, b, SharedChoice::Output(OutputMode::Human));
    lemma_flag_decides(a, "--!json"@, b, SharedChoice::Output(OutputMode::Human));
    lemma_flag_decides(a, "--quiet"@, b, SharedChoice::LogLevel(LogLevel::Quiet));
    lemma_flag_decides(a, "--silent"@, b, SharedChoice::LogLevel(LogLevel::Silent));
}

} // verus!
