//! Output format, color, and log-level policy, and its resolution against the
//! terminal and environment snapshot of a process.
use vstd::prelude::*;
use vstd::string::StringExecFns;

use crate::shutdown::enabled_from_spelling;
use crate::text::{
    ascii_lower_seq, chars_of, normalized, normalized_equals, owned, trim_bounds, trim_whitespace,
};

verus! {

/// Desired color behavior for human-readable streams.
#[derive(Debug, Clone, Copy, PartialEq, Eq, Structural)]
pub enum ColorMode {
    /// Enable color only for terminal streams, unless `NO_COLOR` is present.
    Auto,
    /// Force color for human-readable output, even when redirected.
    Always,
    /// Never emit ANSI color sequences.
    Never,
}

/// Desired primary output format.
#[derive(Debug, Clone, Copy, PartialEq, Eq, Structural)]
pub enum OutputMode {
    /// Human on a terminal; JSON when stdout is redirected or piped.
    Auto,
    /// Force human-readable output.
    Human,
    /// Force newline-delimited JSON/structured output.
    Json,
}

/// Shared log threshold, from least to most verbose.
#[derive(Debug, Clone, Copy, PartialEq, Eq, PartialOrd, Ord, Structural)]
pub enum LogLevel {
    /// Suppress all log/progress records.
    Silent,
    /// Emit only errors. Kept as a distinct user-facing compatibility level.
    Quiet,
    /// Emit errors only.
    Error,
    /// Emit warnings and errors.
    Warn,
    /// Emit normal lifecycle messages, warnings, and errors.
    Info,
    /// Emit debug diagnostics too.
    Debug,
    /// Emit every record, including high-volume trace diagnostics.
    Trace,
}

impl Default for ColorMode {
    fn default() -> (r: Self)
        ensures
            r == ColorMode::Auto,
    {
        ColorMode::Auto
    }
}

impl Default for OutputMode {
    fn default() -> (r: Self)
        ensures
            r == OutputMode::Auto,
    {
        OutputMode::Auto
    }
}

impl Default for LogLevel {
    fn default() -> (r: Self)
        ensures
            r == LogLevel::Info,
    {
        LogLevel::Info
    }
}

/// Error returned by a shared policy value parser.
#[derive(Debug, Clone, PartialEq, Eq)]
pub struct ParsePolicyError {
    field: &'static str,
    value: String,
    expected: &'static str,
}

/// The rendered message of a policy value error.
pub open spec fn policy_error_message(field: Seq<char>, value: Seq<char>, expected: Seq<char>) -> Seq<
    char,
> {
    "invalid --"@ + field + " value `"@ + value + "`; expected "@ + expected
}

impl ParsePolicyError {
    /// The policy field whose value was rejected (`color`, `output`, `log-level`).
    pub closed spec fn field_view(&self) -> Seq<char> {
        self.field@
    }

    /// The rejected value, exactly as given.
    pub closed spec fn value_view(&self) -> Seq<char> {
        self.value@
    }

    /// Human-readable description of the accepted values.
    pub closed spec fn expected_view(&self) -> Seq<char> {
        self.expected@
    }

    fn new(field: &'static str, value: &str, expected: &'static str) -> (r: Self)
        ensures
            r.field_view() == field@,
            r.value_view() == value@,
            r.expected_view() == expected@,
    {
        ParsePolicyError { field, value: owned(value), expected }
    }

    /// The message `invalid --FIELD value `VALUE`; expected EXPECTED`.
    pub fn to_string(&self) -> (r: String)
        ensures
            r@ == policy_error_message(self.field_view(), self.value_view(), self.expected_view()),
    {
        let mut r = String::from_str("invalid --");
        r.append(self.field);
        r.append(" value `");
        r.append(self.value.as_str());
        r.append("`; expected ");
        r.append(self.expected);
        r
    }
}

/// Accepted spellings of a color mode, compared after trimming and ASCII
/// lowercasing.
pub open spec fn color_mode_from_spelling(s: Seq<char>) -> Option<ColorMode> {
    let n = normalized(s);
    if n == "auto"@ {
        Some(ColorMode::Auto)
    } else if n == "always"@ || n == "on"@ || n == "true"@ || n == "yes"@ || n == "1"@ {
        Some(ColorMode::Always)
    } else if n == "never"@ || n == "off"@ || n == "false"@ || n == "no"@ || n == "0"@ {
        Some(ColorMode::Never)
    } else {
        None
    }
}

/// Accepted spellings of an output mode, compared after trimming and ASCII
/// lowercasing.
pub open spec fn output_mode_from_spelling(s: Seq<char>) -> Option<OutputMode> {
    let n = normalized(s);
    if n == "auto"@ {
        Some(OutputMode::Auto)
    } else if n == "human"@ || n == "plain"@ || n == "text"@ {
        Some(OutputMode::Human)
    } else if n == "json"@ || n == "ndjson"@ || n == "structured"@ {
        Some(OutputMode::Json)
    } else {
        None
    }
}

/// Accepted spellings of a log level, compared after trimming and ASCII
/// lowercasing.
pub open spec fn log_level_from_spelling(s: Seq<char>) -> Option<LogLevel> {
    let n = normalized(s);
    if n == "silent"@ || n == "off"@ || n == "none"@ {
        Some(LogLevel::Silent)
    } else if n == "quiet"@ {
        Some(LogLevel::Quiet)
    } else if n == "error"@ || n == "err"@ {
        Some(LogLevel::Error)
    } else if n == "warn"@ || n == "warning"@ {
        Some(LogLevel::Warn)
    } else if n == "info"@ {
        Some(LogLevel::Info)
    } else if n == "debug"@ {
        Some(LogLevel::Debug)
    } else if n == "trace"@ {
        Some(LogLevel::Trace)
    } else {
        None
    }
}

impl ColorMode {
    /// Parse a color mode (`auto`, `always`, `never` and their aliases).
    pub fn parse(value: &str) -> (r: Result<ColorMode, ParsePolicyError>)
        ensures
            r is Ok <==> color_mode_from_spelling(value@) is Some,
            r matches Ok(m) ==> color_mode_from_spelling(value@) == Some(m),
            r matches Err(e) ==> e.field_view() == "color"@ && e.value_view() == value@
                && e.expected_view() == "auto, always, or never"@,
    {
        let v = chars_of(value);
        if normalized_equals(&v, "auto") {
            Ok(ColorMode::Auto)
        } else if normalized_equals(&v, "always") || normalized_equals(&v, "on")
            || normalized_equals(&v, "true") || normalized_equals(&v, "yes")
            || normalized_equals(&v, "1") {
            Ok(ColorMode::Always)
        } else if normalized_equals(&v, "never") || normalized_equals(&v, "off")
            || normalized_equals(&v, "false") || normalized_equals(&v, "no")
            || normalized_equals(&v, "0") {
            Ok(ColorMode::Never)
        } else {
            Err(ParsePolicyError::new("color", value, "auto, always, or never"))
        }
    }
}

impl OutputMode {
    /// Parse an output mode (`auto`, `human`, `json` and their aliases).
    pub fn parse(value: &str) -> (r: Result<OutputMode, ParsePolicyError>)
        ensures
            r is Ok <==> output_mode_from_spelling(value@) is Some,
            r matches Ok(m) ==> output_mode_from_spelling(value@) == Some(m),
            r matches Err(e) ==> e.field_view() == "output"@ && e.value_view() == value@
                && e.expected_view() == "auto, human, or json"@,
    {
        let v = chars_of(value);
        if normalized_equals(&v, "auto") {
            Ok(OutputMode::Auto)
        } else if normalized_equals(&v, "human") || normalized_equals(&v, "plain")
            || normalized_equals(&v, "text") {
            Ok(OutputMode::Human)
        } else if normalized_equals(&v, "json") || normalized_equals(&v, "ndjson")
            || normalized_equals(&v, "structured") {
            Ok(OutputMode::Json)
        } else {
            Err(ParsePolicyError::new("output", value, "auto, human, or json"))
        }
    }
}

impl std::str::FromStr for ColorMode {
    type Err = ParsePolicyError;

    fn from_str(value: &str) -> (r: Result<ColorMode, ParsePolicyError>)
        ensures
            r is Ok <==> color_mode_from_spelling(value@) is Some,
            r matches Ok(m) ==> color_mode_from_spelling(value@) == Some(m),
            r matches Err(e) ==> e.field_view() == "color"@ && e.value_view() == value@
                && e.expected_view() == "auto, always, or never"@,
    {
        ColorMode::parse(value)
    }
}

impl std::str::FromStr for OutputMode {
    type Err = ParsePolicyError;

    fn from_str(value: &str) -> (r: Result<OutputMode, ParsePolicyError>)
        ensures
            r is Ok <==> output_mode_from_spelling(value@) is Some,
            r matches Ok(m) ==> output_mode_from_spelling(value@) == Some(m),
            r matches Err(e) ==> e.field_view() == "output"@ && e.value_view() == value@
                && e.expected_view() == "auto, human, or json"@,
    {
        OutputMode::parse(value)
    }
}

impl std::str::FromStr for LogLevel {
    type Err = ParsePolicyError;

    fn from_str(value: &str) -> (r: Result<LogLevel, ParsePolicyError>)
        ensures
            r is Ok <==> log_level_from_spelling(value@) is Some,
            r matches Ok(m) ==> log_level_from_spelling(value@) == Some(m),
            r matches Err(e) ==> e.field_view() == "log-level"@ && e.value_view() == value@
                && e.expected_view() == "silent, quiet, error, warn, info, debug, or trace"@,
    {
        LogLevel::parse(value)
    }
}

/// Whether a threshold admits a record at the given level.
pub open spec fn level_allows(threshold: LogLevel, record: LogLevel) -> bool {
    match threshold {
        LogLevel::Silent => false,
        LogLevel::Quiet | LogLevel::Error => record == LogLevel::Error,
        LogLevel::Warn => record == LogLevel::Error || record == LogLevel::Warn,
        LogLevel::Info => record == LogLevel::Error || record == LogLevel::Warn || record
            == LogLevel::Info,
        LogLevel::Debug => !(record == LogLevel::Silent || record == LogLevel::Quiet || record
            == LogLevel::Trace),
        LogLevel::Trace => !(record == LogLevel::Silent || record == LogLevel::Quiet),
    }
}

/// Position of a level in the verbosity order `Silent < Quiet < ... < Trace`.
pub open spec fn level_rank(level: LogLevel) -> int {
    match level {
        LogLevel::Silent => 0,
        LogLevel::Quiet => 1,
        LogLevel::Error => 2,
        LogLevel::Warn => 3,
        LogLevel::Info => 4,
        LogLevel::Debug => 5,
        LogLevel::Trace => 6,
    }
}

/// Canonical lowercase spelling of a log level.
pub open spec fn level_spelling(level: LogLevel) -> Seq<char> {
    match level {
        LogLevel::Silent => "silent"@,
        LogLevel::Quiet => "quiet"@,
        LogLevel::Error => "error"@,
        LogLevel::Warn => "warn"@,
        LogLevel::Info => "info"@,
        LogLevel::Debug => "debug"@,
        LogLevel::Trace => "trace"@,
    }
}

impl LogLevel {
    /// Returns whether a record at `record_level` should be emitted.
    pub fn allows(self, record_level: Self) -> (r: bool)
        ensures
            r == level_allows(self, record_level),
    {
        match self {
            LogLevel::Silent => false,
            LogLevel::Quiet | LogLevel::Error => record_level == LogLevel::Error,
            LogLevel::Warn => record_level == LogLevel::Error || record_level == LogLevel::Warn,
            LogLevel::Info => record_level == LogLevel::Error || record_level == LogLevel::Warn
                || record_level == LogLevel::Info,
            LogLevel::Debug => !(record_level == LogLevel::Silent || record_level
                == LogLevel::Quiet || record_level == LogLevel::Trace),
            LogLevel::Trace => !(record_level == LogLevel::Silent || record_level
                == LogLevel::Quiet),
        }
    }

    /// Canonical lowercase wire/display spelling.
    pub fn as_str(self) -> (r: &'static str)
        ensures
            r@ == level_spelling(self),
    {
        match self {
            LogLevel::Silent => "silent",
            LogLevel::Quiet => "quiet",
            LogLevel::Error => "error",
            LogLevel::Warn => "warn",
            LogLevel::Info => "info",
            LogLevel::Debug => "debug",
            LogLevel::Trace => "trace",
        }
    }

    /// Parse a log level (`silent`, `quiet`, `error`, `warn`, `info`, `debug`,
    /// `trace` and their aliases).
    pub fn parse(value: &str) -> (r: Result<LogLevel, ParsePolicyError>)
        ensures
            r is Ok <==> log_level_from_spelling(value@) is Some,
            r matches Ok(m) ==> log_level_from_spelling(value@) == Some(m),
            r matches Err(e) ==> e.field_view() == "log-level"@ && e.value_view() == value@
                && e.expected_view() == "silent, quiet, error, warn, info, debug, or trace"@,
    {
        let v = chars_of(value);
        if normalized_equals(&v, "silent") || normalized_equals(&v, "off")
            || normalized_equals(&v, "none") {
            Ok(LogLevel::Silent)
        } else if normalized_equals(&v, "quiet") {
            Ok(LogLevel::Quiet)
        } else if normalized_equals(&v, "error") || normalized_equals(&v, "err") {
            Ok(LogLevel::Error)
        } else if normalized_equals(&v, "warn") || normalized_equals(&v, "warning") {
            Ok(LogLevel::Warn)
        } else if normalized_equals(&v, "info") {
            Ok(LogLevel::Info)
        } else if normalized_equals(&v, "debug") {
            Ok(LogLevel::Debug)
        } else if normalized_equals(&v, "trace") {
            Ok(LogLevel::Trace)
        } else {
            Err(
                ParsePolicyError::new(
                    "log-level",
                    value,
                    "silent, quiet, error, warn, info, debug, or trace",
                ),
            )
        }
    }
}

proof fn lemma_plain_lowercase_is_normalized(s: Seq<char>)
    requires
        s.len() > 0,
        forall|i: int| 0 <= i < s.len() ==> 'a' <= #[trigger] s[i] <= 'z',
    ensures
        normalized(s) == s,
{
    assert(trim_whitespace(s) == s);
    assert(ascii_lower_seq(s) =~= s);
}

/// Every level's canonical spelling parses back to that level.
pub proof fn law_level_spelling_round_trips(level: LogLevel)
    ensures
        log_level_from_spelling(level_spelling(level)) == Some(level),
{
    reveal_strlit("silent");
    reveal_strlit("quiet");
    reveal_strlit("error");
    reveal_strlit("warn");
    reveal_strlit("info");
    reveal_strlit("debug");
    reveal_strlit("trace");
    reveal_strlit("off");
    reveal_strlit("none");
    reveal_strlit("err");
    reveal_strlit("warning");
    let s = level_spelling(level);
    lemma_plain_lowercase_is_normalized(s);
}

/// A threshold admits a record exactly when the record is a real record level
/// (not `silent` or `quiet`, which exist only as thresholds) no more verbose
/// than the threshold; `quiet` filters as `error` does.
pub proof fn law_threshold_admits_only_less_verbose_records(threshold: LogLevel, record: LogLevel)
    ensures
        threshold != LogLevel::Quiet ==> (level_allows(threshold, record) <==> (record
            != LogLevel::Silent && record != LogLevel::Quiet && level_rank(record) <= level_rank(
            threshold,
        ))),
        level_allows(LogLevel::Quiet, record) == level_allows(LogLevel::Error, record),
        level_allows(threshold, record) ==> level_rank(record) <= level_rank(threshold)
            || threshold == LogLevel::Quiet,
{
}

/// A more verbose threshold admits every record a less verbose one admits.
pub proof fn law_log_threshold_is_monotone(lower: LogLevel, higher: LogLevel, record: LogLevel)
    requires
        level_rank(lower) <= level_rank(higher),
        level_allows(lower, record),
    ensures
        level_allows(higher, record),
{
}

/// Records at the `Silent` and `Quiet` levels are never emitted, whatever the
/// threshold; they exist only as thresholds.
pub proof fn law_silent_and_quiet_records_never_emit(threshold: LogLevel)
    ensures
        !level_allows(threshold, LogLevel::Silent),
        !level_allows(threshold, LogLevel::Quiet),
{
}

/// The `Quiet` compatibility threshold admits exactly what `Error` admits, and
/// `Silent` admits nothing.
pub proof fn law_quiet_matches_error_and_silent_admits_nothing(record: LogLevel)
    ensures
        level_allows(LogLevel::Quiet, record) == level_allows(LogLevel::Error, record),
        !level_allows(LogLevel::Silent, record),
{
}

/// Semantic terminal color roles shared across CLIs.
///
/// Consumers choose a role rather than a literal ANSI sequence so the palette
/// can evolve centrally without changing command semantics.
#[derive(Debug, Clone, Copy, PartialEq, Eq, Structural)]
pub enum ColorRole {
    /// Successful/healthy state.
    Success,
    /// Warning or degraded state.
    Warning,
    /// Error or failed state.
    Error,
    /// Informational labels and values.
    Info,
    /// Debug diagnostics.
    Debug,
    /// High-volume trace diagnostics.
    Trace,
    /// Headings and important labels.
    Emphasis,
    /// Secondary/de-emphasized text.
    Muted,
}

/// The SGR escape sequence that opens a role's styling.
pub open spec fn role_sequence(role: ColorRole) -> Seq<char> {
    match role {
        ColorRole::Success => "\u{1b}[32m"@,
        ColorRole::Warning => "\u{1b}[33m"@,
        ColorRole::Error => "\u{1b}[31m"@,
        ColorRole::Info => "\u{1b}[36m"@,
        ColorRole::Debug => "\u{1b}[35m"@,
        ColorRole::Trace => "\u{1b}[2m"@,
        ColorRole::Emphasis => "\u{1b}[1m"@,
        ColorRole::Muted => "\u{1b}[2m"@,
    }
}

/// The SGR sequence that resets styling.
pub open spec fn reset_sequence() -> Seq<char> {
    "\u{1b}[0m"@
}

/// What `paint` renders.
pub open spec fn painted(enabled: bool, role: ColorRole, value: Seq<char>) -> Seq<char> {
    if enabled {
        role_sequence(role) + value + reset_sequence()
    } else {
        value
    }
}

impl ColorRole {
    fn ansi_prefix(self) -> (r: &'static str)
        ensures
            r@ == role_sequence(self),
    {
        match self {
            ColorRole::Success => "\u{1b}[32m",
            ColorRole::Warning => "\u{1b}[33m",
            ColorRole::Error => "\u{1b}[31m",
            ColorRole::Info => "\u{1b}[36m",
            ColorRole::Debug => "\u{1b}[35m",
            ColorRole::Trace => "\u{1b}[2m",
            ColorRole::Emphasis => "\u{1b}[1m",
            ColorRole::Muted => "\u{1b}[2m",
        }
    }
}

/// Render a semantic role with ANSI escapes when color is enabled.
///
/// This intentionally owns only styling, not output routing. Callers decide
/// whether to pass `RuntimePolicy::color_stdout()` or `color_stderr()`.
pub fn paint(enabled: bool, role: ColorRole, value: &str) -> (r: String)
    ensures
        r@ == painted(enabled, role, value@),
{
    if enabled {
        let mut r = String::from_str(role.ansi_prefix());
        r.append(value);
        r.append("\u{1b}[0m");
        r
    } else {
        owned(value)
    }
}

/// Immutable terminal capabilities captured once at process startup.
#[derive(Debug, Clone, Copy, PartialEq, Eq, Structural)]
pub struct TerminalState {
    /// Whether stdin is attached to a terminal.
    pub stdin_tty: bool,
    /// Whether stdout is attached to a terminal.
    pub stdout_tty: bool,
    /// Whether stderr is attached to a terminal.
    pub stderr_tty: bool,
}

impl TerminalState {
    /// Build a snapshot from explicit stdin/stdout/stderr terminal flags.
    pub fn new(stdin_tty: bool, stdout_tty: bool, stderr_tty: bool) -> (r: Self)
        ensures
            r == (TerminalState { stdin_tty, stdout_tty, stderr_tty }),
    {
        TerminalState { stdin_tty, stdout_tty, stderr_tty }
    }
}

/// Relevant environment hints for cross-tool CLI behavior.
#[derive(Debug, Clone, Copy, PartialEq, Eq, Structural)]
pub struct EnvironmentHints {
    /// Automatic color is disabled (`NO_COLOR`, a false `CLICOLOR`, or `TERM=dumb`).
    pub no_color: bool,
    /// `CLICOLOR_FORCE` or `FORCE_COLOR` requests color when nonzero/nonempty.
    pub force_color: bool,
}

impl Default for EnvironmentHints {
    fn default() -> (r: Self)
        ensures
            r == (EnvironmentHints { no_color: false, force_color: false }),
    {
        EnvironmentHints { no_color: false, force_color: false }
    }
}

/// Whether an environment value requests something: non-empty after trimming,
/// and not one of the false spellings `0`, `false`, `no`, `off`.
pub open spec fn env_value_truthy_spec(v: Seq<char>) -> bool {
    let n = normalized(v);
    n.len() > 0 && !(n == "0"@ || n == "false"@ || n == "no"@ || n == "off"@)
}

/// Whether an environment value is truthy (see `env_value_truthy_spec`).
pub fn env_value_truthy(value: &str) -> (r: bool)
    ensures
        r == env_value_truthy_spec(value@),
{
    let c = chars_of(value);
    let (start, end) = trim_bounds(&c);
    proof {
        assert(normalized(c@).len() == (end - start));
    }
    start < end && !(normalized_equals(&c, "0") || normalized_equals(&c, "false")
        || normalized_equals(&c, "no") || normalized_equals(&c, "off"))
}

/// Whether an optional environment value is set and truthy.
pub open spec fn optional_truthy(value: Option<Seq<char>>) -> bool {
    match value {
        Some(v) => env_value_truthy_spec(v),
        None => false,
    }
}

/// Whether an optional `CLICOLOR` value is one of the false spellings.
pub open spec fn clicolor_disables(value: Option<Seq<char>>) -> bool {
    match value {
        Some(v) => {
            let n = normalized(v);
            n == "0"@ || n == "false"@ || n == "no"@ || n == "off"@
        },
        None => false,
    }
}

/// Whether an optional `TERM` value is `dumb`.
pub open spec fn term_is_dumb(value: Option<Seq<char>>) -> bool {
    match value {
        Some(v) => v == "dumb"@,
        None => false,
    }
}

/// View of an optional string slice.
pub open spec fn opt_view(value: Option<&str>) -> Option<Seq<char>> {
    match value {
        Some(v) => Some(v@),
        None => None,
    }
}

fn clicolor_disables_exec(value: Option<&str>) -> (r: bool)
    ensures
        r == clicolor_disables(opt_view(value)),
{
    match value {
        Some(v) => {
            let c = chars_of(v);
            normalized_equals(&c, "0") || normalized_equals(&c, "false") || normalized_equals(
                &c,
                "no",
            ) || normalized_equals(&c, "off")
        },
        None => false,
    }
}

fn optional_truthy_exec(value: Option<&str>) -> (r: bool)
    ensures
        r == optional_truthy(opt_view(value)),
{
    match value {
        Some(v) => env_value_truthy(v),
        None => false,
    }
}

/// The color mode parser reads the switch spellings as the signal switch
/// does: a spelling that turns a switch on (`1`, `true`, `yes`, `on`) forces
/// color, one that turns it off (`0`, `false`, `no`, `off`) disables it, and
/// besides those only `always`, `never` and `auto` are accepted.
pub proof fn law_color_spellings_follow_the_switch_spellings(v: Seq<char>)
    ensures
        color_mode_from_spelling(v) == Some(ColorMode::Always) <==> (enabled_from_spelling(v)
            == Some(true) || normalized(v) == "always"@),
        color_mode_from_spelling(v) == Some(ColorMode::Never) <==> (enabled_from_spelling(v)
            == Some(false) || normalized(v) == "never"@),
        color_mode_from_spelling(v) == Some(ColorMode::Auto) <==> normalized(v) == "auto"@,
{
    reveal_strlit("0");
    reveal_strlit("false");
    reveal_strlit("no");
    reveal_strlit("off");
    reveal_strlit("1");
    reveal_strlit("true");
    reveal_strlit("yes");
    reveal_strlit("on");
    reveal_strlit("auto");
    reveal_strlit("always");
    reveal_strlit("never");
    assert("0"@ != "false"@) by {
        assert("0"@.len() != "false"@.len());
    }
    assert("0"@ != "no"@) by {
        assert("0"@.len() != "no"@.len());
    }
    assert("0"@ != "off"@) by {
        assert("0"@.len() != "off"@.len());
    }
    assert("0"@ != "1"@) by {
        assert("0"@[0] != "1"@[0]);
    }
    assert("0"@ != "true"@) by {
        assert("0"@.len() != "true"@.len());
    }
    assert("0"@ != "yes"@) by {
        assert("0"@.len() != "yes"@.len());
    }
    assert("0"@ != "on"@) by {
        assert("0"@.len() != "on"@.len());
    }
    assert("0"@ != "auto"@) by {
        assert("0"@.len() != "auto"@.len());
    }
    assert("0"@ != "always"@) by {
        assert("0"@.len() != "always"@.len());
    }
    assert("0"@ != "never"@) by {
        assert("0"@.len() != "never"@.len());
    }
    assert("false"@ != "no"@) by {
        assert("false"@.len() != "no"@.len());
    }
    assert("false"@ != "off"@) by {
        assert("false"@.len() != "off"@.len());
    }
    assert("false"@ != "1"@) by {
        assert("false"@.len() != "1"@.len());
    }
    assert("false"@ != "true"@) by {
        assert("false"@.len() != "true"@.len());
    }
    assert("false"@ != "yes"@) by {
        assert("false"@.len() != "yes"@.len());
    }
    assert("false"@ != "on"@) by {
        assert("false"@.len() != "on"@.len());
    }
    assert("false"@ != "auto"@) by {
        assert("false"@.len() != "auto"@.len());
    }
    assert("false"@ != "always"@) by {
        assert("false"@.len() != "always"@.len());
    }
    assert("false"@ != "never"@) by {
        assert("false"@[0] != "never"@[0]);
    }
    assert("no"@ != "off"@) by {
        assert("no"@.len() != "off"@.len());
    }
    assert("no"@ != "1"@) by {
        assert("no"@.len() != "1"@.len());
    }
    assert("no"@ != "true"@) by {
        assert("no"@.len() != "true"@.len());
    }
    assert("no"@ != "yes"@) by {
        assert("no"@.len() != "yes"@.len());
    }
    assert("no"@ != "on"@) by {
        assert("no"@[0] != "on"@[0]);
    }
    assert("no"@ != "auto"@) by {
        assert("no"@.len() != "auto"@.len());
    }
    assert("no"@ != "always"@) by {
        assert("no"@.len() != "always"@.len());
    }
    assert("no"@ != "never"@) by {
        assert("no"@.len() != "never"@.len());
    }
    assert("off"@ != "1"@) by {
        assert("off"@.len() != "1"@.len());
    }
    assert("off"@ != "true"@) by {
        assert("off"@.len() != "true"@.len());
    }
    assert("off"@ != "yes"@) by {
        assert("off"@[0] != "yes"@[0]);
    }
    assert("off"@ != "on"@) by {
        assert("off"@.len() != "on"@.len());
    }
    assert("off"@ != "auto"@) by {
        assert("off"@.len() != "auto"@.len());
    }
    assert("off"@ != "always"@) by {
        assert("off"@.len() != "always"@.len());
    }
    assert("off"@ != "never"@) by {
        assert("off"@.len() != "never"@.len());
    }
    assert("1"@ != "true"@) by {
        assert("1"@.len() != "true"@.len());
    }
    assert("1"@ != "yes"@) by {
        assert("1"@.len() != "yes"@.len());
    }
    assert("1"@ != "on"@) by {
        assert("1"@.len() != "on"@.len());
    }
    assert("1"@ != "auto"@) by {
        assert("1"@.len() != "auto"@.len());
    }
    assert("1"@ != "always"@) by {
        assert("1"@.len() != "always"@.len());
    }
    assert("1"@ != "never"@) by {
        assert("1"@.len() != "never"@.len());
    }
    assert("true"@ != "yes"@) by {
        assert("true"@.len() != "yes"@.len());
    }
    assert("true"@ != "on"@) by {
        assert("true"@.len() != "on"@.len());
    }
    assert("true"@ != "auto"@) by {
        assert("true"@[0] != "auto"@[0]);
    }
    assert("true"@ != "always"@) by {
        assert("true"@.len() != "always"@.len());
    }
    assert("true"@ != "never"@) by {
        assert("true"@.len() != "never"@.len());
    }
    assert("yes"@ != "on"@) by {
        assert("yes"@.len() != "on"@.len());
    }
    assert("yes"@ != "auto"@) by {
        assert("yes"@.len() != "auto"@.len());
    }
    assert("yes"@ != "always"@) by {
        assert("yes"@.len() != "always"@.len());
    }
    assert("yes"@ != "never"@) by {
        assert("yes"@.len() != "never"@.len());
    }
    assert("on"@ != "auto"@) by {
        assert("on"@.len() != "auto"@.len());
    }
    assert("on"@ != "always"@) by {
        assert("on"@.len() != "always"@.len());
    }
    assert("on"@ != "never"@) by {
        assert("on"@.len() != "never"@.len());
    }
    assert("auto"@ != "always"@) by {
        assert("auto"@.len() != "always"@.len());
    }
    assert("auto"@ != "never"@) by {
        assert("auto"@.len() != "never"@.len());
    }
    assert("always"@ != "never"@) by {
        assert("always"@.len() != "never"@.len());
    }
}

/// An environment switch is truthy exactly when it is not blank and is not
/// one of the spellings the signal switch reads as off (`0`, `false`, `no`,
/// `off`, in any case and surrounded by whitespace); so a `CLICOLOR` value
/// that disables color never also forces it.
pub proof fn law_false_spellings_are_not_truthy(v: Seq<char>)
    ensures
        env_value_truthy_spec(v) == (normalized(v).len() > 0 && enabled_from_spelling(v) != Some(
            false,
        )),
        clicolor_disables(Some(v)) ==> !optional_truthy(Some(v)),
        clicolor_disables(Some(v)) == (enabled_from_spelling(v) == Some(false)),
{
    reveal_strlit("0");
    reveal_strlit("false");
    reveal_strlit("no");
    reveal_strlit("off");
    reveal_strlit("1");
    reveal_strlit("true");
    reveal_strlit("yes");
    reveal_strlit("on");
    assert("1"@ != "0"@) by {
        assert("1"@[0] != "0"@[0]);
    }
    assert("on"@ != "no"@) by {
        assert("on"@[0] != "no"@[0]);
    }
    assert("yes"@ != "off"@) by {
        assert("yes"@[0] != "off"@[0]);
    }
}

impl EnvironmentHints {
    /// Derive the hints from the raw values of `NO_COLOR` (presence only),
    /// `CLICOLOR`, `CLICOLOR_FORCE`, `FORCE_COLOR`, and `TERM`; `None` means the
    /// variable is unset.
    pub fn from_values(
        no_color_present: bool,
        clicolor: Option<&str>,
        clicolor_force: Option<&str>,
        force_color: Option<&str>,
        term: Option<&str>,
    ) -> (r: Self)
        ensures
            r.no_color == (no_color_present || clicolor_disables(opt_view(clicolor))
                || term_is_dumb(opt_view(term))),
            r.force_color == (optional_truthy(opt_view(clicolor_force)) || optional_truthy(
                opt_view(force_color),
            )),
    {
        let dumb = match term {
            Some(t) => crate::text::str_equals(t, "dumb"),
            None => false,
        };
        let no_color = no_color_present || clicolor_disables_exec(clicolor) || dumb;
        let force_color = optional_truthy_exec(clicolor_force) || optional_truthy_exec(
            force_color,
        );
        EnvironmentHints { no_color, force_color }
    }
}

/// Parser-agnostic user preferences. `--color` maps to `Always`, `--no-color`
/// maps to `Never`, `--json` maps to `Json`, and `--no-json` maps to `Human`.
#[derive(Debug, Clone, Copy, PartialEq, Eq, Structural)]
pub struct CliPolicy {
    /// Requested output format.
    pub output: OutputMode,
    /// Requested color policy.
    pub color: ColorMode,
    /// Requested log threshold.
    pub log_level: LogLevel,
}

/// The policy when nothing was requested explicitly.
pub open spec fn default_cli_policy() -> CliPolicy {
    CliPolicy { output: OutputMode::Auto, color: ColorMode::Auto, log_level: LogLevel::Info }
}

impl Default for CliPolicy {
    fn default() -> (r: Self)
        ensures
            r == default_cli_policy(),
    {
        CliPolicy { output: OutputMode::Auto, color: ColorMode::Auto, log_level: LogLevel::Info }
    }
}

/// The output mode a requested mode resolves to for the given stdout.
pub open spec fn resolve_output(requested: OutputMode, stdout_tty: bool) -> OutputMode {
    match requested {
        OutputMode::Auto => if stdout_tty {
            OutputMode::Human
        } else {
            OutputMode::Json
        },
        explicit => explicit,
    }
}

/// Whether color is allowed on a stream with the given terminal state.
pub open spec fn color_for_stream(color: ColorMode, env: EnvironmentHints, stream_tty: bool) -> bool {
    match color {
        ColorMode::Never => false,
        ColorMode::Always => true,
        ColorMode::Auto => if env.no_color {
            false
        } else if env.force_color {
            true
        } else {
            stream_tty
        },
    }
}

/// An explicitly requested output mode is kept whatever the terminal; only
/// `Auto` looks at stdout, choosing human output on a terminal and JSON when
/// stdout is redirected.
pub proof fn law_explicit_output_is_kept(requested: OutputMode, stdout_tty: bool)
    ensures
        requested != OutputMode::Auto ==> resolve_output(requested, stdout_tty) == requested,
        requested == OutputMode::Auto ==> (resolve_output(requested, stdout_tty) == OutputMode::Human
            <==> stdout_tty),
        resolve_output(requested, stdout_tty) != OutputMode::Auto,
{
}

impl CliPolicy {
    /// Resolve parser-level preferences against terminals and environment.
    pub fn resolve(self, terminals: TerminalState, env: EnvironmentHints) -> (r: RuntimePolicy)
        ensures
            r.resolved_output() == resolve_output(self.output, terminals.stdout_tty),
            r.resolved_output() != OutputMode::Auto,
            r.requested_color() == self.color,
            r.resolved_log_level() == self.log_level,
            r.terminals() == terminals,
            r.env() == env,
    {
        let output = match self.output {
            OutputMode::Auto => if terminals.stdout_tty {
                OutputMode::Human
            } else {
                OutputMode::Json
            },
            explicit => explicit,
        };
        RuntimePolicy { output, color: self.color, log_level: self.log_level, terminals, env }
    }
}

/// Fully resolved process runtime policy.
#[derive(Debug, Clone, Copy, PartialEq, Eq)]
pub struct RuntimePolicy {
    output: OutputMode,
    color: ColorMode,
    log_level: LogLevel,
    terminals: TerminalState,
    env: EnvironmentHints,
}

impl RuntimePolicy {
    /// Resolved primary output mode.
    pub closed spec fn resolved_output(self) -> OutputMode {
        self.output
    }

    /// Requested color mode.
    pub closed spec fn requested_color(self) -> ColorMode {
        self.color
    }

    /// Resolved log threshold.
    pub closed spec fn resolved_log_level(self) -> LogLevel {
        self.log_level
    }

    /// Terminal snapshot the policy was resolved against.
    pub closed spec fn terminals(self) -> TerminalState {
        self.terminals
    }

    /// Environment hints the policy was resolved against.
    pub closed spec fn env(self) -> EnvironmentHints {
        self.env
    }

    /// Whether primary stdout may carry color.
    pub open spec fn stdout_color_allowed(self) -> bool {
        self.resolved_output() != OutputMode::Json && color_for_stream(
            self.requested_color(),
            self.env(),
            self.terminals().stdout_tty,
        )
    }

    /// Whether stderr diagnostics may carry color.
    pub open spec fn stderr_color_allowed(self) -> bool {
        color_for_stream(self.requested_color(), self.env(), self.terminals().stderr_tty)
    }

    /// Resolved primary output mode (`Human` or `Json`; never `Auto`).
    pub fn output_mode(self) -> (r: OutputMode)
        ensures
            r == self.resolved_output(),
    {
        self.output
    }

    /// Resolved log level.
    pub fn log_level(self) -> (r: LogLevel)
        ensures
            r == self.resolved_log_level(),
    {
        self.log_level
    }

    /// Whether primary stdout should be structured JSON/NDJSON.
    pub fn json(self) -> (r: bool)
        ensures
            r == (self.resolved_output() == OutputMode::Json),
    {
        self.output == OutputMode::Json
    }

    /// Whether color is allowed on primary stdout.
    ///
    /// Structured stdout is a wire format: it never carries ANSI escapes, even
    /// when color was requested explicitly.
    pub fn color_stdout(self) -> (r: bool)
        ensures
            r == self.stdout_color_allowed(),
            self.resolved_output() == OutputMode::Json ==> !r,
    {
        !self.json() && self.color_for_stream(self.terminals.stdout_tty)
    }

    /// Whether color is allowed on stderr diagnostics.
    ///
    /// Stderr is independent from stdout's structured output mode, so `tool |
    /// jq` can retain colored diagnostics on an attached terminal without
    /// corrupting the JSON pipe.
    pub fn color_stderr(self) -> (r: bool)
        ensures
            r == self.stderr_color_allowed(),
    {
        self.color_for_stream(self.terminals.stderr_tty)
    }

    /// Whether a log/progress record should be emitted.
    pub fn allows_log(self, level: LogLevel) -> (r: bool)
        ensures
            r == level_allows(self.resolved_log_level(), level),
    {
        self.log_level.allows(level)
    }

    fn color_for_stream(self, stream_tty: bool) -> (r: bool)
        ensures
            r == color_for_stream(self.color, self.env, stream_tty),
    {
        match self.color {
            ColorMode::Never => false,
            ColorMode::Always => true,
            ColorMode::Auto => if self.env.no_color {
                false
            } else if self.env.force_color {
                true
            } else {
                stream_tty
            },
        }
    }
}

/// An explicit color choice outranks every environment hint and terminal
/// state: `Always` colors stderr and any human stdout, `Never` colors nothing.
pub proof fn law_explicit_color_outranks_environment(runtime: RuntimePolicy)
    requires
        runtime.resolved_output() != OutputMode::Auto,
    ensures
        runtime.requested_color() == ColorMode::Always ==> runtime.stderr_color_allowed()
            && runtime.stdout_color_allowed() == (runtime.resolved_output() == OutputMode::Human),
        runtime.requested_color() == ColorMode::Never ==> !runtime.stderr_color_allowed()
            && !runtime.stdout_color_allowed(),
{
}

/// Automatic color on a stream follows that stream's terminal state alone
/// when no environment hint is present; `NO_COLOR` (or its equivalents)
/// turns automatic color off on both streams, and a force hint without it
/// turns automatic color on for stderr and any human stdout.
pub proof fn law_auto_color_follows_each_stream(runtime: RuntimePolicy)
    requires
        runtime.requested_color() == ColorMode::Auto,
        runtime.resolved_output() != OutputMode::Auto,
    ensures
        !runtime.env().no_color && !runtime.env().force_color ==> {
            &&& runtime.stderr_color_allowed() == runtime.terminals().stderr_tty
            &&& runtime.resolved_output() == OutputMode::Human ==> runtime.stdout_color_allowed()
                == runtime.terminals().stdout_tty
        },
        runtime.env().no_color ==> !runtime.stderr_color_allowed() && !runtime.stdout_color_allowed(),
        !runtime.env().no_color && runtime.env().force_color ==> runtime.stderr_color_allowed()
            && runtime.stdout_color_allowed() == (runtime.resolved_output() == OutputMode::Human),
{
}

/// Diagnostics color never depends on the primary output mode: two
/// resolutions that differ at most in their output mode color stderr alike.
pub proof fn law_stderr_color_ignores_output_mode(ra: RuntimePolicy, rb: RuntimePolicy)
    requires
        ra.requested_color() == rb.requested_color(),
        ra.terminals() == rb.terminals(),
        ra.env() == rb.env(),
    ensures
        ra.stderr_color_allowed() == rb.stderr_color_allowed(),
{
}

} // verus!
