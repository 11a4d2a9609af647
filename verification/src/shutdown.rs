//! Opt-in SIGINT/SIGTERM/Ctrl-D shutdown policy.
//!
//! The decisions of the policy live here as state machines: what one signal or
//! one stdin read means, and whether an installation call installs anything.
//! The platform layer delivers signals and stdin reads and performs what these
//! machines decide.
use vstd::prelude::*;
use vstd::string::StringExecFns;

use crate::policy::TerminalState;
use crate::text::{chars_of, debug_quote, debug_string_literal, normalized, normalized_equals, owned};

verus! {

/// Environment switch read when building options from the environment.
///
/// Accepted enabled values are `1`, `true`, `yes`, and `on`. Accepted disabled
/// values are `0`, `false`, `no`, and `off`. Installation is enabled by
/// default when this variable is absent, but no signal behavior changes unless
/// a setup function is actually called by the consumer.
pub const SIGNAL_HANDLERS_ENV: &'static str = "ORES_CLIS_SIGNAL_HANDLERS";

/// Optional environment override for the TTY requirement used by SIGINT.
///
/// Accepted values are `stdin`, `stdin+stdout`, `stdin+stderr`, and `all`.
/// Every mode deliberately requires stdin because Ctrl-D is an stdin EOF
/// gesture and must never be advertised when stdin itself is redirected.
pub const SIGNAL_TTY_REQUIREMENT_ENV: &'static str = "ORES_CLIS_SIGNAL_TTY_REQUIREMENT";

/// Additional TTYs that may be required before SIGINT enters interactive mode.
///
/// stdin is always required. stdout/stderr can be added when a CLI wants the
/// Ctrl-D confirmation behavior only while those streams are terminal-backed
/// too.
#[derive(Debug, Clone, Copy, PartialEq, Eq, Structural)]
pub enum TtyRequirement {
    /// stdin must be a TTY. This is the default and is normally the right choice.
    Stdin,
    /// stdin and stdout must both be TTYs.
    StdinAndStdout,
    /// stdin and stderr must both be TTYs.
    StdinAndStderr,
    /// stdin, stdout, and stderr must all be TTYs.
    All,
}

impl Default for TtyRequirement {
    fn default() -> (r: Self)
        ensures
            r == TtyRequirement::Stdin,
    {
        TtyRequirement::Stdin
    }
}

/// Whether a terminal snapshot meets a requirement.
pub open spec fn tty_requirement_met(requirement: TtyRequirement, t: TerminalState) -> bool {
    match requirement {
        TtyRequirement::Stdin => t.stdin_tty,
        TtyRequirement::StdinAndStdout => t.stdin_tty && t.stdout_tty,
        TtyRequirement::StdinAndStderr => t.stdin_tty && t.stderr_tty,
        TtyRequirement::All => t.stdin_tty && t.stdout_tty && t.stderr_tty,
    }
}

/// Accepted spellings of a TTY requirement, compared after trimming and ASCII
/// lowercasing.
pub open spec fn tty_requirement_from_spelling(s: Seq<char>) -> Option<TtyRequirement> {
    let n = normalized(s);
    if n == "stdin"@ {
        Some(TtyRequirement::Stdin)
    } else if n == "stdin+stdout"@ {
        Some(TtyRequirement::StdinAndStdout)
    } else if n == "stdin+stderr"@ {
        Some(TtyRequirement::StdinAndStderr)
    } else if n == "all"@ || n == "stdin+stdout+stderr"@ {
        Some(TtyRequirement::All)
    } else {
        None
    }
}

/// Accepted spellings of the installation switch.
pub open spec fn enabled_from_spelling(s: Seq<char>) -> Option<bool> {
    let n = normalized(s);
    if n == "1"@ || n == "true"@ || n == "yes"@ || n == "on"@ {
        Some(true)
    } else if n == "0"@ || n == "false"@ || n == "no"@ || n == "off"@ {
        Some(false)
    } else {
        None
    }
}

/// Failure while parsing configuration or installing platform signal handling.
#[derive(Debug, Clone, PartialEq, Eq)]
pub enum SignalHandlerError {
    /// A signal environment variable had an unsupported value.
    InvalidEnvironment {
        /// Environment variable name.
        variable: &'static str,
        /// Rejected value.
        value: String,
        /// Human-readable accepted-value description.
        expected: &'static str,
    },
    /// The operating-system signal handler or its worker thread could not start.
    Install {
        /// Platform/runtime error description.
        message: String,
    },
    /// The target platform is neither Unix nor Windows.
    UnsupportedPlatform,
}

/// A signal configuration failure over character sequences.
pub enum SignalHandlerFailure {
    /// Rejected environment value.
    InvalidEnvironment { variable: Seq<char>, value: Seq<char>, expected: Seq<char> },
    /// Platform installation failure.
    Install { message: Seq<char> },
    /// Unsupported platform.
    UnsupportedPlatform,
}

impl View for SignalHandlerError {
    type V = SignalHandlerFailure;

    open spec fn view(&self) -> SignalHandlerFailure {
        match self {
            SignalHandlerError::InvalidEnvironment { variable, value, expected } =>
                SignalHandlerFailure::InvalidEnvironment {
                variable: variable@,
                value: value@,
                expected: expected@,
            },
            SignalHandlerError::Install { message } => SignalHandlerFailure::Install {
                message: message@,
            },
            SignalHandlerError::UnsupportedPlatform => SignalHandlerFailure::UnsupportedPlatform,
        }
    }
}

/// The rendered message of a signal configuration failure.
pub open spec fn signal_failure_message(e: SignalHandlerFailure) -> Seq<char> {
    match e {
        SignalHandlerFailure::InvalidEnvironment { variable, value, expected } => "invalid "@
            + variable + " value "@ + debug_string_literal(value) + "; expected "@ + expected,
        SignalHandlerFailure::Install { message } => "failed to install signal handlers: "@
            + message,
        SignalHandlerFailure::UnsupportedPlatform =>
            "signal handlers are unsupported on this target platform"@,
    }
}

/// The message for a rejected environment value, given the value already
/// quoted: `invalid VARIABLE value QUOTED; expected EXPECTED`.
pub fn invalid_environment_message(variable: &str, quoted: &str, expected: &str) -> (r: String)
    ensures
        r@ == "invalid "@ + variable@ + " value "@ + quoted@ + "; expected "@ + expected@,
{
    let mut r = String::from_str("invalid ");
    r.append(variable);
    r.append(" value ");
    r.append(quoted);
    r.append("; expected ");
    r.append(expected);
    r
}

impl SignalHandlerError {
    /// Human-readable description of the failure.
    pub fn to_string(&self) -> (r: String)
        ensures
            r@ == signal_failure_message(self@),
    {
        match self {
            SignalHandlerError::InvalidEnvironment { variable, value, expected } => {
                let quoted = debug_quote(value.as_str());
                invalid_environment_message(variable, quoted.as_str(), expected)
            },
            SignalHandlerError::Install { message } => {
                let mut r = String::from_str("failed to install signal handlers: ");
                r.append(message.as_str());
                r
            },
            SignalHandlerError::UnsupportedPlatform => owned(
                "signal handlers are unsupported on this target platform",
            ),
        }
    }
}

impl TtyRequirement {
    /// Whether the terminal snapshot meets this requirement.
    pub fn is_satisfied(self, terminals: TerminalState) -> (r: bool)
        ensures
            r == tty_requirement_met(self, terminals),
            r ==> terminals.stdin_tty,
    {
        match self {
            TtyRequirement::Stdin => terminals.stdin_tty,
            TtyRequirement::StdinAndStdout => terminals.stdin_tty && terminals.stdout_tty,
            TtyRequirement::StdinAndStderr => terminals.stdin_tty && terminals.stderr_tty,
            TtyRequirement::All => terminals.stdin_tty && terminals.stdout_tty
                && terminals.stderr_tty,
        }
    }

    /// Parse a requirement (`stdin`, `stdin+stdout`, `stdin+stderr`, `all`).
    pub fn parse(value: &str) -> (r: Result<TtyRequirement, SignalHandlerError>)
        ensures
            r is Ok <==> tty_requirement_from_spelling(value@) is Some,
            r matches Ok(m) ==> tty_requirement_from_spelling(value@) == Some(m),
            r matches Err(e) ==> e@ == (SignalHandlerFailure::InvalidEnvironment {
                variable: SIGNAL_TTY_REQUIREMENT_ENV@,
                value: value@,
                expected: "stdin, stdin+stdout, stdin+stderr, or all"@,
            }),
    {
        let v = chars_of(value);
        if normalized_equals(&v, "stdin") {
            Ok(TtyRequirement::Stdin)
        } else if normalized_equals(&v, "stdin+stdout") {
            Ok(TtyRequirement::StdinAndStdout)
        } else if normalized_equals(&v, "stdin+stderr") {
            Ok(TtyRequirement::StdinAndStderr)
        } else if normalized_equals(&v, "all") || normalized_equals(&v, "stdin+stdout+stderr") {
            Ok(TtyRequirement::All)
        } else {
            Err(
                SignalHandlerError::InvalidEnvironment {
                    variable: SIGNAL_TTY_REQUIREMENT_ENV,
                    value: owned(value),
                    expected: "stdin, stdin+stdout, stdin+stderr, or all",
                },
            )
        }
    }
}

impl std::str::FromStr for TtyRequirement {
    type Err = SignalHandlerError;

    fn from_str(value: &str) -> (r: Result<TtyRequirement, SignalHandlerError>)
        ensures
            r is Ok <==> tty_requirement_from_spelling(value@) is Some,
            r matches Ok(m) ==> tty_requirement_from_spelling(value@) == Some(m),
            r matches Err(e) ==> e@ == (SignalHandlerFailure::InvalidEnvironment {
                variable: SIGNAL_TTY_REQUIREMENT_ENV@,
                value: value@,
                expected: "stdin, stdin+stdout, stdin+stderr, or all"@,
            }),
    {
        TtyRequirement::parse(value)
    }
}

/// Parse the installation switch (`1/true/yes/on` or `0/false/no/off`).
pub fn parse_enabled(value: &str) -> (r: Result<bool, SignalHandlerError>)
    ensures
        r is Ok <==> enabled_from_spelling(value@) is Some,
        r matches Ok(b) ==> enabled_from_spelling(value@) == Some(b),
        r matches Err(e) ==> e@ == (SignalHandlerFailure::InvalidEnvironment {
            variable: SIGNAL_HANDLERS_ENV@,
            value: value@,
            expected: "1/true/yes/on or 0/false/no/off"@,
        }),
{
    let v = chars_of(value);
    if normalized_equals(&v, "1") || normalized_equals(&v, "true") || normalized_equals(&v, "yes")
        || normalized_equals(&v, "on") {
        Ok(true)
    } else if normalized_equals(&v, "0") || normalized_equals(&v, "false") || normalized_equals(
        &v,
        "no",
    ) || normalized_equals(&v, "off") {
        Ok(false)
    } else {
        Err(
            SignalHandlerError::InvalidEnvironment {
                variable: SIGNAL_HANDLERS_ENV,
                value: owned(value),
                expected: "1/true/yes/on or 0/false/no/off",
            },
        )
    }
}

/// Reason passed to a custom shutdown callback.
#[derive(Debug, Clone, Copy, PartialEq, Eq, Structural)]
pub enum ShutdownReason {
    /// SIGINT, or the platform's Ctrl-C equivalent, requested shutdown.
    SigInt,
    /// SIGTERM requested shutdown.
    SigTerm,
    /// Ctrl-D/EOF on stdin confirmed an interactive shutdown.
    CtrlD,
}

/// Conventional exit code of a reason: `128 + signal` for SIGINT (2) and
/// SIGTERM (15), and a clean `0` for a confirmed Ctrl-D.
pub open spec fn exit_code_for(reason: ShutdownReason) -> int {
    match reason {
        ShutdownReason::SigInt => 128int + 2int,
        ShutdownReason::SigTerm => 128int + 15int,
        ShutdownReason::CtrlD => 0int,
    }
}

/// Lowercase name of a reason.
pub open spec fn reason_spelling(reason: ShutdownReason) -> Seq<char> {
    match reason {
        ShutdownReason::SigInt => "sigint"@,
        ShutdownReason::SigTerm => "sigterm"@,
        ShutdownReason::CtrlD => "ctrl-d"@,
    }
}

impl ShutdownReason {
    /// Conventional process exit code used by the default shutdown callback.
    ///
    /// Interactive Ctrl-D is treated as an intentional clean shutdown; direct
    /// SIGINT and SIGTERM use the conventional `128 + signal` Unix codes.
    pub fn conventional_exit_code(self) -> (r: i32)
        ensures
            r == exit_code_for(self),
    {
        match self {
            ShutdownReason::SigInt => 130,
            ShutdownReason::SigTerm => 143,
            ShutdownReason::CtrlD => 0,
        }
    }

    /// Lowercase name (`sigint`, `sigterm`, `ctrl-d`).
    pub fn as_str(self) -> (r: &'static str)
        ensures
            r@ == reason_spelling(self),
    {
        match self {
            ShutdownReason::SigInt => "sigint",
            ShutdownReason::SigTerm => "sigterm",
            ShutdownReason::CtrlD => "ctrl-d",
        }
    }
}

/// A lifecycle action: begin draining, or escalate an already-started drain,
/// each with the signal or terminal reason that caused it.
#[derive(Debug, Clone, Copy, PartialEq, Eq, Structural)]
pub enum ShutdownAction {
    /// Begin graceful draining.
    Drain(ShutdownReason),
    /// Escalate an already-started drain.
    Force(ShutdownReason),
}

impl ShutdownAction {
    /// Whether this is an escalation.
    pub fn is_force(self) -> (r: bool)
        ensures
            r == (self is Force),
    {
        match self {
            ShutdownAction::Drain(_) => false,
            ShutdownAction::Force(_) => true,
        }
    }

    /// The reason carried by the action.
    pub fn reason(self) -> (r: ShutdownReason)
        ensures
            r == match self {
                ShutdownAction::Drain(reason) => reason,
                ShutdownAction::Force(reason) => reason,
            },
    {
        match self {
            ShutdownAction::Drain(reason) => reason,
            ShutdownAction::Force(reason) => reason,
        }
    }
}

/// Snapshot and switches used when signal handling is installed.
#[derive(Debug, Clone, Copy, PartialEq, Eq, Structural)]
pub struct SignalHandlerOptions {
    enabled: bool,
    tty_requirement: TtyRequirement,
    terminals: TerminalState,
}

/// Result of looking up an environment variable.
#[derive(Debug, Clone, PartialEq, Eq)]
pub enum EnvLookup {
    /// The variable is not set.
    NotPresent,
    /// The variable holds a UTF-8 value.
    Present(String),
    /// The variable holds a value that is not UTF-8; carries its lossy form.
    NotUnicode(String),
}

/// A lookup over character sequences.
pub enum EnvLookupView {
    /// Not set.
    NotPresent,
    /// Set to a UTF-8 value.
    Present(Seq<char>),
    /// Set to a non-UTF-8 value, shown lossily.
    NotUnicode(Seq<char>),
}

impl View for EnvLookup {
    type V = EnvLookupView;

    open spec fn view(&self) -> EnvLookupView {
        match self {
            EnvLookup::NotPresent => EnvLookupView::NotPresent,
            EnvLookup::Present(v) => EnvLookupView::Present(v@),
            EnvLookup::NotUnicode(v) => EnvLookupView::NotUnicode(v@),
        }
    }
}

/// What a configuration lookup contributes: nothing when unset, the value
/// when set, a failure when the value is not UTF-8.
pub open spec fn lookup_value(name: Seq<char>, lookup: EnvLookupView) -> Result<
    Option<Seq<char>>,
    SignalHandlerFailure,
> {
    match lookup {
        EnvLookupView::NotPresent => Ok(None),
        EnvLookupView::Present(v) => Ok(Some(v)),
        EnvLookupView::NotUnicode(v) => Err(
            SignalHandlerFailure::InvalidEnvironment {
                variable: name,
                value: v,
                expected: "valid UTF-8 configuration"@,
            },
        ),
    }
}

/// The options built from a terminal snapshot and the two switches.
pub open spec fn options_outcome(
    terminals: TerminalState,
    handlers: EnvLookupView,
    tty: EnvLookupView,
) -> Result<(bool, TtyRequirement, TerminalState), SignalHandlerFailure> {
    match lookup_value(SIGNAL_HANDLERS_ENV@, handlers) {
        Err(e) => Err(e),
        Ok(h) => {
            let enabled: Result<bool, SignalHandlerFailure> = match h {
                None => Ok(true),
                Some(v) => match enabled_from_spelling(v) {
                    Some(b) => Ok(b),
                    None => Err(
                        SignalHandlerFailure::InvalidEnvironment {
                            variable: SIGNAL_HANDLERS_ENV@,
                            value: v,
                            expected: "1/true/yes/on or 0/false/no/off"@,
                        },
                    ),
                },
            };
            match enabled {
                Err(e) => Err(e),
                Ok(enabled) => match lookup_value(SIGNAL_TTY_REQUIREMENT_ENV@, tty) {
                    Err(e) => Err(e),
                    Ok(None) => Ok((enabled, TtyRequirement::Stdin, terminals)),
                    Ok(Some(v)) => match tty_requirement_from_spelling(v) {
                        Some(req) => Ok((enabled, req, terminals)),
                        None => Err(
                            SignalHandlerFailure::InvalidEnvironment {
                                variable: SIGNAL_TTY_REQUIREMENT_ENV@,
                                value: v,
                                expected: "stdin, stdin+stdout, stdin+stderr, or all"@,
                            },
                        ),
                    },
                },
            }
        },
    }
}

fn read_lookup(name: &'static str, lookup: EnvLookup) -> (r: Result<Option<String>, SignalHandlerError>)
    ensures
        match lookup_value(name@, lookup@) {
            Ok(None) => r matches Ok(None),
            Ok(Some(v)) => r matches Ok(Some(s)) && s@ == v,
            Err(e) => r matches Err(x) && x@ == e,
        },
{
    match lookup {
        EnvLookup::NotPresent => Ok(None),
        EnvLookup::Present(value) => Ok(Some(value)),
        EnvLookup::NotUnicode(value) => Err(
            SignalHandlerError::InvalidEnvironment {
                variable: name,
                value,
                expected: "valid UTF-8 configuration",
            },
        ),
    }
}

impl SignalHandlerOptions {
    /// Whether installation is enabled.
    pub closed spec fn enabled_view(self) -> bool {
        self.enabled
    }

    /// The TTY requirement for interactive SIGINT.
    pub closed spec fn requirement_view(self) -> TtyRequirement {
        self.tty_requirement
    }

    /// The terminal snapshot.
    pub closed spec fn terminals_view(self) -> TerminalState {
        self.terminals
    }

    /// Construct enabled options from an already-captured terminal snapshot.
    pub fn new(terminals: TerminalState) -> (r: Self)
        ensures
            r.enabled_view(),
            r.requirement_view() == TtyRequirement::Stdin,
            r.terminals_view() == terminals,
    {
        SignalHandlerOptions { enabled: true, tty_requirement: TtyRequirement::Stdin, terminals }
    }

    /// Enable or disable installation explicitly.
    pub fn with_enabled(self, enabled: bool) -> (r: Self)
        ensures
            r.enabled_view() == enabled,
            r.requirement_view() == self.requirement_view(),
            r.terminals_view() == self.terminals_view(),
    {
        let mut r = self;
        r.enabled = enabled;
        r
    }

    /// Require additional TTY-backed streams before SIGINT becomes interactive.
    pub fn with_tty_requirement(self, tty_requirement: TtyRequirement) -> (r: Self)
        ensures
            r.enabled_view() == self.enabled_view(),
            r.requirement_view() == tty_requirement,
            r.terminals_view() == self.terminals_view(),
    {
        let mut r = self;
        r.tty_requirement = tty_requirement;
        r
    }

    /// Whether installation is enabled.
    pub fn enabled(self) -> (r: bool)
        ensures
            r == self.enabled_view(),
    {
        self.enabled
    }

    /// Build options from a terminal snapshot and the lookups of the
    /// installation switch and the TTY requirement override.
    pub fn from_env(terminals: TerminalState, handlers: EnvLookup, tty: EnvLookup) -> (r:
        Result<Self, SignalHandlerError>)
        ensures
            match options_outcome(terminals, handlers@, tty@) {
                Ok((enabled, requirement, t)) => r matches Ok(o) && o.enabled_view() == enabled
                    && o.requirement_view() == requirement && o.terminals_view() == t,
                Err(e) => r matches Err(x) && x@ == e,
            },
    {
        let mut options = SignalHandlerOptions::new(terminals);
        match read_lookup(SIGNAL_HANDLERS_ENV, handlers) {
            Err(e) => {
                return Err(e);
            },
            Ok(None) => {},
            Ok(Some(value)) => match parse_enabled(value.as_str()) {
                Ok(b) => {
                    options.enabled = b;
                },
                Err(e) => {
                    return Err(e);
                },
            },
        }
        match read_lookup(SIGNAL_TTY_REQUIREMENT_ENV, tty) {
            Err(e) => {
                return Err(e);
            },
            Ok(None) => {},
            Ok(Some(value)) => match TtyRequirement::parse(value.as_str()) {
                Ok(req) => {
                    options.tty_requirement = req;
                },
                Err(e) => {
                    return Err(e);
                },
            },
        }
        Ok(options)
    }

    /// Return whether SIGINT should use Ctrl-D confirmation for this snapshot.
    pub fn interactive_sigint(self) -> (r: bool)
        ensures
            r == tty_requirement_met(self.requirement_view(), self.terminals_view()),
            r ==> self.terminals_view().stdin_tty,
    {
        self.tty_requirement.is_satisfied(self.terminals)
    }
}

/// Ctrl-D guidance is never used unless stdin is a terminal, whatever
/// requirement is configured, and stricter requirements only ever narrow the
/// default stdin requirement.
pub proof fn law_interactive_sigint_requires_tty_stdin(
    requirement: TtyRequirement,
    t: TerminalState,
)
    ensures
        tty_requirement_met(requirement, t) ==> t.stdin_tty,
        tty_requirement_met(requirement, t) ==> tty_requirement_met(TtyRequirement::Stdin, t),
        tty_requirement_met(TtyRequirement::All, t) ==> tty_requirement_met(requirement, t),
{
}

/// Each requirement is met exactly when stdin and the streams it names are
/// terminals, and depends on no other stream: `stdin+stdout` ignores stderr,
/// `stdin+stderr` ignores stdout, and `all` asks for both.
pub proof fn law_tty_requirement_names_its_streams(t: TerminalState)
    ensures
        tty_requirement_met(TtyRequirement::Stdin, t) == t.stdin_tty,
        tty_requirement_met(TtyRequirement::StdinAndStdout, t) == (t.stdin_tty && t.stdout_tty),
        tty_requirement_met(TtyRequirement::StdinAndStderr, t) == (t.stdin_tty && t.stderr_tty),
        tty_requirement_met(TtyRequirement::All, t) == (tty_requirement_met(
            TtyRequirement::StdinAndStdout,
            t,
        ) && tty_requirement_met(TtyRequirement::StdinAndStderr, t)),
        tty_requirement_met(TtyRequirement::StdinAndStdout, t) == tty_requirement_met(
            TtyRequirement::StdinAndStdout,
            TerminalState { stderr_tty: !t.stderr_tty, ..t },
        ),
        tty_requirement_met(TtyRequirement::StdinAndStderr, t) == tty_requirement_met(
            TtyRequirement::StdinAndStderr,
            TerminalState { stdout_tty: !t.stdout_tty, ..t },
        ),
{
}

/// Result of attempting to install the shared signal policy.
#[derive(Debug, Clone, Copy, PartialEq, Eq, Structural)]
pub enum SignalHandlerStatus {
    /// Handlers were installed for this process.
    Installed,
    /// Installation was disabled by configuration/environment.
    Disabled,
    /// The shared handlers were already installed by an earlier call.
    AlreadyInstalled,
}

/// Lowercase name of a status.
pub open spec fn status_spelling(status: SignalHandlerStatus) -> Seq<char> {
    match status {
        SignalHandlerStatus::Installed => "installed"@,
        SignalHandlerStatus::Disabled => "disabled"@,
        SignalHandlerStatus::AlreadyInstalled => "already-installed"@,
    }
}

impl SignalHandlerStatus {
    /// Lowercase name (`installed`, `disabled`, `already-installed`).
    pub fn as_str(self) -> (r: &'static str)
        ensures
            r@ == status_spelling(self),
    {
        match self {
            SignalHandlerStatus::Installed => "installed",
            SignalHandlerStatus::Disabled => "disabled",
            SignalHandlerStatus::AlreadyInstalled => "already-installed",
        }
    }
}

/// The process-wide installation slot: at most one enabled setup call
/// installs handlers; a failed platform installation frees the slot again.
#[derive(Debug)]
pub struct SignalInstallRegistry {
    installed: bool,
}

/// What a setup call must do.
#[derive(Debug, Clone, Copy, PartialEq, Eq, Structural)]
pub enum InstallStep {
    /// Report this status without installing anything.
    Report(SignalHandlerStatus),
    /// Install the platform handlers, with this interactive SIGINT mode.
    Install { interactive: bool },
}

/// The registry's answer to a setup call: the next slot state and the step.
pub open spec fn install_step(installed: bool, enabled: bool, interactive: bool) -> (bool, InstallStep) {
    if !enabled {
        (installed, InstallStep::Report(SignalHandlerStatus::Disabled))
    } else if installed {
        (installed, InstallStep::Report(SignalHandlerStatus::AlreadyInstalled))
    } else {
        (true, InstallStep::Install { interactive })
    }
}

impl View for SignalInstallRegistry {
    type V = bool;

    closed spec fn view(&self) -> bool {
        self.installed
    }
}

impl SignalInstallRegistry {
    /// A registry with nothing installed.
    pub fn new() -> (r: Self)
        ensures
            !r@,
    {
        SignalInstallRegistry { installed: false }
    }

    /// Decide what a setup call with these options does, claiming the slot
    /// when it installs.
    pub fn begin(&mut self, options: SignalHandlerOptions) -> (r: InstallStep)
        ensures
            (final(self)@, r) == install_step(
                old(self)@,
                options.enabled_view(),
                tty_requirement_met(options.requirement_view(), options.terminals_view()),
            ),
    {
        if !options.enabled() {
            return InstallStep::Report(SignalHandlerStatus::Disabled);
        }
        if self.installed {
            return InstallStep::Report(SignalHandlerStatus::AlreadyInstalled);
        }
        self.installed = true;
        InstallStep::Install { interactive: options.interactive_sigint() }
    }

    /// Free the slot after the platform handler could not be installed.
    pub fn abandon(&mut self)
        ensures
            !final(self)@,
    {
        self.installed = false;
    }

    /// Whether handlers are installed.
    pub fn is_installed(&self) -> (r: bool)
        ensures
            r == self@,
    {
        self.installed
    }
}

/// Install the shared signal policy through `install_platform_handler`, which
/// receives the interactive SIGINT mode and sets up the operating-system side.
///
/// A disabled call reports `Disabled` and installs nothing; a call after a
/// successful installation reports `AlreadyInstalled`; in both cases the
/// installer is not run (nothing asks it to accept those calls). Otherwise the
/// platform installer runs once, with the interactive SIGINT mode, and its
/// failure is returned with the slot freed again.
pub fn setup_signal_handlers_with<F>(
    registry: &mut SignalInstallRegistry,
    options: SignalHandlerOptions,
    install_platform_handler: F,
) -> (r: Result<SignalHandlerStatus, SignalHandlerError>) where
    F: FnOnce(bool) -> Result<(), SignalHandlerError>,

    requires
        options.enabled_view() && !old(registry)@ ==> call_requires(
            install_platform_handler,
            (tty_requirement_met(options.requirement_view(), options.terminals_view()),),
        ),
    ensures
        !options.enabled_view() ==> r == Ok::<SignalHandlerStatus, SignalHandlerError>(
            SignalHandlerStatus::Disabled,
        ) && final(registry)@ == old(registry)@,
        options.enabled_view() && old(registry)@ ==> r == Ok::<
            SignalHandlerStatus,
            SignalHandlerError,
        >(SignalHandlerStatus::AlreadyInstalled) && final(registry)@,
        options.enabled_view() && !old(registry)@ ==> match r {
            Ok(status) => status == SignalHandlerStatus::Installed && final(registry)@ && call_ensures(
                install_platform_handler,
                (tty_requirement_met(options.requirement_view(), options.terminals_view()),),
                Ok::<(), SignalHandlerError>(()),
            ),
            Err(e) => !final(registry)@ && call_ensures(
                install_platform_handler,
                (tty_requirement_met(options.requirement_view(), options.terminals_view()),),
                Err::<(), SignalHandlerError>(e),
            ),
        },
{
    match registry.begin(options) {
        InstallStep::Report(status) => Ok(status),
        InstallStep::Install { interactive } => {
            let outcome = install_platform_handler(interactive);
            match outcome {
                Ok(unit) => {
                    assert(unit == ());
                    Ok(SignalHandlerStatus::Installed)
                },
                Err(e) => {
                    registry.abandon();
                    Err(e)
                },
            }
        },
    }
}

/// A disabled setup call never touches the slot, so an enabled call after it
/// still installs; and once a call installed the handlers every later enabled
/// call reports them as already installed: repeated setup is idempotent.
pub proof fn law_setup_is_idempotent(installed: bool, interactive: bool)
    ensures
        install_step(installed, false, interactive) == (
            installed,
            InstallStep::Report(SignalHandlerStatus::Disabled),
        ),
        install_step(install_step(installed, true, interactive).0, true, interactive).1
            == InstallStep::Report(SignalHandlerStatus::AlreadyInstalled),
        install_step(install_step(false, false, interactive).0, true, interactive).1
            == (InstallStep::Install { interactive }),
{
}

/// One delivered signal.
#[derive(Debug, Clone, Copy, PartialEq, Eq, Structural)]
pub enum SignalEvent {
    /// SIGINT, or the platform's Ctrl-C equivalent.
    Interrupt,
    /// SIGTERM.
    Terminate,
}

/// What one read of stdin by the Ctrl-D waiter produced.
#[derive(Debug, Clone, PartialEq, Eq)]
pub enum StdinRead {
    /// `count` bytes were read; `first_byte` is the first of them (`0` bytes
    /// means end of input).
    Data { count: usize, first_byte: u8 },
    /// The read was interrupted and may be retried.
    Interrupted,
    /// The read failed; carries the error's description.
    Failed(String),
}

/// A stdin read over character sequences.
pub enum StdinReadView {
    /// Bytes read.
    Data { count: nat, first_byte: u8 },
    /// Interrupted.
    Interrupted,
    /// Failed with a description.
    Failed(Seq<char>),
}

impl View for StdinRead {
    type V = StdinReadView;

    open spec fn view(&self) -> StdinReadView {
        match self {
            StdinRead::Data { count, first_byte } => StdinReadView::Data {
                count: *count as nat,
                first_byte: *first_byte,
            },
            StdinRead::Interrupted => StdinReadView::Interrupted,
            StdinRead::Failed(e) => StdinReadView::Failed(e@),
        }
    }
}

/// What the platform layer must do after one event.
#[derive(Debug, Clone, PartialEq, Eq)]
pub struct SignalReaction {
    /// A diagnostic line for stderr.
    pub notice: Option<String>,
    /// Start the Ctrl-D waiter on stdin.
    pub start_ctrl_d_waiter: bool,
    /// Invoke the shutdown callback with this reason.
    pub shutdown: Option<ShutdownReason>,
    /// The Ctrl-D waiter has finished and stops reading.
    pub waiter_done: bool,
}

/// A reaction over character sequences.
pub struct ReactionView {
    /// Diagnostic line.
    pub notice: Option<Seq<char>>,
    /// Start the Ctrl-D waiter.
    pub start_ctrl_d_waiter: bool,
    /// Callback reason.
    pub shutdown: Option<ShutdownReason>,
    /// The waiter stops.
    pub waiter_done: bool,
}

impl View for SignalReaction {
    type V = ReactionView;

    open spec fn view(&self) -> ReactionView {
        ReactionView {
            notice: match self.notice {
                Some(n) => Some(n@),
                None => None,
            },
            start_ctrl_d_waiter: self.start_ctrl_d_waiter,
            shutdown: self.shutdown,
            waiter_done: self.waiter_done,
        }
    }
}

/// State of the signal policy.
pub struct DispatchState {
    /// SIGINT waits for Ctrl-D confirmation.
    pub interactive: bool,
    /// The Ctrl-D waiter has been started.
    pub ctrl_d_armed: bool,
    /// The shutdown callback has been invoked.
    pub shutdown_started: bool,
}

/// An input to the signal policy.
pub enum DispatchInput {
    /// A delivered signal.
    Signal(SignalEvent),
    /// The Ctrl-D waiter could not be started; carries the error description.
    WaiterUnavailable(Seq<char>),
    /// A read of stdin by the Ctrl-D waiter.
    Stdin(StdinReadView),
}

/// A reaction with a notice and an optional shutdown.
pub open spec fn reaction(
    notice: Option<Seq<char>>,
    start: bool,
    shutdown: Option<ShutdownReason>,
    done: bool,
) -> ReactionView {
    ReactionView { notice, start_ctrl_d_waiter: start, shutdown, waiter_done: done }
}

/// Requesting shutdown: the first request invokes the callback, later ones do
/// nothing.
pub open spec fn request_shutdown(st: DispatchState, reason: ShutdownReason) -> (
    DispatchState,
    Option<ShutdownReason>,
) {
    if st.shutdown_started {
        (st, None)
    } else {
        (DispatchState { shutdown_started: true, ..st }, Some(reason))
    }
}

/// The policy's answer to one input.
pub open spec fn dispatch_step(st: DispatchState, input: DispatchInput) -> (DispatchState, ReactionView) {
    match input {
        DispatchInput::Signal(SignalEvent::Interrupt) => if !st.interactive {
            let (next, sd) = request_shutdown(st, ShutdownReason::SigInt);
            (next, reaction(Some("SIGINT received; shutting down process."@), false, sd, false))
        } else if st.ctrl_d_armed {
            (st, reaction(Some("SIGINT received; use Ctrl-D to shutdown process."@), false, None, false))
        } else {
            (
                DispatchState { ctrl_d_armed: true, ..st },
                reaction(Some("SIGINT received; use Ctrl-D to shutdown process."@), true, None, false),
            )
        },
        DispatchInput::Signal(SignalEvent::Terminate) => {
            let (next, sd) = request_shutdown(st, ShutdownReason::SigTerm);
            (next, reaction(Some("SIGTERM received; shutting down process."@), false, sd, false))
        },
        DispatchInput::WaiterUnavailable(error) => {
            let (next, sd) = request_shutdown(st, ShutdownReason::SigInt);
            (
                next,
                reaction(
                    Some(
                        "could not attach Ctrl-D shutdown waiter ("@ + error
                            + "); shutting down process."@,
                    ),
                    false,
                    sd,
                    false,
                ),
            )
        },
        DispatchInput::Stdin(read) => match read {
            StdinReadView::Data { count, first_byte } => if count == 0 {
                let (next, sd) = request_shutdown(st, ShutdownReason::CtrlD);
                (next, reaction(Some("Ctrl-D/EOF received; shutting down process."@), false, sd, true))
            } else if first_byte == 4 {
                let (next, sd) = request_shutdown(st, ShutdownReason::CtrlD);
                (next, reaction(Some("Ctrl-D received; shutting down process."@), false, sd, true))
            } else {
                (st, reaction(None, false, None, false))
            },
            StdinReadView::Interrupted => (st, reaction(None, false, None, false)),
            StdinReadView::Failed(error) => {
                let (next, sd) = request_shutdown(st, ShutdownReason::SigInt);
                (
                    next,
                    reaction(
                        Some(
                            "stdin failed while waiting for Ctrl-D ("@ + error
                                + "); shutting down process."@,
                        ),
                        false,
                        sd,
                        true,
                    ),
                )
            },
        },
    }
}

/// The state after a sequence of inputs.
pub open spec fn dispatch_state_after(st: DispatchState, inputs: Seq<DispatchInput>) -> DispatchState
    decreases inputs.len(),
{
    if inputs.len() == 0 {
        st
    } else {
        dispatch_step(dispatch_state_after(st, inputs.drop_last()), inputs.last()).0
    }
}

/// The callback reasons issued along a sequence of inputs, in order.
pub open spec fn shutdowns_issued(st: DispatchState, inputs: Seq<DispatchInput>) -> Seq<ShutdownReason>
    decreases inputs.len(),
{
    if inputs.len() == 0 {
        Seq::empty()
    } else {
        let before = shutdowns_issued(st, inputs.drop_last());
        match dispatch_step(dispatch_state_after(st, inputs.drop_last()), inputs.last()).1.shutdown {
            Some(reason) => before.push(reason),
            None => before,
        }
    }
}

proof fn lemma_shutdowns_track_started(st: DispatchState, inputs: Seq<DispatchInput>)
    ensures
        dispatch_state_after(st, inputs).interactive == st.interactive,
        st.shutdown_started ==> dispatch_state_after(st, inputs).shutdown_started,
        shutdowns_issued(st, inputs).len() <= 1,
        st.shutdown_started ==> shutdowns_issued(st, inputs).len() == 0,
        shutdowns_issued(st, inputs).len() == 1 ==> dispatch_state_after(
            st,
            inputs,
        ).shutdown_started,
        !st.shutdown_started && dispatch_state_after(st, inputs).shutdown_started
            ==> shutdowns_issued(st, inputs).len() == 1,
    decreases inputs.len(),
{
    if inputs.len() > 0 {
        lemma_shutdowns_track_started(st, inputs.drop_last());
    }
}

/// However signals and stdin events interleave, the shutdown callback runs at
/// most once, and never again once it has run.
pub proof fn law_shutdown_callback_runs_at_most_once(st: DispatchState, inputs: Seq<DispatchInput>)
    ensures
        shutdowns_issued(st, inputs).len() <= 1,
        st.shutdown_started ==> shutdowns_issued(st, inputs).len() == 0,
{
    lemma_shutdowns_track_started(st, inputs);
}

/// Whether an input asks for shutdown under the given SIGINT mode: SIGTERM, a
/// non-interactive SIGINT, a Ctrl-D waiter that cannot start, and an end of
/// input, a Ctrl-D byte or a failed read on stdin.
pub open spec fn asks_shutdown(interactive: bool, input: DispatchInput) -> bool {
    match input {
        DispatchInput::Signal(SignalEvent::Interrupt) => !interactive,
        DispatchInput::Signal(SignalEvent::Terminate) => true,
        DispatchInput::WaiterUnavailable(_) => true,
        DispatchInput::Stdin(StdinReadView::Data { count, first_byte }) => count == 0 || first_byte
            == 4,
        DispatchInput::Stdin(StdinReadView::Interrupted) => false,
        DispatchInput::Stdin(StdinReadView::Failed(_)) => true,
    }
}

proof fn lemma_asked_shutdown_starts(st: DispatchState, inputs: Seq<DispatchInput>, j: int)
    requires
        0 <= j < inputs.len(),
        asks_shutdown(st.interactive, inputs[j]),
    ensures
        dispatch_state_after(st, inputs).shutdown_started,
    decreases inputs.len(),
{
    let init = inputs.drop_last();
    lemma_shutdowns_track_started(st, init);
    if j < inputs.len() - 1 {
        assert(init[j] == inputs[j]);
        lemma_asked_shutdown_starts(st, init, j);
    }
}

/// Once any input asks for shutdown, the callback has run exactly once,
/// however the inputs interleave before and after it.
pub proof fn law_shutdown_callback_runs_exactly_once(
    st: DispatchState,
    inputs: Seq<DispatchInput>,
    j: int,
)
    requires
        !st.shutdown_started,
        0 <= j < inputs.len(),
        asks_shutdown(st.interactive, inputs[j]),
    ensures
        shutdowns_issued(st, inputs).len() == 1,
{
    lemma_asked_shutdown_starts(st, inputs, j);
    lemma_shutdowns_track_started(st, inputs);
}

/// The first input that requests shutdown decides the reason: a later SIGTERM
/// after a SIGINT shutdown (or the reverse) changes nothing.
pub proof fn law_first_shutdown_reason_wins(
    st: DispatchState,
    inputs: Seq<DispatchInput>,
    later: DispatchInput,
)
    requires
        shutdowns_issued(st, inputs).len() == 1,
    ensures
        shutdowns_issued(st, inputs.push(later)) == shutdowns_issued(st, inputs),
{
    lemma_shutdowns_track_started(st, inputs);
    assert(inputs.push(later).drop_last() =~= inputs);
}

/// Without an interactive terminal, SIGINT shuts down directly and never
/// mentions or starts the Ctrl-D waiter; SIGTERM never waits for Ctrl-D; an
/// interactive SIGINT never shuts down by itself.
pub proof fn law_signal_paths(st: DispatchState)
    ensures
        !st.interactive ==> {
            let (next, r) = dispatch_step(st, DispatchInput::Signal(SignalEvent::Interrupt));
            &&& !r.start_ctrl_d_waiter
            &&& r.notice == Some("SIGINT received; shutting down process."@)
            &&& !st.shutdown_started ==> r.shutdown == Some(ShutdownReason::SigInt)
        },
        ({
            let (next, r) = dispatch_step(st, DispatchInput::Signal(SignalEvent::Terminate));
            &&& !r.start_ctrl_d_waiter
            &&& !st.shutdown_started ==> r.shutdown == Some(ShutdownReason::SigTerm)
        }),
        st.interactive ==> dispatch_step(
            st,
            DispatchInput::Signal(SignalEvent::Interrupt),
        ).1.shutdown is None,
{
}

/// The signal policy, as a state machine driven by the platform layer.
#[derive(Debug)]
pub struct SignalDispatcher {
    interactive: bool,
    ctrl_d_armed: bool,
    shutdown_started: bool,
}

impl View for SignalDispatcher {
    type V = DispatchState;

    closed spec fn view(&self) -> DispatchState {
        DispatchState {
            interactive: self.interactive,
            ctrl_d_armed: self.ctrl_d_armed,
            shutdown_started: self.shutdown_started,
        }
    }
}

impl SignalDispatcher {
    /// A dispatcher that has seen nothing yet.
    pub fn new(interactive: bool) -> (r: Self)
        ensures
            r@ == (DispatchState { interactive, ctrl_d_armed: false, shutdown_started: false }),
    {
        SignalDispatcher { interactive, ctrl_d_armed: false, shutdown_started: false }
    }

    fn request(&mut self, reason: ShutdownReason) -> (r: Option<ShutdownReason>)
        ensures
            (final(self)@, r) == request_shutdown(old(self)@, reason),
    {
        if self.shutdown_started {
            None
        } else {
            self.shutdown_started = true;
            Some(reason)
        }
    }

    /// React to a delivered signal.
    pub fn on_signal(&mut self, event: SignalEvent) -> (r: SignalReaction)
        ensures
            (final(self)@, r@) == dispatch_step(old(self)@, DispatchInput::Signal(event)),
    {
        match event {
            SignalEvent::Interrupt => {
                if !self.interactive {
                    let sd = self.request(ShutdownReason::SigInt);
                    return SignalReaction {
                        notice: Some(owned("SIGINT received; shutting down process.")),
                        start_ctrl_d_waiter: false,
                        shutdown: sd,
                        waiter_done: false,
                    };
                }
                let notice = Some(owned("SIGINT received; use Ctrl-D to shutdown process."));
                if self.ctrl_d_armed {
                    return SignalReaction {
                        notice,
                        start_ctrl_d_waiter: false,
                        shutdown: None,
                        waiter_done: false,
                    };
                }
                self.ctrl_d_armed = true;
                SignalReaction { notice, start_ctrl_d_waiter: true, shutdown: None, waiter_done: false }
            },
            SignalEvent::Terminate => {
                let sd = self.request(ShutdownReason::SigTerm);
                SignalReaction {
                    notice: Some(owned("SIGTERM received; shutting down process.")),
                    start_ctrl_d_waiter: false,
                    shutdown: sd,
                    waiter_done: false,
                }
            },
        }
    }

    /// React to a failure to start the Ctrl-D waiter.
    pub fn on_waiter_unavailable(&mut self, error: &str) -> (r: SignalReaction)
        ensures
            (final(self)@, r@) == dispatch_step(old(self)@, DispatchInput::WaiterUnavailable(error@)),
    {
        let sd = self.request(ShutdownReason::SigInt);
        let mut notice = String::from_str("could not attach Ctrl-D shutdown waiter (");
        notice.append(error);
        notice.append("); shutting down process.");
        SignalReaction { notice: Some(notice), start_ctrl_d_waiter: false, shutdown: sd, waiter_done: false }
    }

    /// React to one read of stdin by the Ctrl-D waiter.
    pub fn on_stdin(&mut self, read: &StdinRead) -> (r: SignalReaction)
        ensures
            (final(self)@, r@) == dispatch_step(old(self)@, DispatchInput::Stdin(read@)),
    {
        match read {
            StdinRead::Data { count, first_byte } => {
                if *count == 0 {
                    let sd = self.request(ShutdownReason::CtrlD);
                    SignalReaction {
                        notice: Some(owned("Ctrl-D/EOF received; shutting down process.")),
                        start_ctrl_d_waiter: false,
                        shutdown: sd,
                        waiter_done: true,
                    }
                } else if *first_byte == 4 {
                    let sd = self.request(ShutdownReason::CtrlD);
                    SignalReaction {
                        notice: Some(owned("Ctrl-D received; shutting down process.")),
                        start_ctrl_d_waiter: false,
                        shutdown: sd,
                        waiter_done: true,
                    }
                } else {
                    SignalReaction { notice: None, start_ctrl_d_waiter: false, shutdown: None, waiter_done: false }
                }
            },
            StdinRead::Interrupted => SignalReaction {
                notice: None,
                start_ctrl_d_waiter: false,
                shutdown: None,
                waiter_done: false,
            },
            StdinRead::Failed(error) => {
                let sd = self.request(ShutdownReason::SigInt);
                let mut notice = String::from_str("stdin failed while waiting for Ctrl-D (");
                notice.append(error.as_str());
                notice.append("); shutting down process.");
                SignalReaction { notice: Some(notice), start_ctrl_d_waiter: false, shutdown: sd, waiter_done: true }
            },
        }
    }
}

} // verus!
