//! Shared runtime policy for command-line tools.
//!
//! The policy core (output format, color and log level, and their resolution
//! against the terminal and environment snapshot) lives in `policy`; the
//! shared flag parser in `args` and `reserved`; stream framing in `protocol`
//! and `emitter`; the shutdown lifecycle and the signal policy in `lifecycle`
//! and `shutdown`; and the runtime-configuration filename registry in
//! `registry`.
use vstd::prelude::*;

pub mod args;
pub mod emitter;
pub mod lifecycle;
pub mod policy;
pub mod protocol;
pub mod registry;
pub mod reserved;
pub mod shutdown;
pub mod text;
pub mod wire;

pub use args::{parse_shared_argv, ParsedSharedArgs, SharedArgError};
pub use emitter::StreamEmitter;
pub use lifecycle::{ShutdownLifecycleGate, ShutdownLifecyclePhase};
pub use policy::{
    paint, CliPolicy, ColorMode, ColorRole, EnvironmentHints, LogLevel, OutputMode,
    ParsePolicyError, RuntimePolicy, TerminalState,
};
pub use protocol::{
    emit_sequence, failure_disposition, sequence_record, top_level_io, EmitDisposition, FlushPolicy,
    ProtocolEmitter, StreamRole,
};
pub use registry::{
    is_registered_runtime_config, root_config_identities, root_config_identity, RootConfigIdentity,
    CLI_FLAGS_CONFIG, OPTO_SYNC_CONFIG, ORES_DND_CONFIG, ORES_LRU_CONFIG, ORES_MW_CONFIG,
    ORES_OTEL_CONFIG, ORES_RL_CONFIG, ORES_SIDECAR_CONFIG, ORES_SOPS_CONFIG, ORES_SW_CONFIG,
    ORES_WS_CONFIG, REGISTERED_RUNTIME_CONFIGS, SHARED_AUTH_COMPAT_CONFIG, SHARED_AUTH_CONFIG,
};
pub use reserved::parse_shared_argv_with_reserved;
pub use shutdown::{
    invalid_environment_message, parse_enabled, setup_signal_handlers_with, EnvLookup,
    ShutdownAction, ShutdownReason, SignalDispatcher, SignalEvent, SignalHandlerError,
    SignalHandlerOptions, SignalHandlerStatus, SignalInstallRegistry, SignalReaction, StdinRead,
    TtyRequirement, SIGNAL_HANDLERS_ENV, SIGNAL_TTY_REQUIREMENT_ENV,
};

verus! {

} // verus!
