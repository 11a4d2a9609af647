# ores-clis-core

Shared runtime policy for command-line tools, written in Verus: every
decision the policy makes is a verified function with a contract, and the
properties the policy promises are stated and proved as lemmas.

## Layout

- `src/policy.rs` — output format, color and log-level modes, their value
  parsers, and their resolution against the terminal and environment snapshot.
- `src/args.rs` — the shared flag parser, specified as a left-to-right state
  machine over argv, with its laws (conflicts, idempotence, terminator,
  passthrough).
- `src/reserved.rs` — the compatibility parser that keeps selected spellings
  for the consumer's own parser.
- `src/protocol.rs`, `src/emitter.rs`, `src/wire.rs` — stream-role emitters;
  their contracts record every operation handed to the writer.
- `src/lifecycle.rs` — the monotonic shutdown lifecycle gate.
- `src/shutdown.rs` — signal options, the installation slot, and the signal
  policy as a state machine (signals and stdin reads in, reactions out).
- `src/registry.rs` — the runtime-configuration filename registry.
- `src/text.rs` — character-level helpers the contracts are stated over.
- `app/` — a fixture program around the library: argv, terminal detection,
  environment variables, stdout/stderr, and the operating-system signal
  handlers (`signal-hook` on Unix, `ctrlc` on Windows), which feed the
  library's state machines and carry out their reactions.
