//! Stream roles for CLI protocols: primary results versus diagnostics.
use vstd::prelude::*;

use vstd::string::StringExecFns;
use vstd::string::StringSliceAdditionalSpecFns;
use vstd::utf8::encode_utf8;

use crate::policy::{paint, painted, ColorRole};
use crate::text::{append_decimal, contains_ascii, decimal_digits, digit_char};
use crate::wire::{
    classify_io_error, invalid_input_error, io_error_class, line_handed, line_ops,
    line_outcomes,
    refused, write_line_to, HandedOp, LoggedWriter, IoErrorClass, WriterOp,
};

verus! {

/// Conventional ownership of a CLI output stream.
#[derive(Debug, Clone, Copy, PartialEq, Eq, Structural)]
pub enum StreamRole {
    /// Primary command results and machine-readable protocol data on stdout.
    Primary,
    /// Diagnostics, logs, progress, and operator-facing status on stderr.
    Diagnostics,
}

/// Flush strategy for a logical line emitter.
#[derive(Debug, Clone, Copy, PartialEq, Eq, Structural)]
pub enum FlushPolicy {
    /// Flush after every record; preferred for terminals, pipes, and long-lived streams.
    EveryRecord,
    /// Buffer records until the caller explicitly flushes; useful for bounded file output.
    OnDemand,
}

impl Default for FlushPolicy {
    fn default() -> (r: Self)
        ensures
            r == FlushPolicy::EveryRecord,
    {
        FlushPolicy::EveryRecord
    }
}

/// Top-level interpretation of an emission attempt.
#[derive(Debug, Clone, Copy, PartialEq, Eq, Structural)]
pub enum EmitDisposition {
    /// The operation completed normally.
    Written,
    /// A downstream consumer closed its pipe early (for example `head`).
    ConsumerClosed,
}

/// How a failed emission is reported: a closed consumer pipe is a clean
/// disposition, any other error is returned unchanged.
pub open spec fn failure_outcome(broken_pipe: bool, error: std::io::Error) -> Result<
    EmitDisposition,
    std::io::Error,
> {
    if broken_pipe {
        Ok(EmitDisposition::ConsumerClosed)
    } else {
        Err(error)
    }
}

/// Report a failed emission, given whether its error is `BrokenPipe`.
pub fn failure_disposition(broken_pipe: bool, error: std::io::Error) -> (r: Result<
    EmitDisposition,
    std::io::Error,
>)
    ensures
        r == failure_outcome(broken_pipe, error),
{
    if broken_pipe {
        Ok(EmitDisposition::ConsumerClosed)
    } else {
        Err(error)
    }
}

/// Treat `BrokenPipe` as normal early-consumer termination while preserving all
/// unrelated I/O failures.
pub fn top_level_io(result: Result<(), std::io::Error>) -> (r: Result<EmitDisposition, std::io::Error>)
    ensures
        result is Ok ==> r == Ok::<EmitDisposition, std::io::Error>(EmitDisposition::Written),
        result matches Err(e) ==> r == failure_outcome(
            io_error_class(e) == IoErrorClass::BrokenPipe,
            e,
        ),
{
    match result {
        Ok(()) => Ok(EmitDisposition::Written),
        Err(error) => {
            let class = classify_io_error(&error);
            failure_disposition(class == IoErrorClass::BrokenPipe, error)
        },
    }
}

/// Whether a text is a valid single machine record: no ANSI escape (ESC) and
/// no literal CR/LF framing character.
pub open spec fn machine_record_ok(s: Seq<char>) -> bool {
    !s.contains('\u{1b}') && !s.contains('\n') && !s.contains('\r')
}

/// Literal ANSI escapes and literal CR/LF characters are rejected. JSON
/// strings containing an escaped `\n` remain valid because they do not
/// contain a literal newline character.
fn validate_machine_record(value: &str) -> (r: Result<(), std::io::Error>)
    ensures
        r is Ok <==> machine_record_ok(value@),
        r is Err ==> refused(r),
{
    if contains_ascii(value, 0x1b) {
        proof {
            assert(0x1bu8 as char == '\u{1b}');
        }
        return Err(invalid_input_error("machine output must not contain ANSI escape sequences"));
    }
    if contains_ascii(value, 10) || contains_ascii(value, 13) {
        proof {
            assert(10u8 as char == '\n');
            assert(13u8 as char == '\r');
        }
        return Err(
            invalid_input_error("one machine record must not contain literal CR/LF framing bytes"),
        );
    }
    proof {
        assert(0x1bu8 as char == '\u{1b}');
        assert(10u8 as char == '\n');
        assert(13u8 as char == '\r');
    }
    Ok(())
}

/// Explicit stream-role emitter for CLI protocols.
///
/// This type deliberately does not choose stdout/stderr itself. The consumer
/// passes the desired writer, while `StreamRole` prevents accidental machine
/// records on a diagnostics channel and accidental progress records on a
/// primary machine-data channel.
pub struct ProtocolEmitter<W> {
    writer: LoggedWriter<W>,
    role: StreamRole,
    flush_policy: FlushPolicy,
}

impl<W> ProtocolEmitter<W> {
    /// The wrapped writer.
    pub closed spec fn writer_view(&self) -> W {
        self.writer.inner_view()
    }

    /// The role owned by this emitter.
    pub closed spec fn role_view(&self) -> StreamRole {
        self.role
    }

    /// The flushing policy.
    pub closed spec fn flush_policy_view(&self) -> FlushPolicy {
        self.flush_policy
    }

    /// Every operation handed to the writer so far, in order.
    pub closed spec fn handed(&self) -> Seq<HandedOp> {
        self.writer.log()
    }

    /// Create an emitter with per-record flushing.
    pub fn new(writer: W, role: StreamRole) -> (r: Self)
        ensures
            r.writer_view() == writer,
            r.role_view() == role,
            r.flush_policy_view() == FlushPolicy::EveryRecord,
            r.handed() == Seq::<HandedOp>::empty(),
    {
        ProtocolEmitter {
            writer: LoggedWriter::new(writer),
            role,
            flush_policy: FlushPolicy::EveryRecord,
        }
    }

    /// Override the flushing policy.
    pub fn with_flush_policy(self, flush_policy: FlushPolicy) -> (r: Self)
        ensures
            r.writer_view() == self.writer_view(),
            r.role_view() == self.role_view(),
            r.flush_policy_view() == flush_policy,
            r.handed() == self.handed(),
    {
        ProtocolEmitter { flush_policy, ..self }
    }

    /// Return the stream role owned by this emitter.
    pub fn role(&self) -> (r: StreamRole)
        ensures
            r == self.role_view(),
    {
        self.role
    }

    /// Recover the wrapped writer.
    pub fn into_inner(self) -> (r: W)
        ensures
            r == self.writer_view(),
    {
        self.writer.into_inner()
    }

    fn require_role(&self, required: StreamRole) -> (r: Result<(), std::io::Error>)
        ensures
            r is Ok <==> self.role_view() == required,
            r is Err ==> refused(r),
    {
        if self.role == required {
            return Ok(());
        }
        Err(
            invalid_input_error(
                match required {
                    StreamRole::Primary => "primary command results must use the primary/stdout stream",
                    StreamRole::Diagnostics => "diagnostics and progress must use the diagnostics/stderr stream",
                },
            ),
        )
    }
}

impl<W: std::io::Write> ProtocolEmitter<W> {
    /// Emit a human-readable primary result line.
    pub fn emit_primary_human_line(&mut self, value: &str) -> (r: Result<(), std::io::Error>)
        ensures
            final(self).role_view() == old(self).role_view(),
            final(self).flush_policy_view() == old(self).flush_policy_view(),
            old(self).role_view() != StreamRole::Primary ==> refused(r) && *final(self) == *old(self),
            old(self).role_view() == StreamRole::Primary ==> line_handed(
                old(self).handed(),
                final(self).handed(),
                line_ops(value.spec_bytes(), old(self).flush_policy_view() == FlushPolicy::EveryRecord),
                r,
            ),
    {
        let role_ok = self.require_role(StreamRole::Primary);
        if role_ok.is_err() {
            return role_ok;
        }
        self.write_line(value)
    }

    /// Emit one machine-readable JSON/NDJSON record on the primary stream.
    ///
    /// Literal ANSI escapes and literal CR/LF characters are rejected. JSON
    /// strings containing escaped `\\n` remain valid because they do not contain
    /// a literal newline byte.
    pub fn emit_primary_machine_record(&mut self, value: &str) -> (r: Result<(), std::io::Error>)
        ensures
            final(self).role_view() == old(self).role_view(),
            final(self).flush_policy_view() == old(self).flush_policy_view(),
            !(old(self).role_view() == StreamRole::Primary && machine_record_ok(value@)) ==> refused(r)
                && *final(self) == *old(self),
            old(self).role_view() == StreamRole::Primary && machine_record_ok(value@)
                ==> line_handed(
                old(self).handed(),
                final(self).handed(),
                line_ops(value.spec_bytes(), old(self).flush_policy_view() == FlushPolicy::EveryRecord),
                r,
            ),
    {
        let role_ok = self.require_role(StreamRole::Primary);
        if role_ok.is_err() {
            return role_ok;
        }
        let valid = validate_machine_record(value);
        if valid.is_err() {
            return valid;
        }
        self.write_line(value)
    }

    /// Emit one diagnostic/progress line on the diagnostics stream.
    pub fn emit_diagnostic_line(&mut self, value: &str) -> (r: Result<(), std::io::Error>)
        ensures
            final(self).role_view() == old(self).role_view(),
            final(self).flush_policy_view() == old(self).flush_policy_view(),
            old(self).role_view() != StreamRole::Diagnostics ==> refused(r) && *final(self) == *old(
                self,
            ),
            old(self).role_view() == StreamRole::Diagnostics ==> line_handed(
                old(self).handed(),
                final(self).handed(),
                line_ops(value.spec_bytes(), old(self).flush_policy_view() == FlushPolicy::EveryRecord),
                r,
            ),
    {
        let role_ok = self.require_role(StreamRole::Diagnostics);
        if role_ok.is_err() {
            return role_ok;
        }
        self.write_line(value)
    }

    /// Explicitly flush the underlying writer.
    pub fn flush(&mut self) -> (r: Result<(), std::io::Error>)
        ensures
            final(self).role_view() == old(self).role_view(),
            final(self).flush_policy_view() == old(self).flush_policy_view(),
            final(self).handed() == old(self).handed().push(HandedOp { op: WriterOp::Flush, outcome: r }),
    {
        self.writer.flush()
    }

    fn write_line(&mut self, value: &str) -> (r: Result<(), std::io::Error>)
        ensures
            final(self).role_view() == old(self).role_view(),
            final(self).flush_policy_view() == old(self).flush_policy_view(),
            line_handed(
                old(self).handed(),
                final(self).handed(),
                line_ops(value.spec_bytes(), old(self).flush_policy_view() == FlushPolicy::EveryRecord),
                r,
            ),
    {
        let flush_each_record = self.flush_policy == FlushPolicy::EveryRecord;
        write_line_to(&mut self.writer, value, flush_each_record)
    }
}

/// The text of record `n` of a numbered stream: `{"seq":N}` for machine
/// output, and `seq=N` painted in the info role for human output.
pub open spec fn sequence_record_text(json: bool, color: bool, n: nat) -> Seq<char> {
    if json {
        "{\"seq\":"@ + decimal_digits(n) + "}"@
    } else {
        painted(color, ColorRole::Info, "seq="@ + decimal_digits(n))
    }
}

/// The text of record `n` of a numbered stream (see `sequence_record_text`).
pub fn sequence_record(json: bool, color: bool, n: usize) -> (r: String)
    ensures
        r@ == sequence_record_text(json, color, n as nat),
{
    if json {
        let mut r = String::from_str("{\"seq\":");
        append_decimal(&mut r, n);
        r.append("}");
        r
    } else {
        let mut label = String::from_str("seq=");
        append_decimal(&mut label, n);
        paint(color, ColorRole::Info, label.as_str())
    }
}

proof fn lemma_decimal_digits_are_digits(n: nat)
    ensures
        forall|i: int|
            0 <= i < decimal_digits(n).len() ==> '0' <= #[trigger] decimal_digits(n)[i] <= '9',
    decreases n,
{
    if n < 10 {
        assert(decimal_digits(n) == seq![digit_char(n)]);
    } else {
        lemma_decimal_digits_are_digits(n / 10);
        let d = digit_char(n % 10);
        assert(decimal_digits(n) == decimal_digits(n / 10).push(d));
    }
}

/// Machine records of a numbered stream are valid single machine records.
proof fn lemma_sequence_record_is_machine_safe(color: bool, n: nat)
    ensures
        machine_record_ok(sequence_record_text(true, color, n)),
{
    reveal_strlit("{\"seq\":");
    reveal_strlit("}");
    lemma_decimal_digits_are_digits(n);
    let s = sequence_record_text(true, color, n);
    let d = decimal_digits(n);
    assert forall|i: int| 0 <= i < s.len() implies s[i] != '\u{1b}' && s[i] != '\n' && s[i]
        != '\r' by {
        if 7 <= i < 7 + d.len() {
            assert(s[i] == d[i - 7]);
        }
    }
}

/// Whether `segs` are the logs of handing records `0..segs.len()` of a
/// numbered stream to a writer, one line each, every one but possibly the
/// last handed in full and successfully.
pub open spec fn sequence_segments(
    segs: Seq<Seq<HandedOp>>,
    json: bool,
    color: bool,
    flush_each_record: bool,
) -> bool {
    &&& forall|i: int|
        0 <= i < segs.len() ==> line_outcomes(
            #[trigger] segs[i],
            line_ops(encode_utf8(sequence_record_text(json, color, i as nat)), flush_each_record),
            segs[i].last().outcome,
        )
    &&& forall|i: int| 0 <= i < segs.len() - 1 ==> (#[trigger] segs[i]).last().outcome is Ok
}

/// What emitting a numbered stream answers, given the logs of the records
/// handed: `Written` when all `count` records went out, otherwise the
/// top-level disposition of the failure that stopped it.
pub open spec fn sequence_outcome(segs: Seq<Seq<HandedOp>>, count: nat) -> Result<
    EmitDisposition,
    std::io::Error,
> {
    if segs.len() == count && (count == 0 || segs.last().last().outcome is Ok) {
        Ok(EmitDisposition::Written)
    } else {
        let e = segs.last().last().outcome->Err_0;
        failure_outcome(io_error_class(e) == IoErrorClass::BrokenPipe, e)
    }
}

/// Whether the log `after` extends `before` by the records `segs` of a
/// numbered stream of `count` records, answered with `r`: each record handed
/// as one line, every one but the last successfully, fewer than `count` only
/// when the last one failed, and `r` as `sequence_outcome` gives it.
pub open spec fn sequence_log(
    before: Seq<HandedOp>,
    after: Seq<HandedOp>,
    segs: Seq<Seq<HandedOp>>,
    json: bool,
    color: bool,
    flush_policy: FlushPolicy,
    count: nat,
    r: Result<EmitDisposition, std::io::Error>,
) -> bool {
    &&& after == before + segs.flatten()
    &&& segs.len() <= count
    &&& sequence_segments(segs, json, color, flush_policy == FlushPolicy::EveryRecord)
    &&& segs.len() < count ==> segs.len() > 0 && segs.last().last().outcome is Err
    &&& r == sequence_outcome(segs, count)
}

/// Emit records `0..count` of a numbered stream on a primary emitter
/// (`{"seq":N}` records when `json`, painted `seq=N` lines otherwise),
/// stopping at the first record that fails: a closed consumer ends the
/// stream cleanly, and any other failure is returned.
pub fn emit_sequence<W: std::io::Write>(
    emitter: &mut ProtocolEmitter<W>,
    json: bool,
    color: bool,
    count: usize,
) -> (r: Result<EmitDisposition, std::io::Error>)
    requires
        old(emitter).role_view() == StreamRole::Primary,
    ensures
        final(emitter).role_view() == old(emitter).role_view(),
        final(emitter).flush_policy_view() == old(emitter).flush_policy_view(),
        exists|segs: Seq<Seq<HandedOp>>|
            #[trigger] sequence_log(
                old(emitter).handed(),
                final(emitter).handed(),
                segs,
                json,
                color,
                old(emitter).flush_policy_view(),
                count as nat,
                r,
            ),
{
    let ghost start = emitter.handed();
    let ghost policy = emitter.flush_policy_view();
    let ghost flush = policy == FlushPolicy::EveryRecord;
    let ghost mut segs: Seq<Seq<HandedOp>> = Seq::empty();
    let mut n: usize = 0;
    proof {
        assert(start + segs.flatten() =~= start);
    }
    while n < count
        invariant
            n <= count,
            segs.len() == n,
            old(emitter).role_view() == StreamRole::Primary,
            emitter.role_view() == StreamRole::Primary,
            emitter.flush_policy_view() == old(emitter).flush_policy_view(),
            start == old(emitter).handed(),
            policy == old(emitter).flush_policy_view(),
            flush == (old(emitter).flush_policy_view() == FlushPolicy::EveryRecord),
            emitter.handed() == start + segs.flatten(),
            sequence_segments(segs, json, color, flush),
            forall|i: int| 0 <= i < segs.len() ==> (#[trigger] segs[i]).last().outcome is Ok,
        decreases count - n,
    {
        let record = sequence_record(json, color, n);
        let ghost before = emitter.handed();
        let result = if json {
            proof {
                lemma_sequence_record_is_machine_safe(color, n as nat);
            }
            emitter.emit_primary_machine_record(record.as_str())
        } else {
            emitter.emit_primary_human_line(record.as_str())
        };
        let ghost seg = emitter.handed().skip(before.len() as int);
        proof {
            segs.lemma_flatten_push(seg);
            assert(emitter.handed() =~= before + seg);
            let prior = segs;
            segs = segs.push(seg);
            assert(segs.flatten() =~= prior.flatten() + seg);
            assert(emitter.handed() =~= start + segs.flatten());
            assert(segs[n as int] == seg);
            assert forall|i: int| 0 <= i < segs.len() implies line_outcomes(
                #[trigger] segs[i],
                line_ops(encode_utf8(sequence_record_text(json, color, i as nat)), flush),
                segs[i].last().outcome,
            ) by {
                if i < n {
                    assert(segs[i] == segs.drop_last()[i]);
                }
            }
        }
        let ghost answered = result;
        let disposition = top_level_io(result);
        proof {
            assert(seg.last().outcome == answered);
        }
        match disposition {
            Ok(EmitDisposition::Written) => {},
            Ok(EmitDisposition::ConsumerClosed) => {
                proof {
                    assert(sequence_log(
                        start,
                        emitter.handed(),
                        segs,
                        json,
                        color,
                        policy,
                        count as nat,
                        disposition,
                    ));
                }
                return disposition;
            },
            Err(_) => {
                proof {
                    assert(sequence_log(
                        start,
                        emitter.handed(),
                        segs,
                        json,
                        color,
                        policy,
                        count as nat,
                        disposition,
                    ));
                }
                return disposition;
            },
        }
        n += 1;
    }
    proof {
        assert(sequence_log(
            start,
            emitter.handed(),
            segs,
            json,
            color,
            policy,
            count as nat,
            Ok::<EmitDisposition, std::io::Error>(EmitDisposition::Written),
        ));
    }
    Ok(EmitDisposition::Written)
}

} // verus!
