//! The boundary to `std::io`: writers and their errors.
//!
//! Writers are opaque here; the emitters record, as ghost state, every
//! operation they hand to their writer and the writer's answer to it, so their
//! contracts can say what was written, in which order, and what came back.
use vstd::prelude::*;
use vstd::string::StringSliceAdditionalSpecFns;

verus! {

#[verifier::external_type_specification]
#[verifier::external_body]
pub struct ExIoError(std::io::Error);

/// One operation handed to a writer.
pub enum WriterOp {
    /// `write_all` of these bytes.
    WriteAll(Seq<u8>),
    /// `flush`.
    Flush,
}

/// An operation handed to a writer, with what the writer answered.
pub struct HandedOp {
    /// The operation.
    pub op: WriterOp,
    /// The writer's answer to it.
    pub outcome: Result<(), std::io::Error>,
}

/// The operations that write one record line: the record's bytes, the `\n`
/// terminator, and a flush when every record is flushed.
pub open spec fn line_ops(bytes: Seq<u8>, flush_each_record: bool) -> Seq<WriterOp> {
    let base = seq![WriterOp::WriteAll(bytes), WriterOp::WriteAll(seq![10u8])];
    if flush_each_record {
        base.push(WriterOp::Flush)
    } else {
        base
    }
}

/// Whether `added` hands `ops` to a writer in order, stopping at the first
/// operation that fails, and `r` is the answer to the last one handed: `Ok`
/// exactly when every operation was handed and succeeded, else the first
/// error, unchanged.
pub open spec fn line_outcomes(added: Seq<HandedOp>, ops: Seq<WriterOp>, r: Result<(), std::io::Error>) -> bool {
    &&& 1 <= added.len() <= ops.len()
    &&& forall|j: int| 0 <= j < added.len() ==> (#[trigger] added[j]).op == ops[j]
    &&& forall|j: int| 0 <= j < added.len() - 1 ==> (#[trigger] added[j]).outcome is Ok
    &&& added.last().outcome == r
    &&& added.len() < ops.len() ==> r is Err
}

/// Whether the log `after` extends `before` by the handing of `ops` with
/// answer `r` (see `line_outcomes`).
pub open spec fn line_handed(
    before: Seq<HandedOp>,
    after: Seq<HandedOp>,
    ops: Seq<WriterOp>,
    r: Result<(), std::io::Error>,
) -> bool {
    &&& before.len() <= after.len()
    &&& after.take(before.len() as int) == before
    &&& line_outcomes(after.skip(before.len() as int), ops, r)
}

/// A writer together with the log of every operation handed to it, each with
/// the writer's answer. The log grows only through `write_all` and `flush`,
/// whose contracts record exactly the call they make.
pub struct LoggedWriter<W> {
    inner: W,
    log: Ghost<Seq<HandedOp>>,
}

impl<W> LoggedWriter<W> {
    /// The wrapped writer.
    pub closed spec fn inner_view(&self) -> W {
        self.inner
    }

    /// Every operation handed to the writer so far, in order, with its answer.
    pub closed spec fn log(&self) -> Seq<HandedOp> {
        self.log@
    }

    /// Wrap a writer to which nothing has been handed yet.
    pub fn new(inner: W) -> (r: Self)
        ensures
            r.inner_view() == inner,
            r.log() == Seq::<HandedOp>::empty(),
    {
        LoggedWriter { inner, log: Ghost(Seq::empty()) }
    }

    /// Recover the wrapped writer.
    pub fn into_inner(self) -> (r: W)
        ensures
            r == self.inner_view(),
    {
        self.inner
    }
}

impl<W: std::io::Write> LoggedWriter<W> {
    /// `Write::write_all(bytes)` on the wrapped writer. The call is logged with
    /// its argument and its answer; what the answer is depends on the writer
    /// and is not stated.
    #[verifier::external_body]
    pub(crate) fn write_all(&mut self, bytes: &[u8]) -> (r: Result<(), std::io::Error>)
        ensures
            final(self).log() == old(self).log().push(
                HandedOp { op: WriterOp::WriteAll(bytes@), outcome: r },
            ),
    {
        self.inner.write_all(bytes)
    }

    /// `Write::flush()` on the wrapped writer. The call is logged with its
    /// answer; what the answer is depends on the writer and is not stated.
    #[verifier::external_body]
    pub(crate) fn flush(&mut self) -> (r: Result<(), std::io::Error>)
        ensures
            final(self).log() == old(self).log().push(HandedOp { op: WriterOp::Flush, outcome: r }),
    {
        self.inner.flush()
    }
}

/// Write `value` and a `\n` to `writer` with `write_all`, then flush when
/// `flush_each_record`, stopping at the first failure, and answer with the
/// answer to the last operation handed.
pub(crate) fn write_line_to<W: std::io::Write>(
    writer: &mut LoggedWriter<W>,
    value: &str,
    flush_each_record: bool,
) -> (r: Result<(), std::io::Error>)
    ensures
        line_handed(
            old(writer).log(),
            final(writer).log(),
            line_ops(value.spec_bytes(), flush_each_record),
            r,
        ),
{
    let ghost start = writer.log();
    let first = writer.write_all(value.as_bytes());
    let ghost h1 = HandedOp { op: WriterOp::WriteAll(value.spec_bytes()), outcome: first };
    proof {
        assert(writer.log() == start.push(h1));
        assert(writer.log().take(start.len() as int) =~= start);
        assert(writer.log().skip(start.len() as int) =~= seq![h1]);
    }
    if first.is_err() {
        return first;
    }
    let newline: [u8; 1] = [10u8];
    let second = writer.write_all(newline.as_slice());
    let ghost h2 = HandedOp { op: WriterOp::WriteAll(seq![10u8]), outcome: second };
    proof {
        assert(newline@ =~= seq![10u8]);
        assert(writer.log() == start.push(h1).push(h2));
        assert(writer.log().take(start.len() as int) =~= start);
        assert(writer.log().skip(start.len() as int) =~= seq![h1, h2]);
    }
    if second.is_err() || !flush_each_record {
        return second;
    }
    let third = writer.flush();
    let ghost h3 = HandedOp { op: WriterOp::Flush, outcome: third };
    proof {
        assert(writer.log() == start.push(h1).push(h2).push(h3));
        assert(writer.log().take(start.len() as int) =~= start);
        assert(writer.log().skip(start.len() as int) =~= seq![h1, h2, h3]);
    }
    third
}

/// The kinds of I/O error this library tells apart.
#[derive(Debug, Clone, Copy, PartialEq, Eq, Structural)]
pub enum IoErrorClass {
    /// `ErrorKind::BrokenPipe`: the reading end of a pipe was closed.
    BrokenPipe,
    /// `ErrorKind::InvalidInput`: the library refused the input.
    InvalidInput,
    /// Any other kind.
    Other,
}

/// The kind that `std::io::Error::kind` reports for an error, as far as
/// `IoErrorClass` tells kinds apart.
pub uninterp spec fn io_error_class(error: std::io::Error) -> IoErrorClass;

/// `std::io::Error::kind`, mapped onto `IoErrorClass`; the result is named by
/// `io_error_class`.
#[verifier::external_body]
pub(crate) fn classify_io_error(error: &std::io::Error) -> (r: IoErrorClass)
    ensures
        r == io_error_class(*error),
{
    match error.kind() {
        std::io::ErrorKind::BrokenPipe => IoErrorClass::BrokenPipe,
        std::io::ErrorKind::InvalidInput => IoErrorClass::InvalidInput,
        _ => IoErrorClass::Other,
    }
}

/// Whether `r` is a refusal: an error of kind `InvalidInput`.
pub open spec fn refused(r: Result<(), std::io::Error>) -> bool {
    r matches Err(e) && io_error_class(e) == IoErrorClass::InvalidInput
}

/// `std::io::Error::new(ErrorKind::InvalidInput, message)`: by the
/// documentation of `Error::new` and `Error::kind`, its kind is
/// `InvalidInput`. Its message is not modelled.
#[verifier::external_body]
pub(crate) fn invalid_input_error(message: &'static str) -> (r: std::io::Error)
    ensures
        io_error_class(r) == IoErrorClass::InvalidInput,
{
    std::io::Error::new(std::io::ErrorKind::InvalidInput, message)
}

} // verus!
