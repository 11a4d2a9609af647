//! Streaming line emitter for progress and NDJSON streams.
use vstd::prelude::*;
use vstd::string::StringSliceAdditionalSpecFns;

use crate::text::contains_ascii;
use crate::wire::{
    invalid_input_error, line_handed, line_ops, refused, write_line_to, HandedOp, LoggedWriter,
    WriterOp,
};

verus! {

/// Streaming line emitter that flushes each record by default.
pub struct StreamEmitter<W> {
    writer: LoggedWriter<W>,
    flush_each_record: bool,
}

impl<W> StreamEmitter<W> {
    /// The wrapped writer.
    pub closed spec fn writer_view(&self) -> W {
        self.writer.inner_view()
    }

    /// Whether every record is flushed.
    pub closed spec fn flushes_each_record(&self) -> bool {
        self.flush_each_record
    }

    /// Every operation handed to the writer so far, in order.
    pub closed spec fn handed(&self) -> Seq<HandedOp> {
        self.writer.log()
    }

    /// Create a line emitter suitable for progress and NDJSON streams.
    pub fn new(writer: W) -> (r: Self)
        ensures
            r.writer_view() == writer,
            r.flushes_each_record(),
            r.handed() == Seq::<HandedOp>::empty(),
    {
        StreamEmitter { writer: LoggedWriter::new(writer), flush_each_record: true }
    }

    /// Configure whether every emitted line is flushed immediately.
    pub fn with_flush_each_record(self, enabled: bool) -> (r: Self)
        ensures
            r.writer_view() == self.writer_view(),
            r.flushes_each_record() == enabled,
            r.handed() == self.handed(),
    {
        StreamEmitter { flush_each_record: enabled, ..self }
    }

    /// Recover the wrapped writer.
    pub fn into_inner(self) -> (r: W)
        ensures
            r == self.writer_view(),
    {
        self.writer.into_inner()
    }
}

impl<W: std::io::Write> StreamEmitter<W> {
    /// Write one human-readable record and terminate it with `\n`.
    pub fn emit_line(&mut self, value: &str) -> (r: Result<(), std::io::Error>)
        ensures
            final(self).flushes_each_record() == old(self).flushes_each_record(),
            line_handed(
                old(self).handed(),
                final(self).handed(),
                line_ops(value.spec_bytes(), old(self).flushes_each_record()),
                r,
            ),
    {
        self.write_line(value)
    }

    /// Write one JSON/NDJSON record, rejecting ANSI escapes to keep the wire
    /// stream machine-safe.
    pub fn emit_json_line(&mut self, value: &str) -> (r: Result<(), std::io::Error>)
        ensures
            final(self).flushes_each_record() == old(self).flushes_each_record(),
            value@.contains('\u{1b}') ==> refused(r) && *final(self) == *old(self),
            !value@.contains('\u{1b}') ==> line_handed(
                old(self).handed(),
                final(self).handed(),
                line_ops(value.spec_bytes(), old(self).flushes_each_record()),
                r,
            ),
    {
        proof {
            assert(0x1bu8 as char == '\u{1b}');
        }
        if contains_ascii(value, 0x1b) {
            return Err(invalid_input_error("JSON output must not contain ANSI escape sequences"));
        }
        self.write_line(value)
    }

    /// Flush the underlying writer.
    pub fn flush(&mut self) -> (r: Result<(), std::io::Error>)
        ensures
            final(self).flushes_each_record() == old(self).flushes_each_record(),
            final(self).handed() == old(self).handed().push(HandedOp { op: WriterOp::Flush, outcome: r }),
    {
        self.writer.flush()
    }

    fn write_line(&mut self, value: &str) -> (r: Result<(), std::io::Error>)
        ensures
            final(self).flushes_each_record() == old(self).flushes_each_record(),
            line_handed(
                old(self).handed(),
                final(self).handed(),
                line_ops(value.spec_bytes(), old(self).flushes_each_record()),
                r,
            ),
    {
        let flush_each_record = self.flush_each_record;
        write_line_to(&mut self.writer, value, flush_each_record)
    }
}

} // verus!
