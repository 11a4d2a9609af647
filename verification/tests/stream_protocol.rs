use std::io::{self, Write};

use ores_clis_core::{
    emit_sequence, failure_disposition, sequence_record, top_level_io, EmitDisposition, FlushPolicy, ProtocolEmitter,
    StreamRole, StreamEmitter,
};

#[derive(Debug, Default)]
struct PartialWriter {
    bytes: Vec<u8>,
    max_per_write: usize,
    flushes: usize,
}

impl PartialWriter {
    fn new(max_per_write: usize) -> Self {
        Self { bytes: Vec::new(), max_per_write, flushes: 0 }
    }
}

impl Write for PartialWriter {
    fn write(&mut self, buffer: &[u8]) -> io::Result<usize> {
        let amount = buffer.len().min(self.max_per_write.max(1));
        self.bytes.extend_from_slice(&buffer[..amount]);
        Ok(amount)
    }

    fn flush(&mut self) -> io::Result<()> {
        self.flushes += 1;
        Ok(())
    }
}

#[derive(Debug)]
struct BrokenPipeWriter;

impl Write for BrokenPipeWriter {
    fn write(&mut self, _buffer: &[u8]) -> io::Result<usize> {
        Err(io::Error::new(io::ErrorKind::BrokenPipe, "consumer closed"))
    }

    fn flush(&mut self) -> io::Result<()> {
        Ok(())
    }
}

#[derive(Debug, Default)]
struct FlushFailWriter {
    bytes: Vec<u8>,
}

impl Write for FlushFailWriter {
    fn write(&mut self, buffer: &[u8]) -> io::Result<usize> {
        self.bytes.extend_from_slice(buffer);
        Ok(buffer.len())
    }

    fn flush(&mut self) -> io::Result<()> {
        Err(io::Error::new(io::ErrorKind::Other, "flush failed"))
    }
}

#[test]
fn primary_machine_records_are_ansi_free_and_single_line() {
    let mut emitter = ProtocolEmitter::new(Vec::<u8>::new(), StreamRole::Primary);
    emitter.emit_primary_machine_record("{\"ok\":true}").unwrap();
    assert!(emitter.emit_primary_machine_record("\u{1b}[31m{\"ok\":false}").is_err());
    assert!(emitter.emit_primary_machine_record("{\"bad\":\"literal\nnewline\"}").is_err());
}

#[test]
fn diagnostics_cannot_interleave_on_primary_machine_stream() {
    let mut primary = ProtocolEmitter::new(Vec::<u8>::new(), StreamRole::Primary);
    assert!(primary.emit_diagnostic_line("progress 1/2").is_err());

    let mut diagnostics = ProtocolEmitter::new(Vec::<u8>::new(), StreamRole::Diagnostics);
    assert!(diagnostics.emit_primary_machine_record("{\"ok\":true}").is_err());
}

#[test]
fn write_all_preserves_records_across_partial_writes() {
    let writer = PartialWriter::new(2);
    let mut emitter = ProtocolEmitter::new(writer, StreamRole::Primary);
    emitter.emit_primary_human_line("abcdef").unwrap();
    let writer = emitter.into_inner();
    assert_eq!(writer.bytes, b"abcdef\n");
    assert_eq!(writer.flushes, 1);
}

#[test]
fn every_record_flushes_and_on_demand_does_not() {
    let writer = PartialWriter::new(32);
    let mut streaming = ProtocolEmitter::new(writer, StreamRole::Diagnostics);
    streaming.emit_diagnostic_line("one").unwrap();
    assert_eq!(streaming.into_inner().flushes, 1);

    let writer = PartialWriter::new(32);
    let mut buffered = ProtocolEmitter::new(writer, StreamRole::Primary).with_flush_policy(FlushPolicy::OnDemand);
    buffered.emit_primary_human_line("one").unwrap();
    let mut writer = buffered.into_inner();
    assert_eq!(writer.flushes, 0);
    writer.flush().unwrap();
    assert_eq!(writer.flushes, 1);
}

#[test]
fn head_style_broken_pipe_is_a_clean_top_level_disposition() {
    let mut emitter = ProtocolEmitter::new(BrokenPipeWriter, StreamRole::Primary);
    let result = top_level_io(emitter.emit_primary_human_line("record"));
    assert_eq!(result.unwrap(), EmitDisposition::ConsumerClosed);
}

#[test]
fn closed_diagnostics_pipe_can_be_classified_without_touching_primary_data() {
    let mut diagnostics = ProtocolEmitter::new(BrokenPipeWriter, StreamRole::Diagnostics);
    let result = top_level_io(diagnostics.emit_diagnostic_line("progress"));
    assert_eq!(result.unwrap(), EmitDisposition::ConsumerClosed);
}

#[test]
fn unrelated_io_failures_are_not_swallowed() {
    let error = io::Error::new(io::ErrorKind::PermissionDenied, "denied");
    let result = top_level_io(Err(error));
    assert_eq!(result.unwrap_err().kind(), io::ErrorKind::PermissionDenied);
}

#[test]
fn explicit_flush_failures_are_preserved() {
    let mut emitter = ProtocolEmitter::new(FlushFailWriter::default(), StreamRole::Primary);
    let error = emitter.emit_primary_human_line("record").unwrap_err();
    assert_eq!(error.kind(), io::ErrorKind::Other);
}

// Further cases of the stream protocol.

#[test]
fn successful_emission_is_written() {
    assert_eq!(top_level_io(Ok(())).unwrap(), EmitDisposition::Written);
    let mut emitter = ProtocolEmitter::new(Vec::<u8>::new(), StreamRole::Primary);
    assert_eq!(top_level_io(emitter.emit_primary_machine_record("{}")).unwrap(), EmitDisposition::Written);
    assert_eq!(emitter.into_inner(), b"{}\n".to_vec());
}

#[test]
fn rejected_records_are_invalid_input_and_write_nothing() {
    let mut emitter = ProtocolEmitter::new(PartialWriter::new(8), StreamRole::Primary);
    let error = emitter.emit_primary_machine_record("a\rb").unwrap_err();
    assert_eq!(error.kind(), io::ErrorKind::InvalidInput);
    let error = emitter.emit_diagnostic_line("wrong stream").unwrap_err();
    assert_eq!(error.kind(), io::ErrorKind::InvalidInput);
    let writer = emitter.into_inner();
    assert!(writer.bytes.is_empty());
    assert_eq!(writer.flushes, 0);
}

#[test]
fn escaped_newlines_inside_json_strings_are_accepted() {
    let mut emitter = ProtocolEmitter::new(Vec::<u8>::new(), StreamRole::Primary);
    emitter.emit_primary_machine_record("{\"text\":\"a\\nb\"}").unwrap();
    assert_eq!(emitter.into_inner(), b"{\"text\":\"a\\nb\"}\n".to_vec());
}

#[test]
fn emitters_report_their_role_and_explicit_flush_reaches_the_writer() {
    let mut emitter =
        ProtocolEmitter::new(PartialWriter::new(4), StreamRole::Diagnostics).with_flush_policy(FlushPolicy::OnDemand);
    assert_eq!(emitter.role(), StreamRole::Diagnostics);
    emitter.emit_diagnostic_line("x").unwrap();
    emitter.flush().unwrap();
    let writer = emitter.into_inner();
    assert_eq!(writer.bytes, b"x\n");
    assert_eq!(writer.flushes, 1);
    assert_eq!(FlushPolicy::default(), FlushPolicy::EveryRecord);
}

#[test]
fn failure_disposition_separates_closed_pipes_from_real_errors() {
    let closed = failure_disposition(true, io::Error::new(io::ErrorKind::BrokenPipe, "closed"));
    assert_eq!(closed.unwrap(), EmitDisposition::ConsumerClosed);
    let denied = failure_disposition(false, io::Error::new(io::ErrorKind::PermissionDenied, "denied"));
    let error = denied.unwrap_err();
    assert_eq!(error.kind(), io::ErrorKind::PermissionDenied);
    assert_eq!(error.to_string(), "denied");
}

#[derive(Debug, Default)]
struct FailAfterWriter {
    bytes: Vec<u8>,
    writes_left: usize,
    flushes: usize,
}

impl Write for FailAfterWriter {
    fn write(&mut self, buffer: &[u8]) -> io::Result<usize> {
        if self.writes_left == 0 {
            return Err(io::Error::new(io::ErrorKind::BrokenPipe, "closed"));
        }
        self.writes_left -= 1;
        self.bytes.extend_from_slice(buffer);
        Ok(buffer.len())
    }

    fn flush(&mut self) -> io::Result<()> {
        self.flushes += 1;
        Ok(())
    }
}

#[test]
fn numbered_stream_writes_every_record() {
    let mut emitter = ProtocolEmitter::new(Vec::<u8>::new(), StreamRole::Primary);
    assert_eq!(emit_sequence(&mut emitter, true, false, 3).unwrap(), EmitDisposition::Written);
    assert_eq!(emitter.into_inner(), b"{\"seq\":0}\n{\"seq\":1}\n{\"seq\":2}\n".to_vec());

    let mut human = ProtocolEmitter::new(Vec::<u8>::new(), StreamRole::Primary);
    assert_eq!(emit_sequence(&mut human, false, true, 1).unwrap(), EmitDisposition::Written);
    assert_eq!(human.into_inner(), b"\x1b[36mseq=0\x1b[0m\n".to_vec());
}

#[test]
fn numbered_stream_stops_cleanly_when_the_consumer_closes() {
    let writer = FailAfterWriter { writes_left: 3, ..FailAfterWriter::default() };
    let mut emitter = ProtocolEmitter::new(writer, StreamRole::Primary);
    assert_eq!(emit_sequence(&mut emitter, true, false, 1000).unwrap(), EmitDisposition::ConsumerClosed);
    let writer = emitter.into_inner();
    assert_eq!(writer.bytes, b"{\"seq\":0}\n{\"seq\":1}".to_vec());
    assert_eq!(writer.flushes, 1);
}

#[test]
fn sequence_records_are_spelled_in_decimal() {
    assert_eq!(sequence_record(true, true, 120), "{\"seq\":120}");
    assert_eq!(sequence_record(false, false, 7), "seq=7");
}

#[test]
fn stream_emitter_returns_the_first_failure_and_stops() {
    let writer = FailAfterWriter { writes_left: 1, ..FailAfterWriter::default() };
    let mut emitter = StreamEmitter::new(writer);
    let error = emitter.emit_line("abc").unwrap_err();
    assert_eq!(error.kind(), io::ErrorKind::BrokenPipe);
    let writer = emitter.into_inner();
    assert_eq!(writer.bytes, b"abc".to_vec());
    assert_eq!(writer.flushes, 0);
}

#[test]
fn refusals_are_invalid_input() {
    let mut emitter = StreamEmitter::new(Vec::<u8>::new());
    assert_eq!(emitter.emit_json_line("\u{1b}").unwrap_err().kind(), io::ErrorKind::InvalidInput);
    let mut primary = ProtocolEmitter::new(Vec::<u8>::new(), StreamRole::Primary);
    assert_eq!(primary.emit_diagnostic_line("x").unwrap_err().kind(), io::ErrorKind::InvalidInput);
    assert_eq!(top_level_io(primary.emit_primary_machine_record("a\nb")).unwrap_err().kind(), io::ErrorKind::InvalidInput);
}
