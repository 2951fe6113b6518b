use std::io::{self, Write};

use rustshot_wayland::logging::{
    unwritten, is_unusable, write_best_effort, write_best_effort_traced, write_step, IoFailure, StderrWriter, WriteAttempt, WriteStep,
};

struct Fail(io::ErrorKind);

impl Write for Fail {
    fn write(&mut self, buf: &[u8]) -> io::Result<usize> {
        let _ = buf;
        Err(io::Error::new(self.0, "nope"))
    }
    fn flush(&mut self) -> io::Result<()> {
        Ok(())
    }
}

struct PartialThenPipe {
    wrote: bool,
}

impl Write for PartialThenPipe {
    fn write(&mut self, buf: &[u8]) -> io::Result<usize> {
        if !self.wrote {
            self.wrote = true;
            Ok(1.min(buf.len()))
        } else {
            Err(io::Error::new(io::ErrorKind::BrokenPipe, "closed"))
        }
    }
    fn flush(&mut self) -> io::Result<()> {
        Ok(())
    }
}

/// Interrupted a few times, then takes two bytes per call.
struct Flaky {
    interrupts: u32,
    taken: Vec<u8>,
}

impl Write for Flaky {
    fn write(&mut self, buf: &[u8]) -> io::Result<usize> {
        if self.interrupts > 0 {
            self.interrupts -= 1;
            return Err(io::Error::new(io::ErrorKind::Interrupted, "again"));
        }
        let n = 2.min(buf.len());
        self.taken.extend_from_slice(&buf[..n]);
        Ok(n)
    }
    fn flush(&mut self) -> io::Result<()> {
        Ok(())
    }
}

struct Zero;

impl Write for Zero {
    fn write(&mut self, _buf: &[u8]) -> io::Result<usize> {
        Ok(0)
    }
    fn flush(&mut self) -> io::Result<()> {
        Ok(())
    }
}

#[test]
fn broken_pipe_counts_as_written() {
    let n = write_best_effort(&mut Fail(io::ErrorKind::BrokenPipe), b"hello").unwrap();
    assert_eq!(n, 5);
}

#[test]
fn other_io_errors_do_not_fail() {
    let n = write_best_effort(&mut Fail(io::ErrorKind::PermissionDenied), b"x").unwrap();
    assert_eq!(n, 1);
}

#[test]
fn successful_write_passes_through() {
    let mut buf = Vec::new();
    assert_eq!(write_best_effort(&mut buf, b"abc").unwrap(), 3);
    assert_eq!(buf, b"abc");
}

#[test]
fn partial_write_then_broken_pipe_is_ok() {
    let mut w = PartialThenPipe { wrote: false };
    assert_eq!(write_best_effort(&mut w, b"hello").unwrap(), 5);
}

#[test]
fn interruptions_are_retried_and_short_writes_continue() {
    let mut w = Flaky { interrupts: 3, taken: Vec::new() };
    assert_eq!(write_best_effort(&mut w, b"hello").unwrap(), 5);
    assert_eq!(w.taken, b"hello");
}

#[test]
fn a_sink_that_takes_nothing_is_given_up_on() {
    assert_eq!(write_best_effort(&mut Zero, b"abc").unwrap(), 3);
}

#[test]
fn empty_buffer_writes_nothing() {
    assert_eq!(write_best_effort(&mut Fail(io::ErrorKind::Other), b"").unwrap(), 0);
}

#[test]
fn unusable_kinds() {
    assert!(is_unusable(IoFailure::BrokenPipe));
    assert!(is_unusable(IoFailure::NotConnected));
    assert!(is_unusable(IoFailure::UnexpectedEof));
    assert!(!is_unusable(IoFailure::Interrupted));
    assert!(!is_unusable(IoFailure::Other));
}

#[test]
fn write_steps() {
    assert_eq!(write_step(5, WriteAttempt::Wrote(2)), WriteStep::Continue { remaining: 3 });
    assert_eq!(write_step(5, WriteAttempt::Wrote(5)), WriteStep::Stop);
    assert_eq!(write_step(5, WriteAttempt::Wrote(0)), WriteStep::Stop);
    assert_eq!(
        write_step(5, WriteAttempt::Failed(IoFailure::Interrupted)),
        WriteStep::Continue { remaining: 5 }
    );
    assert_eq!(write_step(5, WriteAttempt::Failed(IoFailure::Other)), WriteStep::Stop);
}

#[test]
fn stderr_writer_reports_whole_buffers() {
    let mut w = StderrWriter;
    assert_eq!(w.write(b"").unwrap(), 0);
    assert!(w.flush().is_ok());
}

#[test]
fn unwritten_is_the_tail() {
    assert_eq!(unwritten(b"hello", 5), b"hello");
    assert_eq!(unwritten(b"hello", 4), b"ello");
    assert_eq!(unwritten(b"hello", 0), b"");
}

/// Records what each call was handed; takes one byte, then reports a broken pipe.
struct Recorder {
    calls: Vec<Vec<u8>>,
}

impl Write for Recorder {
    fn write(&mut self, buf: &[u8]) -> io::Result<usize> {
        self.calls.push(buf.to_vec());
        if self.calls.len() == 1 {
            Ok(1.min(buf.len()))
        } else {
            Err(io::Error::new(io::ErrorKind::BrokenPipe, "closed"))
        }
    }
    fn flush(&mut self) -> io::Result<()> {
        Ok(())
    }
}

#[test]
fn each_call_gets_the_unwritten_tail() {
    let mut w = Recorder { calls: Vec::new() };
    assert_eq!(write_best_effort(&mut w, b"hello").unwrap(), 5);
    assert_eq!(w.calls, vec![b"hello".to_vec(), b"ello".to_vec()]);
    let mut none = Recorder { calls: Vec::new() };
    assert_eq!(write_best_effort(&mut none, b"").unwrap(), 0);
    assert!(none.calls.is_empty());
}

#[test]
fn traced_write_reports_the_whole_buffer() {
    let mut w = Recorder { calls: Vec::new() };
    let (r, _trace) = write_best_effort_traced(&mut w, b"abc");
    assert_eq!(r.unwrap(), 3);
    assert_eq!(w.calls, vec![b"abc".to_vec(), b"bc".to_vec()]);
    let mut v: Vec<u8> = Vec::new();
    let (r, _trace) = write_best_effort_traced(&mut v, b"abc");
    assert_eq!(r.unwrap(), 3);
    assert_eq!(v, b"abc");
}
