//! Log output that must not take the process down.
//!
//! `eprint!` panics when stderr is a closed pipe, and the tracing formatter
//! prints to stderr whenever its writer fails. So the writer reports every
//! write as complete, whatever the sink did with it.

use vstd::prelude::*;
use std::io::ErrorKind;
use std::io::Write;

verus! {

#[verifier::external_type_specification]
#[verifier::external_body]
pub struct ExIoError(std::io::Error);

/// The stderr log sink. Its `Write` impl goes through [`write_best_effort`].
#[derive(Clone, Copy, Debug, Default)]
pub struct StderrWriter;

/// How a write to the sink failed, by the error's kind.
#[derive(Debug, Clone, Copy, PartialEq, Eq, Structural)]
pub enum IoFailure {
    /// Retry: the call was interrupted before anything was written.
    Interrupted,
    BrokenPipe,
    NotConnected,
    UnexpectedEof,
    /// Any other kind.
    Other,
}

/// The sink is gone for good: its reader hung up.
pub open spec fn unusable(f: IoFailure) -> bool {
    f == IoFailure::BrokenPipe || f == IoFailure::NotConnected || f == IoFailure::UnexpectedEof
}

pub fn is_unusable(f: IoFailure) -> (r: bool)
    ensures
        r == unusable(f),
{
    match f {
        IoFailure::BrokenPipe | IoFailure::NotConnected | IoFailure::UnexpectedEof => true,
        _ => false,
    }
}

/// One call of a sink's `write`.
#[derive(Debug, Clone, Copy, PartialEq, Eq, Structural)]
pub enum WriteAttempt {
    /// This many leading bytes were taken.
    Wrote(usize),
    Failed(IoFailure),
}

/// What the writing loop does after one attempt on the `remaining` unwritten
/// bytes.
#[derive(Debug, Clone, Copy, PartialEq, Eq, Structural)]
pub enum WriteStep {
    /// Write the last `remaining` bytes next.
    Continue { remaining: usize },
    /// Stop.
    Stop,
}

/// A sink that takes nothing or fails for any reason but an interruption is
/// given up on; an interruption is retried; otherwise the loop goes on with
/// what is left, until nothing is.
pub open spec fn step_of(remaining: usize, a: WriteAttempt) -> WriteStep {
    match a {
        WriteAttempt::Wrote(n) => if n == 0 || n >= remaining {
            WriteStep::Stop
        } else {
            WriteStep::Continue { remaining: (remaining - n) as usize }
        },
        WriteAttempt::Failed(f) => if f == IoFailure::Interrupted {
            WriteStep::Continue { remaining }
        } else {
            WriteStep::Stop
        },
    }
}

pub fn write_step(remaining: usize, a: WriteAttempt) -> (s: WriteStep)
    requires
        a matches WriteAttempt::Wrote(n) ==> n <= remaining,
    ensures
        s == step_of(remaining, a),
{
    match a {
        WriteAttempt::Wrote(n) => {
            if n == 0 || n >= remaining {
                WriteStep::Stop
            } else {
                WriteStep::Continue { remaining: remaining - n }
            }
        },
        WriteAttempt::Failed(f) => {
            if let IoFailure::Interrupted = f {
                WriteStep::Continue { remaining }
            } else {
                WriteStep::Stop
            }
        },
    }
}

/// Every step either stops, retries the same bytes after an interruption, or
/// makes progress.
pub proof fn lemma_step_progress(remaining: usize, a: WriteAttempt)
    requires
        a matches WriteAttempt::Wrote(n) ==> n <= remaining,
    ensures
        step_of(remaining, a) matches WriteStep::Continue { remaining: r } ==> (r < remaining
            || (r == remaining && a == WriteAttempt::Failed(IoFailure::Interrupted))),
{
}

/// What a step leaves to write is what was left less what the sink took: a
/// partial write continues with the rest, an interruption retries all of
/// it, and an empty write, a complete write or any other failure ends the
/// loop.
pub proof fn lemma_step_accounting(remaining: usize, n: usize, f: IoFailure)
    requires
        n <= remaining,
    ensures
        0 < n < remaining ==> step_of(remaining, WriteAttempt::Wrote(n)) == (WriteStep::Continue {
            remaining: (remaining - n) as usize,
        }),
        step_of(remaining, WriteAttempt::Wrote(n)) matches WriteStep::Continue { remaining: r }
            ==> r + n == remaining && n > 0,
        step_of(remaining, WriteAttempt::Wrote(0)) == WriteStep::Stop,
        step_of(remaining, WriteAttempt::Wrote(remaining)) == WriteStep::Stop,
        step_of(remaining, WriteAttempt::Failed(IoFailure::Interrupted)) == (WriteStep::Continue {
            remaining,
        }),
        f != IoFailure::Interrupted ==> step_of(remaining, WriteAttempt::Failed(f))
            == WriteStep::Stop,
{
}

/// One `write` call on the sink. `std::io::Write::write` documents that a
/// returned count is at most the buffer's length; nothing else is known of
/// the outcome, which depends on the sink. Error kinds are told apart as
/// [`IoFailure`] has them.
#[verifier::external_body]
fn write_some<W: Write + ?Sized>(out: &mut W, buf: &[u8]) -> (r: WriteAttempt)
    ensures
        r matches WriteAttempt::Wrote(n) ==> n <= buf@.len(),
{
    match out.write(buf) {
        Ok(n) => WriteAttempt::Wrote(n),
        Err(e) => WriteAttempt::Failed(match e.kind() {
            ErrorKind::Interrupted => IoFailure::Interrupted,
            ErrorKind::BrokenPipe => IoFailure::BrokenPipe,
            ErrorKind::NotConnected => IoFailure::NotConnected,
            ErrorKind::UnexpectedEof => IoFailure::UnexpectedEof,
            _ => IoFailure::Other,
        }),
    }
}

/// The bytes still to be written when the last `remaining` bytes of `buf`
/// are unwritten.
pub open spec fn unwritten_of(buf: Seq<u8>, remaining: int) -> Seq<u8> {
    buf.subrange(buf.len() - remaining, buf.len() as int)
}

/// The slice the sink is handed next: the unwritten tail of `buf`.
pub fn unwritten(buf: &[u8], remaining: usize) -> (r: &[u8])
    requires
        remaining <= buf@.len(),
    ensures
        r@ == unwritten_of(buf@, remaining as int),
{
    let len = buf.len();
    &buf[len - remaining..len]
}

/// A run of `write` calls on `buf` so far: call `i` was handed `sent[i]` and
/// answered `attempts[i]`; `left[i]` bytes were unwritten before call `i`,
/// the first call gets the whole buffer, each call gets the unwritten tail,
/// and every call but a last one that stopped the run continued it as
/// `step_of` decides.
pub open spec fn write_run(
    buf: Seq<u8>,
    sent: Seq<Seq<u8>>,
    attempts: Seq<WriteAttempt>,
    left: Seq<int>,
) -> bool {
    &&& sent.len() == attempts.len()
    &&& left.len() == sent.len() + 1
    &&& left[0] == buf.len()
    &&& forall|i: int| 0 <= i < sent.len() ==> 0 < #[trigger] left[i] <= buf.len()
    &&& forall|i: int| 0 <= i < sent.len() ==> #[trigger] sent[i] == unwritten_of(buf, left[i])
    &&& forall|i: int|
        0 <= i < sent.len() ==> #[trigger] step_of(left[i] as usize, attempts[i])
            == WriteStep::Continue { remaining: left[i + 1] as usize }
}

/// A finished run of `write` calls on `buf`: it went on (see `write_run`)
/// until nothing was left, or its last call (handed the unwritten tail)
/// stopped it, or it gave up after `u64::MAX + 1` interruptions in a row.
/// An empty buffer makes no call.
pub open spec fn write_run_done(
    buf: Seq<u8>,
    sent: Seq<Seq<u8>>,
    attempts: Seq<WriteAttempt>,
    left: Seq<int>,
) -> bool {
    ||| write_run(buf, sent, attempts, left) && left.last() == 0
    ||| {
        &&& sent.len() > 0
        &&& write_run(buf, sent.drop_last(), attempts.drop_last(), left)
        &&& 0 < left.last()
        &&& sent.last() == unwritten_of(buf, left.last())
        &&& step_of(left.last() as usize, attempts.last()) == WriteStep::Stop
    }
    ||| {
        &&& write_run(buf, sent, attempts, left)
        &&& attempts.len() > u64::MAX
        &&& forall|k: int|
            attempts.len() - u64::MAX - 1 <= k < attempts.len() ==> #[trigger] attempts[k]
                == WriteAttempt::Failed(IoFailure::Interrupted)
    }
}

/// [`write_best_effort`], also giving the run of calls it made: what each
/// `write` was handed and what it answered, and the unwritten count before
/// each call.
pub fn write_best_effort_traced<W: Write + ?Sized>(out: &mut W, buf: &[u8]) -> (r: (
    std::io::Result<usize>,
    Ghost<(Seq<Seq<u8>>, Seq<WriteAttempt>, Seq<int>)>,
))
    ensures
        r.0 matches Ok(n) && n == buf@.len(),
        write_run_done(buf@, r.1@.0, r.1@.1, r.1@.2),
{
    let len = buf.len();
    let mut remaining: usize = len;
    let mut retries: u64 = 0;
    let ghost mut sent: Seq<Seq<u8>> = Seq::empty();
    let ghost mut attempts: Seq<WriteAttempt> = Seq::empty();
    let ghost mut left: Seq<int> = seq![len as int];
    while remaining > 0
        invariant
            remaining <= len,
            len == buf@.len(),
            write_run(buf@, sent, attempts, left),
            left.last() == remaining,
            retries <= attempts.len(),
            forall|k: int|
                attempts.len() - retries <= k < attempts.len() ==> #[trigger] attempts[k]
                    == WriteAttempt::Failed(IoFailure::Interrupted),
        decreases remaining, u64::MAX - retries,
    {
        let rest = unwritten(buf, remaining);
        let a = write_some(out, rest);
        let step = write_step(remaining, a);
        let ghost old_sent = sent;
        let ghost old_attempts = attempts;
        proof {
            sent = sent.push(rest@);
            attempts = attempts.push(a);
        }
        match step {
            WriteStep::Stop => {
                proof {
                    assert(sent.drop_last() =~= old_sent);
                    assert(attempts.drop_last() =~= old_attempts);
                }
                return (Ok(len), Ghost((sent, attempts, left)));
            },
            WriteStep::Continue { remaining: r } => {
                proof {
                    let ghost old_left = left;
                    left = left.push(r as int);
                    assert forall|i: int| 0 <= i < sent.len() implies 0 < #[trigger] left[i]
                        <= buf@.len() by {
                        if i < sent.len() - 1 {
                            assert(left[i] == old_left[i]);
                        }
                    }
                    assert forall|i: int| 0 <= i < sent.len() implies #[trigger] sent[i]
                        == unwritten_of(buf@, left[i]) by {
                        if i < sent.len() - 1 {
                            assert(left[i] == old_left[i]);
                        }
                    }
                    assert forall|i: int| 0 <= i < sent.len() implies #[trigger] step_of(
                        left[i] as usize,
                        attempts[i],
                    ) == WriteStep::Continue { remaining: left[i + 1] as usize } by {
                        if i < sent.len() - 1 {
                            assert(left[i] == old_left[i] && left[i + 1] == old_left[i + 1]);
                        }
                    }
                }
                if r == remaining {
                    assert(a == WriteAttempt::Failed(IoFailure::Interrupted));
                    if retries == u64::MAX {
                        proof {
                            assert forall|k: int|
                                attempts.len() - u64::MAX - 1 <= k < attempts.len() implies
                                #[trigger] attempts[k] == WriteAttempt::Failed(
                                IoFailure::Interrupted,
                            ) by {
                                if k < attempts.len() - 1 {
                                    assert(attempts[k] == old_attempts[k]);
                                }
                            }
                        }
                        return (Ok(len), Ghost((sent, attempts, left)));
                    }
                    retries = retries + 1;
                    proof {
                        assert forall|k: int|
                            attempts.len() - retries <= k < attempts.len() implies #[trigger] attempts[k]
                            == WriteAttempt::Failed(IoFailure::Interrupted) by {
                            if k < attempts.len() - 1 {
                                assert(attempts[k] == old_attempts[k]);
                            }
                        }
                    }
                } else {
                    retries = 0;
                }
                remaining = r;
            },
        }
    }
    (Ok(len), Ghost((sent, attempts, left)))
}

/// Write all of `buf` to `out` as far as the sink lets it, and report the
/// whole buffer as written in every case, so the caller never sees an error.
/// The first call gets the whole buffer and every further call the bytes
/// still unwritten ([`unwritten`]); [`write_step`] decides after each call
/// whether to go on, and an empty buffer makes no call. The calls made are
/// those of [`write_best_effort_traced`].
///
/// Interruptions are retried, up to `u64::MAX` in a row.
pub fn write_best_effort<W: Write + ?Sized>(out: &mut W, buf: &[u8]) -> (r: std::io::Result<
    usize,
>)
    ensures
        r matches Ok(n) && n == buf@.len(),
{
    let (r, _trace) = write_best_effort_traced(out, buf);
    r
}

#[verifier::external_type_specification]
#[verifier::external_body]
pub struct ExStderr(std::io::Stderr);

/// A handle to the process's standard error stream (`std::io::stderr`).
#[verifier::external_body]
fn stderr_handle() -> std::io::Stderr {
    std::io::stderr()
}

/// `Write::flush` on a standard error handle, its outcome ignored.
#[verifier::external_body]
fn flush_ignoring(out: &mut std::io::Stderr) {
    let _ = out.flush();
}

impl Write for StderrWriter {
    /// Writes to standard error as far as it takes the bytes, and reports the
    /// whole buffer as written.
    fn write(&mut self, buf: &[u8]) -> (r: std::io::Result<usize>)
        ensures
            r matches Ok(n) && n == buf@.len(),
    {
        write_best_effort(&mut stderr_handle(), buf)
    }

    /// Flushes standard error and reports success whatever the flush did.
    fn flush(&mut self) -> (r: std::io::Result<()>)
        ensures
            r is Ok,
    {
        let mut err = stderr_handle();
        flush_ignoring(&mut err);
        Ok(())
    }
}

} // verus!
