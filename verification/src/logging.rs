//! Log lines, and writing them without ever failing.
//!
//! The bridge runs inside the application that it drives. When the reader of
//! the process's output goes away, a write fails, and that failure must not
//! reach the application: it is dropped.

use vstd::prelude::*;

verus! {

/// Says that a sink did not take what it was given.
#[derive(Debug, Clone, Copy, PartialEq, Eq)]
pub struct WriteRefused;

/// A place that log lines go to.
pub trait LogSink: Sized {
    /// Whether writing `bytes` may turn the sink `before` into the sink `after`,
    /// be the write taken or refused. A sink of which nothing is known may turn
    /// into any other.
    open spec fn may_write(before: Self, bytes: Seq<u8>, after: Self) -> bool {
        true
    }

    /// Writes `bytes`, all of them or with a refusal.
    fn write_all(&mut self, bytes: &[u8]) -> (r: Result<(), WriteRefused>)
        ensures
            Self::may_write(*old(self), bytes@, *final(self)),
    ;
}

/// A buffer takes everything, behind what it already holds.
impl LogSink for Vec<u8> {
    open spec fn may_write(before: Self, bytes: Seq<u8>, after: Self) -> bool {
        after@ == before@ + bytes
    }

    fn write_all(&mut self, bytes: &[u8]) -> (r: Result<(), WriteRefused>)
        ensures
            r is Ok,
    {
        let ghost before = self@;
        let mut i: usize = 0;
        while i < bytes.len()
            invariant
                i <= bytes.len(),
                self@ == before + bytes@.take(i as int),
            decreases bytes.len() - i,
        {
            self.push(bytes[i]);
            i = i + 1;
        }
        assert(bytes@.take(i as int) == bytes@);
        Ok(())
    }
}

/// The line that `msg` makes, its line feed included.
pub open spec fn log_line(scope: Seq<char>, level: Seq<char>, msg: Seq<char>) -> Seq<char> {
    "[MCP]["@ + scope + "]["@ + level + "] "@ + msg + "\n"@
}

/// Formats a log line and writes it, dropping any refusal.
///
/// Whatever the sink makes of it, it is handed the whole line, once, in UTF-8.
pub fn write_log<S: LogSink>(w: &mut S, scope: &str, level: &str, msg: &str)
    ensures
        S::may_write(
            *old(w),
            vstd::utf8::encode_utf8(log_line(scope@, level@, msg@)),
            *final(w),
        ),
{
    let mut line = "[MCP][".to_owned();
    line.append(scope);
    line.append("][");
    line.append(level);
    line.append("] ");
    line.append(msg);
    line.append("\n");
    let _ = w.write_all(line.as_str().as_bytes());
}

/// Logs `msg` at the level of information.
pub fn mcp_log_info<S: LogSink>(out: &mut S, scope: &str, msg: &str)
    ensures
        S::may_write(
            *old(out),
            vstd::utf8::encode_utf8(log_line(scope@, "INFO"@, msg@)),
            *final(out),
        ),
{
    write_log(out, scope, "INFO", msg);
}

/// Logs `msg` as an error.
pub fn mcp_log_error<S: LogSink>(out: &mut S, scope: &str, msg: &str)
    ensures
        S::may_write(
            *old(out),
            vstd::utf8::encode_utf8(log_line(scope@, "ERROR"@, msg@)),
            *final(out),
        ),
{
    write_log(out, scope, "ERROR", msg);
}

} // verus!
