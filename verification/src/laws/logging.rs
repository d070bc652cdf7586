//! Laws of logging.

use crate::logging;
use crate::logging::LogSink;
use vstd::prelude::*;

verus! {

/// Whatever a sink makes of it, it is handed one line, in UTF-8: the scope and the
/// level in brackets behind the bridge's own name, then the message, then a line
/// feed.
pub proof fn law_line_is_handed_over<S: LogSink>(
    sink: &mut S,
    scope: &str,
    level: &str,
    msg: &str,
    line: Seq<char>,
)
    requires
        call_ensures(logging::write_log::<S>, (sink, scope, level, msg), ()),
        line == "[MCP]["@ + scope@ + "]["@ + level@ + "] "@ + msg@ + "\n"@,
    ensures
        S::may_write(*old(sink), vstd::utf8::encode_utf8(line), *final(sink)),
{
}

/// Information and errors are lines of those levels.
pub proof fn law_levels<S: LogSink>(
    out: &mut S,
    err: &mut S,
    scope: &str,
    msg: &str,
    info_line: Seq<char>,
    error_line: Seq<char>,
)
    requires
        call_ensures(logging::mcp_log_info::<S>, (out, scope, msg), ()),
        call_ensures(logging::mcp_log_error::<S>, (err, scope, msg), ()),
        info_line == "[MCP]["@ + scope@ + "]["@ + "INFO"@ + "] "@ + msg@ + "\n"@,
        error_line == "[MCP]["@ + scope@ + "]["@ + "ERROR"@ + "] "@ + msg@ + "\n"@,
    ensures
        S::may_write(*old(out), vstd::utf8::encode_utf8(info_line), *final(out)),
        S::may_write(*old(err), vstd::utf8::encode_utf8(error_line), *final(err)),
{
}

/// A buffer holds what it held before, and behind that the line.
pub proof fn law_buffer_keeps_lines(
    sink: &mut Vec<u8>,
    scope: &str,
    level: &str,
    msg: &str,
    line: Seq<char>,
)
    requires
        call_ensures(logging::write_log::<Vec<u8>>, (sink, scope, level, msg), ()),
        line == "[MCP]["@ + scope@ + "]["@ + level@ + "] "@ + msg@ + "\n"@,
    ensures
        final(sink)@ == old(sink)@ + vstd::utf8::encode_utf8(line),
{
}

} // verus!
