use tauri_plugin_mcp_bridge::logging::{
    mcp_log_error, mcp_log_info, write_log, LogSink, WriteRefused,
};

/// A sink that refuses everything, standing in for a stdout/stderr pipe whose
/// reader has closed.
struct AlwaysBrokenPipe;

impl LogSink for AlwaysBrokenPipe {
    fn write_all(&mut self, _bytes: &[u8]) -> Result<(), WriteRefused> {
        Err(WriteRefused)
    }
}

/// A sink that keeps what it is given, and counts how often it is called.
struct Recorder {
    calls: usize,
    bytes: Vec<u8>,
}

impl LogSink for Recorder {
    fn write_all(&mut self, bytes: &[u8]) -> Result<(), WriteRefused> {
        self.calls += 1;
        self.bytes.extend_from_slice(bytes);
        Err(WriteRefused)
    }
}

#[test]
fn write_log_swallows_broken_pipe_without_panicking() {
    write_log(&mut AlwaysBrokenPipe, "WS", "INFO", "client disconnected");
}

#[test]
fn write_log_writes_formatted_line_to_healthy_sink() {
    let mut sink: Vec<u8> = Vec::new();
    write_log(&mut sink, "WS", "ERROR", "boom");
    assert_eq!(sink, b"[MCP][WS][ERROR] boom\n");
}

#[test]
fn write_log_hands_over_the_line_once() {
    let mut sink = Recorder { calls: 0, bytes: Vec::new() };
    write_log(&mut sink, "EXECUTE_JS", "INFO", "größer");
    assert_eq!(sink.calls, 1);
    assert_eq!(sink.bytes, "[MCP][EXECUTE_JS][INFO] größer\n".as_bytes());
}

#[test]
fn write_log_appends_to_a_buffer() {
    let mut sink: Vec<u8> = b"before\n".to_vec();
    write_log(&mut sink, "", "", "");
    assert_eq!(sink, b"before\n[MCP][][] \n");
}

#[test]
fn levels_of_the_log_functions() {
    let mut sink: Vec<u8> = Vec::new();
    mcp_log_info(&mut sink, "WS", "up");
    mcp_log_error(&mut sink, "WS", "down");
    assert_eq!(sink, b"[MCP][WS][INFO] up\n[MCP][WS][ERROR] down\n");
}

#[test]
fn log_functions_swallow_a_broken_pipe() {
    mcp_log_info(&mut AlwaysBrokenPipe, "WS", "up");
    mcp_log_error(&mut AlwaysBrokenPipe, "WS", "down");
}
