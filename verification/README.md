# tauri-plugin-mcp-bridge

The logic of a bridge that lets an outside client drive the webviews of a Tauri
application, with its behaviour stated in contracts and proved with Verus.

- `src/` is the verified library.
  - `script`: preparing a script for native evaluation or for the event roundtrip
  - `json`: JSON values, read with `serde_json`
  - `reply`: what a script comes to, and what the caller is told of it
  - `roundtrip`: the course of an execution that reports by event
  - `windows`: listing windows and webviews
  - `resolve`: finding the webview that a request is meant for
  - `logging`: log lines, and writing them without ever failing
  - `text`: reading and building text
- `tests/` runs the library.
- `app/` is the plugin around it: commands, handles, channels and output.

What is trusted is marked `#[verifier::external_body]` and says in its doc comment
what it claims: reading JSON (`json`) and drawing an execution id (`roundtrip`).
