//! The logic of a bridge that lets an outside client drive the webviews of a
//! desktop application: which webview a request is meant for, how a script is
//! prepared and its result read back, how the windows are listed, and what is
//! logged.

pub mod json;
pub mod laws;
pub mod logging;
pub mod reply;
pub mod resolve;
pub mod roundtrip;
pub mod script;
pub mod text;
pub mod windows;
