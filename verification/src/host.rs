//! What the plugin asks of its host.
use vstd::prelude::*;

use crate::document::{as_json, JsonText};
use crate::text::concat;

verus! {

/// An event for the host's activity log and canvas.
#[derive(Debug, PartialEq, Eq)]
pub enum AIEvent {
    /// A piece of terminal output, in base64.
    StreamingDelta { session_id: String, text: String },
    /// A tool was started or has finished.
    ToolCall { name: String },
    /// A file as a tool has left it.
    CrdtWrite { session_id: String, path: String, content: String },
    /// The session waits for its user again.
    TurnCompleted { session_id: String },
    /// Something went wrong.
    Error { message: String },
}

/// What an `AIEvent` says.
pub enum AIEventView {
    StreamingDelta { session_id: Seq<char>, text: Seq<char> },
    ToolCall { name: Seq<char> },
    CrdtWrite { session_id: Seq<char>, path: Seq<char>, content: Seq<char> },
    TurnCompleted { session_id: Seq<char> },
    Error { message: Seq<char> },
}

impl View for AIEvent {
    type V = AIEventView;

    open spec fn view(&self) -> AIEventView {
        match *self {
            AIEvent::StreamingDelta { session_id, text } => AIEventView::StreamingDelta {
                session_id: session_id@,
                text: text@,
            },
            AIEvent::ToolCall { name } => AIEventView::ToolCall { name: name@ },
            AIEvent::CrdtWrite { session_id, path, content } => AIEventView::CrdtWrite {
                session_id: session_id@,
                path: path@,
                content: content@,
            },
            AIEvent::TurnCompleted { session_id } => AIEventView::TurnCompleted {
                session_id: session_id@,
            },
            AIEvent::Error { message } => AIEventView::Error { message: message@ },
        }
    }
}

/// One thing for the host to do. Lists of calls are carried out from first to last.
#[derive(Debug, PartialEq, Eq)]
pub enum HostCall {
    /// Put a line into the host's log.
    Log { line: String },
    /// Push an event of a session.
    PushEvent { session_id: String, event: AIEvent },
    /// Show the components that a JSON text describes.
    PushUi { json: String },
    /// Read a file; what comes of it goes to `file_read`.
    ReadFile { path: String },
    /// Read what a terminal has to say; what comes of it goes to `pty_output`.
    PtyRead { handle: i32 },
    /// Write to a terminal.
    PtyWrite { handle: i32, bytes: Vec<u8> },
    /// Give a terminal another size.
    PtyResize { handle: i32, cols: i32, rows: i32 },
    /// Close a terminal.
    PtyClose { handle: i32 },
    /// Read from an event stream; what comes of it goes to `sidecar_poll`.
    SseRead { handle: i32 },
    /// Ask for an event stream without naming one.
    SseReset,
    /// Close an event stream.
    SseClose { handle: i32 },
    /// Kill a process.
    Kill { handle: i32 },
}

/// What a `HostCall` asks for.
pub enum HostCallView {
    Log { line: Seq<char> },
    PushEvent { session_id: Seq<char>, event: AIEventView },
    PushUi { json: JsonText },
    ReadFile { path: Seq<char> },
    PtyRead { handle: i32 },
    PtyWrite { handle: i32, bytes: Seq<u8> },
    PtyResize { handle: i32, cols: i32, rows: i32 },
    PtyClose { handle: i32 },
    SseRead { handle: i32 },
    SseReset,
    SseClose { handle: i32 },
    Kill { handle: i32 },
}

impl View for HostCall {
    type V = HostCallView;

    open spec fn view(&self) -> HostCallView {
        match *self {
            HostCall::Log { line } => HostCallView::Log { line: line@ },
            HostCall::PushEvent { session_id, event } => HostCallView::PushEvent {
                session_id: session_id@,
                event: event@,
            },
            HostCall::PushUi { json } => HostCallView::PushUi { json: as_json(json@) },
            HostCall::ReadFile { path } => HostCallView::ReadFile { path: path@ },
            HostCall::PtyRead { handle } => HostCallView::PtyRead { handle },
            HostCall::PtyWrite { handle, bytes } => HostCallView::PtyWrite {
                handle,
                bytes: bytes@,
            },
            HostCall::PtyResize { handle, cols, rows } => HostCallView::PtyResize {
                handle,
                cols,
                rows,
            },
            HostCall::PtyClose { handle } => HostCallView::PtyClose { handle },
            HostCall::SseRead { handle } => HostCallView::SseRead { handle },
            HostCall::SseReset => HostCallView::SseReset,
            HostCall::SseClose { handle } => HostCallView::SseClose { handle },
            HostCall::Kill { handle } => HostCallView::Kill { handle },
        }
    }
}

/// What a list of calls asks for, call by call.
pub open spec fn call_views(calls: Seq<HostCall>) -> Seq<HostCallView> {
    calls.map_values(|call: HostCall| call@)
}

/// What begins every line of the plugin in the host's log.
pub const LOG_MARK: &'static str = "[opencode-plugin] ";

/// A line of the plugin in the host's log.
pub open spec fn log_line(message: Seq<char>) -> Seq<char> {
    "[opencode-plugin] "@ + message
}

/// The call that logs a message.
pub open spec fn logged(message: Seq<char>) -> HostCallView {
    HostCallView::Log { line: log_line(message) }
}

/// A line of the plugin in the host's log.
pub fn log_text(message: &str) -> (line: String)
    ensures
        line@ == log_line(message@),
{
    concat(LOG_MARK, message)
}

/// The call that logs a message.
pub fn log(message: &str) -> (call: HostCall)
    ensures
        call@ == logged(message@),
{
    HostCall::Log { line: log_text(message) }
}

/// The call that pushes `event` for the session `session_id`.
pub fn push_ai_event(session_id: &str, event: AIEvent) -> (call: HostCall)
    ensures
        call@ == (HostCallView::PushEvent { session_id: session_id@, event: event@ }),
{
    HostCall::PushEvent { session_id: session_id.to_owned(), event }
}

} // verus!
