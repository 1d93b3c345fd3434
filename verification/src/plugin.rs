//! What the plugin keeps between the host's calls.
use vstd::prelude::*;

use crate::document::printed;
use crate::host::{HostCall, HostCallView};
use crate::number::{append_decimal, decimal};
use crate::ui::{terminal_tree, terminal_ui};

verus! {

/// The width that a terminal has at first.
pub const DEFAULT_COLS: i32 = 80;

/// The height that a terminal has at first.
pub const DEFAULT_ROWS: i32 = 24;

/// The handle that stands for none.
pub const NO_HANDLE: i32 = -1;

/// The plugin's state.
#[derive(Debug, PartialEq, Eq)]
pub struct Plugin {
    /// The terminal in which the user's client runs.
    pub pty_handle: i32,
    /// The width of the terminal.
    pub cols: i32,
    /// The height of the terminal.
    pub rows: i32,
    /// The server's process.
    pub serve_handle: i32,
    /// The port that the server listens on, 0 until it is known.
    pub server_port: u16,
    /// The stream of the server's events.
    pub sse_handle: i32,
    /// The bytes of the stream that are not yet a complete event.
    pub line_buf: Vec<u8>,
}

/// What a `Plugin` holds.
pub struct PluginView {
    pub pty_handle: i32,
    pub cols: i32,
    pub rows: i32,
    pub serve_handle: i32,
    pub server_port: u16,
    pub sse_handle: i32,
    pub line_buf: Seq<u8>,
}

impl View for Plugin {
    type V = PluginView;

    open spec fn view(&self) -> PluginView {
        PluginView {
            pty_handle: self.pty_handle,
            cols: self.cols,
            rows: self.rows,
            serve_handle: self.serve_handle,
            server_port: self.server_port,
            sse_handle: self.sse_handle,
            line_buf: self.line_buf@,
        }
    }
}

impl PluginView {
    /// The state before anything has been started.
    pub open spec fn idle() -> PluginView {
        PluginView {
            pty_handle: NO_HANDLE,
            cols: 80,
            rows: 24,
            serve_handle: NO_HANDLE,
            server_port: 0,
            sse_handle: NO_HANDLE,
            line_buf: seq![],
        }
    }

    /// The call that shows the terminal with the handle `handle`, at the size that is kept.
    pub open spec fn shown(self, handle: i32) -> HostCallView {
        HostCallView::PushUi { json: printed(terminal_tree(handle, self.cols, self.rows)) }
    }
}

impl Plugin {
    /// The state before anything has been started.
    pub fn new() -> (plugin: Plugin)
        ensures
            plugin@ == PluginView::idle(),
    {
        Plugin {
            pty_handle: NO_HANDLE,
            cols: DEFAULT_COLS,
            rows: DEFAULT_ROWS,
            serve_handle: NO_HANDLE,
            server_port: 0,
            sse_handle: NO_HANDLE,
            line_buf: Vec::new(),
        }
    }
}

/// The call that shows the terminal with the handle `handle`, at the size that is kept.
pub fn push_terminal_ui(plugin: &Plugin, handle: i32) -> (call: HostCall)
    ensures
        call@ == plugin@.shown(handle),
{
    HostCall::PushUi { json: terminal_ui(handle, plugin.cols, plugin.rows) }
}

/// The address of the server.
pub open spec fn server_address(port: u16) -> Seq<char> {
    "http://127.0.0.1:"@ + decimal(port as nat)
}

/// The address of the server.
pub fn server_url(port: u16) -> (url: String)
    ensures
        url@ == server_address(port),
{
    let mut url: String = "http://127.0.0.1:".to_owned();
    append_decimal(&mut url, port as u32);
    url
}

/// The address of the stream of the server's events, to be opened by the host.
pub fn start_sidecar(port: u16) -> (url: String)
    ensures
        url@ == server_address(port) + "/global/event"@,
{
    let mut url: String = server_url(port);
    url.append("/global/event");
    url
}

/// Keeps the handle of the stream of events where the host could open it: handles of open
/// streams are positive.
pub fn sidecar_started(plugin: &mut Plugin, handle: i32)
    ensures
        final(plugin)@ == (PluginView {
            sse_handle: if handle > 0 {
                handle
            } else {
                old(plugin)@.sse_handle
            },
            ..old(plugin)@
        }),
{
    if handle > 0 {
        plugin.sse_handle = handle;
    }
}

} // verus!
