//! The actions of the host, and what its reads come to.
use vstd::array::array_as_slice;
use vstd::prelude::*;
use vstd::slice::slice_subrange;

use crate::armor::{base64_bytes, base64_text, decode, encode};
use crate::events::text_or;
use crate::host::{
    call_views, log, logged, push_ai_event, AIEvent, AIEventView, HostCall, HostCallView,
};
use crate::json::{Json, JsonTree};
use crate::plugin::{push_terminal_ui, Plugin, PluginView, NO_HANDLE};
use crate::sse::{frames, process_sse_event, raw_event_calls, remainder, take_events};
use crate::text::{concat, same_text};

verus! {

/// The session that a terminal's output belongs to.
pub const PTY_SESSION: &'static str = "opencode-pty";

/// `n` in 32 bits: the number between -2^31 and 2^31 - 1 that differs from it by a multiple
/// of 2^32.
pub open spec fn wrapped(n: i64) -> i32 {
    let low = n as int % 0x1_0000_0000;
    if low < 0x8000_0000 {
        low as i32
    } else {
        (low - 0x1_0000_0000) as i32
    }
}

/// The integer member `key` of an action's payload, in 32 bits, or `default` where the payload
/// has none.
pub open spec fn int_field(payload: JsonTree, key: Seq<char>, default: i32) -> i32 {
    match payload.get(key) {
        Some(member) => match member.integer() {
            Some(n) => wrapped(n),
            None => default,
        },
        None => default,
    }
}

/// The handle in an action's payload, -1 where there is none.
pub open spec fn handle_field(payload: JsonTree) -> i32 {
    int_field(payload, "handle"@, NO_HANDLE)
}

/// The bytes that the host is to type into a terminal: the payload's base64 text `data`.
pub open spec fn typed_bytes(payload: JsonTree) -> Option<Seq<u8>> {
    base64_bytes(text_or(payload.get("data"@), ""@))
}

/// What closing leads to: whatever is still open is closed, then an empty terminal is shown.
pub open spec fn close_calls(plugin: PluginView, handle: i32) -> Seq<HostCallView> {
    let pty = if handle >= 0 {
        seq![HostCallView::PtyClose { handle }]
    } else {
        seq![]
    };
    let sse = if plugin.sse_handle > 0 {
        seq![HostCallView::SseReset, HostCallView::SseClose { handle: plugin.sse_handle }]
    } else {
        seq![]
    };
    let serve = if plugin.serve_handle >= 0 {
        seq![HostCallView::Kill { handle: plugin.serve_handle }]
    } else {
        seq![]
    };
    pty + sse + serve + seq![plugin.shown(NO_HANDLE)]
}

/// The state after closing.
pub open spec fn close_state(plugin: PluginView, handle: i32) -> PluginView {
    PluginView {
        pty_handle: if handle >= 0 {
            NO_HANDLE
        } else {
            plugin.pty_handle
        },
        sse_handle: if plugin.sse_handle > 0 {
            NO_HANDLE
        } else {
            plugin.sse_handle
        },
        serve_handle: if plugin.serve_handle >= 0 {
            NO_HANDLE
        } else {
            plugin.serve_handle
        },
        ..plugin
    }
}

/// What an action leads to.
pub open spec fn action_calls(
    plugin: PluginView,
    action: Seq<char>,
    payload: JsonTree,
) -> Seq<HostCallView> {
    let handle = handle_field(payload);
    if action == "pty_poll"@ {
        if handle < 0 {
            seq![]
        } else {
            seq![HostCallView::PtyRead { handle }]
        }
    } else if action == "pty_input"@ {
        match typed_bytes(payload) {
            Some(bytes) => if handle >= 0 && bytes.len() > 0 {
                seq![HostCallView::PtyWrite { handle, bytes }]
            } else {
                seq![]
            },
            None => seq![],
        }
    } else if action == "pty_resize"@ {
        if handle < 0 {
            seq![]
        } else {
            seq![
                HostCallView::PtyResize {
                    handle,
                    cols: int_field(payload, "cols"@, 80),
                    rows: int_field(payload, "rows"@, 24),
                },
            ]
        }
    } else if action == "pty_close"@ {
        close_calls(plugin, handle)
    } else if action == "sidecar_poll"@ {
        if plugin.sse_handle > 0 {
            seq![HostCallView::SseRead { handle: plugin.sse_handle }]
        } else {
            seq![]
        }
    } else {
        seq![logged("Unknown action: "@ + action)]
    }
}

/// The state after an action.
pub open spec fn action_state(
    plugin: PluginView,
    action: Seq<char>,
    payload: JsonTree,
) -> PluginView {
    let handle = handle_field(payload);
    if action == "pty_resize"@ && handle >= 0 {
        PluginView {
            cols: int_field(payload, "cols"@, 80),
            rows: int_field(payload, "rows"@, 24),
            ..plugin
        }
    } else if action == "pty_close"@ {
        close_state(plugin, handle)
    } else {
        plugin
    }
}

/// The names of the actions differ.
pub proof fn lemma_actions_differ()
    ensures
        "pty_poll"@ != "pty_input"@,
        "pty_poll"@ != "pty_resize"@,
        "pty_poll"@ != "pty_close"@,
        "pty_poll"@ != "sidecar_poll"@,
        "pty_input"@ != "pty_resize"@,
        "pty_input"@ != "pty_close"@,
        "pty_input"@ != "sidecar_poll"@,
        "pty_resize"@ != "pty_close"@,
        "pty_resize"@ != "sidecar_poll"@,
        "pty_close"@ != "sidecar_poll"@,
{
    reveal_strlit("pty_poll");
    reveal_strlit("pty_input");
    reveal_strlit("pty_resize");
    reveal_strlit("pty_close");
    reveal_strlit("sidecar_poll");
    assert("pty_input"@[4] != "pty_close"@[4]);
    assert("pty_poll"@.len() == 8 && "pty_input"@.len() == 9 && "pty_resize"@.len() == 10);
    assert("pty_close"@.len() == 9 && "sidecar_poll"@.len() == 12);
}

/// `n` in 32 bits.
fn wrap(n: i64) -> (low: i32)
    ensures
        low == wrapped(n),
{
    let low: i32 = #[verifier::truncate] (n as i32);
    proof {
        let high = n >> 32;
        let rest = n & 0xffff_ffff;
        assert(n == (n >> 32) * 0x1_0000_0000 + (n & 0xffff_ffff)) by (bit_vector);
        assert(0 <= (n & 0xffff_ffff) < 0x1_0000_0000) by (bit_vector);
        assert((n & 0xffff_ffff) < 0x8000_0000 ==> n as i32 == (n & 0xffff_ffff)) by (bit_vector);
        assert((n & 0xffff_ffff) >= 0x8000_0000 ==> n as i32 == (n & 0xffff_ffff) - 0x1_0000_0000)
            by (bit_vector);
        assert(n as int % 0x1_0000_0000 == rest);
    }
    low
}

/// The integer member `key` of a payload, in 32 bits, or `default`.
fn int_member(payload: &Json, key: &str, default: i32) -> (number: i32)
    ensures
        number == int_field(payload@, key@, default),
{
    match payload.get(key) {
        Some(member) => match member.as_i64() {
            Some(n) => wrap(n),
            None => default,
        },
        None => default,
    }
}

/// The bytes that the host is to type into a terminal.
fn typed(payload: &Json) -> (bytes: Option<Vec<u8>>)
    ensures
        match bytes {
            Some(typed) => typed_bytes(payload@) == Some(typed@),
            None => typed_bytes(payload@) is None,
        },
{
    let text: &str = match payload.get("data") {
        Some(member) => match member.as_str() {
            Some(text) => text,
            None => "",
        },
        None => "",
    };
    decode(text)
}

/// What typing into a terminal leads to: bytes that are there and not none are written to it.
pub fn typed_input(handle: i32, bytes: Option<Vec<u8>>) -> (call: Option<HostCall>)
    ensures
        match (bytes, call) {
            (Some(typed), Some(write)) => handle >= 0 && typed@.len() > 0 && write@ == (
            HostCallView::PtyWrite { handle, bytes: typed@ }),
            (Some(typed), None) => handle < 0 || typed@.len() == 0,
            (None, None) => true,
            (None, Some(_)) => false,
        },
{
    match bytes {
        Some(bytes) => if handle >= 0 && bytes.len() > 0 {
            Some(HostCall::PtyWrite { handle, bytes })
        } else {
            None
        },
        None => None,
    }
}

/// Closes whatever is still open.
fn close(plugin: &mut Plugin, handle: i32) -> (calls: Vec<HostCall>)
    ensures
        call_views(calls@) == close_calls(old(plugin)@, handle),
        final(plugin)@ == close_state(old(plugin)@, handle),
{
    let ghost before = plugin@;
    let mut calls: Vec<HostCall> = Vec::new();
    if handle >= 0 {
        calls.push(HostCall::PtyClose { handle });
        plugin.pty_handle = NO_HANDLE;
    }
    if plugin.sse_handle > 0 {
        calls.push(HostCall::SseReset);
        calls.push(HostCall::SseClose { handle: plugin.sse_handle });
        plugin.sse_handle = NO_HANDLE;
    }
    if plugin.serve_handle >= 0 {
        calls.push(HostCall::Kill { handle: plugin.serve_handle });
        plugin.serve_handle = NO_HANDLE;
    }
    calls.push(push_terminal_ui(plugin, NO_HANDLE));
    proof {
        assert(call_views(calls@) =~= close_calls(before, handle));
    }
    calls
}

/// Carries out an action of the host: says what the host is to do and keeps what changes. An
/// unknown action is logged and does nothing else.
pub fn handle_action(plugin: &mut Plugin, action_id: String, payload: Json) -> (calls: Vec<
    HostCall,
>)
    ensures
        call_views(calls@) == action_calls(old(plugin)@, action_id@, payload@),
        final(plugin)@ == action_state(old(plugin)@, action_id@, payload@),
{
    let ghost before = plugin@;
    let action: &str = action_id.as_str();
    let handle: i32 = int_member(&payload, "handle", NO_HANDLE);
    let mut calls: Vec<HostCall> = Vec::new();
    if same_text(action, "pty_poll") {
        if handle >= 0 {
            calls.push(HostCall::PtyRead { handle });
        }
    } else if same_text(action, "pty_input") {
        if handle >= 0 {
            if let Some(write) = typed_input(handle, typed(&payload)) {
                calls.push(write);
            }
        }
    } else if same_text(action, "pty_resize") {
        let cols: i32 = int_member(&payload, "cols", 80);
        let rows: i32 = int_member(&payload, "rows", 24);
        if handle >= 0 {
            calls.push(HostCall::PtyResize { handle, cols, rows });
            plugin.cols = cols;
            plugin.rows = rows;
        }
    } else if same_text(action, "pty_close") {
        return close(plugin, handle);
    } else if same_text(action, "sidecar_poll") {
        if plugin.sse_handle > 0 {
            calls.push(HostCall::SseRead { handle: plugin.sse_handle });
        }
    } else {
        calls.push(log(concat("Unknown action: ", action).as_str()));
    }
    proof {
        lemma_actions_differ();
        assert(call_views(calls@) =~= action_calls(before, action_id@, payload@));
    }
    calls
}

/// The call that pushes a piece of terminal output, in base64.
pub fn pty_text(text: String) -> (call: HostCall)
    ensures
        call@ == (HostCallView::PushEvent {
            session_id: "opencode-pty"@,
            event: AIEventView::StreamingDelta { session_id: "opencode-pty"@, text: text@ },
        }),
{
    let event = AIEvent::StreamingDelta { session_id: PTY_SESSION.to_owned(), text };
    push_ai_event(PTY_SESSION, event)
}

/// What the reading of a terminal leads to: the first `n` bytes of `buf` are pushed in base64,
/// and nothing where none were read.
pub fn pty_output(buf: &[u8; 4096], n: i32) -> (call: Option<HostCall>)
    requires
        n <= 4096,
    ensures
        n <= 0 ==> call is None,
        n > 0 ==> call is Some && call->0@ == (HostCallView::PushEvent {
            session_id: "opencode-pty"@,
            event: AIEventView::StreamingDelta {
                session_id: "opencode-pty"@,
                text: base64_text(buf@.take(n as int)),
            },
        }),
{
    if n <= 0 {
        return None;
    }
    let bytes = slice_subrange(array_as_slice(buf), 0, n as usize);
    proof {
        assert(bytes@ =~= buf@.take(n as int));
    }
    Some(pty_text(encode(bytes)))
}

/// What a row of events leads to.
pub open spec fn stream_calls(events: Seq<Seq<u8>>) -> Seq<HostCallView>
    decreases events.len(),
{
    if events.len() == 0 {
        seq![]
    } else {
        stream_calls(events.drop_last()) + raw_event_calls(events.last())
    }
}

/// What is kept of the stream, with the first `n` of the bytes that were read.
pub open spec fn fed(kept: Seq<u8>, read: Seq<u8>, n: int) -> Seq<u8> {
    if n > 0 {
        kept + read.take(n)
    } else {
        kept
    }
}

/// What a read of the stream of events leads to. A read of -1 says that the stream has ended.
pub open spec fn sidecar_calls(plugin: PluginView, read: Seq<u8>, n: i32) -> Seq<HostCallView> {
    if plugin.sse_handle <= 0 {
        seq![]
    } else if n == -1 {
        seq![logged("SSE stream ended"@)]
    } else {
        stream_calls(frames(fed(plugin.line_buf, read, n as int)))
    }
}

/// The state after a read of the stream of events.
pub open spec fn sidecar_state(plugin: PluginView, read: Seq<u8>, n: i32) -> PluginView {
    if plugin.sse_handle <= 0 {
        plugin
    } else if n == -1 {
        PluginView { sse_handle: NO_HANDLE, ..plugin }
    } else {
        PluginView { line_buf: remainder(fed(plugin.line_buf, read, n as int)), ..plugin }
    }
}

/// Takes in the first `n` bytes of `buf`, read from the stream of events, and says what the
/// events that are complete by now lead to. A read of -1 says that the stream has ended; any
/// other `n` that is not positive, that there was nothing to read yet.
pub fn sidecar_poll(plugin: &mut Plugin, buf: &[u8; 4096], n: i32) -> (calls: Vec<HostCall>)
    requires
        n <= 4096,
    ensures
        call_views(calls@) == sidecar_calls(old(plugin)@, buf@, n),
        final(plugin)@ == sidecar_state(old(plugin)@, buf@, n),
{
    let ghost before = plugin@;
    let mut calls: Vec<HostCall> = Vec::new();
    proof {
        assert(call_views(calls@) =~= seq![]);
    }
    if plugin.sse_handle <= 0 {
        return calls;
    }
    if n == -1 {
        plugin.sse_handle = NO_HANDLE;
        calls.push(log("SSE stream ended"));
        proof {
            assert(call_views(calls@) =~= seq![logged("SSE stream ended"@)]);
        }
        return calls;
    }
    if n > 0 {
        plugin.line_buf.extend_from_slice(slice_subrange(array_as_slice(buf), 0, n as usize));
    }
    let ghost stream = fed(before.line_buf, buf@, n as int);
    proof {
        assert(plugin.line_buf@ =~= stream);
    }
    let events = take_events(&mut plugin.line_buf);
    let ghost taken = events@.map_values(|event: Vec<u8>| event@);
    let mut i: usize = 0;
    proof {
        assert(taken.take(0) =~= seq![]);
    }
    while i < events.len()
        invariant
            i <= events@.len(),
            taken == events@.map_values(|event: Vec<u8>| event@),
            call_views(calls@) == stream_calls(taken.take(i as int)),
        decreases events@.len() - i,
    {
        let ghost done = calls@;
        let mut more: Vec<HostCall> = process_sse_event(events[i].as_slice());
        let ghost added = more@;
        calls.append(&mut more);
        proof {
            assert(call_views(calls@) =~= call_views(done) + call_views(added));
            assert(taken.take(i + 1).drop_last() =~= taken.take(i as int));
        }
        i += 1;
    }
    proof {
        assert(taken.take(taken.len() as int) =~= taken);
    }
    calls
}

} // verus!
