//! What each action does, by what goes into a call and what comes out of it.
use vstd::prelude::*;

use crate::actions::{
    handle_action, handle_field, lemma_actions_differ, pty_output, pty_text, sidecar_poll,
    typed_bytes, typed_input, wrapped,
};
use crate::armor::{base64_text, law_base64_is_read_back};
use crate::document::{json_parse, json_text};
use crate::host::{call_views, AIEvent, HostCall};
use crate::json::{Json, JsonTree};
use crate::plugin::{push_terminal_ui, Plugin};

verus! {

/// `value` is the integer that a payload gives under `key`, cut to 32 bits, or `default` where it
/// gives none.
pub open spec fn given(payload: JsonTree, key: Seq<char>, default: int, value: i32) -> bool {
    match payload.get(key) {
        Some(JsonTree::Number(Some(n))) => (value - n) % 0x1_0000_0000 == 0,
        _ => value == default,
    }
}

/// The two states hold the same.
pub open spec fn unchanged(before: Plugin, after: Plugin) -> bool {
    &&& after.pty_handle == before.pty_handle
    &&& after.cols == before.cols
    &&& after.rows == before.rows
    &&& after.serve_handle == before.serve_handle
    &&& after.server_port == before.server_port
    &&& after.sse_handle == before.sse_handle
    &&& after.line_buf@ == before.line_buf@
}

/// A call that puts a line of the plugin into the host's log.
pub open spec fn logs(call: HostCall, message: Seq<char>) -> bool {
    call matches HostCall::Log { line } && line@ == "[opencode-plugin] "@ + message
}

/// A call that shows what a JSON value says.
pub open spec fn shows(call: HostCall, tree: JsonTree) -> bool {
    call matches HostCall::PushUi { json } && json@ == json_text(tree) && json_parse(json@) == Some(
        tree,
    )
}

/// A call that shows one terminal, and nothing else of it than its handle and its size.
pub open spec fn shows_terminal(call: HostCall, handle: int, cols: int, rows: int) -> bool {
    shows(
        call,
        JsonTree::List(
            seq![
                JsonTree::Object(
                    map![
                        "type"@ => JsonTree::Text("terminal"@),
                        "handle"@ => JsonTree::Number(Some(handle as i64)),
                        "cols"@ => JsonTree::Number(Some(cols as i64)),
                        "rows"@ => JsonTree::Number(Some(rows as i64)),
                    ],
                ),
            ],
        ),
    )
}

/// One number of 32 bits at most differs from another by a multiple of 2^32.
proof fn lemma_wrapped(n: i64, value: i32)
    requires
        (value - n) % 0x1_0000_0000 == 0,
    ensures
        value == wrapped(n),
{
}

/// The calls and what they ask for, one by one.
pub proof fn lemma_calls(calls: Seq<HostCall>)
    ensures
        call_views(calls).len() == calls.len(),
        forall|i: int| 0 <= i < calls.len() ==> (#[trigger] calls[i])@ == call_views(calls)[i],
{
    assert forall|i: int| 0 <= i < calls.len() implies (#[trigger] calls[i])@ == call_views(
        calls,
    )[i] by {}
}

/// The terminal is shown with its handle, at the size that is kept.
pub proof fn law_terminal_is_shown_at_its_size(plugin: &Plugin, handle: i32, call: HostCall)
    requires
        call_ensures(push_terminal_ui, (plugin, handle), call),
    ensures
        shows_terminal(call, handle as int, plugin.cols as int, plugin.rows as int),
{
}

/// Polling a terminal reads that terminal, in any state, and changes nothing.
pub proof fn law_poll_reads_the_terminal(
    plugin: &mut Plugin,
    action_id: String,
    payload: Json,
    handle: i32,
    calls: Vec<HostCall>,
)
    requires
        call_ensures(handle_action, (plugin, action_id, payload), calls),
        action_id@ == "pty_poll"@,
        given(payload@, "handle"@, -1, handle),
    ensures
        handle >= 0 ==> calls@ == seq![HostCall::PtyRead { handle }],
        handle < 0 ==> calls@.len() == 0,
        unchanged(*old(plugin), *final(plugin)),
{
    lemma_actions_differ();
    lemma_calls(calls@);
    if let Some(JsonTree::Number(Some(n))) = payload@.get("handle"@) {
        lemma_wrapped(n, handle);
    }
}

/// Typing writes the bytes that the base64 text `data` stands for to the terminal, in any state,
/// and changes nothing.
pub proof fn law_input_writes_the_bytes(
    plugin: &mut Plugin,
    action_id: String,
    payload: Json,
    handle: i32,
    typed: Seq<u8>,
    calls: Vec<HostCall>,
)
    requires
        call_ensures(handle_action, (plugin, action_id, payload), calls),
        action_id@ == "pty_input"@,
        given(payload@, "handle"@, -1, handle),
        payload@.get("data"@) == Some(JsonTree::Text(base64_text(typed))),
    ensures
        handle >= 0 && typed.len() > 0 ==> calls@.len() == 1 && (
        calls@[0] matches HostCall::PtyWrite { handle: to, bytes } && to == handle && bytes@
            == typed),
        handle < 0 || typed.len() == 0 ==> calls@.len() == 0,
        unchanged(*old(plugin), *final(plugin)),
{
    lemma_actions_differ();
    lemma_calls(calls@);
    law_base64_is_read_back(typed, base64_text(typed));
    assert(typed_bytes(payload@) == Some(typed));
    if let Some(JsonTree::Number(Some(n))) = payload@.get("handle"@) {
        lemma_wrapped(n, handle);
    }
}

/// Typing writes nothing where `data` is no string or stands for no bytes.
pub proof fn law_other_input_writes_nothing(
    plugin: &mut Plugin,
    action_id: String,
    payload: Json,
    calls: Vec<HostCall>,
)
    requires
        call_ensures(handle_action, (plugin, action_id, payload), calls),
        action_id@ == "pty_input"@,
        match payload@.get("data"@) {
            Some(JsonTree::Text(text)) => forall|bytes: Seq<u8>| text != #[trigger] base64_text(
                bytes,
            ),
            _ => true,
        },
    ensures
        calls@.len() == 0,
        unchanged(*old(plugin), *final(plugin)),
{
    lemma_actions_differ();
    lemma_calls(calls@);
    let nothing: Seq<u8> = seq![];
    reveal_strlit("");
    assert(base64_text(nothing) =~= ""@);
    law_base64_is_read_back(nothing, ""@);
}

/// Resizing gives the terminal the size in the payload, 80 by 24 where it holds none, in any
/// state; the same size is kept, and nothing else changes.
pub proof fn law_resize_resizes_and_keeps(
    plugin: &mut Plugin,
    action_id: String,
    payload: Json,
    handle: i32,
    cols: i32,
    rows: i32,
    calls: Vec<HostCall>,
)
    requires
        call_ensures(handle_action, (plugin, action_id, payload), calls),
        action_id@ == "pty_resize"@,
        given(payload@, "handle"@, -1, handle),
        given(payload@, "cols"@, 80, cols),
        given(payload@, "rows"@, 24, rows),
    ensures
        handle >= 0 ==> calls@ == seq![HostCall::PtyResize { handle, cols, rows }],
        handle >= 0 ==> final(plugin).cols == cols && final(plugin).rows == rows,
        handle >= 0 ==> unchanged(
            Plugin { cols, rows, ..*old(plugin) },
            *final(plugin),
        ),
        handle < 0 ==> calls@.len() == 0,
        handle < 0 ==> unchanged(*old(plugin), *final(plugin)),
{
    lemma_actions_differ();
    lemma_calls(calls@);
    if let Some(JsonTree::Number(Some(n))) = payload@.get("handle"@) {
        lemma_wrapped(n, handle);
    }
    if let Some(JsonTree::Number(Some(n))) = payload@.get("cols"@) {
        lemma_wrapped(n, cols);
    }
    if let Some(JsonTree::Number(Some(n))) = payload@.get("rows"@) {
        lemma_wrapped(n, rows);
    }
}

/// Closing closes, in this order, the terminal that the payload names, the stream and the
/// server, each where there is one and each exactly once, and then shows an empty terminal. A
/// handle is given up exactly where it is closed or killed; nothing else changes.
pub proof fn law_close_closes_what_is_open(
    plugin: &mut Plugin,
    action_id: String,
    payload: Json,
    handle: i32,
    calls: Vec<HostCall>,
)
    requires
        call_ensures(handle_action, (plugin, action_id, payload), calls),
        action_id@ == "pty_close"@,
        given(payload@, "handle"@, -1, handle),
    ensures
        ({
            let sse = old(plugin).sse_handle;
            let serve = old(plugin).serve_handle;
            let a: int = if handle >= 0 { 1 } else { 0 };
            let b: int = if sse > 0 { a + 2 } else { a };
            let c: int = if serve >= 0 { b + 1 } else { b };
            &&& calls@.len() == c + 1
            &&& handle >= 0 ==> calls@[0] == (HostCall::PtyClose { handle })
            &&& sse > 0 ==> calls@[a] == HostCall::SseReset
            &&& sse > 0 ==> calls@[a + 1] == (HostCall::SseClose { handle: sse })
            &&& serve >= 0 ==> calls@[b] == (HostCall::Kill { handle: serve })
            &&& shows_terminal(calls@[c], -1, old(plugin).cols as int, old(plugin).rows as int)
        }),
        final(plugin).pty_handle == (if handle >= 0 {
            -1int
        } else {
            old(plugin).pty_handle as int
        }),
        final(plugin).sse_handle == (if old(plugin).sse_handle > 0 {
            -1int
        } else {
            old(plugin).sse_handle as int
        }),
        final(plugin).serve_handle == (if old(plugin).serve_handle >= 0 {
            -1int
        } else {
            old(plugin).serve_handle as int
        }),
        unchanged(
            Plugin {
                pty_handle: final(plugin).pty_handle,
                sse_handle: final(plugin).sse_handle,
                serve_handle: final(plugin).serve_handle,
                ..*old(plugin)
            },
            *final(plugin),
        ),
{
    lemma_actions_differ();
    lemma_calls(calls@);
    if let Some(JsonTree::Number(Some(n))) = payload@.get("handle"@) {
        lemma_wrapped(n, handle);
    }
}

/// However a close is asked for, a server that runs is killed, once, and no other process is.
pub proof fn law_close_kills_the_server_once(
    plugin: &mut Plugin,
    action_id: String,
    payload: Json,
    calls: Vec<HostCall>,
    i: int,
)
    requires
        call_ensures(handle_action, (plugin, action_id, payload), calls),
        action_id@ == "pty_close"@,
        0 <= i < calls@.len(),
    ensures
        calls@[i] is Kill ==> calls@[i] == (HostCall::Kill { handle: old(plugin).serve_handle }),
        calls@[i] is Kill ==> forall|j: int|
            0 <= j < calls@.len() && (#[trigger] calls@[j]) is Kill ==> j == i,
        old(plugin).serve_handle >= 0 <==> exists|j: int|
            0 <= j < calls@.len() && (#[trigger] calls@[j]) is Kill,
{
    let handle = handle_field(payload@);
    if let Some(JsonTree::Number(Some(n))) = payload@.get("handle"@) {
        assert((wrapped(n) - n) % 0x1_0000_0000 == 0);
    }
    law_close_closes_what_is_open(plugin, action_id, payload, handle, calls);
    let a: int = if handle >= 0 { 1 } else { 0 };
    let b: int = if old(plugin).sse_handle > 0 { a + 2 } else { a };
    if old(plugin).serve_handle >= 0 {
        assert(calls@[b] is Kill);
    }
}

/// The stream is read whenever it is open, whatever else the state holds, and left alone where
/// it is not; nothing changes.
pub proof fn law_open_stream_is_read(
    plugin: &mut Plugin,
    action_id: String,
    payload: Json,
    calls: Vec<HostCall>,
)
    requires
        call_ensures(handle_action, (plugin, action_id, payload), calls),
        action_id@ == "sidecar_poll"@,
    ensures
        old(plugin).sse_handle > 0 ==> calls@ == seq![
            HostCall::SseRead { handle: old(plugin).sse_handle },
        ],
        old(plugin).sse_handle <= 0 ==> calls@.len() == 0,
        unchanged(*old(plugin), *final(plugin)),
{
    lemma_actions_differ();
    lemma_calls(calls@);
}

/// Any other action is put into the log by its name, and nothing else comes of it.
pub proof fn law_other_actions_are_logged(
    plugin: &mut Plugin,
    action_id: String,
    payload: Json,
    calls: Vec<HostCall>,
)
    requires
        call_ensures(handle_action, (plugin, action_id, payload), calls),
        action_id@ != "pty_poll"@,
        action_id@ != "pty_input"@,
        action_id@ != "pty_resize"@,
        action_id@ != "pty_close"@,
        action_id@ != "sidecar_poll"@,
    ensures
        calls@.len() == 1,
        logs(calls@[0], "Unknown action: "@ + action_id@),
        unchanged(*old(plugin), *final(plugin)),
{
    lemma_calls(calls@);
}

/// Bytes are typed exactly where there are some and the terminal has a handle.
pub proof fn law_typed_bytes_are_written(
    handle: i32,
    bytes: Option<Vec<u8>>,
    call: Option<HostCall>,
)
    requires
        call_ensures(typed_input, (handle, bytes), call),
    ensures
        call is Some <==> handle >= 0 && bytes is Some && bytes->0@.len() > 0,
        call is Some ==> (call->0 matches HostCall::PtyWrite { handle: to, bytes: written } && to
            == handle && written@ == bytes->0@),
{
}

/// A call that pushes a piece of terminal output.
pub open spec fn pushes_output(call: HostCall, output: Seq<char>) -> bool {
    &&& call matches HostCall::PushEvent { session_id, event }
    &&& session_id@ == "opencode-pty"@
    &&& event matches AIEvent::StreamingDelta { session_id: of, text }
    &&& of@ == "opencode-pty"@
    &&& text@ == output
}

/// A text is pushed as it stands.
pub proof fn law_text_is_pushed(text: String, call: HostCall)
    requires
        call_ensures(pty_text, (text,), call),
    ensures
        pushes_output(call, text@),
{
}

/// What was read of a terminal, all of it and nothing else, is pushed in base64; nothing is
/// pushed where nothing was read.
pub proof fn law_output_is_pushed(buf: &[u8; 4096], n: i32, call: Option<HostCall>)
    requires
        call_ensures(pty_output, (buf, n), call),
    ensures
        call is Some <==> n > 0,
        n > 0 ==> pushes_output(call->0, base64_text(buf@.subrange(0, n as int))),
{
    if n > 0 {
        assert(buf@.take(n as int) =~= buf@.subrange(0, n as int));
    }
}

/// What is pushed of a terminal's output, typed into a terminal, writes the output again.
pub proof fn law_output_and_input_are_inverse(
    buf: &[u8; 4096],
    n: i32,
    output: Option<HostCall>,
    plugin: &mut Plugin,
    action_id: String,
    payload: Json,
    handle: i32,
    calls: Vec<HostCall>,
)
    requires
        call_ensures(pty_output, (buf, n), output),
        n > 0,
        call_ensures(handle_action, (plugin, action_id, payload), calls),
        action_id@ == "pty_input"@,
        given(payload@, "handle"@, -1, handle),
        handle >= 0,
        n <= 4096,
        output matches Some(HostCall::PushEvent { event: AIEvent::StreamingDelta { text, .. }, .. })
            && payload@.get("data"@) == Some(JsonTree::Text(text@)),
    ensures
        calls@.len() == 1,
        calls@[0] matches HostCall::PtyWrite { handle: to, bytes } && to == handle && bytes@
            == buf@.subrange(0, n as int),
{
    law_output_is_pushed(buf, n, output);
    law_input_writes_the_bytes(
        plugin,
        action_id,
        payload,
        handle,
        buf@.subrange(0, n as int),
        calls,
    );
}

/// A read of a stream that is not open does nothing. The end of an open stream is logged, and
/// its handle is given up; what is kept of it stays.
pub proof fn law_end_of_stream(plugin: &mut Plugin, buf: &[u8; 4096], n: i32, calls: Vec<HostCall>)
    requires
        call_ensures(sidecar_poll, (plugin, buf, n), calls),
    ensures
        old(plugin).sse_handle <= 0 ==> calls@.len() == 0 && unchanged(
            *old(plugin),
            *final(plugin),
        ),
        old(plugin).sse_handle > 0 && n == -1 ==> {
            &&& calls@.len() == 1
            &&& logs(calls@[0], "SSE stream ended"@)
            &&& final(plugin).sse_handle == -1
            &&& unchanged(
                Plugin { sse_handle: final(plugin).sse_handle, ..*old(plugin) },
                *final(plugin),
            )
        },
        n != -1 ==> unchanged(
            Plugin { line_buf: final(plugin).line_buf, ..*old(plugin) },
            *final(plugin),
        ),
{
    lemma_calls(calls@);
}

} // verus!
