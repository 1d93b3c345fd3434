//! What holds of the plugin as a whole.
use vstd::prelude::*;
use vstd::utf8::encode_utf8;

use crate::actions::{
    action_calls, action_state, close_calls, fed, handle_field, int_field, lemma_actions_differ,
    sidecar_calls, sidecar_state, stream_calls, typed_bytes,
};
use crate::armor::{base64_text, law_base64_is_read_back};
use crate::document::{json_parse, printed};
use crate::events::{
    completed_calls, event_calls, or_null, part_calls, pushed, text_or, tool_call,
};
use crate::host::{logged, AIEventView, HostCallView};
use crate::json::JsonTree;
use crate::plugin::{server_address, PluginView, NO_HANDLE};
use crate::port::{PipeReadView, PortStep, PortWaitView};
use crate::sse::{frames, raw_event_calls, remainder};
use crate::startup::{
    attach_spawn, failure_calls, handles_log, init_action, init_state, port_log, sidecar_log,
    InitActionView, InitEventView,
};
use crate::stream_laws::{
    event_text, fits_a_line, law_event_arrives, law_events_end_at_a_blank_line,
    law_reads_may_be_cut_anywhere, law_remainder_is_incomplete,
};
use crate::ui::terminal_tree;

verus! {

/// What is kept of the stream holds no complete event.
pub open spec fn settled(plugin: PluginView) -> bool {
    frames(plugin.line_buf) == Seq::<Seq<u8>>::empty()
}

/// Whatever happens, what is kept of the stream never holds a complete event.
pub proof fn law_nothing_complete_is_kept(
    plugin: PluginView,
    event: InitEventView,
    action: Seq<char>,
    payload: JsonTree,
    read: Seq<u8>,
    n: i32,
)
    ensures
        settled(PluginView::idle()),
        settled(plugin) ==> settled(init_state(plugin, event)),
        settled(plugin) ==> settled(action_state(plugin, action, payload)),
        settled(plugin) ==> settled(sidecar_state(plugin, read, n)),
{
    let nothing: Seq<u8> = seq![];
    assert(frames(nothing) == Seq::<Seq<u8>>::empty());
    law_remainder_is_incomplete(fed(plugin.line_buf, read, n as int));
}

/// Events lead to the same calls one after the other and together.
pub proof fn lemma_stream_calls_add_up(a: Seq<Seq<u8>>, b: Seq<Seq<u8>>)
    ensures
        stream_calls(a + b) == stream_calls(a) + stream_calls(b),
    decreases b.len(),
{
    if b.len() == 0 {
        assert(a + b =~= a);
        assert(stream_calls(a) + stream_calls(b) =~= stream_calls(a));
    } else {
        assert((a + b).drop_last() =~= a + b.drop_last());
        lemma_stream_calls_add_up(a, b.drop_last());
        assert(stream_calls(a + b) =~= stream_calls(a) + stream_calls(b));
    }
}

/// Two reads of the stream lead together to what their bytes lead to in one piece, wherever the
/// stream was cut between them.
pub proof fn law_two_reads_are_one(plugin: PluginView, a: Seq<u8>, n: i32, b: Seq<u8>, m: i32)
    requires
        plugin.sse_handle > 0,
        0 <= n <= a.len(),
        0 <= m <= b.len(),
    ensures
        sidecar_calls(plugin, a, n) + sidecar_calls(sidecar_state(plugin, a, n), b, m)
            == stream_calls(frames(plugin.line_buf + a.take(n as int) + b.take(m as int))),
        sidecar_state(sidecar_state(plugin, a, n), b, m).line_buf == remainder(
            plugin.line_buf + a.take(n as int) + b.take(m as int),
        ),
{
    let first = plugin.line_buf + a.take(n as int);
    let second = b.take(m as int);
    assert(fed(plugin.line_buf, a, n as int) =~= first);
    assert(fed(remainder(first), b, m as int) =~= remainder(first) + second);
    law_reads_may_be_cut_anywhere(first, second);
    lemma_stream_calls_add_up(frames(first), frames(remainder(first) + second));
}

/// A read that brings nothing changes nothing.
pub proof fn law_empty_read_does_nothing(plugin: PluginView, read: Seq<u8>, n: i32)
    requires
        settled(plugin),
        n <= 0,
        n != -1,
    ensures
        sidecar_calls(plugin, read, n) == Seq::<HostCallView>::empty(),
        sidecar_state(plugin, read, n) == plugin,
{
    assert(remainder(plugin.line_buf) == plugin.line_buf);
}

/// Once the stream has ended, the plugin asks for no more of it.
pub proof fn law_ended_stream_is_left_alone(
    plugin: PluginView,
    read: Seq<u8>,
    n: i32,
    payload: JsonTree,
)
    requires
        n == -1,
    ensures
        action_calls(sidecar_state(plugin, read, n), "sidecar_poll"@, payload) == Seq::<
            HostCallView,
        >::empty(),
        sidecar_state(plugin, read, n).line_buf == plugin.line_buf,
{
    lemma_actions_differ();
}

/// An action that the plugin does not know is logged and does nothing else.
pub proof fn law_unknown_action_is_only_logged(
    plugin: PluginView,
    action: Seq<char>,
    payload: JsonTree,
)
    requires
        action != "pty_poll"@,
        action != "pty_input"@,
        action != "pty_resize"@,
        action != "pty_close"@,
        action != "sidecar_poll"@,
    ensures
        action_calls(plugin, action, payload) == seq![logged("Unknown action: "@ + action)],
        action_state(plugin, action, payload) == plugin,
{
}

/// Without a handle no terminal is read, written or resized, and no size is kept.
pub proof fn law_no_handle_no_terminal(plugin: PluginView, action: Seq<char>, payload: JsonTree)
    requires
        action == "pty_poll"@ || action == "pty_input"@ || action == "pty_resize"@,
        handle_field(payload) < 0,
    ensures
        action_calls(plugin, action, payload) == Seq::<HostCallView>::empty(),
        action_state(plugin, action, payload) == plugin,
{
    lemma_actions_differ();
}

/// The text that stands for bytes, as `pty_output` pushes it, writes these bytes where it is
/// typed into a terminal.
pub proof fn law_typed_text_writes_its_bytes(
    plugin: PluginView,
    payload: JsonTree,
    bytes: Seq<u8>,
)
    requires
        handle_field(payload) >= 0,
        payload.get("data"@) == Some(JsonTree::Text(base64_text(bytes))),
        bytes.len() > 0,
    ensures
        action_calls(plugin, "pty_input"@, payload) == seq![
            HostCallView::PtyWrite { handle: handle_field(payload), bytes },
        ],
{
    lemma_actions_differ();
    law_base64_is_read_back(bytes, base64_text(bytes));
    assert(typed_bytes(payload) == Some(bytes));
}

/// A text that stands for no bytes, typed into a terminal, writes nothing.
pub proof fn law_other_text_writes_nothing(plugin: PluginView, payload: JsonTree, text: Seq<char>)
    requires
        payload.get("data"@) == Some(JsonTree::Text(text)),
        forall|bytes: Seq<u8>| text != #[trigger] base64_text(bytes),
    ensures
        action_calls(plugin, "pty_input"@, payload) == Seq::<HostCallView>::empty(),
        action_state(plugin, "pty_input"@, payload) == plugin,
{
    lemma_actions_differ();
    assert(typed_bytes(payload) is None);
}

/// The size of the last resize is the size that is shown from then on.
pub proof fn law_resize_is_shown(plugin: PluginView, payload: JsonTree, handle: i32)
    requires
        handle_field(payload) >= 0,
    ensures
        action_state(plugin, "pty_resize"@, payload).shown(handle) == (HostCallView::PushUi {
            json: printed(
                terminal_tree(
                    handle,
                    int_field(payload, "cols"@, 80),
                    int_field(payload, "rows"@, 24),
                ),
            ),
        }),
{
}

/// Closing leaves nothing open: no terminal where it was named, no stream and no server.
/// Closing once more, or polling, then touches none of them.
pub proof fn law_close_is_final(plugin: PluginView, payload: JsonTree, later: JsonTree)
    ensures
        ({
            let closed = action_state(plugin, "pty_close"@, payload);
            &&& handle_field(payload) >= 0 ==> closed.pty_handle == NO_HANDLE
            &&& closed.sse_handle <= 0
            &&& closed.serve_handle < 0
            &&& action_calls(closed, "sidecar_poll"@, later) == Seq::<HostCallView>::empty()
            &&& handle_field(later) < 0 ==> action_calls(closed, "pty_close"@, later) == seq![
                closed.shown(NO_HANDLE),
            ]
            &&& handle_field(later) < 0 ==> action_state(closed, "pty_close"@, later) == closed
        }),
{
    lemma_actions_differ();
    let closed = action_state(plugin, "pty_close"@, payload);
    if handle_field(later) < 0 {
        assert(close_calls(closed, handle_field(later)) =~= seq![closed.shown(NO_HANDLE)]);
    }
}

/// Closing ends with the empty terminal, at the size that was kept.
pub proof fn law_close_shows_no_terminal(plugin: PluginView, payload: JsonTree)
    ensures
        action_calls(plugin, "pty_close"@, payload).len() > 0,
        action_calls(plugin, "pty_close"@, payload).last() == plugin.shown(NO_HANDLE),
{
    lemma_actions_differ();
}

/// Events of other kinds are dropped, streamed tokens among them.
pub proof fn law_other_events_are_dropped(event: JsonTree)
    requires
        text_or(event.get("type"@), ""@) != "message.part.updated"@,
        text_or(event.get("type"@), ""@) != "session.idle"@,
        text_or(event.get("type"@), ""@) != "session.error"@,
    ensures
        event_calls(event) == Seq::<HostCallView>::empty(),
{
}

/// An event leads to pushes for the server's session and to readings of files, and a file is
/// read only right after its writing was reported.
pub proof fn law_events_push_and_read(event: JsonTree, i: int)
    requires
        0 <= i < event_calls(event).len(),
    ensures
        match event_calls(event)[i] {
            HostCallView::PushEvent { session_id, event: _ } => session_id == "opencode"@,
            HostCallView::ReadFile { path } => i == 1 && event_calls(event)[0] == tool_call(
                "WRITE "@ + path,
            ),
            _ => false,
        },
{
    match event.get("part"@) {
        Some(part) => {
            if event_calls(event) == part_calls(part) {
                let state = or_null(part.get("state"@));
                let tool = text_or(part.get("tool"@), "tool"@);
                if part_calls(part) == completed_calls(tool, state) {
                    assert(completed_calls(tool, state).len() <= 2);
                }
            }
        },
        None => {},
    }
}

/// A finished turn is reported as such.
pub proof fn law_idle_session_completes_the_turn(event: JsonTree)
    requires
        event.get("type"@) == Some(JsonTree::Text("session.idle"@)),
    ensures
        event_calls(event) == seq![
            pushed(AIEventView::TurnCompleted { session_id: "opencode"@ }),
        ],
{
    reveal_strlit("session.idle");
    reveal_strlit("message.part.updated");
    assert("session.idle"@.len() != "message.part.updated"@.len());
}

/// A failed session is reported with the server's message, or with one of the plugin's own where
/// the server gives none.
pub proof fn law_session_error_is_reported(event: JsonTree)
    requires
        event.get("type"@) == Some(JsonTree::Text("session.error"@)),
    ensures
        event_calls(event) == seq![
            pushed(
                AIEventView::Error {
                    message: text_or(event.get("error"@), "opencode session error"@),
                },
            ),
        ],
{
    reveal_strlit("session.error");
    reveal_strlit("session.idle");
    reveal_strlit("message.part.updated");
    assert("session.error"@.len() != "message.part.updated"@.len());
    assert("session.error"@.len() != "session.idle"@.len());
}

/// A tool that runs or has finished is always reported, and first of all; a file is read where,
/// and only where, the finished tool has written it.
pub proof fn law_tools_are_reported(event: JsonTree, part: JsonTree, state: JsonTree)
    requires
        event.get("type"@) == Some(JsonTree::Text("message.part.updated"@)),
        event.get("part"@) == Some(part),
        part.get("type"@) == Some(JsonTree::Text("tool"@)),
        part.get("state"@) == Some(state),
        ({
            ||| state.get("status"@) == Some(JsonTree::Text("running"@))
            ||| state.get("status"@) == Some(JsonTree::Text("completed"@))
        }),
    ensures
        ({
            let tool = text_or(part.get("tool"@), "tool"@);
            let calls = event_calls(event);
            let finished = state.get("status"@) == Some(JsonTree::Text("completed"@));
            &&& 1 <= calls.len() <= 2
            &&& exists|name: Seq<char>| calls[0] == #[trigger] tool_call(name)
            &&& !finished ==> calls == seq![tool_call(tool)]
            &&& calls.len() == 2 <==> finished && (tool == "write"@ || tool == "edit"@)
            &&& calls.len() == 2 ==> calls[1] is ReadFile
        }),
{
    reveal_strlit("running");
    reveal_strlit("completed");
    assert("running"@.len() != "completed"@.len());
    let calls = event_calls(event);
    let tool = text_or(part.get("tool"@), "tool"@);
    let name = calls[0]->PushEvent_event->name;
    assert(calls == part_calls(part));
    assert(calls[0] == tool_call(name));
}

/// An event that arrives in one read leads to what its data says, and nothing of it is kept.
pub proof fn law_event_reaches_the_host(
    plugin: PluginView,
    json: Seq<char>,
    read: Seq<u8>,
    n: i32,
)
    requires
        plugin.sse_handle > 0,
        plugin.line_buf.len() == 0,
        fits_a_line(json),
        0 <= n <= read.len(),
        read.take(n as int) == encode_utf8(event_text(json)),
    ensures
        sidecar_calls(plugin, read, n) == match json_parse(json) {
            Some(event) => event_calls(event),
            None => seq![],
        },
        sidecar_state(plugin, read, n) == plugin,
{
    let raw = encode_utf8(event_text(json));
    law_event_arrives(json);
    if n == 0 {
        law_events_end_at_a_blank_line(raw, 0);
    }
    assert(fed(plugin.line_buf, read, n as int) =~= raw);
    assert(seq![raw].drop_last() =~= seq![]);
    let calls = raw_event_calls(raw);
    assert(stream_calls(seq![]) =~= seq![]);
    assert(stream_calls(seq![raw]) =~= calls);
    assert(plugin.line_buf =~= Seq::<u8>::empty());
}

/// A start that goes well: the server comes up, its port is read, the stream is opened at that
/// port, the client is attached to it, and the terminal is shown. The handles are kept; that of
/// a stream that did not open is not.
pub proof fn law_start_goes_well(
    plugin: PluginView,
    serve: i32,
    wait: PortWaitView,
    read: PipeReadView,
    port: u16,
    sse: i32,
    pty: i32,
)
    requires
        wait.step(read) == (PortStep::Found { port }),
        pty >= 0,
    ensures
        ({
            let started = init_state(plugin, InitEventView::ServeSpawned { handle: serve });
            let found = InitEventView::ServeRead { wait, read };
            let known = init_state(started, found);
            let opened = InitEventView::SseOpened { handle: sse };
            let connected = init_state(known, opened);
            let attached = InitEventView::PtySpawned { handle: pty };
            &&& init_action(started, found) == (InitActionView::OpenSse {
                log: port_log(port),
                url: server_address(port) + "/global/event"@,
            })
            &&& init_action(known, opened) == (InitActionView::SpawnPty {
                log: sidecar_log(sse),
                spawn: attach_spawn(port),
            })
            &&& init_action(connected, attached) == (InitActionView::Finish {
                calls: seq![
                    handles_log(pty, connected.sse_handle),
                    init_state(connected, attached).shown(pty),
                ],
            })
            &&& init_state(connected, attached) == (PluginView {
                pty_handle: pty,
                cols: 80,
                rows: 24,
                serve_handle: serve,
                server_port: port,
                sse_handle: if sse > 0 {
                    sse
                } else {
                    plugin.sse_handle
                },
                line_buf: plugin.line_buf,
            })
        }),
{
}

/// Every step of the wait for the port uses up a read or asks for a wait before one, so that the
/// wait ends: with a port, or with a report of the failure.
pub proof fn law_wait_for_port_ends(plugin: PluginView, wait: PortWaitView, read: PipeReadView)
    ensures
        match init_action(plugin, InitEventView::ServeRead { wait, read }) {
            InitActionView::PollServe { wait: next } => next.polls_left < wait.polls_left,
            InitActionView::WaitServe { wait: next, millis } => next == wait && millis == 50,
            InitActionView::OpenSse { .. } => true,
            InitActionView::Finish { calls } => calls == failure_calls(
                "opencode serve did not print a port within the startup timeout."@,
            ),
            _ => false,
        },
        match init_action(plugin, InitEventView::ServeWaited { wait }) {
            InitActionView::PollServe { wait: next } => next.polls_left < wait.polls_left,
            InitActionView::Finish { calls } => wait.polls_left == 0 && calls == failure_calls(
                "opencode serve did not print a port within the startup timeout."@,
            ),
            _ => false,
        },
{
}

} // verus!
