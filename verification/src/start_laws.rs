//! What holds of a whole start, from the first step to the last.
use vstd::prelude::*;

use crate::document::printed;
use crate::events::pushed;
use crate::host::{AIEventView, HostCallView};
use crate::json::JsonTree;
use crate::plugin::PluginView;
use crate::port::{PipeReadView, PortStep, PortWaitView};
use crate::port_laws::awaited_port;
use crate::startup::{
    failure_calls, handles_log, init_action, init_state, InitActionView, InitEventView,
};
use crate::ui::{label_tree, terminal_tree};

verus! {

/// What the host answers in the course of a start.
pub struct Replies {
    /// The handle of the server's process; `None` where it could not be started.
    pub serve: Option<i32>,
    /// What the reads of the server's output come to, in order.
    pub reads: Seq<PipeReadView>,
    /// The handle for the stream of events.
    pub sse: i32,
    /// The handle for the user's terminal.
    pub pty: i32,
}

impl Replies {
    /// As many reads as a start may make.
    pub open spec fn enough(self) -> bool {
        self.reads.len() >= 80
    }

    /// The event that answers an action; `None` where nothing is left to do.
    pub open spec fn reply(self, action: InitActionView) -> Option<InitEventView> {
        match action {
            InitActionView::SpawnServe { .. } => match self.serve {
                Some(handle) => Some(InitEventView::ServeSpawned { handle }),
                None => Some(InitEventView::ServeSpawnFailed),
            },
            InitActionView::PollServe { wait } => Some(
                InitEventView::ServeRead { wait, read: self.reads[79 - wait.polls_left] },
            ),
            InitActionView::WaitServe { wait, .. } => Some(InitEventView::ServeWaited { wait }),
            InitActionView::OpenSse { .. } => Some(InitEventView::SseOpened { handle: self.sse }),
            InitActionView::SpawnPty { .. } => Some(InitEventView::PtySpawned { handle: self.pty }),
            InitActionView::Finish { .. } => None,
        }
    }

    /// The port that the server's output announces, within the reads that a start may make.
    pub open spec fn port(self) -> Option<u16> {
        awaited_port(PortWaitView::start(), self.reads)
    }
}

/// How a start has ended: the state, and the calls at its end.
pub struct StartEnd {
    pub plugin: PluginView,
    pub calls: Seq<HostCallView>,
}

/// Where a start comes to from an event on; `None` where it is not over after so many steps.
pub open spec fn run(
    plugin: PluginView,
    event: InitEventView,
    replies: Replies,
    steps: nat,
) -> Option<StartEnd>
    decreases steps,
{
    if steps == 0 {
        None
    } else {
        let action = init_action(plugin, event);
        let next = init_state(plugin, event);
        match action {
            InitActionView::Finish { calls } => Some(StartEnd { plugin: next, calls }),
            _ => run(next, replies.reply(action)->0, replies, (steps - 1) as nat),
        }
    }
}

/// The end of a start whose server runs and has announced its port.
pub open spec fn attached(plugin: PluginView, port: u16, replies: Replies) -> StartEnd {
    let connected = PluginView {
        server_port: port,
        sse_handle: if replies.sse > 0 {
            replies.sse
        } else {
            plugin.sse_handle
        },
        ..plugin
    };
    if replies.pty < 0 {
        StartEnd {
            plugin: connected,
            calls: failure_calls(
                "opencode serve started but failed to spawn opencode attach PTY."@,
            ),
        }
    } else {
        StartEnd {
            plugin: PluginView { pty_handle: replies.pty, cols: 80, rows: 24, ..connected },
            calls: seq![
                handles_log(replies.pty, connected.sse_handle),
                HostCallView::PushUi { json: printed(terminal_tree(replies.pty, 80, 24)) },
            ],
        }
    }
}

/// The end of a start whose server runs.
pub open spec fn served(plugin: PluginView, port: Option<u16>, replies: Replies) -> StartEnd {
    match port {
        Some(port) => attached(plugin, port, replies),
        None => StartEnd {
            plugin,
            calls: failure_calls(
                "opencode serve did not print a port within the startup timeout."@,
            ),
        },
    }
}

/// The end of a start.
pub open spec fn start_end(plugin: PluginView, replies: Replies) -> StartEnd {
    match replies.serve {
        Some(handle) => served(
            PluginView { serve_handle: handle, ..plugin },
            replies.port(),
            replies,
        ),
        None => StartEnd {
            plugin,
            calls: failure_calls(
                "Failed to spawn opencode serve. Make sure opencode is installed and on PATH."@,
            ),
        },
    }
}

/// Once the port is read, the start is over after three steps.
proof fn lemma_found(
    plugin: PluginView,
    wait: PortWaitView,
    read: PipeReadView,
    port: u16,
    replies: Replies,
    steps: nat,
)
    requires
        wait.step(read) == (PortStep::Found { port }),
        steps >= 3,
    ensures
        run(plugin, InitEventView::ServeRead { wait, read }, replies, steps) == Some(
            attached(plugin, port, replies),
        ),
{
    reveal_with_fuel(run, 4);
}

/// The wait for the port ends the start as the reads that are left decide.
proof fn lemma_waited(plugin: PluginView, wait: PortWaitView, replies: Replies, steps: nat)
    requires
        replies.enough(),
        wait.polls_left <= 80,
        steps >= 2 * wait.polls_left + 4,
    ensures
        run(plugin, InitEventView::ServeWaited { wait }, replies, steps) == Some(
            served(
                plugin,
                awaited_port(wait, replies.reads.skip(80 - wait.polls_left)),
                replies,
            ),
        ),
    decreases wait.polls_left,
{
    let event = InitEventView::ServeWaited { wait };
    let left = replies.reads.skip(80 - wait.polls_left);
    if wait.polls_left > 0 {
        let polled = wait.polled();
        let read = replies.reads[79 - polled.polls_left];
        assert(left[0] == read);
        assert(left.drop_first() =~= replies.reads.skip(80 - polled.polls_left));
        let reading = InitEventView::ServeRead { wait: polled, read };
        let fewer = (steps - 1) as nat;
        assert(run(plugin, event, replies, steps) == run(plugin, reading, replies, fewer));
        match polled.step(read) {
            PortStep::Found { port } => {
                lemma_found(plugin, polled, read, port, replies, fewer);
            },
            PortStep::Poll => {
                let next = polled.after(read);
                lemma_waited(plugin, next, replies, fewer);
                assert(init_action(plugin, reading) == init_action(
                    plugin,
                    InitEventView::ServeWaited { wait: next },
                ));
            },
            PortStep::Wait => {
                lemma_waited(plugin, polled, replies, (fewer - 1) as nat);
            },
            PortStep::GiveUp => {},
        }
    }
}

/// Every start ends, after 166 steps at most, as the host's answers decide.
pub proof fn law_every_start_ends(plugin: PluginView, replies: Replies, steps: nat)
    requires
        replies.enough(),
        steps >= 166,
    ensures
        run(plugin, InitEventView::Start, replies, steps) == Some(start_end(plugin, replies)),
{
    reveal_with_fuel(run, 3);
    match replies.serve {
        Some(handle) => {
            let started = PluginView { serve_handle: handle, ..plugin };
            let wait = PortWaitView::start();
            let spawned = InitEventView::ServeSpawned { handle };
            let waited = InitEventView::ServeWaited { wait };
            let fewer = (steps - 1) as nat;
            lemma_waited(started, wait, replies, fewer);
            assert(replies.reads.skip(0) =~= replies.reads);
            assert(init_action(plugin, spawned) == init_action(started, waited));
            assert(init_state(plugin, spawned) == init_state(started, waited));
            assert(run(plugin, spawned, replies, fewer) == run(started, waited, replies, fewer));
        },
        None => {},
    }
}

/// The calls among `calls` that show something.
pub open spec fn ui_pushes(calls: Seq<HostCallView>) -> Seq<HostCallView> {
    calls.filter(|call: HostCallView| call is PushUi)
}

/// The calls among `calls` that push an event.
pub open spec fn event_pushes(calls: Seq<HostCallView>) -> Seq<HostCallView> {
    calls.filter(|call: HostCallView| call is PushEvent)
}

/// The user's terminal comes up: the server runs, its port is read, and the host has a terminal.
pub open spec fn comes_up(replies: Replies) -> bool {
    replies.serve is Some && replies.port() is Some && replies.pty >= 0
}

/// A report of a failure pushes one error and shows one label, with one message.
proof fn lemma_failure_is_one_label(message: Seq<char>)
    ensures
        event_pushes(failure_calls(message)) == seq![pushed(AIEventView::Error { message })],
        ui_pushes(failure_calls(message)) == seq![
            HostCallView::PushUi { json: printed(label_tree("Error: "@ + message)) },
        ],
{
    let calls = failure_calls(message);
    reveal_with_fuel(Seq::filter, 4);
    let two = calls.drop_last();
    let one = two.drop_last();
    assert(one.drop_last() =~= seq![]);
    assert(calls.last() == calls[2] && two.last() == calls[1] && one.last() == calls[0]);
    assert(event_pushes(calls) =~= seq![calls[1]]);
    assert(ui_pushes(calls) =~= seq![calls[2]]);
}

/// One start shows exactly one thing: the terminal, if and only if the server ran, its port was
/// read and the terminal has a handle; otherwise a label, with the message of the one error that
/// is pushed.
pub proof fn law_one_start_shows_one_thing(plugin: PluginView, replies: Replies)
    ensures
        ({
            let calls = start_end(plugin, replies).calls;
            &&& ui_pushes(calls).len() == 1
            &&& comes_up(replies) <==> ui_pushes(calls) == seq![
                HostCallView::PushUi { json: printed(terminal_tree(replies.pty, 80, 24)) },
            ]
            &&& comes_up(replies) ==> event_pushes(calls).len() == 0
            &&& !comes_up(replies) ==> exists|message: Seq<char>|
                event_pushes(calls) == seq![#[trigger] pushed(AIEventView::Error { message })]
                    && ui_pushes(calls) == seq![
                    HostCallView::PushUi { json: printed(label_tree("Error: "@ + message)) },
                ]
        }),
{
    let calls = start_end(plugin, replies).calls;
    let shown = HostCallView::PushUi { json: printed(terminal_tree(replies.pty, 80, 24)) };
    if comes_up(replies) {
        reveal_with_fuel(Seq::filter, 3);
        let one = calls.drop_last();
        assert(one.drop_last() =~= seq![]);
        assert(calls.last() == shown && one.last() == calls[0]);
        assert(ui_pushes(calls) =~= seq![shown]);
        assert(event_pushes(calls) =~= seq![]);
    } else {
        let message = if replies.serve is None {
            "Failed to spawn opencode serve. Make sure opencode is installed and on PATH."@
        } else if replies.port() is None {
            "opencode serve did not print a port within the startup timeout."@
        } else {
            "opencode serve started but failed to spawn opencode attach PTY."@
        };
        assert(calls == failure_calls(message));
        lemma_failure_is_one_label(message);
        let label = HostCallView::PushUi { json: printed(label_tree("Error: "@ + message)) };
        assert(ui_pushes(calls)[0] == label);
        lemma_label_is_no_terminal("Error: "@ + message, replies.pty);
        assert(seq![shown][0] == shown);
    }
}

/// A label is not a terminal.
proof fn lemma_label_is_no_terminal(text: Seq<char>, handle: i32)
    ensures
        label_tree(text) != terminal_tree(handle, 80, 24),
{
    reveal_strlit("type");
    reveal_strlit("text");
    reveal_strlit("label");
    reveal_strlit("terminal");
    assert("type"@[1] != "text"@[1]);
    let label = label_tree(text)->List_0[0]->Object_0;
    let terminal = terminal_tree(handle, 80, 24)->List_0[0]->Object_0;
    reveal_strlit("handle");
    reveal_strlit("cols");
    reveal_strlit("rows");
    assert("type"@[0] != "cols"@[0] && "type"@[0] != "rows"@[0]);
    assert("type"@.len() != "handle"@.len());
    assert(label["type"@] == JsonTree::Text("label"@));
    assert(terminal["type"@] == JsonTree::Text("terminal"@));
    assert("label"@.len() != "terminal"@.len());
}

} // verus!
