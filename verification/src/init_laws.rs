//! What each step of a start does, by what has happened before it.
use vstd::prelude::*;

use crate::action_laws::{lemma_calls, logs, shows, shows_terminal, unchanged};
use crate::document::{json_parse, json_text};
use crate::event_laws::pushes_error;
use crate::host::HostCall;
use crate::json::JsonTree;
use crate::number::decimal;
use crate::plugin::Plugin;
use crate::port::{announced_port, PipeRead, PortWait};
use crate::startup::{
    fail_init, init, serve_errors, spawn_pty, InitAction, InitEvent, PtySpawn,
};
use crate::text::decoded;
use crate::ui::{strings_tree, texts};
use crate::value_laws::{law_decimals_differ, lemma_first_pair, lemma_no_pair, prints};

verus! {

/// Calls that report a failure: a line in the log, an error, and a label, with one message.
pub open spec fn reports_failure(calls: Seq<HostCall>, message: Seq<char>) -> bool {
    &&& calls.len() == 3
    &&& logs(calls[0], "FATAL: "@ + message)
    &&& pushes_error(calls[1], message)
    &&& shows(
        calls[2],
        JsonTree::List(
            seq![
                JsonTree::Object(
                    map![
                        "type"@ => JsonTree::Text("label"@),
                        "text"@ => JsonTree::Text("Error: "@ + message),
                    ],
                ),
            ],
        ),
    )
}

/// An integer in decimal, with its sign.
pub open spec fn signed(n: int) -> Seq<char> {
    if n < 0 {
        seq!['-'] + decimal((-n) as nat)
    } else {
        decimal(n as nat)
    }
}

/// The address of a server on the local host.
pub open spec fn local_address(port: u16) -> Seq<char> {
    "http://127.0.0.1:"@ + decimal(port as nat)
}

/// A failure is reported in the log, as an error and as a label.
pub proof fn law_failure_is_reported(message: &str, calls: Vec<HostCall>)
    requires
        call_ensures(fail_init, (message,), calls),
    ensures
        reports_failure(calls@, message@),
{
    lemma_calls(calls@);
}

/// What the server says on its error output is logged.
pub proof fn law_errors_are_logged(bytes: &[u8], call: HostCall)
    requires
        call_ensures(serve_errors, (bytes,), call),
    ensures
        logs(call, "serve stderr: "@ + decoded(bytes@)),
{
}

/// A start begins with the server, on a port of its own choice and with its log printed.
pub proof fn law_start_begins_with_the_server(plugin: &mut Plugin, action: InitAction)
    requires
        call_ensures(init, (plugin, InitEvent::Start), action),
    ensures
        unchanged(*old(plugin), *final(plugin)),
        action matches InitAction::SpawnServe { log, program, args } && {
            &&& log@ == "[opencode-plugin] "@ + "init: spawning opencode serve..."@
            &&& program@ == "opencode"@
            &&& args@.len() == 7
            &&& args@[0]@ == "serve"@
            &&& args@[1]@ == "--port"@
            &&& args@[2]@ == "0"@
            &&& args@[3]@ == "--print-logs"@
            &&& args@[4]@ == "true"@
            &&& args@[5]@ == "--log-level"@
            &&& args@[6]@ == "INFO"@
        },
{
    if let InitAction::SpawnServe { log, program, args } = action {
        let told = texts(args@);
        assert(told.len() == args@.len());
        assert forall|i: int| 0 <= i < args@.len() implies (#[trigger] args@[i])@ == told[i] by {}
    }
}

/// A server that runs is kept and read for the first of 80 times.
pub proof fn law_running_server_is_read(plugin: &mut Plugin, handle: i32, action: InitAction)
    requires
        call_ensures(init, (plugin, InitEvent::ServeSpawned { handle }), action),
    ensures
        final(plugin).serve_handle == handle,
        unchanged(Plugin { serve_handle: handle, ..*old(plugin) }, *final(plugin)),
        action matches InitAction::PollServe { wait } && wait.output@.len() == 0 && wait.polls_left
            == 79,
{
}

/// A server that could not be started is reported.
pub proof fn law_missing_server_is_reported(plugin: &mut Plugin, action: InitAction)
    requires
        call_ensures(init, (plugin, InitEvent::ServeSpawnFailed), action),
    ensures
        unchanged(*old(plugin), *final(plugin)),
        action matches InitAction::Finish { calls } && reports_failure(
            calls@,
            "Failed to spawn opencode serve. Make sure opencode is installed and on PATH."@,
        ),
{
    if let InitAction::Finish { calls } = action {
        lemma_calls(calls@);
    }
}

/// The next read, with what was printed so far, or the report that there is no port.
pub open spec fn reads_on(action: InitAction, output: Seq<u8>, polls_left: u32) -> bool {
    if polls_left > 0 {
        action matches InitAction::PollServe { wait } && wait.output@ == output && wait.polls_left
            == polls_left - 1
    } else {
        times_out(action)
    }
}

/// The report that there is no port.
pub open spec fn times_out(action: InitAction) -> bool {
    action matches InitAction::Finish { calls } && reports_failure(
        calls@,
        "opencode serve did not print a port within the startup timeout."@,
    )
}

/// Once all that the server has printed announces a port, the stream is opened at that port, and
/// the port is kept. Until then the server is read again, as long as reads are left.
pub proof fn law_output_is_read_for_the_port(
    plugin: &mut Plugin,
    wait: PortWait,
    bytes: Vec<u8>,
    action: InitAction,
)
    requires
        call_ensures(
            init,
            (plugin, InitEvent::ServeRead { wait, read: PipeRead::Data { bytes } }),
            action,
        ),
    ensures
        match announced_port(wait.output@ + bytes@) {
            Some(port) => {
                &&& unchanged(Plugin { server_port: port, ..*old(plugin) }, *final(plugin))
                &&& action matches InitAction::OpenSse { log, url }
                &&& url@ == local_address(port) + "/global/event"@
                &&& log@ == "[opencode-plugin] "@ + ("opencode serve is listening on port "@
                    + decimal(port as nat))
            },
            None => {
                &&& unchanged(*old(plugin), *final(plugin))
                &&& reads_on(action, wait.output@ + bytes@, wait.polls_left)
            },
        },
{
    if let InitAction::Finish { calls } = action {
        lemma_calls(calls@);
    }
}

/// Without output there is a wait of 50 milliseconds, which costs no read.
pub proof fn law_no_output_is_waited_for(plugin: &mut Plugin, wait: PortWait, action: InitAction)
    requires
        call_ensures(
            init,
            (plugin, InitEvent::ServeRead { wait, read: PipeRead::Empty }),
            action,
        ),
    ensures
        unchanged(*old(plugin), *final(plugin)),
        action matches InitAction::WaitServe { wait: next, millis } && millis == 50
            && next.output@ == wait.output@ && next.polls_left == wait.polls_left,
{
}

/// After a wait the server is read again, as long as reads are left.
pub proof fn law_wait_is_followed_by_a_read(
    plugin: &mut Plugin,
    wait: PortWait,
    action: InitAction,
)
    requires
        call_ensures(init, (plugin, InitEvent::ServeWaited { wait }), action),
    ensures
        unchanged(*old(plugin), *final(plugin)),
        reads_on(action, wait.output@, wait.polls_left),
{
    if let InitAction::Finish { calls } = action {
        lemma_calls(calls@);
    }
}

/// The end of the output, or a failed read, ends the start.
pub proof fn law_end_of_output_ends_the_start(
    plugin: &mut Plugin,
    wait: PortWait,
    read: PipeRead,
    action: InitAction,
)
    requires
        call_ensures(init, (plugin, InitEvent::ServeRead { wait, read }), action),
        read is Eof || read is Failed,
    ensures
        unchanged(*old(plugin), *final(plugin)),
        times_out(action),
{
    if let InitAction::Finish { calls } = action {
        lemma_calls(calls@);
    }
}

/// A list of two strings.
pub open spec fn two_strings(first: Seq<char>, second: Seq<char>) -> JsonTree {
    JsonTree::List(seq![JsonTree::Text(first), JsonTree::Text(second)])
}

/// A spawn of the user's client, attached to the server at a port: in the host's directory, in a
/// terminal of 80 by 24 that knows colours.
pub open spec fn attaches(spawn: PtySpawn, port: u16) -> bool {
    &&& spawn.program@ == "opencode"@
    &&& prints(spawn.args_json, two_strings("attach"@, local_address(port)))
    &&& spawn.cwd@ == ""@
    &&& prints(
        spawn.env_json,
        JsonTree::Object(
            map![
                "TERM"@ => JsonTree::Text("xterm-256color"@),
                "COLORTERM"@ => JsonTree::Text("truecolor"@),
            ],
        ),
    )
    &&& spawn.cols == 80
    &&& spawn.rows == 24
}

/// Whether or not the stream could be opened, the client is attached to the server at the port
/// that is kept. The handle of an open stream is kept, and logged either way.
pub proof fn law_client_attaches_to_the_server(
    plugin: &mut Plugin,
    handle: i32,
    action: InitAction,
)
    requires
        call_ensures(init, (plugin, InitEvent::SseOpened { handle }), action),
    ensures
        action matches InitAction::SpawnPty { log, spawn } && {
            &&& attaches(spawn, old(plugin).server_port)
            &&& handle > 0 ==> log@ == "[opencode-plugin] "@ + ("SSE sidecar connected, handle="@
                + signed(handle as int))
            &&& handle <= 0 ==> log@ == "[opencode-plugin] "@ + (
            "SSE sidecar failed to connect (handle="@ + signed(handle as int) + ")"@)
        },
        handle > 0 ==> final(plugin).sse_handle == handle,
        handle <= 0 ==> final(plugin).sse_handle == old(plugin).sse_handle,
        unchanged(
            Plugin { sse_handle: final(plugin).sse_handle, ..*old(plugin) },
            *final(plugin),
        ),
{
    reveal_strlit("-");
    assert("-"@ =~= seq!['-']);
    let port = old(plugin).server_port;
    let args = seq!["attach"@, local_address(port)];
    let trees = seq![JsonTree::Text("attach"@), JsonTree::Text(local_address(port))];
    assert(args.map_values(|chars: Seq<char>| JsonTree::Text(chars)) =~= trees);
    assert(strings_tree(args) == two_strings("attach"@, local_address(port)));
}

/// The stream is opened, and the client attached, at the one address that the server has
/// announced, whatever port that is.
pub proof fn law_one_address_for_all(
    first: &mut Plugin,
    wait: PortWait,
    bytes: Vec<u8>,
    port: u16,
    opens: InitAction,
    second: &mut Plugin,
    handle: i32,
    spawns: InitAction,
)
    requires
        call_ensures(
            init,
            (first, InitEvent::ServeRead { wait, read: PipeRead::Data { bytes } }),
            opens,
        ),
        announced_port(wait.output@ + bytes@) == Some(port),
        old(second).server_port == final(first).server_port,
        call_ensures(init, (second, InitEvent::SseOpened { handle }), spawns),
    ensures
        opens matches InitAction::OpenSse { url, .. } && url@ == local_address(port)
            + "/global/event"@,
        spawns matches InitAction::SpawnPty { spawn, .. } && json_parse(spawn.args_json@) == Some(
            two_strings("attach"@, local_address(port)),
        ),
{
    law_output_is_read_for_the_port(first, wait, bytes, opens);
    law_client_attaches_to_the_server(second, handle, spawns);
}

/// Clients of servers on different ports are given different arguments.
pub proof fn law_ports_are_told_apart(a: PtySpawn, p: u16, b: PtySpawn, q: u16)
    requires
        attaches(a, p),
        attaches(b, q),
        a.args_json@ == b.args_json@,
    ensures
        p == q,
{
    let one = two_strings("attach"@, local_address(p));
    let other = two_strings("attach"@, local_address(q));
    assert(one == other);
    assert(one->List_0[1] == other->List_0[1]);
    let mark = "http://127.0.0.1:"@;
    assert(decimal(p as nat) =~= local_address(p).skip(mark.len() as int));
    assert(decimal(q as nat) =~= local_address(q).skip(mark.len() as int));
    law_decimals_differ(p as nat, q as nat);
}

/// A terminal that could be had is kept and shown at 80 by 24, and the handles are logged; one
/// that could not is reported, and nothing changes.
pub proof fn law_terminal_ends_the_start(plugin: &mut Plugin, handle: i32, action: InitAction)
    requires
        call_ensures(init, (plugin, InitEvent::PtySpawned { handle }), action),
    ensures
        handle >= 0 ==> {
            &&& unchanged(
                Plugin { pty_handle: handle, cols: 80, rows: 24, ..*old(plugin) },
                *final(plugin),
            )
            &&& action matches InitAction::Finish { calls }
            &&& calls@.len() == 2
            &&& logs(
                calls@[0],
                "PTY handle="@ + signed(handle as int) + ", SSE handle="@ + signed(
                    old(plugin).sse_handle as int,
                ),
            )
            &&& shows_terminal(calls@[1], handle as int, 80, 24)
        },
        handle < 0 ==> {
            &&& unchanged(*old(plugin), *final(plugin))
            &&& action matches InitAction::Finish { calls }
            &&& reports_failure(
                calls@,
                "opencode serve started but failed to spawn opencode attach PTY."@,
            )
        },
{
    reveal_strlit("-");
    assert("-"@ =~= seq!['-']);
    if let InitAction::Finish { calls } = action {
        lemma_calls(calls@);
    }
}

/// A program is told to the host as it is given: its arguments as a list in their order, its
/// directory or none, its environment as an object, and the size of its terminal.
pub proof fn law_program_is_told(
    program: &str,
    args: &Vec<String>,
    cwd: Option<&str>,
    env: &Vec<(String, String)>,
    cols: i32,
    rows: i32,
    spawn: PtySpawn,
    trees: Seq<JsonTree>,
)
    requires
        call_ensures(spawn_pty, (program, args, cwd, env, cols, rows), spawn),
        trees.len() == args@.len(),
        forall|i: int| 0 <= i < trees.len() ==> (#[trigger] trees[i]) == JsonTree::Text(args@[i]@),
    ensures
        spawn.program@ == program@,
        prints(spawn.args_json, JsonTree::List(trees)),
        cwd is Some ==> spawn.cwd@ == cwd->0@,
        cwd is None ==> spawn.cwd@.len() == 0,
        json_parse(spawn.env_json@) is Some,
        spawn.env_json@ == json_text(json_parse(spawn.env_json@)->0),
        forall|i: int|
            0 <= i < env@.len() && (forall|j: int|
                0 <= j < i ==> (#[trigger] env@[j]).0@ != env@[i].0@) ==> json_parse(
                spawn.env_json@,
            )->0.get((#[trigger] env@[i]).0@) == Some(JsonTree::Text(env@[i].1@)),
        forall|key: Seq<char>|
            (forall|j: int| 0 <= j < env@.len() ==> (#[trigger] env@[j]).0@ != key) ==> (
            #[trigger] json_parse(spawn.env_json@)->0.get(key)) is None,
        spawn.cols == cols,
        spawn.rows == rows,
{
    reveal_strlit("");
    assert(trees =~= texts(args@).map_values(|chars: Seq<char>| JsonTree::Text(chars)));
    assert forall|i: int|
        0 <= i < env@.len() && (forall|j: int|
            0 <= j < i ==> (#[trigger] env@[j]).0@ != env@[i].0@) implies json_parse(
        spawn.env_json@,
    )->0.get((#[trigger] env@[i]).0@) == Some(JsonTree::Text(env@[i].1@)) by {
        lemma_first_pair(env@, i);
    }
    assert forall|key: Seq<char>|
        (forall|j: int| 0 <= j < env@.len() ==> (#[trigger] env@[j]).0@ != key) implies (
    #[trigger] json_parse(spawn.env_json@)->0.get(key)) is None by {
        lemma_no_pair(env@, key);
    }
}

} // verus!
