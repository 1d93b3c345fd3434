//! Starting the server, its event stream and the user's terminal.
use vstd::prelude::*;

use crate::document::{as_json, printed, JsonText};
use crate::events::{pushed, SESSION};
use crate::host::{
    call_views, log, log_line, log_text, logged, push_ai_event, AIEvent, AIEventView, HostCall,
    HostCallView,
};
use crate::json::JsonTree;
use crate::number::{append_decimal, append_integer, decimal, integer_text};
use crate::plugin::{
    push_terminal_ui, server_address, server_url, sidecar_started, start_sidecar, Plugin,
    PluginView, DEFAULT_COLS, DEFAULT_ROWS,
};
use crate::port::{
    wait_for_port, PipeRead, PipeReadView, PortStep, PortWait, PortWaitView, WAIT_MILLIS,
};
use crate::text::{concat, decode, decoded};
use crate::ui::{
    label_tree, label_ui, pairs_json, pairs_map, strings_json, strings_tree, terminal_tree, texts,
};

verus! {

/// A program to be run in a terminal, as the host wants it told.
#[derive(Debug, PartialEq, Eq)]
pub struct PtySpawn {
    pub program: String,
    /// The arguments, a JSON list of strings.
    pub args_json: String,
    /// The directory to run in; empty for the host's own.
    pub cwd: String,
    /// The environment, a JSON object of strings.
    pub env_json: String,
    pub cols: i32,
    pub rows: i32,
}

/// What a `PtySpawn` says.
pub struct PtySpawnView {
    pub program: Seq<char>,
    pub args_json: JsonText,
    pub cwd: Seq<char>,
    pub env_json: JsonText,
    pub cols: i32,
    pub rows: i32,
}

impl View for PtySpawn {
    type V = PtySpawnView;

    open spec fn view(&self) -> PtySpawnView {
        PtySpawnView {
            program: self.program@,
            args_json: as_json(self.args_json@),
            cwd: self.cwd@,
            env_json: as_json(self.env_json@),
            cols: self.cols,
            rows: self.rows,
        }
    }
}

/// What has happened since `init` was last asked.
#[derive(Debug, PartialEq, Eq)]
pub enum InitEvent {
    /// Nothing has been started yet.
    Start,
    /// The server's process runs.
    ServeSpawned { handle: i32 },
    /// The server's process could not be started.
    ServeSpawnFailed,
    /// The server's output was read.
    ServeRead { wait: PortWait, read: PipeRead },
    /// The wait for the server's output is over.
    ServeWaited { wait: PortWait },
    /// The host has tried to open the stream of events.
    SseOpened { handle: i32 },
    /// The host has tried to run the user's client in a terminal.
    PtySpawned { handle: i32 },
}

/// What an `InitEvent` says.
pub enum InitEventView {
    Start,
    ServeSpawned { handle: i32 },
    ServeSpawnFailed,
    ServeRead { wait: PortWaitView, read: PipeReadView },
    ServeWaited { wait: PortWaitView },
    SseOpened { handle: i32 },
    PtySpawned { handle: i32 },
}

impl View for InitEvent {
    type V = InitEventView;

    open spec fn view(&self) -> InitEventView {
        match *self {
            InitEvent::Start => InitEventView::Start,
            InitEvent::ServeSpawned { handle } => InitEventView::ServeSpawned { handle },
            InitEvent::ServeSpawnFailed => InitEventView::ServeSpawnFailed,
            InitEvent::ServeRead { wait, read } => InitEventView::ServeRead {
                wait: wait@,
                read: read@,
            },
            InitEvent::ServeWaited { wait } => InitEventView::ServeWaited { wait: wait@ },
            InitEvent::SseOpened { handle } => InitEventView::SseOpened { handle },
            InitEvent::PtySpawned { handle } => InitEventView::PtySpawned { handle },
        }
    }
}

/// What is to be done next. A line `log` goes into the host's log before anything else is done.
#[derive(Debug, PartialEq, Eq)]
pub enum InitAction {
    /// Start the server, with no environment and in no directory of its own.
    SpawnServe { log: String, program: String, args: Vec<String> },
    /// Read the server's errors, which go to `serve_errors`, and then its output.
    PollServe { wait: PortWait },
    /// Wait for the server's output, so many milliseconds at most.
    WaitServe { wait: PortWait, millis: u32 },
    /// Open the stream of events.
    OpenSse { log: String, url: String },
    /// Run the user's client in a terminal.
    SpawnPty { log: String, spawn: PtySpawn },
    /// All is over, well or not: carry out the calls.
    Finish { calls: Vec<HostCall> },
}

/// What an `InitAction` says.
pub enum InitActionView {
    SpawnServe { log: Seq<char>, program: Seq<char>, args: Seq<Seq<char>> },
    PollServe { wait: PortWaitView },
    WaitServe { wait: PortWaitView, millis: u32 },
    OpenSse { log: Seq<char>, url: Seq<char> },
    SpawnPty { log: Seq<char>, spawn: PtySpawnView },
    Finish { calls: Seq<HostCallView> },
}

impl View for InitAction {
    type V = InitActionView;

    open spec fn view(&self) -> InitActionView {
        match *self {
            InitAction::SpawnServe { log, program, args } => InitActionView::SpawnServe {
                log: log@,
                program: program@,
                args: texts(args@),
            },
            InitAction::PollServe { wait } => InitActionView::PollServe { wait: wait@ },
            InitAction::WaitServe { wait, millis } => InitActionView::WaitServe {
                wait: wait@,
                millis,
            },
            InitAction::OpenSse { log, url } => InitActionView::OpenSse {
                log: log@,
                url: url@,
            },
            InitAction::SpawnPty { log, spawn } => InitActionView::SpawnPty {
                log: log@,
                spawn: spawn@,
            },
            InitAction::Finish { calls } => InitActionView::Finish { calls: call_views(calls@) },
        }
    }
}

/// The calls that report a failed start: a line in the log, an error event and a label with the
/// same message.
pub open spec fn failure_calls(message: Seq<char>) -> Seq<HostCallView> {
    seq![
        logged("FATAL: "@ + message),
        pushed(AIEventView::Error { message }),
        HostCallView::PushUi { json: printed(label_tree("Error: "@ + message)) },
    ]
}

/// The end of a failed start.
pub open spec fn failed(message: Seq<char>) -> InitActionView {
    InitActionView::Finish { calls: failure_calls(message) }
}

/// How the server is started: on a port of its own choice, which it prints.
pub open spec fn serve_action() -> InitActionView {
    InitActionView::SpawnServe {
        log: log_line("init: spawning opencode serve..."@),
        program: "opencode"@,
        args: seq![
            "serve"@,
            "--port"@,
            "0"@,
            "--print-logs"@,
            "true"@,
            "--log-level"@,
            "INFO"@,
        ],
    }
}

/// How the user's client is run.
pub open spec fn attach_spawn(port: u16) -> PtySpawnView {
    PtySpawnView {
        program: "opencode"@,
        args_json: printed(strings_tree(seq!["attach"@, server_address(port)])),
        cwd: ""@,
        env_json: printed(
            JsonTree::Object(
                map![
                    "TERM"@ => JsonTree::Text("xterm-256color"@),
                    "COLORTERM"@ => JsonTree::Text("truecolor"@),
                ],
            ),
        ),
        cols: 80,
        rows: 24,
    }
}

/// What is logged of the port.
pub open spec fn port_log(port: u16) -> Seq<char> {
    log_line("opencode serve is listening on port "@ + decimal(port as nat))
}

/// What is logged of the stream of events, by the handle that the host gave for it.
pub open spec fn sidecar_log(handle: i32) -> Seq<char> {
    if handle > 0 {
        log_line("SSE sidecar connected, handle="@ + integer_text(handle as int))
    } else {
        log_line("SSE sidecar failed to connect (handle="@ + integer_text(handle as int) + ")"@)
    }
}

/// What is logged of a start that went well.
pub open spec fn handles_log(pty: i32, sse: i32) -> HostCallView {
    logged(
        "PTY handle="@ + integer_text(pty as int) + ", SSE handle="@ + integer_text(sse as int),
    )
}

/// The next read of the server's output, or the end of the wait.
pub open spec fn poll_action(wait: PortWaitView) -> InitActionView {
    if wait.polls_left > 0 {
        InitActionView::PollServe { wait: wait.polled() }
    } else {
        failed("opencode serve did not print a port within the startup timeout."@)
    }
}

/// What an event of the start leads to.
pub open spec fn init_action(plugin: PluginView, event: InitEventView) -> InitActionView {
    match event {
        InitEventView::Start => serve_action(),
        InitEventView::ServeSpawned { handle } => poll_action(PortWaitView::start()),
        InitEventView::ServeSpawnFailed => failed(
            "Failed to spawn opencode serve. Make sure opencode is installed and on PATH."@,
        ),
        InitEventView::ServeRead { wait, read } => match wait.step(read) {
            PortStep::Found { port } => InitActionView::OpenSse {
                log: port_log(port),
                url: server_address(port) + "/global/event"@,
            },
            PortStep::Poll => poll_action(wait.after(read)),
            PortStep::Wait => InitActionView::WaitServe { wait: wait.after(read), millis: 50 },
            PortStep::GiveUp => failed(
                "opencode serve did not print a port within the startup timeout."@,
            ),
        },
        InitEventView::ServeWaited { wait } => poll_action(wait),
        InitEventView::SseOpened { handle } => InitActionView::SpawnPty {
            log: sidecar_log(handle),
            spawn: attach_spawn(plugin.server_port),
        },
        InitEventView::PtySpawned { handle } => if handle < 0 {
            failed("opencode serve started but failed to spawn opencode attach PTY."@)
        } else {
            InitActionView::Finish {
                calls: seq![
                    handles_log(handle, plugin.sse_handle),
                    HostCallView::PushUi {
                        json: printed(terminal_tree(handle, 80, 24)),
                    },
                ],
            }
        },
    }
}

/// The state after an event of the start.
pub open spec fn init_state(plugin: PluginView, event: InitEventView) -> PluginView {
    match event {
        InitEventView::ServeSpawned { handle } => PluginView { serve_handle: handle, ..plugin },
        InitEventView::ServeRead { wait, read } => match wait.step(read) {
            PortStep::Found { port } => PluginView { server_port: port, ..plugin },
            _ => plugin,
        },
        InitEventView::SseOpened { handle } => if handle > 0 {
            PluginView { sse_handle: handle, ..plugin }
        } else {
            plugin
        },
        InitEventView::PtySpawned { handle } => if handle < 0 {
            plugin
        } else {
            PluginView { pty_handle: handle, cols: 80, rows: 24, ..plugin }
        },
        _ => plugin,
    }
}

/// The calls that report a failed start.
pub fn fail_init(message: &str) -> (calls: Vec<HostCall>)
    ensures
        call_views(calls@) == failure_calls(message@),
{
    let mut label: String = "Error: ".to_owned();
    label.append(message);
    let calls: Vec<HostCall> = vec![
        log(concat("FATAL: ", message).as_str()),
        push_ai_event(SESSION, AIEvent::Error { message: message.to_owned() }),
        HostCall::PushUi { json: label_ui(label) },
    ];
    proof {
        assert(call_views(calls@) =~= failure_calls(message@));
    }
    calls
}

/// Tells the host of a program to be run in a terminal. Of environment variables with one name
/// the first counts.
pub fn spawn_pty(
    program: &str,
    args: &Vec<String>,
    cwd: Option<&str>,
    env: &Vec<(String, String)>,
    cols: i32,
    rows: i32,
) -> (spawn: PtySpawn)
    ensures
        spawn@ == (PtySpawnView {
            program: program@,
            args_json: printed(strings_tree(texts(args@))),
            cwd: match cwd {
                Some(dir) => dir@,
                None => ""@,
            },
            env_json: printed(JsonTree::Object(pairs_map(env@))),
            cols,
            rows,
        }),
{
    let dir: &str = match cwd {
        Some(dir) => dir,
        None => "",
    };
    PtySpawn {
        program: program.to_owned(),
        args_json: strings_json(args),
        cwd: dir.to_owned(),
        env_json: pairs_json(env),
        cols,
        rows,
    }
}

/// How the server is started.
fn spawn_serve() -> (action: InitAction)
    ensures
        action@ == serve_action(),
{
    let args: Vec<String> = vec![
        "serve".to_owned(),
        "--port".to_owned(),
        "0".to_owned(),
        "--print-logs".to_owned(),
        "true".to_owned(),
        "--log-level".to_owned(),
        "INFO".to_owned(),
    ];
    proof {
        assert(texts(args@) =~= serve_action()->args);
    }
    InitAction::SpawnServe {
        log: log_text("init: spawning opencode serve..."),
        program: "opencode".to_owned(),
        args,
    }
}

/// How the user's client is run.
fn spawn_attach(port: u16) -> (spawn: PtySpawn)
    ensures
        spawn@ == attach_spawn(port),
{
    let args: Vec<String> = vec!["attach".to_owned(), server_url(port)];
    let env: Vec<(String, String)> = vec![
        ("TERM".to_owned(), "xterm-256color".to_owned()),
        ("COLORTERM".to_owned(), "truecolor".to_owned()),
    ];
    proof {
        assert(texts(args@) =~= seq!["attach"@, server_address(port)]);
        reveal_strlit("TERM");
        reveal_strlit("COLORTERM");
        assert("TERM"@.len() != "COLORTERM"@.len());
        reveal_with_fuel(pairs_map, 3);
        let all = env@;
        assert(all.drop_last() =~= all.take(1));
        assert(all.take(1).drop_last() =~= all.take(0));
        assert(pairs_map(all) =~= map![
            "TERM"@ => JsonTree::Text("xterm-256color"@),
            "COLORTERM"@ => JsonTree::Text("truecolor"@),
        ]);
    }
    spawn_pty("opencode", &args, None, &env, DEFAULT_COLS, DEFAULT_ROWS)
}

/// What is logged of the port.
fn log_port(port: u16) -> (line: String)
    ensures
        line@ == port_log(port),
{
    let mut message: String = "opencode serve is listening on port ".to_owned();
    append_decimal(&mut message, port as u32);
    log_text(message.as_str())
}

/// What is logged of the stream of events.
fn log_sidecar(handle: i32) -> (line: String)
    ensures
        line@ == sidecar_log(handle),
{
    if handle > 0 {
        let mut message: String = "SSE sidecar connected, handle=".to_owned();
        append_integer(&mut message, handle);
        log_text(message.as_str())
    } else {
        let mut message: String = "SSE sidecar failed to connect (handle=".to_owned();
        append_integer(&mut message, handle);
        message.append(")");
        log_text(message.as_str())
    }
}

/// What is logged of a start that went well.
fn log_handles(pty: i32, sse: i32) -> (call: HostCall)
    ensures
        call@ == handles_log(pty, sse),
{
    let mut message: String = "PTY handle=".to_owned();
    append_integer(&mut message, pty);
    message.append(", SSE handle=");
    append_integer(&mut message, sse);
    log(message.as_str())
}

/// What the server's errors lead to: they are logged.
pub fn serve_errors(bytes: &[u8]) -> (call: HostCall)
    ensures
        call@ == logged("serve stderr: "@ + decoded(bytes@)),
{
    log(concat("serve stderr: ", decode(bytes).as_str()).as_str())
}

/// The next read of the server's output, or the end of the wait.
fn poll_serve(wait: PortWait) -> (action: InitAction)
    ensures
        action@ == poll_action(wait@),
{
    let mut wait: PortWait = wait;
    if wait.next_poll() {
        InitAction::PollServe { wait }
    } else {
        let calls = fail_init("opencode serve did not print a port within the startup timeout.");
        InitAction::Finish { calls }
    }
}

/// Starts the plugin, step by step: the server, then the stream of its events, then the user's
/// client in a terminal. Says what is to be done after `event`, which reports what was done
/// before.
pub fn init(plugin: &mut Plugin, event: InitEvent) -> (action: InitAction)
    ensures
        action@ == init_action(old(plugin)@, event@),
        final(plugin)@ == init_state(old(plugin)@, event@),
{
    match event {
        InitEvent::Start => spawn_serve(),
        InitEvent::ServeSpawned { handle } => {
            plugin.serve_handle = handle;
            poll_serve(PortWait::new())
        },
        InitEvent::ServeSpawnFailed => {
            let calls = fail_init(
                "Failed to spawn opencode serve. Make sure opencode is installed and on PATH.",
            );
            InitAction::Finish { calls }
        },
        InitEvent::ServeRead { wait, read } => {
            let mut wait: PortWait = wait;
            match wait_for_port(&mut wait, read) {
                PortStep::Found { port } => {
                    plugin.server_port = port;
                    InitAction::OpenSse { log: log_port(port), url: start_sidecar(port) }
                },
                PortStep::Poll => poll_serve(wait),
                PortStep::Wait => InitAction::WaitServe { wait, millis: WAIT_MILLIS },
                PortStep::GiveUp => {
                    let calls = fail_init(
                        "opencode serve did not print a port within the startup timeout.",
                    );
                    InitAction::Finish { calls }
                },
            }
        },
        InitEvent::ServeWaited { wait } => poll_serve(wait),
        InitEvent::SseOpened { handle } => {
            sidecar_started(plugin, handle);
            InitAction::SpawnPty {
                log: log_sidecar(handle),
                spawn: spawn_attach(plugin.server_port),
            }
        },
        InitEvent::PtySpawned { handle } => {
            if handle < 0 {
                let calls = fail_init(
                    "opencode serve started but failed to spawn opencode attach PTY.",
                );
                return InitAction::Finish { calls };
            }
            plugin.pty_handle = handle;
            plugin.cols = DEFAULT_COLS;
            plugin.rows = DEFAULT_ROWS;
            let calls: Vec<HostCall> = vec![
                log_handles(handle, plugin.sse_handle),
                push_terminal_ui(plugin, handle),
            ];
            proof {
                assert(call_views(calls@) =~= seq![
                    handles_log(handle, plugin.sse_handle),
                    plugin@.shown(handle),
                ]);
            }
            InitAction::Finish { calls }
        },
    }
}

} // verus!
