use opencode_plugin::host::{AIEvent, HostCall};
use opencode_plugin::plugin::{start_sidecar, Plugin};
use opencode_plugin::port::{port_in_line, scan_port, wait_for_port, PipeRead, PortStep, PortWait};
use opencode_plugin::startup::{
    fail_init, init, serve_errors, spawn_pty, InitAction, InitEvent,
};

fn data(bytes: &[u8]) -> PipeRead {
    PipeRead::Data { bytes: bytes.to_vec() }
}

fn failure(message: &str, label: &str) -> Vec<HostCall> {
    vec![
        HostCall::Log { line: format!("[opencode-plugin] FATAL: {}", message) },
        HostCall::PushEvent {
            session_id: "opencode".to_string(),
            event: AIEvent::Error { message: message.to_string() },
        },
        HostCall::PushUi { json: label.to_string() },
    ]
}

fn timeout() -> InitAction {
    InitAction::Finish {
        calls: failure(
            "opencode serve did not print a port within the startup timeout.",
            "[{\"text\":\"Error: opencode serve did not print a port within the startup timeout.\",\"type\":\"label\"}]",
        ),
    }
}

#[test]
fn the_announced_port_is_read() {
    assert_eq!(scan_port(b"INFO x\nlistening on http://127.0.0.1:59114\nmore"), Some(59114));
    assert_eq!(scan_port(b"listening on http://127.0.0.1:59114\r\n"), Some(59114));
    assert_eq!(scan_port(b"opencode server listening on http://127.0.0.1:0\n"), Some(0));
    assert_eq!(scan_port(b"listening on http://[::1]:65535 (ready)\n"), Some(65535));
}

#[test]
fn an_unfinished_line_announces_nothing() {
    assert_eq!(scan_port(b"listening on http://127.0.0.1:59114"), None);
    assert_eq!(scan_port(b""), None);
    assert_eq!(scan_port(b"listening on https://127.0.0.1:59114\n"), None);
}

#[test]
fn the_first_announcement_counts() {
    assert_eq!(
        scan_port(b"listening on http://here\nlistening on http://127.0.0.1:59114\n"),
        None
    );
    assert_eq!(
        scan_port(b"listening on http://a:1\nlistening on http://b:2\n"),
        Some(1)
    );
}

#[test]
fn ports_are_numbers_below_65536() {
    assert_eq!(port_in_line("x:65535"), Some(65535));
    assert_eq!(port_in_line("x:65536"), None);
    assert_eq!(port_in_line("x:99999999999999999999"), None);
    assert_eq!(port_in_line("x:00080"), Some(80));
    assert_eq!(port_in_line("x:+80"), Some(80));
    assert_eq!(port_in_line("x:-80"), None);
    assert_eq!(port_in_line("x:+"), None);
    assert_eq!(port_in_line("x:"), None);
    assert_eq!(port_in_line("80"), Some(80));
    assert_eq!(port_in_line(""), None);
    assert_eq!(port_in_line("x:8 0"), None);
    assert_eq!(port_in_line("x:\u{3000}\u{a0} 80\u{2003}/\t"), Some(80));
    assert_eq!(port_in_line("x:\u{feff}80"), None);
    assert_eq!(port_in_line("x:80/a1"), None);
}

#[test]
fn every_port_is_read_back() {
    for port in 0..=65535u16 {
        let line = format!("listening on http://127.0.0.1:{}", port);
        assert_eq!(port_in_line(&line), Some(port));
        assert_eq!(start_sidecar(port), format!("http://127.0.0.1:{}/global/event", port));
    }
}

#[test]
fn output_may_come_in_pieces() {
    let mut wait = PortWait::new();
    assert_eq!(wait_for_port(&mut wait, data(b"... listening on ht")), PortStep::Poll);
    assert_eq!(wait_for_port(&mut wait, PipeRead::Empty), PortStep::Wait);
    assert_eq!(wait_for_port(&mut wait, data(b"tp://127.0.0.1:41")), PortStep::Poll);
    assert_eq!(wait_for_port(&mut wait, data(b"23\n")), PortStep::Found { port: 4123 });
}

#[test]
fn the_end_of_the_output_ends_the_wait() {
    assert_eq!(wait_for_port(&mut PortWait::new(), PipeRead::Eof), PortStep::GiveUp);
    assert_eq!(wait_for_port(&mut PortWait::new(), PipeRead::Failed), PortStep::GiveUp);
}

#[test]
fn the_server_is_started_first() {
    let mut plugin = Plugin::new();
    let args = ["serve", "--port", "0", "--print-logs", "true", "--log-level", "INFO"];
    assert_eq!(
        init(&mut plugin, InitEvent::Start),
        InitAction::SpawnServe {
            log: "[opencode-plugin] init: spawning opencode serve...".to_string(),
            program: "opencode".to_string(),
            args: args.iter().map(|arg| arg.to_string()).collect(),
        }
    );
    assert_eq!(plugin, Plugin::new());
}

#[test]
fn a_start_goes_well() {
    let mut plugin = Plugin::new();
    let wait = match init(&mut plugin, InitEvent::ServeSpawned { handle: 3 }) {
        InitAction::PollServe { wait } => wait,
        other => panic!("{:?}", other),
    };
    assert_eq!(wait.polls_left, 79);
    let wait = match init(&mut plugin, InitEvent::ServeRead { wait, read: PipeRead::Empty }) {
        InitAction::WaitServe { wait, millis } => {
            assert_eq!(millis, 50);
            wait
        }
        other => panic!("{:?}", other),
    };
    let wait = match init(&mut plugin, InitEvent::ServeWaited { wait }) {
        InitAction::PollServe { wait } => wait,
        other => panic!("{:?}", other),
    };
    let read = data(b"listening on http://127.0.0.1:4096\n");
    assert_eq!(
        init(&mut plugin, InitEvent::ServeRead { wait, read }),
        InitAction::OpenSse {
            log: "[opencode-plugin] opencode serve is listening on port 4096".to_string(),
            url: "http://127.0.0.1:4096/global/event".to_string(),
        }
    );
    assert_eq!(plugin.server_port, 4096);
    match init(&mut plugin, InitEvent::SseOpened { handle: 5 }) {
        InitAction::SpawnPty { log, spawn } => {
            assert_eq!(log, "[opencode-plugin] SSE sidecar connected, handle=5");
            assert_eq!(spawn.program, "opencode");
            assert_eq!(spawn.args_json, "[\"attach\",\"http://127.0.0.1:4096\"]");
            assert_eq!(spawn.cwd, "");
            assert_eq!(spawn.env_json, "{\"COLORTERM\":\"truecolor\",\"TERM\":\"xterm-256color\"}");
            assert_eq!((spawn.cols, spawn.rows), (80, 24));
        }
        other => panic!("{:?}", other),
    }
    let shown = "[{\"cols\":80,\"handle\":10000,\"rows\":24,\"type\":\"terminal\"}]";
    assert_eq!(
        init(&mut plugin, InitEvent::PtySpawned { handle: 10000 }),
        InitAction::Finish {
            calls: vec![
                HostCall::Log {
                    line: "[opencode-plugin] PTY handle=10000, SSE handle=5".to_string()
                },
                HostCall::PushUi { json: shown.to_string() },
            ]
        }
    );
    assert_eq!(
        (plugin.pty_handle, plugin.serve_handle, plugin.sse_handle),
        (10000, 3, 5)
    );
}

#[test]
fn a_stream_that_does_not_open_is_not_kept() {
    let mut plugin = Plugin::new();
    for handle in [0, -7, i32::MIN] {
        match init(&mut plugin, InitEvent::SseOpened { handle }) {
            InitAction::SpawnPty { log, .. } => assert_eq!(
                log,
                format!("[opencode-plugin] SSE sidecar failed to connect (handle={})", handle)
            ),
            other => panic!("{:?}", other),
        }
        assert_eq!(plugin, Plugin::new());
    }
}

#[test]
fn the_server_is_read_eighty_times() {
    let mut plugin = Plugin::new();
    let mut action = init(&mut plugin, InitEvent::ServeSpawned { handle: 3 });
    let mut polls = 0;
    while let InitAction::PollServe { wait } = action {
        polls += 1;
        action = init(&mut plugin, InitEvent::ServeRead { wait, read: data(b"x") });
    }
    assert_eq!(polls, 80);
    assert_eq!(action, timeout());
}

#[test]
fn a_silent_server_is_waited_for() {
    let mut plugin = Plugin::new();
    let mut action = init(&mut plugin, InitEvent::ServeSpawned { handle: 3 });
    let mut waits = 0;
    while let InitAction::PollServe { wait } = action {
        action = match init(&mut plugin, InitEvent::ServeRead { wait, read: PipeRead::Empty }) {
            InitAction::WaitServe { wait, .. } => {
                waits += 1;
                init(&mut plugin, InitEvent::ServeWaited { wait })
            }
            other => panic!("{:?}", other),
        };
    }
    assert_eq!(waits, 80);
    assert_eq!(action, timeout());
}

#[test]
fn failures_are_reported() {
    let mut plugin = Plugin::new();
    let spawn_failed = "Failed to spawn opencode serve. Make sure opencode is installed and on PATH.";
    assert_eq!(
        init(&mut plugin, InitEvent::ServeSpawnFailed),
        InitAction::Finish { calls: fail_init(spawn_failed) }
    );
    let eof = InitEvent::ServeRead { wait: PortWait::new(), read: PipeRead::Eof };
    assert_eq!(init(&mut plugin, eof), timeout());
    let pty_failed = "opencode serve started but failed to spawn opencode attach PTY.";
    assert_eq!(
        init(&mut plugin, InitEvent::PtySpawned { handle: -1 }),
        InitAction::Finish { calls: fail_init(pty_failed) }
    );
    assert_eq!(plugin, Plugin::new());
    assert_eq!(
        fail_init("no \"luck\""),
        failure("no \"luck\"", "[{\"text\":\"Error: no \\\"luck\\\"\",\"type\":\"label\"}]")
    );
}

/// Runs a whole start: the calls at its end.
fn start(
    plugin: &mut Plugin,
    serve: Option<i32>,
    mut reads: Vec<PipeRead>,
    sse: i32,
    pty: i32,
) -> Vec<HostCall> {
    reads.reverse();
    let mut event = InitEvent::Start;
    loop {
        event = match init(plugin, event) {
            InitAction::SpawnServe { .. } => match serve {
                Some(handle) => InitEvent::ServeSpawned { handle },
                None => InitEvent::ServeSpawnFailed,
            },
            InitAction::PollServe { wait } => {
                InitEvent::ServeRead { wait, read: reads.pop().unwrap_or(PipeRead::Empty) }
            }
            InitAction::WaitServe { wait, .. } => InitEvent::ServeWaited { wait },
            InitAction::OpenSse { .. } => InitEvent::SseOpened { handle: sse },
            InitAction::SpawnPty { .. } => InitEvent::PtySpawned { handle: pty },
            InitAction::Finish { calls } => return calls,
        };
    }
}

#[test]
fn a_start_shows_one_thing() {
    let reads = || {
        vec![PipeRead::Empty, data(b"x listening on http://a:4"), PipeRead::Empty, data(b"2\r\ny")]
    };
    let mut plugin = Plugin::new();
    let calls = start(&mut plugin, Some(1), reads(), 2, 3);
    assert_eq!(
        calls,
        vec![
            HostCall::Log { line: "[opencode-plugin] PTY handle=3, SSE handle=2".to_string() },
            HostCall::PushUi {
                json: "[{\"cols\":80,\"handle\":3,\"rows\":24,\"type\":\"terminal\"}]".to_string()
            },
        ]
    );
    assert_eq!(plugin.server_port, 42);
    let spawn_failed = "Failed to spawn opencode serve. Make sure opencode is installed and on PATH.";
    assert_eq!(start(&mut Plugin::new(), None, reads(), 2, 3), fail_init(spawn_failed));
    let pty_failed = "opencode serve started but failed to spawn opencode attach PTY.";
    assert_eq!(start(&mut Plugin::new(), Some(1), reads(), 2, -1), fail_init(pty_failed));
    let no_port = "opencode serve did not print a port within the startup timeout.";
    assert_eq!(start(&mut Plugin::new(), Some(1), vec![], 2, 3), fail_init(no_port));
    let mut ended = reads();
    ended.insert(2, PipeRead::Eof);
    assert_eq!(start(&mut Plugin::new(), Some(1), ended, 2, 3), fail_init(no_port));
}

#[test]
fn a_port_may_come_with_the_last_read_only() {
    let late = |empty: usize| {
        let mut reads: Vec<PipeRead> = (0..empty).map(|_| PipeRead::Empty).collect();
        reads.push(data(b"listening on http://a:42\n"));
        reads
    };
    assert_eq!(start(&mut Plugin::new(), Some(1), late(79), 2, 3).len(), 2);
    assert_eq!(start(&mut Plugin::new(), Some(1), late(80), 2, 3).len(), 3);
}

#[test]
fn errors_of_the_server_are_logged() {
    assert_eq!(
        serve_errors(b"oh \xff"),
        HostCall::Log { line: "[opencode-plugin] serve stderr: oh \u{fffd}".to_string() }
    );
}

#[test]
fn a_program_is_told_to_the_host() {
    let env = vec![
        ("A".to_string(), "1".to_string()),
        ("A".to_string(), "2".to_string()),
    ];
    let spawn = spawn_pty("sh", &vec![], Some("/tmp"), &env, 100, 30);
    assert_eq!(spawn.args_json, "[]");
    assert_eq!(spawn.cwd, "/tmp");
    assert_eq!(spawn.env_json, "{\"A\":\"1\"}");
    assert_eq!((spawn.cols, spawn.rows), (100, 30));
}
