use opencode_plugin::actions::{handle_action, pty_output, pty_text, typed_input};
use opencode_plugin::armor::decode;
use opencode_plugin::document::parse;
use opencode_plugin::host::{AIEvent, HostCall};
use opencode_plugin::plugin::{push_terminal_ui, Plugin};

fn act(plugin: &mut Plugin, action: &str, payload: &str) -> Vec<HostCall> {
    handle_action(plugin, action.to_string(), parse(payload).unwrap())
}

fn running() -> Plugin {
    let mut plugin = Plugin::new();
    plugin.pty_handle = 10000;
    plugin.serve_handle = 0;
    plugin.sse_handle = 4;
    plugin.server_port = 4096;
    plugin
}

fn shown(handle: i32, cols: i32, rows: i32) -> HostCall {
    HostCall::PushUi {
        json: format!(
            "[{{\"cols\":{},\"handle\":{},\"rows\":{},\"type\":\"terminal\"}}]",
            cols, handle, rows
        ),
    }
}

#[test]
fn a_terminal_is_polled_by_its_handle() {
    let mut plugin = running();
    let read = |handle| vec![HostCall::PtyRead { handle }];
    assert_eq!(act(&mut plugin, "pty_poll", "{\"handle\":10000}"), read(10000));
    assert_eq!(act(&mut plugin, "pty_poll", "{\"handle\":0}"), read(0));
    assert_eq!(act(&mut plugin, "pty_poll", "{\"handle\":-5}"), vec![]);
    assert_eq!(act(&mut plugin, "pty_poll", "{\"handle\":\"1\"}"), vec![]);
    assert_eq!(act(&mut plugin, "pty_poll", "{\"handle\":1.5}"), vec![]);
    assert_eq!(act(&mut plugin, "pty_poll", "null"), vec![]);
    assert_eq!(plugin, running());
}

#[test]
fn handles_are_taken_in_32_bits() {
    let mut plugin = running();
    let read = |handle| vec![HostCall::PtyRead { handle }];
    assert_eq!(act(&mut plugin, "pty_poll", "{\"handle\":4294967306}"), read(10));
    assert_eq!(act(&mut plugin, "pty_poll", "{\"handle\":2147483647}"), read(i32::MAX));
    assert_eq!(act(&mut plugin, "pty_poll", "{\"handle\":2147483648}"), vec![]);
    assert_eq!(act(&mut plugin, "pty_poll", "{\"handle\":-4294967295}"), read(1));
    assert_eq!(act(&mut plugin, "pty_poll", "{\"handle\":9223372036854775808}"), vec![]);
}

#[test]
fn typed_text_is_written() {
    let mut plugin = running();
    assert_eq!(
        act(&mut plugin, "pty_input", "{\"handle\":1,\"data\":\"bHMK\"}"),
        vec![HostCall::PtyWrite { handle: 1, bytes: b"ls\n".to_vec() }]
    );
    assert_eq!(
        act(&mut plugin, "pty_input", "{\"handle\":1,\"data\":\"/w==\"}"),
        vec![HostCall::PtyWrite { handle: 1, bytes: vec![255] }]
    );
}

#[test]
fn what_is_not_base64_is_not_written() {
    let mut plugin = running();
    for data in ["\"bHMK=\"", "\"bHM\"", "\"/x==\"", "\"b\u{e9}\"", "\"\"", "7", "null"] {
        let payload = format!("{{\"handle\":1,\"data\":{}}}", data);
        assert_eq!(act(&mut plugin, "pty_input", &payload), vec![]);
    }
    assert_eq!(act(&mut plugin, "pty_input", "{\"handle\":1}"), vec![]);
    assert_eq!(act(&mut plugin, "pty_input", "{\"data\":\"bHMK\"}"), vec![]);
    assert_eq!(plugin, running());
}

#[test]
fn typed_bytes_are_written_where_there_are_some() {
    assert_eq!(
        typed_input(0, Some(vec![1, 2])),
        Some(HostCall::PtyWrite { handle: 0, bytes: vec![1, 2] })
    );
    assert_eq!(typed_input(0, Some(vec![])), None);
    assert_eq!(typed_input(0, None), None);
    assert_eq!(typed_input(-1, Some(vec![1])), None);
}

#[test]
fn texts_are_read_as_standard_base64() {
    assert_eq!(decode(""), Some(vec![]));
    assert_eq!(decode("AA=="), Some(vec![0]));
    assert_eq!(decode("AAA="), Some(vec![0, 0]));
    assert_eq!(decode("+/+/"), Some(vec![0xfb, 0xff, 0xbf]));
    assert_eq!(decode("Zm9vYmFy"), Some(b"foobar".to_vec()));
    for text in ["A", "AA", "AA=", "AB==", "AAB=", "A===", "====", "AA==AA==", "-_-_", "AAAA\n"] {
        assert_eq!(decode(text), None);
    }
}

#[test]
fn a_terminal_is_resized() {
    let mut plugin = running();
    assert_eq!(
        act(&mut plugin, "pty_resize", "{\"handle\":2,\"cols\":120,\"rows\":40}"),
        vec![HostCall::PtyResize { handle: 2, cols: 120, rows: 40 }]
    );
    assert_eq!((plugin.cols, plugin.rows), (120, 40));
    assert_eq!(push_terminal_ui(&plugin, 2), shown(2, 120, 40));
    assert_eq!(
        act(&mut plugin, "pty_resize", "{\"handle\":2}"),
        vec![HostCall::PtyResize { handle: 2, cols: 80, rows: 24 }]
    );
    assert_eq!(act(&mut plugin, "pty_resize", "{\"cols\":120,\"rows\":40}"), vec![]);
    assert_eq!((plugin.cols, plugin.rows), (80, 24));
}

#[test]
fn closing_closes_everything() {
    let mut plugin = running();
    assert_eq!(
        act(&mut plugin, "pty_close", "{\"handle\":10000}"),
        vec![
            HostCall::PtyClose { handle: 10000 },
            HostCall::SseReset,
            HostCall::SseClose { handle: 4 },
            HostCall::Kill { handle: 0 },
            shown(-1, 80, 24),
        ]
    );
    assert_eq!((plugin.pty_handle, plugin.sse_handle, plugin.serve_handle), (-1, -1, -1));
    assert_eq!(plugin.server_port, 4096);
    assert_eq!(act(&mut plugin, "pty_close", "{}"), vec![shown(-1, 80, 24)]);
    assert_eq!(act(&mut plugin, "sidecar_poll", "{}"), vec![]);
}

#[test]
fn closing_without_a_handle_keeps_the_terminal() {
    let mut plugin = running();
    plugin.sse_handle = 0;
    assert_eq!(
        act(&mut plugin, "pty_close", "{}"),
        vec![HostCall::Kill { handle: 0 }, shown(-1, 80, 24)]
    );
    assert_eq!((plugin.pty_handle, plugin.sse_handle, plugin.serve_handle), (10000, 0, -1));
}

#[test]
fn the_stream_is_polled_while_it_is_open() {
    let mut plugin = running();
    assert_eq!(
        act(&mut plugin, "sidecar_poll", "{}"),
        vec![HostCall::SseRead { handle: 4 }]
    );
    plugin.sse_handle = 0;
    assert_eq!(act(&mut plugin, "sidecar_poll", "{}"), vec![]);
}

#[test]
fn unknown_actions_are_only_logged() {
    let mut plugin = running();
    let logged = |action: &str| {
        vec![HostCall::Log { line: format!("[opencode-plugin] Unknown action: {}", action) }]
    };
    assert_eq!(act(&mut plugin, "pty_polls", "{\"handle\":1}"), logged("pty_polls"));
    assert_eq!(act(&mut plugin, "", "{\"handle\":1}"), logged(""));
    assert_eq!(plugin, running());
}

#[test]
fn output_is_pushed_in_base64() {
    let mut buf = [0u8; 4096];
    buf[..5].copy_from_slice(b"\x1b[1m\xff");
    assert_eq!(
        pty_output(&buf, 5),
        Some(HostCall::PushEvent {
            session_id: "opencode-pty".to_string(),
            event: AIEvent::StreamingDelta {
                session_id: "opencode-pty".to_string(),
                text: "G1sxbf8=".to_string(),
            },
        })
    );
    assert_eq!(pty_output(&buf, 0), None);
    assert_eq!(pty_output(&buf, -1), None);
}

#[test]
fn terminal_text_is_pushed_as_it_stands() {
    assert_eq!(
        pty_text("AA==".to_string()),
        HostCall::PushEvent {
            session_id: "opencode-pty".to_string(),
            event: AIEvent::StreamingDelta {
                session_id: "opencode-pty".to_string(),
                text: "AA==".to_string(),
            },
        }
    );
}

#[test]
fn output_typed_back_is_the_output() {
    let mut buf = [0u8; 4096];
    for i in 0..4096 {
        buf[i] = (i * 7 + i / 256) as u8;
    }
    for n in [1, 2, 3, 4095, 4096] {
        let text = match pty_output(&buf, n) {
            Some(HostCall::PushEvent { event: AIEvent::StreamingDelta { text, .. }, .. }) => text,
            other => panic!("{:?}", other),
        };
        let payload = format!("{{\"handle\":1,\"data\":\"{}\"}}", text);
        assert_eq!(
            act(&mut running(), "pty_input", &payload),
            vec![HostCall::PtyWrite { handle: 1, bytes: buf[..n as usize].to_vec() }]
        );
    }
}
