use opencode_plugin::actions::sidecar_poll;
use opencode_plugin::host::{AIEvent, HostCall};
use opencode_plugin::plugin::Plugin;
use opencode_plugin::sse::{event_data, find_double_newline, process_sse_event, take_events};

fn chunk(bytes: &[u8]) -> [u8; 4096] {
    let mut buf = [0u8; 4096];
    buf[..bytes.len()].copy_from_slice(bytes);
    buf
}

fn connected() -> Plugin {
    let mut plugin = Plugin::new();
    plugin.sse_handle = 7;
    plugin
}

fn idle_call() -> HostCall {
    HostCall::PushEvent {
        session_id: "opencode".to_string(),
        event: AIEvent::TurnCompleted { session_id: "opencode".to_string() },
    }
}

#[test]
fn double_newline_is_found_at_its_second_byte() {
    assert_eq!(find_double_newline(b"ab\n\ncd"), Some(3));
    assert_eq!(find_double_newline(b"\n\n"), Some(1));
    assert_eq!(find_double_newline(b"\n\n\n"), Some(1));
}

#[test]
fn double_newline_is_missing() {
    assert_eq!(find_double_newline(b""), None);
    assert_eq!(find_double_newline(b"\n"), None);
    assert_eq!(find_double_newline(b"a\nb\nc"), None);
    assert_eq!(find_double_newline(b"a\r\n\r\n"), None);
}

#[test]
fn events_are_cut_off_whole() {
    let mut buf = b"data: 1\n\ndata: 2\n\ndata: 3".to_vec();
    let events = take_events(&mut buf);
    assert_eq!(events, vec![b"data: 1\n\n".to_vec(), b"data: 2\n\n".to_vec()]);
    assert_eq!(buf, b"data: 3".to_vec());
}

#[test]
fn an_event_may_end_the_buffer() {
    let mut buf = b"data: 1\n\n".to_vec();
    assert_eq!(take_events(&mut buf), vec![b"data: 1\n\n".to_vec()]);
    assert!(buf.is_empty());
}

#[test]
fn three_newlines_leave_one() {
    let mut buf = b"a\n\n\nb\n\n".to_vec();
    assert_eq!(take_events(&mut buf), vec![b"a\n\n".to_vec(), b"\nb\n\n".to_vec()]);
    assert!(buf.is_empty());
}

#[test]
fn data_lines_are_joined() {
    assert_eq!(event_data("event: x\ndata: {\"a\":\r\ndata: 1}\n\n"), Some("{\"a\":1}".to_string()));
    assert_eq!(event_data("data: \n\n"), Some("".to_string()));
    assert_eq!(event_data("data: \u{e9}\u{1f600}\n"), Some("\u{e9}\u{1f600}".to_string()));
}

#[test]
fn lines_without_the_mark_carry_nothing() {
    assert_eq!(event_data(""), None);
    assert_eq!(event_data("data:1\n\n"), None);
    assert_eq!(event_data(" data: 1\n\n"), None);
    assert_eq!(event_data(": ping\n\n"), None);
}

#[test]
fn a_carriage_return_belongs_to_a_newline_only() {
    assert_eq!(event_data("data: a\rb\r\n"), Some("a\rb".to_string()));
    assert_eq!(event_data("data: a\r"), Some("a\r".to_string()));
    assert_eq!(event_data("data: a\r\r\n"), Some("a\r".to_string()));
}

#[test]
fn an_event_without_json_leads_to_nothing() {
    assert_eq!(process_sse_event(b"data: {oops\n\n"), vec![]);
    assert_eq!(process_sse_event(b"data: \n\n"), vec![]);
    assert_eq!(process_sse_event(b": ping\n\n"), vec![]);
}

#[test]
fn an_event_is_decoded_and_mapped() {
    let calls = process_sse_event(b"data: {\"type\":\"session.error\",\"error\":\"b\xffd \xc3\xa9\"}\n\n");
    assert_eq!(
        calls,
        vec![HostCall::PushEvent {
            session_id: "opencode".to_string(),
            event: AIEvent::Error { message: "b\u{fffd}d \u{e9}".to_string() },
        }]
    );
}

#[test]
fn lines_without_data_do_not_matter() {
    let event = |line: &[u8]| {
        let mut raw = b"data: {\"type\":\r\n".to_vec();
        raw.extend_from_slice(line);
        raw.extend_from_slice(b"data: \"session.idle\"}\n\n");
        raw
    };
    let lines: [&[u8]; 7] =
        [b"", b"event: x\n", b"id: 7\r\n", b": ping\n", b"data:x\n", b"\xff\n", b"\r\n"];
    for line in lines {
        assert_eq!(process_sse_event(&event(line)), vec![idle_call()]);
    }
    assert_eq!(process_sse_event(&event(b"data: ,\n")), vec![]);
}

#[test]
fn a_poll_maps_every_complete_event() {
    let mut plugin = connected();
    let stream = b"data: {\"type\":\"session.idle\"}\n\ndata: {\"type\":\"session.idle\"}\n\ndata: {";
    let calls = sidecar_poll(&mut plugin, &chunk(stream), stream.len() as i32);
    assert_eq!(calls, vec![idle_call(), idle_call()]);
    assert_eq!(plugin.line_buf, b"data: {".to_vec());
    assert_eq!(plugin.sse_handle, 7);
}

#[test]
fn a_stream_may_be_cut_anywhere() {
    let stream = b"data: {\"type\":\"session.idle\"}\n\n: ping\n\ndata: {\"type\":\"session.idle\"}\n\nda";
    for cut in 0..stream.len() {
        let mut plugin = connected();
        let mut calls = sidecar_poll(&mut plugin, &chunk(&stream[..cut]), cut as i32);
        let rest = &stream[cut..];
        calls.extend(sidecar_poll(&mut plugin, &chunk(rest), rest.len() as i32));
        assert_eq!(calls, vec![idle_call(), idle_call()]);
        assert_eq!(plugin.line_buf, b"da".to_vec());
    }
}

#[test]
fn a_poll_without_bytes_changes_nothing() {
    let mut plugin = connected();
    plugin.line_buf = b"data: {".to_vec();
    assert_eq!(sidecar_poll(&mut plugin, &chunk(b"xyz"), 0), vec![]);
    assert_eq!(sidecar_poll(&mut plugin, &chunk(b"xyz"), -2), vec![]);
    assert_eq!(plugin.line_buf, b"data: {".to_vec());
    assert_eq!(plugin.sse_handle, 7);
}

#[test]
fn the_end_of_the_stream_is_logged_and_kept() {
    let mut plugin = connected();
    plugin.line_buf = b"data: {".to_vec();
    assert_eq!(
        sidecar_poll(&mut plugin, &chunk(b""), -1),
        vec![HostCall::Log { line: "[opencode-plugin] SSE stream ended".to_string() }]
    );
    assert_eq!(plugin.sse_handle, -1);
    assert_eq!(plugin.line_buf, b"data: {".to_vec());
}

#[test]
fn a_poll_without_a_stream_does_nothing() {
    let mut plugin = Plugin::new();
    let stream = b"data: {\"type\":\"session.idle\"}\n\n";
    assert_eq!(sidecar_poll(&mut plugin, &chunk(stream), stream.len() as i32), vec![]);
    assert_eq!(sidecar_poll(&mut plugin, &chunk(b""), -1), vec![]);
    assert!(plugin.line_buf.is_empty());
}

#[test]
fn a_full_chunk_is_taken_whole() {
    let mut plugin = connected();
    let buf = [b'x'; 4096];
    assert_eq!(sidecar_poll(&mut plugin, &buf, 4096), vec![]);
    assert_eq!(plugin.line_buf.len(), 4096);
}
