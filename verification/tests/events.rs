use opencode_plugin::document::parse;
use opencode_plugin::events::{file_read, map_sse_event_to_ai_events};
use opencode_plugin::host::{AIEvent, HostCall};
use opencode_plugin::json::Json;

fn calls_of(json: &str) -> Vec<HostCall> {
    map_sse_event_to_ai_events(&parse(json).unwrap())
}

fn pushed(event: AIEvent) -> HostCall {
    HostCall::PushEvent { session_id: "opencode".to_string(), event }
}

fn tool(name: &str) -> HostCall {
    pushed(AIEvent::ToolCall { name: name.to_string() })
}

fn part(fields: &str) -> Vec<HostCall> {
    calls_of(&format!(r#"{{"type":"message.part.updated","part":{{"type":"tool",{}}}}}"#, fields))
}

fn read_file(path: &str) -> HostCall {
    HostCall::ReadFile { path: path.to_string() }
}

#[test]
fn a_running_tool_is_named() {
    assert_eq!(part(r#""tool":"bash","state":{"status":"running"}"#), vec![tool("bash")]);
    assert_eq!(part(r#""state":{"status":"running"}"#), vec![tool("tool")]);
    assert_eq!(part(r#""tool":3,"state":{"status":"running"}"#), vec![tool("tool")]);
}

#[test]
fn a_finished_write_is_reported_and_read() {
    let calls = part(r#""tool":"write","state":{"status":"completed","input":{"path":"a.rs"}}"#);
    assert_eq!(calls, vec![tool("WRITE a.rs"), read_file("a.rs")]);
    let calls = part(r#""tool":"edit","state":{"status":"completed","input":{"file_path":"b.rs"}}"#);
    assert_eq!(calls, vec![tool("WRITE b.rs"), read_file("b.rs")]);
}

#[test]
fn a_write_prefers_path() {
    let input = r#""input":{"file_path":"b","path":"a"}"#;
    let calls = part(&format!(r#""tool":"write","state":{{"status":"completed",{}}}"#, input));
    assert_eq!(calls, vec![tool("WRITE a"), read_file("a")]);
}

#[test]
fn a_path_that_is_no_string_is_unknown() {
    let input = r#""input":{"file_path":"b","path":1}"#;
    let calls = part(&format!(r#""tool":"write","state":{{"status":"completed",{}}}"#, input));
    assert_eq!(calls, vec![tool("WRITE unknown"), read_file("unknown")]);
    let calls = part(r#""tool":"edit","state":{"status":"completed"}"#);
    assert_eq!(calls, vec![tool("WRITE unknown"), read_file("unknown")]);
}

#[test]
fn a_read_prefers_file_path() {
    let input = r#""input":{"file_path":"b","path":"a"}"#;
    let calls = part(&format!(r#""tool":"read","state":{{"status":"completed",{}}}"#, input));
    assert_eq!(calls, vec![tool("READ b")]);
    let calls = part(r#""tool":"read","state":{"status":"completed","input":{"path":"a"}}"#);
    assert_eq!(calls, vec![tool("READ a")]);
    let calls = part(r#""tool":"read","state":{"status":"completed","input":[]}"#);
    assert_eq!(calls, vec![tool("READ unknown")]);
}

#[test]
fn a_search_shows_its_title_or_its_subject() {
    let state = r#"{"status":"completed","title":"t","input":{"command":"c"}}"#;
    assert_eq!(part(&format!(r#""tool":"bash","state":{}"#, state)), vec![tool("bash t")]);
    let state = r#"{"status":"completed","input":{"query":"q","pattern":"p","command":"c"}}"#;
    assert_eq!(part(&format!(r#""tool":"bash","state":{}"#, state)), vec![tool("bash c")]);
    let state = r#"{"status":"completed","input":{"query":"q","pattern":"p"}}"#;
    assert_eq!(part(&format!(r#""tool":"glob","state":{}"#, state)), vec![tool("glob p")]);
    let state = r#"{"status":"completed","title":5,"input":{"query":"q"}}"#;
    assert_eq!(part(&format!(r#""tool":"grep","state":{}"#, state)), vec![tool("grep q")]);
    let state = r#"{"status":"completed"}"#;
    assert_eq!(part(&format!(r#""tool":"grep","state":{}"#, state)), vec![tool("grep ")]);
    let state = r#"{"status":"completed","input":{"command":1,"query":"q"}}"#;
    assert_eq!(part(&format!(r#""tool":"bash","state":{}"#, state)), vec![tool("bash ")]);
}

#[test]
fn any_other_tool_shows_its_title_or_its_name() {
    assert_eq!(part(r#""tool":"todo","state":{"status":"completed","title":"t"}"#), vec![tool("t")]);
    assert_eq!(part(r#""tool":"todo","state":{"status":"completed"}"#), vec![tool("todo")]);
}

#[test]
fn other_parts_are_dropped() {
    assert_eq!(part(r#""tool":"bash","state":{"status":"pending"}"#), vec![]);
    assert_eq!(part(r#""tool":"bash""#), vec![]);
    assert_eq!(calls_of(r#"{"type":"message.part.updated"}"#), vec![]);
    assert_eq!(calls_of(r#"{"type":"message.part.updated","part":{"type":"text"}}"#), vec![]);
    assert_eq!(calls_of(r#"{"type":"message.part.updated","part":"tool"}"#), vec![]);
}

#[test]
fn sessions_are_reported() {
    assert_eq!(
        calls_of(r#"{"type":"session.idle"}"#),
        vec![pushed(AIEvent::TurnCompleted { session_id: "opencode".to_string() })]
    );
    assert_eq!(
        calls_of(r#"{"type":"session.error","error":"boom"}"#),
        vec![pushed(AIEvent::Error { message: "boom".to_string() })]
    );
    assert_eq!(
        calls_of(r#"{"type":"session.error","error":{"name":"x"}}"#),
        vec![pushed(AIEvent::Error { message: "opencode session error".to_string() })]
    );
}

#[test]
fn other_events_are_dropped() {
    assert_eq!(calls_of(r#"{"type":"message.part.delta","delta":"x"}"#), vec![]);
    assert_eq!(calls_of(r#"{"type":"session.created"}"#), vec![]);
    assert_eq!(calls_of(r#"{"type":1}"#), vec![]);
    assert_eq!(calls_of(r#"{}"#), vec![]);
    assert_eq!(calls_of(r#"["type"]"#), vec![]);
    assert_eq!(map_sse_event_to_ai_events(&Json::Null), vec![]);
}

#[test]
fn a_file_that_was_read_is_pushed() {
    assert_eq!(
        file_read("a.rs", Ok("fn main() {}".to_string())),
        pushed(AIEvent::CrdtWrite {
            session_id: "opencode".to_string(),
            path: "a.rs".to_string(),
            content: "fn main() {}".to_string(),
        })
    );
}

#[test]
fn a_file_that_was_not_read_is_logged() {
    assert_eq!(
        file_read("a.rs", Err("NotFound".to_string())),
        HostCall::Log {
            line: "[opencode-plugin] CrdtWrite: failed to read a.rs: NotFound".to_string()
        }
    );
}
