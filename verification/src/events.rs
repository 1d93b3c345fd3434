//! From the server's events to what the host is asked to do.
use vstd::prelude::*;

use crate::host::{
    call_views, log, logged, push_ai_event, AIEvent, AIEventView, HostCall, HostCallView,
};
use crate::json::{Json, JsonTree};
use crate::text::{concat, same_text};

verus! {

/// The session that the server's events belong to.
pub const SESSION: &'static str = "opencode";

/// `first`, or `second` where there is no `first`.
pub open spec fn first_of(first: Option<JsonTree>, second: Option<JsonTree>) -> Option<JsonTree> {
    if first is Some {
        first
    } else {
        second
    }
}

/// The string at `node`, or `default` where `node` is absent or no string.
pub open spec fn text_or(node: Option<JsonTree>, default: Seq<char>) -> Seq<char> {
    match node {
        Some(tree) => match tree.text() {
            Some(text) => text,
            None => default,
        },
        None => default,
    }
}

/// `node`, or null where `node` is absent.
pub open spec fn or_null(node: Option<JsonTree>) -> JsonTree {
    match node {
        Some(tree) => tree,
        None => JsonTree::Null,
    }
}

/// A push of `event` for the server's session.
pub open spec fn pushed(event: AIEventView) -> HostCallView {
    HostCallView::PushEvent { session_id: "opencode"@, event }
}

/// A push that names a tool call.
pub open spec fn tool_call(name: Seq<char>) -> HostCallView {
    pushed(AIEventView::ToolCall { name })
}

/// What a finished tool leads to, by the tool's name, with the state that the event reports.
pub open spec fn completed_calls(tool: Seq<char>, state: JsonTree) -> Seq<HostCallView> {
    let input = or_null(state.get("input"@));
    if tool == "write"@ || tool == "edit"@ {
        let path = text_or(first_of(input.get("path"@), input.get("file_path"@)), "unknown"@);
        seq![tool_call("WRITE "@ + path), HostCallView::ReadFile { path }]
    } else if tool == "read"@ {
        let path = text_or(first_of(input.get("file_path"@), input.get("path"@)), "unknown"@);
        seq![tool_call("READ "@ + path)]
    } else if tool == "bash"@ || tool == "glob"@ || tool == "grep"@ {
        let subject = text_or(
            first_of(
                first_of(input.get("command"@), input.get("pattern"@)),
                input.get("query"@),
            ),
            ""@,
        );
        seq![tool_call(tool + " "@ + text_or(state.get("title"@), subject))]
    } else {
        seq![tool_call(text_or(state.get("title"@), tool))]
    }
}

/// What an updated part of a message leads to. Only tools that run or have finished count.
pub open spec fn part_calls(part: JsonTree) -> Seq<HostCallView> {
    let state = or_null(part.get("state"@));
    let status = text_or(state.get("status"@), ""@);
    let tool = text_or(part.get("tool"@), "tool"@);
    if text_or(part.get("type"@), ""@) != "tool"@ {
        seq![]
    } else if status == "running"@ {
        seq![tool_call(tool)]
    } else if status == "completed"@ {
        completed_calls(tool, state)
    } else {
        seq![]
    }
}

/// What an event of the server leads to.
pub open spec fn event_calls(event: JsonTree) -> Seq<HostCallView> {
    match event.get("type"@) {
        Some(JsonTree::Text(kind)) => if kind == "message.part.updated"@ {
            match event.get("part"@) {
                Some(part) => part_calls(part),
                None => seq![],
            }
        } else if kind == "session.idle"@ {
            seq![pushed(AIEventView::TurnCompleted { session_id: "opencode"@ })]
        } else if kind == "session.error"@ {
            seq![
                pushed(
                    AIEventView::Error {
                        message: text_or(event.get("error"@), "opencode session error"@),
                    },
                ),
            ]
        } else {
            seq![]
        },
        _ => seq![],
    }
}

/// The string at `node`, or `default` where `node` is absent or no string.
fn str_or<'a>(node: Option<&'a Json>, default: &'a str) -> (text: &'a str)
    ensures
        text@ == text_or(
            match node {
                Some(json) => Some(json@),
                None => None,
            },
            default@,
        ),
{
    match node {
        Some(json) => match json.as_str() {
            Some(text) => text,
            None => default,
        },
        None => default,
    }
}

/// The member `first`, or the member `second` where there is no `first`.
fn either<'a>(json: &'a Json, first: &str, second: &str) -> (node: Option<&'a Json>)
    ensures
        match node {
            Some(found) => first_of(json@.get(first@), json@.get(second@)) == Some(found@),
            None => first_of(json@.get(first@), json@.get(second@)) is None,
        },
{
    match json.get(first) {
        Some(found) => Some(found),
        None => json.get(second),
    }
}

/// A push of a tool call for the server's session.
fn push_tool_call(name: String) -> (call: HostCall)
    ensures
        call@ == tool_call(name@),
{
    push_ai_event(SESSION, AIEvent::ToolCall { name })
}

/// What a finished tool leads to.
fn completed(tool: &str, state: &Json) -> (calls: Vec<HostCall>)
    ensures
        call_views(calls@) == completed_calls(tool@, state@),
{
    let null: Json = Json::Null;
    let input: &Json = match state.get("input") {
        Some(found) => found,
        None => &null,
    };
    let mut calls: Vec<HostCall> = Vec::new();
    if same_text(tool, "write") || same_text(tool, "edit") {
        let path = str_or(either(input, "path", "file_path"), "unknown");
        calls.push(push_tool_call(concat("WRITE ", path)));
        calls.push(HostCall::ReadFile { path: path.to_owned() });
    } else if same_text(tool, "read") {
        let path = str_or(either(input, "file_path", "path"), "unknown");
        calls.push(push_tool_call(concat("READ ", path)));
    } else if same_text(tool, "bash") || same_text(tool, "glob") || same_text(tool, "grep") {
        let subject = match either(input, "command", "pattern") {
            Some(found) => str_or(Some(found), ""),
            None => str_or(input.get("query"), ""),
        };
        let title = str_or(state.get("title"), subject);
        calls.push(push_tool_call(concat(concat(tool, " ").as_str(), title)));
    } else {
        let title = str_or(state.get("title"), tool);
        calls.push(push_tool_call(title.to_owned()));
    }
    proof {
        assert(call_views(calls@) =~= completed_calls(tool@, state@));
    }
    calls
}

/// What an updated part of a message leads to.
fn part_updated(part: &Json) -> (calls: Vec<HostCall>)
    ensures
        call_views(calls@) == part_calls(part@),
{
    let null: Json = Json::Null;
    let state: &Json = match part.get("state") {
        Some(found) => found,
        None => &null,
    };
    let mut calls: Vec<HostCall> = Vec::new();
    if same_text(str_or(part.get("type"), ""), "tool") {
        let status = str_or(state.get("status"), "");
        let tool = str_or(part.get("tool"), "tool");
        if same_text(status, "running") {
            calls.push(push_tool_call(tool.to_owned()));
        } else if same_text(status, "completed") {
            return completed(tool, state);
        }
    }
    proof {
        assert(call_views(calls@) =~= part_calls(part@));
    }
    calls
}

/// What an event of the server leads to: calls for tools, finished turns and errors, and none
/// for any other event.
pub fn map_sse_event_to_ai_events(v: &Json) -> (calls: Vec<HostCall>)
    ensures
        call_views(calls@) == event_calls(v@),
{
    let mut calls: Vec<HostCall> = Vec::new();
    let kind = match v.get("type") {
        Some(json) => match json.as_str() {
            Some(text) => text,
            None => {
                proof {
                    assert(call_views(calls@) =~= event_calls(v@));
                }
                return calls;
            },
        },
        None => {
            proof {
                assert(call_views(calls@) =~= event_calls(v@));
            }
            return calls;
        },
    };
    if same_text(kind, "message.part.updated") {
        if let Some(part) = v.get("part") {
            return part_updated(part);
        }
    } else if same_text(kind, "session.idle") {
        calls.push(
            push_ai_event(SESSION, AIEvent::TurnCompleted { session_id: SESSION.to_owned() }),
        );
    } else if same_text(kind, "session.error") {
        let message = str_or(v.get("error"), "opencode session error");
        calls.push(push_ai_event(SESSION, AIEvent::Error { message: message.to_owned() }));
    }
    proof {
        assert(call_views(calls@) =~= event_calls(v@));
    }
    calls
}

/// What the reading of a file that a tool has written leads to: its content is pushed, or the
/// reason why it could not be read is logged.
pub fn file_read(path: &str, content: Result<String, String>) -> (call: HostCall)
    ensures
        match content {
            Ok(text) => call@ == pushed(
                AIEventView::CrdtWrite {
                    session_id: "opencode"@,
                    path: path@,
                    content: text@,
                },
            ),
            Err(why) => call@ == logged(
                "CrdtWrite: failed to read "@ + path@ + ": "@ + why@,
            ),
        },
{
    match content {
        Ok(content) => {
            let event = AIEvent::CrdtWrite {
                session_id: SESSION.to_owned(),
                path: path.to_owned(),
                content,
            };
            push_ai_event(SESSION, event)
        },
        Err(why) => {
            let message = concat("CrdtWrite: failed to read ", path);
            let message = concat(message.as_str(), ": ");
            log(concat(message.as_str(), why.as_str()).as_str())
        },
    }
}

} // verus!
