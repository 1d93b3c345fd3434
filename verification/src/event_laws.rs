//! What each event of the server leads to, by what it says.
use vstd::prelude::*;

use crate::action_laws::{lemma_calls, logs};
use crate::events::{file_read, map_sse_event_to_ai_events};
use crate::host::{push_ai_event, AIEvent, HostCall};
use crate::json::{Json, JsonTree};

verus! {

/// `tree` has a string `text` under `key`.
pub open spec fn has_text(tree: JsonTree, key: Seq<char>, text: Seq<char>) -> bool {
    tree.get(key) == Some(JsonTree::Text(text))
}

/// `tree` has no string under `key`.
pub open spec fn has_no_text(tree: JsonTree, key: Seq<char>) -> bool {
    !(tree.get(key) is Some && tree.get(key)->0 is Text)
}

/// `text` is the string that `tree` has under `key`, or `default` where it has none.
pub open spec fn named(
    tree: JsonTree,
    key: Seq<char>,
    default: Seq<char>,
    text: Seq<char>,
) -> bool {
    if has_no_text(tree, key) {
        text == default
    } else {
        has_text(tree, key, text)
    }
}

/// A call that pushes a tool call for the server's session.
pub open spec fn names_tool(call: HostCall, name: Seq<char>) -> bool {
    &&& call matches HostCall::PushEvent { session_id, event }
    &&& session_id@ == "opencode"@
    &&& event matches AIEvent::ToolCall { name: called }
    &&& called@ == name
}

/// A call that pushes an error for the server's session.
pub open spec fn pushes_error(call: HostCall, text: Seq<char>) -> bool {
    &&& call matches HostCall::PushEvent { session_id, event }
    &&& session_id@ == "opencode"@
    &&& event matches AIEvent::Error { message }
    &&& message@ == text
}

/// A call that reads a file.
pub open spec fn reads_file(call: HostCall, file: Seq<char>) -> bool {
    call matches HostCall::ReadFile { path } && path@ == file
}

/// An event that tells of a tool, by a part of a message in which the tool has the given status.
pub open spec fn tells_of_tool(
    event: JsonTree,
    part: JsonTree,
    state: JsonTree,
    status: Seq<char>,
) -> bool {
    &&& has_text(event, "type"@, "message.part.updated"@)
    &&& event.get("part"@) == Some(part)
    &&& has_text(part, "type"@, "tool"@)
    &&& part.get("state"@) == Some(state)
    &&& has_text(state, "status"@, status)
}

/// What a finished tool was given; null where the event does not tell.
pub open spec fn tool_input(state: JsonTree, input: JsonTree) -> bool {
    match state.get("input"@) {
        Some(told) => input == told,
        None => input == JsonTree::Null,
    }
}

/// The strings of which the events are made up differ.
proof fn lemma_words_differ()
    ensures
        "running"@ != "completed"@,
        "write"@ != "read"@,
        "edit"@ != "read"@,
        "write"@ != "bash"@,
        "write"@ != "glob"@,
        "write"@ != "grep"@,
        "edit"@ != "bash"@,
        "edit"@ != "glob"@,
        "edit"@ != "grep"@,
        "read"@ != "bash"@,
        "read"@ != "glob"@,
        "read"@ != "grep"@,
        "message.part.updated"@ != "session.idle"@,
        "message.part.updated"@ != "session.error"@,
        "session.idle"@ != "session.error"@,
{
    reveal_strlit("running");
    reveal_strlit("completed");
    reveal_strlit("write");
    reveal_strlit("edit");
    reveal_strlit("read");
    reveal_strlit("bash");
    reveal_strlit("glob");
    reveal_strlit("grep");
    reveal_strlit("message.part.updated");
    reveal_strlit("session.idle");
    reveal_strlit("session.error");
    assert("running"@.len() == 7 && "completed"@.len() == 9);
    assert("write"@.len() == 5);
    assert("edit"@[0] != "read"@[0]);
    assert("edit"@[0] != "bash"@[0]);
    assert("edit"@[0] != "glob"@[0]);
    assert("edit"@[0] != "grep"@[0]);
    assert("read"@[0] != "bash"@[0]);
    assert("read"@[0] != "glob"@[0]);
    assert("read"@[0] != "grep"@[0]);
    assert("message.part.updated"@.len() == 20);
    assert("session.idle"@.len() == 12 && "session.error"@.len() == 13);
}

/// A tool that runs is named, and nothing else comes of it.
pub proof fn law_running_tool_is_named(
    event: &Json,
    part: JsonTree,
    state: JsonTree,
    tool: Seq<char>,
    calls: Vec<HostCall>,
)
    requires
        call_ensures(map_sse_event_to_ai_events, (event,), calls),
        tells_of_tool(event@, part, state, "running"@),
        named(part, "tool"@, "tool"@, tool),
    ensures
        calls@.len() == 1,
        names_tool(calls@[0], tool),
{
    lemma_words_differ();
    lemma_calls(calls@);
}

/// A finished `write` or `edit` is reported with the file that it wrote, and that file is read.
/// The file is the `path` in the tool's input; where there is none, the `file_path`; and where
/// what there is is no string, it is unknown.
pub proof fn law_finished_write_is_reported_and_read(
    event: &Json,
    part: JsonTree,
    state: JsonTree,
    input: JsonTree,
    file: Seq<char>,
    calls: Vec<HostCall>,
)
    requires
        call_ensures(map_sse_event_to_ai_events, (event,), calls),
        tells_of_tool(event@, part, state, "completed"@),
        has_text(part, "tool"@, "write"@) || has_text(part, "tool"@, "edit"@),
        tool_input(state, input),
        if input.get("path"@) is Some {
            named(input, "path"@, "unknown"@, file)
        } else {
            named(input, "file_path"@, "unknown"@, file)
        },
    ensures
        calls@.len() == 2,
        names_tool(calls@[0], "WRITE "@ + file),
        reads_file(calls@[1], file),
{
    lemma_words_differ();
    lemma_calls(calls@);
}

/// A finished `read` is reported with the file that it read, which is looked for the other way
/// round; no file is read.
pub proof fn law_finished_read_is_reported(
    event: &Json,
    part: JsonTree,
    state: JsonTree,
    input: JsonTree,
    file: Seq<char>,
    calls: Vec<HostCall>,
)
    requires
        call_ensures(map_sse_event_to_ai_events, (event,), calls),
        tells_of_tool(event@, part, state, "completed"@),
        has_text(part, "tool"@, "read"@),
        tool_input(state, input),
        if input.get("file_path"@) is Some {
            named(input, "file_path"@, "unknown"@, file)
        } else {
            named(input, "path"@, "unknown"@, file)
        },
    ensures
        calls@.len() == 1,
        names_tool(calls@[0], "READ "@ + file),
{
    lemma_words_differ();
    lemma_calls(calls@);
}

/// A finished `bash`, `glob` or `grep` is reported by its name and its title; without a title,
/// by what it was given: the command, without one the pattern, without one the query.
pub proof fn law_finished_search_is_reported(
    event: &Json,
    part: JsonTree,
    state: JsonTree,
    input: JsonTree,
    tool: Seq<char>,
    subject: Seq<char>,
    calls: Vec<HostCall>,
)
    requires
        call_ensures(map_sse_event_to_ai_events, (event,), calls),
        tells_of_tool(event@, part, state, "completed"@),
        has_text(part, "tool"@, tool),
        tool == "bash"@ || tool == "glob"@ || tool == "grep"@,
        tool_input(state, input),
        if !has_no_text(state, "title"@) {
            has_text(state, "title"@, subject)
        } else if input.get("command"@) is Some {
            named(input, "command"@, ""@, subject)
        } else if input.get("pattern"@) is Some {
            named(input, "pattern"@, ""@, subject)
        } else {
            named(input, "query"@, ""@, subject)
        },
    ensures
        calls@.len() == 1,
        names_tool(calls@[0], tool + " "@ + subject),
{
    lemma_words_differ();
    lemma_calls(calls@);
}

/// Any other finished tool is reported by its title, and without one by its name.
pub proof fn law_other_finished_tool_is_reported(
    event: &Json,
    part: JsonTree,
    state: JsonTree,
    tool: Seq<char>,
    title: Seq<char>,
    calls: Vec<HostCall>,
)
    requires
        call_ensures(map_sse_event_to_ai_events, (event,), calls),
        tells_of_tool(event@, part, state, "completed"@),
        named(part, "tool"@, "tool"@, tool),
        tool != "write"@ && tool != "edit"@ && tool != "read"@,
        tool != "bash"@ && tool != "glob"@ && tool != "grep"@,
        named(state, "title"@, tool, title),
    ensures
        calls@.len() == 1,
        names_tool(calls@[0], title),
{
    lemma_words_differ();
    lemma_calls(calls@);
}

/// A part of a message that is no tool, or a tool that neither runs nor has finished, leads to
/// nothing; so does an event without a part.
pub proof fn law_other_parts_lead_to_nothing(event: &Json, calls: Vec<HostCall>)
    requires
        call_ensures(map_sse_event_to_ai_events, (event,), calls),
        has_text(event@, "type"@, "message.part.updated"@),
        forall|part: JsonTree, state: JsonTree|
            !(#[trigger] tells_of_tool(event@, part, state, "running"@)),
        forall|part: JsonTree, state: JsonTree|
            !(#[trigger] tells_of_tool(event@, part, state, "completed"@)),
    ensures
        calls@.len() == 0,
{
    lemma_words_differ();
    lemma_calls(calls@);
    reveal_strlit("");
    reveal_strlit("tool");
    assert(""@.len() != "tool"@.len());
    assert(""@.len() != "running"@.len()) by {
        reveal_strlit("running");
    }
    assert(""@.len() != "completed"@.len()) by {
        reveal_strlit("completed");
    }
    if let Some(part) = event@.get("part"@) {
        if let Some(state) = part.get("state"@) {
            assert(!tells_of_tool(event@, part, state, "running"@));
            assert(!tells_of_tool(event@, part, state, "completed"@));
        }
    }
}

/// A session that waits again completes its turn.
pub proof fn law_idle_session_is_reported(event: &Json, calls: Vec<HostCall>)
    requires
        call_ensures(map_sse_event_to_ai_events, (event,), calls),
        has_text(event@, "type"@, "session.idle"@),
    ensures
        calls@.len() == 1,
        ({
            &&& calls@[0] matches HostCall::PushEvent { session_id, event: pushed }
            &&& session_id@ == "opencode"@
            &&& pushed matches AIEvent::TurnCompleted { session_id: of }
            &&& of@ == "opencode"@
        }),
{
    lemma_words_differ();
    lemma_calls(calls@);
}

/// A failed session is reported with what the server says of it.
pub proof fn law_failed_session_is_reported(event: &Json, text: Seq<char>, calls: Vec<HostCall>)
    requires
        call_ensures(map_sse_event_to_ai_events, (event,), calls),
        has_text(event@, "type"@, "session.error"@),
        named(event@, "error"@, "opencode session error"@, text),
    ensures
        calls@.len() == 1,
        pushes_error(calls@[0], text),
{
    lemma_words_differ();
    lemma_calls(calls@);
}

/// An event of any other type, or of none, leads to nothing.
pub proof fn law_other_events_lead_to_nothing(event: &Json, calls: Vec<HostCall>)
    requires
        call_ensures(map_sse_event_to_ai_events, (event,), calls),
        !has_text(event@, "type"@, "message.part.updated"@),
        !has_text(event@, "type"@, "session.idle"@),
        !has_text(event@, "type"@, "session.error"@),
    ensures
        calls@.len() == 0,
{
    lemma_calls(calls@);
}

/// A file that was read is pushed with its path and its content, and a file that was not is
/// logged with the reason.
pub proof fn law_read_file_is_pushed(path: &str, content: Result<String, String>, call: HostCall)
    requires
        call_ensures(file_read, (path, content), call),
    ensures
        content matches Ok(text) ==> {
            &&& call matches HostCall::PushEvent { session_id, event }
            &&& session_id@ == "opencode"@
            &&& event matches AIEvent::CrdtWrite { session_id: of, path: at, content: holds }
            &&& of@ == "opencode"@
            &&& at@ == path@
            &&& holds@ == text@
        },
        content matches Err(why) ==> logs(
            call,
            "CrdtWrite: failed to read "@ + path@ + ": "@ + why@,
        ),
{
}

/// An event is pushed for the session that it is given for, as it is.
pub proof fn law_event_is_pushed_as_it_is(session: &str, event: AIEvent, call: HostCall)
    requires
        call_ensures(push_ai_event, (session, event), call),
    ensures
        call matches HostCall::PushEvent { session_id, event: pushed } && session_id@ == session@
            && pushed@ == event@,
{
}

} // verus!
