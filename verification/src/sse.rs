//! Server-sent events: cutting a byte stream into events and reading one event.
use vstd::prelude::*;

use crate::document::{json_parse, parse};
use crate::events::{event_calls, map_sse_event_to_ai_events};
use crate::host::{call_views, HostCall, HostCallView};
use crate::text::{chars_of, decode, decoded, first_line, joined, lemma_index_of_char, lines};

verus! {

/// Two newlines stand at `i`.
pub open spec fn blank_at(buf: Seq<u8>, i: int) -> bool {
    0 <= i && i + 1 < buf.len() && buf[i] == 10 && buf[i + 1] == 10
}

/// Two newlines stand at `i` and nowhere before.
pub open spec fn is_first_blank(buf: Seq<u8>, i: int) -> bool {
    blank_at(buf, i) && forall|j: int| j < i ==> !#[trigger] blank_at(buf, j)
}

/// Where the first two newlines stand.
pub open spec fn first_blank(buf: Seq<u8>) -> Option<int> {
    if exists|i: int| is_first_blank(buf, i) {
        Some(choose|i: int| is_first_blank(buf, i))
    } else {
        None
    }
}

/// The complete events at the front of a stream, each with the two newlines that end it.
pub open spec fn frames(buf: Seq<u8>) -> Seq<Seq<u8>>
    decreases buf.len(),
{
    match first_blank(buf) {
        Some(i) => seq![buf.take(i + 2)] + frames(buf.skip(i + 2)),
        None => seq![],
    }
}

/// What follows the complete events of a stream.
pub open spec fn remainder(buf: Seq<u8>) -> Seq<u8>
    decreases buf.len(),
{
    match first_blank(buf) {
        Some(i) => remainder(buf.skip(i + 2)),
        None => buf,
    }
}

/// There is one first place at most.
pub proof fn lemma_first_blank(buf: Seq<u8>, i: int)
    requires
        is_first_blank(buf, i),
    ensures
        first_blank(buf) == Some(i),
{
    let k = choose|k: int| is_first_blank(buf, k);
    assert(is_first_blank(buf, k));
    assert(blank_at(buf, i) && blank_at(buf, k));
}

/// Where two newlines stand somewhere, they stand somewhere first.
pub proof fn lemma_some_blank(buf: Seq<u8>, i: int)
    requires
        blank_at(buf, i),
    ensures
        first_blank(buf) is Some,
        0 <= first_blank(buf)->0 <= i,
    decreases i,
{
    if exists|j: int| j < i && blank_at(buf, j) {
        let j = choose|j: int| j < i && blank_at(buf, j);
        lemma_some_blank(buf, j);
    } else {
        assert(is_first_blank(buf, i));
        lemma_first_blank(buf, i);
    }
}

/// Finds the first two newlines in a row, which end an event. Returns the place of the second.
pub fn find_double_newline(buf: &[u8]) -> (end: Option<usize>)
    ensures
        match end {
            Some(second) => first_blank(buf@) == Some(second - 1),
            None => first_blank(buf@) is None,
        },
{
    let mut i: usize = 0;
    while i < buf.len()
        invariant
            i <= buf@.len(),
            forall|j: int| j < i ==> !#[trigger] blank_at(buf@, j),
        decreases buf@.len() - i,
    {
        if i + 1 < buf.len() && buf[i] == 10 && buf[i + 1] == 10 {
            proof {
                lemma_first_blank(buf@, i as int);
            }
            return Some(i + 1);
        }
        i += 1;
    }
    None
}

/// Takes the complete events out of the front of `buf`.
pub fn take_events(buf: &mut Vec<u8>) -> (events: Vec<Vec<u8>>)
    ensures
        events@.map_values(|event: Vec<u8>| event@) == frames(old(buf)@),
        final(buf)@ == remainder(old(buf)@),
{
    let mut events: Vec<Vec<u8>> = Vec::new();
    let ghost whole = buf@;
    loop
        invariant
            frames(whole) == events@.map_values(|event: Vec<u8>| event@) + frames(buf@),
            remainder(whole) == remainder(buf@),
        ensures
            frames(whole) == events@.map_values(|event: Vec<u8>| event@),
            remainder(whole) == buf@,
        decreases buf@.len(),
    {
        match find_double_newline(buf.as_slice()) {
            None => {
                break;
            },
            Some(second) => {
                let ghost before = buf@;
                proof {
                    assert(is_first_blank(before, second - 1));
                    assert(second < buf.len());
                }
                let ghost taken = events@.map_values(|event: Vec<u8>| event@);
                let mut event: Vec<u8> = buf.split_off(second + 1);
                std::mem::swap(buf, &mut event);
                proof {
                    assert(event@ == before.take(second + 1));
                    assert(buf@ == before.skip(second + 1));
                }
                events.push(event);
                proof {
                    assert(events@.map_values(|event: Vec<u8>| event@) == taken.push(event@));
                }
            },
        }
    }
    events
}

/// What begins a line that carries data.
pub open spec fn data_mark() -> Seq<char> {
    "data: "@
}

/// The data of those lines that carry some.
pub open spec fn data_of(lines: Seq<Seq<char>>) -> Seq<Seq<char>>
    decreases lines.len(),
{
    if lines.len() == 0 {
        seq![]
    } else {
        let rest = data_of(lines.drop_first());
        if data_mark().is_prefix_of(lines[0]) {
            seq![lines[0].skip(data_mark().len() as int)] + rest
        } else {
            rest
        }
    }
}

/// The data that the text of an event carries; `None` where no line carries any.
pub open spec fn event_data_of(text: Seq<char>) -> Option<Seq<char>> {
    let parts = data_of(lines(text));
    if parts.len() == 0 {
        None
    } else {
        Some(joined(parts))
    }
}

/// Whether the characters from `from` to `stop` begin as a line that carries data.
fn is_data_line(chars: &Vec<char>, from: usize, stop: usize) -> (is_data: bool)
    requires
        from <= stop <= chars@.len(),
    ensures
        is_data == data_mark().is_prefix_of(chars@.subrange(from as int, stop as int)),
{
    proof {
        reveal_strlit("data: ");
    }
    let ghost line = chars@.subrange(from as int, stop as int);
    if stop - from < 6 {
        return false;
    }
    let is_data = chars[from] == 'd' && chars[from + 1] == 'a' && chars[from + 2] == 't'
        && chars[from + 3] == 'a' && chars[from + 4] == ':' && chars[from + 5] == ' ';
    proof {
        let front = line.subrange(0, 6);
        if is_data {
            assert(data_mark() =~= front);
        } else {
            assert(line[0] == chars@[from as int] && line[1] == chars@[from + 1]);
            assert(line[2] == chars@[from + 2] && line[3] == chars@[from + 3]);
            assert(line[4] == chars@[from + 4] && line[5] == chars@[from + 5]);
            assert(front[0] == line[0] && front[1] == line[1] && front[2] == line[2]);
            assert(front[3] == line[3] && front[4] == line[4] && front[5] == line[5]);
        }
    }
    is_data
}

/// The data that the text of an event carries, its lines joined without anything between them.
pub fn event_data(text: &str) -> (data: Option<String>)
    ensures
        match data {
            Some(joint) => event_data_of(text@) == Some(joint@),
            None => event_data_of(text@) is None,
        },
{
    let chars = chars_of(text);
    let n: usize = chars.len();
    let mut data: String = String::new();
    let mut found: bool = false;
    let mut from: usize = 0;
    let ghost mut parts: Seq<Seq<char>> = seq![];
    proof {
        assert(text@.skip(0) == text@);
        assert(parts + data_of(lines(text@)) == data_of(lines(text@)));
    }
    while from < n
        invariant
            from <= n,
            chars@ == text@,
            n == text@.len(),
            found == (parts.len() > 0),
            data@ == joined(parts),
            data_of(lines(text@)) == parts + data_of(lines(text@.skip(from as int))),
        decreases n - from,
    {
        let ghost s = text@.skip(from as int);
        let mut end: usize = from;
        while end < n && chars[end] != '\n'
            invariant
                from <= end <= n,
                chars@ == text@,
                n == text@.len(),
                s == text@.skip(from as int),
                forall|i: int| 0 <= i < end - from ==> s[i] != '\n',
            decreases n - end,
        {
            proof {
                assert(s[end - from] == text@[end as int]);
            }
            end += 1;
        }
        let stop: usize = if from < end && end < n && chars[end - 1] == '\r' {
            end - 1
        } else {
            end
        };
        let ghost line = text@.subrange(from as int, stop as int);
        let ghost rest = text@.skip(if end < n { end + 1 } else { n as int });
        proof {
            lemma_index_of_char(s, '\n', end - from);
            assert(line =~= first_line(s, end - from)) by {
                if 0 < end - from < s.len() {
                    assert(s[end - from - 1] == text@[end - 1]);
                }
            }
            if end < n {
                assert(s.skip(end - from + 1) =~= rest);
            } else {
                assert(rest =~= Seq::<char>::empty());
                assert(lines(s) =~= seq![line] + lines(rest));
            }
            assert(lines(s) == seq![line] + lines(rest));
            assert(lines(s).drop_first() =~= lines(rest));
        }
        if is_data_line(&chars, from, stop) {
            proof {
                reveal_strlit("data: ");
            }
            data.append(text.substring_char(from + 6, stop));
            found = true;
            proof {
                let part = line.skip(6);
                assert(part =~= text@.subrange(from + 6, stop as int));
                assert(parts.push(part).drop_last() =~= parts);
                assert(parts + data_of(lines(s)) =~= parts.push(part) + data_of(lines(rest)));
                parts = parts.push(part);
            }
        }
        from = if end < n {
            end + 1
        } else {
            n
        };
    }
    proof {
        assert(text@.skip(n as int) =~= Seq::<char>::empty());
        assert(parts + data_of(lines(text@.skip(n as int))) =~= parts);
    }
    if found {
        Some(data)
    } else {
        None
    }
}

/// What the bytes of one event lead to.
pub open spec fn raw_event_calls(raw: Seq<u8>) -> Seq<HostCallView> {
    match event_data_of(decoded(raw)) {
        Some(data) => match json_parse(data) {
            Some(event) => event_calls(event),
            None => seq![],
        },
        None => seq![],
    }
}

/// Reads the bytes of one event, which may hold several lines of data, and says what the event
/// leads to. An event without data, or whose data is not JSON, leads to nothing.
pub fn process_sse_event(raw: &[u8]) -> (calls: Vec<HostCall>)
    ensures
        call_views(calls@) == raw_event_calls(raw@),
{
    let text = decode(raw);
    if let Some(data) = event_data(text.as_str()) {
        if let Some(event) = parse(data.as_str()) {
            return map_sse_event_to_ai_events(&event);
        }
    }
    let calls: Vec<HostCall> = Vec::new();
    proof {
        assert(call_views(calls@) =~= seq![]);
    }
    calls
}

} // verus!
