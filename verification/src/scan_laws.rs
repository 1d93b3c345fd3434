//! What is read in the server's output and in its stream, by the bytes and characters in them.
use vstd::prelude::*;
use vstd::utf8::encode_utf8;

use crate::actions::{fed, sidecar_poll, stream_calls};
use crate::document::json_parse;
use crate::events::map_sse_event_to_ai_events;
use crate::host::{call_views, AIEvent, AIEventView, HostCall, HostCallView};
use crate::json::Json;
use crate::number::{is_digit, u16_of};
use crate::plugin::Plugin;
use crate::plugin_laws::lemma_stream_calls_add_up;
use crate::port::{
    after_last_colon, announcement, find, first_found_at, found_at, lemma_first_found,
    port_in_line, scan_port, trim_end, trim_start, up_to_last_digit,
    wait_for_port, white_space, PipeRead, PortStep, PortWait,
};
use crate::port_laws::{lemma_after_last_colon, lemma_announced_line};
use crate::sse::{
    blank_at, data_mark, data_of, event_data, find_double_newline, first_blank,
    frames, is_first_blank, lemma_first_blank, lemma_some_blank, process_sse_event,
    raw_event_calls, remainder, take_events,
};
use crate::stream_laws::{
    flattened, law_events_end_at_a_blank_line, law_no_byte_is_lost, law_remainder_is_incomplete,
    lemma_data_adds_up, lemma_lines_add_up, whole_lines,
};
use crate::text::{decoded, first_line, joined, lemma_index_of_char, lines};

verus! {

/// A needle is found where it stands first, and not where it does not stand.
pub proof fn law_find(buf: &[u8], needle: &[u8], pos: Option<usize>)
    requires
        call_ensures(find, (buf, needle), pos),
    ensures
        match pos {
            Some(i) => {
                &&& i + needle@.len() <= buf@.len()
                &&& buf@.subrange(i as int, i + needle@.len()) == needle@
                &&& forall|j: int|
                    0 <= j < i ==> #[trigger] buf@.subrange(j, j + needle@.len()) != needle@
            },
            None => forall|j: int|
                0 <= j <= buf@.len() - needle@.len() ==> #[trigger] buf@.subrange(
                    j,
                    j + needle@.len(),
                ) != needle@,
        },
{
    match pos {
        Some(i) => {
            assert(first_found_at(buf@, needle@, i as int));
            assert forall|j: int| 0 <= j < i implies #[trigger] buf@.subrange(j, j + needle@.len())
                != needle@ by {
                assert(!found_at(buf@, needle@, j));
            }
        },
        None => {
            assert forall|j: int|
                0 <= j <= buf@.len() - needle@.len() implies #[trigger] buf@.subrange(
                j,
                j + needle@.len(),
            ) != needle@ by {
                if found_at(buf@, needle@, j) {
                    lemma_found_somewhere(buf@, needle@, j);
                }
            }
        },
    }
}

/// What stands somewhere stands somewhere first.
proof fn lemma_found_somewhere(buf: Seq<u8>, needle: Seq<u8>, pos: int)
    requires
        found_at(buf, needle, pos),
    ensures
        exists|i: int| first_found_at(buf, needle, i),
    decreases pos,
{
    if exists|j: int| j < pos && found_at(buf, needle, j) {
        let j = choose|j: int| j < pos && found_at(buf, needle, j);
        lemma_found_somewhere(buf, needle, j);
    } else {
        assert(first_found_at(buf, needle, pos));
    }
}

/// The characters that count as white space, one by one.
pub open spec fn is_blank(c: char) -> bool {
    ||| c == ' '
    ||| c == '\t'
    ||| c == '\n'
    ||| c == '\u{b}'
    ||| c == '\u{c}'
    ||| c == '\r'
    ||| c == '\u{85}'
    ||| c == '\u{a0}'
    ||| c == '\u{1680}'
    ||| '\u{2000}' <= c <= '\u{200a}'
    ||| c == '\u{2028}'
    ||| c == '\u{2029}'
    ||| c == '\u{202f}'
    ||| c == '\u{205f}'
    ||| c == '\u{3000}'
}

/// None of the characters is a colon.
pub open spec fn no_colon(s: Seq<char>) -> bool {
    forall|i: int| 0 <= i < s.len() ==> s[i] != ':'
}

/// A text without colons stands behind the last one whole.
proof fn lemma_no_colon(s: Seq<char>)
    requires
        no_colon(s),
    ensures
        after_last_colon(s) == s,
    decreases s.len(),
{
    if s.len() > 0 {
        assert(s.last() == s[s.len() - 1]);
        lemma_no_colon(s.drop_last());
        assert(s.drop_last().push(s.last()) =~= s);
    }
}

/// What follows a text that is empty or ends in a colon.
proof fn lemma_behind_colon(head: Seq<char>, rest: Seq<char>)
    requires
        head.len() == 0 || head.last() == ':',
        no_colon(rest),
    ensures
        after_last_colon(head + rest) == rest,
{
    if head.len() == 0 {
        assert(head + rest =~= rest);
        lemma_no_colon(rest);
    } else {
        lemma_after_last_colon(head.drop_last(), rest);
        assert(head.drop_last() + seq![':'] + rest =~= head + rest);
    }
}

/// White space at the start is left out.
proof fn lemma_blanks_go(blanks: Seq<char>, core: Seq<char>)
    requires
        forall|i: int| 0 <= i < blanks.len() ==> is_blank(blanks[i]),
        core.len() > 0 ==> !is_blank(core[0]),
    ensures
        trim_start(blanks + core) == core,
    decreases blanks.len(),
{
    let s = blanks + core;
    if blanks.len() == 0 {
        assert(s =~= core);
    } else {
        assert(s.drop_first() =~= blanks.drop_first() + core);
        assert(white_space(s[0])) by {
            assert(is_blank(blanks[0]));
        }
        lemma_blanks_go(blanks.drop_first(), core);
    }
}

/// The port of a line is the number behind the last colon, or in a line without colons the
/// number at all: white space before the number and anything but digits behind it do not matter.
pub proof fn law_port_behind_the_last_colon(
    line: &str,
    head: Seq<char>,
    blanks: Seq<char>,
    core: Seq<char>,
    tail: Seq<char>,
    port: Option<u16>,
)
    requires
        call_ensures(port_in_line, (line,), port),
        line@ == head + (blanks + (core + tail)),
        head.len() == 0 || head.last() == ':',
        no_colon(blanks + (core + tail)),
        forall|i: int| 0 <= i < blanks.len() ==> is_blank(blanks[i]),
        core.len() > 0,
        !is_blank(core[0]),
        '0' <= core.last() <= '9',
        forall|i: int| 0 <= i < tail.len() ==> !('0' <= #[trigger] tail[i] <= '9'),
    ensures
        port == u16_of(core),
{
    let rest = blanks + (core + tail);
    lemma_behind_colon(head, rest);
    lemma_blanks_go(blanks, core + tail);
    lemma_cut_to_number(core, tail);
}

/// Cutting white space and then everything but digits off the end leaves what ends in a digit.
proof fn lemma_cut_to_number(core: Seq<char>, tail: Seq<char>)
    requires
        core.len() > 0,
        is_digit(core.last()),
        forall|i: int| 0 <= i < tail.len() ==> !is_digit(#[trigger] tail[i]),
    ensures
        up_to_last_digit(core + tail) == core,
        up_to_last_digit(trim_end(core + tail)) == core,
    decreases tail.len(),
{
    let s = core + tail;
    if tail.len() == 0 {
        assert(s =~= core);
    } else {
        let shorter = tail.drop_last();
        assert(s.drop_last() =~= core + shorter);
        assert(s.last() == tail[tail.len() - 1]);
        assert forall|i: int| 0 <= i < shorter.len() implies !is_digit(#[trigger] shorter[i]) by {
            assert(shorter[i] == tail[i]);
        }
        lemma_cut_to_number(core, shorter);
    }
}

/// A line without a digit behind its last colon has no port.
pub proof fn law_no_digit_no_port(
    line: &str,
    head: Seq<char>,
    rest: Seq<char>,
    port: Option<u16>,
)
    requires
        call_ensures(port_in_line, (line,), port),
        line@ == head + rest,
        head.len() == 0 || head.last() == ':',
        no_colon(rest),
        forall|i: int| 0 <= i < rest.len() ==> !('0' <= #[trigger] rest[i] <= '9'),
    ensures
        port is None,
{
    lemma_behind_colon(head, rest);
    lemma_trimmed_start(rest);
    lemma_trimmed_end(trim_start(rest));
    lemma_without_digits(trim_end(trim_start(rest)));
}

/// None of the characters is a digit.
spec fn no_digit(s: Seq<char>) -> bool {
    forall|i: int| 0 <= i < s.len() ==> !is_digit(#[trigger] s[i])
}

/// A text without digits has none without its first or its last character.
proof fn lemma_no_digit_in_part(s: Seq<char>)
    requires
        no_digit(s),
        s.len() > 0,
    ensures
        no_digit(s.drop_first()),
        no_digit(s.drop_last()),
        !is_digit(s.last()),
{
    assert forall|i: int| 0 <= i < s.len() - 1 implies !is_digit(#[trigger] s.drop_first()[i]) by {
        assert(s.drop_first()[i] == s[i + 1]);
    }
    assert forall|i: int| 0 <= i < s.len() - 1 implies !is_digit(#[trigger] s.drop_last()[i]) by {
        assert(s.drop_last()[i] == s[i]);
    }
    assert(s.last() == s[s.len() - 1]);
}

/// Trimming the start brings in no digit.
proof fn lemma_trimmed_start(s: Seq<char>)
    requires
        no_digit(s),
    ensures
        no_digit(trim_start(s)),
    decreases s.len(),
{
    if s.len() > 0 && white_space(s[0]) {
        lemma_no_digit_in_part(s);
        lemma_trimmed_start(s.drop_first());
    }
}

/// Trimming the end brings in no digit.
proof fn lemma_trimmed_end(s: Seq<char>)
    requires
        no_digit(s),
    ensures
        no_digit(trim_end(s)),
    decreases s.len(),
{
    if s.len() > 0 && white_space(s.last()) {
        lemma_no_digit_in_part(s);
        lemma_trimmed_end(s.drop_last());
    }
}

/// Of a text without digits nothing is left.
proof fn lemma_without_digits(s: Seq<char>)
    requires
        no_digit(s),
    ensures
        up_to_last_digit(s).len() == 0,
    decreases s.len(),
{
    if s.len() > 0 {
        lemma_no_digit_in_part(s);
        lemma_without_digits(s.drop_last());
    }
}

/// The first line that announces an address decides, from the announcement on and once it is
/// whole: its port is the port, and where it has none there is none.
pub proof fn law_first_announcement_decides(
    output: &[u8],
    before: Seq<u8>,
    line: Seq<u8>,
    after: Seq<u8>,
    port: Option<u16>,
    text: &str,
    told: Option<u16>,
)
    requires
        call_ensures(scan_port, (output,), port),
        output@ == before + line + seq![10u8] + after,
        encode_utf8("listening on http://"@).is_prefix_of(line),
        forall|i: int| 0 <= i < line.len() ==> line[i] != 10,
        forall|j: int|
            0 <= j < before.len() ==> #[trigger] (before + encode_utf8(
                "listening on http://"@,
            )).subrange(j, j + encode_utf8("listening on http://"@).len()) != encode_utf8(
                "listening on http://"@,
            ),
        text@ == decoded(line),
        call_ensures(port_in_line, (text,), told),
    ensures
        port == told,
{
    assert forall|j: int| 0 <= j < before.len() implies !#[trigger] found_at(
        before + announcement(),
        announcement(),
        j,
    ) by {
        assert((before + encode_utf8("listening on http://"@)).subrange(
            j,
            j + encode_utf8("listening on http://"@).len(),
        ) != encode_utf8("listening on http://"@));
    }
    lemma_announced_line(before, line, after);
}

/// Where no address is announced, or the line that announces one first is not whole yet, there
/// is no port yet.
pub proof fn law_no_announcement_no_port(output: &[u8], pos: int, port: Option<u16>)
    requires
        call_ensures(scan_port, (output,), port),
        0 <= pos <= output@.len(),
        forall|j: int|
            0 <= j < pos ==> #[trigger] output@.subrange(
                j,
                j + encode_utf8("listening on http://"@).len(),
            ) != encode_utf8("listening on http://"@) || j + encode_utf8(
                "listening on http://"@,
            ).len() > output@.len(),
        forall|i: int| pos <= i < output@.len() ==> output@[i] != 10,
    ensures
        port is None,
{
    let start = encode_utf8("listening on http://"@);
    if exists|k: int| first_found_at(output@, start, k) {
        let k = choose|k: int| first_found_at(output@, start, k);
        lemma_first_found(output@, start, k);
        assert(output@.subrange(k, k + start.len()) == start);
        assert(k >= pos);
        let rest = output@.skip(k);
        let newline = seq![10u8];
        if exists|e: int| first_found_at(rest, newline, e) {
            let e = choose|e: int| first_found_at(rest, newline, e);
            assert(rest.subrange(e, e + 1)[0] == 10);
            assert(output@[k + e] == 10);
        }
    }
}

/// What a read brings is put behind what was there, and the port is looked for in all of it;
/// the number of reads that are left stays.
pub proof fn law_reads_are_collected(
    wait: &mut PortWait,
    read: PipeRead,
    step: PortStep,
    output: &[u8],
    port: Option<u16>,
)
    requires
        call_ensures(wait_for_port, (wait, read), step),
        call_ensures(scan_port, (output,), port),
        read matches PipeRead::Data { bytes } ==> output@ == old(wait).output@ + bytes@,
    ensures
        final(wait).polls_left == old(wait).polls_left,
        match read {
            PipeRead::Data { bytes } => {
                &&& final(wait).output@ == old(wait).output@ + bytes@
                &&& match port {
                    Some(found) => step == (PortStep::Found { port: found }),
                    None => step == PortStep::Poll,
                }
            },
            PipeRead::Empty => final(wait).output@ == old(wait).output@ && step == PortStep::Wait,
            PipeRead::Eof => final(wait).output@ == old(wait).output@ && step == PortStep::GiveUp,
            PipeRead::Failed => final(wait).output@ == old(wait).output@ && step
                == PortStep::GiveUp,
        },
{
}

/// A wait begins with nothing printed and 80 reads to go, and every read is one less.
pub proof fn law_reads_are_counted(fresh: PortWait, wait: &mut PortWait, may: bool)
    requires
        call_ensures(PortWait::new, (), fresh),
        call_ensures(PortWait::next_poll, (wait,), may),
    ensures
        fresh.output@.len() == 0,
        fresh.polls_left == 80,
        may <==> old(wait).polls_left > 0,
        may ==> final(wait).polls_left == old(wait).polls_left - 1,
        !may ==> final(wait).polls_left == 0,
        final(wait).output@ == old(wait).output@,
{
}

/// Two newlines in a row stand at `i`.
pub open spec fn two_newlines(bytes: Seq<u8>, i: int) -> bool {
    0 <= i && i + 1 < bytes.len() && bytes[i] == 10 && bytes[i + 1] == 10
}

/// Bytes that end with two newlines in a row and have none before.
pub open spec fn complete(event: Seq<u8>) -> bool {
    two_newlines(event, event.len() - 2) && forall|j: int|
        j < event.len() - 2 ==> !#[trigger] two_newlines(event, j)
}

/// Bytes without two newlines in a row.
pub open spec fn incomplete(bytes: Seq<u8>) -> bool {
    forall|j: int| !#[trigger] two_newlines(bytes, j)
}

/// The second of the first two newlines in a row is found.
pub proof fn law_find_double_newline(buf: &[u8], end: Option<usize>)
    requires
        call_ensures(find_double_newline, (buf,), end),
    ensures
        match end {
            Some(second) => second < buf@.len() && complete(buf@.subrange(0, second + 1)),
            None => incomplete(buf@),
        },
{
    match end {
        Some(second) => {
            let event = buf@.subrange(0, second + 1);
            assert(is_first_blank(buf@, second - 1));
            assert forall|j: int| j < event.len() - 2 implies !#[trigger] two_newlines(
                event,
                j,
            ) by {
                assert(!blank_at(buf@, j));
            }
        },
        None => {
            assert forall|j: int| !#[trigger] two_newlines(buf@, j) by {
                if blank_at(buf@, j) {
                    lemma_some_blank(buf@, j);
                }
            }
        },
    }
}

/// A stream that is made up of complete events and an incomplete rest is cut into these.
proof fn lemma_one_way_to_cut(events: Seq<Seq<u8>>, rest: Seq<u8>)
    requires
        forall|k: int| 0 <= k < events.len() ==> complete(#[trigger] events[k]),
        incomplete(rest),
    ensures
        frames(flattened(events) + rest) == events,
        remainder(flattened(events) + rest) == rest,
    decreases events.len(),
{
    let stream = flattened(events) + rest;
    if events.len() == 0 {
        assert(stream =~= rest);
        assert(first_blank(rest) is None) by {
            if exists|i: int| is_first_blank(rest, i) {
                let i = choose|i: int| is_first_blank(rest, i);
                assert(two_newlines(rest, i));
            }
        }
        assert(events =~= seq![]);
    } else {
        let event = events[0];
        let others = events.drop_first();
        let n = event.len() as int;
        let left = flattened(others) + rest;
        assert(complete(event));
        assert(stream =~= event + left);
        assert forall|j: int| j < n - 2 implies !#[trigger] blank_at(stream, j) by {
            assert(!two_newlines(event, j));
            if 0 <= j {
                assert(stream[j] == event[j] && stream[j + 1] == event[j + 1]);
            }
        }
        assert(blank_at(stream, n - 2)) by {
            assert(two_newlines(event, n - 2));
            assert(stream[n - 2] == event[n - 2] && stream[n - 1] == event[n - 1]);
        }
        assert(is_first_blank(stream, n - 2));
        lemma_first_blank(stream, n - 2);
        assert(stream.take(n) =~= event);
        assert(stream.skip(n) =~= left);
        assert forall|k: int| 0 <= k < others.len() implies complete(#[trigger] others[k]) by {
            assert(others[k] == events[k + 1]);
        }
        lemma_one_way_to_cut(others, rest);
        assert(seq![event] + others =~= events);
    }
}

/// The events that are taken off a stream are complete, what is left is not, and together they
/// are the stream.
pub proof fn law_events_are_taken_off(buf: &mut Vec<u8>, events: Vec<Vec<u8>>, k: int)
    requires
        call_ensures(take_events, (buf,), events),
    ensures
        flattened(events@.map_values(|event: Vec<u8>| event@)) + final(buf)@ == old(buf)@,
        0 <= k < events@.len() ==> complete(events@[k]@),
        incomplete(final(buf)@),
{
    let whole = old(buf)@;
    law_no_byte_is_lost(whole);
    law_remainder_is_incomplete(whole);
    if 0 <= k < events@.len() {
        law_events_end_at_a_blank_line(whole, k);
        let event = events@[k]@;
        assert(event == frames(whole)[k]);
        assert(blank_at(event, event.len() - 2));
        assert forall|j: int| j < event.len() - 2 implies !#[trigger] two_newlines(event, j) by {
            assert(!blank_at(event, j));
        }
    }
    assert forall|j: int| !#[trigger] two_newlines(final(buf)@, j) by {
        assert(!blank_at(remainder(whole), j));
    }
}

/// Rows of calls, one row after the other.
pub open spec fn chained(rows: Seq<Seq<HostCallView>>) -> Seq<HostCallView>
    decreases rows.len(),
{
    if rows.len() == 0 {
        seq![]
    } else {
        rows[0] + chained(rows.drop_first())
    }
}

/// What events lead to, in their order.
proof fn lemma_chained(events: Seq<Seq<u8>>)
    ensures
        stream_calls(events) == chained(events.map_values(|event: Seq<u8>| raw_event_calls(event))),
    decreases events.len(),
{
    let rows = events.map_values(|event: Seq<u8>| raw_event_calls(event));
    if events.len() > 0 {
        let one = seq![events[0]];
        let others = events.drop_first();
        assert(events =~= one + others);
        lemma_stream_calls_add_up(one, others);
        lemma_chained(others);
        assert(rows.drop_first() =~= others.map_values(|event: Seq<u8>| raw_event_calls(event)));
        assert(one.drop_last() =~= seq![]);
        assert(stream_calls(seq![]) =~= seq![]);
        assert(stream_calls(one) =~= raw_event_calls(events[0]));
    }
}

/// A read of an open stream handles every event that it completes, in order and each once, and
/// keeps the bytes behind them, however the bytes have come.
pub proof fn law_every_complete_event_is_handled(
    plugin: &mut Plugin,
    buf: &[u8; 4096],
    n: i32,
    events: Seq<Seq<u8>>,
    rest: Seq<u8>,
    calls: Vec<HostCall>,
)
    requires
        call_ensures(sidecar_poll, (plugin, buf, n), calls),
        old(plugin).sse_handle > 0,
        n != -1,
        n <= 4096,
        n > 0 ==> old(plugin).line_buf@ + buf@.subrange(0, n as int) == flattened(events) + rest,
        n <= 0 ==> old(plugin).line_buf@ == flattened(events) + rest,
        forall|k: int| 0 <= k < events.len() ==> complete(#[trigger] events[k]),
        incomplete(rest),
    ensures
        call_views(calls@) == chained(
            events.map_values(|event: Seq<u8>| raw_event_calls(event)),
        ),
        final(plugin).line_buf@ == rest,
        final(plugin).sse_handle == old(plugin).sse_handle,
{
    if n > 0 {
        assert(buf@.take(n as int) =~= buf@.subrange(0, n as int));
    }
    assert(fed(old(plugin).line_buf@, buf@, n as int) == flattened(events) + rest);
    lemma_one_way_to_cut(events, rest);
    lemma_chained(events);
}

/// The bytes of an event lead to what the value in its data leads to, and to nothing where it
/// has no data or the data is not JSON.
pub proof fn law_event_is_handled_by_its_data(
    raw: &[u8],
    calls: Vec<HostCall>,
    text: &str,
    data: Option<String>,
    event: &Json,
    mapped: Vec<HostCall>,
)
    requires
        call_ensures(process_sse_event, (raw,), calls),
        text@ == decoded(raw@),
        call_ensures(event_data, (text,), data),
        call_ensures(map_sse_event_to_ai_events, (event,), mapped),
    ensures
        call_views(calls@) == raw_event_calls(raw@),
        data is None ==> calls@.len() == 0,
        data is Some && json_parse(data->0@) is None ==> calls@.len() == 0,
        data is Some && json_parse(data->0@) == Some(event@) ==> call_views(calls@) == call_views(
            mapped@,
        ),
{
    assert(call_views(calls@).len() == calls@.len());
}

/// A line of data adds its characters to the data that was there, whichever way it ends: with a
/// newline, with a carriage return and a newline, or with the text.
pub proof fn law_data_lines_are_joined(
    before: &str,
    was: Option<String>,
    after: &str,
    is: Option<String>,
    data: Seq<char>,
    ending: Seq<char>,
)
    requires
        call_ensures(event_data, (before,), was),
        call_ensures(event_data, (after,), is),
        whole_lines(before@),
        after@ == before@ + ("data: "@ + data + ending),
        forall|i: int| 0 <= i < data.len() ==> data[i] != '\n',
        ending == seq!['\n'] || ending == seq!['\r', '\n'] || ending.len() == 0,
        ending == seq!['\n'] && data.len() > 0 ==> data.last() != '\r',
    ensures
        is is Some,
        was is Some ==> is->0@ == was->0@ + data,
        was is None ==> is->0@ == data,
{
    let line = "data: "@ + data;
    let added = line + ending;
    reveal_strlit("data: ");
    assert forall|i: int| 0 <= i < line.len() implies line[i] != '\n' by {
        if i >= 6 {
            assert(line[i] == data[i - 6]);
        }
    }
    assert(data.len() > 0 ==> line.last() == data.last());
    lemma_lines_add_up(before@, added);
    lemma_one_line(line, ending);
    lemma_data_adds_up(lines(before@), lines(added));
    assert(line.subrange(0, 6) =~= data_mark());
    assert(data_mark().is_prefix_of(line));
    assert(line.skip(6) =~= data);
    assert(seq![line].drop_first() =~= seq![]);
    assert(data_of(seq![]) =~= seq![]);
    assert(data_of(seq![line]) =~= seq![data]);
    let parts = data_of(lines(before@));
    assert(parts + seq![data] =~= parts.push(data));
    assert(parts.push(data).drop_last() =~= parts);
    assert(joined(parts.push(data)) == joined(parts) + data);
    if parts.len() == 0 {
        assert(joined(parts) + data =~= data);
    }
}

/// A line that does not begin with `data: ` adds nothing, whichever way it ends.
pub proof fn law_other_lines_add_nothing(
    before: &str,
    was: Option<String>,
    after: &str,
    is: Option<String>,
    line: Seq<char>,
    ending: Seq<char>,
)
    requires
        call_ensures(event_data, (before,), was),
        call_ensures(event_data, (after,), is),
        whole_lines(before@),
        after@ == before@ + (line + ending),
        forall|i: int| 0 <= i < line.len() ==> line[i] != '\n',
        ending == seq!['\n'] || ending == seq!['\r', '\n'] || ending.len() == 0,
        !"data: "@.is_prefix_of(line),
        line.len() > 0 && ending == seq!['\n'] ==> line.last() != '\r',
    ensures
        is is Some <==> was is Some,
        was is Some ==> is->0@ == was->0@,
{
    let added = line + ending;
    if added.len() == 0 {
        assert(after@ =~= before@);
    } else {
        lemma_lines_add_up(before@, added);
        lemma_one_line(line, ending);
        lemma_data_adds_up(lines(before@), lines(added));
        assert(seq![line].drop_first() =~= seq![]);
        assert(data_of(seq![]) =~= seq![]);
        assert(data_of(seq![line]) =~= seq![]);
        assert(data_of(lines(before@)) + seq![] =~= data_of(lines(before@)));
    }
}

/// An empty text carries no data.
pub proof fn law_nothing_carries_no_data(text: &str, data: Option<String>)
    requires
        call_ensures(event_data, (text,), data),
        text@.len() == 0,
    ensures
        data is None,
{
    assert(lines(text@) =~= seq![]);
    assert(data_of(lines(text@)) =~= seq![]);
}

/// One line, whichever way it ends.
proof fn lemma_one_line(line: Seq<char>, ending: Seq<char>)
    requires
        forall|i: int| 0 <= i < line.len() ==> line[i] != '\n',
        ending == seq!['\n'] || ending == seq!['\r', '\n'] || ending.len() == 0,
        line.len() > 0 && ending == seq!['\n'] ==> line.last() != '\r',
        line.len() + ending.len() > 0,
    ensures
        lines(line + ending) == seq![line],
{
    let text = line + ending;
    let nothing: Seq<char> = seq![];
    assert(lines(nothing) =~= seq![]);
    if ending.len() == 0 {
        assert(text =~= line);
        lemma_index_of_char(text, '\n', text.len() as int);
        assert(first_line(text, text.len() as int) =~= line);
    } else {
        let end = text.len() - 1;
        assert(text[end] == '\n');
        assert forall|i: int| 0 <= i < end implies text[i] != '\n' by {
            if i < line.len() {
                assert(text[i] == line[i]);
            }
        }
        lemma_index_of_char(text, '\n', end);
        if ending == seq!['\n'] {
            if line.len() > 0 {
                assert(text[end - 1] == line.last());
            }
        } else {
            assert(text[end - 1] == '\r');
        }
        assert(first_line(text, end) =~= line);
        assert(text.skip(end + 1) =~= nothing);
        assert(lines(text) =~= seq![line]);
    }
}

/// What is said of a call is what the call holds.
pub proof fn law_calls_say_what_they_hold(call: HostCall, event: AIEvent)
    ensures
        match (call, call@) {
            (HostCall::Log { line }, HostCallView::Log { line: said }) => said == line@,
            (HostCall::PushEvent { session_id, event }, HostCallView::PushEvent {
                session_id: said,
                event: pushed,
            }) => said == session_id@ && pushed == event@,
            (HostCall::PushUi { json }, HostCallView::PushUi { json: said }) => said.text == json@
                && said.says == json_parse(json@),
            (HostCall::ReadFile { path }, HostCallView::ReadFile { path: said }) => said == path@,
            (HostCall::PtyRead { handle }, HostCallView::PtyRead { handle: said }) => said
                == handle,
            (HostCall::PtyWrite { handle, bytes }, HostCallView::PtyWrite {
                handle: said,
                bytes: written,
            }) => said == handle && written == bytes@,
            (HostCall::PtyResize { handle, cols, rows }, HostCallView::PtyResize {
                handle: said,
                cols: wide,
                rows: high,
            }) => said == handle && wide == cols && high == rows,
            (HostCall::PtyClose { handle }, HostCallView::PtyClose { handle: said }) => said
                == handle,
            (HostCall::SseRead { handle }, HostCallView::SseRead { handle: said }) => said
                == handle,
            (HostCall::SseReset, HostCallView::SseReset) => true,
            (HostCall::SseClose { handle }, HostCallView::SseClose { handle: said }) => said
                == handle,
            (HostCall::Kill { handle }, HostCallView::Kill { handle: said }) => said == handle,
            _ => false,
        },
        match (event, event@) {
            (AIEvent::StreamingDelta { session_id, text }, AIEventView::StreamingDelta {
                session_id: of,
                text: said,
            }) => of == session_id@ && said == text@,
            (AIEvent::ToolCall { name }, AIEventView::ToolCall { name: said }) => said == name@,
            (AIEvent::CrdtWrite { session_id, path, content }, AIEventView::CrdtWrite {
                session_id: of,
                path: at,
                content: said,
            }) => of == session_id@ && at == path@ && said == content@,
            (AIEvent::TurnCompleted { session_id }, AIEventView::TurnCompleted {
                session_id: of,
            }) => of == session_id@,
            (AIEvent::Error { message }, AIEventView::Error { message: said }) => said == message@,
            _ => false,
        },
{
}

} // verus!
