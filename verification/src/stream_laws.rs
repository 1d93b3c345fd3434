//! What holds of the event stream, however its bytes arrive.
use vstd::prelude::*;
use vstd::utf8::{decode_utf8, encode_scalar, encode_utf8, valid_utf8};

use crate::document::json_parse;
use crate::events::event_calls;
use crate::sse::{
    blank_at, data_mark, data_of, event_data_of, first_blank, frames, is_first_blank,
    lemma_first_blank, lemma_some_blank, raw_event_calls, remainder,
};
use crate::text::{
    decoded, first_line, index_of_char, joined, lemma_before_index_of_char, lemma_index_of_char,
    lines,
};

verus! {

/// The bytes of the events, one event after the other.
pub open spec fn flattened(events: Seq<Seq<u8>>) -> Seq<u8>
    decreases events.len(),
{
    if events.len() == 0 {
        seq![]
    } else {
        events[0] + flattened(events.drop_first())
    }
}

/// No byte of the stream is lost or invented: the events and what follows them are the stream.
pub proof fn law_no_byte_is_lost(buf: Seq<u8>)
    ensures
        flattened(frames(buf)) + remainder(buf) == buf,
    decreases buf.len(),
{
    match first_blank(buf) {
        Some(i) => {
            let rest = buf.skip(i + 2);
            law_no_byte_is_lost(rest);
            assert(frames(buf).drop_first() =~= frames(rest));
            assert(flattened(frames(buf)) + remainder(buf) =~= buf.take(i + 2) + (flattened(
                frames(rest),
            ) + remainder(rest)));
            assert(buf.take(i + 2) + rest =~= buf);
        },
        None => {
            assert(flattened(frames(buf)) + remainder(buf) =~= buf);
        },
    }
}

/// What is kept back holds no complete event.
pub proof fn law_remainder_is_incomplete(buf: Seq<u8>)
    ensures
        forall|i: int| !#[trigger] blank_at(remainder(buf), i),
        frames(remainder(buf)) == Seq::<Seq<u8>>::empty(),
        remainder(remainder(buf)) == remainder(buf),
    decreases buf.len(),
{
    match first_blank(buf) {
        Some(i) => {
            law_remainder_is_incomplete(buf.skip(i + 2));
        },
        None => {
            assert forall|i: int| !#[trigger] blank_at(buf, i) by {
                if blank_at(buf, i) {
                    lemma_some_blank(buf, i);
                }
            }
        },
    }
}

/// Every event ends with its first two newlines in a row.
pub proof fn law_events_end_at_a_blank_line(buf: Seq<u8>, k: int)
    requires
        0 <= k < frames(buf).len(),
    ensures
        is_first_blank(frames(buf)[k], frames(buf)[k].len() - 2),
    decreases buf.len(),
{
    let i = first_blank(buf)->0;
    if k == 0 {
        let event = buf.take(i + 2);
        assert(is_first_blank(buf, i));
        assert forall|j: int| j < i implies !#[trigger] blank_at(event, j) by {
            assert(!blank_at(buf, j));
        }
        assert(is_first_blank(event, event.len() - 2));
    } else {
        law_events_end_at_a_blank_line(buf.skip(i + 2), k - 1);
    }
}

/// The events do not depend on how the stream is cut into reads: reading `a` and later `b`
/// gives the events, and keeps back the bytes, that reading both at once gives and keeps.
pub proof fn law_reads_may_be_cut_anywhere(a: Seq<u8>, b: Seq<u8>)
    ensures
        frames(a + b) == frames(a) + frames(remainder(a) + b),
        remainder(a + b) == remainder(remainder(a) + b),
    decreases a.len(),
{
    match first_blank(a) {
        Some(i) => {
            assert(is_first_blank(a, i));
            assert forall|j: int| j < i implies !#[trigger] blank_at(a + b, j) by {
                assert(!blank_at(a, j));
            }
            assert(is_first_blank(a + b, i));
            lemma_first_blank(a + b, i);
            let rest = a.skip(i + 2);
            assert((a + b).take(i + 2) =~= a.take(i + 2));
            assert((a + b).skip(i + 2) =~= rest + b);
            law_reads_may_be_cut_anywhere(rest, b);
            assert(frames(a + b) =~= frames(a) + frames(remainder(a) + b));
        },
        None => {
            assert(frames(a) + frames(a + b) =~= frames(a + b));
        },
    }
}

/// A JSON text that can stand on one line: no newline in it, no carriage return at its end.
pub open spec fn fits_a_line(json: Seq<char>) -> bool {
    &&& forall|i: int| 0 <= i < json.len() ==> json[i] != '\n'
    &&& json.len() > 0 ==> json.last() != '\r'
}

/// The event that carries `json` as its data.
pub open spec fn event_text(json: Seq<char>) -> Seq<char> {
    data_mark() + json + seq!['\n', '\n']
}

/// An event that carries a text on one line of data is read as that text.
pub proof fn law_data_is_read_back(json: Seq<char>)
    requires
        fits_a_line(json),
    ensures
        event_data_of(event_text(json)) == Some(json),
{
    reveal_strlit("data: ");
    let text = event_text(json);
    let end: int = 6 + json.len() as int;
    let line = data_mark() + json;
    assert forall|i: int| 0 <= i < end implies text[i] != '\n' by {
        if i >= 6 {
            assert(text[i] == json[i - 6]);
        }
    }
    lemma_index_of_char(text, '\n', end);
    assert(text[end - 1] != '\r') by {
        if json.len() > 0 {
            assert(text[end - 1] == json.last());
        }
    }
    assert(first_line(text, end) =~= line);
    let rest = text.skip(end + 1);
    assert(rest =~= seq!['\n']);
    lemma_index_of_char(rest, '\n', 0);
    let nothing: Seq<char> = seq![];
    assert(first_line(rest, 0) =~= nothing);
    assert(rest.skip(1) =~= nothing);
    assert(lines(nothing) =~= seq![]);
    assert(lines(rest) =~= seq![nothing]);
    assert(lines(text) =~= seq![line, nothing]);
    assert(line.subrange(0, 6) =~= data_mark());
    assert(data_mark().is_prefix_of(line));
    assert(!data_mark().is_prefix_of(nothing));
    assert(seq![line, nothing].drop_first() =~= seq![nothing]);
    assert(seq![nothing].drop_first() =~= seq![]);
    assert(data_of(seq![]) =~= seq![]);
    assert(data_of(seq![nothing]) =~= seq![]);
    assert(line.skip(6) =~= json);
    assert(data_of(lines(text)) =~= seq![json]);
    assert(seq![json].drop_last() =~= seq![]);
    assert(joined(seq![]) =~= seq![]);
    assert(joined(seq![json]) =~= json);
}

/// A text's encoding is that of its parts.
pub proof fn lemma_encode_concat(a: Seq<char>, b: Seq<char>)
    ensures
        encode_utf8(a + b) == encode_utf8(a) + encode_utf8(b),
    decreases a.len(),
{
    if a.len() == 0 {
        assert(a + b =~= b);
        assert(encode_utf8(a) + encode_utf8(b) =~= encode_utf8(b));
    } else {
        assert((a + b).drop_first() =~= a.drop_first() + b);
        lemma_encode_concat(a.drop_first(), b);
        assert(encode_utf8(a + b) =~= encode_utf8(a) + encode_utf8(b));
    }
}

/// Only a newline has the newline's byte in its encoding.
proof fn lemma_scalar_without_newline(c: u32)
    requires
        c != 10,
    ensures
        forall|i: int| 0 <= i < encode_scalar(c).len() ==> encode_scalar(c)[i] != 10,
{
    assert(c != 10 && c <= 0x7f ==> (c & 0x7f) as u8 != 10) by (bit_vector);
    assert(0xc0 | ((c >> 6) & 0x1f) as u8 != 10) by (bit_vector);
    assert(0xe0 | ((c >> 12) & 0x0f) as u8 != 10) by (bit_vector);
    assert(0xf0 | ((c >> 18) & 0x07) as u8 != 10) by (bit_vector);
    assert(0x80 | (c & 0x3f) as u8 != 10) by (bit_vector);
    assert(0x80 | ((c >> 6) & 0x3f) as u8 != 10) by (bit_vector);
    assert(0x80 | ((c >> 12) & 0x3f) as u8 != 10) by (bit_vector);
}

/// A text without newlines has no newline in its encoding.
pub proof fn lemma_encode_without_newline(s: Seq<char>)
    requires
        forall|i: int| 0 <= i < s.len() ==> s[i] != '\n',
    ensures
        forall|i: int| 0 <= i < encode_utf8(s).len() ==> encode_utf8(s)[i] != 10,
    decreases s.len(),
{
    if s.len() > 0 {
        let rest = s.drop_first();
        assert forall|i: int| 0 <= i < rest.len() implies rest[i] != '\n' by {
            assert(rest[i] == s[i + 1]);
        }
        lemma_encode_without_newline(rest);
        let c = s[0];
        assert(c != '\n');
        vstd::utf8::char_u32_cast(c, c as u32);
        assert(10u32 as char == '\n');
        lemma_scalar_without_newline(c as u32);
        let head = encode_scalar(c as u32);
        let tail = encode_utf8(rest);
        assert forall|i: int| 0 <= i < encode_utf8(s).len() implies encode_utf8(s)[i] != 10 by {
            if i < head.len() {
                assert(encode_utf8(s)[i] == head[i]);
            } else {
                assert(encode_utf8(s)[i] == tail[i - head.len()]);
            }
        }
    }
}

/// A stream that holds one event with `json` as its data is cut into that event, and the event
/// leads to what the value that `json` says leads to.
pub proof fn law_event_arrives(json: Seq<char>)
    requires
        fits_a_line(json),
    ensures
        frames(encode_utf8(event_text(json))) == seq![encode_utf8(event_text(json))],
        remainder(encode_utf8(event_text(json))) == Seq::<u8>::empty(),
        raw_event_calls(encode_utf8(event_text(json))) == match json_parse(json) {
            Some(event) => event_calls(event),
            None => seq![],
        },
{
    broadcast use {vstd::utf8::encode_utf8_valid_utf8, vstd::utf8::encode_utf8_decode_utf8};

    let text = event_text(json);
    let raw = encode_utf8(text);
    law_data_is_read_back(json);
    assert(decoded(raw) == text);

    let line = data_mark() + json;
    let body = encode_utf8(line);
    let ends: Seq<char> = seq!['\n', '\n'];
    lemma_encode_concat(line, ends);
    assert forall|i: int| 0 <= i < line.len() implies line[i] != '\n' by {
        reveal_strlit("data: ");
        if i >= 6 {
            assert(line[i] == json[i - 6]);
        }
    }
    lemma_encode_without_newline(line);
    assert(10u32 & 0x7f == 10) by (bit_vector);
    reveal_with_fuel(encode_utf8, 3);
    assert(encode_utf8(ends) =~= seq![10u8, 10u8]);
    let n = body.len() as int;
    assert(raw =~= body + seq![10u8, 10u8]);
    assert forall|j: int| j < n implies !#[trigger] blank_at(raw, j) by {
        if 0 <= j {
            assert(raw[j] == body[j]);
        }
    }
    assert(is_first_blank(raw, n));
    lemma_first_blank(raw, n);
    let nothing: Seq<u8> = seq![];
    assert(raw.take(n + 2) =~= raw);
    assert(raw.skip(n + 2) =~= nothing);
    assert(first_blank(nothing) is None) by {
        assert(forall|i: int| !blank_at(nothing, i));
    }
    assert(frames(nothing) =~= seq![]);
    assert(frames(raw) =~= seq![raw]);
    assert(remainder(nothing) == nothing);
    assert(remainder(raw) == remainder(nothing));
}

/// A text that other lines can follow: none, or whole lines.
pub open spec fn whole_lines(text: Seq<char>) -> bool {
    text.len() > 0 ==> text.last() == '\n'
}

/// The lines of a text are those of whole lines at its front and those of the rest.
pub proof fn lemma_lines_add_up(a: Seq<char>, b: Seq<char>)
    requires
        whole_lines(a),
    ensures
        lines(a + b) == lines(a) + lines(b),
    decreases a.len(),
{
    if a.len() == 0 {
        assert(a + b =~= b);
        assert(lines(a) + lines(b) =~= lines(b));
    } else {
        let end = index_of_char(a, '\n');
        lemma_before_index_of_char(a, '\n');
        assert(end < a.len()) by {
            assert(a[a.len() - 1] == '\n');
        }
        let both = a + b;
        lemma_index_of_char(both, '\n', end);
        assert(first_line(both, end) =~= first_line(a, end));
        let rest = a.skip(end + 1);
        assert(both.skip(end + 1) =~= rest + b);
        assert(rest.len() > 0 ==> rest.last() == a.last());
        lemma_lines_add_up(rest, b);
        assert(lines(both) =~= lines(a) + lines(b));
    }
}

/// The data of lines is that of the first and that of the others.
pub proof fn lemma_data_adds_up(a: Seq<Seq<char>>, b: Seq<Seq<char>>)
    ensures
        data_of(a + b) == data_of(a) + data_of(b),
    decreases a.len(),
{
    if a.len() == 0 {
        assert(a + b =~= b);
        assert(data_of(a) + data_of(b) =~= data_of(b));
    } else {
        assert((a + b).drop_first() =~= a.drop_first() + b);
        lemma_data_adds_up(a.drop_first(), b);
        assert(data_of(a + b) =~= data_of(a) + data_of(b));
    }
}

/// A line without data gives no data.
proof fn lemma_line_without_data(line: Seq<char>)
    requires
        forall|i: int| 0 <= i < line.len() ==> line[i] != '\n',
        !data_mark().is_prefix_of(line),
    ensures
        data_of(lines(line + seq!['\n'])) == Seq::<Seq<char>>::empty(),
{
    let text = line + seq!['\n'];
    let end = line.len() as int;
    lemma_index_of_char(text, '\n', end);
    let nothing: Seq<char> = seq![];
    assert(text.skip(end + 1) =~= nothing);
    let first = first_line(text, end);
    assert(lines(nothing) =~= seq![]);
    assert(lines(text) =~= seq![first]);
    assert(first =~= line.take(first.len() as int));
    if data_mark().is_prefix_of(first) {
        let n = data_mark().len() as int;
        assert(line.subrange(0, n) =~= first.subrange(0, n));
    }
    assert(seq![first].drop_first() =~= seq![]);
    assert(data_of(seq![]) =~= seq![]);
}

/// Lines without data do not matter: an `event:` or `id:` line, a comment or a blank line, put
/// between the lines of an event, leaves the event's data as it is.
pub proof fn law_other_lines_do_not_matter(a: Seq<char>, line: Seq<char>, b: Seq<char>)
    requires
        whole_lines(a),
        forall|i: int| 0 <= i < line.len() ==> line[i] != '\n',
        !data_mark().is_prefix_of(line),
    ensures
        event_data_of(a + line + seq!['\n'] + b) == event_data_of(a + b),
        raw_event_calls(encode_utf8(a + line + seq!['\n'] + b)) == raw_event_calls(
            encode_utf8(a + b),
        ),
{
    broadcast use {vstd::utf8::encode_utf8_valid_utf8, vstd::utf8::encode_utf8_decode_utf8};

    let added = line + seq!['\n'];
    assert(a + line + seq!['\n'] + b =~= a + (added + b));
    assert(added.last() == '\n');
    lemma_lines_add_up(a, added + b);
    lemma_lines_add_up(added, b);
    lemma_lines_add_up(a, b);
    lemma_data_adds_up(lines(a), lines(added) + lines(b));
    lemma_data_adds_up(lines(added), lines(b));
    lemma_data_adds_up(lines(a), lines(b));
    lemma_line_without_data(line);
    assert(data_of(lines(added)) + data_of(lines(b)) =~= data_of(lines(b)));
}

/// Lines without data do not matter in the bytes of an event either, where these are UTF-8.
pub proof fn law_other_bytes_do_not_matter(a: Seq<u8>, line: Seq<u8>, b: Seq<u8>)
    requires
        valid_utf8(a),
        valid_utf8(line),
        valid_utf8(b),
        a.len() > 0 ==> a.last() == 10,
        forall|i: int| 0 <= i < line.len() ==> line[i] != 10,
        !encode_utf8(data_mark()).is_prefix_of(line),
    ensures
        raw_event_calls(a + line + seq![10u8] + b) == raw_event_calls(a + b),
{
    broadcast use vstd::utf8::decode_utf8_encode_utf8;

    let front = decode_utf8(a);
    let chars = decode_utf8(line);
    let rest = decode_utf8(b);
    let newline: Seq<char> = seq!['\n'];
    assert(encode_utf8(front) == a && encode_utf8(chars) == line && encode_utf8(rest) == b);
    lemma_newline_encoded();

    if front.len() > 0 {
        let body = front.drop_last();
        let last: Seq<char> = seq![front.last()];
        assert(front =~= body + last);
        lemma_encode_concat(body, last);
        if front.last() != '\n' {
            lemma_encode_without_newline(last);
            assert(last.drop_first() =~= seq![]);
            assert(encode_utf8(last).len() > 0);
            assert(a.last() == encode_utf8(last).last());
        }
    }
    assert forall|i: int| 0 <= i < chars.len() implies chars[i] != '\n' by {
        if chars[i] == '\n' {
            let before = chars.take(i);
            let after = chars.skip(i + 1);
            assert(chars =~= before + newline + after);
            lemma_encode_concat(before + newline, after);
            lemma_encode_concat(before, newline);
            assert(line[encode_utf8(before).len() as int] == 10);
        }
    }
    if data_mark().is_prefix_of(chars) {
        let n = data_mark().len() as int;
        let data = chars.skip(n);
        assert(chars.subrange(0, n) == data_mark());
        assert(chars =~= data_mark() + data);
        lemma_encode_concat(data_mark(), data);
        let k = encode_utf8(data_mark()).len() as int;
        assert(line.subrange(0, k) =~= encode_utf8(data_mark()));
    }
    law_other_lines_do_not_matter(front, chars, rest);
    lemma_encode_concat(front + chars + newline, rest);
    lemma_encode_concat(front + chars, newline);
    lemma_encode_concat(front, chars);
    lemma_encode_concat(front, rest);
}

/// The newline's encoding.
proof fn lemma_newline_encoded()
    ensures
        encode_utf8(seq!['\n']) == seq![10u8],
{
    assert(10u32 & 0x7f == 10) by (bit_vector);
    reveal_with_fuel(encode_utf8, 2);
    assert(encode_utf8(seq!['\n']) =~= seq![10u8]);
}

} // verus!
