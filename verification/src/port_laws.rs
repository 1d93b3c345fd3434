//! What holds of the wait for the server's port.
use vstd::prelude::*;
use vstd::utf8::encode_utf8;

use crate::number::{decimal, is_digit, law_decimal_is_read_back, lemma_decimal};
use crate::port::{
    after_last_colon, announced_line, announced_port, announcement, first_found,
    first_found_at, found_at, lemma_first_found, port_of_line, trim_end, trim_start,
    up_to_last_digit, PipeReadView, PortStep, PortWaitView,
};
use crate::stream_laws::{lemma_encode_concat, lemma_encode_without_newline};
use crate::text::decoded;

verus! {

/// The line in which a server at `host` announces `port`; `tail` follows the number.
pub open spec fn announcing_line(host: Seq<char>, port: u16, tail: Seq<char>) -> Seq<char> {
    "listening on http://"@ + host + seq![':'] + decimal(port as nat) + tail
}

/// What may follow the number on the line: neither a colon nor a digit nor a newline.
pub open spec fn harmless(tail: Seq<char>) -> bool {
    forall|i: int|
        0 <= i < tail.len() ==> (#[trigger] tail[i]) != ':' && tail[i] != '\n' && !is_digit(tail[i])
}

/// What follows the last colon, where it is known.
pub proof fn lemma_after_last_colon(head: Seq<char>, tail: Seq<char>)
    requires
        forall|i: int| 0 <= i < tail.len() ==> tail[i] != ':',
    ensures
        after_last_colon(head + seq![':'] + tail) == tail,
    decreases tail.len(),
{
    let s = head + seq![':'] + tail;
    if tail.len() == 0 {
        assert(s.last() == ':');
    } else {
        assert(s.drop_last() =~= head + seq![':'] + tail.drop_last());
        lemma_after_last_colon(head, tail.drop_last());
        assert(s.last() == tail.last());
        assert(tail.drop_last().push(tail.last()) =~= tail);
    }
}

/// Cutting white space and then everything but digits off the end leaves the number.
proof fn lemma_number_stays(number: Seq<char>, tail: Seq<char>)
    requires
        number.len() > 0,
        is_digit(number.last()),
        harmless(tail),
    ensures
        up_to_last_digit(number + tail) == number,
        up_to_last_digit(trim_end(number + tail)) == number,
    decreases tail.len(),
{
    let s = number + tail;
    if tail.len() == 0 {
        assert(s =~= number);
    } else {
        let shorter = tail.drop_last();
        assert(s.drop_last() =~= number + shorter);
        assert(s.last() == tail[tail.len() - 1]);
        assert(harmless(shorter)) by {
            assert forall|i: int| 0 <= i < shorter.len() implies (#[trigger] shorter[i]) != ':'
                && shorter[i] != '\n' && !is_digit(shorter[i]) by {
                assert(shorter[i] == tail[i]);
            }
        }
        lemma_number_stays(number, shorter);
    }
}

/// Every port is read from the line that announces it.
pub proof fn law_port_of_line(host: Seq<char>, port: u16, tail: Seq<char>)
    requires
        harmless(tail),
    ensures
        port_of_line(announcing_line(host, port, tail)) == Some(port),
{
    let number = decimal(port as nat);
    lemma_decimal(port as nat);
    let rest = number + tail;
    assert forall|i: int| 0 <= i < rest.len() implies rest[i] != ':' by {
        if i < number.len() {
            assert(is_digit(number[i]));
        } else {
            assert(rest[i] == tail[i - number.len()]);
        }
    }
    let head = "listening on http://"@ + host;
    lemma_after_last_colon(head, rest);
    assert(announcing_line(host, port, tail) =~= head + seq![':'] + rest);
    assert(rest[0] == number[0]);
    assert(is_digit(number[0]) && is_digit(number[number.len() - 1]));
    assert(trim_start(rest) == rest);
    lemma_number_stays(number, tail);
    law_decimal_is_read_back(port);
}

/// A line that begins with the announcement is the announced line where no earlier place does.
pub proof fn lemma_announced_line(before: Seq<u8>, line: Seq<u8>, after: Seq<u8>)
    requires
        announcement().is_prefix_of(line),
        forall|i: int| 0 <= i < line.len() ==> line[i] != 10,
        forall|j: int|
            0 <= j < before.len() ==> !#[trigger] found_at(
                before + announcement(),
                announcement(),
                j,
            ),
    ensures
        announced_line(before + line + seq![10u8] + after) == Some(line),
{
    let output = before + line + seq![10u8] + after;
    let start = announcement();
    let pos = before.len() as int;
    assert(line.subrange(0, start.len() as int) == start);
    assert(output.subrange(pos, pos + start.len()) =~= line.subrange(0, start.len() as int));
    assert forall|j: int| j < pos implies !#[trigger] found_at(output, start, j) by {
        if 0 <= j {
            assert(!found_at(before + start, start, j));
            let both = before + start;
            assert forall|k: int| j <= k < j + start.len() implies both[k] == output[k] by {
                if k >= pos {
                    assert(both[k] == start[k - pos]);
                    assert(output[k] == line[k - pos]);
                    assert(line.subrange(0, start.len() as int)[k - pos] == line[k - pos]);
                }
            }
            assert(both.subrange(j, j + start.len()) =~= output.subrange(j, j + start.len()));
        }
    }
    assert(first_found_at(output, start, pos));
    lemma_first_found(output, start, pos);

    let rest = output.skip(pos);
    let newline = seq![10u8];
    let end = line.len() as int;
    assert(rest =~= line + newline + after);
    assert(rest.subrange(end, end + 1) =~= newline);
    assert forall|j: int| j < end implies !#[trigger] found_at(rest, newline, j) by {
        if 0 <= j {
            assert(rest.subrange(j, j + 1)[0] == line[j]);
        }
    }
    assert(first_found_at(rest, newline, end));
    lemma_first_found(rest, newline, end);
    assert(output.subrange(pos, pos + end) =~= line);
}

/// A text made of texts without newlines has none.
proof fn lemma_no_newline_in_both(a: Seq<char>, b: Seq<char>)
    requires
        forall|i: int| 0 <= i < a.len() ==> a[i] != '\n',
        forall|i: int| 0 <= i < b.len() ==> b[i] != '\n',
    ensures
        forall|i: int| 0 <= i < (a + b).len() ==> (a + b)[i] != '\n',
{
}

/// The announcing line is one line.
proof fn lemma_announcing_line_is_one(host: Seq<char>, port: u16, tail: Seq<char>)
    requires
        harmless(tail),
        forall|i: int| 0 <= i < host.len() ==> host[i] != '\n',
    ensures
        forall|i: int|
            0 <= i < announcing_line(host, port, tail).len() ==> announcing_line(
                host,
                port,
                tail,
            )[i] != '\n',
{
    let prefix = "listening on http://"@;
    assert forall|i: int| 0 <= i < prefix.len() implies prefix[i] != '\n' by {
        reveal_strlit("listening on http://");
    }
    let number = decimal(port as nat);
    lemma_decimal(port as nat);
    assert forall|i: int| 0 <= i < number.len() implies number[i] != '\n' by {
        assert(is_digit(number[i]));
    }
    lemma_no_newline_in_both(prefix, host);
    lemma_no_newline_in_both(prefix + host, seq![':']);
    lemma_no_newline_in_both(prefix + host + seq![':'], number);
    lemma_no_newline_in_both(prefix + host + seq![':'] + number, tail);
}

/// The port that the server announces is found, whatever the server has printed before, as long
/// as that announces nothing, and whatever follows on later lines.
pub proof fn law_announced_port_is_found(
    before: Seq<u8>,
    host: Seq<char>,
    port: u16,
    tail: Seq<char>,
    after: Seq<u8>,
)
    requires
        harmless(tail),
        forall|i: int| 0 <= i < host.len() ==> host[i] != '\n',
        forall|j: int|
            0 <= j < before.len() ==> !#[trigger] found_at(
                before + announcement(),
                announcement(),
                j,
            ),
    ensures
        announced_port(
            before + encode_utf8(announcing_line(host, port, tail)) + seq![10u8] + after,
        ) == Some(port),
{
    let text = announcing_line(host, port, tail);
    let line = encode_utf8(text);
    let prefix = "listening on http://"@;
    let ending = host + seq![':'] + decimal(port as nat) + tail;
    assert(text =~= prefix + ending);
    lemma_encode_concat(prefix, ending);
    assert(line.subrange(0, announcement().len() as int) =~= announcement());
    lemma_announcing_line_is_one(host, port, tail);
    lemma_encode_without_newline(text);
    lemma_announced_line(before, line, after);
    vstd::utf8::encode_utf8_valid_utf8(text);
    vstd::utf8::encode_utf8_decode_utf8(text);
    assert(decoded(line) == text);
    law_port_of_line(host, port, tail);
}

/// Two reads one after the other are one read of both.
pub proof fn law_reads_of_output_add_up(wait: PortWaitView, a: Seq<u8>, b: Seq<u8>)
    ensures
        wait.after(PipeReadView::Data { bytes: a }).after(PipeReadView::Data { bytes: b })
            == wait.after(PipeReadView::Data { bytes: a + b }),
        wait.after(PipeReadView::Data { bytes: a }).step(PipeReadView::Data { bytes: b })
            == wait.step(PipeReadView::Data { bytes: a + b }),
{
    assert(wait.output + a + b =~= wait.output + (a + b));
}

/// What a needle's first place is stays so, whatever is put behind.
proof fn lemma_first_place_stays(buf: Seq<u8>, needle: Seq<u8>, pos: int, more: Seq<u8>)
    requires
        first_found_at(buf, needle, pos),
    ensures
        first_found_at(buf + more, needle, pos),
{
    let both = buf + more;
    assert(both.subrange(pos, pos + needle.len()) =~= buf.subrange(pos, pos + needle.len()));
    assert forall|j: int| j < pos implies !#[trigger] found_at(both, needle, j) by {
        assert(!found_at(buf, needle, j));
        if 0 <= j {
            assert(both.subrange(j, j + needle.len()) =~= buf.subrange(j, j + needle.len()));
        }
    }
}

/// A port that was announced stays announced, whatever the server prints afterwards.
pub proof fn law_announced_port_stays(output: Seq<u8>, more: Seq<u8>)
    requires
        announced_port(output) is Some,
    ensures
        announced_port(output + more) == announced_port(output),
{
    let start = announcement();
    let newline = seq![10u8];
    let pos = first_found(output, start)->0;
    assert(first_found_at(output, start, pos));
    lemma_first_place_stays(output, start, pos, more);
    lemma_first_found(output + more, start, pos);
    let rest = output.skip(pos);
    let end = first_found(rest, newline)->0;
    assert(first_found_at(rest, newline, end));
    lemma_first_place_stays(rest, newline, end, more);
    lemma_first_found(rest + more, newline, end);
    assert((output + more).skip(pos) =~= rest + more);
    assert((output + more).subrange(pos, pos + end) =~= output.subrange(pos, pos + end));
}

/// What a row of reads comes to: the port, or none where the output ends, a read fails, or no
/// more reads may be made.
pub open spec fn awaited_port(wait: PortWaitView, reads: Seq<PipeReadView>) -> Option<u16>
    decreases reads.len(),
{
    if reads.len() == 0 || wait.polls_left == 0 {
        None
    } else {
        match wait.polled().step(reads[0]) {
            PortStep::Found { port } => Some(port),
            PortStep::GiveUp => None,
            _ => awaited_port(wait.polled().after(reads[0]), reads.drop_first()),
        }
    }
}

/// The data of the first `n` reads, up to the first that reports an end or a failure.
pub open spec fn data_before_end(reads: Seq<PipeReadView>, n: nat) -> Seq<u8>
    decreases n,
{
    if n == 0 || reads.len() == 0 {
        seq![]
    } else {
        match reads[0] {
            PipeReadView::Data { bytes } => bytes + data_before_end(
                reads.drop_first(),
                (n - 1) as nat,
            ),
            PipeReadView::Empty => data_before_end(reads.drop_first(), (n - 1) as nat),
            _ => seq![],
        }
    }
}

/// Where no port is announced yet, a row of reads comes to the port that is announced by what is
/// there and by the data of the reads that may be made.
proof fn lemma_awaited_port(wait: PortWaitView, reads: Seq<PipeReadView>)
    requires
        announced_port(wait.output) is None,
    ensures
        awaited_port(wait, reads) == announced_port(
            wait.output + data_before_end(reads, wait.polls_left as nat),
        ),
    decreases reads.len(),
{
    let n = wait.polls_left as nat;
    let data = data_before_end(reads, n);
    if reads.len() == 0 || n == 0 {
        assert(wait.output + data =~= wait.output);
    } else {
        let rest = data_before_end(reads.drop_first(), (n - 1) as nat);
        let next = wait.polled().after(reads[0]);
        match reads[0] {
            PipeReadView::Data { bytes } => {
                assert(wait.output + data =~= next.output + rest);
                if announced_port(next.output) is Some {
                    law_announced_port_stays(next.output, rest);
                } else {
                    lemma_awaited_port(next, reads.drop_first());
                }
            },
            PipeReadView::Empty => {
                lemma_awaited_port(next, reads.drop_first());
            },
            _ => {
                assert(wait.output + data =~= wait.output);
            },
        }
    }
}

/// A row of reads comes to the port that the server announces in all that the first 80 of them
/// bring before an end or a failure, however the output is cut into reads.
pub proof fn law_row_of_reads(reads: Seq<PipeReadView>)
    ensures
        awaited_port(PortWaitView::start(), reads) == announced_port(data_before_end(reads, 80)),
{
    let nothing: Seq<u8> = seq![];
    assert(first_found(nothing, announcement()) is None) by {
        reveal_strlit("listening on http://");
        vstd::utf8::encode_utf8_first_scalar("listening on http://"@);
        assert(forall|pos: int| !found_at(nothing, announcement(), pos));
    }
    lemma_awaited_port(PortWaitView::start(), reads);
    assert(nothing + data_before_end(reads, 80) =~= data_before_end(reads, 80));
}

/// The wait once it has read `n` times.
pub open spec fn polled_times(wait: PortWaitView, n: nat) -> PortWaitView
    decreases n,
{
    if n == 0 {
        wait
    } else {
        polled_times(wait, (n - 1) as nat).polled()
    }
}

/// Reading never gives reads back, so that the server is read 80 times and no more.
pub proof fn law_polls_run_out(read: PipeReadView, wait: PortWaitView, n: nat)
    ensures
        wait.after(read).polls_left == wait.polls_left,
        n <= 80 ==> polled_times(PortWaitView::start(), n).polls_left == 80 - n,
        n >= 80 ==> polled_times(PortWaitView::start(), n).polls_left == 0,
    decreases n,
{
    if n > 0 {
        law_polls_run_out(read, wait, (n - 1) as nat);
    }
}

} // verus!
