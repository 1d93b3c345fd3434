//! Learning the server's TCP port from what it prints while it starts.
use vstd::prelude::*;
use vstd::slice::slice_subrange;
use vstd::utf8::encode_utf8;

use crate::number::{digit_at, is_digit, parse_u16, u16_of};
use crate::text::{chars_of, decode, decoded};

verus! {

/// How often the server's output is read before it is given up.
pub const MAX_POLLS: u32 = 80;

/// How many milliseconds to wait for output where there is none yet.
pub const WAIT_MILLIS: u32 = 50;

/// `needle` stands in `buf` at `pos`.
pub open spec fn found_at(buf: Seq<u8>, needle: Seq<u8>, pos: int) -> bool {
    &&& 0 <= pos
    &&& pos + needle.len() <= buf.len()
    &&& buf.subrange(pos, pos + needle.len()) == needle
}

/// `needle` stands in `buf` at `pos` and nowhere before.
pub open spec fn first_found_at(buf: Seq<u8>, needle: Seq<u8>, pos: int) -> bool {
    found_at(buf, needle, pos) && forall|j: int| j < pos ==> !#[trigger] found_at(buf, needle, j)
}

/// Where `needle` stands in `buf` first.
pub open spec fn first_found(buf: Seq<u8>, needle: Seq<u8>) -> Option<int> {
    if exists|pos: int| first_found_at(buf, needle, pos) {
        Some(choose|pos: int| first_found_at(buf, needle, pos))
    } else {
        None
    }
}

/// What the server prints before its address.
pub open spec fn announcement() -> Seq<u8> {
    encode_utf8("listening on http://"@)
}

/// The line that announces the server's address, from the announcement on and without its
/// newline; `None` until the whole line is there.
pub open spec fn announced_line(output: Seq<u8>) -> Option<Seq<u8>> {
    match first_found(output, announcement()) {
        Some(pos) => match first_found(output.skip(pos), seq![10u8]) {
            Some(end) => Some(output.subrange(pos, pos + end)),
            None => None,
        },
        None => None,
    }
}

/// What follows the last colon; all of it where there is no colon.
pub open spec fn after_last_colon(s: Seq<char>) -> Seq<char>
    decreases s.len(),
{
    if s.len() == 0 || s.last() == ':' {
        seq![]
    } else {
        after_last_colon(s.drop_last()).push(s.last())
    }
}

/// The characters with Unicode's property `White_Space`.
pub open spec fn white_space(c: char) -> bool {
    let n = c as int;
    ||| 0x09 <= n <= 0x0d
    ||| n == 0x20
    ||| n == 0x85
    ||| n == 0xa0
    ||| n == 0x1680
    ||| 0x2000 <= n <= 0x200a
    ||| 0x2028 <= n <= 0x2029
    ||| n == 0x202f
    ||| n == 0x205f
    ||| n == 0x3000
}

/// `s` without the white space at its start.
pub open spec fn trim_start(s: Seq<char>) -> Seq<char>
    decreases s.len(),
{
    if s.len() > 0 && white_space(s[0]) {
        trim_start(s.drop_first())
    } else {
        s
    }
}

/// `s` without the white space at its end.
pub open spec fn trim_end(s: Seq<char>) -> Seq<char>
    decreases s.len(),
{
    if s.len() > 0 && white_space(s.last()) {
        trim_end(s.drop_last())
    } else {
        s
    }
}

/// `s` up to its last digit.
pub open spec fn up_to_last_digit(s: Seq<char>) -> Seq<char>
    decreases s.len(),
{
    if s.len() > 0 && !is_digit(s.last()) {
        up_to_last_digit(s.drop_last())
    } else {
        s
    }
}

/// The port in the line that announces an address: the number after the last colon, with white
/// space round it and anything but digits behind it left out.
pub open spec fn port_of_line(line: Seq<char>) -> Option<u16> {
    u16_of(up_to_last_digit(trim_end(trim_start(after_last_colon(line)))))
}

/// The port that the server's output announces.
pub open spec fn announced_port(output: Seq<u8>) -> Option<u16> {
    match announced_line(output) {
        Some(line) => port_of_line(decoded(line)),
        None => None,
    }
}

/// There is one first place at most.
pub proof fn lemma_first_found(buf: Seq<u8>, needle: Seq<u8>, pos: int)
    requires
        first_found_at(buf, needle, pos),
    ensures
        first_found(buf, needle) == Some(pos),
{
    let k = choose|k: int| first_found_at(buf, needle, k);
    assert(first_found_at(buf, needle, k));
    assert(found_at(buf, needle, pos) && found_at(buf, needle, k));
}

/// Finds where `needle` stands in `buf` first.
pub fn find(buf: &[u8], needle: &[u8]) -> (pos: Option<usize>)
    requires
        needle@.len() > 0,
    ensures
        match pos {
            Some(i) => first_found(buf@, needle@) == Some(i as int),
            None => first_found(buf@, needle@) is None,
        },
{
    let n: usize = buf.len();
    let mut i: usize = 0;
    while i < n && needle.len() <= n - i
        invariant
            n == buf@.len(),
            i <= n,
            needle@.len() > 0,
            forall|j: int| j < i ==> !#[trigger] found_at(buf@, needle@, j),
        decreases buf@.len() - i,
    {
        let mut k: usize = 0;
        while k < needle.len() && buf[i + k] == needle[k]
            invariant
                n == buf@.len(),
                k <= needle@.len(),
                i + needle@.len() <= n,
                forall|m: int| 0 <= m < k ==> buf@[i + m] == needle@[m],
            decreases needle@.len() - k,
        {
            k += 1;
        }
        if k == needle.len() {
            proof {
                assert(buf@.subrange(i as int, i + needle@.len()) =~= needle@);
                assert(first_found_at(buf@, needle@, i as int));
                lemma_first_found(buf@, needle@, i as int);
            }
            return Some(i);
        }
        proof {
            assert(buf@.subrange(i as int, i + needle@.len())[k as int] != needle@[k as int]);
        }
        i += 1;
    }
    None
}

/// Whether `c` has Unicode's property `White_Space`.
fn is_white_space(c: char) -> (yes: bool)
    ensures
        yes == white_space(c),
{
    let n: u32 = c as u32;
    (0x09 <= n && n <= 0x0d) || n == 0x20 || n == 0x85 || n == 0xa0 || n == 0x1680 || (0x2000 <= n
        && n <= 0x200a) || n == 0x2028 || n == 0x2029 || n == 0x202f || n == 0x205f || n == 0x3000
}

/// Reads the port in the line that announces an address.
pub fn port_in_line(line: &str) -> (port: Option<u16>)
    ensures
        port == port_of_line(line@),
{
    let chars = chars_of(line);
    let ghost s = chars@;
    let mut lo: usize = chars.len();
    let mut hi: usize = chars.len();
    proof {
        assert(s.take(s.len() as int) =~= s);
        assert(s.subrange(lo as int, hi as int) =~= seq![]);
        assert(after_last_colon(s) + seq![] =~= after_last_colon(s));
    }
    while lo > 0 && chars[lo - 1] != ':'
        invariant
            lo <= hi == s.len(),
            chars@ == s,
            after_last_colon(s) == after_last_colon(s.take(lo as int)) + s.subrange(
                lo as int,
                hi as int,
            ),
        decreases lo,
    {
        proof {
            assert(s.take(lo as int).drop_last() =~= s.take(lo - 1));
            assert(after_last_colon(s.take(lo as int)) == after_last_colon(s.take(lo - 1)).push(
                s[lo - 1],
            ));
            assert(after_last_colon(s.take(lo as int)) + s.subrange(lo as int, hi as int)
                =~= after_last_colon(s.take(lo - 1)) + s.subrange(lo - 1, hi as int));
        }
        lo -= 1;
    }
    let ghost number = s.subrange(lo as int, hi as int);
    proof {
        assert(after_last_colon(s.take(lo as int)) =~= seq![]);
        assert(after_last_colon(s) =~= number);
    }
    while lo < hi && is_white_space(chars[lo])
        invariant
            lo <= hi == s.len(),
            chars@ == s,
            trim_start(number) == trim_start(s.subrange(lo as int, hi as int)),
        decreases hi - lo,
    {
        proof {
            assert(s.subrange(lo as int, hi as int).drop_first() =~= s.subrange(
                lo + 1,
                hi as int,
            ));
        }
        lo += 1;
    }
    let ghost started = s.subrange(lo as int, hi as int);
    while lo < hi && is_white_space(chars[hi - 1])
        invariant
            lo <= hi <= s.len(),
            chars@ == s,
            trim_end(started) == trim_end(s.subrange(lo as int, hi as int)),
        decreases hi - lo,
    {
        proof {
            assert(s.subrange(lo as int, hi as int).drop_last() =~= s.subrange(
                lo as int,
                hi - 1,
            ));
        }
        hi -= 1;
    }
    let ghost trimmed = s.subrange(lo as int, hi as int);
    while lo < hi && !digit_at(chars[hi - 1])
        invariant
            lo <= hi <= s.len(),
            chars@ == s,
            up_to_last_digit(trimmed) == up_to_last_digit(s.subrange(lo as int, hi as int)),
        decreases hi - lo,
    {
        proof {
            assert(s.subrange(lo as int, hi as int).drop_last() =~= s.subrange(
                lo as int,
                hi - 1,
            ));
        }
        hi -= 1;
    }
    parse_u16(&chars, lo, hi)
}

/// Reads the port that the server's output announces.
pub fn scan_port(output: &[u8]) -> (port: Option<u16>)
    ensures
        port == announced_port(output@),
{
    proof {
        reveal_strlit("listening on http://");
        vstd::utf8::encode_utf8_first_scalar("listening on http://"@);
    }
    let needle = "listening on http://";
    match find(output, needle.as_bytes()) {
        Some(pos) => {
            proof {
                assert(first_found_at(output@, announcement(), pos as int));
            }
            let rest = slice_subrange(output, pos, output.len());
            proof {
                assert(rest@ =~= output@.skip(pos as int));
            }
            let newline: Vec<u8> = vec![10u8];
            proof {
                assert(newline@ =~= seq![10u8]);
            }
            match find(rest, newline.as_slice()) {
                Some(end) => {
                    proof {
                        assert(first_found_at(rest@, seq![10u8], end as int));
                        assert(rest@.subrange(0, end as int) =~= output@.subrange(
                            pos as int,
                            pos + end,
                        ));
                    }
                    let line = decode(slice_subrange(rest, 0, end));
                    port_in_line(line.as_str())
                },
                None => None,
            }
        },
        None => None,
    }
}

/// What a read of the server's output came to.
#[derive(Debug, PartialEq, Eq)]
pub enum PipeRead {
    Data { bytes: Vec<u8> },
    Empty,
    Eof,
    Failed,
}

/// What a `PipeRead` says.
pub enum PipeReadView {
    Data { bytes: Seq<u8> },
    Empty,
    Eof,
    Failed,
}

impl View for PipeRead {
    type V = PipeReadView;

    open spec fn view(&self) -> PipeReadView {
        match *self {
            PipeRead::Data { bytes } => PipeReadView::Data { bytes: bytes@ },
            PipeRead::Empty => PipeReadView::Empty,
            PipeRead::Eof => PipeReadView::Eof,
            PipeRead::Failed => PipeReadView::Failed,
        }
    }
}

/// What to do after a read of the server's output.
#[derive(Debug, PartialEq, Eq)]
pub enum PortStep {
    /// The server listens on this port.
    Found { port: u16 },
    /// Read again.
    Poll,
    /// Wait for output, then read again.
    Wait,
    /// There will be no port.
    GiveUp,
}

/// The wait for the server's port: what the server has printed, and how often it may still be
/// read.
#[derive(Debug, PartialEq, Eq)]
pub struct PortWait {
    pub output: Vec<u8>,
    pub polls_left: u32,
}

/// What a `PortWait` holds.
pub struct PortWaitView {
    pub output: Seq<u8>,
    pub polls_left: u32,
}

impl View for PortWait {
    type V = PortWaitView;

    open spec fn view(&self) -> PortWaitView {
        PortWaitView { output: self.output@, polls_left: self.polls_left }
    }
}

impl PortWaitView {
    /// The wait before the first read.
    pub open spec fn start() -> PortWaitView {
        PortWaitView { output: seq![], polls_left: 80 }
    }

    /// The wait with one read less to go.
    pub open spec fn polled(self) -> PortWaitView {
        if self.polls_left > 0 {
            PortWaitView { output: self.output, polls_left: (self.polls_left - 1) as u32 }
        } else {
            self
        }
    }

    /// The wait once a read has come back.
    pub open spec fn after(self, read: PipeReadView) -> PortWaitView {
        match read {
            PipeReadView::Data { bytes } => PortWaitView {
                output: self.output + bytes,
                polls_left: self.polls_left,
            },
            _ => self,
        }
    }

    /// What to do once a read has come back.
    pub open spec fn step(self, read: PipeReadView) -> PortStep {
        match read {
            PipeReadView::Data { bytes } => match announced_port(self.output + bytes) {
                Some(port) => PortStep::Found { port },
                None => PortStep::Poll,
            },
            PipeReadView::Empty => PortStep::Wait,
            PipeReadView::Eof => PortStep::GiveUp,
            PipeReadView::Failed => PortStep::GiveUp,
        }
    }
}

impl PortWait {
    /// The wait before the first read.
    pub fn new() -> (wait: PortWait)
        ensures
            wait@ == PortWaitView::start(),
    {
        PortWait { output: Vec::new(), polls_left: MAX_POLLS }
    }

    /// Whether the server may be read once more; if so, that read is counted.
    pub fn next_poll(&mut self) -> (may: bool)
        ensures
            may == (old(self)@.polls_left > 0),
            final(self)@ == old(self)@.polled(),
    {
        if self.polls_left > 0 {
            self.polls_left = self.polls_left - 1;
            true
        } else {
            false
        }
    }
}

/// Takes in what a read of the server's output came to.
pub fn wait_for_port(wait: &mut PortWait, read: PipeRead) -> (step: PortStep)
    ensures
        final(wait)@ == old(wait)@.after(read@),
        step == old(wait)@.step(read@),
{
    match read {
        PipeRead::Data { bytes } => {
            let mut bytes: Vec<u8> = bytes;
            wait.output.append(&mut bytes);
            match scan_port(wait.output.as_slice()) {
                Some(port) => PortStep::Found { port },
                None => PortStep::Poll,
            }
        },
        PipeRead::Empty => PortStep::Wait,
        PipeRead::Eof => PortStep::GiveUp,
        PipeRead::Failed => PortStep::GiveUp,
    }
}

} // verus!
