//! Plain text: comparing, decoding, cutting and printing.
use vstd::prelude::*;
use vstd::utf8::{decode_utf8, valid_utf8};

verus! {

/// `str`'s `==` compares the characters of two strings.
pub assume_specification[ <str as PartialEq>::eq ](s: &str, other: &str) -> (same: bool)
    ensures
        same == (s@ == other@),
;

/// Whether two texts hold the same characters.
pub fn same_text(a: &str, b: &str) -> (same: bool)
    ensures
        same == (a@ == b@),
{
    a.eq(b)
}

/// The texts one after the other.
pub fn concat(first: &str, second: &str) -> (both: String)
    ensures
        both@ == first@ + second@,
{
    let mut both: String = first.to_owned();
    both.append(second);
    both
}

/// What `String::from_utf8_lossy` makes of bytes that are not UTF-8: a text in which replacement
/// characters stand for what could not be decoded.
pub uninterp spec fn replaced_text(bytes: Seq<u8>) -> Seq<char>;

/// The text that bytes stand for.
pub open spec fn decoded(bytes: Seq<u8>) -> Seq<char> {
    if valid_utf8(bytes) {
        decode_utf8(bytes)
    } else {
        replaced_text(bytes)
    }
}

/// `String::from_utf8_lossy`: UTF-8 is decoded as it stands; what else it makes of bytes is a
/// function of the bytes, which `replaced_text` names. How that text is made up of the texts of the
/// bytes' parts is not said.
#[verifier::external_body]
pub(crate) fn decode(bytes: &[u8]) -> (text: String)
    ensures
        valid_utf8(bytes@) ==> text@ == decode_utf8(bytes@),
        !valid_utf8(bytes@) ==> text@ == replaced_text(bytes@),
{
    String::from_utf8_lossy(bytes).into_owned()
}

/// The characters of a text, one by one.
pub fn chars_of(text: &str) -> (chars: Vec<char>)
    ensures
        chars@ == text@,
{
    let mut chars: Vec<char> = Vec::new();
    for c in it: text.chars()
        invariant
            it.seq() == text@,
            chars@ == text@.take(it.index()),
    {
        chars.push(c);
        proof {
            assert(text@.take(it.index() + 1) == text@.take(it.index()).push(c));
        }
    }
    proof {
        assert(text@.take(text@.len() as int) == text@);
    }
    chars
}

/// The place of the first `c` in `s`; the length of `s` where there is none.
pub open spec fn index_of_char(s: Seq<char>, c: char) -> int
    decreases s.len(),
{
    if s.len() == 0 || s[0] == c {
        0
    } else {
        1 + index_of_char(s.drop_first(), c)
    }
}

/// `index_of_char` is the one place where `c` stands, or the end, with no `c` before it.
pub proof fn lemma_index_of_char(s: Seq<char>, c: char, k: int)
    requires
        0 <= k <= s.len(),
        k < s.len() ==> s[k] == c,
        forall|i: int| 0 <= i < k ==> s[i] != c,
    ensures
        index_of_char(s, c) == k,
    decreases s.len(),
{
    if k > 0 {
        let rest = s.drop_first();
        assert forall|i: int| 0 <= i < k - 1 implies rest[i] != c by {
            assert(rest[i] == s[i + 1]);
        }
        lemma_index_of_char(rest, c, k - 1);
    }
}

/// Nothing before `index_of_char` is `c`.
pub proof fn lemma_before_index_of_char(s: Seq<char>, c: char)
    ensures
        0 <= index_of_char(s, c) <= s.len(),
        index_of_char(s, c) < s.len() ==> s[index_of_char(s, c)] == c,
        forall|i: int| 0 <= i < index_of_char(s, c) ==> s[i] != c,
    decreases s.len(),
{
    if s.len() > 0 && s[0] != c {
        let rest = s.drop_first();
        lemma_before_index_of_char(rest, c);
        assert forall|i: int| 0 <= i < index_of_char(s, c) implies s[i] != c by {
            if i > 0 {
                assert(rest[i - 1] == s[i]);
            }
        }
    }
}

/// The first line of a text whose first newline stands at `end`: what is before the newline,
/// without the carriage return that may belong to it. A line that the text's end ends keeps
/// its carriage return.
pub open spec fn first_line(s: Seq<char>, end: int) -> Seq<char> {
    if 0 < end < s.len() && s[end - 1] == '\r' {
        s.take(end - 1)
    } else {
        s.take(end)
    }
}

/// The lines of a text, each ended by a newline, a carriage return and a newline, or the end.
pub open spec fn lines(s: Seq<char>) -> Seq<Seq<char>>
    decreases s.len(),
{
    if s.len() == 0 {
        seq![]
    } else {
        proof {
            lemma_before_index_of_char(s, '\n');
        }
        let end = index_of_char(s, '\n');
        if end < s.len() {
            seq![first_line(s, end)] + lines(s.skip(end + 1))
        } else {
            seq![first_line(s, end)]
        }
    }
}

/// The characters of the parts, one part after the other.
pub open spec fn joined(parts: Seq<Seq<char>>) -> Seq<char>
    decreases parts.len(),
{
    if parts.len() == 0 {
        seq![]
    } else {
        joined(parts.drop_last()) + parts.last()
    }
}

} // verus!
