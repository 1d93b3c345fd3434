//! Terminal bytes as text: the standard base64, by the crate `base64`.
use base64::engine::general_purpose::STANDARD;
use base64::Engine;
use vstd::prelude::*;

verus! {

/// Why `base64` refused a text.
#[verifier::external_type_specification]
#[verifier::external_body]
pub struct ExDecodeError(base64::DecodeError);

/// The character that stands for six bits: letters, digits, plus and slash.
pub open spec fn six_bits(n: int) -> char {
    if n < 26 {
        ('A' as u32 + n) as u32 as char
    } else if n < 52 {
        ('a' as u32 + (n - 26)) as u32 as char
    } else if n < 62 {
        ('0' as u32 + (n - 52)) as u32 as char
    } else if n == 62 {
        '+'
    } else {
        '/'
    }
}

/// The standard base64 text of bytes: four characters for every three bytes, and for one or two
/// bytes at the end, which are filled up with zeros and the four characters with `=`.
pub open spec fn base64_text(bytes: Seq<u8>) -> Seq<char>
    decreases bytes.len(),
{
    let a = bytes[0] as int;
    let b = bytes[1] as int;
    let c = bytes[2] as int;
    if bytes.len() == 0 {
        seq![]
    } else if bytes.len() == 1 {
        seq![six_bits(a / 4), six_bits(a % 4 * 16), '=', '=']
    } else if bytes.len() == 2 {
        seq![six_bits(a / 4), six_bits(a % 4 * 16 + b / 16), six_bits(b % 16 * 4), '=']
    } else {
        seq![
            six_bits(a / 4),
            six_bits(a % 4 * 16 + b / 16),
            six_bits(b % 16 * 4 + c / 64),
            six_bits(c % 64),
        ] + base64_text(bytes.skip(3))
    }
}

/// The bytes that a standard base64 text stands for; `None` where it is not such a text.
pub open spec fn base64_bytes(text: Seq<char>) -> Option<Seq<u8>> {
    if exists|bytes: Seq<u8>| #[trigger] base64_text(bytes) == text {
        Some(choose|bytes: Seq<u8>| #[trigger] base64_text(bytes) == text)
    } else {
        None
    }
}

/// The six bits that a character stands for.
spec fn bits_of(c: char) -> int {
    if 'A' <= c <= 'Z' {
        c as int - 'A' as int
    } else if 'a' <= c <= 'z' {
        c as int - 'a' as int + 26
    } else if '0' <= c <= '9' {
        c as int - '0' as int + 52
    } else if c == '+' {
        62
    } else {
        63
    }
}

/// Every six bits have a character of their own, and none of these is `=`.
proof fn lemma_six_bits(n: int)
    requires
        0 <= n < 64,
    ensures
        bits_of(six_bits(n)) == n,
        six_bits(n) != '=',
{
    if n < 26 {
        vstd::utf8::char_u32_cast(six_bits(n), (65 + n) as u32);
    } else if n < 52 {
        vstd::utf8::char_u32_cast(six_bits(n), (97 + (n - 26)) as u32);
    } else if n < 62 {
        vstd::utf8::char_u32_cast(six_bits(n), (48 + (n - 52)) as u32);
    }
}

/// The characters for the first bytes give the bytes back.
proof fn lemma_first_bytes(bytes: Seq<u8>)
    requires
        bytes.len() > 0,
    ensures
        ({
            let text = base64_text(bytes);
            let a = bits_of(text[0]);
            let b = bits_of(text[1]);
            let c = bits_of(text[2]);
            let d = bits_of(text[3]);
            &&& text.len() >= 4
            &&& text[2] == '=' <==> bytes.len() == 1
            &&& text[3] == '=' <==> bytes.len() <= 2
            &&& bytes[0] == a * 4 + b / 16
            &&& bytes.len() > 1 ==> bytes[1] == b % 16 * 16 + c / 4
            &&& bytes.len() > 2 ==> bytes[2] == c % 4 * 64 + d
            &&& bytes.len() > 2 ==> base64_text(bytes.skip(3)) == text.skip(4)
            &&& bytes.len() <= 2 ==> text.len() == 4
        }),
{
    let text = base64_text(bytes);
    let a = bytes[0] as int;
    let b = bytes[1] as int;
    let c = bytes[2] as int;
    lemma_six_bits(a / 4);
    lemma_six_bits(a % 4 * 16);
    lemma_six_bits(a % 4 * 16 + b / 16);
    lemma_six_bits(b % 16 * 4);
    lemma_six_bits(b % 16 * 4 + c / 64);
    lemma_six_bits(c % 64);
    if bytes.len() > 2 {
        assert(text.skip(4) =~= base64_text(bytes.skip(3)));
    }
}

/// Different bytes have different texts.
proof fn lemma_base64_text_is_injective(a: Seq<u8>, b: Seq<u8>)
    requires
        base64_text(a) == base64_text(b),
    ensures
        a == b,
    decreases a.len(),
{
    if a.len() > 0 {
        lemma_first_bytes(a);
    }
    if b.len() > 0 {
        lemma_first_bytes(b);
    }
    if a.len() > 2 && b.len() > 2 {
        lemma_base64_text_is_injective(a.skip(3), b.skip(3));
        assert forall|i: int| 0 <= i < a.len() implies a[i] == b[i] by {
            if i >= 3 {
                assert(a[i] == a.skip(3)[i - 3]);
                assert(b[i] == b.skip(3)[i - 3]);
            }
        }
        assert(a.skip(3).len() == b.skip(3).len());
    }
    assert(a =~= b);
}

/// The text that stands for bytes is read as these bytes, and a text that is read as bytes is
/// the one that stands for them.
pub proof fn law_base64_is_read_back(bytes: Seq<u8>, text: Seq<char>)
    ensures
        base64_bytes(base64_text(bytes)) == Some(bytes),
        base64_bytes(text) == Some(bytes) <==> text == base64_text(bytes),
{
    let read = base64_bytes(base64_text(bytes));
    assert(base64_text(read->0) == base64_text(bytes));
    lemma_base64_text_is_injective(read->0, bytes);
}

/// `Engine::encode` of `base64`'s `STANDARD`: the alphabet of `six_bits`, with padding. It panics
/// where the text is longer than a vector can be.
#[verifier::external_body]
pub(crate) fn encode(bytes: &[u8]) -> (text: String)
    requires
        bytes@.len() / 3 * 4 + 4 <= isize::MAX,
    ensures
        text@ == base64_text(bytes@),
{
    STANDARD.encode(bytes)
}

/// `Engine::decode` of `base64`'s `STANDARD`: it wants the padding, and no bits set in what fills
/// up the last bytes, so that it reads a text as bytes where `encode` gives the text for the
/// bytes, and refuses any other text.
#[verifier::external_body]
fn decode_text(text: &str) -> (bytes: Result<Vec<u8>, base64::DecodeError>)
    ensures
        match bytes {
            Ok(decoded) => text@ == base64_text(decoded@),
            Err(_) => forall|other: Seq<u8>| text@ != #[trigger] base64_text(other),
        },
{
    STANDARD.decode(text)
}

/// Reads a standard base64 text.
pub fn decode(text: &str) -> (bytes: Option<Vec<u8>>)
    ensures
        match bytes {
            Some(decoded) => base64_bytes(text@) == Some(decoded@),
            None => base64_bytes(text@) is None,
        },
{
    match decode_text(text) {
        Ok(decoded) => {
            proof {
                law_base64_is_read_back(decoded@, text@);
            }
            Some(decoded)
        },
        Err(_) => None,
    }
}

} // verus!
