//! Decimal numbers, read and printed.
use vstd::prelude::*;

verus! {

/// One of the ten digits.
pub open spec fn is_digit(c: char) -> bool {
    '0' <= c <= '9'
}

/// The number that a digit denotes.
pub open spec fn digit_value(c: char) -> nat {
    (c as int - '0' as int) as nat
}

/// The digit that denotes a number below ten.
pub open spec fn digit(d: nat) -> char {
    if d == 0 {
        '0'
    } else if d == 1 {
        '1'
    } else if d == 2 {
        '2'
    } else if d == 3 {
        '3'
    } else if d == 4 {
        '4'
    } else if d == 5 {
        '5'
    } else if d == 6 {
        '6'
    } else if d == 7 {
        '7'
    } else if d == 8 {
        '8'
    } else {
        '9'
    }
}

/// The number that a row of digits denotes.
pub open spec fn value(digits: Seq<char>) -> nat
    decreases digits.len(),
{
    if digits.len() == 0 {
        0
    } else {
        value(digits.drop_last()) * 10 + digit_value(digits.last())
    }
}

/// A number in decimal, without leading zeros.
pub open spec fn decimal(n: nat) -> Seq<char>
    decreases n,
{
    if n < 10 {
        seq![digit(n)]
    } else {
        decimal(n / 10).push(digit(n % 10))
    }
}

/// The digits of a number, without the plus sign that may stand before them.
pub open spec fn unsigned_part(s: Seq<char>) -> Seq<char> {
    if s.len() > 0 && s[0] == '+' {
        s.drop_first()
    } else {
        s
    }
}

/// The number below 65536 that a text denotes: digits, at least one, perhaps after a plus sign.
pub open spec fn u16_of(s: Seq<char>) -> Option<u16> {
    let digits = unsigned_part(s);
    if digits.len() > 0 && (forall|i: int| 0 <= i < digits.len() ==> is_digit(#[trigger] digits[i]))
        && value(digits) <= 65535 {
        Some(value(digits) as u16)
    } else {
        None
    }
}

/// Whether `c` is one of the ten digits.
pub fn digit_at(c: char) -> (yes: bool)
    ensures
        yes == is_digit(c),
{
    '0' <= c && c <= '9'
}

/// Reads the characters from `lo` to `hi` as a number below 65536.
pub fn parse_u16(chars: &Vec<char>, lo: usize, hi: usize) -> (number: Option<u16>)
    requires
        lo <= hi <= chars@.len(),
    ensures
        number == u16_of(chars@.subrange(lo as int, hi as int)),
{
    let ghost s = chars@.subrange(lo as int, hi as int);
    let from: usize = if lo < hi && chars[lo] == '+' {
        lo + 1
    } else {
        lo
    };
    let ghost digits = unsigned_part(s);
    proof {
        assert(digits =~= chars@.subrange(from as int, hi as int));
    }
    if from == hi {
        return None;
    }
    let mut total: u32 = 0;
    let mut i: usize = from;
    while i < hi
        invariant
            from <= i <= hi <= chars@.len(),
            digits == chars@.subrange(from as int, hi as int),
            digits == unsigned_part(s),
            s == chars@.subrange(lo as int, hi as int),
            forall|k: int| 0 <= k < i - from ==> is_digit(#[trigger] digits[k]),
            value(digits.take(i - from)) <= 65536 ==> total == value(digits.take(i - from)),
            value(digits.take(i - from)) > 65536 ==> total == 65536,
        decreases hi - i,
    {
        let c = chars[i];
        proof {
            assert(digits[i - from] == c);
            assert(digits.take(i - from + 1).drop_last() =~= digits.take(i - from));
        }
        if !digit_at(c) {
            return None;
        }
        let next: u32 = total * 10 + (c as u32 - '0' as u32);
        total = if next > 65536 {
            65536
        } else {
            next
        };
        i += 1;
    }
    proof {
        assert(digits.take(digits.len() as int) =~= digits);
    }
    if total <= 65535 {
        Some(total as u16)
    } else {
        None
    }
}

/// The text of one digit.
fn digit_text(d: u32) -> (text: &'static str)
    requires
        d < 10,
    ensures
        text@ == seq![digit(d as nat)],
{
    proof {
        reveal_strlit("0");
        reveal_strlit("1");
        reveal_strlit("2");
        reveal_strlit("3");
        reveal_strlit("4");
        reveal_strlit("5");
        reveal_strlit("6");
        reveal_strlit("7");
        reveal_strlit("8");
        reveal_strlit("9");
    }
    let text = match d {
        0 => "0",
        1 => "1",
        2 => "2",
        3 => "3",
        4 => "4",
        5 => "5",
        6 => "6",
        7 => "7",
        8 => "8",
        _ => "9",
    };
    proof {
        assert(text@ =~= seq![digit(d as nat)]);
    }
    text
}

/// Puts a number in decimal behind a text.
pub fn append_decimal(text: &mut String, n: u32)
    ensures
        final(text)@ == old(text)@ + decimal(n as nat),
    decreases n,
{
    let ghost before = text@;
    if n >= 10 {
        append_decimal(text, n / 10);
    }
    text.append(digit_text(n % 10));
    proof {
        assert(text@ =~= before + decimal(n as nat));
    }
}

/// An integer in decimal, with a minus sign where it is negative.
pub open spec fn integer_text(n: int) -> Seq<char> {
    if n < 0 {
        "-"@ + decimal((-n) as nat)
    } else {
        decimal(n as nat)
    }
}

/// Puts an integer in decimal behind a text.
pub fn append_integer(text: &mut String, n: i32)
    ensures
        final(text)@ == old(text)@ + integer_text(n as int),
{
    let ghost before = text@;
    if n < 0 {
        text.append("-");
        append_decimal(text, (-(n as i64)) as u32);
    } else {
        append_decimal(text, n as u32);
    }
    proof {
        assert(text@ =~= before + integer_text(n as int));
    }
}

/// Every number below 65536, printed in decimal, is read back.
pub proof fn law_decimal_is_read_back(n: u16)
    ensures
        u16_of(decimal(n as nat)) == Some(n),
{
    lemma_decimal(n as nat);
    let s = decimal(n as nat);
    assert(is_digit(s[0]));
    assert(unsigned_part(s) == s);
}

/// A number in decimal consists of digits and denotes the number.
pub proof fn lemma_decimal(n: nat)
    ensures
        decimal(n).len() > 0,
        forall|i: int| 0 <= i < decimal(n).len() ==> is_digit(#[trigger] decimal(n)[i]),
        value(decimal(n)) == n,
    decreases n,
{
    reveal_with_fuel(value, 2);
    if n >= 10 {
        lemma_decimal(n / 10);
        let front = decimal(n / 10);
        assert(decimal(n).drop_last() =~= front);
        assert forall|i: int| 0 <= i < decimal(n).len() implies is_digit(
            #[trigger] decimal(n)[i],
        ) by {
            if i < front.len() {
                assert(decimal(n)[i] == front[i]);
            }
        }
    } else {
        assert(decimal(n).drop_last() =~= seq![]);
    }
}

} // verus!
