//! Decimal text: how numbers are written in addresses, requests and messages.

use vstd::prelude::*;
use vstd::string::StrSliceExecFns;
use vstd::string::StringExecFns;
use vstd::string::StringSliceAdditionalSpecFns;

verus! {

/// The character that writes the digit `d`.
pub open spec fn digit_char(d: int) -> char {
    if d == 0 {
        '0'
    } else if d == 1 {
        '1'
    } else if d == 2 {
        '2'
    } else if d == 3 {
        '3'
    } else if d == 4 {
        '4'
    } else if d == 5 {
        '5'
    } else if d == 6 {
        '6'
    } else if d == 7 {
        '7'
    } else if d == 8 {
        '8'
    } else {
        '9'
    }
}

/// Whether `c` is one of `0` to `9`.
pub open spec fn is_digit(c: char) -> bool {
    '0' <= c && c <= '9'
}

/// The digit that `c` writes.
pub open spec fn digit_value(c: char) -> int {
    c as int - '0' as int
}

/// Whether every character of `s` is a digit.
pub open spec fn all_digits(s: Seq<char>) -> bool {
    forall|i: int| 0 <= i < s.len() ==> is_digit(#[trigger] s[i])
}

/// The number that the digits `s` write, most significant first.
pub open spec fn decimal_value(s: Seq<char>) -> int
    decreases s.len(),
{
    if s.len() == 0 {
        0
    } else {
        decimal_value(s.drop_last()) * 10 + digit_value(s.last())
    }
}

/// `n` written in decimal, without sign or leading zeros.
pub open spec fn decimal_digits(n: nat) -> Seq<char>
    decreases n,
{
    if n < 10 {
        seq![digit_char(n as int)]
    } else {
        decimal_digits(n / 10).push(digit_char((n % 10) as int))
    }
}

/// The part of an unsigned decimal field after its optional `+`.
pub open spec fn unsigned_digits(s: Seq<char>) -> Seq<char> {
    if s.len() > 0 && s[0] == '+' {
        s.subrange(1, s.len() as int)
    } else {
        s
    }
}

/// What an unsigned decimal field means: an optional `+`, then at least one
/// digit, and a value of at most `max`. Anything else means nothing.
pub open spec fn parse_unsigned(s: Seq<char>, max: int) -> Option<int> {
    let digits = unsigned_digits(s);
    if digits.len() > 0 && all_digits(digits) && decimal_value(digits) <= max {
        Some(decimal_value(digits))
    } else {
        None
    }
}

/// The digits of a number are digits, at least one of them, none of them a
/// sign or a colon, and they write that number.
pub proof fn lemma_decimal_digits(n: nat)
    ensures
        decimal_digits(n).len() > 0,
        all_digits(decimal_digits(n)),
        decimal_value(decimal_digits(n)) == n,
        forall|i: int|
            0 <= i < decimal_digits(n).len() ==> #[trigger] decimal_digits(n)[i] != ':'
                && decimal_digits(n)[i] != '+',
    decreases n,
{
    if n < 10 {
        let s = decimal_digits(n);
        assert(s.drop_last() =~= Seq::<char>::empty());
        assert(decimal_value(s.drop_last()) == 0);
    } else {
        lemma_decimal_digits(n / 10);
        let p = decimal_digits(n / 10);
        let s = decimal_digits(n);
        assert(s.drop_last() =~= p);
        assert(s.last() == digit_char((n % 10) as int));
        assert forall|i: int| 0 <= i < s.len() implies is_digit(#[trigger] s[i]) && s[i] != ':'
            && s[i] != '+' by {
            if i < p.len() {
                assert(s[i] == p[i]);
            }
        }
    }
}

/// Reading a number back from its digits gives the number.
pub proof fn lemma_parse_decimal_digits(n: nat, max: int)
    ensures
        parse_unsigned(decimal_digits(n), max) == if n <= max {
            Some(n as int)
        } else {
            None
        },
{
    lemma_decimal_digits(n);
    assert(decimal_digits(n)[0] != '+');
}

/// A prefix of a run of digits writes no more than the whole run.
pub proof fn lemma_decimal_prefix(s: Seq<char>, k: int)
    requires
        all_digits(s),
        0 <= k <= s.len(),
    ensures
        0 <= decimal_value(s.subrange(0, k)) <= decimal_value(s),
    decreases s.len() - k,
{
    lemma_decimal_nonnegative(s.subrange(0, k));
    if k < s.len() {
        lemma_decimal_prefix(s, k + 1);
        let next = s.subrange(0, k + 1);
        assert(next.drop_last() =~= s.subrange(0, k));
        assert(is_digit(s[k]));
        assert(next.last() == s[k]);
    } else {
        assert(s.subrange(0, k) =~= s);
    }
}

/// A run of digits writes a number that is not negative.
pub proof fn lemma_decimal_nonnegative(s: Seq<char>)
    requires
        all_digits(s),
    ensures
        decimal_value(s) >= 0,
    decreases s.len(),
{
    if s.len() > 0 {
        assert(is_digit(s[s.len() - 1]));
        lemma_decimal_nonnegative(s.drop_last());
    }
}

/// The text of one digit.
fn digit_str(d: u64) -> (r: &'static str)
    requires
        d < 10,
    ensures
        r@ == seq![digit_char(d as int)],
{
    proof {
        reveal_strlit("0");
        reveal_strlit("1");
        reveal_strlit("2");
        reveal_strlit("3");
        reveal_strlit("4");
        reveal_strlit("5");
        reveal_strlit("6");
        reveal_strlit("7");
        reveal_strlit("8");
        reveal_strlit("9");
    }
    let r = if d == 0 {
        "0"
    } else if d == 1 {
        "1"
    } else if d == 2 {
        "2"
    } else if d == 3 {
        "3"
    } else if d == 4 {
        "4"
    } else if d == 5 {
        "5"
    } else if d == 6 {
        "6"
    } else if d == 7 {
        "7"
    } else if d == 8 {
        "8"
    } else {
        "9"
    };
    assert(r@ =~= seq![digit_char(d as int)]);
    r
}

/// Writes `n` in decimal.
pub fn format_decimal(n: u64) -> (r: String)
    ensures
        r@ == decimal_digits(n as nat),
    decreases n,
{
    if n < 10 {
        String::from_str(digit_str(n))
    } else {
        let mut s = format_decimal(n / 10);
        s.append(digit_str(n % 10));
        assert(s@ =~= decimal_digits(n as nat));
        s
    }
}

/// Reads an unsigned decimal field whose value is at most `max`.
pub fn parse_decimal(s: &str, max: u64) -> (r: Option<u64>)
    ensures
        match r {
            Some(v) => parse_unsigned(s@, max as int) == Some(v as int),
            None => parse_unsigned(s@, max as int) is None,
        },
{
    let n: usize = s.unicode_len();
    let ghost start: int = if n > 0 && s@[0] == '+' {
        1
    } else {
        0
    };
    let ghost digits: Seq<char> = unsigned_digits(s@);
    assert(digits =~= s@.subrange(start, n as int));
    let mut value: u64 = 0;
    let mut seen: usize = 0;
    let mut i: usize = 0;
    for c in it: s.chars()
        invariant
            it.seq() == s@,
            n == s@.len(),
            i == it.index(),
            start == (if n > 0 && s@[0] == '+' { 1int } else { 0int }),
            digits == unsigned_digits(s@),
            digits =~= s@.subrange(start, n as int),
            i == 0 ==> seen == 0,
            i > 0 ==> seen == i - start,
            all_digits(digits.subrange(0, seen as int)),
            value as int == decimal_value(digits.subrange(0, seen as int)),
            value <= max,
    {
        if i == 0 && c == '+' {
        } else {
            let ghost k = seen as int;
            assert(digits[k] == c);
            if !(c >= '0' && c <= '9') {
                assert(!is_digit(digits[k]));
                return None;
            }
            let d: u64 = ((c as u32) - ('0' as u32)) as u64;
            proof {
                let next = digits.subrange(0, k + 1);
                assert(next.drop_last() =~= digits.subrange(0, k));
                assert(next.last() == c);
                assert forall|j: int| 0 <= j < next.len() implies is_digit(#[trigger] next[j]) by {
                    if j < k {
                        assert(digits.subrange(0, k)[j] == next[j]);
                    }
                }
                assert(decimal_value(next) == value * 10 + d);
            }
            if d > max || value > (max - d) / 10 {
                proof {
                    let next = digits.subrange(0, k + 1);
                    assert(decimal_value(next) > max);
                    if all_digits(digits) {
                        lemma_decimal_prefix(digits, k + 1);
                    }
                }
                return None;
            }
            value = value * 10 + d;
            seen = seen + 1;
        }
        i = i + 1;
    }
    proof {
        assert(i == n);
        assert(digits.subrange(0, seen as int) =~= digits);
    }
    if seen == 0 {
        None
    } else {
        Some(value)
    }
}

/// The bytes of text in which every character is ASCII.
pub open spec fn ascii_bytes(s: Seq<char>) -> Seq<u8> {
    Seq::new(s.len(), |i: int| s[i] as u8)
}

/// The ASCII byte of one digit.
fn digit_byte(d: u64) -> (b: u8)
    requires
        d < 10,
    ensures
        b == digit_char(d as int) as u8,
{
    (d + 48) as u8
}

/// Appends `n` in decimal, as ASCII bytes.
pub fn append_decimal(out: &mut Vec<u8>, n: u64)
    ensures
        final(out)@ == old(out)@ + ascii_bytes(decimal_digits(n as nat)),
    decreases n,
{
    if n < 10 {
        out.push(digit_byte(n));
        assert(out@ =~= old(out)@ + ascii_bytes(decimal_digits(n as nat)));
    } else {
        append_decimal(out, n / 10);
        out.push(digit_byte(n % 10));
        assert(out@ =~= old(out)@ + ascii_bytes(decimal_digits(n as nat)));
    }
}

/// Appends the ASCII text `text`.
pub fn append_ascii(out: &mut Vec<u8>, text: &str)
    requires
        text.is_ascii(),
    ensures
        final(out)@ == old(out)@ + ascii_bytes(text@),
{
    let bytes = text.as_bytes();
    proof {
        vstd::string::is_ascii_spec_bytes(text);
        assert(text.spec_bytes() =~= ascii_bytes(text@));
    }
    let mut i: usize = 0;
    while i < bytes.len()
        invariant
            i <= bytes.len(),
            bytes@ == ascii_bytes(text@),
            out@ == old(out)@ + bytes@.subrange(0, i as int),
        decreases bytes.len() - i,
    {
        out.push(bytes[i]);
        i = i + 1;
        assert(out@ =~= old(out)@ + bytes@.subrange(0, i as int));
    }
    assert(bytes@.subrange(0, i as int) =~= bytes@);
}

} // verus!
