//! Whole numbers as text: written in decimal, and read back.

use vstd::prelude::*;
use vstd::string::StringExecFns;

verus! {

/// Whether `c` is one of `0` to `9`.
pub open spec fn is_digit(c: char) -> bool {
    '0' <= c <= '9'
}

/// The number that the digit `c` stands for.
pub open spec fn digit_value(c: char) -> int {
    c as int - '0' as int
}

/// The digit that stands for `n`, for `n` from 0 to 9.
pub open spec fn digit_char(n: int) -> char {
    (n + '0' as int) as char
}

/// The digits of `n`, the most significant first.
pub open spec fn digits_of(n: nat) -> Seq<char>
    decreases n,
{
    if n < 10 {
        seq![digit_char(n as int)]
    } else {
        digits_of(n / 10).push(digit_char((n % 10) as int))
    }
}

/// `i` written in decimal, with a `-` in front where it is negative.
pub open spec fn decimal(i: int) -> Seq<char> {
    if i < 0 {
        seq!['-'] + digits_of((-i) as nat)
    } else {
        digits_of(i as nat)
    }
}

/// Whether `s` holds digits only.
pub open spec fn all_digits(s: Seq<char>) -> bool {
    forall|i: int| 0 <= i < s.len() ==> is_digit(#[trigger] s[i])
}

/// The number that the digits `s` write, the most significant first.
pub open spec fn value_of(s: Seq<char>) -> nat
    decreases s.len(),
{
    if s.len() == 0 {
        0
    } else {
        (value_of(s.drop_last()) * 10 + digit_value(s.last())) as nat
    }
}

/// The number that `s` writes, if it is one and lies between `low` and `high`:
/// digits, with a `+` or, where `signed`, a `-` allowed in front of them.
pub open spec fn parse_number(s: Seq<char>, signed: bool, low: int, high: int) -> Option<int> {
    if s.len() > 0 && s[0] == '-' && signed {
        let digits = s.skip(1);
        if digits.len() > 0 && all_digits(digits) && low <= -value_of(digits) {
            Some(-(value_of(digits) as int))
        } else {
            None
        }
    } else {
        let digits = if s.len() > 0 && s[0] == '+' {
            s.skip(1)
        } else {
            s
        };
        if digits.len() > 0 && all_digits(digits) && value_of(digits) <= high {
            Some(value_of(digits) as int)
        } else {
            None
        }
    }
}

/// The 64-bit signed number that `s` writes, if it is one.
pub open spec fn parse_i64(s: Seq<char>) -> Option<int> {
    parse_number(s, true, i64::MIN as int, i64::MAX as int)
}

/// The 16-bit unsigned number that `s` writes, if it is one.
pub open spec fn parse_u16(s: Seq<char>) -> Option<int> {
    parse_number(s, false, 0, u16::MAX as int)
}

/// The characters of a text.
pub fn chars_of(text: &str) -> (chars: Vec<char>)
    ensures
        chars@ == text@,
{
    broadcast use vstd::string::group_string_axioms;

    let mut chars: Vec<char> = Vec::new();
    for c in it: text.chars()
        invariant
            it.seq() == text@,
            chars@ == it.seq().take(it.index()),
    {
        chars.push(c);
        proof {
            assert(it.seq().take(it.index() + 1) =~= it.seq().take(it.index()).push(c));
        }
    }
    proof {
        assert(text@.take(text@.len() as int) =~= text@);
    }
    chars
}

/// The text of one digit.
fn digit_text(digit: u8) -> (text: &'static str)
    requires
        digit < 10,
    ensures
        text@ == seq![digit_char(digit as int)],
{
    proof {
        reveal_strlit("0");
        reveal_strlit("1");
        reveal_strlit("2");
        reveal_strlit("3");
        reveal_strlit("4");
        reveal_strlit("5");
        reveal_strlit("6");
        reveal_strlit("7");
        reveal_strlit("8");
        reveal_strlit("9");
    }
    let text = match digit {
        0 => "0",
        1 => "1",
        2 => "2",
        3 => "3",
        4 => "4",
        5 => "5",
        6 => "6",
        7 => "7",
        8 => "8",
        _ => "9",
    };
    assert(text@ =~= seq![digit_char(digit as int)]);
    text
}

/// The digits of `rest`, or nothing where it is 0.
spec fn leading_digits(rest: nat) -> Seq<char> {
    if rest == 0 {
        Seq::empty()
    } else {
        digits_of(rest)
    }
}

/// Writes `value` in decimal.
pub fn decimal_text(value: i64) -> (text: String)
    ensures
        text@ == decimal(value as int),
{
    let negative = value < 0;
    let magnitude: u64 = if negative {
        (-(value + 1)) as u64 + 1
    } else {
        value as u64
    };
    let mut backwards: Vec<u8> = Vec::new();
    backwards.push((magnitude % 10) as u8);
    let mut rest: u64 = magnitude / 10;
    proof {
        assert(digits_of(magnitude as nat) =~= leading_digits(rest as nat) + seq![
            digit_char(backwards@[0] as int),
        ]);
    }
    while rest > 0
        invariant
            backwards@.len() > 0,
            forall|k: int| 0 <= k < backwards@.len() ==> backwards@[k] < 10,
            digits_of(magnitude as nat) == leading_digits(rest as nat) + Seq::new(
                backwards@.len(),
                |k: int| digit_char(backwards@[backwards@.len() - 1 - k] as int),
            ),
        decreases rest,
    {
        let ghost before = backwards@;
        let ghost tail = Seq::new(
            before.len(),
            |k: int| digit_char(before[before.len() - 1 - k] as int),
        );
        backwards.push((rest % 10) as u8);
        proof {
            let digit = digit_char((rest % 10) as int);
            assert(leading_digits(rest as nat) =~= leading_digits((rest / 10) as nat) + seq![digit]);
            assert(Seq::new(
                backwards@.len(),
                |k: int| digit_char(backwards@[backwards@.len() - 1 - k] as int),
            ) =~= seq![digit] + tail);
            assert(leading_digits((rest / 10) as nat) + (seq![digit] + tail) =~= (leading_digits(
                (rest / 10) as nat,
            ) + seq![digit]) + tail);
        }
        rest = rest / 10;
    }
    let mut text = if negative {
        "-".to_owned()
    } else {
        String::new()
    };
    proof {
        reveal_strlit("-");
        assert(negative ==> text@ =~= seq!['-']);
    }
    let ghost sign = text@;
    let ghost digits = digits_of(magnitude as nat);
    let mut left: usize = backwards.len();
    while left > 0
        invariant
            left <= backwards@.len(),
            forall|k: int| 0 <= k < backwards@.len() ==> backwards@[k] < 10,
            digits == Seq::new(
                backwards@.len(),
                |k: int| digit_char(backwards@[backwards@.len() - 1 - k] as int),
            ),
            text@ == sign + digits.take(backwards@.len() - left),
        decreases left,
    {
        left -= 1;
        let ghost before = text@;
        text.append(digit_text(backwards[left]));
        proof {
            let at = backwards@.len() - 1 - left;
            assert(digits[at] == digit_char(backwards@[left as int] as int));
            assert(digits.take(at + 1) =~= digits.take(at).push(digits[at]));
            assert(text@ =~= sign + digits.take(at + 1));
        }
    }
    proof {
        assert(digits.take(backwards@.len() as int) =~= digits);
        assert(decimal(value as int) =~= sign + digits);
    }
    text
}

/// More digits write no smaller a number.
proof fn lemma_value_grows(s: Seq<char>, k: int)
    requires
        all_digits(s),
        0 <= k <= s.len(),
    ensures
        value_of(s.take(k)) <= value_of(s),
    decreases s.len() - k,
{
    if k < s.len() {
        lemma_value_grows(s, k + 1);
        assert(s.take(k + 1).drop_last() =~= s.take(k));
        assert(is_digit(s[k]));
    } else {
        assert(s.take(k) =~= s);
    }
}

/// Reads the digits of `chars` from the place `from` up to the place `to`, if
/// there are only digits there, at least one, and they write no more than
/// `limit`.
fn read_digits(chars: &Vec<char>, from: usize, to: usize, limit: u64) -> (value: Option<u64>)
    requires
        from <= to <= chars@.len(),
        limit <= 0x8000_0000_0000_0000,
    ensures
        value == if from < to && all_digits(chars@.subrange(from as int, to as int)) && value_of(
            chars@.subrange(from as int, to as int),
        ) <= limit {
            Some(value_of(chars@.subrange(from as int, to as int)) as u64)
        } else {
            None
        },
{
    let ghost digits = chars@.subrange(from as int, to as int);
    if from == to {
        return None;
    }
    let mut read: u64 = 0;
    let mut i: usize = from;
    while i < to
        invariant
            from <= i <= to <= chars@.len(),
            digits == chars@.subrange(from as int, to as int),
            limit <= 0x8000_0000_0000_0000,
            all_digits(digits.take(i - from)),
            read == value_of(digits.take(i - from)),
            read <= limit,
        decreases to - i,
    {
        let c = chars[i];
        let ghost seen = digits.take(i - from + 1);
        proof {
            assert(digits[i - from] == c);
            assert(seen.drop_last() =~= digits.take(i - from));
            assert(seen.last() == c);
        }
        if !(c >= '0' && c <= '9') {
            proof {
                assert(!is_digit(digits[i - from]));
            }
            return None;
        }
        let digit: u64 = (c as u64) - ('0' as u64);
        if digit > limit || read > (limit - digit) / 10 {
            proof {
                assert(value_of(seen) > limit);
                if all_digits(digits) {
                    lemma_value_grows(digits, i - from + 1);
                }
            }
            return None;
        }
        read = read * 10 + digit;
        proof {
            assert forall|k: int| 0 <= k < seen.len() implies is_digit(#[trigger] seen[k]) by {
                if k < seen.len() - 1 {
                    assert(seen[k] == digits.take(i - from)[k]);
                }
            }
        }
        i += 1;
    }
    proof {
        assert(digits.take(i - from) =~= digits);
    }
    Some(read)
}

/// Reads a 64-bit signed number from the first `to` of `chars`: digits, with a
/// `+` or a `-` allowed in front.
pub fn read_i64_in(chars: &Vec<char>, to: usize) -> (value: Option<i64>)
    requires
        to <= chars@.len(),
    ensures
        value is Some <==> parse_i64(chars@.take(to as int)) is Some,
        value matches Some(v) ==> parse_i64(chars@.take(to as int)) == Some(v as int),
{
    let ghost s = chars@.take(to as int);
    if to > 0 && chars[0] == '-' {
        proof {
            assert(s.skip(1) =~= chars@.subrange(1, to as int));
        }
        match read_digits(chars, 1, to, 0x8000_0000_0000_0000) {
            Some(magnitude) => {
                if magnitude == 0x8000_0000_0000_0000 {
                    Some(i64::MIN)
                } else {
                    Some(-(magnitude as i64))
                }
            },
            None => None,
        }
    } else {
        let from: usize = if to > 0 && chars[0] == '+' {
            1
        } else {
            0
        };
        proof {
            if to > 0 {
                assert(s.skip(1) =~= chars@.subrange(1, to as int));
            }
            assert(s =~= chars@.subrange(0, to as int));
        }
        match read_digits(chars, from, to, 0x7fff_ffff_ffff_ffff) {
            Some(magnitude) => Some(magnitude as i64),
            None => None,
        }
    }
}

/// Reads a 64-bit signed number: digits, with a `+` or a `-` allowed in front.
pub fn read_i64(text: &str) -> (value: Option<i64>)
    ensures
        value is Some <==> parse_i64(text@) is Some,
        value matches Some(v) ==> parse_i64(text@) == Some(v as int),
{
    let chars = chars_of(text);
    proof {
        assert(chars@.take(chars@.len() as int) =~= chars@);
    }
    read_i64_in(&chars, chars.len())
}

/// Reads a 16-bit unsigned number: digits, with a `+` allowed in front.
pub fn read_u16(text: &str) -> (value: Option<u16>)
    ensures
        value is Some <==> parse_u16(text@) is Some,
        value matches Some(v) ==> parse_u16(text@) == Some(v as int),
{
    let chars = chars_of(text);
    let from: usize = if chars.len() > 0 && chars[0] == '+' {
        1
    } else {
        0
    };
    proof {
        if chars@.len() > 0 {
            assert(chars@.skip(1) =~= chars@.subrange(1, chars@.len() as int));
        }
        assert(chars@ =~= chars@.subrange(0, chars@.len() as int));
    }
    match read_digits(&chars, from, chars.len(), 0xffff) {
        Some(magnitude) => Some(magnitude as u16),
        None => None,
    }
}

/// A number that is written and read again is the same number.
pub proof fn lemma_written_number_reads_back(n: nat)
    ensures
        digits_of(n).len() > 0,
        all_digits(digits_of(n)),
        value_of(digits_of(n)) == n,
    decreases n,
{
    if n < 10 {
        let s = digits_of(n);
        assert(s.drop_last() =~= Seq::<char>::empty());
        assert(value_of(s.drop_last()) == 0);
    } else {
        lemma_written_number_reads_back(n / 10);
        let s = digits_of(n);
        assert(s.drop_last() =~= digits_of(n / 10));
        assert(s.last() == digit_char((n % 10) as int));
    }
}

} // verus!
