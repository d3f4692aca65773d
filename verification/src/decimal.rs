//! Whole numbers as decimal text, and back.

use vstd::prelude::*;

verus! {

/// The character for the digit `d`, a number from 0 to 9.
pub open spec fn digit_char(d: int) -> char {
    (48 + d) as u8 as char
}

/// The digit that `c` stands for, if it is one of `0` to `9`.
pub open spec fn digit_value(c: char) -> Option<int> {
    if 48 <= c as u32 <= 57 {
        Some(c as u32 - 48)
    } else {
        None
    }
}

/// `n` in decimal digits, without leading zeros.
pub open spec fn render_nat(n: nat) -> Seq<char>
    decreases n,
{
    if n < 10 {
        seq![digit_char(n as int)]
    } else {
        render_nat(n / 10).push(digit_char((n % 10) as int))
    }
}

/// The number that the decimal digits of `text` stand for. Leading zeros are
/// accepted; anything but digits, and no digit at all, is not.
pub open spec fn parse_nat(text: Seq<char>) -> Option<nat>
    decreases text.len(),
{
    if text.len() == 0 {
        None
    } else if text.len() == 1 {
        match digit_value(text[0]) {
            Some(d) => Some(d as nat),
            None => None,
        }
    } else {
        match (parse_nat(text.drop_last()), digit_value(text.last())) {
            (Some(high), Some(d)) => Some((10 * high + d) as nat),
            _ => None,
        }
    }
}

/// `n` in decimal digits, with a minus sign in front when negative.
pub open spec fn render_int(n: int) -> Seq<char> {
    if n < 0 {
        seq!['-'] + render_nat((-n) as nat)
    } else {
        render_nat(n as nat)
    }
}

/// The number that `text` stands for: decimal digits, with or without a minus
/// sign in front.
pub open spec fn parse_int(text: Seq<char>) -> Option<int> {
    if text.len() > 0 && text[0] == '-' {
        match parse_nat(text.drop_first()) {
            Some(n) => Some(-(n as int)),
            None => None,
        }
    } else {
        match parse_nat(text) {
            Some(n) => Some(n as int),
            None => None,
        }
    }
}

/// Every character of `text` is a decimal digit.
pub open spec fn all_digits(text: Seq<char>) -> bool {
    forall|i: int| 0 <= i < text.len() ==> digit_value(#[trigger] text[i]) is Some
}

/// The digits of a number are digits, at least one of them, and they stand
/// for that number.
pub proof fn lemma_render_nat(n: nat)
    ensures
        render_nat(n).len() >= 1,
        all_digits(render_nat(n)),
        parse_nat(render_nat(n)) == Some(n),
    decreases n,
{
    if n >= 10 {
        lemma_render_nat(n / 10);
        let high = render_nat(n / 10);
        let text = render_nat(n);
        assert(text.drop_last() =~= high);
        assert forall|i: int| 0 <= i < text.len() implies digit_value(#[trigger] text[i]) is Some by {
            if i < high.len() {
                assert(text[i] == high[i]);
            }
        }
    }
}

/// The text of a number stands for that number.
pub proof fn lemma_render_int(n: int)
    ensures
        parse_int(render_int(n)) == Some(n),
        render_int(n).len() >= 1,
        forall|i: int| 0 <= i < render_int(n).len() ==> (#[trigger] render_int(n)[i]) != '\n',
{
    if n < 0 {
        lemma_render_nat((-n) as nat);
        let digits = render_nat((-n) as nat);
        assert(render_int(n).drop_first() =~= digits);
        assert forall|i: int| 0 <= i < render_int(n).len() implies (#[trigger] render_int(n)[i])
            != '\n' by {
            if i > 0 {
                assert(render_int(n)[i] == digits[i - 1]);
            }
        }
    } else {
        lemma_render_nat(n as nat);
        let digits = render_nat(n as nat);
        assert(digit_value(digits[0]) is Some);
    }
}

/// The number that `text` stands for, if it is one that 64 bits without a
/// sign can hold.
pub open spec fn parse_u64(text: Seq<char>) -> Option<u64> {
    match parse_nat(text) {
        Some(n) => if n <= u64::MAX {
            Some(n as u64)
        } else {
            None
        },
        None => None,
    }
}

/// The number that `text` stands for, if it is one that 64 bits with a sign
/// can hold.
pub open spec fn parse_i64(text: Seq<char>) -> Option<i64> {
    match parse_int(text) {
        Some(n) => if i64::MIN <= n <= i64::MAX {
            Some(n as i64)
        } else {
            None
        },
        None => None,
    }
}

/// Where text stands for a number, every character of it is a digit, and
/// each stretch of it from the start stands for a number that is no larger.
pub proof fn lemma_parse_nat_prefix(text: Seq<char>, k: int)
    requires
        parse_nat(text) is Some,
        0 < k <= text.len(),
    ensures
        all_digits(text),
        parse_nat(text.take(k)) is Some,
        parse_nat(text.take(k))->0 <= parse_nat(text)->0,
    decreases text.len(),
{
    if text.len() > 1 {
        let high = text.drop_last();
        lemma_parse_nat_prefix(high, if k < text.len() {
            k
        } else {
            k - 1
        });
        assert forall|i: int| 0 <= i < text.len() implies digit_value(#[trigger] text[i]) is Some by {
            if i < high.len() {
                assert(text[i] == high[i]);
            }
        }
        if k < text.len() {
            assert(text.take(k) =~= high.take(k));
        } else {
            assert(text.take(k) =~= text);
        }
    } else {
        assert(text.take(k) =~= text);
    }
}

/// Appends the decimal digits of `n` to `out`.
pub fn push_nat(out: &mut Vec<char>, n: u64)
    ensures
        final(out)@ == old(out)@ + render_nat(n as nat),
    decreases n,
{
    if n >= 10 {
        push_nat(out, n / 10);
    }
    out.push((48 + (n % 10) as u8) as char);
    assert(out@ =~= old(out)@ + render_nat(n as nat));
}

/// Appends `n` in decimal to `out`, with a minus sign in front when negative.
pub fn push_int(out: &mut Vec<char>, n: i64)
    ensures
        final(out)@ == old(out)@ + render_int(n as int),
{
    if n < 0 {
        out.push('-');
        push_nat(out, (-(n as i128)) as u64);
    } else {
        push_nat(out, n as u64);
    }
    assert(out@ =~= old(out)@ + render_int(n as int));
}

/// Reads the decimal digits that `text` holds from place `from` up to, not
/// including, place `to`.
pub fn read_u64_in(text: &Vec<char>, from: usize, to: usize) -> (r: Option<u64>)
    requires
        from <= to <= text.len(),
    ensures
        r == parse_u64(text@.subrange(from as int, to as int)),
{
    let ghost digits = text@.subrange(from as int, to as int);
    let mut value: u64 = 0;
    let mut i: usize = from;
    while i < to
        invariant
            from <= i <= to <= text.len(),
            digits == text@.subrange(from as int, to as int),
            i == from ==> value == 0,
            i > from ==> parse_nat(digits.take(i - from)) == Some(value as nat),
        decreases to - i,
    {
        let c: char = text[i];
        let ghost prefix = digits.take(i - from + 1);
        proof {
            assert(prefix.last() == c);
            if i > from {
                assert(prefix.drop_last() =~= digits.take(i - from));
            }
            if parse_nat(digits) is Some {
                lemma_parse_nat_prefix(digits, i - from + 1);
            }
        }
        let code: u32 = c as u32;
        if code < 48 || code > 57 {
            assert(digit_value(digits[i - from]) is None);
            return None;
        }
        let digit: u64 = (code - 48) as u64;
        assert(parse_nat(prefix) == Some((10 * value + digit) as nat));
        if value > (u64::MAX - digit) / 10 {
            return None;
        }
        value = 10 * value + digit;
        i += 1;
    }
    proof {
        assert(digits.take(digits.len() as int) =~= digits);
    }
    if i == from {
        None
    } else {
        Some(value)
    }
}

/// Reads the number that `text` holds from place `from` up to, not including,
/// place `to`: decimal digits, with or without a minus sign in front.
pub fn read_i64_in(text: &Vec<char>, from: usize, to: usize) -> (r: Option<i64>)
    requires
        from <= to <= text.len(),
    ensures
        r == parse_i64(text@.subrange(from as int, to as int)),
{
    let ghost part = text@.subrange(from as int, to as int);
    if from < to && text[from] == '-' {
        assert(text@.subrange(from + 1, to as int) =~= part.drop_first());
        match read_u64_in(text, from + 1, to) {
            Some(size) => if size <= 0x8000_0000_0000_0000 {
                Some((-(size as i128)) as i64)
            } else {
                None
            },
            None => None,
        }
    } else {
        match read_u64_in(text, from, to) {
            Some(size) => if size <= 0x7fff_ffff_ffff_ffff {
                Some(size as i64)
            } else {
                None
            },
            None => None,
        }
    }
}

} // verus!
