//! Decimal notation: reading and writing 32-bit signed integers.

use vstd::prelude::*;
use crate::text::{push_char, to_chars};

verus! {

/// Whether `c` is one of the ten decimal digits.
pub open spec fn is_digit(c: char) -> bool {
    '0' <= c <= '9'
}

/// The value of the digit `c`.
pub open spec fn digit_value(c: char) -> int {
    c as int - '0' as int
}

/// The character that stands for the digit `d`.
pub open spec fn digit_char(d: int) -> char {
    ('0' as int + d) as char
}

/// Whether `s` holds digits only.
pub open spec fn all_digits(s: Seq<char>) -> bool {
    forall|i: int| 0 <= i < s.len() ==> is_digit(#[trigger] s[i])
}

/// The number that a string of digits denotes; the empty string denotes 0.
pub open spec fn digits_value(s: Seq<char>) -> nat
    decreases s.len(),
{
    if s.len() == 0 {
        0
    } else {
        (digits_value(s.drop_last()) * 10 + digit_value(s.last())) as nat
    }
}

/// The integer that `s` denotes: an optional sign, `+` or `-`, followed by
/// one digit or more, and nothing else.
pub open spec fn integer_value(s: Seq<char>) -> Option<int> {
    let signed = s.len() > 0 && (s[0] == '-' || s[0] == '+');
    let body = if signed {
        s.subrange(1, s.len() as int)
    } else {
        s
    };
    if body.len() > 0 && all_digits(body) {
        if signed && s[0] == '-' {
            Some(-(digits_value(body) as int))
        } else {
            Some(digits_value(body) as int)
        }
    } else {
        None
    }
}

/// The 32-bit integer that `s` denotes, if it denotes an integer and that integer fits.
pub open spec fn spec_parse_i32(s: Seq<char>) -> Option<i32> {
    match integer_value(s) {
        Some(v) => if i32::MIN <= v <= i32::MAX {
            Some(v as i32)
        } else {
            None
        },
        None => None,
    }
}

/// The digits of `n`, most significant first, without leading zeros.
pub open spec fn digits(n: nat) -> Seq<char>
    decreases n,
{
    if n < 10 {
        seq![digit_char(n as int)]
    } else {
        digits(n / 10).push(digit_char((n % 10) as int))
    }
}

/// The decimal notation of `v`, with a leading `-` if it is negative.
pub open spec fn decimal(v: int) -> Seq<char> {
    if v < 0 {
        seq!['-'] + digits((-v) as nat)
    } else {
        digits(v as nat)
    }
}

/// A string of digits denotes at least what any of its prefixes denotes.
pub proof fn lemma_digits_value_prefix(s: Seq<char>, k: int)
    requires
        all_digits(s),
        0 <= k <= s.len(),
    ensures
        digits_value(s.take(k)) <= digits_value(s),
    decreases s.len() - k,
{
    if k == s.len() {
        assert(s.take(k) =~= s);
    } else {
        lemma_digits_value_prefix(s, k + 1);
        assert(s.take(k + 1).drop_last() =~= s.take(k));
        assert(is_digit(s[k]));
        assert(s.take(k + 1).last() == s[k]);
    }
}

/// The digits of a number denote that number.
pub proof fn lemma_digits_round_trip(n: nat)
    ensures
        digits(n).len() > 0,
        all_digits(digits(n)),
        digits_value(digits(n)) == n,
    decreases n,
{
    if n < 10 {
        let s = digits(n);
        assert(s.drop_last() =~= Seq::<char>::empty());
        assert(digits_value(s.drop_last()) == 0);
    } else {
        lemma_digits_round_trip(n / 10);
        let s = digits(n);
        assert(s.drop_last() =~= digits(n / 10));
        assert(s.last() == digit_char((n % 10) as int));
    }
}

/// Reading what was written gives the number back.
pub proof fn lemma_parse_decimal(v: i32)
    ensures
        spec_parse_i32(decimal(v as int)) == Some(v),
{
    let s = decimal(v as int);
    if v < 0 {
        let n = (-(v as int)) as nat;
        lemma_digits_round_trip(n);
        assert(s.subrange(1, s.len() as int) =~= digits(n));
        assert(s[0] == '-');
    } else {
        let n = v as nat;
        lemma_digits_round_trip(n);
        assert(is_digit(s[0]));
    }
}

/// The value of the digit `c`.
fn digit_of(c: char) -> (d: u8)
    requires
        is_digit(c),
    ensures
        d == digit_value(c),
        d < 10,
{
    ((c as u32) - ('0' as u32)) as u8
}

/// The character that stands for the digit `d`.
fn char_of(d: u8) -> (c: char)
    requires
        d < 10,
    ensures
        c == digit_char(d as int),
{
    (48u8 + d) as char
}

/// Reads a 32-bit signed integer in decimal notation: an optional sign
/// followed by one digit or more. Anything else, and a number that does not
/// fit, gives `None`.
pub fn parse_i32(text: &str) -> (value: Option<i32>)
    ensures
        value == spec_parse_i32(text@),
{
    let chars = to_chars(text);
    let n = chars.len();
    if n == 0 {
        return None;
    }
    let negative = chars[0] == '-';
    let start: usize = if negative || chars[0] == '+' {
        1
    } else {
        0
    };
    if start == n {
        return None;
    }
    let ghost signed = text@[0] == '-' || text@[0] == '+';
    let ghost body = if signed {
        text@.subrange(1, n as int)
    } else {
        text@
    };
    assert(body =~= chars@.subrange(start as int, n as int));
    let limit: i64 = if negative {
        2147483648
    } else {
        2147483647
    };
    let mut acc: i64 = 0;
    let mut i: usize = start;
    while i < n
        invariant
            start <= i <= n,
            n == chars.len(),
            n > 0,
            chars@ == text@,
            negative == (text@[0] == '-'),
            signed == (text@[0] == '-' || text@[0] == '+'),
            body == if signed {
                text@.subrange(1, n as int)
            } else {
                text@
            },
            body.len() == n - start,
            forall|k: int| 0 <= k < n - start ==> body[k] == chars@[start + k],
            limit == if negative {
                2147483648i64
            } else {
                2147483647i64
            },
            all_digits(body.take(i - start)),
            acc == digits_value(body.take(i - start)),
            0 <= acc <= limit,
        decreases n - i,
    {
        let c = chars[i];
        if !(c >= '0' && c <= '9') {
            assert(!is_digit(body[i - start]));
            return None;
        }
        let d = digit_of(c);
        let next: i64 = acc * 10 + d as i64;
        proof {
            let longer = body.take(i - start + 1);
            assert(longer.drop_last() =~= body.take(i - start));
            assert(longer.last() == c);
            assert(all_digits(longer)) by {
                assert forall|k: int| 0 <= k < longer.len() implies is_digit(
                    #[trigger] longer[k],
                ) by {
                    if k < longer.len() - 1 {
                        assert(longer[k] == body.take(i - start)[k]);
                    }
                }
            }
            assert(next == digits_value(longer));
            if next > limit {
                if all_digits(body) {
                    lemma_digits_value_prefix(body, i - start + 1);
                }
            }
        }
        if next > limit {
            return None;
        }
        acc = next;
        i += 1;
    }
    assert(body.take(n - start) =~= body);
    if negative {
        Some((-acc) as i32)
    } else {
        Some(acc as i32)
    }
}

/// Writes `value` in decimal notation.
pub fn format_i32(value: i32) -> (text: String)
    ensures
        text@ == decimal(value as int),
{
    let mut rest: u32 = if value < 0 {
        (-(value as i64)) as u32
    } else {
        value as u32
    };
    let ghost magnitude = rest as nat;
    let mut low: Vec<char> = Vec::new();
    while rest >= 10
        invariant
            digits(magnitude) == digits(rest as nat) + low@.reverse(),
        decreases rest,
    {
        let c = char_of((rest % 10) as u8);
        proof {
            let ghost longer = low@.push(c);
            assert(longer.reverse() =~= seq![c] + low@.reverse());
            assert(digits(rest as nat) == digits((rest / 10) as nat).push(c));
            assert(digits((rest / 10) as nat).push(c) + low@.reverse() =~= digits(
                (rest / 10) as nat,
            ) + longer.reverse());
        }
        low.push(c);
        rest = rest / 10;
    }
    let mut text = String::new();
    if value < 0 {
        push_char(&mut text, '-');
    }
    push_char(&mut text, char_of(rest as u8));
    let ghost head = text@;
    assert(head + low@.reverse() =~= decimal(value as int));
    let mut i: usize = low.len();
    while i > 0
        invariant
            i <= low.len(),
            text@ == head + low@.reverse().take(low.len() - i),
        decreases i,
    {
        i -= 1;
        push_char(&mut text, low[i]);
        assert(low@.reverse().take(low.len() - i) =~= low@.reverse().take(low.len() - i - 1).push(
            low@[i as int],
        ));
    }
    assert(low@.reverse().take(low.len() as int) =~= low@.reverse());
    text
}

} // verus!
