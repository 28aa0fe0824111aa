//! Decimal integers: parsing as `str::parse` does for `u64` and `i64`, and
//! rendering as `to_string` does.
use vstd::prelude::*;
use crate::text::{push_char, string_of};

verus! {

/// Whether `c` is an ASCII decimal digit.
pub open spec fn is_digit(c: char) -> bool {
    48 <= (c as u32) && (c as u32) <= 57
}

/// The value of the decimal digit `c`.
pub open spec fn digit_value(c: char) -> nat {
    ((c as u32) - 48) as nat
}

/// The value of a string of decimal digits.
pub open spec fn digits_value(s: Seq<char>) -> nat
    decreases s.len(),
{
    if s.len() == 0 {
        0
    } else {
        digits_value(s.drop_last()) * 10 + digit_value(s.last())
    }
}

/// The value of `s` when it is a non-empty string of decimal digits.
pub open spec fn magnitude(s: Seq<char>) -> Option<nat> {
    if s.len() > 0 && (forall|i: int| 0 <= i < s.len() ==> is_digit(#[trigger] s[i])) {
        Some(digits_value(s))
    } else {
        None
    }
}

/// `s` without a single leading `+`.
pub open spec fn unsigned_body(s: Seq<char>) -> Seq<char> {
    if s.len() > 0 && s[0] == '+' {
        s.drop_first()
    } else {
        s
    }
}

/// What `str::parse::<u64>` gives for `s`, `None` standing for an error.
pub open spec fn parse_u64_spec(s: Seq<char>) -> Option<u64> {
    match magnitude(unsigned_body(s)) {
        Some(v) => if v <= u64::MAX {
            Some(v as u64)
        } else {
            None
        },
        None => None,
    }
}

/// What `str::parse::<i64>` gives for `s`, `None` standing for an error.
pub open spec fn parse_i64_spec(s: Seq<char>) -> Option<i64> {
    if s.len() > 0 && s[0] == '-' {
        match magnitude(s.drop_first()) {
            Some(v) => if v <= 0x8000_0000_0000_0000 {
                Some((0 - v) as i64)
            } else {
                None
            },
            None => None,
        }
    } else {
        match magnitude(unsigned_body(s)) {
            Some(v) => if v <= i64::MAX {
                Some(v as i64)
            } else {
                None
            },
            None => None,
        }
    }
}

/// The two's-complement reading of `x` as an unsigned 64-bit value (what
/// `x as u64` gives).
pub open spec fn as_unsigned(x: i64) -> u64 {
    if x >= 0 {
        x as u64
    } else {
        (x + 0x1_0000_0000_0000_0000) as u64
    }
}

/// The value of the digits of `s` from position `start`, when it is at most
/// `cap`.
fn magnitude_within(s: &Vec<char>, start: usize, cap: u64) -> (r: Option<u64>)
    requires
        start <= s.len(),
        cap >= 9,
    ensures
        r == (match magnitude(s@.skip(start as int)) {
            Some(v) => if v <= cap {
                Some(v as u64)
            } else {
                None::<u64>
            },
            None => None::<u64>,
        }),
{
    let ghost body = s@.skip(start as int);
    if start == s.len() {
        return None;
    }
    let mut i: usize = start;
    let mut acc: u64 = 0;
    let mut over: bool = false;
    assert(s@.subrange(start as int, start as int) =~= Seq::<char>::empty());
    while i < s.len()
        invariant
            start < s.len(),
            cap >= 9,
            start <= i <= s.len(),
            body == s@.skip(start as int),
            forall|k: int| start <= k < i ==> is_digit(#[trigger] s@[k]),
            !over ==> acc == digits_value(s@.subrange(start as int, i as int)) && acc <= cap,
            over ==> digits_value(s@.subrange(start as int, i as int)) > cap,
        decreases s.len() - i,
    {
        let c = s[i];
        let u = c as u32;
        if u < 48 || u > 57 {
            assert(!is_digit(body[i - start]));
            return None;
        }
        let d = (u - 48) as u64;
        let ghost prev = s@.subrange(start as int, i as int);
        assert(s@.subrange(start as int, i + 1).drop_last() =~= prev);
        assert(s@.subrange(start as int, i + 1).last() == c);
        if !over {
            if acc > (cap - d) / 10 {
                assert(acc * 10 + d > cap) by (nonlinear_arith)
                    requires
                        acc > (cap - d) / 10,
                        d <= 9,
                        d <= cap,
                ;
                over = true;
            } else {
                assert(acc * 10 + d <= cap) by (nonlinear_arith)
                    requires
                        acc <= (cap - d) / 10,
                        d <= 9,
                        d <= cap,
                ;
                acc = acc * 10 + d;
            }
        }
        i = i + 1;
    }
    assert(s@.subrange(start as int, s.len() as int) =~= body);
    assert forall|k: int| 0 <= k < body.len() implies is_digit(#[trigger] body[k]) by {
        assert(body[k] == s@[start + k]);
    }
    if over {
        None
    } else {
        Some(acc)
    }
}

/// Parses `s` as `str::parse::<u64>` does.
pub fn parse_u64(s: &Vec<char>) -> (r: Option<u64>)
    ensures
        r == parse_u64_spec(s@),
{
    let start: usize = if s.len() > 0 && s[0] == '+' {
        1
    } else {
        0
    };
    assert(s@.skip(start as int) =~= unsigned_body(s@));
    magnitude_within(s, start, u64::MAX)
}

/// Parses `s` as `str::parse::<i64>` does.
pub fn parse_i64(s: &Vec<char>) -> (r: Option<i64>)
    ensures
        r == parse_i64_spec(s@),
{
    if s.len() > 0 && s[0] == '-' {
        assert(s@.skip(1) =~= s@.drop_first());
        match magnitude_within(s, 1, 0x8000_0000_0000_0000) {
            Some(v) => {
                if v == 0x8000_0000_0000_0000 {
                    Some(i64::MIN)
                } else {
                    Some(-(v as i64))
                }
            },
            None => None,
        }
    } else {
        let start: usize = if s.len() > 0 && s[0] == '+' {
            1
        } else {
            0
        };
        assert(s@.skip(start as int) =~= unsigned_body(s@));
        match magnitude_within(s, start, i64::MAX as u64) {
            Some(v) => Some(v as i64),
            None => None,
        }
    }
}

/// `x as u64`, the two's-complement reading.
pub fn to_unsigned(x: i64) -> (r: u64)
    ensures
        r == as_unsigned(x),
{
    if x >= 0 {
        x as u64
    } else {
        let m = (-(x + 1)) as u64;
        u64::MAX - m
    }
}

/// The character of the decimal digit `d`.
pub open spec fn digit_char(d: nat) -> char {
    ((48 + d) as u8) as char
}

/// The decimal rendering of `n`, without leading zeros.
pub open spec fn decimal(n: nat) -> Seq<char>
    decreases n,
{
    if n < 10 {
        seq![digit_char(n)]
    } else {
        decimal(n / 10).push(digit_char(n % 10))
    }
}

/// The decimal rendering of the signed `x`, with a `-` when negative.
pub open spec fn signed_decimal(x: int) -> Seq<char> {
    if x < 0 {
        seq!['-'] + decimal((0 - x) as nat)
    } else {
        decimal(x as nat)
    }
}

/// The digits of `n`, as characters.
fn decimal_chars(n: u128) -> (r: Vec<char>)
    ensures
        r@ == decimal(n as nat),
    decreases n,
{
    if n < 10 {
        let c = (48u8 + n as u8) as char;
        let mut v: Vec<char> = Vec::new();
        v.push(c);
        assert(v@ =~= seq![digit_char(n as nat)]);
        v
    } else {
        let mut v = decimal_chars(n / 10);
        let c = (48u8 + (n % 10) as u8) as char;
        v.push(c);
        v
    }
}

/// Renders `n` in decimal, as `to_string` does.
pub fn render_u128(n: u128) -> (r: String)
    ensures
        r@ == decimal(n as nat),
{
    string_of(&decimal_chars(n))
}

/// Renders `n` in decimal, as `to_string` does.
pub fn render_u64(n: u64) -> (r: String)
    ensures
        r@ == decimal(n as nat),
{
    render_u128(n as u128)
}

/// Renders `x` in decimal, as `to_string` does.
pub fn render_i64(x: i64) -> (r: String)
    ensures
        r@ == signed_decimal(x as int),
{
    if x < 0 {
        let m: u128 = (-(x as i128)) as u128;
        let digits = decimal_chars(m);
        let mut s = String::new();
        push_char(&mut s, '-');
        let mut i: usize = 0;
        while i < digits.len()
            invariant
                i <= digits.len(),
                s@ == seq!['-'] + digits@.take(i as int),
            decreases digits.len() - i,
        {
            push_char(&mut s, digits[i]);
            i = i + 1;
            assert(s@ =~= seq!['-'] + digits@.take(i as int));
        }
        assert(digits@.take(i as int) =~= digits@);
        s
    } else {
        render_u128(x as u128)
    }
}

} // verus!
