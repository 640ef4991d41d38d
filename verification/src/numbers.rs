//! Numbers as text.
use vstd::prelude::*;

use crate::chars::{chars_of, digit, is_digit};

verus! {

/// A number below sixteen as a digit.
pub open spec fn digit_char(d: int) -> char {
    if d < 10 {
        (48 + d) as char
    } else {
        (87 + d) as char
    }
}

/// The decimal digits of a number.
pub open spec fn dec(n: nat) -> Seq<char>
    decreases n,
{
    if n < 10 {
        seq![digit_char(n as int)]
    } else {
        dec(n / 10).push(digit_char((n % 10) as int))
    }
}

/// The last `width` hexadecimal digits of a number.
pub open spec fn hex(n: nat, width: nat) -> Seq<char>
    decreases width,
{
    if width == 0 {
        Seq::empty()
    } else {
        hex(n / 16, (width - 1) as nat).push(digit_char((n % 16) as int))
    }
}

fn digit_of(d: u8) -> (r: char)
    requires
        d < 16,
    ensures
        r == digit_char(d as int),
{
    if d < 10 {
        (48 + d) as char
    } else {
        (87 + d) as char
    }
}

pub fn dec_text(n: u64) -> (r: String)
    ensures
        r@ == dec(n as nat),
{
    wide_text(n as u128)
}

pub fn wide_text(n: u128) -> (r: String)
    ensures
        r@ == dec(n as nat),
    decreases n,
{
    if n < 10 {
        let mut s = String::new();
        s.push(digit_of(n as u8));
        assert(s@ =~= dec(n as nat));
        s
    } else {
        let mut s = wide_text(n / 10);
        s.push(digit_of((n % 10) as u8));
        s
    }
}

pub fn hex_text(n: u64, width: usize) -> (r: String)
    ensures
        r@ == hex(n as nat, width as nat),
    decreases width,
{
    if width == 0 {
        let s = String::new();
        assert(s@ =~= hex(n as nat, 0));
        s
    } else {
        let mut s = hex_text(n / 16, width - 1);
        s.push(digit_of((n % 16) as u8));
        s
    }
}

/// The number that some decimal digits write.
pub open spec fn value(s: Seq<char>) -> nat
    decreases s.len(),
{
    if s.len() == 0 {
        0
    } else {
        (value(s.drop_last()) * 10 + (s.last() as int - 48)) as nat
    }
}

/// Is it one digit or more, and nothing else?
pub open spec fn is_number(s: Seq<char>) -> bool {
    s.len() > 0 && forall|i: int| 0 <= i < s.len() ==> is_digit(#[trigger] s[i])
}

/// The number in the text: decimal digits, which a '+' may lead, of a value that
/// 64 bits hold.
pub open spec fn parsed_u64(s: Seq<char>) -> Option<u64> {
    let t = if s.len() > 0 && s[0] == '+' {
        s.drop_first()
    } else {
        s
    };
    if is_number(t) && value(t) <= u64::MAX {
        Some(value(t) as u64)
    } else {
        None
    }
}

proof fn value_grows(s: Seq<char>, n: int)
    requires
        0 <= n <= s.len(),
        forall|i: int| 0 <= i < s.len() ==> is_digit(#[trigger] s[i]),
    ensures
        value(s.take(n)) <= value(s),
    decreases s.len() - n,
{
    if n == s.len() {
        assert(s.take(n) =~= s);
    } else {
        value_grows(s, n + 1);
        assert(s.take(n + 1).drop_last() =~= s.take(n));
        assert(is_digit(s[n]));
    }
}

pub fn parse_u64(s: &str) -> (r: Option<u64>)
    ensures
        r == parsed_u64(s@),
{
    let x = chars_of(s);
    let mut i: usize = 0;
    if x.len() > 0 && x[0] == '+' {
        i = 1;
    }
    let from: usize = i;
    let ghost t = s@.skip(from as int);
    assert(t =~= if s@.len() > 0 && s@[0] == '+' {
        s@.drop_first()
    } else {
        s@
    });
    if from == x.len() {
        return None;
    }
    let mut v: u64 = 0;
    assert(t.take(0) =~= Seq::empty());
    while i < x.len()
        invariant
            x@ == s@,
            from <= i <= x@.len(),
            from < x@.len(),
            t == s@.skip(from as int),
            parsed_u64(s@) == (if is_number(t) && value(t) <= u64::MAX {
                Some(value(t) as u64)
            } else {
                None
            }),
            forall|j: int| 0 <= j < i - from ==> is_digit(#[trigger] t[j]),
            v == value(t.take(i - from)),
        decreases x@.len() - i,
    {
        let c = x[i];
        assert(t[i - from] == c);
        if !digit(c) {
            return None;
        }
        let d: u64 = (c as u8 - 48) as u64;
        assert(t.take(i - from + 1).drop_last() =~= t.take(i - from));
        if v > (u64::MAX - d) / 10 {
            proof {
                if is_number(t) {
                    value_grows(t, i - from + 1);
                }
                assert(v * 10 + d > u64::MAX);
            }
            return None;
        }
        v = v * 10 + d;
        i += 1;
    }
    assert(t.take(i - from) =~= t);
    Some(v)
}

} // verus!
