//! Bytes of a file: little-endian numbers and literal text in them.
use vstd::prelude::*;

use crate::chars::{chars_of, lower_char, to_lower};

verus! {

/// The value of the `n` bytes at `o`, the lowest first.
pub open spec fn le_value(b: Seq<u8>, o: int, n: nat) -> int
    decreases n,
{
    if n == 0 {
        0
    } else {
        b[o] + 256 * le_value(b, o + 1, (n - 1) as nat)
    }
}

/// The `n`-byte number at `o`, where the bytes reach that far.
pub open spec fn number_at(b: Seq<u8>, o: int, n: nat) -> Option<int> {
    if 0 <= o && o + n <= b.len() {
        Some(le_value(b, o, n))
    } else {
        None
    }
}

/// The text stands in the bytes at `i`, one byte for each character.
pub open spec fn text_at(b: Seq<u8>, t: Seq<char>, i: int) -> bool {
    &&& 0 <= i
    &&& i + t.len() <= b.len()
    &&& forall|k: int| 0 <= k < t.len() ==> #[trigger] b[i + k] as int == t[k] as int
}

/// The text stands somewhere in the bytes.
pub open spec fn holds_text(b: Seq<u8>, t: Seq<char>) -> bool {
    exists|i: int| text_at(b, t, i)
}

/// The text stands in the bytes at `i`, but for the case of ASCII letters.
pub open spec fn text_at_fold(b: Seq<u8>, t: Seq<char>, i: int) -> bool {
    &&& 0 <= i
    &&& i + t.len() <= b.len()
    &&& forall|k: int|
        0 <= k < t.len() ==> lower_char(#[trigger] b[i + k] as char) == lower_char(t[k])
}

pub open spec fn holds_text_fold(b: Seq<u8>, t: Seq<char>) -> bool {
    exists|i: int| text_at_fold(b, t, i)
}

pub fn read_u16(b: &[u8], o: u64) -> (r: Option<u16>)
    ensures
        match r {
            Some(v) => number_at(b@, o as int, 2) == Some(v as int),
            None => number_at(b@, o as int, 2) is None,
        },
{
    let n: u64 = b.len() as u64;
    if n < 2 || o > n - 2 {
        return None;
    }
    let i: usize = o as usize;
    proof {
        reveal_with_fuel(le_value, 3);
    }
    Some(b[i] as u16 + 256 * (b[i + 1] as u16))
}

pub fn read_u32(b: &[u8], o: u64) -> (r: Option<u32>)
    ensures
        match r {
            Some(v) => number_at(b@, o as int, 4) == Some(v as int),
            None => number_at(b@, o as int, 4) is None,
        },
{
    let n: u64 = b.len() as u64;
    if n < 4 || o > n - 4 {
        return None;
    }
    let i: usize = o as usize;
    proof {
        reveal_with_fuel(le_value, 5);
    }
    Some(
        b[i] as u32 + 256 * (b[i + 1] as u32) + 65536 * (b[i + 2] as u32) + 16777216 * (b[i
            + 3] as u32),
    )
}

pub fn read_u64(b: &[u8], o: u64) -> (r: Option<u64>)
    ensures
        match r {
            Some(v) => number_at(b@, o as int, 8) == Some(v as int),
            None => number_at(b@, o as int, 8) is None,
        },
{
    let n: u64 = b.len() as u64;
    if n < 8 || o > n - 8 {
        return None;
    }
    proof {
        reveal_with_fuel(le_value, 9);
    }
    match (read_u32(b, o), read_u32(b, o + 4)) {
        (Some(lo), Some(hi)) => Some(lo as u64 + 4294967296 * (hi as u64)),
        _ => None,
    }
}

/// Does the text stand in the bytes at `i`?
fn stands(b: &[u8], t: &[char], i: usize, fold: bool) -> (r: bool)
    requires
        i + t@.len() <= b@.len(),
    ensures
        !fold ==> r == text_at(b@, t@, i as int),
        fold ==> r == text_at_fold(b@, t@, i as int),
{
    let n: usize = b.len();
    let mut k: usize = 0;
    while k < t.len()
        invariant
            n == b@.len(),
            i + t@.len() <= b@.len(),
            k <= t@.len(),
            !fold ==> forall|j: int| 0 <= j < k ==> #[trigger] b@[i + j] as int == t@[j] as int,
            fold ==> forall|j: int|
                0 <= j < k ==> lower_char(#[trigger] b@[i + j] as char) == lower_char(t@[j]),
        decreases t@.len() - k,
    {
        let c: char = b[i + k] as char;
        let same = if fold {
            to_lower(c) == to_lower(t[k])
        } else {
            c == t[k]
        };
        if !same {
            assert(b@[i + k] as char == c);
            return false;
        }
        k += 1;
    }
    true
}

fn search(b: &[u8], t: &str, fold: bool) -> (r: bool)
    ensures
        !fold ==> r == holds_text(b@, t@),
        fold ==> r == holds_text_fold(b@, t@),
{
    let x = chars_of(t);
    if x.len() > b.len() {
        return false;
    }
    let last: usize = b.len() - x.len();
    let mut i: usize = 0;
    loop
        invariant
            x@ == t@,
            i <= last,
            last + x@.len() == b@.len(),
            !fold ==> forall|j: int| 0 <= j < i ==> !text_at(b@, t@, j),
            fold ==> forall|j: int| 0 <= j < i ==> !text_at_fold(b@, t@, j),
        decreases last - i,
    {
        if stands(b, x.as_slice(), i, fold) {
            return true;
        }
        if i == last {
            return false;
        }
        i += 1;
    }
}

/// Does the text stand somewhere in the bytes?
pub fn has_text(b: &[u8], t: &str) -> (r: bool)
    ensures
        r == holds_text(b@, t@),
{
    search(b, t, false)
}

/// The same, but for the case of ASCII letters.
pub fn has_text_fold(b: &[u8], t: &str) -> (r: bool)
    ensures
        r == holds_text_fold(b@, t@),
{
    search(b, t, true)
}

} // verus!
