//! Windows executables: the machine that one is built for, and what its import
//! table names.
use vstd::prelude::*;

use crate::bytes::{le_value, number_at, read_u16, read_u32, read_u64};
use crate::chars::{lower, lower_string};
use crate::outside::{text_of_bytes, utf8_lossy};
use crate::strs::{str_eq, texts, texts_push};

verus! {

pub const PE_X64: u16 = 0x8664;

pub const PE_X86: u16 = 0x014C;

/// Descriptors of the import table that are read at most.
pub const MAX_DESCRIPTORS: u64 = 512;

/// Functions of one imported library that are read at most.
pub const MAX_THUNKS: u64 = 4096;

/// "MZ", with which an executable begins.
pub const MZ: u16 = 0x5A4D;

/// "PE\0\0", with which its header begins.
pub const PE_SIGNATURE: u32 = 0x4550;

/// What keeps a file from being an executable that this tool can handle.
#[derive(Debug, Clone, Copy, PartialEq, Eq, Structural)]
pub enum ExeError {
    /// It does not begin like one, or is too short for one.
    NotWindows,
    /// The header is not where it should be.
    NoHeader,
    /// It is built for another machine.
    Machine(u16),
}

/// 64 or 32 by the header's machine field, or what is wrong with the file.
pub open spec fn bitness(b: Seq<u8>) -> Result<u8, ExeError> {
    let pe = le_value(b, 0x3C, 4);
    if b.len() < 0x40 || le_value(b, 0, 2) != MZ {
        Err(ExeError::NotWindows)
    } else if pe + 6 > b.len() || le_value(b, pe, 4) != PE_SIGNATURE {
        Err(ExeError::NoHeader)
    } else if le_value(b, pe + 4, 2) == PE_X64 {
        Ok(64)
    } else if le_value(b, pe + 4, 2) == PE_X86 {
        Ok(32)
    } else {
        Err(ExeError::Machine(le_value(b, pe + 4, 2) as u16))
    }
}

/// 64 or 32, read from the PE header's Machine field.
pub fn exe_bitness(image: &[u8]) -> (r: Result<u8, ExeError>)
    ensures
        r == bitness(image@),
{
    if image.len() < 0x40 {
        return Err(ExeError::NotWindows);
    }
    let pe: u64 = match (read_u16(image, 0), read_u32(image, 0x3C)) {
        (Some(mz), Some(pe)) => {
            if mz != MZ {
                return Err(ExeError::NotWindows);
            }
            pe as u64
        },
        _ => {
            return Err(ExeError::NotWindows);
        },
    };
    match (read_u32(image, pe), read_u16(image, pe + 4)) {
        (Some(sig), Some(machine)) => {
            if sig != PE_SIGNATURE {
                Err(ExeError::NoHeader)
            } else if machine == PE_X64 {
                Ok(64)
            } else if machine == PE_X86 {
                Ok(32)
            } else {
                Err(ExeError::Machine(machine))
            }
        },
        _ => Err(ExeError::NoHeader),
    }
}

/// A section: its address, the size of its data and the data's place in the
/// file.
pub type SectionMap = (int, int, int);

/// The sections whose headers stand at `at`, one after the other.
pub open spec fn sections_at(b: Seq<u8>, at: int, n: nat) -> Option<Seq<SectionMap>>
    decreases n,
{
    if n == 0 {
        Some(Seq::empty())
    } else {
        let s = at + (n - 1) * 40;
        match sections_at(b, at, (n - 1) as nat) {
            Some(v) => if s + 24 <= b.len() {
                Some(
                    v.push((le_value(b, s + 12, 4), le_value(b, s + 16, 4), le_value(b, s + 20, 4))),
                )
            } else {
                None
            },
            None => None,
        }
    }
}

/// Where the first section that covers an address keeps it in the file.
pub open spec fn offset_from(secs: Seq<SectionMap>, rva: int, i: int) -> Option<int>
    decreases secs.len() - i,
{
    if i < 0 || i >= secs.len() {
        None
    } else if secs[i].0 <= rva < secs[i].0 + secs[i].1 {
        Some(secs[i].2 + (rva - secs[i].0))
    } else {
        offset_from(secs, rva, i + 1)
    }
}

pub open spec fn offset_of(secs: Seq<SectionMap>, rva: int) -> Option<int> {
    offset_from(secs, rva, 0)
}

/// Where the data directories stand in the optional header, by its magic: a
/// 64-bit or a 32-bit one.
pub open spec fn directories(magic: int) -> Option<int> {
    if magic == 0x20B {
        Some(112)
    } else if magic == 0x10B {
        Some(96)
    } else {
        None
    }
}

/// What the import table takes to be read.
pub struct Imports {
    pub sections: Seq<SectionMap>,
    /// Are the entries of the thunk lists eight bytes wide?
    pub wide: bool,
    /// The first descriptor.
    pub first: int,
}

/// The import table of an image; none where it has none, or is none.
pub open spec fn import_table(b: Seq<u8>) -> Option<Imports> {
    let pe = le_value(b, 0x3C, 4);
    let opt = pe + 24;
    let magic = le_value(b, opt, 2);
    if b.len() < 0x40 || le_value(b, 0, 2) != MZ {
        None
    } else if opt + 2 > b.len() || le_value(b, pe, 4) != PE_SIGNATURE {
        None
    } else {
        match directories(magic) {
            Some(dir) => {
                let rva = le_value(b, opt + dir + 8, 4);
                if opt + dir + 12 > b.len() || rva == 0 {
                    None
                } else {
                    match sections_at(b, opt + le_value(b, pe + 20, 2), le_value(b, pe + 6, 2) as nat) {
                        Some(secs) => match offset_of(secs, rva) {
                            Some(first) => Some(
                                Imports { sections: secs, wide: magic == 0x20B, first },
                            ),
                            None => None,
                        },
                        None => None,
                    }
                }
            },
            None => None,
        }
    }
}

/// The first zero byte at or after `i`.
pub open spec fn zero_from(b: Seq<u8>, i: int) -> Option<int>
    decreases b.len() - i,
{
    if i < 0 || i >= b.len() {
        None
    } else if b[i] == 0 {
        Some(i)
    } else {
        zero_from(b, i + 1)
    }
}

/// The lower-cased name at `off`, up to a zero byte; empty where none ends it,
/// and a parse problem where `off` lies outside the image.
pub open spec fn name_at(b: Seq<u8>, off: int) -> Option<Seq<char>> {
    if off > b.len() {
        None
    } else {
        match zero_from(b, off) {
            Some(end) => Some(lower(utf8_lossy(b.subrange(off, end)))),
            None => Some(lower(utf8_lossy(Seq::empty()))),
        }
    }
}

/// `v` before what follows, if that can be read.
pub open spec fn after(v: Seq<Seq<char>>, rest: Option<Seq<Seq<char>>>) -> Option<Seq<Seq<char>>> {
    match rest {
        Some(r) => Some(v + r),
        None => None,
    }
}

/// The descriptor of all zeroes, which ends the table.
pub open spec fn is_end(b: Seq<u8>, desc: int) -> bool {
    le_value(b, desc + 12, 4) == 0 && le_value(b, desc, 4) == 0
}

/// The library names of at most `n` descriptors from `desc` on.
pub open spec fn names_from(b: Seq<u8>, secs: Seq<SectionMap>, desc: int, n: nat) -> Option<
    Seq<Seq<char>>,
>
    decreases n,
{
    if n == 0 {
        Some(Seq::empty())
    } else if desc + 16 > b.len() {
        None
    } else if is_end(b, desc) {
        Some(Seq::empty())
    } else {
        let rest = names_from(b, secs, desc + 20, (n - 1) as nat);
        match offset_of(secs, le_value(b, desc + 12, 4)) {
            Some(off) => match name_at(b, off) {
                Some(name) => after(seq![name], rest),
                None => None,
            },
            None => rest,
        }
    }
}

/// Nothing where there was a parse problem.
pub open spec fn or_nothing(v: Option<Seq<Seq<char>>>) -> Seq<Seq<char>> {
    match v {
        Some(s) => s,
        None => Seq::empty(),
    }
}

/// The libraries that an image imports.
pub open spec fn import_names(b: Seq<u8>) -> Seq<Seq<char>> {
    match import_table(b) {
        Some(t) => or_nothing(names_from(b, t.sections, t.first, MAX_DESCRIPTORS as nat)),
        None => Seq::empty(),
    }
}

/// An entry that names a function by its number.
pub open spec fn by_ordinal(entry: int, wide: bool) -> bool {
    if wide {
        entry >= 0x8000_0000_0000_0000
    } else {
        entry >= 0x8000_0000
    }
}

/// The function names of at most `n` thunks from `t` on.
pub open spec fn thunks_from(
    b: Seq<u8>,
    secs: Seq<SectionMap>,
    wide: bool,
    t: int,
    n: nat,
) -> Option<Seq<Seq<char>>>
    decreases n,
{
    let width: nat = if wide {
        8
    } else {
        4
    };
    let entry = le_value(b, t, width);
    if n == 0 {
        Some(Seq::empty())
    } else if t + width > b.len() {
        None
    } else if entry == 0 {
        Some(Seq::empty())
    } else {
        let rest = thunks_from(b, secs, wide, t + width, (n - 1) as nat);
        if by_ordinal(entry, wide) {
            rest
        } else {
            match offset_of(secs, entry % 0x8000_0000) {
                // A two-byte hint stands before the name.
                Some(off) => match name_at(b, off + 2) {
                    Some(name) => after(seq![name], rest),
                    None => None,
                },
                None => rest,
            }
        }
    }
}

/// The functions that the descriptor at `desc` names, if it is one of `dll`.
pub open spec fn functions_of(
    b: Seq<u8>,
    secs: Seq<SectionMap>,
    wide: bool,
    dll: Seq<char>,
    desc: int,
) -> Option<Seq<Seq<char>>> {
    match offset_of(secs, le_value(b, desc + 12, 4)) {
        Some(off) => match name_at(b, off) {
            Some(name) => if name == lower(dll) {
                // The original first thunk, or the first thunk where there is none.
                let thunk = if le_value(b, desc, 4) != 0 {
                    Some(le_value(b, desc, 4))
                } else {
                    number_at(b, desc + 16, 4)
                };
                match thunk {
                    Some(rva) => match offset_of(secs, rva) {
                        Some(t) => thunks_from(b, secs, wide, t, MAX_THUNKS as nat),
                        None => Some(Seq::empty()),
                    },
                    None => None,
                }
            } else {
                Some(Seq::empty())
            },
            None => None,
        },
        None => Some(Seq::empty()),
    }
}

/// The functions of `dll` that at most `n` descriptors from `desc` on name.
pub open spec fn functions_from(
    b: Seq<u8>,
    secs: Seq<SectionMap>,
    wide: bool,
    dll: Seq<char>,
    desc: int,
    n: nat,
) -> Option<Seq<Seq<char>>>
    decreases n,
{
    if n == 0 {
        Some(Seq::empty())
    } else if desc + 16 > b.len() {
        None
    } else if is_end(b, desc) {
        Some(Seq::empty())
    } else {
        match functions_of(b, secs, wide, dll, desc) {
            Some(v) => after(v, functions_from(b, secs, wide, dll, desc + 20, (n - 1) as nat)),
            None => None,
        }
    }
}

/// The functions that an image imports from `dll`.
pub open spec fn import_functions(b: Seq<u8>, dll: Seq<char>) -> Seq<Seq<char>> {
    match import_table(b) {
        Some(t) => or_nothing(
            functions_from(b, t.sections, t.wide, dll, t.first, MAX_DESCRIPTORS as nat),
        ),
        None => Seq::empty(),
    }
}

/// A section header's three numbers.
struct Mapped {
    va: u32,
    size: u32,
    raw: u32,
}

spec fn maps(v: Seq<Mapped>) -> Seq<SectionMap> {
    v.map_values(|m: Mapped| (m.va as int, m.size as int, m.raw as int))
}

/// The import table, as far as the code needs it.
struct Table {
    sections: Vec<Mapped>,
    wide: bool,
    first: u64,
}

fn sections_of(b: &[u8], at: u64, n: u16) -> (r: Option<Vec<Mapped>>)
    requires
        at < 0x2_0000_0000,
    ensures
        match r {
            Some(v) => sections_at(b@, at as int, n as nat) == Some(maps(v@)),
            None => sections_at(b@, at as int, n as nat) is None,
        },
{
    let mut v: Vec<Mapped> = Vec::new();
    let mut i: u16 = 0;
    assert(maps(v@) =~= Seq::empty());
    while i < n
        invariant
            at < 0x2_0000_0000,
            i <= n,
            sections_at(b@, at as int, i as nat) == Some(maps(v@)),
        decreases n - i,
    {
        let s: u64 = at + (i as u64) * 40;
        let ghost old_v = v@;
        match (read_u32(b, s + 12), read_u32(b, s + 16), read_u32(b, s + 20)) {
            (Some(va), Some(size), Some(raw)) => {
                v.push(Mapped { va, size, raw });
                assert(maps(v@) =~= maps(old_v).push((va as int, size as int, raw as int)));
            },
            _ => {
                assert(sections_at(b@, at as int, (i + 1) as nat) is None);
                proof {
                    sections_stop(b@, at as int, (i + 1) as nat, n as nat);
                }
                return None;
            },
        }
        i += 1;
    }
    Some(v)
}

proof fn sections_stop(b: Seq<u8>, at: int, i: nat, n: nat)
    requires
        i <= n,
        sections_at(b, at, i) is None,
    ensures
        sections_at(b, at, n) is None,
    decreases n,
{
    if i < n {
        sections_stop(b, at, i, (n - 1) as nat);
    }
}

fn place(secs: &[Mapped], rva: u32) -> (r: Option<u64>)
    ensures
        match r {
            Some(o) => offset_of(maps(secs@), rva as int) == Some(o as int) && o < 0x2_0000_0000,
            None => offset_of(maps(secs@), rva as int) is None,
        },
{
    let mut i: usize = 0;
    while i < secs.len()
        invariant
            i <= secs@.len(),
            offset_of(maps(secs@), rva as int) == offset_from(maps(secs@), rva as int, i as int),
        decreases secs@.len() - i,
    {
        let s = &secs[i];
        if rva >= s.va && (rva - s.va) < s.size {
            return Some(s.raw as u64 + (rva - s.va) as u64);
        }
        i += 1;
    }
    None
}

fn table_of(b: &[u8]) -> (r: Option<Table>)
    ensures
        match r {
            Some(t) => import_table(b@) == Some(
                (Imports { sections: maps(t.sections@), wide: t.wide, first: t.first as int }),
            ) && t.first < 0x2_0000_0000,
            None => import_table(b@) is None,
        },
{
    if b.len() < 0x40 {
        return None;
    }
    let pe: u64 = match (read_u16(b, 0), read_u32(b, 0x3C)) {
        (Some(mz), Some(pe)) => {
            if mz != MZ {
                return None;
            }
            pe as u64
        },
        _ => {
            return None;
        },
    };
    let opt: u64 = pe + 24;
    match (read_u32(b, pe), read_u16(b, pe + 6), read_u16(b, pe + 20), read_u16(b, opt)) {
        (Some(sig), Some(count), Some(size), Some(magic)) => {
            if sig != PE_SIGNATURE || (magic != 0x20B && magic != 0x10B) {
                return None;
            }
            let wide = magic == 0x20B;
            let dir: u64 = if wide {
                112
            } else {
                96
            };
            match read_u32(b, opt + dir + 8) {
                Some(rva) => {
                    if rva == 0 {
                        return None;
                    }
                    match sections_of(b, opt + size as u64, count) {
                        Some(sections) => match place(sections.as_slice(), rva) {
                            Some(first) => Some(Table { sections, wide, first }),
                            None => None,
                        },
                        None => None,
                    }
                },
                None => None,
            }
        },
        _ => None,
    }
}

fn name_of(b: &[u8], off: u64) -> (r: Option<String>)
    ensures
        match r {
            Some(s) => name_at(b@, off as int) == Some(s@),
            None => name_at(b@, off as int) is None,
        },
{
    let n: usize = b.len();
    if off > n as u64 {
        return None;
    }
    let from: usize = off as usize;
    let mut i: usize = from;
    while i < n && b[i] != 0
        invariant
            n == b@.len(),
            from <= i <= n,
            zero_from(b@, from as int) == zero_from(b@, i as int),
        decreases n - i,
    {
        i += 1;
    }
    let end: usize = if i < n {
        i
    } else {
        from
    };
    let part = vstd::slice::slice_subrange(b, from, end);
    assert(end == from ==> part@ =~= Seq::empty());
    let text = text_of_bytes(part);
    Some(lower_string(text.as_str()))
}

proof fn after_empty(v: Option<Seq<Seq<char>>>)
    ensures
        after(Seq::empty(), v) == v,
{
    if let Some(r) = v {
        assert(Seq::<Seq<char>>::empty() + r =~= r);
    }
}

proof fn after_twice(a: Seq<Seq<char>>, c: Seq<Seq<char>>, v: Option<Seq<Seq<char>>>)
    ensures
        after(a, after(c, v)) == after(a + c, v),
{
    if let Some(r) = v {
        assert(a + (c + r) =~= (a + c) + r);
    }
}

/// Lower-cased library names from the image's import table. Empty on any parse
/// problem.
pub fn pe_imports(image: &[u8]) -> (r: Vec<String>)
    ensures
        texts(r@) == import_names(image@),
{
    broadcast use texts_push;

    let mut out: Vec<String> = Vec::new();
    assert(texts(out@) =~= Seq::empty());
    let table = match table_of(image) {
        Some(t) => t,
        None => {
            return out;
        },
    };
    let ghost secs = maps(table.sections@);
    let ghost whole = names_from(image@, secs, table.first as int, MAX_DESCRIPTORS as nat);
    proof {
        after_empty(whole);
    }
    let mut desc: u64 = table.first;
    let mut left: u64 = MAX_DESCRIPTORS;
    while left > 0
        invariant
            left <= MAX_DESCRIPTORS,
            secs == maps(table.sections@),
            desc < 0x2_0000_0000 + 20 * (MAX_DESCRIPTORS - left),
            after(texts(out@), names_from(image@, secs, desc as int, left as nat)) == whole,
            import_names(image@) == or_nothing(whole),
        ensures
            whole == Some(texts(out@)),
        decreases left,
    {
        broadcast use texts_push;

        let ghost rest = names_from(image@, secs, desc + 20, (left - 1) as nat);
        match (read_u32(image, desc + 12), read_u32(image, desc)) {
            (Some(name), Some(first)) => {
                if name == 0 && first == 0 {
                    assert(texts(out@) + Seq::<Seq<char>>::empty() =~= texts(out@));
                    break;
                }
                match place(table.sections.as_slice(), name) {
                    Some(off) => match name_of(image, off) {
                        Some(s) => {
                            proof {
                                after_twice(texts(out@), seq![s@], rest);
                                assert(texts(out@) + seq![s@] =~= texts(out@).push(s@));
                            }
                            out.push(s);
                        },
                        None => {
                            let none: Vec<String> = Vec::new();
                            assert(texts(none@) =~= Seq::empty());
                            return none;
                        },
                    },
                    None => {},
                }
            },
            _ => {
                let none: Vec<String> = Vec::new();
                assert(texts(none@) =~= Seq::empty());
                return none;
            },
        }
        desc += 20;
        left -= 1;
        assert(left == 0 ==> texts(out@) + Seq::<Seq<char>>::empty() =~= texts(out@));
    }
    out
}

/// Appends the function names of a thunk list; false on a parse problem.
fn read_thunks(b: &[u8], table: &Table, from: u64, out: &mut Vec<String>) -> (r: bool)
    requires
        from < 0x2_0000_0000,
    ensures
        ({
            let v = thunks_from(
                b@,
                maps(table.sections@),
                table.wide,
                from as int,
                MAX_THUNKS as nat,
            );
            r == v is Some && (r ==> texts(final(out)@) == texts(old(out)@) + v->0)
        }),
{
    let ghost start = texts(out@);
    let ghost secs = maps(table.sections@);
    let ghost whole = thunks_from(b@, secs, table.wide, from as int, MAX_THUNKS as nat);
    let mut t: u64 = from;
    let mut left: u64 = MAX_THUNKS;
    while left > 0
        invariant
            left <= MAX_THUNKS,
            secs == maps(table.sections@),
            t < 0x2_0000_0000 + 8 * (MAX_THUNKS - left),
            after(texts(out@), thunks_from(b@, secs, table.wide, t as int, left as nat)) == after(
                start,
                whole,
            ),
            whole == thunks_from(b@, secs, table.wide, from as int, MAX_THUNKS as nat),
        ensures
            after(start, whole) == Some(texts(out@)),
        decreases left,
    {
        broadcast use texts_push;

        let entry: u64 = if table.wide {
            match read_u64(b, t) {
                Some(v) => v,
                None => {
                    return false;
                },
            }
        } else {
            match read_u32(b, t) {
                Some(v) => v as u64,
                None => {
                    return false;
                },
            }
        };
        if entry == 0 {
            assert(texts(out@) + Seq::<Seq<char>>::empty() =~= texts(out@));
            break;
        }
        let step: u64 = if table.wide {
            8
        } else {
            4
        };
        let ghost rest = thunks_from(b@, secs, table.wide, t + step, (left - 1) as nat);
        let ordinal = if table.wide {
            entry >= 0x8000_0000_0000_0000
        } else {
            entry >= 0x8000_0000
        };
        if !ordinal {
            match place(table.sections.as_slice(), (entry % 0x8000_0000) as u32) {
                Some(off) => match name_of(b, off + 2) {
                    Some(s) => {
                        proof {
                            after_twice(texts(out@), seq![s@], rest);
                            assert(texts(out@) + seq![s@] =~= texts(out@).push(s@));
                        }
                        out.push(s);
                    },
                    None => {
                        return false;
                    },
                },
                None => {},
            }
        }
        t += step;
        left -= 1;
        assert(left == 0 ==> texts(out@) + Seq::<Seq<char>>::empty() =~= texts(out@));
    }
    true
}

/// Every function name that the image imports from `dll`, lower-cased. Empty on
/// any parse problem.
///
/// Importing `d3d9.dll` does not make a game a Direct3D 9 game: engines import
/// it for the `D3DPERF_*` debug markers alone and render with something newer.
/// A real renderer calls `Direct3DCreate9`.
pub fn pe_import_fns(image: &[u8], dll: &str) -> (r: Vec<String>)
    ensures
        texts(r@) == import_functions(image@, dll@),
{
    let mut out: Vec<String> = Vec::new();
    assert(texts(out@) =~= Seq::empty());
    let table = match table_of(image) {
        Some(t) => t,
        None => {
            return out;
        },
    };
    let want = lower_string(dll);
    let ghost secs = maps(table.sections@);
    let ghost whole = functions_from(
        image@,
        secs,
        table.wide,
        dll@,
        table.first as int,
        MAX_DESCRIPTORS as nat,
    );
    proof {
        after_empty(whole);
    }
    let mut desc: u64 = table.first;
    let mut left: u64 = MAX_DESCRIPTORS;
    while left > 0
        invariant
            left <= MAX_DESCRIPTORS,
            want@ == lower(dll@),
            secs == maps(table.sections@),
            desc < 0x2_0000_0000 + 20 * (MAX_DESCRIPTORS - left),
            after(
                texts(out@),
                functions_from(image@, secs, table.wide, dll@, desc as int, left as nat),
            ) == whole,
            import_functions(image@, dll@) == or_nothing(whole),
        ensures
            whole == Some(texts(out@)),
        decreases left,
    {
        let ghost before = texts(out@);
        let ghost rest = functions_from(
            image@,
            secs,
            table.wide,
            dll@,
            desc + 20,
            (left - 1) as nat,
        );
        let mut fine = false;
        match (read_u32(image, desc + 12), read_u32(image, desc)) {
            (Some(name), Some(first)) => {
                if name == 0 && first == 0 {
                    assert(texts(out@) + Seq::<Seq<char>>::empty() =~= texts(out@));
                    break;
                }
                match place(table.sections.as_slice(), name) {
                    Some(off) => match name_of(image, off) {
                        Some(s) => {
                            if str_eq(s.as_str(), want.as_str()) {
                                let thunk = if first != 0 {
                                    Some(first)
                                } else {
                                    read_u32(image, desc + 16)
                                };
                                if let Some(rva) = thunk {
                                    match place(table.sections.as_slice(), rva) {
                                        Some(t) => {
                                            fine = read_thunks(image, &table, t, &mut out);
                                        },
                                        None => {
                                            fine = true;
                                        },
                                    }
                                }
                            } else {
                                fine = true;
                            }
                        },
                        None => {},
                    },
                    None => {
                        fine = true;
                    },
                }
            },
            _ => {},
        }
        if !fine {
            assert(whole is None);
            let none: Vec<String> = Vec::new();
            assert(texts(none@) =~= Seq::empty());
            return none;
        }
        proof {
            let v = functions_of(image@, secs, table.wide, dll@, desc as int)->0;
            assert(texts(out@) =~= before + v);
            after_twice(before, v, rest);
        }
        desc += 20;
        left -= 1;
        assert(left == 0 ==> texts(out@) + Seq::<Seq<char>>::empty() =~= texts(out@));
    }
    out
}

} // verus!
