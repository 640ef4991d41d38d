//! What is read of executables, of JSON and of the machine's adapters.
use vstd::prelude::*;

use crate::bytes::le_value;
use crate::chars::{lower, lower_char};
use crate::gpu::{is_virtual, tier_of, Tier};
use crate::gpupref::{cards, is_hybrid, law_preference, other_tokens, prefers, to_write};
use crate::json::{as_items, as_number, as_text, level_at, member_from, Level};
use crate::outside::json_level;
use crate::pe::{
    after, bitness, functions_from, functions_of, import_functions, import_names, import_table,
    is_end, name_at, names_from, offset_from, offset_of, thunks_from, ExeError, SectionMap,
};
use crate::strs::{occurs, same_fold};

verus! {

/// A file is a program of 64 or of 32 bits by the two bytes that name its machine,
/// where it begins with "MZ" and its header, at the place that the file gives, with
/// "PE" and two zeroes.
pub proof fn law_bitness(b: Seq<u8>, pe: int)
    requires
        b.len() >= 64,
        pe == b[60] + 256 * b[61] + 65536 * b[62] + 16777216 * b[63],
    ensures
        ({
            let whole = b[0] == 77 && b[1] == 90 && pe + 6 <= b.len() && b[pe] == 80 && b[pe + 1]
                == 69 && b[pe + 2] == 0 && b[pe + 3] == 0;
            &&& bitness(b) == Ok::<u8, ExeError>(64) <==> whole && b[pe + 4] == 0x64 && b[pe + 5]
                == 0x86
            &&& bitness(b) == Ok::<u8, ExeError>(32) <==> whole && b[pe + 4] == 0x4C && b[pe + 5]
                == 0x01
            &&& bitness(b) == Err::<u8, ExeError>(ExeError::NotWindows) <==> b[0] != 77 || b[1]
                != 90
            &&& bitness(b) matches Ok(n) ==> n == 64 || n == 32
        }),
{
    reveal_with_fuel(le_value, 5);
}

/// What is too short for a program is none.
pub proof fn law_short(b: Seq<u8>)
    requires
        b.len() < 64,
    ensures
        bitness(b) == Err::<u8, ExeError>(ExeError::NotWindows),
        import_names(b).len() == 0,
{
}

/// An address is looked up in the first section that covers it, as far from its
/// start in the file as in memory.
pub proof fn law_section(secs: Seq<SectionMap>, rva: int, k: int)
    requires
        0 <= k < secs.len(),
        secs[k].0 <= rva < secs[k].0 + secs[k].1,
        forall|j: int|
            0 <= j < k ==> !((#[trigger] secs[j]).0 <= rva < secs[j].0 + secs[j].1),
    ensures
        offset_of(secs, rva) is Some,
        offset_of(secs, rva)->0 - secs[k].2 == rva - secs[k].0,
{
    covered(secs, rva, k, 0);
}

proof fn covered(secs: Seq<SectionMap>, rva: int, k: int, i: int)
    requires
        0 <= i <= k < secs.len(),
        secs[k].0 <= rva < secs[k].0 + secs[k].1,
        forall|j: int|
            0 <= j < k ==> !((#[trigger] secs[j]).0 <= rva < secs[j].0 + secs[j].1),
    ensures
        offset_from(secs, rva, i) == Some(secs[k].2 + (rva - secs[k].0)),
    decreases k - i,
{
    if i < k {
        covered(secs, rva, k, i + 1);
    }
}

proof fn lower_twice(s: Seq<char>)
    ensures
        lower(lower(s)) == lower(s),
{
    assert forall|c: char| #[trigger] lower_char(lower_char(c)) == lower_char(c) by {
        if 'A' <= c <= 'Z' {
            let d = ((c as u8) + 32) as char;
            assert('a' <= d <= 'z');
        }
    }
    assert(lower(lower(s)) =~= lower(s));
}

proof fn names_low(b: Seq<u8>, secs: Seq<SectionMap>, desc: int, n: nat)
    ensures
        names_from(b, secs, desc, n) matches Some(v) ==> forall|i: int|
            0 <= i < v.len() ==> lower(#[trigger] v[i]) == v[i],
    decreases n,
{
    if n > 0 {
        names_low(b, secs, desc + 20, (n - 1) as nat);
        if let Some(off) = offset_of(secs, le_value(b, desc + 12, 4)) {
            if let Some(name) = name_at(b, off) {
                if let Some(end) = crate::pe::zero_from(b, off) {
                    lower_twice(crate::outside::utf8_lossy(b.subrange(off, end)));
                } else {
                    lower_twice(crate::outside::utf8_lossy(Seq::empty()));
                }
                assert(lower(name) == name);
            }
        }
    }
}

/// The libraries that a program imports are named in lower case.
pub proof fn law_imports_lower(b: Seq<u8>, i: int)
    requires
        0 <= i < import_names(b).len(),
    ensures
        lower(import_names(b)[i]) == import_names(b)[i],
{
    let t = import_table(b)->0;
    names_low(b, t.sections, t.first, 512);
}

proof fn functions_named(
    b: Seq<u8>,
    secs: Seq<SectionMap>,
    wide: bool,
    dll: Seq<char>,
    desc: int,
    n: nat,
)
    ensures
        names_from(b, secs, desc, n) is None ==> functions_from(b, secs, wide, dll, desc, n) is None,
        functions_from(b, secs, wide, dll, desc, n) matches Some(v) ==> v.len() > 0
            ==> names_from(b, secs, desc, n)->0.contains(lower(dll)),
    decreases n,
{
    if n > 0 && desc + 16 <= b.len() && !is_end(b, desc) {
        functions_named(b, secs, wide, dll, desc + 20, (n - 1) as nat);
        let rest = names_from(b, secs, desc + 20, (n - 1) as nat);
        let all = names_from(b, secs, desc, n);
        let more = functions_from(b, secs, wide, dll, desc + 20, (n - 1) as nat);
        if let Some(off) = offset_of(secs, le_value(b, desc + 12, 4)) {
            if let Some(name) = name_at(b, off) {
                if all is Some {
                    assert(all->0[0] == name);
                    if rest->0.contains(lower(dll)) {
                        let k = choose|k: int|
                            0 <= k < rest->0.len() && rest->0[k] == lower(dll);
                        assert(all->0[k + 1] == lower(dll));
                    }
                }
            }
        }
    }
}

/// Functions are imported only from a library that is imported.
pub proof fn law_functions_of_imports(b: Seq<u8>, dll: Seq<char>)
    requires
        import_functions(b, dll).len() > 0,
    ensures
        import_names(b).contains(lower(dll)),
{
    let t = import_table(b)->0;
    functions_named(b, t.sections, t.wide, dll, t.first, 512);
}

proof fn functions_fold(
    b: Seq<u8>,
    secs: Seq<SectionMap>,
    wide: bool,
    x: Seq<char>,
    y: Seq<char>,
    desc: int,
    n: nat,
)
    requires
        same_fold(x, y),
    ensures
        functions_from(b, secs, wide, x, desc, n) == functions_from(b, secs, wide, y, desc, n),
    decreases n,
{
    if n > 0 {
        functions_fold(b, secs, wide, x, y, desc + 20, (n - 1) as nat);
        assert(functions_of(b, secs, wide, x, desc) == functions_of(b, secs, wide, y, desc));
    }
}

/// The case of a library's name does not matter.
pub proof fn law_library_case_aside(b: Seq<u8>, x: Seq<char>, y: Seq<char>)
    requires
        same_fold(x, y),
    ensures
        import_functions(b, x) == import_functions(b, y),
{
    if let Some(t) = import_table(b) {
        functions_fold(b, t.sections, t.wide, x, y, t.first, 512);
    }
}

/// The member of an object is the first of its name; without one, and of anything
/// that is no object, it is null.
pub proof fn law_member(v: Seq<(Seq<char>, Seq<char>)>, key: Seq<char>, k: int)
    ensures
        0 <= k < v.len() && v[k].0 == key && (forall|j: int|
            0 <= j < k ==> (#[trigger] v[j]).0 != key) ==> level_at(Level::Object(v), key)
            == json_level(v[k].1),
        (forall|j: int| 0 <= j < v.len() ==> (#[trigger] v[j]).0 != key) ==> level_at(
            Level::Object(v),
            key,
        ) is Null,
{
    if 0 <= k < v.len() && v[k].0 == key && (forall|j: int|
        0 <= j < k ==> (#[trigger] v[j]).0 != key) {
        member_found(v, key, k, 0);
    }
    if forall|j: int| 0 <= j < v.len() ==> (#[trigger] v[j]).0 != key {
        member_missed(v, key, 0);
    }
}

proof fn member_found(v: Seq<(Seq<char>, Seq<char>)>, key: Seq<char>, k: int, i: int)
    requires
        0 <= i <= k < v.len(),
        v[k].0 == key,
        forall|j: int| 0 <= j < k ==> (#[trigger] v[j]).0 != key,
    ensures
        member_from(v, key, i) == Some(v[k].1),
    decreases k - i,
{
    if i < k {
        member_found(v, key, k, i + 1);
    }
}

proof fn member_missed(v: Seq<(Seq<char>, Seq<char>)>, key: Seq<char>, i: int)
    requires
        0 <= i,
        forall|j: int| 0 <= j < v.len() ==> (#[trigger] v[j]).0 != key,
    ensures
        member_from(v, key, i) is None,
    decreases v.len() - i,
{
    if i < v.len() {
        member_missed(v, key, i + 1);
    }
}

/// A value is read as what it is, and as nothing else.
pub proof fn law_json_kinds(l: Level, key: Seq<char>)
    ensures
        as_text(l) is Some <==> l is Text,
        as_items(l).len() > 0 ==> l is Array,
        as_number(l) is Some ==> l is Number,
        !(l is Object) ==> level_at(l, key) is Null,
{
}

/// A machine is a hybrid one exactly where one real adapter is of NVIDIA and
/// another is not; virtual ones do not count.
pub proof fn law_hybrid(names: Seq<Seq<char>>)
    ensures
        is_hybrid(cards(names)) <==> {
            &&& exists|i: int|
                0 <= i < names.len() && !is_virtual(#[trigger] names[i]) && occurs(
                    lower(names[i]),
                    "nvidia"@,
                )
            &&& exists|j: int|
                0 <= j < names.len() && !is_virtual(#[trigger] names[j]) && !occurs(
                    lower(names[j]),
                    "nvidia"@,
                )
        },
{
    let v = cards(names);
    let keep = |n: Seq<char>| !is_virtual(n);
    assert forall|n: Seq<char>| #[trigger] v.contains(n) <==> names.contains(n) && !is_virtual(
        n,
    ) by {
        if v.contains(n) {
            names.lemma_filter_contains_rev(keep, n);
            let k = choose|k: int| 0 <= k < v.len() && v[k] == n;
            names.lemma_filter_pred(keep, k);
        }
        if names.contains(n) && keep(n) {
            let i = choose|i: int| 0 <= i < names.len() && names[i] == n;
            names.lemma_filter_contains(keep, i);
        }
    }
    if is_hybrid(v) {
        let i = choose|i: int| 0 <= i < v.len() && occurs(lower(#[trigger] v[i]), "nvidia"@);
        let j = choose|j: int| 0 <= j < v.len() && tier_of(#[trigger] v[j]) == Tier::NotNvidia;
        assert(v.contains(v[i]) && v.contains(v[j]));
        let a = choose|a: int| 0 <= a < names.len() && names[a] == v[i];
        let c = choose|c: int| 0 <= c < names.len() && names[c] == v[j];
        assert(!is_virtual(names[a]) && !is_virtual(names[c]));
    }
    if (exists|i: int|
        0 <= i < names.len() && !is_virtual(#[trigger] names[i]) && occurs(
            lower(names[i]),
            "nvidia"@,
        )) && (exists|j: int|
        0 <= j < names.len() && !is_virtual(#[trigger] names[j]) && !occurs(
            lower(names[j]),
            "nvidia"@,
        )) {
        let i = choose|i: int|
            0 <= i < names.len() && !is_virtual(#[trigger] names[i]) && occurs(
                lower(names[i]),
                "nvidia"@,
            );
        let j = choose|j: int|
            0 <= j < names.len() && !is_virtual(#[trigger] names[j]) && !occurs(
                lower(names[j]),
                "nvidia"@,
            );
        assert(names.contains(names[i]) && names.contains(names[j]));
        assert(v.contains(names[i]) && v.contains(names[j]));
        let a = choose|a: int| 0 <= a < v.len() && v[a] == names[i];
        let c = choose|c: int| 0 <= c < v.len() && v[c] == names[j];
        assert(occurs(lower(v[a]), "nvidia"@));
        assert(tier_of(v[c]) == Tier::NotNvidia);
    }
}

/// The preference is written exactly where it is not set yet, and what is written
/// sets it; writing it again is never needed.
pub proof fn law_preference_written(current: Option<Seq<char>>)
    ensures
        current is Some && prefers(current->0) ==> to_write(current) is None,
        to_write(current) matches Some(v) ==> prefers(v) && to_write(Some(v)) is None,
        current is Some && !prefers(current->0) ==> to_write(current) is Some,
        current matches Some(c) ==> (to_write(current) matches Some(v) ==> other_tokens(v)
            == other_tokens(c)),
{
    match current {
        Some(c) => {
            law_preference(c);
        },
        None => {
            law_preference(Seq::empty());
        },
    }
}

/// A function that is named by its number is passed over, one that is named by its
/// name is read, and a zero ends the list.
pub proof fn law_thunks(b: Seq<u8>, secs: Seq<SectionMap>, t: int, n: nat)
    requires
        n > 0,
        0 <= t,
        t + 8 <= b.len(),
    ensures
        le_value(b, t, 8) == 0 ==> thunks_from(b, secs, true, t, n) == Some(
            Seq::<Seq<char>>::empty(),
        ),
        le_value(b, t, 8) >= 0x8000_0000_0000_0000 ==> thunks_from(b, secs, true, t, n)
            == thunks_from(b, secs, true, t + 8, (n - 1) as nat),
        le_value(b, t, 4) == 0 ==> thunks_from(b, secs, false, t, n) == Some(
            Seq::<Seq<char>>::empty(),
        ),
        le_value(b, t, 4) >= 0x8000_0000 ==> thunks_from(b, secs, false, t, n) == thunks_from(
            b,
            secs,
            false,
            t + 4,
            (n - 1) as nat,
        ),
        0 < le_value(b, t, 4) < 0x8000_0000 && offset_of(secs, le_value(b, t, 4)) is Some
            && name_at(b, offset_of(secs, le_value(b, t, 4))->0 + 2) is Some ==> thunks_from(
            b,
            secs,
            false,
            t,
            n,
        ) == after(
            seq![name_at(b, offset_of(secs, le_value(b, t, 4))->0 + 2)->0],
            thunks_from(b, secs, false, t + 4, (n - 1) as nat),
        ),
{
}

/// The libraries are read one descriptor after the other, up to the one of all
/// zeroes.
pub proof fn law_descriptors(b: Seq<u8>, secs: Seq<SectionMap>, desc: int, n: nat)
    requires
        n > 0,
        0 <= desc,
        desc + 16 <= b.len(),
    ensures
        le_value(b, desc, 4) == 0 && le_value(b, desc + 12, 4) == 0 ==> names_from(
            b,
            secs,
            desc,
            n,
        ) == Some(Seq::<Seq<char>>::empty()),
        le_value(b, desc + 12, 4) != 0 && offset_of(secs, le_value(b, desc + 12, 4)) is Some
            && name_at(b, offset_of(secs, le_value(b, desc + 12, 4))->0) is Some ==> names_from(
            b,
            secs,
            desc,
            n,
        ) == after(
            seq![name_at(b, offset_of(secs, le_value(b, desc + 12, 4))->0)->0],
            names_from(b, secs, desc + 20, (n - 1) as nat),
        ),
        le_value(b, desc + 12, 4) != 0 && offset_of(secs, le_value(b, desc + 12, 4)) is None
            ==> names_from(b, secs, desc, n) == names_from(b, secs, desc + 20, (n - 1) as nat),
{
}

} // verus!
