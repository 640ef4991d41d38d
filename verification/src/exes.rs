//! Which of the executables in a folder is the game.
use vstd::prelude::*;

use crate::chars::{lower, lower_string};
use crate::order::{as_places, in_order, order, order_shape, stable, weak_order};
use crate::paths::{
    extension_of, file_extension, file_stem, joined, name_of, path_join, path_name, stem_of,
};
use crate::strs::{
    cat, contains, ends, ends_with, eq_fold, letters, letters_of, occurs, same_fold, starts,
    starts_with, str_eq, texts, texts_push,
};
use crate::tree::{find_folder, folder, Kind, Node};

verus! {

/// Helper and launcher executables that are never the game.
pub open spec fn is_helper(stem: Seq<char>) -> bool {
    ||| occurs(stem, "unitycrashhandler"@)
    ||| occurs(stem, "unrealcefsubprocess"@)
    ||| occurs(stem, "crashreportclient"@)
    ||| occurs(stem, "easyanticheat"@)
    ||| occurs(stem, "vcredist"@)
    ||| occurs(stem, "vc_redist"@)
    ||| occurs(stem, "dxwebsetup"@)
    ||| occurs(stem, "dxsetup"@)
    ||| occurs(stem, "oalinst"@)
    ||| occurs(stem, "ue4prereqsetup"@)
    ||| occurs(stem, "ueprereqsetup"@)
    ||| occurs(stem, "installer"@)
    ||| occurs(stem, "uninstall"@)
    ||| occurs(stem, "unins"@)
    ||| occurs(stem, "setup"@)
}

pub fn is_helper_name(stem_lower: &str) -> (r: bool)
    ensures
        r == is_helper(stem_lower@),
{
    let s = stem_lower;
    contains(s, "unitycrashhandler") || contains(s, "unrealcefsubprocess") || contains(
        s,
        "crashreportclient",
    ) || contains(s, "easyanticheat") || contains(s, "vcredist") || contains(s, "vc_redist")
        || contains(s, "dxwebsetup") || contains(s, "dxsetup") || contains(s, "oalinst")
        || contains(s, "ue4prereqsetup") || contains(s, "ueprereqsetup") || contains(
        s,
        "installer",
    ) || contains(s, "uninstall") || contains(s, "unins") || contains(s, "setup")
}

/// Subfolders that never hold a launch exe.
pub open spec fn is_skipped(name: Seq<char>) -> bool {
    let n = lower(name);
    ||| n == "engine"@
    ||| n == "content"@
    ||| n == "saved"@
    ||| n == "intermediate"@
    ||| n == "reshade-shaders"@
    ||| n == "_commonredist"@
    ||| n == "commonredist"@
    ||| n == "redist"@
    ||| n == "redistributables"@
    ||| ends(n, "_data"@)
}

fn skipped(name: &str) -> (r: bool)
    ensures
        r == is_skipped(name@),
{
    let low = lower_string(name);
    let n = low.as_str();
    str_eq(n, "engine") || str_eq(n, "content") || str_eq(n, "saved") || str_eq(n, "intermediate")
        || str_eq(n, "reshade-shaders") || str_eq(n, "_commonredist") || str_eq(n, "commonredist")
        || str_eq(n, "redist") || str_eq(n, "redistributables") || ends_with(n, "_data")
}

/// A file with the extension of an executable. Not every launcher is named
/// .exe: one may be an ordinary executable under the name of `game.bin`.
pub open spec fn is_program(n: Node) -> bool {
    n.kind == Kind::File && match extension_of(n.name@) {
        Some(x) => same_fold(x, "exe"@) || same_fold(x, "bin"@),
        None => false,
    }
}

fn program(n: &Node) -> (r: bool)
    ensures
        r == is_program(*n),
{
    n.kind == Kind::File && match file_extension(n.name.as_str()) {
        Some(x) => eq_fold(x.as_str(), "exe") || eq_fold(x.as_str(), "bin"),
        None => false,
    }
}

/// An executable that was found: its path and its place in the tree.
pub struct Program {
    pub path: Seq<char>,
    pub name: Seq<char>,
    pub len: u64,
    pub bits: Option<u8>,
}

/// The executables of one folder, in its order.
pub open spec fn programs_in(dir: Seq<char>, nodes: Seq<Node>) -> Seq<Program>
    decreases nodes.len(),
{
    if nodes.len() == 0 {
        Seq::empty()
    } else {
        let n = nodes.last();
        let before = programs_in(dir, nodes.drop_last());
        if is_program(n) {
            before.push(
                Program { path: joined(dir, n.name@), name: n.name@, len: n.len, bits: n.bits },
            )
        } else {
            before
        }
    }
}

/// A subfolder that is searched.
pub open spec fn is_searched(n: Node) -> bool {
    n.kind == Kind::Dir && !is_skipped(n.name@)
}

/// The executables of the subfolders, `depth` levels down: those of each before
/// those below it.
pub open spec fn programs_below(dir: Seq<char>, nodes: Seq<Node>, depth: nat) -> Seq<Program>
    decreases depth, nodes.len(),
{
    if depth == 0 || nodes.len() == 0 {
        Seq::empty()
    } else {
        let n = nodes.last();
        let before = programs_below(dir, nodes.drop_last(), depth);
        if is_searched(n) {
            let sub = joined(dir, n.name@);
            before + programs_in(sub, n.children@) + programs_below(
                sub,
                n.children@,
                (depth - 1) as nat,
            )
        } else {
            before
        }
    }
}

/// What is in `Engine\Binaries\Win64`, the one place in the engine's tree that
/// may hold the game's exe.
pub open spec fn engine_binaries(nodes: Seq<Node>) -> Option<Seq<Node>> {
    match folder(nodes, "Engine"@) {
        Some(e) => match folder(e, "Binaries"@) {
            Some(b) => folder(b, "Win64"@),
            None => None,
        },
        None => None,
    }
}

/// How many levels of subfolders are searched.
pub const EXE_DEPTH: u8 = 4;

/// All executables where a game may keep its own.
pub open spec fn programs(dir: Seq<char>, nodes: Seq<Node>) -> Seq<Program> {
    programs_in(dir, nodes) + programs_below(dir, nodes, EXE_DEPTH as nat) + (
    match engine_binaries(nodes) {
        Some(v) => programs_in(
            joined(joined(joined(dir, "Engine"@), "Binaries"@), "Win64"@),
            v,
        ),
        None => Seq::empty(),
    })
}

/// The name of the executable goes with that of the folder.
pub open spec fn goes_with(name: Seq<char>, folder: Seq<char>) -> bool {
    folder.len() > 0 && (name == folder || starts(name, folder) || starts(folder, name))
}

/// What speaks for an executable: that it is an Unreal shipping build, that it
/// is named after the folder, its size.
pub type Rank = (bool, bool, u64);

pub open spec fn rank(p: Program, folder: Seq<char>) -> Rank {
    let stem = lower(stem_of(p.name));
    (ends(stem, "-shipping"@), goes_with(letters(stem), folder), p.len)
}

/// More speaks for the one than for the other: a shipping build before all
/// others, then a name that goes with the folder's, then the larger file.
pub open spec fn outranks(a: Rank, b: Rank) -> bool {
    if a.0 != b.0 {
        a.0
    } else if a.1 != b.1 {
        a.1
    } else {
        a.2 > b.2
    }
}

/// An executable that may be the game.
pub open spec fn may_be_game(p: Program) -> bool {
    p.bits is Some && !is_helper(lower(stem_of(p.name)))
}

/// The folder's name, as executables are compared with it.
pub open spec fn folder_key(dir: Seq<char>) -> Seq<char> {
    match name_of(dir) {
        Some(n) => letters(n),
        None => letters(Seq::empty()),
    }
}

/// Bits, rank and path of one that may be the game.
pub type Candidate = (u8, Rank, Seq<char>);

pub open spec fn candidates(v: Seq<Program>, folder: Seq<char>) -> Seq<Candidate>
    decreases v.len(),
{
    if v.len() == 0 {
        Seq::empty()
    } else {
        let p = v.last();
        let before = candidates(v.drop_last(), folder);
        if may_be_game(p) {
            before.push((p.bits->0, rank(p, folder), p.path))
        } else {
            before
        }
    }
}

/// Beside a 64-bit executable a 32-bit one is a tool, not the game.
pub open spec fn of_the_game(v: Seq<Candidate>) -> Seq<Candidate> {
    if exists|i: int| 0 <= i < v.len() && (#[trigger] v[i]).0 == 64 {
        v.filter(|c: Candidate| c.0 == 64)
    } else {
        v
    }
}

/// The one that more speaks for stands first.
pub open spec fn better(v: Seq<Candidate>) -> spec_fn(int, int) -> bool {
    |i: int, j: int| outranks(v[i].1, v[j].1)
}

/// The paths of the executables that may be the game, the best first.
pub open spec fn game_exes(dir: Seq<char>, nodes: Seq<Node>) -> Seq<Seq<char>> {
    let v = of_the_game(candidates(programs(dir, nodes), folder_key(dir)));
    in_order(v.len(), better(v)).map_values(|i: int| v[i].2)
}

/// An executable that was found.
struct Exe {
    path: String,
    name: String,
    len: u64,
    bits: Option<u8>,
}

spec fn found(v: Seq<Exe>) -> Seq<Program> {
    v.map_values(|e: Exe| Program { path: e.path@, name: e.name@, len: e.len, bits: e.bits })
}

fn add_programs(dir: &str, nodes: &[Node], out: &mut Vec<Exe>)
    ensures
        found(final(out)@) == found(old(out)@) + programs_in(dir@, nodes@),
{
    let ghost start = found(out@);
    let mut i: usize = 0;
    assert(nodes@.take(0) =~= Seq::empty());
    assert(found(out@) =~= start + programs_in(dir@, nodes@.take(0)));
    while i < nodes.len()
        invariant
            i <= nodes@.len(),
            start == found(old(out)@),
            found(out@) == start + programs_in(dir@, nodes@.take(i as int)),
        decreases nodes@.len() - i,
    {
        assert(nodes@.take(i + 1).drop_last() =~= nodes@.take(i as int));
        let n = &nodes[i];
        if program(n) {
            let ghost before = out@;
            let exe = Exe {
                path: path_join(dir, n.name.as_str()),
                name: n.name.clone(),
                len: n.len,
                bits: n.bits,
            };
            out.push(exe);
            assert(found(out@) =~= found(before).push(
                Program { path: exe.path@, name: exe.name@, len: exe.len, bits: exe.bits },
            ));
            assert(found(out@) =~= start + programs_in(dir@, nodes@.take(i + 1)));
        }
        i += 1;
    }
    assert(nodes@.take(i as int) =~= nodes@);
}

fn add_below(dir: &str, nodes: &[Node], depth: u8, out: &mut Vec<Exe>)
    ensures
        found(final(out)@) == found(old(out)@) + programs_below(dir@, nodes@, depth as nat),
    decreases depth,
{
    let ghost start = found(out@);
    if depth == 0 {
        assert(found(out@) =~= start + programs_below(dir@, nodes@, 0));
        return;
    }
    let mut i: usize = 0;
    assert(nodes@.take(0) =~= Seq::empty());
    assert(found(out@) =~= start + programs_below(dir@, nodes@.take(0), depth as nat));
    while i < nodes.len()
        invariant
            i <= nodes@.len(),
            depth > 0,
            start == found(old(out)@),
            found(out@) == start + programs_below(dir@, nodes@.take(i as int), depth as nat),
        decreases nodes@.len() - i,
    {
        assert(nodes@.take(i + 1).drop_last() =~= nodes@.take(i as int));
        let n = &nodes[i];
        let ghost before = programs_below(dir@, nodes@.take(i as int), depth as nat);
        if n.kind == Kind::Dir && !skipped(n.name.as_str()) {
            let sub = path_join(dir, n.name.as_str());
            add_programs(sub.as_str(), n.children.as_slice(), out);
            add_below(sub.as_str(), n.children.as_slice(), depth - 1, out);
            proof {
                let a = programs_in(sub@, n.children@);
                let b = programs_below(sub@, n.children@, (depth - 1) as nat);
                assert(start + before + a + b =~= start + (before + a + b));
            }
        }
        i += 1;
    }
    assert(nodes@.take(i as int) =~= nodes@);
}

fn rank_of(e: &Exe, stem: &str, folder: &str) -> (r: Rank)
    requires
        stem@ == lower(stem_of(e.name@)),
    ensures
        r == rank(Program { path: e.path@, name: e.name@, len: e.len, bits: e.bits }, folder@),
{
    let n = letters_of(stem);
    let named = !folder.is_empty() && (str_eq(n.as_str(), folder) || starts_with(
        n.as_str(),
        folder,
    ) || starts_with(folder, n.as_str()));
    (ends_with(stem, "-shipping"), named, e.len)
}

fn stands_first(a: &Rank, b: &Rank) -> (r: bool)
    ensures
        r == outranks(*a, *b),
{
    if a.0 != b.0 {
        a.0
    } else if a.1 != b.1 {
        a.1
    } else {
        a.2 > b.2
    }
}

spec fn rated(v: Seq<(u8, Rank, String)>) -> Seq<Candidate> {
    v.map_values(|c: (u8, Rank, String)| (c.0, c.1, c.2@))
}

fn rate(exes: Vec<Exe>, folder: &str) -> (r: Vec<(u8, Rank, String)>)
    ensures
        rated(r@) == candidates(found(exes@), folder@),
{
    let ghost all = found(exes@);
    let mut out: Vec<(u8, Rank, String)> = Vec::new();
    let mut i: usize = 0;
    assert(rated(out@) =~= candidates(all.take(0), folder@));
    while i < exes.len()
        invariant
            i <= exes@.len(),
            all == found(exes@),
            rated(out@) == candidates(all.take(i as int), folder@),
        decreases exes@.len() - i,
    {
        assert(all.take(i + 1).drop_last() =~= all.take(i as int));
        let e = &exes[i];
        assert(all[i as int] == Program { path: e.path@, name: e.name@, len: e.len, bits: e.bits });
        let stem = lower_string(file_stem(e.name.as_str()).as_str());
        if let Some(bits) = e.bits {
            if !is_helper_name(stem.as_str()) {
                let ghost before = out@;
                let c = (bits, rank_of(e, stem.as_str(), folder), e.path.clone());
                out.push(c);
                assert(rated(out@) =~= rated(before).push((c.0, c.1, c.2@)));
            }
        }
        i += 1;
    }
    assert(all.take(i as int) =~= all);
    out
}

fn keep_64(v: Vec<(u8, Rank, String)>) -> (r: Vec<(u8, Rank, String)>)
    ensures
        rated(r@) == of_the_game(rated(v@)),
{
    let ghost all = rated(v@);
    let ghost keep = |c: Candidate| c.0 == 64;
    let mut any = false;
    let mut out: Vec<(u8, Rank, String)> = Vec::new();
    let mut i: usize = 0;
    proof {
        reveal(Seq::filter);
    }
    assert(rated(out@) =~= all.take(0).filter(keep));
    while i < v.len()
        invariant
            i <= v@.len(),
            all == rated(v@),
            keep == |c: Candidate| c.0 == 64,
            any == exists|j: int| 0 <= j < i && (#[trigger] all[j]).0 == 64,
            rated(out@) == all.take(i as int).filter(keep),
        decreases v@.len() - i,
    {
        proof {
            reveal(Seq::filter);
        }
        assert(all.take(i + 1).drop_last() =~= all.take(i as int));
        let c = &v[i];
        assert(all[i as int] == (c.0, c.1, c.2@));
        if c.0 == 64 {
            any = true;
            let ghost before = out@;
            out.push((c.0, c.1, c.2.clone()));
            assert(rated(out@) =~= rated(before).push(all[i as int]));
        }
        i += 1;
    }
    assert(all.take(i as int) =~= all);
    if any {
        out
    } else {
        v
    }
}

/// Candidate game executables in `dir`, best first.
///
/// Looks in the folder itself, in its subfolders down to four levels (games keep
/// the launch exe in `bin\x64` or `Game\Binaries\Win64`), and in the engine's
/// `Binaries\Win64`. Prefers 64-bit executables, drops known helpers, then
/// ranks: Unreal shipping exe, then a name that matches the folder's, then the
/// larger file. A folder with no 64-bit game at all falls back to its 32-bit
/// executables.
pub fn find_game_exes(dir: &str, nodes: &[Node]) -> (r: Vec<String>)
    ensures
        texts(r@) == game_exes(dir@, nodes@),
{
    broadcast use texts_push;

    let mut exes: Vec<Exe> = Vec::new();
    assert(found(exes@) =~= Seq::empty());
    add_programs(dir, nodes, &mut exes);
    add_below(dir, nodes, EXE_DEPTH, &mut exes);
    if let Some(e) = find_folder(nodes, "Engine") {
        if let Some(b) = find_folder(e, "Binaries") {
            if let Some(w) = find_folder(b, "Win64") {
                let p = path_join(dir, "Engine");
                let p = path_join(p.as_str(), "Binaries");
                let p = path_join(p.as_str(), "Win64");
                add_programs(p.as_str(), w, &mut exes);
            }
        }
    }
    assert(found(exes@) =~= programs(dir@, nodes@));
    let folder = match path_name(dir) {
        Some(n) => letters_of(n.as_str()),
        None => {
            let none = String::new();
            assert(none@ =~= Seq::empty());
            letters_of(none.as_str())
        },
    };
    let v = keep_64(rate(exes, folder.as_str()));
    let ghost s = rated(v@);
    let ghost lt = better(s);
    let n: usize = v.len();
    let before = |a: usize, b: usize| -> (r: bool)
        requires
            a < n,
            b < n,
        ensures
            r == lt(a as int, b as int),
        {
            stands_first(&v[a].1, &v[b].1)
        };
    assert(weak_order(lt));
    let p = order(n, before, Ghost(lt));
    let ghost all = in_order(s.len(), lt).map_values(|i: int| s[i].2);
    let mut out: Vec<String> = Vec::new();
    let mut k: usize = 0;
    assert(texts(out@) =~= all.take(0));
    while k < p.len()
        invariant
            k <= p@.len(),
            s == rated(v@),
            n == v@.len(),
            p@.len() == n,
            as_places(p@) == in_order(s.len(), lt),
            all == in_order(s.len(), lt).map_values(|i: int| s[i].2),
            forall|j: int| 0 <= j < p@.len() ==> #[trigger] p@[j] < n,
            texts(out@) == all.take(k as int),
        decreases p@.len() - k,
    {
        broadcast use texts_push;

        assert(as_places(p@)[k as int] == p@[k as int]);
        assert(all[k as int] == s[p@[k as int] as int].2);
        assert(p@[k as int] < n);
        out.push(v[p[k]].2.clone());
        assert(all.take(k + 1) =~= all.take(k as int).push(all[k as int]));
        k += 1;
    }
    assert(as_places(p@).len() == all.len());
    assert(all.take(k as int) =~= all);
    out
}

/// What a path that the user gave leads to.
#[derive(Debug, Clone, Copy, PartialEq, Eq, Structural)]
pub enum Target {
    File,
    Folder,
    Nothing,
}

/// The executable to use plus every candidate (none where the input was a
/// file), or what is said where there is none.
pub open spec fn target_of(
    input: Seq<char>,
    kind: Target,
    exes: Seq<Seq<char>>,
) -> Result<(Seq<char>, Seq<Seq<char>>), Seq<char>> {
    match kind {
        Target::File => Ok((input, Seq::empty())),
        Target::Folder => if exes.len() > 0 {
            Ok((exes[0], exes))
        } else {
            Err("no game executable found in "@ + input)
        },
        Target::Nothing => Err("not found: "@ + input),
    }
}

/// Accepts either a game exe or a game folder; returns the exe to use plus every
/// candidate found (empty when the input was already an exe).
pub fn resolve_target(input: &str, kind: Target, nodes: &[Node]) -> (r: Result<
    (String, Vec<String>),
    String,
>)
    ensures
        match r {
            Ok((exe, all)) => target_of(input@, kind, game_exes(input@, nodes@))
                == Ok::<(Seq<char>, Seq<Seq<char>>), Seq<char>>((exe@, texts(all@))),
            Err(e) => target_of(input@, kind, game_exes(input@, nodes@)) == Err::<
                (Seq<char>, Seq<Seq<char>>),
                Seq<char>,
            >(e@),
        },
{
    match kind {
        Target::File => {
            let none: Vec<String> = Vec::new();
            assert(texts(none@) =~= Seq::empty());
            Ok((input.to_owned(), none))
        },
        Target::Folder => {
            let c = find_game_exes(input, nodes);
            assert(c@.len() == texts(c@).len());
            if c.len() > 0 {
                assert(texts(c@)[0] == c@[0]@);
                Ok((c[0].clone(), c))
            } else {
                Err(cat("no game executable found in ", input))
            }
        },
        Target::Nothing => Err(cat("not found: ", input)),
    }
}

/// The candidates are ranked: each stands once, and nothing stands before what
/// more speaks for. Where there is a 64-bit one, all of them are.
pub proof fn law_exes_ranked(dir: Seq<char>, nodes: Seq<Node>)
    ensures
        ({
            let all = candidates(programs(dir, nodes), folder_key(dir));
            let v = of_the_game(all);
            let o = in_order(v.len(), better(v));
            &&& game_exes(dir, nodes).len() == v.len() == o.len()
            &&& o.no_duplicates()
            &&& forall|k: int|
                0 <= k < o.len() ==> 0 <= #[trigger] o[k] < v.len() && game_exes(dir, nodes)[k]
                    == v[o[k]].2
            &&& forall|a: int, b: int|
                0 <= a < b < o.len() ==> !outranks(v[#[trigger] o[b]].1, v[#[trigger] o[a]].1)
            &&& (exists|i: int| 0 <= i < all.len() && (#[trigger] all[i]).0 == 64) ==> forall|
                k: int,
            |
                0 <= k < v.len() ==> (#[trigger] v[k]).0 == 64
        }),
{
    let all = candidates(programs(dir, nodes), folder_key(dir));
    let v = of_the_game(all);
    let lt = better(v);
    assert(weak_order(lt));
    order_shape(v.len(), lt);
    let o = in_order(v.len(), lt);
    assert forall|a: int, b: int| 0 <= a < b < o.len() implies !outranks(
        v[#[trigger] o[b]].1,
        v[#[trigger] o[a]].1,
    ) by {
        assert(stable(lt)(o[a], o[b]));
    }
    let keep = |c: Candidate| c.0 == 64;
    if exists|i: int| 0 <= i < all.len() && (#[trigger] all[i]).0 == 64 {
        assert forall|k: int| 0 <= k < v.len() implies (#[trigger] v[k]).0 == 64 by {
            all.lemma_filter_pred(keep, k);
        }
    }
}

} // verus!
