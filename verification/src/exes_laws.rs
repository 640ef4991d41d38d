//! Which executables may be the game, by where they lie and what they are called.
use vstd::prelude::*;

use crate::chars::lower;
use crate::exes::{
    better, candidates, engine_binaries, folder_key, game_exes, is_helper, is_program, is_searched,
    is_skipped, may_be_game, of_the_game, outranks, programs, programs_below, programs_in, rank,
    target_of, Candidate, Program, Target,
};
use crate::order::{in_order, order_shape, weak_order};
use crate::paths::{extension_of, joined, stem_of};
use crate::strs::{ends, letters, occurs, same_fold, starts};
use crate::tree::{folder, Kind, Node};

verus! {

/// The words that tell a helper, an installer or a crash handler, in the name of
/// an executable without its extension.
pub open spec fn tells_helper(stem: Seq<char>) -> bool {
    let s = lower(stem);
    ||| occurs(s, "setup"@) || occurs(s, "installer"@) || occurs(s, "unins"@)
    ||| occurs(s, "unitycrashhandler"@) || occurs(s, "crashreportclient"@)
    ||| occurs(s, "unrealcefsubprocess"@) || occurs(s, "easyanticheat"@)
    ||| occurs(s, "vcredist"@) || occurs(s, "vc_redist"@) || occurs(s, "oalinst"@)
}

/// A folder that is never entered: the engine's own, content and saved games, and
/// what is there for redistribution.
pub open spec fn never_entered(name: Seq<char>) -> bool {
    let n = lower(name);
    ||| n == "engine"@ || n == "content"@ || n == "saved"@ || n == "intermediate"@
    ||| n == "reshade-shaders"@ || n == "_commonredist"@ || n == "commonredist"@
    ||| n == "redist"@ || n == "redistributables"@ || ends(n, "_data"@)
}

/// The subfolders at those places can all be entered, one after the other.
pub open spec fn enters(nodes: Seq<Node>, way: Seq<int>) -> bool
    decreases way.len(),
{
    way.len() > 0 ==> {
        &&& 0 <= way[0] < nodes.len()
        &&& nodes[way[0]].kind == Kind::Dir
        &&& !never_entered(nodes[way[0]].name@)
        &&& enters(nodes[way[0]].children@, way.drop_first())
    }
}

/// What lies where the way leads.
pub open spec fn held(nodes: Seq<Node>, way: Seq<int>) -> Seq<Node>
    decreases way.len(),
{
    if way.len() == 0 {
        nodes
    } else {
        held(nodes[way[0]].children@, way.drop_first())
    }
}

/// The path of where the way leads.
pub open spec fn path_at(dir: Seq<char>, nodes: Seq<Node>, way: Seq<int>) -> Seq<char>
    decreases way.len(),
{
    if way.len() == 0 {
        dir
    } else {
        path_at(joined(dir, nodes[way[0]].name@), nodes[way[0]].children@, way.drop_first())
    }
}

/// The entry is a file whose extension is `exe` or `bin`, case aside.
pub open spec fn runs(n: Node) -> bool {
    &&& n.kind == Kind::File
    &&& extension_of(n.name@) is Some
    &&& same_fold(extension_of(n.name@)->0, "exe"@) || same_fold(extension_of(n.name@)->0, "bin"@)
}

/// The entry at `k` where the way leads, as an executable.
pub open spec fn as_program(dir: Seq<char>, nodes: Seq<Node>, way: Seq<int>, k: int) -> Program {
    let n = held(nodes, way)[k];
    Program {
        path: joined(path_at(dir, nodes, way), n.name@),
        name: n.name@,
        len: n.len,
        bits: n.bits,
    }
}

/// An executable lies at `k` where the way leads, no deeper than is searched.
pub open spec fn lies_at(nodes: Seq<Node>, way: Seq<int>, k: int, depth: nat) -> bool {
    &&& way.len() <= depth
    &&& enters(nodes, way)
    &&& 0 <= k < held(nodes, way).len()
    &&& runs(held(nodes, way)[k])
}

/// A helper is told by the words in its name, and by nothing else.
pub proof fn law_helpers(stem: Seq<char>)
    ensures
        is_helper(lower(stem)) ==> tells_helper(stem) || occurs(lower(stem), "dxwebsetup"@)
            || occurs(lower(stem), "dxsetup"@) || occurs(lower(stem), "ue4prereqsetup"@) || occurs(
            lower(stem),
            "ueprereqsetup"@,
        ) || occurs(lower(stem), "uninstall"@),
        tells_helper(stem) ==> is_helper(lower(stem)),
{
}

/// Which folders are searched: all but those that never hold the game's exe.
pub proof fn law_searched(n: Node)
    ensures
        is_searched(n) <==> n.kind == Kind::Dir && !never_entered(n.name@),
        is_skipped(n.name@) <==> never_entered(n.name@),
        is_program(n) <==> runs(n),
{
}

proof fn here_has(dir: Seq<char>, nodes: Seq<Node>, k: int)
    requires
        0 <= k < nodes.len(),
        runs(nodes[k]),
    ensures
        programs_in(dir, nodes).contains(
            Program {
                path: joined(dir, nodes[k].name@),
                name: nodes[k].name@,
                len: nodes[k].len,
                bits: nodes[k].bits,
            },
        ),
    decreases nodes.len(),
{
    let rest = nodes.drop_last();
    let before = programs_in(dir, rest);
    let p = Program {
        path: joined(dir, nodes[k].name@),
        name: nodes[k].name@,
        len: nodes[k].len,
        bits: nodes[k].bits,
    };
    if k < nodes.len() - 1 {
        here_has(dir, rest, k);
        assert(rest[k] == nodes[k]);
        let i = choose|i: int| 0 <= i < before.len() && before[i] == p;
        assert(programs_in(dir, nodes)[i] == p);
    } else {
        assert(is_program(nodes.last()));
        assert(programs_in(dir, nodes)[before.len() as int] == p);
    }
}

proof fn here_only(dir: Seq<char>, nodes: Seq<Node>, i: int) -> (k: int)
    requires
        0 <= i < programs_in(dir, nodes).len(),
    ensures
        0 <= k < nodes.len(),
        runs(nodes[k]),
        programs_in(dir, nodes)[i] == (Program {
            path: joined(dir, nodes[k].name@),
            name: nodes[k].name@,
            len: nodes[k].len,
            bits: nodes[k].bits,
        }),
    decreases nodes.len(),
{
    let rest = nodes.drop_last();
    let before = programs_in(dir, rest);
    if i < before.len() {
        let k = here_only(dir, rest, i);
        assert(rest[k] == nodes[k]);
        k
    } else {
        nodes.len() - 1
    }
}

proof fn in_three(a: Seq<Program>, b: Seq<Program>, c: Seq<Program>, p: Program)
    ensures
        (a + b + c).contains(p) <==> a.contains(p) || b.contains(p) || c.contains(p),
{
    let s = a + b + c;
    if a.contains(p) {
        let i = choose|i: int| 0 <= i < a.len() && a[i] == p;
        assert(s[i] == p);
    }
    if b.contains(p) {
        let i = choose|i: int| 0 <= i < b.len() && b[i] == p;
        assert(s[a.len() + i] == p);
    }
    if c.contains(p) {
        let i = choose|i: int| 0 <= i < c.len() && c[i] == p;
        assert(s[a.len() + b.len() + i] == p);
    }
    if s.contains(p) {
        let i = choose|i: int| 0 <= i < s.len() && s[i] == p;
        if i < a.len() {
            assert(a[i] == p);
        } else if i < a.len() + b.len() {
            assert(b[i - a.len()] == p);
        } else {
            assert(c[i - a.len() - b.len()] == p);
        }
    }
}

#[verifier::rlimit(40)]
proof fn below_has(dir: Seq<char>, nodes: Seq<Node>, way: Seq<int>, k: int, depth: nat)
    requires
        way.len() > 0,
        lies_at(nodes, way, k, depth),
    ensures
        programs_below(dir, nodes, depth).contains(as_program(dir, nodes, way, k)),
    decreases depth, nodes.len(),
{
    let rest = nodes.drop_last();
    let before = programs_below(dir, rest, depth);
    let p = as_program(dir, nodes, way, k);
    let n = nodes.last();
    let sub = joined(dir, n.name@);
    let here = programs_in(sub, n.children@);
    let deeper = programs_below(sub, n.children@, (depth - 1) as nat);
    if way[0] < nodes.len() - 1 {
        assert(rest[way[0]] == nodes[way[0]]);
        below_has(dir, rest, way, k, depth);
        assert(as_program(dir, rest, way, k) == p);
        in_three(before, here, deeper, p);
    } else {
        let more = way.drop_first();
        assert(nodes[way[0]] == n);
        if more.len() == 0 {
            here_has(sub, n.children@, k);
            assert(p == (Program {
                path: joined(sub, n.children@[k].name@),
                name: n.children@[k].name@,
                len: n.children@[k].len,
                bits: n.children@[k].bits,
            }));
        } else {
            below_has(sub, n.children@, more, k, (depth - 1) as nat);
            assert(as_program(sub, n.children@, more, k) == p);
        }
        in_three(before, here, deeper, p);
    }
}

#[verifier::rlimit(40)]
proof fn below_only(dir: Seq<char>, nodes: Seq<Node>, depth: nat, p: Program)
    requires
        programs_below(dir, nodes, depth).contains(p),
    ensures
        exists|way: Seq<int>, k: int|
            way.len() > 0 && #[trigger] lies_at(nodes, way, k, depth) && p == as_program(
                dir,
                nodes,
                way,
                k,
            ),
    decreases depth, nodes.len(),
{
    let rest = nodes.drop_last();
    let before = programs_below(dir, rest, depth);
    let n = nodes.last();
    let sub = joined(dir, n.name@);
    let here = programs_in(sub, n.children@);
    let deeper = programs_below(sub, n.children@, (depth - 1) as nat);
    let last = nodes.len() - 1;
    if is_searched(n) {
        in_three(before, here, deeper, p);
    }
    if before.contains(p) {
        below_only(dir, rest, depth, p);
        let (way, k) = choose|way: Seq<int>, k: int|
            way.len() > 0 && #[trigger] lies_at(rest, way, k, depth) && p == as_program(
                dir,
                rest,
                way,
                k,
            );
        assert(rest[way[0]] == nodes[way[0]]);
        assert(lies_at(nodes, way, k, depth));
        assert(as_program(dir, nodes, way, k) == p);
    } else if here.contains(p) {
        let i = choose|i: int| 0 <= i < here.len() && here[i] == p;
        let k = here_only(sub, n.children@, i);
        let way = seq![last];
        assert(way.drop_first() =~= Seq::<int>::empty());
        assert(enters(n.children@, Seq::<int>::empty()));
        assert(held(n.children@, Seq::<int>::empty()) == n.children@);
        assert(path_at(sub, n.children@, Seq::<int>::empty()) == sub);
        assert(held(nodes, way) == n.children@);
        assert(path_at(dir, nodes, way) == sub);
        assert(lies_at(nodes, way, k, depth));
        assert(as_program(dir, nodes, way, k) == p);
    } else {
        below_only(sub, n.children@, (depth - 1) as nat, p);
        let (more, k) = choose|more: Seq<int>, k: int|
            more.len() > 0 && #[trigger] lies_at(n.children@, more, k, (depth - 1) as nat) && p
                == as_program(sub, n.children@, more, k);
        let way = seq![last] + more;
        assert(way.drop_first() =~= more);
        assert(lies_at(nodes, way, k, depth));
        assert(as_program(dir, nodes, way, k) == p);
    }
}

/// The executable lies in the engine's own `Binaries\Win64`.
pub open spec fn in_engine(dir: Seq<char>, nodes: Seq<Node>, p: Program) -> bool {
    exists|k: int|
        engine_binaries(nodes) is Some && 0 <= k < engine_binaries(nodes)->0.len() && runs(
            #[trigger] engine_binaries(nodes)->0[k],
        ) && p == (Program {
            path: joined(
                joined(joined(joined(dir, "Engine"@), "Binaries"@), "Win64"@),
                engine_binaries(nodes)->0[k].name@,
            ),
            name: engine_binaries(nodes)->0[k].name@,
            len: engine_binaries(nodes)->0[k].len,
            bits: engine_binaries(nodes)->0[k].bits,
        })
}

/// The executables that are looked at are those in the game's folder, in its
/// subfolders down to the fourth level, and in the engine's `Binaries\Win64`.
#[verifier::rlimit(40)]
pub proof fn law_where(dir: Seq<char>, nodes: Seq<Node>, p: Program)
    ensures
        programs(dir, nodes).contains(p) <==> in_engine(dir, nodes, p) || exists|
            way: Seq<int>,
            k: int,
        | #[trigger] lies_at(nodes, way, k, 4) && p == as_program(dir, nodes, way, k),
{
    let a = programs_in(dir, nodes);
    let b = programs_below(dir, nodes, 4);
    let at = joined(joined(joined(dir, "Engine"@), "Binaries"@), "Win64"@);
    let c: Seq<Program> = match engine_binaries(nodes) {
        Some(v) => programs_in(at, v),
        None => Seq::empty(),
    };
    in_three(a, b, c, p);
    if programs(dir, nodes).contains(p) {
        if a.contains(p) {
            let i = choose|i: int| 0 <= i < a.len() && a[i] == p;
            let k = here_only(dir, nodes, i);
            let way = Seq::<int>::empty();
            assert(lies_at(nodes, way, k, 4));
            assert(as_program(dir, nodes, way, k) == p);
        } else if b.contains(p) {
            below_only(dir, nodes, 4, p);
        } else {
            let i = choose|i: int| 0 <= i < c.len() && c[i] == p;
            let k = here_only(at, engine_binaries(nodes)->0, i);
            assert(in_engine(dir, nodes, p));
        }
    }
    if in_engine(dir, nodes, p) {
        let v = engine_binaries(nodes)->0;
        let k = choose|k: int|
            engine_binaries(nodes) is Some && 0 <= k < engine_binaries(nodes)->0.len() && runs(
                #[trigger] engine_binaries(nodes)->0[k],
            ) && p == (Program {
                path: joined(at, engine_binaries(nodes)->0[k].name@),
                name: engine_binaries(nodes)->0[k].name@,
                len: engine_binaries(nodes)->0[k].len,
                bits: engine_binaries(nodes)->0[k].bits,
            });
        here_has(at, v, k);
    }
    if exists|way: Seq<int>, k: int| #[trigger]
        lies_at(nodes, way, k, 4) && p == as_program(dir, nodes, way, k) {
        let (way, k) = choose|way: Seq<int>, k: int| #[trigger]
            lies_at(nodes, way, k, 4) && p == as_program(dir, nodes, way, k);
        if way.len() == 0 {
            here_has(dir, nodes, k);
        } else {
            below_has(dir, nodes, way, k, 4);
        }
    }
}

proof fn candidate_has(v: Seq<Program>, f: Seq<char>, i: int)
    requires
        0 <= i < v.len(),
        may_be_game(v[i]),
    ensures
        candidates(v, f).contains((v[i].bits->0, rank(v[i], f), v[i].path)),
    decreases v.len(),
{
    let rest = v.drop_last();
    let before = candidates(rest, f);
    let c = (v[i].bits->0, rank(v[i], f), v[i].path);
    if i < v.len() - 1 {
        assert(rest[i] == v[i]);
        candidate_has(rest, f, i);
        let k = choose|k: int| 0 <= k < before.len() && before[k] == c;
        assert(candidates(v, f)[k] == c);
    } else {
        assert(candidates(v, f)[before.len() as int] == c);
    }
}

proof fn candidate_only(v: Seq<Program>, f: Seq<char>, k: int) -> (i: int)
    requires
        0 <= k < candidates(v, f).len(),
    ensures
        0 <= i < v.len(),
        may_be_game(v[i]),
        candidates(v, f)[k] == (v[i].bits->0, rank(v[i], f), v[i].path),
    decreases v.len(),
{
    let rest = v.drop_last();
    let before = candidates(rest, f);
    if k < before.len() {
        let i = candidate_only(rest, f, k);
        assert(rest[i] == v[i]);
        i
    } else {
        v.len() - 1
    }
}

proof fn by_rank(v: Seq<Candidate>)
    ensures
        weak_order(better(v)),
{
}

/// An executable can be the game: it is one, of 64 or 32 bits, and no helper.
pub open spec fn plays(p: Program) -> bool {
    p.bits is Some && !is_helper(lower(stem_of(p.name)))
}

/// Every 64-bit executable that is no helper is offered, wherever it is looked
/// for; a 32-bit one where there is no 64-bit one.
pub proof fn law_offered(dir: Seq<char>, nodes: Seq<Node>, p: Program)
    requires
        programs(dir, nodes).contains(p),
        plays(p),
        p.bits == Some(64u8) || forall|q: Program| #[trigger]
            programs(dir, nodes).contains(q) && plays(q) ==> q.bits != Some(64u8),
    ensures
        game_exes(dir, nodes).contains(p.path),
{
    let v = programs(dir, nodes);
    let f = folder_key(dir);
    let all = candidates(v, f);
    let i = choose|i: int| 0 <= i < v.len() && v[i] == p;
    candidate_has(v, f, i);
    let c = (p.bits->0, rank(p, f), p.path);
    let k = choose|k: int| 0 <= k < all.len() && all[k] == c;
    let kept = of_the_game(all);
    let keep = |c: Candidate| c.0 == 64;
    if exists|i: int| 0 <= i < all.len() && (#[trigger] all[i]).0 == 64 {
        let j = choose|j: int| 0 <= j < all.len() && (#[trigger] all[j]).0 == 64;
        let q = candidate_only(v, f, j);
        assert(v.contains(v[q]));
        assert(v[q].bits == Some(64u8) && plays(v[q]));
        assert(p.bits == Some(64u8));
        all.lemma_filter_contains(keep, k);
    }
    assert(kept.contains(c));
    let m = choose|m: int| 0 <= m < kept.len() && kept[m] == c;
    by_rank(kept);
    order_shape(kept.len(), better(kept));
    let o = in_order(kept.len(), better(kept));
    assert(o.contains(m));
    let s = choose|s: int| 0 <= s < o.len() && o[s] == m;
    assert(game_exes(dir, nodes)[s] == p.path);
}

/// Nothing else is offered: what is offered was found, is no helper, and is a
/// 64-bit executable wherever one was found.
pub proof fn law_offered_only(dir: Seq<char>, nodes: Seq<Node>, s: int)
    requires
        0 <= s < game_exes(dir, nodes).len(),
    ensures
        exists|p: Program| #[trigger]
            programs(dir, nodes).contains(p) && plays(p) && p.path == game_exes(dir, nodes)[s] && (
            p.bits == Some(64u8) || forall|q: Program| #[trigger]
                programs(dir, nodes).contains(q) && plays(q) ==> q.bits != Some(64u8)),
{
    let v = programs(dir, nodes);
    let f = folder_key(dir);
    let all = candidates(v, f);
    let kept = of_the_game(all);
    let keep = |c: Candidate| c.0 == 64;
    by_rank(kept);
    order_shape(kept.len(), better(kept));
    let o = in_order(kept.len(), better(kept));
    let m = o[s];
    assert(game_exes(dir, nodes)[s] == kept[m].2);
    let any = exists|i: int| 0 <= i < all.len() && (#[trigger] all[i]).0 == 64;
    let k = if any {
        all.lemma_filter_pred(keep, m);
        assert(kept.contains(kept[m]));
        all.lemma_filter_contains_rev(keep, kept[m]);
        choose|k: int| 0 <= k < all.len() && all[k] == kept[m]
    } else {
        m
    };
    let i = candidate_only(v, f, k);
    let p = v[i];
    assert(v.contains(p));
    assert(plays(p));
    if !any {
        assert forall|q: Program| #[trigger] v.contains(q) && plays(q) implies q.bits != Some(
            64u8,
        ) by {
            let j = choose|j: int| 0 <= j < v.len() && v[j] == q;
            candidate_has(v, f, j);
            let c = (q.bits->0, rank(q, f), q.path);
            let x = choose|x: int| 0 <= x < all.len() && all[x] == c;
            assert(all[x].0 != 64);
        }
    }
}

/// More speaks for one executable than for another: a shipping build comes before
/// all others, then a name that goes with the folder's, then the larger file.
pub proof fn law_what_speaks(p: Program, q: Program, dir: Seq<char>)
    ensures
        ({
            let f = folder_key(dir);
            let ships = |x: Program| ends(lower(stem_of(x.name)), "-shipping"@);
            let named = |x: Program| {
                let n = letters(lower(stem_of(x.name)));
                f.len() > 0 && (starts(n, f) || starts(f, n))
            };
            let first = outranks(rank(p, f), rank(q, f));
            &&& ships(p) && !ships(q) ==> first
            &&& !ships(p) && ships(q) ==> !first
            &&& ships(p) == ships(q) && named(p) && !named(q) ==> first
            &&& ships(p) == ships(q) && !named(p) && named(q) ==> !first
            &&& ships(p) == ships(q) && named(p) == named(q) ==> (first <==> p.len > q.len)
        }),
{
    let f = folder_key(dir);
    assert forall|s: Seq<char>| s == f implies #[trigger] starts(s, f) by {
        assert(s.subrange(0, f.len() as int) =~= f);
    }
}

/// A file is used as it is given; in a folder the best executable is used and all
/// are offered; where there is none, or nothing at all, that is said.
pub proof fn law_target(input: Seq<char>, exes: Seq<Seq<char>>)
    ensures
        target_of(input, Target::File, exes) == Ok::<(Seq<char>, Seq<Seq<char>>), Seq<char>>(
            (input, Seq::empty()),
        ),
        exes.len() > 0 ==> target_of(input, Target::Folder, exes) == Ok::<
            (Seq<char>, Seq<Seq<char>>),
            Seq<char>,
        >((exes[0], exes)),
        exes.len() == 0 ==> target_of(input, Target::Folder, exes) is Err,
        target_of(input, Target::Nothing, exes) is Err,
{
}

} // verus!
