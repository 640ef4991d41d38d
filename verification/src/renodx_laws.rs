//! Which mod a game gets, where it is fetched from, and when it is not.
use vstd::prelude::*;

use crate::chars::lower;
use crate::json::{as_items, as_number, as_text, level_at};
use crate::numbers::parsed_u64;
use crate::order::{by_text, in_order, order_shape, text_order, text_sorted};
use crate::outside::json_level;
use crate::paths::{name_of, parent_of, stem_of};
use crate::renodx::{
    appid_from, appid_of, artifact_in, by_appid_from, by_name_from, facts_of, foreign_in, game_in,
    index_in, install_label, install_report, is_foreign, is_manifest_of, is_wanted, linked_row_from,
    lookup_names, mod_in, node_names, refusal, resolved, row_from, row_of, row_title, row_with,
    status_says, steam_place, title_key, title_keys, wiki_rows, x64_build_from, x64_file, x64_from,
    ArtifactInfo, Facts, GameInfo, Manifest, ModInfo, ModView, Row, SNAPSHOT_NOTE,
};
use crate::strs::{after_last, ends, join, occurs, pieces, same_fold, starts, trim, without_ends};
use crate::tree::Node;

verus! {

/// The row at `k` is the first of that title on the wiki.
pub open spec fn first_row(w: Seq<Row>, title: Seq<char>, k: int) -> bool {
    &&& 0 <= k < w.len()
    &&& title_key(w[k].title) == title_key(title)
    &&& forall|j: int| 0 <= j < k ==> title_key((#[trigger] w[j]).title) != title_key(title)
}

proof fn row_found(w: Seq<Row>, key: Seq<char>, k: int, i: int)
    requires
        0 <= i <= k < w.len(),
        title_key(w[k].title) == key,
        forall|j: int| 0 <= j < k ==> title_key((#[trigger] w[j]).title) != key,
    ensures
        row_from(w, key, i) == Some(w[k]),
    decreases k - i,
{
    if i < k {
        row_found(w, key, k, i + 1);
    }
}

proof fn row_missed(w: Seq<Row>, key: Seq<char>, i: int)
    requires
        0 <= i,
        forall|j: int| 0 <= j < w.len() ==> title_key((#[trigger] w[j]).title) != key,
    ensures
        row_from(w, key, i) is None,
    decreases w.len() - i,
{
    if i < w.len() {
        row_missed(w, key, i + 1);
    }
}

proof fn row_known(w: Seq<Row>, key: Seq<char>, i: int) -> (k: int)
    requires
        0 <= i,
        row_from(w, key, i) is Some,
    ensures
        i <= k < w.len(),
        row_from(w, key, i) == Some(w[k]),
        title_key(w[k].title) == key,
        forall|j: int| i <= j < k ==> title_key((#[trigger] w[j]).title) != key,
    decreases w.len() - i,
{
    if title_key(w[i].title) == key {
        i
    } else {
        row_known(w, key, i + 1)
    }
}

/// Whatever mod a game gets can be downloaded.
pub proof fn law_always_a_link(
    index: Seq<GameInfo>,
    w: Seq<Row>,
    game_dir: Seq<char>,
    exe: Seq<char>,
    appid: Option<u64>,
)
    ensures
        resolved(index, w, game_dir, exe, appid) matches Some(m) ==> m.url is Some,
{
}

/// The first row of the title on the wiki decides: where it has a link, that is
/// the link of the mod, and the file is the one it names; otherwise the file of
/// the snapshot is fetched, with the row's status and a word on it. Without a row
/// the snapshot is fetched too, and nothing is known of it.
pub proof fn law_link(
    index: Seq<GameInfo>,
    w: Seq<Row>,
    game_dir: Seq<char>,
    exe: Seq<char>,
    appid: Option<u64>,
    m: ModView,
    k: int,
)
    requires
        resolved(index, w, game_dir, exe, appid) == Some(m),
    ensures
        first_row(w, m.title, k) && w[k].url is Some ==> {
            &&& m.url == w[k].url
            &&& m.file == after_last(w[k].url->0, "/"@)
            &&& m.status == w[k].status
            &&& m.note == w[k].note
        },
        first_row(w, m.title, k) && w[k].url is None ==> {
            &&& m.url == Some(
                "https://github.com/clshortfuse/renodx/releases/download/snapshot/"@ + m.file,
            )
            &&& m.status == w[k].status
            &&& m.note == trim(w[k].note + SNAPSHOT_NOTE@)
        },
        (forall|j: int|
            0 <= j < w.len() ==> title_key((#[trigger] w[j]).title) != title_key(m.title)) ==> {
            &&& m.url == Some(
                "https://github.com/clshortfuse/renodx/releases/download/snapshot/"@ + m.file,
            )
            &&& m.status == "unknown"@
            &&& m.note.len() == 0
        },
{
    let key = title_key(m.title);
    if first_row(w, m.title, k) {
        row_found(w, key, k, 0);
    }
    if forall|j: int| 0 <= j < w.len() ==> title_key((#[trigger] w[j]).title) != key {
        row_missed(w, key, 0);
    }
}

/// The game at `k` is the first of the index with that app id.
pub open spec fn first_with_id(index: Seq<GameInfo>, id: u64, k: int) -> bool {
    &&& 0 <= k < index.len()
    &&& index[k].steam_appid == Some(id)
    &&& forall|j: int| 0 <= j < k ==> (#[trigger] index[j]).steam_appid != Some(id)
}

proof fn id_found(index: Seq<GameInfo>, id: u64, k: int, i: int)
    requires
        0 <= i <= k,
        first_with_id(index, id, k),
    ensures
        by_appid_from(index, id, i) == Some(index[k]),
    decreases k - i,
{
    if i < k {
        id_found(index, id, k, i + 1);
    }
}

proof fn id_missed(index: Seq<GameInfo>, id: u64, i: int)
    requires
        0 <= i,
        forall|j: int| 0 <= j < index.len() ==> (#[trigger] index[j]).steam_appid != Some(id),
    ensures
        by_appid_from(index, id, i) is None,
    decreases index.len() - i,
{
    if i < index.len() {
        id_missed(index, id, i + 1);
    }
}

/// The app id decides before any name: the first game of the index with it is the
/// game, whatever the folder and the exe are called.
pub proof fn law_app_id_first(
    index: Seq<GameInfo>,
    w: Seq<Row>,
    game_dir: Seq<char>,
    exe: Seq<char>,
    id: u64,
    k: int,
)
    requires
        first_with_id(index, id, k),
        x64_file(index[k]) is Some,
    ensures
        resolved(index, w, game_dir, exe, Some(id)) is Some,
        resolved(index, w, game_dir, exe, Some(id))->0.title == index[k].title,
{
    id_found(index, id, k, 0);
}

/// A game of the index goes by a name where its title, or the name of its exe
/// without `.exe`, has the same letters and digits; one without any goes by none.
pub open spec fn goes_by(g: GameInfo, name: Seq<char>) -> bool {
    ||| title_key(g.title) == title_key(name) && title_key(name).len() > 0
    ||| g.game_exe is Some && title_key(without_ends(g.game_exe->0, ".exe"@)) == title_key(name)
        && title_key(name).len() > 0
}

/// A game of the index goes by the name of the folder, or by that of the exe
/// without its extension.
pub open spec fn is_meant(g: GameInfo, game_dir: Seq<char>, exe: Seq<char>) -> bool {
    ||| name_of(game_dir) is Some && goes_by(g, name_of(game_dir)->0)
    ||| name_of(exe) is Some && goes_by(g, stem_of(name_of(exe)->0))
}

proof fn meant_is_wanted(g: GameInfo, game_dir: Seq<char>, exe: Seq<char>)
    ensures
        is_meant(g, game_dir, exe) <==> is_wanted(g, title_keys(lookup_names(game_dir, exe))),
{
    let names = lookup_names(game_dir, exe);
    let keys = title_keys(names);
    if let Some(n) = name_of(game_dir) {
        assert(names[0] == n);
        assert(keys[0] == title_key(n));
    }
    if let Some(n) = name_of(exe) {
        let last = names.len() - 1;
        assert(names[last] == stem_of(n));
        assert(keys[last] == title_key(stem_of(n)));
    }
    assert forall|k: Seq<char>| #[trigger] keys.contains(k) implies (name_of(game_dir) is Some && k
        == title_key(name_of(game_dir)->0)) || (name_of(exe) is Some && k == title_key(
        stem_of(name_of(exe)->0),
    )) by {
        let i = choose|i: int| 0 <= i < keys.len() && keys[i] == k;
        assert(keys[i] == title_key(names[i]));
    }
}

proof fn name_found(index: Seq<GameInfo>, keys: Seq<Seq<char>>, k: int, i: int)
    requires
        0 <= i <= k < index.len(),
        is_wanted(index[k], keys),
        forall|j: int| 0 <= j < k ==> !is_wanted(#[trigger] index[j], keys),
    ensures
        by_name_from(index, keys, i) == Some(index[k]),
    decreases k - i,
{
    if i < k {
        name_found(index, keys, k, i + 1);
    }
}

proof fn name_missed(index: Seq<GameInfo>, keys: Seq<Seq<char>>, i: int)
    requires
        0 <= i,
        forall|j: int| 0 <= j < index.len() ==> !is_wanted(#[trigger] index[j], keys),
    ensures
        by_name_from(index, keys, i) is None,
    decreases index.len() - i,
{
    if i < index.len() {
        name_missed(index, keys, i + 1);
    }
}

/// Where no game of the index has the app id, the first that goes by the folder's
/// or the exe's name is the game.
pub proof fn law_name_then(
    index: Seq<GameInfo>,
    w: Seq<Row>,
    game_dir: Seq<char>,
    exe: Seq<char>,
    appid: Option<u64>,
    k: int,
)
    requires
        appid matches Some(id) ==> forall|j: int|
            0 <= j < index.len() ==> (#[trigger] index[j]).steam_appid != Some(id),
        0 <= k < index.len(),
        is_meant(index[k], game_dir, exe),
        forall|j: int| 0 <= j < k ==> !is_meant(#[trigger] index[j], game_dir, exe),
        x64_file(index[k]) is Some,
    ensures
        resolved(index, w, game_dir, exe, appid) is Some,
        resolved(index, w, game_dir, exe, appid)->0.title == index[k].title,
{
    let keys = title_keys(lookup_names(game_dir, exe));
    if let Some(id) = appid {
        id_missed(index, id, 0);
    }
    meant_is_wanted(index[k], game_dir, exe);
    assert forall|j: int| 0 <= j < k implies !is_wanted(#[trigger] index[j], keys) by {
        meant_is_wanted(index[j], game_dir, exe);
    }
    name_found(index, keys, k, 0);
}

/// The row at `k` has a link and the name of the folder or of the exe.
pub open spec fn row_meant(w: Seq<Row>, game_dir: Seq<char>, exe: Seq<char>, k: int) -> bool {
    &&& w[k].url is Some
    &&& {
        ||| name_of(game_dir) is Some && title_key(w[k].title) == title_key(name_of(game_dir)->0)
        ||| name_of(exe) is Some && title_key(w[k].title) == title_key(stem_of(name_of(exe)->0))
    }
}

proof fn row_meant_is_linked(w: Seq<Row>, game_dir: Seq<char>, exe: Seq<char>, k: int)
    ensures
        row_meant(w, game_dir, exe, k) <==> w[k].url is Some && title_keys(
            lookup_names(game_dir, exe),
        ).contains(title_key(w[k].title)),
{
    let names = lookup_names(game_dir, exe);
    let keys = title_keys(names);
    let t = title_key(w[k].title);
    if let Some(n) = name_of(game_dir) {
        assert(names[0] == n);
        assert(keys[0] == title_key(n));
    }
    if let Some(n) = name_of(exe) {
        let last = names.len() - 1;
        assert(names[last] == stem_of(n));
        assert(keys[last] == title_key(stem_of(n)));
    }
    if keys.contains(t) {
        let i = choose|i: int| 0 <= i < keys.len() && keys[i] == t;
        assert(keys[i] == title_key(names[i]));
    }
}

proof fn linked_found(w: Seq<Row>, keys: Seq<Seq<char>>, k: int, i: int)
    requires
        0 <= i <= k < w.len(),
        w[k].url is Some && keys.contains(title_key(w[k].title)),
        forall|j: int|
            0 <= j < k ==> !((#[trigger] w[j]).url is Some && keys.contains(title_key(w[j].title))),
    ensures
        linked_row_from(w, keys, i) == Some(w[k]),
    decreases k - i,
{
    if i < k {
        linked_found(w, keys, k, i + 1);
    }
}

proof fn linked_missed(w: Seq<Row>, keys: Seq<Seq<char>>, i: int)
    requires
        0 <= i,
        forall|j: int|
            0 <= j < w.len() ==> !((#[trigger] w[j]).url is Some && keys.contains(
                title_key(w[j].title),
            )),
    ensures
        linked_row_from(w, keys, i) is None,
    decreases w.len() - i,
{
    if i < w.len() {
        linked_missed(w, keys, i + 1);
    }
}

/// A game that the index does not have gets the mod of the first row of the wiki
/// that has a link and the game's name.
pub proof fn law_wiki_alone(
    w: Seq<Row>,
    game_dir: Seq<char>,
    exe: Seq<char>,
    appid: Option<u64>,
    k: int,
)
    requires
        0 <= k < w.len(),
        row_meant(w, game_dir, exe, k),
        forall|j: int| 0 <= j < k ==> !row_meant(w, game_dir, exe, j),
    ensures
        resolved(Seq::empty(), w, game_dir, exe, appid) is Some,
        resolved(Seq::empty(), w, game_dir, exe, appid)->0.title == w[k].title,
{
    let keys = title_keys(lookup_names(game_dir, exe));
    row_meant_is_linked(w, game_dir, exe, k);
    assert forall|j: int| 0 <= j < k implies !((#[trigger] w[j]).url is Some && keys.contains(
        title_key(w[j].title),
    )) by {
        row_meant_is_linked(w, game_dir, exe, j);
        assert(!row_meant(w, game_dir, exe, j));
    }
    linked_found(w, keys, k, 0);
    if let Some(id) = appid {
        id_missed(Seq::empty(), id, 0);
    }
    name_missed(Seq::empty(), keys, 0);
}

/// A game that neither the index nor the wiki knows gets no mod.
pub proof fn law_no_mod(
    index: Seq<GameInfo>,
    w: Seq<Row>,
    game_dir: Seq<char>,
    exe: Seq<char>,
    appid: Option<u64>,
)
    requires
        appid matches Some(id) ==> forall|j: int|
            0 <= j < index.len() ==> (#[trigger] index[j]).steam_appid != Some(id),
        forall|j: int| 0 <= j < index.len() ==> !is_meant(#[trigger] index[j], game_dir, exe),
        forall|j: int| 0 <= j < w.len() ==> !row_meant(w, game_dir, exe, j),
    ensures
        resolved(index, w, game_dir, exe, appid) is None,
{
    let keys = title_keys(lookup_names(game_dir, exe));
    if let Some(id) = appid {
        id_missed(index, id, 0);
    }
    assert forall|j: int| 0 <= j < index.len() implies !is_wanted(#[trigger] index[j], keys) by {
        meant_is_wanted(index[j], game_dir, exe);
    }
    name_missed(index, keys, 0);
    assert forall|j: int| 0 <= j < w.len() implies !((#[trigger] w[j]).url is Some
        && keys.contains(title_key(w[j].title))) by {
        row_meant_is_linked(w, game_dir, exe, j);
        assert(!row_meant(w, game_dir, exe, j));
    }
    linked_missed(w, keys, 0);
}

proof fn x64_of(v: Seq<ArtifactInfo>, i: int)
    requires
        0 <= i,
    ensures
        match x64_from(v, i) {
            Some(n) => exists|k: int|
                i <= k < v.len() && (#[trigger] v[k]).0 == Some("x64"@) && v[k].1 == n,
            None => forall|k: int| i <= k < v.len() ==> (#[trigger] v[k]).0 != Some("x64"@),
        },
    decreases v.len() - i,
{
    if i < v.len() {
        if v[i].0 == Some("x64"@) {
            assert(v[i].1 == x64_from(v, i)->0);
        } else {
            x64_of(v, i + 1);
        }
    }
}

proof fn x64_build_of(v: Seq<ModInfo>, plain: bool, i: int)
    requires
        0 <= i,
    ensures
        match x64_build_from(v, plain, i) {
            Some(n) => exists|k: int, a: int|
                i <= k < v.len() && (#[trigger] v[k]).plain == plain && 0 <= a
                    < v[k].artifacts.len() && (#[trigger] v[k].artifacts[a]).0 == Some("x64"@)
                    && v[k].artifacts[a].1 == n,
            None => forall|k: int, a: int|
                i <= k < v.len() && (#[trigger] v[k]).plain == plain && 0 <= a
                    < v[k].artifacts.len() ==> (#[trigger] v[k].artifacts[a]).0 != Some("x64"@),
        },
    decreases v.len() - i,
{
    if i < v.len() {
        x64_of(v[i].artifacts, 0);
        if v[i].plain == plain && x64_from(v[i].artifacts, 0) is Some {
            let n = x64_from(v[i].artifacts, 0)->0;
            let a = choose|a: int|
                0 <= a < v[i].artifacts.len() && (#[trigger] v[i].artifacts[a]).0 == Some("x64"@)
                    && v[i].artifacts[a].1 == n;
            assert(v[i].artifacts[a].1 == n);
        } else {
            x64_build_of(v, plain, i + 1);
        }
    }
}

/// The file of a game's mod is a 64-bit artifact of one of its builds: of a plain
/// one wherever a plain one has such an artifact.
pub proof fn law_64_bit_file(g: GameInfo, file: Seq<char>)
    requires
        x64_file(g) == Some(file),
    ensures
        exists|k: int, a: int|
            0 <= k < g.mods.len() && 0 <= a < (#[trigger] g.mods[k]).artifacts.len() && (
            #[trigger] g.mods[k].artifacts[a]).0 == Some("x64"@) && g.mods[k].artifacts[a].1
                == Some(file) && (g.mods[k].plain || forall|j: int, b: int|
                0 <= j < g.mods.len() && (#[trigger] g.mods[j]).plain && 0 <= b
                    < g.mods[j].artifacts.len() ==> (#[trigger] g.mods[j].artifacts[b]).0 != Some(
                    "x64"@,
                )),
{
    x64_build_of(g.mods, true, 0);
    x64_build_of(g.mods, false, 0);
    let plain = x64_build_from(g.mods, true, 0) is Some;
    let (k, a) = choose|k: int, a: int|
        0 <= k < g.mods.len() && (#[trigger] g.mods[k]).plain == plain && 0 <= a
            < g.mods[k].artifacts.len() && (#[trigger] g.mods[k].artifacts[a]).0 == Some("x64"@)
            && g.mods[k].artifacts[a].1 == Some(file);
    assert(g.mods[k].artifacts[a].1 == Some(file));
}

/// A game whose builds are all for 32 bits has no file.
pub proof fn law_no_64_bit_file(g: GameInfo)
    requires
        forall|k: int, a: int|
            0 <= k < g.mods.len() && 0 <= a < (#[trigger] g.mods[k]).artifacts.len() ==> (
            #[trigger] g.mods[k].artifacts[a]).0 != Some("x64"@),
    ensures
        x64_file(g) is None,
{
    x64_build_of(g.mods, true, 0);
    x64_build_of(g.mods, false, 0);
}

/// The file of a mod from the index is that of the matched game, where the wiki
/// has no link of its own.
pub proof fn law_index_file(
    index: Seq<GameInfo>,
    w: Seq<Row>,
    game_dir: Seq<char>,
    exe: Seq<char>,
    id: u64,
    k: int,
)
    requires
        first_with_id(index, id, k),
        x64_file(index[k]) is Some,
        forall|j: int|
            0 <= j < w.len() && title_key((#[trigger] w[j]).title) == title_key(index[k].title)
                ==> w[j].url is None,
    ensures
        resolved(index, w, game_dir, exe, Some(id))->0.file == x64_file(index[k])->0,
{
    id_found(index, id, k, 0);
    let key = title_key(index[k].title);
    if row_from(w, key, 0) is Some {
        let r = row_known(w, key, 0);
        assert(title_key(w[r].title) == key);
    }
}

/// A game mod of RenoDX is told by its name, case aside: not the DLSS 5 add-on,
/// not the DLSS fix, not the DLSS mod.
pub open spec fn names_a_mod(n: Seq<char>) -> bool {
    let l = lower(n);
    &&& starts(l, "renodx-"@)
    &&& ends(l, ".addon64"@) || ends(l, ".addon32"@)
    &&& !(starts(l, "renodx-dlssfix"@) || starts(l, "renodx-dlss5"@) || starts(l, "renodx-dlss."@))
}

proof fn sorted_has(v: Seq<Seq<char>>, x: Seq<char>)
    ensures
        text_sorted(v).contains(x) <==> v.contains(x),
        text_sorted(v).len() == v.len(),
{
    text_order(v);
    let lt = by_text(v);
    let o = in_order(v.len(), lt);
    order_shape(v.len(), lt);
    if v.contains(x) {
        let i = choose|i: int| 0 <= i < v.len() && v[i] == x;
        assert(o.contains(i));
        let k = choose|k: int| 0 <= k < o.len() && o[k] == i;
        assert(text_sorted(v)[k] == x);
    }
    if text_sorted(v).contains(x) {
        let k = choose|k: int| 0 <= k < text_sorted(v).len() && text_sorted(v)[k] == x;
        assert(v[o[k]] == x);
    }
}

/// The foreign mods of a folder are the game mods in it but the one that was
/// placed by this tool, case aside; none is left out, nothing else is named.
pub proof fn law_foreign(nodes: Seq<Node>, ours: Option<Seq<char>>, n: Seq<char>)
    ensures
        foreign_in(nodes, ours).contains(n) <==> names_a_mod(n) && (ours is None || !same_fold(
            ours->0,
            n,
        )) && exists|i: int| 0 <= i < nodes.len() && (#[trigger] nodes[i]).name@ == n,
{
    let all = node_names(nodes);
    let keep = |n: Seq<char>| is_foreign(n, ours);
    let v = all.filter(keep);
    sorted_has(v, n);
    if v.contains(n) {
        all.lemma_filter_contains_rev(keep, n);
        let k = choose|k: int| 0 <= k < v.len() && v[k] == n;
        all.lemma_filter_pred(keep, k);
        let i = choose|i: int| 0 <= i < all.len() && all[i] == n;
        assert(nodes[i].name@ == n);
    }
    if keep(n) && exists|i: int| 0 <= i < nodes.len() && (#[trigger] nodes[i]).name@ == n {
        let i = choose|i: int| 0 <= i < nodes.len() && (#[trigger] nodes[i]).name@ == n;
        assert(all[i] == n);
        all.lemma_filter_contains(keep, i);
    }
}

/// A mod is installed exactly where it has a link and no other game mod lies in
/// the folder; its own file there is no obstacle.
pub proof fn law_one_mod(m: ModView, dir: Seq<Node>)
    ensures
        refusal(m, dir) is None <==> m.url is Some && forall|i: int|
            0 <= i < dir.len() && names_a_mod((#[trigger] dir[i]).name@) ==> same_fold(
                m.file,
                dir[i].name@,
            ),
{
    let others = foreign_in(dir, Some(m.file));
    if others.len() > 0 {
        let n = others[0];
        assert(others.contains(n));
        law_foreign(dir, Some(m.file), n);
        let i = choose|i: int| 0 <= i < dir.len() && (#[trigger] dir[i]).name@ == n;
        assert(names_a_mod(dir[i].name@));
    } else {
        assert forall|i: int|
            0 <= i < dir.len() && names_a_mod((#[trigger] dir[i]).name@) implies same_fold(
            m.file,
            dir[i].name@,
        ) by {
            law_foreign(dir, Some(m.file), dir[i].name@);
        }
    }
}

/// A mod that is not installed is refused with the reason: that it has no link, or
/// which other mods are there.
pub proof fn law_refusal_text(m: ModView, dir: Seq<Node>)
    ensures
        refusal(m, dir) matches Some(t) ==> {
            &&& m.url is None ==> starts(t, "the RenoDX mod for "@ + m.title)
            &&& m.url is Some ==> starts(
                t,
                "this game already has a RenoDX mod ("@ + join(
                    foreign_in(dir, Some(m.file)),
                    ", "@,
                ),
            )
        },
{
    if let Some(t) = refusal(m, dir) {
        if m.url is None {
            let head = "the RenoDX mod for "@ + m.title;
            assert(t.subrange(0, head.len() as int) =~= head);
        } else {
            let head = "this game already has a RenoDX mod ("@ + join(
                foreign_in(dir, Some(m.file)),
                ", "@,
            );
            assert(t.subrange(0, head.len() as int) =~= head);
        }
    }
}

/// The file is a Steam manifest of the folder: named as one, with that folder in
/// it, case aside.
pub open spec fn belongs_to(m: Facts, installdir: Seq<char>) -> bool {
    &&& starts(lower(m.0), "appmanifest_"@)
    &&& ends(lower(m.0), ".acf"@)
    &&& m.1 is Some
    &&& lower(m.1->0) == lower(installdir)
}

/// The app id is that of the first manifest of the folder, and of no other.
pub proof fn law_app_id(v: Seq<Facts>, installdir: Seq<char>, k: int)
    requires
        0 <= k < v.len(),
        belongs_to(v[k], installdir),
        forall|j: int| 0 <= j < k ==> !belongs_to(#[trigger] v[j], installdir),
    ensures
        v[k].2 is Some ==> appid_from(v, installdir, 0) == parsed_u64(v[k].2->0),
        v[k].2 is None ==> appid_from(v, installdir, 0) is None,
{
    id_read(v, installdir, k, 0);
}

proof fn id_read(v: Seq<Facts>, installdir: Seq<char>, k: int, i: int)
    requires
        0 <= i <= k < v.len(),
        is_manifest_of(v[k], installdir),
        forall|j: int| 0 <= j < k ==> !belongs_to(#[trigger] v[j], installdir),
    ensures
        appid_from(v, installdir, i) == appid_from(v, installdir, k),
    decreases k - i,
{
    if i < k {
        assert(!belongs_to(v[i], installdir));
        id_read(v, installdir, k, i + 1);
    }
}

/// Without a manifest of the folder there is no app id.
pub proof fn law_no_app_id(v: Seq<Facts>, installdir: Seq<char>, i: int)
    requires
        0 <= i,
        forall|j: int| 0 <= j < v.len() ==> !belongs_to(#[trigger] v[j], installdir),
    ensures
        appid_from(v, installdir, i) is None,
    decreases v.len() - i,
{
    if i < v.len() {
        assert(!belongs_to(v[i], installdir));
        law_no_app_id(v, installdir, i + 1);
    }
}

/// The folder is `common` in `steamapps`, case aside.
pub open spec fn in_steamapps(d: Seq<char>) -> bool {
    &&& name_of(d) is Some && same_fold(name_of(d)->0, "common"@)
    &&& parent_of(d) is Some
    &&& name_of(parent_of(d)->0) is Some && same_fold(name_of(parent_of(d)->0)->0, "steamapps"@)
}

/// A folder in `steamapps\common` is where Steam keeps the game, by its name; a
/// folder elsewhere is kept where the folder that it lies in is.
pub proof fn law_steam_place(dir: Seq<char>, d: Seq<char>)
    requires
        parent_of(dir) == Some(d),
    ensures
        in_steamapps(d) && name_of(dir) is Some ==> steam_place(dir) == Some(
            (name_of(dir)->0, parent_of(d)->0),
        ),
        !in_steamapps(d) ==> steam_place(dir) == steam_place(d),
{
}

/// A status is given for what the wiki marks: a check mark counts before a sign of
/// work, and without either nothing is known.
pub proof fn law_row_status(line: Seq<char>, links: Seq<Seq<char>>, notes: Seq<Seq<char>>)
    ensures
        ({
            let r = row_with(line, links, notes);
            &&& occurs(line, ":white_check_mark:"@) ==> status_says(r.status) == "working"@
            &&& !occurs(line, ":white_check_mark:"@) && occurs(line, ":construction:"@)
                ==> status_says(r.status) == "in progress — may have issues"@
            &&& !occurs(line, ":white_check_mark:"@) && !occurs(line, ":construction:"@)
                ==> status_says(r.status) == "status unknown"@
            &&& links.len() > 0 ==> r.url == Some(links[0])
            &&& links.len() == 0 ==> r.url is None
            &&& pieces(line, '|').len() > 1 ==> r.title == trim(pieces(line, '|')[1])
        }),
{
    reveal_strlit("stable");
    reveal_strlit("wip");
    reveal_strlit("unknown");
    assert("stable"@.len() == 6 && "wip"@.len() == 3 && "unknown"@.len() == 7);
}

/// The rows of the wiki are those of its lines that are rows of the table, are not
/// its head and have a name, in their order.
pub proof fn law_rows(ls: Seq<Seq<char>>, l: Seq<char>)
    ensures
        starts(l, "| "@) && !starts(l, "| Name"@) && !starts(l, "| :"@) && row_title(l).len() > 0
            ==> wiki_rows(ls.push(l)) == wiki_rows(ls).push(row_of(l)),
        !(starts(l, "| "@) && !starts(l, "| Name"@) && !starts(l, "| :"@) && row_title(l).len()
            > 0) ==> wiki_rows(ls.push(l)) == wiki_rows(ls),
{
    assert(ls.push(l).drop_last() =~= ls);
}

/// The index is read from the members of those names: a build is plain where it is
/// of no variant, and an artifact has its architecture and its name.
pub proof fn law_index_members(t: Seq<char>, i: int)
    ensures
        ({
            let l = json_level(t);
            &&& artifact_in(t).0 == as_text(level_at(l, "arch"@))
            &&& artifact_in(t).1 == as_text(level_at(l, "name"@))
            &&& mod_in(t).plain <==> level_at(l, "variant"@) is Null
            &&& 0 <= i < as_items(level_at(l, "artifacts"@)).len() ==> mod_in(t).artifacts[i]
                == artifact_in(as_items(level_at(l, "artifacts"@))[i])
            &&& level_at(l, "title"@) is Text ==> game_in(t).title == as_text(
                level_at(l, "title"@),
            )->0
            &&& game_in(t).steam_appid == as_number(level_at(l, "steam_appid"@))
            &&& game_in(t).game_exe == as_text(level_at(level_at(l, "deploy"@), "game_exe"@))
            &&& 0 <= i < as_items(level_at(l, "mods"@)).len() ==> game_in(t).mods[i] == mod_in(
                as_items(level_at(l, "mods"@))[i],
            )
            &&& index_in(t) is None <==> l is Invalid
            &&& !(l is Invalid) && 0 <= i < as_items(level_at(l, "games"@)).len() ==> index_in(
                t,
            )->0[i] == game_in(as_items(level_at(l, "games"@))[i])
        }),
{
}

/// Steam's id of a game is looked up by the folder under `common` that the game
/// lies in; a game elsewhere has none.
pub proof fn law_id_of_game(game_dir: Seq<char>, manifests: Seq<Manifest>)
    ensures
        steam_place(game_dir) is None ==> appid_of(game_dir, manifests) is None,
        steam_place(game_dir) matches Some(p) ==> appid_of(game_dir, manifests) == appid_from(
            manifests.map_values(|m: Manifest| facts_of(m)),
            p.0,
            0,
        ),
{
}

/// What is shown while a mod is fetched names the game, and what is reported names
/// the file, the game and how well the mod works.
pub proof fn law_install_texts(m: ModView)
    ensures
        install_label(m) == "RenoDX: "@ + m.title,
        starts(install_report(m), m.file),
        m.status == "stable"@ ==> install_report(m) == m.file + " ("@ + m.title + ", "@
            + "working"@ + ")"@,
{
    assert(install_report(m).subrange(0, m.file.len() as int) =~= m.file);
}

} // verus!
