//! What the stores list, and how it is shown.
use vstd::prelude::*;

use crate::bytes::le_value;
use crate::chars::lower;
use crate::exes::Target;
use crate::library::{
    acf_from, acf_in, added_view, added_views, art_below, art_for, art_named, backslashed, either,
    entry_in, epic_from, epic_made, gaming_root, icon_game, is_clear, is_tool, own_title, rgba_at,
    stands_for, steam_art, steam_places, unescaped, units_from, with_steam, xbox_view, AddedPath,
    ArtStep, PosterView, Store,
};
use crate::json::{as_text, level_at, Level};
use crate::numbers::parsed_u64;
use crate::outside::utf16_lossy;
use crate::paths::{joined, name_of, parent_of, same_path, stem_of};
use crate::strs::{
    at, ends, find_from, find_from_first, occurs, opt_string, replace_text, same_fold, starts,
};
use crate::tree::{has_file, Kind, Node};

verus! {

/// The runtimes that Steam installs beside games are no games, by their id or by
/// their name, case aside; everything else is.
pub proof fn law_tools(appid: u64, name: Seq<char>)
    ensures
        is_tool(appid, name) <==> appid == 228980 || starts(lower(name), "proton"@) || occurs(
            lower(name),
            "steamvr"@,
        ) || occurs(lower(name), "steam linux runtime"@) || occurs(
            lower(name),
            "steamworks common redistributables"@,
        ),
{
}

/// A manifest is read where it gives an id that is a number, a name and a folder.
pub proof fn law_manifest(id: Seq<char>, name: Seq<char>, dir: Seq<char>)
    ensures
        acf_from(Some(id), Some(name), Some(dir)) is Some <==> parsed_u64(id) is Some,
        parsed_u64(id) is Some ==> acf_from(Some(id), Some(name), Some(dir)) == Some(
            (parsed_u64(id)->0, name, dir),
        ),
        acf_from(None, Some(name), Some(dir)) is None,
        acf_from(Some(id), None, Some(dir)) is None,
        acf_from(Some(id), Some(name), None) is None,
{
}

/// A file of Steam describes a game where it is named as a manifest, can be read
/// and is none of a tool; the game lies in `common` under the manifest's folder.
pub proof fn law_steam_entry(steamapps: Seq<char>, name: Seq<char>, text: Seq<char>)
    ensures
        entry_in(steamapps, name, text) is Some <==> starts(lower(name), "appmanifest_"@) && ends(
            lower(name),
            ".acf"@,
        ) && acf_in(text) is Some && !is_tool((acf_in(text)->0).0, (acf_in(text)->0).1),
        entry_in(steamapps, name, text) matches Some(e) ==> e.0 == (acf_in(text)->0).0 && e.1 == (
        acf_in(text)->0).1 && e.2 == joined(joined(steamapps, "common"@), (acf_in(text)->0).2),
{
}

/// Steam's own folder is always among the roots, once; the others stay.
pub proof fn law_steam_root(roots: Seq<Seq<char>>, steam: Seq<char>, i: int)
    ensures
        exists|k: int|
            0 <= k < with_steam(roots, steam).len() && (same_path(
                #[trigger] with_steam(roots, steam)[k],
                steam,
            ) || with_steam(roots, steam)[k] == steam),
        0 <= i < roots.len() ==> with_steam(roots, steam)[i] == roots[i],
        0 <= i < roots.len() && same_path(roots[i], steam) ==> with_steam(roots, steam) == roots,
        (forall|k: int| 0 <= k < roots.len() ==> !same_path(#[trigger] roots[k], steam))
            ==> with_steam(roots, steam) == roots.push(steam),
{
    let w = with_steam(roots, steam);
    if exists|k: int| 0 <= k < roots.len() && same_path(#[trigger] roots[k], steam) {
        let k = choose|k: int| 0 <= k < roots.len() && same_path(#[trigger] roots[k], steam);
        assert(w[k] == roots[k]);
    } else {
        assert(w[roots.len() as int] == steam);
    }
}

/// Where Steam is looked for: what the user's settings say counts before what the
/// machine's say, and the default comes last.
pub proof fn law_steam_places(user: Option<Seq<char>>, machine: Option<Seq<char>>)
    ensures
        steam_places(user, machine).last() == "C:\\Program Files (x86)\\Steam"@,
        user is Some ==> steam_places(user, machine)[0] == backslashed(user->0),
        machine is Some ==> steam_places(user, machine)[steam_places(user, machine).len() - 2]
            == machine->0,
        steam_places(user, machine).len() == 1 + (if user is Some {
            1int
        } else {
            0
        }) + (if machine is Some {
            1int
        } else {
            0
        }),
{
}

proof fn slashed(p: Seq<char>)
    ensures
        backslashed(p).len() == p.len(),
        forall|i: int|
            0 <= i < p.len() ==> #[trigger] backslashed(p)[i] == (if p[i] == '/' {
                '\\'
            } else {
                p[i]
            }),
    decreases p.len(),
{
    reveal_strlit("\\");
    if p.len() > 0 {
        slashed(p.drop_last());
        let q = backslashed(p);
        let u = backslashed(p.drop_last());
        assert forall|i: int| 0 <= i < p.len() implies #[trigger] q[i] == (if p[i] == '/' {
            '\\'
        } else {
            p[i]
        }) by {
            if i < p.len() - 1 {
                assert(q[i] == u[i]);
            }
        }
    }
}

/// A path with slashes becomes one with backslashes, place for place.
pub proof fn law_backslashed(p: Seq<char>, i: int)
    ensures
        backslashed(p).len() == p.len(),
        0 <= i < p.len() ==> backslashed(p)[i] == (if p[i] == '/' {
            '\\'
        } else {
            p[i]
        }),
        !backslashed(p).contains('/'),
        !p.contains('/') ==> backslashed(p) == p,
{
    slashed(p);
    if !p.contains('/') {
        assert(backslashed(p) =~= p);
    }
}

/// The path as the file of roots writes it: each backslash twice.
pub open spec fn escaped(p: Seq<char>) -> Seq<char>
    decreases p.len(),
{
    if p.len() == 0 {
        p
    } else if p[0] == '\\' {
        seq!['\\', '\\'] + escaped(p.drop_first())
    } else {
        seq![p[0]] + escaped(p.drop_first())
    }
}

/// A root is read as it was written.
#[verifier::rlimit(40)]
pub proof fn law_root_read(p: Seq<char>)
    ensures
        unescaped(escaped(p)) == p,
    decreases p.len(),
{
    reveal_strlit("\\\\");
    reveal_strlit("\\");
    let two = "\\\\"@;
    let one = "\\"@;
    if p.len() == 0 {
        assert(find_from(p, two, 0) is None);
    } else {
        let rest = p.drop_first();
        let e = escaped(p);
        let more = escaped(rest);
        law_root_read(rest);
        if p[0] == '\\' {
            assert(e.subrange(0, 2) =~= two);
            assert(at(e, two, 0));
            assert(find_from(e, two, 0) == Some(0int));
            assert(e.skip(2) =~= more);
            assert(e.take(0) =~= Seq::<char>::empty());
            assert(Seq::<char>::empty() + one + unescaped(more) =~= p);
        } else {
            assert(e.skip(1) =~= more);
            shift_replace(e, two, one);
            assert(unescaped(e) == seq![e[0]] + unescaped(more));
            assert(seq![p[0]] + rest =~= p);
        }
    }
}

/// What does not begin as the pattern does is passed over.
proof fn shift_replace(s: Seq<char>, from: Seq<char>, to: Seq<char>)
    requires
        s.len() > 0,
        from.len() > 0,
        s[0] != from[0],
    ensures
        replace_text(s, from, to) == seq![s[0]] + replace_text(s.skip(1), from, to),
{
    let t = s.skip(1);
    assert(!at(s, from, 0)) by {
        if at(s, from, 0) {
            assert(s.subrange(0, from.len() as int)[0] == s[0]);
        }
    }
    shift_find(s, from, 0);
    assert(find_from(s, from, 0) == find_from(s, from, 1) || s.len() < from.len());
    find_from_first(t, from, 0);
    match find_from(t, from, 0) {
        Some(i) => {
            assert(find_from(s, from, 0) == Some(i + 1));
            assert(s.take(i + 1) =~= seq![s[0]] + t.take(i));
            assert(s.skip(i + 1 + from.len()) =~= t.skip(i + from.len()));
            assert(replace_text(s, from, to) =~= seq![s[0]] + replace_text(t, from, to));
        },
        None => {
            assert(find_from(s, from, 0) is None);
            assert(s =~= seq![s[0]] + t);
        },
    }
}

proof fn shift_find(s: Seq<char>, from: Seq<char>, i: int)
    requires
        s.len() > 0,
        from.len() > 0,
        0 <= i,
    ensures
        find_from(s, from, i + 1) == (match find_from(s.skip(1), from, i) {
            Some(k) => Some(k + 1),
            None => None,
        }),
    decreases s.len() - i,
{
    let t = s.skip(1);
    if i + from.len() <= t.len() {
        assert(t.subrange(i, i + from.len()) =~= s.subrange(i + 1, i + 1 + from.len()));
        assert(at(t, from, i) == at(s, from, i + 1));
        if !at(t, from, i) {
            shift_find(s, from, i + 1);
        }
    }
}

/// A piece of art is found in the app's folder, else in a subfolder of it, and
/// nowhere else.
pub proof fn law_art_found(dir: Seq<char>, nodes: Seq<Node>, name: Seq<char>, k: int)
    ensures
        has_file(nodes, name) ==> art_named(dir, nodes, name) == Some(joined(dir, name)),
        !has_file(nodes, name) && 0 <= k < nodes.len() && nodes[k].kind == Kind::Dir && has_file(
            nodes[k].children@,
            name,
        ) && (forall|j: int|
            0 <= j < k ==> !((#[trigger] nodes[j]).kind == Kind::Dir && has_file(
                nodes[j].children@,
                name,
            ))) ==> art_named(dir, nodes, name) == Some(joined(joined(dir, nodes[k].name@), name)),
        !has_file(nodes, name) && (forall|j: int|
            0 <= j < nodes.len() ==> !((#[trigger] nodes[j]).kind == Kind::Dir && has_file(
                nodes[j].children@,
                name,
            ))) ==> art_named(dir, nodes, name) is None,
{
    if 0 <= k < nodes.len() && nodes[k].kind == Kind::Dir && has_file(nodes[k].children@, name) && (
    forall|j: int|
        0 <= j < k ==> !((#[trigger] nodes[j]).kind == Kind::Dir && has_file(
            nodes[j].children@,
            name,
        ))) {
        below_found(dir, nodes, name, k, 0);
    }
    if forall|j: int|
        0 <= j < nodes.len() ==> !((#[trigger] nodes[j]).kind == Kind::Dir && has_file(
            nodes[j].children@,
            name,
        )) {
        below_missed(dir, nodes, name, 0);
    }
}

proof fn below_found(dir: Seq<char>, nodes: Seq<Node>, name: Seq<char>, k: int, i: int)
    requires
        0 <= i <= k < nodes.len(),
        nodes[k].kind == Kind::Dir && has_file(nodes[k].children@, name),
        forall|j: int|
            0 <= j < k ==> !((#[trigger] nodes[j]).kind == Kind::Dir && has_file(
                nodes[j].children@,
                name,
            )),
    ensures
        art_below(dir, nodes, name, i) == Some(joined(joined(dir, nodes[k].name@), name)),
    decreases k - i,
{
    if i < k {
        below_found(dir, nodes, name, k, i + 1);
    }
}

proof fn below_missed(dir: Seq<char>, nodes: Seq<Node>, name: Seq<char>, i: int)
    requires
        0 <= i,
        forall|j: int|
            0 <= j < nodes.len() ==> !((#[trigger] nodes[j]).kind == Kind::Dir && has_file(
                nodes[j].children@,
                name,
            )),
    ensures
        art_below(dir, nodes, name, i) is None,
    decreases nodes.len() - i,
{
    if i < nodes.len() {
        below_missed(dir, nodes, name, i + 1);
    }
}

/// Portrait art counts before landscape, and the network only where there is
/// nothing on the machine.
pub proof fn law_art_order(dir: Seq<char>, nodes: Seq<Node>, appid: u64)
    ensures
        has_file(nodes, "library_600x900.jpg"@) ==> steam_art(dir, nodes, appid)
            == PosterView::File(joined(dir, "library_600x900.jpg"@)),
        steam_art(dir, nodes, appid) is SteamCdn <==> art_named(
            dir,
            nodes,
            "library_600x900.jpg"@,
        ) is None && art_named(dir, nodes, "library_capsule.jpg"@) is None && art_named(
            dir,
            nodes,
            "library_header.jpg"@,
        ) is None && art_named(dir, nodes, "header.jpg"@) is None,
        steam_art(dir, nodes, appid) matches PosterView::SteamCdn(id) ==> id == appid,
        art_named(dir, nodes, "library_600x900.jpg"@) is None && has_file(
            nodes,
            "library_capsule.jpg"@,
        ) ==> steam_art(dir, nodes, appid) == PosterView::File(
            joined(dir, "library_capsule.jpg"@),
        ),
        !(steam_art(dir, nodes, appid) is ExeIcon),
{
}

/// Art is fetched only where it is neither there nor known to be missing.
pub proof fn law_art_once(none_there: bool, file_there: bool)
    ensures
        art_for(none_there, file_there) == ArtStep::Download <==> !none_there && !file_there,
        art_for(none_there, file_there) == ArtStep::Open <==> file_there && !none_there,
{
}

/// An Epic manifest is a game where it is of an application that is completely
/// installed and has a title and a folder; its exe lies in that folder.
pub proof fn law_epic(
    application: bool,
    incomplete: bool,
    title: Option<Seq<char>>,
    dir: Option<Seq<char>>,
    exe: Option<Seq<char>>,
)
    ensures
        ({
            let g = epic_made(application, incomplete, title, dir, exe);
            &&& g is Some <==> application && !incomplete && title is Some && dir is Some
            &&& g matches Some(e) ==> e.0 == title->0 && e.1 == dir->0
            &&& g matches Some(e) ==> (e.2 is Some <==> exe is Some && exe->0.len() > 0)
            &&& g matches Some(e) ==> (e.2 is Some ==> e.2->0 == joined(
                dir->0,
                backslashed(exe->0),
            ))
        }),
{
}

/// What an Epic manifest says is read from the members of those names; what is
/// not plainly true is not.
pub proof fn law_epic_members(l: Level)
    ensures
        epic_from(l) is Some <==> level_at(l, "bIsApplication"@) == Level::Bool(true) && level_at(
            l,
            "bIsIncompleteInstall"@,
        ) != Level::Bool(true) && as_text(level_at(l, "DisplayName"@)) is Some && as_text(
            level_at(l, "InstallLocation"@),
        ) is Some,
        epic_from(l) matches Some(e) ==> e.0 == as_text(level_at(l, "DisplayName"@))->0 && e.1
            == as_text(level_at(l, "InstallLocation"@))->0,
{
}

/// A game whose artwork is an icon shows that of its exe, else that of its
/// folder.
pub proof fn law_icon(
    title: Seq<char>,
    store: Store,
    dir: Seq<char>,
    exe: Option<Seq<char>>,
    icon: Option<Seq<char>>,
    installed: int,
)
    ensures
        ({
            let g = icon_game(title, store, dir, exe, icon, installed);
            &&& g.title == title && g.store == store && g.dir == dir && g.exe_hint == exe
            &&& g.installed == installed
            &&& icon is Some ==> g.poster == PosterView::ExeIcon(icon->0)
            &&& icon is None ==> g.poster == PosterView::ExeIcon(dir)
        }),
{
}

/// A Game Pass game goes by its own title unless that is a reference to a
/// resource, else by its folder; it shows its logo where that is a file, else
/// the icon of its exe, else that of its folder.
pub proof fn law_xbox(
    folder: Seq<char>,
    content: Seq<char>,
    title: Option<Seq<char>>,
    exe: Option<Seq<char>>,
    logo: Option<Seq<char>>,
    logo_is_file: bool,
    installed: int,
)
    ensures
        ({
            let g = xbox_view(folder, content, own_title(title), exe, logo, logo_is_file, installed);
            &&& g.store == Store::Xbox && g.dir == content && g.installed == installed
            &&& title is Some && !starts(title->0, "ms-resource"@) ==> g.title == title->0
            &&& title is None || starts(title->0, "ms-resource"@) ==> g.title == folder
            &&& exe is Some ==> g.exe_hint == Some(joined(content, backslashed(exe->0)))
            &&& exe is None ==> g.exe_hint is None
            &&& logo is Some && logo_is_file ==> g.poster == PosterView::File(
                joined(content, backslashed(logo->0)),
            )
            &&& !(logo is Some && logo_is_file) && exe is Some ==> g.poster == PosterView::ExeIcon(
                joined(content, backslashed(exe->0)),
            )
            &&& !(logo is Some && logo_is_file) && exe is None ==> g.poster == PosterView::ExeIcon(
                content,
            )
        }),
{
}

/// The tile of a game counts before the logo of the store.
pub proof fn law_logo(tile: Option<Seq<char>>, store: Option<Seq<char>>)
    ensures
        tile is Some ==> either(tile, store) == tile,
        tile is None ==> either(tile, store) == store,
{
}

/// The file of a drive's games names their folder where it begins as it should
/// and the name is not empty.
pub proof fn law_gaming_root(b: Seq<u8>)
    ensures
        gaming_root(b) is Some ==> b.len() >= 10 && b[0] == 82 && b[1] == 71 && b[2] == 66 && b[3]
            == 88,
        gaming_root(b) matches Some(n) ==> n.len() > 0 && n == utf16_lossy(units_from(b, 8)),
        b.len() >= 10 && b[0] == 82 && b[1] == 71 && b[2] == 66 && b[3] == 88 && utf16_lossy(
            units_from(b, 8),
        ).len() > 0 ==> gaming_root(b) is Some,
{
    reveal_with_fuel(le_value, 5);
}

/// The units of the name end before the first zero.
pub proof fn law_units(b: Seq<u8>, o: int)
    requires
        0 <= o,
    ensures
        o + 2 <= b.len() && (b[o] != 0 || b[o + 1] != 0) ==> units_from(b, o).len() > 0
            && units_from(b, o)[0] == b[o] + 256 * b[o + 1] && units_from(b, o).skip(1)
            == units_from(b, o + 2),
        o + 2 <= b.len() && b[o] == 0 && b[o + 1] == 0 ==> units_from(b, o).len() == 0,
        o + 2 > b.len() ==> units_from(b, o).len() == 0,
{
    reveal_with_fuel(le_value, 3);
    if o + 2 <= b.len() && (b[o] != 0 || b[o + 1] != 0) {
        assert(le_value(b, o, 2) == b[o] + 256 * b[o + 1]);
        assert(units_from(b, o).skip(1) =~= units_from(b, o + 2));
    }
}

/// A path that was added stands for a game while it is there: a file by its own
/// name and folder, a folder by its name, with the exe that it leads to.
pub proof fn law_added(a: AddedPath)
    ensures
        added_view(a) is Some <==> a.kind != Target::Nothing,
        added_view(a) matches Some(g) ==> g.store == Store::Manual && g.installed == a.installed,
        a.kind == Target::File && parent_of(a.path@) is Some && name_of(a.path@) is Some ==> (
        added_view(a) matches Some(g) && g.dir == parent_of(a.path@)->0 && g.title == stem_of(
            name_of(a.path@)->0,
        ) && g.exe_hint == Some(a.path@) && g.poster == PosterView::ExeIcon(a.path@)),
        a.kind == Target::Folder && name_of(a.path@) is Some ==> (added_view(a) matches Some(g)
            && g.dir == a.path@ && g.title == name_of(a.path@)->0 && g.exe_hint == opt_string(
            a.exe,
        )),
{
}

/// The games of a list stand in its order; a path that is gone stands for none.
pub proof fn law_added_order(v: Seq<AddedPath>, a: AddedPath)
    ensures
        a.kind == Target::Nothing ==> added_views(v.push(a)) == added_views(v),
        a.kind != Target::Nothing ==> added_views(v.push(a)) == added_views(v).push(
            added_view(a)->0,
        ),
{
    assert(v.push(a).drop_last() =~= v);
}

/// An entry of the list stands for a path where it is that path, case aside, or a
/// file in that folder.
pub proof fn law_stands_for(entry: Seq<char>, p: Seq<char>)
    ensures
        stands_for(entry, p) <==> same_fold(entry, p) || (parent_of(entry) is Some && same_fold(
            parent_of(entry)->0,
            p,
        )),
        stands_for(entry, entry),
{
}

/// The pixels of an icon get red and blue exchanged; doing it twice gives the icon
/// back where it has any alpha.
pub proof fn law_pixels(px: Seq<u8>, out: Seq<u8>, i: int)
    requires
        px.len() % 4 == 0,
        0 <= i < px.len(),
        out.len() == px.len(),
        forall|j: int| 0 <= j < px.len() ==> #[trigger] out[j] == rgba_at(px, j),
    ensures
        !is_clear(px) ==> rgba_at(out, i) == px[i],
        i % 4 == 1 ==> out[i] == px[i],
        i % 4 == 0 ==> out[i] == px[i + 2] && out[i + 2] == px[i],
        is_clear(px) && i % 4 == 3 ==> out[i] == 255,
        !is_clear(px) && i % 4 == 3 ==> out[i] == px[i],
{
    if !is_clear(px) {
        let k = choose|k: int| 0 <= k < px.len() && k % 4 == 3 && #[trigger] px[k] != 0;
        assert(out[k] == px[k]);
        assert(!is_clear(out));
    }
    if i % 4 == 0 {
        assert(i + 2 < px.len());
        assert(out[i + 2] == rgba_at(px, i + 2));
    } else if i % 4 == 2 {
        assert(out[i - 2] == rgba_at(px, i - 2));
    }
    assert(out[i] == rgba_at(px, i));
}

} // verus!
