//! Where something lies in a folder tree.
use vstd::prelude::*;

use crate::anticheat::{anticheat_from, anticheat_in, known_anticheat, sign};
use crate::chars::lower;
use crate::game::{is_dlss_file, ships_dlss};
use crate::paths::name_of;
use crate::strs::{ends, same_fold, starts};
use crate::tree::{folder, folder_from, has_file, has_file_in, is_node, Kind, Node};

verus! {

/// The folder that is reached by entering, one after the other, the subfolders at
/// those places.
pub open spec fn folder_at(nodes: Seq<Node>, way: Seq<int>) -> Option<Seq<Node>>
    decreases way.len(),
{
    if way.len() == 0 {
        Some(nodes)
    } else if 0 <= way[0] < nodes.len() && nodes[way[0]].kind == Kind::Dir {
        folder_at(nodes[way[0]].children@, way.drop_first())
    } else {
        None
    }
}

/// Entering a subfolder first and the rest of the way then.
proof fn enter(nodes: Seq<Node>, i: int, way: Seq<int>)
    requires
        0 <= i < nodes.len(),
        nodes[i].kind == Kind::Dir,
    ensures
        folder_at(nodes, seq![i] + way) == folder_at(nodes[i].children@, way),
{
    assert((seq![i] + way).drop_first() =~= way);
}

/// A folder holds a file where an entry that is a file has that name, case
/// aside; a folder of that name is no file.
pub proof fn law_has_file(nodes: Seq<Node>, name: Seq<char>)
    ensures
        has_file(nodes, name) <==> exists|i: int|
            0 <= i < nodes.len() && (#[trigger] nodes[i]).kind == Kind::File && lower(nodes[i].name@)
                == lower(name),
{
    if has_file(nodes, name) {
        let i = choose|i: int| 0 <= i < nodes.len() && is_node(#[trigger] nodes[i], Kind::File, name);
        assert(nodes[i].kind == Kind::File);
    }
    if exists|i: int|
        0 <= i < nodes.len() && (#[trigger] nodes[i]).kind == Kind::File && lower(nodes[i].name@)
            == lower(name) {
        let i = choose|i: int|
            0 <= i < nodes.len() && (#[trigger] nodes[i]).kind == Kind::File && lower(nodes[i].name@)
                == lower(name);
        assert(is_node(nodes[i], Kind::File, name));
    }
}

/// What a subfolder holds is read from the first folder of that name.
pub proof fn law_subfolder(nodes: Seq<Node>, name: Seq<char>, k: int)
    requires
        0 <= k < nodes.len(),
        nodes[k].kind == Kind::Dir,
        same_fold(nodes[k].name@, name),
        forall|j: int|
            0 <= j < k ==> !((#[trigger] nodes[j]).kind == Kind::Dir && same_fold(
                nodes[j].name@,
                name,
            )),
    ensures
        folder(nodes, name) == Some(nodes[k].children@),
        forall|f: Seq<char>| #[trigger]
            has_file_in(nodes, name, f) == has_file(nodes[k].children@, f),
{
    folder_found(nodes, name, k, 0);
}

proof fn folder_found(nodes: Seq<Node>, name: Seq<char>, k: int, i: int)
    requires
        0 <= i <= k < nodes.len(),
        is_node(nodes[k], Kind::Dir, name),
        forall|j: int| 0 <= j < k ==> !is_node(#[trigger] nodes[j], Kind::Dir, name),
    ensures
        folder_from(nodes, name, i) == Some(nodes[k].children@),
    decreases k - i,
{
    if i < k {
        folder_found(nodes, name, k, i + 1);
    }
}

/// Without a folder of that name there is nothing in it.
pub proof fn law_no_subfolder(nodes: Seq<Node>, name: Seq<char>)
    requires
        forall|j: int|
            0 <= j < nodes.len() ==> !((#[trigger] nodes[j]).kind == Kind::Dir && same_fold(
                nodes[j].name@,
                name,
            )),
    ensures
        folder(nodes, name) is None,
        forall|f: Seq<char>| !#[trigger] has_file_in(nodes, name, f),
{
    folder_missed(nodes, name, 0);
}

proof fn folder_missed(nodes: Seq<Node>, name: Seq<char>, i: int)
    requires
        0 <= i,
        forall|j: int| 0 <= j < nodes.len() ==> !is_node(#[trigger] nodes[j], Kind::Dir, name),
    ensures
        folder_from(nodes, name, i) is None,
    decreases nodes.len() - i,
{
    if i < nodes.len() {
        folder_missed(nodes, name, i + 1);
    }
}

/// The entry is a file that only a game with DLSS ships: an upscaler without the
/// mark of one that was placed by this tool, a frame generator, a denoiser, or a
/// Streamline library.
pub open spec fn shows_dlss(files: Seq<Node>, i: int) -> bool {
    let l = lower(files[i].name@);
    &&& 0 <= i < files.len()
    &&& files[i].kind == Kind::File
    &&& {
        ||| l == "nvngx_dlss.dll"@ && !has_file(files, "nvngx_dlss.dll.revengine-dlss5"@)
        ||| l == "nvngx_dlssg.dll"@
        ||| l == "nvngx_dlssd.dll"@
        ||| starts(l, "sl."@) && ends(l, ".dll"@)
    }
}

/// A game ships DLSS where such a file lies in its folder or in a subfolder, no
/// more levels down than are searched, and only there.
pub proof fn law_ships_dlss(nodes: Seq<Node>, depth: nat)
    ensures
        ships_dlss(nodes, depth) <==> exists|way: Seq<int>, i: int|
            way.len() <= depth && (#[trigger] folder_at(nodes, way)) is Some && #[trigger] shows_dlss(
                folder_at(nodes, way)->0,
                i,
            ),
    decreases depth,
{
    if ships_dlss(nodes, depth) {
        let i = choose|i: int|
            0 <= i < nodes.len() && (is_dlss_file(nodes, #[trigger] nodes[i]) || (depth > 0
                && nodes[i].kind == Kind::Dir && ships_dlss(
                nodes[i].children@,
                (depth - 1) as nat,
            )));
        if is_dlss_file(nodes, nodes[i]) {
            let way = Seq::<int>::empty();
            assert(folder_at(nodes, way) == Some(nodes));
            assert(shows_dlss(folder_at(nodes, way)->0, i));
        } else {
            law_ships_dlss(nodes[i].children@, (depth - 1) as nat);
            let (rest, k) = choose|rest: Seq<int>, k: int|
                rest.len() <= depth - 1 && (#[trigger] folder_at(nodes[i].children@, rest)) is Some
                    && #[trigger] shows_dlss(folder_at(nodes[i].children@, rest)->0, k);
            enter(nodes, i, rest);
            let way = seq![i] + rest;
            assert(shows_dlss(folder_at(nodes, way)->0, k));
        }
    }
    if exists|way: Seq<int>, i: int|
        way.len() <= depth && (#[trigger] folder_at(nodes, way)) is Some && #[trigger] shows_dlss(
            folder_at(nodes, way)->0,
            i,
        ) {
        let (way, k) = choose|way: Seq<int>, i: int|
            way.len() <= depth && (#[trigger] folder_at(nodes, way)) is Some && #[trigger] shows_dlss(
                folder_at(nodes, way)->0,
                i,
            );
        if way.len() == 0 {
            assert(is_dlss_file(nodes, nodes[k]));
        } else {
            let i = way[0];
            let rest = way.drop_first();
            assert(shows_dlss(folder_at(nodes[i].children@, rest)->0, k));
            law_ships_dlss(nodes[i].children@, (depth - 1) as nat);
            assert(ships_dlss(nodes[i].children@, (depth - 1) as nat));
            assert(nodes[i].kind == Kind::Dir);
        }
    }
}

/// The entry gives an anti-cheat system away: by the name of its folder, or of a
/// program or script that belongs to it.
pub open spec fn betrays(n: Node) -> bool {
    let l = lower(n.name@);
    if n.kind == Kind::Dir {
        l == "easyanticheat"@ || l == "easyanticheat_eos"@ || l == "battleye"@ || l == "gameguard"@
    } else {
        ||| starts(l, "easyanticheat"@) && ends(l, ".exe"@)
        ||| l == "beservice_x64.exe"@
        ||| l == "install_battleye.bat"@
        ||| ends(l, "_be.exe"@)
        ||| l == "ggsetup.exe"@
        ||| l == "gameguard.des"@
    }
}

/// An anti-cheat system is found where such an entry lies in the game's folder or
/// in a subfolder down to the third level, and only there.
pub proof fn law_anticheat_found(nodes: Seq<Node>)
    ensures
        anticheat_in(nodes) is Some <==> exists|way: Seq<int>, k: int|
            way.len() <= 3 && (#[trigger] folder_at(nodes, way)) is Some && 0 <= k < folder_at(
                nodes,
                way,
            )->0.len() && betrays(#[trigger] folder_at(nodes, way)->0[k]),
{
    anticheat_reached(nodes, 0, 3);
}

proof fn anticheat_reached(nodes: Seq<Node>, i: int, depth: nat)
    requires
        0 <= i,
    ensures
        anticheat_from(nodes, i, depth) is Some <==> exists|way: Seq<int>, k: int|
            way.len() <= depth && (#[trigger] folder_at(nodes, way)) is Some && 0 <= k < folder_at(
                nodes,
                way,
            )->0.len() && betrays(#[trigger] folder_at(nodes, way)->0[k]) && i <= (if way.len()
                == 0 {
                k
            } else {
                way[0]
            }),
    decreases depth, nodes.len() - i,
{
    if i < nodes.len() {
        anticheat_reached(nodes, i + 1, depth);
        let none = Seq::<int>::empty();
        assert(folder_at(nodes, none) == Some(nodes));
        assert(betrays(nodes[i]) <==> sign(nodes[i]) is Some);
        if nodes[i].kind == Kind::Dir && depth > 0 {
            anticheat_reached(nodes[i].children@, 0, (depth - 1) as nat);
        }
        if anticheat_from(nodes, i, depth) is Some {
            if sign(nodes[i]) is Some {
                assert(betrays(folder_at(nodes, none)->0[i]));
            } else if nodes[i].kind == Kind::Dir && depth > 0 && anticheat_from(
                nodes[i].children@,
                0,
                (depth - 1) as nat,
            ) is Some {
                let (rest, k) = choose|rest: Seq<int>, k: int|
                    rest.len() <= depth - 1 && (#[trigger] folder_at(nodes[i].children@, rest)) is Some
                        && 0 <= k < folder_at(nodes[i].children@, rest)->0.len() && betrays(
                        #[trigger] folder_at(nodes[i].children@, rest)->0[k],
                    );
                enter(nodes, i, rest);
                let way = seq![i] + rest;
                assert(betrays(folder_at(nodes, way)->0[k]));
            } else {
                let (way, k) = choose|way: Seq<int>, k: int|
                    way.len() <= depth && (#[trigger] folder_at(nodes, way)) is Some && 0 <= k
                        < folder_at(nodes, way)->0.len() && betrays(
                        #[trigger] folder_at(nodes, way)->0[k],
                    ) && i + 1 <= (if way.len() == 0 {
                        k
                    } else {
                        way[0]
                    });
                assert(betrays(folder_at(nodes, way)->0[k]));
            }
        } else if exists|way: Seq<int>, k: int|
            way.len() <= depth && (#[trigger] folder_at(nodes, way)) is Some && 0 <= k < folder_at(
                nodes,
                way,
            )->0.len() && betrays(#[trigger] folder_at(nodes, way)->0[k]) && i <= (if way.len()
                == 0 {
                k
            } else {
                way[0]
            }) {
            let (way, k) = choose|way: Seq<int>, k: int|
                way.len() <= depth && (#[trigger] folder_at(nodes, way)) is Some && 0 <= k
                    < folder_at(nodes, way)->0.len() && betrays(
                    #[trigger] folder_at(nodes, way)->0[k],
                ) && i <= (if way.len() == 0 {
                    k
                } else {
                    way[0]
                });
            let first = if way.len() == 0 {
                k
            } else {
                way[0]
            };
            if first == i && way.len() > 0 {
                assert(way[0] == i);
                assert(betrays(folder_at(nodes[i].children@, way.drop_first())->0[k]));
                assert(false);
            } else if first == i {
                assert(false);
            } else {
                assert(betrays(folder_at(nodes, way)->0[k]));
                assert(false);
            }
        }
    } else {
        assert forall|way: Seq<int>, k: int|
            way.len() <= depth && (#[trigger] folder_at(nodes, way)) is Some && 0 <= k < folder_at(
                nodes,
                way,
            )->0.len() && betrays(#[trigger] folder_at(nodes, way)->0[k]) implies i > (if way.len()
            == 0 {
            k
        } else {
            way[0]
        }) by {}
    }
}

/// Each entry that gives an anti-cheat system away names the system that it
/// belongs to.
pub proof fn law_anticheat_names(n: Node, said: Seq<char>)
    requires
        sign(n) == Some(said),
    ensures
        said == "Easy Anti-Cheat"@ || said == "BattlEye"@ || said == "GameGuard"@,
        starts(lower(n.name@), "easyanticheat"@) ==> said == "Easy Anti-Cheat"@,
        lower(n.name@) == "battleye"@ ==> said == "BattlEye"@,
        lower(n.name@) == "beservice_x64.exe"@ ==> said == "BattlEye"@,
        lower(n.name@) == "install_battleye.bat"@ ==> said == "BattlEye"@,
        lower(n.name@) == "gameguard"@ ==> said == "GameGuard"@,
        lower(n.name@) == "ggsetup.exe"@ ==> said == "GameGuard"@,
        lower(n.name@) == "gameguard.des"@ ==> said == "GameGuard"@,
{
    let l = lower(n.name@);
    reveal_strlit("easyanticheat");
    reveal_strlit("easyanticheat_eos");
    reveal_strlit("battleye");
    reveal_strlit("gameguard");
    reveal_strlit("beservice_x64.exe");
    reveal_strlit("install_battleye.bat");
    reveal_strlit("_be.exe");
    reveal_strlit("ggsetup.exe");
    reveal_strlit("gameguard.des");
    reveal_strlit(".exe");
    assert("beservice_x64.exe"@[0] == 'b' && "easyanticheat_eos"@[0] == 'e');
    assert("gameguard.des"@[0] == 'g' && "easyanticheat"@[0] == 'e');
    if starts(l, "easyanticheat"@) {
        assert(l.subrange(0, 13)[0] == l[0]);
        assert(l.subrange(0, 13)[12] == l[12]);
        if n.kind == Kind::Dir {
            assert("battleye"@[0] == 'b');
            assert("gameguard"@[0] == 'g');
        } else {
            assert("beservice_x64.exe"@[0] == 'b');
            assert("install_battleye.bat"@[0] == 'i');
            assert("ggsetup.exe"@[0] == 'g');
            assert("gameguard.des"@[0] == 'g');
        }
    }
    if ends(l, "_be.exe"@) {
        let k = l.len() - 7;
        assert(l.subrange(k, k + 7)[0] == l[k]);
        assert(l.subrange(k, k + 7)[6] == l[k + 6]);
        assert(l.subrange(k + 3, k + 7) =~= l.subrange(k, k + 7).subrange(3, 7));
        assert("_be.exe"@.subrange(3, 7) =~= ".exe"@);
    }
    if ends(l, ".exe"@) {
        let k = l.len() - 4;
        assert(l.subrange(k, k + 4)[3] == l[k + 3]);
    }
}

/// A title that is known for its anti-cheat is told by the name of its program,
/// case aside, wherever it lies; no other program is.
pub proof fn law_known_titles(exe: Seq<char>, name: Seq<char>)
    requires
        name_of(exe) == Some(name),
    ensures
        known_anticheat(exe) is Some <==> lower(name) == "overwatch.exe"@ || lower(name)
            == "valorant.exe"@ || lower(name) == "valorant-win64-shipping.exe"@ || lower(name)
            == "leagueclient.exe"@ || lower(name) == "league of legends.exe"@,
{
}

} // verus!
