//! Anti-cheat systems, by the files they ship.
use vstd::prelude::*;

use crate::chars::{lower, lower_string};
use crate::paths::{name_of, path_name};
use crate::strs::{ends, ends_with, opt_text, starts, starts_with, str_eq};
use crate::tree::{Kind, Node};

verus! {

/// How many levels of subfolders are searched.
pub const ANTICHEAT_DEPTH: u8 = 3;

/// What the name of a folder, or of anything else, gives away.
pub open spec fn sign(n: Node) -> Option<Seq<char>> {
    let l = lower(n.name@);
    if n.kind == Kind::Dir {
        if l == "easyanticheat"@ || l == "easyanticheat_eos"@ {
            Some("Easy Anti-Cheat"@)
        } else if l == "battleye"@ {
            Some("BattlEye"@)
        } else if l == "gameguard"@ {
            Some("GameGuard"@)
        } else {
            None
        }
    } else if starts(l, "easyanticheat"@) && ends(l, ".exe"@) {
        Some("Easy Anti-Cheat"@)
    } else if l == "beservice_x64.exe"@ || l == "install_battleye.bat"@ || ends(l, "_be.exe"@) {
        Some("BattlEye"@)
    } else if l == "ggsetup.exe"@ || l == "gameguard.des"@ {
        Some("GameGuard"@)
    } else {
        None
    }
}

/// The first sign from `i` on, each subfolder searched where it stands.
pub open spec fn anticheat_from(nodes: Seq<Node>, i: int, depth: nat) -> Option<Seq<char>>
    decreases depth, nodes.len() - i,
{
    if i < 0 || i >= nodes.len() {
        None
    } else if sign(nodes[i]) is Some {
        sign(nodes[i])
    } else if nodes[i].kind == Kind::Dir && depth > 0 && anticheat_from(
        nodes[i].children@,
        0,
        (depth - 1) as nat,
    ) is Some {
        anticheat_from(nodes[i].children@, 0, (depth - 1) as nat)
    } else {
        anticheat_from(nodes, i + 1, depth)
    }
}

/// The anti-cheat system in an install tree.
pub open spec fn anticheat_in(nodes: Seq<Node>) -> Option<Seq<char>> {
    anticheat_from(nodes, 0, ANTICHEAT_DEPTH as nat)
}

fn sign_of(n: &Node) -> (r: Option<&'static str>)
    ensures
        opt_text(r) == sign(*n),
{
    let low = lower_string(n.name.as_str());
    let l = low.as_str();
    if n.kind == Kind::Dir {
        if str_eq(l, "easyanticheat") || str_eq(l, "easyanticheat_eos") {
            Some("Easy Anti-Cheat")
        } else if str_eq(l, "battleye") {
            Some("BattlEye")
        } else if str_eq(l, "gameguard") {
            Some("GameGuard")
        } else {
            None
        }
    } else if starts_with(l, "easyanticheat") && ends_with(l, ".exe") {
        Some("Easy Anti-Cheat")
    } else if str_eq(l, "beservice_x64.exe") || str_eq(l, "install_battleye.bat") || ends_with(
        l,
        "_be.exe",
    ) {
        Some("BattlEye")
    } else if str_eq(l, "ggsetup.exe") || str_eq(l, "gameguard.des") {
        Some("GameGuard")
    } else {
        None
    }
}

fn walk(nodes: &[Node], depth: u8) -> (r: Option<&'static str>)
    ensures
        opt_text(r) == anticheat_from(nodes@, 0, depth as nat),
    decreases depth,
{
    let mut i: usize = 0;
    while i < nodes.len()
        invariant
            i <= nodes@.len(),
            anticheat_from(nodes@, 0, depth as nat) == anticheat_from(
                nodes@,
                i as int,
                depth as nat,
            ),
        decreases nodes@.len() - i,
    {
        let n = &nodes[i];
        let s = sign_of(n);
        if s.is_some() {
            return s;
        }
        if n.kind == Kind::Dir && depth > 0 {
            let hit = walk(n.children.as_slice(), depth - 1);
            if hit.is_some() {
                return hit;
            }
        }
        i += 1;
    }
    None
}

/// Anti-cheat present in the install tree, by the files those systems ship.
/// ReShade add-on injection is exactly what they look for: kicks at best, bans
/// at worst.
pub fn detect_anticheat(game_dir: &[Node]) -> (r: Option<&'static str>)
    ensures
        opt_text(r) == anticheat_in(game_dir@),
{
    walk(game_dir, ANTICHEAT_DEPTH)
}

/// Online titles whose anti-cheat ships no marker files.
pub open spec fn known_anticheat(exe: Seq<char>) -> Option<Seq<char>> {
    match name_of(exe) {
        Some(name) => {
            let n = lower(name);
            if n == "overwatch.exe"@ {
                Some("Blizzard anti-cheat (Overwatch)"@)
            } else if n == "valorant.exe"@ || n == "valorant-win64-shipping.exe"@ || n
                == "leagueclient.exe"@ || n == "league of legends.exe"@ {
                Some("Riot Vanguard"@)
            } else {
                None
            }
        },
        None => None,
    }
}

/// Online titles whose anti-cheat ships no marker files (Blizzard's, Riot's).
pub fn known_anticheat_exe(exe: &str) -> (r: Option<&'static str>)
    ensures
        opt_text(r) == known_anticheat(exe@),
{
    match path_name(exe) {
        Some(name) => {
            let low = lower_string(name.as_str());
            let n = low.as_str();
            if str_eq(n, "overwatch.exe") {
                Some("Blizzard anti-cheat (Overwatch)")
            } else if str_eq(n, "valorant.exe") || str_eq(n, "valorant-win64-shipping.exe")
                || str_eq(n, "leagueclient.exe") || str_eq(n, "league of legends.exe") {
                Some("Riot Vanguard")
            } else {
                None
            }
        },
        None => None,
    }
}

/// What the search does not reach it does not see: a folder below the last
/// level changes nothing.
pub proof fn law_anticheat_depth(nodes: Seq<Node>, other: Seq<Node>, i: int)
    requires
        nodes.len() == other.len(),
        forall|k: int|
            0 <= k < nodes.len() ==> (#[trigger] nodes[k]).name@ == other[k].name@ && nodes[k].kind
                == other[k].kind,
    ensures
        anticheat_from(nodes, i, 0) == anticheat_from(other, i, 0),
    decreases nodes.len() - i,
{
    if 0 <= i < nodes.len() {
        assert(nodes[i].name@ == other[i].name@);
        law_anticheat_depth(nodes, other, i + 1);
    }
}

} // verus!
