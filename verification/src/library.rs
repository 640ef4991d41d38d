//! The installed games: Steam, Epic, GOG, Xbox (Game Pass), and those that the
//! user added. Newest install first.
//!
//! - Steam: `steamapps\libraryfolders.vdf` lists library roots; each has
//!   `steamapps\appmanifest_<appid>.acf` with `name` / `installdir`. The client
//!   caches artwork under `appcache\librarycache\<appid>`, sometimes one
//!   hash-named folder deeper.
//! - Epic: `Manifests\*.item` (JSON: DisplayName, InstallLocation,
//!   LaunchExecutable, bIsApplication).
//! - GOG: registry keys with gameName, path, exe.
//! - Xbox: `.GamingRoot` names the games folder; each game is
//!   `<folder>\<Game>\Content\MicrosoftGame.config`.
//!
//! Install date is the creation time of the game's folder (every store, one
//! rule).
use vstd::prelude::*;

use crate::bytes::{le_value, read_u16};
use crate::chars::{lower, lower_string};
use crate::exes::Target;
use crate::gpupref::text_units;
use crate::json::{as_text, level_at, Json, Level};
use crate::net::{matches_of, taken};
use crate::numbers::{dec, dec_text, parse_u64, parsed_u64};
use crate::order::{as_places, in_order, order, text_before, text_less, weak_order};
use crate::outside::{json_level, regex_groups, text_of_units, utf16_lossy};
use crate::paths::{
    file_stem, joined, list_has_path, name_of, parent_of, path_join, path_name, path_parent,
    same_path, stem_of,
};
use crate::renodx::{first_match, first_taken};
use crate::strs::{
    cat, contains, ends, ends_with, eq_fold, join, join_with, keep_strings, lines, lines_of, occurs,
    opt_string, opt_text, replace_char, replace_text, replaced, replaced_text, same_fold, starts,
    starts_with, strip_end_char, texts, texts_push, trim, trim_end_char, trimmed,
};
use crate::tree::{has_file, holds_file, Kind, Node};

verus! {

#[derive(Debug, Clone, Copy, PartialEq, Eq, Hash, Structural)]
pub enum Store {
    Steam,
    Epic,
    Gog,
    Xbox,
    /// Pointed at by hand and remembered.
    Manual,
}

impl Store {
    pub open spec fn says(self) -> Seq<char> {
        match self {
            Store::Steam => "Steam"@,
            Store::Epic => "Epic Games"@,
            Store::Gog => "GOG"@,
            Store::Xbox => "Xbox"@,
            Store::Manual => "Added by you"@,
        }
    }

    pub fn label(self) -> (r: &'static str)
        ensures
            r@ == self.says(),
    {
        match self {
            Store::Steam => "Steam",
            Store::Epic => "Epic Games",
            Store::Gog => "GOG",
            Store::Xbox => "Xbox",
            Store::Manual => "Added by you",
        }
    }
}

/// Where the artwork of a game comes from.
#[derive(Debug, Clone, PartialEq, Eq)]
pub enum Poster {
    /// A jpeg/png on disk.
    File(String),
    /// Steam's CDN, kept in the poster cache as `steam_<appid>.jpg`.
    SteamCdn(u64),
    /// No artwork anywhere: the launch exe's icon.
    ExeIcon(String),
}

pub enum PosterView {
    File(Seq<char>),
    SteamCdn(u64),
    ExeIcon(Seq<char>),
}

impl View for Poster {
    type V = PosterView;

    open spec fn view(&self) -> PosterView {
        match *self {
            Poster::File(p) => PosterView::File(p@),
            Poster::SteamCdn(id) => PosterView::SteamCdn(id),
            Poster::ExeIcon(p) => PosterView::ExeIcon(p@),
        }
    }
}

#[derive(Debug, Clone)]
pub struct Game {
    pub title: String,
    pub store: Store,
    /// Folder handed to the tool (resolved to the real exe later).
    pub dir: String,
    /// Exe the store names; `None` when the manifest does not say.
    pub exe_hint: Option<String>,
    /// When the folder was made, in nanoseconds since 1970.
    pub installed: i128,
    pub poster: Poster,
}

pub struct GameView {
    pub title: Seq<char>,
    pub store: Store,
    pub dir: Seq<char>,
    pub exe_hint: Option<Seq<char>>,
    pub installed: int,
    pub poster: PosterView,
}

impl View for Game {
    type V = GameView;

    open spec fn view(&self) -> GameView {
        GameView {
            title: self.title@,
            store: self.store,
            dir: self.dir@,
            exe_hint: opt_string(self.exe_hint),
            installed: self.installed as int,
            poster: self.poster@,
        }
    }
}

pub open spec fn games(v: Seq<Game>) -> Seq<GameView> {
    v.map_values(|g: Game| g@)
}

impl Poster {
    pub fn copy(&self) -> (r: Poster)
        ensures
            r@ == self@,
    {
        match self {
            Poster::File(p) => Poster::File(p.clone()),
            Poster::SteamCdn(id) => Poster::SteamCdn(*id),
            Poster::ExeIcon(p) => Poster::ExeIcon(p.clone()),
        }
    }
}

impl Game {
    pub fn copy(&self) -> (r: Game)
        ensures
            r@ == self@,
    {
        let exe_hint = match &self.exe_hint {
            Some(e) => Some(e.clone()),
            None => None,
        };
        Game {
            title: self.title.clone(),
            store: self.store,
            dir: self.dir.clone(),
            exe_hint,
            installed: self.installed,
            poster: self.poster.copy(),
        }
    }
}

/// With backslashes between its parts.
pub open spec fn backslashed(p: Seq<char>) -> Seq<char> {
    replace_char(p, '/', "\\"@)
}

/// Where Steam may be installed, in the order of trust: what the user's
/// settings say, what the machine's say, the default.
pub open spec fn steam_places(user: Option<Seq<char>>, machine: Option<Seq<char>>) -> Seq<
    Seq<char>,
> {
    (match user {
        Some(p) => seq![backslashed(p)],
        None => Seq::empty(),
    }) + (match machine {
        Some(p) => seq![p],
        None => Seq::empty(),
    }) + seq!["C:\\Program Files (x86)\\Steam"@]
}

/// The folders in which Steam may be installed; the first that is there is it.
pub fn steam_candidates(user: Option<&str>, machine: Option<&str>) -> (r: Vec<String>)
    ensures
        texts(r@) == steam_places(opt_text(user), opt_text(machine)),
{
    broadcast use texts_push;

    let mut out: Vec<String> = Vec::new();
    assert(texts(out@) =~= Seq::empty());
    if let Some(p) = user {
        out.push(replaced(p, '/', "\\"));
    }
    let ghost one = texts(out@);
    if let Some(p) = machine {
        out.push(p.to_owned());
    }
    out.push("C:\\Program Files (x86)\\Steam".to_owned());
    assert(texts(out@) =~= steam_places(opt_text(user), opt_text(machine)));
    out
}

pub const ROOT_PATH: &'static str = "\"path\"\\s+\"([^\"]+)\"";

/// A path as the file writes it, with its backslashes doubled, made plain.
pub open spec fn unescaped(p: Seq<char>) -> Seq<char> {
    replace_text(p, "\\\\"@, "\\"@)
}

/// The library roots, given what the pattern took.
pub open spec fn roots_from(found: Seq<Seq<char>>) -> Seq<Seq<char>> {
    found.map_values(|p: Seq<char>| unescaped(p))
}

pub fn plain_roots(found: &[String]) -> (r: Vec<String>)
    ensures
        texts(r@) == roots_from(texts(found@)),
{
    broadcast use texts_push;

    let ghost all = roots_from(texts(found@));
    let mut out: Vec<String> = Vec::new();
    let mut i: usize = 0;
    assert(texts(out@) =~= all.take(0));
    while i < found.len()
        invariant
            i <= found@.len(),
            all == roots_from(texts(found@)),
            texts(out@) == all.take(i as int),
        decreases found@.len() - i,
    {
        broadcast use texts_push;

        proof {
            reveal_strlit("\\\\");
        }
        assert(all[i as int] == unescaped(found@[i as int]@));
        assert(all.take(i + 1) =~= all.take(i as int).push(all[i as int]));
        out.push(replaced_text(found[i].as_str(), "\\\\", "\\"));
        i += 1;
    }
    assert(all.take(i as int) =~= all);
    out
}

/// Library roots from libraryfolders.vdf (the Steam root itself is one of them).
pub fn steam_library_roots(vdf: &str) -> (r: Vec<String>)
    ensures
        texts(r@) == roots_from(taken(regex_groups(ROOT_PATH@, vdf@))),
{
    plain_roots(matches_of(ROOT_PATH, vdf).as_slice())
}

/// The roots, with Steam's own among them.
pub open spec fn with_steam(roots: Seq<Seq<char>>, steam: Seq<char>) -> Seq<Seq<char>> {
    if exists|i: int| 0 <= i < roots.len() && same_path(#[trigger] roots[i], steam) {
        roots
    } else {
        roots.push(steam)
    }
}

/// All library roots: those that the file lists, and Steam's own.
pub fn all_roots(vdf: &str, steam: &str) -> (r: Vec<String>)
    ensures
        texts(r@) == with_steam(roots_from(taken(regex_groups(ROOT_PATH@, vdf@))), steam@),
{
    broadcast use texts_push;

    let mut roots = steam_library_roots(vdf);
    if list_has_path(roots.as_slice(), steam) {
        return roots;
    }
    roots.push(steam.to_owned());
    roots
}

/// What a Steam manifest says.
#[derive(Debug, PartialEq, Eq)]
pub struct Acf {
    pub appid: u64,
    pub name: String,
    pub installdir: String,
}

/// The pattern of a manifest's value.
pub open spec fn value_pattern(key: Seq<char>) -> Seq<char> {
    "\""@ + key + "\"\\s+\"([^\"]*)\""@
}

pub open spec fn value_in(text: Seq<char>, key: Seq<char>) -> Option<Seq<char>> {
    first_taken(value_pattern(key), text)
}

fn find_value(text: &str, key: &str) -> (r: Option<String>)
    ensures
        opt_string(r) == value_in(text@, key@),
{
    let mut pattern = cat("\"", key);
    pattern.append("\"\\s+\"([^\"]*)\"");
    first_match(pattern.as_str(), text)
}

/// App id, name and folder, where all three are there and the id is a number.
pub open spec fn acf_from(
    id: Option<Seq<char>>,
    name: Option<Seq<char>>,
    dir: Option<Seq<char>>,
) -> Option<(u64, Seq<char>, Seq<char>)> {
    match (id, name, dir) {
        (Some(i), Some(n), Some(d)) => match parsed_u64(i) {
            Some(k) => Some((k, n, d)),
            None => None,
        },
        _ => None,
    }
}

/// A manifest, given what its values are.
pub fn make_acf(id: Option<String>, name: Option<String>, installdir: Option<String>) -> (r: Option<
    Acf,
>)
    ensures
        match r {
            Some(a) => acf_from(opt_string(id), opt_string(name), opt_string(installdir)) == Some(
                (a.appid, a.name@, a.installdir@),
            ),
            None => acf_from(opt_string(id), opt_string(name), opt_string(installdir)) is None,
        },
{
    match (id, name, installdir) {
        (Some(i), Some(name), Some(installdir)) => match parse_u64(i.as_str()) {
            Some(appid) => Some(Acf { appid, name, installdir }),
            None => None,
        },
        _ => None,
    }
}

/// What the manifest says.
pub open spec fn acf_in(text: Seq<char>) -> Option<(u64, Seq<char>, Seq<char>)> {
    acf_from(value_in(text, "appid"@), value_in(text, "name"@), value_in(text, "installdir"@))
}

pub fn parse_acf(text: &str) -> (r: Option<Acf>)
    ensures
        match r {
            Some(a) => acf_in(text@) == Some((a.appid, a.name@, a.installdir@)),
            None => acf_in(text@) is None,
        },
{
    make_acf(find_value(text, "appid"), find_value(text, "name"), find_value(text, "installdir"))
}

/// Steam entries that are runtimes and redistributables, never games.
pub open spec fn is_tool(appid: u64, name: Seq<char>) -> bool {
    let n = lower(name);
    ||| appid == 228980
    ||| occurs(n, "steamworks common redistributables"@)
    ||| starts(n, "proton"@)
    ||| occurs(n, "steam linux runtime"@)
    ||| occurs(n, "steamvr"@)
}

pub fn steam_is_tool(a: &Acf) -> (r: bool)
    ensures
        r == is_tool(a.appid, a.name@),
{
    let low = lower_string(a.name.as_str());
    let n = low.as_str();
    a.appid == 228980 || contains(n, "steamworks common redistributables") || starts_with(
        n,
        "proton",
    ) || contains(n, "steam linux runtime") || contains(n, "steamvr")
}

/// The folder in which Steam's client caches the artwork of an app.
pub open spec fn art_folder(steam: Seq<char>, appid: u64) -> Seq<char> {
    joined(joined(joined(steam, "appcache"@), "librarycache"@), dec(appid as nat))
}

pub fn art_dir(steam: &str, appid: u64) -> (r: String)
    ensures
        r@ == art_folder(steam@, appid),
{
    let p = path_join(steam, "appcache");
    let p = path_join(p.as_str(), "librarycache");
    path_join(p.as_str(), dec_text(appid).as_str())
}

/// The first subfolder from `i` on that holds a file of that name: the file's
/// path.
pub open spec fn art_below(dir: Seq<char>, nodes: Seq<Node>, name: Seq<char>, i: int) -> Option<
    Seq<char>,
>
    decreases nodes.len() - i,
{
    if i < 0 || i >= nodes.len() {
        None
    } else if nodes[i].kind == Kind::Dir && has_file(nodes[i].children@, name) {
        Some(joined(joined(dir, nodes[i].name@), name))
    } else {
        art_below(dir, nodes, name, i + 1)
    }
}

/// Artwork of that name in the app's folder, or one hash-named folder below it.
pub open spec fn art_named(dir: Seq<char>, nodes: Seq<Node>, name: Seq<char>) -> Option<Seq<char>> {
    if has_file(nodes, name) {
        Some(joined(dir, name))
    } else {
        art_below(dir, nodes, name, 0)
    }
}

/// Portrait art first, then landscape; nothing local: the CDN.
pub open spec fn steam_art(dir: Seq<char>, nodes: Seq<Node>, appid: u64) -> PosterView {
    match art_named(dir, nodes, "library_600x900.jpg"@) {
        Some(p) => PosterView::File(p),
        None => match art_named(dir, nodes, "library_capsule.jpg"@) {
            Some(p) => PosterView::File(p),
            None => match art_named(dir, nodes, "library_header.jpg"@) {
                Some(p) => PosterView::File(p),
                None => match art_named(dir, nodes, "header.jpg"@) {
                    Some(p) => PosterView::File(p),
                    None => PosterView::SteamCdn(appid),
                },
            },
        },
    }
}

fn find_art(dir: &str, nodes: &[Node], name: &str) -> (r: Option<String>)
    ensures
        opt_string(r) == art_named(dir@, nodes@, name@),
{
    if holds_file(nodes, name) {
        return Some(path_join(dir, name));
    }
    let mut i: usize = 0;
    while i < nodes.len()
        invariant
            i <= nodes@.len(),
            art_named(dir@, nodes@, name@) == art_below(dir@, nodes@, name@, i as int),
        decreases nodes@.len() - i,
    {
        if nodes[i].kind == Kind::Dir && holds_file(nodes[i].children.as_slice(), name) {
            let sub = path_join(dir, nodes[i].name.as_str());
            return Some(path_join(sub.as_str(), name));
        }
        i += 1;
    }
    None
}

/// The artwork of a Steam game: `nodes` holds what is in its artwork folder.
pub fn steam_poster(steam: &str, appid: u64, nodes: &[Node]) -> (r: Poster)
    ensures
        r@ == steam_art(art_folder(steam@, appid), nodes@, appid),
{
    let dir = art_dir(steam, appid);
    if let Some(p) = find_art(dir.as_str(), nodes, "library_600x900.jpg") {
        return Poster::File(p);
    }
    if let Some(p) = find_art(dir.as_str(), nodes, "library_capsule.jpg") {
        return Poster::File(p);
    }
    if let Some(p) = find_art(dir.as_str(), nodes, "library_header.jpg") {
        return Poster::File(p);
    }
    if let Some(p) = find_art(dir.as_str(), nodes, "header.jpg") {
        return Poster::File(p);
    }
    Poster::SteamCdn(appid)
}

/// A game that a file in a `steamapps` folder describes: its manifest, and the
/// folder that it is in if it is still there.
#[derive(Debug)]
pub struct SteamEntry {
    pub acf: Acf,
    pub dir: String,
}

/// The game that a file of a `steamapps` folder describes.
pub open spec fn entry_in(steamapps: Seq<char>, name: Seq<char>, text: Seq<char>) -> Option<
    (u64, Seq<char>, Seq<char>),
> {
    if starts(lower(name), "appmanifest_"@) && ends(lower(name), ".acf"@) {
        match acf_in(text) {
            Some((id, title, dir)) => if is_tool(id, title) {
                None
            } else {
                Some((id, title, joined(joined(steamapps, "common"@), dir)))
            },
            None => None,
        }
    } else {
        None
    }
}

pub fn steam_entry(steamapps: &str, name: &str, text: &str) -> (r: Option<SteamEntry>)
    ensures
        match r {
            Some(e) => entry_in(steamapps@, name@, text@) == Some(
                (e.acf.appid, e.acf.name@, e.dir@),
            ),
            None => entry_in(steamapps@, name@, text@) is None,
        },
{
    let low = lower_string(name);
    if !(starts_with(low.as_str(), "appmanifest_") && ends_with(low.as_str(), ".acf")) {
        return None;
    }
    match parse_acf(text) {
        Some(acf) => {
            if steam_is_tool(&acf) {
                return None;
            }
            let common = path_join(steamapps, "common");
            let dir = path_join(common.as_str(), acf.installdir.as_str());
            Some(SteamEntry { acf, dir })
        },
        None => None,
    }
}

/// The game of an entry whose folder is there.
pub fn steam_game(e: SteamEntry, installed: i128, poster: Poster) -> (r: Game)
    ensures
        r@ == (GameView {
            title: e.acf.name@,
            store: Store::Steam,
            dir: e.dir@,
            exe_hint: None,
            installed: installed as int,
            poster: poster@,
        }),
{
    Game {
        title: e.acf.name,
        store: Store::Steam,
        dir: e.dir,
        exe_hint: None,
        installed,
        poster,
    }
}

/// Title, folder and executable of an Epic manifest, given what it says: an
/// application that is completely installed.
pub open spec fn epic_made(
    application: bool,
    incomplete: bool,
    title: Option<Seq<char>>,
    dir: Option<Seq<char>>,
    exe: Option<Seq<char>>,
) -> Option<(Seq<char>, Seq<char>, Option<Seq<char>>)> {
    if !application || incomplete || title is None || dir is None {
        None
    } else {
        Some(
            (
                title->0,
                dir->0,
                match exe {
                    Some(e) => if e.len() > 0 {
                        Some(joined(dir->0, backslashed(e)))
                    } else {
                        None
                    },
                    None => None,
                },
            ),
        )
    }
}

pub fn make_epic(
    application: bool,
    incomplete: bool,
    title: Option<String>,
    dir: Option<String>,
    exe: Option<String>,
) -> (r: Option<(String, String, Option<String>)>)
    ensures
        ({
            let made = epic_made(
                application,
                incomplete,
                opt_string(title),
                opt_string(dir),
                opt_string(exe),
            );
            match r {
                Some((t, d, e)) => made == Some((t@, d@, opt_string(e))),
                None => made is None,
            }
        }),
{
    if !application || incomplete {
        return None;
    }
    match (title, dir) {
        (Some(title), Some(dir)) => {
            let exe = match exe {
                Some(e) => {
                    if e.as_str().is_empty() {
                        None
                    } else {
                        Some(path_join(dir.as_str(), replaced(e.as_str(), '/', "\\").as_str()))
                    }
                },
                None => None,
            };
            Some((title, dir, exe))
        },
        _ => None,
    }
}

/// What an Epic manifest says.
pub open spec fn epic_from(l: Level) -> Option<(Seq<char>, Seq<char>, Option<Seq<char>>)> {
    epic_made(
        level_at(l, "bIsApplication"@) == Level::Bool(true),
        level_at(l, "bIsIncompleteInstall"@) == Level::Bool(true),
        as_text(level_at(l, "DisplayName"@)),
        as_text(level_at(l, "InstallLocation"@)),
        as_text(level_at(l, "LaunchExecutable"@)),
    )
}

/// An Epic manifest, given its JSON value.
pub fn read_epic(j: &Json) -> (r: Option<(String, String, Option<String>)>)
    ensures
        match r {
            Some((t, d, e)) => epic_from(j@) == Some((t@, d@, opt_string(e))),
            None => epic_from(j@) is None,
        },
{
    make_epic(
        matches!(j.at("bIsApplication"), Json::Bool(true)),
        matches!(j.at("bIsIncompleteInstall"), Json::Bool(true)),
        j.at("DisplayName").into_text(),
        j.at("InstallLocation").into_text(),
        j.at("LaunchExecutable").into_text(),
    )
}

/// Is it the name of one of Epic's manifests?
pub fn is_epic_manifest(name: &str) -> (r: bool)
    ensures
        r == ends(lower(name@), ".item"@),
{
    let n = lower_string(name);
    ends_with(n.as_str(), ".item")
}

pub fn parse_epic_item(json: &str) -> (r: Option<(String, String, Option<String>)>)
    ensures
        match r {
            Some((t, d, e)) => epic_from(json_level(json@)) == Some((t@, d@, opt_string(e))),
            None => epic_from(json_level(json@)) is None,
        },
{
    read_epic(&Json::read(json))
}

/// A game whose icon is its artwork: that of the exe, or of the folder where
/// there is none.
pub open spec fn icon_game(
    title: Seq<char>,
    store: Store,
    dir: Seq<char>,
    exe: Option<Seq<char>>,
    icon: Option<Seq<char>>,
    installed: int,
) -> GameView {
    GameView {
        title,
        store,
        dir,
        exe_hint: exe,
        installed,
        poster: PosterView::ExeIcon(
            match icon {
                Some(e) => e,
                None => dir,
            },
        ),
    }
}

/// The game of an Epic manifest whose folder is there.
pub fn epic_game(
    title: String,
    dir: String,
    exe: Option<String>,
    exe_is_file: bool,
    installed: i128,
) -> (r: Game)
    ensures
        r@ == icon_game(
            title@,
            Store::Epic,
            dir@,
            opt_string(exe),
            if exe_is_file {
                opt_string(exe)
            } else {
                None
            },
            installed as int,
        ),
{
    let icon = match &exe {
        Some(e) => if exe_is_file {
            e.clone()
        } else {
            dir.clone()
        },
        None => dir.clone(),
    };
    Game {
        title,
        store: Store::Epic,
        dir,
        exe_hint: exe,
        installed,
        poster: Poster::ExeIcon(icon),
    }
}

/// The game of a GOG entry whose folder is there; `exe` where it is a file.
pub fn gog_game(title: String, dir: String, exe: Option<String>, installed: i128) -> (r: Game)
    ensures
        r@ == icon_game(
            title@,
            Store::Gog,
            dir@,
            opt_string(exe),
            opt_string(exe),
            installed as int,
        ),
{
    let icon = match &exe {
        Some(e) => e.clone(),
        None => dir.clone(),
    };
    Game { title, store: Store::Gog, dir, exe_hint: exe, installed, poster: Poster::ExeIcon(icon) }
}

/// The UTF-16 units from `o` on, up to a zero or to the end.
pub open spec fn units_from(b: Seq<u8>, o: int) -> Seq<u16>
    decreases b.len() - o,
{
    if o < 0 || o + 2 > b.len() || le_value(b, o, 2) == 0 {
        Seq::empty()
    } else {
        seq![le_value(b, o, 2) as u16] + units_from(b, o + 2)
    }
}

/// "RGBX", with which the file begins, as a number.
pub const RGBX: u32 = 0x5842_4752;

/// The folder name in a `.GamingRoot` file: "RGBX", four bytes, then the name in
/// UTF-16.
pub open spec fn gaming_root(b: Seq<u8>) -> Option<Seq<char>> {
    let name = utf16_lossy(units_from(b, 8));
    if b.len() < 10 || le_value(b, 0, 4) != RGBX || name.len() == 0 {
        None
    } else {
        Some(name)
    }
}

/// `.GamingRoot`: "RGBX", a u32, then the games folder name in UTF-16
/// (NUL-terminated).
pub fn parse_gaming_root(b: &[u8]) -> (r: Option<String>)
    ensures
        opt_string(r) == gaming_root(b@),
{
    if b.len() < 10 {
        return None;
    }
    match crate::bytes::read_u32(b, 0) {
        Some(head) => {
            if head != RGBX {
                return None;
            }
        },
        None => {
            return None;
        },
    }
    let n: usize = b.len();
    let mut units: Vec<u16> = Vec::new();
    let mut o: usize = 8;
    assert(units@ + units_from(b@, 8) =~= units_from(b@, 8));
    while o < n - 1
        invariant_except_break
            n == b@.len(),
            10 <= n,
            8 <= o <= n,
            units@ + units_from(b@, o as int) == units_from(b@, 8),
        ensures
            units@ == units_from(b@, 8),
        decreases n - o,
    {
        let u: u16 = match read_u16(b, o as u64) {
            Some(u) => u,
            None => 0,
        };
        if u == 0 {
            assert(units@ + Seq::<u16>::empty() =~= units@);
            break;
        }
        let ghost before = units@;
        units.push(u);
        proof {
            let rest = units_from(b@, o + 2);
            assert(before + (seq![u] + rest) =~= units@ + rest);
        }
        o += 2;
        assert(o + 2 > n ==> units@ + Seq::<u16>::empty() =~= units@);
    }
    let s = text_of_units(units.as_slice());
    if s.as_str().is_empty() {
        None
    } else {
        Some(s)
    }
}

/// What a Game Pass game says of itself.
#[derive(Debug, PartialEq, Eq)]
pub struct XboxConfig {
    pub title: Option<String>,
    pub exe: Option<String>,
    pub logo: Option<String>,
}

pub const XBOX_TITLE: &'static str = "DefaultDisplayName=\"([^\"]+)\"";

pub const XBOX_EXE: &'static str = "<Executable[^>]*\\sName=\"([^\"]+)\"";

pub const XBOX_LOGO: &'static str = "Square150x150Logo=\"([^\"]+)\"";

pub const XBOX_STORE_LOGO: &'static str = "StoreLogo=\"([^\"]+)\"";

/// A name that is not a reference to a resource.
pub open spec fn own_title(t: Option<Seq<char>>) -> Option<Seq<char>> {
    match t {
        Some(s) => if starts(s, "ms-resource"@) {
            None
        } else {
            Some(s)
        },
        None => None,
    }
}

/// The first, or the second where there is no first.
pub open spec fn either(a: Option<Seq<char>>, b: Option<Seq<char>>) -> Option<Seq<char>> {
    match a {
        Some(s) => Some(s),
        None => b,
    }
}

/// A configuration, given what the patterns took.
pub fn make_xbox_config(
    title: Option<String>,
    exe: Option<String>,
    logo: Option<String>,
    store_logo: Option<String>,
) -> (r: XboxConfig)
    ensures
        opt_string(r.title) == own_title(opt_string(title)),
        opt_string(r.exe) == opt_string(exe),
        opt_string(r.logo) == either(opt_string(logo), opt_string(store_logo)),
{
    let own = match title {
        Some(t) => if starts_with(t.as_str(), "ms-resource") {
            None
        } else {
            Some(t)
        },
        None => None,
    };
    let art = match logo {
        Some(l) => Some(l),
        None => store_logo,
    };
    XboxConfig { title: own, exe, logo: art }
}

pub fn parse_microsoft_game_config(xml: &str) -> (r: XboxConfig)
    ensures
        opt_string(r.title) == own_title(first_taken(XBOX_TITLE@, xml@)),
        opt_string(r.exe) == first_taken(XBOX_EXE@, xml@),
        opt_string(r.logo) == either(
            first_taken(XBOX_LOGO@, xml@),
            first_taken(XBOX_STORE_LOGO@, xml@),
        ),
{
    make_xbox_config(
        first_match(XBOX_TITLE, xml),
        first_match(XBOX_EXE, xml),
        first_match(XBOX_LOGO, xml),
        first_match(XBOX_STORE_LOGO, xml),
    )
}

/// A path that the configuration gives, in the game's folder.
pub open spec fn content_path(content: Seq<char>, p: Option<Seq<char>>) -> Option<Seq<char>> {
    match p {
        Some(s) => Some(joined(content, backslashed(s))),
        None => None,
    }
}

/// Where a file that the configuration names is.
pub fn in_content(content: &str, p: &Option<String>) -> (r: Option<String>)
    ensures
        opt_string(r) == content_path(content@, opt_string(*p)),
{
    match p {
        Some(s) => Some(path_join(content, replaced(s.as_str(), '/', "\\").as_str())),
        None => None,
    }
}

/// The Game Pass game in a folder: its logo where that is a file, else the icon
/// of the exe.
pub open spec fn xbox_view(
    folder: Seq<char>,
    content: Seq<char>,
    title: Option<Seq<char>>,
    exe: Option<Seq<char>>,
    logo: Option<Seq<char>>,
    logo_is_file: bool,
    installed: int,
) -> GameView {
    let program = content_path(content, exe);
    GameView {
        title: match title {
            Some(t) => t,
            None => folder,
        },
        store: Store::Xbox,
        dir: content,
        exe_hint: program,
        installed,
        poster: if logo is Some && logo_is_file {
            PosterView::File(content_path(content, logo)->0)
        } else {
            PosterView::ExeIcon(
                match program {
                    Some(p) => p,
                    None => content,
                },
            )
        },
    }
}

pub fn xbox_game(
    folder: &str,
    content: &str,
    cfg: XboxConfig,
    logo_is_file: bool,
    installed: i128,
) -> (r: Game)
    ensures
        r@ == xbox_view(
            folder@,
            content@,
            opt_string(cfg.title),
            opt_string(cfg.exe),
            opt_string(cfg.logo),
            logo_is_file,
            installed as int,
        ),
{
    let exe = in_content(content, &cfg.exe);
    let icon = match &exe {
        Some(p) => p.clone(),
        None => content.to_owned(),
    };
    let poster = match in_content(content, &cfg.logo) {
        Some(p) => if logo_is_file {
            Poster::File(p)
        } else {
            Poster::ExeIcon(icon)
        },
        None => Poster::ExeIcon(icon),
    };
    let title = match cfg.title {
        Some(t) => t,
        None => folder.to_owned(),
    };
    Game { title, store: Store::Xbox, dir: content.to_owned(), exe_hint: exe, installed, poster }
}

/// The folder of this tool's own files: in the user's local data, or among
/// temporary files where there is none.
pub open spec fn own_folder(local: Option<Seq<char>>, temp: Seq<char>) -> Seq<char> {
    joined(
        match local {
            Some(l) => l,
            None => temp,
        },
        "revengine-dlss5"@,
    )
}

fn own_dir(local: Option<&str>, temp: &str) -> (r: String)
    ensures
        r@ == own_folder(opt_text(local), temp@),
{
    match local {
        Some(l) => path_join(l, "revengine-dlss5"),
        None => path_join(temp, "revengine-dlss5"),
    }
}

/// Where downloaded posters live.
pub fn poster_cache_dir(local: Option<&str>, temp: &str) -> (r: String)
    ensures
        r@ == joined(own_folder(opt_text(local), temp@), "posters"@),
{
    path_join(own_dir(local, temp).as_str(), "posters")
}

/// Paths the user pointed at, one per line. Kept next to the poster cache.
pub fn added_list_file(local: Option<&str>, temp: &str) -> (r: String)
    ensures
        r@ == joined(own_folder(opt_text(local), temp@), "added-games.txt"@),
{
    path_join(own_dir(local, temp).as_str(), "added-games.txt")
}

/// The paths in the list of added games: its lines, trimmed, but for the empty
/// ones.
pub open spec fn paths_in(list: Seq<char>) -> Seq<Seq<char>> {
    lines(list).map_values(|l: Seq<char>| trim(l)).filter(|l: Seq<char>| l.len() > 0)
}

/// What the list holds.
pub open spec fn list_of(paths: Seq<Seq<char>>) -> Seq<char> {
    join(paths, "\n"@)
}

/// The paths that the list names; nothing where there is no list.
pub fn added_paths(list: &str) -> (r: Vec<String>)
    ensures
        texts(r@) == paths_in(list@),
{
    broadcast use texts_push;

    let ls = lines_of(list);
    let ghost all = lines(list@).map_values(|l: Seq<char>| trim(l));
    let mut v: Vec<String> = Vec::new();
    let mut i: usize = 0;
    assert(texts(v@) =~= all.take(0));
    while i < ls.len()
        invariant
            i <= ls@.len(),
            texts(ls@) == lines(list@),
            all == lines(list@).map_values(|l: Seq<char>| trim(l)),
            texts(v@) == all.take(i as int),
        decreases ls@.len() - i,
    {
        broadcast use texts_push;

        assert(all[i as int] == trim(ls@[i as int]@));
        assert(all.take(i + 1) =~= all.take(i as int).push(all[i as int]));
        v.push(trimmed(ls[i].as_str()));
        i += 1;
    }
    assert(all.take(i as int) =~= all);
    let ghost keep = |l: Seq<char>| l.len() > 0;
    let full = |l: &String| -> (b: bool)
        ensures
            b == (l@.len() > 0),
        {
            !l.as_str().is_empty()
        };
    keep_strings(v.as_slice(), full, Ghost(keep))
}

/// The path is among those of the list, case aside.
pub open spec fn is_listed(paths: Seq<Seq<char>>, p: Seq<char>) -> bool {
    exists|i: int| 0 <= i < paths.len() && same_fold(#[trigger] paths[i], p)
}

/// Remember a path the user picked (a folder or an exe): the list to write, or
/// nothing where the path is on it.
pub fn remember_added(list: &str, path: &str) -> (r: Option<String>)
    ensures
        opt_string(r) == (if is_listed(paths_in(list@), path@) {
            None
        } else {
            Some(list_of(paths_in(list@).push(path@)))
        }),
{
    broadcast use texts_push;

    let mut v = added_paths(list);
    let ghost paths = paths_in(list@);
    let mut i: usize = 0;
    while i < v.len()
        invariant
            i <= v@.len(),
            texts(v@) == paths,
            paths == paths_in(list@),
            forall|j: int| 0 <= j < i ==> !same_fold(#[trigger] paths[j], path@),
        decreases v@.len() - i,
    {
        assert(paths[i as int] == v@[i as int]@);
        if eq_fold(v[i].as_str(), path) {
            return None;
        }
        i += 1;
    }
    assert(paths.len() == v@.len());
    v.push(path.to_owned());
    Some(join_with(v.as_slice(), "\n"))
}

/// An entry of the list that stands for a path: the path itself, or a file in
/// that folder. The list holds what was picked (maybe an exe); the card knows
/// only the folder.
pub open spec fn stands_for(entry: Seq<char>, p: Seq<char>) -> bool {
    same_fold(entry, p) || match parent_of(entry) {
        Some(d) => same_fold(d, p),
        None => false,
    }
}

/// Forget a path: the list to write.
pub fn forget_added(list: &str, path: &str) -> (r: String)
    ensures
        r@ == list_of(paths_in(list@).filter(|e: Seq<char>| !stands_for(e, path@))),
{
    let ghost keep = |e: Seq<char>| !stands_for(e, path@);
    let other = |e: &String| -> (b: bool)
        ensures
            b == !stands_for(e@, path@),
        {
            let inside = match path_parent(e.as_str()) {
                Some(d) => eq_fold(d.as_str(), path),
                None => false,
            };
            !eq_fold(e.as_str(), path) && !inside
        };
    let v = keep_strings(added_paths(list).as_slice(), other, Ghost(keep));
    join_with(v.as_slice(), "\n")
}

/// A path on the list, as it was found: the exe that a folder leads to, and when
/// its folder was made.
#[derive(Debug)]
pub struct AddedPath {
    pub path: String,
    pub kind: Target,
    pub exe: Option<String>,
    pub installed: i128,
}

/// The game that a path on the list stands for; nothing where it is gone.
pub open spec fn added_view(a: AddedPath) -> Option<GameView> {
    let p = a.path@;
    match a.kind {
        Target::File => {
            let dir = match parent_of(p) {
                Some(d) => d,
                None => p,
            };
            Some(
                icon_game(
                    match name_of(p) {
                        Some(n) => stem_of(n),
                        None => dir,
                    },
                    Store::Manual,
                    dir,
                    Some(p),
                    Some(p),
                    a.installed as int,
                ),
            )
        },
        Target::Folder => Some(
            icon_game(
                match name_of(p) {
                    Some(n) => n,
                    None => p,
                },
                Store::Manual,
                p,
                opt_string(a.exe),
                opt_string(a.exe),
                a.installed as int,
            ),
        ),
        Target::Nothing => None,
    }
}

fn added_game(a: &AddedPath) -> (r: Option<Game>)
    ensures
        match r {
            Some(g) => added_view(*a) == Some(g@),
            None => added_view(*a) is None,
        },
{
    let p = a.path.as_str();
    match a.kind {
        Target::File => {
            let dir = match path_parent(p) {
                Some(d) => d,
                None => p.to_owned(),
            };
            let title = match path_name(p) {
                Some(n) => file_stem(n.as_str()),
                None => dir.clone(),
            };
            Some(
                Game {
                    title,
                    store: Store::Manual,
                    dir,
                    exe_hint: Some(p.to_owned()),
                    installed: a.installed,
                    poster: Poster::ExeIcon(p.to_owned()),
                },
            )
        },
        Target::Folder => {
            let title = match path_name(p) {
                Some(n) => n,
                None => p.to_owned(),
            };
            let (exe_hint, icon) = match &a.exe {
                Some(e) => (Some(e.clone()), e.clone()),
                None => (None, p.to_owned()),
            };
            Some(
                Game {
                    title,
                    store: Store::Manual,
                    dir: p.to_owned(),
                    exe_hint,
                    installed: a.installed,
                    poster: Poster::ExeIcon(icon),
                },
            )
        },
        Target::Nothing => None,
    }
}

/// The games that the paths stand for, in their order.
pub open spec fn added_views(v: Seq<AddedPath>) -> Seq<GameView>
    decreases v.len(),
{
    if v.len() == 0 {
        Seq::empty()
    } else {
        match added_view(v.last()) {
            Some(g) => added_views(v.drop_last()).push(g),
            None => added_views(v.drop_last()),
        }
    }
}

/// One `Game` per remembered path; a path that no longer exists is dropped.
pub fn added_games(paths: &[AddedPath]) -> (r: Vec<Game>)
    ensures
        games(r@) == added_views(paths@),
{
    let mut out: Vec<Game> = Vec::new();
    let mut i: usize = 0;
    assert(games(out@) =~= added_views(paths@.take(0)));
    while i < paths.len()
        invariant
            i <= paths@.len(),
            games(out@) == added_views(paths@.take(i as int)),
        decreases paths@.len() - i,
    {
        assert(paths@.take(i + 1).drop_last() =~= paths@.take(i as int));
        if let Some(g) = added_game(&paths[i]) {
            let ghost before = games(out@);
            out.push(g);
            assert(games(out@) =~= before.push(g@));
        }
        i += 1;
    }
    assert(paths@.take(i as int) =~= paths@);
    out
}

/// The newer stands first; of the same time, the one whose title does.
pub open spec fn newer(v: Seq<GameView>) -> spec_fn(int, int) -> bool {
    |i: int, j: int|
        v[i].installed > v[j].installed || (v[i].installed == v[j].installed && text_less(
            v[i].title,
            v[j].title,
        ))
}

pub open spec fn newest_first(v: Seq<GameView>) -> Seq<GameView> {
    in_order(v.len(), newer(v)).map_values(|i: int| v[i])
}

/// A game in the folder of another one before it.
pub open spec fn is_again(v: Seq<GameView>, g: GameView) -> bool {
    exists|i: int| 0 <= i < v.len() && same_fold((#[trigger] v[i]).dir, g.dir)
}

/// The first game of each folder.
pub open spec fn once_each(v: Seq<GameView>) -> Seq<GameView>
    decreases v.len(),
{
    if v.len() == 0 {
        Seq::empty()
    } else {
        let kept = once_each(v.drop_last());
        if is_again(kept, v.last()) {
            kept
        } else {
            kept.push(v.last())
        }
    }
}

pub proof fn newer_is_order(v: Seq<GameView>)
    ensures
        weak_order(newer(v)),
{
    let lt = newer(v);
    assert forall|x: int, y: int| #[trigger] lt(x, y) implies !lt(y, x) by {
        crate::order::texts_compare(v[x].title, v[y].title, v[x].title);
    }
    assert forall|x: int, y: int, z: int| #[trigger] lt(x, z) implies #[trigger] lt(x, y) || lt(
        y,
        z,
    ) by {
        crate::order::texts_compare(v[x].title, v[z].title, v[y].title);
    }
}

fn dir_taken(v: &[Game], dir: &str) -> (r: bool)
    ensures
        r == exists|i: int| 0 <= i < v@.len() && same_fold((#[trigger] games(v@)[i]).dir, dir@),
{
    let mut i: usize = 0;
    while i < v.len()
        invariant
            i <= v@.len(),
            forall|j: int| 0 <= j < i ==> !same_fold((#[trigger] games(v@)[j]).dir, dir@),
        decreases v@.len() - i,
    {
        assert(games(v@)[i as int].dir == v@[i as int].dir@);
        if eq_fold(v[i].dir.as_str(), dir) {
            return true;
        }
        i += 1;
    }
    false
}

/// Newest install first, one entry per folder: the first of each stays.
pub fn sort_and_dedupe(v: &mut Vec<Game>)
    ensures
        games(final(v)@) == once_each(newest_first(games(old(v)@))),
{
    let ghost s = games(v@);
    let ghost lt = newer(s);
    let n: usize = v.len();
    proof {
        newer_is_order(s);
    }
    let list = v.as_slice();
    let before = |a: usize, b: usize| -> (r: bool)
        requires
            a < n,
            b < n,
        ensures
            r == lt(a as int, b as int),
        {
            list[a].installed > list[b].installed || (list[a].installed == list[b].installed
                && text_before(list[a].title.as_str(), list[b].title.as_str()))
        };
    let p = order(n, before, Ghost(lt));
    let ghost all = newest_first(s);
    let mut out: Vec<Game> = Vec::new();
    let mut k: usize = 0;
    assert(games(out@) =~= once_each(all.take(0)));
    while k < p.len()
        invariant
            k <= p@.len(),
            n == list@.len(),
            s == games(list@),
            p@.len() == n,
            all == in_order(s.len(), lt).map_values(|i: int| s[i]),
            as_places(p@) == in_order(s.len(), lt),
            forall|j: int| 0 <= j < p@.len() ==> #[trigger] p@[j] < n,
            games(out@) == once_each(all.take(k as int)),
        decreases p@.len() - k,
    {
        assert(all.take(k + 1).drop_last() =~= all.take(k as int));
        assert(as_places(p@)[k as int] == p@[k as int]);
        assert(p@[k as int] < n);
        let g = &list[p[k]];
        assert(all[k as int] == g@);
        assert(games(out@).len() == out@.len());
        if !dir_taken(out.as_slice(), g.dir.as_str()) {
            let ghost before = games(out@);
            let c = g.copy();
            out.push(c);
            assert(games(out@) =~= before.push(c@));
        }
        k += 1;
    }
    assert(as_places(p@).len() == all.len());
    assert(all.take(k as int) =~= all);
    *v = out;
}

/// What the list of games is, of those that the stores list and those that were
/// added by hand: an added one that a store lists too loses to the store's.
pub open spec fn scanned(stores: Seq<GameView>, added: Seq<GameView>) -> Seq<GameView> {
    once_each(newest_first(stores + added.filter(|g: GameView| !is_again(stores, g))))
}

/// Takes out what a store lists too.
fn not_in_stores(stores: &[Game], added: &[Game]) -> (r: Vec<Game>)
    ensures
        games(r@) == games(added@).filter(|g: GameView| !is_again(games(stores@), g)),
{
    let ghost all = games(added@);
    let ghost keep = |g: GameView| !is_again(games(stores@), g);
    let mut out: Vec<Game> = Vec::new();
    let mut i: usize = 0;
    proof {
        reveal(Seq::filter);
    }
    assert(games(out@) =~= all.take(0).filter(keep));
    while i < added.len()
        invariant
            i <= added@.len(),
            all == games(added@),
            keep == |g: GameView| !is_again(games(stores@), g),
            games(out@) == all.take(i as int).filter(keep),
        decreases added@.len() - i,
    {
        proof {
            reveal(Seq::filter);
        }
        assert(all.take(i + 1).drop_last() =~= all.take(i as int));
        let g = &added[i];
        assert(all[i as int] == g@);
        assert(games(stores@).len() == stores@.len());
        if !dir_taken(stores, g.dir.as_str()) {
            let ghost before = games(out@);
            let c = g.copy();
            out.push(c);
            assert(games(out@) =~= before.push(c@));
        }
        i += 1;
    }
    assert(all.take(i as int) =~= all);
    out
}

/// All installed games, newest first and one for each folder, from what each
/// store lists and what was added by hand. A path added by hand that a store
/// also lists loses to the store's entry.
pub fn scan(
    steam: Vec<Game>,
    epic: Vec<Game>,
    gog: Vec<Game>,
    xbox: Vec<Game>,
    added: Vec<Game>,
) -> (r: Vec<Game>)
    ensures
        games(r@) == scanned(
            games(steam@) + games(epic@) + games(gog@) + games(xbox@),
            games(added@),
        ),
{
    let ghost stores = games(steam@) + games(epic@) + games(gog@) + games(xbox@);
    let mut v = steam;
    let mut epic = epic;
    let mut gog = gog;
    let mut xbox = xbox;
    v.append(&mut epic);
    v.append(&mut gog);
    v.append(&mut xbox);
    assert(games(v@) =~= stores);
    let mut rest = not_in_stores(v.as_slice(), added.as_slice());
    let ghost others = games(rest@);
    v.append(&mut rest);
    assert(games(v@) =~= stores + others);
    sort_and_dedupe(&mut v);
    v
}

pub const STEAM_CDN: &'static str = "https://cdn.cloudflare.steamstatic.com/steam/apps/";

/// The address of a Steam game's portrait art.
pub fn poster_url(appid: u64) -> (r: String)
    ensures
        r@ == STEAM_CDN@ + dec(appid as nat) + "/library_600x900.jpg"@,
{
    let mut s = cat(STEAM_CDN, dec_text(appid).as_str());
    s.append("/library_600x900.jpg");
    s
}

/// The address at which the store describes a Steam game.
pub fn details_url(appid: u64) -> (r: String)
    ensures
        r@ == "https://store.steampowered.com/api/appdetails?appids="@ + dec(appid as nat)
            + "&filters=basic"@,
{
    let mut s = cat(
        "https://store.steampowered.com/api/appdetails?appids=",
        dec_text(appid).as_str(),
    );
    s.append("&filters=basic");
    s
}

/// The address of the header image in such a description.
pub open spec fn header_in(l: Level, appid: u64) -> Option<Seq<char>> {
    as_text(level_at(level_at(level_at(l, dec(appid as nat)), "data"@), "header_image"@))
}

pub fn header_image(json: &str, appid: u64) -> (r: Option<String>)
    ensures
        opt_string(r) == header_in(json_level(json@), appid),
{
    read_header(&Json::read(json), appid)
}

/// The same, given the description's JSON value.
pub fn read_header(j: &Json, appid: u64) -> (r: Option<String>)
    ensures
        opt_string(r) == header_in(j@, appid),
{
    j.at(dec_text(appid).as_str()).at("data").at("header_image").into_text()
}

/// The name under which a Steam game's art is kept, or that there is none.
pub fn poster_file(appid: u64, there: bool) -> (r: String)
    ensures
        r@ == "steam_"@ + dec(appid as nat) + (if there {
            ".jpg"@
        } else {
            ".none"@
        }),
{
    let mut s = cat("steam_", dec_text(appid).as_str());
    s.append(if there {
        ".jpg"
    } else {
        ".none"
    });
    s
}

/// What to do for a Steam game's art.
#[derive(Debug, Clone, Copy, PartialEq, Eq, Structural)]
pub enum ArtStep {
    /// It is known that there is none.
    Nothing,
    /// It was downloaded before.
    Open,
    Download,
}

/// What is done for art of which those files are in the poster cache.
pub open spec fn art_for(none_there: bool, file_there: bool) -> ArtStep {
    if none_there {
        ArtStep::Nothing
    } else if file_there {
        ArtStep::Open
    } else {
        ArtStep::Download
    }
}

/// Art is downloaded once, and looked for once where there is none: from which
/// of the two files is in the poster cache.
pub fn art_step(none_there: bool, file_there: bool) -> (r: ArtStep)
    ensures
        r == art_for(none_there, file_there),
{
    if none_there {
        ArtStep::Nothing
    } else if file_there {
        ArtStep::Open
    } else {
        ArtStep::Download
    }
}

/// A text of the registry: `units` were read of a text of `size` bytes; zeroes
/// at its end are no part of it.
pub fn registry_text(units: &[u16], size: u32) -> (r: String)
    ensures
        r@ == trim_end_char(utf16_lossy(units@.take(text_units(size, units@.len()) as int)), '\0'),
{
    strip_end_char(crate::gpupref::get(units, size).as_str(), '\0')
}

/// The icon has no alpha at all.
pub open spec fn is_clear(px: Seq<u8>) -> bool {
    forall|i: int| 0 <= i < px.len() && i % 4 == 3 ==> #[trigger] px[i] == 0
}

/// Red and blue change places; an icon without an alpha channel is opaque.
pub open spec fn rgba_at(px: Seq<u8>, i: int) -> u8 {
    if i % 4 == 0 {
        px[i + 2]
    } else if i % 4 == 2 {
        px[i - 2]
    } else if i % 4 == 3 && is_clear(px) {
        255
    } else {
        px[i]
    }
}

/// The pixels of an icon, which come with blue first, with red first. An icon
/// without an alpha channel comes back fully transparent: it is treated as
/// opaque.
pub fn icon_pixels(bgra: &[u8]) -> (r: Vec<u8>)
    requires
        bgra@.len() % 4 == 0,
    ensures
        r@.len() == bgra@.len(),
        forall|i: int| 0 <= i < r@.len() ==> #[trigger] r@[i] == rgba_at(bgra@, i),
{
    let n: usize = bgra.len();
    let mut clear = true;
    let mut i: usize = 0;
    while i < n
        invariant
            n == bgra@.len(),
            i <= n,
            clear == forall|j: int| 0 <= j < i && j % 4 == 3 ==> #[trigger] bgra@[j] == 0,
        decreases n - i,
    {
        if i % 4 == 3 && bgra[i] != 0 {
            clear = false;
        }
        i += 1;
    }
    assert(clear == is_clear(bgra@));
    let mut out: Vec<u8> = Vec::new();
    let mut k: usize = 0;
    while k < n
        invariant
            n == bgra@.len(),
            n % 4 == 0,
            k <= n,
            k == out@.len(),
            clear == is_clear(bgra@),
            forall|j: int| 0 <= j < k ==> #[trigger] out@[j] == rgba_at(bgra@, j),
        decreases n - k,
    {
        let c: u8 = if k % 4 == 0 {
            bgra[k + 2]
        } else if k % 4 == 2 {
            bgra[k - 2]
        } else if k % 4 == 3 && clear {
            255
        } else {
            bgra[k]
        };
        out.push(c);
        k += 1;
    }
    out
}

} // verus!
