//! RenoDX game-specific HDR mods: find the one for a game, and install it beside
//! DLSS 5.
//!
//! Two sources name the mods: `games-index.json` on the RenoDX snapshot release
//! (every mod that is built there, with Steam app ids and artifact names), and
//! the wiki's table (per game a download link, a status and a note).
//!
//! ReShade only refuses two add-ons of the same name; game mods are named
//! "RenoDX", the DLSS 5 add-on "DLSS 5 Neural Rendering". Two game mods do
//! clash, so there is exactly one per folder.
use vstd::prelude::*;

use crate::chars::{lower, lower_string};
use crate::json::{as_items, as_number, as_text, level_at, Json, Level};
use crate::net::{file_name, matches_of, taken};
use crate::numbers::{parse_u64, parsed_u64};
use crate::order::{sort_texts, text_sorted};
use crate::outside::{json_level, regex_groups, regex_replaced, replace_matches};
use crate::paths::{
    file_stem, name_of, parent_of, parent_shorter, path_name, path_parent, stem_of,
};
use crate::strs::{
    after_last, contains, cut_ends, ends, ends_with, eq_fold, join, join_with, keep_strings,
    letters, letters_of, lines, lines_of, list_has, occurs, opt_string, opt_text, pieces,
    same_fold, split_char, starts, starts_with, str_eq, texts, texts_push, trim, trimmed,
    without_ends,
};
use crate::tree::{has_file, holds_file, Node};

verus! {

pub const GAMES_INDEX_URL: &'static str =
    "https://github.com/clshortfuse/renodx/releases/download/snapshot/games-index.json";

pub const SNAPSHOT_DOWNLOAD: &'static str =
    "https://github.com/clshortfuse/renodx/releases/download/snapshot/";

pub const WIKI_MODS_URL: &'static str =
    "https://raw.githubusercontent.com/wiki/clshortfuse/renodx/Mods.md";

/// The mod matched to a game.
#[derive(Debug, Clone, PartialEq, Eq)]
pub struct Mod {
    pub title: String,
    /// `renodx-<id>.addon64`
    pub file: String,
    /// Direct download.
    pub url: Option<String>,
    /// "stable", "wip" or "unknown" (not on the wiki).
    pub status: &'static str,
    pub note: String,
}

/// What a status means to the user.
pub open spec fn status_says(status: Seq<char>) -> Seq<char> {
    if status == "stable"@ {
        "working"@
    } else if status == "wip"@ {
        "in progress — may have issues"@
    } else {
        "status unknown"@
    }
}

impl Mod {
    pub fn status_label(&self) -> (r: &'static str)
        ensures
            r@ == status_says(self.status@),
    {
        if str_eq(self.status, "stable") {
            "working"
        } else if str_eq(self.status, "wip") {
            "in progress — may have issues"
        } else {
            "status unknown"
        }
    }
}

/// A Markdown link; its text is the group.
pub const LINK: &'static str = "\\[([^\\]]+)\\]\\([^)]*\\)";

/// A bracketed suffix.
pub const BRACKETS: &'static str = "\\([^)]*\\)";

/// A text with a pattern replaced; unchanged where that cannot be done.
pub open spec fn replaced_or_same(pattern: Seq<char>, text: Seq<char>, by: Seq<char>) -> Seq<char> {
    match regex_replaced(pattern, text, by) {
        Some(t) => t,
        None => text,
    }
}

/// What titles are compared by: no links, no bracketed suffixes, letters and
/// digits only, lower case.
pub open spec fn title_key(s: Seq<char>) -> Seq<char> {
    letters(replaced_or_same(BRACKETS@, replaced_or_same(LINK@, s, "$1"@), ""@))
}

/// Letters and digits only, lower-case, bracketed suffixes dropped:
/// "Atlas Fallen (DX12)" and "Atlas Fallen" both become "atlasfallen".
pub fn norm_title(s: &str) -> (r: String)
    ensures
        r@ == title_key(s@),
{
    let no_link = match replace_matches(LINK, s, "$1") {
        Some(t) => t,
        None => s.to_owned(),
    };
    let no_brackets = match replace_matches(BRACKETS, no_link.as_str(), "") {
        Some(t) => t,
        None => no_link,
    };
    letters_of(no_brackets.as_str())
}

/// The key of each of the names.
pub open spec fn title_keys(names: Seq<Seq<char>>) -> Seq<Seq<char>> {
    names.map_values(|n: Seq<char>| title_key(n))
}

fn norm_titles(names: &[String]) -> (r: Vec<String>)
    ensures
        texts(r@) == title_keys(texts(names@)),
{
    broadcast use texts_push;

    let ghost all = title_keys(texts(names@));
    let mut out: Vec<String> = Vec::new();
    let mut i: usize = 0;
    assert(texts(out@) =~= all.take(0));
    while i < names.len()
        invariant
            i <= names@.len(),
            all == title_keys(texts(names@)),
            texts(out@) == all.take(i as int),
        decreases names@.len() - i,
    {
        broadcast use texts_push;

        assert(all[i as int] == title_key(names@[i as int]@));
        assert(all.take(i + 1) =~= all.take(i as int).push(all[i as int]));
        out.push(norm_title(names[i].as_str()));
        i += 1;
    }
    assert(all.take(i as int) =~= all);
    out
}

/// Where Steam keeps a game: the folder under `common`, and the `steamapps`
/// folder that holds its manifest.
#[derive(Debug)]
pub struct SteamPlace {
    pub installdir: String,
    pub steamapps: String,
}

/// The last part of a path is, case aside, that name.
pub open spec fn is_named(p: Seq<char>, name: Seq<char>) -> bool {
    match name_of(p) {
        Some(n) => same_fold(n, name),
        None => false,
    }
}

/// The folder is Steam's `steamapps\common`.
pub open spec fn is_common(p: Seq<char>) -> bool {
    is_named(p, "common"@) && match parent_of(p) {
        Some(d) => is_named(d, "steamapps"@),
        None => false,
    }
}

/// Walking up from a folder: the one that lies in `steamapps\common`, and
/// `steamapps` itself.
pub open spec fn steam_place(dir: Seq<char>) -> Option<(Seq<char>, Seq<char>)>
    decreases dir.len(),
{
    match parent_of(dir) {
        Some(d) => if is_common(d) {
            match (name_of(dir), parent_of(d)) {
                (Some(n), Some(s)) => Some((n, s)),
                _ => None,
            }
        } else {
            proof {
                parent_shorter(dir);
            }
            steam_place(d)
        },
        None => None,
    }
}

fn named(p: &str, name: &str) -> (r: bool)
    ensures
        r == is_named(p@, name@),
{
    match path_name(p) {
        Some(n) => eq_fold(n.as_str(), name),
        None => false,
    }
}

fn common(p: &str) -> (r: bool)
    ensures
        r == is_common(p@),
{
    named(p, "common") && match path_parent(p) {
        Some(d) => named(d.as_str(), "steamapps"),
        None => false,
    }
}

/// Where Steam keeps the game in that folder, if it does.
pub fn find_steam_place(game_dir: &str) -> (r: Option<SteamPlace>)
    ensures
        match r {
            Some(p) => steam_place(game_dir@) == Some((p.installdir@, p.steamapps@)),
            None => steam_place(game_dir@) is None,
        },
{
    let mut cur = game_dir.to_owned();
    loop
        invariant
            steam_place(game_dir@) == steam_place(cur@),
        decreases cur@.len(),
    {
        proof {
            parent_shorter(cur@);
        }
        match path_parent(cur.as_str()) {
            Some(d) => {
                if common(d.as_str()) {
                    return match (path_name(cur.as_str()), path_parent(d.as_str())) {
                        (Some(installdir), Some(steamapps)) => Some(
                            SteamPlace { installdir, steamapps },
                        ),
                        _ => None,
                    };
                }
                cur = d;
            },
            None => {
                return None;
            },
        }
    }
}

/// A file of the `steamapps` folder; its text where it could be read.
#[derive(Debug)]
pub struct Manifest {
    pub name: String,
    pub text: Option<String>,
}

pub const INSTALLDIR: &'static str = "\"installdir\"\\s+\"([^\"]+)\"";

pub const APPID: &'static str = "\"appid\"\\s+\"(\\d+)\"";

/// What a pattern's group takes in its first match.
pub open spec fn first_taken(pattern: Seq<char>, text: Seq<char>) -> Option<Seq<char>> {
    let v = taken(regex_groups(pattern, text));
    if v.len() > 0 {
        Some(v[0])
    } else {
        None
    }
}

pub(crate) fn first_match(pattern: &str, text: &str) -> (r: Option<String>)
    ensures
        opt_string(r) == first_taken(pattern@, text@),
{
    let v = matches_of(pattern, text);
    assert(v@.len() == texts(v@).len());
    if v.len() > 0 {
        assert(texts(v@)[0] == v@[0]@);
        Some(v[0].clone())
    } else {
        None
    }
}

/// What was read of a file of the `steamapps` folder: its name, and the folder
/// and the app id that it gives.
#[derive(Debug)]
pub struct ManifestFacts {
    pub name: String,
    pub installdir: Option<String>,
    pub appid: Option<String>,
}

pub type Facts = (Seq<char>, Option<Seq<char>>, Option<Seq<char>>);

impl View for ManifestFacts {
    type V = Facts;

    open spec fn view(&self) -> Facts {
        (self.name@, opt_string(self.installdir), opt_string(self.appid))
    }
}

/// The manifest of the game in the folder of that name.
pub open spec fn is_manifest_of(m: Facts, installdir: Seq<char>) -> bool {
    &&& starts(lower(m.0), "appmanifest_"@)
    &&& ends(lower(m.0), ".acf"@)
    &&& m.1 is Some
    &&& same_fold(m.1->0, installdir)
}

/// The app id that the first manifest of the game from `i` on gives.
pub open spec fn appid_from(v: Seq<Facts>, installdir: Seq<char>, i: int) -> Option<u64>
    decreases v.len() - i,
{
    if i < 0 || i >= v.len() {
        None
    } else if is_manifest_of(v[i], installdir) {
        match v[i].2 {
            Some(t) => parsed_u64(t),
            None => None,
        }
    } else {
        appid_from(v, installdir, i + 1)
    }
}

pub open spec fn facts(v: Seq<ManifestFacts>) -> Seq<Facts> {
    v.map_values(|m: ManifestFacts| m@)
}

/// The app id of the game in the folder of that name under `common`: that of the
/// first `appmanifest_*.acf` whose `installdir` is that folder.
pub fn find_appid(installdir: &str, manifests: &[ManifestFacts]) -> (r: Option<u64>)
    ensures
        r == appid_from(facts(manifests@), installdir@, 0),
{
    let ghost v = facts(manifests@);
    let mut i: usize = 0;
    while i < manifests.len()
        invariant
            i <= manifests@.len(),
            v == facts(manifests@),
            appid_from(v, installdir@, 0) == appid_from(v, installdir@, i as int),
        decreases manifests@.len() - i,
    {
        assert(v[i as int] == manifests@[i as int]@);
        let n = lower_string(manifests[i].name.as_str());
        if starts_with(n.as_str(), "appmanifest_") && ends_with(n.as_str(), ".acf") {
            if let Some(d) = &manifests[i].installdir {
                if eq_fold(d.as_str(), installdir) {
                    assert(is_manifest_of(v[i as int], installdir@));
                    return match &manifests[i].appid {
                        Some(t) => parse_u64(t.as_str()),
                        None => None,
                    };
                }
            }
        }
        i += 1;
    }
    None
}

/// What the patterns take in a file of the `steamapps` folder.
pub open spec fn facts_of(m: Manifest) -> Facts {
    match m.text {
        Some(t) => (m.name@, first_taken(INSTALLDIR@, t@), first_taken(APPID@, t@)),
        None => (m.name@, None, None),
    }
}

fn read_facts(m: &Manifest) -> (r: ManifestFacts)
    ensures
        r@ == facts_of(*m),
{
    let (installdir, appid) = match &m.text {
        Some(t) => (first_match(INSTALLDIR, t.as_str()), first_match(APPID, t.as_str())),
        None => (None, None),
    };
    ManifestFacts { name: m.name.clone(), installdir, appid }
}

/// The Steam app id of the game in that folder.
pub open spec fn appid_of(game_dir: Seq<char>, manifests: Seq<Manifest>) -> Option<u64> {
    match steam_place(game_dir) {
        Some((d, _)) => appid_from(manifests.map_values(|m: Manifest| facts_of(m)), d, 0),
        None => None,
    }
}

/// Steam app id for a game folder: walk up to `steamapps`, whose files are
/// given, and read the `appmanifest_*.acf` whose `installdir` names the folder
/// under `common`.
pub fn steam_appid(game_dir: &str, manifests: &[Manifest]) -> (r: Option<u64>)
    ensures
        r == appid_of(game_dir@, manifests@),
{
    let installdir = match find_steam_place(game_dir) {
        Some(p) => p.installdir,
        None => {
            return None;
        },
    };
    let ghost all = manifests@.map_values(|m: Manifest| facts_of(m));
    let mut read: Vec<ManifestFacts> = Vec::new();
    let mut i: usize = 0;
    assert(facts(read@) =~= all.take(0));
    while i < manifests.len()
        invariant
            i <= manifests@.len(),
            all == manifests@.map_values(|m: Manifest| facts_of(m)),
            facts(read@) == all.take(i as int),
        decreases manifests@.len() - i,
    {
        let ghost before = facts(read@);
        let f = read_facts(&manifests[i]);
        read.push(f);
        assert(facts(read@) =~= before.push(f@));
        assert(all.take(i + 1) =~= all.take(i as int).push(all[i as int]));
        i += 1;
    }
    assert(all.take(i as int) =~= all);
    find_appid(installdir.as_str(), read.as_slice())
}

/// One wiki row.
#[derive(Debug, Clone)]
pub struct WikiRow {
    pub title: String,
    pub url: Option<String>,
    pub status: &'static str,
    pub note: String,
}

/// What a wiki row says.
pub struct Row {
    pub title: Seq<char>,
    pub url: Option<Seq<char>>,
    pub status: Seq<char>,
    pub note: Seq<char>,
}

impl View for WikiRow {
    type V = Row;

    open spec fn view(&self) -> Row {
        Row {
            title: self.title@,
            url: opt_string(self.url),
            status: self.status@,
            note: self.note@,
        }
    }
}

pub open spec fn rows(v: Seq<WikiRow>) -> Seq<Row> {
    v.map_values(|r: WikiRow| r@)
}

pub const ADDON_LINK: &'static str = "\\((https?://[^)\\s]+\\.addon64)\\)";

pub const HOVER_NOTE: &'static str = "\\(# \"([^\"]+)\"\\)";

/// A line that is a row of the table, and not its head.
pub open spec fn is_row(l: Seq<char>) -> bool {
    starts(l, "| "@) && !starts(l, "| Name"@) && !starts(l, "| :"@)
}

pub open spec fn row_status(l: Seq<char>) -> Seq<char> {
    if occurs(l, ":white_check_mark:"@) {
        "stable"@
    } else if occurs(l, ":construction:"@) {
        "wip"@
    } else {
        "unknown"@
    }
}

/// The name in the first cell of a row.
pub open spec fn row_title(l: Seq<char>) -> Seq<char> {
    if pieces(l, '|').len() > 1 {
        trim(pieces(l, '|')[1])
    } else {
        Seq::empty()
    }
}

/// The row of a line: its link and its notes are what the patterns took.
pub open spec fn row_with(l: Seq<char>, links: Seq<Seq<char>>, notes: Seq<Seq<char>>) -> Row {
    Row {
        title: row_title(l),
        url: if links.len() > 0 {
            Some(links[0])
        } else {
            None
        },
        status: row_status(l),
        note: join(notes, " "@),
    }
}

pub open spec fn row_of(l: Seq<char>) -> Row {
    row_with(
        l,
        taken(regex_groups(ADDON_LINK@, l)),
        taken(regex_groups(HOVER_NOTE@, l)),
    )
}

/// The rows of some lines; one without a name is none.
pub open spec fn wiki_rows(ls: Seq<Seq<char>>) -> Seq<Row>
    decreases ls.len(),
{
    if ls.len() == 0 {
        Seq::empty()
    } else if is_row(ls.last()) && row_title(ls.last()).len() > 0 {
        wiki_rows(ls.drop_last()).push(row_of(ls.last()))
    } else {
        wiki_rows(ls.drop_last())
    }
}

/// The row of a line, given what the patterns took in it.
pub fn make_row(line: &str, links: &[String], notes: &[String]) -> (r: WikiRow)
    ensures
        r@ == row_with(line@, texts(links@), texts(notes@)),
{
    let cells = split_char(line, '|');
    assert(cells@.len() == texts(cells@).len());
    let title = if cells.len() > 1 {
        assert(texts(cells@)[1] == cells@[1]@);
        trimmed(cells[1].as_str())
    } else {
        let none = String::new();
        assert(none@ =~= Seq::empty());
        none
    };
    let url = if links.len() > 0 {
        assert(texts(links@)[0] == links@[0]@);
        Some(links[0].clone())
    } else {
        None
    };
    let status = if contains(line, ":white_check_mark:") {
        "stable"
    } else if contains(line, ":construction:") {
        "wip"
    } else {
        "unknown"
    };
    WikiRow { title, url, status, note: join_with(notes, " ") }
}

/// Parse the wiki's mod table (rows are `| Name | Maintainer | Links | Status |`).
pub fn parse_wiki(md: &str) -> (r: Vec<WikiRow>)
    ensures
        rows(r@) == wiki_rows(lines(md@)),
{
    let ls = lines_of(md);
    let ghost all = lines(md@);
    let mut out: Vec<WikiRow> = Vec::new();
    let mut i: usize = 0;
    assert(rows(out@) =~= wiki_rows(all.take(0)));
    while i < ls.len()
        invariant
            texts(ls@) == all,
            i <= ls@.len(),
            rows(out@) == wiki_rows(all.take(i as int)),
        decreases ls@.len() - i,
    {
        assert(all.take(i + 1).drop_last() =~= all.take(i as int));
        assert(all[i as int] == ls@[i as int]@);
        let l = ls[i].as_str();
        if starts_with(l, "| ") && !starts_with(l, "| Name") && !starts_with(l, "| :") {
            let links = matches_of(ADDON_LINK, l);
            let notes = matches_of(HOVER_NOTE, l);
            let row = make_row(l, links.as_slice(), notes.as_slice());
            if !row.title.as_str().is_empty() {
                let ghost before = rows(out@);
                out.push(row);
                assert(rows(out@) =~= before.push(row@));
            }
        }
        i += 1;
    }
    assert(all.take(i as int) =~= all);
    out
}

/// A file that a mod is published as.
#[derive(Debug)]
pub struct Artifact {
    pub arch: Option<String>,
    pub name: Option<String>,
}

/// One build of a mod: the plain one, or a variant ("Alternate", "SDR").
#[derive(Debug)]
pub struct IndexMod {
    pub plain: bool,
    pub artifacts: Vec<Artifact>,
}

/// A game of the index.
#[derive(Debug)]
pub struct IndexGame {
    pub title: String,
    pub steam_appid: Option<u64>,
    pub game_exe: Option<String>,
    pub mods: Vec<IndexMod>,
}

/// RenoDX's list of the games that it has mods for.
#[derive(Debug)]
pub struct Index {
    pub games: Vec<IndexGame>,
}

/// Architecture and name of an artifact.
pub type ArtifactInfo = (Option<Seq<char>>, Option<Seq<char>>);

impl View for Artifact {
    type V = ArtifactInfo;

    open spec fn view(&self) -> ArtifactInfo {
        (opt_string(self.arch), opt_string(self.name))
    }
}

pub struct ModInfo {
    pub plain: bool,
    pub artifacts: Seq<ArtifactInfo>,
}

impl View for IndexMod {
    type V = ModInfo;

    open spec fn view(&self) -> ModInfo {
        ModInfo { plain: self.plain, artifacts: self.artifacts@.map_values(|a: Artifact| a@) }
    }
}

pub struct GameInfo {
    pub title: Seq<char>,
    pub steam_appid: Option<u64>,
    pub game_exe: Option<Seq<char>>,
    pub mods: Seq<ModInfo>,
}

impl View for IndexGame {
    type V = GameInfo;

    open spec fn view(&self) -> GameInfo {
        GameInfo {
            title: self.title@,
            steam_appid: self.steam_appid,
            game_exe: opt_string(self.game_exe),
            mods: self.mods@.map_values(|m: IndexMod| m@),
        }
    }
}

impl View for Index {
    type V = Seq<GameInfo>;

    open spec fn view(&self) -> Seq<GameInfo> {
        self.games@.map_values(|g: IndexGame| g@)
    }
}

/// An artifact in JSON.
pub open spec fn artifact_in(t: Seq<char>) -> ArtifactInfo {
    let l = json_level(t);
    (as_text(level_at(l, "arch"@)), as_text(level_at(l, "name"@)))
}

pub open spec fn mod_in(t: Seq<char>) -> ModInfo {
    let l = json_level(t);
    ModInfo {
        plain: level_at(l, "variant"@) is Null,
        artifacts: as_items(level_at(l, "artifacts"@)).map_values(|a: Seq<char>| artifact_in(a)),
    }
}

pub open spec fn game_in(t: Seq<char>) -> GameInfo {
    let l = json_level(t);
    GameInfo {
        title: match as_text(level_at(l, "title"@)) {
            Some(s) => s,
            None => Seq::empty(),
        },
        steam_appid: as_number(level_at(l, "steam_appid"@)),
        game_exe: as_text(level_at(level_at(l, "deploy"@), "game_exe"@)),
        mods: as_items(level_at(l, "mods"@)).map_values(|m: Seq<char>| mod_in(m)),
    }
}

/// The games that an index in JSON lists; nothing where it is no JSON.
pub open spec fn index_in(t: Seq<char>) -> Option<Seq<GameInfo>> {
    match json_level(t) {
        Level::Invalid => None,
        l => Some(as_items(level_at(l, "games"@)).map_values(|g: Seq<char>| game_in(g))),
    }
}

fn read_artifact(text: &str) -> (r: Artifact)
    ensures
        r@ == artifact_in(text@),
{
    let j = Json::read(text);
    Artifact { arch: j.at("arch").into_text(), name: j.at("name").into_text() }
}

fn read_mod(text: &str) -> (r: IndexMod)
    ensures
        r@ == mod_in(text@),
{
    let j = Json::read(text);
    let plain = matches!(j.at("variant"), Json::Null);
    let items = j.at("artifacts").into_items();
    let ghost all = mod_in(text@).artifacts;
    let mut artifacts: Vec<Artifact> = Vec::new();
    let mut i: usize = 0;
    assert(artifacts@.map_values(|a: Artifact| a@) =~= all.take(0));
    while i < items.len()
        invariant
            i <= items@.len(),
            all == texts(items@).map_values(|a: Seq<char>| artifact_in(a)),
            artifacts@.map_values(|a: Artifact| a@) == all.take(i as int),
        decreases items@.len() - i,
    {
        let ghost before = artifacts@;
        let a = read_artifact(items[i].as_str());
        assert(all[i as int] == artifact_in(items@[i as int]@));
        artifacts.push(a);
        assert(artifacts@.map_values(|a: Artifact| a@) =~= before.map_values(
            |a: Artifact| a@,
        ).push(a@));
        assert(all.take(i + 1) =~= all.take(i as int).push(all[i as int]));
        i += 1;
    }
    assert(all.take(i as int) =~= all);
    IndexMod { plain, artifacts }
}

fn read_game(text: &str) -> (r: IndexGame)
    ensures
        r@ == game_in(text@),
{
    let j = Json::read(text);
    let title = match j.at("title").into_text() {
        Some(s) => s,
        None => {
            let none = String::new();
            assert(none@ =~= Seq::empty());
            none
        },
    };
    let steam_appid = j.at("steam_appid").number();
    let game_exe = j.at("deploy").at("game_exe").into_text();
    let items = j.at("mods").into_items();
    let ghost all = game_in(text@).mods;
    let mut mods: Vec<IndexMod> = Vec::new();
    let mut i: usize = 0;
    assert(mods@.map_values(|m: IndexMod| m@) =~= all.take(0));
    while i < items.len()
        invariant
            i <= items@.len(),
            all == texts(items@).map_values(|m: Seq<char>| mod_in(m)),
            mods@.map_values(|m: IndexMod| m@) == all.take(i as int),
        decreases items@.len() - i,
    {
        let ghost before = mods@;
        let m = read_mod(items[i].as_str());
        assert(all[i as int] == mod_in(items@[i as int]@));
        mods.push(m);
        assert(mods@.map_values(|m: IndexMod| m@) =~= before.map_values(|m: IndexMod| m@).push(m@));
        assert(all.take(i + 1) =~= all.take(i as int).push(all[i as int]));
        i += 1;
    }
    assert(all.take(i as int) =~= all);
    IndexGame { title, steam_appid, game_exe, mods }
}

/// The index that `games-index.json` holds; nothing where it is no JSON.
pub fn parse_index(text: &str) -> (r: Option<Index>)
    ensures
        match r {
            Some(ix) => index_in(text@) == Some(ix@),
            None => index_in(text@) is None,
        },
{
    let j = Json::read(text);
    if matches!(j, Json::Invalid) {
        return None;
    }
    let items = j.at("games").into_items();
    let ghost all = index_in(text@)->0;
    let mut games: Vec<IndexGame> = Vec::new();
    let mut i: usize = 0;
    assert(games@.map_values(|g: IndexGame| g@) =~= all.take(0));
    while i < items.len()
        invariant
            i <= items@.len(),
            all == texts(items@).map_values(|g: Seq<char>| game_in(g)),
            games@.map_values(|g: IndexGame| g@) == all.take(i as int),
        decreases items@.len() - i,
    {
        let ghost before = games@;
        let g = read_game(items[i].as_str());
        assert(all[i as int] == game_in(items@[i as int]@));
        games.push(g);
        assert(games@.map_values(|g: IndexGame| g@) =~= before.map_values(
            |g: IndexGame| g@,
        ).push(g@));
        assert(all.take(i + 1) =~= all.take(i as int).push(all[i as int]));
        i += 1;
    }
    assert(all.take(i as int) =~= all);
    Some(Index { games })
}

/// The name of the first 64-bit artifact from `i` on, if there is one and if it
/// has a name.
pub open spec fn x64_from(v: Seq<ArtifactInfo>, i: int) -> Option<Option<Seq<char>>>
    decreases v.len() - i,
{
    if i < 0 || i >= v.len() {
        None
    } else if v[i].0 == Some("x64"@) {
        Some(v[i].1)
    } else {
        x64_from(v, i + 1)
    }
}

/// The same over the builds that are plain, or over those that are not.
pub open spec fn x64_build_from(v: Seq<ModInfo>, plain: bool, i: int) -> Option<Option<Seq<char>>>
    decreases v.len() - i,
{
    if i < 0 || i >= v.len() {
        None
    } else if v[i].plain == plain && x64_from(v[i].artifacts, 0) is Some {
        x64_from(v[i].artifacts, 0)
    } else {
        x64_build_from(v, plain, i + 1)
    }
}

/// The 64-bit file of a game's mod: of a plain build, or of a variant where
/// there is nothing else.
pub open spec fn x64_file(g: GameInfo) -> Option<Seq<char>> {
    match x64_build_from(g.mods, true, 0) {
        Some(n) => n,
        None => match x64_build_from(g.mods, false, 0) {
            Some(n) => n,
            None => None,
        },
    }
}

fn x64_in(v: &[Artifact]) -> (r: Option<Option<String>>)
    ensures
        match r {
            Some(n) => x64_from(v@.map_values(|a: Artifact| a@), 0) == Some(opt_string(n)),
            None => x64_from(v@.map_values(|a: Artifact| a@), 0) is None,
        },
{
    let ghost a = v@.map_values(|a: Artifact| a@);
    let mut i: usize = 0;
    while i < v.len()
        invariant
            i <= v@.len(),
            a == v@.map_values(|a: Artifact| a@),
            x64_from(a, 0) == x64_from(a, i as int),
        decreases v@.len() - i,
    {
        assert(a[i as int] == v@[i as int]@);
        if let Some(arch) = &v[i].arch {
            if str_eq(arch.as_str(), "x64") {
                return Some(
                    match &v[i].name {
                        Some(n) => Some(n.clone()),
                        None => None,
                    },
                );
            }
        }
        i += 1;
    }
    None
}

fn x64_build(v: &[IndexMod], plain: bool) -> (r: Option<Option<String>>)
    ensures
        match r {
            Some(n) => x64_build_from(v@.map_values(|m: IndexMod| m@), plain, 0) == Some(
                opt_string(n),
            ),
            None => x64_build_from(v@.map_values(|m: IndexMod| m@), plain, 0) is None,
        },
{
    let ghost a = v@.map_values(|m: IndexMod| m@);
    let mut i: usize = 0;
    while i < v.len()
        invariant
            i <= v@.len(),
            a == v@.map_values(|m: IndexMod| m@),
            x64_build_from(a, plain, 0) == x64_build_from(a, plain, i as int),
        decreases v@.len() - i,
    {
        assert(a[i as int] == v@[i as int]@);
        if v[i].plain == plain {
            let hit = x64_in(v[i].artifacts.as_slice());
            if hit.is_some() {
                return hit;
            }
        }
        i += 1;
    }
    None
}

fn x64_artifact(g: &IndexGame) -> (r: Option<String>)
    ensures
        opt_string(r) == x64_file(g@),
{
    match x64_build(g.mods.as_slice(), true) {
        Some(n) => n,
        None => match x64_build(g.mods.as_slice(), false) {
            Some(n) => n,
            None => None,
        },
    }
}

/// Title and 64-bit file of a game, where it has one.
pub open spec fn hit(g: GameInfo) -> Option<(Seq<char>, Seq<char>)> {
    match x64_file(g) {
        Some(f) => Some((g.title, f)),
        None => None,
    }
}

/// The first game from `i` on with that app id.
pub open spec fn by_appid_from(v: Seq<GameInfo>, id: u64, i: int) -> Option<GameInfo>
    decreases v.len() - i,
{
    if i < 0 || i >= v.len() {
        None
    } else if v[i].steam_appid == Some(id) {
        Some(v[i])
    } else {
        by_appid_from(v, id, i + 1)
    }
}

/// The game's title, or the name of its exe, is among the keys; the empty key
/// stands for nothing.
pub open spec fn is_wanted(g: GameInfo, keys: Seq<Seq<char>>) -> bool {
    let key = title_key(g.title);
    ||| key.len() > 0 && keys.contains(key)
    ||| (match g.game_exe {
        Some(e) => {
            let k = title_key(without_ends(e, ".exe"@));
            k.len() > 0 && keys.contains(k)
        },
        None => false,
    })
}

pub open spec fn by_name_from(v: Seq<GameInfo>, keys: Seq<Seq<char>>, i: int) -> Option<GameInfo>
    decreases v.len() - i,
{
    if i < 0 || i >= v.len() {
        None
    } else if is_wanted(v[i], keys) {
        Some(v[i])
    } else {
        by_name_from(v, keys, i + 1)
    }
}

/// The game by its app id, else by the names; then its title and file.
pub open spec fn matched(
    index: Seq<GameInfo>,
    appid: Option<u64>,
    names: Seq<Seq<char>>,
) -> Option<(Seq<char>, Seq<char>)> {
    let by_id = match appid {
        Some(id) => by_appid_from(index, id, 0),
        None => None,
    };
    let game = match by_id {
        Some(g) => Some(g),
        None => by_name_from(index, title_keys(names), 0),
    };
    match game {
        Some(g) => hit(g),
        None => None,
    }
}

fn title_and_file(g: &IndexGame) -> (r: Option<(String, String)>)
    ensures
        match r {
            Some((t, f)) => hit(g@) == Some((t@, f@)),
            None => hit(g@) is None,
        },
{
    match x64_artifact(g) {
        Some(f) => Some((g.title.clone(), f)),
        None => None,
    }
}

fn wanted(g: &IndexGame, keys: &[String]) -> (r: bool)
    ensures
        r == is_wanted(g@, texts(keys@)),
{
    let key = norm_title(g.title.as_str());
    if !key.as_str().is_empty() && list_has(keys, key.as_str()) {
        return true;
    }
    match &g.game_exe {
        Some(e) => {
            let stem = cut_ends(e.as_str(), ".exe");
            let k = norm_title(stem.as_str());
            !k.as_str().is_empty() && list_has(keys, k.as_str())
        },
        None => false,
    }
}

/// Match a game against `games-index.json` by Steam app id, then by title vs
/// the folder name / exe stem. Returns title and 64-bit artifact name.
pub fn match_index(index: &Index, appid: Option<u64>, names: &[String]) -> (r: Option<
    (String, String),
>)
    ensures
        match r {
            Some((t, f)) => matched(index@, appid, texts(names@)) == Some((t@, f@)),
            None => matched(index@, appid, texts(names@)) is None,
        },
{
    let games = &index.games;
    let ghost v = index@;
    if let Some(id) = appid {
        let mut i: usize = 0;
        while i < games.len()
            invariant
                i <= games@.len(),
                v == games@.map_values(|g: IndexGame| g@),
                v == index@,
                appid == Some(id),
                by_appid_from(v, id, 0) == by_appid_from(v, id, i as int),
            ensures
                by_appid_from(v, id, 0) is None,
            decreases games@.len() - i,
        {
            assert(v[i as int] == games@[i as int]@);
            if games[i].steam_appid == Some(id) {
                return title_and_file(&games[i]);
            }
            i += 1;
        }
    }
    let keys = norm_titles(names);
    let ghost k = title_keys(texts(names@));
    let mut i: usize = 0;
    while i < games.len()
        invariant
            i <= games@.len(),
            v == games@.map_values(|g: IndexGame| g@),
            v == index@,
            texts(keys@) == k,
            k == title_keys(texts(names@)),
            appid matches Some(id) ==> by_appid_from(v, id, 0) is None,
            by_name_from(v, k, 0) == by_name_from(v, k, i as int),
        decreases games@.len() - i,
    {
        assert(v[i as int] == games@[i as int]@);
        if wanted(&games[i], keys.as_slice()) {
            return title_and_file(&games[i]);
        }
        i += 1;
    }
    None
}

/// What a game is looked up by: the name of its folder and that of its exe.
pub open spec fn lookup_names(game_dir: Seq<char>, exe: Seq<char>) -> Seq<Seq<char>> {
    (match name_of(game_dir) {
        Some(n) => seq![n],
        None => Seq::empty(),
    }) + (match name_of(exe) {
        Some(n) => seq![stem_of(n)],
        None => Seq::empty(),
    })
}

/// The first row from `i` on with a link whose title is one of the keys.
pub open spec fn linked_row_from(w: Seq<Row>, keys: Seq<Seq<char>>, i: int) -> Option<Row>
    decreases w.len() - i,
{
    if i < 0 || i >= w.len() {
        None
    } else if w[i].url is Some && keys.contains(title_key(w[i].title)) {
        Some(w[i])
    } else {
        linked_row_from(w, keys, i + 1)
    }
}

/// The first row from `i` on of that title.
pub open spec fn row_from(w: Seq<Row>, key: Seq<char>, i: int) -> Option<Row>
    decreases w.len() - i,
{
    if i < 0 || i >= w.len() {
        None
    } else if title_key(w[i].title) == key {
        Some(w[i])
    } else {
        row_from(w, key, i + 1)
    }
}

/// What a mod is known by.
pub struct ModView {
    pub title: Seq<char>,
    pub file: Seq<char>,
    pub url: Option<Seq<char>>,
    pub status: Seq<char>,
    pub note: Seq<char>,
}

impl View for Mod {
    type V = ModView;

    open spec fn view(&self) -> ModView {
        ModView {
            title: self.title@,
            file: self.file@,
            url: opt_string(self.url),
            status: self.status@,
            note: self.note@,
        }
    }
}

/// What is said of a mod that the wiki has no link for.
pub const SNAPSHOT_NOTE: &'static str =
    " Wiki lists this mod on Nexus/Discord; the snapshot build is installed instead.";

/// The mod of a game, with what the wiki says of it: its link (often a
/// maintainer's fork) wins, and a row without one still installs the snapshot
/// build.
pub open spec fn described(title: Seq<char>, file: Seq<char>, w: Seq<Row>) -> ModView {
    match row_from(w, title_key(title), 0) {
        Some(r) => match r.url {
            Some(u) => ModView {
                title,
                file: after_last(u, "/"@),
                url: Some(u),
                status: r.status,
                note: r.note,
            },
            None => ModView {
                title,
                file,
                url: Some(SNAPSHOT_DOWNLOAD@ + file),
                status: r.status,
                note: trim(r.note + SNAPSHOT_NOTE@),
            },
        },
        None => ModView {
            title,
            file,
            url: Some(SNAPSHOT_DOWNLOAD@ + file),
            status: "unknown"@,
            note: Seq::empty(),
        },
    }
}

/// The mod for a game: from the index, or from a row of the wiki alone.
pub open spec fn resolved(
    index: Seq<GameInfo>,
    w: Seq<Row>,
    game_dir: Seq<char>,
    exe: Seq<char>,
    appid: Option<u64>,
) -> Option<ModView> {
    let names = lookup_names(game_dir, exe);
    match matched(index, appid, names) {
        Some((t, f)) => Some(described(t, f, w)),
        None => match linked_row_from(w, title_keys(names), 0) {
            Some(r) => Some(described(r.title, after_last(r.url->0, "/"@), w)),
            None => None,
        },
    }
}

fn describe(title: String, file: String, wiki: &[WikiRow]) -> (r: Mod)
    ensures
        r@ == described(title@, file@, rows(wiki@)),
{
    let key = norm_title(title.as_str());
    let ghost w = rows(wiki@);
    let mut snapshot = SNAPSHOT_DOWNLOAD.to_owned();
    snapshot.append(file.as_str());
    let mut i: usize = 0;
    while i < wiki.len()
        invariant
            i <= wiki@.len(),
            w == rows(wiki@),
            key@ == title_key(title@),
            snapshot@ == SNAPSHOT_DOWNLOAD@ + file@,
            row_from(w, key@, 0) == row_from(w, key@, i as int),
        decreases wiki@.len() - i,
    {
        let row = &wiki[i];
        assert(w[i as int] == row@);
        let k = norm_title(row.title.as_str());
        if str_eq(k.as_str(), key.as_str()) {
            return match &row.url {
                Some(u) => Mod {
                    title,
                    file: file_name(u.as_str()),
                    url: Some(u.clone()),
                    status: row.status,
                    note: row.note.clone(),
                },
                None => {
                    let mut note = row.note.clone();
                    note.append(SNAPSHOT_NOTE);
                    Mod {
                        title,
                        file,
                        url: Some(snapshot),
                        status: row.status,
                        note: trimmed(note.as_str()),
                    }
                },
            };
        }
        i += 1;
    }
    let note = String::new();
    assert(note@ =~= Seq::empty());
    Mod { title, file, url: Some(snapshot), status: "unknown", note }
}

/// Combine the index match with the wiki row of the same title. Not every mod
/// has index metadata: a wiki row of the game's name with a link is enough.
pub fn resolve(
    index: &Index,
    wiki: &[WikiRow],
    game_dir: &str,
    exe: &str,
    appid: Option<u64>,
) -> (r: Option<Mod>)
    ensures
        match r {
            Some(m) => resolved(index@, rows(wiki@), game_dir@, exe@, appid) == Some(m@),
            None => resolved(index@, rows(wiki@), game_dir@, exe@, appid) is None,
        },
{
    broadcast use texts_push;

    let mut names: Vec<String> = Vec::new();
    assert(texts(names@) =~= Seq::empty());
    if let Some(n) = path_name(game_dir) {
        names.push(n);
    }
    if let Some(n) = path_name(exe) {
        names.push(file_stem(n.as_str()));
    }
    assert(texts(names@) =~= lookup_names(game_dir@, exe@));
    if let Some((title, file)) = match_index(index, appid, names.as_slice()) {
        return Some(describe(title, file, wiki));
    }
    let keys = norm_titles(names.as_slice());
    let ghost w = rows(wiki@);
    let ghost k = title_keys(lookup_names(game_dir@, exe@));
    let mut i: usize = 0;
    while i < wiki.len()
        invariant
            i <= wiki@.len(),
            w == rows(wiki@),
            texts(keys@) == k,
            k == title_keys(lookup_names(game_dir@, exe@)),
            matched(index@, appid, lookup_names(game_dir@, exe@)) is None,
            linked_row_from(w, k, 0) == linked_row_from(w, k, i as int),
        decreases wiki@.len() - i,
    {
        let row = &wiki[i];
        assert(w[i as int] == row@);
        if let Some(u) = &row.url {
            let key = norm_title(row.title.as_str());
            if list_has(keys.as_slice(), key.as_str()) {
                return Some(describe(row.title.clone(), file_name(u.as_str()), wiki));
            }
        }
        i += 1;
    }
    None
}

/// A RenoDX game mod that is neither the DLSS 5 add-on nor the DLSS fix.
pub open spec fn is_game_mod(name: Seq<char>) -> bool {
    let l = lower(name);
    &&& starts(l, "renodx-"@)
    &&& ends(l, ".addon64"@) || ends(l, ".addon32"@)
    &&& !starts(l, "renodx-dlssfix"@)
    &&& !starts(l, "renodx-dlss5"@)
    &&& !starts(l, "renodx-dlss."@)
}

/// A game mod, and not the one that this tool placed.
pub open spec fn is_foreign(name: Seq<char>, ours: Option<Seq<char>>) -> bool {
    is_game_mod(name) && match ours {
        Some(o) => !same_fold(o, name),
        None => true,
    }
}

/// The names in a folder.
pub open spec fn node_names(nodes: Seq<Node>) -> Seq<Seq<char>> {
    nodes.map_values(|n: Node| n.name@)
}

/// The game mods in a folder that this tool did not place.
pub open spec fn foreign_in(nodes: Seq<Node>, ours: Option<Seq<char>>) -> Seq<Seq<char>> {
    text_sorted(node_names(nodes).filter(|n: Seq<char>| is_foreign(n, ours)))
}

fn foreign(name: &str, ours: Option<&str>) -> (r: bool)
    ensures
        r == is_foreign(name@, opt_text(ours)),
{
    let low = lower_string(name);
    let l = low.as_str();
    let game_mod = starts_with(l, "renodx-") && (ends_with(l, ".addon64") || ends_with(
        l,
        ".addon32",
    )) && !starts_with(l, "renodx-dlssfix") && !starts_with(l, "renodx-dlss5") && !starts_with(
        l,
        "renodx-dlss.",
    );
    game_mod && match ours {
        Some(o) => !eq_fold(o, name),
        None => true,
    }
}

/// Other RenoDX *game* mods already in the folder (not the DLSS 5 add-on, not
/// the DLSS fix, not the one this tool recorded). ReShade would refuse a second
/// "RenoDX" add-on and both would write the same ReShade.ini keys.
pub fn foreign_mods(dir: &[Node], ours: Option<&str>) -> (r: Vec<String>)
    ensures
        texts(r@) == foreign_in(dir@, opt_text(ours)),
{
    broadcast use texts_push;

    let ghost all = node_names(dir@);
    let mut names: Vec<String> = Vec::new();
    let mut i: usize = 0;
    assert(texts(names@) =~= all.take(0));
    while i < dir.len()
        invariant
            i <= dir@.len(),
            all == node_names(dir@),
            texts(names@) == all.take(i as int),
        decreases dir@.len() - i,
    {
        broadcast use texts_push;

        assert(all.take(i + 1) =~= all.take(i as int).push(all[i as int]));
        names.push(dir[i].name.clone());
        i += 1;
    }
    assert(all.take(i as int) =~= all);
    let ghost keep = |n: Seq<char>| is_foreign(n, opt_text(ours));
    let fits = |n: &String| -> (b: bool)
        ensures
            b == is_foreign(n@, opt_text(ours)),
        {
            foreign(n.as_str(), ours)
        };
    let v = keep_strings(names.as_slice(), fits, Ghost(keep));
    sort_texts(v.as_slice())
}

/// What keeps a mod from being installed.
pub open spec fn refusal(m: ModView, dir: Seq<Node>) -> Option<Seq<char>> {
    let others = foreign_in(dir, Some(m.file));
    if m.url is None {
        Some(
            "the RenoDX mod for "@ + m.title
                + " is only published on Nexus Mods / Discord; download it by hand and drop the .addon64 next to the game exe"@,
        )
    } else if others.len() > 0 {
        Some(
            "this game already has a RenoDX mod ("@ + join(others, ", "@)
                + "); ReShade loads only one \"RenoDX\" add-on and two would fight over the same settings. Remove it first."@,
        )
    } else {
        None
    }
}

/// How to install a mod that may be installed.
#[derive(Debug)]
pub struct InstallPlan {
    /// The file is not there yet.
    pub download: bool,
    /// What is shown while it is fetched.
    pub label: String,
    /// What is reported when it is there.
    pub report: String,
}

pub open spec fn install_label(m: ModView) -> Seq<char> {
    "RenoDX: "@ + m.title
}

pub open spec fn install_report(m: ModView) -> Seq<char> {
    m.file + " ("@ + m.title + ", "@ + status_says(m.status) + ")"@
}

/// How to install the matched mod beside the exe, or why not.
pub fn plan_install(m: &Mod, dir: &[Node]) -> (r: Result<InstallPlan, String>)
    ensures
        match r {
            Ok(p) => refusal(m@, dir@) is None && p.download == !has_file(dir@, m.file@)
                && p.label@ == install_label(m@) && p.report@ == install_report(m@),
            Err(e) => refusal(m@, dir@) == Some(e@),
        },
{
    if m.url.is_none() {
        let mut e = "the RenoDX mod for ".to_owned();
        e.append(m.title.as_str());
        e.append(
            " is only published on Nexus Mods / Discord; download it by hand and drop the .addon64 next to the game exe",
        );
        return Err(e);
    }
    let others = foreign_mods(dir, Some(m.file.as_str()));
    assert(others@.len() == texts(others@).len());
    if others.len() > 0 {
        let mut e = "this game already has a RenoDX mod (".to_owned();
        e.append(join_with(others.as_slice(), ", ").as_str());
        e.append(
            "); ReShade loads only one \"RenoDX\" add-on and two would fight over the same settings. Remove it first.",
        );
        return Err(e);
    }
    let mut label = "RenoDX: ".to_owned();
    label.append(m.title.as_str());
    let mut report = m.file.clone();
    report.append(" (");
    report.append(m.title.as_str());
    report.append(", ");
    report.append(m.status_label());
    report.append(")");
    Ok(InstallPlan { download: !holds_file(dir, m.file.as_str()), label, report })
}

} // verus!
