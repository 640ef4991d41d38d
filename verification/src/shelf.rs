//! The page of installed games: what is listed where, and what a card says.
use vstd::prelude::*;

use crate::api::Api;
use crate::chars::{lower, lower_string};
use crate::game::{has_marker, installed_by_tool, GameStatus, Mode};
use crate::library::{games, sort_and_dedupe, Game, GameView, Store};
use crate::library::{newest_first, once_each};
use crate::numbers::{dec, dec_text};
use crate::paths::{path_eq, same_path};
use crate::pe::{bitness, exe_bitness};
use crate::strs::{
    cat, contains, join, join_with, occurs, starts, starts_with, texts, trim, trimmed,
};
use crate::tree::Node;

verus! {

/// What is known of an installed game without touching it.
#[derive(Debug, Clone)]
pub struct GameMeta {
    pub api: &'static str,
    pub has_dlss: bool,
    pub addon: bool,
    pub ready: bool,
    /// This tool installed into that folder: the game is listed in its own
    /// section at the top rather than under its store.
    pub installed: bool,
    /// Components this tool placed that upstream has since moved past.
    pub stale: Vec<String>,
}

pub open spec fn api_says(a: Api) -> Seq<char> {
    match a {
        Api::Vulkan => "Vulkan"@,
        Api::Dx10 => "DirectX 10"@,
        Api::Dx11 => "DirectX 11"@,
        Api::Dx12 => "DirectX 12"@,
        Api::Dx9 => "DirectX 9"@,
        Api::Unknown => "Unknown"@,
    }
}

/// The name of an API on a card.
pub fn api_name(a: Api) -> (r: &'static str)
    ensures
        r@ == api_says(a),
{
    match a {
        Api::Vulkan => "Vulkan",
        Api::Dx10 => "DirectX 10",
        Api::Dx11 => "DirectX 11",
        Api::Dx12 => "DirectX 12",
        Api::Dx9 => "DirectX 9",
        Api::Unknown => "Unknown",
    }
}

/// The card shows the status of a game whose folder holds those entries.
pub open spec fn is_meta(m: GameMeta, st: &GameStatus, folder: Seq<Node>, stale: Vec<String>) -> bool {
    &&& m.api@ == api_says(st.api)
    &&& m.has_dlss == (st.mode == Mode::Native)
    &&& m.addon == (st.dlss5_addon || st.opti)
    &&& m.ready == st.is_complete()
    &&& m.installed == has_marker(folder)
    &&& m.stale == stale
}

/// What the card of a game shows, from its status and what its folder holds.
pub fn meta_of(st: &GameStatus, folder: &[Node], stale: Vec<String>) -> (r: GameMeta)
    ensures
        is_meta(r, st, folder@, stale),
{
    GameMeta {
        api: api_name(st.api),
        has_dlss: st.mode == Mode::Native,
        addon: st.dlss5_addon || st.opti,
        ready: st.complete(),
        installed: installed_by_tool(folder),
        stale,
    }
}

/// A part of the page: what this tool installed, or what a store has.
#[derive(Debug, Clone, Copy, PartialEq, Eq, Structural)]
pub enum Section {
    Ours,
    Of(Store),
}

impl Section {
    pub open spec fn says(self) -> Seq<char> {
        match self {
            Section::Ours => "Installed by this tool"@,
            Section::Of(s) => s.says(),
        }
    }

    pub fn label(self) -> (r: &'static str)
        ensures
            r@ == self.says(),
    {
        match self {
            Section::Ours => "Installed by this tool",
            Section::Of(s) => s.label(),
        }
    }
}

/// The sections from top to bottom. What has been modified is seen first.
pub open spec fn section_order() -> Seq<Section> {
    seq![
        Section::Ours,
        Section::Of(Store::Manual),
        Section::Of(Store::Steam),
        Section::Of(Store::Epic),
        Section::Of(Store::Gog),
        Section::Of(Store::Xbox),
    ]
}

/// What is known of the game at `i`.
pub open spec fn meta_at(metas: Seq<Option<GameMeta>>, i: int) -> Option<GameMeta> {
    if 0 <= i < metas.len() {
        metas[i]
    } else {
        None
    }
}

/// The section of the game at `i`.
pub open spec fn section_of(all: Seq<GameView>, metas: Seq<Option<GameMeta>>, i: int) -> Section {
    match meta_at(metas, i) {
        Some(m) => if m.installed {
            Section::Ours
        } else {
            Section::Of(all[i].store)
        },
        None => Section::Of(all[i].store),
    }
}

/// The game's title holds what is searched for, case and outer spaces aside.
pub open spec fn is_sought(g: GameView, search: Seq<char>) -> bool {
    occurs(lower(g.title), lower(trim(search)))
}

/// The places of the games of a section, in the order of the list.
pub open spec fn section_places(
    all: Seq<GameView>,
    metas: Seq<Option<GameMeta>>,
    search: Seq<char>,
    section: Section,
    n: int,
) -> Seq<int>
    decreases n,
{
    if n <= 0 {
        Seq::empty()
    } else {
        let before = section_places(all, metas, search, section, n - 1);
        if section_of(all, metas, n - 1) == section && is_sought(all[n - 1], search) {
            before.push(n - 1)
        } else {
            before
        }
    }
}

/// How many of the places have a game that is ready.
pub open spec fn ready_count(metas: Seq<Option<GameMeta>>, places: Seq<int>) -> int
    decreases places.len(),
{
    if places.len() == 0 {
        0
    } else {
        ready_count(metas, places.drop_last()) + (if is_ready(metas, places.last()) {
            1int
        } else {
            0int
        })
    }
}

/// How many of the places have a game that is out of date.
pub open spec fn stale_count(metas: Seq<Option<GameMeta>>, places: Seq<int>) -> int
    decreases places.len(),
{
    if places.len() == 0 {
        0
    } else {
        stale_count(metas, places.drop_last()) + (if is_stale(metas, places.last()) {
            1int
        } else {
            0int
        })
    }
}

pub open spec fn is_ready(metas: Seq<Option<GameMeta>>, i: int) -> bool {
    meta_at(metas, i) is Some && meta_at(metas, i)->0.ready
}

pub open spec fn is_stale(metas: Seq<Option<GameMeta>>, i: int) -> bool {
    meta_at(metas, i) is Some && meta_at(metas, i)->0.stale@.len() > 0
}

pub open spec fn is_ours(metas: Seq<Option<GameMeta>>, i: int) -> bool {
    meta_at(metas, i) is Some && meta_at(metas, i)->0.installed
}

pub open spec fn as_ints(v: Seq<usize>) -> Seq<int> {
    v.map_values(|i: usize| i as int)
}

/// A section with its games.
#[derive(Debug)]
pub struct Group {
    pub section: Section,
    /// The places of its games in the list.
    pub places: Vec<usize>,
    pub ready: usize,
    pub stale: usize,
}

pub struct GroupView {
    pub section: Section,
    pub places: Seq<int>,
    pub ready: int,
    pub stale: int,
}

impl View for Group {
    type V = GroupView;

    open spec fn view(&self) -> GroupView {
        GroupView {
            section: self.section,
            places: as_ints(self.places@),
            ready: self.ready as int,
            stale: self.stale as int,
        }
    }
}

pub open spec fn group_of(
    all: Seq<GameView>,
    metas: Seq<Option<GameMeta>>,
    search: Seq<char>,
    section: Section,
) -> GroupView {
    let places = section_places(all, metas, search, section, all.len() as int);
    GroupView {
        section,
        places,
        ready: ready_count(metas, places),
        stale: stale_count(metas, places),
    }
}

/// The first `n` sections, without those that have no game.
pub open spec fn groups_upto(
    all: Seq<GameView>,
    metas: Seq<Option<GameMeta>>,
    search: Seq<char>,
    n: int,
) -> Seq<GroupView>
    decreases n,
{
    if n <= 0 {
        Seq::empty()
    } else {
        let before = groups_upto(all, metas, search, n - 1);
        let g = group_of(all, metas, search, section_order()[n - 1]);
        if g.places.len() > 0 {
            before.push(g)
        } else {
            before
        }
    }
}

fn meta_ref(metas: &[Option<GameMeta>], i: usize) -> (r: Option<&GameMeta>)
    ensures
        match r {
            Some(m) => meta_at(metas@, i as int) == Some(*m),
            None => meta_at(metas@, i as int) is None,
        },
{
    if i < metas.len() {
        match &metas[i] {
            Some(m) => Some(m),
            None => None,
        }
    } else {
        None
    }
}

fn find_section(all: &[Game], metas: &[Option<GameMeta>], i: usize) -> (r: Section)
    requires
        i < all@.len(),
    ensures
        r == section_of(games(all@), metas@, i as int),
{
    assert(games(all@)[i as int] == all@[i as int]@);
    match meta_ref(metas, i) {
        Some(m) if m.installed => Section::Ours,
        _ => Section::Of(all[i].store),
    }
}

fn find_group(
    all: &[Game],
    metas: &[Option<GameMeta>],
    search: &str,
    needle: &str,
    section: Section,
) -> (r: Group)
    requires
        needle@ == lower(trim(search@)),
    ensures
        r@ == group_of(games(all@), metas@, search@, section),
{
    let ghost v = games(all@);
    let mut places: Vec<usize> = Vec::new();
    let mut ready: usize = 0;
    let mut stale: usize = 0;
    let mut i: usize = 0;
    assert(as_ints(places@) =~= Seq::<int>::empty());
    while i < all.len()
        invariant
            i <= all@.len(),
            needle@ == lower(trim(search@)),
            v == games(all@),
            as_ints(places@) == section_places(v, metas@, search@, section, i as int),
            ready == ready_count(metas@, as_ints(places@)),
            stale == stale_count(metas@, as_ints(places@)),
            ready <= i,
            stale <= i,
        decreases all@.len() - i,
    {
        assert(v[i as int] == all@[i as int]@);
        let here = find_section(all, metas, i) == section;
        if here && contains(lower_string(all[i].title.as_str()).as_str(), needle) {
            let ghost before = as_ints(places@);
            places.push(i);
            assert(as_ints(places@) =~= before.push(i as int));
            assert(before.push(i as int).drop_last() =~= before);
            if let Some(m) = meta_ref(metas, i) {
                if m.ready {
                    ready += 1;
                }
                if m.stale.len() > 0 {
                    stale += 1;
                }
            }
        }
        i += 1;
    }
    Group { section, places, ready, stale }
}

pub open spec fn group_views(v: Seq<Group>) -> Seq<GroupView> {
    v.map_values(|g: Group| g@)
}

/// The page: each section that has games which are sought, with their places.
pub fn groups(all: &[Game], metas: &[Option<GameMeta>], search: &str) -> (r: Vec<Group>)
    ensures
        group_views(r@) == groups_upto(games(all@), metas@, search@, 6),
{
    let order = [
        Section::Ours,
        Section::Of(Store::Manual),
        Section::Of(Store::Steam),
        Section::Of(Store::Epic),
        Section::Of(Store::Gog),
        Section::Of(Store::Xbox),
    ];
    assert(order@ =~= section_order());
    let needle = lower_string(trimmed(search).as_str());
    let mut out: Vec<Group> = Vec::new();
    let mut i: usize = 0;
    assert(group_views(out@) =~= Seq::empty());
    while i < 6
        invariant
            i <= 6,
            order@ == section_order(),
            order@.len() == 6,
            needle@ == lower(trim(search@)),
            group_views(out@) == groups_upto(games(all@), metas@, search@, i as int),
        decreases 6 - i,
    {
        let g = find_group(all, metas, search, needle.as_str(), order[i]);
        assert(g@.places.len() == g.places@.len());
        if g.places.len() > 0 {
            let ghost before = group_views(out@);
            out.push(g);
            assert(group_views(out@) =~= before.push(g@));
        }
        i += 1;
    }
    out
}

/// What stands at the right of a section's title.
#[derive(Debug)]
pub enum GroupNote {
    Nothing,
    Behind(String),
    Ready(String),
}

/// The note on a section of which so many games are out of date, and so many
/// ready.
pub open spec fn is_note(n: GroupNote, stale: nat, ready: nat) -> bool {
    match n {
        GroupNote::Behind(t) => stale > 0 && t@ == dec(stale) + " need updating"@,
        GroupNote::Ready(t) => stale == 0 && ready > 0 && t@ == dec(ready) + " ready for DLSS 5"@,
        GroupNote::Nothing => stale == 0 && ready == 0,
    }
}

impl Group {
    pub fn note(&self) -> (r: GroupNote)
        ensures
            is_note(r, self.stale as nat, self.ready as nat),
    {
        if self.stale > 0 {
            GroupNote::Behind(cat(dec_text(self.stale as u64).as_str(), " need updating"))
        } else if self.ready > 0 {
            GroupNote::Ready(cat(dec_text(self.ready as u64).as_str(), " ready for DLSS 5"))
        } else {
            GroupNote::Nothing
        }
    }
}

/// Each game stands in one section of the page.
pub proof fn law_one_section(
    all: Seq<GameView>,
    metas: Seq<Option<GameMeta>>,
    search: Seq<char>,
    i: int,
)
    requires
        0 <= i < all.len(),
    ensures
        section_order().no_duplicates(),
        section_order().contains(section_of(all, metas, i)),
        forall|s: Section|
            #[trigger] section_places(all, metas, search, s, all.len() as int).contains(i) <==> (s
                == section_of(all, metas, i) && is_sought(all[i], search)),
{
    let o = section_order();
    let s = section_of(all, metas, i);
    assert(o[0] == Section::Ours && o[1] == Section::Of(Store::Manual));
    assert(o[2] == Section::Of(Store::Steam) && o[3] == Section::Of(Store::Epic));
    assert(o[4] == Section::Of(Store::Gog) && o[5] == Section::Of(Store::Xbox));
    match s {
        Section::Ours => {},
        Section::Of(Store::Manual) => {},
        Section::Of(Store::Steam) => {},
        Section::Of(Store::Epic) => {},
        Section::Of(Store::Gog) => {},
        Section::Of(Store::Xbox) => {},
    }
    assert forall|s: Section|
        #[trigger] section_places(all, metas, search, s, all.len() as int).contains(i) <==> (s
            == section_of(all, metas, i) && is_sought(all[i], search)) by {
        places_hold(all, metas, search, s, all.len() as int, i);
    }
}

proof fn places_hold(
    all: Seq<GameView>,
    metas: Seq<Option<GameMeta>>,
    search: Seq<char>,
    s: Section,
    n: int,
    i: int,
)
    requires
        0 <= n <= all.len(),
    ensures
        section_places(all, metas, search, s, n).contains(i) <==> (0 <= i < n && section_of(
            all,
            metas,
            i,
        ) == s && is_sought(all[i], search)),
    decreases n,
{
    if n > 0 {
        places_hold(all, metas, search, s, n - 1, i);
        let before = section_places(all, metas, search, s, n - 1);
        let now = section_places(all, metas, search, s, n);
        if section_of(all, metas, n - 1) == s && is_sought(all[n - 1], search) {
            assert(now[before.len() as int] == n - 1);
            if before.contains(i) {
                let k = choose|k: int| 0 <= k < before.len() && before[k] == i;
                assert(now[k] == i);
            }
            if now.contains(i) && i != n - 1 {
                let k = choose|k: int| 0 <= k < now.len() && now[k] == i;
                assert(before[k] == i);
            }
        }
    }
}

/// How many of the games are known to run on DirectX 12.
pub open spec fn dx12_count(metas: Seq<Option<GameMeta>>) -> int
    decreases metas.len(),
{
    if metas.len() == 0 {
        0
    } else {
        dx12_count(metas.drop_last()) + (match metas.last() {
            Some(m) => if starts(m.api@, "DirectX 12"@) {
                1int
            } else {
                0int
            },
            None => 0int,
        })
    }
}

/// What stands beside the title of the page.
pub fn summary(scanning: bool, count: usize, metas: &[Option<GameMeta>]) -> (r: String)
    ensures
        r@ == (if scanning {
            "scanning Steam, Epic, GOG and Xbox…"@
        } else {
            dec(count as nat) + " found · "@ + dec(dx12_count(metas@) as nat) + " on DirectX 12"@
        }),
{
    let mut n: usize = 0;
    let mut i: usize = 0;
    assert(metas@.take(0) =~= Seq::empty());
    while i < metas.len()
        invariant
            i <= metas@.len(),
            n <= i,
            n == dx12_count(metas@.take(i as int)),
        decreases metas@.len() - i,
    {
        assert(metas@.take(i + 1).drop_last() =~= metas@.take(i as int));
        if let Some(m) = &metas[i] {
            if starts_with(m.api, "DirectX 12") {
                n += 1;
            }
        }
        i += 1;
    }
    assert(metas@.take(i as int) =~= metas@);
    if scanning {
        "scanning Steam, Epic, GOG and Xbox…".to_owned()
    } else {
        let mut s = dec_text(count as u64);
        s.append(" found · ");
        s.append(dec_text(n as u64).as_str());
        s.append(" on DirectX 12");
        s
    }
}

/// What a card asked for.
#[derive(Debug, Clone, Copy, PartialEq, Eq, Structural, Default)]
pub enum CardAction {
    #[default]
    Nothing,
    /// Left click: open the game on the Setup page.
    Open,
    /// Right click ▸ Update: install straight away, with the engine the game
    /// already has.
    Update,
    /// Right click ▸ Forget: drop a hand-added game from the list.
    Forget,
}

/// What a card was asked for, by what was clicked.
pub open spec fn asked_of(clicked: bool, busy: bool, update: bool, forget: bool) -> CardAction {
    if forget {
        CardAction::Forget
    } else if update {
        CardAction::Update
    } else if clicked && !busy {
        CardAction::Open
    } else {
        CardAction::Nothing
    }
}

/// What was asked of a card. A card that is being installed does not open; an
/// entry of the menu counts for more than a click, and the last one most.
pub fn card_action(clicked: bool, busy: bool, update: bool, forget: bool) -> (r: CardAction)
    ensures
        r == asked_of(clicked, busy, update, forget),
{
    if forget {
        CardAction::Forget
    } else if update {
        CardAction::Update
    } else if clicked && !busy {
        CardAction::Open
    } else {
        CardAction::Nothing
    }
}

/// The menu of a card.
#[derive(Debug, Clone, Copy)]
pub struct CardMenu {
    /// What the entry that installs again is called, where there is one.
    pub update: Option<&'static str>,
    pub forget: bool,
}

/// The menu of the card at `i`, of a game of that store.
pub open spec fn is_menu(m: CardMenu, store: Store, metas: Seq<Option<GameMeta>>, i: int) -> bool {
    &&& match m.update {
        Some(t) => is_ours(metas, i) && t@ == (if is_stale(metas, i) {
            "Update"@
        } else {
            "Re-install"@
        }),
        None => !is_ours(metas, i),
    }
    &&& m.forget == (store == Store::Manual)
}

/// Only an install of this tool can be done again, and only a game that was
/// added by hand can be forgotten.
pub fn card_menu(store: Store, metas: &[Option<GameMeta>], i: usize) -> (r: CardMenu)
    ensures
        is_menu(r, store, metas@, i as int),
{
    let update = match meta_ref(metas, i) {
        Some(m) if m.installed => Some(
            if m.stale.len() > 0 {
                "Update"
            } else {
                "Re-install"
            },
        ),
        _ => None,
    };
    CardMenu { update, forget: store == Store::Manual }
}

impl GameMeta {
    /// Upstream has moved past the game's files, and they are not being
    /// replaced right now.
    pub fn update_badge(&self, busy: bool) -> (r: bool)
        ensures
            r == (self.stale@.len() > 0 && !busy),
    {
        self.stale.len() > 0 && !busy
    }

    pub fn dlss_mark(&self) -> (r: &'static str)
        ensures
            r@ == (if self.has_dlss {
                "DLSS"@
            } else {
                "no DLSS"@
            }),
    {
        if self.has_dlss {
            "DLSS"
        } else {
            "no DLSS"
        }
    }

    pub fn addon_mark(&self) -> (r: &'static str)
        ensures
            r@ == (if self.addon {
                "add-on"@
            } else {
                "no add-on"@
            }),
    {
        if self.addon {
            "add-on"
        } else {
            "no add-on"
        }
    }
}

/// What is shown over a card: the game, its folder and what is out of date.
pub open spec fn card_says(g: GameView, meta: Option<GameMeta>) -> Seq<char> {
    g.title + "\n"@ + g.dir + (if meta is Some && meta->0.stale@.len() > 0 {
        "\n\nOut of date:\n  "@ + join(texts(meta->0.stale@), "\n  "@)
    } else {
        Seq::empty()
    })
}

pub fn card_text(g: &Game, metas: &[Option<GameMeta>], i: usize) -> (r: String)
    ensures
        r@ == card_says(g@, meta_at(metas@, i as int)),
{
    let mut s = cat(g.title.as_str(), "\n");
    s.append(g.dir.as_str());
    let ghost head = s@;
    if let Some(m) = meta_ref(metas, i) {
        if m.stale.len() > 0 {
            let more = cat("\n\nOut of date:\n  ", join_with(m.stale.as_slice(), "\n  ").as_str());
            s.append(more.as_str());
            return s;
        }
    }
    assert(head + Seq::<char>::empty() =~= head);
    s
}

/// What stands on a card that is being installed.
pub fn busy_text(running: bool, progress: u8) -> (r: String)
    ensures
        r@ == (if running {
            "Updating… "@ + dec(
                (if progress > 100 {
                    100
                } else {
                    progress as nat
                }),
            ) + "%"@
        } else {
            "Finishing…"@
        }),
{
    if running {
        let pct: u8 = if progress > 100 {
            100
        } else {
            progress
        };
        let mut s = cat("Updating… ", dec_text(pct as u64).as_str());
        s.append("%");
        s
    } else {
        "Finishing…".to_owned()
    }
}

/// The path that a card opens; `found` says whether its folder holds a game, and
/// `hint` is what the executable holds that the store names.
pub open spec fn opened(g: GameView, found: bool, hint: Option<Seq<u8>>) -> Seq<char> {
    if !found && g.exe_hint is Some && hint is Some && bitness(hint->0) is Ok {
        g.exe_hint->0
    } else {
        g.dir
    }
}

/// The path to set up for a card: the folder, so that every executable in it is
/// ranked, since the one that a store names can be a bootstrapper. The store's is
/// the fallback where nothing is found; `hint` is what it holds.
pub fn path_to_open(g: &Game, found: bool, hint: Option<&[u8]>) -> (r: String)
    ensures
        r@ == opened(
            g@,
            found,
            match hint {
                Some(b) => Some(b@),
                None => None,
            },
        ),
{
    if !found {
        if let Some(e) = &g.exe_hint {
            if let Some(image) = hint {
                if exe_bitness(image).is_ok() {
                    return e.clone();
                }
            }
        }
    }
    g.dir.clone()
}

/// The games but the hand-added ones of that folder.
pub open spec fn without_added(v: Seq<GameView>, dir: Seq<char>) -> Seq<GameView> {
    v.filter(|g: GameView| !(g.store == Store::Manual && same_path(g.dir, dir)))
}

/// Takes a game that was added by hand off the list.
pub fn forget_game(list: &[Game], dir: &str) -> (r: Vec<Game>)
    ensures
        games(r@) == without_added(games(list@), dir@),
{
    let ghost keep = |g: GameView| !(g.store == Store::Manual && same_path(g.dir, dir@));
    let mut out: Vec<Game> = Vec::new();
    let mut i: usize = 0;
    proof {
        reveal(Seq::filter);
    }
    assert(games(out@) =~= games(list@).take(0).filter(keep));
    while i < list.len()
        invariant
            i <= list@.len(),
            keep == (|g: GameView| !(g.store == Store::Manual && same_path(g.dir, dir@))),
            games(out@) == games(list@).take(i as int).filter(keep),
        decreases list@.len() - i,
    {
        proof {
            reveal(Seq::filter);
        }
        assert(games(list@).take(i + 1).drop_last() =~= games(list@).take(i as int));
        assert(games(list@)[i as int] == list@[i as int]@);
        if !(list[i].store == Store::Manual && path_eq(list[i].dir.as_str(), dir)) {
            let ghost before = games(out@);
            let g = list[i].copy();
            out.push(g);
            assert(games(out@) =~= before.push(g@));
        }
        i += 1;
    }
    assert(games(list@).take(i as int) =~= games(list@));
    out
}

/// Puts a game that was added by hand on the list.
pub fn add_game(list: &mut Vec<Game>, g: Game)
    ensures
        games(final(list)@) == once_each(newest_first(seq![g@] + games(old(list)@))),
{
    let ghost before = games(list@);
    list.insert(0, g);
    assert(games(list@) =~= seq![g@] + before);
    sort_and_dedupe(list);
}

} // verus!
