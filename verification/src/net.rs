//! Downloads: names and places of files, release pages, retries, the cache.
use vstd::prelude::*;
use vstd::utf8::encode_utf8;

use crate::chars::{alnum, chars_of, is_alnum};
use crate::numbers::{dec, dec_text, hex, hex_text};
use crate::order::{
    as_places, in_order, order, order_shape, places, same_taken, weak_order,
};
use crate::outside::{escape_pattern, find_groups, group_texts, literal, regex_groups};
use crate::paths::{joined, path_join};
use crate::strs::{
    after_last, contains, cut_after_last, ends, ends_with, list_has, occurs, opt_string, starts,
    starts_with, texts, texts_push,
};

verus! {

/// The last part of an archive member's name, or of a URL.
pub fn file_name(member: &str) -> (r: String)
    ensures
        r@ == after_last(member@, "/"@),
{
    cut_after_last(member, "/")
}

/// The folder under which downloads are kept: that of the user's local data, or
/// of temporary files where there is none.
pub open spec fn cache_folder(local: Option<Seq<char>>, temp: Seq<char>) -> Seq<char> {
    let base = match local {
        Some(l) => l,
        None => temp,
    };
    joined(joined(base, "revengine-dlss5"@), "downloads"@)
}

/// Where a downloaded file is kept for next time.
pub fn cache_dir(local: Option<&str>, temp: &str) -> (r: String)
    ensures
        r@ == cache_folder(crate::strs::opt_text(local), temp@),
{
    let base = match local {
        Some(l) => path_join(l, "revengine-dlss5"),
        None => path_join(temp, "revengine-dlss5"),
    };
    path_join(base.as_str(), "downloads")
}

/// FNV-1a, the 64-bit hash: each byte is mixed in, then multiplied in.
pub open spec fn fnv(b: Seq<u8>) -> u64
    decreases b.len(),
{
    if b.len() == 0 {
        0xcbf2_9ce4_8422_2325
    } else {
        ((((fnv(b.drop_last()) ^ (b.last() as u64)) as int) * 0x0000_0100_0000_01b3)
            % 0x1_0000_0000_0000_0000) as u64
    }
}

fn fnv_of(b: &[u8]) -> (r: u64)
    ensures
        r == fnv(b@),
{
    let mut h: u64 = 0xcbf2_9ce4_8422_2325;
    let mut i: usize = 0;
    assert(b@.take(0) =~= Seq::empty());
    while i < b.len()
        invariant
            i <= b@.len(),
            h == fnv(b@.take(i as int)),
        decreases b@.len() - i,
    {
        assert(b@.take(i + 1).drop_last() =~= b@.take(i as int));
        let x: u64 = h ^ (b[i] as u64);
        h = x.wrapping_mul(0x0000_0100_0000_01b3);
        i += 1;
    }
    assert(b@.take(i as int) =~= b@);
    h
}

/// A printing ASCII character other than the space.
pub open spec fn is_graphic(c: char) -> bool {
    '!' <= c <= '~'
}

/// A character that can stand in the name of a cached file; others become '_'.
pub open spec fn safe_char(c: char) -> char {
    if is_alnum(c) || c == '.' || c == '-' || c == '_' {
        c
    } else {
        '_'
    }
}

/// The cached file of a URL: none for one whose contents can change under the
/// same address, and none where its last part is no plain name.
pub open spec fn cache_name(url: Seq<char>) -> Option<Seq<char>> {
    let name = after_last(url, "/"@);
    if !starts(url, "https://"@) || occurs(url, "/latest/download/"@) {
        None
    } else if name.len() == 0 || name.len() > 80 || exists|i: int|
        0 <= i < name.len() && !is_graphic(#[trigger] name[i]) {
        None
    } else {
        Some(
            hex(fnv(encode_utf8(url)) as nat, 16).push('-') + name.map_values(
                |c: char| safe_char(c),
            ),
        )
    }
}

/// The cache file for a URL, or `None` for a URL whose contents can change
/// under the same address: `/releases/latest/download/...` is a moving target,
/// and caching it would pin everybody to whatever shipped first.
pub fn cache_path(dir: &str, url: &str) -> (r: Option<String>)
    ensures
        match r {
            Some(p) => cache_name(url@) matches Some(n) && p@ == joined(dir@, n),
            None => cache_name(url@) is None,
        },
{
    if !starts_with(url, "https://") || contains(url, "/latest/download/") {
        return None;
    }
    let name = file_name(url);
    let x = chars_of(name.as_str());
    if x.len() == 0 || x.len() > 80 {
        return None;
    }
    let ghost prefix = hex(fnv(encode_utf8(url@)) as nat, 16).push('-');
    let mut file = hex_text(fnv_of(url.as_bytes()), 16);
    file.push('-');
    let mut i: usize = 0;
    assert(name@.take(0).map_values(|c: char| safe_char(c)) =~= Seq::empty());
    assert(file@ =~= prefix + name@.take(0).map_values(|c: char| safe_char(c)));
    while i < x.len()
        invariant
            x@ == name@,
            i <= x@.len(),
            name@ == after_last(url@, "/"@),
            forall|j: int| 0 <= j < i ==> is_graphic(#[trigger] name@[j]),
            file@ == prefix + name@.take(i as int).map_values(|c: char| safe_char(c)),
        decreases x@.len() - i,
    {
        let c = x[i];
        if !('!' <= c && c <= '~') {
            assert(!is_graphic(name@[i as int]));
            return None;
        }
        let ghost before = file@;
        let safe = if alnum(c) || c == '.' || c == '-' || c == '_' {
            c
        } else {
            '_'
        };
        file.push(safe);
        i += 1;
        assert(name@.take(i as int).map_values(|c: char| safe_char(c)) =~= name@.take(
            i - 1,
        ).map_values(|c: char| safe_char(c)).push(safe));
        assert(file@ =~= prefix + name@.take(i as int).map_values(|c: char| safe_char(c)));
    }
    assert(name@.take(i as int) =~= name@);
    Some(path_join(dir, file.as_str()))
}

/// The tag that a release's URL ends in.
pub open spec fn tag_in(url: Seq<char>) -> Option<Seq<char>> {
    let t = after_last(url, "/tag/"@);
    if t.len() == 0 || t.contains('/') {
        None
    } else {
        Some(t)
    }
}

/// The tag that `releases/latest` redirected to. The releases page lists
/// pre-releases first, so the redirect is what names the newest plain release.
pub fn tag_from_url(url: &str) -> (r: Option<String>)
    ensures
        opt_string(r) == tag_in(url@),
{
    let t = cut_after_last(url, "/tag/");
    let x = chars_of(t.as_str());
    if x.len() == 0 {
        return None;
    }
    let mut i: usize = 0;
    while i < x.len()
        invariant
            x@ == t@,
            i <= x@.len(),
            x@.len() > 0,
            t@ == after_last(url@, "/tag/"@),
            forall|j: int| 0 <= j < i ==> t@[j] != '/',
        decreases x@.len() - i,
    {
        if x[i] == '/' {
            assert(t@[i as int] == '/');
            return None;
        }
        i += 1;
    }
    Some(t)
}

/// An error that a second try may not meet: one of the connection.
pub open spec fn is_retryable(msg: Seq<char>) -> bool {
    ||| occurs(msg, "error sending request"@)
    ||| occurs(msg, "Connect"@)
    ||| occurs(msg, "corrupt message"@)
    ||| occurs(msg, "connection"@)
    ||| occurs(msg, "timed out"@)
    ||| occurs(msg, "reset"@)
}

/// How often something is tried at most.
pub const ATTEMPTS: u32 = 4;

/// What to do after a failure.
#[derive(Debug)]
pub enum Retry {
    /// Give up and report the error.
    Fail,
    /// Say so, wait that many seconds and try again.
    Again { note: String, seconds: u64 },
}

/// What is said before the next try.
pub open spec fn retry_note(label: Seq<char>, attempt: nat) -> Seq<char> {
    label + ": retrying ("@ + dec(attempt) + "/3)"@
}

/// What follows the failure of try number `attempt`: errors of the connection
/// are tried again, up to four tries in all, with growing pauses.
pub open spec fn is_followed(msg: Seq<char>, label: Seq<char>, attempt: nat, r: Retry) -> bool {
    match r {
        Retry::Fail => !is_retryable(msg) || attempt >= ATTEMPTS,
        Retry::Again { note, seconds } => is_retryable(msg) && attempt < ATTEMPTS && note@
            == retry_note(label, attempt) && seconds == 2 * attempt,
    }
}

/// What to do after the failure of try number `attempt`.
pub fn after_failure(label: &str, msg: &str, attempt: u32) -> (r: Retry)
    ensures
        is_followed(msg@, label@, attempt as nat, r),
{
    let retryable = contains(msg, "error sending request") || contains(msg, "Connect") || contains(
        msg,
        "corrupt message",
    ) || contains(msg, "connection") || contains(msg, "timed out") || contains(msg, "reset");
    if !retryable || attempt >= ATTEMPTS {
        return Retry::Fail;
    }
    let mut note = label.to_owned();
    note.append(": retrying (");
    note.append(dec_text(attempt as u64).as_str());
    note.append("/3)");
    Retry::Again { note, seconds: 2 * attempt as u64 }
}

/// How many tries have failed once another has.
pub open spec fn failures_after(failed: nat) -> nat {
    if failed < ATTEMPTS {
        failed + 1
    } else {
        failed
    }
}

/// The tries of something that may fail, by the number of those that failed.
#[derive(Debug)]
pub struct Tries {
    pub failed: u32,
}

impl Tries {
    pub fn new() -> (r: Tries)
        ensures
            r.failed == 0,
    {
        Tries { failed: 0 }
    }

    /// Another try has failed. The last one that is allowed counts for any that
    /// follow it.
    pub fn fail(&mut self, label: &str, msg: &str) -> (r: Retry)
        ensures
            final(self).failed == failures_after(old(self).failed as nat),
            is_followed(msg@, label@, final(self).failed as nat, r),
    {
        if self.failed < ATTEMPTS {
            self.failed += 1;
        }
        after_failure(label, msg, self.failed)
    }
}

/// Tenths of a number of mebibytes, to the nearest; a tie goes to the even one.
pub open spec fn tenths(n: nat) -> nat {
    let q = n * 10 / 1048576;
    let rest = n * 10 % 1048576;
    if rest > 524288 || (rest == 524288 && q % 2 == 1) {
        q + 1
    } else {
        q
    }
}

/// A size in MB with one decimal from one MB on, else in whole KB.
pub open spec fn size_text(n: nat) -> Seq<char> {
    if n >= 1048576 {
        dec(tenths(n) / 10).push('.') + dec(tenths(n) % 10) + " MB"@
    } else {
        dec(n / 1024) + " KB"@
    }
}

pub fn fmt_bytes(n: u64) -> (r: String)
    ensures
        r@ == size_text(n as nat),
{
    if n >= 1048576 {
        let wide: u128 = n as u128 * 10;
        let rest: u128 = wide % 1048576;
        let mut q: u64 = (wide / 1048576) as u64;
        if rest > 524288 || (rest == 524288 && q % 2 == 1) {
            q += 1;
        }
        let mut s = dec_text(q / 10);
        s.push('.');
        s.append(dec_text(q % 10).as_str());
        s.append(" MB");
        s
    } else {
        let mut s = dec_text(n / 1024);
        s.append(" KB");
        s
    }
}

/// Cap the cache so a year of releases cannot fill a disk.
pub const CACHE_LIMIT: u64 = 2147483648;

/// A file of the cache: when it was last changed, and its size.
#[derive(Debug, Clone, Copy)]
pub struct CacheFile {
    pub changed: i128,
    pub len: u64,
}

pub open spec fn total_len(v: Seq<CacheFile>) -> nat
    decreases v.len(),
{
    if v.len() == 0 {
        0
    } else {
        total_len(v.drop_last()) + v.last().len as nat
    }
}

/// The one changed earlier stands first.
pub open spec fn earlier(v: Seq<CacheFile>) -> spec_fn(int, int) -> bool {
    |i: int, j: int| v[i].changed < v[j].changed
}

/// The files that may go, the oldest first; none where they are within the
/// limit.
pub open spec fn planned(files: Seq<CacheFile>) -> Seq<int> {
    if total_len(files) > CACHE_LIMIT {
        in_order(files.len(), earlier(files))
    } else {
        Seq::empty()
    }
}

/// The size of the cache without a file of that length.
pub open spec fn shrunk(total: int, len: u64) -> int {
    if len > total {
        0
    } else {
        total - len
    }
}

/// The size of the cache once the files were removed in that order, for as long
/// as it was over the limit.
pub open spec fn size_after(total: int, files: Seq<CacheFile>, order: Seq<int>) -> int
    decreases order.len(),
{
    if order.len() == 0 || total <= CACHE_LIMIT {
        total
    } else {
        size_after(shrunk(total, files[order[0]].len), files, order.drop_first())
    }
}

/// What is left to free: the size of the cache, and the files that may go, the
/// oldest first.
#[derive(Debug)]
pub struct Prune {
    pub total: u64,
    pub order: Vec<usize>,
}

impl Prune {
    /// The cache's files; none may go where they are within the limit.
    pub fn plan(files: &[CacheFile]) -> (r: Prune)
        requires
            total_len(files@) <= u64::MAX,
        ensures
            r.total == total_len(files@),
            as_places(r.order@) == planned(files@),
    {
        let mut total: u64 = 0;
        let mut i: usize = 0;
        assert(files@.take(0) =~= Seq::empty());
        while i < files.len()
            invariant
                i <= files@.len(),
                total_len(files@) <= u64::MAX,
                total == total_len(files@.take(i as int)),
            decreases files@.len() - i,
        {
            proof {
                assert(files@.take(i + 1).drop_last() =~= files@.take(i as int));
                total_grows(files@, i + 1);
            }
            total += files[i].len;
            i += 1;
        }
        assert(files@.take(i as int) =~= files@);
        if total <= CACHE_LIMIT {
            let none: Vec<usize> = Vec::new();
            assert(as_places(none@) =~= Seq::empty());
            return Prune { total, order: none };
        }
        let ghost lt = earlier(files@);
        let n: usize = files.len();
        let before = |a: usize, b: usize| -> (r: bool)
            requires
                a < n,
                b < n,
            ensures
                r == lt(a as int, b as int),
            {
                files[a].changed < files[b].changed
            };
        assert(weak_order(lt));
        Prune { total, order: order(n, before, Ghost(lt)) }
    }

    /// Does the next file have to go?
    pub fn over(&self) -> (r: bool)
        ensures
            r == (self.total > CACHE_LIMIT),
    {
        self.total > CACHE_LIMIT
    }

    /// A file of that size was removed.
    pub fn removed(&mut self, len: u64)
        ensures
            final(self).order == old(self).order,
            final(self).total == shrunk(old(self).total as int, len),
    {
        self.total = if len > self.total {
            0
        } else {
            self.total - len
        };
    }
}

/// The order does not matter for the size.
proof fn total_of_same(a: Seq<CacheFile>, b: Seq<CacheFile>)
    requires
        a.to_multiset() == b.to_multiset(),
    ensures
        total_len(a) == total_len(b),
    decreases a.len(),
{
    broadcast use vstd::seq_lib::group_to_multiset_ensures;

    assert(a.len() == a.to_multiset().len() == b.to_multiset().len() == b.len());
    if a.len() > 0 {
        let x = a.last();
        let last = a.len() - 1;
        assert(a.contains(x)) by {
            assert(a[last] == x);
        }
        assert(b.to_multiset().count(x) > 0);
        assert(b.contains(x));
        let j = b.index_of(x);
        vstd::seq_lib::to_multiset_remove(a, last);
        vstd::seq_lib::to_multiset_remove(b, j);
        total_of_same(a.remove(last), b.remove(j));
        assert(a.remove(last) =~= a.drop_last());
        total_without(b, j);
    }
}

proof fn total_without(v: Seq<CacheFile>, j: int)
    requires
        0 <= j < v.len(),
    ensures
        total_len(v) == total_len(v.remove(j)) + v[j].len,
    decreases v.len(),
{
    if j == v.len() - 1 {
        assert(v.remove(j) =~= v.drop_last());
    } else {
        total_without(v.drop_last(), j);
        assert(v.remove(j).drop_last() =~= v.drop_last().remove(j));
        assert(v.remove(j).last() == v.last());
    }
}

proof fn size_ends(total: int, files: Seq<CacheFile>, order: Seq<int>)
    requires
        total == total_len(order.map_values(|i: int| files[i])),
    ensures
        size_after(total, files, order) <= CACHE_LIMIT,
    decreases order.len(),
{
    let f = |i: int| files[i];
    let v = order.map_values(f);
    if order.len() > 0 && total > CACHE_LIMIT {
        total_without(v, 0);
        assert(v.remove(0) =~= order.drop_first().map_values(f));
        size_ends(shrunk(total, files[order[0]].len), files, order.drop_first());
    }
}

/// Removing the files that were planned, one by one while the cache is over the
/// limit, ends within it.
pub proof fn law_prune(files: Seq<CacheFile>)
    ensures
        size_after(total_len(files) as int, files, planned(files)) <= CACHE_LIMIT,
{
    let lt = earlier(files);
    assert(weak_order(lt));
    order_shape(files.len(), lt);
    let o = in_order(files.len(), lt);
    let p = places(files.len());
    same_taken(o, p, files);
    assert(p.map_values(|i: int| files[i]) =~= files);
    total_of_same(o.map_values(|i: int| files[i]), files);
    if total_len(files) > CACHE_LIMIT {
        size_ends(total_len(files) as int, files, o);
    }
}

proof fn total_grows(v: Seq<CacheFile>, n: int)
    requires
        0 <= n <= v.len(),
    ensures
        total_len(v.take(n)) <= total_len(v),
    decreases v.len() - n,
{
    if n == v.len() {
        assert(v.take(n) =~= v);
    } else {
        total_grows(v, n + 1);
        assert(v.take(n + 1).drop_last() =~= v.take(n));
    }
}

/// The pattern of a release tag's link: tags of `repo` that begin with `prefix`.
pub open spec fn tag_pattern(repo: Seq<char>, prefix: Seq<char>) -> Seq<char> {
    "/"@ + literal(repo) + "/releases/tag/("@ + literal(prefix) + "[A-Za-z0-9._-]*)"@
}

/// The texts that the first group took; where it took none, the empty text.
pub open spec fn taken(v: Option<Seq<Option<Seq<char>>>>) -> Seq<Seq<char>> {
    match v {
        Some(s) => s.map_values(
            |o: Option<Seq<char>>|
                match o {
                    Some(t) => t,
                    None => Seq::<char>::empty(),
                },
        ),
        None => Seq::empty(),
    }
}

/// What the first group of a pattern took in each match.
pub(crate) fn matches_of(pattern: &str, text: &str) -> (r: Vec<String>)
    ensures
        texts(r@) == taken(regex_groups(pattern@, text@)),
{
    broadcast use texts_push;

    let mut out: Vec<String> = Vec::new();
    assert(texts(out@) =~= Seq::empty());
    if let Some(v) = find_groups(pattern, text) {
        let ghost all = taken(regex_groups(pattern@, text@));
        let mut i: usize = 0;
        assert(texts(out@) =~= all.take(0));
        while i < v.len()
            invariant
                i <= v@.len(),
                regex_groups(pattern@, text@) == Some(group_texts(v@)),
                all == taken(regex_groups(pattern@, text@)),
                texts(out@) == all.take(i as int),
            decreases v@.len() - i,
        {
            broadcast use texts_push;

            assert(all.take(i + 1) =~= all.take(i as int).push(all[i as int]));
            match &v[i] {
                Some(s) => {
                    out.push(s.clone());
                },
                None => {
                    let s = String::new();
                    assert(s@ =~= Seq::empty());
                    out.push(s);
                },
            }
            i += 1;
        }
        assert(all.take(i as int) =~= all);
    }
    out
}

/// The release tags that a page links to, in its order.
pub open spec fn page_tags(repo: Seq<char>, prefix: Seq<char>, html: Seq<char>) -> Seq<Seq<char>> {
    taken(regex_groups(tag_pattern(repo, prefix), html))
}

pub fn tags_on_page(repo: &str, prefix: &str, html: &str) -> (r: Vec<String>)
    ensures
        texts(r@) == page_tags(repo@, prefix@, html@),
{
    let mut pattern = "/".to_owned();
    pattern.append(escape_pattern(repo).as_str());
    pattern.append("/releases/tag/(");
    pattern.append(escape_pattern(prefix).as_str());
    pattern.append("[A-Za-z0-9._-]*)");
    matches_of(pattern.as_str(), html)
}

/// `tags` with those of `found` that are not among them yet.
pub open spec fn with_new(tags: Seq<Seq<char>>, found: Seq<Seq<char>>) -> Seq<Seq<char>>
    decreases found.len(),
{
    if found.len() == 0 {
        tags
    } else {
        let v = with_new(tags, found.drop_last());
        if v.contains(found.last()) {
            v
        } else {
            v.push(found.last())
        }
    }
}

/// The page to read next is the last: matches were found before, or now.
pub open spec fn closing_after(closing: bool, found: nat) -> bool {
    closing || found > 0
}

/// The page to read after `page`, on which so many tags were found; `lists` where it
/// links to release tags at all.
pub open spec fn page_after(page: usize, last: usize, closing: bool, found: nat, lists: bool) -> Option<
    usize,
> {
    if closing || (found == 0 && !lists) || page == last {
        None
    } else {
        Some((page + 1) as usize)
    }
}

/// A walk over the release pages, the newest first.
#[derive(Debug)]
pub struct TagSearch {
    pub tags: Vec<String>,
    /// The page to read next; none when the walk is over.
    pub page: Option<usize>,
    /// No page after that one is read.
    pub last: usize,
    /// Matches were found; the page to read next is the last.
    pub closing: bool,
}

impl TagSearch {
    /// A walk over at most that many pages.
    pub fn new(pages: usize) -> (r: TagSearch)
        ensures
            texts(r.tags@) == Seq::<Seq<char>>::empty(),
            r.page == (if pages > 0 {
                Some(1usize)
            } else {
                None
            }),
            r.last == pages,
            !r.closing,
    {
        let page: Option<usize> = if pages > 0 {
            Some(1)
        } else {
            None
        };
        let r = TagSearch { tags: Vec::new(), page, last: pages, closing: false };
        assert(texts(r.tags@) =~= Seq::empty());
        r
    }

    /// The page was read, and these tags were found on it; `lists` where it
    /// links to release tags at all. One page more is read after the first
    /// match, so that tags split across two pages are not cut short; a page
    /// without any release ends the walk.
    pub fn read(&mut self, found: &[String], lists: bool)
        requires
            old(self).page matches Some(p) && p <= old(self).last,
        ensures
            texts(final(self).tags@) == with_new(texts(old(self).tags@), texts(found@)),
            final(self).last == old(self).last,
            final(self).closing == closing_after(old(self).closing, found@.len()),
            final(self).page == page_after(
                old(self).page->0,
                old(self).last,
                old(self).closing,
                found@.len(),
                lists,
            ),
    {
        let ghost start = texts(self.tags@);
        let ghost all = texts(found@);
        let mut i: usize = 0;
        assert(all.take(0) =~= Seq::empty());
        while i < found.len()
            invariant
                i <= found@.len(),
                all == texts(found@),
                start == texts(old(self).tags@),
                texts(self.tags@) == with_new(start, all.take(i as int)),
                self.page == old(self).page,
                self.last == old(self).last,
                self.closing == old(self).closing,
            decreases found@.len() - i,
        {
            broadcast use texts_push;

            assert(all.take(i + 1).drop_last() =~= all.take(i as int));
            assert(all[i as int] == found@[i as int]@);
            if !list_has(self.tags.as_slice(), found[i].as_str()) {
                self.tags.push(found[i].clone());
            }
            i += 1;
        }
        assert(all.take(i as int) =~= all);
        let page: usize = match self.page {
            Some(p) => p,
            None => 0,
        };
        if self.closing || (found.len() == 0 && !lists) || page == self.last {
            self.page = None;
        } else {
            self.page = Some(page + 1);
        }
        if found.len() > 0 {
            self.closing = true;
        }
    }

    /// A page of `repo`'s releases was fetched: what it says of the tags that
    /// begin with `prefix`.
    pub fn read_page(&mut self, repo: &str, prefix: &str, html: &str)
        requires
            old(self).page matches Some(p) && p <= old(self).last,
        ensures
            ({
                let found = page_tags(repo@, prefix@, html@);
                let lists = occurs(html@, "/releases/tag/"@);
                &&& texts(final(self).tags@) == with_new(texts(old(self).tags@), found)
                &&& final(self).last == old(self).last
                &&& final(self).closing == closing_after(old(self).closing, found.len())
                &&& final(self).page == page_after(
                    old(self).page->0,
                    old(self).last,
                    old(self).closing,
                    found.len(),
                    lists,
                )
            }),
    {
        let found = tags_on_page(repo, prefix, html);
        assert(found@.len() == texts(found@).len());
        self.read(found.as_slice(), contains(html, "/releases/tag/"));
    }
}

/// No tag is listed twice.
pub proof fn law_tags_once(tags: Seq<Seq<char>>, found: Seq<Seq<char>>)
    requires
        tags.no_duplicates(),
    ensures
        with_new(tags, found).no_duplicates(),
        forall|t: Seq<char>| #[trigger]
            with_new(tags, found).contains(t) <==> tags.contains(t) || found.contains(t),
        with_new(tags, found).len() >= tags.len(),
        with_new(tags, found).take(tags.len() as int) == tags,
    decreases found.len(),
{
    if found.len() == 0 {
        assert(tags.take(tags.len() as int) =~= tags);
    } else {
        let u = found.drop_last();
        law_tags_once(tags, u);
        let v = with_new(tags, u);
        let w = with_new(tags, found);
        assert(w.take(tags.len() as int) =~= v.take(tags.len() as int));
        assert forall|t: Seq<char>| #[trigger] w.contains(t) <==> tags.contains(t)
            || found.contains(t) by {
            if u.contains(t) {
                assert(found[u.index_of(t)] == t);
            }
            if found.contains(t) && !u.contains(t) {
                let i = found.index_of(t);
                assert(i == found.len() - 1) by {
                    if i < u.len() {
                        assert(u[i] == t);
                    }
                }
            }
            assert(found[found.len() - 1] == found.last());
            if w != v {
                assert(w.last() == found.last());
                if v.contains(t) {
                    assert(w[v.index_of(t)] == t);
                }
                if w.contains(t) && !v.contains(t) {
                    let i = w.index_of(t);
                    if i < v.len() {
                        assert(v[i] == t);
                    }
                }
                assert(w[v.len() as int] == found.last());
            }
        }
    }
}

/// The pattern of a release asset's link.
pub open spec fn asset_pattern(repo: Seq<char>, tag: Seq<char>, name: Seq<char>) -> Seq<char> {
    "/"@ + literal(repo) + "/releases/download/"@ + literal(tag) + "/("@ + name + ")"@
}

/// The address of a release asset.
pub open spec fn asset_address(repo: Seq<char>, tag: Seq<char>, file: Seq<char>) -> Seq<char> {
    "https://github.com/"@ + repo + "/releases/download/"@ + tag + "/"@ + file
}

pub open spec fn no_asset(repo: Seq<char>, tag: Seq<char>, name: Seq<char>) -> Seq<char> {
    "no asset matching "@ + name + " in "@ + repo + " "@ + tag
}

/// The address of the first of the assets that were found, or what is said
/// where there is none.
pub fn first_asset(repo: &str, tag: &str, name_re: &str, found: &[String]) -> (r: Result<
    String,
    String,
>)
    ensures
        match r {
            Ok(u) => found@.len() > 0 && u@ == asset_address(repo@, tag@, found@[0]@),
            Err(e) => found@.len() == 0 && e@ == no_asset(repo@, tag@, name_re@),
        },
{
    if found.len() > 0 {
        let mut u = "https://github.com/".to_owned();
        u.append(repo);
        u.append("/releases/download/");
        u.append(tag);
        u.append("/");
        u.append(found[0].as_str());
        Ok(u)
    } else {
        let mut e = "no asset matching ".to_owned();
        e.append(name_re);
        e.append(" in ");
        e.append(repo);
        e.append(" ");
        e.append(tag);
        Err(e)
    }
}

/// The address of the first asset of `tag` whose file name matches `name_re`,
/// read from GitHub's list of a release's assets.
pub fn asset_url(repo: &str, tag: &str, name_re: &str, html: &str) -> (r: Result<String, String>)
    ensures
        ({
            let found = taken(regex_groups(asset_pattern(repo@, tag@, name_re@), html@));
            match r {
                Ok(u) => found.len() > 0 && u@ == asset_address(repo@, tag@, found[0]),
                Err(e) => found.len() == 0 && e@ == no_asset(repo@, tag@, name_re@),
            }
        }),
{
    let mut pattern = "/".to_owned();
    pattern.append(escape_pattern(repo).as_str());
    pattern.append("/releases/download/");
    pattern.append(escape_pattern(tag).as_str());
    pattern.append("/(");
    pattern.append(name_re);
    pattern.append(")");
    let found = matches_of(pattern.as_str(), html);
    assert(found@.len() == texts(found@).len());
    assert(found@.len() > 0 ==> texts(found@)[0] == found@[0]@);
    first_asset(repo, tag, name_re, found.as_slice())
}

/// The names of files among the first `n` that were matched; folders end in a
/// slash.
pub open spec fn kept_members(names: Seq<Seq<char>>, matched: Seq<bool>, n: int) -> Seq<Seq<char>>
    decreases n,
{
    if n <= 0 {
        Seq::empty()
    } else if matched[n - 1] && !ends(names[n - 1], "/"@) {
        kept_members(names, matched, n - 1).push(names[n - 1])
    } else {
        kept_members(names, matched, n - 1)
    }
}

/// The files among the members of an archive that were matched.
pub fn members_kept(names: &[String], matched: &[bool]) -> (r: Vec<String>)
    requires
        names@.len() == matched@.len(),
    ensures
        texts(r@) == kept_members(texts(names@), matched@, names@.len() as int),
{
    let mut out: Vec<String> = Vec::new();
    let mut i: usize = 0;
    assert(texts(out@) =~= Seq::empty());
    while i < names.len()
        invariant
            names@.len() == matched@.len(),
            i <= names@.len(),
            texts(out@) == kept_members(texts(names@), matched@, i as int),
        decreases names@.len() - i,
    {
        broadcast use texts_push;

        assert(texts(names@)[i as int] == names@[i as int]@);
        if matched[i] && !ends_with(names[i].as_str(), "/") {
            out.push(names[i].clone());
        }
        i += 1;
    }
    out
}

/// Which of the names the pattern matches.
pub open spec fn matching(names: Seq<Seq<char>>, pattern: Seq<char>) -> Seq<bool> {
    names.map_values(|n: Seq<char>| taken(regex_groups(pattern, n)).len() > 0)
}

/// File members whose name matches `pattern`.
pub fn members_matching(names: &[String], pattern: &str) -> (r: Vec<String>)
    ensures
        texts(r@) == kept_members(
            texts(names@),
            matching(texts(names@), pattern@),
            names@.len() as int,
        ),
{
    let ghost all = matching(texts(names@), pattern@);
    let mut matched: Vec<bool> = Vec::new();
    let mut i: usize = 0;
    while i < names.len()
        invariant
            i <= names@.len(),
            all == matching(texts(names@), pattern@),
            matched@.len() == i,
            forall|k: int| 0 <= k < i ==> #[trigger] matched@[k] == all[k],
        decreases names@.len() - i,
    {
        let found = matches_of(pattern, names[i].as_str());
        assert(found@.len() == texts(found@).len());
        assert(texts(names@)[i as int] == names@[i as int]@);
        matched.push(found.len() > 0);
        i += 1;
    }
    assert(matched@ =~= all);
    members_kept(names, matched.as_slice())
}

} // verus!
