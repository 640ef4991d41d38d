//! Windows paths as text.
use vstd::prelude::*;

use crate::chars::{chars_of, lower, lower_string, string_of};
use crate::strs::{join, join_with, opt_string, str_eq, texts, texts_push};

verus! {

pub open spec fn is_sep(c: char) -> bool {
    c == '\\' || c == '/'
}

/// Does the character part a path? In a verbatim path only the backslash does.
pub open spec fn parts_at(c: char, verbatim: bool) -> bool {
    c == '\\' || (c == '/' && !verbatim)
}

/// What a path may begin with.
#[derive(Debug, Clone, Copy, PartialEq, Eq, Structural)]
pub enum PrefixKind {
    Nothing,
    /// `C:`
    Drive,
    /// `\\machine\share`
    Share,
    /// `\\.\device`
    Device,
    /// `\\?\name`
    Verbatim,
    /// `\\?\C:`
    VerbatimDrive,
    /// `\\?\UNC\machine\share`
    VerbatimShare,
}

pub open spec fn is_letter(c: char) -> bool {
    'a' <= c <= 'z' || 'A' <= c <= 'Z'
}

/// A drive stands at `i`.
pub open spec fn drive_at(p: Seq<char>, i: int) -> bool {
    i + 2 <= p.len() && is_letter(p[i]) && p[i + 1] == ':'
}

/// A verbatim path, in which nothing but the backslash has a meaning.
pub open spec fn is_verbatim(p: Seq<char>) -> bool {
    4 <= p.len() && p[0] == '\\' && p[1] == '\\' && p[2] == '?' && p[3] == '\\'
}

/// Where the part of a path that begins at `i` ends.
pub open spec fn part_end(p: Seq<char>, i: int, verbatim: bool) -> int
    decreases p.len() - i,
{
    if i < 0 || i >= p.len() || parts_at(p[i], verbatim) {
        i
    } else {
        part_end(p, i + 1, verbatim)
    }
}

/// Where the part after the one that begins at `i` ends.
pub open spec fn second_end(p: Seq<char>, i: int, verbatim: bool) -> int {
    let e = part_end(p, i, verbatim);
    if e < p.len() {
        part_end(p, e + 1, verbatim)
    } else {
        e
    }
}

/// The part that begins at `i` is followed by another, which is not empty.
pub open spec fn has_second(p: Seq<char>, i: int, verbatim: bool) -> bool {
    second_end(p, i, verbatim) > part_end(p, i, verbatim) + 1
}

pub open spec fn kind_of(p: Seq<char>) -> PrefixKind {
    if is_verbatim(p) {
        if 8 <= p.len() && p[4] == 'U' && p[5] == 'N' && p[6] == 'C' && is_sep(p[7]) {
            PrefixKind::VerbatimShare
        } else if drive_at(p, 4) && (p.len() == 6 || is_sep(p[6])) {
            PrefixKind::VerbatimDrive
        } else {
            PrefixKind::Verbatim
        }
    } else if 2 <= p.len() && is_sep(p[0]) && is_sep(p[1]) {
        if 4 <= p.len() && p[2] == '.' && is_sep(p[3]) {
            PrefixKind::Device
        } else if part_end(p, 2, false) > 2 && has_second(p, 2, false) {
            PrefixKind::Share
        } else {
            PrefixKind::Nothing
        }
    } else if drive_at(p, 0) {
        PrefixKind::Drive
    } else {
        PrefixKind::Nothing
    }
}

/// How long the prefix is.
pub open spec fn prefix_len(p: Seq<char>) -> int {
    match kind_of(p) {
        PrefixKind::Nothing => 0,
        PrefixKind::Drive => 2,
        PrefixKind::Share => second_end(p, 2, false),
        PrefixKind::Device => part_end(p, 4, false),
        PrefixKind::Verbatim => part_end(p, 4, true),
        PrefixKind::VerbatimDrive => 6,
        PrefixKind::VerbatimShare => if has_second(p, 8, true) {
            second_end(p, 8, true)
        } else {
            part_end(p, 8, true)
        },
    }
}

/// What the prefix names: its kind, the drive, machine or device, and the share.
/// The case of a drive's letter does not matter.
pub type Prefix = (PrefixKind, Seq<char>, Seq<char>);

/// The part that begins at `i`, and the one after it.
pub open spec fn two_parts(p: Seq<char>, i: int, verbatim: bool) -> (Seq<char>, Seq<char>) {
    let e = part_end(p, i, verbatim);
    (
        p.subrange(i, e),
        if e < p.len() {
            p.subrange(e + 1, second_end(p, i, verbatim))
        } else {
            Seq::empty()
        },
    )
}

pub open spec fn prefix_of(p: Seq<char>) -> Prefix {
    let none = Seq::<char>::empty();
    let kind = kind_of(p);
    match kind {
        PrefixKind::Nothing => (kind, none, none),
        PrefixKind::Drive => (kind, lower(p.subrange(0, 1)), none),
        PrefixKind::Share => (kind, two_parts(p, 2, false).0, two_parts(p, 2, false).1),
        PrefixKind::Device => (kind, p.subrange(4, part_end(p, 4, false)), none),
        PrefixKind::Verbatim => (kind, p.subrange(4, part_end(p, 4, true)), none),
        PrefixKind::VerbatimDrive => (kind, lower(p.subrange(4, 5)), none),
        PrefixKind::VerbatimShare => (kind, two_parts(p, 8, true).0, two_parts(p, 8, true).1),
    }
}

/// A separator follows the prefix.
pub open spec fn at_root(p: Seq<char>) -> bool {
    prefix_len(p) < p.len() && is_sep(p[prefix_len(p)])
}

/// A path without a root begins with a point on its own, which stands for the
/// folder itself.
pub open spec fn at_dot(p: Seq<char>) -> bool {
    let n = prefix_len(p);
    &&& kind_of(p) == PrefixKind::Nothing || kind_of(p) == PrefixKind::Drive
    &&& n < p.len() && p[n] == '.' && (n + 1 == p.len() || is_sep(p[n + 1]))
}

/// How much of a path stands before its parts: the prefix, and a root's
/// separator, or a point with which a path without a root begins.
pub open spec fn lead_of(p: Seq<char>) -> int {
    if at_root(p) || at_dot(p) {
        prefix_len(p) + 1
    } else {
        prefix_len(p)
    }
}

/// A point on its own ends at `n`, where the parts begin at `lead`.
pub open spec fn dot_before(p: Seq<char>, lead: int, n: int) -> bool {
    p[n - 1] == '.' && (n - 1 == lead || is_sep(p[n - 2]))
}

/// Where the first `n` characters of a path end without separators and points
/// on their own at the end, the first `lead` left alone.
pub open spec fn parts_end(p: Seq<char>, lead: int, n: int, verbatim: bool) -> int
    decreases n - lead,
{
    if n <= lead {
        n
    } else if parts_at(p[n - 1], verbatim) || (!verbatim && dot_before(p, lead, n)) {
        parts_end(p, lead, n - 1, verbatim)
    } else {
        n
    }
}

/// Where the part that ends at `n` begins.
pub open spec fn part_start(p: Seq<char>, lead: int, n: int, verbatim: bool) -> int
    decreases n - lead,
{
    if n <= lead || parts_at(p[n - 1], verbatim) {
        n
    } else {
        part_start(p, lead, n - 1, verbatim)
    }
}

/// A part that names something, and does not just lead on or up.
pub open spec fn is_name(part: Seq<char>) -> bool {
    part.len() > 0 && part != "."@ && part != ".."@
}

/// Where the last part of a path ends.
pub open spec fn end_of(p: Seq<char>) -> int {
    parts_end(p, lead_of(p), p.len() as int, is_verbatim(p))
}

/// The last part of a path; a prefix, a root, and what leads up or nowhere has
/// none.
pub open spec fn name_of(p: Seq<char>) -> Option<Seq<char>> {
    let n = p.subrange(part_start(p, lead_of(p), end_of(p), is_verbatim(p)), end_of(p));
    if is_name(n) {
        Some(n)
    } else {
        None
    }
}

/// The folder that a path lies in; a bare name lies in the empty path.
pub open spec fn parent_of(p: Seq<char>) -> Option<Seq<char>> {
    let lead = lead_of(p);
    let v = is_verbatim(p);
    if end_of(p) > lead {
        Some(p.take(parts_end(p, lead, part_start(p, lead, end_of(p), v), v)))
    } else if at_dot(p) && kind_of(p) == PrefixKind::Nothing {
        Some(Seq::empty())
    } else {
        None
    }
}

/// Where the next part begins, from `i` on.
pub open spec fn next_part(p: Seq<char>, i: int, verbatim: bool) -> int
    decreases p.len() - i,
{
    if i < 0 || i >= p.len() {
        i
    } else if parts_at(p[i], verbatim) || (!verbatim && p[i] == '.' && (i + 1 == p.len() || is_sep(
        p[i + 1],
    ))) {
        next_part(p, i + 1, verbatim)
    } else {
        i
    }
}

/// The parts of a path from `i` on. Points on their own count in verbatim paths
/// only.
pub open spec fn parts_from(p: Seq<char>, i: int, verbatim: bool) -> Seq<Seq<char>>
    decreases p.len() - i,
{
    let s = next_part(p, i, verbatim);
    if i < 0 || s >= p.len() {
        Seq::empty()
    } else {
        proof {
            next_part_within(p, i, verbatim);
            part_end_within(p, s + 1, verbatim);
        }
        let e = part_end(p, s, verbatim);
        seq![p.subrange(s, e)] + parts_from(p, e, verbatim)
    }
}

/// The parts of a path.
pub open spec fn parts_of(p: Seq<char>) -> Seq<Seq<char>> {
    parts_from(p, lead_of(p), is_verbatim(p))
}

/// A path as it is compared: its prefix, whether it begins at a root and at the
/// folder itself, and its parts.
pub struct PathView {
    pub prefix: Prefix,
    pub root: bool,
    pub dot: bool,
    pub parts: Seq<Seq<char>>,
}

pub open spec fn path_view(p: Seq<char>) -> PathView {
    let kind = kind_of(p);
    PathView {
        prefix: prefix_of(p),
        root: at_root(p) || kind == PrefixKind::Share || kind == PrefixKind::Device,
        dot: at_dot(p) && kind == PrefixKind::Nothing,
        parts: parts_of(p),
    }
}

/// The two are one path: which separators stand in them, and how many, does not
/// matter, nor does the case of a drive's letter.
pub open spec fn same_path(a: Seq<char>, b: Seq<char>) -> bool {
    path_view(a) == path_view(b)
}

/// The parts after further ones: one that leads up takes a name away.
pub open spec fn walked(base: Seq<Seq<char>>, more: Seq<Seq<char>>) -> Seq<Seq<char>>
    decreases more.len(),
{
    if more.len() == 0 {
        base
    } else {
        let b = walked(base, more.drop_last());
        if more.last() != ".."@ {
            b.push(more.last())
        } else if b.len() > 0 && is_name(b.last()) {
            b.drop_last()
        } else {
            b
        }
    }
}

/// Where `p` leads from a verbatim path, which is written anew: nothing in it
/// may lead up.
pub open spec fn rebuilt(dir: Seq<char>, p: Seq<char>) -> Seq<char> {
    let rooted = p.len() > 0 && is_sep(p[0]);
    let parts = walked(
        if rooted {
            Seq::empty()
        } else {
            parts_of(dir)
        },
        parts_of(p),
    );
    dir.take(prefix_len(dir)) + (if rooted || at_root(dir) || parts.len() > 0 {
        "\\"@ + join(parts, "\\"@)
    } else {
        Seq::empty()
    })
}

/// `name` behind `dir`, with a separator between them where one is needed.
pub open spec fn appended(dir: Seq<char>, name: Seq<char>) -> Seq<char> {
    if dir.len() == 0 || is_sep(dir.last()) || (kind_of(dir) == PrefixKind::Drive && dir.len()
        == 2) {
        dir + name
    } else {
        dir.push('\\') + name
    }
}

/// Where `p` leads from the folder `dir`: a path of its own replaces it, one that
/// begins at a root keeps its prefix, any other lies in it.
pub open spec fn joined(dir: Seq<char>, p: Seq<char>) -> Seq<char> {
    if kind_of(p) != PrefixKind::Nothing {
        p
    } else if is_verbatim(dir) && p.len() > 0 {
        rebuilt(dir, p)
    } else if p.len() > 0 && is_sep(p[0]) {
        dir.take(prefix_len(dir)) + p
    } else {
        appended(dir, p)
    }
}

/// Where the extension of a file name begins: its last point, unless the name
/// begins with it.
pub open spec fn point_of(name: Seq<char>, i: int) -> Option<int>
    decreases i,
{
    if i <= 0 || i >= name.len() {
        None
    } else if name[i] == '.' {
        Some(i)
    } else {
        point_of(name, i - 1)
    }
}

/// A file name without its extension.
pub open spec fn stem_of(name: Seq<char>) -> Seq<char> {
    match point_of(name, name.len() - 1) {
        Some(i) => name.take(i),
        None => name,
    }
}

pub open spec fn extension_of(name: Seq<char>) -> Option<Seq<char>> {
    match point_of(name, name.len() - 1) {
        Some(i) => Some(name.skip(i + 1)),
        None => None,
    }
}

/// Behind how many parts, from `i` on, the path goes on where.
pub open spec fn after_parts(p: Seq<char>, i: int, n: nat, verbatim: bool) -> int
    decreases n,
{
    if n == 0 {
        i
    } else {
        after_parts(p, part_end(p, next_part(p, i, verbatim), verbatim), (n - 1) as nat, verbatim)
    }
}

/// The path from its next part after `i` on.
pub open spec fn rest_from(p: Seq<char>, i: int) -> Seq<char> {
    let s = next_part(p, i, is_verbatim(p));
    if s < end_of(p) {
        p.subrange(s, end_of(p))
    } else {
        Seq::empty()
    }
}

/// The rest of a path below the folder `dir`; all of it below the empty path.
pub open spec fn below(dir: Seq<char>, p: Seq<char>) -> Option<Seq<char>> {
    let d = path_view(dir);
    let k = path_view(p);
    let n = d.parts.len();
    let heads = d.prefix == k.prefix && d.root == k.root && d.dot == k.dot;
    if n > 0 {
        if heads && n <= k.parts.len() && k.parts.take(n as int) == d.parts {
            Some(rest_from(p, after_parts(p, lead_of(p), n, is_verbatim(p))))
        } else {
            None
        }
    } else if d.root || d.dot {
        if heads {
            Some(rest_from(p, lead_of(p)))
        } else {
            None
        }
    } else if d.prefix.0 != PrefixKind::Nothing {
        if d.prefix == k.prefix {
            Some(p.subrange(prefix_len(p), end_of(p)))
        } else {
            None
        }
    } else {
        Some(p.take(end_of(p)))
    }
}

fn sep(c: char) -> (r: bool)
    ensures
        r == is_sep(c),
{
    c == '\\' || c == '/'
}

fn parts(c: char, verbatim: bool) -> (r: bool)
    ensures
        r == parts_at(c, verbatim),
{
    c == '\\' || (c == '/' && !verbatim)
}

fn has_drive(x: &[char], i: usize) -> (r: bool)
    requires
        i < 8,
    ensures
        r == drive_at(x@, i as int),
{
    i + 2 <= x.len() && (('a' <= x[i] && x[i] <= 'z') || ('A' <= x[i] && x[i] <= 'Z')) && x[i + 1]
        == ':'
}

fn verbatim(x: &[char]) -> (r: bool)
    ensures
        r == is_verbatim(x@),
{
    4 <= x.len() && x[0] == '\\' && x[1] == '\\' && x[2] == '?' && x[3] == '\\'
}

fn find_part_end(x: &[char], from: usize, verbatim: bool) -> (r: usize)
    requires
        from <= x@.len(),
    ensures
        r == part_end(x@, from as int, verbatim),
        from <= r <= x@.len(),
{
    let n: usize = x.len();
    let mut i: usize = from;
    while i < n && !parts(x[i], verbatim)
        invariant
            n == x@.len(),
            from <= i <= n,
            part_end(x@, from as int, verbatim) == part_end(x@, i as int, verbatim),
        decreases n - i,
    {
        i += 1;
    }
    i
}

fn find_second_end(x: &[char], from: usize, verbatim: bool) -> (r: usize)
    requires
        from <= x@.len(),
    ensures
        r == second_end(x@, from as int, verbatim),
        from <= r <= x@.len(),
{
    let e: usize = find_part_end(x, from, verbatim);
    if e < x.len() {
        find_part_end(x, e + 1, verbatim)
    } else {
        e
    }
}

fn find_kind(x: &[char]) -> (r: PrefixKind)
    ensures
        r == kind_of(x@),
{
    let n: usize = x.len();
    if verbatim(x) {
        if 8 <= n && x[4] == 'U' && x[5] == 'N' && x[6] == 'C' && sep(x[7]) {
            PrefixKind::VerbatimShare
        } else if has_drive(x, 4) && (n == 6 || sep(x[6])) {
            PrefixKind::VerbatimDrive
        } else {
            PrefixKind::Verbatim
        }
    } else if 2 <= n && sep(x[0]) && sep(x[1]) {
        if 4 <= n && x[2] == '.' && sep(x[3]) {
            return PrefixKind::Device;
        }
        let e: usize = find_part_end(x, 2, false);
        let f: usize = find_second_end(x, 2, false);
        if e > 2 && f > e && f - e > 1 {
            PrefixKind::Share
        } else {
            PrefixKind::Nothing
        }
    } else if has_drive(x, 0) {
        PrefixKind::Drive
    } else {
        PrefixKind::Nothing
    }
}

fn find_prefix_len(x: &[char]) -> (r: usize)
    ensures
        r == prefix_len(x@),
        r <= x@.len(),
{
    match find_kind(x) {
        PrefixKind::Nothing => 0,
        PrefixKind::Drive => 2,
        PrefixKind::Share => find_second_end(x, 2, false),
        PrefixKind::Device => find_part_end(x, 4, false),
        PrefixKind::Verbatim => find_part_end(x, 4, true),
        PrefixKind::VerbatimDrive => 6,
        PrefixKind::VerbatimShare => {
            let e: usize = find_part_end(x, 8, true);
            let f: usize = find_second_end(x, 8, true);
            if f > e && f - e > 1 {
                f
            } else {
                e
            }
        },
    }
}

/// What the prefix names.
struct Named {
    kind: PrefixKind,
    one: String,
    two: String,
}

fn empty() -> (r: String)
    ensures
        r@ == Seq::<char>::empty(),
{
    let r = String::new();
    assert(r@ =~= Seq::empty());
    r
}

fn part_at(x: &[char], from: usize, to: usize) -> (r: String)
    requires
        from <= to <= x@.len(),
    ensures
        r@ == x@.subrange(from as int, to as int),
{
    let r = string_of(x, from, to);
    assert(r@ =~= x@.subrange(from as int, to as int));
    r
}

fn find_two(x: &[char], from: usize, verbatim: bool) -> (r: (String, String))
    requires
        from <= x@.len(),
    ensures
        (r.0@, r.1@) == two_parts(x@, from as int, verbatim),
{
    let e: usize = find_part_end(x, from, verbatim);
    let f: usize = find_second_end(x, from, verbatim);
    let two = if e < x.len() {
        proof {
            part_end_within(x@, e + 1, verbatim);
        }
        part_at(x, e + 1, f)
    } else {
        empty()
    };
    (part_at(x, from, e), two)
}

fn find_prefix(x: &[char]) -> (r: Named)
    ensures
        (r.kind, r.one@, r.two@) == prefix_of(x@),
{
    let kind = find_kind(x);
    match kind {
        PrefixKind::Nothing => Named { kind, one: empty(), two: empty() },
        PrefixKind::Drive => Named {
            kind,
            one: lower_string(part_at(x, 0, 1).as_str()),
            two: empty(),
        },
        PrefixKind::Share => {
            let (one, two) = find_two(x, 2, false);
            Named { kind, one, two }
        },
        PrefixKind::Device => {
            let e: usize = find_part_end(x, 4, false);
            Named { kind, one: part_at(x, 4, e), two: empty() }
        },
        PrefixKind::Verbatim => {
            let e: usize = find_part_end(x, 4, true);
            Named { kind, one: part_at(x, 4, e), two: empty() }
        },
        PrefixKind::VerbatimDrive => Named {
            kind,
            one: lower_string(part_at(x, 4, 5).as_str()),
            two: empty(),
        },
        PrefixKind::VerbatimShare => {
            let (one, two) = find_two(x, 8, true);
            Named { kind, one, two }
        },
    }
}

fn root(x: &[char]) -> (r: bool)
    ensures
        r == at_root(x@),
{
    let n: usize = find_prefix_len(x);
    n < x.len() && sep(x[n])
}

fn dot(x: &[char]) -> (r: bool)
    ensures
        r == at_dot(x@),
{
    let n: usize = find_prefix_len(x);
    let kind = find_kind(x);
    (kind == PrefixKind::Nothing || kind == PrefixKind::Drive) && n < x.len() && x[n] == '.' && (n
        + 1 == x.len() || sep(x[n + 1]))
}

fn find_lead(x: &[char]) -> (r: usize)
    ensures
        r == lead_of(x@),
        r <= x@.len(),
{
    let n: usize = find_prefix_len(x);
    if n < x.len() && (root(x) || dot(x)) {
        n + 1
    } else {
        n
    }
}

fn find_parts_end(x: &[char], lead: usize, n: usize, verbatim: bool) -> (r: usize)
    requires
        lead <= n <= x@.len(),
    ensures
        r == parts_end(x@, lead as int, n as int, verbatim),
        lead <= r <= n,
{
    let mut m: usize = n;
    while m > lead && (parts(x[m - 1], verbatim) || (!verbatim && x[m - 1] == '.' && (m - 1 == lead
        || sep(x[m - 2]))))
        invariant
            lead <= m <= n <= x@.len(),
            parts_end(x@, lead as int, n as int, verbatim) == parts_end(
                x@,
                lead as int,
                m as int,
                verbatim,
            ),
        decreases m,
    {
        m -= 1;
    }
    m
}

fn find_part_start(x: &[char], lead: usize, n: usize, verbatim: bool) -> (r: usize)
    requires
        lead <= n <= x@.len(),
    ensures
        r == part_start(x@, lead as int, n as int, verbatim),
        lead <= r <= n,
{
    let mut m: usize = n;
    while m > lead && !parts(x[m - 1], verbatim)
        invariant
            lead <= m <= n <= x@.len(),
            part_start(x@, lead as int, n as int, verbatim) == part_start(
                x@,
                lead as int,
                m as int,
                verbatim,
            ),
        decreases m,
    {
        m -= 1;
    }
    m
}

fn find_end(x: &[char]) -> (r: usize)
    ensures
        r == end_of(x@),
        lead_of(x@) <= r <= x@.len(),
{
    find_parts_end(x, find_lead(x), x.len(), verbatim(x))
}

fn name(part: &str) -> (r: bool)
    ensures
        r == is_name(part@),
{
    !part.is_empty() && !str_eq(part, ".") && !str_eq(part, "..")
}

/// The last part of a path.
pub fn path_name(p: &str) -> (r: Option<String>)
    ensures
        match r {
            Some(n) => name_of(p@) == Some(n@),
            None => name_of(p@) is None,
        },
{
    let c = chars_of(p);
    let x = c.as_slice();
    let end: usize = find_end(x);
    let start: usize = find_part_start(x, find_lead(x), end, verbatim(x));
    let n = part_at(x, start, end);
    if name(n.as_str()) {
        Some(n)
    } else {
        None
    }
}

/// The folder that a path lies in.
pub fn path_parent(p: &str) -> (r: Option<String>)
    ensures
        match r {
            Some(d) => parent_of(p@) == Some(d@),
            None => parent_of(p@) is None,
        },
{
    let c = chars_of(p);
    let x = c.as_slice();
    let lead: usize = find_lead(x);
    let end: usize = find_end(x);
    let v = verbatim(x);
    if end > lead {
        let start: usize = find_part_start(x, lead, end, v);
        let to: usize = find_parts_end(x, lead, start, v);
        let out = part_at(x, 0, to);
        assert(out@ =~= p@.take(to as int));
        Some(out)
    } else if dot(x) && find_kind(x) == PrefixKind::Nothing {
        Some(empty())
    } else {
        None
    }
}

fn find_next_part(x: &[char], from: usize, verbatim: bool) -> (r: usize)
    requires
        from <= x@.len(),
    ensures
        r == next_part(x@, from as int, verbatim),
        from <= r <= x@.len(),
{
    let n: usize = x.len();
    let mut i: usize = from;
    while i < n && (parts(x[i], verbatim) || (!verbatim && x[i] == '.' && (i + 1 == n || sep(
        x[i + 1],
    ))))
        invariant
            n == x@.len(),
            from <= i <= n,
            next_part(x@, from as int, verbatim) == next_part(x@, i as int, verbatim),
        decreases n - i,
    {
        i += 1;
    }
    i
}

fn find_parts(x: &[char]) -> (r: Vec<String>)
    ensures
        texts(r@) == parts_of(x@),
{
    broadcast use texts_push;

    let v = verbatim(x);
    let n: usize = x.len();
    let mut out: Vec<String> = Vec::new();
    let mut i: usize = find_lead(x);
    let ghost all = parts_of(x@);
    assert(texts(out@) + all =~= all);
    loop
        invariant
            n == x@.len(),
            i <= n,
            all == texts(out@) + parts_from(x@, i as int, v),
        ensures
            all == texts(out@),
        decreases n - i,
    {
        broadcast use texts_push;

        let s: usize = find_next_part(x, i, v);
        if s >= n {
            assert(texts(out@) + Seq::<Seq<char>>::empty() =~= texts(out@));
            break;
        }
        proof {
            part_end_within(x@, s + 1, v);
        }
        let e: usize = find_part_end(x, s, v);
        let part = part_at(x, s, e);
        let ghost before = texts(out@);
        let ghost rest = parts_from(x@, e as int, v);
        out.push(part);
        assert(before + (seq![part@] + rest) =~= texts(out@) + rest);
        i = e;
    }
    out
}

/// A path as it is compared.
struct Split {
    prefix: Named,
    root: bool,
    dot: bool,
    parts: Vec<String>,
}

spec fn split_view(s: Split) -> PathView {
    PathView {
        prefix: (s.prefix.kind, s.prefix.one@, s.prefix.two@),
        root: s.root,
        dot: s.dot,
        parts: texts(s.parts@),
    }
}

fn split(x: &[char]) -> (r: Split)
    ensures
        split_view(r) == path_view(x@),
{
    let kind = find_kind(x);
    Split {
        prefix: find_prefix(x),
        root: root(x) || kind == PrefixKind::Share || kind == PrefixKind::Device,
        dot: dot(x) && kind == PrefixKind::Nothing,
        parts: find_parts(x),
    }
}

fn same_prefix(a: &Named, b: &Named) -> (r: bool)
    ensures
        r == ((a.kind, a.one@, a.two@) == (b.kind, b.one@, b.two@)),
{
    a.kind == b.kind && str_eq(a.one.as_str(), b.one.as_str()) && str_eq(
        a.two.as_str(),
        b.two.as_str(),
    )
}

/// The first parts of `v` are those of `d`.
fn begins(v: &[String], d: &[String]) -> (r: bool)
    ensures
        r == (d@.len() <= v@.len() && texts(v@).take(d@.len() as int) == texts(d@)),
{
    if d.len() > v.len() {
        return false;
    }
    let n: usize = d.len();
    let mut i: usize = 0;
    while i < n
        invariant
            n == d@.len(),
            n <= v@.len(),
            i <= n,
            forall|j: int| 0 <= j < i ==> texts(v@)[j] == #[trigger] texts(d@)[j],
        decreases n - i,
    {
        assert(texts(v@)[i as int] == v@[i as int]@);
        assert(texts(d@)[i as int] == d@[i as int]@);
        if !str_eq(v[i].as_str(), d[i].as_str()) {
            assert(texts(v@).take(n as int)[i as int] != texts(d@)[i as int]);
            return false;
        }
        i += 1;
    }
    assert(texts(v@).take(n as int) =~= texts(d@));
    true
}

/// Are the two one path?
pub fn path_eq(a: &str, b: &str) -> (r: bool)
    ensures
        r == same_path(a@, b@),
{
    let x = split(chars_of(a).as_slice());
    let y = split(chars_of(b).as_slice());
    let same = begins(x.parts.as_slice(), y.parts.as_slice());
    assert(texts(x.parts@).len() == x.parts@.len());
    assert(texts(y.parts@).len() == y.parts@.len());
    assert(x.parts@.len() == y.parts@.len() ==> texts(x.parts@).take(y.parts@.len() as int)
        =~= texts(x.parts@));
    same && x.parts.len() == y.parts.len() && same_prefix(&x.prefix, &y.prefix) && x.root == y.root
        && x.dot == y.dot
}

/// Is the path among those of the list?
pub fn list_has_path(list: &[String], p: &str) -> (r: bool)
    ensures
        r == exists|i: int| 0 <= i < list@.len() && same_path(#[trigger] texts(list@)[i], p@),
{
    let mut i: usize = 0;
    while i < list.len()
        invariant
            i <= list@.len(),
            forall|j: int| 0 <= j < i ==> !same_path(#[trigger] texts(list@)[j], p@),
        decreases list@.len() - i,
    {
        assert(texts(list@)[i as int] == list@[i as int]@);
        if path_eq(list[i].as_str(), p) {
            return true;
        }
        i += 1;
    }
    false
}

/// The path from its next part after `i` on.
fn find_rest(x: &[char], i: usize) -> (r: String)
    requires
        i <= x@.len(),
    ensures
        r@ == rest_from(x@, i as int),
{
    let s: usize = find_next_part(x, i, verbatim(x));
    let end: usize = find_end(x);
    if s < end {
        part_at(x, s, end)
    } else {
        empty()
    }
}

fn skip_parts(x: &[char], from: usize, n: usize, verbatim: bool) -> (r: usize)
    requires
        from <= x@.len(),
    ensures
        r == after_parts(x@, from as int, n as nat, verbatim),
        from <= r <= x@.len(),
{
    let mut i: usize = from;
    let mut left: usize = n;
    while left > 0
        invariant
            left <= n,
            from <= i <= x@.len(),
            after_parts(x@, from as int, n as nat, verbatim) == after_parts(
                x@,
                i as int,
                left as nat,
                verbatim,
            ),
        decreases left,
    {
        let s: usize = find_next_part(x, i, verbatim);
        i = find_part_end(x, s, verbatim);
        left -= 1;
    }
    i
}

/// The rest of a path below the folder `dir`.
pub fn path_below(dir: &str, p: &str) -> (r: Option<String>)
    ensures
        opt_string(r) == below(dir@, p@),
{
    let c = chars_of(p);
    let x = c.as_slice();
    let d = split(chars_of(dir).as_slice());
    let k = split(x);
    let n: usize = d.parts.len();
    assert(n == path_view(dir@).parts.len());
    assert(k.parts@.len() == path_view(p@).parts.len());
    let prefixes = same_prefix(&d.prefix, &k.prefix);
    let heads = prefixes && d.root == k.root && d.dot == k.dot;
    let lead: usize = find_lead(x);
    let end: usize = find_end(x);
    if n > 0 {
        if heads && begins(k.parts.as_slice(), d.parts.as_slice()) {
            let i: usize = skip_parts(x, lead, n, verbatim(x));
            Some(find_rest(x, i))
        } else {
            None
        }
    } else if d.root || d.dot {
        if heads {
            Some(find_rest(x, lead))
        } else {
            None
        }
    } else if d.prefix.kind != PrefixKind::Nothing {
        if prefixes {
            let from: usize = find_prefix_len(x);
            Some(part_at(x, from, end))
        } else {
            None
        }
    } else {
        let all = part_at(x, 0, end);
        assert(all@ =~= p@.take(end as int));
        Some(all)
    }
}

fn walk(base: Vec<String>, more: &[String]) -> (r: Vec<String>)
    ensures
        texts(r@) == walked(texts(base@), texts(more@)),
{
    broadcast use texts_push;

    let ghost start = texts(base@);
    let ghost all = texts(more@);
    let mut out = base;
    let mut i: usize = 0;
    assert(all.take(0) =~= Seq::empty());
    while i < more.len()
        invariant
            i <= more@.len(),
            all == texts(more@),
            texts(out@) == walked(start, all.take(i as int)),
        decreases more@.len() - i,
    {
        broadcast use texts_push;

        assert(all.take(i + 1).drop_last() =~= all.take(i as int));
        assert(all[i as int] == more@[i as int]@);
        let ghost before = out@;
        assert(texts(out@).len() == out@.len());
        if !str_eq(more[i].as_str(), "..") {
            out.push(more[i].clone());
        } else if out.len() > 0 {
            assert(texts(out@).last() == out@.last()@);
            if name(out[out.len() - 1].as_str()) {
                out.pop();
                assert(texts(out@) =~= texts(before).drop_last());
            }
        }
        i += 1;
    }
    assert(all.take(i as int) =~= all);
    out
}

fn rebuild(x: &[char], y: &[char]) -> (r: String)
    ensures
        r@ == rebuilt(x@, y@),
{
    let rooted = y.len() > 0 && sep(y[0]);
    let base = if rooted {
        let none: Vec<String> = Vec::new();
        assert(texts(none@) =~= Seq::empty());
        none
    } else {
        find_parts(x)
    };
    let parts = walk(base, find_parts(y).as_slice());
    let n: usize = find_prefix_len(x);
    let mut out = part_at(x, 0, n);
    assert(out@ =~= x@.take(n as int));
    let ghost head = out@;
    assert(parts@.len() == texts(parts@).len());
    if rooted || root(x) || parts.len() > 0 {
        out.append("\\");
        out.append(join_with(parts.as_slice(), "\\").as_str());
        assert(out@ =~= head + ("\\"@ + join(texts(parts@), "\\"@)));
    } else {
        assert(out@ =~= head + Seq::<char>::empty());
    }
    out
}

/// Where `p` leads from the folder `dir`.
pub fn path_join(dir: &str, p: &str) -> (r: String)
    ensures
        r@ == joined(dir@, p@),
{
    let c = chars_of(dir);
    let x = c.as_slice();
    let d = chars_of(p);
    let y = d.as_slice();
    if find_kind(y) != PrefixKind::Nothing {
        return p.to_owned();
    }
    if verbatim(x) && y.len() > 0 {
        return rebuild(x, y);
    }
    if y.len() > 0 && sep(y[0]) {
        let n: usize = find_prefix_len(x);
        let mut out = part_at(x, 0, n);
        assert(out@ =~= dir@.take(n as int));
        out.append(p);
        return out;
    }
    let mut out = dir.to_owned();
    if x.len() > 0 && !sep(x[x.len() - 1]) && !(find_kind(x) == PrefixKind::Drive && x.len() == 2) {
        out.push('\\');
    }
    out.append(p);
    out
}

fn point(x: &[char]) -> (r: Option<usize>)
    ensures
        match r {
            Some(i) => point_of(x@, x@.len() - 1) == Some(i as int) && 0 < i < x@.len(),
            None => point_of(x@, x@.len() - 1) is None,
        },
{
    let mut i: usize = x.len();
    while i > 1
        invariant
            i <= x@.len(),
            x@.len() > 0 ==> point_of(x@, x@.len() - 1) == point_of(x@, i - 1),
        decreases i,
    {
        if x[i - 1] == '.' {
            return Some(i - 1);
        }
        i -= 1;
    }
    None
}

/// A file name without its extension.
pub fn file_stem(name: &str) -> (r: String)
    ensures
        r@ == stem_of(name@),
{
    let x = chars_of(name);
    let n: usize = match point(x.as_slice()) {
        Some(i) => i,
        None => x.len(),
    };
    let r = string_of(x.as_slice(), 0, n);
    assert(r@ =~= stem_of(name@));
    r
}

pub fn file_extension(name: &str) -> (r: Option<String>)
    ensures
        match r {
            Some(e) => extension_of(name@) == Some(e@),
            None => extension_of(name@) is None,
        },
{
    let x = chars_of(name);
    match point(x.as_slice()) {
        Some(i) => {
            let n: usize = x.len();
            let r = string_of(x.as_slice(), i + 1, n);
            assert(r@ =~= name@.skip(i + 1));
            Some(r)
        },
        None => None,
    }
}

pub proof fn part_end_within(p: Seq<char>, i: int, verbatim: bool)
    requires
        0 <= i <= p.len(),
    ensures
        i <= part_end(p, i, verbatim) <= p.len(),
    decreases p.len() - i,
{
    if i < p.len() {
        part_end_within(p, i + 1, verbatim);
    }
}

pub proof fn next_part_within(p: Seq<char>, i: int, verbatim: bool)
    ensures
        next_part(p, i, verbatim) >= i,
        next_part(p, i, verbatim) < p.len() && 0 <= i ==> !parts_at(
            p[next_part(p, i, verbatim)],
            verbatim,
        ),
    decreases p.len() - i,
{
    if 0 <= i < p.len() {
        next_part_within(p, i + 1, verbatim);
    }
}

proof fn prefix_within(p: Seq<char>)
    ensures
        0 <= prefix_len(p) <= p.len(),
{
    match kind_of(p) {
        PrefixKind::Share => {
            part_end_within(p, 2, false);
            let e = part_end(p, 2, false);
            if e < p.len() {
                part_end_within(p, e + 1, false);
            }
        },
        PrefixKind::Device => {
            part_end_within(p, 4, false);
        },
        PrefixKind::Verbatim => {
            part_end_within(p, 4, true);
        },
        PrefixKind::VerbatimShare => {
            part_end_within(p, 8, true);
            let e = part_end(p, 8, true);
            if e < p.len() {
                part_end_within(p, e + 1, true);
            }
        },
        _ => {},
    }
}

/// What stands behind `n` has no say in where the parts before it end.
proof fn parts_end_within(p: Seq<char>, q: Seq<char>, lead: int, n: int, verbatim: bool)
    requires
        0 <= lead <= n <= p.len(),
        n <= q.len(),
        forall|i: int| 0 <= i < n ==> p[i] == q[i],
    ensures
        parts_end(p, lead, n, verbatim) == parts_end(q, lead, n, verbatim),
        lead <= parts_end(p, lead, n, verbatim) <= n,
    decreases n - lead,
{
    if n > lead {
        parts_end_within(p, q, lead, n - 1, verbatim);
    }
}

proof fn part_start_clean(p: Seq<char>, lead: int, from: int, n: int, verbatim: bool)
    requires
        0 <= lead <= from <= n <= p.len(),
        from == lead || p[from - 1] == '\\' || (is_sep(p[from - 1]) && !verbatim),
        forall|i: int| from <= i < n ==> !is_sep(#[trigger] p[i]),
    ensures
        part_start(p, lead, n, verbatim) == from,
    decreases n - from,
{
    if n > from {
        assert(!is_sep(p[n - 1]));
        part_start_clean(p, lead, from, n - 1, verbatim);
    }
}

/// A name that is joined to a folder is the last part of the path, and the
/// folder is where the path lies, as long as the folder is no mere prefix, ends
/// with a part or a root and is not written anew, and the name does not become
/// part of a prefix.
pub proof fn law_join(dir: Seq<char>, name: Seq<char>)
    requires
        dir.len() > prefix_len(dir),
        joined(dir, name) == appended(dir, name),
        kind_of(joined(dir, name)) == kind_of(dir),
        prefix_len(joined(dir, name)) == prefix_len(dir),
        end_of(dir) == dir.len(),
        is_sep(dir.last()) ==> lead_of(dir) == dir.len(),
        is_name(name),
        forall|i: int| 0 <= i < name.len() ==> !is_sep(#[trigger] name[i]),
    ensures
        name_of(joined(dir, name)) == Some(name),
        parent_of(joined(dir, name)) == Some(dir),
{
    reveal_strlit(".");
    prefix_within(dir);
    let p = joined(dir, name);
    let lead = lead_of(dir);
    let v = is_verbatim(dir);
    let len = p.len() as int;
    let from = len - name.len();
    assert forall|i: int| 0 <= i < dir.len() implies p[i] == dir[i] by {}
    assert forall|i: int| from <= i < len implies !is_sep(#[trigger] p[i]) by {
        assert(p[i] == name[i - from]);
    }
    assert(is_verbatim(p) == v);
    assert(lead_of(p) == lead);
    assert(from == lead || p[from - 1] == '\\' || (is_sep(p[from - 1]) && !v));
    assert(parts_end(p, lead, len, v) == len) by {
        if dot_before(p, lead, len) {
            assert(name.len() == 1);
            assert(name =~= "."@);
        }
    }
    part_start_clean(p, lead, from, len, v);
    assert(p.subrange(from, len) =~= name);
    parts_end_within(p, dir, lead, dir.len() as int, v);
    assert(parts_end(p, lead, from, v) == dir.len());
    assert(p.take(dir.len() as int) =~= dir);
}

/// A folder's path is shorter than what lies in it.
pub proof fn parent_shorter(p: Seq<char>)
    ensures
        parent_of(p) matches Some(d) ==> d.len() < p.len(),
{
    let lead = lead_of(p);
    let v = is_verbatim(p);
    prefix_within(p);
    parts_end_within(p, p, lead, p.len() as int, v);
    let end = end_of(p);
    parts_end_stops(p, lead, p.len() as int, v);
    if end > lead {
        part_start_within(p, lead, end - 1, v);
        let start = part_start(p, lead, end, v);
        parts_end_within(p, p, lead, start, v);
    }
}

proof fn parts_end_stops(p: Seq<char>, lead: int, n: int, verbatim: bool)
    requires
        0 <= lead <= n <= p.len(),
    ensures
        parts_end(p, lead, n, verbatim) > lead ==> !parts_at(
            p[parts_end(p, lead, n, verbatim) - 1],
            verbatim,
        ),
    decreases n - lead,
{
    if n > lead {
        parts_end_stops(p, lead, n - 1, verbatim);
    }
}

proof fn part_start_within(p: Seq<char>, lead: int, n: int, verbatim: bool)
    requires
        0 <= lead <= n <= p.len(),
    ensures
        lead <= part_start(p, lead, n, verbatim) <= n,
    decreases n - lead,
{
    if n > lead {
        part_start_within(p, lead, n - 1, verbatim);
    }
}

} // verus!
