//! What is fetched again, what is kept, and how sizes are told.
use vstd::prelude::*;

use crate::chars::{is_alnum, is_digit};
use crate::net::{
    asset_address, cache_folder, cache_name, closing_after, earlier, failures_after, is_followed,
    is_graphic, is_retryable, kept_members, page_after, planned, safe_char, size_text, tag_in,
    tenths, total_len, CacheFile, Retry,
};
use crate::numbers::{dec, digit_char, hex, is_number, parsed_u64, value};
use crate::order::{in_order, less_from, order_shape, stable, text_less, weak_order};
use crate::paths::joined;
use crate::strs::{after_last, at, ends, occurs, rfind_from, starts};

verus! {

proof fn last_at(s: Seq<char>, t: Seq<char>, m: int, i: int)
    requires
        0 <= m <= i,
        at(s, t, m),
        forall|j: int| m < j <= i ==> !#[trigger] at(s, t, j),
    ensures
        rfind_from(s, t, i) == Some(m),
    decreases i,
{
    if i > m {
        last_at(s, t, m, i - 1);
    }
}

/// The name of a file is what stands behind the last slash; a text without a
/// slash is its own name.
pub proof fn law_file_name(folder: Seq<char>, name: Seq<char>)
    requires
        !name.contains('/'),
    ensures
        after_last(folder + "/"@ + name, "/"@) == name,
        after_last(name, "/"@) == name,
{
    reveal_strlit("/");
    let t = "/"@;
    let s = folder + t + name;
    let m = folder.len() as int;
    assert(at(s, t, m)) by {
        assert(s.subrange(m, m + 1) =~= t);
    }
    assert forall|j: int| m < j <= s.len() - t.len() implies !#[trigger] at(s, t, j) by {
        assert(s[j] == name[j - m - 1]);
        assert(s.subrange(j, j + 1)[0] == s[j]);
    }
    last_at(s, t, m, s.len() - t.len());
    assert(s.skip(m + 1) =~= name);
    no_slash(name, name.len() - 1);
}

proof fn no_slash(name: Seq<char>, i: int)
    requires
        !name.contains('/'),
        i < name.len(),
    ensures
        rfind_from(name, "/"@, i) is None,
    decreases i + 1,
{
    reveal_strlit("/");
    if i >= 0 {
        assert(!at(name, "/"@, i)) by {
            if at(name, "/"@, i) {
                assert(name.subrange(i, i + 1)[0] == name[i]);
            }
        }
        no_slash(name, i - 1);
    }
}

/// The address of a release names its tag.
pub proof fn law_tag(page: Seq<char>, tag: Seq<char>)
    requires
        tag.len() > 0,
        !tag.contains('/'),
    ensures
        tag_in(page + "/tag/"@ + tag) == Some(tag),
        tag_in(page + "/tag/"@ + tag + seq!['/']) is None,
{
    reveal_strlit("/tag/");
    let t = "/tag/"@;
    let m = page.len() as int;
    let s = page + t + tag;
    assert(at(s, t, m)) by {
        assert(s.subrange(m, m + 5) =~= t);
    }
    assert forall|j: int| m < j <= s.len() - t.len() implies !#[trigger] at(s, t, j) by {
        assert(s.subrange(j, j + 5)[0] == s[j]);
        assert(s.subrange(j, j + 5)[4] == s[j + 4]);
        if j >= m + 5 {
            assert(s[j] == tag[j - m - 5]);
        } else if j == m + 4 {
            assert(s[j + 4] == tag[j + 4 - m - 5]);
        } else {
            assert(s[j] == t[j - m]);
        }
    }
    last_at(s, t, m, s.len() - t.len());
    assert(s.skip(m + 5) =~= tag);
    tag_has_slash(page + t + tag + seq!['/']);
}

proof fn tag_has_slash(u: Seq<char>)
    requires
        u.len() > 0,
        u.last() == '/',
    ensures
        tag_in(u) is None,
{
    reveal_strlit("/tag/");
    let r = after_last(u, "/tag/"@);
    if r.len() > 0 {
        rfind_within(u, "/tag/"@, u.len() - 5);
        assert(r.last() == u.last());
        assert(r[r.len() - 1] == '/');
        assert(r.contains('/'));
    }
}

proof fn rfind_within(s: Seq<char>, t: Seq<char>, i: int)
    ensures
        rfind_from(s, t, i) matches Some(k) ==> 0 <= k && k + t.len() <= s.len(),
    decreases i + 1,
{
    if i >= 0 && !at(s, t, i) {
        rfind_within(s, t, i - 1);
    }
}

/// A connection that failed is tried again, up to four tries in all, each after a
/// longer pause; any other error is final.
pub proof fn law_retry(msg: Seq<char>, label: Seq<char>, attempt: nat, r: Retry)
    requires
        is_followed(msg, label, attempt, r),
    ensures
        r is Fail <==> attempt >= 4 || !(occurs(msg, "error sending request"@) || occurs(
            msg,
            "Connect"@,
        ) || occurs(msg, "corrupt message"@) || occurs(msg, "connection"@) || occurs(
            msg,
            "timed out"@,
        ) || occurs(msg, "reset"@)),
        r matches Retry::Again { seconds, .. } ==> seconds == 2 * attempt,
{
}

/// The pauses between tries grow.
pub proof fn law_pauses_grow(msg: Seq<char>, label: Seq<char>, a: nat, b: nat, r: Retry, s: Retry)
    requires
        is_followed(msg, label, a, r),
        is_followed(msg, label, b, s),
        a < b,
    ensures
        r matches Retry::Again { seconds: x, .. } ==> (s matches Retry::Again { seconds: y, .. }
            ==> x < y),
{
}

/// An address whose contents can change is never kept, nor one that is not
/// secure; any other is, under a name of letters, digits, points, hyphens and
/// underscores, where its last part is a plain name.
pub proof fn law_kept(url: Seq<char>)
    ensures
        occurs(url, "/latest/download/"@) ==> cache_name(url) is None,
        !starts(url, "https://"@) ==> cache_name(url) is None,
        starts(url, "https://"@) && !occurs(url, "/latest/download/"@) && 0 < after_last(
            url,
            "/"@,
        ).len() <= 80 && (forall|i: int|
            0 <= i < after_last(url, "/"@).len() ==> '!' <= #[trigger] after_last(url, "/"@)[i]
                <= '~') ==> cache_name(url) is Some,
        cache_name(url) matches Some(n) ==> forall|i: int|
            0 <= i < n.len() ==> is_alnum(#[trigger] n[i]) || n[i] == '.' || n[i] == '-' || n[i]
                == '_',
        cache_name(url) matches Some(n) ==> n.len() == 17 + after_last(url, "/"@).len(),
{
    if let Some(n) = cache_name(url) {
        let h = hex(crate::net::fnv(vstd::utf8::encode_utf8(url)) as nat, 16);
        hex_plain(crate::net::fnv(vstd::utf8::encode_utf8(url)) as nat, 16);
        let name = after_last(url, "/"@);
        let safe = name.map_values(|c: char| safe_char(c));
        assert(n == h.push('-') + safe);
        assert forall|i: int| 0 <= i < n.len() implies is_alnum(#[trigger] n[i]) || n[i] == '.'
            || n[i] == '-' || n[i] == '_' by {
            if i < 16 {
                assert(n[i] == h[i]);
            } else if i > 16 {
                assert(n[i] == safe_char(name[i - 17]));
            }
        }
    }
    if starts(url, "https://"@) && !occurs(url, "/latest/download/"@) && 0 < after_last(
        url,
        "/"@,
    ).len() <= 80 && (forall|i: int|
        0 <= i < after_last(url, "/"@).len() ==> '!' <= #[trigger] after_last(url, "/"@)[i]
            <= '~') {
        let name = after_last(url, "/"@);
        assert forall|i: int| 0 <= i < name.len() implies is_graphic(#[trigger] name[i]) by {}
    }
}

proof fn hex_plain(n: nat, width: nat)
    ensures
        hex(n, width).len() == width,
        forall|i: int| 0 <= i < width ==> is_alnum(#[trigger] hex(n, width)[i]),
    decreases width,
{
    if width > 0 {
        hex_plain(n / 16, (width - 1) as nat);
        let d = (n % 16) as int;
        assert(0 <= d < 16);
        assert(is_alnum(digit_char(d)));
    }
}

/// A size from one megabyte on is told to the nearest tenth; a smaller one in
/// kilobytes, rounded down.
pub proof fn law_sizes(n: nat)
    ensures
        -524288 <= tenths(n) * 1048576 - n * 10 <= 524288,
        n < 1048576 ==> exists|k: nat|
            size_text(n) == #[trigger] dec(k) + " KB"@ && k * 1024 <= n < (k + 1) * 1024,
        n >= 1048576 ==> exists|k: nat|
            size_text(n) == #[trigger] dec(k).push('.') + dec(tenths(n) % 10) + " MB"@ && tenths(n)
                == k * 10 + tenths(n) % 10,
{
    if n < 1048576 {
        let k = n / 1024;
        assert(size_text(n) == dec(k) + " KB"@);
    } else {
        let k = tenths(n) / 10;
        assert(size_text(n) == dec(k).push('.') + dec(tenths(n) % 10) + " MB"@);
    }
}

/// A number that was written is read back.
pub proof fn law_number_read(n: nat)
    requires
        n <= u64::MAX,
    ensures
        parsed_u64(dec(n)) == Some(n as u64),
{
    dec_reads(n);
    assert(dec(n)[0] != '+');
}

proof fn dec_reads(n: nat)
    ensures
        is_number(dec(n)),
        value(dec(n)) == n,
    decreases n,
{
    if n < 10 {
        let s = seq![digit_char(n as int)];
        assert(dec(n) == s);
        assert(s.drop_last() =~= Seq::<char>::empty());
        assert(value(s.drop_last()) == 0);
        assert(s.last() as int - 48 == n);
    } else {
        dec_reads(n / 10);
        let d = (n % 10) as int;
        let s = dec(n / 10).push(digit_char(d));
        assert(s.drop_last() =~= dec(n / 10));
        assert(s.last() as int - 48 == d);
        assert(is_digit(digit_char(d)));
        assert forall|i: int| 0 <= i < s.len() implies is_digit(#[trigger] s[i]) by {
            if i < s.len() - 1 {
                assert(s[i] == dec(n / 10)[i]);
            }
        }
    }
}

/// The oldest files go first, all of them may go, and none where the cache is
/// within its limit.
pub proof fn law_oldest_first(files: Seq<CacheFile>, a: int, b: int)
    ensures
        total_len(files) <= 2147483648 ==> planned(files).len() == 0,
        total_len(files) > 2147483648 ==> planned(files).len() == files.len(),
        0 <= a < b < planned(files).len() ==> files[planned(files)[a]].changed
            <= files[planned(files)[b]].changed,
        total_len(files) > 2147483648 && 0 <= a < files.len() ==> planned(files).contains(a),
{
    let lt = earlier(files);
    assert(weak_order(lt));
    order_shape(files.len(), lt);
    let o = in_order(files.len(), lt);
    if 0 <= a < b < planned(files).len() {
        assert(stable(lt)(o[a], o[b]));
    }
}

/// Of the members of an archive the files that were matched are kept, and no
/// folder.
pub proof fn law_members(names: Seq<Seq<char>>, matched: Seq<bool>, n: int, x: Seq<char>)
    requires
        0 <= n <= names.len(),
        names.len() == matched.len(),
    ensures
        kept_members(names, matched, n).contains(x) <==> exists|i: int|
            0 <= i < n && #[trigger] names[i] == x && matched[i] && !ends(x, "/"@),
    decreases n,
{
    if n > 0 {
        law_members(names, matched, n - 1, x);
        let before = kept_members(names, matched, n - 1);
        let now = kept_members(names, matched, n);
        if matched[n - 1] && !ends(names[n - 1], "/"@) {
            assert(now[before.len() as int] == names[n - 1]);
            if before.contains(x) {
                let k = choose|k: int| 0 <= k < before.len() && before[k] == x;
                assert(now[k] == x);
            }
            if now.contains(x) && x != names[n - 1] {
                let k = choose|k: int| 0 <= k < now.len() && now[k] == x;
                assert(before[k] == x);
            }
        }
    }
}

/// Three failures of the connection are followed by another try, the fourth is
/// final, and so is every one after it.
pub proof fn law_tries(msg: Seq<char>, label: Seq<char>, failed: nat, r: Retry)
    requires
        is_followed(msg, label, failures_after(failed), r),
    ensures
        failed < 3 && is_retryable(msg) ==> r is Again,
        failed >= 3 ==> r is Fail,
        failed <= 4 ==> failures_after(failed) <= 4,
{
}

/// After the first page with a match one page more is read, where there is one,
/// and none after that; a page without any release is the last.
pub proof fn law_pages(page: usize, last: usize, found: nat, more: nat)
    requires
        page < last,
    ensures
        found > 0 ==> page_after(page, last, false, found, true) == Some((page + 1) as usize)
            && closing_after(false, found) && page_after(
            (page + 1) as usize,
            last,
            closing_after(false, found),
            more,
            true,
        ) is None,
        page_after(page, last, false, 0, true) == Some((page + 1) as usize),
        page_after(page, last, false, 0, false) is None,
        page_after(last, last, false, found, true) is None,
        !closing_after(false, 0),
{
}

/// The address of an asset ends in its file, below the release of its tag.
pub proof fn law_asset_address(repo: Seq<char>, tag: Seq<char>, file: Seq<char>)
    requires
        !file.contains('/'),
    ensures
        after_last(asset_address(repo, tag, file), "/"@) == file,
        starts(
            asset_address(repo, tag, file),
            "https://github.com/"@ + repo + "/releases/download/"@ + tag,
        ),
{
    let head = "https://github.com/"@ + repo + "/releases/download/"@ + tag;
    law_file_name(head, file);
    assert(asset_address(repo, tag, file).subrange(0, head.len() as int) =~= head);
}

/// Downloads are kept in the user's local data, and among temporary files only
/// where there is none.
pub proof fn law_cache_folder(local: Seq<char>, temp: Seq<char>)
    ensures
        cache_folder(Some(local), temp) == joined(joined(local, "revengine-dlss5"@), "downloads"@),
        cache_folder(None, temp) == joined(joined(temp, "revengine-dlss5"@), "downloads"@),
{
}

/// Of two different texts one stands before the other: by the first character in
/// which they differ, or by ending first.
pub proof fn law_text_order(a: Seq<char>, b: Seq<char>)
    ensures
        a != b ==> text_less(a, b) || text_less(b, a),
        !text_less(a, a),
        text_less(a, b) ==> !text_less(b, a),
        forall|k: int| #[trigger] precedes(a, b, k) ==> text_less(a, b),
{
    if a != b {
        differ(a, b, 0);
    }
    crate::order::texts_compare(a, b, a);
    crate::order::texts_compare(a, a, a);
    assert forall|k: int| #[trigger] precedes(a, b, k) implies text_less(a, b) by {
        precede_at(a, b, k, 0);
    }
}

/// The texts agree before `k`; there the first has ended, or has the smaller
/// character.
pub open spec fn precedes(a: Seq<char>, b: Seq<char>, k: int) -> bool {
    &&& 0 <= k <= a.len()
    &&& k < b.len()
    &&& k == a.len() || a[k] < b[k]
    &&& forall|j: int| 0 <= j < k ==> #[trigger] a[j] == b[j]
}

proof fn precede_at(a: Seq<char>, b: Seq<char>, k: int, i: int)
    requires
        0 <= i <= k,
        precedes(a, b, k),
    ensures
        less_from(a, b, i),
    decreases k - i,
{
    if i < k {
        assert(a[i] == b[i]);
        precede_at(a, b, k, i + 1);
    }
}

proof fn differ(a: Seq<char>, b: Seq<char>, i: int)
    requires
        a != b,
        0 <= i <= a.len(),
        i <= b.len(),
        forall|j: int| 0 <= j < i ==> #[trigger] a[j] == b[j],
    ensures
        less_from(a, b, i) || less_from(b, a, i),
    decreases a.len() - i,
{
    if i < a.len() && i < b.len() && a[i] == b[i] {
        differ(a, b, i + 1);
    } else if i == a.len() && i == b.len() {
        assert(a =~= b);
    }
}

} // verus!
