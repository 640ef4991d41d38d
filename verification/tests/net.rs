use revengine_dlss5::net::{
    after_failure, asset_url, cache_dir, cache_path, file_name, first_asset, fmt_bytes,
    members_kept, members_matching, tag_from_url, tags_on_page, CacheFile, Prune, Retry, TagSearch, Tries,
    CACHE_LIMIT,
};

/// The cache key has to separate two releases of the same file name, and
/// has to refuse a URL whose contents move under it (#42).
#[test]
fn cache_path_is_per_url_and_skips_moving_targets() {
    let dir = cache_dir(Some(r"C:\L"), r"C:\T");
    let path = |url: &str| cache_path(&dir, url);
    let a = path("https://github.com/o/r/releases/download/v1.4.10/x.addon64");
    let b = path("https://github.com/o/r/releases/download/v1.4.11/x.addon64");
    assert!(a.is_some() && b.is_some());
    assert_ne!(a, b, "two tags must not share one cache entry");
    assert!(a.unwrap().ends_with("-x.addon64"));

    // Moves whenever upstream publishes: never cached.
    assert!(path("https://github.com/o/r/releases/latest/download/x.zip").is_none());
    // Not https, or no file name at the end.
    assert!(path("http://example.com/x.zip").is_none());
    assert!(path("https://example.com/dir/").is_none());
}

#[test]
fn cached_files_have_exact_names() {
    // FNV-1a of "https://a/b" in sixteen digits.
    let mut h: u64 = 0xcbf29ce484222325;
    for b in "https://a/b".bytes() {
        h = (h ^ b as u64).wrapping_mul(0x100000001b3);
    }
    assert_eq!(cache_path(r"C:\c", "https://a/b").unwrap(), format!(r"C:\c\{h:016x}-b"));
    assert!(cache_path(r"C:\c", "https://a/b?c=d").unwrap().ends_with("-b_c_d"));
    assert!(cache_path(r"C:\c", "https://a/b c").is_none());
    assert!(cache_path(r"C:\c", &format!("https://a/{}", "x".repeat(81))).is_none());
    assert!(cache_path(r"C:\c", &format!("https://a/{}", "x".repeat(80))).is_some());
    assert_eq!(cache_dir(None, r"C:\T"), r"C:\T\revengine-dlss5\downloads");
}

/// Tries `step` until it succeeds or the failure is final.
fn drive(mut step: impl FnMut(u32) -> Result<u8, String>) -> (Result<u8, String>, u32) {
    let mut tries = Tries::new();
    loop {
        match step(tries.failed + 1) {
            Ok(v) => return (Ok(v), tries.failed + 1),
            Err(e) => match tries.fail("x", &e) {
                Retry::Fail => return (Err(e), tries.failed),
                Retry::Again { .. } => {}
            },
        }
    }
}

#[test]
fn with_retry_retries_connection_errors_only() {
    let (r, n) = drive(|i| {
        if i < 3 {
            Err("request failed: received corrupt message of type InvalidContentType".to_string())
        } else {
            Ok(7)
        }
    });
    assert_eq!(r.unwrap(), 7);
    assert_eq!(n, 3);
    let (r, m) = drive(|_| Err("HTTP 404 Not Found".to_string()));
    assert!(r.is_err());
    assert_eq!(m, 1);
}

#[test]
fn a_connection_is_tried_four_times() {
    let (r, n) = drive(|_| Err("operation timed out".to_string()));
    assert!(r.is_err());
    assert_eq!(n, 4);
    match after_failure("lib", "connection reset", 2) {
        Retry::Again { note, seconds } => {
            assert_eq!(note, "lib: retrying (2/3)");
            assert_eq!(seconds, 4);
        }
        Retry::Fail => panic!("a reset connection is tried again"),
    }
}

#[test]
fn sizes_are_rounded_to_one_decimal() {
    assert_eq!(fmt_bytes(0), "0 KB");
    assert_eq!(fmt_bytes(1023), "0 KB");
    assert_eq!(fmt_bytes(1048575), "1023 KB");
    assert_eq!(fmt_bytes(1048576), "1.0 MB");
    assert_eq!(fmt_bytes(1572864), "1.5 MB");
    // Exactly between two decimals: to the even one.
    assert_eq!(fmt_bytes(1310720), "1.2 MB");
    assert_eq!(fmt_bytes(1835008), "1.8 MB");
    assert_eq!(fmt_bytes(2147483648), "2048.0 MB");
    for n in [1048577u64, 3_000_000, 123_456_789] {
        assert_eq!(fmt_bytes(n), format!("{:.1} MB", n as f64 / 1048576.0));
    }
}

#[test]
fn names_end_after_the_last_slash() {
    assert_eq!(file_name("a/b/c.dll"), "c.dll");
    assert_eq!(file_name("c.dll"), "c.dll");
    assert_eq!(file_name("a/"), "");
}

#[test]
fn the_redirect_names_the_tag() {
    assert_eq!(
        tag_from_url("https://github.com/o/r/releases/tag/v1.2.3").as_deref(),
        Some("v1.2.3")
    );
    assert_eq!(tag_from_url("https://github.com/o/r/releases"), None);
}

#[test]
fn the_oldest_files_go_first() {
    let f = |changed: i128, len: u64| CacheFile { changed, len };
    let gb = 1u64 << 30;
    let small = Prune::plan(&[f(1, gb), f(2, gb)]);
    assert_eq!((small.total, small.order.len(), small.over()), (2 * gb, 0, false));
    let mut p = Prune::plan(&[f(5, gb), f(1, gb), f(3, gb), f(1, 7)]);
    assert_eq!(p.total, 3 * gb + 7);
    assert_eq!(p.order, vec![1, 3, 2, 0]);
    assert!(p.over());
    p.removed(gb);
    assert!(p.over());
    p.removed(7);
    assert!(!p.over());
    p.removed(u64::MAX);
    assert_eq!(p.total, 0);
}

#[test]
fn pruning_ends_within_the_limit() {
    let gb = 1u64 << 30;
    let files: Vec<CacheFile> =
        (0..7u64).map(|i| CacheFile { changed: ((i * 5) % 7) as i128, len: gb / 2 + i * gb }).collect();
    let mut p = Prune::plan(&files);
    let mut gone = 0;
    for i in p.order.clone() {
        if !p.over() {
            break;
        }
        p.removed(files[i].len);
        gone += 1;
    }
    assert!(!p.over() && p.total <= CACHE_LIMIT && gone > 0);
}

#[test]
fn tags_are_read_from_a_page() {
    let html = r#"<a href="/o/r.x/releases/tag/v1.0">1</a> <a href="/o/r.x/releases/tag/v0.9-b">2</a> <a href="/o/rZx/releases/tag/v3">no</a> <a href="/o/r.x/releases/tag/w2">no</a>"#;
    assert_eq!(tags_on_page("o/r.x", "v", html), vec!["v1.0", "v0.9-b"]);
}

#[test]
fn one_page_more_is_read_after_a_match() {
    let page = |t: &str| format!("/o/r/releases/tag/{t}");
    let mut s = TagSearch::new(5);
    assert_eq!(s.page, Some(1));
    s.read_page("o/r", "v", &page("x1"));
    assert_eq!((s.page, s.closing), (Some(2), false));
    s.read_page("o/r", "v", &format!("{} {}", page("v2"), page("v2")));
    assert_eq!((s.page, s.closing), (Some(3), true));
    s.read_page("o/r", "v", &format!("{} {}", page("v2"), page("v1")));
    assert_eq!(s.page, None);
    assert_eq!(s.tags, vec!["v2", "v1"]);
    // A page without any release ends the walk, and so does the last page.
    let mut s = TagSearch::new(5);
    s.read_page("o/r", "v", "nothing");
    assert_eq!(s.page, None);
    let mut s = TagSearch::new(1);
    s.read_page("o/r", "v", &page("x"));
    assert_eq!(s.page, None);
    assert_eq!(TagSearch::new(0).page, None);
}

#[test]
fn the_first_asset_that_matches_is_taken() {
    let html = r#"<a href="/o/r/releases/download/v1/a.zip"> <a href="/o/r/releases/download/v1/b.zip">"#;
    assert_eq!(
        asset_url("o/r", "v1", "[^\"]*\\.zip", html).unwrap(),
        "https://github.com/o/r/releases/download/v1/a.zip"
    );
    assert_eq!(
        asset_url("o/r", "v1", r"[^/]*\.exe", html).unwrap_err(),
        r"no asset matching [^/]*\.exe in o/r v1"
    );
    assert_eq!(
        first_asset("o/r", "v1", "x", &["b".to_string()]).unwrap(),
        "https://github.com/o/r/releases/download/v1/b"
    );
}

#[test]
fn members_are_files_that_match() {
    let names: Vec<String> =
        ["bin/", "bin/a.dll", "bin/b.txt", "c.DLL"].iter().map(|s| s.to_string()).collect();
    assert_eq!(members_matching(&names, r"(?i)\.dll$"), vec!["bin/a.dll", "c.DLL"]);
    assert_eq!(members_kept(&names, &[true, false, true, false]), vec!["bin/b.txt"]);
}
