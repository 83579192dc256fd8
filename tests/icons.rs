use std::cell::Cell;
use std::collections::HashMap;
use std::collections::HashSet;

use stratos_core::icons::{
    file_stem_of, is_library_cache_dir, join, plan_for, resolve_uncached, search_dirs,
    last_component_of, resolve_after_lookup, stem_retry_of, Answer, CachedIconResolver, Probe,
};

/// A filesystem with the given directories and files; a file's canonical
/// path is itself unless mapped, and the theme knows the given names.
struct FakeFs {
    dirs: HashSet<String>,
    files: HashMap<String, Option<String>>,
    theme: HashMap<String, String>,
}

impl FakeFs {
    fn new() -> Self {
        FakeFs { dirs: HashSet::new(), files: HashMap::new(), theme: HashMap::new() }
    }

    fn answer(&self, p: &Probe) -> Answer {
        match p {
            Probe::Dir(d) => {
                if self.dirs.contains(d) {
                    Answer::Found { path: d.clone(), canonical: Some(d.clone()) }
                } else {
                    Answer::Absent
                }
            }
            Probe::File(f) => match self.files.get(f) {
                Some(c) => Answer::Found { path: f.clone(), canonical: c.clone() },
                None => Answer::Absent,
            },
            Probe::Theme(t) => match self.theme.get(t) {
                Some(path) => Answer::Found { path: path.clone(), canonical: None },
                None => Answer::Absent,
            },
        }
    }
}

fn no_bases() -> Vec<String> {
    Vec::new()
}

#[test]
fn test_resolve_absolute_path() {
    let mut fs = FakeFs::new();
    fs.files.insert("/tmp/x/test_icon.png".to_string(), Some("/private/tmp/x/test_icon.png".to_string()));
    let mut resolver = CachedIconResolver::new();
    let result = resolver.resolve_icon("/tmp/x/test_icon.png", &no_bases(), |p: &Probe| fs.answer(p));
    assert!(result.is_some());
    assert!(result.unwrap().contains("test_icon.png"));
}

#[test]
fn absolute_existing_path_resolves_to_canonical_form() {
    let mut fs = FakeFs::new();
    fs.files.insert("/icons/link.png".to_string(), Some("/store/real.png".to_string()));
    let result = resolve_uncached("/icons/link.png", &no_bases(), |p: &Probe| fs.answer(p));
    assert_eq!(result, Some("/store/real.png".to_string()));
}

#[test]
fn failed_canonicalisation_falls_back_to_the_token() {
    let mut fs = FakeFs::new();
    fs.files.insert("/icons/odd.png".to_string(), None);
    let result = resolve_uncached("/icons/odd.png", &no_bases(), |p: &Probe| fs.answer(p));
    assert_eq!(result, Some("/icons/odd.png".to_string()));
}

#[test]
fn test_caching_behavior() {
    let mut fs = FakeFs::new();
    fs.files.insert("/tmp/y/test_cache.png".to_string(), Some("/tmp/y/test_cache.png".to_string()));
    let mut resolver = CachedIconResolver::new();
    let path_str = "/tmp/y/test_cache.png";
    assert!(resolver.resolve_icon(path_str, &no_bases(), |p: &Probe| fs.answer(p)).is_some());
    // the file goes away
    let gone = FakeFs::new();
    let result = resolver.resolve_icon(path_str, &no_bases(), |p: &Probe| gone.answer(p));
    assert!(result.is_some());
    assert_eq!(result, Some("/tmp/y/test_cache.png".to_string()));
}

#[test]
fn test_missing_icon_returns_none() {
    let fs = FakeFs::new();
    let mut resolver = CachedIconResolver::new();
    let result = resolver.resolve_icon("/non/existent/path/icon.png", &no_bases(), |p: &Probe| fs.answer(p));
    assert!(result.is_none());
}

#[test]
fn miss_is_cached_and_not_rescanned() {
    let fs = FakeFs::new();
    let bases = search_dirs(Some("/usr/share"), Some("/home/u/.local/share"), Some("/home/u"));
    let count = Cell::new(0usize);
    let mut resolver = CachedIconResolver::new();
    let first = resolver.resolve_icon("no-such-icon", &bases, |p: &Probe| {
        count.set(count.get() + 1);
        fs.answer(p)
    });
    assert_eq!(first, None);
    let probes_first = count.get();
    assert!(probes_first > 0);
    let second = resolver.resolve_icon("no-such-icon", &bases, |p: &Probe| {
        count.set(count.get() + 1);
        fs.answer(p)
    });
    assert_eq!(second, None);
    assert_eq!(count.get(), probes_first);
    assert_eq!(resolver.lookup("no-such-icon"), Some(None));
}

#[test]
fn steam_icon_found_in_library_cache() {
    let mut fs = FakeFs::new();
    let cache_dir = "/home/u/.steam/root/appcache/librarycache".to_string();
    fs.dirs.insert(cache_dir.clone());
    fs.files.insert(format!("{}/440_icon.jpg", cache_dir), Some(format!("{}/440_icon.jpg", cache_dir)));
    let bases = search_dirs(Some("/usr/share"), None, Some("/home/u"));
    let mut resolver = CachedIconResolver::new();
    let result = resolver.resolve_icon("steam_icon_440", &bases, |p: &Probe| fs.answer(p));
    assert_eq!(result, Some("/home/u/.steam/root/appcache/librarycache/440_icon.jpg".to_string()));
}

#[test]
fn theme_hit_comes_before_the_search() {
    let mut fs = FakeFs::new();
    fs.theme.insert("firefox".to_string(), "/usr/share/icons/hicolor/64x64/apps/firefox.png".to_string());
    fs.dirs.insert("/usr/share/pixmaps".to_string());
    fs.files.insert("/usr/share/pixmaps/firefox.png".to_string(), None);
    let bases = search_dirs(None, None, None);
    let result = resolve_uncached("firefox", &bases, |p: &Probe| fs.answer(p));
    assert_eq!(result, Some("/usr/share/icons/hicolor/64x64/apps/firefox.png".to_string()));
}

#[test]
fn extension_priority_within_a_directory() {
    let mut fs = FakeFs::new();
    fs.dirs.insert("/usr/share/pixmaps".to_string());
    fs.files.insert("/usr/share/pixmaps/app.svg".to_string(), None);
    fs.files.insert("/usr/share/pixmaps/app.png".to_string(), None);
    let bases = search_dirs(None, None, None);
    let result = resolve_uncached("app", &bases, |p: &Probe| fs.answer(p));
    assert_eq!(result, Some("/usr/share/pixmaps/app.png".to_string()));
}

#[test]
fn files_under_a_missing_directory_are_not_probed() {
    let mut fs = FakeFs::new();
    // the file is known but its directory is not
    fs.files.insert("/usr/share/pixmaps/app.png".to_string(), None);
    let bases = search_dirs(None, None, None);
    let result = resolve_uncached("app", &bases, |p: &Probe| fs.answer(p));
    assert_eq!(result, None);
}

#[test]
fn stem_is_retried_in_the_theme() {
    let mut fs = FakeFs::new();
    fs.theme.insert("gimp".to_string(), "/theme/gimp.svg".to_string());
    let result = resolve_uncached("gimp.png", &no_bases(), |p: &Probe| fs.answer(p));
    assert_eq!(result, Some("/theme/gimp.svg".to_string()));
}

#[test]
fn search_dirs_order() {
    let dirs = search_dirs(Some("/a:/b/"), Some("/home/u/.local/share"), Some("/home/u"));
    assert_eq!(dirs.len(), 6 + 6 + 5 + 2);
    assert_eq!(dirs[0], "/a/icons/hicolor/48x48/apps");
    assert_eq!(dirs[2], "/a/icons/hicolor/128x128/apps");
    assert_eq!(dirs[4], "/a/pixmaps");
    assert_eq!(dirs[5], "/a/icons");
    assert_eq!(dirs[6], "/b/icons/hicolor/48x48/apps");
    assert_eq!(dirs[12], "/home/u/.local/share/icons/hicolor/48x48/apps");
    assert_eq!(dirs[16], "/home/u/.local/share/icons");
    assert_eq!(dirs[17], "/home/u/.steam/root/appcache/librarycache");
    assert_eq!(dirs[18], "/home/u/.local/share/icons/hicolor/48x48/apps");
}

#[test]
fn search_dirs_defaults_without_xdg() {
    let dirs = search_dirs(None, None, None);
    assert_eq!(dirs.len(), 12);
    assert_eq!(dirs[0], "/usr/share/icons/hicolor/48x48/apps");
    assert_eq!(dirs[3], "/usr/share/icons/hicolor/scalable/apps");
    assert_eq!(dirs[6], "/usr/local/share/icons/hicolor/48x48/apps");
}

#[test]
fn plan_for_steam_token() {
    let bases = vec!["/s/librarycache".to_string()];
    let plan = plan_for("steam_icon_7", &bases);
    assert!(matches!(&plan[0], Probe::Theme(t) if t == "steam_icon_7"));
    assert!(matches!(&plan[1], Probe::Dir(d) if d == "/s/librarycache"));
    assert!(matches!(&plan[2], Probe::File(f) if f == "/s/librarycache/7_icon.jpg"));
    assert!(matches!(&plan[3], Probe::File(f) if f == "/s/librarycache/steam_icon_7.png"));
    assert!(matches!(&plan[7], Probe::File(f) if f == "/s/librarycache/steam_icon_7.jpg"));
    assert_eq!(plan.len(), 8);
}

#[test]
fn join_paths() {
    assert_eq!(join("/a", "b"), "/a/b");
    assert_eq!(join("/a/", "b"), "/a/b");
    assert_eq!(join("", "b"), "b");
    assert_eq!(join("/a", "/b"), "/b");
}

#[test]
fn library_cache_detection() {
    assert!(is_library_cache_dir("/x/librarycache"));
    assert!(is_library_cache_dir("librarycache"));
    assert!(!is_library_cache_dir("/x/mylibrarycache"));
    assert!(!is_library_cache_dir("/x/librarycache/y"));
    assert!(is_library_cache_dir("/x/librarycache/"));
    assert!(is_library_cache_dir("/x/librarycache/."));
}

#[test]
fn stems() {
    assert_eq!(file_stem_of("a.png"), "a");
    assert_eq!(file_stem_of("a.b.c"), "a.b");
    assert_eq!(file_stem_of(".bashrc"), ".bashrc");
    assert_eq!(file_stem_of("plain"), "plain");
    assert_eq!(stem_retry_of("gimp.png"), Some("gimp".to_string()));
    assert_eq!(stem_retry_of("gimp"), None);
    assert_eq!(stem_retry_of("/a/b/c.svg"), Some("c".to_string()));
    assert_eq!(stem_retry_of("/a/.."), None);
    assert_eq!(stem_retry_of("/a/gimp.png/"), Some("gimp".to_string()));
    assert_eq!(stem_retry_of("/"), None);
    assert_eq!(stem_retry_of("foo.png/."), Some("foo".to_string()));
    assert_eq!(stem_retry_of("a/./.."), None);
    assert_eq!(stem_retry_of("."), None);
    assert_eq!(last_component_of("a//b/./"), Some("b".to_string()));
    assert_eq!(last_component_of("./"), None);
}

#[test]
fn stem_of_path_with_dot_component_is_retried() {
    let mut fs = FakeFs::new();
    fs.theme.insert("foo".to_string(), "/theme/foo.svg".to_string());
    let result = resolve_uncached("foo.png/.", &no_bases(), |p: &Probe| fs.answer(p));
    assert_eq!(result, Some("/theme/foo.svg".to_string()));
}

#[test]
fn steam_cache_base_with_trailing_separator() {
    let mut fs = FakeFs::new();
    fs.dirs.insert("/s/librarycache/".to_string());
    fs.files.insert("/s/librarycache/9_icon.jpg".to_string(), None);
    let bases = vec!["/s/librarycache/".to_string()];
    let result = resolve_uncached("steam_icon_9", &bases, |p: &Probe| fs.answer(p));
    assert_eq!(result, Some("/s/librarycache/9_icon.jpg".to_string()));
}

#[test]
fn lookup_then_resolve_for_a_shared_cache() {
    let mut fs = FakeFs::new();
    fs.theme.insert("kitty".to_string(), "/theme/kitty.png".to_string());
    let count = Cell::new(0usize);
    let probe = |p: &Probe| {
        count.set(count.get() + 1);
        fs.answer(p)
    };
    let (hit, store) = resolve_after_lookup(Some(Some("/cached.png".to_string())), "kitty", &no_bases(), &probe);
    assert_eq!(hit, Some("/cached.png".to_string()));
    assert_eq!(store, None);
    assert_eq!(count.get(), 0);
    let (fresh, store) = resolve_after_lookup(None, "kitty", &no_bases(), &probe);
    assert_eq!(fresh, Some("/theme/kitty.png".to_string()));
    assert_eq!(store, Some(Some("/theme/kitty.png".to_string())));
}
