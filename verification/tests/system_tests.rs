use dockerase::system::{
    cache_label, cache_locations, choice, dir_size, discover_caches, get_home_dir, purge_cache,
    purge_entry, total_cache_size, CacheInfo, CachePurge, Choice, FileTree, PathKind, PurgeStep,
    PurgeTally,
};
use std::path::PathBuf;

fn cache(name: &str, size: u64, exists: bool) -> CacheInfo {
    CacheInfo {
        name: name.to_string(),
        path: PathBuf::from(format!("/home/u/{}", name)),
        size,
        exists,
        description: "Test".to_string(),
    }
}

#[test]
fn test_get_home_dir() {
    let home = get_home_dir();
    assert!(home.is_some());
    assert!(home.unwrap().exists());
}

#[test]
fn test_cache_info_non_existent_path() {
    let cache = CacheInfo::new(
        "TestCache",
        PathBuf::from("/nonexistent/path/that/does/not/exist"),
        "Test description",
        false,
        None,
    );

    assert_eq!(cache.name, "TestCache");
    assert!(!cache.exists);
    assert_eq!(cache.size, 0);
    assert_eq!(cache.description, "Test description");
}

#[test]
fn test_cache_info_existing_path() {
    let measured = dir_size(&FileTree::Directory(Some(vec![FileTree::File(Some(14))])));
    let cache = CacheInfo::new("TestCache", PathBuf::from("/tmp/cache"), "Test", true, measured);

    assert_eq!(cache.name, "TestCache");
    assert!(cache.exists);
    assert!(cache.size > 0);
    assert_eq!(cache.size, 14);
    assert_eq!(cache.path, PathBuf::from("/tmp/cache"));
}

#[test]
fn cache_info_that_could_not_be_measured_is_empty() {
    let unread = CacheInfo::new("A", PathBuf::from("/a"), "d", true, None);
    assert!(unread.exists);
    assert_eq!(unread.size, 0);
    let gone = CacheInfo::new("B", PathBuf::from("/b"), "d", false, Some(99));
    assert_eq!(gone.size, 0);
}

#[test]
fn test_dir_size_empty_dir() {
    let size = dir_size(&FileTree::Directory(Some(Vec::new()))).unwrap();
    assert_eq!(size, 0);
}

#[test]
fn test_dir_size_with_file() {
    let size = dir_size(&FileTree::Directory(Some(vec![FileTree::File(Some(5))]))).unwrap();
    assert_eq!(size, 5);
}

#[test]
fn test_dir_size_nested() {
    let tree = FileTree::Directory(Some(vec![
        FileTree::Directory(Some(vec![FileTree::File(Some(5))])),
        FileTree::File(Some(3)),
    ]));
    let size = dir_size(&tree).unwrap();
    assert_eq!(size, 8);
}

#[test]
fn test_dir_size_single_file() {
    let size = dir_size(&FileTree::File(Some(10))).unwrap();
    assert_eq!(size, 10);
}

#[test]
fn dir_size_counts_nothing_for_what_cannot_be_sized() {
    let tree = FileTree::Directory(Some(vec![
        FileTree::File(None),
        FileTree::Directory(None),
        FileTree::Other,
        FileTree::File(Some(7)),
        FileTree::Directory(Some(vec![
            FileTree::Directory(None),
            FileTree::File(Some(2)),
            FileTree::Directory(Some(vec![FileTree::File(Some(1)), FileTree::File(None)])),
        ])),
    ]));
    assert_eq!(dir_size(&tree), Some(10));
    assert_eq!(dir_size(&FileTree::File(None)), None);
    assert_eq!(dir_size(&FileTree::Directory(None)), None);
    assert_eq!(dir_size(&FileTree::Other), Some(0));
}

#[test]
fn test_purge_cache_non_existent() {
    let cache = CacheInfo {
        name: "Test".to_string(),
        path: PathBuf::from("/nonexistent"),
        size: 0,
        exists: false,
        description: "Test".to_string(),
    };

    let result = purge_cache(&cache, PathKind::Missing);
    assert_eq!(result.step, PurgeStep::Nothing);
    assert_eq!(result.freed, 0);
}

#[test]
fn purge_of_a_cache_that_vanished_since_discovery_frees_nothing() {
    let cache = CacheInfo {
        name: "Test".to_string(),
        path: PathBuf::from("/nonexistent"),
        size: 42,
        exists: true,
        description: "Test".to_string(),
    };

    let result = purge_cache(&cache, PathKind::Missing);
    assert_eq!(result, CachePurge { step: PurgeStep::Nothing, freed: 0 });
    let trash = CacheInfo { name: "Trash".to_string(), ..cache.clone() };
    assert_eq!(purge_cache(&trash, PathKind::Missing), CachePurge {
        step: PurgeStep::Nothing,
        freed: 0
    });
}

#[test]
fn purge_of_a_cache_that_did_not_exist_touches_nothing() {
    let stale = cache("Gradle", 500, false);
    for found in [PathKind::Directory, PathKind::File, PathKind::Other, PathKind::Missing] {
        assert_eq!(purge_cache(&stale, found), CachePurge { step: PurgeStep::Nothing, freed: 0 });
    }
}

#[test]
fn test_purge_cache_directory() {
    let cache = CacheInfo {
        name: "TestCache".to_string(),
        path: PathBuf::from("/tmp/x/cache"),
        size: 9,
        exists: true,
        description: "Test".to_string(),
    };

    let result = purge_cache(&cache, PathKind::Directory);
    assert_eq!(result.freed, 9);
    // Directory should be recreated but empty
    assert_eq!(result.step, PurgeStep::RemoveAndRecreate);
}

#[test]
fn test_purge_cache_trash_behavior() {
    let cache = CacheInfo {
        name: "Trash".to_string(),
        path: PathBuf::from("/tmp/x/.Trash"),
        size: 100,
        exists: true,
        description: "Test Trash".to_string(),
    };

    let result = purge_cache(&cache, PathKind::Directory);
    // Trash directory should still exist but be empty
    assert_eq!(result.step, PurgeStep::RemoveContents);
    assert_eq!(result.freed, 100);
    assert_eq!(purge_entry(PathKind::Directory), PurgeStep::RemoveTree);
    assert_eq!(purge_entry(PathKind::File), PurgeStep::RemoveFile);
    assert_eq!(purge_entry(PathKind::Other), PurgeStep::RemoveFile);
    assert_eq!(purge_entry(PathKind::Missing), PurgeStep::RemoveFile);
}

#[test]
fn purge_of_a_file_or_a_vanished_path() {
    let npm = cache("npm", 42, true);
    assert_eq!(purge_cache(&npm, PathKind::File), CachePurge {
        step: PurgeStep::RemoveFile,
        freed: 42
    });
    assert_eq!(purge_cache(&npm, PathKind::Missing), CachePurge {
        step: PurgeStep::Nothing,
        freed: 0
    });
    assert_eq!(purge_cache(&npm, PathKind::Other), CachePurge {
        step: PurgeStep::Nothing,
        freed: 42
    });
    let trash = cache("Trash", 42, true);
    assert_eq!(purge_cache(&trash, PathKind::File).step, PurgeStep::RemoveFile);
    let almost = cache("trash", 1, true);
    assert_eq!(purge_cache(&almost, PathKind::Directory).step, PurgeStep::RemoveAndRecreate);
}

#[test]
fn test_discover_caches_returns_sorted() {
    let home = get_home_dir();
    let places = cache_locations(home.as_ref());
    let mut probed = Vec::new();
    for (row, place) in places.into_iter().enumerate() {
        let exists = row % 4 != 3;
        let measured = if row % 5 == 0 { None } else { Some(((row * 7) % 6) as u64 * 100) };
        probed.push(CacheInfo::new(
            &place.name,
            place.path,
            &place.description,
            exists,
            measured,
        ));
    }
    let caches = discover_caches(probed);

    // Verify sorted by size descending
    for window in caches.windows(2) {
        assert!(window[0].size >= window[1].size);
    }

    // All returned caches should exist and have size > 0
    for cache in &caches {
        assert!(cache.exists);
        assert!(cache.size > 0);
    }
}

#[test]
fn discovery_keeps_what_is_worth_listing_largest_first() {
    let probed = vec![
        cache("a", 10, true),
        cache("b", 0, true),
        cache("c", 30, true),
        cache("d", 99, false),
        cache("e", 10, true),
        cache("f", 30, true),
        cache("g", 5, true),
        cache("h", 31, true),
    ];
    let found = discover_caches(probed);
    let names: Vec<&str> = found.iter().map(|c| c.name.as_str()).collect();
    assert_eq!(names, vec!["h", "c", "f", "a", "e", "g"]);
    let sizes: Vec<u64> = found.iter().map(|c| c.size).collect();
    assert_eq!(sizes, vec![31, 30, 30, 10, 10, 5]);
    assert!(discover_caches(Vec::new()).is_empty());
    assert!(discover_caches(vec![cache("z", 0, true), cache("y", 4, false)]).is_empty());
}

#[test]
fn catalog_lies_under_the_home_directory() {
    assert!(cache_locations(None).is_empty());
    let home = PathBuf::from("/Users/me");
    let places = cache_locations(Some(&home));
    assert_eq!(places.len(), 15);
    assert_eq!(places[0].name, "Homebrew");
    assert_eq!(places[0].subpath, "Library/Caches/Homebrew");
    assert_eq!(places[0].path, PathBuf::from("/Users/me/Library/Caches/Homebrew"));
    assert_eq!(places[0].description, "Homebrew package downloads and cache");
    assert_eq!(places[1].path, PathBuf::from("/Users/me/.npm/_cacache"));
    assert_eq!(places[4].name, "Cargo Registry");
    assert_eq!(places[4].path, PathBuf::from("/Users/me/.cargo/registry"));
    assert_eq!(places[12].name, "Go Modules");
    assert_eq!(places[12].path, PathBuf::from("/Users/me/go/pkg/mod/cache"));
    assert_eq!(places[14].name, "Trash");
    assert_eq!(places[14].subpath, ".Trash");
    assert_eq!(places[14].path, PathBuf::from("/Users/me/.Trash"));
    assert_eq!(places[14].description, "Files in Trash");
    for place in &places {
        assert_eq!(place.path, home.join(&place.subpath));
    }
    let names: Vec<&str> = places.iter().map(|p| p.name.as_str()).collect();
    assert_eq!(names, vec![
        "Homebrew",
        "npm",
        "Yarn",
        "pnpm",
        "Cargo Registry",
        "Cargo Git",
        "pip",
        "Xcode DerivedData",
        "Xcode Archives",
        "CocoaPods",
        "Gradle",
        "Maven",
        "Go Modules",
        "Composer",
        "Trash"
    ]);
}

#[test]
fn probed_caches_can_be_copied() {
    let first = cache("npm", 7, true);
    let second = first.clone();
    assert_eq!(second.name, first.name);
    assert_eq!(second.path, first.path);
    assert_eq!(second.size, 7);
    assert!(second.exists);
    assert_eq!(second.description, first.description);
}

#[test]
fn cache_totals_and_labels() {
    let caches = vec![cache("a", 10, true), cache("b", 20, true), cache("c", 0, true)];
    assert_eq!(total_cache_size(&caches), 30);
    assert_eq!(total_cache_size(&Vec::new()), 0);
    assert_eq!(cache_label(&caches[0]), "a (10 B)");
}

#[test]
fn choice_of_caches_by_flags() {
    assert_eq!(choice(true, false, true), Choice::All);
    assert_eq!(choice(false, false, true), Choice::Picked);
    assert_eq!(choice(false, true, true), Choice::Picked);
    assert_eq!(choice(false, false, false), Choice::AllIfConfirmed);
    assert_eq!(choice(true, false, false), Choice::All);
    assert_eq!(choice(false, true, false), Choice::All);
    assert_eq!(choice(true, true, false), Choice::All);
}

#[test]
fn tally_counts_what_was_cleared() {
    let purge = CachePurge { step: PurgeStep::RemoveAndRecreate, freed: 40 };
    let tally = PurgeTally::new().record(purge, true).record(purge, false).record(
        CachePurge { step: PurgeStep::Nothing, freed: 2 },
        true,
    );
    assert_eq!(tally, PurgeTally { freed: 42, cleared: 2, failed: 1 });
}
