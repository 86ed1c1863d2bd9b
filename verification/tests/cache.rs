use bcdown::cache::{
    image_files, is_image_file, missing_paths, Cache, ComicCache, ComicDir, ComicMeta, EpisodeCache,
    EpisodeDir, EpisodeMeta,
};
use bcdown::text::{base_name, parse_u32, split_chars, u32_text};
use std::collections::HashMap;

fn strings(items: &[&str]) -> Vec<String> {
    items.iter().map(|s| s.to_string()).collect()
}

fn episode(id: u32, paths: &[&str], files: &[&str]) -> EpisodeCache {
    EpisodeCache {
        id,
        title: format!("episode {}", id),
        files: strings(files),
        paths: strings(paths),
        host: "https://host.example".to_string(),
        ord: id as i64,
        root_dir: format!("/cache/1/{}", id),
    }
}

fn meta(paths: &[&str]) -> EpisodeMeta {
    EpisodeMeta {
        title: "title".to_string(),
        ord: 7,
        paths: strings(paths),
        host: "https://host.example".to_string(),
    }
}

#[test]
fn not_downloaded_lists_paths_without_a_file() {
    let e = episode(1, &["/a/b/1.jpg", "/a/b/2.jpg", "/a/c/3.png"], &["2.jpg"]);
    assert_eq!(e.not_downloaded(), strings(&["/a/b/1.jpg", "/a/c/3.png"]));
    assert!(!e.is_complete());
}

#[test]
fn not_downloaded_is_empty_exactly_when_all_files_are_present() {
    let paths = ["/p/1.jpg", "/p/2.jpg", "/q/3.jpg"];
    let all = ["1.jpg", "2.jpg", "3.jpg", "extra.jpg"];
    let complete = episode(1, &paths, &all);
    assert!(complete.not_downloaded().is_empty());
    assert!(complete.is_complete());
    for left_out in 0..3 {
        let files: Vec<&str> = all
            .iter()
            .enumerate()
            .filter(|(i, _)| *i != left_out)
            .map(|(_, f)| *f)
            .collect();
        let e = episode(1, &paths, &files);
        assert_eq!(e.not_downloaded(), strings(&[paths[left_out]]));
        assert!(!e.is_complete());
    }
    let nothing = episode(1, &[], &[]);
    assert!(nothing.not_downloaded().is_empty());
    assert!(nothing.is_complete());
}

#[test]
fn not_downloaded_goes_by_the_file_name_alone() {
    let e = episode(1, &["/x/1.jpg", "/y/1.jpg", "2.jpg"], &["1.jpg"]);
    assert_eq!(e.not_downloaded(), strings(&["2.jpg"]));
    assert_eq!(
        missing_paths(&strings(&["a/b", "c"]), &strings(&["c"])),
        strings(&["a/b"])
    );
}

#[test]
fn get_paths_gives_the_file_names_in_page_order() {
    let e = episode(1, &["/b/3.jpg", "/a/1.jpg", "2.png"], &[]);
    assert_eq!(e.get_paths(), strings(&["3.jpg", "1.jpg", "2.png"]));
}

#[test]
fn base_name_is_the_last_piece() {
    assert_eq!(base_name("/bfs/manga/abc.jpg"), "abc.jpg");
    assert_eq!(base_name("abc.jpg"), "abc.jpg");
    assert_eq!(base_name("a/b/"), "");
    assert_eq!(base_name(""), "");
    assert_eq!(base_name("/漫画/第1话.jpg"), "第1话.jpg");
}

#[test]
fn split_chars_splits_at_every_separator() {
    let pieces = |s: &str| -> Vec<String> {
        split_chars(&s.chars().collect(), ',')
            .iter()
            .map(|p| p.iter().collect())
            .collect()
    };
    assert_eq!(pieces("a,b,c"), strings(&["a", "b", "c"]));
    assert_eq!(pieces(""), strings(&[""]));
    assert_eq!(pieces(","), strings(&["", ""]));
    assert_eq!(pieces("a,,b,"), strings(&["a", "", "b", ""]));
    for s in ["", ",", "1-2,4-", ",,a", "abc", "a,b,"] {
        let expected: Vec<String> = s.split(',').map(|p| p.to_string()).collect();
        assert_eq!(pieces(s), expected);
        assert_eq!(pieces(s).join(","), s);
        assert!(pieces(s).iter().all(|p| !p.contains(',')));
    }
}

#[test]
fn image_files_are_told_by_their_extension() {
    assert!(is_image_file("1.jpg"));
    assert!(is_image_file("a.b.png"));
    assert!(is_image_file(".a.jpg"));
    assert!(!is_image_file(".jpg"));
    assert!(!is_image_file(".png"));
    assert!(!is_image_file("jpg"));
    assert!(!is_image_file("1.JPG"));
    assert!(!is_image_file("1.jpeg"));
    assert!(!is_image_file("meta.toml"));
    assert!(!is_image_file("1.jpg.part"));
    assert!(!is_image_file(""));
    for name in ["1.jpg", ".jpg", "a.png", "x", "a.b.c.png", "..jpg", "a.", "jpg.png", "é.jpg"] {
        let ext = std::path::Path::new(name).extension().and_then(|e| e.to_str());
        assert_eq!(is_image_file(name), ext == Some("jpg") || ext == Some("png"));
    }
    assert_eq!(
        image_files(strings(&["2.jpg", "meta.toml", "1.png", ".jpg", "3.gif"])),
        strings(&["2.jpg", "1.png"])
    );
}

#[test]
fn parse_u32_reads_as_the_standard_parser_does() {
    for text in [
        "0", "7", "007", "+5", "29911", "4294967295", "4294967296", "99999999999999999999999", "",
        "+", "-1", "-0", "1 ", " 1", "1a", "a", "++1", "1+", "٣", "1_000", "0x10",
    ] {
        assert_eq!(parse_u32(text), text.parse::<u32>().ok());
    }
    assert_eq!(parse_u32("4294967295"), Some(u32::MAX));
    assert_eq!(parse_u32("4294967296"), None);
}

#[test]
fn u32_text_writes_the_decimal_digits() {
    for n in [0u32, 1, 9, 10, 99, 100, 12345, 29911, 4294967295] {
        assert_eq!(u32_text(n), n.to_string());
        assert_eq!(parse_u32(&u32_text(n)), Some(n));
    }
}

#[test]
fn episode_load_needs_record_listing_and_identity() {
    let listing = strings(&["1.jpg", "meta.toml", "2.png"]);
    let loaded =
        EpisodeCache::load("42", "/cache/1/42", Some(meta(&["/p/1.jpg"])), Some(listing.clone()))
            .unwrap();
    assert_eq!(loaded.id, 42);
    assert_eq!(loaded.title, "title");
    assert_eq!(loaded.ord, 7);
    assert_eq!(loaded.host, "https://host.example");
    assert_eq!(loaded.paths, strings(&["/p/1.jpg"]));
    assert_eq!(loaded.files, strings(&["1.jpg", "2.png"]));
    assert_eq!(loaded.root_dir, "/cache/1/42");
    assert!(EpisodeCache::load("42", "/r", None, Some(listing.clone())).is_none());
    assert!(EpisodeCache::load("42", "/r", Some(meta(&[])), None).is_none());
    assert!(EpisodeCache::load("x42", "/r", Some(meta(&[])), Some(listing.clone())).is_none());
    assert!(EpisodeCache::load("", "/r", Some(meta(&[])), Some(listing)).is_none());
}

#[test]
fn episode_load_after_sync_gives_the_entry_back() {
    let e = episode(29911, &["/p/2.jpg", "/p/1.jpg"], &["stale.jpg"]);
    let listing = strings(&["1.jpg", "notes.txt"]);
    let again =
        EpisodeCache::load(&u32_text(e.id), &e.root_dir, Some(e.sync()), Some(listing)).unwrap();
    assert_eq!(again.id, e.id);
    assert_eq!(again.title, e.title);
    assert_eq!(again.paths, e.paths);
    assert_eq!(again.host, e.host);
    assert_eq!(again.ord, e.ord);
    assert_eq!(again.root_dir, e.root_dir);
    assert_eq!(again.files, strings(&["1.jpg"]));
}

#[test]
fn episode_copy_is_equal_in_every_field() {
    let e = episode(3, &["/p/1.jpg"], &["1.jpg"]);
    let c = e.copy();
    assert_eq!(c.id, e.id);
    assert_eq!(c.title, e.title);
    assert_eq!(c.files, e.files);
    assert_eq!(c.paths, e.paths);
    assert_eq!(c.host, e.host);
    assert_eq!(c.ord, e.ord);
    assert_eq!(c.root_dir, e.root_dir);
}

fn comic_meta() -> ComicMeta {
    ComicMeta {
        title: "work".to_string(),
        author_names: strings(&["a", "b"]),
        tags: strings(&["t"]),
    }
}

fn read_dir(name: &str, paths: Option<&[&str]>, listing: Option<&[&str]>) -> EpisodeDir {
    EpisodeDir {
        name: name.to_string(),
        root_dir: format!("/cache/29911/{}", name),
        meta: paths.map(meta),
        listing: listing.map(strings),
    }
}

#[test]
fn work_load_collects_episodes_and_names_corrupt_directories() {
    let dirs = vec![
        read_dir("1", Some(&[]), Some(&[])),
        read_dir("2", None, Some(&["1.jpg"])),
        read_dir("3", Some(&["/p/1.jpg"]), Some(&["1.jpg", "meta.toml"])),
        read_dir("4", Some(&["/p/1.jpg"]), None),
    ];
    let loaded = ComicCache::load("29911", Some(comic_meta()), dirs).unwrap();
    assert_eq!(loaded.comic.id, 29911);
    assert_eq!(loaded.comic.title, "work");
    assert_eq!(loaded.comic.author_names, strings(&["a", "b"]));
    assert_eq!(loaded.comic.tags, strings(&["t"]));
    assert_eq!(loaded.comic.episodes.len(), 2);
    assert_eq!(loaded.comic.get_episode(1).unwrap().id, 1);
    let third = loaded.comic.get_episode(3).unwrap();
    assert_eq!(third.id, 3);
    assert_eq!(third.paths, strings(&["/p/1.jpg"]));
    assert_eq!(third.files, strings(&["1.jpg"]));
    assert_eq!(third.root_dir, "/cache/29911/3");
    assert_eq!(third.title, "title");
    assert_eq!(third.ord, 7);
    assert!(loaded.comic.get_episode(2).is_none());
    assert!(loaded.comic.get_episode(4).is_none());
    assert_eq!(loaded.corrupt, strings(&["2", "4"]));
}

#[test]
fn work_load_fails_without_record_or_identity() {
    assert!(ComicCache::load("1", None, Vec::new()).is_none());
    assert!(ComicCache::load("1", None, vec![read_dir("1", Some(&[]), Some(&[]))]).is_none());
    assert!(ComicCache::load("mc1", Some(comic_meta()), Vec::new()).is_none());
    assert!(ComicCache::load("", Some(comic_meta()), Vec::new()).is_none());
    let empty = ComicCache::load("1", Some(comic_meta()), Vec::new()).unwrap();
    assert_eq!(empty.comic.id, 1);
    assert!(empty.comic.episodes.is_empty());
    assert!(empty.corrupt.is_empty());
}

#[test]
fn work_load_heals_beside_a_directory_that_is_no_episode() {
    let dirs = vec![
        read_dir("1", Some(&["/p/1.jpg"]), Some(&[])),
        read_dir("tmp", None, Some(&[])),
        read_dir("thumbs", Some(&["/p/1.jpg"]), Some(&["1.jpg"])),
        read_dir("2", Some(&[]), Some(&[])),
    ];
    let loaded = ComicCache::load("1", Some(comic_meta()), dirs).unwrap();
    assert_eq!(loaded.comic.id, 1);
    assert_eq!(loaded.comic.title, "work");
    assert_eq!(loaded.comic.episodes.len(), 2);
    assert_eq!(loaded.comic.get_episode(1).unwrap().paths, strings(&["/p/1.jpg"]));
    assert!(loaded.comic.get_episode(2).is_some());
    assert_eq!(loaded.corrupt, strings(&["tmp", "thumbs"]));
    let only_junk = vec![read_dir("x", None, None), read_dir("-1", Some(&[]), Some(&[]))];
    let loaded = ComicCache::load("1", Some(comic_meta()), only_junk).unwrap();
    assert!(loaded.comic.episodes.is_empty());
    assert_eq!(loaded.corrupt, strings(&["x", "-1"]));
}

#[test]
fn work_load_files_each_episode_under_its_identity() {
    let dirs = vec![
        read_dir("8", Some(&["/p/8.jpg"]), Some(&[])),
        read_dir("9", Some(&["/p/9.jpg"]), Some(&[])),
        read_dir("+10", Some(&[]), Some(&[])),
    ];
    let loaded = ComicCache::load("1", Some(comic_meta()), dirs).unwrap();
    assert_eq!(loaded.comic.episodes.len(), 3);
    for (id, episode) in loaded.comic.episodes.iter() {
        assert_eq!(episode.id, *id);
    }
    assert_eq!(loaded.comic.get_episode(8).unwrap().paths, strings(&["/p/8.jpg"]));
    assert_eq!(loaded.comic.get_episode(9).unwrap().paths, strings(&["/p/9.jpg"]));
    assert_eq!(loaded.comic.get_episode(10).unwrap().root_dir, "/cache/29911/+10");
}

#[test]
fn work_load_later_directory_stands_for_an_identity() {
    let dirs = vec![
        read_dir("7", Some(&["/first.jpg"]), Some(&[])),
        read_dir("007", Some(&["/second.jpg"]), Some(&[])),
    ];
    let loaded = ComicCache::load("1", Some(comic_meta()), dirs).unwrap();
    assert_eq!(loaded.comic.episodes.len(), 1);
    assert_eq!(loaded.comic.get_episode(7).unwrap().paths, strings(&["/second.jpg"]));
    assert!(loaded.corrupt.is_empty());
}

#[test]
fn work_load_after_sync_finds_the_work_again() {
    let work = ComicCache {
        id: 29911,
        title: "remote title".to_string(),
        author_names: strings(&["a"]),
        tags: strings(&["x", "y"]),
        episodes: HashMap::new(),
    };
    let dirs = vec![read_dir("1", Some(&[]), Some(&[])), read_dir("junk", None, None)];
    let again = ComicCache::load(&u32_text(work.id), Some(work.sync()), dirs).unwrap();
    assert_eq!(again.comic.id, 29911);
    assert_eq!(again.comic.title, "remote title");
    assert_eq!(again.comic.author_names, strings(&["a"]));
    assert_eq!(again.comic.tags, strings(&["x", "y"]));
    assert_eq!(again.comic.episodes.len(), 1);
    assert_eq!(again.corrupt, strings(&["junk"]));
}

#[test]
fn work_sync_gives_the_record() {
    let comic = ComicCache {
        id: 5,
        title: "work".to_string(),
        author_names: strings(&["a"]),
        tags: strings(&["x", "y"]),
        episodes: HashMap::new(),
    };
    let record = comic.sync();
    assert_eq!(record.title, "work");
    assert_eq!(record.author_names, strings(&["a"]));
    assert_eq!(record.tags, strings(&["x", "y"]));
}

#[test]
fn cache_load_collects_works_and_names_corrupt_directories() {
    let comic = |id: u32| ComicCache {
        id,
        title: format!("work {}", id),
        author_names: Vec::new(),
        tags: Vec::new(),
        episodes: HashMap::new(),
    };
    let dirs = vec![
        ComicDir { name: "1".to_string(), comic: Some(comic(1)) },
        ComicDir { name: "junk".to_string(), comic: None },
        ComicDir { name: "2".to_string(), comic: Some(comic(2)) },
    ];
    let loaded = Cache::load(dirs);
    assert_eq!(loaded.cache.comics.len(), 2);
    assert_eq!(loaded.cache.get_comic(1).unwrap().title, "work 1");
    for (id, comic) in loaded.cache.comics.iter() {
        assert_eq!(comic.id, *id);
    }
    assert_eq!(loaded.cache.get_comic(2).unwrap().title, "work 2");
    assert!(loaded.cache.get_comic(3).is_none());
    assert_eq!(loaded.corrupt, strings(&["junk"]));
    let nothing = Cache::load(Vec::new());
    assert!(nothing.cache.comics.is_empty());
    assert!(nothing.corrupt.is_empty());
}

#[test]
fn written_pass_leaves_nothing_missing() {
    let paths = ["/p/1.jpg", "/q/2.jpg", "/p/3.jpg", "/r/1.jpg"];
    let before = episode(1, &paths, &["2.jpg"]);
    let mut files = before.files.clone();
    for path in before.not_downloaded() {
        files.push(base_name(&path));
    }
    let mut after = before.copy();
    after.files = files;
    assert!(after.not_downloaded().is_empty());
    assert!(after.is_complete());
}
