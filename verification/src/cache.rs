//! The local cache: what is recorded of a work and of its episodes, and
//! what of an episode's pages is on disk.
use std::collections::HashMap;
use vstd::prelude::*;
use crate::range::HasOrd;
use crate::text::base_name;
use crate::text::base_name_of;
use crate::text::clone_texts;
use crate::text::decimal_of;
use crate::text::extension;
use crate::text::extension_of;
use crate::text::law_decimal_round_trip;
use crate::text::parse_u32;
use crate::text::parsed_u32;
use crate::text::has_text;
use crate::text::texts;

verus! {

broadcast use vstd::std_specs::hash::group_hash_axioms;

/// The cache entry of one episode.
#[derive(Debug, Clone)]
pub struct EpisodeCache {
    /// The episode's identity, which names its directory.
    pub id: u32,
    pub title: String,
    /// The names of the image files that are in the directory.
    pub files: Vec<String>,
    /// The remote paths of the pages, in page order.
    pub paths: Vec<String>,
    pub host: String,
    /// The ordering key of the episode.
    pub ord: i64,
    /// The episode's directory.
    pub root_dir: String,
}

/// An episode's cache entry as plain values.
pub struct EpisodeCacheView {
    pub id: u32,
    pub title: Seq<char>,
    pub files: Seq<Seq<char>>,
    pub paths: Seq<Seq<char>>,
    pub host: Seq<char>,
    pub ord: i64,
    pub root_dir: Seq<char>,
}

impl View for EpisodeCache {
    type V = EpisodeCacheView;

    open spec fn view(&self) -> EpisodeCacheView {
        EpisodeCacheView {
            id: self.id,
            title: self.title@,
            files: texts(self.files@),
            paths: texts(self.paths@),
            host: self.host@,
            ord: self.ord,
            root_dir: self.root_dir@,
        }
    }
}

impl HasOrd for EpisodeCache {
    open spec fn ord_key(&self) -> i64 {
        self.ord
    }

    fn ord(&self) -> (key: i64) {
        self.ord
    }
}

impl<'a> HasOrd for &'a EpisodeCache {
    open spec fn ord_key(&self) -> i64 {
        self.ord
    }

    fn ord(&self) -> (key: i64) {
        self.ord
    }
}

/// The paths that are still to fetch, as a predicate: those whose file
/// name is not among `files`.
pub open spec fn is_missing(files: Seq<Seq<char>>) -> spec_fn(Seq<char>) -> bool {
    |path: Seq<char>| !files.contains(base_name_of(path))
}

/// The paths of `paths` whose file is not among `files`, in their order.
pub open spec fn missing(paths: Seq<Seq<char>>, files: Seq<Seq<char>>) -> Seq<Seq<char>> {
    paths.filter(is_missing(files))
}

/// The file names of a list of paths, in their order.
pub open spec fn base_names(paths: Seq<Seq<char>>) -> Seq<Seq<char>> {
    paths.map_values(|path: Seq<char>| base_name_of(path))
}

/// The paths of `paths` whose file is not among `files`, in their order.
pub fn missing_paths(paths: &Vec<String>, files: &Vec<String>) -> (out: Vec<String>)
    ensures
        texts(out@) == missing(texts(paths@), texts(files@)),
{
    let ghost lacks = is_missing(texts(files@));
    let mut out: Vec<String> = Vec::new();
    let mut i: usize = 0;
    while i < paths.len()
        invariant
            i <= paths.len(),
            lacks == is_missing(texts(files@)),
            texts(out@) == texts(paths@).take(i as int).filter(lacks),
        decreases paths.len() - i,
    {
        proof {
            reveal(Seq::filter);
            assert(texts(paths@).take(i + 1).drop_last() == texts(paths@).take(i as int));
            assert(texts(paths@).take(i + 1).last() == paths@[i as int]@);
        }
        let name = base_name(paths[i].as_str());
        let ghost before = texts(out@);
        if !has_text(files, &name) {
            out.push(paths[i].clone());
            assert(texts(out@) =~= before.push(paths@[i as int]@));
        }
        i += 1;
    }
    proof {
        assert(texts(paths@).take(paths.len() as int) == texts(paths@));
    }
    out
}

impl EpisodeCache {
    /// A copy of the entry.
    pub fn copy(&self) -> (out: EpisodeCache)
        ensures
            out@ == self@,
    {
        EpisodeCache {
            id: self.id,
            title: self.title.clone(),
            files: clone_texts(&self.files),
            paths: clone_texts(&self.paths),
            host: self.host.clone(),
            ord: self.ord,
            root_dir: self.root_dir.clone(),
        }
    }

    /// The paths of the pages that are not on disk yet, in page order.
    pub fn not_downloaded(&self) -> (out: Vec<String>)
        ensures
            texts(out@) == missing(self@.paths, self@.files),
    {
        missing_paths(&self.paths, &self.files)
    }

    /// Whether every page is on disk.
    pub fn is_complete(&self) -> (complete: bool)
        ensures
            complete == (missing(self@.paths, self@.files).len() == 0),
    {
        let mut i: usize = 0;
        proof {
            reveal(Seq::filter);
        }
        while i < self.paths.len()
            invariant
                i <= self.paths.len(),
                self@.paths.take(i as int).filter(is_missing(self@.files)).len() == 0,
            decreases self.paths.len() - i,
        {
            proof {
                reveal(Seq::filter);
                assert(self@.paths.take(i + 1).drop_last() == self@.paths.take(i as int));
                assert(self@.paths.take(i + 1).last() == self.paths@[i as int]@);
            }
            let name = base_name(self.paths[i].as_str());
            if !has_text(&self.files, &name) {
                proof {
                    lemma_missing_prefix(self@.paths, self@.files, i + 1);
                }
                return false;
            }
            i += 1;
        }
        proof {
            assert(self@.paths.take(self.paths.len() as int) == self@.paths);
        }
        true
    }

    /// The file names of the pages, in page order: where each page is, or
    /// will be, inside the episode's directory.
    pub fn get_paths(&self) -> (out: Vec<String>)
        ensures
            texts(out@) == base_names(self@.paths),
    {
        let mut out: Vec<String> = Vec::new();
        let mut i: usize = 0;
        while i < self.paths.len()
            invariant
                i <= self.paths.len(),
                texts(out@) == base_names(self@.paths.take(i as int)),
            decreases self.paths.len() - i,
        {
            let ghost before = texts(out@);
            let name = base_name(self.paths[i].as_str());
            out.push(name);
            assert(texts(out@) =~= before.push(base_name_of(self.paths@[i as int]@)));
            assert(base_names(self@.paths.take(i + 1)) =~= base_names(
                self@.paths.take(i as int),
            ).push(base_name_of(self.paths@[i as int]@)));
            i += 1;
        }
        proof {
            assert(self@.paths.take(self.paths.len() as int) == self@.paths);
        }
        out
    }
}

/// What a prefix of the paths lacks, the whole list lacks too.
pub proof fn lemma_missing_prefix(paths: Seq<Seq<char>>, files: Seq<Seq<char>>, n: int)
    requires
        0 <= n <= paths.len(),
    ensures
        missing(paths.take(n), files).len() <= missing(paths, files).len(),
    decreases paths.len() - n,
{
    reveal(Seq::filter);
    if n < paths.len() {
        lemma_missing_prefix(paths, files, n + 1);
        assert(paths.take(n + 1).drop_last() == paths.take(n));
    } else {
        assert(paths.take(n) == paths);
    }
}

/// Nothing is left to fetch exactly when the file of every path is on
/// disk.
pub proof fn law_complete_iff_all_present(paths: Seq<Seq<char>>, files: Seq<Seq<char>>)
    ensures
        missing(paths, files).len() == 0 <==> forall|i: int|
            0 <= i < paths.len() ==> files.contains(base_name_of(#[trigger] paths[i])),
    decreases paths.len(),
{
    reveal(Seq::filter);
    if paths.len() > 0 {
        let rest = paths.drop_last();
        law_complete_iff_all_present(rest, files);
        if missing(paths, files).len() == 0 {
            assert forall|i: int| 0 <= i < paths.len() implies files.contains(
                base_name_of(#[trigger] paths[i]),
            ) by {
                if i < rest.len() {
                    assert(rest[i] == paths[i]);
                }
            }
        } else if forall|i: int|
            0 <= i < paths.len() ==> files.contains(base_name_of(#[trigger] paths[i])) {
            assert forall|i: int| 0 <= i < rest.len() implies files.contains(
                base_name_of(#[trigger] rest[i]),
            ) by {
                assert(rest[i] == paths[i]);
            }
            assert(files.contains(base_name_of(paths[paths.len() - 1])));
        }
    }
}

/// A pass that has written the file of every path that was missing leaves
/// nothing missing: with those files in the directory, the entry is
/// complete.
pub proof fn law_written_pass_completes(paths: Seq<Seq<char>>, files: Seq<Seq<char>>)
    ensures
        missing(paths, files + base_names(missing(paths, files))).len() == 0,
{
    let required = missing(paths, files);
    let after = files + base_names(required);
    assert forall|i: int| 0 <= i < paths.len() implies after.contains(
        base_name_of(#[trigger] paths[i]),
    ) by {
        let name = base_name_of(paths[i]);
        if files.contains(name) {
            let k = choose|k: int| 0 <= k < files.len() && files[k] == name;
            assert(after[k] == name);
        } else {
            paths.lemma_filter_contains(is_missing(files), i);
            let k = choose|k: int| 0 <= k < required.len() && required[k] == paths[i];
            assert(base_names(required)[k] == name);
            assert(after[files.len() + k] == name);
        }
    }
    law_complete_iff_all_present(paths, after);
}

/// What is recorded of an episode: everything but the files, which are
/// looked up in the directory whenever they are needed.
#[derive(Debug, Clone)]
pub struct EpisodeMeta {
    pub title: String,
    pub ord: i64,
    pub paths: Vec<String>,
    pub host: String,
}

/// An episode's record as plain values.
pub struct EpisodeMetaView {
    pub title: Seq<char>,
    pub ord: i64,
    pub paths: Seq<Seq<char>>,
    pub host: Seq<char>,
}

impl View for EpisodeMeta {
    type V = EpisodeMetaView;

    open spec fn view(&self) -> EpisodeMetaView {
        EpisodeMetaView {
            title: self.title@,
            ord: self.ord,
            paths: texts(self.paths@),
            host: self.host@,
        }
    }
}

/// Whether a file name is that of a page: its extension is `jpg` or
/// `png`.
pub open spec fn is_image_name(name: Seq<char>) -> bool {
    extension_of(name) == Some("jpg"@) || extension_of(name) == Some("png"@)
}

/// The page files among the names of a directory's files, in their order.
pub open spec fn image_names(listing: Seq<Seq<char>>) -> Seq<Seq<char>> {
    listing.filter(|name: Seq<char>| is_image_name(name))
}

/// Whether `name` is the name of a page file.
pub fn is_image_file(name: &str) -> (image: bool)
    ensures
        image == is_image_name(name@),
{
    match extension(name) {
        Some(ext) => ext == "jpg".to_owned() || ext == "png".to_owned(),
        None => false,
    }
}

/// The page files among the names of a directory's files, in their order.
pub fn image_files(listing: Vec<String>) -> (files: Vec<String>)
    ensures
        texts(files@) == image_names(texts(listing@)),
{
    let ghost all = listing@;
    let ghost keep = |name: Seq<char>| is_image_name(name);
    let mut files: Vec<String> = Vec::new();
    for name in it: listing
        invariant
            it.seq() == all,
            keep == |name: Seq<char>| is_image_name(name),
            texts(files@) == texts(all).take(it.index() as int).filter(keep),
    {
        proof {
            reveal(Seq::filter);
            assert(texts(all).take(it.index() + 1).drop_last() == texts(all).take(
                it.index() as int,
            ));
            assert(texts(all).take(it.index() + 1).last() == name@);
        }
        let ghost before = texts(files@);
        if is_image_file(name.as_str()) {
            files.push(name);
            assert(texts(files@) =~= before.push(name@));
        }
    }
    proof {
        assert(texts(all).take(all.len() as int) == texts(all));
    }
    files
}

/// An episode's record that may be absent, as plain values.
pub open spec fn meta_view(meta: Option<EpisodeMeta>) -> Option<EpisodeMetaView> {
    match meta {
        Some(m) => Some(m@),
        None => None,
    }
}

/// A directory's listing that may be absent, as plain values.
pub open spec fn listing_view(listing: Option<Vec<String>>) -> Option<Seq<Seq<char>>> {
    match listing {
        Some(names) => Some(texts(names@)),
        None => None,
    }
}

/// The entry that is loaded from an episode's directory: none where the
/// record or the listing could not be had, or where the directory's name
/// is no episode identity; else the record, under that identity, with the
/// page files of the listing.
pub open spec fn loaded_episode(
    dir_name: Seq<char>,
    root_dir: Seq<char>,
    meta: Option<EpisodeMetaView>,
    listing: Option<Seq<Seq<char>>>,
) -> Option<EpisodeCacheView> {
    match (meta, listing, parsed_u32(dir_name)) {
        (Some(record), Some(names), Some(id)) => Some(
            EpisodeCacheView {
                id,
                title: record.title,
                files: image_names(names),
                paths: record.paths,
                host: record.host,
                ord: record.ord,
                root_dir,
            },
        ),
        _ => None,
    }
}

/// The record of an entry.
pub open spec fn record_of(entry: EpisodeCacheView) -> EpisodeMetaView {
    EpisodeMetaView { title: entry.title, ord: entry.ord, paths: entry.paths, host: entry.host }
}

impl EpisodeCache {
    /// Makes the entry of an episode from what was read in its directory:
    /// the directory's name and path, the record, and the names of the
    /// files in it. `None` stands for what could not be read.
    pub fn load(
        dir_name: &str,
        root_dir: &str,
        meta: Option<EpisodeMeta>,
        listing: Option<Vec<String>>,
    ) -> (entry: Option<EpisodeCache>)
        ensures
            entry_view(entry) == loaded_episode(
                dir_name@,
                root_dir@,
                meta_view(meta),
                listing_view(listing),
            ),
    {
        let record = match meta {
            Some(record) => record,
            None => {
                return None;
            },
        };
        let names = match listing {
            Some(names) => names,
            None => {
                return None;
            },
        };
        let id = match parse_u32(dir_name) {
            Some(id) => id,
            None => {
                return None;
            },
        };
        Some(
            EpisodeCache {
                id,
                title: record.title,
                files: image_files(names),
                paths: record.paths,
                host: record.host,
                ord: record.ord,
                root_dir: root_dir.to_owned(),
            },
        )
    }

    /// The record that persisting the entry writes.
    pub fn sync(&self) -> (record: EpisodeMeta)
        ensures
            record@ == record_of(self@),
    {
        EpisodeMeta {
            title: self.title.clone(),
            ord: self.ord,
            paths: clone_texts(&self.paths),
            host: self.host.clone(),
        }
    }
}

/// An entry that may be absent, as plain values.
pub open spec fn entry_view(entry: Option<EpisodeCache>) -> Option<EpisodeCacheView> {
    match entry {
        Some(e) => Some(e@),
        None => None,
    }
}

/// An entry that was persisted is loaded again as it was, but for the
/// files, which are those found in the directory: nothing of the record is
/// lost or changed on the way, and the page order stays.
pub proof fn law_load_after_sync(entry: EpisodeCacheView, listing: Seq<Seq<char>>)
    ensures
        loaded_episode(
            decimal_of(entry.id as nat),
            entry.root_dir,
            Some(record_of(entry)),
            Some(listing),
        ) == Some(EpisodeCacheView { files: image_names(listing), ..entry }),
{
    law_decimal_round_trip(entry.id);
}

/// What is recorded of a work.
#[derive(Debug, Clone)]
pub struct ComicMeta {
    pub title: String,
    pub author_names: Vec<String>,
    pub tags: Vec<String>,
}

/// A work's record as plain values.
pub struct ComicMetaView {
    pub title: Seq<char>,
    pub author_names: Seq<Seq<char>>,
    pub tags: Seq<Seq<char>>,
}

impl View for ComicMeta {
    type V = ComicMetaView;

    open spec fn view(&self) -> ComicMetaView {
        ComicMetaView {
            title: self.title@,
            author_names: texts(self.author_names@),
            tags: texts(self.tags@),
        }
    }
}

/// The cache entry of a work: its record and the entries of its episodes,
/// each under the episode's identity.
#[derive(Debug, Clone)]
pub struct ComicCache {
    /// The work's identity, which names its directory.
    pub id: u32,
    pub title: String,
    pub author_names: Vec<String>,
    pub tags: Vec<String>,
    pub episodes: HashMap<u32, EpisodeCache>,
}

/// A work's cache entry as plain values.
pub struct ComicCacheView {
    pub id: u32,
    pub title: Seq<char>,
    pub author_names: Seq<Seq<char>>,
    pub tags: Seq<Seq<char>>,
    pub episodes: Map<u32, EpisodeCacheView>,
}

impl View for ComicCache {
    type V = ComicCacheView;

    open spec fn view(&self) -> ComicCacheView {
        ComicCacheView {
            id: self.id,
            title: self.title@,
            author_names: texts(self.author_names@),
            tags: texts(self.tags@),
            episodes: episode_views(self.episodes@),
        }
    }
}

/// The entries of a map of episodes as plain values.
pub open spec fn episode_views(episodes: Map<u32, EpisodeCache>) -> Map<u32, EpisodeCacheView> {
    episodes.map_values(|e: EpisodeCache| e@)
}

/// A subdirectory of a work's directory, as it was read: its name and
/// path, the record in it, and the names of the files in it. `None` stands
/// for what could not be read.
#[derive(Debug)]
pub struct EpisodeDir {
    pub name: String,
    pub root_dir: String,
    pub meta: Option<EpisodeMeta>,
    pub listing: Option<Vec<String>>,
}

/// A subdirectory as plain values.
pub struct EpisodeDirView {
    pub name: Seq<char>,
    pub root_dir: Seq<char>,
    pub meta: Option<EpisodeMetaView>,
    pub listing: Option<Seq<Seq<char>>>,
}

impl View for EpisodeDir {
    type V = EpisodeDirView;

    open spec fn view(&self) -> EpisodeDirView {
        EpisodeDirView {
            name: self.name@,
            root_dir: self.root_dir@,
            meta: meta_view(self.meta),
            listing: listing_view(self.listing),
        }
    }
}

/// A list of subdirectories as plain values.
pub open spec fn dir_views(dirs: Seq<EpisodeDir>) -> Seq<EpisodeDirView> {
    dirs.map_values(|dir: EpisodeDir| dir@)
}

/// What loading a work gave: its entry, and the names of the
/// subdirectories that hold no loadable episode and are to be removed.
#[derive(Debug)]
pub struct LoadedComic {
    pub comic: ComicCache,
    pub corrupt: Vec<String>,
}

/// The episode that a subdirectory holds, if it holds one that can be
/// loaded.
pub open spec fn episode_in(dir: EpisodeDirView) -> Option<EpisodeCacheView> {
    loaded_episode(dir.name, dir.root_dir, dir.meta, dir.listing)
}

/// The episodes that are loaded from the subdirectories, each under its
/// identity, which is the one that its directory's name writes. Where two
/// names write the same identity, the later directory stands.
pub open spec fn episodes_of(dirs: Seq<EpisodeDirView>) -> Map<u32, EpisodeCacheView>
    decreases dirs.len(),
{
    if dirs.len() == 0 {
        Map::<u32, EpisodeCacheView>::empty()
    } else {
        let before = episodes_of(dirs.drop_last());
        match episode_in(dirs.last()) {
            Some(episode) => before.insert(episode.id, episode),
            None => before,
        }
    }
}

/// The names of the corrupt subdirectories, in their order: those from
/// which no episode can be loaded, be it for their record, their listing
/// or their name.
pub open spec fn corrupt_dirs(dirs: Seq<EpisodeDirView>) -> Seq<Seq<char>>
    decreases dirs.len(),
{
    if dirs.len() == 0 {
        Seq::<Seq<char>>::empty()
    } else {
        let before = corrupt_dirs(dirs.drop_last());
        if episode_in(dirs.last()) is None {
            before.push(dirs.last().name)
        } else {
            before
        }
    }
}

/// A work's record that may be absent, as plain values.
pub open spec fn comic_meta_view(meta: Option<ComicMeta>) -> Option<ComicMetaView> {
    match meta {
        Some(m) => Some(m@),
        None => None,
    }
}

/// The entry that is loaded from a work's directory: none without a
/// record or under a name that is no work identity; else the record, under
/// that identity, with the episodes of the subdirectories. A corrupt
/// subdirectory does not keep the work from being loaded.
pub open spec fn loaded_work(
    dir_name: Seq<char>,
    meta: Option<ComicMetaView>,
    dirs: Seq<EpisodeDirView>,
) -> Option<ComicCacheView> {
    match (meta, parsed_u32(dir_name)) {
        (Some(record), Some(id)) => Some(
            ComicCacheView {
                id,
                title: record.title,
                author_names: record.author_names,
                tags: record.tags,
                episodes: episodes_of(dirs),
            },
        ),
        _ => None,
    }
}

/// The record of a work's entry.
pub open spec fn work_record_of(work: ComicCacheView) -> ComicMetaView {
    ComicMetaView { title: work.title, author_names: work.author_names, tags: work.tags }
}

/// The work that was loaded, if one was, as plain values.
pub open spec fn loaded_view(loaded: Option<LoadedComic>) -> Option<ComicCacheView> {
    match loaded {
        Some(l) => Some(l.comic@),
        None => None,
    }
}

/// Every episode of a loaded work has the identity that it is filed
/// under.
pub proof fn law_episodes_are_filed_by_identity(dirs: Seq<EpisodeDirView>)
    ensures
        forall|id: u32| #[trigger]
            episodes_of(dirs).contains_key(id) ==> episodes_of(dirs)[id].id == id,
    decreases dirs.len(),
{
    if dirs.len() > 0 {
        let before = episodes_of(dirs.drop_last());
        law_episodes_are_filed_by_identity(dirs.drop_last());
        assert forall|id: u32| #[trigger]
            episodes_of(dirs).contains_key(id) implies episodes_of(dirs)[id].id == id by {
            match episode_in(dirs.last()) {
                Some(episode) => {
                    if id != episode.id {
                        assert(before.contains_key(id));
                    }
                },
                None => {},
            }
        }
    }
}

/// A work that was persisted is loaded again under the identity of its
/// directory, with the title and the rest of its record as they were
/// written, whatever its subdirectories hold.
pub proof fn law_work_load_after_sync(work: ComicCacheView, dirs: Seq<EpisodeDirView>)
    ensures
        loaded_work(decimal_of(work.id as nat), Some(work_record_of(work)), dirs) == Some(
            ComicCacheView { episodes: episodes_of(dirs), ..work },
        ),
{
    law_decimal_round_trip(work.id);
}

impl ComicCache {
    /// Makes the entry of a work from what was read in its directory: the
    /// directory's name, the record, or `None` where it could not be read,
    /// and the subdirectories as they were read.
    ///
    /// Nothing is loaded without a record or under a name that is no work
    /// identity. Else the work has the episodes that its subdirectories
    /// hold, each under its identity, and the subdirectories that hold
    /// none are named as corrupt.
    pub fn load(dir_name: &str, meta: Option<ComicMeta>, dirs: Vec<EpisodeDir>) -> (loaded: Option<
        LoadedComic,
    >)
        ensures
            loaded_view(loaded) == loaded_work(
                dir_name@,
                comic_meta_view(meta),
                dir_views(dirs@),
            ),
            loaded matches Some(l) ==> texts(l.corrupt@) == corrupt_dirs(dir_views(dirs@)),
            loaded matches Some(l) ==> forall|id: u32| #[trigger]
                l.comic.episodes@.contains_key(id) ==> l.comic.episodes@[id].id == id,
    {
        let record = match meta {
            Some(record) => record,
            None => {
                return None;
            },
        };
        let id = match parse_u32(dir_name) {
            Some(id) => id,
            None => {
                return None;
            },
        };
        let ghost all = dirs@;
        let mut episodes: HashMap<u32, EpisodeCache> = HashMap::new();
        let mut corrupt: Vec<String> = Vec::new();
        proof {
            assert(episode_views(episodes@) =~= episodes_of(dir_views(all.take(0))));
        }
        for dir in it: dirs
            invariant
                it.seq() == all,
                episode_views(episodes@) == episodes_of(dir_views(all.take(it.index() as int))),
                texts(corrupt@) == corrupt_dirs(dir_views(all.take(it.index() as int))),
                forall|k: u32| #[trigger] episodes@.contains_key(k) ==> episodes@[k].id == k,
        {
            proof {
                assert(dir_views(all.take(it.index() + 1)).drop_last() =~= dir_views(
                    all.take(it.index() as int),
                ));
                assert(dir_views(all.take(it.index() + 1)).last() == dir@);
            }
            let ghost before = texts(corrupt@);
            let ghost held = episodes@;
            let EpisodeDir { name, root_dir, meta, listing } = dir;
            match EpisodeCache::load(name.as_str(), root_dir.as_str(), meta, listing) {
                Some(episode) => {
                    let ghost entry = episode;
                    episodes.insert(episode.id, episode);
                    assert(episode_views(episodes@) =~= episode_views(held).insert(
                        entry.id,
                        entry@,
                    ));
                },
                None => {
                    corrupt.push(name);
                    assert(texts(corrupt@) =~= before.push(name@));
                },
            }
        }
        proof {
            assert(all.take(all.len() as int) == all);
        }
        Some(
            LoadedComic {
                comic: ComicCache {
                    id,
                    title: record.title,
                    author_names: record.author_names,
                    tags: record.tags,
                    episodes,
                },
                corrupt,
            },
        )
    }

    /// The entry of the episode `id`, if the work has one.
    pub fn get_episode(&self, id: u32) -> (entry: Option<&EpisodeCache>)
        ensures
            entry == if self.episodes@.contains_key(id) {
                Some(&self.episodes@[id])
            } else {
                None::<&EpisodeCache>
            },
    {
        self.episodes.get(&id)
    }

    /// The record that persisting the work writes.
    pub fn sync(&self) -> (record: ComicMeta)
        ensures
            record@ == work_record_of(self@),
    {
        ComicMeta {
            title: self.title.clone(),
            author_names: clone_texts(&self.author_names),
            tags: clone_texts(&self.tags),
        }
    }
}

/// A directory of the cache's root: its name, and the work that was loaded
/// from it, if one could be.
#[derive(Debug)]
pub struct ComicDir {
    pub name: String,
    pub comic: Option<ComicCache>,
}

/// The cache: the entries of the works, each under the work's identity.
#[derive(Debug, Clone)]
pub struct Cache {
    pub comics: HashMap<u32, ComicCache>,
}

/// What loading the cache gave: the cache, and the names of the
/// directories that hold no loadable work and are to be removed.
#[derive(Debug)]
pub struct LoadedCache {
    pub cache: Cache,
    pub corrupt: Vec<String>,
}

/// The works that were loaded from the directories, each under its own
/// identity. Where two have the same identity, the later stands.
pub open spec fn comics_of(dirs: Seq<ComicDir>) -> Map<u32, ComicCache>
    decreases dirs.len(),
{
    if dirs.len() == 0 {
        Map::<u32, ComicCache>::empty()
    } else {
        let before = comics_of(dirs.drop_last());
        match dirs.last().comic {
            Some(comic) => before.insert(comic.id, comic),
            None => before,
        }
    }
}

/// The names of the directories from which no work was loaded, in their
/// order.
pub open spec fn corrupt_comics(dirs: Seq<ComicDir>) -> Seq<Seq<char>>
    decreases dirs.len(),
{
    if dirs.len() == 0 {
        Seq::<Seq<char>>::empty()
    } else {
        let before = corrupt_comics(dirs.drop_last());
        if dirs.last().comic is None {
            before.push(dirs.last().name@)
        } else {
            before
        }
    }
}

impl Cache {
    /// Makes the cache from the directories of its root and what was
    /// loaded from each: the works that were loaded, and the names of the
    /// directories to remove.
    pub fn load(dirs: Vec<ComicDir>) -> (loaded: LoadedCache)
        ensures
            loaded.cache.comics@ == comics_of(dirs@),
            texts(loaded.corrupt@) == corrupt_comics(dirs@),
            forall|id: u32| #[trigger]
                loaded.cache.comics@.contains_key(id) ==> loaded.cache.comics@[id].id == id,
    {
        let ghost all = dirs@;
        let mut comics: HashMap<u32, ComicCache> = HashMap::new();
        let mut corrupt: Vec<String> = Vec::new();
        for dir in it: dirs
            invariant
                it.seq() == all,
                comics@ == comics_of(all.take(it.index() as int)),
                texts(corrupt@) == corrupt_comics(all.take(it.index() as int)),
                forall|id: u32| #[trigger] comics@.contains_key(id) ==> comics@[id].id == id,
        {
            proof {
                assert(all.take(it.index() + 1).drop_last() == all.take(it.index() as int));
                assert(all.take(it.index() + 1).last() == dir);
            }
            let ghost before = texts(corrupt@);
            match dir.comic {
                Some(comic) => {
                    comics.insert(comic.id, comic);
                },
                None => {
                    corrupt.push(dir.name);
                    assert(texts(corrupt@) =~= before.push(dir.name@));
                },
            }
        }
        proof {
            assert(all.take(all.len() as int) == all);
        }
        LoadedCache { cache: Cache { comics }, corrupt }
    }

    /// The entry of the work `id`, if the cache has one.
    pub fn get_comic(&self, id: u32) -> (entry: Option<&ComicCache>)
        ensures
            entry == if self.comics@.contains_key(id) {
                Some(&self.comics@[id])
            } else {
                None::<&ComicCache>
            },
    {
        self.comics.get(&id)
    }
}

} // verus!
