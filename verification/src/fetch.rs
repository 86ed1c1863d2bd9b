//! The fetch orchestrator: what a run of `fetch` decides. It makes or
//! refreshes the work's cache entry, chooses the episodes to fetch, and
//! says how the run ends.
use std::collections::HashMap;
use vstd::prelude::*;
use crate::cache::missing;
use crate::cache::ComicCache;
use crate::cache::EpisodeCache;
use crate::network::ComicInfo;
use crate::network::EpisodeInfo;
use crate::progress::Msg;
use crate::range::apply_range;
use crate::range::range_filter;
use crate::range::sort_by_ord;
use crate::range::sorted_by_ord;
use crate::range::Bounds;
use crate::text::clone_texts;
use crate::text::texts;

verus! {

broadcast use vstd::std_specs::hash::group_hash_axioms;

/// How a run ends.
#[derive(Debug, Clone, Copy, PartialEq, Eq, Structural)]
pub enum FetchStatus {
    /// Every chosen episode is complete.
    Completed,
    /// No episode was left to fetch.
    NothingToDo,
    /// The run was interrupted.
    Cancelled,
    /// The work's directory or its cover could not be had. This is the
    /// one ending that is a failure.
    SetupFailed,
}

/// Which of the two that a run waits for came first.
#[derive(Debug, Clone, Copy, PartialEq, Eq, Structural)]
pub enum Finisher {
    /// All workers are done.
    Workers,
    /// The interrupt signal.
    Interrupt,
}

/// The cache entry of the work `id` for a run: the cached entry under the
/// title that the remote index has now, or, where the cache has none, a
/// new entry made of the index, without episodes.
pub fn work_entry(id: u32, info: &ComicInfo, cached: Option<ComicCache>) -> (work: ComicCache)
    ensures
        work.id == id,
        work.title@ == info.title@,
        cached matches Some(c) ==> {
            &&& work.author_names == c.author_names
            &&& work.tags == c.tags
            &&& work.episodes == c.episodes
        },
        cached is None ==> {
            &&& texts(work.author_names@) == texts(info.author_name@)
            &&& texts(work.tags@) == texts(info.styles@)
            &&& work.episodes@ == Map::<u32, EpisodeCache>::empty()
        },
{
    match cached {
        Some(entry) => ComicCache {
            id,
            title: info.title.clone(),
            author_names: entry.author_names,
            tags: entry.tags,
            episodes: entry.episodes,
        },
        None => ComicCache {
            id,
            title: info.title.clone(),
            author_names: clone_texts(&info.author_name),
            tags: clone_texts(&info.styles),
            episodes: HashMap::new(),
        },
    }
}

/// Whether an episode is to be fetched: it can be read, being free or not
/// locked, and the cache has no entry for it or one that lacks files.
pub open spec fn is_wanted(episode: EpisodeInfo, episodes: Map<u32, EpisodeCache>) -> bool {
    &&& !(episode.is_locked && !episode.is_in_free)
    &&& episodes.contains_key(episode.id) ==> missing(
        episodes[episode.id]@.paths,
        episodes[episode.id]@.files,
    ).len() > 0
}

/// The episodes of an index that are to be fetched, in their order.
pub open spec fn candidates_of(list: Seq<EpisodeInfo>, episodes: Map<u32, EpisodeCache>) -> Seq<
    EpisodeInfo,
> {
    list.filter(|episode: EpisodeInfo| is_wanted(episode, episodes))
}

/// The candidates are the wanted episodes of the index, and no others:
/// no episode that is locked and not free is among them, and none that is
/// complete in the cache.
pub proof fn law_candidates_are_the_wanted(list: Seq<EpisodeInfo>, episodes: Map<u32, EpisodeCache>)
    ensures
        candidates_of(list, episodes).len() <= list.len(),
        forall|i: int|
            0 <= i < candidates_of(list, episodes).len() ==> is_wanted(
                #[trigger] candidates_of(list, episodes)[i],
                episodes,
            ),
        forall|j: int|
            0 <= j < list.len() && is_wanted(#[trigger] list[j], episodes) ==> candidates_of(
                list,
                episodes,
            ).contains(list[j]),
{
    let keep = |episode: EpisodeInfo| is_wanted(episode, episodes);
    list.lemma_filter_len(keep);
    assert forall|i: int| 0 <= i < list.filter(keep).len() implies keep(
        #[trigger] list.filter(keep)[i],
    ) by {
        list.lemma_filter_pred(keep, i);
    }
    assert forall|j: int| 0 <= j < list.len() && keep(#[trigger] list[j]) implies list.filter(
        keep,
    ).contains(list[j]) by {
        list.lemma_filter_contains(keep, j);
    }
}

/// Whether `episode` is to be fetched.
pub fn wanted(episode: &EpisodeInfo, work: &ComicCache) -> (yes: bool)
    ensures
        yes == is_wanted(*episode, work.episodes@),
{
    if episode.is_locked && !episode.is_in_free {
        return false;
    }
    match work.get_episode(episode.id) {
        Some(entry) => !entry.is_complete(),
        None => true,
    }
}

/// The episodes of an index that are to be fetched, in their order.
pub fn candidates(list: Vec<EpisodeInfo>, work: &ComicCache) -> (out: Vec<EpisodeInfo>)
    ensures
        out@ == candidates_of(list@, work.episodes@),
{
    let ghost all = list@;
    let ghost keep = |episode: EpisodeInfo| is_wanted(episode, work.episodes@);
    let mut out: Vec<EpisodeInfo> = Vec::new();
    for episode in it: list
        invariant
            it.seq() == all,
            keep == |episode: EpisodeInfo| is_wanted(episode, work.episodes@),
            out@ == all.take(it.index() as int).filter(keep),
    {
        proof {
            reveal(Seq::filter);
            assert(all.take(it.index() + 1).drop_last() == all.take(it.index() as int));
        }
        if wanted(&episode, work) {
            out.push(episode);
        }
    }
    proof {
        assert(all.take(all.len() as int) == all);
    }
    out
}

/// What a run is to do.
#[derive(Debug)]
pub struct FetchPlan {
    /// The work's cache entry, to be persisted before anything is fetched.
    pub work: ComicCache,
    /// Whether the work's cover is to be fetched first.
    pub fetch_cover: bool,
    /// The episodes to fetch, one worker each.
    pub episodes: Vec<EpisodeInfo>,
}

/// Plans a run: the work's entry, whether its cover is to be fetched, and
/// the episodes to fetch, which are those of the index that can be read
/// and are not complete in the cache, as far as the range selects them, in
/// ascending order of their keys.
pub fn plan_fetch(
    id: u32,
    info: ComicInfo,
    cached: Option<ComicCache>,
    cover_present: bool,
    range: &Vec<Bounds>,
) -> (plan: FetchPlan)
    ensures
        plan.fetch_cover == !cover_present,
        plan.work.id == id,
        plan.work.title@ == info.title@,
        cached matches Some(c) ==> {
            &&& plan.work.author_names == c.author_names
            &&& plan.work.tags == c.tags
            &&& plan.work.episodes == c.episodes
        },
        cached is None ==> {
            &&& texts(plan.work.author_names@) == texts(info.author_name@)
            &&& texts(plan.work.tags@) == texts(info.styles@)
            &&& plan.work.episodes@ == Map::<u32, EpisodeCache>::empty()
        },
        plan.episodes@ == sorted_by_ord(
            range_filter(candidates_of(info.ep_list@, plan.work.episodes@), range@),
        ),
{
    let work = work_entry(id, &info, cached);
    let open_episodes = candidates(info.ep_list, &work);
    let episodes = sort_by_ord(apply_range(open_episodes, range));
    FetchPlan { work, fetch_cover: !cover_present, episodes }
}

/// How a run stands after its setup: it has failed where the work's
/// directory or its cover is not there, it has nothing to do where no
/// episode was chosen, else it goes on.
pub open spec fn setup_status(root_ready: bool, cover_ready: bool, episodes: nat) -> Option<
    FetchStatus,
> {
    if !root_ready || !cover_ready {
        Some(FetchStatus::SetupFailed)
    } else if episodes == 0 {
        Some(FetchStatus::NothingToDo)
    } else {
        None
    }
}

/// No worker is started before the setup is done: a run goes on past its
/// setup exactly when the work's directory with its record is there, the
/// cover is there, and an episode was chosen. Without the directory or the
/// cover it has failed, whatever was chosen.
pub proof fn law_workers_follow_the_setup(root_ready: bool, cover_ready: bool, episodes: nat)
    ensures
        setup_status(root_ready, cover_ready, episodes) is None <==> root_ready && cover_ready
            && episodes > 0,
        setup_status(root_ready, cover_ready, episodes) == Some(FetchStatus::SetupFailed)
            <==> !root_ready || !cover_ready,
        setup_status(root_ready, cover_ready, episodes) == Some(FetchStatus::NothingToDo)
            <==> root_ready && cover_ready && episodes == 0,
{
}

/// Says how a run stands after its setup: `None` where the workers are to
/// be started, else the status that the run ends with.
pub fn after_setup(root_ready: bool, cover_ready: bool, plan: &FetchPlan) -> (status: Option<
    FetchStatus,
>)
    ensures
        status == setup_status(root_ready, cover_ready, plan.episodes@.len()),
{
    if !root_ready || !cover_ready {
        Some(FetchStatus::SetupFailed)
    } else if plan.episodes.len() == 0 {
        Some(FetchStatus::NothingToDo)
    } else {
        None
    }
}

/// Ends a run by what came first: the message for the progress aggregator
/// and the status of the run. An interrupt that comes first cancels the
/// run, whatever the workers are at.
pub fn conclude(first: Finisher) -> (end: (Msg, FetchStatus))
    ensures
        first is Workers ==> end == (Msg::Done, FetchStatus::Completed),
        first is Interrupt ==> end == (Msg::Halt, FetchStatus::Cancelled),
{
    match first {
        Finisher::Workers => (Msg::Done, FetchStatus::Completed),
        Finisher::Interrupt => (Msg::Halt, FetchStatus::Cancelled),
    }
}

/// Whether a status is a failure of the run.
pub fn is_failure(status: FetchStatus) -> (failed: bool)
    ensures
        failed == (status is SetupFailed),
{
    match status {
        FetchStatus::SetupFailed => true,
        _ => false,
    }
}

} // verus!
