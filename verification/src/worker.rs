//! The download worker of one episode, as a machine that is told what
//! happened and answers what to do next. One pass runs from the look into
//! the cache to the last page; a pass that cannot be completed is followed
//! by a wait and another pass, without end, until a pass completes or the
//! run is cancelled.
//!
//! The caller performs each action and comes back with the event that
//! tells how it went: `Load` is answered by `Loaded`, `Resolve` by
//! `Resolved`, `Persist` by `Persisted`, `Authorize` by `Authorized`,
//! `Transfer` by `Transferred`, `Write` by `Written`, `Report` by
//! `Reported`, `Wait` by `Waited`, any of them by `Failed` where it could
//! not be done. `Cancel` may come at any time.
use vstd::prelude::*;
use crate::cache::base_names;
use crate::cache::entry_view;
use crate::cache::law_written_pass_completes;
use crate::cache::missing;
use crate::cache::EpisodeCache;
use crate::cache::EpisodeCacheView;
use crate::integrity::announced_text;
use crate::integrity::payload_accepted;
use crate::integrity::accept_transfer;
use crate::integrity::is_success;
use crate::integrity::transfer_accepted;
use crate::network::EpisodeImages;
use crate::network::EpisodeImagesView;
use crate::network::EpisodeInfo;
use crate::progress::Msg;
use crate::text::base_name;
use crate::text::base_name_of;
use crate::text::clone_texts;
use crate::text::texts;

verus! {

/// The seconds to wait after a pass that was not completed.
pub const RETRY_DELAY_SECS: u64 = 3;

/// Where a worker stands: what it waits for.
#[derive(Debug, Clone, Copy, PartialEq, Eq, Structural)]
pub enum Phase {
    /// A pass has begun; the look into the cache is awaited.
    Loading,
    /// The cache has no entry; the remote list of pages is awaited.
    Resolving,
    /// The new entry is being written to the cache.
    Persisting,
    /// What is missing is known; the addresses to fetch it from are
    /// awaited.
    Authorizing,
    /// A file is being transferred; it is verified when it arrives.
    Downloading,
    /// A verified file is being written into the episode's directory.
    Writing,
    /// The size of the file just written is being reported.
    Reporting,
    /// The pass was not completed; the end of the delay is awaited.
    Retrying,
    /// Every page is in the cache. The worker is done.
    Persisted,
    /// The run was cancelled. The worker is done.
    Cancelled,
}

/// What happened.
#[derive(Debug)]
pub enum WorkerEvent {
    /// The cache was looked into: the episode's entry, with the files that
    /// are in its directory now, or nothing.
    Loaded(Option<EpisodeCache>),
    /// The remote side has named the episode's pages.
    Resolved(EpisodeImages),
    /// The entry was written to the cache.
    Persisted,
    /// The remote side has given the addresses of the files asked for, in
    /// the order asked.
    Authorized(Vec<String>),
    /// A reply to a transfer has arrived: its status, its bytes, and the
    /// checksum that the server announced, if it announced one.
    Transferred { status: u16, bytes: Vec<u8>, checksum: Option<String> },
    /// The file was written.
    Written,
    /// The size was reported.
    Reported,
    /// The delay is over.
    Waited,
    /// The action could not be carried out.
    Failed,
    /// The run is cancelled.
    Cancel,
}

/// What to do next.
#[derive(Debug)]
pub enum WorkerAction {
    /// Look for the episode's entry in the cache.
    Load,
    /// Ask the remote side for the pages of the episode.
    Resolve { episode: u32 },
    /// Write the entry to the cache.
    Persist { entry: EpisodeCache },
    /// Ask the remote side for the addresses of these paths.
    Authorize { paths: Vec<String> },
    /// Fetch the file at `url`; it will be stored as `file_name`.
    Transfer { url: String, file_name: String },
    /// Write the bytes into the episode's directory as `file_name`.
    Write { file_name: String, bytes: Vec<u8> },
    /// Send the message to the progress aggregator.
    Report { message: Msg },
    /// Wait for so many seconds.
    Wait { seconds: u64 },
    /// Nothing: the episode is complete.
    Finish,
    /// Nothing: the run was cancelled.
    Stop,
}

/// An event as plain values.
pub enum EventView {
    Loaded(Option<EpisodeCacheView>),
    Resolved(EpisodeImagesView),
    Persisted,
    Authorized(Seq<Seq<char>>),
    Transferred { status: u16, bytes: Seq<u8>, checksum: Option<Seq<char>> },
    Written,
    Reported,
    Waited,
    Failed,
    Cancel,
}

/// An action as plain values.
pub enum ActionView {
    Load,
    Resolve { episode: u32 },
    Persist { entry: EpisodeCacheView },
    Authorize { paths: Seq<Seq<char>> },
    Transfer { url: Seq<char>, file_name: Seq<char> },
    Write { file_name: Seq<char>, bytes: Seq<u8> },
    Report { message: Msg },
    Wait { seconds: u64 },
    Finish,
    Stop,
}

impl View for WorkerEvent {
    type V = EventView;

    open spec fn view(&self) -> EventView {
        match *self {
            WorkerEvent::Loaded(entry) => EventView::Loaded(entry_view(entry)),
            WorkerEvent::Resolved(images) => EventView::Resolved(images@),
            WorkerEvent::Persisted => EventView::Persisted,
            WorkerEvent::Authorized(urls) => EventView::Authorized(texts(urls@)),
            WorkerEvent::Transferred { status, bytes, checksum } => EventView::Transferred {
                status,
                bytes: bytes@,
                checksum: announced_text(checksum),
            },
            WorkerEvent::Written => EventView::Written,
            WorkerEvent::Reported => EventView::Reported,
            WorkerEvent::Waited => EventView::Waited,
            WorkerEvent::Failed => EventView::Failed,
            WorkerEvent::Cancel => EventView::Cancel,
        }
    }
}

impl View for WorkerAction {
    type V = ActionView;

    open spec fn view(&self) -> ActionView {
        match *self {
            WorkerAction::Load => ActionView::Load,
            WorkerAction::Resolve { episode } => ActionView::Resolve { episode },
            WorkerAction::Persist { entry } => ActionView::Persist { entry: entry@ },
            WorkerAction::Authorize { paths } => ActionView::Authorize { paths: texts(paths@) },
            WorkerAction::Transfer { url, file_name } => ActionView::Transfer {
                url: url@,
                file_name: file_name@,
            },
            WorkerAction::Write { file_name, bytes } => ActionView::Write {
                file_name: file_name@,
                bytes: bytes@,
            },
            WorkerAction::Report { message } => ActionView::Report { message },
            WorkerAction::Wait { seconds } => ActionView::Wait { seconds },
            WorkerAction::Finish => ActionView::Finish,
            WorkerAction::Stop => ActionView::Stop,
        }
    }
}

/// A worker as plain values.
pub struct WorkerView {
    pub phase: Phase,
    /// The episode: its identity, title and ordering key, and its
    /// directory.
    pub episode: u32,
    pub title: Seq<char>,
    pub ord: i64,
    pub root_dir: Seq<char>,
    /// The episode's cache entry, once it is known.
    pub entry: Option<EpisodeCacheView>,
    /// The paths that were missing when the pass began.
    pub required: Seq<Seq<char>>,
    /// The addresses of those paths.
    pub urls: Seq<Seq<char>>,
    /// How many of the required files are transferred, verified, written
    /// and reported in this pass.
    pub done: nat,
    /// The size of the file that is being written.
    pub pending: usize,
}

/// Whether a worker is past the diff of its pass: it fetches, or is done
/// by completion.
pub open spec fn is_past_diff(phase: Phase) -> bool {
    phase is Authorizing || phase is Downloading || phase is Writing || phase is Reporting
        || phase is Persisted
}

/// What holds of every worker: an entry is there while it is being
/// written and from the diff on; the required paths are those that the
/// entry's directory lacked at the diff; while files are fetched each
/// required path has its address and some file is still to come; and a
/// worker that is done by completion has all of them.
pub open spec fn well_formed(s: WorkerView) -> bool {
    &&& s.phase is Persisting ==> s.entry is Some
    &&& is_past_diff(s.phase) ==> s.entry is Some && s.required == missing(
        s.entry->0.paths,
        s.entry->0.files,
    )
    &&& s.phase is Authorizing ==> s.required.len() > 0
    &&& (s.phase is Downloading || s.phase is Writing || s.phase is Reporting) ==> s.urls.len()
        == s.required.len() && s.done < s.required.len()
    &&& s.phase is Persisted ==> s.done == s.required.len()
}

/// The files that are in the episode's directory as far as the worker
/// knows: those found at the diff, and those written since.
pub open spec fn present_files(s: WorkerView) -> Seq<Seq<char>> {
    s.entry->0.files + base_names(s.required.take(s.done as int))
}

/// The worker at the start of its first pass.
pub open spec fn initial(episode: u32, title: Seq<char>, ord: i64, root_dir: Seq<char>) -> WorkerView {
    WorkerView {
        phase: Phase::Loading,
        episode,
        title,
        ord,
        root_dir,
        entry: None,
        required: Seq::empty(),
        urls: Seq::empty(),
        done: 0,
        pending: 0,
    }
}

/// A pass that is given up: the worker waits, then begins another.
pub open spec fn given_up(s: WorkerView) -> (WorkerView, ActionView) {
    (WorkerView { phase: Phase::Retrying, ..s }, ActionView::Wait { seconds: RETRY_DELAY_SECS })
}

/// The entry that is made for an episode the cache does not know. No file
/// is taken to be on disk: a directory whose record cannot be read is
/// removed as a whole, so a directory without a record holds no page.
pub open spec fn fresh_entry(s: WorkerView, images: EpisodeImagesView) -> EpisodeCacheView {
    EpisodeCacheView {
        id: s.episode,
        title: s.title,
        files: Seq::empty(),
        paths: images.paths,
        host: images.host,
        ord: s.ord,
        root_dir: s.root_dir,
    }
}

/// The diff of an entry against its directory: the worker is done where
/// nothing is missing, else it asks for the addresses of what is.
pub open spec fn diffed(s: WorkerView, entry: EpisodeCacheView) -> (WorkerView, ActionView) {
    let required = missing(entry.paths, entry.files);
    let t = WorkerView {
        entry: Some(entry),
        required,
        urls: Seq::empty(),
        done: 0,
        pending: 0,
        ..s
    };
    if required.len() == 0 {
        (WorkerView { phase: Phase::Persisted, ..t }, ActionView::Finish)
    } else {
        (WorkerView { phase: Phase::Authorizing, ..t }, ActionView::Authorize { paths: required })
    }
}

/// The transfer of the required file number `index`.
pub open spec fn transfer_of(s: WorkerView, index: int) -> ActionView {
    ActionView::Transfer { url: s.urls[index], file_name: base_name_of(s.required[index]) }
}

/// The worker and its action after an event.
///
/// A worker that is done stays as it is, whatever comes. A cancellation
/// ends every other worker. Else the event that the phase awaits moves the
/// worker on, and any other event makes it give the pass up:
///
/// - the look into the cache leads to the diff where an entry is there,
///   else to the question for the pages;
/// - the pages make a new entry, which is written before anything else;
/// - the written entry leads to the diff;
/// - the addresses, one for each required path, start the first transfer;
/// - a file that arrives with a reply of success and is accepted under
///   its checksum is written under the name of its path; one that is not
///   accepted is dropped, and the pass with it;
/// - the written file is reported with its size;
/// - after the report the next file is transferred, or the worker is done
///   where that was the last;
/// - after the delay a new pass begins.
pub open spec fn transition(s: WorkerView, event: EventView) -> (WorkerView, ActionView) {
    if s.phase is Persisted {
        (s, ActionView::Finish)
    } else if s.phase is Cancelled {
        (s, ActionView::Stop)
    } else if event is Cancel {
        (WorkerView { phase: Phase::Cancelled, ..s }, ActionView::Stop)
    } else {
        match (s.phase, event) {
            (Phase::Loading, EventView::Loaded(Some(entry))) => diffed(s, entry),
            (Phase::Loading, EventView::Loaded(None)) => (
                WorkerView { phase: Phase::Resolving, ..s },
                ActionView::Resolve { episode: s.episode },
            ),
            (Phase::Resolving, EventView::Resolved(images)) => (
                WorkerView { phase: Phase::Persisting, entry: Some(fresh_entry(s, images)), ..s },
                ActionView::Persist { entry: fresh_entry(s, images) },
            ),
            (Phase::Persisting, EventView::Persisted) => diffed(s, s.entry->0),
            (Phase::Authorizing, EventView::Authorized(urls)) => if urls.len()
                == s.required.len() {
                let t = WorkerView { phase: Phase::Downloading, urls, done: 0, ..s };
                (t, transfer_of(t, 0))
            } else {
                given_up(s)
            },
            (
                Phase::Downloading,
                EventView::Transferred { status, bytes, checksum },
            ) => if transfer_accepted(status, bytes, checksum) {
                (
                    WorkerView { phase: Phase::Writing, pending: bytes.len() as usize, ..s },
                    ActionView::Write {
                        file_name: base_name_of(s.required[s.done as int]),
                        bytes,
                    },
                )
            } else {
                given_up(s)
            },
            (Phase::Writing, EventView::Written) => (
                WorkerView { phase: Phase::Reporting, ..s },
                ActionView::Report { message: Msg::Size(s.pending) },
            ),
            (Phase::Reporting, EventView::Reported) => if s.done + 1 == s.required.len() {
                (
                    WorkerView { phase: Phase::Persisted, done: s.done + 1, ..s },
                    ActionView::Finish,
                )
            } else {
                let t = WorkerView { phase: Phase::Downloading, done: s.done + 1, ..s };
                (t, transfer_of(t, t.done as int))
            },
            (Phase::Retrying, EventView::Waited) => (
                WorkerView { phase: Phase::Loading, ..s },
                ActionView::Load,
            ),
            _ => given_up(s),
        }
    }
}

/// The download worker of one episode.
#[derive(Debug)]
pub struct DownloadWorker {
    phase: Phase,
    episode: u32,
    title: String,
    ord: i64,
    root_dir: String,
    entry: Option<EpisodeCache>,
    required: Vec<String>,
    urls: Vec<String>,
    done: usize,
    pending: usize,
}

impl View for DownloadWorker {
    type V = WorkerView;

    closed spec fn view(&self) -> WorkerView {
        WorkerView {
            phase: self.phase,
            episode: self.episode,
            title: self.title@,
            ord: self.ord,
            root_dir: self.root_dir@,
            entry: entry_view(self.entry),
            required: texts(self.required@),
            urls: texts(self.urls@),
            done: self.done as nat,
            pending: self.pending,
        }
    }
}

impl DownloadWorker {
    #[verifier::type_invariant]
    spec fn inv(&self) -> bool {
        well_formed(self@)
    }

    /// The worker of an episode, at the start of its first pass. The first
    /// thing to do is to look into the cache: the worker awaits `Loaded`.
    pub fn new(episode: &EpisodeInfo, root_dir: &str) -> (worker: DownloadWorker)
        ensures
            worker@ == initial(episode.id, episode.title@, episode.ord, root_dir@),
    {
        let worker = DownloadWorker {
            phase: Phase::Loading,
            episode: episode.id,
            title: episode.title.clone(),
            ord: episode.ord,
            root_dir: root_dir.to_owned(),
            entry: None,
            required: Vec::new(),
            urls: Vec::new(),
            done: 0,
            pending: 0,
        };
        assert(worker@.required =~= Seq::<Seq<char>>::empty());
        assert(worker@.urls =~= Seq::<Seq<char>>::empty());
        worker
    }

    /// Where the worker stands.
    pub fn phase(&self) -> (phase: Phase)
        ensures
            phase == self@.phase,
    {
        self.phase
    }

    /// Whether the worker is done, by completion or by cancellation.
    pub fn is_done(&self) -> (done: bool)
        ensures
            done == (self@.phase is Persisted || self@.phase is Cancelled),
    {
        match self.phase {
            Phase::Persisted => true,
            Phase::Cancelled => true,
            _ => false,
        }
    }

    /// How many files this pass has to transfer.
    pub fn required_len(&self) -> (n: usize)
        ensures
            n == self@.required.len(),
    {
        self.required.len()
    }

    /// How many files this pass has transferred, verified, written and
    /// reported.
    pub fn done_len(&self) -> (n: usize)
        ensures
            n == self@.done,
    {
        self.done
    }

    /// Gives the pass up: the worker waits for the delay.
    fn give_up(self) -> (next: (DownloadWorker, WorkerAction))
        ensures
            (next.0@, next.1@) == given_up(self@),
    {
        proof {
            use_type_invariant(&self);
        }
        let DownloadWorker {
            phase: _,
            episode,
            title,
            ord,
            root_dir,
            entry,
            required,
            urls,
            done,
            pending,
        } = self;
        (
            DownloadWorker {
                phase: Phase::Retrying,
                episode,
                title,
                ord,
                root_dir,
                entry,
                required,
                urls,
                done,
                pending,
            },
            WorkerAction::Wait { seconds: RETRY_DELAY_SECS },
        )
    }

    /// The worker in another phase, with everything else as it is.
    fn to_phase(self, phase: Phase) -> (next: DownloadWorker)
        requires
            well_formed(WorkerView { phase, ..self@ }),
        ensures
            next@ == (WorkerView { phase, ..self@ }),
    {
        let DownloadWorker {
            phase: _,
            episode,
            title,
            ord,
            root_dir,
            entry,
            required,
            urls,
            done,
            pending,
        } = self;
        DownloadWorker {
            phase,
            episode,
            title,
            ord,
            root_dir,
            entry,
            required,
            urls,
            done,
            pending,
        }
    }

    /// Diffs the entry against its directory and starts what follows.
    fn diff(self, entry: EpisodeCache) -> (next: (DownloadWorker, WorkerAction))
        ensures
            (next.0@, next.1@) == diffed(self@, entry@),
    {
        let required = entry.not_downloaded();
        let DownloadWorker {
            phase: _,
            episode,
            title,
            ord,
            root_dir,
            entry: _,
            required: _,
            urls: _,
            done: _,
            pending: _,
        } = self;
        let urls: Vec<String> = Vec::new();
        assert(texts(urls@) =~= Seq::<Seq<char>>::empty());
        assert(texts(required@).len() == required@.len());
        if required.len() == 0 {
            (
                DownloadWorker {
                    phase: Phase::Persisted,
                    episode,
                    title,
                    ord,
                    root_dir,
                    entry: Some(entry),
                    required,
                    urls,
                    done: 0,
                    pending: 0,
                },
                WorkerAction::Finish,
            )
        } else {
            let paths = clone_texts(&required);
            (
                DownloadWorker {
                    phase: Phase::Authorizing,
                    episode,
                    title,
                    ord,
                    root_dir,
                    entry: Some(entry),
                    required,
                    urls,
                    done: 0,
                    pending: 0,
                },
                WorkerAction::Authorize { paths },
            )
        }
    }

    /// The transfer of the required file number `index`.
    fn transfer(&self, index: usize) -> (action: WorkerAction)
        requires
            index < self@.required.len(),
            index < self@.urls.len(),
        ensures
            action@ == transfer_of(self@, index as int),
    {
        let url = self.urls[index].clone();
        let file_name = base_name(self.required[index].as_str());
        WorkerAction::Transfer { url, file_name }
    }

    /// Takes an event and answers with the worker after it and the action
    /// to perform.
    pub fn step(self, event: WorkerEvent) -> (next: (DownloadWorker, WorkerAction))
        ensures
            (next.0@, next.1@) == transition(self@, event@),
    {
        proof {
            use_type_invariant(&self);
        }
        match self.phase {
            Phase::Persisted => {
                return (self, WorkerAction::Finish);
            },
            Phase::Cancelled => {
                return (self, WorkerAction::Stop);
            },
            _ => {},
        }
        match event {
            WorkerEvent::Cancel => (self.to_phase(Phase::Cancelled), WorkerAction::Stop),
            WorkerEvent::Loaded(loaded) => match self.phase {
                Phase::Loading => match loaded {
                    Some(entry) => self.diff(entry),
                    None => {
                        let episode = self.episode;
                        (self.to_phase(Phase::Resolving), WorkerAction::Resolve { episode })
                    },
                },
                _ => self.give_up(),
            },
            WorkerEvent::Resolved(images) => match self.phase {
                Phase::Resolving => {
                    let ghost before = self@;
                    let DownloadWorker {
                        phase: _,
                        episode,
                        title,
                        ord,
                        root_dir,
                        entry: _,
                        required,
                        urls,
                        done,
                        pending,
                    } = self;
                    let entry = EpisodeCache {
                        id: episode,
                        title: title.clone(),
                        files: Vec::new(),
                        paths: images.paths,
                        host: images.host,
                        ord,
                        root_dir: root_dir.clone(),
                    };
                    assert(entry@.files =~= Seq::<Seq<char>>::empty());
                    assert(entry@ == fresh_entry(before, images@));
                    let copy = entry.copy();
                    (
                        DownloadWorker {
                            phase: Phase::Persisting,
                            episode,
                            title,
                            ord,
                            root_dir,
                            entry: Some(entry),
                            required,
                            urls,
                            done,
                            pending,
                        },
                        WorkerAction::Persist { entry: copy },
                    )
                },
                _ => self.give_up(),
            },
            WorkerEvent::Persisted => match self.phase {
                Phase::Persisting => {
                    let entry = match &self.entry {
                        Some(entry) => entry.copy(),
                        None => {
                            return self.give_up();
                        },
                    };
                    self.diff(entry)
                },
                _ => self.give_up(),
            },
            WorkerEvent::Authorized(urls) => match self.phase {
                Phase::Authorizing => {
                    if urls.len() == self.required.len() {
                        let DownloadWorker {
                            phase: _,
                            episode,
                            title,
                            ord,
                            root_dir,
                            entry,
                            required,
                            urls: _,
                            done: _,
                            pending,
                        } = self;
                        let worker = DownloadWorker {
                            phase: Phase::Downloading,
                            episode,
                            title,
                            ord,
                            root_dir,
                            entry,
                            required,
                            urls,
                            done: 0,
                            pending,
                        };
                        let action = worker.transfer(0);
                        (worker, action)
                    } else {
                        self.give_up()
                    }
                },
                _ => self.give_up(),
            },
            WorkerEvent::Transferred { status, bytes, checksum } => match self.phase {
                Phase::Downloading => {
                    if accept_transfer(status, bytes.as_slice(), &checksum) {
                        let file_name = base_name(self.required[self.done].as_str());
                        let DownloadWorker {
                            phase: _,
                            episode,
                            title,
                            ord,
                            root_dir,
                            entry,
                            required,
                            urls,
                            done,
                            pending: _,
                        } = self;
                        (
                            DownloadWorker {
                                phase: Phase::Writing,
                                episode,
                                title,
                                ord,
                                root_dir,
                                entry,
                                required,
                                urls,
                                done,
                                pending: bytes.len(),
                            },
                            WorkerAction::Write { file_name, bytes },
                        )
                    } else {
                        self.give_up()
                    }
                },
                _ => self.give_up(),
            },
            WorkerEvent::Written => match self.phase {
                Phase::Writing => {
                    let message = Msg::Size(self.pending);
                    (self.to_phase(Phase::Reporting), WorkerAction::Report { message })
                },
                _ => self.give_up(),
            },
            WorkerEvent::Reported => match self.phase {
                Phase::Reporting => {
                    assert(self.done < self.required@.len());
                    let count = self.required.len();
                    let DownloadWorker {
                        phase: _,
                        episode,
                        title,
                        ord,
                        root_dir,
                        entry,
                        required,
                        urls,
                        done,
                        pending,
                    } = self;
                    if done + 1 == count {
                        (
                            DownloadWorker {
                                phase: Phase::Persisted,
                                episode,
                                title,
                                ord,
                                root_dir,
                                entry,
                                required,
                                urls,
                                done: done + 1,
                                pending,
                            },
                            WorkerAction::Finish,
                        )
                    } else {
                        let worker = DownloadWorker {
                            phase: Phase::Downloading,
                            episode,
                            title,
                            ord,
                            root_dir,
                            entry,
                            required,
                            urls,
                            done: done + 1,
                            pending,
                        };
                        let action = worker.transfer(done + 1);
                        (worker, action)
                    }
                },
                _ => self.give_up(),
            },
            WorkerEvent::Waited => match self.phase {
                Phase::Retrying => (self.to_phase(Phase::Loading), WorkerAction::Load),
                _ => self.give_up(),
            },
            WorkerEvent::Failed => self.give_up(),
        }
    }
}

/// A well-formed worker stays well formed, whatever comes.
pub proof fn law_transition_keeps_well_formed(s: WorkerView, event: EventView)
    requires
        well_formed(s),
    ensures
        well_formed(transition(s, event).0),
{
}

/// A file that arrives with a checksum that its bytes do not give is
/// never written: the worker gives the pass up, and counts no file more
/// than before.
pub proof fn law_rejected_payload_is_dropped(
    s: WorkerView,
    status: u16,
    bytes: Seq<u8>,
    checksum: Option<Seq<char>>,
)
    requires
        s.phase is Downloading,
        !payload_accepted(bytes, checksum),
    ensures
        transition(s, EventView::Transferred { status, bytes, checksum }) == given_up(s),
        transition(s, EventView::Transferred { status, bytes, checksum }).0.done == s.done,
        !(transition(s, EventView::Transferred { status, bytes, checksum }).1 is Write),
{
}

/// A reply that does not say that the request succeeded ends the pass as
/// a failed transfer does, whatever came with it.
pub proof fn law_refused_reply_is_dropped(
    s: WorkerView,
    status: u16,
    bytes: Seq<u8>,
    checksum: Option<Seq<char>>,
)
    requires
        !(s.phase is Persisted),
        !(s.phase is Cancelled),
        !is_success(status),
    ensures
        transition(s, EventView::Transferred { status, bytes, checksum }) == given_up(s),
        transition(s, EventView::Transferred { status, bytes, checksum }) == transition(
            s,
            EventView::Failed,
        ),
{
}

/// Whatever is written has arrived just now with a reply of success, was
/// awaited, and was accepted under the checksum that came with it; it is
/// written under the name of the path that was being fetched.
pub proof fn law_only_verified_files_are_written(s: WorkerView, event: EventView)
    requires
        transition(s, event).1 is Write,
    ensures
        s.phase is Downloading,
        event matches EventView::Transferred { status, bytes, checksum } && is_success(status)
            && payload_accepted(bytes, checksum) && transition(s, event).1 == (ActionView::Write {
            file_name: base_name_of(s.required[s.done as int]),
            bytes,
        }),
{
}

/// A worker becomes done by completion only when nothing was missing at
/// the diff, or when the last of the required files has been reported:
/// every file that the pass required was then transferred, verified and
/// written.
pub proof fn law_done_means_complete(s: WorkerView, event: EventView)
    requires
        well_formed(s),
        !(s.phase is Persisted),
        transition(s, event).0.phase is Persisted,
    ensures
        transition(s, event).0.done == transition(s, event).0.required.len(),
        transition(s, event).1 is Finish,
        (s.phase is Reporting && event is Reported && s.done + 1 == s.required.len()) || (
        transition(s, event).0.required.len() == 0 && transition(s, event).0.entry is Some
            && missing(
            transition(s, event).0.entry->0.paths,
            transition(s, event).0.entry->0.files,
        ).len() == 0),
{
}

/// The files of a pass are those that the diff found missing, and nothing
/// is asked of the remote side for an entry that lacks nothing.
pub proof fn law_pass_requires_what_is_missing(s: WorkerView, entry: EpisodeCacheView)
    ensures
        diffed(s, entry).0.required == missing(entry.paths, entry.files),
        diffed(s, entry).1 is Finish <==> missing(entry.paths, entry.files).len() == 0,
        diffed(s, entry).1 is Authorize <==> missing(entry.paths, entry.files).len() > 0,
        diffed(s, entry).1 is Authorize ==> diffed(s, entry).1 == (ActionView::Authorize {
            paths: missing(entry.paths, entry.files),
        }),
{
}

/// No transfer begins before the episode's entry is in the cache: the
/// addresses are asked for only after the entry was found there or was
/// written, and a transfer only follows the addresses or an earlier
/// transfer of the same pass.
pub proof fn law_transfer_follows_the_record(s: WorkerView, event: EventView)
    ensures
        transition(s, event).1 is Transfer ==> (s.phase is Authorizing && event is Authorized) || (
        s.phase is Reporting && event is Reported),
        transition(s, event).1 is Authorize ==> (s.phase is Loading && event matches EventView::Loaded(
            Some(_),
        )) || (s.phase is Persisting && event is Persisted),
        transition(s, event).1 is Persist ==> s.phase is Resolving && event is Resolved,
{
}

/// A cancellation ends a worker that is not done, and asks for nothing
/// more: no entry and no file is written after it.
pub proof fn law_cancel_stops(s: WorkerView, event: EventView)
    ensures
        !(s.phase is Persisted) ==> transition(s, EventView::Cancel) == (
            WorkerView { phase: Phase::Cancelled, ..s },
            ActionView::Stop,
        ),
        s.phase is Cancelled ==> transition(s, event) == (s, ActionView::Stop),
        s.phase is Persisted ==> transition(s, event) == (s, ActionView::Finish),
{
}

/// A pass that is given up is followed by the delay and then by a new
/// pass, which begins with the look into the cache.
pub proof fn law_retry_begins_anew(s: WorkerView)
    requires
        !(s.phase is Persisted),
        !(s.phase is Cancelled),
    ensures
        transition(s, EventView::Failed) == given_up(s),
        given_up(s).1 == (ActionView::Wait { seconds: 3 }),
        transition(given_up(s).0, EventView::Waited) == (
            WorkerView { phase: Phase::Loading, ..s },
            ActionView::Load,
        ),
{
}

/// When a worker is done by completion, the episode is complete: no path
/// of its entry is without its file in the directory.
pub proof fn law_done_worker_is_complete(s: WorkerView)
    requires
        well_formed(s),
        s.phase is Persisted,
    ensures
        s.entry is Some,
        missing(s.entry->0.paths, present_files(s)).len() == 0,
{
    assert(s.required.take(s.done as int) == s.required);
    law_written_pass_completes(s.entry->0.paths, s.entry->0.files);
}

} // verus!
