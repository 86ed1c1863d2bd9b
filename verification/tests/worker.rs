use bcdown::cache::EpisodeCache;
use bcdown::integrity::content_checksum;
use bcdown::network::{EpisodeImages, EpisodeInfo};
use bcdown::progress::Msg;
use bcdown::worker::{DownloadWorker, Phase, WorkerAction, WorkerEvent, RETRY_DELAY_SECS};

fn strings(items: &[&str]) -> Vec<String> {
    items.iter().map(|s| s.to_string()).collect()
}

fn info(id: u32) -> EpisodeInfo {
    EpisodeInfo {
        title: format!("episode {}", id),
        id,
        is_locked: false,
        is_in_free: false,
        ord: 3,
    }
}

fn entry(paths: &[&str], files: &[&str]) -> EpisodeCache {
    EpisodeCache {
        id: 9,
        title: "episode 9".to_string(),
        files: strings(files),
        paths: strings(paths),
        host: "https://host.example".to_string(),
        ord: 3,
        root_dir: "/cache/1/9".to_string(),
    }
}

fn ten_paths() -> Vec<String> {
    (0..10).map(|i| format!("/bfs/manga/{}.jpg", i)).collect()
}

fn payload(url: &str) -> Vec<u8> {
    format!("bytes of {}", url).into_bytes()
}

/// A remote side and a disk in memory, and a log of what was done.
struct World {
    record: Option<EpisodeCache>,
    files: Vec<String>,
    remote_paths: Vec<String>,
    log: Vec<String>,
    transfers: usize,
    corrupt_transfers: Vec<usize>,
    failing_transfers: Vec<usize>,
    reported: Vec<usize>,
    waits: usize,
}

impl World {
    fn new(remote_paths: Vec<String>) -> World {
        World {
            record: None,
            files: Vec::new(),
            remote_paths,
            log: Vec::new(),
            transfers: 0,
            corrupt_transfers: Vec::new(),
            failing_transfers: Vec::new(),
            reported: Vec::new(),
            waits: 0,
        }
    }

    fn perform(&mut self, action: WorkerAction) -> Option<WorkerEvent> {
        match action {
            WorkerAction::Load => {
                self.log.push("load".to_string());
                let loaded = self.record.as_ref().map(|r| {
                    let mut e = r.copy();
                    e.files = self.files.clone();
                    e
                });
                Some(WorkerEvent::Loaded(loaded))
            }
            WorkerAction::Resolve { episode } => {
                self.log.push(format!("resolve {}", episode));
                Some(WorkerEvent::Resolved(EpisodeImages {
                    host: "https://host.example".to_string(),
                    paths: self.remote_paths.clone(),
                }))
            }
            WorkerAction::Persist { entry } => {
                self.log.push("persist".to_string());
                self.record = Some(entry);
                Some(WorkerEvent::Persisted)
            }
            WorkerAction::Authorize { paths } => {
                self.log.push(format!("authorize {}", paths.len()));
                Some(WorkerEvent::Authorized(
                    paths.iter().map(|p| format!("https://cdn.example{}?token=t", p)).collect(),
                ))
            }
            WorkerAction::Transfer { url, file_name } => {
                self.log.push(format!("transfer {}", file_name));
                let n = self.transfers;
                self.transfers += 1;
                if self.failing_transfers.contains(&n) {
                    return Some(WorkerEvent::Failed);
                }
                let bytes = payload(&url);
                let checksum = if self.corrupt_transfers.contains(&n) {
                    content_checksum(b"something else")
                } else {
                    content_checksum(&bytes)
                };
                Some(WorkerEvent::Transferred { status: 200, bytes, checksum: Some(checksum) })
            }
            WorkerAction::Write { file_name, bytes } => {
                self.log.push(format!("write {} {}", file_name, bytes.len()));
                self.files.push(file_name);
                Some(WorkerEvent::Written)
            }
            WorkerAction::Report { message } => {
                match message {
                    Msg::Size(n) => self.reported.push(n),
                    _ => panic!("a worker reports sizes only"),
                }
                Some(WorkerEvent::Reported)
            }
            WorkerAction::Wait { seconds } => {
                assert_eq!(seconds, 3);
                self.log.push("wait".to_string());
                self.waits += 1;
                Some(WorkerEvent::Waited)
            }
            WorkerAction::Finish => None,
            WorkerAction::Stop => None,
        }
    }

    fn run(&mut self, episode: &EpisodeInfo) -> DownloadWorker {
        let mut worker = DownloadWorker::new(episode, "/cache/1/9");
        let mut action = WorkerAction::Load;
        for _ in 0..10_000 {
            match self.perform(action) {
                Some(event) => {
                    let next = worker.step(event);
                    worker = next.0;
                    action = next.1;
                }
                None => return worker,
            }
        }
        panic!("the worker did not come to an end");
    }
}

#[test]
fn new_worker_awaits_the_look_into_the_cache() {
    let worker = DownloadWorker::new(&info(9), "/cache/1/9");
    assert_eq!(worker.phase(), Phase::Loading);
    assert!(!worker.is_done());
    assert_eq!(worker.required_len(), 0);
    assert_eq!(worker.done_len(), 0);
    assert_eq!(RETRY_DELAY_SECS, 3);
}

#[test]
fn first_fetch_persists_the_record_before_any_transfer() {
    let mut world = World::new(strings(&["/p/1.jpg", "/p/2.jpg"]));
    let worker = world.run(&info(9));
    assert_eq!(worker.phase(), Phase::Persisted);
    assert!(worker.is_done());
    assert_eq!(
        world.log,
        strings(&[
            "load",
            "resolve 9",
            "persist",
            "authorize 2",
            "transfer 1.jpg",
            "write 1.jpg 44",
            "transfer 2.jpg",
            "write 2.jpg 44",
        ])
    );
    let record = world.record.unwrap();
    assert_eq!(record.id, 9);
    assert_eq!(record.title, "episode 9");
    assert_eq!(record.ord, 3);
    assert_eq!(record.host, "https://host.example");
    assert_eq!(record.paths, strings(&["/p/1.jpg", "/p/2.jpg"]));
    assert_eq!(record.root_dir, "/cache/1/9");
    assert!(record.files.is_empty());
    assert_eq!(world.files, strings(&["1.jpg", "2.jpg"]));
    assert_eq!(world.reported, vec![44, 44]);
    assert_eq!(worker.required_len(), 2);
    assert_eq!(worker.done_len(), 2);
}

#[test]
fn resumed_run_transfers_only_what_is_missing() {
    let paths = ten_paths();
    let mut world = World::new(paths.clone());
    world.record = Some(EpisodeCache {
        id: 9,
        title: "episode 9".to_string(),
        files: Vec::new(),
        paths: paths.clone(),
        host: "https://host.example".to_string(),
        ord: 3,
        root_dir: "/cache/1/9".to_string(),
    });
    world.files = strings(&["0.jpg", "3.jpg", "4.jpg", "9.jpg"]);
    let worker = world.run(&info(9));
    assert_eq!(worker.phase(), Phase::Persisted);
    assert_eq!(world.transfers, 6);
    assert_eq!(worker.required_len(), 6);
    let transferred: Vec<&String> =
        world.log.iter().filter(|l| l.starts_with("transfer ")).collect();
    assert_eq!(
        transferred,
        vec![
            "transfer 1.jpg",
            "transfer 2.jpg",
            "transfer 5.jpg",
            "transfer 6.jpg",
            "transfer 7.jpg",
            "transfer 8.jpg"
        ]
    );
    assert!(!world.log.contains(&"resolve 9".to_string()));
    assert!(!world.log.contains(&"persist".to_string()));
    assert_eq!(world.files.len(), 10);
    assert_eq!(world.waits, 0);
}

#[test]
fn complete_episode_asks_for_nothing() {
    let mut world = World::new(strings(&["/p/1.jpg"]));
    world.record = Some(entry(&["/p/1.jpg"], &[]));
    world.files = strings(&["1.jpg"]);
    let worker = world.run(&info(9));
    assert_eq!(worker.phase(), Phase::Persisted);
    assert_eq!(world.log, strings(&["load"]));
    assert_eq!(world.transfers, 0);
}

#[test]
fn file_with_a_wrong_checksum_is_not_written() {
    let mut world = World::new(strings(&["/p/1.jpg", "/p/2.jpg", "/p/3.jpg"]));
    world.corrupt_transfers = vec![1];
    let mut worker = DownloadWorker::new(&info(9), "/cache/1/9");
    let mut action = WorkerAction::Load;
    loop {
        if let WorkerAction::Wait { .. } = action {
            break;
        }
        let event = world.perform(action).unwrap();
        let next = worker.step(event);
        worker = next.0;
        action = next.1;
    }
    assert_eq!(worker.phase(), Phase::Retrying);
    assert_eq!(world.files, strings(&["1.jpg"]));
    assert_eq!(world.transfers, 2);
    assert!(!world.log.contains(&"write 2.jpg 44".to_string()));
    assert!(!world.log.contains(&"transfer 3.jpg".to_string()));
    assert_eq!(worker.done_len(), 1);
}

#[test]
fn corrupt_transfer_is_retried_until_the_file_is_verified() {
    let mut world = World::new(strings(&["/p/1.jpg", "/p/2.jpg", "/p/3.jpg"]));
    world.corrupt_transfers = vec![1, 2];
    let worker = world.run(&info(9));
    assert_eq!(worker.phase(), Phase::Persisted);
    assert_eq!(world.waits, 2);
    assert_eq!(world.files, strings(&["1.jpg", "2.jpg", "3.jpg"]));
    assert_eq!(world.transfers, 5);
    assert_eq!(
        world.log,
        strings(&[
            "load",
            "resolve 9",
            "persist",
            "authorize 3",
            "transfer 1.jpg",
            "write 1.jpg 44",
            "transfer 2.jpg",
            "wait",
            "load",
            "authorize 2",
            "transfer 2.jpg",
            "wait",
            "load",
            "authorize 2",
            "transfer 2.jpg",
            "write 2.jpg 44",
            "transfer 3.jpg",
            "write 3.jpg 44",
        ])
    );
}

#[test]
fn failed_transfer_ends_the_pass_and_keeps_what_was_written() {
    let mut world = World::new(strings(&["/p/1.jpg", "/p/2.jpg", "/p/3.jpg"]));
    world.failing_transfers = vec![1];
    let worker = world.run(&info(9));
    assert_eq!(worker.phase(), Phase::Persisted);
    assert_eq!(world.waits, 1);
    assert_eq!(world.transfers, 4);
    assert_eq!(world.files, strings(&["1.jpg", "2.jpg", "3.jpg"]));
    assert_eq!(world.log.iter().filter(|l| *l == "persist").count(), 1);
    assert_eq!(world.log.iter().filter(|l| *l == "resolve 9").count(), 1);
}

#[test]
fn transfer_without_checksum_is_accepted() {
    let worker = DownloadWorker::new(&info(9), "/cache/1/9");
    let (worker, action) = worker.step(WorkerEvent::Loaded(Some(entry(&["/p/1.jpg"], &[]))));
    assert!(matches!(action, WorkerAction::Authorize { ref paths } if *paths == strings(&["/p/1.jpg"])));
    let (worker, action) = worker.step(WorkerEvent::Authorized(strings(&["https://u/1"])));
    match action {
        WorkerAction::Transfer { url, file_name } => {
            assert_eq!(url, "https://u/1");
            assert_eq!(file_name, "1.jpg");
        }
        other => panic!("unexpected {:?}", other),
    }
    let (worker, action) =
        worker.step(WorkerEvent::Transferred { status: 200, bytes: vec![1, 2, 3], checksum: None });
    match action {
        WorkerAction::Write { file_name, bytes } => {
            assert_eq!(file_name, "1.jpg");
            assert_eq!(bytes, vec![1, 2, 3]);
        }
        other => panic!("unexpected {:?}", other),
    }
    assert_eq!(worker.phase(), Phase::Writing);
    let (worker, action) = worker.step(WorkerEvent::Written);
    assert!(matches!(action, WorkerAction::Report { message: Msg::Size(3) }));
    let (worker, action) = worker.step(WorkerEvent::Reported);
    assert!(matches!(action, WorkerAction::Finish));
    assert_eq!(worker.phase(), Phase::Persisted);
}

#[test]
fn addresses_that_do_not_match_the_paths_end_the_pass() {
    let worker = DownloadWorker::new(&info(9), "/cache/1/9");
    let (worker, _) = worker.step(WorkerEvent::Loaded(Some(entry(&["/p/1.jpg", "/p/2.jpg"], &[]))));
    let (worker, action) = worker.step(WorkerEvent::Authorized(strings(&["https://u/1"])));
    assert!(matches!(action, WorkerAction::Wait { seconds: 3 }));
    assert_eq!(worker.phase(), Phase::Retrying);
    let (worker, action) = worker.step(WorkerEvent::Waited);
    assert!(matches!(action, WorkerAction::Load));
    assert_eq!(worker.phase(), Phase::Loading);
}

#[test]
fn failure_in_any_phase_ends_the_pass() {
    let worker = DownloadWorker::new(&info(9), "/cache/1/9");
    let (worker, action) = worker.step(WorkerEvent::Failed);
    assert!(matches!(action, WorkerAction::Wait { seconds: 3 }));
    let (worker, _) = worker.step(WorkerEvent::Waited);
    let (worker, action) = worker.step(WorkerEvent::Loaded(None));
    assert!(matches!(action, WorkerAction::Resolve { episode: 9 }));
    assert_eq!(worker.phase(), Phase::Resolving);
    let (worker, action) = worker.step(WorkerEvent::Failed);
    assert!(matches!(action, WorkerAction::Wait { seconds: 3 }));
    assert_eq!(worker.phase(), Phase::Retrying);
    let (worker, action) = worker.step(WorkerEvent::Written);
    assert!(matches!(action, WorkerAction::Wait { seconds: 3 }));
    assert_eq!(worker.phase(), Phase::Retrying);
}

#[test]
fn event_that_is_not_awaited_ends_the_pass() {
    let worker = DownloadWorker::new(&info(9), "/cache/1/9");
    let (worker, action) = worker.step(WorkerEvent::Written);
    assert!(matches!(action, WorkerAction::Wait { seconds: 3 }));
    assert_eq!(worker.phase(), Phase::Retrying);
}

#[test]
fn cancel_stops_a_worker_in_any_phase() {
    let worker = DownloadWorker::new(&info(9), "/cache/1/9");
    let (worker, action) = worker.step(WorkerEvent::Cancel);
    assert!(matches!(action, WorkerAction::Stop));
    assert_eq!(worker.phase(), Phase::Cancelled);
    assert!(worker.is_done());
    let (worker, action) = worker.step(WorkerEvent::Waited);
    assert!(matches!(action, WorkerAction::Stop));
    assert_eq!(worker.phase(), Phase::Cancelled);

    let worker = DownloadWorker::new(&info(9), "/cache/1/9");
    let (worker, _) = worker.step(WorkerEvent::Loaded(Some(entry(&["/p/1.jpg"], &[]))));
    let (worker, _) = worker.step(WorkerEvent::Authorized(strings(&["https://u/1"])));
    assert_eq!(worker.phase(), Phase::Downloading);
    let (worker, action) = worker.step(WorkerEvent::Cancel);
    assert!(matches!(action, WorkerAction::Stop));
    assert_eq!(worker.phase(), Phase::Cancelled);
    let (_, action) =
        worker.step(WorkerEvent::Transferred { status: 200, bytes: vec![1], checksum: None });
    assert!(matches!(action, WorkerAction::Stop));
}

#[test]
fn worker_that_is_complete_stays_complete() {
    let worker = DownloadWorker::new(&info(9), "/cache/1/9");
    let (worker, action) = worker.step(WorkerEvent::Loaded(Some(entry(&[], &[]))));
    assert!(matches!(action, WorkerAction::Finish));
    let (worker, action) = worker.step(WorkerEvent::Cancel);
    assert!(matches!(action, WorkerAction::Finish));
    assert_eq!(worker.phase(), Phase::Persisted);
    let (_, action) = worker.step(WorkerEvent::Failed);
    assert!(matches!(action, WorkerAction::Finish));
}

fn downloading() -> DownloadWorker {
    let worker = DownloadWorker::new(&info(9), "/cache/1/9");
    let (worker, _) = worker.step(WorkerEvent::Loaded(Some(entry(&["/p/1.jpg", "/p/2.jpg"], &[]))));
    let (worker, _) = worker.step(WorkerEvent::Authorized(strings(&["https://u/1", "https://u/2"])));
    assert_eq!(worker.phase(), Phase::Downloading);
    worker
}

#[test]
fn reply_without_success_ends_the_pass() {
    for status in [0u16, 100, 199, 300, 301, 304, 403, 404, 500, 503, 65535] {
        let (worker, action) = downloading().step(WorkerEvent::Transferred {
            status,
            bytes: vec![1, 2, 3],
            checksum: None,
        });
        assert!(matches!(action, WorkerAction::Wait { seconds: 3 }), "{}", status);
        assert_eq!(worker.phase(), Phase::Retrying);
        assert_eq!(worker.done_len(), 0);
    }
    let good = Some(content_checksum(&[1, 2, 3]));
    let (worker, action) = downloading().step(WorkerEvent::Transferred {
        status: 404,
        bytes: vec![1, 2, 3],
        checksum: good,
    });
    assert!(matches!(action, WorkerAction::Wait { seconds: 3 }));
    assert_eq!(worker.phase(), Phase::Retrying);
}

#[test]
fn reply_of_success_is_written() {
    for status in [200u16, 201, 204, 206, 299] {
        let (worker, action) = downloading().step(WorkerEvent::Transferred {
            status,
            bytes: vec![1, 2, 3],
            checksum: Some(content_checksum(&[1, 2, 3])),
        });
        assert!(matches!(action, WorkerAction::Write { .. }), "{}", status);
        assert_eq!(worker.phase(), Phase::Writing);
    }
}
