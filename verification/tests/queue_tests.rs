use cue::job::{DownloadJob, Metadata};
use cue::queue::DownloadManager;
use cue::status::JobStatus;

fn meta(id: &str) -> Metadata {
    Metadata {
        id: id.to_string(),
        url: format!("https://example.com/{id}"),
        title: format!("Title {id}"),
        artist: format!("Artist {id}"),
        album: None,
        thumbnail: None,
        duration_secs: Some(180),
    }
}

fn job(id: &str) -> DownloadJob {
    DownloadJob::new(id.to_string(), format!("https://example.com/{id}"), meta(id))
}

#[test]
fn new_job_is_queued_with_composed_title() {
    let j = job("a");
    assert_eq!(j.status, JobStatus::Queued);
    assert_eq!(j.progress, 0);
    assert!(j.detailed_status.is_none());
    assert!(j.logs.is_empty());
    assert_eq!(j.title, "Artist a - Title a");
}

#[test]
fn start_next_starts_exactly_one_of_n_queued() {
    let mut mgr = DownloadManager::new();
    mgr.add_job(job("a"));
    mgr.add_job(job("b"));
    mgr.add_job(job("c"));

    let started = mgr.start_next_job().expect("one job should start");
    assert_eq!(started.0, "a");

    let jobs = mgr.get_jobs();
    let queued = jobs.iter().filter(|j| j.status == JobStatus::Queued).count();
    let active = jobs
        .iter()
        .filter(|j| j.status == JobStatus::Pending || j.status == JobStatus::Downloading)
        .count();
    assert_eq!(queued, 2);
    assert_eq!(active, 1);
    assert_eq!(jobs[0].status, JobStatus::Pending);
}

#[test]
fn start_next_is_noop_while_busy() {
    let mut mgr = DownloadManager::new();
    mgr.add_job(job("a"));
    mgr.add_job(job("b"));
    assert!(mgr.start_next_job().is_some());
    // A concurrent trigger must not start a second worker.
    assert!(mgr.start_next_job().is_none());
    let jobs = mgr.get_jobs();
    let active = jobs
        .iter()
        .filter(|j| j.status == JobStatus::Pending || j.status == JobStatus::Downloading)
        .count();
    assert_eq!(active, 1);
    assert_eq!(jobs[1].status, JobStatus::Queued);
}

#[test]
fn start_next_on_empty_queue_is_none() {
    let mut mgr = DownloadManager::new();
    assert!(mgr.start_next_job().is_none());
    mgr.add_job(job("a"));
    mgr.start_next_job().unwrap();
    mgr.update_job_status("a", JobStatus::Completed, 1000);
    // Only a terminal job remains: nothing to start.
    assert!(mgr.start_next_job().is_none());
}

#[test]
fn at_most_one_active_at_every_step() {
    let mut mgr = DownloadManager::new();
    for id in ["a", "b", "c", "d"] {
        mgr.add_job(job(id));
        let jobs = mgr.get_jobs();
        let active = jobs
            .iter()
            .filter(|j| j.status == JobStatus::Pending || j.status == JobStatus::Downloading)
            .count();
        assert!(active <= 1);
    }
    while let Some((id, _, _)) = mgr.start_next_job() {
        let jobs = mgr.get_jobs();
        let active = jobs
            .iter()
            .filter(|j| j.status == JobStatus::Pending || j.status == JobStatus::Downloading)
            .count();
        assert!(active <= 1);
        mgr.update_job_status(&id, JobStatus::Error, 0);
    }
}

#[test]
fn fifo_order_is_kept() {
    let mut mgr = DownloadManager::new();
    mgr.add_job(job("first"));
    mgr.add_job(job("second"));
    mgr.add_job(job("third"));

    let (id1, _, _) = mgr.start_next_job().unwrap();
    assert_eq!(id1, "first");
    mgr.update_job_status(&id1, JobStatus::Completed, 1000);

    let (id2, _, _) = mgr.start_next_job().unwrap();
    assert_eq!(id2, "second");
    mgr.update_job_status(&id2, JobStatus::Completed, 1000);

    let (id3, _, _) = mgr.start_next_job().unwrap();
    assert_eq!(id3, "third");
}

#[test]
fn cancel_of_unregistered_job_is_noop() {
    let mut mgr = DownloadManager::new();
    mgr.add_job(job("a"));
    mgr.add_job(job("b"));
    let before: Vec<(String, JobStatus)> =
        mgr.get_jobs().iter().map(|j| (j.id.clone(), j.status)).collect();

    // "a" is merely queued: no signal is owed and nothing changes.
    assert!(!mgr.cancel_job("a"));
    // Unknown ids are ignored too.
    assert!(!mgr.cancel_job("zzz"));

    let after: Vec<(String, JobStatus)> =
        mgr.get_jobs().iter().map(|j| (j.id.clone(), j.status)).collect();
    assert_eq!(before, after);
}

#[test]
fn cancel_consumes_registration_once() {
    let mut mgr = DownloadManager::new();
    mgr.add_job(job("a"));
    mgr.start_next_job().unwrap();
    mgr.register_cancel("a");
    assert!(mgr.cancel_job("a"));
    // At most one signal per registration.
    assert!(!mgr.cancel_job("a"));
}

#[test]
fn remove_job_removes_only_that_id() {
    let mut mgr = DownloadManager::new();
    mgr.add_job(job("a"));
    mgr.add_job(job("b"));
    mgr.add_job(job("c"));
    mgr.remove_job("b");
    let ids: Vec<String> = mgr.get_jobs().iter().map(|j| j.id.clone()).collect();
    assert_eq!(ids, vec!["a".to_string(), "c".to_string()]);
    mgr.remove_job("nope");
    assert_eq!(mgr.len(), 2);
}

#[test]
fn clear_history_twice_is_noop() {
    let mut mgr = DownloadManager::new();
    mgr.add_job(job("done"));
    mgr.add_job(job("failed"));
    mgr.add_job(job("waiting"));
    mgr.update_job_status("done", JobStatus::Completed, 1000);
    mgr.update_job_status("failed", JobStatus::Error, 0);

    mgr.clear_history();
    let ids: Vec<String> = mgr.get_jobs().iter().map(|j| j.id.clone()).collect();
    assert_eq!(ids, vec!["waiting".to_string()]);

    // The second call finds nothing terminal and changes nothing.
    mgr.clear_history();
    let ids2: Vec<String> = mgr.get_jobs().iter().map(|j| j.id.clone()).collect();
    assert_eq!(ids2, vec!["waiting".to_string()]);
}

#[test]
fn clear_queue_keeps_active_and_terminal() {
    let mut mgr = DownloadManager::new();
    mgr.add_job(job("done"));
    mgr.add_job(job("running"));
    mgr.add_job(job("waiting"));
    mgr.update_job_status("done", JobStatus::Completed, 1000);
    mgr.update_job_status("running", JobStatus::Pending, 0);
    mgr.clear_queue();
    let ids: Vec<String> = mgr.get_jobs().iter().map(|j| j.id.clone()).collect();
    assert_eq!(ids, vec!["done".to_string(), "running".to_string()]);
}

#[test]
fn append_log_and_detailed_status_touch_one_job() {
    let mut mgr = DownloadManager::new();
    mgr.add_job(job("a"));
    mgr.add_job(job("b"));
    mgr.append_log("a", "line one".to_string());
    mgr.append_log("a", "line two".to_string());
    mgr.update_detailed_status("a", Some(cue::status::Phase::FetchingInfo));
    // A `None` phase leaves the label untouched.
    mgr.update_detailed_status("a", None);
    let jobs = mgr.get_jobs();
    assert_eq!(jobs[0].logs, vec!["line one".to_string(), "line two".to_string()]);
    assert_eq!(jobs[0].detailed_status, Some(cue::status::Phase::FetchingInfo));
    assert!(jobs[1].logs.is_empty());
    assert!(jobs[1].detailed_status.is_none());
}
