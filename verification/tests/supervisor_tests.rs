use cue::job::{DownloadJob, Metadata};
use cue::queue::DownloadManager;
use cue::status::{JobStatus, Phase};
use cue::supervisor::{
    apply_outcome, completion_song, exit_outcome, handle_stream_event, process_stderr_line,
    process_stdout_line, resolve_filename, Directive, DownloadError, StreamEvent,
};

fn meta(id: &str) -> Metadata {
    Metadata {
        id: id.to_string(),
        url: format!("https://example.com/{id}"),
        title: format!("Title {id}"),
        artist: format!("Artist {id}"),
        album: Some("Album".to_string()),
        thumbnail: None,
        duration_secs: None,
    }
}

fn started_manager(id: &str) -> DownloadManager {
    let mut mgr = DownloadManager::new();
    mgr.add_job(DownloadJob::new(
        id.to_string(),
        format!("https://example.com/{id}"),
        meta(id),
    ));
    mgr.start_next_job().unwrap();
    mgr
}

#[test]
fn progress_marker_updates_progress_and_phase() {
    let mut mgr = started_manager("a");
    let payloads = process_stdout_line(&mut mgr, "a", "download-progress:42.5%");
    let jobs = mgr.get_jobs();
    assert_eq!(jobs[0].progress, 425);
    assert_eq!(jobs[0].status, JobStatus::Downloading);
    assert_eq!(jobs[0].detailed_status, Some(Phase::Downloading));
    // One log event and one progress event.
    assert_eq!(payloads.len(), 2);
    assert_eq!(payloads[0].progress, None);
    assert_eq!(payloads[0].log.as_deref(), Some("download-progress:42.5%"));
    assert_eq!(payloads[1].progress, Some(425));
    assert_eq!(payloads[1].detailed_status, Some(Phase::Downloading));
    assert_eq!(payloads[1].log, None);
}

#[test]
fn webpage_line_sets_phase_without_touching_progress() {
    let mut mgr = started_manager("a");
    process_stdout_line(&mut mgr, "a", "download-progress:37.0%");
    let payloads = process_stdout_line(&mut mgr, "a", "[youtube] a: Downloading webpage");
    let jobs = mgr.get_jobs();
    assert_eq!(jobs[0].detailed_status, Some(Phase::FetchingInfo));
    assert_eq!(jobs[0].progress, 370);
    assert_eq!(payloads.len(), 1);
    assert_eq!(payloads[0].detailed_status, Some(Phase::FetchingInfo));
}

#[test]
fn malformed_progress_is_logged_but_dropped() {
    let mut mgr = started_manager("a");
    let payloads = process_stdout_line(&mut mgr, "a", "download-progress:N/A%");
    let jobs = mgr.get_jobs();
    assert_eq!(jobs[0].progress, 0);
    // The marker still classifies the line as downloading.
    assert_eq!(jobs[0].detailed_status, Some(Phase::Downloading));
    assert_eq!(jobs[0].logs, vec!["download-progress:N/A%".to_string()]);
    assert_eq!(payloads.len(), 1);
}

#[test]
fn stdout_lines_are_trimmed_and_appended_in_order() {
    let mut mgr = started_manager("a");
    process_stdout_line(&mut mgr, "a", "  first line \n");
    process_stdout_line(&mut mgr, "a", "second line");
    let jobs = mgr.get_jobs();
    assert_eq!(jobs[0].logs, vec!["first line".to_string(), "second line".to_string()]);
}

#[test]
fn stderr_lines_carry_the_stream_marker() {
    let mut mgr = started_manager("a");
    let payloads = process_stderr_line(&mut mgr, "a", "WARNING: something\n");
    let jobs = mgr.get_jobs();
    assert_eq!(jobs[0].logs, vec!["[stderr] WARNING: something".to_string()]);
    assert_eq!(payloads.len(), 1);
    assert_eq!(payloads[0].log.as_deref(), Some("[stderr] WARNING: something"));
    assert_eq!(payloads[0].progress, None);
}

#[test]
fn stream_events_drive_the_race() {
    let mut mgr = started_manager("a");
    let (d, p) = handle_stream_event(
        &mut mgr,
        "a",
        &StreamEvent::StdoutLine("download-progress:10.0%".to_string()),
    );
    assert_eq!(d, Directive::Proceed);
    assert_eq!(p.len(), 2);
    let (d, p) = handle_stream_event(&mut mgr, "a", &StreamEvent::Eof);
    assert_eq!(d, Directive::AwaitExit);
    assert!(p.is_empty());
    let (d, p) = handle_stream_event(&mut mgr, "a", &StreamEvent::CancelFired);
    assert_eq!(d, Directive::KillProcess);
    assert!(p.is_empty());
}

#[test]
fn cancelled_outcome_is_flagged_error() {
    let mut mgr = started_manager("a");
    mgr.register_cancel("a");
    mgr.update_job_status("a", JobStatus::Downloading, 500);
    // The user cancels: the signal is owed exactly once, then the process
    // is killed and the outcome applied.
    assert!(mgr.cancel_job("a"));
    let payload = apply_outcome(&mut mgr, "a", &Err(DownloadError::Cancelled)).unwrap();
    assert!(payload.is_cancelled);
    assert_eq!(payload.error, "Download cancelled");
    let jobs = mgr.get_jobs();
    assert_eq!(jobs[0].status, JobStatus::Error);
    assert_eq!(jobs[0].progress, 0);
    // The registration is gone: no further signal can be sent.
    assert!(!mgr.cancel_job("a"));
}

#[test]
fn runtime_failure_is_unflagged_error_with_code() {
    let mut mgr = started_manager("a");
    let payload =
        apply_outcome(&mut mgr, "a", &Err(DownloadError::Runtime { code: Some(1) })).unwrap();
    assert!(!payload.is_cancelled);
    assert_eq!(payload.error, "Download failed with exit code: 1");
    assert_eq!(mgr.get_jobs()[0].status, JobStatus::Error);
}

#[test]
fn signal_death_reports_unknown_code() {
    let e = DownloadError::Runtime { code: None };
    assert_eq!(e.message(), "Download failed with exit code: unknown");
    let e = DownloadError::Runtime { code: Some(-9) };
    assert_eq!(e.message(), "Download failed with exit code: -9");
}

#[test]
fn every_failure_kind_renders_its_message() {
    let e = DownloadError::Resolution(
        "yt-dlp not found. Please ensure initialization completed successfully.".to_string(),
    );
    assert_eq!(
        e.message(),
        "yt-dlp not found. Please ensure initialization completed successfully."
    );
    assert!(!e.is_cancelled());
    let e = DownloadError::Spawn("permission denied".to_string());
    assert_eq!(e.message(), "Failed to start process: permission denied");
    assert!(!e.is_cancelled());
    let e = DownloadError::PostSuccess("Failed to add song to database: busy".to_string());
    assert_eq!(e.message(), "Failed to add song to database: busy");
    assert!(DownloadError::Cancelled.is_cancelled());
}

#[test]
fn success_marks_completed_with_full_progress() {
    let mut mgr = started_manager("d");
    assert!(apply_outcome(&mut mgr, "d", &Ok(())).is_none());
    let jobs = mgr.get_jobs();
    assert_eq!(jobs[0].status, JobStatus::Completed);
    assert_eq!(jobs[0].progress, 1000);
}

#[test]
fn exit_status_decides_the_outcome() {
    assert!(exit_outcome(true, Some(0)).is_ok());
    match exit_outcome(false, Some(2)) {
        Err(DownloadError::Runtime { code }) => assert_eq!(code, Some(2)),
        _ => panic!("expected a runtime failure"),
    }
}

#[test]
fn filename_resolution_trims_and_rejects_empty() {
    assert_eq!(resolve_filename(" /music/Songs/song-d.mp3\n").unwrap(), "/music/Songs/song-d.mp3");
    match resolve_filename("   \n") {
        Err(e) => assert_eq!(e.message(), "Failed to resolve downloaded filename"),
        Ok(_) => panic!("empty output must not resolve"),
    }
}

#[test]
fn completion_song_forces_mp3_basename() {
    let m = meta("d");
    let song = completion_song("d", &m, "/music/Songs/song-d.webm");
    assert_eq!(song.filename, "song-d.mp3");
    assert_eq!(song.id, "d");
    assert_eq!(song.title, "Title d");
    assert_eq!(song.artist, "Artist d");
    assert_eq!(song.album.as_deref(), Some("Album"));

    let song = completion_song("d", &m, "song-d.mp3");
    assert_eq!(song.filename, "song-d.mp3");
    let song = completion_song("d", &m, "/a/b/noext");
    assert_eq!(song.filename, "noext.mp3");
    let song = completion_song("d", &m, "/a/b/.hidden");
    assert_eq!(song.filename, ".hidden.mp3");
}

#[test]
fn failing_job_never_blocks_the_queue() {
    // Jobs A, B, C queued; A fails with exit code 1; B then C still run,
    // never two at once.
    let mut mgr = DownloadManager::new();
    for id in ["A", "B", "C"] {
        mgr.add_job(DownloadJob::new(
            id.to_string(),
            format!("https://example.com/{id}"),
            meta(id),
        ));
    }
    let mut transitions: Vec<(String, JobStatus)> = Vec::new();
    let mut outcomes = vec![
        Err(DownloadError::Runtime { code: Some(1) }),
        Ok(()),
        Ok(()),
    ]
    .into_iter();

    while let Some((id, _url, _m)) = mgr.start_next_job() {
        transitions.push((id.clone(), JobStatus::Pending));
        process_stdout_line(&mut mgr, &id, "download-progress:10.0%");
        transitions.push((id.clone(), JobStatus::Downloading));
        let active = mgr
            .get_jobs()
            .iter()
            .filter(|j| j.status == JobStatus::Pending || j.status == JobStatus::Downloading)
            .count();
        assert_eq!(active, 1);
        let outcome = outcomes.next().unwrap();
        let payload = apply_outcome(&mut mgr, &id, &outcome);
        let terminal = mgr
            .get_jobs()
            .iter()
            .find(|j| j.id == id)
            .unwrap()
            .status;
        transitions.push((id.clone(), terminal));
        if id == "A" {
            let p = payload.expect("failure must surface");
            assert!(!p.is_cancelled);
            assert_eq!(p.error, "Download failed with exit code: 1");
        } else {
            assert!(payload.is_none());
        }
    }

    let expected = vec![
        ("A".to_string(), JobStatus::Pending),
        ("A".to_string(), JobStatus::Downloading),
        ("A".to_string(), JobStatus::Error),
        ("B".to_string(), JobStatus::Pending),
        ("B".to_string(), JobStatus::Downloading),
        ("B".to_string(), JobStatus::Completed),
        ("C".to_string(), JobStatus::Pending),
        ("C".to_string(), JobStatus::Downloading),
        ("C".to_string(), JobStatus::Completed),
    ];
    assert_eq!(transitions, expected);
}

#[test]
fn successful_job_commits_resolved_filename() {
    // Job D: successful exit, filename resolution yields song-d.mp3, the
    // commit record carries it, and the job ends completed at full
    // progress.
    let mut mgr = DownloadManager::new();
    let m = meta("D");
    mgr.add_job(DownloadJob::new(
        "D".to_string(),
        "https://example.com/D".to_string(),
        m.clone(),
    ));
    let (id, _url, job_meta) = mgr.start_next_job().unwrap();
    assert!(exit_outcome(true, Some(0)).is_ok());
    let filename = resolve_filename("song-d.mp3\n").unwrap();
    assert_eq!(filename, "song-d.mp3");
    let song = completion_song(&id, &job_meta, &filename);
    assert_eq!(song.filename, "song-d.mp3");
    assert!(apply_outcome(&mut mgr, &id, &Ok(())).is_none());
    let jobs = mgr.get_jobs();
    assert_eq!(jobs[0].status, JobStatus::Completed);
    assert_eq!(jobs[0].progress, 1000);
}
