//! Decisions of the process supervisor: what each observed event (an output
//! line, end of stream, the cancellation signal firing, process exit) does
//! to the queue store, which update events it publishes, and how the final
//! outcome of one job is applied.
//!
//! The supervisor owns one external process per job. The surrounding
//! runtime spawns it, races both of its output streams against the
//! cancellation signal, and for every observation calls the matching
//! function here; everything these functions decide is proved, whatever the
//! process printed and however the race was won.

use vstd::prelude::*;

use crate::classify::{extract_progress, parse_log_status, spec_classify, spec_progress};
use crate::counting::{first_where, lemma_first_where, lemma_first_where_congruent};
use crate::job::{DownloadErrorPayload, DownloadProgressPayload, JobView, Metadata};
use crate::library::Song;
use crate::queue::{id_pred, DownloadManager, EntryView};
use crate::status::{JobStatus, Phase};
use crate::text::{dec_rep_signed, i64_to_string, trim, trim_spec};

verus! {

/// Why a job failed; every kind is terminal and none is retried.
#[derive(Debug)]
pub enum DownloadError {
    /// The external binary or the output directory could not be located or
    /// prepared before starting; carries the full message.
    Resolution(String),
    /// The operating system refused to start the process.
    Spawn(String),
    /// The process exited with a non-zero status; `code` is `None` when the
    /// process was terminated by a signal. Diagnostic text stays in the
    /// job's logs.
    Runtime { code: Option<i32> },
    /// The user asked for termination; distinguished from a failure so the
    /// caller can avoid presenting it as an error.
    Cancelled,
    /// The process exited successfully but the produced filename could not
    /// be resolved, or the commit to the library failed.
    PostSuccess(String),
}

impl DownloadError {
    /// The message surfaced verbatim through the error event.
    pub open spec fn spec_message(self) -> Seq<char> {
        match self {
            DownloadError::Resolution(m) => m@,
            DownloadError::Spawn(m) => "Failed to start process: "@ + m@,
            DownloadError::Runtime { code } => "Download failed with exit code: "@ + match code {
                Some(c) => dec_rep_signed(c as int),
                None => "unknown"@,
            },
            DownloadError::Cancelled => "Download cancelled"@,
            DownloadError::PostSuccess(m) => m@,
        }
    }

    /// Render [`Self::spec_message`].
    pub fn message(&self) -> (r: String)
        ensures
            r@ == self.spec_message(),
    {
        match self {
            DownloadError::Resolution(m) => m.clone(),
            DownloadError::Spawn(m) => {
                let mut s = String::from_str("Failed to start process: ");
                s.append(m.as_str());
                s
            },
            DownloadError::Runtime { code } => {
                let mut s = String::from_str("Download failed with exit code: ");
                match code {
                    Some(c) => {
                        let rendered = i64_to_string(*c as i64);
                        s.append(rendered.as_str());
                    },
                    None => s.append("unknown"),
                }
                s
            },
            DownloadError::Cancelled => String::from_str("Download cancelled"),
            DownloadError::PostSuccess(m) => m.clone(),
        }
    }

    /// Executable test for the cancellation kind.
    pub fn is_cancelled(&self) -> (r: bool)
        ensures
            r == (self is Cancelled),
    {
        matches!(self, DownloadError::Cancelled)
    }
}

/// One observation made while racing the process's streams against the
/// cancellation signal.
pub enum StreamEvent {
    /// A line arrived on standard output (raw, possibly untrimmed).
    StdoutLine(String),
    /// A line arrived on standard error (raw, possibly untrimmed).
    StderrLine(String),
    /// Either stream reached end of file.
    Eof,
    /// The cancellation signal fired first.
    CancelFired,
}

/// What the runtime must do next with the supervised process.
#[derive(Clone, Copy, Debug, PartialEq, Eq, Structural)]
pub enum Directive {
    /// Keep racing the streams against the cancellation signal.
    Proceed,
    /// Stop reading and wait for the process to exit.
    AwaitExit,
    /// Terminate the process forcibly; the job's outcome is `Cancelled`.
    KillProcess,
}

/// How one trimmed stdout line transforms the supervised job: the line is
/// logged, a matching classification rule replaces the phase, and a
/// well-formed progress marker sets the progress and forces the job to
/// `Downloading`.
pub open spec fn stdout_job_transform(j: JobView, line: Seq<char>) -> JobView {
    let t = trim_spec(line);
    let ds = spec_classify(t);
    let pr = spec_progress(t);
    JobView {
        logs: j.logs.push(t),
        detailed_status: if ds is Some {
            ds
        } else {
            j.detailed_status
        },
        status: if pr is Some {
            JobStatus::Downloading
        } else {
            j.status
        },
        progress: if pr is Some {
            pr.unwrap()
        } else {
            j.progress
        },
        ..j
    }
}

/// How one trimmed stderr line transforms the supervised job: logged under
/// a stream marker, classified for its phase, never carrying progress.
pub open spec fn stderr_job_transform(j: JobView, line: Seq<char>) -> JobView {
    let t = trim_spec(line);
    let ds = spec_classify(t);
    JobView {
        logs: j.logs.push("[stderr] "@ + t),
        detailed_status: if ds is Some {
            ds
        } else {
            j.detailed_status
        },
        ..j
    }
}

/// The store after one stdout line: the supervised job transformed by
/// [`stdout_job_transform`], every other entry untouched; a line for an
/// unknown id changes nothing.
pub open spec fn stdout_applied(
    oldv: Seq<EntryView>,
    newv: Seq<EntryView>,
    id: Seq<char>,
    line: Seq<char>,
) -> bool {
    let i = first_where(oldv, id_pred(id));
    if i >= 0 {
        newv == oldv.update(
            i,
            (EntryView { job: stdout_job_transform(oldv[i].job, line), registered: oldv[i].registered }),
        )
    } else {
        newv == oldv
    }
}

/// The store after one stderr line, by [`stderr_job_transform`].
pub open spec fn stderr_applied(
    oldv: Seq<EntryView>,
    newv: Seq<EntryView>,
    id: Seq<char>,
    line: Seq<char>,
) -> bool {
    let i = first_where(oldv, id_pred(id));
    if i >= 0 {
        newv == oldv.update(
            i,
            (EntryView { job: stderr_job_transform(oldv[i].job, line), registered: oldv[i].registered }),
        )
    } else {
        newv == oldv
    }
}

/// The events published for one stdout line: always a log event carrying
/// the trimmed line and its classification, and, when the line carries a
/// well-formed progress marker, one progress event after it.
pub open spec fn stdout_events_ok(
    id: Seq<char>,
    line: Seq<char>,
    ps: Seq<DownloadProgressPayload>,
) -> bool {
    let t = trim_spec(line);
    &&& ps.len() == (if spec_progress(t) is Some {
        2int
    } else {
        1int
    })
    &&& ps[0].id@ == id
    &&& ps[0].progress is None
    &&& ps[0].status == JobStatus::Downloading
    &&& ps[0].detailed_status == spec_classify(t)
    &&& (ps[0].log matches Some(l) && l@ == t)
    &&& (spec_progress(t) matches Some(p) ==> {
        &&& ps[1].id@ == id
        &&& ps[1].progress == Some(p)
        &&& ps[1].status == JobStatus::Downloading
        &&& ps[1].detailed_status == Some(Phase::Downloading)
        &&& ps[1].log is None
    })
}

/// The one event published for one stderr line: a log event carrying the
/// marked trimmed line and its classification, never progress.
pub open spec fn stderr_events_ok(
    id: Seq<char>,
    line: Seq<char>,
    ps: Seq<DownloadProgressPayload>,
) -> bool {
    let t = trim_spec(line);
    &&& ps.len() == 1
    &&& ps[0].id@ == id
    &&& ps[0].progress is None
    &&& ps[0].status == JobStatus::Downloading
    &&& ps[0].detailed_status == spec_classify(t)
    &&& (ps[0].log matches Some(l) && l@ == "[stderr] "@ + t)
}

/// Handle one stdout line of the process supervising the job carrying
/// `id`: publish a log event (always) and a progress event (when the line
/// carries a well-formed progress marker), and update the stored job
/// accordingly. A malformed progress number is dropped silently.
pub fn process_stdout_line(mgr: &mut DownloadManager, id: &str, line: &str) -> (payloads: Vec<
    DownloadProgressPayload,
>)
    requires
        old(mgr).wf(),
        ({
            let i = first_where(old(mgr)@, id_pred(id@));
            i >= 0 ==> old(mgr)@[i].job.status.is_active()
        }),
    ensures
        final(mgr).wf(),
        stdout_applied(old(mgr)@, final(mgr)@, id@, line@),
        stdout_events_ok(id@, line@, payloads@),
{
    let ghost v0 = mgr@;
    let ghost i0 = first_where(v0, id_pred(id@));
    let t = trim(line);
    let ds = parse_log_status(t);
    let pr = extract_progress(t);
    let mut payloads: Vec<DownloadProgressPayload> = Vec::new();
    payloads.push(
        DownloadProgressPayload {
            id: id.to_owned(),
            progress: None,
            status: JobStatus::Downloading,
            detailed_status: ds,
            log: Some(t.to_owned()),
        },
    );
    mgr.append_log(id, t.to_owned());
    let ghost v1 = mgr@;
    proof {
        lemma_first_where(v0, id_pred(id@));
        if i0 >= 0 {
            assert(forall|k: int|
                0 <= k < v0.len() ==> (id_pred(id@)(#[trigger] v1[k]) == id_pred(id@)(v0[k])));
            lemma_first_where_congruent(v0, v1, id_pred(id@));
        }
    }
    mgr.update_detailed_status(id, ds);
    let ghost v2 = mgr@;
    proof {
        if i0 >= 0 {
            assert(forall|k: int|
                0 <= k < v0.len() ==> (id_pred(id@)(#[trigger] v2[k]) == id_pred(id@)(v1[k])));
            lemma_first_where_congruent(v1, v2, id_pred(id@));
        }
    }
    match pr {
        Some(p) => {
            payloads.push(
                DownloadProgressPayload {
                    id: id.to_owned(),
                    progress: Some(p),
                    status: JobStatus::Downloading,
                    detailed_status: Some(Phase::Downloading),
                    log: None,
                },
            );
            mgr.update_job_status(id, JobStatus::Downloading, p);
            proof {
                if i0 >= 0 {
                    let e = EntryView {
                        job: stdout_job_transform(v0[i0].job, line@),
                        registered: v0[i0].registered,
                    };
                    assert(mgr@ =~= v0.update(i0, e));
                }
            }
        },
        None => {
            proof {
                if i0 >= 0 {
                    let e = EntryView {
                        job: stdout_job_transform(v0[i0].job, line@),
                        registered: v0[i0].registered,
                    };
                    assert(mgr@ =~= v0.update(i0, e));
                }
            }
        },
    }
    payloads
}

/// Handle one stderr line: publish a log event with the stream marker and
/// update the stored job's logs and phase. Stderr lines never carry
/// progress.
pub fn process_stderr_line(mgr: &mut DownloadManager, id: &str, line: &str) -> (payloads: Vec<
    DownloadProgressPayload,
>)
    requires
        old(mgr).wf(),
    ensures
        final(mgr).wf(),
        stderr_applied(old(mgr)@, final(mgr)@, id@, line@),
        stderr_events_ok(id@, line@, payloads@),
{
    let ghost v0 = mgr@;
    let ghost i0 = first_where(v0, id_pred(id@));
    let t = trim(line);
    let ds = parse_log_status(t);
    let mut marked = String::from_str("[stderr] ");
    marked.append(t);
    let mut payloads: Vec<DownloadProgressPayload> = Vec::new();
    payloads.push(
        DownloadProgressPayload {
            id: id.to_owned(),
            progress: None,
            status: JobStatus::Downloading,
            detailed_status: ds,
            log: Some(marked.clone()),
        },
    );
    mgr.append_log(id, marked);
    let ghost v1 = mgr@;
    proof {
        lemma_first_where(v0, id_pred(id@));
        if i0 >= 0 {
            assert(forall|k: int|
                0 <= k < v0.len() ==> (id_pred(id@)(#[trigger] v1[k]) == id_pred(id@)(v0[k])));
            lemma_first_where_congruent(v0, v1, id_pred(id@));
        }
    }
    mgr.update_detailed_status(id, ds);
    proof {
        if i0 >= 0 {
            let e = EntryView {
                job: stderr_job_transform(v0[i0].job, line@),
                registered: v0[i0].registered,
            };
            assert(mgr@ =~= v0.update(i0, e));
        }
    }
    payloads
}

/// Decide what the runtime must do for one observation of the race: lines
/// are processed and the race continues, end of stream means waiting for
/// the exit status, and a cancellation that wins the race kills the
/// process, keeping whatever output was already processed.
pub fn handle_stream_event(mgr: &mut DownloadManager, id: &str, event: &StreamEvent) -> (r: (
    Directive,
    Vec<DownloadProgressPayload>,
))
    requires
        old(mgr).wf(),
        ({
            let i = first_where(old(mgr)@, id_pred(id@));
            i >= 0 ==> old(mgr)@[i].job.status.is_active()
        }),
    ensures
        final(mgr).wf(),
        event matches StreamEvent::StdoutLine(l) ==> r.0 == Directive::Proceed && stdout_applied(
            old(mgr)@,
            final(mgr)@,
            id@,
            l@,
        ) && stdout_events_ok(id@, l@, r.1@),
        event matches StreamEvent::StderrLine(l) ==> r.0 == Directive::Proceed && stderr_applied(
            old(mgr)@,
            final(mgr)@,
            id@,
            l@,
        ) && stderr_events_ok(id@, l@, r.1@),
        event is Eof ==> r.0 == Directive::AwaitExit && final(mgr)@ == old(mgr)@ && r.1@.len()
            == 0,
        event is CancelFired ==> r.0 == Directive::KillProcess && final(mgr)@ == old(mgr)@
            && r.1@.len() == 0,
{
    match event {
        StreamEvent::StdoutLine(l) => {
            let payloads = process_stdout_line(mgr, id, l.as_str());
            (Directive::Proceed, payloads)
        },
        StreamEvent::StderrLine(l) => {
            let payloads = process_stderr_line(mgr, id, l.as_str());
            (Directive::Proceed, payloads)
        },
        StreamEvent::Eof => (Directive::AwaitExit, Vec::new()),
        StreamEvent::CancelFired => (Directive::KillProcess, Vec::new()),
    }
}

/// Interpret the process's exit status: success exactly on a zero exit;
/// a non-zero exit carries the code.
pub fn exit_outcome(success: bool, code: Option<i32>) -> (r: Result<(), DownloadError>)
    ensures
        success ==> r is Ok,
        !success ==> (r matches Err(e) && e == (DownloadError::Runtime { code })),
{
    if success {
        Ok(())
    } else {
        Err(DownloadError::Runtime { code })
    }
}

/// Resolve the literal output filename from what the side-effect-free
/// second invocation printed: its trimmed output, which must be non-empty.
/// An empty answer fails the job even though the transfer succeeded.
pub fn resolve_filename(raw: &str) -> (r: Result<String, DownloadError>)
    ensures
        trim_spec(raw@).len() > 0 <==> r is Ok,
        r matches Ok(f) ==> f@ == trim_spec(raw@),
        r matches Err(e) ==> e is PostSuccess && e.spec_message()
            == "Failed to resolve downloaded filename"@,
{
    let t = trim(raw);
    if t.unicode_len() == 0 {
        Err(DownloadError::PostSuccess(String::from_str("Failed to resolve downloaded filename")))
    } else {
        Ok(t.to_owned())
    }
}

/// Apply one job's final outcome to the store and say what must be
/// published: the cancellation registration is dropped unconditionally;
/// a success marks the job `Completed` with full progress; any failure
/// marks it `Error` with progress reset, and yields the error event whose
/// cancellation flag is set exactly for a cancelled job. Afterwards the
/// job is terminal and no process is registered for it, whichever kind of
/// outcome arrived.
pub fn apply_outcome(mgr: &mut DownloadManager, id: &str, outcome: &Result<(), DownloadError>) -> (r:
    Option<DownloadErrorPayload>)
    requires
        old(mgr).wf(),
    ensures
        final(mgr).wf(),
        ({
            let i = first_where(old(mgr)@, id_pred(id@));
            if i >= 0 {
                final(mgr)@ == old(mgr)@.update(
                    i,
                    (EntryView {
                        job: JobView {
                            status: if outcome is Ok {
                                JobStatus::Completed
                            } else {
                                JobStatus::Error
                            },
                            progress: if outcome is Ok {
                                1000
                            } else {
                                0
                            },
                            ..old(mgr)@[i].job
                        },
                        registered: false,
                    }),
                )
            } else {
                final(mgr)@ == old(mgr)@
            }
        }),
        (r is Some) == (outcome is Err),
        outcome matches Err(e) ==> r matches Some(p) && p.id@ == id@ && p.error@
            == e.spec_message() && p.is_cancelled == (e is Cancelled),
{
    let ghost v0 = mgr@;
    let ghost i0 = first_where(v0, id_pred(id@));
    mgr.finish_process(id);
    let ghost v1 = mgr@;
    proof {
        lemma_first_where(v0, id_pred(id@));
        if i0 >= 0 {
            assert(forall|k: int|
                0 <= k < v0.len() ==> (id_pred(id@)(#[trigger] v1[k]) == id_pred(id@)(v0[k])));
            lemma_first_where_congruent(v0, v1, id_pred(id@));
        }
    }
    match outcome {
        Ok(_) => {
            mgr.update_job_status(id, JobStatus::Completed, 1000);
            proof {
                if i0 >= 0 {
                    let e = EntryView {
                        job: JobView {
                            status: JobStatus::Completed,
                            progress: 1000,
                            ..v0[i0].job
                        },
                        registered: false,
                    };
                    assert(mgr@ =~= v0.update(i0, e));
                }
            }
            None
        },
        Err(e) => {
            mgr.update_job_status(id, JobStatus::Error, 0);
            proof {
                if i0 >= 0 {
                    let ev = EntryView {
                        job: JobView { status: JobStatus::Error, progress: 0, ..v0[i0].job },
                        registered: false,
                    };
                    assert(mgr@ =~= v0.update(i0, ev));
                }
            }
            Some(
                DownloadErrorPayload {
                    id: id.to_owned(),
                    error: e.message(),
                    is_cancelled: e.is_cancelled(),
                },
            )
        },
    }
}

/// Index of the last slash in `s`, or `-1`.
pub open spec fn last_slash(s: Seq<char>) -> int
    decreases s.len(),
{
    if s.len() == 0 {
        -1
    } else if s.last() == '/' {
        s.len() - 1
    } else {
        last_slash(s.drop_last())
    }
}

/// Index of the last dot in `s`, or `-1`.
pub open spec fn last_dot(s: Seq<char>) -> int
    decreases s.len(),
{
    if s.len() == 0 {
        -1
    } else if s.last() == '.' {
        s.len() - 1
    } else {
        last_dot(s.drop_last())
    }
}

/// The final path component of `s` (after the last slash).
pub open spec fn base_name(s: Seq<char>) -> Seq<char> {
    s.subrange(last_slash(s) + 1, s.len() as int)
}

/// `b` with its extension replaced by `mp3`: everything after the last dot
/// is dropped first, unless the dot leads the name (a bare hidden file has
/// no extension) or there is none.
pub open spec fn with_mp3_extension(b: Seq<char>) -> Seq<char> {
    let d = last_dot(b);
    if d > 0 {
        b.subrange(0, d) + ".mp3"@
    } else {
        b + ".mp3"@
    }
}

proof fn lemma_last_slash_bounds(s: Seq<char>)
    ensures
        -1 <= last_slash(s) < s.len(),
        forall|k: int| last_slash(s) < k < s.len() ==> s[k] != '/',
        last_slash(s) >= 0 ==> s[last_slash(s)] == '/',
    decreases s.len(),
{
    if s.len() > 0 && s.last() != '/' {
        let t = s.drop_last();
        lemma_last_slash_bounds(t);
        assert forall|k: int| last_slash(s) < k < s.len() implies s[k] != '/' by {
            if k < s.len() - 1 {
                assert(t[k] == s[k]);
            }
        }
    }
}

proof fn lemma_last_dot_bounds(s: Seq<char>)
    ensures
        -1 <= last_dot(s) < s.len(),
        forall|k: int| last_dot(s) < k < s.len() ==> s[k] != '.',
        last_dot(s) >= 0 ==> s[last_dot(s)] == '.',
    decreases s.len(),
{
    if s.len() > 0 && s.last() != '.' {
        let t = s.drop_last();
        lemma_last_dot_bounds(t);
        assert forall|k: int| last_dot(s) < k < s.len() implies s[k] != '.' by {
            if k < s.len() - 1 {
                assert(t[k] == s[k]);
            }
        }
    }
}

/// Scan for the last slash (or, with `slash` false, the last dot) in `s`.
fn find_last_char(s: &str, slash: bool) -> (r: Option<usize>)
    ensures
        match r {
            Some(i) => i == (if slash {
                last_slash(s@)
            } else {
                last_dot(s@)
            }),
            None => (if slash {
                last_slash(s@)
            } else {
                last_dot(s@)
            }) == -1,
        },
{
    let needle: char = if slash {
        '/'
    } else {
        '.'
    };
    let len = s.unicode_len();
    let mut i: usize = len;
    while i > 0
        invariant
            len == s@.len(),
            i <= len,
            needle == (if slash {
                '/'
            } else {
                '.'
            }),
            forall|k: int| i <= k < len ==> s@[k] != needle,
        decreases i,
    {
        i -= 1;
        if s.get_char(i) == needle {
            proof {
                if slash {
                    lemma_last_slash_bounds(s@);
                    lemma_last_slash_suffix(s@, i as int);
                } else {
                    lemma_last_dot_bounds(s@);
                    lemma_last_dot_suffix(s@, i as int);
                }
            }
            return Some(i);
        }
    }
    proof {
        if slash {
            lemma_last_slash_bounds(s@);
            if last_slash(s@) >= 0 {
                assert(s@[last_slash(s@)] == '/');
            }
        } else {
            lemma_last_dot_bounds(s@);
            if last_dot(s@) >= 0 {
                assert(s@[last_dot(s@)] == '.');
            }
        }
    }
    None
}

proof fn lemma_last_slash_suffix(s: Seq<char>, i: int)
    requires
        0 <= i < s.len(),
        s[i] == '/',
        forall|k: int| i < k < s.len() ==> s[k] != '/',
    ensures
        last_slash(s) == i,
    decreases s.len(),
{
    if i == s.len() - 1 {
    } else {
        assert(s.last() != '/');
        let t = s.drop_last();
        assert(forall|k: int| 0 <= k < t.len() ==> t[k] == s[k]);
        lemma_last_slash_suffix(t, i);
    }
}

proof fn lemma_last_dot_suffix(s: Seq<char>, i: int)
    requires
        0 <= i < s.len(),
        s[i] == '.',
        forall|k: int| i < k < s.len() ==> s[k] != '.',
    ensures
        last_dot(s) == i,
    decreases s.len(),
{
    if i == s.len() - 1 {
    } else {
        assert(s.last() != '.');
        let t = s.drop_last();
        assert(forall|k: int| 0 <= k < t.len() ==> t[k] == s[k]);
        lemma_last_dot_suffix(t, i);
    }
}

/// The record committed to the library for a successful job: the resolved
/// output path is reduced to its final component and its extension forced
/// to `mp3` (the produced artifact is always an `mp3`, whatever extension
/// the resolver reported). Path components are separated by `/`.
pub fn completion_song(id: &str, metadata: &Metadata, filename: &str) -> (song: Song)
    ensures
        song@.id == id@,
        song@.title == metadata@.title,
        song@.artist == metadata@.artist,
        song@.album == metadata@.album,
        song@.filename == with_mp3_extension(base_name(filename@)),
{
    proof {
        lemma_last_slash_bounds(filename@);
    }
    let len = filename.unicode_len();
    let base = match find_last_char(filename, true) {
        Some(i) => filename.substring_char(i + 1, len),
        None => filename.substring_char(0, len),
    };
    assert(base@ =~= base_name(filename@));
    proof {
        lemma_last_dot_bounds(base@);
    }
    let mut name = match find_last_char(base, false) {
        Some(d) if d > 0 => base.substring_char(0, d).to_owned(),
        _ => base.to_owned(),
    };
    name.append(".mp3");
    assert(name@ =~= with_mp3_extension(base_name(filename@)));
    let album = match &metadata.album {
        Some(a) => Some(a.clone()),
        None => None,
    };
    Song {
        id: id.to_owned(),
        title: metadata.title.clone(),
        artist: metadata.artist.clone(),
        album,
        filename: name,
    }
}

} // verus!
