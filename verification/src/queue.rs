//! The queue store and the scheduler's decisions over it: an ordered
//! collection of job records, each paired with a flag saying whether a
//! cancellation signal is currently registered for it.
//!
//! The store upholds two invariants (see [`DownloadManager::wf`]): at most
//! one job is active (`Pending` or `Downloading`) at any instant — the
//! single-worker discipline — and job ids are unique. Queue order is FIFO
//! over insertion order; no operation reorders surviving entries.
//!
//! The store itself does no I/O and holds no lock; the surrounding runtime
//! wraps it in one and performs each call here as one short critical
//! section, emitting the returned events afterwards.

use vstd::prelude::*;

use crate::counting::{
    count_by, first_where, keep, lemma_count_bounds, lemma_count_push, lemma_count_update,
    lemma_count_zero, lemma_first_where, lemma_keep_count_le, lemma_keep_elems,
    lemma_keep_idempotent,
};
use crate::job::{DownloadJob, JobView, Metadata};
use crate::status::JobStatus;
use crate::text::str_eq;

verus! {

/// One stored entry: the job record and whether a one-shot cancellation
/// signal is currently registered for it.
pub struct JobEntry {
    pub job: DownloadJob,
    pub cancel_registered: bool,
}

/// Mathematical image of [`JobEntry`].
pub ghost struct EntryView {
    pub job: JobView,
    pub registered: bool,
}

impl View for JobEntry {
    type V = EntryView;

    open spec fn view(&self) -> EntryView {
        EntryView { job: self.job@, registered: self.cancel_registered }
    }
}

/// An entry whose job is active (`Pending` or `Downloading`).
pub open spec fn active_pred() -> spec_fn(EntryView) -> bool {
    |e: EntryView| e.job.status.is_active()
}

/// An entry whose job is still `Queued`.
pub open spec fn queued_pred() -> spec_fn(EntryView) -> bool {
    |e: EntryView| e.job.status == JobStatus::Queued
}

/// An entry whose job is not terminal (survives "clear history").
pub open spec fn nonterminal_pred() -> spec_fn(EntryView) -> bool {
    |e: EntryView| !e.job.status.is_terminal()
}

/// An entry whose job is not `Queued` (survives "clear queue").
pub open spec fn nonqueued_pred() -> spec_fn(EntryView) -> bool {
    |e: EntryView| e.job.status != JobStatus::Queued
}

/// An entry whose job carries the given id.
pub open spec fn id_pred(id: Seq<char>) -> spec_fn(EntryView) -> bool {
    |e: EntryView| e.job.id == id
}

/// An entry whose job does not carry the given id (survives removal).
pub open spec fn other_id_pred(id: Seq<char>) -> spec_fn(EntryView) -> bool {
    |e: EntryView| e.job.id != id
}

/// Number of active entries.
pub open spec fn count_active(s: Seq<EntryView>) -> int {
    count_by(s, active_pred())
}

/// Number of `Queued` entries.
pub open spec fn count_queued(s: Seq<EntryView>) -> int {
    count_by(s, queued_pred())
}

/// Some entry carries the given id.
pub open spec fn has_id(s: Seq<EntryView>, id: Seq<char>) -> bool {
    exists|k: int| 0 <= k < s.len() && (#[trigger] s[k]).job.id == id
}

/// All entries carry pairwise distinct ids.
pub open spec fn ids_unique(s: Seq<EntryView>) -> bool {
    forall|i: int, j: int|
        0 <= i < j < s.len() ==> (#[trigger] s[i]).job.id != (#[trigger] s[j]).job.id
}

/// The single-worker discipline: at most one job is active at any instant.
pub open spec fn single_worker(s: Seq<EntryView>) -> bool {
    count_active(s) <= 1
}

/// Which entries a removal operation keeps.
enum RetainRule<'a> {
    /// Keep entries whose id differs (remove one job).
    OtherId(&'a str),
    /// Keep non-terminal entries (clear completed/errored history).
    NonTerminal,
    /// Keep non-`Queued` entries (clear the pending queue).
    NonQueued,
}

impl<'a> RetainRule<'a> {
    /// The predicate the surviving entries satisfy.
    spec fn pred(self) -> spec_fn(EntryView) -> bool {
        match self {
            RetainRule::OtherId(id) => other_id_pred(id@),
            RetainRule::NonTerminal => nonterminal_pred(),
            RetainRule::NonQueued => nonqueued_pred(),
        }
    }

    fn test(&self, e: &JobEntry) -> (r: bool)
        ensures
            r == self.pred()(e@),
    {
        match self {
            RetainRule::OtherId(id) => !str_eq(e.job.id.as_str(), id),
            RetainRule::NonTerminal => !e.job.status.terminal(),
            RetainRule::NonQueued => {
                let q = matches!(e.job.status, JobStatus::Queued);
                !q
            },
        }
    }
}

/// Ordered, in-memory store of job records; the single source of truth for
/// job state.
pub struct DownloadManager {
    jobs: Vec<JobEntry>,
}

impl View for DownloadManager {
    type V = Seq<EntryView>;

    closed spec fn view(&self) -> Seq<EntryView> {
        self.jobs@.map_values(|e: JobEntry| e@)
    }
}

/// Replacing an entry by one with the same id keeps ids unique.
proof fn lemma_update_same_id_unique(s: Seq<EntryView>, i: int, e: EntryView)
    requires
        ids_unique(s),
        0 <= i < s.len(),
        e.job.id == s[i].job.id,
    ensures
        ids_unique(s.update(i, e)),
{
    let u = s.update(i, e);
    assert forall|a: int, b: int|
        0 <= a < b < u.len() implies (#[trigger] u[a]).job.id != (#[trigger] u[b]).job.id by {
        assert(s[a].job.id != s[b].job.id);
        if a == i {
            assert(u[a].job.id == s[a].job.id);
        }
        if b == i {
            assert(u[b].job.id == s[b].job.id);
        }
    }
}

proof fn lemma_keep_unique(s: Seq<EntryView>, p: spec_fn(EntryView) -> bool)
    requires
        ids_unique(s),
    ensures
        ids_unique(keep(s, p)),
    decreases s.len(),
{
    if s.len() > 0 {
        let t = s.drop_last();
        assert(forall|i: int| 0 <= i < t.len() ==> t[i] == s[i]);
        lemma_keep_unique(t, p);
        if p(s.last()) {
            lemma_keep_elems(t, p);
            let k = keep(s, p);
            assert(k =~= keep(t, p).push(s.last()));
            assert forall|i: int, j: int|
                0 <= i < j < k.len() implies (#[trigger] k[i]).job.id != (#[trigger] k[j]).job.id by {
                if j < keep(t, p).len() {
                    assert(k[i] == keep(t, p)[i] && k[j] == keep(t, p)[j]);
                } else {
                    assert(k[j] == s.last());
                    assert(k[i] == keep(t, p)[i]);
                    let m = choose|m: int| 0 <= m < t.len() && keep(t, p)[i] == t[m];
                    assert(s[m] == t[m]);
                    assert(s[m].job.id != s[s.len() - 1].job.id);
                }
            }
        }
    }
}

impl DownloadManager {
    /// Both store invariants: the single-worker discipline and id
    /// uniqueness.
    pub open spec fn wf(self) -> bool {
        single_worker(self@) && ids_unique(self@)
    }

    /// An empty store.
    pub fn new() -> (m: DownloadManager)
        ensures
            m@ == Seq::<EntryView>::empty(),
            m.wf(),
    {
        let m = DownloadManager { jobs: Vec::new() };
        assert(m@ =~= Seq::<EntryView>::empty());
        m
    }

    /// Number of stored entries.
    pub fn len(&self) -> (n: usize)
        ensures
            n == self@.len(),
    {
        self.jobs.len()
    }

    /// Index of the entry carrying `id`, if any.
    fn find_by_id(&self, id: &str) -> (r: Option<usize>)
        ensures
            match r {
                Some(i) => i == first_where(self@, id_pred(id@)),
                None => first_where(self@, id_pred(id@)) == -1,
            },
    {
        proof {
            lemma_first_where(self@, id_pred(id@));
        }
        let n = self.jobs.len();
        let mut i: usize = 0;
        while i < n
            invariant
                n == self@.len(),
                i <= n,
                forall|k: int| 0 <= k < i ==> !(id_pred(id@)(#[trigger] self@[k])),
            decreases n - i,
        {
            if str_eq(self.jobs[i].job.id.as_str(), id) {
                assert(id_pred(id@)(self@[i as int]));
                proof {
                    lemma_first_where(self@, id_pred(id@));
                }
                return Some(i);
            }
            i += 1;
        }
        proof {
            lemma_first_where(self@, id_pred(id@));
        }
        None
    }

    /// Is any job active? (The scheduler's `Busy` test.)
    fn has_active(&self) -> (r: bool)
        ensures
            r == (count_active(self@) > 0),
    {
        proof {
            lemma_count_zero(self@, active_pred());
            lemma_count_bounds(self@, active_pred());
        }
        let n = self.jobs.len();
        let mut i: usize = 0;
        while i < n
            invariant
                n == self@.len(),
                i <= n,
                forall|k: int| 0 <= k < i ==> !(active_pred()(#[trigger] self@[k])),
            decreases n - i,
        {
            if self.jobs[i].job.status.active() {
                assert(active_pred()(self@[i as int]));
                proof {
                    lemma_count_zero(self@, active_pred());
                    lemma_count_bounds(self@, active_pred());
                }
                return true;
            }
            i += 1;
        }
        proof {
            lemma_count_zero(self@, active_pred());
        }
        false
    }

    /// Append a freshly created job. The enqueue entrypoint must not reuse
    /// an id that is still stored.
    pub fn add_job(&mut self, job: DownloadJob)
        requires
            old(self).wf(),
            job@.status == JobStatus::Queued,
            !has_id(old(self)@, job@.id),
        ensures
            final(self)@ == old(self)@.push(
                (EntryView { job: job@, registered: false }),
            ),
            count_queued(final(self)@) == count_queued(old(self)@) + 1,
            count_active(final(self)@) == count_active(old(self)@),
            final(self).wf(),
    {
        let ghost oldv = self@;
        let ghost e = EntryView { job: job@, registered: false };
        self.jobs.push(JobEntry { job, cancel_registered: false });
        assert(self@ =~= oldv.push(e));
        proof {
            lemma_count_push(oldv, active_pred(), e);
            lemma_count_push(oldv, queued_pred(), e);
        }
    }

    /// A snapshot of the stored jobs, in order.
    pub fn get_jobs(&self) -> (r: Vec<DownloadJob>)
        ensures
            r@.len() == self@.len(),
            forall|i: int| 0 <= i < r@.len() ==> (#[trigger] r@[i])@ == self@[i].job,
    {
        let n = self.jobs.len();
        let mut out: Vec<DownloadJob> = Vec::new();
        let mut i: usize = 0;
        while i < n
            invariant
                n == self@.len(),
                i <= n,
                out@.len() == i,
                forall|k: int| 0 <= k < i ==> (#[trigger] out@[k])@ == self@[k].job,
            decreases n - i,
        {
            out.push(self.jobs[i].job.clone());
            i += 1;
        }
        out
    }

    /// Rebuild the store keeping only the entries satisfying the rule;
    /// shared body of the three removal operations.
    fn retain_where(&mut self, rule: RetainRule<'_>)
        requires
            old(self).wf(),
        ensures
            final(self)@ == keep(old(self)@, rule.pred()),
            final(self).wf(),
    {
        let ghost oldv = self@;
        let ghost p = rule.pred();
        let n = self.jobs.len();
        let mut out: Vec<JobEntry> = Vec::new();
        let mut i: usize = 0;
        while i < n
            invariant
                n == oldv.len(),
                oldv == self@,
                i <= n,
                p == rule.pred(),
                out@.map_values(|e: JobEntry| e@) =~= keep(oldv.subrange(0, i as int), p),
            decreases n - i,
        {
            let ghost prefix = oldv.subrange(0, i as int);
            let keep_it = rule.test(&self.jobs[i]);
            assert(keep_it == p(self@[i as int]));
            assert(oldv.subrange(0, i + 1).drop_last() =~= prefix);
            assert(oldv.subrange(0, i + 1).last() == oldv[i as int]);
            if keep_it {
                let e = JobEntry {
                    job: self.jobs[i].job.clone(),
                    cancel_registered: self.jobs[i].cancel_registered,
                };
                assert(e@ == oldv[i as int]);
                out.push(e);
            }
            i += 1;
        }
        assert(oldv.subrange(0, n as int) =~= oldv);
        self.jobs = out;
        proof {
            lemma_keep_count_le(oldv, active_pred(), p);
            lemma_keep_unique(oldv, p);
        }
    }

    /// Remove the entry carrying `id`; removing an unknown id is a no-op.
    /// Removal of an active job does not stop its process; it only detaches
    /// the record from future listing.
    pub fn remove_job(&mut self, id: &str)
        requires
            old(self).wf(),
        ensures
            final(self)@ == keep(old(self)@, other_id_pred(id@)),
            final(self).wf(),
    {
        self.retain_where(RetainRule::OtherId(id));
    }

    /// Remove every terminal (`Completed` or `Error`) entry.
    pub fn clear_history(&mut self)
        requires
            old(self).wf(),
        ensures
            final(self)@ == keep(old(self)@, nonterminal_pred()),
            final(self).wf(),
    {
        self.retain_where(RetainRule::NonTerminal);
    }

    /// Remove every still-`Queued` entry.
    pub fn clear_queue(&mut self)
        requires
            old(self).wf(),
        ensures
            final(self)@ == keep(old(self)@, nonqueued_pred()),
            final(self).wf(),
    {
        self.retain_where(RetainRule::NonQueued);
    }

    /// Overwrite status and progress of the job carrying `id`; a missing id
    /// is a no-op. Marking a job active is only allowed when it already is
    /// (the scheduler claims a worker through [`Self::start_next_job`]
    /// alone), which preserves the single-worker discipline.
    pub fn update_job_status(&mut self, id: &str, status: JobStatus, progress: u32)
        requires
            old(self).wf(),
            status.is_active() ==> {
                let i = first_where(old(self)@, id_pred(id@));
                i >= 0 ==> old(self)@[i].job.status.is_active()
            },
        ensures
            ({
                let i = first_where(old(self)@, id_pred(id@));
                if i >= 0 {
                    final(self)@ == old(self)@.update(
                        i,
                        (EntryView {
                            job: JobView { status, progress, ..old(self)@[i].job },
                            registered: old(self)@[i].registered,
                        }),
                    )
                } else {
                    final(self)@ == old(self)@
                }
            }),
            final(self).wf(),
    {
        proof {
            lemma_first_where(self@, id_pred(id@));
        }
        match self.find_by_id(id) {
            None => {
            },
            Some(i) => {
                let ghost oldv = self@;
                let ghost gi = i as int;
                let mut job = self.jobs[i].job.clone();
                job.status = status;
                job.progress = progress;
                let reg = self.jobs[i].cancel_registered;
                let ghost e = EntryView {
                    job: JobView { status, progress, ..oldv[gi].job },
                    registered: oldv[gi].registered,
                };
                self.jobs.set(i, JobEntry { job, cancel_registered: reg });
                assert(self@ =~= oldv.update(gi, e));
                proof {
                    lemma_count_update(oldv, active_pred(), gi, e);
                    lemma_count_bounds(oldv, active_pred());
                    lemma_update_same_id_unique(oldv, gi, e);
                    if status.is_active() {
                        assert(active_pred()(oldv[gi]));
                    }
                }
            },
        }
    }

    /// Append one raw output line to the logs of the job carrying `id`;
    /// a missing id is a no-op.
    pub fn append_log(&mut self, id: &str, line: String)
        requires
            old(self).wf(),
        ensures
            ({
                let i = first_where(old(self)@, id_pred(id@));
                if i >= 0 {
                    final(self)@ == old(self)@.update(
                        i,
                        (EntryView {
                            job: JobView {
                                logs: old(self)@[i].job.logs.push(line@),
                                ..old(self)@[i].job
                            },
                            registered: old(self)@[i].registered,
                        }),
                    )
                } else {
                    final(self)@ == old(self)@
                }
            }),
            final(self).wf(),
    {
        proof {
            lemma_first_where(self@, id_pred(id@));
        }
        match self.find_by_id(id) {
            None => {
            },
            Some(i) => {
                let ghost oldv = self@;
                let ghost gi = i as int;
                let mut job = self.jobs[i].job.clone();
                job.logs.push(line);
                let reg = self.jobs[i].cancel_registered;
                let ghost e = EntryView {
                    job: JobView { logs: oldv[gi].job.logs.push(line@), ..oldv[gi].job },
                    registered: oldv[gi].registered,
                };
                self.jobs.set(i, JobEntry { job, cancel_registered: reg });
                assert(self@[gi].job.logs =~= e.job.logs);
                assert(self@ =~= oldv.update(gi, e));
                proof {
                    lemma_count_update(oldv, active_pred(), gi, e);
                    lemma_count_bounds(oldv, active_pred());
                    lemma_update_same_id_unique(oldv, gi, e);
                }
            },
        }
    }

    /// Replace the phase label of the job carrying `id`. A `None` phase
    /// (unclassified line) leaves the stored label untouched, as does a
    /// missing id.
    pub fn update_detailed_status(&mut self, id: &str, detailed_status: Option<
        crate::status::Phase,
    >)
        requires
            old(self).wf(),
        ensures
            ({
                let i = first_where(old(self)@, id_pred(id@));
                if i >= 0 && detailed_status is Some {
                    final(self)@ == old(self)@.update(
                        i,
                        (EntryView {
                            job: JobView { detailed_status, ..old(self)@[i].job },
                            registered: old(self)@[i].registered,
                        }),
                    )
                } else {
                    final(self)@ == old(self)@
                }
            }),
            final(self).wf(),
    {
        proof {
            lemma_first_where(self@, id_pred(id@));
        }
        if detailed_status.is_none() {
            return ;
        }
        match self.find_by_id(id) {
            None => {
            },
            Some(i) => {
                let ghost oldv = self@;
                let ghost gi = i as int;
                let mut job = self.jobs[i].job.clone();
                job.detailed_status = detailed_status;
                let reg = self.jobs[i].cancel_registered;
                let ghost e = EntryView {
                    job: JobView { detailed_status, ..oldv[gi].job },
                    registered: oldv[gi].registered,
                };
                self.jobs.set(i, JobEntry { job, cancel_registered: reg });
                assert(self@ =~= oldv.update(gi, e));
                proof {
                    lemma_count_update(oldv, active_pred(), gi, e);
                    lemma_count_bounds(oldv, active_pred());
                    lemma_update_same_id_unique(oldv, gi, e);
                }
            },
        }
    }

    /// Record that a one-shot cancellation signal now exists for the job
    /// carrying `id` (the runtime keeps the signal itself); a missing id is
    /// a no-op.
    pub fn register_cancel(&mut self, id: &str)
        requires
            old(self).wf(),
        ensures
            ({
                let i = first_where(old(self)@, id_pred(id@));
                if i >= 0 {
                    final(self)@ == old(self)@.update(
                        i,
                        (EntryView { job: old(self)@[i].job, registered: true }),
                    )
                } else {
                    final(self)@ == old(self)@
                }
            }),
            final(self).wf(),
    {
        self.set_registered(id, true);
    }

    /// Drop the cancellation registration of the job carrying `id`, called
    /// unconditionally once its process race completes; a missing id is a
    /// no-op.
    pub fn finish_process(&mut self, id: &str)
        requires
            old(self).wf(),
        ensures
            ({
                let i = first_where(old(self)@, id_pred(id@));
                if i >= 0 {
                    final(self)@ == old(self)@.update(
                        i,
                        (EntryView { job: old(self)@[i].job, registered: false }),
                    )
                } else {
                    final(self)@ == old(self)@
                }
            }),
            final(self).wf(),
    {
        self.set_registered(id, false);
    }

    fn set_registered(&mut self, id: &str, registered: bool)
        requires
            old(self).wf(),
        ensures
            ({
                let i = first_where(old(self)@, id_pred(id@));
                if i >= 0 {
                    final(self)@ == old(self)@.update(
                        i,
                        (EntryView { job: old(self)@[i].job, registered }),
                    )
                } else {
                    final(self)@ == old(self)@
                }
            }),
            final(self).wf(),
    {
        proof {
            lemma_first_where(self@, id_pred(id@));
        }
        match self.find_by_id(id) {
            None => {
            },
            Some(i) => {
                let ghost oldv = self@;
                let ghost gi = i as int;
                let job = self.jobs[i].job.clone();
                let ghost e = EntryView { job: oldv[gi].job, registered };
                self.jobs.set(i, JobEntry { job, cancel_registered: registered });
                assert(self@ =~= oldv.update(gi, e));
                proof {
                    lemma_count_update(oldv, active_pred(), gi, e);
                    lemma_count_bounds(oldv, active_pred());
                    lemma_update_same_id_unique(oldv, gi, e);
                }
            },
        }
    }

    /// Decide whether a cancellation signal must be sent for `id`: true
    /// exactly when the job is stored and currently registered, in which
    /// case the registration is consumed (at most one signal is ever sent
    /// per registration). Cancelling a job that is not registered — in
    /// particular one not currently `Pending`/`Downloading` — changes
    /// nothing: no job record, status, progress or queue position moves.
    pub fn cancel_job(&mut self, id: &str) -> (send: bool)
        requires
            old(self).wf(),
        ensures
            ({
                let i = first_where(old(self)@, id_pred(id@));
                if i >= 0 && old(self)@[i].registered {
                    send && final(self)@ == old(self)@.update(
                        i,
                        (EntryView { job: old(self)@[i].job, registered: false }),
                    )
                } else {
                    !send && final(self)@ == old(self)@
                }
            }),
            final(self)@.len() == old(self)@.len(),
            forall|k: int|
                0 <= k < old(self)@.len() ==> (#[trigger] final(self)@[k]).job == old(self)@[k].job,
            final(self).wf(),
    {
        proof {
            lemma_first_where(self@, id_pred(id@));
        }
        match self.find_by_id(id) {
            None => false,
            Some(i) => {
                if self.jobs[i].cancel_registered {
                    let ghost oldv = self@;
                    let ghost gi = i as int;
                    let job = self.jobs[i].job.clone();
                    let ghost e = EntryView { job: oldv[gi].job, registered: false };
                    self.jobs.set(i, JobEntry { job, cancel_registered: false });
                    assert(self@ =~= oldv.update(gi, e));
                    proof {
                        lemma_count_update(oldv, active_pred(), gi, e);
                        lemma_count_bounds(oldv, active_pred());
                    }
                    true
                } else {
                    false
                }
            },
        }
    }

    /// The scheduler step: when no job is active, claim the earliest
    /// inserted `Queued` job by marking it `Pending` and hand back what the
    /// process runner needs (id, source URL, metadata). When a job is
    /// already active, or nothing is queued, this changes nothing.
    ///
    /// Started this way, exactly one job leaves `Queued` and exactly one
    /// job is active afterwards; the queue is never reordered and never
    /// starts two workers, however often the trigger fires.
    pub fn start_next_job(&mut self) -> (r: Option<(String, String, Metadata)>)
        requires
            old(self).wf(),
        ensures
            final(self).wf(),
            count_active(old(self)@) > 0 ==> r is None && final(self)@ == old(self)@,
            count_active(old(self)@) == 0 && count_queued(old(self)@) == 0 ==> r is None
                && final(self)@ == old(self)@,
            count_active(old(self)@) == 0 && count_queued(old(self)@) > 0 ==> ({
                let i = first_where(old(self)@, queued_pred());
                &&& 0 <= i < old(self)@.len()
                &&& old(self)@[i].job.status == JobStatus::Queued
                &&& final(self)@ == old(self)@.update(
                    i,
                    (EntryView {
                        job: JobView { status: JobStatus::Pending, ..old(self)@[i].job },
                        registered: old(self)@[i].registered,
                    }),
                )
                &&& r matches Some(t) && t.0@ == old(self)@[i].job.id && t.1@
                    == old(self)@[i].job.url && t.2@ == old(self)@[i].job.metadata
                &&& count_active(final(self)@) == 1
                &&& count_queued(final(self)@) == count_queued(old(self)@) - 1
            }),
    {
        proof {
            lemma_first_where(self@, queued_pred());
            lemma_count_zero(self@, queued_pred());
            lemma_count_bounds(self@, queued_pred());
            lemma_count_bounds(self@, active_pred());
        }
        if self.has_active() {
            return None;
        }
        let n = self.jobs.len();
        let mut i: usize = 0;
        while i < n
            invariant
                old(self) == self,
                n == self@.len(),
                i <= n,
                ids_unique(self@),
                count_active(self@) == 0,
                forall|k: int| 0 <= k < i ==> !(queued_pred()(#[trigger] self@[k])),
            decreases n - i,
        {
            let q = matches!(self.jobs[i].job.status, JobStatus::Queued);
            if q {
                assert(queued_pred()(self@[i as int]));
                proof {
                    lemma_first_where(self@, queued_pred());
                    lemma_count_zero(self@, queued_pred());
                    lemma_count_bounds(self@, queued_pred());
                }
                let ghost oldv = self@;
                let ghost gi = i as int;
                let mut job = self.jobs[i].job.clone();
                job.status = JobStatus::Pending;
                let id = job.id.clone();
                let url = job.url.clone();
                let metadata = job.metadata.clone();
                let reg = self.jobs[i].cancel_registered;
                let ghost e = EntryView {
                    job: JobView { status: JobStatus::Pending, ..oldv[gi].job },
                    registered: oldv[gi].registered,
                };
                self.jobs.set(i, JobEntry { job, cancel_registered: reg });
                assert(self@ =~= oldv.update(gi, e));
                proof {
                    lemma_count_update(oldv, active_pred(), gi, e);
                    lemma_count_update(oldv, queued_pred(), gi, e);
                    lemma_count_bounds(oldv, active_pred());
                    lemma_update_same_id_unique(oldv, gi, e);
                }
                return Some((id, url, metadata));
            }
            i += 1;
        }
        proof {
            lemma_count_zero(self@, queued_pred());
        }
        None
    }
}

/// Clearing the terminal history twice is the same as clearing it once:
/// after one pass nothing terminal remains, so the second pass keeps every
/// surviving entry, whatever the store held.
pub proof fn lemma_clear_history_idempotent(s: Seq<EntryView>)
    ensures
        keep(keep(s, nonterminal_pred()), nonterminal_pred()) == keep(s, nonterminal_pred()),
{
    lemma_keep_idempotent(s, nonterminal_pred());
}

} // verus!
