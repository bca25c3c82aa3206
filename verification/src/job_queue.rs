//! Sequential queue of confirmed actions. Confirming an action while another
//! runs queues it; jobs run strictly one after another, and a cancelled job
//! must have actually finished before the next one starts, since several
//! actions rewrite the single shared working tree.
//!
//! The queue only decides. Its caller runs each job it is told to start on a
//! worker, feeds back progress and results, and sets the cancel flag of a
//! job the queue reports as cancelled.

use vstd::prelude::*;
use std::collections::VecDeque;
use crate::types::{BranchAction, FailureCause, OperationResult, ProgressUpdate, is_branch_not_found, action_label};

verus! {

/// How long a completed job's summary stays visible, in milliseconds.
pub const SUMMARY_LINGER_MS: i64 = 4000;

/// The views of the application.
#[derive(Debug, Clone, Copy, PartialEq, Eq, Structural)]
pub enum ViewId {
    Branches,
    Remotes,
    Tags,
    Worktrees,
    Graph,
}

/// A confirmed action with its targets, optional remote, and the view to
/// refresh once it completes.
#[derive(Debug)]
pub struct ActionJob {
    pub action: BranchAction,
    pub targets: Vec<String>,
    pub remote: Option<String>,
    pub return_view: ViewId,
}

/// The running job and the last progress it reported.
pub struct RunningJob {
    pub job: ActionJob,
    pub latest_progress: Option<ProgressUpdate>,
}

/// Outcome of the most recently completed job.
#[derive(Debug)]
pub struct CompletionSummary {
    pub label: &'static str,
    /// Successful results plus branch-not-found results ("already gone").
    pub success_count: usize,
    pub fail_count: usize,
    /// Failed results other than branch-not-found.
    pub failures: Vec<OperationResult>,
    pub expires_at: i64,
}

/// Emitted when a job's results arrive.
pub struct JobEvent {
    pub action: BranchAction,
    pub targets: Vec<String>,
    pub remote: Option<String>,
    pub return_view: ViewId,
    pub results: Vec<OperationResult>,
    pub failures: Vec<OperationResult>,
}

/// What the worker channels held at one poll.
pub enum DrainOutcome {
    /// The cancelled job has not finished yet (or nothing is draining).
    Pending,
    /// The cancelled job finished anyway with these results.
    Finished(Vec<OperationResult>),
    /// The cancelled job's worker ended without results.
    Disconnected,
}

/// Channel contents handed to [`ActionJobQueue::poll`].
pub struct PollInput {
    pub draining: DrainOutcome,
    /// Progress updates of the running job, oldest first.
    pub progress: Vec<ProgressUpdate>,
    /// Results of the running job, if they arrived.
    pub current_results: Option<Vec<OperationResult>>,
    /// The current time in milliseconds.
    pub now_ms: i64,
}

/// Result of one poll.
pub struct JobPoll {
    pub event: Option<JobEvent>,
    /// Something changed that needs a redraw.
    pub dirty: bool,
    /// A job that must now be started on a worker.
    pub start: Option<ActionJob>,
}

/// Read-only snapshot for rendering the job-status area.
pub struct JobStatusView {
    pub visible: bool,
    pub current_label: Option<&'static str>,
    pub current_progress: Option<ProgressUpdate>,
    pub queued_count: usize,
    pub targets_done: usize,
    pub targets_total: usize,
    /// The last summary, while it lingers.
    pub summary: Option<CompletionSummary>,
}

/// Sequential queue of confirmed actions.
pub struct ActionJobQueue {
    repo_path: String,
    base_branch: String,
    current: Option<RunningJob>,
    draining: Option<ActionJob>,
    queued: VecDeque<ActionJob>,
    targets_done_before_current: usize,
    last_summary: Option<CompletionSummary>,
}

/// A job seen by its parts: action, targets, remote and return view.
pub struct JobView {
    pub action: BranchAction,
    pub targets: Seq<Seq<char>>,
    pub remote: Option<Seq<char>>,
    pub return_view: ViewId,
}

pub open spec fn job_view(j: ActionJob) -> JobView {
    JobView {
        action: j.action,
        targets: j.targets@.map_values(|t: String| t@),
        remote: match j.remote { Some(r) => Some(r@), None => None },
        return_view: j.return_view,
    }
}

pub open spec fn opt_job_view(j: Option<ActionJob>) -> Option<JobView> {
    match j {
        Some(j) => Some(job_view(j)),
        None => None,
    }
}

/// Total number of targets of a sequence of jobs.
pub open spec fn targets_total_of(jobs: Seq<JobView>) -> nat
    decreases jobs.len(),
{
    if jobs.len() == 0 { 0 } else { targets_total_of(jobs.drop_last()) + jobs.last().targets.len() }
}

/// Number of targets of an optional job.
pub open spec fn opt_targets(j: Option<JobView>) -> nat {
    match j {
        Some(j) => j.targets.len(),
        None => 0,
    }
}

/// A result that counts as done: a success, or a branch that was already gone.
pub open spec fn counts_as_success(r: OperationResult) -> bool {
    r.success || is_branch_not_found(r.failure)
}

/// The results that are real failures, in order.
pub open spec fn failures_of(results: Seq<OperationResult>) -> Seq<OperationResult>
    decreases results.len(),
{
    if results.len() == 0 {
        Seq::empty()
    } else if counts_as_success(results.last()) {
        failures_of(results.drop_last())
    } else {
        failures_of(results.drop_last()).push(results.last())
    }
}

/// The number of results that count as done.
pub open spec fn success_count_of(results: Seq<OperationResult>) -> nat
    decreases results.len(),
{
    if results.len() == 0 {
        0
    } else {
        success_count_of(results.drop_last()) + if counts_as_success(results.last()) { 1nat } else { 0nat }
    }
}

pub proof fn lemma_targets_total_push(jobs: Seq<JobView>, j: JobView)
    ensures
        targets_total_of(jobs.push(j)) == targets_total_of(jobs) + j.targets.len(),
{
    assert(jobs.push(j).drop_last() =~= jobs);
}

pub proof fn lemma_targets_total_front(jobs: Seq<JobView>)
    requires
        jobs.len() > 0,
    ensures
        targets_total_of(jobs) == jobs[0].targets.len() + targets_total_of(jobs.drop_first()),
    decreases jobs.len(),
{
    if jobs.len() > 1 {
        lemma_targets_total_front(jobs.drop_last());
        assert(jobs.drop_last().drop_first() =~= jobs.drop_first().drop_last());
    } else {
        assert(jobs.drop_first() =~= Seq::<JobView>::empty());
        assert(jobs.drop_last() =~= Seq::<JobView>::empty());
    }
}

fn clone_string_vec(v: &Vec<String>) -> (r: Vec<String>)
    ensures
        r@ == v@,
{
    let r = v.clone();
    assert(r@ =~= v@);
    r
}

fn clone_opt_string(s: &Option<String>) -> (r: Option<String>)
    ensures
        r == *s,
{
    match s {
        Some(s) => Some(s.clone()),
        None => None,
    }
}

fn clone_job(j: &ActionJob) -> (r: ActionJob)
    ensures
        r.action == j.action,
        r.targets@ == j.targets@,
        r.remote == j.remote,
        r.return_view == j.return_view,
{
    ActionJob {
        action: j.action,
        targets: clone_string_vec(&j.targets),
        remote: clone_opt_string(&j.remote),
        return_view: j.return_view,
    }
}

fn clone_failure(f: &Option<FailureCause>) -> (r: Option<FailureCause>)
    ensures
        r == *f,
{
    match f {
        None => None,
        Some(FailureCause::BranchNotFound) => Some(FailureCause::BranchNotFound),
        Some(FailureCause::NotMerged) => Some(FailureCause::NotMerged),
        Some(FailureCause::CheckedOutInWorktree { worktree_path, is_main }) =>
            Some(FailureCause::CheckedOutInWorktree { worktree_path: worktree_path.clone(), is_main: *is_main }),
        Some(FailureCause::Other { raw_message }) => Some(FailureCause::Other { raw_message: raw_message.clone() }),
    }
}

/// A copy of a result.
pub fn clone_result(r: &OperationResult) -> (c: OperationResult)
    ensures
        c == *r,
{
    OperationResult {
        branch_name: r.branch_name.clone(),
        action: r.action,
        success: r.success,
        message: r.message.clone(),
        failure: clone_failure(&r.failure),
    }
}

fn clone_progress(p: &ProgressUpdate) -> (c: ProgressUpdate)
    ensures
        c == *p,
{
    ProgressUpdate { completed: p.completed, total: p.total, current_item: p.current_item.clone() }
}

fn counts_as_success_exec(r: &OperationResult) -> (b: bool)
    ensures
        b == counts_as_success(*r),
{
    r.success || match &r.failure {
        Some(FailureCause::BranchNotFound) => true,
        _ => false,
    }
}

impl CompletionSummary {
    /// Summarises a job's results at time `now_ms`.
    pub fn new(action: BranchAction, results: &Vec<OperationResult>, now_ms: i64) -> (s: Self)
        requires
            now_ms <= i64::MAX - SUMMARY_LINGER_MS,
        ensures
            s.label == action_label(action),
            s.success_count == success_count_of(results@),
            s.failures@ == failures_of(results@),
            s.fail_count == s.failures.len(),
            s.expires_at == now_ms + SUMMARY_LINGER_MS,
    {
        let mut success_count: usize = 0;
        let mut failures: Vec<OperationResult> = Vec::new();
        let mut i: usize = 0;
        while i < results.len()
            invariant
                i <= results.len(),
                success_count == success_count_of(results@.subrange(0, i as int)),
                success_count <= i,
                failures@ == failures_of(results@.subrange(0, i as int)),
            decreases results.len() - i,
        {
            proof {
                assert(results@.subrange(0, i + 1).drop_last() =~= results@.subrange(0, i as int));
            }
            if counts_as_success_exec(&results[i]) {
                success_count = success_count + 1;
            } else {
                failures.push(clone_result(&results[i]));
            }
            i = i + 1;
        }
        assert(results@.subrange(0, results.len() as int) =~= results@);
        let fail_count = failures.len();
        CompletionSummary {
            label: action.label(),
            success_count,
            fail_count,
            failures,
            expires_at: now_ms + SUMMARY_LINGER_MS,
        }
    }

    pub fn is_expired(&self, now_ms: i64) -> (b: bool)
        ensures
            b == (now_ms > self.expires_at),
    {
        now_ms > self.expires_at
    }
}


/// A completion summary seen by its parts.
pub struct SummaryView {
    pub label: &'static str,
    pub success_count: nat,
    pub fail_count: nat,
    pub failures: Seq<OperationResult>,
    pub expires_at: int,
}

pub open spec fn summary_view(s: CompletionSummary) -> SummaryView {
    SummaryView {
        label: s.label,
        success_count: s.success_count as nat,
        fail_count: s.fail_count as nat,
        failures: s.failures@,
        expires_at: s.expires_at as int,
    }
}

/// The summary of a job of `action` whose results are `results`, completed at `now`.
pub open spec fn summary_of(action: BranchAction, results: Seq<OperationResult>, now: int) -> SummaryView {
    SummaryView {
        label: action_label(action),
        success_count: success_count_of(results),
        fail_count: failures_of(results).len(),
        failures: failures_of(results),
        expires_at: now + SUMMARY_LINGER_MS,
    }
}

/// The queue seen by its parts: the running job and its latest progress, the
/// cancelled job still draining, the queued jobs in order, the targets of the
/// jobs finished in this session, and the last completion summary.
pub struct QueueState {
    pub running: Option<JobView>,
    pub progress: Option<ProgressUpdate>,
    pub draining: Option<JobView>,
    pub queued: Seq<JobView>,
    pub done: nat,
    pub summary: Option<SummaryView>,
}

/// Targets finished in this session plus those of every job not yet finished.
pub open spec fn state_targets(s: QueueState) -> nat {
    s.done + opt_targets(s.running) + opt_targets(s.draining) + targets_total_of(s.queued)
}

/// Nothing runs while a cancelled job drains, jobs wait only behind a busy
/// queue, and the target counters fit in a `usize`.
pub open spec fn state_wf(s: QueueState) -> bool {
    &&& !(s.running is Some && s.draining is Some)
    &&& (s.running is None && s.draining is None) ==> s.queued.len() == 0
    &&& state_targets(s) <= usize::MAX
}

/// Starts the next queued job, or ends the session when nothing is queued.
pub open spec fn advance(s: QueueState) -> QueueState {
    if s.queued.len() > 0 {
        QueueState { running: Some(s.queued[0]), progress: None, queued: s.queued.drop_first(), ..s }
    } else {
        QueueState { done: 0, ..s }
    }
}

/// The cancelled job's worker resolved at this poll.
pub open spec fn drain_resolves(s: QueueState, d: DrainOutcome) -> bool {
    s.draining is Some && !(d is Pending)
}

/// The running job's results arrived at this poll.
pub open spec fn run_finishes(s: QueueState, input: PollInput) -> bool {
    !drain_resolves(s, input.draining) && s.running is Some && input.current_results is Some
}

/// The state after the draining job, progress and results of one poll are taken in.
pub open spec fn after_channels(s: QueueState, input: PollInput) -> QueueState {
    if drain_resolves(s, input.draining) {
        let job = s.draining->0;
        advance(QueueState {
            draining: None,
            done: s.done + job.targets.len(),
            summary: match input.draining {
                DrainOutcome::Finished(rs) => Some(summary_of(job.action, rs@, input.now_ms as int)),
                _ => s.summary,
            },
            ..s
        })
    } else if s.running is Some {
        let progressed = if input.progress@.len() > 0 { Some(input.progress@.last()) } else { s.progress };
        match input.current_results {
            Some(rs) => advance(QueueState {
                running: None,
                progress: None,
                done: s.done + s.running->0.targets.len(),
                summary: Some(summary_of(s.running->0.action, rs@, input.now_ms as int)),
                ..s
            }),
            None => QueueState { progress: progressed, ..s },
        }
    } else {
        s
    }
}

/// The lingering summary has expired by the time of this poll.
pub open spec fn summary_expires(s: QueueState, input: PollInput) -> bool {
    let s2 = after_channels(s, input);
    s2.summary is Some && input.now_ms > s2.summary->0.expires_at
}

/// The state after one poll.
pub open spec fn poll_state(s: QueueState, input: PollInput) -> QueueState {
    let s2 = after_channels(s, input);
    if summary_expires(s, input) { QueueState { summary: None, ..s2 } } else { s2 }
}

/// Whether one poll changed anything that is shown.
pub open spec fn poll_dirty(s: QueueState, input: PollInput) -> bool {
    ||| drain_resolves(s, input.draining)
    ||| (s.running is Some && (input.progress@.len() > 0 || input.current_results is Some))
    ||| summary_expires(s, input)
}

/// The job whose results one poll reports, with those results.
pub open spec fn poll_event(s: QueueState, input: PollInput) -> Option<(JobView, Seq<OperationResult>)> {
    if drain_resolves(s, input.draining) {
        match input.draining {
            DrainOutcome::Finished(rs) => Some((s.draining->0, rs@)),
            _ => None,
        }
    } else if run_finishes(s, input) {
        Some((s.running->0, input.current_results->0@))
    } else {
        None
    }
}

/// Whether one poll starts the next queued job.
pub open spec fn poll_starts(s: QueueState, input: PollInput) -> bool {
    (drain_resolves(s, input.draining) || run_finishes(s, input)) && s.queued.len() > 0
}

proof fn lemma_advance_targets(s: QueueState)
    requires
        s.running is None,
        s.draining is None,
    ensures
        state_targets(advance(s)) <= state_targets(s),
        advance(s).running is None ==> advance(s).queued.len() == 0,
        advance(s).draining is None,
{
    if s.queued.len() > 0 {
        lemma_targets_total_front(s.queued);
    }
}

/// Every poll keeps the queue's invariant.
pub proof fn lemma_poll_keeps_wf(s: QueueState, input: PollInput)
    requires
        state_wf(s),
    ensures
        state_wf(poll_state(s, input)),
{
    if drain_resolves(s, input.draining) {
        let job = s.draining->0;
        let s1 = QueueState {
            draining: None,
            done: s.done + job.targets.len(),
            summary: match input.draining {
                DrainOutcome::Finished(rs) => Some(summary_of(job.action, rs@, input.now_ms as int)),
                _ => s.summary,
            },
            ..s
        };
        lemma_advance_targets(s1);
    } else if s.running is Some {
        match input.current_results {
            Some(rs) => {
                let s1 = QueueState {
                    running: None,
                    progress: None,
                    done: s.done + s.running->0.targets.len(),
                    summary: Some(summary_of(s.running->0.action, rs@, input.now_ms as int)),
                    ..s
                };
                lemma_advance_targets(s1);
            },
            None => {},
        }
    }
}

/// While a cancelled job drains, a poll at which its worker has not
/// resolved reports nothing, starts nothing and keeps the job draining and
/// the queue as it was. The poll at which the worker resolves then starts
/// the first queued job and reports the drained job with its results when
/// it finished with some, and nothing when it ended without results.
pub proof fn lemma_drain_blocks_then_advances(s: QueueState, pending: PollInput, resolved: PollInput)
    requires
        state_wf(s),
        s.draining is Some,
        s.queued.len() > 0,
        pending.draining is Pending,
        !(resolved.draining is Pending),
    ensures
        poll_event(s, pending) is None,
        !poll_starts(s, pending),
        poll_state(s, pending).running is None,
        poll_state(s, pending).draining == s.draining,
        poll_state(s, pending).queued == s.queued,
        state_wf(poll_state(s, pending)),
        poll_starts(poll_state(s, pending), resolved),
        poll_state(poll_state(s, pending), resolved).running == Some(s.queued[0]),
        poll_state(poll_state(s, pending), resolved).draining is None,
        poll_state(poll_state(s, pending), resolved).queued == s.queued.drop_first(),
        poll_event(poll_state(s, pending), resolved) == match resolved.draining {
            DrainOutcome::Finished(rs) => Some((s.draining->0, rs@)),
            _ => None,
        },
{
    lemma_poll_keeps_wf(s, pending);
}

pub open spec fn event_job(e: JobEvent) -> JobView {
    JobView {
        action: e.action,
        targets: e.targets@.map_values(|t: String| t@),
        remote: match e.remote { Some(r) => Some(r@), None => None },
        return_view: e.return_view,
    }
}

proof fn lemma_map_push(q: Seq<ActionJob>, j: ActionJob)
    ensures
        q.push(j).map_values(|x: ActionJob| job_view(x)) =~= q.map_values(|x: ActionJob| job_view(x)).push(job_view(j)),
{
}

proof fn lemma_map_drop_first(q: Seq<ActionJob>)
    requires
        q.len() > 0,
    ensures
        q.subrange(1, q.len() as int).map_values(|x: ActionJob| job_view(x))
            =~= q.map_values(|x: ActionJob| job_view(x)).drop_first(),
{
}

fn clone_results(v: &Vec<OperationResult>) -> (r: Vec<OperationResult>)
    ensures
        r@ == v@,
{
    let mut r: Vec<OperationResult> = Vec::new();
    let mut i: usize = 0;
    while i < v.len()
        invariant
            i <= v.len(),
            r@ == v@.subrange(0, i as int),
        decreases v.len() - i,
    {
        r.push(clone_result(&v[i]));
        i = i + 1;
    }
    assert(v@.subrange(0, v.len() as int) =~= v@);
    r
}

fn clone_summary(s: &CompletionSummary) -> (c: CompletionSummary)
    ensures
        summary_view(c) == summary_view(*s),
{
    CompletionSummary {
        label: s.label,
        success_count: s.success_count,
        fail_count: s.fail_count,
        failures: clone_results(&s.failures),
        expires_at: s.expires_at,
    }
}

fn clone_opt_progress(p: &Option<ProgressUpdate>) -> (c: Option<ProgressUpdate>)
    ensures
        c == *p,
{
    match p {
        Some(p) => Some(clone_progress(p)),
        None => None,
    }
}

impl ActionJobQueue {
    /// The queue's jobs, progress, counters and summary.
    pub closed spec fn state(self) -> QueueState {
        QueueState {
            running: match self.current { Some(r) => Some(job_view(r.job)), None => None },
            progress: match self.current { Some(r) => r.latest_progress, None => None },
            draining: opt_job_view(self.draining),
            queued: self.queued@.map_values(|x: ActionJob| job_view(x)),
            done: self.targets_done_before_current as nat,
            summary: match self.last_summary { Some(s) => Some(summary_view(s)), None => None },
        }
    }

    pub closed spec fn repo_path(self) -> Seq<char> {
        self.repo_path@
    }

    pub closed spec fn base_branch(self) -> Seq<char> {
        self.base_branch@
    }

    /// Targets finished in this session plus those of every job not yet finished.
    pub open spec fn pending_targets(self) -> nat {
        state_targets(self.state())
    }

    /// Nothing runs while a cancelled job drains, jobs wait only behind a busy
    /// queue, and the target counters fit in a `usize`.
    pub open spec fn wf(self) -> bool {
        state_wf(self.state())
    }

    pub fn new(repo_path: String, base_branch: String) -> (q: Self)
        ensures
            q.wf(),
            q.repo_path() == repo_path@,
            q.base_branch() == base_branch@,
            q.state().running is None,
            q.state().draining is None,
            q.state().queued.len() == 0,
            q.state().done == 0,
            q.state().summary is None,
    {
        let q = ActionJobQueue {
            repo_path,
            base_branch,
            current: None,
            draining: None,
            queued: VecDeque::new(),
            targets_done_before_current: 0,
            last_summary: None,
        };
        assert(q.state().queued =~= Seq::<JobView>::empty());
        q
    }

    /// Whether a job runs or a cancelled job still drains.
    pub fn is_busy(&self) -> (b: bool)
        ensures
            b == (self.state().running is Some || self.state().draining is Some),
    {
        self.current.is_some() || self.draining.is_some()
    }

    fn start(&mut self, job: ActionJob) -> (started: ActionJob)
        requires
            old(self).current is None,
        ensures
            final(self).state() == (QueueState {
                running: Some(job_view(job)),
                progress: None,
                ..old(self).state()
            }),
            job_view(started) == job_view(job),
            final(self).repo_path == old(self).repo_path,
            final(self).base_branch == old(self).base_branch,
    {
        let started = clone_job(&job);
        self.current = Some(RunningJob { job, latest_progress: None });
        started
    }

    fn try_advance(&mut self) -> (started: Option<ActionJob>)
        requires
            old(self).current is None,
            old(self).draining is None,
        ensures
            final(self).state() == advance(old(self).state()),
            match started {
                Some(j) => old(self).state().queued.len() > 0 && final(self).state().running == Some(job_view(j)),
                None => old(self).state().queued.len() == 0,
            },
            final(self).repo_path == old(self).repo_path,
            final(self).base_branch == old(self).base_branch,
    {
        let ghost q0 = self.queued@;
        match self.queued.pop_front() {
            Some(job) => {
                proof { lemma_map_drop_first(q0); }
                let started = self.start(job);
                Some(started)
            },
            None => {
                self.targets_done_before_current = 0;
                None
            },
        }
    }

    /// Starts the action at once when nothing runs or drains, and queues it
    /// otherwise; does nothing for an empty target list. Returns the job the
    /// caller must now run.
    pub fn enqueue_or_start(&mut self, action: BranchAction, targets: Vec<String>, return_view: ViewId)
        -> (started: Option<ActionJob>)
        requires
            old(self).wf(),
            old(self).pending_targets() + targets.len() <= usize::MAX,
        ensures
            final(self).wf(),
            final(self).repo_path() == old(self).repo_path(),
            final(self).base_branch() == old(self).base_branch(),
            enqueued(old(self).state(), final(self).state(),
                (JobView { action, targets: targets@.map_values(|t: String| t@), remote: None, return_view }), started),
    {
        self.enqueue_or_start_with_remote(action, targets, None, return_view)
    }

    /// Like [`Self::enqueue_or_start`], keeping the remote of a remote-branch action.
    pub fn enqueue_or_start_with_remote(
        &mut self,
        action: BranchAction,
        targets: Vec<String>,
        remote: Option<String>,
        return_view: ViewId,
    ) -> (started: Option<ActionJob>)
        requires
            old(self).wf(),
            old(self).pending_targets() + targets.len() <= usize::MAX,
        ensures
            final(self).wf(),
            final(self).repo_path() == old(self).repo_path(),
            final(self).base_branch() == old(self).base_branch(),
            enqueued(old(self).state(), final(self).state(),
                (JobView {
                    action,
                    targets: targets@.map_values(|t: String| t@),
                    remote: match remote { Some(r) => Some(r@), None => None },
                    return_view,
                }), started),
    {
        if targets.len() == 0 {
            return None;
        }
        let job = ActionJob { action, targets, remote, return_view };
        let ghost jv = job_view(job);
        if self.is_busy() {
            proof {
                lemma_map_push(self.queued@, job);
                lemma_targets_total_push(self.state().queued, jv);
            }
            self.queued.push_back(job);
            None
        } else {
            let started = self.start(job);
            Some(started)
        }
    }
}

/// What enqueuing `job` does: nothing for no targets; otherwise it starts
/// when the queue is idle (and is returned to be run) and is appended to the
/// queue when busy.
pub open spec fn enqueued(before: QueueState, after: QueueState, job: JobView, started: Option<ActionJob>) -> bool {
    if job.targets.len() == 0 {
        after == before && started is None
    } else if before.running is Some || before.draining is Some {
        after == (QueueState { queued: before.queued.push(job), ..before }) && started is None
    } else {
        &&& after == (QueueState { running: Some(job), progress: None, ..before })
        &&& started is Some
        &&& job_view(started->0) == job
    }
}


impl ActionJobQueue {
    fn finish_job(&mut self, job: ActionJob, results: Vec<OperationResult>, now_ms: i64) -> (r: (JobEvent, Option<ActionJob>))
        requires
            old(self).current is None,
            old(self).draining is None,
            old(self).targets_done_before_current + job.targets.len() <= usize::MAX,
            now_ms <= i64::MAX - SUMMARY_LINGER_MS,
        ensures
            final(self).state() == advance(QueueState {
                done: (old(self).state().done + job.targets.len()) as nat,
                summary: Some(summary_of(job.action, results@, now_ms as int)),
                ..old(self).state()
            }),
            event_job(r.0) == job_view(job),
            r.0.results@ == results@,
            r.0.failures@ == failures_of(results@),
            match r.1 {
                Some(j) => old(self).state().queued.len() > 0 && final(self).state().running == Some(job_view(j)),
                None => old(self).state().queued.len() == 0,
            },
            final(self).repo_path == old(self).repo_path,
            final(self).base_branch == old(self).base_branch,
    {
        self.targets_done_before_current = self.targets_done_before_current + job.targets.len();
        let summary = CompletionSummary::new(job.action, &results, now_ms);
        let failures = clone_results(&summary.failures);
        self.last_summary = Some(summary);
        let started = self.try_advance();
        let ActionJob { action, targets, remote, return_view } = job;
        (JobEvent { action, targets, remote, return_view, results, failures }, started)
    }

    /// Takes in what the worker channels held since the last poll: the
    /// draining job's outcome first; then, for the job running when the poll
    /// began, its progress (the latest update is kept) and its results, which
    /// complete it. A completion records the summary, reports the event and
    /// starts the next queued job, which the caller must then run. Finally a
    /// summary older than its linger time is dropped.
    pub fn poll(&mut self, input: PollInput) -> (p: JobPoll)
        requires
            old(self).wf(),
            input.now_ms <= i64::MAX - SUMMARY_LINGER_MS,
        ensures
            final(self).wf(),
            final(self).repo_path() == old(self).repo_path(),
            final(self).base_branch() == old(self).base_branch(),
            final(self).state() == poll_state(old(self).state(), input),
            p.dirty == poll_dirty(old(self).state(), input),
            match p.event {
                Some(e) => poll_event(old(self).state(), input) == Some((event_job(e), e.results@))
                    && e.failures@ == failures_of(e.results@),
                None => poll_event(old(self).state(), input) is None,
            },
            match p.start {
                Some(j) => poll_starts(old(self).state(), input) && final(self).state().running == Some(job_view(j)),
                None => !poll_starts(old(self).state(), input),
            },
    {
        let ghost s0 = self.state();
        let ghost inp = input;
        let PollInput { draining: drain_outcome, progress, current_results, now_ms } = input;
        let mut dirty = false;
        let mut event: Option<JobEvent> = None;
        let mut start: Option<ActionJob> = None;
        if self.draining.is_some() {
            match drain_outcome {
                DrainOutcome::Finished(results) => {
                    let job = self.draining.take().unwrap();
                    proof {
                        assert(self.state().queued == s0.queued);
                    }
                    let (e, st) = self.finish_job(job, results, now_ms);
                    event = Some(e);
                    start = st;
                    dirty = true;
                },
                DrainOutcome::Disconnected => {
                    let job = self.draining.take().unwrap();
                    self.targets_done_before_current = self.targets_done_before_current + job.targets.len();
                    start = self.try_advance();
                    dirty = true;
                },
                DrainOutcome::Pending => {},
            }
        } else if self.current.is_some() {
            let n = progress.len();
            if n > 0 {
                let latest = clone_progress(&progress[n - 1]);
                let running = self.current.take().unwrap();
                self.current = Some(RunningJob { job: running.job, latest_progress: Some(latest) });
                dirty = true;
            }
            match current_results {
                Some(results) => {
                    let running = self.current.take().unwrap();
                    let (e, st) = self.finish_job(running.job, results, now_ms);
                    event = Some(e);
                    start = st;
                    dirty = true;
                },
                None => {},
            }
        }
        let expired = match &self.last_summary {
            Some(s) => s.is_expired(now_ms),
            None => false,
        };
        if expired {
            self.last_summary = None;
            dirty = true;
        }
        proof {
            lemma_poll_keeps_wf(s0, inp);
        }
        JobPoll { event, dirty, start }
    }

    /// Cancels the running job: it becomes the draining job, and nothing
    /// else starts until its worker resolves. Returns whether a job was
    /// running; the caller then raises that job's cancel flag.
    pub fn cancel_current(&mut self) -> (cancelled: bool)
        requires
            old(self).wf(),
        ensures
            final(self).wf(),
            final(self).repo_path() == old(self).repo_path(),
            final(self).base_branch() == old(self).base_branch(),
            cancelled == old(self).state().running is Some,
            cancelled ==> final(self).state() == (QueueState {
                running: None,
                progress: None,
                draining: old(self).state().running,
                ..old(self).state()
            }),
            !cancelled ==> final(self).state() == old(self).state(),
    {
        match self.current.take() {
            Some(running) => {
                self.draining = Some(running.job);
                true
            },
            None => false,
        }
    }

    /// Drops every queued job; the running or draining job is untouched.
    pub fn clear_queued(&mut self)
        requires
            old(self).wf(),
        ensures
            final(self).wf(),
            final(self).repo_path() == old(self).repo_path(),
            final(self).base_branch() == old(self).base_branch(),
            final(self).state() == (QueueState { queued: Seq::empty(), ..old(self).state() }),
    {
        self.queued.clear();
        assert(self.state().queued =~= Seq::<JobView>::empty());
    }
}


/// Whether the last summary is still shown at `now`.
pub open spec fn summary_shown(s: QueueState, now: int) -> bool {
    s.summary is Some && !(now > s.summary->0.expires_at)
}

/// How many targets of the running job its latest progress reports done.
pub open spec fn progress_completed(s: QueueState) -> nat {
    match s.progress {
        Some(p) => p.completed as nat,
        None => 0,
    }
}

proof fn lemma_targets_total_prefix(q: Seq<JobView>, i: int)
    requires
        0 <= i <= q.len(),
    ensures
        targets_total_of(q.subrange(0, i)) <= targets_total_of(q),
    decreases q.len() - i,
{
    if i < q.len() {
        assert(q.subrange(0, i + 1).drop_last() =~= q.subrange(0, i));
        lemma_targets_total_prefix(q, i + 1);
    } else {
        assert(q.subrange(0, i) =~= q);
    }
}

impl ActionJobQueue {
    /// Snapshot of the job-status area at time `now_ms`.
    pub fn render_data(&self, now_ms: i64) -> (v: JobStatusView)
        requires
            self.wf(),
            self.state().done + progress_completed(self.state()) <= usize::MAX,
        ensures
            v.visible == (self.state().running is Some || self.state().draining is Some
                || self.state().queued.len() > 0 || summary_shown(self.state(), now_ms as int)),
            v.current_label == (match self.state().running {
                Some(j) => Some(action_label(j.action)),
                None => None::<&'static str>,
            }),
            v.current_progress == self.state().progress,
            v.queued_count == self.state().queued.len(),
            v.targets_done == self.state().done + progress_completed(self.state()),
            v.targets_total == self.pending_targets(),
            match v.summary {
                Some(c) => summary_shown(self.state(), now_ms as int) && self.state().summary == Some(summary_view(c)),
                None => !summary_shown(self.state(), now_ms as int),
            },
    {
        let ghost st = self.state();
        let summary = match &self.last_summary {
            Some(s) => if s.is_expired(now_ms) { None } else { Some(clone_summary(s)) },
            None => None,
        };
        let visible = self.current.is_some() || self.draining.is_some() || self.queued.len() > 0 || summary.is_some();
        let current_count: usize = match &self.current {
            Some(r) => r.job.targets.len(),
            None => 0,
        };
        let draining_count: usize = match &self.draining {
            Some(d) => d.targets.len(),
            None => 0,
        };
        let mut queued_count_sum: usize = 0;
        let mut i: usize = 0;
        proof {
            lemma_targets_total_prefix(st.queued, 0);
        }
        while i < self.queued.len()
            invariant
                i <= self.queued.len(),
                st == self.state(),
                state_wf(st),
                queued_count_sum == targets_total_of(st.queued.subrange(0, i as int)),
            decreases self.queued.len() - i,
        {
            proof {
                assert(st.queued.subrange(0, i + 1).drop_last() =~= st.queued.subrange(0, i as int));
                lemma_targets_total_prefix(st.queued, i + 1);
            }
            queued_count_sum = queued_count_sum + self.queued[i].targets.len();
            i = i + 1;
        }
        proof {
            assert(st.queued.subrange(0, self.queued.len() as int) =~= st.queued);
        }
        let targets_total = self.targets_done_before_current + current_count + draining_count + queued_count_sum;
        let (current_label, current_progress, completed) = match &self.current {
            Some(r) => {
                let completed: usize = match &r.latest_progress {
                    Some(p) => p.completed,
                    None => 0,
                };
                (Some(r.job.action.label()), clone_opt_progress(&r.latest_progress), completed)
            },
            None => (None, None, 0),
        };
        JobStatusView {
            visible,
            current_label,
            current_progress,
            queued_count: self.queued.len(),
            targets_done: self.targets_done_before_current + completed,
            targets_total,
            summary,
        }
    }

    /// Installs `job` as the running job without handing it to a worker.
    pub fn inject_running_for_test(&mut self, job: ActionJob)
        requires
            old(self).wf(),
            old(self).state().running is None,
            old(self).state().draining is None,
            old(self).state().done + job.targets.len() <= usize::MAX,
        ensures
            final(self).wf(),
            final(self).repo_path() == old(self).repo_path(),
            final(self).base_branch() == old(self).base_branch(),
            final(self).state() == (QueueState { running: Some(job_view(job)), progress: None, ..old(self).state() }),
    {
        self.current = Some(RunningJob { job, latest_progress: None });
    }

    pub fn is_running_for_test(&self) -> (b: bool)
        ensures
            b == self.state().running is Some,
    {
        self.current.is_some()
    }

    pub fn is_draining_for_test(&self) -> (b: bool)
        ensures
            b == self.state().draining is Some,
    {
        self.draining.is_some()
    }

    pub fn queued_len_for_test(&self) -> (n: usize)
        ensures
            n == self.state().queued.len(),
    {
        self.queued.len()
    }

    pub fn current_action_for_test(&self) -> (a: Option<BranchAction>)
        ensures
            a == (match self.state().running {
                Some(j) => Some(j.action),
                None => None::<BranchAction>,
            }),
    {
        match &self.current {
            Some(r) => Some(r.job.action),
            None => None,
        }
    }

    pub fn current_targets_for_test(&self) -> (t: Option<&[String]>)
        ensures
            match t {
                Some(t) => self.state().running is Some
                    && t@.map_values(|x: String| x@) == self.state().running->0.targets,
                None => self.state().running is None,
            },
    {
        match &self.current {
            Some(r) => Some(r.job.targets.as_slice()),
            None => None,
        }
    }
}

} // verus!
