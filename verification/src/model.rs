//! The facts that the steward observes and the decisions that it takes.
use vstd::prelude::*;

use std::collections::BTreeMap;

use crate::text::{concat, concat3, copy_opt, copy_texts, decimal, opt_view, to_decimal, views};

verus! {

/// The commit-status context that records an explicit handoff.
pub const HANDOFF_CONTEXT: &'static str = "shipyard/steward-handoff";

/// The label of a pull request that the steward manages.
pub const MANAGED_LABEL: &'static str = "shipyard:managed";

/// The label that blocks a pull request whose provenance is unresolved.
pub const DEFAULT_PROVENANCE_BLOCKING_LABEL: &'static str = "5·unresolved";

/// The label that explains why a pull request is not managed.
pub const UNMANAGED_LABEL: &'static str = "shipyard:unmanaged";

/// The commit-status context of a recovery request.
pub const RECOVERY_CONTEXT: &'static str = "shipyard/steward-recovery";

/// The label of a pull request that waits for an agent.
pub const NEEDS_AGENT_LABEL: &'static str = "shipyard:needs-agent";

/// The label with which a pull request opts out of being merged.
pub const OPT_OUT_LABEL: &'static str = "shipyard:no-auto-merge";

/// A command's failure: the exit code and what is told to the user.
#[derive(Clone, Debug, PartialEq, Eq)]
pub struct CliFailure {
    pub code: u8,
    pub message: String,
}

impl CliFailure {
    /// A failure with a given exit code and message.
    pub fn new(code: u8, message: &str) -> (r: Self)
        ensures
            r.code == code,
            r.message@ == message@,
    {
        CliFailure { code, message: message.to_owned() }
    }

    /// What is told to the user.
    pub fn message(&self) -> (r: &str)
        ensures
            r@ == self.message@,
    {
        self.message.as_str()
    }

    /// Whether this failure has the given code and message.
    pub open spec fn says(self, code: u8, message: Seq<char>) -> bool {
        self.code == code && self.message@ == message
    }
}

/// Whether a command failed with the given code and message.
pub open spec fn fails<T>(r: Result<T, CliFailure>, code: u8, message: Seq<char>) -> bool {
    r matches Err(failure) && failure.says(code, message)
}

/// A check's kind.
#[derive(Clone, Copy, Debug, PartialEq, Eq, Structural)]
pub enum StewardCheckSource {
    CheckRun,
    StatusContext,
}

/// One check of a commit.
#[derive(Clone, Debug, PartialEq, Eq)]
pub struct StewardCheck {
    pub name: String,
    pub source: StewardCheckSource,
    pub app_id: Option<u64>,
    pub check_run_id: Option<u64>,
    pub status: String,
    pub conclusion: Option<String>,
    pub run_id: Option<u64>,
    pub observed_at: Option<String>,
}

/// A check that a branch requires, by any producer or by one.
#[derive(Clone, Debug, PartialEq, Eq)]
pub struct RequiredCheck {
    pub context: String,
    pub app_id: Option<u64>,
}

impl RequiredCheck {
    /// The check's name in reports.
    pub open spec fn spec_label(self) -> Seq<char> {
        match self.app_id {
            Some(id) => self.context@ + " (app_id="@ + decimal(id as nat) + ")"@,
            None => self.context@,
        }
    }

    /// The check's name in reports.
    pub fn label(&self) -> (r: String)
        ensures
            r@ == self.spec_label(),
    {
        match self.app_id {
            Some(id) => {
                let head = concat3(self.context.as_str(), " (app_id=", to_decimal(id).as_str());
                concat(head.as_str(), ")")
            },
            None => self.context.clone(),
        }
    }

    /// A copy of the requirement.
    pub fn dup(&self) -> (r: Self)
        ensures
            r == *self,
    {
        RequiredCheck { context: self.context.clone(), app_id: self.app_id }
    }
}

/// What the steward knows of a pull request.
#[derive(Clone, Debug, PartialEq, Eq)]
pub struct StewardPullRequest {
    pub number: u64,
    pub head_sha: String,
    pub head_branch: String,
    pub draft: bool,
    pub merge_state: String,
    pub auto_merge_active: bool,
    pub queue_position: Option<u64>,
    pub labels: Vec<String>,
    pub checks: Vec<StewardCheck>,
}

/// A pull request as it was read, with its node identity.
#[derive(Clone, Debug, PartialEq, Eq)]
pub struct ObservedPr {
    pub node_id: String,
    pub fact: StewardPullRequest,
    pub check_rollup_maybe_truncated: bool,
}

/// One job of a workflow run.
#[derive(Clone, Debug, PartialEq, Eq)]
pub struct StewardJob {
    pub id: u64,
    pub name: String,
    pub status: String,
    pub conclusion: Option<String>,
    pub labels: Vec<String>,
    pub runner_name: Option<String>,
}

/// A workflow run.
#[derive(Clone, Debug, PartialEq, Eq)]
pub struct StewardRun {
    pub id: u64,
    pub workflow_id: u64,
    pub run_attempt: u64,
    pub workflow: String,
    pub head_sha: String,
    pub head_branch: String,
    pub status: String,
    pub event: String,
    pub pull_request_number: Option<u64>,
    pub created_at: String,
    pub jobs: Vec<StewardJob>,
}

/// What a check says.
pub struct CheckView {
    pub name: Seq<char>,
    pub source: StewardCheckSource,
    pub app_id: Option<u64>,
    pub check_run_id: Option<u64>,
    pub status: Seq<char>,
    pub conclusion: Option<Seq<char>>,
    pub run_id: Option<u64>,
    pub observed_at: Option<Seq<char>>,
}

impl View for StewardCheck {
    type V = CheckView;

    open spec fn view(&self) -> CheckView {
        CheckView {
            name: self.name@,
            source: self.source,
            app_id: self.app_id,
            check_run_id: self.check_run_id,
            status: self.status@,
            conclusion: opt_view(self.conclusion),
            run_id: self.run_id,
            observed_at: opt_view(self.observed_at),
        }
    }
}

/// What a list of checks says.
pub open spec fn check_views(checks: Seq<StewardCheck>) -> Seq<CheckView> {
    Seq::new(checks.len(), |i: int| checks[i]@)
}

/// What a job says.
pub struct JobView {
    pub id: u64,
    pub name: Seq<char>,
    pub status: Seq<char>,
    pub conclusion: Option<Seq<char>>,
    pub labels: Seq<Seq<char>>,
    pub runner_name: Option<Seq<char>>,
}

impl View for StewardJob {
    type V = JobView;

    open spec fn view(&self) -> JobView {
        JobView {
            id: self.id,
            name: self.name@,
            status: self.status@,
            conclusion: opt_view(self.conclusion),
            labels: views(self.labels@),
            runner_name: opt_view(self.runner_name),
        }
    }
}

/// What a list of jobs says.
pub open spec fn job_views(jobs: Seq<StewardJob>) -> Seq<JobView> {
    Seq::new(jobs.len(), |i: int| jobs[i]@)
}

/// What a run says.
pub struct RunView {
    pub id: u64,
    pub workflow_id: u64,
    pub run_attempt: u64,
    pub workflow: Seq<char>,
    pub head_sha: Seq<char>,
    pub head_branch: Seq<char>,
    pub status: Seq<char>,
    pub event: Seq<char>,
    pub pull_request_number: Option<u64>,
    pub created_at: Seq<char>,
    pub jobs: Seq<JobView>,
}

impl View for StewardRun {
    type V = RunView;

    open spec fn view(&self) -> RunView {
        RunView {
            id: self.id,
            workflow_id: self.workflow_id,
            run_attempt: self.run_attempt,
            workflow: self.workflow@,
            head_sha: self.head_sha@,
            head_branch: self.head_branch@,
            status: self.status@,
            event: self.event@,
            pull_request_number: self.pull_request_number,
            created_at: self.created_at@,
            jobs: job_views(self.jobs@),
        }
    }
}

/// What the runs of a list say.
pub open spec fn run_views(runs: Seq<StewardRun>) -> Seq<RunView> {
    Seq::new(runs.len(), |i: int| runs[i]@)
}

impl StewardJob {
    /// A copy of the job.
    pub fn dup(&self) -> (r: Self)
        ensures
            r@ == self@,
    {
        let r = StewardJob {
            id: self.id,
            name: self.name.clone(),
            status: self.status.clone(),
            conclusion: copy_opt(self.conclusion.as_ref()),
            labels: copy_texts(&self.labels),
            runner_name: copy_opt(self.runner_name.as_ref()),
        };
        proof {
            assert(r@ =~= self@);
        }
        r
    }
}

/// A copy of a list of jobs.
pub fn copy_jobs(jobs: &Vec<StewardJob>) -> (r: Vec<StewardJob>)
    ensures
        job_views(r@) == job_views(jobs@),
{
    let mut out: Vec<StewardJob> = Vec::new();
    let mut i: usize = 0;
    while i < jobs.len()
        invariant
            i <= jobs.len(),
            out@.len() == i,
            forall|k: int| 0 <= k < i ==> (#[trigger] out@[k])@ == jobs@[k]@,
        decreases jobs.len() - i,
    {
        out.push(jobs[i].dup());
        i = i + 1;
    }
    proof {
        assert(job_views(out@) =~= job_views(jobs@));
    }
    out
}

impl StewardRun {
    /// A copy of the run.
    pub fn dup(&self) -> (r: Self)
        ensures
            r@ == self@,
    {
        let r = StewardRun {
            id: self.id,
            workflow_id: self.workflow_id,
            run_attempt: self.run_attempt,
            workflow: self.workflow.clone(),
            head_sha: self.head_sha.clone(),
            head_branch: self.head_branch.clone(),
            status: self.status.clone(),
            event: self.event.clone(),
            pull_request_number: self.pull_request_number,
            created_at: self.created_at.clone(),
            jobs: copy_jobs(&self.jobs),
        };
        proof {
            assert(r@ =~= self@);
        }
        r
    }
}

/// What a pull request says.
pub struct PrView {
    pub node_id: Seq<char>,
    pub number: u64,
    pub head_sha: Seq<char>,
    pub head_branch: Seq<char>,
    pub draft: bool,
    pub merge_state: Seq<char>,
    pub auto_merge_active: bool,
    pub queue_position: Option<u64>,
    pub labels: Seq<Seq<char>>,
    pub checks: Seq<CheckView>,
    pub check_rollup_maybe_truncated: bool,
}

impl View for ObservedPr {
    type V = PrView;

    open spec fn view(&self) -> PrView {
        PrView {
            node_id: self.node_id@,
            number: self.fact.number,
            head_sha: self.fact.head_sha@,
            head_branch: self.fact.head_branch@,
            draft: self.fact.draft,
            merge_state: self.fact.merge_state@,
            auto_merge_active: self.fact.auto_merge_active,
            queue_position: self.fact.queue_position,
            labels: views(self.fact.labels@),
            checks: check_views(self.fact.checks@),
            check_rollup_maybe_truncated: self.check_rollup_maybe_truncated,
        }
    }
}

/// What a list of pull requests says.
pub open spec fn pr_views(prs: Seq<ObservedPr>) -> Seq<PrView> {
    Seq::new(prs.len(), |i: int| prs[i]@)
}

/// Why a run is cancelled.
#[derive(Clone, Copy, Debug, PartialEq, Eq, Structural)]
pub enum RunCancellationReason {
    SupersededPullRequestHead,
    SupersededMergeGroupHead,
    AdvisoryPreambleCapacityTheft,
    LowerPriorityBranchPreamble,
}

/// A planned cancellation of a run.
#[derive(Clone, Copy, Debug, PartialEq, Eq, Structural)]
pub struct RunCancellation {
    pub run_id: u64,
    pub reason: RunCancellationReason,
}

/// What the steward holds a pull request to.
#[derive(Clone, Debug, PartialEq, Eq)]
pub struct StewardPolicy {
    pub merge_queue: bool,
    pub native_auto_merge: bool,
    pub required_checks: Vec<RequiredCheck>,
    pub opt_out_label: String,
    pub provenance_blocking_labels: Vec<String>,
    pub managed_label: Option<String>,
    pub handoff_context: String,
    pub max_transient_reruns: u32,
}

/// What the steward decides about a pull request.
#[derive(Clone, Debug, PartialEq, Eq)]
pub enum StewardDecision {
    Unmanaged,
    HandoffMissing,
    OptedOut,
    ProvenanceBlocked { labels: Vec<String> },
    Draft,
    InvalidHead,
    WaitingRequired { contexts: Vec<String> },
    RequiredFailed { contexts: Vec<String> },
    RerunTransient { run_ids: Vec<u64> },
    NeedsUpdate { merge_state: String },
    ArmMergeQueue,
    Queued { position: u64 },
}

/// What a decision says.
pub enum DecisionView {
    Unmanaged,
    HandoffMissing,
    OptedOut,
    ProvenanceBlocked { labels: Seq<Seq<char>> },
    Draft,
    InvalidHead,
    WaitingRequired { contexts: Seq<Seq<char>> },
    RequiredFailed { contexts: Seq<Seq<char>> },
    RerunTransient { run_ids: Seq<u64> },
    NeedsUpdate { merge_state: Seq<char> },
    ArmMergeQueue,
    Queued { position: u64 },
}

impl View for StewardDecision {
    type V = DecisionView;

    open spec fn view(&self) -> DecisionView {
        match *self {
            StewardDecision::Unmanaged => DecisionView::Unmanaged,
            StewardDecision::HandoffMissing => DecisionView::HandoffMissing,
            StewardDecision::OptedOut => DecisionView::OptedOut,
            StewardDecision::ProvenanceBlocked { labels } => DecisionView::ProvenanceBlocked {
                labels: views(labels@),
            },
            StewardDecision::Draft => DecisionView::Draft,
            StewardDecision::InvalidHead => DecisionView::InvalidHead,
            StewardDecision::WaitingRequired { contexts } => DecisionView::WaitingRequired {
                contexts: views(contexts@),
            },
            StewardDecision::RequiredFailed { contexts } => DecisionView::RequiredFailed {
                contexts: views(contexts@),
            },
            StewardDecision::RerunTransient { run_ids } => DecisionView::RerunTransient {
                run_ids: run_ids@,
            },
            StewardDecision::NeedsUpdate { merge_state } => DecisionView::NeedsUpdate {
                merge_state: merge_state@,
            },
            StewardDecision::ArmMergeQueue => DecisionView::ArmMergeQueue,
            StewardDecision::Queued { position } => DecisionView::Queued { position },
        }
    }
}

/// Whether two lists hold the same texts in the same order.
pub fn same_texts(a: &Vec<String>, b: &Vec<String>) -> (r: bool)
    ensures
        r == (views(a@) == views(b@)),
{
    if a.len() != b.len() {
        proof {
            assert(views(a@).len() != views(b@).len());
        }
        return false;
    }
    let mut i: usize = 0;
    while i < a.len()
        invariant
            i <= a.len(),
            a.len() == b.len(),
            forall|k: int| 0 <= k < i ==> #[trigger] views(a@)[k] == views(b@)[k],
        decreases a.len() - i,
    {
        if a[i] != b[i] {
            proof {
                assert(views(a@)[i as int] != views(b@)[i as int]);
            }
            return false;
        }
        i = i + 1;
    }
    proof {
        assert(views(a@) =~= views(b@));
    }
    true
}

/// Whether two lists hold the same numbers in the same order.
pub fn same_numbers(a: &Vec<u64>, b: &Vec<u64>) -> (r: bool)
    ensures
        r == (a@ == b@),
{
    if a.len() != b.len() {
        return false;
    }
    let mut i: usize = 0;
    while i < a.len()
        invariant
            i <= a.len(),
            a.len() == b.len(),
            forall|k: int| 0 <= k < i ==> a@[k] == b@[k],
        decreases a.len() - i,
    {
        if a[i] != b[i] {
            return false;
        }
        i = i + 1;
    }
    proof {
        assert(a@ =~= b@);
    }
    true
}

impl StewardDecision {
    /// Whether two decisions say the same.
    pub fn same_as(&self, other: &StewardDecision) -> (r: bool)
        ensures
            r == (self@ == other@),
    {
        match (self, other) {
            (StewardDecision::Unmanaged, StewardDecision::Unmanaged) => true,
            (StewardDecision::HandoffMissing, StewardDecision::HandoffMissing) => true,
            (StewardDecision::OptedOut, StewardDecision::OptedOut) => true,
            (
                StewardDecision::ProvenanceBlocked { labels: a },
                StewardDecision::ProvenanceBlocked { labels: b },
            ) => same_texts(a, b),
            (StewardDecision::Draft, StewardDecision::Draft) => true,
            (StewardDecision::InvalidHead, StewardDecision::InvalidHead) => true,
            (
                StewardDecision::WaitingRequired { contexts: a },
                StewardDecision::WaitingRequired { contexts: b },
            ) => same_texts(a, b),
            (
                StewardDecision::RequiredFailed { contexts: a },
                StewardDecision::RequiredFailed { contexts: b },
            ) => same_texts(a, b),
            (
                StewardDecision::RerunTransient { run_ids: a },
                StewardDecision::RerunTransient { run_ids: b },
            ) => same_numbers(a, b),
            (
                StewardDecision::NeedsUpdate { merge_state: a },
                StewardDecision::NeedsUpdate { merge_state: b },
            ) => *a == *b,
            (StewardDecision::ArmMergeQueue, StewardDecision::ArmMergeQueue) => true,
            (
                StewardDecision::Queued { position: a },
                StewardDecision::Queued { position: b },
            ) => *a == *b,
            _ => false,
        }
    }
}

/// What was read of a repository.
#[derive(Clone, Debug, PartialEq, Eq)]
pub struct RepoObservation {
    pub repo: String,
    pub base: String,
    pub allow_auto_merge: bool,
    pub merge_queue: bool,
    pub required_checks: Vec<RequiredCheck>,
    pub prs: Vec<ObservedPr>,
    pub runs: Vec<StewardRun>,
    pub merge_group_heads: BTreeMap<u64, String>,
    pub merge_group_enqueued_at: BTreeMap<u64, String>,
    pub preemption_error: Option<String>,
}

/// The outcome of a mutation: what was done, and what went wrong.
#[derive(Clone, Debug, PartialEq, Eq)]
pub struct MutationReport {
    pub mutation: Option<String>,
    pub error: Option<String>,
}

impl MutationReport {
    /// The report's two texts.
    pub open spec fn texts(self) -> (Option<Seq<char>>, Option<Seq<char>>) {
        (opt_view(self.mutation), opt_view(self.error))
    }

    /// Nothing was done and nothing went wrong.
    pub fn none() -> (r: Self)
        ensures
            r.texts() == (None::<Seq<char>>, None::<Seq<char>>),
    {
        MutationReport { mutation: None, error: None }
    }

    /// Something was done.
    pub fn done(mutation: &str) -> (r: Self)
        ensures
            r.texts() == (Some(mutation@), None::<Seq<char>>),
    {
        MutationReport { mutation: Some(mutation.to_owned()), error: None }
    }

    /// Nothing was done because something went wrong.
    pub fn failed(error: String) -> (r: Self)
        ensures
            r.texts() == (None::<Seq<char>>, Some(error@)),
    {
        MutationReport { mutation: None, error: Some(error) }
    }

    /// Something was done and something went wrong.
    pub fn both(mutation: &str, error: String) -> (r: Self)
        ensures
            r.texts() == (Some(mutation@), Some(error@)),
    {
        MutationReport { mutation: Some(mutation.to_owned()), error: Some(error) }
    }
}

/// An error, followed by the failure of the audit that was to record it.
pub open spec fn with_audit_failure(error: Seq<char>, audit: Option<Seq<char>>) -> Seq<char> {
    match audit {
        Some(failure) => error + "; mutation audit also failed: "@ + failure,
        None => error,
    }
}

/// An error, followed by the failure of the audit that was to record it.
pub fn append_audit_failure(error: &str, audit: &Option<String>) -> (r: String)
    ensures
        r@ == with_audit_failure(error@, opt_view(*audit)),
{
    match audit {
        Some(failure) => concat3(error, "; mutation audit also failed: ", failure.as_str()),
        None => error.to_owned(),
    }
}

} // verus!
