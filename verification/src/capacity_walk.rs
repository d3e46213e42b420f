//! The check right before a run is preempted: what is read again, in which order, and
//! whether the run still makes room for the front of the queue.
use std::collections::BTreeMap;

use vstd::prelude::*;

use crate::coalesce::{
    candidate_forbids, capacity_candidate_number, capacity_exclusions, capacity_revalidation,
    forbids, front_jobs, front_still_waits, is_front_run, live_capacity_run,
    live_current_pull_request_state, live_queue_front_pool_jobs, of_front, old_enough,
    CapacityRevalidation,
};
use crate::json::Json;
use crate::model::{ObservedPr, RepoObservation, StewardJob, StewardRun};
use crate::numbers::increasing;
use crate::observation::run_of;
use crate::outside::Instant;
use crate::revalidation::{excluded_by_labels, heads_of, map_views, numbers_where, same_attempt};
use crate::text::{opt_view, same_ignoring_case};

verus! {

broadcast use vstd::std_specs::btree::group_btree_axioms;

/// The steps of a check, in their order.
#[derive(Clone, Copy, Debug, PartialEq, Eq, Structural)]
pub enum CapacityStep {
    /// Read the front of the queue.
    Front,
    /// Read the runs under way.
    Runs,
    /// Read the jobs of a run at the front of the queue.
    FrontJobs,
    /// Ask whether the front waits for the pool.
    Pool,
    /// Read the run that is to make room.
    Run,
    /// Read its jobs.
    RunJobs,
    /// Read its pull request.
    PullRequest,
    /// Read the open pull requests.
    PullRequests,
    /// Ask whether the rules permit the preemption.
    Safe,
    /// Nothing: the check is over.
    Over,
}

/// What came of a step.
#[derive(Debug)]
pub enum CapacityAnswer {
    /// The head of the front and when it was queued, where there is one, and the time.
    Front(Result<Option<(String, String)>, String>, Instant),
    Runs(Result<Vec<StewardRun>, String>),
    Jobs(Result<Vec<StewardJob>, String>),
    /// Whether the front waits for the pool.
    Waits(bool),
    Run(Result<Json, String>),
    /// The pull request, where it is open on the base, and whether its head was handed
    /// to the steward.
    PullRequest(Result<Option<(ObservedPr, bool)>, String>),
    PullRequests(Result<Vec<ObservedPr>, String>),
    /// Whether the rules permit the preemption.
    Safe(bool),
}

/// What was read of a run right before it is preempted, in texts.
pub struct CapacityFound {
    pub candidate: StewardRun,
    pub front_enqueued_at: Seq<char>,
    pub front_jobs: Seq<StewardJob>,
    pub current_pr_head: Option<Seq<char>>,
}

impl View for CapacityRevalidation {
    type V = CapacityFound;

    open spec fn view(&self) -> CapacityFound {
        CapacityFound {
            candidate: self.candidate,
            front_enqueued_at: self.front_enqueued_at@,
            front_jobs: self.front_jobs@,
            current_pr_head: opt_view(self.current_pr_head),
        }
    }
}

/// Whose authority a check goes by: the labels, and the observed pull requests whose
/// heads were handed to the steward.
#[derive(Debug)]
pub struct CapacityAuthority<'a> {
    pub opt_out_label: &'a str,
    pub managed_label: &'a str,
    pub provenance_blocking_labels: &'a Vec<String>,
    pub handed_off: Vec<u64>,
}

/// Where a check stands.
pub struct CapacityCheckView {
    pub observation: RepoObservation,
    pub observed: StewardRun,
    pub front: Seq<char>,
    pub opt_out_label: Seq<char>,
    pub managed_label: Seq<char>,
    pub blockers: Seq<String>,
    pub handed_off: Seq<u64>,
    pub step: CapacityStep,
    pub enqueued_at: Seq<char>,
    pub runs: Seq<StewardRun>,
    /// The position of the run whose jobs are read.
    pub next: int,
    pub front_jobs: Seq<StewardJob>,
    pub live: Option<StewardRun>,
    pub candidate: Option<ObservedPr>,
    /// Whether the candidate forbids the preemption.
    pub forbids: bool,
    pub excluded: Seq<u64>,
    /// The heads of the open pull requests.
    pub heads: Map<u64, Seq<char>>,
    /// What the check has come to.
    pub outcome: Option<Result<Option<CapacityFound>, Seq<char>>>,
}

impl CapacityCheckView {
    /// The check at another step.
    pub open spec fn at(self, step: CapacityStep) -> CapacityCheckView {
        CapacityCheckView { step, ..self }
    }

    /// The check at its end, where it holds what it has come to and nothing that was
    /// read.
    pub open spec fn over(
        self,
        outcome: Result<Option<CapacityFound>, Seq<char>>,
    ) -> CapacityCheckView {
        CapacityCheckView {
            step: CapacityStep::Over,
            enqueued_at: Seq::empty(),
            runs: Seq::empty(),
            front_jobs: Seq::empty(),
            live: None,
            candidate: None,
            outcome: Some(outcome),
            ..self
        }
    }

    /// The check at the next run at the front of the queue, from a position on; where
    /// there is none, it is asked whether the front waits for the pool.
    pub open spec fn seek(self, from: int) -> CapacityCheckView
        decreases self.runs.len() - from,
    {
        if from < 0 || from >= self.runs.len() {
            self.at(CapacityStep::Pool)
        } else if of_front(self.runs[from], self.front) {
            CapacityCheckView { step: CapacityStep::FrontJobs, next: from, ..self }
        } else {
            self.seek(from + 1)
        }
    }

    /// What is found where the rules permit the preemption: the head is that of the
    /// run's pull request among the current ones, of which the candidate was read by
    /// itself.
    pub open spec fn found(self) -> CapacityFound {
        let live = self.live->Some_0;
        let candidate = self.candidate->Some_0;
        let heads = self.heads.insert(candidate.fact.number, candidate.fact.head_sha@);
        CapacityFound {
            candidate: live,
            front_enqueued_at: self.enqueued_at,
            front_jobs: self.front_jobs,
            current_pr_head: match live.pull_request_number {
                Some(number) => if heads.dom().contains(number) {
                    Some(heads[number])
                } else {
                    None
                },
                None => None,
            },
        }
    }

    /// Whether a check stands where its step can be taken.
    pub open spec fn sound(self) -> bool {
        &&& self.step == CapacityStep::FrontJobs ==> 0 <= self.next < self.runs.len()
        &&& (self.step == CapacityStep::RunJobs || self.step == CapacityStep::PullRequest
            || self.step == CapacityStep::PullRequests || self.step == CapacityStep::Safe)
            ==> self.live is Some && same_attempt(self.observed, self.live->Some_0)
        &&& (self.step == CapacityStep::PullRequest || self.step == CapacityStep::PullRequests
            || self.step == CapacityStep::Safe) ==> self.live->Some_0.pull_request_number is Some
        &&& (self.step == CapacityStep::PullRequests || self.step == CapacityStep::Safe)
            ==> self.candidate is Some
        &&& self.step == CapacityStep::Over <==> self.outcome is Some
    }
}

/// Whether numbers are those that are out of bounds: of the listed pull requests that
/// their labels exclude, and the candidate's where it forbids.
pub open spec fn out_of_bounds(
    excluded: Seq<u64>,
    prs: Seq<ObservedPr>,
    opt_out_label: Seq<char>,
    blockers: Seq<String>,
    candidate: u64,
    forbidden: bool,
) -> bool {
    increasing(excluded) && forall|n: u64| #[trigger]
        excluded.contains(n) <==> (numbers_where(
            prs,
            |pr: ObservedPr| excluded_by_labels(pr, opt_out_label, blockers),
            n,
        ) || (forbidden && n == candidate))
}

/// Whether a check is what a reply made of an earlier one. Any read that fails ends
/// it with that error, and any answer that speaks against the preemption ends it with
/// nothing found. A reply that belongs to another step changes nothing.
pub open spec fn capacity_check_step(
    check: CapacityCheckView,
    reply: CapacityAnswer,
    after: CapacityCheckView,
) -> bool {
    match (check.step, reply) {
        (CapacityStep::Front, CapacityAnswer::Front(read, now)) => after == match read {
            Err(error) => check.over(Err(error@)),
            Ok(Some((head, enqueued_at))) => if same_ignoring_case(head@, check.front)
                && old_enough(enqueued_at@, now) {
                CapacityCheckView {
                    step: CapacityStep::Runs,
                    enqueued_at: enqueued_at@,
                    ..check
                }
            } else {
                check.over(Ok(None))
            },
            Ok(None) => check.over(Ok(None)),
        },
        (CapacityStep::Runs, CapacityAnswer::Runs(read)) => after == match read {
            Err(error) => check.over(Err(error@)),
            Ok(runs) => CapacityCheckView { runs: runs@, ..check }.seek(0),
        },
        (CapacityStep::FrontJobs, CapacityAnswer::Jobs(read)) => match read {
            Err(error) => after == check.over(Err(error@)),
            Ok(jobs) => after == CapacityCheckView {
                runs: check.runs.update(
                    check.next,
                    StewardRun { jobs, ..check.runs[check.next] },
                ),
                ..check
            }.seek(check.next + 1),
        },
        (CapacityStep::Pool, CapacityAnswer::Waits(waits)) => after == if waits {
            CapacityCheckView {
                step: CapacityStep::Run,
                runs: Seq::empty(),
                front_jobs: front_jobs(check.runs, check.front),
                ..check
            }
        } else {
            check.over(Ok(None))
        },
        (CapacityStep::Run, CapacityAnswer::Run(read)) => match read {
            Err(error) => after == check.over(Err(error@)),
            Ok(document) => match run_of(document@) {
                None => after == check.over(
                    Err("live capacity-preemption run was malformed"@),
                ),
                Some(view) => {
                    ||| {
                        &&& after.live matches Some(run) && run@ == view && same_attempt(
                            check.observed,
                            run,
                        )
                        &&& after == CapacityCheckView {
                            step: CapacityStep::RunJobs,
                            live: after.live,
                            ..check
                        }
                    }
                    ||| {
                        &&& after == check.over(Ok(None))
                        &&& forall|run: StewardRun|
                            run@ == view ==> !#[trigger] same_attempt(check.observed, run)
                    }
                },
            },
        },
        (CapacityStep::RunJobs, CapacityAnswer::Jobs(read)) => match read {
            Err(error) => after == check.over(Err(error@)),
            Ok(jobs) => {
                let live = StewardRun { jobs, ..check.live->Some_0 };
                let held = CapacityCheckView { live: Some(live), ..check };
                after == if live.pull_request_number is Some {
                    held.at(CapacityStep::PullRequest)
                } else {
                    held.over(Err("capacity-preemption run no longer has a unique PR"@))
                }
            },
        },
        (CapacityStep::PullRequest, CapacityAnswer::PullRequest(read)) => after == match read {
            Err(error) => check.over(Err(error@)),
            Ok(None) => check.over(Ok(None)),
            Ok(Some((candidate, handed_off))) => CapacityCheckView {
                step: CapacityStep::PullRequests,
                candidate: Some(candidate),
                forbids: forbids(
                    candidate,
                    handed_off,
                    check.observation.prs@,
                    check.handed_off,
                    check.opt_out_label,
                    check.managed_label,
                    check.blockers,
                ),
                ..check
            },
        },
        (CapacityStep::PullRequests, CapacityAnswer::PullRequests(read)) => match read {
            Err(error) => after == check.over(Err(error@)),
            Ok(prs) => {
                let candidate = check.candidate->Some_0;
                &&& out_of_bounds(
                    after.excluded,
                    prs@,
                    check.opt_out_label,
                    check.blockers,
                    candidate.fact.number,
                    check.forbids,
                )
                &&& after == CapacityCheckView {
                    step: CapacityStep::Safe,
                    excluded: after.excluded,
                    heads: heads_of(prs@),
                    ..check
                }
            },
        },
        (CapacityStep::Safe, CapacityAnswer::Safe(safe)) => after == check.over(
            Ok(
                if safe {
                    Some(check.found())
                } else {
                    None
                },
            ),
        ),
        _ => after == check,
    }
}

/// What a check holds.
#[derive(Debug)]
struct Parts<'a> {
    observation: &'a RepoObservation,
    observed: &'a StewardRun,
    front: &'a str,
    authority: CapacityAuthority<'a>,
    step: CapacityStep,
    enqueued_at: String,
    runs: Vec<StewardRun>,
    next: usize,
    front_jobs: Vec<StewardJob>,
    live: Option<StewardRun>,
    candidate: Option<ObservedPr>,
    forbids: bool,
    excluded: Vec<u64>,
    listed: BTreeMap<u64, String>,
    outcome: Option<Result<Option<CapacityRevalidation>, String>>,
}

/// The check of one run.
#[derive(Debug)]
pub struct CapacityCheck<'a> {
    parts: Parts<'a>,
}

impl<'a> View for CapacityCheck<'a> {
    type V = CapacityCheckView;

    closed spec fn view(&self) -> CapacityCheckView {
        self.parts.shown()
    }
}

/// What a check asks for.
#[derive(Debug)]
pub enum CapacityAction<'b> {
    ReadFront,
    ReadRuns,
    /// Read the jobs of the run with this number.
    ReadJobs(u64),
    /// Ask whether the front waits for the pool, by these runs.
    AskPool(&'b Vec<StewardRun>),
    ReadRun,
    /// Read the pull request with this number.
    ReadPullRequest(u64),
    ReadPullRequests,
    /// Ask whether the rules permit that this run is preempted, where these pull
    /// requests are out of bounds.
    AskSafe(&'b StewardRun, &'b Vec<u64>),
    /// Nothing: the check is over.
    Over,
}

impl<'a> Parts<'a> {
    spec fn shown(self) -> CapacityCheckView {
        CapacityCheckView {
            observation: *self.observation,
            observed: *self.observed,
            front: self.front@,
            opt_out_label: self.authority.opt_out_label@,
            managed_label: self.authority.managed_label@,
            blockers: self.authority.provenance_blocking_labels@,
            handed_off: self.authority.handed_off@,
            step: self.step,
            enqueued_at: self.enqueued_at@,
            runs: self.runs@,
            next: self.next as int,
            front_jobs: self.front_jobs@,
            live: self.live,
            candidate: self.candidate,
            forbids: self.forbids,
            excluded: self.excluded@,
            heads: map_views(self.listed@),
            outcome: match self.outcome {
                Some(Ok(Some(found))) => Some(Ok(Some(found@))),
                Some(Ok(None)) => Some(Ok(None)),
                Some(Err(error)) => Some(Err(error@)),
                None => None,
            },
        }
    }

    /// Ends the check.
    fn end(&mut self, outcome: Result<Option<CapacityRevalidation>, String>)
        ensures
            final(self).shown() == old(self).shown().over(outcome_view(outcome)),
    {
        self.step = CapacityStep::Over;
        self.enqueued_at = String::new();
        self.runs = Vec::new();
        self.front_jobs = Vec::new();
        self.live = None;
        self.candidate = None;
        self.outcome = Some(outcome);
        proof {
            assert(self.enqueued_at@ =~= Seq::<char>::empty());
        }
    }

    /// Goes to the next run at the front of the queue.
    fn seek(&mut self, from: usize)
        ensures
            final(self).shown() == old(self).shown().seek(from as int),
    {
        let ghost start = self.shown();
        let mut i: usize = from;
        while i < self.runs.len()
            invariant
                self.shown() == start,
                start == old(self).shown(),
                start.seek(from as int) == start.seek(i as int),
            decreases self.runs.len() - i,
        {
            if is_front_run(&self.runs[i], self.front) {
                self.step = CapacityStep::FrontJobs;
                self.next = i;
                return ;
            }
            i = i + 1;
        }
        self.step = CapacityStep::Pool;
    }

    /// Goes on once the jobs of a run at the front of the queue were read.
    fn front_jobs_read(&mut self, jobs: Vec<StewardJob>)
        requires
            old(self).shown().sound(),
            old(self).step == CapacityStep::FrontJobs,
        ensures
            capacity_check_step(
                old(self).shown(),
                CapacityAnswer::Jobs(Ok(jobs)),
                final(self).shown(),
            ),
    {
        let ghost before = self.shown();
        let n: usize = self.runs.len();
        let i: usize = self.next;
        let mut run = self.runs.remove(i);
        run.jobs = jobs;
        self.runs.insert(i, run);
        proof {
            assert(self.runs@ =~= before.runs.update(
                i as int,
                StewardRun { jobs, ..before.runs[i as int] },
            ));
            assert(i < n);
        }
        self.seek(i + 1);
    }

    /// Goes on once the front was found to wait, or not.
    fn pool_told(&mut self, waits: bool)
        requires
            old(self).step == CapacityStep::Pool,
        ensures
            capacity_check_step(
                old(self).shown(),
                CapacityAnswer::Waits(waits),
                final(self).shown(),
            ),
    {
        let mut runs: Vec<StewardRun> = Vec::new();
        core::mem::swap(&mut self.runs, &mut runs);
        match live_queue_front_pool_jobs(runs, self.front, waits) {
            Some(jobs) => {
                self.step = CapacityStep::Run;
                self.front_jobs = jobs;
            },
            None => self.end(Ok(None)),
        }
    }

    /// Goes on once the run was read.
    fn run_read(&mut self, document: Json)
        requires
            old(self).step == CapacityStep::Run,
        ensures
            capacity_check_step(
                old(self).shown(),
                CapacityAnswer::Run(Ok(document)),
                final(self).shown(),
            ),
    {
        match live_capacity_run(&document, self.observed) {
            Ok(Some(run)) => {
                self.step = CapacityStep::RunJobs;
                self.live = Some(run);
            },
            Ok(None) => self.end(Ok(None)),
            Err(error) => self.end(Err(error)),
        }
    }

    /// Goes on once the run's jobs were read.
    fn run_jobs_read(&mut self, jobs: Vec<StewardJob>)
        requires
            old(self).shown().sound(),
            old(self).step == CapacityStep::RunJobs,
        ensures
            capacity_check_step(
                old(self).shown(),
                CapacityAnswer::Jobs(Ok(jobs)),
                final(self).shown(),
            ),
    {
        match self.live.take() {
            Some(live) => {
                let mut run = live;
                run.jobs = jobs;
                let number = capacity_candidate_number(&run);
                self.live = Some(run);
                match number {
                    Ok(_) => {
                        self.step = CapacityStep::PullRequest;
                    },
                    Err(error) => self.end(Err(error)),
                }
            },
            None => {},
        }
    }

    /// Goes on once the run's pull request was read.
    fn candidate_read(&mut self, candidate: ObservedPr, handed_off: bool)
        requires
            old(self).step == CapacityStep::PullRequest,
        ensures
            capacity_check_step(
                old(self).shown(),
                CapacityAnswer::PullRequest(Ok(Some((candidate, handed_off)))),
                final(self).shown(),
            ),
    {
        self.forbids = candidate_forbids(
            &candidate,
            handed_off,
            &self.observation.prs,
            &self.authority.handed_off,
            self.authority.opt_out_label,
            self.authority.managed_label,
            self.authority.provenance_blocking_labels,
        );
        self.step = CapacityStep::PullRequests;
        self.candidate = Some(candidate);
    }

    /// Goes on once the open pull requests were read.
    fn prs_read(&mut self, prs: Vec<ObservedPr>)
        requires
            old(self).shown().sound(),
            old(self).step == CapacityStep::PullRequests,
        ensures
            capacity_check_step(
                old(self).shown(),
                CapacityAnswer::PullRequests(Ok(prs)),
                final(self).shown(),
            ),
    {
        let (heads, listed) = live_current_pull_request_state(
            &prs,
            self.authority.opt_out_label,
            self.authority.provenance_blocking_labels,
        );
        let number: u64 = match &self.candidate {
            Some(candidate) => candidate.fact.number,
            None => 0,
        };
        self.excluded = capacity_exclusions(listed, number, self.forbids);
        self.listed = heads;
        self.step = CapacityStep::Safe;
    }

    /// The check at its end, once the rules were asked.
    fn decided(self, safe: bool) -> (r: Self)
        requires
            self.shown().sound(),
            self.step == CapacityStep::Safe,
        ensures
            capacity_check_step(self.shown(), CapacityAnswer::Safe(safe), r.shown()),
    {
        let ghost before = self.shown();
        let mut parts = self;
        let mut enqueued_at = String::new();
        let mut jobs: Vec<StewardJob> = Vec::new();
        core::mem::swap(&mut parts.enqueued_at, &mut enqueued_at);
        core::mem::swap(&mut parts.front_jobs, &mut jobs);
        let outcome = match (parts.live.take(), parts.candidate.take()) {
            (Some(live), Some(candidate)) => capacity_revalidation(
                safe,
                live,
                enqueued_at,
                jobs,
                &parts.listed,
                &candidate,
            ),
            _ => None,
        };
        proof {
            if safe {
                assert(outcome matches Some(found) && found@ == before.found());
            }
        }
        parts.end(Ok(outcome));
        parts
    }
}

/// What a check has come to, in texts.
pub open spec fn outcome_view(outcome: Result<Option<CapacityRevalidation>, String>) -> Result<
    Option<CapacityFound>,
    Seq<char>,
> {
    match outcome {
        Ok(Some(found)) => Ok(Some(found@)),
        Ok(None) => Ok(None),
        Err(error) => Err(error@),
    }
}

proof fn seeking_is_sound(check: CapacityCheckView, from: int)
    requires
        0 <= from,
        check.outcome is None,
    ensures
        check.seek(from).sound(),
    decreases check.runs.len() - from,
{
    if from < check.runs.len() && !of_front(check.runs[from], check.front) {
        seeking_is_sound(check, from + 1);
    }
}

/// A reply keeps a check sound.
pub proof fn capacity_step_is_sound(
    check: CapacityCheckView,
    reply: CapacityAnswer,
    after: CapacityCheckView,
)
    requires
        check.sound(),
        capacity_check_step(check, reply, after),
    ensures
        after.sound(),
{
    if check.step == CapacityStep::Runs {
        if let CapacityAnswer::Runs(Ok(runs)) = reply {
            seeking_is_sound(CapacityCheckView { runs: runs@, ..check }, 0);
        }
    }
    if check.step == CapacityStep::FrontJobs {
        if let CapacityAnswer::Jobs(Ok(jobs)) = reply {
            let runs = check.runs.update(
                check.next,
                StewardRun { jobs, ..check.runs[check.next] },
            );
            seeking_is_sound(CapacityCheckView { runs, ..check }, check.next + 1);
        }
    }
}

impl<'a> CapacityCheck<'a> {
    #[verifier::type_invariant]
    spec fn kept(self) -> bool {
        self@.sound()
    }

    /// A check that begins.
    pub fn new(
        observation: &'a RepoObservation,
        observed: &'a StewardRun,
        front: &'a str,
        authority: CapacityAuthority<'a>,
    ) -> (r: Self)
        ensures
            r@.sound(),
            r@.step == CapacityStep::Front,
            r@.observation == *observation,
            r@.observed == *observed,
            r@.front == front@,
            r@.opt_out_label == authority.opt_out_label@,
            r@.managed_label == authority.managed_label@,
            r@.blockers == authority.provenance_blocking_labels@,
            r@.handed_off == authority.handed_off@,
    {
        let parts = Parts {
            observation,
            observed,
            front,
            authority,
            step: CapacityStep::Front,
            enqueued_at: String::new(),
            runs: Vec::new(),
            next: 0,
            front_jobs: Vec::new(),
            live: None,
            candidate: None,
            forbids: false,
            excluded: Vec::new(),
            listed: BTreeMap::new(),
            outcome: None,
        };
        CapacityCheck { parts }
    }

    /// What the check asks for.
    pub fn action<'b>(&'b self) -> (r: CapacityAction<'b>)
        ensures
            match self@.step {
                CapacityStep::Front => r is ReadFront,
                CapacityStep::Runs => r is ReadRuns,
                CapacityStep::FrontJobs => r matches CapacityAction::ReadJobs(id) && id
                    == self@.runs[self@.next].id,
                CapacityStep::Pool => r matches CapacityAction::AskPool(runs) && runs@
                    == self@.runs,
                CapacityStep::Run => r is ReadRun,
                CapacityStep::RunJobs => r matches CapacityAction::ReadJobs(id) && id
                    == self@.observed.id,
                CapacityStep::PullRequest => r matches CapacityAction::ReadPullRequest(number)
                    && self@.live matches Some(live) && live.pull_request_number == Some(number),
                CapacityStep::PullRequests => r is ReadPullRequests,
                CapacityStep::Safe => r matches CapacityAction::AskSafe(run, excluded)
                    && self@.live == Some(*run) && excluded@ == self@.excluded,
                CapacityStep::Over => r is Over,
            },
    {
        proof {
            use_type_invariant(self);
        }
        let parts = &self.parts;
        match parts.step {
            CapacityStep::Front => CapacityAction::ReadFront,
            CapacityStep::Runs => CapacityAction::ReadRuns,
            CapacityStep::FrontJobs => CapacityAction::ReadJobs(parts.runs[parts.next].id),
            CapacityStep::Pool => CapacityAction::AskPool(&parts.runs),
            CapacityStep::Run => CapacityAction::ReadRun,
            CapacityStep::RunJobs => CapacityAction::ReadJobs(parts.observed.id),
            CapacityStep::PullRequest => match &parts.live {
                Some(live) => match live.pull_request_number {
                    Some(number) => CapacityAction::ReadPullRequest(number),
                    None => CapacityAction::Over,
                },
                None => CapacityAction::Over,
            },
            CapacityStep::PullRequests => CapacityAction::ReadPullRequests,
            CapacityStep::Safe => match &parts.live {
                Some(live) => CapacityAction::AskSafe(live, &parts.excluded),
                None => CapacityAction::Over,
            },
            CapacityStep::Over => CapacityAction::Over,
        }
    }
}

/// Takes the check of a run one reply further.
pub fn revalidate_capacity_preemption<'a>(check: CapacityCheck<'a>, reply: CapacityAnswer) -> (r:
    CapacityCheck<'a>)
    ensures
        capacity_check_step(check@, reply, r@),
        r@.sound(),
{
    proof {
        use_type_invariant(&check);
    }
    let ghost before = check@;
    let ghost given = reply;
    let CapacityCheck { parts } = check;
    let mut parts = parts;
    match (parts.step, reply) {
        (CapacityStep::Front, CapacityAnswer::Front(read, now)) => match read {
            Err(error) => parts.end(Err(error)),
            Ok(front) => match front_still_waits(front, parts.front, &now) {
                Some(enqueued_at) => {
                    parts.step = CapacityStep::Runs;
                    parts.enqueued_at = enqueued_at;
                },
                None => parts.end(Ok(None)),
            },
        },
        (CapacityStep::Runs, CapacityAnswer::Runs(read)) => match read {
            Err(error) => parts.end(Err(error)),
            Ok(runs) => {
                parts.runs = runs;
                parts.seek(0);
            },
        },
        (CapacityStep::FrontJobs, CapacityAnswer::Jobs(read)) => match read {
            Err(error) => parts.end(Err(error)),
            Ok(jobs) => parts.front_jobs_read(jobs),
        },
        (CapacityStep::Pool, CapacityAnswer::Waits(waits)) => parts.pool_told(waits),
        (CapacityStep::Run, CapacityAnswer::Run(read)) => match read {
            Err(error) => parts.end(Err(error)),
            Ok(document) => parts.run_read(document),
        },
        (CapacityStep::RunJobs, CapacityAnswer::Jobs(read)) => match read {
            Err(error) => parts.end(Err(error)),
            Ok(jobs) => parts.run_jobs_read(jobs),
        },
        (CapacityStep::PullRequest, CapacityAnswer::PullRequest(read)) => match read {
            Err(error) => parts.end(Err(error)),
            Ok(None) => parts.end(Ok(None)),
            Ok(Some((candidate, handed_off))) => parts.candidate_read(candidate, handed_off),
        },
        (CapacityStep::PullRequests, CapacityAnswer::PullRequests(read)) => match read {
            Err(error) => parts.end(Err(error)),
            Ok(prs) => parts.prs_read(prs),
        },
        (CapacityStep::Safe, CapacityAnswer::Safe(safe)) => {
            parts = parts.decided(safe);
        },
        _ => {},
    }
    proof {
        capacity_step_is_sound(before, given, parts.shown());
    }
    CapacityCheck { parts }
}

/// What a check that is over has come to; one that is not over goes on.
pub fn finish_capacity_check<'a>(check: CapacityCheck<'a>) -> (r: Result<
    Result<Option<CapacityRevalidation>, String>,
    CapacityCheck<'a>,
>)
    ensures
        match r {
            Ok(outcome) => check@.outcome == Some(outcome_view(outcome)),
            Err(rest) => check@.outcome is None && rest == check,
        },
{
    proof {
        use_type_invariant(&check);
    }
    if check.parts.outcome.is_none() {
        return Err(check);
    }
    let CapacityCheck { parts } = check;
    let mut parts = parts;
    match parts.outcome.take() {
        Some(outcome) => Ok(outcome),
        None => Ok(Ok(None)),
    }
}

/// A run is found fit for preemption only as the same attempt that was observed, after
/// every read, and where the rules were asked last and permit it.
pub proof fn preemption_needs_every_answer(
    check: CapacityCheckView,
    reply: CapacityAnswer,
    after: CapacityCheckView,
    found: CapacityFound,
)
    requires
        check.sound(),
        check.outcome is None,
        capacity_check_step(check, reply, after),
        after.outcome == Some(Ok::<Option<CapacityFound>, Seq<char>>(Some(found))),
    ensures
        check.step == CapacityStep::Safe,
        reply == CapacityAnswer::Safe(true),
        same_attempt(check.observed, found.candidate),
        found == check.found(),
{
    if check.step == CapacityStep::Runs {
        if let CapacityAnswer::Runs(Ok(runs)) = reply {
            seeking_is_sound(CapacityCheckView { runs: runs@, ..check }, 0);
            seeking_ends_nothing(CapacityCheckView { runs: runs@, ..check }, 0);
        }
    }
    if check.step == CapacityStep::FrontJobs {
        if let CapacityAnswer::Jobs(Ok(jobs)) = reply {
            let runs = check.runs.update(
                check.next,
                StewardRun { jobs, ..check.runs[check.next] },
            );
            seeking_ends_nothing(CapacityCheckView { runs, ..check }, check.next + 1);
        }
    }
}

proof fn seeking_ends_nothing(check: CapacityCheckView, from: int)
    ensures
        check.seek(from).outcome == check.outcome,
    decreases check.runs.len() - from,
{
    if 0 <= from < check.runs.len() && !of_front(check.runs[from], check.front) {
        seeking_ends_nothing(check, from + 1);
    }
}

/// How far a check is from its end, where nothing stands against the candidate.
pub open spec fn capacity_left(step: CapacityStep) -> nat {
    match step {
        CapacityStep::Front => 9,
        CapacityStep::Runs => 8,
        CapacityStep::FrontJobs => 7,
        CapacityStep::Pool => 6,
        CapacityStep::Run => 5,
        CapacityStep::RunJobs => 4,
        CapacityStep::PullRequest => 3,
        CapacityStep::PullRequests => 2,
        CapacityStep::Safe => 1,
        CapacityStep::Over => 0,
    }
}

/// What an answer tells of a failure.
pub open spec fn capacity_failure(reply: CapacityAnswer) -> Option<Seq<char>> {
    match reply {
        CapacityAnswer::Front(Err(error), _) => Some(error@),
        CapacityAnswer::Runs(Err(error)) => Some(error@),
        CapacityAnswer::Jobs(Err(error)) => Some(error@),
        CapacityAnswer::Run(Err(error)) => Some(error@),
        CapacityAnswer::PullRequest(Err(error)) => Some(error@),
        CapacityAnswer::PullRequests(Err(error)) => Some(error@),
        _ => None,
    }
}

/// Whether an answer is to what a step asks.
pub open spec fn answers_capacity(step: CapacityStep, reply: CapacityAnswer) -> bool {
    match reply {
        CapacityAnswer::Front(..) => step == CapacityStep::Front,
        CapacityAnswer::Runs(_) => step == CapacityStep::Runs,
        CapacityAnswer::Jobs(_) => step == CapacityStep::FrontJobs || step == CapacityStep::RunJobs,
        CapacityAnswer::Waits(_) => step == CapacityStep::Pool,
        CapacityAnswer::Run(_) => step == CapacityStep::Run,
        CapacityAnswer::PullRequest(_) => step == CapacityStep::PullRequest,
        CapacityAnswer::PullRequests(_) => step == CapacityStep::PullRequests,
        CapacityAnswer::Safe(_) => step == CapacityStep::Safe,
    }
}

/// The run of the front that is read next is the first from there on, and the pool is asked
/// once none is left.
pub proof fn no_front_run_is_passed_over(check: CapacityCheckView, from: int)
    requires
        0 <= from,
    ensures
        ({
            let next = check.seek(from);
            &&& next.step == CapacityStep::FrontJobs || next.step == CapacityStep::Pool
            &&& next.step == CapacityStep::FrontJobs ==> from <= next.next < check.runs.len()
                && of_front(check.runs[next.next], check.front) && (forall|k: int|
                from <= k < next.next ==> !of_front(#[trigger] check.runs[k], check.front))
            &&& next.step == CapacityStep::Pool ==> forall|k: int|
                from <= k < check.runs.len() ==> !of_front(#[trigger] check.runs[k], check.front)
            &&& next.runs == check.runs && next.outcome == check.outcome
        }),
    decreases check.runs.len() - from,
{
    if from < check.runs.len() && !of_front(check.runs[from], check.front) {
        no_front_run_is_passed_over(check, from + 1);
    }
}

/// A candidate for cancellation is found only by the last answer, that taking it is safe,
/// and is the run that was read and is still the observed attempt.
pub proof fn room_is_found_only_at_the_end(
    check: CapacityCheckView,
    reply: CapacityAnswer,
    after: CapacityCheckView,
)
    requires
        check.sound(),
        check.step != CapacityStep::Over,
        capacity_check_step(check, reply, after),
    ensures
        after.outcome matches Some(Ok(Some(found))) ==> check.step == CapacityStep::Safe && reply
            == CapacityAnswer::Safe(true) && check.live == Some(found.candidate) && same_attempt(
            check.observed,
            found.candidate,
        ) && found.front_enqueued_at == check.enqueued_at,
        check.step == CapacityStep::Safe && reply == CapacityAnswer::Safe(true)
            ==> after.outcome matches Some(Ok(Some(_))),
        check.step == CapacityStep::Safe && reply == CapacityAnswer::Safe(false) ==> after.outcome
            == Some(Ok::<Option<CapacityFound>, Seq<char>>(None)),
{
    no_front_run_is_passed_over(check, 0);
    if let CapacityAnswer::Runs(Ok(runs)) = reply {
        no_front_run_is_passed_over(CapacityCheckView { runs: runs@, ..check }, 0);
    }
    if let CapacityAnswer::Jobs(Ok(jobs)) = reply {
        if check.step == CapacityStep::FrontJobs {
            no_front_run_is_passed_over(
                CapacityCheckView {
                    runs: check.runs.update(
                        check.next,
                        StewardRun { jobs, ..check.runs[check.next] },
                    ),
                    ..check
                },
                check.next + 1,
            );
        }
    }
}

/// What fails is told as it is, and ends the check.
pub proof fn capacity_failures_end_the_check(
    check: CapacityCheckView,
    reply: CapacityAnswer,
    after: CapacityCheckView,
    error: Seq<char>,
)
    requires
        capacity_check_step(check, reply, after),
        answers_capacity(check.step, reply),
        capacity_failure(reply) == Some(error),
    ensures
        after.outcome == Some(Err::<Option<CapacityFound>, Seq<char>>(error)),
        after.step == CapacityStep::Over,
{
}

/// A front that still waits and has waited long enough leads to its runs; a pool that waits
/// leads to the candidate, which is followed to its jobs, its pull request and the other
/// pull requests; a front that is gone or young, a pool that does not wait and a pull
/// request that is gone end the check without a candidate.
pub proof fn a_waiting_front_leads_to_the_candidate(
    check: CapacityCheckView,
    reply: CapacityAnswer,
    after: CapacityCheckView,
)
    requires
        check.sound(),
        capacity_check_step(check, reply, after),
    ensures
        reply matches CapacityAnswer::Front(Ok(front), now) ==> (check.step == CapacityStep::Front
            ==> if (front matches Some(seen) && same_ignoring_case(seen.0@, check.front)
            && old_enough(seen.1@, now)) {
            after.step == CapacityStep::Runs && after.enqueued_at == front->Some_0.1@
        } else {
            after.outcome == Some(Ok::<Option<CapacityFound>, Seq<char>>(None))
        }),
        reply matches CapacityAnswer::Waits(waits) ==> (check.step == CapacityStep::Pool ==> if waits {
            after.step == CapacityStep::Run && after.front_jobs == front_jobs(
                check.runs,
                check.front,
            )
        } else {
            after.outcome == Some(Ok::<Option<CapacityFound>, Seq<char>>(None))
        }),
        reply matches CapacityAnswer::Run(Ok(document)) ==> (check.step == CapacityStep::Run
            ==> capacity_left(after.step) == capacity_left(CapacityStep::RunJobs)
            || after.outcome is Some),
        reply matches CapacityAnswer::Jobs(Ok(jobs)) ==> (check.step == CapacityStep::RunJobs ==> (
        after.step == CapacityStep::PullRequest <==> check.live->Some_0.pull_request_number is Some)
            && (after.step == CapacityStep::PullRequest ==> after.live->Some_0.jobs == jobs)),
        reply matches CapacityAnswer::PullRequest(Ok(read)) ==> (check.step
            == CapacityStep::PullRequest ==> match read {
            Some(seen) => after.step == CapacityStep::PullRequests && after.candidate == Some(seen.0),
            None => after.outcome == Some(Ok::<Option<CapacityFound>, Seq<char>>(None)),
        }),
        reply matches CapacityAnswer::PullRequests(Ok(prs)) ==> (check.step
            == CapacityStep::PullRequests ==> after.step == CapacityStep::Safe && (check.forbids
            ==> after.excluded.contains(check.candidate->Some_0.fact.number))),
        !answers_capacity(check.step, reply) ==> after == check,
{
}

} // verus!
