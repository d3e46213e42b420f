//! What a pass does to one repository: in which order it reads and changes
//! things, which cancellations it plans, and what it reports.
use vstd::prelude::*;

use crate::guard::ends_with_its_end;
use crate::coalesce::{makes_room, old_enough, timestamp_old_enough};
use crate::ledger::StewardLedger;
use crate::model::{
    MutationReport, ObservedPr, RepoObservation, RequiredCheck, RunCancellation,
    RunCancellationReason, StewardDecision, StewardPolicy,
};
use crate::numbers::{has_number, lists_set};
use crate::outside::Instant;
use crate::resume::CancellationReport;
use crate::revalidation::{excluded, excluded_pull_requests, numbers_where};
use crate::text::{
    concat, concat3, copy_opt, copy_texts, from_chars, has_prefix, has_suffix, opt_view,
    starts_with, to_chars, views,
};

verus! {

broadcast use vstd::std_specs::btree::group_btree_axioms;

/// What a pass is told to do.
#[derive(Debug)]
pub struct StewardCommandArgs {
    pub repos: Vec<String>,
    pub base: String,
    pub opt_out_label: String,
    pub provenance_blocking_labels: Vec<String>,
    pub managed_label: String,
    pub handoff_context: String,
    pub max_transient_reruns: u32,
    pub recover_hosted_setup_eviction_priority: bool,
    pub coalesce: bool,
    pub preempt_capacity: bool,
    pub max_preemptions_per_head: u32,
    pub apply: bool,
}

/// Whether a position is that of the pull request at the front of the queue: the
/// first among those with the smallest place.
pub open spec fn fronts(prs: Seq<ObservedPr>, i: int) -> bool {
    &&& 0 <= i < prs.len()
    &&& prs[i].fact.queue_position is Some
    &&& forall|k: int|
        0 <= k < prs.len() && (#[trigger] prs[k]).fact.queue_position is Some ==> {
            let place = prs[k].fact.queue_position->Some_0;
            let front = prs[i].fact.queue_position->Some_0;
            front < place || (front == place && i <= k)
        }
}

/// Whether any pull request is queued.
pub open spec fn any_queued(prs: Seq<ObservedPr>) -> bool {
    exists|k: int| 0 <= k < prs.len() && (#[trigger] prs[k]).fact.queue_position is Some
}

/// The pull request at the front of the queue.
pub fn queue_front_pr(prs: &Vec<ObservedPr>) -> (r: Option<usize>)
    ensures
        match r {
            Some(i) => fronts(prs@, i as int),
            None => !any_queued(prs@),
        },
{
    let mut best: Option<usize> = None;
    let mut place: u64 = 0;
    let mut i: usize = 0;
    while i < prs.len()
        invariant
            i <= prs.len(),
            match best {
                None => !any_queued(prs@.take(i as int)),
                Some(b) => fronts(prs@.take(i as int), b as int) && prs@[b as int].fact.queue_position
                    == Some(place),
            },
        decreases prs.len() - i,
    {
        let ghost seen = prs@.take(i as int);
        let ghost more = prs@.take(i + 1);
        match prs[i].fact.queue_position {
            Some(position) => {
                let better = match best {
                    None => true,
                    Some(_) => position < place,
                };
                proof {
                    assert forall|k: int| 0 <= k < i implies #[trigger] more[k] == seen[k] by {}
                    if best is None {
                        assert forall|k: int| 0 <= k < i implies (#[trigger] more[k]).fact.queue_position
                            is None by {
                            assert(seen[k] == more[k]);
                        }
                    } else {
                        let b = best->Some_0 as int;
                        assert(seen[b].fact.queue_position == Some(place));
                        assert forall|k: int|
                            0 <= k < i && (#[trigger] more[k]).fact.queue_position
                                is Some implies place < more[k].fact.queue_position->Some_0 || (place
                            == more[k].fact.queue_position->Some_0 && b <= k) by {
                            assert(seen[k] == more[k]);
                        }
                    }
                }
                if better {
                    best = Some(i);
                    place = position;
                }
            },
            None => {
                proof {
                    if best is None {
                        assert forall|k: int| 0 <= k < more.len() implies (
                        #[trigger] more[k]).fact.queue_position is None by {
                            if k < i {
                                assert(seen[k] == more[k]);
                            }
                        }
                    } else {
                        let b = best->Some_0 as int;
                        assert(seen[b] == more[b]);
                        assert forall|k: int|
                            0 <= k < more.len() && (#[trigger] more[k]).fact.queue_position
                                is Some implies place < more[k].fact.queue_position->Some_0 || (place
                            == more[k].fact.queue_position->Some_0 && b <= k) by {
                            assert(seen[k] == more[k]);
                        }
                    }
                }
            },
        }
        i = i + 1;
    }
    proof {
        assert(prs@.take(i as int) =~= prs@);
    }
    best
}

/// There is at most one front.
pub proof fn front_position_is_unique(prs: Seq<ObservedPr>, i: int, j: int)
    requires
        fronts(prs, i),
        fronts(prs, j),
    ensures
        i == j,
{
}

/// The head of the merge group at the front of the queue.
pub open spec fn front_head(observation: RepoObservation) -> Option<Seq<char>> {
    if any_queued(observation.prs@) {
        let i = choose|i: int| fronts(observation.prs@, i);
        let number = observation.prs@[i].fact.number;
        if observation.merge_group_heads@.dom().contains(number) {
            Some(observation.merge_group_heads@[number]@)
        } else {
            None
        }
    } else {
        None
    }
}

/// The head of the merge group at the front of the queue.
pub fn queue_front_head(observation: &RepoObservation) -> (r: Option<String>)
    ensures
        opt_view(r) == front_head(*observation),
{
    match queue_front_pr(&observation.prs) {
        None => None,
        Some(i) => {
            proof {
                let c = choose|c: int| fronts(observation.prs@, c);
                front_position_is_unique(observation.prs@, i as int, c);
                assert(observation.prs@[i as int].fact.queue_position is Some);
            }
            let number: u64 = observation.prs[i].fact.number;
            match observation.merge_group_heads.get(&number) {
                Some(head) => Some(head.clone()),
                None => None,
            }
        },
    }
}

/// How the front of the queue presses for capacity.
#[derive(Debug)]
pub struct QueueFrontPressure {
    pub head_sha: String,
    pub old_enough: bool,
}

/// How the front of the queue presses for capacity: the head of its merge group,
/// and whether it has waited long enough.
pub open spec fn pressure(observation: RepoObservation, now: Instant) -> Option<(Seq<char>, bool)> {
    if any_queued(observation.prs@) {
        let i = choose|i: int| fronts(observation.prs@, i);
        let number = observation.prs@[i].fact.number;
        if observation.merge_group_heads@.dom().contains(number)
            && observation.merge_group_enqueued_at@.dom().contains(number) {
            Some(
                (
                    observation.merge_group_heads@[number]@,
                    old_enough(observation.merge_group_enqueued_at@[number]@, now),
                ),
            )
        } else {
            None
        }
    } else {
        None
    }
}

/// How the front of the queue presses for capacity.
pub fn queue_front_pressure(observation: &RepoObservation, now: &Instant) -> (r: Option<
    QueueFrontPressure,
>)
    ensures
        match (r, pressure(*observation, *now)) {
            (None, None) => true,
            (Some(found), Some((head, old))) => found.head_sha@ == head && found.old_enough == old,
            _ => false,
        },
{
    match queue_front_pr(&observation.prs) {
        None => None,
        Some(i) => {
            proof {
                let c = choose|c: int| fronts(observation.prs@, c);
                front_position_is_unique(observation.prs@, i as int, c);
                assert(observation.prs@[i as int].fact.queue_position is Some);
            }
            let number: u64 = observation.prs[i].fact.number;
            match observation.merge_group_heads.get(&number) {
                None => None,
                Some(head) => match observation.merge_group_enqueued_at.get(&number) {
                    None => None,
                    Some(at) => Some(
                        QueueFrontPressure {
                            head_sha: head.clone(),
                            old_enough: timestamp_old_enough(at.as_str(), now),
                        },
                    ),
                },
            }
        },
    }
}

/// What the planner of preemptions is given.
#[derive(Debug)]
pub struct CapacityPlan {
    pub pressure: QueueFrontPressure,
    /// The runs that were tried often enough, as the ledger names them.
    pub attempted: Vec<String>,
    /// The numbers of the pull requests that are out of bounds.
    pub excluded: Vec<u64>,
}

/// The keys of a repository whose count has reached a limit, without the
/// repository's name.
pub open spec fn worn_keys(
    keys: Seq<Seq<char>>,
    counts: Seq<u32>,
    repo: Seq<char>,
    limit: u32,
) -> Seq<Seq<char>>
    decreases keys.len(),
{
    if keys.len() == 0 {
        Seq::empty()
    } else {
        let rest = worn_keys(keys.drop_last(), counts, repo, limit);
        let key = keys.last();
        let prefix = repo + ":"@;
        if counts[keys.len() - 1] >= limit && has_prefix(key, prefix) {
            rest.push(key.skip(prefix.len() as int))
        } else {
            rest
        }
    }
}

fn without_prefix(s: &str, p: &str) -> (r: String)
    requires
        has_prefix(s@, p@),
    ensures
        r@ == s@.skip(p@.len() as int),
{
    let chars = to_chars(s);
    let prefix = to_chars(p);
    let mut out: Vec<char> = Vec::new();
    let mut i: usize = prefix.len();
    while i < chars.len()
        invariant
            prefix@.len() <= i <= chars.len(),
            chars@ == s@,
            prefix@ == p@,
            out@ == s@.subrange(p@.len() as int, i as int),
        decreases chars.len() - i,
    {
        out.push(chars[i]);
        proof {
            assert(out@ =~= s@.subrange(p@.len() as int, i + 1));
        }
        i = i + 1;
    }
    proof {
        assert(out@ =~= s@.skip(p@.len() as int));
    }
    from_chars(&out)
}

/// What the planner of preemptions is given; `None` where a pass preempts
/// nothing: it is not told to, may not, cannot read the pool, or no front waits.
pub fn plan_repo_capacity_preemptions(
    args: &StewardCommandArgs,
    observation: &RepoObservation,
    handed_off: &Vec<u64>,
    ledger: &StewardLedger,
    now: &Instant,
) -> (r: Option<CapacityPlan>)
    ensures
        ({
            let asked = args.preempt_capacity && args.max_preemptions_per_head != 0
                && observation.preemption_error is None;
            match r {
                None => !asked || pressure(*observation, *now) is None,
                Some(plan) => {
                    &&& asked
                    &&& pressure(*observation, *now) == Some(
                        (plan.pressure.head_sha@, plan.pressure.old_enough),
                    )
                    &&& views(plan.attempted@) == worn_keys(
                        ledger.preemption_attempts.keys(),
                        ledger.preemption_attempts.values(),
                        observation.repo@,
                        args.max_preemptions_per_head,
                    )
                    &&& lists_set(
                        plan.excluded@,
                        |n: u64|
                            numbers_where(
                                observation.prs@,
                                |pr: ObservedPr|
                                    excluded(
                                        pr,
                                        args.opt_out_label@,
                                        args.managed_label@,
                                        handed_off@,
                                        args.provenance_blocking_labels@,
                                    ),
                                n,
                            ),
                    )
                },
            }
        }),
{
    if !args.preempt_capacity || args.max_preemptions_per_head == 0
        || observation.preemption_error.is_some() {
        return None;
    }
    let pressure = match queue_front_pressure(observation, now) {
        Some(pressure) => pressure,
        None => return None,
    };
    let prefix = concat(observation.repo.as_str(), ":");
    let attempts = &ledger.preemption_attempts;
    let n: usize = attempts.len();
    let mut attempted: Vec<String> = Vec::new();
    let mut i: usize = 0;
    proof {
        assert(attempts.keys().take(0) =~= Seq::<Seq<char>>::empty());
        assert(views(attempted@) =~= Seq::<Seq<char>>::empty());
    }
    while i < n
        invariant
            i <= n,
            n == attempts.keys().len(),
            n == attempts.values().len(),
            prefix@ == observation.repo@ + ":"@,
            views(attempted@) == worn_keys(
                attempts.keys().take(i as int),
                attempts.values(),
                observation.repo@,
                args.max_preemptions_per_head,
            ),
        decreases n - i,
    {
        let ghost before = views(attempted@);
        proof {
            assert(attempts.keys().take(i + 1).drop_last() =~= attempts.keys().take(i as int));
        }
        if *attempts.value_at(i) >= args.max_preemptions_per_head && starts_with(
            attempts.key_at(i).as_str(),
            prefix.as_str(),
        ) {
            attempted.push(without_prefix(attempts.key_at(i).as_str(), prefix.as_str()));
            proof {
                assert(views(attempted@) =~= before.push(attempted@.last()@));
            }
        }
        i = i + 1;
    }
    proof {
        assert(attempts.keys().take(i as int) =~= attempts.keys());
    }
    let excluded = excluded_pull_requests(
        &observation.prs,
        args.opt_out_label.as_str(),
        args.managed_label.as_str(),
        handed_off,
        &args.provenance_blocking_labels,
    );
    Some(CapacityPlan { pressure, attempted, excluded })
}

/// What a pass does next to a pull request.
#[derive(Clone, Copy, Debug, PartialEq, Eq, Structural)]
pub enum PrPlanStage {
    /// Bring the recovery signal of a blocked pull request in line.
    Blocked,
    /// Bring the continuation of a queued pull request in line.
    Continuation,
    /// Bring the management label in line.
    Management,
    /// Bring the recovery signal in line.
    Recovery,
    /// Carry the decision out.
    Mutation,
}

/// What came of a step.
#[derive(Debug)]
pub enum PrPlanReply {
    /// The decision about a pull request.
    Decided(StewardDecision),
    /// Whether a continuation was brought in line.
    Reconciled(bool),
    /// Why it could not be.
    Failed(String),
    /// What a step reports.
    Report(MutationReport),
}

/// What a pass does to a pull request after a step.
#[derive(Debug)]
pub enum PrPlanStep {
    /// The next step, with what was done so far.
    Next { stage: PrPlanStage, mutation: Option<String> },
    Report(MutationReport),
}

/// What a pass does to a pull request after a step, in texts.
pub enum PrPlanView {
    Next(PrPlanStage, Option<Seq<char>>),
    Report((Option<Seq<char>>, Option<Seq<char>>)),
}

impl View for PrPlanStep {
    type V = PrPlanView;

    open spec fn view(&self) -> PrPlanView {
        match *self {
            PrPlanStep::Next { stage, mutation } => PrPlanView::Next(stage, opt_view(mutation)),
            PrPlanStep::Report(report) => PrPlanView::Report(report.texts()),
        }
    }
}

/// What was done, one thing after the other.
pub open spec fn both_done(prior: Option<Seq<char>>, more: Option<Seq<char>>) -> Option<Seq<char>> {
    match (prior, more) {
        (Some(p), Some(m)) => Some(p + ","@ + m),
        (None, Some(m)) => Some(m),
        (p, None) => p,
    }
}

/// What was done, one thing after the other.
pub fn combine_mutations(prior: Option<String>, more: Option<String>) -> (r: Option<String>)
    ensures
        opt_view(r) == both_done(opt_view(prior), opt_view(more)),
{
    match (prior, more) {
        (Some(p), Some(m)) => Some(concat3(p.as_str(), ",", m.as_str())),
        (None, Some(m)) => Some(m),
        (p, None) => p,
    }
}

/// Whether a decision is that provenance blocks the pull request.
pub open spec fn is_provenance_blocked(decision: StewardDecision) -> bool {
    decision is ProvenanceBlocked
}

/// The first step for a pull request that provenance blocks: only its recovery
/// signal is brought in line, and only by a pass that changes things.
pub fn provenance_blocked_report(decision: &StewardDecision, apply: bool) -> (r: Option<PrPlanStep>)
    ensures
        match r {
            None => !is_provenance_blocked(*decision),
            Some(step) => is_provenance_blocked(*decision) && step@ == if apply {
                PrPlanView::Next(PrPlanStage::Blocked, None)
            } else {
                PrPlanView::Report((None, None))
            },
        },
{
    match decision {
        StewardDecision::ProvenanceBlocked { .. } => {
            if apply {
                Some(PrPlanStep::Next { stage: PrPlanStage::Blocked, mutation: None })
            } else {
                Some(PrPlanStep::Report(MutationReport::none()))
            }
        },
        _ => None,
    }
}

/// The first step for a pull request.
pub open spec fn first_pr_step(decision: StewardDecision, apply: bool) -> PrPlanView {
    if !apply {
        PrPlanView::Report((None, None))
    } else if is_provenance_blocked(decision) {
        PrPlanView::Next(PrPlanStage::Blocked, None)
    } else if decision is Queued {
        PrPlanView::Next(PrPlanStage::Continuation, None)
    } else {
        PrPlanView::Next(PrPlanStage::Management, None)
    }
}

/// The first step for a pull request.
pub fn begin_pr_plan(decision: &StewardDecision, apply: bool) -> (r: PrPlanStep)
    ensures
        r@ == first_pr_step(*decision, apply),
{
    match provenance_blocked_report(decision, apply) {
        Some(step) => return step,
        None => {},
    }
    if !apply {
        return PrPlanStep::Report(MutationReport::none());
    }
    match decision {
        StewardDecision::Queued { .. } => PrPlanStep::Next {
            stage: PrPlanStage::Continuation,
            mutation: None,
        },
        _ => PrPlanStep::Next { stage: PrPlanStage::Management, mutation: None },
    }
}

/// What a pass does to a pull request after a reply: the steps follow one
/// another until one fails. A reply that belongs to another stage changes
/// nothing.
pub open spec fn pr_plan_flow(
    stage: PrPlanStage,
    mutation: Option<Seq<char>>,
    reply: PrPlanReply,
) -> PrPlanView {
    match (stage, reply) {
        (PrPlanStage::Continuation, PrPlanReply::Reconciled(true)) => PrPlanView::Next(
            PrPlanStage::Management,
            Some("success_continuation_reconciled"@),
        ),
        (PrPlanStage::Continuation, PrPlanReply::Reconciled(false)) => PrPlanView::Next(
            PrPlanStage::Management,
            mutation,
        ),
        (PrPlanStage::Continuation, PrPlanReply::Failed(e)) => PrPlanView::Report(
            (mutation, Some(e@)),
        ),
        (PrPlanStage::Blocked, PrPlanReply::Report(report)) => PrPlanView::Report(report.texts()),
        (PrPlanStage::Management, PrPlanReply::Report(report)) => {
            let (more, error) = report.texts();
            if error is Some {
                PrPlanView::Report((both_done(mutation, more), error))
            } else {
                PrPlanView::Next(PrPlanStage::Recovery, both_done(mutation, more))
            }
        },
        (PrPlanStage::Recovery, PrPlanReply::Report(report)) => {
            let (more, error) = report.texts();
            if error is Some {
                PrPlanView::Report((both_done(mutation, more), error))
            } else {
                PrPlanView::Next(PrPlanStage::Mutation, both_done(mutation, more))
            }
        },
        (PrPlanStage::Mutation, PrPlanReply::Report(report)) => {
            let (more, error) = report.texts();
            PrPlanView::Report((both_done(mutation, more), error))
        },
        _ => PrPlanView::Next(stage, mutation),
    }
}

/// What a pass does to a pull request after a reply.
pub fn next_pr_step(stage: PrPlanStage, mutation: Option<String>, reply: PrPlanReply) -> (r:
    PrPlanStep)
    ensures
        r@ == pr_plan_flow(stage, opt_view(mutation), reply),
{
    match (stage, reply) {
        (PrPlanStage::Continuation, PrPlanReply::Reconciled(true)) => PrPlanStep::Next {
            stage: PrPlanStage::Management,
            mutation: Some("success_continuation_reconciled".to_owned()),
        },
        (PrPlanStage::Continuation, PrPlanReply::Reconciled(false)) => PrPlanStep::Next {
            stage: PrPlanStage::Management,
            mutation,
        },
        (PrPlanStage::Continuation, PrPlanReply::Failed(error)) => PrPlanStep::Report(
            MutationReport { mutation, error: Some(error) },
        ),
        (PrPlanStage::Blocked, PrPlanReply::Report(report)) => PrPlanStep::Report(report),
        (PrPlanStage::Management, PrPlanReply::Report(report)) => {
            let done = combine_mutations(mutation, report.mutation);
            match report.error {
                Some(error) => PrPlanStep::Report(
                    MutationReport { mutation: done, error: Some(error) },
                ),
                None => PrPlanStep::Next { stage: PrPlanStage::Recovery, mutation: done },
            }
        },
        (PrPlanStage::Recovery, PrPlanReply::Report(report)) => {
            let done = combine_mutations(mutation, report.mutation);
            match report.error {
                Some(error) => PrPlanStep::Report(
                    MutationReport { mutation: done, error: Some(error) },
                ),
                None => PrPlanStep::Next { stage: PrPlanStage::Mutation, mutation: done },
            }
        },
        (PrPlanStage::Mutation, PrPlanReply::Report(report)) => PrPlanStep::Report(
            MutationReport {
                mutation: combine_mutations(mutation, report.mutation),
                error: report.error,
            },
        ),
        _ => PrPlanStep::Next { stage, mutation },
    }
}

/// A pull request that provenance blocks is never armed, rerun or labelled as
/// managed.
pub proof fn blocked_pull_request_is_left_alone(
    decision: StewardDecision,
    apply: bool,
    mutation: Option<Seq<char>>,
    reply: PrPlanReply,
)
    requires
        is_provenance_blocked(decision),
    ensures
        first_pr_step(decision, apply) matches PrPlanView::Next(stage, _) ==> stage
            == PrPlanStage::Blocked,
        pr_plan_flow(PrPlanStage::Blocked, mutation, reply) matches PrPlanView::Next(stage, _)
            ==> stage == PrPlanStage::Blocked,
{
}

/// What is reported of a pull request.
#[derive(Debug)]
pub struct PrReport {
    pub number: u64,
    pub head_sha: String,
    pub decision: StewardDecision,
    pub mutation: Option<String>,
    pub error: Option<String>,
}

/// What is reported of a pull request.
pub fn pr_report(pr: &ObservedPr, decision: StewardDecision, report: MutationReport) -> (r:
    PrReport)
    ensures
        r.number == pr.fact.number,
        r.head_sha@ == pr.fact.head_sha@,
        r.decision == decision,
        r.mutation == report.mutation,
        r.error == report.error,
{
    PrReport {
        number: pr.fact.number,
        head_sha: pr.fact.head_sha.clone(),
        decision,
        mutation: report.mutation,
        error: report.error,
    }
}

/// Whether anything went wrong with a pull request.
pub open spec fn any_pr_error(reports: Seq<PrReport>) -> bool {
    exists|i: int| 0 <= i < reports.len() && (#[trigger] reports[i]).error is Some
}

/// Whether anything went wrong with a cancellation.
pub open spec fn any_cancellation_error(reports: Seq<CancellationReport>) -> bool {
    exists|i: int| 0 <= i < reports.len() && (#[trigger] reports[i]).error is Some
}

pub fn has_pr_error(reports: &Vec<PrReport>) -> (r: bool)
    ensures
        r == any_pr_error(reports@),
{
    let mut i: usize = 0;
    while i < reports.len()
        invariant
            i <= reports.len(),
            forall|k: int| 0 <= k < i ==> (#[trigger] reports@[k]).error is None,
        decreases reports.len() - i,
    {
        if reports[i].error.is_some() {
            return true;
        }
        i = i + 1;
    }
    false
}

pub fn has_cancellation_error(reports: &Vec<CancellationReport>) -> (r: bool)
    ensures
        r == any_cancellation_error(reports@),
{
    let mut i: usize = 0;
    while i < reports.len()
        invariant
            i <= reports.len(),
            forall|k: int| 0 <= k < i ==> (#[trigger] reports@[k]).error is None,
        decreases reports.len() - i,
    {
        if reports[i].error.is_some() {
            return true;
        }
        i = i + 1;
    }
    false
}

/// What a pass holds the pull requests of a repository to.
pub fn steward_policy(args: &StewardCommandArgs, observation: &RepoObservation) -> (r: StewardPolicy)
    ensures
        r.merge_queue == observation.merge_queue,
        r.native_auto_merge == observation.allow_auto_merge,
        r.required_checks@ == observation.required_checks@,
        r.opt_out_label@ == args.opt_out_label@,
        views(r.provenance_blocking_labels@) == views(args.provenance_blocking_labels@),
        opt_view(r.managed_label) == Some(args.managed_label@),
        r.handoff_context@ == args.handoff_context@,
        r.max_transient_reruns == args.max_transient_reruns,
{
    let mut required_checks: Vec<RequiredCheck> = Vec::new();
    let mut i: usize = 0;
    while i < observation.required_checks.len()
        invariant
            i <= observation.required_checks.len(),
            required_checks@ =~= observation.required_checks@.take(i as int),
        decreases observation.required_checks.len() - i,
    {
        required_checks.push(observation.required_checks[i].dup());
        i = i + 1;
    }
    proof {
        assert(observation.required_checks@.take(i as int) =~= observation.required_checks@);
    }
    StewardPolicy {
        merge_queue: observation.merge_queue,
        native_auto_merge: observation.allow_auto_merge,
        required_checks,
        opt_out_label: args.opt_out_label.clone(),
        provenance_blocking_labels: copy_texts(&args.provenance_blocking_labels),
        managed_label: Some(args.managed_label.clone()),
        handoff_context: args.handoff_context.clone(),
        max_transient_reruns: args.max_transient_reruns,
    }
}

/// The steps of a pass over a repository, in their order.
#[derive(Clone, Copy, Debug, PartialEq, Eq, Structural)]
pub enum RepoStage {
    /// Bring the receipts of stuck runs in line.
    WedgeReceipts,
    /// Look for stuck runs.
    WedgeCandidates,
    /// Resolve handoffs that newer heads superseded.
    Handoffs,
    /// Record what the queue shows.
    Witnesses,
    /// Go through the pull requests.
    PullRequests,
    /// Plan the cancellations of superseded runs.
    Coalesce,
    /// Plan the preemptions.
    Preempt,
    /// Free a stuck run.
    Wedge,
    /// Carry the cancellations out.
    Cancel,
    /// Report.
    Report,
}

/// The step that follows another.
pub open spec fn stage_after(stage: RepoStage) -> RepoStage {
    match stage {
        RepoStage::WedgeReceipts => RepoStage::WedgeCandidates,
        RepoStage::WedgeCandidates => RepoStage::Handoffs,
        RepoStage::Handoffs => RepoStage::Witnesses,
        RepoStage::Witnesses => RepoStage::PullRequests,
        RepoStage::PullRequests => RepoStage::Coalesce,
        RepoStage::Coalesce => RepoStage::Preempt,
        RepoStage::Preempt => RepoStage::Wedge,
        RepoStage::Wedge => RepoStage::Cancel,
        RepoStage::Cancel => RepoStage::Report,
        RepoStage::Report => RepoStage::Report,
    }
}

/// Whether a pass takes a step.
pub open spec fn takes(args: StewardCommandArgs, stage: RepoStage) -> bool {
    match stage {
        RepoStage::WedgeReceipts => args.apply && args.coalesce,
        RepoStage::WedgeCandidates => args.coalesce,
        RepoStage::Handoffs => args.apply,
        RepoStage::Witnesses => args.apply && args.recover_hosted_setup_eviction_priority,
        RepoStage::Coalesce => args.coalesce,
        RepoStage::Wedge => args.apply,
        RepoStage::Cancel => args.apply,
        _ => true,
    }
}

/// How many steps follow a step.
pub open spec fn steps_left(stage: RepoStage) -> nat {
    match stage {
        RepoStage::WedgeReceipts => 9,
        RepoStage::WedgeCandidates => 8,
        RepoStage::Handoffs => 7,
        RepoStage::Witnesses => 6,
        RepoStage::PullRequests => 5,
        RepoStage::Coalesce => 4,
        RepoStage::Preempt => 3,
        RepoStage::Wedge => 2,
        RepoStage::Cancel => 1,
        RepoStage::Report => 0,
    }
}

/// The next step that a pass takes, from a step on.
pub open spec fn first_taken(args: StewardCommandArgs, stage: RepoStage) -> RepoStage
    decreases steps_left(stage),
{
    if stage == RepoStage::Report || takes(args, stage) {
        stage
    } else {
        first_taken(args, stage_after(stage))
    }
}

/// The next step that a pass takes, from a step on.
pub fn next_repo_stage(args: &StewardCommandArgs, from: RepoStage) -> (r: RepoStage)
    ensures
        r == first_taken(*args, from),
{
    let mut stage = from;
    loop
        invariant
            first_taken(*args, stage) == first_taken(*args, from),
        decreases steps_left(stage),
    {
        let taken = match stage {
            RepoStage::WedgeReceipts => args.apply && args.coalesce,
            RepoStage::WedgeCandidates => args.coalesce,
            RepoStage::Handoffs => args.apply,
            RepoStage::Witnesses => args.apply && args.recover_hosted_setup_eviction_priority,
            RepoStage::Coalesce => args.coalesce,
            RepoStage::Wedge => args.apply,
            RepoStage::Cancel => args.apply,
            _ => true,
        };
        if taken {
            return stage;
        }
        stage = match stage {
            RepoStage::WedgeReceipts => RepoStage::WedgeCandidates,
            RepoStage::WedgeCandidates => RepoStage::Handoffs,
            RepoStage::Handoffs => RepoStage::Witnesses,
            RepoStage::Witnesses => RepoStage::PullRequests,
            RepoStage::PullRequests => RepoStage::Coalesce,
            RepoStage::Coalesce => RepoStage::Preempt,
            RepoStage::Preempt => RepoStage::Wedge,
            RepoStage::Wedge => RepoStage::Cancel,
            RepoStage::Cancel => RepoStage::Report,
            RepoStage::Report => RepoStage::Report,
        };
    }
}

/// A pass that only looks takes no step that changes anything.
pub proof fn looking_changes_nothing(args: StewardCommandArgs, from: RepoStage)
    requires
        !args.apply,
    ensures
        ({
            let stage = first_taken(args, from);
            stage != RepoStage::WedgeReceipts && stage != RepoStage::Handoffs && stage
                != RepoStage::Witnesses && stage != RepoStage::Wedge && stage != RepoStage::Cancel
        }),
    decreases steps_left(from),
{
    if from != RepoStage::Report && !takes(args, from) {
        looking_changes_nothing(args, stage_after(from));
    }
}

/// The planned cancellations: those of superseded runs that are not reserved, then the
/// preemptions.
pub open spec fn planned_cancellations(
    coalesced: Seq<RunCancellation>,
    reserved: Seq<u64>,
    preemptions: Seq<RunCancellation>,
) -> Seq<RunCancellation> {
    coalesced.filter(|c: RunCancellation| !reserved.contains(c.run_id)) + preemptions
}

proof fn a_kept_cancellation_was_there(
    all: Seq<RunCancellation>,
    p: spec_fn(RunCancellation) -> bool,
    i: int,
)
    requires
        0 <= i < all.filter(p).len(),
    ensures
        all.contains(all.filter(p)[i]),
    decreases all.len(),
{
    reveal(Seq::filter);
    let before = all.drop_last();
    if i < before.filter(p).len() {
        a_kept_cancellation_was_there(before, p, i);
        let k = choose|k: int| 0 <= k < before.len() && before[k] == before.filter(p)[i];
        assert(all[k] == all.filter(p)[i]);
    } else {
        assert(all[all.len() - 1] == all.filter(p)[i]);
    }
}

/// A cancellation is planned exactly where it is a preemption, or one of a superseded
/// run that is not reserved.
pub proof fn reserved_runs_are_not_cancelled(
    coalesced: Seq<RunCancellation>,
    reserved: Seq<u64>,
    preemptions: Seq<RunCancellation>,
    cancellation: RunCancellation,
)
    ensures
        planned_cancellations(coalesced, reserved, preemptions).contains(cancellation)
            <==> preemptions.contains(cancellation) || (coalesced.contains(cancellation)
            && !reserved.contains(cancellation.run_id)),
{
    broadcast use vstd::seq_lib::group_filter_ensures;

    let p = |c: RunCancellation| !reserved.contains(c.run_id);
    let kept = coalesced.filter(p);
    let all = planned_cancellations(coalesced, reserved, preemptions);
    assert(all =~= kept + preemptions);
    if all.contains(cancellation) {
        let i = choose|i: int| 0 <= i < all.len() && all[i] == cancellation;
        if i < kept.len() {
            assert(kept[i] == cancellation);
            assert(p(kept[i]));
            a_kept_cancellation_was_there(coalesced, p, i);
        } else {
            assert(preemptions[i - kept.len()] == cancellation);
        }
    }
    if preemptions.contains(cancellation) {
        let i = choose|i: int| 0 <= i < preemptions.len() && preemptions[i] == cancellation;
        assert(all[kept.len() + i] == cancellation);
    }
    if coalesced.contains(cancellation) && !reserved.contains(cancellation.run_id) {
        let i = choose|i: int| 0 <= i < coalesced.len() && coalesced[i] == cancellation;
        assert(p(coalesced[i]));
        assert(kept.contains(coalesced[i]));
        let j = choose|j: int| 0 <= j < kept.len() && kept[j] == cancellation;
        assert(all[j] == cancellation);
    }
}

/// The planned cancellations: those of superseded runs that are not reserved,
/// then the preemptions.
pub fn plan_cancellations(
    coalesced: &Vec<RunCancellation>,
    reserved: &Vec<u64>,
    preemptions: &Vec<RunCancellation>,
) -> (r: Vec<RunCancellation>)
    ensures
        r@ == planned_cancellations(coalesced@, reserved@, preemptions@),
{
    let ghost p = |c: RunCancellation| !reserved@.contains(c.run_id);
    let mut out: Vec<RunCancellation> = Vec::new();
    let mut i: usize = 0;
    proof {
        assert(coalesced@.take(0).filter(p) =~= Seq::<RunCancellation>::empty()) by {
            reveal(Seq::filter);
        }
    }
    while i < coalesced.len()
        invariant
            i <= coalesced.len(),
            p == (|c: RunCancellation| !reserved@.contains(c.run_id)),
            out@ == coalesced@.take(i as int).filter(p),
        decreases coalesced.len() - i,
    {
        proof {
            reveal(Seq::filter);
            assert(coalesced@.take(i + 1).drop_last() =~= coalesced@.take(i as int));
        }
        if !has_number(reserved, coalesced[i].run_id) {
            out.push(coalesced[i]);
        }
        i = i + 1;
    }
    let ghost kept = out@;
    proof {
        assert(coalesced@.take(i as int) =~= coalesced@);
    }
    let mut j: usize = 0;
    while j < preemptions.len()
        invariant
            j <= preemptions.len(),
            out@ =~= kept + preemptions@.take(j as int),
        decreases preemptions.len() - j,
    {
        out.push(preemptions[j]);
        j = j + 1;
    }
    proof {
        assert(preemptions@.take(j as int) =~= preemptions@);
    }
    out
}

/// How many planned cancellations make room.
pub fn count_preemptions(plan: &Vec<RunCancellation>) -> (r: usize)
    ensures
        r == plan@.filter(|c: RunCancellation| makes_room(c.reason)).len(),
{
    let ghost p = |c: RunCancellation| makes_room(c.reason);
    let mut count: usize = 0;
    let mut i: usize = 0;
    proof {
        assert(plan@.take(0).filter(p) =~= Seq::<RunCancellation>::empty()) by {
            reveal(Seq::filter);
        }
    }
    while i < plan.len()
        invariant
            i <= plan.len(),
            count <= i,
            p == (|c: RunCancellation| makes_room(c.reason)),
            count == plan@.take(i as int).filter(p).len(),
        decreases plan.len() - i,
    {
        proof {
            reveal(Seq::filter);
            assert(plan@.take(i + 1).drop_last() =~= plan@.take(i as int));
        }
        match plan[i].reason {
            RunCancellationReason::AdvisoryPreambleCapacityTheft => {
                count = count + 1;
            },
            RunCancellationReason::LowerPriorityBranchPreamble => {
                count = count + 1;
            },
            _ => {},
        }
        i = i + 1;
    }
    proof {
        assert(plan@.take(i as int) =~= plan@);
    }
    count
}

/// What went wrong around the pull requests and the cancellations.
#[derive(Debug)]
pub struct RepoErrors {
    pub witness: Option<String>,
    pub handoffs: Option<String>,
    pub wedge_receipts: Option<String>,
    pub wedge_candidates: Option<String>,
}

/// What went wrong, in texts.
pub struct RepoErrorsView {
    pub witness: Option<Seq<char>>,
    pub handoffs: Option<Seq<char>>,
    pub wedge_receipts: Option<Seq<char>>,
    pub wedge_candidates: Option<Seq<char>>,
}

impl View for RepoErrors {
    type V = RepoErrorsView;

    open spec fn view(&self) -> RepoErrorsView {
        RepoErrorsView {
            witness: opt_view(self.witness),
            handoffs: opt_view(self.handoffs),
            wedge_receipts: opt_view(self.wedge_receipts),
            wedge_candidates: opt_view(self.wedge_candidates),
        }
    }
}

/// What is reported of a repository.
#[derive(Debug)]
pub struct RepoReport {
    pub repo: String,
    pub base: String,
    pub allow_auto_merge: bool,
    pub merge_queue: bool,
    pub merge_path: String,
    pub required_contexts: Vec<String>,
    pub prs: Vec<PrReport>,
    pub cancellations: Vec<CancellationReport>,
    pub errors: Vec<String>,
}

/// A list with the texts that are there.
pub open spec fn present(list: Seq<Option<Seq<char>>>) -> Seq<Seq<char>>
    decreases list.len(),
{
    if list.len() == 0 {
        Seq::empty()
    } else {
        match list.last() {
            Some(text) => present(list.drop_last()).push(text),
            None => present(list.drop_last()),
        }
    }
}

/// The errors that are reported, in their order.
pub open spec fn repo_errors(
    args: StewardCommandArgs,
    observation: RepoObservation,
    errors: RepoErrorsView,
) -> Seq<Seq<char>> {
    present(
        seq![
            if args.preempt_capacity {
                opt_view(observation.preemption_error)
            } else {
                None
            },
            errors.witness,
            errors.handoffs,
            errors.wedge_receipts,
            errors.wedge_candidates,
        ],
    )
}

/// How the pull requests of a repository are merged.
pub open spec fn merge_path(merge_queue: bool) -> Seq<char> {
    if merge_queue {
        "native_queue_exact_head"@
    } else {
        "direct_merge_refused_server_enforcement_required"@
    }
}

fn push_present(list: &mut Vec<String>, more: Option<String>)
    ensures
        views(final(list)@) == match more {
            Some(text) => views(old(list)@).push(text@),
            None => views(old(list)@),
        },
{
    match more {
        Some(text) => {
            let ghost before = views(list@);
            list.push(text);
            proof {
                assert(views(list@) =~= before.push(text@));
            }
        },
        None => {},
    }
}

fn collect_errors(
    args: &StewardCommandArgs,
    observation: &RepoObservation,
    errors: RepoErrors,
) -> (r: Vec<String>)
    ensures
        views(r@) == repo_errors(*args, *observation, errors@),
{
    let mut out: Vec<String> = Vec::new();
    proof {
        assert(views(out@) =~= Seq::<Seq<char>>::empty());
    }
    let preemption: Option<String> = if args.preempt_capacity {
        copy_opt(observation.preemption_error.as_ref())
    } else {
        None
    };
    let ghost list = seq![
        opt_view(preemption),
        opt_view(errors.witness),
        opt_view(errors.handoffs),
        opt_view(errors.wedge_receipts),
        opt_view(errors.wedge_candidates),
    ];
    proof {
        reveal_with_fuel(present, 6);
        assert(list.drop_last().drop_last().drop_last().drop_last().drop_last() =~= Seq::<
            Option<Seq<char>>,
        >::empty());
        assert(list.drop_last().drop_last().drop_last().drop_last() =~= list.take(1));
        assert(list.drop_last().drop_last().drop_last() =~= list.take(2));
        assert(list.drop_last().drop_last() =~= list.take(3));
        assert(list.drop_last() =~= list.take(4));
    }
    push_present(&mut out, preemption);
    push_present(&mut out, errors.witness);
    push_present(&mut out, errors.handoffs);
    push_present(&mut out, errors.wedge_receipts);
    push_present(&mut out, errors.wedge_candidates);
    out
}

/// The names of the required checks, as they are reported.
fn required_labels(checks: &Vec<RequiredCheck>) -> (r: Vec<String>)
    ensures
        r@.len() == checks@.len(),
        forall|i: int| 0 <= i < r@.len() ==> (#[trigger] r@[i])@ == checks@[i].spec_label(),
{
    let mut out: Vec<String> = Vec::new();
    let mut i: usize = 0;
    while i < checks.len()
        invariant
            i <= checks.len(),
            out@.len() == i,
            forall|k: int| 0 <= k < i ==> (#[trigger] out@[k])@ == checks@[k].spec_label(),
        decreases checks.len() - i,
    {
        out.push(checks[i].label());
        i = i + 1;
    }
    out
}

/// What a pass reports of a repository, whether anything went wrong, and how many
/// preemptions it planned.
pub fn repo_report(
    args: &StewardCommandArgs,
    observation: &RepoObservation,
    errors: RepoErrors,
    prs: Vec<PrReport>,
    cancellations: Vec<CancellationReport>,
    plan: &Vec<RunCancellation>,
) -> (r: (RepoReport, bool, usize))
    ensures
        r.0.repo@ == observation.repo@,
        r.0.base@ == args.base@,
        r.0.allow_auto_merge == observation.allow_auto_merge,
        r.0.merge_queue == observation.merge_queue,
        r.0.merge_path@ == merge_path(observation.merge_queue),
        r.0.required_contexts@.len() == observation.required_checks@.len(),
        forall|i: int|
            0 <= i < r.0.required_contexts@.len() ==> (#[trigger] r.0.required_contexts@[i])@
                == observation.required_checks@[i].spec_label(),
        r.0.prs == prs,
        r.0.cancellations == cancellations,
        views(r.0.errors@) == repo_errors(*args, *observation, errors@),
        r.1 == (repo_errors(*args, *observation, errors@).len() > 0 || any_pr_error(prs@)
            || any_cancellation_error(cancellations@)),
        r.2 == plan@.filter(|c: RunCancellation| makes_room(c.reason)).len(),
{
    let listed = collect_errors(args, observation, errors);
    proof {
        assert(views(listed@).len() == listed@.len());
    }
    let unhealthy = listed.len() > 0 || has_pr_error(&prs) || has_cancellation_error(
        &cancellations,
    );
    (
        RepoReport {
            repo: observation.repo.clone(),
            base: args.base.clone(),
            allow_auto_merge: observation.allow_auto_merge,
            merge_queue: observation.merge_queue,
            merge_path: if observation.merge_queue {
                "native_queue_exact_head".to_owned()
            } else {
                "direct_merge_refused_server_enforcement_required".to_owned()
            },
            required_contexts: required_labels(&observation.required_checks),
            prs,
            cancellations,
            errors: listed,
        },
        unhealthy,
        count_preemptions(plan),
    )
}

/// The pull request at the front of the queue waits there at least as far in front as
/// every other one.
pub proof fn nobody_waits_before_the_front(prs: Seq<ObservedPr>, front: int, other: int)
    requires
        fronts(prs, front),
        0 <= other < prs.len(),
        prs[other].fact.queue_position is Some,
    ensures
        prs[front].fact.queue_position is Some,
        prs[front].fact.queue_position->Some_0 <= prs[other].fact.queue_position->Some_0,
{
}

/// How many steps are left for a pull request in whose steps nothing fails.
pub open spec fn pr_steps_left(stage: PrPlanStage) -> nat {
    match stage {
        PrPlanStage::Continuation => 3,
        PrPlanStage::Management => 2,
        PrPlanStage::Recovery => 1,
        PrPlanStage::Mutation => 0,
        PrPlanStage::Blocked => 0,
    }
}

/// Whether what was done before is still told, and what was done now is told after it.
pub open spec fn tells_both(
    told: Option<Seq<char>>,
    before: Option<Seq<char>>,
    now: Option<Seq<char>>,
) -> bool {
    &&& before matches Some(first) ==> (told matches Some(text) && has_prefix(text, first))
    &&& now matches Some(last) ==> (told matches Some(text) && has_suffix(text, last))
    &&& before is None && now is None ==> told is None
}

proof fn both_done_tells_both(before: Option<Seq<char>>, now: Option<Seq<char>>)
    ensures
        tells_both(both_done(before, now), before, now),
{
    if let (Some(a), Some(b)) = (before, now) {
        assert((a + ","@ + b).take(a.len() as int) =~= a);
        ends_with_its_end(a + ","@, b);
    }
    if let Some(a) = before {
        assert(a.take(a.len() as int) =~= a);
        ends_with_its_end(""@, a);
    }
    if let Some(b) = now {
        ends_with_its_end(""@, b);
        assert(b.take(b.len() as int) =~= b);
    }
}

/// The steps for a pull request follow one another until one fails: a report without an
/// error leads to the next step, the last one ends the pull request, a report with an
/// error ends it with that error, and what was done is always told.
pub proof fn pull_request_steps_follow_one_another(
    stage: PrPlanStage,
    mutation: Option<Seq<char>>,
    report: MutationReport,
)
    requires
        stage == PrPlanStage::Management || stage == PrPlanStage::Recovery || stage
            == PrPlanStage::Mutation,
    ensures
        match pr_plan_flow(stage, mutation, PrPlanReply::Report(report)) {
            PrPlanView::Next(next, told) => {
                &&& report.texts().1 is None
                &&& pr_steps_left(stage) > 0
                &&& pr_steps_left(next) == pr_steps_left(stage) - 1
                &&& next != PrPlanStage::Blocked
                &&& tells_both(told, mutation, report.texts().0)
            },
            PrPlanView::Report(told) => {
                &&& report.texts().1 is Some || pr_steps_left(stage) == 0
                &&& told.1 == report.texts().1
                &&& tells_both(told.0, mutation, report.texts().0)
            },
        },
{
    both_done_tells_both(mutation, report.texts().0);
}

/// A queued pull request goes on to its other steps after its continuation, which is told
/// where it was brought in line, and a failure there ends it.
pub proof fn a_continuation_goes_on(mutation: Option<Seq<char>>, reply: PrPlanReply)
    ensures
        match reply {
            PrPlanReply::Reconciled(made) => pr_plan_flow(PrPlanStage::Continuation, mutation, reply)
                matches PrPlanView::Next(next, told) && next == PrPlanStage::Management && (made
                ==> told is Some) && (!made ==> told == mutation),
            PrPlanReply::Failed(error) => pr_plan_flow(PrPlanStage::Continuation, mutation, reply)
                == PrPlanView::Report((mutation, Some(error@))),
            _ => true,
        },
{
}

/// A pass that changes things begins with every pull request; one that is blocked is only
/// brought in line, and every other one goes through the steps up to the mutation. A pass
/// that only looks begins nothing.
pub proof fn every_pull_request_is_begun(decision: StewardDecision, apply: bool)
    ensures
        first_pr_step(decision, apply) is Next <==> apply,
        first_pr_step(decision, apply) matches PrPlanView::Next(stage, told) ==> {
            &&& told is None
            &&& stage == PrPlanStage::Blocked <==> decision is ProvenanceBlocked
            &&& stage == PrPlanStage::Continuation <==> decision is Queued
            &&& !(decision is ProvenanceBlocked) ==> pr_steps_left(stage) >= 2
        },
{
}

/// A pass takes the steps that it is told to, and no others: those that change things
/// only where it is told to change things, those about superseded and stuck runs only
/// where it is told to cancel those, and witnessing only where it is told to restore
/// priorities.
pub proof fn a_pass_takes_what_it_is_told_to(args: StewardCommandArgs)
    ensures
        takes(args, RepoStage::PullRequests) && takes(args, RepoStage::Preempt) && takes(
            args,
            RepoStage::Report,
        ),
        args.apply <==> takes(args, RepoStage::Handoffs),
        args.apply <==> takes(args, RepoStage::Wedge),
        args.apply <==> takes(args, RepoStage::Cancel),
        args.coalesce <==> takes(args, RepoStage::Coalesce),
        args.coalesce <==> takes(args, RepoStage::WedgeCandidates),
        args.apply && args.coalesce <==> takes(args, RepoStage::WedgeReceipts),
        args.apply && args.recover_hosted_setup_eviction_priority <==> takes(
            args,
            RepoStage::Witnesses,
        ),
        stage_after(RepoStage::Wedge) == RepoStage::Cancel,
{
}

/// A run that was tried often enough is named exactly where the ledger counts it for the
/// repository up to the limit.
pub proof fn worn_keys_are_the_repository_s_own(
    keys: Seq<Seq<char>>,
    counts: Seq<u32>,
    repo: Seq<char>,
    limit: u32,
    name: Seq<char>,
)
    requires
        keys.len() <= counts.len(),
    ensures
        worn_keys(keys, counts, repo, limit).contains(name) <==> exists|i: int|
            0 <= i < keys.len() && #[trigger] keys[i] == repo + ":"@ + name && counts[i] >= limit,
    decreases keys.len(),
{
    let prefix = repo + ":"@;
    if keys.len() == 0 {
    } else {
        let before = keys.drop_last();
        let rest = worn_keys(before, counts, repo, limit);
        let all = worn_keys(keys, counts, repo, limit);
        worn_keys_are_the_repository_s_own(before, counts, repo, limit, name);
        let last = keys.len() - 1;
        let adds = counts[last] >= limit && has_prefix(keys.last(), prefix);
        if rest.contains(name) {
            let k = choose|k: int| 0 <= k < rest.len() && rest[k] == name;
            assert(all[k] == name);
            let i = choose|i: int|
                0 <= i < before.len() && #[trigger] before[i] == repo + ":"@ + name && counts[i]
                    >= limit;
            assert(keys[i] == before[i]);
        }
        if adds && keys.last().skip(prefix.len() as int) == name {
            assert(all[rest.len() as int] == name);
            assert(keys.last() =~= keys.last().take(prefix.len() as int) + keys.last().skip(
                prefix.len() as int,
            ));
            assert(keys[last] == repo + ":"@ + name);
        }
        if all.contains(name) && !rest.contains(name) {
            let k = choose|k: int| 0 <= k < all.len() && all[k] == name;
            if k < rest.len() {
                assert(rest[k] == name);
            }
        }
        if exists|i: int|
            0 <= i < keys.len() && #[trigger] keys[i] == repo + ":"@ + name && counts[i] >= limit {
            let i = choose|i: int|
                0 <= i < keys.len() && #[trigger] keys[i] == repo + ":"@ + name && counts[i]
                    >= limit;
            if i < last {
                assert(before[i] == keys[i]);
            } else {
                assert((prefix + name).take(prefix.len() as int) =~= prefix);
                assert((prefix + name).skip(prefix.len() as int) =~= name);
            }
        }
    }
}

proof fn what_is_there_is_present(list: Seq<Option<Seq<char>>>, i: int)
    requires
        0 <= i < list.len(),
        list[i] is Some,
    ensures
        present(list).contains(list[i]->Some_0),
    decreases list.len(),
{
    let before = list.drop_last();
    let rest = present(before);
    let all = present(list);
    if i < list.len() - 1 {
        assert(before[i] == list[i]);
        what_is_there_is_present(before, i);
        let k = choose|k: int| 0 <= k < rest.len() && rest[k] == list[i]->Some_0;
        assert(all[k] == list[i]->Some_0);
    } else {
        assert(all[rest.len() as int] == list[i]->Some_0);
    }
}

proof fn nothing_there_is_present(list: Seq<Option<Seq<char>>>)
    requires
        forall|i: int| 0 <= i < list.len() ==> (#[trigger] list[i]) is None,
    ensures
        present(list).len() == 0,
    decreases list.len(),
{
    if list.len() > 0 {
        let before = list.drop_last();
        assert forall|i: int| 0 <= i < before.len() implies (#[trigger] before[i]) is None by {
            assert(before[i] == list[i]);
        }
        assert(list[list.len() - 1] is None);
        nothing_there_is_present(before);
    }
}

/// Every error of a repository's steps is told, and that of looking for preemptions where
/// they were asked for; without any there is none.
pub proof fn every_error_is_told(
    args: StewardCommandArgs,
    observation: RepoObservation,
    errors: RepoErrorsView,
)
    ensures
        ({
            let told = repo_errors(args, observation, errors);
            &&& errors.witness matches Some(text) ==> told.contains(text)
            &&& errors.handoffs matches Some(text) ==> told.contains(text)
            &&& errors.wedge_receipts matches Some(text) ==> told.contains(text)
            &&& errors.wedge_candidates matches Some(text) ==> told.contains(text)
            &&& args.preempt_capacity ==> (opt_view(observation.preemption_error) matches Some(text)
                ==> told.contains(text))
            &&& errors.witness is None && errors.handoffs is None && errors.wedge_receipts is None
                && errors.wedge_candidates is None && (!args.preempt_capacity
                || observation.preemption_error is None) ==> told.len() == 0
        }),
{
    let list = seq![
        if args.preempt_capacity {
            opt_view(observation.preemption_error)
        } else {
            None
        },
        errors.witness,
        errors.handoffs,
        errors.wedge_receipts,
        errors.wedge_candidates,
    ];
    if list[0] is Some {
        what_is_there_is_present(list, 0);
    }
    if list[1] is Some {
        what_is_there_is_present(list, 1);
    }
    if list[2] is Some {
        what_is_there_is_present(list, 2);
    }
    if list[3] is Some {
        what_is_there_is_present(list, 3);
    }
    if list[4] is Some {
        what_is_there_is_present(list, 4);
    }
    if list[0] is None && list[1] is None && list[2] is None && list[3] is None && list[4] is None {
        nothing_there_is_present(list);
    }
}

/// The front presses for room exactly where its merge group is known, since when it waits is
/// known, and it has waited long enough.
pub proof fn a_known_front_presses(observation: RepoObservation, now: Instant)
    ensures
        pressure(observation, now) is Some ==> any_queued(observation.prs@),
        any_queued(observation.prs@) ==> {
            let i = choose|i: int| fronts(observation.prs@, i);
            let number = observation.prs@[i].fact.number;
            &&& pressure(observation, now) is Some
                <==> observation.merge_group_heads@.dom().contains(number)
                && observation.merge_group_enqueued_at@.dom().contains(number)
            &&& pressure(observation, now) matches Some((head, presses)) ==> head
                == observation.merge_group_heads@[number]@ && (presses <==> old_enough(
                observation.merge_group_enqueued_at@[number]@,
                now,
            ))
        },
{
}

} // verus!
