//! The walk of a pass over a repository: its steps in their order, the reports of
//! its pull requests and of the cancellations, and what is told at the end.
use vstd::prelude::*;

use crate::coalesce::makes_room;
use crate::model::{MutationReport, RepoObservation, RunCancellation, StewardDecision};
use crate::pending::cancellation_reason_label;
use crate::plan::{
    any_cancellation_error, any_pr_error, first_taken, looking_changes_nothing, merge_path,
    next_repo_stage, plan_cancellations, planned_cancellations, repo_errors, repo_report,
    reserved_runs_are_not_cancelled, stage_after, steps_left, takes, PrPlanReply, RepoErrors,
    RepoErrorsView, RepoReport, RepoStage, StewardCommandArgs,
};
use crate::pr_walk::{
    apply_pr_plans, finish_pr_plans, pr_step_is_sound, pr_walk_action, pr_walk_step, report_views,
    PrAction, PrWalk, PrWalkView,
};
use crate::resume::{cancellation_views, CancellationReport, CancellationView};
use crate::text::{opt_view, views};

verus! {

/// The report of a planned cancellation and of what came of it.
pub open spec fn cancellation_of(
    planned: RunCancellation,
    told: (Option<Seq<char>>, Option<Seq<char>>),
) -> CancellationView {
    CancellationView {
        run_id: planned.run_id,
        reason: planned.reason.label(),
        mutation: told.0,
        error: told.1,
    }
}

/// The reports of planned cancellations that are not carried out.
pub open spec fn only_planned(plan: Seq<RunCancellation>) -> Seq<CancellationView> {
    Seq::new(plan.len(), |i: int| cancellation_of(plan[i], (None, None)))
}

/// Where a walk stands.
pub struct RepoWalkView {
    pub args: StewardCommandArgs,
    pub observation: RepoObservation,
    pub stage: RepoStage,
    pub errors: RepoErrorsView,
    pub prs: PrWalkView,
    /// The runs that are not to be cancelled as superseded ones.
    pub reserved: Seq<u64>,
    /// The superseded runs.
    pub coalesced: Seq<RunCancellation>,
    /// What is to be cancelled.
    pub plan: Seq<RunCancellation>,
    /// The report of a stuck run that was freed.
    pub freed: Option<CancellationView>,
    /// The reports of the cancellations that were carried out.
    pub cancelled: Seq<CancellationView>,
}

impl RepoWalkView {
    /// Whether nothing is left to do at a step.
    pub open spec fn is_through(self, stage: RepoStage) -> bool {
        match stage {
            RepoStage::PullRequests => self.prs.is_over(),
            RepoStage::Cancel => self.cancelled.len() == self.plan.len(),
            _ => false,
        }
    }

    /// The walk at the next step that a pass takes, from a step on, and at which
    /// something is left to do.
    pub open spec fn from(self, stage: RepoStage) -> RepoWalkView {
        let found = first_taken(self.args, stage);
        RepoWalkView {
            stage: if self.is_through(found) {
                first_taken(self.args, stage_after(found))
            } else {
                found
            },
            ..self
        }
    }

    /// The walk at the step after its own.
    pub open spec fn after(self) -> RepoWalkView {
        self.from(stage_after(self.stage))
    }

    /// The reports of the cancellations: a freed run first, then those carried out
    /// in the order of the plan, or, where nothing is changed, the plan itself.
    pub open spec fn cancellations(self) -> Seq<CancellationView> {
        if !self.args.apply {
            only_planned(self.plan)
        } else {
            match self.freed {
                Some(report) => seq![report] + self.cancelled,
                None => self.cancelled,
            }
        }
    }

    /// Whether a walk stands at a step that it takes, with what the steps before it
    /// leave behind.
    pub open spec fn sound(self) -> bool {
        &&& self.from(self.stage) == self
        &&& self.stage == RepoStage::Report || takes(self.args, self.stage)
        &&& self.prs.sound()
        &&& self.prs.prs == self.observation.prs@
        &&& self.prs.apply == self.args.apply
        &&& steps_left(self.stage) < 5 ==> self.prs.is_over()
        &&& steps_left(self.stage) > 2 ==> self.plan.len() == 0
        &&& steps_left(self.stage) > 1 ==> self.cancelled.len() == 0
        &&& self.cancelled.len() <= self.plan.len()
        &&& self.stage == RepoStage::Report && self.args.apply ==> self.cancelled.len()
            == self.plan.len()
        &&& forall|i: int|
            0 <= i < self.cancelled.len() ==> (#[trigger] self.cancelled[i]).run_id
                == self.plan[i].run_id && self.cancelled[i].reason == self.plan[i].reason.label()
        &&& !self.args.apply ==> self.freed is None && self.cancelled.len() == 0
            && self.errors.handoffs is None && self.errors.witness is None
            && self.errors.wedge_receipts is None
        &&& !self.args.coalesce ==> self.coalesced.len() == 0 && self.errors.wedge_receipts is None
            && self.errors.wedge_candidates is None
    }
}

/// A walk before its first step.
pub open spec fn repo_walk_begin(
    args: StewardCommandArgs,
    observation: RepoObservation,
) -> RepoWalkView {
    RepoWalkView {
        args,
        observation,
        stage: RepoStage::WedgeReceipts,
        errors: RepoErrorsView {
            witness: None,
            handoffs: None,
            wedge_receipts: None,
            wedge_candidates: None,
        },
        prs: PrWalkView {
            prs: observation.prs@,
            apply: args.apply,
            reports: Seq::empty(),
            current: None,
        },
        reserved: Seq::empty(),
        coalesced: Seq::empty(),
        plan: Seq::empty(),
        freed: None,
        cancelled: Seq::empty(),
    }.from(RepoStage::WedgeReceipts)
}

/// What came of an action of a walk.
#[derive(Debug)]
pub enum RepoReply {
    /// It was done.
    Done,
    /// It was not, and why.
    Failed(String),
    /// The runs that are not to be cancelled as superseded ones, and why stuck runs
    /// could not be looked for.
    Reserved { runs: Vec<u64>, error: Option<String> },
    /// What came of a step of a pull request.
    Pr(PrPlanReply),
    /// The cancellations that were planned.
    Planned(Vec<RunCancellation>),
    /// The report of a stuck run, where there was one.
    Freed(Option<CancellationReport>),
    /// What came of a cancellation.
    Cancelled(MutationReport),
}

/// The walk after a reply. A reply that nothing asked for changes nothing.
pub open spec fn repo_walk_step(walk: RepoWalkView, reply: RepoReply) -> RepoWalkView {
    match (walk.stage, reply) {
        (RepoStage::WedgeReceipts, RepoReply::Done) => walk.after(),
        (RepoStage::WedgeReceipts, RepoReply::Failed(error)) => RepoWalkView {
            errors: RepoErrorsView { wedge_receipts: Some(error@), ..walk.errors },
            ..walk
        }.after(),
        (RepoStage::WedgeCandidates, RepoReply::Reserved { runs, error }) => RepoWalkView {
            errors: RepoErrorsView { wedge_candidates: opt_view(error), ..walk.errors },
            reserved: runs@,
            ..walk
        }.after(),
        (RepoStage::Handoffs, RepoReply::Done) => walk.after(),
        (RepoStage::Handoffs, RepoReply::Failed(error)) => RepoWalkView {
            errors: RepoErrorsView { handoffs: Some(error@), ..walk.errors },
            ..walk
        }.after(),
        (RepoStage::Witnesses, RepoReply::Done) => walk.after(),
        (RepoStage::Witnesses, RepoReply::Failed(error)) => RepoWalkView {
            errors: RepoErrorsView { witness: Some(error@), ..walk.errors },
            ..walk
        }.after(),
        (RepoStage::PullRequests, RepoReply::Pr(reply)) => RepoWalkView {
            prs: pr_walk_step(walk.prs, reply),
            ..walk
        }.from(RepoStage::PullRequests),
        (RepoStage::Coalesce, RepoReply::Planned(runs)) => RepoWalkView {
            coalesced: runs@,
            ..walk
        }.after(),
        (RepoStage::Preempt, RepoReply::Planned(runs)) => RepoWalkView {
            plan: planned_cancellations(walk.coalesced, walk.reserved, runs@),
            ..walk
        }.after(),
        (RepoStage::Wedge, RepoReply::Freed(report)) => RepoWalkView {
            freed: match report {
                Some(report) => Some(report@),
                None => None,
            },
            ..walk
        }.after(),
        (RepoStage::Cancel, RepoReply::Cancelled(report)) => RepoWalkView {
            cancelled: walk.cancelled.push(
                cancellation_of(walk.plan[walk.cancelled.len() as int], report.texts()),
            ),
            ..walk
        }.from(RepoStage::Cancel),
        _ => walk,
    }
}

/// What a walk holds beside its step.
#[derive(Debug)]
struct Parts<'a> {
    args: &'a StewardCommandArgs,
    observation: &'a RepoObservation,
    errors: RepoErrors,
    prs: PrWalk<'a>,
    reserved: Vec<u64>,
    coalesced: Vec<RunCancellation>,
    plan: Vec<RunCancellation>,
    freed: Option<CancellationReport>,
    cancelled: Vec<CancellationReport>,
}

/// A walk over a repository.
#[derive(Debug)]
pub struct RepoWalk<'a> {
    stage: RepoStage,
    parts: Parts<'a>,
}

impl<'a> View for RepoWalk<'a> {
    type V = RepoWalkView;

    closed spec fn view(&self) -> RepoWalkView {
        self.parts.at(self.stage)
    }
}

/// What a walk asks for.
#[derive(Clone, Copy, Debug, PartialEq, Eq, Structural)]
pub enum RepoAction {
    /// Take this step.
    Take(RepoStage),
    /// Do this for a pull request.
    Pr(PrAction),
    /// Carry this cancellation out.
    Cancel(RunCancellation),
    /// Report.
    Report,
}

/// What a walk asks for.
pub open spec fn repo_walk_action(walk: RepoWalkView) -> RepoAction {
    match walk.stage {
        RepoStage::PullRequests => RepoAction::Pr(pr_walk_action(walk.prs)),
        RepoStage::Cancel => RepoAction::Cancel(walk.plan[walk.cancelled.len() as int]),
        RepoStage::Report => RepoAction::Report,
        stage => RepoAction::Take(stage),
    }
}

/// Whether an action changes nothing on the host or in the ledger.
pub open spec fn only_looks(action: RepoAction) -> bool {
    match action {
        RepoAction::Take(stage) => stage == RepoStage::WedgeCandidates || stage
            == RepoStage::Coalesce || stage == RepoStage::Preempt,
        RepoAction::Pr(step) => !(step is Take),
        RepoAction::Cancel(_) => false,
        RepoAction::Report => true,
    }
}

/// Steps taken are steps that a pass takes.
proof fn lemma_first_taken(args: StewardCommandArgs, stage: RepoStage)
    ensures
        ({
            let found = first_taken(args, stage);
            &&& found == RepoStage::Report || takes(args, found)
            &&& first_taken(args, found) == found
            &&& steps_left(found) <= steps_left(stage)
            &&& steps_left(stage) >= 5 ==> steps_left(found) >= 5
            &&& steps_left(stage) >= 3 ==> steps_left(found) >= 3
            &&& args.apply && steps_left(stage) >= 1 ==> steps_left(found) >= 1
        }),
    decreases steps_left(stage),
{
    if stage != RepoStage::Report && !takes(args, stage) {
        lemma_first_taken(args, stage_after(stage));
    }
}

impl<'a> RepoWalk<'a> {
    #[verifier::type_invariant]
    spec fn kept(self) -> bool {
        self@.sound()
    }

    /// A walk at its first step.
    pub fn new(args: &'a StewardCommandArgs, observation: &'a RepoObservation) -> (r: Self)
        ensures
            r@ == repo_walk_begin(*args, *observation),
            r@.sound(),
    {
        let prs = PrWalk::new(&observation.prs, args.apply);
        let parts = Parts {
            args,
            observation,
            errors: RepoErrors {
                witness: None,
                handoffs: None,
                wedge_receipts: None,
                wedge_candidates: None,
            },
            prs,
            reserved: Vec::new(),
            coalesced: Vec::new(),
            plan: Vec::new(),
            freed: None,
            cancelled: Vec::new(),
        };
        proof {
            assert(parts.at(RepoStage::WedgeReceipts).cancelled =~= Seq::empty());
            reveal_with_fuel(first_taken, 10);
        }
        parts.from(RepoStage::WedgeReceipts)
    }

    /// The decision about the pull request that a step is taken for.
    pub fn decision(&self) -> (r: Option<&StewardDecision>)
        ensures
            match self@.prs.current {
                Some((decision, _, _)) => r matches Some(found) && *found == decision,
                None => r is None,
            },
    {
        self.parts.prs.decision()
    }

    /// What the walk asks for. A walk that only looks asks for nothing that changes
    /// anything.
    pub fn action(&self) -> (r: RepoAction)
        ensures
            r == repo_walk_action(self@),
            !self@.args.apply ==> only_looks(r),
            r is Report <==> self@.stage == RepoStage::Report,
            r matches RepoAction::Pr(PrAction::Decide(i)) ==> i == self@.prs.reports.len() && i
                < self@.observation.prs@.len(),
            r matches RepoAction::Pr(PrAction::Take(i, _)) ==> i == self@.prs.reports.len() && i
                < self@.observation.prs@.len(),
            !(r matches RepoAction::Pr(PrAction::Over)),
            r matches RepoAction::Cancel(planned) ==> self@.plan.contains(planned),
    {
        proof {
            use_type_invariant(self);
            lemma_first_taken(self@.args, RepoStage::Coalesce);
            if !self@.args.apply {
                looking_changes_nothing(self@.args, self.stage);
            }
        }
        match self.stage {
            RepoStage::PullRequests => RepoAction::Pr(self.parts.prs.action()),
            RepoStage::Cancel => RepoAction::Cancel(self.parts.plan[self.parts.cancelled.len()]),
            RepoStage::Report => RepoAction::Report,
            stage => RepoAction::Take(stage),
        }
    }
}

impl<'a> Parts<'a> {
    spec fn at(self, stage: RepoStage) -> RepoWalkView {
        RepoWalkView {
            args: *self.args,
            observation: *self.observation,
            stage,
            errors: self.errors@,
            prs: self.prs@,
            reserved: self.reserved@,
            coalesced: self.coalesced@,
            plan: self.plan@,
            freed: match self.freed {
                Some(report) => Some(report@),
                None => None,
            },
            cancelled: cancellation_views(self.cancelled@),
        }
    }

    /// The walk with these parts, at the next step from a step on.
    fn from(self, stage: RepoStage) -> (r: RepoWalk<'a>)
        requires
            self.at(stage).from(stage).sound(),
        ensures
            r@ == self.at(stage).from(stage),
    {
        let found = next_repo_stage(self.args, stage);
        let through = match found {
            RepoStage::PullRequests => self.prs.is_over(),
            RepoStage::Cancel => self.cancelled.len() == self.plan.len(),
            _ => false,
        };
        let reached = if through {
            next_repo_stage(self.args, following(found))
        } else {
            found
        };
        RepoWalk { stage: reached, parts: self }
    }
}

/// The step that follows another.
fn following(stage: RepoStage) -> (r: RepoStage)
    ensures
        r == stage_after(stage),
{
    match stage {
        RepoStage::WedgeReceipts => RepoStage::WedgeCandidates,
        RepoStage::WedgeCandidates => RepoStage::Handoffs,
        RepoStage::Handoffs => RepoStage::Witnesses,
        RepoStage::Witnesses => RepoStage::PullRequests,
        RepoStage::PullRequests => RepoStage::Coalesce,
        RepoStage::Coalesce => RepoStage::Preempt,
        RepoStage::Preempt => RepoStage::Wedge,
        RepoStage::Wedge => RepoStage::Cancel,
        RepoStage::Cancel => RepoStage::Report,
        RepoStage::Report => RepoStage::Report,
    }
}

proof fn lemma_step_is_sound(walk: RepoWalkView, reply: RepoReply)
    requires
        walk.sound(),
    ensures
        repo_walk_step(walk, reply).sound(),
{
    let args = walk.args;
    if let RepoReply::Pr(reply) = reply {
        pr_step_is_sound(walk.prs, reply);
    }
    lemma_first_taken(args, walk.stage);
    lemma_first_taken(args, stage_after(walk.stage));
    lemma_first_taken(args, stage_after(stage_after(walk.stage)));
    lemma_first_taken(args, stage_after(first_taken(args, stage_after(walk.stage))));
    lemma_first_taken(args, RepoStage::Coalesce);
    reveal_with_fuel(first_taken, 10);
}

/// Takes a walk over a repository one reply further.
pub fn apply_repo_plan<'a>(walk: RepoWalk<'a>, reply: RepoReply) -> (r: RepoWalk<'a>)
    ensures
        r@ == repo_walk_step(walk@, reply),
        r@.sound(),
{
    proof {
        use_type_invariant(&walk);
    }
    let ghost before = walk@;
    let RepoWalk { stage, parts } = walk;
    let Parts {
        args,
        observation,
        mut errors,
        mut prs,
        mut reserved,
        mut coalesced,
        mut plan,
        mut freed,
        mut cancelled,
    } = parts;
    let mut from = stage;
    proof {
        lemma_step_is_sound(before, reply);
    }
    match (stage, reply) {
        (RepoStage::WedgeReceipts, RepoReply::Done) => {
            from = following(stage);
        },
        (RepoStage::WedgeReceipts, RepoReply::Failed(error)) => {
            errors.wedge_receipts = Some(error);
            from = following(stage);
        },
        (RepoStage::WedgeCandidates, RepoReply::Reserved { runs, error }) => {
            errors.wedge_candidates = error;
            reserved = runs;
            from = following(stage);
        },
        (RepoStage::Handoffs, RepoReply::Done) => {
            from = following(stage);
        },
        (RepoStage::Handoffs, RepoReply::Failed(error)) => {
            errors.handoffs = Some(error);
            from = following(stage);
        },
        (RepoStage::Witnesses, RepoReply::Done) => {
            from = following(stage);
        },
        (RepoStage::Witnesses, RepoReply::Failed(error)) => {
            errors.witness = Some(error);
            from = following(stage);
        },
        (RepoStage::PullRequests, RepoReply::Pr(reply)) => {
            prs = apply_pr_plans(prs, reply);
        },
        (RepoStage::Coalesce, RepoReply::Planned(runs)) => {
            coalesced = runs;
            from = following(stage);
        },
        (RepoStage::Preempt, RepoReply::Planned(runs)) => {
            plan = plan_cancellations(&coalesced, &reserved, &runs);
            from = following(stage);
        },
        (RepoStage::Wedge, RepoReply::Freed(report)) => {
            freed = report;
            from = following(stage);
        },
        (RepoStage::Cancel, RepoReply::Cancelled(report)) => {
            let planned = plan[cancelled.len()];
            let entry = CancellationReport {
                run_id: planned.run_id,
                reason: cancellation_reason_label(planned.reason),
                mutation: report.mutation,
                error: report.error,
            };
            proof {
                assert(cancellation_views(cancelled@.push(entry)) =~= cancellation_views(
                    cancelled@,
                ).push(entry@));
            }
            cancelled.push(entry);
        },
        _ => {},
    }
    let parts = Parts {
        args,
        observation,
        errors,
        prs,
        reserved,
        coalesced,
        plan,
        freed,
        cancelled,
    };
    parts.from(from)
}

/// The reports of planned cancellations that are not carried out.
fn planned_reports(plan: &Vec<RunCancellation>) -> (r: Vec<CancellationReport>)
    ensures
        cancellation_views(r@) == only_planned(plan@),
{
    let mut out: Vec<CancellationReport> = Vec::new();
    let mut i: usize = 0;
    while i < plan.len()
        invariant
            i <= plan.len(),
            out@.len() == i,
            forall|k: int|
                0 <= k < i ==> (#[trigger] out@[k])@ == cancellation_of(plan@[k], (None, None)),
        decreases plan.len() - i,
    {
        out.push(
            CancellationReport {
                run_id: plan[i].run_id,
                reason: cancellation_reason_label(plan[i].reason),
                mutation: None,
                error: None,
            },
        );
        i = i + 1;
    }
    proof {
        assert(cancellation_views(out@) =~= only_planned(plan@));
    }
    out
}

/// The reports of the cancellations of a walk with changes: a freed run first.
fn carried_out(freed: Option<CancellationReport>, cancelled: Vec<CancellationReport>) -> (r: Vec<
    CancellationReport,
>)
    ensures
        cancellation_views(r@) == match freed {
            Some(report) => seq![report@] + cancellation_views(cancelled@),
            None => cancellation_views(cancelled@),
        },
{
    match freed {
        None => cancelled,
        Some(report) => {
            let mut out = cancelled;
            out.insert(0, report);
            proof {
                assert(cancellation_views(out@) =~= seq![report@] + cancellation_views(
                    cancelled@,
                ));
            }
            out
        },
    }
}

/// What a pass reports of a repository, whether anything went wrong, and how many
/// preemptions it planned; a walk that has not come to its report goes on.
pub fn finish_repo_plan<'a>(walk: RepoWalk<'a>) -> (r: Result<
    (RepoReport, bool, usize),
    RepoWalk<'a>,
>)
    ensures
        match r {
            Ok((report, unhealthy, preemptions)) => {
                let errors = repo_errors(walk@.args, walk@.observation, walk@.errors);
                &&& walk@.stage == RepoStage::Report
                &&& report.repo@ == walk@.observation.repo@
                &&& report.base@ == walk@.args.base@
                &&& report.allow_auto_merge == walk@.observation.allow_auto_merge
                &&& report.merge_queue == walk@.observation.merge_queue
                &&& report.merge_path@ == merge_path(walk@.observation.merge_queue)
                &&& report.required_contexts@.len() == walk@.observation.required_checks@.len()
                &&& forall|i: int|
                    0 <= i < report.required_contexts@.len() ==> (
                    #[trigger] report.required_contexts@[i])@
                        == walk@.observation.required_checks@[i].spec_label()
                &&& report_views(report.prs@) == walk@.prs.reports
                &&& report.prs@.len() == walk@.observation.prs@.len()
                &&& forall|i: int|
                    0 <= i < report.prs@.len() ==> (#[trigger] report.prs@[i]).number
                        == walk@.observation.prs@[i].fact.number && report.prs@[i].head_sha@
                        == walk@.observation.prs@[i].fact.head_sha@
                &&& cancellation_views(report.cancellations@) == walk@.cancellations()
                &&& walk@.args.apply ==> report.cancellations@.len() == walk@.plan.len() + (
                if walk@.freed is Some {
                    1int
                } else {
                    0
                })
                &&& views(report.errors@) == errors
                &&& unhealthy == (errors.len() > 0 || any_pr_error(report.prs@)
                    || any_cancellation_error(report.cancellations@))
                &&& !walk@.args.apply ==> unhealthy == (errors.len() > 0)
                &&& preemptions == walk@.plan.filter(
                    |c: RunCancellation| makes_room(c.reason),
                ).len()
            },
            Err(rest) => walk@.stage != RepoStage::Report && rest == walk,
        },
{
    proof {
        use_type_invariant(&walk);
    }
    match walk.stage {
        RepoStage::Report => {},
        _ => {
            return Err(walk);
        },
    }
    let ghost before = walk@;
    let RepoWalk { stage, parts } = walk;
    let Parts { args, observation, errors, prs, reserved, coalesced, plan, freed, cancelled } =
        parts;
    let ghost prs_before = prs@;
    let reports = match finish_pr_plans(prs) {
        Ok(finished) => finished.0,
        Err(_) => Vec::new(),
    };
    let cancellations = if args.apply {
        carried_out(freed, cancelled)
    } else {
        planned_reports(&plan)
    };
    let r = repo_report(args, observation, errors, reports, cancellations, &plan);
    proof {
        assert(cancellation_views(cancellations@).len() == cancellations@.len());
        if !args.apply {
            assert forall|i: int| 0 <= i < cancellations@.len() implies (
            #[trigger] cancellations@[i]).error is None by {
                assert(cancellation_views(cancellations@)[i] == cancellations@[i]@);
            }
        }
    }
    Ok(r)
}

/// A pass over a repository takes its steps in their order and leaves none out: a
/// reply never leads back, and a step that is passed over is one that the pass does
/// not take or at which nothing is left to do.
pub proof fn steps_keep_their_order(walk: RepoWalkView, reply: RepoReply, passed: RepoStage)
    requires
        walk.sound(),
        steps_left(repo_walk_step(walk, reply).stage) < steps_left(passed) < steps_left(walk.stage),
    ensures
        !takes(walk.args, passed) || repo_walk_step(walk, reply).is_through(passed),
{
    reveal_with_fuel(first_taken, 10);
}

/// What a step tells is kept: an error where the step failed, the runs that are reserved,
/// the plan, what was freed, and for each planned cancellation in turn what became of it;
/// and what was kept before stays.
pub proof fn what_is_told_is_kept(walk: RepoWalkView, reply: RepoReply)
    requires
        walk.sound(),
    ensures
        ({
            let next = repo_walk_step(walk, reply);
            &&& walk.stage == RepoStage::WedgeReceipts ==> (reply matches RepoReply::Failed(error)
                ==> next.errors.wedge_receipts == Some(error@))
            &&& walk.stage == RepoStage::Handoffs ==> (reply matches RepoReply::Failed(error)
                ==> next.errors.handoffs == Some(error@))
            &&& walk.stage == RepoStage::Witnesses ==> (reply matches RepoReply::Failed(error)
                ==> next.errors.witness == Some(error@))
            &&& walk.stage == RepoStage::WedgeCandidates ==> (reply matches RepoReply::Reserved {
                runs,
                error,
            } ==> next.reserved == runs@ && next.errors.wedge_candidates == opt_view(error))
            &&& walk.stage == RepoStage::Coalesce ==> (reply matches RepoReply::Planned(runs)
                ==> next.coalesced == runs@)
            &&& walk.stage == RepoStage::Preempt ==> (reply matches RepoReply::Planned(runs) ==> (
            forall|i: int|
                0 <= i < runs@.len() ==> next.plan.contains(#[trigger] runs@[i])))
            &&& walk.stage == RepoStage::Cancel ==> (reply matches RepoReply::Cancelled(report)
                ==> next.cancelled.len() == walk.cancelled.len() + 1
                && next.cancelled.drop_last() == walk.cancelled && next.cancelled.last().run_id
                == walk.plan[walk.cancelled.len() as int].run_id && next.cancelled.last().error
                == report.texts().1 && next.cancelled.last().mutation == report.texts().0)
            &&& walk.errors.witness is Some && walk.stage != RepoStage::Witnesses
                ==> next.errors.witness == walk.errors.witness
            &&& walk.errors.handoffs is Some && walk.stage != RepoStage::Handoffs
                ==> next.errors.handoffs == walk.errors.handoffs
            &&& walk.stage != RepoStage::WedgeCandidates ==> next.reserved == walk.reserved
            &&& walk.stage != RepoStage::Preempt ==> next.plan == walk.plan
        }),
{
    if walk.stage == RepoStage::Cancel {
        if let RepoReply::Cancelled(report) = reply {
            let told = walk.cancelled.push(
                cancellation_of(walk.plan[walk.cancelled.len() as int], report.texts()),
            );
            assert(told.drop_last() =~= walk.cancelled);
        }
    }
    if walk.stage == RepoStage::Preempt {
        if let RepoReply::Planned(runs) = reply {
            let plan = planned_cancellations(walk.coalesced, walk.reserved, runs@);
            assert forall|i: int| 0 <= i < runs@.len() implies plan.contains(#[trigger] runs@[i]) by {
                assert(runs@.contains(runs@[i]));
                reserved_runs_are_not_cancelled(walk.coalesced, walk.reserved, runs@, runs@[i]);
            }
        }
    }
}

} // verus!
