//! The walk of a pass over the pull requests of a repository: one report for each,
//! in their order, whatever went wrong with those before it.
use vstd::prelude::*;

use crate::model::{ObservedPr, StewardDecision};
use crate::plan::{
    any_pr_error, begin_pr_plan, first_pr_step, has_pr_error, next_pr_step, pr_plan_flow,
    pr_report, PrPlanReply, PrPlanStage, PrPlanStep, PrPlanView, PrReport,
};
use crate::text::opt_view;

verus! {

/// What is reported of a pull request, in texts.
pub struct PrReportView {
    pub number: u64,
    pub head_sha: Seq<char>,
    pub decision: StewardDecision,
    pub mutation: Option<Seq<char>>,
    pub error: Option<Seq<char>>,
}

impl View for PrReport {
    type V = PrReportView;

    open spec fn view(&self) -> PrReportView {
        PrReportView {
            number: self.number,
            head_sha: self.head_sha@,
            decision: self.decision,
            mutation: opt_view(self.mutation),
            error: opt_view(self.error),
        }
    }
}

/// Reports, in texts.
pub open spec fn report_views(reports: Seq<PrReport>) -> Seq<PrReportView> {
    Seq::new(reports.len(), |i: int| reports[i]@)
}

/// The report of a pull request with a decision and what a pass did about it.
pub open spec fn report_of(
    pr: ObservedPr,
    decision: StewardDecision,
    told: (Option<Seq<char>>, Option<Seq<char>>),
) -> PrReportView {
    PrReportView {
        number: pr.fact.number,
        head_sha: pr.fact.head_sha@,
        decision,
        mutation: told.0,
        error: told.1,
    }
}

/// Where a walk stands: the reports so far, and the step that is taken for the pull
/// request after them.
pub struct PrWalkView {
    pub prs: Seq<ObservedPr>,
    pub apply: bool,
    pub reports: Seq<PrReportView>,
    pub current: Option<(StewardDecision, PrPlanStage, Option<Seq<char>>)>,
}

impl PrWalkView {
    /// Whether every pull request was reported.
    pub open spec fn is_over(self) -> bool {
        self.reports.len() == self.prs.len()
    }

    /// Whether the reports are those of the first pull requests, one for each, and
    /// tell of nothing where nothing is changed.
    pub open spec fn sound(self) -> bool {
        &&& self.reports.len() <= self.prs.len()
        &&& self.current is Some ==> self.apply && self.reports.len() < self.prs.len()
        &&& forall|i: int|
            0 <= i < self.reports.len() ==> (#[trigger] self.reports[i]).number
                == self.prs[i].fact.number && self.reports[i].head_sha
                == self.prs[i].fact.head_sha@
        &&& !self.apply ==> forall|i: int|
            0 <= i < self.reports.len() ==> (#[trigger] self.reports[i]).mutation is None
                && self.reports[i].error is None
    }

    /// The walk after a step of its current pull request.
    pub open spec fn after(self, decision: StewardDecision, step: PrPlanView) -> PrWalkView {
        match step {
            PrPlanView::Next(stage, mutation) => PrWalkView {
                current: Some((decision, stage, mutation)),
                ..self
            },
            PrPlanView::Report(told) => PrWalkView {
                reports: self.reports.push(
                    report_of(self.prs[self.reports.len() as int], decision, told),
                ),
                current: None,
                ..self
            },
        }
    }
}

/// The walk after a reply: a decision begins the next pull request, and the other
/// replies are those to its steps. A reply that nothing asked for changes nothing.
pub open spec fn pr_walk_step(walk: PrWalkView, reply: PrPlanReply) -> PrWalkView {
    match walk.current {
        Some((decision, stage, mutation)) => walk.after(
            decision,
            pr_plan_flow(stage, mutation, reply),
        ),
        None => match reply {
            PrPlanReply::Decided(decision) => if walk.is_over() {
                walk
            } else {
                walk.after(decision, first_pr_step(decision, walk.apply))
            },
            _ => walk,
        },
    }
}

/// A reply keeps a walk sound.
pub proof fn pr_step_is_sound(walk: PrWalkView, reply: PrPlanReply)
    requires
        walk.sound(),
    ensures
        pr_walk_step(walk, reply).sound(),
{
}

/// The step that is taken for a pull request.
#[derive(Debug)]
struct Current {
    decision: StewardDecision,
    stage: PrPlanStage,
    mutation: Option<String>,
}

/// A walk over pull requests.
#[derive(Debug)]
pub struct PrWalk<'a> {
    prs: &'a Vec<ObservedPr>,
    apply: bool,
    reports: Vec<PrReport>,
    current: Option<Current>,
}

impl<'a> View for PrWalk<'a> {
    type V = PrWalkView;

    closed spec fn view(&self) -> PrWalkView {
        PrWalkView {
            prs: self.prs@,
            apply: self.apply,
            reports: report_views(self.reports@),
            current: match self.current {
                Some(current) => Some(
                    (current.decision, current.stage, opt_view(current.mutation)),
                ),
                None => None,
            },
        }
    }
}

/// What a walk asks for.
#[derive(Clone, Copy, Debug, PartialEq, Eq, Structural)]
pub enum PrAction {
    /// Decide about the pull request at this position.
    Decide(usize),
    /// Take this step for the pull request at this position.
    Take(usize, PrPlanStage),
    /// Nothing: the walk is over.
    Over,
}

/// What a walk asks for.
pub open spec fn pr_walk_action(walk: PrWalkView) -> PrAction {
    match walk.current {
        Some((_, stage, _)) => PrAction::Take(walk.reports.len() as usize, stage),
        None => if walk.is_over() {
            PrAction::Over
        } else {
            PrAction::Decide(walk.reports.len() as usize)
        },
    }
}

impl<'a> PrWalk<'a> {
    #[verifier::type_invariant]
    spec fn kept(self) -> bool {
        self@.sound()
    }

    /// A walk that begins.
    pub fn new(prs: &'a Vec<ObservedPr>, apply: bool) -> (r: Self)
        ensures
            r@ == (PrWalkView { prs: prs@, apply, reports: Seq::empty(), current: None }),
            r@.sound(),
    {
        let r = PrWalk { prs, apply, reports: Vec::new(), current: None };
        proof {
            assert(r@.reports =~= Seq::<PrReportView>::empty());
        }
        r
    }

    /// What the walk asks for. A walk that only looks asks for no step.
    pub fn action(&self) -> (r: PrAction)
        ensures
            r == pr_walk_action(self@),
            !self@.apply ==> !(r is Take),
            r matches PrAction::Decide(i) ==> i == self@.reports.len() && i < self@.prs.len(),
            r matches PrAction::Take(i, _) ==> i == self@.reports.len() && i < self@.prs.len(),
            r is Over ==> self@.is_over(),
    {
        proof {
            use_type_invariant(self);
        }
        match &self.current {
            Some(current) => PrAction::Take(self.reports.len(), current.stage),
            None => if self.reports.len() == self.prs.len() {
                PrAction::Over
            } else {
                PrAction::Decide(self.reports.len())
            },
        }
    }

    /// The decision about the pull request that a step is taken for.
    pub fn decision(&self) -> (r: Option<&StewardDecision>)
        ensures
            match self@.current {
                Some((decision, _, _)) => r matches Some(found) && *found == decision,
                None => r is None,
            },
    {
        match &self.current {
            Some(current) => Some(&current.decision),
            None => None,
        }
    }

    /// Whether the walk is over.
    pub fn is_over(&self) -> (r: bool)
        ensures
            r == self@.is_over(),
    {
        self.reports.len() == self.prs.len()
    }

    fn continued(
        prs: &'a Vec<ObservedPr>,
        apply: bool,
        mut reports: Vec<PrReport>,
        decision: StewardDecision,
        step: PrPlanStep,
        Ghost(before): Ghost<PrWalkView>,
    ) -> (r: Self)
        requires
            before.sound(),
            before.prs == prs@,
            before.apply == apply,
            before.reports == report_views(reports@),
            before.reports.len() < before.prs.len(),
            before.after(decision, step@).sound(),
        ensures
            r@ == before.after(decision, step@),
    {
        match step {
            PrPlanStep::Next { stage, mutation } => {
                let current = Some(Current { decision, stage, mutation });
                PrWalk { prs, apply, reports, current }
            },
            PrPlanStep::Report(report) => {
                let ghost told = report.texts();
                let entry = pr_report(&prs[reports.len()], decision, report);
                proof {
                    assert(entry@ == report_of(prs@[reports@.len() as int], decision, told));
                    assert(report_views(reports@.push(entry)) =~= before.reports.push(entry@));
                }
                reports.push(entry);
                PrWalk { prs, apply, reports, current: None }
            },
        }
    }
}

/// Takes a walk over pull requests one reply further. An error ends the steps of
/// its own pull request alone.
pub fn apply_pr_plans<'a>(walk: PrWalk<'a>, reply: PrPlanReply) -> (r: PrWalk<'a>)
    ensures
        r@ == pr_walk_step(walk@, reply),
        r@.sound(),
{
    proof {
        use_type_invariant(&walk);
    }
    let ghost before = walk@;
    let PrWalk { prs, apply, reports, current } = walk;
    match current {
        Some(current) => {
            let Current { decision, stage, mutation } = current;
            let step = next_pr_step(stage, mutation, reply);
            PrWalk::continued(prs, apply, reports, decision, step, Ghost(before))
        },
        None => match reply {
            PrPlanReply::Decided(decision) => if reports.len() == prs.len() {
                PrWalk { prs, apply, reports, current: None }
            } else {
                let step = begin_pr_plan(&decision, apply);
                PrWalk::continued(prs, apply, reports, decision, step, Ghost(before))
            },
            _ => PrWalk { prs, apply, reports, current: None },
        },
    }
}

/// The reports of a walk that is over, and whether anything went wrong; a walk that
/// is not over goes on.
pub fn finish_pr_plans<'a>(walk: PrWalk<'a>) -> (r: Result<(Vec<PrReport>, bool), PrWalk<'a>>)
    ensures
        match r {
            Ok((reports, unhealthy)) => {
                &&& walk@.is_over()
                &&& report_views(reports@) == walk@.reports
                &&& reports@.len() == walk@.prs.len()
                &&& forall|i: int|
                    0 <= i < reports@.len() ==> (#[trigger] reports@[i]).number
                        == walk@.prs[i].fact.number && reports@[i].head_sha@
                        == walk@.prs[i].fact.head_sha@
                &&& unhealthy == any_pr_error(reports@)
                &&& !walk@.apply ==> !unhealthy && forall|i: int|
                    0 <= i < reports@.len() ==> (#[trigger] reports@[i]).mutation is None
                        && reports@[i].error is None
            },
            Err(rest) => !walk@.is_over() && rest == walk,
        },
{
    proof {
        use_type_invariant(&walk);
    }
    if !walk.is_over() {
        return Err(walk);
    }
    let ghost views = walk@.reports;
    let PrWalk { prs, apply, reports, current } = walk;
    let unhealthy = has_pr_error(&reports);
    proof {
        assert forall|i: int| 0 <= i < reports@.len() implies (#[trigger] reports@[i])@
            == views[i] by {}
    }
    Ok((reports, unhealthy))
}

/// An error does not keep the pull requests after it from being reported: after
/// any report the walk asks for the decision about the next one, if there is one.
pub proof fn an_error_ends_its_own_pull_request(walk: PrWalkView, reply: PrPlanReply)
    requires
        walk.sound(),
        pr_walk_step(walk, reply).reports.len() > walk.reports.len(),
    ensures
        ({
            let after = pr_walk_step(walk, reply);
            &&& after.reports.len() == walk.reports.len() + 1
            &&& after.reports.drop_last() == walk.reports
            &&& pr_walk_action(after) == if after.is_over() {
                PrAction::Over
            } else {
                PrAction::Decide(after.reports.len() as usize)
            }
        }),
{
    let after = pr_walk_step(walk, reply);
    assert(after.reports.drop_last() =~= walk.reports);
}

} // verus!
