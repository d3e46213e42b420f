//! The walk of a pass over its repositories: one report for each, in their order,
//! then what was recovered elsewhere, and how the ledger was saved.
use vstd::prelude::*;

use crate::ledger::StewardLedger;
use crate::pass::{
    append_unmatched_recovery_errors, begin_pass, pass_exit_code, persist_final_ledger,
    report_repository, repository_told, saving_told, unmatched_told, Pass,
};
use crate::plan::{RepoReport, StewardCommandArgs};
use crate::resume::RecoveryReports;
use crate::text::views;
use crate::text_map::TextMap;

verus! {

/// The steps of a pass.
#[derive(Clone, Copy, Debug, PartialEq, Eq, Structural)]
pub enum PassStep {
    /// Go through the repository at this position.
    Repository(usize),
    /// Tell what was recovered of other repositories.
    Unmatched,
    /// Save the ledger.
    Save,
    /// Nothing: the pass is over.
    Over,
}

/// What came of a step.
#[derive(Debug)]
pub enum PassReply {
    /// What a repository reports, with its name as the provider has it.
    Reported { repo: String, report: RepoReport, failed: bool, preemptions: usize },
    /// Why a repository could not be read.
    Unreadable(String),
    /// The ledger is there to tell what was recovered of other repositories.
    Ready,
    /// What came of saving.
    Saved(Result<(), String>),
}

/// Where a pass stands.
pub struct PassWalkView {
    pub args: StewardCommandArgs,
    pub repos: Seq<Seq<char>>,
    pub step: PassStep,
    /// What was recovered of repositories that were not reported yet.
    pub recovered: TextMap<RecoveryReports>,
    pub pass: Pass,
}

impl PassWalkView {
    /// The step after the report of a repository.
    pub open spec fn after(self, i: usize) -> PassStep {
        if i + 1 < self.repos.len() {
            PassStep::Repository((i + 1) as usize)
        } else {
            PassStep::Unmatched
        }
    }

    /// What was recovered of a repository.
    pub open spec fn recovered_of(self, repo: Seq<char>) -> Option<RecoveryReports> {
        if self.recovered@.dom().contains(repo) {
            Some(self.recovered@[repo])
        } else {
            None
        }
    }

    /// Whether every repository that was gone through has its report.
    pub open spec fn sound(self) -> bool {
        match self.step {
            PassStep::Repository(i) => i < self.repos.len() && self.pass.reports@.len() == i,
            PassStep::Unmatched => self.pass.reports@.len() == self.repos.len(),
            PassStep::Save => self.args.apply && self.pass.reports@.len() >= self.repos.len(),
            PassStep::Over => self.pass.reports@.len() >= self.repos.len(),
        }
    }
}

/// Whether a pass is what a reply made of an earlier one. A repository that could not
/// be read does not keep those after it from being gone through. A reply that belongs
/// to another step changes nothing.
pub open spec fn pass_walk_step(
    walk: PassWalkView,
    reply: PassReply,
    ledger: StewardLedger,
    after: PassWalkView,
) -> bool {
    &&& after.args == walk.args
    &&& after.repos == walk.repos
    &&& match (walk.step, reply) {
        (PassStep::Repository(i), PassReply::Reported { repo, report, failed, preemptions }) => {
            &&& after.step == walk.after(i)
            &&& after.recovered@ == walk.recovered@.remove(repo@)
            &&& repository_told(
                walk.pass,
                repo@,
                walk.args.base@,
                Ok((report, failed, preemptions)),
                walk.recovered_of(repo@),
                after.pass,
            )
        },
        (PassStep::Repository(i), PassReply::Unreadable(error)) => {
            &&& after.step == walk.after(i)
            &&& after.recovered == walk.recovered
            &&& repository_told(
                walk.pass,
                walk.repos[i as int],
                walk.args.base@,
                Err(error),
                None,
                after.pass,
            )
        },
        (PassStep::Unmatched, PassReply::Ready) => {
            &&& after.step == if walk.args.apply {
                PassStep::Save
            } else {
                PassStep::Over
            }
            &&& after.recovered@ == Map::<Seq<char>, RecoveryReports>::empty()
            &&& unmatched_told(walk.pass, walk.recovered, ledger, walk.args.base@, after.pass)
        },
        (PassStep::Save, PassReply::Saved(saved)) => {
            &&& after.step == PassStep::Over
            &&& after.recovered == walk.recovered
            &&& saving_told(walk.pass, saved, walk.args.base@, after.pass)
        },
        _ => after == walk,
    }
}

/// A pass over repositories.
#[derive(Debug)]
pub struct PassWalk<'a> {
    args: &'a StewardCommandArgs,
    repos: Vec<String>,
    step: PassStep,
    recovered: TextMap<RecoveryReports>,
    pass: Pass,
}

impl<'a> View for PassWalk<'a> {
    type V = PassWalkView;

    closed spec fn view(&self) -> PassWalkView {
        PassWalkView {
            args: *self.args,
            repos: views(self.repos@),
            step: self.step,
            recovered: self.recovered,
            pass: self.pass,
        }
    }
}

/// A reply keeps a pass sound.
pub proof fn pass_step_is_sound(
    walk: PassWalkView,
    reply: PassReply,
    ledger: StewardLedger,
    after: PassWalkView,
)
    requires
        walk.sound(),
        walk.repos.len() <= usize::MAX,
        pass_walk_step(walk, reply, ledger, after),
    ensures
        after.sound(),
{
}

impl<'a> PassWalk<'a> {
    #[verifier::type_invariant]
    spec fn kept(self) -> bool {
        self@.sound()
    }

    /// A pass that begins. It may preempt one run, unless a preemption is pending from
    /// before or is left pending by the recovery.
    pub fn new(
        args: &'a StewardCommandArgs,
        repos: Vec<String>,
        recovered: TextMap<RecoveryReports>,
        pending_before: bool,
        pending_now: bool,
    ) -> (r: Self)
        ensures
            r@.sound(),
            r@.args == *args,
            r@.repos == views(repos@),
            r@.recovered == recovered,
            r@.step == if repos@.len() == 0 {
                PassStep::Unmatched
            } else {
                PassStep::Repository(0)
            },
            r@.pass.reports@.len() == 0,
            !r@.pass.unhealthy,
            r@.pass.remaining_preemptions == if !pending_before && !pending_now {
                1int
            } else {
                0
            },
    {
        let step = if repos.len() == 0 {
            PassStep::Unmatched
        } else {
            PassStep::Repository(0)
        };
        proof {
            assert(views(repos@).len() == repos@.len());
        }
        PassWalk { args, repos, step, recovered, pass: begin_pass(pending_before, pending_now) }
    }

    /// What the pass does next.
    pub fn step(&self) -> (r: PassStep)
        ensures
            r == self@.step,
            r matches PassStep::Repository(i) ==> i < self@.repos.len(),
            r is Save ==> self@.args.apply,
    {
        proof {
            use_type_invariant(self);
        }
        self.step
    }

    /// The repository at a position.
    pub fn repo(&self, i: usize) -> (r: Option<&String>)
        ensures
            match r {
                Some(repo) => i < self@.repos.len() && repo@ == self@.repos[i as int],
                None => i >= self@.repos.len(),
            },
    {
        if i < self.repos.len() {
            Some(&self.repos[i])
        } else {
            None
        }
    }

    /// How many runs may still be preempted.
    pub fn remaining_preemptions(&self) -> (r: usize)
        ensures
            r == self@.pass.remaining_preemptions,
    {
        self.pass.remaining_preemptions
    }
}

/// Takes a pass over repositories one reply further.
pub fn steward_command<'a>(walk: PassWalk<'a>, reply: PassReply, ledger: &StewardLedger) -> (r:
    PassWalk<'a>)
    ensures
        pass_walk_step(walk@, reply, *ledger, r@),
        r@.sound(),
{
    proof {
        use_type_invariant(&walk);
        assert(walk@.repos.len() == walk.repos@.len());
    }
    let ghost before = walk@;
    let ghost given = reply;
    let PassWalk { args, repos, mut step, mut recovered, mut pass } = walk;
    let n: usize = repos.len();
    match (step, reply) {
        (PassStep::Repository(i), PassReply::Reported { repo, report, failed, preemptions }) => {
            let told = recovered.remove(repo.as_str());
            report_repository(
                &mut pass,
                repo.as_str(),
                args.base.as_str(),
                Ok((report, failed, preemptions)),
                told,
            );
            step = next_step(i, n);
        },
        (PassStep::Repository(i), PassReply::Unreadable(error)) => {
            report_repository(
                &mut pass,
                repos[i].as_str(),
                args.base.as_str(),
                Err(error),
                None,
            );
            step = next_step(i, n);
        },
        (PassStep::Unmatched, PassReply::Ready) => {
            append_unmatched_recovery_errors(&mut pass, recovered, ledger, args.base.as_str());
            recovered = TextMap::new();
            step = if args.apply {
                PassStep::Save
            } else {
                PassStep::Over
            };
        },
        (PassStep::Save, PassReply::Saved(saved)) => {
            persist_final_ledger(&mut pass, saved, args.base.as_str());
            step = PassStep::Over;
        },
        _ => {},
    }
    let ghost after = PassWalkView { args: *args, repos: views(repos@), step, recovered, pass };
    proof {
        pass_step_is_sound(before, given, *ledger, after);
    }
    PassWalk { args, repos, step, recovered, pass }
}

fn next_step(i: usize, n: usize) -> (r: PassStep)
    requires
        i < n,
    ensures
        r == if i + 1 < n {
            PassStep::Repository((i + 1) as usize)
        } else {
            PassStep::Unmatched
        },
{
    if n - i > 1 {
        PassStep::Repository(i + 1)
    } else {
        PassStep::Unmatched
    }
}

/// The reports of a pass that is over, and its exit code; one that is not over goes
/// on.
pub fn finish_pass<'a>(walk: PassWalk<'a>) -> (r: Result<(Vec<RepoReport>, u8), PassWalk<'a>>)
    ensures
        match r {
            Ok((reports, code)) => {
                &&& walk@.step == PassStep::Over
                &&& reports == walk@.pass.reports
                &&& reports@.len() >= walk@.repos.len()
                &&& code == if walk@.pass.unhealthy {
                    1int
                } else {
                    0
                }
            },
            Err(rest) => walk@.step != PassStep::Over && rest == walk,
        },
{
    proof {
        use_type_invariant(&walk);
    }
    match walk.step {
        PassStep::Over => {
            let code = pass_exit_code(&walk.pass);
            Ok((walk.pass.reports, code))
        },
        _ => Err(walk),
    }
}

/// What was wrong stays told: no reply makes an unhealthy pass healthy, and none
/// gives back a preemption.
pub proof fn trouble_stays_told(
    walk: PassWalkView,
    reply: PassReply,
    ledger: StewardLedger,
    after: PassWalkView,
)
    requires
        pass_walk_step(walk, reply, ledger, after),
    ensures
        walk.pass.unhealthy ==> after.pass.unhealthy,
        after.pass.remaining_preemptions <= walk.pass.remaining_preemptions,
        after.pass.reports@.len() >= walk.pass.reports@.len(),
{
}

/// What was recovered for a repository is told with its report and only there; what is left
/// is told at the end.
pub proof fn what_was_recovered_is_told_once(
    walk: PassWalkView,
    reply: PassReply,
    ledger: StewardLedger,
    after: PassWalkView,
)
    requires
        walk.repos.len() <= usize::MAX,
        pass_walk_step(walk, reply, ledger, after),
    ensures
        walk.step is Repository ==> (reply matches PassReply::Reported { repo, report, .. } ==> {
            &&& !after.recovered@.dom().contains(repo@)
            &&& walk.recovered@.dom().contains(repo@) ==> after.pass.reports@.last().errors@
                == report.errors@ + walk.recovered@[repo@].errors@
                && after.pass.reports@.last().cancellations@ == report.cancellations@
                + walk.recovered@[repo@].cancellations@
            &&& !walk.recovered@.dom().contains(repo@) ==> after.pass.reports@.last().errors@
                == report.errors@
            &&& forall|other: Seq<char>| #[trigger]
                walk.recovered@.dom().contains(other) && other != repo@
                    ==> after.recovered@.dom().contains(other)
        }),
        walk.step is Repository && reply is Unreadable ==> after.pass.unhealthy && after.recovered
            == walk.recovered,
        walk.step is Unmatched && reply is Ready ==> after.pass.reports@.len()
            == walk.pass.reports@.len() + walk.recovered.keys().len() && (after.step
            == PassStep::Save <==> walk.args.apply),
        walk.step is Save ==> (reply matches PassReply::Saved(Err(_)) ==> after.pass.unhealthy),
        walk.step is Repository && (reply is Reported || reply is Unreadable) ==> after.step
            != walk.step && after.step != PassStep::Over && after.step != PassStep::Save,
{
}

} // verus!
