//! Bringing labels, statuses and recovery requests in line with what the steward
//! decided about a pull request.
use vstd::prelude::*;

use crate::capacity::audited_once;
use crate::fingerprint::fingerprint;
use crate::guard::{
    ends_as, ends_well, ends_with_error, ends_with_its_end, failing, reports_both, reports_done,
    reports_failed, Closing, Flow, FlowView,
};
use crate::ledger::{record_audit, AuditTexts, StewardLedger};
use crate::model::{
    MutationReport, ObservedPr, StewardCheck, StewardDecision, StewardPolicy, RECOVERY_CONTEXT,
    UNMANAGED_LABEL,
};
use crate::revalidation::labelled;
use crate::signal::{
    fact_text, fact_views, failure_fact_component, failure_fingerprint,
    management_label_is_converged, normalized_recovery_facts, required_facts, signal_converged,
    signal_is_converged, signed, steward_policy_signature, tells_failure, truncate_description,
    FactView, RecoveryFailureFact, DESCRIPTION_CHARS,
};
use crate::text::{
    concat, concat3, concat4, decimal, eq_ignore_case, first_chars, has_prefix, has_suffix, join,
    same_ignoring_case, separated, to_decimal, upper, views,
};

verus! {

/// A change of a label, with the status that goes with it.
#[derive(Clone, Copy, Debug, PartialEq, Eq, Structural)]
pub enum LabelChange {
    /// Says that a pull request is unmanaged, or no longer is.
    Management { unmanaged: bool },
    /// Says that a pull request needs an agent, or no longer does.
    Signal { needs_agent: bool },
}

impl LabelChange {
    /// What the guard is taken for.
    pub open spec fn purpose(self) -> Seq<char> {
        match self {
            LabelChange::Management { unmanaged: true } => "runner steward label unmanaged"@,
            LabelChange::Management { unmanaged: false } => "runner steward clear unmanaged"@,
            LabelChange::Signal { needs_agent: true } => "runner steward signal needs-agent"@,
            LabelChange::Signal { needs_agent: false } => "runner steward clear needs-agent"@,
        }
    }

    /// What is reported once it is done.
    pub open spec fn action(self) -> Seq<char> {
        match self {
            LabelChange::Management { unmanaged: true } => "unmanaged_label_added"@,
            LabelChange::Management { unmanaged: false } => "unmanaged_label_cleared"@,
            LabelChange::Signal { needs_agent: true } => "needs_agent_signaled"@,
            LabelChange::Signal { needs_agent: false } => "needs_agent_cleared"@,
        }
    }

    /// What the guard records where it fails.
    pub open spec fn failure(self) -> Seq<char> {
        match self {
            LabelChange::Management { .. } => "management_label_failed"@,
            LabelChange::Signal { .. } => "recovery_signal_failed"@,
        }
    }

    /// How a failure to record it is introduced.
    pub open spec fn unrecorded(self) -> Seq<char> {
        match self {
            LabelChange::Management { .. } => "management label mutation audit failed: "@,
            LabelChange::Signal { .. } => "recovery mutation audit failed: "@,
        }
    }

    /// What the guard is taken for.
    pub fn guard_purpose(self) -> (r: &'static str)
        ensures
            r@ == self.purpose(),
    {
        match self {
            LabelChange::Management { unmanaged: true } => "runner steward label unmanaged",
            LabelChange::Management { unmanaged: false } => "runner steward clear unmanaged",
            LabelChange::Signal { needs_agent: true } => "runner steward signal needs-agent",
            LabelChange::Signal { needs_agent: false } => "runner steward clear needs-agent",
        }
    }

    /// What is reported once it is done.
    pub fn done_action(self) -> (r: &'static str)
        ensures
            r@ == self.action(),
    {
        match self {
            LabelChange::Management { unmanaged: true } => "unmanaged_label_added",
            LabelChange::Management { unmanaged: false } => "unmanaged_label_cleared",
            LabelChange::Signal { needs_agent: true } => "needs_agent_signaled",
            LabelChange::Signal { needs_agent: false } => "needs_agent_cleared",
        }
    }

    fn failed_outcome(self) -> (r: &'static str)
        ensures
            r@ == self.failure(),
    {
        match self {
            LabelChange::Management { .. } => "management_label_failed",
            LabelChange::Signal { .. } => "recovery_signal_failed",
        }
    }

    fn unrecorded_prefix(self) -> (r: &'static str)
        ensures
            r@ == self.unrecorded(),
    {
        match self {
            LabelChange::Management { .. } => "management label mutation audit failed: ",
            LabelChange::Signal { .. } => "recovery mutation audit failed: ",
        }
    }
}

/// Whether a decision is that the steward does not manage the pull request.
pub open spec fn is_unmanaged(decision: StewardDecision) -> bool {
    decision is Unmanaged || decision is HandoffMissing
}

/// The change that brings the management label in line; `None` where it is.
pub fn reconcile_management_label(pr: &ObservedPr, decision: &StewardDecision) -> (r: Option<
    LabelChange,
>)
    ensures
        r == if labelled(pr.fact.labels@, UNMANAGED_LABEL@) == is_unmanaged(*decision) {
            None
        } else {
            Some(LabelChange::Management { unmanaged: is_unmanaged(*decision) })
        },
{
    let unmanaged = match decision {
        StewardDecision::Unmanaged => true,
        StewardDecision::HandoffMissing => true,
        _ => false,
    };
    if management_label_is_converged(pr, unmanaged) {
        None
    } else {
        Some(LabelChange::Management { unmanaged })
    }
}

/// What a decision asks of the recovery signal.
#[derive(Clone, Copy, Debug, PartialEq, Eq, Structural)]
pub enum RecoveryNeed {
    /// An agent is needed.
    Signal,
    /// No agent is needed.
    Clear,
    /// The decision takes the pull request out of recovery.
    Exclude,
}

/// What a decision asks of the recovery signal.
pub open spec fn need_of(decision: StewardDecision) -> RecoveryNeed {
    match decision {
        StewardDecision::NeedsUpdate { .. } => RecoveryNeed::Signal,
        StewardDecision::RequiredFailed { .. } => RecoveryNeed::Signal,
        StewardDecision::Unmanaged => RecoveryNeed::Exclude,
        StewardDecision::HandoffMissing => RecoveryNeed::Exclude,
        StewardDecision::OptedOut => RecoveryNeed::Exclude,
        StewardDecision::ProvenanceBlocked { .. } => RecoveryNeed::Exclude,
        StewardDecision::Draft => RecoveryNeed::Exclude,
        StewardDecision::InvalidHead => RecoveryNeed::Exclude,
        _ => RecoveryNeed::Clear,
    }
}

/// What a decision asks of the recovery signal.
pub fn recovery_need(decision: &StewardDecision) -> (r: RecoveryNeed)
    ensures
        r == need_of(*decision),
{
    match decision {
        StewardDecision::NeedsUpdate { .. } => RecoveryNeed::Signal,
        StewardDecision::RequiredFailed { .. } => RecoveryNeed::Signal,
        StewardDecision::Unmanaged => RecoveryNeed::Exclude,
        StewardDecision::HandoffMissing => RecoveryNeed::Exclude,
        StewardDecision::OptedOut => RecoveryNeed::Exclude,
        StewardDecision::ProvenanceBlocked { .. } => RecoveryNeed::Exclude,
        StewardDecision::Draft => RecoveryNeed::Exclude,
        StewardDecision::InvalidHead => RecoveryNeed::Exclude,
        _ => RecoveryNeed::Clear,
    }
}

/// How the recovery signal is brought in line.
#[derive(Clone, Copy, Debug, PartialEq, Eq, Structural)]
pub enum RecoveryPath {
    /// Take the pull request out of recovery.
    ExcludedClear,
    /// The signal is right: publish the recovery.
    Enqueue,
    /// The signal is right: fence what may still be published.
    Fence,
    /// Read the pull request again.
    Revalidate,
    /// Change the signal.
    Change(LabelChange),
}

/// How the recovery signal is brought in line; `live` says that the pull request
/// was just read again.
pub open spec fn recovery_path(
    pr: ObservedPr,
    decision: StewardDecision,
    live: bool,
) -> RecoveryPath {
    match need_of(decision) {
        RecoveryNeed::Exclude => RecoveryPath::ExcludedClear,
        need => {
            let needs_agent = need == RecoveryNeed::Signal;
            if signal_converged(pr, needs_agent) {
                if needs_agent {
                    RecoveryPath::Enqueue
                } else {
                    RecoveryPath::Fence
                }
            } else if !live {
                RecoveryPath::Revalidate
            } else {
                RecoveryPath::Change(LabelChange::Signal { needs_agent })
            }
        },
    }
}

/// How the recovery signal is brought in line.
pub fn reconcile_recovery_signal(pr: &ObservedPr, decision: &StewardDecision, live: bool) -> (r:
    RecoveryPath)
    ensures
        r == recovery_path(*pr, *decision, live),
{
    let needs_agent = match recovery_need(decision) {
        RecoveryNeed::Exclude => return RecoveryPath::ExcludedClear,
        RecoveryNeed::Signal => true,
        RecoveryNeed::Clear => false,
    };
    if signal_is_converged(pr, needs_agent) {
        if needs_agent {
            RecoveryPath::Enqueue
        } else {
            RecoveryPath::Fence
        }
    } else if !live {
        RecoveryPath::Revalidate
    } else {
        RecoveryPath::Change(LabelChange::Signal { needs_agent })
    }
}

/// A decision that takes a pull request out of recovery never publishes one.
pub proof fn excluded_is_never_published(pr: ObservedPr, decision: StewardDecision, live: bool)
    requires
        need_of(decision) == RecoveryNeed::Exclude,
    ensures
        recovery_path(pr, decision, live) == RecoveryPath::ExcludedClear,
{
}

/// Whether a decision is that a pull request is blocked until somebody changes it.
pub open spec fn blocks(decision: StewardDecision) -> bool {
    decision is NeedsUpdate || decision is RequiredFailed
}

/// Whether a decision is that the steward keeps its hands off a pull request.
pub open spec fn hands_off(decision: StewardDecision) -> bool {
    decision is Unmanaged || decision is HandoffMissing || decision is OptedOut || decision
        is ProvenanceBlocked || decision is Draft || decision is InvalidHead
}

/// For a decision that does not take the pull request out of recovery, a signal that is
/// not what the decision needs is always changed to that once the pull request was read
/// again, and read again before. A recovery is published only where the signal says
/// that an agent is needed and one is, and a target is fenced only where the signal
/// says that none is and none is. A decision that keeps hands off only clears.
pub proof fn a_wrong_signal_is_always_changed(
    pr: ObservedPr,
    decision: StewardDecision,
    live: bool,
)
    ensures
        recovery_path(pr, decision, live) == RecoveryPath::ExcludedClear <==> hands_off(decision),
        !hands_off(decision) && !signal_converged(pr, blocks(decision)) ==> recovery_path(
            pr,
            decision,
            live,
        ) == if live {
            RecoveryPath::Change(LabelChange::Signal { needs_agent: blocks(decision) })
        } else {
            RecoveryPath::Revalidate
        },
        recovery_path(pr, decision, live) == RecoveryPath::Enqueue <==> blocks(decision)
            && signal_converged(pr, true),
        recovery_path(pr, decision, live) == RecoveryPath::Fence <==> !blocks(decision)
            && !hands_off(decision) && signal_converged(pr, false),
        recovery_path(pr, decision, live) matches RecoveryPath::Change(change) ==> live
            && !signal_converged(pr, blocks(decision)),
{
}

/// A signal that was changed is what the decision needs: reading it again leads to no
/// further change, and what follows is the publication or the fence.
pub proof fn a_changed_signal_is_not_changed_again(
    before: ObservedPr,
    after: ObservedPr,
    decision: StewardDecision,
    live: bool,
    needs_agent: bool,
)
    requires
        recovery_path(before, decision, true) == RecoveryPath::Change(
            LabelChange::Signal { needs_agent },
        ),
        signal_converged(after, needs_agent),
    ensures
        recovery_path(after, decision, live) == if needs_agent {
            RecoveryPath::Enqueue
        } else {
            RecoveryPath::Fence
        },
{
}

/// What a change of a label does next.
#[derive(Clone, Copy, Debug, PartialEq, Eq, Structural)]
pub enum LabelStage {
    /// Take the guard.
    Acquire,
    /// Write the status and the label.
    Write,
    /// Finish the guard.
    Finish,
}

/// What came of a step.
#[derive(Debug)]
pub enum StepReply {
    Done,
    Failed(String),
}

/// What a change of a label does after a reply.
pub open spec fn label_flow(
    change: LabelChange,
    stage: LabelStage,
    reply: StepReply,
) -> FlowView<LabelStage> {
    match (stage, reply) {
        (LabelStage::Acquire, StepReply::Done) => FlowView::Next(LabelStage::Write),
        (LabelStage::Acquire, StepReply::Failed(e)) => reports_failed(e@),
        (LabelStage::Write, StepReply::Done) => FlowView::Next(LabelStage::Finish),
        (LabelStage::Write, StepReply::Failed(e)) => FlowView::Close(
            failing(change.failure(), e@),
        ),
        (LabelStage::Finish, StepReply::Done) => reports_done(change.action()),
        (LabelStage::Finish, StepReply::Failed(e)) => reports_both(
            change.action(),
            change.unrecorded() + e@,
        ),
    }
}

/// Takes one step of a change of a label. A change that was made is audited,
/// whether or not the guard could be finished.
pub fn apply_recovery_signal(
    change: LabelChange,
    stage: LabelStage,
    reply: StepReply,
    repo: &str,
    pr: &ObservedPr,
    ledger: &mut StewardLedger,
    at: &str,
) -> (r: Flow<LabelStage>)
    ensures
        r@ == label_flow(change, stage, reply),
        if stage == LabelStage::Finish {
            audited_once(
                *old(ledger),
                *final(ledger),
                AuditTexts {
                    at: at@,
                    repo: repo@,
                    subject: "pr:"@ + decimal(pr.fact.number as nat) + ":"@ + pr.fact.head_sha@,
                    action: change.action(),
                },
            )
        } else {
            *final(ledger) == *old(ledger)
        },
{
    match stage {
        LabelStage::Acquire => match reply {
            StepReply::Done => Flow::Next(LabelStage::Write),
            StepReply::Failed(error) => Flow::Report(MutationReport::failed(error)),
        },
        LabelStage::Write => match reply {
            StepReply::Done => Flow::Next(LabelStage::Finish),
            StepReply::Failed(error) => {
                proof {
                    reveal_strlit("");
                    assert(""@ + error@ =~= error@);
                }
                Flow::Close(
                    Closing::Fail {
                        outcome: change.failed_outcome(),
                        mutation: None,
                        prefix: "",
                        error,
                    },
                )
            },
        },
        LabelStage::Finish => {
            let subject = concat4(
                "pr:",
                to_decimal(pr.fact.number).as_str(),
                ":",
                pr.fact.head_sha.as_str(),
            );
            record_audit(ledger, at, repo, subject.as_str(), change.done_action());
            match reply {
                StepReply::Done => Flow::Report(MutationReport::done(change.done_action())),
                StepReply::Failed(error) => Flow::Report(
                    MutationReport::both(
                        change.done_action(),
                        concat(change.unrecorded_prefix(), error.as_str()),
                    ),
                ),
            }
        },
    }
}

/// What was done, one thing after the other.
pub open spec fn both_reported(a: Option<Seq<char>>, b: Option<Seq<char>>) -> Option<Seq<char>> {
    match (a, b) {
        (Some(x), Some(y)) => Some(x + ";"@ + y),
        (Some(x), None) => Some(x),
        (None, y) => y,
    }
}

/// Whether the recovery is published after the signal was changed: only where an
/// agent is needed and nothing went wrong.
pub fn publishes_after_change(needs_agent: bool, report: &MutationReport) -> (r: bool)
    ensures
        r == (needs_agent && report.error is None),
{
    needs_agent && report.error.is_none()
}

/// What is reported of a changed signal and a published recovery.
pub fn combine_mutations(report: MutationReport, published: MutationReport) -> (r: MutationReport)
    ensures
        r.texts() == (
            both_reported(report.texts().0, published.texts().0),
            published.texts().1,
        ),
{
    let mutation = match (report.mutation, published.mutation) {
        (Some(x), Some(y)) => Some(concat3(x.as_str(), ";", y.as_str())),
        (Some(x), None) => Some(x),
        (None, y) => y,
    };
    MutationReport { mutation, error: published.error }
}

/// Whether the queue is still what the policy was made for; the report where it
/// is not.
pub fn revalidate_recovery_queue(enabled: bool, policy: &StewardPolicy) -> (r: Option<
    MutationReport,
>)
    ensures
        match r {
            None => enabled == policy.merge_queue,
            Some(report) => enabled != policy.merge_queue && report.texts() == (
                Some("recovery_skipped_queue_capability_change"@),
                None::<Seq<char>>,
            ),
        },
{
    if enabled == policy.merge_queue {
        None
    } else {
        Some(MutationReport::done("recovery_skipped_queue_capability_change"))
    }
}

/// The pull request as it is now: it must be open with the observed head, and
/// the steward must decide about it as before. Else what is reported.
pub fn revalidate_recovery_target(
    observed: &ObservedPr,
    live: Option<ObservedPr>,
    decision: &StewardDecision,
    live_decision: &StewardDecision,
) -> (r: Result<ObservedPr, MutationReport>)
    ensures
        match live {
            Some(pr) => if same_ignoring_case(pr.fact.head_sha@, observed.fact.head_sha@)
                && live_decision@ == decision@ {
                r == Ok::<ObservedPr, MutationReport>(pr)
            } else {
                r matches Err(report) && report.texts() == (
                    Some("recovery_skipped_after_live_revalidation"@),
                    None::<Seq<char>>,
                )
            },
            None => r matches Err(report) && report.texts() == (
                Some("recovery_skipped_after_live_revalidation"@),
                None::<Seq<char>>,
            ),
        },
{
    match live {
        Some(pr) => {
            if eq_ignore_case(pr.fact.head_sha.as_str(), observed.fact.head_sha.as_str())
                && live_decision.same_as(decision) {
                return Ok(pr);
            }
        },
        None => {},
    }
    Err(MutationReport::done("recovery_skipped_after_live_revalidation"))
}

/// What taking a pull request out of recovery does next.
#[derive(Clone, Copy, Debug, PartialEq, Eq, Structural)]
pub enum ExcludeStage {
    /// Take the lease that orders publications.
    Lease,
    /// Read the pull request again.
    Revalidate,
    /// Fence the target and resolve its handoffs.
    Fence,
}

/// What came of a step of it.
#[derive(Debug)]
pub enum ExcludeReply {
    Done,
    Failed(String),
    /// The pull request is no longer what it was.
    Changed(MutationReport),
}

/// What taking a pull request out of recovery does after a reply. A reply that
/// belongs to another stage changes nothing.
pub open spec fn exclude_flow(stage: ExcludeStage, reply: ExcludeReply) -> FlowView<ExcludeStage> {
    match (stage, reply) {
        (ExcludeStage::Lease, ExcludeReply::Done) => FlowView::Next(ExcludeStage::Revalidate),
        (ExcludeStage::Revalidate, ExcludeReply::Done) => FlowView::Next(ExcludeStage::Fence),
        (ExcludeStage::Revalidate, ExcludeReply::Changed(report)) => FlowView::Report(
            report.texts(),
        ),
        (ExcludeStage::Fence, ExcludeReply::Done) => FlowView::Report((None, None)),
        (_, ExcludeReply::Failed(e)) => reports_failed(e@),
        _ => FlowView::Next(stage),
    }
}

/// What taking a pull request out of recovery does after a reply.
pub fn revalidate_excluded_recovery_clear(stage: ExcludeStage, reply: ExcludeReply) -> (r: Flow<
    ExcludeStage,
>)
    ensures
        r@ == exclude_flow(stage, reply),
{
    match (stage, reply) {
        (ExcludeStage::Lease, ExcludeReply::Done) => Flow::Next(ExcludeStage::Revalidate),
        (ExcludeStage::Revalidate, ExcludeReply::Done) => Flow::Next(ExcludeStage::Fence),
        (ExcludeStage::Revalidate, ExcludeReply::Changed(report)) => Flow::Report(report),
        (ExcludeStage::Fence, ExcludeReply::Done) => Flow::Report(MutationReport::none()),
        (_, ExcludeReply::Failed(error)) => Flow::Report(MutationReport::failed(error)),
        _ => Flow::Next(stage),
    }
}

/// What is reported of a recovery that is not needed: nothing, or why its target
/// could not be fenced.
pub fn fence_converged_recovery_clear(fenced: Result<(), String>) -> (r: MutationReport)
    ensures
        r.texts() == match fenced {
            Ok(_) => (None::<Seq<char>>, None::<Seq<char>>),
            Err(e) => (None, Some(e@)),
        },
{
    match fenced {
        Ok(_) => MutationReport::none(),
        Err(error) => MutationReport::failed(error),
    }
}

/// What is reported of a recovery that could not be asked for.
pub open spec fn deferred(error: Seq<char>) -> Seq<char> {
    "recovery_request_deferred:"@ + first_chars(error, DESCRIPTION_CHARS as nat)
}

/// What is reported of a recovery that could not be asked for. The pass goes on.
pub fn deferred_recovery_request(error: &str) -> (r: MutationReport)
    ensures
        r.texts() == (Some(deferred(error@)), None::<Seq<char>>),
{
    let text = concat("recovery_request_deferred:", truncate_description(error).as_str());
    MutationReport::done(text.as_str())
}

/// What publishing a recovery does next.
#[derive(Clone, Copy, Debug, PartialEq, Eq, Structural)]
pub enum PublishStage {
    /// Take the lease that orders publications.
    Lease,
    /// Read the pull request again.
    Revalidate,
    /// Record the failure for the owner.
    Persist,
    /// Find out whether recoveries are asked for at all.
    Enabled,
    /// Ask for the recovery.
    Enqueue,
}

/// What came of a step of it.
#[derive(Debug)]
pub enum PublishReply {
    Done,
    Failed(String),
    /// The pull request is no longer what it was.
    Changed(MutationReport),
    /// The pull request as it is now, and the checks that count for what failed.
    Live { pr: ObservedPr, selected: Vec<Option<StewardCheck>> },
    /// Whether recoveries are asked for.
    Enabled(bool),
    /// The recovery was asked for; `None` where it had been before.
    Requested(Option<String>),
}

/// What is wrong with the facts of a decision.
pub open spec fn facts_error(
    decision: StewardDecision,
    policy: StewardPolicy,
    selected: Seq<Option<StewardCheck>>,
) -> Option<Seq<char>> {
    match decision {
        StewardDecision::RequiredFailed { contexts } => match required_facts(
            contexts@,
            policy.required_checks@,
            selected,
        ) {
            Err(e) => Some(e),
            Ok(_) => None,
        },
        _ => None,
    }
}

/// What publishing a recovery does after a reply. A reply that belongs to another
/// stage changes nothing.
pub open spec fn publish_flow(
    decision: StewardDecision,
    policy: StewardPolicy,
    stage: PublishStage,
    reply: PublishReply,
) -> FlowView<PublishStage> {
    match (stage, reply) {
        (PublishStage::Lease, PublishReply::Done) => FlowView::Next(PublishStage::Revalidate),
        (PublishStage::Lease, PublishReply::Failed(e)) => reports_failed(
            "mandatory terminal handoff publication lease failed: "@ + e@,
        ),
        (PublishStage::Revalidate, PublishReply::Failed(e)) => reports_failed(
            "mandatory terminal handoff live revalidation failed: "@ + e@,
        ),
        (PublishStage::Revalidate, PublishReply::Changed(report)) => FlowView::Report(
            (
                report.texts().0,
                match report.texts().1 {
                    Some(e) => Some("mandatory terminal handoff live revalidation failed: "@ + e),
                    None => None,
                },
            ),
        ),
        (PublishStage::Revalidate, PublishReply::Live { pr, selected }) => if !signal_converged(
            pr,
            true,
        ) {
            reports_done("recovery_skipped_after_signal_revalidation"@)
        } else {
            match facts_error(decision, policy, selected@) {
                Some(e) => reports_failed(e),
                None => FlowView::Next(PublishStage::Persist),
            }
        },
        (PublishStage::Persist, PublishReply::Done) => FlowView::Next(PublishStage::Enabled),
        (PublishStage::Persist, PublishReply::Failed(e)) => reports_failed(e@),
        (PublishStage::Enabled, PublishReply::Enabled(true)) => FlowView::Next(
            PublishStage::Enqueue,
        ),
        (PublishStage::Enabled, PublishReply::Enabled(false)) => reports_done(
            "actionable_failure_persisted"@,
        ),
        (PublishStage::Enabled, PublishReply::Failed(e)) | (
            PublishStage::Enqueue,
            PublishReply::Failed(e),
        ) => reports_done(deferred(e@)),
        (PublishStage::Enqueue, PublishReply::Requested(Some(id))) => reports_done(
            "recovery_request_created:"@ + id@,
        ),
        (PublishStage::Enqueue, PublishReply::Requested(None)) => FlowView::Report((None, None)),
        _ => FlowView::Next(stage),
    }
}

/// What publishing a recovery does after a reply.
pub fn enqueue_recovery_after_revalidation(
    decision: &StewardDecision,
    policy: &StewardPolicy,
    stage: PublishStage,
    reply: PublishReply,
) -> (r: Flow<PublishStage>)
    requires
        reply matches PublishReply::Live { selected, .. } ==> (decision matches
            StewardDecision::RequiredFailed { contexts } ==> selected@.len() == contexts@.len()),
    ensures
        r@ == publish_flow(*decision, *policy, stage, reply),
{
    match (stage, reply) {
        (PublishStage::Lease, PublishReply::Done) => Flow::Next(PublishStage::Revalidate),
        (PublishStage::Lease, PublishReply::Failed(error)) => Flow::Report(
            MutationReport::failed(
                concat("mandatory terminal handoff publication lease failed: ", error.as_str()),
            ),
        ),
        (PublishStage::Revalidate, PublishReply::Failed(error)) => Flow::Report(
            MutationReport::failed(
                concat("mandatory terminal handoff live revalidation failed: ", error.as_str()),
            ),
        ),
        (PublishStage::Revalidate, PublishReply::Changed(report)) => {
            let error = match report.error {
                Some(e) => Some(
                    concat("mandatory terminal handoff live revalidation failed: ", e.as_str()),
                ),
                None => None,
            };
            Flow::Report(MutationReport { mutation: report.mutation, error })
        },
        (PublishStage::Revalidate, PublishReply::Live { pr, selected }) => {
            if !signal_is_converged(&pr, true) {
                return Flow::Report(
                    MutationReport::done("recovery_skipped_after_signal_revalidation"),
                );
            }
            match normalized_recovery_facts(decision, policy, &selected) {
                Ok(_) => Flow::Next(PublishStage::Persist),
                Err(error) => Flow::Report(MutationReport::failed(error)),
            }
        },
        (PublishStage::Persist, PublishReply::Done) => Flow::Next(PublishStage::Enabled),
        (PublishStage::Persist, PublishReply::Failed(error)) => Flow::Report(
            MutationReport::failed(error),
        ),
        (PublishStage::Enabled, PublishReply::Enabled(true)) => Flow::Next(PublishStage::Enqueue),
        (PublishStage::Enabled, PublishReply::Enabled(false)) => Flow::Report(
            MutationReport::done("actionable_failure_persisted"),
        ),
        (PublishStage::Enabled, PublishReply::Failed(error)) => Flow::Report(
            deferred_recovery_request(error.as_str()),
        ),
        (PublishStage::Enqueue, PublishReply::Failed(error)) => Flow::Report(
            deferred_recovery_request(error.as_str()),
        ),
        (PublishStage::Enqueue, PublishReply::Requested(Some(id))) => {
            let text = concat("recovery_request_created:", id.as_str());
            Flow::Report(MutationReport::done(text.as_str()))
        },
        (PublishStage::Enqueue, PublishReply::Requested(None)) => Flow::Report(
            MutationReport::none(),
        ),
        _ => Flow::Next(stage),
    }
}

/// A recovery is asked for only after the failure was recorded for the owner.
pub proof fn request_follows_the_recorded_failure(
    decision: StewardDecision,
    policy: StewardPolicy,
    stage: PublishStage,
    reply: PublishReply,
    next: PublishStage,
)
    requires
        publish_flow(decision, policy, stage, reply) == FlowView::Next(next),
        next != stage,
    ensures
        next == PublishStage::Enqueue ==> stage == PublishStage::Enabled && reply
            == PublishReply::Enabled(true),
        next == PublishStage::Enabled ==> stage == PublishStage::Persist && reply is Done,
        next == PublishStage::Persist ==> stage == PublishStage::Revalidate && (reply matches
            PublishReply::Live { pr, .. } && signal_converged(pr, true)),
{
}

/// What a recovery is asked for with.
#[derive(Debug)]
pub struct RecoveryAsk {
    pub failure_summary: String,
    pub failure_facts: Vec<RecoveryFailureFact>,
    pub failure_fingerprint: String,
    pub policy_signature: String,
}

/// What a recovery is asked for with; `None` where the decision asks for none,
/// and the report where its facts are unclear.
pub fn enqueue_recovery(
    decision: &StewardDecision,
    policy: &StewardPolicy,
    selected: &Vec<Option<StewardCheck>>,
) -> (r: Result<Option<RecoveryAsk>, MutationReport>)
    requires
        decision matches StewardDecision::RequiredFailed { contexts } ==> selected@.len()
            == contexts@.len(),
    ensures
        match r {
            Err(report) => facts_error(*decision, *policy, selected@) matches Some(e)
                && report.texts() == (Some(deferred(e)), None::<Seq<char>>),
            Ok(None) => !(decision is NeedsUpdate) && !(decision is RequiredFailed),
            Ok(Some(ask)) => {
                &&& facts_error(*decision, *policy, selected@) is None
                &&& match *decision {
                    StewardDecision::NeedsUpdate { merge_state } => ask.failure_summary@
                        == "pull request requires an exact-head update"@ && fact_views(
                        ask.failure_facts@,
                    ) == seq![FactView::MergeState(upper(merge_state@))],
                    StewardDecision::RequiredFailed { contexts } => tells_failure(
                        (ask.failure_summary, ask.failure_facts),
                        "one or more required checks failed"@,
                        required_facts(contexts@, policy.required_checks@, selected@)->Ok_0,
                    ),
                    _ => false,
                }
                &&& ask.failure_fingerprint@ == fingerprint(
                    seq![ask.failure_summary@] + Seq::new(
                        ask.failure_facts@.len(),
                        |i: int| fact_text(ask.failure_facts@[i]@),
                    ),
                )
                &&& ask.policy_signature@ == fingerprint(signed(*policy))
            },
        },
{
    match normalized_recovery_facts(decision, policy, selected) {
        Err(error) => Err(deferred_recovery_request(error.as_str())),
        Ok(None) => Ok(None),
        Ok(Some((summary, facts))) => {
            let fingerprint = failure_fingerprint(summary.as_str(), &facts);
            Ok(
                Some(
                    RecoveryAsk {
                        failure_summary: summary,
                        failure_facts: facts,
                        failure_fingerprint: fingerprint,
                        policy_signature: steward_policy_signature(policy),
                    },
                ),
            )
        },
    }
}

/// The failures that are recorded for the owner: the facts, each in one line.
pub fn failure_contexts(facts: &Vec<RecoveryFailureFact>) -> (r: Vec<String>)
    ensures
        views(r@) == Seq::new(facts@.len(), |i: int| fact_text(facts@[i]@)),
{
    let mut out: Vec<String> = Vec::new();
    let mut i: usize = 0;
    while i < facts.len()
        invariant
            i <= facts.len(),
            out@.len() == i,
            forall|k: int| 0 <= k < i ==> (#[trigger] out@[k])@ == fact_text(facts@[k]@),
        decreases facts.len() - i,
    {
        out.push(failure_fact_component(&facts[i]));
        i = i + 1;
    }
    proof {
        assert(views(out@) =~= Seq::new(facts@.len(), |i: int| fact_text(facts@[i]@)));
    }
    out
}

/// Why an agent is needed, as a status says it.
pub open spec fn agent_reason(decision: StewardDecision) -> Option<Seq<char>> {
    match decision {
        StewardDecision::NeedsUpdate { merge_state } => Some(
            "Needs agent: merge "@ + merge_state@,
        ),
        StewardDecision::RequiredFailed { contexts } => Some(
            first_chars(
                "Needs agent: "@ + separated(views(contexts@), ", "@),
                DESCRIPTION_CHARS as nat,
            ),
        ),
        _ => None,
    }
}

/// Why an agent is needed, as a status says it.
pub fn signal_needs_agent(decision: &StewardDecision) -> (r: Result<String, String>)
    ensures
        match agent_reason(*decision) {
            Some(reason) => r matches Ok(text) && text@ == reason,
            None => r matches Err(e) && e@
                == "recovery signal requested for a non-blocking decision"@,
        },
{
    match decision {
        StewardDecision::NeedsUpdate { merge_state } => Ok(
            concat("Needs agent: merge ", merge_state.as_str()),
        ),
        StewardDecision::RequiredFailed { contexts } => {
            let text = concat("Needs agent: ", join(contexts, ", ").as_str());
            Ok(truncate_description(text.as_str()))
        },
        _ => Err("recovery signal requested for a non-blocking decision".to_owned()),
    }
}

/// What is written to signal or to clear, in its order.
#[derive(Clone, Copy, Debug, PartialEq, Eq, Structural)]
pub enum SignalStage {
    /// Write the status.
    Status,
    /// See that the pull request is still open with its head.
    Verify,
    /// See that the label exists.
    Ensure,
    /// Add or remove the label.
    Label,
}

/// What comes of a step of it.
#[derive(Debug)]
pub enum SignalStep {
    Next(SignalStage),
    Written,
    Failed(String),
}

/// What comes after a step: the label is made sure of only where it is added.
pub fn clear_needs_agent(needs_agent: bool, stage: SignalStage, reply: StepReply) -> (r: SignalStep)
    ensures
        match reply {
            StepReply::Failed(e) => r matches SignalStep::Failed(text) && text@ == if stage
                == SignalStage::Status {
                "could not write recovery status: "@ + e@
            } else if stage == SignalStage::Verify {
                "recovery target changed before label mutation: "@ + e@
            } else {
                e@
            },
            StepReply::Done => match stage {
                SignalStage::Status => r == SignalStep::Next(SignalStage::Verify),
                SignalStage::Verify => r == SignalStep::Next(
                    if needs_agent {
                        SignalStage::Ensure
                    } else {
                        SignalStage::Label
                    },
                ),
                SignalStage::Ensure => r == SignalStep::Next(SignalStage::Label),
                SignalStage::Label => r is Written,
            },
        },
{
    match reply {
        StepReply::Failed(error) => match stage {
            SignalStage::Status => SignalStep::Failed(
                concat("could not write recovery status: ", error.as_str()),
            ),
            SignalStage::Verify => SignalStep::Failed(
                concat("recovery target changed before label mutation: ", error.as_str()),
            ),
            _ => SignalStep::Failed(error),
        },
        StepReply::Done => match stage {
            SignalStage::Status => SignalStep::Next(SignalStage::Verify),
            SignalStage::Verify => SignalStep::Next(
                if needs_agent {
                    SignalStage::Ensure
                } else {
                    SignalStage::Label
                },
            ),
            SignalStage::Ensure => SignalStep::Next(SignalStage::Label),
            SignalStage::Label => SignalStep::Written,
        },
    }
}

/// The arguments that write the recovery status.
pub open spec fn status_args(
    repo: Seq<char>,
    number: u64,
    head: Seq<char>,
    state: Seq<char>,
    description: Seq<char>,
) -> Seq<Seq<char>> {
    seq![
        "api"@,
        "-X"@,
        "POST"@,
        "repos/"@ + repo + "/statuses/"@ + head,
        "-f"@,
        "state="@ + state,
        "-f"@,
        "context="@ + RECOVERY_CONTEXT@,
        "-f"@,
        "description="@ + first_chars(description, DESCRIPTION_CHARS as nat),
        "-f"@,
        "target_url=https://github.com/"@ + repo + "/pull/"@ + decimal(number as nat),
    ]
}

/// The arguments that write the recovery status.
pub fn write_recovery_status(repo: &str, pr: &ObservedPr, state: &str, description: &str) -> (r:
    Vec<String>)
    ensures
        views(r@) == status_args(
            repo@,
            pr.fact.number,
            pr.fact.head_sha@,
            state@,
            description@,
        ),
{
    let mut out: Vec<String> = Vec::new();
    out.push("api".to_owned());
    out.push("-X".to_owned());
    out.push("POST".to_owned());
    out.push(concat4("repos/", repo, "/statuses/", pr.fact.head_sha.as_str()));
    out.push("-f".to_owned());
    out.push(concat("state=", state));
    out.push("-f".to_owned());
    out.push(concat("context=", RECOVERY_CONTEXT));
    out.push("-f".to_owned());
    out.push(concat("description=", truncate_description(description).as_str()));
    out.push("-f".to_owned());
    out.push(
        concat4(
            "target_url=https://github.com/",
            repo,
            "/pull/",
            to_decimal(pr.fact.number).as_str(),
        ),
    );
    proof {
        assert(views(out@) =~= status_args(
            repo@,
            pr.fact.number,
            pr.fact.head_sha@,
            state@,
            description@,
        ));
    }
    out
}

proof fn change_names_differ(a: LabelChange, b: LabelChange)
    ensures
        a.action() == b.action() ==> a == b,
{
    reveal_strlit("unmanaged_label_added");
    reveal_strlit("unmanaged_label_cleared");
    reveal_strlit("needs_agent_signaled");
    reveal_strlit("needs_agent_cleared");
    assert("unmanaged_label_added"@.len() == 21);
    assert("unmanaged_label_cleared"@.len() == 23);
    assert("needs_agent_signaled"@.len() == 20);
    assert("needs_agent_cleared"@.len() == 19);
}

/// A change of a label is told as made, under its own name, exactly once it was
/// written and the guard was to be finished, and what fails is told; it is written
/// only under the guard.
pub proof fn a_label_change_is_told_once_written(
    change: LabelChange,
    other: LabelChange,
    stage: LabelStage,
    reply: StepReply,
)
    ensures
        ends_as(label_flow(change, stage, reply), other.action()) <==> stage == LabelStage::Finish
            && other == change,
        ends_well(label_flow(change, stage, reply)) <==> stage == LabelStage::Finish && reply
            is Done,
        reply matches StepReply::Failed(error) ==> ends_with_error(
            label_flow(change, stage, reply),
            error@,
        ),
        label_flow(change, stage, reply) == FlowView::Next(LabelStage::Write) <==> stage
            == LabelStage::Acquire && reply is Done,
        label_flow(change, stage, reply) == FlowView::Next(LabelStage::Finish) <==> stage
            == LabelStage::Write && reply is Done,
        label_flow(change, stage, reply) != FlowView::Next(LabelStage::Acquire),
{
    change_names_differ(change, other);
    if let StepReply::Failed(error) = reply {
        ends_with_its_end(change.unrecorded(), error@);
    }
}

/// A recovery is told as asked for, or a failure as recorded, only after the failure
/// was recorded for its owner; what fails up to there is told as an error that ends
/// with it, and what fails after is told as put off, without an error.
pub proof fn publishing_tells_what_it_did(
    decision: StewardDecision,
    policy: StewardPolicy,
    stage: PublishStage,
    reply: PublishReply,
)
    ensures
        ({
            let flow = publish_flow(decision, policy, stage, reply);
            let recorded = stage == PublishStage::Enabled || stage == PublishStage::Enqueue;
            &&& reply matches PublishReply::Failed(error) ==> if recorded {
                ends_well(flow) && ends_as(flow, deferred(error@))
            } else {
                ends_with_error(flow, error@)
            }
            &&& recorded && !(flow is Next) ==> ends_well(flow)
            &&& stage == PublishStage::Enqueue ==> (reply matches PublishReply::Requested(asked)
                ==> match asked {
                Some(id) => ends_well(flow) && (exists|label: Seq<char>|
                    ends_as(flow, label) && #[trigger] has_suffix(label, id@)),
                None => flow == FlowView::<PublishStage>::Report((None, None)),
            })
            &&& stage == PublishStage::Enabled && reply == PublishReply::Enabled(true) ==> flow
                == FlowView::Next(PublishStage::Enqueue)
            &&& stage == PublishStage::Enabled && reply == PublishReply::Enabled(false)
                ==> ends_well(flow)
            &&& stage == PublishStage::Persist && reply is Done ==> flow == FlowView::Next(
                PublishStage::Enabled,
            )
            &&& stage == PublishStage::Lease && reply is Done ==> flow == FlowView::Next(
                PublishStage::Revalidate,
            )
        }),
{
    if let PublishReply::Failed(error) = reply {
        ends_with_its_end("mandatory terminal handoff publication lease failed: "@, error@);
        ends_with_its_end("mandatory terminal handoff live revalidation failed: "@, error@);
    }
    if let PublishReply::Requested(Some(id)) = reply {
        let label = "recovery_request_created:"@ + id@;
        ends_with_its_end("recovery_request_created:"@, id@);
        if stage == PublishStage::Enqueue {
            assert(ends_as(publish_flow(decision, policy, stage, reply), label) && has_suffix(
                label,
                id@,
            ));
        }
    }
}

/// A pull request that was read again is published exactly where its signal still says
/// that an agent is needed and the facts of the decision are clear; unclear facts are
/// told as an error, and a signal that changed is told without one.
pub proof fn only_a_signalled_failure_is_published(
    decision: StewardDecision,
    policy: StewardPolicy,
    pr: ObservedPr,
    selected: Vec<Option<StewardCheck>>,
)
    ensures
        ({
            let flow = publish_flow(
                decision,
                policy,
                PublishStage::Revalidate,
                PublishReply::Live { pr, selected },
            );
            &&& flow == FlowView::Next(PublishStage::Persist) <==> signal_converged(pr, true)
                && facts_error(decision, policy, selected@) is None
            &&& ends_well(flow) <==> !signal_converged(pr, true)
            &&& signal_converged(pr, true) ==> (facts_error(decision, policy, selected@)
                matches Some(error) ==> ends_with_error(flow, error))
        }),
{
    if let Some(error) = facts_error(decision, policy, selected@) {
        ends_with_its_end(""@, error);
    }
}

/// A pull request is taken out of recovery only under the lease and after it was read
/// again; what fails is told, and a pull request that changed meanwhile is told as
/// that.
pub proof fn exclusion_needs_lease_and_read(stage: ExcludeStage, reply: ExcludeReply)
    ensures
        exclude_flow(stage, reply) == FlowView::Next(ExcludeStage::Fence) && stage
            != ExcludeStage::Fence <==> stage == ExcludeStage::Revalidate && reply is Done,
        exclude_flow(stage, reply) == FlowView::Next(ExcludeStage::Revalidate) && stage
            != ExcludeStage::Revalidate <==> stage == ExcludeStage::Lease && reply is Done,
        exclude_flow(stage, reply) == FlowView::<ExcludeStage>::Report((None, None)) && !(reply
            is Changed) <==> stage == ExcludeStage::Fence && reply is Done,
        reply matches ExcludeReply::Failed(error) ==> ends_with_error(
            exclude_flow(stage, reply),
            error@,
        ),
        stage == ExcludeStage::Revalidate ==> (reply matches ExcludeReply::Changed(report)
            ==> exclude_flow(stage, reply) == FlowView::<ExcludeStage>::Report(report.texts())),
{
    if let ExcludeReply::Failed(error) = reply {
        ends_with_its_end(""@, error@);
    }
}

/// A reason for an agent is given for exactly the decisions that block a pull request.
pub proof fn only_blocked_pull_requests_have_a_reason(decision: StewardDecision)
    ensures
        agent_reason(decision) is Some <==> blocks(decision),
        need_of(decision) == RecoveryNeed::Signal <==> blocks(decision),
        need_of(decision) == RecoveryNeed::Exclude <==> hands_off(decision),
{
}

/// Of two reports nothing is lost: the first one begins and the second one ends what is
/// told.
pub proof fn both_reports_are_told(a: Option<Seq<char>>, b: Option<Seq<char>>)
    ensures
        both_reported(a, b) is None <==> a is None && b is None,
        b matches Some(text) ==> (both_reported(a, b) matches Some(told) && has_suffix(told, text)),
        a matches Some(text) ==> (both_reported(a, b) matches Some(told) && has_prefix(told, text)),
{
    if let Some(x) = a {
        assert(x.take(x.len() as int) =~= x);
        if let Some(y) = b {
            ends_with_its_end(x + ";"@, y);
            assert((x + ";"@ + y).take(x.len() as int) =~= x);
        }
    }
    if let Some(y) = b {
        assert(y.skip(0) =~= y);
    }
}

/// A pull request counts as unmanaged exactly where the decision declines it.
pub proof fn a_declined_pull_request_is_unmanaged(decision: StewardDecision)
    ensures
        is_unmanaged(decision) <==> decision is Unmanaged || decision is HandoffMissing,
        is_unmanaged(decision) ==> !(decision is Queued) && !(decision is ArmMergeQueue)
            && !(decision is RerunTransient),
{
}

} // verus!
