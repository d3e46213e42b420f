//! Taking up the cancellations that an earlier pass left pending.
use vstd::prelude::*;

use crate::capacity::{audited_once, evidence_entry, record_removed, unchanged, NonTerminalRun};
use crate::force::{begin_force_cancel, clear_unsaved, record_gone, ForceOrigin, ForceRun};
use crate::guard::{
    ends_as, ends_well, ends_with_error, ends_with_its_end, failing, reports_done, reports_failed,
    Closing, Flow, FlowView,
};
use crate::ledger::{
    capacity_subject, pending_updated, persist_pending_mutation_correlation, AuditTexts,
    PendingCancellation, PendingCancellationPhase, PendingMutationKind, PendingTexts,
    StewardLedger,
};
use crate::model::{MutationReport, RunCancellationReason};
use crate::pending::{
    audit_capacity_run, clear_pending_cancellation, finish_clear, mark_cancellation_skipped,
    mark_recovery_accepted, pending_cancellation_reason, phase_marked, runner_targets,
};
use crate::text::{concat, concat3, concat4, concat5, decimal, opt_view, to_decimal};

verus! {

/// Why a pending record is removed.
#[derive(Clone, Copy, Debug, PartialEq, Eq, Structural)]
pub enum ClearReason {
    /// Its cancellation had been skipped.
    Skipped,
    /// Its run has ended.
    Terminal,
    /// Its run ended after the cancellation.
    NormalTerminal,
    /// Its run no longer qualifies.
    Rejected,
    /// Its run no longer qualified right before the request.
    FinalSkip,
}

impl ClearReason {
    /// The audited action.
    pub open spec fn action(self) -> Seq<char> {
        match self {
            ClearReason::Skipped => "pending_skipped_cancellation_cleared"@,
            ClearReason::Terminal => "pending_cancellation_observed_terminal"@,
            ClearReason::NormalTerminal => "pending_normal_cancel_terminalized"@,
            ClearReason::Rejected => "pending_intent_skipped_after_revalidation"@,
            ClearReason::FinalSkip => "pending_intent_skipped_after_recovery_final_revalidation"@,
        }
    }

    /// What is reported.
    pub open spec fn outcome(self) -> Seq<char> {
        match self {
            ClearReason::Terminal => "recovered_terminal"@,
            ClearReason::NormalTerminal => "recovered_normal_cancel_terminal"@,
            _ => "recovered_skipped_cancellation"@,
        }
    }

    fn action_text(self) -> (r: &'static str)
        ensures
            r@ == self.action(),
    {
        match self {
            ClearReason::Skipped => "pending_skipped_cancellation_cleared",
            ClearReason::Terminal => "pending_cancellation_observed_terminal",
            ClearReason::NormalTerminal => "pending_normal_cancel_terminalized",
            ClearReason::Rejected => "pending_intent_skipped_after_revalidation",
            ClearReason::FinalSkip => "pending_intent_skipped_after_recovery_final_revalidation",
        }
    }

    fn outcome_text(self) -> (r: &'static str)
        ensures
            r@ == self.outcome(),
    {
        match self {
            ClearReason::Terminal => "recovered_terminal",
            ClearReason::NormalTerminal => "recovered_normal_cancel_terminal",
            _ => "recovered_skipped_cancellation",
        }
    }
}

/// What follows once an uncertain request was resolved.
#[derive(Clone, Copy, Debug, PartialEq, Eq, Structural)]
pub enum AfterSupersede {
    /// The record is removed.
    Clear(ClearReason),
    /// The run is watched.
    Wait,
    /// The cancellation is sent anew.
    Retry,
}

/// What a recovery does next.
#[derive(Clone, Copy, Debug, PartialEq, Eq, Structural)]
pub enum ResumeStage {
    /// Read the run.
    Read,
    /// Resolve the request, where it is uncertain.
    Supersede(AfterSupersede),
    /// Save that the record was removed.
    SaveCleared(ClearReason),
    /// Wait for the run to end.
    WaitNormal,
    /// Cancel the run by force.
    Force,
    /// Find out whether the request is uncertain.
    Uncertainty,
    /// Read the repository.
    Observe,
    /// Hold the run against the rules again.
    Revalidate,
    /// Save that the cancellation is skipped.
    SaveRejected,
    /// Save what was read.
    SaveEvidence,
    /// Make a new request.
    NewIntent,
    /// Save the new request.
    SaveCorrelation,
    /// Take the guard.
    Acquire,
    /// Hold the run against the rules right before the request.
    Final,
    /// Save that the cancellation is skipped after all.
    SaveFinalSkip,
    /// Finish the guard of the skipped cancellation.
    FinishFinalSkip,
    /// Send the cancellation.
    Cancel,
    /// Save that it was accepted.
    SaveAccepted,
    /// Finish the guard of the accepted cancellation.
    FinishAccepted,
}

/// A recovery under way.
#[derive(Debug)]
pub struct ResumeRun {
    pub repo: String,
    pub run_id: u64,
    pub key: String,
    pub reason: String,
    pub correlation_id: String,
    pub phase: PendingCancellationPhase,
    pub was_uncertain: bool,
    /// The record that was removed and is being saved without.
    pub cleared: Option<PendingCancellation>,
}

/// What came of a step.
#[derive(Debug)]
pub enum ResumeReply {
    Done,
    Failed(String),
    /// The run has ended.
    Ended,
    /// The run has not ended.
    Running,
    /// Whether the request is uncertain.
    Uncertain(bool),
    /// Whether the run is among the observed ones.
    Observed(bool),
    /// The run still qualifies; what was read, as text.
    Qualified { evidence: String },
    /// The run no longer qualifies.
    Disqualified,
    /// A new request.
    Intent(String),
}

/// The first step of a recovery.
pub open spec fn first_resume_stage(phase: PendingCancellationPhase) -> ResumeStage {
    if phase == PendingCancellationPhase::Skipped {
        ResumeStage::Supersede(AfterSupersede::Clear(ClearReason::Skipped))
    } else {
        ResumeStage::Read
    }
}

/// Whether a text names a reason for which a pending record can be taken up.
pub open spec fn resumable_reason(text: Seq<char>) -> Option<RunCancellationReason> {
    if text == "advisory_preamble_capacity_theft"@ {
        Some(RunCancellationReason::AdvisoryPreambleCapacityTheft)
    } else if text == "lower_priority_branch_preamble"@ {
        Some(RunCancellationReason::LowerPriorityBranchPreamble)
    } else {
        None
    }
}

/// Why an intent that no longer qualifies is kept.
pub open spec fn kept_uncertain(run: ResumeRun) -> Seq<char> {
    "cancellation intent for run "@ + decimal(run.run_id as nat)
        + " no longer passes capacity-safety revalidation, but mutation "@ + run.correlation_id@
        + " is uncertain; preserving pending state until terminal proof"@
}

/// The step that removes the record, or why it cannot be removed.
pub open spec fn clears(run: ResumeRun, why: ClearReason, keyed: bool) -> FlowView<ResumeStage> {
    if keyed {
        FlowView::Next(ResumeStage::SaveCleared(why))
    } else {
        reports_failed(record_gone(run.run_id))
    }
}

/// What a recovery does after a reply. A reply that belongs to another stage
/// changes nothing.
pub open spec fn resume_flow(
    run: ResumeRun,
    stage: ResumeStage,
    reply: ResumeReply,
    ledger: StewardLedger,
) -> FlowView<ResumeStage> {
    let keyed = ledger.pending_cancellations@.dom().contains(run.key@);
    let gone = "pending cancellation intent disappeared"@;
    let refreshed_gone = "refreshed cancellation intent disappeared"@;
    match (stage, reply) {
        (ResumeStage::Read, ResumeReply::Ended) => FlowView::Next(
            ResumeStage::Supersede(AfterSupersede::Clear(ClearReason::Terminal)),
        ),
        (ResumeStage::Read, ResumeReply::Running) => if run.phase
            == PendingCancellationPhase::Intent {
            FlowView::Next(ResumeStage::Uncertainty)
        } else {
            FlowView::Next(ResumeStage::Supersede(AfterSupersede::Wait))
        },
        (ResumeStage::Supersede(AfterSupersede::Clear(why)), ResumeReply::Done) => clears(
            run,
            why,
            keyed,
        ),
        (ResumeStage::Supersede(AfterSupersede::Wait), ResumeReply::Done) => FlowView::Next(
            ResumeStage::WaitNormal,
        ),
        (ResumeStage::Supersede(AfterSupersede::Retry), ResumeReply::Done) => FlowView::Next(
            ResumeStage::NewIntent,
        ),
        (ResumeStage::SaveCleared(why), ResumeReply::Done) => reports_done(why.outcome()),
        (ResumeStage::SaveCleared(_), ResumeReply::Failed(e)) => reports_failed(clear_unsaved(e@)),
        (ResumeStage::WaitNormal, ResumeReply::Ended) => clears(
            run,
            ClearReason::NormalTerminal,
            keyed,
        ),
        (ResumeStage::WaitNormal, ResumeReply::Running) => FlowView::Next(ResumeStage::Force),
        (ResumeStage::Uncertainty, ResumeReply::Uncertain(_)) => FlowView::Next(
            ResumeStage::Observe,
        ),
        (ResumeStage::Observe, ResumeReply::Observed(found)) => if !found {
            reports_failed(
                "pending cancellation run "@ + decimal(run.run_id as nat)
                    + " disappeared from active observations"@,
            )
        } else if resumable_reason(run.reason@) is None {
            reports_failed("unsupported pending cancellation reason `"@ + run.reason@ + "`"@)
        } else {
            FlowView::Next(ResumeStage::Revalidate)
        },
        (ResumeStage::Revalidate, ResumeReply::Qualified { .. }) => FlowView::Next(
            ResumeStage::SaveEvidence,
        ),
        (ResumeStage::Revalidate, ResumeReply::Disqualified) => if run.was_uncertain {
            reports_failed(kept_uncertain(run))
        } else if keyed {
            FlowView::Next(ResumeStage::SaveRejected)
        } else {
            reports_failed(gone)
        },
        (ResumeStage::SaveRejected, ResumeReply::Done) => FlowView::Next(
            ResumeStage::Supersede(AfterSupersede::Clear(ClearReason::Rejected)),
        ),
        (ResumeStage::SaveEvidence, ResumeReply::Done) => if run.was_uncertain {
            FlowView::Next(ResumeStage::Supersede(AfterSupersede::Retry))
        } else {
            FlowView::Next(ResumeStage::NewIntent)
        },
        (ResumeStage::SaveEvidence, ResumeReply::Failed(e)) => reports_failed(
            "could not persist final preemption evidence: "@ + e@,
        ),
        (ResumeStage::NewIntent, ResumeReply::Intent(_)) => if keyed {
            FlowView::Next(ResumeStage::SaveCorrelation)
        } else {
            reports_failed("pending cancellation record disappeared"@)
        },
        (ResumeStage::SaveCorrelation, ResumeReply::Done) => FlowView::Next(ResumeStage::Acquire),
        (ResumeStage::SaveCorrelation, ResumeReply::Failed(e)) => reports_failed(
            "could not persist pending mutation correlation: "@ + e@,
        ),
        (ResumeStage::Acquire, ResumeReply::Done) => if resumable_reason(run.reason@) == Some(
            RunCancellationReason::AdvisoryPreambleCapacityTheft,
        ) {
            FlowView::Next(ResumeStage::Final)
        } else if keyed {
            FlowView::Next(ResumeStage::SaveFinalSkip)
        } else {
            reports_failed(refreshed_gone)
        },
        (ResumeStage::Final, ResumeReply::Qualified { .. }) => FlowView::Next(
            ResumeStage::Cancel,
        ),
        (ResumeStage::Final, ResumeReply::Disqualified) => if keyed {
            FlowView::Next(ResumeStage::SaveFinalSkip)
        } else {
            reports_failed(refreshed_gone)
        },
        (ResumeStage::Final, ResumeReply::Failed(e)) => FlowView::Close(
            failing("recovery_final_revalidation_failed"@, e@),
        ),
        (ResumeStage::SaveFinalSkip, ResumeReply::Done) => FlowView::Next(
            ResumeStage::FinishFinalSkip,
        ),
        (ResumeStage::FinishFinalSkip, ResumeReply::Done) => clears(
            run,
            ClearReason::FinalSkip,
            keyed,
        ),
        (ResumeStage::FinishFinalSkip, ResumeReply::Failed(e)) => reports_failed(
            "mutation audit failed: "@ + e@,
        ),
        (ResumeStage::Cancel, ResumeReply::Done) => if keyed {
            FlowView::Next(ResumeStage::SaveAccepted)
        } else {
            reports_failed(refreshed_gone)
        },
        (ResumeStage::Cancel, ResumeReply::Failed(e)) => reports_failed(
            "exact normal cancellation retry failed: "@ + e@,
        ),
        (ResumeStage::SaveAccepted, ResumeReply::Done) => FlowView::Next(
            ResumeStage::FinishAccepted,
        ),
        (ResumeStage::SaveAccepted, ResumeReply::Failed(e)) => reports_failed(
            "normal cancellation retry accepted but pending phase persistence failed: "@ + e@,
        ),
        (ResumeStage::FinishAccepted, ResumeReply::Done) => if keyed {
            FlowView::Next(ResumeStage::Read)
        } else {
            reports_failed("accepted cancellation recovery record disappeared"@)
        },
        (ResumeStage::FinishAccepted, ResumeReply::Failed(e)) => reports_failed(
            "normal cancellation retry audit failed: "@ + e@,
        ),
        // Every other step fails as it is.
        (ResumeStage::Force, _) => FlowView::Next(stage),
        (_, ResumeReply::Failed(e)) => reports_failed(e@),
        _ => FlowView::Next(stage),
    }
}

/// The reason for which a reply has the record removed.
pub open spec fn clearing(stage: ResumeStage, reply: ResumeReply) -> Option<ClearReason> {
    match (stage, reply) {
        (ResumeStage::Supersede(AfterSupersede::Clear(why)), ResumeReply::Done) => Some(why),
        (ResumeStage::WaitNormal, ResumeReply::Ended) => Some(ClearReason::NormalTerminal),
        (ResumeStage::FinishFinalSkip, ResumeReply::Done) => Some(ClearReason::FinalSkip),
        _ => None,
    }
}

/// Whether a reply has the cancellation marked as skipped.
pub open spec fn skips(run: ResumeRun, stage: ResumeStage, reply: ResumeReply) -> bool {
    match (stage, reply) {
        (ResumeStage::Revalidate, ResumeReply::Disqualified) => !run.was_uncertain,
        (ResumeStage::Final, ResumeReply::Disqualified) => true,
        (ResumeStage::Acquire, ResumeReply::Done) => resumable_reason(run.reason@) != Some(
            RunCancellationReason::AdvisoryPreambleCapacityTheft,
        ),
        _ => false,
    }
}

/// What a reply does to the ledger.
pub open spec fn resume_ledger(
    run: ResumeRun,
    stage: ResumeStage,
    reply: ResumeReply,
    at: Seq<char>,
    before: StewardLedger,
    after: StewardLedger,
    run_after: ResumeRun,
) -> bool {
    let pending = before.pending_cancellations@;
    let keyed = pending.dom().contains(run.key@);
    if clearing(stage, reply) is Some {
        if keyed {
            run_after.cleared == Some(pending[run.key@]) && record_removed(
                before,
                after,
                run.key@,
                run.repo@,
                run.run_id,
                clearing(stage, reply)->Some_0.action(),
                at,
            )
        } else {
            unchanged(before, after)
        }
    } else if skips(run, stage, reply) {
        if keyed {
            phase_marked(
                before,
                after,
                run.key@,
                PendingCancellationPhase::Skipped,
                at,
                pending[run.key@].repo@,
                pending[run.key@].run_id,
                "capacity_preemption_skipped_before_mutation"@,
            )
        } else {
            after == before
        }
    } else {
        match (stage, reply) {
            (ResumeStage::Revalidate, ResumeReply::Qualified { evidence }) => audited_once(
                before,
                after,
                evidence_entry(run.repo@, run.run_id, evidence@, at),
            ),
            (ResumeStage::NewIntent, ResumeReply::Intent(id)) => if keyed {
                pending_updated(
                    before,
                    after,
                    run.key@,
                    PendingTexts {
                        mutation_correlation_id: id@,
                        mutation_kind: PendingMutationKind::NormalCancel,
                        ..pending[run.key@]@
                    },
                    at,
                    "pending_normal_cancel_retry_intent"@,
                )
            } else {
                after == before
            },
            (ResumeStage::Cancel, ResumeReply::Done) => if keyed {
                phase_marked(
                    before,
                    after,
                    run.key@,
                    PendingCancellationPhase::Accepted,
                    at,
                    run.repo@,
                    run.run_id,
                    "capacity_preemption_pending_after_recovery_acceptance"@,
                )
            } else {
                after == before
            },
            (ResumeStage::SaveCleared(_), ResumeReply::Failed(_)) => match run.cleared {
                Some(record) => after.same_but_pending(before)
                    && after.pending_cancellations@ == pending.insert(run.key@, record)
                    && after.audits() == before.audits(),
                None => after == before,
            },
            _ => after == before,
        }
    }
}

/// What a reply does to the notes of a recovery.
pub open spec fn resume_notes(
    run: ResumeRun,
    stage: ResumeStage,
    reply: ResumeReply,
    ledger: StewardLedger,
    after: ResumeRun,
) -> bool {
    &&& after.repo == run.repo
    &&& after.run_id == run.run_id
    &&& after.key == run.key
    &&& after.reason == run.reason
    &&& after.was_uncertain == match (stage, reply) {
        (ResumeStage::Uncertainty, ResumeReply::Uncertain(uncertain)) => uncertain,
        _ => run.was_uncertain,
    }
    &&& match (stage, reply) {
        (ResumeStage::FinishAccepted, ResumeReply::Done) => if ledger.pending_cancellations@.dom().contains(
        run.key@) {
            after.phase == ledger.pending_cancellations@[run.key@].phase
                && after.correlation_id@
                == ledger.pending_cancellations@[run.key@].mutation_correlation_id@
        } else {
            after.phase == run.phase && after.correlation_id@ == run.correlation_id@
        },
        _ => after.phase == run.phase && after.correlation_id@ == run.correlation_id@,
    }
}

/// Begins the recovery of a pending record.
pub fn begin_resume(key: &str, pending: &PendingCancellation) -> (r: (ResumeRun, ResumeStage))
    ensures
        r.0.repo@ == pending.repo@,
        r.0.run_id == pending.run_id,
        r.0.key@ == key@,
        r.0.reason@ == pending.reason@,
        r.0.correlation_id@ == pending.mutation_correlation_id@,
        r.0.phase == pending.phase,
        !r.0.was_uncertain,
        r.0.cleared is None,
        r.1 == first_resume_stage(pending.phase),
{
    let run = ResumeRun {
        repo: pending.repo.clone(),
        run_id: pending.run_id,
        key: key.to_owned(),
        reason: pending.reason.clone(),
        correlation_id: pending.mutation_correlation_id.clone(),
        phase: pending.phase,
        was_uncertain: false,
        cleared: None,
    };
    if pending.phase == PendingCancellationPhase::Skipped {
        (run, ResumeStage::Supersede(AfterSupersede::Clear(ClearReason::Skipped)))
    } else {
        (run, ResumeStage::Read)
    }
}

fn clear(run: &mut ResumeRun, why: ClearReason, ledger: &mut StewardLedger, at: &str) -> (r: Flow<
    ResumeStage,
>)
    ensures
        r@ == clears(
            *old(run),
            why,
            old(ledger).pending_cancellations@.dom().contains(old(run).key@),
        ),
        if old(ledger).pending_cancellations@.dom().contains(old(run).key@) {
            final(run).cleared == Some(old(ledger).pending_cancellations@[old(run).key@])
                && record_removed(
                *old(ledger),
                *final(ledger),
                old(run).key@,
                old(run).repo@,
                old(run).run_id,
                why.action(),
                at@,
            )
        } else {
            unchanged(*old(ledger), *final(ledger))
        },
        resume_notes(*old(run), ResumeStage::Read, ResumeReply::Ended, *old(ledger), *final(run)),
{
    match clear_pending_cancellation(
        ledger,
        run.key.as_str(),
        run.repo.as_str(),
        run.run_id,
        why.action_text(),
        at,
    ) {
        Ok(record) => {
            run.cleared = Some(record);
            Flow::Next(ResumeStage::SaveCleared(why))
        },
        Err(error) => Flow::Report(MutationReport::failed(error)),
    }
}

/// Marks the cancellation as skipped after all.
pub fn skip_recovered_intent_after_final_revalidation(
    run: &ResumeRun,
    ledger: &mut StewardLedger,
    at: &str,
) -> (r: Flow<ResumeStage>)
    ensures
        r@ == if old(ledger).pending_cancellations@.dom().contains(run.key@) {
            FlowView::Next(ResumeStage::SaveFinalSkip)
        } else {
            reports_failed("refreshed cancellation intent disappeared"@)
        },
        if old(ledger).pending_cancellations@.dom().contains(run.key@) {
            phase_marked(
                *old(ledger),
                *final(ledger),
                run.key@,
                PendingCancellationPhase::Skipped,
                at@,
                old(ledger).pending_cancellations@[run.key@].repo@,
                old(ledger).pending_cancellations@[run.key@].run_id,
                "capacity_preemption_skipped_before_mutation"@,
            )
        } else {
            *final(ledger) == *old(ledger)
        },
{
    match mark_cancellation_skipped(ledger, run.key.as_str(), at) {
        Ok(_) => Flow::Next(ResumeStage::SaveFinalSkip),
        Err(_) => Flow::Report(
            MutationReport::failed("refreshed cancellation intent disappeared".to_owned()),
        ),
    }
}

/// What becomes of an intent whose run no longer qualifies: it is skipped, unless
/// its request may have been carried out.
pub fn resolve_rejected_pending_intent(
    run: &ResumeRun,
    ledger: &mut StewardLedger,
    at: &str,
) -> (r: Flow<ResumeStage>)
    ensures
        r@ == resume_flow(
            *run,
            ResumeStage::Revalidate,
            ResumeReply::Disqualified,
            *old(ledger),
        ),
        resume_ledger(
            *run,
            ResumeStage::Revalidate,
            ResumeReply::Disqualified,
            at@,
            *old(ledger),
            *final(ledger),
            *run,
        ),
{
    if run.was_uncertain {
        return Flow::Report(
            MutationReport::failed(
                concat5(
                    "cancellation intent for run ",
                    to_decimal(run.run_id).as_str(),
                    " no longer passes capacity-safety revalidation, but mutation ",
                    run.correlation_id.as_str(),
                    " is uncertain; preserving pending state until terminal proof",
                ),
            ),
        );
    }
    match mark_cancellation_skipped(ledger, run.key.as_str(), at) {
        Ok(_) => Flow::Next(ResumeStage::SaveRejected),
        Err(error) => Flow::Report(MutationReport::failed(error)),
    }
}

/// Takes one step of the recovery of an intent whose request was not accepted
/// yet.
pub fn resume_pending_intent(
    run: &mut ResumeRun,
    stage: ResumeStage,
    reply: ResumeReply,
    ledger: &mut StewardLedger,
    at: &str,
) -> (r: Flow<ResumeStage>)
    requires
        stage is Observe || stage is Revalidate || stage is NewIntent || stage is Acquire || stage
            is Final || stage is Cancel || stage is FinishAccepted,
    ensures
        r@ == resume_flow(*old(run), stage, reply, *old(ledger)),
        resume_ledger(*old(run), stage, reply, at@, *old(ledger), *final(ledger), *final(run)),
        resume_notes(*old(run), stage, reply, *old(ledger), *final(run)),
{
    match (stage, reply) {
        (ResumeStage::Observe, ResumeReply::Observed(found)) => {
            if !found {
                return Flow::Report(
                    MutationReport::failed(
                        concat3(
                            "pending cancellation run ",
                            to_decimal(run.run_id).as_str(),
                            " disappeared from active observations",
                        ),
                    ),
                );
            }
            match pending_cancellation_reason(run.reason.as_str()) {
                Ok(_) => Flow::Next(ResumeStage::Revalidate),
                Err(error) => Flow::Report(MutationReport::failed(error)),
            }
        },
        (ResumeStage::Revalidate, ResumeReply::Qualified { evidence }) => {
            crate::capacity::persist_capacity_evidence(
                ledger,
                run.repo.as_str(),
                run.run_id,
                evidence.as_str(),
                at,
            );
            Flow::Next(ResumeStage::SaveEvidence)
        },
        (ResumeStage::Revalidate, ResumeReply::Disqualified) => resolve_rejected_pending_intent(
            run,
            ledger,
            at,
        ),
        (ResumeStage::NewIntent, ResumeReply::Intent(id)) => {
            match persist_pending_mutation_correlation(
                ledger,
                run.key.as_str(),
                id.as_str(),
                PendingMutationKind::NormalCancel,
                at,
                "pending_normal_cancel_retry_intent",
            ) {
                Ok(_) => Flow::Next(ResumeStage::SaveCorrelation),
                Err(error) => Flow::Report(MutationReport::failed(error)),
            }
        },
        (ResumeStage::Acquire, ResumeReply::Done) => {
            match pending_cancellation_reason(run.reason.as_str()) {
                Ok(RunCancellationReason::AdvisoryPreambleCapacityTheft) => Flow::Next(
                    ResumeStage::Final,
                ),
                _ => skip_recovered_intent_after_final_revalidation(run, ledger, at),
            }
        },
        (ResumeStage::Final, ResumeReply::Qualified { .. }) => Flow::Next(ResumeStage::Cancel),
        (ResumeStage::Final, ResumeReply::Disqualified) => {
            skip_recovered_intent_after_final_revalidation(run, ledger, at)
        },
        (ResumeStage::Final, ResumeReply::Failed(error)) => {
            proof {
                reveal_strlit("");
                assert(""@ + error@ =~= error@);
            }
            Flow::Close(
                Closing::Fail {
                    outcome: "recovery_final_revalidation_failed",
                    mutation: None,
                    prefix: "",
                    error,
                },
            )
        },
        (ResumeStage::Cancel, ResumeReply::Done) => {
            match mark_recovery_accepted(
                ledger,
                run.key.as_str(),
                run.repo.as_str(),
                run.run_id,
                at,
            ) {
                Ok(_) => Flow::Next(ResumeStage::SaveAccepted),
                Err(error) => Flow::Report(MutationReport::failed(error)),
            }
        },
        (ResumeStage::Cancel, ResumeReply::Failed(error)) => Flow::Report(
            MutationReport::failed(
                concat("exact normal cancellation retry failed: ", error.as_str()),
            ),
        ),
        (ResumeStage::FinishAccepted, ResumeReply::Done) => finish_recovered_normal_cancel(
            run,
            ledger,
        ),
        (ResumeStage::FinishAccepted, ResumeReply::Failed(error)) => Flow::Report(
            MutationReport::failed(
                concat("normal cancellation retry audit failed: ", error.as_str()),
            ),
        ),
        (_, ResumeReply::Failed(error)) => Flow::Report(MutationReport::failed(error)),
        _ => Flow::Next(stage),
    }
}

/// Goes on with the record of a cancellation that was accepted after all.
pub fn finish_recovered_normal_cancel(run: &mut ResumeRun, ledger: &StewardLedger) -> (r: Flow<
    ResumeStage,
>)
    ensures
        r@ == resume_flow(
            *old(run),
            ResumeStage::FinishAccepted,
            ResumeReply::Done,
            *ledger,
        ),
        resume_notes(
            *old(run),
            ResumeStage::FinishAccepted,
            ResumeReply::Done,
            *ledger,
            *final(run),
        ),
        final(run).cleared == old(run).cleared,
{
    match ledger.pending_cancellations.get(run.key.as_str()) {
        Some(found) => {
            run.phase = found.phase;
            run.correlation_id = found.mutation_correlation_id.clone();
            Flow::Next(ResumeStage::Read)
        },
        None => Flow::Report(
            MutationReport::failed(
                "accepted cancellation recovery record disappeared".to_owned(),
            ),
        ),
    }
}

/// Removes the record of a cancellation that had been skipped.
pub fn clear_recovered_skipped_cancellation(
    run: &mut ResumeRun,
    ledger: &mut StewardLedger,
    at: &str,
) -> (r: Flow<ResumeStage>)
    ensures
        r@ == clears(
            *old(run),
            ClearReason::Skipped,
            old(ledger).pending_cancellations@.dom().contains(old(run).key@),
        ),
        if old(ledger).pending_cancellations@.dom().contains(old(run).key@) {
            final(run).cleared == Some(old(ledger).pending_cancellations@[old(run).key@])
                && record_removed(
                *old(ledger),
                *final(ledger),
                old(run).key@,
                old(run).repo@,
                old(run).run_id,
                ClearReason::Skipped.action(),
                at@,
            )
        } else {
            unchanged(*old(ledger), *final(ledger))
        },
        resume_notes(*old(run), ResumeStage::Read, ResumeReply::Ended, *old(ledger), *final(run)),
{
    clear(run, ClearReason::Skipped, ledger, at)
}

/// Goes on to cancel a run by force that did not end after its cancellation: what
/// still runs is audited, with the intent.
pub fn resume_force_cancel_after_normal_wait(
    run: &ResumeRun,
    active: &NonTerminalRun,
    ledger: &mut StewardLedger,
    at: &str,
) -> (r: ForceRun)
    ensures
        r.origin == ForceOrigin::Resumed,
        r.repo@ == run.repo@,
        r.run_id == run.run_id,
        r.key@ == run.key@,
        r.targets@ == runner_targets(active.jobs@),
        r.audit_error is None,
        r.cleared is None,
        audited_once(
            *old(ledger),
            *final(ledger),
            AuditTexts {
                at: at@,
                repo: run.repo@,
                subject: capacity_subject(run.run_id),
                action: "cancel_not_terminal:status="@ + active.status@ + ":targets="@
                    + runner_targets(active.jobs@) + ";force_cancel_intent"@,
            },
        ),
{
    begin_force_cancel(
        ForceOrigin::Resumed,
        run.repo.as_str(),
        run.run_id,
        run.key.as_str(),
        active.status.as_str(),
        &active.jobs,
        ledger,
        at,
    )
}

/// Takes one step of the recovery of a pending record.
pub fn resume_pending_cancellation(
    run: &mut ResumeRun,
    stage: ResumeStage,
    reply: ResumeReply,
    ledger: &mut StewardLedger,
    at: &str,
) -> (r: Flow<ResumeStage>)
    ensures
        r@ == resume_flow(*old(run), stage, reply, *old(ledger)),
        resume_ledger(*old(run), stage, reply, at@, *old(ledger), *final(ledger), *final(run)),
        resume_notes(*old(run), stage, reply, *old(ledger), *final(run)),
{
    match (stage, reply) {
        (ResumeStage::Read, ResumeReply::Ended) => Flow::Next(
            ResumeStage::Supersede(AfterSupersede::Clear(ClearReason::Terminal)),
        ),
        (ResumeStage::Read, ResumeReply::Running) => {
            if run.phase == PendingCancellationPhase::Intent {
                Flow::Next(ResumeStage::Uncertainty)
            } else {
                Flow::Next(ResumeStage::Supersede(AfterSupersede::Wait))
            }
        },
        (
            ResumeStage::Supersede(AfterSupersede::Clear(ClearReason::Skipped)),
            ResumeReply::Done,
        ) => clear_recovered_skipped_cancellation(run, ledger, at),
        (ResumeStage::Supersede(AfterSupersede::Clear(why)), ResumeReply::Done) => clear(
            run,
            why,
            ledger,
            at,
        ),
        (ResumeStage::Supersede(AfterSupersede::Wait), ResumeReply::Done) => Flow::Next(
            ResumeStage::WaitNormal,
        ),
        (ResumeStage::Supersede(AfterSupersede::Retry), ResumeReply::Done) => Flow::Next(
            ResumeStage::NewIntent,
        ),
        (ResumeStage::SaveCleared(why), ResumeReply::Done) => Flow::Report(
            MutationReport::done(why.outcome_text()),
        ),
        (ResumeStage::SaveCleared(_), ResumeReply::Failed(error)) => {
            let text = concat(
                "could not persist terminal pending-cancellation state: ",
                error.as_str(),
            );
            match run.cleared.take() {
                Some(record) => {
                    let _ = finish_clear(ledger, run.key.as_str(), record, Err(error));
                },
                None => {},
            }
            Flow::Report(MutationReport::failed(text))
        },
        (ResumeStage::WaitNormal, ResumeReply::Ended) => clear(
            run,
            ClearReason::NormalTerminal,
            ledger,
            at,
        ),
        (ResumeStage::WaitNormal, ResumeReply::Running) => Flow::Next(ResumeStage::Force),
        (ResumeStage::Uncertainty, ResumeReply::Uncertain(uncertain)) => {
            run.was_uncertain = uncertain;
            Flow::Next(ResumeStage::Observe)
        },
        (ResumeStage::SaveRejected, ResumeReply::Done) => Flow::Next(
            ResumeStage::Supersede(AfterSupersede::Clear(ClearReason::Rejected)),
        ),
        (ResumeStage::SaveEvidence, ResumeReply::Done) => {
            if run.was_uncertain {
                Flow::Next(ResumeStage::Supersede(AfterSupersede::Retry))
            } else {
                Flow::Next(ResumeStage::NewIntent)
            }
        },
        (ResumeStage::SaveEvidence, ResumeReply::Failed(error)) => Flow::Report(
            MutationReport::failed(
                concat("could not persist final preemption evidence: ", error.as_str()),
            ),
        ),
        (ResumeStage::SaveCorrelation, ResumeReply::Done) => Flow::Next(ResumeStage::Acquire),
        (ResumeStage::SaveCorrelation, ResumeReply::Failed(error)) => Flow::Report(
            MutationReport::failed(
                concat("could not persist pending mutation correlation: ", error.as_str()),
            ),
        ),
        (ResumeStage::SaveFinalSkip, ResumeReply::Done) => Flow::Next(
            ResumeStage::FinishFinalSkip,
        ),
        (ResumeStage::FinishFinalSkip, ResumeReply::Done) => clear(
            run,
            ClearReason::FinalSkip,
            ledger,
            at,
        ),
        (ResumeStage::FinishFinalSkip, ResumeReply::Failed(error)) => Flow::Report(
            MutationReport::failed(concat("mutation audit failed: ", error.as_str())),
        ),
        (ResumeStage::SaveAccepted, ResumeReply::Done) => Flow::Next(ResumeStage::FinishAccepted),
        (ResumeStage::SaveAccepted, ResumeReply::Failed(error)) => Flow::Report(
            MutationReport::failed(
                concat(
                    "normal cancellation retry accepted but pending phase persistence failed: ",
                    error.as_str(),
                ),
            ),
        ),
        (ResumeStage::Observe, reply) => resume_pending_intent(run, stage, reply, ledger, at),
        (ResumeStage::Revalidate, reply) => resume_pending_intent(run, stage, reply, ledger, at),
        (ResumeStage::NewIntent, reply) => resume_pending_intent(run, stage, reply, ledger, at),
        (ResumeStage::Acquire, reply) => resume_pending_intent(run, stage, reply, ledger, at),
        (ResumeStage::Final, reply) => resume_pending_intent(run, stage, reply, ledger, at),
        (ResumeStage::Cancel, reply) => resume_pending_intent(run, stage, reply, ledger, at),
        (ResumeStage::FinishAccepted, reply) => resume_pending_intent(
            run,
            stage,
            reply,
            ledger,
            at,
        ),
        (ResumeStage::Force, _) => Flow::Next(stage),
        (_, ResumeReply::Failed(error)) => Flow::Report(MutationReport::failed(error)),
        _ => Flow::Next(stage),
    }
}

/// An intent whose request may have been carried out keeps its record where the
/// run no longer qualifies.
pub proof fn uncertain_intent_is_kept(
    run: ResumeRun,
    at: Seq<char>,
    before: StewardLedger,
    after: StewardLedger,
    run_after: ResumeRun,
)
    requires
        run.was_uncertain,
        resume_ledger(
            run,
            ResumeStage::Revalidate,
            ResumeReply::Disqualified,
            at,
            before,
            after,
            run_after,
        ),
    ensures
        after == before,
        resume_flow(run, ResumeStage::Revalidate, ResumeReply::Disqualified, before)
            == reports_failed::<ResumeStage>(kept_uncertain(run)),
{
}

/// A cancellation is sent anew only after the new request was saved, the guard
/// was taken and the run was held against the rules right before.
pub proof fn retry_follows_its_saved_request(
    run: ResumeRun,
    stage: ResumeStage,
    reply: ResumeReply,
    ledger: StewardLedger,
    next: ResumeStage,
)
    requires
        resume_flow(run, stage, reply, ledger) == FlowView::Next(next),
        next != stage,
    ensures
        next == ResumeStage::Cancel ==> stage == ResumeStage::Final && reply is Qualified,
        next == ResumeStage::Final ==> stage == ResumeStage::Acquire && reply is Done,
        next == ResumeStage::Acquire ==> stage == ResumeStage::SaveCorrelation && reply is Done,
        next == ResumeStage::SaveCorrelation ==> stage == ResumeStage::NewIntent && reply is Intent
            && ledger.pending_cancellations@.dom().contains(run.key@),
{
}

/// What became of a cancelled run.
#[derive(Debug)]
pub struct CancellationReport {
    pub run_id: u64,
    pub reason: String,
    pub mutation: Option<String>,
    pub error: Option<String>,
}

/// What is reported of a cancellation, in texts.
pub struct CancellationView {
    pub run_id: u64,
    pub reason: Seq<char>,
    pub mutation: Option<Seq<char>>,
    pub error: Option<Seq<char>>,
}

impl View for CancellationReport {
    type V = CancellationView;

    open spec fn view(&self) -> CancellationView {
        CancellationView {
            run_id: self.run_id,
            reason: self.reason@,
            mutation: opt_view(self.mutation),
            error: opt_view(self.error),
        }
    }
}

/// Reports of cancellations, in texts.
pub open spec fn cancellation_views(reports: Seq<CancellationReport>) -> Seq<CancellationView> {
    Seq::new(reports.len(), |i: int| reports[i]@)
}

/// What became of the pending records of a repository.
#[derive(Debug)]
pub struct RecoveryReports {
    pub errors: Vec<String>,
    pub cancellations: Vec<CancellationReport>,
}

/// The error of a recovery that failed.
pub open spec fn recovery_error(
    run_id: u64,
    error: Seq<char>,
    unsaved: Option<Seq<char>>,
) -> Seq<char> {
    let text = "pending cancellation recovery for run "@ + decimal(run_id as nat) + " failed: "@
        + error;
    match unsaved {
        None => text,
        Some(m) => text + "; recovery audit persistence also failed: "@ + m,
    }
}

/// Audits that a pending record could not be taken up.
pub fn audit_unhealthy_recovery(ledger: &mut StewardLedger, repo: &str, run_id: u64, at: &str)
    ensures
        audited_once(
            *old(ledger),
            *final(ledger),
            AuditTexts {
                at: at@,
                repo: repo@,
                subject: capacity_subject(run_id),
                action: "pending_cancellation_recovery_unhealthy"@,
            },
        ),
{
    audit_capacity_run(ledger, repo, run_id, "pending_cancellation_recovery_unhealthy", at);
}

/// The error of a recovery that failed.
pub fn recovery_message(run_id: u64, error: &str, unsaved: &Option<String>) -> (r: String)
    ensures
        r@ == recovery_error(run_id, error@, opt_view(*unsaved)),
{
    let text = concat4(
        "pending cancellation recovery for run ",
        to_decimal(run_id).as_str(),
        " failed: ",
        error,
    );
    match unsaved {
        None => text,
        Some(m) => concat3(
            text.as_str(),
            "; recovery audit persistence also failed: ",
            m.as_str(),
        ),
    }
}

proof fn recovery_names_differ()
    ensures
        "recovered_terminal"@ != "recovered_normal_cancel_terminal"@,
        "recovered_terminal"@ != "recovered_skipped_cancellation"@,
        "recovered_normal_cancel_terminal"@ != "recovered_skipped_cancellation"@,
{
    reveal_strlit("recovered_terminal");
    reveal_strlit("recovered_normal_cancel_terminal");
    reveal_strlit("recovered_skipped_cancellation");
    assert("recovered_terminal"@.len() == 18);
    assert("recovered_normal_cancel_terminal"@.len() == 32);
    assert("recovered_skipped_cancellation"@.len() == 30);
}

/// A record is told as recovered exactly once its removal was saved, and as terminated
/// only where its run was seen to have ended; a run that keeps running after the wait is
/// always cancelled by force.
pub proof fn recovery_is_told_once_the_record_is_gone(
    run: ResumeRun,
    stage: ResumeStage,
    reply: ResumeReply,
    ledger: StewardLedger,
)
    ensures
        ({
            let flow = resume_flow(run, stage, reply, ledger);
            &&& ends_well(flow) <==> stage is SaveCleared && reply is Done
            &&& ends_as(flow, "recovered_terminal"@) <==> stage == ResumeStage::SaveCleared(
                ClearReason::Terminal,
            ) && reply is Done
            &&& ends_as(flow, "recovered_normal_cancel_terminal"@) <==> stage
                == ResumeStage::SaveCleared(ClearReason::NormalTerminal) && reply is Done
            &&& flow == FlowView::Next(ResumeStage::SaveCleared(ClearReason::NormalTerminal))
                && stage != ResumeStage::SaveCleared(ClearReason::NormalTerminal) && stage
                != ResumeStage::Supersede(AfterSupersede::Clear(ClearReason::NormalTerminal))
                ==> stage == ResumeStage::WaitNormal && reply is Ended
            &&& flow == FlowView::Next(
                ResumeStage::Supersede(AfterSupersede::Clear(ClearReason::Terminal)),
            ) && stage != ResumeStage::Supersede(AfterSupersede::Clear(ClearReason::Terminal))
                ==> stage == ResumeStage::Read && reply is Ended
            &&& flow == FlowView::Next(ResumeStage::SaveCleared(ClearReason::Terminal)) && stage
                != ResumeStage::SaveCleared(ClearReason::Terminal) ==> stage
                == ResumeStage::Supersede(AfterSupersede::Clear(ClearReason::Terminal)) && reply
                is Done
            &&& stage == ResumeStage::Read && reply is Ended ==> flow == FlowView::Next(
                ResumeStage::Supersede(AfterSupersede::Clear(ClearReason::Terminal)),
            )
            &&& stage == ResumeStage::WaitNormal && reply is Running ==> flow == FlowView::Next(
                ResumeStage::Force,
            )
            &&& stage == ResumeStage::WaitNormal && reply is Ended
                && ledger.pending_cancellations@.dom().contains(run.key@) ==> flow
                == FlowView::Next(ResumeStage::SaveCleared(ClearReason::NormalTerminal))
            &&& flow == FlowView::Next(ResumeStage::Force) && stage != ResumeStage::Force ==> stage
                == ResumeStage::WaitNormal && reply is Running
        }),
{
    recovery_names_differ();
}

/// A run that still runs is watched where its cancellation was accepted, and looked into
/// where it was only intended.
pub proof fn a_running_record_is_watched_or_retried(
    run: ResumeRun,
    ledger: StewardLedger,
)
    ensures
        resume_flow(run, ResumeStage::Read, ResumeReply::Running, ledger) == FlowView::Next(
            ResumeStage::Uncertainty,
        ) <==> run.phase == PendingCancellationPhase::Intent,
        run.phase != PendingCancellationPhase::Intent ==> resume_flow(
            run,
            ResumeStage::Read,
            ResumeReply::Running,
            ledger,
        ) == FlowView::Next(ResumeStage::Supersede(AfterSupersede::Wait)),
        resume_flow(
            run,
            ResumeStage::Supersede(AfterSupersede::Wait),
            ResumeReply::Done,
            ledger,
        ) == FlowView::Next(ResumeStage::WaitNormal),
{
}

/// How many steps lie between a step and the next read of the run, where an intent is
/// carried out and every reply is favourable.
pub open spec fn steps_to_the_read(run: ResumeRun, stage: ResumeStage) -> Option<nat> {
    match stage {
        ResumeStage::Uncertainty => Some(12),
        ResumeStage::Observe => Some(11),
        ResumeStage::Revalidate => Some(10),
        ResumeStage::SaveEvidence => Some(9),
        ResumeStage::Supersede(AfterSupersede::Retry) => Some(8),
        ResumeStage::NewIntent => Some(7),
        ResumeStage::SaveCorrelation => Some(6),
        ResumeStage::Acquire => Some(5),
        ResumeStage::Final => Some(4),
        ResumeStage::Cancel => Some(3),
        ResumeStage::SaveAccepted => Some(2),
        ResumeStage::FinishAccepted => Some(1),
        ResumeStage::Read => Some(0),
        _ => None,
    }
}

/// An intent to cancel an advisory preamble whose run is still there and qualifies at
/// every read is carried out: each favourable reply leads on towards the next read of
/// the run, by one step, or by two where no uncertain request has to be resolved.
pub proof fn a_qualifying_intent_is_carried_out(
    run: ResumeRun,
    stage: ResumeStage,
    reply: ResumeReply,
    ledger: StewardLedger,
)
    requires
        resumable_reason(run.reason@) == Some(RunCancellationReason::AdvisoryPreambleCapacityTheft),
        ledger.pending_cancellations@.dom().contains(run.key@),
        steps_to_the_read(run, stage) matches Some(left) && left > 0,
        match stage {
            ResumeStage::Uncertainty => reply is Uncertain,
            ResumeStage::Observe => reply == ResumeReply::Observed(true),
            ResumeStage::Revalidate | ResumeStage::Final => reply is Qualified,
            ResumeStage::NewIntent => reply is Intent,
            _ => reply is Done,
        },
    ensures
        resume_flow(run, stage, reply, ledger) matches FlowView::Next(next) && steps_to_the_read(
            run,
            next,
        ) == Some(
            (steps_to_the_read(run, stage)->Some_0 - (if stage == ResumeStage::SaveEvidence
                && !run.was_uncertain {
                2int
            } else {
                1
            })) as nat,
        ),
{
}

/// An intent that no longer qualifies is not carried out: it is marked and removed, or,
/// where an earlier request is uncertain, kept and told.
pub proof fn a_disqualified_intent_is_dropped_or_kept(
    run: ResumeRun,
    ledger: StewardLedger,
)
    ensures
        ({
            let first = resume_flow(
                run,
                ResumeStage::Revalidate,
                ResumeReply::Disqualified,
                ledger,
            );
            let last = resume_flow(run, ResumeStage::Final, ResumeReply::Disqualified, ledger);
            let keyed = ledger.pending_cancellations@.dom().contains(run.key@);
            &&& run.was_uncertain ==> !(first is Next) && !ends_well(first)
            &&& !run.was_uncertain && keyed ==> first == FlowView::Next(ResumeStage::SaveRejected)
            &&& keyed ==> last == FlowView::Next(ResumeStage::SaveFinalSkip)
            &&& !keyed ==> !(first is Next) && !ends_well(first) && !(last is Next) && !ends_well(
                last,
            )
        }),
        resume_flow(run, ResumeStage::SaveRejected, ResumeReply::Done, ledger) == FlowView::Next(
            ResumeStage::Supersede(AfterSupersede::Clear(ClearReason::Rejected)),
        ),
        resume_flow(run, ResumeStage::SaveFinalSkip, ResumeReply::Done, ledger) == FlowView::Next(
            ResumeStage::FinishFinalSkip,
        ),
        ledger.pending_cancellations@.dom().contains(run.key@) ==> resume_flow(
            run,
            ResumeStage::FinishFinalSkip,
            ResumeReply::Done,
            ledger,
        ) == FlowView::Next(ResumeStage::SaveCleared(ClearReason::FinalSkip)),
        !(resume_flow(run, ResumeStage::Observe, ResumeReply::Observed(false), ledger) is Next),
        !ends_well(resume_flow(run, ResumeStage::Observe, ResumeReply::Observed(false), ledger)),
{
}

/// What fails ends the recovery with an error that ends with it.
pub proof fn recovery_failures_are_told(
    run: ResumeRun,
    stage: ResumeStage,
    error: String,
    ledger: StewardLedger,
)
    requires
        stage != ResumeStage::Force,
    ensures
        ends_with_error(
            resume_flow(run, stage, ResumeReply::Failed(error), ledger),
            error@,
        ),
{
    let e = error@;
    ends_with_its_end("could not persist terminal pending-cancellation state: "@, e);
    ends_with_its_end("could not persist final preemption evidence: "@, e);
    ends_with_its_end("could not persist pending mutation correlation: "@, e);
    ends_with_its_end("mutation audit failed: "@, e);
    ends_with_its_end("exact normal cancellation retry failed: "@, e);
    ends_with_its_end(
        "normal cancellation retry accepted but pending phase persistence failed: "@,
        e,
    );
    ends_with_its_end("normal cancellation retry audit failed: "@, e);
}

/// A pending record is resumed for exactly the two reasons that make room for the front
/// of the queue, which are told apart.
pub proof fn two_reasons_can_be_resumed(text: Seq<char>)
    ensures
        resumable_reason(text) is Some <==> text
            == RunCancellationReason::AdvisoryPreambleCapacityTheft.label() || text
            == RunCancellationReason::LowerPriorityBranchPreamble.label(),
        resumable_reason(text) matches Some(reason) ==> reason.label() == text,
{
    reveal_strlit("advisory_preamble_capacity_theft");
    reveal_strlit("lower_priority_branch_preamble");
}

/// A record that was skipped is superseded and cleared without a look at its run; every
/// other one begins with reading the run.
pub proof fn only_a_skipped_record_is_cleared_unread(phase: PendingCancellationPhase)
    ensures
        first_resume_stage(phase) == ResumeStage::Read <==> phase
            != PendingCancellationPhase::Skipped,
        phase == PendingCancellationPhase::Skipped ==> first_resume_stage(phase) is Supersede,
{
}

/// Whether a request was uncertain is noted when it is told, and a run never changes which
/// record it carries out.
pub proof fn uncertainty_is_noted_when_told(
    run: ResumeRun,
    stage: ResumeStage,
    reply: ResumeReply,
    ledger: StewardLedger,
    after: ResumeRun,
)
    requires
        resume_notes(run, stage, reply, ledger, after),
    ensures
        after.key == run.key && after.run_id == run.run_id && after.repo == run.repo,
        stage is Uncertainty ==> (reply matches ResumeReply::Uncertain(uncertain)
            ==> after.was_uncertain == uncertain),
        !(stage is Uncertainty) ==> after.was_uncertain == run.was_uncertain,
        !(stage is FinishAccepted) ==> after.phase == run.phase,
{
}

/// A record that is resumed goes only by a reply that clears it, comes back only where that
/// could not be saved, is accepted only by an accepted request, is skipped only where its
/// run no longer qualifies or its reason may not be carried out, and is bound to the new
/// request when that is told.
pub proof fn a_resumed_record_follows_its_replies(
    run: ResumeRun,
    stage: ResumeStage,
    reply: ResumeReply,
    at: Seq<char>,
    before: StewardLedger,
    after: StewardLedger,
    run_after: ResumeRun,
)
    requires
        resume_ledger(run, stage, reply, at, before, after, run_after),
    ensures
        ({
            let old_map = before.pending_cancellations@;
            let new_map = after.pending_cancellations@;
            let key = run.key@;
            let keyed = old_map.dom().contains(key);
            let restores = stage is SaveCleared && reply is Failed;
            &&& keyed && !new_map.dom().contains(key) <==> keyed && clearing(stage, reply) is Some
            &&& keyed && clearing(stage, reply) is Some ==> run_after.cleared == Some(old_map[key])
            &&& !keyed && new_map.dom().contains(key) ==> restores
            &&& restores && clearing(stage, reply) is None ==> (run.cleared matches Some(record)
                ==> new_map.dom().contains(key) && new_map[key] == record)
            &&& keyed && stage is Cancel && reply is Done && clearing(stage, reply) is None
                ==> new_map[key].phase == PendingCancellationPhase::Accepted
            &&& keyed && new_map.dom().contains(key) && !restores && new_map[key].phase
                != old_map[key].phase && new_map[key].phase == PendingCancellationPhase::Accepted
                ==> stage is Cancel && reply is Done
            &&& keyed && new_map.dom().contains(key) && !restores && new_map[key].phase
                != old_map[key].phase && new_map[key].phase == PendingCancellationPhase::Skipped ==> (
            reply is Disqualified && (stage is Revalidate || stage is Final)) || (stage is Acquire
                && reply is Done)
            &&& keyed && stage is Final && reply is Disqualified && clearing(stage, reply) is None
                ==> new_map[key].phase == PendingCancellationPhase::Skipped
            &&& keyed && stage is Revalidate && reply is Disqualified && clearing(stage, reply) is None
                ==> (!run.was_uncertain ==> new_map[key].phase == PendingCancellationPhase::Skipped)
                && (run.was_uncertain ==> after == before)
            &&& keyed && stage is NewIntent ==> (reply matches ResumeReply::Intent(id) ==> (clearing(
                stage,
                reply,
            ) is None ==> new_map[key].mutation_correlation_id@ == id@
                && new_map[key].mutation_kind == PendingMutationKind::NormalCancel))
            &&& after.preemption_attempts == before.preemption_attempts && after.terminal_handoffs
                == before.terminal_handoffs
        }),
{
    let old_map = before.pending_cancellations@;
    let new_map = after.pending_cancellations@;
    let key = run.key@;
    if old_map.dom().contains(key) && new_map.dom().contains(key) {
        let new_view = new_map[key]@;
        let old_view = old_map[key]@;
        assert(new_view.phase == new_map[key].phase && new_view.mutation_kind
            == new_map[key].mutation_kind && new_view.mutation_correlation_id
            == new_map[key].mutation_correlation_id@);
        assert(old_view.phase == old_map[key].phase);
    }
}

/// A reason that may not be carried out skips the record, and one that may does not.
pub proof fn only_a_theft_of_capacity_is_carried_out(run: ResumeRun)
    ensures
        skips(run, ResumeStage::Acquire, ResumeReply::Done) <==> resumable_reason(run.reason@)
            != Some(RunCancellationReason::AdvisoryPreambleCapacityTheft),
{
}

/// A record is cleared by exactly three replies: that it is superseded where it is to be
/// cleared, that its run ended in the wait, and that its skip is finished; what was cleared
/// is saved for the same cause, and a last skip is saved, finished and cleared in turn.
pub proof fn what_is_cleared_is_saved(
    run: ResumeRun,
    stage: ResumeStage,
    reply: ResumeReply,
    ledger: StewardLedger,
)
    ensures
        clearing(stage, reply) is Some <==> (stage matches ResumeStage::Supersede(next) && next
            is Clear && reply is Done) || (stage is WaitNormal && reply is Ended) || (stage
            is FinishFinalSkip && reply is Done),
        ledger.pending_cancellations@.dom().contains(run.key@) ==> (clearing(stage, reply)
            matches Some(why) ==> resume_flow(run, stage, reply, ledger) == FlowView::Next(
            ResumeStage::SaveCleared(why),
        )),
        stage is SaveFinalSkip && reply is Done ==> resume_flow(run, stage, reply, ledger)
            == FlowView::Next(ResumeStage::FinishFinalSkip),
{
}

} // verus!
