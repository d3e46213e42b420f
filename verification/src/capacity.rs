//! Cancelling a run to make room for the front of the merge queue.
//!
//! The run is read again before the cancellation is written down as intended,
//! before it is attempted, and before it is sent; after it was accepted the run
//! is watched until it has ended.
use vstd::prelude::*;

use crate::guard::{
    ends_as, ends_well, ends_with_error, ends_with_its_end, ends_with_the_last, failing,
    reports_both, reports_done, reports_failed, Closing, Flow, FlowView,
};
use crate::ledger::{
    audited, capacity_subject, pending_key_text, record_audit, AuditTexts, PendingCancellation,
    PendingCancellationPhase, StewardLedger,
};
use crate::model::{MutationReport, RunCancellationReason, StewardJob};
use crate::pending::{
    audit_capacity_run, clear_pending_cancellation, clear_pending_for_run, finish_clear,
    first_of_run, front_subject, mark_cancellation_accepted, mark_cancellation_skipped,
    phase_marked, run_pending,
};
use crate::text::{concat, concat3, decimal, to_decimal};

verus! {

/// A run that has not ended.
#[derive(Debug)]
pub struct NonTerminalRun {
    pub status: String,
    pub jobs: Vec<StewardJob>,
}

/// What a preemption does next.
#[derive(Clone, Copy, Debug, PartialEq, Eq, Structural)]
pub enum CapacityStage {
    /// Read the run again, before the cancellation.
    Precancel,
    /// Save what was read.
    SavePrecancel,
    /// Read the run again, for the attempt.
    Attempt,
    /// Save what was read for the attempt.
    SaveAttempt,
    /// Read the run again, right before the request.
    Final,
    /// Send the cancellation.
    Cancel,
    /// Save that it was accepted.
    SaveAccepted,
    /// Record that it was accepted.
    FinishAccepted,
    /// Save that the preemption is complete.
    SaveCompletion,
    /// Wait for the run to end.
    Wait,
    /// Save that the run has ended.
    SaveTerminal,
    /// Save that the run could not be watched.
    SaveUnreadable,
    /// Cancel the run by force.
    Force,
    /// Save that the cancellation was skipped.
    SaveSkip(SkipPoint),
    /// Record that the cancellation was skipped.
    FinishSkip(SkipPoint),
    /// Save that the skipped cancellation is no longer pending.
    SaveCleared(SkipPoint),
}

/// Where a cancellation was skipped.
#[derive(Clone, Copy, Debug, PartialEq, Eq, Structural)]
pub enum SkipPoint {
    Precancel,
    Attempt,
}

impl SkipPoint {
    /// How a skip is named.
    pub open spec fn name(self) -> Seq<char> {
        match self {
            SkipPoint::Precancel => "skipped_after_precancel_revalidation"@,
            SkipPoint::Attempt => "skipped_after_attempt_revalidation"@,
        }
    }

    /// How a skip is named.
    pub fn label(self) -> (r: &'static str)
        ensures
            r@ == self.name(),
    {
        match self {
            SkipPoint::Precancel => "skipped_after_precancel_revalidation",
            SkipPoint::Attempt => "skipped_after_attempt_revalidation",
        }
    }
}

/// A preemption under way.
#[derive(Debug)]
pub struct CapacityRun {
    pub repo: String,
    pub run_id: u64,
    pub reason: RunCancellationReason,
    pub front: String,
    /// The key of the pending record.
    pub key: String,
    /// The head of the run as it was read last.
    pub head: String,
    /// What the run could not be watched for.
    pub held: String,
    /// The record that was removed and is being saved without.
    pub cleared: Option<(String, PendingCancellation)>,
}

/// What came of a step.
#[derive(Debug)]
pub enum CapacityReply {
    Done,
    Failed(String),
    /// The run still qualifies; its head, and what was read, as text.
    Qualified { head: String, evidence: String },
    /// The run no longer qualifies.
    Disqualified,
    /// The run has ended.
    Ended,
    /// The run has not ended in time.
    Running,
}

/// The audit entry of what was read before a cancellation.
pub open spec fn evidence_entry(
    repo: Seq<char>,
    run_id: u64,
    evidence: Seq<char>,
    at: Seq<char>,
) -> AuditTexts {
    AuditTexts {
        at,
        repo,
        subject: capacity_subject(run_id),
        action: "capacity_preemption_precancel_evidence:"@ + evidence,
    }
}

/// Audits what was read before a cancellation.
pub fn persist_capacity_evidence(
    ledger: &mut StewardLedger,
    repo: &str,
    run_id: u64,
    evidence: &str,
    at: &str,
)
    ensures
        final(ledger).same_records(*old(ledger)),
        final(ledger).audits() == audited(
            old(ledger).audits(),
            evidence_entry(repo@, run_id, evidence@, at@),
        ),
{
    let action = concat("capacity_preemption_precancel_evidence:", evidence);
    audit_capacity_run(ledger, repo, run_id, action.as_str(), at);
}

/// Why an intent that is not in the ledger cannot be marked.
pub open spec fn intent_gone() -> Seq<char> {
    "pending cancellation intent disappeared"@
}

/// What an accepted cancellation is reported as.
pub open spec fn accepted_label() -> Seq<char> {
    "cancelled_after_job_revalidation"@
}

/// What a preemption does after a reply. A reply that belongs to another stage
/// changes nothing.
pub open spec fn capacity_flow(
    run: CapacityRun,
    stage: CapacityStage,
    reply: CapacityReply,
    ledger: StewardLedger,
) -> FlowView<CapacityStage> {
    let pending = ledger.pending_cancellations@.dom().contains(run.key@);
    match (stage, reply) {
        (CapacityStage::Precancel, CapacityReply::Qualified { .. }) => FlowView::Next(
            CapacityStage::SavePrecancel,
        ),
        (CapacityStage::Precancel, CapacityReply::Disqualified) => if pending {
            FlowView::Next(CapacityStage::SaveSkip(SkipPoint::Precancel))
        } else {
            reports_failed(intent_gone())
        },
        (CapacityStage::Precancel, CapacityReply::Failed(e)) => FlowView::Close(
            failing("revalidation_failed"@, e@),
        ),
        (CapacityStage::SavePrecancel, CapacityReply::Done) => FlowView::Next(
            CapacityStage::Attempt,
        ),
        (CapacityStage::SavePrecancel, CapacityReply::Failed(e)) => FlowView::Close(
            failing(
                "evidence_persistence_failed"@,
                "could not persist final preemption evidence: "@ + e@,
            ),
        ),
        (CapacityStage::Attempt, CapacityReply::Qualified { .. }) => FlowView::Next(
            CapacityStage::SaveAttempt,
        ),
        (CapacityStage::Attempt, CapacityReply::Disqualified) => if pending {
            FlowView::Next(CapacityStage::SaveSkip(SkipPoint::Attempt))
        } else {
            reports_failed(intent_gone())
        },
        (CapacityStage::Attempt, CapacityReply::Failed(e)) => FlowView::Close(
            failing("attempt_revalidation_failed"@, e@),
        ),
        (CapacityStage::SaveAttempt, CapacityReply::Done) => if run.reason
            == RunCancellationReason::AdvisoryPreambleCapacityTheft {
            FlowView::Next(CapacityStage::Final)
        } else if pending {
            FlowView::Next(CapacityStage::SaveSkip(SkipPoint::Attempt))
        } else {
            reports_failed(intent_gone())
        },
        (CapacityStage::SaveAttempt, CapacityReply::Failed(e)) => FlowView::Close(
            failing(
                "attempt_evidence_persistence_failed"@,
                "could not persist final preemption evidence: "@ + e@,
            ),
        ),
        (CapacityStage::Final, CapacityReply::Qualified { .. }) => FlowView::Next(
            CapacityStage::Cancel,
        ),
        (CapacityStage::Final, CapacityReply::Disqualified) => if pending {
            FlowView::Next(CapacityStage::SaveSkip(SkipPoint::Attempt))
        } else {
            reports_failed(intent_gone())
        },
        (CapacityStage::Final, CapacityReply::Failed(e)) => FlowView::Close(
            failing("final_revalidation_failed"@, e@),
        ),
        (CapacityStage::Cancel, CapacityReply::Done) => if ledger.pending_cancellations@.dom().contains(
            pending_key_text(run.repo@, run.run_id, run.head@, run.front@),
        ) {
            FlowView::Next(CapacityStage::SaveAccepted)
        } else {
            reports_both(
                accepted_label(),
                "cancel accepted but pending recovery persistence failed: "@ + intent_gone(),
            )
        },
        (CapacityStage::Cancel, CapacityReply::Failed(e)) => reports_failed(e@),
        (CapacityStage::SaveAccepted, CapacityReply::Done) => FlowView::Next(
            CapacityStage::FinishAccepted,
        ),
        (CapacityStage::SaveAccepted, CapacityReply::Failed(e)) => reports_both(
            accepted_label(),
            "cancel accepted but pending recovery persistence failed: "@ + e@,
        ),
        (CapacityStage::FinishAccepted, CapacityReply::Done) => FlowView::Next(
            CapacityStage::SaveCompletion,
        ),
        (CapacityStage::FinishAccepted, CapacityReply::Failed(e)) => reports_both(
            accepted_label(),
            "cancel accepted but mutation audit failed: "@ + e@,
        ),
        (CapacityStage::SaveCompletion, CapacityReply::Done) => FlowView::Next(
            CapacityStage::Wait,
        ),
        (CapacityStage::SaveCompletion, CapacityReply::Failed(e)) => reports_both(
            accepted_label(),
            "cancel accepted but completion audit failed: "@ + e@,
        ),
        (CapacityStage::Wait, CapacityReply::Ended) => if run_pending(
            ledger.pending_cancellations.values(),
            run.repo@,
            run.run_id,
        ) {
            FlowView::Next(CapacityStage::SaveTerminal)
        } else {
            reports_both(
                "cancelled_terminal"@,
                "cancel terminalized but completion audit failed: "@ + (
                "pending cancellation record for run "@ + decimal(run.run_id as nat)
                    + " disappeared"@),
            )
        },
        (CapacityStage::Wait, CapacityReply::Running) => FlowView::Next(CapacityStage::Force),
        (CapacityStage::Wait, CapacityReply::Failed(_)) => FlowView::Next(
            CapacityStage::SaveUnreadable,
        ),
        (CapacityStage::SaveTerminal, CapacityReply::Done) => reports_done("cancelled_terminal"@),
        (CapacityStage::SaveTerminal, CapacityReply::Failed(e)) => reports_both(
            "cancelled_terminal"@,
            "cancel terminalized but completion audit failed: "@ + (
            "could not persist terminal pending-cancellation state: "@ + e@),
        ),
        (CapacityStage::SaveUnreadable, CapacityReply::Done) | (
            CapacityStage::SaveUnreadable,
            CapacityReply::Failed(_),
        ) => reports_both(
            "cancel_terminalization_unreadable"@,
            "cancel accepted but terminalization could not be verified: "@ + run.held@,
        ),
        (CapacityStage::SaveSkip(point), CapacityReply::Done) => FlowView::Next(
            CapacityStage::FinishSkip(point),
        ),
        (CapacityStage::SaveSkip(_), CapacityReply::Failed(e)) => reports_failed(e@),
        (CapacityStage::FinishSkip(point), CapacityReply::Done) => if pending {
            FlowView::Next(CapacityStage::SaveCleared(point))
        } else {
            reports_failed(
                "pending cancellation record for run "@ + decimal(run.run_id as nat)
                    + " disappeared"@,
            )
        },
        (CapacityStage::FinishSkip(_), CapacityReply::Failed(e)) => reports_failed(
            "mutation audit failed: "@ + e@,
        ),
        (CapacityStage::SaveCleared(point), CapacityReply::Done) => reports_done(point.name()),
        (CapacityStage::SaveCleared(_), CapacityReply::Failed(e)) => reports_failed(
            "could not persist terminal pending-cancellation state: "@ + e@,
        ),
        _ => FlowView::Next(stage),
    }
}

/// Whether two ledgers hold the same records and the same audit trail.
pub open spec fn unchanged(before: StewardLedger, after: StewardLedger) -> bool {
    after.same_but_pending(before) && after.pending_cancellations@ == before.pending_cancellations@
        && after.audits() == before.audits()
}

/// Whether a ledger differs from an earlier one by one audit entry.
pub open spec fn audited_once(
    before: StewardLedger,
    after: StewardLedger,
    entry: AuditTexts,
) -> bool {
    after.same_records(before) && after.audits() == audited(before.audits(), entry)
}

/// Whether a ledger differs from an earlier one by a pending record that was
/// removed, with an audit entry that says why.
pub open spec fn record_removed(
    before: StewardLedger,
    after: StewardLedger,
    key: Seq<char>,
    repo: Seq<char>,
    run_id: u64,
    action: Seq<char>,
    at: Seq<char>,
) -> bool {
    &&& after.same_but_pending(before)
    &&& after.pending_cancellations@ == before.pending_cancellations@.remove(key)
    &&& after.audits() == audited(
        before.audits(),
        AuditTexts { at, repo, subject: capacity_subject(run_id), action },
    )
}

/// What a reply does to the ledger.
pub open spec fn capacity_ledger(
    run: CapacityRun,
    stage: CapacityStage,
    reply: CapacityReply,
    at: Seq<char>,
    before: StewardLedger,
    after: StewardLedger,
    run_after: CapacityRun,
) -> bool {
    let pending = before.pending_cancellations@.dom().contains(run.key@);
    let skips = match (stage, reply) {
        (CapacityStage::Precancel, CapacityReply::Disqualified) => true,
        (CapacityStage::Attempt, CapacityReply::Disqualified) => true,
        (CapacityStage::Final, CapacityReply::Disqualified) => true,
        (CapacityStage::SaveAttempt, CapacityReply::Done) => run.reason
            != RunCancellationReason::AdvisoryPreambleCapacityTheft,
        _ => false,
    };
    if skips {
        if pending {
            phase_marked(
                before,
                after,
                run.key@,
                PendingCancellationPhase::Skipped,
                at,
                before.pending_cancellations@[run.key@].repo@,
                before.pending_cancellations@[run.key@].run_id,
                "capacity_preemption_skipped_before_mutation"@,
            )
        } else {
            after == before
        }
    } else {
        match (stage, reply) {
            (CapacityStage::Precancel, CapacityReply::Qualified { evidence, .. }) | (
                CapacityStage::Attempt,
                CapacityReply::Qualified { evidence, .. },
            ) => audited_once(
                before,
                after,
                evidence_entry(run.repo@, run.run_id, evidence@, at),
            ),
            (CapacityStage::Cancel, CapacityReply::Done) => {
                let key = pending_key_text(run.repo@, run.run_id, run.head@, run.front@);
                if before.pending_cancellations@.dom().contains(key) {
                    phase_marked(
                        before,
                        after,
                        key,
                        PendingCancellationPhase::Accepted,
                        at,
                        run.repo@,
                        run.run_id,
                        "capacity_preemption_pending_after_acceptance"@,
                    )
                } else {
                    after == before
                }
            },
            (CapacityStage::FinishAccepted, CapacityReply::Done) => audited_once(
                before,
                after,
                AuditTexts {
                    at,
                    repo: run.repo@,
                    subject: front_subject(run.front@, run.run_id, run.head@),
                    action: "capacity_preemption_accepted:"@ + run.reason.code(),
                },
            ),
            (CapacityStage::Wait, CapacityReply::Ended) => if run_pending(
                before.pending_cancellations.values(),
                run.repo@,
                run.run_id,
            ) {
                run_after.cleared matches Some((key, record)) && record_removed(
                    before,
                    after,
                    key@,
                    run.repo@,
                    run.run_id,
                    "capacity_preemption_terminalized"@,
                    at,
                ) && exists|i: int| #[trigger]
                    first_of_run(
                        before.pending_cancellations.values(),
                        run.repo@,
                        run.run_id,
                        i,
                    ) && before.pending_cancellations.keys()[i] == key@
                        && before.pending_cancellations.values()[i] == record
            } else {
                after == before
            },
            (CapacityStage::Wait, CapacityReply::Failed(_)) => audited_once(
                before,
                after,
                AuditTexts {
                    at,
                    repo: run.repo@,
                    subject: capacity_subject(run.run_id),
                    action: "cancel_terminalization_unreadable"@,
                },
            ),
            (CapacityStage::FinishSkip(point), CapacityReply::Done) => if pending {
                run_after.cleared matches Some((key, record)) && key@ == run.key@ && record
                    == before.pending_cancellations@[run.key@] && record_removed(
                    before,
                    after,
                    run.key@,
                    run.repo@,
                    run.run_id,
                    point.name(),
                    at,
                )
            } else {
                unchanged(before, after)
            },
            (CapacityStage::SaveTerminal, CapacityReply::Failed(_)) | (
                CapacityStage::SaveCleared(_),
                CapacityReply::Failed(_),
            ) => match run.cleared {
                Some((key, record)) => after.same_but_pending(before)
                    && after.pending_cancellations@ == before.pending_cancellations@.insert(
                    key@,
                    record,
                ) && after.audits() == before.audits(),
                None => after == before,
            },
            _ => after == before,
        }
    }
}

/// What a reply does to the preemption's own notes.
pub open spec fn capacity_notes(
    run: CapacityRun,
    stage: CapacityStage,
    reply: CapacityReply,
    after: CapacityRun,
) -> bool {
    &&& after.repo == run.repo
    &&& after.run_id == run.run_id
    &&& after.reason == run.reason
    &&& after.front == run.front
    &&& after.key == run.key
    &&& after.head@ == match (stage, reply) {
        (CapacityStage::Final, CapacityReply::Qualified { head, .. }) => head@,
        _ => run.head@,
    }
    &&& after.held@ == match (stage, reply) {
        (CapacityStage::Wait, CapacityReply::Failed(e)) => e@,
        _ => run.held@,
    }
}

fn skip(
    run: &CapacityRun,
    point: SkipPoint,
    ledger: &mut StewardLedger,
    at: &str,
) -> (r: Flow<CapacityStage>)
    ensures
        r@ == if old(ledger).pending_cancellations@.dom().contains(run.key@) {
            FlowView::Next(CapacityStage::SaveSkip(point))
        } else {
            reports_failed(intent_gone())
        },
        if old(ledger).pending_cancellations@.dom().contains(run.key@) {
            phase_marked(
                *old(ledger),
                *final(ledger),
                run.key@,
                PendingCancellationPhase::Skipped,
                at@,
                old(ledger).pending_cancellations@[run.key@].repo@,
                old(ledger).pending_cancellations@[run.key@].run_id,
                "capacity_preemption_skipped_before_mutation"@,
            )
        } else {
            *final(ledger) == *old(ledger)
        },
{
    match mark_cancellation_skipped(ledger, run.key.as_str(), at) {
        Ok(_) => Flow::Next(CapacityStage::SaveSkip(point)),
        Err(error) => Flow::Report(MutationReport::failed(error)),
    }
}

fn restore_cleared(run: &mut CapacityRun, ledger: &mut StewardLedger, message: String)
    ensures
        capacity_notes(
            *old(run),
            CapacityStage::SaveTerminal,
            CapacityReply::Done,
            *final(run),
        ),
        match old(run).cleared {
            Some((key, record)) => final(ledger).same_but_pending(*old(ledger))
                && final(ledger).pending_cancellations@ == old(ledger).pending_cancellations@.insert(
                key@,
                record,
            ) && final(ledger).audits() == old(ledger).audits(),
            None => *final(ledger) == *old(ledger),
        },
{
    match run.cleared.take() {
        Some((key, record)) => {
            let _ = finish_clear(ledger, key.as_str(), record, Err(message));
        },
        None => {},
    }
}

/// Reads the run again and saves what was read, before the cancellation is
/// attempted.
pub fn prepare_capacity_preemption(
    run: &mut CapacityRun,
    stage: CapacityStage,
    reply: CapacityReply,
    ledger: &mut StewardLedger,
    at: &str,
) -> (r: Flow<CapacityStage>)
    requires
        stage is Precancel || stage is SavePrecancel,
    ensures
        r@ == capacity_flow(*old(run), stage, reply, *old(ledger)),
        capacity_ledger(
            *old(run),
            stage,
            reply,
            at@,
            *old(ledger),
            *final(ledger),
            *final(run),
        ),
        capacity_notes(*old(run), stage, reply, *final(run)),
{
    match (stage, reply) {
        (CapacityStage::Precancel, CapacityReply::Qualified { evidence, .. }) => {
            persist_capacity_evidence(
                ledger,
                run.repo.as_str(),
                run.run_id,
                evidence.as_str(),
                at,
            );
            Flow::Next(CapacityStage::SavePrecancel)
        },
        (CapacityStage::Precancel, CapacityReply::Disqualified) => skip(
            run,
            SkipPoint::Precancel,
            ledger,
            at,
        ),
        (CapacityStage::Precancel, CapacityReply::Failed(error)) => {
            proof {
                reveal_strlit("");
                assert(""@ + error@ =~= error@);
            }
            Flow::Close(
                Closing::Fail { outcome: "revalidation_failed", mutation: None, prefix: "", error },
            )
        },
        (CapacityStage::SavePrecancel, CapacityReply::Done) => Flow::Next(CapacityStage::Attempt),
        (CapacityStage::SavePrecancel, CapacityReply::Failed(error)) => Flow::Close(
            Closing::Fail {
                outcome: "evidence_persistence_failed",
                mutation: None,
                prefix: "could not persist final preemption evidence: ",
                error,
            },
        ),
        _ => Flow::Next(stage),
    }
}

/// Records that the cancellation was skipped, and removes its record.
pub fn skip_after_attempt_revalidation(
    run: &mut CapacityRun,
    stage: CapacityStage,
    reply: CapacityReply,
    ledger: &mut StewardLedger,
    at: &str,
) -> (r: Flow<CapacityStage>)
    requires
        stage is SaveSkip || stage is FinishSkip || stage is SaveCleared,
    ensures
        r@ == capacity_flow(*old(run), stage, reply, *old(ledger)),
        capacity_ledger(
            *old(run),
            stage,
            reply,
            at@,
            *old(ledger),
            *final(ledger),
            *final(run),
        ),
        capacity_notes(*old(run), stage, reply, *final(run)),
{
    match (stage, reply) {
        (CapacityStage::SaveSkip(point), CapacityReply::Done) => Flow::Next(
            CapacityStage::FinishSkip(point),
        ),
        (CapacityStage::SaveSkip(_), CapacityReply::Failed(error)) => Flow::Report(
            MutationReport::failed(error),
        ),
        (CapacityStage::FinishSkip(point), CapacityReply::Done) => {
            match clear_pending_cancellation(
                ledger,
                run.key.as_str(),
                run.repo.as_str(),
                run.run_id,
                point.label(),
                at,
            ) {
                Ok(record) => {
                    run.cleared = Some((run.key.clone(), record));
                    Flow::Next(CapacityStage::SaveCleared(point))
                },
                Err(error) => Flow::Report(MutationReport::failed(error)),
            }
        },
        (CapacityStage::FinishSkip(_), CapacityReply::Failed(error)) => Flow::Report(
            MutationReport::failed(concat("mutation audit failed: ", error.as_str())),
        ),
        (CapacityStage::SaveCleared(point), CapacityReply::Done) => Flow::Report(
            MutationReport::done(point.label()),
        ),
        (CapacityStage::SaveCleared(_), CapacityReply::Failed(error)) => {
            let text = concat(
                "could not persist terminal pending-cancellation state: ",
                error.as_str(),
            );
            restore_cleared(run, ledger, error);
            Flow::Report(MutationReport::failed(text))
        },
        _ => Flow::Next(stage),
    }
}

/// Reads the run again, twice, and goes on to cancel it only where it still
/// qualifies.
pub fn cancel_capacity_preemption_after_revalidation(
    run: &mut CapacityRun,
    stage: CapacityStage,
    reply: CapacityReply,
    ledger: &mut StewardLedger,
    at: &str,
) -> (r: Flow<CapacityStage>)
    requires
        stage is Attempt || stage is SaveAttempt || stage is Final,
    ensures
        r@ == capacity_flow(*old(run), stage, reply, *old(ledger)),
        capacity_ledger(
            *old(run),
            stage,
            reply,
            at@,
            *old(ledger),
            *final(ledger),
            *final(run),
        ),
        capacity_notes(*old(run), stage, reply, *final(run)),
{
    match (stage, reply) {
        (CapacityStage::Attempt, CapacityReply::Qualified { evidence, .. }) => {
            persist_capacity_evidence(
                ledger,
                run.repo.as_str(),
                run.run_id,
                evidence.as_str(),
                at,
            );
            Flow::Next(CapacityStage::SaveAttempt)
        },
        (CapacityStage::Attempt, CapacityReply::Disqualified) => skip(
            run,
            SkipPoint::Attempt,
            ledger,
            at,
        ),
        (CapacityStage::Attempt, CapacityReply::Failed(error)) => {
            proof {
                reveal_strlit("");
                assert(""@ + error@ =~= error@);
            }
            Flow::Close(
                Closing::Fail {
                    outcome: "attempt_revalidation_failed",
                    mutation: None,
                    prefix: "",
                    error,
                },
            )
        },
        (CapacityStage::SaveAttempt, CapacityReply::Done) => {
            if run.reason == RunCancellationReason::AdvisoryPreambleCapacityTheft {
                Flow::Next(CapacityStage::Final)
            } else {
                skip(run, SkipPoint::Attempt, ledger, at)
            }
        },
        (CapacityStage::SaveAttempt, CapacityReply::Failed(error)) => Flow::Close(
            Closing::Fail {
                outcome: "attempt_evidence_persistence_failed",
                mutation: None,
                prefix: "could not persist final preemption evidence: ",
                error,
            },
        ),
        (CapacityStage::Final, CapacityReply::Qualified { head, .. }) => {
            run.head = head;
            Flow::Next(CapacityStage::Cancel)
        },
        (CapacityStage::Final, CapacityReply::Disqualified) => skip(
            run,
            SkipPoint::Attempt,
            ledger,
            at,
        ),
        (CapacityStage::Final, CapacityReply::Failed(error)) => {
            proof {
                reveal_strlit("");
                assert(""@ + error@ =~= error@);
            }
            Flow::Close(
                Closing::Fail {
                    outcome: "final_revalidation_failed",
                    mutation: None,
                    prefix: "",
                    error,
                },
            )
        },
        _ => Flow::Next(stage),
    }
}

/// Records that the cancellation was accepted.
pub fn finish_accepted_capacity_preemption(
    run: &mut CapacityRun,
    stage: CapacityStage,
    reply: CapacityReply,
    ledger: &mut StewardLedger,
    at: &str,
) -> (r: Flow<CapacityStage>)
    requires
        stage is Cancel || stage is SaveAccepted || stage is FinishAccepted,
    ensures
        r@ == capacity_flow(*old(run), stage, reply, *old(ledger)),
        capacity_ledger(
            *old(run),
            stage,
            reply,
            at@,
            *old(ledger),
            *final(ledger),
            *final(run),
        ),
        capacity_notes(*old(run), stage, reply, *final(run)),
{
    match (stage, reply) {
        (CapacityStage::Cancel, CapacityReply::Done) => {
            match mark_cancellation_accepted(
                ledger,
                run.repo.as_str(),
                run.run_id,
                run.head.as_str(),
                run.front.as_str(),
                at,
            ) {
                Ok(_) => Flow::Next(CapacityStage::SaveAccepted),
                Err(error) => Flow::Report(
                    MutationReport::both(
                        "cancelled_after_job_revalidation",
                        concat(
                            "cancel accepted but pending recovery persistence failed: ",
                            error.as_str(),
                        ),
                    ),
                ),
            }
        },
        (CapacityStage::Cancel, CapacityReply::Failed(error)) => Flow::Report(
            MutationReport::failed(error),
        ),
        (CapacityStage::SaveAccepted, CapacityReply::Done) => Flow::Next(
            CapacityStage::FinishAccepted,
        ),
        (CapacityStage::SaveAccepted, CapacityReply::Failed(error)) => Flow::Report(
            MutationReport::both(
                "cancelled_after_job_revalidation",
                concat(
                    "cancel accepted but pending recovery persistence failed: ",
                    error.as_str(),
                ),
            ),
        ),
        (CapacityStage::FinishAccepted, CapacityReply::Done) => {
            audit_completed_preemption(run, ledger, at);
            Flow::Next(CapacityStage::SaveCompletion)
        },
        (CapacityStage::FinishAccepted, CapacityReply::Failed(error)) => Flow::Report(
            MutationReport::both(
                "cancelled_after_job_revalidation",
                concat("cancel accepted but mutation audit failed: ", error.as_str()),
            ),
        ),
        _ => Flow::Next(stage),
    }
}

/// Waits for the run to end.
pub fn complete_capacity_cancellation(
    run: &mut CapacityRun,
    stage: CapacityStage,
    reply: CapacityReply,
    ledger: &mut StewardLedger,
    at: &str,
) -> (r: Flow<CapacityStage>)
    requires
        stage is SaveCompletion || stage is Wait || stage is SaveTerminal || stage is SaveUnreadable,
    ensures
        r@ == capacity_flow(*old(run), stage, reply, *old(ledger)),
        capacity_ledger(
            *old(run),
            stage,
            reply,
            at@,
            *old(ledger),
            *final(ledger),
            *final(run),
        ),
        capacity_notes(*old(run), stage, reply, *final(run)),
{
    match (stage, reply) {
        (CapacityStage::SaveCompletion, CapacityReply::Done) => Flow::Next(CapacityStage::Wait),
        (CapacityStage::SaveCompletion, CapacityReply::Failed(error)) => Flow::Report(
            MutationReport::both(
                "cancelled_after_job_revalidation",
                concat("cancel accepted but completion audit failed: ", error.as_str()),
            ),
        ),
        (CapacityStage::Wait, CapacityReply::Ended) => {
            match clear_pending_for_run(
                ledger,
                run.repo.as_str(),
                run.run_id,
                "capacity_preemption_terminalized",
                at,
            ) {
                Ok((key, record)) => {
                    proof {
                        let i = choose|i: int| #[trigger]
                            first_of_run(
                                old(ledger).pending_cancellations.values(),
                                run.repo@,
                                run.run_id,
                                i,
                            ) && old(ledger).pending_cancellations.keys()[i] == key@
                                && old(ledger).pending_cancellations.values()[i] == record;
                        let values = old(ledger).pending_cancellations.values();
                        assert(values[i].repo@ == run.repo@);
                    }
                    run.cleared = Some((key, record));
                    Flow::Next(CapacityStage::SaveTerminal)
                },
                Err(error) => Flow::Report(
                    MutationReport::both(
                        "cancelled_terminal",
                        concat(
                            "cancel terminalized but completion audit failed: ",
                            error.as_str(),
                        ),
                    ),
                ),
            }
        },
        (CapacityStage::Wait, CapacityReply::Running) => Flow::Next(CapacityStage::Force),
        (CapacityStage::Wait, CapacityReply::Failed(error)) => {
            run.held = error;
            audit_capacity_run(
                ledger,
                run.repo.as_str(),
                run.run_id,
                "cancel_terminalization_unreadable",
                at,
            );
            Flow::Next(CapacityStage::SaveUnreadable)
        },
        (CapacityStage::SaveTerminal, CapacityReply::Done) => Flow::Report(
            MutationReport::done("cancelled_terminal"),
        ),
        (CapacityStage::SaveTerminal, CapacityReply::Failed(error)) => {
            let inner = concat(
                "could not persist terminal pending-cancellation state: ",
                error.as_str(),
            );
            restore_cleared(run, ledger, error);
            Flow::Report(
                MutationReport::both(
                    "cancelled_terminal",
                    concat("cancel terminalized but completion audit failed: ", inner.as_str()),
                ),
            )
        },
        (CapacityStage::SaveUnreadable, CapacityReply::Done) | (
            CapacityStage::SaveUnreadable,
            CapacityReply::Failed(_),
        ) => Flow::Report(
            MutationReport::both(
                "cancel_terminalization_unreadable",
                concat(
                    "cancel accepted but terminalization could not be verified: ",
                    run.held.as_str(),
                ),
            ),
        ),
        _ => Flow::Next(stage),
    }
}

/// Takes one step of a capacity preemption.
pub fn apply_capacity_preemption(
    run: &mut CapacityRun,
    stage: CapacityStage,
    reply: CapacityReply,
    ledger: &mut StewardLedger,
    at: &str,
) -> (r: Flow<CapacityStage>)
    ensures
        r@ == capacity_flow(*old(run), stage, reply, *old(ledger)),
        capacity_ledger(
            *old(run),
            stage,
            reply,
            at@,
            *old(ledger),
            *final(ledger),
            *final(run),
        ),
        capacity_notes(*old(run), stage, reply, *final(run)),
{
    match stage {
        CapacityStage::Precancel | CapacityStage::SavePrecancel => prepare_capacity_preemption(
            run,
            stage,
            reply,
            ledger,
            at,
        ),
        CapacityStage::Attempt | CapacityStage::SaveAttempt | CapacityStage::Final => {
            cancel_capacity_preemption_after_revalidation(run, stage, reply, ledger, at)
        },
        CapacityStage::Cancel | CapacityStage::SaveAccepted | CapacityStage::FinishAccepted => {
            finish_accepted_capacity_preemption(run, stage, reply, ledger, at)
        },
        CapacityStage::SaveCompletion | CapacityStage::Wait | CapacityStage::SaveTerminal
        | CapacityStage::SaveUnreadable => complete_capacity_cancellation(
            run,
            stage,
            reply,
            ledger,
            at,
        ),
        CapacityStage::SaveSkip(_) | CapacityStage::FinishSkip(_) | CapacityStage::SaveCleared(
            _,
        ) => skip_after_attempt_revalidation(run, stage, reply, ledger, at),
        CapacityStage::Force => Flow::Next(stage),
    }
}

/// Audits that an accepted preemption is complete.
fn audit_completed_preemption(run: &CapacityRun, ledger: &mut StewardLedger, at: &str)
    ensures
        audited_once(
            *old(ledger),
            *final(ledger),
            AuditTexts {
                at: at@,
                repo: run.repo@,
                subject: front_subject(run.front@, run.run_id, run.head@),
                action: "capacity_preemption_accepted:"@ + run.reason.code(),
            },
        ),
{
    let mut subject: String = concat3("front:", run.front.as_str(), ":capacity-run:");
    subject.append(to_decimal(run.run_id).as_str());
    subject.append(":");
    subject.append(run.head.as_str());
    let action = concat("capacity_preemption_accepted:", crate::pending::reason_code(run.reason));
    record_audit(ledger, at, run.repo.as_str(), subject.as_str(), action.as_str());
}

/// A cancellation is sent only for an advisory preamble, after the run was read
/// three times and what was read was saved twice.
pub proof fn cancellation_needs_three_reads(
    run: CapacityRun,
    stage: CapacityStage,
    reply: CapacityReply,
    ledger: StewardLedger,
    next: CapacityStage,
)
    requires
        capacity_flow(run, stage, reply, ledger) == FlowView::Next(next),
        next != stage,
    ensures
        next == CapacityStage::Cancel ==> stage == CapacityStage::Final && reply is Qualified,
        next == CapacityStage::Final ==> stage == CapacityStage::SaveAttempt && reply is Done
            && run.reason == RunCancellationReason::AdvisoryPreambleCapacityTheft,
        next == CapacityStage::SaveAttempt ==> stage == CapacityStage::Attempt && reply
            is Qualified,
        next == CapacityStage::Attempt ==> stage == CapacityStage::SavePrecancel && reply is Done,
        next == CapacityStage::SavePrecancel ==> stage == CapacityStage::Precancel && reply
            is Qualified,
{
}

/// Begins a preemption: the planned run must have been observed, and the queue
/// must have a front.
pub fn begin_capacity_preemption(observed: bool, front: bool) -> (r: Option<MutationReport>)
    ensures
        match r {
            None => observed && front,
            Some(report) => if !observed {
                report.texts() == (
                    None::<Seq<char>>,
                    Some("planned run observation disappeared"@),
                )
            } else {
                !front && report.texts() == (
                    Some("skipped_after_front_revalidation"@),
                    None::<Seq<char>>,
                )
            },
        },
{
    if !observed {
        return Some(MutationReport::failed("planned run observation disappeared".to_owned()));
    }
    if !front {
        return Some(MutationReport::done("skipped_after_front_revalidation"));
    }
    None
}

proof fn outcome_names_differ()
    ensures
        "cancelled_terminal"@ != accepted_label(),
        "cancelled_terminal"@ != "cancel_terminalization_unreadable"@,
        "cancelled_terminal"@ != SkipPoint::Precancel.name(),
        "cancelled_terminal"@ != SkipPoint::Attempt.name(),
        SkipPoint::Precancel.name() != SkipPoint::Attempt.name(),
        accepted_label() != SkipPoint::Precancel.name(),
        accepted_label() != SkipPoint::Attempt.name(),
        accepted_label() != "cancel_terminalization_unreadable"@,
        "cancel_terminalization_unreadable"@ != SkipPoint::Precancel.name(),
        "cancel_terminalization_unreadable"@ != SkipPoint::Attempt.name(),
{
    reveal_strlit("cancelled_terminal");
    reveal_strlit("cancelled_after_job_revalidation");
    reveal_strlit("cancel_terminalization_unreadable");
    reveal_strlit("skipped_after_precancel_revalidation");
    reveal_strlit("skipped_after_attempt_revalidation");
    assert("cancelled_terminal"@.len() == 18);
    assert("cancelled_after_job_revalidation"@.len() == 32);
    assert("cancel_terminalization_unreadable"@.len() == 33);
    assert("skipped_after_precancel_revalidation"@.len() == 36);
    assert("skipped_after_attempt_revalidation"@.len() == 34);
}

/// A run is told as terminated only where it was seen to have ended, and a run that
/// keeps running after the wait is always cancelled by force.
pub proof fn only_an_ended_run_is_told_as_terminated(
    run: CapacityRun,
    stage: CapacityStage,
    reply: CapacityReply,
    ledger: StewardLedger,
)
    ensures
        ends_as(capacity_flow(run, stage, reply, ledger), "cancelled_terminal"@) ==> stage
            == CapacityStage::SaveTerminal || (stage == CapacityStage::Wait && reply is Ended),
        capacity_flow(run, stage, reply, ledger) == FlowView::Next(CapacityStage::SaveTerminal)
            && stage != CapacityStage::SaveTerminal ==> stage == CapacityStage::Wait && reply
            is Ended,
        stage == CapacityStage::Wait && reply is Ended ==> capacity_flow(run, stage, reply, ledger)
            == FlowView::Next(CapacityStage::SaveTerminal) || ends_as(
            capacity_flow(run, stage, reply, ledger),
            "cancelled_terminal"@,
        ),
        stage == CapacityStage::Wait && reply is Running ==> capacity_flow(
            run,
            stage,
            reply,
            ledger,
        ) == FlowView::Next(CapacityStage::Force),
        stage != CapacityStage::Force && capacity_flow(run, stage, reply, ledger)
            == FlowView::Next(CapacityStage::Force) ==> stage == CapacityStage::Wait && reply
            is Running,
        stage == CapacityStage::SaveTerminal && (reply is Done || reply is Failed) ==> ends_as(
            capacity_flow(run, stage, reply, ledger),
            "cancelled_terminal"@,
        ),
{
    outcome_names_differ();
}

/// How many steps lie between a step and the wait for the run's end, where every reply
/// is favourable.
pub open spec fn steps_to_the_wait(stage: CapacityStage) -> Option<nat> {
    match stage {
        CapacityStage::Precancel => Some(9),
        CapacityStage::SavePrecancel => Some(8),
        CapacityStage::Attempt => Some(7),
        CapacityStage::SaveAttempt => Some(6),
        CapacityStage::Final => Some(5),
        CapacityStage::Cancel => Some(4),
        CapacityStage::SaveAccepted => Some(3),
        CapacityStage::FinishAccepted => Some(2),
        CapacityStage::SaveCompletion => Some(1),
        CapacityStage::Wait => Some(0),
        _ => None,
    }
}

/// Whether a step reads the run again.
pub open spec fn reads_the_run(stage: CapacityStage) -> bool {
    stage == CapacityStage::Precancel || stage == CapacityStage::Attempt || stage
        == CapacityStage::Final
}

/// A preemption of an advisory preamble whose record is kept goes one step on towards
/// the wait for the run's end after every favourable reply: a run that still qualifies
/// where it is read, and a step that was done elsewhere. So a run that qualifies at
/// every read is cancelled and watched.
pub proof fn a_qualifying_run_is_cancelled(
    run: CapacityRun,
    stage: CapacityStage,
    reply: CapacityReply,
    ledger: StewardLedger,
)
    requires
        run.reason == RunCancellationReason::AdvisoryPreambleCapacityTheft,
        ledger.pending_cancellations@.dom().contains(
            pending_key_text(run.repo@, run.run_id, run.head@, run.front@),
        ),
        steps_to_the_wait(stage) matches Some(left) && left > 0,
        if reads_the_run(stage) {
            reply is Qualified
        } else {
            reply is Done
        },
    ensures
        capacity_flow(run, stage, reply, ledger) matches FlowView::Next(next)
            && steps_to_the_wait(next) == Some((steps_to_the_wait(stage)->Some_0 - 1) as nat),
{
}

/// A run that no longer qualifies is not cancelled: where its record is kept, the record
/// is marked, the skip is told under its own name once the record was removed, and
/// nothing else is told as a skip.
pub proof fn a_disqualified_run_is_skipped(
    run: CapacityRun,
    stage: CapacityStage,
    reply: CapacityReply,
    ledger: StewardLedger,
    point: SkipPoint,
)
    ensures
        reads_the_run(stage) && reply is Disqualified
            && ledger.pending_cancellations@.dom().contains(run.key@) ==> capacity_flow(
            run,
            stage,
            reply,
            ledger,
        ) == FlowView::Next(
            CapacityStage::SaveSkip(
                if stage == CapacityStage::Precancel {
                    SkipPoint::Precancel
                } else {
                    SkipPoint::Attempt
                },
            ),
        ),
        reads_the_run(stage) && reply is Disqualified
            && !ledger.pending_cancellations@.dom().contains(run.key@) ==> !ends_well(
            capacity_flow(run, stage, reply, ledger),
        ) && !(capacity_flow(run, stage, reply, ledger) is Next),
        ends_as(capacity_flow(run, stage, reply, ledger), point.name()) <==> stage
            == CapacityStage::SaveCleared(point) && reply is Done,
        stage == CapacityStage::SaveSkip(point) && reply is Done ==> capacity_flow(
            run,
            stage,
            reply,
            ledger,
        ) == FlowView::Next(CapacityStage::FinishSkip(point)),
        stage == CapacityStage::FinishSkip(point) && reply is Done
            && ledger.pending_cancellations@.dom().contains(run.key@) ==> capacity_flow(
            run,
            stage,
            reply,
            ledger,
        ) == FlowView::Next(CapacityStage::SaveCleared(point)),
        stage != CapacityStage::SaveCleared(point) && capacity_flow(run, stage, reply, ledger)
            == FlowView::Next(CapacityStage::SaveCleared(point)) ==> stage
            == CapacityStage::FinishSkip(point) && reply is Done,
{
    outcome_names_differ();
}

/// A preemption is told without an error only where its record was removed and saved
/// without: after the run ended, or after a skip.
pub proof fn success_is_told_only_at_the_end(
    run: CapacityRun,
    stage: CapacityStage,
    reply: CapacityReply,
    ledger: StewardLedger,
)
    ensures
        ends_well(capacity_flow(run, stage, reply, ledger)) <==> reply is Done && (stage
            == CapacityStage::SaveTerminal || stage is SaveCleared),
{
}

/// What fails is told: a reply of failure ends the preemption with an error that ends
/// with it, but for a wait that failed, whose failure is recorded first and told then.
pub proof fn failures_are_told(
    run: CapacityRun,
    stage: CapacityStage,
    error: String,
    ledger: StewardLedger,
)
    ensures
        ({
            let flow = capacity_flow(run, stage, CapacityReply::Failed(error), ledger);
            if stage == CapacityStage::Wait {
                flow == FlowView::Next(CapacityStage::SaveUnreadable)
            } else if stage == CapacityStage::SaveUnreadable {
                ends_with_error(flow, run.held@) && ends_as(
                    flow,
                    "cancel_terminalization_unreadable"@,
                )
            } else if stage == CapacityStage::Force {
                flow == FlowView::Next(stage)
            } else {
                ends_with_error(flow, error@)
            }
        }),
        ends_with_error(
            capacity_flow(run, CapacityStage::SaveUnreadable, CapacityReply::Done, ledger),
            run.held@,
        ),
{
    let e = error@;
    ends_with_its_end("could not persist final preemption evidence: "@, e);
    ends_with_its_end("cancel accepted but pending recovery persistence failed: "@, e);
    ends_with_its_end("cancel accepted but mutation audit failed: "@, e);
    ends_with_its_end("cancel accepted but completion audit failed: "@, e);
    ends_with_its_end("mutation audit failed: "@, e);
    ends_with_its_end("could not persist terminal pending-cancellation state: "@, e);
    ends_with_the_last(
        "cancel terminalized but completion audit failed: "@,
        "could not persist terminal pending-cancellation state: "@,
        e,
    );
    ends_with_its_end(
        "cancel accepted but terminalization could not be verified: "@,
        run.held@,
    );
}

/// Once the provider accepted a cancellation, whatever fails before the wait is told
/// with the cancellation, and before that nothing is told as cancelled.
pub proof fn accepted_cancellations_are_told(
    run: CapacityRun,
    stage: CapacityStage,
    reply: CapacityReply,
    ledger: StewardLedger,
)
    ensures
        reply is Failed && (stage == CapacityStage::SaveAccepted || stage
            == CapacityStage::FinishAccepted || stage == CapacityStage::SaveCompletion)
            ==> ends_as(capacity_flow(run, stage, reply, ledger), accepted_label()),
        ends_as(capacity_flow(run, stage, reply, ledger), accepted_label()) ==> !ends_well(
            capacity_flow(run, stage, reply, ledger),
        ) && (reply is Failed && (stage == CapacityStage::SaveAccepted || stage
            == CapacityStage::FinishAccepted || stage == CapacityStage::SaveCompletion) || (stage
            == CapacityStage::Cancel && reply is Done)),
{
    outcome_names_differ();
}

/// A record of a preemption goes only once its run has ended or it was skipped, comes back
/// only where that could not be saved, is marked as accepted only by an accepted request
/// and as skipped only where the run no longer qualified; a run that still runs when the
/// wait is over, and every other reply, leaves the records as they are.
pub proof fn a_record_goes_only_with_its_run(
    run: CapacityRun,
    stage: CapacityStage,
    reply: CapacityReply,
    at: Seq<char>,
    before: StewardLedger,
    after: StewardLedger,
    run_after: CapacityRun,
    key: Seq<char>,
)
    requires
        capacity_ledger(run, stage, reply, at, before, after, run_after),
    ensures
        ({
            let old_map = before.pending_cancellations@;
            let new_map = after.pending_cancellations@;
            let restores = reply is Failed && (stage is SaveTerminal || stage is SaveCleared);
            &&& old_map.dom().contains(key) && !new_map.dom().contains(key) ==> (stage is Wait
                && reply is Ended) || (stage is FinishSkip && reply is Done)
            &&& new_map.dom().contains(key) && !old_map.dom().contains(key) ==> restores
            &&& !restores && old_map.dom().contains(key) && new_map.dom().contains(key) ==> {
                &&& new_map[key].phase != old_map[key].phase && new_map[key].phase
                    == PendingCancellationPhase::Accepted ==> stage is Cancel && reply is Done
                &&& new_map[key].phase != old_map[key].phase && new_map[key].phase
                    == PendingCancellationPhase::Skipped ==> reply is Disqualified || stage
                    is SaveAttempt
                &&& new_map[key].phase != PendingCancellationPhase::Intent || old_map[key].phase
                    == PendingCancellationPhase::Intent
                &&& new_map[key].run_id == old_map[key].run_id
            }
            &&& stage is Wait && reply is Running ==> after == before
            &&& stage is Wait && reply is Failed ==> new_map == old_map
            &&& after.preemption_attempts == before.preemption_attempts && after.transient_attempts
                == before.transient_attempts && after.terminal_handoffs == before.terminal_handoffs
                && after.queue_witnesses == before.queue_witnesses && after.queue_recovery_receipts
                == before.queue_recovery_receipts
        }),
{
    let new_map = after.pending_cancellations@;
    let old_map = before.pending_cancellations@;
    if old_map.dom().contains(key) && new_map.dom().contains(key) {
        assert(new_map[key]@.phase == new_map[key].phase && new_map[key]@.run_id
            == new_map[key].run_id);
        assert(old_map[key]@.phase == old_map[key].phase && old_map[key]@.run_id
            == old_map[key].run_id);
    }
}

/// An accepted request marks its record, an ended run takes its record away and remembers
/// it, and what could not be saved is put back as it was remembered.
pub proof fn a_record_follows_its_run(
    run: CapacityRun,
    stage: CapacityStage,
    reply: CapacityReply,
    at: Seq<char>,
    before: StewardLedger,
    after: StewardLedger,
    run_after: CapacityRun,
)
    requires
        capacity_ledger(run, stage, reply, at, before, after, run_after),
    ensures
        ({
            let key = pending_key_text(run.repo@, run.run_id, run.head@, run.front@);
            stage is Cancel && reply is Done && before.pending_cancellations@.dom().contains(key)
                ==> after.pending_cancellations@.dom().contains(key)
                && after.pending_cancellations@[key].phase == PendingCancellationPhase::Accepted
        }),
        stage is Wait && reply is Ended && run_pending(
            before.pending_cancellations.values(),
            run.repo@,
            run.run_id,
        ) ==> (run_after.cleared matches Some((key, record))
            && !after.pending_cancellations@.dom().contains(key@) && record.run_id == run.run_id
            && record.repo@ == run.repo@),
        reply is Failed && stage is SaveTerminal ==> (run.cleared matches Some((key, record))
            ==> after.pending_cancellations@.dom().contains(key@)
            && after.pending_cancellations@[key@] == record),
        reply is Disqualified && (stage is Precancel || stage is Attempt || stage is Final)
            && before.pending_cancellations@.dom().contains(run.key@)
            ==> after.pending_cancellations@[run.key@].phase == PendingCancellationPhase::Skipped,
{
    let key = pending_key_text(run.repo@, run.run_id, run.head@, run.front@);
    if stage is Cancel && reply is Done && before.pending_cancellations@.dom().contains(key) {
        assert(after.pending_cancellations@[key]@.phase == PendingCancellationPhase::Accepted);
    }
    if reply is Disqualified && (stage is Precancel || stage is Attempt || stage is Final)
        && before.pending_cancellations@.dom().contains(run.key@) {
        assert(after.pending_cancellations@[run.key@]@.phase == PendingCancellationPhase::Skipped);
    }
}

} // verus!
