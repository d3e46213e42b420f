//! Putting a pull request into the merge queue.
//!
//! One guarded transaction: every authority is read again right before the
//! request, and a request that jumps the queue follows a receipt that was saved.
use vstd::prelude::*;

use crate::guard::{ends_with_its_end, Closing, Verdict};
use crate::json::{json_of, parse_json, Json, JsonTree};
use crate::ledger::{
    audited, record_audit, AuditTexts, QueueRecoveryPhase, QueueRecoveryReceipt, StewardLedger,
};
use crate::model::{ObservedPr, StewardDecision};
use crate::queue_recovery::{receipt_key, receipt_key_text, QueueRecoveryEvidence};
use crate::text::{
    concat, concat3, decimal, eq_ignore_case, has_suffix, same_ignoring_case, to_decimal, views,
};

verus! {

/// What the transaction does next.
#[derive(Clone, Copy, Debug, PartialEq, Eq, Structural)]
pub enum EnqueueStage {
    /// Read the pull request again.
    FinalRevalidation,
    /// Read the evidence for a restored priority again.
    RecoveryEvidence,
    /// Read the pull request again, after the evidence.
    ManagementAuthority,
    /// Read the final state of the base and the queue.
    MutableAuthority,
    /// Save the receipt of the attempt.
    PersistReceipt,
    /// Read the pull request again, after the receipt.
    ReceiptAuthority,
    /// Read the final state again, after the receipt.
    ReceiptMutableAuthority,
    /// Send the request.
    Send,
    /// Record that the request was accepted.
    FinishAccepted,
    /// Save the receipt of the accepted request.
    PersistAccepted,
}

/// Where the transaction stands.
#[derive(Debug)]
pub struct EnqueueState {
    pub stage: EnqueueStage,
    /// The pull request that is put into the queue.
    pub pr: ObservedPr,
    /// The pull request as it was read last, where that was later.
    pub latest: Option<ObservedPr>,
    /// Why the pull request may jump the queue.
    pub recovery: Option<QueueRecoveryEvidence>,
}

/// What came of a step.
#[derive(Debug)]
pub enum EnqueueReply {
    /// The pull request, where it may still be put into the queue.
    Revalidated(Result<Option<ObservedPr>, String>),
    /// The evidence for a restored priority.
    Evidence(Result<Option<QueueRecoveryEvidence>, String>),
    /// Whether the final state still authorises the request.
    Authority(Result<bool, String>),
    /// The ledger was saved, or why not.
    Saved(Result<(), String>),
    /// The response to the request.
    Response(String),
    /// The request was refused, and whether only for requirements that are
    /// still pending.
    Refused { message: String, requirements_pending: bool },
    /// The outcome was recorded, or why not.
    Finished(Result<(), String>),
}

/// What the transaction does after a reply.
#[derive(Debug)]
pub enum EnqueueStep {
    Continue(EnqueueState),
    /// The guard is finished, and the transaction is over.
    Close(Closing),
    /// The transaction is over and leaves its guard as it is.
    Report(Verdict),
}

/// Whether a response shows that the pull request is in the queue.
pub open spec fn accepted(response: JsonTree) -> bool {
    &&& response.at(seq!["data"@, "enqueuePullRequest"@, "mergeQueueEntry"@]) matches Some(entry)
        && !(entry is Null)
    &&& response.field("errors"@) is None
}

/// Whether a response shows that the pull request is in the queue.
pub fn enqueue_accepted(response: &Json) -> (r: bool)
    ensures
        r == accepted(response@),
{
    let entry = match response.get3("data", "enqueuePullRequest", "mergeQueueEntry") {
        Some(entry) => !entry.is_null(),
        None => false,
    };
    entry && response.get("errors").is_none()
}

/// Whether the text of a response shows that the pull request is in the queue.
pub open spec fn accepted_text(raw: Seq<char>) -> bool {
    json_of(raw) matches Ok(response) && accepted(response)
}

/// Whether the text of a response shows that the pull request is in the queue.
pub fn response_accepted(raw: &str) -> (r: bool)
    ensures
        r == accepted_text(raw@),
{
    match parse_json(raw) {
        Ok(response) => enqueue_accepted(&response),
        Err(_) => false,
    }
}

/// What follows a read of the pull request.
pub open spec fn after_revalidation(
    reply: Result<Option<ObservedPr>, String>,
    next: spec_fn(ObservedPr) -> EnqueueState,
    skipped: &'static str,
    audit_prefix: &'static str,
    failed: &'static str,
) -> EnqueueStep {
    match reply {
        Ok(Some(pr)) => EnqueueStep::Continue(next(pr)),
        Ok(None) => EnqueueStep::Close(
            Closing::Skip { outcome: skipped, label: skipped, audit_prefix },
        ),
        Err(error) => EnqueueStep::Close(
            Closing::Fail { outcome: failed, mutation: None, prefix: "", error },
        ),
    }
}

/// What follows a read of the final state.
pub open spec fn after_authority(
    reply: Result<bool, String>,
    next: EnqueueState,
    skipped: &'static str,
    audit_prefix: &'static str,
    failed: &'static str,
) -> EnqueueStep {
    match reply {
        Ok(true) => EnqueueStep::Continue(next),
        Ok(false) => EnqueueStep::Close(
            Closing::Skip { outcome: skipped, label: skipped, audit_prefix },
        ),
        Err(error) => EnqueueStep::Close(
            Closing::Fail { outcome: failed, mutation: None, prefix: "", error },
        ),
    }
}

/// What the transaction does after a reply. A reply that belongs to another
/// stage changes nothing.
pub open spec fn enqueue_step(state: EnqueueState, reply: EnqueueReply) -> EnqueueStep {
    match (state.stage, reply) {
        (EnqueueStage::FinalRevalidation, EnqueueReply::Revalidated(read)) => after_revalidation(
            read,
            |pr: ObservedPr|
                EnqueueState {
                    stage: if state.recovery is Some {
                        EnqueueStage::RecoveryEvidence
                    } else {
                        EnqueueStage::Send
                    },
                    pr,
                    ..state
                },
            "skipped_after_final_live_revalidation",
            "enqueue skip mutation audit failed: ",
            "final_live_revalidation_failed",
        ),
        (EnqueueStage::RecoveryEvidence, EnqueueReply::Evidence(read)) => match read {
            Ok(found) => if found matches Some(live) && state.recovery matches Some(observed)
                && live.agrees(observed) {
                EnqueueStep::Continue(
                    EnqueueState { stage: EnqueueStage::ManagementAuthority, ..state },
                )
            } else {
                EnqueueStep::Close(
                    Closing::Skip {
                        outcome: "skipped_after_final_recovery_revalidation",
                        label: "skipped_after_final_recovery_revalidation",
                        audit_prefix: "recovery skip mutation audit failed: ",
                    },
                )
            },
            Err(error) => EnqueueStep::Close(
                Closing::Fail {
                    outcome: "final_recovery_revalidation_failed",
                    mutation: None,
                    prefix: "",
                    error,
                },
            ),
        },
        (EnqueueStage::ManagementAuthority, EnqueueReply::Revalidated(read)) => after_revalidation(
            read,
            |pr: ObservedPr|
                EnqueueState {
                    stage: EnqueueStage::MutableAuthority,
                    latest: Some(pr),
                    ..state
                },
            "skipped_after_final_management_authority",
            "management skip mutation audit failed: ",
            "final_management_authority_failed",
        ),
        (EnqueueStage::MutableAuthority, EnqueueReply::Authority(read)) => after_authority(
            read,
            EnqueueState { stage: EnqueueStage::PersistReceipt, ..state },
            "skipped_after_final_mutable_authority",
            "authority skip mutation audit failed: ",
            "final_mutable_authority_failed",
        ),
        (EnqueueStage::PersistReceipt, EnqueueReply::Saved(saved)) => match saved {
            Ok(_) => EnqueueStep::Continue(
                EnqueueState { stage: EnqueueStage::ReceiptAuthority, ..state },
            ),
            Err(error) => EnqueueStep::Close(
                Closing::Fail {
                    outcome: "recovery_receipt_persistence_failed",
                    mutation: None,
                    prefix: "could not persist queue-recovery receipt: ",
                    error,
                },
            ),
        },
        (EnqueueStage::ReceiptAuthority, EnqueueReply::Revalidated(read)) => after_revalidation(
            read,
            |pr: ObservedPr|
                EnqueueState {
                    stage: EnqueueStage::ReceiptMutableAuthority,
                    latest: Some(pr),
                    ..state
                },
            "skipped_after_recovery_receipt_authority",
            "post-receipt skip mutation audit failed: ",
            "recovery_receipt_authority_failed",
        ),
        (EnqueueStage::ReceiptMutableAuthority, EnqueueReply::Authority(read)) => after_authority(
            read,
            EnqueueState { stage: EnqueueStage::Send, ..state },
            "skipped_after_recovery_receipt_mutable_authority",
            "post-receipt authority audit failed: ",
            "recovery_receipt_mutable_authority_failed",
        ),
        (EnqueueStage::Send, EnqueueReply::Response(raw)) => if accepted_text(raw@) {
            EnqueueStep::Continue(EnqueueState { stage: EnqueueStage::FinishAccepted, ..state })
        } else {
            EnqueueStep::Close(
                Closing::Fail {
                    outcome: "rejected",
                    mutation: None,
                    prefix: "GitHub enqueue returned no mergeQueueEntry: ",
                    error: raw,
                },
            )
        },
        (EnqueueStage::Send, EnqueueReply::Refused { message, requirements_pending }) => if requirements_pending {
            EnqueueStep::Close(
                Closing::Skip {
                    outcome: "rejected_requirements",
                    label: "waiting_enqueue_requirements",
                    audit_prefix: "enqueue requirements rejected but mutation audit failed: ",
                },
            )
        } else {
            EnqueueStep::Report(Verdict { mutation: None, prefix: "", error: Some(message) })
        },
        (EnqueueStage::FinishAccepted, EnqueueReply::Finished(finished)) => match finished {
            Ok(_) => if state.recovery is Some {
                EnqueueStep::Continue(
                    EnqueueState { stage: EnqueueStage::PersistAccepted, ..state },
                )
            } else {
                EnqueueStep::Report(Verdict { mutation: Some("enqueued"), prefix: "", error: None })
            },
            Err(error) => EnqueueStep::Report(
                Verdict {
                    mutation: Some("enqueued"),
                    prefix: "enqueue succeeded but mutation audit failed: ",
                    error: Some(error),
                },
            ),
        },
        (EnqueueStage::PersistAccepted, EnqueueReply::Saved(saved)) => EnqueueStep::Report(
            Verdict {
                mutation: Some("enqueued_priority_restored"),
                prefix: "priority restoration succeeded but receipt persistence failed: ",
                error: match saved {
                    Ok(_) => None,
                    Err(error) => Some(error),
                },
            },
        ),
        _ => EnqueueStep::Continue(state),
    }
}

/// What the receipt of an attempt records.
pub open spec fn is_receipt_of(
    receipt: QueueRecoveryReceipt,
    state: EnqueueState,
    repo: Seq<char>,
    base: Seq<char>,
    at: Seq<char>,
    phase: QueueRecoveryPhase,
) -> bool {
    &&& state.recovery matches Some(evidence)
    &&& receipt.repo@ == repo
    &&& receipt.base@ == base
    &&& receipt.pr_number == state.pr.fact.number
    &&& receipt.pr_head@ == state.pr.fact.head_sha@
    &&& receipt.base_sha@ == evidence.base_sha@
    &&& receipt.merge_group_head@ == evidence.merge_group_head@
    &&& receipt.removed_at@ == evidence.removed_at@
    &&& receipt.run_id == evidence.run_id
    &&& receipt.job_id == evidence.job_id
    &&& receipt.attempted_at@ == at
    &&& receipt.phase == phase
}

/// The audit subject of a pull request.
pub open spec fn pr_subject(number: u64, head: Seq<char>) -> Seq<char> {
    "pr:"@ + decimal(number as nat) + ":"@ + head
}

/// The audit subject of a pull request.
pub fn pr_audit_subject(number: u64, head: &str) -> (r: String)
    ensures
        r@ == pr_subject(number, head@),
{
    let mut out: String = concat3("pr:", to_decimal(number).as_str(), ":");
    out.append(head);
    out
}

/// Whether two ledgers differ at most in their restoration receipts and their
/// audit trail.
pub open spec fn same_but_receipts(before: StewardLedger, after: StewardLedger) -> bool {
    &&& after.transient_attempts == before.transient_attempts
    &&& after.preemption_attempts == before.preemption_attempts
    &&& after.pending_cancellations == before.pending_cancellations
    &&& after.queue_witnesses == before.queue_witnesses
    &&& after.terminal_handoffs == before.terminal_handoffs
}

/// What a reply does to the ledger: an authorised attempt to restore a priority
/// leaves its receipt, an accepted request is audited and its receipt says so,
/// and nothing else changes anything.
pub open spec fn enqueue_ledger(
    state: EnqueueState,
    reply: EnqueueReply,
    repo: Seq<char>,
    base: Seq<char>,
    at: Seq<char>,
    before: StewardLedger,
    after: StewardLedger,
) -> bool {
    match (state.stage, reply, state.recovery) {
        (
            EnqueueStage::MutableAuthority,
            EnqueueReply::Authority(Ok(true)),
            Some(evidence),
        ) => {
            let key = receipt_key_text(evidence);
            let map = after.queue_recovery_receipts@;
            &&& same_but_receipts(before, after)
            &&& after.audits() == before.audits()
            &&& map.dom().contains(key)
            &&& map == before.queue_recovery_receipts@.insert(key, map[key])
            &&& is_receipt_of(map[key], state, repo, base, at, QueueRecoveryPhase::Intent)
        },
        (EnqueueStage::FinishAccepted, EnqueueReply::Finished(Ok(_)), recovery) => {
            &&& same_but_receipts(before, after)
            &&& after.audits() == audited(
                before.audits(),
                AuditTexts {
                    at,
                    repo,
                    subject: pr_subject(state.pr.fact.number, state.pr.fact.head_sha@),
                    action: if recovery is Some {
                        "enqueue_exact_head_jump_hosted_setup_eviction"@
                    } else {
                        "enqueue_exact_head"@
                    },
                },
            )
            &&& match recovery {
                Some(evidence) => {
                    let key = receipt_key_text(evidence);
                    if before.queue_recovery_receipts@.dom().contains(key) {
                        let map = after.queue_recovery_receipts@;
                        &&& map.dom().contains(key)
                        &&& map == before.queue_recovery_receipts@.insert(key, map[key])
                        &&& is_accepted_form(before.queue_recovery_receipts@[key], map[key])
                    } else {
                        after.queue_recovery_receipts@ == before.queue_recovery_receipts@
                    }
                },
                None => after.queue_recovery_receipts@ == before.queue_recovery_receipts@,
            }
        },
        _ => after == before,
    }
}

/// Whether one receipt is another with its phase set to accepted.
pub open spec fn is_accepted_form(before: QueueRecoveryReceipt, after: QueueRecoveryReceipt) -> bool {
    &&& after.repo@ == before.repo@
    &&& after.base@ == before.base@
    &&& after.pr_number == before.pr_number
    &&& after.pr_head@ == before.pr_head@
    &&& after.base_sha@ == before.base_sha@
    &&& after.merge_group_head@ == before.merge_group_head@
    &&& after.removed_at@ == before.removed_at@
    &&& after.run_id == before.run_id
    &&& after.job_id == before.job_id
    &&& after.attempted_at@ == before.attempted_at@
    &&& after.phase == QueueRecoveryPhase::Accepted
}

fn accepted_form(receipt: &QueueRecoveryReceipt) -> (r: QueueRecoveryReceipt)
    ensures
        is_accepted_form(*receipt, r),
{
    QueueRecoveryReceipt {
        repo: receipt.repo.clone(),
        base: receipt.base.clone(),
        pr_number: receipt.pr_number,
        pr_head: receipt.pr_head.clone(),
        base_sha: receipt.base_sha.clone(),
        merge_group_head: receipt.merge_group_head.clone(),
        removed_at: receipt.removed_at.clone(),
        run_id: receipt.run_id,
        job_id: receipt.job_id,
        attempted_at: receipt.attempted_at.clone(),
        phase: QueueRecoveryPhase::Accepted,
    }
}

/// Takes one step of the transaction that puts an unstacked pull request into
/// the merge queue.
pub fn enqueue_unstacked_pull_request(
    state: EnqueueState,
    reply: EnqueueReply,
    repo: &str,
    base: &str,
    at: &str,
    ledger: &mut StewardLedger,
) -> (r: EnqueueStep)
    ensures
        r == enqueue_step(state, reply),
        enqueue_ledger(state, reply, repo@, base@, at@, *old(ledger), *final(ledger)),
{
    match (state.stage, reply) {
        (EnqueueStage::FinalRevalidation, EnqueueReply::Revalidated(read)) => match read {
            Ok(Some(pr)) => {
                let stage = if state.recovery.is_some() {
                    EnqueueStage::RecoveryEvidence
                } else {
                    EnqueueStage::Send
                };
                EnqueueStep::Continue(
                    EnqueueState { stage, pr, latest: state.latest, recovery: state.recovery },
                )
            },
            Ok(None) => EnqueueStep::Close(
                Closing::Skip {
                    outcome: "skipped_after_final_live_revalidation",
                    label: "skipped_after_final_live_revalidation",
                    audit_prefix: "enqueue skip mutation audit failed: ",
                },
            ),
            Err(error) => EnqueueStep::Close(
                Closing::Fail {
                    outcome: "final_live_revalidation_failed",
                    mutation: None,
                    prefix: "",
                    error,
                },
            ),
        },
        (EnqueueStage::RecoveryEvidence, EnqueueReply::Evidence(read)) => match read {
            Ok(found) => {
                let same = match (&found, &state.recovery) {
                    (Some(live), Some(observed)) => live.same_as(observed),
                    _ => false,
                };
                if same {
                    EnqueueStep::Continue(
                        EnqueueState {
                            stage: EnqueueStage::ManagementAuthority,
                            pr: state.pr,
                            latest: state.latest,
                            recovery: state.recovery,
                        },
                    )
                } else {
                    EnqueueStep::Close(
                        Closing::Skip {
                            outcome: "skipped_after_final_recovery_revalidation",
                            label: "skipped_after_final_recovery_revalidation",
                            audit_prefix: "recovery skip mutation audit failed: ",
                        },
                    )
                }
            },
            Err(error) => EnqueueStep::Close(
                Closing::Fail {
                    outcome: "final_recovery_revalidation_failed",
                    mutation: None,
                    prefix: "",
                    error,
                },
            ),
        },
        (EnqueueStage::ManagementAuthority, EnqueueReply::Revalidated(read)) => match read {
            Ok(Some(pr)) => EnqueueStep::Continue(
                EnqueueState {
                    stage: EnqueueStage::MutableAuthority,
                    pr: state.pr,
                    latest: Some(pr),
                    recovery: state.recovery,
                },
            ),
            Ok(None) => EnqueueStep::Close(
                Closing::Skip {
                    outcome: "skipped_after_final_management_authority",
                    label: "skipped_after_final_management_authority",
                    audit_prefix: "management skip mutation audit failed: ",
                },
            ),
            Err(error) => EnqueueStep::Close(
                Closing::Fail {
                    outcome: "final_management_authority_failed",
                    mutation: None,
                    prefix: "",
                    error,
                },
            ),
        },
        (EnqueueStage::MutableAuthority, EnqueueReply::Authority(read)) => match read {
            Ok(true) => {
                if let Some(evidence) = &state.recovery {
                    let receipt = QueueRecoveryReceipt {
                        repo: repo.to_owned(),
                        base: base.to_owned(),
                        pr_number: state.pr.fact.number,
                        pr_head: state.pr.fact.head_sha.clone(),
                        base_sha: evidence.base_sha.clone(),
                        merge_group_head: evidence.merge_group_head.clone(),
                        removed_at: evidence.removed_at.clone(),
                        run_id: evidence.run_id,
                        job_id: evidence.job_id,
                        attempted_at: at.to_owned(),
                        phase: QueueRecoveryPhase::Intent,
                    };
                    ledger.queue_recovery_receipts.insert(receipt_key(evidence), receipt);
                }
                EnqueueStep::Continue(
                    EnqueueState {
                        stage: EnqueueStage::PersistReceipt,
                        pr: state.pr,
                        latest: state.latest,
                        recovery: state.recovery,
                    },
                )
            },
            Ok(false) => EnqueueStep::Close(
                Closing::Skip {
                    outcome: "skipped_after_final_mutable_authority",
                    label: "skipped_after_final_mutable_authority",
                    audit_prefix: "authority skip mutation audit failed: ",
                },
            ),
            Err(error) => EnqueueStep::Close(
                Closing::Fail {
                    outcome: "final_mutable_authority_failed",
                    mutation: None,
                    prefix: "",
                    error,
                },
            ),
        },
        (EnqueueStage::PersistReceipt, EnqueueReply::Saved(saved)) => match saved {
            Ok(_) => EnqueueStep::Continue(
                EnqueueState {
                    stage: EnqueueStage::ReceiptAuthority,
                    pr: state.pr,
                    latest: state.latest,
                    recovery: state.recovery,
                },
            ),
            Err(error) => EnqueueStep::Close(
                Closing::Fail {
                    outcome: "recovery_receipt_persistence_failed",
                    mutation: None,
                    prefix: "could not persist queue-recovery receipt: ",
                    error,
                },
            ),
        },
        (EnqueueStage::ReceiptAuthority, EnqueueReply::Revalidated(read)) => match read {
            Ok(Some(pr)) => EnqueueStep::Continue(
                EnqueueState {
                    stage: EnqueueStage::ReceiptMutableAuthority,
                    pr: state.pr,
                    latest: Some(pr),
                    recovery: state.recovery,
                },
            ),
            Ok(None) => EnqueueStep::Close(
                Closing::Skip {
                    outcome: "skipped_after_recovery_receipt_authority",
                    label: "skipped_after_recovery_receipt_authority",
                    audit_prefix: "post-receipt skip mutation audit failed: ",
                },
            ),
            Err(error) => EnqueueStep::Close(
                Closing::Fail {
                    outcome: "recovery_receipt_authority_failed",
                    mutation: None,
                    prefix: "",
                    error,
                },
            ),
        },
        (EnqueueStage::ReceiptMutableAuthority, EnqueueReply::Authority(read)) => match read {
            Ok(true) => EnqueueStep::Continue(
                EnqueueState {
                    stage: EnqueueStage::Send,
                    pr: state.pr,
                    latest: state.latest,
                    recovery: state.recovery,
                },
            ),
            Ok(false) => EnqueueStep::Close(
                Closing::Skip {
                    outcome: "skipped_after_recovery_receipt_mutable_authority",
                    label: "skipped_after_recovery_receipt_mutable_authority",
                    audit_prefix: "post-receipt authority audit failed: ",
                },
            ),
            Err(error) => EnqueueStep::Close(
                Closing::Fail {
                    outcome: "recovery_receipt_mutable_authority_failed",
                    mutation: None,
                    prefix: "",
                    error,
                },
            ),
        },
        (EnqueueStage::Send, EnqueueReply::Response(raw)) => if response_accepted(raw.as_str()) {
            EnqueueStep::Continue(
                EnqueueState {
                    stage: EnqueueStage::FinishAccepted,
                    pr: state.pr,
                    latest: state.latest,
                    recovery: state.recovery,
                },
            )
        } else {
            EnqueueStep::Close(
                Closing::Fail {
                    outcome: "rejected",
                    mutation: None,
                    prefix: "GitHub enqueue returned no mergeQueueEntry: ",
                    error: raw,
                },
            )
        },
        (EnqueueStage::Send, EnqueueReply::Refused { message, requirements_pending }) => if requirements_pending {
            EnqueueStep::Close(
                Closing::Skip {
                    outcome: "rejected_requirements",
                    label: "waiting_enqueue_requirements",
                    audit_prefix: "enqueue requirements rejected but mutation audit failed: ",
                },
            )
        } else {
            EnqueueStep::Report(Verdict { mutation: None, prefix: "", error: Some(message) })
        },
        (EnqueueStage::FinishAccepted, EnqueueReply::Finished(finished)) => match finished {
            Ok(_) => {
                let subject = pr_audit_subject(
                    state.pr.fact.number,
                    state.pr.fact.head_sha.as_str(),
                );
                let ghost before = *ledger;
                let action = match &state.recovery {
                    Some(evidence) => {
                        let key = receipt_key(evidence);
                        let updated = match ledger.queue_recovery_receipts.get(key.as_str()) {
                            Some(receipt) => Some(accepted_form(receipt)),
                            None => None,
                        };
                        if let Some(receipt) = updated {
                            ledger.queue_recovery_receipts.insert(key, receipt);
                        }
                        "enqueue_exact_head_jump_hosted_setup_eviction"
                    },
                    None => "enqueue_exact_head",
                };
                record_audit(ledger, at, repo, subject.as_str(), action);
                if state.recovery.is_some() {
                    EnqueueStep::Continue(
                        EnqueueState {
                            stage: EnqueueStage::PersistAccepted,
                            pr: state.pr,
                            latest: state.latest,
                            recovery: state.recovery,
                        },
                    )
                } else {
                    EnqueueStep::Report(
                        Verdict { mutation: Some("enqueued"), prefix: "", error: None },
                    )
                }
            },
            Err(error) => EnqueueStep::Report(
                Verdict {
                    mutation: Some("enqueued"),
                    prefix: "enqueue succeeded but mutation audit failed: ",
                    error: Some(error),
                },
            ),
        },
        (EnqueueStage::PersistAccepted, EnqueueReply::Saved(saved)) => EnqueueStep::Report(
            Verdict {
                mutation: Some("enqueued_priority_restored"),
                prefix: "priority restoration succeeded but receipt persistence failed: ",
                error: match saved {
                    Ok(_) => None,
                    Err(error) => Some(error),
                },
            },
        ),
        _ => EnqueueStep::Continue(state),
    }
}

/// A request that jumps the queue follows, step by step, the saving of its
/// receipt: the request is next only after the final state was read past the
/// saved receipt, and the receipt is in the ledger before it is saved.
pub proof fn jump_follows_its_saved_receipt(
    state: EnqueueState,
    reply: EnqueueReply,
    repo: Seq<char>,
    base: Seq<char>,
    at: Seq<char>,
    before: StewardLedger,
    after: StewardLedger,
    next: EnqueueState,
)
    requires
        state.recovery is Some,
        enqueue_step(state, reply) == EnqueueStep::Continue(next),
        enqueue_ledger(state, reply, repo, base, at, before, after),
        next.stage != state.stage,
    ensures
        next.recovery == state.recovery,
        next.stage == EnqueueStage::Send ==> state.stage == EnqueueStage::ReceiptMutableAuthority
            && reply == EnqueueReply::Authority(Ok::<bool, String>(true)),
        next.stage == EnqueueStage::ReceiptMutableAuthority ==> state.stage
            == EnqueueStage::ReceiptAuthority,
        next.stage == EnqueueStage::ReceiptAuthority ==> state.stage
            == EnqueueStage::PersistReceipt && reply is Saved && reply->Saved_0 is Ok,
        next.stage == EnqueueStage::PersistReceipt ==> state.stage
            == EnqueueStage::MutableAuthority && after.queue_recovery_receipts@.dom().contains(
            receipt_key_text(state.recovery->0),
        ) && after.queue_recovery_receipts@[receipt_key_text(state.recovery->0)].phase
            == QueueRecoveryPhase::Intent,
{
}

/// No request is sent for a pull request that was not read again right before,
/// and a request without evidence never touches a receipt.
pub proof fn plain_request_follows_a_final_read(
    state: EnqueueState,
    reply: EnqueueReply,
    repo: Seq<char>,
    base: Seq<char>,
    at: Seq<char>,
    before: StewardLedger,
    after: StewardLedger,
    next: EnqueueState,
)
    requires
        state.recovery is None,
        state.stage == EnqueueStage::FinalRevalidation || state.stage == EnqueueStage::Send
            || state.stage == EnqueueStage::FinishAccepted,
        enqueue_step(state, reply) == EnqueueStep::Continue(next),
        enqueue_ledger(state, reply, repo, base, at, before, after),
    ensures
        next.stage == EnqueueStage::Send && state.stage != EnqueueStage::Send ==> reply
            == EnqueueReply::Revalidated(Ok::<Option<ObservedPr>, String>(Some(next.pr))),
        after.queue_recovery_receipts@ == before.queue_recovery_receipts@,
{
}

/// The request that puts a pull request into the queue.
pub const ENQUEUE_QUERY: &'static str = "query=mutation($id:ID!,$head:GitObjectID!){enqueuePullRequest(input:{pullRequestId:$id,expectedHeadOid:$head}){mergeQueueEntry{position}}}";

/// The request that puts a pull request at the front of the queue.
pub const JUMP_QUERY: &'static str = "query=mutation($id:ID!,$head:GitObjectID!){enqueuePullRequest(input:{pullRequestId:$id,expectedHeadOid:$head,jump:true}){mergeQueueEntry{position}}}";

/// The arguments of the request, which is bound to the exact head.
pub fn enqueue_args(state: &EnqueueState) -> (r: Vec<String>)
    ensures
        views(r@) == seq![
            "api"@,
            "graphql"@,
            "-f"@,
            if state.recovery is Some {
                JUMP_QUERY@
            } else {
                ENQUEUE_QUERY@
            },
            "-F"@,
            "id="@ + state.pr.node_id@,
            "-F"@,
            "head="@ + state.pr.fact.head_sha@,
        ],
{
    let query = if state.recovery.is_some() {
        JUMP_QUERY
    } else {
        ENQUEUE_QUERY
    };
    let r = vec![
        "api".to_owned(),
        "graphql".to_owned(),
        "-f".to_owned(),
        query.to_owned(),
        "-F".to_owned(),
        concat("id=", state.pr.node_id.as_str()),
        "-F".to_owned(),
        concat("head=", state.pr.fact.head_sha.as_str()),
    ];
    proof {
        assert(views(r@) =~= seq![
            "api"@,
            "graphql"@,
            "-f"@,
            query@,
            "-F"@,
            "id="@ + state.pr.node_id@,
            "-F"@,
            "head="@ + state.pr.fact.head_sha@,
        ]);
    }
    r
}

/// What a last read makes of a pull request.
pub open spec fn final_read(
    queue_enabled: Result<bool, String>,
    policy_merge_queue: bool,
    live: Result<Option<ObservedPr>, String>,
    observed_head: Seq<char>,
    live_decision: StewardDecision,
) -> Result<Option<ObservedPr>, String> {
    match queue_enabled {
        Err(error) => Err(error),
        Ok(enabled) => if enabled != policy_merge_queue {
            Ok(None)
        } else {
            match live {
                Err(error) => Err(error),
                Ok(None) => Ok(None),
                Ok(Some(pr)) => if same_ignoring_case(pr.fact.head_sha@, observed_head)
                    && live_decision is ArmMergeQueue {
                    Ok(Some(pr))
                } else {
                    Ok(None)
                },
            }
        },
    }
}

/// A last read lets a pull request into the queue exactly where the queue is what the
/// policy has, the pull request is open with the observed head, and the decision about
/// it is still to put it there; and what could not be read is told.
pub proof fn a_last_read_confirms_all(
    queue_enabled: Result<bool, String>,
    policy_merge_queue: bool,
    live: Result<Option<ObservedPr>, String>,
    observed_head: Seq<char>,
    live_decision: StewardDecision,
    pr: ObservedPr,
    error: String,
)
    ensures
        final_read(queue_enabled, policy_merge_queue, live, observed_head, live_decision) == Ok::<
            Option<ObservedPr>,
            String,
        >(Some(pr)) <==> {
            &&& queue_enabled == Ok::<bool, String>(policy_merge_queue)
            &&& live == Ok::<Option<ObservedPr>, String>(Some(pr))
            &&& same_ignoring_case(pr.fact.head_sha@, observed_head)
            &&& live_decision is ArmMergeQueue
        },
        final_read(queue_enabled, policy_merge_queue, live, observed_head, live_decision) == Err::<
            Option<ObservedPr>,
            String,
        >(error) <==> queue_enabled == Err::<bool, String>(error) || (queue_enabled == Ok::<
            bool,
            String,
        >(policy_merge_queue) && live == Err::<Option<ObservedPr>, String>(error)),
{
}

/// The pull request as it was read again, where it may still be put into the
/// queue: the queue is as the policy has it, the head is the observed one, and
/// the decision is still to put it there.
pub fn final_enqueue_revalidation(
    queue_enabled: Result<bool, String>,
    policy_merge_queue: bool,
    live: Result<Option<ObservedPr>, String>,
    observed_head: &str,
    live_decision: &StewardDecision,
) -> (r: Result<Option<ObservedPr>, String>)
    ensures
        r == final_read(queue_enabled, policy_merge_queue, live, observed_head@, *live_decision),
{
    match queue_enabled {
        Err(error) => Err(error),
        Ok(enabled) => if enabled != policy_merge_queue {
            Ok(None)
        } else {
            match live {
                Err(error) => Err(error),
                Ok(None) => Ok(None),
                Ok(Some(pr)) => if eq_ignore_case(pr.fact.head_sha.as_str(), observed_head)
                    && matches!(live_decision, StewardDecision::ArmMergeQueue) {
                    Ok(Some(pr))
                } else {
                    Ok(None)
                },
            }
        },
    }
}

/// The evidence for a restored priority, where it is wanted and could be read.
/// Evidence that cannot be read is audited, and the pull request is put into
/// the queue without it.
pub fn recovery_or_fallback(
    evidence: Result<Option<QueueRecoveryEvidence>, String>,
    pr: &ObservedPr,
    repo: &str,
    at: &str,
    ledger: &mut StewardLedger,
) -> (r: Option<QueueRecoveryEvidence>)
    ensures
        match evidence {
            Ok(found) => r == found && *final(ledger) == *old(ledger),
            Err(_) => r is None && final(ledger).same_records(*old(ledger))
                && final(ledger).audits() == audited(
                old(ledger).audits(),
                AuditTexts {
                    at: at@,
                    repo: repo@,
                    subject: pr_subject(pr.fact.number, pr.fact.head_sha@),
                    action: "queue_priority_recovery_unreadable_fell_back"@,
                },
            ),
        },
{
    match evidence {
        Ok(found) => found,
        Err(_) => {
            let subject = pr_audit_subject(pr.fact.number, pr.fact.head_sha.as_str());
            record_audit(
                ledger,
                at,
                repo,
                subject.as_str(),
                "queue_priority_recovery_unreadable_fell_back",
            );
            None
        },
    }
}

/// What the mutation guard is told.
pub fn enqueue_intent(restores_priority: bool) -> (r: &'static str)
    ensures
        r@ == if restores_priority {
            "runner steward restore hosted setup eviction priority"@
        } else {
            "runner steward enqueue pull request"@
        },
{
    if restores_priority {
        "runner steward restore hosted setup eviction priority"
    } else {
        "runner steward enqueue pull request"
    }
}

/// How the transaction begins: a pull request that is known not to be stacked goes on,
/// and a refusal or a failed inspection closes the guard with its error.
pub open spec fn enqueue_begins(
    pr: ObservedPr,
    recovery: Option<QueueRecoveryEvidence>,
    stack: Result<Option<String>, String>,
) -> EnqueueStep {
    match stack {
        Ok(None) => EnqueueStep::Continue(
            EnqueueState { stage: EnqueueStage::FinalRevalidation, pr, latest: None, recovery },
        ),
        Ok(Some(message)) => EnqueueStep::Close(
            Closing::Fail {
                outcome: "rejected_stacked_pull_request",
                mutation: None,
                prefix: "",
                error: message,
            },
        ),
        Err(error) => EnqueueStep::Close(
            Closing::Fail { outcome: "stack_inspection_failed", mutation: None, prefix: "", error },
        ),
    }
}

/// Begins the transaction once the guard is held. Only a pull request that is
/// known not to be stacked goes on; `stack` is the refusal of a stacked one.
pub fn enqueue_pull_request_with_recovery(
    pr: ObservedPr,
    recovery: Option<QueueRecoveryEvidence>,
    stack: Result<Option<String>, String>,
) -> (r: EnqueueStep)
    ensures
        r == enqueue_begins(pr, recovery, stack),
{
    match stack {
        Ok(None) => EnqueueStep::Continue(
            EnqueueState { stage: EnqueueStage::FinalRevalidation, pr, latest: None, recovery },
        ),
        Ok(Some(message)) => EnqueueStep::Close(
            Closing::Fail {
                outcome: "rejected_stacked_pull_request",
                mutation: None,
                prefix: "",
                error: message,
            },
        ),
        Err(error) => EnqueueStep::Close(
            Closing::Fail { outcome: "stack_inspection_failed", mutation: None, prefix: "", error },
        ),
    }
}

/// Begins the transaction for a pull request without evidence.
pub fn enqueue_pull_request(pr: ObservedPr, stack: Result<Option<String>, String>) -> (r:
    EnqueueStep)
    ensures
        r == enqueue_begins(pr, None, stack),
{
    enqueue_pull_request_with_recovery(pr, None, stack)
}

/// Whether a decision changes a pull request.
pub open spec fn changes_pr(decision: StewardDecision) -> bool {
    decision is ArmMergeQueue || decision is RerunTransient
}

/// Whether a decision changes a pull request.
pub fn mutation_wanted(decision: &StewardDecision) -> (r: bool)
    ensures
        r == changes_pr(*decision),
{
    matches!(decision, StewardDecision::ArmMergeQueue) || matches!(
        decision,
        StewardDecision::RerunTransient { .. }
    )
}

/// What is done about a pull request after it was read again.
#[derive(Debug)]
pub enum PrMutation {
    Report(Verdict),
    Enqueue(ObservedPr),
    Rerun(ObservedPr),
}

/// What is done about a pull request after it was read again.
pub open spec fn pr_mutation(
    decision: StewardDecision,
    queue_enabled: Result<bool, String>,
    policy_merge_queue: bool,
    live: Result<Option<ObservedPr>, String>,
    live_decision: StewardDecision,
) -> PrMutation {
    if !changes_pr(decision) {
        PrMutation::Report(Verdict { mutation: None, prefix: "", error: None })
    } else {
        match queue_enabled {
            Err(error) => PrMutation::Report(
                Verdict { mutation: None, prefix: "", error: Some(error) },
            ),
            Ok(enabled) => if enabled != policy_merge_queue {
                PrMutation::Report(
                    Verdict {
                        mutation: Some("skipped_after_queue_capability_change"),
                        prefix: "",
                        error: None,
                    },
                )
            } else {
                match live {
                    Err(error) => PrMutation::Report(
                        Verdict { mutation: None, prefix: "", error: Some(error) },
                    ),
                    Ok(None) => PrMutation::Report(
                        Verdict {
                            mutation: Some("skipped_after_live_revalidation"),
                            prefix: "",
                            error: None,
                        },
                    ),
                    Ok(Some(pr)) => if live_decision@ != decision@ {
                        PrMutation::Report(
                            Verdict {
                                mutation: Some("skipped_after_live_revalidation"),
                                prefix: "",
                                error: None,
                            },
                        )
                    } else if decision is ArmMergeQueue {
                        PrMutation::Enqueue(pr)
                    } else {
                        PrMutation::Rerun(pr)
                    },
                }
            },
        }
    }
}

/// A pull request is put into the queue, or its runs are rerun, exactly where that was
/// decided, the queue is what the policy has, and the pull request was read again with
/// the same decision; what could not be read is told, and the rest is told as a skip
/// without an error.
pub proof fn a_mutation_follows_an_unchanged_decision(
    decision: StewardDecision,
    queue_enabled: Result<bool, String>,
    policy_merge_queue: bool,
    live: Result<Option<ObservedPr>, String>,
    live_decision: StewardDecision,
    pr: ObservedPr,
)
    ensures
        ({
            let r = pr_mutation(decision, queue_enabled, policy_merge_queue, live, live_decision);
            let confirmed = queue_enabled == Ok::<bool, String>(policy_merge_queue) && live == Ok::<
                Option<ObservedPr>,
                String,
            >(Some(pr)) && live_decision@ == decision@;
            let unread = queue_enabled is Err || (queue_enabled == Ok::<bool, String>(
                policy_merge_queue,
            ) && live is Err);
            &&& r == PrMutation::Enqueue(pr) <==> decision is ArmMergeQueue && confirmed
            &&& r == PrMutation::Rerun(pr) <==> decision is RerunTransient && confirmed
            &&& r matches PrMutation::Report(verdict) ==> (verdict.error is Some <==> changes_pr(
                decision,
            ) && unread)
            &&& r matches PrMutation::Report(verdict) ==> (verdict.mutation is Some <==> changes_pr(
                decision,
            ) && !unread)
        }),
{
}

/// Decides what is done about a pull request: nothing, unless the decision was
/// to change it, the queue is as the policy has it, and the decision about the
/// pull request as it was read again is the same.
pub fn mutate_pr_with_recovery(
    decision: &StewardDecision,
    queue_enabled: Result<bool, String>,
    policy_merge_queue: bool,
    live: Result<Option<ObservedPr>, String>,
    live_decision: &StewardDecision,
) -> (r: PrMutation)
    ensures
        r == pr_mutation(*decision, queue_enabled, policy_merge_queue, live, *live_decision),
{
    if !mutation_wanted(decision) {
        return PrMutation::Report(Verdict { mutation: None, prefix: "", error: None });
    }
    match queue_enabled {
        Err(error) => PrMutation::Report(
            Verdict { mutation: None, prefix: "", error: Some(error) },
        ),
        Ok(enabled) => if enabled != policy_merge_queue {
            PrMutation::Report(
                Verdict {
                    mutation: Some("skipped_after_queue_capability_change"),
                    prefix: "",
                    error: None,
                },
            )
        } else {
            match live {
                Err(error) => PrMutation::Report(
                    Verdict { mutation: None, prefix: "", error: Some(error) },
                ),
                Ok(None) => PrMutation::Report(
                    Verdict {
                        mutation: Some("skipped_after_live_revalidation"),
                        prefix: "",
                        error: None,
                    },
                ),
                Ok(Some(pr)) => if !live_decision.same_as(decision) {
                    PrMutation::Report(
                        Verdict {
                            mutation: Some("skipped_after_live_revalidation"),
                            prefix: "",
                            error: None,
                        },
                    )
                } else if matches!(decision, StewardDecision::ArmMergeQueue) {
                    PrMutation::Enqueue(pr)
                } else {
                    PrMutation::Rerun(pr)
                },
            }
        },
    }
}

/// What a step tells where the transaction is over and its guard could be finished.
pub open spec fn step_told(step: EnqueueStep) -> Option<(Option<Seq<char>>, Option<Seq<char>>)> {
    match step {
        EnqueueStep::Continue(_) => None,
        EnqueueStep::Close(closing) => Some(closing.closed(None)),
        EnqueueStep::Report(verdict) => Some(verdict.texts()),
    }
}

proof fn enqueue_labels_differ()
    ensures
        "enqueued"@ != "enqueued_priority_restored"@,
        "enqueued"@ != "waiting_enqueue_requirements"@,
        "enqueued_priority_restored"@ != "waiting_enqueue_requirements"@,
        "waiting_enqueue_requirements"@ != "skipped_after_final_live_revalidation"@,
        "waiting_enqueue_requirements"@ != "skipped_after_final_recovery_revalidation"@,
        "waiting_enqueue_requirements"@ != "skipped_after_final_management_authority"@,
        "waiting_enqueue_requirements"@ != "skipped_after_final_mutable_authority"@,
        "waiting_enqueue_requirements"@ != "skipped_after_recovery_receipt_authority"@,
        "waiting_enqueue_requirements"@ != "skipped_after_recovery_receipt_mutable_authority"@,
        "enqueued"@ != "skipped_after_final_live_revalidation"@,
        "enqueued"@ != "skipped_after_final_recovery_revalidation"@,
        "enqueued"@ != "skipped_after_final_management_authority"@,
        "enqueued"@ != "skipped_after_final_mutable_authority"@,
        "enqueued"@ != "skipped_after_recovery_receipt_authority"@,
        "enqueued"@ != "skipped_after_recovery_receipt_mutable_authority"@,
        "enqueued_priority_restored"@ != "skipped_after_final_live_revalidation"@,
        "enqueued_priority_restored"@ != "skipped_after_final_recovery_revalidation"@,
        "enqueued_priority_restored"@ != "skipped_after_final_management_authority"@,
        "enqueued_priority_restored"@ != "skipped_after_final_mutable_authority"@,
        "enqueued_priority_restored"@ != "skipped_after_recovery_receipt_authority"@,
        "enqueued_priority_restored"@ != "skipped_after_recovery_receipt_mutable_authority"@,
{
    reveal_strlit("enqueued");
    reveal_strlit("enqueued_priority_restored");
    reveal_strlit("waiting_enqueue_requirements");
    reveal_strlit("skipped_after_final_live_revalidation");
    reveal_strlit("skipped_after_final_recovery_revalidation");
    reveal_strlit("skipped_after_final_management_authority");
    reveal_strlit("skipped_after_final_mutable_authority");
    reveal_strlit("skipped_after_recovery_receipt_authority");
    reveal_strlit("skipped_after_recovery_receipt_mutable_authority");
    assert("enqueued"@[0] == 'e' && "enqueued"@.len() == 8);
    assert("enqueued_priority_restored"@[0] == 'e' && "enqueued_priority_restored"@.len() == 26);
    assert("waiting_enqueue_requirements"@[0] == 'w');
    assert("skipped_after_final_live_revalidation"@[0] == 's');
    assert("skipped_after_final_recovery_revalidation"@[0] == 's');
    assert("skipped_after_final_management_authority"@[0] == 's');
    assert("skipped_after_final_mutable_authority"@[0] == 's');
    assert("skipped_after_recovery_receipt_authority"@[0] == 's');
    assert("skipped_after_recovery_receipt_mutable_authority"@[0] == 's');
}

/// A refused request is told as waiting, without an error, exactly where the provider
/// refused it for requirements that are still pending; every other refusal is told
/// with the provider's message as the error and nothing as done. Nothing else is told
/// as waiting.
pub proof fn only_pending_requirements_wait(state: EnqueueState, reply: EnqueueReply)
    ensures
        state.stage == EnqueueStage::Send ==> match reply {
            EnqueueReply::Refused { message, requirements_pending } => {
                &&& step_told(enqueue_step(state, reply)) matches Some(told)
                &&& told.1 is None <==> requirements_pending
                &&& requirements_pending ==> told.0 == Some("waiting_enqueue_requirements"@)
                &&& !requirements_pending ==> told == (None::<Seq<char>>, Some(message@))
            },
            _ => true,
        },
        step_told(enqueue_step(state, reply)) matches Some(told) && told.0 == Some(
            "waiting_enqueue_requirements"@,
        ) ==> state.stage == EnqueueStage::Send && (reply matches EnqueueReply::Refused {
            requirements_pending,
            ..
        } && requirements_pending),
{
    reveal_strlit("");
    enqueue_labels_differ();
    if let EnqueueReply::Refused { message, .. } = reply {
        assert(""@ + message@ =~= message@);
    }
}

/// A pull request is told as enqueued only once the provider showed its entry in the
/// queue, and as restored in its priority only where there was evidence for that; a
/// response without an entry is told as an error that ends with the response.
pub proof fn only_an_accepted_request_is_told_as_enqueued(
    state: EnqueueState,
    reply: EnqueueReply,
)
    ensures
        step_told(enqueue_step(state, reply)) matches Some(told) ==> {
            &&& told.0 == Some("enqueued"@) ==> state.stage == EnqueueStage::FinishAccepted
            &&& told.0 == Some("enqueued_priority_restored"@) ==> state.stage
                == EnqueueStage::PersistAccepted
        },
        enqueue_step(state, reply) matches EnqueueStep::Continue(next) ==> {
            &&& next.stage == EnqueueStage::FinishAccepted && state.stage
                != EnqueueStage::FinishAccepted ==> state.stage == EnqueueStage::Send && (
            reply matches EnqueueReply::Response(raw) && accepted_text(raw@))
            &&& next.stage == EnqueueStage::PersistAccepted && state.stage
                != EnqueueStage::PersistAccepted ==> state.stage == EnqueueStage::FinishAccepted
                && state.recovery is Some
        },
        state.stage == EnqueueStage::Send ==> match reply {
            EnqueueReply::Response(raw) => if accepted_text(raw@) {
                enqueue_step(state, reply) matches EnqueueStep::Continue(next) && next.stage
                    == EnqueueStage::FinishAccepted
            } else {
                step_told(enqueue_step(state, reply)) matches Some(told) && told.0 is None && (
                told.1 matches Some(text) && has_suffix(text, raw@))
            },
            _ => true,
        },
{
    enqueue_labels_differ();
    if let EnqueueReply::Response(raw) = reply {
        ends_with_its_end("GitHub enqueue returned no mergeQueueEntry: "@, raw@);
    }
}

/// A response is an acceptance exactly where it holds an entry of the queue that is not
/// null and tells of no errors.
pub proof fn an_acceptance_holds_an_entry(response: JsonTree)
    ensures
        accepted(response) <==> response.field("errors"@) is None && (response.field("data"@)
            matches Some(data) && (data.field("enqueuePullRequest"@) matches Some(answer) && (
        answer.field("mergeQueueEntry"@) matches Some(entry) && !(entry is Null)))),
{
    let path = seq!["data"@, "enqueuePullRequest"@, "mergeQueueEntry"@];
    reveal_with_fuel(JsonTree::at, 4);
    assert(path.drop_first() =~= seq!["enqueuePullRequest"@, "mergeQueueEntry"@]);
    assert(path.drop_first().drop_first() =~= seq!["mergeQueueEntry"@]);
    assert(path.drop_first().drop_first().drop_first() =~= Seq::<Seq<char>>::empty());
}

/// How many steps are left of a transaction in which everything is favourable.
pub open spec fn enqueue_left(state: EnqueueState) -> nat {
    match state.stage {
        EnqueueStage::FinalRevalidation => if state.recovery is Some {
            9
        } else {
            2
        },
        EnqueueStage::RecoveryEvidence => 8,
        EnqueueStage::ManagementAuthority => 7,
        EnqueueStage::MutableAuthority => 6,
        EnqueueStage::PersistReceipt => 5,
        EnqueueStage::ReceiptAuthority => 4,
        EnqueueStage::ReceiptMutableAuthority => 3,
        EnqueueStage::Send => if state.recovery is Some {
            2
        } else {
            1
        },
        EnqueueStage::FinishAccepted => if state.recovery is Some {
            1
        } else {
            0
        },
        EnqueueStage::PersistAccepted => 0,
    }
}

/// Whether a reply is favourable at a step.
pub open spec fn favours(state: EnqueueState, reply: EnqueueReply) -> bool {
    match reply {
        EnqueueReply::Revalidated(read) => (state.stage == EnqueueStage::FinalRevalidation
            || state.stage == EnqueueStage::ManagementAuthority || state.stage
            == EnqueueStage::ReceiptAuthority) && read matches Ok(Some(_)),
        EnqueueReply::Evidence(read) => state.stage == EnqueueStage::RecoveryEvidence && (
        read matches Ok(Some(live)) && state.recovery matches Some(seen) && live.agrees(seen)),
        EnqueueReply::Authority(read) => (state.stage == EnqueueStage::MutableAuthority
            || state.stage == EnqueueStage::ReceiptMutableAuthority) && read == Ok::<bool, String>(
            true,
        ),
        EnqueueReply::Saved(saved) => (state.stage == EnqueueStage::PersistReceipt || state.stage
            == EnqueueStage::PersistAccepted) && saved is Ok,
        EnqueueReply::Response(raw) => state.stage == EnqueueStage::Send && accepted_text(raw@),
        EnqueueReply::Refused { .. } => false,
        EnqueueReply::Finished(finished) => state.stage == EnqueueStage::FinishAccepted
            && finished is Ok,
    }
}

/// A transaction with favourable replies goes on step by step, keeps its evidence and
/// the pull request that it read last, and ends with the pull request told as enqueued
/// without an error.
pub proof fn favourable_replies_enqueue(state: EnqueueState, reply: EnqueueReply)
    requires
        favours(state, reply),
        state.recovery is None ==> state.stage == EnqueueStage::FinalRevalidation || state.stage
            == EnqueueStage::Send || state.stage == EnqueueStage::FinishAccepted,
    ensures
        if enqueue_left(state) > 0 {
            enqueue_step(state, reply) matches EnqueueStep::Continue(next) && enqueue_left(next)
                == enqueue_left(state) - 1 && next.recovery == state.recovery && next.pr == (
            if state.stage == EnqueueStage::FinalRevalidation {
                reply->Revalidated_0->Ok_0->Some_0
            } else {
                state.pr
            })
        } else {
            step_told(enqueue_step(state, reply)) == Some(
                (
                    Some(
                        if state.recovery is Some {
                            "enqueued_priority_restored"@
                        } else {
                            "enqueued"@
                        },
                    ),
                    None::<Seq<char>>,
                ),
            )
        },
{
}

/// Whether a reply tells that a step failed, and why.
pub open spec fn enqueue_failure(reply: EnqueueReply) -> Option<String> {
    match reply {
        EnqueueReply::Revalidated(Err(error)) => Some(error),
        EnqueueReply::Evidence(Err(error)) => Some(error),
        EnqueueReply::Authority(Err(error)) => Some(error),
        EnqueueReply::Saved(Err(error)) => Some(error),
        EnqueueReply::Finished(Err(error)) => Some(error),
        _ => None,
    }
}

/// A step that failed is told with an error that ends with why, a step that was not
/// authorised is told as a skip without an error, and either way the transaction is
/// over.
pub proof fn failures_and_skips_are_told_apart(state: EnqueueState, reply: EnqueueReply)
    ensures
        enqueue_step(state, reply) matches EnqueueStep::Continue(next) ==> next.stage
            == state.stage || favours(state, reply),
        !(enqueue_step(state, reply) is Continue) ==> (enqueue_failure(reply) matches Some(error)
            ==> (step_told(enqueue_step(state, reply)) matches Some(told) && (
        told.1 matches Some(text) && has_suffix(text, error@)))),
        step_told(enqueue_step(state, reply)) matches Some(told) && told.1 is Some ==> reply
            is Response || reply is Refused || enqueue_failure(reply) is Some,
        step_told(enqueue_step(state, reply)) matches Some(told) ==> told.0 is Some || told.1
            is Some,
{
    reveal_strlit("");
    if let Some(error) = enqueue_failure(reply) {
        ends_with_its_end(""@, error@);
        ends_with_its_end("could not persist queue-recovery receipt: "@, error@);
        ends_with_its_end("enqueue succeeded but mutation audit failed: "@, error@);
        ends_with_its_end(
            "priority restoration succeeded but receipt persistence failed: "@,
            error@,
        );
    }
}

/// Whether a reply is one to the step that a transaction stands at.
pub open spec fn answers_step(state: EnqueueState, reply: EnqueueReply) -> bool {
    match state.stage {
        EnqueueStage::FinalRevalidation | EnqueueStage::ManagementAuthority
        | EnqueueStage::ReceiptAuthority => reply is Revalidated,
        EnqueueStage::RecoveryEvidence => reply is Evidence,
        EnqueueStage::MutableAuthority | EnqueueStage::ReceiptMutableAuthority => reply
            is Authority,
        EnqueueStage::PersistReceipt | EnqueueStage::PersistAccepted => reply is Saved,
        EnqueueStage::Send => reply is Response || reply is Refused,
        EnqueueStage::FinishAccepted => reply is Finished,
    }
}

/// No reply to its step leaves a transaction where it stands, and no other reply moves
/// it. What is neither favourable nor a failure before the request is told as a skip
/// without an error.
pub proof fn a_transaction_never_stalls(state: EnqueueState, reply: EnqueueReply)
    ensures
        answers_step(state, reply) ==> (enqueue_step(state, reply) matches EnqueueStep::Continue(
            next,
        ) ==> next.stage != state.stage),
        !answers_step(state, reply) ==> enqueue_step(state, reply) == EnqueueStep::Continue(state),
        answers_step(state, reply) && !favours(state, reply) && enqueue_failure(reply) is None
            && state.stage != EnqueueStage::Send ==> (step_told(enqueue_step(state, reply))
            matches Some(told) && told.0 is Some && told.1 is None),
{
}

/// A transaction begins exactly where the pull request stands in no stack; one that does,
/// or whose stack could not be looked at, is closed with the message as its error.
pub proof fn only_an_unstacked_pull_request_begins(
    pr: ObservedPr,
    recovery: Option<QueueRecoveryEvidence>,
    stack: Result<Option<String>, String>,
)
    ensures
        enqueue_begins(pr, recovery, stack) is Continue <==> stack == Ok::<Option<String>, String>(
            None,
        ),
        enqueue_begins(pr, recovery, stack) matches EnqueueStep::Continue(state) ==> state.stage
            == EnqueueStage::FinalRevalidation && state.pr == pr && state.recovery == recovery,
        stack matches Ok(Some(message)) ==> (enqueue_begins(pr, recovery, stack)
            matches EnqueueStep::Close(closing) && (closing matches Closing::Fail { error, mutation, .. }
            && error == message && mutation is None)),
        stack matches Err(message) ==> (enqueue_begins(pr, recovery, stack)
            matches EnqueueStep::Close(closing) && (closing matches Closing::Fail { error, mutation, .. }
            && error == message && mutation is None)),
{
}

/// A receipt of a recovery is written as an intent before its request and becomes accepted
/// with it; nothing else changes the receipts, and what was accepted is audited as the jump
/// or the plain entry that it was.
pub proof fn a_receipt_follows_its_recovery(
    state: EnqueueState,
    reply: EnqueueReply,
    repo: Seq<char>,
    base: Seq<char>,
    at: Seq<char>,
    before: StewardLedger,
    after: StewardLedger,
)
    requires
        enqueue_ledger(state, reply, repo, base, at, before, after),
    ensures
        ({
            let old_map = before.queue_recovery_receipts@;
            let new_map = after.queue_recovery_receipts@;
            &&& state.recovery is None ==> new_map == old_map
            &&& state.recovery matches Some(evidence) ==> {
                let key = receipt_key_text(evidence);
                &&& state.stage is MutableAuthority && reply == EnqueueReply::Authority(Ok(true))
                    ==> new_map.dom().contains(key) && new_map[key].phase
                    == QueueRecoveryPhase::Intent && new_map[key].run_id == evidence.run_id
                    && new_map[key].pr_number == state.pr.fact.number
                &&& state.stage is FinishAccepted && (reply matches EnqueueReply::Finished(Ok(_)))
                    && old_map.dom().contains(key) ==> new_map.dom().contains(key)
                    && new_map[key].phase == QueueRecoveryPhase::Accepted && new_map[key].run_id
                    == old_map[key].run_id
                &&& forall|other: Seq<char>| #[trigger]
                    old_map.dom().contains(other) && other != key ==> new_map.dom().contains(other)
                        && new_map[other] == old_map[other]
            }
            &&& !(state.stage is MutableAuthority) && !(state.stage is FinishAccepted) ==> after
                == before
            &&& after.pending_cancellations == before.pending_cancellations
                && after.transient_attempts == before.transient_attempts && after.queue_witnesses
                == before.queue_witnesses
            &&& state.stage is FinishAccepted && (reply matches EnqueueReply::Finished(Ok(_)))
                ==> after.audits().len() > 0 && (after.audits().last().action
                == "enqueue_exact_head"@ <==> state.recovery is None)
        }),
{
    reveal_strlit("enqueue_exact_head");
    reveal_strlit("enqueue_exact_head_jump_hosted_setup_eviction");
    assert("enqueue_exact_head"@.len() != "enqueue_exact_head_jump_hosted_setup_eviction"@.len());
}

} // verus!
