//! The ledger's pending cancellations.
//!
//! A cancellation is written down before it is sent, and stays written down
//! until the run is known to have ended or the cancellation to have been
//! skipped.
use vstd::prelude::*;

use crate::guard::ends_with_its_end;
use crate::ledger::{
    audited, capacity_run_subject, capacity_subject, pending_cancellation_key,
    pending_cancellation_key_parts, pending_key_text, pending_updated,
    persist_pending_mutation_correlation, record_audit, AuditTexts, PendingCancellation,
    PendingCancellationPhase, PendingMutationKind, PendingTexts, StewardLedger,
};
use crate::model::{RunCancellation, RunCancellationReason, StewardJob, StewardRun};
use crate::rerun::counted;
use crate::text::{
    concat, concat3, copy_texts, decimal, has_suffix, join, opt_view, or_text, result_view,
    separated, str_eq, to_decimal, views,
};
use crate::text_map::TextMap;

verus! {

impl RunCancellationReason {
    /// The reason's name in reports and records.
    pub open spec fn label(self) -> Seq<char> {
        match self {
            RunCancellationReason::SupersededPullRequestHead => "superseded_pull_request_head"@,
            RunCancellationReason::SupersededMergeGroupHead => "superseded_merge_group_head"@,
            RunCancellationReason::AdvisoryPreambleCapacityTheft => {
                "advisory_preamble_capacity_theft"@
            },
            RunCancellationReason::LowerPriorityBranchPreamble => {
                "lower_priority_branch_preamble"@
            },
        }
    }

    /// The reason's name in the audit trail.
    pub open spec fn code(self) -> Seq<char> {
        match self {
            RunCancellationReason::SupersededPullRequestHead => "SupersededPullRequestHead"@,
            RunCancellationReason::SupersededMergeGroupHead => "SupersededMergeGroupHead"@,
            RunCancellationReason::AdvisoryPreambleCapacityTheft => {
                "AdvisoryPreambleCapacityTheft"@
            },
            RunCancellationReason::LowerPriorityBranchPreamble => "LowerPriorityBranchPreamble"@,
        }
    }
}

/// The reason's name in reports and records.
pub fn cancellation_reason_label(reason: RunCancellationReason) -> (r: String)
    ensures
        r@ == reason.label(),
{
    let text = match reason {
        RunCancellationReason::SupersededPullRequestHead => "superseded_pull_request_head",
        RunCancellationReason::SupersededMergeGroupHead => "superseded_merge_group_head",
        RunCancellationReason::AdvisoryPreambleCapacityTheft => "advisory_preamble_capacity_theft",
        RunCancellationReason::LowerPriorityBranchPreamble => "lower_priority_branch_preamble",
    };
    text.to_owned()
}

pub fn reason_code(reason: RunCancellationReason) -> (r: &'static str)
    ensures
        r@ == reason.code(),
{
    match reason {
        RunCancellationReason::SupersededPullRequestHead => "SupersededPullRequestHead",
        RunCancellationReason::SupersededMergeGroupHead => "SupersededMergeGroupHead",
        RunCancellationReason::AdvisoryPreambleCapacityTheft => "AdvisoryPreambleCapacityTheft",
        RunCancellationReason::LowerPriorityBranchPreamble => "LowerPriorityBranchPreamble",
    }
}

/// The reason that a pending record names; only a capacity preemption is ever
/// pending.
pub fn pending_cancellation_reason(value: &str) -> (r: Result<RunCancellationReason, String>)
    ensures
        result_view(r) == if value@ == "advisory_preamble_capacity_theft"@ {
            Ok::<RunCancellationReason, Seq<char>>(
                RunCancellationReason::AdvisoryPreambleCapacityTheft,
            )
        } else if value@ == "lower_priority_branch_preamble"@ {
            Ok(RunCancellationReason::LowerPriorityBranchPreamble)
        } else {
            Err("unsupported pending cancellation reason `"@ + value@ + "`"@)
        },
        r matches Ok(reason) ==> reason.label() == value@,
        r is Ok <==> value@ == RunCancellationReason::AdvisoryPreambleCapacityTheft.label()
            || value@ == RunCancellationReason::LowerPriorityBranchPreamble.label(),
{
    if str_eq(value, "advisory_preamble_capacity_theft") {
        Ok(RunCancellationReason::AdvisoryPreambleCapacityTheft)
    } else if str_eq(value, "lower_priority_branch_preamble") {
        Ok(RunCancellationReason::LowerPriorityBranchPreamble)
    } else {
        Err(concat3("unsupported pending cancellation reason `", value, "`"))
    }
}

/// The cancellation that a pending record stands for.
pub fn pending_run_cancellation(pending: &PendingCancellation) -> (r: Result<
    RunCancellation,
    String,
>)
    ensures
        match r {
            Ok(cancellation) => cancellation.run_id == pending.run_id
                && cancellation.reason.label() == pending.reason@,
            Err(e) => pending.reason@ != "advisory_preamble_capacity_theft"@ && pending.reason@
                != "lower_priority_branch_preamble"@ && e@
                == "unsupported pending cancellation reason `"@ + pending.reason@ + "`"@,
        },
        pending.reason@ == "advisory_preamble_capacity_theft"@ ==> r is Ok,
        pending.reason@ == "lower_priority_branch_preamble"@ ==> r is Ok,
{
    match pending_cancellation_reason(pending.reason.as_str()) {
        Ok(reason) => Ok(RunCancellation { run_id: pending.run_id, reason }),
        Err(error) => Err(error),
    }
}

/// The name of a phase in the audit trail.
pub open spec fn phase_code(phase: PendingCancellationPhase) -> Seq<char> {
    match phase {
        PendingCancellationPhase::Intent => "Intent"@,
        PendingCancellationPhase::Accepted => "Accepted"@,
        PendingCancellationPhase::Skipped => "Skipped"@,
    }
}

fn phase_name(phase: PendingCancellationPhase) -> (r: &'static str)
    ensures
        r@ == phase_code(phase),
{
    match phase {
        PendingCancellationPhase::Intent => "Intent",
        PendingCancellationPhase::Accepted => "Accepted",
        PendingCancellationPhase::Skipped => "Skipped",
    }
}

/// The pull request that a run belongs to: its own, or that of the merge group
/// it builds.
pub open spec fn run_owner(own: Option<u64>, group: Option<u64>) -> Option<u64> {
    match own {
        Some(_) => own,
        None => group,
    }
}

/// What a pending cancellation of a run records.
pub open spec fn intent_texts(
    repo: Seq<char>,
    base: Seq<char>,
    run: StewardRun,
    pr_number: u64,
    front_head: Seq<char>,
    at: Seq<char>,
    correlation_id: Seq<char>,
    phase: PendingCancellationPhase,
    reason: RunCancellationReason,
    opt_out_label: Seq<char>,
    provenance_blocking_labels: Seq<Seq<char>>,
    managed_label: Seq<char>,
    handoff_context: Seq<char>,
) -> PendingTexts {
    PendingTexts {
        repo,
        base,
        run_id: run.id,
        workflow_id: run.workflow_id,
        run_attempt: run.run_attempt,
        head_sha: run.head_sha@,
        head_branch: run.head_branch@,
        pr_number,
        front_head,
        initiated_at: at,
        phase,
        mutation_correlation_id: correlation_id,
        mutation_kind: PendingMutationKind::NormalCancel,
        reason: reason.label(),
        opt_out_label,
        provenance_blocking_labels,
        managed_label,
        handoff_context,
    }
}

/// The record of a cancellation that is about to begin. A run without a pull
/// request is refused. `group_pr` is the pull request that the run's merge-group
/// branch names.
pub fn pending_cancellation(
    repo: &str,
    base: &str,
    run: &StewardRun,
    group_pr: Option<u64>,
    front_head: &str,
    at: &str,
    correlation_id: &str,
    phase: PendingCancellationPhase,
    reason: RunCancellationReason,
    opt_out_label: &str,
    provenance_blocking_labels: &Vec<String>,
    managed_label: &str,
    handoff_context: &str,
) -> (r: Result<PendingCancellation, String>)
    ensures
        match run_owner(run.pull_request_number, group_pr) {
            Some(pr_number) => r matches Ok(pending) && pending@ == intent_texts(
                repo@,
                base@,
                *run,
                pr_number,
                front_head@,
                at@,
                correlation_id@,
                phase,
                reason,
                opt_out_label@,
                views(provenance_blocking_labels@),
                managed_label@,
                handoff_context@,
            ),
            None => r matches Err(e) && e@ == "workflow run "@ + decimal(run.id as nat)
                + " has no pull-request identity; refusing an unaudited cancellation"@,
        },
{
    let owner: Option<u64> = match run.pull_request_number {
        Some(number) => Some(number),
        None => group_pr,
    };
    match owner {
        Some(pr_number) => Ok(
            PendingCancellation {
                repo: repo.to_owned(),
                base: base.to_owned(),
                run_id: run.id,
                workflow_id: run.workflow_id,
                run_attempt: run.run_attempt,
                head_sha: run.head_sha.clone(),
                head_branch: run.head_branch.clone(),
                pr_number,
                front_head: front_head.to_owned(),
                initiated_at: at.to_owned(),
                phase,
                mutation_correlation_id: correlation_id.to_owned(),
                mutation_kind: PendingMutationKind::NormalCancel,
                reason: cancellation_reason_label(reason),
                opt_out_label: opt_out_label.to_owned(),
                provenance_blocking_labels: copy_texts(provenance_blocking_labels),
                managed_label: managed_label.to_owned(),
                handoff_context: handoff_context.to_owned(),
            },
        ),
        None => Err(
            concat3(
                "workflow run ",
                to_decimal(run.id).as_str(),
                " has no pull-request identity; refusing an unaudited cancellation",
            ),
        ),
    }
}

/// The key of a record.
pub open spec fn key_of(texts: PendingTexts) -> Seq<char> {
    pending_key_text(texts.repo, texts.run_id, texts.head_sha, texts.front_head)
}

/// Writes a cancellation down.
pub fn persist_pending_cancellation(
    ledger: &mut StewardLedger,
    pending: PendingCancellation,
    at: &str,
)
    ensures
        pending_updated(
            *old(ledger),
            *final(ledger),
            key_of(pending@),
            pending@,
            at@,
            "capacity_preemption_pending:"@ + phase_code(pending.phase),
        ),
{
    let key = pending_cancellation_key(&pending);
    let repo = pending.repo.clone();
    let subject = capacity_run_subject(pending.run_id);
    let action = concat("capacity_preemption_pending:", phase_name(pending.phase));
    ledger.pending_cancellations.insert(key, pending);
    record_audit(ledger, at, repo.as_str(), subject.as_str(), action.as_str());
}

/// Writes down that a capacity preemption begins: it is counted against its
/// run, audited, and pending from then on. `preemption_key` identifies the run
/// among preemptions.
pub fn start_capacity_preemption(
    ledger: &mut StewardLedger,
    pending: PendingCancellation,
    preemption_key: &str,
    reason: RunCancellationReason,
    at: &str,
)
    requires
        counted(
            old(ledger).preemption_attempts@,
            pending.repo@ + ":"@ + preemption_key@,
        ) < u32::MAX,
    ensures
        ({
            let key = pending.repo@ + ":"@ + preemption_key@;
            let counts = old(ledger).preemption_attempts@;
            let map = final(ledger).pending_cancellations@;
            &&& final(ledger).preemption_attempts@ == counts.insert(
                key,
                (counted(counts, key) + 1) as u32,
            )
            &&& map.dom().contains(key_of(pending@))
            &&& map == old(ledger).pending_cancellations@.insert(
                key_of(pending@),
                map[key_of(pending@)],
            )
            &&& map[key_of(pending@)]@ == pending@
            &&& final(ledger).transient_attempts == old(ledger).transient_attempts
            &&& final(ledger).queue_witnesses == old(ledger).queue_witnesses
            &&& final(ledger).queue_recovery_receipts == old(ledger).queue_recovery_receipts
            &&& final(ledger).terminal_handoffs == old(ledger).terminal_handoffs
            &&& final(ledger).audits() == audited(
                audited(
                    old(ledger).audits(),
                    AuditTexts {
                        at: at@,
                        repo: pending.repo@,
                        subject: front_subject(
                            pending.front_head@,
                            pending.run_id,
                            pending.head_sha@,
                        ),
                        action: "capacity_preemption_started:"@ + reason.code(),
                    },
                ),
                AuditTexts {
                    at: at@,
                    repo: pending.repo@,
                    subject: capacity_subject(pending.run_id),
                    action: "capacity_preemption_pending:"@ + phase_code(pending.phase),
                },
            )
        }),
{
    let key = concat3(pending.repo.as_str(), ":", preemption_key);
    let count: u32 = match ledger.preemption_attempts.get(key.as_str()) {
        Some(count) => *count,
        None => 0,
    };
    ledger.preemption_attempts.insert(key, count + 1);
    let subject = front_audit_subject(
        pending.front_head.as_str(),
        pending.run_id,
        pending.head_sha.as_str(),
    );
    let action = concat("capacity_preemption_started:", reason_code(reason));
    record_audit(ledger, at, pending.repo.as_str(), subject.as_str(), action.as_str());
    persist_pending_cancellation(ledger, pending, at);
}

/// The audit subject of a preemption for the queue's front.
pub open spec fn front_subject(front: Seq<char>, run_id: u64, head: Seq<char>) -> Seq<char> {
    "front:"@ + front + ":capacity-run:"@ + decimal(run_id as nat) + ":"@ + head
}

fn front_audit_subject(front: &str, run_id: u64, head: &str) -> (r: String)
    ensures
        r@ == front_subject(front@, run_id, head@),
{
    let mut out: String = concat3("front:", front, ":capacity-run:");
    out.append(to_decimal(run_id).as_str());
    out.append(":");
    out.append(head);
    out
}

/// Whether a ledger differs from an earlier one by the phase of one pending
/// record and by one audit entry on its run; without the record nothing changed.
pub open spec fn phase_marked(
    before: StewardLedger,
    after: StewardLedger,
    key: Seq<char>,
    phase: PendingCancellationPhase,
    at: Seq<char>,
    repo: Seq<char>,
    run_id: u64,
    action: Seq<char>,
) -> bool {
    let map = after.pending_cancellations@;
    &&& before.pending_cancellations@.dom().contains(key)
    &&& after.same_but_pending(before)
    &&& map.dom().contains(key)
    &&& map == before.pending_cancellations@.insert(key, map[key])
    &&& map[key]@ == (PendingTexts { phase, ..before.pending_cancellations@[key]@ })
    &&& after.audits() == audited(
        before.audits(),
        AuditTexts { at, repo, subject: capacity_subject(run_id), action },
    )
}

fn set_phase(
    ledger: &mut StewardLedger,
    key: &str,
    phase: PendingCancellationPhase,
) -> (r: bool)
    ensures
        if old(ledger).pending_cancellations@.dom().contains(key@) {
            let map = final(ledger).pending_cancellations@;
            &&& r
            &&& final(ledger).same_but_pending(*old(ledger))
            &&& map.dom().contains(key@)
            &&& map == old(ledger).pending_cancellations@.insert(key@, map[key@])
            &&& map[key@]@ == (PendingTexts {
                phase,
                ..old(ledger).pending_cancellations@[key@]@
            })
            &&& final(ledger).audits() == old(ledger).audits()
        } else {
            !r && *final(ledger) == *old(ledger)
        },
{
    let mut pending = match ledger.pending_cancellations.get(key) {
        Some(found) => found.dup(),
        None => return false,
    };
    pending.phase = phase;
    ledger.pending_cancellations.insert(key.to_owned(), pending);
    true
}

/// Marks a pending cancellation as accepted.
pub fn mark_cancellation_accepted(
    ledger: &mut StewardLedger,
    repo: &str,
    run_id: u64,
    head_sha: &str,
    expected_front: &str,
    at: &str,
) -> (r: Result<(), String>)
    ensures
        ({
            let key = pending_key_text(repo@, run_id, head_sha@, expected_front@);
            if old(ledger).pending_cancellations@.dom().contains(key) {
                r is Ok && phase_marked(
                    *old(ledger),
                    *final(ledger),
                    key,
                    PendingCancellationPhase::Accepted,
                    at@,
                    repo@,
                    run_id,
                    "capacity_preemption_pending_after_acceptance"@,
                )
            } else {
                r matches Err(e) && e@ == "pending cancellation intent disappeared"@
                    && *final(ledger) == *old(ledger)
            }
        }),
{
    let key = pending_cancellation_key_parts(repo, run_id, head_sha, expected_front);
    if !set_phase(ledger, key.as_str(), PendingCancellationPhase::Accepted) {
        return Err("pending cancellation intent disappeared".to_owned());
    }
    let subject = capacity_run_subject(run_id);
    record_audit(
        ledger,
        at,
        repo,
        subject.as_str(),
        "capacity_preemption_pending_after_acceptance",
    );
    Ok(())
}

/// Marks a pending cancellation as skipped.
pub fn mark_cancellation_skipped(ledger: &mut StewardLedger, key: &str, at: &str) -> (r: Result<
    (),
    String,
>)
    ensures
        if old(ledger).pending_cancellations@.dom().contains(key@) {
            r is Ok && phase_marked(
                *old(ledger),
                *final(ledger),
                key@,
                PendingCancellationPhase::Skipped,
                at@,
                old(ledger).pending_cancellations@[key@].repo@,
                old(ledger).pending_cancellations@[key@].run_id,
                "capacity_preemption_skipped_before_mutation"@,
            )
        } else {
            r matches Err(e) && e@ == "pending cancellation intent disappeared"@
                && *final(ledger) == *old(ledger)
        },
{
    let (repo, run_id): (String, u64) = match ledger.pending_cancellations.get(key) {
        Some(found) => (found.repo.clone(), found.run_id),
        None => return Err("pending cancellation intent disappeared".to_owned()),
    };
    let _ = set_phase(ledger, key, PendingCancellationPhase::Skipped);
    let subject = capacity_run_subject(run_id);
    record_audit(
        ledger,
        at,
        repo.as_str(),
        subject.as_str(),
        "capacity_preemption_skipped_before_mutation",
    );
    Ok(())
}

/// Marks a pending cancellation as accepted after a recovery.
pub fn mark_recovery_accepted(
    ledger: &mut StewardLedger,
    key: &str,
    repo: &str,
    run_id: u64,
    at: &str,
) -> (r: Result<(), String>)
    ensures
        if old(ledger).pending_cancellations@.dom().contains(key@) {
            r is Ok && phase_marked(
                *old(ledger),
                *final(ledger),
                key@,
                PendingCancellationPhase::Accepted,
                at@,
                repo@,
                run_id,
                "capacity_preemption_pending_after_recovery_acceptance"@,
            )
        } else {
            r matches Err(e) && e@ == "refreshed cancellation intent disappeared"@
                && *final(ledger) == *old(ledger)
        },
{
    if !set_phase(ledger, key, PendingCancellationPhase::Accepted) {
        return Err("refreshed cancellation intent disappeared".to_owned());
    }
    let subject = capacity_run_subject(run_id);
    record_audit(
        ledger,
        at,
        repo,
        subject.as_str(),
        "capacity_preemption_pending_after_recovery_acceptance",
    );
    Ok(())
}

/// Removes a pending cancellation and audits why; the record is handed back, to
/// be put back where the ledger cannot be saved.
pub fn clear_pending_cancellation(
    ledger: &mut StewardLedger,
    key: &str,
    repo: &str,
    run_id: u64,
    action: &str,
    at: &str,
) -> (r: Result<PendingCancellation, String>)
    ensures
        if old(ledger).pending_cancellations@.dom().contains(key@) {
            &&& r == Ok::<PendingCancellation, String>(old(ledger).pending_cancellations@[key@])
            &&& final(ledger).same_but_pending(*old(ledger))
            &&& final(ledger).pending_cancellations@ == old(ledger).pending_cancellations@.remove(
                key@,
            )
            &&& final(ledger).audits() == audited(
                old(ledger).audits(),
                AuditTexts {
                    at: at@,
                    repo: repo@,
                    subject: capacity_subject(run_id),
                    action: action@,
                },
            )
        } else {
            r matches Err(e) && e@ == "pending cancellation record for run "@ + decimal(
                run_id as nat,
            ) + " disappeared"@ && final(ledger).same_but_pending(*old(ledger))
                && final(ledger).pending_cancellations@ == old(ledger).pending_cancellations@
                && final(ledger).audits() == old(ledger).audits()
        },
{
    let ghost before = ledger.pending_cancellations@;
    match ledger.pending_cancellations.remove(key) {
        Some(record) => {
            let subject = capacity_run_subject(run_id);
            record_audit(ledger, at, repo, subject.as_str(), action);
            Ok(record)
        },
        None => {
            proof {
                assert(before.remove(key@) =~= before);
            }
            Err(
                concat3(
                    "pending cancellation record for run ",
                    to_decimal(run_id).as_str(),
                    " disappeared",
                ),
            )
        },
    }
}

/// Ends the removal of a pending cancellation: where the ledger could not be
/// saved, the record is put back.
pub fn finish_clear(
    ledger: &mut StewardLedger,
    key: &str,
    record: PendingCancellation,
    saved: Result<(), String>,
) -> (r: Result<(), String>)
    ensures
        match saved {
            Ok(_) => r is Ok && *final(ledger) == *old(ledger),
            Err(message) => (r matches Err(e) && e@
                == "could not persist terminal pending-cancellation state: "@ + message@)
                && final(ledger).same_but_pending(*old(ledger))
                && final(ledger).pending_cancellations@ == old(ledger).pending_cancellations@.insert(
                key@,
                record,
            ) && final(ledger).audits() == old(ledger).audits(),
        },
{
    match saved {
        Ok(_) => Ok(()),
        Err(message) => {
            ledger.pending_cancellations.insert(key.to_owned(), record);
            Err(
                concat(
                    "could not persist terminal pending-cancellation state: ",
                    message.as_str(),
                ),
            )
        },
    }
}

/// A removal that could not be saved leaves the pending cancellations as they
/// were.
pub proof fn failed_clear_restores(
    before: Map<Seq<char>, PendingCancellation>,
    key: Seq<char>,
)
    requires
        before.dom().contains(key),
    ensures
        before.remove(key).insert(key, before[key]) == before,
{
    assert(before.remove(key).insert(key, before[key]) =~= before);
}

/// Whether a position of the walk is the first whose record is of a run.
pub open spec fn first_of_run(
    values: Seq<PendingCancellation>,
    repo: Seq<char>,
    run_id: u64,
    i: int,
) -> bool {
    &&& 0 <= i < values.len() && values[i].repo@ == repo && values[i].run_id == run_id
    &&& forall|k: int|
        0 <= k < i ==> !((#[trigger] values[k]).repo@ == repo && values[k].run_id == run_id)
}

/// Whether a record of a run is pending.
pub open spec fn run_pending(
    values: Seq<PendingCancellation>,
    repo: Seq<char>,
    run_id: u64,
) -> bool {
    exists|i: int|
        0 <= i < values.len() && (#[trigger] values[i]).repo@ == repo && values[i].run_id == run_id
}

/// The first pending record of a run, in the order of the keys.
pub fn find_pending(pending: &TextMap<PendingCancellation>, repo: &str, run_id: u64) -> (r: Option<
    usize,
>)
    ensures
        match r {
            Some(i) => i < pending.keys().len() && first_of_run(
                pending.values(),
                repo@,
                run_id,
                i as int,
            ),
            None => !run_pending(pending.values(), repo@, run_id),
        },
        pending.keys().len() == pending.values().len(),
{
    let n: usize = pending.len();
    let mut i: usize = 0;
    while i < n
        invariant
            i <= n,
            n == pending.keys().len(),
            n == pending.values().len(),
            forall|k: int|
                0 <= k < i ==> !((#[trigger] pending.values()[k]).repo@ == repo@
                    && pending.values()[k].run_id == run_id),
        decreases n - i,
    {
        let found = pending.value_at(i);
        if str_eq(found.repo.as_str(), repo) && found.run_id == run_id {
            return Some(i);
        }
        i = i + 1;
    }
    None
}

/// Removes the pending cancellation of a run and audits why; the key and the
/// record are handed back.
pub fn clear_pending_for_run(
    ledger: &mut StewardLedger,
    repo: &str,
    run_id: u64,
    action: &str,
    at: &str,
) -> (r: Result<(String, PendingCancellation), String>)
    ensures
        match r {
            Ok((key, record)) => {
                &&& exists|i: int| #[trigger]
                    first_of_run(old(ledger).pending_cancellations.values(), repo@, run_id, i)
                        && old(ledger).pending_cancellations.keys()[i] == key@
                        && old(ledger).pending_cancellations.values()[i] == record
                &&& final(ledger).same_but_pending(*old(ledger))
                &&& final(ledger).pending_cancellations@
                    == old(ledger).pending_cancellations@.remove(key@)
                &&& final(ledger).audits() == audited(
                    old(ledger).audits(),
                    AuditTexts {
                        at: at@,
                        repo: repo@,
                        subject: capacity_subject(run_id),
                        action: action@,
                    },
                )
            },
            Err(e) => !run_pending(old(ledger).pending_cancellations.values(), repo@, run_id)
                && *final(ledger) == *old(ledger) && e@
                == "pending cancellation record for run "@ + decimal(run_id as nat)
                + " disappeared"@,
        },
{
    match find_pending(&ledger.pending_cancellations, repo, run_id) {
        Some(i) => {
            let key = ledger.pending_cancellations.key_at(i).clone();
            let _value = ledger.pending_cancellations.value_at(i);
            match clear_pending_cancellation(ledger, key.as_str(), repo, run_id, action, at) {
                Ok(record) => Ok((key, record)),
                Err(error) => Err(error),
            }
        },
        None => Err(
            concat3(
                "pending cancellation record for run ",
                to_decimal(run_id).as_str(),
                " disappeared",
            ),
        ),
    }
}

/// Binds the pending cancellation of a run to the forced cancellation that is
/// about to be sent.
pub fn persist_force_cancel_correlation(
    ledger: &mut StewardLedger,
    repo: &str,
    run_id: u64,
    correlation_id: &str,
    at: &str,
) -> (r: Result<String, String>)
    ensures
        match r {
            Ok(key) => {
                &&& exists|i: int| #[trigger]
                    first_of_run(old(ledger).pending_cancellations.values(), repo@, run_id, i)
                        && old(ledger).pending_cancellations.keys()[i] == key@
                &&& pending_updated(
                    *old(ledger),
                    *final(ledger),
                    key@,
                    PendingTexts {
                        mutation_correlation_id: correlation_id@,
                        mutation_kind: PendingMutationKind::ForceCancel,
                        ..old(ledger).pending_cancellations@[key@]@
                    },
                    at@,
                    "force_cancel_intent"@,
                )
            },
            Err(e) => !run_pending(old(ledger).pending_cancellations.values(), repo@, run_id)
                && *final(ledger) == *old(ledger) && e@ == "cancel_not_terminal run "@ + decimal(
                run_id as nat,
            ) + "; pending cancellation record disappeared"@,
        },
{
    match find_pending(&ledger.pending_cancellations, repo, run_id) {
        Some(i) => {
            let key = ledger.pending_cancellations.key_at(i).clone();
            match persist_pending_mutation_correlation(
                ledger,
                key.as_str(),
                correlation_id,
                PendingMutationKind::ForceCancel,
                at,
                "force_cancel_intent",
            ) {
                Ok(_) => Ok(key),
                Err(error) => Err(error),
            }
        },
        None => Err(
            concat3(
                "cancel_not_terminal run ",
                to_decimal(run_id).as_str(),
                "; pending cancellation record disappeared",
            ),
        ),
    }
}

/// Whether a job may still run.
pub open spec fn active_status(status: Seq<char>) -> bool {
    ||| status == "queued"@
    ||| status == "waiting"@
    ||| status == "pending"@
    ||| status == "requested"@
    ||| status == "in_progress"@
}

/// Whether a job may still run.
pub fn is_active_job(job: &StewardJob) -> (r: bool)
    ensures
        r == active_status(job.status@),
{
    let status = job.status.as_str();
    str_eq(status, "queued") || str_eq(status, "waiting") || str_eq(status, "pending") || str_eq(
        status,
        "requested",
    ) || str_eq(status, "in_progress")
}

/// The jobs that may still run.
pub fn active_jobs(jobs: Vec<StewardJob>) -> (r: Vec<StewardJob>)
    ensures
        r@ == jobs@.filter(|job: StewardJob| active_status(job.status@)),
{
    let ghost all = jobs@;
    let ghost p = |job: StewardJob| active_status(job.status@);
    let mut rest = jobs;
    let mut out: Vec<StewardJob> = Vec::new();
    let ghost mut n: int = 0;
    proof {
        assert(all.take(0).filter(p) =~= Seq::<StewardJob>::empty()) by {
            reveal(Seq::filter);
        }
        assert(rest@ =~= all.skip(0));
    }
    while rest.len() > 0
        invariant
            0 <= n <= all.len(),
            p == (|job: StewardJob| active_status(job.status@)),
            rest@ == all.skip(n),
            out@ == all.take(n).filter(p),
        decreases rest.len(),
    {
        let job = rest.remove(0);
        proof {
            reveal(Seq::filter);
            assert(all.take(n + 1).drop_last() =~= all.take(n));
            assert(all.take(n + 1).last() == job);
            assert(rest@ =~= all.skip(n + 1));
        }
        if is_active_job(&job) {
            out.push(job);
        }
        proof {
            n = n + 1;
        }
    }
    proof {
        assert(all.take(n) =~= all);
    }
    out
}

/// A job and the runner it is on.
pub open spec fn job_target(job: StewardJob) -> Seq<char> {
    job.name@ + "@"@ + or_text(opt_view(job.runner_name), "unassigned"@)
}

/// The jobs and the runners they are on, as they are reported.
pub open spec fn runner_targets(jobs: Seq<StewardJob>) -> Seq<char> {
    if jobs.len() == 0 {
        "workflow-status-only"@
    } else {
        separated(Seq::new(jobs.len(), |i: int| job_target(jobs[i])), ","@)
    }
}

/// The jobs and the runners they are on, as they are reported.
pub fn active_runner_targets(jobs: &Vec<StewardJob>) -> (r: String)
    ensures
        r@ == runner_targets(jobs@),
{
    if jobs.len() == 0 {
        return "workflow-status-only".to_owned();
    }
    let mut parts: Vec<String> = Vec::new();
    let mut i: usize = 0;
    while i < jobs.len()
        invariant
            i <= jobs.len(),
            parts@.len() == i,
            forall|k: int| 0 <= k < i ==> (#[trigger] parts@[k])@ == job_target(jobs@[k]),
        decreases jobs.len() - i,
    {
        let runner = match &jobs[i].runner_name {
            Some(name) => name.as_str(),
            None => "unassigned",
        };
        parts.push(concat3(jobs[i].name.as_str(), "@", runner));
        i = i + 1;
    }
    proof {
        assert(views(parts@) =~= Seq::new(jobs@.len(), |i: int| job_target(jobs@[i])));
    }
    join(&parts, ",")
}

/// Audits that a run did not end after its cancellation and that a forced one is
/// intended.
pub fn persist_force_cancel_intent(
    ledger: &mut StewardLedger,
    repo: &str,
    run_id: u64,
    status: &str,
    targets: &str,
    at: &str,
)
    ensures
        final(ledger).same_records(*old(ledger)),
        final(ledger).audits() == audited(
            old(ledger).audits(),
            AuditTexts {
                at: at@,
                repo: repo@,
                subject: capacity_subject(run_id),
                action: "cancel_not_terminal:status="@ + status@ + ":targets="@ + targets@
                    + ";force_cancel_intent"@,
            },
        ),
{
    let mut action: String = concat3("cancel_not_terminal:status=", status, ":targets=");
    action.append(targets);
    action.append(";force_cancel_intent");
    let subject = capacity_run_subject(run_id);
    record_audit(ledger, at, repo, subject.as_str(), action.as_str());
}

/// Audits something about a run whose capacity is taken.
pub fn audit_capacity_run(
    ledger: &mut StewardLedger,
    repo: &str,
    run_id: u64,
    action: &str,
    at: &str,
)
    ensures
        final(ledger).same_records(*old(ledger)),
        final(ledger).audits() == audited(
            old(ledger).audits(),
            AuditTexts {
                at: at@,
                repo: repo@,
                subject: capacity_subject(run_id),
                action: action@,
            },
        ),
{
    let subject = capacity_run_subject(run_id);
    record_audit(ledger, at, repo, subject.as_str(), action);
}

/// Audits that a forced cancellation failed.
pub fn audit_force_cancel_failure(ledger: &mut StewardLedger, repo: &str, run_id: u64, at: &str)
    ensures
        final(ledger).same_records(*old(ledger)),
        final(ledger).audits() == audited(
            old(ledger).audits(),
            AuditTexts {
                at: at@,
                repo: repo@,
                subject: capacity_subject(run_id),
                action: "force_cancel_failed"@,
            },
        ),
{
    audit_capacity_run(ledger, repo, run_id, "force_cancel_failed", at);
}

/// What is wrong with the record of a refused forced cancellation.
pub open spec fn rejection_failure(
    mutation: Option<Seq<char>>,
    ledger: Option<Seq<char>>,
) -> Option<Seq<char>> {
    match (mutation, ledger) {
        (None, None) => None,
        (Some(m), None) => Some("mutation audit failed: "@ + m),
        (None, Some(l)) => Some("ledger audit failed: "@ + l),
        (Some(m), Some(l)) => Some("mutation audit failed: "@ + m + "; ledger audit failed: "@ + l),
    }
}

/// What is wrong with the record of a refused forced cancellation: the failures
/// of the guard and of the ledger.
pub fn finish_force_cancel_revalidation_failure(
    mutation_audit_error: &Option<String>,
    ledger_audit_error: &Option<String>,
) -> (r: Result<(), String>)
    ensures
        match rejection_failure(opt_view(*mutation_audit_error), opt_view(*ledger_audit_error)) {
            None => r is Ok,
            Some(text) => r matches Err(e) && e@ == text,
        },
{
    match (mutation_audit_error, ledger_audit_error) {
        (None, None) => Ok(()),
        (Some(m), None) => Err(concat("mutation audit failed: ", m.as_str())),
        (None, Some(l)) => Err(concat("ledger audit failed: ", l.as_str())),
        (Some(m), Some(l)) => {
            let mut text: String = concat3(
                "mutation audit failed: ",
                m.as_str(),
                "; ledger audit failed: ",
            );
            text.append(l.as_str());
            Err(text)
        },
    }
}

/// The statuses of a job that may still run.
pub open spec fn active_statuses() -> Seq<Seq<char>> {
    seq!["queued"@, "waiting"@, "pending"@, "requested"@, "in_progress"@]
}

/// A job may still run exactly in one of the active statuses.
pub proof fn exactly_the_active_statuses_run(status: Seq<char>)
    ensures
        active_status(status) <==> active_statuses().contains(status),
{
    let a = active_statuses();
    assert(a[0] == "queued"@ && a[1] == "waiting"@ && a[2] == "pending"@ && a[3] == "requested"@
        && a[4] == "in_progress"@);
}

/// A run belongs to its own pull request where it names one, and else to that of its merge
/// group.
pub proof fn a_run_has_its_own_owner_first(own: Option<u64>, group: Option<u64>)
    ensures
        own is Some ==> run_owner(own, group) == own,
        own is None ==> run_owner(own, group) == group,
        run_owner(own, group) is None <==> own is None && group is None,
{
}

/// A marked record keeps everything but its phase, and no other record changes.
pub proof fn marking_changes_only_the_phase(
    before: StewardLedger,
    after: StewardLedger,
    key: Seq<char>,
    phase: PendingCancellationPhase,
    at: Seq<char>,
    repo: Seq<char>,
    run_id: u64,
    action: Seq<char>,
    other: Seq<char>,
)
    requires
        phase_marked(before, after, key, phase, at, repo, run_id, action),
    ensures
        after.pending_cancellations@[key].phase == phase,
        after.pending_cancellations@[key].run_id == before.pending_cancellations@[key].run_id,
        after.pending_cancellations@[key].reason@ == before.pending_cancellations@[key].reason@,
        after.pending_cancellations@[key]@.mutation_kind
            == before.pending_cancellations@[key]@.mutation_kind,
        other != key ==> (after.pending_cancellations@.dom().contains(other)
            <==> before.pending_cancellations@.dom().contains(other)) && (
        before.pending_cancellations@.dom().contains(other) ==> after.pending_cancellations@[other]
            == before.pending_cancellations@[other]),
{
    assert(after.pending_cancellations@[key]@.phase == phase);
    assert(after.pending_cancellations@[key]@.run_id
        == before.pending_cancellations@[key]@.run_id);
    assert(after.pending_cancellations@[key]@.reason
        == before.pending_cancellations@[key]@.reason);
}

/// A rejected cancellation ends well exactly where neither audit failed; what failed is told.
pub proof fn failed_audits_are_told(mutation: Option<Seq<char>>, ledger: Option<Seq<char>>)
    ensures
        rejection_failure(mutation, ledger) is None <==> mutation is None && ledger is None,
        ledger matches Some(text) ==> (rejection_failure(mutation, ledger) matches Some(told)
            && has_suffix(told, text)),
        mutation matches Some(text) ==> (ledger is None ==> (rejection_failure(mutation, ledger)
            matches Some(told) && has_suffix(told, text))),
{
    if let Some(text) = ledger {
        ends_with_its_end("ledger audit failed: "@, text);
        if let Some(m) = mutation {
            ends_with_its_end("mutation audit failed: "@ + m + "; ledger audit failed: "@, text);
        }
    }
    if let Some(text) = mutation {
        ends_with_its_end("mutation audit failed: "@, text);
    }
}

} // verus!
