//! Cancelling a run by force, once its cancellation was accepted and it did not
//! end.
use vstd::prelude::*;

use crate::capacity::{audited_once, record_removed, unchanged};
use crate::coalesce::{authority_refusal, revalidate_pending_pr_authority};
use crate::guard::{
    ends_as, ends_well, ends_with_error, ends_with_its_end, ends_with_the_last, reports_both,
    reports_done, reports_failed, Flow, FlowView,
};
use crate::json::Json;
use crate::ledger::{
    capacity_subject, pending_updated, persist_pending_mutation_correlation, AuditTexts,
    PendingCancellation, PendingMutationKind, PendingTexts, StewardLedger,
};
use crate::model::{MutationReport, ObservedPr, StewardJob};
use crate::observation::run_of;
use crate::pending::{
    active_runner_targets, audit_capacity_run, audit_force_cancel_failure,
    clear_pending_cancellation, clear_pending_for_run, finish_clear,
    finish_force_cancel_revalidation_failure, find_pending, first_of_run,
    persist_force_cancel_correlation,
    persist_force_cancel_intent, rejection_failure, run_pending, runner_targets,
};
use crate::revalidation::{blocked, labelled, managed};
use crate::terminal::{identity_refusal, read_current_pending_run_identity};
use crate::text::{concat, concat3, concat4, concat5, decimal, opt_view, to_decimal};

verus! {

/// Who cancels a run by force.
#[derive(Clone, Copy, Debug, PartialEq, Eq, Structural)]
pub enum ForceOrigin {
    /// The pass that cancelled it.
    Fresh,
    /// A later pass, from the pending record.
    Resumed,
}

/// What a forced cancellation does next.
#[derive(Clone, Copy, Debug, PartialEq, Eq, Structural)]
pub enum ForceStage {
    /// Save that it is intended.
    SaveIntent,
    /// Save the request that it will be.
    SaveCorrelation,
    /// Take the guard.
    Acquire,
    /// Read the run's pull request again.
    Authority,
    /// Read the run again.
    Identity,
    /// Finish the guard of a refused attempt.
    FinishRejected,
    /// Save the refusal.
    SaveRejected,
    /// Send the request.
    Send,
    /// Save that the request failed.
    SaveFailed,
    /// Finish the guard of an accepted request.
    FinishAccepted,
    /// Save that the request was accepted.
    SaveAccepted,
    /// Wait for the run to end.
    Wait,
    /// Save that the run has ended.
    SaveTerminal,
    /// Save that the run has not ended.
    SaveRunning,
    /// Save that the run could not be watched.
    SaveUnreadable,
}

/// A forced cancellation under way.
#[derive(Debug)]
pub struct ForceRun {
    pub origin: ForceOrigin,
    pub repo: String,
    pub run_id: u64,
    /// The key of the pending record.
    pub key: String,
    /// The jobs that still ran.
    pub targets: String,
    /// What went wrong, while it is being recorded.
    pub held: String,
    /// Why the guard of a refused attempt could not be finished.
    pub audit_error: Option<String>,
    /// The record that was removed and is being saved without.
    pub cleared: Option<(String, PendingCancellation)>,
}

/// What came of a step.
#[derive(Debug)]
pub enum ForceReply {
    Done,
    Failed(String),
    /// The intent was saved, and the request has this identity.
    Intent(String),
    /// The pull request as it is now, where it is open on its branch, and whether
    /// its head was handed to the steward.
    PullRequest { live: Option<ObservedPr>, handed_off: bool },
    /// The run as it is now.
    Run(Json),
    /// The run has ended.
    Ended,
    /// The run has not ended in time.
    Running { status: String, jobs: Vec<StewardJob> },
}

/// What a step does to the ledger.
pub enum ForceEffect {
    Nothing,
    /// Audits an action on the run.
    Audits(Seq<char>),
    /// Binds the run's record to a request.
    BindsRun(Seq<char>),
    /// Binds the record with the key to a request.
    BindsKey(Seq<char>),
    /// Removes the run's record.
    ClearsRun(Seq<char>),
    /// Removes the record with the key.
    ClearsKey(Seq<char>),
    /// Puts the removed record back.
    Restores,
}

/// How a run that did not end is reported.
pub open spec fn not_terminal(run: ForceRun, tail: Seq<char>) -> Seq<char> {
    "cancel_not_terminal run "@ + decimal(run.run_id as nat) + " active="@ + run.targets@ + tail
}

/// How an accepted request with a failure behind it is reported.
pub open spec fn accepted_but(run: ForceRun, tail: Seq<char>) -> Seq<char> {
    "force-cancel accepted for run "@ + decimal(run.run_id as nat) + tail
}

/// Why a record that is not in the ledger cannot be removed.
pub open spec fn record_gone(run_id: u64) -> Seq<char> {
    "pending cancellation record for run "@ + decimal(run_id as nat) + " disappeared"@
}

/// How a removal that could not be saved is reported.
pub open spec fn clear_unsaved(message: Seq<char>) -> Seq<char> {
    "could not persist terminal pending-cancellation state: "@ + message
}

/// What is reported of a refused attempt.
pub open spec fn rejected_text(error: Seq<char>, audit: Option<Seq<char>>) -> Seq<char> {
    match audit {
        None => "exact force-cancel attempt revalidation failed: "@ + error,
        Some(audit) => "exact force-cancel attempt revalidation failed: "@ + error
            + "; rejection audit also failed: "@ + audit,
    }
}

/// What a failure is reported as: one that follows the cancellation in one pass
/// names what became of the run.
pub open spec fn force_failure(
    origin: ForceOrigin,
    outcome: Seq<char>,
    fresh: Seq<char>,
    resumed: Seq<char>,
) -> FlowView<ForceStage> {
    match origin {
        ForceOrigin::Fresh => reports_both(outcome, fresh),
        ForceOrigin::Resumed => reports_failed(resumed),
    }
}

/// The record of the run that is cancelled by force.
pub open spec fn forced_record(run: ForceRun, ledger: StewardLedger) -> Option<
    PendingCancellation,
> {
    let pending = ledger.pending_cancellations;
    if run.origin == ForceOrigin::Fresh {
        if run_pending(pending.values(), run.repo@, run.run_id) {
            Some(
                pending.values()[choose|i: int| #[trigger]
                    first_of_run(pending.values(), run.repo@, run.run_id, i)],
            )
        } else {
            None
        }
    } else if pending@.dom().contains(run.key@) {
        Some(pending@[run.key@])
    } else {
        None
    }
}

/// Why a run is not cancelled by force after it or its pull request was read again.
pub open spec fn force_refusal(
    run: ForceRun,
    stage: ForceStage,
    reply: ForceReply,
    ledger: StewardLedger,
) -> Option<Seq<char>> {
    let gone = "pending cancellation record disappeared before force-cancel"@;
    match (stage, reply) {
        (ForceStage::Authority, ForceReply::PullRequest { live, handed_off }) => {
            match forced_record(run, ledger) {
                Some(pending) => authority_refusal(live, pending, handed_off),
                None => Some(gone),
            }
        },
        (ForceStage::Identity, ForceReply::Run(document)) => match forced_record(run, ledger) {
            Some(pending) => identity_refusal(run_of(document@), pending),
            None => Some(gone),
        },
        (ForceStage::Authority, ForceReply::Failed(error)) => Some(error@),
        (ForceStage::Identity, ForceReply::Failed(error)) => Some(error@),
        _ => None,
    }
}

/// What a forced cancellation does after a reply. A reply that belongs to
/// another stage changes nothing.
pub open spec fn force_flow(
    run: ForceRun,
    stage: ForceStage,
    reply: ForceReply,
    ledger: StewardLedger,
) -> FlowView<ForceStage> {
    let fresh = run.origin == ForceOrigin::Fresh;
    let listed = run_pending(ledger.pending_cancellations.values(), run.repo@, run.run_id);
    let keyed = ledger.pending_cancellations@.dom().contains(run.key@);
    match (stage, reply) {
        (ForceStage::SaveIntent, ForceReply::Intent(_)) => if fresh {
            if listed {
                FlowView::Next(ForceStage::SaveCorrelation)
            } else {
                reports_both(
                    "cancel_not_terminal"@,
                    "cancel_not_terminal run "@ + decimal(run.run_id as nat)
                        + "; pending cancellation record disappeared"@,
                )
            }
        } else if keyed {
            FlowView::Next(ForceStage::SaveCorrelation)
        } else {
            reports_failed("pending cancellation record disappeared"@)
        },
        (ForceStage::SaveIntent, ForceReply::Failed(e)) => force_failure(
            run.origin,
            "cancel_not_terminal"@,
            not_terminal(run, "; force-cancel intent persistence failed: "@ + e@),
            e@,
        ),
        (ForceStage::SaveCorrelation, ForceReply::Done) => FlowView::Next(ForceStage::Acquire),
        (ForceStage::SaveCorrelation, ForceReply::Failed(e)) => force_failure(
            run.origin,
            "cancel_not_terminal"@,
            "could not persist pending mutation correlation: "@ + e@,
            "could not persist pending mutation correlation: "@ + e@,
        ),
        (ForceStage::Acquire, ForceReply::Done) => FlowView::Next(ForceStage::Authority),
        (ForceStage::Acquire, ForceReply::Failed(e)) => force_failure(
            run.origin,
            "cancel_not_terminal"@,
            not_terminal(run, "; force-cancel authority failed: "@ + e@),
            e@,
        ),
        (ForceStage::Authority, ForceReply::PullRequest { .. }) | (
            ForceStage::Authority,
            ForceReply::Failed(_),
        ) => if force_refusal(run, stage, reply, ledger) is Some {
            FlowView::Next(ForceStage::FinishRejected)
        } else {
            FlowView::Next(ForceStage::Identity)
        },
        (ForceStage::Identity, ForceReply::Run(_)) | (
            ForceStage::Identity,
            ForceReply::Failed(_),
        ) => if force_refusal(run, stage, reply, ledger) is Some {
            FlowView::Next(ForceStage::FinishRejected)
        } else {
            FlowView::Next(ForceStage::Send)
        },
        (ForceStage::FinishRejected, ForceReply::Done) | (
            ForceStage::FinishRejected,
            ForceReply::Failed(_),
        ) => FlowView::Next(ForceStage::SaveRejected),
        (ForceStage::SaveRejected, ForceReply::Done) => force_failure(
            run.origin,
            "cancel_not_terminal"@,
            rejected_text(run.held@, rejection_failure(opt_view(run.audit_error), None)),
            rejected_text(run.held@, rejection_failure(opt_view(run.audit_error), None)),
        ),
        (ForceStage::SaveRejected, ForceReply::Failed(e)) => force_failure(
            run.origin,
            "cancel_not_terminal"@,
            rejected_text(run.held@, rejection_failure(opt_view(run.audit_error), Some(e@))),
            rejected_text(run.held@, rejection_failure(opt_view(run.audit_error), Some(e@))),
        ),
        (ForceStage::Send, ForceReply::Done) => FlowView::Next(ForceStage::FinishAccepted),
        (ForceStage::Send, ForceReply::Failed(e)) => if fresh {
            FlowView::Next(ForceStage::SaveFailed)
        } else {
            reports_failed("exact force-cancel failed: "@ + e@)
        },
        (ForceStage::SaveFailed, ForceReply::Done) | (
            ForceStage::SaveFailed,
            ForceReply::Failed(_),
        ) => reports_both(
            "cancel_not_terminal"@,
            not_terminal(run, "; exact force-cancel failed: "@ + run.held@),
        ),
        (ForceStage::FinishAccepted, ForceReply::Done) => FlowView::Next(
            ForceStage::SaveAccepted,
        ),
        (ForceStage::FinishAccepted, ForceReply::Failed(e)) => force_failure(
            run.origin,
            "force_cancel_accepted_unverified"@,
            accepted_but(run, ", but mutation audit failed: "@ + e@),
            "force-cancel mutation audit failed: "@ + e@,
        ),
        (ForceStage::SaveAccepted, ForceReply::Done) => FlowView::Next(ForceStage::Wait),
        (ForceStage::SaveAccepted, ForceReply::Failed(e)) => force_failure(
            run.origin,
            "force_cancel_accepted_unverified"@,
            accepted_but(run, ", but audit persistence failed: "@ + e@),
            "force-cancel accepted but recovery audit persistence failed: "@ + e@,
        ),
        (ForceStage::Wait, ForceReply::Ended) => if if fresh {
            listed
        } else {
            keyed
        } {
            FlowView::Next(ForceStage::SaveTerminal)
        } else {
            force_failure(
                run.origin,
                "force_cancelled_terminal"@,
                "force-cancel terminalized run "@ + decimal(run.run_id as nat)
                    + ", but audit persistence failed: "@ + record_gone(run.run_id),
                record_gone(run.run_id),
            )
        },
        (ForceStage::Wait, ForceReply::Running { status, jobs }) => if fresh {
            FlowView::Next(ForceStage::SaveRunning)
        } else {
            reports_failed(
                "exact force-cancel accepted but run remains "@ + status@ + " with active="@
                    + runner_targets(jobs@),
            )
        },
        (ForceStage::Wait, ForceReply::Failed(e)) => if fresh {
            FlowView::Next(ForceStage::SaveUnreadable)
        } else {
            reports_failed(e@)
        },
        (ForceStage::SaveTerminal, ForceReply::Done) => reports_done(
            if fresh {
                "force_cancelled_terminal"@
            } else {
                "recovered_force_cancel_terminal"@
            },
        ),
        (ForceStage::SaveTerminal, ForceReply::Failed(e)) => force_failure(
            run.origin,
            "force_cancelled_terminal"@,
            "force-cancel terminalized run "@ + decimal(run.run_id as nat)
                + ", but audit persistence failed: "@ + clear_unsaved(e@),
            clear_unsaved(e@),
        ),
        (ForceStage::SaveRunning, ForceReply::Done) | (
            ForceStage::SaveRunning,
            ForceReply::Failed(_),
        ) => reports_both(
            "force_cancel_not_terminal"@,
            "force_cancel_not_terminal run "@ + decimal(run.run_id as nat) + " active="@ + run.held@
                + "; exact-host, exact-run recycle handoff required"@,
        ),
        (ForceStage::SaveUnreadable, ForceReply::Done) => reports_both(
            "force_cancel_terminalization_unreadable"@,
            accepted_but(run, ", but terminalization is unreadable: "@ + run.held@),
        ),
        (ForceStage::SaveUnreadable, ForceReply::Failed(e)) => reports_both(
            "force_cancel_terminalization_unreadable"@,
            accepted_but(run, ", but terminalization is unreadable: "@ + run.held@)
                + "; audit persistence also failed: "@ + e@,
        ),
        _ => FlowView::Next(stage),
    }
}

/// What a reply does to the ledger.
pub open spec fn force_effect(
    run: ForceRun,
    stage: ForceStage,
    reply: ForceReply,
) -> ForceEffect {
    let fresh = run.origin == ForceOrigin::Fresh;
    match (stage, reply) {
        (ForceStage::SaveIntent, ForceReply::Intent(id)) => if fresh {
            ForceEffect::BindsRun(id@)
        } else {
            ForceEffect::BindsKey(id@)
        },
        (ForceStage::FinishRejected, ForceReply::Done) | (
            ForceStage::FinishRejected,
            ForceReply::Failed(_),
        ) => ForceEffect::Audits(
            if fresh {
                "force_cancel_revalidation_failed"@
            } else {
                "pending_force_cancel_revalidation_failed"@
            },
        ),
        (ForceStage::Send, ForceReply::Failed(_)) => if fresh {
            ForceEffect::Audits("force_cancel_failed"@)
        } else {
            ForceEffect::Nothing
        },
        (ForceStage::FinishAccepted, ForceReply::Done) => ForceEffect::Audits(
            if fresh {
                "force_cancel_accepted"@
            } else {
                "pending_force_cancel_accepted"@
            },
        ),
        (ForceStage::Wait, ForceReply::Ended) => if fresh {
            ForceEffect::ClearsRun("force_cancel_terminalized"@)
        } else {
            ForceEffect::ClearsKey("pending_force_cancel_terminalized"@)
        },
        (ForceStage::Wait, ForceReply::Running { jobs, .. }) => if fresh {
            ForceEffect::Audits("force_cancel_not_terminal:targets="@ + runner_targets(jobs@))
        } else {
            ForceEffect::Nothing
        },
        (ForceStage::Wait, ForceReply::Failed(_)) => if fresh {
            ForceEffect::Audits("force_cancel_terminalization_unreadable"@)
        } else {
            ForceEffect::Nothing
        },
        (ForceStage::SaveTerminal, ForceReply::Failed(_)) => ForceEffect::Restores,
        _ => ForceEffect::Nothing,
    }
}

/// Whether a ledger is what a step left of an earlier one.
pub open spec fn force_effected(
    effect: ForceEffect,
    run: ForceRun,
    run_after: ForceRun,
    at: Seq<char>,
    before: StewardLedger,
    after: StewardLedger,
) -> bool {
    let pending = before.pending_cancellations;
    match effect {
        ForceEffect::Nothing => after == before,
        ForceEffect::Audits(action) => audited_once(
            before,
            after,
            AuditTexts { at, repo: run.repo@, subject: capacity_subject(run.run_id), action },
        ),
        ForceEffect::BindsRun(id) => if run_pending(pending.values(), run.repo@, run.run_id) {
            exists|i: int| #[trigger]
                first_of_run(pending.values(), run.repo@, run.run_id, i) && pending_updated(
                    before,
                    after,
                    pending.keys()[i],
                    PendingTexts {
                        mutation_correlation_id: id,
                        mutation_kind: PendingMutationKind::ForceCancel,
                        ..pending@[pending.keys()[i]]@
                    },
                    at,
                    "force_cancel_intent"@,
                )
        } else {
            after == before
        },
        ForceEffect::BindsKey(id) => if pending@.dom().contains(run.key@) {
            pending_updated(
                before,
                after,
                run.key@,
                PendingTexts {
                    mutation_correlation_id: id,
                    mutation_kind: PendingMutationKind::ForceCancel,
                    ..pending@[run.key@]@
                },
                at,
                "pending_force_cancel_intent"@,
            )
        } else {
            after == before
        },
        ForceEffect::ClearsRun(action) => if run_pending(
            pending.values(),
            run.repo@,
            run.run_id,
        ) {
            run_after.cleared matches Some((key, record)) && record_removed(
                before,
                after,
                key@,
                run.repo@,
                run.run_id,
                action,
                at,
            ) && exists|i: int| #[trigger]
                first_of_run(pending.values(), run.repo@, run.run_id, i) && pending.keys()[i]
                    == key@ && pending.values()[i] == record
        } else {
            after == before
        },
        ForceEffect::ClearsKey(action) => if pending@.dom().contains(run.key@) {
            run_after.cleared matches Some((key, record)) && key@ == run.key@ && record
                == pending@[run.key@] && record_removed(
                before,
                after,
                run.key@,
                run.repo@,
                run.run_id,
                action,
                at,
            )
        } else {
            unchanged(before, after)
        },
        ForceEffect::Restores => match run.cleared {
            Some((key, record)) => after.same_but_pending(before) && after.pending_cancellations@
                == pending@.insert(key@, record) && after.audits() == before.audits(),
            None => after == before,
        },
    }
}

/// What a reply does to the notes of a forced cancellation.
pub open spec fn force_notes(
    run: ForceRun,
    stage: ForceStage,
    reply: ForceReply,
    ledger: StewardLedger,
    after: ForceRun,
) -> bool {
    &&& after.origin == run.origin
    &&& after.repo == run.repo
    &&& after.run_id == run.run_id
    &&& after.key == run.key
    &&& after.targets == run.targets
    &&& after.held@ == match (stage, reply) {
        (ForceStage::Authority, _) | (ForceStage::Identity, _) => match force_refusal(
            run,
            stage,
            reply,
            ledger,
        ) {
            Some(error) => error,
            None => run.held@,
        },
        (ForceStage::Send, ForceReply::Failed(e)) => e@,
        (ForceStage::Wait, ForceReply::Failed(e)) => e@,
        (ForceStage::Wait, ForceReply::Running { jobs, .. }) => runner_targets(jobs@),
        _ => run.held@,
    }
    &&& opt_view(after.audit_error) == match (stage, reply) {
        (ForceStage::FinishRejected, ForceReply::Failed(e)) => Some(e@),
        (ForceStage::FinishRejected, ForceReply::Done) => None,
        _ => opt_view(run.audit_error),
    }
}

/// Begins a forced cancellation: what still runs is audited, with the intent.
pub fn begin_force_cancel(
    origin: ForceOrigin,
    repo: &str,
    run_id: u64,
    key: &str,
    status: &str,
    jobs: &Vec<StewardJob>,
    ledger: &mut StewardLedger,
    at: &str,
) -> (r: ForceRun)
    ensures
        r.origin == origin,
        r.repo@ == repo@,
        r.run_id == run_id,
        r.key@ == key@,
        r.targets@ == runner_targets(jobs@),
        r.audit_error is None,
        r.cleared is None,
        audited_once(
            *old(ledger),
            *final(ledger),
            AuditTexts {
                at: at@,
                repo: repo@,
                subject: capacity_subject(run_id),
                action: "cancel_not_terminal:status="@ + status@ + ":targets="@ + runner_targets(
                    jobs@,
                ) + ";force_cancel_intent"@,
            },
        ),
{
    let targets = active_runner_targets(jobs);
    persist_force_cancel_intent(ledger, repo, run_id, status, targets.as_str(), at);
    ForceRun {
        origin,
        repo: repo.to_owned(),
        run_id,
        key: key.to_owned(),
        targets,
        held: String::new(),
        audit_error: None,
        cleared: None,
    }
}

fn not_terminal_text(run: &ForceRun, tail: &str, error: &str) -> (r: String)
    ensures
        r@ == not_terminal(*run, tail@ + error@),
{
    let tail_text = concat(tail, error);
    concat5(
        "cancel_not_terminal run ",
        to_decimal(run.run_id).as_str(),
        " active=",
        run.targets.as_str(),
        tail_text.as_str(),
    )
}

fn accepted_but_text(run: &ForceRun, tail: &str, error: &str) -> (r: String)
    ensures
        r@ == accepted_but(*run, tail@ + error@),
{
    let tail_text = concat(tail, error);
    concat3(
        "force-cancel accepted for run ",
        to_decimal(run.run_id).as_str(),
        tail_text.as_str(),
    )
}

fn force_failed(
    origin: ForceOrigin,
    outcome: &str,
    fresh: String,
    resumed: String,
) -> (r: Flow<ForceStage>)
    ensures
        r@ == force_failure(origin, outcome@, fresh@, resumed@),
{
    match origin {
        ForceOrigin::Fresh => Flow::Report(MutationReport::both(outcome, fresh)),
        ForceOrigin::Resumed => Flow::Report(MutationReport::failed(resumed)),
    }
}

/// What is reported of a refused attempt.
pub fn reject_initial_force_cancel_revalidation(run: &ForceRun, ledger_error: &Option<String>) -> (r:
    Flow<ForceStage>)
    ensures
        r@ == force_failure(
            run.origin,
            "cancel_not_terminal"@,
            rejected_text(
                run.held@,
                rejection_failure(opt_view(run.audit_error), opt_view(*ledger_error)),
            ),
            rejected_text(
                run.held@,
                rejection_failure(opt_view(run.audit_error), opt_view(*ledger_error)),
            ),
        ),
{
    let text = match finish_force_cancel_revalidation_failure(&run.audit_error, ledger_error) {
        Ok(_) => concat("exact force-cancel attempt revalidation failed: ", run.held.as_str()),
        Err(audit) => concat4(
            "exact force-cancel attempt revalidation failed: ",
            run.held.as_str(),
            "; rejection audit also failed: ",
            audit.as_str(),
        ),
    };
    let copy = text.clone();
    force_failed(run.origin, "cancel_not_terminal", text, copy)
}

fn clear_failed(run: &ForceRun, error: String) -> (r: Flow<ForceStage>)
    ensures
        r@ == force_failure(
            run.origin,
            "force_cancelled_terminal"@,
            "force-cancel terminalized run "@ + decimal(run.run_id as nat)
                + ", but audit persistence failed: "@ + error@,
            error@,
        ),
{
    let fresh = concat4(
        "force-cancel terminalized run ",
        to_decimal(run.run_id).as_str(),
        ", but audit persistence failed: ",
        error.as_str(),
    );
    force_failed(run.origin, "force_cancelled_terminal", fresh, error)
}

/// What a forced cancellation does once the run was watched.
pub fn verify_force_cancel_terminalization(
    run: &mut ForceRun,
    reply: ForceReply,
    ledger: &mut StewardLedger,
    at: &str,
) -> (r: Flow<ForceStage>)
    ensures
        r@ == force_flow(*old(run), ForceStage::Wait, reply, *old(ledger)),
        force_effected(
            force_effect(*old(run), ForceStage::Wait, reply),
            *old(run),
            *final(run),
            at@,
            *old(ledger),
            *final(ledger),
        ),
        force_notes(*old(run), ForceStage::Wait, reply, *old(ledger), *final(run)),
{
    let fresh = run.origin == ForceOrigin::Fresh;
    match reply {
        ForceReply::Ended => {
            if fresh {
                match clear_pending_for_run(
                    ledger,
                    run.repo.as_str(),
                    run.run_id,
                    "force_cancel_terminalized",
                    at,
                ) {
                    Ok((key, record)) => {
                        proof {
                            let values = old(ledger).pending_cancellations.values();
                            let i = choose|i: int| #[trigger]
                                first_of_run(values, run.repo@, run.run_id, i)
                                    && old(ledger).pending_cancellations.keys()[i] == key@
                                    && values[i] == record;
                            assert(values[i].repo@ == run.repo@);
                        }
                        run.cleared = Some((key, record));
                        Flow::Next(ForceStage::SaveTerminal)
                    },
                    Err(error) => clear_failed(run, error),
                }
            } else {
                match clear_pending_cancellation(
                    ledger,
                    run.key.as_str(),
                    run.repo.as_str(),
                    run.run_id,
                    "pending_force_cancel_terminalized",
                    at,
                ) {
                    Ok(record) => {
                        run.cleared = Some((run.key.clone(), record));
                        Flow::Next(ForceStage::SaveTerminal)
                    },
                    Err(error) => clear_failed(run, error),
                }
            }
        },
        ForceReply::Running { status, jobs } => {
            let targets = active_runner_targets(&jobs);
            if fresh {
                let action = concat("force_cancel_not_terminal:targets=", targets.as_str());
                audit_capacity_run(ledger, run.repo.as_str(), run.run_id, action.as_str(), at);
                run.held = targets;
                Flow::Next(ForceStage::SaveRunning)
            } else {
                let text = concat4(
                    "exact force-cancel accepted but run remains ",
                    status.as_str(),
                    " with active=",
                    targets.as_str(),
                );
                run.held = targets;
                Flow::Report(MutationReport::failed(text))
            }
        },
        ForceReply::Failed(error) => {
            if fresh {
                run.held = error;
                audit_capacity_run(
                    ledger,
                    run.repo.as_str(),
                    run.run_id,
                    "force_cancel_terminalization_unreadable",
                    at,
                );
                Flow::Next(ForceStage::SaveUnreadable)
            } else {
                run.held = error.clone();
                Flow::Report(MutationReport::failed(error))
            }
        },
        _ => Flow::Next(ForceStage::Wait),
    }
}

/// Binds the record to the request that is about to be sent.
fn bind(run: &ForceRun, id: String, ledger: &mut StewardLedger, at: &str) -> (r: Flow<ForceStage>)
    ensures
        r@ == force_flow(*run, ForceStage::SaveIntent, ForceReply::Intent(id), *old(ledger)),
        force_effected(
            force_effect(*run, ForceStage::SaveIntent, ForceReply::Intent(id)),
            *run,
            *run,
            at@,
            *old(ledger),
            *final(ledger),
        ),
{
    if run.origin == ForceOrigin::Fresh {
        match persist_force_cancel_correlation(
            ledger,
            run.repo.as_str(),
            run.run_id,
            id.as_str(),
            at,
        ) {
            Ok(key) => {
                proof {
                    let values = old(ledger).pending_cancellations.values();
                    let i = choose|i: int| #[trigger]
                        first_of_run(values, run.repo@, run.run_id, i)
                            && old(ledger).pending_cancellations.keys()[i] == key@;
                    assert(values[i].repo@ == run.repo@);
                }
                Flow::Next(ForceStage::SaveCorrelation)
            },
            Err(error) => Flow::Report(MutationReport::both("cancel_not_terminal", error)),
        }
    } else {
        match persist_pending_mutation_correlation(
            ledger,
            run.key.as_str(),
            id.as_str(),
            PendingMutationKind::ForceCancel,
            at,
            "pending_force_cancel_intent",
        ) {
            Ok(_) => Flow::Next(ForceStage::SaveCorrelation),
            Err(error) => Flow::Report(MutationReport::failed(error)),
        }
    }
}

/// The record of the run that is cancelled by force.
pub fn forced_pending<'a>(run: &ForceRun, ledger: &'a StewardLedger) -> (r: Option<
    &'a PendingCancellation,
>)
    ensures
        match r {
            Some(found) => forced_record(*run, *ledger) == Some(*found),
            None => forced_record(*run, *ledger) is None,
        },
{
    if run.origin == ForceOrigin::Fresh {
        match find_pending(&ledger.pending_cancellations, run.repo.as_str(), run.run_id) {
            Some(i) => {
                proof {
                    let values = ledger.pending_cancellations.values();
                    let k = choose|k: int| #[trigger]
                        first_of_run(values, run.repo@, run.run_id, k);
                    assert(first_of_run(values, run.repo@, run.run_id, i as int));
                    assert(k == i) by {
                        if k < i {
                            assert(values[k].run_id == run.run_id);
                        } else if i < k {
                            assert(values[i as int].run_id == run.run_id);
                        }
                    }
                }
                Some(ledger.pending_cancellations.value_at(i))
            },
            None => None,
        }
    } else {
        ledger.pending_cancellations.get(run.key.as_str())
    }
}

/// What a forced cancellation does once the run's pull request or the run was read
/// again.
fn revalidate_force_cancel(
    run: &mut ForceRun,
    stage: ForceStage,
    reply: ForceReply,
    ledger: &StewardLedger,
) -> (r: Flow<ForceStage>)
    requires
        stage == ForceStage::Authority || stage == ForceStage::Identity,
    ensures
        r@ == force_flow(*old(run), stage, reply, *ledger),
        force_effect(*old(run), stage, reply) is Nothing,
        force_notes(*old(run), stage, reply, *ledger, *final(run)),
{
    let gone = "pending cancellation record disappeared before force-cancel";
    let (next, outcome) = match (stage, reply) {
        (ForceStage::Authority, ForceReply::PullRequest { live, handed_off }) => (
            ForceStage::Identity,
            match forced_pending(run, ledger) {
                Some(pending) => revalidate_pending_pr_authority(
                    live.as_ref(),
                    pending,
                    handed_off,
                ),
                None => Err(gone.to_owned()),
            },
        ),
        (ForceStage::Identity, ForceReply::Run(document)) => (
            ForceStage::Send,
            match forced_pending(run, ledger) {
                Some(pending) => read_current_pending_run_identity(&document, pending),
                None => Err(gone.to_owned()),
            },
        ),
        (_, ForceReply::Failed(error)) => (ForceStage::FinishRejected, Err(error)),
        (stage, _) => (stage, Ok(())),
    };
    match outcome {
        Ok(_) => Flow::Next(next),
        Err(error) => {
            run.held = error;
            Flow::Next(ForceStage::FinishRejected)
        },
    }
}

/// Takes one step of a forced cancellation.
pub fn force_cancel_nonterminal_run(
    run: &mut ForceRun,
    stage: ForceStage,
    reply: ForceReply,
    ledger: &mut StewardLedger,
    at: &str,
) -> (r: Flow<ForceStage>)
    ensures
        r@ == force_flow(*old(run), stage, reply, *old(ledger)),
        force_effected(
            force_effect(*old(run), stage, reply),
            *old(run),
            *final(run),
            at@,
            *old(ledger),
            *final(ledger),
        ),
        force_notes(*old(run), stage, reply, *old(ledger), *final(run)),
{
    let fresh = run.origin == ForceOrigin::Fresh;
    match (stage, reply) {
        (ForceStage::SaveIntent, ForceReply::Intent(id)) => bind(run, id, ledger, at),
        (ForceStage::SaveIntent, ForceReply::Failed(error)) => {
            let text = not_terminal_text(
                run,
                "; force-cancel intent persistence failed: ",
                error.as_str(),
            );
            force_failed(run.origin, "cancel_not_terminal", text, error)
        },
        (ForceStage::SaveCorrelation, ForceReply::Done) => Flow::Next(ForceStage::Acquire),
        (ForceStage::SaveCorrelation, ForceReply::Failed(error)) => {
            let text = concat("could not persist pending mutation correlation: ", error.as_str());
            let copy = text.clone();
            force_failed(run.origin, "cancel_not_terminal", text, copy)
        },
        (ForceStage::Acquire, ForceReply::Done) => Flow::Next(ForceStage::Authority),
        (ForceStage::Acquire, ForceReply::Failed(error)) => {
            let text = not_terminal_text(
                run,
                "; force-cancel authority failed: ",
                error.as_str(),
            );
            force_failed(run.origin, "cancel_not_terminal", text, error)
        },
        (ForceStage::Authority, reply) => revalidate_force_cancel(
            run,
            ForceStage::Authority,
            reply,
            ledger,
        ),
        (ForceStage::Identity, reply) => revalidate_force_cancel(
            run,
            ForceStage::Identity,
            reply,
            ledger,
        ),
        (ForceStage::FinishRejected, ForceReply::Done) => {
            run.audit_error = None;
            audit_capacity_run(
                ledger,
                run.repo.as_str(),
                run.run_id,
                if fresh {
                    "force_cancel_revalidation_failed"
                } else {
                    "pending_force_cancel_revalidation_failed"
                },
                at,
            );
            Flow::Next(ForceStage::SaveRejected)
        },
        (ForceStage::FinishRejected, ForceReply::Failed(error)) => {
            run.audit_error = Some(error);
            audit_capacity_run(
                ledger,
                run.repo.as_str(),
                run.run_id,
                if fresh {
                    "force_cancel_revalidation_failed"
                } else {
                    "pending_force_cancel_revalidation_failed"
                },
                at,
            );
            Flow::Next(ForceStage::SaveRejected)
        },
        (ForceStage::SaveRejected, ForceReply::Done) => reject_initial_force_cancel_revalidation(
            run,
            &None,
        ),
        (ForceStage::SaveRejected, ForceReply::Failed(error)) => {
            reject_initial_force_cancel_revalidation(run, &Some(error))
        },
        (ForceStage::Send, ForceReply::Done) => Flow::Next(ForceStage::FinishAccepted),
        (ForceStage::Send, ForceReply::Failed(error)) => {
            if fresh {
                run.held = error;
                audit_force_cancel_failure(ledger, run.repo.as_str(), run.run_id, at);
                Flow::Next(ForceStage::SaveFailed)
            } else {
                let text = concat("exact force-cancel failed: ", error.as_str());
                run.held = error;
                Flow::Report(MutationReport::failed(text))
            }
        },
        (ForceStage::SaveFailed, ForceReply::Done) | (
            ForceStage::SaveFailed,
            ForceReply::Failed(_),
        ) => {
            let text = not_terminal_text(
                run,
                "; exact force-cancel failed: ",
                run.held.as_str(),
            );
            Flow::Report(MutationReport::both("cancel_not_terminal", text))
        },
        (ForceStage::FinishAccepted, ForceReply::Done) => {
            audit_capacity_run(
                ledger,
                run.repo.as_str(),
                run.run_id,
                if fresh {
                    "force_cancel_accepted"
                } else {
                    "pending_force_cancel_accepted"
                },
                at,
            );
            Flow::Next(ForceStage::SaveAccepted)
        },
        (ForceStage::FinishAccepted, ForceReply::Failed(error)) => {
            let text = accepted_but_text(run, ", but mutation audit failed: ", error.as_str());
            let resumed = concat("force-cancel mutation audit failed: ", error.as_str());
            force_failed(run.origin, "force_cancel_accepted_unverified", text, resumed)
        },
        (ForceStage::SaveAccepted, ForceReply::Done) => Flow::Next(ForceStage::Wait),
        (ForceStage::SaveAccepted, ForceReply::Failed(error)) => {
            let text = accepted_but_text(run, ", but audit persistence failed: ", error.as_str());
            let resumed = concat(
                "force-cancel accepted but recovery audit persistence failed: ",
                error.as_str(),
            );
            force_failed(run.origin, "force_cancel_accepted_unverified", text, resumed)
        },
        (ForceStage::Wait, reply) => verify_force_cancel_terminalization(run, reply, ledger, at),
        (ForceStage::SaveTerminal, ForceReply::Done) => Flow::Report(
            MutationReport::done(
                if fresh {
                    "force_cancelled_terminal"
                } else {
                    "recovered_force_cancel_terminal"
                },
            ),
        ),
        (ForceStage::SaveTerminal, ForceReply::Failed(error)) => {
            let text = concat(
                "could not persist terminal pending-cancellation state: ",
                error.as_str(),
            );
            match run.cleared.take() {
                Some((key, record)) => {
                    let _ = finish_clear(ledger, key.as_str(), record, Err(error));
                },
                None => {},
            }
            clear_failed(run, text)
        },
        (ForceStage::SaveRunning, ForceReply::Done) | (
            ForceStage::SaveRunning,
            ForceReply::Failed(_),
        ) => {
            let text = concat5(
                "force_cancel_not_terminal run ",
                to_decimal(run.run_id).as_str(),
                " active=",
                run.held.as_str(),
                "; exact-host, exact-run recycle handoff required",
            );
            Flow::Report(MutationReport::both("force_cancel_not_terminal", text))
        },
        (ForceStage::SaveUnreadable, ForceReply::Done) => {
            let text = accepted_but_text(
                run,
                ", but terminalization is unreadable: ",
                run.held.as_str(),
            );
            Flow::Report(MutationReport::both("force_cancel_terminalization_unreadable", text))
        },
        (ForceStage::SaveUnreadable, ForceReply::Failed(error)) => {
            let text = accepted_but_text(
                run,
                ", but terminalization is unreadable: ",
                run.held.as_str(),
            );
            let longer = concat3(
                text.as_str(),
                "; audit persistence also failed: ",
                error.as_str(),
            );
            Flow::Report(MutationReport::both("force_cancel_terminalization_unreadable", longer))
        },
        _ => Flow::Next(stage),
    }
}

/// A run is cancelled by force only after the intent and the request were saved,
/// the guard was taken, and the run's pull request and then the run were read again.
pub proof fn force_follows_its_saved_intent(
    run: ForceRun,
    stage: ForceStage,
    reply: ForceReply,
    ledger: StewardLedger,
    next: ForceStage,
)
    requires
        force_flow(run, stage, reply, ledger) == FlowView::Next(next),
        next != stage,
    ensures
        next == ForceStage::Send ==> stage == ForceStage::Identity && reply is Run && force_refusal(
            run,
            stage,
            reply,
            ledger,
        ) is None,
        next == ForceStage::Identity ==> stage == ForceStage::Authority && reply is PullRequest
            && force_refusal(run, stage, reply, ledger) is None,
        next == ForceStage::Authority ==> stage == ForceStage::Acquire && reply is Done,
        next == ForceStage::Acquire ==> stage == ForceStage::SaveCorrelation && reply is Done,
        next == ForceStage::SaveCorrelation ==> stage == ForceStage::SaveIntent && reply is Intent,
        next != ForceStage::SaveIntent,
{
}

/// A run whose pull request does not permit it now is not cancelled by force,
/// whichever pass began the cancellation: one that is closed, opted out or blocked
/// by a label, or that is no longer in the steward's hands.
pub proof fn force_needs_current_authority(
    run: ForceRun,
    live: Option<ObservedPr>,
    handed_off: bool,
    ledger: StewardLedger,
)
    requires
        forced_record(run, ledger) matches Some(pending) && (match live {
            None => true,
            Some(pr) => blocked(pr, pending.provenance_blocking_labels@) || labelled(
                pr.fact.labels@,
                pending.opt_out_label@,
            ) || !managed(pr, pending.managed_label@, handed_off),
        }),
    ensures
        force_flow(
            run,
            ForceStage::Authority,
            ForceReply::PullRequest { live, handed_off },
            ledger,
        ) == FlowView::Next(ForceStage::FinishRejected),
{
}

proof fn force_names_differ()
    ensures
        "force_cancelled_terminal"@ != "recovered_force_cancel_terminal"@,
        "force_cancelled_terminal"@ != "cancel_not_terminal"@,
        "force_cancelled_terminal"@ != "force_cancel_accepted_unverified"@,
        "force_cancelled_terminal"@ != "force_cancel_not_terminal"@,
        "force_cancelled_terminal"@ != "force_cancel_terminalization_unreadable"@,
        "recovered_force_cancel_terminal"@ != "cancel_not_terminal"@,
        "recovered_force_cancel_terminal"@ != "force_cancel_accepted_unverified"@,
        "recovered_force_cancel_terminal"@ != "force_cancel_not_terminal"@,
        "recovered_force_cancel_terminal"@ != "force_cancel_terminalization_unreadable"@,
        "force_cancel_accepted_unverified"@ != "cancel_not_terminal"@,
        "force_cancel_accepted_unverified"@ != "force_cancel_not_terminal"@,
        "force_cancel_accepted_unverified"@ != "force_cancel_terminalization_unreadable"@,
{
    reveal_strlit("force_cancelled_terminal");
    reveal_strlit("recovered_force_cancel_terminal");
    reveal_strlit("cancel_not_terminal");
    reveal_strlit("force_cancel_accepted_unverified");
    reveal_strlit("force_cancel_not_terminal");
    reveal_strlit("force_cancel_terminalization_unreadable");
    assert("force_cancelled_terminal"@.len() == 24);
    assert("recovered_force_cancel_terminal"@.len() == 31);
    assert("cancel_not_terminal"@.len() == 19);
    assert("force_cancel_accepted_unverified"@.len() == 32);
    assert("force_cancel_not_terminal"@.len() == 25);
    assert("force_cancel_terminalization_unreadable"@.len() == 39);
}

/// What a run is told as that has ended after it was cancelled by force.
pub open spec fn terminal_name(origin: ForceOrigin) -> Seq<char> {
    if origin == ForceOrigin::Fresh {
        "force_cancelled_terminal"@
    } else {
        "recovered_force_cancel_terminal"@
    }
}

/// A run is told as terminated only where it was seen to have ended after the request;
/// one that keeps running is never told without an error.
pub proof fn only_an_ended_run_is_told_as_forced(
    run: ForceRun,
    stage: ForceStage,
    reply: ForceReply,
    ledger: StewardLedger,
)
    ensures
        ({
            let flow = force_flow(run, stage, reply, ledger);
            &&& ends_well(flow) <==> stage == ForceStage::SaveTerminal && reply is Done
            &&& ends_well(flow) ==> ends_as(flow, terminal_name(run.origin))
            &&& ends_as(flow, terminal_name(run.origin)) ==> stage == ForceStage::SaveTerminal || (
            stage == ForceStage::Wait && reply is Ended)
            &&& flow == FlowView::Next(ForceStage::SaveTerminal) && stage
                != ForceStage::SaveTerminal ==> stage == ForceStage::Wait && reply is Ended
            &&& stage == ForceStage::Wait && reply is Ended && forced_record(run, ledger) is Some
                ==> flow == FlowView::Next(ForceStage::SaveTerminal)
            &&& stage == ForceStage::Wait && reply is Running ==> if run.origin
                == ForceOrigin::Fresh {
                flow == FlowView::Next(ForceStage::SaveRunning)
            } else {
                !(flow is Next) && !ends_well(flow)
            }
            &&& stage == ForceStage::SaveRunning && (reply is Done || reply is Failed) ==> ends_as(
                flow,
                "force_cancel_not_terminal"@,
            ) && !ends_well(flow)
        }),
{
    force_names_differ();
}

/// How many steps lie between a step and the wait for the run's end, where every reply
/// is favourable.
pub open spec fn steps_to_the_end(stage: ForceStage) -> Option<nat> {
    match stage {
        ForceStage::SaveIntent => Some(8),
        ForceStage::SaveCorrelation => Some(7),
        ForceStage::Acquire => Some(6),
        ForceStage::Authority => Some(5),
        ForceStage::Identity => Some(4),
        ForceStage::Send => Some(3),
        ForceStage::FinishAccepted => Some(2),
        ForceStage::SaveAccepted => Some(1),
        ForceStage::Wait => Some(0),
        _ => None,
    }
}

/// A run whose record is kept, whose pull request still permits it and that is still the
/// recorded attempt is cancelled by force: every favourable reply leads one step on
/// towards the wait for its end.
pub proof fn a_permitted_run_is_forced(
    run: ForceRun,
    stage: ForceStage,
    reply: ForceReply,
    ledger: StewardLedger,
)
    requires
        forced_record(run, ledger) is Some,
        steps_to_the_end(stage) matches Some(left) && left > 0,
        match stage {
            ForceStage::SaveIntent => reply is Intent,
            ForceStage::Authority => reply is PullRequest && force_refusal(
                run,
                stage,
                reply,
                ledger,
            ) is None,
            ForceStage::Identity => reply is Run && force_refusal(run, stage, reply, ledger)
                is None,
            _ => reply is Done,
        },
    ensures
        force_flow(run, stage, reply, ledger) matches FlowView::Next(next) && steps_to_the_end(next)
            == Some((steps_to_the_end(stage)->Some_0 - 1) as nat),
{
}

/// A run that is refused, or that could not be read again, is not cancelled by force: the
/// guard is finished, and the refusal is told with an error.
pub proof fn a_refused_run_is_not_forced(
    run: ForceRun,
    stage: ForceStage,
    reply: ForceReply,
    ledger: StewardLedger,
    after: ForceRun,
)
    requires
        stage == ForceStage::Authority || stage == ForceStage::Identity,
        force_refusal(run, stage, reply, ledger) is Some,
        force_notes(run, stage, reply, ledger, after),
    ensures
        force_flow(run, stage, reply, ledger) == FlowView::Next(ForceStage::FinishRejected),
        after.held@ == force_refusal(run, stage, reply, ledger)->Some_0,
        reply matches ForceReply::Failed(error) ==> after.held@ == error@,
        forall|told: ForceReply|
            (told is Done || told is Failed) ==> #[trigger] force_flow(
                after,
                ForceStage::FinishRejected,
                told,
                ledger,
            ) == FlowView::Next(ForceStage::SaveRejected),
        forall|told: ForceReply|
            (told is Done || told is Failed) ==> !(#[trigger] force_flow(
                after,
                ForceStage::SaveRejected,
                told,
                ledger,
            ) is Next) && !ends_well(force_flow(after, ForceStage::SaveRejected, told, ledger)),
{
}

/// What fails is told with an error that ends with it, or is recorded first and told
/// then; nothing that fails is told without an error.
pub proof fn force_failures_are_told(
    run: ForceRun,
    stage: ForceStage,
    error: String,
    ledger: StewardLedger,
)
    ensures
        ({
            let flow = force_flow(run, stage, ForceReply::Failed(error), ledger);
            let fresh = run.origin == ForceOrigin::Fresh;
            &&& !ends_well(flow)
            &&& flow matches FlowView::Next(next) ==> match stage {
                ForceStage::Authority | ForceStage::Identity => next == ForceStage::FinishRejected,
                ForceStage::FinishRejected => next == ForceStage::SaveRejected,
                ForceStage::Send => fresh && next == ForceStage::SaveFailed,
                ForceStage::Wait => fresh && next == ForceStage::SaveUnreadable,
                _ => false,
            }
            &&& match stage {
                ForceStage::SaveIntent
                | ForceStage::SaveCorrelation
                | ForceStage::Acquire
                | ForceStage::FinishAccepted
                | ForceStage::SaveAccepted
                | ForceStage::SaveTerminal
                | ForceStage::SaveUnreadable => ends_with_error(flow, error@),
                ForceStage::Send | ForceStage::Wait => fresh || ends_with_error(flow, error@),
                ForceStage::SaveFailed => ends_with_error(flow, run.held@),
                _ => true,
            }
        }),
        ends_with_error(
            force_flow(run, ForceStage::SaveUnreadable, ForceReply::Done, ledger),
            run.held@,
        ),
        ends_with_error(
            force_flow(run, ForceStage::SaveFailed, ForceReply::Done, ledger),
            run.held@,
        ),
{
    let e = error@;
    let h = run.held@;
    let named = "cancel_not_terminal run "@ + decimal(run.run_id as nat) + " active="@
        + run.targets@;
    let accepted = "force-cancel accepted for run "@ + decimal(run.run_id as nat);
    let ended = "force-cancel terminalized run "@ + decimal(run.run_id as nat)
        + ", but audit persistence failed: "@;
    ends_with_its_end("could not persist pending mutation correlation: "@, e);
    ends_with_its_end("exact force-cancel failed: "@, e);
    ends_with_its_end("force-cancel mutation audit failed: "@, e);
    ends_with_its_end("force-cancel accepted but recovery audit persistence failed: "@, e);
    ends_with_its_end("could not persist terminal pending-cancellation state: "@, e);
    ends_with_the_last(named, "; force-cancel intent persistence failed: "@, e);
    ends_with_the_last(named, "; force-cancel authority failed: "@, e);
    ends_with_the_last(named, "; exact force-cancel failed: "@, h);
    ends_with_the_last(accepted, ", but mutation audit failed: "@, e);
    ends_with_the_last(accepted, ", but audit persistence failed: "@, e);
    ends_with_the_last(accepted, ", but terminalization is unreadable: "@, h);
    ends_with_the_last(
        ended,
        "could not persist terminal pending-cancellation state: "@,
        e,
    );
    ends_with_its_end(
        accepted_but(run, ", but terminalization is unreadable: "@ + h)
            + "; audit persistence also failed: "@,
        e,
    );
}

/// A record of a forced cancellation is bound to a request exactly when its intent is saved,
/// goes exactly when the run has ended, and comes back exactly where that could not be
/// saved; a run that is still running keeps its record.
pub proof fn a_forced_record_goes_only_with_its_run(
    run: ForceRun,
    stage: ForceStage,
    reply: ForceReply,
)
    ensures
        ({
            let effect = force_effect(run, stage, reply);
            &&& effect is ClearsRun || effect is ClearsKey <==> stage is Wait && reply is Ended
            &&& effect is ClearsRun ==> run.origin == ForceOrigin::Fresh
            &&& effect is ClearsKey ==> run.origin != ForceOrigin::Fresh
            &&& effect is BindsRun || effect is BindsKey <==> stage is SaveIntent && reply is Intent
            &&& effect is Restores <==> stage is SaveTerminal && reply is Failed
            &&& effect matches ForceEffect::BindsRun(id) ==> (reply matches ForceReply::Intent(given)
                && given@ == id) && run.origin == ForceOrigin::Fresh
            &&& effect matches ForceEffect::BindsKey(id) ==> (reply matches ForceReply::Intent(given)
                && given@ == id) && run.origin != ForceOrigin::Fresh
            &&& stage is Wait && reply is Running ==> effect is Audits || effect is Nothing
        }),
{
}

/// What clears takes the record of the run away and remembers it, what binds makes it one of
/// a forced cancellation, what restores puts it back, and what audits leaves the records.
pub proof fn an_effect_does_what_it_says(
    effect: ForceEffect,
    run: ForceRun,
    run_after: ForceRun,
    at: Seq<char>,
    before: StewardLedger,
    after: StewardLedger,
)
    requires
        force_effected(effect, run, run_after, at, before, after),
    ensures
        effect is Audits || effect is Nothing ==> after.pending_cancellations
            == before.pending_cancellations,
        effect is ClearsKey && before.pending_cancellations@.dom().contains(run.key@)
            ==> !after.pending_cancellations@.dom().contains(run.key@) && (run_after.cleared
            matches Some((key, record)) && key@ == run.key@ && record
            == before.pending_cancellations@[run.key@]),
        effect is ClearsRun && run_pending(
            before.pending_cancellations.values(),
            run.repo@,
            run.run_id,
        ) ==> (run_after.cleared matches Some((key, record))
            && !after.pending_cancellations@.dom().contains(key@) && record.run_id == run.run_id),
        effect matches ForceEffect::BindsKey(id) ==> (before.pending_cancellations@.dom().contains(
            run.key@,
        ) ==> after.pending_cancellations@[run.key@].mutation_kind
            == PendingMutationKind::ForceCancel
            && after.pending_cancellations@[run.key@].mutation_correlation_id@ == id),
        effect is Restores ==> (run.cleared matches Some((key, record))
            ==> after.pending_cancellations@.dom().contains(key@)
            && after.pending_cancellations@[key@] == record),
        after.preemption_attempts == before.preemption_attempts && after.terminal_handoffs
            == before.terminal_handoffs,
{
    if let ForceEffect::BindsKey(id) = effect {
        if before.pending_cancellations@.dom().contains(run.key@) {
            let view = after.pending_cancellations@[run.key@]@;
            assert(view.mutation_kind == PendingMutationKind::ForceCancel
                && view.mutation_correlation_id == id);
        }
    }
}

} // verus!
