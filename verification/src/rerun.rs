//! Rerunning workflow runs that failed for passing reasons.
//!
//! Every rerun is counted in the ledger before it is sent, and the count is
//! taken back where the run turns out not to qualify. The provider's own attempt
//! number bounds the reruns as well.
use vstd::prelude::*;

use crate::guard::{ends_with_its_end, ends_with_the_last};
use crate::ledger::{
    attempt_key, attempt_key_text, audited, record_audit, AuditTexts, StewardLedger,
};
use crate::model::{
    append_audit_failure, with_audit_failure, MutationReport, StewardDecision, StewardRun,
};
use crate::numbers::has_number;
use crate::text::{
    concat, concat3, decimal, eq_ignore_case, has_suffix, join, lower, same_ignoring_case,
    separated, to_decimal, views,
};

verus! {

/// Whether a run may be rerun once more, judged by the provider's own count: the
/// reruns it already accepted are below the limit.
pub open spec fn attempt_allows(run_attempt: u64, max_transient_reruns: u32) -> bool {
    (if run_attempt == 0 {
        0
    } else {
        run_attempt - 1
    }) < max_transient_reruns
}

/// Whether the provider's attempt number leaves room for one more rerun.
pub fn run_attempt_allows_transient_rerun(run_attempt: u64, max_transient_reruns: u32) -> (r: bool)
    ensures
        r == attempt_allows(run_attempt, max_transient_reruns),
{
    let already_accepted: u64 = if run_attempt > 0 {
        run_attempt - 1
    } else {
        0
    };
    already_accepted < max_transient_reruns as u64
}

/// Whether a run may still be rerun.
#[derive(Clone, Copy, Debug, PartialEq, Eq, Structural)]
pub enum TransientRerunRevalidation {
    Eligible,
    Exhausted { accepted_attempts: u32 },
    Stale,
}

/// The conclusions after which a rerun may help.
pub open spec fn transient_conclusion(conclusion: Seq<char>) -> bool {
    ||| same_ignoring_case(conclusion, "cancelled"@)
    ||| same_ignoring_case(conclusion, "timed_out"@)
    ||| same_ignoring_case(conclusion, "startup_failure"@)
    ||| same_ignoring_case(conclusion, "stale"@)
}

/// The reruns that a run has had, as far as they can be counted.
pub open spec fn accepted_before(run_attempt: u64) -> u32 {
    if run_attempt == 0 {
        0
    } else if run_attempt - 1 <= u32::MAX {
        (run_attempt - 1) as u32
    } else {
        u32::MAX
    }
}

/// Whether a run, read again, may still be rerun: the pull request still has the
/// observed head and is still to be rerun, and the run is that head's own run
/// with a passing failure. Beyond the limit it is exhausted.
pub open spec fn rerun_state(
    live: Option<(u64, Seq<char>)>,
    observed_head: Seq<char>,
    live_decision: StewardDecision,
    run_id: u64,
    run: Option<StewardRun>,
    conclusion: Seq<char>,
    max_transient_reruns: u32,
) -> TransientRerunRevalidation {
    match (live, run) {
        (Some((number, head)), Some(run)) => if same_ignoring_case(head, observed_head) && (
        live_decision matches StewardDecision::RerunTransient { run_ids } && run_ids@.contains(
            run_id,
        )) && same_ignoring_case(run.status@, "completed"@) && same_ignoring_case(
            run.head_sha@,
            head,
        ) && run.pull_request_number == Some(number) && transient_conclusion(conclusion) {
            if accepted_before(run.run_attempt) < max_transient_reruns {
                TransientRerunRevalidation::Eligible
            } else {
                TransientRerunRevalidation::Exhausted {
                    accepted_attempts: accepted_before(run.run_attempt),
                }
            }
        } else {
            TransientRerunRevalidation::Stale
        },
        _ => TransientRerunRevalidation::Stale,
    }
}

fn is_transient_conclusion(conclusion: &str) -> (r: bool)
    ensures
        r == transient_conclusion(conclusion@),
{
    eq_ignore_case(conclusion, "cancelled") || eq_ignore_case(conclusion, "timed_out")
        || eq_ignore_case(conclusion, "startup_failure") || eq_ignore_case(conclusion, "stale")
}

/// Whether a run is read again before it is rerun: the pull request must have kept
/// its head, and the decision about it must still ask for the rerun.
pub fn reads_rerun(
    live_head: &str,
    observed_head: &str,
    live_decision: &StewardDecision,
    run_id: u64,
) -> (r: bool)
    ensures
        r == (same_ignoring_case(live_head@, observed_head@) && (
        live_decision matches StewardDecision::RerunTransient { run_ids } && run_ids@.contains(
            run_id,
        ))),
{
    if !eq_ignore_case(live_head, observed_head) {
        return false;
    }
    match live_decision {
        StewardDecision::RerunTransient { run_ids } => has_number(run_ids, run_id),
        _ => false,
    }
}

/// A run that is not read again is not rerun, whatever it is like.
pub proof fn unread_runs_are_not_rerun(
    live: (u64, Seq<char>),
    observed_head: Seq<char>,
    decision: StewardDecision,
    run_id: u64,
    run: Option<StewardRun>,
    conclusion: Seq<char>,
    max_transient_reruns: u32,
)
    requires
        !(same_ignoring_case(live.1, observed_head) && (
        decision matches StewardDecision::RerunTransient { run_ids } && run_ids@.contains(run_id))),
    ensures
        rerun_state(
            Some(live),
            observed_head,
            decision,
            run_id,
            run,
            conclusion,
            max_transient_reruns,
        ) == TransientRerunRevalidation::Stale,
{
}

/// Decides whether a run, read again, may still be rerun.
///
/// `live_decision` is the decision about the pull request with the rerun that is
/// about to be sent not yet counted.
pub fn revalidate_transient_rerun(
    live_number: Option<u64>,
    live_head: &str,
    observed_head: &str,
    live_decision: &StewardDecision,
    run_id: u64,
    run: &Option<StewardRun>,
    conclusion: &str,
    max_transient_reruns: u32,
) -> (r: TransientRerunRevalidation)
    ensures
        r == rerun_state(
            match live_number {
                Some(number) => Some((number, live_head@)),
                None => None,
            },
            observed_head@,
            *live_decision,
            run_id,
            *run,
            conclusion@,
            max_transient_reruns,
        ),
{
    let number: u64 = match live_number {
        Some(number) => number,
        None => return TransientRerunRevalidation::Stale,
    };
    if !reads_rerun(live_head, observed_head, live_decision, run_id) {
        return TransientRerunRevalidation::Stale;
    }
    match run {
        Some(run) => {
            if !eq_ignore_case(run.status.as_str(), "completed") || !eq_ignore_case(
                run.head_sha.as_str(),
                live_head,
            ) || run.pull_request_number != Some(number) || !is_transient_conclusion(conclusion) {
                return TransientRerunRevalidation::Stale;
            }
            if run_attempt_allows_transient_rerun(run.run_attempt, max_transient_reruns) {
                TransientRerunRevalidation::Eligible
            } else {
                let accepted: u64 = if run.run_attempt > 0 {
                    run.run_attempt - 1
                } else {
                    0
                };
                TransientRerunRevalidation::Exhausted {
                    accepted_attempts: if accepted <= u32::MAX as u64 {
                        accepted as u32
                    } else {
                        u32::MAX
                    },
                }
            }
        },
        None => TransientRerunRevalidation::Stale,
    }
}

/// A run is rerun at most as often as the limit says, whatever the ledger says:
/// once the provider has accepted that many reruns, no run is eligible.
pub proof fn accepted_reruns_bound_eligibility(
    live: Option<(u64, Seq<char>)>,
    observed_head: Seq<char>,
    live_decision: StewardDecision,
    run_id: u64,
    run: StewardRun,
    conclusion: Seq<char>,
    max_transient_reruns: u32,
)
    requires
        run.run_attempt > max_transient_reruns,
    ensures
        rerun_state(
            live,
            observed_head,
            live_decision,
            run_id,
            Some(run),
            conclusion,
            max_transient_reruns,
        ) != TransientRerunRevalidation::Eligible,
{
}

/// How often a key was counted.
pub open spec fn counted(map: Map<Seq<char>, u32>, key: Seq<char>) -> u32 {
    if map.dom().contains(key) {
        map[key]
    } else {
        0
    }
}

/// Whether two ledgers differ at most in their rerun counts and audit trail.
pub open spec fn same_but_attempts(before: StewardLedger, after: StewardLedger) -> bool {
    &&& after.preemption_attempts == before.preemption_attempts
    &&& after.pending_cancellations == before.pending_cancellations
    &&& after.queue_witnesses == before.queue_witnesses
    &&& after.queue_recovery_receipts == before.queue_recovery_receipts
    &&& after.terminal_handoffs == before.terminal_handoffs
}

/// The audit subject of a run of a head.
pub open spec fn run_subject(run_id: u64, head: Seq<char>) -> Seq<char> {
    "run:"@ + decimal(run_id as nat) + ":"@ + head
}

/// The audit subject of a run of a head.
pub fn run_audit_subject(run_id: u64, head: &str) -> (r: String)
    ensures
        r@ == run_subject(run_id, head@),
{
    let mut out: String = concat3("run:", to_decimal(run_id).as_str(), ":");
    out.append(head);
    out
}

/// The counts with one rerun taken back.
pub open spec fn taken_back(map: Map<Seq<char>, u32>, key: Seq<char>) -> Map<Seq<char>, u32> {
    if counted(map, key) <= 1 {
        map.remove(key)
    } else {
        map.insert(key, (counted(map, key) - 1) as u32)
    }
}

/// Takes a counted rerun back and audits why; the count before is returned, to
/// be put back where the ledger cannot be saved.
pub fn rollback_transient_attempt(
    ledger: &mut StewardLedger,
    key: &str,
    at: &str,
    repo: &str,
    run_id: u64,
    head_sha: &str,
    action: &str,
) -> (prior: u32)
    ensures
        prior == counted(old(ledger).transient_attempts@, key@),
        final(ledger).transient_attempts@ == taken_back(old(ledger).transient_attempts@, key@),
        same_but_attempts(*old(ledger), *final(ledger)),
        final(ledger).audits() == audited(
            old(ledger).audits(),
            AuditTexts {
                at: at@,
                repo: repo@,
                subject: run_subject(run_id, head_sha@),
                action: action@,
            },
        ),
{
    let prior: u32 = match ledger.transient_attempts.get(key) {
        Some(count) => *count,
        None => 0,
    };
    if prior <= 1 {
        let _ = ledger.transient_attempts.remove(key);
    } else {
        ledger.transient_attempts.insert(key.to_owned(), prior - 1);
    }
    let subject = run_audit_subject(run_id, head_sha);
    record_audit(ledger, at, repo, subject.as_str(), action);
    prior
}

/// Ends a rollback: where the ledger could not be saved, the count is put back.
pub fn finish_rollback(
    ledger: &mut StewardLedger,
    key: &str,
    prior: u32,
    saved: Result<(), String>,
) -> (r: Result<(), String>)
    ensures
        match saved {
            Ok(_) => r is Ok && *final(ledger) == *old(ledger),
            Err(message) => (r matches Err(e) && e@
                == "could not persist transient rerun rollback: "@ + message@)
                && final(ledger).transient_attempts@ == old(ledger).transient_attempts@.insert(key@, prior)
                && same_but_attempts(*old(ledger), *final(ledger)) && final(ledger).audits()
                == old(ledger).audits(),
        },
{
    match saved {
        Ok(_) => Ok(()),
        Err(message) => {
            ledger.transient_attempts.insert(key.to_owned(), prior);
            Err(concat("could not persist transient rerun rollback: ", message.as_str()))
        },
    }
}

/// Counting a rerun and taking it back leaves the counts as they were.
pub proof fn rollback_undoes_the_count(map: Map<Seq<char>, u32>, key: Seq<char>)
    requires
        counted(map, key) < u32::MAX,
        map.dom().contains(key) ==> map[key] > 0,
    ensures
        taken_back(map.insert(key, (counted(map, key) + 1) as u32), key) == map,
{
    let more = map.insert(key, (counted(map, key) + 1) as u32);
    assert(taken_back(more, key) =~= map);
}

/// What is done about the current run next.
#[derive(Clone, Copy, Debug, PartialEq, Eq, Structural)]
pub enum RerunStage {
    /// Acquire the mutation guard.
    Guard,
    /// Save the counted intent.
    SaveIntent,
    /// Record that the intent could not be saved.
    FinishAborted,
    /// Read the pull request and the run again.
    Revalidate,
    /// Record that the run no longer qualifies.
    FinishStale,
    /// Save the count that was taken back.
    SaveStale,
    /// Save the count of an exhausted run.
    SaveExhausted,
    /// Record that the run is exhausted.
    FinishExhausted,
    /// Record that the run could not be read again.
    FinishUnreadable,
    /// Save the count that was taken back after a failed read.
    SaveUnreadable,
    /// Send the rerun.
    Send,
    /// Record that the rerun was accepted.
    FinishSent,
    /// Every run was gone through, or the pass was aborted.
    Done,
}

/// Where a pass over the runs stands.
#[derive(Debug)]
pub struct RerunPass {
    pub stage: RerunStage,
    /// The runs that are left, the current one first.
    pub runs: Vec<u64>,
    /// The error that is being dealt with.
    pub held: String,
    /// The count before the intent was taken back.
    pub prior: u32,
    pub errors: Vec<String>,
    pub rerun: Vec<u64>,
    pub exhausted: Vec<u64>,
}

/// What a pass has come to.
pub struct PassView {
    pub stage: RerunStage,
    pub runs: Seq<u64>,
    pub held: Seq<char>,
    pub prior: u32,
    pub errors: Seq<Seq<char>>,
    pub rerun: Seq<u64>,
    pub exhausted: Seq<u64>,
}

impl View for RerunPass {
    type V = PassView;

    open spec fn view(&self) -> PassView {
        PassView {
            stage: self.stage,
            runs: self.runs@,
            held: self.held@,
            prior: self.prior,
            errors: views(self.errors@),
            rerun: self.rerun@,
            exhausted: self.exhausted@,
        }
    }
}

/// What came of a step.
#[derive(Debug)]
pub enum RerunReply {
    /// The step succeeded.
    Done,
    /// The step failed.
    Failed(String),
    /// What reading the run again showed.
    Revalidated(TransientRerunRevalidation),
}

impl PassView {
    /// The pass turns to the next run.
    pub open spec fn next(self) -> PassView {
        PassView {
            stage: if self.runs.len() <= 1 {
                RerunStage::Done
            } else {
                RerunStage::Guard
            },
            runs: self.runs.drop_first(),
            held: Seq::empty(),
            ..self
        }
    }

    /// The pass notes an error.
    pub open spec fn noting(self, error: Seq<char>) -> PassView {
        PassView { errors: self.errors.push(error), ..self }
    }

    /// The pass goes on with the same run.
    pub open spec fn at(self, stage: RerunStage) -> PassView {
        PassView { stage, ..self }
    }

    /// The pass goes on with the same run and an error to deal with.
    pub open spec fn holding(self, stage: RerunStage, error: Seq<char>) -> PassView {
        PassView { stage, held: error, ..self }
    }

    /// What follows a reply. `count` is how often the current run is counted.
    pub open spec fn step(self, reply: RerunReply, count: u32) -> PassView {
        let run = self.runs[0];
        match (self.stage, reply) {
            (RerunStage::Guard, RerunReply::Done) => self.at(RerunStage::SaveIntent),
            (RerunStage::Guard, RerunReply::Failed(e)) => self.noting(e@).next(),
            (RerunStage::SaveIntent, RerunReply::Done) => self.at(RerunStage::Revalidate),
            (RerunStage::SaveIntent, RerunReply::Failed(e)) => self.holding(
                RerunStage::FinishAborted,
                "could not persist transient rerun intent: "@ + e@,
            ),
            (RerunStage::FinishAborted, RerunReply::Done) => PassView {
                stage: RerunStage::Done,
                runs: Seq::empty(),
                errors: seq![self.held],
                ..self
            },
            (RerunStage::FinishAborted, RerunReply::Failed(e)) => PassView {
                stage: RerunStage::Done,
                runs: Seq::empty(),
                errors: seq![with_audit_failure(self.held, Some(e@))],
                ..self
            },
            (RerunStage::Revalidate, RerunReply::Revalidated(found)) => match found {
                TransientRerunRevalidation::Eligible => self.at(RerunStage::Send),
                TransientRerunRevalidation::Exhausted { .. } => self.at(RerunStage::SaveExhausted),
                TransientRerunRevalidation::Stale => self.at(RerunStage::FinishStale),
            },
            (RerunStage::Revalidate, RerunReply::Failed(e)) => self.holding(
                RerunStage::FinishUnreadable,
                e@,
            ),
            (RerunStage::FinishStale, RerunReply::Done) => PassView {
                stage: RerunStage::SaveStale,
                prior: count,
                ..self
            },
            (RerunStage::FinishStale, RerunReply::Failed(e)) => self.noting(
                "rerun skip mutation audit failed: "@ + e@,
            ).next(),
            (RerunStage::SaveStale, RerunReply::Done) => self.next(),
            (RerunStage::SaveStale, RerunReply::Failed(e)) => self.noting(
                "could not persist transient rerun rollback: "@ + e@,
            ).next(),
            (RerunStage::SaveExhausted, RerunReply::Done) => self.at(RerunStage::FinishExhausted),
            (RerunStage::SaveExhausted, RerunReply::Failed(e)) => self.noting(
                "could not persist exhausted GitHub rerun attempt: "@ + e@,
            ).at(RerunStage::FinishExhausted),
            (RerunStage::FinishExhausted, RerunReply::Done) => PassView {
                exhausted: self.exhausted.push(run),
                ..self
            }.next(),
            (RerunStage::FinishExhausted, RerunReply::Failed(e)) => PassView {
                exhausted: self.exhausted.push(run),
                ..self
            }.noting("rerun exhaustion audit failed: "@ + e@).next(),
            (RerunStage::FinishUnreadable, RerunReply::Done) => PassView {
                stage: RerunStage::SaveUnreadable,
                prior: count,
                ..self
            },
            (RerunStage::FinishUnreadable, RerunReply::Failed(e)) => self.noting(
                with_audit_failure(self.held, Some(e@)),
            ).next(),
            (RerunStage::SaveUnreadable, RerunReply::Done) => self.noting(self.held).next(),
            (RerunStage::SaveUnreadable, RerunReply::Failed(e)) => self.noting(
                self.held + "; "@ + ("could not persist transient rerun rollback: "@ + e@),
            ).next(),
            (RerunStage::Send, RerunReply::Done) => self.at(RerunStage::FinishSent),
            (RerunStage::Send, RerunReply::Failed(e)) => self.noting(e@).next(),
            (RerunStage::FinishSent, RerunReply::Done) => PassView {
                rerun: self.rerun.push(run),
                ..self
            }.next(),
            (RerunStage::FinishSent, RerunReply::Failed(e)) => self.noting(
                "rerun accepted for run "@ + decimal(run as nat) + ", but mutation audit failed: "@
                    + e@,
            ).next(),
            _ => self,
        }
    }
}

/// What a reply does to the ledger: the rerun is counted once the guard is held,
/// taken back where the run no longer qualifies or cannot be read, and raised to
/// the limit where the provider has accepted enough. A count that was taken back
/// and could not be saved is put back.
pub open spec fn rerun_ledger(
    pass: PassView,
    reply: RerunReply,
    repo: Seq<char>,
    pr: u64,
    head: Seq<char>,
    max_transient_reruns: u32,
    at: Seq<char>,
    before: StewardLedger,
    after: StewardLedger,
) -> bool {
    let run = pass.runs[0];
    let key = attempt_key_text(repo, pr, head, run);
    let map = before.transient_attempts@;
    let entry = |action: Seq<char>|
        AuditTexts { at, repo, subject: run_subject(run, head), action };
    match (pass.stage, reply) {
        (RerunStage::Guard, RerunReply::Done) => {
            &&& same_but_attempts(before, after)
            &&& after.transient_attempts@ == map.insert(key, (counted(map, key) + 1) as u32)
            &&& after.audits() == audited(before.audits(), entry("rerun_transient_intent"@))
        },
        (
            RerunStage::Revalidate,
            RerunReply::Revalidated(TransientRerunRevalidation::Exhausted { accepted_attempts }),
        ) => {
            &&& same_but_attempts(before, after)
            &&& after.transient_attempts@ == map.insert(
                key,
                if accepted_attempts >= max_transient_reruns {
                    accepted_attempts
                } else {
                    max_transient_reruns
                },
            )
            &&& after.audits() == audited(
                before.audits(),
                entry("rerun_transient_exhausted_from_github_attempt"@),
            )
        },
        (RerunStage::FinishStale, RerunReply::Done) => {
            &&& same_but_attempts(before, after)
            &&& after.transient_attempts@ == taken_back(map, key)
            &&& after.audits() == audited(
                before.audits(),
                entry("rerun_transient_skipped_after_live_revalidation"@),
            )
        },
        (RerunStage::FinishUnreadable, RerunReply::Done) => {
            &&& same_but_attempts(before, after)
            &&& after.transient_attempts@ == taken_back(map, key)
            &&& after.audits() == audited(
                before.audits(),
                entry("rerun_transient_revalidation_failed"@),
            )
        },
        (RerunStage::SaveStale, RerunReply::Failed(_)) | (
            RerunStage::SaveUnreadable,
            RerunReply::Failed(_),
        ) => {
            &&& same_but_attempts(before, after)
            &&& after.transient_attempts@ == map.insert(key, pass.prior)
            &&& after.audits() == before.audits()
        },
        (RerunStage::FinishSent, RerunReply::Done) => {
            &&& same_but_attempts(before, after)
            &&& after.transient_attempts@ == map
            &&& after.audits() == audited(before.audits(), entry("rerun_transient"@))
        },
        _ => after == before,
    }
}

impl RerunPass {
    /// A pass over the given runs.
    pub fn new(runs: Vec<u64>) -> (r: Self)
        ensures
            r@ == (PassView {
                stage: if runs@.len() == 0 {
                    RerunStage::Done
                } else {
                    RerunStage::Guard
                },
                runs: runs@,
                held: Seq::empty(),
                prior: 0,
                errors: Seq::empty(),
                rerun: Seq::empty(),
                exhausted: Seq::empty(),
            }),
    {
        let r = RerunPass {
            stage: if runs.len() == 0 {
                RerunStage::Done
            } else {
                RerunStage::Guard
            },
            runs,
            held: String::new(),
            prior: 0,
            errors: Vec::new(),
            rerun: Vec::new(),
            exhausted: Vec::new(),
        };
        proof {
            assert(views(r.errors@) =~= Seq::<Seq<char>>::empty());
        }
        r
    }

    fn note(&mut self, error: String)
        ensures
            final(self)@ == old(self)@.noting(error@),
    {
        let ghost before = self.errors@;
        let ghost text = error@;
        self.errors.push(error);
        proof {
            assert(views(self.errors@) =~= views(before).push(text));
        }
    }

    fn advance(&mut self)
        requires
            old(self)@.runs.len() > 0,
        ensures
            final(self)@ == old(self)@.next(),
    {
        let ghost before = self.runs@;
        if self.runs.len() <= 1 {
            self.stage = RerunStage::Done;
        } else {
            self.stage = RerunStage::Guard;
        }
        let _ = self.runs.remove(0);
        self.held = String::new();
        proof {
            assert(self.runs@ =~= before.drop_first());
        }
    }
}

/// Takes one step of a pass that reruns failed runs of a pull request.
pub fn mutate_transient_reruns(
    pass: &mut RerunPass,
    reply: RerunReply,
    repo: &str,
    pr: u64,
    head: &str,
    max_transient_reruns: u32,
    at: &str,
    ledger: &mut StewardLedger,
)
    requires
        old(pass)@.stage != RerunStage::Done ==> old(pass)@.runs.len() > 0,
        old(pass)@.stage == RerunStage::Guard && reply is Done ==> counted(
            old(ledger).transient_attempts@,
            attempt_key_text(repo@, pr, head@, old(pass)@.runs[0]),
        ) < u32::MAX,
    ensures
        final(pass)@ == old(pass)@.step(
            reply,
            counted(
                old(ledger).transient_attempts@,
                attempt_key_text(repo@, pr, head@, old(pass)@.runs[0]),
            ),
        ),
        rerun_ledger(
            old(pass)@,
            reply,
            repo@,
            pr,
            head@,
            max_transient_reruns,
            at@,
            *old(ledger),
            *final(ledger),
        ),
{
    if pass.runs.len() == 0 {
        return ;
    }
    let run: u64 = pass.runs[0];
    let key = attempt_key(repo, pr, head, run);
    let subject = run_audit_subject(run, head);
    match (pass.stage, reply) {
        (RerunStage::Guard, RerunReply::Done) => {
            let count: u32 = match ledger.transient_attempts.get(key.as_str()) {
                Some(count) => *count,
                None => 0,
            };
            ledger.transient_attempts.insert(key, count + 1);
            record_audit(ledger, at, repo, subject.as_str(), "rerun_transient_intent");
            pass.stage = RerunStage::SaveIntent;
        },
        (RerunStage::Guard, RerunReply::Failed(e)) => {
            pass.note(e);
            pass.advance();
        },
        (RerunStage::SaveIntent, RerunReply::Done) => {
            pass.stage = RerunStage::Revalidate;
        },
        (RerunStage::SaveIntent, RerunReply::Failed(e)) => {
            pass.held = concat("could not persist transient rerun intent: ", e.as_str());
            pass.stage = RerunStage::FinishAborted;
        },
        (RerunStage::FinishAborted, RerunReply::Done) => {
            let error = pass.held.clone();
            let ghost text = error@;
            let mut errors: Vec<String> = Vec::new();
            errors.push(error);
            proof {
                assert(views(errors@) =~= seq![text]);
            }
            pass.errors = errors;
            pass.runs = Vec::new();
            pass.stage = RerunStage::Done;
        },
        (RerunStage::FinishAborted, RerunReply::Failed(e)) => {
            let error = append_audit_failure(pass.held.as_str(), &Some(e));
            let ghost text = error@;
            let mut errors: Vec<String> = Vec::new();
            errors.push(error);
            proof {
                assert(views(errors@) =~= seq![text]);
            }
            pass.errors = errors;
            pass.runs = Vec::new();
            pass.stage = RerunStage::Done;
        },
        (RerunStage::Revalidate, RerunReply::Revalidated(found)) => match found {
            TransientRerunRevalidation::Eligible => {
                pass.stage = RerunStage::Send;
            },
            TransientRerunRevalidation::Exhausted { accepted_attempts } => {
                let limit: u32 = if accepted_attempts >= max_transient_reruns {
                    accepted_attempts
                } else {
                    max_transient_reruns
                };
                ledger.transient_attempts.insert(key, limit);
                record_audit(
                    ledger,
                    at,
                    repo,
                    subject.as_str(),
                    "rerun_transient_exhausted_from_github_attempt",
                );
                pass.stage = RerunStage::SaveExhausted;
            },
            TransientRerunRevalidation::Stale => {
                pass.stage = RerunStage::FinishStale;
            },
        },
        (RerunStage::Revalidate, RerunReply::Failed(e)) => {
            pass.held = e;
            pass.stage = RerunStage::FinishUnreadable;
        },
        (RerunStage::FinishStale, RerunReply::Done) => {
            pass.prior = rollback_transient_attempt(
                ledger,
                key.as_str(),
                at,
                repo,
                run,
                head,
                "rerun_transient_skipped_after_live_revalidation",
            );
            pass.stage = RerunStage::SaveStale;
        },
        (RerunStage::FinishStale, RerunReply::Failed(e)) => {
            pass.note(concat("rerun skip mutation audit failed: ", e.as_str()));
            pass.advance();
        },
        (RerunStage::SaveStale, RerunReply::Done) => {
            pass.advance();
        },
        (RerunStage::SaveStale, RerunReply::Failed(e)) => {
            if let Err(error) = finish_rollback(ledger, key.as_str(), pass.prior, Err(e)) {
                pass.note(error);
            }
            pass.advance();
        },
        (RerunStage::SaveExhausted, RerunReply::Done) => {
            pass.stage = RerunStage::FinishExhausted;
        },
        (RerunStage::SaveExhausted, RerunReply::Failed(e)) => {
            pass.note(concat("could not persist exhausted GitHub rerun attempt: ", e.as_str()));
            pass.stage = RerunStage::FinishExhausted;
        },
        (RerunStage::FinishExhausted, RerunReply::Done) => {
            pass.exhausted.push(run);
            pass.advance();
        },
        (RerunStage::FinishExhausted, RerunReply::Failed(e)) => {
            pass.exhausted.push(run);
            pass.note(concat("rerun exhaustion audit failed: ", e.as_str()));
            pass.advance();
        },
        (RerunStage::FinishUnreadable, RerunReply::Done) => {
            pass.prior = rollback_transient_attempt(
                ledger,
                key.as_str(),
                at,
                repo,
                run,
                head,
                "rerun_transient_revalidation_failed",
            );
            pass.stage = RerunStage::SaveUnreadable;
        },
        (RerunStage::FinishUnreadable, RerunReply::Failed(e)) => {
            let error = append_audit_failure(pass.held.as_str(), &Some(e));
            pass.note(error);
            pass.advance();
        },
        (RerunStage::SaveUnreadable, RerunReply::Done) => {
            let error = pass.held.clone();
            pass.note(error);
            pass.advance();
        },
        (RerunStage::SaveUnreadable, RerunReply::Failed(e)) => {
            if let Err(error) = finish_rollback(ledger, key.as_str(), pass.prior, Err(e)) {
                let text = concat3(pass.held.as_str(), "; ", error.as_str());
                pass.note(text);
            }
            pass.advance();
        },
        (RerunStage::Send, RerunReply::Done) => {
            pass.stage = RerunStage::FinishSent;
        },
        (RerunStage::Send, RerunReply::Failed(e)) => {
            pass.note(e);
            pass.advance();
        },
        (RerunStage::FinishSent, RerunReply::Done) => {
            pass.rerun.push(run);
            record_audit(ledger, at, repo, subject.as_str(), "rerun_transient");
            pass.advance();
        },
        (RerunStage::FinishSent, RerunReply::Failed(e)) => {
            let mut text: String = concat3(
                "rerun accepted for run ",
                to_decimal(run).as_str(),
                ", but mutation audit failed: ",
            );
            text.append(e.as_str());
            pass.note(text);
            pass.advance();
        },
        _ => {},
    }
}

/// A list of numbers as it is printed.
pub open spec fn number_list(list: Seq<u64>) -> Seq<char> {
    "["@ + separated(Seq::new(list.len(), |i: int| decimal(list[i] as nat)), ", "@) + "]"@
}

/// A list of numbers as it is printed.
pub fn print_numbers(list: &Vec<u64>) -> (r: String)
    ensures
        r@ == number_list(list@),
{
    let mut parts: Vec<String> = Vec::new();
    let mut i: usize = 0;
    while i < list.len()
        invariant
            i <= list.len(),
            parts@.len() == i,
            forall|k: int| 0 <= k < i ==> (#[trigger] parts@[k])@ == decimal(list@[k] as nat),
        decreases list.len() - i,
    {
        parts.push(to_decimal(list[i]));
        i = i + 1;
    }
    proof {
        assert(views(parts@) =~= Seq::new(list@.len(), |i: int| decimal(list@[i] as nat)));
    }
    concat3("[", join(&parts, ", ").as_str(), "]")
}

impl PassView {
    /// What a finished pass reports: the errors where there are any, and else
    /// what was rerun and what is exhausted.
    pub open spec fn reported(self) -> (Option<Seq<char>>, Option<Seq<char>>) {
        if self.errors.len() > 0 {
            (None, Some(separated(self.errors, "; "@)))
        } else if self.rerun.len() > 0 && self.exhausted.len() == 0 {
            (Some("reran "@ + number_list(self.rerun)), None)
        } else if self.rerun.len() == 0 && self.exhausted.len() > 0 {
            (
                Some("transient rerun budget exhausted for "@ + number_list(self.exhausted)),
                None,
            )
        } else if self.rerun.len() > 0 {
            (
                Some(
                    "reran "@ + number_list(self.rerun)
                        + "; transient rerun budget exhausted for "@ + number_list(
                        self.exhausted,
                    ),
                ),
                None,
            )
        } else {
            (Some("no transient reruns remained eligible"@), None)
        }
    }
}

impl RerunPass {
    /// What a finished pass reports.
    pub fn report(&self) -> (r: MutationReport)
        ensures
            r.texts() == self@.reported(),
    {
        if self.errors.len() > 0 {
            return MutationReport::failed(join(&self.errors, "; "));
        }
        if self.rerun.len() > 0 && self.exhausted.len() == 0 {
            let text = concat("reran ", print_numbers(&self.rerun).as_str());
            return MutationReport::done(text.as_str());
        }
        if self.rerun.len() == 0 && self.exhausted.len() > 0 {
            let text = concat(
                "transient rerun budget exhausted for ",
                print_numbers(&self.exhausted).as_str(),
            );
            return MutationReport::done(text.as_str());
        }
        if self.rerun.len() > 0 {
            let mut text: String = concat3(
                "reran ",
                print_numbers(&self.rerun).as_str(),
                "; transient rerun budget exhausted for ",
            );
            text.append(print_numbers(&self.exhausted).as_str());
            return MutationReport::done(text.as_str());
        }
        MutationReport::done("no transient reruns remained eligible")
    }
}

/// A rerun is sent only after its intent was counted and saved: the request is
/// next only once the run was read again, which follows the saved intent.
pub proof fn rerun_follows_its_saved_intent(pass: PassView, reply: RerunReply, count: u32)
    requires
        pass.stage != pass.step(reply, count).stage,
    ensures
        pass.step(reply, count).stage == RerunStage::Send ==> pass.stage == RerunStage::Revalidate
            && reply == RerunReply::Revalidated(TransientRerunRevalidation::Eligible),
        pass.step(reply, count).stage == RerunStage::Revalidate ==> pass.stage
            == RerunStage::SaveIntent && reply is Done,
        pass.step(reply, count).stage == RerunStage::SaveIntent ==> pass.stage
            == RerunStage::Guard && reply is Done,
{
}

/// The conclusions of a run that a rerun may help, in lower case.
pub open spec fn passing_failures() -> Seq<Seq<char>> {
    seq!["cancelled"@, "timed_out"@, "startup_failure"@, "stale"@]
}

proof fn lower_case_is_same(text: Seq<char>, name: Seq<char>)
    requires
        lower(name) == name,
    ensures
        same_ignoring_case(text, name) <==> lower(text) == name,
{
}

/// A run may be rerun after each of the passing failures, in whatever case it is
/// written, and after no other conclusion.
pub proof fn exactly_the_passing_failures_are_transient(conclusion: Seq<char>)
    ensures
        transient_conclusion(conclusion) <==> passing_failures().contains(lower(conclusion)),
{
    reveal_strlit("cancelled");
    reveal_strlit("timed_out");
    reveal_strlit("startup_failure");
    reveal_strlit("stale");
    let all = passing_failures();
    assert(lower("cancelled"@) =~= "cancelled"@);
    assert(lower("timed_out"@) =~= "timed_out"@);
    assert(lower("startup_failure"@) =~= "startup_failure"@);
    assert(lower("stale"@) =~= "stale"@);
    lower_case_is_same(conclusion, "cancelled"@);
    lower_case_is_same(conclusion, "timed_out"@);
    lower_case_is_same(conclusion, "startup_failure"@);
    lower_case_is_same(conclusion, "stale"@);
    assert(all[0] == "cancelled"@ && all[1] == "timed_out"@ && all[2] == "startup_failure"@
        && all[3] == "stale"@);
    if all.contains(lower(conclusion)) {
        let i = choose|i: int| 0 <= i < all.len() && all[i] == lower(conclusion);
        assert(i == 0 || i == 1 || i == 2 || i == 3);
    }
}

/// Whether a run that was read again is the completed run of an open pull request's
/// head, with a passing failure, that is still to be rerun.
pub open spec fn still_to_rerun(
    live: Option<(u64, Seq<char>)>,
    observed_head: Seq<char>,
    live_decision: StewardDecision,
    run_id: u64,
    run: Option<StewardRun>,
    conclusion: Seq<char>,
) -> bool {
    &&& live matches Some((number, head)) && run matches Some(found) && lower(head) == lower(
        observed_head,
    ) && lower(found.head_sha@) == lower(observed_head) && lower(found.status@) == "completed"@
        && found.pull_request_number == Some(number)
    &&& live_decision matches StewardDecision::RerunTransient { run_ids } && run_ids@.contains(
        run_id,
    )
    &&& passing_failures().contains(lower(conclusion))
}

/// A run is eligible exactly where it is still to be rerun and has had fewer attempts
/// than the limit allows, exhausted exactly where it is still to be rerun and has not,
/// with the reruns that it had, and stale otherwise.
pub proof fn eligibility_is_decided_by_run_and_limit(
    live: Option<(u64, Seq<char>)>,
    observed_head: Seq<char>,
    live_decision: StewardDecision,
    run_id: u64,
    run: Option<StewardRun>,
    conclusion: Seq<char>,
    max_transient_reruns: u32,
)
    ensures
        ({
            let state = rerun_state(
                live,
                observed_head,
                live_decision,
                run_id,
                run,
                conclusion,
                max_transient_reruns,
            );
            let wanted = still_to_rerun(
                live,
                observed_head,
                live_decision,
                run_id,
                run,
                conclusion,
            );
            let room = run matches Some(found) && found.run_attempt <= max_transient_reruns
                && max_transient_reruns > 0;
            &&& state == TransientRerunRevalidation::Eligible <==> wanted && room
            &&& state is Exhausted <==> wanted && !room
            &&& state is Stale <==> !wanted
            &&& state matches TransientRerunRevalidation::Exhausted { accepted_attempts } ==> {
                &&& accepted_attempts >= max_transient_reruns
                &&& accepted_attempts <= run->Some_0.run_attempt
                &&& accepted_attempts < u32::MAX && run->Some_0.run_attempt > 0
                    ==> accepted_attempts == run->Some_0.run_attempt - 1
            }
        }),
{
    exactly_the_passing_failures_are_transient(conclusion);
    reveal_strlit("completed");
    assert(lower("completed"@) =~= "completed"@);
    if let Some(found) = run {
        lower_case_is_same(found.status@, "completed"@);
    }
}

/// How many steps are left until a run that stays eligible is told as rerun.
pub open spec fn rerun_left(stage: RerunStage) -> Option<nat> {
    match stage {
        RerunStage::Guard => Some(4),
        RerunStage::SaveIntent => Some(3),
        RerunStage::Revalidate => Some(2),
        RerunStage::Send => Some(1),
        RerunStage::FinishSent => Some(0),
        _ => None,
    }
}

/// A run whose steps succeed and that is found eligible is rerun: each such reply leads
/// one step on, and the last one tells the run as rerun and turns to the next.
pub proof fn an_eligible_run_is_rerun(pass: PassView, reply: RerunReply, count: u32)
    requires
        pass.runs.len() > 0,
        rerun_left(pass.stage) is Some,
        if pass.stage == RerunStage::Revalidate {
            reply == RerunReply::Revalidated(TransientRerunRevalidation::Eligible)
        } else {
            reply is Done
        },
    ensures
        ({
            let after = pass.step(reply, count);
            if rerun_left(pass.stage)->Some_0 > 0 {
                &&& rerun_left(after.stage) == Some((rerun_left(pass.stage)->Some_0 - 1) as nat)
                &&& after.runs == pass.runs
                &&& after.errors == pass.errors
            } else {
                &&& after.rerun == pass.rerun.push(pass.runs[0])
                &&& after.runs == pass.runs.drop_first()
                &&& after.errors == pass.errors
            }
        }),
{
}

/// A run is told as rerun only after the provider accepted the request, and as
/// exhausted only where it was found so. Every other step leaves both lists as they
/// are, and the runs that are left are always the last ones of those given.
pub proof fn runs_are_told_as_what_they_were_found(
    pass: PassView,
    reply: RerunReply,
    count: u32,
)
    requires
        pass.runs.len() > 0,
    ensures
        ({
            let after = pass.step(reply, count);
            &&& after.rerun != pass.rerun ==> pass.stage == RerunStage::FinishSent && reply is Done
                && after.rerun == pass.rerun.push(pass.runs[0])
            &&& after.exhausted != pass.exhausted ==> pass.stage == RerunStage::FinishExhausted
                && after.exhausted == pass.exhausted.push(pass.runs[0])
            &&& pass.stage == RerunStage::FinishExhausted && (reply is Done || reply is Failed)
                ==> after.exhausted == pass.exhausted.push(pass.runs[0])
            &&& after.stage == RerunStage::FinishSent && pass.stage != RerunStage::FinishSent
                ==> pass.stage == RerunStage::Send && reply is Done
            &&& after.stage == RerunStage::SaveExhausted && pass.stage != RerunStage::SaveExhausted
                ==> pass.stage == RerunStage::Revalidate && (reply matches RerunReply::Revalidated(
                found,
            ) && found is Exhausted)
            &&& after.stage == RerunStage::FinishExhausted && pass.stage
                != RerunStage::FinishExhausted ==> pass.stage == RerunStage::SaveExhausted
            &&& pass.stage == RerunStage::Revalidate ==> (reply matches RerunReply::Revalidated(
                found,
            ) ==> after.stage == match found {
                TransientRerunRevalidation::Eligible => RerunStage::Send,
                TransientRerunRevalidation::Exhausted { .. } => RerunStage::SaveExhausted,
                TransientRerunRevalidation::Stale => RerunStage::FinishStale,
            })
            &&& after.runs == pass.runs || after.runs == pass.runs.drop_first() || (after.runs.len()
                == 0 && pass.stage == RerunStage::FinishAborted)
        }),
{
    let push = pass.rerun.push(pass.runs[0]);
    assert(push.len() != pass.rerun.len());
    assert(pass.exhausted.push(pass.runs[0]).len() != pass.exhausted.len());
}

/// What fails is told: a failure adds an error that ends with it, or is kept to be told
/// once the count was taken back or the guard was finished; a pass with errors tells
/// them and nothing as done.
pub proof fn rerun_failures_are_told(pass: PassView, error: String, count: u32)
    requires
        pass.runs.len() > 0,
        pass.stage != RerunStage::Done,
    ensures
        ({
            let after = pass.step(RerunReply::Failed(error), count);
            if pass.stage == RerunStage::SaveIntent || pass.stage == RerunStage::Revalidate {
                has_suffix(after.held, error@) && (after.stage == RerunStage::FinishAborted
                    || after.stage == RerunStage::FinishUnreadable)
            } else {
                after.errors.len() > 0 && has_suffix(after.errors.last(), error@)
            }
        }),
        pass.reported().1 is Some <==> pass.errors.len() > 0,
        pass.reported().0 is Some <==> pass.errors.len() == 0,
{
    let e = error@;
    ends_with_its_end("could not persist transient rerun intent: "@, e);
    ends_with_its_end("rerun skip mutation audit failed: "@, e);
    ends_with_its_end("could not persist transient rerun rollback: "@, e);
    ends_with_its_end("could not persist exhausted GitHub rerun attempt: "@, e);
    ends_with_its_end("rerun exhaustion audit failed: "@, e);
    ends_with_its_end(
        "rerun accepted for run "@ + decimal(pass.runs[0] as nat)
            + ", but mutation audit failed: "@,
        e,
    );
    ends_with_its_end(pass.held + "; mutation audit also failed: "@, e);
    ends_with_the_last(
        pass.held + "; "@,
        "could not persist transient rerun rollback: "@,
        e,
    );
}

/// A run that turns out stale, or that cannot be read, leaves the counts as they were
/// before it was counted.
pub proof fn a_run_that_is_not_sent_is_not_counted(
    counting: PassView,
    taking_back: PassView,
    repo: Seq<char>,
    pr: u64,
    head: Seq<char>,
    limit: u32,
    at: Seq<char>,
    later: Seq<char>,
    before: StewardLedger,
    counted_once: StewardLedger,
    after: StewardLedger,
)
    requires
        counting.runs.len() > 0,
        taking_back.runs.len() > 0,
        counting.runs[0] == taking_back.runs[0],
        counting.stage == RerunStage::Guard,
        taking_back.stage == RerunStage::FinishStale || taking_back.stage
            == RerunStage::FinishUnreadable,
        rerun_ledger(
            counting,
            RerunReply::Done,
            repo,
            pr,
            head,
            limit,
            at,
            before,
            counted_once,
        ),
        rerun_ledger(
            taking_back,
            RerunReply::Done,
            repo,
            pr,
            head,
            limit,
            later,
            counted_once,
            after,
        ),
        ({
            let key = attempt_key_text(repo, pr, head, counting.runs[0]);
            &&& counted(before.transient_attempts@, key) < u32::MAX
            &&& before.transient_attempts@.dom().contains(key)
                ==> before.transient_attempts@[key] > 0
        }),
    ensures
        after.transient_attempts@ == before.transient_attempts@,
        counted(
            counted_once.transient_attempts@,
            attempt_key_text(repo, pr, head, counting.runs[0]),
        ) == counted(
            before.transient_attempts@,
            attempt_key_text(repo, pr, head, counting.runs[0]),
        ) + 1,
{
    rollback_undoes_the_count(
        before.transient_attempts@,
        attempt_key_text(repo, pr, head, counting.runs[0]),
    );
}

/// A run may be rerun while its attempts number no more than the reruns that are allowed.
pub proof fn a_first_attempt_may_be_rerun(run_attempt: u64, limit: u32)
    ensures
        run_attempt > 0 ==> (attempt_allows(run_attempt, limit) <==> run_attempt <= limit),
        limit == 0 ==> !attempt_allows(run_attempt, limit),
        limit > 0 ==> attempt_allows(1, limit),
{
}

/// A rerun is counted once, when it is guarded, before it is sent; sending it, and every
/// reply but those that exhaust, take back or put back, leaves the counts, and no reply
/// changes those of another run.
pub proof fn a_rerun_is_counted_once(
    pass: PassView,
    reply: RerunReply,
    repo: Seq<char>,
    pr: u64,
    head: Seq<char>,
    limit: u32,
    at: Seq<char>,
    before: StewardLedger,
    after: StewardLedger,
    other: Seq<char>,
)
    requires
        rerun_ledger(pass, reply, repo, pr, head, limit, at, before, after),
        counted(
            before.transient_attempts@,
            attempt_key_text(repo, pr, head, pass.runs[0]),
        ) < u32::MAX,
    ensures
        ({
            let key = attempt_key_text(repo, pr, head, pass.runs[0]);
            let was = counted(before.transient_attempts@, key);
            let now = counted(after.transient_attempts@, key);
            &&& pass.stage == RerunStage::Guard && reply is Done ==> now == was + 1
            &&& pass.stage == RerunStage::FinishSent ==> now == was
            &&& (pass.stage == RerunStage::FinishStale || pass.stage == RerunStage::FinishUnreadable)
                && reply is Done && was > 0 ==> now == was - 1
            &&& pass.stage == RerunStage::Revalidate ==> (reply
                matches RerunReply::Revalidated(TransientRerunRevalidation::Exhausted {
                accepted_attempts,
            }) ==> now >= limit && now >= accepted_attempts)
            &&& (pass.stage == RerunStage::SaveStale || pass.stage == RerunStage::SaveUnreadable)
                && reply is Failed ==> now == pass.prior
            &&& other != key ==> counted(after.transient_attempts@, other) == counted(
                before.transient_attempts@,
                other,
            )
            &&& after.pending_cancellations == before.pending_cancellations
            &&& after.preemption_attempts == before.preemption_attempts
        }),
{
}

} // verus!
