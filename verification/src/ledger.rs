//! The steward's durable ledger: what it has begun, and what it has done.
use vstd::prelude::*;

use crate::handoff::ProviderRouteReferenceV1;
use crate::model::{
    DEFAULT_PROVENANCE_BLOCKING_LABEL, HANDOFF_CONTEXT, MANAGED_LABEL,
};
use crate::text::{
    concat, decimal, decimal_digits, full_sha, is_digit, to_decimal, views,
};
use crate::text_map::TextMap;

verus! {

/// The number of audit entries that the ledger keeps.
pub const AUDIT_LIMIT: usize = 1_000;

/// One line of the ledger's audit trail.
#[derive(Clone, Debug, PartialEq, Eq)]
pub struct LedgerAudit {
    pub at: String,
    pub repo: String,
    pub subject: String,
    pub action: String,
}

/// The texts of an audit entry.
pub struct AuditTexts {
    pub at: Seq<char>,
    pub repo: Seq<char>,
    pub subject: Seq<char>,
    pub action: Seq<char>,
}

impl LedgerAudit {
    /// The texts of the entry.
    pub open spec fn texts(self) -> AuditTexts {
        AuditTexts {
            at: self.at@,
            repo: self.repo@,
            subject: self.subject@,
            action: self.action@,
        }
    }
}

/// A required check as a witness remembers it.
#[derive(Clone, Debug, PartialEq, Eq)]
pub struct WitnessRequiredCheck {
    pub context: String,
    pub app_id: Option<u64>,
}

/// Proof that a pull request once stood in the merge queue.
#[derive(Clone, Debug, PartialEq, Eq)]
pub struct QueueWitness {
    pub repo: String,
    pub base: String,
    pub base_sha: String,
    pub pr_number: u64,
    pub pr_head: String,
    pub merge_group_head: String,
    pub position: u64,
    pub enqueued_at: String,
    pub observed_at: String,
    pub required_checks: Vec<WitnessRequiredCheck>,
}

/// How far a priority restoration has come.
#[derive(Clone, Copy, Debug, PartialEq, Eq, Structural)]
pub enum QueueRecoveryPhase {
    Intent,
    Accepted,
}

/// The receipt of a priority restoration.
#[derive(Clone, Debug, PartialEq, Eq)]
pub struct QueueRecoveryReceipt {
    pub repo: String,
    pub base: String,
    pub pr_number: u64,
    pub pr_head: String,
    pub base_sha: String,
    pub merge_group_head: String,
    pub removed_at: String,
    pub run_id: u64,
    pub job_id: u64,
    pub attempted_at: String,
    pub phase: QueueRecoveryPhase,
}

/// How far a cancellation has come.
#[derive(Clone, Copy, Debug, PartialEq, Eq, Structural)]
pub enum PendingCancellationPhase {
    Intent,
    Accepted,
    Skipped,
}

/// Which request a cancellation's correlation belongs to.
#[derive(Clone, Copy, Debug, PartialEq, Eq, Structural)]
pub enum PendingMutationKind {
    NormalCancel,
    ForceCancel,
}

/// A cancellation that was begun and is not known to have ended.
#[derive(Clone, Debug, PartialEq, Eq)]
pub struct PendingCancellation {
    pub repo: String,
    pub base: String,
    pub run_id: u64,
    pub workflow_id: u64,
    pub run_attempt: u64,
    pub head_sha: String,
    pub head_branch: String,
    pub pr_number: u64,
    pub front_head: String,
    pub initiated_at: String,
    pub phase: PendingCancellationPhase,
    pub mutation_correlation_id: String,
    pub mutation_kind: PendingMutationKind,
    pub reason: String,
    pub opt_out_label: String,
    pub provenance_blocking_labels: Vec<String>,
    pub managed_label: String,
    pub handoff_context: String,
}

/// What a pending cancellation records.
pub struct PendingTexts {
    pub repo: Seq<char>,
    pub base: Seq<char>,
    pub run_id: u64,
    pub workflow_id: u64,
    pub run_attempt: u64,
    pub head_sha: Seq<char>,
    pub head_branch: Seq<char>,
    pub pr_number: u64,
    pub front_head: Seq<char>,
    pub initiated_at: Seq<char>,
    pub phase: PendingCancellationPhase,
    pub mutation_correlation_id: Seq<char>,
    pub mutation_kind: PendingMutationKind,
    pub reason: Seq<char>,
    pub opt_out_label: Seq<char>,
    pub provenance_blocking_labels: Seq<Seq<char>>,
    pub managed_label: Seq<char>,
    pub handoff_context: Seq<char>,
}

impl View for PendingCancellation {
    type V = PendingTexts;

    open spec fn view(&self) -> PendingTexts {
        PendingTexts {
            repo: self.repo@,
            base: self.base@,
            run_id: self.run_id,
            workflow_id: self.workflow_id,
            run_attempt: self.run_attempt,
            head_sha: self.head_sha@,
            head_branch: self.head_branch@,
            pr_number: self.pr_number,
            front_head: self.front_head@,
            initiated_at: self.initiated_at@,
            phase: self.phase,
            mutation_correlation_id: self.mutation_correlation_id@,
            mutation_kind: self.mutation_kind,
            reason: self.reason@,
            opt_out_label: self.opt_out_label@,
            provenance_blocking_labels: views(self.provenance_blocking_labels@),
            managed_label: self.managed_label@,
            handoff_context: self.handoff_context@,
        }
    }
}

impl PendingCancellation {
    /// A copy of the record.
    pub fn dup(&self) -> (r: Self)
        ensures
            r@ == self@,
    {
        let labels = self.provenance_blocking_labels.clone();
        proof {
            assert(labels@ =~= self.provenance_blocking_labels@);
        }
        PendingCancellation {
            repo: self.repo.clone(),
            base: self.base.clone(),
            run_id: self.run_id,
            workflow_id: self.workflow_id,
            run_attempt: self.run_attempt,
            head_sha: self.head_sha.clone(),
            head_branch: self.head_branch.clone(),
            pr_number: self.pr_number,
            front_head: self.front_head.clone(),
            initiated_at: self.initiated_at.clone(),
            phase: self.phase,
            mutation_correlation_id: self.mutation_correlation_id.clone(),
            mutation_kind: self.mutation_kind,
            reason: self.reason.clone(),
            opt_out_label: self.opt_out_label.clone(),
            provenance_blocking_labels: labels,
            managed_label: self.managed_label.clone(),
            handoff_context: self.handoff_context.clone(),
        }
    }
}

/// What a finished stewardship asks of its owner.
#[derive(Clone, Copy, Debug, PartialEq, Eq, Structural)]
pub enum TerminalHandoffOutcome {
    SuccessContinuation,
    ActionableFailure,
}

/// How far the owner's answer has come.
#[derive(Clone, Copy, Debug, PartialEq, Eq, Structural)]
pub enum TerminalHandoffPhase {
    Pending,
    Recorded,
    Applied,
    Resolved,
}

/// Which terminal a route leads through.
#[derive(Clone, Copy, Debug, PartialEq, Eq, Structural)]
pub enum TerminalProvenanceKind {
    Absent,
    Cmux,
    HerdR,
}

/// The end of a stewardship, kept until its owner has answered.
#[derive(Clone, Debug, PartialEq, Eq)]
pub struct TerminalHandoff {
    pub dedupe_key: String,
    pub repo: String,
    pub base: String,
    pub pr_number: u64,
    pub head_sha: String,
    pub outcome: TerminalHandoffOutcome,
    pub trigger: String,
    pub next_action: String,
    pub origin_machine: Option<String>,
    pub owner_id: Option<String>,
    pub ownership_generation: Option<u64>,
    pub owner_disposition: String,
    pub owner_route_id: Option<String>,
    pub owner_provider: Option<String>,
    pub resume_transport: Option<String>,
    pub owner_terminal_provenance: Option<TerminalProvenanceKind>,
    pub provider_route: Option<ProviderRouteReferenceV1>,
    pub wake_consumer_available: bool,
    pub failure_contexts: Vec<String>,
    pub phase: TerminalHandoffPhase,
    pub created_at: String,
    pub updated_at: String,
}

/// Everything that the steward keeps between two passes.
#[derive(Debug, PartialEq, Eq)]
pub struct StewardLedger {
    pub transient_attempts: TextMap<u32>,
    pub preemption_attempts: TextMap<u32>,
    pub pending_cancellations: TextMap<PendingCancellation>,
    pub queue_witnesses: TextMap<QueueWitness>,
    pub queue_recovery_receipts: TextMap<QueueRecoveryReceipt>,
    pub terminal_handoffs: TextMap<TerminalHandoff>,
    pub audit: Vec<LedgerAudit>,
}

impl StewardLedger {
    /// The empty ledger.
    pub fn new() -> (r: Self)
        ensures
            r.transient_attempts@ == Map::<Seq<char>, u32>::empty(),
            r.preemption_attempts@ == Map::<Seq<char>, u32>::empty(),
            r.pending_cancellations@ == Map::<Seq<char>, PendingCancellation>::empty(),
            r.queue_witnesses@ == Map::<Seq<char>, QueueWitness>::empty(),
            r.queue_recovery_receipts@ == Map::<Seq<char>, QueueRecoveryReceipt>::empty(),
            r.terminal_handoffs@ == Map::<Seq<char>, TerminalHandoff>::empty(),
            r.audits() == Seq::<AuditTexts>::empty(),
    {
        let r = StewardLedger {
            transient_attempts: TextMap::new(),
            preemption_attempts: TextMap::new(),
            pending_cancellations: TextMap::new(),
            queue_witnesses: TextMap::new(),
            queue_recovery_receipts: TextMap::new(),
            terminal_handoffs: TextMap::new(),
            audit: Vec::new(),
        };
        proof {
            assert(r.audits() =~= Seq::<AuditTexts>::empty());
        }
        r
    }

    /// The audit trail's texts, oldest first.
    pub open spec fn audits(self) -> Seq<AuditTexts> {
        Seq::new(self.audit@.len(), |i: int| self.audit@[i].texts())
    }

    /// Whether another ledger differs from this one in its audit trail alone.
    pub open spec fn same_records(self, other: Self) -> bool {
        &&& self.transient_attempts == other.transient_attempts
        &&& self.preemption_attempts == other.preemption_attempts
        &&& self.pending_cancellations == other.pending_cancellations
        &&& self.queue_witnesses == other.queue_witnesses
        &&& self.queue_recovery_receipts == other.queue_recovery_receipts
        &&& self.terminal_handoffs == other.terminal_handoffs
    }

    /// Whether another ledger differs from this one in its pending
    /// cancellations and its audit trail alone.
    pub open spec fn same_but_pending(self, other: Self) -> bool {
        &&& self.transient_attempts == other.transient_attempts
        &&& self.preemption_attempts == other.preemption_attempts
        &&& self.queue_witnesses == other.queue_witnesses
        &&& self.queue_recovery_receipts == other.queue_recovery_receipts
        &&& self.terminal_handoffs == other.terminal_handoffs
    }
}

/// An audit trail with one more entry, of which the newest are kept.
pub open spec fn audited(trail: Seq<AuditTexts>, entry: AuditTexts) -> Seq<AuditTexts> {
    let longer = trail.push(entry);
    if longer.len() > AUDIT_LIMIT {
        longer.skip(longer.len() - AUDIT_LIMIT)
    } else {
        longer
    }
}

/// The audit trail never grows beyond its limit, and the newest entry is its last.
pub proof fn audit_keeps_the_newest(trail: Seq<AuditTexts>, entry: AuditTexts)
    ensures
        audited(trail, entry).len() <= AUDIT_LIMIT,
        audited(trail, entry).last() == entry,
        trail.len() < AUDIT_LIMIT ==> audited(trail, entry) == trail.push(entry),
{
}

/// The key under which the reruns of a run are counted.
pub open spec fn attempt_key_text(
    repo: Seq<char>,
    pr: u64,
    head: Seq<char>,
    run_id: u64,
) -> Seq<char> {
    repo + "#"@ + decimal(pr as nat) + ":"@ + head + ":"@ + decimal(run_id as nat)
}

/// The key under which the reruns of a run are counted.
pub fn attempt_key(repo: &str, pr: u64, head: &str, run_id: u64) -> (r: String)
    ensures
        r@ == attempt_key_text(repo@, pr, head@, run_id),
{
    let mut out: String = repo.to_owned();
    out.append("#");
    out.append(to_decimal(pr).as_str());
    out.append(":");
    out.append(head);
    out.append(":");
    out.append(to_decimal(run_id).as_str());
    out
}

/// Adds an entry to the audit trail and drops the oldest beyond the limit.
pub fn record_audit(ledger: &mut StewardLedger, at: &str, repo: &str, subject: &str, action: &str)
    ensures
        final(ledger).same_records(*old(ledger)),
        final(ledger).audits() == audited(
            old(ledger).audits(),
            AuditTexts { at: at@, repo: repo@, subject: subject@, action: action@ },
        ),
{
    let ghost before = ledger.audits();
    let ghost entry = AuditTexts { at: at@, repo: repo@, subject: subject@, action: action@ };
    ledger.audit.push(
        LedgerAudit {
            at: at.to_owned(),
            repo: repo.to_owned(),
            subject: subject.to_owned(),
            action: action.to_owned(),
        },
    );
    proof {
        assert(ledger.audits() =~= before.push(entry));
    }
    if ledger.audit.len() > AUDIT_LIMIT {
        let surplus: usize = ledger.audit.len() - AUDIT_LIMIT;
        let ghost long = ledger.audit@;
        let kept = ledger.audit.split_off(surplus);
        proof {
            assert(kept@ =~= long.skip(surplus as int));
        }
        ledger.audit = kept;
        proof {
            assert(ledger.audits() =~= before.push(entry).skip(surplus as int));
        }
    }
}

/// The label that a record from before labels were kept stands for.
pub fn default_managed_label() -> (r: String)
    ensures
        r@ == MANAGED_LABEL@,
{
    MANAGED_LABEL.to_owned()
}

/// The handoff context that a record from before contexts were kept stands for.
pub fn default_handoff_context() -> (r: String)
    ensures
        r@ == HANDOFF_CONTEXT@,
{
    HANDOFF_CONTEXT.to_owned()
}

/// The blocking labels that a record from before labels were kept stands for.
pub fn default_provenance_blocking_labels() -> (r: Vec<String>)
    ensures
        views(r@) == seq![DEFAULT_PROVENANCE_BLOCKING_LABEL@],
{
    let mut out: Vec<String> = Vec::new();
    out.push(DEFAULT_PROVENANCE_BLOCKING_LABEL.to_owned());
    proof {
        assert(views(out@) =~= seq![DEFAULT_PROVENANCE_BLOCKING_LABEL@]);
    }
    out
}

/// The key of a cancellation: the repository, the run, its head and the head of
/// the queue's front that it made room for.
pub open spec fn pending_key_text(
    repo: Seq<char>,
    run_id: u64,
    head: Seq<char>,
    front: Seq<char>,
) -> Seq<char> {
    repo + "#"@ + decimal(run_id as nat) + ":"@ + head + ":"@ + front
}

proof fn numbers_end_at_the_colon(m: nat, n: nat, a: Seq<char>, b: Seq<char>)
    requires
        decimal(m) + ":"@ + a == decimal(n) + ":"@ + b,
    ensures
        m == n,
        a == b,
{
    reveal_strlit(":");
    decimal_digits(m);
    decimal_digits(n);
    let left = decimal(m) + ":"@ + a;
    let right = decimal(n) + ":"@ + b;
    let i = decimal(m).len() as int;
    let j = decimal(n).len() as int;
    assert(left[i] == ':' && right[j] == ':');
    if i < j {
        assert(right[i] == decimal(n)[i]);
        assert(is_digit(decimal(n)[i]));
    } else if j < i {
        assert(left[j] == decimal(m)[j]);
        assert(is_digit(decimal(m)[j]));
    }
    assert(left.take(i) =~= decimal(m));
    assert(right.take(j) =~= decimal(n));
    assert(left.skip(i + 1) =~= a);
    assert(right.skip(j + 1) =~= b);
}

/// The reruns of two runs are counted under one key only where the pull request,
/// its head and the run are the same.
pub proof fn attempts_are_counted_apart(
    repo: Seq<char>,
    p: u64,
    g: Seq<char>,
    m: u64,
    q: u64,
    h: Seq<char>,
    n: u64,
)
    requires
        full_sha(g),
        full_sha(h),
        attempt_key_text(repo, p, g, m) == attempt_key_text(repo, q, h, n),
    ensures
        p == q,
        g == h,
        m == n,
{
    let prefix = repo + "#"@;
    let a = g + ":"@ + decimal(m as nat);
    let b = h + ":"@ + decimal(n as nat);
    assert(attempt_key_text(repo, p, g, m) =~= prefix + (decimal(p as nat) + ":"@ + a));
    assert(attempt_key_text(repo, q, h, n) =~= prefix + (decimal(q as nat) + ":"@ + b));
    assert((prefix + (decimal(p as nat) + ":"@ + a)).skip(prefix.len() as int) =~= decimal(
        p as nat,
    ) + ":"@ + a);
    assert((prefix + (decimal(q as nat) + ":"@ + b)).skip(prefix.len() as int) =~= decimal(
        q as nat,
    ) + ":"@ + b);
    numbers_end_at_the_colon(p as nat, q as nat, a, b);
    reveal_strlit(":");
    assert(a.take(40) =~= g);
    assert(b.take(40) =~= h);
    assert(a.skip(41) =~= decimal(m as nat));
    assert(b.skip(41) =~= decimal(n as nat));
    decimal_digits(m as nat);
    decimal_digits(n as nat);
}

/// Two cancellations are kept under one key only where the run, its head and the
/// front of the queue are the same.
pub proof fn cancellations_are_kept_apart(
    repo: Seq<char>,
    m: u64,
    g: Seq<char>,
    a: Seq<char>,
    n: u64,
    h: Seq<char>,
    b: Seq<char>,
)
    requires
        full_sha(g),
        full_sha(h),
        pending_key_text(repo, m, g, a) == pending_key_text(repo, n, h, b),
    ensures
        m == n,
        g == h,
        a == b,
{
    let prefix = repo + "#"@;
    let x = g + ":"@ + a;
    let y = h + ":"@ + b;
    assert(pending_key_text(repo, m, g, a) =~= prefix + (decimal(m as nat) + ":"@ + x));
    assert(pending_key_text(repo, n, h, b) =~= prefix + (decimal(n as nat) + ":"@ + y));
    assert((prefix + (decimal(m as nat) + ":"@ + x)).skip(prefix.len() as int) =~= decimal(
        m as nat,
    ) + ":"@ + x);
    assert((prefix + (decimal(n as nat) + ":"@ + y)).skip(prefix.len() as int) =~= decimal(
        n as nat,
    ) + ":"@ + y);
    numbers_end_at_the_colon(m as nat, n as nat, x, y);
    reveal_strlit(":");
    assert(x.take(40) =~= g);
    assert(y.take(40) =~= h);
    assert(x.skip(41) =~= a);
    assert(y.skip(41) =~= b);
}

/// The key of a cancellation, from its parts.
pub fn pending_cancellation_key_parts(repo: &str, run_id: u64, head: &str, front: &str) -> (r:
    String)
    ensures
        r@ == pending_key_text(repo@, run_id, head@, front@),
{
    let mut out: String = repo.to_owned();
    out.append("#");
    out.append(to_decimal(run_id).as_str());
    out.append(":");
    out.append(head);
    out.append(":");
    out.append(front);
    out
}

/// The key of a pending cancellation.
pub fn pending_cancellation_key(pending: &PendingCancellation) -> (r: String)
    ensures
        r@ == pending_key_text(
            pending.repo@,
            pending.run_id,
            pending.head_sha@,
            pending.front_head@,
        ),
{
    pending_cancellation_key_parts(
        pending.repo.as_str(),
        pending.run_id,
        pending.head_sha.as_str(),
        pending.front_head.as_str(),
    )
}

/// The audit subject of a run whose capacity is taken.
pub open spec fn capacity_subject(run_id: u64) -> Seq<char> {
    "capacity-run:"@ + decimal(run_id as nat)
}

/// The audit subject of a run whose capacity is taken.
pub fn capacity_run_subject(run_id: u64) -> (r: String)
    ensures
        r@ == capacity_subject(run_id),
{
    concat("capacity-run:", to_decimal(run_id).as_str())
}

/// Whether a ledger differs from an earlier one by one pending record, which
/// holds the given texts, and by one audit entry on that record's run.
pub open spec fn pending_updated(
    before: StewardLedger,
    after: StewardLedger,
    key: Seq<char>,
    texts: PendingTexts,
    at: Seq<char>,
    action: Seq<char>,
) -> bool {
    let map = after.pending_cancellations@;
    &&& after.same_but_pending(before)
    &&& map.dom().contains(key)
    &&& map == before.pending_cancellations@.insert(key, map[key])
    &&& map[key]@ == texts
    &&& after.audits() == audited(
        before.audits(),
        AuditTexts { at, repo: texts.repo, subject: capacity_subject(texts.run_id), action },
    )
}

/// Binds a pending cancellation to the request that is about to be sent for it.
///
/// The record must still be there: without it nothing is changed.
pub fn persist_pending_mutation_correlation(
    ledger: &mut StewardLedger,
    key: &str,
    correlation_id: &str,
    mutation_kind: PendingMutationKind,
    at: &str,
    action: &str,
) -> (r: Result<(), String>)
    ensures
        if old(ledger).pending_cancellations@.dom().contains(key@) {
            r is Ok && pending_updated(
                *old(ledger),
                *final(ledger),
                key@,
                PendingTexts {
                    mutation_correlation_id: correlation_id@,
                    mutation_kind,
                    ..old(ledger).pending_cancellations@[key@]@
                },
                at@,
                action@,
            )
        } else {
            r matches Err(e) && e@ == "pending cancellation record disappeared"@ && *final(ledger)
                == *old(ledger)
        },
{
    let mut pending = match ledger.pending_cancellations.get(key) {
        Some(found) => found.dup(),
        None => return Err("pending cancellation record disappeared".to_owned()),
    };
    pending.mutation_correlation_id = correlation_id.to_owned();
    pending.mutation_kind = mutation_kind;
    let repo = pending.repo.clone();
    let subject = capacity_run_subject(pending.run_id);
    ledger.pending_cancellations.insert(key.to_owned(), pending);
    record_audit(ledger, at, repo.as_str(), subject.as_str(), action);
    Ok(())
}

} // verus!
