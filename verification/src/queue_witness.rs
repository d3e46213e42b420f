//! Witnessing pull requests at the front of the queue, and using a witness as
//! evidence later.
use vstd::prelude::*;

use crate::ledger::{QueueWitness, StewardLedger};
use crate::model::{ObservedPr, RequiredCheck};
use crate::observation::{entry_of, entry_views, find_entry, EntryView, QueueEntry};
use crate::queue_recovery::{
    check_identities, receipt_key, receipt_key_text, same_required_checks, witness_identities,
    witness_key, witness_key_text, witness_required_checks, witness_requires,
    QueueRecoveryEvidence,
};
use crate::revalidation::{managed, pull_request_is_managed};
use crate::text::{eq_ignore_case, full_sha, is_full_sha, same_ignoring_case, str_eq};

verus! {

/// What became of an attempt to witness a pull request.
#[derive(Clone, Copy, Debug, PartialEq, Eq, Structural)]
pub enum WitnessOutcome {
    /// The pull request is no witness.
    Passed,
    /// The base or its requirements moved meanwhile: nothing may be witnessed.
    Moved,
    /// The pull request was witnessed.
    Recorded,
}

/// Whether a pull request stands at the front of the queue, is managed on its
/// observed head, and its merge group has a known head.
pub open spec fn witnessable(
    entries: Seq<EntryView>,
    observed: ObservedPr,
    live: ObservedPr,
    managed_label: Seq<char>,
    handed_off: bool,
) -> bool {
    &&& entry_of(entries, observed.fact.number) matches Some(entry) && entry.position == 1
    &&& same_ignoring_case(live.fact.head_sha@, observed.fact.head_sha@)
    &&& managed(live, managed_label, handed_off)
    &&& entry_of(entries, live.fact.number) matches Some(entry) && entry.head matches Some(head)
        && full_sha(head)
    &&& full_sha(live.fact.head_sha@)
}

/// Whether a pull request can be witnessed, before its merge group is read.
pub fn can_witness(
    entries: &Vec<QueueEntry>,
    observed: &ObservedPr,
    live: &ObservedPr,
    managed_label: &str,
    handed_off: bool,
) -> (r: bool)
    ensures
        r == witnessable(entry_views(entries@), *observed, *live, managed_label@, handed_off),
{
    let first = match find_entry(entries, observed.fact.number) {
        Some(i) => entries[i].position == 1,
        None => false,
    };
    if !first || !eq_ignore_case(live.fact.head_sha.as_str(), observed.fact.head_sha.as_str())
        || !pull_request_is_managed(live, managed_label, handed_off) {
        return false;
    }
    let known = match find_entry(entries, live.fact.number) {
        Some(i) => match &entries[i].head {
            Some(head) => is_full_sha(head.as_str()),
            None => false,
        },
        None => false,
    };
    known && is_full_sha(live.fact.head_sha.as_str())
}

/// Whether a witness records a pull request at the front of the queue.
pub open spec fn witnesses(
    witness: QueueWitness,
    repo: Seq<char>,
    base: Seq<char>,
    base_sha: Seq<char>,
    live: ObservedPr,
    entry: EntryView,
    required: Seq<RequiredCheck>,
    observed_at: Seq<char>,
) -> bool {
    &&& witness.repo@ == repo
    &&& witness.base@ == base
    &&& witness.base_sha@ == base_sha
    &&& witness.pr_number == live.fact.number
    &&& witness.pr_head@ == live.fact.head_sha@
    &&& entry.head == Some(witness.merge_group_head@)
    &&& witness.position == 1
    &&& witness.enqueued_at@ == entry.enqueued_at
    &&& witness.observed_at@ == observed_at
    &&& witness_identities(witness.required_checks@) == check_identities(required)
}

/// Whether two ledgers differ in their queue witnesses alone.
pub open spec fn same_but_witnesses(before: StewardLedger, after: StewardLedger) -> bool {
    &&& after.transient_attempts == before.transient_attempts
    &&& after.preemption_attempts == before.preemption_attempts
    &&& after.pending_cancellations == before.pending_cancellations
    &&& after.queue_recovery_receipts == before.queue_recovery_receipts
    &&& after.terminal_handoffs == before.terminal_handoffs
    &&& after.audit == before.audit
}

/// What becomes of an attempt to witness a pull request that can be witnessed or not.
pub open spec fn witness_outcome(
    can_be: bool,
    contains_base: bool,
    base_sha_before: Seq<char>,
    base_sha_after: Seq<char>,
    required_before: Seq<RequiredCheck>,
    required_after: Seq<RequiredCheck>,
) -> WitnessOutcome {
    if !can_be || !contains_base {
        WitnessOutcome::Passed
    } else if base_sha_after != base_sha_before || check_identities(required_after)
        != check_identities(required_before) {
        WitnessOutcome::Moved
    } else {
        WitnessOutcome::Recorded
    }
}

/// A pull request is witnessed exactly where it can be, its merge group is built on the
/// base, and neither the base nor the required checks moved meanwhile.
pub proof fn an_unmoved_pull_request_is_witnessed(
    can_be: bool,
    contains_base: bool,
    base_sha: Seq<char>,
    other_sha: Seq<char>,
    required: Seq<RequiredCheck>,
    other: Seq<RequiredCheck>,
)
    ensures
        witness_outcome(can_be, contains_base, base_sha, base_sha, required, required)
            == WitnessOutcome::Recorded <==> can_be && contains_base,
        other_sha != base_sha ==> witness_outcome(
            can_be,
            contains_base,
            base_sha,
            other_sha,
            required,
            other,
        ) != WitnessOutcome::Recorded,
        check_identities(other) != check_identities(required) ==> witness_outcome(
            can_be,
            contains_base,
            base_sha,
            other_sha,
            required,
            other,
        ) != WitnessOutcome::Recorded,
        witness_outcome(can_be, contains_base, base_sha, other_sha, required, other)
            == WitnessOutcome::Moved ==> can_be && contains_base,
{
}

/// A pull request can be witnessed only at the front of the queue, at the head that was
/// observed, in the steward's hands, and with a merge group of its own; and then always.
pub proof fn only_the_front_can_be_witnessed(
    entries: Seq<EntryView>,
    observed: ObservedPr,
    live: ObservedPr,
    managed_label: Seq<char>,
    handed_off: bool,
)
    requires
        live.fact.number == observed.fact.number,
    ensures
        witnessable(entries, observed, live, managed_label, handed_off) <==> (entry_of(
            entries,
            live.fact.number,
        ) matches Some(entry) && entry.position == 1 && (entry.head matches Some(head) && full_sha(
            head,
        ))) && same_ignoring_case(live.fact.head_sha@, observed.fact.head_sha@) && full_sha(
            live.fact.head_sha@,
        ) && handed_off && managed(live, managed_label, true),
{
}

/// Witnesses a pull request at the front of the queue. Its merge group must be
/// built on the base, and neither the base nor its required checks may have
/// moved since the reads began.
pub fn record_queue_witness(
    ledger: &mut StewardLedger,
    repo: &str,
    base: &str,
    entries: &Vec<QueueEntry>,
    observed: &ObservedPr,
    live: &ObservedPr,
    managed_label: &str,
    handed_off: bool,
    contains_base: bool,
    base_sha_before: &str,
    base_sha_after: &str,
    required_before: &Vec<RequiredCheck>,
    required_after: &Vec<RequiredCheck>,
    observed_at: &str,
) -> (r: WitnessOutcome)
    ensures
        r == witness_outcome(
            witnessable(entry_views(entries@), *observed, *live, managed_label@, handed_off),
            contains_base,
            base_sha_before@,
            base_sha_after@,
            required_before@,
            required_after@,
        ),
        r != WitnessOutcome::Recorded ==> *final(ledger) == *old(ledger),
        r == WitnessOutcome::Recorded ==> {
            let key = witness_key_text(repo@, live.fact.number);
            let map = final(ledger).queue_witnesses@;
            &&& same_but_witnesses(*old(ledger), *final(ledger))
            &&& map.dom().contains(key)
            &&& map == old(ledger).queue_witnesses@.insert(key, map[key])
            &&& entry_of(entry_views(entries@), live.fact.number) matches Some(entry)
                && witnesses(
                map[key],
                repo@,
                base@,
                base_sha_after@,
                *live,
                entry,
                required_after@,
                observed_at@,
            )
        },
{
    if !can_witness(entries, observed, live, managed_label, handed_off) || !contains_base {
        return WitnessOutcome::Passed;
    }
    if !str_eq(base_sha_after, base_sha_before) || !same_required_checks(
        required_after,
        required_before,
    ) {
        return WitnessOutcome::Moved;
    }
    match find_entry(entries, live.fact.number) {
        Some(i) => match &entries[i].head {
            Some(head) => {
                let witness = QueueWitness {
                    repo: repo.to_owned(),
                    base: base.to_owned(),
                    base_sha: base_sha_after.to_owned(),
                    pr_number: live.fact.number,
                    pr_head: live.fact.head_sha.clone(),
                    merge_group_head: head.clone(),
                    position: 1,
                    enqueued_at: entries[i].enqueued_at.clone(),
                    observed_at: observed_at.to_owned(),
                    required_checks: witness_required_checks(required_after),
                };
                ledger.queue_witnesses.insert(witness_key(repo, live.fact.number), witness);
                WitnessOutcome::Recorded
            },
            None => WitnessOutcome::Passed,
        },
        None => WitnessOutcome::Passed,
    }
}

/// Whether a witness speaks for a pull request that is no longer in the queue.
pub open spec fn speaks_for(
    witness: QueueWitness,
    repo: Seq<char>,
    base: Seq<char>,
    pr: ObservedPr,
) -> bool {
    &&& pr.fact.queue_position is None
    &&& witness.repo@ == repo
    &&& witness.base@ == base
    &&& witness.pr_number == pr.fact.number
    &&& same_ignoring_case(witness.pr_head@, pr.fact.head_sha@)
    &&& full_sha(witness.merge_group_head@)
    &&& witness.position == 1
}

/// The witness that speaks for a pull request, if there is one.
pub fn recovery_witness<'a>(
    ledger: &'a StewardLedger,
    repo: &str,
    base: &str,
    pr: &ObservedPr,
) -> (r: Option<&'a QueueWitness>)
    ensures
        ({
            let key = witness_key_text(repo@, pr.fact.number);
            let map = ledger.queue_witnesses@;
            match r {
                Some(witness) => map.dom().contains(key) && map[key] == *witness && speaks_for(
                    *witness,
                    repo@,
                    base@,
                    *pr,
                ),
                None => !(map.dom().contains(key) && speaks_for(map[key], repo@, base@, *pr)),
            }
        }),
{
    if pr.fact.queue_position.is_some() {
        return None;
    }
    let key = witness_key(repo, pr.fact.number);
    match ledger.queue_witnesses.get(key.as_str()) {
        Some(witness) => {
            if !str_eq(witness.repo.as_str(), repo) || !str_eq(witness.base.as_str(), base)
                || witness.pr_number != pr.fact.number || !eq_ignore_case(
                witness.pr_head.as_str(),
                pr.fact.head_sha.as_str(),
            ) || !is_full_sha(witness.merge_group_head.as_str()) || witness.position != 1 {
                return None;
            }
            Some(witness)
        },
        None => None,
    }
}

/// Whether the base and its required checks are still those of the witness.
pub fn witness_still_current(
    witness: &QueueWitness,
    current_base_sha: &str,
    observed_required: &Vec<RequiredCheck>,
    current_required: &Vec<RequiredCheck>,
) -> (r: bool)
    ensures
        r == (current_base_sha@ == witness.base_sha@ && check_identities(current_required@)
            == check_identities(observed_required@) && witness_identities(
            witness.required_checks@,
        ) == check_identities(current_required@)),
{
    str_eq(current_base_sha, witness.base_sha.as_str()) && same_required_checks(
        current_required,
        observed_required,
    ) && witness_requires(witness, current_required)
}

/// The evidence that a witness, a removal and a culprit make, unless it was used
/// before.
pub fn recovery_evidence(
    ledger: &StewardLedger,
    witness: &QueueWitness,
    removed_at: &str,
    run_id: u64,
    job_id: u64,
) -> (r: Option<QueueRecoveryEvidence>)
    ensures
        match r {
            Some(evidence) => evidence.base_sha@ == witness.base_sha@
                && evidence.merge_group_head@ == witness.merge_group_head@ && evidence.removed_at@
                == removed_at@ && evidence.run_id == run_id && evidence.job_id == job_id
                && !ledger.queue_recovery_receipts@.dom().contains(receipt_key_text(evidence)),
            None => exists|evidence: QueueRecoveryEvidence|
                #![trigger receipt_key_text(evidence)]
                evidence.base_sha@ == witness.base_sha@ && evidence.merge_group_head@
                    == witness.merge_group_head@ && evidence.removed_at@ == removed_at@
                    && evidence.run_id == run_id && evidence.job_id == job_id
                    && ledger.queue_recovery_receipts@.dom().contains(receipt_key_text(evidence)),
        },
{
    let evidence = QueueRecoveryEvidence {
        base_sha: witness.base_sha.clone(),
        merge_group_head: witness.merge_group_head.clone(),
        removed_at: removed_at.to_owned(),
        run_id,
        job_id,
    };
    let key = receipt_key(&evidence);
    if ledger.queue_recovery_receipts.contains_key(key.as_str()) {
        return None;
    }
    Some(evidence)
}

/// Evidence is used at most once: while the receipt of a restoration is in the
/// ledger, the same evidence is not given again.
pub proof fn used_evidence_is_refused(
    ledger: StewardLedger,
    used: QueueRecoveryEvidence,
    found: QueueRecoveryEvidence,
)
    requires
        ledger.queue_recovery_receipts@.dom().contains(receipt_key_text(used)),
        !ledger.queue_recovery_receipts@.dom().contains(receipt_key_text(found)),
    ensures
        !found.agrees(used),
{
}

/// What was witnessed of a pull request speaks for it once it has left the queue, as long
/// as its head is the same.
pub proof fn a_witness_speaks_for_its_pull_request(
    witness: QueueWitness,
    repo: Seq<char>,
    base: Seq<char>,
    base_sha: Seq<char>,
    live: ObservedPr,
    entry: EntryView,
    required: Seq<RequiredCheck>,
    observed_at: Seq<char>,
    later: ObservedPr,
)
    requires
        witnesses(witness, repo, base, base_sha, live, entry, required, observed_at),
        entry.head matches Some(head) && full_sha(head),
    ensures
        speaks_for(witness, repo, base, later) <==> later.fact.queue_position is None
            && later.fact.number == live.fact.number && same_ignoring_case(
            live.fact.head_sha@,
            later.fact.head_sha@,
        ),
        witness.base_sha@ == base_sha,
        witness.enqueued_at@ == entry.enqueued_at,
        witness.observed_at@ == observed_at,
        witness_identities(witness.required_checks@) == check_identities(required),
{
}

} // verus!
