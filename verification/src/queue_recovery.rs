//! Restoring a pull request's place in the merge queue.
//!
//! A pull request that stood at the front of the queue and was removed because a
//! provider-hosted setup job could not resolve the provider's own names may be
//! put back at the front, once. Every link of that evidence fails closed.
use vstd::prelude::*;

use crate::json::{
    boolean_in, items_in, number_in, opt_tree, text_in, trees, Json,
    JsonTree,
};
use crate::ledger::{QueueWitness, WitnessRequiredCheck};
use crate::model::{RequiredCheck, StewardCheck, StewardCheckSource};
use crate::outside::{instant_of, parse_time, Instant};
use crate::text::{
    args_view, concat, concat3, contains, cut, decimal, eq_ignore_case, full_sha, has_infix,
    is_full_sha, lower, opt_is, opt_ref_view, result_view, same_ignoring_case, split_once, str_eq, to_decimal,
    to_lower, views,
};

verus! {

/// The longest time between the end of the failed run and the removal.
pub const MAX_REMOVAL_TO_RUN_DELAY: i128 = 600_000_000_000;

/// The age beyond which a removal is no longer evidence.
pub const MAX_RECOVERY_AGE: i128 = 7_200_000_000_000;

/// The identity of the provider's own checks.
pub const GITHUB_ACTIONS_APP_ID: u64 = 15_368;

/// Why a pull request may be put back at the front of the queue.
#[derive(Clone, Debug, PartialEq, Eq)]
pub struct QueueRecoveryEvidence {
    pub base_sha: String,
    pub merge_group_head: String,
    pub removed_at: String,
    pub run_id: u64,
    pub job_id: u64,
}

impl QueueRecoveryEvidence {
    /// Whether two pieces of evidence say the same.
    pub open spec fn agrees(self, other: Self) -> bool {
        &&& self.base_sha@ == other.base_sha@
        &&& self.merge_group_head@ == other.merge_group_head@
        &&& self.removed_at@ == other.removed_at@
        &&& self.run_id == other.run_id
        &&& self.job_id == other.job_id
    }

    /// Whether two pieces of evidence say the same.
    pub fn same_as(&self, other: &Self) -> (r: bool)
        ensures
            r == self.agrees(*other),
    {
        self.base_sha == other.base_sha && self.merge_group_head == other.merge_group_head
            && self.removed_at == other.removed_at && self.run_id == other.run_id && self.job_id
            == other.job_id
    }
}

/// The key of a restoration's receipt.
pub open spec fn receipt_key_text(evidence: QueueRecoveryEvidence) -> Seq<char> {
    evidence.merge_group_head@ + ":"@ + evidence.removed_at@ + ":"@ + decimal(
        evidence.run_id as nat,
    ) + ":"@ + decimal(evidence.job_id as nat)
}

/// The key of a restoration's receipt.
pub fn receipt_key(evidence: &QueueRecoveryEvidence) -> (r: String)
    ensures
        r@ == receipt_key_text(*evidence),
{
    let mut out: String = evidence.merge_group_head.clone();
    out.append(":");
    out.append(evidence.removed_at.as_str());
    out.append(":");
    out.append(to_decimal(evidence.run_id).as_str());
    out.append(":");
    out.append(to_decimal(evidence.job_id).as_str());
    out
}

/// The key of a queue witness.
pub open spec fn witness_key_text(repo: Seq<char>, pr_number: u64) -> Seq<char> {
    repo + "#"@ + decimal(pr_number as nat)
}

/// The key of a queue witness.
pub fn witness_key(repo: &str, pr_number: u64) -> (r: String)
    ensures
        r@ == witness_key_text(repo@, pr_number),
{
    concat3(repo, "#", to_decimal(pr_number).as_str())
}

/// What a required check is known by.
pub open spec fn check_identities(checks: Seq<RequiredCheck>) -> Seq<(Seq<char>, Option<u64>)> {
    Seq::new(checks.len(), |i: int| (checks[i].context@, checks[i].app_id))
}

/// What a witnessed required check is known by.
pub open spec fn witness_identities(checks: Seq<WitnessRequiredCheck>) -> Seq<
    (Seq<char>, Option<u64>),
> {
    Seq::new(checks.len(), |i: int| (checks[i].context@, checks[i].app_id))
}

/// The required checks as a witness remembers them.
pub fn witness_required_checks(checks: &Vec<RequiredCheck>) -> (r: Vec<WitnessRequiredCheck>)
    ensures
        witness_identities(r@) == check_identities(checks@),
{
    let mut out: Vec<WitnessRequiredCheck> = Vec::new();
    let mut i: usize = 0;
    while i < checks.len()
        invariant
            i <= checks.len(),
            out@.len() == i,
            forall|k: int|
                0 <= k < i ==> (#[trigger] out@[k]).context@ == checks@[k].context@
                    && out@[k].app_id == checks@[k].app_id,
        decreases checks.len() - i,
    {
        out.push(
            WitnessRequiredCheck { context: checks[i].context.clone(), app_id: checks[i].app_id },
        );
        i = i + 1;
    }
    proof {
        assert(witness_identities(out@) =~= check_identities(checks@));
    }
    out
}

/// Whether two lists of required checks are the same list.
pub fn same_required_checks(a: &Vec<RequiredCheck>, b: &Vec<RequiredCheck>) -> (r: bool)
    ensures
        r == (check_identities(a@) == check_identities(b@)),
{
    if a.len() != b.len() {
        proof {
            assert(check_identities(a@).len() != check_identities(b@).len());
        }
        return false;
    }
    let mut i: usize = 0;
    while i < a.len()
        invariant
            i <= a.len(),
            a.len() == b.len(),
            forall|k: int|
                0 <= k < i ==> #[trigger] check_identities(a@)[k] == check_identities(b@)[k],
        decreases a.len() - i,
    {
        if a[i].context != b[i].context || a[i].app_id != b[i].app_id {
            proof {
                assert(check_identities(a@)[i as int] != check_identities(b@)[i as int]);
            }
            return false;
        }
        i = i + 1;
    }
    proof {
        assert(check_identities(a@) =~= check_identities(b@));
    }
    true
}

/// Whether a witness remembers exactly these required checks.
pub fn witness_requires(witness: &QueueWitness, checks: &Vec<RequiredCheck>) -> (r: bool)
    ensures
        r == (witness_identities(witness.required_checks@) == check_identities(checks@)),
{
    let a = &witness.required_checks;
    if a.len() != checks.len() {
        proof {
            assert(witness_identities(a@).len() != check_identities(checks@).len());
        }
        return false;
    }
    let mut i: usize = 0;
    while i < a.len()
        invariant
            i <= a.len(),
            a == &witness.required_checks,
            a.len() == checks.len(),
            forall|k: int|
                0 <= k < i ==> #[trigger] witness_identities(a@)[k] == check_identities(checks@)[k],
        decreases a.len() - i,
    {
        if a[i].context != checks[i].context || a[i].app_id != checks[i].app_id {
            proof {
                assert(witness_identities(a@)[i as int] != check_identities(checks@)[i as int]);
            }
            return false;
        }
        i = i + 1;
    }
    proof {
        assert(witness_identities(a@) =~= check_identities(checks@));
    }
    true
}

/// Whether a removal is recent enough to act on: not in the future, and no older
/// than two hours.
pub open spec fn fresh_removal(removed: Instant, now: Instant) -> bool {
    !now.precedes(removed) && now.since(removed) <= MAX_RECOVERY_AGE
}

/// Whether a removal is recent enough to act on.
pub fn removal_is_fresh(removed: Instant, now: Instant) -> (r: bool)
    ensures
        r == fresh_removal(removed, now),
{
    !now.before(&removed) && now.nanos_since(&removed) <= MAX_RECOVERY_AGE
}

/// Whether a log shows that a hosted machine could not resolve the provider's
/// internal names and gave up after three attempts.
pub open spec fn internal_dns_failure(log: Seq<char>) -> bool {
    &&& has_infix(log, "internal-api.service."@)
    &&& has_infix(log, ".github.net"@)
    &&& has_infix(log, "Name or service not known"@)
    &&& has_infix(log, "Failed to download archive"@)
    &&& has_infix(log, "after 3 attempts"@)
}

/// Whether a log shows a failure of the provider's internal names.
pub fn provider_internal_dns_failure(log: &str) -> (r: bool)
    ensures
        r == internal_dns_failure(log@),
{
    contains(log, "internal-api.service.") && contains(log, ".github.net") && contains(
        log,
        "Name or service not known",
    ) && contains(log, "Failed to download archive") && contains(log, "after 3 attempts")
}

/// Whether a check is the provider's own check of the given run.
pub open spec fn provider_check_of(check: StewardCheck, run_id: u64) -> bool {
    check.source == StewardCheckSource::CheckRun && check.app_id == Some(GITHUB_ACTIONS_APP_ID)
        && check.run_id == Some(run_id)
}

/// Whether a failed required check is the provider's own check of a run.
pub fn failed_required_check_matches_run(check: &StewardCheck, run_id: u64) -> (r: bool)
    ensures
        r == provider_check_of(*check, run_id),
{
    check.source == StewardCheckSource::CheckRun && check.app_id == Some(GITHUB_ACTIONS_APP_ID)
        && check.run_id == Some(run_id)
}

/// The conclusions that leave the cause of a removal unambiguous.
pub open spec fn settled_conclusion(conclusion: Seq<char>) -> bool {
    ||| conclusion == "success"@
    ||| conclusion == "neutral"@
    ||| conclusion == "skipped"@
    ||| conclusion == "failure"@
}

fn is_settled(conclusion: &str) -> (r: bool)
    ensures
        r == settled_conclusion(conclusion@),
{
    str_eq(conclusion, "success") || str_eq(conclusion, "neutral") || str_eq(conclusion, "skipped")
        || str_eq(conclusion, "failure")
}

/// Whether a check has concluded, one way or the other, in any letter case.
pub open spec fn concluded(check: StewardCheck) -> bool {
    check.conclusion matches Some(c) && settled_conclusion(lower(c@))
}

/// Whether a required check has a conclusion that leaves no doubt.
pub fn required_check_has_allowed_conclusion(check: &StewardCheck) -> (r: bool)
    ensures
        r == concluded(*check),
{
    match &check.conclusion {
        Some(conclusion) => is_settled(to_lower(conclusion.as_str()).as_str()),
        None => false,
    }
}

/// Whether some parent of a commit is the given base.
pub open spec fn includes_base(parents: Seq<JsonTree>, base_sha: Seq<char>) -> bool {
    exists|i: int|
        0 <= i < parents.len() && (#[trigger] parents[i]).text_at("sha"@) is Some
            && same_ignoring_case(parents[i].text_at("sha"@)->0, base_sha)
}

/// Whether some parent of a commit is the given base.
pub fn parents_include_base(parents: &Vec<Json>, base_sha: &str) -> (r: bool)
    ensures
        r == includes_base(trees(parents@), base_sha@),
{
    let ghost all = trees(parents@);
    let mut i: usize = 0;
    while i < parents.len()
        invariant
            i <= parents.len(),
            all == trees(parents@),
            forall|k: int|
                0 <= k < i ==> !((#[trigger] all[k]).text_at("sha"@) is Some && same_ignoring_case(
                    all[k].text_at("sha"@)->0,
                    base_sha@,
                )),
        decreases parents.len() - i,
    {
        proof {
            assert(all[i as int] == parents@[i as int]@);
        }
        if let Some(sha) = parents[i].text_field("sha") {
            if eq_ignore_case(sha.as_str(), base_sha) {
                return true;
            }
        }
        i = i + 1;
    }
    false
}

/// Whether the commit of a merge group was built on the given base. A commit
/// without a list of parents is an error.
pub open spec fn built_on(commit: JsonTree, base_sha: Seq<char>) -> Result<bool, Seq<char>> {
    match commit.items_at("parents"@) {
        Some(parents) => Ok(includes_base(parents, base_sha)),
        None => Err("merge-group commit missing parents"@),
    }
}

/// Whether the commit of a merge group was built on the given base.
///
/// A commit without a list of parents is an error.
pub fn merge_group_contains_base(commit: &Json, base_sha: &str) -> (r: Result<bool, String>)
    ensures
        result_view(r) == built_on(commit@, base_sha@),
{
    match commit.array_field("parents") {
        Some(parents) => Ok(parents_include_base(parents, base_sha)),
        None => Err("merge-group commit missing parents".to_owned()),
    }
}

/// The exact revision that a commit document names.
pub fn current_base_sha(commit: &Json) -> (r: Result<String, String>)
    ensures
        match commit@.text_at("sha"@) {
            Some(sha) => if full_sha(sha) {
                r matches Ok(s) && s@ == sha
            } else {
                r matches Err(e) && e@ == "merge-queue base revision missing exact SHA"@
            },
            None => r matches Err(e) && e@ == "merge-queue base revision missing exact SHA"@,
        },
{
    match commit.text_field("sha") {
        Some(sha) => if is_full_sha(sha.as_str()) {
            Ok(sha.clone())
        } else {
            Err("merge-queue base revision missing exact SHA".to_owned())
        },
        None => Err("merge-queue base revision missing exact SHA".to_owned()),
    }
}

/// What a removal from the queue shows.
#[derive(Clone, Debug, PartialEq, Eq)]
pub struct RemovalEvidence {
    pub removed_at: String,
    pub removed: Instant,
    pub enqueued: Instant,
}

/// The timeline's path inside a response.
pub open spec fn timeline(response: JsonTree) -> Option<JsonTree> {
    match response.at(seq!["data"@, "repository"@, "pullRequest"@]) {
        Some(pr) => pr.field("timelineItems"@),
        None => None,
    }
}

/// Whether an event is a removal because of failed checks.
pub open spec fn failed_checks_event(event: JsonTree) -> bool {
    &&& event.text_at("__typename"@) == Some("RemovedFromMergeQueueEvent"@)
    &&& event.text_at("reason"@) matches Some(reason) && same_ignoring_case(
        reason,
        "failed_checks"@,
    )
}

/// Whether an event is the admission at the given time.
pub open spec fn admission_event(event: JsonTree, enqueued_at: Seq<char>) -> bool {
    &&& event.text_at("__typename"@) == Some("AddedToMergeQueueEvent"@)
    &&& event.text_at("createdAt"@) == Some(enqueued_at)
}

/// The removal that the last two events of a timeline show: the witnessed
/// admission, and then a fresh removal because of failed checks that followed
/// the observation.
pub open spec fn removal_shown(
    events: Seq<JsonTree>,
    enqueued_at: Seq<char>,
    observed_at: Seq<char>,
    now: Instant,
) -> Option<(Seq<char>, Instant, Instant)> {
    if events.len() >= 2 && failed_checks_event(events.last()) && admission_event(
        events[events.len() - 2],
        enqueued_at,
    ) {
        match events.last().text_at("createdAt"@) {
            Some(removed_at) => match (
                instant_of(removed_at),
                instant_of(observed_at),
                instant_of(enqueued_at),
            ) {
                (Some(removed), Some(observed), Some(enqueued)) => if !removed.precedes(observed)
                    && !observed.precedes(enqueued) && fresh_removal(removed, now) {
                    Some((removed_at, removed, enqueued))
                } else {
                    None
                },
                _ => None,
            },
            None => None,
        }
    } else {
        None
    }
}

/// Reads from a pull request's timeline whether it was removed from the queue
/// because of failed checks, after the witnessed admission and observation.
///
/// A response without the timeline, or with part of it, is an error.
pub fn failed_checks_removal(response: &Json, witness: &QueueWitness, now: Instant) -> (r: Result<
    Option<RemovalEvidence>,
    String,
>)
    ensures
        match items_in(timeline(response@), "nodes"@) {
            None => r matches Err(e) && e@
                == "merge-queue removal timeline missing timelineItems.nodes"@,
            Some(events) => {
                let partial = match timeline(response@) {
                    Some(t) => boolean_in(t.field("pageInfo"@), "hasPreviousPage"@),
                    None => None,
                };
                if partial != Some(false) {
                    r matches Err(e) && e@
                        == "merge-queue removal timeline exceeds 100; refusing a partial history"@
                } else {
                    match removal_shown(events, witness.enqueued_at@, witness.observed_at@, now) {
                        Some((removed_at, removed, enqueued)) => r matches Ok(Some(found))
                            && found.removed_at@ == removed_at && found.removed == removed
                            && found.enqueued == enqueued,
                        None => r matches Ok(None),
                    }
                }
            },
        },
{
    let items = match response.get3("data", "repository", "pullRequest") {
        Some(pr) => pr.get("timelineItems"),
        None => None,
    };
    let events = match items {
        Some(items) => items.array_field("nodes"),
        None => None,
    };
    let events = match events {
        Some(events) => events,
        None => {
            return Err("merge-queue removal timeline missing timelineItems.nodes".to_owned());
        },
    };
    let page = match items {
        Some(items) => items.get("pageInfo"),
        None => None,
    };
    let partial = match page {
        Some(page) => page.bool_field("hasPreviousPage"),
        None => None,
    };
    if partial != Some(false) {
        return Err(
            "merge-queue removal timeline exceeds 100; refusing a partial history".to_owned(),
        );
    }
    let n: usize = events.len();
    if n < 2 {
        return Ok(None);
    }
    let latest = &events[n - 1];
    let admission = &events[n - 2];
    proof {
        assert(trees(events@).last() == latest@);
        assert(trees(events@)[n - 2] == admission@);
    }
    if !opt_is(latest.text_field("__typename"), "RemovedFromMergeQueueEvent") {
        return Ok(None);
    }
    match latest.text_field("reason") {
        Some(reason) => if !eq_ignore_case(reason.as_str(), "failed_checks") {
            return Ok(None);
        },
        None => return Ok(None),
    }
    if !opt_is(admission.text_field("__typename"), "AddedToMergeQueueEvent") || !opt_is(
        admission.text_field("createdAt"),
        witness.enqueued_at.as_str(),
    ) {
        return Ok(None);
    }
    let removed_at = match latest.text_field("createdAt") {
        Some(removed_at) => removed_at,
        None => return Ok(None),
    };
    let removed = match parse_time(removed_at.as_str()) {
        Some(removed) => removed,
        None => return Ok(None),
    };
    let observed = match parse_time(witness.observed_at.as_str()) {
        Some(observed) => observed,
        None => return Ok(None),
    };
    let enqueued = match parse_time(witness.enqueued_at.as_str()) {
        Some(enqueued) => enqueued,
        None => return Ok(None),
    };
    if removed.before(&observed) || observed.before(&enqueued) || !removal_is_fresh(removed, now) {
        return Ok(None);
    }
    Ok(Some(RemovalEvidence { removed_at: removed_at.clone(), removed, enqueued }))
}

/// Whether a run is the failed merge-group run of the given head that ended
/// shortly before the removal and began after the admission.
pub open spec fn failed_group_run(
    run: JsonTree,
    merge_group_head: Seq<char>,
    enqueued: Instant,
    removed: Instant,
) -> bool {
    &&& run.text_at("event"@) == Some("merge_group"@)
    &&& run.text_at("status"@) == Some("completed"@)
    &&& run.text_at("conclusion"@) == Some("failure"@)
    &&& run.text_at("head_sha"@) matches Some(head) && same_ignoring_case(head, merge_group_head)
    &&& run.text_at("created_at"@) matches Some(text) && instant_of(text) matches Some(created)
        && !created.precedes(enqueued) && !removed.precedes(created)
    &&& run.text_at("updated_at"@) matches Some(text) && instant_of(text) matches Some(updated)
        && !removed.precedes(updated) && removed.since(updated) <= MAX_REMOVAL_TO_RUN_DELAY
}

/// Whether a run is the failed merge-group run of the given head.
pub fn is_failed_group_run(
    run: &Json,
    merge_group_head: &str,
    enqueued: Instant,
    removed: Instant,
) -> (r: bool)
    ensures
        r == failed_group_run(run@, merge_group_head@, enqueued, removed),
{
    if !opt_is(run.text_field("event"), "merge_group") || !opt_is(
        run.text_field("status"),
        "completed",
    ) || !opt_is(run.text_field("conclusion"), "failure") {
        return false;
    }
    match run.text_field("head_sha") {
        Some(head) => if !eq_ignore_case(head.as_str(), merge_group_head) {
            return false;
        },
        None => return false,
    }
    let created = match run.text_field("created_at") {
        Some(text) => parse_time(text.as_str()),
        None => None,
    };
    match created {
        Some(created) => if created.before(&enqueued) || removed.before(&created) {
            return false;
        },
        None => return false,
    }
    let updated = match run.text_field("updated_at") {
        Some(text) => parse_time(text.as_str()),
        None => None,
    };
    match updated {
        Some(updated) => !removed.before(&updated) && removed.nanos_since(&updated)
            <= MAX_REMOVAL_TO_RUN_DELAY,
        None => false,
    }
}

/// The only element of a sequence that satisfies a predicate.
pub open spec fn sole<T>(s: Seq<T>, p: spec_fn(T) -> bool) -> Option<T> {
    if s.filter(p).len() == 1 {
        Some(s.filter(p)[0])
    } else {
        None
    }
}

/// The run whose failure removed the pull request: the only failed merge-group
/// run that fits. A full page is not known to be the whole list and is refused.
pub open spec fn blamed_run(
    response: JsonTree,
    merge_group_head: Seq<char>,
    enqueued: Instant,
    removed: Instant,
) -> Result<Option<u64>, Seq<char>> {
    match response.items_at("workflow_runs"@) {
        None => Err("completed merge-group runs missing workflow_runs"@),
        Some(rows) => if rows.len() == 100 {
            Err("completed merge-group runs reached 100; refusing a partial history"@)
        } else {
            Ok(
                match sole(
                    rows,
                    |run: JsonTree| failed_group_run(run, merge_group_head, enqueued, removed),
                ) {
                    Some(run) => run.number_at("id"@),
                    None => None,
                },
            )
        },
    }
}

/// The run whose failure removed the pull request.
pub fn sole_failed_group_run(
    response: &Json,
    merge_group_head: &str,
    enqueued: Instant,
    removed: Instant,
) -> (r: Result<Option<u64>, String>)
    ensures
        result_view(r) == blamed_run(response@, merge_group_head@, enqueued, removed),
{
    let rows = match response.array_field("workflow_runs") {
        Some(rows) => rows,
        None => {
            return Err("completed merge-group runs missing workflow_runs".to_owned());
        },
    };
    if rows.len() == 100 {
        return Err(
            "completed merge-group runs reached 100; refusing a partial history".to_owned(),
        );
    }
    let ghost all = trees(rows@);
    let ghost p = |run: JsonTree| failed_group_run(run, merge_group_head@, enqueued, removed);
    let mut found: usize = 0;
    let mut count: usize = 0;
    let mut i: usize = 0;
    while i < rows.len()
        invariant
            i <= rows.len(),
            all == trees(rows@),
            p == (|run: JsonTree| failed_group_run(run, merge_group_head@, enqueued, removed)),
            count <= i,
            all.take(i as int).filter(p).len() == count,
            count == 1 ==> found < rows.len() && all.take(i as int).filter(p)[0]
                == all[found as int],
        decreases rows.len() - i,
    {
        proof {
            reveal(Seq::filter);
            assert(all.take(i + 1).drop_last() =~= all.take(i as int));
            assert(all.take(i + 1).last() == rows@[i as int]@);
        }
        if is_failed_group_run(&rows[i], merge_group_head, enqueued, removed) {
            if count == 0 {
                found = i;
            }
            count = count + 1;
        }
        i = i + 1;
    }
    proof {
        assert(all.take(all.len() as int) =~= all);
    }
    if count == 1 {
        Ok(rows[found].u64_field("id"))
    } else {
        Ok(None)
    }
}

/// Whether a check has completed with a failure.
pub open spec fn failed_check(check: StewardCheck) -> bool {
    &&& same_ignoring_case(check.status@, "completed"@)
    &&& check.conclusion matches Some(c) && same_ignoring_case(c@, "failure"@)
}

/// Whether the required checks blame one run: exactly one of them failed, it is
/// the provider's own check of that run, and every one has concluded.
pub open spec fn checks_blame(selected: Seq<StewardCheck>, run_id: u64) -> bool {
    &&& sole(selected, |c: StewardCheck| failed_check(c)) matches Some(failed)
        && provider_check_of(failed, run_id)
    &&& forall|i: int|
        0 <= i < selected.len() ==> same_ignoring_case(
            (#[trigger] selected[i]).status@,
            "completed"@,
        ) && concluded(selected[i])
}

/// Whether the selected required checks blame one run alone.
pub fn required_checks_blame_run(selected: &Vec<StewardCheck>, run_id: u64) -> (r: bool)
    ensures
        r == checks_blame(selected@, run_id),
{
    let ghost all = selected@;
    let ghost p = |c: StewardCheck| failed_check(c);
    let mut found: usize = 0;
    let mut count: usize = 0;
    let mut settled = true;
    let mut i: usize = 0;
    while i < selected.len()
        invariant
            i <= selected.len(),
            all == selected@,
            p == (|c: StewardCheck| failed_check(c)),
            count <= i,
            all.take(i as int).filter(p).len() == count,
            count == 1 ==> found < selected.len() && all.take(i as int).filter(p)[0]
                == all[found as int],
            settled == (forall|k: int|
                0 <= k < i ==> same_ignoring_case((#[trigger] all[k]).status@, "completed"@)
                    && concluded(all[k])),
        decreases selected.len() - i,
    {
        proof {
            reveal(Seq::filter);
            assert(all.take(i + 1).drop_last() =~= all.take(i as int));
            assert(all.take(i + 1).last() == all[i as int]);
        }
        let check = &selected[i];
        let completed = eq_ignore_case(check.status.as_str(), "completed");
        let failed = match &check.conclusion {
            Some(conclusion) => eq_ignore_case(conclusion.as_str(), "failure"),
            None => false,
        };
        if completed && failed {
            if count == 0 {
                found = i;
            }
            count = count + 1;
        }
        if !completed || !required_check_has_allowed_conclusion(check) {
            settled = false;
        }
        i = i + 1;
    }
    proof {
        assert(all.take(all.len() as int) =~= all);
    }
    count == 1 && failed_required_check_matches_run(&selected[found], run_id) && settled
}

/// The labels of the provider's own machines.
pub open spec fn hosted_label(label: Seq<char>) -> bool {
    ||| label == "ubuntu-latest"@
    ||| label == "windows-latest"@
    ||| label == "macos-latest"@
    ||| label == "macos-13"@
    ||| label == "macos-14"@
    ||| label == "macos-15"@
}

fn is_hosted_label(label: &str) -> (r: bool)
    ensures
        r == hosted_label(label@),
{
    str_eq(label, "ubuntu-latest") || str_eq(label, "windows-latest") || str_eq(
        label,
        "macos-latest",
    ) || str_eq(label, "macos-13") || str_eq(label, "macos-14") || str_eq(label, "macos-15")
}

/// The texts among the items of an array.
pub open spec fn texts_of(items: Seq<JsonTree>) -> Seq<Seq<char>>
    decreases items.len(),
{
    if items.len() == 0 {
        Seq::empty()
    } else {
        match items.last().text() {
            Some(s) => texts_of(items.drop_last()).push(s),
            None => texts_of(items.drop_last()),
        }
    }
}

/// The texts among the items of an array.
pub fn texts(items: &Vec<Json>) -> (r: Vec<String>)
    ensures
        views(r@) == texts_of(trees(items@)),
{
    let ghost all = trees(items@);
    let mut out: Vec<String> = Vec::new();
    let mut i: usize = 0;
    proof {
        assert(views(out@) =~= texts_of(all.take(0)));
    }
    while i < items.len()
        invariant
            i <= items.len(),
            all == trees(items@),
            views(out@) == texts_of(all.take(i as int)),
        decreases items.len() - i,
    {
        proof {
            assert(all.take(i + 1).drop_last() =~= all.take(i as int));
            assert(all.take(i + 1).last() == items@[i as int]@);
        }
        if let Some(s) = items[i].as_str() {
            let ghost before = out@;
            out.push(s.clone());
            proof {
                assert(views(out@) =~= views(before).push(s@));
            }
        }
        i = i + 1;
    }
    proof {
        assert(all.take(all.len() as int) =~= all);
    }
    out
}

/// Whether a step is the setup step, and it failed.
pub open spec fn failed_setup_step(step: JsonTree) -> bool {
    &&& step.text_at("name"@) == Some("Set up job"@)
    &&& step.text_at("status"@) == Some("completed"@)
    &&& step.text_at("conclusion"@) == Some("failure"@)
}

/// Whether a job ran on one of the provider's own machines and consists of its
/// failed setup step alone.
pub open spec fn hosted_setup_job(job: JsonTree) -> bool {
    let labels = match job.items_at("labels"@) {
        Some(items) => texts_of(items),
        None => Seq::empty(),
    };
    &&& job.text_at("runner_group_name"@) == Some("GitHub Actions"@)
    &&& labels.len() == 1
    &&& hosted_label(labels[0])
    &&& !same_ignoring_case(labels[0], "self-hosted"@)
    &&& job.items_at("steps"@) matches Some(steps) && steps.len() == 1 && failed_setup_step(
        steps[0],
    )
}

/// Whether a job is a failed setup of one of the provider's own machines.
pub fn is_hosted_setup_job(job: &Json) -> (r: bool)
    ensures
        r == hosted_setup_job(job@),
{
    if !opt_is(job.text_field("runner_group_name"), "GitHub Actions") {
        return false;
    }
    let labels = match job.array_field("labels") {
        Some(items) => texts(items),
        None => Vec::new(),
    };
    if labels.len() != 1 {
        return false;
    }
    if !is_hosted_label(labels[0].as_str()) || eq_ignore_case(labels[0].as_str(), "self-hosted") {
        return false;
    }
    match job.array_field("steps") {
        Some(steps) => {
            if steps.len() != 1 {
                return false;
            }
            let step = &steps[0];
            proof {
                assert(trees(steps@)[0] == step@);
            }
            opt_is(step.text_field("name"), "Set up job") && opt_is(
                step.text_field("status"),
                "completed",
            ) && opt_is(step.text_field("conclusion"), "failure")
        },
        None => false,
    }
}

/// Whether a job of a run failed.
pub open spec fn failed_job(job: JsonTree) -> bool {
    job.text_at("conclusion"@) == Some("failure"@)
}

/// The job whose setup failed: the only failed one, of which all have concluded,
/// and which is a hosted setup.
pub open spec fn sole_failed_setup(jobs: Seq<JsonTree>) -> Option<u64> {
    match sole(jobs, |job: JsonTree| failed_job(job)) {
        Some(job) => if hosted_setup_job(job) && (forall|i: int|
            0 <= i < jobs.len() ==> (#[trigger] jobs[i]).text_at("conclusion"@) is Some
                && settled_conclusion(jobs[i].text_at("conclusion"@)->0)) {
            job.number_at("id"@)
        } else {
            None
        },
        None => None,
    }
}

/// The job whose hosted setup failed. A full page of jobs is refused.
pub open spec fn blamed_job(response: JsonTree) -> Result<Option<u64>, Seq<char>> {
    match response.items_at("jobs"@) {
        None => Err("failed merge-group jobs missing jobs"@),
        Some(jobs) => if jobs.len() == 100 {
            Err("failed merge-group jobs reached 100; refusing a partial job list"@)
        } else {
            Ok(sole_failed_setup(jobs))
        },
    }
}

/// The job whose hosted setup failed.
pub fn sole_failed_setup_job(response: &Json) -> (r: Result<Option<u64>, String>)
    ensures
        result_view(r) == blamed_job(response@),
{
    let jobs = match response.array_field("jobs") {
        Some(jobs) => jobs,
        None => {
            return Err("failed merge-group jobs missing jobs".to_owned());
        },
    };
    if jobs.len() == 100 {
        return Err("failed merge-group jobs reached 100; refusing a partial job list".to_owned());
    }
    let ghost all = trees(jobs@);
    let ghost p = |job: JsonTree| failed_job(job);
    let mut found: usize = 0;
    let mut count: usize = 0;
    let mut settled = true;
    let mut i: usize = 0;
    while i < jobs.len()
        invariant
            i <= jobs.len(),
            all == trees(jobs@),
            p == (|job: JsonTree| failed_job(job)),
            count <= i,
            all.take(i as int).filter(p).len() == count,
            count == 1 ==> found < jobs.len() && all.take(i as int).filter(p)[0]
                == all[found as int],
            settled == (forall|k: int|
                0 <= k < i ==> (#[trigger] all[k]).text_at("conclusion"@) is Some
                    && settled_conclusion(all[k].text_at("conclusion"@)->0)),
        decreases jobs.len() - i,
    {
        proof {
            reveal(Seq::filter);
            assert(all.take(i + 1).drop_last() =~= all.take(i as int));
            assert(all.take(i + 1).last() == jobs@[i as int]@);
            assert(all[i as int] == jobs@[i as int]@);
        }
        let conclusion = jobs[i].text_field("conclusion");
        if opt_is(conclusion, "failure") {
            if count == 0 {
                found = i;
            }
            count = count + 1;
        }
        match conclusion {
            Some(conclusion) => if !is_settled(conclusion.as_str()) {
                settled = false;
            },
            None => {
                settled = false;
            },
        }
        i = i + 1;
    }
    proof {
        assert(all.take(all.len() as int) =~= all);
    }
    if count == 1 && settled && is_hosted_setup_job(&jobs[found]) {
        Ok(jobs[found].u64_field("id"))
    } else {
        Ok(None)
    }
}

/// How far the evidence of a failed hosted setup has been read.
pub enum SetupStage {
    Runs,
    Checks { run_id: u64 },
    Jobs { run_id: u64 },
    Log { run_id: u64, job_id: u64 },
    Settled { found: Option<(u64, u64)> },
    Failed { error: String },
}

/// What a read of the evidence brought back.
pub enum SetupReply {
    /// A response of the provider.
    Document(Json),
    /// The required checks of the merge group's head, unless one is missing.
    Selected(Option<Vec<StewardCheck>>),
    /// The log of a job.
    Log(String),
    /// The read failed.
    Unreadable(String),
}

/// What the next stage of the evidence is.
pub enum SetupNext {
    Runs,
    Checks { run_id: u64 },
    Jobs { run_id: u64 },
    Log { run_id: u64, job_id: u64 },
    Settled { found: Option<(u64, u64)> },
    Failed { error: Seq<char> },
}

impl View for SetupStage {
    type V = SetupNext;

    open spec fn view(&self) -> SetupNext {
        match *self {
            SetupStage::Runs => SetupNext::Runs,
            SetupStage::Checks { run_id } => SetupNext::Checks { run_id },
            SetupStage::Jobs { run_id } => SetupNext::Jobs { run_id },
            SetupStage::Log { run_id, job_id } => SetupNext::Log { run_id, job_id },
            SetupStage::Settled { found } => SetupNext::Settled { found },
            SetupStage::Failed { error } => SetupNext::Failed { error: error@ },
        }
    }
}

/// The stage that follows a reply: the evidence goes on only where the reply
/// names exactly one culprit, and a reply that belongs to another stage changes
/// nothing.
pub open spec fn next_setup_stage(
    stage: SetupStage,
    reply: SetupReply,
    merge_group_head: Seq<char>,
    enqueued: Instant,
    removed: Instant,
) -> SetupNext {
    match (stage, reply) {
        (SetupStage::Settled { .. }, _) | (SetupStage::Failed { .. }, _) => stage@,
        (_, SetupReply::Unreadable(error)) => SetupNext::Failed { error: error@ },
        (SetupStage::Runs, SetupReply::Document(document)) => match blamed_run(
            document@,
            merge_group_head,
            enqueued,
            removed,
        ) {
            Ok(Some(run_id)) => SetupNext::Checks { run_id },
            Ok(None) => SetupNext::Settled { found: None },
            Err(error) => SetupNext::Failed { error },
        },
        (SetupStage::Checks { run_id }, SetupReply::Selected(selected)) => match selected {
            Some(checks) => if checks_blame(checks@, run_id) {
                SetupNext::Jobs { run_id }
            } else {
                SetupNext::Settled { found: None }
            },
            None => SetupNext::Settled { found: None },
        },
        (SetupStage::Jobs { run_id }, SetupReply::Document(document)) => match blamed_job(
            document@,
        ) {
            Ok(Some(job_id)) => SetupNext::Log { run_id, job_id },
            Ok(None) => SetupNext::Settled { found: None },
            Err(error) => SetupNext::Failed { error },
        },
        (SetupStage::Log { run_id, job_id }, SetupReply::Log(log)) => SetupNext::Settled {
            found: if internal_dns_failure(log@) {
                Some((run_id, job_id))
            } else {
                None
            },
        },
        _ => stage@,
    }
}

/// Reads one more link of the evidence that a hosted setup failed: the runs of
/// the merge group, its required checks, the jobs of the blamed run, and the log
/// of the blamed job.
pub fn hosted_setup_failure(
    stage: SetupStage,
    reply: SetupReply,
    merge_group_head: &str,
    enqueued: Instant,
    removed: Instant,
) -> (r: SetupStage)
    ensures
        r@ == next_setup_stage(stage, reply, merge_group_head@, enqueued, removed),
{
    match (stage, reply) {
        (SetupStage::Settled { found }, _) => SetupStage::Settled { found },
        (SetupStage::Failed { error }, _) => SetupStage::Failed { error },
        (_, SetupReply::Unreadable(error)) => SetupStage::Failed { error },
        (SetupStage::Runs, SetupReply::Document(document)) => match sole_failed_group_run(
            &document,
            merge_group_head,
            enqueued,
            removed,
        ) {
            Ok(Some(run_id)) => SetupStage::Checks { run_id },
            Ok(None) => SetupStage::Settled { found: None },
            Err(error) => SetupStage::Failed { error },
        },
        (SetupStage::Checks { run_id }, SetupReply::Selected(selected)) => match selected {
            Some(checks) => if required_checks_blame_run(&checks, run_id) {
                SetupStage::Jobs { run_id }
            } else {
                SetupStage::Settled { found: None }
            },
            None => SetupStage::Settled { found: None },
        },
        (SetupStage::Jobs { run_id }, SetupReply::Document(document)) => match sole_failed_setup_job(
            &document,
        ) {
            Ok(Some(job_id)) => SetupStage::Log { run_id, job_id },
            Ok(None) => SetupStage::Settled { found: None },
            Err(error) => SetupStage::Failed { error },
        },
        (SetupStage::Log { run_id, job_id }, SetupReply::Log(log)) => SetupStage::Settled {
            found: if provider_internal_dns_failure(log.as_str()) {
                Some((run_id, job_id))
            } else {
                None
            },
        },
        (stage, _) => stage,
    }
}

/// A culprit is named only after a log that shows the provider's failure, and it
/// is the run and the job that the earlier links blamed.
pub proof fn culprit_needs_its_log(
    stage: SetupStage,
    reply: SetupReply,
    merge_group_head: Seq<char>,
    enqueued: Instant,
    removed: Instant,
    run_id: u64,
    job_id: u64,
)
    requires
        !(stage is Settled),
        next_setup_stage(stage, reply, merge_group_head, enqueued, removed) == (
        SetupNext::Settled { found: Some((run_id, job_id)) }),
    ensures
        stage == (SetupStage::Log { run_id, job_id }),
        reply is Log && internal_dns_failure(reply->Log_0@),
{
}

/// The query for the final state of a pull request, its base and the queue.
pub const FINAL_AUTHORITY_QUERY: &'static str = "query=query finalRecoveryAuthority($owner:String!,$name:String!,$number:Int!,$branch:String!,$qualifiedBase:String!){repository(owner:$owner,name:$name){ref(qualifiedName:$qualifiedBase){target{oid}} pullRequest(number:$number){state baseRefName headRefOid} mergeQueue(branch:$branch){entries(first:100){nodes{pullRequest{number}} pageInfo{hasNextPage}}}}}";

/// The query for the queue events of a pull request.
pub const REMOVAL_QUERY: &'static str = "query=query($owner:String!,$name:String!,$number:Int!){repository(owner:$owner,name:$name){pullRequest(number:$number){timelineItems(last:100,itemTypes:[REMOVED_FROM_MERGE_QUEUE_EVENT,ADDED_TO_MERGE_QUEUE_EVENT]){nodes{__typename ... on RemovedFromMergeQueueEvent{createdAt reason} ... on AddedToMergeQueueEvent{createdAt}} pageInfo{hasPreviousPage}}}}}";

/// Why a repository's name was refused.
pub open spec fn invalid_slug(repo: Seq<char>) -> Seq<char> {
    "invalid repository slug `"@ + repo + "`"@
}

/// The arguments of the query for the final state.
pub open spec fn final_authority_arguments(repo: Seq<char>, number: u64, base: Seq<char>) -> Result<
    Seq<Seq<char>>,
    Seq<char>,
> {
    match cut(repo, '/') {
        Some((owner, name)) => Ok(
            seq![
                "api"@,
                "graphql"@,
                "-f"@,
                FINAL_AUTHORITY_QUERY@,
                "-F"@,
                "owner="@ + owner,
                "-F"@,
                "name="@ + name,
                "-F"@,
                "number="@ + decimal(number as nat),
                "-F"@,
                "branch="@ + base,
                "-F"@,
                "qualifiedBase=refs/heads/"@ + base,
            ],
        ),
        None => Err(invalid_slug(repo)),
    }
}

/// The arguments of the query for the final state.
pub fn final_authority_args(repo: &str, number: u64, base: &str) -> (r: Result<
    Vec<String>,
    String,
>)
    ensures
        args_view(r) == final_authority_arguments(repo@, number, base@),
{
    match split_once(repo, '/') {
        Some((owner, name)) => {
            let r = vec![
                "api".to_owned(),
                "graphql".to_owned(),
                "-f".to_owned(),
                FINAL_AUTHORITY_QUERY.to_owned(),
                "-F".to_owned(),
                concat("owner=", owner.as_str()),
                "-F".to_owned(),
                concat("name=", name.as_str()),
                "-F".to_owned(),
                concat("number=", to_decimal(number).as_str()),
                "-F".to_owned(),
                concat("branch=", base),
                "-F".to_owned(),
                concat("qualifiedBase=refs/heads/", base),
            ];
            proof {
                assert(views(r@) =~= final_authority_arguments(repo@, number, base@)->Ok_0);
            }
            Ok(r)
        },
        None => Err(concat3("invalid repository slug `", repo, "`")),
    }
}

/// The arguments of the query for a pull request's queue events.
pub open spec fn removal_arguments(repo: Seq<char>, number: u64) -> Result<
    Seq<Seq<char>>,
    Seq<char>,
> {
    match cut(repo, '/') {
        Some((owner, name)) => Ok(
            seq![
                "api"@,
                "graphql"@,
                "-f"@,
                REMOVAL_QUERY@,
                "-F"@,
                "owner="@ + owner,
                "-F"@,
                "name="@ + name,
                "-F"@,
                "number="@ + decimal(number as nat),
            ],
        ),
        None => Err(invalid_slug(repo)),
    }
}

/// The arguments of the query for a pull request's queue events.
pub fn removal_args(repo: &str, number: u64) -> (r: Result<Vec<String>, String>)
    ensures
        args_view(r) == removal_arguments(repo@, number),
{
    match split_once(repo, '/') {
        Some((owner, name)) => {
            let r = vec![
                "api".to_owned(),
                "graphql".to_owned(),
                "-f".to_owned(),
                REMOVAL_QUERY.to_owned(),
                "-F".to_owned(),
                concat("owner=", owner.as_str()),
                "-F".to_owned(),
                concat("name=", name.as_str()),
                "-F".to_owned(),
                concat("number=", to_decimal(number).as_str()),
            ];
            proof {
                assert(views(r@) =~= removal_arguments(repo@, number)->Ok_0);
            }
            Ok(r)
        },
        None => Err(concat3("invalid repository slug `", repo, "`")),
    }
}

/// Whether some entry of the queue is the given pull request.
pub open spec fn queued_in(entries: Seq<JsonTree>, number: u64) -> bool {
    exists|i: int|
        0 <= i < entries.len() && number_in(
            (#[trigger] entries[i]).field("pullRequest"@),
            "number"@,
        ) == Some(number)
}

fn is_queued_in(entries: &Vec<Json>, number: u64) -> (r: bool)
    ensures
        r == queued_in(trees(entries@), number),
{
    let ghost all = trees(entries@);
    let mut i: usize = 0;
    while i < entries.len()
        invariant
            i <= entries.len(),
            all == trees(entries@),
            forall|k: int|
                0 <= k < i ==> number_in((#[trigger] all[k]).field("pullRequest"@), "number"@)
                    != Some(number),
        decreases entries.len() - i,
    {
        proof {
            assert(all[i as int] == entries@[i as int]@);
        }
        if let Some(pr) = entries[i].get("pullRequest") {
            if pr.u64_field("number") == Some(number) {
                return true;
            }
        }
        i = i + 1;
    }
    false
}

/// Whether the final state still authorises putting a pull request back: it is
/// open, on the same base and head, the base has not moved, and it is not in the
/// queue. A response that does not show the whole queue is an error.
pub open spec fn final_authority(
    response: JsonTree,
    base: Seq<char>,
    number: u64,
    head_sha: Seq<char>,
    base_sha: Seq<char>,
) -> Result<bool, Seq<char>> {
    match response.at(seq!["data"@, "repository"@]) {
        None => Err("final queue-recovery authority missing repository"@),
        Some(repository) => {
            let entries = repository.at(seq!["mergeQueue"@, "entries"@]);
            let page = match entries {
                Some(e) => e.field("pageInfo"@),
                None => None,
            };
            let pr = repository.field("pullRequest"@);
            if boolean_in(page, "hasNextPage"@) != Some(false) {
                Err("final queue-recovery authority has a partial queue snapshot"@)
            } else {
                match items_in(entries, "nodes"@) {
                    None => Err("final queue-recovery authority missing merge queue entries"@),
                    Some(nodes) => Ok(
                        text_in(pr, "state"@) == Some("OPEN"@) && text_in(pr, "baseRefName"@)
                            == Some(base) && (text_in(pr, "headRefOid"@) matches Some(head)
                            && same_ignoring_case(head, head_sha)) && (text_in(
                            repository.at(seq!["ref"@, "target"@]),
                            "oid"@,
                        ) matches Some(oid) && same_ignoring_case(oid, base_sha)) && !queued_in(
                            nodes,
                            number,
                        ),
                    ),
                }
            }
        },
    }
}

fn text_of<'a>(o: Option<&'a Json>, key: &str) -> (r: Option<&'a String>)
    ensures
        opt_ref_view(r) == text_in(opt_tree(o), key@),
{
    match o {
        Some(j) => j.text_field(key),
        None => None,
    }
}

fn text_matches(o: Option<&String>, expected: &str) -> (r: bool)
    ensures
        r == (o is Some && same_ignoring_case(o->0@, expected@)),
{
    match o {
        Some(s) => eq_ignore_case(s.as_str(), expected),
        None => false,
    }
}

/// Whether the required checks are still the observed ones and the last look permits a
/// recovery.
pub open spec fn mutable_authority(
    observed_required: Seq<RequiredCheck>,
    current_required: Seq<RequiredCheck>,
    response: JsonTree,
    base: Seq<char>,
    number: u64,
    head_sha: Seq<char>,
    base_sha: Seq<char>,
) -> Result<bool, Seq<char>> {
    if check_identities(current_required) != check_identities(observed_required) {
        Ok(false)
    } else {
        final_authority(response, base, number, head_sha, base_sha)
    }
}

/// Whether the required checks are unchanged and the final state still
/// authorises putting the pull request back.
pub fn final_mutable_authority_matches(
    observed_required: &Vec<RequiredCheck>,
    current_required: &Vec<RequiredCheck>,
    response: &Json,
    base: &str,
    number: u64,
    head_sha: &str,
    evidence: &QueueRecoveryEvidence,
) -> (r: Result<bool, String>)
    ensures
        result_view(r) == mutable_authority(
            observed_required@,
            current_required@,
            response@,
            base@,
            number,
            head_sha@,
            evidence.base_sha@,
        ),
{
    if !same_required_checks(current_required, observed_required) {
        return Ok(false);
    }
    let repository = match response.get2("data", "repository") {
        Some(repository) => repository,
        None => return Err("final queue-recovery authority missing repository".to_owned()),
    };
    let entries = repository.get2("mergeQueue", "entries");
    let page = match entries {
        Some(entries) => entries.get("pageInfo"),
        None => None,
    };
    let more = match page {
        Some(page) => page.bool_field("hasNextPage"),
        None => None,
    };
    if more != Some(false) {
        return Err("final queue-recovery authority has a partial queue snapshot".to_owned());
    }
    let nodes = match entries {
        Some(entries) => entries.array_field("nodes"),
        None => None,
    };
    let nodes = match nodes {
        Some(nodes) => nodes,
        None => {
            return Err("final queue-recovery authority missing merge queue entries".to_owned());
        },
    };
    let pr = repository.get("pullRequest");
    Ok(
        opt_is(text_of(pr, "state"), "OPEN") && opt_is(text_of(pr, "baseRefName"), base)
            && text_matches(text_of(pr, "headRefOid"), head_sha) && text_matches(
            text_of(repository.get2("ref", "target"), "oid"),
            evidence.base_sha.as_str(),
        ) && !is_queued_in(nodes, number),
    )
}

proof fn nothing_is_kept<T>(s: Seq<T>, p: spec_fn(T) -> bool)
    requires
        forall|k: int| 0 <= k < s.len() ==> !p(#[trigger] s[k]),
    ensures
        s.filter(p).len() == 0,
    decreases s.len(),
{
    reveal(Seq::filter);
    if s.len() > 0 {
        let before = s.drop_last();
        assert forall|k: int| 0 <= k < before.len() implies !p(#[trigger] before[k]) by {
            assert(before[k] == s[k]);
        }
        nothing_is_kept(before, p);
        assert(!p(s[s.len() - 1]));
    }
}

proof fn something_is_kept<T>(s: Seq<T>, p: spec_fn(T) -> bool, i: int)
    requires
        0 <= i < s.len(),
        p(s[i]),
    ensures
        s.filter(p).len() >= 1,
{
    broadcast use vstd::seq_lib::group_filter_ensures;

    assert(s.filter(p).contains(s[i]));
}

/// The one of its kind is found wherever it is.
pub proof fn the_only_one_is_found<T>(s: Seq<T>, p: spec_fn(T) -> bool, i: int)
    requires
        0 <= i < s.len(),
        p(s[i]),
        forall|k: int| 0 <= k < s.len() && k != i ==> !p(#[trigger] s[k]),
    ensures
        sole(s, p) == Some(s[i]),
    decreases s.len(),
{
    reveal(Seq::filter);
    let before = s.drop_last();
    if i == s.len() - 1 {
        assert forall|k: int| 0 <= k < before.len() implies !p(#[trigger] before[k]) by {
            assert(before[k] == s[k]);
        }
        nothing_is_kept(before, p);
        assert(s.filter(p) =~= seq![s[i]]);
    } else {
        assert(!p(s[s.len() - 1]));
        assert(before[i] == s[i]);
        assert forall|k: int| 0 <= k < before.len() && k != i implies !p(#[trigger] before[k]) by {
            assert(before[k] == s[k]);
        }
        the_only_one_is_found(before, p, i);
        assert(s.filter(p) =~= before.filter(p));
    }
}

/// None is found where there are two of a kind.
pub proof fn of_two_none_is_found<T>(s: Seq<T>, p: spec_fn(T) -> bool, i: int, j: int)
    requires
        0 <= i < j < s.len(),
        p(s[i]),
        p(s[j]),
    ensures
        sole(s, p) is None,
        s.filter(p).len() >= 2,
    decreases s.len(),
{
    reveal(Seq::filter);
    let before = s.drop_last();
    assert(before[i] == s[i]);
    if j < s.len() - 1 {
        assert(before[j] == s[j]);
        of_two_none_is_found(before, p, i, j);
    } else {
        something_is_kept(before, p, i);
    }
}

/// None is found where there is none of the kind.
pub proof fn of_none_none_is_found<T>(s: Seq<T>, p: spec_fn(T) -> bool)
    requires
        forall|k: int| 0 <= k < s.len() ==> !p(#[trigger] s[k]),
    ensures
        sole(s, p) is None,
{
    nothing_is_kept(s, p);
}

/// How many looks are left until a failed setup is shown or ruled out.
pub open spec fn looks_left(stage: SetupNext) -> nat {
    match stage {
        SetupNext::Runs => 4,
        SetupNext::Checks { .. } => 3,
        SetupNext::Jobs { .. } => 2,
        SetupNext::Log { .. } => 1,
        _ => 0,
    }
}

/// Whether a reply is to what a step asks.
pub open spec fn answers_look(stage: SetupStage, reply: SetupReply) -> bool {
    match reply {
        SetupReply::Document(_) => stage is Runs || stage is Jobs,
        SetupReply::Selected(_) => stage is Checks,
        SetupReply::Log(_) => stage is Log,
        SetupReply::Unreadable(_) => looks_left(stage@) > 0,
    }
}

/// Each answer leads one look on or ends the search. A reply that cannot be read ends it
/// with its error; a search that ends with a culprit names the run and the job that it
/// had come to, and ends so exactly where the log shows the provider's own failure.
pub proof fn a_failed_setup_is_followed_to_its_log(
    stage: SetupStage,
    reply: SetupReply,
    merge_group_head: Seq<char>,
    enqueued: Instant,
    removed: Instant,
)
    requires
        answers_look(stage, reply),
    ensures
        ({
            let next = next_setup_stage(stage, reply, merge_group_head, enqueued, removed);
            &&& next is Settled || next is Failed || looks_left(next) + 1 == looks_left(stage@)
            &&& reply matches SetupReply::Unreadable(error) ==> next == (SetupNext::Failed {
                error: error@,
            })
            &&& next is Failed ==> reply is Unreadable || reply is Document
            &&& next matches SetupNext::Settled { found } ==> (found is Some <==> stage is Log && (
            reply matches SetupReply::Log(log) && internal_dns_failure(log@)))
            &&& stage matches SetupStage::Log { run_id, job_id } ==> (next matches SetupNext::Settled {
                found: Some(culprit),
            } ==> culprit == (run_id, job_id))
            &&& stage matches SetupStage::Checks { run_id } ==> (next is Jobs <==> (reply
                matches SetupReply::Selected(Some(checks)) && checks_blame(checks@, run_id)))
            &&& stage matches SetupStage::Checks { run_id } ==> (next matches SetupNext::Jobs {
                run_id: kept,
            } ==> kept == run_id)
            &&& stage matches SetupStage::Jobs { run_id } ==> (next matches SetupNext::Log {
                run_id: kept,
                ..
            } ==> kept == run_id)
        }),
{
}

/// A run is blamed exactly where it is the only failed run of the merge group in a list
/// that is whole.
pub proof fn the_only_failed_run_is_blamed(
    response: JsonTree,
    merge_group_head: Seq<char>,
    enqueued: Instant,
    removed: Instant,
    rows: Seq<JsonTree>,
    i: int,
)
    requires
        response.items_at("workflow_runs"@) == Some(rows),
        rows.len() < 100,
        0 <= i < rows.len(),
        failed_group_run(rows[i], merge_group_head, enqueued, removed),
    ensures
        (forall|k: int|
            0 <= k < rows.len() && k != i ==> !failed_group_run(
                #[trigger] rows[k],
                merge_group_head,
                enqueued,
                removed,
            )) ==> blamed_run(response, merge_group_head, enqueued, removed) == Ok::<
            Option<u64>,
            Seq<char>,
        >(rows[i].number_at("id"@)),
        (exists|k: int|
            0 <= k < rows.len() && k != i && failed_group_run(
                #[trigger] rows[k],
                merge_group_head,
                enqueued,
                removed,
            )) ==> blamed_run(response, merge_group_head, enqueued, removed) == Ok::<
            Option<u64>,
            Seq<char>,
        >(None),
{
    let p = |run: JsonTree| failed_group_run(run, merge_group_head, enqueued, removed);
    assert(p(rows[i]));
    if forall|k: int|
        0 <= k < rows.len() && k != i ==> !failed_group_run(
            #[trigger] rows[k],
            merge_group_head,
            enqueued,
            removed,
        ) {
        assert forall|k: int| 0 <= k < rows.len() && k != i implies !p(#[trigger] rows[k]) by {}
        the_only_one_is_found(rows, p, i);
    } else {
        let k = choose|k: int|
            0 <= k < rows.len() && k != i && failed_group_run(
                #[trigger] rows[k],
                merge_group_head,
                enqueued,
                removed,
            );
        assert(p(rows[k]));
        if k < i {
            of_two_none_is_found(rows, p, k, i);
        } else {
            of_two_none_is_found(rows, p, i, k);
        }
    }
}

/// A list that may be cut off is refused.
pub proof fn full_lists_are_refused(
    response: JsonTree,
    merge_group_head: Seq<char>,
    enqueued: Instant,
    removed: Instant,
    rows: Seq<JsonTree>,
)
    requires
        rows.len() == 100,
    ensures
        response.items_at("workflow_runs"@) == Some(rows) ==> blamed_run(
            response,
            merge_group_head,
            enqueued,
            removed,
        ) is Err,
        response.items_at("jobs"@) == Some(rows) ==> blamed_job(response) is Err,
{
}

/// A job is blamed exactly where it is the only failed job of a run whose other jobs all
/// came to a settled end, and it is a setup of one of the provider's own machines.
pub proof fn the_only_failed_setup_is_blamed(jobs: Seq<JsonTree>, i: int)
    requires
        0 <= i < jobs.len(),
        failed_job(jobs[i]),
        forall|k: int| 0 <= k < jobs.len() && k != i ==> !failed_job(#[trigger] jobs[k]),
    ensures
        sole_failed_setup(jobs) == if hosted_setup_job(jobs[i]) && (forall|k: int|
            0 <= k < jobs.len() ==> (#[trigger] jobs[k]).text_at("conclusion"@) is Some
                && settled_conclusion(jobs[k].text_at("conclusion"@)->0)) {
            jobs[i].number_at("id"@)
        } else {
            None
        },
{
    let p = |job: JsonTree| failed_job(job);
    assert(p(jobs[i]));
    assert forall|k: int| 0 <= k < jobs.len() && k != i implies !p(#[trigger] jobs[k]) by {}
    the_only_one_is_found(jobs, p, i);
}

/// Two failed jobs blame none.
pub proof fn two_failed_jobs_blame_none(jobs: Seq<JsonTree>, i: int, j: int)
    requires
        0 <= i < j < jobs.len(),
        failed_job(jobs[i]),
        failed_job(jobs[j]),
    ensures
        sole_failed_setup(jobs) is None,
{
    of_two_none_is_found(jobs, |job: JsonTree| failed_job(job), i, j);
}

/// The checks blame a run exactly where all of them are completed with a settled
/// conclusion and the only failed one is the provider's check of that run.
pub proof fn the_only_failed_check_blames_its_run(
    selected: Seq<StewardCheck>,
    run_id: u64,
    i: int,
)
    requires
        0 <= i < selected.len(),
        failed_check(selected[i]),
        forall|k: int| 0 <= k < selected.len() && k != i ==> !failed_check(#[trigger] selected[k]),
        forall|k: int|
            0 <= k < selected.len() ==> same_ignoring_case(
                (#[trigger] selected[k]).status@,
                "completed"@,
            ) && concluded(selected[k]),
    ensures
        checks_blame(selected, run_id) <==> selected[i].source == StewardCheckSource::CheckRun
            && selected[i].app_id == Some(15_368u64) && selected[i].run_id == Some(run_id),
{
    let p = |c: StewardCheck| failed_check(c);
    assert(p(selected[i]));
    assert forall|k: int| 0 <= k < selected.len() && k != i implies !p(#[trigger] selected[k]) by {}
    the_only_one_is_found(selected, p, i);
}

/// A check that is not completed with a settled conclusion blames no run.
pub proof fn unsettled_checks_blame_none(selected: Seq<StewardCheck>, run_id: u64, i: int)
    requires
        0 <= i < selected.len(),
        !same_ignoring_case(selected[i].status@, "completed"@) || !concluded(selected[i]),
    ensures
        !checks_blame(selected, run_id),
{
}

/// The conclusions after which a check or a job is settled.
pub open spec fn settled_conclusions() -> Seq<Seq<char>> {
    seq!["success"@, "neutral"@, "skipped"@, "failure"@]
}

/// The labels of the provider's own machines.
pub open spec fn hosted_labels() -> Seq<Seq<char>> {
    seq![
        "ubuntu-latest"@,
        "windows-latest"@,
        "macos-latest"@,
        "macos-13"@,
        "macos-14"@,
        "macos-15"@,
    ]
}

/// What the log of a failed setup of the provider's own says.
pub open spec fn dns_failure_texts() -> Seq<Seq<char>> {
    seq![
        "internal-api.service."@,
        ".github.net"@,
        "Name or service not known"@,
        "Failed to download archive"@,
        "after 3 attempts"@,
    ]
}

/// Conclusions, labels and logs are told apart by exactly the listed texts.
pub proof fn exactly_the_listed_texts_count(text: Seq<char>)
    ensures
        settled_conclusion(text) <==> settled_conclusions().contains(text),
        hosted_label(text) <==> hosted_labels().contains(text),
        internal_dns_failure(text) <==> (forall|i: int|
            0 <= i < dns_failure_texts().len() ==> has_infix(
                text,
                #[trigger] dns_failure_texts()[i],
            )),
{
    let c = settled_conclusions();
    assert(c[0] == "success"@ && c[1] == "neutral"@ && c[2] == "skipped"@ && c[3] == "failure"@);
    let h = hosted_labels();
    assert(h[0] == "ubuntu-latest"@ && h[1] == "windows-latest"@ && h[2] == "macos-latest"@ && h[3]
        == "macos-13"@ && h[4] == "macos-14"@ && h[5] == "macos-15"@);
    let d = dns_failure_texts();
    assert(d[0] == "internal-api.service."@ && d[1] == ".github.net"@ && d[2]
        == "Name or service not known"@ && d[3] == "Failed to download archive"@ && d[4]
        == "after 3 attempts"@);
}

/// A removal is fresh from its moment on and for two hours, not before and not after.
pub proof fn a_removal_is_fresh_for_two_hours(removed: Instant, now: Instant)
    ensures
        fresh_removal(removed, removed),
        fresh_removal(removed, now) <==> !now.precedes(removed) && now.since(removed) <= 2 * 60 * 60
            * 1_000_000_000,
{
}

/// A removal is shown exactly where the last event took the pull request out for failed
/// checks, right after the one that admitted it when the witness says, it was witnessed
/// in between, and the removal is fresh.
pub proof fn a_removal_is_shown_by_the_last_two_events(
    events: Seq<JsonTree>,
    enqueued_at: Seq<char>,
    observed_at: Seq<char>,
    now: Instant,
)
    ensures
        removal_shown(events, enqueued_at, observed_at, now) matches Some(shown) ==> {
            &&& events.len() >= 2
            &&& failed_checks_event(events[events.len() - 1])
            &&& admission_event(events[events.len() - 2], enqueued_at)
            &&& events[events.len() - 1].text_at("createdAt"@) == Some(shown.0)
            &&& instant_of(shown.0) == Some(shown.1)
            &&& instant_of(enqueued_at) == Some(shown.2)
            &&& instant_of(observed_at) matches Some(observed) && !observed.precedes(shown.2)
                && !shown.1.precedes(observed)
            &&& fresh_removal(shown.1, now)
        },
        events.len() >= 2 && failed_checks_event(events[events.len() - 1]) && admission_event(
            events[events.len() - 2],
            enqueued_at,
        ) && (events[events.len() - 1].text_at("createdAt"@) matches Some(at) && (instant_of(at)
            matches Some(removed) && (instant_of(observed_at) matches Some(observed) && (instant_of(
            enqueued_at,
        ) matches Some(enqueued) && !observed.precedes(enqueued) && !removed.precedes(observed)
            && fresh_removal(removed, now))))) ==> removal_shown(
            events,
            enqueued_at,
            observed_at,
            now,
        ) is Some,
{
}

/// A recovery is permitted at the last look only where the required checks are unchanged
/// and the pull request is still open, on its base and head, not queued, and the base has
/// not moved; where the queue cannot be seen whole, the look fails.
pub proof fn a_last_look_permits_only_what_was_seen(
    observed_required: Seq<RequiredCheck>,
    current_required: Seq<RequiredCheck>,
    response: JsonTree,
    base: Seq<char>,
    number: u64,
    head_sha: Seq<char>,
    base_sha: Seq<char>,
)
    ensures
        ({
            let look = mutable_authority(
                observed_required,
                current_required,
                response,
                base,
                number,
                head_sha,
                base_sha,
            );
            let same = check_identities(current_required) == check_identities(observed_required);
            &&& !same ==> look == Ok::<bool, Seq<char>>(false)
            &&& look == Ok::<bool, Seq<char>>(true) ==> same
            &&& response.at(seq!["data"@, "repository"@]) matches Some(repository) ==> {
                let entries = repository.at(seq!["mergeQueue"@, "entries"@]);
                let pr = repository.field("pullRequest"@);
                let whole = entries is Some && boolean_in(
                    entries->0.field("pageInfo"@),
                    "hasNextPage"@,
                ) == Some(false) && items_in(entries, "nodes"@) is Some;
                &&& same && !whole ==> look is Err
                &&& same && whole ==> (look == Ok::<bool, Seq<char>>(true) <==> text_in(
                    pr,
                    "state"@,
                ) == Some("OPEN"@) && text_in(pr, "baseRefName"@) == Some(base) && (text_in(
                    pr,
                    "headRefOid"@,
                ) matches Some(head) && same_ignoring_case(head, head_sha)) && (text_in(
                    repository.at(seq!["ref"@, "target"@]),
                    "oid"@,
                ) matches Some(oid) && same_ignoring_case(oid, base_sha)) && (forall|i: int|
                    0 <= i < items_in(entries, "nodes"@)->0.len() ==> number_in(
                        (#[trigger] items_in(entries, "nodes"@)->0[i]).field("pullRequest"@),
                        "number"@,
                    ) != Some(number)))
            }
        }),
{
}

} // verus!
