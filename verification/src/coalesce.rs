//! Cancelling queued runs that a newer head has superseded, and what is read
//! again before a run is cancelled.
use std::collections::BTreeMap;

use vstd::prelude::*;

use crate::capacity::audited_once;
use crate::guard::{definitive_cancel_rejection, ends_with_its_end, rejects_cancellation};
use crate::json::{
    members_of, object, optional_text, text_array, text_or_null, tree, Json, JsonTree,
};
use crate::ledger::{
    attempt_key, attempt_key_text, record_audit, AuditTexts, PendingCancellation, StewardLedger,
};
use crate::model::{
    append_audit_failure, job_views, with_audit_failure, JobView, MutationReport, ObservedPr, RunCancellation, RunCancellationReason, StewardCheck, StewardJob,
    StewardPullRequest, StewardRun,
};
use crate::numbers::lists_set;
use crate::observation::{parse_run, run_of};
use crate::outside::{instant_of, parse_time, Instant};
use crate::pending::run_owner;
use crate::revalidation::{
    authority_excluded_pull_requests, blocked, current_pull_request_heads, excluded_by_labels,
    find_numbered, first_numbered, has_numbered, heads_of, labelled, managed,
    managed_ownership_still_valid, map_views, numbers_where, ownership_holds, pull_request_is_managed,
    pull_request_opted_out, pull_request_provenance_blocked, same_attempt, same_workflow_attempt,
};
use crate::terminal::ShipIdentity;
use crate::text::{
    concat, concat3, copy_opt, decimal, eq_ignore_case, full_sha, has_suffix, is_full_sha, lower,
    opt_view, result_view, same_ignoring_case, str_eq, to_decimal,
};

verus! {

broadcast use vstd::std_specs::btree::group_btree_axioms;

/// How long the front of the queue waits before a run is preempted for it, in
/// seconds.
pub const PREEMPT_AFTER_SECS: i64 = 900;

/// Whether a moment lies long enough in the past for a preemption.
pub open spec fn old_enough(timestamp: Seq<char>, now: Instant) -> bool {
    instant_of(timestamp) matches Some(created) && now.since(created) >= PREEMPT_AFTER_SECS
        * 1_000_000_000
}

/// Whether a moment lies long enough in the past for a preemption. A text that
/// is no time never does.
pub fn timestamp_old_enough(timestamp: &str, now: &Instant) -> (r: bool)
    ensures
        r == old_enough(timestamp@, *now),
{
    match parse_time(timestamp) {
        Some(created) => now.nanos_since(&created) >= 900_000_000_000,
        None => false,
    }
}

/// The pull request of a merge group: `branch_pr` is the one that the branch's
/// name tells.
pub fn merge_group_pr_number(run: &StewardRun, branch_pr: Option<u64>) -> (r: Option<u64>)
    ensures
        r == group_pr(*run, branch_pr),
{
    if str_eq(run.event.as_str(), "merge_group") {
        branch_pr
    } else {
        None
    }
}

/// The pull request of a merge group.
pub open spec fn group_pr(run: StewardRun, branch_pr: Option<u64>) -> Option<u64> {
    if run.event@ == "merge_group"@ {
        branch_pr
    } else {
        None
    }
}

/// The pull request that a run belongs to.
pub open spec fn owner_of(run: StewardRun, branch_pr: Option<u64>) -> Option<u64> {
    run_owner(run.pull_request_number, group_pr(run, branch_pr))
}

fn run_pull_request(run: &StewardRun, branch_pr: Option<u64>) -> (r: Option<u64>)
    ensures
        r == owner_of(*run, branch_pr),
{
    match run.pull_request_number {
        Some(number) => Some(number),
        None => merge_group_pr_number(run, branch_pr),
    }
}

/// Whether a list of checks names a run.
pub open spec fn names_run(checks: Seq<StewardCheck>, run_id: u64) -> bool {
    exists|i: int| 0 <= i < checks.len() && (#[trigger] checks[i]).run_id == Some(run_id)
}

/// How often a run of a pull request was started again.
pub open spec fn attempts_of(
    ledger: StewardLedger,
    repo: Seq<char>,
    pr: StewardPullRequest,
    run_id: u64,
) -> u32 {
    let key = attempt_key_text(repo, pr.number, pr.head_sha@, run_id);
    if ledger.transient_attempts@.dom().contains(key) {
        ledger.transient_attempts@[key]
    } else {
        0
    }
}

/// How often each run that a pull request's checks name was started again.
pub fn attempts_for(ledger: &StewardLedger, repo: &str, pr: &StewardPullRequest) -> (r: BTreeMap<
    u64,
    u32,
>)
    ensures
        forall|id: u64| #[trigger] r@.dom().contains(id) <==> names_run(pr.checks@, id),
        forall|id: u64| #[trigger]
            r@.dom().contains(id) ==> r@[id] == attempts_of(*ledger, repo@, *pr, id),
{
    let mut out: BTreeMap<u64, u32> = BTreeMap::new();
    let mut i: usize = 0;
    while i < pr.checks.len()
        invariant
            i <= pr.checks.len(),
            forall|id: u64| #[trigger]
                out@.dom().contains(id) <==> names_run(pr.checks@.take(i as int), id),
            forall|id: u64| #[trigger]
                out@.dom().contains(id) ==> out@[id] == attempts_of(*ledger, repo@, *pr, id),
        decreases pr.checks.len() - i,
    {
        let ghost before = out@;
        let ghost seen = pr.checks@.take(i as int);
        let ghost more = pr.checks@.take(i + 1);
        match pr.checks[i].run_id {
            Some(run_id) => {
                let key = attempt_key(repo, pr.number, pr.head_sha.as_str(), run_id);
                let count: u32 = match ledger.transient_attempts.get(key.as_str()) {
                    Some(count) => *count,
                    None => 0,
                };
                out.insert(run_id, count);
            },
            None => {},
        }
        proof {
            assert forall|id: u64| #[trigger] out@.dom().contains(id) <==> names_run(more, id) by {
                assert(more[i as int] == pr.checks@[i as int]);
                if names_run(seen, id) {
                    let k = choose|k: int|
                        0 <= k < seen.len() && (#[trigger] seen[k]).run_id == Some(id);
                    assert(more[k] == seen[k]);
                }
                if names_run(more, id) {
                    let k = choose|k: int|
                        0 <= k < more.len() && (#[trigger] more[k]).run_id == Some(id);
                    if k < i {
                        assert(seen[k] == more[k]);
                    }
                }
            }
        }
        i = i + 1;
    }
    proof {
        assert(pr.checks@.take(i as int) =~= pr.checks@);
    }
    out
}

/// The counts of a pull request's reruns as they were before one that is counted
/// but not sent.
pub fn attempts_before_rerun(
    ledger: &StewardLedger,
    repo: &str,
    pr: &StewardPullRequest,
    run_id: u64,
) -> (r: BTreeMap<u64, u32>)
    ensures
        forall|id: u64| #[trigger] r@.dom().contains(id) <==> names_run(pr.checks@, id),
        forall|id: u64| #[trigger]
            r@.dom().contains(id) ==> {
                let count = attempts_of(*ledger, repo@, *pr, id);
                r@[id] == if id == run_id && count > 0 {
                    (count - 1) as u32
                } else {
                    count
                }
            },
{
    let mut out = attempts_for(ledger, repo, pr);
    let count: Option<u32> = match out.get(&run_id) {
        Some(count) => Some(*count),
        None => None,
    };
    match count {
        Some(count) => if count > 0 {
            out.insert(run_id, count - 1);
        },
        None => {},
    }
    out
}

/// Whom a mutation of a pull request speaks for.
pub fn acquire_pr_mutation_guard(repo: &str, base: &str, pr: &ObservedPr) -> (r: ShipIdentity)
    ensures
        r.pr_number == pr.fact.number,
        r.repo@ == repo@,
        r.branch@ == pr.fact.head_branch@,
        r.base@ == base@,
        r.head_sha@ == pr.fact.head_sha@,
        r.writer@ == "runner-steward"@,
{
    ShipIdentity {
        pr_number: pr.fact.number,
        repo: repo.to_owned(),
        branch: pr.fact.head_branch.clone(),
        base: base.to_owned(),
        head_sha: pr.fact.head_sha.clone(),
        writer: "runner-steward".to_owned(),
    }
}

/// Whom a mutation of a run speaks for: its pull request, by the branch of the
/// observed pull request or else the run's own. A run without a pull request is
/// refused.
pub fn acquire_run_mutation_guard(
    repo: &str,
    base: &str,
    prs: &Vec<ObservedPr>,
    run: &StewardRun,
    branch_pr: Option<u64>,
) -> (r: Result<ShipIdentity, String>)
    ensures
        match owner_of(*run, branch_pr) {
            None => r matches Err(e) && e@ == "workflow run "@ + decimal(run.id as nat)
                + " has no pull-request identity; refusing an unaudited mutation"@,
            Some(number) => r matches Ok(state) && state.pr_number == number && state.repo@ == repo@
                && state.base@ == base@ && state.head_sha@ == run.head_sha@ && state.writer@
                == "runner-steward"@ && (if has_numbered(prs@, number) {
                exists|i: int| #[trigger]
                    first_numbered(prs@, number, i) && state.branch@ == prs@[i].fact.head_branch@
            } else {
                state.branch@ == run.head_branch@
            }),
        },
{
    match run_pull_request(run, branch_pr) {
        None => Err(
            concat3(
                "workflow run ",
                to_decimal(run.id).as_str(),
                " has no pull-request identity; refusing an unaudited mutation",
            ),
        ),
        Some(number) => {
            let branch = match find_numbered(prs, number) {
                Some(i) => {
                    proof {
                        assert(first_numbered(prs@, number, i as int));
                    }
                    prs[i].fact.head_branch.clone()
                },
                None => run.head_branch.clone(),
            };
            Ok(
                ShipIdentity {
                    pr_number: number,
                    repo: repo.to_owned(),
                    branch,
                    base: base.to_owned(),
                    head_sha: run.head_sha.clone(),
                    writer: "runner-steward".to_owned(),
                },
            )
        },
    }
}

/// Why a pull request no longer permits a forced cancellation.
pub open spec fn authority_refusal(
    live: Option<ObservedPr>,
    pending: PendingCancellation,
    handed_off: bool,
) -> Option<Seq<char>> {
    match live {
        None => Some("pending cancellation pull request is no longer open on its recorded base"@),
        Some(pr) => if blocked(pr, pending.provenance_blocking_labels@) {
            Some("current pull request has a provenance-blocking label"@)
        } else if labelled(pr.fact.labels@, pending.opt_out_label@) {
            Some("current pull request has the steward opt-out label"@)
        } else if !managed(pr, pending.managed_label@, handed_off) {
            Some("current pull request no longer has exact-head steward management authority"@)
        } else {
            None
        },
    }
}

/// Refuses a forced cancellation whose pull request no longer permits it.
pub fn revalidate_pending_pr_authority(
    live: Option<&ObservedPr>,
    pending: &PendingCancellation,
    handed_off: bool,
) -> (r: Result<(), String>)
    ensures
        match authority_refusal(
            match live {
                Some(pr) => Some(*pr),
                None => None,
            },
            *pending,
            handed_off,
        ) {
            Some(error) => r matches Err(e) && e@ == error,
            None => r is Ok,
        },
{
    let pr = match live {
        Some(pr) => pr,
        None => return Err(
            "pending cancellation pull request is no longer open on its recorded base".to_owned(),
        ),
    };
    if pull_request_provenance_blocked(pr, &pending.provenance_blocking_labels) {
        return Err("current pull request has a provenance-blocking label".to_owned());
    }
    if pull_request_opted_out(pr, pending.opt_out_label.as_str()) {
        return Err("current pull request has the steward opt-out label".to_owned());
    }
    if !pull_request_is_managed(pr, pending.managed_label.as_str(), handed_off) {
        return Err(
            "current pull request no longer has exact-head steward management authority".to_owned(),
        );
    }
    Ok(())
}

/// The heads of the open pull requests, and the numbers of those that labels put
/// out of bounds.
pub fn live_current_pull_request_state(
    prs: &Vec<ObservedPr>,
    opt_out_label: &str,
    provenance_blocking_labels: &Vec<String>,
) -> (r: (BTreeMap<u64, String>, Vec<u64>))
    ensures
        map_views(r.0@) == heads_of(prs@),
        lists_set(
            r.1@,
            |n: u64|
                numbers_where(
                    prs@,
                    |pr: ObservedPr|
                        excluded_by_labels(pr, opt_out_label@, provenance_blocking_labels@),
                    n,
                ),
        ),
{
    (
        current_pull_request_heads(prs),
        authority_excluded_pull_requests(prs, opt_out_label, provenance_blocking_labels),
    )
}

/// Whether a run is of the merge group at the front of the queue.
pub open spec fn of_front(run: StewardRun, front: Seq<char>) -> bool {
    run.event@ == "merge_group"@ && same_ignoring_case(run.head_sha@, front)
}

/// Whether a run is of the merge group at the front of the queue.
pub fn is_front_run(run: &StewardRun, front: &str) -> (r: bool)
    ensures
        r == of_front(*run, front@),
{
    str_eq(run.event.as_str(), "merge_group") && eq_ignore_case(run.head_sha.as_str(), front)
}

/// The jobs of the runs at the front of the queue, in the order of the runs.
pub open spec fn front_jobs(runs: Seq<StewardRun>, front: Seq<char>) -> Seq<StewardJob>
    decreases runs.len(),
{
    if runs.len() == 0 {
        Seq::empty()
    } else {
        let rest = front_jobs(runs.drop_last(), front);
        if of_front(runs.last(), front) {
            rest + runs.last().jobs@
        } else {
            rest
        }
    }
}

/// The jobs of the runs at the front of the queue, where it waits for the pool.
pub fn live_queue_front_pool_jobs(runs: Vec<StewardRun>, front: &str, waits: bool) -> (r: Option<
    Vec<StewardJob>,
>)
    ensures
        match r {
            None => !waits,
            Some(jobs) => waits && jobs@ == front_jobs(runs@, front@),
        },
{
    if !waits {
        return None;
    }
    let ghost all = runs@;
    let mut rest = runs;
    let mut out: Vec<StewardJob> = Vec::new();
    let ghost mut n: int = 0;
    proof {
        assert(rest@ =~= all.skip(0));
        assert(all.take(0) =~= Seq::<StewardRun>::empty());
    }
    while rest.len() > 0
        invariant
            0 <= n <= all.len(),
            rest@ == all.skip(n),
            out@ == front_jobs(all.take(n), front@),
        decreases rest.len(),
    {
        let run = rest.remove(0);
        proof {
            assert(run == all[n]);
            assert(all.take(n + 1).drop_last() =~= all.take(n));
            assert(rest@ =~= all.skip(n + 1));
        }
        if is_front_run(&run, front) {
            let mut jobs = run.jobs;
            out.append(&mut jobs);
        }
        proof {
            n = n + 1;
        }
    }
    proof {
        assert(all.take(n) =~= all);
    }
    Some(out)
}

/// Whether the front of the queue is still the expected one and has waited long
/// enough; then the moment at which it was queued.
pub fn front_still_waits(
    front: Option<(String, String)>,
    expected_front: &str,
    now: &Instant,
) -> (r: Option<String>)
    ensures
        match front {
            Some((head, enqueued_at)) => if same_ignoring_case(head@, expected_front@)
                && old_enough(enqueued_at@, *now) {
                r == Some(enqueued_at)
            } else {
                r is None
            },
            None => r is None,
        },
{
    match front {
        Some((head, enqueued_at)) => {
            if eq_ignore_case(head.as_str(), expected_front) && timestamp_old_enough(
                enqueued_at.as_str(),
                now,
            ) {
                Some(enqueued_at)
            } else {
                None
            }
        },
        None => None,
    }
}

/// What was read of a run right before it is preempted.
#[derive(Debug)]
pub struct CapacityRevalidation {
    pub candidate: StewardRun,
    pub front_enqueued_at: String,
    pub front_jobs: Vec<StewardJob>,
    pub current_pr_head: Option<String>,
}

/// The run that is to be preempted, as it is now; `None` where it is another
/// attempt.
pub fn live_capacity_run(response: &Json, observed: &StewardRun) -> (r: Result<
    Option<StewardRun>,
    String,
>)
    ensures
        match run_of(response@) {
            None => r matches Err(e) && e@ == "live capacity-preemption run was malformed"@,
            Some(view) => r matches Ok(found) && (match found {
                Some(run) => run@ == view && same_attempt(*observed, run),
                None => forall|run: StewardRun| run@ == view ==> !#[trigger] same_attempt(
                    *observed,
                    run,
                ),
            }),
        },
{
    match parse_run(response) {
        None => Err("live capacity-preemption run was malformed".to_owned()),
        Some(run) => {
            if same_workflow_attempt(observed, &run) {
                Ok(Some(run))
            } else {
                proof {
                    let view = run_of(response@)->Some_0;
                    assert forall|other: StewardRun| other@ == view implies !#[trigger] same_attempt(
                        *observed,
                        other,
                    ) by {
                        assert(other@.head_sha == run@.head_sha);
                        assert(other@.workflow_id == run@.workflow_id);
                        assert(other@.run_attempt == run@.run_attempt);
                    }
                }
                Ok(None)
            }
        },
    }
}

/// The only pull request of a run that is to be preempted.
pub fn capacity_candidate_number(run: &StewardRun) -> (r: Result<u64, String>)
    ensures
        result_view(r) == match run.pull_request_number {
            Some(number) => Ok::<u64, Seq<char>>(number),
            None => Err("capacity-preemption run no longer has a unique PR"@),
        },
{
    match run.pull_request_number {
        Some(number) => Ok(number),
        None => Err("capacity-preemption run no longer has a unique PR".to_owned()),
    }
}

/// Whether a pull request no longer permits that a run of it is cancelled.
pub open spec fn forbids(
    candidate: ObservedPr,
    candidate_handed_off: bool,
    prs: Seq<ObservedPr>,
    handed_off: Seq<u64>,
    opt_out_label: Seq<char>,
    managed_label: Seq<char>,
    blockers: Seq<String>,
) -> bool {
    ||| labelled(candidate.fact.labels@, opt_out_label)
    ||| blocked(candidate, blockers)
    ||| !ownership_holds(prs, handed_off, candidate, candidate_handed_off, managed_label)
}

/// Whether a pull request no longer permits that a run of it is cancelled: it
/// opted out, is blocked, or is no longer the steward's.
pub fn candidate_forbids(
    candidate: &ObservedPr,
    candidate_handed_off: bool,
    prs: &Vec<ObservedPr>,
    handed_off: &Vec<u64>,
    opt_out_label: &str,
    managed_label: &str,
    provenance_blocking_labels: &Vec<String>,
) -> (r: bool)
    ensures
        r == forbids(
            *candidate,
            candidate_handed_off,
            prs@,
            handed_off@,
            opt_out_label@,
            managed_label@,
            provenance_blocking_labels@,
        ),
{
    pull_request_opted_out(candidate, opt_out_label) || pull_request_provenance_blocked(
        candidate,
        provenance_blocking_labels,
    ) || !managed_ownership_still_valid(
        prs,
        handed_off,
        candidate,
        candidate_handed_off,
        managed_label,
    )
}

/// The numbers that are out of bounds for a preemption: those of the listed pull
/// requests, and the candidate's where it forbids.
pub fn capacity_exclusions(listed: Vec<u64>, candidate: u64, forbids: bool) -> (r: Vec<u64>)
    requires
        crate::numbers::increasing(listed@),
    ensures
        crate::numbers::increasing(r@),
        forall|n: u64|
            r@.contains(n) <==> (listed@.contains(n) || (forbids && n == candidate)),
{
    let mut out = listed;
    if forbids {
        crate::numbers::add_number(&mut out, candidate);
    }
    out
}

/// What was read of a run that may be preempted: `safe` says that the rules
/// permit it. The head is that of the run's pull request among the current ones,
/// of which the candidate was read last.
pub fn capacity_revalidation(
    safe: bool,
    live: StewardRun,
    front_enqueued_at: String,
    front_jobs: Vec<StewardJob>,
    listed: &BTreeMap<u64, String>,
    candidate: &ObservedPr,
) -> (r: Option<CapacityRevalidation>)
    ensures
        match r {
            None => !safe,
            Some(found) => {
                &&& safe
                &&& found.candidate == live
                &&& found.front_enqueued_at == front_enqueued_at
                &&& found.front_jobs == front_jobs
                &&& crate::text::opt_view(found.current_pr_head) == match live.pull_request_number {
                    None => None,
                    Some(number) => {
                        let heads = map_views(listed@).insert(
                            candidate.fact.number,
                            candidate.fact.head_sha@,
                        );
                        if heads.dom().contains(number) {
                            Some(heads[number])
                        } else {
                            None
                        }
                    },
                }
            },
        },
{
    if !safe {
        return None;
    }
    let current_pr_head: Option<String> = match live.pull_request_number {
        None => None,
        Some(number) => if number == candidate.fact.number {
            Some(candidate.fact.head_sha.clone())
        } else {
            match listed.get(&number) {
                Some(head) => Some(head.clone()),
                None => None,
            }
        },
    };
    Some(CapacityRevalidation { candidate: live, front_enqueued_at, front_jobs, current_pr_head })
}

/// A job, as a document.
pub open spec fn job_tree(job: JobView) -> JsonTree {
    JsonTree::Object(
        seq![
            ("id"@, JsonTree::Number(Some(job.id))),
            ("name"@, JsonTree::Text(job.name)),
            ("status"@, JsonTree::Text(job.status)),
            ("conclusion"@, text_or_null(job.conclusion)),
            (
                "labels"@,
                JsonTree::Array(Seq::new(job.labels.len(), |i: int| JsonTree::Text(job.labels[i]))),
            ),
            ("runner_name"@, text_or_null(job.runner_name)),
        ],
    )
}

/// Jobs, as a document.
pub open spec fn jobs_tree(jobs: Seq<JobView>) -> JsonTree {
    JsonTree::Array(Seq::new(jobs.len(), |i: int| job_tree(jobs[i])))
}

fn job_document(job: &StewardJob) -> (r: Json)
    ensures
        r@ == job_tree(job@),
{
    let mut members: Vec<(String, Json)> = Vec::new();
    members.push(("id".to_owned(), Json::Number(Some(job.id))));
    members.push(("name".to_owned(), Json::Text(job.name.clone())));
    members.push(("status".to_owned(), Json::Text(job.status.clone())));
    members.push(("conclusion".to_owned(), optional_text(copy_opt(job.conclusion.as_ref()))));
    members.push(("labels".to_owned(), text_array(&job.labels)));
    members.push(("runner_name".to_owned(), optional_text(copy_opt(job.runner_name.as_ref()))));
    proof {
        assert(members_of(members@) =~= job_tree(job@)->Object_0);
    }
    object(members)
}

fn job_documents(jobs: &Vec<StewardJob>) -> (r: Json)
    ensures
        r@ == jobs_tree(job_views(jobs@)),
{
    let mut out: Vec<Json> = Vec::new();
    let mut i: usize = 0;
    while i < jobs.len()
        invariant
            i <= jobs.len(),
            out@.len() == i,
            forall|k: int| 0 <= k < i ==> tree(#[trigger] out@[k]) == job_tree(jobs@[k]@),
        decreases jobs.len() - i,
    {
        out.push(job_document(&jobs[i]));
        i = i + 1;
    }
    let r = Json::Array(out);
    proof {
        assert(r@->Array_0 =~= jobs_tree(job_views(jobs@))->Array_0);
    }
    r
}

/// What a preemption rests on, as it is recorded: the front of the queue and its
/// jobs, and the run that makes room.
pub fn capacity_evidence(front: &str, evidence: &CapacityRevalidation) -> (r: Json)
    ensures
        r@ == JsonTree::Object(
            seq![
                ("front_head"@, JsonTree::Text(front@)),
                ("front_enqueued_at"@, JsonTree::Text(evidence.front_enqueued_at@)),
                ("front_jobs"@, jobs_tree(job_views(evidence.front_jobs@))),
                ("candidate_run"@, JsonTree::Number(Some(evidence.candidate.id))),
                ("candidate_head"@, JsonTree::Text(evidence.candidate.head_sha@)),
                ("candidate_jobs"@, jobs_tree(job_views(evidence.candidate.jobs@))),
                ("current_pr_head"@, text_or_null(opt_view(evidence.current_pr_head))),
            ],
        ),
{
    let mut members: Vec<(String, Json)> = Vec::new();
    members.push(("front_head".to_owned(), Json::Text(front.to_owned())));
    members.push(
        ("front_enqueued_at".to_owned(), Json::Text(evidence.front_enqueued_at.clone())),
    );
    members.push(("front_jobs".to_owned(), job_documents(&evidence.front_jobs)));
    members.push(("candidate_run".to_owned(), Json::Number(Some(evidence.candidate.id))));
    members.push(("candidate_head".to_owned(), Json::Text(evidence.candidate.head_sha.clone())));
    members.push(("candidate_jobs".to_owned(), job_documents(&evidence.candidate.jobs)));
    members.push(
        ("current_pr_head".to_owned(), optional_text(copy_opt(evidence.current_pr_head.as_ref()))),
    );
    let ghost want = seq![
        ("front_head"@, JsonTree::Text(front@)),
        ("front_enqueued_at"@, JsonTree::Text(evidence.front_enqueued_at@)),
        ("front_jobs"@, jobs_tree(job_views(evidence.front_jobs@))),
        ("candidate_run"@, JsonTree::Number(Some(evidence.candidate.id))),
        ("candidate_head"@, JsonTree::Text(evidence.candidate.head_sha@)),
        ("candidate_jobs"@, jobs_tree(job_views(evidence.candidate.jobs@))),
        ("current_pr_head"@, text_or_null(opt_view(evidence.current_pr_head))),
    ];
    proof {
        assert(members_of(members@) =~= want);
    }
    object(members)
}

/// The report of a cancellation that the provider rejected, with the failure of the
/// audit that was to record it.
pub fn rejected_report(message: &str, audit: Option<String>) -> (r: MutationReport)
    ensures
        r.texts() == (
            Some("cancel_rejected"@),
            Some(with_audit_failure(message@, opt_view(audit))),
        ),
{
    MutationReport {
        mutation: Some("cancel_rejected".to_owned()),
        error: Some(append_audit_failure(message, &audit)),
    }
}

/// What a check that a run is still superseded does next.
#[derive(Clone, Copy, Debug, PartialEq, Eq, Structural)]
pub enum CoalesceStage {
    /// Read the pull request with this number.
    Candidate(u64),
    /// Read the queue and the active runs, and plan anew.
    Plan(u64),
    /// Read the run.
    Exact(u64),
}

/// What comes of a check.
#[derive(Clone, Copy, Debug, PartialEq, Eq, Structural)]
pub enum CoalesceStep {
    Next(CoalesceStage),
    /// Whether the run may be cancelled.
    Answer(bool),
}

/// Begins a check that a run is still superseded: `authorizes` says that the
/// reason is one for which queued runs are cancelled.
pub fn revalidate_coalescing_cancellation(
    authorizes: bool,
    observed: &StewardRun,
    branch_pr: Option<u64>,
) -> (r: CoalesceStep)
    ensures
        r == if !authorizes || !full_sha(observed.head_sha@) {
            CoalesceStep::Answer(false)
        } else {
            match owner_of(*observed, branch_pr) {
                Some(number) => CoalesceStep::Next(CoalesceStage::Candidate(number)),
                None => CoalesceStep::Answer(false),
            }
        },
{
    if !authorizes || !is_full_sha(observed.head_sha.as_str()) {
        return CoalesceStep::Answer(false);
    }
    match run_pull_request(observed, branch_pr) {
        Some(number) => CoalesceStep::Next(CoalesceStage::Candidate(number)),
        None => CoalesceStep::Answer(false),
    }
}

/// Goes on once the pull request was read: it must be open, and permit the
/// cancellation.
pub fn coalescing_candidate_read(number: u64, open: bool, forbids: bool) -> (r: CoalesceStep)
    ensures
        r == if open && !forbids {
            CoalesceStep::Next(CoalesceStage::Plan(number))
        } else {
            CoalesceStep::Answer(false)
        },
{
    if open && !forbids {
        CoalesceStep::Next(CoalesceStage::Plan(number))
    } else {
        CoalesceStep::Answer(false)
    }
}

/// Whether a plan holds a cancellation.
pub open spec fn planned(plan: Seq<RunCancellation>, cancellation: RunCancellation) -> bool {
    plan.contains(cancellation)
}

/// Goes on once the cancellations were planned anew: the same one must be among
/// them.
pub fn coalescing_planned(
    number: u64,
    plan: &Vec<RunCancellation>,
    cancellation: &RunCancellation,
) -> (r: CoalesceStep)
    ensures
        r == if planned(plan@, *cancellation) {
            CoalesceStep::Next(CoalesceStage::Exact(number))
        } else {
            CoalesceStep::Answer(false)
        },
{
    let mut i: usize = 0;
    while i < plan.len()
        invariant
            i <= plan.len(),
            forall|k: int| 0 <= k < i ==> plan@[k] != *cancellation,
        decreases plan.len() - i,
    {
        if plan[i].run_id == cancellation.run_id && plan[i].reason == cancellation.reason {
            proof {
                assert(plan@[i as int] == *cancellation);
            }
            return CoalesceStep::Next(CoalesceStage::Exact(number));
        }
        i = i + 1;
    }
    CoalesceStep::Answer(false)
}

/// Whether a run, as it is now, is the observed one and is still queued.
pub open spec fn still_queued(
    exact: StewardRun,
    exact_branch_pr: Option<u64>,
    observed: StewardRun,
    number: u64,
) -> bool {
    &&& same_ignoring_case(exact.status@, "queued"@)
    &&& exact.workflow_id == observed.workflow_id
    &&& exact.run_attempt == observed.run_attempt
    &&& exact.event@ == observed.event@
    &&& same_ignoring_case(exact.head_sha@, observed.head_sha@)
    &&& owner_of(exact, exact_branch_pr) == Some(number)
}

/// Whether a run, as it is now, is the observed one and is still queued. One that
/// cannot be read is not.
pub fn exact_run_still_queued(
    exact: Option<&StewardRun>,
    exact_branch_pr: Option<u64>,
    observed: &StewardRun,
    number: u64,
) -> (r: bool)
    ensures
        r == (exact matches Some(run) && still_queued(*run, exact_branch_pr, *observed, number)),
{
    match exact {
        None => false,
        Some(run) => eq_ignore_case(run.status.as_str(), "queued") && run.workflow_id
            == observed.workflow_id && run.run_attempt == observed.run_attempt && str_eq(
            run.event.as_str(),
            observed.event.as_str(),
        ) && eq_ignore_case(run.head_sha.as_str(), observed.head_sha.as_str())
            && run_pull_request(run, exact_branch_pr) == Some(number),
    }
}

/// Whether the queue must be read to find the head that counts.
pub fn reads_group_head(reason: RunCancellationReason) -> (r: bool)
    ensures
        r == (reason == RunCancellationReason::SupersededMergeGroupHead),
{
    reason == RunCancellationReason::SupersededMergeGroupHead
}

/// Whether a newer head has superseded a run: the pull request's, or that of its
/// merge group where the run is of an older group.
pub open spec fn superseded(
    observed: StewardRun,
    reason: RunCancellationReason,
    candidate: Option<ObservedPr>,
    forbidden: bool,
    group_head: Option<Seq<char>>,
) -> bool {
    &&& candidate is Some
    &&& !forbidden
    &&& match reason {
        RunCancellationReason::SupersededPullRequestHead => !same_ignoring_case(
            candidate->Some_0.fact.head_sha@,
            observed.head_sha@,
        ),
        RunCancellationReason::SupersededMergeGroupHead => group_head matches Some(head)
            && !same_ignoring_case(head, observed.head_sha@),
        _ => false,
    }
}

/// Whether a newer head has superseded a run.
pub fn authoritative_head_still_superseded(
    observed: &StewardRun,
    reason: RunCancellationReason,
    candidate: Option<&ObservedPr>,
    forbidden: bool,
    group_head: Option<&String>,
) -> (r: bool)
    ensures
        r == superseded(
            *observed,
            reason,
            match candidate {
                Some(pr) => Some(*pr),
                None => None,
            },
            forbidden,
            match group_head {
                Some(head) => Some(head@),
                None => None,
            },
        ),
{
    let pr = match candidate {
        Some(pr) => pr,
        None => return false,
    };
    if forbidden {
        return false;
    }
    match reason {
        RunCancellationReason::SupersededPullRequestHead => !eq_ignore_case(
            pr.fact.head_sha.as_str(),
            observed.head_sha.as_str(),
        ),
        RunCancellationReason::SupersededMergeGroupHead => match group_head {
            Some(head) => !eq_ignore_case(head.as_str(), observed.head_sha.as_str()),
            None => false,
        },
        _ => false,
    }
}

/// What a cancellation of a superseded run does next.
#[derive(Clone, Copy, Debug, PartialEq, Eq, Structural)]
pub enum CancelStage {
    /// Check that the run is still superseded.
    Revalidate,
    /// Take the guard.
    Acquire,
    /// Check again.
    FinalRevalidate,
    /// Check the head that counts.
    FinalAuthority,
    /// Check the run itself.
    FinalExact,
    /// Send the cancellation.
    Send,
    /// Finish the guard of the accepted cancellation.
    FinishAccepted,
}

/// What came of a step.
#[derive(Debug)]
pub enum CancelReply {
    Done,
    Failed(String),
    /// Whether the check holds.
    Holds(bool),
}

/// What comes of a step.
#[derive(Debug)]
pub enum CancelStep {
    Next(CancelStage),
    /// The guard is finished with an outcome, and the outcome is reported.
    Skip(&'static str),
    /// The guard is finished with an outcome, and the error is reported.
    Fail { outcome: &'static str, error: String },
    /// The guard is finished as rejected, and the refusal is reported.
    Rejected(String),
    Report(MutationReport),
}

/// What comes of a step, in texts.
pub enum CancelStepView {
    Next(CancelStage),
    Skip(Seq<char>),
    Fail { outcome: Seq<char>, error: Seq<char> },
    Rejected(Seq<char>),
    Report((Option<Seq<char>>, Option<Seq<char>>)),
}

impl View for CancelStep {
    type V = CancelStepView;

    open spec fn view(&self) -> CancelStepView {
        match *self {
            CancelStep::Next(stage) => CancelStepView::Next(stage),
            CancelStep::Skip(outcome) => CancelStepView::Skip(outcome@),
            CancelStep::Fail { outcome, error } => CancelStepView::Fail {
                outcome: outcome@,
                error: error@,
            },
            CancelStep::Rejected(error) => CancelStepView::Rejected(error@),
            CancelStep::Report(report) => CancelStepView::Report(report.texts()),
        }
    }
}

/// What a cancellation of a superseded run does after a reply. A reply that
/// belongs to another stage changes nothing.
pub open spec fn cancel_flow(
    stage: CancelStage,
    reply: CancelReply,
    run_id: u64,
    owned: bool,
) -> CancelStepView {
    match (stage, reply) {
        (CancelStage::Revalidate, CancelReply::Holds(true)) => CancelStepView::Next(
            CancelStage::Acquire,
        ),
        (CancelStage::Revalidate, CancelReply::Holds(false)) => CancelStepView::Report(
            (Some("skipped_after_live_revalidation"@), None),
        ),
        (CancelStage::Revalidate, CancelReply::Failed(e)) | (
            CancelStage::Acquire,
            CancelReply::Failed(e),
        ) => CancelStepView::Report((None, Some(e@))),
        (CancelStage::Acquire, CancelReply::Done) => CancelStepView::Next(
            CancelStage::FinalRevalidate,
        ),
        (CancelStage::FinalRevalidate, CancelReply::Holds(true)) => CancelStepView::Next(
            CancelStage::FinalAuthority,
        ),
        (CancelStage::FinalRevalidate, CancelReply::Holds(false)) => CancelStepView::Skip(
            "skipped_after_final_live_revalidation"@,
        ),
        (CancelStage::FinalRevalidate, CancelReply::Failed(e)) => CancelStepView::Fail {
            outcome: "final_revalidation_failed"@,
            error: e@,
        },
        (CancelStage::FinalAuthority, CancelReply::Holds(true)) => if owned {
            CancelStepView::Next(CancelStage::FinalExact)
        } else {
            CancelStepView::Fail {
                outcome: "final_run_identity_missing"@,
                error: "workflow run "@ + decimal(run_id as nat) + " lost pull-request identity"@,
            }
        },
        (CancelStage::FinalAuthority, CancelReply::Holds(false)) => CancelStepView::Skip(
            "skipped_after_final_authority_check"@,
        ),
        (CancelStage::FinalAuthority, CancelReply::Failed(e)) => CancelStepView::Fail {
            outcome: "final_authority_check_failed"@,
            error: e@,
        },
        (CancelStage::FinalExact, CancelReply::Holds(true)) => CancelStepView::Next(
            CancelStage::Send,
        ),
        (CancelStage::FinalExact, CancelReply::Holds(false)) => CancelStepView::Skip(
            "skipped_after_final_exact_run_check"@,
        ),
        (CancelStage::FinalExact, CancelReply::Failed(e)) => CancelStepView::Fail {
            outcome: "final_exact_run_check_failed"@,
            error: e@,
        },
        (CancelStage::Send, CancelReply::Done) => CancelStepView::Next(
            CancelStage::FinishAccepted,
        ),
        (CancelStage::Send, CancelReply::Failed(e)) => if rejects_cancellation(e@) {
            CancelStepView::Rejected(e@)
        } else {
            CancelStepView::Report((None, Some(e@)))
        },
        (CancelStage::FinishAccepted, CancelReply::Done) => CancelStepView::Report(
            (Some("cancelled"@), None),
        ),
        (CancelStage::FinishAccepted, CancelReply::Failed(e)) => CancelStepView::Report(
            (Some("cancelled"@), Some("cancel accepted but mutation audit failed: "@ + e@)),
        ),
        _ => CancelStepView::Next(stage),
    }
}

/// What the guarded checks right before a cancellation come to.
pub fn acquire_final_cancellation_guard(
    stage: CancelStage,
    reply: CancelReply,
    run_id: u64,
    owned: bool,
) -> (r: CancelStep)
    requires
        stage == CancelStage::Acquire || stage == CancelStage::FinalRevalidate || stage
            == CancelStage::FinalAuthority || stage == CancelStage::FinalExact,
    ensures
        r@ == cancel_flow(stage, reply, run_id, owned),
{
    match (stage, reply) {
        (CancelStage::Acquire, CancelReply::Done) => CancelStep::Next(CancelStage::FinalRevalidate),
        (CancelStage::Acquire, CancelReply::Failed(error)) => CancelStep::Report(
            MutationReport::failed(error),
        ),
        (CancelStage::FinalRevalidate, CancelReply::Holds(true)) => CancelStep::Next(
            CancelStage::FinalAuthority,
        ),
        (CancelStage::FinalRevalidate, CancelReply::Holds(false)) => CancelStep::Skip(
            "skipped_after_final_live_revalidation",
        ),
        (CancelStage::FinalRevalidate, CancelReply::Failed(error)) => CancelStep::Fail {
            outcome: "final_revalidation_failed",
            error,
        },
        (CancelStage::FinalAuthority, CancelReply::Holds(true)) => {
            if owned {
                CancelStep::Next(CancelStage::FinalExact)
            } else {
                CancelStep::Fail {
                    outcome: "final_run_identity_missing",
                    error: concat3(
                        "workflow run ",
                        to_decimal(run_id).as_str(),
                        " lost pull-request identity",
                    ),
                }
            }
        },
        (CancelStage::FinalAuthority, CancelReply::Holds(false)) => CancelStep::Skip(
            "skipped_after_final_authority_check",
        ),
        (CancelStage::FinalAuthority, CancelReply::Failed(error)) => CancelStep::Fail {
            outcome: "final_authority_check_failed",
            error,
        },
        (CancelStage::FinalExact, CancelReply::Holds(true)) => CancelStep::Next(CancelStage::Send),
        (CancelStage::FinalExact, CancelReply::Holds(false)) => CancelStep::Skip(
            "skipped_after_final_exact_run_check",
        ),
        (CancelStage::FinalExact, CancelReply::Failed(error)) => CancelStep::Fail {
            outcome: "final_exact_run_check_failed",
            error,
        },
        _ => CancelStep::Next(stage),
    }
}

/// What is reported of a sent cancellation; an accepted one is audited.
pub fn send_superseded_cancellation(
    stage: CancelStage,
    reply: CancelReply,
    repo: &str,
    run_id: u64,
    ledger: &mut StewardLedger,
    at: &str,
) -> (r: CancelStep)
    requires
        stage == CancelStage::Send || stage == CancelStage::FinishAccepted,
    ensures
        r@ == cancel_flow(stage, reply, run_id, true),
        if stage == CancelStage::FinishAccepted && reply is Done {
            audited_once(
                *old(ledger),
                *final(ledger),
                AuditTexts {
                    at: at@,
                    repo: repo@,
                    subject: "run:"@ + decimal(run_id as nat),
                    action: "cancel_revalidated_queued_run"@,
                },
            )
        } else {
            *final(ledger) == *old(ledger)
        },
{
    match (stage, reply) {
        (CancelStage::Send, CancelReply::Done) => CancelStep::Next(CancelStage::FinishAccepted),
        (CancelStage::Send, CancelReply::Failed(error)) => {
            if definitive_cancel_rejection(error.as_str()) {
                CancelStep::Rejected(error)
            } else {
                CancelStep::Report(MutationReport::failed(error))
            }
        },
        (CancelStage::FinishAccepted, CancelReply::Done) => {
            let subject = concat("run:", to_decimal(run_id).as_str());
            record_audit(ledger, at, repo, subject.as_str(), "cancel_revalidated_queued_run");
            CancelStep::Report(MutationReport::done("cancelled"))
        },
        (CancelStage::FinishAccepted, CancelReply::Failed(error)) => CancelStep::Report(
            MutationReport::both(
                "cancelled",
                concat("cancel accepted but mutation audit failed: ", error.as_str()),
            ),
        ),
        _ => CancelStep::Next(stage),
    }
}

/// Takes one step of the cancellation of a superseded run.
pub fn apply_superseded_run_cancellation(
    stage: CancelStage,
    reply: CancelReply,
    repo: &str,
    observed: &StewardRun,
    branch_pr: Option<u64>,
    ledger: &mut StewardLedger,
    at: &str,
) -> (r: CancelStep)
    ensures
        r@ == cancel_flow(stage, reply, observed.id, owner_of(*observed, branch_pr) is Some),
        if stage == CancelStage::FinishAccepted && reply is Done {
            audited_once(
                *old(ledger),
                *final(ledger),
                AuditTexts {
                    at: at@,
                    repo: repo@,
                    subject: "run:"@ + decimal(observed.id as nat),
                    action: "cancel_revalidated_queued_run"@,
                },
            )
        } else {
            *final(ledger) == *old(ledger)
        },
{
    match stage {
        CancelStage::Revalidate => match reply {
            CancelReply::Holds(true) => CancelStep::Next(CancelStage::Acquire),
            CancelReply::Holds(false) => CancelStep::Report(
                MutationReport::done("skipped_after_live_revalidation"),
            ),
            CancelReply::Failed(error) => CancelStep::Report(MutationReport::failed(error)),
            CancelReply::Done => CancelStep::Next(stage),
        },
        CancelStage::Send => send_superseded_cancellation(
            stage,
            reply,
            repo,
            observed.id,
            ledger,
            at,
        ),
        CancelStage::FinishAccepted => send_superseded_cancellation(
            stage,
            reply,
            repo,
            observed.id,
            ledger,
            at,
        ),
        _ => acquire_final_cancellation_guard(
            stage,
            reply,
            observed.id,
            run_pull_request(observed, branch_pr).is_some(),
        ),
    }
}

/// A superseded run is cancelled only after four checks held, three of them under
/// the guard.
pub proof fn superseded_cancellation_needs_its_checks(
    stage: CancelStage,
    reply: CancelReply,
    run_id: u64,
    owned: bool,
    next: CancelStage,
)
    requires
        cancel_flow(stage, reply, run_id, owned) == CancelStepView::Next(next),
        next != stage,
    ensures
        next == CancelStage::Send ==> stage == CancelStage::FinalExact && reply
            == CancelReply::Holds(true),
        next == CancelStage::FinalExact ==> stage == CancelStage::FinalAuthority && reply
            == CancelReply::Holds(true) && owned,
        next == CancelStage::FinalAuthority ==> stage == CancelStage::FinalRevalidate && reply
            == CancelReply::Holds(true),
        next == CancelStage::FinalRevalidate ==> stage == CancelStage::Acquire && reply is Done,
        next == CancelStage::Acquire ==> stage == CancelStage::Revalidate && reply
            == CancelReply::Holds(true),
{
}

/// How a planned cancellation is carried out.
#[derive(Debug)]
pub enum CancellationPath {
    /// To make room for the front of the queue.
    Capacity,
    /// Because a newer head has superseded the run.
    Superseded,
    /// Not at all.
    Report(MutationReport),
}

/// Whether a reason is one of making room.
pub open spec fn makes_room(reason: RunCancellationReason) -> bool {
    reason == RunCancellationReason::AdvisoryPreambleCapacityTheft || reason
        == RunCancellationReason::LowerPriorityBranchPreamble
}

/// How a planned cancellation is carried out, in texts.
pub enum CancellationPathView {
    Capacity,
    Superseded,
    Report((Option<Seq<char>>, Option<Seq<char>>)),
}

/// How a planned cancellation is carried out, in texts.
pub open spec fn path_view(path: CancellationPath) -> CancellationPathView {
    match path {
        CancellationPath::Capacity => CancellationPathView::Capacity,
        CancellationPath::Superseded => CancellationPathView::Superseded,
        CancellationPath::Report(report) => CancellationPathView::Report(report.texts()),
    }
}

/// How a planned cancellation is carried out.
pub open spec fn cancellation_path(
    reason: RunCancellationReason,
    authorizes: bool,
    observed: bool,
) -> CancellationPathView {
    if makes_room(reason) {
        CancellationPathView::Capacity
    } else if !authorizes {
        CancellationPathView::Report((Some("skipped_non_authorizing_cancellation_reason"@), None))
    } else if !observed {
        CancellationPathView::Report((None, Some("planned run observation disappeared"@)))
    } else {
        CancellationPathView::Superseded
    }
}

/// A planned cancellation of a superseded run is carried out exactly where its reason
/// authorises it and the run was observed; one whose run was not observed is told as an
/// error, and one without authority as a skip.
pub proof fn a_planned_cancellation_is_carried_out(
    reason: RunCancellationReason,
    authorizes: bool,
    observed: bool,
)
    ensures
        ({
            let path = cancellation_path(reason, authorizes, observed);
            let superseding = reason == RunCancellationReason::SupersededPullRequestHead || reason
                == RunCancellationReason::SupersededMergeGroupHead;
            &&& path is Capacity <==> !superseding
            &&& superseding ==> (path is Superseded <==> authorizes && observed)
            &&& path matches CancellationPathView::Report(told) ==> (told.1 is Some <==> authorizes
                && !observed) && (told.0 is Some <==> !authorizes)
        }),
{
}

/// How a planned cancellation is carried out: `authorizes` says that its reason
/// is one for which queued runs are cancelled, `observed` that the run is among
/// the observed ones.
pub fn apply_run_cancellation(
    reason: RunCancellationReason,
    authorizes: bool,
    observed: bool,
) -> (r: CancellationPath)
    ensures
        path_view(r) == cancellation_path(reason, authorizes, observed),
{
    match reason {
        RunCancellationReason::AdvisoryPreambleCapacityTheft => return CancellationPath::Capacity,
        RunCancellationReason::LowerPriorityBranchPreamble => return CancellationPath::Capacity,
        _ => {},
    }
    if !authorizes {
        return CancellationPath::Report(
            MutationReport::done("skipped_non_authorizing_cancellation_reason"),
        );
    }
    if !observed {
        return CancellationPath::Report(
            MutationReport::failed("planned run observation disappeared".to_owned()),
        );
    }
    CancellationPath::Superseded
}

/// How many checks are left before the request of a cancellation that is favoured.
pub open spec fn checks_left(stage: CancelStage) -> nat {
    match stage {
        CancelStage::Revalidate => 6,
        CancelStage::Acquire => 5,
        CancelStage::FinalRevalidate => 4,
        CancelStage::FinalAuthority => 3,
        CancelStage::FinalExact => 2,
        CancelStage::Send => 1,
        CancelStage::FinishAccepted => 0,
    }
}

/// Whether a step is a check that holds or not.
pub open spec fn is_check(stage: CancelStage) -> bool {
    stage == CancelStage::Revalidate || stage == CancelStage::FinalRevalidate || stage
        == CancelStage::FinalAuthority || stage == CancelStage::FinalExact
}

/// A superseded run whose pull request is known and whose checks all hold is cancelled:
/// each favourable reply leads one step on, and the last one tells it as cancelled
/// without an error.
pub proof fn a_superseded_run_is_cancelled(
    stage: CancelStage,
    reply: CancelReply,
    run_id: u64,
)
    requires
        if is_check(stage) {
            reply == CancelReply::Holds(true)
        } else {
            reply is Done
        },
    ensures
        if checks_left(stage) > 0 {
            cancel_flow(stage, reply, run_id, true) matches CancelStepView::Next(next)
                && checks_left(next) == checks_left(stage) - 1
        } else {
            cancel_flow(stage, reply, run_id, true) == CancelStepView::Report(
                (Some("cancelled"@), None::<Seq<char>>),
            )
        },
{
}

/// A check that does not hold skips the cancellation, and a check that fails is told
/// with its error; neither sends anything or tells the run as cancelled.
pub proof fn a_failed_check_cancels_nothing(
    stage: CancelStage,
    reply: CancelReply,
    run_id: u64,
    owned: bool,
)
    ensures
        ({
            let step = cancel_flow(stage, reply, run_id, owned);
            &&& is_check(stage) && reply == CancelReply::Holds(false) ==> match step {
                CancelStepView::Skip(_) => true,
                CancelStepView::Report(told) => told.1 is None && told.0 is Some && told.0 != Some(
                    "cancelled"@,
                ),
                _ => false,
            }
            &&& reply matches CancelReply::Failed(error) ==> match step {
                CancelStepView::Fail { error: text, .. } => text == error@ && is_check(stage),
                CancelStepView::Rejected(text) => text == error@ && stage == CancelStage::Send
                    && rejects_cancellation(error@),
                CancelStepView::Report(told) => told.1 matches Some(text) && has_suffix(
                    text,
                    error@,
                ),
                _ => false,
            }
            &&& stage == CancelStage::Send && (reply matches CancelReply::Failed(error)
                && rejects_cancellation(error@)) ==> step is Rejected
            &&& step matches CancelStepView::Report(told) ==> (told.0 == Some("cancelled"@) <==> stage
                == CancelStage::FinishAccepted)
            &&& !owned && stage == CancelStage::FinalAuthority && reply == CancelReply::Holds(true)
                ==> step is Fail
        }),
{
    reveal_strlit("cancelled");
    reveal_strlit("skipped_after_live_revalidation");
    assert("cancelled"@[0] == 'c' && "skipped_after_live_revalidation"@[0] == 's');
    if let CancelReply::Failed(error) = reply {
        ends_with_its_end("cancel accepted but mutation audit failed: "@, error@);
    }
}

/// A moment is long enough in the past from a quarter of an hour on, and stays so.
pub proof fn waiting_is_long_enough_after_a_quarter_of_an_hour(
    timestamp: Seq<char>,
    now: Instant,
    later: Instant,
)
    ensures
        old_enough(timestamp, now) <==> (instant_of(timestamp) matches Some(start) && now.since(start)
            >= 15 * 60 * 1_000_000_000),
        old_enough(timestamp, now) && (instant_of(timestamp) matches Some(start) && later.since(
            start,
        ) >= now.since(start)) ==> old_enough(timestamp, later),
{
}

/// A run is superseded only by a head that is another than its own, of an open pull
/// request that does not forbid it; the run of the head that counts never is.
pub proof fn the_current_head_is_never_superseded(
    observed: StewardRun,
    reason: RunCancellationReason,
    candidate: Option<ObservedPr>,
    forbidden: bool,
    group_head: Option<Seq<char>>,
)
    ensures
        superseded(observed, reason, candidate, forbidden, group_head) ==> candidate is Some
            && !forbidden && !makes_room(reason),
        candidate is Some && !forbidden ==> {
            let own = candidate->Some_0.fact.head_sha@;
            &&& reason == RunCancellationReason::SupersededPullRequestHead ==> (superseded(
                observed,
                reason,
                candidate,
                forbidden,
                group_head,
            ) <==> lower(own) != lower(observed.head_sha@))
            &&& reason == RunCancellationReason::SupersededMergeGroupHead ==> (superseded(
                observed,
                reason,
                candidate,
                forbidden,
                group_head,
            ) <==> (group_head matches Some(head) && lower(head) != lower(observed.head_sha@)))
        },
{
}

/// A run that is still queued is the observed one in everything that identifies it.
pub proof fn a_run_that_is_still_queued_is_the_observed_one(
    exact: StewardRun,
    branch_pr: Option<u64>,
    observed: StewardRun,
    number: u64,
)
    requires
        still_queued(exact, branch_pr, observed, number),
    ensures
        lower(exact.status@) == lower("queued"@),
        same_attempt(observed, exact),
        exact.event@ == observed.event@,
        exact.pull_request_number == Some(number) || (exact.pull_request_number is None
            && exact.event@ == "merge_group"@ && branch_pr == Some(number)),
{
}

/// A pull request permits that a run of it is cancelled exactly where it is open, not
/// blocked, not opted out, and still in the steward's hands.
pub proof fn a_permitted_pull_request_has_no_refusal(
    live: Option<ObservedPr>,
    pending: PendingCancellation,
    handed_off: bool,
)
    ensures
        authority_refusal(live, pending, handed_off) is None <==> (live matches Some(pr)
            && !blocked(pr, pending.provenance_blocking_labels@) && !labelled(
            pr.fact.labels@,
            pending.opt_out_label@,
        ) && managed(pr, pending.managed_label@, handed_off)),
{
}

} // verus!
