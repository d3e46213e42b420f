//! A pass over all repositories: how its reports come together and how it ends.
use vstd::prelude::*;

use crate::guard::ends_with_its_end;
use crate::admission::{
    good_labels, label_identities, normalize_provenance_blocking_labels,
};
use crate::ledger::{
    AuditTexts, PendingCancellation, QueueRecoveryReceipt, QueueWitness, StewardLedger,
    TerminalHandoff, TerminalHandoffOutcome, TerminalHandoffPhase,
};
use crate::model::{fails, CliFailure};
use crate::observation::{first_bad_slug, is_slug, resolve_repos, sorted_texts};
use crate::plan::{RepoReport, StewardCommandArgs};
use crate::resume::RecoveryReports;
use crate::text::{concat, eq_ignore_case, has_suffix, same_ignoring_case, str_eq, trimmed, views};
use crate::text_map::TextMap;

verus! {

/// The ledger that a pass starts with: the stored one, or an empty one where
/// none is stored.
pub fn load_ledger(existing: Option<StewardLedger>) -> (r: StewardLedger)
    ensures
        match existing {
            Some(ledger) => r == ledger,
            None => {
                &&& r.transient_attempts@ == Map::<Seq<char>, u32>::empty()
                &&& r.preemption_attempts@ == Map::<Seq<char>, u32>::empty()
                &&& r.pending_cancellations@ == Map::<Seq<char>, PendingCancellation>::empty()
                &&& r.queue_witnesses@ == Map::<Seq<char>, QueueWitness>::empty()
                &&& r.queue_recovery_receipts@ == Map::<Seq<char>, QueueRecoveryReceipt>::empty()
                &&& r.terminal_handoffs@ == Map::<Seq<char>, TerminalHandoff>::empty()
                &&& r.audits() == Seq::<AuditTexts>::empty()
            },
        },
{
    match existing {
        Some(ledger) => ledger,
        None => StewardLedger::new(),
    }
}

/// What the ledger says of the end of a pull request's stewardship.
#[derive(Clone, Copy, Debug, PartialEq, Eq, Structural)]
pub enum ExactStewardTransition {
    /// Nothing, or nothing that has come to an end.
    Open,
    Actionable,
    Terminal,
}

/// Whether a handoff is of a pull request's head.
pub open spec fn exact_handoff(
    handoff: TerminalHandoff,
    repo: Seq<char>,
    pr: u64,
    head_sha: Seq<char>,
) -> bool {
    &&& same_ignoring_case(handoff.repo@, repo)
    &&& handoff.pr_number == pr
    &&& same_ignoring_case(handoff.head_sha@, head_sha)
}

/// Whether a handoff calls its owner to repair a failure.
pub open spec fn calls_owner(handoff: TerminalHandoff) -> bool {
    &&& handoff.outcome == TerminalHandoffOutcome::ActionableFailure
    &&& handoff.phase == TerminalHandoffPhase::Recorded
    &&& handoff.trigger@ == "actionable_terminal_failure"@
    &&& handoff.next_action@ == "wake_exact_owner_for_causal_repair"@
}

/// Whether a handoff is over.
pub open spec fn is_over(handoff: TerminalHandoff) -> bool {
    handoff.phase == TerminalHandoffPhase::Applied || handoff.phase
        == TerminalHandoffPhase::Resolved
}

/// What handoffs say of the end of a pull request's stewardship.
pub open spec fn transition_of(
    handoffs: Seq<TerminalHandoff>,
    repo: Seq<char>,
    pr: u64,
    head_sha: Seq<char>,
) -> ExactStewardTransition {
    if exists|i: int|
        0 <= i < handoffs.len() && exact_handoff(#[trigger] handoffs[i], repo, pr, head_sha)
            && calls_owner(handoffs[i]) {
        ExactStewardTransition::Actionable
    } else if (exists|i: int|
        0 <= i < handoffs.len() && exact_handoff(#[trigger] handoffs[i], repo, pr, head_sha)) && (
    forall|i: int|
        0 <= i < handoffs.len() && exact_handoff(#[trigger] handoffs[i], repo, pr, head_sha)
            ==> is_over(handoffs[i])) {
        ExactStewardTransition::Terminal
    } else {
        ExactStewardTransition::Open
    }
}

/// What the ledger says of the end of a pull request's stewardship. The
/// repository must be known by more than its name, and its policy must be bound
/// to the head: `binding` says whether it is.
#[verifier::loop_isolation(false)]
pub fn exact_steward_transition(
    repository_provider: Option<&str>,
    repository_id: Option<&str>,
    binding: Result<(), String>,
    ledger: Option<&StewardLedger>,
    repo: &str,
    pr: u64,
    head_sha: &str,
) -> (r: Result<ExactStewardTransition, String>)
    ensures
        if repository_provider is None || repository_id is None {
            r matches Err(e) && e@
                == "exact steward transition lacks immutable repository identity"@
        } else {
            match (binding, ledger) {
                (Err(error), _) => r matches Err(e) && e@ == error@,
                (Ok(_), None) => r == Ok::<ExactStewardTransition, String>(
                    ExactStewardTransition::Open,
                ),
                (Ok(_), Some(ledger)) => r == Ok::<ExactStewardTransition, String>(
                    transition_of(ledger.terminal_handoffs.values(), repo@, pr, head_sha@),
                ),
            }
        },
{
    if repository_provider.is_none() || repository_id.is_none() {
        return Err("exact steward transition lacks immutable repository identity".to_owned());
    }
    match binding {
        Err(error) => return Err(error),
        Ok(_) => {},
    }
    let ledger = match ledger {
        Some(ledger) => ledger,
        None => return Ok(ExactStewardTransition::Open),
    };
    let handoffs = &ledger.terminal_handoffs;
    let n: usize = handoffs.len();
    let mut saw_exact = false;
    let mut all_resolved = true;
    let mut i: usize = 0;
    while i < n
        invariant
            i <= n,
            n == handoffs.keys().len(),
            n == handoffs.values().len(),
            saw_exact == exists|k: int|
                0 <= k < i && exact_handoff(#[trigger] handoffs.values()[k], repo@, pr, head_sha@),
            all_resolved == forall|k: int|
                0 <= k < i && exact_handoff(#[trigger] handoffs.values()[k], repo@, pr, head_sha@)
                    ==> is_over(handoffs.values()[k]),
            forall|k: int|
                0 <= k < i && exact_handoff(#[trigger] handoffs.values()[k], repo@, pr, head_sha@)
                    ==> !calls_owner(handoffs.values()[k]),
        decreases n - i,
    {
        let handoff = handoffs.value_at(i);
        proof {
            assert(handoffs.values()[i as int] == *handoff);
        }
        if eq_ignore_case(handoff.repo.as_str(), repo) && handoff.pr_number == pr && eq_ignore_case(
            handoff.head_sha.as_str(),
            head_sha,
        ) {
            proof {
                assert(exact_handoff(handoffs.values()[i as int], repo@, pr, head_sha@));
            }
            saw_exact = true;
            if handoff.outcome == TerminalHandoffOutcome::ActionableFailure && handoff.phase
                == TerminalHandoffPhase::Recorded && str_eq(
                handoff.trigger.as_str(),
                "actionable_terminal_failure",
            ) && str_eq(handoff.next_action.as_str(), "wake_exact_owner_for_causal_repair") {
                return Ok(ExactStewardTransition::Actionable);
            }
            if !(handoff.phase == TerminalHandoffPhase::Applied || handoff.phase
                == TerminalHandoffPhase::Resolved) {
                all_resolved = false;
            }
        }
        i = i + 1;
    }
    if saw_exact && all_resolved {
        Ok(ExactStewardTransition::Terminal)
    } else {
        Ok(ExactStewardTransition::Open)
    }
}

/// Whether a report is of a repository of which nothing is known but errors and
/// cancellations.
pub open spec fn bare_report(
    report: RepoReport,
    repo: Seq<char>,
    base: Seq<char>,
    merge_path: Seq<char>,
) -> bool {
    &&& report.repo@ == repo
    &&& report.base@ == base
    &&& !report.allow_auto_merge
    &&& !report.merge_queue
    &&& report.merge_path@ == merge_path
    &&& report.required_contexts@.len() == 0
    &&& report.prs@.len() == 0
}

/// What is reported of a repository that could not be read.
pub fn unreadable_repo_report(repo: &str, base: &str, error: String) -> (r: RepoReport)
    ensures
        bare_report(r, repo@, base@, "unreadable"@),
        r.cancellations@.len() == 0,
        r.errors@ == seq![error],
{
    let mut errors: Vec<String> = Vec::new();
    errors.push(error);
    proof {
        assert(errors@ =~= seq![error]);
    }
    RepoReport {
        repo: repo.to_owned(),
        base: base.to_owned(),
        allow_auto_merge: false,
        merge_queue: false,
        merge_path: "unreadable".to_owned(),
        required_contexts: Vec::new(),
        prs: Vec::new(),
        cancellations: Vec::new(),
        errors,
    }
}

/// What a pass is told, with its blocking labels trimmed, and the repositories
/// that it is for.
pub fn normalized_steward_args(
    args: StewardCommandArgs,
    current: Result<String, CliFailure>,
) -> (r: Result<(StewardCommandArgs, Vec<String>), CliFailure>)
    ensures
        ({
            let labels = args.provenance_blocking_labels@;
            if labels.len() == 0 || labels.len() > 100 {
                fails(r, 2, "--provenance-blocking-label must contain 1..100 labels"@)
            } else if !good_labels(label_identities(labels)) {
                fails(
                    r,
                    2,
                    "--provenance-blocking-label values must be non-empty, unique, and at most 100 bytes each"@,
                )
            } else if args.repos@.len() == 0 && current is Err {
                r == Err::<(StewardCommandArgs, Vec<String>), CliFailure>(current->Err_0)
            } else {
                let given = if args.repos@.len() == 0 {
                    seq![current->Ok_0@]
                } else {
                    views(args.repos@)
                };
                match r {
                    Ok((normalized, repos)) => {
                        &&& sorted_texts(views(repos@), given)
                        &&& forall|k: int|
                            0 <= k < repos@.len() ==> is_slug(#[trigger] views(repos@)[k])
                        &&& views(normalized.provenance_blocking_labels@) == Seq::new(
                            labels.len(),
                            |i: int| trimmed(labels[i]@),
                        )
                        &&& normalized == (StewardCommandArgs {
                            provenance_blocking_labels: normalized.provenance_blocking_labels,
                            repos: normalized.repos,
                            ..args
                        })
                        &&& views(normalized.repos@) == views(args.repos@)
                    },
                    Err(failure) => exists|list: Seq<Seq<char>>, i: int|
                        sorted_texts(list, given) && #[trigger] first_bad_slug(list, i)
                            && failure.says(1, "invalid repository slug `"@ + list[i] + "`"@),
                }
            }
        }),
{
    let labels = match normalize_provenance_blocking_labels(&args.provenance_blocking_labels) {
        Ok(labels) => labels,
        Err(failure) => return Err(failure),
    };
    let given = crate::text::copy_texts(&args.repos);
    proof {
        assert(views(given@).len() == given@.len());
        assert(views(args.repos@).len() == args.repos@.len());
    }
    let repos = match resolve_repos(given, current) {
        Ok(repos) => repos,
        Err(failure) => return Err(failure),
    };
    let mut normalized = args;
    normalized.provenance_blocking_labels = labels;
    Ok((normalized, repos))
}

/// A pass under way.
#[derive(Debug)]
pub struct Pass {
    pub reports: Vec<RepoReport>,
    pub unhealthy: bool,
    /// How many runs may still be preempted.
    pub remaining_preemptions: usize,
}

/// Begins a pass. It may preempt one run, unless a preemption is pending from
/// before or is left pending by the recovery.
pub fn begin_pass(pending_before: bool, pending_now: bool) -> (r: Pass)
    ensures
        r.reports@.len() == 0,
        !r.unhealthy,
        r.remaining_preemptions == if !pending_before && !pending_now {
            1int
        } else {
            0
        },
        r.remaining_preemptions > 0 <==> !(pending_before || pending_now),
{
    Pass {
        reports: Vec::new(),
        unhealthy: false,
        remaining_preemptions: if !pending_before && !pending_now {
            1
        } else {
            0
        },
    }
}

/// Adds what was recovered of a repository to its report.
fn add_recovered(report: &mut RepoReport, recovered: RecoveryReports)
    ensures
        final(report).errors@ == old(report).errors@ + recovered.errors@,
        final(report).cancellations@ == old(report).cancellations@ + recovered.cancellations@,
        *final(report) == (RepoReport {
            errors: final(report).errors,
            cancellations: final(report).cancellations,
            ..*old(report)
        }),
{
    let mut errors = recovered.errors;
    let mut cancellations = recovered.cancellations;
    report.errors.append(&mut errors);
    report.cancellations.append(&mut cancellations);
}

/// Whether a pass has one more report, of a repository: what was planned there counts
/// against the preemptions, and what was recovered of it is reported with it. A
/// repository that could not be read is reported as such.
pub open spec fn repository_told(
    before: Pass,
    repo: Seq<char>,
    base: Seq<char>,
    outcome: Result<(RepoReport, bool, usize), String>,
    recovered: Option<RecoveryReports>,
    after: Pass,
) -> bool {
    let last = after.reports@.last();
    &&& after.reports@.len() == before.reports@.len() + 1
    &&& after.reports@.drop_last() == before.reports@
    &&& match outcome {
        Ok((report, failed, planned)) => {
            &&& last.errors@ == match recovered {
                Some(more) => report.errors@ + more.errors@,
                None => report.errors@,
            }
            &&& last.cancellations@ == match recovered {
                Some(more) => report.cancellations@ + more.cancellations@,
                None => report.cancellations@,
            }
            &&& last == (RepoReport {
                errors: last.errors,
                cancellations: last.cancellations,
                ..report
            })
            &&& after.unhealthy == (before.unhealthy || failed || last.errors@.len() > 0)
            &&& after.remaining_preemptions == if planned >= before.remaining_preemptions {
                0int
            } else {
                before.remaining_preemptions - planned
            }
        },
        Err(error) => {
            &&& bare_report(last, repo, base, "unreadable"@)
            &&& last.cancellations@.len() == 0
            &&& last.errors@ == seq![error]
            &&& after.unhealthy
            &&& after.remaining_preemptions == before.remaining_preemptions
        },
    }
}

/// Adds the report of a repository to a pass.
pub fn report_repository(
    pass: &mut Pass,
    repo: &str,
    base: &str,
    outcome: Result<(RepoReport, bool, usize), String>,
    recovered: Option<RecoveryReports>,
)
    ensures
        repository_told(*old(pass), repo@, base@, outcome, recovered, *final(pass)),
{
    let ghost before = pass.reports@;
    match outcome {
        Ok((found, failed, planned)) => {
            let mut report = found;
            match recovered {
                Some(more) => add_recovered(&mut report, more),
                None => {},
            }
            pass.remaining_preemptions = if planned >= pass.remaining_preemptions {
                0
            } else {
                pass.remaining_preemptions - planned
            };
            pass.unhealthy = pass.unhealthy || failed || report.errors.len() > 0;
            pass.reports.push(report);
        },
        Err(error) => {
            pass.unhealthy = true;
            pass.reports.push(unreadable_repo_report(repo, base, error));
        },
    }
    proof {
        assert(pass.reports@.drop_last() =~= before);
    }
}

/// The branch of the first pending record of a repository, or the default.
pub open spec fn pending_base(
    values: Seq<PendingCancellation>,
    repo: Seq<char>,
    default: Seq<char>,
) -> Seq<char>
    decreases values.len(),
{
    if values.len() == 0 {
        default
    } else if values[0].repo@ == repo {
        values[0].base@
    } else {
        pending_base(values.skip(1), repo, default)
    }
}

fn base_of(pending: &TextMap<PendingCancellation>, repo: &str, default: &str) -> (r: String)
    ensures
        r@ == pending_base(pending.values(), repo@, default@),
{
    let n: usize = pending.len();
    let mut i: usize = 0;
    proof {
        assert(pending.values().skip(0) =~= pending.values());
    }
    while i < n
        invariant
            i <= n,
            n == pending.keys().len(),
            n == pending.values().len(),
            pending_base(pending.values(), repo@, default@) == pending_base(
                pending.values().skip(i as int),
                repo@,
                default@,
            ),
        decreases n - i,
    {
        let record = pending.value_at(i);
        proof {
            assert(pending.values().skip(i as int).skip(1) =~= pending.values().skip(i + 1));
            assert(pending.values().skip(i as int)[0] == *record);
        }
        if str_eq(record.repo.as_str(), repo) {
            return record.base.clone();
        }
        i = i + 1;
    }
    default.to_owned()
}

/// Whether a report tells what was recovered of a repository that the pass was
/// not for.
pub open spec fn unmatched_report(
    report: RepoReport,
    repo: Seq<char>,
    recovered: RecoveryReports,
    ledger: StewardLedger,
    default_base: Seq<char>,
) -> bool {
    &&& bare_report(
        report,
        repo,
        pending_base(ledger.pending_cancellations.values(), repo, default_base),
        "pending_cancellation_recovery"@,
    )
    &&& report.errors == recovered.errors
    &&& report.cancellations == recovered.cancellations
}

/// Whether a pass has one more report for every repository that it was not for and of
/// which something was recovered, in the order of their names.
pub open spec fn unmatched_told(
    before: Pass,
    recovered: TextMap<RecoveryReports>,
    ledger: StewardLedger,
    default_base: Seq<char>,
    after: Pass,
) -> bool {
    let n = before.reports@.len() as int;
    let keys = recovered.keys();
    &&& after.reports@.len() == n + keys.len()
    &&& after.reports@.take(n) == before.reports@
    &&& forall|i: int|
        0 <= i < keys.len() ==> unmatched_report(
            #[trigger] after.reports@[n + i],
            keys[i],
            recovered@[keys[i]],
            ledger,
            default_base,
        )
    &&& after.unhealthy == (before.unhealthy || exists|i: int|
        0 <= i < keys.len() && #[trigger] recovered@[keys[i]].errors@.len() > 0)
    &&& after.remaining_preemptions == before.remaining_preemptions
}

/// Adds a report for every repository that the pass was not for and of which
/// something was recovered, in the order of their names.
pub fn append_unmatched_recovery_errors(
    pass: &mut Pass,
    recovered: TextMap<RecoveryReports>,
    ledger: &StewardLedger,
    default_base: &str,
)
    ensures
        unmatched_told(*old(pass), recovered, *ledger, default_base@, *final(pass)),
{
    let ghost all = recovered@;
    let ghost keys = recovered.keys();
    let ghost start = pass.reports@;
    let ghost healthy = pass.unhealthy;
    let total: usize = recovered.len();
    let mut names: Vec<String> = Vec::new();
    let mut k: usize = 0;
    while k < total
        invariant
            k <= total,
            total == keys.len(),
            keys == recovered.keys(),
            all == recovered@,
            names@.len() == k,
            forall|q: int| 0 <= q < k ==> (#[trigger] names@[q])@ == keys[q],
            forall|q: int| 0 <= q < k ==> all.dom().contains(#[trigger] keys[q]),
        decreases total - k,
    {
        names.push(recovered.key_at(k).clone());
        k = k + 1;
    }
    let mut rest = recovered;
    let mut i: usize = 0;
    proof {
        crate::text::sorted_has_no_duplicates(keys);
        assert(pass.reports@.take(start.len() as int) =~= start);
    }
    while i < names.len()
        invariant
            i <= names.len(),
            names@.len() == keys.len(),
            keys.no_duplicates(),
            forall|q: int| 0 <= q < names@.len() ==> (#[trigger] names@[q])@ == keys[q],
            forall|q: int| 0 <= q < keys.len() ==> all.dom().contains(#[trigger] keys[q]),
            forall|q: int|
                i <= q < keys.len() ==> rest@.dom().contains(#[trigger] keys[q])
                    && rest@[keys[q]] == all[keys[q]],
            pass.reports@.len() == start.len() + i,
            pass.reports@.take(start.len() as int) == start,
            forall|q: int|
                0 <= q < i ==> unmatched_report(
                    #[trigger] pass.reports@[start.len() + q],
                    keys[q],
                    all[keys[q]],
                    *ledger,
                    default_base@,
                ),
            pass.unhealthy == (healthy || exists|q: int|
                0 <= q < i && #[trigger] all[keys[q]].errors@.len() > 0),
            pass.remaining_preemptions == old(pass).remaining_preemptions,
        decreases names.len() - i,
    {
        let ghost before = pass.reports@;
        let ghost rest_before = rest@;
        let name = names[i].as_str();
        let base = base_of(&ledger.pending_cancellations, name, default_base);
        match rest.remove(name) {
            Some(more) => {
                proof {
                    assert(more == all[keys[i as int]]);
                }
                if more.errors.len() > 0 {
                    pass.unhealthy = true;
                }
                pass.reports.push(
                    RepoReport {
                        repo: name.to_owned(),
                        base,
                        allow_auto_merge: false,
                        merge_queue: false,
                        merge_path: "pending_cancellation_recovery".to_owned(),
                        required_contexts: Vec::new(),
                        prs: Vec::new(),
                        cancellations: more.cancellations,
                        errors: more.errors,
                    },
                );
            },
            None => {
                proof {
                    assert(rest_before.dom().contains(keys[i as int]));
                }
            },
        }
        proof {
            assert(pass.reports@.take(start.len() as int) =~= start);
            assert forall|q: int| 0 <= q < i + 1 implies unmatched_report(
                #[trigger] pass.reports@[start.len() + q],
                keys[q],
                all[keys[q]],
                *ledger,
                default_base@,
            ) by {
                if q < i {
                    assert(pass.reports@[start.len() + q] == before[start.len() + q]);
                }
            }
        }
        i = i + 1;
    }
}

/// Whether a pass tells how the ledger was saved at its end: where it could not be,
/// that is reported with the first repository, or on its own.
pub open spec fn saving_told(
    before: Pass,
    saved: Result<(), String>,
    base: Seq<char>,
    after: Pass,
) -> bool {
    match saved {
        Ok(_) => after == before,
        Err(message) => {
            let text = "final steward ledger persistence failed: "@ + message@;
            &&& after.unhealthy
            &&& after.remaining_preemptions == before.remaining_preemptions
            &&& if before.reports@.len() > 0 {
                let first = after.reports@[0];
                let was = before.reports@[0];
                &&& after.reports@ == before.reports@.update(0, first)
                &&& views(first.errors@) == views(was.errors@).push(text)
                &&& first == (RepoReport { errors: first.errors, ..was })
            } else {
                &&& after.reports@.len() == 1
                &&& bare_report(after.reports@[0], "steward"@, base, "unreadable"@)
                &&& after.reports@[0].cancellations@.len() == 0
                &&& views(after.reports@[0].errors@) == seq![text]
            }
        },
    }
}

/// Ends a pass that changed things: where the ledger could not be saved, that is
/// reported with the first repository, or on its own.
pub fn persist_final_ledger(pass: &mut Pass, saved: Result<(), String>, base: &str)
    ensures
        saving_told(*old(pass), saved, base@, *final(pass)),
{
    let message = match saved {
        Ok(_) => return ,
        Err(message) => message,
    };
    pass.unhealthy = true;
    let text = concat("final steward ledger persistence failed: ", message.as_str());
    if pass.reports.len() > 0 {
        let ghost reports = pass.reports@;
        let mut first = pass.reports.remove(0);
        let ghost was = views(first.errors@);
        first.errors.push(text);
        proof {
            assert(views(first.errors@) =~= was.push(text@));
        }
        pass.reports.insert(0, first);
        proof {
            assert(pass.reports@ =~= reports.update(0, first));
        }
    } else {
        let report = unreadable_repo_report("steward", base, text);
        proof {
            assert(views(report.errors@) =~= seq![text@]);
        }
        pass.reports.push(report);
    }
}

/// The code with which a pass ends.
pub fn pass_exit_code(pass: &Pass) -> (r: u8)
    ensures
        r == if pass.unhealthy {
            1int
        } else {
            0
        },
        r == 0 <==> !pass.unhealthy,
{
    if pass.unhealthy {
        1
    } else {
        0
    }
}

/// A transition calls for its owner as soon as one exact handoff does, is terminal where
/// there are exact handoffs and all are over, and is open otherwise.
pub proof fn one_call_for_the_owner_is_enough(
    handoffs: Seq<TerminalHandoff>,
    repo: Seq<char>,
    pr: u64,
    head_sha: Seq<char>,
    i: int,
)
    requires
        0 <= i < handoffs.len(),
        exact_handoff(handoffs[i], repo, pr, head_sha),
    ensures
        ({
            let transition = transition_of(handoffs, repo, pr, head_sha);
            &&& calls_owner(handoffs[i]) ==> transition == ExactStewardTransition::Actionable
            &&& transition == ExactStewardTransition::Terminal ==> handoffs[i].phase
                == TerminalHandoffPhase::Applied || handoffs[i].phase
                == TerminalHandoffPhase::Resolved
            &&& (forall|k: int|
                0 <= k < handoffs.len() && exact_handoff(#[trigger] handoffs[k], repo, pr, head_sha)
                    ==> (handoffs[k].phase == TerminalHandoffPhase::Applied || handoffs[k].phase
                    == TerminalHandoffPhase::Resolved)) ==> transition
                == ExactStewardTransition::Terminal
        }),
{
}

/// A pull request without an exact handoff is open.
pub proof fn other_handoffs_leave_it_open(
    handoffs: Seq<TerminalHandoff>,
    repo: Seq<char>,
    pr: u64,
    head_sha: Seq<char>,
)
    requires
        forall|i: int|
            0 <= i < handoffs.len() ==> (#[trigger] handoffs[i]).pr_number != pr
                || !same_ignoring_case(handoffs[i].repo@, repo) || !same_ignoring_case(
                handoffs[i].head_sha@,
                head_sha,
            ),
    ensures
        transition_of(handoffs, repo, pr, head_sha) == ExactStewardTransition::Open,
{
}

/// A repository adds one report and loses none. It makes the pass unhealthy exactly where
/// it could not be read, failed, or tells an error, and no preemption is planned twice.
pub proof fn a_repository_is_told_once(
    before: Pass,
    repo: Seq<char>,
    base: Seq<char>,
    outcome: Result<(RepoReport, bool, usize), String>,
    recovered: Option<RecoveryReports>,
    after: Pass,
)
    requires
        repository_told(before, repo, base, outcome, recovered, after),
    ensures
        after.reports@.len() == before.reports@.len() + 1,
        forall|i: int|
            0 <= i < before.reports@.len() ==> #[trigger] after.reports@[i] == before.reports@[i],
        after.unhealthy <==> before.unhealthy || after.reports@.last().errors@.len() > 0 || (outcome
            matches Ok(done) && done.1),
        outcome is Err ==> after.unhealthy,
        outcome matches Ok(done) ==> after.remaining_preemptions + done.2
            >= before.remaining_preemptions && (done.2 <= before.remaining_preemptions
            ==> after.remaining_preemptions + done.2 == before.remaining_preemptions),
        outcome matches Ok(done) ==> (recovered matches Some(more)
            ==> after.reports@.last().errors@.len() == done.0.errors@.len() + more.errors@.len()),
{
    assert forall|i: int| 0 <= i < before.reports@.len() implies #[trigger] after.reports@[i]
        == before.reports@[i] by {
        assert(after.reports@.drop_last()[i] == after.reports@[i]);
    }
}

/// A ledger that could not be saved makes the pass unhealthy and is told in an error that
/// ends with the cause; one that was saved changes nothing.
pub proof fn a_failed_save_is_told(
    before: Pass,
    saved: Result<(), String>,
    base: Seq<char>,
    after: Pass,
)
    requires
        saving_told(before, saved, base, after),
    ensures
        saved is Ok ==> after == before,
        saved matches Err(message) ==> after.unhealthy && after.reports@.len() > 0 && has_suffix(
            views(after.reports@[0].errors@).last(),
            message@,
        ),
{
    if let Err(message) = saved {
        ends_with_its_end("final steward ledger persistence failed: "@, message@);
    }
}

/// A record without a report of its repository is told under the base of the first record
/// of that repository.
pub proof fn the_first_record_gives_the_base(
    values: Seq<PendingCancellation>,
    repo: Seq<char>,
    default: Seq<char>,
    i: int,
)
    requires
        0 <= i < values.len(),
        values[i].repo@ == repo,
        forall|k: int| 0 <= k < i ==> (#[trigger] values[k]).repo@ != repo,
    ensures
        pending_base(values, repo, default) == values[i].base@,
    decreases i,
{
    if i > 0 {
        assert(values[0].repo@ != repo);
        let rest = values.skip(1);
        assert(rest[i - 1] == values[i]);
        assert forall|k: int| 0 <= k < i - 1 implies (#[trigger] rest[k]).repo@ != repo by {
            assert(rest[k] == values[k + 1]);
        }
        the_first_record_gives_the_base(rest, repo, default, i - 1);
    }
}

} // verus!
