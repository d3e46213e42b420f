//! Reading authority again right before a cancellation.
use vstd::prelude::*;

use std::collections::BTreeMap;

use crate::model::{ObservedPr, StewardRun};
use crate::numbers::{add_number, has_number, increasing, lists_set};
use crate::text::{eq_ignore_case, same_ignoring_case};

verus! {

/// Whether two runs are the same attempt of the same workflow on the same head.
pub open spec fn same_attempt(observed: StewardRun, live: StewardRun) -> bool {
    &&& same_ignoring_case(live.head_sha@, observed.head_sha@)
    &&& live.workflow_id == observed.workflow_id
    &&& live.run_attempt == observed.run_attempt
}

/// Whether two runs are the same attempt of the same workflow on the same head.
pub fn same_workflow_attempt(observed: &StewardRun, live: &StewardRun) -> (r: bool)
    ensures
        r == same_attempt(*observed, *live),
{
    eq_ignore_case(live.head_sha.as_str(), observed.head_sha.as_str()) && live.workflow_id
        == observed.workflow_id && live.run_attempt == observed.run_attempt
}

/// Whether a label occurs among labels, in any letter case.
pub open spec fn labelled(labels: Seq<String>, label: Seq<char>) -> bool {
    exists|i: int| 0 <= i < labels.len() && same_ignoring_case((#[trigger] labels[i])@, label)
}

/// Whether a label occurs among labels, in any letter case.
pub fn is_labelled(labels: &Vec<String>, label: &str) -> (r: bool)
    ensures
        r == labelled(labels@, label@),
{
    let mut i: usize = 0;
    while i < labels.len()
        invariant
            i <= labels.len(),
            forall|k: int| 0 <= k < i ==> !same_ignoring_case((#[trigger] labels@[k])@, label@),
        decreases labels.len() - i,
    {
        if eq_ignore_case(labels[i].as_str(), label) {
            return true;
        }
        i = i + 1;
    }
    false
}

/// Whether a pull request has opted out.
pub fn pull_request_opted_out(pr: &ObservedPr, opt_out_label: &str) -> (r: bool)
    ensures
        r == labelled(pr.fact.labels@, opt_out_label@),
{
    is_labelled(&pr.fact.labels, opt_out_label)
}

/// Whether a pull request carries one of the blocking labels.
pub open spec fn blocked(pr: ObservedPr, blockers: Seq<String>) -> bool {
    exists|i: int|
        0 <= i < blockers.len() && labelled(pr.fact.labels@, (#[trigger] blockers[i])@)
}

/// Whether a pull request carries one of the blocking labels.
pub fn pull_request_provenance_blocked(
    pr: &ObservedPr,
    provenance_blocking_labels: &Vec<String>,
) -> (r: bool)
    ensures
        r == blocked(*pr, provenance_blocking_labels@),
{
    let mut i: usize = 0;
    while i < provenance_blocking_labels.len()
        invariant
            i <= provenance_blocking_labels.len(),
            forall|k: int|
                0 <= k < i ==> !labelled(
                    pr.fact.labels@,
                    (#[trigger] provenance_blocking_labels@[k])@,
                ),
        decreases provenance_blocking_labels.len() - i,
    {
        if is_labelled(&pr.fact.labels, provenance_blocking_labels[i].as_str()) {
            return true;
        }
        i = i + 1;
    }
    false
}

/// Whether a pull request is managed: it carries the label, and its head has
/// the handoff's successful status.
pub open spec fn managed(pr: ObservedPr, managed_label: Seq<char>, handed_off: bool) -> bool {
    labelled(pr.fact.labels@, managed_label) && handed_off
}

/// Whether a pull request is managed. `handed_off` says whether its exact head
/// has the handoff's successful status.
pub fn pull_request_is_managed(pr: &ObservedPr, managed_label: &str, handed_off: bool) -> (r: bool)
    ensures
        r == managed(*pr, managed_label@, handed_off),
{
    is_labelled(&pr.fact.labels, managed_label) && handed_off
}

/// Whether a change of management leaves the steward its authority: a pull
/// request that was managed must still be.
pub fn management_transition_valid(
    initial: &ObservedPr,
    initial_handed_off: bool,
    live: &ObservedPr,
    live_handed_off: bool,
    managed_label: &str,
) -> (r: bool)
    ensures
        r == (managed(*initial, managed_label@, initial_handed_off) ==> managed(
            *live,
            managed_label@,
            live_handed_off,
        )),
{
    !pull_request_is_managed(initial, managed_label, initial_handed_off)
        || pull_request_is_managed(live, managed_label, live_handed_off)
}

/// Whether a position is the first whose pull request has a number.
pub open spec fn first_numbered(prs: Seq<ObservedPr>, number: u64, i: int) -> bool {
    &&& 0 <= i < prs.len() && prs[i].fact.number == number
    &&& forall|k: int| 0 <= k < i ==> (#[trigger] prs[k]).fact.number != number
}

/// Whether some pull request has a number.
pub open spec fn has_numbered(prs: Seq<ObservedPr>, number: u64) -> bool {
    exists|i: int| 0 <= i < prs.len() && (#[trigger] prs[i]).fact.number == number
}

/// The first pull request with a number.
pub fn find_numbered(prs: &Vec<ObservedPr>, number: u64) -> (r: Option<usize>)
    ensures
        match r {
            Some(i) => first_numbered(prs@, number, i as int),
            None => !has_numbered(prs@, number),
        },
{
    let mut i: usize = 0;
    while i < prs.len()
        invariant
            i <= prs.len(),
            forall|k: int| 0 <= k < i ==> (#[trigger] prs@[k]).fact.number != number,
        decreases prs.len() - i,
    {
        if prs[i].fact.number == number {
            return Some(i);
        }
        i = i + 1;
    }
    None
}

/// Whether the steward's ownership of an observed pull request still holds.
pub open spec fn ownership_holds(
    prs: Seq<ObservedPr>,
    handed_off: Seq<u64>,
    live: ObservedPr,
    live_handed_off: bool,
    managed_label: Seq<char>,
) -> bool {
    exists|i: int| #[trigger]
        first_numbered(prs, live.fact.number, i) && (managed(
            prs[i],
            managed_label,
            handed_off.contains(live.fact.number),
        ) ==> managed(live, managed_label, live_handed_off))
}

/// Whether the steward's ownership of an observed pull request still holds. A
/// pull request that was not observed is not owned.
pub fn managed_ownership_still_valid(
    prs: &Vec<ObservedPr>,
    handed_off: &Vec<u64>,
    live: &ObservedPr,
    live_handed_off: bool,
    managed_label: &str,
) -> (r: bool)
    ensures
        r == ownership_holds(prs@, handed_off@, *live, live_handed_off, managed_label@),
{
    match find_numbered(prs, live.fact.number) {
        Some(i) => {
            proof {
                assert forall|k: int| #[trigger]
                    first_numbered(prs@, live.fact.number, k) implies k == i by {
                    if k < i {
                        assert(prs@[k].fact.number != live.fact.number);
                    } else if i < k {
                        assert(prs@[i as int].fact.number != live.fact.number);
                    }
                }
            }
            management_transition_valid(
                &prs[i],
                has_number(handed_off, live.fact.number),
                live,
                live_handed_off,
                managed_label,
            )
        },
        None => false,
    }
}

/// Whether a number is that of a listed pull request that satisfies a predicate.
pub open spec fn numbers_where(
    prs: Seq<ObservedPr>,
    p: spec_fn(ObservedPr) -> bool,
    n: u64,
) -> bool {
    exists|i: int| 0 <= i < prs.len() && p(prs[i]) && (#[trigger] prs[i]).fact.number == n
}

/// The numbers of the pull requests whose flags are set, in increasing order.
fn flagged_numbers(prs: &Vec<ObservedPr>, flags: &Vec<bool>, p: Ghost<spec_fn(ObservedPr) -> bool>) -> (r:
    Vec<u64>)
    requires
        flags@.len() == prs@.len(),
        forall|i: int| 0 <= i < prs@.len() ==> #[trigger] flags@[i] == (p@)(prs@[i]),
    ensures
        lists_set(r@, |n: u64| numbers_where(prs@, p@, n)),
{
    let mut out: Vec<u64> = Vec::new();
    let mut i: usize = 0;
    while i < prs.len()
        invariant
            i <= prs.len(),
            flags@.len() == prs@.len(),
            forall|k: int| 0 <= k < prs@.len() ==> #[trigger] flags@[k] == (p@)(prs@[k]),
            increasing(out@),
            forall|n: u64| #[trigger]
                out@.contains(n) <==> exists|k: int|
                    0 <= k < i && (p@)(prs@[k]) && (#[trigger] prs@[k]).fact.number == n,
        decreases prs.len() - i,
    {
        let ghost before = out@;
        if flags[i] {
            add_number(&mut out, prs[i].fact.number);
        }
        proof {
            assert(flags@[i as int] == (p@)(prs@[i as int]));
            assert forall|n: u64| #[trigger]
                out@.contains(n) <==> exists|k: int|
                    0 <= k < i + 1 && (p@)(prs@[k]) && (#[trigger] prs@[k]).fact.number == n by {
                if before.contains(n) {
                    let k = choose|k: int|
                        0 <= k < i && (p@)(prs@[k]) && (#[trigger] prs@[k]).fact.number == n;
                    assert(prs@[k].fact.number == n);
                }
                if (p@)(prs@[i as int]) && prs@[i as int].fact.number == n {
                    assert(out@.contains(n));
                }
            }
        }
        i = i + 1;
    }
    out
}

/// The numbers of the pull requests that have opted out.
pub fn opted_out_pull_requests(prs: &Vec<ObservedPr>, opt_out_label: &str) -> (r: Vec<u64>)
    ensures
        lists_set(
            r@,
            |n: u64|
                numbers_where(
                    prs@,
                    |pr: ObservedPr| labelled(pr.fact.labels@, opt_out_label@),
                    n,
                ),
        ),
{
    let ghost p = |pr: ObservedPr| labelled(pr.fact.labels@, opt_out_label@);
    let mut flags: Vec<bool> = Vec::new();
    let mut i: usize = 0;
    while i < prs.len()
        invariant
            i <= prs.len(),
            flags@.len() == i,
            p == (|pr: ObservedPr| labelled(pr.fact.labels@, opt_out_label@)),
            forall|k: int| 0 <= k < i ==> #[trigger] flags@[k] == p(prs@[k]),
        decreases prs.len() - i,
    {
        flags.push(pull_request_opted_out(&prs[i], opt_out_label));
        i = i + 1;
    }
    flagged_numbers(prs, &flags, Ghost(p))
}

/// Whether a pull request's own labels take the steward's authority away.
pub open spec fn excluded_by_labels(
    pr: ObservedPr,
    opt_out_label: Seq<char>,
    blockers: Seq<String>,
) -> bool {
    labelled(pr.fact.labels@, opt_out_label) || blocked(pr, blockers)
}

/// The numbers of the pull requests whose labels take the steward's authority
/// away.
pub fn authority_excluded_pull_requests(
    prs: &Vec<ObservedPr>,
    opt_out_label: &str,
    provenance_blocking_labels: &Vec<String>,
) -> (r: Vec<u64>)
    ensures
        lists_set(
            r@,
            |n: u64|
                numbers_where(
                    prs@,
                    |pr: ObservedPr|
                        excluded_by_labels(pr, opt_out_label@, provenance_blocking_labels@),
                    n,
                ),
        ),
{
    let ghost p = |pr: ObservedPr|
        excluded_by_labels(pr, opt_out_label@, provenance_blocking_labels@);
    let mut flags: Vec<bool> = Vec::new();
    let mut i: usize = 0;
    while i < prs.len()
        invariant
            i <= prs.len(),
            flags@.len() == i,
            p == (|pr: ObservedPr|
                excluded_by_labels(pr, opt_out_label@, provenance_blocking_labels@)),
            forall|k: int| 0 <= k < i ==> #[trigger] flags@[k] == p(prs@[k]),
        decreases prs.len() - i,
    {
        flags.push(
            pull_request_opted_out(&prs[i], opt_out_label) || pull_request_provenance_blocked(
                &prs[i],
                provenance_blocking_labels,
            ),
        );
        i = i + 1;
    }
    flagged_numbers(prs, &flags, Ghost(p))
}

/// Whether a pull request is out of bounds for a cancellation: it opted out, is
/// not managed, or is blocked.
pub open spec fn excluded(
    pr: ObservedPr,
    opt_out_label: Seq<char>,
    managed_label: Seq<char>,
    handed_off: Seq<u64>,
    blockers: Seq<String>,
) -> bool {
    ||| labelled(pr.fact.labels@, opt_out_label)
    ||| !managed(pr, managed_label, handed_off.contains(pr.fact.number))
    ||| blocked(pr, blockers)
}

/// The numbers of the pull requests that are out of bounds for a cancellation.
pub fn excluded_pull_requests(
    prs: &Vec<ObservedPr>,
    opt_out_label: &str,
    managed_label: &str,
    handed_off: &Vec<u64>,
    provenance_blocking_labels: &Vec<String>,
) -> (r: Vec<u64>)
    ensures
        lists_set(
            r@,
            |n: u64|
                numbers_where(
                    prs@,
                    |pr: ObservedPr|
                        excluded(
                            pr,
                            opt_out_label@,
                            managed_label@,
                            handed_off@,
                            provenance_blocking_labels@,
                        ),
                    n,
                ),
        ),
{
    let ghost p = |pr: ObservedPr|
        excluded(
            pr,
            opt_out_label@,
            managed_label@,
            handed_off@,
            provenance_blocking_labels@,
        );
    let mut flags: Vec<bool> = Vec::new();
    let mut i: usize = 0;
    while i < prs.len()
        invariant
            i <= prs.len(),
            flags@.len() == i,
            p == (|pr: ObservedPr|
                excluded(
                    pr,
                    opt_out_label@,
                    managed_label@,
                    handed_off@,
                    provenance_blocking_labels@,
                )),
            forall|k: int| 0 <= k < i ==> #[trigger] flags@[k] == p(prs@[k]),
        decreases prs.len() - i,
    {
        flags.push(
            pull_request_opted_out(&prs[i], opt_out_label) || !pull_request_is_managed(
                &prs[i],
                managed_label,
                has_number(handed_off, prs[i].fact.number),
            ) || pull_request_provenance_blocked(&prs[i], provenance_blocking_labels),
        );
        i = i + 1;
    }
    flagged_numbers(prs, &flags, Ghost(p))
}

/// The head of each pull request; where a number occurs twice, the last counts.
pub open spec fn heads_of(prs: Seq<ObservedPr>) -> Map<u64, Seq<char>>
    decreases prs.len(),
{
    if prs.len() == 0 {
        Map::empty()
    } else {
        heads_of(prs.drop_last()).insert(prs.last().fact.number, prs.last().fact.head_sha@)
    }
}

/// The views of the texts in a map.
pub open spec fn map_views(map: Map<u64, String>) -> Map<u64, Seq<char>> {
    map.map_values(|s: String| s@)
}

/// The head of each pull request.
pub fn current_pull_request_heads(prs: &Vec<ObservedPr>) -> (r: BTreeMap<u64, String>)
    ensures
        map_views(r@) == heads_of(prs@),
{
    broadcast use vstd::std_specs::btree::group_btree_axioms;
    let mut out: BTreeMap<u64, String> = BTreeMap::new();
    let mut i: usize = 0;
    proof {
        assert(map_views(out@) =~= heads_of(prs@.take(0)));
    }
    while i < prs.len()
        invariant
            i <= prs.len(),
            map_views(out@) == heads_of(prs@.take(i as int)),
        decreases prs.len() - i,
    {
        let ghost before = out@;
        let head = prs[i].fact.head_sha.clone();
        let ghost text = head@;
        let _ = out.insert(prs[i].fact.number, head);
        proof {
            assert(prs@.take(i + 1).drop_last() =~= prs@.take(i as int));
            assert(map_views(out@) =~= map_views(before).insert(
                prs@[i as int].fact.number,
                text,
            ));
        }
        i = i + 1;
    }
    proof {
        assert(prs@.take(prs@.len() as int) =~= prs@);
    }
    out
}

/// A pull request is out of bounds for a cancellation as soon as one of its labels is the
/// one that opts out or a blocking one, in any letter case, and whenever it does not
/// carry the label of the steward or its head was not handed off.
pub proof fn each_exclusion_is_enough(
    pr: ObservedPr,
    opt_out_label: Seq<char>,
    managed_label: Seq<char>,
    handed_off: Seq<u64>,
    blockers: Seq<String>,
    label: int,
    blocker: int,
)
    requires
        0 <= label < pr.fact.labels@.len(),
        0 <= blocker < blockers.len(),
    ensures
        same_ignoring_case(pr.fact.labels@[label]@, opt_out_label) ==> excluded(
            pr,
            opt_out_label,
            managed_label,
            handed_off,
            blockers,
        ) && excluded_by_labels(pr, opt_out_label, blockers),
        same_ignoring_case(pr.fact.labels@[label]@, blockers[blocker]@) ==> excluded(
            pr,
            opt_out_label,
            managed_label,
            handed_off,
            blockers,
        ) && excluded_by_labels(pr, opt_out_label, blockers),
        !handed_off.contains(pr.fact.number) ==> excluded(
            pr,
            opt_out_label,
            managed_label,
            handed_off,
            blockers,
        ),
        !labelled(pr.fact.labels@, managed_label) ==> excluded(
            pr,
            opt_out_label,
            managed_label,
            handed_off,
            blockers,
        ),
{
    let labels = pr.fact.labels@;
    if same_ignoring_case(labels[label]@, blockers[blocker]@) {
        assert(labelled(labels, blockers[blocker]@));
    }
}

/// A pull request of the steward's that was handed off and carries neither the label
/// that opts out nor a blocking one is in bounds.
pub proof fn nothing_else_excludes(
    pr: ObservedPr,
    opt_out_label: Seq<char>,
    managed_label: Seq<char>,
    handed_off: Seq<u64>,
    blockers: Seq<String>,
)
    requires
        labelled(pr.fact.labels@, managed_label),
        handed_off.contains(pr.fact.number),
        forall|i: int|
            0 <= i < pr.fact.labels@.len() ==> !same_ignoring_case(
                (#[trigger] pr.fact.labels@[i])@,
                opt_out_label,
            ),
        forall|i: int, k: int|
            0 <= i < pr.fact.labels@.len() && 0 <= k < blockers.len() ==> !same_ignoring_case(
                (#[trigger] pr.fact.labels@[i])@,
                (#[trigger] blockers[k])@,
            ),
    ensures
        !excluded(pr, opt_out_label, managed_label, handed_off, blockers),
        !excluded_by_labels(pr, opt_out_label, blockers),
{
}

/// Two runs are the same attempt whichever of them is looked at first, and a run is the
/// same attempt as itself.
pub proof fn being_the_same_attempt_goes_both_ways(a: StewardRun, b: StewardRun)
    ensures
        same_attempt(a, a),
        same_attempt(a, b) <==> same_attempt(b, a),
        same_attempt(a, b) ==> a.run_attempt == b.run_attempt && a.workflow_id == b.workflow_id,
        a.run_attempt == b.run_attempt && a.workflow_id == b.workflow_id && a.head_sha@
            == b.head_sha@ ==> same_attempt(a, b),
{
}

/// The head of a pull request is that of the last one listed with its number, and a
/// number that is not listed has none.
pub proof fn the_last_head_counts(prs: Seq<ObservedPr>, i: int)
    requires
        0 <= i < prs.len(),
        forall|k: int| i < k < prs.len() ==> (#[trigger] prs[k]).fact.number != prs[i].fact.number,
    ensures
        heads_of(prs).dom().contains(prs[i].fact.number),
        heads_of(prs)[prs[i].fact.number] == prs[i].fact.head_sha@,
    decreases prs.len(),
{
    if i < prs.len() - 1 {
        let before = prs.drop_last();
        assert(before[i] == prs[i]);
        assert(prs[prs.len() - 1].fact.number != prs[i].fact.number);
        assert forall|k: int| i < k < before.len() implies (#[trigger] before[k]).fact.number
            != before[i].fact.number by {
            assert(before[k] == prs[k]);
        }
        the_last_head_counts(before, i);
    }
}

} // verus!
