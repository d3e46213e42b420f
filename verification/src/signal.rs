//! How the steward says that a pull request needs an agent: the labels and the
//! status that it keeps in line, and the facts that it hands on.
use vstd::prelude::*;
use vstd::relations::{sorted_by, total_ordering};

use crate::fingerprint::{digest_components, fingerprint, framed_all, framing_is_unambiguous};
use crate::model::{
    ObservedPr, RequiredCheck, StewardCheck, StewardDecision, StewardPolicy, NEEDS_AGENT_LABEL,
    RECOVERY_CONTEXT, UNMANAGED_LABEL,
};
use crate::outside::{hex_reads_back, sha256_digest};
use crate::revalidation::{is_labelled, labelled};
use crate::text::{
    byte_length, concat, concat3, concat4, decimal, decimal_reads_back, eq_ignore_case, first_chars, is_digit,
    lower, opt_view, or_text, same_ignoring_case, str_eq, str_lt, strictly_sorted, take_chars,
    text_lt, text_lt_irreflexive, text_lt_total, text_lt_transitive, to_decimal, to_lower, to_upper,
    upper, views,
};
use crate::text_map::TextMap;

verus! {

/// Whether a pull request has a label.
pub fn has_label(pr: &ObservedPr, label: &str) -> (r: bool)
    ensures
        r == labelled(pr.fact.labels@, label@),
{
    is_labelled(&pr.fact.labels, label)
}

/// When a check was last heard of; one that does not say so, before all others.
pub open spec fn heard_at(check: StewardCheck) -> Seq<char> {
    or_text(opt_view(check.observed_at), ""@)
}

/// Whether a check is the recovery status.
pub open spec fn is_recovery(check: StewardCheck) -> bool {
    same_ignoring_case(check.name@, RECOVERY_CONTEXT@)
}

/// Whether a position is that of the latest recovery status: of those heard of
/// at the same time, the last.
pub open spec fn latest_recovery(checks: Seq<StewardCheck>, i: int) -> bool {
    &&& 0 <= i < checks.len() && is_recovery(checks[i])
    &&& forall|k: int|
        0 <= k < checks.len() && is_recovery(#[trigger] checks[k]) ==> !text_lt(
            heard_at(checks[i]),
            heard_at(checks[k]),
        ) && (heard_at(checks[i]) == heard_at(checks[k]) ==> k <= i)
}

/// Whether there is a recovery status.
pub open spec fn any_recovery(checks: Seq<StewardCheck>) -> bool {
    exists|k: int| 0 <= k < checks.len() && is_recovery(#[trigger] checks[k])
}

/// There is at most one latest recovery status.
pub proof fn latest_recovery_is_unique(checks: Seq<StewardCheck>, i: int, j: int)
    requires
        latest_recovery(checks, i),
        latest_recovery(checks, j),
    ensures
        i == j,
{
    text_lt_total(heard_at(checks[i]), heard_at(checks[j]));
}

/// What the latest recovery status says.
pub open spec fn recovery_state(checks: Seq<StewardCheck>) -> Option<Seq<char>> {
    if any_recovery(checks) {
        opt_view(checks[choose|i: int| latest_recovery(checks, i)].conclusion)
    } else {
        None
    }
}

fn heard(check: &StewardCheck) -> (r: &str)
    ensures
        r@ == heard_at(*check),
{
    match &check.observed_at {
        Some(at) => at.as_str(),
        None => "",
    }
}

fn latest_position(checks: &Vec<StewardCheck>) -> (r: Option<usize>)
    ensures
        match r {
            Some(i) => latest_recovery(checks@, i as int),
            None => !any_recovery(checks@),
        },
{
    let mut best: Option<usize> = None;
    let mut i: usize = 0;
    while i < checks.len()
        invariant
            i <= checks.len(),
            match best {
                None => forall|k: int| 0 <= k < i ==> !is_recovery(#[trigger] checks@[k]),
                Some(b) => b < i && is_recovery(checks@[b as int]) && forall|k: int|
                    0 <= k < i && is_recovery(#[trigger] checks@[k]) ==> !text_lt(
                        heard_at(checks@[b as int]),
                        heard_at(checks@[k]),
                    ) && (heard_at(checks@[b as int]) == heard_at(checks@[k]) ==> k <= b),
            },
        decreases checks.len() - i,
    {
        if eq_ignore_case(checks[i].name.as_str(), RECOVERY_CONTEXT) {
            let newer = match best {
                None => true,
                Some(b) => !str_lt(heard(&checks[i]), heard(&checks[b])),
            };
            proof {
                let x = heard_at(checks@[i as int]);
                text_lt_irreflexive(x);
                if best is Some {
                    let b = best->Some_0 as int;
                    let y = heard_at(checks@[b]);
                    text_lt_total(x, y);
                    assert forall|k: int| 0 <= k < i && is_recovery(#[trigger] checks@[k])
                        && newer implies !text_lt(x, heard_at(checks@[k])) by {
                        let z = heard_at(checks@[k]);
                        if text_lt(x, z) {
                            text_lt_total(y, z);
                            if text_lt(y, x) {
                                text_lt_transitive(y, x, z);
                            }
                        }
                    }
                    if !newer {
                        if text_lt(y, x) {
                            text_lt_transitive(x, y, x);
                        }
                    }
                }
            }
            if newer {
                best = Some(i);
            }
        }
        i = i + 1;
    }
    best
}

/// What the latest recovery status says.
pub fn latest_recovery_state(pr: &ObservedPr) -> (r: Option<&String>)
    ensures
        crate::text::opt_ref_view(r) == recovery_state(pr.fact.checks@),
{
    match latest_position(&pr.fact.checks) {
        None => None,
        Some(i) => {
            proof {
                let c = choose|c: int| latest_recovery(pr.fact.checks@, c);
                latest_recovery_is_unique(pr.fact.checks@, i as int, c);
                assert(is_recovery(pr.fact.checks@[i as int]));
            }
            pr.fact.checks[i].conclusion.as_ref()
        },
    }
}

/// Whether a pull request carries the label for being unmanaged exactly where it
/// should.
pub fn management_label_is_converged(pr: &ObservedPr, unmanaged: bool) -> (r: bool)
    ensures
        r == (labelled(pr.fact.labels@, UNMANAGED_LABEL@) == unmanaged),
        r && unmanaged ==> labelled(pr.fact.labels@, UNMANAGED_LABEL@),
        r && !unmanaged ==> !labelled(pr.fact.labels@, UNMANAGED_LABEL@),
        !r ==> (unmanaged <==> !labelled(pr.fact.labels@, UNMANAGED_LABEL@)),
{
    has_label(pr, UNMANAGED_LABEL) == unmanaged
}

/// Whether label and status say that a pull request needs an agent, or that it
/// does not: where they contradict one another, neither.
pub open spec fn signal_converged(pr: ObservedPr, needs_agent: bool) -> bool {
    let told = labelled(pr.fact.labels@, NEEDS_AGENT_LABEL@);
    let failing = recovery_state(pr.fact.checks@) == Some("FAILURE"@);
    if needs_agent {
        told && failing
    } else {
        !told && !failing
    }
}

/// Whether label and status say what they should.
pub fn signal_is_converged(pr: &ObservedPr, needs_agent: bool) -> (r: bool)
    ensures
        r == signal_converged(*pr, needs_agent),
{
    let told = has_label(pr, NEEDS_AGENT_LABEL);
    let failing = crate::text::opt_is(latest_recovery_state(pr), "FAILURE");
    if needs_agent {
        told && failing
    } else {
        !told && !failing
    }
}

/// A signal never says both that an agent is needed and that none is.
pub proof fn signal_is_never_both(pr: ObservedPr)
    ensures
        !(signal_converged(pr, true) && signal_converged(pr, false)),
{
}

/// The most characters of a description.
pub const DESCRIPTION_CHARS: usize = 140;

/// A description, cut where it is too long.
pub fn truncate_description(value: &str) -> (r: String)
    ensures
        r@ == first_chars(value@, DESCRIPTION_CHARS as nat),
{
    take_chars(value, DESCRIPTION_CHARS)
}

/// A fact about why a pull request needs an agent.
#[derive(Clone, Debug, PartialEq, Eq)]
pub enum RecoveryFailureFact {
    MergeState { state: String },
    RequiredCheck {
        context: String,
        app_id: Option<u64>,
        conclusion: String,
        run_id: Option<u64>,
    },
}

/// What a fact says.
pub enum FactView {
    MergeState(Seq<char>),
    RequiredCheck(Seq<char>, Option<u64>, Seq<char>, Option<u64>),
}

impl View for RecoveryFailureFact {
    type V = FactView;

    open spec fn view(&self) -> FactView {
        match *self {
            RecoveryFailureFact::MergeState { state } => FactView::MergeState(state@),
            RecoveryFailureFact::RequiredCheck { context, app_id, conclusion, run_id } =>
                FactView::RequiredCheck(context@, app_id, conclusion@, run_id),
        }
    }
}

/// What a list of facts says.
pub open spec fn fact_views(facts: Seq<RecoveryFailureFact>) -> Seq<FactView> {
    Seq::new(facts.len(), |i: int| facts[i]@)
}

/// Who produces a check, as a text.
pub open spec fn producer_text(app_id: Option<u64>) -> Seq<char> {
    match app_id {
        Some(id) => "app_id="@ + decimal(id as nat),
        None => "unbound"@,
    }
}

/// A run, as a text.
pub open spec fn run_text(run_id: Option<u64>) -> Seq<char> {
    match run_id {
        Some(id) => decimal(id as nat),
        None => "no_run"@,
    }
}

/// A fact in one line.
pub open spec fn fact_text(fact: FactView) -> Seq<char> {
    match fact {
        FactView::MergeState(state) => "merge_state:"@ + state,
        FactView::RequiredCheck(context, app_id, conclusion, run_id) => "required_check:"@ + context
            + ":"@ + producer_text(app_id) + ":conclusion="@ + conclusion + ":run_id="@ + run_text(
            run_id,
        ),
    }
}

/// A fact in one line.
pub fn failure_fact_component(fact: &RecoveryFailureFact) -> (r: String)
    ensures
        r@ == fact_text(fact@),
{
    match fact {
        RecoveryFailureFact::MergeState { state } => concat("merge_state:", state.as_str()),
        RecoveryFailureFact::RequiredCheck { context, app_id, conclusion, run_id } => {
            let producer = match app_id {
                Some(id) => concat("app_id=", to_decimal(*id).as_str()),
                None => "unbound".to_owned(),
            };
            let run = match run_id {
                Some(id) => to_decimal(*id),
                None => "no_run".to_owned(),
            };
            let mut out: String = concat4(
                "required_check:",
                context.as_str(),
                ":",
                producer.as_str(),
            );
            out.append(":conclusion=");
            out.append(conclusion.as_str());
            out.append(":run_id=");
            out.append(run.as_str());
            out
        },
    }
}

/// Whether a conclusion, in capitals, is that of a failed check.
pub open spec fn failing_conclusion(c: Seq<char>) -> bool {
    ||| c == "ACTION_REQUIRED"@
    ||| c == "CANCELLED"@
    ||| c == "FAILURE"@
    ||| c == "STALE"@
    ||| c == "STARTUP_FAILURE"@
    ||| c == "TIMED_OUT"@
}

fn is_failing_conclusion(c: &str) -> (r: bool)
    ensures
        r == failing_conclusion(c@),
{
    str_eq(c, "ACTION_REQUIRED") || str_eq(c, "CANCELLED") || str_eq(c, "FAILURE") || str_eq(
        c,
        "STALE",
    ) || str_eq(c, "STARTUP_FAILURE") || str_eq(c, "TIMED_OUT")
}

/// Whether a position is that of the only required check with a label.
pub open spec fn sole_label(checks: Seq<RequiredCheck>, label: Seq<char>, i: int) -> bool {
    &&& 0 <= i < checks.len() && checks[i].spec_label() == label
    &&& forall|k: int|
        0 <= k < checks.len() && (#[trigger] checks[k]).spec_label() == label ==> k == i
}

/// What is wrong with a label.
pub open spec fn label_error(label: Seq<char>, what: Seq<char>) -> Seq<char> {
    "required-check display label `"@ + label + "` "@ + what
}

/// The fact that a failed required check stands for: `selected` is the check
/// that counts for it.
pub open spec fn required_fact(
    label: Seq<char>,
    checks: Seq<RequiredCheck>,
    selected: Option<StewardCheck>,
) -> Result<FactView, Seq<char>> {
    if !(exists|i: int| sole_label(checks, label, i)) {
        Err(label_error(label, "does not map to exactly one structured policy identity"@))
    } else {
        let required = checks[choose|i: int| sole_label(checks, label, i)];
        match selected {
            None => Err(label_error(label, "has no selected current check"@)),
            Some(check) => if !same_ignoring_case(check.status@, "COMPLETED"@) {
                Err(label_error(label, "selected a non-terminal check"@))
            } else {
                match opt_view(check.conclusion) {
                    None => Err(
                        label_error(label, "selected a completed check without a conclusion"@),
                    ),
                    Some(c) => if c.len() == 0 {
                        Err(label_error(label, "selected a completed check without a conclusion"@))
                    } else if !failing_conclusion(upper(c)) {
                        Err(
                            label_error(label, "selected non-failing conclusion `"@ + upper(c) + "`"@),
                        )
                    } else {
                        Ok(
                            FactView::RequiredCheck(
                                required.context@,
                                required.app_id,
                                upper(c),
                                check.run_id,
                            ),
                        )
                    },
                }
            },
        }
    }
}

/// The facts that the failed required checks stand for, or what is wrong with the
/// first that stands for none.
pub open spec fn required_facts(
    labels: Seq<String>,
    checks: Seq<RequiredCheck>,
    selected: Seq<Option<StewardCheck>>,
) -> Result<Seq<FactView>, Seq<char>>
    decreases labels.len(),
{
    if labels.len() == 0 {
        Ok(Seq::empty())
    } else {
        match required_facts(labels.drop_last(), checks, selected) {
            Err(e) => Err(e),
            Ok(facts) => match required_fact(
                labels.last()@,
                checks,
                selected[labels.len() - 1],
            ) {
                Err(e) => Err(e),
                Ok(fact) => Ok(facts.push(fact)),
            },
        }
    }
}

/// Whether a list holds the given facts, each once, in the order of their lines.
pub open spec fn sorted_facts(list: Seq<FactView>, given: Seq<FactView>) -> bool {
    &&& strictly_sorted(Seq::new(list.len(), |i: int| fact_text(list[i])))
    &&& forall|f: FactView| #[trigger] list.contains(f) <==> given.contains(f)
}

fn label_text(label: &str, what: &str) -> (r: String)
    ensures
        r@ == label_error(label@, what@),
{
    concat4("required-check display label `", label, "` ", what)
}

fn find_label(checks: &Vec<RequiredCheck>, label: &str) -> (r: Option<usize>)
    ensures
        match r {
            Some(i) => sole_label(checks@, label@, i as int),
            None => forall|i: int| !#[trigger] sole_label(checks@, label@, i),
        },
{
    let mut found: Option<usize> = None;
    let mut i: usize = 0;
    while i < checks.len()
        invariant
            i <= checks.len(),
            match found {
                None => forall|k: int|
                    0 <= k < i ==> (#[trigger] checks@[k]).spec_label() != label@,
                Some(j) => j < i && checks@[j as int].spec_label() == label@ && forall|k: int|
                    0 <= k < i && (#[trigger] checks@[k]).spec_label() == label@ ==> k == j,
            },
        decreases checks.len() - i,
    {
        if str_eq(checks[i].label().as_str(), label) {
            match found {
                None => {
                    found = Some(i);
                },
                Some(j) => {
                    proof {
                        assert forall|k: int| !#[trigger] sole_label(checks@, label@, k) by {
                            assert(checks@[i as int].spec_label() == label@);
                            assert(checks@[j as int].spec_label() == label@);
                        }
                    }
                    return None;
                },
            }
        }
        i = i + 1;
    }
    found
}

fn required_failure(
    label: &str,
    checks: &Vec<RequiredCheck>,
    selected: &Option<StewardCheck>,
) -> (r: Result<RecoveryFailureFact, String>)
    ensures
        match (r, required_fact(label@, checks@, *selected)) {
            (Ok(fact), Ok(view)) => fact@ == view,
            (Err(e), Err(m)) => e@ == m,
            _ => false,
        },
{
    let i = match find_label(checks, label) {
        Some(i) => i,
        None => return Err(
            label_text(label, "does not map to exactly one structured policy identity"),
        ),
    };
    proof {
        let c = choose|c: int| sole_label(checks@, label@, c);
        assert(sole_label(checks@, label@, i as int));
        assert(c == i);
    }
    let check = match selected {
        Some(check) => check,
        None => return Err(label_text(label, "has no selected current check")),
    };
    if !eq_ignore_case(check.status.as_str(), "COMPLETED") {
        return Err(label_text(label, "selected a non-terminal check"));
    }
    let raw = match &check.conclusion {
        Some(raw) => raw,
        None => return Err(label_text(label, "selected a completed check without a conclusion")),
    };
    if raw.as_str().is_empty() {
        return Err(label_text(label, "selected a completed check without a conclusion"));
    }
    let conclusion = to_upper(raw.as_str());
    if !is_failing_conclusion(conclusion.as_str()) {
        let what = concat3("selected non-failing conclusion `", conclusion.as_str(), "`");
        return Err(label_text(label, what.as_str()));
    }
    Ok(
        RecoveryFailureFact::RequiredCheck {
            context: checks[i].context.clone(),
            app_id: checks[i].app_id,
            conclusion,
            run_id: check.run_id,
        },
    )
}

/// Whether a text has no colon.
pub open spec fn colonless(s: Seq<char>) -> bool {
    forall|i: int| 0 <= i < s.len() ==> #[trigger] s[i] != ':'
}

proof fn last_colon(a: Seq<char>, x: Seq<char>, b: Seq<char>, y: Seq<char>)
    requires
        a + ":"@ + x == b + ":"@ + y,
        colonless(x),
        colonless(y),
    ensures
        a == b,
        x == y,
{
    reveal_strlit(":");
    let s = a + ":"@ + x;
    let t = b + ":"@ + y;
    assert(s.len() == a.len() + 1 + x.len());
    assert(t.len() == b.len() + 1 + y.len());
    assert(s[a.len() as int] == ':');
    assert(t[b.len() as int] == ':');
    if a.len() < b.len() {
        let i = b.len() - a.len() - 1;
        assert(s[b.len() as int] == x[i]);
    } else if b.len() < a.len() {
        let i = a.len() - b.len() - 1;
        assert(t[a.len() as int] == y[i]);
    }
    assert(a =~= s.take(a.len() as int));
    assert(b =~= t.take(b.len() as int));
    assert(x =~= s.skip(a.len() as int + 1));
    assert(y =~= t.skip(b.len() as int + 1));
}

proof fn decimal_is_colonless(n: nat)
    ensures
        colonless(decimal(n)),
        decimal(n).len() > 0,
        is_digit(decimal(n)[0]),
{
    crate::text::decimal_digits(n);
    assert forall|i: int| 0 <= i < decimal(n).len() implies #[trigger] decimal(n)[i] != ':' by {
        assert(is_digit(decimal(n)[i]));
    }
    assert(is_digit(decimal(n)[0]));
}

proof fn producers_differ(a: Option<u64>, b: Option<u64>)
    ensures
        colonless(producer_text(a)),
        producer_text(a) == producer_text(b) ==> a == b,
{
    reveal_strlit("app_id=");
    reveal_strlit("unbound");
    match a {
        Some(n) => {
            decimal_is_colonless(n as nat);
            assert(producer_text(a)[0] == 'a');
            assert(producer_text(a).skip(7) =~= decimal(n as nat));
            decimal_reads_back(n as nat);
        },
        None => {},
    }
    match b {
        Some(n) => {
            assert(producer_text(b)[0] == 'a');
            assert(producer_text(b).skip(7) =~= decimal(n as nat));
            decimal_reads_back(n as nat);
        },
        None => {},
    }
}

proof fn runs_differ(a: Option<u64>, b: Option<u64>)
    ensures
        colonless(run_text(a)),
        run_text(a) == run_text(b) ==> a == b,
{
    reveal_strlit("no_run");
    match a {
        Some(n) => {
            decimal_is_colonless(n as nat);
            decimal_reads_back(n as nat);
        },
        None => {},
    }
    match b {
        Some(n) => {
            decimal_is_colonless(n as nat);
            decimal_reads_back(n as nat);
        },
        None => {},
    }
}

proof fn conclusions_are_colonless(c: Seq<char>)
    requires
        failing_conclusion(c),
    ensures
        colonless(c),
{
    reveal_strlit("ACTION_REQUIRED");
    reveal_strlit("CANCELLED");
    reveal_strlit("FAILURE");
    reveal_strlit("STALE");
    reveal_strlit("STARTUP_FAILURE");
    reveal_strlit("TIMED_OUT");
}

/// The lines of two failed required checks are the same only where the facts are.
pub proof fn fact_lines_differ(a: FactView, b: FactView)
    requires
        a matches FactView::RequiredCheck(_, _, conclusion, _) && failing_conclusion(conclusion),
        b matches FactView::RequiredCheck(_, _, conclusion, _) && failing_conclusion(conclusion),
        fact_text(a) == fact_text(b),
    ensures
        a == b,
{
    let (c1, p1, k1, r1) = match a {
        FactView::RequiredCheck(c, p, k, r) => (c, p, k, r),
        FactView::MergeState(s) => (s, None, s, None),
    };
    let (c2, p2, k2, r2) = match b {
        FactView::RequiredCheck(c, p, k, r) => (c, p, k, r),
        FactView::MergeState(s) => (s, None, s, None),
    };
    reveal_strlit(":conclusion=");
    reveal_strlit(":run_id=");
    reveal_strlit("conclusion=");
    reveal_strlit("run_id=");
    reveal_strlit(":");
    producers_differ(p1, p2);
    producers_differ(p2, p1);
    runs_differ(r1, r2);
    runs_differ(r2, r1);
    conclusions_are_colonless(k1);
    conclusions_are_colonless(k2);
    let head1 = "required_check:"@ + c1;
    let head2 = "required_check:"@ + c2;
    let mid1 = head1 + ":"@ + producer_text(p1);
    let mid2 = head2 + ":"@ + producer_text(p2);
    let tail1 = mid1 + ":"@ + ("conclusion="@ + k1);
    let tail2 = mid2 + ":"@ + ("conclusion="@ + k2);
    assert(tail1 =~= mid1 + ":conclusion="@ + k1);
    assert(tail2 =~= mid2 + ":conclusion="@ + k2);
    assert(fact_text(a) =~= tail1 + ":"@ + ("run_id="@ + run_text(r1)));
    assert(fact_text(b) =~= tail2 + ":"@ + ("run_id="@ + run_text(r2)));
    assert(colonless("run_id="@ + run_text(r1)));
    assert(colonless("run_id="@ + run_text(r2)));
    assert(colonless("conclusion="@ + k1));
    assert(colonless("conclusion="@ + k2));
    last_colon(tail1, "run_id="@ + run_text(r1), tail2, "run_id="@ + run_text(r2));
    last_colon(mid1, "conclusion="@ + k1, mid2, "conclusion="@ + k2);
    last_colon(head1, producer_text(p1), head2, producer_text(p2));
    assert(("run_id="@ + run_text(r1)).skip(7) =~= run_text(r1));
    assert(("run_id="@ + run_text(r2)).skip(7) =~= run_text(r2));
    assert(("conclusion="@ + k1).skip(11) =~= k1);
    assert(("conclusion="@ + k2).skip(11) =~= k2);
    let n = "required_check:"@.len() as int;
    assert(head1.skip(n) =~= c1);
    assert(head2.skip(n) =~= c2);
}

impl RecoveryFailureFact {
    /// A copy of the fact.
    pub fn dup(&self) -> (r: Self)
        ensures
            r@ == self@,
    {
        match self {
            RecoveryFailureFact::MergeState { state } => RecoveryFailureFact::MergeState {
                state: state.clone(),
            },
            RecoveryFailureFact::RequiredCheck { context, app_id, conclusion, run_id } =>
                RecoveryFailureFact::RequiredCheck {
                context: context.clone(),
                app_id: *app_id,
                conclusion: conclusion.clone(),
                run_id: *run_id,
            },
        }
    }
}

/// Whether a fact is that of a failed required check.
pub open spec fn is_required_failure(fact: FactView) -> bool {
    fact matches FactView::RequiredCheck(_, _, conclusion, _) && failing_conclusion(conclusion)
}

proof fn required_facts_fail(
    labels: Seq<String>,
    checks: Seq<RequiredCheck>,
    selected: Seq<Option<StewardCheck>>,
)
    ensures
        required_facts(labels, checks, selected) matches Ok(facts) ==> forall|i: int|
            0 <= i < facts.len() ==> is_required_failure(#[trigger] facts[i]),
    decreases labels.len(),
{
    if labels.len() > 0 {
        required_facts_fail(labels.drop_last(), checks, selected);
    }
}

proof fn required_facts_prefix(
    labels: Seq<String>,
    checks: Seq<RequiredCheck>,
    selected: Seq<Option<StewardCheck>>,
    n: int,
)
    requires
        0 <= n <= labels.len(),
        required_facts(labels.take(n), checks, selected) is Err,
    ensures
        required_facts(labels, checks, selected) == required_facts(
            labels.take(n),
            checks,
            selected,
        ),
    decreases labels.len() - n,
{
    if n < labels.len() {
        assert(labels.take(n + 1).drop_last() =~= labels.take(n));
        required_facts_prefix(labels, checks, selected, n + 1);
    } else {
        assert(labels.take(n) =~= labels);
    }
}

/// The given facts, each once, in the order of their lines.
#[verifier::loop_isolation(false)]
fn sort_facts(facts: &Vec<RecoveryFailureFact>) -> (r: Vec<RecoveryFailureFact>)
    requires
        forall|i: int| 0 <= i < facts@.len() ==> is_required_failure((#[trigger] facts@[i])@),
    ensures
        sorted_facts(fact_views(r@), fact_views(facts@)),
{
    let ghost given = fact_views(facts@);
    let mut map: TextMap<RecoveryFailureFact> = TextMap::new();
    let mut i: usize = 0;
    while i < facts.len()
        invariant
            i <= facts.len(),
            forall|k: Seq<char>| #[trigger]
                map@.dom().contains(k) ==> fact_text(map@[k]@) == k && given.take(
                    i as int,
                ).contains(map@[k]@),
            forall|j: int|
                0 <= j < i ==> map@.dom().contains(fact_text(#[trigger] given[j]))
                    && map@[fact_text(given[j])]@ == given[j],
        decreases facts.len() - i,
    {
        let ghost before = map@;
        let key = failure_fact_component(&facts[i]);
        let copy = facts[i].dup();
        map.insert(key, copy);
        proof {
            let shorter = given.take(i as int);
            let longer = given.take(i + 1);
            assert(given[i as int] == facts@[i as int]@);
            assert forall|k: Seq<char>| #[trigger] map@.dom().contains(k) implies fact_text(
                map@[k]@,
            ) == k && longer.contains(map@[k]@) by {
                if k == fact_text(given[i as int]) {
                    assert(longer[i as int] == given[i as int]);
                } else {
                    assert(before.dom().contains(k));
                    let j = choose|j: int| 0 <= j < shorter.len() && shorter[j] == before[k]@;
                    assert(longer[j] == shorter[j]);
                }
            }
            assert forall|j: int| 0 <= j < i + 1 implies map@.dom().contains(
                fact_text(#[trigger] given[j]),
            ) && map@[fact_text(given[j])]@ == given[j] by {
                assert(given[j] == facts@[j]@);
                if fact_text(given[j]) == fact_text(given[i as int]) {
                    fact_lines_differ(given[j], given[i as int]);
                }
            }
        }
        i = i + 1;
    }
    proof {
        assert(given.take(i as int) =~= given);
    }
    let n: usize = map.len();
    let ghost keys = map.keys();
    let mut out: Vec<RecoveryFailureFact> = Vec::new();
    let mut k: usize = 0;
    while k < n
        invariant
            k <= n,
            n == keys.len(),
            keys == map.keys(),
            out@.len() == k,
            forall|q: int|
                0 <= q < k ==> map@.dom().contains(#[trigger] keys[q]) && out@[q]@
                    == map@[keys[q]]@,
        decreases n - k,
    {
        let value = map.value_at(k).dup();
        out.push(value);
        k = k + 1;
    }
    proof {
        let list = fact_views(out@);
        let lines = Seq::new(list.len(), |i: int| fact_text(list[i]));
        assert forall|q: int| 0 <= q < lines.len() implies #[trigger] lines[q] == keys[q] by {
            assert(map@.dom().contains(keys[q]));
        }
        assert(lines =~= keys);
        map.lemma_keys();
        assert forall|f: FactView| #[trigger] list.contains(f) <==> given.contains(f) by {
            if list.contains(f) {
                let q = choose|q: int| 0 <= q < list.len() && list[q] == f;
                assert(map@.dom().contains(keys[q]));
                assert(given.contains(map@[keys[q]]@));
            }
            if given.contains(f) {
                let j = choose|j: int| 0 <= j < given.len() && given[j] == f;
                assert(map@.dom().contains(fact_text(given[j])));
                assert(keys.contains(fact_text(f)));
                let q = choose|q: int| 0 <= q < keys.len() && keys[q] == fact_text(f);
                assert(list[q] == map@[keys[q]]@);
                assert(list[q] == f);
            }
        }
    }
    out
}

/// Whether a summary and facts are those of a decision.
pub open spec fn tells_failure(
    r: (String, Vec<RecoveryFailureFact>),
    summary: Seq<char>,
    facts: Seq<FactView>,
) -> bool {
    r.0@ == summary && sorted_facts(fact_views(r.1@), facts)
}

/// Why a pull request needs an agent: the state of its merge, or the required
/// checks that failed. `selected` holds, for each failed label, the check that
/// counts for it. Nothing that contributors wrote is handed on.
pub fn normalized_recovery_facts(
    decision: &StewardDecision,
    policy: &StewardPolicy,
    selected: &Vec<Option<StewardCheck>>,
) -> (r: Result<Option<(String, Vec<RecoveryFailureFact>)>, String>)
    requires
        decision matches StewardDecision::RequiredFailed { contexts } ==> selected@.len()
            == contexts@.len(),
    ensures
        match *decision {
            StewardDecision::NeedsUpdate { merge_state } => r matches Ok(Some(told)) && told.0@
                == "pull request requires an exact-head update"@ && fact_views(told.1@) == seq![
                FactView::MergeState(upper(merge_state@)),
            ],
            StewardDecision::RequiredFailed { contexts } => match required_facts(
                contexts@,
                policy.required_checks@,
                selected@,
            ) {
                Err(m) => r matches Err(e) && e@ == m,
                Ok(facts) => r matches Ok(Some(told)) && tells_failure(
                    told,
                    "one or more required checks failed"@,
                    facts,
                ),
            },
            _ => r matches Ok(None),
        },
        r matches Ok(None) <==> !(decision is NeedsUpdate) && !(decision is RequiredFailed),
        r matches Ok(Some(told)) ==> (decision is NeedsUpdate ==> told.1@.len() == 1 && told.1@[0]
            is MergeState),
        r is Err ==> decision is RequiredFailed,
{
    match decision {
        StewardDecision::NeedsUpdate { merge_state } => {
            let mut facts: Vec<RecoveryFailureFact> = Vec::new();
            facts.push(
                RecoveryFailureFact::MergeState { state: to_upper(merge_state.as_str()) },
            );
            proof {
                assert(fact_views(facts@) =~= seq![FactView::MergeState(upper(merge_state@))]);
            }
            Ok(Some(("pull request requires an exact-head update".to_owned(), facts)))
        },
        StewardDecision::RequiredFailed { contexts } => {
            let mut facts: Vec<RecoveryFailureFact> = Vec::new();
            let mut i: usize = 0;
            proof {
                assert(contexts@.take(0) =~= Seq::<String>::empty());
                assert(fact_views(facts@) =~= Seq::<FactView>::empty());
            }
            while i < contexts.len()
                invariant
                    i <= contexts.len(),
                    selected@.len() == contexts@.len(),
                    decision == (StewardDecision::RequiredFailed { contexts: *contexts }),
                    required_facts(
                        contexts@.take(i as int),
                        policy.required_checks@,
                        selected@,
                    ) == Ok::<Seq<FactView>, Seq<char>>(fact_views(facts@)),
                decreases contexts.len() - i,
            {
                let ghost before = fact_views(facts@);
                proof {
                    assert(contexts@.take(i + 1).drop_last() =~= contexts@.take(i as int));
                }
                match required_failure(
                    contexts[i].as_str(),
                    &policy.required_checks,
                    &selected[i],
                ) {
                    Ok(fact) => {
                        facts.push(fact);
                        proof {
                            assert(fact_views(facts@) =~= before.push(fact@));
                        }
                    },
                    Err(error) => {
                        proof {
                            required_facts_prefix(
                                contexts@,
                                policy.required_checks@,
                                selected@,
                                i + 1,
                            );
                        }
                        return Err(error);
                    },
                }
                i = i + 1;
            }
            proof {
                assert(contexts@.take(i as int) =~= contexts@);
                required_facts_fail(contexts@, policy.required_checks@, selected@);
                let list = required_facts(contexts@, policy.required_checks@, selected@)->Ok_0;
                assert(list == fact_views(facts@));
                assert forall|k: int| 0 <= k < facts@.len() implies is_required_failure(
                    (#[trigger] facts@[k])@,
                ) by {
                    assert(list[k] == facts@[k]@);
                }
            }
            Ok(Some(("one or more required checks failed".to_owned(), sort_facts(&facts))))
        },
        _ => Ok(None),
    }
}

/// A required check by what distinguishes it.
pub open spec fn check_keys(checks: Seq<RequiredCheck>) -> Seq<(Seq<char>, Option<u64>)> {
    Seq::new(checks.len(), |i: int| (checks[i].context@, checks[i].app_id))
}

/// Whether one required check comes before another or is the same: by its name,
/// then by its producer, of which none comes first.
pub open spec fn key_leq(a: (Seq<char>, Option<u64>), b: (Seq<char>, Option<u64>)) -> bool {
    text_lt(a.0, b.0) || (a.0 == b.0 && match (a.1, b.1) {
        (None, _) => true,
        (Some(_), None) => false,
        (Some(x), Some(y)) => x <= y,
    })
}

proof fn keys_are_ordered()
    ensures
        total_ordering(|a: (Seq<char>, Option<u64>), b: (Seq<char>, Option<u64>)| key_leq(a, b)),
{
    let leq = |a: (Seq<char>, Option<u64>), b: (Seq<char>, Option<u64>)| key_leq(a, b);
    assert forall|a: (Seq<char>, Option<u64>), b: (Seq<char>, Option<u64>)| #[trigger]
        leq(a, b) && #[trigger] leq(b, a) implies a == b by {
        text_lt_irreflexive(a.0);
        if text_lt(a.0, b.0) && text_lt(b.0, a.0) {
            text_lt_transitive(a.0, b.0, a.0);
        }
    }
    assert forall|
        a: (Seq<char>, Option<u64>),
        b: (Seq<char>, Option<u64>),
        c: (Seq<char>, Option<u64>),
    | #[trigger] leq(a, b) && #[trigger] leq(b, c) implies leq(a, c) by {
        if text_lt(a.0, b.0) && text_lt(b.0, c.0) {
            text_lt_transitive(a.0, b.0, c.0);
        }
    }
    assert forall|a: (Seq<char>, Option<u64>), b: (Seq<char>, Option<u64>)| #[trigger]
        leq(a, b) || #[trigger] leq(b, a) by {
        text_lt_total(a.0, b.0);
    }
}

/// The required checks in their order.
pub open spec fn ordered_keys(keys: Seq<(Seq<char>, Option<u64>)>) -> Seq<
    (Seq<char>, Option<u64>),
> {
    keys.sort_by(|a: (Seq<char>, Option<u64>), b: (Seq<char>, Option<u64>)| key_leq(a, b))
}

/// The components that stand for the required checks.
pub open spec fn key_components(keys: Seq<(Seq<char>, Option<u64>)>) -> Seq<Seq<char>>
    decreases keys.len(),
{
    if keys.len() == 0 {
        Seq::empty()
    } else {
        let head = key_components(keys.drop_last()).push("required_check"@).push(keys.last().0);
        match keys.last().1 {
            Some(id) => head.push("app_id_some"@).push(decimal(id as nat)),
            None => head.push("app_id_none"@),
        }
    }
}

/// A list with one more label behind those whose lower-case forms are not larger.
pub open spec fn placed(list: Seq<Seq<char>>, label: Seq<char>) -> Seq<Seq<char>>
    decreases list.len(),
{
    if list.len() == 0 || !text_lt(lower(label), lower(list.last())) {
        list.push(label)
    } else {
        placed(list.drop_last(), label).push(list.last())
    }
}

/// Labels by their lower-case forms; those with the same one in their order.
pub open spec fn by_lower(labels: Seq<Seq<char>>) -> Seq<Seq<char>>
    decreases labels.len(),
{
    if labels.len() == 0 {
        Seq::empty()
    } else {
        placed(by_lower(labels.drop_last()), labels.last())
    }
}

/// A truth value as a text.
pub open spec fn truth(b: bool) -> Seq<char> {
    if b {
        "true"@
    } else {
        "false"@
    }
}

/// The first components of a policy's signature.
pub open spec fn policy_head(policy: StewardPolicy) -> Seq<Seq<char>> {
    seq![
        "merge_queue="@ + truth(policy.merge_queue),
        "native_auto_merge="@ + truth(policy.native_auto_merge),
        "opt_out_label="@ + policy.opt_out_label@,
        "managed_label="@ + or_text(opt_view(policy.managed_label), ""@),
        "handoff_context="@ + policy.handoff_context@,
        "max_transient_reruns="@ + decimal(policy.max_transient_reruns as nat),
    ]
}

/// The components of a policy's signature.
pub open spec fn policy_components(
    merge_queue: bool,
    native_auto_merge: bool,
    opt_out_label: Seq<char>,
    managed_label: Option<Seq<char>>,
    handoff_context: Seq<char>,
    max_transient_reruns: u32,
    blockers: Seq<Seq<char>>,
    keys: Seq<(Seq<char>, Option<u64>)>,
) -> Seq<Seq<char>> {
    let ordered = by_lower(blockers);
    seq![
        "merge_queue="@ + truth(merge_queue),
        "native_auto_merge="@ + truth(native_auto_merge),
        "opt_out_label="@ + opt_out_label,
        "managed_label="@ + or_text(managed_label, ""@),
        "handoff_context="@ + handoff_context,
        "max_transient_reruns="@ + decimal(max_transient_reruns as nat),
    ] + Seq::new(ordered.len(), |i: int| "provenance_blocking_label="@ + ordered[i])
        + key_components(ordered_keys(keys))
}

/// The components of a policy's signature.
pub open spec fn signed(policy: StewardPolicy) -> Seq<Seq<char>> {
    policy_components(
        policy.merge_queue,
        policy.native_auto_merge,
        policy.opt_out_label@,
        opt_view(policy.managed_label),
        policy.handoff_context@,
        policy.max_transient_reruns,
        views(policy.provenance_blocking_labels@),
        check_keys(policy.required_checks@),
    )
}

fn place_label(list: &mut Vec<String>, label: String)
    ensures
        views(final(list)@) == placed(views(old(list)@), label@),
    decreases old(list)@.len(),
{
    let n: usize = list.len();
    let ghost before = views(list@);
    if n == 0 {
        list.push(label);
        proof {
            assert(views(list@) =~= before.push(label@));
        }
        return ;
    }
    proof {
        assert(before.last() == list@[n - 1]@);
    }
    if !str_lt(to_lower(label.as_str()).as_str(), to_lower(list[n - 1].as_str()).as_str()) {
        list.push(label);
        proof {
            assert(views(list@) =~= before.push(label@));
        }
        return ;
    }
    match list.pop() {
        Some(last) => {
            proof {
                assert(views(list@) =~= before.drop_last());
            }
            place_label(list, label);
            let ghost middle = views(list@);
            list.push(last);
            proof {
                assert(views(list@) =~= middle.push(last@));
            }
        },
        None => {},
    }
}

fn labels_by_lower(labels: &Vec<String>) -> (r: Vec<String>)
    ensures
        views(r@) == by_lower(views(labels@)),
{
    let ghost all = views(labels@);
    let mut out: Vec<String> = Vec::new();
    let mut i: usize = 0;
    proof {
        assert(views(out@) =~= by_lower(all.take(0)));
    }
    while i < labels.len()
        invariant
            i <= labels.len(),
            all == views(labels@),
            views(out@) == by_lower(all.take(i as int)),
        decreases labels.len() - i,
    {
        proof {
            assert(all.take(i + 1).drop_last() =~= all.take(i as int));
            assert(all[i as int] == labels@[i as int]@);
        }
        place_label(&mut out, labels[i].clone());
        i = i + 1;
    }
    proof {
        assert(all.take(i as int) =~= all);
    }
    out
}

fn after(a: &RequiredCheck, b: &RequiredCheck) -> (r: bool)
    ensures
        r == !key_leq((a.context@, a.app_id), (b.context@, b.app_id)),
{
    if str_lt(a.context.as_str(), b.context.as_str()) {
        return false;
    }
    if !str_eq(a.context.as_str(), b.context.as_str()) {
        return true;
    }
    match (a.app_id, b.app_id) {
        (None, _) => false,
        (Some(_), None) => true,
        (Some(x), Some(y)) => x > y,
    }
}

fn order_checks(checks: &Vec<RequiredCheck>) -> (r: Vec<RequiredCheck>)
    ensures
        check_keys(r@) == ordered_keys(check_keys(checks@)),
{
    let ghost all = check_keys(checks@);
    let ghost leq = |a: (Seq<char>, Option<u64>), b: (Seq<char>, Option<u64>)| key_leq(a, b);
    let mut out: Vec<RequiredCheck> = Vec::new();
    let mut i: usize = 0;
    proof {
        keys_are_ordered();
        assert(check_keys(out@) =~= all.take(0));
    }
    while i < checks.len()
        invariant
            i <= checks.len(),
            all == check_keys(checks@),
            leq == (|a: (Seq<char>, Option<u64>), b: (Seq<char>, Option<u64>)| key_leq(a, b)),
            total_ordering(leq),
            sorted_by(check_keys(out@), leq),
            check_keys(out@).to_multiset() == all.take(i as int).to_multiset(),
        decreases checks.len() - i,
    {
        let ghost before = out@;
        let ghost keys = check_keys(before);
        let ghost key = all[i as int];
        let mut j: usize = out.len();
        while j > 0 && after(&out[j - 1], &checks[i])
            invariant
                j <= out.len(),
                out@ == before,
                keys == check_keys(before),
                i < checks.len(),
                key == (checks@[i as int].context@, checks@[i as int].app_id),
                forall|k: int| j <= k < keys.len() ==> !key_leq(#[trigger] keys[k], key),
            decreases j,
        {
            proof {
                assert(keys[j - 1] == (before[j - 1].context@, before[j - 1].app_id));
            }
            j = j - 1;
        }
        out.insert(j, checks[i].dup());
        proof {
            broadcast use vstd::seq_lib::group_to_multiset_ensures;

            assert(check_keys(out@) =~= keys.insert(j as int, key));
            assert(all.take(i + 1) =~= all.take(i as int).push(key));
            let now = check_keys(out@);
            if j > 0 {
                assert(keys[j - 1] == (before[j - 1].context@, before[j - 1].app_id));
                assert(key_leq(keys[j - 1], key));
            }
            assert forall|a: int, b: int| 0 <= a < b < now.len() implies #[trigger] leq(
                now[a],
                now[b],
            ) by {
                if b < j {
                    assert(leq(keys[a], keys[b]));
                } else if b == j {
                    if a < j - 1 {
                        assert(leq(keys[a], keys[j - 1]));
                    }
                    assert(leq(keys[a], keys[j - 1]) || a == j - 1);
                    assert(leq(keys[j - 1], key));
                } else if a < j {
                    assert(leq(keys[a], keys[b - 1]));
                } else if a == j {
                    assert(!leq(keys[b - 1], key));
                    assert(leq(key, keys[b - 1]));
                } else {
                    assert(leq(keys[a - 1], keys[b - 1]));
                }
            }
        }
        i = i + 1;
    }
    proof {
        assert(all.take(i as int) =~= all);
        all.lemma_sort_by_ensures(leq);
        vstd::seq_lib::lemma_sorted_unique(check_keys(out@), all.sort_by(leq), leq);
    }
    out
}

fn bool_text(b: bool) -> (r: &'static str)
    ensures
        r@ == truth(b),
{
    if b {
        "true"
    } else {
        "false"
    }
}

/// The signature of a policy.
pub fn steward_policy_signature(policy: &StewardPolicy) -> (r: String)
    ensures
        r@ == fingerprint(signed(*policy)),
{
    let managed = match &policy.managed_label {
        Some(label) => label.as_str(),
        None => "",
    };
    let mut out: Vec<String> = Vec::new();
    out.push(concat("merge_queue=", bool_text(policy.merge_queue)));
    out.push(concat("native_auto_merge=", bool_text(policy.native_auto_merge)));
    out.push(concat("opt_out_label=", policy.opt_out_label.as_str()));
    out.push(concat("managed_label=", managed));
    out.push(concat("handoff_context=", policy.handoff_context.as_str()));
    out.push(
        concat(
            "max_transient_reruns=",
            to_decimal(policy.max_transient_reruns as u64).as_str(),
        ),
    );
    let ghost head = views(out@);
    let labels = labels_by_lower(&policy.provenance_blocking_labels);
    let ghost ordered = views(labels@);
    let ghost middle = Seq::new(
        ordered.len(),
        |i: int| "provenance_blocking_label="@ + ordered[i],
    );
    let mut i: usize = 0;
    proof {
        assert(head + middle.take(0) =~= head);
    }
    while i < labels.len()
        invariant
            i <= labels.len(),
            ordered == views(labels@),
            middle == Seq::new(
                ordered.len(),
                |i: int| "provenance_blocking_label="@ + ordered[i],
            ),
            views(out@) == head + middle.take(i as int),
        decreases labels.len() - i,
    {
        let ghost before = views(out@);
        out.push(concat("provenance_blocking_label=", labels[i].as_str()));
        proof {
            assert(middle[i as int] == "provenance_blocking_label="@ + labels@[i as int]@);
            assert(views(out@) =~= before.push(middle[i as int]));
            assert(views(out@) =~= head + middle.take(i + 1));
        }
        i = i + 1;
    }
    let ghost front = views(out@);
    let checks = order_checks(&policy.required_checks);
    let ghost keys = check_keys(checks@);
    let mut j: usize = 0;
    proof {
        assert(middle.take(i as int) =~= middle);
        assert(keys.take(0) =~= Seq::<(Seq<char>, Option<u64>)>::empty());
        assert(front + key_components(keys.take(0)) =~= front);
    }
    while j < checks.len()
        invariant
            j <= checks.len(),
            keys == check_keys(checks@),
            views(out@) == front + key_components(keys.take(j as int)),
        decreases checks.len() - j,
    {
        let ghost before = views(out@);
        let ghost done = key_components(keys.take(j as int));
        proof {
            assert(keys.take(j + 1).drop_last() =~= keys.take(j as int));
            assert(keys[j as int] == (checks@[j as int].context@, checks@[j as int].app_id));
        }
        out.push("required_check".to_owned());
        out.push(checks[j].context.clone());
        match checks[j].app_id {
            Some(id) => {
                out.push("app_id_some".to_owned());
                out.push(to_decimal(id));
                proof {
                    assert(views(out@) =~= before.push("required_check"@).push(
                        keys[j as int].0,
                    ).push("app_id_some"@).push(decimal(id as nat)));
                    assert(views(out@) =~= front + done.push("required_check"@).push(
                        keys[j as int].0,
                    ).push("app_id_some"@).push(decimal(id as nat)));
                }
            },
            None => {
                out.push("app_id_none".to_owned());
                proof {
                    assert(views(out@) =~= before.push("required_check"@).push(
                        keys[j as int].0,
                    ).push("app_id_none"@));
                    assert(views(out@) =~= front + done.push("required_check"@).push(
                        keys[j as int].0,
                    ).push("app_id_none"@));
                }
            },
        }
        j = j + 1;
    }
    proof {
        assert(keys.take(j as int) =~= keys);
        assert(views(out@) =~= signed(*policy));
    }
    digest_components(&out)
}

/// The order in which a policy lists its required checks does not matter to its
/// signature.
pub proof fn signature_ignores_the_order_of_checks(a: StewardPolicy, b: StewardPolicy)
    requires
        a == (StewardPolicy { required_checks: a.required_checks, ..b }),
        check_keys(a.required_checks@).to_multiset() == check_keys(
            b.required_checks@,
        ).to_multiset(),
    ensures
        fingerprint(signed(a)) == fingerprint(signed(b)),
{
    let leq = |a: (Seq<char>, Option<u64>), b: (Seq<char>, Option<u64>)| key_leq(a, b);
    keys_are_ordered();
    let x = check_keys(a.required_checks@);
    let y = check_keys(b.required_checks@);
    x.lemma_sort_by_ensures(leq);
    y.lemma_sort_by_ensures(leq);
    vstd::seq_lib::lemma_sorted_unique(x.sort_by(leq), y.sort_by(leq), leq);
}

/// The fingerprint of a failure: its summary, then its facts.
pub fn failure_fingerprint(summary: &str, facts: &Vec<RecoveryFailureFact>) -> (r: String)
    ensures
        r@ == fingerprint(
            seq![summary@] + Seq::new(facts@.len(), |i: int| fact_text(facts@[i]@)),
        ),
{
    let ghost tail = Seq::new(facts@.len(), |i: int| fact_text(facts@[i]@));
    let mut out: Vec<String> = Vec::new();
    out.push(summary.to_owned());
    let mut i: usize = 0;
    proof {
        assert(views(out@) =~= seq![summary@] + tail.take(0));
    }
    while i < facts.len()
        invariant
            i <= facts.len(),
            tail == Seq::new(facts@.len(), |i: int| fact_text(facts@[i]@)),
            views(out@) == seq![summary@] + tail.take(i as int),
        decreases facts.len() - i,
    {
        let ghost before = views(out@);
        out.push(failure_fact_component(&facts[i]));
        proof {
            assert(views(out@) =~= before.push(tail[i as int]));
            assert(views(out@) =~= seq![summary@] + tail.take(i + 1));
        }
        i = i + 1;
    }
    proof {
        assert(tail.take(i as int) =~= tail);
    }
    digest_components(&out)
}

/// Whether a component stands before those of the required checks.
spec fn fronts(component: Seq<char>) -> bool {
    component.len() > 0 && (component[0] == 'm' || component[0] == 'p')
}

proof fn key_components_end(keys: Seq<(Seq<char>, Option<u64>)>)
    requires
        keys.len() > 0,
    ensures
        ({
            let all = key_components(keys);
            let rest = key_components(keys.drop_last());
            let end = all.last();
            match keys.last().1 {
                Some(id) => all == rest + seq![
                    "required_check"@,
                    keys.last().0,
                    "app_id_some"@,
                    decimal(id as nat),
                ] && is_digit(end[0]),
                None => all == rest + seq!["required_check"@, keys.last().0, "app_id_none"@] && end[0]
                    == 'a',
            }
        }),
{
    reveal_strlit("app_id_none");
    let all = key_components(keys);
    let rest = key_components(keys.drop_last());
    match keys.last().1 {
        Some(id) => {
            decimal_is_colonless(id as nat);
            assert(all =~= rest + seq![
                "required_check"@,
                keys.last().0,
                "app_id_some"@,
                decimal(id as nat),
            ]);
        },
        None => {
            assert(all =~= rest + seq!["required_check"@, keys.last().0, "app_id_none"@]);
        },
    }
}

proof fn key_components_part(
    front: Seq<Seq<char>>,
    keys: Seq<(Seq<char>, Option<u64>)>,
    other_front: Seq<Seq<char>>,
    other: Seq<(Seq<char>, Option<u64>)>,
)
    requires
        front.len() > 0 && fronts(front.last()),
        other_front.len() > 0 && fronts(other_front.last()),
        front + key_components(keys) == other_front + key_components(other),
    ensures
        front == other_front,
        keys == other,
    decreases keys.len(),
{
    let x = front + key_components(keys);
    let y = other_front + key_components(other);
    if keys.len() > 0 {
        key_components_end(keys);
        assert(x.last() == key_components(keys).last());
    } else {
        assert(x =~= front);
    }
    if other.len() > 0 {
        key_components_end(other);
        assert(y.last() == key_components(other).last());
    } else {
        assert(y =~= other_front);
    }
    if keys.len() == 0 {
        assert(other.len() == 0);
        assert(keys =~= other);
    } else {
        assert(other.len() > 0);
        let a = front + key_components(keys.drop_last());
        let b = other_front + key_components(other.drop_last());
        assert(keys.last().1 is Some <==> other.last().1 is Some);
        match (keys.last().1, other.last().1) {
            (Some(m), Some(n)) => {
                assert(x =~= a + seq![
                    "required_check"@,
                    keys.last().0,
                    "app_id_some"@,
                    decimal(m as nat),
                ]);
                assert(y =~= b + seq![
                    "required_check"@,
                    other.last().0,
                    "app_id_some"@,
                    decimal(n as nat),
                ]);
                assert(x.len() == a.len() + 4 && y.len() == b.len() + 4);
                assert(x[a.len() as int + 1] == keys.last().0);
                assert(y[b.len() as int + 1] == other.last().0);
                assert(x.last() == decimal(m as nat) && y.last() == decimal(n as nat));
                decimal_reads_back(m as nat);
                decimal_reads_back(n as nat);
            },
            (None, None) => {
                assert(x =~= a + seq!["required_check"@, keys.last().0, "app_id_none"@]);
                assert(y =~= b + seq!["required_check"@, other.last().0, "app_id_none"@]);
                assert(x.len() == a.len() + 3 && y.len() == b.len() + 3);
                assert(x[a.len() as int + 1] == keys.last().0);
                assert(y[b.len() as int + 1] == other.last().0);
            },
            _ => {},
        }
        assert(a =~= x.take(a.len() as int));
        assert(b =~= y.take(b.len() as int));
        key_components_part(front, keys.drop_last(), other_front, other.drop_last());
        assert(keys =~= keys.drop_last().push(keys.last()));
        assert(other =~= other.drop_last().push(other.last()));
    }
}

proof fn same_tails(prefix: Seq<char>, a: Seq<char>, b: Seq<char>)
    requires
        prefix + a == prefix + b,
    ensures
        a == b,
{
    assert(a =~= (prefix + a).skip(prefix.len() as int));
    assert(b =~= (prefix + b).skip(prefix.len() as int));
}

/// Whether two policies are the same in everything that is signed: what the steward
/// may do, its labels and context, how often it reruns, and the required checks, in
/// whatever order.
pub open spec fn signs_alike(policy: StewardPolicy, other: StewardPolicy) -> bool {
    &&& policy.merge_queue == other.merge_queue
    &&& policy.native_auto_merge == other.native_auto_merge
    &&& policy.opt_out_label@ == other.opt_out_label@
    &&& or_text(opt_view(policy.managed_label), ""@) == or_text(
        opt_view(other.managed_label),
        ""@,
    )
    &&& policy.handoff_context@ == other.handoff_context@
    &&& policy.max_transient_reruns == other.max_transient_reruns
    &&& by_lower(views(policy.provenance_blocking_labels@)) == by_lower(
        views(other.provenance_blocking_labels@),
    )
    &&& check_keys(policy.required_checks@).to_multiset() == check_keys(
        other.required_checks@,
    ).to_multiset()
}

/// Policies that differ in anything that is signed have different components before
/// they are digested.
pub proof fn policies_are_signed_apart(policy: StewardPolicy, other: StewardPolicy)
    requires
        signed(policy) == signed(other),
    ensures
        signs_alike(policy, other),
{
    let leq = |a: (Seq<char>, Option<u64>), b: (Seq<char>, Option<u64>)| key_leq(a, b);
    let label = "provenance_blocking_label="@;
    let keys = check_keys(policy.required_checks@);
    let other_keys = check_keys(other.required_checks@);
    let ordered = by_lower(views(policy.provenance_blocking_labels@));
    let other_ordered = by_lower(views(other.provenance_blocking_labels@));
    let head = policy_head(policy);
    let other_head = policy_head(other);
    let front = head + Seq::new(ordered.len(), |i: int| label + ordered[i]);
    let other_front = other_head + Seq::new(other_ordered.len(), |i: int| label + other_ordered[i]);
    reveal_strlit("provenance_blocking_label=");
    reveal_strlit("max_transient_reruns=");
    reveal_strlit("true");
    reveal_strlit("false");
    assert(fronts(front.last())) by {
        if ordered.len() > 0 {
            assert(front.last() == label + ordered.last());
        } else {
            assert(front.last() == head[5]);
        }
    }
    assert(fronts(other_front.last())) by {
        if other_ordered.len() > 0 {
            assert(other_front.last() == label + other_ordered.last());
        } else {
            assert(other_front.last() == other_head[5]);
        }
    }
    assert(signed(policy) =~= front + key_components(ordered_keys(keys)));
    assert(signed(other) =~= other_front + key_components(ordered_keys(other_keys)));
    key_components_part(front, ordered_keys(keys), other_front, ordered_keys(other_keys));
    assert forall|i: int| 0 <= i < 6 implies #[trigger] head[i] == other_head[i] by {
        assert(front[i] == head[i]);
        assert(other_front[i] == other_head[i]);
    }
    assert(head[0] == other_head[0] && head[1] == other_head[1] && head[2] == other_head[2]
        && head[3] == other_head[3] && head[4] == other_head[4] && head[5] == other_head[5]);
    same_tails("merge_queue="@, truth(policy.merge_queue), truth(other.merge_queue));
    same_tails(
        "native_auto_merge="@,
        truth(policy.native_auto_merge),
        truth(other.native_auto_merge),
    );
    assert(truth(true)[0] == 't' && truth(false)[0] == 'f');
    same_tails("opt_out_label="@, policy.opt_out_label@, other.opt_out_label@);
    same_tails(
        "managed_label="@,
        or_text(opt_view(policy.managed_label), ""@),
        or_text(opt_view(other.managed_label), ""@),
    );
    same_tails("handoff_context="@, policy.handoff_context@, other.handoff_context@);
    same_tails(
        "max_transient_reruns="@,
        decimal(policy.max_transient_reruns as nat),
        decimal(other.max_transient_reruns as nat),
    );
    decimal_reads_back(policy.max_transient_reruns as nat);
    decimal_reads_back(other.max_transient_reruns as nat);
    assert(ordered.len() == other_ordered.len());
    assert forall|i: int| 0 <= i < ordered.len() implies ordered[i] == other_ordered[i] by {
        assert(front[6 + i] == label + ordered[i]);
        assert(other_front[6 + i] == label + other_ordered[i]);
        same_tails(label, ordered[i], other_ordered[i]);
    }
    assert(ordered =~= other_ordered);
    keys_are_ordered();
    keys.lemma_sort_by_ensures(leq);
    other_keys.lemma_sort_by_ensures(leq);
}

/// Whether two byte sequences are different and have the same SHA-256 digest.
pub open spec fn digests_collide(a: Seq<u8>, b: Seq<u8>) -> bool {
    a != b && sha256_digest(a) == sha256_digest(b)
}

/// Policies with the same signature are the same in everything that is signed, unless
/// SHA-256 has the same digest for what is digested of each, as long as no component
/// is longer than a machine can hold.
pub proof fn signatures_tell_policies_apart(policy: StewardPolicy, other: StewardPolicy)
    requires
        fingerprint(signed(policy)) == fingerprint(signed(other)),
        forall|i: int|
            0 <= i < signed(policy).len() ==> byte_length(#[trigger] signed(policy)[i])
                <= usize::MAX,
        forall|i: int|
            0 <= i < signed(other).len() ==> byte_length(#[trigger] signed(other)[i])
                <= usize::MAX,
    ensures
        signs_alike(policy, other) || digests_collide(
            framed_all(signed(policy)),
            framed_all(signed(other)),
        ),
{
    let a = framed_all(signed(policy));
    let b = framed_all(signed(other));
    hex_reads_back(sha256_digest(a), sha256_digest(b));
    if a == b {
        framing_is_unambiguous(signed(policy), signed(other));
        policies_are_signed_apart(policy, other);
    }
}

/// The state of the recovery signal is what the latest check of it concluded, and there is
/// none without such a check.
pub proof fn the_latest_check_tells(checks: Seq<StewardCheck>, i: int)
    ensures
        latest_recovery(checks, i) ==> recovery_state(checks) == opt_view(checks[i].conclusion),
        (forall|k: int| 0 <= k < checks.len() ==> !is_recovery(#[trigger] checks[k]))
            ==> recovery_state(checks) is None,
{
    if latest_recovery(checks, i) {
        assert(is_recovery(checks[i]));
        let j = choose|j: int| latest_recovery(checks, j);
        latest_recovery_is_unique(checks, i, j);
    }
}

/// A signal is as a pull request that needs an agent has it exactly where both the label
/// and the failing status are there, and as any other has it where neither is; with only
/// one of them it is neither.
pub proof fn a_signal_has_two_parts(pr: ObservedPr)
    ensures
        ({
            let told = labelled(pr.fact.labels@, NEEDS_AGENT_LABEL@);
            let failing = recovery_state(pr.fact.checks@) == Some("FAILURE"@);
            &&& told && failing ==> signal_converged(pr, true) && !signal_converged(pr, false)
            &&& !told && !failing ==> signal_converged(pr, false) && !signal_converged(pr, true)
            &&& told != failing ==> !signal_converged(pr, true) && !signal_converged(pr, false)
        }),
{
}

/// The conclusions of a required check that count as its failure.
pub open spec fn failing_conclusions() -> Seq<Seq<char>> {
    seq![
        "ACTION_REQUIRED"@,
        "CANCELLED"@,
        "FAILURE"@,
        "STALE"@,
        "STARTUP_FAILURE"@,
        "TIMED_OUT"@,
    ]
}

/// Exactly the failing conclusions are failures.
pub proof fn exactly_the_failing_conclusions_fail(conclusion: Seq<char>)
    ensures
        failing_conclusion(conclusion) <==> failing_conclusions().contains(conclusion),
{
    let c = failing_conclusions();
    assert(c[0] == "ACTION_REQUIRED"@ && c[1] == "CANCELLED"@ && c[2] == "FAILURE"@ && c[3]
        == "STALE"@ && c[4] == "STARTUP_FAILURE"@ && c[5] == "TIMED_OUT"@);
}

/// A label gives a fact exactly where it names one required check whose selected check is
/// completed with a failing conclusion; the fact tells that check, that conclusion and the
/// run behind it.
pub proof fn a_failed_required_check_gives_a_fact(
    label: Seq<char>,
    checks: Seq<RequiredCheck>,
    selected: Option<StewardCheck>,
    i: int,
)
    requires
        sole_label(checks, label, i),
    ensures
        required_fact(label, checks, selected) is Ok <==> (selected matches Some(check)
            && same_ignoring_case(check.status@, "COMPLETED"@) && (check.conclusion matches Some(c)
            && c@.len() > 0 && failing_conclusion(upper(c@)))),
        required_fact(label, checks, selected) matches Ok(fact) ==> fact
            == FactView::RequiredCheck(
            checks[i].context@,
            checks[i].app_id,
            upper(selected->Some_0.conclusion->Some_0@),
            selected->Some_0.run_id,
        ),
{
    let j = choose|j: int| sole_label(checks, label, j);
    assert(sole_label(checks, label, j));
    assert(checks[j].spec_label() == label);
    assert(j == i);
}

/// Every label gives its own fact, in the order of the labels, and one that gives none
/// refuses them all.
pub proof fn each_label_gives_its_fact(
    labels: Seq<String>,
    checks: Seq<RequiredCheck>,
    selected: Seq<Option<StewardCheck>>,
    i: int,
)
    requires
        0 <= i < labels.len(),
    ensures
        required_facts(labels, checks, selected) matches Ok(facts) ==> facts.len() == labels.len()
            && required_fact(labels[i]@, checks, selected[i]) == Ok::<FactView, Seq<char>>(facts[i]),
        required_fact(labels[i]@, checks, selected[i]) is Err ==> required_facts(
            labels,
            checks,
            selected,
        ) is Err,
    decreases labels.len(),
{
    reveal_with_fuel(required_facts, 2);
    let before = labels.drop_last();
    if before.len() > 0 {
        each_label_gives_its_fact(before, checks, selected, 0);
    }
    if i < labels.len() - 1 {
        assert(before[i] == labels[i]);
        each_label_gives_its_fact(before, checks, selected, i);
    }
}

} // verus!
