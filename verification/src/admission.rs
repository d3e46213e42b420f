//! Whether a machine may be admitted as a runner: no superseded run may be able
//! to claim it.
use std::collections::BTreeMap;

use vstd::prelude::*;
use vstd::std_specs::iter::IteratorSpec;

use crate::guard::ends_with_its_end;
use crate::json::{members_of, number_array, object, text_array, Json, JsonTree};
use crate::ledger::{PendingCancellation, StewardLedger};
use crate::model::{
    CliFailure, ObservedPr, run_views, RunCancellation, RunView, StewardJob, StewardRun, fails,
    MANAGED_LABEL, OPT_OUT_LABEL,
};
use crate::outside::{encode_target, hex_digest, sha256_hex, target_json};
use crate::numbers::{add_number, has_number, increasing, increasing_is_unique, lists_set};
use crate::observation::{sort_texts, sorted_texts};
use crate::rerun::{number_list, print_numbers};
use crate::revalidation::{
    current_pull_request_heads, heads_of, labelled, managed, map_views, numbers_where,
    pull_request_is_managed, pull_request_opted_out,
};
use crate::text::{
    byte_len, byte_length, char_is_alnum, concat, concat3, contains, cut, decimal, ends_with,
    eq_ignore_case, floor_bytes, floored, has_infix, has_prefix, has_suffix, is_alnum, lower,
    lower_case_stays_trimmed, lower_is_idempotent, opt_view, same_ignoring_case,
    sorted_has_no_duplicates, sorted_is_unique, split_once, starts_with, str_eq, to_chars,
    to_decimal, to_lower, trim, trimmed, views,
};

verus! {

broadcast use vstd::std_specs::btree::group_btree_axioms;

/// Whether a machine is admitted.
#[derive(Clone, Copy, Debug, PartialEq, Eq, Structural)]
pub enum AdmissionVerdict {
    Admit,
    Defer,
    Error,
}

impl AdmissionVerdict {
    /// How the verdict is named.
    pub open spec fn name(self) -> Seq<char> {
        match self {
            AdmissionVerdict::Admit => "admit"@,
            AdmissionVerdict::Defer => "defer"@,
            AdmissionVerdict::Error => "error"@,
        }
    }

    /// The code with which the command ends.
    pub open spec fn code(self) -> u8 {
        match self {
            AdmissionVerdict::Admit => 0,
            AdmissionVerdict::Defer => 3,
            AdmissionVerdict::Error => 1,
        }
    }

    /// How the verdict is named.
    pub fn label(self) -> (r: &'static str)
        ensures
            r@ == self.name(),
    {
        match self {
            AdmissionVerdict::Admit => "admit",
            AdmissionVerdict::Defer => "defer",
            AdmissionVerdict::Error => "error",
        }
    }

    /// The code with which the command ends.
    pub fn exit_code(self) -> (r: u8)
        ensures
            r == self.code(),
    {
        match self {
            AdmissionVerdict::Admit => 0,
            AdmissionVerdict::Defer => 3,
            AdmissionVerdict::Error => 1,
        }
    }
}

/// The verdicts end the command with different codes.
pub proof fn exit_codes_differ(a: AdmissionVerdict, b: AdmissionVerdict)
    requires
        a.code() == b.code(),
    ensures
        a == b,
{
}

/// The most bytes of an error that are reported.
pub const MAX_ERROR_BYTES: usize = 4_096;

/// An error, cut where it is too long.
pub open spec fn bounded(error: Seq<char>) -> Seq<char> {
    if byte_length(error) <= MAX_ERROR_BYTES {
        error
    } else {
        floored(error, MAX_ERROR_BYTES as nat) + "...[truncated]"@
    }
}

/// An error, cut where it is too long.
pub fn bounded_admission_error(error: &str) -> (r: String)
    ensures
        r@ == bounded(error@),
{
    if byte_len(error) <= MAX_ERROR_BYTES {
        error.to_owned()
    } else {
        concat(floor_bytes(error, MAX_ERROR_BYTES).as_str(), "...[truncated]")
    }
}

/// What the command is told.
#[derive(Debug)]
pub struct AdmissionCleanArgs {
    pub repo: String,
    pub base: String,
    pub labels: Vec<String>,
    pub apply: bool,
}

/// Whether a character may stand in a repository's owner.
pub open spec fn owner_char(c: char) -> bool {
    is_alnum(c) || c == '-'
}

/// Whether a character may stand in a repository's name.
pub open spec fn name_char(c: char) -> bool {
    is_alnum(c) || c == '.' || c == '_' || c == '-'
}

/// Whether a character may stand in a branch's name.
pub open spec fn branch_char(c: char) -> bool {
    name_char(c) || c == '/'
}

/// Whether every character of a text satisfies a predicate.
pub open spec fn all_chars(s: Seq<char>, p: spec_fn(char) -> bool) -> bool {
    forall|i: int| 0 <= i < s.len() ==> p(#[trigger] s[i])
}

/// Whether a text names a repository that can be admitted to.
pub open spec fn admission_repo(s: Seq<char>) -> bool {
    cut(s, '/') matches Some((owner, name)) && owner.len() > 0 && name.len() > 0 && all_chars(
        owner,
        |c: char| owner_char(c),
    ) && all_chars(name, |c: char| name_char(c))
}

/// Whether a text names a branch that can be admitted to.
pub open spec fn admission_base(s: Seq<char>) -> bool {
    s.len() > 0 && !has_prefix(s, "/"@) && !has_suffix(s, "/"@) && !has_infix(s, ".."@)
        && all_chars(s, |c: char| branch_char(c))
}

/// A label as it is compared.
pub open spec fn label_identity(raw: Seq<char>) -> Seq<char> {
    lower(trimmed(raw))
}

/// The labels as they are compared.
pub open spec fn label_identities(raw: Seq<String>) -> Seq<Seq<char>> {
    Seq::new(raw.len(), |i: int| label_identity(raw[i]@))
}

/// Whether labels are all there, short and different.
pub open spec fn good_labels(ids: Seq<Seq<char>>) -> bool {
    &&& forall|i: int|
        0 <= i < ids.len() ==> (#[trigger] ids[i]).len() > 0 && byte_length(ids[i]) <= 100
    &&& ids.no_duplicates()
}

fn owner_text(s: &str) -> (r: bool)
    ensures
        r == all_chars(s@, |c: char| owner_char(c)),
{
    let chars = to_chars(s);
    let mut i: usize = 0;
    while i < chars.len()
        invariant
            i <= chars.len(),
            chars@ == s@,
            forall|k: int| 0 <= k < i ==> owner_char(#[trigger] s@[k]),
        decreases chars.len() - i,
    {
        if !(char_is_alnum(chars[i]) || chars[i] == '-') {
            proof {
                let p = |c: char| owner_char(c);
                assert(!p(s@[i as int]));
            }
            return false;
        }
        i = i + 1;
    }
    true
}

fn name_text(s: &str, slash: bool) -> (r: bool)
    ensures
        slash ==> r == all_chars(s@, |c: char| branch_char(c)),
        !slash ==> r == all_chars(s@, |c: char| name_char(c)),
{
    let chars = to_chars(s);
    let mut i: usize = 0;
    while i < chars.len()
        invariant
            i <= chars.len(),
            chars@ == s@,
            forall|k: int|
                0 <= k < i ==> name_char(#[trigger] s@[k]) || (slash && s@[k] == '/'),
        decreases chars.len() - i,
    {
        let c = chars[i];
        if !(char_is_alnum(c) || c == '.' || c == '_' || c == '-' || (slash && c == '/')) {
            proof {
                let p = |c: char| branch_char(c);
                let q = |c: char| name_char(c);
                if slash {
                    assert(!p(s@[i as int]));
                } else {
                    assert(!q(s@[i as int]));
                }
            }
            return false;
        }
        i = i + 1;
    }
    true
}

/// Whether a text occurs in a list of texts.
fn seen(list: &Vec<String>, s: &str) -> (r: bool)
    ensures
        r == views(list@).contains(s@),
{
    let mut i: usize = 0;
    while i < list.len()
        invariant
            i <= list.len(),
            forall|k: int| 0 <= k < i ==> (#[trigger] list@[k])@ != s@,
        decreases list.len() - i,
    {
        if str_eq(list[i].as_str(), s) {
            proof {
                assert(views(list@)[i as int] == s@);
            }
            return true;
        }
        i = i + 1;
    }
    proof {
        if views(list@).contains(s@) {
            let k = choose|k: int| 0 <= k < views(list@).len() && views(list@)[k] == s@;
            assert(list@[k]@ == s@);
        }
    }
    false
}

/// The labels as they are compared, where they are all there, short and
/// different.
fn label_list(raw: &Vec<String>) -> (r: Option<Vec<String>>)
    ensures
        match r {
            Some(list) => good_labels(label_identities(raw@)) && views(list@) == label_identities(
                raw@,
            ),
            None => !good_labels(label_identities(raw@)),
        },
{
    let ghost ids = label_identities(raw@);
    let mut out: Vec<String> = Vec::new();
    let mut i: usize = 0;
    proof {
        assert(views(out@) =~= ids.take(0));
    }
    while i < raw.len()
        invariant
            i <= raw.len(),
            ids == label_identities(raw@),
            views(out@) == ids.take(i as int),
            good_labels(ids.take(i as int)),
        decreases raw.len() - i,
    {
        let id = to_lower(trim(raw[i].as_str()).as_str());
        let ghost done = ids.take(i as int);
        let ghost more = ids.take(i + 1);
        proof {
            assert(more =~= done.push(ids[i as int]));
            assert(id@ == ids[i as int]);
        }
        if id.as_str().is_empty() || byte_len(id.as_str()) > 100 || seen(&out, id.as_str()) {
            proof {
                if done.contains(id@) {
                    let k = choose|k: int| 0 <= k < done.len() && done[k] == id@;
                    assert(ids[k] == ids[i as int]);
                }
            }
            return None;
        }
        let ghost before = views(out@);
        out.push(id);
        proof {
            assert(views(out@) =~= before.push(id@));
            assert(views(out@) =~= more);
            assert forall|a: int, b: int| 0 <= a < more.len() && 0 <= b < more.len() && a
                != b implies more[a] != more[b] by {
                if a < i && b < i {
                    assert(done[a] == more[a] && done[b] == more[b]);
                } else if a < i {
                    assert(done[a] == more[a]);
                    assert(done.contains(done[a]));
                } else if b < i {
                    assert(done[b] == more[b]);
                    assert(done.contains(done[b]));
                }
            }
            assert forall|k: int| 0 <= k < more.len() implies (#[trigger] more[k]).len() > 0
                && byte_length(more[k]) <= 100 by {
                if k < i {
                    assert(done[k] == more[k]);
                }
            }
        }
        i = i + 1;
    }
    proof {
        assert(ids.take(i as int) =~= ids);
    }
    Some(out)
}

/// Whether a result is what is made of the repository, the branch and the labels that
/// a machine is admitted with: they themselves, with the labels as they are compared
/// and in their order, or what is wrong with them.
pub open spec fn target_told(
    args: AdmissionCleanArgs,
    r: Result<(String, String, Vec<String>), CliFailure>,
) -> bool {
    let ids = label_identities(args.labels@);
    if !admission_repo(args.repo@) {
        fails(r, 2, "--repo must be an owner/repo slug"@)
    } else if !admission_base(args.base@) {
        fails(r, 2, "--base is not a valid branch name"@)
    } else if args.labels@.len() == 0 || args.labels@.len() > 100 {
        fails(r, 2, "--labels must contain 1..100 comma-separated labels"@)
    } else if !good_labels(ids) {
        fails(r, 2, "--labels must be non-empty, unique, and at most 100 bytes each"@)
    } else if !ids.contains("self-hosted"@) {
        fails(r, 2, "--labels must include the self-hosted label"@)
    } else {
        r matches Ok((repo, base, labels)) && repo@ == args.repo@ && base@ == args.base@
            && sorted_texts(views(labels@), ids)
    }
}

/// A target that was normalised is normalised already: what is made of it is the same
/// again.
pub proof fn normalizing_twice_changes_nothing(
    args: AdmissionCleanArgs,
    first: (String, String, Vec<String>),
    again: AdmissionCleanArgs,
    second: Result<(String, String, Vec<String>), CliFailure>,
)
    requires
        target_told(args, Ok(first)),
        again.repo == first.0,
        again.base == first.1,
        again.labels == first.2,
        target_told(again, second),
    ensures
        second matches Ok((repo, base, labels)) && repo@ == first.0@ && base@ == first.1@ && views(
            labels@,
        ) == views(first.2@),
{
    let ids = label_identities(args.labels@);
    let list = views(first.2@);
    let same = label_identities(again.labels@);
    assert forall|i: int| 0 <= i < list.len() implies #[trigger] same[i] == list[i] by {
        assert(list.contains(list[i]));
        let k = choose|k: int| 0 <= k < ids.len() && ids[k] == list[i];
        assert(list[i] == lower(trimmed(args.labels@[k]@)));
        lower_case_stays_trimmed(args.labels@[k]@);
        lower_is_idempotent(trimmed(args.labels@[k]@));
    }
    assert(same =~= list);
    sorted_has_no_duplicates(list);
    assert(good_labels(same)) by {
        assert forall|i: int| 0 <= i < same.len() implies (#[trigger] same[i]).len() > 0
            && byte_length(same[i]) <= 100 by {
            assert(list.contains(list[i]));
            let k = choose|k: int| 0 <= k < ids.len() && ids[k] == list[i];
            assert(ids[k].len() > 0);
        }
    }
    assert(ids.to_set() =~= list.to_set()) by {
        assert forall|s: Seq<char>| ids.to_set().contains(s) <==> list.to_set().contains(s) by {
            assert(list.contains(s) <==> ids.contains(s));
        }
    }
    ids.unique_seq_to_set();
    list.unique_seq_to_set();
    assert(list.contains("self-hosted"@));
    match second {
        Ok((_, _, labels)) => {
            assert forall|s: Seq<char>| #[trigger] views(labels@).contains(s) <==> list.contains(
                s,
            ) by {
                assert(same.contains(s) <==> list.contains(s));
            }
            sorted_is_unique(views(labels@), list);
        },
        Err(_) => {},
    }
}

/// The repository, the branch and the labels that a machine is admitted with.
pub fn normalize_admission_target(args: &AdmissionCleanArgs) -> (r: Result<
    (String, String, Vec<String>),
    CliFailure,
>)
    ensures
        target_told(*args, r),
{
    let named = match split_once(args.repo.as_str(), '/') {
        Some((owner, name)) => !owner.as_str().is_empty() && !name.as_str().is_empty()
            && owner_text(owner.as_str()) && name_text(name.as_str(), false),
        None => false,
    };
    if !named {
        return Err(CliFailure::new(2, "--repo must be an owner/repo slug"));
    }
    let base = args.base.as_str();
    if base.is_empty() || starts_with(base, "/") || ends_with(base, "/") || contains(base, "..")
        || !name_text(base, true) {
        return Err(CliFailure::new(2, "--base is not a valid branch name"));
    }
    if args.labels.len() == 0 || args.labels.len() > 100 {
        return Err(CliFailure::new(2, "--labels must contain 1..100 comma-separated labels"));
    }
    match label_list(&args.labels) {
        None => Err(
            CliFailure::new(
                2,
                "--labels must be non-empty, unique, and at most 100 bytes each",
            ),
        ),
        Some(list) => {
            if !seen(&list, "self-hosted") {
                return Err(CliFailure::new(2, "--labels must include the self-hosted label"));
            }
            Ok((args.repo.clone(), args.base.clone(), sort_texts(&list)))
        },
    }
}

/// The blocking labels, trimmed.
pub fn normalize_provenance_blocking_labels(labels: &Vec<String>) -> (r: Result<
    Vec<String>,
    CliFailure,
>)
    ensures
        ({
            let ids = label_identities(labels@);
            if labels@.len() == 0 || labels@.len() > 100 {
                fails(r, 2, "--provenance-blocking-label must contain 1..100 labels"@)
            } else if !good_labels(ids) {
                fails(
                    r,
                    2,
                    "--provenance-blocking-label values must be non-empty, unique, and at most 100 bytes each"@,
                )
            } else {
                r matches Ok(list) && views(list@) == Seq::new(
                    labels@.len(),
                    |i: int| trimmed(labels@[i]@),
                )
            }
        }),
{
    if labels.len() == 0 || labels.len() > 100 {
        return Err(CliFailure::new(2, "--provenance-blocking-label must contain 1..100 labels"));
    }
    if label_list(labels).is_none() {
        return Err(
            CliFailure::new(
                2,
                "--provenance-blocking-label values must be non-empty, unique, and at most 100 bytes each",
            ),
        );
    }
    let mut out: Vec<String> = Vec::new();
    let mut i: usize = 0;
    while i < labels.len()
        invariant
            i <= labels.len(),
            out@.len() == i,
            forall|k: int| 0 <= k < i ==> (#[trigger] out@[k])@ == trimmed(labels@[k]@),
        decreases labels.len() - i,
    {
        out.push(trim(labels[i].as_str()));
        i = i + 1;
    }
    proof {
        assert(views(out@) =~= Seq::new(labels@.len(), |i: int| trimmed(labels@[i]@)));
    }
    Ok(out)
}

/// Whether a queued job can claim a machine: it asks for labels, and the machine
/// has every one.
pub open spec fn claims(job: StewardJob, labels: Seq<Seq<char>>) -> bool {
    same_ignoring_case(job.status@, "queued"@) && job.labels@.len() > 0 && forall|i: int|
        0 <= i < job.labels@.len() ==> labels.contains(lower((#[trigger] job.labels@[i])@))
}

/// Whether a queued job can claim a machine.
pub fn job_can_claim_runner(job: &StewardJob, runner_labels: &Vec<String>) -> (r: bool)
    ensures
        r == claims(*job, views(runner_labels@)),
{
    if !eq_ignore_case(job.status.as_str(), "queued") || job.labels.len() == 0 {
        return false;
    }
    let mut i: usize = 0;
    while i < job.labels.len()
        invariant
            i <= job.labels.len(),
            forall|k: int|
                0 <= k < i ==> views(runner_labels@).contains(lower((#[trigger] job.labels@[k])@)),
        decreases job.labels.len() - i,
    {
        if !seen(runner_labels, to_lower(job.labels[i].as_str()).as_str()) {
            return false;
        }
        i = i + 1;
    }
    true
}

/// Whether any job can claim a machine.
pub open spec fn any_claims(jobs: Seq<StewardJob>, labels: Seq<Seq<char>>) -> bool {
    exists|i: int| 0 <= i < jobs.len() && claims(#[trigger] jobs[i], labels)
}

/// The pull requests that are out of bounds for an admission.
pub open spec fn admission_excluded(pr: ObservedPr, handed_off: Seq<u64>) -> bool {
    labelled(pr.fact.labels@, OPT_OUT_LABEL@) || !managed(
        pr,
        MANAGED_LABEL@,
        handed_off.contains(pr.fact.number),
    )
}

/// The heads of the pull requests, and the numbers of those that are out of
/// bounds.
pub fn admission_pr_authority(prs: &Vec<ObservedPr>, handed_off: &Vec<u64>) -> (r: (
    BTreeMap<u64, String>,
    Vec<u64>,
))
    ensures
        map_views(r.0@) == heads_of(prs@),
        lists_set(
            r.1@,
            |n: u64|
                numbers_where(prs@, |pr: ObservedPr| admission_excluded(pr, handed_off@), n),
        ),
{
    let ghost p = |pr: ObservedPr| admission_excluded(pr, handed_off@);
    let mut excluded: Vec<u64> = Vec::new();
    let mut i: usize = 0;
    while i < prs.len()
        invariant
            i <= prs.len(),
            p == (|pr: ObservedPr| admission_excluded(pr, handed_off@)),
            increasing(excluded@),
            forall|n: u64| #[trigger]
                excluded@.contains(n) <==> numbers_where(prs@.take(i as int), p, n),
        decreases prs.len() - i,
    {
        let ghost before = excluded@;
        let ghost done = prs@.take(i as int);
        let ghost more = prs@.take(i + 1);
        let out = pull_request_opted_out(&prs[i], OPT_OUT_LABEL) || !pull_request_is_managed(
            &prs[i],
            MANAGED_LABEL,
            has_number(handed_off, prs[i].fact.number),
        );
        if out {
            add_number(&mut excluded, prs[i].fact.number);
        }
        proof {
            assert(more[i as int] == prs@[i as int]);
            assert(out == p(prs@[i as int]));
            assert forall|n: u64| #[trigger] excluded@.contains(n) <==> numbers_where(
                more,
                p,
                n,
            ) by {
                assert(before.contains(n) <==> numbers_where(done, p, n));
                if numbers_where(done, p, n) {
                    let k = choose|k: int|
                        0 <= k < done.len() && p(#[trigger] done[k]) && done[k].fact.number == n;
                    assert(more[k] == done[k]);
                }
                if numbers_where(more, p, n) {
                    let k = choose|k: int|
                        0 <= k < more.len() && p(#[trigger] more[k]) && more[k].fact.number == n;
                    if k < i {
                        assert(done[k] == more[k]);
                    }
                }
            }
        }
        i = i + 1;
    }
    proof {
        assert(prs@.take(i as int) =~= prs@);
    }
    (current_pull_request_heads(prs), excluded)
}

/// Whether any job can claim a machine.
pub fn any_job_claims(jobs: &Vec<StewardJob>, labels: &Vec<String>) -> (r: bool)
    ensures
        r == any_claims(jobs@, views(labels@)),
{
    let mut i: usize = 0;
    while i < jobs.len()
        invariant
            i <= jobs.len(),
            forall|k: int| 0 <= k < i ==> !claims(#[trigger] jobs@[k], views(labels@)),
        decreases jobs.len() - i,
    {
        if job_can_claim_runner(&jobs[i], labels) {
            return true;
        }
        i = i + 1;
    }
    false
}

/// The candidates that are inspected: those that can be cancelled, then those
/// that only block. There may be at most fifty.
pub fn admission_inspection(cancellable: &Vec<RunCancellation>, blocking: &Vec<RunCancellation>) -> (r:
    Result<Vec<RunCancellation>, String>)
    ensures
        if cancellable@.len() + blocking@.len() > 50 {
            r matches Err(e) && e@ == "more than 50 superseded runs require admission inspection"@
        } else {
            r matches Ok(list) && list@ == cancellable@ + blocking@
        },
{
    if cancellable.len() > 50 || blocking.len() > 50 - cancellable.len() {
        return Err("more than 50 superseded runs require admission inspection".to_owned());
    }
    let mut out: Vec<RunCancellation> = Vec::new();
    let mut i: usize = 0;
    while i < cancellable.len()
        invariant
            i <= cancellable.len(),
            out@ =~= cancellable@.take(i as int),
        decreases cancellable.len() - i,
    {
        out.push(cancellable[i]);
        i = i + 1;
    }
    let mut j: usize = 0;
    while j < blocking.len()
        invariant
            j <= blocking.len(),
            out@ =~= cancellable@ + blocking@.take(j as int),
        decreases blocking.len() - j,
    {
        out.push(blocking[j]);
        j = j + 1;
    }
    Ok(out)
}

/// Whether a position is the first of a run with a number.
pub open spec fn first_run(runs: Seq<StewardRun>, id: u64, i: int) -> bool {
    &&& 0 <= i < runs.len() && runs[i].id == id
    &&& forall|k: int| 0 <= k < i ==> (#[trigger] runs[k]).id != id
}

/// The observed run of a candidate.
pub fn admission_run(runs: &Vec<StewardRun>, candidate: &RunCancellation) -> (r: Result<
    usize,
    String,
>)
    ensures
        match r {
            Ok(i) => first_run(runs@, candidate.run_id, i as int),
            Err(e) => (forall|k: int|
                0 <= k < runs@.len() ==> (#[trigger] runs@[k]).id != candidate.run_id) && e@
                == "planned run "@ + decimal(candidate.run_id as nat) + " disappeared"@,
        },
{
    let mut i: usize = 0;
    while i < runs.len()
        invariant
            i <= runs.len(),
            forall|k: int| 0 <= k < i ==> (#[trigger] runs@[k]).id != candidate.run_id,
        decreases runs.len() - i,
    {
        if runs[i].id == candidate.run_id {
            return Ok(i);
        }
        i = i + 1;
    }
    Err(concat3("planned run ", to_decimal(candidate.run_id).as_str(), " disappeared"))
}

/// What an inspected candidate is to an admission.
#[derive(Clone, Copy, Debug, PartialEq, Eq, Structural)]
pub enum AdmissionClaim {
    /// It cannot claim the machine.
    Harmless,
    /// It can, and is still queued.
    Cancellable,
    /// It can, and is already running.
    Blocking,
}

/// What an inspected candidate is to an admission.
pub open spec fn claim_of(
    status: Seq<char>,
    jobs: Seq<StewardJob>,
    labels: Seq<Seq<char>>,
) -> AdmissionClaim {
    if !any_claims(jobs, labels) {
        AdmissionClaim::Harmless
    } else if same_ignoring_case(status, "queued"@) {
        AdmissionClaim::Cancellable
    } else {
        AdmissionClaim::Blocking
    }
}

/// What an inspected candidate is to an admission.
pub fn admission_claim(run: &StewardRun, jobs: &Vec<StewardJob>, labels: &Vec<String>) -> (r:
    AdmissionClaim)
    ensures
        r == claim_of(run.status@, jobs@, views(labels@)),
{
    if !any_job_claims(jobs, labels) {
        AdmissionClaim::Harmless
    } else if eq_ignore_case(run.status.as_str(), "queued") {
        AdmissionClaim::Cancellable
    } else {
        AdmissionClaim::Blocking
    }
}

/// Whether candidates are ordered by their runs' numbers.
pub open spec fn by_run(list: Seq<RunCancellation>) -> bool {
    forall|i: int, j: int| 0 <= i < j < list.len() ==> list[i].run_id <= list[j].run_id
}

fn insert_by_run(list: &mut Vec<RunCancellation>, candidate: RunCancellation)
    requires
        by_run(old(list)@),
    ensures
        by_run(final(list)@),
        final(list)@.to_multiset() == old(list)@.to_multiset().insert(candidate),
{
    let ghost before = list@;
    let mut i: usize = list.len();
    while i > 0 && list[i - 1].run_id > candidate.run_id
        invariant
            i <= list.len(),
            list@ == before,
            by_run(before),
            forall|k: int| i <= k < before.len() ==> before[k].run_id > candidate.run_id,
        decreases i,
    {
        i = i - 1;
    }
    list.insert(i, candidate);
    proof {
        broadcast use vstd::seq_lib::group_to_multiset_ensures;

        assert(list@ == before.insert(i as int, candidate));
    }
}

/// The candidates with the given claims, in the given order.
pub open spec fn claimed(
    candidates: Seq<RunCancellation>,
    claims: Seq<AdmissionClaim>,
    kind: AdmissionClaim,
) -> Seq<RunCancellation>
    decreases candidates.len(),
{
    if candidates.len() == 0 {
        Seq::empty()
    } else {
        let rest = claimed(candidates.drop_last(), claims, kind);
        if claims[candidates.len() - 1] == kind {
            rest.push(candidates.last())
        } else {
            rest
        }
    }
}

/// The candidates that can be cancelled, by their runs' numbers, and the runs
/// that only block, in the order of their inspection.
pub fn admission_candidates(
    candidates: &Vec<RunCancellation>,
    claims: &Vec<AdmissionClaim>,
) -> (r: (Vec<RunCancellation>, Vec<u64>))
    requires
        claims@.len() == candidates@.len(),
    ensures
        by_run(r.0@),
        r.0@.to_multiset() == claimed(
            candidates@,
            claims@,
            AdmissionClaim::Cancellable,
        ).to_multiset(),
        r.1@ == claimed(candidates@, claims@, AdmissionClaim::Blocking).map_values(
            |c: RunCancellation| c.run_id,
        ),
{
    let mut compatible: Vec<RunCancellation> = Vec::new();
    let mut blockers: Vec<u64> = Vec::new();
    let ghost id = |c: RunCancellation| c.run_id;
    let mut i: usize = 0;
    proof {
        assert(claimed(candidates@.take(0), claims@, AdmissionClaim::Cancellable) =~= Seq::<
            RunCancellation,
        >::empty());
        assert(compatible@ =~= Seq::<RunCancellation>::empty());
        assert(blockers@ =~= claimed(
            candidates@.take(0),
            claims@,
            AdmissionClaim::Blocking,
        ).map_values(id));
    }
    while i < candidates.len()
        invariant
            i <= candidates.len(),
            claims@.len() == candidates@.len(),
            id == (|c: RunCancellation| c.run_id),
            by_run(compatible@),
            compatible@.to_multiset() == claimed(
                candidates@.take(i as int),
                claims@,
                AdmissionClaim::Cancellable,
            ).to_multiset(),
            blockers@ == claimed(
                candidates@.take(i as int),
                claims@,
                AdmissionClaim::Blocking,
            ).map_values(id),
        decreases candidates.len() - i,
    {
        proof {
            broadcast use vstd::seq_lib::group_to_multiset_ensures;

            assert(candidates@.take(i + 1).drop_last() =~= candidates@.take(i as int));
            let was = claimed(candidates@.take(i as int), claims@, AdmissionClaim::Blocking);
            assert(was.push(candidates@[i as int]).map_values(id) =~= was.map_values(id).push(
                candidates@[i as int].run_id,
            ));
        }
        match claims[i] {
            AdmissionClaim::Harmless => {},
            AdmissionClaim::Cancellable => insert_by_run(&mut compatible, candidates[i]),
            AdmissionClaim::Blocking => blockers.push(candidates[i].run_id),
        }
        proof {
            broadcast use vstd::seq_lib::group_to_multiset_ensures;

        }
        i = i + 1;
    }
    proof {
        assert(candidates@.take(i as int) =~= candidates@);
    }
    (compatible, blockers)
}

/// Whether two maps from numbers to texts say the same.
fn same_heads(a: &BTreeMap<u64, String>, b: &BTreeMap<u64, String>) -> (r: bool)
    ensures
        r == (map_views(a@) == map_views(b@)),
{
    if a.len() != b.len() {
        proof {
            if map_views(a@) == map_views(b@) {
                assert(map_views(a@).dom() =~= a@.dom());
                assert(map_views(b@).dom() =~= b@.dom());
            }
        }
        return false;
    }
    let ghost all = a.iter().remaining();
    for (key, head) in it: a.iter()
        invariant
            it.seq() == a.iter().remaining(),
            forall|i: int|
                0 <= i < it.index() ==> b@.dom().contains(*(#[trigger] it.seq()[i]).0)
                    && b@[*it.seq()[i].0]@ == it.seq()[i].1@,
    {
        let same = match b.get(key) {
            Some(other) => str_eq(other.as_str(), head.as_str()),
            None => false,
        };
        if !same {
            proof {
                let k = *key;
                assert(a@.contains_key(k) && a@[k] == *head) by {
                    let i = it.index();
                    assert(*it.seq()[i].0 == k);
                }
                assert(map_views(a@).dom().contains(k));
                assert(map_views(a@)[k] == head@);
                if map_views(a@) == map_views(b@) {
                    assert(map_views(b@).dom().contains(k));
                    assert(b@.dom().contains(k));
                    assert(map_views(b@)[k] == b@[k]@);
                }
            }
            return false;
        }
    }
    proof {
        let seq = a.iter().remaining();
        assert forall|k: u64| #[trigger] a@.contains_key(k) implies b@.contains_key(k) && b@[k]@
            == a@[k]@ by {
            assert(seq.contains((&k, &a@[k])));
            let i = choose|i: int| 0 <= i < seq.len() && seq[i] == (&k, &a@[k]);
            assert(*seq[i].0 == k);
        }
        assert(a@.dom().subset_of(b@.dom()));
        vstd::set_lib::lemma_subset_equality(a@.dom(), b@.dom());
        assert(map_views(a@) =~= map_views(b@));
    }
    true
}

/// Refuses an admission whose ground has changed while the runs were inspected.
pub fn fence_admission_authority(
    observed: &(BTreeMap<u64, String>, Vec<u64>),
    observed_groups: &BTreeMap<u64, String>,
    current: &(BTreeMap<u64, String>, Vec<u64>),
    current_groups: &BTreeMap<u64, String>,
) -> (r: Result<(), String>)
    ensures
        if map_views(observed.0@) == map_views(current.0@) && observed.1@ == current.1@
            && map_views(observed_groups@) == map_views(current_groups@) {
            r is Ok
        } else {
            r matches Err(e) && e@ == "admission authority changed during active-run inspection"@
        },
{
    if same_heads(&observed.0, &current.0) && crate::model::same_numbers(
        &observed.1,
        &current.1,
    ) && same_heads(observed_groups, current_groups) {
        Ok(())
    } else {
        Err("admission authority changed during active-run inspection".to_owned())
    }
}

/// A run as if it were queued.
pub open spec fn queued_view(run: RunView) -> RunView {
    RunView { status: "queued"@, ..run }
}

/// The running runs among the given ones, as if they were queued.
pub open spec fn running_views(runs: Seq<StewardRun>) -> Seq<RunView>
    decreases runs.len(),
{
    if runs.len() == 0 {
        Seq::empty()
    } else {
        let rest = running_views(runs.drop_last());
        if same_ignoring_case(runs.last().status@, "in_progress"@) {
            rest.push(queued_view(runs.last()@))
        } else {
            rest
        }
    }
}

/// The running runs among the given ones, as if they were queued: so they are
/// planned for like the queued ones.
pub fn running_as_queued(runs: &Vec<StewardRun>) -> (r: Vec<StewardRun>)
    ensures
        run_views(r@) == running_views(runs@),
{
    let mut out: Vec<StewardRun> = Vec::new();
    let mut i: usize = 0;
    proof {
        assert(run_views(out@) =~= running_views(runs@.take(0)));
    }
    while i < runs.len()
        invariant
            i <= runs.len(),
            run_views(out@) == running_views(runs@.take(i as int)),
        decreases runs.len() - i,
    {
        let ghost before = run_views(out@);
        proof {
            assert(runs@.take(i + 1).drop_last() =~= runs@.take(i as int));
        }
        if eq_ignore_case(runs[i].status.as_str(), "in_progress") {
            let mut copy = runs[i].dup();
            copy.status = "queued".to_owned();
            proof {
                assert(copy@ =~= queued_view(runs@[i as int]@));
            }
            out.push(copy);
            proof {
                assert(run_views(out@) =~= before.push(queued_view(runs@[i as int]@)));
            }
        }
        i = i + 1;
    }
    proof {
        assert(runs@.take(i as int) =~= runs@);
    }
    out
}

/// Whether a record is pending for a repository and a branch.
pub open spec fn pending_for(
    record: PendingCancellation,
    repo: Seq<char>,
    base: Seq<char>,
) -> bool {
    record.repo@ == repo && record.base@ == base
}

/// The positions of the records that are pending for a repository and a branch.
pub open spec fn pending_positions(
    values: Seq<PendingCancellation>,
    n: int,
    repo: Seq<char>,
    base: Seq<char>,
) -> Seq<int>
    decreases n,
{
    if n <= 0 {
        Seq::empty()
    } else {
        let rest = pending_positions(values, n - 1, repo, base);
        if pending_for(values[n - 1], repo, base) {
            rest.push(n - 1)
        } else {
            rest
        }
    }
}

/// The records that are pending for a repository and a branch, in the order of
/// their keys.
pub fn pending_admission_cancellations(ledger: &StewardLedger, repo: &str, base: &str) -> (r: Vec<
    (String, PendingCancellation),
>)
    ensures
        ({
            let map = ledger.pending_cancellations;
            let at = pending_positions(map.values(), map.values().len() as int, repo@, base@);
            r@.len() == at.len() && forall|k: int|
                0 <= k < r@.len() ==> (#[trigger] r@[k]).0@ == map.keys()[at[k]] && r@[k].1@
                    == map.values()[at[k]]@
        }),
{
    let map = &ledger.pending_cancellations;
    let n: usize = map.len();
    let mut out: Vec<(String, PendingCancellation)> = Vec::new();
    let mut i: usize = 0;
    while i < n
        invariant
            i <= n,
            n == map.keys().len(),
            n == map.values().len(),
            ({
                let at = pending_positions(map.values(), i as int, repo@, base@);
                out@.len() == at.len() && forall|k: int|
                    0 <= k < out@.len() ==> (#[trigger] out@[k]).0@ == map.keys()[at[k]]
                        && out@[k].1@ == map.values()[at[k]]@
            }),
        decreases n - i,
    {
        let record = map.value_at(i);
        if str_eq(record.repo.as_str(), repo) && str_eq(record.base.as_str(), base) {
            out.push((map.key_at(i).clone(), record.dup()));
        }
        i = i + 1;
    }
    out
}

/// Whether a run stands in the way of an admission.
pub open spec fn blocks(
    candidates: Seq<RunCancellation>,
    blocking: Seq<u64>,
    pending: Seq<(String, PendingCancellation)>,
    n: u64,
) -> bool {
    ||| exists|i: int| 0 <= i < candidates.len() && (#[trigger] candidates[i]).run_id == n
    ||| blocking.contains(n)
    ||| exists|i: int| 0 <= i < pending.len() && (#[trigger] pending[i]).1.run_id == n
}

/// Whether a list names the runs that stand in the way of an admission.
pub open spec fn lists_blockers(
    s: Seq<u64>,
    candidates: Seq<RunCancellation>,
    blocking: Seq<u64>,
    pending: Seq<(String, PendingCancellation)>,
) -> bool {
    increasing(s) && forall|n: u64| #[trigger]
        s.contains(n) <==> blocks(candidates, blocking, pending, n)
}

/// The runs that stand in the way of an admission, by number and without
/// repetition.
pub open spec fn blocker_ids(
    candidates: Seq<RunCancellation>,
    blocking: Seq<u64>,
    pending: Seq<(String, PendingCancellation)>,
) -> Seq<u64> {
    choose|s: Seq<u64>| #[trigger] lists_blockers(s, candidates, blocking, pending)
}

/// The runs that stand in the way of an admission, by number and without
/// repetition.
pub fn admission_blocker_run_ids(
    candidates: &Vec<RunCancellation>,
    blocking: &Vec<u64>,
    pending: &Vec<(String, PendingCancellation)>,
) -> (r: Vec<u64>)
    ensures
        r@ == blocker_ids(candidates@, blocking@, pending@),
        lists_blockers(r@, candidates@, blocking@, pending@),
{
    let mut out: Vec<u64> = Vec::new();
    let mut i: usize = 0;
    while i < candidates.len()
        invariant
            i <= candidates.len(),
            increasing(out@),
            forall|n: u64| #[trigger]
                out@.contains(n) <==> exists|k: int|
                    0 <= k < i && (#[trigger] candidates@[k]).run_id == n,
        decreases candidates.len() - i,
    {
        let ghost before = out@;
        add_number(&mut out, candidates[i].run_id);
        proof {
            assert forall|n: u64| #[trigger] out@.contains(n) <==> exists|k: int|
                0 <= k < i + 1 && (#[trigger] candidates@[k]).run_id == n by {
                assert(before.contains(n) <==> exists|k: int|
                    0 <= k < i && (#[trigger] candidates@[k]).run_id == n);
                assert(candidates@[i as int].run_id == candidates@[i as int].run_id);
            }
        }
        i = i + 1;
    }
    let mut j: usize = 0;
    while j < blocking.len()
        invariant
            j <= blocking.len(),
            increasing(out@),
            forall|n: u64| #[trigger]
                out@.contains(n) <==> (exists|k: int|
                    0 <= k < candidates@.len() && (#[trigger] candidates@[k]).run_id == n)
                    || exists|k: int| 0 <= k < j && #[trigger] blocking@[k] == n,
        decreases blocking.len() - j,
    {
        let ghost before = out@;
        add_number(&mut out, blocking[j]);
        proof {
            assert forall|n: u64| #[trigger] out@.contains(n) <==> (exists|k: int|
                0 <= k < candidates@.len() && (#[trigger] candidates@[k]).run_id == n)
                || exists|k: int| 0 <= k < j + 1 && #[trigger] blocking@[k] == n by {
                assert(before.contains(n) <==> (exists|k: int|
                    0 <= k < candidates@.len() && (#[trigger] candidates@[k]).run_id == n)
                    || exists|k: int| 0 <= k < j && #[trigger] blocking@[k] == n);
                assert(blocking@[j as int] == blocking@[j as int]);
            }
        }
        j = j + 1;
    }
    proof {
        assert forall|n: u64| #[trigger] out@.contains(n) <==> blocks(
            candidates@,
            blocking@,
            Seq::empty(),
            n,
        ) by {}
    }
    let mut m: usize = 0;
    while m < pending.len()
        invariant
            m <= pending.len(),
            increasing(out@),
            forall|n: u64| #[trigger]
                out@.contains(n) <==> blocks(candidates@, blocking@, Seq::empty(), n)
                    || exists|k: int| 0 <= k < m && (#[trigger] pending@[k]).1.run_id == n,
        decreases pending.len() - m,
    {
        let ghost before = out@;
        add_number(&mut out, pending[m].1.run_id);
        proof {
            assert forall|n: u64| #[trigger] out@.contains(n) <==> blocks(
                candidates@,
                blocking@,
                Seq::empty(),
                n,
            ) || exists|k: int| 0 <= k < m + 1 && (#[trigger] pending@[k]).1.run_id == n by {
                assert(before.contains(n) <==> blocks(candidates@, blocking@, Seq::empty(), n)
                    || exists|k: int| 0 <= k < m && (#[trigger] pending@[k]).1.run_id == n);
                assert(pending@[m as int].1.run_id == pending@[m as int].1.run_id);
            }
        }
        m = m + 1;
    }
    proof {
        assert forall|n: u64| #[trigger] out@.contains(n) <==> blocks(
            candidates@,
            blocking@,
            pending@,
            n,
        ) by {}
        assert(lists_blockers(out@, candidates@, blocking@, pending@));
        let s = blocker_ids(candidates@, blocking@, pending@);
        assert(lists_blockers(s, candidates@, blocking@, pending@));
        increasing_is_unique(out@, s);
    }
    out
}

/// The members of a verdict's report.
pub open spec fn verdict_members(
    verdict: AdmissionVerdict,
    reason: Seq<char>,
    repo: Seq<char>,
    base: Seq<char>,
    labels: Seq<Seq<char>>,
    observed_at: Seq<char>,
    blockers: Seq<u64>,
    error: Option<Seq<char>>,
) -> Seq<(Seq<char>, JsonTree)> {
    let members = seq![
        ("schema_version"@, JsonTree::Number(Some(1))),
        ("command"@, JsonTree::Text("runner:admission-clean"@)),
        ("verdict"@, JsonTree::Text(verdict.name())),
        ("reason"@, JsonTree::Text(reason)),
        ("repo"@, JsonTree::Text(repo)),
        ("base"@, JsonTree::Text(base)),
        (
            "labels"@,
            JsonTree::Array(Seq::new(labels.len(), |i: int| JsonTree::Text(labels[i]))),
        ),
        ("observed_at"@, JsonTree::Text(observed_at)),
        (
            "blocker_run_ids"@,
            JsonTree::Array(Seq::new(blockers.len(), |i: int| JsonTree::Number(Some(blockers[i])))),
        ),
    ];
    match error {
        Some(e) => members.push(("error"@, JsonTree::Text(bounded(e)))),
        None => members,
    }
}

/// What is told of an admission.
#[derive(Debug)]
pub struct AdmissionReport {
    pub verdict: AdmissionVerdict,
    pub reason: &'static str,
    pub blockers: Vec<u64>,
    pub error: Option<String>,
}

/// What is told of an admission, in texts.
pub struct AdmissionView {
    pub verdict: AdmissionVerdict,
    pub reason: Seq<char>,
    pub blockers: Seq<u64>,
    pub error: Option<Seq<char>>,
}

impl View for AdmissionReport {
    type V = AdmissionView;

    open spec fn view(&self) -> AdmissionView {
        AdmissionView {
            verdict: self.verdict,
            reason: self.reason@,
            blockers: self.blockers@,
            error: opt_view(self.error),
        }
    }
}

/// A verdict's report as a JSON object.
pub fn emit_admission_verdict(
    report: &AdmissionReport,
    repo: &str,
    base: &str,
    labels: &Vec<String>,
    observed_at: &str,
) -> (r: Json)
    ensures
        r@ == JsonTree::Object(
            verdict_members(
                report.verdict,
                report.reason@,
                repo@,
                base@,
                views(labels@),
                observed_at@,
                report.blockers@,
                opt_view(report.error),
            ),
        ),
{
    let mut members: Vec<(String, Json)> = Vec::new();
    members.push(("schema_version".to_owned(), Json::Number(Some(1))));
    members.push(("command".to_owned(), Json::Text("runner:admission-clean".to_owned())));
    members.push(("verdict".to_owned(), Json::Text(report.verdict.label().to_owned())));
    members.push(("reason".to_owned(), Json::Text(report.reason.to_owned())));
    members.push(("repo".to_owned(), Json::Text(repo.to_owned())));
    members.push(("base".to_owned(), Json::Text(base.to_owned())));
    members.push(("labels".to_owned(), text_array(labels)));
    members.push(("observed_at".to_owned(), Json::Text(observed_at.to_owned())));
    members.push(("blocker_run_ids".to_owned(), number_array(&report.blockers)));
    match &report.error {
        Some(error) => {
            members.push(
                ("error".to_owned(), Json::Text(bounded_admission_error(error.as_str()))),
            );
        },
        None => {},
    }
    proof {
        let want = verdict_members(
            report.verdict,
            report.reason@,
            repo@,
            base@,
            views(labels@),
            observed_at@,
            report.blockers@,
            opt_view(report.error),
        );
        assert(members_of(members@) =~= want);
    }
    object(members)
}

/// A verdict's report in lines: the verdict, the error, and the runs that stand
/// in the way.
pub open spec fn verdict_lines(report: AdmissionView) -> Seq<Seq<char>> {
    let first = seq![report.verdict.name() + ": "@ + report.reason];
    let second = match report.error {
        Some(e) => first.push("error: "@ + bounded(e)),
        None => first,
    };
    if report.blockers.len() > 0 {
        second.push("blocker runs: "@ + number_list(report.blockers))
    } else {
        second
    }
}

/// A verdict's report in lines.
pub fn print_admission_verdict(report: &AdmissionReport) -> (r: Vec<String>)
    ensures
        views(r@) == verdict_lines(report@),
{
    let mut out: Vec<String> = Vec::new();
    out.push(concat3(report.verdict.label(), ": ", report.reason));
    match &report.error {
        Some(error) => {
            out.push(concat("error: ", bounded_admission_error(error.as_str()).as_str()));
        },
        None => {},
    }
    if report.blockers.len() > 0 {
        out.push(concat("blocker runs: ", print_numbers(&report.blockers).as_str()));
    }
    proof {
        assert(views(out@) =~= verdict_lines(report@));
    }
    out
}

/// What the command does next.
#[derive(Clone, Copy, Debug, PartialEq, Eq, Structural)]
pub enum AdmissionStage {
    /// Take the lock on the observation.
    Lock,
    /// Observe the repository and inspect its runs.
    Observe,
    /// Load the ledger.
    Load,
    /// Nothing stands in the way: take the lock on the ledger.
    CleanLock,
    /// Load the ledger under the lock.
    CleanLoad,
    /// Inspect the runs again.
    CleanRevalidate,
    /// Read who may change things.
    Authority,
    /// Take the lock on the ledger to change things.
    ApplyLock,
    /// Load the ledger under the lock.
    ApplyLoad,
    /// Take up the pending record at this position.
    Resume(usize),
    /// Observe the repository again.
    Reobserve,
    /// Cancel the candidate at this position.
    Cancel(usize),
    /// Save the ledger after a failed cancellation.
    SaveFailed,
    /// Save the ledger.
    Save,
    /// Observe the repository for the last time.
    FinalObserve,
}

/// What came of a step.
#[derive(Debug)]
pub enum AdmissionReply {
    Done,
    Failed(String),
    /// Somebody else holds the lock.
    Busy,
    /// What the inspection found.
    Inspected { candidates: Vec<RunCancellation>, blocking: Vec<u64> },
    /// What the inspection found, and the records that are still pending.
    Reinspected {
        candidates: Vec<RunCancellation>,
        blocking: Vec<u64>,
        pending: Vec<(String, PendingCancellation)>,
    },
    /// The pending records of the repository and the branch.
    Pending(Vec<(String, PendingCancellation)>),
    /// Whether this machine may change things.
    Authority(bool),
}

/// What comes of a step.
#[derive(Debug)]
pub enum AdmissionStep {
    Next(AdmissionStage),
    Verdict(AdmissionReport),
    /// The command fails with the error of the step itself.
    Fail,
}

/// What comes of a step, in texts.
pub enum AdmissionStepView {
    Next(AdmissionStage),
    Verdict(AdmissionView),
    Fail,
}

impl View for AdmissionStep {
    type V = AdmissionStepView;

    open spec fn view(&self) -> AdmissionStepView {
        match *self {
            AdmissionStep::Next(stage) => AdmissionStepView::Next(stage),
            AdmissionStep::Verdict(report) => AdmissionStepView::Verdict(report@),
            AdmissionStep::Fail => AdmissionStepView::Fail,
        }
    }
}

/// An admission under way.
#[derive(Debug)]
pub struct Admission {
    pub apply: bool,
    pub candidates: Vec<RunCancellation>,
    pub blocking: Vec<u64>,
    /// How many pending records are taken up.
    pub pending: usize,
    pub blockers: Vec<u64>,
    pub held: String,
}

/// What an admission knows.
pub struct AdmissionState {
    pub apply: bool,
    pub candidates: Seq<RunCancellation>,
    pub blocking: Seq<u64>,
    pub pending: nat,
    pub blockers: Seq<u64>,
    pub held: Seq<char>,
}

impl View for Admission {
    type V = AdmissionState;

    open spec fn view(&self) -> AdmissionState {
        AdmissionState {
            apply: self.apply,
            candidates: self.candidates@,
            blocking: self.blocking@,
            pending: self.pending as nat,
            blockers: self.blockers@,
            held: self.held@,
        }
    }
}

/// Admits with a reason.
pub open spec fn admits(reason: Seq<char>) -> AdmissionStepView {
    AdmissionStepView::Verdict(
        AdmissionView {
            verdict: AdmissionVerdict::Admit,
            reason,
            blockers: Seq::empty(),
            error: None,
        },
    )
}

/// Defers with a reason.
pub open spec fn defers(reason: Seq<char>, blockers: Seq<u64>) -> AdmissionStepView {
    AdmissionStepView::Verdict(
        AdmissionView { verdict: AdmissionVerdict::Defer, reason, blockers, error: None },
    )
}

/// Fails with a reason.
pub open spec fn errs(
    reason: Seq<char>,
    blockers: Seq<u64>,
    error: Option<Seq<char>>,
) -> AdmissionStepView {
    AdmissionStepView::Verdict(
        AdmissionView { verdict: AdmissionVerdict::Error, reason, blockers, error },
    )
}

/// Why runs that stand in the way defer an admission.
pub open spec fn defer_reason(only_blocking: bool) -> Seq<char> {
    if only_blocking {
        "stale_compatible_runs"@
    } else {
        "cancellation_pending"@
    }
}

/// What is told while somebody else holds the ledger.
pub open spec fn ledger_busy(blockers: Seq<u64>) -> AdmissionStepView {
    AdmissionStepView::Verdict(
        AdmissionView {
            verdict: AdmissionVerdict::Defer,
            reason: "stewardship_in_progress"@,
            blockers,
            error: Some("another steward apply pass is already running"@),
        },
    )
}

/// What an admission does after a reply, and what it knows then. A reply that
/// belongs to another stage changes nothing.
pub open spec fn admission_flow(
    state: AdmissionState,
    stage: AdmissionStage,
    reply: AdmissionReply,
) -> (AdmissionStepView, AdmissionState) {
    let none = Seq::<u64>::empty();
    match (stage, reply) {
        (AdmissionStage::Lock, AdmissionReply::Done) => (
            AdmissionStepView::Next(AdmissionStage::Observe),
            state,
        ),
        (AdmissionStage::Lock, AdmissionReply::Busy) => (
            defers("observation_in_progress"@, none),
            state,
        ),
        (AdmissionStage::Lock, AdmissionReply::Failed(e)) | (
            AdmissionStage::Observe,
            AdmissionReply::Failed(e),
        ) => (errs("observation_failed"@, none, Some(e@)), state),
        (AdmissionStage::Observe, AdmissionReply::Inspected { candidates, blocking }) => (
            AdmissionStepView::Next(AdmissionStage::Load),
            AdmissionState { candidates: candidates@, blocking: blocking@, ..state },
        ),
        (AdmissionStage::Load, AdmissionReply::Failed(_)) => (
            errs("mutation_failed"@, none, None),
            state,
        ),
        (AdmissionStage::Load, AdmissionReply::Pending(pending)) => {
            let blockers = blocker_ids(state.candidates, state.blocking, pending@);
            let after = AdmissionState { blockers, ..state };
            if state.candidates.len() == 0 && state.blocking.len() == 0 && pending@.len() == 0 {
                (AdmissionStepView::Next(AdmissionStage::CleanLock), after)
            } else if !state.apply {
                (defers(defer_reason(pending@.len() == 0), blockers), after)
            } else {
                (AdmissionStepView::Next(AdmissionStage::Authority), after)
            }
        },
        (AdmissionStage::CleanLock, AdmissionReply::Done) => (
            AdmissionStepView::Next(AdmissionStage::CleanLoad),
            state,
        ),
        (AdmissionStage::CleanLock, AdmissionReply::Busy) => (ledger_busy(none), state),
        (AdmissionStage::CleanLock, AdmissionReply::Failed(e)) => (
            errs("mutation_failed"@, none, Some(e@)),
            state,
        ),
        (AdmissionStage::CleanLoad, AdmissionReply::Failed(_)) => (AdmissionStepView::Fail, state),
        (AdmissionStage::CleanLoad, AdmissionReply::Pending(pending)) => if pending@.len() > 0 {
            (
                defers("cancellation_pending"@, blocker_ids(Seq::empty(), none, pending@)),
                state,
            )
        } else {
            (AdmissionStepView::Next(AdmissionStage::CleanRevalidate), state)
        },
        (AdmissionStage::CleanRevalidate, AdmissionReply::Failed(e)) => (
            errs("revalidation_failed"@, none, Some(e@)),
            state,
        ),
        (AdmissionStage::CleanRevalidate, AdmissionReply::Inspected { candidates, blocking }) => (
            if candidates@.len() == 0 && blocking@.len() == 0 {
                admits("clean"@)
            } else {
                defers(
                    "stale_compatible_runs"@,
                    blocker_ids(candidates@, blocking@, Seq::empty()),
                )
            },
            state,
        ),
        (AdmissionStage::Authority, AdmissionReply::Failed(_)) => (
            errs("authority_failed"@, state.blockers, None),
            state,
        ),
        (AdmissionStage::Authority, AdmissionReply::Authority(ours)) => (
            if ours {
                AdmissionStepView::Next(AdmissionStage::ApplyLock)
            } else {
                defers("mutation_authority_required"@, state.blockers)
            },
            state,
        ),
        (AdmissionStage::ApplyLock, AdmissionReply::Done) => (
            AdmissionStepView::Next(AdmissionStage::ApplyLoad),
            state,
        ),
        (AdmissionStage::ApplyLock, AdmissionReply::Busy) => (ledger_busy(state.blockers), state),
        (AdmissionStage::ApplyLock, AdmissionReply::Failed(e)) => (
            errs("mutation_failed"@, state.blockers, Some(e@)),
            state,
        ),
        (AdmissionStage::ApplyLoad, AdmissionReply::Failed(_)) => (AdmissionStepView::Fail, state),
        (AdmissionStage::ApplyLoad, AdmissionReply::Pending(pending)) => (
            AdmissionStepView::Next(
                if pending@.len() > 0 {
                    AdmissionStage::Resume(0)
                } else {
                    AdmissionStage::Reobserve
                },
            ),
            AdmissionState {
                pending: pending@.len(),
                blockers: blocker_ids(state.candidates, state.blocking, pending@),
                ..state
            },
        ),
        (AdmissionStage::Resume(_), AdmissionReply::Failed(_)) => (
            errs("mutation_failed"@, state.blockers, None),
            state,
        ),
        (AdmissionStage::Resume(i), AdmissionReply::Done) => (
            AdmissionStepView::Next(
                if i + 1 < state.pending {
                    AdmissionStage::Resume((i + 1) as usize)
                } else {
                    AdmissionStage::Reobserve
                },
            ),
            state,
        ),
        (AdmissionStage::Reobserve, AdmissionReply::Failed(e)) | (
            AdmissionStage::FinalObserve,
            AdmissionReply::Failed(e),
        ) => (errs("revalidation_failed"@, state.blockers, Some(e@)), state),
        (
            AdmissionStage::Reobserve,
            AdmissionReply::Reinspected { candidates, blocking, pending },
        ) => {
            let blockers = blocker_ids(candidates@, blocking@, pending@);
            (
                if candidates@.len() == 0 && blocking@.len() == 0 {
                    admits("cleaned"@)
                } else if candidates@.len() == 0 {
                    defers("stale_compatible_runs"@, blockers)
                } else {
                    AdmissionStepView::Next(AdmissionStage::Cancel(0))
                },
                AdmissionState {
                    candidates: candidates@,
                    blocking: blocking@,
                    blockers,
                    ..state
                },
            )
        },
        (AdmissionStage::Cancel(_), AdmissionReply::Failed(e)) => (
            AdmissionStepView::Next(AdmissionStage::SaveFailed),
            AdmissionState { held: e@, ..state },
        ),
        (AdmissionStage::Cancel(i), AdmissionReply::Done) => (
            AdmissionStepView::Next(
                if i + 1 < state.candidates.len() {
                    AdmissionStage::Cancel((i + 1) as usize)
                } else {
                    AdmissionStage::Save
                },
            ),
            state,
        ),
        (AdmissionStage::SaveFailed, AdmissionReply::Done) | (
            AdmissionStage::SaveFailed,
            AdmissionReply::Failed(_),
        ) => (errs("mutation_failed"@, state.blockers, Some(state.held)), state),
        (AdmissionStage::Save, AdmissionReply::Done) => (
            AdmissionStepView::Next(AdmissionStage::FinalObserve),
            state,
        ),
        (AdmissionStage::Save, AdmissionReply::Failed(_)) => (AdmissionStepView::Fail, state),
        (AdmissionStage::FinalObserve, AdmissionReply::Inspected { candidates, blocking }) => (
            if candidates@.len() == 0 && blocking@.len() == 0 {
                admits("cleaned"@)
            } else {
                defers(
                    defer_reason(candidates@.len() == 0),
                    blocker_ids(candidates@, blocking@, Seq::empty()),
                )
            },
            state,
        ),
        _ => (AdmissionStepView::Next(stage), state),
    }
}

fn admitted(reason: &'static str) -> (r: AdmissionStep)
    ensures
        r@ == admits(reason@),
{
    let blockers: Vec<u64> = Vec::new();
    proof {
        assert(blockers@ =~= Seq::<u64>::empty());
    }
    AdmissionStep::Verdict(
        AdmissionReport { verdict: AdmissionVerdict::Admit, reason, blockers, error: None },
    )
}

fn defer(reason: &'static str, blockers: Vec<u64>) -> (r: AdmissionStep)
    ensures
        r@ == defers(reason@, blockers@),
{
    AdmissionStep::Verdict(
        AdmissionReport { verdict: AdmissionVerdict::Defer, reason, blockers, error: None },
    )
}

fn err(reason: &'static str, blockers: Vec<u64>, error: Option<String>) -> (r: AdmissionStep)
    ensures
        r@ == errs(reason@, blockers@, opt_view(error)),
{
    AdmissionStep::Verdict(
        AdmissionReport { verdict: AdmissionVerdict::Error, reason, blockers, error },
    )
}

fn busy(blockers: Vec<u64>) -> (r: AdmissionStep)
    ensures
        r@ == ledger_busy(blockers@),
{
    AdmissionStep::Verdict(
        AdmissionReport {
            verdict: AdmissionVerdict::Defer,
            reason: "stewardship_in_progress",
            blockers,
            error: Some("another steward apply pass is already running".to_owned()),
        },
    )
}

fn nobody() -> (r: Vec<u64>)
    ensures
        r@ == Seq::<u64>::empty(),
{
    let r: Vec<u64> = Vec::new();
    proof {
        assert(r@ =~= Seq::<u64>::empty());
    }
    r
}

fn copy_numbers(list: &Vec<u64>) -> (r: Vec<u64>)
    ensures
        r@ == list@,
{
    let mut out: Vec<u64> = Vec::new();
    let mut i: usize = 0;
    while i < list.len()
        invariant
            i <= list.len(),
            out@ =~= list@.take(i as int),
        decreases list.len() - i,
    {
        out.push(list[i]);
        i = i + 1;
    }
    proof {
        assert(list@.take(i as int) =~= list@);
    }
    out
}

/// Begins an admission.
pub fn begin_admission(apply: bool) -> (r: Admission)
    ensures
        r.apply == apply,
        r.candidates@.len() == 0,
        r.blocking@.len() == 0,
        r.blockers@.len() == 0,
        r.pending == 0,
        r.held@.len() == 0,
{
    proof {
        reveal_strlit("");
    }
    Admission {
        apply,
        candidates: Vec::new(),
        blocking: Vec::new(),
        pending: 0,
        blockers: Vec::new(),
        held: String::new(),
    }
}

/// Takes one step of an admission where nothing seemed to stand in the way.
fn admit_clean(admission: &Admission, stage: AdmissionStage, reply: AdmissionReply) -> (r:
    AdmissionStep)
    requires
        stage is CleanLock || stage is CleanLoad || stage is CleanRevalidate,
    ensures
        r@ == admission_flow(admission@, stage, reply).0,
        admission_flow(admission@, stage, reply).1 == admission@,
{
    match (stage, reply) {
        (AdmissionStage::CleanLock, AdmissionReply::Done) => AdmissionStep::Next(
            AdmissionStage::CleanLoad,
        ),
        (AdmissionStage::CleanLock, AdmissionReply::Busy) => busy(nobody()),
        (AdmissionStage::CleanLock, AdmissionReply::Failed(error)) => err(
            "mutation_failed",
            nobody(),
            Some(error),
        ),
        (AdmissionStage::CleanLoad, AdmissionReply::Failed(_)) => AdmissionStep::Fail,
        (AdmissionStage::CleanLoad, AdmissionReply::Pending(pending)) => {
            if pending.len() > 0 {
                let candidates: Vec<RunCancellation> = Vec::new();
                proof {
                    assert(candidates@ =~= Seq::<RunCancellation>::empty());
                }
                defer(
                    "cancellation_pending",
                    admission_blocker_run_ids(&candidates, &nobody(), &pending),
                )
            } else {
                AdmissionStep::Next(AdmissionStage::CleanRevalidate)
            }
        },
        (AdmissionStage::CleanRevalidate, AdmissionReply::Failed(error)) => err(
            "revalidation_failed",
            nobody(),
            Some(error),
        ),
        (AdmissionStage::CleanRevalidate, AdmissionReply::Inspected { candidates, blocking }) => {
            if candidates.len() == 0 && blocking.len() == 0 {
                admitted("clean")
            } else {
                let pending: Vec<(String, PendingCancellation)> = Vec::new();
                proof {
                    assert(pending@ =~= Seq::<(String, PendingCancellation)>::empty());
                }
                defer(
                    "stale_compatible_runs",
                    admission_blocker_run_ids(&candidates, &blocking, &pending),
                )
            }
        },
        _ => AdmissionStep::Next(stage),
    }
}

/// Takes one step of an admission.
pub fn admission_clean_command(
    admission: &mut Admission,
    stage: AdmissionStage,
    reply: AdmissionReply,
) -> (r: AdmissionStep)
    requires
        stage matches AdmissionStage::Resume(i) ==> i < old(admission).pending,
        stage matches AdmissionStage::Cancel(i) ==> i < old(admission).candidates@.len(),
    ensures
        (r@, final(admission)@) == admission_flow(old(admission)@, stage, reply),
{
    match (stage, reply) {
        (AdmissionStage::Lock, AdmissionReply::Done) => AdmissionStep::Next(
            AdmissionStage::Observe,
        ),
        (AdmissionStage::Lock, AdmissionReply::Busy) => defer("observation_in_progress", nobody()),
        (AdmissionStage::Lock, AdmissionReply::Failed(error)) => err(
            "observation_failed",
            nobody(),
            Some(error),
        ),
        (AdmissionStage::Observe, AdmissionReply::Failed(error)) => err(
            "observation_failed",
            nobody(),
            Some(error),
        ),
        (AdmissionStage::Observe, AdmissionReply::Inspected { candidates, blocking }) => {
            admission.candidates = candidates;
            admission.blocking = blocking;
            AdmissionStep::Next(AdmissionStage::Load)
        },
        (AdmissionStage::Load, AdmissionReply::Failed(_)) => err("mutation_failed", nobody(), None),
        (AdmissionStage::Load, AdmissionReply::Pending(pending)) => {
            admission.blockers = admission_blocker_run_ids(
                &admission.candidates,
                &admission.blocking,
                &pending,
            );
            if admission.candidates.len() == 0 && admission.blocking.len() == 0 && pending.len()
                == 0 {
                AdmissionStep::Next(AdmissionStage::CleanLock)
            } else if !admission.apply {
                defer(
                    if pending.len() == 0 {
                        "stale_compatible_runs"
                    } else {
                        "cancellation_pending"
                    },
                    copy_numbers(&admission.blockers),
                )
            } else {
                AdmissionStep::Next(AdmissionStage::Authority)
            }
        },
        (AdmissionStage::CleanLock, reply) => admit_clean(admission, stage, reply),
        (AdmissionStage::CleanLoad, reply) => admit_clean(admission, stage, reply),
        (AdmissionStage::CleanRevalidate, reply) => admit_clean(admission, stage, reply),
        (AdmissionStage::Authority, AdmissionReply::Failed(_)) => err(
            "authority_failed",
            copy_numbers(&admission.blockers),
            None,
        ),
        (AdmissionStage::Authority, AdmissionReply::Authority(ours)) => {
            if ours {
                AdmissionStep::Next(AdmissionStage::ApplyLock)
            } else {
                defer("mutation_authority_required", copy_numbers(&admission.blockers))
            }
        },
        (AdmissionStage::ApplyLock, AdmissionReply::Done) => AdmissionStep::Next(
            AdmissionStage::ApplyLoad,
        ),
        (AdmissionStage::ApplyLock, AdmissionReply::Busy) => busy(
            copy_numbers(&admission.blockers),
        ),
        (AdmissionStage::ApplyLock, AdmissionReply::Failed(error)) => err(
            "mutation_failed",
            copy_numbers(&admission.blockers),
            Some(error),
        ),
        (AdmissionStage::ApplyLoad, AdmissionReply::Failed(_)) => AdmissionStep::Fail,
        (AdmissionStage::ApplyLoad, AdmissionReply::Pending(pending)) => {
            admission.pending = pending.len();
            admission.blockers = admission_blocker_run_ids(
                &admission.candidates,
                &admission.blocking,
                &pending,
            );
            if pending.len() > 0 {
                AdmissionStep::Next(AdmissionStage::Resume(0))
            } else {
                AdmissionStep::Next(AdmissionStage::Reobserve)
            }
        },
        (AdmissionStage::Resume(_), AdmissionReply::Failed(_)) => err(
            "mutation_failed",
            copy_numbers(&admission.blockers),
            None,
        ),
        (AdmissionStage::Resume(i), AdmissionReply::Done) => {
            if i + 1 < admission.pending {
                AdmissionStep::Next(AdmissionStage::Resume(i + 1))
            } else {
                AdmissionStep::Next(AdmissionStage::Reobserve)
            }
        },
        (AdmissionStage::Reobserve, AdmissionReply::Failed(error)) => err(
            "revalidation_failed",
            copy_numbers(&admission.blockers),
            Some(error),
        ),
        (
            AdmissionStage::Reobserve,
            AdmissionReply::Reinspected { candidates, blocking, pending },
        ) => {
            admission.blockers = admission_blocker_run_ids(&candidates, &blocking, &pending);
            admission.candidates = candidates;
            admission.blocking = blocking;
            if admission.candidates.len() == 0 && admission.blocking.len() == 0 {
                admitted("cleaned")
            } else if admission.candidates.len() == 0 {
                defer("stale_compatible_runs", copy_numbers(&admission.blockers))
            } else {
                AdmissionStep::Next(AdmissionStage::Cancel(0))
            }
        },
        (AdmissionStage::Cancel(_), AdmissionReply::Failed(error)) => {
            admission.held = error;
            AdmissionStep::Next(AdmissionStage::SaveFailed)
        },
        (AdmissionStage::Cancel(i), AdmissionReply::Done) => {
            let n: usize = admission.candidates.len();
            if i + 1 < n {
                AdmissionStep::Next(AdmissionStage::Cancel(i + 1))
            } else {
                AdmissionStep::Next(AdmissionStage::Save)
            }
        },
        (AdmissionStage::SaveFailed, AdmissionReply::Done) | (
            AdmissionStage::SaveFailed,
            AdmissionReply::Failed(_),
        ) => err(
            "mutation_failed",
            copy_numbers(&admission.blockers),
            Some(admission.held.clone()),
        ),
        (AdmissionStage::Save, AdmissionReply::Done) => AdmissionStep::Next(
            AdmissionStage::FinalObserve,
        ),
        (AdmissionStage::Save, AdmissionReply::Failed(_)) => AdmissionStep::Fail,
        (AdmissionStage::FinalObserve, AdmissionReply::Failed(error)) => err(
            "revalidation_failed",
            copy_numbers(&admission.blockers),
            Some(error),
        ),
        (AdmissionStage::FinalObserve, AdmissionReply::Inspected { candidates, blocking }) => {
            if candidates.len() == 0 && blocking.len() == 0 {
                admitted("cleaned")
            } else {
                let pending: Vec<(String, PendingCancellation)> = Vec::new();
                proof {
                    assert(pending@ =~= Seq::<(String, PendingCancellation)>::empty());
                }
                defer(
                    if candidates.len() == 0 {
                        "stale_compatible_runs"
                    } else {
                        "cancellation_pending"
                    },
                    admission_blocker_run_ids(&candidates, &blocking, &pending),
                )
            }
        },
        _ => AdmissionStep::Next(stage),
    }
}

/// A machine is admitted only right after an inspection that found no run which
/// could claim it.
pub proof fn admission_follows_a_clean_inspection(
    state: AdmissionState,
    stage: AdmissionStage,
    reply: AdmissionReply,
)
    requires
        admission_flow(state, stage, reply).0 matches AdmissionStepView::Verdict(report)
            && report.verdict == AdmissionVerdict::Admit,
    ensures
        match reply {
            AdmissionReply::Inspected { candidates, blocking } => candidates@.len() == 0
                && blocking@.len() == 0,
            AdmissionReply::Reinspected { candidates, blocking, .. } => candidates@.len() == 0
                && blocking@.len() == 0,
            _ => false,
        },
{
}

/// A command that only looks never changes anything: it never gets to take up a
/// record or to cancel a run.
pub proof fn looking_never_cancels(
    state: AdmissionState,
    stage: AdmissionStage,
    reply: AdmissionReply,
)
    requires
        !state.apply,
        stage is Lock || stage is Observe || stage is Load || stage is CleanLock || stage
            is CleanLoad || stage is CleanRevalidate,
    ensures
        !admission_flow(state, stage, reply).1.apply,
        admission_flow(state, stage, reply).0 matches AdmissionStepView::Next(next) ==> (next
            is Lock || next is Observe || next is Load || next is CleanLock || next is CleanLoad
            || next is CleanRevalidate),
{
}

/// The file that keeps two observations of one target apart.
pub open spec fn observation_lock(repo: Seq<char>, base: Seq<char>, labels: Seq<Seq<char>>) -> Seq<
    char,
> {
    sha256_hex(target_json(lower(repo), base, labels)) + ".lock"@
}

/// The file that keeps two observations of one target apart.
pub fn try_acquire_admission_observation_lock(repo: &str, base: &str, labels: &Vec<String>) -> (r:
    Result<String, String>)
    ensures
        r matches Ok(name) && name@ == observation_lock(repo@, base@, views(labels@)),
{
    match encode_target(to_lower(repo).as_str(), base, labels) {
        Ok(bytes) => Ok(concat(hex_digest(&bytes).as_str(), ".lock")),
        Err(error) => Err(concat("could not encode admission observation key: ", error.as_str())),
    }
}

/// Whether a step belongs to a command that changes things.
pub open spec fn changes_things(stage: AdmissionStage) -> bool {
    stage is Authority || stage is ApplyLock || stage is ApplyLoad || stage is Resume || stage
        is Reobserve || stage is Cancel || stage is SaveFailed || stage is Save || stage
        is FinalObserve
}

/// How far a command that changes things has come, where nothing fails: first the
/// records that are pending, then every candidate, then the last observation.
pub open spec fn changes_made(state: AdmissionState, stage: AdmissionStage) -> (nat, nat) {
    match stage {
        AdmissionStage::Authority => (0, 0),
        AdmissionStage::ApplyLock => (1, 0),
        AdmissionStage::ApplyLoad => (2, 0),
        AdmissionStage::Resume(i) => (3, i as nat),
        AdmissionStage::Reobserve => (4, 0),
        AdmissionStage::Cancel(i) => (5, i as nat),
        AdmissionStage::Save => (6, 0),
        AdmissionStage::FinalObserve => (7, 0),
        _ => (0, 0),
    }
}

/// Whether a reply at a step of a command that changes things is favourable.
pub open spec fn lets_changes_go_on(stage: AdmissionStage, reply: AdmissionReply) -> bool {
    match stage {
        AdmissionStage::Authority => reply == AdmissionReply::Authority(true),
        AdmissionStage::ApplyLock => reply is Done,
        AdmissionStage::ApplyLoad => reply is Pending,
        AdmissionStage::Resume(_) => reply is Done,
        AdmissionStage::Cancel(_) => reply is Done,
        AdmissionStage::Save => reply is Done,
        _ => false,
    }
}

/// A command that is told to change things, on a machine that may, goes on after every
/// favourable reply and does not end early: it takes the lock, takes up every pending
/// record, and after the second observation cancels every candidate, one after the
/// other, before it saves and observes for the last time.
pub proof fn every_candidate_is_cancelled_before_a_verdict(
    state: AdmissionState,
    stage: AdmissionStage,
    reply: AdmissionReply,
)
    requires
        lets_changes_go_on(stage, reply),
        state.pending <= usize::MAX,
        state.candidates.len() <= usize::MAX,
        stage matches AdmissionStage::Resume(i) ==> i < state.pending,
        stage matches AdmissionStage::Cancel(i) ==> i < state.candidates.len(),
    ensures
        ({
            let (step, after) = admission_flow(state, stage, reply);
            &&& after.apply == state.apply
            &&& after.candidates == state.candidates
            &&& step matches AdmissionStepView::Next(next) && changes_things(next) && match stage {
                AdmissionStage::Resume(i) => if i + 1 < state.pending {
                    changes_made(after, next) == (3nat, (i + 1) as nat)
                } else {
                    changes_made(after, next) == (4nat, 0nat)
                },
                AdmissionStage::Cancel(i) => if i + 1 < state.candidates.len() {
                    changes_made(after, next) == (5nat, (i + 1) as nat)
                } else {
                    changes_made(after, next) == (6nat, 0nat)
                },
                AdmissionStage::ApplyLoad => if reply->Pending_0@.len() > 0 {
                    changes_made(after, next) == (3nat, 0nat) && after.pending
                        == reply->Pending_0@.len()
                } else {
                    changes_made(after, next) == (4nat, 0nat)
                },
                _ => changes_made(after, next).0 == changes_made(state, stage).0 + 1,
            }
        }),
{
}

/// A command that observed for the second time cancels what it found, from the first
/// candidate on; where nothing is to be cancelled it admits exactly where nothing
/// blocks.
pub proof fn a_second_observation_leads_to_cancelling(
    state: AdmissionState,
    candidates: Vec<RunCancellation>,
    blocking: Vec<u64>,
    pending: Vec<(String, PendingCancellation)>,
)
    ensures
        ({
            let (step, after) = admission_flow(
                state,
                AdmissionStage::Reobserve,
                AdmissionReply::Reinspected { candidates, blocking, pending },
            );
            &&& after.candidates == candidates@
            &&& after.blocking == blocking@
            &&& candidates@.len() > 0 <==> step == AdmissionStepView::Next(
                AdmissionStage::Cancel(0),
            )
            &&& step matches AdmissionStepView::Verdict(report) ==> (report.verdict
                == AdmissionVerdict::Admit <==> blocking@.len() == 0) && report.verdict
                != AdmissionVerdict::Error
        }),
{
}

/// What is found first decides the way: with nothing in the way the command makes sure
/// under the lock; with something in the way a command that only looks defers, and one
/// that changes things asks for its authority. The runs in the way are told.
pub proof fn what_is_in_the_way_decides(
    state: AdmissionState,
    pending: Vec<(String, PendingCancellation)>,
)
    ensures
        ({
            let (step, after) = admission_flow(
                state,
                AdmissionStage::Load,
                AdmissionReply::Pending(pending),
            );
            let clear = state.candidates.len() == 0 && state.blocking.len() == 0 && pending@.len()
                == 0;
            &&& clear <==> step == AdmissionStepView::Next(AdmissionStage::CleanLock)
            &&& !clear && state.apply <==> step == AdmissionStepView::Next(
                AdmissionStage::Authority,
            )
            &&& !clear && !state.apply <==> (step matches AdmissionStepView::Verdict(report)
                && report.verdict == AdmissionVerdict::Defer && report.blockers == blocker_ids(
                state.candidates,
                state.blocking,
                pending@,
            ))
            &&& after.blockers == blocker_ids(state.candidates, state.blocking, pending@)
        }),
{
}

/// Whether a reply is an inspection that found nothing in the way.
pub open spec fn nothing_found(reply: AdmissionReply) -> bool {
    match reply {
        AdmissionReply::Inspected { candidates, blocking } => candidates@.len() == 0
            && blocking@.len() == 0,
        AdmissionReply::Reinspected { candidates, blocking, .. } => candidates@.len() == 0
            && blocking@.len() == 0,
        _ => false,
    }
}

/// A machine is admitted exactly after a last inspection that found nothing, without
/// blockers and without an error; one that found something defers and tells the runs.
pub proof fn a_last_inspection_decides(
    state: AdmissionState,
    stage: AdmissionStage,
    reply: AdmissionReply,
)
    ensures
        ({
            let step = admission_flow(state, stage, reply).0;
            let last = (reply is Inspected && (stage is CleanRevalidate || stage is FinalObserve))
                || (reply is Reinspected && stage is Reobserve);
            &&& (step matches AdmissionStepView::Verdict(report) && report.verdict
                == AdmissionVerdict::Admit) <==> last && nothing_found(reply)
            &&& step matches AdmissionStepView::Verdict(report) ==> (report.verdict
                == AdmissionVerdict::Admit ==> report.blockers.len() == 0 && report.error is None)
            &&& reply is Inspected && (stage is CleanRevalidate || stage is FinalObserve)
                && !nothing_found(reply) ==> (step matches AdmissionStepView::Verdict(report)
                && report.verdict == AdmissionVerdict::Defer && report.blockers == blocker_ids(
                reply->Inspected_candidates@,
                reply->Inspected_blocking@,
                Seq::empty(),
            ))
        }),
{
}

/// A failure is never taken for a verdict to wait or to admit: it gives an error, fails
/// the command, or is recorded first and told as an error then. An error is given only
/// after a failure.
pub proof fn failures_give_errors(
    state: AdmissionState,
    stage: AdmissionStage,
    reply: AdmissionReply,
)
    ensures
        ({
            let (step, after) = admission_flow(state, stage, reply);
            &&& reply matches AdmissionReply::Failed(error) ==> match step {
                AdmissionStepView::Verdict(report) => report.verdict == AdmissionVerdict::Error,
                AdmissionStepView::Fail => stage is CleanLoad || stage is ApplyLoad || stage
                    is Save,
                AdmissionStepView::Next(next) => next == AdmissionStage::SaveFailed && stage
                    is Cancel && after.held == error@,
            }
            &&& step is Fail ==> reply is Failed
            &&& step matches AdmissionStepView::Verdict(report) ==> (report.verdict
                == AdmissionVerdict::Error ==> reply is Failed || stage is SaveFailed)
            &&& stage is SaveFailed && (reply is Done || reply is Failed) ==> (
            step matches AdmissionStepView::Verdict(report) && report.verdict
                == AdmissionVerdict::Error && report.error == Some(state.held))
            &&& reply matches AdmissionReply::Failed(error) ==> (stage is Lock || stage is Observe
                || stage is CleanLock || stage is CleanRevalidate || stage is ApplyLock || stage
                is Reobserve || stage is FinalObserve ==> (
            step matches AdmissionStepView::Verdict(report) && report.error == Some(error@)))
        }),
{
}

/// An admission is put off exactly where somebody else is at work, this machine may not
/// change things, records are pending, or runs are in the way that are not cancelled.
pub proof fn deferral_has_a_reason(
    state: AdmissionState,
    stage: AdmissionStage,
    reply: AdmissionReply,
)
    ensures
        ({
            let step = admission_flow(state, stage, reply).0;
            let deferred = step matches AdmissionStepView::Verdict(report) && report.verdict
                == AdmissionVerdict::Defer;
            &&& deferred ==> reply is Busy || reply == AdmissionReply::Authority(false) || (reply
                matches AdmissionReply::Pending(pending) && ((stage is Load && !state.apply && (
            pending@.len() > 0 || state.candidates.len() > 0 || state.blocking.len() > 0)) || (stage
                is CleanLoad && pending@.len() > 0))) || ((reply is Inspected || reply
                is Reinspected) && !nothing_found(reply))
            &&& reply is Busy && (stage is Lock || stage is CleanLock || stage is ApplyLock)
                ==> deferred
            &&& stage is Authority && reply == AdmissionReply::Authority(false) ==> deferred
            &&& stage is CleanLoad && (reply matches AdmissionReply::Pending(pending)
                && pending@.len() > 0) ==> deferred
        }),
{
}

/// Without anything in the way, a machine whose steps succeed is admitted: the lock, the
/// ledger without pending records, and one more clean inspection.
pub proof fn a_clear_way_is_admitted(
    state: AdmissionState,
    stage: AdmissionStage,
    reply: AdmissionReply,
)
    ensures
        stage is Lock && reply is Done ==> admission_flow(state, stage, reply).0
            == AdmissionStepView::Next(AdmissionStage::Observe),
        stage is Observe && reply is Inspected ==> admission_flow(state, stage, reply).0
            == AdmissionStepView::Next(AdmissionStage::Load) && admission_flow(
            state,
            stage,
            reply,
        ).1.candidates == reply->Inspected_candidates@ && admission_flow(
            state,
            stage,
            reply,
        ).1.blocking == reply->Inspected_blocking@,
        stage is CleanLock && reply is Done ==> admission_flow(state, stage, reply).0
            == AdmissionStepView::Next(AdmissionStage::CleanLoad),
        stage is CleanLoad && (reply matches AdmissionReply::Pending(pending) && pending@.len()
            == 0) ==> admission_flow(state, stage, reply).0 == AdmissionStepView::Next(
            AdmissionStage::CleanRevalidate,
        ),
{
}

/// A job claims a pool exactly while it is queued, asks for something, and asks for nothing
/// but what the pool has.
pub proof fn only_a_fitting_job_claims(job: StewardJob, labels: Seq<Seq<char>>, i: int)
    ensures
        claims(job, labels) ==> same_ignoring_case(job.status@, "queued"@) && job.labels@.len() > 0,
        0 <= i < job.labels@.len() && !labels.contains(lower(job.labels@[i]@)) ==> !claims(
            job,
            labels,
        ),
        same_ignoring_case(job.status@, "queued"@) && job.labels@.len() > 0 && (forall|k: int|
            0 <= k < job.labels@.len() ==> labels.contains(lower((#[trigger] job.labels@[k])@)))
            ==> claims(job, labels),
{
}

/// A run whose jobs claim nothing is harmless; one that does can be cancelled while it is
/// queued and blocks once it is not.
pub proof fn a_claiming_run_is_cancelled_or_blocks(
    status: Seq<char>,
    jobs: Seq<StewardJob>,
    labels: Seq<Seq<char>>,
    i: int,
)
    ensures
        claim_of(status, jobs, labels) == AdmissionClaim::Harmless <==> (forall|k: int|
            0 <= k < jobs.len() ==> !claims(#[trigger] jobs[k], labels)),
        0 <= i < jobs.len() && claims(jobs[i], labels) ==> claim_of(status, jobs, labels) == if same_ignoring_case(
            status,
            "queued"@,
        ) {
            AdmissionClaim::Cancellable
        } else {
            AdmissionClaim::Blocking
        },
{
    if 0 <= i < jobs.len() && claims(jobs[i], labels) {
        assert(any_claims(jobs, labels));
    }
}

/// The candidates of a kind are exactly those that claim so, none twice.
pub proof fn each_candidate_is_of_its_kind(
    candidates: Seq<RunCancellation>,
    claims: Seq<AdmissionClaim>,
    kind: AdmissionClaim,
    i: int,
)
    requires
        0 <= i < candidates.len() <= claims.len(),
    ensures
        claims[i] == kind ==> claimed(candidates, claims, kind).contains(candidates[i]),
        claimed(candidates, claims, kind).len() <= candidates.len(),
        (forall|k: int| 0 <= k < candidates.len() ==> #[trigger] claims[k] != kind) ==> claimed(
            candidates,
            claims,
            kind,
        ).len() == 0,
    decreases candidates.len(),
{
    reveal_with_fuel(claimed, 2);
    let before = candidates.drop_last();
    let rest = claimed(before, claims, kind);
    let all = claimed(candidates, claims, kind);
    if before.len() > 0 {
        each_candidate_is_of_its_kind(before, claims, kind, 0);
    }
    if i < candidates.len() - 1 {
        assert(before[i] == candidates[i]);
        each_candidate_is_of_its_kind(before, claims, kind, i);
        if claims[i] == kind {
            let k = choose|k: int| 0 <= k < rest.len() && rest[k] == candidates[i];
            assert(all[k] == candidates[i]);
        }
    } else if claims[i] == kind {
        assert(all[rest.len() as int] == candidates[i]);
    }
}

/// Every run in progress is among the running ones, and nothing else.
pub proof fn every_run_in_progress_is_running(runs: Seq<StewardRun>, i: int)
    requires
        0 <= i < runs.len(),
    ensures
        same_ignoring_case(runs[i].status@, "in_progress"@) ==> running_views(runs).contains(
            queued_view(runs[i]@),
        ),
        (forall|k: int|
            0 <= k < runs.len() ==> !same_ignoring_case(
                (#[trigger] runs[k]).status@,
                "in_progress"@,
            )) ==> running_views(runs).len() == 0,
    decreases runs.len(),
{
    reveal_with_fuel(running_views, 2);
    let before = runs.drop_last();
    let rest = running_views(before);
    let all = running_views(runs);
    if before.len() > 0 {
        every_run_in_progress_is_running(before, 0);
    }
    if i < runs.len() - 1 {
        assert(before[i] == runs[i]);
        every_run_in_progress_is_running(before, i);
        if same_ignoring_case(runs[i].status@, "in_progress"@) {
            let view = queued_view(runs[i]@);
            let k = choose|k: int| 0 <= k < rest.len() && rest[k] == view;
            assert(all[k] == view);
        }
    } else if same_ignoring_case(runs[i].status@, "in_progress"@) {
        assert(all[rest.len() as int] == queued_view(runs[i]@));
    }
    if forall|k: int|
        0 <= k < runs.len() ==> !same_ignoring_case((#[trigger] runs[k]).status@, "in_progress"@) {
        assert forall|k: int| 0 <= k < before.len() implies !same_ignoring_case(
            (#[trigger] before[k]).status@,
            "in_progress"@,
        ) by {
            assert(before[k] == runs[k]);
        }
        assert(!same_ignoring_case(runs[runs.len() - 1].status@, "in_progress"@));
    }
}

/// The records that are taken up are exactly those of the repository and base.
pub proof fn each_pending_record_is_taken_up(
    values: Seq<PendingCancellation>,
    n: int,
    repo: Seq<char>,
    base: Seq<char>,
    i: int,
)
    requires
        0 <= n <= values.len(),
    ensures
        pending_positions(values, n, repo, base).contains(i) <==> 0 <= i < n && values[i].repo@
            == repo && values[i].base@ == base,
    decreases n,
{
    if n > 0 {
        let rest = pending_positions(values, n - 1, repo, base);
        let all = pending_positions(values, n, repo, base);
        each_pending_record_is_taken_up(values, n - 1, repo, base, i);
        if rest.contains(i) {
            let k = choose|k: int| 0 <= k < rest.len() && rest[k] == i;
            assert(all[k] == i);
        }
        if pending_for(values[n - 1], repo, base) {
            assert(all[rest.len() as int] == n - 1);
            if all.contains(i) && i != n - 1 {
                let k = choose|k: int| 0 <= k < all.len() && all[k] == i;
                assert(rest[k] == i);
            }
        }
    }
}

/// A pull request is left alone exactly where it opted out, does not carry the label of the
/// steward or was not handed off.
pub proof fn admission_leaves_unmanaged_alone(pr: ObservedPr, handed_off: Seq<u64>)
    ensures
        admission_excluded(pr, handed_off) <==> labelled(pr.fact.labels@, OPT_OUT_LABEL@)
            || !labelled(pr.fact.labels@, MANAGED_LABEL@) || !handed_off.contains(pr.fact.number),
{
}

/// The first line names the outcome and ends with its reason; an error and the blocking runs
/// are told where there are any.
pub proof fn the_lines_tell_the_outcome(report: AdmissionView)
    ensures
        has_prefix(verdict_lines(report)[0], report.verdict.name()),
        has_suffix(verdict_lines(report)[0], report.reason),
        verdict_lines(report).len() == 1 + (if report.error is Some {
            1int
        } else {
            0int
        }) + (if report.blockers.len() > 0 {
            1int
        } else {
            0int
        }),
{
    let name = report.verdict.name();
    ends_with_its_end(name + ": "@, report.reason);
    assert((name + ": "@ + report.reason).take(name.len() as int) =~= name);
}

/// A target is accepted exactly where repository and base are well formed and its labels are
/// one to a hundred good ones with that of self-hosted machines; it is then the given one.
pub proof fn a_well_formed_target_is_accepted(
    args: AdmissionCleanArgs,
    r: Result<(String, String, Vec<String>), CliFailure>,
)
    requires
        target_told(args, r),
    ensures
        r is Ok <==> admission_repo(args.repo@) && admission_base(args.base@) && 1
            <= args.labels@.len() <= 100 && good_labels(label_identities(args.labels@))
            && label_identities(args.labels@).contains("self-hosted"@),
        r matches Ok((repo, base, labels)) ==> repo@ == args.repo@ && base@ == args.base@ && views(
            labels@,
        ).contains("self-hosted"@),
        r matches Err(failure) ==> failure.code == 2,
{
}

/// A base is a branch name without an empty beginning or end and without two dots.
pub proof fn a_base_is_a_branch_name(base: Seq<char>)
    ensures
        admission_base(base) ==> base.len() > 0 && !has_prefix(base, "/"@) && !has_suffix(base, "/"@)
            && !has_infix(base, ".."@),
        base.len() > 0 && !has_prefix(base, "/"@) && !has_suffix(base, "/"@) && !has_infix(base, ".."@)
            && all_chars(base, |c: char| branch_char(c)) ==> admission_base(base),
{
}

} // verus!
