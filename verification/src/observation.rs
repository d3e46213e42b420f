//! Reading the provider's responses.
//!
//! A response that does not show the whole of what was asked for is refused.
use vstd::prelude::*;

use std::collections::BTreeMap;

use crate::json::{trees, Json, JsonTree};
use crate::model::{
    check_views, job_views, pr_views, CheckView, CliFailure, JobView, ObservedPr, PrView,
    RepoObservation, RequiredCheck, RunView, StewardCheck, StewardCheckSource, StewardJob,
    StewardPullRequest, StewardRun,
};
use crate::path_text::{encode_path_segment, path_segment};
use crate::queue_recovery::{texts, texts_of};
use crate::text::{
    after_first, blank, concat, concat3, concat4, concat5, contains, copy_nonempty, copy_opt, copy_or, cut, decimal, either,
    eq_ignore_case, full_sha, has_infix, head_until, is_blank, is_full_sha, nonempty, opt_is, opt_ref_view,
    opt_view, or_text, parse_u64, result_view, same_ignoring_case, split_once, str_eq,
    strictly_sorted, tail_after, to_decimal, u64_text, until, views,
};
use crate::text_map::TextMap;

verus! {

/// The largest number of pages of a listing that are read.
pub const MAX_PAGES: u64 = 10;

/// The number of rows of a full page.
pub const PAGE_ROWS: usize = 100;

/// Whether a listing goes on after a page.
#[derive(Clone, Copy, Debug, PartialEq, Eq, Structural)]
pub enum Paging {
    /// The next page has to be read.
    More,
    /// The page was not full: the listing is complete.
    Complete,
}

/// Whether a listing goes on after a page: a full last page is refused.
pub open spec fn paging(rows: nat, page: u64, refusal: Seq<char>) -> Result<Paging, Seq<char>> {
    if rows < PAGE_ROWS {
        Ok(Paging::Complete)
    } else if page >= MAX_PAGES {
        Err(refusal)
    } else {
        Ok(Paging::More)
    }
}

/// Whether a listing goes on after a page.
pub fn next_page(rows: usize, page: u64, refusal: &str) -> (r: Result<Paging, String>)
    ensures
        result_view(r) == paging(rows as nat, page, refusal@),
{
    if rows < PAGE_ROWS {
        Ok(Paging::Complete)
    } else if page >= MAX_PAGES {
        Err(refusal.to_owned())
    } else {
        Ok(Paging::More)
    }
}

/// What a read of the provider says: why it failed, that it is no JSON, or the
/// document.
pub open spec fn gh_document(
    read: Result<Seq<char>, Seq<char>>,
    document: Result<JsonTree, Seq<char>>,
    purpose: Seq<char>,
) -> Result<JsonTree, Seq<char>> {
    match read {
        Err(error) => Err(purpose + " failed: "@ + error),
        Ok(_) => match document {
            Ok(tree) => Ok(tree),
            Err(error) => Err(purpose + " returned malformed JSON: "@ + error),
        },
    }
}

/// Reads a response of the provider as a document.
pub fn gh_json(read: &Result<String, String>, purpose: &str) -> (r: Result<Json, String>)
    ensures
        match r {
            Ok(document) => read is Ok && crate::json::json_of(read->Ok_0@) == Ok::<
                JsonTree,
                Seq<char>,
            >(document@),
            Err(message) => gh_document(
                match *read {
                    Ok(raw) => Ok(raw@),
                    Err(error) => Err(error@),
                },
                match *read {
                    Ok(raw) => crate::json::json_of(raw@),
                    Err(error) => Err(error@),
                },
                purpose@,
            ) == Err::<JsonTree, Seq<char>>(message@),
        },
{
    match read {
        Err(error) => Err(concat3(purpose, " failed: ", error.as_str())),
        Ok(raw) => match crate::json::parse_json(raw.as_str()) {
            Ok(document) => Ok(document),
            Err(error) => Err(concat3(purpose, " returned malformed JSON: ", error.as_str())),
        },
    }
}

/// The time that a read with a deadline may take, in milliseconds of a steady
/// clock.
pub fn gh_json_before(now: u64, deadline: u64, purpose: &str) -> (r: Result<u64, String>)
    ensures
        result_view(r) == if now < deadline {
            Ok::<u64, Seq<char>>((deadline - now) as u64)
        } else {
            Err(purpose@ + " exceeded its bounded deadline"@)
        },
{
    if now < deadline {
        Ok(deadline - now)
    } else {
        Err(concat(purpose, " exceeded its bounded deadline"))
    }
}

/// Whether a text names a repository: an owner, a slash and a name without one.
pub open spec fn is_slug(s: Seq<char>) -> bool {
    cut(s, '/') matches Some((owner, name)) && owner.len() > 0 && name.len() > 0 && cut(name, '/')
        is None
}

/// Whether a text names a repository.
pub fn valid_slug(s: &str) -> (r: bool)
    ensures
        r == is_slug(s@),
{
    match split_once(s, '/') {
        Some((owner, name)) => !owner.as_str().is_empty() && !name.as_str().is_empty()
            && split_once(name.as_str(), '/').is_none(),
        None => false,
    }
}

/// Whether a list holds the given texts, in increasing order and without
/// repetition.
pub open spec fn sorted_texts(list: Seq<Seq<char>>, given: Seq<Seq<char>>) -> bool {
    strictly_sorted(list) && forall|s: Seq<char>| #[trigger] list.contains(s) <==> given.contains(s)
}

/// The given texts in increasing order and without repetition.
pub fn sort_texts(given: &Vec<String>) -> (r: Vec<String>)
    ensures
        sorted_texts(views(r@), views(given@)),
{
    let ghost all = views(given@);
    let mut set: TextMap<()> = TextMap::new();
    let mut i: usize = 0;
    while i < given.len()
        invariant
            i <= given.len(),
            all == views(given@),
            forall|s: Seq<char>| #[trigger]
                set@.dom().contains(s) <==> all.take(i as int).contains(s),
        decreases given.len() - i,
    {
        let ghost before = set@;
        set.insert(given[i].clone(), ());
        proof {
            let shorter = all.take(i as int);
            let longer = all.take(i + 1);
            assert(longer =~= shorter.push(all[i as int]));
            assert forall|s: Seq<char>| #[trigger] set@.dom().contains(s) <==> longer.contains(
                s,
            ) by {
                if shorter.contains(s) {
                    let k = choose|k: int| 0 <= k < shorter.len() && shorter[k] == s;
                    assert(longer[k] == s);
                }
                if s == all[i as int] {
                    assert(longer[i as int] == s);
                }
                if longer.contains(s) && s != all[i as int] {
                    let k = choose|k: int| 0 <= k < longer.len() && longer[k] == s;
                    assert(shorter[k] == s);
                }
                assert(before.dom().contains(s) <==> shorter.contains(s));
            }
        }
        i = i + 1;
    }
    proof {
        assert(all.take(all.len() as int) =~= all);
    }
    let mut out: Vec<String> = Vec::new();
    let n: usize = set.len();
    let ghost keys = set.keys();
    let mut k: usize = 0;
    while k < n
        invariant
            k <= n,
            n == keys.len(),
            keys == set.keys(),
            out@.len() == k,
            forall|q: int| 0 <= q < k ==> (#[trigger] out@[q])@ == keys[q],
        decreases n - k,
    {
        out.push(set.key_at(k).clone());
        k = k + 1;
    }
    proof {
        assert(views(out@) =~= keys);
        set.lemma_keys();
        assert forall|s: Seq<char>| #[trigger] keys.contains(s) <==> all.contains(s) by {
            assert(keys.contains(s) <==> set@.dom().contains(s));
        }
    }
    out
}

/// The first text of a list that is no repository's name.
pub open spec fn first_bad_slug(list: Seq<Seq<char>>, i: int) -> bool {
    &&& 0 <= i < list.len() && !is_slug(list[i])
    &&& forall|k: int| 0 <= k < i ==> is_slug(#[trigger] list[k])
}

/// The repositories that a command is for, in increasing order and without
/// repetition; where none is given, the current one. Every one must be named by
/// an owner and a name.
#[verifier::loop_isolation(false)]
pub fn resolve_repos(repos: Vec<String>, current: Result<String, CliFailure>) -> (r: Result<
    Vec<String>,
    CliFailure,
>)
    ensures
        match (repos@.len() == 0, current) {
            (true, Err(failure)) => r == Err::<Vec<String>, CliFailure>(failure),
            _ => {
                let given = if repos@.len() == 0 {
                    seq![current->Ok_0@]
                } else {
                    views(repos@)
                };
                match r {
                    Ok(list) => sorted_texts(views(list@), given) && (forall|k: int|
                        0 <= k < views(list@).len() ==> is_slug(#[trigger] views(list@)[k])),
                    Err(failure) => exists|list: Seq<Seq<char>>, i: int|
                        sorted_texts(list, given) && #[trigger] first_bad_slug(list, i)
                            && failure.says(
                            1,
                            "invalid repository slug `"@ + list[i] + "`"@,
                        ),
                }
            },
        },
{
    let mut given = repos;
    if given.len() == 0 {
        match current {
            Ok(slug) => {
                let ghost text = slug@;
                given.push(slug);
                proof {
                    assert(views(given@) =~= seq![text]);
                }
            },
            Err(failure) => return Err(failure),
        }
    }
    let list = sort_texts(&given);
    let ghost all = views(list@);
    let mut i: usize = 0;
    while i < list.len()
        invariant
            i <= list.len(),
            all == views(list@),
            forall|k: int| 0 <= k < i ==> is_slug(#[trigger] all[k]),
        decreases list.len() - i,
    {
        proof {
            assert(all[i as int] == list@[i as int]@);
        }
        if !valid_slug(list[i].as_str()) {
            proof {
                assert(first_bad_slug(all, i as int));
            }
            let text = concat3("invalid repository slug `", list[i].as_str(), "`");
            return Err(CliFailure::new(1, text.as_str()));
        }
        i = i + 1;
    }
    Ok(list)
}

/// The repository's own name, as its settings give it.
pub open spec fn canonical_name(settings: JsonTree) -> Result<Seq<char>, Seq<char>> {
    match settings.text_at("full_name"@) {
        Some(name) => if is_blank(name) {
            Err("repository settings missing canonical full_name"@)
        } else if is_slug(name) {
            Ok(name)
        } else {
            Err("repository settings returned malformed canonical full_name"@)
        },
        None => Err("repository settings missing canonical full_name"@),
    }
}

/// The views of a result of two texts.
pub open spec fn text_result(r: Result<String, String>) -> Result<Seq<char>, Seq<char>> {
    match r {
        Ok(s) => Ok(s@),
        Err(e) => Err(e@),
    }
}

/// The repository's own name, as its settings give it.
pub fn canonical_repo_name(settings: &Json) -> (r: Result<String, String>)
    ensures
        text_result(r) == canonical_name(settings@),
{
    match settings.text_field("full_name") {
        Some(name) => if blank(name.as_str()) {
            Err("repository settings missing canonical full_name".to_owned())
        } else if valid_slug(name.as_str()) {
            Ok(name.clone())
        } else {
            Err("repository settings returned malformed canonical full_name".to_owned())
        },
        None => Err("repository settings missing canonical full_name".to_owned()),
    }
}

/// The run that an address names: the number after `/actions/runs/`.
pub open spec fn run_in_url(url: Seq<char>) -> Option<u64> {
    match after_first(url, "/actions/runs/"@) {
        Some(tail) => u64_text(until(tail, '/')),
        None => None,
    }
}

/// The run that an address names.
pub fn run_id_from_url(url: &str) -> (r: Option<u64>)
    ensures
        r == run_in_url(url@),
{
    match tail_after(url, "/actions/runs/") {
        Some(tail) => parse_u64(head_until(tail.as_str(), '/').as_str()),
        None => None,
    }
}

/// The run and the job that an address names.
pub open spec fn run_and_job_in_url(url: Seq<char>) -> Option<(u64, u64)> {
    match (run_in_url(url), after_first(url, "/job/"@)) {
        (Some(run), Some(tail)) => match u64_text(until(tail, '/')) {
            Some(job) => Some((run, job)),
            None => None,
        },
        _ => None,
    }
}

/// The run and the job that an address names.
pub fn run_and_job_id_from_url(url: &str) -> (r: Option<(u64, u64)>)
    ensures
        r == run_and_job_in_url(url@),
{
    let run: u64 = match run_id_from_url(url) {
        Some(run) => run,
        None => return None,
    };
    match tail_after(url, "/job/") {
        Some(tail) => match parse_u64(head_until(tail.as_str(), '/').as_str()) {
            Some(job) => Some((run, job)),
            None => None,
        },
        None => None,
    }
}

/// The run that an optional address names.
pub open spec fn run_of_url(url: Option<Seq<char>>) -> Option<u64> {
    match url {
        Some(url) => run_in_url(url),
        None => None,
    }
}

fn run_from(url: Option<&String>) -> (r: Option<u64>)
    ensures
        r == run_of_url(opt_ref_view(url)),
{
    match url {
        Some(url) => run_id_from_url(url.as_str()),
        None => None,
    }
}

/// The number of an app that a document names in one of two places.
pub open spec fn app_of(value: JsonTree) -> Option<u64> {
    match value.at(seq!["checkSuite"@, "app"@, "databaseId"@]) {
        Some(id) => id.number(),
        None => match value.at(seq!["app"@, "id"@]) {
            Some(id) => id.number(),
            None => None,
        },
    }
}

fn first_text<'a>(a: Option<&'a String>, b: Option<&'a String>) -> (r: Option<&'a String>)
    ensures
        opt_ref_view(r) == either(opt_ref_view(a), opt_ref_view(b)),
{
    match a {
        Some(_) => a,
        None => b,
    }
}

/// The check that a row of the rollup shows.
pub open spec fn check_of(value: JsonTree) -> Option<CheckView> {
    match value.text_at("__typename"@) {
        Some(kind) => if kind == "CheckRun"@ {
            match (value.text_at("name"@), value.text_at("status"@)) {
                (Some(name), Some(status)) => Some(
                    CheckView {
                        name,
                        source: StewardCheckSource::CheckRun,
                        app_id: app_of(value),
                        check_run_id: None,
                        status,
                        conclusion: nonempty(value.text_at("conclusion"@)),
                        run_id: run_of_url(value.text_at("detailsUrl"@)),
                        observed_at: either(
                            either(value.text_at("completedAt"@), value.text_at("startedAt"@)),
                            value.text_at("createdAt"@),
                        ),
                    },
                ),
                _ => None,
            }
        } else if kind == "StatusContext"@ {
            match (value.text_at("context"@), value.text_at("state"@)) {
                (Some(name), Some(state)) => Some(
                    CheckView {
                        name,
                        source: StewardCheckSource::StatusContext,
                        app_id: None,
                        check_run_id: None,
                        status: if state == "PENDING"@ || state == "EXPECTED"@ {
                            "IN_PROGRESS"@
                        } else {
                            "COMPLETED"@
                        },
                        conclusion: if state == "SUCCESS"@ {
                            Some("SUCCESS"@)
                        } else if state == "ERROR"@ || state == "FAILURE"@ {
                            Some("FAILURE"@)
                        } else {
                            None
                        },
                        run_id: run_of_url(value.text_at("targetUrl"@)),
                        observed_at: value.text_at("createdAt"@),
                    },
                ),
                _ => None,
            }
        } else {
            None
        },
        None => None,
    }
}

/// Whether an optional check says what an optional view says.
pub open spec fn shows_check(r: Option<StewardCheck>, view: Option<CheckView>) -> bool {
    match (r, view) {
        (Some(check), Some(v)) => check@ == v,
        (None, None) => true,
        _ => false,
    }
}

/// The check that a row of the rollup shows.
pub fn parse_check(value: &Json) -> (r: Option<StewardCheck>)
    ensures
        shows_check(r, check_of(value@)),
{
    let kind = match value.text_field("__typename") {
        Some(kind) => kind,
        None => return None,
    };
    if str_eq(kind.as_str(), "CheckRun") {
        let name = match value.text_field("name") {
            Some(name) => name,
            None => return None,
        };
        let status = match value.text_field("status") {
            Some(status) => status,
            None => return None,
        };
        let app_id: Option<u64> = match value.get3("checkSuite", "app", "databaseId") {
            Some(id) => id.as_u64(),
            None => match value.get2("app", "id") {
                Some(id) => id.as_u64(),
                None => None,
            },
        };
        let observed = first_text(
            first_text(value.text_field("completedAt"), value.text_field("startedAt")),
            value.text_field("createdAt"),
        );
        Some(
            StewardCheck {
                name: name.clone(),
                source: StewardCheckSource::CheckRun,
                app_id,
                check_run_id: None,
                status: status.clone(),
                conclusion: copy_nonempty(value.text_field("conclusion")),
                run_id: run_from(value.text_field("detailsUrl")),
                observed_at: copy_opt(observed),
            },
        )
    } else if str_eq(kind.as_str(), "StatusContext") {
        let state = match value.text_field("state") {
            Some(state) => state.as_str(),
            None => return None,
        };
        let name = match value.text_field("context") {
            Some(name) => name,
            None => return None,
        };
        let status = if str_eq(state, "PENDING") || str_eq(state, "EXPECTED") {
            "IN_PROGRESS"
        } else {
            "COMPLETED"
        };
        let conclusion = if str_eq(state, "SUCCESS") {
            Some("SUCCESS".to_owned())
        } else if str_eq(state, "ERROR") || str_eq(state, "FAILURE") {
            Some("FAILURE".to_owned())
        } else {
            None
        };
        Some(
            StewardCheck {
                name: name.clone(),
                source: StewardCheckSource::StatusContext,
                app_id: None,
                check_run_id: None,
                status: status.to_owned(),
                conclusion,
                run_id: run_from(value.text_field("targetUrl")),
                observed_at: copy_opt(value.text_field("createdAt")),
            },
        )
    } else {
        None
    }
}

/// The check that a row of the check-run listing shows.
pub open spec fn rest_check_of(value: JsonTree) -> Option<CheckView> {
    match (value.text_at("name"@), value.text_at("status"@)) {
        (Some(name), Some(status)) => Some(
            CheckView {
                name,
                source: StewardCheckSource::CheckRun,
                app_id: match value.at(seq!["app"@, "id"@]) {
                    Some(id) => id.number(),
                    None => None,
                },
                check_run_id: None,
                status,
                conclusion: nonempty(value.text_at("conclusion"@)),
                run_id: run_of_url(value.text_at("details_url"@)),
                observed_at: either(
                    value.text_at("completed_at"@),
                    value.text_at("started_at"@),
                ),
            },
        ),
        _ => None,
    }
}

/// The check that a row of the check-run listing shows.
pub fn parse_rest_check(value: &Json) -> (r: Option<StewardCheck>)
    ensures
        shows_check(r, rest_check_of(value@)),
{
    let name = match value.text_field("name") {
        Some(name) => name,
        None => return None,
    };
    let status = match value.text_field("status") {
        Some(status) => status,
        None => return None,
    };
    let app_id: Option<u64> = match value.get2("app", "id") {
        Some(id) => id.as_u64(),
        None => None,
    };
    let observed = first_text(value.text_field("completed_at"), value.text_field("started_at"));
    Some(
        StewardCheck {
            name: name.clone(),
            source: StewardCheckSource::CheckRun,
            app_id,
            check_run_id: None,
            status: status.clone(),
            conclusion: copy_nonempty(value.text_field("conclusion")),
            run_id: run_from(value.text_field("details_url")),
            observed_at: copy_opt(observed),
        },
    )
}

/// The check that a row of the status listing shows.
pub open spec fn rest_status_of(value: JsonTree) -> Option<CheckView> {
    match (value.text_at("context"@), value.text_at("state"@)) {
        (Some(name), Some(state)) => Some(
            CheckView {
                name,
                source: StewardCheckSource::StatusContext,
                app_id: None,
                check_run_id: None,
                status: if same_ignoring_case(state, "pending"@) {
                    "IN_PROGRESS"@
                } else {
                    "COMPLETED"@
                },
                conclusion: if same_ignoring_case(state, "success"@) {
                    Some("SUCCESS"@)
                } else if same_ignoring_case(state, "error"@) || same_ignoring_case(
                    state,
                    "failure"@,
                ) {
                    Some("FAILURE"@)
                } else {
                    None
                },
                run_id: run_of_url(value.text_at("target_url"@)),
                observed_at: either(value.text_at("updated_at"@), value.text_at("created_at"@)),
            },
        ),
        _ => None,
    }
}

/// The check that a row of the status listing shows.
pub fn parse_rest_status(value: &Json) -> (r: Option<StewardCheck>)
    ensures
        shows_check(r, rest_status_of(value@)),
{
    let state = match value.text_field("state") {
        Some(state) => state.as_str(),
        None => return None,
    };
    let name = match value.text_field("context") {
        Some(name) => name,
        None => return None,
    };
    let status = if eq_ignore_case(state, "pending") {
        "IN_PROGRESS"
    } else {
        "COMPLETED"
    };
    let conclusion = if eq_ignore_case(state, "success") {
        Some("SUCCESS".to_owned())
    } else if eq_ignore_case(state, "error") || eq_ignore_case(state, "failure") {
        Some("FAILURE".to_owned())
    } else {
        None
    };
    let observed = first_text(value.text_field("updated_at"), value.text_field("created_at"));
    Some(
        StewardCheck {
            name: name.clone(),
            source: StewardCheckSource::StatusContext,
            app_id: None,
            check_run_id: None,
            status: status.to_owned(),
            conclusion,
            run_id: run_from(value.text_field("target_url")),
            observed_at: copy_opt(observed),
        },
    )
}

/// The kinds of rows that show a check.
#[derive(Clone, Copy, Debug, PartialEq, Eq, Structural)]
pub enum CheckRows {
    Rollup,
    CheckRuns,
    Statuses,
}

/// The check that a row of some kind shows.
pub open spec fn row_check(kind: CheckRows, value: JsonTree) -> Option<CheckView> {
    match kind {
        CheckRows::Rollup => check_of(value),
        CheckRows::CheckRuns => rest_check_of(value),
        CheckRows::Statuses => rest_status_of(value),
    }
}

/// The checks that rows show; a row that shows none is passed over.
pub open spec fn row_checks(kind: CheckRows, rows: Seq<JsonTree>) -> Seq<CheckView>
    decreases rows.len(),
{
    if rows.len() == 0 {
        Seq::empty()
    } else {
        match row_check(kind, rows.last()) {
            Some(check) => row_checks(kind, rows.drop_last()).push(check),
            None => row_checks(kind, rows.drop_last()),
        }
    }
}

/// Appends the checks that rows show.
fn append_checks(out: &mut Vec<StewardCheck>, kind: CheckRows, rows: &Vec<Json>)
    ensures
        check_views(final(out)@) == check_views(old(out)@) + row_checks(kind, trees(rows@)),
{
    let ghost start = check_views(out@);
    let ghost all = trees(rows@);
    let mut i: usize = 0;
    proof {
        assert(start + row_checks(kind, all.take(0)) =~= start);
    }
    while i < rows.len()
        invariant
            i <= rows.len(),
            all == trees(rows@),
            check_views(out@) == start + row_checks(kind, all.take(i as int)),
        decreases rows.len() - i,
    {
        let ghost before = out@;
        proof {
            assert(all.take(i + 1).drop_last() =~= all.take(i as int));
            assert(all.take(i + 1).last() == rows@[i as int]@);
        }
        let parsed = match kind {
            CheckRows::Rollup => parse_check(&rows[i]),
            CheckRows::CheckRuns => parse_rest_check(&rows[i]),
            CheckRows::Statuses => parse_rest_status(&rows[i]),
        };
        if let Some(check) = parsed {
            let ghost view = check@;
            out.push(check);
            proof {
                assert(check_views(out@) =~= check_views(before).push(view));
                assert(check_views(out@) =~= start + row_checks(kind, all.take(i + 1)));
            }
        }
        i = i + 1;
    }
    proof {
        assert(all.take(all.len() as int) =~= all);
    }
}

/// Adds a page of a head's check runs.
pub fn check_runs_for_head(checks: &mut Vec<StewardCheck>, response: &Json, page: u64) -> (r:
    Result<Paging, String>)
    ensures
        match response@.items_at("check_runs"@) {
            Some(rows) => check_views(final(checks)@) == check_views(old(checks)@) + row_checks(
                CheckRows::CheckRuns,
                rows,
            ) && result_view(r) == paging(
                rows.len(),
                page,
                "current-head check runs exceed 1000; refusing partial identity scan"@,
            ),
            None => *final(checks) == *old(checks) && result_view(r) == Err::<Paging, Seq<char>>(
                "current-head check identities missing check_runs"@,
            ),
        },
{
    match response.array_field("check_runs") {
        Some(rows) => {
            append_checks(checks, CheckRows::CheckRuns, rows);
            next_page(
                rows.len(),
                page,
                "current-head check runs exceed 1000; refusing partial identity scan",
            )
        },
        None => Err("current-head check identities missing check_runs".to_owned()),
    }
}

/// Adds a page of a head's commit statuses.
pub fn commit_statuses_for_head(checks: &mut Vec<StewardCheck>, response: &Json, page: u64) -> (r:
    Result<Paging, String>)
    ensures
        match response@.items() {
            Some(rows) => check_views(final(checks)@) == check_views(old(checks)@) + row_checks(
                CheckRows::Statuses,
                rows,
            ) && result_view(r) == paging(
                rows.len(),
                page,
                "current-head commit statuses exceed 1000; refusing partial status scan"@,
            ),
            None => *final(checks) == *old(checks) && result_view(r) == Err::<Paging, Seq<char>>(
                "current-head commit statuses were not an array"@,
            ),
        },
{
    match response.as_array() {
        Some(rows) => {
            append_checks(checks, CheckRows::Statuses, rows);
            next_page(
                rows.len(),
                page,
                "current-head commit statuses exceed 1000; refusing partial status scan",
            )
        },
        None => Err("current-head commit statuses were not an array".to_owned()),
    }
}

/// The job that a row shows.
pub open spec fn job_of(value: JsonTree) -> Result<JobView, Seq<char>> {
    match (value.text_at("name"@), value.text_at("status"@)) {
        (None, _) => Err("workflow job missing name"@),
        (Some(_), None) => Err("workflow job missing status"@),
        (Some(name), Some(status)) => Ok(
            JobView {
                id: match value.number_at("id"@) {
                    Some(id) => id,
                    None => 0,
                },
                name,
                status,
                conclusion: value.text_at("conclusion"@),
                labels: match value.items_at("labels"@) {
                    Some(items) => texts_of(items),
                    None => Seq::empty(),
                },
                runner_name: nonempty(value.text_at("runner_name"@)),
            },
        ),
    }
}

/// Whether a read job says what a view says.
pub open spec fn shows_job(
    r: Result<StewardJob, String>,
    view: Result<JobView, Seq<char>>,
) -> bool {
    match (r, view) {
        (Ok(job), Ok(v)) => job@ == v,
        (Err(e), Err(m)) => e@ == m,
        _ => false,
    }
}

/// The job that a row shows.
pub fn parse_job(value: &Json) -> (r: Result<StewardJob, String>)
    ensures
        shows_job(r, job_of(value@)),
{
    let name = match value.text_field("name") {
        Some(name) => name,
        None => return Err("workflow job missing name".to_owned()),
    };
    let status = match value.text_field("status") {
        Some(status) => status,
        None => return Err("workflow job missing status".to_owned()),
    };
    let id: u64 = match value.u64_field("id") {
        Some(id) => id,
        None => 0,
    };
    let labels = match value.array_field("labels") {
        Some(items) => texts(items),
        None => {
            let none: Vec<String> = Vec::new();
            proof {
                assert(views(none@) =~= Seq::<Seq<char>>::empty());
            }
            none
        },
    };
    Ok(
        StewardJob {
            id,
            name: name.clone(),
            status: status.clone(),
            conclusion: copy_opt(value.text_field("conclusion")),
            labels,
            runner_name: copy_nonempty(value.text_field("runner_name")),
        },
    )
}

/// The jobs that rows show, or what is wrong with the first row that shows none.
pub open spec fn jobs_of(rows: Seq<JsonTree>) -> Result<Seq<JobView>, Seq<char>>
    decreases rows.len(),
{
    if rows.len() == 0 {
        Ok(Seq::empty())
    } else {
        match jobs_of(rows.drop_last()) {
            Err(error) => Err(error),
            Ok(before) => match job_of(rows.last()) {
                Ok(job) => Ok(before.push(job)),
                Err(error) => Err(error),
            },
        }
    }
}

proof fn jobs_of_failed_prefix(rows: Seq<JsonTree>, i: int)
    requires
        0 <= i <= rows.len(),
        jobs_of(rows.take(i)) is Err,
    ensures
        jobs_of(rows) == jobs_of(rows.take(i)),
    decreases rows.len(),
{
    if i < rows.len() {
        assert(rows.drop_last().take(i) =~= rows.take(i));
        jobs_of_failed_prefix(rows.drop_last(), i);
    } else {
        assert(rows.take(i) =~= rows);
    }
}

/// Adds a page of a run's jobs. The jobs of a page are added whole or not at
/// all.
pub fn add_jobs(
    jobs: &mut Vec<StewardJob>,
    response: &Json,
    page: u64,
    missing: &str,
    refusal: &str,
) -> (r: Result<Paging, String>)
    ensures
        match response@.items_at("jobs"@) {
            None => *final(jobs) == *old(jobs) && result_view(r) == Err::<Paging, Seq<char>>(
                missing@,
            ),
            Some(rows) => match jobs_of(rows) {
                Err(error) => result_view(r) == Err::<Paging, Seq<char>>(error) && job_views(
                    final(jobs)@,
                ) == job_views(old(jobs)@),
                Ok(found) => job_views(final(jobs)@) == job_views(old(jobs)@) + found
                    && result_view(r) == paging(rows.len(), page, refusal@),
            },
        },
{
    let rows = match response.array_field("jobs") {
        Some(rows) => rows,
        None => return Err(missing.to_owned()),
    };
    let ghost start = job_views(jobs@);
    let ghost all = trees(rows@);
    let mut found: Vec<StewardJob> = Vec::new();
    let mut i: usize = 0;
    proof {
        assert(job_views(found@) =~= Seq::<JobView>::empty());
    }
    while i < rows.len()
        invariant
            i <= rows.len(),
            all == trees(rows@),
            response@.items_at("jobs"@) == Some(all),
            start == job_views(old(jobs)@),
            *jobs == *old(jobs),
            jobs_of(all.take(i as int)) == Ok::<Seq<JobView>, Seq<char>>(job_views(found@)),
        decreases rows.len() - i,
    {
        let ghost before = found@;
        proof {
            assert(all.take(i + 1).drop_last() =~= all.take(i as int));
            assert(all.take(i + 1).last() == rows@[i as int]@);
        }
        match parse_job(&rows[i]) {
            Ok(job) => {
                let ghost view = job@;
                found.push(job);
                proof {
                    assert(job_views(found@) =~= job_views(before).push(view));
                }
            },
            Err(error) => {
                proof {
                    jobs_of_failed_prefix(all, i + 1);
                }
                return Err(error);
            },
        }
        i = i + 1;
    }
    let ghost added = job_views(found@);
    jobs.append(&mut found);
    proof {
        assert(all.take(all.len() as int) =~= all);
        assert(job_views(jobs@) =~= start + added);
    }
    next_page(rows.len(), page, refusal)
}

/// Adds a page of a run's jobs.
pub fn fetch_run_jobs(jobs: &mut Vec<StewardJob>, response: &Json, page: u64, run_id: u64) -> (r:
    Result<Paging, String>)
    ensures
        match response@.items_at("jobs"@) {
            None => *final(jobs) == *old(jobs) && result_view(r) == Err::<Paging, Seq<char>>(
                "workflow run "@ + decimal(run_id as nat) + " response missing jobs"@,
            ),
            Some(rows) => match jobs_of(rows) {
                Err(error) => result_view(r) == Err::<Paging, Seq<char>>(error) && job_views(
                    final(jobs)@,
                ) == job_views(old(jobs)@),
                Ok(found) => job_views(final(jobs)@) == job_views(old(jobs)@) + found
                    && result_view(r) == paging(
                    rows.len(),
                    page,
                    "workflow run "@ + decimal(run_id as nat)
                        + " exceeds 1000 jobs; refusing partial scan"@,
                ),
            },
        },
{
    let id = to_decimal(run_id);
    let missing = concat3("workflow run ", id.as_str(), " response missing jobs");
    let refusal = concat3(
        "workflow run ",
        id.as_str(),
        " exceeds 1000 jobs; refusing partial scan",
    );
    add_jobs(jobs, response, page, missing.as_str(), refusal.as_str())
}

/// Adds a page of the jobs of a run's attempt.
pub fn fetch_run_attempt_jobs(
    jobs: &mut Vec<StewardJob>,
    response: &Json,
    page: u64,
    run_id: u64,
    run_attempt: u64,
) -> (r: Result<Paging, String>)
    ensures
        ({
            let name = "workflow run "@ + decimal(run_id as nat) + " attempt "@ + decimal(
                run_attempt as nat,
            );
            match response@.items_at("jobs"@) {
                None => *final(jobs) == *old(jobs) && result_view(r) == Err::<Paging, Seq<char>>(
                    name + " missing jobs"@,
                ),
                Some(rows) => match jobs_of(rows) {
                    Err(error) => result_view(r) == Err::<Paging, Seq<char>>(error) && job_views(
                        final(jobs)@,
                    ) == job_views(old(jobs)@),
                    Ok(found) => job_views(final(jobs)@) == job_views(old(jobs)@) + found
                        && result_view(r) == paging(
                        rows.len(),
                        page,
                        name + " exceeds 1000 jobs; refusing partial scan"@,
                    ),
                },
            }
        }),
{
    let mut name: String = concat3("workflow run ", to_decimal(run_id).as_str(), " attempt ");
    name.append(to_decimal(run_attempt).as_str());
    let missing = concat(name.as_str(), " missing jobs");
    let refusal = concat(name.as_str(), " exceeds 1000 jobs; refusing partial scan");
    add_jobs(jobs, response, page, missing.as_str(), refusal.as_str())
}

/// The only pull request that a run names.
pub open spec fn run_pr(value: JsonTree) -> Option<u64> {
    match value.items_at("pull_requests"@) {
        Some(items) => if items.len() == 1 {
            items[0].number_at("number"@)
        } else {
            None
        },
        None => None,
    }
}

/// The run that a row shows, with its jobs not yet read.
pub open spec fn run_of(value: JsonTree) -> Option<RunView> {
    match (
        value.number_at("id"@),
        value.number_at("workflow_id"@),
        value.number_at("run_attempt"@),
        value.text_at("name"@),
        value.text_at("head_sha"@),
        value.text_at("head_branch"@),
        value.text_at("status"@),
        value.text_at("event"@),
        value.text_at("created_at"@),
    ) {
        (
            Some(id),
            Some(workflow_id),
            Some(run_attempt),
            Some(workflow),
            Some(head_sha),
            Some(head_branch),
            Some(status),
            Some(event),
            Some(created_at),
        ) => if run_attempt > 0 {
            Some(
                RunView {
                    id,
                    workflow_id,
                    run_attempt,
                    workflow,
                    head_sha,
                    head_branch,
                    status,
                    event,
                    pull_request_number: run_pr(value),
                    created_at,
                    jobs: Seq::empty(),
                },
            )
        } else {
            None
        },
        _ => None,
    }
}

/// Whether a read run says what a view says.
pub open spec fn shows_run(r: Option<StewardRun>, view: Option<RunView>) -> bool {
    match (r, view) {
        (Some(run), Some(v)) => run@ == v,
        (None, None) => true,
        _ => false,
    }
}

/// The run that a row shows, with its jobs not yet read.
pub fn parse_run(value: &Json) -> (r: Option<StewardRun>)
    ensures
        shows_run(r, run_of(value@)),
{
    let pull_request_number: Option<u64> = match value.array_field("pull_requests") {
        Some(items) => if items.len() == 1 {
            proof {
                assert(trees(items@)[0] == items@[0]@);
            }
            items[0].u64_field("number")
        } else {
            None
        },
        None => None,
    };
    let id: u64 = match value.u64_field("id") {
        Some(id) => id,
        None => return None,
    };
    let workflow_id: u64 = match value.u64_field("workflow_id") {
        Some(id) => id,
        None => return None,
    };
    let run_attempt: u64 = match value.u64_field("run_attempt") {
        Some(attempt) => attempt,
        None => return None,
    };
    if run_attempt == 0 {
        return None;
    }
    let workflow = match value.text_field("name") {
        Some(text) => text,
        None => return None,
    };
    let head_sha = match value.text_field("head_sha") {
        Some(text) => text,
        None => return None,
    };
    let head_branch = match value.text_field("head_branch") {
        Some(text) => text,
        None => return None,
    };
    let status = match value.text_field("status") {
        Some(text) => text,
        None => return None,
    };
    let event = match value.text_field("event") {
        Some(text) => text,
        None => return None,
    };
    let created_at = match value.text_field("created_at") {
        Some(text) => text,
        None => return None,
    };
    let jobs: Vec<StewardJob> = Vec::new();
    proof {
        assert(job_views(jobs@) =~= Seq::<JobView>::empty());
    }
    Some(
        StewardRun {
            id,
            workflow_id,
            run_attempt,
            workflow: workflow.clone(),
            head_sha: head_sha.clone(),
            head_branch: head_branch.clone(),
            status: status.clone(),
            event: event.clone(),
            pull_request_number,
            created_at: created_at.clone(),
            jobs,
        },
    )
}

/// The names of labels that a list of documents gives.
pub open spec fn names_of(items: Seq<JsonTree>) -> Seq<Seq<char>>
    decreases items.len(),
{
    if items.len() == 0 {
        Seq::empty()
    } else {
        match items.last().text_at("name"@) {
            Some(name) => names_of(items.drop_last()).push(name),
            None => names_of(items.drop_last()),
        }
    }
}

/// The names of labels that a list of documents gives.
pub fn label_names(items: &Vec<Json>) -> (r: Vec<String>)
    ensures
        views(r@) == names_of(trees(items@)),
{
    let ghost all = trees(items@);
    let mut out: Vec<String> = Vec::new();
    let mut i: usize = 0;
    proof {
        assert(views(out@) =~= names_of(all.take(0)));
    }
    while i < items.len()
        invariant
            i <= items.len(),
            all == trees(items@),
            views(out@) == names_of(all.take(i as int)),
        decreases items.len() - i,
    {
        proof {
            assert(all.take(i + 1).drop_last() =~= all.take(i as int));
            assert(all.take(i + 1).last() == items@[i as int]@);
        }
        if let Some(name) = items[i].text_field("name") {
            let ghost before = out@;
            out.push(name.clone());
            proof {
                assert(views(out@) =~= views(before).push(name@));
            }
        }
        i = i + 1;
    }
    proof {
        assert(all.take(all.len() as int) =~= all);
    }
    out
}

/// The names of the labels that a document lists.
pub open spec fn listed_labels(value: JsonTree) -> Seq<Seq<char>> {
    match value.items_at("labels"@) {
        Some(items) => names_of(items),
        None => Seq::empty(),
    }
}

/// The names of the labels that a document lists.
pub fn labels_field(value: &Json) -> (r: Vec<String>)
    ensures
        views(r@) == listed_labels(value@),
{
    match value.array_field("labels") {
        Some(items) => label_names(items),
        None => {
            let none: Vec<String> = Vec::new();
            proof {
                assert(views(none@) =~= Seq::<Seq<char>>::empty());
            }
            none
        },
    }
}

/// A pull request's place in the merge queue.
#[derive(Clone, Debug, PartialEq, Eq)]
pub struct QueueEntry {
    pub number: u64,
    pub position: u64,
    pub enqueued_at: String,
    pub head: Option<String>,
}

/// What an entry says.
pub struct EntryView {
    pub number: u64,
    pub position: u64,
    pub enqueued_at: Seq<char>,
    pub head: Option<Seq<char>>,
}

impl View for QueueEntry {
    type V = EntryView;

    open spec fn view(&self) -> EntryView {
        EntryView {
            number: self.number,
            position: self.position,
            enqueued_at: self.enqueued_at@,
            head: opt_view(self.head),
        }
    }
}

/// What a list of entries says.
pub open spec fn entry_views(entries: Seq<QueueEntry>) -> Seq<EntryView> {
    Seq::new(entries.len(), |i: int| entries[i]@)
}

/// The entry of a pull request.
pub open spec fn entry_of(entries: Seq<EntryView>, number: u64) -> Option<EntryView>
    decreases entries.len(),
{
    if entries.len() == 0 {
        None
    } else if entries[0].number == number {
        Some(entries[0])
    } else {
        entry_of(entries.drop_first(), number)
    }
}

/// The entry of a pull request.
pub fn find_entry(entries: &Vec<QueueEntry>, number: u64) -> (r: Option<usize>)
    ensures
        match r {
            Some(i) => i < entries@.len() && entry_of(entry_views(entries@), number) == Some(
                entries@[i as int]@,
            ) && entries@[i as int].number == number,
            None => entry_of(entry_views(entries@), number) is None,
        },
{
    let ghost all = entry_views(entries@);
    let mut i: usize = 0;
    proof {
        assert(all.skip(0) =~= all);
    }
    while i < entries.len()
        invariant
            i <= entries.len(),
            all == entry_views(entries@),
            entry_of(all, number) == entry_of(all.skip(i as int), number),
        decreases entries.len() - i,
    {
        proof {
            assert(all.skip(i as int)[0] == entries@[i as int]@);
            assert(all.skip(i as int).drop_first() =~= all.skip(i + 1));
        }
        if entries[i].number == number {
            return Some(i);
        }
        i = i + 1;
    }
    None
}

/// The queue position of a pull request.
pub open spec fn position_of(entries: Seq<EntryView>, number: u64) -> Option<u64> {
    match entry_of(entries, number) {
        Some(entry) => Some(entry.position),
        None => None,
    }
}

/// The queue position of a pull request.
pub fn queue_position(entries: &Vec<QueueEntry>, number: u64) -> (r: Option<u64>)
    ensures
        r == position_of(entry_views(entries@), number),
{
    match find_entry(entries, number) {
        Some(i) => Some(entries[i].position),
        None => None,
    }
}

/// The pull request that a row shows.
pub open spec fn pr_of(row: JsonTree, entries: Seq<EntryView>) -> Result<PrView, Seq<char>> {
    match row.number_at("number"@) {
        None => Err("PR row missing number"@),
        Some(number) => match nonempty(row.text_at("id"@)) {
            None => Err("PR #"@ + decimal(number as nat) + " missing node ID"@),
            Some(node_id) => Ok(
                PrView {
                    node_id,
                    number,
                    head_sha: or_text(row.text_at("headRefOid"@), Seq::empty()),
                    head_branch: or_text(row.text_at("headRefName"@), Seq::empty()),
                    draft: row.boolean_at("isDraft"@) != Some(false),
                    merge_state: or_text(row.text_at("mergeStateStatus"@), "UNKNOWN"@),
                    auto_merge_active: row.field("autoMergeRequest"@) matches Some(request) && !(
                    request is Null),
                    queue_position: position_of(entries, number),
                    labels: listed_labels(row),
                    checks: match row.items_at("statusCheckRollup"@) {
                        Some(rows) => row_checks(CheckRows::Rollup, rows),
                        None => Seq::empty(),
                    },
                    check_rollup_maybe_truncated: row.items_at(
                        "statusCheckRollup"@,
                    ) matches Some(rows) && rows.len() == 100,
                },
            ),
        },
    }
}

/// Whether a read pull request says what a view says.
pub open spec fn shows_pr(r: Result<ObservedPr, String>, view: Result<PrView, Seq<char>>) -> bool {
    match (r, view) {
        (Ok(pr), Ok(v)) => pr@ == v,
        (Err(e), Err(m)) => e@ == m,
        _ => false,
    }
}

/// The pull request that a row shows. A pull request that is not known not to be
/// a draft counts as one.
pub fn parse_pr(row: &Json, entries: &Vec<QueueEntry>) -> (r: Result<ObservedPr, String>)
    ensures
        shows_pr(r, pr_of(row@, entry_views(entries@))),
{
    let number: u64 = match row.u64_field("number") {
        Some(number) => number,
        None => return Err("PR row missing number".to_owned()),
    };
    let node_id = match copy_nonempty(row.text_field("id")) {
        Some(id) => id,
        None => {
            return Err(concat3("PR #", to_decimal(number).as_str(), " missing node ID"));
        },
    };
    let rollup = row.array_field("statusCheckRollup");
    let mut checks: Vec<StewardCheck> = Vec::new();
    proof {
        assert(check_views(checks@) =~= Seq::<CheckView>::empty());
    }
    let mut truncated = false;
    if let Some(rows) = rollup {
        truncated = rows.len() == 100;
        append_checks(&mut checks, CheckRows::Rollup, rows);
        proof {
            assert(check_views(checks@) =~= row_checks(CheckRows::Rollup, trees(rows@)));
        }
    }
    proof {
        reveal_strlit("");
        assert(""@ =~= Seq::<char>::empty());
    }
    let auto_merge_active = match row.get("autoMergeRequest") {
        Some(request) => !request.is_null(),
        None => false,
    };
    Ok(
        ObservedPr {
            node_id,
            fact: StewardPullRequest {
                number,
                head_sha: copy_or(row.text_field("headRefOid"), ""),
                head_branch: copy_or(row.text_field("headRefName"), ""),
                draft: row.bool_field("isDraft") != Some(false),
                merge_state: copy_or(row.text_field("mergeStateStatus"), "UNKNOWN"),
                auto_merge_active,
                queue_position: queue_position(entries, number),
                labels: labels_field(row),
                checks,
            },
            check_rollup_maybe_truncated: truncated,
        },
    )
}

/// The pull requests that rows show, or what is wrong with the first row that
/// shows none.
pub open spec fn prs_of(rows: Seq<JsonTree>, entries: Seq<EntryView>) -> Result<
    Seq<PrView>,
    Seq<char>,
>
    decreases rows.len(),
{
    if rows.len() == 0 {
        Ok(Seq::empty())
    } else {
        match prs_of(rows.drop_last(), entries) {
            Err(error) => Err(error),
            Ok(before) => match pr_of(rows.last(), entries) {
                Ok(pr) => Ok(before.push(pr)),
                Err(error) => Err(error),
            },
        }
    }
}

proof fn prs_of_failed_prefix(rows: Seq<JsonTree>, entries: Seq<EntryView>, i: int)
    requires
        0 <= i <= rows.len(),
        prs_of(rows.take(i), entries) is Err,
    ensures
        prs_of(rows, entries) == prs_of(rows.take(i), entries),
    decreases rows.len(),
{
    if i < rows.len() {
        assert(rows.drop_last().take(i) =~= rows.take(i));
        prs_of_failed_prefix(rows.drop_last(), entries, i);
    } else {
        assert(rows.take(i) =~= rows);
    }
}

/// The open pull requests that a listing shows. A full page is not known to be
/// the whole list and is refused.
pub open spec fn listed_prs(listing: JsonTree, entries: Seq<EntryView>) -> Result<
    Seq<PrView>,
    Seq<char>,
> {
    match listing.items() {
        None => Err("open PR list was not an array"@),
        Some(rows) => if rows.len() == 100 {
            Err("open PR list reached 100; refusing a possibly partial snapshot"@)
        } else {
            prs_of(rows, entries)
        },
    }
}

/// Whether read pull requests say what views say.
pub open spec fn shows_prs(
    r: Result<Vec<ObservedPr>, String>,
    view: Result<Seq<PrView>, Seq<char>>,
) -> bool {
    match (r, view) {
        (Ok(prs), Ok(v)) => pr_views(prs@) == v,
        (Err(e), Err(m)) => e@ == m,
        _ => false,
    }
}

/// The open pull requests that a listing shows.
pub fn pull_requests(listing: &Json, entries: &Vec<QueueEntry>) -> (r: Result<
    Vec<ObservedPr>,
    String,
>)
    ensures
        shows_prs(r, listed_prs(listing@, entry_views(entries@))),
{
    let rows = match listing.as_array() {
        Some(rows) => rows,
        None => return Err("open PR list was not an array".to_owned()),
    };
    if rows.len() == 100 {
        return Err("open PR list reached 100; refusing a possibly partial snapshot".to_owned());
    }
    let ghost all = trees(rows@);
    let ghost queue = entry_views(entries@);
    let mut out: Vec<ObservedPr> = Vec::new();
    let mut i: usize = 0;
    proof {
        assert(pr_views(out@) =~= Seq::<PrView>::empty());
    }
    while i < rows.len()
        invariant
            i <= rows.len(),
            all == trees(rows@),
            queue == entry_views(entries@),
            listed_prs(listing@, queue) == prs_of(all, queue),
            prs_of(all.take(i as int), queue) == Ok::<Seq<PrView>, Seq<char>>(pr_views(out@)),
        decreases rows.len() - i,
    {
        let ghost before = out@;
        proof {
            assert(all.take(i + 1).drop_last() =~= all.take(i as int));
            assert(all.take(i + 1).last() == rows@[i as int]@);
        }
        match parse_pr(&rows[i], entries) {
            Ok(pr) => {
                let ghost view = pr@;
                out.push(pr);
                proof {
                    assert(pr_views(out@) =~= pr_views(before).push(view));
                }
            },
            Err(error) => {
                proof {
                    prs_of_failed_prefix(all, queue, i + 1);
                }
                return Err(error);
            },
        }
        i = i + 1;
    }
    proof {
        assert(all.take(all.len() as int) =~= all);
    }
    Ok(out)
}

/// The pull request that a response shows, where it is open and on its base.
pub fn pull_request(response: &Json, expected_base: &str, entries: &Vec<QueueEntry>) -> (r: Result<
    Option<ObservedPr>,
    String,
>)
    ensures
        if response@.text_at("state"@) == Some("OPEN"@) && response@.text_at("baseRefName"@)
            == Some(expected_base@) {
            match pr_of(response@, entry_views(entries@)) {
                Ok(view) => r matches Ok(Some(pr)) && pr@ == view,
                Err(error) => r matches Err(e) && e@ == error,
            }
        } else {
            r matches Ok(None)
        },
{
    if !opt_is(response.text_field("state"), "OPEN") || !opt_is(
        response.text_field("baseRefName"),
        expected_base,
    ) {
        return Ok(None);
    }
    match parse_pr(response, entries) {
        Ok(pr) => Ok(Some(pr)),
        Err(error) => Err(error),
    }
}

/// How a pull request's checks are completed.
#[derive(Clone, Copy, Debug, PartialEq, Eq, Structural)]
pub enum Hydration {
    /// The checks stay as they are.
    Keep,
    /// The head's check runs are added.
    Append,
    /// The head's check runs and statuses take the place of the checks.
    Replace,
}

/// Whether some required check is bound to a producer.
pub fn binds_producer(required: &Vec<RequiredCheck>) -> (r: bool)
    ensures
        r == exists|i: int| 0 <= i < required@.len() && (#[trigger] required@[i]).app_id is Some,
{
    let mut i: usize = 0;
    while i < required.len()
        invariant
            i <= required.len(),
            forall|k: int| 0 <= k < i ==> (#[trigger] required@[k]).app_id is None,
        decreases required.len() - i,
    {
        if required[i].app_id.is_some() {
            return true;
        }
        i = i + 1;
    }
    false
}

/// How a pull request's checks are completed: a rollup that may be cut off is
/// read anew, and producers are read where a required check is bound to one. A
/// head that is no full commit identity is left alone.
pub open spec fn hydration(pr: PrView, bound: bool) -> Hydration {
    if !full_sha(pr.head_sha) {
        Hydration::Keep
    } else if pr.check_rollup_maybe_truncated {
        Hydration::Replace
    } else if bound {
        Hydration::Append
    } else {
        Hydration::Keep
    }
}

/// How a pull request's checks are completed.
pub fn hydration_for(pr: &ObservedPr, bound: bool) -> (r: Hydration)
    ensures
        r == hydration(pr@, bound),
{
    if !is_full_sha(pr.fact.head_sha.as_str()) {
        Hydration::Keep
    } else if pr.check_rollup_maybe_truncated {
        Hydration::Replace
    } else if bound {
        Hydration::Append
    } else {
        Hydration::Keep
    }
}

/// Completes a pull request's checks with what was read for it. `read` holds the
/// head's check runs and, for a replacement, its statuses after them.
pub fn hydrate_required_check_identities(
    pr: &mut ObservedPr,
    hydration: Hydration,
    read: Vec<StewardCheck>,
)
    ensures
        final(pr)@ == match hydration {
            Hydration::Keep => old(pr)@,
            Hydration::Append => PrView {
                checks: old(pr)@.checks + check_views(read@),
                ..old(pr)@
            },
            Hydration::Replace => PrView {
                checks: check_views(read@),
                check_rollup_maybe_truncated: false,
                ..old(pr)@
            },
        },
{
    match hydration {
        Hydration::Keep => {},
        Hydration::Append => {
            let ghost before = check_views(pr.fact.checks@);
            let ghost added = check_views(read@);
            let mut more = read;
            pr.fact.checks.append(&mut more);
            proof {
                assert(check_views(pr.fact.checks@) =~= before + added);
            }
        },
        Hydration::Replace => {
            pr.fact.checks = read;
            pr.check_rollup_maybe_truncated = false;
        },
    }
}

/// Who produced the check of a job.
#[derive(Clone, Debug, PartialEq, Eq)]
pub struct JobCheckProducer {
    pub run_id: u64,
    pub job_id: u64,
    pub name: String,
    pub app_id: Option<u64>,
}

/// What a producer says.
pub struct ProducerView {
    pub run_id: u64,
    pub job_id: u64,
    pub name: Seq<char>,
    pub app_id: Option<u64>,
}

impl View for JobCheckProducer {
    type V = ProducerView;

    open spec fn view(&self) -> ProducerView {
        ProducerView {
            run_id: self.run_id,
            job_id: self.job_id,
            name: self.name@,
            app_id: self.app_id,
        }
    }
}

/// The producer that a row names.
pub open spec fn producer_of(row: JsonTree) -> Option<ProducerView> {
    match (row.text_at("name"@), row.text_at("details_url"@)) {
        (Some(name), Some(url)) => match run_and_job_in_url(url) {
            Some((run_id, job_id)) => Some(
                ProducerView {
                    run_id,
                    job_id,
                    name,
                    app_id: match row.at(seq!["app"@, "id"@]) {
                        Some(id) => id.number(),
                        None => None,
                    },
                },
            ),
            None => None,
        },
        _ => None,
    }
}

/// The producer of each job that rows name; two rows that name different
/// producers of one job contradict one another.
pub open spec fn producers_of(
    rows: Seq<JsonTree>,
    known: Map<u64, ProducerView>,
) -> Result<Map<u64, ProducerView>, Seq<char>>
    decreases rows.len(),
{
    if rows.len() == 0 {
        Ok(known)
    } else {
        match producers_of(rows.drop_last(), known) {
            Err(error) => Err(error),
            Ok(before) => match producer_of(rows.last()) {
                None => Ok(before),
                Some(producer) => if before.dom().contains(producer.job_id)
                    && before[producer.job_id] != producer {
                    Err(
                        "merge-group job "@ + decimal(producer.job_id as nat)
                            + " has contradictory check producer identities"@,
                    )
                } else {
                    Ok(before.insert(producer.job_id, producer))
                },
            },
        }
    }
}

proof fn producers_of_failed_prefix(rows: Seq<JsonTree>, known: Map<u64, ProducerView>, i: int)
    requires
        0 <= i <= rows.len(),
        producers_of(rows.take(i), known) is Err,
    ensures
        producers_of(rows, known) == producers_of(rows.take(i), known),
    decreases rows.len(),
{
    if i < rows.len() {
        assert(rows.drop_last().take(i) =~= rows.take(i));
        producers_of_failed_prefix(rows.drop_last(), known, i);
    } else {
        assert(rows.take(i) =~= rows);
    }
}

/// The producers in a map.
pub open spec fn producer_views(map: Map<u64, JobCheckProducer>) -> Map<u64, ProducerView> {
    map.map_values(|p: JobCheckProducer| p@)
}

fn parse_producer(row: &Json) -> (r: Option<JobCheckProducer>)
    ensures
        match (r, producer_of(row@)) {
            (Some(p), Some(v)) => p@ == v,
            (None, None) => true,
            _ => false,
        },
{
    let name = match row.text_field("name") {
        Some(name) => name,
        None => return None,
    };
    let url = match row.text_field("details_url") {
        Some(url) => url,
        None => return None,
    };
    match run_and_job_id_from_url(url.as_str()) {
        Some((run_id, job_id)) => {
            let app_id: Option<u64> = match row.get2("app", "id") {
                Some(id) => id.as_u64(),
                None => None,
            };
            Some(JobCheckProducer { run_id, job_id, name: name.clone(), app_id })
        },
        None => None,
    }
}

/// Adds a page of a merge group's check producers.
pub fn job_check_producers_for_head(
    producers: &mut BTreeMap<u64, JobCheckProducer>,
    response: &Json,
    page: u64,
) -> (r: Result<Paging, String>)
    ensures
        match response@.items_at("check_runs"@) {
            None => result_view(r) == Err::<Paging, Seq<char>>(
                "merge-group check producer identities missing check_runs"@,
            ) && *final(producers) == *old(producers),
            Some(rows) => match producers_of(rows, producer_views(old(producers)@)) {
                Err(error) => result_view(r) == Err::<Paging, Seq<char>>(error),
                Ok(map) => producer_views(final(producers)@) == map && result_view(r) == paging(
                    rows.len(),
                    page,
                    "merge-group check runs exceed 1000; refusing partial producer scan"@,
                ),
            },
        },
{
    broadcast use vstd::std_specs::btree::group_btree_axioms;
    let rows = match response.array_field("check_runs") {
        Some(rows) => rows,
        None => {
            return Err("merge-group check producer identities missing check_runs".to_owned());
        },
    };
    let ghost known = producer_views(producers@);
    let ghost all = trees(rows@);
    let mut i: usize = 0;
    while i < rows.len()
        invariant
            i <= rows.len(),
            all == trees(rows@),
            known == producer_views(old(producers)@),
            response@.items_at("check_runs"@) == Some(all),
            producers_of(all.take(i as int), known) == Ok::<Map<u64, ProducerView>, Seq<char>>(
                producer_views(producers@),
            ),
        decreases rows.len() - i,
    {
        let ghost before = producers@;
        proof {
            assert(all.take(i + 1).drop_last() =~= all.take(i as int));
            assert(all.take(i + 1).last() == rows@[i as int]@);
        }
        if let Some(producer) = parse_producer(&rows[i]) {
            let ghost view = producer@;
            let contradicted = match producers.get(&producer.job_id) {
                Some(prior) => prior.run_id != producer.run_id || prior.job_id != producer.job_id
                    || prior.name != producer.name || prior.app_id != producer.app_id,
                None => false,
            };
            if contradicted {
                proof {
                    producers_of_failed_prefix(all, known, i + 1);
                }
                return Err(
                    concat3(
                        "merge-group job ",
                        to_decimal(producer.job_id).as_str(),
                        " has contradictory check producer identities",
                    ),
                );
            }
            let _ = producers.insert(producer.job_id, producer);
            proof {
                assert(producer_views(producers@) =~= producer_views(before).insert(
                    view.job_id,
                    view,
                ));
            }
        }
        i = i + 1;
    }
    proof {
        assert(all.take(all.len() as int) =~= all);
    }
    next_page(
        rows.len(),
        page,
        "merge-group check runs exceed 1000; refusing partial producer scan",
    )
}

/// Whether runs are listed in increasing order of their numbers.
pub open spec fn ordered_runs(runs: Seq<StewardRun>) -> bool {
    forall|i: int, j: int|
        0 <= i < j < runs.len() ==> (#[trigger] runs[i]).id < (#[trigger] runs[j]).id
}

/// Whether a list holds a run with a number.
pub open spec fn has_run(runs: Seq<StewardRun>, id: u64) -> bool {
    exists|i: int| 0 <= i < runs.len() && (#[trigger] runs[i]).id == id
}

/// Adds a run to an ordered list, unless the list has one with its number.
fn add_run(runs: &mut Vec<StewardRun>, run: StewardRun)
    requires
        ordered_runs(old(runs)@),
    ensures
        ordered_runs(final(runs)@),
        forall|id: u64| #[trigger]
            has_run(final(runs)@, id) <==> has_run(old(runs)@, id) || id == run.id,
        forall|k: int|
            0 <= k < final(runs)@.len() ==> old(runs)@.contains(#[trigger] final(runs)@[k]) || final(runs)@[k] == run,
{
    let ghost before = runs@;
    let mut i: usize = 0;
    while i < runs.len() && runs[i].id < run.id
        invariant
            i <= runs.len(),
            runs@ == before,
            ordered_runs(before),
            forall|k: int| 0 <= k < i ==> (#[trigger] before[k]).id < run.id,
        decreases runs.len() - i,
    {
        i = i + 1;
    }
    if i < runs.len() && runs[i].id == run.id {
        proof {
            assert(before[i as int].id == run.id);
        }
        return ;
    }
    runs.insert(i, run);
    proof {
        let after = runs@;
        assert(after == before.insert(i as int, run));
        assert(after[i as int] == run);
        assert forall|a: int, b: int| 0 <= a < b < after.len() implies (#[trigger] after[a]).id < (
        #[trigger] after[b]).id by {
            let x = if a < i { a } else { a - 1 };
            let y = if b < i { b } else { b - 1 };
            if a == i {
                assert(after[b] == before[y]);
                if y > i {
                    assert(before[i as int].id < before[y].id);
                }
            } else if b == i {
                assert(after[a] == before[x]);
            } else {
                assert(after[a] == before[x]);
                assert(after[b] == before[y]);
            }
        }
        assert forall|id: u64| #[trigger] has_run(after, id) <==> has_run(before, id) || id
            == run.id by {
            if has_run(before, id) {
                let k = choose|k: int| 0 <= k < before.len() && (#[trigger] before[k]).id == id;
                assert(after[if k < i { k } else { k + 1 }].id == id);
            }
            if has_run(after, id) && id != run.id {
                let k = choose|k: int| 0 <= k < after.len() && (#[trigger] after[k]).id == id;
                assert(before[if k < i { k } else { k - 1 }].id == id);
            }
        }
        assert forall|k: int| 0 <= k < after.len() implies before.contains(#[trigger] after[k])
            || after[k] == run by {
            if k != i {
                assert(after[k] == before[if k < i { k } else { k - 1 }]);
            }
        }
    }
}

/// Whether a run is shown by one of the first rows.
pub open spec fn shown_run(rows: Seq<JsonTree>, limit: int, run: StewardRun) -> bool {
    exists|i: int| 0 <= i < limit && run_of(#[trigger] rows[i]) == Some(run@)
}

/// Whether some row shows a run with a number.
pub open spec fn names_run_id(rows: Seq<JsonTree>, limit: int, id: u64) -> bool {
    exists|i: int|
        0 <= i < limit && (run_of(#[trigger] rows[i]) matches Some(run) && run.id == id)
}

/// Adds a page of the active runs to an ordered list without repetition. A row
/// that shows no run is refused.
pub fn active_runs(runs: &mut Vec<StewardRun>, response: &Json, page: u64) -> (r: Result<
    Paging,
    String,
>)
    requires
        ordered_runs(old(runs)@),
    ensures
        match response@.items_at("workflow_runs"@) {
            None => result_view(r) == Err::<Paging, Seq<char>>(
                "active workflow response missing workflow_runs"@,
            ) && *final(runs) == *old(runs),
            Some(rows) => if exists|i: int|
                0 <= i < rows.len() && run_of(#[trigger] rows[i]) is None {
                result_view(r) == Err::<Paging, Seq<char>>(
                    "active workflow response contained malformed run"@,
                )
            } else {
                &&& result_view(r) == paging(
                    rows.len(),
                    page,
                    "active workflow runs exceed 1000; refusing partial scan"@,
                )
                &&& ordered_runs(final(runs)@)
                &&& forall|id: u64| #[trigger]
                    has_run(final(runs)@, id) <==> has_run(old(runs)@, id) || names_run_id(
                        rows,
                        rows.len() as int,
                        id,
                    )
                &&& forall|k: int|
                    0 <= k < final(runs)@.len() ==> old(runs)@.contains(
                        #[trigger] final(runs)@[k],
                    ) || shown_run(rows, rows.len() as int, final(runs)@[k])
            },
        },
{
    let rows = match response.array_field("workflow_runs") {
        Some(rows) => rows,
        None => return Err("active workflow response missing workflow_runs".to_owned()),
    };
    let ghost start = runs@;
    let ghost all = trees(rows@);
    let mut i: usize = 0;
    while i < rows.len()
        invariant
            i <= rows.len(),
            all == trees(rows@),
            start == old(runs)@,
            response@.items_at("workflow_runs"@) == Some(all),
            ordered_runs(runs@),
            forall|k: int| 0 <= k < i ==> run_of(#[trigger] all[k]) is Some,
            forall|id: u64| #[trigger]
                has_run(runs@, id) <==> has_run(start, id) || names_run_id(all, i as int, id),
            forall|k: int|
                0 <= k < runs@.len() ==> start.contains(#[trigger] runs@[k]) || shown_run(
                    all,
                    i as int,
                    runs@[k],
                ),
        decreases rows.len() - i,
    {
        proof {
            assert(all[i as int] == rows@[i as int]@);
        }
        match parse_run(&rows[i]) {
            Some(run) => {
                let ghost before = runs@;
                let ghost added = run;
                add_run(runs, run);
                proof {
                    assert forall|id: u64| #[trigger]
                        has_run(runs@, id) <==> has_run(start, id) || names_run_id(
                            all,
                            i + 1,
                            id,
                        ) by {
                        assert(has_run(before, id) <==> has_run(start, id) || names_run_id(
                            all,
                            i as int,
                            id,
                        ));
                        if names_run_id(all, i as int, id) {
                            let k = choose|k: int|
                                0 <= k < i && (run_of(#[trigger] all[k]) matches Some(v) && v.id
                                    == id);
                            assert(run_of(all[k]) matches Some(v) && v.id == id);
                        }
                        if id == added.id {
                            assert(run_of(all[i as int]) matches Some(v) && v.id == id);
                        }
                    }
                    assert forall|k: int| 0 <= k < runs@.len() implies start.contains(
                        #[trigger] runs@[k],
                    ) || shown_run(all, i + 1, runs@[k]) by {
                        if before.contains(runs@[k]) {
                            let q = choose|q: int| 0 <= q < before.len() && before[q] == runs@[k];
                            assert(start.contains(before[q]) || shown_run(
                                all,
                                i as int,
                                before[q],
                            ));
                            if shown_run(all, i as int, before[q]) {
                                let m = choose|m: int|
                                    0 <= m < i && run_of(#[trigger] all[m]) == Some(before[q]@);
                                assert(run_of(all[m]) == Some(runs@[k]@));
                            }
                        } else {
                            assert(run_of(all[i as int]) == Some(added@));
                        }
                    }
                }
            },
            None => {
                proof {
                    assert(run_of(all[i as int]) is None);
                }
                return Err("active workflow response contained malformed run".to_owned());
            },
        }
        i = i + 1;
    }
    next_page(rows.len(), page, "active workflow runs exceed 1000; refusing partial scan")
}

/// Whether the jobs of a run have to be read to judge a preemption: it is the
/// merge-group run of the queue's front, or a pull request's running preamble.
pub fn hydrate_preemption_jobs(run: &StewardRun, front_head: &str, preemptible: bool) -> (r: bool)
    ensures
        r == ((run.event@ == "merge_group"@ && same_ignoring_case(front_head@, run.head_sha@)) || (
        run.event@ == "pull_request"@ && same_ignoring_case(run.status@, "in_progress"@)
            && preemptible)),
{
    (str_eq(run.event.as_str(), "merge_group") && eq_ignore_case(
        front_head,
        run.head_sha.as_str(),
    )) || (str_eq(run.event.as_str(), "pull_request") && eq_ignore_case(
        run.status.as_str(),
        "in_progress",
    ) && preemptible)
}

/// What was read of a repository, put together. A repository that does not say so
/// does not merge by itself.
pub fn observe_repo(
    settings: &Json,
    repo: String,
    base: &str,
    merge_queue: bool,
    required_checks: Vec<RequiredCheck>,
    prs: Vec<ObservedPr>,
    runs: Vec<StewardRun>,
    merge_group_heads: BTreeMap<u64, String>,
    merge_group_enqueued_at: BTreeMap<u64, String>,
    preemption_error: Option<String>,
) -> (r: RepoObservation)
    ensures
        r.repo == repo,
        r.base@ == base@,
        r.allow_auto_merge == (settings@.boolean_at("allow_auto_merge"@) == Some(true)),
        r.merge_queue == merge_queue,
        r.required_checks == required_checks,
        r.prs == prs,
        r.runs == runs,
        r.merge_group_heads == merge_group_heads,
        r.merge_group_enqueued_at == merge_group_enqueued_at,
        r.preemption_error == preemption_error,
{
    let allow_auto_merge = match settings.bool_field("allow_auto_merge") {
        Some(allow) => allow,
        None => false,
    };
    RepoObservation {
        repo,
        base: base.to_owned(),
        allow_auto_merge,
        merge_queue,
        required_checks,
        prs,
        runs,
        merge_group_heads,
        merge_group_enqueued_at,
        preemption_error,
    }
}

/// The arguments that read the checks that a branch's protection requires.
pub fn required_checks_args(repo: &str, base: &str) -> (r: Vec<String>)
    ensures
        views(r@) == seq![
            "api"@,
            "repos/"@ + repo@ + "/branches/"@ + path_segment(base@)
                + "/protection/required_status_checks"@,
        ],
{
    let mut out: Vec<String> = Vec::new();
    out.push("api".to_owned());
    out.push(
        concat5(
            "repos/",
            repo,
            "/branches/",
            encode_path_segment(base).as_str(),
            "/protection/required_status_checks",
        ),
    );
    proof {
        assert(views(out@) =~= seq![
            "api"@,
            "repos/"@ + repo@ + "/branches/"@ + path_segment(base@)
                + "/protection/required_status_checks"@,
        ]);
    }
    out
}

/// The arguments that read the rules that hold for a branch.
pub fn evaluated_branch_rules(repo: &str, base: &str) -> (r: Vec<String>)
    ensures
        views(r@) == seq![
            "api"@,
            "repos/"@ + repo@ + "/rules/branches/"@ + path_segment(base@),
            "--paginate"@,
            "--slurp"@,
        ],
{
    let mut out: Vec<String> = Vec::new();
    out.push("api".to_owned());
    out.push(concat4("repos/", repo, "/rules/branches/", encode_path_segment(base).as_str()));
    out.push("--paginate".to_owned());
    out.push("--slurp".to_owned());
    proof {
        assert(views(out@) =~= seq![
            "api"@,
            "repos/"@ + repo@ + "/rules/branches/"@ + path_segment(base@),
            "--paginate"@,
            "--slurp"@,
        ]);
    }
    out
}

/// Whether a branch's protection counts, after it was read: where it may not be
/// read or there is none, only the rules count.
pub fn required_checks_with_evaluated_rules(
    failed: Option<&String>,
    not_entitled: bool,
    not_admin: bool,
) -> (r: Result<bool, String>)
    ensures
        match failed {
            None => r == Ok::<bool, String>(true),
            Some(error) => if not_entitled || not_admin || has_infix(error@, "HTTP 404"@) {
                r == Ok::<bool, String>(false)
            } else {
                r matches Err(e) && e@ == "required-check policy read failed: "@ + error@
            },
        },
{
    match failed {
        None => Ok(true),
        Some(error) => if not_entitled || not_admin || contains(error.as_str(), "HTTP 404") {
            Ok(false)
        } else {
            Err(concat("required-check policy read failed: ", error.as_str()))
        },
    }
}

/// A branch's protection, after it was read, as the document that it is given in;
/// none where it may not be read or there is none.
pub fn required_check_policy(
    read: &Result<String, String>,
    not_entitled: bool,
    not_admin: bool,
) -> (r: Result<Option<Json>, String>)
    ensures
        match *read {
            Ok(raw) => match crate::json::json_of(raw@) {
                Ok(t) => r matches Ok(Some(document)) && document@ == t,
                Err(m) => r matches Err(e) && e@
                    == "required-check policy returned malformed JSON: "@ + m,
            },
            Err(error) => if not_entitled || not_admin || has_infix(error@, "HTTP 404"@) {
                r matches Ok(None)
            } else {
                r matches Err(e) && e@ == "required-check policy read failed: "@ + error@
            },
        },
{
    match read {
        Err(error) => match required_checks_with_evaluated_rules(
            Some(error),
            not_entitled,
            not_admin,
        ) {
            Ok(_) => Ok(None),
            Err(message) => Err(message),
        },
        Ok(raw) => match crate::json::parse_json(raw.as_str()) {
            Ok(document) => Ok(Some(document)),
            Err(error) => Err(
                concat("required-check policy returned malformed JSON: ", error.as_str()),
            ),
        },
    }
}

/// The arguments that read a pull request.
pub fn pull_request_args(repo: &str, number: u64) -> (r: Vec<String>)
    ensures
        views(r@) == seq![
            "pr"@,
            "view"@,
            decimal(number as nat),
            "--repo"@,
            repo@,
            "--json"@,
            "id,number,state,isDraft,baseRefName,headRefOid,headRefName,mergeStateStatus,autoMergeRequest,labels,statusCheckRollup"@,
        ],
{
    let mut out: Vec<String> = Vec::new();
    out.push("pr".to_owned());
    out.push("view".to_owned());
    out.push(to_decimal(number));
    out.push("--repo".to_owned());
    out.push(repo.to_owned());
    out.push("--json".to_owned());
    out.push(
        "id,number,state,isDraft,baseRefName,headRefOid,headRefName,mergeStateStatus,autoMergeRequest,labels,statusCheckRollup".to_owned(),
    );
    proof {
        assert(views(out@) =~= seq![
            "pr"@,
            "view"@,
            decimal(number as nat),
            "--repo"@,
            repo@,
            "--json"@,
            "id,number,state,isDraft,baseRefName,headRefOid,headRefName,mergeStateStatus,autoMergeRequest,labels,statusCheckRollup"@,
        ]);
    }
    out
}

/// A list is complete exactly with a page that is not full; a full page is followed by
/// another until the last that is allowed, where the list is refused.
pub proof fn a_full_page_is_followed_or_refused(rows: nat, page: u64, refusal: Seq<char>)
    ensures
        paging(rows, page, refusal) == Ok::<Paging, Seq<char>>(Paging::Complete) <==> rows < 100,
        paging(rows, page, refusal) == Ok::<Paging, Seq<char>>(Paging::More) <==> rows >= 100
            && page < 10,
        paging(rows, page, refusal) is Err <==> rows >= 100 && page >= 10,
{
}

/// A status counts as finished unless it is pending or expected, succeeds exactly where it
/// says so, and fails where it tells an error or a failure; a check run is told as it is,
/// and an empty conclusion is none.
pub proof fn statuses_and_checks_are_told_apart(value: JsonTree)
    ensures
        check_of(value) matches Some(check) ==> {
            &&& check.source == StewardCheckSource::CheckRun ==> value.text_at("__typename"@) == Some(
                "CheckRun"@,
            ) && value.text_at("name"@) == Some(check.name) && value.text_at("status"@) == Some(
                check.status,
            ) && check.conclusion == nonempty(value.text_at("conclusion"@)) && check.app_id
                == app_of(value)
            &&& check.source == StewardCheckSource::StatusContext ==> value.text_at("__typename"@)
                == Some("StatusContext"@) && value.text_at("context"@) == Some(check.name)
                && check.app_id is None && (value.text_at("state"@) matches Some(state) && (
            check.status == "COMPLETED"@ <==> state != "PENDING"@ && state != "EXPECTED"@) && (
            check.conclusion == Some("SUCCESS"@) <==> state == "SUCCESS"@) && (check.conclusion
                == Some("FAILURE"@) <==> state == "ERROR"@ || state == "FAILURE"@))
        },
{
    reveal_strlit("COMPLETED");
    reveal_strlit("IN_PROGRESS");
    reveal_strlit("SUCCESS");
    reveal_strlit("FAILURE");
    reveal_strlit("ERROR");
    reveal_strlit("StatusContext");
    reveal_strlit("CheckRun");
    assert("COMPLETED"@[0] == 'C' && "IN_PROGRESS"@[0] == 'I' && "SUCCESS"@[0] == 'S' && "FAILURE"@[0]
        == 'F' && "ERROR"@[0] == 'E' && "StatusContext"@[0] == 'S' && "CheckRun"@[0] == 'C');
}

/// A status that was listed for a head succeeds, fails or waits by its state, in any letter
/// case.
pub proof fn listed_statuses_go_by_their_state(value: JsonTree, state: Seq<char>)
    requires
        value.text_at("state"@) == Some(state),
        value.text_at("context"@) is Some,
    ensures
        rest_status_of(value) matches Some(check) && {
            &&& value.text_at("context"@) == Some(check.name)
            &&& check.status == "IN_PROGRESS"@ <==> same_ignoring_case(state, "pending"@)
            &&& same_ignoring_case(state, "success"@) ==> check.conclusion == Some("SUCCESS"@)
            &&& check.conclusion == Some("SUCCESS"@) ==> same_ignoring_case(state, "success"@)
            &&& check.conclusion == Some("FAILURE"@) ==> same_ignoring_case(state, "error"@)
                || same_ignoring_case(state, "failure"@)
        },
{
    reveal_strlit("COMPLETED");
    reveal_strlit("IN_PROGRESS");
    reveal_strlit("SUCCESS");
    reveal_strlit("FAILURE");
    assert("COMPLETED"@[0] == 'C' && "IN_PROGRESS"@[0] == 'I' && "SUCCESS"@[0] == 'S' && "FAILURE"@[0]
        == 'F');
}

/// Every row that tells a check is among the checks, and a row that tells none adds none.
pub proof fn each_telling_row_is_a_check(kind: CheckRows, rows: Seq<JsonTree>, i: int)
    requires
        0 <= i < rows.len(),
    ensures
        row_check(kind, rows[i]) matches Some(check) ==> row_checks(kind, rows).contains(check),
        row_checks(kind, rows).len() <= rows.len(),
    decreases rows.len(),
{
    let before = rows.drop_last();
    reveal_with_fuel(row_checks, 2);
    if before.len() > 0 {
        each_telling_row_is_a_check(kind, before, 0);
    }
    let rest = row_checks(kind, before);
    let all = row_checks(kind, rows);
    if i < rows.len() - 1 {
        assert(before[i] == rows[i]);
        each_telling_row_is_a_check(kind, before, i);
        if let Some(check) = row_check(kind, rows[i]) {
            let k = choose|k: int| 0 <= k < rest.len() && rest[k] == check;
            assert(all[k] == check);
        }
    } else if let Some(check) = row_check(kind, rows[i]) {
        assert(all[rest.len() as int] == check);
    }
}

/// A page of jobs gives every one of them in its place, or is refused for the one that is
/// malformed.
pub proof fn each_row_is_a_job(rows: Seq<JsonTree>, i: int)
    requires
        0 <= i < rows.len(),
    ensures
        jobs_of(rows) matches Ok(jobs) ==> jobs.len() == rows.len() && job_of(rows[i]) == Ok::<
            JobView,
            Seq<char>,
        >(jobs[i]),
        job_of(rows[i]) is Err ==> jobs_of(rows) is Err,
    decreases rows.len(),
{
    reveal_with_fuel(jobs_of, 2);
    let before = rows.drop_last();
    if before.len() > 0 {
        each_row_is_a_job(before, 0);
    }
    if i < rows.len() - 1 {
        assert(before[i] == rows[i]);
        each_row_is_a_job(before, i);
    }
}

/// A job needs its name and its status, and tells its labels, its runner and its conclusion
/// as they are.
pub proof fn a_job_tells_its_row(row: JsonTree)
    ensures
        job_of(row) is Ok <==> row.text_at("name"@) is Some && row.text_at("status"@) is Some,
        job_of(row) matches Ok(job) ==> row.text_at("name"@) == Some(job.name) && row.text_at(
            "status"@,
        ) == Some(job.status) && job.conclusion == row.text_at("conclusion"@) && job.runner_name
            == nonempty(row.text_at("runner_name"@)) && (row.number_at("id"@) matches Some(id)
            ==> job.id == id),
{
}

/// A run needs everything that identifies it and an attempt that has begun; it is of a pull
/// request only where it lists exactly one.
pub proof fn a_run_tells_its_row(row: JsonTree)
    ensures
        run_of(row) matches Some(run) ==> {
            &&& row.number_at("id"@) == Some(run.id)
            &&& row.number_at("workflow_id"@) == Some(run.workflow_id)
            &&& row.number_at("run_attempt"@) == Some(run.run_attempt) && run.run_attempt > 0
            &&& row.text_at("head_sha"@) == Some(run.head_sha)
            &&& row.text_at("head_branch"@) == Some(run.head_branch)
            &&& row.text_at("status"@) == Some(run.status)
            &&& row.text_at("event"@) == Some(run.event)
            &&& row.text_at("created_at"@) == Some(run.created_at)
            &&& run.pull_request_number matches Some(number) ==> (row.items_at("pull_requests"@)
                matches Some(items) && items.len() == 1 && items[0].number_at("number"@) == Some(
                number,
            ))
        },
        row.items_at("pull_requests"@) matches Some(items) ==> (items.len() != 1 ==> run_pr(row)
            is None),
        row.number_at("id"@) is Some && row.number_at("workflow_id"@) is Some && (row.number_at(
            "run_attempt"@,
        ) matches Some(attempt) && attempt > 0) && row.text_at("name"@) is Some && row.text_at(
            "head_sha"@,
        ) is Some && row.text_at("head_branch"@) is Some && row.text_at("status"@) is Some
            && row.text_at("event"@) is Some && row.text_at("created_at"@) is Some ==> run_of(row)
            is Some,
{
}

/// A pull request is a draft unless it is said not to be, is armed exactly where it has an
/// auto-merge request, and stands in the queue where its entry says.
pub proof fn a_pull_request_tells_its_row(row: JsonTree, entries: Seq<EntryView>)
    ensures
        pr_of(row, entries) is Ok <==> row.number_at("number"@) is Some && (row.text_at("id"@)
            matches Some(id) && id.len() > 0),
        pr_of(row, entries) matches Ok(pr) ==> {
            &&& row.number_at("number"@) == Some(pr.number)
            &&& row.text_at("id"@) == Some(pr.node_id)
            &&& !pr.draft <==> row.boolean_at("isDraft"@) == Some(false)
            &&& pr.auto_merge_active <==> (row.field("autoMergeRequest"@) matches Some(request) && !(
            request is Null))
            &&& pr.queue_position is Some <==> entry_of(entries, pr.number) is Some
            &&& entry_of(entries, pr.number) matches Some(entry) ==> pr.queue_position == Some(
                entry.position,
            )
            &&& row.text_at("headRefOid"@) matches Some(head) ==> pr.head_sha == head
            &&& row.text_at("mergeStateStatus"@) matches Some(state) ==> pr.merge_state == state
        },
{
}

/// The entry of a pull request is the first with its number, and there is none where no
/// entry has it.
pub proof fn the_first_entry_counts(entries: Seq<EntryView>, number: u64, i: int)
    requires
        0 <= i < entries.len(),
        entries[i].number == number,
        forall|k: int| 0 <= k < i ==> (#[trigger] entries[k]).number != number,
    ensures
        entry_of(entries, number) == Some(entries[i]),
        position_of(entries, number) == Some(entries[i].position),
    decreases i,
{
    if i > 0 {
        assert(entries[0].number != number);
        let rest = entries.drop_first();
        assert(rest[i - 1] == entries[i]);
        assert forall|k: int| 0 <= k < i - 1 implies (#[trigger] rest[k]).number != number by {
            assert(rest[k] == entries[k + 1]);
        }
        the_first_entry_counts(rest, number, i - 1);
    }
}

/// The checks of a head are read again exactly where the head is exact and the list may be
/// cut off, or a required check is bound to its producer.
pub proof fn checks_are_read_again_where_needed(pr: PrView, bound: bool)
    ensures
        hydration(pr, bound) == Hydration::Replace <==> full_sha(pr.head_sha)
            && pr.check_rollup_maybe_truncated,
        hydration(pr, bound) == Hydration::Append <==> full_sha(pr.head_sha)
            && !pr.check_rollup_maybe_truncated && bound,
{
}

/// The producer of a job is the one of its row; two rows that contradict each other refuse
/// all, and no known producer is lost.
pub proof fn producers_never_contradict(
    rows: Seq<JsonTree>,
    known: Map<u64, ProducerView>,
    i: int,
)
    requires
        0 <= i < rows.len(),
        producers_of(rows, known) is Ok,
    ensures
        producer_of(rows[i]) matches Some(producer) ==> producers_of(
            rows,
            known,
        )->Ok_0.dom().contains(producer.job_id) && producers_of(rows, known)->Ok_0[producer.job_id]
            == producer,
        forall|id: u64| #[trigger]
            known.dom().contains(id) ==> producers_of(rows, known)->Ok_0.dom().contains(id)
                && producers_of(rows, known)->Ok_0[id] == known[id],
    decreases rows.len(),
{
    reveal_with_fuel(producers_of, 2);
    let before = rows.drop_last();
    if before.len() > 0 {
        producers_never_contradict(before, known, 0);
    }
    if i < rows.len() - 1 {
        assert(before[i] == rows[i]);
        producers_never_contradict(before, known, i);
    }
}

/// The repository's own name is taken exactly where it is a slug.
pub proof fn only_a_slug_is_a_name(settings: JsonTree)
    ensures
        canonical_name(settings) matches Ok(name) ==> is_slug(name) && settings.text_at(
            "full_name"@,
        ) == Some(name),
        settings.text_at("full_name"@) matches Some(name) ==> (is_slug(name) && !is_blank(name)
            ==> canonical_name(settings) is Ok),
{
}

/// A list of pull requests gives every one of them in its place; a full page, or a row that
/// is malformed, refuses it.
pub proof fn each_row_is_a_pull_request(
    listing: JsonTree,
    entries: Seq<EntryView>,
    rows: Seq<JsonTree>,
    i: int,
)
    requires
        listing.items() == Some(rows),
        0 <= i < rows.len(),
    ensures
        rows.len() == 100 ==> listed_prs(listing, entries) is Err,
        listed_prs(listing, entries) matches Ok(prs) ==> prs.len() == rows.len() && pr_of(
            rows[i],
            entries,
        ) == Ok::<PrView, Seq<char>>(prs[i]),
        pr_of(rows[i], entries) is Err ==> listed_prs(listing, entries) is Err,
{
    each_pull_request_keeps_its_place(rows, entries, i);
}

proof fn each_pull_request_keeps_its_place(rows: Seq<JsonTree>, entries: Seq<EntryView>, i: int)
    requires
        0 <= i < rows.len(),
    ensures
        prs_of(rows, entries) matches Ok(prs) ==> prs.len() == rows.len() && pr_of(rows[i], entries)
            == Ok::<PrView, Seq<char>>(prs[i]),
        pr_of(rows[i], entries) is Err ==> prs_of(rows, entries) is Err,
    decreases rows.len(),
{
    reveal_with_fuel(prs_of, 2);
    let before = rows.drop_last();
    if before.len() > 0 {
        each_pull_request_keeps_its_place(before, entries, 0);
    }
    if i < rows.len() - 1 {
        assert(before[i] == rows[i]);
        each_pull_request_keeps_its_place(before, entries, i);
    }
}

} // verus!
