//! Telling a hosted machine's setup failure from a failure of the change.
use merge_steward::json::{parse_json, Json};
use merge_steward::model::{StewardCheck, StewardCheckSource};
use merge_steward::outside::{parse_time, Instant};
use merge_steward::queue_recovery::{
    current_base_sha, failed_required_check_matches_run, final_authority_args,
    is_hosted_setup_job, merge_group_contains_base, parents_include_base,
    provider_internal_dns_failure, removal_args, removal_is_fresh,
    required_check_has_allowed_conclusion, sole_failed_setup_job, witness_key,
    GITHUB_ACTIONS_APP_ID,
};

fn json(text: &str) -> Json {
    parse_json(text).expect("JSON")
}

fn at(text: &str) -> Instant {
    parse_time(text).expect("a moment")
}

const SETUP: &str = r#"[{"name":"Set up job","status":"completed","conclusion":"failure"}]"#;

fn job(labels: &str, steps: &str) -> Json {
    json(&format!(
        r#"{{"runner_group_name":"GitHub Actions","labels":{labels},"steps":{steps}}}"#
    ))
}

#[test]
fn hosted_setup_job_requires_one_exact_setup_step_and_hosted_label() {
    assert!(is_hosted_setup_job(&job(r#"["ubuntu-latest"]"#, SETUP)));
    assert!(!is_hosted_setup_job(&job(r#"["self-hosted","linux"]"#, SETUP)));
    let checkout = r#"[
        {"name":"Set up job","status":"completed","conclusion":"success"},
        {"name":"Checkout","status":"completed","conclusion":"failure"}
    ]"#;
    assert!(!is_hosted_setup_job(&job(r#"["ubuntu-latest"]"#, checkout)));
}

#[test]
fn dns_signature_rejects_generic_setup_failure() {
    assert!(provider_internal_dns_failure(
        "Name or service not known (internal-api.service.iad.github.net:443); Failed to download archive after 3 attempts"
    ));
    assert!(!provider_internal_dns_failure("The action version does not exist"));
    assert!(!provider_internal_dns_failure("Could not resolve github.com"));
}

#[test]
fn removal_evidence_expires_after_two_hours() {
    let now = at("2026-08-25T22:00:00Z");
    assert!(removal_is_fresh(at("2026-08-25T20:00:00Z"), now));
    assert!(!removal_is_fresh(at("2026-08-25T19:59:59Z"), now));
    assert!(!removal_is_fresh(at("2026-08-25T22:00:01Z"), now));
}

#[test]
fn required_failure_must_be_a_github_actions_check_run() {
    let check = StewardCheck {
        name: "required".to_owned(),
        source: StewardCheckSource::CheckRun,
        app_id: Some(GITHUB_ACTIONS_APP_ID),
        check_run_id: None,
        status: "COMPLETED".to_owned(),
        conclusion: Some("FAILURE".to_owned()),
        run_id: Some(42),
        observed_at: None,
    };
    assert!(failed_required_check_matches_run(&check, 42));
    let mut status = check.clone();
    status.source = StewardCheckSource::StatusContext;
    assert!(!failed_required_check_matches_run(&status, 42));
    let mut foreign_app = check;
    foreign_app.app_id = Some(1);
    assert!(!failed_required_check_matches_run(&foreign_app, 42));
    let mut cancelled = foreign_app;
    cancelled.conclusion = Some("CANCELLED".to_owned());
    assert!(!required_check_has_allowed_conclusion(&cancelled));
}

#[test]
fn speculative_commit_must_name_the_pinned_base_as_a_parent() {
    let parents = json(
        r#"[
            {"sha":"dddddddddddddddddddddddddddddddddddddddd"},
            {"sha":"aaaaaaaaaaaaaaaaaaaaaaaaaaaaaaaaaaaaaaaa"}
        ]"#,
    );
    let parents = parents.as_array().expect("parents");
    assert!(parents_include_base(parents, "dddddddddddddddddddddddddddddddddddddddd"));
    assert!(!parents_include_base(parents, "eeeeeeeeeeeeeeeeeeeeeeeeeeeeeeeeeeeeeeee"));
}

#[test]
fn a_commit_without_parents_is_unreadable() {
    let base = "d".repeat(40);
    assert_eq!(
        merge_group_contains_base(&json("{}"), &base),
        Err("merge-group commit missing parents".to_owned())
    );
    let commit = json(&format!(r#"{{"parents":[{{"sha":"{}"}}]}}"#, "D".repeat(40)));
    assert_eq!(merge_group_contains_base(&commit, &base), Ok(true));
    assert_eq!(current_base_sha(&json(&format!(r#"{{"sha":"{base}"}}"#))), Ok(base));
    assert_eq!(
        current_base_sha(&json(r#"{"sha":"short"}"#)),
        Err("merge-queue base revision missing exact SHA".to_owned())
    );
}

#[test]
fn only_a_sole_failed_job_is_blamed() {
    let failed = |id: u64| {
        format!(
            r#"{{"id":{id},"status":"completed","conclusion":"failure","runner_group_name":"GitHub Actions","labels":["ubuntu-latest"],"steps":{SETUP}}}"#
        )
    };
    let one = json(&format!(r#"{{"total_count":1,"jobs":[{}]}}"#, failed(9)));
    assert_eq!(sole_failed_setup_job(&one), Ok(Some(9)));
    let two = json(&format!(r#"{{"total_count":2,"jobs":[{},{}]}}"#, failed(9), failed(10)));
    assert_eq!(sole_failed_setup_job(&two), Ok(None));
    assert_eq!(
        sole_failed_setup_job(&json("{}")),
        Err("failed merge-group jobs missing jobs".to_owned())
    );
}

#[test]
fn queue_queries_need_a_slug() {
    assert!(removal_args("owner/repo", 7).is_ok());
    assert!(removal_args("repo", 7).is_err());
    assert!(final_authority_args("owner/repo", 7, "main").is_ok());
    assert!(final_authority_args("repo", 7, "main").is_err());
    assert_ne!(witness_key("owner/repo", 7), witness_key("owner/repo", 8));
}
