//! The health lease of the local Linux pool.
use merge_steward::lease::{
    add_listed_runs, apply_decision, apply_decision_with_timeout, decide_lease, decision_line,
    emit_decision, fetch_merge_queue_build_concurrency, fetch_queued_matching_jobs, fetch_runners,
    format_moment, is_not_found, job_listing_args, lease_is_renewable, lease_write_args,
    local_linux_lease_command, merge_queue_rules_args, mutation_for_tick, observe_fleet,
    observe_fleet_with_timeout, parse_merge_queue_build_concurrency, run_listing_args,
    unreadable_decision, variable_write_args, AdmissionPolicy, ApiLabel, LeaseAction,
    LeaseDecision, LeaseJob, LeaseNext, LeaseRunner, LeaseWrite, ObservationBudget, TickNext,
};
use merge_steward::model::CliFailure;
use merge_steward::outside::{parse_time, Instant, LAST_SECOND};

const POOL: [&str; 6] = [
    "self-hosted",
    "Linux",
    "X64",
    "pulp-build-linux-x64",
    "pulp-host-macpro",
    "pulp-auto-linux-x64",
];

fn runner(name: &str, status: &str, busy: bool, labels: &[&str]) -> LeaseRunner {
    LeaseRunner {
        name: name.to_owned(),
        status: status.to_owned(),
        busy,
        labels: labels
            .iter()
            .map(|name| ApiLabel { name: (*name).to_owned() })
            .collect(),
    }
}

fn owned(texts: &[&str]) -> Vec<String> {
    texts.iter().map(|text| (*text).to_owned()).collect()
}

fn labels() -> Vec<String> {
    owned(&POOL)
}

fn policy(declared_burst: usize, live_burst: usize) -> AdmissionPolicy {
    AdmissionPolicy {
        declared_burst,
        live_burst,
        min_idle: declared_burst,
        ttl_seconds: 300,
    }
}

fn at(text: &str) -> Instant {
    parse_time(text).expect("a moment")
}

fn now() -> Instant {
    at("2026-08-13T18:45:00Z")
}

fn decision(action: LeaseAction, expires_at: Option<Instant>, reason: &str) -> LeaseDecision {
    let seen: usize = if action == LeaseAction::Renew { 2 } else { 0 };
    LeaseDecision {
        action,
        observed_at: now(),
        expires_at,
        matching: seen,
        online: seen,
        idle: seen,
        queued: 0,
        available: seen,
        reason: reason.to_owned(),
    }
}

#[test]
fn watch_mode_keeps_a_failed_mutation_as_a_failed_tick() {
    let failure = CliFailure::new(1, "transient GitHub failure");
    let (mutation, failed) =
        mutation_for_tick(Err(failure), true).expect("watch tick must continue");
    assert!(failed);
    assert!(mutation.contains("transient GitHub failure"));

    let one_shot = mutation_for_tick(Err(CliFailure::new(1, "transient GitHub failure")), false);
    assert!(one_shot.is_err());
}

#[test]
fn fleet_observation_timeout_is_bounded_and_renderable_as_fail_closed_json() {
    let budget = ObservationBudget::new(1_000, 150);
    assert_eq!(budget.run_gh(1_000), Ok(150));
    assert_eq!(budget.run_gh(1_149), Ok(1));
    let error = budget.run_gh(1_150).expect_err("slow GitHub read must fail closed");
    assert!(error.contains("total time budget"));

    let observed = observe_fleet_with_timeout(
        Err("gh timed out".to_owned()),
        &owned(&["merge_group"]),
        Ok(5),
        5,
        Ok(Vec::new()),
    )
    .expect_err("no count, no fleet");
    let decision = unreadable_decision(&observed, now());
    let envelope = emit_decision(
        1,
        "owner/repo",
        "PULP_LOCAL_LINUX_LEASE_UNTIL",
        &owned(&["merge_group"]),
        &decision,
        "dry_run",
    );
    assert_eq!(envelope.text_field("action").map(String::as_str), Some("clear"));
    assert_eq!(envelope.text_field("mutation").map(String::as_str), Some("dry_run"));
    let reason = envelope.text_field("reason").expect("reason");
    assert!(reason.contains("fleet_unreadable") && reason.contains("timed out"));
}

#[test]
fn applied_clear_timeout_is_bounded_and_caller_survives() {
    let decision = unreadable_decision("GitHub observation timed out", now());
    let write = apply_decision(&decision);
    match apply_decision_with_timeout(write, Some("gh timed out")) {
        LeaseNext::Done(Err(error)) => {
            assert!(error.message.contains("clear failed"));
            assert!(error.message.contains("timed out"));
        }
        other => panic!("slow clear mutation must fail closed: {other:?}"),
    }
}

#[test]
fn renews_only_for_online_idle_exact_pool_capacity() {
    let runners = vec![runner("pulp-ci-ephemeral-201", "online", false, &POOL)];
    let decision = decide_lease(
        &runners,
        "pulp-ci-ephemeral-",
        &labels(),
        "pulp-pr-safe-linux-x64",
        0,
        policy(1, 1),
        now(),
    );
    assert_eq!(decision.action, LeaseAction::Renew);
    assert_eq!(decision.expires_at, Some(at("2026-08-13T18:50:00Z")));
}

#[test]
fn negative_control_busy_capacity_clears_instead_of_renewing() {
    let runners = vec![runner("pulp-ci-ephemeral-201", "online", true, &POOL)];
    let decision = decide_lease(
        &runners,
        "pulp-ci-ephemeral-",
        &labels(),
        "pulp-pr-safe-linux-x64",
        0,
        policy(1, 1),
        now(),
    );
    assert_eq!(decision.action, LeaseAction::Clear);
    assert!(decision.expires_at.is_none());
}

#[test]
fn queued_matching_jobs_reserve_observed_idle_capacity() {
    let runners = vec![
        runner("pulp-ci-ephemeral-201", "online", false, &POOL),
        runner("pulp-ci-ephemeral-202", "online", false, &POOL),
    ];
    let decision = decide_lease(
        &runners,
        "pulp-ci-ephemeral-",
        &labels(),
        "pulp-pr-safe-linux-x64",
        2,
        policy(1, 1),
        now(),
    );
    assert_eq!(decision.action, LeaseAction::Clear);
    assert_eq!(decision.available, 0);
    assert_eq!(decision.queued, 2);
}

fn idle_fleet(size: u32) -> Vec<LeaseRunner> {
    (1..=size)
        .map(|index| runner(&format!("pulp-ci-ephemeral-{index}"), "online", false, &POOL))
        .collect()
}

#[test]
fn live_merge_queue_burst_larger_than_profile_fails_closed() {
    let decision = decide_lease(
        &idle_fleet(5),
        "pulp-ci-ephemeral-",
        &labels(),
        "pulp-pr-safe-linux-x64",
        0,
        policy(2, 5),
        now(),
    );
    assert_eq!(decision.action, LeaseAction::Clear);
    assert!(decision.reason.contains("declared=2 live=5"));
}

#[test]
fn full_declared_admission_burst_must_be_idle_before_renewal() {
    let decision = decide_lease(
        &idle_fleet(5),
        "pulp-ci-ephemeral-",
        &labels(),
        "pulp-pr-safe-linux-x64",
        0,
        policy(5, 5),
        now(),
    );
    assert_eq!(decision.action, LeaseAction::Renew);
    assert_eq!(decision.available, 5);
}

#[test]
fn two_runner_fleet_cannot_arm_a_five_entry_merge_queue() {
    let decision = decide_lease(
        &idle_fleet(2),
        "pulp-ci-ephemeral-",
        &labels(),
        "pulp-pr-safe-linux-x64",
        0,
        policy(5, 5),
        now(),
    );
    assert_eq!(decision.action, LeaseAction::Clear);
    assert_eq!(decision.available, 2);
    assert!(decision.reason.contains("required=5 live=5"));
}

#[test]
fn branch_rules_require_a_positive_merge_queue_concurrency() {
    let valid = r#"[[{"type":"required_status_checks","parameters":{}},{"type":"merge_queue","parameters":{"max_entries_to_build":5}}]]"#;
    assert_eq!(
        parse_merge_queue_build_concurrency(valid, "main").expect("merge queue rule"),
        5
    );
    let missing = r#"[[{"type":"required_status_checks","parameters":{}}]]"#;
    assert!(parse_merge_queue_build_concurrency(missing, "main").is_err());
    let malformed = r#"[[{"type":"merge_queue","parameters":{"max_entries_to_build":0}}]]"#;
    assert!(parse_merge_queue_build_concurrency(malformed, "main").is_err());
}

#[test]
fn branch_rules_query_requests_and_slurps_all_full_pages() {
    assert_eq!(
        merge_queue_rules_args("owner/repo", "main"),
        [
            "api",
            "--paginate",
            "--slurp",
            "repos/owner/repo/rules/branches/main?per_page=100",
        ]
    );
}

#[test]
fn branch_rules_find_merge_queue_on_a_later_page() {
    let pages = r#"[[{"type":"required_status_checks","parameters":{}}],[{"type":"merge_queue","parameters":{"max_entries_to_build":5}}]]"#;
    assert_eq!(
        parse_merge_queue_build_concurrency(pages, "main").expect("later page"),
        5
    );
}

#[test]
fn malformed_branch_rules_page_fails_closed() {
    let malformed_page = r#"[[{"type":"required_status_checks","parameters":{}}],{"type":"merge_queue","parameters":{"max_entries_to_build":5}}]"#;
    let error = parse_merge_queue_build_concurrency(malformed_page, "main")
        .expect_err("non-array page must not be skipped");
    assert!(error.contains("page 2 is not a JSON array"));

    assert!(parse_merge_queue_build_concurrency("[[]", "main").is_err());
}

#[test]
fn wrong_name_or_incomplete_labels_cannot_authorize_lease() {
    let runners = vec![
        runner(
            "persistent-macpro",
            "online",
            false,
            &["self-hosted", "Linux", "X64", "pulp-host-macpro"],
        ),
        runner(
            "pulp-ci-ephemeral-201",
            "online",
            false,
            &["self-hosted", "Linux", "X64"],
        ),
    ];
    let decision = decide_lease(
        &runners,
        "pulp-ci-ephemeral-",
        &labels(),
        "pulp-pr-safe-linux-x64",
        0,
        policy(1, 1),
        now(),
    );
    assert_eq!(decision.action, LeaseAction::Clear);
    assert_eq!(decision.matching, 0);
}

#[test]
fn scheduler_eligible_runner_outside_namespace_clears_lease() {
    let required = [
        "self-hosted",
        "Linux",
        "X64",
        "pulp-host-macpro",
        "pulp-pr-safe-linux-x64",
    ];
    let mut dual_capability = required.to_vec();
    dual_capability.push("pulp-auto-linux-x64");
    for contaminated in [
        runner("persistent-macpro", "offline", false, &required),
        runner("pulp-pr-safe-ephemeral-202", "online", false, &dual_capability),
    ] {
        let runners = vec![
            runner("pulp-pr-safe-ephemeral-201", "online", false, &required),
            contaminated,
        ];
        let decision = decide_lease(
            &runners,
            "pulp-pr-safe-ephemeral-",
            &owned(&required),
            "pulp-auto-linux-x64",
            0,
            policy(1, 1),
            now(),
        );
        assert_eq!(decision.action, LeaseAction::Clear);
        assert!(decision.reason.contains("outside_approved_namespace"));
    }
}

#[test]
fn mutation_arguments_preserve_rfc3339_as_an_opaque_string() {
    let args = variable_write_args(
        "PATCH",
        "repos/owner/repo/actions/variables/PULP_LOCAL_LINUX_LEASE_UNTIL",
        "PULP_LOCAL_LINUX_LEASE_UNTIL",
        "2026-08-13T18:50:00Z",
    );
    assert_eq!(
        args[1..4],
        [
            "--method",
            "PATCH",
            "repos/owner/repo/actions/variables/PULP_LOCAL_LINUX_LEASE_UNTIL"
        ]
    );
    assert!(args.contains(&"value=2026-08-13T18:50:00Z".to_owned()));
}

#[test]
fn watch_json_is_one_parseable_envelope_per_line() {
    let renewed = decision(
        LeaseAction::Renew,
        Some(at("2026-08-13T18:50:00Z")),
        "healthy_unreserved_idle_capacity",
    );
    for tick in 1u32..=2 {
        let envelope = emit_decision(
            tick,
            "owner/repo",
            "PULP_LOCAL_LINUX_LEASE_UNTIL",
            &owned(&["merge_group"]),
            &renewed,
            "renewed",
        );
        assert_eq!(envelope.u64_field("tick"), Some(u64::from(tick)));
        assert_eq!(envelope.text_field("action").map(String::as_str), Some("renew"));
        assert_eq!(envelope.u64_field("available_unreserved_runners"), Some(2));
        let line = decision_line(
            tick,
            "owner/repo",
            &renewed,
            "renewed",
            &format_moment(renewed.expires_at),
        );
        assert!(!line.contains('\n'));
        assert!(line.starts_with(&format!("local-linux-lease tick={tick} repo=owner/repo action=renew")));
    }
}

#[test]
fn clear_decision_does_not_mistake_ambiguous_404_for_absence() {
    let cleared = decision(LeaseAction::Clear, None, "fleet_unreadable");
    let write = apply_decision(&cleared);
    assert_eq!(write, LeaseWrite::Delete);
    let call = lease_write_args(write, "owner/repo", "PULP_LOCAL_LINUX_LEASE_UNTIL", "").join(" ");
    assert!(call.contains("--method DELETE"));
    assert!(call.contains("repos/owner/repo/actions/variables/PULP_LOCAL_LINUX_LEASE_UNTIL"));
    match apply_decision_with_timeout(write, Some("HTTP 404 Not Found")) {
        LeaseNext::Done(Err(error)) => assert!(error.message.contains("clear failed")),
        other => panic!("404 may mean inaccessible repository, not absent variable: {other:?}"),
    }
}

#[test]
fn more_demand_never_renews_a_lease() {
    let decide = |queued: usize, live: usize| {
        decide_lease(
            &idle_fleet(5),
            "pulp-ci-ephemeral-",
            &labels(),
            "pulp-pr-safe-linux-x64",
            queued,
            policy(3, live),
            now(),
        )
        .action
    };
    assert_eq!(decide(2, 3), LeaseAction::Renew);
    assert_eq!(decide(3, 3), LeaseAction::Clear);
    assert_eq!(decide(2, 4), LeaseAction::Clear);
}

#[test]
fn counts_of_a_fleet_are_nested() {
    let runners = vec![
        runner("pulp-ci-ephemeral-1", "online", false, &POOL),
        runner("pulp-ci-ephemeral-2", "online", true, &POOL),
        runner("pulp-ci-ephemeral-3", "offline", false, &POOL),
        runner("elsewhere", "online", false, &["ubuntu"]),
    ];
    let decision = decide_lease(
        &runners,
        "pulp-ci-ephemeral-",
        &labels(),
        "pulp-pr-safe-linux-x64",
        0,
        policy(1, 1),
        now(),
    );
    assert_eq!((decision.matching, decision.online, decision.idle), (3, 2, 1));
}

#[test]
fn a_missing_variable_is_created_by_a_renewal() {
    assert!(is_not_found("gh: HTTP 404 Not Found"));
    assert!(!is_not_found("gh: HTTP 403"));
    let renewed = decision(LeaseAction::Renew, Some(at("2026-08-13T18:50:00Z")), "ok");
    assert_eq!(apply_decision(&renewed), LeaseWrite::Patch);
    assert_eq!(
        apply_decision_with_timeout(LeaseWrite::Patch, Some("HTTP 404")),
        LeaseNext::Request(LeaseWrite::Create)
    );
    assert_eq!(
        apply_decision_with_timeout(LeaseWrite::Patch, None),
        LeaseNext::Done(Ok("renewed".to_owned()))
    );
    assert_eq!(
        apply_decision_with_timeout(LeaseWrite::Create, None),
        LeaseNext::Done(Ok("created".to_owned()))
    );
    assert_eq!(
        apply_decision_with_timeout(LeaseWrite::Delete, None),
        LeaseNext::Done(Ok("cleared".to_owned()))
    );
    assert!(matches!(
        apply_decision_with_timeout(LeaseWrite::Create, Some("HTTP 404")),
        LeaseNext::Done(Err(_))
    ));
    assert_eq!(
        lease_write_args(LeaseWrite::Create, "owner/repo", "UNTIL", "2026-08-13T18:50:00Z")[2..4],
        ["POST", "repos/owner/repo/actions/variables"]
    );
}

#[test]
fn moments_are_written_in_universal_time_to_the_second() {
    assert_eq!(
        format_moment(Some(at("2026-08-13T20:45:00.75+02:00"))),
        Some("2026-08-13T18:45:00Z".to_owned())
    );
    assert_eq!(format_moment(None), None);
}

#[test]
fn runner_and_job_queries_name_what_they_read() {
    assert_eq!(
        fetch_runners("owner/repo")[2],
        "repos/owner/repo/actions/runners?per_page=100"
    );
    assert_eq!(
        run_listing_args("owner/repo", "queued")[2],
        "repos/owner/repo/actions/runs?status=queued&per_page=100"
    );
    assert_eq!(
        job_listing_args("owner/repo", 17)[2],
        "repos/owner/repo/actions/runs/17/jobs?filter=all&per_page=100"
    );
}

#[test]
fn listed_runs_are_collected_once_in_order() {
    let mut runs: Vec<u64> = Vec::new();
    assert!(add_listed_runs(&mut runs, "30\n10\n\n").is_ok());
    assert!(add_listed_runs(&mut runs, "20\n10\n").is_ok());
    assert_eq!(runs, [10, 20, 30]);
    assert!(add_listed_runs(&mut runs, "forty\n").is_err());
}

#[test]
fn only_waiting_jobs_that_fit_the_pool_reserve_capacity() {
    let job = |status: &str, labels: &[&str]| LeaseJob {
        status: status.to_owned(),
        labels: owned(labels),
    };
    let jobs = vec![
        job("queued", &POOL),
        job("in_progress", &POOL),
        job("queued", &["self-hosted", "linux"]),
        job("queued", &["ubuntu-latest"]),
    ];
    assert_eq!(fetch_queued_matching_jobs(&jobs, &labels()), 1);
}

#[test]
fn an_unreadable_branch_rule_names_its_cause() {
    let error = fetch_merge_queue_build_concurrency(&Err("HTTP 500".to_owned()), "main")
        .expect_err("no rules, no concurrency");
    assert!(error.contains("HTTP 500"));
    let raw = r#"[[{"type":"merge_queue","parameters":{"max_entries_to_build":3}}]]"#;
    assert_eq!(fetch_merge_queue_build_concurrency(&Ok(raw.to_owned()), "main"), Ok(3));
}

#[test]
fn the_live_burst_is_the_merge_queues_only_for_merge_groups() {
    let merge_groups = observe_fleet_with_timeout(
        Ok(1),
        &owned(&["merge_group"]),
        Ok(5),
        2,
        Ok(idle_fleet(3)),
    )
    .expect("readable fleet");
    assert_eq!(merge_groups.observed_admission_burst, 5);
    assert_eq!(merge_groups.queued_matching_jobs, 1);
    assert_eq!(merge_groups.runners.len(), 3);
    let pull_requests = observe_fleet_with_timeout(
        Ok(1),
        &owned(&["pull_request"]),
        Err("unread".to_owned()),
        2,
        Ok(idle_fleet(3)),
    )
    .expect("readable fleet");
    assert_eq!(pull_requests.observed_admission_burst, 2);
    assert!(observe_fleet(0).run_gh(0).is_ok());
}

#[test]
fn only_a_renewed_lease_has_an_end() {
    let renewable = |busy: bool, queued: usize| {
        let runners = vec![runner("pulp-ci-ephemeral-201", "online", busy, &POOL)];
        lease_is_renewable(
            &runners,
            "pulp-ci-ephemeral-",
            &labels(),
            "pulp-pr-safe-linux-x64",
            queued,
            policy(1, 1),
        )
    };
    assert!(renewable(false, 0));
    assert!(!renewable(false, 1));
    assert!(!renewable(true, 0));
    let late = Instant { seconds: LAST_SECOND, nanos: 0 };
    let cleared = decide_lease(
        &Vec::new(),
        "pulp-ci-ephemeral-",
        &labels(),
        "pulp-pr-safe-linux-x64",
        0,
        policy(1, 1),
        late,
    );
    assert_eq!(cleared.action, LeaseAction::Clear);
    assert_eq!(cleared.expires_at, None);
}

#[test]
fn the_watch_interval_is_bounded_by_the_lease() {
    let error = local_linux_lease_command(true, 300, None, 300).expect_err("too slow");
    assert_eq!(error.code, 2);
    assert_eq!(
        error.message,
        "--interval-secs must be shorter than the 300 second health lease"
    );
    assert!(local_linux_lease_command(true, 14, None, 300).is_err());
    let mut once = local_linux_lease_command(false, 14, None, 300).expect("one tick");
    assert_eq!(once.finish_tick(LeaseAction::Renew, false), TickNext::Exit(0));
    assert_eq!(once.finish_tick(LeaseAction::Renew, true), TickNext::Exit(1));
    assert_eq!(once.finish_tick(LeaseAction::Clear, false), TickNext::Exit(1));
    let mut twice = local_linux_lease_command(true, 60, Some(2), 300).expect("two ticks");
    assert_eq!(twice.finish_tick(LeaseAction::Clear, false), TickNext::Sleep(60));
    assert_eq!(twice.tick, 2);
    assert_eq!(twice.finish_tick(LeaseAction::Renew, false), TickNext::Exit(0));
    let mut longest = local_linux_lease_command(true, 60, Some(u32::MAX), 300).expect("ticks");
    longest.tick = u32::MAX;
    assert_eq!(longest.finish_tick(LeaseAction::Renew, false), TickNext::Exit(0));
    assert_eq!(longest.tick, u32::MAX);
}
