//! What is made of the provider's answers before something is changed.
use merge_steward::capacity_walk::{
    finish_capacity_check, revalidate_capacity_preemption, CapacityAction, CapacityAnswer,
    CapacityAuthority, CapacityCheck,
};
use merge_steward::coalesce::{
    acquire_pr_mutation_guard, acquire_run_mutation_guard, authoritative_head_still_superseded,
    capacity_candidate_number, capacity_evidence, capacity_exclusions, capacity_revalidation,
    coalescing_candidate_read, live_capacity_run, live_queue_front_pool_jobs,
    merge_group_pr_number, rejected_report, revalidate_pending_pr_authority, CapacityRevalidation,
    CoalesceStage, CoalesceStep,
};
use merge_steward::dispatch::{
    dispatch_runner_observations, finish_dispatch_wedge_targets, observe_dispatch_wedge_target,
    observe_dispatch_wedge_targets, observe_dispatch_wedge_targets_with,
    revalidate_dispatch_wedge_authority_with, revalidate_dispatch_wedge_pull_request, BatchAction,
    BatchReply, DispatchWedgeTargetRequest, LiveGroup, TargetGroup, WedgeAction, WedgeCheck,
    WedgeReply,
};
use merge_steward::enqueue::{
    enqueue_intent, final_enqueue_revalidation, mutate_pr_with_recovery, mutation_wanted,
    recovery_or_fallback, PrMutation,
};
use merge_steward::guard::Flow;
use merge_steward::json::{parse_json, Json};
use merge_steward::ledger::{
    persist_pending_mutation_correlation, PendingCancellation, PendingCancellationPhase,
    PendingMutationKind, QueueWitness, StewardLedger,
};
use merge_steward::model::{
    append_audit_failure, ObservedPr, RepoObservation, RequiredCheck, RunCancellationReason,
    StewardCheck, StewardCheckSource, StewardDecision, StewardJob, StewardPullRequest, StewardRun,
};
use merge_steward::observation::{
    active_runs, commit_statuses_for_head, evaluated_branch_rules, fetch_run_attempt_jobs,
    fetch_run_jobs, gh_json_before, hydrate_preemption_jobs, hydrate_required_check_identities,
    hydration_for, parse_check, parse_rest_status, pull_request, pull_request_args,
    required_check_policy, required_checks_args, required_checks_with_evaluated_rules, Hydration,
    Paging,
};
use merge_steward::outside::{parse_time, Instant};
use merge_steward::pending::{
    active_runner_targets, finish_force_cancel_revalidation_failure, pending_run_cancellation,
    persist_pending_cancellation,
};
use merge_steward::queue_recovery::{
    failed_checks_removal, final_mutable_authority_matches, hosted_setup_failure,
    QueueRecoveryEvidence, SetupReply, SetupStage,
};
use merge_steward::recovery::{
    apply_recovery_signal, clear_needs_agent, LabelChange, LabelStage, SignalStage, SignalStep,
    StepReply,
};
use merge_steward::terminal::{
    current_pending_run_identity_matches, current_run_args, fetch_pending_run_jobs,
    job_fetch_time_left, pending_cancellation_ship_state, pending_run_args,
    read_current_pending_run_identity, revalidate_force_cancel_attempt,
    wait_for_pending_normal_terminalization, wait_for_pending_terminalization, PendingRunState,
    Watch,
};

const AT: &str = "2026-08-25T22:00:00Z";
const MANAGED: &str = "shipyard:managed";
const OPT_OUT: &str = "shipyard:no-auto-merge";

fn json(text: &str) -> Json {
    parse_json(text).expect("JSON")
}

fn at(text: &str) -> Instant {
    parse_time(text).expect("a moment")
}

fn head() -> String {
    "a".repeat(40)
}

fn group_head() -> String {
    "c".repeat(40)
}

fn pr(labels: &[&str]) -> ObservedPr {
    ObservedPr {
        node_id: "PR_node".to_owned(),
        fact: StewardPullRequest {
            number: 7,
            head_sha: head(),
            head_branch: "feature".to_owned(),
            draft: false,
            merge_state: "CLEAN".to_owned(),
            auto_merge_active: false,
            queue_position: None,
            labels: labels.iter().map(|label| (*label).to_owned()).collect(),
            checks: Vec::new(),
        },
        check_rollup_maybe_truncated: false,
    }
}

fn run(event: &str, head_sha: &str) -> StewardRun {
    StewardRun {
        id: 31,
        workflow_id: 5,
        run_attempt: 1,
        workflow: "build".to_owned(),
        head_sha: head_sha.to_owned(),
        head_branch: "feature".to_owned(),
        status: "queued".to_owned(),
        event: event.to_owned(),
        pull_request_number: Some(7),
        created_at: AT.to_owned(),
        jobs: Vec::new(),
    }
}

fn job(name: &str, runner: Option<&str>) -> StewardJob {
    StewardJob {
        id: 3,
        name: name.to_owned(),
        status: "in_progress".to_owned(),
        conclusion: None,
        labels: Vec::new(),
        runner_name: runner.map(str::to_owned),
    }
}

fn pending() -> PendingCancellation {
    PendingCancellation {
        repo: "owner/repo".to_owned(),
        base: "main".to_owned(),
        run_id: 31,
        workflow_id: 5,
        run_attempt: 1,
        head_sha: head(),
        head_branch: "feature".to_owned(),
        pr_number: 7,
        front_head: group_head(),
        initiated_at: AT.to_owned(),
        phase: PendingCancellationPhase::Accepted,
        mutation_correlation_id: "correlation-1".to_owned(),
        mutation_kind: PendingMutationKind::NormalCancel,
        reason: "advisory_preamble_capacity_theft".to_owned(),
        opt_out_label: OPT_OUT.to_owned(),
        provenance_blocking_labels: vec!["5·unresolved".to_owned()],
        managed_label: MANAGED.to_owned(),
        handoff_context: "shipyard/steward-handoff".to_owned(),
    }
}

fn run_document(attempt: u64, status: &str) -> Json {
    json(&format!(
        r#"{{"id":31,"workflow_id":5,"run_attempt":{attempt},"name":"build","head_sha":"{}","head_branch":"feature","status":"{status}","event":"pull_request","created_at":"{AT}","pull_requests":[{{"number":7}}]}}"#,
        head()
    ))
}

fn failed_check() -> StewardCheck {
    StewardCheck {
        name: "linux".to_owned(),
        source: StewardCheckSource::CheckRun,
        app_id: Some(15_368),
        check_run_id: None,
        status: "COMPLETED".to_owned(),
        conclusion: Some("FAILURE".to_owned()),
        run_id: Some(42),
        observed_at: None,
    }
}

const DNS_LOG: &str = "Name or service not known (internal-api.service.iad.github.net:443); Failed to download archive after 3 attempts";

fn setup_runs(head: &str) -> Json {
    json(&format!(
        r#"{{"workflow_runs":[{{"id":42,"event":"merge_group","status":"completed","conclusion":"failure","head_sha":"{head}","created_at":"2026-08-25T21:00:00Z","updated_at":"2026-08-25T21:25:00Z"}}]}}"#
    ))
}

fn setup_jobs() -> Json {
    json(
        r#"{"jobs":[{"id":9,"status":"completed","conclusion":"failure","runner_group_name":"GitHub Actions","labels":["ubuntu-latest"],"steps":[{"name":"Set up job","status":"completed","conclusion":"failure"}]}]}"#,
    )
}

fn blame(runs: Json, selected: Option<Vec<StewardCheck>>, log: &str) -> Option<(u64, u64)> {
    let mut runs = Some(runs);
    let mut selected = Some(selected);
    let mut stage = SetupStage::Runs;
    loop {
        let reply = match &stage {
            SetupStage::Runs => SetupReply::Document(runs.take().expect("one listing")),
            SetupStage::Checks { run_id } => {
                assert_eq!(*run_id, 42);
                SetupReply::Selected(selected.take().expect("one selection"))
            }
            SetupStage::Jobs { .. } => SetupReply::Document(setup_jobs()),
            SetupStage::Log { job_id, .. } => {
                assert_eq!(*job_id, 9);
                SetupReply::Log(log.to_owned())
            }
            SetupStage::Settled { found } => return *found,
            SetupStage::Failed { error } => panic!("{error}"),
        };
        stage = hosted_setup_failure(
            stage,
            reply,
            &group_head(),
            at("2026-08-25T20:30:00Z"),
            at("2026-08-25T21:30:00Z"),
        );
    }
}

#[test]
fn a_setup_failure_is_blamed_on_its_run_check_job_and_log() {
    let runs = || setup_runs(&group_head());
    assert_eq!(blame(runs(), Some(vec![failed_check()]), DNS_LOG), Some((42, 9)));
    assert_eq!(blame(runs(), Some(vec![failed_check()]), "compile error"), None);
    assert_eq!(blame(runs(), None, DNS_LOG), None);
    let mut foreign = failed_check();
    foreign.app_id = Some(1);
    assert_eq!(blame(runs(), Some(vec![foreign]), DNS_LOG), None);
    assert_eq!(blame(setup_runs(&head()), Some(vec![failed_check()]), DNS_LOG), None);
    let failed = hosted_setup_failure(
        SetupStage::Runs,
        SetupReply::Unreadable("HTTP 500".to_owned()),
        &group_head(),
        at("2026-08-25T20:30:00Z"),
        at("2026-08-25T21:30:00Z"),
    );
    assert!(matches!(failed, SetupStage::Failed { error } if error == "HTTP 500"));
}

fn witness() -> QueueWitness {
    QueueWitness {
        repo: "owner/repo".to_owned(),
        base: "main".to_owned(),
        base_sha: "b".repeat(40),
        pr_number: 7,
        pr_head: head(),
        merge_group_head: group_head(),
        position: 1,
        enqueued_at: "2026-08-25T20:30:00Z".to_owned(),
        observed_at: "2026-08-25T20:40:00Z".to_owned(),
        required_checks: Vec::new(),
    }
}

fn timeline(reason: &str, removed_at: &str, partial: bool) -> Json {
    json(&format!(
        r#"{{"data":{{"repository":{{"pullRequest":{{"timelineItems":{{"nodes":[{{"__typename":"AddedToMergeQueueEvent","createdAt":"2026-08-25T20:30:00Z"}},{{"__typename":"RemovedFromMergeQueueEvent","createdAt":"{removed_at}","reason":"{reason}"}}],"pageInfo":{{"hasPreviousPage":{partial}}}}}}}}}}}}}"#
    ))
}

#[test]
fn a_removal_for_failed_checks_is_evidence() {
    let now = at(AT);
    let removal = |reason: &str, removed_at: &str, partial: bool| {
        failed_checks_removal(&timeline(reason, removed_at, partial), &witness(), now)
            .map(|found| found.map(|found| found.removed_at))
    };
    let moment = "2026-08-25T21:30:00Z";
    assert_eq!(removal("FAILED_CHECKS", moment, false), Ok(Some(moment.to_owned())));
    assert_eq!(removal("manual", moment, false), Ok(None));
    assert_eq!(removal("failed_checks", "2026-08-25T20:35:00Z", false), Ok(None));
    assert!(removal("failed_checks", moment, true).is_err());
    assert!(failed_checks_removal(&json("{}"), &witness(), now).is_err());
}

#[test]
fn a_jump_rests_on_an_unchanged_base_head_and_queue() {
    let evidence = QueueRecoveryEvidence {
        base_sha: "b".repeat(40),
        merge_group_head: group_head(),
        removed_at: AT.to_owned(),
        run_id: 42,
        job_id: 9,
    };
    let required = vec![RequiredCheck { context: "linux".to_owned(), app_id: None }];
    let response = |queued: u64, more: bool| {
        json(&format!(
            r#"{{"data":{{"repository":{{"ref":{{"target":{{"oid":"{}"}}}},"pullRequest":{{"state":"OPEN","baseRefName":"main","headRefOid":"{}"}},"mergeQueue":{{"entries":{{"nodes":[{{"pullRequest":{{"number":{queued}}}}}],"pageInfo":{{"hasNextPage":{more}}}}}}}}}}}}}"#,
            "b".repeat(40),
            head()
        ))
    };
    let holds = |current: &Vec<RequiredCheck>, response: Json| {
        final_mutable_authority_matches(
            &required, current, &response, "main", 7, &head(), &evidence,
        )
    };
    assert_eq!(holds(&required, response(8, false)), Ok(true));
    assert_eq!(holds(&required, response(7, false)), Ok(false));
    assert!(holds(&required, response(8, true)).is_err());
    assert_eq!(holds(&Vec::new(), response(8, false)), Ok(false));
}

#[test]
fn a_mutation_follows_an_unchanged_decision() {
    let arm = StewardDecision::ArmMergeQueue;
    assert!(mutation_wanted(&arm));
    assert!(!mutation_wanted(&StewardDecision::Draft));
    assert!(matches!(
        mutate_pr_with_recovery(&arm, Ok(true), true, Ok(Some(pr(&[]))), &arm),
        PrMutation::Enqueue(_)
    ));
    let rerun = StewardDecision::RerunTransient { run_ids: vec![31] };
    assert!(matches!(
        mutate_pr_with_recovery(&rerun, Ok(true), true, Ok(Some(pr(&[]))), &rerun),
        PrMutation::Rerun(_)
    ));
    let told = |enabled: Result<bool, String>, live: Result<Option<ObservedPr>, String>| {
        match mutate_pr_with_recovery(&arm, enabled, true, live, &StewardDecision::Draft) {
            PrMutation::Report(verdict) => verdict.report(),
            other => panic!("{other:?}"),
        }
    };
    assert_eq!(
        told(Ok(false), Ok(None)).mutation.as_deref(),
        Some("skipped_after_queue_capability_change")
    );
    assert_eq!(
        told(Ok(true), Ok(Some(pr(&[])))).mutation.as_deref(),
        Some("skipped_after_live_revalidation")
    );
    assert_eq!(told(Err("HTTP 500".to_owned()), Ok(None)).error.as_deref(), Some("HTTP 500"));
    assert!(matches!(
        final_enqueue_revalidation(Ok(true), true, Ok(Some(pr(&[]))), &head(), &arm),
        Ok(Some(_))
    ));
    assert_eq!(
        final_enqueue_revalidation(Ok(true), true, Ok(Some(pr(&[]))), &group_head(), &arm),
        Ok(None)
    );
    assert_ne!(enqueue_intent(true), enqueue_intent(false));
    let mut ledger = StewardLedger::new();
    let unread = Err("HTTP 500".to_owned());
    assert_eq!(recovery_or_fallback(unread, &pr(&[]), "owner/repo", AT, &mut ledger), None);
    assert_eq!(ledger.audit[0].action, "queue_priority_recovery_unreadable_fell_back");
}

#[test]
fn a_label_is_written_under_a_guard_and_recorded() {
    let change = LabelChange::Management { unmanaged: true };
    let mut ledger = StewardLedger::new();
    let target = pr(&[]);
    let mut step = |stage: LabelStage, reply: StepReply| {
        apply_recovery_signal(change, stage, reply, "owner/repo", &target, &mut ledger, AT)
    };
    assert!(matches!(
        step(LabelStage::Acquire, StepReply::Done),
        Flow::Next(LabelStage::Write)
    ));
    match step(LabelStage::Write, StepReply::Failed("HTTP 403".to_owned())) {
        Flow::Close(closing) => assert_eq!(closing.outcome(), "management_label_failed"),
        other => panic!("{other:?}"),
    }
    match step(LabelStage::Finish, StepReply::Done) {
        Flow::Report(report) => {
            assert_eq!(report.mutation.as_deref(), Some("unmanaged_label_added"));
        }
        other => panic!("{other:?}"),
    }
    assert_eq!(ledger.audit.len(), 1);
    assert_eq!(ledger.audit[0].subject, format!("pr:7:{}", head()));
    assert_eq!(LabelChange::Signal { needs_agent: false }.done_action(), "needs_agent_cleared");
}

#[test]
fn a_signal_is_written_before_its_label() {
    let done = |needs_agent: bool, stage: SignalStage| {
        clear_needs_agent(needs_agent, stage, StepReply::Done)
    };
    assert!(matches!(
        done(true, SignalStage::Status),
        SignalStep::Next(SignalStage::Verify)
    ));
    assert!(matches!(done(true, SignalStage::Verify), SignalStep::Next(SignalStage::Ensure)));
    assert!(matches!(done(false, SignalStage::Verify), SignalStep::Next(SignalStage::Label)));
    assert!(matches!(done(false, SignalStage::Label), SignalStep::Written));
    let failed = StepReply::Failed("HTTP 500".to_owned());
    assert!(matches!(
        clear_needs_agent(true, SignalStage::Status, failed),
        SignalStep::Failed(text) if text == "could not write recovery status: HTTP 500"
    ));
}

#[test]
fn superseded_heads_are_told_from_current_ones() {
    let observed = run("pull_request", &"0".repeat(40));
    let superseded = |candidate: Option<&ObservedPr>, forbidden: bool| {
        authoritative_head_still_superseded(
            &observed,
            RunCancellationReason::SupersededPullRequestHead,
            candidate,
            forbidden,
            None,
        )
    };
    assert!(superseded(Some(&pr(&[])), false));
    assert!(!superseded(Some(&pr(&[])), true));
    assert!(!superseded(None, false));
    let group = |run_head: &str, current: Option<&String>| {
        authoritative_head_still_superseded(
            &run("merge_group", run_head),
            RunCancellationReason::SupersededMergeGroupHead,
            Some(&pr(&[])),
            false,
            current,
        )
    };
    assert!(group(&head(), Some(&group_head())));
    assert!(!group(&group_head(), Some(&group_head())));
    assert!(!group(&head(), None));
    assert_eq!(
        coalescing_candidate_read(7, true, false),
        CoalesceStep::Next(CoalesceStage::Plan(7))
    );
    assert_eq!(coalescing_candidate_read(7, true, true), CoalesceStep::Answer(false));
    assert_eq!(coalescing_candidate_read(7, false, false), CoalesceStep::Answer(false));
}

#[test]
fn a_change_is_made_on_behalf_of_its_pull_request() {
    let ship = acquire_pr_mutation_guard("owner/repo", "main", &pr(&[]));
    assert_eq!((ship.pr_number, ship.branch.as_str()), (7, "feature"));
    assert_eq!(ship.head_sha, head());
    let mut orphan = run("push", &head());
    orphan.pull_request_number = None;
    let prs = vec![pr(&[])];
    assert!(acquire_run_mutation_guard("owner/repo", "main", &prs, &orphan, None).is_err());
    let mut group = run("merge_group", &group_head());
    group.pull_request_number = None;
    group.head_branch = "gh-readonly-queue/main/pr-7".to_owned();
    assert_eq!(merge_group_pr_number(&group, Some(7)), Some(7));
    assert_eq!(merge_group_pr_number(&orphan, Some(7)), None);
    let ship = acquire_run_mutation_guard("owner/repo", "main", &prs, &group, Some(7))
        .expect("the group names its pull request");
    assert_eq!((ship.pr_number, ship.branch.as_str()), (7, "feature"));
    let ship = pending_cancellation_ship_state(&pending());
    assert_eq!((ship.repo.as_str(), ship.base.as_str()), ("owner/repo", "main"));
}

#[test]
fn a_recorded_cancellation_needs_its_authority() {
    let check = |labels: &[&str], handed_off: bool| {
        revalidate_pending_pr_authority(Some(&pr(labels)), &pending(), handed_off)
    };
    assert!(check(&[MANAGED], true).is_ok());
    assert!(check(&[MANAGED], false).is_err());
    assert!(check(&[MANAGED, OPT_OUT], true).is_err());
    assert!(check(&[MANAGED, "5·unresolved"], true).is_err());
    assert!(revalidate_pending_pr_authority(None, &pending(), true).is_err());
    assert!(pending_run_cancellation(&pending()).is_ok());
}

#[test]
fn a_capacity_candidate_is_read_again() {
    let observed = run("pull_request", &head());
    assert!(live_capacity_run(&run_document(1, "in_progress"), &observed)
        .expect("a run")
        .is_some());
    assert!(live_capacity_run(&run_document(2, "in_progress"), &observed)
        .expect("a run")
        .is_none());
    assert!(live_capacity_run(&json("{}"), &observed).is_err());
    assert_eq!(capacity_candidate_number(&observed), Ok(7));
    assert_eq!(capacity_exclusions(vec![3, 9], 7, true), [3, 7, 9]);
    assert_eq!(capacity_exclusions(vec![3, 9], 7, false), [3, 9]);
    let mut front = run("merge_group", &group_head());
    front.jobs.push(job("linux", None));
    let runs = || vec![front.clone(), run("pull_request", &head())];
    let jobs = live_queue_front_pool_jobs(runs(), &group_head(), true).expect("a front");
    assert_eq!(jobs.len(), 1);
    assert!(live_queue_front_pool_jobs(runs(), &group_head(), false).is_none());
    let listed = std::collections::BTreeMap::new();
    let found =
        capacity_revalidation(true, observed.clone(), AT.to_owned(), jobs, &listed, &pr(&[]))
            .expect("safe");
    assert_eq!(found.current_pr_head, Some(head()));
    assert!(capacity_revalidation(
        false,
        observed,
        AT.to_owned(),
        Vec::new(),
        &listed,
        &pr(&[])
    )
    .is_none());
}

/// The check of a run whose answers are all favourable, but for the given ones, and
/// what it asked for.
fn capacity_check(
    spoil: impl Fn(&CapacityAction<'_>) -> Option<CapacityAnswer>,
) -> (Result<Option<CapacityRevalidation>, String>, Vec<String>) {
    let observed = run("pull_request", &head());
    let mut seen = base_observation("main");
    seen.prs.push(pr(&[MANAGED]));
    let blockers = vec!["5·unresolved".to_owned()];
    let front = group_head();
    let authority = CapacityAuthority {
        opt_out_label: OPT_OUT,
        managed_label: MANAGED,
        provenance_blocking_labels: &blockers,
        handed_off: vec![7],
    };
    let mut check = CapacityCheck::new(&seen, &observed, &front, authority);
    let mut asked = Vec::new();
    loop {
        let action = check.action();
        let spoiled = spoil(&action);
        let (name, reply) = match action {
            CapacityAction::ReadFront => (
                "front".to_owned(),
                CapacityAnswer::Front(
                    Ok(Some((group_head(), "2026-08-25T21:00:00Z".to_owned()))),
                    at(AT),
                ),
            ),
            CapacityAction::ReadRuns => {
                let mut other = run("merge_group", &head());
                other.id = 32;
                let mut first = run("merge_group", &group_head());
                first.id = 33;
                let runs = vec![other, first, run("pull_request", &head())];
                ("runs".to_owned(), CapacityAnswer::Runs(Ok(runs)))
            }
            CapacityAction::ReadJobs(id) => {
                (format!("jobs {id}"), CapacityAnswer::Jobs(Ok(vec![job("linux", None)])))
            }
            CapacityAction::AskPool(runs) => {
                let jobs: Vec<usize> = runs.iter().map(|run| run.jobs.len()).collect();
                (format!("pool {jobs:?}"), CapacityAnswer::Waits(true))
            }
            CapacityAction::ReadRun => {
                ("run".to_owned(), CapacityAnswer::Run(Ok(run_document(1, "in_progress"))))
            }
            CapacityAction::ReadPullRequest(number) => (
                format!("pr {number}"),
                CapacityAnswer::PullRequest(Ok(Some((pr(&[MANAGED]), true)))),
            ),
            CapacityAction::ReadPullRequests => {
                let mut other = pr(&[OPT_OUT]);
                other.fact.number = 9;
                ("prs".to_owned(), CapacityAnswer::PullRequests(Ok(vec![other])))
            }
            CapacityAction::AskSafe(live, excluded) => (
                format!("safe {} {} {excluded:?}", live.id, live.jobs.len()),
                CapacityAnswer::Safe(true),
            ),
            CapacityAction::Over => {
                return (finish_capacity_check(check).expect("the end"), asked);
            }
        };
        asked.push(name);
        check = revalidate_capacity_preemption(check, spoiled.unwrap_or(reply));
    }
}

#[test]
fn a_preemption_is_checked_read_by_read() {
    let (outcome, asked) = capacity_check(|_| None);
    assert_eq!(
        asked,
        ["front", "runs", "jobs 33", "pool [0, 1, 0]", "run", "jobs 31", "pr 7", "prs", "safe 31 1 [9]"]
    );
    let found = outcome.expect("read").expect("found");
    assert_eq!(found.candidate.id, 31);
    assert_eq!(found.front_enqueued_at, "2026-08-25T21:00:00Z");
    assert_eq!(found.front_jobs.len(), 1);
    assert_eq!(found.current_pr_head, Some(head()));

    let (outcome, asked) = capacity_check(|action| {
        matches!(action, CapacityAction::ReadPullRequest(_))
            .then_some(CapacityAnswer::PullRequest(Ok(Some((pr(&[MANAGED]), false)))))
    });
    assert_eq!(asked[8], "safe 31 1 [7, 9]", "a pull request that left the steward forbids");
    assert!(outcome.expect("read").is_some());

    let (outcome, asked) = capacity_check(|action| {
        matches!(action, CapacityAction::ReadRun)
            .then_some(CapacityAnswer::Run(Ok(run_document(2, "in_progress"))))
    });
    assert!(outcome.expect("read").is_none(), "another attempt");
    assert_eq!(asked.len(), 5);

    let (outcome, asked) = capacity_check(|action| {
        matches!(action, CapacityAction::AskPool(_)).then_some(CapacityAnswer::Waits(false))
    });
    assert!(outcome.expect("read").is_none());
    assert_eq!(asked.len(), 4);

    let (outcome, _) = capacity_check(|action| {
        matches!(action, CapacityAction::ReadPullRequests)
            .then_some(CapacityAnswer::PullRequests(Err("HTTP 502".to_owned())))
    });
    assert_eq!(outcome.expect_err("unread"), "HTTP 502");

    let (outcome, _) = capacity_check(|action| {
        matches!(action, CapacityAction::AskSafe(_, _)).then_some(CapacityAnswer::Safe(false))
    });
    assert!(outcome.expect("read").is_none());
}

#[test]
fn a_current_attempt_must_be_the_recorded_one() {
    let matches_record =
        |attempt: u64| current_pending_run_identity_matches(&run_document(attempt, "queued"), &pending());
    assert_eq!(matches_record(1), Ok(true));
    assert_eq!(matches_record(2), Ok(false));
    assert!(read_current_pending_run_identity(&run_document(2, "queued"), &pending()).is_err());
    assert_eq!(pending_run_args(&pending())[1], "repos/owner/repo/actions/runs/31/attempts/1");
    assert_eq!(current_run_args("owner/repo", 31)[1], "repos/owner/repo/actions/runs/31");
    let mut ledger = StewardLedger::new();
    assert!(revalidate_force_cancel_attempt(&ledger, "owner/repo", 31).is_err());
    persist_pending_cancellation(&mut ledger, pending(), AT);
    let found = revalidate_force_cancel_attempt(&ledger, "owner/repo", 31).expect("a record");
    assert_eq!(found, pending());
    assert!(persist_pending_mutation_correlation(
        &mut ledger,
        "nowhere",
        "correlation-2",
        PendingMutationKind::ForceCancel,
        AT,
        "intent"
    )
    .is_err());
}

#[test]
fn a_normal_cancellation_has_its_time() {
    let left = |now: &str| wait_for_pending_normal_terminalization(AT, &at(now));
    assert_eq!(left(AT), Some(15_000));
    assert_eq!(left("2026-08-25T22:00:05Z"), Some(10_000));
    assert_eq!(left("2026-08-25T22:00:15Z"), None);
    let ended = wait_for_pending_terminalization(PendingRunState::Terminal, 0, 15_000);
    assert!(matches!(ended, Watch::Ended));
}

#[test]
fn jobs_are_listed_by_run_and_attempt() {
    let page = || json(r#"{"jobs":[{"id":3,"name":"linux","status":"queued","labels":["x64"]}]}"#);
    let mut jobs = Vec::new();
    assert_eq!(fetch_run_jobs(&mut jobs, &page(), 1, 31), Ok(Paging::Complete));
    assert_eq!(fetch_run_attempt_jobs(&mut jobs, &page(), 1, 31, 1), Ok(Paging::Complete));
    assert_eq!(fetch_pending_run_jobs(&mut jobs, &page(), 1, &pending()), Ok(Paging::Complete));
    assert_eq!(jobs.len(), 3);
    assert_eq!(jobs[0].labels, ["x64"]);
    assert!(fetch_run_jobs(&mut jobs, &json("{}"), 1, 31).is_err());
    assert_eq!(active_runner_targets(&Vec::new()), "workflow-status-only");
    assert_eq!(
        active_runner_targets(&vec![job("linux", Some("r1")), job("macos", None)]),
        "linux@r1,macos@unassigned"
    );
}

#[test]
fn runs_are_listed_once_in_order() {
    let page = |ids: &[u64]| {
        let rows: Vec<String> = ids
            .iter()
            .map(|id| {
                format!(
                    r#"{{"id":{id},"workflow_id":5,"run_attempt":1,"name":"build","head_sha":"{}","head_branch":"feature","status":"queued","event":"push","created_at":"{AT}"}}"#,
                    head()
                )
            })
            .collect();
        json(&format!(r#"{{"workflow_runs":[{}]}}"#, rows.join(",")))
    };
    let mut runs = Vec::new();
    assert_eq!(active_runs(&mut runs, &page(&[30, 10]), 1), Ok(Paging::Complete));
    assert_eq!(active_runs(&mut runs, &page(&[20, 10]), 1), Ok(Paging::Complete));
    let ids: Vec<u64> = runs.iter().map(|run| run.id).collect();
    assert_eq!(ids, [10, 20, 30]);
    assert!(active_runs(&mut runs, &json(r#"{"workflow_runs":[{}]}"#), 1).is_err());
    assert!(hydrate_preemption_jobs(&run("merge_group", &group_head()), &group_head(), false));
    assert!(!hydrate_preemption_jobs(&run("pull_request", &head()), &group_head(), true));
}

#[test]
fn checks_are_completed_where_a_listing_leaves_them_out() {
    let mut cut = pr(&[]);
    cut.check_rollup_maybe_truncated = true;
    assert_eq!(hydration_for(&cut, false), Hydration::Replace);
    assert_eq!(hydration_for(&pr(&[]), true), Hydration::Append);
    assert_eq!(hydration_for(&pr(&[]), false), Hydration::Keep);
    let mut short = pr(&[]);
    short.fact.head_sha = "abc".to_owned();
    assert_eq!(hydration_for(&short, true), Hydration::Keep);
    hydrate_required_check_identities(&mut cut, Hydration::Replace, vec![failed_check()]);
    assert!(!cut.check_rollup_maybe_truncated);
    assert_eq!(cut.fact.checks, [failed_check()]);
    hydrate_required_check_identities(&mut cut, Hydration::Append, vec![failed_check()]);
    assert_eq!(cut.fact.checks.len(), 2);
}

#[test]
fn checks_and_statuses_are_read_in_both_forms() {
    let rollup = json(
        r#"{"__typename":"StatusContext","context":"lint","state":"EXPECTED","targetUrl":"https://github.com/owner/repo/actions/runs/12"}"#,
    );
    let check = parse_check(&rollup).expect("a status");
    assert_eq!((check.status.as_str(), check.conclusion), ("IN_PROGRESS", None));
    assert_eq!(check.run_id, Some(12));
    assert!(parse_check(&json(r#"{"__typename":"Other"}"#)).is_none());
    let rest = json(r#"{"context":"lint","state":"error","updated_at":"2026-08-25T22:00:00Z"}"#);
    let check = parse_rest_status(&rest).expect("a status");
    assert_eq!(check.conclusion.as_deref(), Some("FAILURE"));
    assert_eq!(check.observed_at.as_deref(), Some(AT));
    let mut checks = Vec::new();
    let page = json(r#"[{"context":"lint","state":"success"},{}]"#);
    assert_eq!(commit_statuses_for_head(&mut checks, &page, 1), Ok(Paging::Complete));
    assert_eq!(checks.len(), 1);
}

#[test]
fn a_pull_request_is_read_on_its_base_while_open() {
    let row = |state: &str| {
        json(&format!(
            r#"{{"id":"PR","number":7,"state":"{state}","baseRefName":"main","headRefOid":"{}","isDraft":false}}"#,
            head()
        ))
    };
    let read = |state: &str, base: &str| {
        pull_request(&row(state), base, &Vec::new()).expect("a row").is_some()
    };
    assert!(read("OPEN", "main"));
    assert!(!read("CLOSED", "main"));
    assert!(!read("OPEN", "next"));
    assert_eq!(pull_request_args("owner/repo", 7)[2], "7");
    assert_eq!(
        required_checks_args("owner/repo", "release/1")[1],
        "repos/owner/repo/branches/release%2F1/protection/required_status_checks"
    );
    assert_eq!(
        evaluated_branch_rules("owner/repo", "main")[1],
        "repos/owner/repo/rules/branches/main"
    );
    assert_eq!(required_checks_with_evaluated_rules(None, false, false), Ok(true));
    let missing = "gh: HTTP 404".to_owned();
    assert_eq!(required_checks_with_evaluated_rules(Some(&missing), false, false), Ok(false));
    let broken = "gh: HTTP 500".to_owned();
    assert!(required_checks_with_evaluated_rules(Some(&broken), false, false).is_err());
    assert_eq!(required_checks_with_evaluated_rules(Some(&broken), true, false), Ok(false));
    assert_eq!(gh_json_before(10, 30, "read"), Ok(20));
    assert_eq!(
        gh_json_before(30, 30, "read"),
        Err("read exceeded its bounded deadline".to_owned())
    );
}

#[test]
fn a_wedge_is_told_from_a_moved_queue() {
    let target = DispatchWedgeTargetRequest {
        base_ref: "main".to_owned(),
        pull_request: 7,
        expected_head_sha: head(),
    };
    assert!(revalidate_dispatch_wedge_pull_request(&pr(&[]), &target, Some(&pr(&[]))).is_ok());
    assert!(revalidate_dispatch_wedge_pull_request(&pr(&[]), &target, None).is_err());
    let group = TargetGroup { pr: 0, queue_position: 1, merge_group_head: group_head() };
    let observed = pr(&[]);
    let outcome = |live: Result<Option<ObservedPr>, String>, queue: Result<LiveGroup, String>| {
        let check = WedgeCheck::new(&observed, &target, &group);
        assert!(matches!(check.action(), WedgeAction::ReadPullRequest));
        let early = WedgeReply::Queue(Err("not asked".to_owned()));
        let check = revalidate_dispatch_wedge_authority_with(check, early);
        assert!(matches!(check.action(), WedgeAction::ReadPullRequest));
        let check =
            revalidate_dispatch_wedge_authority_with(check, WedgeReply::PullRequest(live));
        let check = match check.action() {
            WedgeAction::ReadQueue => {
                revalidate_dispatch_wedge_authority_with(check, WedgeReply::Queue(queue))
            }
            _ => check,
        };
        match check.action() {
            WedgeAction::Told(outcome) => outcome,
            other => panic!("{other:?}"),
        }
    };
    let live = |enabled: bool, position: Option<u64>, head: Option<String>| {
        Ok(LiveGroup { enabled, position, head })
    };
    let holds = |enabled: bool, position: Option<u64>, head: Option<String>| {
        outcome(Ok(Some(pr(&[]))), live(enabled, position, head)).is_ok()
    };
    assert!(holds(true, Some(1), Some(group_head())));
    assert!(!holds(false, Some(1), Some(group_head())));
    assert!(!holds(true, Some(2), Some(group_head())));
    assert!(!holds(true, Some(1), Some(head())));
    assert_eq!(
        outcome(Ok(None), live(true, Some(1), Some(group_head()))),
        Err("dispatch-wedge PR authority changed before final read".to_owned())
    );
    assert_eq!(
        outcome(Ok(Some(pr(&[]))), Err("HTTP 500".to_owned())),
        Err("HTTP 500".to_owned())
    );
    assert!(observe_dispatch_wedge_target(Vec::new()).is_err());
    let mut runners = Vec::new();
    let page = json(r#"{"runners":[{"id":1,"name":"r1","status":"online","labels":[{"name":"x64"}]}]}"#);
    assert_eq!(dispatch_runner_observations(&mut runners, &page, 1), Ok(Paging::Complete));
    assert!(runners[0].busy, "a runner is busy unless it says otherwise");
    assert_eq!(runners[0].labels, ["x64"]);
}

fn wedge_target(base: &str, number: u64) -> DispatchWedgeTargetRequest {
    DispatchWedgeTargetRequest {
        base_ref: base.to_owned(),
        pull_request: number,
        expected_head_sha: head(),
    }
}

fn base_observation(base: &str) -> RepoObservation {
    RepoObservation {
        repo: "owner/repo".to_owned(),
        base: base.to_owned(),
        allow_auto_merge: true,
        merge_queue: true,
        required_checks: Vec::new(),
        prs: Vec::new(),
        runs: Vec::new(),
        merge_group_heads: std::collections::BTreeMap::new(),
        merge_group_enqueued_at: std::collections::BTreeMap::new(),
        preemption_error: None,
    }
}

#[test]
fn a_batch_reads_what_its_targets_share_once() {
    let targets =
        vec![wedge_target("main", 7), wedge_target("release", 8), wedge_target("main", 9)];
    let walk = |runners_fail: bool, release_fails: bool| {
        let mut actions = Vec::new();
        let mut batch = observe_dispatch_wedge_targets(&targets);
        loop {
            let action = batch.action();
            let reply = match action {
                BatchAction::Over => break,
                BatchAction::ReadRunners if runners_fail => {
                    BatchReply::Runners(Err("HTTP 500".to_owned()))
                }
                BatchAction::ReadRunners => BatchReply::Runners(Ok(Vec::new())),
                BatchAction::ReadBase(k) => match batch.base(k).map(String::as_str) {
                    Some("release") if release_fails => {
                        BatchReply::Base(Err("HTTP 502".to_owned()))
                    }
                    base => BatchReply::Base(Ok(base_observation(base.expect("a branch")))),
                },
                BatchAction::Observe { target, base } => {
                    let seen = batch.observation(base).expect("read");
                    assert_eq!(seen.base, targets[target].base_ref);
                    BatchReply::Seen(Ok(Vec::new()))
                }
            };
            actions.push(action);
            batch = observe_dispatch_wedge_targets_with(batch, reply);
        }
        let (results, _) = finish_dispatch_wedge_targets(batch).expect("the end");
        assert_eq!(results.len(), 3);
        let told: Vec<Result<usize, String>> = results
            .into_iter()
            .zip(&targets)
            .map(|(seen, target)| {
                assert_eq!(&seen.target, target);
                seen.result.map(|jobs| jobs.len())
            })
            .collect();
        (actions, told)
    };
    let (actions, told) = walk(false, false);
    assert_eq!(
        actions,
        [
            BatchAction::ReadRunners,
            BatchAction::ReadBase(0),
            BatchAction::ReadBase(1),
            BatchAction::Observe { target: 0, base: 0 },
            BatchAction::Observe { target: 1, base: 1 },
            BatchAction::Observe { target: 2, base: 0 },
        ]
    );
    assert_eq!(told, [Ok(0), Ok(0), Ok(0)]);
    let (actions, told) = walk(false, true);
    assert!(!actions.contains(&BatchAction::Observe { target: 1, base: 1 }));
    assert_eq!(told, [Ok(0), Err("HTTP 502".to_owned()), Ok(0)]);
    let (actions, told) = walk(true, false);
    assert!(!actions.iter().any(|action| matches!(action, BatchAction::Observe { .. })));
    assert_eq!(told, vec![Err("HTTP 500".to_owned()); 3]);
    assert!(finish_dispatch_wedge_targets(observe_dispatch_wedge_targets(&targets)).is_err());
}

#[test]
fn a_preemption_records_what_it_rests_on() {
    let evidence = CapacityRevalidation {
        candidate: run("pull_request", &head()),
        front_enqueued_at: AT.to_owned(),
        front_jobs: vec![job("linux", None)],
        current_pr_head: None,
    };
    let document = capacity_evidence(&group_head(), &evidence);
    assert_eq!(document.text_field("front_head"), Some(&group_head()));
    assert_eq!(document.text_field("front_enqueued_at").map(String::as_str), Some(AT));
    assert_eq!(document.u64_field("candidate_run"), Some(31));
    assert_eq!(document.text_field("candidate_head"), Some(&head()));
    let jobs = document.array_field("front_jobs").expect("jobs");
    assert_eq!(jobs[0].text_field("name").map(String::as_str), Some("linux"));
    assert!(jobs[0].get("runner_name").is_some_and(Json::is_null));
    assert_eq!(document.array_field("candidate_jobs").map(Vec::len), Some(0));
    assert!(document.get("current_pr_head").is_some_and(Json::is_null));
    let rejected = rejected_report("HTTP 409", Some("disk full".to_owned()));
    assert_eq!(rejected.mutation.as_deref(), Some("cancel_rejected"));
    assert_eq!(
        rejected.error.as_deref(),
        Some("HTTP 409; mutation audit also failed: disk full")
    );
    assert_eq!(rejected_report("HTTP 409", None).error.as_deref(), Some("HTTP 409"));
    assert_eq!(job_fetch_time_left(31, 10, 30), Ok(20));
    assert_eq!(
        job_fetch_time_left(31, 30, 30),
        Err("workflow run 31 job fetch timed out".to_owned())
    );
}

#[test]
fn a_branch_without_readable_protection_has_none() {
    let read = |read: Result<&str, &str>, not_entitled: bool, not_admin: bool| {
        let read = read.map(str::to_owned).map_err(str::to_owned);
        required_check_policy(&read, not_entitled, not_admin)
    };
    let found = read(Ok(r#"{"contexts":["linux"]}"#), false, false).expect("a policy");
    assert!(found.expect("a document").array_field("contexts").is_some());
    let malformed = read(Ok("{"), false, false).expect_err("malformed");
    assert!(malformed.starts_with("required-check policy returned malformed JSON: "));
    for (not_entitled, not_admin, error) in
        [(true, false, "HTTP 403"), (false, true, "HTTP 403"), (false, false, "gh: HTTP 404")]
    {
        assert!(matches!(read(Err(error), not_entitled, not_admin), Ok(None)));
    }
    assert_eq!(
        read(Err("HTTP 500"), false, false).expect_err("unread"),
        "required-check policy read failed: HTTP 500"
    );
}

#[test]
fn failures_to_record_are_told_together() {
    let text = |text: &str| Some(text.to_owned());
    assert_eq!(finish_force_cancel_revalidation_failure(&None, &None), Ok(()));
    assert_eq!(
        finish_force_cancel_revalidation_failure(&text("a"), &text("b")),
        Err("mutation audit failed: a; ledger audit failed: b".to_owned())
    );
    assert_eq!(
        append_audit_failure("broken", &text("full")),
        "broken; mutation audit also failed: full"
    );
    assert_eq!(append_audit_failure("broken", &None), "broken");
}
