//! A pass over repositories, admission of runners, the queue and the worker.
use std::collections::BTreeMap;

use merge_steward::admission::{
    admission_claim, admission_clean_command, admission_inspection, begin_admission,
    bounded_admission_error, emit_admission_verdict, fence_admission_authority,
    job_can_claim_runner, normalize_admission_target, normalize_provenance_blocking_labels,
    print_admission_verdict, running_as_queued, try_acquire_admission_observation_lock,
    AdmissionClaim, AdmissionCleanArgs, AdmissionReply, AdmissionStage, AdmissionStep,
    AdmissionVerdict,
};
use merge_steward::coalesce::{
    candidate_forbids, coalescing_planned, exact_run_still_queued, front_still_waits,
    revalidate_coalescing_cancellation, timestamp_old_enough, CoalesceStage, CoalesceStep,
};
use merge_steward::dispatch::{
    current_required_dispatch_job, dispatch_job_authority, is_unassigned,
    observe_dispatch_wedge_target_from_repository, observe_dispatch_wedge_targets, wants_detail,
    DispatchWedgeTargetRequest, TargetGroup,
};
use merge_steward::dispatch_scan::{
    collect_dispatch_wedge_job_observations, finish_dispatch_scan, DispatchScan, ScanAction,
    ScanReply,
};
use merge_steward::json::{parse_json, Json};
use merge_steward::ledger::{
    StewardLedger, TerminalHandoff, TerminalHandoffOutcome, TerminalHandoffPhase,
};
use merge_steward::model::{
    CliFailure, MutationReport, ObservedPr, RepoObservation, RequiredCheck, RunCancellation,
    RunCancellationReason, StewardDecision, StewardJob, StewardPullRequest, StewardRun,
};
use merge_steward::observation::{
    binds_producer, canonical_repo_name, check_runs_for_head, gh_json,
    job_check_producers_for_head, next_page, observe_repo, parse_job, parse_rest_check, parse_run,
    pull_requests, resolve_repos, run_and_job_id_from_url, run_id_from_url, JobCheckProducer,
    Paging, QueueEntry,
};
use merge_steward::outside::{parse_time, Instant};
use merge_steward::pass::{
    exact_steward_transition, load_ledger, normalized_steward_args, unreadable_repo_report,
    ExactStewardTransition,
};
use merge_steward::pass_walk::{finish_pass, steward_command, PassReply, PassStep, PassWalk};
use merge_steward::plan::{
    begin_pr_plan, combine_mutations, count_preemptions, next_pr_step, next_repo_stage,
    plan_cancellations, plan_repo_capacity_preemptions, queue_front_head, queue_front_pr,
    queue_front_pressure, steward_policy, PrPlanReply, PrPlanStage, PrPlanStep, RepoReport,
    RepoStage, StewardCommandArgs,
};
use merge_steward::pr_walk::{apply_pr_plans, finish_pr_plans, PrAction, PrWalk};
use merge_steward::repo_walk::{apply_repo_plan, finish_repo_plan, RepoAction, RepoReply, RepoWalk};
use merge_steward::queue_control::{
    merge_queue_control_command, print_control, required_reason, resolve_command, QueueControl,
};
use merge_steward::queue_recovery::{receipt_key, removal_is_fresh};
use merge_steward::queue_snapshot::{
    front_entry, live_queue_front, load_merge_queue_snapshot_once, merge_group_heads,
    merge_queue_snapshot, needs_confirmation, queue_page_args, MergeQueueSnapshot, QueueNext,
    QueueRead, QueueReply,
};
use merge_steward::queue_witness::{
    record_queue_witness, recovery_evidence, recovery_witness, WitnessOutcome,
};
use merge_steward::ledger::{QueueRecoveryPhase, QueueRecoveryReceipt};
use merge_steward::resume::{CancellationReport, RecoveryReports};
use merge_steward::revalidation::{
    authority_excluded_pull_requests, excluded_pull_requests, management_transition_valid,
    opted_out_pull_requests, pull_request_is_managed, same_workflow_attempt,
};
use merge_steward::text_map::TextMap;
use merge_steward::witness_walk::{
    record_queue_witnesses, WitnessAction, WitnessReply, WitnessWalk,
};
use merge_steward::worker::{
    enqueue_recovery_request, ensure_canonical_recovery_paths, finish_durable_requests,
    process_durable_requests, reconcile_orphaned_requests, recovery_worker_command, Ask, AskReply,
    AskStage, AskStep, RecoveryEnqueueDisposition, RecoveryWorkerCommandArgs, Worker, WorkerNote,
    WorkerReply, WorkerRequest, WorkerStage,
};

const AT: &str = "2026-08-27T07:00:00Z";
const MANAGED: &str = "shipyard:managed";
const OPT_OUT: &str = "shipyard:no-auto-merge";

fn json(text: &str) -> Json {
    parse_json(text).expect("JSON")
}

fn at(text: &str) -> Instant {
    parse_time(text).expect("a moment")
}

fn owned(texts: &[&str]) -> Vec<String> {
    texts.iter().map(|text| (*text).to_owned()).collect()
}

fn pr(number: u64, labels: &[&str], position: Option<u64>) -> ObservedPr {
    ObservedPr {
        node_id: format!("PR_{number}"),
        fact: StewardPullRequest {
            number,
            head_sha: format!("{number:040x}"),
            head_branch: format!("feature-{number}"),
            draft: false,
            merge_state: "CLEAN".to_owned(),
            auto_merge_active: false,
            queue_position: position,
            labels: owned(labels),
            checks: Vec::new(),
        },
        check_rollup_maybe_truncated: false,
    }
}

fn group_run(id: u64, status: &str, head: &str) -> StewardRun {
    StewardRun {
        id,
        workflow_id: 5,
        run_attempt: 1,
        workflow: "build".to_owned(),
        head_sha: head.to_owned(),
        head_branch: "gh-readonly-queue/main/pr-7".to_owned(),
        status: status.to_owned(),
        event: "merge_group".to_owned(),
        pull_request_number: Some(7),
        created_at: AT.to_owned(),
        jobs: Vec::new(),
    }
}

fn job(id: u64, name: &str, runner: Option<&str>) -> StewardJob {
    StewardJob {
        id,
        name: name.to_owned(),
        status: "queued".to_owned(),
        conclusion: None,
        labels: owned(&["self-hosted", "Linux"]),
        runner_name: runner.map(str::to_owned),
    }
}

fn observation(prs: Vec<ObservedPr>) -> RepoObservation {
    let mut heads: BTreeMap<u64, String> = BTreeMap::new();
    let mut enqueued: BTreeMap<u64, String> = BTreeMap::new();
    heads.insert(7, "c".repeat(40));
    enqueued.insert(7, "2026-08-27T06:00:00Z".to_owned());
    RepoObservation {
        repo: "owner/repo".to_owned(),
        base: "main".to_owned(),
        allow_auto_merge: true,
        merge_queue: true,
        required_checks: vec![RequiredCheck { context: "linux".to_owned(), app_id: None }],
        prs,
        runs: Vec::new(),
        merge_group_heads: heads,
        merge_group_enqueued_at: enqueued,
        preemption_error: None,
    }
}

fn args(apply: bool) -> StewardCommandArgs {
    StewardCommandArgs {
        repos: owned(&["owner/repo"]),
        base: "main".to_owned(),
        opt_out_label: OPT_OUT.to_owned(),
        provenance_blocking_labels: owned(&["5·unresolved"]),
        managed_label: MANAGED.to_owned(),
        handoff_context: "shipyard/steward-handoff".to_owned(),
        max_transient_reruns: 1,
        recover_hosted_setup_eviction_priority: true,
        coalesce: true,
        preempt_capacity: true,
        max_preemptions_per_head: 1,
        apply,
    }
}

fn cancellation(run_id: u64, reason: RunCancellationReason) -> RunCancellation {
    RunCancellation { run_id, reason }
}

#[test]
fn a_look_changes_nothing() {
    for stage in [
        RepoStage::WedgeReceipts,
        RepoStage::Handoffs,
        RepoStage::Witnesses,
        RepoStage::Wedge,
        RepoStage::Cancel,
    ] {
        assert_ne!(next_repo_stage(&args(false), stage), stage);
        assert_eq!(next_repo_stage(&args(true), stage), stage);
    }
    assert!(matches!(
        begin_pr_plan(&StewardDecision::ArmMergeQueue, false),
        PrPlanStep::Report(report) if report == MutationReport::none()
    ));
}

#[test]
fn a_blocked_pull_request_is_left_alone() {
    let blocked = StewardDecision::ProvenanceBlocked { labels: owned(&["5·unresolved"]) };
    match begin_pr_plan(&blocked, true) {
        PrPlanStep::Next { stage, .. } => assert_eq!(stage, PrPlanStage::Blocked),
        PrPlanStep::Report(_) => panic!("a blocked pull request is reconciled"),
    }
    assert!(matches!(
        next_pr_step(
            PrPlanStage::Blocked,
            None,
            PrPlanReply::Report(MutationReport::done("cleared"))
        ),
        PrPlanStep::Report(report) if report.mutation.as_deref() == Some("cleared")
    ));
}

#[test]
fn mutations_are_joined_in_order() {
    let first = Some("a".to_owned());
    let second = Some("b".to_owned());
    assert_eq!(combine_mutations(first.clone(), second.clone()), Some("a,b".to_owned()));
    assert_eq!(combine_mutations(None, second.clone()), second);
    assert_eq!(combine_mutations(first.clone(), None), first);
}

#[test]
fn the_front_of_the_queue_is_its_first_entry() {
    let seen = observation(vec![pr(8, &[], Some(2)), pr(7, &[], Some(1)), pr(9, &[], None)]);
    assert_eq!(queue_front_pr(&seen.prs), Some(1));
    assert_eq!(queue_front_head(&seen), Some("c".repeat(40)));
    let pressure =
        queue_front_pressure(&seen, &at("2026-08-27T07:00:00Z")).expect("a front that waits");
    assert!(pressure.old_enough);
    assert!(!queue_front_pressure(&seen, &at("2026-08-27T06:10:00Z")).expect("a front").old_enough);
    assert_eq!(queue_front_pr(&vec![pr(9, &[], None)]), None);
}

#[test]
fn pressure_excludes_what_must_not_be_preempted() {
    let seen = observation(vec![
        pr(7, &[MANAGED], Some(1)),
        pr(8, &[MANAGED, OPT_OUT], None),
        pr(9, &[], None),
    ]);
    let mut ledger = StewardLedger::new();
    ledger.preemption_attempts.insert("owner/repo:spent".to_owned(), 1);
    ledger.preemption_attempts.insert("other/repo:spent-too".to_owned(), 1);
    let plan = plan_repo_capacity_preemptions(
        &args(true),
        &seen,
        &vec![7, 8],
        &ledger,
        &at("2026-08-27T07:00:00Z"),
    )
    .expect("a plan");
    assert_eq!(plan.attempted, ["spent"]);
    assert_eq!(plan.excluded, [8, 9]);
}

#[test]
fn cancellations_are_planned_once() {
    let superseded = RunCancellationReason::SupersededPullRequestHead;
    let theft = RunCancellationReason::AdvisoryPreambleCapacityTheft;
    let plan = plan_cancellations(
        &vec![cancellation(1, superseded), cancellation(2, superseded)],
        &vec![2],
        &vec![cancellation(3, theft)],
    );
    assert_eq!(plan, [cancellation(1, superseded), cancellation(3, theft)]);
    assert_eq!(count_preemptions(&plan), 1);
}

/// A pass over a repository in which every step answers with the given reply, and the
/// actions that it took.
fn walk_repository(
    args: &StewardCommandArgs,
    seen: &RepoObservation,
    answer: impl Fn(RepoAction) -> RepoReply,
) -> ((RepoReport, bool, usize), Vec<RepoAction>) {
    let mut walk = RepoWalk::new(args, seen);
    let mut taken = Vec::new();
    loop {
        let action = walk.action();
        taken.push(action);
        if action == RepoAction::Report {
            return (finish_repo_plan(walk).expect("the end"), taken);
        }
        walk = apply_repo_plan(walk, answer(action));
    }
}

/// A reply by which nothing is wrong and nothing is planned.
fn quiet(action: RepoAction) -> RepoReply {
    match action {
        RepoAction::Take(RepoStage::WedgeCandidates) => {
            RepoReply::Reserved { runs: vec![2], error: None }
        }
        RepoAction::Take(RepoStage::Coalesce | RepoStage::Preempt) => {
            RepoReply::Planned(Vec::new())
        }
        RepoAction::Take(RepoStage::Wedge) => RepoReply::Freed(None),
        RepoAction::Pr(PrAction::Decide(_)) => {
            RepoReply::Pr(PrPlanReply::Decided(StewardDecision::Draft))
        }
        RepoAction::Pr(_) => RepoReply::Pr(PrPlanReply::Report(MutationReport::none())),
        RepoAction::Cancel(_) => RepoReply::Cancelled(MutationReport::done("cancelled")),
        _ => RepoReply::Done,
    }
}

/// The cancellations that a pass plans here: one superseded run is reserved.
fn planning(action: RepoAction) -> RepoReply {
    let superseded = RunCancellationReason::SupersededPullRequestHead;
    match action {
        RepoAction::Take(RepoStage::Coalesce) => {
            RepoReply::Planned(vec![cancellation(1, superseded), cancellation(2, superseded)])
        }
        RepoAction::Take(RepoStage::Preempt) => RepoReply::Planned(vec![cancellation(
            3,
            RunCancellationReason::AdvisoryPreambleCapacityTheft,
        )]),
        other => quiet(other),
    }
}

#[test]
fn a_pass_is_healthy_until_something_fails() {
    let seen = observation(vec![pr(7, &[MANAGED], Some(1))]);
    assert_eq!(steward_policy(&args(true), &seen).required_checks, seen.required_checks);
    let (healthy, _) = walk_repository(&args(true), &seen, quiet);
    assert_eq!((healthy.1, healthy.2), (false, 0));
    assert_eq!(healthy.0.required_contexts, ["linux"]);
    assert_eq!(healthy.0.prs.len(), 1);

    let ledger = StewardLedger::new();
    let steward = args(true);
    let repos = owned(&["owner/repo", "owner/second"]);
    let reported = |outcome: (RepoReport, bool, usize)| PassReply::Reported {
        repo: "owner/repo".to_owned(),
        report: outcome.0,
        failed: outcome.1,
        preemptions: outcome.2,
    };
    let pass = PassWalk::new(&steward, repos, TextMap::new(), false, false);
    assert_eq!((pass.step(), pass.remaining_preemptions()), (PassStep::Repository(0), 1));
    let pass = steward_command(pass, reported(healthy), &ledger);
    assert_eq!((pass.step(), pass.remaining_preemptions()), (PassStep::Repository(1), 1));
    assert_eq!(pass.repo(1).map(String::as_str), Some("owner/second"));

    let (failed, _) = walk_repository(&args(true), &seen, |action| match action {
        RepoAction::Pr(PrAction::Take(_, _)) => {
            RepoReply::Pr(PrPlanReply::Report(MutationReport::failed("HTTP 500".to_owned())))
        }
        other => planning(other),
    });
    assert_eq!((failed.1, failed.2), (true, 1));
    let pass = steward_command(pass, reported(failed), &ledger);
    assert_eq!((pass.step(), pass.remaining_preemptions()), (PassStep::Unmatched, 0));
    let pass = steward_command(pass, PassReply::Ready, &ledger);
    assert_eq!(pass.step(), PassStep::Save);
    let pass = finish_pass(pass).expect_err("nothing was saved yet");
    let pass = steward_command(pass, PassReply::Saved(Ok(())), &ledger);
    let (reports, code) = finish_pass(pass).expect("the end");
    assert_eq!((reports.len(), code), (2, 1));

    let (quiet_report, _) = walk_repository(&steward, &seen, quiet);
    let looking = args(false);
    let repos = owned(&["owner/repo"]);
    let pass = PassWalk::new(&looking, repos, TextMap::new(), false, true);
    assert_eq!(pass.remaining_preemptions(), 0);
    let pass = steward_command(pass, reported(quiet_report), &ledger);
    let pass = steward_command(pass, PassReply::Ready, &ledger);
    let (reports, code) = finish_pass(pass).expect("a look saves nothing");
    assert_eq!((reports.len(), code), (1, 0));
}

#[test]
fn every_pull_request_is_reported_whatever_went_wrong_before_it() {
    let prs = vec![pr(7, &[], None), pr(8, &[], None), pr(9, &[], None)];
    let mut walk = PrWalk::new(&prs, true);
    loop {
        walk = match walk.action() {
            PrAction::Over => break,
            PrAction::Decide(_) => {
                apply_pr_plans(walk, PrPlanReply::Decided(StewardDecision::ArmMergeQueue))
            }
            PrAction::Take(0, PrPlanStage::Management) => apply_pr_plans(
                walk,
                PrPlanReply::Report(MutationReport::failed("HTTP 500".to_owned())),
            ),
            PrAction::Take(_, _) => {
                apply_pr_plans(walk, PrPlanReply::Report(MutationReport::none()))
            }
        };
    }
    let (reports, unhealthy) = finish_pr_plans(walk).expect("the end");
    assert!(unhealthy);
    let numbers: Vec<u64> = reports.iter().map(|report| report.number).collect();
    assert_eq!(numbers, [7, 8, 9]);
    assert_eq!(reports[0].error.as_deref(), Some("HTTP 500"));
    assert_eq!(reports[1].error, None);
    assert_eq!(reports[2].head_sha, prs[2].fact.head_sha);
    assert!(finish_pr_plans(PrWalk::new(&prs, true)).is_err());
}

#[test]
fn a_pass_that_only_looks_reports_its_plan() {
    let seen = observation(vec![pr(7, &[MANAGED], Some(1)), pr(8, &[], None)]);
    let looking = args(false);
    let ((report, unhealthy, preemptions), taken) = walk_repository(&looking, &seen, planning);
    assert_eq!(
        taken,
        [
            RepoAction::Take(RepoStage::WedgeCandidates),
            RepoAction::Pr(PrAction::Decide(0)),
            RepoAction::Pr(PrAction::Decide(1)),
            RepoAction::Take(RepoStage::Coalesce),
            RepoAction::Take(RepoStage::Preempt),
            RepoAction::Report,
        ]
    );
    assert!(!unhealthy);
    assert_eq!(preemptions, 1);
    let listed: Vec<(u64, &str)> = report
        .cancellations
        .iter()
        .map(|cancellation| (cancellation.run_id, cancellation.reason.as_str()))
        .collect();
    assert_eq!(
        listed,
        [(1, "superseded_pull_request_head"), (3, "advisory_preamble_capacity_theft")]
    );
    assert!(report.cancellations.iter().all(|cancellation| cancellation.mutation.is_none()));
    assert!(report.cancellations.iter().all(|cancellation| cancellation.error.is_none()));

    let (unread, _) = walk_repository(&looking, &seen, |action| match action {
        RepoAction::Take(RepoStage::WedgeCandidates) => {
            RepoReply::Reserved { runs: vec![2], error: Some("HTTP 502".to_owned()) }
        }
        other => planning(other),
    });
    assert!(unread.1);
    assert_eq!(unread.0.errors, ["HTTP 502"]);
    assert_eq!(unread.0.cancellations.len(), 2);
}

#[test]
fn a_pass_with_changes_takes_every_step_in_order() {
    let seen = observation(Vec::new());
    let changing = args(true);
    let ((report, unhealthy, _), taken) = walk_repository(&changing, &seen, |action| match action {
        RepoAction::Take(RepoStage::Wedge) => RepoReply::Freed(Some(CancellationReport {
            run_id: 9,
            reason: "stale".to_owned(),
            mutation: Some("cancelled".to_owned()),
            error: None,
        })),
        RepoAction::Take(RepoStage::Handoffs) => RepoReply::Failed("locked".to_owned()),
        RepoAction::Cancel(planned) if planned.run_id == 1 => {
            RepoReply::Cancelled(MutationReport::failed("HTTP 409".to_owned()))
        }
        other => planning(other),
    });
    let superseded = RunCancellationReason::SupersededPullRequestHead;
    let theft = RunCancellationReason::AdvisoryPreambleCapacityTheft;
    assert_eq!(
        taken,
        [
            RepoAction::Take(RepoStage::WedgeReceipts),
            RepoAction::Take(RepoStage::WedgeCandidates),
            RepoAction::Take(RepoStage::Handoffs),
            RepoAction::Take(RepoStage::Witnesses),
            RepoAction::Take(RepoStage::Coalesce),
            RepoAction::Take(RepoStage::Preempt),
            RepoAction::Take(RepoStage::Wedge),
            RepoAction::Cancel(cancellation(1, superseded)),
            RepoAction::Cancel(cancellation(3, theft)),
            RepoAction::Report,
        ]
    );
    assert!(unhealthy);
    assert_eq!(report.errors, ["locked"]);
    let runs: Vec<u64> = report.cancellations.iter().map(|told| told.run_id).collect();
    assert_eq!(runs, [9, 1, 3]);
    assert_eq!(report.cancellations[1].error.as_deref(), Some("HTTP 409"));
    assert_eq!(report.cancellations[2].mutation.as_deref(), Some("cancelled"));
}

#[test]
fn an_unreadable_repository_is_reported() {
    let told = |texts: &[&str]| RecoveryReports {
        errors: owned(texts),
        cancellations: Vec::new(),
    };
    let mut recovered: TextMap<RecoveryReports> = TextMap::new();
    recovered.insert("other/repo".to_owned(), told(&["stuck"]));
    recovered.insert("owner/repo".to_owned(), told(&[]));
    let steward = args(true);
    let repos = owned(&["owner/repo"]);
    let ledger = StewardLedger::new();
    let pass = PassWalk::new(&steward, repos, recovered, true, false);
    assert_eq!(pass.remaining_preemptions(), 0);
    let pass = steward_command(pass, PassReply::Unreadable("HTTP 502".to_owned()), &ledger);
    let pass = steward_command(pass, PassReply::Ready, &ledger);
    let pass = steward_command(pass, PassReply::Saved(Err("disk full".to_owned())), &ledger);
    let (reports, code) = finish_pass(pass).expect("the end");
    assert_eq!(code, 1);
    let names: Vec<(&str, &str)> = reports
        .iter()
        .map(|report| (report.repo.as_str(), report.merge_path.as_str()))
        .collect();
    assert_eq!(
        names,
        [
            ("owner/repo", "unreadable"),
            ("other/repo", "pending_cancellation_recovery"),
            ("owner/repo", "pending_cancellation_recovery"),
        ]
    );
    assert_eq!(
        reports[0].errors,
        ["HTTP 502", "final steward ledger persistence failed: disk full"]
    );
    assert_eq!(reports[1].errors, ["stuck"]);
    let report = unreadable_repo_report("owner/repo", "main", "HTTP 502".to_owned());
    assert_eq!(report.repo, "owner/repo");
    assert_eq!(load_ledger(None), StewardLedger::new());
}

fn handoff(outcome: TerminalHandoffOutcome, phase: TerminalHandoffPhase) -> StewardLedger {
    let mut ledger = StewardLedger::new();
    ledger.terminal_handoffs.insert(
        "key".to_owned(),
        TerminalHandoff {
            dedupe_key: "key".to_owned(),
            repo: "owner/repo".to_owned(),
            base: "main".to_owned(),
            pr_number: 7,
            head_sha: "a".repeat(40),
            outcome,
            trigger: "actionable_terminal_failure".to_owned(),
            next_action: "wake_exact_owner_for_causal_repair".to_owned(),
            origin_machine: None,
            owner_id: None,
            ownership_generation: None,
            owner_disposition: "original_agent".to_owned(),
            owner_route_id: None,
            owner_provider: None,
            resume_transport: None,
            owner_terminal_provenance: None,
            provider_route: None,
            wake_consumer_available: false,
            failure_contexts: Vec::new(),
            phase,
            created_at: AT.to_owned(),
            updated_at: AT.to_owned(),
        },
    );
    ledger
}

#[test]
fn a_transition_is_bound_to_an_immutable_repository() {
    let ledger =
        handoff(TerminalHandoffOutcome::ActionableFailure, TerminalHandoffPhase::Recorded);
    let head = "a".repeat(40);
    let transition = |provider: Option<&str>, ledger: Option<&StewardLedger>, pr: u64| {
        exact_steward_transition(provider, Some("id"), Ok(()), ledger, "owner/repo", pr, &head)
    };
    assert!(transition(None, Some(&ledger), 7).is_err());
    assert_eq!(transition(Some("github"), None, 7), Ok(ExactStewardTransition::Open));
    assert_eq!(
        transition(Some("github"), Some(&ledger), 7),
        Ok(ExactStewardTransition::Actionable)
    );
    assert_eq!(
        transition(Some("github"), Some(&ledger), 8),
        Ok(ExactStewardTransition::Open)
    );
    let resolved =
        handoff(TerminalHandoffOutcome::ActionableFailure, TerminalHandoffPhase::Resolved);
    assert_eq!(
        transition(Some("github"), Some(&resolved), 7),
        Ok(ExactStewardTransition::Terminal)
    );
}

#[test]
fn repositories_are_read_once_in_order() {
    let (normalized, repos) = normalized_steward_args(
        StewardCommandArgs { repos: owned(&["owner/b", "owner/a", "owner/b"]), ..args(false) },
        Err(CliFailure::new(1, "not asked for")),
    )
    .expect("slugs");
    assert_eq!(repos, ["owner/a", "owner/b"]);
    assert_eq!(normalized.provenance_blocking_labels, ["5·unresolved"]);
    assert!(resolve_repos(owned(&["slugless"]), Ok("owner/repo".to_owned())).is_err());
    assert_eq!(
        resolve_repos(Vec::new(), Ok("owner/repo".to_owned())),
        Ok(owned(&["owner/repo"]))
    );
}

#[test]
fn authority_is_kept_from_those_who_left() {
    let managed = pr(7, &[MANAGED], None);
    let out = pr(8, &[MANAGED, OPT_OUT], None);
    let blocked = pr(9, &[MANAGED, "5·unresolved"], None);
    let prs = vec![managed.clone(), out, blocked, pr(10, &[], None)];
    let labels = owned(&["5·unresolved"]);
    assert_eq!(opted_out_pull_requests(&prs, OPT_OUT), [8]);
    assert_eq!(authority_excluded_pull_requests(&prs, OPT_OUT, &labels), [8, 9]);
    assert_eq!(
        excluded_pull_requests(&prs, OPT_OUT, MANAGED, &vec![7, 8, 9, 10], &labels),
        [8, 9, 10]
    );
    assert!(pull_request_is_managed(&managed, MANAGED, true));
    assert!(!pull_request_is_managed(&managed, MANAGED, false));
    assert!(management_transition_valid(&managed, true, &managed, true, MANAGED));
    assert!(!management_transition_valid(&managed, true, &pr(7, &[], None), true, MANAGED));
    assert!(candidate_forbids(&prs[1], true, &prs, &vec![7, 8], OPT_OUT, MANAGED, &labels));
    assert!(!candidate_forbids(&managed, true, &prs, &vec![7, 8], OPT_OUT, MANAGED, &labels));
}

#[test]
fn an_attempt_is_told_by_its_whole_identity() {
    let head = "c".repeat(40);
    let seen = group_run(31, "queued", &head);
    assert!(same_workflow_attempt(&seen, &seen));
    let mut again = seen.clone();
    again.run_attempt = 2;
    assert!(!same_workflow_attempt(&seen, &again));
    assert!(exact_run_still_queued(Some(&seen), Some(7), &seen, 7));
    assert!(!exact_run_still_queued(None, None, &seen, 7));
    let started = group_run(31, "in_progress", &head);
    assert!(!exact_run_still_queued(Some(&started), Some(7), &seen, 7));
    let superseded = cancellation(31, RunCancellationReason::SupersededMergeGroupHead);
    assert_eq!(
        revalidate_coalescing_cancellation(true, &seen, Some(7)),
        CoalesceStep::Next(CoalesceStage::Candidate(7))
    );
    assert_eq!(
        coalescing_planned(7, &vec![superseded], &superseded),
        CoalesceStep::Next(CoalesceStage::Exact(7))
    );
    assert_eq!(coalescing_planned(7, &vec![], &superseded), CoalesceStep::Answer(false));
}

#[test]
fn a_front_has_waited_for_a_quarter_of_an_hour() {
    let now = at("2026-08-27T07:00:00Z");
    assert!(timestamp_old_enough("2026-08-27T06:45:00Z", &now));
    assert!(!timestamp_old_enough("2026-08-27T06:45:01Z", &now));
    assert!(!timestamp_old_enough("yesterday", &now));
    let front = || Some(("front".to_owned(), "2026-08-27T06:00:00Z".to_owned()));
    assert!(front_still_waits(front(), "front", &now).is_some());
    assert!(front_still_waits(front(), "other", &now).is_none());
    assert!(!removal_is_fresh(at("2026-08-27T04:59:59Z"), now));
}

fn admission_step(stage: AdmissionStage, reply: AdmissionReply, apply: bool) -> AdmissionStep {
    admission_clean_command(&mut begin_admission(apply), stage, reply)
}

#[test]
fn a_runner_is_admitted_after_a_clean_inspection() {
    let clean = || AdmissionReply::Inspected { candidates: Vec::new(), blocking: Vec::new() };
    let mut admission = begin_admission(false);
    let mut stage = AdmissionStage::Lock;
    let mut stages: Vec<AdmissionStage> = Vec::new();
    let report = loop {
        stages.push(stage);
        let reply = match stage {
            AdmissionStage::Observe | AdmissionStage::CleanRevalidate => clean(),
            AdmissionStage::Load | AdmissionStage::CleanLoad => {
                AdmissionReply::Pending(Vec::new())
            }
            _ => AdmissionReply::Done,
        };
        match admission_clean_command(&mut admission, stage, reply) {
            AdmissionStep::Next(next) => stage = next,
            AdmissionStep::Verdict(report) => break report,
            AdmissionStep::Fail => panic!("nothing failed"),
        }
    };
    assert_eq!(report.verdict, AdmissionVerdict::Admit);
    assert_eq!(stages.last(), Some(&AdmissionStage::CleanRevalidate));
    let data = emit_admission_verdict(&report, "owner/repo", "main", &owned(&["linux"]), AT);
    assert_eq!(data.text_field("verdict").map(String::as_str), Some("admit"));
    assert!(!print_admission_verdict(&report).is_empty());
}

#[test]
fn a_look_defers_and_never_cancels() {
    let mut admission = begin_admission(false);
    let superseded = cancellation(31, RunCancellationReason::SupersededPullRequestHead);
    let reply = AdmissionReply::Inspected { candidates: vec![superseded], blocking: vec![40] };
    assert!(matches!(
        admission_clean_command(&mut admission, AdmissionStage::Observe, reply),
        AdmissionStep::Next(AdmissionStage::Load)
    ));
    let reply = AdmissionReply::Pending(Vec::new());
    match admission_clean_command(&mut admission, AdmissionStage::Load, reply) {
        AdmissionStep::Verdict(report) => {
            assert_eq!(report.verdict, AdmissionVerdict::Defer);
            assert_eq!(report.blockers, [31, 40]);
        }
        other => panic!("{other:?}"),
    }
    assert!(matches!(
        admission_step(AdmissionStage::Lock, AdmissionReply::Busy, true),
        AdmissionStep::Verdict(report) if report.verdict == AdmissionVerdict::Defer
    ));
    assert!(matches!(
        admission_step(AdmissionStage::Authority, AdmissionReply::Authority(false), true),
        AdmissionStep::Verdict(report) if report.reason == "mutation_authority_required"
    ));
}

#[test]
fn verdicts_have_their_own_exit_codes() {
    let codes = [
        AdmissionVerdict::Admit.exit_code(),
        AdmissionVerdict::Defer.exit_code(),
        AdmissionVerdict::Error.exit_code(),
    ];
    assert_eq!(codes[0], 0);
    assert!(codes[0] != codes[1] && codes[1] != codes[2] && codes[0] != codes[2]);
    assert_eq!(bounded_admission_error("short"), "short");
    let cut = bounded_admission_error(&format!("a{}", "é".repeat(5_000)));
    assert_eq!(cut, format!("a{}...[truncated]", "é".repeat(2_047)));
}

#[test]
fn admission_targets_are_normalized() {
    let target = |repo: &str, base: &str, labels: &[&str]| {
        normalize_admission_target(&AdmissionCleanArgs {
            repo: repo.to_owned(),
            base: base.to_owned(),
            labels: owned(labels),
            apply: false,
        })
    };
    let (repo, base, labels) =
        target("Owner/Repo", "main", &[" X64", "Self-Hosted", "linux"]).expect("a target");
    assert_eq!((repo.as_str(), base.as_str()), ("Owner/Repo", "main"));
    assert_eq!(labels, ["linux", "self-hosted", "x64"]);
    let listed: Vec<&str> = labels.iter().map(String::as_str).collect();
    assert_eq!(target(&repo, &base, &listed), Ok((repo, base, labels.clone())));
    for (repo, base, labels) in [
        ("repo", "main", vec!["self-hosted"]),
        ("owner/re/po", "main", vec!["self-hosted"]),
        ("owner/repo", "a..b", vec!["self-hosted"]),
        ("owner/repo", "", vec!["self-hosted"]),
        ("owner/repo", "main", vec![]),
        ("owner/repo", "main", vec!["self-hosted", "x64", "X64"]),
        ("owner/repo", "main", vec!["linux"]),
    ] {
        assert_eq!(target(repo, base, &labels).expect_err("refused").code, 2);
    }
    assert!(normalize_provenance_blocking_labels(&owned(&["a"])).is_ok());
    assert!(normalize_provenance_blocking_labels(&owned(&[" "])).is_err());
}

#[test]
fn an_observation_lock_is_named_by_its_target() {
    let lock = |base: &str, labels: &[&str]| {
        try_acquire_admission_observation_lock("owner/repo", base, &owned(labels)).expect("a name")
    };
    assert_eq!(lock("main", &["linux"]), lock("main", &["linux"]));
    assert_ne!(lock("main", &["linux"]), lock("next", &["linux"]));
    assert_ne!(lock("main", &["linux"]), lock("main", &["linux", "x64"]));
    assert_ne!(lock("main", &["a", "b"]), lock("main", &["a\",\"b"]));
}

#[test]
fn jobs_claim_a_runner_that_has_their_labels() {
    let labels = owned(&["self-hosted", "linux", "x64"]);
    assert!(job_can_claim_runner(&job(1, "linux", None), &labels));
    assert!(!job_can_claim_runner(&job(1, "linux", None), &owned(&["self-hosted"])));
    let head = "c".repeat(40);
    let jobs = vec![job(1, "linux", None)];
    assert_eq!(
        admission_claim(&group_run(31, "queued", &head), &jobs, &labels),
        AdmissionClaim::Cancellable
    );
    assert_eq!(
        admission_claim(&group_run(31, "in_progress", &head), &jobs, &labels),
        AdmissionClaim::Blocking
    );
    assert_eq!(
        admission_claim(&group_run(31, "queued", &head), &vec![], &labels),
        AdmissionClaim::Harmless
    );
    assert_eq!(running_as_queued(&vec![group_run(31, "in_progress", &head)])[0].status, "queued");
    let superseded = cancellation(31, RunCancellationReason::SupersededPullRequestHead);
    assert!(admission_inspection(&vec![superseded], &vec![]).is_ok());
    assert!(admission_inspection(&vec![superseded], &vec![superseded]).is_ok());
    assert!(admission_inspection(&vec![superseded; 26], &vec![superseded; 25]).is_err());
    let authority = (BTreeMap::from([(7, head.clone())]), vec![8]);
    let groups: BTreeMap<u64, String> = BTreeMap::new();
    assert!(fence_admission_authority(&authority, &groups, &authority, &groups).is_ok());
    let moved = (BTreeMap::from([(7, "d".repeat(40))]), vec![8]);
    assert!(fence_admission_authority(&authority, &groups, &moved, &groups).is_err());
}

fn producers(run_id: u64) -> BTreeMap<u64, JobCheckProducer> {
    BTreeMap::from([(
        3,
        JobCheckProducer { run_id, job_id: 3, name: "linux".to_owned(), app_id: Some(15_368) },
    )])
}

#[test]
fn a_merge_group_is_scanned_run_by_run() {
    let mut seen = observation(vec![pr(7, &[MANAGED], Some(1))]);
    let head = "c".repeat(40);
    seen.runs = vec![
        group_run(30, "queued", &"d".repeat(40)),
        group_run(31, "queued", &head),
        group_run(32, "queued", &head),
    ];
    let group = TargetGroup { pr: 0, queue_position: 1, merge_group_head: head };
    let scan_with = |detail: Result<&str, &str>| {
        let mut taken = Vec::new();
        let mut scan = DispatchScan::new(&seen, &group).expect("an observed pull request");
        loop {
            let action = scan.action();
            taken.push(action);
            let reply = match action {
                ScanAction::ReadProducers => ScanReply::Producers(Ok(producers(31))),
                ScanAction::ReadJobs(1) => ScanReply::Jobs(Ok(vec![
                    job(2, "docs", None),
                    job(3, "linux", None),
                    job(4, "linux", Some("runner-1")),
                ])),
                ScanAction::ReadJobs(_) => ScanReply::Jobs(Ok(Vec::new())),
                ScanAction::ReadDetail(_) => {
                    ScanReply::Detail(detail.map(json).map_err(str::to_owned), AT.to_owned())
                }
                ScanAction::Over => {
                    return (finish_dispatch_scan(scan).expect("the end"), taken);
                }
            };
            scan = collect_dispatch_wedge_job_observations(scan, reply);
        }
    };
    let stuck = r#"{"id":3,"name":"linux","status":"queued","labels":["self-hosted"]}"#;
    let (found, taken) = scan_with(Ok(stuck));
    assert_eq!(
        taken,
        [
            ScanAction::ReadProducers,
            ScanAction::ReadJobs(1),
            ScanAction::ReadDetail(3),
            ScanAction::ReadJobs(2),
            ScanAction::Over,
        ]
    );
    let found = found.expect("read");
    assert_eq!(found.len(), 1);
    assert_eq!((found[0].workflow_run_id, found[0].job_id), (31, 3));
    assert_eq!(found[0].first_observed_unassigned_at, AT);
    let taken_up = r#"{"id":3,"name":"linux","status":"in_progress","labels":[]}"#;
    let (found, _) = scan_with(Ok(taken_up));
    assert!(found.expect("read").is_empty());
    let (found, taken) = scan_with(Err("HTTP 502"));
    assert_eq!(found.expect_err("unread"), "HTTP 502");
    assert_eq!(taken.len(), 4);
    let (found, _) = scan_with(Ok("{}"));
    assert_eq!(found.expect_err("malformed"), "workflow job missing name");
}

#[test]
fn a_stuck_job_is_required_and_has_no_runner() {
    let seen = observation(vec![pr(7, &[MANAGED], Some(1))]);
    let target = DispatchWedgeTargetRequest {
        base_ref: "main".to_owned(),
        pull_request: 7,
        expected_head_sha: seen.prs[0].fact.head_sha.clone(),
    };
    let group =
        observe_dispatch_wedge_target_from_repository(&seen, &target).expect("a queued target");
    assert_eq!((group.pr, group.queue_position), (0, 1));
    let run = group_run(31, "queued", &group.merge_group_head);
    let stuck = job(3, "linux", None);
    assert!(is_unassigned(&stuck));
    assert!(!is_unassigned(&job(3, "linux", Some("runner-1"))));
    assert!(wants_detail(&stuck, &seen.required_checks));
    assert!(!wants_detail(&job(4, "docs", None), &seen.required_checks));
    assert_eq!(
        current_required_dispatch_job(&stuck, &stuck, 31, &seen.required_checks, &producers(31)),
        Some(0)
    );
    let owned_check = vec![RequiredCheck { context: "linux".to_owned(), app_id: Some(15_368) }];
    assert_eq!(
        current_required_dispatch_job(&stuck, &stuck, 31, &owned_check, &producers(31)),
        Some(0)
    );
    assert_eq!(
        current_required_dispatch_job(&stuck, &stuck, 31, &owned_check, &producers(32)),
        None
    );
    let found = dispatch_job_authority(
        &seen,
        &group,
        &run,
        &stuck,
        &stuck,
        &producers(31),
        AT,
    )
    .expect("a stuck job");
    assert_eq!((found.pull_request, found.job_id), (7, 3));
    assert_eq!(found.required_context, "linux");
    assert_eq!(found.runner_name, None);
    let assigned = job(3, "linux", Some("runner-1"));
    assert!(dispatch_job_authority(
        &seen,
        &group,
        &run,
        &stuck,
        &assigned,
        &producers(31),
        AT
    )
    .is_none());
    let mut moved = target.clone();
    moved.expected_head_sha = "0".repeat(40);
    assert!(observe_dispatch_wedge_target_from_repository(&seen, &moved).is_none());
    let targets = vec![target, moved];
    let batch = observe_dispatch_wedge_targets(&targets);
    assert_eq!(batch.base(0).map(String::as_str), Some("main"));
    assert_eq!(batch.base(1), None);
}

fn entry(number: u64, position: u64, head: Option<&str>) -> QueueEntry {
    QueueEntry {
        number,
        position,
        enqueued_at: AT.to_owned(),
        head: head.map(str::to_owned),
    }
}

#[test]
fn a_queue_is_read_page_by_page() {
    let page = |next: &str| {
        format!(
            r#"{{"data":{{"repository":{{"mergeQueue":{{"entries":{{"nodes":[{{"position":1,"enqueuedAt":"{AT}","headCommit":{{"oid":"{}"}},"pullRequest":{{"number":7}}}}],"pageInfo":{next}}}}}}}}}}}"#,
            "c".repeat(40)
        )
    };
    let document = |text: &str| QueueReply::Document {
        value: json(text),
        unavailable: false,
        text: text.to_owned(),
    };
    let last = page(r#"{"hasNextPage":false,"endCursor":null}"#);
    match load_merge_queue_snapshot_once(QueueRead::new(), document(&last)) {
        QueueNext::Complete(snapshot, pages) => {
            assert_eq!(pages, 1);
            assert_eq!(snapshot.entries.len(), 1);
            assert!(!needs_confirmation(&snapshot, pages));
            assert_eq!(
                live_queue_front(&snapshot).map(|front| front.0),
                Some("c".repeat(40))
            );
        }
        other => panic!("{other:?}"),
    }
    let more = page(r#"{"hasNextPage":true,"endCursor":"c1"}"#);
    match load_merge_queue_snapshot_once(QueueRead::new(), document(&more)) {
        QueueNext::More(read) => {
            assert_eq!(read.cursor.as_deref(), Some("c1"));
            let query = queue_page_args("owner/repo", "main", &read.cursor).expect("a slug");
            assert!(query.contains(&"cursor=c1".to_owned()), "{query:?}");
        }
        other => panic!("{other:?}"),
    }
    match load_merge_queue_snapshot_once(QueueRead::new(), document(&more)) {
        QueueNext::More(read) => assert!(
            matches!(
                load_merge_queue_snapshot_once(read, document(&last)),
                QueueNext::Failed(error) if error.contains("repeated PR #7")
            ),
            "pages that overlap are refused"
        ),
        other => panic!("{other:?}"),
    }
    let failed = QueueReply::Failed { error: "HTTP 500".to_owned(), unavailable: false };
    assert!(matches!(
        load_merge_queue_snapshot_once(QueueRead::new(), failed),
        QueueNext::Failed(_)
    ));
}

#[test]
fn a_long_queue_must_not_move_while_it_is_read() {
    let snapshot = |position: u64| MergeQueueSnapshot {
        enabled: true,
        entries: vec![entry(7, position, Some("front"))],
    };
    assert!(needs_confirmation(&snapshot(1), 2));
    assert!(merge_queue_snapshot(snapshot(1), 2, &snapshot(1), 2).is_ok());
    assert!(merge_queue_snapshot(snapshot(1), 2, &snapshot(2), 2).is_err());
    assert!(merge_queue_snapshot(snapshot(1), 2, &snapshot(1), 3).is_err());
    let entries = vec![entry(8, 2, None), entry(7, 1, Some("front"))];
    assert_eq!(front_entry(&entries), Some(1));
    assert_eq!(merge_group_heads(&entries), BTreeMap::from([(7, "front".to_owned())]));
}

/// A walk over the front of a queue whose group is built on `parent`, and what was
/// read.
fn witness_front(
    ledger: &mut StewardLedger,
    parent: &str,
    base_after: &str,
    saved: Result<(), String>,
) -> (Result<(), String>, Vec<String>) {
    let base = "b".repeat(40);
    let required = || vec![RequiredCheck { context: "linux".to_owned(), app_id: None }];
    let seen = observation(vec![pr(8, &[MANAGED], Some(2)), pr(7, &[MANAGED], Some(1))]);
    let steward = args(true);
    let mut walk = WitnessWalk::new(&steward, &seen, AT);
    let mut taken = Vec::new();
    let mut base_reads = 0;
    loop {
        let action = walk.action();
        taken.push(format!("{action:?}"));
        let reply = match action {
            WitnessAction::ReadBase => {
                base_reads += 1;
                let sha = if base_reads == 1 { base.clone() } else { base_after.to_owned() };
                WitnessReply::Base(Ok(sha))
            }
            WitnessAction::ReadRequired => WitnessReply::Required(Ok(required())),
            WitnessAction::ReadQueue => WitnessReply::Queue(Ok((
                true,
                vec![entry(8, 2, Some("other")), entry(7, 1, Some(&"c".repeat(40)))],
            ))),
            WitnessAction::ReadPullRequest(i) => {
                assert_eq!(walk.entries().len(), 2);
                assert_eq!(walk.required_before().len(), 1);
                WitnessReply::PullRequest(Ok(Some((seen.prs[i].clone(), true))))
            }
            WitnessAction::ReadGroup(head) => {
                assert_eq!(head, "c".repeat(40));
                WitnessReply::Group(Ok(json(&format!(r#"{{"parents":[{{"sha":"{parent}"}}]}}"#))))
            }
            WitnessAction::Save => WitnessReply::Saved(saved.clone()),
            WitnessAction::Told(outcome) => return (outcome, taken),
        };
        walk = record_queue_witnesses(walk, reply, ledger);
    }
}

#[test]
fn the_front_of_the_queue_is_witnessed_on_an_unmoved_base() {
    let base = "b".repeat(40);
    let mut ledger = StewardLedger::new();
    let (outcome, taken) = witness_front(&mut ledger, &base, &"d".repeat(40), Ok(()));
    assert_eq!(outcome, Ok(()));
    assert_eq!(ledger.queue_witnesses.len(), 0, "the base moved");
    assert!(!taken.contains(&"Save".to_owned()));

    let (outcome, taken) = witness_front(&mut ledger, &"e".repeat(40), &base, Ok(()));
    assert_eq!(outcome, Ok(()));
    assert_eq!(ledger.queue_witnesses.len(), 0, "the group is built on another base");
    assert_eq!(taken.iter().filter(|action| *action == "ReadBase").count(), 1);

    let (outcome, taken) = witness_front(&mut ledger, &base, &base, Ok(()));
    assert_eq!(outcome, Ok(()));
    assert_eq!(ledger.queue_witnesses.len(), 1);
    assert_eq!(taken[3], "ReadPullRequest(1)", "the front of the queue alone is read");
    assert_eq!(taken[taken.len() - 2], "Save");
    let left = pr(7, &[MANAGED], None);
    let witness = recovery_witness(&ledger, "owner/repo", "main", &left).expect("a witness");
    assert_eq!((witness.position, witness.base_sha.as_str()), (1, base.as_str()));

    let failed = Err("disk full".to_owned());
    let (outcome, _) = witness_front(&mut ledger, &base, &base, failed);
    assert_eq!(
        outcome,
        Err("could not persist merge-queue recovery witness: disk full".to_owned())
    );
}

#[test]
fn evidence_is_used_once() {
    let mut ledger = StewardLedger::new();
    let head = "c".repeat(40);
    let base = "b".repeat(40);
    let required = vec![RequiredCheck { context: "linux".to_owned(), app_id: None }];
    let seen = pr(7, &[MANAGED], Some(1));
    let mut witness = |after: &str| {
        let outcome = record_queue_witness(
            &mut ledger,
            "owner/repo",
            "main",
            &vec![entry(7, 1, Some(&head))],
            &seen,
            &seen,
            MANAGED,
            true,
            true,
            &base,
            after,
            &required,
            &required,
            AT,
        );
        (outcome, ledger.queue_witnesses.len())
    };
    assert_eq!(witness(&"d".repeat(40)), (WitnessOutcome::Moved, 0));
    assert_eq!(witness(&base), (WitnessOutcome::Recorded, 1));
    let left = pr(7, &[MANAGED], None);
    let recorded = recovery_witness(&ledger, "owner/repo", "main", &left).expect("a witness");
    assert_eq!(recorded.merge_group_head, head);
    let evidence =
        recovery_evidence(&ledger, recorded, "2026-08-27T08:00:00Z", 31, 3).expect("unused");
    let receipt = QueueRecoveryReceipt {
        repo: "owner/repo".to_owned(),
        base: "main".to_owned(),
        pr_number: 7,
        pr_head: seen.fact.head_sha.clone(),
        base_sha: base.clone(),
        merge_group_head: head.clone(),
        removed_at: "2026-08-27T08:00:00Z".to_owned(),
        run_id: 31,
        job_id: 3,
        attempted_at: AT.to_owned(),
        phase: QueueRecoveryPhase::Intent,
    };
    let recorded = recorded.clone();
    ledger.queue_recovery_receipts.insert(receipt_key(&evidence), receipt);
    assert!(recovery_evidence(&ledger, &recorded, "2026-08-27T08:00:00Z", 31, 3).is_none());
}

#[test]
fn queue_control_tells_what_it_did() {
    let (name, data) = merge_queue_control_command(QueueControl::Resume { changed: true });
    assert_eq!(name, "merge-queue.resume");
    assert!(matches!(data.get("changed"), Some(Json::Bool(true))));
    assert_eq!(
        print_control(&QueueControl::Resume { changed: false }),
        ["merge-queue mutations were already active"]
    );
    assert_eq!(
        print_control(&QueueControl::Hold { path: "/state/hold".to_owned() }),
        ["merge-queue mutations held (/state/hold)"]
    );
    let status = QueueControl::Status {
        held: Some(json(r#"{"reason":"deploy"}"#)),
        path: "/state/hold".to_owned(),
        uncertain: Vec::new(),
        authority: json(r#"{"machine":"m3","mutation_machine":"m3","authority_matches":true}"#),
    };
    assert_eq!(
        print_control(&status),
        ["held: deploy", "authority: machine=m3 configured=m3 matches=true"]
    );
    let (name, data) = merge_queue_control_command(status);
    assert_eq!(name, "merge-queue.status");
    assert!(matches!(data.get("machine"), Some(Json::Text(text)) if text == "m3"));
    assert_eq!(required_reason("  why ").expect("a reason"), "why");
    assert!(required_reason(" ").is_err());
    assert_eq!(
        resolve_command(" id ", " applied ", " why "),
        Ok(("id".to_owned(), "applied".to_owned(), "why".to_owned()))
    );
}

#[test]
fn a_request_is_stored_under_the_lease() {
    let mut ask = Ask { id: "request-1".to_owned(), created: false };
    let mut step = |stage: AskStage, reply: AskReply| {
        enqueue_recovery_request(&mut ask, stage, reply)
    };
    assert!(matches!(
        step(AskStage::Lease, AskReply::Covers(false)),
        AskStep::Failed(_)
    ));
    assert!(matches!(
        step(AskStage::Lease, AskReply::Covers(true)),
        AskStep::Next(AskStage::Enqueue)
    ));
    assert!(matches!(
        step(AskStage::Enqueue, AskReply::Created),
        AskStep::Next(AskStage::Witness)
    ));
    assert!(matches!(
        step(AskStage::Witness, AskReply::Done),
        AskStep::Answer(RecoveryEnqueueDisposition::Created(id)) if id == "request-1"
    ));
    assert!(matches!(
        step(AskStage::Policy, AskReply::Disabled),
        AskStep::Answer(RecoveryEnqueueDisposition::Disabled)
    ));
    assert!(matches!(
        step(AskStage::Policy, AskReply::Unloadable("no such file".to_owned())),
        AskStep::Failed(failure) if failure.message
            == "failed to load trusted recovery-worker policy: no such file"
    ));
    assert!(matches!(
        step(AskStage::Policy, AskReply::Failed("no path for owner/repo".to_owned())),
        AskStep::Failed(failure) if failure.message == "no path for owner/repo"
    ));
}

#[test]
fn requests_are_reconciled_under_the_lease() {
    let request = |number: u64| WorkerRequest {
        id: format!("request-{number}"),
        repo: "owner/repo".to_owned(),
        pr: number,
        head_sha: "head".to_owned(),
    };
    let run = |apply: bool, there: bool, lease: bool, requests: u64| {
        let mut stages = Vec::new();
        let mut worker = Worker::new(apply);
        loop {
            stages.push(worker.stage());
            let reply = match worker.stage() {
                WorkerStage::Look => WorkerReply::Got(there),
                WorkerStage::Open => WorkerReply::Done,
                WorkerStage::Lease => WorkerReply::Got(lease),
                WorkerStage::ListDeferred | WorkerStage::Reconcile => {
                    WorkerReply::Listed(vec![request(1)])
                }
                WorkerStage::List => WorkerReply::Listed((2..2 + requests).map(request).collect()),
                WorkerStage::Process => WorkerReply::Worked {
                    action: "worked".to_owned(),
                    detail: String::new(),
                    failed: worker.request().expect("a request").pr == 2,
                },
                WorkerStage::Render => break,
            };
            worker = process_durable_requests(worker, reply).expect("no failure");
        }
        let (reports, code) = finish_durable_requests(worker).expect("the end");
        let told: Vec<(u64, String)> =
            reports.into_iter().map(|report| (report.pr, report.action)).collect();
        (stages, told, code)
    };
    let named = |told: &[(u64, &str)]| -> Vec<(u64, String)> {
        told.iter().map(|(pr, action)| (*pr, (*action).to_owned())).collect()
    };
    let (stages, told, code) = run(true, true, true, 2);
    assert_eq!(
        stages[..5],
        [
            WorkerStage::Look,
            WorkerStage::Open,
            WorkerStage::Lease,
            WorkerStage::Reconcile,
            WorkerStage::List,
        ]
    );
    assert_eq!(told, named(&[(1, "failed_orphaned_running"), (2, "worked"), (3, "worked")]));
    assert_eq!(code, 1, "a failed request does not stop the next one");
    let (stages, told, code) = run(true, false, false, 2);
    assert!(!stages.contains(&WorkerStage::Reconcile));
    assert_eq!((told, code), (named(&[(1, "deferred_global_capacity")]), 0));
    let (stages, told, code) = run(false, true, true, 0);
    assert_eq!(
        stages,
        [WorkerStage::Look, WorkerStage::Open, WorkerStage::List, WorkerStage::Render]
    );
    assert_eq!((told.len(), code), (0, 0));
    assert_eq!(run(false, false, true, 1).0, [WorkerStage::Look, WorkerStage::Render]);
    let worker = process_durable_requests(Worker::new(true), WorkerReply::Got(true));
    let failed = WorkerReply::Failed("no".to_owned());
    let failure = process_durable_requests(worker.expect("open"), failed).expect_err("unopened");
    assert_eq!(failure.message, "failed to open recovery store: no");
    let reports = reconcile_orphaned_requests(&vec![request(7)], WorkerNote::Orphaned);
    assert_eq!((reports[0].request_id.as_str(), reports[0].pr), ("request-7", 7));
}

#[test]
fn the_worker_is_bounded_and_canonical() {
    let command = |once: bool, drain: bool, enabled: bool| {
        recovery_worker_command(&RecoveryWorkerCommandArgs { once, drain, apply: true }, enabled)
    };
    assert_eq!(command(true, false, true), Ok(1));
    assert_eq!(command(false, true, true), Ok(32));
    assert_eq!(command(true, true, true).expect_err("both").code, 2);
    assert_eq!(command(false, false, false).expect_err("disabled").code, 1);
    let path = |parts: &[&str]| -> Vec<Vec<u8>> {
        parts.iter().map(|part| part.as_bytes().to_vec()).collect()
    };
    let (global, state) = (path(&["/", "g"]), path(&["/", "s"]));
    let check = |used: &Vec<Vec<u8>>| {
        ensure_canonical_recovery_paths(&global, used, &global, &state, "/g", "/s")
    };
    assert!(check(&path(&["/", "s"])).is_ok());
    assert!(check(&path(&["/", "s", "more"])).is_err());
    let refused = check(&path(&["/", "other"])).expect_err("another place");
    assert!(refused.message.contains("(global=/g, state=/s)"));
}

#[test]
fn listings_are_read_to_their_end() {
    assert_eq!(next_page(100, 1, "too long"), Ok(Paging::More));
    assert_eq!(next_page(99, 1, "too long"), Ok(Paging::Complete));
    assert_eq!(next_page(100, u64::MAX, "too long"), Err("too long".to_owned()));
    assert!(gh_json(&Ok("{".to_owned()), "thing").is_err());
    assert!(gh_json(&Err("HTTP 500".to_owned()), "thing").is_err());
    assert!(gh_json(&Ok("{}".to_owned()), "thing").is_ok());
}

#[test]
fn documents_are_read_as_the_provider_writes_them() {
    assert_eq!(
        canonical_repo_name(&json(r#"{"full_name":"Owner/Repo"}"#)),
        Ok("Owner/Repo".to_owned())
    );
    let url = "https://github.com/owner/repo/actions/runs/12/job/34";
    assert_eq!(run_id_from_url(url), Some(12));
    assert_eq!(run_and_job_id_from_url(url), Some((12, 34)));
    assert_eq!(run_id_from_url("https://example.test/12"), None);
    let parsed = parse_job(&json(
        r#"{"id":3,"name":"linux","status":"queued","conclusion":null,"labels":["self-hosted"],"runner_name":""}"#,
    ))
    .expect("a job");
    assert_eq!((parsed.id, parsed.name.as_str()), (3, "linux"));
    assert!(parse_job(&json("{}")).is_err());
    let parsed = parse_run(&json(&format!(
        r#"{{"id":31,"workflow_id":5,"run_attempt":1,"name":"build","head_sha":"{}","head_branch":"feature","status":"queued","event":"pull_request","created_at":"{AT}","pull_requests":[{{"number":7}}]}}"#,
        "a".repeat(40)
    )))
    .expect("a run");
    assert_eq!((parsed.id, parsed.pull_request_number), (31, Some(7)));
    assert!(parse_run(&json("{}")).is_none());
    let check = parse_rest_check(&json(&format!(
        r#"{{"id":9,"name":"linux","status":"completed","conclusion":"success","details_url":"{url}","app":{{"id":15368}}}}"#
    )))
    .expect("a check");
    assert_eq!((check.run_id, check.app_id), (Some(12), Some(15_368)));
    let listing = json(r#"[]"#);
    assert_eq!(pull_requests(&listing, &Vec::new()).expect("a listing").len(), 0);
}

#[test]
fn a_requirement_may_be_bound_to_its_producer() {
    let free = RequiredCheck { context: "linux".to_owned(), app_id: None };
    let bound = RequiredCheck { context: "macos".to_owned(), app_id: Some(15_368) };
    assert!(!binds_producer(&vec![free.clone()]));
    assert!(binds_producer(&vec![free, bound]));
    assert!(!binds_producer(&Vec::new()));
}

#[test]
fn checks_are_collected_with_their_producers() {
    let page = json(
        r#"{"total_count":1,"check_runs":[{"id":3,"name":"linux","status":"queued","conclusion":null,"details_url":"https://github.com/owner/repo/actions/runs/31/job/3","app":{"id":15368}}]}"#,
    );
    let mut checks = Vec::new();
    assert_eq!(check_runs_for_head(&mut checks, &page, 1), Ok(Paging::Complete));
    assert_eq!(checks.len(), 1);
    let mut found: BTreeMap<u64, JobCheckProducer> = BTreeMap::new();
    assert_eq!(job_check_producers_for_head(&mut found, &page, 1), Ok(Paging::Complete));
    assert_eq!(found.get(&3).map(|producer| producer.run_id), Some(31));
    let settings = json(r#"{"full_name":"owner/repo","allow_auto_merge":true}"#);
    let seen = observe_repo(
        &settings,
        "owner/repo".to_owned(),
        "main",
        true,
        Vec::new(),
        Vec::new(),
        Vec::new(),
        BTreeMap::new(),
        BTreeMap::new(),
        None,
    );
    assert!(seen.allow_auto_merge && seen.merge_queue);
}
