//! The order in which runs are cancelled, rerun and enqueued, and what is kept when
//! a step fails.
use merge_steward::capacity::{
    apply_capacity_preemption, begin_capacity_preemption, CapacityReply, CapacityRun,
    CapacityStage, SkipPoint,
};
use merge_steward::coalesce::{
    apply_run_cancellation, apply_superseded_run_cancellation, attempts_before_rerun, attempts_for,
    CancelReply, CancelStage, CancelStep, CancellationPath,
};
use merge_steward::enqueue::{
    enqueue_args, enqueue_pull_request, enqueue_unstacked_pull_request, response_accepted,
    EnqueueReply, EnqueueStage, EnqueueState, EnqueueStep,
};
use merge_steward::force::{
    begin_force_cancel, force_cancel_nonterminal_run, ForceOrigin, ForceReply, ForceStage,
};
use merge_steward::guard::{
    definitive_cancel_rejection, finish_guard_error, finish_guard_skip, Closing, Flow,
};
use merge_steward::json::{parse_json, Json};
use merge_steward::ledger::{
    attempt_key, pending_cancellation_key, pending_cancellation_key_parts, record_audit,
    PendingCancellation, PendingCancellationPhase, PendingMutationKind, StewardLedger,
};
use merge_steward::model::{
    MutationReport, ObservedPr, RunCancellationReason, StewardCheck, StewardCheckSource,
    StewardDecision, StewardJob, StewardPullRequest, StewardRun,
};
use merge_steward::pending::{
    cancellation_reason_label, clear_pending_cancellation, finish_clear,
    mark_cancellation_accepted, mark_cancellation_skipped, pending_cancellation,
    pending_cancellation_reason, persist_pending_cancellation, reason_code,
    start_capacity_preemption,
};
use merge_steward::queue_recovery::QueueRecoveryEvidence;
use merge_steward::rerun::{
    finish_rollback, mutate_transient_reruns, print_numbers, revalidate_transient_rerun,
    rollback_transient_attempt, run_attempt_allows_transient_rerun, RerunPass, RerunReply,
    RerunStage, TransientRerunRevalidation,
};
use merge_steward::resume::{
    begin_resume, resume_pending_cancellation, AfterSupersede, ClearReason, ResumeReply,
    ResumeStage,
};
use merge_steward::resume_walk::{
    finish_pending_cancellations, resume_pending_cancellations, RecordAction, RecordReply,
    ResumeWalk,
};
use merge_steward::terminal::{
    read_pending_run, read_pending_run_identity, supersede_pending_uncertainty,
    wait_for_run_terminalization, watch_time_left, PendingRunState, Watch,
};

const AT: &str = "2026-08-27T07:00:00Z";

fn head() -> String {
    "a".repeat(40)
}

fn front() -> String {
    "f".repeat(40)
}

fn run(status: &str) -> StewardRun {
    StewardRun {
        id: 31,
        workflow_id: 5,
        run_attempt: 1,
        workflow: "build".to_owned(),
        head_sha: head(),
        head_branch: "feature".to_owned(),
        status: status.to_owned(),
        event: "pull_request".to_owned(),
        pull_request_number: Some(7),
        created_at: AT.to_owned(),
        jobs: Vec::new(),
    }
}

fn job(status: &str, runner: Option<&str>) -> StewardJob {
    StewardJob {
        id: 3,
        name: "linux".to_owned(),
        status: status.to_owned(),
        conclusion: None,
        labels: vec!["self-hosted".to_owned()],
        runner_name: runner.map(str::to_owned),
    }
}

fn pr() -> ObservedPr {
    ObservedPr {
        node_id: "PR_node".to_owned(),
        fact: StewardPullRequest {
            number: 7,
            head_sha: head(),
            head_branch: "feature".to_owned(),
            draft: false,
            merge_state: "CLEAN".to_owned(),
            auto_merge_active: false,
            queue_position: None,
            labels: Vec::new(),
            checks: Vec::new(),
        },
        check_rollup_maybe_truncated: false,
    }
}

fn intent(phase: PendingCancellationPhase) -> PendingCancellation {
    pending_cancellation(
        "owner/repo",
        "main",
        &run("queued"),
        None,
        &front(),
        AT,
        "correlation-1",
        phase,
        RunCancellationReason::AdvisoryPreambleCapacityTheft,
        "shipyard:no-auto-merge",
        &vec!["5·unresolved".to_owned()],
        "shipyard:managed",
        "shipyard/steward-handoff",
    )
    .expect("the run names its pull request")
}

fn capacity_run(reason: RunCancellationReason, key: &str) -> CapacityRun {
    CapacityRun {
        repo: "owner/repo".to_owned(),
        run_id: 31,
        reason,
        front: front(),
        key: key.to_owned(),
        head: head(),
        held: String::new(),
        cleared: None,
    }
}

/// A ledger in which a preemption of the run was started, and the record's key.
fn started(reason: RunCancellationReason) -> (StewardLedger, String) {
    let mut ledger = StewardLedger::new();
    let record = intent(PendingCancellationPhase::Intent);
    let key = pending_cancellation_key(&record);
    start_capacity_preemption(&mut ledger, record, "front", reason, AT);
    (ledger, key)
}

fn qualified() -> CapacityReply {
    CapacityReply::Qualified { head: head(), evidence: "evidence".to_owned() }
}

fn capacity_next(
    run: &mut CapacityRun,
    stage: CapacityStage,
    reply: CapacityReply,
    ledger: &mut StewardLedger,
) -> CapacityStage {
    match apply_capacity_preemption(run, stage, reply, ledger, AT) {
        Flow::Next(stage) => stage,
        other => panic!("{other:?}"),
    }
}

#[test]
fn a_capacity_cancellation_is_sent_after_three_qualifying_reads() {
    let theft = RunCancellationReason::AdvisoryPreambleCapacityTheft;
    let (mut ledger, key) = started(theft);
    assert_eq!(ledger.preemption_attempts.get("owner/repo:front"), Some(&1));
    let mut state = capacity_run(theft, &key);
    let mut stage = CapacityStage::Precancel;
    let mut reads: u32 = 0;
    while stage != CapacityStage::Cancel {
        let reply = match stage {
            CapacityStage::Precancel | CapacityStage::Attempt | CapacityStage::Final => {
                reads += 1;
                qualified()
            }
            _ => CapacityReply::Done,
        };
        stage = capacity_next(&mut state, stage, reply, &mut ledger);
    }
    assert_eq!(reads, 3);
    stage = capacity_next(&mut state, stage, CapacityReply::Done, &mut ledger);
    assert_eq!(stage, CapacityStage::SaveAccepted);
    assert_eq!(
        ledger.pending_cancellations.get(&key).expect("record").phase,
        PendingCancellationPhase::Accepted
    );
    for _ in 0..3u32 {
        stage = capacity_next(&mut state, stage, CapacityReply::Done, &mut ledger);
    }
    assert_eq!(stage, CapacityStage::Wait);
    stage = capacity_next(&mut state, stage, CapacityReply::Ended, &mut ledger);
    assert_eq!(stage, CapacityStage::SaveTerminal);
    assert!(ledger.pending_cancellations.is_empty());
    match apply_capacity_preemption(&mut state, stage, CapacityReply::Done, &mut ledger, AT) {
        Flow::Report(report) => {
            assert_eq!(report.mutation.as_deref(), Some("cancelled_terminal"));
            assert_eq!(report.error, None);
        }
        other => panic!("{other:?}"),
    }
}

#[test]
fn a_disqualified_run_is_skipped_and_never_cancelled() {
    let theft = RunCancellationReason::AdvisoryPreambleCapacityTheft;
    let (mut ledger, key) = started(theft);
    let mut state = capacity_run(theft, &key);
    let stage = capacity_next(
        &mut state,
        CapacityStage::Precancel,
        CapacityReply::Disqualified,
        &mut ledger,
    );
    assert_eq!(stage, CapacityStage::SaveSkip(SkipPoint::Precancel));
    assert_eq!(
        ledger.pending_cancellations.get(&key).expect("record").phase,
        PendingCancellationPhase::Skipped
    );
    let stage = capacity_next(&mut state, stage, CapacityReply::Done, &mut ledger);
    assert_eq!(stage, CapacityStage::FinishSkip(SkipPoint::Precancel));
}

#[test]
fn only_an_advisory_run_is_read_a_third_time() {
    let lower = RunCancellationReason::LowerPriorityBranchPreamble;
    let (mut ledger, key) = started(lower);
    let mut state = capacity_run(lower, &key);
    let stage = capacity_next(
        &mut state,
        CapacityStage::SaveAttempt,
        CapacityReply::Done,
        &mut ledger,
    );
    assert_eq!(stage, CapacityStage::SaveSkip(SkipPoint::Attempt));
    assert!(begin_capacity_preemption(true, true).is_none());
    assert!(begin_capacity_preemption(false, true).is_some());
    assert!(begin_capacity_preemption(true, false).is_some());
}

#[test]
fn a_failed_read_leaves_the_intent_in_place() {
    let theft = RunCancellationReason::AdvisoryPreambleCapacityTheft;
    let (mut ledger, key) = started(theft);
    let mut state = capacity_run(theft, &key);
    let reply = CapacityReply::Failed("HTTP 502".to_owned());
    match apply_capacity_preemption(&mut state, CapacityStage::Final, reply, &mut ledger, AT) {
        Flow::Close(closing) => {
            assert_eq!(closing.outcome(), "final_revalidation_failed");
            assert_eq!(closing.close(None).error.as_deref(), Some("HTTP 502"));
        }
        other => panic!("{other:?}"),
    }
    assert!(ledger.pending_cancellations.contains_key(&key));
}

/// The run's pull request, managed and handed over.
fn permitted() -> ForceReply {
    let mut live = pr();
    live.fact.labels.push("shipyard:managed".to_owned());
    ForceReply::PullRequest { live: Some(live), handed_off: true }
}

fn current_run(attempt: u64) -> Json {
    parse_json(&format!(
        r#"{{"id":31,"workflow_id":5,"run_attempt":{attempt},"name":"build","head_sha":"{}","head_branch":"feature","status":"queued","event":"pull_request","created_at":"{AT}","pull_requests":[{{"number":7}}]}}"#,
        head()
    ))
    .expect("a run")
}

#[test]
fn a_run_is_forced_only_after_its_intent_was_saved() {
    let (mut ledger, key) = started(RunCancellationReason::AdvisoryPreambleCapacityTheft);
    let jobs = vec![job("in_progress", Some("runner-1")), job("completed", None)];
    let mut state = begin_force_cancel(
        ForceOrigin::Fresh,
        "owner/repo",
        31,
        &key,
        "in_progress",
        &jobs,
        &mut ledger,
        AT,
    );
    let mut stages: Vec<ForceStage> = Vec::new();
    let mut stage = ForceStage::SaveIntent;
    loop {
        stages.push(stage);
        let reply = match stage {
            ForceStage::SaveIntent => ForceReply::Intent("correlation-2".to_owned()),
            ForceStage::Authority => permitted(),
            ForceStage::Identity => ForceReply::Run(current_run(1)),
            ForceStage::Wait => ForceReply::Ended,
            _ => ForceReply::Done,
        };
        match force_cancel_nonterminal_run(&mut state, stage, reply, &mut ledger, AT) {
            Flow::Next(next) => stage = next,
            Flow::Report(report) => {
                assert_eq!(report.error, None);
                break;
            }
            other => panic!("{other:?}"),
        }
        if stage == ForceStage::Acquire {
            let record = ledger.pending_cancellations.get(&key).expect("record");
            assert_eq!(record.mutation_kind, PendingMutationKind::ForceCancel);
            assert_eq!(record.mutation_correlation_id, "correlation-2");
        }
    }
    let sent = stages.iter().position(|s| *s == ForceStage::Send).expect("sent");
    let saved = stages.iter().position(|s| *s == ForceStage::SaveCorrelation).expect("saved");
    let allowed = stages.iter().position(|s| *s == ForceStage::Authority).expect("allowed");
    let checked = stages.iter().position(|s| *s == ForceStage::Identity).expect("checked");
    assert!(saved < allowed && allowed < checked && checked < sent);
    assert!(ledger.pending_cancellations.is_empty());
}

#[test]
fn a_rejected_force_is_not_sent() {
    let (mut ledger, key) = started(RunCancellationReason::AdvisoryPreambleCapacityTheft);
    let mut state = begin_force_cancel(
        ForceOrigin::Fresh,
        "owner/repo",
        31,
        &key,
        "queued",
        &Vec::new(),
        &mut ledger,
        AT,
    );
    let failed = || ForceReply::Failed("moved".to_owned());
    for (stage, reply) in [
        (ForceStage::Authority, failed()),
        (ForceStage::Identity, failed()),
        (ForceStage::Identity, ForceReply::Run(current_run(2))),
    ] {
        match force_cancel_nonterminal_run(&mut state, stage, reply, &mut ledger, AT) {
            Flow::Next(stage) => assert_eq!(stage, ForceStage::FinishRejected),
            other => panic!("{other:?}"),
        }
    }
    assert!(state.held.contains("no longer matches pending attempt 1"), "{}", state.held);
}

#[test]
fn a_resumed_force_needs_the_pull_request_as_it_is_now() {
    let (mut ledger, key) = started(RunCancellationReason::AdvisoryPreambleCapacityTheft);
    let mut opted_out = pr();
    opted_out.fact.labels =
        vec!["shipyard:managed".to_owned(), "shipyard:no-auto-merge".to_owned()];
    for origin in [ForceOrigin::Fresh, ForceOrigin::Resumed] {
        let mut state = begin_force_cancel(
            origin,
            "owner/repo",
            31,
            &key,
            "queued",
            &Vec::new(),
            &mut ledger,
            AT,
        );
        let mut step = |stage: ForceStage, reply: ForceReply| {
            match force_cancel_nonterminal_run(&mut state, stage, reply, &mut ledger, AT) {
                Flow::Next(next) => next,
                other => panic!("{other:?}"),
            }
        };
        assert_eq!(step(ForceStage::Acquire, ForceReply::Done), ForceStage::Authority);
        assert_eq!(step(ForceStage::Authority, permitted()), ForceStage::Identity);
        assert_eq!(
            step(ForceStage::Identity, ForceReply::Run(current_run(1))),
            ForceStage::Send
        );
        let live = Some(opted_out.clone());
        assert_eq!(
            step(ForceStage::Authority, ForceReply::PullRequest { live, handed_off: true }),
            ForceStage::FinishRejected
        );
        assert_eq!(
            step(
                ForceStage::Authority,
                ForceReply::PullRequest { live: None, handed_off: false }
            ),
            ForceStage::FinishRejected
        );
        let live = Some(opted_out.clone());
        step(ForceStage::Authority, ForceReply::PullRequest { live, handed_off: true });
        assert_eq!(state.held, "current pull request has the steward opt-out label");
    }
}

#[test]
fn an_uncertain_intent_survives_a_disqualifying_read() {
    let mut ledger = StewardLedger::new();
    let record = intent(PendingCancellationPhase::Intent);
    let key = pending_cancellation_key(&record);
    let (mut state, first) = begin_resume(&key, &record);
    assert_eq!(first, ResumeStage::Read);
    persist_pending_cancellation(&mut ledger, record, AT);
    let mut step = |stage: ResumeStage, reply: ResumeReply| {
        resume_pending_cancellation(&mut state, stage, reply, &mut ledger, AT)
    };
    assert!(matches!(
        step(ResumeStage::Read, ResumeReply::Running),
        Flow::Next(ResumeStage::Uncertainty)
    ));
    assert!(matches!(
        step(ResumeStage::Uncertainty, ResumeReply::Uncertain(true)),
        Flow::Next(ResumeStage::Observe)
    ));
    assert!(matches!(
        step(ResumeStage::Observe, ResumeReply::Observed(true)),
        Flow::Next(ResumeStage::Revalidate)
    ));
    assert!(matches!(
        step(ResumeStage::Revalidate, ResumeReply::Disqualified),
        Flow::Report(report) if report.error.is_some()
    ));
    assert!(ledger.pending_cancellations.contains_key(&key));
}

#[test]
fn a_retried_cancellation_follows_its_saved_request() {
    let mut ledger = StewardLedger::new();
    let record = intent(PendingCancellationPhase::Intent);
    let key = pending_cancellation_key(&record);
    let (mut state, mut stage) = begin_resume(&key, &record);
    persist_pending_cancellation(&mut ledger, record, AT);
    let mut stages: Vec<ResumeStage> = Vec::new();
    let mut ended = false;
    let report = loop {
        stages.push(stage);
        let reply = match stage {
            ResumeStage::Read if ended => ResumeReply::Ended,
            ResumeStage::Read => ResumeReply::Running,
            ResumeStage::Uncertainty => ResumeReply::Uncertain(false),
            ResumeStage::Observe => ResumeReply::Observed(true),
            ResumeStage::Revalidate | ResumeStage::Final => {
                ResumeReply::Qualified { evidence: "evidence".to_owned() }
            }
            ResumeStage::NewIntent => ResumeReply::Intent("correlation-2".to_owned()),
            ResumeStage::Cancel => {
                ended = true;
                ResumeReply::Done
            }
            _ => ResumeReply::Done,
        };
        match resume_pending_cancellation(&mut state, stage, reply, &mut ledger, AT) {
            Flow::Next(next) => stage = next,
            Flow::Report(report) => break report,
            other => panic!("{other:?}"),
        }
    };
    assert_eq!(report.error, None);
    let saved = stages.iter().position(|s| *s == ResumeStage::SaveCorrelation).expect("saved");
    let sent = stages.iter().position(|s| *s == ResumeStage::Cancel).expect("sent");
    assert!(saved < sent);
    assert!(stages
        .contains(&ResumeStage::Supersede(AfterSupersede::Clear(ClearReason::Terminal))));
    assert!(ledger.pending_cancellations.is_empty());
}

#[test]
fn records_are_resumed_in_the_order_of_their_keys() {
    let mut ledger = StewardLedger::new();
    let mut second = intent(PendingCancellationPhase::Accepted);
    second.run_id = 32;
    persist_pending_cancellation(&mut ledger, second, AT);
    persist_pending_cancellation(&mut ledger, intent(PendingCancellationPhase::Intent), AT);
    let mut third = intent(PendingCancellationPhase::Accepted);
    third.repo = "other/repo".to_owned();
    persist_pending_cancellation(&mut ledger, third, AT);
    let before = ledger.audit.len();
    let mut walk = ResumeWalk::new(&ledger.pending_cancellations);
    let mut keys: Vec<String> = Vec::new();
    loop {
        let reply = match walk.action() {
            RecordAction::Over => break,
            RecordAction::Save => RecordReply::Saved(Some("disk full".to_owned())),
            RecordAction::Resume(i) => {
                let (key, record) = walk.record(i).expect("a record");
                keys.push(key.clone());
                if record.run_id == 31 && record.repo == "owner/repo" {
                    RecordReply::Resumed(MutationReport::failed("HTTP 502".to_owned()))
                } else {
                    RecordReply::Resumed(MutationReport::done("recovered_terminal"))
                }
            }
        };
        walk = resume_pending_cancellations(walk, reply, &mut ledger, AT);
    }
    assert_eq!(keys.len(), 3);
    assert!(keys[0] < keys[1] && keys[1] < keys[2]);
    assert_eq!(ledger.audit.len(), before + 1);
    assert_eq!(
        ledger.audit.last().map(|entry| entry.action.as_str()),
        Some("pending_cancellation_recovery_unhealthy")
    );
    let reports = finish_pending_cancellations(walk).expect("the end");
    assert_eq!(reports.len(), 2);
    let own = reports.get("owner/repo").expect("its reports");
    assert_eq!(own.cancellations.len(), 1);
    assert_eq!(own.cancellations[0].run_id, 32);
    assert_eq!(own.cancellations[0].mutation.as_deref(), Some("recovered_terminal"));
    assert_eq!(
        own.errors,
        ["pending cancellation recovery for run 31 failed: HTTP 502; recovery audit persistence also failed: disk full"]
    );
    let other = reports.get("other/repo").expect("its reports");
    assert_eq!((other.cancellations.len(), other.errors.len()), (1, 0));
    let fresh = ResumeWalk::new(&ledger.pending_cancellations);
    assert!(finish_pending_cancellations(fresh).is_err());
}

#[test]
fn a_superseded_run_is_cancelled_after_its_checks() {
    let mut ledger = StewardLedger::new();
    let mut stage = CancelStage::Revalidate;
    let mut stages: Vec<CancelStage> = Vec::new();
    let report = loop {
        stages.push(stage);
        let reply = match stage {
            CancelStage::Acquire | CancelStage::Send | CancelStage::FinishAccepted => {
                CancelReply::Done
            }
            _ => CancelReply::Holds(true),
        };
        match apply_superseded_run_cancellation(
            stage,
            reply,
            "owner/repo",
            &run("queued"),
            None,
            &mut ledger,
            AT,
        ) {
            CancelStep::Next(next) => stage = next,
            CancelStep::Report(report) => break report,
            other => panic!("{other:?}"),
        }
    };
    assert_eq!(report.error, None);
    assert_eq!(
        stages,
        [
            CancelStage::Revalidate,
            CancelStage::Acquire,
            CancelStage::FinalRevalidate,
            CancelStage::FinalAuthority,
            CancelStage::FinalExact,
            CancelStage::Send,
            CancelStage::FinishAccepted,
        ]
    );
    let step = apply_superseded_run_cancellation(
        CancelStage::FinalExact,
        CancelReply::Holds(false),
        "owner/repo",
        &run("queued"),
        None,
        &mut ledger,
        AT,
    );
    assert!(matches!(step, CancelStep::Skip("skipped_after_final_exact_run_check")));
    assert!(matches!(
        apply_run_cancellation(RunCancellationReason::SupersededPullRequestHead, true, true),
        CancellationPath::Superseded
    ));
    assert!(matches!(
        apply_run_cancellation(RunCancellationReason::AdvisoryPreambleCapacityTheft, true, true),
        CancellationPath::Capacity
    ));
}

#[test]
fn a_rerun_follows_its_saved_intent_and_is_counted() {
    let mut ledger = StewardLedger::new();
    let key = attempt_key("owner/repo", 7, &head(), 31);
    let mut pass = RerunPass::new(vec![31]);
    let mut stages: Vec<RerunStage> = Vec::new();
    while pass.stage != RerunStage::Done {
        stages.push(pass.stage);
        let reply = match pass.stage {
            RerunStage::Revalidate => {
                RerunReply::Revalidated(TransientRerunRevalidation::Eligible)
            }
            _ => RerunReply::Done,
        };
        mutate_transient_reruns(
            &mut pass,
            reply,
            "owner/repo",
            7,
            &head(),
            1,
            AT,
            &mut ledger,
        );
    }
    assert_eq!(
        stages,
        [
            RerunStage::Guard,
            RerunStage::SaveIntent,
            RerunStage::Revalidate,
            RerunStage::Send,
            RerunStage::FinishSent,
        ]
    );
    assert_eq!(ledger.transient_attempts.get(&key), Some(&1));
    assert_eq!(pass.rerun, [31]);
    let report = pass.report();
    assert_eq!(report.error, None);
    assert!(report.mutation.expect("a mutation").contains(&print_numbers(&vec![31])));
}

#[test]
fn a_rerun_is_judged_as_if_it_were_not_counted_yet() {
    let mut fact = pr().fact;
    for run_id in [31, 32, 33] {
        fact.checks.push(StewardCheck {
            name: format!("check-{run_id}"),
            source: StewardCheckSource::CheckRun,
            app_id: None,
            check_run_id: None,
            status: "COMPLETED".to_owned(),
            conclusion: None,
            run_id: Some(run_id),
            observed_at: None,
        });
    }
    let mut ledger = StewardLedger::new();
    for (run_id, count) in [(31, 2), (32, 1)] {
        ledger.transient_attempts.insert(attempt_key("owner/repo", 7, &head(), run_id), count);
    }
    let counts = |map: std::collections::BTreeMap<u64, u32>| map.into_iter().collect::<Vec<_>>();
    assert_eq!(
        counts(attempts_for(&ledger, "owner/repo", &fact)),
        [(31, 2), (32, 1), (33, 0)]
    );
    assert_eq!(
        counts(attempts_before_rerun(&ledger, "owner/repo", &fact, 31)),
        [(31, 1), (32, 1), (33, 0)]
    );
    assert_eq!(
        counts(attempts_before_rerun(&ledger, "owner/repo", &fact, 33)),
        [(31, 2), (32, 1), (33, 0)]
    );
}

#[test]
fn a_stale_rerun_gives_its_attempt_back() {
    let mut ledger = StewardLedger::new();
    let key = attempt_key("owner/repo", 7, &head(), 31);
    ledger.transient_attempts.insert(key.clone(), 1);
    let prior = rollback_transient_attempt(
        &mut ledger,
        &key,
        AT,
        "owner/repo",
        31,
        &head(),
        "rolled_back",
    );
    assert_eq!(prior, 1);
    assert_ne!(ledger.transient_attempts.get(&key), Some(&1));
    assert!(finish_rollback(&mut ledger, &key, prior, Err("disk full".to_owned())).is_err());
    assert_eq!(ledger.transient_attempts.get(&key), Some(&1));
}

#[test]
fn reruns_are_bounded_by_the_runs_own_attempts() {
    assert!(run_attempt_allows_transient_rerun(1, 1));
    assert!(!run_attempt_allows_transient_rerun(2, 1));
    assert!(!run_attempt_allows_transient_rerun(1, 0));
    let wanted = StewardDecision::RerunTransient { run_ids: vec![31] };
    let decide = |live: Option<u64>, attempt: u64| {
        let mut seen = run("completed");
        seen.run_attempt = attempt;
        revalidate_transient_rerun(live, &head(), &head(), &wanted, 31, &Some(seen), "timed_out", 1)
    };
    assert_eq!(decide(Some(7), 1), TransientRerunRevalidation::Eligible);
    assert_eq!(
        decide(Some(7), 2),
        TransientRerunRevalidation::Exhausted { accepted_attempts: 1 }
    );
    assert_eq!(decide(None, 1), TransientRerunRevalidation::Stale);
}

fn enqueue(state: EnqueueState, reply: EnqueueReply, ledger: &mut StewardLedger) -> EnqueueStep {
    enqueue_unstacked_pull_request(state, reply, "owner/repo", "main", AT, ledger)
}

const ACCEPTED: &str =
    r#"{"data":{"enqueuePullRequest":{"mergeQueueEntry":{"position":1}}}}"#;

#[test]
fn a_plain_request_follows_a_final_read() {
    let mut ledger = StewardLedger::new();
    let state = match enqueue_pull_request(pr(), Ok(None)) {
        EnqueueStep::Continue(state) => state,
        other => panic!("{other:?}"),
    };
    assert_eq!(state.stage, EnqueueStage::FinalRevalidation);
    let state = match enqueue(state, EnqueueReply::Revalidated(Ok(Some(pr()))), &mut ledger) {
        EnqueueStep::Continue(state) => state,
        other => panic!("{other:?}"),
    };
    assert_eq!(state.stage, EnqueueStage::Send);
    assert!(!enqueue_args(&state).join(" ").contains("jump"));
    let state = match enqueue(state, EnqueueReply::Response(ACCEPTED.to_owned()), &mut ledger) {
        EnqueueStep::Continue(state) => state,
        other => panic!("{other:?}"),
    };
    assert_eq!(state.stage, EnqueueStage::FinishAccepted);
    assert!(response_accepted(ACCEPTED));
    assert!(!response_accepted(r#"{"data":{"enqueuePullRequest":null}}"#));
    assert!(!response_accepted("not JSON"));
}

#[test]
fn a_moved_pull_request_is_not_enqueued() {
    let mut ledger = StewardLedger::new();
    let state = match enqueue_pull_request(pr(), Ok(None)) {
        EnqueueStep::Continue(state) => state,
        other => panic!("{other:?}"),
    };
    match enqueue(state, EnqueueReply::Revalidated(Ok(None)), &mut ledger) {
        EnqueueStep::Close(closing) => {
            assert_eq!(closing.outcome(), "skipped_after_final_live_revalidation");
            let report = closing.close(None);
            assert_eq!(
                report.mutation.as_deref(),
                Some("skipped_after_final_live_revalidation")
            );
        }
        other => panic!("{other:?}"),
    }
    for (stack, outcome, error) in [
        (Err("unreadable".to_owned()), "stack_inspection_failed", "unreadable"),
        (Ok(Some("stacked".to_owned())), "rejected_stacked_pull_request", "stacked"),
    ] {
        match enqueue_pull_request(pr(), stack) {
            EnqueueStep::Close(closing) => {
                assert_eq!(closing.outcome(), outcome);
                assert_eq!(closing.close(None).error.as_deref(), Some(error));
            }
            other => panic!("{other:?}"),
        }
    }
}

#[test]
fn a_jump_follows_its_saved_receipt() {
    let mut ledger = StewardLedger::new();
    let evidence = QueueRecoveryEvidence {
        base_sha: "b".repeat(40),
        merge_group_head: "c".repeat(40),
        removed_at: AT.to_owned(),
        run_id: 31,
        job_id: 3,
    };
    let mut state = EnqueueState {
        stage: EnqueueStage::FinalRevalidation,
        pr: pr(),
        latest: None,
        recovery: Some(evidence.clone()),
    };
    let mut stages: Vec<EnqueueStage> = Vec::new();
    while state.stage != EnqueueStage::Send {
        stages.push(state.stage);
        let reply = match state.stage {
            EnqueueStage::RecoveryEvidence => EnqueueReply::Evidence(Ok(Some(evidence.clone()))),
            EnqueueStage::MutableAuthority | EnqueueStage::ReceiptMutableAuthority => {
                EnqueueReply::Authority(Ok(true))
            }
            EnqueueStage::PersistReceipt => EnqueueReply::Saved(Ok(())),
            _ => EnqueueReply::Revalidated(Ok(Some(pr()))),
        };
        state = match enqueue(state, reply, &mut ledger) {
            EnqueueStep::Continue(state) => state,
            other => panic!("{other:?}"),
        };
    }
    assert!(stages.contains(&EnqueueStage::PersistReceipt));
    assert_eq!(ledger.queue_recovery_receipts.len(), 1);
    assert!(enqueue_args(&state).join(" ").contains("jump:true"));
}

#[test]
fn a_failed_clear_puts_the_record_back() {
    let mut ledger = StewardLedger::new();
    let record = intent(PendingCancellationPhase::Accepted);
    let key = pending_cancellation_key(&record);
    persist_pending_cancellation(&mut ledger, record, AT);
    let taken = clear_pending_cancellation(&mut ledger, &key, "owner/repo", 31, "cleared", AT)
        .expect("record");
    assert!(ledger.pending_cancellations.is_empty());
    assert!(finish_clear(&mut ledger, &key, taken, Err("disk full".to_owned())).is_err());
    assert_eq!(
        ledger.pending_cancellations.get(&key),
        Some(&intent(PendingCancellationPhase::Accepted))
    );
    assert!(
        clear_pending_cancellation(&mut ledger, "nowhere", "owner/repo", 31, "cleared", AT)
            .is_err()
    );
}

#[test]
fn marks_need_a_record() {
    let mut ledger = StewardLedger::new();
    let record = intent(PendingCancellationPhase::Intent);
    let key = pending_cancellation_key(&record);
    assert!(mark_cancellation_skipped(&mut ledger, &key, AT).is_err());
    persist_pending_cancellation(&mut ledger, record, AT);
    assert!(
        mark_cancellation_accepted(&mut ledger, "owner/repo", 31, &head(), &front(), AT).is_ok()
    );
    assert_eq!(
        ledger.pending_cancellations.get(&key).expect("record").phase,
        PendingCancellationPhase::Accepted
    );
    assert!(mark_cancellation_accepted(&mut ledger, "owner/repo", 99, &head(), &front(), AT)
        .is_err());
}

#[test]
fn reasons_are_written_and_read_back() {
    for reason in [
        RunCancellationReason::AdvisoryPreambleCapacityTheft,
        RunCancellationReason::LowerPriorityBranchPreamble,
    ] {
        assert_eq!(pending_cancellation_reason(&cancellation_reason_label(reason)), Ok(reason));
    }
    assert!(pending_cancellation_reason("whim").is_err());
    assert_ne!(
        cancellation_reason_label(RunCancellationReason::SupersededPullRequestHead),
        cancellation_reason_label(RunCancellationReason::SupersededMergeGroupHead)
    );
    assert_eq!(
        reason_code(RunCancellationReason::SupersededMergeGroupHead),
        "SupersededMergeGroupHead"
    );
}

#[test]
fn the_audit_keeps_its_latest_entries() {
    let mut ledger = StewardLedger::new();
    for n in 0..1_005u32 {
        record_audit(&mut ledger, AT, "owner/repo", &format!("run:{n}"), "seen");
    }
    assert_eq!(ledger.audit.len(), 1_000);
    assert_eq!(ledger.audit[0].subject, "run:5");
    assert_eq!(ledger.audit[999].subject, "run:1004");
}

#[test]
fn records_of_different_runs_have_different_keys() {
    let keys = [
        attempt_key("owner/repo", 7, &head(), 31),
        attempt_key("owner/repo", 7, &head(), 3),
        attempt_key("owner/repo", 73, &head(), 1),
        attempt_key("owner/repo", 7, &front(), 31),
    ];
    for (i, key) in keys.iter().enumerate() {
        assert!(!keys[..i].contains(key), "{key}");
    }
    let kept = |run_id: u64, front: &str| {
        pending_cancellation_key_parts("owner/repo", run_id, &head(), front)
    };
    assert_ne!(kept(31, "a"), kept(3, "1:a"));
    assert_ne!(kept(31, "a"), kept(31, "b"));
    assert_eq!(kept(31, &front()), pending_cancellation_key(&intent(
        PendingCancellationPhase::Intent
    )));
}

#[test]
fn closings_tell_what_happened() {
    assert_eq!(finish_guard_skip("skipped", None).mutation.as_deref(), Some("skipped"));
    assert!(finish_guard_skip("skipped", Some("disk full".to_owned())).error.is_some());
    assert_eq!(finish_guard_error("broken", None).error.as_deref(), Some("broken"));
    let closing = Closing::Fail {
        outcome: "failed",
        mutation: None,
        prefix: "could not: ",
        error: "HTTP 500".to_owned(),
    };
    assert_eq!(closing.close(None).error.as_deref(), Some("could not: HTTP 500"));
    assert!(definitive_cancel_rejection("HTTP 409 conflict"));
    assert!(!definitive_cancel_rejection("connection reset"));
}

fn run_document(status: &str, attempt: u64) -> String {
    format!(
        r#"{{"id":31,"workflow_id":5,"run_attempt":{attempt},"name":"build","head_sha":"{}","head_branch":"feature","status":"{status}","event":"pull_request","created_at":"{AT}","pull_requests":[{{"number":7}}]}}"#,
        head()
    )
}

#[test]
fn a_pending_run_is_read_twice_and_must_not_move() {
    let pending = intent(PendingCancellationPhase::Accepted);
    let seen = |status: &str, attempt: u64| {
        read_pending_run_identity(
            &parse_json(&run_document(status, attempt)).expect("JSON"),
            &pending,
        )
    };
    let first = seen("in_progress", 1).expect("the run");
    let last = seen("in_progress", 1).expect("the run");
    match read_pending_run(first, vec![job("in_progress", Some("r"))], &last, &pending) {
        Ok(PendingRunState::NonTerminal(active)) => assert_eq!(active.jobs.len(), 1),
        other => panic!("{other:?}"),
    }
    assert!(seen("in_progress", 2).is_err());
    assert!(!supersede_pending_uncertainty(&pending).is_empty());
}

#[test]
fn a_watch_ends_at_its_deadline() {
    assert_eq!(watch_time_left(31, 100, 250), Ok(150));
    assert!(watch_time_left(31, 250, 250).is_err());
    let running = parse_json(&run_document("in_progress", 1)).expect("JSON");
    assert!(matches!(
        wait_for_run_terminalization(&running, Vec::new(), 0, 15_000),
        Ok(Watch::Again(2_000))
    ));
    assert!(matches!(
        wait_for_run_terminalization(&running, Vec::new(), 15_000, 15_000),
        Ok(Watch::Running(_))
    ));
    let ended = parse_json(&run_document("completed", 1)).expect("JSON");
    assert!(matches!(
        wait_for_run_terminalization(&ended, Vec::new(), 0, 15_000),
        Ok(Watch::Ended)
    ));
}
