//! Arming green pull requests that the steward does not own.
use std::collections::BTreeMap;

use merge_steward::json::parse_json;
use merge_steward::model::{ObservedPr, RepoObservation, StewardDecision, OPT_OUT_LABEL};
use merge_steward::native_arm::{
    apply_native_arm_backstop, consider_candidate, finish_native_arm, queue_state_document,
    read_queue_state, steward_declines_ownership, ArmPass, ArmReply, ArmSkip, ArmStep,
    BackstopAction, BackstopReply, NativeArmRepoStatus, QueueFinding,
};
use merge_steward::observation::parse_pr;
use merge_steward::plan::PrReport;

const CLEAN_ROW: [&str; 4] = ["false", "\"CLEAN\"", "null", "[]"];

fn pr_row(draft: &str, merge_state: &str, auto_merge: &str, labels: &str) -> ObservedPr {
    let row = format!(
        r#"{{"id":"PR_node42","number":42,"state":"OPEN","isDraft":{draft},"baseRefName":"main","headRefOid":"aaaaaaaaaaaaaaaaaaaaaaaaaaaaaaaaaaaaaaaa","headRefName":"feature","mergeStateStatus":{merge_state},"autoMergeRequest":{auto_merge},"labels":{labels}}}"#
    );
    let row = parse_json(&row).expect("JSON row");
    parse_pr(&row, &Vec::new()).expect("PR row")
}

fn clean_pr() -> ObservedPr {
    pr_row(CLEAN_ROW[0], CLEAN_ROW[1], CLEAN_ROW[2], CLEAN_ROW[3])
}

/// Whether a row alone shows a green pull request that is neither armed nor queued.
fn ready(pr: &ObservedPr) -> bool {
    !pr.fact.draft
        && pr.fact.merge_state == "CLEAN"
        && !pr.fact.auto_merge_active
        && pr.fact.queue_position.is_none()
        && !pr.fact.labels.iter().any(|label| label == OPT_OUT_LABEL)
}

fn report(decision: StewardDecision) -> Vec<PrReport> {
    vec![PrReport {
        number: 42,
        head_sha: "a".repeat(40),
        decision,
        mutation: None,
        error: None,
    }]
}

/// The pass over one pull request, and how often its place was read and it was armed.
fn backstop(
    pr: ObservedPr,
    allow_auto_merge: bool,
    decision: StewardDecision,
    finding: QueueFinding,
    reply: ArmReply,
    apply: bool,
) -> (NativeArmRepoStatus, bool, u32, u32) {
    let seen = observation(vec![pr], allow_auto_merge);
    let flags: Vec<bool> = seen.prs.iter().map(ready).collect();
    let reports = report(decision);
    let (mut finding, mut reply) = (Some(finding), Some(reply));
    let (mut reads, mut arms) = (0, 0);
    let mut pass = ArmPass::new(&seen, &reports, &flags, apply);
    loop {
        let answer = match pass.action() {
            BackstopAction::Over => break,
            BackstopAction::Read(i) => {
                assert_eq!(i, 0);
                reads += 1;
                BackstopReply::Found(finding.take().expect("one read"))
            }
            BackstopAction::Arm(i) => {
                assert_eq!(i, 0);
                arms += 1;
                BackstopReply::Asked(reply.take().expect("one request"))
            }
        };
        pass = apply_native_arm_backstop(pass, answer);
    }
    let (status, unhealthy) = finish_native_arm(pass).expect("the end");
    (status, unhealthy, reads, arms)
}

fn observation(prs: Vec<ObservedPr>, allow_auto_merge: bool) -> RepoObservation {
    RepoObservation {
        repo: "owner/repo".to_owned(),
        base: "main".to_owned(),
        allow_auto_merge,
        merge_queue: true,
        required_checks: Vec::new(),
        prs,
        runs: Vec::new(),
        merge_group_heads: BTreeMap::new(),
        merge_group_enqueued_at: BTreeMap::new(),
        preemption_error: None,
    }
}

#[test]
fn each_candidate_has_its_own_result() {
    let numbered = |number: u64| {
        let mut pr = clean_pr();
        pr.fact.number = number;
        pr
    };
    let seen = observation(vec![numbered(41), numbered(42), numbered(43)], true);
    let reports: Vec<PrReport> = [
        StewardDecision::HandoffMissing,
        StewardDecision::ArmMergeQueue,
        StewardDecision::Unmanaged,
    ]
    .into_iter()
    .zip(&seen.prs)
    .map(|(decision, pr)| PrReport {
        number: pr.fact.number,
        head_sha: pr.fact.head_sha.clone(),
        decision,
        mutation: None,
        error: None,
    })
    .collect();
    let pass = ArmPass::new(&seen, &reports, &vec![true, true, true], true);
    assert_eq!(pass.action(), BackstopAction::Read(0));
    let unread = BackstopReply::Found(QueueFinding::Unreadable("HTTP 502".to_owned()));
    let pass = apply_native_arm_backstop(pass, unread);
    assert_eq!(pass.action(), BackstopAction::Read(2));
    let pass = apply_native_arm_backstop(pass, BackstopReply::Asked(ArmReply::Accepted));
    assert_eq!(pass.action(), BackstopAction::Read(2), "nothing was asked to be armed");
    let pass = finish_native_arm(pass).expect_err("one candidate is left");
    let pass = apply_native_arm_backstop(pass, BackstopReply::Found(QueueFinding::Arm));
    assert_eq!(pass.action(), BackstopAction::Arm(2));
    let pass = apply_native_arm_backstop(pass, BackstopReply::Asked(ArmReply::Accepted));
    let (status, unhealthy) = finish_native_arm(pass).expect("the end");
    assert!(unhealthy);
    assert_eq!(
        status.policy,
        "2 candidate(s) confirmed against their merge-queue state before arming"
    );
    let told: Vec<(u64, &str)> =
        status.results.iter().map(|result| (result.number, result.outcome.as_str())).collect();
    assert_eq!(told, [(41, "skipped"), (43, "armed")]);
}

#[test]
fn only_unmanaged_and_handoff_missing_are_the_backstops_business() {
    assert!(steward_declines_ownership(&StewardDecision::Unmanaged));
    assert!(steward_declines_ownership(&StewardDecision::HandoffMissing));
    for owned in [
        StewardDecision::ArmMergeQueue,
        StewardDecision::Queued { position: 0 },
        StewardDecision::OptedOut,
        StewardDecision::Draft,
        StewardDecision::InvalidHead,
        StewardDecision::WaitingRequired { contexts: vec!["macos".to_owned()] },
        StewardDecision::RequiredFailed { contexts: vec!["macos".to_owned()] },
        StewardDecision::RerunTransient { run_ids: vec![1] },
        StewardDecision::ProvenanceBlocked { labels: vec!["5·unresolved".to_owned()] },
        StewardDecision::NeedsUpdate { merge_state: "DIRTY".to_owned() },
    ] {
        assert!(
            !steward_declines_ownership(&owned),
            "{owned:?} is owned by the managed path"
        );
    }
}

#[test]
fn a_pr_the_steward_will_enqueue_is_never_armed_by_the_backstop() {
    let (status, unhealthy, reads, arms) = backstop(
        clean_pr(),
        true,
        StewardDecision::ArmMergeQueue,
        QueueFinding::Arm,
        ArmReply::Accepted,
        true,
    );
    assert!(!unhealthy);
    assert!(status.results.is_empty(), "{status:?}");
    assert!(status.policy.contains("no candidates"));
    assert_eq!((reads, arms), (0, 0));
}

#[test]
fn an_unmanaged_green_unarmed_pr_is_armed_with_merge() {
    let (status, unhealthy, _, arms) = backstop(
        clean_pr(),
        true,
        StewardDecision::Unmanaged,
        QueueFinding::Arm,
        ArmReply::Accepted,
        true,
    );
    assert!(!unhealthy, "{status:?}");
    assert_eq!(status.results.len(), 1);
    assert_eq!(status.results[0].outcome, "armed");
    assert_eq!(status.results[0].number, 42);
    assert_eq!(arms, 1);
}

#[test]
fn without_apply_the_backstop_reports_would_arm_and_mutates_nothing() {
    let (status, unhealthy, _, arms) = backstop(
        clean_pr(),
        true,
        StewardDecision::Unmanaged,
        QueueFinding::Arm,
        ArmReply::Accepted,
        false,
    );
    assert!(!unhealthy);
    assert_eq!(status.results[0].outcome, "would_arm");
    assert_eq!(arms, 0);
}

#[test]
fn a_candidate_the_queue_ejected_on_this_head_is_confirmed_and_refused() {
    let (status, unhealthy, reads, arms) = backstop(
        clean_pr(),
        true,
        StewardDecision::Unmanaged,
        QueueFinding::Skip("ejected".to_owned()),
        ArmReply::Accepted,
        true,
    );
    assert!(!unhealthy, "an ejection is a normal outcome: {status:?}");
    assert_eq!(status.results[0].outcome, "skipped");
    assert_eq!((reads, arms), (1, 0));
}

fn filtered(pr: ObservedPr) {
    let (status, _, reads, arms) = backstop(
        pr,
        true,
        StewardDecision::Unmanaged,
        QueueFinding::Arm,
        ArmReply::Accepted,
        true,
    );
    assert!(status.results.is_empty(), "{status:?}");
    assert_eq!((reads, arms), (0, 0));
}

#[test]
fn a_draft_is_filtered_before_any_github_read() {
    filtered(pr_row("true", CLEAN_ROW[1], CLEAN_ROW[2], CLEAN_ROW[3]));
}

#[test]
fn a_pr_whose_required_checks_are_failing_is_filtered_before_any_github_read() {
    filtered(pr_row(CLEAN_ROW[0], "\"BLOCKED\"", CLEAN_ROW[2], CLEAN_ROW[3]));
}

#[test]
fn an_already_armed_pr_is_filtered_so_repeated_passes_are_idempotent() {
    let armed = r#"{"enabledAt":"2026-09-25T00:00:00Z"}"#;
    filtered(pr_row(CLEAN_ROW[0], CLEAN_ROW[1], armed, CLEAN_ROW[3]));
}

#[test]
fn the_opt_out_label_excludes_a_pr_from_the_backstop() {
    let labels = r#"[{"name":"shipyard:no-auto-merge"}]"#;
    filtered(pr_row(CLEAN_ROW[0], CLEAN_ROW[1], CLEAN_ROW[2], labels));
}

#[test]
fn a_repo_without_native_auto_merge_declines_the_whole_pass() {
    let (status, unhealthy, reads, arms) = backstop(
        clean_pr(),
        false,
        StewardDecision::Unmanaged,
        QueueFinding::Arm,
        ArmReply::Accepted,
        true,
    );
    assert!(!unhealthy);
    assert!(status.policy.contains("does not allow native auto-merge"));
    assert!(status.results.is_empty());
    assert_eq!((reads, arms), (0, 0));
}

#[test]
fn an_unreadable_queue_state_arms_nothing_and_is_reported_unhealthy() {
    let (status, unhealthy, _, arms) = backstop(
        clean_pr(),
        true,
        StewardDecision::Unmanaged,
        QueueFinding::Unreadable("HTTP 502".to_owned()),
        ArmReply::Accepted,
        true,
    );
    assert!(unhealthy, "{status:?}");
    assert_eq!(status.results[0].outcome, "skipped");
    assert!(
        status.results[0]
            .error
            .as_deref()
            .is_some_and(|error| error.contains("refusing to arm blind")),
        "{status:?}"
    );
    assert_eq!(arms, 0);
}

#[test]
fn a_queue_arm_guard_refusal_is_agreement_not_a_failure() {
    let (status, unhealthy, _, arms) = backstop(
        clean_pr(),
        true,
        StewardDecision::Unmanaged,
        QueueFinding::Arm,
        ArmReply::Declined(
            "queue-arm-guard: refusing: PR #42 is already in the merge queue".to_owned(),
        ),
        true,
    );
    assert!(!unhealthy, "a guard refusal must not fail the pass: {status:?}");
    assert_eq!(status.results[0].outcome, "skipped");
    assert!(status.results[0].error.is_none(), "{status:?}");
    assert_eq!(arms, 1);
}

#[test]
fn a_failed_arming_is_unhealthy() {
    for reply in [
        ArmReply::Failed("HTTP 500".to_owned()),
        ArmReply::NotArmed(Some("not mergeable".to_owned())),
    ] {
        let (status, unhealthy, _, _) = backstop(
            clean_pr(),
            true,
            StewardDecision::HandoffMissing,
            QueueFinding::Arm,
            reply,
            true,
        );
        assert!(unhealthy, "{status:?}");
        assert!(status.results[0].error.is_some());
        assert_ne!(status.results[0].outcome, "armed");
    }
}

#[test]
fn a_pull_request_without_a_node_is_not_armed() {
    let mut pr = clean_pr();
    pr.node_id = String::new();
    match consider_candidate(&pr, QueueFinding::Arm, true) {
        ArmStep::Result(result) => {
            assert_eq!(result.outcome, "skipped");
            assert_eq!(
                result.skip,
                Some(ArmSkip::Unknown { detail: "pull request node ID unavailable".to_owned() })
            );
        }
        ArmStep::Request => panic!("armed without an identity"),
    }
}

#[test]
fn a_queue_read_names_its_pull_request() {
    let args = read_queue_state("owner/repo", 42, "query{}").expect("a slug");
    assert!(args.contains(&"owner=owner".to_owned()), "{args:?}");
    assert!(args.contains(&"number=42".to_owned()), "{args:?}");
    assert!(read_queue_state("no-slash", 42, "query{}").is_err());
    let document = queue_state_document(&Ok(r#"{"data":{"repository":null}}"#.to_owned()));
    assert!(document.expect("a document").get("data").is_some());
    let malformed = queue_state_document(&Ok("{".to_owned())).expect_err("malformed");
    assert!(malformed.starts_with("malformed GraphQL JSON: "), "{malformed}");
    let failed = queue_state_document(&Err("HTTP 502".to_owned())).expect_err("unread");
    assert_eq!(failed, "HTTP 502");
}
