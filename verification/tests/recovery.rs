//! When a pull request needs an agent, and how that is told.
use merge_steward::guard::Flow;
use merge_steward::model::{
    MutationReport, ObservedPr, RequiredCheck, StewardCheck, StewardCheckSource, StewardDecision,
    StewardPolicy, StewardPullRequest, MANAGED_LABEL, NEEDS_AGENT_LABEL, RECOVERY_CONTEXT,
    UNMANAGED_LABEL,
};
use merge_steward::recovery::{
    combine_mutations, deferred_recovery_request, enqueue_recovery,
    enqueue_recovery_after_revalidation, failure_contexts, fence_converged_recovery_clear,
    publishes_after_change, reconcile_management_label, reconcile_recovery_signal, recovery_need,
    revalidate_excluded_recovery_clear, revalidate_recovery_queue, revalidate_recovery_target,
    signal_needs_agent, write_recovery_status, ExcludeReply, ExcludeStage, LabelChange,
    PublishReply, PublishStage, RecoveryNeed, RecoveryPath,
};
use merge_steward::signal::{
    failure_fact_component, failure_fingerprint, latest_recovery_state,
    management_label_is_converged, normalized_recovery_facts, signal_is_converged,
    steward_policy_signature, truncate_description, RecoveryFailureFact,
};

fn pr(labels: Vec<&str>, recovery_states: Vec<(&str, &str)>) -> ObservedPr {
    ObservedPr {
        node_id: "PR_node".to_owned(),
        fact: StewardPullRequest {
            number: 7,
            head_sha: "aaaaaaaaaaaaaaaaaaaaaaaaaaaaaaaaaaaaaaaa".to_owned(),
            head_branch: "feature".to_owned(),
            draft: false,
            merge_state: "CLEAN".to_owned(),
            auto_merge_active: false,
            queue_position: None,
            labels: labels.into_iter().map(str::to_owned).collect(),
            checks: recovery_states
                .into_iter()
                .map(|(conclusion, observed_at)| StewardCheck {
                    name: RECOVERY_CONTEXT.to_owned(),
                    source: StewardCheckSource::StatusContext,
                    app_id: None,
                    check_run_id: None,
                    status: "COMPLETED".to_owned(),
                    conclusion: Some(conclusion.to_owned()),
                    run_id: None,
                    observed_at: Some(observed_at.to_owned()),
                })
                .collect(),
        },
        check_rollup_maybe_truncated: false,
    }
}

fn required(context: &str, app_id: Option<u64>) -> RequiredCheck {
    RequiredCheck { context: context.to_owned(), app_id }
}

fn policy(required_checks: Vec<RequiredCheck>, reruns: u32) -> StewardPolicy {
    StewardPolicy {
        merge_queue: true,
        native_auto_merge: true,
        required_checks,
        opt_out_label: "shipyard:no-auto-merge".to_owned(),
        provenance_blocking_labels: vec!["5·unresolved".to_owned()],
        managed_label: Some(MANAGED_LABEL.to_owned()),
        handoff_context: "shipyard/steward-handoff".to_owned(),
        max_transient_reruns: reruns,
    }
}

fn failed_check(
    name: &str,
    source: StewardCheckSource,
    conclusion: &str,
    run_id: Option<u64>,
) -> StewardCheck {
    StewardCheck {
        name: name.to_owned(),
        source,
        app_id: None,
        check_run_id: None,
        status: "COMPLETED".to_owned(),
        conclusion: Some(conclusion.to_owned()),
        run_id,
        observed_at: Some("2026-08-21T08:00:00Z".to_owned()),
    }
}

/// For each failed label, the check of that name.
fn chosen(contexts: &[&str], checks: &[StewardCheck]) -> Vec<Option<StewardCheck>> {
    contexts
        .iter()
        .map(|context| checks.iter().find(|check| check.name == *context).cloned())
        .collect()
}

fn failed(contexts: &[&str]) -> StewardDecision {
    StewardDecision::RequiredFailed {
        contexts: contexts.iter().map(|context| (*context).to_owned()).collect(),
    }
}

fn required_fact(context: &str, conclusion: &str, run_id: Option<u64>) -> RecoveryFailureFact {
    RecoveryFailureFact::RequiredCheck {
        context: context.to_owned(),
        app_id: None,
        conclusion: conclusion.to_owned(),
        run_id,
    }
}

#[test]
fn needs_agent_signal_is_deduplicated_and_latest_status_wins() {
    let signalled = pr(
        vec![NEEDS_AGENT_LABEL],
        vec![
            ("SUCCESS", "2026-08-12T00:00:00Z"),
            ("FAILURE", "2026-08-13T00:00:00Z"),
        ],
    );
    assert!(signal_is_converged(&signalled, true));
    assert!(!signal_is_converged(&signalled, false));

    let cleared = pr(
        vec![],
        vec![
            ("FAILURE", "2026-08-12T00:00:00Z"),
            ("SUCCESS", "2026-08-13T00:00:00Z"),
        ],
    );
    assert!(signal_is_converged(&cleared, false));
    assert!(!signal_is_converged(&cleared, true));
    assert_eq!(latest_recovery_state(&cleared).map(String::as_str), Some("SUCCESS"));
}

#[test]
fn status_without_matching_label_is_repaired_not_treated_as_converged() {
    assert!(!signal_is_converged(
        &pr(vec![], vec![("FAILURE", "2026-08-13T00:00:00Z")]),
        true
    ));
    assert!(!signal_is_converged(
        &pr(vec![NEEDS_AGENT_LABEL], vec![("SUCCESS", "2026-08-13T00:00:00Z")]),
        false
    ));
}

#[test]
fn unmanaged_label_is_deduplicated_and_cleared_after_handoff() {
    assert!(management_label_is_converged(&pr(vec![UNMANAGED_LABEL], vec![]), true));
    assert!(!management_label_is_converged(&pr(vec![], vec![]), true));
    assert!(management_label_is_converged(&pr(vec![], vec![]), false));
    assert!(!management_label_is_converged(
        &pr(vec![UNMANAGED_LABEL, MANAGED_LABEL], vec![]),
        false
    ));
}

#[test]
fn recovery_facts_are_normalized_without_contributor_prose() {
    let contexts = ["macos", "linux", "macos"];
    let checks = [
        failed_check("linux", StewardCheckSource::CheckRun, "FAILURE", Some(101)),
        failed_check("macos", StewardCheckSource::CheckRun, "TIMED_OUT", None),
    ];
    let held = policy(vec![required("linux", None), required("macos", None)], 1);
    let (summary, facts) =
        normalized_recovery_facts(&failed(&contexts), &held, &chosen(&contexts, &checks))
            .expect("unambiguous policy")
            .expect("failure facts");
    assert_eq!(summary, "one or more required checks failed");
    assert_eq!(
        facts,
        vec![
            required_fact("linux", "FAILURE", Some(101)),
            required_fact("macos", "TIMED_OUT", None),
        ]
    );

    let contexts = ["lint (app_id=7)"];
    let checks = [failed_check(
        "lint (app_id=7)",
        StewardCheckSource::StatusContext,
        "FAILURE",
        None,
    )];
    let held = policy(vec![required("lint (app_id=7)", None)], 1);
    let (_, facts) =
        normalized_recovery_facts(&failed(&contexts), &held, &chosen(&contexts, &checks))
            .expect("literal label is unambiguous")
            .expect("failure facts");
    assert_eq!(facts, vec![required_fact("lint (app_id=7)", "FAILURE", None)]);
}

#[test]
fn recovery_policy_signature_is_order_independent_and_sensitive() {
    let linux = required("linux", Some(1));
    let macos = required("macos", None);
    let first = steward_policy_signature(&policy(vec![linux.clone(), macos.clone()], 1));
    let reordered = steward_policy_signature(&policy(vec![macos, linux], 1));
    let changed = steward_policy_signature(&policy(Vec::new(), 2));
    let literal_display =
        steward_policy_signature(&policy(vec![required("lint (app_id=7)", None)], 1));
    let structured_identity = steward_policy_signature(&policy(vec![required("lint", Some(7))], 1));
    assert_eq!(first, reordered);
    assert_ne!(first, changed);
    assert_ne!(literal_display, structured_identity);
}

#[test]
fn a_label_that_two_requirements_share_is_ambiguous() {
    let contexts = ["lint (app_id=7)"];
    let held = policy(vec![required("lint (app_id=7)", None), required("lint", Some(7))], 1);
    assert!(normalized_recovery_facts(&failed(&contexts), &held, &chosen(&contexts, &[])).is_err());
    assert!(
        enqueue_recovery(&failed(&contexts), &held, &chosen(&contexts, &[])).is_err(),
        "an ambiguous failure is not asked for"
    );
}

#[test]
fn a_merge_state_is_a_failure_of_its_own() {
    let dirty = StewardDecision::NeedsUpdate { merge_state: "dirty".to_owned() };
    let (summary, facts) = normalized_recovery_facts(&dirty, &policy(Vec::new(), 1), &Vec::new())
        .expect("no policy is needed")
        .expect("failure facts");
    assert_eq!(summary, "pull request requires an exact-head update");
    assert_eq!(facts, vec![RecoveryFailureFact::MergeState { state: "DIRTY".to_owned() }]);
    assert_eq!(failure_contexts(&facts).len(), 1);
    let other = required_fact("DIRTY", "", None);
    assert_ne!(failure_fact_component(&facts[0]), failure_fact_component(&other));
    assert_ne!(
        failure_fingerprint(&summary, &facts),
        failure_fingerprint(&summary, &vec![other])
    );
    assert_eq!(failure_fingerprint(&summary, &facts).len(), 64);
}

#[test]
fn what_is_healthy_is_not_asked_for() {
    let ask = enqueue_recovery(&StewardDecision::ArmMergeQueue, &policy(Vec::new(), 1), &Vec::new())
        .expect("nothing is ambiguous");
    assert!(ask.is_none());
    let contexts = ["linux"];
    let checks = [failed_check("linux", StewardCheckSource::CheckRun, "FAILURE", Some(3))];
    let held = policy(vec![required("linux", None)], 1);
    let ask = enqueue_recovery(&failed(&contexts), &held, &chosen(&contexts, &checks))
        .expect("nothing is ambiguous")
        .expect("a failure");
    assert_eq!(ask.failure_facts, vec![required_fact("linux", "FAILURE", Some(3))]);
    assert_eq!(ask.policy_signature, steward_policy_signature(&held));
    assert_eq!(
        ask.failure_fingerprint,
        failure_fingerprint(&ask.failure_summary, &ask.failure_facts)
    );
}

#[test]
fn a_long_description_is_cut_to_what_a_status_holds() {
    let long = "é".repeat(200);
    assert_eq!(truncate_description(&long).chars().count(), 140);
    assert_eq!(truncate_description("short"), "short");
}

#[test]
fn decisions_say_what_the_signal_should_be() {
    assert_eq!(recovery_need(&failed(&["linux"])), RecoveryNeed::Signal);
    assert_eq!(
        recovery_need(&StewardDecision::NeedsUpdate { merge_state: "DIRTY".to_owned() }),
        RecoveryNeed::Signal
    );
    assert_eq!(recovery_need(&StewardDecision::ArmMergeQueue), RecoveryNeed::Clear);
    assert_eq!(recovery_need(&StewardDecision::OptedOut), RecoveryNeed::Exclude);
    assert_eq!(
        reconcile_recovery_signal(&pr(vec![], vec![]), &failed(&["linux"]), true),
        RecoveryPath::Change(LabelChange::Signal { needs_agent: true })
    );
    assert!(signal_needs_agent(&failed(&["linux"])).expect("a failure").contains("linux"));
    assert!(signal_needs_agent(&StewardDecision::Draft).is_err());
    assert_eq!(
        reconcile_management_label(&pr(vec![], vec![]), &StewardDecision::Unmanaged),
        Some(LabelChange::Management { unmanaged: true })
    );
    assert_eq!(
        reconcile_management_label(&pr(vec![UNMANAGED_LABEL], vec![]), &StewardDecision::Unmanaged),
        None
    );
}

#[test]
fn an_excluded_pull_request_is_fenced_and_never_published() {
    let next = revalidate_excluded_recovery_clear(ExcludeStage::Lease, ExcludeReply::Done);
    assert!(matches!(next, Flow::Next(ExcludeStage::Revalidate)));
    let next = revalidate_excluded_recovery_clear(ExcludeStage::Revalidate, ExcludeReply::Done);
    assert!(matches!(next, Flow::Next(ExcludeStage::Fence)));
    let failed = revalidate_excluded_recovery_clear(
        ExcludeStage::Fence,
        ExcludeReply::Failed("disk full".to_owned()),
    );
    assert!(matches!(failed, Flow::Report(report) if report.error.is_some()));
    assert!(fence_converged_recovery_clear(Ok(())).error.is_none());
    assert!(fence_converged_recovery_clear(Err("disk full".to_owned())).error.is_some());
}

#[test]
fn a_request_follows_its_recorded_failure() {
    let held = policy(vec![required("linux", None)], 1);
    let live = pr(vec![NEEDS_AGENT_LABEL], vec![("FAILURE", "2026-08-13T00:00:00Z")]);
    let contexts = ["linux"];
    let checks = [failed_check("linux", StewardCheckSource::CheckRun, "FAILURE", Some(3))];
    let step = |stage: PublishStage, reply: PublishReply| {
        enqueue_recovery_after_revalidation(&failed(&contexts), &held, stage, reply)
    };
    assert!(matches!(
        step(PublishStage::Lease, PublishReply::Done),
        Flow::Next(PublishStage::Revalidate)
    ));
    let reply = PublishReply::Live { pr: live, selected: chosen(&contexts, &checks) };
    assert!(matches!(
        step(PublishStage::Revalidate, reply),
        Flow::Next(PublishStage::Persist)
    ));
    assert!(matches!(
        step(PublishStage::Persist, PublishReply::Done),
        Flow::Next(PublishStage::Enabled)
    ));
    assert!(matches!(
        step(PublishStage::Enabled, PublishReply::Enabled(true)),
        Flow::Next(PublishStage::Enqueue)
    ));
    assert!(matches!(
        step(PublishStage::Enabled, PublishReply::Enabled(false)),
        Flow::Report(_)
    ));
}

#[test]
fn a_changed_pull_request_is_not_acted_on() {
    let observed = pr(vec![], vec![]);
    let mut moved = observed.clone();
    moved.fact.head_sha = "b".repeat(40);
    let decision = failed(&["linux"]);
    assert!(revalidate_recovery_target(&observed, None, &decision, &decision).is_err());
    assert!(revalidate_recovery_target(&observed, Some(moved), &decision, &decision).is_err());
    assert!(revalidate_recovery_target(
        &observed,
        Some(observed.clone()),
        &decision,
        &StewardDecision::ArmMergeQueue
    )
    .is_err());
    assert_eq!(
        revalidate_recovery_target(&observed, Some(observed.clone()), &decision, &decision),
        Ok(observed.clone())
    );
    let held = policy(Vec::new(), 1);
    assert!(revalidate_recovery_queue(true, &held).is_none());
    assert!(revalidate_recovery_queue(false, &held).is_some());
}

#[test]
fn a_publication_is_reported_with_its_signal() {
    let report = MutationReport::done("signalled");
    assert!(publishes_after_change(true, &report));
    assert!(!publishes_after_change(false, &report));
    assert!(!publishes_after_change(true, &MutationReport::failed("no".to_owned())));
    let both = combine_mutations(report, MutationReport::done("asked"));
    assert_eq!(both.mutation.as_deref(), Some("signalled;asked"));
    assert!(deferred_recovery_request("lease held").error.is_some()
        || deferred_recovery_request("lease held").mutation.is_some());
}

#[test]
fn a_recovery_status_is_bound_to_its_head() {
    let args = write_recovery_status("owner/repo", &pr(vec![], vec![]), "failure", "why");
    assert!(args.contains(
        &"repos/owner/repo/statuses/aaaaaaaaaaaaaaaaaaaaaaaaaaaaaaaaaaaaaaaa".to_owned()
    ));
    assert!(args.contains(&"state=failure".to_owned()), "{args:?}");
}
