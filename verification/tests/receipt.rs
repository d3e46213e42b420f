//! Receipts of handoffs that carry a launch profile.
use merge_steward::handoff::{render, render_json_data, steward_handoff_transfer_report};
use merge_steward::launch_profile::{
    CheckpointProvenanceV1, ContinuationBootstrapV1, LaunchProfileV1, ProviderMetadataV1,
    RecoveryPolicyV1, SessionProvenanceV1, WorktreeProvenanceV1,
};
use merge_steward::model::CliFailure;
use merge_steward::receipt::{
    persist_handoff, prepare_handoff_receipt_with_profile, prepare_launch_profile_candidate,
    validate_handoff_receipt_integrity, validate_launch_profile_route, DurableStewardHandoff,
    HandoffPhase, LaunchProfileCandidate, NativePublicationReceiptV1, NativePublicationStateV1,
    ProfileForm, WorktreeEvidence,
};
use merge_steward::routes::{
    agent_route_reference, resolve_agent_context_with_environment, AgentEnvironment,
    AgentRouteReference, StewardHandoffArgs,
};
use merge_steward::text_map::TextMap;

const AT: &str = "2026-08-27T07:00:00Z";
const HEAD: &str = "0123456789abcdef0123456789abcdef01234567";

fn evidence() -> WorktreeEvidence {
    WorktreeEvidence {
        available: true,
        origin: Some("owner/repo".to_owned()),
        head_sha: HEAD.to_owned(),
        active: true,
    }
}

fn handoff_args() -> StewardHandoffArgs {
    StewardHandoffArgs {
        repo: Some("owner/repo".into()),
        pr: 7,
        head: HEAD.to_owned(),
        workstream_id: "GEN-43".into(),
        context_url: Some("https://linear.example/GEN-43".into()),
        agent_provider: Some("codex".into()),
        agent_session_id: Some("provider-session-7".into()),
        agent_parent_session_id: None,
        agent_surface_id: None,
        transfer_agent_owner: false,
        apply: false,
    }
}

fn owned(texts: &[&str]) -> Vec<String> {
    texts.iter().map(|text| (*text).to_owned()).collect()
}

fn profile(resume_flag: &str) -> LaunchProfileV1 {
    let mut route_environment: TextMap<String> = TextMap::new();
    route_environment.insert(
        "SUBROUTER_OPAQUE_PROVIDER_ACCOUNT_ID".into(),
        "subscription-a".into(),
    );
    LaunchProfileV1 {
        schema_version: 1,
        launch_argv: owned(&["/opt/provider-router", "agent", "--new"]),
        resume_argv: owned(&["/opt/provider-router", "agent", resume_flag, "provider-session-7"]),
        route_environment,
        provider: ProviderMetadataV1 {
            provider: "opaque-provider".into(),
            account: Some("subscription-a".into()),
            model: Some("model-tier-a".into()),
            reasoning_effort: None,
        },
        session: Some(SessionProvenanceV1 {
            agent_provider: "codex".into(),
            provider_session_id: "provider-session-7".into(),
        }),
        checkpoint: CheckpointProvenanceV1 {
            checkpoint_id: "checkpoint-7".into(),
            generation: 4,
            digest: "b".repeat(64),
        },
        worktree: WorktreeProvenanceV1 {
            repository: "owner/repo".into(),
            path: "/tmp/worktrees/launch-profile-test".into(),
            head_sha: HEAD.to_owned(),
            lineage_id: "launch-profile-test".into(),
        },
        continuation_bootstrap: Some(ContinuationBootstrapV1 {
            workstream_handle: "GEN-43".into(),
            context_url: Some("https://linear.example/GEN-43".into()),
            plan_sha256: "a".repeat(64),
            root_revision: 0,
            issue_revision: 0,
            projection_revision: 1,
            material_event_revision: 0,
            checkpoint_id: "checkpoint-7".into(),
            checkpoint_generation: 4,
            checkpoint_digest: "b".repeat(64),
            repository: "owner/repo".into(),
            head_sha: HEAD.to_owned(),
            expected_resume_context_digest: "c".repeat(64),
            success_continuation_digest: "d".repeat(64),
            failure_continuation_digest: "e".repeat(64),
        }),
        recovery_policy: RecoveryPolicyV1::ExactSessionThenFreshCheckpoint,
    }
}

fn replacement_profile() -> LaunchProfileV1 {
    let mut profile = profile("--resume");
    profile.session.as_mut().expect("session").provider_session_id =
        "replacement-session-8".into();
    profile.resume_argv[3] = "replacement-session-8".into();
    profile
}

/// Bytes that stand for a profile, one form for each profile.
fn form_of(profile: &LaunchProfileV1) -> ProfileForm {
    ProfileForm { canonical: format!("{profile:?}").into_bytes(), absolute: true }
}

/// The form of the profile that a receipt holds, if it holds one.
fn held_form(receipt: &DurableStewardHandoff) -> Option<ProfileForm> {
    receipt.launch_profile.as_ref().map(|held| form_of(&held.profile))
}

fn candidate_for(profile: LaunchProfileV1) -> LaunchProfileCandidate {
    let form = form_of(&profile);
    prepare_launch_profile_candidate(profile, &form, &evidence(), "owner/repo", HEAD)
        .expect("profile")
}

fn refused(profile: LaunchProfileV1, evidence: &WorktreeEvidence, repo: &str, head: &str) -> String {
    let form = form_of(&profile);
    prepare_launch_profile_candidate(profile, &form, evidence, repo, head)
        .expect_err("the profile is refused")
        .message()
        .to_owned()
}

fn prepare(
    existing: Option<DurableStewardHandoff>,
    args: &StewardHandoffArgs,
    origin: &str,
    route: Option<AgentRouteReference>,
    candidate: Option<LaunchProfileCandidate>,
) -> Result<DurableStewardHandoff, CliFailure> {
    let form = existing.as_ref().and_then(held_form);
    prepare_handoff_receipt_with_profile(
        existing,
        form.as_ref(),
        args,
        "owner/repo",
        origin,
        route,
        candidate,
        AT,
    )
}

fn intact(receipt: &DurableStewardHandoff, args: &StewardHandoffArgs) -> bool {
    let form = held_form(receipt);
    validate_handoff_receipt_integrity(receipt, form.as_ref(), "owner/repo", args.pr, &args.head)
        .is_ok()
}

fn route_at(args: &StewardHandoffArgs, origin: &str) -> AgentRouteReference {
    let agent = resolve_agent_context_with_environment(args, &AgentEnvironment::default())
        .expect("resolve agent")
        .expect("agent route");
    agent_route_reference(&agent, origin)
}

fn route(args: &StewardHandoffArgs) -> AgentRouteReference {
    route_at(args, "m3")
}

/// A receipt with a profile, as it is after it was first saved.
fn first_receipt(args: &StewardHandoffArgs) -> DurableStewardHandoff {
    let mut receipt = prepare(
        None,
        args,
        "m3",
        Some(route(args)),
        Some(candidate_for(profile("-r"))),
    )
    .expect("initial receipt");
    receipt.revision = 1;
    receipt
}

fn replacement_args() -> StewardHandoffArgs {
    let mut replacement = handoff_args();
    replacement.agent_session_id = Some("replacement-session-8".into());
    replacement.transfer_agent_owner = true;
    replacement
}

#[test]
fn nonexistent_worktree_provenance_fails_before_publication() {
    let mut missing = evidence();
    missing.available = false;
    assert!(refused(profile("-r"), &missing, "owner/repo", HEAD).contains("path is unavailable"));
}

#[test]
fn claimed_repository_and_head_require_matching_live_git_evidence() {
    let mut wrong_repo = profile("-r");
    wrong_repo.worktree.repository = "owner/forged".into();
    wrong_repo.continuation_bootstrap.as_mut().expect("bootstrap").repository =
        "owner/forged".into();
    assert!(refused(wrong_repo, &evidence(), "owner/forged", HEAD)
        .contains("origin does not match"));

    let claimed = "a".repeat(40);
    let mut wrong_head = profile("-r");
    wrong_head.worktree.head_sha = claimed.clone();
    wrong_head.continuation_bootstrap.as_mut().expect("bootstrap").head_sha = claimed.clone();
    assert!(refused(wrong_head, &evidence(), "owner/repo", &claimed)
        .contains("HEAD does not match"));
}

#[test]
fn superseded_worktree_provenance_fails_before_publication() {
    let mut superseded = evidence();
    superseded.active = false;
    assert!(refused(profile("-r"), &superseded, "owner/repo", HEAD)
        .contains("lineage is not active"));
}

#[test]
fn exact_launch_profile_survives_receipt_restart_without_translation() {
    let args = handoff_args();
    let receipt = persist_handoff(
        prepare(None, &args, "m3", Some(route(&args)), Some(candidate_for(profile("-r"))))
            .expect("receipt"),
        HandoffPhase::Managed,
        AT,
    )
    .expect("durable receipt");
    assert!(intact(&receipt, &args));
    let held = receipt.launch_profile.as_ref().expect("profile");
    assert_eq!(format!("{:?}", held.profile), format!("{:?}", profile("-r")));
}

fn native_profile() -> LaunchProfileV1 {
    let mut profile = profile("-r");
    profile.provider.provider = "codex".into();
    let mut route_environment: TextMap<String> = TextMap::new();
    route_environment.insert("SUBROUTER_CODEX_ACCOUNT_ID".into(), "subscription-a".into());
    profile.route_environment = route_environment;
    profile.provider.reasoning_effort = Some("medium".into());
    profile.launch_argv = owned(&[
        "/opt/subrouter",
        "codex",
        "--model",
        "model-tier-a",
        "-c",
        "model_reasoning_effort=\"medium\"",
    ]);
    profile.resume_argv = owned(&[
        "/opt/subrouter",
        "codex",
        "resume",
        "--model",
        "model-tier-a",
        "-c",
        "model_reasoning_effort=\"medium\"",
        "provider-session-7",
    ]);
    profile
}

#[test]
fn native_publication_rejects_prompt_bearing_launch_profile() {
    let args = handoff_args();
    let grammar = |profile: &LaunchProfileV1| {
        profile.validate_native_fresh_agent_grammar("SUBROUTER_CODEX_ACCOUNT_ID")
    };
    grammar(&native_profile()).expect("prompt-free grammar");
    let mut unsafe_profile = native_profile();
    unsafe_profile.launch_argv.push("raw prompt containing a secret".into());
    let candidate = candidate_for(unsafe_profile);
    let receipt = prepare(None, &args, "m3", Some(route(&args)), Some(candidate))
        .expect("legacy profile storage remains supported");
    let receipt = persist_handoff(receipt, HandoffPhase::Managed, AT).expect("durable receipt");
    let held = receipt.launch_profile.as_ref().expect("stored profile");
    let error = grammar(&held.profile).expect_err("native publication must reject raw prompts");
    assert!(error.message().contains("prompt"));
}

#[test]
fn same_owner_restart_reuses_profile_but_rejects_translation() {
    let args = handoff_args();
    let replayed = prepare(Some(first_receipt(&args)), &args, "m3", Some(route(&args)), None)
        .expect("restart replay must use the durable profile without its source file");
    assert_eq!(
        format!("{:?}", replayed.launch_profile),
        format!("{:?}", first_receipt(&args).launch_profile)
    );

    let changed = prepare(
        Some(first_receipt(&args)),
        &args,
        "m3",
        Some(route(&args)),
        Some(candidate_for(profile("--resume"))),
    )
    .expect_err("argv translation must require a new owner generation");
    assert!(changed.message().contains("cannot change or omit"));
}

#[test]
fn hostile_profile_route_fences_and_provenance_fail_integrity() {
    let args = handoff_args();
    assert!(intact(&first_receipt(&args), &args), "baseline integrity");

    let tampers: [fn(&mut DurableStewardHandoff); 7] = [
        |receipt| {
            receipt.launch_profile.as_mut().expect("profile").integrity_hash = "0".repeat(64);
        },
        |receipt| receipt.launch_profile.as_mut().expect("profile").generation = 2,
        |receipt| receipt.launch_profile.as_mut().expect("profile").revision = 2,
        |receipt| {
            receipt.agent_route.as_mut().expect("route").route_id = "route-diverged".into();
        },
        |receipt| {
            receipt.launch_profile.as_mut().expect("profile").profile.checkpoint.generation = 5;
        },
        |receipt| {
            receipt.launch_profile.as_mut().expect("profile").profile.worktree.lineage_id =
                "other-lineage".into();
        },
        |receipt| receipt.wake_consumer_available = true,
    ];
    for tamper in tampers {
        let mut tampered = first_receipt(&args);
        tamper(&mut tampered);
        assert!(!intact(&tampered, &args), "{tampered:?}");
    }
}

#[test]
fn exact_session_recovery_without_an_agent_route_fails_closed() {
    let mut args = handoff_args();
    args.agent_provider = None;
    args.agent_session_id = None;
    let error = prepare(None, &args, "m3", None, Some(candidate_for(profile("-r"))))
        .expect_err("exact-session policy needs an exact route");
    assert!(error.message().contains("requires a durable agent route"));

    let mut fresh = profile("--checkpoint");
    fresh.session = None;
    fresh.recovery_policy = RecoveryPolicyV1::FreshCheckpointOnly;
    let mut receipt = prepare(None, &args, "m3", None, Some(candidate_for(fresh)))
        .expect("fresh-only profile needs no route");
    receipt.revision = 1;
    assert!(intact(&receipt, &args), "fresh-only integrity");
}

#[test]
fn provider_session_provenance_must_match_the_exact_agent_route() {
    let args = handoff_args();
    let mut mismatched = profile("-r");
    mismatched.session.as_mut().expect("session").provider_session_id =
        "different-session".into();
    let candidate = candidate_for(mismatched);
    let error = validate_launch_profile_route(&Some(candidate), &Some(route(&args)))
        .expect_err("session mismatch must fail closed");
    assert!(error.message().contains("does not match"));
}

#[test]
fn explicit_owner_transfer_advances_profile_generation_and_revision() {
    let first = handoff_args();
    let replacement = replacement_args();
    let transfer = || {
        prepare(
            Some(first_receipt(&first)),
            &replacement,
            "m5",
            Some(route_at(&replacement, "m5")),
            Some(candidate_for(replacement_profile())),
        )
        .expect("explicit transfer")
    };
    let transferred = transfer();
    assert_eq!(transferred.ownership_generation, 2);
    let stored = transferred.launch_profile.as_ref().expect("profile");
    assert_eq!(stored.generation, 2);
    assert_eq!(stored.revision, 2);
    assert!(
        intact(&transferred, &replacement),
        "transferred profile remains bound to the replacement route"
    );

    let replayed = prepare(
        Some(transfer()),
        &replacement,
        "m5",
        Some(route_at(&replacement, "m5")),
        None,
    )
    .expect("transferred owner restart reuses the durable replacement profile");
    assert_eq!(format!("{replayed:?}"), format!("{transferred:?}"));
}

#[test]
fn explicit_owner_transfer_can_add_the_first_profile_to_a_legacy_receipt() {
    let first = handoff_args();
    let mut legacy = prepare(None, &first, "m3", Some(route(&first)), None)
        .expect("legacy profile-less receipt");
    legacy.revision = 1;

    let replacement = replacement_args();
    let upgraded = prepare(
        Some(legacy),
        &replacement,
        "m5",
        Some(route_at(&replacement, "m5")),
        Some(candidate_for(replacement_profile())),
    )
    .expect("fenced transfer upgrades the legacy receipt");
    assert_eq!(upgraded.ownership_generation, 2);
    let stored = upgraded.launch_profile.as_ref().expect("profile");
    assert_eq!(stored.generation, 2);
    assert_eq!(stored.revision, 1);
    assert!(intact(&upgraded, &replacement), "upgraded receipt integrity");
}

#[test]
fn pending_native_publication_refuses_owner_transfer() {
    let first = handoff_args();
    let mut published = first_receipt(&first);
    let profile_digest = published
        .launch_profile
        .as_ref()
        .expect("stored profile")
        .profile_digest
        .clone();
    published.wake_consumer_available = false;
    published.native_publication = Some(NativePublicationReceiptV1 {
        schema_version: 2,
        state: NativePublicationStateV1::Pending,
        work_id: "wi_exact".into(),
        route_ref: "route_exact".into(),
        wake_id: "wake_exact".into(),
        profile_digest,
        repo_policy_revision: 1,
    });

    let replacement = replacement_args();
    let error = prepare(
        Some(published),
        &replacement,
        "m5",
        Some(route_at(&replacement, "m5")),
        Some(candidate_for(replacement_profile())),
    )
    .expect_err("published ownership is immutable");
    assert!(error.message.contains("cannot be transferred"));
}

#[test]
fn public_receipt_render_never_projects_private_profile_fields() {
    let args = handoff_args();
    let route = route(&args);
    let data = render_json_data(&args, "owner/repo", Some(&route), "m3", false);
    for absent in ["agent_disposition", "pause_required"] {
        assert!(data.get(absent).is_none());
    }
    assert_eq!(data.text_field("origin_machine").map(String::as_str), Some("m3"));
    let rendered = format!("{data:?}") + &render(&args, "owner/repo", Some(&route), "m3", false);
    for private in [
        "/opt/provider-router",
        "provider-session-7",
        "worktrees",
        "subscription-a",
        "model-tier-a",
        "SUBROUTER_OPAQUE_PROVIDER_ACCOUNT_ID",
    ] {
        assert!(!rendered.contains(private), "projected private field {private}");
    }
}

#[test]
fn phases_only_advance() {
    let args = handoff_args();
    let mut receipt = first_receipt(&args);
    for (asked, held, revision) in [
        (HandoffPhase::Ready, HandoffPhase::Ready, 2),
        (HandoffPhase::Intent, HandoffPhase::Ready, 3),
        (HandoffPhase::Managed, HandoffPhase::Managed, 4),
        (HandoffPhase::Ready, HandoffPhase::Managed, 5),
    ] {
        receipt = persist_handoff(receipt, asked, AT).expect("saved");
        assert_eq!(receipt.phase, held);
        assert_eq!(receipt.revision, revision);
        assert!(intact(&receipt, &args));
    }
    receipt.revision = u64::MAX;
    assert!(persist_handoff(receipt, HandoffPhase::Managed, AT).is_err());
}

#[test]
fn a_transfer_report_needs_a_managed_receipt() {
    let args = handoff_args();
    let report = |receipt: Option<&DurableStewardHandoff>, repo: &str| {
        let form = receipt.and_then(held_form);
        steward_handoff_transfer_report(receipt, form.as_ref(), repo, args.pr, &args.head)
    };
    let error = report(None, "owner/repo").expect_err("nothing is stored");
    assert_eq!(error.message(), "exact-head durable handoff receipt is unavailable");
    let receipt = first_receipt(&args);
    let error = report(Some(&receipt), "owner/repo").expect_err("not managed yet");
    assert_eq!(error.message(), "durable handoff is not managed");
    assert!(report(Some(&receipt), "owner/other").is_err());
    let managed = persist_handoff(receipt, HandoffPhase::Managed, AT).expect("saved");
    assert_eq!(report(Some(&managed), "owner/repo"), Ok(false));
}
