//! The protected profile by which an agent is started again.
use merge_steward::launch_profile::{
    decode_protected_launch_profile, launch_profile_digest, launch_profile_integrity_hash,
    launch_profile_protected_bytes, load_launch_profile, open_protected_launch_profile,
    validate_argv, validate_context_url, validate_launch_profile, validate_profile,
    validate_repository,
    CheckpointProvenanceV1, ContinuationBootstrapV1, LaunchProfileV1, ProviderMetadataV1,
    RecoveryPolicyV1, SessionProvenanceV1, WorktreeProvenanceV1,
};
use merge_steward::outside::hex_digest;
use merge_steward::routes::CLAUDE_TRANSPORT;
use merge_steward::text_map::TextMap;

const PREFIX: &[u8] = b"shipyard-launch-profile-v1\0";

fn owned(texts: &[&str]) -> Vec<String> {
    texts.iter().map(|text| (*text).to_owned()).collect()
}

fn environment(key: &str, value: &str) -> TextMap<String> {
    let mut map: TextMap<String> = TextMap::new();
    map.insert(key.to_owned(), value.to_owned());
    map
}

fn profile() -> LaunchProfileV1 {
    LaunchProfileV1 {
        schema_version: 1,
        launch_argv: owned(&["provider-router", "agent", "--new"]),
        resume_argv: owned(&["provider-router", "agent", "--resume", "session-7"]),
        route_environment: environment("SUBROUTER_SUBSCRIPTION_ROUTER_ACCOUNT_ID", "account-a"),
        provider: ProviderMetadataV1 {
            provider: "subscription-router".into(),
            account: Some("account-a".into()),
            model: Some("model-x".into()),
            reasoning_effort: None,
        },
        session: Some(SessionProvenanceV1 {
            agent_provider: "agent-protocol".into(),
            provider_session_id: "session-7".into(),
        }),
        checkpoint: CheckpointProvenanceV1 {
            checkpoint_id: "checkpoint-7".into(),
            generation: 3,
            digest: "a".repeat(64),
        },
        worktree: WorktreeProvenanceV1 {
            repository: "owner/repo".into(),
            path: "/tmp/worktrees/feature".into(),
            head_sha: "b".repeat(40),
            lineage_id: "lineage-7".into(),
        },
        continuation_bootstrap: Some(ContinuationBootstrapV1 {
            workstream_handle: "GEN-43".into(),
            context_url: Some("https://linear.example/GEN-43".into()),
            plan_sha256: "f".repeat(64),
            root_revision: 0,
            issue_revision: 0,
            projection_revision: 4,
            material_event_revision: 0,
            checkpoint_id: "checkpoint-7".into(),
            checkpoint_generation: 3,
            checkpoint_digest: "a".repeat(64),
            repository: "owner/repo".into(),
            head_sha: "b".repeat(40),
            expected_resume_context_digest: "c".repeat(64),
            success_continuation_digest: "d".repeat(64),
            failure_continuation_digest: "e".repeat(64),
        }),
        recovery_policy: RecoveryPolicyV1::ExactSessionThenFreshCheckpoint,
    }
}

/// Bytes that stand for a profile, one form for each profile.
fn canonical(profile: &LaunchProfileV1) -> Vec<u8> {
    format!("{profile:?}").into_bytes()
}

fn digest(profile: &LaunchProfileV1) -> String {
    launch_profile_digest(profile, true, &canonical(profile)).expect("digest")
}

fn bootstrap(profile: &mut LaunchProfileV1) -> &mut ContinuationBootstrapV1 {
    profile.continuation_bootstrap.as_mut().expect("bootstrap")
}

#[test]
fn profile_is_terminal_and_provider_neutral() {
    let profile = profile();
    validate_launch_profile(&profile).expect("valid neutral profile");
    let encoded = format!("{profile:?}").to_ascii_lowercase();
    for runtime_specific in ["cmux", "herdr", "codex"] {
        assert!(!encoded.contains(runtime_specific));
    }
}

#[test]
fn exact_argv_boundaries_and_digest_are_deterministic() {
    assert_eq!(digest(&profile()), digest(&profile()));
    let mut joined = profile();
    joined.launch_argv = owned(&["provider-router", "agent --new"]);
    assert_ne!(digest(&joined), digest(&profile()));
}

#[test]
fn wake_consumer_projects_only_validated_provider_metadata() {
    let mut profile = profile();
    profile.provider.reasoning_effort = Some("medium".to_owned());
    let options = profile.provider_launch_options();
    assert_eq!(options.model_id, Some("model-x".to_owned()));
    assert_eq!(options.reasoning_effort, Some("medium".to_owned()));
    assert_eq!(
        profile.profile_digest(true, &canonical(&profile)).expect("consumer digest"),
        digest(&profile)
    );
    assert!(profile.permits_fresh_agent());
}

fn codex_profile() -> LaunchProfileV1 {
    let mut codex = profile();
    codex.provider.provider = "codex".into();
    codex.route_environment = environment("SUBROUTER_CODEX_ACCOUNT_ID", "account-a");
    codex.provider.reasoning_effort = Some("medium".to_owned());
    codex.launch_argv = owned(&[
        "subrouter",
        "codex",
        "--model",
        "model-x",
        "-c",
        "model_reasoning_effort=\"medium\"",
    ]);
    codex.resume_argv = owned(&[
        "subrouter",
        "codex",
        "resume",
        "--model",
        "model-x",
        "-c",
        "model_reasoning_effort=\"medium\"",
        "session-7",
    ]);
    codex
}

fn grammar(profile: &LaunchProfileV1, key: &str) -> bool {
    profile.validate_native_fresh_agent_grammar(key).is_ok()
}

#[test]
fn native_grammar_is_prompt_free_and_exactly_matches_metadata() {
    let codex_key = "SUBROUTER_CODEX_ACCOUNT_ID";
    assert!(grammar(&codex_profile(), codex_key), "codex grammar");

    let name = CLAUDE_TRANSPORT.split('_').next().expect("a provider");
    let second_key = "SUBROUTER_CLAUDE_ACCOUNT_ID";
    let second = |effort: &str| {
        let mut second = profile();
        second.provider.provider = name.to_owned();
        second.route_environment = environment(second_key, "account-a");
        second.provider.reasoning_effort = Some(effort.to_owned());
        second.launch_argv =
            owned(&["subrouter", name, "--model", "model-x", "--effort", effort]);
        second.resume_argv = owned(&[
            "subrouter",
            name,
            "--model",
            "model-x",
            "--effort",
            effort,
            "--resume",
            "session-7",
        ]);
        second
    };
    assert!(grammar(&second("high"), second_key));
    assert!(
        grammar(&second("ultra"), second_key),
        "protected profile owns future provider grammar"
    );

    let mut qwen = codex_profile();
    qwen.provider.provider = "qwen".into();
    qwen.provider.reasoning_effort = None;
    qwen.route_environment = environment("SUBROUTER_QWEN_ACCOUNT_ID", "account-a");
    qwen.launch_argv = owned(&["subrouter", "qwen", "--model", "model-x"]);
    qwen.resume_argv =
        owned(&["subrouter", "qwen", "resume", "--model", "model-x", "session-7"]);
    assert!(
        grammar(&qwen, "SUBROUTER_QWEN_ACCOUNT_ID"),
        "registered provider grammar requires no lifecycle branch"
    );

    let mut unrecognized_effort = codex_profile();
    unrecognized_effort.launch_argv[5] = "model_reasoning_effort=\"wrong\"".into();
    assert!(!grammar(&unrecognized_effort, codex_key));
    let mut codex = codex_profile();
    codex.launch_argv.push("raw prompt with a secret".into());
    assert!(!grammar(&codex, codex_key));
    assert_eq!(codex.provider.model.as_deref(), Some("model-x"));
    assert!(codex.worktree_is_absolute());
}

#[test]
fn paths_are_taken_as_the_machine_has_them() {
    let key = "SUBROUTER_CODEX_ACCOUNT_ID";
    let mut routed = codex_profile();
    routed.launch_argv[0] = "/usr/local/bin/subrouter".into();
    routed.resume_argv[0] = "bin/subrouter".into();
    assert!(grammar(&routed, key));
    routed.resume_argv[0] = "/opt/subrouter/other".into();
    assert!(!grammar(&routed, key));
    routed.resume_argv[0] = "..".into();
    assert!(!grammar(&routed, key));
    routed.resume_argv.clear();
    assert!(!grammar(&routed, key));
    assert!(codex_profile().validate_native_grammar(key, "subrouter", "subrouter").is_ok());
    assert!(codex_profile().validate_native_grammar(key, "subrouter", "other").is_err());
    let mut relative = profile();
    relative.worktree.path = "work/tree".into();
    assert!(!relative.worktree_is_absolute());
    relative.worktree.path = String::new();
    assert!(!relative.worktree_is_absolute());
    assert!(profile().worktree_is_absolute());
}

#[test]
fn protected_decoder_requires_one_exact_domain_and_canonical_json() {
    let profile = profile();
    let form = canonical(&profile);
    let bytes = launch_profile_protected_bytes(&profile, true, &form).expect("protected bytes");
    assert!(decode_protected_launch_profile(&bytes, &profile, true, &form).is_ok());
    assert_eq!(open_protected_launch_profile(&bytes), Ok(form.clone()));
    let bare = bytes[PREFIX.len()..].to_vec();
    assert!(decode_protected_launch_profile(&bare, &profile, true, &form).is_err());

    let mut doubled = PREFIX.to_vec();
    doubled.extend_from_slice(&bytes);
    assert!(decode_protected_launch_profile(&doubled, &profile, true, &form).is_err());

    let mut noncanonical = PREFIX.to_vec();
    noncanonical.extend_from_slice(format!("{profile:#?}").as_bytes());
    assert!(decode_protected_launch_profile(&noncanonical, &profile, true, &form).is_err());
}

#[test]
fn incomplete_or_unknown_profiles_fail_closed() {
    let mut invalid = profile();
    invalid.checkpoint.generation = 0;
    assert!(validate_launch_profile(&invalid).is_err());
    invalid = profile();
    invalid.resume_argv.clear();
    assert!(validate_launch_profile(&invalid).is_err());
    invalid = profile();
    invalid.worktree.path = "relative/path".into();
    assert!(validate_launch_profile(&invalid).is_err());
    assert!(validate_profile(&invalid, true).is_ok());
    assert!(validate_profile(&invalid, false).is_err());
    invalid = profile();
    invalid.schema_version = 2;
    assert!(validate_launch_profile(&invalid).is_err());
}

#[test]
fn legacy_profile_decodes_but_cannot_authorize_fresh_dispatch() {
    let mut decoded = profile();
    decoded.continuation_bootstrap = None;
    decoded.route_environment = TextMap::new();
    validate_launch_profile(&decoded).expect("legacy profile remains valid");
    assert!(decoded.route_environment.is_empty());
    assert!(decoded
        .validate_native_fresh_agent_grammar("SUBROUTER_SUBSCRIPTION_ROUTER_ACCOUNT_ID")
        .is_err());
    assert!(!decoded.permits_fresh_agent());
    decoded.recovery_policy = RecoveryPolicyV1::FreshCheckpointOnly;
    assert!(!decoded.permits_fresh_agent());
}

#[test]
fn fresh_checkpoint_dispatch_requires_and_exposes_exact_bootstrap() {
    let mut complete = profile();
    complete.recovery_policy = RecoveryPolicyV1::FreshCheckpointOnly;
    assert!(complete.permits_fresh_agent());
    {
        let expectation = complete.resume_expectation().expect("typed resume expectation");
        let expectation = expectation.bootstrap;
        assert_eq!(expectation.workstream_handle, "GEN-43");
        assert_eq!(
            expectation.context_url.as_deref(),
            Some("https://linear.example/GEN-43")
        );
        assert_eq!(expectation.plan_sha256, "f".repeat(64));
        assert_eq!(expectation.root_revision, 0);
        assert_eq!(expectation.issue_revision, 0);
        assert_eq!(expectation.projection_revision, 4);
        assert_eq!(expectation.material_event_revision, 0);
        assert_eq!(expectation.checkpoint_id, "checkpoint-7");
        assert_eq!(expectation.checkpoint_generation, 3);
        assert_eq!(expectation.checkpoint_digest, "a".repeat(64));
        assert_eq!(expectation.repository, "owner/repo");
        assert_eq!(expectation.head_sha, "b".repeat(40));
        assert_eq!(expectation.expected_resume_context_digest, "c".repeat(64));
        assert_eq!(expectation.success_continuation_digest, "d".repeat(64));
        assert_eq!(expectation.failure_continuation_digest, "e".repeat(64));
    }
    complete.continuation_bootstrap = None;
    assert!(!complete.permits_fresh_agent());
    assert!(complete.resume_expectation().is_none());
}

#[test]
fn bootstrap_is_strict_and_bound_to_exact_launch_provenance() {
    let mutations: [fn(&mut ContinuationBootstrapV1); 14] = [
        |bootstrap| bootstrap.workstream_handle = "GEN 43".into(),
        |bootstrap| bootstrap.plan_sha256 = "F".repeat(64),
        |bootstrap| bootstrap.projection_revision = 0,
        |bootstrap| bootstrap.checkpoint_generation += 1,
        |bootstrap| bootstrap.checkpoint_digest = "f".repeat(64),
        |bootstrap| bootstrap.repository = "owner/other".into(),
        |bootstrap| bootstrap.head_sha = "f".repeat(40),
        |bootstrap| bootstrap.expected_resume_context_digest = "F".repeat(64),
        |bootstrap| bootstrap.success_continuation_digest = "short".into(),
        |bootstrap| bootstrap.failure_continuation_digest = "short".into(),
        |bootstrap| bootstrap.context_url = Some("file:///tmp/context".into()),
        |bootstrap| bootstrap.context_url = Some("https://".into()),
        |bootstrap| {
            bootstrap.context_url = Some("https://user@example.test/GEN-43".into());
        },
        |bootstrap| {
            bootstrap.context_url = Some("https://linear.example/GEN-43#mutable-fragment".into());
        },
    ];
    for mutation in mutations {
        let mut invalid = profile();
        mutation(bootstrap(&mut invalid));
        assert!(validate_launch_profile(&invalid).is_err(), "{invalid:?}");
    }
}

#[test]
fn bootstrap_fields_are_exact_and_digest_bound() {
    let profile_value = profile();
    let held = profile_value.continuation_bootstrap.as_ref().expect("bootstrap");
    assert_eq!(held.workstream_handle, "GEN-43");
    assert_eq!(held.plan_sha256, "f".repeat(64));
    assert_eq!(held.root_revision, 0);
    assert_eq!(held.issue_revision, 0);
    assert_eq!(held.projection_revision, 4);
    assert_eq!(held.material_event_revision, 0);
    assert_eq!(held.checkpoint_id, profile_value.checkpoint.checkpoint_id);
    assert_eq!(held.checkpoint_generation, profile_value.checkpoint.generation);
    assert_eq!(held.checkpoint_digest, profile_value.checkpoint.digest);
    assert_eq!(held.repository, profile_value.worktree.repository);
    assert_eq!(held.head_sha, profile_value.worktree.head_sha);

    let original = digest(&profile_value);
    let form = canonical(&profile_value);
    let protected =
        launch_profile_protected_bytes(&profile_value, true, &form).expect("protected bytes");
    assert_eq!(protected.strip_prefix(PREFIX), Some(form.as_slice()));
    assert_eq!(profile_value.protected_profile_bytes(true, &form), Ok(protected.clone()));
    assert_eq!(original, hex_digest(&protected));
    assert!(!protected.strip_prefix(PREFIX).expect("single prefix").starts_with(PREFIX));
    let mut changed = profile();
    bootstrap(&mut changed).projection_revision += 1;
    assert_ne!(original, digest(&changed));

    let mut changed_plan = profile();
    bootstrap(&mut changed_plan).plan_sha256 = "0".repeat(64);
    assert_ne!(original, digest(&changed_plan));
}

#[test]
fn a_resume_route_carries_what_the_profile_holds() {
    let route = profile().protected_resume_route("digest".to_owned());
    assert_eq!(route.argv, profile().resume_argv);
    assert_eq!(route.environment, profile().route_environment);
    assert_eq!(route.account_id.as_deref(), Some("account-a"));
    assert_eq!(route.native_session_id, "session-7");
    assert_eq!(route.profile_digest, "digest");
}

#[test]
fn the_integrity_hash_is_bound_to_its_fence() {
    let held = launch_profile_integrity_hash("digest", 1, 1, Some("route-1"));
    assert_eq!(held.len(), 64);
    for other in [
        launch_profile_integrity_hash("other", 1, 1, Some("route-1")),
        launch_profile_integrity_hash("digest", 2, 1, Some("route-1")),
        launch_profile_integrity_hash("digest", 1, 2, Some("route-1")),
        launch_profile_integrity_hash("digest", 1, 1, Some("route-2")),
        launch_profile_integrity_hash("digest", 1, 1, None),
    ] {
        assert_ne!(held, other);
    }
}

#[test]
fn arguments_places_and_sizes_are_bounded() {
    assert!(validate_argv("launch_argv", &owned(&["a"])).is_ok());
    assert!(validate_argv("launch_argv", &Vec::new()).is_err());
    assert!(validate_argv("launch_argv", &vec!["a".to_owned(); 65]).is_err());
    assert!(validate_argv("launch_argv", &vec!["a".repeat(4_097)]).is_err());
    assert!(validate_argv("launch_argv", &owned(&["a", "b\0c"])).is_err());
    assert!(validate_repository("owner/repo").is_ok());
    assert!(validate_repository("owner").is_err());
    assert!(validate_context_url("https://linear.example/GEN-43").is_ok());
    assert!(load_launch_profile(true, 65_536).is_ok());
    assert!(load_launch_profile(true, 65_537).is_err());
    assert!(load_launch_profile(false, 10).is_err());
}
