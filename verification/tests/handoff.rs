//! Handing a pull request over to the steward.
use merge_steward::agent_route::{
    new_origin_machine, persist_agent_route, persist_agent_route_with_transfer,
    preview_origin_machine, resolve_origin_machine, StoredAgentRoute,
};
use merge_steward::handoff::{
    add_label, agent_route_path, ensure_label, fetch_handoff_statuses, handoff_directory,
    handoff_path, handoff_status_is_present, latest_handoff_status, remove_label,
    remove_label_args, render, steward_handoff_command_with_resolver, terminal_owner_route,
    terminal_owner_route_or_unresolved, verify_exact_open_pr, write_handoff_status, HandoffRun,
    HandoffStage, LabelStep,
};
use merge_steward::json::{parse_json, Json};
use merge_steward::ledger::TerminalProvenanceKind;
use merge_steward::model::{HANDOFF_CONTEXT, UNMANAGED_LABEL};
use merge_steward::observation::Paging;
use merge_steward::receipt::{
    persist_handoff, prepare_handoff_receipt, DurableStewardHandoff, HandoffPhase, RepairRoute,
};
use merge_steward::routes::{
    agent_route_reference, ambient_environment, is_legacy_pr_fallback, opaque_id,
    resolve_agent_context, resolve_agent_context_with_environment, resolve_handoff_agent, title,
    validate_agent_identifier, validate_args, AgentEnvironment, AgentResumeContext,
    AgentRouteReference, StewardHandoffArgs, SurfaceProvenance, TerminalProvenance,
    TerminalRequest, CLAUDE_TRANSPORT,
};

const AT: &str = "2026-08-27T07:00:00Z";

/// The second provider: the one whose agents are resumed directly.
fn second_provider() -> String {
    CLAUDE_TRANSPORT.split('_').next().expect("a provider").to_owned()
}

fn args() -> StewardHandoffArgs {
    StewardHandoffArgs {
        repo: Some("owner/repo".to_owned()),
        pr: 7,
        head: "aaaaaaaaaaaaaaaaaaaaaaaaaaaaaaaaaaaaaaaa".to_owned(),
        workstream_id: "GEN-7".to_owned(),
        context_url: Some("https://linear.app/example/GEN-7".to_owned()),
        agent_provider: None,
        agent_session_id: None,
        agent_parent_session_id: None,
        agent_surface_id: None,
        transfer_agent_owner: false,
        apply: false,
    }
}

fn explicit_agent_args(provider: &str, session_id: &str) -> StewardHandoffArgs {
    let mut value = args();
    value.agent_provider = Some(provider.to_owned());
    value.agent_session_id = Some(session_id.to_owned());
    value
}

fn agent_for(args: &StewardHandoffArgs, environment: &AgentEnvironment) -> AgentResumeContext {
    resolve_agent_context_with_environment(args, environment)
        .expect("resolve agent")
        .expect("agent route")
}

fn route_for(args: &StewardHandoffArgs, origin: &str) -> AgentRouteReference {
    agent_route_reference(&agent_for(args, &AgentEnvironment::default()), origin)
}

fn saved_route(
    existing: Option<StoredAgentRoute>,
    route: &AgentRouteReference,
    agent: &AgentResumeContext,
) -> StoredAgentRoute {
    persist_agent_route(existing, route, agent, AT)
        .expect("persist route")
        .expect("a record to save")
}

fn herdr_environment() -> AgentEnvironment {
    AgentEnvironment {
        herdr_env: Some("1".to_owned()),
        herdr_session: Some("herdr-session-1".to_owned()),
        herdr_workspace_id: Some("workspace-2".to_owned()),
        herdr_tab_id: Some("tab-3".to_owned()),
        herdr_pane_id: Some("pane-4".to_owned()),
        ..AgentEnvironment::default()
    }
}

fn json(text: &str) -> Json {
    parse_json(text).expect("JSON")
}

#[test]
fn rejects_non_exact_head_and_non_http_context_before_transport() {
    let mut invalid = args();
    invalid.head = "abc".to_owned();
    assert!(validate_args(&invalid).is_err());
    invalid = args();
    invalid.context_url = Some("file:///tmp/private".to_owned());
    assert!(validate_args(&invalid).is_err());
}

#[test]
fn legacy_pr_fallback_accepts_a_mixed_case_repository_slug() {
    let mut mixed = args();
    mixed.repo = Some("Generous-Corp/pulp".to_owned());
    mixed.pr = 7;
    mixed.workstream_id = "generous-corp/pulp#7".to_owned();
    assert!(
        is_legacy_pr_fallback(&mixed),
        "a mixed-case slug must still reach the legacy fallback"
    );
    assert!(validate_args(&mixed).is_ok());

    let mut wrong_pr = mixed;
    wrong_pr.workstream_id = "generous-corp/pulp#8".to_owned();
    assert!(!is_legacy_pr_fallback(&wrong_pr));
}

#[test]
fn legacy_pr_fallback_refuses_ambient_agent_routes_and_managed_lifecycles() {
    let mut legacy = args();
    legacy.workstream_id = "owner/repo#7".to_owned();
    assert!(validate_args(&legacy).is_ok());

    let absent = resolve_handoff_agent(
        &legacy,
        resolve_agent_context_with_environment(&legacy, &AgentEnvironment::default()),
    )
    .expect("resolve profile-free legacy context");
    assert!(absent.is_none());

    let environments = [
        (
            "ambient first provider",
            AgentEnvironment {
                codex_session: Some("codex-session".to_owned()),
                ..AgentEnvironment::default()
            },
        ),
        (
            "ambient second provider",
            AgentEnvironment {
                claude_session: Some(format!("{}-session", second_provider())),
                ..AgentEnvironment::default()
            },
        ),
        (
            "ambient HerdR Codex",
            AgentEnvironment {
                codex_session: Some("codex-herdr".to_owned()),
                herdr_env: Some("1".to_owned()),
                herdr_session: Some("herdr-session".to_owned()),
                herdr_workspace_id: Some("workspace".to_owned()),
                herdr_tab_id: Some("tab".to_owned()),
                herdr_pane_id: Some("pane".to_owned()),
                ..AgentEnvironment::default()
            },
        ),
        (
            "ambient cmux Codex",
            AgentEnvironment {
                codex_session: Some("codex-cmux".to_owned()),
                surface_id: Some("surface".to_owned()),
                ..AgentEnvironment::default()
            },
        ),
    ];
    for (name, environment) in environments {
        let error = resolve_handoff_agent(
            &legacy,
            resolve_agent_context_with_environment(&legacy, &environment),
        )
        .expect_err("ambient route must refuse legacy fallback");
        assert!(
            error.message().contains("cannot bind an agent route or managed lifecycle"),
            "unexpected {name} refusal: {}",
            error.message()
        );
    }
}

#[test]
fn agent_identity_requires_a_complete_provider_session_pair() {
    let mut partial = args();
    partial.agent_provider = Some("codex".to_owned());
    assert!(
        resolve_agent_context_with_environment(&partial, &AgentEnvironment::default()).is_err()
    );

    partial.agent_session_id = Some("019d-test-thread".to_owned());
    let context = agent_for(&partial, &AgentEnvironment::default());
    assert_eq!(context.provider, "codex");
    assert_eq!(context.resume_transport, "codex_queue");
}

#[test]
fn herdr_route_uses_real_environment_contract_and_private_agent_provenance() {
    let agent_args = explicit_agent_args("codex", "provider-session-7");
    let environment = herdr_environment();
    assert!(resolve_agent_context_with_environment(&args(), &environment)
        .expect_err("HerdR route cannot be discarded without an agent session")
        .message()
        .contains("resumable agent session"));
    let agent = agent_for(&agent_args, &environment);
    assert_eq!(
        agent.terminal_provenance,
        TerminalProvenance::HerdR {
            session_id: "herdr-session-1".to_owned(),
            workspace_id: "workspace-2".to_owned(),
            tab_id: "tab-3".to_owned(),
            pane_id: "pane-4".to_owned(),
            provider_session_id: "provider-session-7".to_owned(),
        }
    );
    let route = agent_route_reference(&agent, "m3");
    assert_eq!(route.terminal_provenance, TerminalProvenanceKind::HerdR);
    let durable = saved_route(None, &route, &agent);
    assert_eq!(durable.agent.terminal_provenance, agent.terminal_provenance);
    let receipt = prepare_handoff_receipt(
        None,
        None,
        &agent_args,
        "owner/repo",
        "m3",
        Some(route.clone()),
        AT,
    )
    .expect("HerdR receipt");
    let receipt =
        persist_handoff(receipt, HandoffPhase::Managed, AT).expect("managed receipt");
    let terminal = terminal_owner_route(
        Some(&receipt),
        None,
        "owner/repo",
        agent_args.pr,
        &agent_args.head,
        Some(&durable),
    )
    .expect("valid route")
    .expect("terminal owner");
    assert_eq!(terminal.terminal_provenance, Some(TerminalProvenanceKind::HerdR));
    let public = format!("{receipt:?}");
    for private_identity in [
        "herdr-session-1",
        "workspace-2",
        "tab-3",
        "pane-4",
        "provider-session-7",
    ] {
        assert!(!public.contains(private_identity));
    }
}

#[test]
fn herdr_route_defaults_the_absent_optional_session_name() {
    let agent_args = explicit_agent_args(&second_provider(), "provider-session-8");
    let mut environment = herdr_environment();
    environment.herdr_session = None;
    let agent = agent_for(&agent_args, &environment);
    assert_eq!(
        agent.terminal_provenance,
        TerminalProvenance::HerdR {
            session_id: "default".to_owned(),
            workspace_id: "workspace-2".to_owned(),
            tab_id: "tab-3".to_owned(),
            pane_id: "pane-4".to_owned(),
            provider_session_id: "provider-session-8".to_owned(),
        }
    );
}

#[test]
fn herdr_route_rejects_partial_unmarked_and_conflicting_inputs() {
    let agent_args = explicit_agent_args("codex", "provider-session-7");
    let complete = herdr_environment();
    let refusal = |environment: &AgentEnvironment| {
        resolve_agent_context_with_environment(&agent_args, environment)
            .expect_err("the route is refused")
            .message()
            .to_owned()
    };
    let mut partial = complete.clone();
    partial.herdr_pane_id = None;
    assert!(refusal(&partial).contains("requires workspace, tab, and pane"));

    let mut unmarked = complete.clone();
    unmarked.herdr_env = None;
    assert!(refusal(&unmarked).contains("HERDR_ENV=1"));

    let mut wrong_marker = complete.clone();
    wrong_marker.herdr_env = Some("true".to_owned());
    assert!(refusal(&wrong_marker).contains("exactly 1"));

    let mut conflicting = complete;
    conflicting.surface_id = Some("cmux-surface".to_owned());
    assert!(refusal(&conflicting).contains("cannot be combined"));
}

#[test]
fn ambiguous_provider_environment_and_explicit_orphan_route_fields_fail_closed() {
    let environment = AgentEnvironment {
        codex_session: Some("codex-session".to_owned()),
        claude_session: Some(format!("{}-session", second_provider())),
        surface_id: None,
        ..AgentEnvironment::default()
    };
    let error = resolve_agent_context_with_environment(&args(), &environment)
        .expect_err("ambiguous providers must fail");
    assert!(error
        .message()
        .contains(&format!("both Codex and {}", title(&second_provider()))));

    let mut explicit = explicit_agent_args("codex", "explicit-session");
    assert!(resolve_agent_context_with_environment(&explicit, &environment).is_ok());

    explicit.agent_provider = None;
    explicit.agent_session_id = None;
    let ambient_surface = AgentEnvironment {
        surface_id: Some("surface-without-session".to_owned()),
        ..AgentEnvironment::default()
    };
    assert!(resolve_agent_context_with_environment(&explicit, &ambient_surface)
        .expect("ambient cmux surface is advisory")
        .is_none());

    explicit.agent_surface_id = Some("explicit-surface-without-session".to_owned());
    let error = resolve_agent_context_with_environment(&explicit, &AgentEnvironment::default())
        .expect_err("explicit orphan surface must fail");
    assert!(error.message().contains("parent/surface"));

    explicit.agent_surface_id = None;
    explicit.agent_parent_session_id = Some("parent-without-session".to_owned());
    let error = resolve_agent_context_with_environment(&explicit, &AgentEnvironment::default())
        .expect_err("explicit orphan parent must fail");
    assert!(error.message().contains("parent/surface"));
}

#[test]
fn handoff_repository_directory_encoding_is_collision_free() {
    let first = handoff_directory("a--b/c", 42);
    let second = handoff_directory("a/b--c", 42);
    assert_ne!(first, second);
    assert!(first.join("/").ends_with("a--b%2Fc/pr-42"));
    assert!(second.join("/").ends_with("a%2Fb--c/pr-42"));
}

#[test]
fn no_agent_route_is_explicitly_fresh_agent_only() {
    let handoff = prepare_handoff_receipt(None, None, &args(), "owner/repo", "m3", None, AT)
        .expect("fresh-agent handoff");
    assert_eq!(handoff.owner_id, "fresh-agent-only");
    assert_eq!(handoff.repair_route, RepairRoute::FreshAgentOnly);
    assert_eq!(handoff.agent_route, None);
}

fn managed_args() -> StewardHandoffArgs {
    let mut managed = explicit_agent_args(&second_provider(), "session-7");
    managed.agent_parent_session_id = Some("coordinator-1".to_owned());
    managed.agent_surface_id = Some("surface-7".to_owned());
    managed
}

#[test]
fn durable_handoff_is_private_exact_head_scoped_and_restart_monotonic() {
    let managed = managed_args();
    let agent = agent_for(&managed, &AgentEnvironment::default());
    let route = agent_route_reference(&agent, "m3");
    let stored = saved_route(None, &route, &agent);
    let owner = |receipt: &DurableStewardHandoff, stored: &StoredAgentRoute| {
        terminal_owner_route(
            Some(receipt),
            None,
            "owner/repo",
            managed.pr,
            &managed.head,
            Some(stored),
        )
    };
    let owner_or_unresolved = |receipt: &DurableStewardHandoff, stored: &StoredAgentRoute| {
        terminal_owner_route_or_unresolved(
            Some(receipt),
            None,
            "owner/repo",
            managed.pr,
            &managed.head,
            Some(stored),
        )
    };
    let prepare = |existing: Option<DurableStewardHandoff>| {
        prepare_handoff_receipt(
            existing,
            None,
            &managed,
            "owner/repo",
            "m3",
            Some(route.clone()),
            AT,
        )
        .expect("prepare handoff")
    };
    let managed_receipt = || {
        let intent =
            persist_handoff(prepare(None), HandoffPhase::Intent, AT).expect("persist intent");
        assert_eq!(intent.phase, HandoffPhase::Intent);
        assert_eq!(intent.revision, 1);
        assert_eq!(intent.ownership_generation, 1);
        let ready = persist_handoff(intent, HandoffPhase::Ready, AT).expect("persist ready");
        assert_eq!(ready.phase, HandoffPhase::Ready);
        assert_eq!(ready.revision, 2);
        let replayed = persist_handoff(prepare(Some(ready)), HandoffPhase::Intent, AT)
            .expect("persist replay intent");
        assert_eq!(replayed.phase, HandoffPhase::Ready);
        assert_eq!(replayed.revision, 3);
        assert_eq!(replayed.ownership_generation, 1);
        assert_eq!(
            owner(&replayed, &stored).expect("ready receipt is valid but not wake authority"),
            None
        );
        persist_handoff(replayed, HandoffPhase::Managed, AT).expect("persist managed")
    };
    let receipt = managed_receipt();
    assert_eq!(receipt.phase, HandoffPhase::Managed);
    assert_eq!(receipt.revision, 4);
    assert_eq!(receipt.head_sha, managed.head);
    assert!(!receipt.wake_consumer_available);
    let terminal_owner = owner(&receipt, &stored).expect("read owner").expect("terminal owner");
    assert_eq!(terminal_owner.origin_machine, "m3");
    assert_eq!(
        terminal_owner.owner_id,
        opaque_id("owner", &vec![second_provider().as_str(), "coordinator-1"])
    );
    assert_ne!(terminal_owner.owner_id, receipt.owner_id);
    assert_eq!(
        terminal_owner.route_id.as_deref(),
        receipt.agent_route.as_ref().map(|route| route.route_id.as_str())
    );
    assert_eq!(terminal_owner.provider, Some(second_provider()));
    assert_eq!(terminal_owner.resume_transport.as_deref(), Some("claude_resume"));
    assert_eq!(terminal_owner.terminal_provenance, Some(TerminalProvenanceKind::Cmux));

    let public = format!("{receipt:?}");
    let private = format!("{stored:?}");
    for identity in ["session-7", "coordinator-1", "surface-7"] {
        assert!(!public.contains(identity));
        assert!(private.contains(identity));
    }

    let mut tampered = stored.clone();
    tampered.agent.parent_session_id = Some("attacker-session".to_owned());
    assert!(owner(&receipt, &tampered)
        .expect_err("tampered coordinator identity must fail")
        .message
        .contains("identity disagree"));
    let unresolved = owner_or_unresolved(&receipt, &tampered)
        .expect("retain exact origin without trusting tampered route");
    assert_eq!(unresolved.origin_machine, "m3");
    assert_eq!(unresolved.owner_disposition, "unroutable_private_route");
    assert_eq!(unresolved.route_id, None);

    let mut zero_generation = managed_receipt();
    zero_generation.ownership_generation = 0;
    let mut zero_revision = managed_receipt();
    zero_revision.revision = 0;
    let mut enabled_consumer = managed_receipt();
    enabled_consumer.wake_consumer_available = true;
    let mut inconsistent_repair = managed_receipt();
    inconsistent_repair.repair_route = RepairRoute::FreshAgentOnly;
    for (case, invalid_receipt) in [
        ("zero generation", zero_generation),
        ("zero revision", zero_revision),
        ("enabled consumer", enabled_consumer),
        ("inconsistent repair", inconsistent_repair),
    ] {
        assert!(owner(&invalid_receipt, &stored).is_err(), "{case}");
        assert_eq!(owner_or_unresolved(&invalid_receipt, &stored), None, "{case}");
    }
}

fn first_receipt(args: &StewardHandoffArgs, phase: HandoffPhase) -> DurableStewardHandoff {
    let receipt = prepare_handoff_receipt(
        None,
        None,
        args,
        "owner/repo",
        "m3",
        Some(route_for(args, "m3")),
        AT,
    )
    .expect("first handoff");
    persist_handoff(receipt, phase, AT).expect("persist first owner")
}

#[test]
fn conflicting_owner_or_route_requires_explicit_transfer() {
    let first = explicit_agent_args("codex", "session-one");
    let refused = |args: &StewardHandoffArgs, origin: &str| {
        prepare_handoff_receipt(
            Some(first_receipt(&first, HandoffPhase::Intent)),
            None,
            args,
            "owner/repo",
            origin,
            Some(route_for(args, origin)),
            AT,
        )
        .expect_err("a change of owner or route must fail")
        .message()
        .to_owned()
    };
    let second = explicit_agent_args("codex", "session-two");
    assert!(refused(&second, "m3").contains("explicit ownership transfer"));

    let mut changed_route_args = first.clone();
    changed_route_args.agent_parent_session_id = Some("different-parent".to_owned());
    assert!(refused(&changed_route_args, "m3").contains("route metadata changed"));

    let error = refused(&first, "m5");
    assert!(
        error.contains("route metadata changed") || error.contains("origin machine changed")
    );
}

#[test]
fn explicit_replacement_owner_increments_generation_without_changing_work() {
    let first = explicit_agent_args("codex", "expired-session");
    let receipt = first_receipt(&first, HandoffPhase::Ready);
    let created_at = receipt.created_at.clone();

    let mut replacement = explicit_agent_args(&second_provider(), "replacement-session");
    replacement.transfer_agent_owner = true;
    let replacement_route = route_for(&replacement, "m5");
    let transferred = prepare_handoff_receipt(
        Some(receipt),
        None,
        &replacement,
        "owner/repo",
        "m5",
        Some(replacement_route.clone()),
        "2026-08-28T07:00:00Z",
    )
    .expect("explicit transfer");

    assert_eq!(transferred.owner_id, replacement_route.owner_id);
    assert_eq!(transferred.agent_route, Some(replacement_route.clone()));
    assert_eq!(transferred.origin_machine, "m5");
    assert_eq!(transferred.ownership_generation, 2);
    assert_eq!(transferred.phase, HandoffPhase::Ready);
    assert_eq!(transferred.created_at, created_at);
    assert_eq!(transferred.workstream_id, "GEN-7");

    let replayed = prepare_handoff_receipt(
        Some(transferred),
        None,
        &replacement,
        "owner/repo",
        "m5",
        Some(replacement_route),
        "2026-08-28T08:00:00Z",
    )
    .expect("replacement transfer replay");
    assert_eq!(replayed.ownership_generation, 2);
}

#[test]
fn transfer_requires_explicit_replacement_session_and_existing_receipt() {
    let mut transfer = args();
    transfer.transfer_agent_owner = true;
    let error = validate_args(&transfer).expect_err("ambient transfer must fail");
    assert!(error.message().contains("explicit --agent-provider"));

    let mut transfer = explicit_agent_args("codex", "replacement-session");
    transfer.transfer_agent_owner = true;
    let error = prepare_handoff_receipt(
        None,
        None,
        &transfer,
        "owner/repo",
        "m3",
        Some(route_for(&transfer, "m3")),
        AT,
    )
    .expect_err("transfer without receipt must fail");
    assert!(error.message().contains("existing exact-head"));
}

#[test]
fn persisted_machine_identity_does_not_drift_when_machine_tag_changes() {
    let first = new_origin_machine(Some("m3".to_owned()), "now", "1", "/state")
        .expect("first identity");
    assert_eq!(first, "m3");
    assert_eq!(resolve_origin_machine(1, first).expect("persisted identity"), "m3");
    assert!(resolve_origin_machine(2, "m3".to_owned()).is_err());
}

#[test]
fn missing_machine_tag_creates_one_stable_opaque_identity() {
    let first = new_origin_machine(None, "now", "1", "/state").expect("generated identity");
    assert!(first.starts_with("machine-"));
    let second = resolve_origin_machine(1, first.clone()).expect("reloaded identity");
    assert_eq!(first, second);
}

#[test]
fn oversized_machine_tag_is_rejected_before_identity_is_persisted() {
    let error = new_origin_machine(Some("m".repeat(257)), "now", "1", "/state")
        .expect_err("oversized identity must fail");
    assert!(error.message().contains("origin machine"));
}

#[test]
fn machine_identity_preview_is_read_only_before_apply() {
    assert_eq!(preview_origin_machine(None), "unpersisted-machine");
    assert_eq!(preview_origin_machine(Some("m3".to_owned())), "m3");
}

#[test]
fn ambient_cmux_surface_reconciles_without_changing_owner_or_route() {
    let agent_args = explicit_agent_args("codex", "stable-session");
    let seen_on = |surface: &str| {
        agent_for(
            &agent_args,
            &AgentEnvironment {
                surface_id: Some(surface.to_owned()),
                ..AgentEnvironment::default()
            },
        )
    };
    let first_agent = seen_on("surface-one");
    assert_eq!(first_agent.surface_provenance, SurfaceProvenance::AmbientCmux);
    let first_route = agent_route_reference(&first_agent, "m3");
    let stored = saved_route(None, &first_route, &first_agent);

    let second_agent = seen_on("surface-two");
    let second_route = agent_route_reference(&second_agent, "m3");
    assert_eq!(first_route, second_route);
    let replay = prepare_handoff_receipt(
        Some(first_receipt(&agent_args, HandoffPhase::Intent)),
        None,
        &agent_args,
        "owner/repo",
        "m3",
        Some(second_route.clone()),
        AT,
    )
    .expect("ambient surface change preserves handoff owner");
    assert_eq!(replay.owner_id, first_route.owner_id);
    assert_eq!(replay.ownership_generation, 1);

    let stored = saved_route(Some(stored), &second_route, &second_agent);
    assert_eq!(stored.owner_id, first_route.owner_id);
    assert_eq!(stored.route_id, first_route.route_id);
    assert_eq!(stored.origin_machine, "m3");
    assert_eq!(stored.agent.provider, "codex");
    assert_eq!(stored.agent.session_id, "stable-session");
    assert_eq!(stored.agent.surface_id.as_deref(), Some("surface-two"));
    assert_eq!(stored.agent.surface_provenance, SurfaceProvenance::AmbientCmux);
    assert_eq!(stored.revision, 2);

    let mut pinned_args = agent_args.clone();
    pinned_args.agent_surface_id = Some("surface-two".to_owned());
    let pinned_agent = agent_for(&pinned_args, &AgentEnvironment::default());
    let pinned_route = agent_route_reference(&pinned_agent, "m3");
    assert_eq!(pinned_route, second_route);
    let pinned = saved_route(Some(stored), &pinned_route, &pinned_agent);
    assert_eq!(pinned.agent.surface_provenance, SurfaceProvenance::Explicit);
    assert_eq!(pinned.agent.surface_id.as_deref(), Some("surface-two"));
    assert_eq!(pinned.revision, 3);
    assert_eq!(
        persist_agent_route(Some(pinned), &pinned_route, &pinned_agent, AT),
        Ok(None),
        "nothing changed"
    );
}

#[test]
fn legacy_cmux_route_without_typed_provenance_upgrades_on_replay() {
    let agent_args = explicit_agent_args("codex", "legacy-cmux-session");
    let environment = AgentEnvironment {
        surface_id: Some("legacy-surface".to_owned()),
        ..AgentEnvironment::default()
    };
    let agent = agent_for(&agent_args, &environment);
    let route = agent_route_reference(&agent, "m3");
    assert_eq!(
        route.route_id,
        "route-e5c34af7af87a08e42cd9b47ff6487a331dd64e2bee59b943dded14873e298cf",
        "Absent/cmux routes must retain the pre-provenance hash contract"
    );
    let mut legacy = saved_route(None, &route, &agent);
    legacy.agent.terminal_provenance = TerminalProvenance::Absent;
    let upgraded = saved_route(Some(legacy), &route, &agent);
    assert_eq!(upgraded.route_id, route.route_id);
    assert_eq!(upgraded.owner_id, route.owner_id);
    assert_eq!(upgraded.revision, 2);
    assert_eq!(
        upgraded.agent.terminal_provenance,
        TerminalProvenance::Cmux { surface_id: "legacy-surface".to_owned() }
    );
}

#[test]
fn explicit_surface_change_remains_fenced() {
    let mut first_args = explicit_agent_args("codex", "stable-session");
    first_args.agent_surface_id = Some("pinned-one".to_owned());
    let first_agent = agent_for(&first_args, &AgentEnvironment::default());
    let first_route = agent_route_reference(&first_agent, "m3");
    let stored = saved_route(None, &first_route, &first_agent);

    let mut changed_args = first_args;
    changed_args.agent_surface_id = Some("pinned-two".to_owned());
    let changed_agent = agent_for(&changed_args, &AgentEnvironment::default());
    let changed_route = agent_route_reference(&changed_agent, "m3");
    assert_eq!(first_route, changed_route);
    let error = persist_agent_route(Some(stored.clone()), &changed_route, &changed_agent, AT)
        .expect_err("explicit surface change must fail");
    assert!(error.message().contains("explicit agent surface changed"));

    let transferred =
        persist_agent_route_with_transfer(Some(stored), &changed_route, &changed_agent, true, AT)
            .expect("explicit transfer updates the diagnosed surface")
            .expect("transferred route");
    assert_eq!(transferred.agent.surface_id.as_deref(), Some("pinned-two"));
    assert_eq!(transferred.agent.surface_provenance, SurfaceProvenance::Explicit);
    assert_eq!(transferred.revision, 2);
}

/// Runs a handoff against a provider that shows the given statuses, until a stage
/// that fails. The receipt as it was last saved, and the stages in order.
fn run_handoff(
    existing: Option<DurableStewardHandoff>,
    args: &StewardHandoffArgs,
    statuses: &str,
    failing: Option<HandoffStage>,
) -> (Option<DurableStewardHandoff>, Vec<HandoffStage>) {
    let statuses = json(statuses);
    let statuses = statuses.as_array().expect("statuses");
    let mut receipt = existing;
    let mut run = HandoffRun {
        apply: args.apply,
        has_agent: args.agent_provider.is_some(),
        starting_phase: HandoffPhase::Intent,
        status_present: false,
    };
    let mut stage = HandoffStage::Preflight;
    let mut stages: Vec<HandoffStage> = Vec::new();
    loop {
        stages.push(stage);
        if failing == Some(stage) {
            return (receipt, stages);
        }
        match stage {
            HandoffStage::Load => {
                let prepared = prepare_handoff_receipt(
                    receipt.take(),
                    None,
                    args,
                    "owner/repo",
                    "m3",
                    Some(route_for(args, "m3")),
                    AT,
                )
                .expect("receipt");
                run.starting_phase = prepared.phase;
                receipt = Some(prepared);
            }
            HandoffStage::SaveIntent | HandoffStage::SaveReady | HandoffStage::SaveManaged => {
                let phase = match stage {
                    HandoffStage::SaveIntent => HandoffPhase::Intent,
                    HandoffStage::SaveReady => HandoffPhase::Ready,
                    _ => HandoffPhase::Managed,
                };
                let saved = persist_handoff(receipt.take().expect("prepared"), phase, AT);
                receipt = Some(saved.expect("save"));
            }
            HandoffStage::ReadStatus => {
                run.status_present = handoff_status_is_present(statuses, args).expect("statuses");
            }
            HandoffStage::Render => return (receipt, stages),
            _ => {}
        }
        stage = steward_handoff_command_with_resolver(run, stage);
    }
}

fn applied(session: &str) -> StewardHandoffArgs {
    let mut handoff_args = explicit_agent_args("codex", session);
    handoff_args.apply = true;
    handoff_args
}

fn writes(stages: &[HandoffStage]) -> usize {
    stages.iter().filter(|stage| **stage == HandoffStage::WriteStatus).count()
}

fn status(id: u64, state: &str, hour: u8, description: &str) -> String {
    format!(
        r#"{{"id":{id},"context":"{HANDOFF_CONTEXT}","state":"{state}","created_at":"2026-08-27T0{hour}:00:00Z","description":"{description}","target_url":"https://linear.app/example/GEN-7"}}"#
    )
}

#[test]
fn intent_is_durable_before_the_first_github_mutation() {
    let (receipt, stages) = run_handoff(
        None,
        &applied("intent-owner-session"),
        "[]",
        Some(HandoffStage::WriteStatus),
    );
    assert_eq!(writes(&stages), 1);
    let receipt = receipt.expect("intent receipt");
    assert_eq!(receipt.phase, HandoffPhase::Intent);
    assert_eq!(receipt.revision, 1);
    assert_eq!(receipt.ownership_generation, 1);
    assert_eq!(receipt.origin_machine, "m3");
    assert_eq!(receipt.repair_route, RepairRoute::OriginalAgent);
}

#[test]
fn same_owner_managed_replay_reconciles_without_duplicate_status() {
    let handoff_args = applied("replay-owner-session");
    let (first, stages) = run_handoff(None, &handoff_args, "[]", None);
    assert_eq!(writes(&stages), 1);
    let statuses = format!("[{}]", status(9, "success", 9, "Managed handoff GEN-7"));
    let (receipt, stages) = run_handoff(first, &handoff_args, &statuses, None);
    assert_eq!(writes(&stages), 0);
    let receipt = receipt.expect("managed receipt");
    assert_eq!(receipt.phase, HandoffPhase::Managed);
    assert_eq!(receipt.ownership_generation, 1);
    assert_eq!(receipt.revision, 5);
}

#[test]
fn intent_replay_reconciles_an_already_accepted_status_without_reposting() {
    let handoff_args = applied("uncertain-owner-session");
    let uncertain = first_receipt(&handoff_args, HandoffPhase::Intent);
    let statuses = format!("[{}]", status(7, "success", 7, "Managed handoff GEN-7"));
    let (stored, stages) = run_handoff(Some(uncertain), &handoff_args, &statuses, None);
    assert_eq!(writes(&stages), 0);
    assert_eq!(stored.expect("managed receipt").phase, HandoffPhase::Managed);
}

#[test]
fn managed_replay_restores_success_when_latest_status_is_failure() {
    let handoff_args = applied("status-repair-session");
    let (first, _) = run_handoff(None, &handoff_args, "[]", None);
    let statuses = format!(
        "[{},{}]",
        status(7, "success", 7, "Managed handoff GEN-7"),
        status(8, "failure", 8, "revoked")
    );
    let (_, stages) = run_handoff(first, &handoff_args, &statuses, None);
    assert_eq!(writes(&stages), 1);
}

#[test]
fn latest_handoff_status_wins_regardless_of_api_order() {
    let old_success = status(7, "success", 7, "");
    let new_failure = status(8, "failure", 8, "");
    for text in [
        format!("[{old_success},{new_failure}]"),
        format!("[{new_failure},{old_success}]"),
    ] {
        let statuses = json(&text);
        let statuses = statuses.as_array().expect("statuses");
        let latest: usize = latest_handoff_status(statuses)
            .expect("freshness")
            .expect("matching status");
        assert_eq!(statuses[latest].u64_field("id"), Some(8));
        assert_eq!(statuses[latest].text_field("state").map(String::as_str), Some("failure"));
    }
}

#[test]
fn two_statuses_of_one_identity_are_refused() {
    let text = format!("[{},{}]", status(7, "success", 7, ""), status(7, "failure", 8, ""));
    let statuses = json(&text);
    assert!(latest_handoff_status(statuses.as_array().expect("statuses")).is_err());
    assert_eq!(latest_handoff_status(&Vec::new()), Ok(None));
}

#[test]
fn removing_an_absent_explanatory_label_is_idempotent() {
    remove_label(Err("HTTP 404 label not found".to_owned()), UNMANAGED_LABEL)
        .expect("absent label is already clear");
    assert!(remove_label(Ok(()), UNMANAGED_LABEL).is_ok());
    assert!(remove_label(Err("HTTP 403".to_owned()), UNMANAGED_LABEL).is_err());
}

#[test]
fn a_missing_label_is_created() {
    assert!(matches!(ensure_label(Ok(()), "owner/repo", "x", "fff", "d"), LabelStep::Exists));
    match ensure_label(Err("HTTP 404".to_owned()), "owner/repo", "x", "fff", "d") {
        LabelStep::Create(create) => {
            assert!(create.contains(&"repos/owner/repo/labels".to_owned()), "{create:?}");
            assert!(create.contains(&"name=x".to_owned()), "{create:?}");
        }
        other => panic!("{other:?}"),
    }
    assert!(matches!(
        ensure_label(Err("HTTP 500".to_owned()), "owner/repo", "x", "fff", "d"),
        LabelStep::Failed(_)
    ));
    assert!(add_label("owner/repo", 7, "x")
        .contains(&"repos/owner/repo/issues/7/labels".to_owned()));
    assert!(remove_label_args("owner/repo", 7, "shipyard:unmanaged")
        .iter()
        .any(|arg| arg.contains("issues/7/labels/shipyard%3Aunmanaged")));
}

#[test]
fn only_the_exact_open_head_is_handed_over() {
    let head = args().head;
    let open = json(&format!(r#"{{"state":"open","head":{{"sha":"{head}"}}}}"#));
    assert!(verify_exact_open_pr(&open, 7, &head).is_ok());
    let closed = json(&format!(r#"{{"state":"closed","head":{{"sha":"{head}"}}}}"#));
    assert!(verify_exact_open_pr(&closed, 7, &head).is_err());
    let moved = json(&format!(r#"{{"state":"open","head":{{"sha":"{}"}}}}"#, "b".repeat(40)));
    assert!(verify_exact_open_pr(&moved, 7, &head).is_err());
}

#[test]
fn a_handoff_status_names_its_workstream() {
    let arguments = write_handoff_status(&args(), "owner/repo");
    assert!(arguments
        .contains(&"repos/owner/repo/statuses/aaaaaaaaaaaaaaaaaaaaaaaaaaaaaaaaaaaaaaaa".to_owned()));
    assert!(arguments.contains(&"description=Managed handoff GEN-7".to_owned()));
    let shown = format!("[{}]", status(7, "success", 7, "Managed handoff GEN-8"));
    let shown = json(&shown);
    assert_eq!(
        handoff_status_is_present(shown.as_array().expect("statuses"), &args()),
        Ok(false)
    );
}

#[test]
fn statuses_are_read_page_by_page() {
    let mut statuses: Vec<Json> = Vec::new();
    assert!(matches!(
        fetch_handoff_statuses(&mut statuses, json("[{}]"), 1),
        Ok(Paging::Complete)
    ));
    assert_eq!(statuses.len(), 1);
    let full = format!("[{}]", vec!["{}"; 100].join(","));
    assert!(matches!(
        fetch_handoff_statuses(&mut statuses, json(&full), 1),
        Ok(Paging::More)
    ));
    assert!(fetch_handoff_statuses(&mut statuses, json("{}"), 1).is_err());
}

#[test]
fn records_have_places_of_their_own() {
    assert_ne!(handoff_directory("owner/repo", 7), handoff_directory("owner/repo", 8));
    assert_eq!(handoff_directory("Owner/Repo", 7), handoff_directory("owner/repo", 7));
    assert_ne!(handoff_path(&"a".repeat(40)), handoff_path(&"b".repeat(40)));
    assert_ne!(agent_route_path("route-1"), agent_route_path("route-2"));
}

#[test]
fn a_terminal_is_asked_for_by_its_kind() {
    let agent = agent_for(
        &explicit_agent_args("codex", "provider-session-7"),
        &herdr_environment(),
    );
    assert!(matches!(
        resolve_agent_context(&agent, None),
        Ok(TerminalRequest::HerdR { terminal_id, .. }) if terminal_id == "pane-4"
    ));
    let agent = agent_for(&managed_args(), &AgentEnvironment::default());
    assert!(resolve_agent_context(&agent, None).is_err());
    assert!(matches!(
        resolve_agent_context(&agent, Some("/tmp/socket".to_owned())),
        Ok(TerminalRequest::Cmux { surface_id, .. }) if surface_id == "surface-7"
    ));
    let blank = AgentEnvironment {
        codex_session: Some("  ".to_owned()),
        ..AgentEnvironment::default()
    };
    assert_eq!(ambient_environment(blank).codex_session, None);
}

#[test]
fn unknown_providers_and_bad_identifiers_are_refused() {
    let error = resolve_agent_context_with_environment(
        &explicit_agent_args("other", "session"),
        &AgentEnvironment::default(),
    )
    .expect_err("unknown provider");
    assert_eq!(
        error.message(),
        format!("agent provider must be codex or {}", second_provider())
    );
    assert!(validate_agent_identifier("agent session", "ok").is_ok());
    assert!(validate_agent_identifier("agent session", "").is_err());
    assert!(validate_agent_identifier("agent session", &"s".repeat(257)).is_err());
    assert!(validate_agent_identifier("agent session", "a\nb").is_err());
}

#[test]
fn a_rendered_handoff_is_one_line() {
    let line = render(&args(), "owner/repo", None, "m3", false);
    assert!(!line.trim_end().contains('\n'), "{line}");
    assert!(line.contains("GEN-7"), "{line}");
}
