//! Who a handoff is for: the agent that can be resumed, the terminal it runs in,
//! and the route by which it is reached.
use vstd::prelude::*;
use vstd::utf8::encode_utf8;

use crate::fingerprint::{framed_all, push_framed};
use crate::ledger::TerminalProvenanceKind;
use crate::model::{fails, CliFailure};
use crate::outside::{hex_digest, sha256_hex};
use crate::text::{
    blank, byte_len, byte_length, char_is_alnum, concat, concat3, concat4, concat5, copy_opt,
    decimal, full_sha, has_prefix, head_until, is_alnum, is_blank, is_full_sha, lower, opt_eq,
    opt_ref_view, opt_view, or_text, split, split_on, starts_with, str_eq, to_bytes, to_chars,
    to_decimal, to_lower, to_upper, until, upper, views,
};

verus! {

/// What a handoff is told.
#[derive(Clone, Debug, PartialEq, Eq)]
pub struct StewardHandoffArgs {
    pub repo: Option<String>,
    pub pr: u64,
    pub head: String,
    pub workstream_id: String,
    pub context_url: Option<String>,
    pub agent_provider: Option<String>,
    pub agent_session_id: Option<String>,
    pub agent_parent_session_id: Option<String>,
    pub agent_surface_id: Option<String>,
    pub transfer_agent_owner: bool,
    pub apply: bool,
}

/// Where a surface was learnt of.
#[derive(Clone, Copy, Debug, PartialEq, Eq, Structural)]
pub enum SurfaceProvenance {
    Absent,
    Explicit,
    AmbientCmux,
}

/// The terminal that an agent runs in.
#[derive(Clone, Debug, PartialEq, Eq)]
pub enum TerminalProvenance {
    Absent,
    Cmux { surface_id: String },
    HerdR {
        session_id: String,
        workspace_id: String,
        tab_id: String,
        pane_id: String,
        provider_session_id: String,
    },
}

/// What is said of a terminal.
pub enum TerminalView {
    Absent,
    Cmux(Seq<char>),
    HerdR(Seq<char>, Seq<char>, Seq<char>, Seq<char>, Seq<char>),
}

impl View for TerminalProvenance {
    type V = TerminalView;

    open spec fn view(&self) -> TerminalView {
        match *self {
            TerminalProvenance::Absent => TerminalView::Absent,
            TerminalProvenance::Cmux { surface_id } => TerminalView::Cmux(surface_id@),
            TerminalProvenance::HerdR {
                session_id,
                workspace_id,
                tab_id,
                pane_id,
                provider_session_id,
            } => TerminalView::HerdR(
                session_id@,
                workspace_id@,
                tab_id@,
                pane_id@,
                provider_session_id@,
            ),
        }
    }
}

impl TerminalProvenance {
    /// The kind that a route is bound to: a surface may come and go without
    /// changing the route.
    pub open spec fn spec_kind(self) -> TerminalProvenanceKind {
        match self {
            TerminalProvenance::HerdR { .. } => TerminalProvenanceKind::HerdR,
            _ => TerminalProvenanceKind::Absent,
        }
    }

    /// The kind that a route is bound to.
    pub fn kind(&self) -> (r: TerminalProvenanceKind)
        ensures
            r == self.spec_kind(),
    {
        match self {
            TerminalProvenance::HerdR { .. } => TerminalProvenanceKind::HerdR,
            _ => TerminalProvenanceKind::Absent,
        }
    }

    /// The kind as it is told to an owner.
    pub open spec fn spec_full_kind(self) -> TerminalProvenanceKind {
        match self {
            TerminalProvenance::Absent => TerminalProvenanceKind::Absent,
            TerminalProvenance::Cmux { .. } => TerminalProvenanceKind::Cmux,
            TerminalProvenance::HerdR { .. } => TerminalProvenanceKind::HerdR,
        }
    }

    /// The kind as it is told to an owner.
    pub fn full_kind(&self) -> (r: TerminalProvenanceKind)
        ensures
            r == self.spec_full_kind(),
    {
        match self {
            TerminalProvenance::Absent => TerminalProvenanceKind::Absent,
            TerminalProvenance::Cmux { .. } => TerminalProvenanceKind::Cmux,
            TerminalProvenance::HerdR { .. } => TerminalProvenanceKind::HerdR,
        }
    }

    /// A copy.
    pub fn dup(&self) -> (r: Self)
        ensures
            r@ == self@,
    {
        match self {
            TerminalProvenance::Absent => TerminalProvenance::Absent,
            TerminalProvenance::Cmux { surface_id } => TerminalProvenance::Cmux {
                surface_id: surface_id.clone(),
            },
            TerminalProvenance::HerdR {
                session_id,
                workspace_id,
                tab_id,
                pane_id,
                provider_session_id,
            } => TerminalProvenance::HerdR {
                session_id: session_id.clone(),
                workspace_id: workspace_id.clone(),
                tab_id: tab_id.clone(),
                pane_id: pane_id.clone(),
                provider_session_id: provider_session_id.clone(),
            },
        }
    }

    /// Whether two say the same.
    pub fn same_as(&self, other: &Self) -> (r: bool)
        ensures
            r == (self@ == other@),
    {
        match (self, other) {
            (TerminalProvenance::Absent, TerminalProvenance::Absent) => true,
            (
                TerminalProvenance::Cmux { surface_id: a },
                TerminalProvenance::Cmux { surface_id: b },
            ) => str_eq(a.as_str(), b.as_str()),
            (
                TerminalProvenance::HerdR {
                    session_id: a1,
                    workspace_id: a2,
                    tab_id: a3,
                    pane_id: a4,
                    provider_session_id: a5,
                },
                TerminalProvenance::HerdR {
                    session_id: b1,
                    workspace_id: b2,
                    tab_id: b3,
                    pane_id: b4,
                    provider_session_id: b5,
                },
            ) => str_eq(a1.as_str(), b1.as_str()) && str_eq(a2.as_str(), b2.as_str()) && str_eq(
                a3.as_str(),
                b3.as_str(),
            ) && str_eq(a4.as_str(), b4.as_str()) && str_eq(a5.as_str(), b5.as_str()),
            _ => false,
        }
    }
}

/// An agent that can be resumed.
#[derive(Clone, Debug, PartialEq, Eq)]
pub struct AgentResumeContext {
    pub provider: String,
    pub session_id: String,
    pub parent_session_id: Option<String>,
    pub surface_id: Option<String>,
    pub surface_provenance: SurfaceProvenance,
    pub terminal_provenance: TerminalProvenance,
    /// What the terminal was asked for, as it is stored.
    pub terminal_authority: Option<String>,
    pub resume_transport: String,
}

/// What is said of an agent.
pub struct AgentView {
    pub provider: Seq<char>,
    pub session_id: Seq<char>,
    pub parent_session_id: Option<Seq<char>>,
    pub surface_id: Option<Seq<char>>,
    pub surface_provenance: SurfaceProvenance,
    pub terminal: TerminalView,
    pub terminal_authority: Option<Seq<char>>,
    pub resume_transport: Seq<char>,
}

impl View for AgentResumeContext {
    type V = AgentView;

    open spec fn view(&self) -> AgentView {
        AgentView {
            provider: self.provider@,
            session_id: self.session_id@,
            parent_session_id: opt_view(self.parent_session_id),
            surface_id: opt_view(self.surface_id),
            surface_provenance: self.surface_provenance,
            terminal: self.terminal_provenance@,
            terminal_authority: opt_view(self.terminal_authority),
            resume_transport: self.resume_transport@,
        }
    }
}

impl AgentResumeContext {
    /// A copy.
    pub fn dup(&self) -> (r: Self)
        ensures
            r@ == self@,
    {
        AgentResumeContext {
            provider: self.provider.clone(),
            session_id: self.session_id.clone(),
            parent_session_id: copy_opt(self.parent_session_id.as_ref()),
            surface_id: copy_opt(self.surface_id.as_ref()),
            surface_provenance: self.surface_provenance,
            terminal_provenance: self.terminal_provenance.dup(),
            terminal_authority: copy_opt(self.terminal_authority.as_ref()),
            resume_transport: self.resume_transport.clone(),
        }
    }

    /// Whether two say the same.
    pub fn same_as(&self, other: &Self) -> (r: bool)
        ensures
            r == (self@ == other@),
    {
        str_eq(self.provider.as_str(), other.provider.as_str()) && str_eq(
            self.session_id.as_str(),
            other.session_id.as_str(),
        ) && opt_eq(&self.parent_session_id, &other.parent_session_id) && opt_eq(
            &self.surface_id,
            &other.surface_id,
        ) && self.surface_provenance == other.surface_provenance && self.terminal_provenance.same_as(
            &other.terminal_provenance,
        ) && opt_eq(&self.terminal_authority, &other.terminal_authority) && str_eq(
            self.resume_transport.as_str(),
            other.resume_transport.as_str(),
        )
    }
}

/// A route to an agent, without what is private to it.
#[derive(Clone, Debug, PartialEq, Eq)]
pub struct AgentRouteReference {
    pub route_id: String,
    pub owner_id: String,
    pub provider: String,
    pub origin_machine: String,
    pub resume_transport: String,
    pub terminal_provenance: TerminalProvenanceKind,
}

/// What a route says.
pub struct RouteView {
    pub route_id: Seq<char>,
    pub owner_id: Seq<char>,
    pub provider: Seq<char>,
    pub origin_machine: Seq<char>,
    pub resume_transport: Seq<char>,
    pub terminal_provenance: TerminalProvenanceKind,
}

impl View for AgentRouteReference {
    type V = RouteView;

    open spec fn view(&self) -> RouteView {
        RouteView {
            route_id: self.route_id@,
            owner_id: self.owner_id@,
            provider: self.provider@,
            origin_machine: self.origin_machine@,
            resume_transport: self.resume_transport@,
            terminal_provenance: self.terminal_provenance,
        }
    }
}

impl AgentRouteReference {
    /// Whether two say the same.
    pub fn same_as(&self, other: &Self) -> (r: bool)
        ensures
            r == (self@ == other@),
    {
        str_eq(self.route_id.as_str(), other.route_id.as_str()) && str_eq(
            self.owner_id.as_str(),
            other.owner_id.as_str(),
        ) && str_eq(self.provider.as_str(), other.provider.as_str()) && str_eq(
            self.origin_machine.as_str(),
            other.origin_machine.as_str(),
        ) && str_eq(self.resume_transport.as_str(), other.resume_transport.as_str())
            && self.terminal_provenance == other.terminal_provenance
    }
}

/// What an optional route says.
pub open spec fn route_view(route: Option<AgentRouteReference>) -> Option<RouteView> {
    match route {
        Some(route) => Some(route@),
        None => None,
    }
}

/// Whether two optional routes say the same.
pub fn same_routes(a: &Option<AgentRouteReference>, b: &Option<AgentRouteReference>) -> (r: bool)
    ensures
        r == (route_view(*a) == route_view(*b)),
{
    match (a, b) {
        (Some(a), Some(b)) => a.same_as(b),
        (None, None) => true,
        _ => false,
    }
}

/// What a handoff's arguments lack.
pub open spec fn args_error(args: StewardHandoffArgs) -> Option<Seq<char>> {
    if args.pr == 0 {
        Some("pull-request number must be positive"@)
    } else if !full_sha(args.head@) {
        Some("--head must be a full 40-character SHA-1"@)
    } else if opt_view(args.context_url) matches Some(url) && !has_prefix(url, "https://"@)
        && !has_prefix(url, "http://"@) {
        Some("--context-url must use http:// or https://"@)
    } else if args.transfer_agent_owner && (args.agent_provider is None || args.agent_session_id
        is None) {
        Some(
            "--transfer-agent-owner requires explicit --agent-provider and --agent-session-id"@,
        )
    } else {
        None
    }
}

/// Whether a result is a success, or a failure that says a text.
pub open spec fn says<T>(r: Result<T, CliFailure>, error: Option<Seq<char>>) -> bool {
    match error {
        None => r is Ok,
        Some(text) => fails(r, 1, text),
    }
}

/// Refuses arguments that do not name an exact head.
pub fn validate_args(args: &StewardHandoffArgs) -> (r: Result<(), CliFailure>)
    ensures
        says(r, args_error(*args)),
{
    if args.pr == 0 {
        return Err(CliFailure::new(1, "pull-request number must be positive"));
    }
    if !is_full_sha(args.head.as_str()) {
        return Err(CliFailure::new(1, "--head must be a full 40-character SHA-1"));
    }
    match &args.context_url {
        Some(url) => {
            if !starts_with(url.as_str(), "https://") && !starts_with(url.as_str(), "http://") {
                return Err(CliFailure::new(1, "--context-url must use http:// or https://"));
            }
        },
        None => {},
    }
    if args.transfer_agent_owner && (args.agent_provider.is_none()
        || args.agent_session_id.is_none()) {
        return Err(
            CliFailure::new(
                1,
                "--transfer-agent-owner requires explicit --agent-provider and --agent-session-id",
            ),
        );
    }
    Ok(())
}

/// Whether a handoff is of a pull request alone: no agent is named, and the
/// workstream is the pull request's own name in lower case.
pub open spec fn legacy_fallback(args: StewardHandoffArgs) -> bool {
    &&& args.agent_provider is None
    &&& args.agent_session_id is None
    &&& args.agent_parent_session_id is None
    &&& args.agent_surface_id is None
    &&& !args.transfer_agent_owner
    &&& opt_view(args.repo) matches Some(repo) && split_on(lower(repo), '/').len() == 2
        && args.workstream_id@ == lower(repo) + "#"@ + decimal(args.pr as nat)
}

/// Whether a handoff is of a pull request alone.
pub fn is_legacy_pr_fallback(args: &StewardHandoffArgs) -> (r: bool)
    ensures
        r == legacy_fallback(*args),
{
    if args.agent_provider.is_some() || args.agent_session_id.is_some()
        || args.agent_parent_session_id.is_some() || args.agent_surface_id.is_some()
        || args.transfer_agent_owner {
        return false;
    }
    match &args.repo {
        Some(repo) => {
            let normalized = to_lower(repo.as_str());
            let parts = split(normalized.as_str(), '/');
            proof {
                assert(views(parts@).len() == parts@.len());
            }
            let name = concat3(normalized.as_str(), "#", to_decimal(args.pr).as_str());
            parts.len() == 2 && str_eq(args.workstream_id.as_str(), name.as_str())
        },
        None => false,
    }
}

/// What stops a handoff of a pull request alone.
pub open spec fn identity_error(args: StewardHandoffArgs, agent: bool) -> Option<Seq<char>> {
    if legacy_fallback(args) && agent {
        Some("legacy PR fallback cannot bind an agent route or managed lifecycle"@)
    } else {
        None
    }
}

/// Refuses a handoff of a pull request alone that an agent was found for.
pub fn validate_resolved_workstream_identity(
    args: &StewardHandoffArgs,
    agent: Option<&AgentResumeContext>,
) -> (r: Result<(), CliFailure>)
    ensures
        says(r, identity_error(*args, agent is Some)),
{
    if is_legacy_pr_fallback(args) && agent.is_some() {
        return Err(
            CliFailure::new(1, "legacy PR fallback cannot bind an agent route or managed lifecycle"),
        );
    }
    Ok(())
}

/// The agent of a handoff: the resolved one, unless the handoff is of a pull
/// request alone.
pub fn resolve_handoff_agent(
    args: &StewardHandoffArgs,
    resolved: Result<Option<AgentResumeContext>, CliFailure>,
) -> (r: Result<Option<AgentResumeContext>, CliFailure>)
    ensures
        match resolved {
            Err(failure) => r == Err::<Option<AgentResumeContext>, CliFailure>(failure),
            Ok(agent) => match identity_error(*args, agent is Some) {
                Some(text) => fails(r, 1, text),
                None => r == Ok::<Option<AgentResumeContext>, CliFailure>(agent),
            },
        },
{
    let agent = match resolved {
        Ok(agent) => agent,
        Err(failure) => return Err(failure),
    };
    match validate_resolved_workstream_identity(args, agent.as_ref()) {
        Ok(_) => Ok(agent),
        Err(failure) => Err(failure),
    }
}

/// What the environment says of the agent and its terminal.
#[derive(Clone, Debug, PartialEq, Eq)]
pub struct AgentEnvironment {
    pub codex_session: Option<String>,
    pub claude_session: Option<String>,
    pub surface_id: Option<String>,
    pub herdr_env: Option<String>,
    pub herdr_session: Option<String>,
    pub herdr_workspace_id: Option<String>,
    pub herdr_tab_id: Option<String>,
    pub herdr_pane_id: Option<String>,
}

impl Default for AgentEnvironment {
    fn default() -> (r: Self)
        ensures
            r.codex_session is None,
            r.claude_session is None,
            r.surface_id is None,
            r.herdr_env is None,
            r.herdr_session is None,
            r.herdr_workspace_id is None,
            r.herdr_tab_id is None,
            r.herdr_pane_id is None,
    {
        AgentEnvironment {
            codex_session: None,
            claude_session: None,
            surface_id: None,
            herdr_env: None,
            herdr_session: None,
            herdr_workspace_id: None,
            herdr_tab_id: None,
            herdr_pane_id: None,
        }
    }
}

/// Whether the environment speaks of a HerdR terminal.
pub open spec fn herdr_present(environment: AgentEnvironment) -> bool {
    ||| environment.herdr_env is Some
    ||| environment.herdr_session is Some
    ||| environment.herdr_workspace_id is Some
    ||| environment.herdr_tab_id is Some
    ||| environment.herdr_pane_id is Some
}

/// Whether the environment speaks of a HerdR terminal.
pub fn herdr_route_input_present(environment: &AgentEnvironment) -> (r: bool)
    ensures
        r == herdr_present(*environment),
{
    environment.herdr_env.is_some() || environment.herdr_session.is_some()
        || environment.herdr_workspace_id.is_some() || environment.herdr_tab_id.is_some()
        || environment.herdr_pane_id.is_some()
}

/// Whether a character may stand in an identifier.
pub open spec fn identifier_char(c: char) -> bool {
    is_alnum(c) || c == '-' || c == '_' || c == '.' || c == ':'
}

/// Whether a text can be an identifier.
pub open spec fn is_identifier(s: Seq<char>) -> bool {
    s.len() > 0 && byte_length(s) <= 256 && forall|i: int|
        0 <= i < s.len() ==> identifier_char(#[trigger] s[i])
}

/// What is wrong with an identifier.
pub open spec fn identifier_error(label: Seq<char>, value: Seq<char>) -> Option<Seq<char>> {
    if is_identifier(value) {
        None
    } else {
        Some(label + " must be 1-256 safe identifier characters"@)
    }
}

/// Refuses what cannot be an identifier.
pub fn validate_agent_identifier(label: &str, value: &str) -> (r: Result<(), CliFailure>)
    ensures
        says(r, identifier_error(label@, value@)),
{
    let chars = to_chars(value);
    let mut valid = !value.is_empty() && byte_len(value) <= 256;
    let mut i: usize = 0;
    while i < chars.len()
        invariant
            i <= chars.len(),
            chars@ == value@,
            valid == (value@.len() > 0 && byte_length(value@) <= 256 && forall|k: int|
                0 <= k < i ==> identifier_char(#[trigger] value@[k])),
        decreases chars.len() - i,
    {
        let c = chars[i];
        if !(char_is_alnum(c) || c == '-' || c == '_' || c == '.' || c == ':') {
            valid = false;
        }
        i = i + 1;
    }
    if valid {
        Ok(())
    } else {
        Err(
            CliFailure::new(1, concat(label, " must be 1-256 safe identifier characters").as_str()),
        )
    }
}

/// The first of two errors.
pub open spec fn earlier(a: Option<Seq<char>>, b: Option<Seq<char>>) -> Option<Seq<char>> {
    if a is Some {
        a
    } else {
        b
    }
}

/// The terminal that an agent runs in, as the environment gives it. A HerdR
/// terminal must be named in full and cannot be combined with a surface.
pub open spec fn terminal_of(
    environment: AgentEnvironment,
    provider_session: Seq<char>,
    surface: Option<Seq<char>>,
) -> Result<TerminalView, Seq<char>> {
    match opt_view(environment.herdr_env) {
        Some(marker) => if marker != "1"@ {
            Err("HERDR_ENV must be exactly 1 when present"@)
        } else if surface is Some {
            Err("HerdR and cmux terminal routes cannot be combined"@)
        } else {
            match (
                opt_view(environment.herdr_workspace_id),
                opt_view(environment.herdr_tab_id),
                opt_view(environment.herdr_pane_id),
            ) {
                (Some(workspace), Some(tab), Some(pane)) => {
                    let session = or_text(opt_view(environment.herdr_session), "default"@);
                    let error = earlier(
                        identifier_error("HerdR session"@, session),
                        earlier(
                            identifier_error("HerdR workspace"@, workspace),
                            earlier(
                                identifier_error("HerdR tab"@, tab),
                                earlier(
                                    identifier_error("HerdR pane"@, pane),
                                    identifier_error("agent session"@, provider_session),
                                ),
                            ),
                        ),
                    );
                    match error {
                        Some(text) => Err(text),
                        None => Ok(
                            TerminalView::HerdR(session, workspace, tab, pane, provider_session),
                        ),
                    }
                },
                _ => Err(
                    "HERDR_ENV=1 requires workspace, tab, and pane identifiers; HERDR_SESSION is optional and defaults to default"@,
                ),
            }
        },
        None => if environment.herdr_session is Some || environment.herdr_workspace_id is Some
            || environment.herdr_tab_id is Some || environment.herdr_pane_id is Some {
            Err("HerdR route fields require explicit HERDR_ENV=1"@)
        } else {
            match surface {
                Some(surface) => Ok(TerminalView::Cmux(surface)),
                None => Ok(TerminalView::Absent),
            }
        },
    }
}

/// Whether a result shows a terminal or says why there is none.
pub open spec fn shows_terminal(
    r: Result<TerminalProvenance, CliFailure>,
    view: Result<TerminalView, Seq<char>>,
) -> bool {
    match view {
        Ok(terminal) => r matches Ok(found) && found@ == terminal,
        Err(text) => fails(r, 1, text),
    }
}

/// The terminal that an agent runs in, as the environment gives it.
pub fn resolve_terminal_provenance(
    environment: &AgentEnvironment,
    provider_session_id: &str,
    surface_id: Option<&String>,
) -> (r: Result<TerminalProvenance, CliFailure>)
    ensures
        shows_terminal(
            r,
            terminal_of(*environment, provider_session_id@, opt_ref_view(surface_id)),
        ),
{
    match &environment.herdr_env {
        Some(marker) => {
            if !str_eq(marker.as_str(), "1") {
                return Err(CliFailure::new(1, "HERDR_ENV must be exactly 1 when present"));
            }
            if surface_id.is_some() {
                return Err(
                    CliFailure::new(1, "HerdR and cmux terminal routes cannot be combined"),
                );
            }
            let (workspace, tab, pane) = match (
                &environment.herdr_workspace_id,
                &environment.herdr_tab_id,
                &environment.herdr_pane_id,
            ) {
                (Some(workspace), Some(tab), Some(pane)) => (workspace, tab, pane),
                _ => return Err(
                    CliFailure::new(
                        1,
                        "HERDR_ENV=1 requires workspace, tab, and pane identifiers; HERDR_SESSION is optional and defaults to default",
                    ),
                ),
            };
            let session = match &environment.herdr_session {
                Some(session) => session.as_str(),
                None => "default",
            };
            match validate_agent_identifier("HerdR session", session) {
                Ok(_) => {},
                Err(failure) => return Err(failure),
            }
            match validate_agent_identifier("HerdR workspace", workspace.as_str()) {
                Ok(_) => {},
                Err(failure) => return Err(failure),
            }
            match validate_agent_identifier("HerdR tab", tab.as_str()) {
                Ok(_) => {},
                Err(failure) => return Err(failure),
            }
            match validate_agent_identifier("HerdR pane", pane.as_str()) {
                Ok(_) => {},
                Err(failure) => return Err(failure),
            }
            match validate_agent_identifier("agent session", provider_session_id) {
                Ok(_) => {},
                Err(failure) => return Err(failure),
            }
            Ok(
                TerminalProvenance::HerdR {
                    session_id: session.to_owned(),
                    workspace_id: workspace.clone(),
                    tab_id: tab.clone(),
                    pane_id: pane.clone(),
                    provider_session_id: provider_session_id.to_owned(),
                },
            )
        },
        None => {
            if environment.herdr_session.is_some() || environment.herdr_workspace_id.is_some()
                || environment.herdr_tab_id.is_some() || environment.herdr_pane_id.is_some() {
                return Err(CliFailure::new(1, "HerdR route fields require explicit HERDR_ENV=1"));
            }
            match surface_id {
                Some(surface) => Ok(TerminalProvenance::Cmux { surface_id: surface.clone() }),
                None => Ok(TerminalProvenance::Absent),
            }
        },
    }
}

/// How an agent of the first provider is resumed.
pub const CODEX_TRANSPORT: &'static str = "codex_queue";

/// How an agent of the second provider is resumed.
pub const CLAUDE_TRANSPORT: &'static str = "claude_resume";

/// The provider of a transport: the name before the underscore.
pub open spec fn provider_of(transport: Seq<char>) -> Seq<char> {
    until(transport, '_')
}

/// A name as it begins a sentence.
pub open spec fn titled(name: Seq<char>) -> Seq<char> {
    if name.len() == 0 {
        name
    } else {
        upper(name.take(1)) + name.skip(1)
    }
}

/// A name as it begins a sentence.
pub fn title(name: &str) -> (r: String)
    ensures
        r@ == titled(name@),
{
    let length: usize = name.unicode_len();
    if length == 0 {
        return name.to_owned();
    }
    let first = name.substring_char(0, 1);
    let rest = name.substring_char(1, length);
    proof {
        assert(first@ =~= name@.take(1));
        assert(rest@ =~= name@.skip(1));
    }
    concat(to_upper(first).as_str(), rest)
}

/// What is said of a provider that has no transport.
pub open spec fn unknown_provider() -> Seq<char> {
    "agent provider must be "@ + provider_of(CODEX_TRANSPORT@) + " or "@ + provider_of(
        CLAUDE_TRANSPORT@,
    )
}

/// What is said of an environment that names an agent of each provider.
pub open spec fn two_providers() -> Seq<char> {
    "both "@ + titled(provider_of(CODEX_TRANSPORT@)) + " and "@ + titled(
        provider_of(CLAUDE_TRANSPORT@),
    ) + " session environments are present; pass --agent-provider and --agent-session-id explicitly"@
}

/// The agent's provider and session: the ones that were named, or the only one
/// that the environment gives.
pub open spec fn captured(args: StewardHandoffArgs, environment: AgentEnvironment) -> Option<
    (Seq<char>, Seq<char>),
> {
    match (opt_view(args.agent_provider), opt_view(args.agent_session_id)) {
        (Some(provider), Some(session)) => Some((provider, session)),
        _ => match opt_view(environment.codex_session) {
            Some(session) => Some((provider_of(CODEX_TRANSPORT@), session)),
            None => match opt_view(environment.claude_session) {
                Some(session) => Some((provider_of(CLAUDE_TRANSPORT@), session)),
                None => None,
            },
        },
    }
}

/// The agent's surface, and where it was learnt of.
pub open spec fn surface_of(args: StewardHandoffArgs, environment: AgentEnvironment) -> (
    Option<Seq<char>>,
    SurfaceProvenance,
) {
    match (opt_view(args.agent_surface_id), opt_view(environment.surface_id)) {
        (Some(surface), _) => (Some(surface), SurfaceProvenance::Explicit),
        (None, Some(surface)) => if is_blank(surface) {
            (None, SurfaceProvenance::Absent)
        } else {
            (Some(surface), SurfaceProvenance::AmbientCmux)
        },
        (None, None) => (None, SurfaceProvenance::Absent),
    }
}

/// What is wrong with an optional identifier.
pub open spec fn optional_identifier_error(label: Seq<char>, value: Option<Seq<char>>) -> Option<
    Seq<char>,
> {
    match value {
        Some(text) => identifier_error(label, text),
        None => None,
    }
}

/// How an agent of a provider is resumed.
pub open spec fn transport_of(provider: Seq<char>) -> Option<Seq<char>> {
    if provider == provider_of(CODEX_TRANSPORT@) {
        Some(CODEX_TRANSPORT@)
    } else if provider == provider_of(CLAUDE_TRANSPORT@) {
        Some(CLAUDE_TRANSPORT@)
    } else {
        None
    }
}

/// The agent with a provider and a session.
pub open spec fn agent_with(
    args: StewardHandoffArgs,
    environment: AgentEnvironment,
    provider: Seq<char>,
    session: Seq<char>,
) -> Result<AgentView, Seq<char>> {
    let (surface, surface_provenance) = surface_of(args, environment);
    let error = earlier(
        identifier_error("agent session"@, session),
        earlier(
            optional_identifier_error(
                "parent agent session"@,
                opt_view(args.agent_parent_session_id),
            ),
            optional_identifier_error("agent surface"@, surface),
        ),
    );
    match error {
        Some(text) => Err(text),
        None => match terminal_of(environment, session, surface) {
            Err(text) => Err(text),
            Ok(terminal) => match transport_of(provider) {
                None => Err(unknown_provider()),
                Some(transport) => Ok(
                    AgentView {
                        provider,
                        session_id: session,
                        parent_session_id: opt_view(args.agent_parent_session_id),
                        surface_id: surface,
                        surface_provenance,
                        terminal,
                        terminal_authority: None,
                        resume_transport: transport,
                    },
                ),
            },
        },
    }
}

/// The agent of a handoff, as its arguments and the environment give it.
pub open spec fn resolved_agent(args: StewardHandoffArgs, environment: AgentEnvironment) -> Result<
    Option<AgentView>,
    Seq<char>,
> {
    if args.agent_provider is Some != args.agent_session_id is Some {
        Err("--agent-provider and --agent-session-id must be supplied together"@)
    } else if args.agent_provider is None && environment.codex_session is Some
        && environment.claude_session is Some {
        Err(two_providers())
    } else {
        match captured(args, environment) {
            None => if herdr_present(environment) {
                Err("HerdR terminal route input requires a resumable agent session"@)
            } else if args.agent_parent_session_id is Some || args.agent_surface_id is Some {
                Err("agent parent/surface route fields require a resumable agent session"@)
            } else {
                Ok(None)
            },
            Some((provider, session)) => match agent_with(args, environment, provider, session) {
                Ok(agent) => Ok(Some(agent)),
                Err(text) => Err(text),
            },
        }
    }
}

/// Whether a result shows an agent, or says why there is none.
pub open spec fn shows_agent(
    r: Result<Option<AgentResumeContext>, CliFailure>,
    view: Result<Option<AgentView>, Seq<char>>,
) -> bool {
    match view {
        Ok(None) => r matches Ok(None),
        Ok(Some(agent)) => r matches Ok(Some(found)) && found@ == agent,
        Err(text) => fails(r, 1, text),
    }
}

fn resolve_named_agent(
    args: &StewardHandoffArgs,
    environment: &AgentEnvironment,
    provider: String,
    session_id: String,
) -> (r: Result<AgentResumeContext, CliFailure>)
    ensures
        match agent_with(*args, *environment, provider@, session_id@) {
            Ok(agent) => r matches Ok(found) && found@ == agent,
            Err(text) => fails(r, 1, text),
        },
{
    match validate_agent_identifier("agent session", session_id.as_str()) {
        Ok(_) => {},
        Err(failure) => return Err(failure),
    }
    match &args.agent_parent_session_id {
        Some(parent) => match validate_agent_identifier("parent agent session", parent.as_str()) {
            Ok(_) => {},
            Err(failure) => return Err(failure),
        },
        None => {},
    }
    let (surface_id, surface_provenance): (Option<String>, SurfaceProvenance) = match &args.agent_surface_id {
        Some(surface) => (Some(surface.clone()), SurfaceProvenance::Explicit),
        None => match &environment.surface_id {
            Some(surface) => if blank(surface.as_str()) {
                (None, SurfaceProvenance::Absent)
            } else {
                (Some(surface.clone()), SurfaceProvenance::AmbientCmux)
            },
            None => (None, SurfaceProvenance::Absent),
        },
    };
    match &surface_id {
        Some(surface) => match validate_agent_identifier("agent surface", surface.as_str()) {
            Ok(_) => {},
            Err(failure) => return Err(failure),
        },
        None => {},
    }
    let terminal_provenance = match resolve_terminal_provenance(
        environment,
        session_id.as_str(),
        surface_id.as_ref(),
    ) {
        Ok(terminal) => terminal,
        Err(failure) => return Err(failure),
    };
    let codex = head_until(CODEX_TRANSPORT, '_');
    let claude_name = head_until(CLAUDE_TRANSPORT, '_');
    let resume_transport = if str_eq(provider.as_str(), codex.as_str()) {
        CODEX_TRANSPORT.to_owned()
    } else if str_eq(provider.as_str(), claude_name.as_str()) {
        CLAUDE_TRANSPORT.to_owned()
    } else {
        let text = concat4(
            "agent provider must be ",
            codex.as_str(),
            " or ",
            claude_name.as_str(),
        );
        return Err(CliFailure::new(1, text.as_str()));
    };
    Ok(
        AgentResumeContext {
            provider,
            session_id,
            parent_session_id: copy_opt(args.agent_parent_session_id.as_ref()),
            surface_id,
            surface_provenance,
            terminal_provenance,
            terminal_authority: None,
            resume_transport,
        },
    )
}

/// The agent of a handoff, as its arguments and the environment give it. What is
/// named in part, or twice, is refused.
pub fn resolve_agent_context_with_environment(
    args: &StewardHandoffArgs,
    environment: &AgentEnvironment,
) -> (r: Result<Option<AgentResumeContext>, CliFailure>)
    ensures
        shows_agent(r, resolved_agent(*args, *environment)),
{
    if args.agent_provider.is_some() != args.agent_session_id.is_some() {
        return Err(
            CliFailure::new(
                1,
                "--agent-provider and --agent-session-id must be supplied together",
            ),
        );
    }
    if args.agent_provider.is_none() && environment.codex_session.is_some()
        && environment.claude_session.is_some() {
        let text = concat5(
            "both ",
            title(head_until(CODEX_TRANSPORT, '_').as_str()).as_str(),
            " and ",
            title(head_until(CLAUDE_TRANSPORT, '_').as_str()).as_str(),
            " session environments are present; pass --agent-provider and --agent-session-id explicitly",
        );
        return Err(CliFailure::new(1, text.as_str()));
    }
    let found: Option<(String, String)> = match (&args.agent_provider, &args.agent_session_id) {
        (Some(provider), Some(session)) => Some((provider.clone(), session.clone())),
        _ => match &environment.codex_session {
            Some(session) => Some((head_until(CODEX_TRANSPORT, '_'), session.clone())),
            None => match &environment.claude_session {
                Some(session) => Some((head_until(CLAUDE_TRANSPORT, '_'), session.clone())),
                None => None,
            },
        },
    };
    match found {
        None => {
            if herdr_route_input_present(environment) {
                return Err(
                    CliFailure::new(
                        1,
                        "HerdR terminal route input requires a resumable agent session",
                    ),
                );
            }
            if args.agent_parent_session_id.is_some() || args.agent_surface_id.is_some() {
                return Err(
                    CliFailure::new(
                        1,
                        "agent parent/surface route fields require a resumable agent session",
                    ),
                );
            }
            Ok(None)
        },
        Some((provider, session_id)) => {
            match resolve_named_agent(args, environment, provider, session_id) {
                Ok(agent) => Ok(Some(agent)),
                Err(failure) => Err(failure),
            }
        },
    }
}

/// A handoff of a pull request alone never binds an agent: in an environment that
/// names none it resolves to none, and one that names an agent is refused.
pub proof fn fallback_binds_no_agent(args: StewardHandoffArgs, environment: AgentEnvironment)
    requires
        legacy_fallback(args),
    ensures
        resolved_agent(args, environment) matches Ok(Some(_)) ==> identity_error(args, true) is Some,
        environment.codex_session is None && environment.claude_session is None && !herdr_present(
            environment,
        ) ==> resolved_agent(args, environment) == Ok::<Option<AgentView>, Seq<char>>(None),
{
}

/// The views of a list of texts.
pub open spec fn str_views(fields: Seq<&str>) -> Seq<Seq<char>> {
    Seq::new(fields.len(), |i: int| fields[i]@)
}

/// An identity made of texts that it does not tell.
pub open spec fn opaque(prefix: Seq<char>, fields: Seq<Seq<char>>) -> Seq<char> {
    prefix + "-"@ + sha256_hex(encode_utf8(prefix) + framed_all(fields))
}

/// An identity made of texts that it does not tell.
pub fn opaque_id(prefix: &str, fields: &Vec<&str>) -> (r: String)
    ensures
        r@ == opaque(prefix@, str_views(fields@)),
{
    let ghost all = str_views(fields@);
    let mut bytes = to_bytes(prefix);
    let ghost head = bytes@;
    let mut i: usize = 0;
    proof {
        assert(all.take(0) =~= Seq::<Seq<char>>::empty());
        assert(framed_all(all.take(0)) =~= Seq::<u8>::empty());
        assert(bytes@ =~= head + framed_all(all.take(0)));
    }
    while i < fields.len()
        invariant
            i <= fields.len(),
            all == str_views(fields@),
            bytes@ == head + framed_all(all.take(i as int)),
        decreases fields.len() - i,
    {
        let ghost before = bytes@;
        push_framed(&mut bytes, fields[i]);
        proof {
            crate::fingerprint::framed_all_push(all.take(i as int), all[i as int]);
            assert(all.take(i + 1) =~= all.take(i as int).push(all[i as int]));
            assert(bytes@ =~= head + framed_all(all.take(i + 1)));
        }
        i = i + 1;
    }
    proof {
        assert(all.take(i as int) =~= all);
    }
    concat3(prefix, "-", hex_digest(&bytes).as_str())
}

/// The identity of an owner.
pub open spec fn owner_identity(provider: Seq<char>, session: Seq<char>) -> Seq<char> {
    opaque("owner"@, seq![provider, session])
}

/// The identity of a route.
pub open spec fn route_identity(agent: AgentView, origin: Seq<char>) -> Seq<char> {
    let base = seq![
        origin,
        agent.provider,
        agent.session_id,
        or_text(agent.parent_session_id, ""@),
        "session"@,
        agent.resume_transport,
    ];
    match agent.terminal {
        TerminalView::HerdR(session, workspace, tab, pane, provider_session) => opaque(
            "route"@,
            base.push(
                opaque("herdr"@, seq![session, workspace, tab, pane, provider_session]),
            ),
        ),
        _ => opaque("route"@, base),
    }
}

/// The kind that a route is bound to.
pub open spec fn route_kind(terminal: TerminalView) -> TerminalProvenanceKind {
    match terminal {
        TerminalView::HerdR(..) => TerminalProvenanceKind::HerdR,
        _ => TerminalProvenanceKind::Absent,
    }
}

/// The route to an agent.
pub open spec fn route_to(agent: AgentView, origin: Seq<char>) -> RouteView {
    RouteView {
        route_id: route_identity(agent, origin),
        owner_id: owner_identity(agent.provider, agent.session_id),
        provider: agent.provider,
        origin_machine: origin,
        resume_transport: agent.resume_transport,
        terminal_provenance: route_kind(agent.terminal),
    }
}

/// The identity of an owner.
pub fn owner_id_of(provider: &str, session: &str) -> (r: String)
    ensures
        r@ == owner_identity(provider@, session@),
{
    let mut fields: Vec<&str> = Vec::new();
    fields.push(provider);
    fields.push(session);
    proof {
        assert(str_views(fields@) =~= seq![provider@, session@]);
    }
    opaque_id("owner", &fields)
}

/// The route to an agent. What is private to the agent is not told.
pub fn agent_route_reference(agent: &AgentResumeContext, origin_machine: &str) -> (r:
    AgentRouteReference)
    ensures
        r@ == route_to(agent@, origin_machine@),
{
    let owner_id = owner_id_of(agent.provider.as_str(), agent.session_id.as_str());
    let parent = match &agent.parent_session_id {
        Some(parent) => parent.as_str(),
        None => "",
    };
    let mut fields: Vec<&str> = Vec::new();
    fields.push(origin_machine);
    fields.push(agent.provider.as_str());
    fields.push(agent.session_id.as_str());
    fields.push(parent);
    fields.push("session");
    fields.push(agent.resume_transport.as_str());
    let ghost base = seq![
        origin_machine@,
        agent.provider@,
        agent.session_id@,
        or_text(opt_view(agent.parent_session_id), ""@),
        "session"@,
        agent.resume_transport@,
    ];
    proof {
        assert(str_views(fields@) =~= base);
    }
    let route_id = match &agent.terminal_provenance {
        TerminalProvenance::HerdR {
            session_id,
            workspace_id,
            tab_id,
            pane_id,
            provider_session_id,
        } => {
            let mut parts: Vec<&str> = Vec::new();
            parts.push(session_id.as_str());
            parts.push(workspace_id.as_str());
            parts.push(tab_id.as_str());
            parts.push(pane_id.as_str());
            parts.push(provider_session_id.as_str());
            proof {
                assert(str_views(parts@) =~= seq![
                    session_id@,
                    workspace_id@,
                    tab_id@,
                    pane_id@,
                    provider_session_id@,
                ]);
            }
            let binding = opaque_id("herdr", &parts);
            let mut longer: Vec<&str> = fields;
            longer.push(binding.as_str());
            proof {
                assert(str_views(longer@) =~= base.push(binding@));
            }
            opaque_id("route", &longer)
        },
        _ => opaque_id("route", &fields),
    };
    AgentRouteReference {
        route_id,
        owner_id,
        provider: agent.provider.clone(),
        origin_machine: origin_machine.to_owned(),
        resume_transport: agent.resume_transport.clone(),
        terminal_provenance: agent.terminal_provenance.kind(),
    }
}

/// A surface that comes, goes or moves does not change an agent's route.
pub proof fn surfaces_do_not_change_the_route(a: AgentView, b: AgentView, origin: Seq<char>)
    requires
        a.provider == b.provider,
        a.session_id == b.session_id,
        a.parent_session_id == b.parent_session_id,
        a.resume_transport == b.resume_transport,
        !(a.terminal is HerdR),
        !(b.terminal is HerdR),
    ensures
        route_to(a, origin) == route_to(b, origin),
{
}

/// A text that is not blank.
pub open spec fn not_blank(o: Option<Seq<char>>) -> Option<Seq<char>> {
    match o {
        Some(text) => if is_blank(text) {
            None
        } else {
            Some(text)
        },
        None => None,
    }
}

fn unless_blank(o: Option<String>) -> (r: Option<String>)
    ensures
        opt_view(r) == not_blank(opt_view(o)),
{
    match o {
        Some(text) => if blank(text.as_str()) {
            None
        } else {
            Some(text)
        },
        None => None,
    }
}

/// The environment as it counts: a session or a surface that is blank is none.
pub fn ambient_environment(raw: AgentEnvironment) -> (r: AgentEnvironment)
    ensures
        opt_view(r.codex_session) == not_blank(opt_view(raw.codex_session)),
        opt_view(r.claude_session) == not_blank(opt_view(raw.claude_session)),
        opt_view(r.surface_id) == not_blank(opt_view(raw.surface_id)),
        r.herdr_env == raw.herdr_env,
        r.herdr_session == raw.herdr_session,
        r.herdr_workspace_id == raw.herdr_workspace_id,
        r.herdr_tab_id == raw.herdr_tab_id,
        r.herdr_pane_id == raw.herdr_pane_id,
{
    AgentEnvironment {
        codex_session: unless_blank(raw.codex_session),
        claude_session: unless_blank(raw.claude_session),
        surface_id: unless_blank(raw.surface_id),
        herdr_env: raw.herdr_env,
        herdr_session: raw.herdr_session,
        herdr_workspace_id: raw.herdr_workspace_id,
        herdr_tab_id: raw.herdr_tab_id,
        herdr_pane_id: raw.herdr_pane_id,
    }
}

/// What a terminal is asked for on behalf of an agent.
#[derive(Debug)]
pub enum TerminalRequest {
    /// Nothing.
    Nothing,
    /// The surface is captured by this socket.
    Cmux { socket_path: String, surface_id: String, session_id: String, provider: String },
    /// The pane is addressed.
    HerdR {
        selector: String,
        terminal_id: String,
        native_session_id: String,
        provider_kind: String,
    },
}

/// What a terminal is asked for on behalf of an agent. A surface needs the socket
/// by which it is captured.
pub fn resolve_agent_context(agent: &AgentResumeContext, socket_path: Option<String>) -> (r: Result<
    TerminalRequest,
    CliFailure,
>)
    ensures
        match agent.terminal_provenance {
            TerminalProvenance::Absent => r == Ok::<TerminalRequest, CliFailure>(
                TerminalRequest::Nothing,
            ),
            TerminalProvenance::Cmux { surface_id: surface } => match not_blank(
                opt_view(socket_path),
            ) {
                None => fails(r, 1, "cmux terminal authority requires CMUX_SOCKET_PATH"@),
                Some(path) => r matches Ok(
                    TerminalRequest::Cmux { socket_path, surface_id, session_id, provider },
                ) && socket_path@ == path && surface_id@ == surface@ && session_id@
                    == agent.session_id@ && provider@ == agent.provider@,
            },
            TerminalProvenance::HerdR { session_id, pane_id, .. } => r matches Ok(
                TerminalRequest::HerdR {
                    selector,
                    terminal_id,
                    native_session_id,
                    provider_kind,
                },
            ) && selector@ == session_id@ && terminal_id@ == pane_id@ && native_session_id@
                == agent.session_id@ && provider_kind@ == agent.provider@,
        },
{
    match &agent.terminal_provenance {
        TerminalProvenance::Absent => Ok(TerminalRequest::Nothing),
        TerminalProvenance::Cmux { surface_id } => match unless_blank(socket_path) {
            None => Err(CliFailure::new(1, "cmux terminal authority requires CMUX_SOCKET_PATH")),
            Some(socket_path) => Ok(
                TerminalRequest::Cmux {
                    socket_path,
                    surface_id: surface_id.clone(),
                    session_id: agent.session_id.clone(),
                    provider: agent.provider.clone(),
                },
            ),
        },
        TerminalProvenance::HerdR { session_id, pane_id, .. } => Ok(
            TerminalRequest::HerdR {
                selector: session_id.clone(),
                terminal_id: pane_id.clone(),
                native_session_id: agent.session_id.clone(),
                provider_kind: agent.provider.clone(),
            },
        ),
    }
}

/// Arguments are accepted exactly where they name a pull request and its full head, any
/// context is a web address, and a transfer names the new agent.
pub proof fn exact_arguments_are_accepted(args: StewardHandoffArgs)
    ensures
        args_error(args) is None <==> args.pr > 0 && full_sha(args.head@) && (opt_view(
            args.context_url,
        ) matches Some(url) ==> has_prefix(url, "https://"@) || has_prefix(url, "http://"@)) && (
        args.transfer_agent_owner ==> args.agent_provider is Some && args.agent_session_id is Some),
{
}

/// A fallback binds no agent, and nothing else is refused on that account.
pub proof fn only_the_fallback_refuses_an_agent(args: StewardHandoffArgs, agent: bool)
    ensures
        identity_error(args, agent) is Some <==> legacy_fallback(args) && agent,
        legacy_fallback(args) ==> args.agent_provider is None && args.agent_session_id is None
            && args.agent_parent_session_id is None && args.agent_surface_id is None
            && !args.transfer_agent_owner,
{
}

/// An agent that is named in the arguments is taken before any of the environment, and a
/// name without a session, or a session without a name, is refused.
pub proof fn a_named_agent_comes_first(args: StewardHandoffArgs, environment: AgentEnvironment)
    ensures
        args.agent_provider is Some && args.agent_session_id is Some ==> captured(args, environment)
            == Some((args.agent_provider->Some_0@, args.agent_session_id->Some_0@)),
        args.agent_provider is Some != args.agent_session_id is Some ==> resolved_agent(
            args,
            environment,
        ) is Err,
        args.agent_provider is None && args.agent_session_id is None ==> {
            &&& environment.codex_session is Some && environment.claude_session is Some
                ==> resolved_agent(args, environment) is Err
            &&& environment.codex_session matches Some(session) ==> captured(args, environment)
                == Some((provider_of(CODEX_TRANSPORT@), session@))
            &&& environment.codex_session is None ==> (environment.claude_session matches Some(session)
                ==> captured(args, environment) == Some((provider_of(CLAUDE_TRANSPORT@), session@)))
            &&& environment.codex_session is None && environment.claude_session is None ==> captured(
                args,
                environment,
            ) is None
        },
{
}

/// An agent that is resolved is the captured one, with the surface and the terminal that
/// were given, and is resumed by the transport of its provider.
pub proof fn a_resolved_agent_is_the_captured_one(
    args: StewardHandoffArgs,
    environment: AgentEnvironment,
)
    ensures
        resolved_agent(args, environment) matches Ok(Some(agent)) ==> {
            &&& captured(args, environment) == Some((agent.provider, agent.session_id))
            &&& agent.parent_session_id == opt_view(args.agent_parent_session_id)
            &&& transport_of(agent.provider) == Some(agent.resume_transport)
            &&& provider_of(agent.resume_transport) == agent.provider
            &&& is_identifier(agent.session_id)
            &&& terminal_of(environment, agent.session_id, agent.surface_id) == Ok::<
                TerminalView,
                Seq<char>,
            >(agent.terminal)
            &&& args.agent_surface_id matches Some(surface) ==> agent.surface_id == Some(surface@)
                && agent.surface_provenance == SurfaceProvenance::Explicit
        },
        resolved_agent(args, environment) matches Ok(None) ==> captured(args, environment) is None
            && !herdr_present(environment) && args.agent_parent_session_id is None
            && args.agent_surface_id is None,
{
}

/// A surface that is named in the arguments is taken before that of the environment, and a
/// blank one of the environment is none.
pub proof fn a_named_surface_comes_first(args: StewardHandoffArgs, environment: AgentEnvironment)
    ensures
        args.agent_surface_id matches Some(surface) ==> surface_of(args, environment) == (
            Some(surface@),
            SurfaceProvenance::Explicit,
        ),
        args.agent_surface_id is None ==> {
            &&& surface_of(args, environment).1 != SurfaceProvenance::Explicit
            &&& surface_of(args, environment).0 is Some <==> surface_of(args, environment).1
                == SurfaceProvenance::AmbientCmux
            &&& surface_of(args, environment).0 is Some <==> (opt_view(environment.surface_id)
                matches Some(surface) && !is_blank(surface))
        },
{
}

/// A terminal is of the one kind only where its marker and its places are all given and no
/// surface is; it is of the other where a surface is given and none of these are; without
/// either there is none, and every mixture is refused.
pub proof fn a_terminal_is_of_one_kind(
    environment: AgentEnvironment,
    provider_session: Seq<char>,
    surface: Option<Seq<char>>,
)
    ensures
        terminal_of(environment, provider_session, surface) matches Ok(terminal) ==> {
            &&& terminal is HerdR <==> environment.herdr_env is Some
            &&& terminal is HerdR ==> surface is None && opt_view(environment.herdr_env) == Some(
                "1"@,
            ) && environment.herdr_workspace_id is Some && environment.herdr_tab_id is Some
                && environment.herdr_pane_id is Some && terminal->HerdR_4 == provider_session
            &&& terminal is Cmux ==> surface == Some(terminal->Cmux_0)
            &&& terminal is Absent ==> surface is None
        },
        !herdr_present(environment) ==> terminal_of(environment, provider_session, surface) is Ok,
        environment.herdr_env is None && herdr_present(environment) ==> terminal_of(
            environment,
            provider_session,
            surface,
        ) is Err,
        environment.herdr_env is Some && surface is Some ==> terminal_of(
            environment,
            provider_session,
            surface,
        ) is Err,
{
}

/// A route names its owner and its transport, and an agent behind one kind of terminal is
/// told by that kind.
pub proof fn a_route_leads_to_its_agent(agent: AgentView, origin: Seq<char>)
    ensures
        route_to(agent, origin).provider == agent.provider,
        route_to(agent, origin).origin_machine == origin,
        route_to(agent, origin).resume_transport == agent.resume_transport,
        route_to(agent, origin).owner_id == owner_identity(agent.provider, agent.session_id),
        route_to(agent, origin).terminal_provenance == TerminalProvenanceKind::HerdR
            <==> agent.terminal is HerdR,
{
}

/// Identifiers are made of safe characters, and of at least one and not too many.
pub proof fn identifiers_are_bounded_and_safe(label: Seq<char>, value: Seq<char>, i: int)
    ensures
        value.len() == 0 ==> identifier_error(label, value) is Some,
        byte_length(value) > 256 ==> identifier_error(label, value) is Some,
        0 <= i < value.len() && !identifier_char(value[i]) ==> identifier_error(label, value) is Some,
        value.len() > 0 && byte_length(value) <= 256 && (forall|k: int|
            0 <= k < value.len() ==> identifier_char(#[trigger] value[k])) ==> identifier_error(
            label,
            value,
        ) is None,
{
}

} // verus!
