//! The private record of a route: what may change in it, and what may not.
use vstd::prelude::*;

use crate::model::{fails, CliFailure};
use crate::routes::{
    agent_route_reference, identifier_error, route_to, validate_agent_identifier,
    AgentResumeContext, AgentRouteReference, AgentView, RouteView, SurfaceProvenance,
    TerminalProvenance, TerminalView,
};
use crate::text::{copy_opt, opt_eq, opt_is, str_eq};

verus! {

/// The private record of a route.
#[derive(Clone, Debug, PartialEq, Eq)]
pub struct StoredAgentRoute {
    pub schema_version: u32,
    pub route_id: String,
    pub owner_id: String,
    pub origin_machine: String,
    pub agent: AgentResumeContext,
    pub revision: u64,
    pub created_at: String,
    pub updated_at: String,
}

/// What a record says.
pub struct StoredRouteView {
    pub schema_version: u32,
    pub route_id: Seq<char>,
    pub owner_id: Seq<char>,
    pub origin_machine: Seq<char>,
    pub agent: AgentView,
    pub revision: u64,
    pub created_at: Seq<char>,
    pub updated_at: Seq<char>,
}

impl View for StoredAgentRoute {
    type V = StoredRouteView;

    open spec fn view(&self) -> StoredRouteView {
        StoredRouteView {
            schema_version: self.schema_version,
            route_id: self.route_id@,
            owner_id: self.owner_id@,
            origin_machine: self.origin_machine@,
            agent: self.agent@,
            revision: self.revision,
            created_at: self.created_at@,
            updated_at: self.updated_at@,
        }
    }
}

/// Whether two terminals are the same as far as a route is bound to them: a
/// surface may vanish or move, and one that was known without its terminal may
/// get it.
pub open spec fn compatible_terminals(existing: AgentView, incoming: AgentView) -> bool {
    match (existing.terminal, incoming.terminal) {
        (TerminalView::Absent, TerminalView::Absent) => true,
        (TerminalView::Cmux(_), TerminalView::Absent) => true,
        (TerminalView::Cmux(_), TerminalView::Cmux(_)) => true,
        (TerminalView::Absent, TerminalView::Cmux(surface)) => existing.surface_id == Some(surface),
        (TerminalView::HerdR(..), _) => existing.terminal == incoming.terminal,
        _ => false,
    }
}

/// Whether two agents are the same as far as a route is bound to them.
pub open spec fn same_contract(existing: AgentView, incoming: AgentView) -> bool {
    &&& existing.provider == incoming.provider
    &&& existing.session_id == incoming.session_id
    &&& existing.parent_session_id == incoming.parent_session_id
    &&& existing.resume_transport == incoming.resume_transport
    &&& compatible_terminals(existing, incoming)
}

/// Whether two agents are the same as far as a route is bound to them.
pub fn same_immutable_agent_contract(
    existing: &AgentResumeContext,
    incoming: &AgentResumeContext,
) -> (r: bool)
    ensures
        r == same_contract(existing@, incoming@),
{
    if !(str_eq(existing.provider.as_str(), incoming.provider.as_str()) && str_eq(
        existing.session_id.as_str(),
        incoming.session_id.as_str(),
    ) && opt_eq(&existing.parent_session_id, &incoming.parent_session_id) && str_eq(
        existing.resume_transport.as_str(),
        incoming.resume_transport.as_str(),
    )) {
        return false;
    }
    match (&existing.terminal_provenance, &incoming.terminal_provenance) {
        (TerminalProvenance::Absent, TerminalProvenance::Absent) => true,
        (TerminalProvenance::Cmux { .. }, TerminalProvenance::Absent) => true,
        (TerminalProvenance::Cmux { .. }, TerminalProvenance::Cmux { .. }) => true,
        (TerminalProvenance::Absent, TerminalProvenance::Cmux { surface_id }) => opt_is(
            existing.surface_id.as_ref(),
            surface_id.as_str(),
        ),
        (TerminalProvenance::HerdR { .. }, _) => existing.terminal_provenance.same_as(
            &incoming.terminal_provenance,
        ),
        _ => false,
    }
}

/// The surface of a route after an agent was seen again: one that was named stays,
/// unless the owner changes.
pub open spec fn reconciled_surface(
    existing: AgentView,
    incoming: AgentView,
    allow_change: bool,
) -> Option<(Option<Seq<char>>, SurfaceProvenance)> {
    let kept = (existing.surface_id, existing.surface_provenance);
    match incoming.surface_provenance {
        SurfaceProvenance::Explicit => if existing.surface_provenance
            == SurfaceProvenance::AmbientCmux && existing.surface_id == incoming.surface_id {
            Some((existing.surface_id, SurfaceProvenance::Explicit))
        } else if allow_change {
            Some((incoming.surface_id, SurfaceProvenance::Explicit))
        } else if existing.surface_provenance == SurfaceProvenance::Explicit && existing.surface_id
            == incoming.surface_id {
            Some(kept)
        } else {
            None
        },
        SurfaceProvenance::AmbientCmux => if existing.surface_provenance
            != SurfaceProvenance::Explicit {
            Some((incoming.surface_id, SurfaceProvenance::AmbientCmux))
        } else {
            Some(kept)
        },
        SurfaceProvenance::Absent => Some(kept),
    }
}

/// The agent of a route after it was seen again.
pub open spec fn reconciled(existing: AgentView, incoming: AgentView, allow_change: bool) -> Option<
    AgentView,
> {
    match reconciled_surface(existing, incoming, allow_change) {
        None => None,
        Some((surface_id, surface_provenance)) => Some(
            AgentView {
                surface_id,
                surface_provenance,
                terminal: match incoming.terminal {
                    TerminalView::Cmux(surface) => TerminalView::Cmux(surface),
                    _ => existing.terminal,
                },
                terminal_authority: match incoming.terminal {
                    TerminalView::Cmux(_) => incoming.terminal_authority,
                    _ => existing.terminal_authority,
                },
                ..existing
            },
        ),
    }
}

/// The agent of a route after it was seen again. A named surface changes only
/// with the owner.
pub fn reconcile_surface_route(
    existing: &AgentResumeContext,
    incoming: &AgentResumeContext,
    allow_explicit_surface_change: bool,
) -> (r: Result<AgentResumeContext, CliFailure>)
    ensures
        match reconciled(existing@, incoming@, allow_explicit_surface_change) {
            Some(agent) => r matches Ok(found) && found@ == agent,
            None => fails(
                r,
                1,
                "explicit agent surface changed; explicit ownership transfer is required"@,
            ),
        },
{
    let mut out = existing.dup();
    match incoming.surface_provenance {
        SurfaceProvenance::Explicit => {
            let same = opt_eq(&existing.surface_id, &incoming.surface_id);
            if existing.surface_provenance == SurfaceProvenance::AmbientCmux && same {
                out.surface_provenance = SurfaceProvenance::Explicit;
            } else if allow_explicit_surface_change {
                out.surface_id = copy_opt(incoming.surface_id.as_ref());
                out.surface_provenance = SurfaceProvenance::Explicit;
            } else if !(existing.surface_provenance == SurfaceProvenance::Explicit && same) {
                return Err(
                    CliFailure::new(
                        1,
                        "explicit agent surface changed; explicit ownership transfer is required",
                    ),
                );
            }
        },
        SurfaceProvenance::AmbientCmux => {
            if existing.surface_provenance != SurfaceProvenance::Explicit {
                out.surface_id = copy_opt(incoming.surface_id.as_ref());
                out.surface_provenance = SurfaceProvenance::AmbientCmux;
            }
        },
        SurfaceProvenance::Absent => {},
    }
    match &incoming.terminal_provenance {
        TerminalProvenance::Cmux { surface_id } => {
            out.terminal_provenance = TerminalProvenance::Cmux { surface_id: surface_id.clone() };
            out.terminal_authority = copy_opt(incoming.terminal_authority.as_ref());
        },
        _ => {},
    }
    proof {
        assert(out@ == reconciled(existing@, incoming@, allow_explicit_surface_change)->Some_0);
    }
    Ok(out)
}

/// Whether a record is that of a route.
pub open spec fn is_record_of(
    existing: StoredRouteView,
    route: RouteView,
    agent: AgentView,
) -> bool {
    &&& existing.schema_version == 2
    &&& existing.revision != 0
    &&& existing.route_id == route.route_id
    &&& existing.owner_id == route.owner_id
    &&& existing.origin_machine == route.origin_machine
    &&& same_contract(existing.agent, agent)
}

/// The record that is saved after an agent was seen: `Ok(None)` where nothing has
/// changed.
pub open spec fn persisted_route(
    existing: Option<StoredRouteView>,
    route: RouteView,
    agent: AgentView,
    allow_change: bool,
    at: Seq<char>,
) -> Result<Option<StoredRouteView>, Seq<char>> {
    if route_to(agent, route.origin_machine) != route {
        Err("agent route reference does not match its provider/session/origin contract"@)
    } else {
        match existing {
            None => Ok(
                Some(
                    StoredRouteView {
                        schema_version: 2,
                        route_id: route.route_id,
                        owner_id: route.owner_id,
                        origin_machine: route.origin_machine,
                        agent,
                        revision: 1,
                        created_at: at,
                        updated_at: at,
                    },
                ),
            ),
            Some(stored) => if !is_record_of(stored, route, agent) {
                Err("opaque agent-route identity collision"@)
            } else {
                match reconciled(stored.agent, agent, allow_change) {
                    None => Err(
                        "explicit agent surface changed; explicit ownership transfer is required"@,
                    ),
                    Some(next) => if next == stored.agent {
                        Ok(None)
                    } else if stored.revision == u64::MAX {
                        Err("agent-route revision overflow"@)
                    } else {
                        Ok(
                            Some(
                                StoredRouteView {
                                    agent: next,
                                    revision: (stored.revision + 1) as u64,
                                    updated_at: at,
                                    ..stored
                                },
                            ),
                        )
                    },
                }
            },
        }
    }
}

/// The record that is saved after an agent was seen: `Ok(None)` where nothing has
/// changed.
pub fn persist_agent_route_with_transfer(
    existing: Option<StoredAgentRoute>,
    route: &AgentRouteReference,
    agent: &AgentResumeContext,
    allow_explicit_surface_change: bool,
    at: &str,
) -> (r: Result<Option<StoredAgentRoute>, CliFailure>)
    ensures
        ({
            let before = match existing {
                Some(stored) => Some(stored@),
                None => None,
            };
            match persisted_route(before, route@, agent@, allow_explicit_surface_change, at@) {
                Err(text) => fails(r, 1, text),
                Ok(None) => r matches Ok(None),
                Ok(Some(view)) => r matches Ok(Some(stored)) && stored@ == view,
            }
        }),
{
    if !agent_route_reference(agent, route.origin_machine.as_str()).same_as(route) {
        return Err(
            CliFailure::new(
                1,
                "agent route reference does not match its provider/session/origin contract",
            ),
        );
    }
    match existing {
        None => Ok(
            Some(
                StoredAgentRoute {
                    schema_version: 2,
                    route_id: route.route_id.clone(),
                    owner_id: route.owner_id.clone(),
                    origin_machine: route.origin_machine.clone(),
                    agent: agent.dup(),
                    revision: 1,
                    created_at: at.to_owned(),
                    updated_at: at.to_owned(),
                },
            ),
        ),
        Some(stored) => {
            if !(stored.schema_version == 2 && stored.revision != 0 && str_eq(
                stored.route_id.as_str(),
                route.route_id.as_str(),
            ) && str_eq(stored.owner_id.as_str(), route.owner_id.as_str()) && str_eq(
                stored.origin_machine.as_str(),
                route.origin_machine.as_str(),
            ) && same_immutable_agent_contract(&stored.agent, agent)) {
                return Err(CliFailure::new(1, "opaque agent-route identity collision"));
            }
            let next = match reconcile_surface_route(
                &stored.agent,
                agent,
                allow_explicit_surface_change,
            ) {
                Ok(next) => next,
                Err(failure) => return Err(failure),
            };
            if next.same_as(&stored.agent) {
                return Ok(None);
            }
            if stored.revision == u64::MAX {
                return Err(CliFailure::new(1, "agent-route revision overflow"));
            }
            Ok(
                Some(
                    StoredAgentRoute {
                        schema_version: stored.schema_version,
                        route_id: stored.route_id,
                        owner_id: stored.owner_id,
                        origin_machine: stored.origin_machine,
                        agent: next,
                        revision: stored.revision + 1,
                        created_at: stored.created_at,
                        updated_at: at.to_owned(),
                    },
                ),
            )
        },
    }
}

/// A record never changes its owner, its route or its session, whatever agent is
/// seen.
pub proof fn records_keep_their_owner(
    stored: StoredRouteView,
    route: RouteView,
    agent: AgentView,
    allow_change: bool,
    at: Seq<char>,
)
    ensures
        persisted_route(Some(stored), route, agent, allow_change, at) matches Ok(Some(next)) ==> {
            &&& next.route_id == stored.route_id
            &&& next.owner_id == stored.owner_id
            &&& next.origin_machine == stored.origin_machine
            &&& next.agent.provider == stored.agent.provider
            &&& next.agent.session_id == stored.agent.session_id
            &&& next.agent.parent_session_id == stored.agent.parent_session_id
            &&& next.revision == stored.revision + 1
            &&& next.created_at == stored.created_at
        },
{
}

/// A surface that was named changes only with the owner.
pub proof fn named_surfaces_stay(existing: AgentView, incoming: AgentView)
    requires
        existing.surface_provenance == SurfaceProvenance::Explicit,
    ensures
        reconciled(existing, incoming, false) matches Some(next) ==> next.surface_id
            == existing.surface_id && next.surface_provenance == SurfaceProvenance::Explicit,
{
}

/// Seeing the same agent again changes nothing.
pub proof fn seeing_an_agent_again_changes_nothing(
    stored: StoredRouteView,
    route: RouteView,
    at: Seq<char>,
)
    requires
        is_record_of(stored, route, stored.agent),
        route_to(stored.agent, route.origin_machine) == route,
        stored.agent.surface_provenance == SurfaceProvenance::Absent ==> stored.agent.surface_id
            is None,
    ensures
        persisted_route(Some(stored), route, stored.agent, false, at) == Ok::<
            Option<StoredRouteView>,
            Seq<char>,
        >(None),
{
    assert(reconciled(stored.agent, stored.agent, false)->Some_0 =~= stored.agent);
}

/// The identity of a machine, as it is stored.
pub open spec fn stored_machine(schema_version: u32, id: Seq<char>) -> Result<Seq<char>, Seq<char>> {
    if schema_version != 1 {
        Err("unsupported stored machine identity schema"@)
    } else {
        match identifier_error("origin machine"@, id) {
            Some(text) => Err(text),
            None => Ok(id),
        }
    }
}

/// The identity of a machine, as it is stored.
pub fn resolve_origin_machine(schema_version: u32, id: String) -> (r: Result<String, CliFailure>)
    ensures
        match stored_machine(schema_version, id@) {
            Ok(text) => r matches Ok(found) && found@ == text,
            Err(text) => fails(r, 1, text),
        },
{
    if schema_version != 1 {
        return Err(CliFailure::new(1, "unsupported stored machine identity schema"));
    }
    match validate_agent_identifier("origin machine", id.as_str()) {
        Ok(_) => Ok(id),
        Err(failure) => Err(failure),
    }
}

/// The identity of a machine before one is stored: its tag, or the name of a
/// machine that has none.
pub fn preview_origin_machine(tag: Option<String>) -> (r: String)
    ensures
        r@ == match tag {
            Some(tag) => tag@,
            None => "unpersisted-machine"@,
        },
{
    match tag {
        Some(tag) => tag,
        None => "unpersisted-machine".to_owned(),
    }
}

/// The identity of a machine that is about to be stored: its tag, or one made of
/// the moment, the process and the place. It must be an identifier.
pub fn new_origin_machine(tag: Option<String>, now: &str, process: &str, place: &str) -> (r: Result<
    String,
    CliFailure,
>)
    ensures
        ({
            let id = match tag {
                Some(tag) => tag@,
                None => crate::routes::opaque("machine"@, seq![now@, process@, place@]),
            };
            match identifier_error("origin machine"@, id) {
                Some(text) => fails(r, 1, text),
                None => r matches Ok(found) && found@ == id,
            }
        }),
{
    let id = match tag {
        Some(tag) => tag,
        None => {
            let mut fields: Vec<&str> = Vec::new();
            fields.push(now);
            fields.push(process);
            fields.push(place);
            proof {
                assert(crate::routes::str_views(fields@) =~= seq![now@, process@, place@]);
            }
            crate::routes::opaque_id("machine", &fields)
        },
    };
    match validate_agent_identifier("origin machine", id.as_str()) {
        Ok(_) => Ok(id),
        Err(failure) => Err(failure),
    }
}

/// The record that is saved after an agent was seen by its own owner.
pub fn persist_agent_route(
    existing: Option<StoredAgentRoute>,
    route: &AgentRouteReference,
    agent: &AgentResumeContext,
    at: &str,
) -> (r: Result<Option<StoredAgentRoute>, CliFailure>)
    ensures
        ({
            let before = match existing {
                Some(stored) => Some(stored@),
                None => None,
            };
            match persisted_route(before, route@, agent@, false, at@) {
                Err(text) => fails(r, 1, text),
                Ok(None) => r matches Ok(None),
                Ok(Some(view)) => r matches Ok(Some(stored)) && stored@ == view,
            }
        }),
{
    persist_agent_route_with_transfer(existing, route, agent, false, at)
}

/// An agent agrees with itself, and with no agent of another provider, session, parent or
/// transport; an agent in the one kind of terminal agrees only with one in the same place.
pub proof fn only_the_same_agent_agrees(existing: AgentView, incoming: AgentView)
    ensures
        same_contract(existing, existing),
        same_contract(existing, incoming) ==> existing.provider == incoming.provider
            && existing.session_id == incoming.session_id && existing.parent_session_id
            == incoming.parent_session_id && existing.resume_transport == incoming.resume_transport,
        same_contract(existing, incoming) && existing.terminal is HerdR ==> existing.terminal
            == incoming.terminal,
        same_contract(existing, incoming) && incoming.terminal is HerdR ==> existing.terminal
            == incoming.terminal,
        existing.provider == incoming.provider && existing.session_id == incoming.session_id
            && existing.parent_session_id == incoming.parent_session_id && existing.resume_transport
            == incoming.resume_transport && existing.terminal == incoming.terminal
            ==> same_contract(existing, incoming),
{
}

/// A change is refused exactly where a surface is newly named, without permission, that is
/// not the known one; an ambient surface replaces an ambient one and never a named one.
pub proof fn only_a_newly_named_surface_is_refused(
    existing: AgentView,
    incoming: AgentView,
    allow_change: bool,
)
    ensures
        reconciled(existing, incoming, allow_change) is None <==> incoming.surface_provenance
            == SurfaceProvenance::Explicit && !allow_change && (existing.surface_id
            != incoming.surface_id || existing.surface_provenance == SurfaceProvenance::Absent),
        reconciled(existing, incoming, allow_change) matches Some(next) ==> {
            &&& incoming.surface_provenance == SurfaceProvenance::Explicit ==> next.surface_id
                == incoming.surface_id && next.surface_provenance == SurfaceProvenance::Explicit
            &&& incoming.surface_provenance == SurfaceProvenance::Absent ==> next.surface_id
                == existing.surface_id && next.surface_provenance == existing.surface_provenance
            &&& incoming.surface_provenance == SurfaceProvenance::AmbientCmux
                && existing.surface_provenance != SurfaceProvenance::Explicit ==> next.surface_id
                == incoming.surface_id
            &&& next.provider == existing.provider && next.session_id == existing.session_id
            &&& incoming.terminal is Cmux ==> next.terminal == incoming.terminal
            &&& !(incoming.terminal is Cmux) ==> next.terminal == existing.terminal
        },
{
}

/// A route is written first with its agent and then only where something changed; a route
/// that is not that of the agent, or that is another's record, is refused.
pub proof fn a_route_is_written_where_it_changed(
    existing: Option<StoredRouteView>,
    route: RouteView,
    agent: AgentView,
    allow_change: bool,
    at: Seq<char>,
)
    ensures
        ({
            let written = persisted_route(existing, route, agent, allow_change, at);
            let own = route_to(agent, route.origin_machine) == route;
            &&& !own ==> written is Err
            &&& own && existing is None ==> (written matches Ok(Some(first)) && first.agent == agent
                && first.route_id == route.route_id && first.owner_id == route.owner_id
                && first.revision == 1)
            &&& existing matches Some(stored) ==> {
                &&& !is_record_of(stored, route, agent) ==> written is Err
                &&& reconciled(stored.agent, agent, allow_change) is None ==> written is Err
                &&& own && is_record_of(stored, route, agent) ==> (reconciled(
                    stored.agent,
                    agent,
                    allow_change,
                ) matches Some(next) ==> {
                    &&& next == stored.agent ==> written == Ok::<
                        Option<StoredRouteView>,
                        Seq<char>,
                    >(None)
                    &&& next != stored.agent && stored.revision < u64::MAX ==> (written matches Ok(
                        Some(kept),
                    ) && kept.agent == next && kept.updated_at == at)
                })
            }
        }),
{
}

} // verus!
