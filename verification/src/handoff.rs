//! Handing a pull request over to the steward: in which order it is done, what is
//! written, and what is told.
use vstd::prelude::*;

use crate::guard::ends_with_its_end;
use crate::agent_route::StoredAgentRoute;
use crate::json::{members_of, object, trees, Json, JsonTree};
use crate::ledger::TerminalProvenanceKind;
use crate::model::{fails, CliFailure, HANDOFF_CONTEXT, MANAGED_LABEL};
use crate::observation::{next_page, paging, Paging};
use crate::numbers::has_number;
use crate::outside::{parse_rfc3339, rfc3339, Instant};
use crate::path_text::{encode_path_segment, path_segment};
use crate::receipt::{
    form_of, receipt_error, stored_view, validate_handoff_receipt_integrity, DurableStewardHandoff,
    HandoffPhase, ProfileForm, ReceiptView, StoredProfileView,
};
use crate::routes::{
    agent_route_reference, owner_id_of, owner_identity, route_to, AgentRouteReference, RouteView,
    StewardHandoffArgs, TerminalView,
};
use crate::text::{
    concat, concat3, concat4, concat5, concat6, contains, copy_opt, decimal, eq_ignore_case,
    has_infix, has_suffix, lower, opt_is, opt_view, or_text, same_ignoring_case, str_eq,
    to_decimal, to_lower, views,
};

verus! {

/// Where the receipts of a pull request are kept, below the state's directory.
pub open spec fn handoff_place(repo: Seq<char>, pr: u64) -> Seq<Seq<char>> {
    seq![
        "merge-steward"@,
        "handoffs"@,
        path_segment(lower(repo)),
        "pr-"@ + decimal(pr as nat),
    ]
}

/// Where the receipts of a pull request are kept, below the state's directory.
pub fn handoff_directory(repo: &str, pr: u64) -> (r: Vec<String>)
    ensures
        views(r@) == handoff_place(repo@, pr),
{
    let mut out: Vec<String> = Vec::new();
    out.push("merge-steward".to_owned());
    out.push("handoffs".to_owned());
    out.push(encode_path_segment(to_lower(repo).as_str()));
    out.push(concat("pr-", to_decimal(pr).as_str()));
    proof {
        assert(views(out@) =~= handoff_place(repo@, pr));
    }
    out
}

/// Different pull requests have their receipts in different places.
pub proof fn handoff_places_differ(a: Seq<char>, m: u64, b: Seq<char>, n: u64)
    requires
        handoff_place(a, m) == handoff_place(b, n),
    ensures
        same_ignoring_case(a, b),
        m == n,
{
    let x = handoff_place(a, m);
    let y = handoff_place(b, n);
    assert(x[2] == y[2]);
    assert(x[3] == y[3]);
    crate::path_text::path_segments_differ(lower(a), lower(b));
    assert(x[3].skip("pr-"@.len() as int) =~= decimal(m as nat));
    assert(y[3].skip("pr-"@.len() as int) =~= decimal(n as nat));
    crate::text::decimal_reads_back(m as nat);
    crate::text::decimal_reads_back(n as nat);
}

/// The file of a head's receipt.
pub fn handoff_path(head: &str) -> (r: String)
    ensures
        r@ == lower(head@) + ".json"@,
{
    concat(to_lower(head).as_str(), ".json")
}

/// Where the private record of a route is kept, below the state's directory.
pub fn agent_route_path(route_id: &str) -> (r: Vec<String>)
    ensures
        views(r@) == seq!["merge-steward"@, "agent-routes"@, route_id@ + ".json"@],
{
    let mut out: Vec<String> = Vec::new();
    out.push("merge-steward".to_owned());
    out.push("agent-routes".to_owned());
    out.push(concat(route_id, ".json"));
    proof {
        assert(views(out@) =~= seq!["merge-steward"@, "agent-routes"@, route_id@ + ".json"@]);
    }
    out
}

/// Whether somebody is woken for a handed-over head.
pub fn steward_handoff_transfer_report(
    receipt: Option<&DurableStewardHandoff>,
    form: Option<&ProfileForm>,
    repo: &str,
    pr: u64,
    head: &str,
) -> (r: Result<bool, CliFailure>)
    ensures
        match receipt {
            None => fails(r, 1, "exact-head durable handoff receipt is unavailable"@),
            Some(receipt) => match receipt_error(receipt@, form_of(form), repo@, pr, head@) {
                Some(text) => fails(r, 1, text),
                None => if receipt.phase != HandoffPhase::Managed {
                    fails(r, 1, "durable handoff is not managed"@)
                } else {
                    r == Ok::<bool, CliFailure>(receipt.wake_consumer_available)
                },
            },
        },
        r is Ok <==> (receipt matches Some(found) && found.phase == HandoffPhase::Managed
            && receipt_error(found@, form_of(form), repo@, pr, head@) is None),
        r matches Ok(watched) ==> (watched <==> (receipt matches Some(found)
            && found.wake_consumer_available)),
{
    let receipt = match receipt {
        Some(receipt) => receipt,
        None => return Err(
            CliFailure::new(1, "exact-head durable handoff receipt is unavailable"),
        ),
    };
    match validate_handoff_receipt_integrity(receipt, form, repo, pr, head) {
        Ok(_) => {},
        Err(failure) => return Err(failure),
    }
    if receipt.phase != HandoffPhase::Managed {
        return Err(CliFailure::new(1, "durable handoff is not managed"));
    }
    Ok(receipt.wake_consumer_available)
}

/// The profile by which an owner can be started again, without what is private to
/// it.
#[derive(Clone, Debug, PartialEq, Eq)]
pub struct ProviderRouteReferenceV1 {
    pub profile_digest: String,
    pub integrity_hash: String,
    pub generation: u64,
    pub revision: u64,
    pub provider: String,
    pub account: Option<String>,
    pub model: Option<String>,
}

/// What is said of such a profile.
pub struct ProviderRouteView {
    pub profile_digest: Seq<char>,
    pub integrity_hash: Seq<char>,
    pub generation: u64,
    pub revision: u64,
    pub provider: Seq<char>,
    pub account: Option<Seq<char>>,
    pub model: Option<Seq<char>>,
}

/// What is said of the profile that a receipt carries.
pub open spec fn provider_route_of(stored: Option<StoredProfileView>) -> Option<ProviderRouteView> {
    match stored {
        None => None,
        Some(stored) => Some(
            ProviderRouteView {
                profile_digest: stored.profile_digest,
                integrity_hash: stored.integrity_hash,
                generation: stored.generation,
                revision: stored.revision,
                provider: stored.profile.provider.provider@,
                account: opt_view(stored.profile.provider.account),
                model: opt_view(stored.profile.provider.model),
            },
        ),
    }
}

/// Who is told when a handed-over head needs its owner.
#[derive(Clone, Debug, PartialEq, Eq)]
pub struct TerminalOwnerRoute {
    pub origin_machine: String,
    pub owner_id: String,
    pub ownership_generation: u64,
    pub owner_disposition: String,
    pub route_id: Option<String>,
    pub provider: Option<String>,
    pub resume_transport: Option<String>,
    pub terminal_provenance: Option<TerminalProvenanceKind>,
    pub provider_route: Option<ProviderRouteReferenceV1>,
}

/// What is said of an owner.
pub struct OwnerView {
    pub origin_machine: Seq<char>,
    pub owner_id: Seq<char>,
    pub ownership_generation: u64,
    pub owner_disposition: Seq<char>,
    pub route_id: Option<Seq<char>>,
    pub provider: Option<Seq<char>>,
    pub resume_transport: Option<Seq<char>>,
    pub terminal_provenance: Option<TerminalProvenanceKind>,
    pub provider_route: Option<ProviderRouteView>,
}

impl View for TerminalOwnerRoute {
    type V = OwnerView;

    open spec fn view(&self) -> OwnerView {
        OwnerView {
            origin_machine: self.origin_machine@,
            owner_id: self.owner_id@,
            ownership_generation: self.ownership_generation,
            owner_disposition: self.owner_disposition@,
            route_id: opt_view(self.route_id),
            provider: opt_view(self.provider),
            resume_transport: opt_view(self.resume_transport),
            terminal_provenance: self.terminal_provenance,
            provider_route: match self.provider_route {
                None => None,
                Some(route) => Some(
                    ProviderRouteView {
                        profile_digest: route.profile_digest@,
                        integrity_hash: route.integrity_hash@,
                        generation: route.generation,
                        revision: route.revision,
                        provider: route.provider@,
                        account: opt_view(route.account),
                        model: opt_view(route.model),
                    },
                ),
            },
        }
    }
}

/// The kind of a terminal as it is told to an owner.
pub open spec fn told_kind(terminal: TerminalView) -> TerminalProvenanceKind {
    match terminal {
        TerminalView::Absent => TerminalProvenanceKind::Absent,
        TerminalView::Cmux(_) => TerminalProvenanceKind::Cmux,
        TerminalView::HerdR(..) => TerminalProvenanceKind::HerdR,
    }
}

/// The owner of a sound receipt: the session that started the agent, where the
/// private record of the route agrees with the receipt.
pub open spec fn owner_by_route(receipt: ReceiptView, stored: Option<StoredAgentRoute>) -> Result<
    OwnerView,
    Seq<char>,
> {
    match receipt.agent_route {
        None => Ok(
            OwnerView {
                origin_machine: receipt.origin_machine,
                owner_id: receipt.owner_id,
                ownership_generation: receipt.ownership_generation,
                owner_disposition: "fresh_agent_only"@,
                route_id: None,
                provider: None,
                resume_transport: None,
                terminal_provenance: None,
                provider_route: provider_route_of(receipt.launch_profile),
            },
        ),
        Some(route) => match stored {
            None => Err("managed handoff lost its private agent route"@),
            Some(stored) => {
                let agent = stored.agent@;
                if stored.schema_version != 2 || stored.revision == 0 || stored.route_id@
                    != route.route_id || stored.owner_id@ != route.owner_id || stored.origin_machine@
                    != receipt.origin_machine || route_to(agent, stored.origin_machine@) != route {
                    Err("managed handoff and private agent route identity disagree"@)
                } else {
                    Ok(
                        OwnerView {
                            origin_machine: receipt.origin_machine,
                            owner_id: owner_identity(
                                agent.provider,
                                or_text(agent.parent_session_id, agent.session_id),
                            ),
                            ownership_generation: receipt.ownership_generation,
                            owner_disposition: "original_owner"@,
                            route_id: Some(route.route_id),
                            provider: Some(route.provider),
                            resume_transport: Some(route.resume_transport),
                            terminal_provenance: Some(told_kind(agent.terminal)),
                            provider_route: provider_route_of(receipt.launch_profile),
                        },
                    )
                }
            },
        },
    }
}

/// The owner of a head: `Ok(None)` where it is not handed over.
pub open spec fn head_owner(
    receipt: Option<ReceiptView>,
    form: Option<ProfileForm>,
    repo: Seq<char>,
    pr: u64,
    head: Seq<char>,
    stored: Option<StoredAgentRoute>,
) -> Result<Option<OwnerView>, Seq<char>> {
    match receipt {
        None => Ok(None),
        Some(receipt) => match receipt_error(receipt, form, repo, pr, head) {
            Some(text) => Err(text),
            None => if receipt.phase != HandoffPhase::Managed {
                Ok(None)
            } else {
                match owner_by_route(receipt, stored) {
                    Ok(owner) => Ok(Some(owner)),
                    Err(text) => Err(text),
                }
            },
        },
    }
}

/// The owner of a head whose private record cannot be trusted: nobody is reached,
/// and nobody else takes over.
pub open spec fn unresolved_owner(
    receipt: Option<ReceiptView>,
    form: Option<ProfileForm>,
    repo: Seq<char>,
    pr: u64,
    head: Seq<char>,
) -> Option<OwnerView> {
    match receipt {
        Some(receipt) => if receipt_error(receipt, form, repo, pr, head) is None && receipt.phase
            == HandoffPhase::Managed {
            Some(
                OwnerView {
                    origin_machine: receipt.origin_machine,
                    owner_id: receipt.owner_id,
                    ownership_generation: receipt.ownership_generation,
                    owner_disposition: "unroutable_private_route"@,
                    route_id: None,
                    provider: None,
                    resume_transport: None,
                    terminal_provenance: None,
                    provider_route: provider_route_of(receipt.launch_profile),
                },
            )
        } else {
            None
        },
        None => None,
    }
}

/// A receipt by reference.
pub open spec fn receipt_of(receipt: Option<&DurableStewardHandoff>) -> Option<ReceiptView> {
    match receipt {
        Some(receipt) => Some(receipt@),
        None => None,
    }
}

/// A record by reference.
pub open spec fn stored_of(stored: Option<&StoredAgentRoute>) -> Option<StoredAgentRoute> {
    match stored {
        Some(stored) => Some(*stored),
        None => None,
    }
}

/// What an owner is, where there is one.
pub open spec fn owner_view(owner: Option<TerminalOwnerRoute>) -> Option<OwnerView> {
    match owner {
        Some(owner) => Some(owner@),
        None => None,
    }
}

fn provider_route(receipt: &DurableStewardHandoff) -> (r: Option<ProviderRouteReferenceV1>)
    ensures
        match (r, provider_route_of(stored_view(receipt.launch_profile))) {
            (None, None) => true,
            (Some(route), Some(view)) => {
                &&& route.profile_digest@ == view.profile_digest
                &&& route.integrity_hash@ == view.integrity_hash
                &&& route.generation == view.generation
                &&& route.revision == view.revision
                &&& route.provider@ == view.provider
                &&& opt_view(route.account) == view.account
                &&& opt_view(route.model) == view.model
            },
            _ => false,
        },
{
    match &receipt.launch_profile {
        None => None,
        Some(stored) => Some(
            ProviderRouteReferenceV1 {
                profile_digest: stored.profile_digest.clone(),
                integrity_hash: stored.integrity_hash.clone(),
                generation: stored.generation,
                revision: stored.revision,
                provider: stored.profile.provider.provider.clone(),
                account: copy_opt(stored.profile.provider.account.as_ref()),
                model: copy_opt(stored.profile.provider.model.as_ref()),
            },
        ),
    }
}

fn route_owner(receipt: &DurableStewardHandoff, stored: Option<&StoredAgentRoute>) -> (r: Result<
    TerminalOwnerRoute,
    CliFailure,
>)
    ensures
        match owner_by_route(receipt@, stored_of(stored)) {
            Ok(owner) => r matches Ok(found) && found@ == owner,
            Err(text) => fails(r, 1, text),
        },
{
    let route = match &receipt.agent_route {
        None => return Ok(
            TerminalOwnerRoute {
                origin_machine: receipt.origin_machine.clone(),
                owner_id: receipt.owner_id.clone(),
                ownership_generation: receipt.ownership_generation,
                owner_disposition: "fresh_agent_only".to_owned(),
                route_id: None,
                provider: None,
                resume_transport: None,
                terminal_provenance: None,
                provider_route: provider_route(receipt),
            },
        ),
        Some(route) => route,
    };
    let stored = match stored {
        Some(stored) => stored,
        None => return Err(CliFailure::new(1, "managed handoff lost its private agent route")),
    };
    let recomputed = agent_route_reference(&stored.agent, stored.origin_machine.as_str());
    if !(stored.schema_version == 2 && stored.revision != 0 && str_eq(
        stored.route_id.as_str(),
        route.route_id.as_str(),
    ) && str_eq(stored.owner_id.as_str(), route.owner_id.as_str()) && str_eq(
        stored.origin_machine.as_str(),
        receipt.origin_machine.as_str(),
    ) && recomputed.same_as(route)) {
        return Err(
            CliFailure::new(1, "managed handoff and private agent route identity disagree"),
        );
    }
    let session = match &stored.agent.parent_session_id {
        Some(parent) => parent.as_str(),
        None => stored.agent.session_id.as_str(),
    };
    Ok(
        TerminalOwnerRoute {
            origin_machine: receipt.origin_machine.clone(),
            owner_id: owner_id_of(stored.agent.provider.as_str(), session),
            ownership_generation: receipt.ownership_generation,
            owner_disposition: "original_owner".to_owned(),
            route_id: Some(route.route_id.clone()),
            provider: Some(route.provider.clone()),
            resume_transport: Some(route.resume_transport.clone()),
            terminal_provenance: Some(stored.agent.terminal_provenance.full_kind()),
            provider_route: provider_route(receipt),
        },
    )
}

/// The owner of a head: `Ok(None)` where it is not handed over.
pub fn terminal_owner_route(
    receipt: Option<&DurableStewardHandoff>,
    form: Option<&ProfileForm>,
    repo: &str,
    pr: u64,
    head: &str,
    stored: Option<&StoredAgentRoute>,
) -> (r: Result<Option<TerminalOwnerRoute>, CliFailure>)
    ensures
        match head_owner(
            receipt_of(receipt),
            form_of(form),
            repo@,
            pr,
            head@,
            stored_of(stored),
        ) {
            Ok(owner) => r matches Ok(found) && owner_view(found) == owner,
            Err(text) => fails(r, 1, text),
        },
{
    let receipt = match receipt {
        Some(receipt) => receipt,
        None => return Ok(None),
    };
    match validate_handoff_receipt_integrity(receipt, form, repo, pr, head) {
        Ok(_) => {},
        Err(failure) => return Err(failure),
    }
    if receipt.phase != HandoffPhase::Managed {
        return Ok(None);
    }
    match route_owner(receipt, stored) {
        Ok(owner) => Ok(Some(owner)),
        Err(failure) => Err(failure),
    }
}

/// The owner of a head whose private record cannot be trusted.
pub fn unresolved_terminal_owner(
    receipt: Option<&DurableStewardHandoff>,
    form: Option<&ProfileForm>,
    repo: &str,
    pr: u64,
    head: &str,
) -> (r: Option<TerminalOwnerRoute>)
    ensures
        owner_view(r) == unresolved_owner(receipt_of(receipt), form_of(form), repo@, pr, head@),
{
    let receipt = match receipt {
        Some(receipt) => receipt,
        None => return None,
    };
    if validate_handoff_receipt_integrity(receipt, form, repo, pr, head).is_err() || receipt.phase
        != HandoffPhase::Managed {
        return None;
    }
    Some(
        TerminalOwnerRoute {
            origin_machine: receipt.origin_machine.clone(),
            owner_id: receipt.owner_id.clone(),
            ownership_generation: receipt.ownership_generation,
            owner_disposition: "unroutable_private_route".to_owned(),
            route_id: None,
            provider: None,
            resume_transport: None,
            terminal_provenance: None,
            provider_route: provider_route(receipt),
        },
    )
}

/// The owner of a head; one whose private record cannot be trusted is kept as
/// nobody who can be reached.
pub fn terminal_owner_route_or_unresolved(
    receipt: Option<&DurableStewardHandoff>,
    form: Option<&ProfileForm>,
    repo: &str,
    pr: u64,
    head: &str,
    stored: Option<&StoredAgentRoute>,
) -> (r: Option<TerminalOwnerRoute>)
    ensures
        owner_view(r) == match head_owner(
            receipt_of(receipt),
            form_of(form),
            repo@,
            pr,
            head@,
            stored_of(stored),
        ) {
            Ok(owner) => owner,
            Err(_) => unresolved_owner(receipt_of(receipt), form_of(form), repo@, pr, head@),
        },
{
    match terminal_owner_route(receipt, form, repo, pr, head, stored) {
        Ok(owner) => owner,
        Err(_) => unresolved_terminal_owner(receipt, form, repo, pr, head),
    }
}

/// Nobody is reached by a route whose private record disagrees with the receipt.
pub proof fn a_tampered_route_reaches_nobody(
    receipt: ReceiptView,
    form: Option<ProfileForm>,
    repo: Seq<char>,
    pr: u64,
    head: Seq<char>,
    stored: StoredAgentRoute,
)
    requires
        receipt.agent_route matches Some(route) && route_to(stored.agent@, stored.origin_machine@)
            != route,
    ensures
        !(head_owner(Some(receipt), form, repo, pr, head, Some(stored)) matches Ok(Some(_))),
        unresolved_owner(Some(receipt), form, repo, pr, head) matches Some(owner) ==> owner.route_id
            is None && owner.provider is None,
{
}

/// Refuses a pull request that is not open with the expected head.
pub fn verify_exact_open_pr(response: &Json, pr: u64, expected_head: &str) -> (r: Result<
    (),
    CliFailure,
>)
    ensures
        ({
            let state = or_text(response@.text_at("state"@), ""@);
            let current = or_text(
                match response@.field("head"@) {
                    Some(head) => head.text_at("sha"@),
                    None => None,
                },
                ""@,
            );
            if state != "open"@ {
                fails(r, 1, "PR #"@ + decimal(pr as nat) + " is not open"@)
            } else if !same_ignoring_case(current, expected_head@) {
                fails(
                    r,
                    1,
                    "PR #"@ + decimal(pr as nat) + " head drift: expected "@ + expected_head@
                        + ", current "@ + current,
                )
            } else {
                r is Ok
            }
        }),
{
    let state = match response.text_field("state") {
        Some(state) => state.as_str(),
        None => "",
    };
    if !str_eq(state, "open") {
        return Err(
            CliFailure::new(1, concat3("PR #", to_decimal(pr).as_str(), " is not open").as_str()),
        );
    }
    let current = match response.get("head") {
        Some(head) => match head.text_field("sha") {
            Some(sha) => sha.as_str(),
            None => "",
        },
        None => "",
    };
    if !eq_ignore_case(current, expected_head) {
        return Err(
            CliFailure::new(
                1,
                concat6(
                    "PR #",
                    to_decimal(pr).as_str(),
                    " head drift: expected ",
                    expected_head,
                    ", current ",
                    current,
                ).as_str(),
            ),
        );
    }
    Ok(())
}

/// What the handoff's status says.
pub open spec fn handoff_description(workstream: Seq<char>) -> Seq<char> {
    "Managed handoff "@ + workstream
}

/// The arguments that write the handoff's status.
pub open spec fn handoff_status_args(args: StewardHandoffArgs, repo: Seq<char>) -> Seq<Seq<char>> {
    let base = seq![
        "api"@,
        "-X"@,
        "POST"@,
        "repos/"@ + repo + "/statuses/"@ + args.head@,
        "-f"@,
        "state=success"@,
        "-f"@,
        "context="@ + HANDOFF_CONTEXT@,
        "-f"@,
        "description="@ + handoff_description(args.workstream_id@),
    ];
    match opt_view(args.context_url) {
        Some(url) => base.push("-f"@).push("target_url="@ + url),
        None => base,
    }
}

/// The arguments that write the handoff's status.
pub fn write_handoff_status(args: &StewardHandoffArgs, repo: &str) -> (r: Vec<String>)
    ensures
        views(r@) == handoff_status_args(*args, repo@),
{
    let description = concat("Managed handoff ", args.workstream_id.as_str());
    let mut out: Vec<String> = Vec::new();
    out.push("api".to_owned());
    out.push("-X".to_owned());
    out.push("POST".to_owned());
    out.push(concat4("repos/", repo, "/statuses/", args.head.as_str()));
    out.push("-f".to_owned());
    out.push("state=success".to_owned());
    out.push("-f".to_owned());
    out.push(concat("context=", HANDOFF_CONTEXT));
    out.push("-f".to_owned());
    out.push(concat("description=", description.as_str()));
    match &args.context_url {
        Some(url) => {
            out.push("-f".to_owned());
            out.push(concat("target_url=", url.as_str()));
        },
        None => {},
    }
    proof {
        assert(views(out@) =~= handoff_status_args(*args, repo@));
    }
    out
}

/// Adds a page of a commit's statuses.
pub fn fetch_handoff_statuses(statuses: &mut Vec<Json>, response: Json, page: u64) -> (r: Result<
    Paging,
    CliFailure,
>)
    ensures
        match response {
            Json::Array(rows) => final(statuses)@ == old(statuses)@ + rows@ && match paging(
                rows@.len(),
                page,
                "handoff receipt reconciliation exceeds 1000 statuses; refusing partial scan"@,
            ) {
                Ok(next) => r == Ok::<Paging, CliFailure>(next),
                Err(text) => fails(r, 1, text),
            },
            _ => *final(statuses) == *old(statuses) && fails(
                r,
                1,
                "handoff receipt reconciliation returned a non-array"@,
            ),
        },
{
    match response {
        Json::Array(found) => {
            let mut rows = found;
            let n: usize = rows.len();
            statuses.append(&mut rows);
            match next_page(
                n,
                page,
                "handoff receipt reconciliation exceeds 1000 statuses; refusing partial scan",
            ) {
                Ok(next) => Ok(next),
                Err(text) => Err(CliFailure::new(1, text.as_str())),
            }
        },
        _ => Err(CliFailure::new(1, "handoff receipt reconciliation returned a non-array")),
    }
}

/// Whether a state is one that statuses have.
pub open spec fn known_state(state: Seq<char>) -> bool {
    state == "error"@ || state == "failure"@ || state == "pending"@ || state == "success"@
}

/// A status of the handoff: when it was made, and its number, which must not have
/// occurred before.
pub open spec fn handoff_status(status: JsonTree, seen: Seq<u64>) -> Result<
    Option<(Instant, u64)>,
    Seq<char>,
> {
    match status.text_at("context"@) {
        None => Err("commit status omitted string context"@),
        Some(context) => if context != HANDOFF_CONTEXT@ {
            Ok(None)
        } else {
            match status.text_at("created_at"@) {
                None => Err("handoff status omitted created_at"@),
                Some(created) => match rfc3339(created) {
                    Err(m) => Err("invalid handoff status time: "@ + m),
                    Ok((seconds, nanos)) => match status.number_at("id"@) {
                        None => Err("handoff status omitted numeric id"@),
                        Some(id) => if seen.contains(id) {
                            Err("handoff status repeated id "@ + decimal(id as nat))
                        } else {
                            match status.text_at("state"@) {
                                None => Err("handoff status omitted state"@),
                                Some(state) => if known_state(state) {
                                    Ok(Some((Instant { seconds, nanos }, id)))
                                } else {
                                    Err("unknown handoff status `"@ + state + "`"@)
                                },
                            }
                        },
                    },
                },
            }
        },
    }
}

/// Whether one status was made after another, or at the same time with a larger
/// number.
pub open spec fn newer(a: (Instant, u64), b: (Instant, u64)) -> bool {
    b.0.precedes(a.0) || (!a.0.precedes(b.0) && b.1 < a.1)
}

/// What is known of statuses after some of them were read.
pub struct StatusScan {
    /// The numbers that occurred.
    pub seen: Seq<u64>,
    /// The newest status, with its place.
    pub best: Option<(Instant, u64, int)>,
}

/// What is known of statuses after the first of them were read, or what is wrong
/// with one.
pub open spec fn scanned(statuses: Seq<JsonTree>, n: int) -> Result<StatusScan, Seq<char>>
    decreases n,
{
    if n <= 0 {
        Ok(StatusScan { seen: Seq::empty(), best: None })
    } else {
        match scanned(statuses, n - 1) {
            Err(text) => Err(text),
            Ok(scan) => match handoff_status(statuses[n - 1], scan.seen) {
                Err(text) => Err(text),
                Ok(None) => Ok(scan),
                Ok(Some((at, id))) => Ok(
                    StatusScan {
                        seen: scan.seen.push(id),
                        best: match scan.best {
                            Some((best_at, best_id, i)) => if newer((at, id), (best_at, best_id)) {
                                Some((at, id, n - 1))
                            } else {
                                Some((best_at, best_id, i))
                            },
                            None => Some((at, id, n - 1)),
                        },
                    },
                ),
            },
        }
    }
}

proof fn scan_fails_on(statuses: Seq<JsonTree>, n: int, m: int)
    requires
        0 <= n <= m,
        scanned(statuses, n) is Err,
    ensures
        scanned(statuses, m) == scanned(statuses, n),
    decreases m - n,
{
    if n < m {
        scan_fails_on(statuses, n, m - 1);
    }
}

/// The newest status of the handoff is the one that counts, in whichever order
/// they are listed: no other is newer.
pub proof fn no_status_is_newer(statuses: Seq<JsonTree>, n: int, k: int)
    requires
        0 <= k < n,
        scanned(statuses, n) is Ok,
        handoff_status(statuses[k], Seq::empty()) matches Ok(Some(_)),
    ensures
        scanned(statuses, n)->Ok_0.best matches Some((at, id, i)) && 0 <= i < n && !newer(
            handoff_status(statuses[k], Seq::empty())->Ok_0->Some_0,
            (at, id),
        ),
    decreases n,
{
    if k < n - 1 {
        no_status_is_newer(statuses, n - 1, k);
    } else {
        best_in_range(statuses, n - 1);
        let scan = scanned(statuses, n - 1)->Ok_0;
        let read = handoff_status(statuses[k], scan.seen);
        assert(read == handoff_status(statuses[k], Seq::empty()));
    }
}

proof fn best_in_range(statuses: Seq<JsonTree>, n: int)
    requires
        0 <= n,
    ensures
        scanned(statuses, n) matches Ok(scan) ==> (scan.best matches Some((at, id, i)) ==> 0 <= i
            < n),
    decreases n,
{
    if n > 0 {
        best_in_range(statuses, n - 1);
    }
}

fn read_handoff_status(status: &Json, seen: &Vec<u64>) -> (r: Result<
    Option<(Instant, u64)>,
    CliFailure,
>)
    ensures
        match handoff_status(status@, seen@) {
            Ok(found) => r == Ok::<Option<(Instant, u64)>, CliFailure>(found),
            Err(text) => fails(r, 1, text),
        },
{
    let context = match status.text_field("context") {
        Some(context) => context,
        None => return Err(CliFailure::new(1, "commit status omitted string context")),
    };
    if !str_eq(context.as_str(), HANDOFF_CONTEXT) {
        return Ok(None);
    }
    let created = match status.text_field("created_at") {
        Some(created) => created,
        None => return Err(CliFailure::new(1, "handoff status omitted created_at")),
    };
    let at = match parse_rfc3339(created.as_str()) {
        Ok(at) => at,
        Err(message) => return Err(
            CliFailure::new(1, concat("invalid handoff status time: ", message.as_str()).as_str()),
        ),
    };
    let id: u64 = match status.u64_field("id") {
        Some(id) => id,
        None => return Err(CliFailure::new(1, "handoff status omitted numeric id")),
    };
    if has_number(seen, id) {
        return Err(
            CliFailure::new(
                1,
                concat("handoff status repeated id ", to_decimal(id).as_str()).as_str(),
            ),
        );
    }
    let state = match status.text_field("state") {
        Some(state) => state.as_str(),
        None => return Err(CliFailure::new(1, "handoff status omitted state")),
    };
    if !(str_eq(state, "error") || str_eq(state, "failure") || str_eq(state, "pending") || str_eq(
        state,
        "success",
    )) {
        return Err(
            CliFailure::new(1, concat3("unknown handoff status `", state, "`").as_str()),
        );
    }
    Ok(Some((at, id)))
}

/// The newest status of the handoff.
pub fn latest_handoff_status(statuses: &Vec<Json>) -> (r: Result<Option<usize>, CliFailure>)
    ensures
        match scanned(trees(statuses@), statuses@.len() as int) {
            Err(text) => fails(r, 1, text),
            Ok(scan) => match scan.best {
                Some((at, id, i)) => r matches Ok(Some(k)) && k == i && k < statuses@.len(),
                None => r matches Ok(None),
            },
        },
{
    let ghost all = trees(statuses@);
    let mut seen: Vec<u64> = Vec::new();
    let mut best: Option<(Instant, u64, usize)> = None;
    let mut i: usize = 0;
    proof {
        assert(seen@ =~= Seq::<u64>::empty());
    }
    while i < statuses.len()
        invariant
            i <= statuses.len(),
            all == trees(statuses@),
            match scanned(all, i as int) {
                Ok(scan) => seen@ == scan.seen && match (best, scan.best) {
                    (None, None) => true,
                    (Some((at, id, k)), Some((sat, sid, sk))) => at == sat && id == sid && k == sk
                        && k < i,
                    _ => false,
                },
                Err(_) => false,
            },
        decreases statuses.len() - i,
    {
        proof {
            assert(all[i as int] == statuses@[i as int]@);
        }
        match read_handoff_status(&statuses[i], &seen) {
            Err(failure) => {
                proof {
                    scan_fails_on(all, i + 1, all.len() as int);
                }
                return Err(failure);
            },
            Ok(None) => {},
            Ok(Some((at, id))) => {
                seen.push(id);
                best = match best {
                    Some((best_at, best_id, k)) => if best_at.before(&at) || (!at.before(&best_at)
                        && best_id < id) {
                        Some((at, id, i))
                    } else {
                        Some((best_at, best_id, k))
                    },
                    None => Some((at, id, i)),
                };
            },
        }
        i = i + 1;
    }
    match best {
        Some((_, _, k)) => Ok(Some(k)),
        None => Ok(None),
    }
}

/// Whether a status says that the head is handed over with this workstream and
/// link.
pub open spec fn status_says_handed_over(status: JsonTree, args: StewardHandoffArgs) -> bool {
    &&& status.text_at("state"@) == Some("success"@)
    &&& status.text_at("description"@) == Some(handoff_description(args.workstream_id@))
    &&& status.text_at("target_url"@) == opt_view(args.context_url)
}

/// Whether the newest status already says that the head is handed over.
pub fn handoff_status_is_present(statuses: &Vec<Json>, args: &StewardHandoffArgs) -> (r: Result<
    bool,
    CliFailure,
>)
    ensures
        match scanned(trees(statuses@), statuses@.len() as int) {
            Err(text) => fails(r, 1, text),
            Ok(scan) => r == Ok::<bool, CliFailure>(
                match scan.best {
                    Some((at, id, i)) => status_says_handed_over(trees(statuses@)[i], *args),
                    None => false,
                },
            ),
        },
{
    let latest = match latest_handoff_status(statuses) {
        Ok(Some(i)) => i,
        Ok(None) => return Ok(false),
        Err(failure) => return Err(failure),
    };
    let status = &statuses[latest];
    let description = concat("Managed handoff ", args.workstream_id.as_str());
    let url = status.text_field("target_url");
    let same_url = match (url, &args.context_url) {
        (Some(a), Some(b)) => str_eq(a.as_str(), b.as_str()),
        (None, None) => true,
        _ => false,
    };
    Ok(
        opt_is(status.text_field("state"), "success") && opt_is(
            status.text_field("description"),
            description.as_str(),
        ) && same_url,
    )
}

/// What making sure of a label does next.
#[derive(Debug)]
pub enum LabelStep {
    /// The label exists.
    Exists,
    /// The label is made, with these arguments.
    Create(Vec<String>),
    Failed(CliFailure),
}

/// The arguments that look for a label.
pub fn inspect_label_args(repo: &str, label: &str) -> (r: Vec<String>)
    ensures
        views(r@) == seq!["api"@, "repos/"@ + repo@ + "/labels/"@ + path_segment(label@)],
{
    let mut out: Vec<String> = Vec::new();
    out.push("api".to_owned());
    out.push(concat4("repos/", repo, "/labels/", encode_path_segment(label).as_str()));
    proof {
        assert(views(out@) =~= seq!["api"@, "repos/"@ + repo@ + "/labels/"@ + path_segment(label@)]);
    }
    out
}

/// The arguments that make a label.
pub open spec fn create_label_args(
    repo: Seq<char>,
    label: Seq<char>,
    color: Seq<char>,
    description: Seq<char>,
) -> Seq<Seq<char>> {
    seq![
        "api"@,
        "-X"@,
        "POST"@,
        "repos/"@ + repo + "/labels"@,
        "-f"@,
        "name="@ + label,
        "-f"@,
        "color="@ + color,
        "-f"@,
        "description="@ + description,
    ]
}

/// What making sure of a label does once it was looked for: one that does not
/// exist is made.
pub fn ensure_label(
    inspected: Result<(), String>,
    repo: &str,
    label: &str,
    color: &str,
    description: &str,
) -> (r: LabelStep)
    ensures
        match inspected {
            Ok(_) => r is Exists,
            Err(error) => if has_infix(error@, "HTTP 404"@) {
                r matches LabelStep::Create(args) && views(args@) == create_label_args(
                    repo@,
                    label@,
                    color@,
                    description@,
                )
            } else {
                r matches LabelStep::Failed(failure) && failure.says(
                    1,
                    "could not inspect managed label: "@ + error@,
                )
            },
        },
        r is Create <==> (inspected matches Err(error) && has_infix(error@, "HTTP 404"@)),
        r is Exists <==> inspected is Ok,
{
    match inspected {
        Ok(_) => LabelStep::Exists,
        Err(error) => {
            if !contains(error.as_str(), "HTTP 404") {
                return LabelStep::Failed(
                    CliFailure::new(
                        1,
                        concat("could not inspect managed label: ", error.as_str()).as_str(),
                    ),
                );
            }
            let mut out: Vec<String> = Vec::new();
            out.push("api".to_owned());
            out.push("-X".to_owned());
            out.push("POST".to_owned());
            out.push(concat3("repos/", repo, "/labels"));
            out.push("-f".to_owned());
            out.push(concat("name=", label));
            out.push("-f".to_owned());
            out.push(concat("color=", color));
            out.push("-f".to_owned());
            out.push(concat("description=", description));
            proof {
                assert(views(out@) =~= create_label_args(repo@, label@, color@, description@));
            }
            LabelStep::Create(out)
        },
    }
}

/// The arguments that add a label.
pub fn add_label(repo: &str, pr: u64, label: &str) -> (r: Vec<String>)
    ensures
        views(r@) == seq![
            "api"@,
            "-X"@,
            "POST"@,
            "repos/"@ + repo@ + "/issues/"@ + decimal(pr as nat) + "/labels"@,
            "-f"@,
            "labels[]="@ + label@,
        ],
{
    let mut out: Vec<String> = Vec::new();
    out.push("api".to_owned());
    out.push("-X".to_owned());
    out.push("POST".to_owned());
    out.push(concat5("repos/", repo, "/issues/", to_decimal(pr).as_str(), "/labels"));
    out.push("-f".to_owned());
    out.push(concat("labels[]=", label));
    proof {
        assert(views(out@) =~= seq![
            "api"@,
            "-X"@,
            "POST"@,
            "repos/"@ + repo@ + "/issues/"@ + decimal(pr as nat) + "/labels"@,
            "-f"@,
            "labels[]="@ + label@,
        ]);
    }
    out
}

/// The arguments that remove a label.
pub fn remove_label_args(repo: &str, pr: u64, label: &str) -> (r: Vec<String>)
    ensures
        views(r@) == seq![
            "api"@,
            "-X"@,
            "DELETE"@,
            "repos/"@ + repo@ + "/issues/"@ + decimal(pr as nat) + "/labels/"@ + path_segment(label@),
        ],
{
    let mut out: Vec<String> = Vec::new();
    out.push("api".to_owned());
    out.push("-X".to_owned());
    out.push("DELETE".to_owned());
    out.push(
        concat6(
            "repos/",
            repo,
            "/issues/",
            to_decimal(pr).as_str(),
            "/labels/",
            encode_path_segment(label).as_str(),
        ),
    );
    proof {
        assert(views(out@) =~= seq![
            "api"@,
            "-X"@,
            "DELETE"@,
            "repos/"@ + repo@ + "/issues/"@ + decimal(pr as nat) + "/labels/"@ + path_segment(label@),
        ]);
    }
    out
}

/// What comes of removing a label: one that is not there is already removed.
pub fn remove_label(removed: Result<(), String>, label: &str) -> (r: Result<(), CliFailure>)
    ensures
        match removed {
            Ok(_) => r is Ok,
            Err(error) => if has_infix(error@, "HTTP 404"@) {
                r is Ok
            } else {
                fails(r, 1, "could not remove label "@ + label@ + ": "@ + error@)
            },
        },
        r is Err <==> (removed matches Err(error) && !has_infix(error@, "HTTP 404"@)),
{
    match removed {
        Ok(_) => Ok(()),
        Err(error) => if contains(error.as_str(), "HTTP 404") {
            Ok(())
        } else {
            Err(
                CliFailure::new(
                    1,
                    concat4("could not remove label ", label, ": ", error.as_str()).as_str(),
                ),
            )
        },
    }
}

/// The steps of a handoff that changes things, in their order.
#[derive(Clone, Copy, Debug, PartialEq, Eq, Structural)]
pub enum HandoffStage {
    /// See that the pull request is open with its head.
    Preflight,
    /// Find the agent and the machine.
    Resolve,
    /// Take the lock and load the receipt.
    Load,
    /// Save the private record of the route.
    SaveRoute,
    /// Save the intent.
    SaveIntent,
    /// See whether the status is already there.
    ReadStatus,
    /// Write the status.
    WriteStatus,
    /// See again that the pull request is open with its head.
    VerifyBeforeLabel,
    /// Save that everything is ready.
    SaveReady,
    /// Make sure of the label, and add it.
    Label,
    /// See once more that the pull request is open with its head.
    VerifyAfterLabel,
    /// Save that the pull request is managed.
    SaveManaged,
    /// Remove the label for being unmanaged.
    RemoveLabel,
    /// Tell.
    Render,
}

/// What a handoff knows of itself.
#[derive(Clone, Copy, Debug, PartialEq, Eq, Structural)]
pub struct HandoffRun {
    pub apply: bool,
    /// Whether an agent was found.
    pub has_agent: bool,
    /// The phase of the receipt when it was loaded.
    pub starting_phase: HandoffPhase,
    /// Whether the status was already there.
    pub status_present: bool,
}

/// The step that follows a step that succeeded.
pub open spec fn handoff_next(run: HandoffRun, stage: HandoffStage) -> HandoffStage {
    match stage {
        HandoffStage::Preflight => HandoffStage::Resolve,
        HandoffStage::Resolve => if run.apply {
            HandoffStage::Load
        } else {
            HandoffStage::Render
        },
        HandoffStage::Load => if run.has_agent {
            HandoffStage::SaveRoute
        } else {
            HandoffStage::SaveIntent
        },
        HandoffStage::SaveRoute => HandoffStage::SaveIntent,
        HandoffStage::SaveIntent => HandoffStage::ReadStatus,
        HandoffStage::ReadStatus => if run.status_present {
            HandoffStage::VerifyBeforeLabel
        } else {
            HandoffStage::WriteStatus
        },
        HandoffStage::WriteStatus => HandoffStage::VerifyBeforeLabel,
        HandoffStage::VerifyBeforeLabel => if run.starting_phase == HandoffPhase::Intent {
            HandoffStage::SaveReady
        } else {
            HandoffStage::Label
        },
        HandoffStage::SaveReady => HandoffStage::Label,
        HandoffStage::Label => HandoffStage::VerifyAfterLabel,
        HandoffStage::VerifyAfterLabel => HandoffStage::SaveManaged,
        HandoffStage::SaveManaged => HandoffStage::RemoveLabel,
        HandoffStage::RemoveLabel => HandoffStage::Render,
        HandoffStage::Render => HandoffStage::Render,
    }
}

/// The step that follows a step that succeeded. A step that fails ends the
/// handoff.
pub fn steward_handoff_command_with_resolver(run: HandoffRun, stage: HandoffStage) -> (r:
    HandoffStage)
    ensures
        r == handoff_next(run, stage),
{
    match stage {
        HandoffStage::Preflight => HandoffStage::Resolve,
        HandoffStage::Resolve => if run.apply {
            HandoffStage::Load
        } else {
            HandoffStage::Render
        },
        HandoffStage::Load => if run.has_agent {
            HandoffStage::SaveRoute
        } else {
            HandoffStage::SaveIntent
        },
        HandoffStage::SaveRoute => HandoffStage::SaveIntent,
        HandoffStage::SaveIntent => HandoffStage::ReadStatus,
        HandoffStage::ReadStatus => if run.status_present {
            HandoffStage::VerifyBeforeLabel
        } else {
            HandoffStage::WriteStatus
        },
        HandoffStage::WriteStatus => HandoffStage::VerifyBeforeLabel,
        HandoffStage::VerifyBeforeLabel => if run.starting_phase == HandoffPhase::Intent {
            HandoffStage::SaveReady
        } else {
            HandoffStage::Label
        },
        HandoffStage::SaveReady => HandoffStage::Label,
        HandoffStage::Label => HandoffStage::VerifyAfterLabel,
        HandoffStage::VerifyAfterLabel => HandoffStage::SaveManaged,
        HandoffStage::SaveManaged => HandoffStage::RemoveLabel,
        HandoffStage::RemoveLabel => HandoffStage::Render,
        HandoffStage::Render => HandoffStage::Render,
    }
}

/// Whether a step changes something at the provider.
pub open spec fn changes_provider(stage: HandoffStage) -> bool {
    stage == HandoffStage::WriteStatus || stage == HandoffStage::Label || stage
        == HandoffStage::RemoveLabel
}

/// How many steps a handoff has taken at most before a step.
pub open spec fn handoff_rank(stage: HandoffStage) -> nat {
    match stage {
        HandoffStage::Preflight => 0,
        HandoffStage::Resolve => 1,
        HandoffStage::Load => 2,
        HandoffStage::SaveRoute => 3,
        HandoffStage::SaveIntent => 4,
        HandoffStage::ReadStatus => 5,
        HandoffStage::WriteStatus => 6,
        HandoffStage::VerifyBeforeLabel => 7,
        HandoffStage::SaveReady => 8,
        HandoffStage::Label => 9,
        HandoffStage::VerifyAfterLabel => 10,
        HandoffStage::SaveManaged => 11,
        HandoffStage::RemoveLabel => 12,
        HandoffStage::Render => 13,
    }
}

/// The intent is saved before anything is changed at the provider; the label is
/// added only right after the head was seen again; and a handoff that only looks
/// changes nothing.
pub proof fn intent_precedes_changes(run: HandoffRun, stage: HandoffStage)
    ensures
        changes_provider(handoff_next(run, stage)) ==> handoff_rank(stage) > handoff_rank(
            HandoffStage::SaveIntent,
        ),
        handoff_next(run, stage) == HandoffStage::Label && stage != HandoffStage::SaveReady ==> stage
            == HandoffStage::VerifyBeforeLabel,
        handoff_next(run, stage) == HandoffStage::SaveReady ==> stage
            == HandoffStage::VerifyBeforeLabel,
        handoff_next(run, stage) == HandoffStage::SaveManaged ==> stage
            == HandoffStage::VerifyAfterLabel,
        !run.apply && (stage == HandoffStage::Preflight || stage == HandoffStage::Resolve) ==> (
        handoff_next(run, stage) == HandoffStage::Resolve || handoff_next(run, stage)
            == HandoffStage::Render),
        stage != HandoffStage::Render ==> handoff_rank(handoff_next(run, stage)) > handoff_rank(
            stage,
        ),
{
}

/// Who repairs what goes wrong, as it is told.
pub open spec fn repair_text(routed: bool) -> Seq<char> {
    if routed {
        "original_agent"@
    } else {
        "fresh_agent_only"@
    }
}

/// A truth value as a text.
pub open spec fn truth_text(b: bool) -> Seq<char> {
    if b {
        "true"@
    } else {
        "false"@
    }
}

fn truth(b: bool) -> (r: &'static str)
    ensures
        r@ == truth_text(b),
{
    if b {
        "true"
    } else {
        "false"
    }
}

/// A handoff in one line.
pub open spec fn handoff_line(
    args: StewardHandoffArgs,
    repo: Seq<char>,
    routed: bool,
    origin: Seq<char>,
    wake: bool,
) -> Seq<char> {
    "steward handoff: mode="@ + (if args.apply {
        "apply"@
    } else {
        "dry-run"@
    }) + " repo="@ + repo + " pr=#"@ + decimal(args.pr as nat) + " head="@ + args.head@
        + " workstream="@ + args.workstream_id@ + " label="@ + MANAGED_LABEL@
        + " monitoring_transferred="@ + truth_text(wake) + " wake_consumer_available="@
        + truth_text(wake) + " origin_machine="@ + origin + " repair_route="@ + repair_text(routed)
}

/// A handoff in one line.
pub fn render(
    args: &StewardHandoffArgs,
    repo: &str,
    agent_route: Option<&AgentRouteReference>,
    origin_machine: &str,
    wake_consumer_available: bool,
) -> (r: String)
    ensures
        r@ == handoff_line(
            *args,
            repo@,
            agent_route is Some,
            origin_machine@,
            wake_consumer_available,
        ),
{
    let mode = if args.apply {
        "apply"
    } else {
        "dry-run"
    };
    let repair = if agent_route.is_some() {
        "original_agent"
    } else {
        "fresh_agent_only"
    };
    let mut out: String = concat4("steward handoff: mode=", mode, " repo=", repo);
    out.append(" pr=#");
    out.append(to_decimal(args.pr).as_str());
    out.append(" head=");
    out.append(args.head.as_str());
    out.append(" workstream=");
    out.append(args.workstream_id.as_str());
    out.append(" label=");
    out.append(MANAGED_LABEL);
    out.append(" monitoring_transferred=");
    out.append(truth(wake_consumer_available));
    out.append(" wake_consumer_available=");
    out.append(truth(wake_consumer_available));
    out.append(" origin_machine=");
    out.append(origin_machine);
    out.append(" repair_route=");
    out.append(repair);
    out
}

/// The name of a terminal's kind.
pub open spec fn kind_name(kind: TerminalProvenanceKind) -> Seq<char> {
    match kind {
        TerminalProvenanceKind::Absent => "absent"@,
        TerminalProvenanceKind::Cmux => "cmux"@,
        TerminalProvenanceKind::HerdR => "herd_r"@,
    }
}

/// A route as it is told.
pub open spec fn route_members(route: RouteView) -> Seq<(Seq<char>, JsonTree)> {
    seq![
        ("route_id"@, JsonTree::Text(route.route_id)),
        ("owner_id"@, JsonTree::Text(route.owner_id)),
        ("provider"@, JsonTree::Text(route.provider)),
        ("origin_machine"@, JsonTree::Text(route.origin_machine)),
        ("resume_transport"@, JsonTree::Text(route.resume_transport)),
        ("terminal_provenance"@, JsonTree::Text(kind_name(route.terminal_provenance))),
    ]
}

fn route_object(route: &AgentRouteReference) -> (r: Json)
    ensures
        r@ == JsonTree::Object(route_members(route@)),
{
    let kind = match route.terminal_provenance {
        TerminalProvenanceKind::Absent => "absent",
        TerminalProvenanceKind::Cmux => "cmux",
        TerminalProvenanceKind::HerdR => "herd_r",
    };
    let mut members: Vec<(String, Json)> = Vec::new();
    members.push(("route_id".to_owned(), Json::Text(route.route_id.clone())));
    members.push(("owner_id".to_owned(), Json::Text(route.owner_id.clone())));
    members.push(("provider".to_owned(), Json::Text(route.provider.clone())));
    members.push(("origin_machine".to_owned(), Json::Text(route.origin_machine.clone())));
    members.push(("resume_transport".to_owned(), Json::Text(route.resume_transport.clone())));
    members.push(("terminal_provenance".to_owned(), Json::Text(kind.to_owned())));
    proof {
        assert(members_of(members@) =~= route_members(route@));
    }
    object(members)
}

/// A handoff as it is told: nothing of it is private to the agent.
pub open spec fn handoff_members(
    args: StewardHandoffArgs,
    repo: Seq<char>,
    route: Option<RouteView>,
    origin: Seq<char>,
    wake: bool,
) -> Seq<(Seq<char>, JsonTree)> {
    let base = seq![
        ("apply"@, JsonTree::Bool(args.apply)),
        ("repo"@, JsonTree::Text(repo)),
        ("pr"@, JsonTree::Number(Some(args.pr))),
        ("head_sha"@, JsonTree::Text(args.head@)),
        ("workstream_id"@, JsonTree::Text(args.workstream_id@)),
        ("managed_label"@, JsonTree::Text(MANAGED_LABEL@)),
        ("handoff_context"@, JsonTree::Text(HANDOFF_CONTEXT@)),
        ("monitoring_transferred"@, JsonTree::Bool(wake)),
        ("wake_consumer_available"@, JsonTree::Bool(wake)),
        ("origin_machine"@, JsonTree::Text(origin)),
        ("repair_route"@, JsonTree::Text(repair_text(route is Some))),
    ];
    let routed = match route {
        Some(route) => base.push(("agent_route"@, JsonTree::Object(route_members(route)))),
        None => base,
    };
    match opt_view(args.context_url) {
        Some(url) => routed.push(("context_url"@, JsonTree::Text(url))),
        None => routed,
    }
}

/// A handoff as it is told, as a JSON object.
pub fn render_json_data(
    args: &StewardHandoffArgs,
    repo: &str,
    agent_route: Option<&AgentRouteReference>,
    origin_machine: &str,
    wake_consumer_available: bool,
) -> (r: Json)
    ensures
        r@ == JsonTree::Object(
            handoff_members(
                *args,
                repo@,
                match agent_route {
                    Some(route) => Some(route@),
                    None => None,
                },
                origin_machine@,
                wake_consumer_available,
            ),
        ),
{
    let repair = if agent_route.is_some() {
        "original_agent"
    } else {
        "fresh_agent_only"
    };
    let mut members: Vec<(String, Json)> = Vec::new();
    members.push(("apply".to_owned(), Json::Bool(args.apply)));
    members.push(("repo".to_owned(), Json::Text(repo.to_owned())));
    members.push(("pr".to_owned(), Json::Number(Some(args.pr))));
    members.push(("head_sha".to_owned(), Json::Text(args.head.clone())));
    members.push(("workstream_id".to_owned(), Json::Text(args.workstream_id.clone())));
    members.push(("managed_label".to_owned(), Json::Text(MANAGED_LABEL.to_owned())));
    members.push(("handoff_context".to_owned(), Json::Text(HANDOFF_CONTEXT.to_owned())));
    members.push(("monitoring_transferred".to_owned(), Json::Bool(wake_consumer_available)));
    members.push(("wake_consumer_available".to_owned(), Json::Bool(wake_consumer_available)));
    members.push(("origin_machine".to_owned(), Json::Text(origin_machine.to_owned())));
    members.push(("repair_route".to_owned(), Json::Text(repair.to_owned())));
    match agent_route {
        Some(route) => members.push(("agent_route".to_owned(), route_object(route))),
        None => {},
    }
    match &args.context_url {
        Some(url) => members.push(("context_url".to_owned(), Json::Text(url.clone()))),
        None => {},
    }
    proof {
        let want = handoff_members(
            *args,
            repo@,
            match agent_route {
                Some(route) => Some(route@),
                None => None,
            },
            origin_machine@,
            wake_consumer_available,
        );
        assert(members_of(members@) =~= want);
    }
    object(members)
}

/// A handoff that changes things passes through every step that it needs: it saves its
/// intent, reads the status, writes it where it is missing, looks at the pull request
/// before and after the label, and ends as managed.
pub proof fn a_handoff_ends_as_managed(run: HandoffRun, stage: HandoffStage)
    requires
        run.apply,
        stage != HandoffStage::Render,
    ensures
        ({
            let next = handoff_next(run, stage);
            let step = handoff_rank(next) - handoff_rank(stage);
            &&& step == 1 || (step == 2 && (stage == HandoffStage::Load || stage
                == HandoffStage::ReadStatus || stage == HandoffStage::VerifyBeforeLabel))
            &&& stage == HandoffStage::Load ==> (next == HandoffStage::SaveRoute <==> run.has_agent)
            &&& stage == HandoffStage::ReadStatus ==> (next == HandoffStage::WriteStatus
                <==> !run.status_present)
            &&& stage == HandoffStage::VerifyBeforeLabel ==> (next == HandoffStage::SaveReady
                <==> run.starting_phase == HandoffPhase::Intent)
            &&& next == HandoffStage::Render ==> stage == HandoffStage::RemoveLabel
        }),
{
}

/// A handoff that only looks resolves and is told, and touches nothing.
pub proof fn a_look_at_a_handoff_changes_nothing(run: HandoffRun)
    requires
        !run.apply,
    ensures
        handoff_next(run, HandoffStage::Preflight) == HandoffStage::Resolve,
        handoff_next(run, HandoffStage::Resolve) == HandoffStage::Render,
{
}

/// A managed receipt that is sound names its owner: the fresh agent where it has no route,
/// and otherwise the agent of the stored route, which has to agree with it in everything.
pub proof fn a_managed_receipt_names_its_owner(
    receipt: ReceiptView,
    form: Option<ProfileForm>,
    repo: Seq<char>,
    pr: u64,
    head: Seq<char>,
    stored: Option<StoredAgentRoute>,
)
    requires
        receipt_error(receipt, form, repo, pr, head) is None,
    ensures
        ({
            let owner = head_owner(Some(receipt), form, repo, pr, head, stored);
            &&& receipt.phase != HandoffPhase::Managed ==> owner == Ok::<
                Option<OwnerView>,
                Seq<char>,
            >(None)
            &&& receipt.phase == HandoffPhase::Managed && receipt.agent_route is None ==> (owner
                matches Ok(Some(found)) && found.owner_id == receipt.owner_id && found.route_id
                is None && found.owner_disposition == "fresh_agent_only"@)
            &&& receipt.phase == HandoffPhase::Managed && receipt.agent_route is Some && stored is None
                ==> owner is Err
            &&& receipt.phase == HandoffPhase::Managed ==> (receipt.agent_route matches Some(route)
                ==> (stored matches Some(kept) ==> (owner is Ok <==> kept.schema_version == 2
                && kept.revision > 0 && kept.route_id@ == route.route_id && kept.owner_id@
                == route.owner_id && kept.origin_machine@ == receipt.origin_machine && route_to(
                kept.agent@,
                kept.origin_machine@,
            ) == route)))
            &&& owner matches Ok(Some(found)) ==> found.ownership_generation
                == receipt.ownership_generation && found.origin_machine == receipt.origin_machine && (
            receipt.agent_route matches Some(route) ==> found.route_id == Some(route.route_id)
                && found.provider == Some(route.provider) && found.owner_disposition
                == "original_owner"@)
        }),
{
}

/// The owner of a managed receipt whose route cannot be used is told without a way to
/// reach it, and nobody is told for any other receipt.
pub proof fn an_unresolved_owner_has_no_route(
    receipt: Option<ReceiptView>,
    form: Option<ProfileForm>,
    repo: Seq<char>,
    pr: u64,
    head: Seq<char>,
)
    ensures
        unresolved_owner(receipt, form, repo, pr, head) is Some <==> (receipt matches Some(found)
            && found.phase == HandoffPhase::Managed && receipt_error(found, form, repo, pr, head)
            is None),
        unresolved_owner(receipt, form, repo, pr, head) matches Some(owner) ==> owner.route_id is None
            && owner.provider is None && owner.resume_transport is None && owner.owner_id
            == receipt->Some_0.owner_id && owner.owner_disposition == "unroutable_private_route"@,
{
}

/// A status of another context is passed over, and one of the handoff counts exactly where
/// it tells its time, a new id and a state that is known.
pub proof fn a_whole_handoff_status_counts(status: JsonTree, seen: Seq<u64>, context: Seq<char>)
    requires
        status.text_at("context"@) == Some(context),
    ensures
        context != HANDOFF_CONTEXT@ ==> handoff_status(status, seen) == Ok::<
            Option<(Instant, u64)>,
            Seq<char>,
        >(None),
        context == HANDOFF_CONTEXT@ ==> {
            &&& handoff_status(status, seen) is Ok <==> (status.text_at("created_at"@) matches Some(
                created,
            ) && rfc3339(created) is Ok) && (status.number_at("id"@) matches Some(id)
                && !seen.contains(id)) && (status.text_at("state"@) matches Some(state)
                && known_state(state))
            &&& handoff_status(status, seen) matches Ok(found) ==> (found matches Some(told)
                && status.number_at("id"@) == Some(told.1))
        },
{
}

/// Of two statuses the later one is newer, and of two of one moment the one with the
/// higher id; never both.
pub proof fn one_of_two_statuses_is_newer(a: (Instant, u64), b: (Instant, u64))
    ensures
        b.0.precedes(a.0) ==> newer(a, b),
        a.0 == b.0 ==> (newer(a, b) <==> b.1 < a.1),
        !(newer(a, b) && newer(b, a)),
{
}

/// A status says that the work was handed over only in success, for that workstream and
/// with that context.
pub proof fn only_a_successful_status_hands_over(status: JsonTree, args: StewardHandoffArgs)
    ensures
        status_says_handed_over(status, args) ==> status.text_at("state"@) == Some("success"@)
            && status.text_at("target_url"@) == opt_view(args.context_url) && (status.text_at(
            "description"@,
        ) matches Some(text) && has_suffix(text, args.workstream_id@)),
        status.text_at("state"@) == Some("success"@) && status.text_at("target_url"@) == opt_view(
            args.context_url,
        ) && status.text_at("description"@) == Some(handoff_description(args.workstream_id@))
            ==> status_says_handed_over(status, args),
{
    ends_with_its_end("Managed handoff "@, args.workstream_id@);
}

} // verus!
