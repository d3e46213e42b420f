//! The receipt of a handoff: who owns a pull request's head, and how far the
//! handoff has come.
use vstd::prelude::*;

use crate::launch_profile::{
    integrity, launch_profile_digest, launch_profile_integrity_hash, profile_digest, profile_error,
    LaunchProfileV1, RecoveryPolicyV1,
};
use crate::model::{fails, CliFailure};
use crate::routes::{
    identifier_error, owner_id_of, owner_identity, route_view, same_routes,
    validate_agent_identifier, AgentRouteReference, RouteView, StewardHandoffArgs,
};
use crate::text::{
    copy_opt, eq_ignore_case, lower, opt_eq, opt_view, same_ignoring_case, str_eq, to_lower,
};

verus! {

/// How far a handoff has come.
#[derive(Clone, Copy, Debug, PartialEq, Eq, Structural)]
pub enum HandoffPhase {
    Intent,
    Ready,
    Managed,
}

impl HandoffPhase {
    /// The phase's place in their order.
    pub open spec fn spec_rank(self) -> u8 {
        match self {
            HandoffPhase::Intent => 0,
            HandoffPhase::Ready => 1,
            HandoffPhase::Managed => 2,
        }
    }

    /// The phase's place in their order.
    pub fn rank(self) -> (r: u8)
        ensures
            r == self.spec_rank(),
    {
        match self {
            HandoffPhase::Intent => 0,
            HandoffPhase::Ready => 1,
            HandoffPhase::Managed => 2,
        }
    }

    /// The later of two phases.
    pub open spec fn later(self, other: Self) -> Self {
        if self.spec_rank() >= other.spec_rank() {
            self
        } else {
            other
        }
    }

    /// The later of two phases.
    pub fn max(self, other: Self) -> (r: Self)
        ensures
            r == self.later(other),
    {
        if self.rank() >= other.rank() {
            self
        } else {
            other
        }
    }
}

/// Who repairs what goes wrong.
#[derive(Clone, Copy, Debug, PartialEq, Eq, Structural)]
pub enum RepairRoute {
    OriginalAgent,
    FreshAgentOnly,
}

/// A launch profile as it is handed in, with its digest.
#[derive(Debug)]
pub struct LaunchProfileCandidate {
    pub profile: LaunchProfileV1,
    pub profile_digest: String,
}

/// A launch profile as a receipt carries it.
#[derive(Debug)]
pub struct StoredLaunchProfileV1 {
    pub profile: LaunchProfileV1,
    pub profile_digest: String,
    pub integrity_hash: String,
    pub generation: u64,
    pub revision: u64,
}

/// What is said of a carried profile.
pub struct StoredProfileView {
    pub profile: LaunchProfileV1,
    pub profile_digest: Seq<char>,
    pub integrity_hash: Seq<char>,
    pub generation: u64,
    pub revision: u64,
}

impl View for StoredLaunchProfileV1 {
    type V = StoredProfileView;

    open spec fn view(&self) -> StoredProfileView {
        StoredProfileView {
            profile: self.profile,
            profile_digest: self.profile_digest@,
            integrity_hash: self.integrity_hash@,
            generation: self.generation,
            revision: self.revision,
        }
    }
}

/// The stored form of a profile: its canonical bytes, and whether its worktree's
/// path is one from the root.
#[derive(Debug)]
pub struct ProfileForm {
    pub canonical: Vec<u8>,
    pub absolute: bool,
}

/// Whether a publication was accepted.
#[derive(Clone, Copy, Debug, PartialEq, Eq, Structural)]
pub enum NativePublicationStateV1 {
    Pending,
    Accepted,
}

/// The publication of a handoff.
#[derive(Clone, Debug, PartialEq, Eq)]
pub struct NativePublicationReceiptV1 {
    pub schema_version: u32,
    pub state: NativePublicationStateV1,
    pub work_id: String,
    pub route_ref: String,
    pub wake_id: String,
    pub profile_digest: String,
    pub repo_policy_revision: u64,
}

/// The receipt of a handoff.
#[derive(Debug)]
pub struct DurableStewardHandoff {
    pub schema_version: u32,
    pub repo: String,
    pub pr: u64,
    pub head_sha: String,
    pub workstream_id: String,
    pub context_url: Option<String>,
    pub origin_machine: String,
    pub owner_id: String,
    pub ownership_generation: u64,
    pub revision: u64,
    pub repair_route: RepairRoute,
    pub agent_route: Option<AgentRouteReference>,
    pub launch_profile: Option<StoredLaunchProfileV1>,
    pub native_publication: Option<NativePublicationReceiptV1>,
    pub phase: HandoffPhase,
    pub wake_consumer_available: bool,
    pub created_at: String,
    pub updated_at: String,
}

/// What a receipt says.
pub struct ReceiptView {
    pub schema_version: u32,
    pub repo: Seq<char>,
    pub pr: u64,
    pub head_sha: Seq<char>,
    pub workstream_id: Seq<char>,
    pub context_url: Option<Seq<char>>,
    pub origin_machine: Seq<char>,
    pub owner_id: Seq<char>,
    pub ownership_generation: u64,
    pub revision: u64,
    pub repair_route: RepairRoute,
    pub agent_route: Option<RouteView>,
    pub launch_profile: Option<StoredProfileView>,
    pub native_publication: Option<NativePublicationReceiptV1>,
    pub phase: HandoffPhase,
    pub wake_consumer_available: bool,
    pub created_at: Seq<char>,
    pub updated_at: Seq<char>,
}

/// What is said of an optional carried profile.
pub open spec fn stored_view(stored: Option<StoredLaunchProfileV1>) -> Option<StoredProfileView> {
    match stored {
        Some(stored) => Some(stored@),
        None => None,
    }
}

impl View for DurableStewardHandoff {
    type V = ReceiptView;

    open spec fn view(&self) -> ReceiptView {
        ReceiptView {
            schema_version: self.schema_version,
            repo: self.repo@,
            pr: self.pr,
            head_sha: self.head_sha@,
            workstream_id: self.workstream_id@,
            context_url: opt_view(self.context_url),
            origin_machine: self.origin_machine@,
            owner_id: self.owner_id@,
            ownership_generation: self.ownership_generation,
            revision: self.revision,
            repair_route: self.repair_route,
            agent_route: route_view(self.agent_route),
            launch_profile: stored_view(self.launch_profile),
            native_publication: self.native_publication,
            phase: self.phase,
            wake_consumer_available: self.wake_consumer_available,
            created_at: self.created_at@,
            updated_at: self.updated_at@,
        }
    }
}

/// What is known of a worktree itself.
#[derive(Debug)]
pub struct WorktreeEvidence {
    pub available: bool,
    /// The repository that it was cloned from.
    pub origin: Option<String>,
    pub head_sha: String,
    /// Whether its lineage is still worked on.
    pub active: bool,
}

/// What contradicts a profile's claims about its worktree.
pub open spec fn evidence_error(
    profile: LaunchProfileV1,
    evidence: WorktreeEvidence,
    repo: Seq<char>,
    head: Seq<char>,
) -> Option<Seq<char>> {
    if !same_ignoring_case(profile.worktree.repository@, repo) || !same_ignoring_case(
        profile.worktree.head_sha@,
        head,
    ) {
        Some("launch profile does not match the handed-off repository and head"@)
    } else if !evidence.available {
        Some("launch profile worktree path is unavailable"@)
    } else if !(opt_view(evidence.origin) matches Some(origin) && same_ignoring_case(
        origin,
        profile.worktree.repository@,
    )) {
        Some("launch profile worktree origin does not match its repository"@)
    } else if !same_ignoring_case(evidence.head_sha@, profile.worktree.head_sha@) {
        Some("launch profile worktree HEAD does not match its head"@)
    } else if !evidence.active {
        Some("launch profile worktree lineage is not active"@)
    } else {
        None
    }
}

/// A profile as it can be handed in: valid, and borne out by its worktree.
pub fn prepare_launch_profile_candidate(
    profile: LaunchProfileV1,
    form: &ProfileForm,
    evidence: &WorktreeEvidence,
    repo: &str,
    head: &str,
) -> (r: Result<LaunchProfileCandidate, CliFailure>)
    ensures
        match profile_error(profile, form.absolute) {
            Some(text) => fails(r, 1, text),
            None => match evidence_error(profile, *evidence, repo@, head@) {
                Some(text) => fails(r, 1, text),
                None => r matches Ok(candidate) && candidate.profile == profile
                    && candidate.profile_digest@ == profile_digest(form.canonical@),
            },
        },
{
    let profile_digest = match launch_profile_digest(&profile, form.absolute, &form.canonical) {
        Ok(text) => text,
        Err(failure) => return Err(failure),
    };
    if !eq_ignore_case(profile.worktree.repository.as_str(), repo) || !eq_ignore_case(
        profile.worktree.head_sha.as_str(),
        head,
    ) {
        return Err(
            CliFailure::new(1, "launch profile does not match the handed-off repository and head"),
        );
    }
    if !evidence.available {
        return Err(CliFailure::new(1, "launch profile worktree path is unavailable"));
    }
    let same_origin = match &evidence.origin {
        Some(origin) => eq_ignore_case(origin.as_str(), profile.worktree.repository.as_str()),
        None => false,
    };
    if !same_origin {
        return Err(
            CliFailure::new(1, "launch profile worktree origin does not match its repository"),
        );
    }
    if !eq_ignore_case(evidence.head_sha.as_str(), profile.worktree.head_sha.as_str()) {
        return Err(CliFailure::new(1, "launch profile worktree HEAD does not match its head"));
    }
    if !evidence.active {
        return Err(CliFailure::new(1, "launch profile worktree lineage is not active"));
    }
    Ok(LaunchProfileCandidate { profile, profile_digest })
}

/// What keeps a profile from being bound to a route: a session can be resumed
/// only by the route to that session.
pub open spec fn binding_error(profile: LaunchProfileV1, route: Option<RouteView>) -> Option<
    Seq<char>,
> {
    let exact = profile.recovery_policy != RecoveryPolicyV1::FreshCheckpointOnly;
    if exact && route is None {
        Some("launch profile recovery policy requires a durable agent route"@)
    } else {
        let bound = match (profile.session, route) {
            (Some(session), Some(route)) => session.agent_provider@ == route.provider
                && owner_identity(session.agent_provider@, session.provider_session_id@)
                == route.owner_id,
            (Some(_), None) => false,
            (None, _) => !exact,
        };
        if bound {
            None
        } else {
            Some("launch profile session does not match the exact agent route"@)
        }
    }
}

/// Refuses a profile that cannot be bound to a route.
fn check_binding(profile: &LaunchProfileV1, route: &Option<AgentRouteReference>) -> (r: Result<
    (),
    CliFailure,
>)
    ensures
        match binding_error(*profile, route_view(*route)) {
            Some(text) => fails(r, 1, text),
            None => r is Ok,
        },
{
    let exact = match profile.recovery_policy {
        RecoveryPolicyV1::FreshCheckpointOnly => false,
        _ => true,
    };
    if exact && route.is_none() {
        return Err(
            CliFailure::new(1, "launch profile recovery policy requires a durable agent route"),
        );
    }
    let bound = match (&profile.session, route) {
        (Some(session), Some(route)) => str_eq(
            session.agent_provider.as_str(),
            route.provider.as_str(),
        ) && str_eq(
            owner_id_of(
                session.agent_provider.as_str(),
                session.provider_session_id.as_str(),
            ).as_str(),
            route.owner_id.as_str(),
        ),
        (Some(_), None) => false,
        (None, _) => !exact,
    };
    if bound {
        Ok(())
    } else {
        Err(CliFailure::new(1, "launch profile session does not match the exact agent route"))
    }
}

/// Refuses a candidate that cannot be bound to a route.
pub fn validate_launch_profile_route(
    candidate: &Option<LaunchProfileCandidate>,
    route: &Option<AgentRouteReference>,
) -> (r: Result<(), CliFailure>)
    ensures
        match candidate {
            Some(candidate) => match binding_error(candidate.profile, route_view(*route)) {
                Some(text) => fails(r, 1, text),
                None => r is Ok,
            },
            None => r is Ok,
        },
{
    match candidate {
        Some(candidate) => check_binding(&candidate.profile, route),
        None => Ok(()),
    }
}

/// Whether a receipt's owner, repair and route agree.
pub open spec fn route_consistent(receipt: ReceiptView) -> bool {
    match receipt.agent_route {
        None => receipt.repair_route == RepairRoute::FreshAgentOnly && receipt.owner_id
            == "fresh-agent-only"@,
        Some(route) => receipt.repair_route == RepairRoute::OriginalAgent && receipt.owner_id
            == route.owner_id && receipt.origin_machine == route.origin_machine,
    }
}

/// The identity of a receipt's route.
pub open spec fn route_id_of(route: Option<RouteView>) -> Option<Seq<char>> {
    match route {
        Some(route) => Some(route.route_id),
        None => None,
    }
}

/// Whether the profile that a receipt carries is what was sealed, and is bound to
/// the receipt's owner, head and route.
pub open spec fn profile_consistent(receipt: ReceiptView, form: Option<ProfileForm>) -> bool {
    match receipt.launch_profile {
        None => true,
        Some(stored) => form matches Some(form) && {
            &&& profile_error(stored.profile, form.absolute) is None
            &&& stored.profile_digest == profile_digest(form.canonical@)
            &&& stored.generation == receipt.ownership_generation
            &&& stored.revision != 0
            &&& stored.integrity_hash == integrity(
                stored.profile_digest,
                stored.generation,
                stored.revision,
                route_id_of(receipt.agent_route),
            )
            &&& same_ignoring_case(stored.profile.worktree.repository@, receipt.repo)
            &&& same_ignoring_case(stored.profile.worktree.head_sha@, receipt.head_sha)
            &&& binding_error(stored.profile, receipt.agent_route) is None
        },
    }
}

/// Whether a receipt says that somebody is woken exactly where its publication was
/// accepted, and the publication is of the profile that it carries.
pub open spec fn publication_consistent(receipt: ReceiptView) -> bool {
    match receipt.native_publication {
        None => !receipt.wake_consumer_available,
        Some(publication) => {
            &&& 1 <= publication.schema_version <= 2
            &&& receipt.wake_consumer_available == (publication.state
                == NativePublicationStateV1::Accepted)
            &&& receipt.launch_profile matches Some(stored) && stored.profile_digest
                == publication.profile_digest@
        },
    }
}

/// Whether a receipt is sound, and is that of a pull request's head.
pub open spec fn sound_receipt(
    receipt: ReceiptView,
    form: Option<ProfileForm>,
    repo: Seq<char>,
    pr: u64,
    head: Seq<char>,
) -> bool {
    &&& 2 <= receipt.schema_version <= 4
    &&& same_ignoring_case(receipt.repo, repo)
    &&& receipt.pr == pr
    &&& same_ignoring_case(receipt.head_sha, head)
    &&& receipt.ownership_generation != 0
    &&& receipt.revision != 0
    &&& route_consistent(receipt)
    &&& profile_consistent(receipt, form)
    &&& publication_consistent(receipt)
}

/// What is wrong with a receipt.
pub open spec fn receipt_error(
    receipt: ReceiptView,
    form: Option<ProfileForm>,
    repo: Seq<char>,
    pr: u64,
    head: Seq<char>,
) -> Option<Seq<char>> {
    if !sound_receipt(receipt, form, repo, pr, head) {
        Some("durable handoff receipt is incompatible or does not match its exact-head path"@)
    } else {
        identifier_error("origin machine"@, receipt.origin_machine)
    }
}

/// A form by reference.
pub open spec fn form_of(form: Option<&ProfileForm>) -> Option<ProfileForm> {
    match form {
        Some(form) => Some(*form),
        None => None,
    }
}

fn profile_holds(receipt: &DurableStewardHandoff, form: Option<&ProfileForm>) -> (r: bool)
    ensures
        r == profile_consistent(receipt@, form_of(form)),
{
    let stored = match &receipt.launch_profile {
        Some(stored) => stored,
        None => return true,
    };
    let form = match form {
        Some(form) => form,
        None => return false,
    };
    let digest = match launch_profile_digest(&stored.profile, form.absolute, &form.canonical) {
        Ok(digest) => digest,
        Err(_) => return false,
    };
    let route_id: Option<&str> = match &receipt.agent_route {
        Some(route) => Some(route.route_id.as_str()),
        None => None,
    };
    let sealed = launch_profile_integrity_hash(
        stored.profile_digest.as_str(),
        stored.generation,
        stored.revision,
        route_id,
    );
    str_eq(stored.profile_digest.as_str(), digest.as_str()) && stored.generation
        == receipt.ownership_generation && stored.revision != 0 && str_eq(
        stored.integrity_hash.as_str(),
        sealed.as_str(),
    ) && eq_ignore_case(stored.profile.worktree.repository.as_str(), receipt.repo.as_str())
        && eq_ignore_case(stored.profile.worktree.head_sha.as_str(), receipt.head_sha.as_str())
        && check_binding(&stored.profile, &receipt.agent_route).is_ok()
}

/// Refuses a receipt that is not sound, or is not that of a pull request's head.
pub fn validate_handoff_receipt_integrity(
    receipt: &DurableStewardHandoff,
    form: Option<&ProfileForm>,
    repo: &str,
    pr: u64,
    head: &str,
) -> (r: Result<(), CliFailure>)
    ensures
        match receipt_error(receipt@, form_of(form), repo@, pr, head@) {
            Some(text) => fails(r, 1, text),
            None => r is Ok,
        },
{
    let route_ok = match &receipt.agent_route {
        None => receipt.repair_route == RepairRoute::FreshAgentOnly && str_eq(
            receipt.owner_id.as_str(),
            "fresh-agent-only",
        ),
        Some(route) => receipt.repair_route == RepairRoute::OriginalAgent && str_eq(
            receipt.owner_id.as_str(),
            route.owner_id.as_str(),
        ) && str_eq(receipt.origin_machine.as_str(), route.origin_machine.as_str()),
    };
    let publication_ok = match &receipt.native_publication {
        None => !receipt.wake_consumer_available,
        Some(publication) => 1 <= publication.schema_version && publication.schema_version <= 2
            && receipt.wake_consumer_available == (publication.state
            == NativePublicationStateV1::Accepted) && match &receipt.launch_profile {
            Some(stored) => str_eq(
                stored.profile_digest.as_str(),
                publication.profile_digest.as_str(),
            ),
            None => false,
        },
    };
    if !(2 <= receipt.schema_version && receipt.schema_version <= 4 && eq_ignore_case(
        receipt.repo.as_str(),
        repo,
    ) && receipt.pr == pr && eq_ignore_case(receipt.head_sha.as_str(), head)
        && receipt.ownership_generation != 0 && receipt.revision != 0 && route_ok && profile_holds(
        receipt,
        form,
    ) && publication_ok) {
        return Err(
            CliFailure::new(
                1,
                "durable handoff receipt is incompatible or does not match its exact-head path",
            ),
        );
    }
    validate_agent_identifier("origin machine", receipt.origin_machine.as_str())
}

/// Refuses a receipt that a handoff cannot go on with.
pub fn validate_existing_handoff(
    existing: &DurableStewardHandoff,
    form: Option<&ProfileForm>,
    args: &StewardHandoffArgs,
    normalized_repo: &str,
    normalized_head: &str,
) -> (r: Result<(), CliFailure>)
    ensures
        match receipt_error(existing@, form_of(form), normalized_repo@, args.pr, normalized_head@) {
            Some(text) => fails(r, 1, text),
            None => r is Ok,
        },
{
    validate_handoff_receipt_integrity(existing, form, normalized_repo, args.pr, normalized_head)
}

/// A profile as a receipt carries it, sealed for an owner.
pub open spec fn sealed_profile(
    candidate: LaunchProfileCandidate,
    generation: u64,
    revision: u64,
    route: Option<RouteView>,
) -> StoredProfileView {
    StoredProfileView {
        profile: candidate.profile,
        profile_digest: candidate.profile_digest@,
        integrity_hash: integrity(
            candidate.profile_digest@,
            generation,
            revision,
            route_id_of(route),
        ),
        generation,
        revision,
    }
}

fn seal_profile(
    candidate: LaunchProfileCandidate,
    generation: u64,
    revision: u64,
    route: &Option<AgentRouteReference>,
) -> (r: StoredLaunchProfileV1)
    ensures
        r@ == sealed_profile(candidate, generation, revision, route_view(*route)),
{
    let route_id: Option<&str> = match route {
        Some(route) => Some(route.route_id.as_str()),
        None => None,
    };
    let integrity_hash = launch_profile_integrity_hash(
        candidate.profile_digest.as_str(),
        generation,
        revision,
        route_id,
    );
    StoredLaunchProfileV1 {
        profile: candidate.profile,
        profile_digest: candidate.profile_digest,
        integrity_hash,
        generation,
        revision,
    }
}

/// The owner of a handoff.
pub open spec fn owner_of(route: Option<RouteView>) -> Seq<char> {
    match route {
        Some(route) => route.owner_id,
        None => "fresh-agent-only"@,
    }
}

/// Whether a handed-in profile is the one that a receipt carries.
pub open spec fn same_profile(
    existing: ReceiptView,
    candidate: Option<LaunchProfileCandidate>,
) -> bool {
    match candidate {
        None => true,
        Some(candidate) => existing.launch_profile matches Some(stored) && stored.profile_digest
            == candidate.profile_digest@,
    }
}

/// A new receipt.
pub open spec fn new_receipt(
    args: StewardHandoffArgs,
    repo: Seq<char>,
    origin: Seq<char>,
    route: Option<RouteView>,
    candidate: Option<LaunchProfileCandidate>,
    at: Seq<char>,
) -> ReceiptView {
    ReceiptView {
        schema_version: 4,
        repo: lower(repo),
        pr: args.pr,
        head_sha: lower(args.head@),
        workstream_id: args.workstream_id@,
        context_url: opt_view(args.context_url),
        origin_machine: origin,
        owner_id: owner_of(route),
        ownership_generation: 1,
        revision: 0,
        repair_route: if route is Some {
            RepairRoute::OriginalAgent
        } else {
            RepairRoute::FreshAgentOnly
        },
        agent_route: route,
        launch_profile: match candidate {
            Some(candidate) => Some(sealed_profile(candidate, 1, 1, route)),
            None => None,
        },
        native_publication: None,
        phase: HandoffPhase::Intent,
        wake_consumer_available: false,
        created_at: at,
        updated_at: at,
    }
}

/// A receipt after its owner was replaced.
pub open spec fn transferred(
    existing: ReceiptView,
    args: StewardHandoffArgs,
    origin: Seq<char>,
    route: Option<RouteView>,
    candidate: Option<LaunchProfileCandidate>,
) -> Result<ReceiptView, Seq<char>> {
    if route is None {
        Err("--transfer-agent-owner requires an explicit replacement agent route"@)
    } else if existing.workstream_id != args.workstream_id@ || existing.context_url != opt_view(
        args.context_url,
    ) {
        Err("ownership transfer cannot change workstream or context"@)
    } else if existing.owner_id == owner_of(route) && existing.agent_route == route {
        if same_profile(existing, candidate) {
            Ok(existing)
        } else {
            Err("same-owner handoff cannot change or omit its launch profile"@)
        }
    } else if existing.native_publication is Some {
        Err("published handoff ownership cannot be transferred"@)
    } else if existing.launch_profile is Some && candidate is None {
        Err("ownership transfer requires a replacement launch profile"@)
    } else if existing.ownership_generation == u64::MAX {
        Err("handoff ownership generation overflow"@)
    } else if existing.launch_profile matches Some(stored) && stored.revision == u64::MAX {
        Err("launch profile revision overflow"@)
    } else {
        let generation = (existing.ownership_generation + 1) as u64;
        let revision = match existing.launch_profile {
            Some(stored) => (stored.revision + 1) as u64,
            None => 1,
        };
        Ok(
            ReceiptView {
                owner_id: owner_of(route),
                agent_route: route,
                origin_machine: origin,
                repair_route: RepairRoute::OriginalAgent,
                ownership_generation: generation,
                launch_profile: match candidate {
                    Some(candidate) => Some(
                        sealed_profile(candidate, generation, revision, route),
                    ),
                    None => None,
                },
                ..existing
            },
        )
    }
}

/// The receipt that a handoff goes on with.
pub open spec fn prepared(
    existing: Option<ReceiptView>,
    form: Option<ProfileForm>,
    args: StewardHandoffArgs,
    repo: Seq<char>,
    origin: Seq<char>,
    route: Option<RouteView>,
    candidate: Option<LaunchProfileCandidate>,
    at: Seq<char>,
) -> Result<ReceiptView, Seq<char>> {
    if candidate matches Some(candidate) && binding_error(candidate.profile, route) is Some {
        Err(binding_error(candidate->Some_0.profile, route)->Some_0)
    } else {
        match existing {
            None => if args.transfer_agent_owner {
                Err("--transfer-agent-owner requires an existing exact-head handoff receipt"@)
            } else {
                Ok(new_receipt(args, repo, origin, route, candidate, at))
            },
            Some(receipt) => {
                let error = receipt_error(receipt, form, lower(repo), args.pr, lower(args.head@));
                if error is Some {
                    Err(error->Some_0)
                } else if args.transfer_agent_owner {
                    transferred(receipt, args, origin, route, candidate)
                } else if receipt.owner_id != owner_of(route) {
                    Err(
                        "this exact PR head already belongs to a different agent owner; explicit ownership transfer is required"@,
                    )
                } else if receipt.agent_route != route {
                    Err(
                        "same-owner handoff route metadata changed; explicit ownership transfer is required"@,
                    )
                } else if receipt.workstream_id != args.workstream_id@ || receipt.context_url
                    != opt_view(args.context_url) {
                    Err("same-owner handoff cannot change workstream identity or context URL"@)
                } else if receipt.origin_machine != origin {
                    Err(
                        "same-owner handoff origin machine changed; explicit ownership transfer is required"@,
                    )
                } else if !same_profile(receipt, candidate) {
                    Err("same-owner handoff cannot change or omit its launch profile"@)
                } else {
                    Ok(receipt)
                }
            },
        }
    }
}

/// Whether a result shows a receipt, or says why there is none.
pub open spec fn shows_receipt(
    r: Result<DurableStewardHandoff, CliFailure>,
    view: Result<ReceiptView, Seq<char>>,
) -> bool {
    match view {
        Ok(receipt) => r matches Ok(found) && found@ == receipt,
        Err(text) => fails(r, 1, text),
    }
}

/// A new receipt.
pub fn new_handoff_receipt(
    args: &StewardHandoffArgs,
    repo: &str,
    origin_machine: &str,
    agent_route: Option<AgentRouteReference>,
    candidate: Option<LaunchProfileCandidate>,
    at: &str,
) -> (r: DurableStewardHandoff)
    ensures
        r@ == new_receipt(*args, repo@, origin_machine@, route_view(agent_route), candidate, at@),
{
    let owner_id = match &agent_route {
        Some(route) => route.owner_id.clone(),
        None => "fresh-agent-only".to_owned(),
    };
    let repair_route = if agent_route.is_some() {
        RepairRoute::OriginalAgent
    } else {
        RepairRoute::FreshAgentOnly
    };
    let launch_profile = match candidate {
        Some(candidate) => Some(seal_profile(candidate, 1, 1, &agent_route)),
        None => None,
    };
    DurableStewardHandoff {
        schema_version: 4,
        repo: to_lower(repo),
        pr: args.pr,
        head_sha: to_lower(args.head.as_str()),
        workstream_id: args.workstream_id.clone(),
        context_url: copy_opt(args.context_url.as_ref()),
        origin_machine: origin_machine.to_owned(),
        owner_id,
        ownership_generation: 1,
        revision: 0,
        repair_route,
        agent_route,
        launch_profile,
        native_publication: None,
        phase: HandoffPhase::Intent,
        wake_consumer_available: false,
        created_at: at.to_owned(),
        updated_at: at.to_owned(),
    }
}

fn is_same_profile(existing: &DurableStewardHandoff, candidate: &Option<LaunchProfileCandidate>) -> (r:
    bool)
    ensures
        r == same_profile(existing@, *candidate),
{
    match candidate {
        None => true,
        Some(candidate) => match &existing.launch_profile {
            Some(stored) => str_eq(
                stored.profile_digest.as_str(),
                candidate.profile_digest.as_str(),
            ),
            None => false,
        },
    }
}

/// A receipt after its owner was replaced: the work stays the same, and the
/// generation of its ownership goes up by one.
pub fn transfer_handoff_owner(
    existing: DurableStewardHandoff,
    args: &StewardHandoffArgs,
    origin_machine: &str,
    agent_route: Option<AgentRouteReference>,
    candidate: Option<LaunchProfileCandidate>,
) -> (r: Result<DurableStewardHandoff, CliFailure>)
    ensures
        shows_receipt(
            r,
            transferred(existing@, *args, origin_machine@, route_view(agent_route), candidate),
        ),
{
    let owner_id = match &agent_route {
        Some(route) => route.owner_id.clone(),
        None => return Err(
            CliFailure::new(
                1,
                "--transfer-agent-owner requires an explicit replacement agent route",
            ),
        ),
    };
    if !str_eq(existing.workstream_id.as_str(), args.workstream_id.as_str()) || !opt_eq(
        &existing.context_url,
        &args.context_url,
    ) {
        return Err(CliFailure::new(1, "ownership transfer cannot change workstream or context"));
    }
    if str_eq(existing.owner_id.as_str(), owner_id.as_str()) && same_routes(
        &existing.agent_route,
        &agent_route,
    ) {
        if is_same_profile(&existing, &candidate) {
            return Ok(existing);
        }
        return Err(
            CliFailure::new(1, "same-owner handoff cannot change or omit its launch profile"),
        );
    }
    if existing.native_publication.is_some() {
        return Err(CliFailure::new(1, "published handoff ownership cannot be transferred"));
    }
    if existing.launch_profile.is_some() && candidate.is_none() {
        return Err(CliFailure::new(1, "ownership transfer requires a replacement launch profile"));
    }
    if existing.ownership_generation == u64::MAX {
        return Err(CliFailure::new(1, "handoff ownership generation overflow"));
    }
    let revision: u64 = match &existing.launch_profile {
        Some(stored) => {
            if stored.revision == u64::MAX {
                return Err(CliFailure::new(1, "launch profile revision overflow"));
            }
            stored.revision + 1
        },
        None => 1,
    };
    let generation: u64 = existing.ownership_generation + 1;
    let launch_profile = match candidate {
        Some(candidate) => Some(seal_profile(candidate, generation, revision, &agent_route)),
        None => None,
    };
    Ok(
        DurableStewardHandoff {
            schema_version: existing.schema_version,
            repo: existing.repo,
            pr: existing.pr,
            head_sha: existing.head_sha,
            workstream_id: existing.workstream_id,
            context_url: existing.context_url,
            origin_machine: origin_machine.to_owned(),
            owner_id,
            ownership_generation: generation,
            revision: existing.revision,
            repair_route: RepairRoute::OriginalAgent,
            agent_route,
            launch_profile,
            native_publication: existing.native_publication,
            phase: existing.phase,
            wake_consumer_available: existing.wake_consumer_available,
            created_at: existing.created_at,
            updated_at: existing.updated_at,
        },
    )
}

/// The receipt that a handoff goes on with: the one that is stored, with its owner
/// replaced where that was asked for, or a new one. Nobody else's head is taken
/// over, and nothing of the same owner's work is changed.
pub fn prepare_handoff_receipt_with_profile(
    existing: Option<DurableStewardHandoff>,
    form: Option<&ProfileForm>,
    args: &StewardHandoffArgs,
    repo: &str,
    origin_machine: &str,
    agent_route: Option<AgentRouteReference>,
    candidate: Option<LaunchProfileCandidate>,
    at: &str,
) -> (r: Result<DurableStewardHandoff, CliFailure>)
    ensures
        shows_receipt(
            r,
            prepared(
                match existing {
                    Some(receipt) => Some(receipt@),
                    None => None,
                },
                form_of(form),
                *args,
                repo@,
                origin_machine@,
                route_view(agent_route),
                candidate,
                at@,
            ),
        ),
{
    match validate_launch_profile_route(&candidate, &agent_route) {
        Ok(_) => {},
        Err(failure) => return Err(failure),
    }
    let receipt = match existing {
        Some(receipt) => receipt,
        None => {
            if args.transfer_agent_owner {
                return Err(
                    CliFailure::new(
                        1,
                        "--transfer-agent-owner requires an existing exact-head handoff receipt",
                    ),
                );
            }
            return Ok(
                new_handoff_receipt(args, repo, origin_machine, agent_route, candidate, at),
            );
        },
    };
    let normalized_repo = to_lower(repo);
    let normalized_head = to_lower(args.head.as_str());
    match validate_existing_handoff(
        &receipt,
        form,
        args,
        normalized_repo.as_str(),
        normalized_head.as_str(),
    ) {
        Ok(_) => {},
        Err(failure) => return Err(failure),
    }
    if args.transfer_agent_owner {
        return transfer_handoff_owner(receipt, args, origin_machine, agent_route, candidate);
    }
    let owner = match &agent_route {
        Some(route) => route.owner_id.as_str(),
        None => "fresh-agent-only",
    };
    if !str_eq(receipt.owner_id.as_str(), owner) {
        return Err(
            CliFailure::new(
                1,
                "this exact PR head already belongs to a different agent owner; explicit ownership transfer is required",
            ),
        );
    }
    if !same_routes(&receipt.agent_route, &agent_route) {
        return Err(
            CliFailure::new(
                1,
                "same-owner handoff route metadata changed; explicit ownership transfer is required",
            ),
        );
    }
    if !str_eq(receipt.workstream_id.as_str(), args.workstream_id.as_str()) || !opt_eq(
        &receipt.context_url,
        &args.context_url,
    ) {
        return Err(
            CliFailure::new(
                1,
                "same-owner handoff cannot change workstream identity or context URL",
            ),
        );
    }
    if !str_eq(receipt.origin_machine.as_str(), origin_machine) {
        return Err(
            CliFailure::new(
                1,
                "same-owner handoff origin machine changed; explicit ownership transfer is required",
            ),
        );
    }
    if !is_same_profile(&receipt, &candidate) {
        return Err(
            CliFailure::new(1, "same-owner handoff cannot change or omit its launch profile"),
        );
    }
    Ok(receipt)
}

/// The receipt that a handoff without a launch profile goes on with.
pub fn prepare_handoff_receipt(
    existing: Option<DurableStewardHandoff>,
    form: Option<&ProfileForm>,
    args: &StewardHandoffArgs,
    repo: &str,
    origin_machine: &str,
    agent_route: Option<AgentRouteReference>,
    at: &str,
) -> (r: Result<DurableStewardHandoff, CliFailure>)
    ensures
        shows_receipt(
            r,
            prepared(
                match existing {
                    Some(receipt) => Some(receipt@),
                    None => None,
                },
                form_of(form),
                *args,
                repo@,
                origin_machine@,
                route_view(agent_route),
                None,
                at@,
            ),
        ),
{
    prepare_handoff_receipt_with_profile(
        existing,
        form,
        args,
        repo,
        origin_machine,
        agent_route,
        None,
        at,
    )
}

/// A receipt as it is saved: its phase never goes back, and its revision goes up.
pub open spec fn persisted(
    receipt: ReceiptView,
    phase: HandoffPhase,
    at: Seq<char>,
) -> Result<ReceiptView, Seq<char>> {
    if receipt.revision == u64::MAX {
        Err("handoff receipt revision overflow"@)
    } else {
        Ok(
            ReceiptView {
                phase: receipt.phase.later(phase),
                revision: (receipt.revision + 1) as u64,
                updated_at: at,
                ..receipt
            },
        )
    }
}

/// A receipt as it is saved.
pub fn persist_handoff(receipt: DurableStewardHandoff, requested_phase: HandoffPhase, at: &str) -> (r:
    Result<DurableStewardHandoff, CliFailure>)
    ensures
        shows_receipt(r, persisted(receipt@, requested_phase, at@)),
{
    if receipt.revision == u64::MAX {
        return Err(CliFailure::new(1, "handoff receipt revision overflow"));
    }
    let mut receipt = receipt;
    receipt.phase = receipt.phase.max(requested_phase);
    receipt.revision = receipt.revision + 1;
    receipt.updated_at = at.to_owned();
    Ok(receipt)
}

/// A handoff of the same owner never changes a receipt.
pub proof fn same_owner_changes_nothing(
    existing: ReceiptView,
    form: Option<ProfileForm>,
    args: StewardHandoffArgs,
    repo: Seq<char>,
    origin: Seq<char>,
    route: Option<RouteView>,
    candidate: Option<LaunchProfileCandidate>,
    at: Seq<char>,
)
    requires
        !args.transfer_agent_owner,
    ensures
        prepared(Some(existing), form, args, repo, origin, route, candidate, at) matches Ok(next)
            ==> next == existing,
        existing.owner_id != owner_of(route) ==> prepared(
            Some(existing),
            form,
            args,
            repo,
            origin,
            route,
            candidate,
            at,
        ) is Err,
{
}

/// A replaced owner gets the next generation of the same work.
pub proof fn transfer_keeps_the_work(
    existing: ReceiptView,
    form: Option<ProfileForm>,
    args: StewardHandoffArgs,
    repo: Seq<char>,
    origin: Seq<char>,
    route: Option<RouteView>,
    candidate: Option<LaunchProfileCandidate>,
    at: Seq<char>,
)
    requires
        args.transfer_agent_owner,
    ensures
        prepared(Some(existing), form, args, repo, origin, route, candidate, at) matches Ok(next)
            ==> {
            &&& next.workstream_id == existing.workstream_id
            &&& next.context_url == existing.context_url
            &&& next.head_sha == existing.head_sha
            &&& next.phase == existing.phase
            &&& next.created_at == existing.created_at
            &&& next == existing || (next.ownership_generation == existing.ownership_generation + 1
                && existing.native_publication is None)
        },
{
}

/// Replacing an owner once more by the same one changes nothing.
pub proof fn transfer_is_idempotent(
    existing: ReceiptView,
    args: StewardHandoffArgs,
    origin: Seq<char>,
    route: Option<RouteView>,
    candidate: Option<LaunchProfileCandidate>,
)
    ensures
        transferred(existing, args, origin, route, candidate) matches Ok(next) ==> transferred(
            next,
            args,
            origin,
            route,
            None,
        ) == Ok::<ReceiptView, Seq<char>>(next),
{
}

/// Saving a receipt never takes its phase back.
pub proof fn phases_never_go_back(receipt: ReceiptView, phase: HandoffPhase, at: Seq<char>)
    ensures
        persisted(receipt, phase, at) matches Ok(next) ==> next.phase.spec_rank()
            >= receipt.phase.spec_rank() && next.phase.spec_rank() >= phase.spec_rank()
            && next.revision == receipt.revision + 1 && next.owner_id == receipt.owner_id
            && next.ownership_generation == receipt.ownership_generation,
{
}

/// A new receipt, once saved, is sound for the head it was made for, where its
/// profile is of the same repository and head.
pub proof fn saved_receipts_are_sound(
    args: StewardHandoffArgs,
    repo: Seq<char>,
    origin: Seq<char>,
    route: Option<RouteView>,
    candidate: Option<LaunchProfileCandidate>,
    form: Option<ProfileForm>,
    phase: HandoffPhase,
    at: Seq<char>,
)
    requires
        !args.transfer_agent_owner,
        prepared(None, None, args, repo, origin, route, candidate, at) is Ok,
        route matches Some(route) ==> route.origin_machine == origin,
        candidate matches Some(candidate) ==> (form matches Some(form) && {
            &&& profile_error(candidate.profile, form.absolute) is None
            &&& candidate.profile_digest@ == profile_digest(form.canonical@)
            &&& same_ignoring_case(candidate.profile.worktree.repository@, repo)
            &&& same_ignoring_case(candidate.profile.worktree.head_sha@, args.head@)
        }),
    ensures
        persisted(
            prepared(None, None, args, repo, origin, route, candidate, at)->Ok_0,
            phase,
            at,
        ) matches Ok(saved) && sound_receipt(saved, form, repo, args.pr, args.head@),
{
    crate::text::lower_is_idempotent(repo);
    crate::text::lower_is_idempotent(args.head@);
}

/// A profile is accepted for a worktree exactly where repository and head are the
/// handed-off ones, and the worktree is there, of that origin, at that head and active.
pub proof fn only_the_live_worktree_is_accepted(
    profile: LaunchProfileV1,
    evidence: WorktreeEvidence,
    repo: Seq<char>,
    head: Seq<char>,
)
    ensures
        evidence_error(profile, evidence, repo, head) is None <==> same_ignoring_case(
            profile.worktree.repository@,
            repo,
        ) && same_ignoring_case(profile.worktree.head_sha@, head) && evidence.available
            && evidence.active && same_ignoring_case(
            evidence.head_sha@,
            profile.worktree.head_sha@,
        ) && (opt_view(evidence.origin) matches Some(origin) && same_ignoring_case(
            origin,
            profile.worktree.repository@,
        )),
{
}

/// A profile with a session is bound to the route of exactly that session; one without a
/// session is accepted only where it recovers from a fresh checkpoint.
pub proof fn a_session_is_bound_to_its_route(profile: LaunchProfileV1, route: Option<RouteView>)
    ensures
        profile.session is None ==> (binding_error(profile, route) is None
            <==> profile.recovery_policy == RecoveryPolicyV1::FreshCheckpointOnly),
        profile.session is Some && route is None ==> binding_error(profile, route) is Some,
        profile.session matches Some(session) ==> (route matches Some(to) ==> (binding_error(
            profile,
            route,
        ) is None <==> session.agent_provider@ == to.provider && owner_identity(
            session.agent_provider@,
            session.provider_session_id@,
        ) == to.owner_id)),
{
}

/// Without an earlier receipt a handoff that is no transfer always begins one: with its
/// first generation, unpublished, for the route that it was given.
pub proof fn a_first_handoff_begins_a_receipt(
    args: StewardHandoffArgs,
    repo: Seq<char>,
    origin: Seq<char>,
    route: Option<RouteView>,
    candidate: Option<LaunchProfileCandidate>,
    at: Seq<char>,
)
    requires
        candidate matches Some(candidate) ==> binding_error(candidate.profile, route) is None,
    ensures
        args.transfer_agent_owner ==> prepared(None, None, args, repo, origin, route, candidate, at)
            is Err,
        !args.transfer_agent_owner ==> (prepared(
            None,
            None,
            args,
            repo,
            origin,
            route,
            candidate,
            at,
        ) matches Ok(first) && {
            &&& first.ownership_generation == 1
            &&& first.phase == HandoffPhase::Intent
            &&& first.native_publication is None && !first.wake_consumer_available
            &&& first.agent_route == route && first.origin_machine == origin
            &&& first.pr == args.pr && first.workstream_id == args.workstream_id@
            &&& first.repair_route == RepairRoute::OriginalAgent <==> route is Some
            &&& first.launch_profile is Some <==> candidate is Some
            &&& route matches Some(to) ==> first.owner_id == to.owner_id
        }),
{
}

/// A handoff that repeats what a sound receipt says is accepted and leaves it as it is.
pub proof fn a_repeated_handoff_is_accepted(
    existing: ReceiptView,
    form: Option<ProfileForm>,
    args: StewardHandoffArgs,
    repo: Seq<char>,
    route: Option<RouteView>,
    at: Seq<char>,
)
    requires
        !args.transfer_agent_owner,
        receipt_error(existing, form, lower(repo), args.pr, lower(args.head@)) is None,
        existing.owner_id == owner_of(route),
        existing.agent_route == route,
        existing.workstream_id == args.workstream_id@,
        existing.context_url == opt_view(args.context_url),
    ensures
        prepared(Some(existing), form, args, repo, existing.origin_machine, route, None, at) == Ok::<
            ReceiptView,
            Seq<char>,
        >(existing),
{
}

/// A transfer to another route is granted for an unpublished receipt of the same work
/// whose counters have room, with a replacement for any profile that it holds; the new
/// route then owns it in a new generation.
pub proof fn an_unpublished_receipt_changes_hands(
    existing: ReceiptView,
    args: StewardHandoffArgs,
    origin: Seq<char>,
    route: RouteView,
    candidate: Option<LaunchProfileCandidate>,
)
    requires
        existing.workstream_id == args.workstream_id@,
        existing.context_url == opt_view(args.context_url),
        existing.agent_route != Some(route),
    ensures
        existing.native_publication is Some ==> transferred(
            existing,
            args,
            origin,
            Some(route),
            candidate,
        ) is Err,
        existing.native_publication is None && existing.ownership_generation < u64::MAX && (
        existing.launch_profile matches Some(stored) ==> candidate is Some && stored.revision
            < u64::MAX) ==> (transferred(existing, args, origin, Some(route), candidate)
            matches Ok(next) && {
            &&& next.owner_id == route.owner_id
            &&& next.agent_route == Some(route)
            &&& next.origin_machine == origin
            &&& next.repair_route == RepairRoute::OriginalAgent
            &&& next.ownership_generation == existing.ownership_generation + 1
            &&& next.launch_profile is Some <==> candidate is Some
            &&& next.launch_profile matches Some(stored) ==> stored.generation
                == next.ownership_generation && stored.revision > 0
        }),
        transferred(existing, args, origin, None, candidate) is Err,
{
}

/// A receipt is saved in the later of its own phase and the requested one, until its
/// revisions are used up.
pub proof fn saving_takes_the_later_phase(receipt: ReceiptView, phase: HandoffPhase, at: Seq<char>)
    ensures
        persisted(receipt, phase, at) is Ok <==> receipt.revision < u64::MAX,
        persisted(receipt, phase, at) matches Ok(next) ==> next.updated_at == at && next.created_at
            == receipt.created_at && (next.phase == phase || next.phase == receipt.phase) && (
        phase == HandoffPhase::Managed ==> next.phase == HandoffPhase::Managed) && (phase
            == HandoffPhase::Ready && receipt.phase == HandoffPhase::Intent ==> next.phase
            == HandoffPhase::Ready) && next == (ReceiptView {
            phase: next.phase,
            revision: next.revision,
            updated_at: at,
            ..receipt
        }),
{
}

/// A receipt that is not of the exact repository, pull request and head is refused, and so
/// is one whose owner or wake-up does not agree with its route or publication.
pub proof fn a_foreign_receipt_is_refused(
    receipt: ReceiptView,
    form: Option<ProfileForm>,
    repo: Seq<char>,
    pr: u64,
    head: Seq<char>,
)
    requires
        receipt_error(receipt, form, repo, pr, head) is None,
    ensures
        receipt.pr == pr,
        same_ignoring_case(receipt.repo, repo),
        same_ignoring_case(receipt.head_sha, head),
        receipt.ownership_generation > 0 && receipt.revision > 0,
        receipt.agent_route matches Some(route) ==> receipt.owner_id == route.owner_id
            && receipt.origin_machine == route.origin_machine && receipt.repair_route
            == RepairRoute::OriginalAgent,
        receipt.agent_route is None ==> receipt.repair_route == RepairRoute::FreshAgentOnly,
        receipt.wake_consumer_available <==> (receipt.native_publication matches Some(publication)
            && publication.state == NativePublicationStateV1::Accepted),
        receipt.launch_profile matches Some(stored) ==> stored.generation
            == receipt.ownership_generation,
{
}

} // verus!
