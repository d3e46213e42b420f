//! The health lease of a self-managed runner pool.
//!
//! A lease is renewed only while unreserved idle capacity for a whole admission
//! burst is visible. Any unhealthy or unreadable observation clears it.
use vstd::prelude::*;

use crate::guard::ends_with_its_end;
use crate::json::{
    json_list_of, members_of, object, optional_text, parse_json_list, text_array, text_or_null, trees, Json,
    JsonTree,
};
use crate::model::{fails, CliFailure};
use crate::numbers::{add_number, increasing};
use crate::outside::{
    format_rfc3339, number_error, parse_number, rfc3339_text, Instant, LAST_SECOND,
};
use crate::text::{
    concat, concat3, contains, decimal, eq_ignore_case, has_infix, has_prefix, has_suffix,
    lines_of, lower, nonblank_lines, number_of, opt_is, opt_view, result_view, same_ignoring_case,
    starts_with, str_eq, to_decimal, to_lower, trim, trimmed, views,
};
use crate::text_map::TextMap;

verus! {

/// The time that one observation of the fleet may take, in milliseconds.
pub const FLEET_OBSERVATION_TIMEOUT: u64 = 20_000;

/// The time that one change of the lease may take, in milliseconds.
pub const LEASE_MUTATION_TIMEOUT: u64 = 10_000;

/// The time until which reads may be made, in milliseconds of a steady clock.
#[derive(Clone, Copy, Debug, PartialEq, Eq, Structural)]
pub struct ObservationBudget {
    pub deadline: u64,
}

impl ObservationBudget {
    /// A budget that starts now.
    pub fn new(now: u64, timeout: u64) -> (r: Self)
        requires
            now + timeout <= u64::MAX,
        ensures
            r.deadline == now + timeout,
    {
        ObservationBudget { deadline: now + timeout }
    }

    /// The time that the next read may take; none is left at the deadline.
    pub fn run_gh(&self, now: u64) -> (r: Result<u64, String>)
        ensures
            result_view(r) == if now < self.deadline {
                Ok::<u64, Seq<char>>((self.deadline - now) as u64)
            } else {
                Err("fleet observation exhausted its total time budget"@)
            },
    {
        if now < self.deadline {
            Ok(self.deadline - now)
        } else {
            Err("fleet observation exhausted its total time budget".to_owned())
        }
    }
}

/// A label as the provider lists it.
#[derive(Clone, Debug, PartialEq, Eq)]
pub struct ApiLabel {
    pub name: String,
}

/// A registered runner.
#[derive(Clone, Debug, PartialEq, Eq)]
pub struct LeaseRunner {
    pub name: String,
    pub status: String,
    pub busy: bool,
    pub labels: Vec<ApiLabel>,
}

/// A job that waits for a runner.
#[derive(Clone, Debug, PartialEq, Eq)]
pub struct LeaseJob {
    pub status: String,
    pub labels: Vec<String>,
}

/// What was seen of the fleet.
#[derive(Debug)]
pub struct FleetObservation {
    pub runners: Vec<LeaseRunner>,
    pub queued_matching_jobs: usize,
    pub observed_admission_burst: usize,
}

/// What the fleet must be able to admit at once.
#[derive(Clone, Copy, Debug, PartialEq, Eq, Structural)]
pub struct AdmissionPolicy {
    pub declared_burst: usize,
    pub live_burst: usize,
    pub min_idle: usize,
    pub ttl_seconds: u64,
}

/// What is done with the lease.
#[derive(Clone, Copy, Debug, PartialEq, Eq, Structural)]
pub enum LeaseAction {
    Renew,
    Clear,
}

impl LeaseAction {
    /// The action's name.
    pub open spec fn name(self) -> Seq<char> {
        match self {
            LeaseAction::Renew => "renew"@,
            LeaseAction::Clear => "clear"@,
        }
    }

    /// The action's name.
    pub fn as_str(self) -> (r: &'static str)
        ensures
            r@ == self.name(),
    {
        match self {
            LeaseAction::Renew => "renew",
            LeaseAction::Clear => "clear",
        }
    }
}

/// A decision about the lease, with the numbers it rests on.
#[derive(Clone, Debug, PartialEq, Eq)]
pub struct LeaseDecision {
    pub action: LeaseAction,
    pub observed_at: Instant,
    pub expires_at: Option<Instant>,
    pub matching: usize,
    pub online: usize,
    pub idle: usize,
    pub queued: usize,
    pub available: usize,
    pub reason: String,
}

/// Whether a label occurs among a runner's labels, in any letter case.
pub open spec fn carries(labels: Seq<ApiLabel>, label: Seq<char>) -> bool {
    exists|i: int| 0 <= i < labels.len() && same_ignoring_case((#[trigger] labels[i]).name@, label)
}

impl LeaseRunner {
    /// The names of the runner's labels, in lower case.
    pub fn label_names(&self) -> (r: TextMap<()>)
        ensures
            forall|name: Seq<char>| #[trigger]
                r@.dom().contains(name) <==> exists|i: int|
                    0 <= i < self.labels@.len() && lower((#[trigger] self.labels@[i]).name@) == name,
    {
        let mut out: TextMap<()> = TextMap::new();
        let mut i: usize = 0;
        while i < self.labels.len()
            invariant
                i <= self.labels.len(),
                forall|name: Seq<char>| #[trigger]
                    out@.dom().contains(name) <==> exists|k: int|
                        0 <= k < i && lower((#[trigger] self.labels@[k]).name@) == name,
            decreases self.labels.len() - i,
        {
            let ghost before = out@;
            let lowered = to_lower(self.labels[i].name.as_str());
            let ghost text = lowered@;
            out.insert(lowered, ());
            proof {
                assert forall|name: Seq<char>| #[trigger]
                    out@.dom().contains(name) <==> exists|k: int|
                        0 <= k < i + 1 && lower((#[trigger] self.labels@[k]).name@) == name by {
                    if out@.dom().contains(name) && name == text {
                        assert(lower(self.labels@[i as int].name@) == name);
                    }
                    if before.dom().contains(name) {
                        let k = choose|k: int|
                            0 <= k < i && lower((#[trigger] self.labels@[k]).name@) == name;
                        assert(0 <= k < i + 1 && lower(self.labels@[k].name@) == name);
                    }
                }
            }
            i = i + 1;
        }
        out
    }
}

/// Whether the scheduler may give a runner a job that asks for these labels.
pub open spec fn eligible(runner: LeaseRunner, required: Seq<String>) -> bool {
    forall|i: int| 0 <= i < required.len() ==> carries(runner.labels@, (#[trigger] required[i])@)
}

fn is_eligible(runner: &LeaseRunner, required: &Vec<String>) -> (r: bool)
    ensures
        r == eligible(*runner, required@),
{
    let names = runner.label_names();
    let mut i: usize = 0;
    while i < required.len()
        invariant
            i <= required.len(),
            forall|name: Seq<char>| #[trigger]
                names@.dom().contains(name) <==> exists|k: int|
                    0 <= k < runner.labels@.len() && lower((#[trigger] runner.labels@[k]).name@)
                        == name,
            forall|k: int| 0 <= k < i ==> carries(runner.labels@, (#[trigger] required@[k])@),
        decreases required.len() - i,
    {
        let wanted = to_lower(required[i].as_str());
        proof {
            assert(names@.dom().contains(wanted@) <==> carries(
                runner.labels@,
                required@[i as int]@,
            ));
        }
        if !names.contains_key(wanted.as_str()) {
            return false;
        }
        i = i + 1;
    }
    true
}

fn has_capability(runner: &LeaseRunner, capability: &str) -> (r: bool)
    ensures
        r == carries(runner.labels@, capability@),
{
    let names = runner.label_names();
    let wanted = to_lower(capability);
    names.contains_key(wanted.as_str())
}

/// Whether an eligible runner must not be in the pool.
pub open spec fn contaminates(
    runner: LeaseRunner,
    required: Seq<String>,
    prefix: Seq<char>,
    forbidden: Seq<char>,
) -> bool {
    eligible(runner, required) && (!has_prefix(runner.name@, prefix) || carries(
        runner.labels@,
        forbidden,
    ))
}

/// Whether a runner belongs to the pool.
pub open spec fn belongs(runner: LeaseRunner, required: Seq<String>, prefix: Seq<char>) -> bool {
    eligible(runner, required) && has_prefix(runner.name@, prefix)
}

/// Whether a runner of the pool is online.
pub open spec fn is_online(runner: LeaseRunner, required: Seq<String>, prefix: Seq<char>) -> bool {
    belongs(runner, required, prefix) && same_ignoring_case(runner.status@, "online"@)
}

/// Whether a runner of the pool is online and has no job.
pub open spec fn is_idle(runner: LeaseRunner, required: Seq<String>, prefix: Seq<char>) -> bool {
    is_online(runner, required, prefix) && !runner.busy
}

/// How many elements of a sequence satisfy a predicate.
pub open spec fn count<T>(s: Seq<T>, p: spec_fn(T) -> bool) -> nat {
    s.filter(p).len()
}

/// The numbers that a decision rests on.
pub struct FleetCount {
    pub contaminated: nat,
    pub matching: nat,
    pub online: nat,
    pub idle: nat,
}

/// Counts the runners of a fleet.
pub open spec fn fleet_count(
    runners: Seq<LeaseRunner>,
    required: Seq<String>,
    prefix: Seq<char>,
    forbidden: Seq<char>,
) -> FleetCount {
    FleetCount {
        contaminated: count(
            runners,
            |r: LeaseRunner| contaminates(r, required, prefix, forbidden),
        ),
        matching: count(runners, |r: LeaseRunner| belongs(r, required, prefix)),
        online: count(runners, |r: LeaseRunner| is_online(r, required, prefix)),
        idle: count(runners, |r: LeaseRunner| is_idle(r, required, prefix)),
    }
}

/// The idle runners that no queued job has claimed.
pub open spec fn unreserved(idle: nat, queued: nat) -> nat {
    if idle >= queued {
        (idle - queued) as nat
    } else {
        0
    }
}

/// The capacity that a renewal needs.
pub open spec fn needed(policy: AdmissionPolicy) -> nat {
    if policy.declared_burst >= policy.min_idle {
        policy.declared_burst as nat
    } else {
        policy.min_idle as nat
    }
}

/// Whether the lease is renewed: no runner is out of place, the declared burst
/// covers the live one, and the needed capacity is idle and unreserved.
pub open spec fn renewable(fleet: FleetCount, queued: nat, policy: AdmissionPolicy) -> bool {
    &&& fleet.contaminated == 0
    &&& policy.declared_burst >= policy.live_burst
    &&& unreserved(fleet.idle, queued) >= needed(policy)
}

/// Why a decision was taken.
pub open spec fn lease_reason(
    fleet: FleetCount,
    queued: nat,
    policy: AdmissionPolicy,
    prefix: Seq<char>,
    forbidden: Seq<char>,
) -> Seq<char> {
    let declared = decimal(policy.declared_burst as nat);
    let live = decimal(policy.live_burst as nat);
    if fleet.contaminated > 0 {
        "scheduler_eligible_runner_outside_approved_namespace: contaminated="@ + decimal(
            fleet.contaminated,
        ) + " prefix="@ + prefix + " forbidden_capability="@ + lower(forbidden)
    } else if policy.declared_burst < policy.live_burst {
        "profile_admission_burst_below_live_merge_queue: declared="@ + declared + " live="@ + live
    } else if unreserved(fleet.idle, queued) >= needed(policy) {
        "healthy_for_admission_burst: declared="@ + declared + " live="@ + live
    } else {
        "insufficient_unreserved_idle_capacity_for_admission_burst: required="@ + decimal(
            needed(policy),
        ) + " live="@ + live + " idle="@ + decimal(fleet.idle) + " queued="@ + decimal(queued)
            + " available="@ + decimal(unreserved(fleet.idle, queued))
    }
}

proof fn counted_at<T>(s: Seq<T>, p: spec_fn(T) -> bool, i: int)
    requires
        0 <= i < s.len(),
        p(s[i]),
    ensures
        count(s, p) > 0,
    decreases s.len(),
{
    reveal(Seq::filter);
    if i < s.len() - 1 {
        assert(s.drop_last()[i] == s[i]);
        counted_at(s.drop_last(), p, i);
    }
}

proof fn narrower_counts_less<T>(s: Seq<T>, p: spec_fn(T) -> bool, q: spec_fn(T) -> bool)
    requires
        forall|x: T| #[trigger] p(x) ==> q(x),
    ensures
        count(s, p) <= count(s, q) <= s.len(),
    decreases s.len(),
{
    reveal(Seq::filter);
    if s.len() > 0 {
        narrower_counts_less(s.drop_last(), p, q);
    }
}

/// A renewed lease has room: beside the runners that queued jobs will take, a
/// runner is idle for each entry that the merge queue may build at once.
pub proof fn renewal_has_room(fleet: FleetCount, queued: nat, policy: AdmissionPolicy)
    requires
        renewable(fleet, queued, policy),
    ensures
        policy.live_burst > 0 ==> fleet.idle >= queued + policy.live_burst,
        policy.min_idle > 0 ==> fleet.idle >= queued + policy.min_idle,
{
}

/// More queued jobs, or a merge queue that builds more at once, never turn a lease
/// that is cleared into one that is renewed.
pub proof fn demand_never_renews(
    fleet: FleetCount,
    queued: nat,
    more: nat,
    policy: AdmissionPolicy,
    busier: AdmissionPolicy,
)
    requires
        queued <= more,
        policy.live_burst <= busier.live_burst,
        busier == (AdmissionPolicy { live_burst: busier.live_burst, ..policy }),
        renewable(fleet, more, busier),
    ensures
        renewable(fleet, queued, policy),
{
}

/// One runner that jobs of the pool could reach and that must not be there clears
/// the lease, whatever the rest of the fleet looks like.
pub proof fn contaminated_fleet_is_never_leased(
    runners: Seq<LeaseRunner>,
    required: Seq<String>,
    prefix: Seq<char>,
    forbidden: Seq<char>,
    queued: nat,
    policy: AdmissionPolicy,
    i: int,
)
    requires
        0 <= i < runners.len(),
        contaminates(runners[i], required, prefix, forbidden),
    ensures
        !renewable(fleet_count(runners, required, prefix, forbidden), queued, policy),
{
    counted_at(runners, |r: LeaseRunner| contaminates(r, required, prefix, forbidden), i);
}

/// Idle runners are online, online runners match, and what matches was listed.
pub proof fn fleet_counts_are_nested(
    runners: Seq<LeaseRunner>,
    required: Seq<String>,
    prefix: Seq<char>,
    forbidden: Seq<char>,
)
    ensures
        ({
            let fleet = fleet_count(runners, required, prefix, forbidden);
            fleet.idle <= fleet.online <= fleet.matching <= runners.len()
        }),
{
    let idle = |r: LeaseRunner| is_idle(r, required, prefix);
    let online = |r: LeaseRunner| is_online(r, required, prefix);
    let matching = |r: LeaseRunner| belongs(r, required, prefix);
    narrower_counts_less(runners, idle, online);
    narrower_counts_less(runners, online, matching);
}

/// The runners of a pool that must not be there, that belong to it, that are online
/// and that are idle.
#[verifier::loop_isolation(false)]
fn count_fleet(
    runners: &Vec<LeaseRunner>,
    name_prefix: &str,
    required_labels: &Vec<String>,
    forbidden_capability: &str,
) -> (r: (usize, usize, usize, usize))
    ensures
        (FleetCount {
            contaminated: r.0 as nat,
            matching: r.1 as nat,
            online: r.2 as nat,
            idle: r.3 as nat,
        }) == fleet_count(runners@, required_labels@, name_prefix@, forbidden_capability@),
{
    let ghost all = runners@;
    let ghost bad = |r: LeaseRunner|
        contaminates(r, required_labels@, name_prefix@, forbidden_capability@);
    let ghost member = |r: LeaseRunner| belongs(r, required_labels@, name_prefix@);
    let ghost up = |r: LeaseRunner| is_online(r, required_labels@, name_prefix@);
    let ghost free = |r: LeaseRunner| is_idle(r, required_labels@, name_prefix@);
    let mut contaminated: usize = 0;
    let mut matching: usize = 0;
    let mut online: usize = 0;
    let mut idle: usize = 0;
    let mut i: usize = 0;
    while i < runners.len()
        invariant
            i <= runners.len(),
            contaminated <= i,
            matching <= i,
            online <= i,
            idle <= i,
            contaminated == count(all.take(i as int), bad),
            matching == count(all.take(i as int), member),
            online == count(all.take(i as int), up),
            idle == count(all.take(i as int), free),
        decreases runners.len() - i,
    {
        proof {
            reveal(Seq::filter);
            assert(all.take(i + 1).drop_last() =~= all.take(i as int));
            assert(all.take(i + 1).last() == all[i as int]);
        }
        let runner = &runners[i];
        if is_eligible(runner, required_labels) {
            let named = starts_with(runner.name.as_str(), name_prefix);
            if !named || has_capability(runner, forbidden_capability) {
                contaminated = contaminated + 1;
            }
            if named {
                matching = matching + 1;
                if eq_ignore_case(runner.status.as_str(), "online") {
                    online = online + 1;
                    if !runner.busy {
                        idle = idle + 1;
                    }
                }
            }
        }
        i = i + 1;
    }
    proof {
        assert(all.take(all.len() as int) =~= all);
    }
    (contaminated, matching, online, idle)
}

/// Whether the lease is renewed.
pub fn lease_is_renewable(
    runners: &Vec<LeaseRunner>,
    name_prefix: &str,
    required_labels: &Vec<String>,
    forbidden_capability: &str,
    queued: usize,
    policy: AdmissionPolicy,
) -> (r: bool)
    ensures
        r == renewable(
            fleet_count(runners@, required_labels@, name_prefix@, forbidden_capability@),
            queued as nat,
            policy,
        ),
{
    let (contaminated, _, _, idle) = count_fleet(
        runners,
        name_prefix,
        required_labels,
        forbidden_capability,
    );
    let available: usize = if idle >= queued {
        idle - queued
    } else {
        0
    };
    contaminated == 0 && policy.declared_burst >= policy.live_burst && available
        >= policy.declared_burst && available >= policy.min_idle
}

/// Decides whether the lease is renewed or cleared. One that is renewed must end
/// before the calendar does.
pub fn decide_lease(
    runners: &Vec<LeaseRunner>,
    name_prefix: &str,
    required_labels: &Vec<String>,
    forbidden_capability: &str,
    queued: usize,
    policy: AdmissionPolicy,
    observed_at: Instant,
) -> (r: LeaseDecision)
    requires
        renewable(
            fleet_count(runners@, required_labels@, name_prefix@, forbidden_capability@),
            queued as nat,
            policy,
        ) ==> observed_at.seconds + policy.ttl_seconds <= LAST_SECOND,
    ensures
        ({
            let fleet = fleet_count(
                runners@,
                required_labels@,
                name_prefix@,
                forbidden_capability@,
            );
            &&& r.observed_at == observed_at
            &&& r.matching == fleet.matching
            &&& r.online == fleet.online
            &&& r.idle == fleet.idle
            &&& r.queued == queued
            &&& r.available == unreserved(fleet.idle, queued as nat)
            &&& r.reason@ == lease_reason(
                fleet,
                queued as nat,
                policy,
                name_prefix@,
                forbidden_capability@,
            )
            &&& if renewable(fleet, queued as nat, policy) {
                r.action == LeaseAction::Renew && r.expires_at == Some(
                    observed_at.later(policy.ttl_seconds),
                )
            } else {
                r.action == LeaseAction::Clear && r.expires_at is None
            }
            &&& r.action == LeaseAction::Renew <==> fleet.contaminated == 0 && policy.live_burst
                <= policy.declared_burst <= r.available && policy.min_idle <= r.available
            &&& r.expires_at matches Some(end) ==> r.action == LeaseAction::Renew && end.seconds
                == observed_at.seconds + policy.ttl_seconds
        }),
{
    let (contaminated, matching, online, idle) = count_fleet(
        runners,
        name_prefix,
        required_labels,
        forbidden_capability,
    );
    let available: usize = if idle >= queued {
        idle - queued
    } else {
        0
    };
    let required_available: usize = if policy.declared_burst >= policy.min_idle {
        policy.declared_burst
    } else {
        policy.min_idle
    };
    let declared = to_decimal(policy.declared_burst as u64);
    let live = to_decimal(policy.live_burst as u64);
    let renew = contaminated == 0 && policy.declared_burst >= policy.live_burst && available
        >= required_available;
    let mut reason: String = String::new();
    if contaminated > 0 {
        reason = concat3(
            "scheduler_eligible_runner_outside_approved_namespace: contaminated=",
            to_decimal(contaminated as u64).as_str(),
            " prefix=",
        );
        reason.append(name_prefix);
        reason.append(" forbidden_capability=");
        reason.append(to_lower(forbidden_capability).as_str());
    } else if policy.declared_burst < policy.live_burst {
        reason = concat3(
            "profile_admission_burst_below_live_merge_queue: declared=",
            declared.as_str(),
            " live=",
        );
        reason.append(live.as_str());
    } else if renew {
        reason = concat3("healthy_for_admission_burst: declared=", declared.as_str(), " live=");
        reason.append(live.as_str());
    } else {
        reason = concat3(
            "insufficient_unreserved_idle_capacity_for_admission_burst: required=",
            to_decimal(required_available as u64).as_str(),
            " live=",
        );
        reason.append(live.as_str());
        reason.append(" idle=");
        reason.append(to_decimal(idle as u64).as_str());
        reason.append(" queued=");
        reason.append(to_decimal(queued as u64).as_str());
        reason.append(" available=");
        reason.append(to_decimal(available as u64).as_str());
    }
    LeaseDecision {
        action: if renew {
            LeaseAction::Renew
        } else {
            LeaseAction::Clear
        },
        observed_at,
        expires_at: if renew {
            Some(observed_at.plus_seconds(policy.ttl_seconds))
        } else {
            None
        },
        matching,
        online,
        idle,
        queued,
        available,
        reason,
    }
}

/// The decision about a fleet that could not be observed: the lease is cleared.
pub fn unreadable_decision(error: &str, observed_at: Instant) -> (r: LeaseDecision)
    ensures
        r.action == LeaseAction::Clear,
        r.observed_at == observed_at,
        r.expires_at is None,
        r.matching == 0 && r.online == 0 && r.idle == 0 && r.queued == 0 && r.available == 0,
        r.reason@ == "fleet_unreadable: "@ + error@,
{
    LeaseDecision {
        action: LeaseAction::Clear,
        observed_at,
        expires_at: None,
        matching: 0,
        online: 0,
        idle: 0,
        queued: 0,
        available: 0,
        reason: concat("fleet_unreadable: ", error),
    }
}

/// What a tick reports of its mutation. A watching command carries on after a
/// failure; a single tick fails with it.
pub fn mutation_for_tick(result: Result<String, CliFailure>, watch: bool) -> (r: Result<
    (String, bool),
    CliFailure,
>)
    ensures
        match result {
            Ok(mutation) => r == Ok::<(String, bool), CliFailure>((mutation, false)),
            Err(error) => if watch {
                r matches Ok((text, failed)) && failed && text@ == "failed: "@ + error.message@
            } else {
                r == Err::<(String, bool), CliFailure>(error)
            },
        },
        r matches Ok(told) ==> (told.1 <==> result is Err),
        r is Err <==> result is Err && !watch,
{
    match result {
        Ok(mutation) => Ok((mutation, false)),
        Err(error) => if watch {
            Ok((concat("failed: ", error.message.as_str()), true))
        } else {
            Err(error)
        },
    }
}

/// Whether the live burst is the merge queue's own: merge groups are the only
/// event that the lane serves.
pub open spec fn serves_merge_groups_only(events: Seq<String>) -> bool {
    events.len() == 1 && events[0]@ == "merge_group"@
}

/// Whether the live burst has to be read from the branch's rules.
pub fn reads_merge_queue(events: &Vec<String>) -> (r: bool)
    ensures
        r == serves_merge_groups_only(events@),
{
    events.len() == 1 && str_eq(events[0].as_str(), "merge_group")
}

/// Puts an observation of the fleet together from its reads, which are made in
/// the order of the parameters; the first failed one is the error. The branch's
/// rules count only where merge groups are the only event; elsewhere the
/// declared burst stands for the live one.
pub fn observe_fleet_with_timeout(
    queued: Result<usize, String>,
    events: &Vec<String>,
    concurrency: Result<usize, String>,
    declared_burst: usize,
    runners: Result<Vec<LeaseRunner>, String>,
) -> (r: Result<FleetObservation, String>)
    ensures
        match (queued, runners) {
            (Err(error), _) => r == Err::<FleetObservation, String>(error),
            (Ok(q), _) => {
                let live = if serves_merge_groups_only(events@) {
                    concurrency
                } else {
                    Ok(declared_burst)
                };
                match (live, runners) {
                    (Err(error), _) => r == Err::<FleetObservation, String>(error),
                    (Ok(_), Err(error)) => r == Err::<FleetObservation, String>(error),
                    (Ok(burst), Ok(found)) => r == Ok::<FleetObservation, String>(
                        FleetObservation {
                            runners: found,
                            queued_matching_jobs: q,
                            observed_admission_burst: burst,
                        },
                    ),
                }
            },
        },
        r is Ok <==> queued is Ok && runners is Ok && (serves_merge_groups_only(events@)
            ==> concurrency is Ok),
        r matches Ok(seen) ==> queued == Ok::<usize, String>(seen.queued_matching_jobs) && runners
            == Ok::<Vec<LeaseRunner>, String>(seen.runners) && (if events@.len() == 1 && events@[0]@
            == "merge_group"@ {
            concurrency == Ok::<usize, String>(seen.observed_admission_burst)
        } else {
            seen.observed_admission_burst == declared_burst
        }),
{
    let queued_matching_jobs: usize = match queued {
        Ok(n) => n,
        Err(error) => return Err(error),
    };
    let observed_admission_burst: usize = if reads_merge_queue(events) {
        match concurrency {
            Ok(n) => n,
            Err(error) => return Err(error),
        }
    } else {
        declared_burst
    };
    match runners {
        Ok(runners) => Ok(
            FleetObservation { runners, queued_matching_jobs, observed_admission_burst },
        ),
        Err(error) => Err(error),
    }
}

/// The fleet's observation within the usual time.
pub fn observe_fleet(now: u64) -> (r: ObservationBudget)
    requires
        now + FLEET_OBSERVATION_TIMEOUT <= u64::MAX,
    ensures
        r.deadline == now + FLEET_OBSERVATION_TIMEOUT,
{
    ObservationBudget::new(now, FLEET_OBSERVATION_TIMEOUT)
}

/// The arguments of the read of a branch's rules, all pages of it.
pub fn merge_queue_rules_args(repo: &str, branch: &str) -> (r: Vec<String>)
    ensures
        views(r@) == seq![
            "api"@,
            "--paginate"@,
            "--slurp"@,
            "repos/"@ + repo@ + "/rules/branches/"@ + branch@ + "?per_page=100"@,
        ],
{
    let mut path: String = concat3("repos/", repo, "/rules/branches/");
    path.append(branch);
    path.append("?per_page=100");
    let ghost text = path@;
    let r = vec!["api".to_owned(), "--paginate".to_owned(), "--slurp".to_owned(), path];
    proof {
        assert(views(r@) =~= seq!["api"@, "--paginate"@, "--slurp"@, text]);
    }
    r
}

/// The number of entries that a rule lets the merge queue build at once, where
/// it is a merge-queue rule with a positive number.
pub open spec fn rule_burst(rule: JsonTree) -> Option<u64> {
    if rule.text_at("type"@) == Some("merge_queue"@) {
        match rule.field("parameters"@) {
            Some(parameters) => match parameters.number_at("max_entries_to_build"@) {
                Some(n) => if 0 < n && n <= usize::MAX {
                    Some(n)
                } else {
                    None
                },
                None => None,
            },
            None => None,
        }
    } else {
        None
    }
}

fn burst_of_rule(rule: &Json) -> (r: Option<usize>)
    ensures
        match rule_burst(rule@) {
            Some(n) => r == Some(n as usize) && n <= usize::MAX,
            None => r is None,
        },
{
    if !opt_is(rule.text_field("type"), "merge_queue") {
        return None;
    }
    match rule.get("parameters") {
        Some(parameters) => match parameters.u64_field("max_entries_to_build") {
            Some(n) => if 0 < n && n <= usize::MAX as u64 {
                Some(n as usize)
            } else {
                None
            },
            None => None,
        },
        None => None,
    }
}

/// The first page that is not a list, or the number of pages.
pub open spec fn first_bad_page(pages: Seq<JsonTree>) -> int
    decreases pages.len(),
{
    if pages.len() == 0 || pages[0].items() is None {
        0
    } else {
        1 + first_bad_page(pages.drop_first())
    }
}

/// Whether some rule of some page allows this many entries.
pub open spec fn allows(pages: Seq<JsonTree>, n: nat) -> bool {
    exists|p: int, i: int|
        0 <= p < pages.len() && 0 <= i < (#[trigger] pages[p])->Array_0.len() && pages[p] is Array
            && #[trigger] rule_burst(pages[p]->Array_0[i]) == Some(n as u64) && n <= u64::MAX
}

/// Whether a number is the largest that any rule allows.
pub open spec fn largest_burst(pages: Seq<JsonTree>, n: nat) -> bool {
    allows(pages, n) && forall|m: nat| #[trigger] allows(pages, m) ==> m <= n
}

fn page_burst(rules: &Vec<Json>, page: Ghost<JsonTree>) -> (r: Option<usize>)
    requires
        page@ == JsonTree::Array(trees(rules@)),
    ensures
        match r {
            Some(n) => largest_burst(seq![page@], n as nat),
            None => forall|m: nat| !allows(seq![page@], m),
        },
{
    let ghost pages = seq![page@];
    let mut best: Option<usize> = None;
    let mut i: usize = 0;
    while i < rules.len()
        invariant
            i <= rules.len(),
            pages == seq![page@],
            page@ == JsonTree::Array(trees(rules@)),
            match best {
                Some(n) => exists|k: int|
                    0 <= k < i && #[trigger] rule_burst(trees(rules@)[k]) == Some(n as u64),
                None => true,
            },
            forall|k: int|
                0 <= k < i ==> match #[trigger] rule_burst(trees(rules@)[k]) {
                    Some(m) => best is Some && m <= best->0,
                    None => true,
                },
        decreases rules.len() - i,
    {
        let ghost before = best;
        proof {
            assert(trees(rules@)[i as int] == rules@[i as int]@);
        }
        if let Some(n) = burst_of_rule(&rules[i]) {
            best = match best {
                Some(b) => if b >= n {
                    Some(b)
                } else {
                    Some(n)
                },
                None => Some(n),
            };
            proof {
                if best == Some(n) {
                    assert(rule_burst(trees(rules@)[i as int]) == Some(n as u64));
                }
            }
        }
        i = i + 1;
    }
    proof {
        assert forall|m: nat| #[trigger] allows(pages, m) implies best is Some && m <= best->0 by {
            let (p, k) = choose|p: int, k: int|
                0 <= p < pages.len() && 0 <= k < (#[trigger] pages[p])->Array_0.len()
                    && pages[p] is Array && #[trigger] rule_burst(pages[p]->Array_0[k]) == Some(
                    m as u64,
                ) && m <= u64::MAX;
            assert(rule_burst(trees(rules@)[k]) == Some(m as u64));
        }
        if let Some(n) = best {
            let k = choose|k: int|
                0 <= k < rules@.len() && #[trigger] rule_burst(trees(rules@)[k]) == Some(n as u64);
            assert(pages[0] is Array && rule_burst(pages[0]->Array_0[k]) == Some(n as u64));
            assert(allows(pages, n as nat));
        }
    }
    best
}

/// The largest number of entries that the rules of a branch let the merge queue
/// build at once. Every page must be a list, and some rule must allow at least
/// one entry.
pub open spec fn concurrency_read(
    pages: Seq<JsonTree>,
    branch: Seq<char>,
    r: Result<usize, Seq<char>>,
) -> bool {
    let bad = first_bad_page(pages);
    if bad < pages.len() {
        r == Err::<usize, Seq<char>>(
            "branch rules page "@ + decimal((bad + 1) as nat) + " is not a JSON array"@,
        )
    } else {
        match r {
            Ok(n) => largest_burst(pages, n as nat),
            Err(e) => (forall|m: nat| !allows(pages, m)) && e
                == "no positive merge_queue max_entries_to_build applies to branch "@ + branch,
        }
    }
}

/// Reads from a branch's rules how many entries the merge queue builds at once.
pub fn merge_queue_build_concurrency(pages: &Vec<Json>, branch: &str) -> (r: Result<usize, String>)
    ensures
        concurrency_read(trees(pages@), branch@, result_view(r)),
{
    let ghost all = trees(pages@);
    let mut best: Option<usize> = None;
    let mut i: usize = 0;
    proof {
        assert(all.skip(0) =~= all);
    }
    while i < pages.len()
        invariant
            i <= pages.len(),
            all == trees(pages@),
            first_bad_page(all) == i + first_bad_page(all.skip(i as int)),
            match best {
                Some(n) => largest_burst(all.take(i as int), n as nat),
                None => forall|m: nat| !allows(all.take(i as int), m),
            },
        decreases pages.len() - i,
    {
        proof {
            assert(all.skip(i as int)[0] == pages@[i as int]@);
            assert(all.skip(i as int).drop_first() =~= all.skip(i + 1));
        }
        let rules = match pages[i].as_array() {
            Some(rules) => rules,
            None => {
                return Err(
                    concat3(
                        "branch rules page ",
                        to_decimal((i as u64) + 1).as_str(),
                        " is not a JSON array",
                    ),
                );
            },
        };
        let ghost page = pages@[i as int]@;
        let found = page_burst(rules, Ghost(page));
        let ghost before = best;
        best = match (best, found) {
            (Some(b), Some(n)) => if b >= n {
                Some(b)
            } else {
                Some(n)
            },
            (None, Some(n)) => Some(n),
            (b, None) => b,
        };
        proof {
            assert forall|m: nat| #[trigger]
                allows(all.take(i + 1), m) <==> allows(all.take(i as int), m) || allows(
                    seq![page],
                    m,
                ) by {
                allows_of_one_more(all.take(i as int), page, m);
                assert(all.take(i + 1) =~= all.take(i as int).push(page));
            }
        }
        i = i + 1;
    }
    proof {
        assert(all.take(all.len() as int) =~= all);
        assert(all.skip(all.len() as int).len() == 0);
    }
    match best {
        Some(n) => Ok(n),
        None => Err(
            concat("no positive merge_queue max_entries_to_build applies to branch ", branch),
        ),
    }
}

proof fn allows_of_one_more(pages: Seq<JsonTree>, page: JsonTree, m: nat)
    ensures
        allows(pages.push(page), m) <==> allows(pages, m) || allows(seq![page], m),
{
    let more = pages.push(page);
    if allows(more, m) {
        let (p, i) = choose|p: int, i: int|
            0 <= p < more.len() && 0 <= i < (#[trigger] more[p])->Array_0.len() && more[p] is Array
                && #[trigger] rule_burst(more[p]->Array_0[i]) == Some(m as u64) && m <= u64::MAX;
        if p < pages.len() {
            assert(pages[p] is Array && rule_burst(pages[p]->Array_0[i]) == Some(m as u64));
        } else {
            assert(seq![page][0] is Array && rule_burst(seq![page][0]->Array_0[i]) == Some(
                m as u64,
            ));
        }
    }
    if allows(pages, m) {
        let (p, i) = choose|p: int, i: int|
            0 <= p < pages.len() && 0 <= i < (#[trigger] pages[p])->Array_0.len()
                && pages[p] is Array && #[trigger] rule_burst(pages[p]->Array_0[i]) == Some(
                m as u64,
            ) && m <= u64::MAX;
        assert(more[p] is Array && rule_burst(more[p]->Array_0[i]) == Some(m as u64));
    }
    if allows(seq![page], m) {
        let one = seq![page];
        let (p, i) = choose|p: int, i: int|
            0 <= p < one.len() && 0 <= i < (#[trigger] one[p])->Array_0.len() && one[p] is Array
                && #[trigger] rule_burst(one[p]->Array_0[i]) == Some(m as u64) && m <= u64::MAX;
        let q = pages.len() as int;
        assert(more[q] is Array && rule_burst(more[q]->Array_0[i]) == Some(m as u64));
    }
}

/// Reads from the text of a branch's rules, a list of pages, how many entries
/// the merge queue builds at once.
pub fn parse_merge_queue_build_concurrency(raw: &str, branch: &str) -> (r: Result<usize, String>)
    ensures
        match json_list_of(raw@) {
            Ok(pages) => concurrency_read(pages, branch@, result_view(r)),
            Err(error) => result_view(r) == Err::<usize, Seq<char>>(
                "branch rules JSON parse failed: "@ + error,
            ),
        },
{
    match parse_json_list(raw) {
        Ok(pages) => merge_queue_build_concurrency(&pages, branch),
        Err(error) => Err(concat("branch rules JSON parse failed: ", error.as_str())),
    }
}

/// What the read of a branch's rules says of the merge queue.
pub fn fetch_merge_queue_build_concurrency(read: &Result<String, String>, branch: &str) -> (r:
    Result<usize, String>)
    ensures
        match *read {
            Ok(raw) => match json_list_of(raw@) {
                Ok(pages) => concurrency_read(pages, branch@, result_view(r)),
                Err(error) => result_view(r) == Err::<usize, Seq<char>>(
                    "branch rules JSON parse failed: "@ + error,
                ),
            },
            Err(error) => result_view(r) == Err::<usize, Seq<char>>(
                "failed to read rules for branch "@ + branch@ + ": "@ + error@,
            ),
        },
{
    match read {
        Ok(raw) => parse_merge_queue_build_concurrency(raw.as_str(), branch),
        Err(error) => {
            let mut text: String = concat3("failed to read rules for branch ", branch, ": ");
            text.append(error.as_str());
            Err(text)
        },
    }
}

/// The arguments of a write of the lease's variable.
pub open spec fn variable_write(
    method: Seq<char>,
    path: Seq<char>,
    variable: Seq<char>,
    value: Seq<char>,
) -> Seq<Seq<char>> {
    seq![
        "api"@,
        "--method"@,
        method,
        path,
        "--raw-field"@,
        "name="@ + variable,
        "--raw-field"@,
        "value="@ + value,
    ]
}

/// The arguments of a write of the lease's variable; the value is passed on as
/// an opaque text.
pub fn variable_write_args(method: &str, path: &str, variable: &str, value: &str) -> (r: Vec<
    String,
>)
    ensures
        views(r@) == variable_write(method@, path@, variable@, value@),
{
    let r = vec![
        "api".to_owned(),
        "--method".to_owned(),
        method.to_owned(),
        path.to_owned(),
        "--raw-field".to_owned(),
        concat("name=", variable),
        "--raw-field".to_owned(),
        concat("value=", value),
    ];
    proof {
        assert(views(r@) =~= variable_write(method@, path@, variable@, value@));
    }
    r
}

/// Whether an error says that the addressed thing does not exist.
pub open spec fn says_not_found(error: Seq<char>) -> bool {
    has_infix(error, "HTTP 404"@)
}

/// Whether an error says that the addressed thing does not exist.
pub fn is_not_found(error: &str) -> (r: bool)
    ensures
        r == says_not_found(error@),
{
    contains(error, "HTTP 404")
}

/// Where a change of the lease stands.
#[derive(Clone, Copy, Debug, PartialEq, Eq, Structural)]
pub enum LeaseWrite {
    /// The variable is to be overwritten.
    Patch,
    /// The variable does not exist and is to be created.
    Create,
    /// The variable is to be removed.
    Delete,
}

/// The first request of a decision.
pub fn apply_decision(decision: &LeaseDecision) -> (r: LeaseWrite)
    ensures
        r == match decision.action {
            LeaseAction::Renew => LeaseWrite::Patch,
            LeaseAction::Clear => LeaseWrite::Delete,
        },
        r == LeaseWrite::Delete <==> decision.action != LeaseAction::Renew,
        r != LeaseWrite::Create,
{
    match decision.action {
        LeaseAction::Renew => LeaseWrite::Patch,
        LeaseAction::Clear => LeaseWrite::Delete,
    }
}

/// The arguments of a request that changes the lease. `expires_at` is what the
/// variable is to hold.
pub fn lease_write_args(write: LeaseWrite, repo: &str, variable: &str, expires_at: &str) -> (r: Vec<
    String,
>)
    ensures
        views(r@) == match write {
            LeaseWrite::Patch => variable_write(
                "PATCH"@,
                "repos/"@ + repo@ + "/actions/variables/"@ + variable@,
                variable@,
                expires_at@,
            ),
            LeaseWrite::Create => variable_write(
                "POST"@,
                "repos/"@ + repo@ + "/actions/variables"@,
                variable@,
                expires_at@,
            ),
            LeaseWrite::Delete => seq![
                "api"@,
                "--method"@,
                "DELETE"@,
                "repos/"@ + repo@ + "/actions/variables/"@ + variable@,
            ],
        },
{
    let mut path: String = concat3("repos/", repo, "/actions/variables/");
    path.append(variable);
    match write {
        LeaseWrite::Patch => variable_write_args("PATCH", path.as_str(), variable, expires_at),
        LeaseWrite::Create => {
            let create = concat3("repos/", repo, "/actions/variables");
            variable_write_args("POST", create.as_str(), variable, expires_at)
        },
        LeaseWrite::Delete => {
            let ghost text = path@;
            let r = vec!["api".to_owned(), "--method".to_owned(), "DELETE".to_owned(), path];
            proof {
                assert(views(r@) =~= seq!["api"@, "--method"@, "DELETE"@, text]);
            }
            r
        },
    }
}

/// What follows a request that changed the lease.
#[derive(Debug, PartialEq, Eq)]
pub enum LeaseNext {
    Request(LeaseWrite),
    Done(Result<String, CliFailure>),
}

/// What follows a request that was to change the lease: a variable that does not
/// exist is created, and a removal that was refused is a failure whatever the
/// refusal says.
pub fn apply_decision_with_timeout(write: LeaseWrite, error: Option<&str>) -> (r: LeaseNext)
    ensures
        match (write, error) {
            (LeaseWrite::Patch, None) => r matches LeaseNext::Done(Ok(done)) && done@
                == "renewed"@,
            (LeaseWrite::Create, None) => r matches LeaseNext::Done(Ok(done)) && done@
                == "created"@,
            (LeaseWrite::Delete, None) => r matches LeaseNext::Done(Ok(done)) && done@
                == "cleared"@,
            (LeaseWrite::Patch, Some(e)) => if says_not_found(e@) {
                r == LeaseNext::Request(LeaseWrite::Create)
            } else {
                r matches LeaseNext::Done(result) && fails(
                    result,
                    1,
                    "failed to renew health lease: "@ + e@,
                )
            },
            (LeaseWrite::Create, Some(e)) => r matches LeaseNext::Done(result) && fails(
                result,
                1,
                "failed to create health lease: "@ + e@,
            ),
            (LeaseWrite::Delete, Some(e)) => r matches LeaseNext::Done(result) && fails(
                result,
                1,
                "fleet is unhealthy and health lease clear failed: "@ + e@,
            ),
        },
        error is None ==> (r matches LeaseNext::Done(result) && result is Ok),
        error matches Some(e) ==> match r {
            LeaseNext::Request(next) => next == LeaseWrite::Create && write == LeaseWrite::Patch
                && says_not_found(e@),
            LeaseNext::Done(result) => result matches Err(failure) && failure.code == 1
                && has_suffix(failure.message@, e@),
        },
{
    proof {
        if let Some(e) = error {
            ends_with_its_end("failed to renew health lease: "@, e@);
            ends_with_its_end("failed to create health lease: "@, e@);
            ends_with_its_end("fleet is unhealthy and health lease clear failed: "@, e@);
        }
    }
    match (write, error) {
        (LeaseWrite::Patch, None) => LeaseNext::Done(Ok("renewed".to_owned())),
        (LeaseWrite::Create, None) => LeaseNext::Done(Ok("created".to_owned())),
        (LeaseWrite::Delete, None) => LeaseNext::Done(Ok("cleared".to_owned())),
        (LeaseWrite::Patch, Some(e)) => if is_not_found(e) {
            LeaseNext::Request(LeaseWrite::Create)
        } else {
            let text = concat("failed to renew health lease: ", e);
            LeaseNext::Done(Err(CliFailure::new(1, text.as_str())))
        },
        (LeaseWrite::Create, Some(e)) => {
            let text = concat("failed to create health lease: ", e);
            LeaseNext::Done(Err(CliFailure::new(1, text.as_str())))
        },
        (LeaseWrite::Delete, Some(e)) => {
            let text = concat("fleet is unhealthy and health lease clear failed: ", e);
            LeaseNext::Done(Err(CliFailure::new(1, text.as_str())))
        },
    }
}

/// The states in which a workflow run may still hold queued jobs.
pub open spec fn unfinished_states() -> Seq<Seq<char>> {
    seq!["queued"@, "in_progress"@, "requested"@, "waiting"@, "pending"@]
}

/// The states in which a workflow run may still hold queued jobs.
pub fn unfinished_run_states() -> (r: Vec<String>)
    ensures
        views(r@) == unfinished_states(),
{
    let r = vec![
        "queued".to_owned(),
        "in_progress".to_owned(),
        "requested".to_owned(),
        "waiting".to_owned(),
        "pending".to_owned(),
    ];
    proof {
        assert(views(r@) =~= unfinished_states());
    }
    r
}

/// The arguments of a listing of the runs in a state.
pub fn run_listing_args(repo: &str, status: &str) -> (r: Vec<String>)
    ensures
        views(r@) == seq![
            "api"@,
            "--paginate"@,
            "repos/"@ + repo@ + "/actions/runs?status="@ + status@ + "&per_page=100"@,
            "--jq"@,
            ".workflow_runs[].id"@,
        ],
{
    let mut path: String = concat3("repos/", repo, "/actions/runs?status=");
    path.append(status);
    path.append("&per_page=100");
    let ghost text = path@;
    let r = vec![
        "api".to_owned(),
        "--paginate".to_owned(),
        path,
        "--jq".to_owned(),
        ".workflow_runs[].id".to_owned(),
    ];
    proof {
        assert(views(r@) =~= seq!["api"@, "--paginate"@, text, "--jq"@, ".workflow_runs[].id"@]);
    }
    r
}

/// The arguments of a listing of a run's jobs.
pub fn job_listing_args(repo: &str, run_id: u64) -> (r: Vec<String>)
    ensures
        views(r@) == seq![
            "api"@,
            "--paginate"@,
            "repos/"@ + repo@ + "/actions/runs/"@ + decimal(run_id as nat)
                + "/jobs?filter=all&per_page=100"@,
            "--jq"@,
            ".jobs[]"@,
        ],
{
    let mut path: String = concat3("repos/", repo, "/actions/runs/");
    path.append(to_decimal(run_id).as_str());
    path.append("/jobs?filter=all&per_page=100");
    let ghost text = path@;
    let r = vec![
        "api".to_owned(),
        "--paginate".to_owned(),
        path,
        "--jq".to_owned(),
        ".jobs[]".to_owned(),
    ];
    proof {
        assert(views(r@) =~= seq!["api"@, "--paginate"@, text, "--jq"@, ".jobs[]"@]);
    }
    r
}

/// Whether a line names a run.
pub open spec fn names_run(line: Seq<char>) -> bool {
    number_of(trimmed(line)) matches Some(n) && n <= u64::MAX
}

/// Adds the runs that a listing names, one on each line that is not blank. The
/// first line that names none is an error, and the runs of the lines before it
/// stay added.
pub fn add_listed_runs(run_ids: &mut Vec<u64>, raw: &str) -> (r: Result<(), String>)
    requires
        increasing(old(run_ids)@),
    ensures
        increasing(final(run_ids)@),
        match r {
            Ok(_) => (forall|i: int|
                0 <= i < lines_of(raw@).len() ==> names_run(#[trigger] lines_of(raw@)[i])) && (
            forall|n: u64| #[trigger]
                final(run_ids)@.contains(n) <==> old(run_ids)@.contains(n) || named_before(
                    lines_of(raw@),
                    lines_of(raw@).len() as int,
                    n,
                )),
            Err(e) => exists|i: int|
                0 <= i < lines_of(raw@).len() && !names_run(#[trigger] lines_of(raw@)[i]) && (
                forall|k: int| 0 <= k < i ==> names_run(#[trigger] lines_of(raw@)[k])) && e@
                    == "workflow run id parse failed: "@ + number_error(
                    trimmed(lines_of(raw@)[i]),
                ) && (forall|n: u64| #[trigger]
                    final(run_ids)@.contains(n) <==> old(run_ids)@.contains(n) || named_before(
                        lines_of(raw@),
                        i,
                        n,
                    )),
        },
{
    let lines = nonblank_lines(raw);
    let ghost all = lines_of(raw@);
    let ghost before = run_ids@;
    let mut i: usize = 0;
    while i < lines.len()
        invariant
            i <= lines.len(),
            all == lines_of(raw@),
            views(lines@) == all,
            increasing(run_ids@),
            before == old(run_ids)@,
            forall|k: int| 0 <= k < i ==> names_run(#[trigger] all[k]),
            forall|n: u64| #[trigger]
                run_ids@.contains(n) <==> before.contains(n) || named_before(all, i as int, n),
        decreases lines.len() - i,
    {
        proof {
            assert(all[i as int] == lines@[i as int]@);
        }
        let line = trim(lines[i].as_str());
        match parse_number(line.as_str()) {
            Ok(n) => {
                let ghost held = run_ids@;
                add_number(run_ids, n);
                proof {
                    assert forall|m: u64| #[trigger]
                        run_ids@.contains(m) <==> before.contains(m) || named_before(
                            all,
                            i + 1,
                            m,
                        ) by {
                        assert(held.contains(m) <==> before.contains(m) || named_before(
                            all,
                            i as int,
                            m,
                        ));
                        if named_before(all, i as int, m) {
                            let k = choose|k: int|
                                0 <= k < i && number_of(trimmed(#[trigger] all[k])) == Some(
                                    m as nat,
                                );
                            assert(0 <= k < i + 1 && number_of(trimmed(all[k])) == Some(m as nat));
                        }
                        if m == n {
                            assert(number_of(trimmed(all[i as int])) == Some(m as nat));
                        }
                    }
                }
            },
            Err(message) => {
                return Err(concat("workflow run id parse failed: ", message.as_str()));
            },
        }
        i = i + 1;
    }
    Ok(())
}

/// Whether one of the first lines names a run.
pub open spec fn named_before(lines: Seq<Seq<char>>, limit: int, n: u64) -> bool {
    exists|i: int| 0 <= i < limit && number_of(trimmed(#[trigger] lines[i])) == Some(n as nat)
}

/// Whether a label occurs in a job's labels, in any letter case.
pub open spec fn asks_for(labels: Seq<String>, label: Seq<char>) -> bool {
    exists|i: int| 0 <= i < labels.len() && same_ignoring_case((#[trigger] labels[i])@, label)
}

/// Whether a job waits for a runner with the given labels.
pub open spec fn waits_for(job: LeaseJob, required: Seq<String>) -> bool {
    same_ignoring_case(job.status@, "queued"@) && forall|i: int|
        0 <= i < required.len() ==> asks_for(job.labels@, (#[trigger] required[i])@)
}

fn label_asked(labels: &Vec<String>, label: &str) -> (r: bool)
    ensures
        r == asks_for(labels@, label@),
{
    let mut i: usize = 0;
    while i < labels.len()
        invariant
            i <= labels.len(),
            forall|k: int| 0 <= k < i ==> !same_ignoring_case((#[trigger] labels@[k])@, label@),
        decreases labels.len() - i,
    {
        if eq_ignore_case(labels[i].as_str(), label) {
            return true;
        }
        i = i + 1;
    }
    false
}

fn job_waits_for(job: &LeaseJob, required: &Vec<String>) -> (r: bool)
    ensures
        r == waits_for(*job, required@),
{
    if !eq_ignore_case(job.status.as_str(), "queued") {
        return false;
    }
    let mut i: usize = 0;
    while i < required.len()
        invariant
            i <= required.len(),
            forall|k: int| 0 <= k < i ==> asks_for(job.labels@, (#[trigger] required@[k])@),
        decreases required.len() - i,
    {
        if !label_asked(&job.labels, required[i].as_str()) {
            return false;
        }
        i = i + 1;
    }
    true
}

/// The number of jobs that wait for a runner with the given labels.
pub fn fetch_queued_matching_jobs(jobs: &Vec<LeaseJob>, required: &Vec<String>) -> (r: usize)
    ensures
        r == count(jobs@, |job: LeaseJob| waits_for(job, required@)),
{
    let ghost all = jobs@;
    let ghost p = |job: LeaseJob| waits_for(job, required@);
    let mut queued: usize = 0;
    let mut i: usize = 0;
    while i < jobs.len()
        invariant
            i <= jobs.len(),
            all == jobs@,
            p == (|job: LeaseJob| waits_for(job, required@)),
            queued <= i,
            queued == count(all.take(i as int), p),
        decreases jobs.len() - i,
    {
        proof {
            reveal(Seq::filter);
            assert(all.take(i + 1).drop_last() =~= all.take(i as int));
            assert(all.take(i + 1).last() == all[i as int]);
        }
        if job_waits_for(&jobs[i], required) {
            queued = queued + 1;
        }
        i = i + 1;
    }
    proof {
        assert(all.take(all.len() as int) =~= all);
    }
    queued
}

/// The ticks of a lease command.
#[derive(Clone, Copy, Debug, PartialEq, Eq, Structural)]
pub struct LeaseTicks {
    pub watch: bool,
    pub interval_secs: u64,
    pub max_ticks: Option<u32>,
    pub tick: u32,
}

/// What follows a tick.
#[derive(Clone, Copy, Debug, PartialEq, Eq, Structural)]
pub enum TickNext {
    /// The command ends with an exit code.
    Exit(u8),
    /// The next tick comes after a number of seconds.
    Sleep(u64),
}

/// Begins the ticks of a lease command. A watching command's interval must be
/// shorter than the lease and no shorter than fifteen seconds.
pub fn local_linux_lease_command(
    watch: bool,
    interval_secs: u64,
    max_ticks: Option<u32>,
    ttl_seconds: u64,
) -> (r: Result<LeaseTicks, CliFailure>)
    ensures
        if watch && interval_secs >= ttl_seconds {
            fails(
                r,
                2,
                "--interval-secs must be shorter than the "@ + decimal(ttl_seconds as nat)
                    + " second health lease"@,
            )
        } else if watch && interval_secs < 15 {
            fails(r, 2, "--interval-secs must be at least 15 to avoid API hot-looping"@)
        } else {
            r == Ok::<LeaseTicks, CliFailure>(
                LeaseTicks { watch, interval_secs, max_ticks, tick: 1 },
            )
        },
        r is Ok <==> (watch ==> 15 <= interval_secs < ttl_seconds),
{
    if watch && interval_secs >= ttl_seconds {
        let text = concat3(
            "--interval-secs must be shorter than the ",
            to_decimal(ttl_seconds).as_str(),
            " second health lease",
        );
        return Err(CliFailure::new(2, text.as_str()));
    }
    if watch && interval_secs < 15 {
        return Err(
            CliFailure::new(2, "--interval-secs must be at least 15 to avoid API hot-looping"),
        );
    }
    Ok(LeaseTicks { watch, interval_secs, max_ticks, tick: 1 })
}

impl LeaseTicks {
    /// Whether the current tick is the last one.
    pub open spec fn last(self) -> bool {
        !self.watch || (self.max_ticks matches Some(max) && self.tick >= max)
    }

    /// Ends a tick: the last one decides the exit code, which is zero only after
    /// a renewal that was made.
    pub fn finish_tick(&mut self, action: LeaseAction, mutation_failed: bool) -> (r: TickNext)
        requires
            !old(self).last() ==> old(self).tick < u32::MAX,
        ensures
            if old(self).last() {
                r == TickNext::Exit(
                    if action == LeaseAction::Renew && !mutation_failed {
                        0
                    } else {
                        1
                    },
                ) && *final(self) == *old(self)
            } else {
                r == TickNext::Sleep(old(self).interval_secs) && *final(self) == (LeaseTicks {
                    tick: (old(self).tick + 1) as u32,
                    ..*old(self)
                })
            },
            r is Exit <==> !old(self).watch || (old(self).max_ticks matches Some(max) && max
                <= old(self).tick),
            r matches TickNext::Exit(code) ==> (code == 0 <==> action == LeaseAction::Renew
                && !mutation_failed),
    {
        let over = match self.max_ticks {
            Some(max) => self.tick >= max,
            None => false,
        };
        if !self.watch || over {
            let code: u8 = if action == LeaseAction::Renew && !mutation_failed {
                0
            } else {
                1
            };
            return TickNext::Exit(code);
        }
        self.tick = self.tick + 1;
        TickNext::Sleep(self.interval_secs)
    }
}

/// A decision as one line of text.
pub open spec fn decision_text(
    tick: u32,
    repo: Seq<char>,
    decision: LeaseDecision,
    mutation: Seq<char>,
    expires_at: Option<Seq<char>>,
) -> Seq<char> {
    "local-linux-lease tick="@ + decimal(tick as nat) + " repo="@ + repo + " action="@
        + decision.action.name() + " mutation="@ + mutation + " matching="@ + decimal(
        decision.matching as nat,
    ) + " online="@ + decimal(decision.online as nat) + " idle="@ + decimal(decision.idle as nat)
        + " queued="@ + decimal(decision.queued as nat) + " available="@ + decimal(
        decision.available as nat,
    ) + " expires_at="@ + (match expires_at {
        Some(text) => text,
        None => "-"@,
    }) + " reason="@ + decision.reason@
}

/// A decision as one line of text.
pub fn decision_line(
    tick: u32,
    repo: &str,
    decision: &LeaseDecision,
    mutation: &str,
    expires_at: &Option<String>,
) -> (r: String)
    ensures
        r@ == decision_text(tick, repo@, *decision, mutation@, opt_view(*expires_at)),
{
    let mut out: String = concat("local-linux-lease tick=", to_decimal(tick as u64).as_str());
    out.append(" repo=");
    out.append(repo);
    out.append(" action=");
    out.append(decision.action.as_str());
    out.append(" mutation=");
    out.append(mutation);
    out.append(" matching=");
    out.append(to_decimal(decision.matching as u64).as_str());
    out.append(" online=");
    out.append(to_decimal(decision.online as u64).as_str());
    out.append(" idle=");
    out.append(to_decimal(decision.idle as u64).as_str());
    out.append(" queued=");
    out.append(to_decimal(decision.queued as u64).as_str());
    out.append(" available=");
    out.append(to_decimal(decision.available as u64).as_str());
    out.append(" expires_at=");
    match expires_at {
        Some(text) => out.append(text.as_str()),
        None => out.append("-"),
    }
    out.append(" reason=");
    out.append(decision.reason.as_str());
    out
}

/// A decision as the members of a JSON object.
pub open spec fn decision_members(
    tick: u32,
    repo: Seq<char>,
    variable: Seq<char>,
    events: Seq<Seq<char>>,
    decision: LeaseDecision,
    mutation: Seq<char>,
    observed_at: Option<Seq<char>>,
    expires_at: Option<Seq<char>>,
) -> JsonTree {
    JsonTree::Object(
        seq![
            ("tick"@, JsonTree::Number(Some(tick as u64))),
            ("repo"@, JsonTree::Text(repo)),
            ("variable"@, JsonTree::Text(variable)),
            ("events"@, JsonTree::Array(Seq::new(events.len(), |i: int| JsonTree::Text(events[i])))),
            ("action"@, JsonTree::Text(decision.action.name())),
            ("mutation"@, JsonTree::Text(mutation)),
            ("reason"@, JsonTree::Text(decision.reason@)),
            ("matching_runners"@, JsonTree::Number(Some(decision.matching as u64))),
            ("online_runners"@, JsonTree::Number(Some(decision.online as u64))),
            ("idle_runners"@, JsonTree::Number(Some(decision.idle as u64))),
            ("queued_matching_jobs"@, JsonTree::Number(Some(decision.queued as u64))),
            ("available_unreserved_runners"@, JsonTree::Number(Some(decision.available as u64))),
            ("observed_at"@, text_or_null(observed_at)),
            ("expires_at"@, text_or_null(expires_at)),
        ],
    )
}

/// The moments of a decision as texts, where a calendar can name them.
pub open spec fn moment_text(at: Option<Instant>) -> Option<Seq<char>> {
    match at {
        Some(at) => rfc3339_text(at.seconds, at.nanos),
        None => None,
    }
}

/// The text of a moment, where there is one and a calendar can name it.
pub fn format_moment(at: Option<Instant>) -> (r: Option<String>)
    ensures
        opt_view(r) == moment_text(at),
{
    match at {
        Some(at) => format_rfc3339(at),
        None => None,
    }
}

/// A decision as a JSON object.
pub fn emit_decision(
    tick: u32,
    repo: &str,
    variable: &str,
    events: &Vec<String>,
    decision: &LeaseDecision,
    mutation: &str,
) -> (r: Json)
    ensures
        r@ == decision_members(
            tick,
            repo@,
            variable@,
            views(events@),
            *decision,
            mutation@,
            moment_text(Some(decision.observed_at)),
            moment_text(decision.expires_at),
        ),
{
    let observed = format_moment(Some(decision.observed_at));
    let expires = format_moment(decision.expires_at);
    let listed = text_array(events);
    let mut members: Vec<(String, Json)> = Vec::new();
    members.push(("tick".to_owned(), Json::Number(Some(tick as u64))));
    members.push(("repo".to_owned(), Json::Text(repo.to_owned())));
    members.push(("variable".to_owned(), Json::Text(variable.to_owned())));
    members.push(("events".to_owned(), listed));
    members.push(("action".to_owned(), Json::Text(decision.action.as_str().to_owned())));
    members.push(("mutation".to_owned(), Json::Text(mutation.to_owned())));
    members.push(("reason".to_owned(), Json::Text(decision.reason.clone())));
    members.push(("matching_runners".to_owned(), Json::Number(Some(decision.matching as u64))));
    members.push(("online_runners".to_owned(), Json::Number(Some(decision.online as u64))));
    members.push(("idle_runners".to_owned(), Json::Number(Some(decision.idle as u64))));
    members.push(("queued_matching_jobs".to_owned(), Json::Number(Some(decision.queued as u64))));
    members.push(
        ("available_unreserved_runners".to_owned(), Json::Number(Some(decision.available as u64))),
    );
    members.push(("observed_at".to_owned(), optional_text(observed)));
    members.push(("expires_at".to_owned(), optional_text(expires)));
    proof {
        assert(members_of(members@) =~= decision_members(
            tick,
            repo@,
            variable@,
            views(events@),
            *decision,
            mutation@,
            moment_text(Some(decision.observed_at)),
            moment_text(decision.expires_at),
        )->Object_0);
    }
    object(members)
}

/// The arguments that list the registered runners.
pub fn fetch_runners(repo: &str) -> (r: Vec<String>)
    ensures
        views(r@) == seq![
            "api"@,
            "--paginate"@,
            "repos/"@ + repo@ + "/actions/runners?per_page=100"@,
            "--jq"@,
            ".runners[]"@,
        ],
{
    let mut out: Vec<String> = Vec::new();
    out.push("api".to_owned());
    out.push("--paginate".to_owned());
    out.push(concat3("repos/", repo, "/actions/runners?per_page=100"));
    out.push("--jq".to_owned());
    out.push(".runners[]".to_owned());
    proof {
        assert(views(out@) =~= seq![
            "api"@,
            "--paginate"@,
            "repos/"@ + repo@ + "/actions/runners?per_page=100"@,
            "--jq"@,
            ".runners[]"@,
        ]);
    }
    out
}

/// A clean fleet whose idle runners suffice, beside the queued jobs, for the declared
/// burst and for the least that must stay idle is leased; a burst that is declared below
/// the live one, or one idle runner too few, ends that.
pub proof fn a_sufficient_fleet_is_leased(fleet: FleetCount, queued: nat, policy: AdmissionPolicy)
    ensures
        fleet.contaminated == 0 && policy.live_burst <= policy.declared_burst && fleet.idle >= queued
            + policy.declared_burst && fleet.idle >= queued + policy.min_idle ==> renewable(
            fleet,
            queued,
            policy,
        ),
        renewable(fleet, queued, policy) ==> fleet.contaminated == 0 && policy.live_burst
            <= policy.declared_burst,
        fleet.idle < queued + policy.declared_burst && policy.declared_burst > 0 ==> !renewable(
            fleet,
            queued,
            policy,
        ),
        fleet.idle < queued + policy.min_idle && policy.min_idle > 0 ==> !renewable(
            fleet,
            queued,
            policy,
        ),
{
}

/// A runner counts as idle only where it carries every required label, is named as an
/// approved one, is online and not busy; and then it does.
pub proof fn an_idle_runner_is_free_and_approved(
    runner: LeaseRunner,
    required: Seq<String>,
    prefix: Seq<char>,
    i: int,
)
    requires
        0 <= i < required.len(),
    ensures
        is_idle(runner, required, prefix) ==> !runner.busy && same_ignoring_case(
            runner.status@,
            "online"@,
        ) && has_prefix(runner.name@, prefix) && carries(runner.labels@, required[i]@),
        !runner.busy && same_ignoring_case(runner.status@, "online"@) && has_prefix(
            runner.name@,
            prefix,
        ) && eligible(runner, required) ==> is_idle(runner, required, prefix),
        !carries(runner.labels@, required[i]@) ==> !eligible(runner, required),
{
}

/// A runner that the scheduler would take contaminates the fleet exactly where it is not
/// named as an approved one or has the forbidden capability.
pub proof fn an_unapproved_runner_contaminates(
    runner: LeaseRunner,
    required: Seq<String>,
    prefix: Seq<char>,
    forbidden: Seq<char>,
)
    requires
        eligible(runner, required),
    ensures
        !contaminates(runner, required, prefix, forbidden) <==> belongs(runner, required, prefix)
            && !carries(runner.labels@, forbidden),
{
}

/// A job waits for the fleet exactly while it is queued and asks for every required label.
pub proof fn only_queued_jobs_wait(job: LeaseJob, required: Seq<String>, i: int)
    requires
        0 <= i < required.len(),
    ensures
        !same_ignoring_case(job.status@, "queued"@) ==> !waits_for(job, required),
        !asks_for(job.labels@, required[i]@) ==> !waits_for(job, required),
        same_ignoring_case(job.status@, "queued"@) && (forall|k: int|
            0 <= k < required.len() ==> asks_for(job.labels@, (#[trigger] required[k])@))
            ==> waits_for(job, required),
{
}

/// A rule tells a burst only where it is a merge-queue rule with a positive one.
pub proof fn only_merge_queue_rules_tell_a_burst(rule: JsonTree)
    ensures
        rule_burst(rule) matches Some(n) ==> n > 0 && rule.text_at("type"@) == Some("merge_queue"@)
            && (rule.field("parameters"@) matches Some(parameters) && parameters.number_at(
            "max_entries_to_build"@,
        ) == Some(n)),
        rule.text_at("type"@) == Some("merge_queue"@) && (rule.field("parameters"@) matches Some(
            parameters,
        ) && (parameters.number_at("max_entries_to_build"@) matches Some(n) && 0 < n <= usize::MAX))
            ==> rule_burst(rule) is Some,
{
}

/// The reason of a decision says that the fleet is healthy exactly where it is leased.
pub proof fn the_reason_tells_a_healthy_fleet(
    fleet: FleetCount,
    queued: nat,
    policy: AdmissionPolicy,
    prefix: Seq<char>,
    forbidden: Seq<char>,
)
    ensures
        has_prefix(
            lease_reason(fleet, queued, policy, prefix, forbidden),
            "healthy_for_admission_burst"@,
        ) <==> renewable(fleet, queued, policy),
        fleet.contaminated > 0 ==> has_prefix(
            lease_reason(fleet, queued, policy, prefix, forbidden),
            "scheduler_eligible_runner_outside_approved_namespace"@,
        ),
{
    reveal_strlit("healthy_for_admission_burst");
    reveal_strlit("healthy_for_admission_burst: declared=");
    reveal_strlit("scheduler_eligible_runner_outside_approved_namespace");
    reveal_strlit("scheduler_eligible_runner_outside_approved_namespace: contaminated=");
    reveal_strlit("profile_admission_burst_below_live_merge_queue: declared=");
    reveal_strlit("insufficient_unreserved_idle_capacity_for_admission_burst: required=");
    let told = lease_reason(fleet, queued, policy, prefix, forbidden);
    let healthy = "healthy_for_admission_burst"@;
    let outside = "scheduler_eligible_runner_outside_approved_namespace"@;
    if fleet.contaminated > 0 {
        assert(told[0] == 's');
        assert(told.take(outside.len() as int) =~= outside);
    } else if policy.declared_burst < policy.live_burst {
        assert(told[0] == 'p');
    } else if unreserved(fleet.idle, queued) >= needed(policy) {
        assert(told.take(healthy.len() as int) =~= healthy);
    } else {
        assert(told[0] == 'i');
    }
    if has_prefix(told, healthy) {
        assert(told.take(healthy.len() as int)[0] == 'h');
    }
}

/// The page that is told as malformed is the first that is no list.
pub proof fn the_first_bad_page_is_told(pages: Seq<JsonTree>)
    ensures
        0 <= first_bad_page(pages) <= pages.len(),
        forall|k: int| 0 <= k < first_bad_page(pages) ==> (#[trigger] pages[k]).items() is Some,
        first_bad_page(pages) < pages.len() ==> pages[first_bad_page(pages)].items() is None,
    decreases pages.len(),
{
    if pages.len() > 0 && pages[0].items() is Some {
        let rest = pages.drop_first();
        the_first_bad_page_is_told(rest);
        assert forall|k: int| 0 <= k < first_bad_page(pages) implies (#[trigger] pages[k]).items()
            is Some by {
            if k > 0 {
                assert(rest[k - 1] == pages[k]);
            }
        }
        if first_bad_page(pages) < pages.len() {
            assert(rest[first_bad_page(rest)] == pages[first_bad_page(pages)]);
        }
    }
}

/// The burst that is read is one that a rule allows and the largest of them, and none is
/// read exactly where no rule allows any.
pub proof fn the_largest_burst_is_read(
    pages: Seq<JsonTree>,
    branch: Seq<char>,
    r: Result<usize, Seq<char>>,
    m: nat,
)
    requires
        concurrency_read(pages, branch, r),
        first_bad_page(pages) == pages.len(),
    ensures
        r matches Ok(n) ==> allows(pages, n as nat) && (allows(pages, m) ==> m <= n),
        allows(pages, m) ==> r is Ok,
{
}

} // verus!
