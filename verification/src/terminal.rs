//! Runs that are being cancelled: whether one has ended, and what a pending
//! cancellation says of it.
use vstd::prelude::*;

use crate::capacity::NonTerminalRun;
use crate::json::Json;
use crate::ledger::{PendingCancellation, StewardLedger};
use crate::model::{job_views, RunView, StewardJob, StewardRun};
use crate::observation::{add_jobs, jobs_of, paging, parse_run, run_of, Paging};
use crate::outside::{instant_of, parse_time, Instant};
use crate::pending::{active_jobs, active_status, find_pending, first_of_run, run_pending};
use crate::text::{
    concat3, concat4, concat5, concat6, decimal, eq_ignore_case, result_view, same_ignoring_case,
    str_eq, to_decimal, views,
};

verus! {

/// How long a cancelled run is watched, in milliseconds.
pub const CANCEL_TERMINAL_WAIT: u64 = 15_000;

/// How long a watcher pauses between two reads, in milliseconds.
pub const CANCEL_TERMINAL_POLL: u64 = 2_000;

/// Whether a run is the attempt that a pending cancellation was written for.
pub open spec fn pending_attempt(run: RunView, pending: PendingCancellation) -> bool {
    &&& run.id == pending.run_id
    &&& run.workflow_id == pending.workflow_id
    &&& run.run_attempt == pending.run_attempt
    &&& same_ignoring_case(run.head_sha, pending.head_sha@)
    &&& run.head_branch == pending.head_branch@
}

fn is_pending_attempt(run: &StewardRun, pending: &PendingCancellation) -> (r: bool)
    ensures
        r == pending_attempt(run@, *pending),
{
    run.id == pending.run_id && run.workflow_id == pending.workflow_id && run.run_attempt
        == pending.run_attempt && eq_ignore_case(run.head_sha.as_str(), pending.head_sha.as_str())
        && str_eq(run.head_branch.as_str(), pending.head_branch.as_str())
}

/// The arguments that read the attempt of a pending cancellation.
pub fn pending_run_args(pending: &PendingCancellation) -> (r: Vec<String>)
    ensures
        views(r@) == seq![
            "api"@,
            "repos/"@ + pending.repo@ + "/actions/runs/"@ + decimal(pending.run_id as nat)
                + "/attempts/"@ + decimal(pending.run_attempt as nat),
        ],
{
    let mut out: Vec<String> = Vec::new();
    out.push("api".to_owned());
    out.push(
        concat6(
            "repos/",
            pending.repo.as_str(),
            "/actions/runs/",
            to_decimal(pending.run_id).as_str(),
            "/attempts/",
            to_decimal(pending.run_attempt).as_str(),
        ),
    );
    proof {
        assert(views(out@) =~= seq![
            "api"@,
            "repos/"@ + pending.repo@ + "/actions/runs/"@ + decimal(pending.run_id as nat)
                + "/attempts/"@ + decimal(pending.run_attempt as nat),
        ]);
    }
    out
}

/// The arguments that read a run as it is now.
pub fn current_run_args(repo: &str, run_id: u64) -> (r: Vec<String>)
    ensures
        views(r@) == seq![
            "api"@,
            "repos/"@ + repo@ + "/actions/runs/"@ + decimal(run_id as nat),
        ],
{
    let mut out: Vec<String> = Vec::new();
    out.push("api".to_owned());
    out.push(concat4("repos/", repo, "/actions/runs/", to_decimal(run_id).as_str()));
    proof {
        assert(views(out@) =~= seq![
            "api"@,
            "repos/"@ + repo@ + "/actions/runs/"@ + decimal(run_id as nat),
        ]);
    }
    out
}

/// The attempt that a pending cancellation was written for, as a document shows
/// it.
pub fn read_pending_run_identity(response: &Json, pending: &PendingCancellation) -> (r: Result<
    StewardRun,
    String,
>)
    ensures
        match run_of(response@) {
            None => result_view(r) == Err::<StewardRun, Seq<char>>(
                "pending cancellation run "@ + decimal(pending.run_id as nat)
                    + " response is malformed"@,
            ),
            Some(view) => if pending_attempt(view, *pending) {
                r matches Ok(run) && run@ == view
            } else {
                result_view(r) == Err::<StewardRun, Seq<char>>(
                    "pending cancellation run "@ + decimal(pending.run_id as nat)
                        + " immutable identity changed"@,
                )
            },
        },
{
    let run = match parse_run(response) {
        Some(run) => run,
        None => return Err(
            concat3(
                "pending cancellation run ",
                to_decimal(pending.run_id).as_str(),
                " response is malformed",
            ),
        ),
    };
    if !is_pending_attempt(&run, pending) {
        return Err(
            concat3(
                "pending cancellation run ",
                to_decimal(pending.run_id).as_str(),
                " immutable identity changed",
            ),
        );
    }
    Ok(run)
}

/// Whether a run as it is now is still the attempt of a pending cancellation.
pub open spec fn current_attempt(
    run: Option<RunView>,
    pending: PendingCancellation,
) -> Result<bool, Seq<char>> {
    match run {
        None => Err(
            "current pending cancellation run "@ + decimal(pending.run_id as nat)
                + " response is malformed"@,
        ),
        Some(view) => Ok(pending_attempt(view, pending)),
    }
}

/// Whether a run as it is now is still the attempt of a pending cancellation.
pub fn current_pending_run_identity_matches(
    response: &Json,
    pending: &PendingCancellation,
) -> (r: Result<bool, String>)
    ensures
        result_view(r) == current_attempt(run_of(response@), *pending),
{
    match parse_run(response) {
        Some(run) => Ok(is_pending_attempt(&run, pending)),
        None => Err(
            concat3(
                "current pending cancellation run ",
                to_decimal(pending.run_id).as_str(),
                " response is malformed",
            ),
        ),
    }
}

/// Why a run as it is now is not the attempt of a pending cancellation.
pub open spec fn identity_refusal(run: Option<RunView>, pending: PendingCancellation) -> Option<
    Seq<char>,
> {
    match current_attempt(run, pending) {
        Ok(same) => if same {
            None
        } else {
            Some(
                "current workflow run "@ + decimal(pending.run_id as nat)
                    + " no longer matches pending attempt "@ + decimal(pending.run_attempt as nat),
            )
        },
        Err(message) => Some(message),
    }
}

/// Refuses a run that is no longer the attempt of a pending cancellation.
pub fn read_current_pending_run_identity(
    response: &Json,
    pending: &PendingCancellation,
) -> (r: Result<(), String>)
    ensures
        match identity_refusal(run_of(response@), *pending) {
            Some(error) => r matches Err(e) && e@ == error,
            None => r is Ok,
        },
{
    match current_pending_run_identity_matches(response, pending) {
        Ok(true) => Ok(()),
        Ok(false) => Err(
            concat4(
                "current workflow run ",
                to_decimal(pending.run_id).as_str(),
                " no longer matches pending attempt ",
                to_decimal(pending.run_attempt).as_str(),
            ),
        ),
        Err(error) => Err(error),
    }
}

/// Adds a page of the jobs of the attempt of a pending cancellation.
pub fn fetch_pending_run_jobs(
    jobs: &mut Vec<StewardJob>,
    response: &Json,
    page: u64,
    pending: &PendingCancellation,
) -> (r: Result<Paging, String>)
    ensures
        match response@.items_at("jobs"@) {
            None => *final(jobs) == *old(jobs) && result_view(r) == Err::<Paging, Seq<char>>(
                "workflow run "@ + decimal(pending.run_id as nat) + " response missing jobs"@,
            ),
            Some(rows) => match jobs_of(rows) {
                Err(error) => result_view(r) == Err::<Paging, Seq<char>>(error) && job_views(
                    final(jobs)@,
                ) == job_views(old(jobs)@),
                Ok(found) => job_views(final(jobs)@) == job_views(old(jobs)@) + found
                    && result_view(r) == paging(
                    rows.len(),
                    page,
                    "workflow run "@ + decimal(pending.run_id as nat) + " attempt "@ + decimal(
                        pending.run_attempt as nat,
                    ) + " exceeds 1000 jobs; refusing partial recovery scan"@,
                ),
            },
        },
{
    let id = to_decimal(pending.run_id);
    let missing = concat3("workflow run ", id.as_str(), " response missing jobs");
    let refusal = concat5(
        "workflow run ",
        id.as_str(),
        " attempt ",
        to_decimal(pending.run_attempt).as_str(),
        " exceeds 1000 jobs; refusing partial recovery scan",
    );
    add_jobs(jobs, response, page, missing.as_str(), refusal.as_str())
}

/// Whether a run has ended, or what still runs of it.
#[derive(Debug)]
pub enum PendingRunState {
    Terminal,
    NonTerminal(NonTerminalRun),
}

/// Whether a run with the given status and jobs has ended.
pub open spec fn has_ended(completed: bool, active: Seq<StewardJob>) -> bool {
    completed && active.len() == 0
}

/// Whether the run of a pending cancellation has ended. It is read before and
/// after its jobs, and its status must not have changed between.
pub fn read_pending_run(
    first: StewardRun,
    jobs: Vec<StewardJob>,
    last: &StewardRun,
    pending: &PendingCancellation,
) -> (r: Result<PendingRunState, String>)
    ensures
        ({
            let active = jobs@.filter(|job: StewardJob| active_status(job.status@));
            if last.status@ != first.status@ {
                r matches Err(e) && e@ == "pending cancellation run "@ + decimal(
                    pending.run_id as nat,
                ) + " changed status during exact observation"@
            } else if has_ended(same_ignoring_case(first.status@, "completed"@), active) {
                r == Ok::<PendingRunState, String>(PendingRunState::Terminal)
            } else {
                r matches Ok(PendingRunState::NonTerminal(run)) && run.status@ == first.status@
                    && run.jobs@ == active
            }
        }),
{
    let active = active_jobs(jobs);
    if !str_eq(last.status.as_str(), first.status.as_str()) {
        return Err(
            concat3(
                "pending cancellation run ",
                to_decimal(pending.run_id).as_str(),
                " changed status during exact observation",
            ),
        );
    }
    if eq_ignore_case(first.status.as_str(), "completed") && active.len() == 0 {
        Ok(PendingRunState::Terminal)
    } else {
        Ok(PendingRunState::NonTerminal(NonTerminalRun { status: first.status, jobs: active }))
    }
}

/// What a watcher of a run does after a read.
#[derive(Debug)]
pub enum Watch {
    /// The run has ended.
    Ended,
    /// The run has not ended in time.
    Running(NonTerminalRun),
    /// The run is read again after a pause, in milliseconds.
    Again(u64),
}

/// The pause before the next read: none that goes past the deadline.
pub open spec fn pause(now: u64, deadline: u64) -> u64 {
    if deadline <= now {
        0
    } else if deadline - now < CANCEL_TERMINAL_POLL {
        (deadline - now) as u64
    } else {
        CANCEL_TERMINAL_POLL
    }
}

fn pause_before(now: u64, deadline: u64) -> (r: u64)
    ensures
        r == pause(now, deadline),
{
    if deadline <= now {
        0
    } else if deadline - now < CANCEL_TERMINAL_POLL {
        deadline - now
    } else {
        CANCEL_TERMINAL_POLL
    }
}

/// Whether no read is left before the deadline.
pub open spec fn out_of_time(now: u64, deadline: u64) -> bool {
    now + CANCEL_TERMINAL_POLL >= deadline
}

fn is_out_of_time(now: u64, deadline: u64) -> (r: bool)
    ensures
        r == out_of_time(now, deadline),
{
    deadline <= CANCEL_TERMINAL_POLL || now >= deadline - CANCEL_TERMINAL_POLL
}

/// The time that is left for watching a run, in milliseconds of a steady clock.
pub fn watch_time_left(run_id: u64, now: u64, deadline: u64) -> (r: Result<u64, String>)
    ensures
        result_view(r) == if now < deadline {
            Ok::<u64, Seq<char>>((deadline - now) as u64)
        } else {
            Err(
                "cancel terminalization for run "@ + decimal(run_id as nat)
                    + " reached its deadline"@,
            )
        },
{
    if now < deadline {
        Ok(deadline - now)
    } else {
        Err(
            concat3(
                "cancel terminalization for run ",
                to_decimal(run_id).as_str(),
                " reached its deadline",
            ),
        )
    }
}

/// The time that is left for reading the jobs of a run, in milliseconds of a steady
/// clock.
pub fn job_fetch_time_left(run_id: u64, now: u64, deadline: u64) -> (r: Result<u64, String>)
    ensures
        result_view(r) == if now < deadline {
            Ok::<u64, Seq<char>>((deadline - now) as u64)
        } else {
            Err("workflow run "@ + decimal(run_id as nat) + " job fetch timed out"@)
        },
{
    if now < deadline {
        Ok(deadline - now)
    } else {
        Err(concat3("workflow run ", to_decimal(run_id).as_str(), " job fetch timed out"))
    }
}

/// The status of a cancelled run that is watched.
pub fn watched_status(response: &Json) -> (r: Result<String, String>)
    ensures
        match response@.text_at("status"@) {
            Some(status) => r matches Ok(found) && found@ == status,
            None => r matches Err(e) && e@ == "cancel terminalization response missing status"@,
        },
{
    match response.text_field("status") {
        Some(status) => Ok(status.clone()),
        None => Err("cancel terminalization response missing status".to_owned()),
    }
}

/// What a watcher does after a read: it ends, gives the run up as still running, or
/// looks again after a pause.
pub enum WatchTurn {
    End,
    Give,
    Look(u64),
}

/// What a watcher does after a read that found the run ended or not.
pub open spec fn watch_turn(ended: bool, now: u64, deadline: u64) -> WatchTurn {
    if ended {
        WatchTurn::End
    } else if out_of_time(now, deadline) {
        WatchTurn::Give
    } else {
        WatchTurn::Look(pause(now, deadline))
    }
}

/// A watcher ends exactly when the run has ended, also at the last moment; a run that
/// goes on is given up exactly when no further look fits before the deadline, and is
/// otherwise looked at again, later than now and before the deadline.
pub proof fn a_watch_ends_with_the_run_or_the_deadline(ended: bool, now: u64, deadline: u64)
    ensures
        watch_turn(ended, now, deadline) is End <==> ended,
        watch_turn(ended, now, deadline) is Give <==> !ended && deadline - now <= 2_000,
        watch_turn(ended, now, deadline) matches WatchTurn::Look(ms) ==> 0 < ms && now + ms
            < deadline && ms <= 2_000,
{
}

/// A run has ended exactly when it is completed and none of its jobs is active; the jobs
/// that are told of a run that goes on are its active ones.
pub proof fn a_run_ends_with_its_last_job(completed: bool, jobs: Seq<StewardJob>)
    ensures
        has_ended(completed, jobs.filter(|job: StewardJob| active_status(job.status@)))
            <==> completed && (forall|i: int|
            0 <= i < jobs.len() ==> !active_status((#[trigger] jobs[i]).status@)),
{
    broadcast use vstd::seq_lib::group_filter_ensures;

    let p = |job: StewardJob| active_status(job.status@);
    let active = jobs.filter(p);
    if active.len() == 0 {
        assert forall|i: int| 0 <= i < jobs.len() implies !active_status(
            (#[trigger] jobs[i]).status@,
        ) by {
            if active_status(jobs[i].status@) {
                assert(p(jobs[i]));
                assert(active.contains(jobs[i]));
            }
        }
    }
    if forall|i: int| 0 <= i < jobs.len() ==> !active_status((#[trigger] jobs[i]).status@) {
        assert forall|i: int| 0 <= i < jobs.len() implies !p(#[trigger] jobs[i]) by {}
        no_job_is_kept(jobs, p);
    }
}

proof fn no_job_is_kept(jobs: Seq<StewardJob>, p: spec_fn(StewardJob) -> bool)
    requires
        forall|i: int| 0 <= i < jobs.len() ==> !p(#[trigger] jobs[i]),
    ensures
        jobs.filter(p).len() == 0,
    decreases jobs.len(),
{
    reveal(Seq::filter);
    if jobs.len() > 0 {
        let before = jobs.drop_last();
        assert forall|i: int| 0 <= i < before.len() implies !p(#[trigger] before[i]) by {
            assert(before[i] == jobs[i]);
        }
        no_job_is_kept(before, p);
        assert(!p(jobs[jobs.len() - 1]));
    }
}

/// What a watcher of a cancelled run does after it has read the run and its
/// jobs.
pub fn wait_for_run_terminalization(
    response: &Json,
    jobs: Vec<StewardJob>,
    now: u64,
    deadline: u64,
) -> (r: Result<Watch, String>)
    ensures
        ({
            let active = jobs@.filter(|job: StewardJob| active_status(job.status@));
            match response@.text_at("status"@) {
                None => r matches Err(e) && e@
                    == "cancel terminalization response missing status"@,
                Some(status) => match watch_turn(
                    has_ended(status == "completed"@, active),
                    now,
                    deadline,
                ) {
                    WatchTurn::End => r == Ok::<Watch, String>(Watch::Ended),
                    WatchTurn::Give => r matches Ok(Watch::Running(run)) && run.status@ == status
                        && run.jobs@ == active,
                    WatchTurn::Look(ms) => r == Ok::<Watch, String>(Watch::Again(ms)),
                },
            }
        }),
{
    let status = match watched_status(response) {
        Ok(status) => status,
        Err(error) => return Err(error),
    };
    let active = active_jobs(jobs);
    if str_eq(status.as_str(), "completed") && active.len() == 0 {
        return Ok(Watch::Ended);
    }
    if is_out_of_time(now, deadline) {
        return Ok(Watch::Running(NonTerminalRun { status, jobs: active }));
    }
    Ok(Watch::Again(pause_before(now, deadline)))
}

/// What a watcher of the run of a pending cancellation does after a read.
pub fn wait_for_pending_terminalization(
    state: PendingRunState,
    now: u64,
    deadline: u64,
) -> (r: Watch)
    ensures
        match watch_turn(state is Terminal, now, deadline) {
            WatchTurn::End => r is Ended,
            WatchTurn::Give => state matches PendingRunState::NonTerminal(run) && r
                == Watch::Running(run),
            WatchTurn::Look(ms) => r == Watch::Again(ms),
        },
{
    match state {
        PendingRunState::Terminal => Watch::Ended,
        PendingRunState::NonTerminal(run) => if is_out_of_time(now, deadline) {
            Watch::Running(run)
        } else {
            Watch::Again(pause_before(now, deadline))
        },
    }
}

/// How long ago a cancellation was begun, in nanoseconds: no time where its
/// beginning cannot be read or is still to come.
pub open spec fn elapsed_since(initiated_at: Seq<char>, now: Instant) -> int {
    match instant_of(initiated_at) {
        Some(started) => if now.since(started) > 0 {
            now.since(started)
        } else {
            0
        },
        None => 0,
    }
}

/// How long the run of an accepted cancellation is still watched, in
/// milliseconds, rounded up; `None` where it is read once more and not waited
/// for.
pub fn wait_for_pending_normal_terminalization(initiated_at: &str, now: &Instant) -> (r: Option<
    u64,
>)
    ensures
        ({
            let left = CANCEL_TERMINAL_WAIT * 1_000_000 - elapsed_since(initiated_at@, *now);
            match r {
                None => left <= 0,
                Some(ms) => left > 0 && (ms - 1) * 1_000_000 < left <= ms * 1_000_000,
            }
        }),
{
    let elapsed: i128 = match parse_time(initiated_at) {
        Some(started) => {
            let nanos: i128 = now.nanos_since(&started);
            if nanos > 0 {
                nanos
            } else {
                0
            }
        },
        None => 0,
    };
    if elapsed >= 15_000_000_000 {
        None
    } else {
        let left: u64 = 15_000_000_000 - elapsed as u64;
        Some((left + 999_999) / 1_000_000)
    }
}

/// Whom a cancellation speaks for: the pull request, its branch and its head.
#[derive(Debug)]
pub struct ShipIdentity {
    pub pr_number: u64,
    pub repo: String,
    pub branch: String,
    pub base: String,
    pub head_sha: String,
    pub writer: String,
}

/// Whom a pending cancellation speaks for.
pub fn pending_cancellation_ship_state(pending: &PendingCancellation) -> (r: ShipIdentity)
    ensures
        r.pr_number == pending.pr_number,
        r.repo@ == pending.repo@,
        r.branch@ == pending.head_branch@,
        r.base@ == pending.base@,
        r.head_sha@ == pending.head_sha@,
        r.writer@ == "runner-steward"@,
{
    ShipIdentity {
        pr_number: pending.pr_number,
        repo: pending.repo.clone(),
        branch: pending.head_branch.clone(),
        base: pending.base.clone(),
        head_sha: pending.head_sha.clone(),
        writer: "runner-steward".to_owned(),
    }
}

/// The record whose run is about to be cancelled by force.
pub fn revalidate_force_cancel_attempt(ledger: &StewardLedger, repo: &str, run_id: u64) -> (r:
    Result<PendingCancellation, String>)
    ensures
        match r {
            Ok(found) => exists|i: int| #[trigger]
                first_of_run(ledger.pending_cancellations.values(), repo@, run_id, i)
                    && ledger.pending_cancellations.values()[i]@ == found@,
            Err(e) => !run_pending(ledger.pending_cancellations.values(), repo@, run_id) && e@
                == "pending cancellation record disappeared before force-cancel"@,
        },
{
    match find_pending(&ledger.pending_cancellations, repo, run_id) {
        Some(i) => {
            proof {
                assert(first_of_run(ledger.pending_cancellations.values(), repo@, run_id, i as int));
            }
            Ok(ledger.pending_cancellations.value_at(i).dup())
        },
        None => Err("pending cancellation record disappeared before force-cancel".to_owned()),
    }
}

/// The name under which an uncertain request is resolved.
pub open spec fn recovery_note(kind: crate::ledger::PendingMutationKind) -> Seq<char> {
    match kind {
        crate::ledger::PendingMutationKind::NormalCancel => "steward durable NormalCancel recovery"@,
        crate::ledger::PendingMutationKind::ForceCancel => "steward durable ForceCancel recovery"@,
    }
}

/// The name under which an uncertain request is resolved.
pub fn supersede_pending_uncertainty(pending: &PendingCancellation) -> (r: &'static str)
    ensures
        r@ == recovery_note(pending.mutation_kind),
{
    match pending.mutation_kind {
        crate::ledger::PendingMutationKind::NormalCancel => "steward durable NormalCancel recovery",
        crate::ledger::PendingMutationKind::ForceCancel => "steward durable ForceCancel recovery",
    }
}

/// The time since the beginning of a cancellation is never negative, and is the true
/// time for a beginning that can be read and lies in the past.
pub proof fn elapsed_time_is_counted_from_the_beginning(initiated_at: Seq<char>, now: Instant)
    ensures
        elapsed_since(initiated_at, now) >= 0,
        instant_of(initiated_at) matches Some(started) ==> elapsed_since(initiated_at, now)
            >= now.since(started) && (elapsed_since(initiated_at, now) > 0 ==> elapsed_since(
            initiated_at,
            now,
        ) == now.since(started)),
        instant_of(initiated_at) is None ==> elapsed_since(initiated_at, now) == 0,
{
}

/// The run that is read is the one of the pending cancellation exactly when nothing that
/// identifies it has changed, and only then does the cancellation go on.
pub proof fn only_the_pending_attempt_is_acted_on(
    run: Option<RunView>,
    pending: PendingCancellation,
)
    ensures
        identity_refusal(run, pending) is None <==> (run matches Some(view) && view.id
            == pending.run_id && view.workflow_id == pending.workflow_id && view.run_attempt
            == pending.run_attempt && same_ignoring_case(view.head_sha, pending.head_sha@)
            && view.head_branch == pending.head_branch@),
        current_attempt(run, pending) is Err <==> run is None,
{
}

} // verus!
