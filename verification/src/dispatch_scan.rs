//! The scan of a merge group for queued jobs that no runner takes: its runs, their
//! jobs and the details of those that could be stuck, in their order.
use std::collections::BTreeMap;

use vstd::prelude::*;

use crate::dispatch::{
    dispatch_job_authority, is_group_run, job_passed_over, of_group, requires_name, tells_job,
    unassigned, wants_detail, DispatchJobAuthority, TargetGroup,
};
use crate::json::Json;
use crate::model::{RepoObservation, StewardJob};
use crate::observation::{job_of, parse_job, JobCheckProducer};
use crate::text::result_view;

verus! {

broadcast use vstd::std_specs::btree::group_btree_axioms;

/// The steps of a scan.
#[derive(Clone, Copy, Debug, PartialEq, Eq, Structural)]
pub enum ScanStep {
    /// Read who made the checks of the group's head.
    Producers,
    /// Read the jobs of a run of the group.
    Jobs,
    /// Read the detail of a job.
    Detail,
    /// Nothing: the scan is over.
    Over,
}

/// What came of a step.
#[derive(Debug)]
pub enum ScanReply {
    Producers(Result<BTreeMap<u64, JobCheckProducer>, String>),
    Jobs(Result<Vec<StewardJob>, String>),
    /// The detail of a job, and when it was read.
    Detail(Result<Json, String>, String),
}

/// Where a scan stands.
pub struct ScanView {
    pub observation: RepoObservation,
    pub group: TargetGroup,
    pub step: ScanStep,
    pub producers: Map<u64, JobCheckProducer>,
    /// The position of the run whose jobs are looked at.
    pub run: int,
    pub jobs: Seq<StewardJob>,
    /// The position of the job that is looked at.
    pub job: int,
    pub found: Seq<DispatchJobAuthority>,
    pub outcome: Option<Result<(), Seq<char>>>,
}

impl ScanView {
    /// The scan at its end.
    pub open spec fn over(self, outcome: Result<(), Seq<char>>) -> ScanView {
        ScanView { step: ScanStep::Over, outcome: Some(outcome), ..self }
    }

    /// The scan at the next run of the group, from a position on, or at its end.
    pub open spec fn seek_run(self, from: int) -> ScanView
        decreases self.observation.runs@.len() - from,
    {
        if from < 0 || from >= self.observation.runs@.len() {
            self.over(Ok(()))
        } else if of_group(self.observation.runs@[from], self.group.merge_group_head@) {
            ScanView { step: ScanStep::Jobs, run: from, ..self }
        } else {
            self.seek_run(from + 1)
        }
    }

    /// The scan at the next job that waits for a runner under a required name, from a
    /// position on, or at the next run.
    pub open spec fn seek_job(self, from: int) -> ScanView
        decreases self.jobs.len() - from,
    {
        if from < 0 || from >= self.jobs.len() {
            self.seek_run(self.run + 1)
        } else if unassigned(self.jobs[from]) && requires_name(
            self.observation.required_checks@,
            self.jobs[from].name@,
        ) {
            ScanView { step: ScanStep::Detail, job: from, ..self }
        } else {
            self.seek_job(from + 1)
        }
    }

    /// Whether a scan stands where its step can be taken.
    pub open spec fn sound(self) -> bool {
        &&& self.group.pr < self.observation.prs@.len()
        &&& (self.step == ScanStep::Jobs || self.step == ScanStep::Detail) ==> 0 <= self.run
            < self.observation.runs@.len()
        &&& self.step == ScanStep::Detail ==> 0 <= self.job < self.jobs.len()
        &&& self.step == ScanStep::Over <==> self.outcome is Some
    }
}

/// Whether a scan is what the detail of a job made of an earlier one: what is stuck
/// is added, and the scan goes on.
pub open spec fn detail_told(
    scan: ScanView,
    detail: StewardJob,
    at: Seq<char>,
    after: ScanView,
) -> bool {
    let run = scan.observation.runs@[scan.run];
    let listed = scan.jobs[scan.job];
    ||| {
        &&& job_passed_over(scan.observation, run, listed, detail, scan.producers)
        &&& after == scan.seek_job(scan.job + 1)
    }
    ||| exists|a: DispatchJobAuthority| #[trigger]
        tells_job(a, scan.observation, scan.group, run, listed, detail, scan.producers, at)
            && after == ScanView { found: scan.found.push(a), ..scan }.seek_job(scan.job + 1)
}

/// Whether a scan is what a reply made of an earlier one. Any read that fails ends
/// it. A reply that belongs to another step changes nothing.
pub open spec fn scan_step(scan: ScanView, reply: ScanReply, after: ScanView) -> bool {
    match (scan.step, reply) {
        (ScanStep::Producers, ScanReply::Producers(read)) => after == match read {
            Ok(producers) => ScanView { producers: producers@, ..scan }.seek_run(0),
            Err(error) => scan.over(Err(error@)),
        },
        (ScanStep::Jobs, ScanReply::Jobs(read)) => after == match read {
            Ok(jobs) => ScanView { jobs: jobs@, ..scan }.seek_job(0),
            Err(error) => scan.over(Err(error@)),
        },
        (ScanStep::Detail, ScanReply::Detail(read, at)) => match read {
            Ok(document) => match job_of(document@) {
                Ok(view) => exists|detail: StewardJob|
                    detail@ == view && #[trigger] detail_told(scan, detail, at@, after),
                Err(error) => after == scan.over(Err(error)),
            },
            Err(error) => after == scan.over(Err(error@)),
        },
        _ => after == scan,
    }
}

/// What a scan holds.
#[derive(Debug)]
struct Parts<'a> {
    observation: &'a RepoObservation,
    group: &'a TargetGroup,
    step: ScanStep,
    producers: BTreeMap<u64, JobCheckProducer>,
    run: usize,
    jobs: Vec<StewardJob>,
    job: usize,
    found: Vec<DispatchJobAuthority>,
    outcome: Option<Result<(), String>>,
}

/// The scan of one merge group.
#[derive(Debug)]
pub struct DispatchScan<'a> {
    parts: Parts<'a>,
}

impl<'a> View for DispatchScan<'a> {
    type V = ScanView;

    closed spec fn view(&self) -> ScanView {
        self.parts.shown()
    }
}

impl<'a> Parts<'a> {
    spec fn shown(self) -> ScanView {
        ScanView {
            observation: *self.observation,
            group: *self.group,
            step: self.step,
            producers: self.producers@,
            run: self.run as int,
            jobs: self.jobs@,
            job: self.job as int,
            found: self.found@,
            outcome: match self.outcome {
                Some(outcome) => Some(result_view(outcome)),
                None => None,
            },
        }
    }

    /// Ends the scan.
    fn end(&mut self, outcome: Result<(), String>)
        ensures
            final(self).shown() == old(self).shown().over(result_view(outcome)),
    {
        self.step = ScanStep::Over;
        self.outcome = Some(outcome);
    }

    /// Goes to the next run of the group.
    fn seek_run(&mut self, from: usize)
        ensures
            final(self).shown() == old(self).shown().seek_run(from as int),
    {
        let ghost start = self.shown();
        let mut i: usize = from;
        while i < self.observation.runs.len()
            invariant
                self.shown() == start,
                start == old(self).shown(),
                start.seek_run(from as int) == start.seek_run(i as int),
            decreases self.observation.runs.len() - i,
        {
            if is_group_run(&self.observation.runs[i], self.group.merge_group_head.as_str()) {
                self.step = ScanStep::Jobs;
                self.run = i;
                return ;
            }
            i = i + 1;
        }
        self.end(Ok(()));
    }

    /// Goes to the next job that could be stuck.
    fn seek_job(&mut self, from: usize)
        requires
            old(self).run < old(self).observation.runs@.len(),
        ensures
            final(self).shown() == old(self).shown().seek_job(from as int),
    {
        let ghost start = self.shown();
        let n: usize = self.observation.runs.len();
        let mut i: usize = from;
        while i < self.jobs.len()
            invariant
                self.shown() == start,
                start == old(self).shown(),
                start.seek_job(from as int) == start.seek_job(i as int),
                self.run < n,
            decreases self.jobs.len() - i,
        {
            if wants_detail(&self.jobs[i], &self.observation.required_checks) {
                self.step = ScanStep::Detail;
                self.job = i;
                return ;
            }
            i = i + 1;
        }
        let next: usize = self.run + 1;
        self.seek_run(next);
    }

    /// Goes on once the detail of a job was read.
    fn detail_read(&mut self, detail: StewardJob, at: &str)
        requires
            old(self).shown().sound(),
            old(self).step == ScanStep::Detail,
        ensures
            detail_told(old(self).shown(), detail, at@, final(self).shown()),
    {
        let ghost before = self.shown();
        let told = dispatch_job_authority(
            self.observation,
            self.group,
            &self.observation.runs[self.run],
            &self.jobs[self.job],
            &detail,
            &self.producers,
            at,
        );
        let n: usize = self.jobs.len();
        let next: usize = self.job + 1;
        match told {
            Some(authority) => {
                self.found.push(authority);
                proof {
                    assert(self.shown() == ScanView {
                        found: before.found.push(authority),
                        ..before
                    });
                }
                self.seek_job(next);
            },
            None => self.seek_job(next),
        }
    }
}

proof fn runs_are_sought(scan: ScanView, from: int)
    requires
        0 <= from,
        scan.outcome is None,
        scan.group.pr < scan.observation.prs@.len(),
    ensures
        scan.seek_run(from).sound(),
        scan.seek_run(from).found == scan.found,
    decreases scan.observation.runs@.len() - from,
{
    if from < scan.observation.runs@.len() && !of_group(
        scan.observation.runs@[from],
        scan.group.merge_group_head@,
    ) {
        runs_are_sought(scan, from + 1);
    }
}

proof fn jobs_are_sought(scan: ScanView, from: int)
    requires
        0 <= from,
        0 <= scan.run < scan.observation.runs@.len(),
        scan.outcome is None,
        scan.group.pr < scan.observation.prs@.len(),
    ensures
        scan.seek_job(from).sound(),
        scan.seek_job(from).found == scan.found,
    decreases scan.jobs.len() - from,
{
    if from >= scan.jobs.len() {
        runs_are_sought(scan, scan.run + 1);
    } else if !(unassigned(scan.jobs[from]) && requires_name(
        scan.observation.required_checks@,
        scan.jobs[from].name@,
    )) {
        jobs_are_sought(scan, from + 1);
    }
}

/// A reply keeps a scan sound, and what was found before stays found.
pub proof fn scan_step_is_sound(scan: ScanView, reply: ScanReply, after: ScanView)
    requires
        scan.sound(),
        scan_step(scan, reply, after),
    ensures
        after.sound(),
        scan.found.len() <= after.found.len() <= scan.found.len() + 1,
        after.found.take(scan.found.len() as int) == scan.found,
{
    assert(scan.found.take(scan.found.len() as int) =~= scan.found);
    if scan.step == ScanStep::Producers {
        if let ScanReply::Producers(Ok(producers)) = reply {
            runs_are_sought(ScanView { producers: producers@, ..scan }, 0);
        }
    }
    if scan.step == ScanStep::Jobs {
        if let ScanReply::Jobs(Ok(jobs)) = reply {
            jobs_are_sought(ScanView { jobs: jobs@, ..scan }, 0);
        }
    }
    if scan.step == ScanStep::Detail {
        jobs_are_sought(scan, scan.job + 1);
        if let ScanReply::Detail(Ok(document), at) = reply {
            if let Ok(view) = job_of(document@) {
                let detail = choose|detail: StewardJob|
                    detail@ == view && #[trigger] detail_told(scan, detail, at@, after);
                let run = scan.observation.runs@[scan.run];
                let listed = scan.jobs[scan.job];
                if after != scan.seek_job(scan.job + 1) {
                    let a = choose|a: DispatchJobAuthority| #[trigger]
                        tells_job(
                            a,
                            scan.observation,
                            scan.group,
                            run,
                            listed,
                            detail,
                            scan.producers,
                            at@,
                        ) && after == ScanView {
                            found: scan.found.push(a),
                            ..scan
                        }.seek_job(scan.job + 1);
                    jobs_are_sought(
                        ScanView { found: scan.found.push(a), ..scan },
                        scan.job + 1,
                    );
                    assert(scan.found.push(a).take(scan.found.len() as int) =~= scan.found);
                }
            }
        }
    }
}

/// What a scan asks for.
#[derive(Clone, Copy, Debug, PartialEq, Eq, Structural)]
pub enum ScanAction {
    ReadProducers,
    /// Read the jobs of the run at this position.
    ReadJobs(usize),
    /// Read the detail of the job with this number.
    ReadDetail(u64),
    /// Nothing: the scan is over.
    Over,
}

impl<'a> DispatchScan<'a> {
    #[verifier::type_invariant]
    spec fn kept(self) -> bool {
        self@.sound()
    }

    /// A scan that begins; `None` where the group is of no observed pull request.
    pub fn new(observation: &'a RepoObservation, group: &'a TargetGroup) -> (r: Option<Self>)
        ensures
            match r {
                Some(scan) => {
                    &&& group.pr < observation.prs@.len()
                    &&& scan@.sound()
                    &&& scan@.observation == *observation
                    &&& scan@.group == *group
                    &&& scan@.step == ScanStep::Producers
                    &&& scan@.found.len() == 0
                },
                None => group.pr >= observation.prs@.len(),
            },
    {
        if group.pr >= observation.prs.len() {
            return None;
        }
        let parts = Parts {
            observation,
            group,
            step: ScanStep::Producers,
            producers: BTreeMap::new(),
            run: 0,
            jobs: Vec::new(),
            job: 0,
            found: Vec::new(),
            outcome: None,
        };
        Some(DispatchScan { parts })
    }

    /// What the scan asks for.
    pub fn action(&self) -> (r: ScanAction)
        ensures
            r == match self@.step {
                ScanStep::Producers => ScanAction::ReadProducers,
                ScanStep::Jobs => ScanAction::ReadJobs(self@.run as usize),
                ScanStep::Detail => ScanAction::ReadDetail(self@.jobs[self@.job].id),
                ScanStep::Over => ScanAction::Over,
            },
            r matches ScanAction::ReadJobs(i) ==> i == self@.run && i
                < self@.observation.runs@.len(),
    {
        proof {
            use_type_invariant(self);
        }
        match self.parts.step {
            ScanStep::Producers => ScanAction::ReadProducers,
            ScanStep::Jobs => ScanAction::ReadJobs(self.parts.run),
            ScanStep::Detail => ScanAction::ReadDetail(self.parts.jobs[self.parts.job].id),
            ScanStep::Over => ScanAction::Over,
        }
    }
}

/// Takes the scan of a merge group one reply further.
pub fn collect_dispatch_wedge_job_observations<'a>(scan: DispatchScan<'a>, reply: ScanReply) -> (r:
    DispatchScan<'a>)
    ensures
        scan_step(scan@, reply, r@),
        r@.sound(),
{
    proof {
        use_type_invariant(&scan);
    }
    let ghost before = scan@;
    let ghost given = reply;
    let DispatchScan { parts } = scan;
    let mut parts = parts;
    match (parts.step, reply) {
        (ScanStep::Producers, ScanReply::Producers(read)) => match read {
            Ok(producers) => {
                parts.producers = producers;
                parts.seek_run(0);
            },
            Err(error) => parts.end(Err(error)),
        },
        (ScanStep::Jobs, ScanReply::Jobs(read)) => match read {
            Ok(jobs) => {
                parts.jobs = jobs;
                parts.seek_job(0);
            },
            Err(error) => parts.end(Err(error)),
        },
        (ScanStep::Detail, ScanReply::Detail(read, at)) => match read {
            Ok(document) => match parse_job(&document) {
                Ok(detail) => {
                    parts.detail_read(detail, at.as_str());
                    proof {
                        assert(detail_told(before, detail, at@, parts.shown()));
                    }
                },
                Err(error) => parts.end(Err(error)),
            },
            Err(error) => parts.end(Err(error)),
        },
        _ => {},
    }
    proof {
        scan_step_is_sound(before, given, parts.shown());
    }
    DispatchScan { parts }
}

/// What a scan that is over has found, or why it failed; one that is not over goes on.
pub fn finish_dispatch_scan<'a>(scan: DispatchScan<'a>) -> (r: Result<
    Result<Vec<DispatchJobAuthority>, String>,
    DispatchScan<'a>,
>)
    ensures
        match r {
            Ok(Ok(found)) => scan@.outcome == Some(Ok::<(), Seq<char>>(())) && found@
                == scan@.found,
            Ok(Err(error)) => scan@.outcome == Some(Err::<(), Seq<char>>(error@)),
            Err(rest) => scan@.outcome is None && rest == scan,
        },
{
    proof {
        use_type_invariant(&scan);
    }
    if scan.parts.outcome.is_none() {
        return Err(scan);
    }
    let DispatchScan { parts } = scan;
    match parts.outcome {
        Some(Err(error)) => Ok(Err(error)),
        _ => Ok(Ok(parts.found)),
    }
}

/// The run that is looked at next is the first of the merge group from there on, and a scan
/// ends well once none is left.
pub proof fn no_group_run_is_passed_over(scan: ScanView, from: int)
    requires
        0 <= from,
    ensures
        ({
            let next = scan.seek_run(from);
            let runs = scan.observation.runs@;
            &&& next.step == ScanStep::Jobs || next.step == ScanStep::Over
            &&& next.step == ScanStep::Jobs ==> from <= next.run < runs.len() && of_group(
                runs[next.run],
                scan.group.merge_group_head@,
            ) && (forall|k: int|
                from <= k < next.run ==> !of_group(
                    #[trigger] runs[k],
                    scan.group.merge_group_head@,
                ))
            &&& next.step == ScanStep::Over ==> next.outcome == Some(Ok::<(), Seq<char>>(())) && (
            forall|k: int|
                from <= k < runs.len() ==> !of_group(
                    #[trigger] runs[k],
                    scan.group.merge_group_head@,
                ))
            &&& next.found == scan.found && next.producers == scan.producers
        }),
    decreases scan.observation.runs@.len() - from,
{
    if from < scan.observation.runs@.len() && !of_group(
        scan.observation.runs@[from],
        scan.group.merge_group_head@,
    ) {
        no_group_run_is_passed_over(scan, from + 1);
    }
}

/// The job that is read next is the first unassigned required one from there on; where none
/// is left, the scan goes on to the next run.
pub proof fn no_stuck_job_is_passed_over(scan: ScanView, from: int)
    requires
        0 <= from,
        0 <= scan.run,
    ensures
        ({
            let next = scan.seek_job(from);
            let checks = scan.observation.required_checks@;
            &&& next.step == ScanStep::Detail ==> from <= next.job < scan.jobs.len() && next.run
                == scan.run && unassigned(scan.jobs[next.job]) && requires_name(
                checks,
                scan.jobs[next.job].name@,
            ) && (forall|k: int|
                from <= k < next.job ==> !(unassigned(#[trigger] scan.jobs[k]) && requires_name(
                    checks,
                    scan.jobs[k].name@,
                )))
            &&& next.step != ScanStep::Detail ==> next == scan.seek_run(scan.run + 1) && (forall|k: int|
                from <= k < scan.jobs.len() ==> !(unassigned(#[trigger] scan.jobs[k])
                    && requires_name(checks, scan.jobs[k].name@)))
            &&& next.found == scan.found
        }),
    decreases scan.jobs.len() - from,
{
    if from < scan.jobs.len() {
        if !(unassigned(scan.jobs[from]) && requires_name(
            scan.observation.required_checks@,
            scan.jobs[from].name@,
        )) {
            no_stuck_job_is_passed_over(scan, from + 1);
        }
    } else {
        no_group_run_is_passed_over(scan, scan.run + 1);
    }
}

/// What cannot be read ends the scan with its error, and nothing else does but a malformed
/// job.
pub proof fn a_scan_tells_what_failed(scan: ScanView, reply: ScanReply, after: ScanView)
    requires
        scan.sound(),
        scan_step(scan, reply, after),
    ensures
        scan.step == ScanStep::Producers ==> (reply matches ScanReply::Producers(Err(error))
            ==> after.outcome == Some(Err::<(), Seq<char>>(error@))),
        scan.step == ScanStep::Jobs ==> (reply matches ScanReply::Jobs(Err(error))
            ==> after.outcome == Some(Err::<(), Seq<char>>(error@))),
        scan.step == ScanStep::Detail ==> (reply matches ScanReply::Detail(Err(error), _)
            ==> after.outcome == Some(Err::<(), Seq<char>>(error@))),
        scan.step == ScanStep::Producers ==> (reply matches ScanReply::Producers(Ok(_))
            ==> !(after.outcome matches Some(Err(_)))),
        scan.step == ScanStep::Jobs ==> (reply matches ScanReply::Jobs(Ok(_)) ==> !(after.outcome
            matches Some(Err(_)))),
{
    if let ScanReply::Producers(Ok(producers)) = reply {
        no_group_run_is_passed_over(ScanView { producers: producers@, ..scan }, 0);
        seeking_tells_no_error(ScanView { producers: producers@, ..scan }, 0);
    }
    if let ScanReply::Jobs(Ok(jobs)) = reply {
        if scan.step == ScanStep::Jobs {
            let listed = ScanView { jobs: jobs@, ..scan };
            no_stuck_job_is_passed_over(listed, 0);
            no_group_run_is_passed_over(listed, listed.run + 1);
            seeking_tells_no_error(listed, listed.run + 1);
            seeking_jobs_tells_no_error(listed, 0);
        }
    }
}

proof fn seeking_tells_no_error(scan: ScanView, from: int)
    ensures
        scan.outcome is None ==> !(scan.seek_run(from).outcome matches Some(Err(_))),
    decreases scan.observation.runs@.len() - from,
{
    if 0 <= from < scan.observation.runs@.len() && !of_group(
        scan.observation.runs@[from],
        scan.group.merge_group_head@,
    ) {
        seeking_tells_no_error(scan, from + 1);
    }
}

proof fn seeking_jobs_tells_no_error(scan: ScanView, from: int)
    ensures
        scan.outcome is None ==> !(scan.seek_job(from).outcome matches Some(Err(_))),
    decreases scan.jobs.len() - from,
{
    if 0 <= from < scan.jobs.len() {
        if !(unassigned(scan.jobs[from]) && requires_name(
            scan.observation.required_checks@,
            scan.jobs[from].name@,
        )) {
            seeking_jobs_tells_no_error(scan, from + 1);
        }
    } else {
        seeking_tells_no_error(scan, scan.run + 1);
    }
}

} // verus!
