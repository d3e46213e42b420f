//! Working off the recoveries that were asked for: who may, in which order, and
//! what is told.
use vstd::prelude::*;

use crate::guard::ends_with_its_end;
use crate::model::{fails, CliFailure};
use crate::text::{concat, concat5, has_suffix};

verus! {

/// How many requests are worked off at once, at most.
pub const MAX_DRAIN_REQUESTS: usize = 32;

/// The components of a path.
pub open spec fn components(path: Seq<Vec<u8>>) -> Seq<Seq<u8>> {
    Seq::new(path.len(), |i: int| path[i]@)
}

fn same_bytes(a: &Vec<u8>, b: &Vec<u8>) -> (r: bool)
    ensures
        r == (a@ == b@),
{
    if a.len() != b.len() {
        return false;
    }
    let mut i: usize = 0;
    while i < a.len()
        invariant
            i <= a.len(),
            a@.len() == b@.len(),
            forall|k: int| 0 <= k < i ==> a@[k] == b@[k],
        decreases a.len() - i,
    {
        if a[i] != b[i] {
            return false;
        }
        i = i + 1;
    }
    proof {
        assert(a@ =~= b@);
    }
    true
}

/// Whether two paths have the same components.
fn same_path(a: &Vec<Vec<u8>>, b: &Vec<Vec<u8>>) -> (r: bool)
    ensures
        r == (components(a@) == components(b@)),
{
    if a.len() != b.len() {
        proof {
            assert(components(a@).len() != components(b@).len());
        }
        return false;
    }
    let mut i: usize = 0;
    while i < a.len()
        invariant
            i <= a.len(),
            a@.len() == b@.len(),
            forall|k: int| 0 <= k < i ==> (#[trigger] a@[k])@ == b@[k]@,
        decreases a.len() - i,
    {
        if !same_bytes(&a[i], &b[i]) {
            proof {
                assert(components(a@)[i as int] != components(b@)[i as int]);
            }
            return false;
        }
        i = i + 1;
    }
    proof {
        assert(components(a@) =~= components(b@));
    }
    true
}

/// Refuses other places than the machine's own: neither policy nor the count of
/// attempts can be forked. Paths are compared by their components, and `shown_global`
/// and `shown_state` are the machine's own as they are told.
pub fn ensure_canonical_recovery_paths(
    global_dir: &Vec<Vec<u8>>,
    state_dir: &Vec<Vec<u8>>,
    canonical_global: &Vec<Vec<u8>>,
    canonical_state: &Vec<Vec<u8>>,
    shown_global: &str,
    shown_state: &str,
) -> (r: Result<(), CliFailure>)
    ensures
        if components(global_dir@) == components(canonical_global@) && components(state_dir@)
            == components(canonical_state@) {
            r is Ok
        } else {
            fails(
                r,
                1,
                "recovery-worker requires canonical machine-global paths (global="@
                    + shown_global@ + ", state="@ + shown_state@
                    + "); runtime mode and path overrides cannot fork policy or attempt accounting"@,
            )
        },
{
    if same_path(global_dir, canonical_global) && same_path(state_dir, canonical_state) {
        return Ok(());
    }
    Err(
        CliFailure::new(
            1,
            concat5(
                "recovery-worker requires canonical machine-global paths (global=",
                shown_global,
                ", state=",
                shown_state,
                "); runtime mode and path overrides cannot fork policy or attempt accounting",
            ).as_str(),
        ),
    )
}

/// What a worker is told.
#[derive(Clone, Copy, Debug)]
pub struct RecoveryWorkerCommandArgs {
    pub once: bool,
    pub drain: bool,
    pub apply: bool,
}

/// How many requests a worker works off.
pub fn recovery_worker_command(args: &RecoveryWorkerCommandArgs, enabled: bool) -> (r: Result<
    usize,
    CliFailure,
>)
    ensures
        if args.once && args.drain {
            fails(r, 2, "--once and --drain are mutually exclusive"@)
        } else if !enabled {
            fails(
                r,
                1,
                "[merge_steward.recovery_worker] is not enabled in machine-global config"@,
            )
        } else {
            r == Ok::<usize, CliFailure>(
                if args.drain {
                    MAX_DRAIN_REQUESTS
                } else {
                    1
                },
            )
        },
        r is Ok <==> enabled && !(args.once && args.drain),
        r matches Ok(limit) ==> (args.drain ==> limit == 32) && (!args.drain ==> limit == 1),
{
    if args.once && args.drain {
        return Err(CliFailure::new(2, "--once and --drain are mutually exclusive"));
    }
    if !enabled {
        return Err(
            CliFailure::new(
                1,
                "[merge_steward.recovery_worker] is not enabled in machine-global config",
            ),
        );
    }
    Ok(
        if args.drain {
            MAX_DRAIN_REQUESTS
        } else {
            1
        },
    )
}

/// What asking for a recovery does next.
#[derive(Clone, Copy, Debug, PartialEq, Eq, Structural)]
pub enum AskStage {
    /// Load the machine's policy.
    Policy,
    /// Make the request.
    Request,
    /// Open the store.
    Store,
    /// See that the lease covers the store.
    Lease,
    /// Put the request into the store.
    Enqueue,
    /// Read the request that was there.
    Reload,
    /// Write the witness.
    Witness,
}

/// What came of a step.
#[derive(Debug)]
pub enum AskReply {
    Done,
    Failed(String),
    /// The machine's policy could not be loaded.
    Unloadable(String),
    /// The machine does not ask for recoveries.
    Disabled,
    /// Whether the lease covers the store.
    Covers(bool),
    /// The request is new.
    Created,
    /// The request was there.
    Existing,
    /// Another request for the head was there.
    Taken(String),
    /// Whether the request that was there is still to be worked off.
    Open(bool),
}

/// What became of a request.
#[derive(Clone, Debug, PartialEq, Eq)]
pub enum RecoveryEnqueueDisposition {
    Disabled,
    Created(String),
    Existing(String),
}

/// A request under way.
#[derive(Debug)]
pub struct Ask {
    pub id: String,
    pub created: bool,
}

/// What comes of a step.
#[derive(Debug)]
pub enum AskStep {
    Next(AskStage),
    Answer(RecoveryEnqueueDisposition),
    Failed(CliFailure),
}

/// What comes of a step, in texts.
pub enum AskView {
    Next(AskStage),
    Disabled,
    Created(Seq<char>),
    Existing(Seq<char>),
    Failed(Seq<char>),
}

/// Whether a step shows a view.
pub open spec fn shows_step(step: AskStep, view: AskView) -> bool {
    match (step, view) {
        (AskStep::Next(a), AskView::Next(b)) => a == b,
        (AskStep::Answer(RecoveryEnqueueDisposition::Disabled), AskView::Disabled) => true,
        (AskStep::Answer(RecoveryEnqueueDisposition::Created(id)), AskView::Created(text)) => id@
            == text,
        (AskStep::Answer(RecoveryEnqueueDisposition::Existing(id)), AskView::Existing(text)) => id@
            == text,
        (AskStep::Failed(failure), AskView::Failed(text)) => failure.says(1, text),
        _ => false,
    }
}

/// What asking for a recovery does after a reply. A witness is written for a
/// request that is still to be worked off. A reply that belongs to another stage
/// changes nothing.
pub open spec fn ask_flow(ask: Ask, stage: AskStage, reply: AskReply) -> AskView {
    match (stage, reply) {
        (AskStage::Policy, AskReply::Done) => AskView::Next(AskStage::Request),
        (AskStage::Policy, AskReply::Disabled) => AskView::Disabled,
        (AskStage::Policy, AskReply::Unloadable(e)) => AskView::Failed(
            "failed to load trusted recovery-worker policy: "@ + e@,
        ),
        (AskStage::Request, AskReply::Done) => AskView::Next(AskStage::Store),
        (AskStage::Request, AskReply::Failed(e)) => AskView::Failed(
            "invalid recovery request: "@ + e@,
        ),
        (AskStage::Store, AskReply::Done) => AskView::Next(AskStage::Lease),
        (AskStage::Store, AskReply::Failed(e)) => AskView::Failed(
            "failed to open recovery store: "@ + e@,
        ),
        (AskStage::Lease, AskReply::Covers(true)) => AskView::Next(AskStage::Enqueue),
        (AskStage::Lease, AskReply::Covers(false)) => AskView::Failed(
            "recovery publication lease does not cover the canonical store"@,
        ),
        (AskStage::Enqueue, AskReply::Created) => AskView::Next(AskStage::Witness),
        (AskStage::Enqueue, AskReply::Existing) => AskView::Next(AskStage::Reload),
        (AskStage::Enqueue, AskReply::Taken(id)) => AskView::Existing(id@),
        (AskStage::Enqueue, AskReply::Failed(e)) => AskView::Failed(
            "failed to enqueue recovery request: "@ + e@,
        ),
        (AskStage::Reload, AskReply::Open(true)) => AskView::Next(AskStage::Witness),
        (AskStage::Reload, AskReply::Open(false)) => AskView::Existing(ask.id@),
        (AskStage::Reload, AskReply::Failed(e)) => AskView::Failed(
            "failed to reload recovery request: "@ + e@,
        ),
        (AskStage::Witness, AskReply::Done) => if ask.created {
            AskView::Created(ask.id@)
        } else {
            AskView::Existing(ask.id@)
        },
        (_, AskReply::Failed(e)) => AskView::Failed(e@),
        _ => AskView::Next(stage),
    }
}

fn ask_failed(prefix: &str, error: &str) -> (r: AskStep)
    ensures
        shows_step(r, AskView::Failed(prefix@ + error@)),
{
    AskStep::Failed(CliFailure::new(1, concat(prefix, error).as_str()))
}

/// What asking for a recovery does after a reply.
pub fn enqueue_recovery_request(ask: &mut Ask, stage: AskStage, reply: AskReply) -> (r: AskStep)
    ensures
        shows_step(r, ask_flow(*old(ask), stage, reply)),
        final(ask).id == old(ask).id,
        final(ask).created == match (stage, reply) {
            (AskStage::Enqueue, AskReply::Created) => true,
            (AskStage::Enqueue, AskReply::Existing) => false,
            _ => old(ask).created,
        },
{
    match (stage, reply) {
        (AskStage::Policy, AskReply::Done) => AskStep::Next(AskStage::Request),
        (AskStage::Policy, AskReply::Disabled) => AskStep::Answer(
            RecoveryEnqueueDisposition::Disabled,
        ),
        (AskStage::Policy, AskReply::Unloadable(error)) => ask_failed(
            "failed to load trusted recovery-worker policy: ",
            error.as_str(),
        ),
        (AskStage::Request, AskReply::Done) => AskStep::Next(AskStage::Store),
        (AskStage::Request, AskReply::Failed(error)) => ask_failed(
            "invalid recovery request: ",
            error.as_str(),
        ),
        (AskStage::Store, AskReply::Done) => AskStep::Next(AskStage::Lease),
        (AskStage::Store, AskReply::Failed(error)) => ask_failed(
            "failed to open recovery store: ",
            error.as_str(),
        ),
        (AskStage::Lease, AskReply::Covers(true)) => AskStep::Next(AskStage::Enqueue),
        (AskStage::Lease, AskReply::Covers(false)) => AskStep::Failed(
            CliFailure::new(1, "recovery publication lease does not cover the canonical store"),
        ),
        (AskStage::Enqueue, AskReply::Created) => {
            ask.created = true;
            AskStep::Next(AskStage::Witness)
        },
        (AskStage::Enqueue, AskReply::Existing) => {
            ask.created = false;
            AskStep::Next(AskStage::Reload)
        },
        (AskStage::Enqueue, AskReply::Taken(id)) => AskStep::Answer(
            RecoveryEnqueueDisposition::Existing(id),
        ),
        (AskStage::Enqueue, AskReply::Failed(error)) => ask_failed(
            "failed to enqueue recovery request: ",
            error.as_str(),
        ),
        (AskStage::Reload, AskReply::Open(true)) => AskStep::Next(AskStage::Witness),
        (AskStage::Reload, AskReply::Open(false)) => AskStep::Answer(
            RecoveryEnqueueDisposition::Existing(ask.id.clone()),
        ),
        (AskStage::Reload, AskReply::Failed(error)) => ask_failed(
            "failed to reload recovery request: ",
            error.as_str(),
        ),
        (AskStage::Witness, AskReply::Done) => {
            if ask.created {
                AskStep::Answer(RecoveryEnqueueDisposition::Created(ask.id.clone()))
            } else {
                AskStep::Answer(RecoveryEnqueueDisposition::Existing(ask.id.clone()))
            }
        },
        (_, AskReply::Failed(error)) => AskStep::Failed(CliFailure::new(1, error.as_str())),
        _ => AskStep::Next(stage),
    }
}

/// A request gets into the store only under a lease that covers the store.
pub proof fn requests_need_the_lease(ask: Ask, stage: AskStage, reply: AskReply)
    requires
        ask_flow(ask, stage, reply) == AskView::Next(AskStage::Enqueue),
        stage != AskStage::Enqueue,
    ensures
        stage == AskStage::Lease,
        reply == AskReply::Covers(true),
{
}

/// What a worker does next.
#[derive(Clone, Copy, Debug, PartialEq, Eq, Structural)]
pub enum WorkerStage {
    /// See whether there is a store.
    Look,
    /// Open the store.
    Open,
    /// Take the lease on the model.
    Lease,
    /// List what cannot be worked off now.
    ListDeferred,
    /// End what was left running without a lease.
    Reconcile,
    /// List what is to be worked off.
    List,
    /// Work off the next of what was listed.
    Process,
    /// Tell.
    Render,
}

/// A request that is to be worked off.
#[derive(Debug)]
pub struct WorkerRequest {
    pub id: String,
    pub repo: String,
    pub pr: u64,
    pub head_sha: String,
}

/// What is told of a request.
#[derive(Debug)]
pub struct RecoveryWorkerReport {
    pub request_id: String,
    pub repo: String,
    pub pr: u64,
    pub head_sha: String,
    pub action: String,
    pub detail: String,
}

/// A request, in texts.
pub struct RequestView {
    pub id: Seq<char>,
    pub repo: Seq<char>,
    pub pr: u64,
    pub head_sha: Seq<char>,
}

impl View for WorkerRequest {
    type V = RequestView;

    open spec fn view(&self) -> RequestView {
        RequestView {
            id: self.id@,
            repo: self.repo@,
            pr: self.pr,
            head_sha: self.head_sha@,
        }
    }
}

/// What is told of a request, in texts.
pub struct WorkerReportView {
    pub request: RequestView,
    pub action: Seq<char>,
    pub detail: Seq<char>,
}

impl View for RecoveryWorkerReport {
    type V = WorkerReportView;

    open spec fn view(&self) -> WorkerReportView {
        WorkerReportView {
            request: RequestView {
                id: self.request_id@,
                repo: self.repo@,
                pr: self.pr,
                head_sha: self.head_sha@,
            },
            action: self.action@,
            detail: self.detail@,
        }
    }
}

/// Requests, in texts.
pub open spec fn request_views(requests: Seq<WorkerRequest>) -> Seq<RequestView> {
    Seq::new(requests.len(), |i: int| requests[i]@)
}

/// What is told of requests, in texts.
pub open spec fn told_views(reports: Seq<RecoveryWorkerReport>) -> Seq<WorkerReportView> {
    Seq::new(reports.len(), |i: int| reports[i]@)
}

/// Why nothing was done about a request, or what was ended.
#[derive(Clone, Copy, Debug, PartialEq, Eq, Structural)]
pub enum WorkerNote {
    /// Another worker holds the lease.
    Deferred,
    /// A worker was left running without a lease.
    Orphaned,
}

impl WorkerNote {
    /// The note's name.
    pub open spec fn name(self) -> Seq<char> {
        match self {
            WorkerNote::Deferred => "deferred_global_capacity"@,
            WorkerNote::Orphaned => "failed_orphaned_running"@,
        }
    }

    /// The note in words.
    pub open spec fn words(self) -> Seq<char> {
        match self {
            WorkerNote::Deferred => "another recovery model invocation owns the global lease"@,
            WorkerNote::Orphaned =>
                "prior worker lost the machine-global model lease before terminalization"@,
        }
    }
}

/// What is told of requests that nothing was done about, or that were ended.
pub open spec fn noted(requests: Seq<RequestView>, note: WorkerNote) -> Seq<WorkerReportView> {
    Seq::new(
        requests.len(),
        |i: int|
            WorkerReportView { request: requests[i], action: note.name(), detail: note.words() },
    )
}

fn told_of(request: &WorkerRequest, action: String, detail: String) -> (r: RecoveryWorkerReport)
    ensures
        r@ == (WorkerReportView { request: request@, action: action@, detail: detail@ }),
{
    RecoveryWorkerReport {
        request_id: request.id.clone(),
        repo: request.repo.clone(),
        pr: request.pr,
        head_sha: request.head_sha.clone(),
        action,
        detail,
    }
}

/// What is told of requests that nothing was done about, or that were ended.
pub fn reconcile_orphaned_requests(requests: &Vec<WorkerRequest>, note: WorkerNote) -> (r: Vec<
    RecoveryWorkerReport,
>)
    ensures
        told_views(r@) == noted(request_views(requests@), note),
{
    let (action, detail) = match note {
        WorkerNote::Deferred => (
            "deferred_global_capacity",
            "another recovery model invocation owns the global lease",
        ),
        WorkerNote::Orphaned => (
            "failed_orphaned_running",
            "prior worker lost the machine-global model lease before terminalization",
        ),
    };
    let mut out: Vec<RecoveryWorkerReport> = Vec::new();
    let mut i: usize = 0;
    while i < requests.len()
        invariant
            i <= requests.len(),
            out@.len() == i,
            action@ == note.name(),
            detail@ == note.words(),
            forall|k: int|
                0 <= k < i ==> (#[trigger] out@[k])@ == (WorkerReportView {
                    request: requests@[k]@,
                    action: note.name(),
                    detail: note.words(),
                }),
        decreases requests.len() - i,
    {
        out.push(told_of(&requests[i], action.to_owned(), detail.to_owned()));
        i = i + 1;
    }
    proof {
        assert(told_views(out@) =~= noted(request_views(requests@), note));
    }
    out
}

/// What came of a step.
#[derive(Debug)]
pub enum WorkerReply {
    Done,
    /// Whether there is a store, or whether the lease was got.
    Got(bool),
    /// The requests that a step listed or ended.
    Listed(Vec<WorkerRequest>),
    /// What is told of a request that was worked off, and whether that failed.
    Worked { action: String, detail: String, failed: bool },
    Failed(String),
}

/// Where a worker stands.
pub struct WorkerView {
    pub apply: bool,
    pub stage: WorkerStage,
    /// What is told so far: what was ended or put off, then what was worked off.
    pub reports: Seq<WorkerReportView>,
    /// How many reports tell of what was ended or put off.
    pub noted: nat,
    /// What is to be worked off.
    pub requests: Seq<RequestView>,
    pub failed: bool,
}

impl WorkerView {
    /// How many requests were worked off.
    pub open spec fn worked(self) -> int {
        self.reports.len() - self.noted
    }

    /// The worker at another step.
    pub open spec fn at(self, stage: WorkerStage) -> WorkerView {
        WorkerView { stage, ..self }
    }

    /// Whether what is told is of the first requests, one report for each and in
    /// their order, and requests are left exactly while they are worked off.
    pub open spec fn sound(self) -> bool {
        &&& self.noted <= self.reports.len()
        &&& self.worked() <= self.requests.len()
        &&& forall|i: int|
            0 <= i < self.worked() ==> (#[trigger] self.reports[self.noted + i]).request
                == self.requests[i]
        &&& self.stage == WorkerStage::Process ==> self.worked() < self.requests.len()
        &&& self.stage != WorkerStage::Process && self.stage != WorkerStage::Render
            ==> self.requests.len() == 0
        &&& self.stage == WorkerStage::Render ==> self.worked() == self.requests.len()
        &&& self.failed ==> self.worked() > 0
        &&& (self.stage == WorkerStage::Look || self.stage == WorkerStage::Open || self.stage
            == WorkerStage::Lease || self.stage == WorkerStage::ListDeferred || self.stage
            == WorkerStage::Reconcile) ==> self.reports.len() == 0
        &&& !self.apply ==> self.noted == 0 && self.stage != WorkerStage::Lease && self.stage
            != WorkerStage::ListDeferred && self.stage != WorkerStage::Reconcile
    }
}

/// A worker that begins.
pub open spec fn worker_begin(apply: bool) -> WorkerView {
    WorkerView {
        apply,
        stage: WorkerStage::Look,
        reports: Seq::empty(),
        noted: 0,
        requests: Seq::empty(),
        failed: false,
    }
}

/// What a worker does after a reply, or why it fails. One that only looks neither
/// makes a store nor takes the lease nor ends anything. A request that fails does not
/// keep those after it from being worked off. A reply that belongs to another stage
/// changes nothing.
pub open spec fn worker_flow(worker: WorkerView, reply: WorkerReply) -> Result<
    WorkerView,
    Seq<char>,
> {
    match (worker.stage, reply) {
        (WorkerStage::Look, WorkerReply::Got(there)) => Ok(
            worker.at(
                if worker.apply || there {
                    WorkerStage::Open
                } else {
                    WorkerStage::Render
                },
            ),
        ),
        (WorkerStage::Open, WorkerReply::Done) => Ok(
            worker.at(
                if worker.apply {
                    WorkerStage::Lease
                } else {
                    WorkerStage::List
                },
            ),
        ),
        (WorkerStage::Open, WorkerReply::Failed(e)) => Err("failed to open recovery store: "@ + e@),
        (WorkerStage::Lease, WorkerReply::Got(got)) => Ok(
            worker.at(
                if got {
                    WorkerStage::Reconcile
                } else {
                    WorkerStage::ListDeferred
                },
            ),
        ),
        (WorkerStage::ListDeferred, WorkerReply::Listed(list)) => Ok(
            WorkerView {
                stage: WorkerStage::Render,
                reports: noted(request_views(list@), WorkerNote::Deferred),
                noted: list@.len(),
                ..worker
            },
        ),
        (WorkerStage::ListDeferred, WorkerReply::Failed(e)) => Err(
            "failed to list deferred recovery requests: "@ + e@,
        ),
        (WorkerStage::Reconcile, WorkerReply::Listed(list)) => Ok(
            WorkerView {
                stage: WorkerStage::List,
                reports: noted(request_views(list@), WorkerNote::Orphaned),
                noted: list@.len(),
                ..worker
            },
        ),
        (WorkerStage::Reconcile, WorkerReply::Failed(e)) => Err(
            "failed to reconcile orphaned recovery workers: "@ + e@,
        ),
        (WorkerStage::List, WorkerReply::Listed(list)) => Ok(
            WorkerView {
                stage: if list@.len() == 0 {
                    WorkerStage::Render
                } else {
                    WorkerStage::Process
                },
                requests: request_views(list@),
                ..worker
            },
        ),
        (WorkerStage::List, WorkerReply::Failed(e)) => Err(
            "failed to list pending recovery requests: "@ + e@,
        ),
        (WorkerStage::Process, WorkerReply::Worked { action, detail, failed }) => Ok(
            WorkerView {
                stage: if worker.worked() + 1 == worker.requests.len() {
                    WorkerStage::Render
                } else {
                    WorkerStage::Process
                },
                reports: worker.reports.push(
                    WorkerReportView {
                        request: worker.requests[worker.worked()],
                        action: action@,
                        detail: detail@,
                    },
                ),
                failed: worker.failed || failed,
                ..worker
            },
        ),
        (_, WorkerReply::Failed(e)) => Err(e@),
        _ => Ok(worker),
    }
}

/// A worker under way.
#[derive(Debug)]
pub struct Worker {
    apply: bool,
    stage: WorkerStage,
    reports: Vec<RecoveryWorkerReport>,
    noted: usize,
    requests: Vec<WorkerRequest>,
    failed: bool,
}

impl View for Worker {
    type V = WorkerView;

    closed spec fn view(&self) -> WorkerView {
        WorkerView {
            apply: self.apply,
            stage: self.stage,
            reports: told_views(self.reports@),
            noted: self.noted as nat,
            requests: request_views(self.requests@),
            failed: self.failed,
        }
    }
}

impl Worker {
    #[verifier::type_invariant]
    spec fn kept(self) -> bool {
        self@.sound()
    }

    /// A worker that begins.
    pub fn new(apply: bool) -> (r: Self)
        ensures
            r@ == worker_begin(apply),
            r@.sound(),
    {
        let r = Worker {
            apply,
            stage: WorkerStage::Look,
            reports: Vec::new(),
            noted: 0,
            requests: Vec::new(),
            failed: false,
        };
        proof {
            assert(r@.reports =~= Seq::empty());
            assert(r@.requests =~= Seq::empty());
        }
        r
    }

    /// What the worker does next. One that only looks takes no lease and ends nothing.
    pub fn stage(&self) -> (r: WorkerStage)
        ensures
            r == self@.stage,
            !self@.apply ==> r != WorkerStage::Lease && r != WorkerStage::Reconcile && r
                != WorkerStage::ListDeferred,
    {
        proof {
            use_type_invariant(self);
        }
        self.stage
    }

    /// The request that is worked off next.
    pub fn request(&self) -> (r: Option<&WorkerRequest>)
        ensures
            if self@.stage == WorkerStage::Process {
                r matches Some(found) && found@ == self@.requests[self@.worked()]
            } else {
                r is None
            },
    {
        proof {
            use_type_invariant(self);
        }
        match self.stage {
            WorkerStage::Process => Some(&self.requests[self.reports.len() - self.noted]),
            _ => None,
        }
    }
}

fn worker_failed(prefix: &str, error: &str) -> (r: CliFailure)
    ensures
        r.says(1, prefix@ + error@),
{
    CliFailure::new(1, concat(prefix, error).as_str())
}

/// Takes a worker one reply further, or tells why it fails.
pub fn process_durable_requests(worker: Worker, reply: WorkerReply) -> (r: Result<
    Worker,
    CliFailure,
>)
    ensures
        match worker_flow(worker@, reply) {
            Ok(next) => r matches Ok(found) && found@ == next && next.sound(),
            Err(text) => r matches Err(failure) && failure.says(1, text),
        },
{
    proof {
        use_type_invariant(&worker);
    }
    let ghost before = worker@;
    let Worker { apply, stage, reports, noted: put_off, requests, failed } = worker;
    match (stage, reply) {
        (WorkerStage::Look, WorkerReply::Got(there)) => {
            let next = if apply || there {
                WorkerStage::Open
            } else {
                WorkerStage::Render
            };
            Ok(Worker { apply, stage: next, reports, noted: put_off, requests, failed })
        },
        (WorkerStage::Open, WorkerReply::Done) => {
            let next = if apply {
                WorkerStage::Lease
            } else {
                WorkerStage::List
            };
            Ok(Worker { apply, stage: next, reports, noted: put_off, requests, failed })
        },
        (WorkerStage::Open, WorkerReply::Failed(error)) => Err(
            worker_failed("failed to open recovery store: ", error.as_str()),
        ),
        (WorkerStage::Lease, WorkerReply::Got(got)) => {
            let next = if got {
                WorkerStage::Reconcile
            } else {
                WorkerStage::ListDeferred
            };
            Ok(Worker { apply, stage: next, reports, noted: put_off, requests, failed })
        },
        (WorkerStage::ListDeferred, WorkerReply::Listed(list)) => {
            let told = reconcile_orphaned_requests(&list, WorkerNote::Deferred);
            let next = WorkerStage::Render;
            proof {
                assert(told_views(told@).len() == told@.len());
            }
            Ok(Worker { apply, stage: next, noted: list.len(), reports: told, requests, failed })
        },
        (WorkerStage::ListDeferred, WorkerReply::Failed(error)) => Err(
            worker_failed("failed to list deferred recovery requests: ", error.as_str()),
        ),
        (WorkerStage::Reconcile, WorkerReply::Listed(list)) => {
            let told = reconcile_orphaned_requests(&list, WorkerNote::Orphaned);
            let next = WorkerStage::List;
            proof {
                assert(told_views(told@).len() == told@.len());
            }
            Ok(Worker { apply, stage: next, noted: list.len(), reports: told, requests, failed })
        },
        (WorkerStage::Reconcile, WorkerReply::Failed(error)) => Err(
            worker_failed("failed to reconcile orphaned recovery workers: ", error.as_str()),
        ),
        (WorkerStage::List, WorkerReply::Listed(list)) => {
            let next = if list.len() == 0 {
                WorkerStage::Render
            } else {
                WorkerStage::Process
            };
            Ok(Worker { apply, stage: next, reports, noted: put_off, requests: list, failed })
        },
        (WorkerStage::List, WorkerReply::Failed(error)) => Err(
            worker_failed("failed to list pending recovery requests: ", error.as_str()),
        ),
        (WorkerStage::Process, WorkerReply::Worked { action, detail, failed: worse }) => {
            let i: usize = reports.len() - put_off;
            let report = told_of(&requests[i], action, detail);
            let next = if requests.len() - i == 1 {
                WorkerStage::Render
            } else {
                WorkerStage::Process
            };
            let mut told = reports;
            told.push(report);
            proof {
                assert(told_views(told@) =~= before.reports.push(report@));
            }
            Ok(
                Worker {
                    apply,
                    stage: next,
                    reports: told,
                    noted: put_off,
                    requests,
                    failed: failed || worse,
                },
            )
        },
        (_, WorkerReply::Failed(error)) => Err(CliFailure::new(1, error.as_str())),
        _ => Ok(Worker { apply, stage, reports, noted: put_off, requests, failed }),
    }
}

/// What a worker that is done tells, and its exit code; one that is not done goes on.
pub fn finish_durable_requests(worker: Worker) -> (r: Result<
    (Vec<RecoveryWorkerReport>, u8),
    Worker,
>)
    ensures
        match r {
            Ok((reports, code)) => {
                &&& worker@.stage == WorkerStage::Render
                &&& told_views(reports@) == worker@.reports
                &&& reports@.len() == worker@.noted + worker@.requests.len()
                &&& code == if worker@.failed {
                    1u8
                } else {
                    0u8
                }
                &&& code == 0 <==> !worker@.failed
            },
            Err(rest) => worker@.stage != WorkerStage::Render && rest == worker,
        },
{
    proof {
        use_type_invariant(&worker);
    }
    match worker.stage {
        WorkerStage::Render => {
            proof {
                assert(told_views(worker.reports@).len() == worker.reports@.len());
            }
            let code: u8 = if worker.failed {
                1
            } else {
                0
            };
            Ok((worker.reports, code))
        },
        _ => Err(worker),
    }
}

/// What was left running is ended only by a worker that holds the lease.
pub proof fn reconciling_needs_the_lease(worker: WorkerView, reply: WorkerReply)
    requires
        worker_flow(worker, reply) matches Ok(next) && next.stage == WorkerStage::Reconcile,
        worker.stage != WorkerStage::Reconcile,
    ensures
        worker.stage == WorkerStage::Lease,
        reply == WorkerReply::Got(true),
{
}

/// A worker that only looks never takes the lease and never ends or puts off anything.
pub proof fn looking_takes_no_lease(worker: WorkerView, reply: WorkerReply)
    requires
        worker.sound(),
        !worker.apply,
        worker_flow(worker, reply) is Ok,
    ensures
        worker_flow(worker, reply)->Ok_0.sound(),
        worker_flow(worker, reply)->Ok_0.stage != WorkerStage::Lease,
        worker_flow(worker, reply)->Ok_0.noted == 0,
{
}

/// How many steps are left, at most, until a request is answered.
pub open spec fn ask_left(stage: AskStage) -> nat {
    match stage {
        AskStage::Policy => 6,
        AskStage::Request => 5,
        AskStage::Store => 4,
        AskStage::Lease => 3,
        AskStage::Enqueue => 2,
        AskStage::Reload => 1,
        AskStage::Witness => 0,
    }
}

/// Whether a reply lets a request go on.
pub open spec fn lets_ask_go_on(stage: AskStage, reply: AskReply) -> bool {
    match stage {
        AskStage::Policy | AskStage::Request | AskStage::Store | AskStage::Witness => reply is Done,
        AskStage::Lease => reply == AskReply::Covers(true),
        AskStage::Enqueue => reply is Created || reply is Existing,
        AskStage::Reload => reply == AskReply::Open(true),
    }
}

/// What a reply tells of a failure.
pub open spec fn ask_failure(reply: AskReply) -> Option<Seq<char>> {
    match reply {
        AskReply::Failed(error) => Some(error@),
        AskReply::Unloadable(error) => Some(error@),
        _ => None,
    }
}

/// A request whose replies let it go on comes nearer to its answer with each of them, one
/// that is already stored by way of a second look, and is answered under its own id.
pub proof fn a_request_is_answered(ask: Ask, stage: AskStage, reply: AskReply)
    requires
        lets_ask_go_on(stage, reply),
    ensures
        ask_left(stage) > 0 ==> (ask_flow(ask, stage, reply) matches AskView::Next(next)
            && ask_left(next) < ask_left(stage)),
        ask_left(stage) > 2 ==> (ask_flow(ask, stage, reply) matches AskView::Next(next)
            && ask_left(next) + 1 == ask_left(stage)),
        stage == AskStage::Enqueue ==> (ask_flow(ask, stage, reply) == AskView::Next(AskStage::Reload)
            <==> reply is Existing),
        stage == AskStage::Witness ==> (ask_flow(ask, stage, reply) matches AskView::Created(id)
            ==> id == ask.id@ && ask.created),
        stage == AskStage::Witness && ask.created ==> ask_flow(ask, stage, reply) is Created,
        stage == AskStage::Witness && !ask.created ==> ask_flow(ask, stage, reply)
            == AskView::Existing(ask.id@),
{
}

/// A request is told as disabled, as created or as failed only for a cause: the policy
/// says so, it was created and witnessed, or something failed or was not covered; what
/// failed ends the error.
pub proof fn answers_have_their_cause(ask: Ask, stage: AskStage, reply: AskReply)
    ensures
        ask_flow(ask, stage, reply) is Disabled <==> stage == AskStage::Policy && reply is Disabled,
        ask_flow(ask, stage, reply) is Created ==> stage == AskStage::Witness && reply is Done
            && ask.created,
        ask_flow(ask, stage, reply) matches AskView::Failed(text) ==> (match ask_failure(reply) {
            Some(error) => has_suffix(text, error),
            None => stage == AskStage::Lease && reply == AskReply::Covers(false),
        }),
        reply is Failed ==> ask_flow(ask, stage, reply) is Failed,
        stage == AskStage::Policy && reply is Unloadable ==> ask_flow(ask, stage, reply) is Failed,
        stage == AskStage::Lease && reply == AskReply::Covers(false) ==> ask_flow(
            ask,
            stage,
            reply,
        ) is Failed,
        stage == AskStage::Enqueue ==> (reply matches AskReply::Taken(id) ==> ask_flow(
            ask,
            stage,
            reply,
        ) == AskView::Existing(id@)),
        stage == AskStage::Reload && reply == AskReply::Open(false) ==> ask_flow(ask, stage, reply)
            == AskView::Existing(ask.id@),
{
    if let Some(error) = ask_failure(reply) {
        ends_with_its_end("failed to load trusted recovery-worker policy: "@, error);
        ends_with_its_end("invalid recovery request: "@, error);
        ends_with_its_end("failed to open recovery store: "@, error);
        ends_with_its_end("failed to enqueue recovery request: "@, error);
        ends_with_its_end("failed to reload recovery request: "@, error);
        assert(error.skip(0) =~= error);
    }
}

/// A worker that changes things takes the lease before it lists what is to be done, and
/// where another holds the lease it tells every waiting request as deferred; one that only
/// looks lists without it.
pub proof fn a_worker_goes_on(worker: WorkerView, reply: WorkerReply)
    requires
        worker.sound(),
    ensures
        ({
            let next = worker_flow(worker, reply);
            &&& worker.stage == WorkerStage::Look ==> (reply matches WorkerReply::Got(there) ==> (
            next matches Ok(n) && (n.stage == WorkerStage::Open <==> worker.apply || there) && (
            n.stage != WorkerStage::Open ==> n.stage == WorkerStage::Render)))
            &&& worker.stage == WorkerStage::Open && reply is Done ==> (next matches Ok(n) && n.stage
                == if worker.apply {
                WorkerStage::Lease
            } else {
                WorkerStage::List
            })
            &&& worker.stage == WorkerStage::Lease ==> (reply matches WorkerReply::Got(got) ==> (next
                matches Ok(n) && n.stage == if got {
                WorkerStage::Reconcile
            } else {
                WorkerStage::ListDeferred
            }))
            &&& worker.stage == WorkerStage::ListDeferred ==> (reply matches WorkerReply::Listed(list)
                ==> (next matches Ok(n) && n.stage == WorkerStage::Render && n.reports.len()
                == list@.len() && (forall|i: int|
                0 <= i < list@.len() ==> (#[trigger] n.reports[i]).request == list@[i]@
                    && n.reports[i].action == "deferred_global_capacity"@)))
            &&& worker.stage == WorkerStage::Reconcile ==> (reply matches WorkerReply::Listed(list)
                ==> (next matches Ok(n) && n.stage == WorkerStage::List && n.reports.len()
                == list@.len() && (forall|i: int|
                0 <= i < list@.len() ==> (#[trigger] n.reports[i]).request == list@[i]@
                    && n.reports[i].action == "failed_orphaned_running"@)))
            &&& worker.stage == WorkerStage::List ==> (reply matches WorkerReply::Listed(list) ==> (
            next matches Ok(n) && n.requests == request_views(list@) && n.reports == worker.reports
                && (n.stage == WorkerStage::Process <==> list@.len() > 0)))
        }),
{
}

/// Every listed request is worked on once and in order: an outcome is told of the request
/// at hand, and the worker goes on to the next until none is left. It has failed exactly
/// where some outcome was a failure.
pub proof fn every_request_is_worked_on(worker: WorkerView, action: String, detail: String, failed: bool)
    requires
        worker.sound(),
        worker.stage == WorkerStage::Process,
    ensures
        ({
            let next = worker_flow(worker, (WorkerReply::Worked { action, detail, failed }));
            &&& next matches Ok(n) && {
                &&& n.reports.drop_last() == worker.reports
                &&& n.reports.last() == (WorkerReportView {
                    request: worker.requests[worker.worked()],
                    action: action@,
                    detail: detail@,
                })
                &&& n.worked() == worker.worked() + 1
                &&& n.requests == worker.requests
                &&& n.stage == WorkerStage::Render <==> n.worked() == n.requests.len()
                &&& n.stage == WorkerStage::Process <==> n.worked() < n.requests.len()
                &&& n.failed <==> worker.failed || failed
            }
        }),
{
    let n = worker_flow(worker, (WorkerReply::Worked { action, detail, failed }))->Ok_0;
    assert(n.reports.drop_last() =~= worker.reports);
}

/// Work ends with an error exactly where something failed, and the error ends with it.
pub proof fn work_tells_what_failed(worker: WorkerView, reply: WorkerReply)
    ensures
        worker_flow(worker, reply) is Err <==> reply is Failed,
        reply matches WorkerReply::Failed(error) ==> (worker_flow(worker, reply) matches Err(text)
            && has_suffix(text, error@)),
{
    if let WorkerReply::Failed(error) = reply {
        ends_with_its_end("failed to open recovery store: "@, error@);
        ends_with_its_end("failed to list deferred recovery requests: "@, error@);
        ends_with_its_end("failed to reconcile orphaned recovery workers: "@, error@);
        ends_with_its_end("failed to list pending recovery requests: "@, error@);
        assert(error@.skip(0) =~= error@);
    }
}

} // verus!
