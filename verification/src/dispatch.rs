//! Queued jobs of a merge group that no runner has taken: what is known of them,
//! and on whose authority.
use std::collections::BTreeMap;

use vstd::prelude::*;

use crate::json::{trees, Json, JsonTree};
use crate::model::{ObservedPr, RepoObservation, RequiredCheck, StewardJob, StewardRun};
use crate::observation::{
    labels_field, listed_labels, next_page, paging, JobCheckProducer, Paging,
};
use crate::text::{
    copy_opt, copy_or, copy_texts, eq_ignore_case, opt_ref_view, opt_view, or_text, result_view,
    same_ignoring_case, str_eq, views,
};

verus! {

broadcast use vstd::std_specs::btree::group_btree_axioms;

/// A pull request whose merge group is looked at.
#[derive(Clone, Debug, PartialEq, Eq)]
pub struct DispatchWedgeTargetRequest {
    pub base_ref: String,
    pub pull_request: u64,
    pub expected_head_sha: String,
}

/// A registered runner.
#[derive(Debug)]
pub struct DispatchRunnerObservation {
    pub runner_id: u64,
    pub name: String,
    pub status: String,
    pub busy: bool,
    pub labels: Vec<String>,
}

/// What a runner is.
pub struct RunnerView {
    pub runner_id: u64,
    pub name: Seq<char>,
    pub status: Seq<char>,
    pub busy: bool,
    pub labels: Seq<Seq<char>>,
}

impl View for DispatchRunnerObservation {
    type V = RunnerView;

    open spec fn view(&self) -> RunnerView {
        RunnerView {
            runner_id: self.runner_id,
            name: self.name@,
            status: self.status@,
            busy: self.busy,
            labels: views(self.labels@),
        }
    }
}

/// The runner that a row shows; one that does not say so counts as busy.
pub open spec fn runner_of(row: JsonTree) -> RunnerView {
    RunnerView {
        runner_id: match row.number_at("id"@) {
            Some(id) => id,
            None => 0,
        },
        name: or_text(row.text_at("name"@), ""@),
        status: or_text(row.text_at("status"@), ""@),
        busy: match row.boolean_at("busy"@) {
            Some(busy) => busy,
            None => true,
        },
        labels: listed_labels(row),
    }
}

/// The runners of a list.
pub open spec fn runner_views(runners: Seq<DispatchRunnerObservation>) -> Seq<RunnerView> {
    Seq::new(runners.len(), |i: int| runners[i]@)
}

fn parse_runner(row: &Json) -> (r: DispatchRunnerObservation)
    ensures
        r@ == runner_of(row@),
{
    let r = DispatchRunnerObservation {
        runner_id: match row.u64_field("id") {
            Some(id) => id,
            None => 0,
        },
        name: copy_or(row.text_field("name"), ""),
        status: copy_or(row.text_field("status"), ""),
        busy: match row.bool_field("busy") {
            Some(busy) => busy,
            None => true,
        },
        labels: labels_field(row),
    };
    proof {
        assert(r@ =~= runner_of(row@));
    }
    r
}

/// Adds a page of the registered runners.
pub fn dispatch_runner_observations(
    runners: &mut Vec<DispatchRunnerObservation>,
    response: &Json,
    page: u64,
) -> (r: Result<Paging, String>)
    ensures
        match response@.items_at("runners"@) {
            None => *final(runners) == *old(runners) && result_view(r) == Err::<Paging, Seq<char>>(
                "repository runner inventory missing runners"@,
            ),
            Some(rows) => runner_views(final(runners)@) == runner_views(old(runners)@) + Seq::new(
                rows.len(),
                |i: int| runner_of(rows[i]),
            ) && result_view(r) == paging(
                rows.len(),
                page,
                "repository runner inventory exceeds 1000; refusing partial scan"@,
            ),
        },
{
    let rows = match response.array_field("runners") {
        Some(rows) => rows,
        None => return Err("repository runner inventory missing runners".to_owned()),
    };
    let ghost all = trees(rows@);
    let ghost start = runner_views(runners@);
    let ghost want = Seq::new(all.len(), |i: int| runner_of(all[i]));
    let mut i: usize = 0;
    proof {
        assert(start + want.take(0) =~= start);
    }
    while i < rows.len()
        invariant
            i <= rows.len(),
            all == trees(rows@),
            want == Seq::new(all.len(), |i: int| runner_of(all[i])),
            runner_views(runners@) == start + want.take(i as int),
        decreases rows.len() - i,
    {
        let ghost before = runner_views(runners@);
        let runner = parse_runner(&rows[i]);
        proof {
            assert(all[i as int] == rows@[i as int]@);
        }
        runners.push(runner);
        proof {
            assert(runner_views(runners@) =~= before.push(want[i as int]));
            assert(runner_views(runners@) =~= start + want.take(i + 1));
        }
        i = i + 1;
    }
    proof {
        assert(want.take(i as int) =~= want);
    }
    next_page(
        rows.len(),
        page,
        "repository runner inventory exceeds 1000; refusing partial scan",
    )
}

/// The branches of the targets, each once, in the order in which they first
/// occur.
pub open spec fn distinct_bases(targets: Seq<DispatchWedgeTargetRequest>) -> Seq<Seq<char>>
    decreases targets.len(),
{
    if targets.len() == 0 {
        Seq::empty()
    } else {
        let rest = distinct_bases(targets.drop_last());
        if rest.contains(targets.last().base_ref@) {
            rest
        } else {
            rest.push(targets.last().base_ref@)
        }
    }
}

/// The branches of the targets are listed once each, and none is left out.
pub proof fn each_base_is_listed_once(targets: Seq<DispatchWedgeTargetRequest>)
    ensures
        distinct_bases(targets).no_duplicates(),
        forall|i: int|
            0 <= i < targets.len() ==> distinct_bases(targets).contains(
                (#[trigger] targets[i]).base_ref@,
            ),
    decreases targets.len(),
{
    if targets.len() > 0 {
        let before = targets.drop_last();
        let rest = distinct_bases(before);
        let base = targets.last().base_ref@;
        each_base_is_listed_once(before);
        let all = distinct_bases(targets);
        assert forall|i: int| 0 <= i < targets.len() implies all.contains(
            (#[trigger] targets[i]).base_ref@,
        ) by {
            if i < before.len() {
                assert(before[i] == targets[i]);
                let k = choose|k: int| 0 <= k < rest.len() && rest[k] == targets[i].base_ref@;
                assert(all[k] == targets[i].base_ref@);
            } else if !rest.contains(base) {
                assert(all[rest.len() as int] == base);
            }
        }
    }
}

/// The branches that a batch of targets is read for: each is read once.
fn bases_of(targets: &Vec<DispatchWedgeTargetRequest>) -> (r: Vec<String>)
    ensures
        views(r@) == distinct_bases(targets@),
{
    let mut out: Vec<String> = Vec::new();
    let mut i: usize = 0;
    proof {
        assert(views(out@) =~= distinct_bases(targets@.take(0)));
    }
    while i < targets.len()
        invariant
            i <= targets.len(),
            views(out@) == distinct_bases(targets@.take(i as int)),
        decreases targets.len() - i,
    {
        let mut known = false;
        let mut k: usize = 0;
        while k < out.len()
            invariant
                k <= out.len(),
                i < targets.len(),
                known == exists|q: int|
                    0 <= q < k && (#[trigger] out@[q])@ == targets@[i as int].base_ref@,
            decreases out.len() - k,
        {
            if str_eq(out[k].as_str(), targets[i].base_ref.as_str()) {
                known = true;
            }
            k = k + 1;
        }
        let ghost before = views(out@);
        proof {
            assert(targets@.take(i + 1).drop_last() =~= targets@.take(i as int));
            let base = targets@[i as int].base_ref@;
            if known {
                let q = choose|q: int| 0 <= q < k && (#[trigger] out@[q])@ == base;
                assert(before[q] == base);
            }
            if before.contains(base) {
                let q = choose|q: int| 0 <= q < before.len() && before[q] == base;
                assert(out@[q]@ == base);
            }
        }
        if !known {
            out.push(targets[i].base_ref.clone());
            proof {
                assert(views(out@) =~= before.push(targets@[i as int].base_ref@));
            }
        }
        i = i + 1;
    }
    proof {
        assert(targets@.take(i as int) =~= targets@);
    }
    out
}

/// What was seen of a target.
#[derive(Debug)]
pub struct DispatchWedgeTargetResult {
    pub target: DispatchWedgeTargetRequest,
    pub result: Result<Vec<DispatchJobAuthority>, String>,
}

/// What was read of a repository on one branch.
pub open spec fn base_view(read: Result<RepoObservation, String>) -> Result<
    RepoObservation,
    Seq<char>,
> {
    match read {
        Ok(observation) => Ok(observation),
        Err(error) => Err(error@),
    }
}

/// What was seen of a target, in texts.
pub open spec fn seen_view(result: Result<Vec<DispatchJobAuthority>, String>) -> Result<
    Seq<DispatchJobAuthority>,
    Seq<char>,
> {
    match result {
        Ok(jobs) => Ok(jobs@),
        Err(error) => Err(error@),
    }
}

/// Where a batch of targets stands: what was read of the runners and of the
/// branches, and what was seen of the first targets.
pub struct DispatchBatchView {
    pub targets: Seq<DispatchWedgeTargetRequest>,
    pub runners: Option<Result<Seq<RunnerView>, Seq<char>>>,
    pub reads: Seq<Result<RepoObservation, Seq<char>>>,
    pub results: Seq<Result<Seq<DispatchJobAuthority>, Seq<char>>>,
}

/// Why a target cannot be looked at: the runners or its branch could not be read.
pub open spec fn target_refusal(
    bases: Seq<Seq<char>>,
    runners: Option<Result<Seq<RunnerView>, Seq<char>>>,
    reads: Seq<Result<RepoObservation, Seq<char>>>,
    target: DispatchWedgeTargetRequest,
) -> Option<Seq<char>> {
    match runners {
        Some(Err(error)) => Some(error),
        _ => match bases.index_of_first(target.base_ref@) {
            Some(k) => match reads[k] {
                Err(error) => Some(error),
                Ok(_) => None,
            },
            None => Some("dispatch-wedge repository observation was omitted"@),
        },
    }
}

impl DispatchBatchView {
    /// The branches of the targets.
    pub open spec fn bases(self) -> Seq<Seq<char>> {
        distinct_bases(self.targets)
    }

    /// Whether all that the targets share was read.
    pub open spec fn is_read(self) -> bool {
        self.runners is Some && self.reads.len() == self.bases().len()
    }

    /// Whether every target has its result.
    pub open spec fn is_over(self) -> bool {
        self.is_read() && self.results.len() == self.targets.len()
    }

    /// Why a target cannot be looked at.
    pub open spec fn refusal(self, i: int) -> Option<Seq<char>> {
        target_refusal(self.bases(), self.runners, self.reads, self.targets[i])
    }

    /// The batch with the errors of the targets that cannot be looked at, up to the
    /// next one that can.
    pub open spec fn settled(self) -> DispatchBatchView
        decreases self.targets.len() - self.results.len(),
    {
        if self.is_read() && self.results.len() < self.targets.len() {
            match self.refusal(self.results.len() as int) {
                Some(error) => DispatchBatchView {
                    results: self.results.push(Err(error)),
                    ..self
                }.settled(),
                None => self,
            }
        } else {
            self
        }
    }

    /// Whether what is shared is read first, once each and in its order, and an
    /// error is told to exactly the targets that it concerns.
    pub open spec fn sound(self) -> bool {
        &&& self.reads.len() <= self.bases().len()
        &&& self.results.len() <= self.targets.len()
        &&& self.runners is None ==> self.reads.len() == 0
        &&& !self.is_read() ==> self.results.len() == 0
        &&& forall|i: int|
            0 <= i < self.results.len() ==> match self.refusal(i) {
                Some(error) => #[trigger] self.results[i] == Err::<
                    Seq<DispatchJobAuthority>,
                    Seq<char>,
                >(error),
                None => true,
            }
        &&& self.is_read() && self.results.len() < self.targets.len() ==> self.refusal(
            self.results.len() as int,
        ) is None
    }
}

/// What came of an action of a batch.
#[derive(Debug)]
pub enum BatchReply {
    Runners(Result<Vec<DispatchRunnerObservation>, String>),
    Base(Result<RepoObservation, String>),
    Seen(Result<Vec<DispatchJobAuthority>, String>),
}

/// What was read of the runners, in texts.
pub open spec fn runners_view(read: Result<Vec<DispatchRunnerObservation>, String>) -> Result<
    Seq<RunnerView>,
    Seq<char>,
> {
    match read {
        Ok(runners) => Ok(runner_views(runners@)),
        Err(error) => Err(error@),
    }
}

/// The batch after a reply. A reply that nothing asked for changes nothing.
pub open spec fn batch_step(batch: DispatchBatchView, reply: BatchReply) -> DispatchBatchView {
    match reply {
        BatchReply::Runners(read) => if batch.runners is None {
            DispatchBatchView { runners: Some(runners_view(read)), ..batch }.settled()
        } else {
            batch
        },
        BatchReply::Base(read) => if batch.runners is Some && batch.reads.len()
            < batch.bases().len() {
            DispatchBatchView { reads: batch.reads.push(base_view(read)), ..batch }.settled()
        } else {
            batch
        },
        BatchReply::Seen(result) => if batch.is_read() && batch.results.len()
            < batch.targets.len() {
            DispatchBatchView {
                results: batch.results.push(seen_view(result)),
                ..batch
            }.settled()
        } else {
            batch
        },
    }
}

/// What a batch asks for.
#[derive(Clone, Copy, Debug, PartialEq, Eq, Structural)]
pub enum BatchAction {
    /// Read the runners.
    ReadRunners,
    /// Read the repository on the branch at this position.
    ReadBase(usize),
    /// Look at a target, with what was read of its branch.
    Observe { target: usize, base: usize },
    /// Nothing: the batch is over.
    Over,
}

/// What a batch asks for.
pub open spec fn batch_action(batch: DispatchBatchView) -> BatchAction {
    if batch.runners is None {
        BatchAction::ReadRunners
    } else if batch.reads.len() < batch.bases().len() {
        BatchAction::ReadBase(batch.reads.len() as usize)
    } else if batch.results.len() < batch.targets.len() {
        let target = batch.results.len() as int;
        BatchAction::Observe {
            target: target as usize,
            base: batch.bases().index_of_first(batch.targets[target].base_ref@)->Some_0 as usize,
        }
    } else {
        BatchAction::Over
    }
}

/// A batch of targets of one repository.
#[derive(Debug)]
pub struct DispatchBatch<'a> {
    targets: &'a Vec<DispatchWedgeTargetRequest>,
    bases: Vec<String>,
    runners: Option<Result<Vec<DispatchRunnerObservation>, String>>,
    reads: Vec<Result<RepoObservation, String>>,
    results: Vec<Result<Vec<DispatchJobAuthority>, String>>,
}

spec fn batch_views(
    targets: Seq<DispatchWedgeTargetRequest>,
    runners: Option<Result<Vec<DispatchRunnerObservation>, String>>,
    reads: Seq<Result<RepoObservation, String>>,
    results: Seq<Result<Vec<DispatchJobAuthority>, String>>,
) -> DispatchBatchView {
    DispatchBatchView {
        targets,
        runners: match runners {
            Some(read) => Some(runners_view(read)),
            None => None,
        },
        reads: Seq::new(reads.len(), |i: int| base_view(reads[i])),
        results: Seq::new(results.len(), |i: int| seen_view(results[i])),
    }
}

impl<'a> View for DispatchBatch<'a> {
    type V = DispatchBatchView;

    closed spec fn view(&self) -> DispatchBatchView {
        batch_views(self.targets@, self.runners, self.reads@, self.results@)
    }
}

/// The position of a branch in a list, where it is in it.
fn base_position(bases: &Vec<String>, base: &str) -> (r: Option<usize>)
    ensures
        match r {
            Some(k) => views(bases@).index_of_first(base@) == Some(k as int) && k < bases@.len(),
            None => views(bases@).index_of_first(base@) is None,
        },
{
    let ghost list = views(bases@);
    let mut k: usize = 0;
    while k < bases.len()
        invariant
            k <= bases.len(),
            list == views(bases@),
            forall|q: int| 0 <= q < k ==> #[trigger] list[q] != base@,
        decreases bases.len() - k,
    {
        assert(list[k as int] == bases@[k as int]@);
        if str_eq(bases[k].as_str(), base) {
            proof {
                assert(list.contains(base@));
                list.index_of_first_ensures(base@);
                let first = list.index_of_first(base@)->Some_0;
                if first < k {
                    assert(list[first] != base@);
                }
            }
            return Some(k);
        }
        k = k + 1;
    }
    proof {
        list.index_of_first_ensures(base@);
    }
    None
}

impl<'a> DispatchBatch<'a> {
    #[verifier::type_invariant]
    spec fn kept(self) -> bool {
        &&& self@.sound()
        &&& views(self.bases@) == distinct_bases(self.targets@)
    }

    /// The batch with these parts, and the errors of the targets that cannot be
    /// looked at, up to the next one that can.
    fn settle(
        targets: &'a Vec<DispatchWedgeTargetRequest>,
        bases: Vec<String>,
        runners: Option<Result<Vec<DispatchRunnerObservation>, String>>,
        reads: Vec<Result<RepoObservation, String>>,
        told: Vec<Result<Vec<DispatchJobAuthority>, String>>,
    ) -> (r: Self)
        requires
            views(bases@) == distinct_bases(targets@),
            ({
                let v = batch_views(targets@, runners, reads@, told@);
                &&& v.reads.len() <= v.bases().len()
                &&& v.results.len() <= v.targets.len()
                &&& v.runners is None ==> v.reads.len() == 0
                &&& !v.is_read() ==> v.results.len() == 0
                &&& forall|i: int|
                    0 <= i < v.results.len() ==> match v.refusal(i) {
                        Some(error) => #[trigger] v.results[i] == Err::<
                            Seq<DispatchJobAuthority>,
                            Seq<char>,
                        >(error),
                        None => true,
                    }
            }),
        ensures
            r@ == batch_views(targets@, runners, reads@, told@).settled(),
            r@.sound(),
    {
        let ghost start = batch_views(targets@, runners, reads@, told@);
        let ghost shared = views(bases@);
        proof {
            assert forall|i: int| 0 <= i < told@.len() implies seen_view(#[trigger] told@[i])
                == start.results[i] by {}
        }
        let mut results = told;
        loop
            invariant
                start == batch_views(targets@, runners, reads@, told@),
                shared == views(bases@),
                shared == distinct_bases(targets@),
                start.reads.len() <= shared.len(),
                start.runners is None ==> start.reads.len() == 0,
                start.targets == targets@,
                start.runners == batch_views(targets@, runners, reads@, results@).runners,
                start.reads == batch_views(targets@, runners, reads@, results@).reads,
                results@.len() <= targets@.len(),
                !start.is_read() ==> results@.len() == 0,
                batch_views(targets@, runners, reads@, results@).settled() == start.settled(),
                forall|i: int|
                    0 <= i < results@.len() ==> match start.refusal(i) {
                        Some(error) => seen_view(#[trigger] results@[i]) == Err::<
                            Seq<DispatchJobAuthority>,
                            Seq<char>,
                        >(error),
                        None => true,
                    },
            decreases targets@.len() - results@.len(),
        {
            let ghost v = batch_views(targets@, runners, reads@, results@);
            if runners.is_none() || reads.len() < bases.len() || results.len() == targets.len() {
                assert(v.settled() == v);
                let r = DispatchBatch { targets, bases, runners, reads, results };
                return r;
            }
            let refusal: Option<String> = match &runners {
                Some(Err(error)) => Some(error.clone()),
                _ => match base_position(&bases, targets[results.len()].base_ref.as_str()) {
                    Some(k) => {
                        assert(v.reads[k as int] == base_view(reads@[k as int]));
                        match &reads[k] {
                            Err(error) => Some(error.clone()),
                            Ok(_) => None,
                        }
                    },
                    None => Some("dispatch-wedge repository observation was omitted".to_owned()),
                },
            };
            assert(opt_view(refusal) == v.refusal(results@.len() as int));
            match refusal {
                None => {
                    assert(v.settled() == v);
                    let r = DispatchBatch { targets, bases, runners, reads, results };
                    return r;
                },
                Some(error) => {
                    results.push(Err(error));
                    proof {
                        let after = batch_views(targets@, runners, reads@, results@);
                        assert(after.results =~= v.results.push(Err(error@)));
                        assert(after == (DispatchBatchView {
                            results: v.results.push(Err(error@)),
                            ..v
                        }));
                    }
                },
            }
        }
    }

    /// What the batch asks for. A target is looked at only where the runners and
    /// its branch were read.
    pub fn action(&self) -> (r: BatchAction)
        ensures
            r == batch_action(self@),
            match r {
                BatchAction::Observe { target, base } => {
                    &&& target == self@.results.len()
                    &&& target < self@.targets.len()
                    &&& base < self@.reads.len()
                    &&& self@.bases()[base as int] == self@.targets[target as int].base_ref@
                    &&& self@.reads[base as int] is Ok
                    &&& self@.runners matches Some(Ok(_))
                },
                BatchAction::ReadBase(base) => base == self@.reads.len() && base
                    < self@.bases().len(),
                BatchAction::ReadRunners => true,
                BatchAction::Over => self@.is_over(),
            },
    {
        proof {
            use_type_invariant(self);
        }
        if self.runners.is_none() {
            BatchAction::ReadRunners
        } else if self.reads.len() < self.bases.len() {
            BatchAction::ReadBase(self.reads.len())
        } else if self.results.len() < self.targets.len() {
            let target: usize = self.results.len();
            let base = base_position(&self.bases, self.targets[target].base_ref.as_str());
            proof {
                self@.bases().index_of_first_ensures(self@.targets[target as int].base_ref@);
                each_base_is_listed_once(self@.targets);
            }
            match base {
                Some(base) => BatchAction::Observe { target, base },
                None => BatchAction::Over,
            }
        } else {
            BatchAction::Over
        }
    }

    /// The branch at a position.
    pub fn base(&self, k: usize) -> (r: Option<&String>)
        ensures
            match r {
                Some(base) => k < self@.bases().len() && base@ == self@.bases()[k as int],
                None => k >= self@.bases().len(),
            },
    {
        proof {
            use_type_invariant(self);
            assert(views(self.bases@).len() == self.bases@.len());
        }
        if k < self.bases.len() {
            assert(views(self.bases@)[k as int] == self.bases@[k as int]@);
            Some(&self.bases[k])
        } else {
            None
        }
    }

    /// What was read of the repository on the branch at a position.
    pub fn observation(&self, k: usize) -> (r: Option<&RepoObservation>)
        ensures
            match r {
                Some(found) => k < self@.reads.len() && self@.reads[k as int] == Ok::<
                    RepoObservation,
                    Seq<char>,
                >(*found),
                None => k >= self@.reads.len() || self@.reads[k as int] is Err,
            },
    {
        if k < self.reads.len() {
            assert(self@.reads[k as int] == base_view(self.reads@[k as int]));
            match &self.reads[k] {
                Ok(found) => Some(found),
                Err(_) => None,
            }
        } else {
            None
        }
    }
}

/// Begins a batch of targets of one repository: each of their branches is read once.
pub fn observe_dispatch_wedge_targets<'a>(targets: &'a Vec<DispatchWedgeTargetRequest>) -> (r:
    DispatchBatch<'a>)
    ensures
        r@ == (DispatchBatchView {
            targets: targets@,
            runners: None,
            reads: Seq::empty(),
            results: Seq::empty(),
        }),
{
    let r = DispatchBatch {
        targets,
        bases: bases_of(targets),
        runners: None,
        reads: Vec::new(),
        results: Vec::new(),
    };
    proof {
        assert(r@.reads =~= Seq::empty());
        assert(r@.results =~= Seq::empty());
    }
    r
}

/// Takes a batch of targets one reply further.
pub fn observe_dispatch_wedge_targets_with<'a>(batch: DispatchBatch<'a>, reply: BatchReply) -> (r:
    DispatchBatch<'a>)
    ensures
        r@ == batch_step(batch@, reply),
        r@.sound(),
{
    proof {
        use_type_invariant(&batch);
        assert(views(batch.bases@).len() == batch.bases@.len());
    }
    let ghost before = batch@;
    let DispatchBatch { targets, bases, mut runners, mut reads, mut results } = batch;
    match reply {
        BatchReply::Runners(read) => {
            if runners.is_none() {
                runners = Some(read);
            }
        },
        BatchReply::Base(read) => {
            if runners.is_some() && reads.len() < bases.len() {
                reads.push(read);
                proof {
                    assert(batch_views(targets@, runners, reads@, results@).reads
                        =~= before.reads.push(base_view(read)));
                }
            }
        },
        BatchReply::Seen(result) => {
            if runners.is_some() && reads.len() == bases.len() && results.len() < targets.len() {
                results.push(result);
                proof {
                    assert(batch_views(targets@, runners, reads@, results@).results
                        =~= before.results.push(seen_view(result)));
                }
            }
        },
    }
    DispatchBatch::settle(targets, bases, runners, reads, results)
}

/// What was seen of each target of a batch that is over, in their order, and the
/// runners; a batch that is not over goes on.
pub fn finish_dispatch_wedge_targets<'a>(batch: DispatchBatch<'a>) -> (r: Result<
    (Vec<DispatchWedgeTargetResult>, Vec<DispatchRunnerObservation>),
    DispatchBatch<'a>,
>)
    ensures
        match r {
            Ok((results, runners)) => {
                &&& batch@.is_over()
                &&& results@.len() == batch@.targets.len()
                &&& forall|i: int|
                    0 <= i < results@.len() ==> same_target(
                        (#[trigger] results@[i]).target,
                        batch@.targets[i],
                    ) && seen_view(results@[i].result) == batch@.results[i]
                &&& forall|i: int|
                    0 <= i < results@.len() ==> match batch@.refusal(i) {
                        Some(error) => (#[trigger] results@[i]).result matches Err(e) && e@
                            == error,
                        None => true,
                    }
                &&& match batch@.runners {
                    Some(Ok(listed)) => runner_views(runners@) == listed,
                    _ => runners@.len() == 0,
                }
            },
            Err(rest) => !batch@.is_over() && rest == batch,
        },
{
    proof {
        use_type_invariant(&batch);
        assert(views(batch.bases@).len() == batch.bases@.len());
    }
    if batch.runners.is_none() || batch.reads.len() < batch.bases.len() || batch.results.len()
        < batch.targets.len() {
        return Err(batch);
    }
    let ghost before = batch@;
    let DispatchBatch { targets, bases, runners, reads, results } = batch;
    let ghost seen = results@;
    let mut rest = results;
    let mut out: Vec<DispatchWedgeTargetResult> = Vec::new();
    while rest.len() > 0
        invariant
            out@.len() + rest@.len() == seen.len(),
            seen.len() == targets@.len(),
            rest@ =~= seen.skip(out@.len() as int),
            forall|i: int|
                0 <= i < out@.len() ==> same_target((#[trigger] out@[i]).target, targets@[i])
                    && out@[i].result == seen[i],
        decreases rest.len(),
    {
        let result = rest.remove(0);
        let target = &targets[out.len()];
        out.push(
            DispatchWedgeTargetResult {
                target: DispatchWedgeTargetRequest {
                    base_ref: target.base_ref.clone(),
                    pull_request: target.pull_request,
                    expected_head_sha: target.expected_head_sha.clone(),
                },
                result,
            },
        );
    }
    let listed = match runners {
        Some(Ok(listed)) => listed,
        _ => Vec::new(),
    };
    proof {
        assert forall|i: int| 0 <= i < out@.len() implies seen_view((#[trigger] out@[i]).result)
            == before.results[i] by {}
        assert forall|i: int| 0 <= i < out@.len() implies match before.refusal(i) {
            Some(error) => (#[trigger] out@[i]).result matches Err(e) && e@ == error,
            None => true,
        } by {
            assert(seen_view(out@[i].result) == before.results[i]);
        }
    }
    Ok((out, listed))
}

/// Whether two targets are the same.
pub open spec fn same_target(
    a: DispatchWedgeTargetRequest,
    b: DispatchWedgeTargetRequest,
) -> bool {
    a.base_ref@ == b.base_ref@ && a.pull_request == b.pull_request && a.expected_head_sha@
        == b.expected_head_sha@
}

/// Where the runners cannot be read, no target is looked at, and each is told that
/// error.
pub proof fn unreadable_runners_stop_every_target(batch: DispatchBatchView, error: Seq<char>)
    requires
        batch.sound(),
        batch.runners == Some(Err::<Seq<RunnerView>, Seq<char>>(error)),
    ensures
        !(batch_action(batch) is Observe),
        forall|i: int|
            0 <= i < batch.results.len() ==> #[trigger] batch.results[i] == Err::<
                Seq<DispatchJobAuthority>,
                Seq<char>,
            >(error),
{
    assert forall|i: int| 0 <= i < batch.results.len() implies #[trigger] batch.results[i] == Err::<
        Seq<DispatchJobAuthority>,
        Seq<char>,
    >(error) by {
        assert(batch.refusal(i) == Some(error));
    }
}

/// The merge group of a target.
#[derive(Debug)]
pub struct TargetGroup {
    /// The position of its pull request among the observed ones.
    pub pr: usize,
    pub queue_position: u64,
    pub merge_group_head: String,
}

/// Whether an observed pull request is a target's.
pub open spec fn is_target(pr: ObservedPr, target: DispatchWedgeTargetRequest) -> bool {
    pr.fact.number == target.pull_request && same_ignoring_case(
        pr.fact.head_sha@,
        target.expected_head_sha@,
    )
}

/// Whether a position is the first of a target's pull request.
pub open spec fn first_target(
    prs: Seq<ObservedPr>,
    target: DispatchWedgeTargetRequest,
    i: int,
) -> bool {
    &&& 0 <= i < prs.len() && is_target(prs[i], target)
    &&& forall|k: int| 0 <= k < i ==> !is_target(#[trigger] prs[k], target)
}

/// The merge group of a target: its pull request must be open with the expected
/// head, be queued, and have a group.
pub fn observe_dispatch_wedge_target_from_repository(
    observation: &RepoObservation,
    target: &DispatchWedgeTargetRequest,
) -> (r: Option<TargetGroup>)
    ensures
        match r {
            Some(group) => {
                &&& first_target(observation.prs@, *target, group.pr as int)
                &&& observation.prs@[group.pr as int].fact.queue_position == Some(
                    group.queue_position,
                )
                &&& observation.merge_group_heads@.dom().contains(target.pull_request)
                &&& observation.merge_group_heads@[target.pull_request]@ == group.merge_group_head@
            },
            None => forall|i: int| #[trigger]
                first_target(observation.prs@, *target, i) ==> observation.prs@[i].fact.queue_position
                    is None || !observation.merge_group_heads@.dom().contains(target.pull_request),
        },
{
    let prs = &observation.prs;
    let mut i: usize = 0;
    while i < prs.len()
        invariant
            i <= prs.len(),
            prs == observation.prs,
            forall|k: int| 0 <= k < i ==> !is_target(#[trigger] prs@[k], *target),
        decreases prs.len() - i,
    {
        if prs[i].fact.number == target.pull_request && eq_ignore_case(
            prs[i].fact.head_sha.as_str(),
            target.expected_head_sha.as_str(),
        ) {
            proof {
                assert(first_target(prs@, *target, i as int));
                assert forall|k: int| #[trigger] first_target(prs@, *target, k) implies k == i by {
                    if k < i {
                        assert(!is_target(prs@[k], *target));
                    } else if i < k {
                        assert(!is_target(prs@[i as int], *target));
                    }
                }
            }
            return match prs[i].fact.queue_position {
                None => None,
                Some(queue_position) => match observation.merge_group_heads.get(
                    &target.pull_request,
                ) {
                    None => None,
                    Some(head) => Some(
                        TargetGroup { pr: i, queue_position, merge_group_head: head.clone() },
                    ),
                },
            };
        }
        i = i + 1;
    }
    proof {
        assert forall|k: int| #[trigger] first_target(prs@, *target, k) implies false by {
            assert(!is_target(prs@[k], *target));
        }
    }
    None
}

/// Whether a run is of a merge group.
pub open spec fn of_group(run: StewardRun, head: Seq<char>) -> bool {
    same_ignoring_case(run.event@, "merge_group"@) && same_ignoring_case(run.head_sha@, head)
}

/// Whether a run is of a merge group.
pub fn is_group_run(run: &StewardRun, head: &str) -> (r: bool)
    ensures
        r == of_group(*run, head@),
{
    eq_ignore_case(run.event.as_str(), "merge_group") && eq_ignore_case(run.head_sha.as_str(), head)
}

/// Whether a job waits for a runner.
pub open spec fn unassigned(job: StewardJob) -> bool {
    &&& same_ignoring_case(job.status@, "queued"@)
    &&& job.conclusion is None
    &&& match job.runner_name {
        Some(name) => name@.len() == 0,
        None => true,
    }
}

/// Whether a job waits for a runner.
pub fn is_unassigned(job: &StewardJob) -> (r: bool)
    ensures
        r == unassigned(*job),
{
    eq_ignore_case(job.status.as_str(), "queued") && job.conclusion.is_none()
        && match &job.runner_name {
        Some(name) => name.as_str().is_empty(),
        None => true,
    }
}

/// Whether a check with a name is required.
pub open spec fn requires_name(checks: Seq<RequiredCheck>, name: Seq<char>) -> bool {
    exists|i: int| 0 <= i < checks.len() && same_ignoring_case(#[trigger] checks[i].context@, name)
}

/// Whether a listed job is looked at more closely: it waits for a runner, and a
/// required check has its name.
pub fn wants_detail(job: &StewardJob, required_checks: &Vec<RequiredCheck>) -> (r: bool)
    ensures
        r == (unassigned(*job) && requires_name(required_checks@, job.name@)),
{
    if !is_unassigned(job) {
        return false;
    }
    let mut i: usize = 0;
    while i < required_checks.len()
        invariant
            i <= required_checks.len(),
            unassigned(*job),
            forall|k: int|
                0 <= k < i ==> !same_ignoring_case(
                    #[trigger] required_checks@[k].context@,
                    job.name@,
                ),
        decreases required_checks.len() - i,
    {
        if eq_ignore_case(required_checks[i].context.as_str(), job.name.as_str()) {
            return true;
        }
        i = i + 1;
    }
    false
}

/// Whether a job is what a required check asks for: it has the check's name, and
/// where the check names a producer, that produced the job's check.
pub open spec fn satisfies(
    required: RequiredCheck,
    detail: StewardJob,
    run_id: u64,
    producers: Map<u64, JobCheckProducer>,
) -> bool {
    &&& same_ignoring_case(required.context@, detail.name@)
    &&& required.app_id matches Some(app_id) ==> {
        &&& producers.dom().contains(detail.id)
        &&& producers[detail.id].run_id == run_id
        &&& producers[detail.id].job_id == detail.id
        &&& same_ignoring_case(producers[detail.id].name@, detail.name@)
        &&& producers[detail.id].app_id == Some(app_id)
    }
}

/// Whether a job read on its own is still the listed one and waits for a runner.
pub open spec fn still_listed(listed: StewardJob, detail: StewardJob) -> bool {
    detail.id == listed.id && same_ignoring_case(detail.name@, listed.name@) && unassigned(detail)
}

/// Whether exactly one required check, at a position, is satisfied by a job.
pub open spec fn sole_requirement(
    checks: Seq<RequiredCheck>,
    detail: StewardJob,
    run_id: u64,
    producers: Map<u64, JobCheckProducer>,
    i: int,
) -> bool {
    &&& 0 <= i < checks.len() && satisfies(checks[i], detail, run_id, producers)
    &&& forall|k: int|
        0 <= k < checks.len() && satisfies(#[trigger] checks[k], detail, run_id, producers) ==> k
            == i
}

/// The only required check that a queued job is for.
pub fn current_required_dispatch_job(
    listed: &StewardJob,
    detail: &StewardJob,
    run_id: u64,
    required_checks: &Vec<RequiredCheck>,
    producers: &BTreeMap<u64, JobCheckProducer>,
) -> (r: Option<usize>)
    ensures
        match r {
            Some(i) => still_listed(*listed, *detail) && sole_requirement(
                required_checks@,
                *detail,
                run_id,
                producers@,
                i as int,
            ),
            None => !still_listed(*listed, *detail) || forall|i: int|
                !#[trigger] sole_requirement(
                    required_checks@,
                    *detail,
                    run_id,
                    producers@,
                    i,
                ),
        },
{
    if detail.id != listed.id || !eq_ignore_case(detail.name.as_str(), listed.name.as_str())
        || !is_unassigned(detail) {
        return None;
    }
    let produced: Option<u64> = match producers.get(&detail.id) {
        Some(producer) => if producer.run_id == run_id && producer.job_id == detail.id
            && eq_ignore_case(producer.name.as_str(), detail.name.as_str()) {
            producer.app_id
        } else {
            None
        },
        None => None,
    };
    let mut found: Option<usize> = None;
    let mut i: usize = 0;
    while i < required_checks.len()
        invariant
            i <= required_checks.len(),
            forall|k: int|
                0 <= k < required_checks@.len() ==> (satisfies(
                    #[trigger] required_checks@[k],
                    *detail,
                    run_id,
                    producers@,
                ) <==> same_ignoring_case(required_checks@[k].context@, detail.name@) && (
                required_checks@[k].app_id is None || produced == required_checks@[k].app_id)),
            match found {
                None => forall|k: int|
                    0 <= k < i ==> !satisfies(
                        #[trigger] required_checks@[k],
                        *detail,
                        run_id,
                        producers@,
                    ),
                Some(j) => j < i && satisfies(
                    required_checks@[j as int],
                    *detail,
                    run_id,
                    producers@,
                ) && forall|k: int|
                    0 <= k < i && satisfies(
                        #[trigger] required_checks@[k],
                        *detail,
                        run_id,
                        producers@,
                    ) ==> k == j,
            },
        decreases required_checks.len() - i,
    {
        let required = &required_checks[i];
        proof {
            assert(required == required_checks@[i as int]);
        }
        let matches_check = eq_ignore_case(required.context.as_str(), detail.name.as_str())
            && match required.app_id {
            None => true,
            Some(app_id) => match produced {
                Some(id) => id == app_id,
                None => false,
            },
        };
        if matches_check {
            match found {
                None => {
                    found = Some(i);
                },
                Some(j) => {
                    proof {
                        assert forall|k: int| !#[trigger] sole_requirement(
                            required_checks@,
                            *detail,
                            run_id,
                            producers@,
                            k,
                        ) by {
                            assert(satisfies(
                                required_checks@[i as int],
                                *detail,
                                run_id,
                                producers@,
                            ));
                            assert(satisfies(
                                required_checks@[j as int],
                                *detail,
                                run_id,
                                producers@,
                            ));
                        }
                    }
                    return None;
                },
            }
        }
        i = i + 1;
    }
    found
}

/// On whose authority a queued job is said to be stuck.
#[derive(Debug)]
pub struct DispatchJobAuthority {
    pub repository: String,
    pub base_ref: String,
    pub pull_request: u64,
    pub pull_request_head: String,
    pub queue_position: u64,
    pub merge_group_head: String,
    pub workflow_run_id: u64,
    pub workflow_id: u64,
    pub run_attempt: u64,
    pub run_event: String,
    pub run_head: String,
    pub job_id: u64,
    pub job_name: String,
    pub job_status: String,
    pub job_conclusion: Option<String>,
    pub runner_name: Option<String>,
    pub labels: Vec<String>,
    pub first_observed_unassigned_at: String,
    pub required_context: String,
    pub required_app_id: Option<u64>,
    pub producer_app_id: Option<u64>,
}

/// Whether a queued job is not stuck: it is no longer the listed one, waits for no
/// runner, or is not for exactly one required check.
pub open spec fn job_passed_over(
    observation: RepoObservation,
    run: StewardRun,
    listed: StewardJob,
    detail: StewardJob,
    producers: Map<u64, JobCheckProducer>,
) -> bool {
    !still_listed(listed, detail) || forall|i: int|
        !#[trigger] sole_requirement(observation.required_checks@, detail, run.id, producers, i)
}

/// Whether an authority tells of a stuck job.
pub open spec fn tells_job(
    a: DispatchJobAuthority,
    observation: RepoObservation,
    group: TargetGroup,
    run: StewardRun,
    listed: StewardJob,
    detail: StewardJob,
    producers: Map<u64, JobCheckProducer>,
    at: Seq<char>,
) -> bool {
    let pr = observation.prs@[group.pr as int].fact;
    &&& still_listed(listed, detail)
    &&& exists|i: int| #[trigger]
        sole_requirement(observation.required_checks@, detail, run.id, producers, i)
            && a.required_app_id == observation.required_checks@[i].app_id
    &&& a.repository@ == observation.repo@
    &&& a.base_ref@ == observation.base@
    &&& a.pull_request == pr.number
    &&& a.pull_request_head@ == pr.head_sha@
    &&& a.queue_position == group.queue_position
    &&& a.merge_group_head@ == group.merge_group_head@
    &&& a.workflow_run_id == run.id
    &&& a.workflow_id == run.workflow_id
    &&& a.run_attempt == run.run_attempt
    &&& a.run_event@ == run.event@
    &&& a.run_head@ == run.head_sha@
    &&& a.job_id == detail.id
    &&& a.job_name@ == detail.name@
    &&& a.job_status@ == detail.status@
    &&& opt_view(a.job_conclusion) == opt_view(detail.conclusion)
    &&& opt_view(a.runner_name) == opt_view(detail.runner_name)
    &&& views(a.labels@) == views(detail.labels@)
    &&& a.first_observed_unassigned_at@ == at
    &&& a.required_context@ == detail.name@
    &&& a.producer_app_id == if producers.dom().contains(detail.id) {
        producers[detail.id].app_id
    } else {
        None
    }
}

/// What is known of a queued job: `None` where it is not stuck.
pub fn dispatch_job_authority(
    observation: &RepoObservation,
    group: &TargetGroup,
    run: &StewardRun,
    listed: &StewardJob,
    detail: &StewardJob,
    producers: &BTreeMap<u64, JobCheckProducer>,
    at: &str,
) -> (r: Option<DispatchJobAuthority>)
    requires
        group.pr < observation.prs@.len(),
    ensures
        match r {
            None => job_passed_over(*observation, *run, *listed, *detail, producers@),
            Some(a) => tells_job(
                a,
                *observation,
                *group,
                *run,
                *listed,
                *detail,
                producers@,
                at@,
            ),
        },
{
    let required = match current_required_dispatch_job(
        listed,
        detail,
        run.id,
        &observation.required_checks,
        producers,
    ) {
        Some(i) => i,
        None => return None,
    };
    let pr = &observation.prs[group.pr].fact;
    let producer_app_id: Option<u64> = match producers.get(&detail.id) {
        Some(producer) => producer.app_id,
        None => None,
    };
    Some(
        DispatchJobAuthority {
            repository: observation.repo.clone(),
            base_ref: observation.base.clone(),
            pull_request: pr.number,
            pull_request_head: pr.head_sha.clone(),
            queue_position: group.queue_position,
            merge_group_head: group.merge_group_head.clone(),
            workflow_run_id: run.id,
            workflow_id: run.workflow_id,
            run_attempt: run.run_attempt,
            run_event: run.event.clone(),
            run_head: run.head_sha.clone(),
            job_id: detail.id,
            job_name: detail.name.clone(),
            job_status: detail.status.clone(),
            job_conclusion: copy_opt(detail.conclusion.as_ref()),
            runner_name: copy_opt(detail.runner_name.as_ref()),
            labels: copy_texts(&detail.labels),
            first_observed_unassigned_at: at.to_owned(),
            required_context: detail.name.clone(),
            required_app_id: observation.required_checks[required].app_id,
            producer_app_id,
        },
    )
}

/// Refuses an observation whose pull request is no longer the target's.
pub fn revalidate_dispatch_wedge_pull_request(
    observed: &ObservedPr,
    target: &DispatchWedgeTargetRequest,
    live: Option<&ObservedPr>,
) -> (r: Result<(), String>)
    ensures
        if still_target(
            *observed,
            *target,
            match live {
                Some(pr) => Some(*pr),
                None => None,
            },
        ) {
            r is Ok
        } else {
            r matches Err(e) && e@ == "dispatch-wedge PR authority changed before final read"@
        },
{
    match live {
        Some(pr) => {
            if pr.fact.number == target.pull_request && eq_ignore_case(
                pr.fact.head_sha.as_str(),
                target.expected_head_sha.as_str(),
            ) && eq_ignore_case(pr.fact.head_sha.as_str(), observed.fact.head_sha.as_str()) {
                return Ok(());
            }
        },
        None => {},
    }
    Err("dispatch-wedge PR authority changed before final read".to_owned())
}

/// Whether a merge group is still the one in the queue, at its position.
pub open spec fn group_holds(
    group: TargetGroup,
    enabled: bool,
    position: Option<u64>,
    head: Option<Seq<char>>,
) -> bool {
    enabled && position == Some(group.queue_position) && (head matches Some(text)
        && same_ignoring_case(text, group.merge_group_head@))
}

/// Refuses an observation whose merge group has moved in the queue, left it, or
/// been made anew.
fn revalidate_dispatch_wedge_group(
    group: &TargetGroup,
    enabled: bool,
    live_position: Option<u64>,
    live_head: Option<&String>,
) -> (r: Result<(), String>)
    ensures
        if group_holds(*group, enabled, live_position, opt_ref_view(live_head)) {
            r is Ok
        } else {
            r matches Err(e) && e@ == "dispatch-wedge queue authority changed before final read"@
        },
{
    let same_head = match live_head {
        Some(head) => eq_ignore_case(head.as_str(), group.merge_group_head.as_str()),
        None => false,
    };
    let same_position = match live_position {
        Some(position) => position == group.queue_position,
        None => false,
    };
    if enabled && same_position && same_head {
        Ok(())
    } else {
        Err("dispatch-wedge queue authority changed before final read".to_owned())
    }
}

/// What was read of the queue about a target.
#[derive(Debug)]
pub struct LiveGroup {
    pub enabled: bool,
    pub position: Option<u64>,
    pub head: Option<String>,
}

/// What came of a read of a last check.
#[derive(Debug)]
pub enum WedgeReply {
    PullRequest(Result<Option<ObservedPr>, String>),
    Queue(Result<LiveGroup, String>),
}

/// Where a last check stands.
pub struct WedgeCheckView {
    pub observed: ObservedPr,
    pub target: DispatchWedgeTargetRequest,
    pub group: TargetGroup,
    /// Whether the pull request is still the target's.
    pub passed: bool,
    /// What the check has come to.
    pub outcome: Option<Result<(), Seq<char>>>,
}

/// Whether a pull request that was read is still the observed one and the target's.
pub open spec fn still_target(
    observed: ObservedPr,
    target: DispatchWedgeTargetRequest,
    live: Option<ObservedPr>,
) -> bool {
    live matches Some(pr) && is_target(pr, target) && same_ignoring_case(
        pr.fact.head_sha@,
        observed.fact.head_sha@,
    )
}

/// The check after a reply: the pull request first, and the queue last. A reply that
/// nothing asked for changes nothing.
pub open spec fn wedge_check_step(check: WedgeCheckView, reply: WedgeReply) -> WedgeCheckView {
    let refused = |error: Seq<char>| WedgeCheckView { outcome: Some(Err(error)), ..check };
    if check.outcome is Some {
        check
    } else {
        match reply {
            WedgeReply::PullRequest(read) => if check.passed {
                check
            } else {
                match read {
                    Err(error) => refused(error@),
                    Ok(live) => if still_target(check.observed, check.target, live) {
                        WedgeCheckView { passed: true, ..check }
                    } else {
                        refused("dispatch-wedge PR authority changed before final read"@)
                    },
                }
            },
            WedgeReply::Queue(read) => if !check.passed {
                check
            } else {
                match read {
                    Err(error) => refused(error@),
                    Ok(live) => if group_holds(
                        check.group,
                        live.enabled,
                        live.position,
                        opt_view(live.head),
                    ) {
                        WedgeCheckView { outcome: Some(Ok(())), ..check }
                    } else {
                        refused("dispatch-wedge queue authority changed before final read"@)
                    },
                }
            },
        }
    }
}

/// The last check of an observation before it counts.
#[derive(Debug)]
pub struct WedgeCheck<'a> {
    observed: &'a ObservedPr,
    target: &'a DispatchWedgeTargetRequest,
    group: &'a TargetGroup,
    passed: bool,
    outcome: Option<Result<(), String>>,
}

impl<'a> View for WedgeCheck<'a> {
    type V = WedgeCheckView;

    closed spec fn view(&self) -> WedgeCheckView {
        WedgeCheckView {
            observed: *self.observed,
            target: *self.target,
            group: *self.group,
            passed: self.passed,
            outcome: match self.outcome {
                Some(outcome) => Some(result_view(outcome)),
                None => None,
            },
        }
    }
}

/// What a last check does next.
#[derive(Debug)]
pub enum WedgeAction {
    ReadPullRequest,
    ReadQueue,
    Told(Result<(), String>),
}

impl<'a> WedgeCheck<'a> {
    #[verifier::type_invariant]
    spec fn kept(self) -> bool {
        self@.outcome == Some(Ok::<(), Seq<char>>(())) ==> self@.passed
    }

    /// A check that begins.
    pub fn new(
        observed: &'a ObservedPr,
        target: &'a DispatchWedgeTargetRequest,
        group: &'a TargetGroup,
    ) -> (r: Self)
        ensures
            r@ == (WedgeCheckView {
                observed: *observed,
                target: *target,
                group: *group,
                passed: false,
                outcome: None,
            }),
    {
        WedgeCheck { observed, target, group, passed: false, outcome: None }
    }

    /// What the check does next: the queue is read only where the pull request
    /// passed, and what the check has come to is told otherwise.
    pub fn action(&self) -> (r: WedgeAction)
        ensures
            match self@.outcome {
                Some(outcome) => r matches WedgeAction::Told(told) && result_view(told) == outcome,
                None => if self@.passed {
                    r is ReadQueue
                } else {
                    r is ReadPullRequest
                },
            },
            r matches WedgeAction::Told(Ok(_)) ==> self@.passed,
    {
        proof {
            use_type_invariant(self);
        }
        match &self.outcome {
            Some(Ok(_)) => WedgeAction::Told(Ok(())),
            Some(Err(error)) => WedgeAction::Told(Err(error.clone())),
            None => if self.passed {
                WedgeAction::ReadQueue
            } else {
                WedgeAction::ReadPullRequest
            },
        }
    }
}

/// Takes the last check of an observation one reply further.
pub fn revalidate_dispatch_wedge_authority_with<'a>(check: WedgeCheck<'a>, reply: WedgeReply) -> (r:
    WedgeCheck<'a>)
    ensures
        r@ == wedge_check_step(check@, reply),
{
    proof {
        use_type_invariant(&check);
    }
    let WedgeCheck { observed, target, group, mut passed, mut outcome } = check;
    if outcome.is_none() {
        match reply {
            WedgeReply::PullRequest(read) => {
                if !passed {
                    match read {
                        Err(error) => {
                            outcome = Some(Err(error));
                        },
                        Ok(live) => {
                            match revalidate_dispatch_wedge_pull_request(
                                observed,
                                target,
                                live.as_ref(),
                            ) {
                                Ok(_) => {
                                    passed = true;
                                },
                                Err(error) => {
                                    outcome = Some(Err(error));
                                },
                            }
                        },
                    }
                }
            },
            WedgeReply::Queue(read) => {
                if passed {
                    match read {
                        Err(error) => {
                            outcome = Some(Err(error));
                        },
                        Ok(live) => {
                            outcome = Some(
                                revalidate_dispatch_wedge_group(
                                    group,
                                    live.enabled,
                                    live.position,
                                    live.head.as_ref(),
                                ),
                            );
                        },
                    }
                }
            },
        }
    }
    WedgeCheck { observed, target, group, passed, outcome }
}

/// An observation counts exactly where the pull request that was read is still the
/// target's and the queue that was read after it still holds its group.
pub proof fn authority_needs_both_facts(
    check: WedgeCheckView,
    live: Result<Option<ObservedPr>, String>,
    queue: Result<LiveGroup, String>,
)
    requires
        !check.passed,
        check.outcome is None,
    ensures
        ({
            let first = wedge_check_step(check, WedgeReply::PullRequest(live));
            let last = wedge_check_step(first, WedgeReply::Queue(queue));
            &&& last.outcome is Some
            &&& last.outcome == Some(Ok::<(), Seq<char>>(())) <==> (live matches Ok(pr)
                && still_target(check.observed, check.target, pr) && (queue matches Ok(group)
                && group_holds(check.group, group.enabled, group.position, opt_view(group.head))))
            &&& wedge_check_step(check, WedgeReply::Queue(queue)) == check
        }),
{
}

/// A job that is said to be stuck is one that no runner has taken.
pub proof fn a_stuck_job_has_no_runner(listed: StewardJob, detail: StewardJob)
    requires
        still_listed(listed, detail),
    ensures
        detail.runner_name matches Some(name) ==> name@.len() == 0,
        detail.conclusion is None,
{
}

/// The outcome for the only target of a batch.
pub fn observe_dispatch_wedge_target(results: Vec<DispatchWedgeTargetResult>) -> (r: Result<
    Vec<DispatchJobAuthority>,
    String,
>)
    ensures
        if results@.len() == 0 {
            r matches Err(e) && e@ == "dispatch-wedge batch omitted its only target"@
        } else {
            r == results@.last().result
        },
{
    let mut results = results;
    match results.pop() {
        Some(seen) => seen.result,
        None => Err("dispatch-wedge batch omitted its only target".to_owned()),
    }
}

/// A target is refused exactly where the runners or its own base could not be read; it is
/// refused with that error.
pub proof fn a_readable_target_is_observed(
    bases: Seq<Seq<char>>,
    runners: Option<Result<Seq<RunnerView>, Seq<char>>>,
    reads: Seq<Result<RepoObservation, Seq<char>>>,
    target: DispatchWedgeTargetRequest,
    k: int,
)
    requires
        bases.index_of_first(target.base_ref@) == Some(k),
    ensures
        target_refusal(bases, runners, reads, target) is None <==> !(runners matches Some(Err(_)))
            && reads[k] is Ok,
        target_refusal(bases, runners, reads, target) matches Some(error) ==> runners == Some(
            Err::<Seq<RunnerView>, Seq<char>>(error),
        ) || reads[k] == Err::<RepoObservation, Seq<char>>(error),
{
}

proof fn settling_keeps_what_was_read(batch: DispatchBatchView)
    ensures
        ({
            let next = batch.settled();
            &&& next.targets == batch.targets && next.runners == batch.runners && next.reads
                == batch.reads
            &&& next.results.len() >= batch.results.len()
            &&& forall|i: int|
                0 <= i < batch.results.len() ==> #[trigger] next.results[i] == batch.results[i]
            &&& forall|i: int|
                batch.results.len() <= i < next.results.len() ==> #[trigger] next.results[i] is Err
        }),
    decreases batch.targets.len() - batch.results.len(),
{
    if batch.is_read() && batch.results.len() < batch.targets.len() {
        if let Some(error) = batch.refusal(batch.results.len() as int) {
            let told = DispatchBatchView { results: batch.results.push(Err(error)), ..batch };
            settling_keeps_what_was_read(told);
            assert forall|i: int| 0 <= i < batch.results.len() implies #[trigger] batch.settled().results[i]
                == batch.results[i] by {
                assert(told.results[i] == batch.results[i]);
            }
            assert forall|i: int|
                batch.results.len() <= i < batch.settled().results.len() implies #[trigger] batch.settled().results[i]
                is Err by {
                if i == batch.results.len() {
                    assert(told.results[i] == Err::<Seq<DispatchJobAuthority>, Seq<char>>(error));
                }
            }
        }
    }
}

/// What a batch asks for and is told is kept for that target, and no result that was told
/// before changes.
pub proof fn each_target_keeps_its_result(batch: DispatchBatchView, reply: BatchReply)
    requires
        batch.sound(),
    ensures
        ({
            let next = batch_step(batch, reply);
            &&& next.targets == batch.targets
            &&& forall|i: int|
                0 <= i < batch.results.len() ==> #[trigger] next.results[i] == batch.results[i]
            &&& batch_action(batch) is ReadRunners ==> (reply matches BatchReply::Runners(read)
                ==> next.runners == Some(runners_view(read)))
            &&& batch_action(batch) is ReadBase ==> (reply matches BatchReply::Base(read)
                ==> next.reads == batch.reads.push(base_view(read)))
            &&& batch_action(batch) is Observe ==> (reply matches BatchReply::Seen(result)
                ==> next.results.len() > batch.results.len() && next.results[batch.results.len() as int]
                == seen_view(result))
            &&& batch_action(batch) is Over ==> next == batch
        }),
{
    match reply {
        BatchReply::Runners(read) => {
            settling_keeps_what_was_read(
                DispatchBatchView { runners: Some(runners_view(read)), ..batch },
            );
        },
        BatchReply::Base(read) => {
            settling_keeps_what_was_read(
                DispatchBatchView { reads: batch.reads.push(base_view(read)), ..batch },
            );
        },
        BatchReply::Seen(result) => {
            let told = DispatchBatchView {
                results: batch.results.push(seen_view(result)),
                ..batch
            };
            settling_keeps_what_was_read(told);
            assert(told.results[batch.results.len() as int] == seen_view(result));
            assert forall|i: int| 0 <= i < batch.results.len() implies #[trigger] batch_step(
                batch,
                reply,
            ).results[i] == batch.results[i] by {
                assert(told.results[i] == batch.results[i]);
            }
        },
    }
}

/// A job is unassigned exactly while it is queued, without a conclusion and without a
/// named runner.
pub proof fn only_a_queued_job_is_unassigned(job: StewardJob)
    ensures
        unassigned(job) ==> same_ignoring_case(job.status@, "queued"@) && job.conclusion is None,
        job.runner_name matches Some(name) ==> (name@.len() > 0 ==> !unassigned(job)),
        same_ignoring_case(job.status@, "queued"@) && job.conclusion is None && job.runner_name
            is None ==> unassigned(job),
{
}

/// A requirement that names no producer is met by any job of its name; one that names a
/// producer only by the job of that name that the producer is known to have made in that
/// run.
pub proof fn a_bound_requirement_needs_its_producer(
    required: RequiredCheck,
    detail: StewardJob,
    run_id: u64,
    producers: Map<u64, JobCheckProducer>,
)
    ensures
        required.app_id is None ==> (satisfies(required, detail, run_id, producers)
            <==> same_ignoring_case(required.context@, detail.name@)),
        satisfies(required, detail, run_id, producers) ==> same_ignoring_case(
            required.context@,
            detail.name@,
        ),
        required.app_id is Some && satisfies(required, detail, run_id, producers)
            ==> producers.dom().contains(detail.id) && producers[detail.id].app_id
            == required.app_id && producers[detail.id].run_id == run_id
            && producers[detail.id].job_id == detail.id,
        required.app_id is Some && same_ignoring_case(required.context@, detail.name@)
            && producers.dom().contains(detail.id) && producers[detail.id].app_id == required.app_id
            && producers[detail.id].run_id == run_id && producers[detail.id].job_id == detail.id
            && same_ignoring_case(producers[detail.id].name@, detail.name@) ==> satisfies(
            required,
            detail,
            run_id,
            producers,
        ),
{
}

/// A job that meets two requirements is that of none.
pub proof fn two_requirements_are_none(
    checks: Seq<RequiredCheck>,
    detail: StewardJob,
    run_id: u64,
    producers: Map<u64, JobCheckProducer>,
    i: int,
    j: int,
    k: int,
)
    requires
        0 <= i < j < checks.len(),
        satisfies(checks[i], detail, run_id, producers),
        satisfies(checks[j], detail, run_id, producers),
    ensures
        !sole_requirement(checks, detail, run_id, producers, k),
{
}

/// A merge group still holds exactly where the queue is on and shows the pull request at
/// its place with the same head.
pub proof fn a_group_holds_at_its_place(
    group: TargetGroup,
    enabled: bool,
    position: Option<u64>,
    head: Seq<char>,
)
    ensures
        !enabled ==> !group_holds(group, enabled, position, Some(head)),
        position != Some(group.queue_position) ==> !group_holds(
            group,
            enabled,
            position,
            Some(head),
        ),
        !group_holds(group, enabled, position, None),
        group_holds(group, true, Some(group.queue_position), Some(group.merge_group_head@)),
{
}

/// A runner whose row does not say that it is free counts as busy.
pub proof fn an_unknown_runner_is_busy(row: JsonTree)
    ensures
        !runner_of(row).busy <==> row.boolean_at("busy"@) == Some(false),
        row.number_at("id"@) matches Some(id) ==> runner_of(row).runner_id == id,
        row.text_at("name"@) matches Some(name) ==> runner_of(row).name == name,
        row.text_at("status"@) matches Some(status) ==> runner_of(row).status == status,
{
}

} // verus!
