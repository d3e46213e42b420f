//! The walk over the pending records that an earlier pass left: one outcome for
//! each, in the order of their keys, told by repository at the end.
use vstd::prelude::*;

use crate::capacity::audited_once;
use crate::ledger::{
    capacity_subject, AuditTexts, PendingCancellation, PendingTexts, StewardLedger,
};
use crate::model::MutationReport;
use crate::resume::{
    audit_unhealthy_recovery, cancellation_views, recovery_error, recovery_message,
    CancellationReport, CancellationView, RecoveryReports,
};
use crate::text::{opt_view, views};
use crate::text_map::TextMap;

verus! {

/// What became of a record: what was done, or the error that is told.
pub struct RecoveryItemView {
    pub repo: Seq<char>,
    pub outcome: Result<CancellationView, Seq<char>>,
}

/// Where a walk stands: what became of the first records, and the error of the one
/// after them while it is being recorded.
pub struct ResumeWalkView {
    pub records: Seq<(Seq<char>, PendingTexts)>,
    pub items: Seq<RecoveryItemView>,
    pub held: Option<Seq<char>>,
}

impl ResumeWalkView {
    /// Whether every record was taken up.
    pub open spec fn is_over(self) -> bool {
        self.items.len() == self.records.len()
    }

    /// The record that is taken up.
    pub open spec fn current(self) -> PendingTexts {
        self.records[self.items.len() as int].1
    }

    /// The walk with what became of the record that is taken up.
    pub open spec fn told(self, outcome: Result<CancellationView, Seq<char>>) -> ResumeWalkView {
        ResumeWalkView {
            items: self.items.push(RecoveryItemView { repo: self.current().repo, outcome }),
            held: None,
            ..self
        }
    }

    /// Whether the outcomes are those of the first records, one for each.
    pub open spec fn sound(self) -> bool {
        &&& self.items.len() <= self.records.len()
        &&& self.held is Some ==> !self.is_over()
        &&& forall|i: int|
            0 <= i < self.items.len() ==> {
                &&& (#[trigger] self.items[i]).repo == self.records[i].1.repo
                &&& self.items[i].outcome matches Ok(done) ==> {
                    &&& done.run_id == self.records[i].1.run_id
                    &&& done.reason == self.records[i].1.reason
                    &&& done.mutation is Some
                    &&& done.error is None
                }
            }
    }
}

/// What came of an action of a walk.
#[derive(Debug)]
pub enum RecordReply {
    /// What became of the record that was taken up.
    Resumed(MutationReport),
    /// Why the audit of a failure could not be saved, where it could not.
    Saved(Option<String>),
}

/// Whether a report tells that a record was taken up with success.
pub open spec fn recovered(told: (Option<Seq<char>>, Option<Seq<char>>)) -> bool {
    told.0 is Some && told.1 is None
}

/// Whether a reply tells of a failure that is audited.
pub open spec fn audits_failure(walk: ResumeWalkView, reply: RecordReply) -> bool {
    !walk.is_over() && walk.held is None && (reply matches RecordReply::Resumed(report)
        && !recovered(report.texts()))
}

/// The walk after a reply: a failure is audited and saved before it is told. A reply
/// that nothing asked for changes nothing.
pub open spec fn resume_walk_step(walk: ResumeWalkView, reply: RecordReply) -> ResumeWalkView {
    match (walk.held, reply) {
        (None, RecordReply::Resumed(report)) => if walk.is_over() {
            walk
        } else if recovered(report.texts()) {
            walk.told(
                Ok(
                    CancellationView {
                        run_id: walk.current().run_id,
                        reason: walk.current().reason,
                        mutation: report.texts().0,
                        error: None,
                    },
                ),
            )
        } else {
            ResumeWalkView {
                held: Some(
                    match report.texts().1 {
                        Some(error) => error,
                        None => Seq::empty(),
                    },
                ),
                ..walk
            }
        },
        (Some(error), RecordReply::Saved(unsaved)) => walk.told(
            Err(recovery_error(walk.current().run_id, error, opt_view(unsaved))),
        ),
        _ => walk,
    }
}

/// What a walk asks for.
#[derive(Clone, Copy, Debug, PartialEq, Eq, Structural)]
pub enum RecordAction {
    /// Take up the record at this position.
    Resume(usize),
    /// Save the audit of a failure.
    Save,
    /// Nothing: the walk is over.
    Over,
}

/// What a walk asks for.
pub open spec fn resume_walk_action(walk: ResumeWalkView) -> RecordAction {
    if walk.held is Some {
        RecordAction::Save
    } else if walk.is_over() {
        RecordAction::Over
    } else {
        RecordAction::Resume(walk.items.len() as usize)
    }
}

/// What became of a record.
#[derive(Debug)]
struct RecoveryItem {
    repo: String,
    outcome: Result<CancellationReport, String>,
}

impl RecoveryItem {
    spec fn texts(self) -> RecoveryItemView {
        RecoveryItemView {
            repo: self.repo@,
            outcome: match self.outcome {
                Ok(report) => Ok(report@),
                Err(error) => Err(error@),
            },
        }
    }
}

/// A walk over pending records.
#[derive(Debug)]
pub struct ResumeWalk {
    records: Vec<(String, PendingCancellation)>,
    items: Vec<RecoveryItem>,
    held: Option<String>,
}

spec fn item_views(items: Seq<RecoveryItem>) -> Seq<RecoveryItemView> {
    Seq::new(items.len(), |i: int| items[i].texts())
}

/// Records, in texts.
pub open spec fn record_views(records: Seq<(String, PendingCancellation)>) -> Seq<
    (Seq<char>, PendingTexts),
> {
    Seq::new(records.len(), |i: int| (records[i].0@, records[i].1@))
}

/// The pending records, in the order of their keys.
pub open spec fn pending_records(pending: TextMap<PendingCancellation>) -> Seq<
    (Seq<char>, PendingTexts),
> {
    Seq::new(pending.keys().len(), |i: int| (pending.keys()[i], pending.values()[i]@))
}

impl View for ResumeWalk {
    type V = ResumeWalkView;

    closed spec fn view(&self) -> ResumeWalkView {
        ResumeWalkView {
            records: record_views(self.records@),
            items: item_views(self.items@),
            held: opt_view(self.held),
        }
    }
}

impl ResumeWalk {
    #[verifier::type_invariant]
    spec fn kept(self) -> bool {
        self@.sound()
    }

    /// A walk over pending records that begins: it takes up those that are there
    /// now.
    pub fn new(pending: &TextMap<PendingCancellation>) -> (r: Self)
        ensures
            r@ == (ResumeWalkView {
                records: pending_records(*pending),
                items: Seq::empty(),
                held: None,
            }),
    {
        let n: usize = pending.len();
        let mut records: Vec<(String, PendingCancellation)> = Vec::new();
        let mut i: usize = 0;
        while i < n
            invariant
                i <= n,
                n == pending.keys().len(),
                n == pending.values().len(),
                records@.len() == i,
                forall|k: int|
                    0 <= k < i ==> (#[trigger] records@[k]).0@ == pending.keys()[k]
                        && records@[k].1@ == pending.values()[k]@,
            decreases n - i,
        {
            records.push((pending.key_at(i).clone(), pending.value_at(i).dup()));
            i = i + 1;
        }
        let r = ResumeWalk { records, items: Vec::new(), held: None };
        proof {
            assert(r@.records =~= pending_records(*pending));
            assert(r@.items =~= Seq::empty());
        }
        r
    }

    /// What the walk asks for.
    pub fn action(&self) -> (r: RecordAction)
        ensures
            r == resume_walk_action(self@),
            r matches RecordAction::Resume(i) ==> i == self@.items.len() && i
                < self@.records.len(),
    {
        proof {
            use_type_invariant(self);
        }
        if self.held.is_some() {
            RecordAction::Save
        } else if self.items.len() == self.records.len() {
            RecordAction::Over
        } else {
            RecordAction::Resume(self.items.len())
        }
    }

    /// The record at a position, with its key.
    pub fn record(&self, i: usize) -> (r: Option<&(String, PendingCancellation)>)
        ensures
            match r {
                Some(found) => i < self@.records.len() && (found.0@, found.1@)
                    == self@.records[i as int],
                None => i >= self@.records.len(),
            },
    {
        if i < self.records.len() {
            Some(&self.records[i])
        } else {
            None
        }
    }
}

/// Takes a walk over pending records one reply further. A failure is audited, and
/// the walk goes on with the next record.
pub fn resume_pending_cancellations(
    walk: ResumeWalk,
    reply: RecordReply,
    ledger: &mut StewardLedger,
    at: &str,
) -> (r: ResumeWalk)
    ensures
        r@ == resume_walk_step(walk@, reply),
        r@.sound(),
        if audits_failure(walk@, reply) {
            audited_once(
                *old(ledger),
                *final(ledger),
                AuditTexts {
                    at: at@,
                    repo: walk@.current().repo,
                    subject: capacity_subject(walk@.current().run_id),
                    action: "pending_cancellation_recovery_unhealthy"@,
                },
            )
        } else {
            *final(ledger) == *old(ledger)
        },
{
    proof {
        use_type_invariant(&walk);
    }
    let ghost before = walk@;
    let ResumeWalk { records, mut items, mut held } = walk;
    if items.len() < records.len() {
        let record = &records[items.len()].1;
        let told: Option<Result<CancellationReport, String>> = match (held.as_ref(), reply) {
            (None, RecordReply::Resumed(report)) => match (report.mutation, report.error) {
                (Some(mutation), None) => Some(
                    Ok(
                        CancellationReport {
                            run_id: record.run_id,
                            reason: record.reason.clone(),
                            mutation: Some(mutation),
                            error: None,
                        },
                    ),
                ),
                (_, error) => {
                    audit_unhealthy_recovery(ledger, record.repo.as_str(), record.run_id, at);
                    let text = match error {
                        Some(text) => text,
                        None => String::new(),
                    };
                    proof {
                        reveal_strlit("");
                    }
                    held = Some(text);
                    None
                },
            },
            (Some(error), RecordReply::Saved(unsaved)) => Some(
                Err(recovery_message(record.run_id, error.as_str(), &unsaved)),
            ),
            _ => None,
        };
        match told {
            Some(outcome) => {
                let item = RecoveryItem { repo: record.repo.clone(), outcome };
                proof {
                    assert(item_views(items@.push(item)) =~= before.items.push(item.texts()));
                }
                items.push(item);
                held = None;
            },
            None => {},
        }
    }
    ResumeWalk { records, items, held }
}

/// The errors that are told of a repository.
pub open spec fn errors_in(items: Seq<RecoveryItemView>, repo: Seq<char>) -> Seq<Seq<char>>
    decreases items.len(),
{
    if items.len() == 0 {
        Seq::empty()
    } else {
        let rest = errors_in(items.drop_last(), repo);
        match items.last().outcome {
            Err(error) if items.last().repo == repo => rest.push(error),
            _ => rest,
        }
    }
}

/// The cancellations that are told of a repository.
pub open spec fn cancellations_in(items: Seq<RecoveryItemView>, repo: Seq<char>) -> Seq<
    CancellationView,
>
    decreases items.len(),
{
    if items.len() == 0 {
        Seq::empty()
    } else {
        let rest = cancellations_in(items.drop_last(), repo);
        match items.last().outcome {
            Ok(done) if items.last().repo == repo => rest.push(done),
            _ => rest,
        }
    }
}

/// Whether a repository is told of.
pub open spec fn told_of(items: Seq<RecoveryItemView>, repo: Seq<char>) -> bool {
    exists|i: int| 0 <= i < items.len() && (#[trigger] items[i]).repo == repo
}

/// Whether reports are those of the given outcomes, by repository.
pub open spec fn groups(
    map: Map<Seq<char>, RecoveryReports>,
    items: Seq<RecoveryItemView>,
) -> bool {
    &&& forall|repo: Seq<char>| #[trigger] map.dom().contains(repo) <==> told_of(items, repo)
    &&& forall|repo: Seq<char>| #[trigger]
        map.dom().contains(repo) ==> views(map[repo].errors@) == errors_in(items, repo)
            && cancellation_views(map[repo].cancellations@) == cancellations_in(items, repo)
}

proof fn nothing_is_told(items: Seq<RecoveryItemView>, repo: Seq<char>)
    requires
        !told_of(items, repo),
    ensures
        errors_in(items, repo).len() == 0,
        cancellations_in(items, repo).len() == 0,
    decreases items.len(),
{
    if items.len() > 0 {
        assert(items[items.len() - 1].repo != repo);
        let before = items.drop_last();
        assert forall|i: int| 0 <= i < before.len() implies (#[trigger] before[i]).repo != repo by {
            assert(before[i] == items[i]);
        }
        nothing_is_told(before, repo);
    }
}

/// What became of the records of a walk that is over, by repository; a walk that is
/// not over goes on.
pub fn finish_pending_cancellations(walk: ResumeWalk) -> (r: Result<
    TextMap<RecoveryReports>,
    ResumeWalk,
>)
    ensures
        match r {
            Ok(reports) => walk@.is_over() && walk@.held is None && groups(reports@, walk@.items),
            Err(rest) => !walk@.is_over() && rest == walk,
        },
{
    proof {
        use_type_invariant(&walk);
    }
    if walk.items.len() < walk.records.len() {
        return Err(walk);
    }
    let ghost all = walk@.items;
    let ResumeWalk { records, items, held } = walk;
    let mut rest = items;
    let mut map: TextMap<RecoveryReports> = TextMap::new();
    let ghost mut done: int = 0;
    proof {
        assert(map@.dom() =~= Set::<Seq<char>>::empty());
    }
    while rest.len() > 0
        invariant
            0 <= done <= all.len(),
            item_views(rest@) =~= all.skip(done),
            groups(map@, all.take(done)),
        decreases rest.len(),
    {
        let ghost listed = rest@;
        let item = rest.remove(0);
        let ghost view = item.texts();
        let ghost seen = all.take(done);
        let ghost after = all.take(done + 1);
        let ghost before = map@;
        proof {
            assert(item_views(listed).len() == listed.len());
            assert(all.skip(done).len() == all.len() - done);
            assert(item_views(listed)[0] == view);
            assert(all.skip(done)[0] == all[done]);
            assert(after.drop_last() =~= seen);
            assert(after.last() == view);
            assert(item_views(rest@) =~= all.skip(done + 1)) by {
                assert forall|i: int| 0 <= i < rest@.len() implies item_views(rest@)[i] == all.skip(
                    done + 1,
                )[i] by {
                    assert(item_views(listed)[i + 1] == all.skip(done)[i + 1]);
                }
            }
        }
        let RecoveryItem { repo, outcome } = item;
        let mut reports = match map.remove(repo.as_str()) {
            Some(reports) => reports,
            None => RecoveryReports { errors: Vec::new(), cancellations: Vec::new() },
        };
        proof {
            if !before.dom().contains(repo@) {
                nothing_is_told(seen, repo@);
            }
            assert(views(reports.errors@) =~= errors_in(seen, repo@));
            assert(cancellation_views(reports.cancellations@) =~= cancellations_in(seen, repo@));
        }
        match outcome {
            Ok(report) => {
                proof {
                    assert(cancellation_views(reports.cancellations@.push(report))
                        =~= cancellations_in(seen, repo@).push(report@));
                }
                reports.cancellations.push(report);
            },
            Err(error) => {
                proof {
                    assert(views(reports.errors@.push(error)) =~= errors_in(seen, repo@).push(
                        error@,
                    ));
                }
                reports.errors.push(error);
            },
        }
        map.insert(repo, reports);
        proof {
            assert forall|name: Seq<char>| #[trigger] map@.dom().contains(name) <==> told_of(
                after,
                name,
            ) by {
                if told_of(seen, name) {
                    let i = choose|i: int| 0 <= i < seen.len() && (#[trigger] seen[i]).repo == name;
                    assert(after[i].repo == name);
                }
                if name == repo@ {
                    assert(after[done].repo == name);
                }
                if told_of(after, name) && name != repo@ {
                    let i = choose|i: int|
                        0 <= i < after.len() && (#[trigger] after[i]).repo == name;
                    assert(i < done);
                    assert(seen[i].repo == name);
                }
                assert(map@.dom().contains(name) <==> name == repo@ || before.dom().contains(name));
            }
            assert forall|name: Seq<char>| #[trigger] map@.dom().contains(name) implies views(
                map@[name].errors@,
            ) == errors_in(after, name) && cancellation_views(map@[name].cancellations@)
                == cancellations_in(after, name) by {
                if name != repo@ {
                    assert(before.dom().contains(name));
                    assert(map@[name] == before[name]);
                }
            }
            done = done + 1;
        }
    }
    proof {
        assert(all.skip(done).len() == 0);
        assert(all.take(done) =~= all);
    }
    Ok(map)
}

/// A failure does not keep the records after it from being taken up: once it is
/// told, the walk asks for the next one, if there is one.
pub proof fn a_failure_does_not_stop_the_walk(
    walk: ResumeWalkView,
    error: Seq<char>,
    unsaved: Option<String>,
)
    requires
        walk.sound(),
        walk.held == Some(error),
    ensures
        ({
            let after = resume_walk_step(walk, RecordReply::Saved(unsaved));
            &&& after.items.drop_last() == walk.items
            &&& after.items.last().outcome == Err::<CancellationView, Seq<char>>(
                recovery_error(walk.current().run_id, error, opt_view(unsaved)),
            )
            &&& resume_walk_action(after) == if after.is_over() {
                RecordAction::Over
            } else {
                RecordAction::Resume(after.items.len() as usize)
            }
        }),
{
    let after = resume_walk_step(walk, RecordReply::Saved(unsaved));
    assert(after.items.drop_last() =~= walk.items);
}

/// Every record is told once and in order: as recovered exactly where its step ended with
/// an outcome and no error, and otherwise, after its failure was saved, with an error.
pub proof fn every_record_is_told(walk: ResumeWalkView, reply: RecordReply)
    requires
        walk.sound(),
        !walk.is_over(),
    ensures
        ({
            let next = resume_walk_step(walk, reply);
            &&& next.records == walk.records
            &&& walk.held is None ==> (reply matches RecordReply::Resumed(report) ==> {
                let fine = report.texts().0 is Some && report.texts().1 is None;
                &&& fine ==> next.items.len() == walk.items.len() + 1 && next.items.last().repo
                    == walk.current().repo && (next.items.last().outcome matches Ok(done)
                    && done.run_id == walk.current().run_id && done.mutation == report.texts().0)
                &&& !fine ==> next.items == walk.items && next.held is Some && (report.texts().1
                    matches Some(error) ==> next.held == Some(error))
            })
            &&& walk.held is Some ==> (reply is Saved ==> next.items.len() == walk.items.len() + 1
                && next.items.last().outcome is Err && next.held is None)
        }),
{
}

/// Every record is told under its own repository, as an error where it failed and as a
/// cancellation where it was recovered.
pub proof fn each_record_is_told_under_its_repository(items: Seq<RecoveryItemView>, i: int)
    requires
        0 <= i < items.len(),
    ensures
        items[i].outcome matches Err(error) ==> errors_in(items, items[i].repo).contains(error),
        items[i].outcome matches Ok(done) ==> cancellations_in(items, items[i].repo).contains(done),
        told_of(items, items[i].repo),
    decreases items.len(),
{
    let repo = items[i].repo;
    let before = items.drop_last();
    let errors = errors_in(items, repo);
    let done_all = cancellations_in(items, repo);
    let errors_before = errors_in(before, repo);
    let done_before = cancellations_in(before, repo);
    if i < items.len() - 1 {
        assert(before[i] == items[i]);
        each_record_is_told_under_its_repository(before, i);
        match items[i].outcome {
            Err(error) => {
                let k = choose|k: int|
                    0 <= k < errors_before.len() && errors_before[k] == error;
                assert(errors[k] == error);
            },
            Ok(done) => {
                let k = choose|k: int| 0 <= k < done_before.len() && done_before[k] == done;
                assert(done_all[k] == done);
            },
        }
    } else {
        match items[i].outcome {
            Err(error) => {
                assert(errors[errors_before.len() as int] == error);
            },
            Ok(done) => {
                assert(done_all[done_before.len() as int] == done);
            },
        }
    }
}

/// Errors and cancellations of another repository are not told under this one.
pub proof fn nothing_is_told_under_another_repository(
    items: Seq<RecoveryItemView>,
    repo: Seq<char>,
)
    requires
        !told_of(items, repo),
    ensures
        errors_in(items, repo).len() == 0,
        cancellations_in(items, repo).len() == 0,
    decreases items.len(),
{
    if items.len() > 0 {
        let before = items.drop_last();
        assert(items[items.len() - 1].repo != repo);
        if told_of(before, repo) {
            let k = choose|k: int| 0 <= k < before.len() && (#[trigger] before[k]).repo == repo;
            assert(items[k].repo == repo);
        }
        nothing_is_told_under_another_repository(before, repo);
    }
}

} // verus!
