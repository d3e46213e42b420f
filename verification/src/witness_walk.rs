//! The walk that witnesses what stands at the front of the queue: what is read, in
//! which order, and what is recorded.
use vstd::prelude::*;

use crate::guard::ends_with_its_end;
use crate::json::Json;
use crate::ledger::StewardLedger;
use crate::model::{ObservedPr, RepoObservation, RequiredCheck};
use crate::observation::{
    entry_of, entry_views, find_entry, position_of, queue_position, EntryView, QueueEntry,
};
use crate::plan::StewardCommandArgs;
use crate::queue_recovery::{
    built_on, check_identities, merge_group_contains_base, witness_key_text,
};
use crate::queue_witness::{
    can_witness, record_queue_witness, same_but_witnesses, witnessable, witnesses, WitnessOutcome,
};
use crate::text::{concat, has_suffix, result_view};

verus! {

/// The steps of a walk, in their order.
#[derive(Clone, Copy, Debug, PartialEq, Eq, Structural)]
pub enum WitnessStage {
    /// Read the head of the base.
    BaseBefore,
    /// Read the required checks of the base.
    RequiredBefore,
    /// Read the queue.
    Queue,
    /// Read a pull request at the front of the queue.
    PullRequest,
    /// Read the commit of its merge group.
    Group,
    /// Read the required checks again.
    RequiredAfter,
    /// Read the head of the base again.
    BaseAfter,
    /// Save what was recorded.
    Save,
    /// Nothing: the walk is over.
    Over,
}

/// What came of a step.
#[derive(Debug)]
pub enum WitnessReply {
    /// The head of the base.
    Base(Result<String, String>),
    /// The required checks of the base.
    Required(Result<Vec<RequiredCheck>, String>),
    /// The queue: whether there is one, and its entries.
    Queue(Result<(bool, Vec<QueueEntry>), String>),
    /// A pull request, where it is open on the base, and whether its head was handed
    /// to the steward.
    PullRequest(Result<Option<(ObservedPr, bool)>, String>),
    /// The commit of a merge group.
    Group(Result<Json, String>),
    /// What came of saving.
    Saved(Result<(), String>),
}

/// A pull request that can be witnessed, and whether its head was handed to the
/// steward.
pub struct Candidate {
    pub live: ObservedPr,
    pub handed_off: bool,
}

/// Where a walk stands.
pub struct WitnessWalkView {
    pub args: StewardCommandArgs,
    pub observation: RepoObservation,
    pub observed_at: Seq<char>,
    pub stage: WitnessStage,
    pub base_before: Seq<char>,
    pub required_before: Seq<RequiredCheck>,
    pub entries: Seq<EntryView>,
    /// The position of the pull request that is looked at.
    pub next: int,
    pub candidate: Option<Candidate>,
    pub required_after: Seq<RequiredCheck>,
    /// Whether anything was recorded.
    pub changed: bool,
    /// What the walk has come to.
    pub outcome: Option<Result<(), Seq<char>>>,
}

impl WitnessWalkView {
    /// Whether the pull request at a position stands at the front of the queue.
    pub open spec fn at_front(self, i: int) -> bool {
        position_of(self.entries, self.observation.prs@[i].fact.number) == Some(1u64)
    }

    /// The walk at its end.
    pub open spec fn over(self, outcome: Result<(), Seq<char>>) -> WitnessWalkView {
        WitnessWalkView {
            stage: WitnessStage::Over,
            candidate: None,
            outcome: Some(outcome),
            ..self
        }
    }

    /// The walk at the next pull request at the front of the queue, from a position
    /// on; where there is none, what was recorded is saved.
    pub open spec fn seek(self, from: int) -> WitnessWalkView
        decreases self.observation.prs@.len() - from,
    {
        if from < 0 || from >= self.observation.prs@.len() {
            if self.changed {
                WitnessWalkView { stage: WitnessStage::Save, candidate: None, ..self }
            } else {
                self.over(Ok(()))
            }
        } else if self.at_front(from) {
            WitnessWalkView {
                stage: WitnessStage::PullRequest,
                next: from,
                candidate: None,
                ..self
            }
        } else {
            self.seek(from + 1)
        }
    }

    /// Whether a pull request that was read can be witnessed.
    pub open spec fn permits(self, live: ObservedPr, handed_off: bool) -> bool {
        witnessable(
            self.entries,
            self.observation.prs@[self.next],
            live,
            self.args.managed_label@,
            handed_off,
        )
    }

    /// Whether the base or its required checks are others than at the beginning.
    pub open spec fn moved(self, base_after: Seq<char>) -> bool {
        base_after != self.base_before || check_identities(self.required_after)
            != check_identities(self.required_before)
    }

    /// Whether a walk stands where its step can be taken: one that reads a group or
    /// reads again holds a pull request that can be witnessed.
    pub open spec fn sound(self) -> bool {
        &&& (self.stage == WitnessStage::PullRequest || self.stage == WitnessStage::Group
            || self.stage == WitnessStage::RequiredAfter || self.stage == WitnessStage::BaseAfter)
            ==> 0 <= self.next < self.observation.prs@.len() && self.at_front(self.next)
        &&& (self.stage == WitnessStage::Group || self.stage == WitnessStage::RequiredAfter
            || self.stage == WitnessStage::BaseAfter) ==> (self.candidate matches Some(c)
            && self.permits(c.live, c.handed_off))
        &&& self.stage == WitnessStage::Over <==> self.outcome is Some
    }
}

/// The walk after a reply. Nothing is recorded where the base or its required checks
/// moved meanwhile: the walk is then over. A reply that belongs to another step
/// changes nothing.
pub open spec fn witness_walk_step(walk: WitnessWalkView, reply: WitnessReply) -> WitnessWalkView {
    match (walk.stage, reply) {
        (WitnessStage::BaseBefore, WitnessReply::Base(read)) => match read {
            Ok(sha) => WitnessWalkView {
                stage: WitnessStage::RequiredBefore,
                base_before: sha@,
                ..walk
            },
            Err(error) => walk.over(Err(error@)),
        },
        (WitnessStage::RequiredBefore, WitnessReply::Required(read)) => match read {
            Ok(checks) => WitnessWalkView {
                stage: WitnessStage::Queue,
                required_before: checks@,
                ..walk
            },
            Err(error) => walk.over(Err(error@)),
        },
        (WitnessStage::Queue, WitnessReply::Queue(read)) => match read {
            Ok((enabled, entries)) => if enabled {
                WitnessWalkView { entries: entry_views(entries@), ..walk }.seek(0)
            } else {
                walk.over(Ok(()))
            },
            Err(error) => walk.over(Err(error@)),
        },
        (WitnessStage::PullRequest, WitnessReply::PullRequest(read)) => match read {
            Ok(Some((live, handed_off))) => if walk.permits(live, handed_off) {
                WitnessWalkView {
                    stage: WitnessStage::Group,
                    candidate: Some(Candidate { live, handed_off }),
                    ..walk
                }
            } else {
                walk.seek(walk.next + 1)
            },
            Ok(None) => walk.seek(walk.next + 1),
            Err(error) => walk.over(Err(error@)),
        },
        (WitnessStage::Group, WitnessReply::Group(read)) => match read {
            Ok(commit) => match built_on(commit@, walk.base_before) {
                Ok(true) => WitnessWalkView { stage: WitnessStage::RequiredAfter, ..walk },
                Ok(false) => walk.seek(walk.next + 1),
                Err(error) => walk.over(Err(error)),
            },
            Err(error) => walk.over(Err(error@)),
        },
        (WitnessStage::RequiredAfter, WitnessReply::Required(read)) => match read {
            Ok(checks) => WitnessWalkView {
                stage: WitnessStage::BaseAfter,
                required_after: checks@,
                ..walk
            },
            Err(error) => walk.over(Err(error@)),
        },
        (WitnessStage::BaseAfter, WitnessReply::Base(read)) => match read {
            Ok(sha) => if walk.moved(sha@) {
                walk.over(Ok(()))
            } else {
                WitnessWalkView { changed: true, ..walk }.seek(walk.next + 1)
            },
            Err(error) => walk.over(Err(error@)),
        },
        (WitnessStage::Save, WitnessReply::Saved(saved)) => match saved {
            Ok(_) => walk.over(Ok(())),
            Err(error) => walk.over(
                Err("could not persist merge-queue recovery witness: "@ + error@),
            ),
        },
        _ => walk,
    }
}

/// Whether a reply records a witness.
pub open spec fn records(walk: WitnessWalkView, reply: WitnessReply) -> bool {
    walk.stage == WitnessStage::BaseAfter && (reply matches WitnessReply::Base(Ok(sha))
        && !walk.moved(sha@))
}

/// What a reply does to the ledger: a witness is recorded for the pull request that
/// is looked at, or nothing changes.
pub open spec fn witness_effect(
    walk: WitnessWalkView,
    reply: WitnessReply,
    before: StewardLedger,
    after: StewardLedger,
) -> bool {
    if records(walk, reply) {
        let live = walk.candidate->Some_0.live;
        let key = witness_key_text(walk.observation.repo@, live.fact.number);
        let map = after.queue_witnesses@;
        &&& same_but_witnesses(before, after)
        &&& map.dom().contains(key)
        &&& map == before.queue_witnesses@.insert(key, map[key])
        &&& entry_of(walk.entries, live.fact.number) matches Some(entry) && witnesses(
            map[key],
            walk.observation.repo@,
            walk.observation.base@,
            walk.base_before,
            live,
            entry,
            walk.required_after,
            walk.observed_at,
        )
    } else {
        after == before
    }
}

/// What a walk holds.
#[derive(Debug)]
struct Parts<'a> {
    args: &'a StewardCommandArgs,
    observation: &'a RepoObservation,
    observed_at: String,
    stage: WitnessStage,
    base_before: String,
    required_before: Vec<RequiredCheck>,
    entries: Vec<QueueEntry>,
    next: usize,
    candidate: Option<(ObservedPr, bool)>,
    required_after: Vec<RequiredCheck>,
    changed: bool,
    outcome: Option<Result<(), String>>,
}

/// A walk over the front of a queue.
#[derive(Debug)]
pub struct WitnessWalk<'a> {
    parts: Parts<'a>,
}

impl<'a> View for WitnessWalk<'a> {
    type V = WitnessWalkView;

    closed spec fn view(&self) -> WitnessWalkView {
        self.parts.shown()
    }
}

impl<'a> Parts<'a> {
    spec fn shown(self) -> WitnessWalkView {
        WitnessWalkView {
            args: *self.args,
            observation: *self.observation,
            observed_at: self.observed_at@,
            stage: self.stage,
            base_before: self.base_before@,
            required_before: self.required_before@,
            entries: entry_views(self.entries@),
            next: self.next as int,
            candidate: match self.candidate {
                Some((live, handed_off)) => Some(Candidate { live, handed_off }),
                None => None,
            },
            required_after: self.required_after@,
            changed: self.changed,
            outcome: match self.outcome {
                Some(outcome) => Some(result_view(outcome)),
                None => None,
            },
        }
    }

    /// Ends the walk.
    fn end(&mut self, outcome: Result<(), String>)
        ensures
            final(self).shown() == old(self).shown().over(result_view(outcome)),
    {
        self.stage = WitnessStage::Over;
        self.candidate = None;
        self.outcome = Some(outcome);
    }

    /// Goes to the next pull request at the front of the queue.
    fn seek(&mut self, from: usize)
        ensures
            final(self).shown() == old(self).shown().seek(from as int),
    {
        let ghost start = self.shown();
        let prs = &self.observation.prs;
        let mut i: usize = from;
        while i < prs.len()
            invariant
                *prs == self.observation.prs,
                self.shown() == start,
                start == old(self).shown(),
                start.seek(from as int) == start.seek(i as int),
            decreases prs.len() - i,
        {
            let at_front = match queue_position(&self.entries, prs[i].fact.number) {
                Some(position) => position == 1,
                None => false,
            };
            if at_front {
                self.stage = WitnessStage::PullRequest;
                self.next = i;
                self.candidate = None;
                return ;
            }
            i = i + 1;
        }
        if self.changed {
            self.stage = WitnessStage::Save;
            self.candidate = None;
        } else {
            self.end(Ok(()));
        }
    }

    /// Goes to the pull request after the one that is looked at.
    fn go_on(&mut self)
        requires
            old(self).shown().sound(),
            old(self).stage == WitnessStage::PullRequest || old(self).stage == WitnessStage::Group
                || old(self).stage == WitnessStage::BaseAfter,
        ensures
            final(self).shown() == old(self).shown().seek(old(self).next + 1),
    {
        let n: usize = self.observation.prs.len();
        proof {
            assert(self.next < n);
        }
        let from: usize = self.next + 1;
        self.seek(from);
    }

    /// Goes on once a pull request was read.
    fn pull_request_read(&mut self, read: Result<Option<(ObservedPr, bool)>, String>)
        requires
            old(self).shown().sound(),
            old(self).stage == WitnessStage::PullRequest,
        ensures
            final(self).shown() == witness_walk_step(
                old(self).shown(),
                WitnessReply::PullRequest(read),
            ),
    {
        match read {
            Ok(Some((live, handed_off))) => {
                if can_witness(
                    &self.entries,
                    &self.observation.prs[self.next],
                    &live,
                    self.args.managed_label.as_str(),
                    handed_off,
                ) {
                    self.stage = WitnessStage::Group;
                    self.candidate = Some((live, handed_off));
                } else {
                    self.go_on();
                }
            },
            Ok(None) => self.go_on(),
            Err(error) => self.end(Err(error)),
        }
    }

    /// Goes on once the commit of a merge group was read.
    fn group_read(&mut self, read: Result<Json, String>)
        requires
            old(self).shown().sound(),
            old(self).stage == WitnessStage::Group,
        ensures
            final(self).shown() == witness_walk_step(old(self).shown(), WitnessReply::Group(read)),
    {
        match read {
            Ok(commit) => match merge_group_contains_base(&commit, self.base_before.as_str()) {
                Ok(true) => {
                    self.stage = WitnessStage::RequiredAfter;
                },
                Ok(false) => self.go_on(),
                Err(error) => self.end(Err(error)),
            },
            Err(error) => self.end(Err(error)),
        }
    }

    /// Goes on once the head of the base was read again.
    fn base_read_again(&mut self, read: Result<String, String>, ledger: &mut StewardLedger)
        requires
            old(self).shown().sound(),
            old(self).stage == WitnessStage::BaseAfter,
        ensures
            final(self).shown() == witness_walk_step(old(self).shown(), WitnessReply::Base(read)),
            witness_effect(
                old(self).shown(),
                WitnessReply::Base(read),
                *old(ledger),
                *final(ledger),
            ),
    {
        let ghost before = self.shown();
        match read {
            Ok(sha) => {
                let outcome = match &self.candidate {
                    Some((live, handed_off)) => record_queue_witness(
                        ledger,
                        self.observation.repo.as_str(),
                        self.observation.base.as_str(),
                        &self.entries,
                        &self.observation.prs[self.next],
                        live,
                        self.args.managed_label.as_str(),
                        *handed_off,
                        true,
                        self.base_before.as_str(),
                        sha.as_str(),
                        &self.required_before,
                        &self.required_after,
                        self.observed_at.as_str(),
                    ),
                    None => WitnessOutcome::Passed,
                };
                match outcome {
                    WitnessOutcome::Recorded => {
                        let ghost unchanged = self.shown();
                        self.changed = true;
                        proof {
                            assert(self.shown() == WitnessWalkView { changed: true, ..unchanged });
                            assert(self.shown().sound());
                        }
                        self.go_on();
                    },
                    _ => self.end(Ok(())),
                }
            },
            Err(error) => self.end(Err(error)),
        }
    }
}

/// What a walk asks for.
#[derive(Debug)]
pub enum WitnessAction {
    ReadBase,
    ReadRequired,
    ReadQueue,
    /// Read the pull request at this position.
    ReadPullRequest(usize),
    /// Read the commit with this name.
    ReadGroup(String),
    Save,
    /// Nothing: this is what the walk has come to.
    Told(Result<(), String>),
}

proof fn seeking_is_sound(walk: WitnessWalkView, from: int)
    requires
        0 <= from,
        walk.outcome is None,
    ensures
        walk.seek(from).sound(),
        walk.seek(from).entries == walk.entries,
    decreases walk.observation.prs@.len() - from,
{
    if from < walk.observation.prs@.len() && !walk.at_front(from) {
        seeking_is_sound(walk, from + 1);
    }
}

/// A reply keeps a walk sound.
pub proof fn witness_step_is_sound(walk: WitnessWalkView, reply: WitnessReply)
    requires
        walk.sound(),
    ensures
        witness_walk_step(walk, reply).sound(),
{
    if walk.stage == WitnessStage::Queue {
        if let WitnessReply::Queue(Ok((_, entries))) = reply {
            seeking_is_sound(WitnessWalkView { entries: entry_views(entries@), ..walk }, 0);
        }
    }
    if walk.stage != WitnessStage::Over && 0 <= walk.next {
        seeking_is_sound(walk, walk.next + 1);
        seeking_is_sound(WitnessWalkView { changed: true, ..walk }, walk.next + 1);
    }
}

impl<'a> WitnessWalk<'a> {
    #[verifier::type_invariant]
    spec fn kept(self) -> bool {
        self@.sound()
    }

    /// A walk that begins.
    pub fn new(
        args: &'a StewardCommandArgs,
        observation: &'a RepoObservation,
        observed_at: &str,
    ) -> (r: Self)
        ensures
            r@.sound(),
            r@.args == *args,
            r@.observation == *observation,
            r@.observed_at == observed_at@,
            r@.stage == WitnessStage::BaseBefore,
            !r@.changed,
    {
        let parts = Parts {
            args,
            observation,
            observed_at: observed_at.to_owned(),
            stage: WitnessStage::BaseBefore,
            base_before: String::new(),
            required_before: Vec::new(),
            entries: Vec::new(),
            next: 0,
            candidate: None,
            required_after: Vec::new(),
            changed: false,
            outcome: None,
        };
        WitnessWalk { parts }
    }

    /// What the walk asks for.
    pub fn action(&self) -> (r: WitnessAction)
        ensures
            match self@.stage {
                WitnessStage::BaseBefore => r is ReadBase,
                WitnessStage::RequiredBefore => r is ReadRequired,
                WitnessStage::Queue => r is ReadQueue,
                WitnessStage::PullRequest => r matches WitnessAction::ReadPullRequest(i) && i
                    == self@.next && i < self@.observation.prs@.len(),
                WitnessStage::Group => r matches WitnessAction::ReadGroup(head) && (
                self@.candidate matches Some(c) && entry_of(self@.entries, c.live.fact.number)
                    matches Some(entry) && entry.head == Some(head@)),
                WitnessStage::RequiredAfter => r is ReadRequired,
                WitnessStage::BaseAfter => r is ReadBase,
                WitnessStage::Save => r is Save,
                WitnessStage::Over => r matches WitnessAction::Told(told) && self@.outcome == Some(
                    result_view(told),
                ),
            },
    {
        proof {
            use_type_invariant(self);
        }
        match self.parts.stage {
            WitnessStage::BaseBefore => WitnessAction::ReadBase,
            WitnessStage::RequiredBefore => WitnessAction::ReadRequired,
            WitnessStage::Queue => WitnessAction::ReadQueue,
            WitnessStage::PullRequest => WitnessAction::ReadPullRequest(self.parts.next),
            WitnessStage::Group => {
                let mut head = String::new();
                match &self.parts.candidate {
                    Some((live, _)) => {
                        match find_entry(&self.parts.entries, live.fact.number) {
                            Some(i) => match &self.parts.entries[i].head {
                                Some(text) => {
                                    head = text.clone();
                                },
                                None => {},
                            },
                            None => {},
                        }
                    },
                    None => {},
                }
                WitnessAction::ReadGroup(head)
            },
            WitnessStage::RequiredAfter => WitnessAction::ReadRequired,
            WitnessStage::BaseAfter => WitnessAction::ReadBase,
            WitnessStage::Save => WitnessAction::Save,
            WitnessStage::Over => match &self.parts.outcome {
                Some(Err(error)) => WitnessAction::Told(Err(error.clone())),
                _ => WitnessAction::Told(Ok(())),
            },
        }
    }

    /// The entries of the queue, once they were read.
    pub fn entries(&self) -> (r: &Vec<QueueEntry>)
        ensures
            entry_views(r@) == self@.entries,
    {
        &self.parts.entries
    }

    /// The required checks as they were at the beginning, once they were read.
    pub fn required_before(&self) -> (r: &Vec<RequiredCheck>)
        ensures
            r@ == self@.required_before,
    {
        &self.parts.required_before
    }
}

/// Takes a walk over the front of a queue one reply further.
pub fn record_queue_witnesses<'a>(
    walk: WitnessWalk<'a>,
    reply: WitnessReply,
    ledger: &mut StewardLedger,
) -> (r: WitnessWalk<'a>)
    ensures
        r@ == witness_walk_step(walk@, reply),
        r@.sound(),
        witness_effect(walk@, reply, *old(ledger), *final(ledger)),
{
    proof {
        use_type_invariant(&walk);
        witness_step_is_sound(walk@, reply);
    }
    let WitnessWalk { parts } = walk;
    let mut parts = parts;
    let ghost before = parts.shown();
    match (parts.stage, reply) {
        (WitnessStage::BaseBefore, WitnessReply::Base(read)) => match read {
            Ok(sha) => {
                parts.stage = WitnessStage::RequiredBefore;
                parts.base_before = sha;
            },
            Err(error) => parts.end(Err(error)),
        },
        (WitnessStage::RequiredBefore, WitnessReply::Required(read)) => match read {
            Ok(checks) => {
                parts.stage = WitnessStage::Queue;
                parts.required_before = checks;
            },
            Err(error) => parts.end(Err(error)),
        },
        (WitnessStage::Queue, WitnessReply::Queue(read)) => match read {
            Ok((enabled, entries)) => {
                if enabled {
                    parts.entries = entries;
                    parts.seek(0);
                } else {
                    parts.end(Ok(()));
                }
            },
            Err(error) => parts.end(Err(error)),
        },
        (WitnessStage::PullRequest, WitnessReply::PullRequest(read)) => {
            parts.pull_request_read(read)
        },
        (WitnessStage::Group, WitnessReply::Group(read)) => parts.group_read(read),
        (WitnessStage::RequiredAfter, WitnessReply::Required(read)) => match read {
            Ok(checks) => {
                parts.stage = WitnessStage::BaseAfter;
                parts.required_after = checks;
            },
            Err(error) => parts.end(Err(error)),
        },
        (WitnessStage::BaseAfter, WitnessReply::Base(read)) => {
            parts.base_read_again(read, ledger)
        },
        (WitnessStage::Save, WitnessReply::Saved(saved)) => match saved {
            Ok(_) => parts.end(Ok(())),
            Err(error) => {
                let text = concat(
                    "could not persist merge-queue recovery witness: ",
                    error.as_str(),
                );
                parts.end(Err(text));
            },
        },
        _ => {},
    }
    WitnessWalk { parts }
}

/// A witness is recorded only after the base and its required checks were read again
/// and found as they were, of a pull request at the front of the queue whose merge
/// group is built on that base.
pub proof fn witnesses_rest_on_an_unmoved_base(walk: WitnessWalkView, reply: WitnessReply)
    requires
        walk.sound(),
        records(walk, reply),
    ensures
        reply matches WitnessReply::Base(Ok(sha)) && sha@ == walk.base_before,
        check_identities(walk.required_after) == check_identities(walk.required_before),
        walk.at_front(walk.next),
        walk.candidate matches Some(c) && walk.permits(c.live, c.handed_off),
{
}

/// The base and its required checks are read again only for a merge group that is
/// built on the base.
pub proof fn reading_again_follows_the_group(walk: WitnessWalkView, reply: WitnessReply)
    requires
        walk.stage != WitnessStage::RequiredAfter,
        witness_walk_step(walk, reply).stage == WitnessStage::RequiredAfter,
        walk.sound(),
    ensures
        walk.stage == WitnessStage::Group,
        reply matches WitnessReply::Group(Ok(commit)) && built_on(commit@, walk.base_before)
            == Ok::<bool, Seq<char>>(true),
{
    if walk.stage == WitnessStage::Queue {
        if let WitnessReply::Queue(Ok((_, entries))) = reply {
            seeking_stops(WitnessWalkView { entries: entry_views(entries@), ..walk }, 0);
        }
    }
    seeking_stops(walk, walk.next + 1);
    seeking_stops(WitnessWalkView { changed: true, ..walk }, walk.next + 1);
}

proof fn seeking_stops(walk: WitnessWalkView, from: int)
    ensures
        walk.seek(from).stage != WitnessStage::RequiredAfter,
    decreases walk.observation.prs@.len() - from,
{
    if 0 <= from < walk.observation.prs@.len() && !walk.at_front(from) {
        seeking_stops(walk, from + 1);
    }
}

/// The pull request that is looked at next is the first at the front of the queue from
/// there on; where there is none, what was witnessed is saved, if anything was.
pub proof fn no_front_is_passed_over(walk: WitnessWalkView, from: int)
    requires
        0 <= from,
        walk.outcome is None,
    ensures
        ({
            let next = walk.seek(from);
            let n = walk.observation.prs@.len();
            &&& next.changed == walk.changed && next.entries == walk.entries && next.base_before
                == walk.base_before && next.required_before == walk.required_before
            &&& next.stage == WitnessStage::PullRequest ==> from <= next.next < n && walk.at_front(
                next.next,
            ) && (forall|k: int| from <= k < next.next ==> !#[trigger] walk.at_front(k))
            &&& next.stage != WitnessStage::PullRequest ==> forall|k: int|
                from <= k < n ==> !#[trigger] walk.at_front(k)
            &&& next.stage == WitnessStage::Save ==> walk.changed
            &&& next.stage == WitnessStage::Over ==> !walk.changed && next.outcome == Some(
                Ok::<(), Seq<char>>(()),
            )
            &&& next.stage == WitnessStage::PullRequest || next.stage == WitnessStage::Save
                || next.stage == WitnessStage::Over
            &&& next.stage != WitnessStage::Over ==> next.outcome is None
        }),
    decreases walk.observation.prs@.len() - from,
{
    if from < walk.observation.prs@.len() && !walk.at_front(from) {
        no_front_is_passed_over(walk, from + 1);
    }
}

/// What a reply tells of a failure.
pub open spec fn witness_failure(reply: WitnessReply) -> Option<Seq<char>> {
    match reply {
        WitnessReply::Base(Err(error)) => Some(error@),
        WitnessReply::Required(Err(error)) => Some(error@),
        WitnessReply::Queue(Err(error)) => Some(error@),
        WitnessReply::PullRequest(Err(error)) => Some(error@),
        WitnessReply::Group(Err(error)) => Some(error@),
        WitnessReply::Saved(Err(error)) => Some(error@),
        _ => None,
    }
}

/// Whether a reply is to what a walk asks.
pub open spec fn answers_walk(stage: WitnessStage, reply: WitnessReply) -> bool {
    match reply {
        WitnessReply::Base(_) => stage == WitnessStage::BaseBefore || stage
            == WitnessStage::BaseAfter,
        WitnessReply::Required(_) => stage == WitnessStage::RequiredBefore || stage
            == WitnessStage::RequiredAfter,
        WitnessReply::Queue(_) => stage == WitnessStage::Queue,
        WitnessReply::PullRequest(_) => stage == WitnessStage::PullRequest,
        WitnessReply::Group(_) => stage == WitnessStage::Group,
        WitnessReply::Saved(_) => stage == WitnessStage::Save,
    }
}

/// A walk ends with an error exactly where something failed, and the error ends with what
/// failed; a reply that was not asked for changes nothing.
pub proof fn a_walk_tells_what_failed(walk: WitnessWalkView, reply: WitnessReply)
    requires
        walk.sound(),
        walk.stage != WitnessStage::Over,
    ensures
        !answers_walk(walk.stage, reply) ==> witness_walk_step(walk, reply) == walk,
        answers_walk(walk.stage, reply) ==> (witness_failure(reply) matches Some(error) ==> (
        witness_walk_step(walk, reply).outcome matches Some(Err(text)) && has_suffix(text, error))),
        witness_walk_step(walk, reply).outcome matches Some(Err(_)) ==> witness_failure(reply)
            is Some || walk.stage == WitnessStage::Group,
{
    if let Some(error) = witness_failure(reply) {
        ends_with_its_end(""@, error);
        assert(""@ + error =~= error) by {
            reveal_strlit("");
        }
        ends_with_its_end("could not persist merge-queue recovery witness: "@, error);
    } else {
        if walk.stage == WitnessStage::PullRequest || walk.stage == WitnessStage::Group || walk.stage
            == WitnessStage::BaseAfter {
            no_front_is_passed_over(walk, walk.next + 1);
            no_front_is_passed_over(WitnessWalkView { changed: true, ..walk }, walk.next + 1);
        }
        if let WitnessReply::Queue(Ok((_, entries))) = reply {
            no_front_is_passed_over(
                WitnessWalkView { entries: entry_views(entries@), ..walk },
                0,
            );
        }
    }
}

/// Reads that succeed lead on: the base and the required checks are read before the
/// queue, a pull request that may be witnessed leads to its merge group, one built on the
/// base leads to reading both again, and what was witnessed is saved before the end.
pub proof fn a_front_pull_request_is_witnessed(walk: WitnessWalkView, reply: WitnessReply)
    requires
        walk.sound(),
        answers_walk(walk.stage, reply),
        witness_failure(reply) is None,
    ensures
        ({
            let next = witness_walk_step(walk, reply);
            &&& walk.stage == WitnessStage::BaseBefore ==> next.stage == WitnessStage::RequiredBefore
                && reply == WitnessReply::Base(Ok(reply->Base_0->Ok_0)) && next.base_before
                == reply->Base_0->Ok_0@
            &&& walk.stage == WitnessStage::RequiredBefore ==> next.stage == WitnessStage::Queue
                && next.required_before == reply->Required_0->Ok_0@
            &&& walk.stage == WitnessStage::Queue && !reply->Queue_0->Ok_0.0 ==> next.outcome == Some(
                Ok::<(), Seq<char>>(()),
            )
            &&& walk.stage == WitnessStage::PullRequest ==> (next.stage == WitnessStage::Group <==> (
            reply->PullRequest_0->Ok_0 matches Some(read) && walk.permits(read.0, read.1)))
            &&& walk.stage == WitnessStage::Group ==> (next.stage == WitnessStage::RequiredAfter
                <==> built_on(reply->Group_0->Ok_0@, walk.base_before) == Ok::<bool, Seq<char>>(
                true,
            ))
            &&& walk.stage == WitnessStage::RequiredAfter ==> next.stage == WitnessStage::BaseAfter
                && next.required_after == reply->Required_0->Ok_0@ && next.candidate
                == walk.candidate
            &&& walk.stage == WitnessStage::BaseAfter ==> if reply->Base_0->Ok_0@
                == walk.base_before && check_identities(walk.required_after) == check_identities(
                walk.required_before,
            ) {
                records(walk, reply) && next.changed
            } else {
                !records(walk, reply) && next.outcome == Some(Ok::<(), Seq<char>>(()))
            }
            &&& walk.stage == WitnessStage::Save ==> next.outcome == Some(Ok::<(), Seq<char>>(()))
        }),
{
    if walk.stage == WitnessStage::PullRequest || walk.stage == WitnessStage::Group || walk.stage
        == WitnessStage::BaseAfter {
        no_front_is_passed_over(walk, walk.next + 1);
        no_front_is_passed_over(WitnessWalkView { changed: true, ..walk }, walk.next + 1);
    }
}

} // verus!
