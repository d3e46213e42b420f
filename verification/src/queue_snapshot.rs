//! Reading the merge queue, page by page.
use vstd::prelude::*;

use std::collections::BTreeMap;

use crate::json::{items_in, number_in, text_in, trees, Json, JsonTree};
use crate::observation::{entry_of, entry_views, find_entry, EntryView, QueueEntry};
use crate::revalidation::map_views;
use crate::text::{
    args_view, concat, concat3, cut, decimal, full_sha, is_full_sha, nonempty, opt_view, split_once,
    str_eq, to_decimal, views,
};

verus! {

/// The number of pages of the queue that are read.
pub const MAX_MERGE_QUEUE_PAGES: usize = 10;

/// The query for a page of the queue.
pub const QUEUE_QUERY: &'static str = "query=query($owner:String!,$name:String!,$branch:String!,$cursor:String){repository(owner:$owner,name:$name){mergeQueue(branch:$branch){entries(first:100,after:$cursor){nodes{position enqueuedAt headCommit{oid} pullRequest{number}} pageInfo{hasNextPage endCursor}}}}}";

/// The entries of the queue, in the order of their numbers.
pub open spec fn inserted(entries: Seq<EntryView>, entry: EntryView) -> Seq<EntryView>
    decreases entries.len(),
{
    if entries.len() == 0 || entry.number < entries[0].number {
        seq![entry] + entries
    } else {
        seq![entries[0]] + inserted(entries.drop_first(), entry)
    }
}

proof fn inserted_at(entries: Seq<EntryView>, entry: EntryView, i: int)
    requires
        0 <= i <= entries.len(),
        forall|k: int| 0 <= k < i ==> (#[trigger] entries[k]).number <= entry.number,
        i < entries.len() ==> entry.number < entries[i].number,
    ensures
        inserted(entries, entry) == entries.insert(i, entry),
    decreases entries.len(),
{
    if i == 0 {
        assert(seq![entry] + entries =~= entries.insert(0, entry));
    } else {
        assert forall|k: int| 0 <= k < i - 1 implies (
        #[trigger] entries.drop_first()[k]).number <= entry.number by {
            assert(entries[k + 1].number <= entry.number);
        }
        assert(entries[0].number <= entry.number);
        inserted_at(entries.drop_first(), entry, i - 1);
        assert(seq![entries[0]] + entries.drop_first().insert(i - 1, entry) =~= entries.insert(
            i,
            entry,
        ));
    }
}

/// Puts an entry at its place.
fn insert_entry(entries: &mut Vec<QueueEntry>, entry: QueueEntry)
    ensures
        entry_views(final(entries)@) == inserted(entry_views(old(entries)@), entry@),
{
    let ghost before = entries@;
    let ghost all = entry_views(entries@);
    let ghost view = entry@;
    let mut i: usize = 0;
    while i < entries.len() && entries[i].number <= entry.number
        invariant
            i <= entries.len(),
            entries@ == before,
            all == entry_views(before),
            forall|k: int| 0 <= k < i ==> (#[trigger] all[k]).number <= entry.number,
        decreases entries.len() - i,
    {
        i = i + 1;
    }
    proof {
        inserted_at(all, view, i as int);
    }
    entries.insert(i, entry);
    proof {
        assert(entry_views(entries@) =~= all.insert(i as int, view));
    }
}

/// The entry that a node shows, given the entries before it.
pub open spec fn node_entry(node: JsonTree, entries: Seq<EntryView>) -> Result<
    EntryView,
    Seq<char>,
> {
    match number_in(node.field("pullRequest"@), "number"@) {
        None => Err("merge-queue entry missing PR number"@),
        Some(number) => if entry_of(entries, number) is Some {
            Err(
                "merge-queue pagination repeated PR #"@ + decimal(number as nat)
                    + "; refusing an overlapping snapshot"@,
            )
        } else {
            match (node.number_at("position"@), node.text_at("enqueuedAt"@)) {
                (None, _) => Err(
                    "merge-queue PR #"@ + decimal(number as nat) + " missing position"@,
                ),
                (Some(_), None) => Err(
                    "merge-queue PR #"@ + decimal(number as nat) + " missing enqueuedAt"@,
                ),
                (Some(position), Some(enqueued_at)) => Ok(
                    EntryView {
                        number,
                        position,
                        enqueued_at,
                        head: match text_in(node.field("headCommit"@), "oid"@) {
                            Some(oid) => if full_sha(oid) {
                                Some(oid)
                            } else {
                                None
                            },
                            None => None,
                        },
                    },
                ),
            }
        },
    }
}

/// The entries with those that nodes show, or what is wrong with the first node
/// that shows none.
pub open spec fn node_entries(nodes: Seq<JsonTree>, entries: Seq<EntryView>) -> Result<
    Seq<EntryView>,
    Seq<char>,
>
    decreases nodes.len(),
{
    if nodes.len() == 0 {
        Ok(entries)
    } else {
        match node_entries(nodes.drop_last(), entries) {
            Err(error) => Err(error),
            Ok(before) => match node_entry(nodes.last(), before) {
                Ok(entry) => Ok(inserted(before, entry)),
                Err(error) => Err(error),
            },
        }
    }
}

proof fn node_entries_failed_prefix(nodes: Seq<JsonTree>, entries: Seq<EntryView>, i: int)
    requires
        0 <= i <= nodes.len(),
        node_entries(nodes.take(i), entries) is Err,
    ensures
        node_entries(nodes, entries) == node_entries(nodes.take(i), entries),
    decreases nodes.len(),
{
    if i < nodes.len() {
        assert(nodes.drop_last().take(i) =~= nodes.take(i));
        node_entries_failed_prefix(nodes.drop_last(), entries, i);
    } else {
        assert(nodes.take(i) =~= nodes);
    }
}

fn parse_entry(node: &Json, entries: &Vec<QueueEntry>) -> (r: Result<QueueEntry, String>)
    ensures
        match (r, node_entry(node@, entry_views(entries@))) {
            (Ok(entry), Ok(view)) => entry@ == view,
            (Err(e), Err(m)) => e@ == m,
            _ => false,
        },
{
    let number: Option<u64> = match node.get("pullRequest") {
        Some(pr) => pr.u64_field("number"),
        None => None,
    };
    let number: u64 = match number {
        Some(number) => number,
        None => return Err("merge-queue entry missing PR number".to_owned()),
    };
    let id = to_decimal(number);
    if find_entry(entries, number).is_some() {
        return Err(
            concat3(
                "merge-queue pagination repeated PR #",
                id.as_str(),
                "; refusing an overlapping snapshot",
            ),
        );
    }
    let position: u64 = match node.u64_field("position") {
        Some(position) => position,
        None => return Err(concat3("merge-queue PR #", id.as_str(), " missing position")),
    };
    let enqueued_at = match node.text_field("enqueuedAt") {
        Some(text) => text,
        None => return Err(concat3("merge-queue PR #", id.as_str(), " missing enqueuedAt")),
    };
    let oid = match node.get("headCommit") {
        Some(commit) => commit.text_field("oid"),
        None => None,
    };
    let head = match oid {
        Some(oid) => if is_full_sha(oid.as_str()) {
            Some(oid.clone())
        } else {
            None
        },
        None => None,
    };
    Ok(QueueEntry { number, position, enqueued_at: enqueued_at.clone(), head })
}

/// The entries with those of a page of the queue.
pub open spec fn page_entries(queue: JsonTree, entries: Seq<EntryView>) -> Result<
    Seq<EntryView>,
    Seq<char>,
> {
    match items_in(queue.field("entries"@), "nodes"@) {
        None => Err("merge-queue response missing entries.nodes"@),
        Some(nodes) => if nodes.len() > 100 {
            Err("merge-queue page exceeds the requested 100 entries"@)
        } else {
            node_entries(nodes, entries)
        },
    }
}

/// Adds the entries of a page of the queue.
pub fn append_merge_queue_nodes(queue: &Json, entries: &mut Vec<QueueEntry>) -> (r: Result<
    (),
    String,
>)
    ensures
        match page_entries(queue@, entry_views(old(entries)@)) {
            Ok(all) => r is Ok && entry_views(final(entries)@) == all,
            Err(error) => r matches Err(e) && e@ == error,
        },
{
    let nodes = match queue.get("entries") {
        Some(found) => found.array_field("nodes"),
        None => None,
    };
    let nodes = match nodes {
        Some(nodes) => nodes,
        None => return Err("merge-queue response missing entries.nodes".to_owned()),
    };
    if nodes.len() > 100 {
        return Err("merge-queue page exceeds the requested 100 entries".to_owned());
    }
    let ghost start = entry_views(entries@);
    let ghost all = trees(nodes@);
    let mut i: usize = 0;
    while i < nodes.len()
        invariant
            i <= nodes.len(),
            all == trees(nodes@),
            start == entry_views(old(entries)@),
            page_entries(queue@, start) == node_entries(all, start),
            node_entries(all.take(i as int), start) == Ok::<Seq<EntryView>, Seq<char>>(
                entry_views(entries@),
            ),
        decreases nodes.len() - i,
    {
        proof {
            assert(all.take(i + 1).drop_last() =~= all.take(i as int));
            assert(all.take(i + 1).last() == nodes@[i as int]@);
        }
        match parse_entry(&nodes[i], entries) {
            Ok(entry) => {
                insert_entry(entries, entry);
            },
            Err(error) => {
                proof {
                    node_entries_failed_prefix(all, start, i + 1);
                }
                return Err(error);
            },
        }
        i = i + 1;
    }
    proof {
        assert(all.take(all.len() as int) =~= all);
    }
    Ok(())
}

/// Where the queue goes on after a page, if it does.
pub open spec fn next_cursor(queue: JsonTree) -> Result<Option<Seq<char>>, Seq<char>> {
    match queue.at(seq!["entries"@, "pageInfo"@]) {
        None => Err("merge-queue response missing entries.pageInfo"@),
        Some(info) => match info.boolean_at("hasNextPage"@) {
            None => Err("merge-queue response missing boolean entries.pageInfo.hasNextPage"@),
            Some(false) => Ok(None),
            Some(true) => match nonempty(info.text_at("endCursor"@)) {
                Some(cursor) => Ok(Some(cursor)),
                None => Err("merge-queue response has next page without a non-empty endCursor"@),
            },
        },
    }
}

/// The views of a result of an optional text.
pub open spec fn opt_text_result(r: Result<Option<String>, String>) -> Result<
    Option<Seq<char>>,
    Seq<char>,
> {
    match r {
        Ok(o) => Ok(opt_view(o)),
        Err(e) => Err(e@),
    }
}

/// Where the queue goes on after a page, if it does.
pub fn merge_queue_next_cursor(queue: &Json) -> (r: Result<Option<String>, String>)
    ensures
        opt_text_result(r) == next_cursor(queue@),
{
    let info = match queue.get2("entries", "pageInfo") {
        Some(info) => info,
        None => return Err("merge-queue response missing entries.pageInfo".to_owned()),
    };
    match info.bool_field("hasNextPage") {
        None => Err(
            "merge-queue response missing boolean entries.pageInfo.hasNextPage".to_owned(),
        ),
        Some(false) => Ok(None),
        Some(true) => match crate::text::copy_nonempty(info.text_field("endCursor")) {
            Some(cursor) => Ok(Some(cursor)),
            None => Err(
                "merge-queue response has next page without a non-empty endCursor".to_owned(),
            ),
        },
    }
}

/// The queue as far as it was read.
#[derive(Debug)]
pub struct QueueRead {
    pub page: usize,
    pub entries: Vec<QueueEntry>,
    pub cursor: Option<String>,
    pub seen: Vec<String>,
}

/// The merge queue.
#[derive(Debug)]
pub struct MergeQueueSnapshot {
    pub enabled: bool,
    pub entries: Vec<QueueEntry>,
}

/// What a snapshot says.
pub struct SnapshotView {
    pub enabled: bool,
    pub entries: Seq<EntryView>,
}

impl View for MergeQueueSnapshot {
    type V = SnapshotView;

    open spec fn view(&self) -> SnapshotView {
        SnapshotView { enabled: self.enabled, entries: entry_views(self.entries@) }
    }
}

/// What a page was answered.
#[derive(Debug)]
pub enum QueueReply {
    /// A document, whether it says that the plan has no merge queue, and its
    /// text.
    Document { value: Json, unavailable: bool, text: String },
    /// The read failed, and whether because the plan has no merge queue.
    Failed { error: String, unavailable: bool },
}

/// What follows a page.
#[derive(Debug)]
pub enum QueueNext {
    /// The next page has to be read.
    More(QueueRead),
    /// The queue was read, in a number of pages.
    Complete(MergeQueueSnapshot, usize),
    /// The queue could not be read.
    Failed(String),
}

/// What a read of the queue has come to.
pub struct ReadView {
    pub page: usize,
    pub entries: Seq<EntryView>,
    pub cursor: Option<Seq<char>>,
    pub seen: Seq<Seq<char>>,
}

impl View for QueueRead {
    type V = ReadView;

    open spec fn view(&self) -> ReadView {
        ReadView {
            page: self.page,
            entries: entry_views(self.entries@),
            cursor: opt_view(self.cursor),
            seen: views(self.seen@),
        }
    }
}

/// What follows a page.
pub enum NextView {
    More(ReadView),
    Complete(SnapshotView, usize),
    Failed(Seq<char>),
}

impl View for QueueNext {
    type V = NextView;

    open spec fn view(&self) -> NextView {
        match *self {
            QueueNext::More(read) => NextView::More(read@),
            QueueNext::Complete(snapshot, pages) => NextView::Complete(snapshot@, pages),
            QueueNext::Failed(error) => NextView::Failed(error@),
        }
    }
}

/// A queue that the plan does not have.
pub open spec fn no_queue() -> SnapshotView {
    SnapshotView { enabled: false, entries: Seq::empty() }
}

/// What follows a page: the queue is absent only on the first page, goes on only
/// with a cursor that was not seen before, and is refused beyond ten pages.
pub open spec fn after_page(read: ReadView, reply: QueueReply) -> NextView {
    match reply {
        QueueReply::Failed { error, unavailable } => if read.page == 1 && unavailable {
            NextView::Complete(no_queue(), 1)
        } else {
            NextView::Failed(error@)
        },
        QueueReply::Document { value, unavailable, text } => if (value@.items_at(
            "errors"@,
        ) matches Some(errors) && errors.len() > 0) {
            if read.page == 1 && unavailable {
                NextView::Complete(no_queue(), 1)
            } else {
                NextView::Failed("merge-queue GraphQL errors: "@ + text@)
            }
        } else {
            match value@.at(seq!["data"@, "repository"@, "mergeQueue"@]) {
                None => NextView::Failed("merge-queue response missing repository.mergeQueue"@),
                Some(queue) => if queue is Null {
                    if read.page == 1 {
                        NextView::Complete(no_queue(), 1)
                    } else {
                        NextView::Failed(
                            "merge-queue response became unavailable during pagination"@,
                        )
                    }
                } else {
                    match page_entries(queue, read.entries) {
                        Err(error) => NextView::Failed(error),
                        Ok(entries) => match next_cursor(queue) {
                            Err(error) => NextView::Failed(error),
                            Ok(None) => NextView::Complete(
                                SnapshotView { enabled: true, entries },
                                read.page,
                            ),
                            Ok(Some(cursor)) => if read.page >= MAX_MERGE_QUEUE_PAGES {
                                NextView::Failed(
                                    "merge queue exceeds 1000 entries; refusing a partial snapshot"@,
                                )
                            } else if read.seen.contains(cursor) {
                                NextView::Failed("merge-queue pagination repeated endCursor"@)
                            } else {
                                NextView::More(
                                    ReadView {
                                        page: (read.page + 1) as usize,
                                        entries,
                                        cursor: Some(cursor),
                                        seen: read.seen.push(cursor),
                                    },
                                )
                            },
                        },
                    }
                },
            }
        },
    }
}

fn absent() -> (r: MergeQueueSnapshot)
    ensures
        r@ == no_queue(),
{
    let r = MergeQueueSnapshot { enabled: false, entries: Vec::new() };
    proof {
        assert(entry_views(r.entries@) =~= Seq::<EntryView>::empty());
    }
    r
}

fn seen_before(seen: &Vec<String>, cursor: &str) -> (r: bool)
    ensures
        r == views(seen@).contains(cursor@),
{
    let mut i: usize = 0;
    while i < seen.len()
        invariant
            i <= seen.len(),
            forall|k: int| 0 <= k < i ==> #[trigger] views(seen@)[k] != cursor@,
        decreases seen.len() - i,
    {
        if str_eq(seen[i].as_str(), cursor) {
            proof {
                assert(views(seen@)[i as int] == cursor@);
            }
            return true;
        }
        i = i + 1;
    }
    false
}

impl QueueRead {
    /// A read of the queue from its first page on.
    pub fn new() -> (r: Self)
        ensures
            r@ == (ReadView {
                page: 1,
                entries: Seq::empty(),
                cursor: None,
                seen: Seq::empty(),
            }),
    {
        let r = QueueRead { page: 1, entries: Vec::new(), cursor: None, seen: Vec::new() };
        proof {
            assert(entry_views(r.entries@) =~= Seq::<EntryView>::empty());
            assert(views(r.seen@) =~= Seq::<Seq<char>>::empty());
        }
        r
    }
}

/// Takes in a page of the queue.
pub fn load_merge_queue_snapshot_once(read: QueueRead, reply: QueueReply) -> (r: QueueNext)
    requires
        read.page <= MAX_MERGE_QUEUE_PAGES,
    ensures
        r@ == after_page(read@, reply),
{
    match reply {
        QueueReply::Failed { error, unavailable } => if read.page == 1 && unavailable {
            QueueNext::Complete(absent(), 1)
        } else {
            QueueNext::Failed(error)
        },
        QueueReply::Document { value, unavailable, text } => {
            let erroneous = match value.array_field("errors") {
                Some(errors) => errors.len() > 0,
                None => false,
            };
            if erroneous {
                if read.page == 1 && unavailable {
                    return QueueNext::Complete(absent(), 1);
                }
                return QueueNext::Failed(concat("merge-queue GraphQL errors: ", text.as_str()));
            }
            let queue = match value.get3("data", "repository", "mergeQueue") {
                Some(queue) => queue,
                None => {
                    return QueueNext::Failed(
                        "merge-queue response missing repository.mergeQueue".to_owned(),
                    );
                },
            };
            if queue.is_null() {
                if read.page == 1 {
                    return QueueNext::Complete(absent(), 1);
                }
                return QueueNext::Failed(
                    "merge-queue response became unavailable during pagination".to_owned(),
                );
            }
            let QueueRead { page, mut entries, cursor: _, mut seen } = read;
            match append_merge_queue_nodes(queue, &mut entries) {
                Ok(_) => {},
                Err(error) => return QueueNext::Failed(error),
            }
            match merge_queue_next_cursor(queue) {
                Err(error) => QueueNext::Failed(error),
                Ok(None) => QueueNext::Complete(
                    MergeQueueSnapshot { enabled: true, entries },
                    page,
                ),
                Ok(Some(cursor)) => {
                    if page >= MAX_MERGE_QUEUE_PAGES {
                        return QueueNext::Failed(
                            "merge queue exceeds 1000 entries; refusing a partial snapshot".to_owned(),
                        );
                    }
                    if seen_before(&seen, cursor.as_str()) {
                        return QueueNext::Failed(
                            "merge-queue pagination repeated endCursor".to_owned(),
                        );
                    }
                    let ghost before = views(seen@);
                    seen.push(cursor.clone());
                    proof {
                        assert(views(seen@) =~= before.push(cursor@));
                    }
                    QueueNext::More(
                        QueueRead { page: page + 1, entries, cursor: Some(cursor), seen },
                    )
                },
            }
        },
    }
}

/// The arguments of the query for a page of the queue.
pub open spec fn page_arguments(
    repo: Seq<char>,
    base: Seq<char>,
    cursor: Option<Seq<char>>,
) -> Result<Seq<Seq<char>>, Seq<char>> {
    match cut(repo, '/') {
        Some((owner, name)) => {
            let first = seq![
                "api"@,
                "graphql"@,
                "-f"@,
                QUEUE_QUERY@,
                "-F"@,
                "owner="@ + owner,
                "-F"@,
                "name="@ + name,
                "-F"@,
                "branch="@ + base,
            ];
            Ok(
                match cursor {
                    Some(cursor) => first.push("-F"@).push("cursor="@ + cursor),
                    None => first,
                },
            )
        },
        None => Err("invalid repository slug `"@ + repo + "`"@),
    }
}

/// The arguments of the query for a page of the queue.
pub fn queue_page_args(repo: &str, base: &str, cursor: &Option<String>) -> (r: Result<
    Vec<String>,
    String,
>)
    ensures
        args_view(r) == page_arguments(repo@, base@, opt_view(*cursor)),
{
    match split_once(repo, '/') {
        Some((owner, name)) => {
            let mut r: Vec<String> = vec![
                "api".to_owned(),
                "graphql".to_owned(),
                "-f".to_owned(),
                QUEUE_QUERY.to_owned(),
                "-F".to_owned(),
                concat("owner=", owner.as_str()),
                "-F".to_owned(),
                concat("name=", name.as_str()),
                "-F".to_owned(),
                concat("branch=", base),
            ];
            if let Some(cursor) = cursor {
                r.push("-F".to_owned());
                r.push(concat("cursor=", cursor.as_str()));
            }
            proof {
                assert(views(r@) =~= page_arguments(repo@, base@, opt_view(*cursor))->Ok_0);
            }
            Ok(r)
        },
        None => Err(concat3("invalid repository slug `", repo, "`")),
    }
}

fn same_entries(a: &Vec<QueueEntry>, b: &Vec<QueueEntry>) -> (r: bool)
    ensures
        r == (entry_views(a@) == entry_views(b@)),
{
    if a.len() != b.len() {
        proof {
            assert(entry_views(a@).len() != entry_views(b@).len());
        }
        return false;
    }
    let mut i: usize = 0;
    while i < a.len()
        invariant
            i <= a.len(),
            a.len() == b.len(),
            forall|k: int| 0 <= k < i ==> #[trigger] entry_views(a@)[k] == entry_views(b@)[k],
        decreases a.len() - i,
    {
        if a[i].number != b[i].number || a[i].position != b[i].position || a[i].enqueued_at
            != b[i].enqueued_at || !crate::text::opt_eq(&a[i].head, &b[i].head) {
            proof {
                assert(entry_views(a@)[i as int] != entry_views(b@)[i as int]);
            }
            return false;
        }
        i = i + 1;
    }
    proof {
        assert(entry_views(a@) =~= entry_views(b@));
    }
    true
}

/// Whether a snapshot has to be read a second time before it is relied on.
pub open spec fn to_confirm(snapshot: SnapshotView, pages: usize) -> bool {
    snapshot.enabled && pages != 1
}

/// Whether a second read shows the same queue on the same number of pages.
pub open spec fn confirmed(
    snapshot: SnapshotView,
    pages: usize,
    confirmation: SnapshotView,
    confirmation_pages: usize,
) -> bool {
    confirmation_pages == pages && confirmation == snapshot
}

/// A queue is read a second time exactly where its entries came on more than one page, and
/// a second read that differs in anything refuses it.
pub proof fn only_an_unchanged_queue_is_confirmed(
    snapshot: SnapshotView,
    pages: usize,
    confirmation: SnapshotView,
    confirmation_pages: usize,
)
    ensures
        !to_confirm(no_queue(), pages),
        snapshot.enabled ==> (to_confirm(snapshot, pages) <==> pages != 1),
        confirmed(snapshot, pages, snapshot, pages),
        confirmed(snapshot, pages, confirmation, confirmation_pages) <==> confirmed(
            confirmation,
            confirmation_pages,
            snapshot,
            pages,
        ),
        confirmed(snapshot, pages, confirmation, confirmation_pages) ==> snapshot.entries
            == confirmation.entries && snapshot.enabled == confirmation.enabled && pages
            == confirmation_pages,
{
}

/// Whether a snapshot has to be confirmed by a second read: it took more than
/// one page.
pub fn needs_confirmation(snapshot: &MergeQueueSnapshot, pages: usize) -> (r: bool)
    ensures
        r == to_confirm(snapshot@, pages),
{
    snapshot.enabled && pages != 1
}

/// A snapshot that was read twice, where both reads agree.
pub fn merge_queue_snapshot(
    snapshot: MergeQueueSnapshot,
    pages: usize,
    confirmation: &MergeQueueSnapshot,
    confirmation_pages: usize,
) -> (r: Result<MergeQueueSnapshot, String>)
    ensures
        if confirmed(snapshot@, pages, confirmation@, confirmation_pages) {
            r == Ok::<MergeQueueSnapshot, String>(snapshot)
        } else {
            r matches Err(e) && e@
                == "merge queue changed during pagination; refusing an inconsistent snapshot"@
        },
{
    if confirmation_pages != pages || confirmation.enabled != snapshot.enabled || !same_entries(
        &confirmation.entries,
        &snapshot.entries,
    ) {
        return Err(
            "merge queue changed during pagination; refusing an inconsistent snapshot".to_owned(),
        );
    }
    Ok(snapshot)
}

/// Whether an entry is the front: none has a smaller position, and none before
/// it has the same.
pub open spec fn is_front(entries: Seq<EntryView>, i: int) -> bool {
    &&& 0 <= i < entries.len()
    &&& forall|k: int| 0 <= k < entries.len() ==> entries[i].position <= (#[trigger] entries[k]).position
    &&& forall|k: int| 0 <= k < i ==> (#[trigger] entries[k]).position != entries[i].position
}

/// The front of the queue.
pub fn front_entry(entries: &Vec<QueueEntry>) -> (r: Option<usize>)
    ensures
        match r {
            Some(i) => is_front(entry_views(entries@), i as int),
            None => entries@.len() == 0,
        },
{
    if entries.len() == 0 {
        return None;
    }
    let ghost all = entry_views(entries@);
    let mut best: usize = 0;
    let mut i: usize = 1;
    while i < entries.len()
        invariant
            1 <= i <= entries.len(),
            best < i,
            all == entry_views(entries@),
            forall|k: int| 0 <= k < i ==> all[best as int].position <= (#[trigger] all[k]).position,
            forall|k: int| 0 <= k < best ==> (#[trigger] all[k]).position != all[best as int].position,
        decreases entries.len() - i,
    {
        proof {
            assert(all[i as int] == entries@[i as int]@);
            assert(all[best as int] == entries@[best as int]@);
        }
        if entries[i].position < entries[best].position {
            best = i;
        }
        i = i + 1;
    }
    Some(best)
}

/// The head and the admission time of the queue's front, where the queue has
/// one and its head is known.
pub fn live_queue_front(snapshot: &MergeQueueSnapshot) -> (r: Option<(String, String)>)
    ensures
        match r {
            Some((head, enqueued_at)) => snapshot.enabled && exists|i: int| #[trigger]
                is_front(snapshot@.entries, i) && snapshot@.entries[i].head == Some(head@)
                    && snapshot@.entries[i].enqueued_at == enqueued_at@,
            None => !snapshot.enabled || snapshot.entries@.len() == 0 || exists|i: int| #[trigger]
                is_front(snapshot@.entries, i) && snapshot@.entries[i].head is None,
        },
{
    if !snapshot.enabled {
        return None;
    }
    match front_entry(&snapshot.entries) {
        Some(i) => {
            let entry = &snapshot.entries[i];
            proof {
                assert(snapshot@.entries[i as int] == entry@);
            }
            match &entry.head {
                Some(head) => Some((head.clone(), entry.enqueued_at.clone())),
                None => None,
            }
        },
        None => None,
    }
}

/// Whether entries are listed by their numbers, each once.
pub open spec fn listed_once(entries: Seq<EntryView>) -> bool {
    forall|i: int, j: int|
        0 <= i < j < entries.len() ==> (#[trigger] entries[i]).number < (
        #[trigger] entries[j]).number
}

proof fn no_entry(entries: Seq<EntryView>, number: u64, k: int)
    requires
        entry_of(entries, number) is None,
        0 <= k < entries.len(),
    ensures
        entries[k].number != number,
    decreases entries.len(),
{
    if k > 0 {
        no_entry(entries.drop_first(), number, k - 1);
        assert(entries.drop_first()[k - 1] == entries[k]);
    }
}

proof fn place_of(entries: Seq<EntryView>, number: u64) -> (i: int)
    requires
        listed_once(entries),
        forall|k: int| 0 <= k < entries.len() ==> (#[trigger] entries[k]).number != number,
    ensures
        0 <= i <= entries.len(),
        forall|k: int| 0 <= k < i ==> (#[trigger] entries[k]).number < number,
        forall|k: int| i <= k < entries.len() ==> number < (#[trigger] entries[k]).number,
    decreases entries.len(),
{
    if entries.len() == 0 || entries.last().number < number {
        entries.len() as int
    } else {
        let rest = entries.drop_last();
        assert forall|k: int| 0 <= k < rest.len() implies (#[trigger] rest[k]).number != number by {
            assert(rest[k] == entries[k]);
        }
        let i = place_of(rest, number);
        assert forall|k: int| 0 <= k < i implies (#[trigger] entries[k]).number < number by {
            assert(rest[k] == entries[k]);
        }
        assert forall|k: int| i <= k < entries.len() implies number < (
        #[trigger] entries[k]).number by {
            if k < rest.len() {
                assert(rest[k] == entries[k]);
            }
        }
        i
    }
}

proof fn inserted_once(entries: Seq<EntryView>, entry: EntryView)
    requires
        listed_once(entries),
        entry_of(entries, entry.number) is None,
    ensures
        listed_once(inserted(entries, entry)),
{
    assert forall|k: int| 0 <= k < entries.len() implies (#[trigger] entries[k]).number
        != entry.number by {
        no_entry(entries, entry.number, k);
    }
    let i = place_of(entries, entry.number);
    inserted_at(entries, entry, i);
}

proof fn node_entries_once(nodes: Seq<JsonTree>, entries: Seq<EntryView>)
    requires
        listed_once(entries),
    ensures
        node_entries(nodes, entries) matches Ok(after) ==> listed_once(after),
    decreases nodes.len(),
{
    if nodes.len() > 0 {
        node_entries_once(nodes.drop_last(), entries);
        match node_entries(nodes.drop_last(), entries) {
            Ok(before) => match node_entry(nodes.last(), before) {
                Ok(entry) => inserted_once(before, entry),
                Err(_) => {},
            },
            Err(_) => {},
        }
    }
}

/// A queue that is read page by page lists each pull request once, however the
/// pages overlap: a page that repeats one is refused.
pub proof fn pages_never_overlap(read: ReadView, reply: QueueReply)
    requires
        listed_once(read.entries),
    ensures
        match after_page(read, reply) {
            NextView::More(next) => listed_once(next.entries),
            NextView::Complete(snapshot, _) => listed_once(snapshot.entries),
            NextView::Failed(_) => true,
        },
{
    match reply {
        QueueReply::Document { value, .. } => match value@.at(
            seq!["data"@, "repository"@, "mergeQueue"@],
        ) {
            Some(queue) => match items_in(queue.field("entries"@), "nodes"@) {
                Some(nodes) => node_entries_once(nodes, read.entries),
                None => {},
            },
            None => {},
        },
        QueueReply::Failed { .. } => {},
    }
}

/// A queue has at most one front, so that reading it again from the same
/// entries gives the same answer.
pub proof fn front_is_unique(entries: Seq<EntryView>, i: int, j: int)
    requires
        is_front(entries, i),
        is_front(entries, j),
    ensures
        i == j,
{
    assert(entries[i].position <= entries[j].position);
    assert(entries[j].position <= entries[i].position);
    if i < j {
        assert(entries[i].position != entries[j].position);
    } else if j < i {
        assert(entries[j].position != entries[i].position);
    }
}

/// The heads of the queue's merge groups, where they are known.
pub open spec fn group_heads(entries: Seq<EntryView>) -> Map<u64, Seq<char>>
    decreases entries.len(),
{
    if entries.len() == 0 {
        Map::empty()
    } else {
        match entries.last().head {
            Some(head) => group_heads(entries.drop_last()).insert(entries.last().number, head),
            None => group_heads(entries.drop_last()),
        }
    }
}

/// The heads of the queue's merge groups, where they are known.
pub fn merge_group_heads(entries: &Vec<QueueEntry>) -> (r: BTreeMap<u64, String>)
    ensures
        map_views(r@) == group_heads(entry_views(entries@)),
{
    broadcast use vstd::std_specs::btree::group_btree_axioms;
    let ghost all = entry_views(entries@);
    let mut out: BTreeMap<u64, String> = BTreeMap::new();
    let mut i: usize = 0;
    proof {
        assert(map_views(out@) =~= group_heads(all.take(0)));
    }
    while i < entries.len()
        invariant
            i <= entries.len(),
            all == entry_views(entries@),
            map_views(out@) == group_heads(all.take(i as int)),
        decreases entries.len() - i,
    {
        let ghost before = out@;
        proof {
            assert(all.take(i + 1).drop_last() =~= all.take(i as int));
            assert(all.take(i + 1).last() == entries@[i as int]@);
        }
        if let Some(head) = &entries[i].head {
            let _ = out.insert(entries[i].number, head.clone());
            proof {
                assert(map_views(out@) =~= map_views(before).insert(
                    entries@[i as int].number,
                    head@,
                ));
            }
        }
        i = i + 1;
    }
    proof {
        assert(all.take(all.len() as int) =~= all);
    }
    out
}

proof fn inserted_keeps_all(entries: Seq<EntryView>, entry: EntryView)
    ensures
        inserted(entries, entry).len() == entries.len() + 1,
        inserted(entries, entry).contains(entry),
        forall|other: EntryView|
            entries.contains(other) ==> #[trigger] inserted(entries, entry).contains(other),
    decreases entries.len(),
{
    let after = inserted(entries, entry);
    if entries.len() == 0 || entry.number < entries[0].number {
        assert(after[0] == entry);
        assert forall|other: EntryView| entries.contains(other) implies #[trigger] after.contains(
            other,
        ) by {
            let i = choose|i: int| 0 <= i < entries.len() && entries[i] == other;
            assert(after[i + 1] == other);
        }
    } else {
        let rest = entries.drop_first();
        let placed = inserted(rest, entry);
        inserted_keeps_all(rest, entry);
        assert(placed.contains(entry));
        let at = choose|i: int| 0 <= i < placed.len() && placed[i] == entry;
        assert(after[at + 1] == entry);
        assert forall|other: EntryView| entries.contains(other) implies #[trigger] after.contains(
            other,
        ) by {
            let i = choose|i: int| 0 <= i < entries.len() && entries[i] == other;
            if i == 0 {
                assert(after[0] == other);
            } else {
                assert(rest[i - 1] == other);
                assert(rest.contains(other));
                assert(placed.contains(other));
                let k = choose|k: int| 0 <= k < placed.len() && placed[k] == other;
                assert(after[k + 1] == other);
            }
        }
    }
}

/// Whether an entry tells what a row of the queue tells.
pub open spec fn tells_row(entry: EntryView, row: JsonTree) -> bool {
    &&& number_in(row.field("pullRequest"@), "number"@) == Some(entry.number)
    &&& row.number_at("position"@) == Some(entry.position)
    &&& row.text_at("enqueuedAt"@) == Some(entry.enqueued_at)
    &&& entry.head matches Some(head) ==> text_in(row.field("headCommit"@), "oid"@) == Some(head)
        && full_sha(head)
    &&& text_in(row.field("headCommit"@), "oid"@) matches Some(oid) ==> (full_sha(oid)
        ==> entry.head == Some(oid))
}

/// A row that names its pull request, position and time gives the entry that tells them,
/// unless the pull request is listed already; every other row is refused.
pub proof fn a_whole_row_gives_its_entry(row: JsonTree, entries: Seq<EntryView>)
    ensures
        node_entry(row, entries) matches Ok(entry) ==> tells_row(entry, row) && entry_of(
            entries,
            entry.number,
        ) is None,
        node_entry(row, entries) is Ok <==> (number_in(row.field("pullRequest"@), "number"@)
            matches Some(number) && entry_of(entries, number) is None) && row.number_at(
            "position"@,
        ) is Some && row.text_at("enqueuedAt"@) is Some,
{
}

/// A page that is read adds exactly one entry for each of its rows and loses none that
/// was read before.
pub proof fn every_row_is_in_the_snapshot(rows: Seq<JsonTree>, entries: Seq<EntryView>, i: int)
    requires
        0 <= i < rows.len(),
        node_entries(rows, entries) is Ok,
    ensures
        node_entries(rows, entries)->Ok_0.len() == entries.len() + rows.len(),
        exists|entry: EntryView| #[trigger]
            node_entries(rows, entries)->Ok_0.contains(entry) && tells_row(entry, rows[i]),
        forall|entry: EntryView| #[trigger]
            entries.contains(entry) ==> node_entries(rows, entries)->Ok_0.contains(entry),
    decreases rows.len(),
{
    let rest = rows.drop_last();
    let before = node_entries(rest, entries)->Ok_0;
    let last = node_entry(rows.last(), before)->Ok_0;
    let after = node_entries(rows, entries)->Ok_0;
    inserted_keeps_all(before, last);
    if rest.len() > 0 {
        every_row_is_in_the_snapshot(rest, entries, 0);
    }
    if i == rows.len() - 1 {
        a_whole_row_gives_its_entry(rows.last(), before);
        assert(after.contains(last) && tells_row(last, rows[i]));
    } else {
        every_row_is_in_the_snapshot(rest, entries, i);
        let entry = choose|entry: EntryView| #[trigger]
            before.contains(entry) && tells_row(entry, rest[i]);
        assert(rest[i] == rows[i]);
        assert(after.contains(entry) && tells_row(entry, rows[i]));
    }
    assert forall|entry: EntryView| #[trigger] entries.contains(entry) implies after.contains(
        entry,
    ) by {
        assert(before.contains(entry));
    }
}

/// A queue is read page by page: it is complete exactly after a page without a further
/// one, a further page is asked for by a cursor that was not met before and below the
/// limit of pages, and a queue is found absent only on the first page.
pub proof fn a_queue_is_read_to_its_last_page(read: ReadView, reply: QueueReply)
    requires
        1 <= read.page <= 10,
    ensures
        match after_page(read, reply) {
            NextView::More(next) => {
                &&& next.page == read.page + 1
                &&& next.page <= 10
                &&& next.cursor matches Some(cursor) && !read.seen.contains(cursor)
                    && next.seen.contains(cursor)
                &&& next.entries.len() >= read.entries.len()
                &&& reply matches QueueReply::Document { value, .. } && (value@.at(
                    seq!["data"@, "repository"@, "mergeQueue"@],
                ) matches Some(queue) && next_cursor(queue) == Ok::<Option<Seq<char>>, Seq<char>>(
                    next.cursor,
                ))
            },
            NextView::Complete(snapshot, pages) => {
                &&& pages == read.page
                &&& !snapshot.enabled ==> read.page == 1 && snapshot.entries.len() == 0
                &&& snapshot.enabled ==> snapshot.entries.len() >= read.entries.len() && (reply
                    matches QueueReply::Document { value, .. } && (value@.at(
                    seq!["data"@, "repository"@, "mergeQueue"@],
                ) matches Some(queue) && next_cursor(queue) == Ok::<Option<Seq<char>>, Seq<char>>(
                    None,
                )))
            },
            NextView::Failed(error) => reply matches QueueReply::Failed { error: cause, .. }
                ==> error == cause@,
        },
        reply matches QueueReply::Failed { unavailable, .. } ==> (after_page(read, reply) is Failed
            <==> read.page != 1 || !unavailable),
{
    if let QueueReply::Document { value, .. } = reply {
        if let Some(queue) = value@.at(seq!["data"@, "repository"@, "mergeQueue"@]) {
            if let Some(rows) = items_in(queue.field("entries"@), "nodes"@) {
                if rows.len() > 0 && node_entries(rows, read.entries) is Ok {
                    every_row_is_in_the_snapshot(rows, read.entries, 0);
                }
            }
            if let Ok(Some(cursor)) = next_cursor(queue) {
                let seen = read.seen.push(cursor);
                assert(seen[seen.len() - 1] == cursor);
            }
        }
    }
}

/// A page tells plainly whether there is a further one; anything else is refused.
pub proof fn a_further_page_has_a_cursor(queue: JsonTree)
    ensures
        next_cursor(queue) matches Ok(Some(cursor)) ==> cursor.len() > 0,
        queue.at(seq!["entries"@, "pageInfo"@]) matches Some(info) ==> {
            &&& next_cursor(queue) == Ok::<Option<Seq<char>>, Seq<char>>(None) <==> info.boolean_at(
                "hasNextPage"@,
            ) == Some(false)
            &&& (next_cursor(queue) matches Ok(Some(cursor)) ==> info.boolean_at("hasNextPage"@)
                == Some(true) && info.text_at("endCursor"@) == Some(cursor))
        },
        queue.at(seq!["entries"@, "pageInfo"@]) is None ==> next_cursor(queue) is Err,
{
}

/// The merge group of a queued pull request has the head of its entry.
pub proof fn each_group_has_the_head_of_its_entry(entries: Seq<EntryView>, i: int)
    requires
        listed_once(entries),
        0 <= i < entries.len(),
    ensures
        entries[i].head matches Some(head) ==> group_heads(entries).dom().contains(
            entries[i].number,
        ) && group_heads(entries)[entries[i].number] == head,
        entries[i].head is None ==> !group_heads(entries).dom().contains(entries[i].number),
    decreases entries.len(),
{
    let before = entries.drop_last();
    assert forall|a: int, b: int| 0 <= a < b < before.len() implies (#[trigger] before[a]).number < (
    #[trigger] before[b]).number by {
        assert(before[a] == entries[a] && before[b] == entries[b]);
    }
    if i < entries.len() - 1 {
        assert(before[i] == entries[i]);
        assert(entries[i].number < entries[entries.len() - 1].number);
        each_group_has_the_head_of_its_entry(before, i);
    } else {
        unlisted_groups_have_none(before, entries[i].number);
    }
}

proof fn unlisted_groups_have_none(entries: Seq<EntryView>, number: u64)
    requires
        forall|k: int| 0 <= k < entries.len() ==> (#[trigger] entries[k]).number < number,
    ensures
        !group_heads(entries).dom().contains(number),
    decreases entries.len(),
{
    if entries.len() > 0 {
        let before = entries.drop_last();
        assert forall|k: int| 0 <= k < before.len() implies (#[trigger] before[k]).number < number by {
            assert(before[k] == entries[k]);
        }
        assert(entries[entries.len() - 1].number < number);
        unlisted_groups_have_none(before, number);
    }
}

} // verus!
