//! What an agent does after a handoff, derived from an explicit task graph.
use vstd::prelude::*;
use vstd::utf8::encode_utf8;

use crate::model::{fails, CliFailure};
use crate::outside::{hex_digest, sha256_hex};
use crate::text::{
    all_lower_hex, byte_len, byte_length, concat, concat3, contains_space, decimal, has_space, join,
    only_lower_hex, separated, str_eq, str_lt, strictly_sorted, text_lt, text_lt_irreflexive,
    text_lt_transitive, to_bytes, to_decimal, views,
};
use crate::text_map::TextMap;

verus! {

/// The largest task graph that is read, in bytes.
pub const MAX_TASK_GRAPH_BYTES: u64 = 262_144;

/// The largest number of tasks in a graph.
pub const MAX_TASK_NODES: usize = 1_024;

/// What an agent does after a handoff.
#[derive(Clone, Copy, Debug, PartialEq, Eq, Structural)]
pub enum AgentDisposition {
    Continue,
    Pause,
}

impl AgentDisposition {
    /// The disposition's name.
    pub open spec fn name(self) -> Seq<char> {
        match self {
            AgentDisposition::Continue => "continue"@,
            AgentDisposition::Pause => "pause"@,
        }
    }

    /// Reads a disposition's name.
    pub fn parse(value: &str) -> (r: Result<Self, CliFailure>)
        ensures
            match r {
                Ok(disposition) => value@ == disposition.name(),
                Err(failure) => value@ != "continue"@ && value@ != "pause"@ && failure.says(
                    1,
                    "--after-handoff must be continue or pause"@,
                ),
            },
    {
        if str_eq(value, "continue") {
            Ok(AgentDisposition::Continue)
        } else if str_eq(value, "pause") {
            Ok(AgentDisposition::Pause)
        } else {
            Err(CliFailure::new(1, "--after-handoff must be continue or pause"))
        }
    }

    /// The disposition's name.
    pub fn as_str(self) -> (r: &'static str)
        ensures
            r@ == self.name(),
    {
        match self {
            AgentDisposition::Continue => "continue",
            AgentDisposition::Pause => "pause",
        }
    }
}

/// The two dispositions have different names, so that a name that was written is
/// read back as the disposition that wrote it.
pub proof fn disposition_names_differ(a: AgentDisposition, b: AgentDisposition)
    requires
        a.name() == b.name(),
    ensures
        a == b,
{
    reveal_strlit("continue");
    reveal_strlit("pause");
    assert("continue"@.len() != "pause"@.len());
}

/// Whether a text is an identity: one to 124 bytes without white space.
pub open spec fn is_id(value: Seq<char>) -> bool {
    0 < value.len() && byte_length(value) <= 124 && !has_space(value)
}

/// Whether a text is an identity.
pub fn valid_id(value: &str) -> (r: bool)
    ensures
        r == is_id(value@),
{
    !value.is_empty() && byte_len(value) <= 124 && !contains_space(value)
}

/// Whether a text is a digest: 64 lower-case hexadecimal digits.
pub open spec fn is_digest(value: Seq<char>) -> bool {
    value.len() == 64 && all_lower_hex(value)
}

/// Whether a text is a digest.
pub fn valid_digest(value: &str) -> (r: bool)
    ensures
        r == is_digest(value@),
{
    value.unicode_len() == 64 && only_lower_hex(value)
}

/// Proof that an agent may pause: nothing in its task graph can be worked on.
#[derive(Clone, Debug, PartialEq, Eq)]
pub struct StoredDispositionProofV1 {
    pub schema_version: u32,
    pub workstream_id: String,
    pub graph_revision: u64,
    pub handoff_task_id: String,
    pub graph_digest: String,
    pub blocked_nodes: u64,
    pub integrity_hash: String,
}

/// The text whose digest seals a proof.
pub open spec fn sealed_text(proof: StoredDispositionProofV1) -> Seq<char> {
    "shipyard-post-handoff-disposition-v1\n"@ + proof.workstream_id@ + "\n"@ + decimal(
        proof.graph_revision as nat,
    ) + "\n"@ + proof.handoff_task_id@ + "\n"@ + proof.graph_digest@ + "\n"@ + decimal(
        proof.blocked_nodes as nat,
    )
}

/// The digest that seals a proof.
pub fn proof_integrity(proof: &StoredDispositionProofV1) -> (r: String)
    ensures
        r@ == sha256_hex(encode_utf8(sealed_text(*proof))),
{
    let mut out: String = concat3(
        "shipyard-post-handoff-disposition-v1\n",
        proof.workstream_id.as_str(),
        "\n",
    );
    out.append(to_decimal(proof.graph_revision).as_str());
    out.append("\n");
    out.append(proof.handoff_task_id.as_str());
    out.append("\n");
    out.append(proof.graph_digest.as_str());
    out.append("\n");
    out.append(to_decimal(proof.blocked_nodes).as_str());
    hex_digest(&to_bytes(out.as_str()))
}

impl StoredDispositionProofV1 {
    /// Whether the proof is whole and belongs to a workstream.
    pub open spec fn holds_for(self, workstream_id: Seq<char>) -> bool {
        &&& self.schema_version == 1
        &&& self.workstream_id@ == workstream_id
        &&& self.graph_revision > 0
        &&& is_id(self.handoff_task_id@)
        &&& is_digest(self.graph_digest@)
        &&& self.integrity_hash@ == sha256_hex(encode_utf8(sealed_text(self)))
    }

    /// Whether the proof is whole and belongs to a workstream.
    pub fn valid_for(&self, workstream_id: &str) -> (r: bool)
        ensures
            r == self.holds_for(workstream_id@),
    {
        self.schema_version == 1 && str_eq(self.workstream_id.as_str(), workstream_id)
            && self.graph_revision > 0 && valid_id(self.handoff_task_id.as_str()) && valid_digest(
            self.graph_digest.as_str(),
        ) && str_eq(self.integrity_hash.as_str(), proof_integrity(self).as_str())
    }
}

/// The state of a task.
#[derive(Clone, Copy, Debug, PartialEq, Eq, Structural)]
pub enum TaskStateV1 {
    Pending,
    Running,
    Blocked,
    HandedOff,
    Complete,
    Canceled,
}

/// A task and the tasks it waits for.
#[derive(Clone, Debug, PartialEq, Eq)]
pub struct TaskNodeV1 {
    pub id: String,
    pub state: TaskStateV1,
    pub depends_on: Vec<String>,
}

/// A workstream's tasks.
#[derive(Clone, Debug, PartialEq, Eq)]
pub struct TaskGraphV1 {
    pub schema_version: u32,
    pub workstream_id: String,
    pub revision: u64,
    pub handoff_task_id: String,
    pub nodes: Vec<TaskNodeV1>,
}

/// Whether a task waits for a task with an identity.
pub open spec fn waits_on(node: TaskNodeV1, id: Seq<char>) -> bool {
    exists|d: int| 0 <= d < node.depends_on@.len() && (#[trigger] node.depends_on@[d])@ == id
}

/// Whether one task waits for another.
pub open spec fn edge(nodes: Seq<TaskNodeV1>, i: int, j: int) -> bool {
    0 <= i < nodes.len() && 0 <= j < nodes.len() && waits_on(nodes[i], nodes[j].id@)
}

/// Whether a task's identities are valid and its dependencies strictly increase.
pub open spec fn canonical_node(node: TaskNodeV1) -> bool {
    &&& is_id(node.id@)
    &&& forall|d: int| 0 <= d < node.depends_on@.len() ==> is_id((#[trigger] node.depends_on@[d])@)
    &&& strictly_sorted(views(node.depends_on@))
}

/// Whether no two tasks share an identity.
pub open spec fn distinct_ids(nodes: Seq<TaskNodeV1>) -> bool {
    forall|i: int, j: int|
        0 <= i < j < nodes.len() ==> (#[trigger] nodes[i]).id@ != (#[trigger] nodes[j]).id@
}

/// Whether every task is canonical and no two share an identity.
pub open spec fn canonical_nodes(nodes: Seq<TaskNodeV1>) -> bool {
    distinct_ids(nodes) && forall|i: int|
        0 <= i < nodes.len() ==> canonical_node(#[trigger] nodes[i])
}

/// Whether some task has an identity.
pub open spec fn has_task(nodes: Seq<TaskNodeV1>, id: Seq<char>) -> bool {
    exists|i: int| 0 <= i < nodes.len() && (#[trigger] nodes[i]).id@ == id
}

/// Whether a task waits for itself or for a task that is not there.
pub open spec fn dangles(nodes: Seq<TaskNodeV1>, i: int) -> bool {
    exists|d: int|
        0 <= d < nodes[i].depends_on@.len() && ((#[trigger] nodes[i].depends_on@[d])@
            == nodes[i].id@ || !has_task(nodes, nodes[i].depends_on@[d]@))
}

/// Whether the handed-off task still waits for something.
pub open spec fn retains(nodes: Seq<TaskNodeV1>, handoff: Seq<char>, i: int) -> bool {
    nodes[i].id@ == handoff && nodes[i].depends_on@.len() > 0
}

/// Whether a position is the one, among those that satisfy a predicate, whose
/// task has the least identity.
pub open spec fn least(nodes: Seq<TaskNodeV1>, p: spec_fn(int) -> bool, i: int) -> bool {
    &&& 0 <= i < nodes.len() && p(i)
    &&& forall|j: int|
        0 <= j < nodes.len() && #[trigger] p(j) ==> !text_lt(nodes[j].id@, nodes[i].id@)
}

/// Whether consecutive tasks of a walk wait for one another.
pub open spec fn chain(nodes: Seq<TaskNodeV1>, path: Seq<int>) -> bool {
    forall|t: int| 0 <= t < path.len() - 1 ==> edge(nodes, path[t], #[trigger] path[t + 1])
}

/// Whether some task waits, through others or not, for itself.
pub open spec fn cyclic(nodes: Seq<TaskNodeV1>) -> bool {
    exists|path: Seq<int>|
        path.len() >= 2 && path[0] == path.last() && #[trigger] chain(nodes, path)
}

/// Whether everything that a task waits for is over.
pub open spec fn satisfied(nodes: Seq<TaskNodeV1>, i: int) -> bool {
    forall|d: int|
        0 <= d < nodes[i].depends_on@.len() ==> is_over(nodes, (#[trigger] nodes[i].depends_on@[d])@)
}

/// Whether the task with an identity is complete or canceled.
pub open spec fn is_over(nodes: Seq<TaskNodeV1>, id: Seq<char>) -> bool {
    exists|j: int|
        0 <= j < nodes.len() && (#[trigger] nodes[j]).id@ == id && (nodes[j].state
            == TaskStateV1::Complete || nodes[j].state == TaskStateV1::Canceled)
}

/// Whether a task other than the handed-off one can be worked on.
pub open spec fn runnable(nodes: Seq<TaskNodeV1>, handoff: Seq<char>, i: int) -> bool {
    nodes[i].id@ != handoff && (nodes[i].state == TaskStateV1::Running || (nodes[i].state
        == TaskStateV1::Pending && satisfied(nodes, i)))
}

/// Whether a task other than the handed-off one is called blocked for no reason.
pub open spec fn unjustified(nodes: Seq<TaskNodeV1>, handoff: Seq<char>, i: int) -> bool {
    nodes[i].id@ != handoff && nodes[i].state == TaskStateV1::Blocked && (nodes[i].depends_on@.len()
        == 0 || satisfied(nodes, i))
}

/// Whether a task other than the handed-off one waits.
pub open spec fn waiting(nodes: Seq<TaskNodeV1>, handoff: Seq<char>, i: int) -> bool {
    nodes[i].id@ != handoff && match nodes[i].state {
        TaskStateV1::Pending => !satisfied(nodes, i),
        TaskStateV1::HandedOff => true,
        TaskStateV1::Blocked => nodes[i].depends_on@.len() > 0 && !satisfied(nodes, i),
        _ => false,
    }
}

/// Whether a list holds the identities of exactly the tasks that can be worked
/// on, in increasing order.
pub open spec fn lists_runnable(
    nodes: Seq<TaskNodeV1>,
    handoff: Seq<char>,
    ids: Seq<Seq<char>>,
) -> bool {
    strictly_sorted(ids) && forall|id: Seq<char>| #[trigger]
        ids.contains(id) <==> exists|i: int|
            0 <= i < nodes.len() && runnable(nodes, handoff, i) && (#[trigger] nodes[i]).id@ == id
}

/// The first of a list, at most eight.
pub open spec fn first_eight(ids: Seq<Seq<char>>) -> Seq<Seq<char>> {
    if ids.len() <= 8 {
        ids
    } else {
        ids.take(8)
    }
}

/// Whether a graph's identity and bounds are right.
pub open spec fn graph_identity_valid(graph: TaskGraphV1, workstream_id: Seq<char>) -> bool {
    &&& graph.schema_version == 1
    &&& graph.workstream_id@ == workstream_id
    &&& graph.revision > 0
    &&& is_id(graph.handoff_task_id@)
    &&& 0 < graph.nodes@.len() <= MAX_TASK_NODES
}

/// The position of the task with an identity.
fn index_of(nodes: &Vec<TaskNodeV1>, id: &str) -> (r: Option<usize>)
    ensures
        match r {
            Some(i) => i < nodes@.len() && nodes@[i as int].id@ == id@,
            None => !has_task(nodes@, id@),
        },
{
    let mut i: usize = 0;
    while i < nodes.len()
        invariant
            i <= nodes.len(),
            forall|k: int| 0 <= k < i ==> (#[trigger] nodes@[k]).id@ != id@,
        decreases nodes.len() - i,
    {
        if str_eq(nodes[i].id.as_str(), id) {
            return Some(i);
        }
        i = i + 1;
    }
    None
}

fn is_canonical_node(node: &TaskNodeV1) -> (r: bool)
    ensures
        r == canonical_node(*node),
{
    if !valid_id(node.id.as_str()) {
        return false;
    }
    let ghost deps = views(node.depends_on@);
    let mut d: usize = 0;
    while d < node.depends_on.len()
        invariant
            d <= node.depends_on.len(),
            deps == views(node.depends_on@),
            forall|k: int| 0 <= k < d ==> is_id((#[trigger] node.depends_on@[k])@),
            forall|a: int, b: int|
                0 <= a < b < d ==> text_lt(#[trigger] deps[a], #[trigger] deps[b]),
        decreases node.depends_on.len() - d,
    {
        if !valid_id(node.depends_on[d].as_str()) {
            return false;
        }
        if d > 0 && !str_lt(node.depends_on[d - 1].as_str(), node.depends_on[d].as_str()) {
            proof {
                assert(!text_lt(deps[d - 1], deps[d as int]));
            }
            return false;
        }
        proof {
            assert forall|a: int, b: int| 0 <= a < b < d + 1 implies text_lt(
                #[trigger] deps[a],
                #[trigger] deps[b],
            ) by {
                if b == d && a < d - 1 {
                    text_lt_transitive(deps[a], deps[d - 1], deps[d as int]);
                }
            }
        }
        d = d + 1;
    }
    true
}

fn are_canonical_nodes(nodes: &Vec<TaskNodeV1>) -> (r: bool)
    ensures
        r == canonical_nodes(nodes@),
{
    let mut i: usize = 0;
    while i < nodes.len()
        invariant
            i <= nodes.len(),
            forall|k: int| 0 <= k < i ==> canonical_node(#[trigger] nodes@[k]),
            distinct_ids(nodes@.take(i as int)),
        decreases nodes.len() - i,
    {
        if !is_canonical_node(&nodes[i]) {
            return false;
        }
        let mut j: usize = 0;
        while j < i
            invariant
                j <= i < nodes.len(),
                forall|k: int| 0 <= k < j ==> (#[trigger] nodes@[k]).id@ != nodes@[i as int].id@,
            decreases i - j,
        {
            if nodes[j].id == nodes[i].id {
                proof {
                    assert(nodes@[j as int].id@ == nodes@[i as int].id@);
                }
                return false;
            }
            j = j + 1;
        }
        proof {
            let longer = nodes@.take(i + 1);
            assert forall|a: int, b: int| 0 <= a < b < longer.len() implies (
            #[trigger] longer[a]).id@ != (#[trigger] longer[b]).id@ by {
                if b < i {
                    let shorter = nodes@.take(i as int);
                    assert(shorter[a].id@ != shorter[b].id@);
                }
            }
        }
        i = i + 1;
    }
    proof {
        assert(nodes@.take(nodes@.len() as int) =~= nodes@);
    }
    true
}

fn node_dangles(nodes: &Vec<TaskNodeV1>, i: usize) -> (r: bool)
    requires
        i < nodes@.len(),
    ensures
        r == dangles(nodes@, i as int),
{
    let deps = &nodes[i].depends_on;
    let mut d: usize = 0;
    while d < deps.len()
        invariant
            d <= deps.len(),
            i < nodes@.len(),
            deps == &nodes@[i as int].depends_on,
            forall|k: int|
                0 <= k < d ==> !((#[trigger] nodes@[i as int].depends_on@[k])@
                    == nodes@[i as int].id@ || !has_task(
                    nodes@,
                    nodes@[i as int].depends_on@[k]@,
                )),
        decreases deps.len() - d,
    {
        let missing = match index_of(nodes, deps[d].as_str()) {
            Some(j) => {
                proof {
                    assert(has_task(nodes@, nodes@[i as int].depends_on@[d as int]@));
                }
                false
            },
            None => true,
        };
        if deps[d] == nodes[i].id || missing {
            proof {
                assert(nodes@[i as int].depends_on@[d as int]@ == nodes@[i as int].id@
                    || !has_task(nodes@, nodes@[i as int].depends_on@[d as int]@));
            }
            return true;
        }
        d = d + 1;
    }
    false
}

fn is_satisfied(nodes: &Vec<TaskNodeV1>, i: usize) -> (r: bool)
    requires
        i < nodes@.len(),
        distinct_ids(nodes@),
    ensures
        r == satisfied(nodes@, i as int),
{
    let deps = &nodes[i].depends_on;
    let mut d: usize = 0;
    while d < deps.len()
        invariant
            d <= deps.len(),
            i < nodes@.len(),
            distinct_ids(nodes@),
            deps == &nodes@[i as int].depends_on,
            forall|k: int|
                0 <= k < d ==> is_over(nodes@, (#[trigger] nodes@[i as int].depends_on@[k])@),
        decreases deps.len() - d,
    {
        let ghost id = nodes@[i as int].depends_on@[d as int]@;
        let over = match index_of(nodes, deps[d].as_str()) {
            Some(j) => {
                let over = nodes[j].state == TaskStateV1::Complete || nodes[j].state
                    == TaskStateV1::Canceled;
                proof {
                    if over {
                        assert(nodes@[j as int].id@ == id);
                        assert(is_over(nodes@, id));
                    } else if is_over(nodes@, id) {
                        let k = choose|k: int|
                            0 <= k < nodes@.len() && (#[trigger] nodes@[k]).id@ == id && (
                            nodes@[k].state == TaskStateV1::Complete || nodes@[k].state
                                == TaskStateV1::Canceled);
                        if k < j {
                            assert(nodes@[k].id@ != nodes@[j as int].id@);
                        } else if j < k {
                            assert(nodes@[j as int].id@ != nodes@[k].id@);
                        }
                    }
                }
                over
            },
            None => {
                proof {
                    if is_over(nodes@, id) {
                        assert(has_task(nodes@, id));
                    }
                }
                false
            },
        };
        if !over {
            return false;
        }
        d = d + 1;
    }
    true
}

/// Whether every task of a sequence comes after the tasks it waits for.
spec fn ordered_after(nodes: Seq<TaskNodeV1>, order: Seq<int>) -> bool {
    forall|t: int, j: int|
        0 <= t < order.len() && #[trigger] edge(nodes, order[t], j) ==> order.take(t).contains(j)
}

/// The first position of a task in a sequence.
spec fn rank(order: Seq<int>, k: int) -> int
    decreases order.len(),
{
    if order.len() == 0 || order[0] == k {
        0
    } else {
        1 + rank(order.drop_first(), k)
    }
}

proof fn rank_is_first(order: Seq<int>, k: int, s: int)
    requires
        0 <= s < order.len(),
        order[s] == k,
    ensures
        0 <= rank(order, k) <= s,
        order[rank(order, k)] == k,
    decreases order.len(),
{
    if order[0] != k {
        assert(order.drop_first()[s - 1] == k);
        rank_is_first(order.drop_first(), k, s - 1);
    }
}

proof fn rank_falls_along(nodes: Seq<TaskNodeV1>, order: Seq<int>, path: Seq<int>, t: int)
    requires
        ordered_after(nodes, order),
        chain(nodes, path),
        forall|k: int| 0 <= k < nodes.len() ==> #[trigger] order.contains(k),
        0 <= t < path.len(),
        path.len() >= 2,
    ensures
        rank(order, path[t]) + t <= rank(order, path[0]),
    decreases t,
{
    if t > 0 {
        rank_falls_along(nodes, order, path, t - 1);
        let a = path[t - 1];
        let b = path[t];
        assert(edge(nodes, path[t - 1], path[t - 1 + 1]));
        assert(order.contains(a));
        let s = choose|s: int| 0 <= s < order.len() && order[s] == a;
        rank_is_first(order, a, s);
        let at = rank(order, a);
        assert(edge(nodes, order[at], b));
        assert(order.take(at).contains(b));
        let q = choose|q: int| 0 <= q < order.take(at).len() && order.take(at)[q] == b;
        assert(order[q] == b);
        rank_is_first(order, b, q);
    }
}

proof fn ordered_is_acyclic(nodes: Seq<TaskNodeV1>, order: Seq<int>)
    requires
        ordered_after(nodes, order),
        forall|k: int| 0 <= k < nodes.len() ==> #[trigger] order.contains(k),
    ensures
        !cyclic(nodes),
{
    if cyclic(nodes) {
        let path = choose|path: Seq<int>|
            path.len() >= 2 && path[0] == path.last() && #[trigger] chain(nodes, path);
        rank_falls_along(nodes, order, path, path.len() - 1);
    }
}

/// What the walk keeps: the tasks on the walk and the tasks that are done, with
/// every done task after the ones it waits for.
spec fn walk_state(
    nodes: Seq<TaskNodeV1>,
    visiting: Seq<bool>,
    visited: Seq<bool>,
    path: Seq<int>,
    order: Seq<int>,
) -> bool {
    &&& visiting.len() == nodes.len()
    &&& visited.len() == nodes.len()
    &&& path.no_duplicates()
    &&& forall|t: int| 0 <= t < path.len() ==> 0 <= #[trigger] path[t] < nodes.len()
    &&& forall|k: int| 0 <= k < nodes.len() ==> (#[trigger] visiting[k] <==> path.contains(k))
    &&& forall|k: int| 0 <= k < nodes.len() ==> (#[trigger] visited[k] <==> order.contains(k))
    &&& ordered_after(nodes, order)
}

proof fn distinct_positions_fit(path: Seq<int>, n: int)
    requires
        path.no_duplicates(),
        0 <= n,
        forall|t: int| 0 <= t < path.len() ==> 0 <= #[trigger] path[t] < n,
    ensures
        path.len() <= n,
{
    path.unique_seq_to_set();
    let range = vstd::set_lib::set_int_range(0, n);
    vstd::set_lib::lemma_int_range(0, n);
    assert(path.to_set().subset_of(range));
    vstd::set_lib::lemma_len_subset(path.to_set(), range);
}

proof fn longer_order(nodes: Seq<TaskNodeV1>, order: Seq<int>, i: int)
    requires
        ordered_after(nodes, order),
        forall|j: int| #[trigger] edge(nodes, i, j) ==> order.contains(j),
    ensures
        ordered_after(nodes, order.push(i)),
{
    let longer = order.push(i);
    assert forall|t: int, j: int|
        0 <= t < longer.len() && #[trigger] edge(nodes, longer[t], j) implies longer.take(
        t,
    ).contains(j) by {
        if t < order.len() {
            assert(edge(nodes, order[t], j));
            assert(longer.take(t) =~= order.take(t));
        } else {
            assert(longer.take(t) =~= order);
        }
    }
}

/// Visits a task and those it waits for; true where a cycle was met.
fn visit(
    nodes: &Vec<TaskNodeV1>,
    i: usize,
    visiting: &mut Vec<bool>,
    visited: &mut Vec<bool>,
    path: Ghost<Seq<int>>,
    order: &mut Ghost<Seq<int>>,
) -> (r: bool)
    requires
        i < nodes@.len(),
        distinct_ids(nodes@),
        forall|k: int| 0 <= k < nodes@.len() ==> !#[trigger] dangles(nodes@, k),
        walk_state(nodes@, old(visiting)@, old(visited)@, path@, old(order)@),
        chain(nodes@, path@.push(i as int)),
    ensures
        r ==> cyclic(nodes@),
        !r ==> {
            &&& walk_state(nodes@, final(visiting)@, final(visited)@, path@, final(order)@)
            &&& final(visited)@[i as int]
            &&& forall|k: int|
                0 <= k < nodes@.len() && old(visited)@[k] ==> #[trigger] final(visited)@[k]
        },
    decreases nodes@.len() - path@.len(),
{
    if visited[i] {
        return false;
    }
    if visiting[i] {
        proof {
            let walk = path@.push(i as int);
            assert(path@.contains(i as int));
            let t = choose|t: int| 0 <= t < path@.len() && path@[t] == i as int;
            let ring = walk.skip(t);
            assert forall|s: int| 0 <= s < ring.len() - 1 implies edge(
                nodes@,
                ring[s],
                #[trigger] ring[s + 1],
            ) by {
                assert(edge(nodes@, walk[t + s], walk[t + s + 1]));
            }
            assert(chain(nodes@, ring));
            assert(ring.len() >= 2 && ring[0] == ring.last());
        }
        return true;
    }
    visiting.set(i, true);
    let ghost longer = path@.push(i as int);
    proof {
        assert(!path@.contains(i as int));
        assert forall|k: int| 0 <= k < nodes@.len() implies (#[trigger] visiting@[k]
            <==> longer.contains(k)) by {
            if path@.contains(k) {
                let t = choose|t: int| 0 <= t < path@.len() && path@[t] == k;
                assert(longer[t] == k);
            }
            if k == i {
                assert(longer[path@.len() as int] == k);
            }
            if longer.contains(k) && k != i {
                let t = choose|t: int| 0 <= t < longer.len() && longer[t] == k;
                assert(path@[t] == k);
            }
        }
        distinct_positions_fit(longer, nodes@.len() as int);
    }
    let deps = &nodes[i].depends_on;
    let mut d: usize = 0;
    while d < deps.len()
        invariant
            d <= deps.len(),
            i < nodes@.len(),
            deps == &nodes@[i as int].depends_on,
            distinct_ids(nodes@),
            forall|k: int| 0 <= k < nodes@.len() ==> !#[trigger] dangles(nodes@, k),
            longer == path@.push(i as int),
            longer.len() <= nodes@.len(),
            chain(nodes@, longer),
            walk_state(nodes@, visiting@, visited@, longer, order@),
            forall|k: int|
                0 <= k < nodes@.len() && old(visited)@[k] ==> #[trigger] visited@[k],
            forall|k: int, j: int|
                0 <= k < d && 0 <= j < nodes@.len() && (#[trigger] nodes@[j]).id@ == (
                #[trigger] nodes@[i as int].depends_on@[k])@ ==> visited@[j],
        decreases deps.len() - d,
    {
        match index_of(nodes, deps[d].as_str()) {
            Some(j) => {
                proof {
                    assert(nodes@[i as int].depends_on@[d as int]@ == nodes@[j as int].id@);
                    assert(edge(nodes@, i as int, j as int));
                    let next = longer.push(j as int);
                    assert forall|s: int| 0 <= s < next.len() - 1 implies edge(
                        nodes@,
                        next[s],
                        #[trigger] next[s + 1],
                    ) by {
                        if s < longer.len() - 1 {
                            assert(edge(nodes@, longer[s], longer[s + 1]));
                        }
                    }
                }
                let ghost before = visited@;
                if visit(nodes, j, visiting, visited, Ghost(longer), order) {
                    return true;
                }
                proof {
                    assert forall|k: int, q: int|
                        0 <= k < d + 1 && 0 <= q < nodes@.len() && (#[trigger] nodes@[q]).id@ == (
                        #[trigger] nodes@[i as int].depends_on@[k])@ implies visited@[q] by {
                        if k == d {
                            if q < j {
                                assert(nodes@[q].id@ != nodes@[j as int].id@);
                            } else if j < q {
                                assert(nodes@[j as int].id@ != nodes@[q].id@);
                            }
                        } else {
                            assert(before[q]);
                        }
                    }
                }
            },
            None => {
                proof {
                    assert(dangles(nodes@, i as int));
                }
            },
        }
        d = d + 1;
    }
    let ghost held = visiting@;
    visiting.set(i, false);
    visited.set(i, true);
    proof {
        assert forall|j: int| #[trigger] edge(nodes@, i as int, j) implies order@.contains(j) by {
            let k = choose|k: int|
                0 <= k < nodes@[i as int].depends_on@.len() && (
                #[trigger] nodes@[i as int].depends_on@[k])@ == nodes@[j].id@;
            assert(nodes@[j].id@ == nodes@[i as int].depends_on@[k]@);
        }
        longer_order(nodes@, order@, i as int);
        let done = order@.push(i as int);
        assert forall|k: int| 0 <= k < nodes@.len() implies (#[trigger] visited@[k]
            <==> done.contains(k)) by {
            if order@.contains(k) {
                let t = choose|t: int| 0 <= t < order@.len() && order@[t] == k;
                assert(done[t] == k);
            }
            if k == i {
                assert(done[order@.len() as int] == k);
            }
            if done.contains(k) && k != i {
                let t = choose|t: int| 0 <= t < done.len() && done[t] == k;
                assert(order@[t] == k);
            }
        }
        assert forall|k: int| 0 <= k < nodes@.len() implies (#[trigger] visiting@[k]
            <==> path@.contains(k)) by {
            if k != i {
                assert(held[k] <==> longer.contains(k));
                if path@.contains(k) {
                    let t = choose|t: int| 0 <= t < path@.len() && path@[t] == k;
                    assert(longer[t] == k);
                }
                if longer.contains(k) {
                    let t = choose|t: int| 0 <= t < longer.len() && longer[t] == k;
                    assert(path@[t] == k);
                }
            }
        }
        *order = Ghost(done);
    }
    false
}

/// Refuses a graph in which some task waits for itself.
pub fn reject_cycles(nodes: &Vec<TaskNodeV1>) -> (r: Result<(), CliFailure>)
    requires
        distinct_ids(nodes@),
        forall|k: int| 0 <= k < nodes@.len() ==> !#[trigger] dangles(nodes@, k),
    ensures
        if cyclic(nodes@) {
            fails(r, 1, "disposition task graph must be acyclic"@)
        } else {
            r is Ok
        },
{
    let n: usize = nodes.len();
    let mut visiting: Vec<bool> = Vec::new();
    let mut visited: Vec<bool> = Vec::new();
    let mut k: usize = 0;
    while k < n
        invariant
            k <= n,
            visiting@.len() == k,
            visited@.len() == k,
            forall|j: int| 0 <= j < k ==> !#[trigger] visiting@[j],
            forall|j: int| 0 <= j < k ==> !#[trigger] visited@[j],
        decreases n - k,
    {
        visiting.push(false);
        visited.push(false);
        k = k + 1;
    }
    let mut order: Ghost<Seq<int>> = Ghost(Seq::empty());
    let ghost none: Seq<int> = Seq::empty();
    let mut i: usize = 0;
    while i < nodes.len()
        invariant
            i <= nodes.len(),
            distinct_ids(nodes@),
            forall|k: int| 0 <= k < nodes@.len() ==> !#[trigger] dangles(nodes@, k),
            none == Seq::<int>::empty(),
            walk_state(nodes@, visiting@, visited@, none, order@),
            forall|k: int| 0 <= k < i ==> #[trigger] visited@[k],
        decreases nodes.len() - i,
    {
        let ghost before = visited@;
        if visit(nodes, i, &mut visiting, &mut visited, Ghost(none), &mut order) {
            return Err(CliFailure::new(1, "disposition task graph must be acyclic"));
        }
        proof {
            assert forall|k: int| 0 <= k < i + 1 implies #[trigger] visited@[k] by {
                if k < i {
                    assert(before[k]);
                }
            }
        }
        i = i + 1;
    }
    proof {
        assert forall|k: int| 0 <= k < nodes@.len() implies #[trigger] order@.contains(k) by {
            assert(visited@[k]);
        }
        ordered_is_acyclic(nodes@, order@);
    }
    Ok(())
}

/// Whether a task keeps the graph from being evaluated.
pub open spec fn offends(nodes: Seq<TaskNodeV1>, handoff: Seq<char>, i: int) -> bool {
    retains(nodes, handoff, i) || dangles(nodes, i)
}

/// Whether a position is that of the offending task with the least identity.
pub open spec fn least_offender(nodes: Seq<TaskNodeV1>, handoff: Seq<char>, i: int) -> bool {
    least(nodes, |k: int| offends(nodes, handoff, k), i)
}

/// Whether a position is that of the task with the least identity among those
/// called blocked for no reason.
pub open spec fn least_unjustified(nodes: Seq<TaskNodeV1>, handoff: Seq<char>, i: int) -> bool {
    least(nodes, |k: int| unjustified(nodes, handoff, k), i)
}

/// The position with the least identity among those flagged.
fn least_flagged(nodes: &Vec<TaskNodeV1>, flags: &Vec<bool>) -> (r: Option<usize>)
    requires
        flags@.len() == nodes@.len(),
    ensures
        match r {
            Some(i) => least(nodes@, |k: int| flags@[k], i as int),
            None => forall|k: int| 0 <= k < nodes@.len() ==> !#[trigger] flags@[k],
        },
{
    let mut best: Option<usize> = None;
    let mut i: usize = 0;
    while i < nodes.len()
        invariant
            i <= nodes.len(),
            flags@.len() == nodes@.len(),
            match best {
                Some(b) => b < i && flags@[b as int] && forall|k: int|
                    0 <= k < i && #[trigger] flags@[k] ==> !text_lt(
                        nodes@[k].id@,
                        nodes@[b as int].id@,
                    ),
                None => forall|k: int| 0 <= k < i ==> !#[trigger] flags@[k],
            },
        decreases nodes.len() - i,
    {
        if flags[i] {
            let ghost before = best;
            best = match best {
                Some(b) => if str_lt(nodes[i].id.as_str(), nodes[b].id.as_str()) {
                    Some(i)
                } else {
                    Some(b)
                },
                None => Some(i),
            };
            proof {
                text_lt_irreflexive(nodes@[i as int].id@);
                if let Some(b) = before {
                    let low = nodes@[b as int].id@;
                    let new = nodes@[i as int].id@;
                    if text_lt(new, low) {
                        assert forall|k: int| 0 <= k < i + 1 && #[trigger] flags@[k] implies !text_lt(
                            nodes@[k].id@,
                            new,
                        ) by {
                            if k < i && text_lt(nodes@[k].id@, new) {
                                text_lt_transitive(nodes@[k].id@, new, low);
                            }
                        }
                    }
                }
            }
        }
        i = i + 1;
    }
    best
}

/// Why a graph does not prove that the agent may pause, or what it proves.
///
/// The identity and bounds come first, then the canonical form, then the
/// handed-off task, then the dependencies, in the order of the identities. A
/// graph without cycles is refused where a task is called blocked for no reason
/// and where a task can be worked on.
pub open spec fn pause_evaluation(
    graph: TaskGraphV1,
    workstream_id: Seq<char>,
    canonical: Seq<u8>,
    r: Result<StoredDispositionProofV1, CliFailure>,
) -> bool {
    let nodes = graph.nodes@;
    let handoff = graph.handoff_task_id@;
    if !graph_identity_valid(graph, workstream_id) {
        fails(r, 1, "disposition task graph identity, revision, or bounds are invalid"@)
    } else if !canonical_nodes(nodes) {
        fails(
            r,
            1,
            "disposition task graph node IDs and dependencies must be unique canonical tokens"@,
        )
    } else if !has_task(nodes, handoff) {
        fails(r, 1, "disposition task graph omits its handoff task"@)
    } else if exists|i: int|
        0 <= i < nodes.len() && (#[trigger] nodes[i]).id@ == handoff && nodes[i].state
            != TaskStateV1::HandedOff {
        fails(r, 1, "disposition handoff task must have state handed_off"@)
    } else if exists|i: int| 0 <= i < nodes.len() && #[trigger] offends(nodes, handoff, i) {
        exists|i: int| #[trigger]
            least_offender(nodes, handoff, i) && fails(
                r,
                1,
                if retains(nodes, handoff, i) {
                    "the handed-off task cannot retain unresolved local dependencies"@
                } else {
                    "disposition task graph contains a missing or self dependency"@
                },
            )
    } else if cyclic(nodes) {
        fails(r, 1, "disposition task graph must be acyclic"@)
    } else if exists|i: int| 0 <= i < nodes.len() && #[trigger] unjustified(nodes, handoff, i) {
        exists|i: int| #[trigger]
            least_unjustified(nodes, handoff, i) && fails(
                r,
                1,
                "blocked task "@ + nodes[i].id@ + " lacks an incomplete dependency"@,
            )
    } else if exists|i: int| 0 <= i < nodes.len() && #[trigger] runnable(nodes, handoff, i) {
        exists|ids: Seq<Seq<char>>| #[trigger]
            lists_runnable(nodes, handoff, ids) && fails(
                r,
                1,
                "pause refused: independent runnable task nodes remain: "@ + separated(
                    first_eight(ids),
                    ","@,
                ),
            )
    } else {
        &&& r matches Ok(proof)
        &&& proof.schema_version == 1
        &&& proof.workstream_id@ == workstream_id
        &&& proof.graph_revision == graph.revision
        &&& proof.handoff_task_id@ == handoff
        &&& proof.graph_digest@ == sha256_hex(canonical)
        &&& is_digest(proof.graph_digest@)
        &&& proof.blocked_nodes == waiting_count(nodes, handoff)
        &&& proof.integrity_hash@ == sha256_hex(encode_utf8(sealed_text(proof)))
    }
}

/// The number of tasks, among the first ones, that wait.
pub open spec fn waiting_among(nodes: Seq<TaskNodeV1>, handoff: Seq<char>, n: int) -> nat
    decreases n,
{
    if n <= 0 {
        0
    } else if waiting(nodes, handoff, n - 1) {
        waiting_among(nodes, handoff, n - 1) + 1
    } else {
        waiting_among(nodes, handoff, n - 1)
    }
}

/// The number of tasks that wait.
pub open spec fn waiting_count(nodes: Seq<TaskNodeV1>, handoff: Seq<char>) -> nat {
    waiting_among(nodes, handoff, nodes.len() as int)
}

/// The refusal of the least offending task, if a task offends.
fn refuse_offender(nodes: &Vec<TaskNodeV1>, handoff: &str) -> (r: Option<CliFailure>)
    ensures
        match r {
            Some(failure) => exists|i: int| #[trigger]
                least_offender(nodes@, handoff@, i) && failure.says(
                    1,
                    if retains(nodes@, handoff@, i) {
                        "the handed-off task cannot retain unresolved local dependencies"@
                    } else {
                        "disposition task graph contains a missing or self dependency"@
                    },
                ),
            None => forall|i: int|
                0 <= i < nodes@.len() ==> !#[trigger] offends(nodes@, handoff@, i),
        },
{
    let mut flags: Vec<bool> = Vec::new();
    let mut i: usize = 0;
    while i < nodes.len()
        invariant
            i <= nodes.len(),
            flags@.len() == i,
            forall|k: int| 0 <= k < i ==> #[trigger] flags@[k] == offends(nodes@, handoff@, k),
        decreases nodes.len() - i,
    {
        let retained = str_eq(nodes[i].id.as_str(), handoff) && nodes[i].depends_on.len() > 0;
        let dangling = node_dangles(nodes, i);
        flags.push(retained || dangling);
        i = i + 1;
    }
    match least_flagged(nodes, &flags) {
        Some(b) => {
            proof {
                let p = |k: int| offends(nodes@, handoff@, k);
                assert(offends(nodes@, handoff@, b as int));
                assert forall|j: int| 0 <= j < nodes@.len() && #[trigger] p(j) implies !text_lt(
                    nodes@[j].id@,
                    nodes@[b as int].id@,
                ) by {
                    let q = |k: int| flags@[k];
                    assert(flags@[j]);
                    assert(q(j));
                }
                assert(least_offender(nodes@, handoff@, b as int));
            }
            if str_eq(nodes[b].id.as_str(), handoff) && nodes[b].depends_on.len() > 0 {
                Some(
                    CliFailure::new(
                        1,
                        "the handed-off task cannot retain unresolved local dependencies",
                    ),
                )
            } else {
                Some(
                    CliFailure::new(
                        1,
                        "disposition task graph contains a missing or self dependency",
                    ),
                )
            }
        },
        None => {
            proof {
                assert forall|k: int| 0 <= k < nodes@.len() implies !#[trigger] offends(
                    nodes@,
                    handoff@,
                    k,
                ) by {
                    assert(!flags@[k]);
                }
            }
            None
        },
    }
}

/// The refusal of the least task that is called blocked for no reason.
fn refuse_unjustified(nodes: &Vec<TaskNodeV1>, handoff: &str) -> (r: Option<CliFailure>)
    requires
        distinct_ids(nodes@),
    ensures
        match r {
            Some(failure) => exists|i: int| #[trigger]
                least_unjustified(nodes@, handoff@, i) && failure.says(
                    1,
                    "blocked task "@ + nodes@[i].id@ + " lacks an incomplete dependency"@,
                ),
            None => forall|i: int|
                0 <= i < nodes@.len() ==> !#[trigger] unjustified(nodes@, handoff@, i),
        },
{
    let mut flags: Vec<bool> = Vec::new();
    let mut i: usize = 0;
    while i < nodes.len()
        invariant
            i <= nodes.len(),
            distinct_ids(nodes@),
            flags@.len() == i,
            forall|k: int| 0 <= k < i ==> #[trigger] flags@[k] == unjustified(nodes@, handoff@, k),
        decreases nodes.len() - i,
    {
        let other = !str_eq(nodes[i].id.as_str(), handoff);
        let blocked = nodes[i].state == TaskStateV1::Blocked;
        let free = nodes[i].depends_on.len() == 0 || is_satisfied(nodes, i);
        flags.push(other && blocked && free);
        i = i + 1;
    }
    match least_flagged(nodes, &flags) {
        Some(b) => {
            proof {
                let p = |k: int| unjustified(nodes@, handoff@, k);
                assert forall|j: int| 0 <= j < nodes@.len() && #[trigger] p(j) implies !text_lt(
                    nodes@[j].id@,
                    nodes@[b as int].id@,
                ) by {
                    let q = |k: int| flags@[k];
                    assert(flags@[j]);
                    assert(q(j));
                }
                assert(least_unjustified(nodes@, handoff@, b as int));
            }
            let text = concat3(
                "blocked task ",
                nodes[b].id.as_str(),
                " lacks an incomplete dependency",
            );
            Some(CliFailure::new(1, text.as_str()))
        },
        None => {
            proof {
                assert forall|k: int| 0 <= k < nodes@.len() implies !#[trigger] unjustified(
                    nodes@,
                    handoff@,
                    k,
                ) by {
                    assert(!flags@[k]);
                }
            }
            None
        },
    }
}

/// The identities of the tasks that can be worked on, in increasing order.
fn runnable_ids(nodes: &Vec<TaskNodeV1>, handoff: &str) -> (r: Vec<String>)
    requires
        distinct_ids(nodes@),
    ensures
        lists_runnable(nodes@, handoff@, views(r@)),
        (views(r@).len() == 0) <==> forall|i: int|
            0 <= i < nodes@.len() ==> !#[trigger] runnable(nodes@, handoff@, i),
{
    let mut set: TextMap<()> = TextMap::new();
    let mut i: usize = 0;
    while i < nodes.len()
        invariant
            i <= nodes.len(),
            distinct_ids(nodes@),
            forall|id: Seq<char>| #[trigger]
                set@.dom().contains(id) <==> exists|k: int|
                    0 <= k < i && runnable(nodes@, handoff@, k) && (#[trigger] nodes@[k]).id@ == id,
        decreases nodes.len() - i,
    {
        let ghost before = set@;
        let other = !str_eq(nodes[i].id.as_str(), handoff);
        let ready = nodes[i].state == TaskStateV1::Running || (nodes[i].state
            == TaskStateV1::Pending && is_satisfied(nodes, i));
        if other && ready {
            set.insert(nodes[i].id.clone(), ());
        }
        proof {
            assert forall|id: Seq<char>| #[trigger]
                set@.dom().contains(id) <==> exists|k: int|
                    0 <= k < i + 1 && runnable(nodes@, handoff@, k) && (#[trigger] nodes@[k]).id@
                        == id by {
                if before.dom().contains(id) {
                    let k = choose|k: int|
                        0 <= k < i && runnable(nodes@, handoff@, k) && (#[trigger] nodes@[k]).id@
                            == id;
                    assert(nodes@[k].id@ == id);
                }
                if other && ready && nodes@[i as int].id@ == id {
                    assert(runnable(nodes@, handoff@, i as int));
                }
            }
        }
        i = i + 1;
    }
    let mut out: Vec<String> = Vec::new();
    let n: usize = set.len();
    let ghost keys = set.keys();
    let mut k: usize = 0;
    while k < n
        invariant
            k <= n,
            n == keys.len(),
            keys == set.keys(),
            out@.len() == k,
            forall|q: int| 0 <= q < k ==> (#[trigger] out@[q])@ == keys[q],
        decreases n - k,
    {
        out.push(set.key_at(k).clone());
        k = k + 1;
    }
    proof {
        assert(views(out@) =~= keys);
        set.lemma_keys();
        assert forall|id: Seq<char>| #[trigger] keys.contains(id) <==> exists|i: int|
            0 <= i < nodes@.len() && runnable(nodes@, handoff@, i) && (#[trigger] nodes@[i]).id@
                == id by {
            assert(keys.contains(id) <==> set@.dom().contains(id));
        }
        if keys.len() == 0 {
            assert forall|i: int| 0 <= i < nodes@.len() implies !#[trigger] runnable(
                nodes@,
                handoff@,
                i,
            ) by {
                if runnable(nodes@, handoff@, i) {
                    assert(nodes@[i].id@ == nodes@[i].id@);
                    assert(set@.dom().contains(nodes@[i].id@));
                    assert(keys.contains(nodes@[i].id@));
                }
            }
        } else {
            assert(keys.contains(keys[0]));
            let i = choose|i: int|
                0 <= i < nodes@.len() && runnable(nodes@, handoff@, i) && (
                #[trigger] nodes@[i]).id@ == keys[0];
            assert(runnable(nodes@, handoff@, i));
        }
    }
    out
}

/// The number of tasks that wait.
fn count_waiting(nodes: &Vec<TaskNodeV1>, handoff: &str) -> (r: u64)
    requires
        distinct_ids(nodes@),
        nodes@.len() <= MAX_TASK_NODES,
    ensures
        r == waiting_count(nodes@, handoff@),
{
    let mut total: u64 = 0;
    let mut i: usize = 0;
    while i < nodes.len()
        invariant
            i <= nodes.len() <= MAX_TASK_NODES,
            distinct_ids(nodes@),
            total <= i,
            total == waiting_among(nodes@, handoff@, i as int),
        decreases nodes.len() - i,
    {
        let other = !str_eq(nodes[i].id.as_str(), handoff);
        let done = is_satisfied(nodes, i);
        let waits = match nodes[i].state {
            TaskStateV1::Pending => !done,
            TaskStateV1::HandedOff => true,
            TaskStateV1::Blocked => nodes[i].depends_on.len() > 0 && !done,
            _ => false,
        };
        if other && waits {
            total = total + 1;
        }
        i = i + 1;
    }
    total
}

/// Evaluates a task graph: the agent may pause only where nothing in it can be
/// worked on. `canonical` is the graph in its canonical serialised form, whose
/// digest binds the proof.
pub fn evaluate_pause_graph(graph: TaskGraphV1, workstream_id: &str, canonical: &Vec<u8>) -> (r:
    Result<StoredDispositionProofV1, CliFailure>)
    ensures
        pause_evaluation(graph, workstream_id@, canonical@, r),
{
    if graph.schema_version != 1 || !str_eq(graph.workstream_id.as_str(), workstream_id)
        || graph.revision == 0 || !valid_id(graph.handoff_task_id.as_str()) || graph.nodes.len()
        == 0 || graph.nodes.len() > MAX_TASK_NODES {
        return Err(
            CliFailure::new(1, "disposition task graph identity, revision, or bounds are invalid"),
        );
    }
    let handoff = graph.handoff_task_id.as_str();
    let nodes = &graph.nodes;
    if !are_canonical_nodes(nodes) {
        return Err(
            CliFailure::new(
                1,
                "disposition task graph node IDs and dependencies must be unique canonical tokens",
            ),
        );
    }
    let at: usize = match index_of(nodes, handoff) {
        Some(at) => at,
        None => {
            return Err(CliFailure::new(1, "disposition task graph omits its handoff task"));
        },
    };
    proof {
        assert(has_task(nodes@, handoff@));
        assert forall|i: int| 0 <= i < nodes@.len() && (#[trigger] nodes@[i]).id@ == handoff@ implies i
            == at by {
            if i < at {
                assert(nodes@[i].id@ != nodes@[at as int].id@);
            } else if at < i {
                assert(nodes@[at as int].id@ != nodes@[i].id@);
            }
        }
    }
    if nodes[at].state != TaskStateV1::HandedOff {
        return Err(CliFailure::new(1, "disposition handoff task must have state handed_off"));
    }
    if let Some(failure) = refuse_offender(nodes, handoff) {
        proof {
            let i = choose|i: int| #[trigger]
                least_offender(nodes@, handoff@, i) && failure.says(
                    1,
                    if retains(nodes@, handoff@, i) {
                        "the handed-off task cannot retain unresolved local dependencies"@
                    } else {
                        "disposition task graph contains a missing or self dependency"@
                    },
                );
            assert(offends(nodes@, handoff@, i));
        }
        return Err(failure);
    }
    proof {
        assert forall|k: int| 0 <= k < nodes@.len() implies !#[trigger] dangles(nodes@, k) by {
            assert(!offends(nodes@, handoff@, k));
        }
    }
    match reject_cycles(nodes) {
        Ok(_) => {},
        Err(failure) => return Err(failure),
    }
    if let Some(failure) = refuse_unjustified(nodes, handoff) {
        proof {
            let i = choose|i: int| #[trigger]
                least_unjustified(nodes@, handoff@, i) && failure.says(
                    1,
                    "blocked task "@ + nodes@[i].id@ + " lacks an incomplete dependency"@,
                );
            assert(unjustified(nodes@, handoff@, i));
        }
        return Err(failure);
    }
    let mut ids = runnable_ids(nodes, handoff);
    let ghost all = views(ids@);
    if ids.len() > 0 {
        proof {
            assert(lists_runnable(nodes@, handoff@, all));
        }
        ids.truncate(8);
        proof {
            assert(views(ids@) =~= first_eight(all));
        }
        let text = concat(
            "pause refused: independent runnable task nodes remain: ",
            join(&ids, ",").as_str(),
        );
        return Err(CliFailure::new(1, text.as_str()));
    }
    let blocked_nodes: u64 = count_waiting(nodes, handoff);
    let mut proof_record = StoredDispositionProofV1 {
        schema_version: 1,
        workstream_id: graph.workstream_id,
        graph_revision: graph.revision,
        handoff_task_id: graph.handoff_task_id,
        graph_digest: hex_digest(canonical),
        blocked_nodes,
        integrity_hash: String::new(),
    };
    let seal = proof_integrity(&proof_record);
    proof_record.integrity_hash = seal;
    Ok(proof_record)
}

/// A proof that an evaluation gave holds for the workstream it was asked about.
pub proof fn evaluated_proof_holds(
    graph: TaskGraphV1,
    workstream_id: Seq<char>,
    canonical: Seq<u8>,
    proof_record: StoredDispositionProofV1,
)
    requires
        pause_evaluation(
            graph,
            workstream_id,
            canonical,
            Ok::<StoredDispositionProofV1, CliFailure>(proof_record),
        ),
    ensures
        proof_record.holds_for(workstream_id),
{
}

/// An evaluation that succeeds leaves no task that can be worked on.
pub proof fn pausing_leaves_nothing_runnable(
    graph: TaskGraphV1,
    workstream_id: Seq<char>,
    canonical: Seq<u8>,
    r: Result<StoredDispositionProofV1, CliFailure>,
    i: int,
)
    requires
        pause_evaluation(graph, workstream_id, canonical, r),
        r is Ok,
        0 <= i < graph.nodes@.len(),
    ensures
        !runnable(graph.nodes@, graph.handoff_task_id@, i),
        !cyclic(graph.nodes@),
{
}

/// Whether a task graph's file may be read: a regular file of bounded size.
pub fn load_pause_proof(is_symlink: bool, is_file: bool, length: u64) -> (r: Result<(), CliFailure>)
    ensures
        if is_symlink || !is_file || length > MAX_TASK_GRAPH_BYTES {
            fails(
                r,
                1,
                "disposition task graph must be a bounded regular file, not a symlink"@,
            )
        } else {
            r is Ok
        },
        r is Ok <==> !is_symlink && is_file && length <= 256 * 1024,
{
    if is_symlink || !is_file || length > MAX_TASK_GRAPH_BYTES {
        return Err(
            CliFailure::new(
                1,
                "disposition task graph must be a bounded regular file, not a symlink",
            ),
        );
    }
    Ok(())
}

/// Every task but the handed-off one is exactly one of these: over, runnable, blocked
/// without a reason, or waiting for another.
pub proof fn every_task_is_of_one_kind(nodes: Seq<TaskNodeV1>, handoff: Seq<char>, i: int)
    requires
        0 <= i < nodes.len(),
        nodes[i].id@ != handoff,
    ensures
        ({
            let done = nodes[i].state == TaskStateV1::Complete || nodes[i].state
                == TaskStateV1::Canceled;
            &&& done || runnable(nodes, handoff, i) || unjustified(nodes, handoff, i) || waiting(
                nodes,
                handoff,
                i,
            )
            &&& done ==> !runnable(nodes, handoff, i) && !unjustified(nodes, handoff, i) && !waiting(
                nodes,
                handoff,
                i,
            )
            &&& !(runnable(nodes, handoff, i) && unjustified(nodes, handoff, i))
            &&& !(runnable(nodes, handoff, i) && waiting(nodes, handoff, i))
            &&& !(unjustified(nodes, handoff, i) && waiting(nodes, handoff, i))
        }),
{
}

/// A running task is runnable, and so is a pending one all of whose dependencies are
/// complete or cancelled; one with a dependency that is neither is not. A blocked task
/// needs such a dependency.
pub proof fn dependencies_decide(
    nodes: Seq<TaskNodeV1>,
    handoff: Seq<char>,
    i: int,
    d: int,
    j: int,
)
    requires
        distinct_ids(nodes),
        0 <= i < nodes.len(),
        nodes[i].id@ != handoff,
    ensures
        nodes[i].state == TaskStateV1::Running ==> runnable(nodes, handoff, i),
        nodes[i].depends_on@.len() == 0 && nodes[i].state == TaskStateV1::Pending ==> runnable(
            nodes,
            handoff,
            i,
        ),
        nodes[i].depends_on@.len() == 0 && nodes[i].state == TaskStateV1::Blocked ==> unjustified(
            nodes,
            handoff,
            i,
        ),
        0 <= d < nodes[i].depends_on@.len() && 0 <= j < nodes.len() && nodes[j].id@
            == nodes[i].depends_on@[d]@ && nodes[j].state != TaskStateV1::Complete && nodes[j].state
            != TaskStateV1::Canceled ==> {
            &&& !satisfied(nodes, i)
            &&& nodes[i].state == TaskStateV1::Pending ==> !runnable(nodes, handoff, i)
            &&& nodes[i].state == TaskStateV1::Blocked ==> !unjustified(nodes, handoff, i)
        },
{
    if 0 <= d < nodes[i].depends_on@.len() && 0 <= j < nodes.len() && nodes[j].id@
        == nodes[i].depends_on@[d]@ && nodes[j].state != TaskStateV1::Complete && nodes[j].state
        != TaskStateV1::Canceled {
        let id = nodes[i].depends_on@[d]@;
        if is_over(nodes, id) {
            let k = choose|k: int|
                0 <= k < nodes.len() && (#[trigger] nodes[k]).id@ == id && (nodes[k].state
                    == TaskStateV1::Complete || nodes[k].state == TaskStateV1::Canceled);
            if k < j {
                assert(nodes[k].id@ != nodes[j].id@);
            } else if j < k {
                assert(nodes[j].id@ != nodes[k].id@);
            }
        }
    }
}

/// A pause is granted exactly for a valid graph that is acyclic and whole, whose handed-off
/// task is handed off and free of dependencies, and in which no task is runnable or
/// blocked without a reason.
pub proof fn a_pause_is_granted_where_nothing_can_run(
    graph: TaskGraphV1,
    workstream_id: Seq<char>,
    canonical: Seq<u8>,
    r: Result<StoredDispositionProofV1, CliFailure>,
)
    requires
        pause_evaluation(graph, workstream_id, canonical, r),
    ensures
        ({
            let nodes = graph.nodes@;
            let handoff = graph.handoff_task_id@;
            &&& r is Ok <==> {
                &&& graph_identity_valid(graph, workstream_id)
                &&& canonical_nodes(nodes)
                &&& has_task(nodes, handoff)
                &&& forall|i: int|
                    0 <= i < nodes.len() && (#[trigger] nodes[i]).id@ == handoff ==> nodes[i].state
                        == TaskStateV1::HandedOff && nodes[i].depends_on@.len() == 0
                &&& forall|i: int| 0 <= i < nodes.len() ==> !#[trigger] dangles(nodes, i)
                &&& !cyclic(nodes)
                &&& forall|i: int|
                    0 <= i < nodes.len() ==> !#[trigger] unjustified(nodes, handoff, i)
                &&& forall|i: int| 0 <= i < nodes.len() ==> !#[trigger] runnable(nodes, handoff, i)
            }
            &&& r matches Ok(granted) ==> granted.graph_revision == graph.revision
                && granted.handoff_task_id@ == handoff && granted.workstream_id@ == workstream_id
            &&& r matches Err(failure) ==> failure.code == 1
        }),
{
    let nodes = graph.nodes@;
    let handoff = graph.handoff_task_id@;
    assert forall|i: int| 0 <= i < nodes.len() implies (#[trigger] offends(nodes, handoff, i) <==> (
    nodes[i].id@ == handoff && nodes[i].depends_on@.len() > 0) || dangles(nodes, i)) by {}
    if forall|i: int| 0 <= i < nodes.len() ==> !#[trigger] offends(nodes, handoff, i) {
        assert forall|i: int| 0 <= i < nodes.len() implies !#[trigger] dangles(nodes, i) by {
            assert(!offends(nodes, handoff, i));
        }
        assert forall|i: int|
            0 <= i < nodes.len() && (#[trigger] nodes[i]).id@
                == handoff implies nodes[i].depends_on@.len() == 0 by {
            assert(!offends(nodes, handoff, i));
        }
    } else {
        let i = choose|i: int| 0 <= i < nodes.len() && #[trigger] offends(nodes, handoff, i);
        assert(nodes[i].id@ == handoff && nodes[i].depends_on@.len() > 0 || dangles(nodes, i));
    }
}

/// The tasks that wait are counted: a graph with one more of them counts one more.
pub proof fn each_waiting_task_counts_once(nodes: Seq<TaskNodeV1>, handoff: Seq<char>, n: int)
    requires
        0 <= n,
    ensures
        waiting_among(nodes, handoff, 0) == 0,
        waiting_among(nodes, handoff, n + 1) == waiting_among(nodes, handoff, n) + (if waiting(
            nodes,
            handoff,
            n,
        ) {
            1int
        } else {
            0int
        }),
        waiting_among(nodes, handoff, n) <= n,
    decreases n,
{
    if n > 0 {
        each_waiting_task_counts_once(nodes, handoff, n - 1);
    }
}

} // verus!
