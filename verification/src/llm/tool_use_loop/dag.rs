//! DAG planning: dependency validation (missing dependencies, cycles) and
//! level assignment for parallel execution.
use vstd::prelude::*;
use crate::text::{concat2, owned};

verus! {

/// A node of the task graph.
pub struct DagNode {
    /// Node id.
    pub id: String,
    /// Task description.
    pub task: String,
    /// Ids of the nodes this node depends on.
    pub dependencies: Vec<String>,
}

/// Outcome of running a DAG: per-node results and their counts.
pub struct DagResult {
    success_count: usize,
    failure_count: usize,
    details: Vec<(String, bool, String)>,
}

/// Number of entries in `s` whose outcome flag equals `b`.
pub open spec fn count_outcome(s: Seq<(Seq<char>, bool, Seq<char>)>, b: bool) -> nat
    decreases s.len(),
{
    if s.len() == 0 {
        0
    } else {
        count_outcome(s.drop_last(), b) + (if s.last().1 == b { 1nat } else { 0nat })
    }
}

impl DagResult {
    /// The recorded results, in recording order: (node id, success, message).
    pub closed spec fn records(&self) -> Seq<(Seq<char>, bool, Seq<char>)> {
        self.details@.map_values(|e: (String, bool, String)| (e.0@, e.1, e.2@))
    }

    /// The counters agree with the recorded results.
    pub closed spec fn wf(&self) -> bool {
        &&& self.success_count as nat == count_outcome(self.records(), true)
        &&& self.failure_count as nat == count_outcome(self.records(), false)
    }

    pub fn new() -> (r: DagResult)
        ensures
            r.wf(),
            r.records() == Seq::<(Seq<char>, bool, Seq<char>)>::empty(),
    {
        let r = DagResult { success_count: 0, failure_count: 0, details: Vec::new() };
        assert(r.records() =~= Seq::<(Seq<char>, bool, Seq<char>)>::empty());
        r
    }

    /// Records the outcome of one node.
    pub fn record(&mut self, id: &str, success: bool, message: &str)
        requires
            old(self).wf(),
            old(self).records().len() < usize::MAX,
        ensures
            final(self).wf(),
            final(self).records() == old(self).records().push((id@, success, message@)),
    {
        proof {
            lemma_count_outcome_bound(self.records(), true);
            lemma_count_outcome_bound(self.records(), false);
        }
        if success {
            self.success_count = self.success_count + 1;
        } else {
            self.failure_count = self.failure_count + 1;
        }
        let ghost before = self.records();
        self.details.push((owned(id), success, owned(message)));
        assert(self.records() =~= before.push((id@, success, message@)));
        assert(self.records().drop_last() =~= before);
    }

    pub fn success_count(&self) -> (n: usize)
        requires
            self.wf(),
        ensures
            n as nat == count_outcome(self.records(), true),
    {
        self.success_count
    }

    pub fn failure_count(&self) -> (n: usize)
        requires
            self.wf(),
        ensures
            n as nat == count_outcome(self.records(), false),
    {
        self.failure_count
    }

    pub fn all_success(&self) -> (b: bool)
        requires
            self.wf(),
        ensures
            b == (count_outcome(self.records(), false) == 0),
    {
        self.failure_count == 0
    }
}

proof fn lemma_count_outcome_bound(s: Seq<(Seq<char>, bool, Seq<char>)>, b: bool)
    ensures
        count_outcome(s, b) <= s.len(),
    decreases s.len(),
{
    if s.len() > 0 {
        lemma_count_outcome_bound(s.drop_last(), b);
    }
}

/// The `k`-th dependency of node `i`.
pub open spec fn dep_of(nodes: Seq<DagNode>, i: int, k: int) -> Seq<char> {
    nodes[i].dependencies@[k]@
}

/// Some node has id `x`.
pub open spec fn has_id(nodes: Seq<DagNode>, x: Seq<char>) -> bool {
    exists|j: int| 0 <= j < nodes.len() && #[trigger] nodes[j].id@ == x
}

/// Dependency `k` of node `i` names no node.
pub open spec fn missing_dep(nodes: Seq<DagNode>, i: int, k: int) -> bool {
    &&& 0 <= i < nodes.len()
    &&& 0 <= k < nodes[i].dependencies@.len()
    &&& !has_id(nodes, dep_of(nodes, i, k))
}

/// Every dependency names an existing node.
pub open spec fn all_deps_exist(nodes: Seq<DagNode>) -> bool {
    forall|i: int, k: int| !#[trigger] missing_dep(nodes, i, k)
}

/// `(i, k)` is the first missing dependency in node order, then dependency order.
pub open spec fn first_missing(nodes: Seq<DagNode>, i: int, k: int) -> bool {
    &&& missing_dep(nodes, i, k)
    &&& forall|i2: int, k2: int|
        (i2 < i || (i2 == i && k2 < k)) ==> !#[trigger] missing_dep(nodes, i2, k2)
}

/// No two nodes share an id.
pub open spec fn ids_distinct(nodes: Seq<DagNode>) -> bool {
    forall|i: int, j: int| 0 <= i < j < nodes.len() ==> nodes[i].id@ != nodes[j].id@
}

/// A node with id `d` is listed in `ord` before position `p`.
pub open spec fn listed_before(nodes: Seq<DagNode>, ord: Seq<int>, p: int, d: Seq<char>) -> bool {
    exists|q: int| 0 <= q < p && #[trigger] nodes[ord[q]].id@ == d
}

/// `ord` lists every node, and each node's dependencies are listed before it.
pub open spec fn is_topological_order(nodes: Seq<DagNode>, ord: Seq<int>) -> bool {
    &&& forall|p: int| 0 <= p < ord.len() ==> 0 <= #[trigger] ord[p] < nodes.len()
    &&& forall|x: int| 0 <= x < nodes.len() ==> #[trigger] ord.contains(x)
    &&& forall|p: int, k: int|
        0 <= p < ord.len() && 0 <= k < nodes[ord[p]].dependencies@.len() ==> listed_before(
            nodes,
            ord,
            p,
            #[trigger] dep_of(nodes, ord[p], k),
        )
}

/// The dependency graph has no cycle: its nodes can be listed, each once, in topological
/// order.
pub open spec fn acyclic(nodes: Seq<DagNode>) -> bool {
    exists|ord: Seq<int>| is_topological_order(nodes, ord) && ord.no_duplicates()
}

/// The error for a dependency that names no node.
pub open spec fn missing_message(id: Seq<char>, dep: Seq<char>) -> Seq<char> {
    "节点 "@ + id + " 依赖的 "@ + dep + " 不存在"@
}

/// The error for a graph that cannot be ordered.
pub open spec fn cycle_message() -> Seq<char> {
    "DAG 检测到环，无法进行拓扑排序"@
}

/// Some node already taken out has id `d`.
pub open spec fn dep_done(nodes: Seq<DagNode>, removed: Seq<bool>, d: Seq<char>) -> bool {
    exists|j: int| 0 <= j < nodes.len() && removed[j] && #[trigger] nodes[j].id@ == d
}

/// Every dependency of node `i` has been taken out.
pub open spec fn deps_done(nodes: Seq<DagNode>, removed: Seq<bool>, i: int) -> bool {
    forall|k: int|
        0 <= k < nodes[i].dependencies@.len() ==> dep_done(
            nodes,
            removed,
            #[trigger] dep_of(nodes, i, k),
        )
}

/// Number of nodes not yet taken out.
pub open spec fn num_pending(r: Seq<bool>) -> nat
    decreases r.len(),
{
    if r.len() == 0 {
        0
    } else {
        num_pending(r.drop_last()) + (if r.last() { 0nat } else { 1nat })
    }
}

proof fn lemma_pending_take(r: Seq<bool>, i: int)
    requires
        0 <= i < r.len(),
        !r[i],
    ensures
        num_pending(r.update(i, true)) + 1 == num_pending(r),
    decreases r.len(),
{
    let u = r.update(i, true);
    if i == r.len() - 1 {
        assert(u.drop_last() =~= r.drop_last());
    } else {
        assert(u.drop_last() =~= r.drop_last().update(i, true));
        lemma_pending_take(r.drop_last(), i);
    }
}

proof fn lemma_pending_zero(r: Seq<bool>)
    requires
        num_pending(r) == 0,
    ensures
        forall|j: int| 0 <= j < r.len() ==> r[j],
    decreases r.len(),
{
    if r.len() > 0 {
        lemma_pending_zero(r.drop_last());
        assert forall|j: int| 0 <= j < r.len() implies r[j] by {
            if j < r.len() - 1 {
                assert(r.drop_last()[j] == r[j]);
            }
        }
    }
}

proof fn lemma_pending_all_false(r: Seq<bool>)
    requires
        forall|j: int| 0 <= j < r.len() ==> !r[j],
    ensures
        num_pending(r) == r.len(),
    decreases r.len(),
{
    if r.len() > 0 {
        lemma_pending_all_false(r.drop_last());
    }
}

/// When no pending node has all its dependencies taken out, no listing that starts
/// with a pending node at position `p` or earlier is a topological order.
proof fn lemma_stuck_has_no_order(
    nodes: Seq<DagNode>,
    removed: Seq<bool>,
    ord: Seq<int>,
    p: int,
)
    requires
        removed.len() == nodes.len(),
        forall|i: int| 0 <= i < nodes.len() && !removed[i] ==> !deps_done(nodes, removed, i),
        0 <= p < ord.len(),
        0 <= ord[p] < nodes.len(),
        !removed[ord[p]],
    ensures
        !is_topological_order(nodes, ord),
    decreases p,
{
    if exists|q: int| 0 <= q < p && !removed[ord[q]] && 0 <= ord[q] < nodes.len() {
        let q = choose|q: int| 0 <= q < p && !removed[ord[q]] && 0 <= ord[q] < nodes.len();
        lemma_stuck_has_no_order(nodes, removed, ord, q);
    } else if is_topological_order(nodes, ord) {
        let i = ord[p];
        assert(!deps_done(nodes, removed, i));
        let k = choose|k: int|
            0 <= k < nodes[i].dependencies@.len() && !dep_done(
                nodes,
                removed,
                #[trigger] dep_of(nodes, i, k),
            );
        let d = dep_of(nodes, i, k);
        assert(listed_before(nodes, ord, p, dep_of(nodes, ord[p], k)));
        let q = choose|q: int| 0 <= q < p && #[trigger] nodes[ord[q]].id@ == d;
        assert(0 <= ord[q] < nodes.len());
        assert(removed[ord[q]]);
        assert(dep_done(nodes, removed, d));
    }
}

/// Index of the last node with id `d` among the first `m` nodes.
pub open spec fn last_with_id(nodes: Seq<DagNode>, d: Seq<char>, m: int) -> Option<int>
    decreases m,
{
    if m <= 0 || m > nodes.len() {
        None
    } else if nodes[m - 1].id@ == d {
        Some(m - 1)
    } else {
        last_with_id(nodes, d, m - 1)
    }
}

/// Level of node `i` after `t` rounds: 0 before any round and for a node without
/// dependencies, else one more than the largest level of its dependencies after the
/// round before.
pub open spec fn level_after(nodes: Seq<DagNode>, i: int, t: nat) -> nat
    decreases t, 0int, 0int,
{
    if t == 0 || i < 0 || i >= nodes.len() {
        0
    } else if nodes[i].dependencies@.len() == 0 {
        0
    } else {
        max_dep_after(nodes, i, nodes[i].dependencies@.len() as int, (t - 1) as nat) + 1
    }
}

/// Level after `t` rounds of the node that id `d` names (the last one with that id); 0
/// when no node has it.
pub open spec fn dep_level(nodes: Seq<DagNode>, d: Seq<char>, t: nat) -> nat
    decreases t, 1int, 0int,
{
    match last_with_id(nodes, d, nodes.len() as int) {
        Some(j) => if 0 <= j < nodes.len() {
            level_after(nodes, j, t)
        } else {
            0
        },
        None => 0,
    }
}

/// Largest level after `t` rounds among the first `k` dependencies of node `i`.
pub open spec fn max_dep_after(nodes: Seq<DagNode>, i: int, k: int, t: nat) -> nat
    decreases t, 2int, k,
{
    if k <= 0 || i < 0 || i >= nodes.len() || k > nodes[i].dependencies@.len() {
        0
    } else {
        let prev = max_dep_after(nodes, i, k - 1, t);
        let cur = dep_level(nodes, dep_of(nodes, i, k - 1), t);
        if prev >= cur {
            prev
        } else {
            cur
        }
    }
}

/// Level of node `i`: that of its id after as many rounds as there are nodes. On a valid
/// graph this is 0 for a node without dependencies and one more than the largest level
/// of its dependencies otherwise (`lemma_level_fixpoint`), whatever the order of the nodes.
pub open spec fn final_level(nodes: Seq<DagNode>, i: int) -> nat {
    dep_level(nodes, nodes[i].id@, nodes.len())
}

/// Largest final level among the first `m` nodes.
pub open spec fn max_final_level(nodes: Seq<DagNode>, m: int) -> nat
    decreases m,
{
    if m <= 0 {
        0
    } else {
        let prev = max_final_level(nodes, m - 1);
        let cur = final_level(nodes, m - 1);
        if prev >= cur {
            prev
        } else {
            cur
        }
    }
}

/// Ids, in node order among the first `m` nodes, of the nodes whose final level is `l`.
pub open spec fn level_members(nodes: Seq<DagNode>, m: int, l: nat) -> Seq<Seq<char>>
    decreases m,
{
    if m <= 0 {
        Seq::empty()
    } else if final_level(nodes, m - 1) == l {
        level_members(nodes, m - 1, l).push(nodes[m - 1].id@)
    } else {
        level_members(nodes, m - 1, l)
    }
}

/// The graph as built.
pub struct DagOrchestrator {
    nodes: Vec<DagNode>,
}

/// Whether some node has id `x`.
fn has_id_exec(nodes: &Vec<DagNode>, x: &String) -> (b: bool)
    ensures
        b == has_id(nodes@, x@),
{
    let mut j: usize = 0;
    while j < nodes.len()
        invariant
            j <= nodes.len(),
            forall|j2: int| 0 <= j2 < j ==> nodes@[j2].id@ != x@,
        decreases nodes.len() - j,
    {
        if nodes[j].id == *x {
            return true;
        }
        j = j + 1;
    }
    false
}

/// Whether some node already taken out has id `d`.
fn dep_done_exec(nodes: &Vec<DagNode>, removed: &Vec<bool>, d: &String) -> (b: bool)
    requires
        removed.len() == nodes.len(),
    ensures
        b == dep_done(nodes@, removed@, d@),
{
    let mut j: usize = 0;
    while j < nodes.len()
        invariant
            j <= nodes.len(),
            removed.len() == nodes.len(),
            forall|j2: int| 0 <= j2 < j ==> !(removed@[j2] && nodes@[j2].id@ == d@),
        decreases nodes.len() - j,
    {
        if removed[j] && nodes[j].id == *d {
            return true;
        }
        j = j + 1;
    }
    false
}

/// Whether all dependencies of node `i` have been taken out.
fn deps_done_exec(nodes: &Vec<DagNode>, removed: &Vec<bool>, i: usize) -> (b: bool)
    requires
        removed.len() == nodes.len(),
        i < nodes.len(),
    ensures
        b == deps_done(nodes@, removed@, i as int),
{
    let deps = &nodes[i].dependencies;
    let mut k: usize = 0;
    while k < deps.len()
        invariant
            k <= deps.len(),
            removed.len() == nodes.len(),
            i < nodes.len(),
            deps == nodes@[i as int].dependencies,
            forall|k2: int| 0 <= k2 < k ==> dep_done(nodes@, removed@, #[trigger] dep_of(nodes@, i as int, k2)),
        decreases deps.len() - k,
    {
        if !dep_done_exec(nodes, removed, &deps[k]) {
            assert(!dep_done(nodes@, removed@, dep_of(nodes@, i as int, k as int)));
            return false;
        }
        k = k + 1;
    }
    true
}

/// The level after round `t` of the node that id `d` names, given the levels `cur`
/// after that round.
fn dep_level_exec(nodes: &Vec<DagNode>, cur: &Vec<usize>, d: &String, Ghost(t): Ghost<nat>) -> (r: usize)
    requires
        cur.len() == nodes.len(),
        forall|j: int| 0 <= j < cur.len() ==> cur@[j] as nat == level_after(nodes@, j, t),
    ensures
        r as nat == dep_level(nodes@, d@, t),
        r as nat <= t,
{
    let mut j: usize = nodes.len();
    while j > 0
        invariant
            j <= nodes.len(),
            cur.len() == nodes.len(),
            forall|j2: int| 0 <= j2 < cur.len() ==> cur@[j2] as nat == level_after(nodes@, j2, t),
            last_with_id(nodes@, d@, nodes.len() as int) == last_with_id(nodes@, d@, j as int),
        decreases j,
    {
        if nodes[j - 1].id == *d {
            proof {
                assert(last_with_id(nodes@, d@, j as int) == Some(j - 1));
                lemma_level_bound(nodes@, j - 1, t);
            }
            return cur[j - 1];
        }
        j = j - 1;
    }
    0
}

proof fn lemma_level_bound(nodes: Seq<DagNode>, i: int, t: nat)
    ensures
        level_after(nodes, i, t) <= t,
    decreases t, 0int, 0int,
{
    if t > 0 && 0 <= i < nodes.len() && nodes[i].dependencies@.len() > 0 {
        lemma_max_dep_bound(nodes, i, nodes[i].dependencies@.len() as int, (t - 1) as nat);
    }
}

proof fn lemma_max_dep_bound(nodes: Seq<DagNode>, i: int, k: int, t: nat)
    ensures
        max_dep_after(nodes, i, k, t) <= t,
    decreases t, 1int, k,
{
    if k > 0 && 0 <= i < nodes.len() && k <= nodes[i].dependencies@.len() {
        lemma_max_dep_bound(nodes, i, k - 1, t);
        let d = dep_of(nodes, i, k - 1);
        match last_with_id(nodes, d, nodes.len() as int) {
            Some(j) => {
                if 0 <= j < nodes.len() {
                    lemma_level_bound(nodes, j, t);
                }
            },
            None => {},
        }
        assert(dep_level(nodes, d, t) <= t);
    }
}

impl DagOrchestrator {
    /// The nodes, in the order given.
    pub closed spec fn nodes(&self) -> Seq<DagNode> {
        self.nodes@
    }

    pub fn new(nodes: Vec<DagNode>) -> (r: DagOrchestrator)
        ensures
            r.nodes() == nodes@,
    {
        DagOrchestrator { nodes }
    }

    /// Checks that every dependency names a node and that the graph has no cycle.
    pub fn validate(&self) -> (r: Result<(), String>)
        ensures
            r is Ok <==> (all_deps_exist(self.nodes()) && ids_distinct(self.nodes()) && acyclic(
                self.nodes(),
            )),
            !all_deps_exist(self.nodes()) ==> (r matches Err(m) && exists|i: int, k: int|
                #[trigger] first_missing(self.nodes(), i, k) && m@ == missing_message(
                    self.nodes()[i].id@,
                    dep_of(self.nodes(), i, k),
                )),
            all_deps_exist(self.nodes()) && !(ids_distinct(self.nodes()) && acyclic(self.nodes()))
                ==> (r matches Err(m) && m@ == cycle_message()),
    {
        let nodes = &self.nodes;
        let n = nodes.len();
        // Every dependency must name a node.
        let mut i: usize = 0;
        while i < n
            invariant
                n == nodes.len(),
                nodes@ == self.nodes(),
                i <= n,
                forall|i2: int, k2: int| i2 < i ==> !#[trigger] missing_dep(nodes@, i2, k2),
            decreases n - i,
        {
            let deps = &nodes[i].dependencies;
            let mut k: usize = 0;
            while k < deps.len()
                invariant
                    n == nodes.len(),
                    nodes@ == self.nodes(),
                    i < n,
                    k <= deps.len(),
                    deps == nodes@[i as int].dependencies,
                    forall|i2: int, k2: int| i2 < i ==> !#[trigger] missing_dep(nodes@, i2, k2),
                    forall|k2: int| k2 < k ==> !#[trigger] missing_dep(nodes@, i as int, k2),
                decreases deps.len() - k,
            {
                if !has_id_exec(nodes, &deps[k]) {
                    let mut m = concat2("节点 ", nodes[i].id.as_str());
                    m.append(" 依赖的 ");
                    m.append(deps[k].as_str());
                    m.append(" 不存在");
                    proof {
                        assert(missing_dep(nodes@, i as int, k as int));
                        assert(first_missing(nodes@, i as int, k as int));
                        assert(!all_deps_exist(nodes@));
                        assert(m@ =~= missing_message(nodes@[i as int].id@, dep_of(nodes@, i as int, k as int)));
                    }
                    return Err(m);
                }
                k = k + 1;
            }
            proof {
                assert forall|i2: int, k2: int| i2 < i + 1 implies !#[trigger] missing_dep(nodes@, i2, k2) by {
                    if i2 == i {
                        if k2 >= k {
                        }
                    }
                }
            }
            i = i + 1;
        }
        assert(all_deps_exist(nodes@));
        // Ids must be distinct.
        let mut a: usize = 0;
        while a < n
            invariant
                n == nodes.len(),
                nodes@ == self.nodes(),
                all_deps_exist(nodes@),
                a <= n,
                forall|x: int, y: int| 0 <= x < a && x < y < n ==> nodes@[x].id@ != nodes@[y].id@,
            decreases n - a,
        {
            let mut b: usize = a + 1;
            while b < n
                invariant
                    n == nodes.len(),
                    nodes@ == self.nodes(),
                    all_deps_exist(nodes@),
                    a < n,
                    a + 1 <= b <= n,
                    forall|x: int, y: int| 0 <= x < a && x < y < n ==> nodes@[x].id@ != nodes@[y].id@,
                    forall|y: int| a < y < b ==> nodes@[a as int].id@ != nodes@[y].id@,
                decreases n - b,
            {
                if nodes[a].id == nodes[b].id {
                    assert(!ids_distinct(nodes@));
                    return Err(owned("DAG 检测到环，无法进行拓扑排序"));
                }
                b = b + 1;
            }
            a = a + 1;
        }
        assert(ids_distinct(nodes@));
        // Take out nodes whose dependencies are all taken out, until none is left or
        // no node can be taken.
        let mut removed: Vec<bool> = Vec::new();
        let mut z: usize = 0;
        while z < n
            invariant
                z <= n,
                removed@.len() == z,
                forall|j: int| 0 <= j < z ==> !removed@[j],
            decreases n - z,
        {
            removed.push(false);
            z = z + 1;
        }
        proof {
            lemma_pending_all_false(removed@);
        }
        let ghost mut order: Seq<int> = Seq::empty();
        let mut pending: usize = n;
        while pending > 0
            invariant
                n == nodes.len(),
                nodes@ == self.nodes(),
                all_deps_exist(nodes@),
                ids_distinct(nodes@),
                removed@.len() == n,
                pending as nat == num_pending(removed@),
                order.no_duplicates(),
                forall|p: int| 0 <= p < order.len() ==> 0 <= #[trigger] order[p] < n,
                forall|j: int| 0 <= j < n ==> (removed@[j] <==> #[trigger] order.contains(j)),
                forall|p: int, k: int|
                    0 <= p < order.len() && 0 <= k < nodes@[order[p]].dependencies@.len()
                        ==> listed_before(nodes@, order, p, #[trigger] dep_of(nodes@, order[p], k)),
            decreases pending,
        {
            let ghost start = removed@;
            let ghost start_pending = pending;
            let mut progress = false;
            let mut i: usize = 0;
            while i < n
                invariant
                    n == nodes.len(),
                    nodes@ == self.nodes(),
                    removed@.len() == n,
                    i <= n,
                    pending as nat == num_pending(removed@),
                    pending <= start_pending,
                    progress ==> pending < start_pending,
                    !progress ==> removed@ == start,
                    !progress ==> forall|i2: int|
                        0 <= i2 < i && !removed@[i2] ==> !deps_done(nodes@, removed@, i2),
                    order.no_duplicates(),
                    forall|p: int| 0 <= p < order.len() ==> 0 <= #[trigger] order[p] < n,
                    forall|j: int| 0 <= j < n ==> (removed@[j] <==> #[trigger] order.contains(j)),
                    forall|p: int, k: int|
                        0 <= p < order.len() && 0 <= k < nodes@[order[p]].dependencies@.len()
                            ==> listed_before(nodes@, order, p, #[trigger] dep_of(nodes@, order[p], k)),
                decreases n - i,
            {
                if !removed[i] && deps_done_exec(nodes, &removed, i) {
                    proof {
                        lemma_pending_take(removed@, i as int);
                        let old_order = order;
                        let old_removed = removed@;
                        assert(!old_order.contains(i as int));
                        order = order.push(i as int);
                        assert forall|a: int, b: int| 0 <= a < b < order.len() implies order[a] != order[b] by {
                            if b == old_order.len() {
                                if order[a] == order[b] {
                                    assert(old_order[a] == i);
                                }
                            } else {
                                assert(old_order[a] == order[a] && old_order[b] == order[b]);
                            }
                        }
                        assert forall|k: int|
                            0 <= k < nodes@[i as int].dependencies@.len() implies listed_before(
                            nodes@,
                            order,
                            old_order.len() as int,
                            #[trigger] dep_of(nodes@, i as int, k),
                        ) by {
                            let d = dep_of(nodes@, i as int, k);
                            assert(dep_done(nodes@, old_removed, d));
                            let j = choose|j: int|
                                0 <= j < nodes@.len() && old_removed[j] && #[trigger] nodes@[j].id@ == d;
                            assert(old_order.contains(j));
                            let q = choose|q: int| 0 <= q < old_order.len() && old_order[q] == j;
                            assert(order[q] == j);
                            assert(nodes@[order[q]].id@ == d);
                        }
                        assert forall|p: int, k: int|
                            0 <= p < order.len() && 0 <= k < nodes@[order[p]].dependencies@.len()
                                implies listed_before(nodes@, order, p, #[trigger] dep_of(nodes@, order[p], k)) by {
                            if p < old_order.len() {
                                assert(order[p] == old_order[p]);
                                assert(listed_before(nodes@, old_order, p, dep_of(nodes@, old_order[p], k)));
                                let q = choose|q: int| 0 <= q < p && #[trigger] nodes@[old_order[q]].id@ == dep_of(nodes@, old_order[p], k);
                                assert(order[q] == old_order[q]);
                            } else {
                                assert(order[p] == i);
                            }
                        }
                        assert forall|j: int| 0 <= j < n implies (old_removed.update(i as int, true)[j] <==> #[trigger] order.contains(j)) by {
                            if j == i {
                                assert(order[old_order.len() as int] == i);
                            } else {
                                if order.contains(j) {
                                    let q = choose|q: int| 0 <= q < order.len() && order[q] == j;
                                    assert(q < old_order.len());
                                    assert(old_order[q] == j);
                                }
                                if old_order.contains(j) {
                                    let q = choose|q: int| 0 <= q < old_order.len() && old_order[q] == j;
                                    assert(order[q] == j);
                                }
                            }
                        }
                    }
                    removed.set(i, true);
                    pending = pending - 1;
                    progress = true;
                }
                i = i + 1;
            }
            if !progress {
                proof {
                    assert(pending > 0);
                    let r = removed@;
                    assert(exists|x: int| 0 <= x < n && !r[x]) by {
                        if forall|x: int| 0 <= x < n ==> r[x] {
                            assert(num_pending(r) == 0) by {
                                lemma_all_true_pending_zero(r);
                            }
                        }
                    }
                    assert forall|ord: Seq<int>| !is_topological_order(nodes@, ord) by {
                        if is_topological_order(nodes@, ord) {
                            let x = choose|x: int| 0 <= x < n && !r[x];
                            assert(ord.contains(x));
                            let p = choose|p: int| 0 <= p < ord.len() && ord[p] == x;
                            lemma_stuck_has_no_order(nodes@, r, ord, p);
                        }
                    }
                    assert(!acyclic(nodes@));
                }
                return Err(owned("DAG 检测到环，无法进行拓扑排序"));
            }
        }
        proof {
            lemma_pending_zero(removed@);
            assert(is_topological_order(nodes@, order));
            assert(is_topological_order(nodes@, order) && order.no_duplicates());
        }
        Ok(())
    }

    /// Groups the node ids by level; all nodes of one level can run in parallel.
    pub fn compute_levels(&self) -> (r: Vec<Vec<String>>)
        ensures
            self.nodes().len() == 0 ==> r@.len() == 0,
            self.nodes().len() > 0 ==> r@.len() == max_final_level(
                self.nodes(),
                self.nodes().len() as int,
            ) + 1,
            forall|l: int|
                0 <= l < r@.len() ==> (#[trigger] r@[l])@.map_values(|s: String| s@)
                    == level_members(self.nodes(), self.nodes().len() as int, l as nat),
    {
        let nodes = &self.nodes;
        let n = nodes.len();
        if n == 0 {
            return Vec::new();
        }
        // Levels after each round of relaxation, as many rounds as there are nodes.
        let mut cur: Vec<usize> = Vec::new();
        let mut i: usize = 0;
        while i < n
            invariant
                n == nodes.len(),
                i <= n,
                cur@.len() == i,
                forall|j: int| 0 <= j < i ==> cur@[j] as nat == level_after(nodes@, j, 0),
            decreases n - i,
        {
            cur.push(0);
            i = i + 1;
        }
        let mut t: usize = 0;
        while t < n
            invariant
                n == nodes.len(),
                t <= n,
                cur@.len() == n,
                forall|j: int| 0 <= j < n ==> cur@[j] as nat == level_after(nodes@, j, t as nat),
                forall|j: int| 0 <= j < n ==> cur@[j] <= t,
            decreases n - t,
        {
            let mut next: Vec<usize> = Vec::new();
            let mut i: usize = 0;
            while i < n
                invariant
                    n == nodes.len(),
                    t < n,
                    i <= n,
                    cur@.len() == n,
                    forall|j: int| 0 <= j < n ==> cur@[j] as nat == level_after(nodes@, j, t as nat),
                    forall|j: int| 0 <= j < n ==> cur@[j] <= t,
                    next@.len() == i,
                    forall|j: int| 0 <= j < i ==> next@[j] as nat == level_after(nodes@, j, (t + 1) as nat),
                    forall|j: int| 0 <= j < i ==> next@[j] <= t + 1,
                decreases n - i,
            {
                let deps = &nodes[i].dependencies;
                if deps.len() == 0 {
                    next.push(0);
                } else {
                    let mut best: usize = 0;
                    let mut k: usize = 0;
                    while k < deps.len()
                        invariant
                            n == nodes.len(),
                            i < n,
                            t < n,
                            cur@.len() == n,
                            forall|j: int| 0 <= j < n ==> cur@[j] as nat == level_after(nodes@, j, t as nat),
                            forall|j: int| 0 <= j < n ==> cur@[j] <= t,
                            deps == nodes@[i as int].dependencies,
                            k <= deps.len(),
                            best as nat == max_dep_after(nodes@, i as int, k as int, t as nat),
                            best <= t,
                        decreases deps.len() - k,
                    {
                        let d = dep_level_exec(nodes, &cur, &deps[k], Ghost(t as nat));
                        if d > best {
                            best = d;
                        }
                        k = k + 1;
                    }
                    next.push(best + 1);
                }
                i = i + 1;
            }
            cur = next;
            t = t + 1;
        }
        // Final level of each node's id.
        let mut fl: Vec<usize> = Vec::new();
        let mut maxl: usize = 0;
        let mut i: usize = 0;
        while i < n
            invariant
                n == nodes.len(),
                cur@.len() == n,
                forall|j: int| 0 <= j < n ==> cur@[j] as nat == level_after(nodes@, j, n as nat),
                forall|j: int| 0 <= j < n ==> cur@[j] <= n,
                i <= n,
                fl@.len() == i,
                forall|j: int| 0 <= j < i ==> fl@[j] as nat == final_level(nodes@, j),
                maxl as nat == max_final_level(nodes@, i as int),
                maxl <= n,
            decreases n - i,
        {
            let f = dep_level_exec(nodes, &cur, &nodes[i].id, Ghost(n as nat));
            fl.push(f);
            if f > maxl {
                maxl = f;
            }
            i = i + 1;
        }
        // Bucket the ids by level.
        let mut result: Vec<Vec<String>> = Vec::new();
        let mut l: usize = 0;
        loop
            invariant_except_break
                result@.len() == l,
            invariant
                n == nodes.len(),
                fl@.len() == n,
                forall|j: int| 0 <= j < n ==> fl@[j] as nat == final_level(nodes@, j),
                maxl as nat == max_final_level(nodes@, n as int),
                maxl <= n,
                l <= maxl,
                forall|l2: int|
                    0 <= l2 < result@.len() ==> (#[trigger] result@[l2])@.map_values(|s: String| s@)
                        == level_members(nodes@, n as int, l2 as nat),
            ensures
                result@.len() == maxl + 1,
                forall|l2: int|
                    0 <= l2 < result@.len() ==> (#[trigger] result@[l2])@.map_values(|s: String| s@)
                        == level_members(nodes@, n as int, l2 as nat),
            decreases maxl - l,
        {
            let mut bucket: Vec<String> = Vec::new();
            let mut j: usize = 0;
            while j < n
                invariant
                    n == nodes.len(),
                    fl@.len() == n,
                    forall|j2: int| 0 <= j2 < n ==> fl@[j2] as nat == final_level(nodes@, j2),
                    j <= n,
                    bucket@.map_values(|s: String| s@) == level_members(nodes@, j as int, l as nat),
                decreases n - j,
            {
                let ghost before = bucket@;
                if fl[j] == l {
                    bucket.push(nodes[j].id.clone());
                    assert(bucket@.map_values(|s: String| s@) =~= before.map_values(|s: String| s@).push(nodes@[j as int].id@));
                }
                j = j + 1;
            }
            result.push(bucket);
            proof {
                assert forall|l2: int|
                    0 <= l2 < l + 1 implies (#[trigger] result@[l2])@.map_values(|s: String| s@)
                        == level_members(nodes@, n as int, l2 as nat) by {
                }
            }
            if l == maxl {
                break;
            }
            l = l + 1;
        }
        result
    }
}

proof fn lemma_all_true_pending_zero(r: Seq<bool>)
    requires
        forall|j: int| 0 <= j < r.len() ==> r[j],
    ensures
        num_pending(r) == 0,
    decreases r.len(),
{
    if r.len() > 0 {
        lemma_all_true_pending_zero(r.drop_last());
    }
}

/// With distinct ids, the last node with the id of node `j` is node `j` itself.
proof fn lemma_last_distinct(nodes: Seq<DagNode>, j: int, m: int)
    requires
        ids_distinct(nodes),
        0 <= j < m <= nodes.len(),
    ensures
        last_with_id(nodes, nodes[j].id@, m) == Some(j),
    decreases m,
{
    if m - 1 != j {
        assert(nodes[j].id@ != nodes[m - 1].id@);
        lemma_last_distinct(nodes, j, m - 1);
    }
}

/// The largest dependency level is at least that of each of the first `k` dependencies.
proof fn lemma_max_dep_ge(nodes: Seq<DagNode>, i: int, k: int, k2: int, t: nat)
    requires
        0 <= i < nodes.len(),
        0 <= k2 < k <= nodes[i].dependencies@.len(),
    ensures
        max_dep_after(nodes, i, k, t) >= dep_level(nodes, dep_of(nodes, i, k2), t),
    decreases k,
{
    if k2 < k - 1 {
        lemma_max_dep_ge(nodes, i, k - 1, k2, t);
    }
}

/// Dependencies with the same levels after rounds `t1` and `t2` give the same largest level.
proof fn lemma_max_dep_eq(nodes: Seq<DagNode>, i: int, k: int, t1: nat, t2: nat)
    requires
        forall|k2: int|
            0 <= k2 < k ==> dep_level(nodes, #[trigger] dep_of(nodes, i, k2), t1) == dep_level(
                nodes,
                dep_of(nodes, i, k2),
                t2,
            ),
    ensures
        max_dep_after(nodes, i, k, t1) == max_dep_after(nodes, i, k, t2),
    decreases k,
{
    if k > 0 {
        lemma_max_dep_eq(nodes, i, k - 1, t1, t2);
        assert(dep_level(nodes, dep_of(nodes, i, k - 1), t1) == dep_level(nodes, dep_of(nodes, i, k - 1), t2));
    }
}

/// On a graph without missing dependencies or repeated ids, the node at position `p` of a
/// topological order keeps its level from round `p + 1` on.
proof fn lemma_stable(nodes: Seq<DagNode>, ord: Seq<int>, p: int, t: nat)
    requires
        all_deps_exist(nodes),
        ids_distinct(nodes),
        is_topological_order(nodes, ord),
        0 <= p < ord.len(),
        t >= p + 1,
    ensures
        level_after(nodes, ord[p], t) == level_after(nodes, ord[p], (p + 1) as nat),
    decreases p,
{
    let x = ord[p];
    assert(0 <= x < nodes.len());
    let kk = nodes[x].dependencies@.len() as int;
    if kk > 0 {
        assert forall|k: int|
            0 <= k < kk implies dep_level(nodes, #[trigger] dep_of(nodes, x, k), (t - 1) as nat) == dep_level(
            nodes,
            dep_of(nodes, x, k),
            p as nat,
        ) by {
            let d = dep_of(nodes, x, k);
            assert(listed_before(nodes, ord, p, d));
            let q = choose|q: int| 0 <= q < p && #[trigger] nodes[ord[q]].id@ == d;
            assert(0 <= ord[q] < nodes.len());
            lemma_last_distinct(nodes, ord[q], nodes.len() as int);
            lemma_stable(nodes, ord, q, (t - 1) as nat);
            lemma_stable(nodes, ord, q, p as nat);
        }
        lemma_max_dep_eq(nodes, x, kk, (t - 1) as nat, p as nat);
    }
}

/// A topological order that lists each node once is no longer than the node list.
proof fn lemma_order_len(nodes: Seq<DagNode>, ord: Seq<int>)
    requires
        is_topological_order(nodes, ord),
        ord.no_duplicates(),
    ensures
        ord.len() <= nodes.len(),
{
    ord.unique_seq_to_set();
    vstd::set_lib::lemma_int_range(0, nodes.len() as int);
    assert(ord.to_set().subset_of(vstd::set_lib::set_int_range(0, nodes.len() as int)));
    vstd::set_lib::lemma_len_subset(ord.to_set(), vstd::set_lib::set_int_range(0, nodes.len() as int));
}

/// On a valid graph, one more round changes no level.
proof fn lemma_settled(nodes: Seq<DagNode>, i: int)
    requires
        all_deps_exist(nodes),
        ids_distinct(nodes),
        acyclic(nodes),
        0 <= i < nodes.len(),
    ensures
        level_after(nodes, i, (nodes.len() + 1) as nat) == level_after(nodes, i, nodes.len()),
{
    let ord = choose|ord: Seq<int>| is_topological_order(nodes, ord) && ord.no_duplicates();
    lemma_order_len(nodes, ord);
    assert(ord.contains(i));
    let p = choose|p: int| 0 <= p < ord.len() && ord[p] == i;
    lemma_stable(nodes, ord, p, (nodes.len() + 1) as nat);
    lemma_stable(nodes, ord, p, nodes.len());
}

/// On a valid graph (every dependency names a node, ids distinct, no cycle), whatever the
/// order of the nodes, a node's level is 0 without dependencies, and otherwise one more
/// than the largest level among its dependencies (the dependency of node `i` at place
/// `k` has level `dep_level(nodes, dep_of(nodes, i, k), nodes.len())`, which is
/// `final_level` of the node it names).
pub proof fn lemma_level_fixpoint(nodes: Seq<DagNode>, i: int)
    requires
        all_deps_exist(nodes),
        ids_distinct(nodes),
        acyclic(nodes),
        0 <= i < nodes.len(),
    ensures
        final_level(nodes, i) == (if nodes[i].dependencies@.len() == 0 {
            0
        } else {
            max_dep_after(nodes, i, nodes[i].dependencies@.len() as int, nodes.len()) + 1
        }),
        forall|j: int|
            0 <= j < nodes.len() ==> #[trigger] dep_level(nodes, nodes[j].id@, nodes.len()) == final_level(nodes, j),
{
    lemma_last_distinct(nodes, i, nodes.len() as int);
    lemma_settled(nodes, i);
}

/// Levels follow dependencies, whatever the order of the nodes: on a valid graph, a node
/// is at a higher level than each node it depends on, so the nodes of one level can run
/// in parallel.
pub proof fn lemma_level_above_dependency(nodes: Seq<DagNode>, i: int, k: int, j: int)
    requires
        all_deps_exist(nodes),
        ids_distinct(nodes),
        acyclic(nodes),
        0 <= i < nodes.len(),
        0 <= j < nodes.len(),
        0 <= k < nodes[i].dependencies@.len(),
        nodes[j].id@ == dep_of(nodes, i, k),
    ensures
        final_level(nodes, i) > final_level(nodes, j),
{
    lemma_level_fixpoint(nodes, i);
    lemma_max_dep_ge(nodes, i, nodes[i].dependencies@.len() as int, k, nodes.len());
}


proof fn lemma_max_dep_attained(nodes: Seq<DagNode>, i: int, k: int, t: nat)
    requires
        0 <= i < nodes.len(),
        0 < k <= nodes[i].dependencies@.len(),
    ensures
        exists|k2: int| 0 <= k2 < k && max_dep_after(nodes, i, k, t) == dep_level(nodes, #[trigger] dep_of(nodes, i, k2), t),
    decreases k,
{
    let cur = dep_level(nodes, dep_of(nodes, i, k - 1), t);
    if k > 1 {
        lemma_max_dep_attained(nodes, i, k - 1, t);
        let prev = max_dep_after(nodes, i, k - 1, t);
        if prev >= cur {
            let k2 = choose|k2: int| 0 <= k2 < k - 1 && prev == dep_level(nodes, #[trigger] dep_of(nodes, i, k2), t);
            assert(max_dep_after(nodes, i, k, t) == dep_level(nodes, dep_of(nodes, i, k2), t));
        } else {
            assert(max_dep_after(nodes, i, k, t) == dep_level(nodes, dep_of(nodes, i, k - 1), t));
        }
    } else {
        assert(max_dep_after(nodes, i, 0, t) == 0);
        assert(max_dep_after(nodes, i, k, t) == dep_level(nodes, dep_of(nodes, i, 0), t));
    }
}

/// Levels are longest-path depths: on a valid graph, whatever the order of the nodes, a
/// node without dependencies is at level 0, a node is above every node it depends on, and
/// a node with dependencies is exactly one above the highest of them.
pub proof fn lemma_longest_path_levels(nodes: Seq<DagNode>, i: int)
    requires
        all_deps_exist(nodes),
        ids_distinct(nodes),
        acyclic(nodes),
        0 <= i < nodes.len(),
    ensures
        nodes[i].dependencies@.len() == 0 ==> final_level(nodes, i) == 0,
        forall|k: int, j: int|
            0 <= k < nodes[i].dependencies@.len() && 0 <= j < nodes.len() && #[trigger] nodes[j].id@ == #[trigger] dep_of(nodes, i, k)
                ==> final_level(nodes, i) >= final_level(nodes, j) + 1,
        nodes[i].dependencies@.len() > 0 ==> exists|k: int, j: int|
            0 <= k < nodes[i].dependencies@.len() && 0 <= j < nodes.len() && #[trigger] nodes[j].id@ == #[trigger] dep_of(nodes, i, k)
                && final_level(nodes, i) == final_level(nodes, j) + 1,
{
    lemma_level_fixpoint(nodes, i);
    let n = nodes.len();
    let kd = nodes[i].dependencies@.len() as int;
    assert forall|k: int, j: int|
        0 <= k < kd && 0 <= j < n && #[trigger] nodes[j].id@ == #[trigger] dep_of(nodes, i, k)
            implies final_level(nodes, i) >= final_level(nodes, j) + 1 by {
        lemma_level_above_dependency(nodes, i, k, j);
    }
    if kd > 0 {
        lemma_max_dep_attained(nodes, i, kd, n);
        let k = choose|k2: int| 0 <= k2 < kd && max_dep_after(nodes, i, kd, n) == dep_level(nodes, #[trigger] dep_of(nodes, i, k2), n);
        assert(!missing_dep(nodes, i, k));
        assert(has_id(nodes, dep_of(nodes, i, k)));
        let j = choose|j: int| 0 <= j < nodes.len() && #[trigger] nodes[j].id@ == dep_of(nodes, i, k);
        assert(dep_level(nodes, nodes[j].id@, n) == final_level(nodes, j));
        assert(final_level(nodes, i) == final_level(nodes, j) + 1);
    }
}

proof fn lemma_max_final_attained(nodes: Seq<DagNode>, m: int)
    requires
        0 < m <= nodes.len(),
    ensures
        exists|i: int| 0 <= i < m && #[trigger] final_level(nodes, i) == max_final_level(nodes, m),
        forall|i: int| 0 <= i < m ==> #[trigger] final_level(nodes, i) <= max_final_level(nodes, m),
    decreases m,
{
    if m > 1 {
        lemma_max_final_attained(nodes, m - 1);
        if max_final_level(nodes, m - 1) >= final_level(nodes, m - 1) {
            let i = choose|i: int| 0 <= i < m - 1 && #[trigger] final_level(nodes, i) == max_final_level(nodes, m - 1);
            assert(final_level(nodes, i) == max_final_level(nodes, m));
        } else {
            assert(final_level(nodes, m - 1) == max_final_level(nodes, m));
        }
    } else {
        assert(max_final_level(nodes, 0) == 0);
        assert(final_level(nodes, 0) == max_final_level(nodes, 1));
    }
}

proof fn lemma_level_reached(nodes: Seq<DagNode>, i: int, l: nat)
    requires
        all_deps_exist(nodes),
        ids_distinct(nodes),
        acyclic(nodes),
        0 <= i < nodes.len(),
        l <= final_level(nodes, i),
    ensures
        exists|j: int| 0 <= j < nodes.len() && #[trigger] final_level(nodes, j) == l,
    decreases final_level(nodes, i) - l,
{
    if final_level(nodes, i) == l {
        assert(final_level(nodes, i) == l);
    } else {
        lemma_longest_path_levels(nodes, i);
        assert(nodes[i].dependencies@.len() > 0);
        let (k, j) = choose|k: int, j: int|
            0 <= k < nodes[i].dependencies@.len() && 0 <= j < nodes.len() && #[trigger] nodes[j].id@ == #[trigger] dep_of(nodes, i, k)
                && final_level(nodes, i) == final_level(nodes, j) + 1;
        lemma_level_reached(nodes, j, l);
    }
}

proof fn lemma_level_members_contains(nodes: Seq<DagNode>, m: int, j: int)
    requires
        0 <= j < m <= nodes.len(),
    ensures
        level_members(nodes, m, final_level(nodes, j)).contains(nodes[j].id@),
    decreases m,
{
    let l = final_level(nodes, j);
    let prev = level_members(nodes, m - 1, l);
    if j == m - 1 {
        assert(level_members(nodes, m, l) == prev.push(nodes[j].id@));
        assert(level_members(nodes, m, l)[prev.len() as int] == nodes[j].id@);
    } else {
        lemma_level_members_contains(nodes, m - 1, j);
        let u = choose|u: int| 0 <= u < prev.len() && prev[u] == nodes[j].id@;
        if final_level(nodes, m - 1) == l {
            assert(level_members(nodes, m, l)[u] == nodes[j].id@);
        }
    }
}

/// On a valid graph every node's id is listed in the level `compute_levels` puts it in
/// (`level_members` at its final level), and every level from 0 to the highest holds at
/// least one node, so no level of the plan is empty.
pub proof fn lemma_levels_cover_nodes(nodes: Seq<DagNode>, j: int, l: nat)
    requires
        all_deps_exist(nodes),
        ids_distinct(nodes),
        acyclic(nodes),
        0 <= j < nodes.len(),
    ensures
        level_members(nodes, nodes.len() as int, final_level(nodes, j)).contains(nodes[j].id@),
        l <= max_final_level(nodes, nodes.len() as int) ==> level_members(nodes, nodes.len() as int, l).len() > 0,
{
    let n = nodes.len() as int;
    lemma_level_members_contains(nodes, n, j);
    if l <= max_final_level(nodes, n) {
        lemma_max_final_attained(nodes, n);
        let i = choose|i: int| 0 <= i < n && #[trigger] final_level(nodes, i) == max_final_level(nodes, n);
        lemma_level_reached(nodes, i, l);
        let j2 = choose|j2: int| 0 <= j2 < nodes.len() && #[trigger] final_level(nodes, j2) == l;
        lemma_level_members_contains(nodes, n, j2);
    }
}

} // verus!
