//! Dependency-cycle detection over the thought graph.

use vstd::prelude::*;
use std::collections::HashMap;
use std::collections::HashSet;
use crate::types::{ThoughtData, ThoughtView, thoughts_view, strs_view};
use crate::graph::lineage::reaches;
use crate::graph::assumptions::{
    assumption_facts, select_members, contradiction_messages, contradiction_message, enumerates,
    assumed_set, confirmed_set, refuted_set, all_verifications, normalize, refuted_core, confirms,
    refutes, refuted_by,
};
use crate::text::contains_text;

verus! {

broadcast use vstd::std_specs::hash::group_hash_axioms;

/// The dependency graph of a list of thoughts: each thought number is joined to the
/// dependencies of the last thought carrying that number.
pub open spec fn dependency_graph(ts: Seq<ThoughtView>) -> Map<usize, Seq<usize>>
    decreases ts.len(),
{
    if ts.len() == 0 {
        Map::empty()
    } else {
        dependency_graph(ts.drop_last()).insert(ts.last().thought_number, ts.last().dependencies())
    }
}

/// A directed graph given by the successor list of each node.
pub open spec fn graph_view(adj: Map<usize, Vec<usize>>) -> Map<usize, Seq<usize>> {
    adj.map_values(|v: Vec<usize>| v@)
}

/// `u -> v` is an edge of `g`.
pub open spec fn edge(g: Map<usize, Seq<usize>>, u: usize, v: usize) -> bool {
    g.contains_key(u) && g[u].contains(v)
}

/// The step from position `i` to position `i + 1` of `p` is an edge of `g`.
pub open spec fn step(g: Map<usize, Seq<usize>>, p: Seq<usize>, i: int) -> bool {
    edge(g, p[i], p[i + 1])
}

/// Every two consecutive nodes of `p` are joined by an edge of `g`.
pub open spec fn is_walk(g: Map<usize, Seq<usize>>, p: Seq<usize>) -> bool {
    forall|i: int| 0 <= i < p.len() - 1 ==> #[trigger] step(g, p, i)
}

/// `c` is a closed walk of at least one edge: it ends where it starts.
pub open spec fn is_cycle(g: Map<usize, Seq<usize>>, c: Seq<usize>) -> bool {
    &&& c.len() >= 2
    &&& c[0] == c[c.len() - 1]
    &&& is_walk(g, c)
}

/// `c` is a cycle that passes through each of its nodes once (only its first node is
/// repeated, at the end).
pub open spec fn is_simple_cycle(g: Map<usize, Seq<usize>>, c: Seq<usize>) -> bool {
    is_cycle(g, c) && c.drop_last().no_duplicates()
}

/// `g` contains a cycle.
pub open spec fn has_cycle(g: Map<usize, Seq<usize>>) -> bool {
    exists|c: Seq<usize>| is_cycle(g, c)
}

/// Nodes that are the target of some edge of `g` leaving a node of `from`.
pub open spec fn targets(g: Map<usize, Seq<usize>>, from: Set<usize>) -> Set<usize> {
    Set::new(|x: usize| exists|k: usize| from.contains(k) && g.contains_key(k) && #[trigger] g[k].contains(x))
}

/// Every node that occurs in `g`.
pub open spec fn graph_nodes(g: Map<usize, Seq<usize>>) -> Set<usize> {
    g.dom() + targets(g, g.dom())
}

/// Every edge leaving a node of `s` ends in `s`.
pub open spec fn closed_under_edges(g: Map<usize, Seq<usize>>, s: Set<usize>) -> bool {
    forall|u: usize, v: usize| #[trigger] s.contains(u) && #[trigger] edge(g, u, v) ==> s.contains(v)
}

/// `w` leads from `x` into a cycle: a walk from `x` whose last node occurs earlier on it, at `j`.
pub open spec fn is_lasso(g: Map<usize, Seq<usize>>, w: Seq<usize>, j: int, x: usize) -> bool {
    &&& is_walk(g, w)
    &&& w.len() >= 2
    &&& w[0] == x
    &&& 0 <= j < w.len() - 1
    &&& w[j] == w.last()
}

/// Some cycle of `g` can be reached from `x` (`x` itself may lie on it).
pub open spec fn reaches_cycle(g: Map<usize, Seq<usize>>, x: usize) -> bool {
    exists|w: Seq<usize>, j: int| #[trigger] is_lasso(g, w, j, x)
}

/// The finished nodes of a depth-first search: visited, and no longer on the current path.
pub open spec fn finished(visited: Set<usize>, path: Seq<usize>) -> Set<usize> {
    visited.difference(path.to_set())
}

/// No finished node leads into a cycle.
pub open spec fn finished_acyclic(g: Map<usize, Seq<usize>>, visited: Set<usize>, path: Seq<usize>) -> bool {
    forall|x: usize| finished(visited, path).contains(x) ==> !#[trigger] reaches_cycle(g, x)
}

/// Every node reachable from a finished node has been visited.
pub open spec fn finished_reach_visited(g: Map<usize, Seq<usize>>, visited: Set<usize>, path: Seq<usize>) -> bool {
    forall|x: usize, y: usize| finished(visited, path).contains(x) && #[trigger] reaches(g, x, y) ==> visited.contains(y)
}

/// The bookkeeping of a search is consistent: the current path holds no node twice, the
/// recursion-stack set holds exactly its nodes, and they have all been visited.
pub open spec fn search_basics(visited: Set<usize>, rec_stack: Set<usize>, path: Seq<usize>) -> bool {
    &&& path.no_duplicates()
    &&& rec_stack == path.to_set()
    &&& path.to_set().subset_of(visited)
}

/// The search may enter `node` as far as its bookkeeping goes: the state is consistent and
/// `node` is unvisited.
pub open spec fn may_enter_basic(visited: Set<usize>, rec_stack: Set<usize>, path: Seq<usize>, node: usize) -> bool {
    search_basics(visited, rec_stack, path) && !visited.contains(node)
}

/// The search state is fit for cycle finding: consistent bookkeeping, the current path a walk,
/// and no finished node leading into a cycle.
pub open spec fn search_state(
    g: Map<usize, Seq<usize>>,
    visited: Set<usize>,
    rec_stack: Set<usize>,
    path: Seq<usize>,
) -> bool {
    &&& search_basics(visited, rec_stack, path)
    &&& is_walk(g, path)
    &&& finished_acyclic(g, visited, path)
}

/// The search may enter `node` to look for cycles: the state is fit, `node` is unvisited, and
/// it is reached by an edge from the end of the current path.
pub open spec fn may_enter(
    g: Map<usize, Seq<usize>>,
    visited: Set<usize>,
    rec_stack: Set<usize>,
    path: Seq<usize>,
    node: usize,
) -> bool {
    &&& search_state(g, visited, rec_stack, path)
    &&& !visited.contains(node)
    &&& path.len() > 0 ==> edge(g, path.last(), node)
}

/// The targets of edges leaving a finite set of nodes form a finite set.
pub proof fn lemma_targets_finite(g: Map<usize, Seq<usize>>, from: Set<usize>)
    requires
        from.finite(),
    ensures
        targets(g, from).finite(),
    decreases from.len(),
{
    if from.len() == 0 {
        assert(from =~= Set::empty());
        assert(targets(g, from) =~= Set::empty());
    } else {
        let k = from.choose();
        lemma_targets_finite(g, from.remove(k));
        if g.contains_key(k) {
            assert(targets(g, from) =~= targets(g, from.remove(k)) + g[k].to_set());
        } else {
            assert(targets(g, from) =~= targets(g, from.remove(k)));
        }
    }
}

proof fn lemma_graph_nodes_finite(adj: Map<usize, Vec<usize>>)
    requires
        adj.dom().finite(),
    ensures
        graph_nodes(graph_view(adj)).finite(),
{
    let g = graph_view(adj);
    assert(g.dom() =~= adj.dom());
    lemma_targets_finite(g, g.dom());
}

/// A walk that starts inside a set closed under edges stays inside it.
pub proof fn lemma_closed_walk(g: Map<usize, Seq<usize>>, s: Set<usize>, w: Seq<usize>, j: int)
    requires
        closed_under_edges(g, s),
        is_walk(g, w),
        w.len() > 0,
        s.contains(w[0]),
        0 <= j < w.len(),
    ensures
        s.contains(w[j]),
    decreases j,
{
    if j > 0 {
        lemma_closed_walk(g, s, w, j - 1);
        assert(step(g, w, j - 1));
    }
}

/// Appending an element to a sequence adds it to the sequence's set of elements.
pub proof fn lemma_push_to_set_any<T>(s: Seq<T>, x: T)
    ensures
        s.push(x).to_set() == s.to_set().insert(x),
{
    assert forall|y: T| #[trigger] s.push(x).to_set().contains(y) <==> s.to_set().insert(x).contains(y) by {
        if s.push(x).contains(y) {
            let j = choose|j: int| 0 <= j < s.push(x).len() && s.push(x)[j] == y;
            if j < s.len() {
                assert(s[j] == y);
            }
        }
        if s.contains(y) {
            let j = choose|j: int| 0 <= j < s.len() && s[j] == y;
            assert(s.push(x)[j] == y);
        }
        if y == x {
            assert(s.push(x)[s.len() as int] == y);
        }
    }
    assert(s.push(x).to_set() =~= s.to_set().insert(x));
}

/// A node all of whose successors lead into no cycle leads into none itself.
proof fn lemma_no_cycle_past(g: Map<usize, Seq<usize>>, node: usize)
    requires
        forall|v: usize| edge(g, node, v) ==> !#[trigger] reaches_cycle(g, v),
    ensures
        !reaches_cycle(g, node),
{
    if reaches_cycle(g, node) {
        let (w, j) = choose|w: Seq<usize>, j: int| #[trigger] is_lasso(g, w, j, node);
        assert(step(g, w, 0));
        let v = w[1];
        if j >= 1 {
            let w2 = w.drop_first();
            assert forall|i: int| 0 <= i < w2.len() - 1 implies #[trigger] step(g, w2, i) by {
                assert(step(g, w, i + 1));
            }
            assert(is_lasso(g, w2, j - 1, v));
        } else {
            let w2 = w.drop_first().push(v);
            assert forall|i: int| 0 <= i < w2.len() - 1 implies #[trigger] step(g, w2, i) by {
                if i < w2.len() - 2 {
                    assert(step(g, w, i + 1));
                } else {
                    assert(w2[i] == w.last());
                }
            }
            assert(is_lasso(g, w2, 0, v));
        }
        assert(reaches_cycle(g, v));
    }
}

/// Every node reachable from `node` is `node` itself or reachable from one of its successors.
proof fn lemma_reach_past(g: Map<usize, Seq<usize>>, node: usize, y: usize)
    requires
        reaches(g, node, y),
        y != node,
    ensures
        exists|v: usize| edge(g, node, v) && #[trigger] reaches(g, v, y),
{
    let w = choose|w: Seq<usize>| #[trigger] is_walk(g, w) && w.len() > 0 && w[0] == node && w.last() == y;
    assert(w.len() >= 2);
    assert(step(g, w, 0));
    let w2 = w.drop_first();
    assert forall|i: int| 0 <= i < w2.len() - 1 implies #[trigger] step(g, w2, i) by {
        assert(step(g, w, i + 1));
    }
    assert(is_walk(g, w2) && w2.len() > 0 && w2[0] == w[1] && w2.last() == y);
    assert(reaches(g, w[1], y));
}

/// The state a depth-first search works on: the visited nodes, the nodes on the current
/// path as a set (the recursion stack), and the current path.
pub ghost struct DfsState {
    pub visited: Set<usize>,
    pub rec_stack: Set<usize>,
    pub path: Seq<usize>,
}

/// What a depth-first search step gives: the cycle it found, if any, and the state it leaves.
pub ghost struct DfsOutcome {
    pub found: Option<Seq<usize>>,
    pub state: DfsState,
}

/// The cycle a search returned, as a sequence.
pub open spec fn found_view(r: Option<Vec<usize>>) -> Option<Seq<usize>> {
    match r {
        Some(c) => Some(c@),
        None => None,
    }
}

/// A bound on the work left to a search about to enter `node` with `visited` done: twice the
/// unvisited nodes of `g`, plus one unless `node` is itself an unvisited node of `g`.
pub open spec fn search_measure(g: Map<usize, Seq<usize>>, visited: Set<usize>, node: usize) -> nat {
    2 * graph_nodes(g).difference(visited).len()
        + if graph_nodes(g).contains(node) && !visited.contains(node) { 0nat } else { 1nat }
}

/// Position of the first occurrence of `x` in `p`, or -1 when it does not occur.
pub open spec fn first_pos(p: Seq<usize>, x: usize) -> int
    decreases p.len(),
{
    if p.len() == 0 {
        -1
    } else if p[0] == x {
        0
    } else {
        let r = first_pos(p.drop_first(), x);
        if r < 0 { -1 } else { r + 1 }
    }
}

/// `p` without its last node (unchanged when empty).
pub open spec fn pop_last(p: Seq<usize>) -> Seq<usize> {
    if p.len() > 0 { p.drop_last() } else { p }
}

/// Leaving `node`: it comes off the recursion stack and the path, and nothing was found.
pub open spec fn finish_run(st: DfsState, node: usize) -> DfsOutcome {
    DfsOutcome {
        found: None,
        state: DfsState { visited: st.visited, rec_stack: st.rec_stack.remove(node), path: pop_last(st.path) },
    }
}

/// The search entered at `node` from state `st`: `node` is marked visited, put on the
/// recursion stack and the path, and its successors are scanned in order.
pub open spec fn dfs_run(g: Map<usize, Seq<usize>>, st: DfsState, node: usize) -> DfsOutcome
    decreases search_measure(g, st.visited, node), 1nat, 0int
    when graph_nodes(g).finite()
{
    let entered = DfsState {
        visited: st.visited.insert(node),
        rec_stack: st.rec_stack.insert(node),
        path: st.path.push(node),
    };
    if g.contains_key(node) {
        proof {
            lemma_measure_after_entering(g, st.visited, node);
        }
        scan_run(g, entered, node, 0)
    } else {
        finish_run(entered, node)
    }
}

/// The scan of the successors of `node` from position `k` on: an unvisited successor is
/// searched (stopping at a cycle found there); a successor on the recursion stack that occurs
/// on the path closes the cycle from its first occurrence; other successors are passed over.
/// After the last successor, `node` is left.
pub open spec fn scan_run(g: Map<usize, Seq<usize>>, st: DfsState, node: usize, k: int) -> DfsOutcome
    decreases 2 * graph_nodes(g).difference(st.visited).len(), 2nat, g[node].len() - k
    when graph_nodes(g).finite() && g.contains_key(node) && 0 <= k
{
    if k >= g[node].len() {
        finish_run(st, node)
    } else {
        let nb = g[node][k];
        if !st.visited.contains(nb) {
            proof {
                assert(g[node][k] == nb);
                assert(g[node].contains(nb));
                assert(targets(g, g.dom()).contains(nb));
            }
            let o = dfs_run(g, st, nb);
            if o.found is Some {
                o
            } else {
                let merged = DfsState { visited: st.visited + o.state.visited, ..o.state };
                proof {
                    vstd::set_lib::lemma_len_subset(
                        graph_nodes(g).difference(merged.visited),
                        graph_nodes(g).difference(st.visited),
                    );
                    vstd::set_lib::lemma_len_difference(graph_nodes(g), st.visited);
                }
                scan_run(g, merged, node, k + 1)
            }
        } else if st.rec_stack.contains(nb) && first_pos(st.path, nb) >= 0 {
            DfsOutcome {
                found: Some(st.path.subrange(first_pos(st.path, nb), st.path.len() as int).push(nb)),
                state: st,
            }
        } else {
            scan_run(g, st, node, k + 1)
        }
    }
}

/// Entering `node` leaves less work than the bound on entering it.
pub proof fn lemma_measure_after_entering(g: Map<usize, Seq<usize>>, visited: Set<usize>, node: usize)
    requires
        graph_nodes(g).finite(),
    ensures
        2 * graph_nodes(g).difference(visited.insert(node)).len() < search_measure(g, visited, node),
{
    let before = graph_nodes(g).difference(visited);
    let after = graph_nodes(g).difference(visited.insert(node));
    vstd::set_lib::lemma_len_difference(graph_nodes(g), visited);
    vstd::set_lib::lemma_len_subset(after, before);
    if graph_nodes(g).contains(node) && !visited.contains(node) {
        assert(after =~= before.remove(node));
    }
}

proof fn lemma_first_pos(p: Seq<usize>, x: usize, i: int)
    requires
        0 <= i <= p.len(),
        forall|q: int| 0 <= q < i ==> p[q] != x,
        i < p.len() ==> p[i] == x,
    ensures
        first_pos(p, x) == if i < p.len() { i } else { -1 },
    decreases p.len(),
{
    if p.len() > 0 && i > 0 {
        assert forall|q: int| 0 <= q < i - 1 implies p.drop_first()[q] != x by {
            assert(p[q + 1] != x);
        }
        lemma_first_pos(p.drop_first(), x, i - 1);
    }
}

/// Depth-first search from `node` for a cycle, in the manner of [`dfs_run`]: the cycle it
/// returns and the visited set, recursion stack and path it leaves are those of `dfs_run`.
///
/// When nothing is found the path is as it was, and so is the recursion stack when it lay
/// within the visited nodes and did not hold `node`. Entered with consistent bookkeeping, and
/// with every node reachable from a finished node visited, the search leaves every node
/// reachable from `node` visited when it finds nothing. Entered from the end of a walk with no
/// finished node leading into a cycle, a returned path is a simple cycle, and when none is
/// returned no cycle can be reached from `node`.
pub fn dfs_find_cycle(
    node: usize,
    adj: &HashMap<usize, Vec<usize>>,
    visited: &mut HashSet<usize>,
    rec_stack: &mut HashSet<usize>,
    path: &mut Vec<usize>,
) -> (r: Option<Vec<usize>>)
    ensures
        ({
            let out = dfs_run(
                graph_view(adj@),
                DfsState { visited: old(visited)@, rec_stack: old(rec_stack)@, path: old(path)@ },
                node,
            );
            &&& found_view(r) == out.found
            &&& final(visited)@ == out.state.visited
            &&& final(rec_stack)@ == out.state.rec_stack
            &&& final(path)@ == out.state.path
        }),
        old(visited)@.insert(node).subset_of(final(visited)@),
        r is None ==> final(path)@ == old(path)@,
        r is None && old(rec_stack)@.subset_of(old(visited)@) && !old(rec_stack)@.contains(node)
            ==> final(rec_stack)@ == old(rec_stack)@,
        may_enter_basic(old(visited)@, old(rec_stack)@, old(path)@, node) ==> (r is None ==> search_basics(final(visited)@, final(rec_stack)@, final(path)@)),
        may_enter_basic(old(visited)@, old(rec_stack)@, old(path)@, node)
            && finished_reach_visited(graph_view(adj@), old(visited)@, old(path)@) ==> (r is None ==> {
                &&& finished_reach_visited(graph_view(adj@), final(visited)@, final(path)@)
                &&& forall|y: usize| #[trigger] reaches(graph_view(adj@), node, y) ==> final(visited)@.contains(y)
            }),
        may_enter(graph_view(adj@), old(visited)@, old(rec_stack)@, old(path)@, node) ==> {
            &&& r matches Some(c) ==> is_simple_cycle(graph_view(adj@), c@)
            &&& r is None ==> {
                &&& final(path)@ == old(path)@
                &&& final(rec_stack)@ == old(rec_stack)@
                &&& search_state(graph_view(adj@), final(visited)@, final(rec_stack)@, final(path)@)
                &&& !reaches_cycle(graph_view(adj@), node)
            }
        },
    decreases search_measure(graph_view(adj@), old(visited)@, node),
{
    let ghost g = graph_view(adj@);
    let ghost v0 = visited@;
    let ghost p0 = path@;
    let ghost st0 = DfsState { visited: visited@, rec_stack: rec_stack@, path: path@ };
    let ghost pre = may_enter(g, visited@, rec_stack@, path@, node);
    let ghost basic = may_enter_basic(visited@, rec_stack@, path@, node);
    let ghost pre_r = basic && finished_reach_visited(g, visited@, path@);
    let ghost r0 = rec_stack@;
    let ghost tidy = r0.subset_of(v0) && !r0.contains(node);
    proof {
        lemma_graph_nodes_finite(adj@);
    }
    visited.insert(node);
    rec_stack.insert(node);
    path.push(node);
    proof {
        if basic {
            lemma_push_to_set_any(p0, node);
            assert(finished(visited@, path@) =~= finished(v0, p0));
            assert(!p0.contains(node));
        }
        if pre {
            assert forall|i: int| 0 <= i < path@.len() - 1 implies #[trigger] step(g, path@, i) by {
                if i < p0.len() - 1 {
                    assert(step(g, p0, i));
                }
            }
            assert(!p0.contains(node));
        }
    }
    match adj.get(&node) {
        Some(neighbors) => {
            assert(g.contains_key(node) && g[node] == neighbors@);
            assert(dfs_run(g, st0, node) == scan_run(g, DfsState { visited: visited@, rec_stack: rec_stack@, path: path@ }, node, 0));
            let mut k: usize = 0;
            while k < neighbors.len()
                invariant
                    g == graph_view(adj@),
                    v0 == old(visited)@,
                    st0 == (DfsState { visited: old(visited)@, rec_stack: old(rec_stack)@, path: old(path)@ }),
                    pre == may_enter(g, old(visited)@, old(rec_stack)@, old(path)@, node),
                    p0 == old(path)@,
                    graph_nodes(g).finite(),
                    g.contains_key(node),
                    g[node] == neighbors@,
                    k <= neighbors.len(),
                    v0.insert(node).subset_of(visited@),
                    dfs_run(g, st0, node) == scan_run(g, DfsState { visited: visited@, rec_stack: rec_stack@, path: path@ }, node, k as int),
                    pre ==> !p0.contains(node),
                    path@ == p0.push(node),
                    r0 == old(rec_stack)@,
                    tidy == (old(rec_stack)@.subset_of(old(visited)@) && !old(rec_stack)@.contains(node)),
                    tidy ==> rec_stack@ == r0.insert(node),
                    basic == may_enter_basic(old(visited)@, old(rec_stack)@, old(path)@, node),
                    pre_r == (basic && finished_reach_visited(g, old(visited)@, old(path)@)),
                    pre ==> basic,
                    basic ==> !p0.contains(node),
                    basic ==> search_basics(visited@, rec_stack@, path@),
                    pre ==> search_state(g, visited@, rec_stack@, path@),
                    pre_r ==> finished_reach_visited(g, visited@, path@),
                    basic ==> forall|j: int| 0 <= j < k ==> #[trigger] finished(visited@, path@).contains(neighbors@[j]),
                decreases neighbors.len() - k,
            {
                let neighbor = neighbors[k];
                let ghost cur = DfsState { visited: visited@, rec_stack: rec_stack@, path: path@ };
                assert(edge(g, node, neighbor));
                if !visited.contains(&neighbor) {
                    proof {
                        assert(targets(g, g.dom()).contains(neighbor));
                        let before = graph_nodes(g).difference(v0);
                        let now = graph_nodes(g).difference(visited@);
                        vstd::set_lib::lemma_len_difference(graph_nodes(g), v0);
                        assert(now.subset_of(before));
                        vstd::set_lib::lemma_len_subset(now, before);
                        if graph_nodes(g).contains(node) && !v0.contains(node) {
                            assert(now.subset_of(before.remove(node)));
                            vstd::set_lib::lemma_len_subset(now, before.remove(node));
                        }
                        if basic {
                            assert(may_enter_basic(visited@, rec_stack@, path@, neighbor));
                        }
                        if pre {
                            assert(path@.last() == node);
                            assert(may_enter(g, visited@, rec_stack@, path@, neighbor));
                        }
                    }
                    let ghost vb = visited@;
                    match dfs_find_cycle(neighbor, adj, visited, rec_stack, path) {
                        Some(cycle) => {
                            assert(scan_run(g, cur, node, k as int) == dfs_run(g, cur, neighbor));
                            return Some(cycle);
                        },
                        None => {
                            proof {
                                let o = dfs_run(g, cur, neighbor);
                                assert(cur.visited + o.state.visited =~= o.state.visited);
                                if basic {
                                    assert(!path@.contains(neighbor)) by {
                                        assert(!vb.contains(neighbor));
                                        if path@.contains(neighbor) {
                                            assert(path@.to_set().contains(neighbor));
                                        }
                                    }
                                    assert forall|j: int| 0 <= j < k + 1 implies #[trigger] finished(visited@, path@).contains(neighbors@[j]) by {
                                        if j < k {
                                            assert(finished(vb, path@).contains(neighbors@[j]));
                                        }
                                    }
                                }
                            }
                        },
                    }
                } else if rec_stack.contains(&neighbor) {
                    let mut pos: usize = 0;
                    while pos < path.len() && path[pos] != neighbor
                        invariant
                            pos <= path@.len(),
                            forall|q: int| 0 <= q < pos ==> path@[q] != neighbor,
                        decreases path@.len() - pos,
                    {
                        pos = pos + 1;
                    }
                    proof {
                        lemma_first_pos(path@, neighbor, pos as int);
                        if basic && pos >= path@.len() {
                            assert(path@.to_set().contains(neighbor));
                            let q = choose|q: int| 0 <= q < path@.len() && path@[q] == neighbor;
                            assert(path@[q] != neighbor);
                        }
                    }
                    if pos < path.len() {
                        let mut cycle_path: Vec<usize> = Vec::new();
                        let mut q: usize = pos;
                        while q < path.len()
                            invariant
                                pos <= q <= path@.len(),
                                cycle_path@ =~= path@.subrange(pos as int, q as int),
                            decreases path@.len() - q,
                        {
                            cycle_path.push(path[q]);
                            q = q + 1;
                        }
                        cycle_path.push(neighbor);
                        proof {
                            if pre {
                                let c = cycle_path@;
                                assert(c.len() >= 2);
                                assert(c[0] == neighbor);
                                assert forall|i: int| 0 <= i < c.len() - 1 implies #[trigger] step(g, c, i) by {
                                    if i < c.len() - 2 {
                                        assert(step(g, path@, pos + i));
                                    } else {
                                        assert(c[i] == path@.last());
                                    }
                                }
                                assert(c.drop_last() =~= path@.subrange(pos as int, path@.len() as int));
                                assert forall|a: int, b: int| 0 <= a < b < c.drop_last().len()
                                    implies c.drop_last()[a] != c.drop_last()[b] by {
                                    assert(path@[pos + a] != path@[pos + b]);
                                }
                            }
                        }
                        return Some(cycle_path);
                    }
                } else {
                    proof {
                        if basic {
                            assert(!path@.to_set().contains(neighbor));
                        }
                    }
                }
                k = k + 1;
            }
            proof {
                if basic {
                    assert forall|v: usize| edge(g, node, v) implies #[trigger] finished(visited@, path@).contains(v) by {
                        let j = choose|j: int| 0 <= j < neighbors@.len() && neighbors@[j] == v;
                        assert(finished(visited@, path@).contains(neighbors@[j]));
                    }
                }
            }
        },
        None => {
            assert(!g.contains_key(node));
        },
    }
    proof {
        if basic {
            assert(visited@.contains(node));
            assert(search_basics(visited@, rec_stack@, path@));
            assert(path@ == p0.push(node));
            assert forall|v: usize| edge(g, node, v) implies #[trigger] finished(visited@, path@).contains(v) by {
                if g.contains_key(node) {
                    let j = choose|j: int| 0 <= j < g[node].len() && g[node][j] == v;
                    assert(g[node][j] == v);
                }
            }
        }
        if pre {
            assert forall|v: usize| edge(g, node, v) implies !#[trigger] reaches_cycle(g, v) by {
                assert(finished(visited@, path@).contains(v));
            }
            lemma_no_cycle_past(g, node);
        }
        if pre_r {
            assert forall|y: usize| #[trigger] reaches(g, node, y) implies visited@.contains(y) by {
                if y != node {
                    lemma_reach_past(g, node, y);
                    let v = choose|v: usize| edge(g, node, v) && #[trigger] reaches(g, v, y);
                    assert(finished(visited@, path@).contains(v));
                }
            }
        }
    }
    let ghost vf = visited@;
    let ghost pf = path@;
    rec_stack.remove(&node);
    path.pop();
    proof {
        assert(path@ =~= p0);
        if tidy {
            assert(rec_stack@ =~= r0);
        }
        if basic {
            lemma_push_to_set_any(p0, node);
            assert(finished(vf, p0) =~= finished(vf, pf).insert(node));
            assert(rec_stack@ =~= p0.to_set());
            assert(p0.to_set().subset_of(visited@)) by {
                assert forall|x: usize| p0.to_set().contains(x) implies visited@.contains(x) by {
                    let j = choose|j: int| 0 <= j < p0.len() && p0[j] == x;
                    assert(pf[j] == x);
                }
            }
        }
        if pre {
            assert forall|i: int| 0 <= i < p0.len() - 1 implies #[trigger] step(g, p0, i) by {
                assert(step(g, pf, i));
            }
            assert forall|x: usize| finished(visited@, path@).contains(x) implies !#[trigger] reaches_cycle(g, x) by {
                if x != node {
                    assert(finished(vf, pf).contains(x));
                }
            }
        }
        if pre_r {
            assert forall|x: usize, y: usize| finished(visited@, path@).contains(x) && #[trigger] reaches(g, x, y)
                implies visited@.contains(y) by {
                if x != node {
                    assert(finished(vf, pf).contains(x));
                }
            }
        }
    }
    None
}

/// Every thought number that occurs in the list is a node with successors in its dependency graph.
proof fn lemma_dependency_graph_dom(ts: Seq<ThoughtView>, k: usize)
    ensures
        dependency_graph(ts).contains_key(k) <==> exists|j: int| 0 <= j < ts.len() && #[trigger] ts[j].thought_number == k,
    decreases ts.len(),
{
    if ts.len() > 0 {
        lemma_dependency_graph_dom(ts.drop_last(), k);
        if dependency_graph(ts.drop_last()).contains_key(k) {
            let j = choose|j: int| 0 <= j < ts.drop_last().len() && #[trigger] ts.drop_last()[j].thought_number == k;
            assert(ts[j].thought_number == k);
        }
        if exists|j: int| 0 <= j < ts.len() && #[trigger] ts[j].thought_number == k {
            let j = choose|j: int| 0 <= j < ts.len() && #[trigger] ts[j].thought_number == k;
            if j < ts.len() - 1 {
                assert(ts.drop_last()[j].thought_number == k);
            }
        }
    }
}

/// Finds a cycle among the dependencies between thoughts (merge parents, branch origins and
/// revised thoughts), returning the thought numbers along it with the first repeated at the end.
pub fn detect_cycle(thoughts: &[ThoughtData]) -> (r: Option<Vec<usize>>)
    ensures
        r is Some <==> has_cycle(dependency_graph(thoughts_view(thoughts@))),
        r matches Some(c) ==> is_simple_cycle(dependency_graph(thoughts_view(thoughts@)), c@),
{
    let ghost tv = thoughts_view(thoughts@);
    let mut adj: HashMap<usize, Vec<usize>> = HashMap::new();
    let mut i: usize = 0;
    while i < thoughts.len()
        invariant
            i <= thoughts@.len(),
            tv == thoughts_view(thoughts@),
            graph_view(adj@) == dependency_graph(tv.take(i as int)),
        decreases thoughts@.len() - i,
    {
        let t = &thoughts[i];
        let deps = t.dependencies();
        let ghost before = adj@;
        adj.insert(t.thought_number, deps);
        proof {
            assert(tv.take(i + 1).drop_last() =~= tv.take(i as int));
            assert(tv.take(i + 1).last() == thoughts@[i as int]@);
            assert(graph_view(adj@) =~= graph_view(before).insert(t.thought_number, deps@));
        }
        i = i + 1;
    }
    let ghost g = graph_view(adj@);
    proof {
        assert(tv.take(thoughts@.len() as int) =~= tv);
    }
    let mut visited: HashSet<usize> = HashSet::new();
    let mut rec_stack: HashSet<usize> = HashSet::new();
    let mut path: Vec<usize> = Vec::new();
    proof {
        assert(path@.to_set() =~= Set::empty());
        assert(finished(visited@, path@) =~= Set::empty());
    }
    let mut j: usize = 0;
    while j < thoughts.len()
        invariant
            j <= thoughts@.len(),
            tv == thoughts_view(thoughts@),
            g == graph_view(adj@),
            g == dependency_graph(tv),
            path@ == Seq::<usize>::empty(),
            search_state(g, visited@, rec_stack@, path@),
            forall|q: int| 0 <= q < j ==> #[trigger] visited@.contains(thoughts@[q].thought_number),
        decreases thoughts@.len() - j,
    {
        let node = thoughts[j].thought_number;
        if !visited.contains(&node) {
            let ghost vb = visited@;
            match dfs_find_cycle(node, &adj, &mut visited, &mut rec_stack, &mut path) {
                Some(cycle) => {
                    return Some(cycle);
                },
                None => {
                    assert forall|q: int| 0 <= q < j + 1 implies #[trigger] visited@.contains(thoughts@[q].thought_number) by {
                        if q < j {
                            assert(vb.contains(thoughts@[q].thought_number));
                        }
                    }
                },
            }
        }
        j = j + 1;
    }
    proof {
        assert(path@.to_set() =~= Set::empty());
        assert(finished(visited@, path@) =~= visited@);
        assert forall|c: Seq<usize>| !is_cycle(g, c) by {
            if is_cycle(g, c) {
                assert(step(g, c, 0));
                lemma_dependency_graph_dom(tv, c[0]);
                let q = choose|q: int| 0 <= q < tv.len() && #[trigger] tv[q].thought_number == c[0];
                assert(visited@.contains(thoughts@[q].thought_number));
                assert(is_lasso(g, c, 0, c[0]));
                assert(reaches_cycle(g, c[0]));
                assert(finished(visited@, path@).contains(c[0]));
            }
        }
    }
    None
}

/// The confidence scores present in a history, in order.
pub open spec fn present_confidences(ts: Seq<ThoughtView>) -> Seq<u64>
    decreases ts.len(),
{
    if ts.len() == 0 {
        Seq::empty()
    } else {
        present_confidences(ts.drop_last()) + match ts.last().confidence_score {
            Some(c) => seq![c],
            None => Seq::empty(),
        }
    }
}

/// The bit patterns of the confidence scores present in `thoughts`, in order.
pub fn collect_confidences(thoughts: &[ThoughtData]) -> (r: Vec<u64>)
    ensures
        r@ == present_confidences(thoughts_view(thoughts@)),
{
    let ghost tv = thoughts_view(thoughts@);
    let mut r: Vec<u64> = Vec::new();
    let mut i: usize = 0;
    assert(tv.take(0) =~= Seq::<ThoughtView>::empty());
    while i < thoughts.len()
        invariant
            i <= thoughts@.len(),
            tv == thoughts_view(thoughts@),
            r@ == present_confidences(tv.take(i as int)),
        decreases thoughts@.len() - i,
    {
        let ghost before = r@;
        match thoughts[i].confidence_score {
            Some(c) => r.push(c),
            None => {},
        }
        proof {
            assert(tv.take(i + 1).drop_last() =~= tv.take(i as int));
            assert(tv.take(i + 1).last() == thoughts@[i as int]@);
            assert(r@ =~= present_confidences(tv.take(i + 1)));
        }
        i = i + 1;
    }
    assert(tv.take(thoughts@.len() as int) =~= tv);
    r
}

/// The exact facts of a session's quality evaluation. The numeric score and grade are
/// derived from them and from the confidence scores.
pub struct QualityReport {
    pub session_id: String,
    pub total_thoughts: usize,
    pub confidence_scores: Vec<u64>,
    pub assumptions_count: usize,
    pub verified_assumptions_count: usize,
    pub contradictions_count: usize,
    pub contradictions: Vec<String>,
    pub loop_detected: bool,
    pub loop_path: Option<Vec<usize>>,
}

/// Declared assumptions that some outcome refutes.
pub open spec fn contradicted_set(tv: Seq<ThoughtView>) -> Set<Seq<char>> {
    assumed_set(tv).filter(|x: Seq<char>| refuted_set(tv).contains(x))
}

/// Declared assumptions that some outcome confirms or refutes.
pub open spec fn checked_set(tv: Seq<ThoughtView>) -> Set<Seq<char>> {
    assumed_set(tv).filter(|x: Seq<char>| confirmed_set(tv).contains(x) || refuted_set(tv).contains(x))
}

/// The tail of a quality-report contradiction message.
pub open spec fn declared_tail() -> Seq<char> {
    "' is declared but refuted/falsified."@
}

/// `r` is the quality evaluation of session `session_id` with history `tv`.
pub open spec fn reports_quality(r: QualityReport, session_id: Seq<char>, tv: Seq<ThoughtView>) -> bool {
    let assumed = assumed_set(tv);
    &&& r.session_id@ == session_id
    &&& r.total_thoughts == tv.len()
    &&& r.confidence_scores@ == present_confidences(tv)
    &&& r.assumptions_count == assumed.len()
    &&& r.verified_assumptions_count == checked_set(tv).len()
    &&& exists|l: Seq<Seq<char>>| #[trigger] enumerates(l, contradicted_set(tv))
        && strs_view(r.contradictions) == l.map_values(|a: Seq<char>| contradiction_message(a, declared_tail()))
    &&& r.contradictions_count == r.contradictions@.len()
    &&& r.loop_detected == has_cycle(dependency_graph(tv))
    &&& r.loop_path is Some == r.loop_detected
    &&& r.loop_path matches Some(c) ==> is_simple_cycle(dependency_graph(tv), c@)
}

/// Evaluates the thought graph: assumption counts, contradictions between declared and
/// refuted assumptions, and dependency loops.
pub fn calculate_quality(session_id: &str, thoughts: &[ThoughtData]) -> (r: QualityReport)
    ensures
        reports_quality(r, session_id@, thoughts_view(thoughts@)),
{
    let ghost tv = thoughts_view(thoughts@);
    let facts = assumption_facts(thoughts);
    let none: Vec<String> = Vec::new();
    assert(strs_view(none) =~= Seq::<Seq<char>>::empty());
    let checked = select_members(&facts.assumed, &facts.confirmed, &facts.refuted, true);
    let clashing = select_members(&facts.assumed, &facts.refuted, &none, true);
    let contradictions = contradiction_messages(&clashing, "' is declared but refuted/falsified.");
    proof {
        strs_view(facts.assumed).unique_seq_to_set();
        strs_view(checked).unique_seq_to_set();
        let assumed = assumed_set(tv);
        assert(strs_view(clashing).to_set() =~= contradicted_set(tv));
        assert(strs_view(checked).to_set() =~= checked_set(tv));
        assert(enumerates(strs_view(clashing), contradicted_set(tv)));
    }
    let loop_path = detect_cycle(thoughts);
    QualityReport {
        session_id: String::from_str(session_id),
        total_thoughts: thoughts.len(),
        confidence_scores: collect_confidences(thoughts),
        assumptions_count: facts.assumed.len(),
        verified_assumptions_count: checked.len(),
        contradictions_count: contradictions.len(),
        contradictions,
        loop_detected: loop_path.is_some(),
        loop_path,
    }
}

/// An outcome whose normalized text mentions "false" is a refutation: it refutes the
/// assumption it names (its text without the markers) and confirms nothing. So when that
/// assumption was declared, it is counted as checked and reported as a contradiction, with
/// its message among the report's contradictions.
pub proof fn lemma_false_outcome_refutes(r: QualityReport, sid: Seq<char>, tv: Seq<ThoughtView>, i: int)
    requires
        reports_quality(r, sid, tv),
        0 <= i < all_verifications(tv).len(),
        contains_text(normalize(all_verifications(tv)[i]), "false"@),
        assumed_set(tv).contains(refuted_core(normalize(all_verifications(tv)[i]))),
    ensures
        ({
            let v = all_verifications(tv)[i];
            let x = refuted_core(normalize(v));
            &&& forall|y: Seq<char>| !#[trigger] confirms(v, y)
            &&& refuted_set(tv).contains(x)
            &&& contradicted_set(tv).contains(x)
            &&& checked_set(tv).contains(x)
            &&& strs_view(r.contradictions).contains(contradiction_message(x, declared_tail()))
            &&& r.contradictions_count >= 1
            &&& r.verified_assumptions_count >= 1
        }),
{
    let vs = all_verifications(tv);
    let v = vs[i];
    let x = refuted_core(normalize(v));
    assert(refutes(vs[i], x));
    assert(refuted_by(vs, vs.len() as int).contains(x));
    assert(contradicted_set(tv).contains(x));
    assert(checked_set(tv).contains(x));
    let l = choose|l: Seq<Seq<char>>| #[trigger] enumerates(l, contradicted_set(tv))
        && strs_view(r.contradictions) == l.map_values(|a: Seq<char>| contradiction_message(a, declared_tail()));
    assert(l.to_set().contains(x));
    let k = choose|k: int| 0 <= k < l.len() && l[k] == x;
    assert(strs_view(r.contradictions)[k] == contradiction_message(x, declared_tail()));
    assert(r.contradictions@.len() == strs_view(r.contradictions).len());
    let assumed = assumed_set(tv);
    assert(assumed.finite());
    vstd::set_lib::lemma_len_subset(checked_set(tv), assumed);
    assert(checked_set(tv).remove(x).len() + 1 == checked_set(tv).len());
}

} // verus!
