//! Which thoughts the final conclusion descends from, and which lie on abandoned branches.

use vstd::prelude::*;
use std::collections::HashSet;
use crate::graph::quality::{edge, step, is_walk, closed_under_edges, graph_nodes, targets};
use crate::types::{ThoughtData, ThoughtView, thoughts_view};

verus! {

broadcast use vstd::std_specs::hash::group_hash_axioms;

/// Position of the first thought numbered `n`, or -1 when there is none.
pub open spec fn first_index(ts: Seq<ThoughtView>, n: usize) -> int
    decreases ts.len(),
{
    if ts.len() == 0 {
        -1
    } else if ts[0].thought_number == n {
        0
    } else {
        let r = first_index(ts.drop_first(), n);
        if r < 0 { -1 } else { r + 1 }
    }
}

/// The thoughts a thought builds on: its dependencies, and, for a plain thought (no merge
/// parents, no branch origin, not a revision) numbered above 1, the thought numbered just before it.
pub open spec fn back_links(t: ThoughtView) -> Seq<usize> {
    t.dependencies() + (
        if t.parent_thoughts is None && t.branch_from_thought is None && !t.revision() && t.thought_number > 1 {
            seq![(t.thought_number - 1) as usize]
        } else {
            Seq::empty()
        })
}

/// The lineage graph: each thought number leads to the back links of the first thought
/// carrying it.
pub open spec fn lineage_graph(ts: Seq<ThoughtView>) -> Map<usize, Seq<usize>> {
    Map::new(|n: usize| first_index(ts, n) >= 0, |n: usize| back_links(ts[first_index(ts, n)]))
}

/// `n` is reached from `s` by following edges of `g` (every node reaches itself).
pub open spec fn reaches(g: Map<usize, Seq<usize>>, s: usize, n: usize) -> bool {
    exists|w: Seq<usize>| #[trigger] is_walk(g, w) && w.len() > 0 && w[0] == s && w.last() == n
}

/// The thoughts of `ts` whose number is outside `alive`, in order.
pub open spec fn outside(ts: Seq<ThoughtView>, alive: spec_fn(usize) -> bool) -> Seq<ThoughtView>
    decreases ts.len(),
{
    if ts.len() == 0 {
        Seq::empty()
    } else {
        outside(ts.drop_last(), alive) + (if alive(ts.last().thought_number) { Seq::empty() } else { seq![ts.last()] })
    }
}

/// Thoughts the final thought does not build on, directly or through other thoughts.
pub open spec fn dead_branch_thoughts(ts: Seq<ThoughtView>) -> Seq<ThoughtView> {
    if ts.len() == 0 {
        Seq::empty()
    } else {
        outside(ts, |n: usize| reaches(lineage_graph(ts), ts.last().thought_number, n))
    }
}

proof fn lemma_first_index(ts: Seq<ThoughtView>, n: usize)
    ensures
        -1 <= first_index(ts, n) < ts.len(),
        first_index(ts, n) >= 0 ==> ts[first_index(ts, n)].thought_number == n,
        first_index(ts, n) >= 0 ==> forall|j: int| 0 <= j < first_index(ts, n) ==> #[trigger] ts[j].thought_number != n,
        first_index(ts, n) < 0 ==> forall|j: int| 0 <= j < ts.len() ==> #[trigger] ts[j].thought_number != n,
    decreases ts.len(),
{
    if ts.len() > 0 && ts[0].thought_number != n {
        lemma_first_index(ts.drop_first(), n);
        assert forall|j: int| 0 < j < ts.len() implies #[trigger] ts[j] == ts.drop_first()[j - 1] by {}
    }
}

/// The back links of the first thought numbered `n` (empty when there is none).
fn back_links_of(thoughts: &Vec<ThoughtData>, n: usize) -> (r: Vec<usize>)
    ensures
        lineage_graph(thoughts_view(thoughts@)).contains_key(n) ==> r@ == lineage_graph(thoughts_view(thoughts@))[n],
        !lineage_graph(thoughts_view(thoughts@)).contains_key(n) ==> r@.len() == 0,
{
    let ghost tv = thoughts_view(thoughts@);
    proof {
        lemma_first_index(tv, n);
    }
    let mut i: usize = 0;
    while i < thoughts.len()
        invariant
            i <= thoughts@.len(),
            tv == thoughts_view(thoughts@),
            forall|j: int| 0 <= j < i ==> #[trigger] tv[j].thought_number != n,
        decreases thoughts@.len() - i,
    {
        if thoughts[i].thought_number == n {
            let t = &thoughts[i];
            proof {
                lemma_first_index(tv, n);
                assert(tv[i as int] == t@);
                let f = first_index(tv, n);
                if f != i {
                    if f < 0 {
                        assert(tv[i as int].thought_number != n);
                    } else if f < i {
                        assert(tv[f].thought_number != n);
                    } else {
                        assert(tv[i as int].thought_number != n);
                    }
                }
            }
            let mut links = t.dependencies();
            let ghost deps = links@;
            if t.parent_thoughts.is_none() && t.branch_from_thought.is_none() && !t.is_revision_flag() && t.thought_number > 1 {
                links.push(t.thought_number - 1);
            }
            assert(links@ =~= back_links(t@));
            return links;
        }
        i = i + 1;
    }
    proof {
        lemma_first_index(tv, n);
        let f = first_index(tv, n);
        if f >= 0 {
            assert(tv[f].thought_number != n);
        }
    }
    Vec::new()
}

proof fn lemma_lineage_nodes_finite(tv: Seq<ThoughtView>)
    ensures
        graph_nodes(lineage_graph(tv)).finite(),
{
    let g = lineage_graph(tv);
    assert(g.dom().subset_of(tv.map_values(|t: ThoughtView| t.thought_number).to_set())) by {
        assert forall|n: usize| g.dom().contains(n) implies tv.map_values(|t: ThoughtView| t.thought_number).to_set().contains(n) by {
            lemma_first_index(tv, n);
            let f = first_index(tv, n);
            assert(tv.map_values(|t: ThoughtView| t.thought_number)[f] == n);
        }
    }
    vstd::set_lib::lemma_set_subset_finite(tv.map_values(|t: ThoughtView| t.thought_number).to_set(), g.dom());
    crate::graph::quality::lemma_targets_finite(g, g.dom());
}

/// The thought numbers the final thought builds on, directly or through other thoughts
/// (itself included).
pub fn main_chain(thoughts: &Vec<ThoughtData>) -> (r: HashSet<usize>)
    requires
        thoughts@.len() > 0,
    ensures
        forall|n: usize| r@.contains(n) <==> reaches(lineage_graph(thoughts_view(thoughts@)), thoughts@.last().thought_number, n),
{
    let ghost tv = thoughts_view(thoughts@);
    let ghost g = lineage_graph(tv);
    let start = thoughts[thoughts.len() - 1].thought_number;
    let ghost universe = graph_nodes(g).insert(start);
    proof {
        lemma_lineage_nodes_finite(tv);
        assert(universe.finite());
        let w = seq![start];
        assert(is_walk(g, w));
        assert(tv.last() == thoughts@.last()@);
    }
    let mut chain: HashSet<usize> = HashSet::new();
    let mut queue: Vec<usize> = Vec::new();
    queue.push(start);
    assert(queue@[0] == start);
    while queue.len() > 0
        invariant
            tv == thoughts_view(thoughts@),
            g == lineage_graph(tv),
            universe == graph_nodes(g).insert(start),
            universe.finite(),
            start == thoughts@.last().thought_number,
            chain@.subset_of(universe),
            forall|q: int| 0 <= q < queue@.len() ==> universe.contains(#[trigger] queue@[q]),
            forall|n: usize| chain@.contains(n) ==> #[trigger] reaches(g, start, n),
            forall|q: int| 0 <= q < queue@.len() ==> #[trigger] reaches(g, start, queue@[q]),
            chain@.contains(start) || queue@.contains(start),
            forall|u: usize, v: usize| chain@.contains(u) && #[trigger] edge(g, u, v) ==> chain@.contains(v) || queue@.contains(v),
        decreases universe.difference(chain@).len(), queue@.len(),
    {
        let ghost qold = queue@;
        let tn = queue.pop().unwrap();
        let ghost qrest = queue@;
        assert(qold =~= qrest.push(tn));
        assert(qold[qrest.len() as int] == tn);
        assert(reaches(g, start, tn));
        assert(universe.contains(tn));
        if !chain.contains(&tn) {
            let ghost before = chain@;
            chain.insert(tn);
            let links = back_links_of(thoughts, tn);
            proof {
                vstd::set_lib::lemma_len_subset(universe.difference(chain@), universe.difference(before).remove(tn));
                assert(universe.difference(chain@) =~= universe.difference(before).remove(tn));
            }
            let mut k: usize = 0;
            while k < links.len()
                invariant
                    tv == thoughts_view(thoughts@),
                    g == lineage_graph(tv),
                    universe == graph_nodes(g).insert(start),
                    universe.finite(),
                    chain@.contains(tn),
                    reaches(g, start, tn),
                    g.contains_key(tn) ==> links@ == g[tn],
                    !g.contains_key(tn) ==> links@.len() == 0,
                    k <= links@.len(),
                    chain@.subset_of(universe),
                    queue@.len() == qrest.len() + k,
                    forall|q: int| 0 <= q < qrest.len() ==> queue@[q] == qrest[q],
                    forall|q: int| 0 <= q < k ==> queue@[qrest.len() + q] == links@[q],
                    forall|q: int| 0 <= q < queue@.len() ==> universe.contains(#[trigger] queue@[q]),
                    forall|q: int| 0 <= q < queue@.len() ==> #[trigger] reaches(g, start, queue@[q]),
                decreases links@.len() - k,
            {
                let v = links[k];
                proof {
                    assert(edge(g, tn, v));
                    assert(targets(g, g.dom()).contains(v));
                    let w = choose|w: Seq<usize>| #[trigger] is_walk(g, w) && w.len() > 0 && w[0] == start && w.last() == tn;
                    let w2 = w.push(v);
                    assert forall|i: int| 0 <= i < w2.len() - 1 implies #[trigger] step(g, w2, i) by {
                        if i < w.len() - 1 {
                            assert(step(g, w, i));
                        }
                    }
                    assert(is_walk(g, w2));
                }
                queue.push(v);
                k = k + 1;
            }
            proof {
                assert forall|u: usize, v: usize| chain@.contains(u) && #[trigger] edge(g, u, v) implies chain@.contains(v) || queue@.contains(v) by {
                    if u == tn {
                        let j = choose|j: int| 0 <= j < links@.len() && links@[j] == v;
                        assert(queue@[qrest.len() + j] == v);
                    } else {
                        assert(before.contains(u));
                        if !chain@.contains(v) {
                            // v was queued before this step, and is still queued
                            assert(qold.contains(v));
                            let j = choose|j: int| 0 <= j < qold.len() && qold[j] == v;
                            if j < qrest.len() {
                                assert(queue@[j] == v);
                            }
                        }
                    }
                }
                if !chain@.contains(start) {
                    assert(qold.contains(start));
                    let j = choose|j: int| 0 <= j < qold.len() && qold[j] == start;
                    if j < qrest.len() {
                        assert(queue@[j] == start);
                    }
                }
            }
        } else {
            proof {
                assert forall|u: usize, v: usize| chain@.contains(u) && #[trigger] edge(g, u, v) implies chain@.contains(v) || queue@.contains(v) by {
                    if !chain@.contains(v) {
                        assert(qold.contains(v));
                        let j = choose|j: int| 0 <= j < qold.len() && qold[j] == v;
                        if j < qrest.len() {
                            assert(queue@[j] == v);
                        } else {
                            assert(v == tn);
                        }
                    }
                }
                if !chain@.contains(start) {
                    assert(qold.contains(start));
                    let j = choose|j: int| 0 <= j < qold.len() && qold[j] == start;
                    if j < qrest.len() {
                        assert(queue@[j] == start);
                    }
                }
            }
        }
    }
    proof {
        assert(closed_under_edges(g, chain@)) by {
            assert forall|u: usize, v: usize| #[trigger] chain@.contains(u) && #[trigger] edge(g, u, v) implies chain@.contains(v) by {
                assert(!queue@.contains(v));
            }
        }
        assert forall|n: usize| reaches(g, start, n) implies chain@.contains(n) by {
            let w = choose|w: Seq<usize>| #[trigger] is_walk(g, w) && w.len() > 0 && w[0] == start && w.last() == n;
            crate::graph::quality::lemma_closed_walk(g, chain@, w, w.len() - 1);
        }
    }
    chain
}

/// The thoughts the final thought does not build on, in history order.
pub fn dead_branches(thoughts: &Vec<ThoughtData>) -> (r: Vec<ThoughtData>)
    ensures
        thoughts_view(r@) == dead_branch_thoughts(thoughts_view(thoughts@)),
{
    let ghost tv = thoughts_view(thoughts@);
    if thoughts.len() == 0 {
        let r: Vec<ThoughtData> = Vec::new();
        assert(thoughts_view(r@) =~= Seq::<ThoughtView>::empty());
        return r;
    }
    let chain = main_chain(thoughts);
    let ghost alive = |n: usize| reaches(lineage_graph(tv), tv.last().thought_number, n);
    proof {
        assert(tv.last() == thoughts@.last()@);
    }
    let mut r: Vec<ThoughtData> = Vec::new();
    let mut i: usize = 0;
    assert(thoughts_view(r@) =~= outside(tv.take(0), alive));
    while i < thoughts.len()
        invariant
            i <= thoughts@.len(),
            tv == thoughts_view(thoughts@),
            tv.len() > 0,
            alive == (|n: usize| reaches(lineage_graph(tv), tv.last().thought_number, n)),
            forall|n: usize| chain@.contains(n) <==> alive(n),
            thoughts_view(r@) == outside(tv.take(i as int), alive),
        decreases thoughts@.len() - i,
    {
        let ghost before = thoughts_view(r@);
        if !chain.contains(&thoughts[i].thought_number) {
            r.push(thoughts[i].duplicate());
        }
        proof {
            assert(tv.take(i + 1).drop_last() =~= tv.take(i as int));
            assert(tv.take(i + 1).last() == thoughts@[i as int]@);
            assert(thoughts_view(r@) =~= outside(tv.take(i + 1), alive));
        }
        i = i + 1;
    }
    assert(tv.take(thoughts@.len() as int) =~= tv);
    r
}

/// A thought with a branch origin, a merge-parent list or the revision flag builds only on
/// its dependencies (merge parents, branch origin, revised thought): it is never linked to
/// the thought numbered just before it unless that thought is one of them. In the lineage
/// graph, the thoughts reached in one step from such a thought are exactly its dependencies.
pub proof fn lemma_branch_links_only_dependencies(ts: Seq<ThoughtView>, i: int)
    requires
        0 <= i < ts.len(),
        first_index(ts, ts[i].thought_number) == i,
        ts[i].branch_from_thought is Some || ts[i].parent_thoughts is Some || ts[i].revision(),
    ensures
        back_links(ts[i]) == ts[i].dependencies(),
        lineage_graph(ts).contains_key(ts[i].thought_number),
        lineage_graph(ts)[ts[i].thought_number] == ts[i].dependencies(),
        forall|v: usize| #[trigger] edge(lineage_graph(ts), ts[i].thought_number, v) <==> ts[i].dependencies().contains(v),
{
    assert(back_links(ts[i]) =~= ts[i].dependencies());
}

} // verus!
