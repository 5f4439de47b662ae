//! Summary and timeline of a reasoning session.

use vstd::prelude::*;
use crate::graph::assumptions::{enumerates, unverified_assumptions, unverified_set};
use crate::graph::quality::{collect_confidences, present_confidences};
use crate::persistence::ThoughtStore;
use crate::server::{SequentialThinkingServer, branches_view};
use crate::text::{decimal, join, push_decimal, push_str, contains_text, lemma_join_contains};
use crate::tools::{open_session, query_session, no_session_message};
use crate::types::{ThoughtData, ThoughtView, thoughts_view, strs_view, copy_strings};

verus! {

/// The `summarize_reasoning` tool.
#[derive(Clone, Copy, Debug, PartialEq, Eq, Structural)]
pub struct SummarizeReasoningTool;

/// A summary of a session; the average confidence is derived from `confidence_scores`.
pub struct ReasoningSummary {
    pub session_id: String,
    pub total_thoughts: usize,
    pub total_branches: usize,
    pub merge_points: Vec<usize>,
    pub confidence_scores: Vec<u64>,
    pub unverified_assumptions: Vec<String>,
    pub open_todos: Vec<String>,
    pub timeline: String,
}

/// The numbers of the thoughts that merge more than one parent, in order.
pub open spec fn merge_points(ts: Seq<ThoughtView>) -> Seq<usize>
    decreases ts.len(),
{
    if ts.len() == 0 {
        Seq::empty()
    } else {
        merge_points(ts.drop_last()) + (
            if ts.last().parent_thoughts is Some && ts.last().parents().len() > 1 { seq![ts.last().thought_number] } else { Seq::empty() })
    }
}

/// "T" followed by each parent number, joined by "+".
pub open spec fn parent_labels(ps: Seq<usize>) -> Seq<Seq<char>> {
    ps.map_values(|p: usize| "T"@ + decimal(p as nat))
}

/// How a thought appears on the timeline: "T<n>", annotated with its branch (identifier,
/// "unknown" when it has none, and origin), else with the parents it merges when it has
/// more than one, else, for a revision without parents, with the thought it revises (0 when unnamed).
pub open spec fn timeline_entry(t: ThoughtView) -> Seq<char> {
    "T"@ + decimal(t.thought_number as nat) + (
        match t.branch_from_thought {
            Some(b) => "(branch:"@ + (match t.branch_id { Some(id) => id, None => "unknown"@ }) + ", from:T"@ + decimal(b as nat) + ")"@,
            None => match t.parent_thoughts {
                Some(ps) => if ps.len() > 1 { "(merge:"@ + join(parent_labels(ps), "+"@) + ")"@ } else { Seq::empty() },
                None => if t.revision() {
                    "(revises:T"@ + decimal((match t.revises_thought { Some(r) => r, None => 0usize }) as nat) + ")"@
                } else {
                    Seq::empty()
                },
            },
        })
}

/// The timeline of a history: its entries joined by " → ".
pub open spec fn timeline(ts: Seq<ThoughtView>) -> Seq<char> {
    join(ts.map_values(|t: ThoughtView| timeline_entry(t)), " → "@)
}

/// The open items of the last thought (none for an empty history).
pub open spec fn open_todos(ts: Seq<ThoughtView>) -> Seq<Seq<char>> {
    if ts.len() == 0 {
        Seq::empty()
    } else {
        match ts.last().left_to_be_done { Some(l) => l, None => Seq::empty() }
    }
}

/// `s` summarizes session `sid` with history `h` and `nb` branches.
pub open spec fn summarizes(s: ReasoningSummary, sid: Seq<char>, h: Seq<ThoughtView>, nb: nat) -> bool {
    &&& s.session_id@ == sid
    &&& s.total_thoughts == h.len()
    &&& s.total_branches == nb
    &&& s.merge_points@ == merge_points(h)
    &&& s.confidence_scores@ == present_confidences(h)
    &&& enumerates(strs_view(s.unverified_assumptions), unverified_set(h))
    &&& strs_view(s.open_todos) == open_todos(h)
    &&& s.timeline@ == timeline(h)
}

fn push_entry(out: &mut String, t: &ThoughtData)
    ensures
        final(out)@ == old(out)@ + timeline_entry(t@),
{
    let ghost base = out@;
    push_str(out, "T");
    push_decimal(out, t.thought_number);
    let ghost head = out@;
    match t.branch_from_thought {
        Some(b) => {
            push_str(out, "(branch:");
            match &t.branch_id {
                Some(id) => push_str(out, id.as_str()),
                None => push_str(out, "unknown"),
            }
            push_str(out, ", from:T");
            push_decimal(out, b);
            push_str(out, ")");
        },
        None => match &t.parent_thoughts {
            Some(ps) => {
                if ps.len() > 1 {
                    push_str(out, "(merge:");
                    let ghost pre = out@;
                    let mut k: usize = 0;
                    while k < ps.len()
                        invariant
                            k <= ps@.len(),
                            out@ == pre + join(parent_labels(ps@.take(k as int)), "+"@),
                        decreases ps@.len() - k,
                    {
                        let ghost labels = parent_labels(ps@.take(k + 1));
                        assert(labels.drop_last() =~= parent_labels(ps@.take(k as int)));
                        assert(labels.last() == "T"@ + decimal(ps@[k as int] as nat));
                        if k > 0 {
                            push_str(out, "+");
                        }
                        push_str(out, "T");
                        push_decimal(out, ps[k]);
                        proof {
                            if k == 0 {
                                assert(labels.len() == 1);
                                assert(out@ =~= pre + join(labels, "+"@));
                            } else {
                                assert(out@ =~= pre + join(labels, "+"@));
                            }
                        }
                        k = k + 1;
                    }
                    assert(ps@.take(ps@.len() as int) =~= ps@);
                    push_str(out, ")");
                }
            },
            None => {
                if t.is_revision_flag() {
                    push_str(out, "(revises:T");
                    let r = match t.revises_thought {
                        Some(r) => r,
                        None => 0,
                    };
                    push_decimal(out, r);
                    push_str(out, ")");
                }
            },
        },
    }
    assert(out@ =~= base + timeline_entry(t@));
}

/// The timeline of a list of thoughts.
pub fn build_timeline(thoughts: &Vec<ThoughtData>) -> (r: String)
    ensures
        r@ == timeline(thoughts_view(thoughts@)),
{
    let ghost tv = thoughts_view(thoughts@);
    let ghost entries = tv.map_values(|t: ThoughtView| timeline_entry(t));
    let mut out = String::new();
    let mut i: usize = 0;
    assert(out@ =~= join(entries.take(0), " → "@));
    while i < thoughts.len()
        invariant
            i <= thoughts@.len(),
            tv == thoughts_view(thoughts@),
            entries == tv.map_values(|t: ThoughtView| timeline_entry(t)),
            out@ == join(entries.take(i as int), " → "@),
        decreases thoughts@.len() - i,
    {
        assert(entries.take(i + 1).drop_last() =~= entries.take(i as int));
        assert(entries.take(i + 1).last() == timeline_entry(thoughts@[i as int]@));
        if i > 0 {
            push_str(&mut out, " → ");
        }
        push_entry(&mut out, &thoughts[i]);
        proof {
            if i == 0 {
                assert(entries.take(1).len() == 1);
                assert(out@ =~= join(entries.take(1), " → "@));
            } else {
                assert(out@ =~= join(entries.take(i + 1), " → "@));
            }
        }
        i = i + 1;
    }
    assert(entries.take(thoughts@.len() as int) =~= entries);
    out
}

/// The numbers of the thoughts that merge more than one parent.
pub fn collect_merge_points(thoughts: &Vec<ThoughtData>) -> (r: Vec<usize>)
    ensures
        r@ == merge_points(thoughts_view(thoughts@)),
{
    let ghost tv = thoughts_view(thoughts@);
    let mut r: Vec<usize> = Vec::new();
    let mut i: usize = 0;
    assert(r@ =~= merge_points(tv.take(0)));
    while i < thoughts.len()
        invariant
            i <= thoughts@.len(),
            tv == thoughts_view(thoughts@),
            r@ == merge_points(tv.take(i as int)),
        decreases thoughts@.len() - i,
    {
        match &thoughts[i].parent_thoughts {
            Some(ps) => {
                if ps.len() > 1 {
                    r.push(thoughts[i].thought_number);
                }
            },
            None => {},
        }
        proof {
            assert(tv.take(i + 1).drop_last() =~= tv.take(i as int));
            assert(tv.take(i + 1).last() == thoughts@[i as int]@);
            assert(r@ =~= merge_points(tv.take(i + 1)));
        }
        i = i + 1;
    }
    assert(tv.take(thoughts@.len() as int) =~= tv);
    r
}

/// The description of the `summarize` tool.
pub open spec fn summarize_description() -> Seq<char> {
    "Retrieve a structured summary and timeline of the reasoning chain for the specified session."@
}

/// The JSON Schema text of the `summarize` tool's arguments.
pub open spec fn summarize_schema() -> Seq<char> {
    "{\"type\":\"object\",\"properties\":{\"sessionId\":{\"type\":\"string\",\"description\":\"The session identifier to summarize (defaults to the current active session)\"}}}"@
}

impl SummarizeReasoningTool {
    pub fn name(&self) -> (r: &'static str)
        ensures
            r@ == "summarize_reasoning"@,
    {
        "summarize_reasoning"
    }

    /// What the tool does, for clients choosing a tool.
    pub fn description(&self) -> (r: &'static str)
        ensures
            r@ == summarize_description(),
    {
        "Retrieve a structured summary and timeline of the reasoning chain for the specified session."
    }

    /// The JSON Schema of the tool's arguments, as JSON text.
    pub fn input_schema(&self) -> (r: String)
        ensures
            r@ == summarize_schema(),
    {
        String::from_str("{\"type\":\"object\",\"properties\":{\"sessionId\":{\"type\":\"string\",\"description\":\"The session identifier to summarize (defaults to the current active session)\"}}}")
    }

    /// Summarizes session `sid` with the given history and branch count.
    pub fn summarize(&self, history: &Vec<ThoughtData>, branches_count: usize, sid: String) -> (r: ReasoningSummary)
        ensures
            summarizes(r, sid@, thoughts_view(history@), branches_count as nat),
    {
        let ghost tv = thoughts_view(history@);
        let open = if history.len() > 0 {
            match &history[history.len() - 1].left_to_be_done {
                Some(l) => copy_strings(l),
                None => Vec::new(),
            }
        } else {
            Vec::new()
        };
        proof {
            if history@.len() > 0 {
                assert(tv.last() == history@.last()@);
            }
            assert(strs_view(open) =~= open_todos(tv));
        }
        ReasoningSummary {
            session_id: sid,
            total_thoughts: history.len(),
            total_branches: branches_count,
            merge_points: collect_merge_points(history),
            confidence_scores: collect_confidences(history.as_slice()),
            unverified_assumptions: unverified_assumptions(history.as_slice()),
            open_todos: open,
            timeline: build_timeline(history),
        }
    }

    /// Loads the session named (else the active one) and summarizes it.
    pub fn execute<S: ThoughtStore>(
        &self,
        server: &mut SequentialThinkingServer<S>,
        session_id: Option<&str>,
    ) -> (r: Result<ReasoningSummary, String>)
        ensures
            ({
                let sid = query_session(session_id, old(server).current_session_id@);
                &&& sid.len() == 0 ==> (r matches Err(e) && e@ == no_session_message())
                &&& r matches Ok(s) ==> {
                    &&& final(server).current_session_id@ == sid
                    &&& final(server).consistent()
                    &&& summarizes(s, sid, thoughts_view(final(server).thought_history@), final(server).branches@.len())
                }
                &&& r is Err ==> {
                    &&& final(server).current_session_id@ == old(server).current_session_id@
                    &&& thoughts_view(final(server).thought_history@) == thoughts_view(old(server).thought_history@)
                    &&& branches_view(final(server).branches@) == branches_view(old(server).branches@)
                }
            }),
        old(server).consistent() ==> final(server).consistent(),
        final(server).store == old(server).store,
        r is Ok ==> old(server).store.loads(query_session(session_id, old(server).current_session_id@), thoughts_view(final(server).thought_history@)),
    {
        let sid = match open_session(server, session_id) {
            Ok(s) => s,
            Err(e) => {
                return Err(e);
            },
        };
        let count = server.branches.len();
        Ok(self.summarize(&server.thought_history, count, sid))
    }
}

proof fn lemma_merge_points_contain(ts: Seq<ThoughtView>, i: int)
    requires
        0 <= i < ts.len(),
        ts[i].parent_thoughts is Some,
        ts[i].parents().len() > 1,
    ensures
        merge_points(ts).contains(ts[i].thought_number),
    decreases ts.len(),
{
    if i == ts.len() - 1 {
        let m = merge_points(ts);
        assert(m.last() == ts[i].thought_number);
    } else {
        lemma_merge_points_contain(ts.drop_last(), i);
        let k = choose|k: int| 0 <= k < merge_points(ts.drop_last()).len() && merge_points(ts.drop_last())[k] == ts[i].thought_number;
        assert(merge_points(ts)[k] == ts[i].thought_number);
    }
}

/// In a summary, a thought without a branch origin that merges more than one parent is both
/// a merge point and annotated on the timeline as `T<n>(merge:T<p1>+T<p2>+...)`.
pub proof fn lemma_merge_annotated(s: ReasoningSummary, sid: Seq<char>, h: Seq<ThoughtView>, nb: nat, i: int)
    requires
        summarizes(s, sid, h, nb),
        0 <= i < h.len(),
        h[i].branch_from_thought is None,
        h[i].parent_thoughts is Some,
        h[i].parents().len() > 1,
    ensures
        s.merge_points@.contains(h[i].thought_number),
        contains_text(
            s.timeline@,
            "T"@ + decimal(h[i].thought_number as nat) + "(merge:"@ + join(parent_labels(h[i].parents()), "+"@) + ")"@,
        ),
{
    lemma_merge_points_contain(h, i);
    let entries = h.map_values(|t: ThoughtView| timeline_entry(t));
    assert(entries[i] == timeline_entry(h[i]));
    let ps = h[i].parent_thoughts->0;
    assert(h[i].parents() == ps);
    assert(timeline_entry(h[i]) =~=
        "T"@ + decimal(h[i].thought_number as nat) + "(merge:"@ + join(parent_labels(h[i].parents()), "+"@) + ")"@);
    lemma_join_contains(entries, " → "@, i);
}

} // verus!
