//! Exports of a reasoning session: Mermaid, a JSON node/edge graph, Markdown and Graphviz DOT.

use vstd::prelude::*;
use crate::graph::mermaid::{generate_mermaid, mermaid_text, node_id, first_chars};
use crate::persistence::ThoughtStore;
use crate::server::{SequentialThinkingServer, branches_view};
use crate::text::{decimal, push_char, push_decimal, push_str, str_eq};
use crate::time::{calendar_text, format_calendar};
use crate::tools::{open_session, query_session, no_session_message};
use crate::types::{ThoughtData, ThoughtView, Timestamp, thoughts_view, strs_view, copy_string};

verus! {

/// The `export_session` tool.
#[derive(Clone, Copy, Debug, PartialEq, Eq, Structural)]
pub struct ExportSessionTool;

/// A node of the JSON graph export.
pub struct GraphNode {
    pub id: String,
    pub thought_number: usize,
    pub thought: String,
    pub confidence_score: Option<u64>,
    pub timestamp: Option<Timestamp>,
}

/// An edge of the JSON graph export; `kind` is "parent", "branch", "revision" or "standard".
pub struct GraphEdge {
    pub source: String,
    pub target: String,
    pub kind: String,
}

/// A piece of the Markdown export: literal text, or the confidence line of a thought
/// (rendered from the score's bit pattern as `*Confidence Score: <stars>/5 (<percent>%)*`).
pub enum MarkdownPart {
    Text(String),
    Confidence(u64),
}

/// The content of a Markdown piece.
pub ghost enum MarkdownPiece {
    Text(Seq<char>),
    Confidence(u64),
}

pub open spec fn markdown_view(p: MarkdownPart) -> MarkdownPiece {
    match p {
        MarkdownPart::Text(s) => MarkdownPiece::Text(s@),
        MarkdownPart::Confidence(c) => MarkdownPiece::Confidence(c),
    }
}

/// The exported data, in the requested format.
pub enum ExportData {
    Mermaid(String),
    Json(Vec<GraphNode>, Vec<GraphEdge>),
    Markdown(Vec<MarkdownPart>),
    Dot(String),
}

/// An export of one session.
pub struct SessionExport {
    pub session_id: String,
    pub data: ExportData,
}

/// The formats the tool exports to.
pub enum ExportFormat {
    Mermaid,
    Json,
    Markdown,
    Dot,
    Unknown,
}

pub open spec fn export_format(f: Seq<char>) -> ExportFormat {
    if f == "mermaid"@ {
        ExportFormat::Mermaid
    } else if f == "json"@ {
        ExportFormat::Json
    } else if f == "markdown"@ {
        ExportFormat::Markdown
    } else if f == "dot"@ {
        ExportFormat::Dot
    } else {
        ExportFormat::Unknown
    }
}

// ---------------------------------------------------------------- JSON graph

/// The content of a JSON-graph edge: source, target and kind.
pub open spec fn edge_view(e: GraphEdge) -> (Seq<char>, Seq<char>, Seq<char>) {
    (e.source@, e.target@, e.kind@)
}

/// The incoming edges of thought `i`: one "parent" edge per merge parent when it lists
/// parents (even none); otherwise a "branch" edge from its branch origin; otherwise, for a
/// revision, a "revision" edge from the revised thought; otherwise a "standard" edge from
/// the thought listed just before it.
pub open spec fn json_edges_of(ts: Seq<ThoughtView>, i: int) -> Seq<(Seq<char>, Seq<char>, Seq<char>)> {
    let t = ts[i];
    let id = node_id(t.thought_number);
    match t.parent_thoughts {
        Some(ps) => ps.map_values(|p: usize| (node_id(p), id, "parent"@)),
        None => match t.branch_from_thought {
            Some(b) => seq![(node_id(b), id, "branch"@)],
            None => if t.revision() {
                match t.revises_thought {
                    Some(r) => seq![(node_id(r), id, "revision"@)],
                    None => Seq::empty(),
                }
            } else if i > 0 {
                seq![(node_id(ts[i - 1].thought_number), id, "standard"@)]
            } else {
                Seq::empty()
            },
        },
    }
}

/// The edges of the first `k` thoughts, in order.
pub open spec fn json_edges(ts: Seq<ThoughtView>, k: int) -> Seq<(Seq<char>, Seq<char>, Seq<char>)>
    decreases k,
{
    if k <= 0 { Seq::empty() } else { json_edges(ts, k - 1) + json_edges_of(ts, k - 1) }
}

/// A JSON-graph node describes thought `t`.
pub open spec fn node_of(n: GraphNode, t: ThoughtView) -> bool {
    &&& n.id@ == node_id(t.thought_number)
    &&& n.thought_number == t.thought_number
    &&& n.thought@ == t.thought
    &&& n.confidence_score == t.confidence_score
    &&& n.timestamp == t.timestamp
}

fn node_id_string(n: usize) -> (r: String)
    ensures
        r@ == node_id(n),
{
    let mut s = String::from_str("T");
    push_decimal(&mut s, n);
    s
}

fn push_edge(edges: &mut Vec<GraphEdge>, from: usize, to: usize, kind: &str)
    ensures
        final(edges)@.len() == old(edges)@.len() + 1,
        forall|j: int| 0 <= j < old(edges)@.len() ==> #[trigger] final(edges)@[j] == old(edges)@[j],
        edge_view(final(edges)@.last()) == (node_id(from), node_id(to), kind@),
{
    edges.push(GraphEdge { source: node_id_string(from), target: node_id_string(to), kind: String::from_str(kind) });
}

/// The nodes and edges of the JSON graph export.
pub fn json_graph(thoughts: &Vec<ThoughtData>) -> (r: (Vec<GraphNode>, Vec<GraphEdge>))
    ensures
        r.0@.len() == thoughts@.len(),
        forall|i: int| 0 <= i < thoughts@.len() ==> node_of(#[trigger] r.0@[i], thoughts@[i]@),
        r.1@.map_values(|e: GraphEdge| edge_view(e)) == json_edges(thoughts_view(thoughts@), thoughts@.len() as int),
{
    let ghost tv = thoughts_view(thoughts@);
    let mut nodes: Vec<GraphNode> = Vec::new();
    let mut edges: Vec<GraphEdge> = Vec::new();
    let mut i: usize = 0;
    assert(edges@.map_values(|e: GraphEdge| edge_view(e)) =~= json_edges(tv, 0));
    while i < thoughts.len()
        invariant
            i <= thoughts@.len(),
            tv == thoughts_view(thoughts@),
            nodes@.len() == i,
            forall|j: int| 0 <= j < i ==> node_of(#[trigger] nodes@[j], thoughts@[j]@),
            edges@.map_values(|e: GraphEdge| edge_view(e)) == json_edges(tv, i as int),
        decreases thoughts@.len() - i,
    {
        let t = &thoughts[i];
        assert(tv[i as int] == t@);
        nodes.push(GraphNode {
            id: node_id_string(t.thought_number),
            thought_number: t.thought_number,
            thought: copy_string(&t.thought),
            confidence_score: t.confidence_score,
            timestamp: t.timestamp,
        });
        let ghost base = edges@.map_values(|e: GraphEdge| edge_view(e));
        let ghost start = edges@.len();
        match &t.parent_thoughts {
            Some(ps) => {
                let mut k: usize = 0;
                while k < ps.len()
                    invariant
                        k <= ps@.len(),
                        edges@.len() == start + k,
                        edges@.map_values(|e: GraphEdge| edge_view(e)) == base + ps@.take(k as int).map_values(|p: usize| (node_id(p), node_id(t.thought_number), "parent"@)),
                    decreases ps@.len() - k,
                {
                    let ghost pre = edges@;
                    push_edge(&mut edges, ps[k], t.thought_number, "parent");
                    proof {
                        assert(edges@ =~= pre.push(edges@.last()));
                        assert(edges@.map_values(|e: GraphEdge| edge_view(e)) =~= pre.map_values(|e: GraphEdge| edge_view(e)).push(edge_view(edges@.last())));
                        assert(ps@.take(k + 1) =~= ps@.take(k as int).push(ps@[k as int]));
                        assert(edges@.map_values(|e: GraphEdge| edge_view(e)) =~= base + ps@.take(k + 1).map_values(|p: usize| (node_id(p), node_id(t.thought_number), "parent"@)));
                    }
                    k = k + 1;
                }
                assert(ps@.take(ps@.len() as int) =~= ps@);
            },
            None => {
                match t.branch_from_thought {
                    Some(b) => {
                        let ghost pre = edges@;
                        push_edge(&mut edges, b, t.thought_number, "branch");
                        assert(edges@ =~= pre.push(edges@.last()));
                    },
                    None => {
                        if t.is_revision_flag() {
                            match t.revises_thought {
                                Some(r) => {
                                    let ghost pre = edges@;
                                    push_edge(&mut edges, r, t.thought_number, "revision");
                                    assert(edges@ =~= pre.push(edges@.last()));
                                },
                                None => {},
                            }
                        } else if i > 0 {
                            assert(tv[i - 1] == thoughts@[i - 1]@);
                            let ghost pre = edges@;
                            push_edge(&mut edges, thoughts[i - 1].thought_number, t.thought_number, "standard");
                            assert(edges@ =~= pre.push(edges@.last()));
                        }
                    },
                }
            },
        }
        assert(edges@.map_values(|e: GraphEdge| edge_view(e)) =~= json_edges(tv, i + 1));
        i = i + 1;
    }
    (nodes, edges)
}

// ---------------------------------------------------------------- DOT

/// A thought's text with each double quote escaped by a backslash.
pub open spec fn dot_escape(s: Seq<char>) -> Seq<char>
    decreases s.len(),
{
    if s.len() == 0 {
        Seq::empty()
    } else {
        dot_escape(s.drop_last()) + (if s.last() == '"' { seq!['\\', '"'] } else { seq![s.last()] })
    }
}

/// The fill colour of a DOT node: yellow for revisions, green for branches, blue otherwise.
pub open spec fn dot_color(t: ThoughtView) -> Seq<char> {
    if t.revision() {
        "\"#fafd7c\""@
    } else if t.branch_from_thought is Some {
        "\"#a1e887\""@
    } else {
        "\"#a5ccf7\""@
    }
}

/// A DOT edge line `  T<from> -> <to_id>;`.
pub open spec fn dot_arrow(from: usize, to_id: Seq<char>) -> Seq<char> {
    "  T"@ + decimal(from as nat) + " -> "@ + to_id + ";\n"@
}

/// One DOT edge line per merge parent.
pub open spec fn dot_parent_arrows(ps: Seq<usize>, to_id: Seq<char>) -> Seq<char>
    decreases ps.len(),
{
    if ps.len() == 0 { Seq::empty() } else { dot_parent_arrows(ps.drop_last(), to_id) + dot_arrow(ps.last(), to_id) }
}

/// The DOT node line of a thought: labelled with its number and the first 20 characters
/// of its escaped text, filled with its colour.
pub open spec fn dot_node_line(t: ThoughtView) -> Seq<char> {
    let label = "T"@ + decimal(t.thought_number as nat) + ": "@ + first_chars(dot_escape(t.thought), 20) + "\\n..."@;
    "  "@ + node_id(t.thought_number) + " [label=\""@ + label + "\", fillcolor="@ + dot_color(t) + "];\n"@
}

/// The DOT edge lines of thought `i`, chosen as for the JSON graph.
pub open spec fn dot_edges(ts: Seq<ThoughtView>, i: int) -> Seq<char> {
    let t = ts[i];
    let id = node_id(t.thought_number);
    match t.parent_thoughts {
        Some(ps) => dot_parent_arrows(ps, id),
        None => match t.branch_from_thought {
            Some(b) => dot_arrow(b, id),
            None => if t.revision() {
                match t.revises_thought {
                    Some(r) => "  T"@ + decimal(r as nat) + " -> "@ + id + " [style=dotted, label=\"revises\"];\n"@,
                    None => Seq::empty(),
                }
            } else if i > 0 {
                dot_arrow(ts[i - 1].thought_number, id)
            } else {
                Seq::empty()
            },
        },
    }
}

/// The DOT lines of thought `i`: its node line, then its edge lines.
pub open spec fn dot_block(ts: Seq<ThoughtView>, i: int) -> Seq<char> {
    dot_node_line(ts[i]) + dot_edges(ts, i)
}

pub open spec fn dot_blocks(ts: Seq<ThoughtView>, k: int) -> Seq<char>
    decreases k,
{
    if k <= 0 { Seq::empty() } else { dot_blocks(ts, k - 1) + dot_block(ts, k - 1) }
}

/// The whole DOT document of a history.
pub open spec fn dot_text(ts: Seq<ThoughtView>) -> Seq<char> {
    "digraph G {\n"@ + "  node [shape=box, style=filled, fontname=\"Arial\"];\n"@ + dot_blocks(ts, ts.len() as int) + "}\n"@
}

fn dot_escaped(s: &String) -> (r: Vec<char>)
    ensures
        r@ == dot_escape(s@),
{
    let cs = crate::text::chars_of(s.as_str());
    let mut r: Vec<char> = Vec::new();
    let mut i: usize = 0;
    assert(cs@.take(0) =~= Seq::<char>::empty());
    while i < cs.len()
        invariant
            i <= cs@.len(),
            r@ == dot_escape(cs@.take(i as int)),
        decreases cs@.len() - i,
    {
        if cs[i] == '"' {
            r.push('\\');
            r.push('"');
        } else {
            r.push(cs[i]);
        }
        assert(cs@.take(i + 1).drop_last() =~= cs@.take(i as int));
        assert(r@ =~= dot_escape(cs@.take(i + 1)));
        i = i + 1;
    }
    assert(cs@.take(cs@.len() as int) =~= cs@);
    r
}

fn push_dot_node(out: &mut String, t: &ThoughtData)
    ensures
        final(out)@ == old(out)@ + dot_node_line(t@),
{
    let ghost base = out@;
    push_str(out, "  ");
    push_str(out, "T");
    push_decimal(out, t.thought_number);
    push_str(out, " [label=\"");
    push_str(out, "T");
    push_decimal(out, t.thought_number);
    push_str(out, ": ");
    let esc = dot_escaped(&t.thought);
    let limit: usize = if esc.len() <= 20 { esc.len() } else { 20 };
    let ghost pre = out@;
    let mut k: usize = 0;
    while k < limit
        invariant
            limit <= esc@.len(),
            k <= limit,
            out@ == pre + esc@.take(k as int),
        decreases limit - k,
    {
        push_char(out, esc[k]);
        assert(esc@.take(k + 1) =~= esc@.take(k as int).push(esc@[k as int]));
        k = k + 1;
    }
    assert(esc@.take(limit as int) =~= first_chars(esc@, 20));
    push_str(out, "\\n...");
    push_str(out, "\", fillcolor=");
    if t.is_revision_flag() {
        push_str(out, "\"#fafd7c\"");
    } else if t.branch_from_thought.is_some() {
        push_str(out, "\"#a1e887\"");
    } else {
        push_str(out, "\"#a5ccf7\"");
    }
    push_str(out, "];\n");
    assert(out@ =~= base + dot_node_line(t@));
}

fn push_dot_edges(out: &mut String, thoughts: &Vec<ThoughtData>, i: usize)
    requires
        i < thoughts@.len(),
    ensures
        final(out)@ == old(out)@ + dot_edges(thoughts_view(thoughts@), i as int),
{
    let ghost ts = thoughts_view(thoughts@);
    let t = &thoughts[i];
    assert(ts[i as int] == t@);
    let ghost head = out@;
    let ghost id = node_id(t.thought_number);
    match &t.parent_thoughts {
        Some(ps) => {
            let mut q: usize = 0;
            while q < ps.len()
                invariant
                    q <= ps@.len(),
                    out@ == head + dot_parent_arrows(ps@.take(q as int), id),
                    id == node_id(t.thought_number),
                decreases ps@.len() - q,
            {
                push_str(out, "  T");
                push_decimal(out, ps[q]);
                push_str(out, " -> ");
                push_str(out, "T");
                push_decimal(out, t.thought_number);
                push_str(out, ";\n");
                assert(ps@.take(q + 1).drop_last() =~= ps@.take(q as int));
                assert(out@ =~= head + dot_parent_arrows(ps@.take(q + 1), id));
                q = q + 1;
            }
            assert(ps@.take(ps@.len() as int) =~= ps@);
        },
        None => match t.branch_from_thought {
            Some(b) => {
                push_str(out, "  T");
                push_decimal(out, b);
                push_str(out, " -> ");
                push_str(out, "T");
                push_decimal(out, t.thought_number);
                push_str(out, ";\n");
            },
            None => {
                if t.is_revision_flag() {
                    match t.revises_thought {
                        Some(r) => {
                            push_str(out, "  T");
                            push_decimal(out, r);
                            push_str(out, " -> ");
                            push_str(out, "T");
                            push_decimal(out, t.thought_number);
                            push_str(out, " [style=dotted, label=\"revises\"];\n");
                        },
                        None => {},
                    }
                } else if i > 0 {
                    assert(ts[i - 1] == thoughts@[i - 1]@);
                    push_str(out, "  T");
                    push_decimal(out, thoughts[i - 1].thought_number);
                    push_str(out, " -> ");
                    push_str(out, "T");
                    push_decimal(out, t.thought_number);
                    push_str(out, ";\n");
                }
            },
        },
    }
    assert(out@ =~= head + dot_edges(ts, i as int));
}

fn push_dot_block(out: &mut String, thoughts: &Vec<ThoughtData>, i: usize)
    requires
        i < thoughts@.len(),
    ensures
        final(out)@ == old(out)@ + dot_block(thoughts_view(thoughts@), i as int),
{
    assert(thoughts_view(thoughts@)[i as int] == thoughts@[i as int]@);
    push_dot_node(out, &thoughts[i]);
    push_dot_edges(out, thoughts, i);
}

/// The Graphviz DOT document of a history.
pub fn dot_document(thoughts: &Vec<ThoughtData>) -> (r: String)
    ensures
        r@ == dot_text(thoughts_view(thoughts@)),
{
    let ghost ts = thoughts_view(thoughts@);
    let mut dot = String::new();
    push_str(&mut dot, "digraph G {\n");
    push_str(&mut dot, "  node [shape=box, style=filled, fontname=\"Arial\"];\n");
    let ghost head = dot@;
    let mut i: usize = 0;
    while i < thoughts.len()
        invariant
            i <= thoughts@.len(),
            ts == thoughts_view(thoughts@),
            dot@ == head + dot_blocks(ts, i as int),
            head == "digraph G {\n"@ + "  node [shape=box, style=filled, fontname=\"Arial\"];\n"@,
        decreases thoughts@.len() - i,
    {
        push_dot_block(&mut dot, thoughts, i);
        assert(dot@ =~= head + dot_blocks(ts, i + 1));
        i = i + 1;
    }
    push_str(&mut dot, "}\n");
    assert(dot@ =~= dot_text(ts));
    dot
}

/// `x` is the export of session `sid` with history `hist` in format `fmt`.
pub open spec fn exports(x: SessionExport, fmt: ExportFormat, sid: Seq<char>, hist: Seq<ThoughtData>) -> bool {
    let h = thoughts_view(hist);
    &&& x.session_id@ == sid
    &&& match fmt {
        ExportFormat::Mermaid => x.data matches ExportData::Mermaid(m) && m@ == mermaid_text(h),
        ExportFormat::Json => x.data matches ExportData::Json(nodes, edges) && {
            &&& nodes@.len() == hist.len()
            &&& forall|i: int| 0 <= i < hist.len() ==> node_of(#[trigger] nodes@[i], hist[i]@)
            &&& edges@.map_values(|e: GraphEdge| edge_view(e)) == json_edges(h, hist.len() as int)
        },
        ExportFormat::Markdown => x.data matches ExportData::Markdown(parts)
            && parts@.map_values(|p: MarkdownPart| markdown_view(p)) == md_pieces(sid, h, hist.len() as int),
        ExportFormat::Dot => x.data matches ExportData::Dot(d) && d@ == dot_text(h),
        ExportFormat::Unknown => false,
    }
}

// ---------------------------------------------------------------- Markdown

/// The heading word of a thought: Revision, Branch or Thought.
pub open spec fn md_kind(t: ThoughtView) -> Seq<char> {
    if t.revision() { "Revision"@ } else if t.branch_from_thought is Some { "Branch"@ } else { "Thought"@ }
}

/// One line per item: `marker`, the item, a line break.
pub open spec fn bullet_lines(items: Seq<Seq<char>>, marker: Seq<char>) -> Seq<char>
    decreases items.len(),
{
    if items.len() == 0 { Seq::empty() } else { bullet_lines(items.drop_last(), marker) + marker + items.last() + "\n"@ }
}

/// A titled bullet list, or nothing when there are no items.
pub open spec fn md_section(items: Option<Seq<Seq<char>>>, title: Seq<char>, marker: Seq<char>) -> Seq<char> {
    match items {
        Some(l) => if l.len() > 0 { title + bullet_lines(l, marker) + "\n"@ } else { Seq::empty() },
        None => Seq::empty(),
    }
}

/// A quoted paragraph introduced by `lead`, or nothing when absent.
pub open spec fn md_quote(o: Option<Seq<char>>, lead: Seq<char>) -> Seq<char> {
    match o {
        Some(c) => lead + c + "\n\n"@,
        None => Seq::empty(),
    }
}

/// The Markdown of a thought up to its confidence line: heading, timestamp, text, assumptions
/// and verified assumptions.
pub open spec fn md_before_confidence(t: ThoughtView) -> Seq<char> {
    "## "@ + md_kind(t) + " "@ + decimal(t.thought_number as nat) + "\n"@
        + (match t.timestamp {
            Some(x) => "*Timestamp: "@ + calendar_text(x.secs, x.nanos) + "*\n\n"@,
            None => Seq::empty(),
        })
        + t.thought + "\n\n"@
        + md_section(t.assumptions, "### Assumptions\n"@, "- 🤔 "@)
        + md_section(t.verified_assumptions, "### Verified Assumptions\n"@, "- ✅ "@)
}

/// The Markdown of a thought after its confidence line: criticism, hypothesis, verification
/// method and a rule.
pub open spec fn md_after_confidence(t: ThoughtView) -> Seq<char> {
    md_quote(t.criticism, "> **🧐 Self-Criticism:** "@)
        + md_quote(t.hypothesis, "> **🔬 Hypothesis:** "@)
        + md_quote(t.verification_method, "> **🧪 Verification:** "@)
        + "---\n\n"@
}

/// The pieces of a thought's Markdown.
pub open spec fn md_thought(t: ThoughtView) -> Seq<MarkdownPiece> {
    seq![MarkdownPiece::Text(md_before_confidence(t))]
        + (match t.confidence_score { Some(c) => seq![MarkdownPiece::Confidence(c)], None => Seq::empty() })
        + seq![MarkdownPiece::Text(md_after_confidence(t))]
}

/// The pieces of the Markdown document of the first `k` thoughts of session `sid`.
pub open spec fn md_pieces(sid: Seq<char>, ts: Seq<ThoughtView>, k: int) -> Seq<MarkdownPiece>
    decreases k,
{
    if k <= 0 {
        seq![MarkdownPiece::Text("# Reasoning Session History - Session `"@ + sid + "`\n\n"@)]
    } else {
        md_pieces(sid, ts, k - 1) + md_thought(ts[k - 1])
    }
}

fn push_section(out: &mut String, items: &Option<Vec<String>>, title: &str, marker: &str)
    ensures
        final(out)@ == old(out)@ + md_section(crate::types::opt_strs_view(*items), title@, marker@),
{
    match items {
        Some(l) => {
            if l.len() > 0 {
                let ghost base = out@;
                push_str(out, title);
                let ghost pre = out@;
                let mut k: usize = 0;
                while k < l.len()
                    invariant
                        k <= l@.len(),
                        out@ == pre + bullet_lines(strs_view(*l).take(k as int), marker@),
                    decreases l@.len() - k,
                {
                    push_str(out, marker);
                    push_str(out, l[k].as_str());
                    push_str(out, "\n");
                    assert(strs_view(*l).take(k + 1).drop_last() =~= strs_view(*l).take(k as int));
                    assert(strs_view(*l).take(k + 1).last() == l@[k as int]@);
                    assert(out@ =~= pre + bullet_lines(strs_view(*l).take(k + 1), marker@));
                    k = k + 1;
                }
                assert(strs_view(*l).take(l@.len() as int) =~= strs_view(*l));
                push_str(out, "\n");
                assert(out@ =~= base + md_section(crate::types::opt_strs_view(*items), title@, marker@));
            }
        },
        None => {},
    }
}

fn push_quote(out: &mut String, o: &Option<String>, lead: &str)
    ensures
        final(out)@ == old(out)@ + md_quote(crate::types::opt_str_view(*o), lead@),
{
    match o {
        Some(c) => {
            push_str(out, lead);
            push_str(out, c.as_str());
            push_str(out, "\n\n");
        },
        None => {
            assert(out@ =~= out@ + Seq::<char>::empty());
        },
    }
}

fn md_before(t: &ThoughtData) -> (r: String)
    ensures
        r@ == md_before_confidence(t@),
{
    let mut out = String::new();
    push_str(&mut out, "## ");
    if t.is_revision_flag() {
        push_str(&mut out, "Revision");
    } else if t.branch_from_thought.is_some() {
        push_str(&mut out, "Branch");
    } else {
        push_str(&mut out, "Thought");
    }
    push_str(&mut out, " ");
    push_decimal(&mut out, t.thought_number);
    push_str(&mut out, "\n");
    match t.timestamp {
        Some(x) => {
            push_str(&mut out, "*Timestamp: ");
            let c = format_calendar(x);
            push_str(&mut out, c.as_str());
            push_str(&mut out, "*\n\n");
        },
        None => {},
    }
    push_str(&mut out, t.thought.as_str());
    push_str(&mut out, "\n\n");
    push_section(&mut out, &t.assumptions, "### Assumptions\n", "- 🤔 ");
    push_section(&mut out, &t.verified_assumptions, "### Verified Assumptions\n", "- ✅ ");
    assert(out@ =~= md_before_confidence(t@));
    out
}

fn md_after(t: &ThoughtData) -> (r: String)
    ensures
        r@ == md_after_confidence(t@),
{
    let mut out = String::new();
    push_quote(&mut out, &t.criticism, "> **🧐 Self-Criticism:** ");
    push_quote(&mut out, &t.hypothesis, "> **🔬 Hypothesis:** ");
    push_quote(&mut out, &t.verification_method, "> **🧪 Verification:** ");
    push_str(&mut out, "---\n\n");
    assert(out@ =~= md_after_confidence(t@));
    out
}

/// The Markdown export of session `sid`, as text pieces and confidence lines.
pub fn markdown_document(sid: &str, thoughts: &Vec<ThoughtData>) -> (r: Vec<MarkdownPart>)
    ensures
        r@.map_values(|p: MarkdownPart| markdown_view(p)) == md_pieces(sid@, thoughts_view(thoughts@), thoughts@.len() as int),
{
    let ghost ts = thoughts_view(thoughts@);
    let mut parts: Vec<MarkdownPart> = Vec::new();
    let mut head = String::from_str("# Reasoning Session History - Session `");
    push_str(&mut head, sid);
    push_str(&mut head, "`\n\n");
    parts.push(MarkdownPart::Text(head));
    assert(parts@.map_values(|p: MarkdownPart| markdown_view(p)) =~= md_pieces(sid@, ts, 0));
    let mut i: usize = 0;
    while i < thoughts.len()
        invariant
            i <= thoughts@.len(),
            ts == thoughts_view(thoughts@),
            parts@.map_values(|p: MarkdownPart| markdown_view(p)) == md_pieces(sid@, ts, i as int),
        decreases thoughts@.len() - i,
    {
        let t = &thoughts[i];
        assert(ts[i as int] == t@);
        let ghost before = parts@;
        parts.push(MarkdownPart::Text(md_before(t)));
        match t.confidence_score {
            Some(c) => parts.push(MarkdownPart::Confidence(c)),
            None => {},
        }
        parts.push(MarkdownPart::Text(md_after(t)));
        proof {
            let added = parts@.subrange(before.len() as int, parts@.len() as int);
            assert(parts@ =~= before + added);
            assert(added.map_values(|p: MarkdownPart| markdown_view(p)) =~= md_thought(t@));
            assert(parts@.map_values(|p: MarkdownPart| markdown_view(p)) =~= before.map_values(|p: MarkdownPart| markdown_view(p)) + added.map_values(|p: MarkdownPart| markdown_view(p)));
        }
        i = i + 1;
    }
    parts
}

/// The description of the `export_session` tool.
pub open spec fn export_session_description() -> Seq<char> {
    "Export the reasoning session in various formats: mermaid graph, JSON Graph, markdown report, or Graphviz DOT format."@
}

/// The JSON Schema text of the `export_session` tool's arguments.
pub open spec fn export_session_schema() -> Seq<char> {
    "{\"type\":\"object\",\"properties\":{\"format\":{\"type\":\"string\",\"enum\":[\"mermaid\",\"json\",\"markdown\",\"dot\"],\"description\":\"The target export format\"},\"sessionId\":{\"type\":\"string\",\"description\":\"The session identifier to export (defaults to the current active session)\"}},\"required\":[\"format\"]}"@
}

impl ExportSessionTool {
    pub fn name(&self) -> (r: &'static str)
        ensures
            r@ == "export_session"@,
    {
        "export_session"
    }

    /// What the tool does, for clients choosing a tool.
    pub fn description(&self) -> (r: &'static str)
        ensures
            r@ == export_session_description(),
    {
        "Export the reasoning session in various formats: mermaid graph, JSON Graph, markdown report, or Graphviz DOT format."
    }

    /// The JSON Schema of the tool's arguments, as JSON text.
    pub fn input_schema(&self) -> (r: String)
        ensures
            r@ == export_session_schema(),
    {
        String::from_str("{\"type\":\"object\",\"properties\":{\"format\":{\"type\":\"string\",\"enum\":[\"mermaid\",\"json\",\"markdown\",\"dot\"],\"description\":\"The target export format\"},\"sessionId\":{\"type\":\"string\",\"description\":\"The session identifier to export (defaults to the current active session)\"}},\"required\":[\"format\"]}")
    }

    /// Exports session `sid`, whose history is given, in `format`.
    pub fn run_export(&self, history: &Vec<ThoughtData>, sid: String, format: Option<&str>) -> (r: Result<SessionExport, String>)
        ensures
            ({
                let h = thoughts_view(history@);
                &&& format is None ==> (r matches Err(e) && e@ == "Missing format parameter"@)
                &&& format matches Some(f) ==> (export_format(f@) is Unknown ==> (r matches Err(e) && e@ == "Unknown format: "@ + f@))
                &&& format matches Some(f) ==> (!(export_format(f@) is Unknown) ==> (r matches Ok(x) && exports(x, export_format(f@), sid@, history@)))
            }),
    {
        let f = match format {
            Some(f) => f,
            None => {
                return Err(String::from_str("Missing format parameter"));
            },
        };
        if str_eq(f, "mermaid") {
            Ok(SessionExport { session_id: sid, data: ExportData::Mermaid(generate_mermaid(history.as_slice())) })
        } else if str_eq(f, "json") {
            let (nodes, edges) = json_graph(history);
            Ok(SessionExport { session_id: sid, data: ExportData::Json(nodes, edges) })
        } else if str_eq(f, "markdown") {
            let parts = markdown_document(sid.as_str(), history);
            Ok(SessionExport { session_id: sid, data: ExportData::Markdown(parts) })
        } else if str_eq(f, "dot") {
            Ok(SessionExport { session_id: sid, data: ExportData::Dot(dot_document(history)) })
        } else {
            let mut msg = String::from_str("Unknown format: ");
            push_str(&mut msg, f);
            Err(msg)
        }
    }

    /// Loads the session named (else the active one) and exports it in `format`.
    pub fn execute<S: ThoughtStore>(
        &self,
        server: &mut SequentialThinkingServer<S>,
        format: Option<&str>,
        session_id: Option<&str>,
    ) -> (r: Result<SessionExport, String>)
        ensures
            ({
                let sid = query_session(session_id, old(server).current_session_id@);
                let unchanged = final(server).current_session_id@ == old(server).current_session_id@
                    && thoughts_view(final(server).thought_history@) == thoughts_view(old(server).thought_history@)
                    && branches_view(final(server).branches@) == branches_view(old(server).branches@);
                &&& sid.len() == 0 ==> (r matches Err(e) && e@ == no_session_message() && unchanged)
                &&& r is Ok ==> final(server).current_session_id@ == sid && final(server).consistent()
                &&& r matches Ok(x) ==> (format matches Some(f) && exports(x, export_format(f@), sid, final(server).thought_history@))
                &&& format is None ==> r is Err
                &&& format matches Some(f) ==> (export_format(f@) is Unknown ==> r is Err)
                &&& r matches Err(e) ==> {
                    ||| sid.len() == 0 && e@ == no_session_message()
                    ||| unchanged
                    ||| format is None && e@ == "Missing format parameter"@
                    ||| format matches Some(f) && export_format(f@) is Unknown && e@ == "Unknown format: "@ + f@
                }
            }),
        old(server).consistent() ==> final(server).consistent(),
        final(server).store == old(server).store,
        r is Ok ==> old(server).store.loads(query_session(session_id, old(server).current_session_id@), thoughts_view(final(server).thought_history@)),
    {
        let sid = match open_session(server, session_id) {
            Ok(s) => s,
            Err(e) => {
                return Err(e);
            },
        };
        self.run_export(&server.thought_history, sid, format)
    }
}

/// A plain thought: no merge parents, no branch origin, not a revision.
pub open spec fn is_plain(t: ThoughtView) -> bool {
    t.parent_thoughts is None && t.branch_from_thought is None && !t.revision()
}

proof fn lemma_plain_edges(ts: Seq<ThoughtView>, k: int)
    requires
        1 <= k <= ts.len(),
        forall|j: int| 0 <= j < ts.len() ==> is_plain(#[trigger] ts[j]),
    ensures
        json_edges(ts, k) == Seq::new((k - 1) as nat, |j: int|
            (node_id(ts[j].thought_number), node_id(ts[j + 1].thought_number), "standard"@)),
    decreases k,
{
    assert(is_plain(ts[k - 1]));
    if k == 1 {
        assert(json_edges(ts, 0) == Seq::<(Seq<char>, Seq<char>, Seq<char>)>::empty());
        assert(json_edges(ts, 1) =~= Seq::new(0, |j: int|
            (node_id(ts[j].thought_number), node_id(ts[j + 1].thought_number), "standard"@)));
    } else {
        lemma_plain_edges(ts, k - 1);
        assert(json_edges(ts, k) =~= Seq::new((k - 1) as nat, |j: int|
            (node_id(ts[j].thought_number), node_id(ts[j + 1].thought_number), "standard"@)));
    }
}

/// In the JSON graph of a session whose thoughts are all plain, each thought after the first
/// has exactly one edge, of kind "standard", from the thought listed just before it; a
/// session of n thoughts has n - 1 edges. More generally, a plain thought after the first
/// brings exactly that one incoming edge.
pub proof fn lemma_json_standard_edges(x: SessionExport, sid: Seq<char>, hist: Seq<ThoughtData>)
    requires
        exports(x, ExportFormat::Json, sid, hist),
        hist.len() >= 1,
        forall|j: int| 0 <= j < hist.len() ==> is_plain(#[trigger] hist[j]@),
    ensures
        x.data matches ExportData::Json(nodes, edges) && {
            &&& edges@.len() == hist.len() - 1
            &&& forall|j: int| 0 <= j < hist.len() - 1 ==> edge_view(#[trigger] edges@[j])
                == (node_id(hist[j]@.thought_number), node_id(hist[j + 1]@.thought_number), "standard"@)
        },
        forall|i: int| 0 < i < hist.len() ==> #[trigger] json_edges_of(thoughts_view(hist), i)
            == seq![(node_id(hist[i - 1]@.thought_number), node_id(hist[i]@.thought_number), "standard"@)],
{
    let h = thoughts_view(hist);
    assert forall|j: int| 0 <= j < h.len() implies is_plain(#[trigger] h[j]) by {
        assert(h[j] == hist[j]@);
    }
    lemma_plain_edges(h, h.len() as int);
    if let ExportData::Json(nodes, edges) = x.data {
        let ev = edges@.map_values(|e: GraphEdge| edge_view(e));
        assert(ev.len() == edges@.len());
        assert forall|j: int| 0 <= j < hist.len() - 1 implies edge_view(#[trigger] edges@[j])
            == (node_id(hist[j]@.thought_number), node_id(hist[j + 1]@.thought_number), "standard"@) by {
            assert(ev[j] == edge_view(edges@[j]));
            assert(h[j] == hist[j]@);
            assert(h[j + 1] == hist[j + 1]@);
        }
    }
    assert forall|i: int| 0 < i < hist.len() implies #[trigger] json_edges_of(h, i)
        == seq![(node_id(hist[i - 1]@.thought_number), node_id(hist[i]@.thought_number), "standard"@)] by {
        assert(h[i] == hist[i]@);
        assert(h[i - 1] == hist[i - 1]@);
        assert(is_plain(h[i]));
    }
}

} // verus!
