//! Mermaid flowchart rendering of the thought graph.

use vstd::prelude::*;
use vstd::string::*;
use vstd::utf8::encode_utf8;
use crate::text::{decimal, push_decimal, push_str, contains_text, lemma_contains_middle};
use crate::types::{ThoughtData, ThoughtView, thoughts_view};

verus! {

/// How a label character is written inside a Mermaid node label: double quotes become
/// single quotes and square brackets become round ones.
pub open spec fn label_char(c: char) -> char {
    if c == '"' {
        '\''
    } else if c == '[' {
        '('
    } else if c == ']' {
        ')'
    } else {
        c
    }
}

/// The first `n` characters of `s` (all of them when `s` is shorter).
pub open spec fn first_chars(s: Seq<char>, n: nat) -> Seq<char> {
    if s.len() <= n { s } else { s.take(n as int) }
}

/// Label text for a thought: its first 30 characters with brackets and double quotes
/// replaced, followed by "..." when the thought is longer than 30 bytes in UTF-8
/// (its byte length as the machine word `str::len` returns).
pub open spec fn mermaid_preview(thought: Seq<char>) -> Seq<char> {
    first_chars(thought, 30).map_values(|c: char| label_char(c))
        + (if (encode_utf8(thought).len() as usize) > 30 { "..."@ } else { Seq::empty() })
}

/// The style class of a thought: revision, branch, hypothesis or standard, first match wins.
pub open spec fn mermaid_class(t: ThoughtView) -> Seq<char> {
    if t.revision() {
        "revision"@
    } else if t.branch_from_thought is Some {
        "branch"@
    } else if t.hypothesis is Some {
        "hypothesis"@
    } else {
        "standard"@
    }
}

/// The node identifier of thought number `n`: "T" followed by the number.
pub open spec fn node_id(n: usize) -> Seq<char> {
    "T"@ + decimal(n as nat)
}

/// A solid arrow line `    T<from> --> <to_id>`.
pub open spec fn arrow_line(from: usize, to_id: Seq<char>) -> Seq<char> {
    "    T"@ + decimal(from as nat) + " --> "@ + to_id + "\n"@
}

/// One arrow line per merge parent, in order.
pub open spec fn parent_arrows(parents: Seq<usize>, to_id: Seq<char>) -> Seq<char>
    decreases parents.len(),
{
    if parents.len() == 0 {
        Seq::empty()
    } else {
        parent_arrows(parents.drop_last(), to_id) + arrow_line(parents.last(), to_id)
    }
}

/// The incoming edges drawn for thought `i`: from each merge parent when it has any;
/// otherwise from its branch origin; otherwise, for a revision, a dotted "revises" edge
/// from the revised thought; otherwise from the thought listed just before it.
pub open spec fn mermaid_links(ts: Seq<ThoughtView>, i: int) -> Seq<char> {
    let t = ts[i];
    let id = node_id(t.thought_number);
    if t.parents().len() > 0 {
        parent_arrows(t.parents(), id)
    } else if t.branch_from_thought is Some {
        arrow_line(t.branch_from_thought->0, id)
    } else if t.revision() {
        match t.revises_thought {
            Some(r) => "    T"@ + decimal(r as nat) + " -.->|revises| "@ + id + "\n"@,
            None => Seq::empty(),
        }
    } else if i > 0 {
        "    "@ + node_id(ts[i - 1].thought_number) + " --> "@ + id + "\n"@
    } else {
        Seq::empty()
    }
}

/// The lines for thought `i`: its labelled node, its class assignment, then its incoming edges.
pub open spec fn mermaid_block(ts: Seq<ThoughtView>, i: int) -> Seq<char> {
    let t = ts[i];
    let id = node_id(t.thought_number);
    "    "@ + id + "[\"T"@ + decimal(t.thought_number as nat) + ": "@ + mermaid_preview(t.thought) + "\"]\n"@
        + "    class "@ + id + " "@ + mermaid_class(t) + "\n"@
        + mermaid_links(ts, i)
}

/// The blocks of the first `k` thoughts.
pub open spec fn mermaid_blocks(ts: Seq<ThoughtView>, k: int) -> Seq<char>
    decreases k,
{
    if k <= 0 {
        Seq::empty()
    } else {
        mermaid_blocks(ts, k - 1) + mermaid_block(ts, k - 1)
    }
}

/// The diagram preamble: the graph direction and the four style classes.
pub open spec fn mermaid_header() -> Seq<char> {
    "graph TD\n"@
        + "    classDef revision fill:#fafd7c,stroke:#d4b200,stroke-width:2px,color:#000;\n"@
        + "    classDef branch fill:#a1e887,stroke:#3b7a14,stroke-width:2px,color:#000;\n"@
        + "    classDef hypothesis fill:#d1b3ff,stroke:#6a3d9a,stroke-width:2px,color:#000;\n"@
        + "    classDef standard fill:#a5ccf7,stroke:#265c96,stroke-width:2px,color:#000;\n\n"@
}

/// The whole Mermaid diagram of a thought list.
pub open spec fn mermaid_text(ts: Seq<ThoughtView>) -> Seq<char> {
    mermaid_header() + mermaid_blocks(ts, ts.len() as int)
}

fn push_label_preview(out: &mut String, thought: &String)
    ensures
        final(out)@ == old(out)@ + mermaid_preview(thought@),
{
    let s = thought.as_str();
    let n = s.unicode_len();
    let limit: usize = if n <= 30 { n } else { 30 };
    let ghost base = out@;
    let ghost shown = first_chars(thought@, 30);
    assert(shown.len() == limit);
    let mut i: usize = 0;
    while i < limit
        invariant
            s@ == thought@,
            limit <= s@.len(),
            i <= limit,
            shown == first_chars(thought@, 30),
            shown.len() == limit,
            out@ =~= base + shown.take(i as int).map_values(|c: char| label_char(c)),
        decreases limit - i,
    {
        let c = s.get_char(i);
        let mapped = if c == '"' {
            '\''
        } else if c == '[' {
            '('
        } else if c == ']' {
            ')'
        } else {
            c
        };
        crate::text::push_char(out, mapped);
        assert(shown.take(i + 1) =~= shown.take(i as int).push(c));
        i = i + 1;
    }
    assert(shown.take(limit as int) =~= shown);
    if s.len() > 30 {
        push_str(out, "...");
    }
    assert(out@ =~= base + mermaid_preview(thought@));
}

fn push_node_id(out: &mut String, n: usize)
    ensures
        final(out)@ == old(out)@ + node_id(n),
{
    push_str(out, "T");
    push_decimal(out, n);
    assert(final(out)@ =~= old(out)@ + node_id(n));
}

fn push_arrow_line(out: &mut String, from: usize, to: usize)
    ensures
        final(out)@ == old(out)@ + arrow_line(from, node_id(to)),
{
    let ghost base = out@;
    push_str(out, "    T");
    push_decimal(out, from);
    push_str(out, " --> ");
    push_node_id(out, to);
    push_str(out, "\n");
    assert(out@ =~= base + arrow_line(from, node_id(to)));
}

fn push_links(out: &mut String, thoughts: &[ThoughtData], i: usize)
    requires
        i < thoughts@.len(),
    ensures
        final(out)@ == old(out)@ + mermaid_links(thoughts_view(thoughts@), i as int),
{
    let ghost ts = thoughts_view(thoughts@);
    let t = &thoughts[i];
    assert(ts[i as int] == t@);
    let ghost base = out@;
    let ghost id = node_id(t.thought_number);
    let has_parents = match &t.parent_thoughts {
        Some(p) => p.len() > 0,
        None => false,
    };
    if has_parents {
        let parents = t.parent_thoughts.as_ref().unwrap();
        let mut k: usize = 0;
        while k < parents.len()
            invariant
                k <= parents@.len(),
                out@ == base + parent_arrows(parents@.take(k as int), id),
                id == node_id(t.thought_number),
            decreases parents.len() - k,
        {
            push_arrow_line(out, parents[k], t.thought_number);
            assert(parents@.take(k + 1).drop_last() =~= parents@.take(k as int));
            assert(out@ =~= base + parent_arrows(parents@.take(k + 1), id));
            k = k + 1;
        }
        assert(parents@.take(parents.len() as int) =~= parents@);
    } else if t.branch_from_thought.is_some() {
        push_arrow_line(out, t.branch_from_thought.unwrap(), t.thought_number);
    } else if t.is_revision_flag() {
        match t.revises_thought {
            Some(r) => {
                push_str(out, "    T");
                push_decimal(out, r);
                push_str(out, " -.->|revises| ");
                push_node_id(out, t.thought_number);
                push_str(out, "\n");
            },
            None => {},
        }
    } else if i > 0 {
        assert(ts[i - 1] == thoughts@[i - 1]@);
        push_str(out, "    ");
        push_node_id(out, thoughts[i - 1].thought_number);
        push_str(out, " --> ");
        push_node_id(out, t.thought_number);
        push_str(out, "\n");
    }
    assert(out@ =~= base + mermaid_links(ts, i as int));
}

fn push_class(out: &mut String, t: &ThoughtData)
    ensures
        final(out)@ == old(out)@ + mermaid_class(t@),
{
    if t.is_revision_flag() {
        push_str(out, "revision");
    } else if t.branch_from_thought.is_some() {
        push_str(out, "branch");
    } else if t.hypothesis.is_some() {
        push_str(out, "hypothesis");
    } else {
        push_str(out, "standard");
    }
}

/// Appends the Mermaid block of thought `i` to `out`.
pub fn push_mermaid_block(out: &mut String, thoughts: &[ThoughtData], i: usize)
    requires
        i < thoughts@.len(),
    ensures
        final(out)@ == old(out)@ + mermaid_block(thoughts_view(thoughts@), i as int),
{
    let ghost ts = thoughts_view(thoughts@);
    let t = &thoughts[i];
    assert(ts[i as int] == t@);
    let ghost base = out@;
    push_str(out, "    ");
    push_node_id(out, t.thought_number);
    push_str(out, "[\"T");
    push_decimal(out, t.thought_number);
    push_str(out, ": ");
    push_label_preview(out, &t.thought);
    push_str(out, "\"]\n");
    push_str(out, "    class ");
    push_node_id(out, t.thought_number);
    push_str(out, " ");
    push_class(out, t);
    push_str(out, "\n");
    push_links(out, thoughts, i);
    assert(out@ =~= base + mermaid_block(ts, i as int));
}

/// Generates a Mermaid DAG diagram from a list of thoughts.
pub fn generate_mermaid(thoughts: &[ThoughtData]) -> (r: String)
    ensures
        r@ == mermaid_text(thoughts_view(thoughts@)),
{
    let ghost ts = thoughts_view(thoughts@);
    let mut mermaid = String::new();
    push_str(&mut mermaid, "graph TD\n");
    push_str(&mut mermaid, "    classDef revision fill:#fafd7c,stroke:#d4b200,stroke-width:2px,color:#000;\n");
    push_str(&mut mermaid, "    classDef branch fill:#a1e887,stroke:#3b7a14,stroke-width:2px,color:#000;\n");
    push_str(&mut mermaid, "    classDef hypothesis fill:#d1b3ff,stroke:#6a3d9a,stroke-width:2px,color:#000;\n");
    push_str(&mut mermaid, "    classDef standard fill:#a5ccf7,stroke:#265c96,stroke-width:2px,color:#000;\n\n");
    assert(mermaid@ =~= mermaid_header());
    let mut i: usize = 0;
    while i < thoughts.len()
        invariant
            i <= thoughts@.len(),
            ts == thoughts_view(thoughts@),
            mermaid@ == mermaid_header() + mermaid_blocks(ts, i as int),
        decreases thoughts@.len() - i,
    {
        push_mermaid_block(&mut mermaid, thoughts, i);
        assert(mermaid@ =~= mermaid_header() + mermaid_blocks(ts, i + 1));
        i = i + 1;
    }
    mermaid
}

proof fn lemma_blocks_split(ts: Seq<ThoughtView>, i: int, k: int)
    requires
        0 <= i < k,
    ensures
        exists|post: Seq<char>| #[trigger] mermaid_blocks(ts, k) == mermaid_blocks(ts, i) + mermaid_block(ts, i) + post,
    decreases k,
{
    if k == i + 1 {
        assert(mermaid_blocks(ts, k) == mermaid_blocks(ts, i) + mermaid_block(ts, i) + Seq::<char>::empty());
    } else {
        lemma_blocks_split(ts, i, k - 1);
        let post = choose|post: Seq<char>| #[trigger] mermaid_blocks(ts, k - 1) == mermaid_blocks(ts, i) + mermaid_block(ts, i) + post;
        assert(mermaid_blocks(ts, k) =~= mermaid_blocks(ts, i) + mermaid_block(ts, i) + (post + mermaid_block(ts, k - 1)));
    }
}

/// The class line of thought `i` appears in the diagram.
#[verifier::rlimit(40)]
proof fn lemma_class_line_shown(ts: Seq<ThoughtView>, i: int)
    requires
        0 <= i < ts.len(),
    ensures
        contains_text(
            mermaid_text(ts),
            "    class "@ + node_id(ts[i].thought_number) + " "@ + mermaid_class(ts[i]) + "\n"@,
        ),
{
    let t = ts[i];
    let id = node_id(t.thought_number);
    let line = "    class "@ + id + " "@ + mermaid_class(t) + "\n"@;
    lemma_blocks_split(ts, i, ts.len() as int);
    let post = choose|post: Seq<char>| #[trigger] mermaid_blocks(ts, ts.len() as int)
        == mermaid_blocks(ts, i) + mermaid_block(ts, i) + post;
    let pv = mermaid_preview(t.thought);
    let links = mermaid_links(ts, i);
    let cls = mermaid_class(t);
    let head = "    "@ + id + "[\"T"@ + decimal(t.thought_number as nat) + ": "@ + pv + "\"]\n"@;
    assert(mermaid_block(ts, i) == head + "    class "@ + id + " "@ + cls + "\n"@ + links);
    assert(mermaid_block(ts, i) =~= head + line + links) by {
        assert(head + "    class "@ + id + " "@ + cls + "\n"@ + links =~= head + line + links);
    }
    let hd = mermaid_header();
    let pre = mermaid_blocks(ts, i);
    let blk = mermaid_block(ts, i);
    assert(mermaid_text(ts) == hd + (pre + blk + post));
    let a = hd + pre + head;
    let b = links + post;
    assert(hd + (pre + blk + post) =~= a + line + b) by {
        assert(blk == head + line + links);
    }
    lemma_contains_middle(a, line, b);
}

/// Every branch thought that is not a revision is drawn with the branch style: the line
/// `    class T<n> branch` appears in the diagram. The standard style goes only to thoughts
/// that are neither revisions nor branches and carry no hypothesis.
pub proof fn lemma_branch_style(ts: Seq<ThoughtView>, i: int)
    requires
        0 <= i < ts.len(),
    ensures
        (!ts[i].revision() && ts[i].branch_from_thought is Some) ==> contains_text(
            mermaid_text(ts),
            "    class "@ + node_id(ts[i].thought_number) + " "@ + "branch"@ + "\n"@,
        ),
        mermaid_class(ts[i]) == "standard"@ ==> {
            &&& !ts[i].revision()
            &&& ts[i].branch_from_thought is None
            &&& ts[i].hypothesis is None
        },
{
    lemma_class_line_shown(ts, i);
    reveal_strlit("standard");
    reveal_strlit("revision");
    reveal_strlit("branch");
    reveal_strlit("hypothesis");
    if mermaid_class(ts[i]) == "standard"@ {
        assert(mermaid_class(ts[i]).len() == 8);
        assert(mermaid_class(ts[i])[0] == 's');
    }
}

} // verus!
