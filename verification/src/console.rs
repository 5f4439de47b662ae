//! The boxed console rendering of a thought: its layout, line by line, with the style of
//! each piece of text. Colouring and the confidence row (a floating-point rendering) are
//! left to the program that prints the box.

use vstd::prelude::*;
use vstd::string::*;
use vstd::utf8::encode_utf8;
use crate::text::{decimal, push_char, push_decimal, push_str};
use crate::time::{clock_text, format_clock};
use crate::types::{ThoughtData, ThoughtView, strs_view};

verus! {

/// The terminal styles a piece of box text is printed with.
#[derive(Clone, Copy, Debug, PartialEq, Eq, Structural)]
pub enum Style {
    Plain,
    Blue,
    Yellow,
    Green,
    Cyan,
    Magenta,
    Red,
    Dimmed,
    BoldBlue,
    BoldYellow,
    BoldGreen,
}

/// A piece of text and its style.
#[derive(Debug)]
pub struct Segment {
    pub text: String,
    pub style: Style,
}

/// One line of a thought box.
#[derive(Debug)]
pub enum BoxLine {
    /// A horizontal rule, printed in the frame style.
    Border(String),
    /// A framed row: `│ `, the segments, that many padding spaces, then ` │`.
    Row(Vec<Segment>, usize),
    /// The confidence row for the score with this IEEE-754 bit pattern.
    Confidence(u64),
}

/// A thought box: the style of its frame, the width of its text area, and its lines.
#[derive(Debug)]
pub struct ThoughtBox {
    pub frame: Style,
    pub border_len: usize,
    pub lines: Vec<BoxLine>,
}

/// The mathematical content of a [`BoxLine`].
pub ghost enum LineView {
    Border(Seq<char>),
    Row(Seq<(Seq<char>, Style)>, usize),
    Confidence(u64),
}

pub open spec fn segments_view(v: Vec<Segment>) -> Seq<(Seq<char>, Style)> {
    v@.map_values(|s: Segment| (s.text@, s.style))
}

impl View for BoxLine {
    type V = LineView;

    open spec fn view(&self) -> LineView {
        match self {
            BoxLine::Border(s) => LineView::Border(s@),
            BoxLine::Row(v, p) => LineView::Row(segments_view(*v), *p),
            BoxLine::Confidence(b) => LineView::Confidence(*b),
        }
    }
}

pub open spec fn lines_view(v: Vec<BoxLine>) -> Seq<LineView> {
    v@.map_values(|l: BoxLine| l@)
}

/// The lines that `textwrap::wrap` breaks `text` into for a line width of `width` columns,
/// with its default options.
pub uninterp spec fn wrapped_lines(text: Seq<char>, width: usize) -> Seq<Seq<char>>;

/// `textwrap::wrap(text, width)` with the default options, each line copied into a `String`.
/// The lines are named by [`wrapped_lines`], a function of the text and the width alone.
#[verifier::external_body]
fn wrap_text(text: &str, width: usize) -> (lines: Vec<String>)
    ensures
        strs_view(lines) == wrapped_lines(text@, width),
{
    textwrap::wrap(text, width).into_iter().map(|line| line.into_owned()).collect()
}

/// The box width for a terminal width reading: 80 columns when none is available, else the
/// reading clamped to 40..=100.
pub open spec fn terminal_width(queried: Option<u16>) -> usize {
    match queried {
        None => 80,
        Some(w) => if w < 40 { 40 } else if w > 100 { 100 } else { w as usize },
    }
}

/// The frame style: yellow for a revision, green for a branch, blue otherwise.
pub open spec fn frame_style(t: ThoughtView) -> Style {
    if t.revision() {
        Style::Yellow
    } else if t.branch_from_thought is Some {
        Style::Green
    } else {
        Style::Blue
    }
}

/// The kind of the thought as one word.
pub open spec fn kind_word(t: ThoughtView) -> Seq<char> {
    if t.revision() {
        "Revision"@
    } else if t.branch_from_thought is Some {
        "Branch"@
    } else {
        "Thought"@
    }
}

/// The styled kind label that opens the header.
pub open spec fn kind_label(t: ThoughtView) -> (Seq<char>, Style) {
    if t.revision() {
        ("🔄 Revision"@, Style::BoldYellow)
    } else if t.branch_from_thought is Some {
        ("🌿 Branch"@, Style::BoldGreen)
    } else {
        ("💭 Thought"@, Style::BoldBlue)
    }
}

/// `" <number>/<total>"`.
pub open spec fn header_counts(t: ThoughtView) -> Seq<char> {
    " "@ + decimal(t.thought_number as nat) + "/"@ + decimal(t.total_thoughts as nat)
}

/// What the thought revises or branches from, as shown in the header.
pub open spec fn header_context(t: ThoughtView) -> Seq<char> {
    if t.revision() {
        " (revising thought "@ + decimal(
            (match t.revises_thought { Some(r) => r, None => 0usize }) as nat,
        ) + ")"@
    } else {
        match t.branch_from_thought {
            Some(b) => " (from thought "@ + decimal(b as nat) + ", ID: "@
                + (match t.branch_id { Some(id) => id, None => "unknown"@ }) + ")"@,
            None => Seq::empty(),
        }
    }
}

/// The clock time of the thought, as shown in the header.
pub open spec fn header_time(t: ThoughtView) -> Seq<char> {
    match t.timestamp {
        Some(ts) => " @ "@ + clock_text(ts.secs, ts.nanos),
        None => Seq::empty(),
    }
}

/// The header text without its icon, which sets the header row's padding.
pub open spec fn header_plain(t: ThoughtView) -> Seq<char> {
    kind_word(t) + header_counts(t) + header_context(t) + header_time(t)
}

/// The length of the UTF-8 encoding of `s` (`str::len`).
pub open spec fn byte_len(s: Seq<char>) -> usize {
    encode_utf8(s).len() as usize
}

/// The spaces that pad a row whose text is measured by `shown`: the text area is
/// `border_len + 2` wide, and a longer text gets none.
pub open spec fn row_padding(border_len: usize, shown: Seq<char>) -> usize {
    if byte_len(shown) >= border_len + 2 {
        0
    } else {
        (border_len + 2 - byte_len(shown)) as usize
    }
}

/// A horizontal rule: `left`, `border_len + 2` box-drawing dashes, `right`.
pub open spec fn rule(left: char, right: char, border_len: usize) -> Seq<char> {
    seq![left] + Seq::new((border_len + 2) as nat, |i: int| '─') + seq![right]
}

/// The header row.
pub open spec fn header_row(t: ThoughtView, border_len: usize) -> LineView {
    LineView::Row(
        seq![
            kind_label(t),
            (header_counts(t), Style::Plain),
            (header_context(t), Style::Cyan),
            (header_time(t), Style::Dimmed),
        ],
        row_padding(border_len, header_plain(t)),
    )
}

/// One row per wrapped line of `text`, each a single segment in `style`.
pub open spec fn wrapped_rows(text: Seq<char>, border_len: usize, style: Style) -> Seq<LineView> {
    wrapped_lines(text, border_len).map_values(
        |w: Seq<char>| LineView::Row(seq![(w, style)], row_padding(border_len, w)),
    )
}

/// The rows of a labelled list: for each item in order, the wrapped rows of the label
/// followed by the item.
pub open spec fn item_rows(label: Seq<char>, items: Seq<Seq<char>>, border_len: usize, style: Style) -> Seq<LineView>
    decreases items.len(),
{
    if items.len() == 0 {
        Seq::empty()
    } else {
        item_rows(label, items.drop_last(), border_len, style)
            + wrapped_rows(label + items.last(), border_len, style)
    }
}

/// The items of an optional list (none when absent).
pub open spec fn list_items(o: Option<Seq<Seq<char>>>) -> Seq<Seq<char>> {
    match o {
        Some(l) => l,
        None => Seq::empty(),
    }
}

/// An optional text as a list of at most one item.
pub open spec fn opt_item(o: Option<Seq<char>>) -> Seq<Seq<char>> {
    match o {
        Some(s) => seq![s],
        None => Seq::empty(),
    }
}

/// Whether the thought carries any of the annotations shown between header and text.
pub open spec fn has_annotations(t: ThoughtView) -> bool {
    ||| t.confidence_score is Some
    ||| list_items(t.assumptions).len() > 0
    ||| list_items(t.verified_assumptions).len() > 0
    ||| t.criticism is Some
    ||| t.hypothesis is Some
    ||| t.verification_method is Some
    ||| list_items(t.left_to_be_done).len() > 0
}

/// The annotation rows: confidence, assumptions, verified assumptions, criticism,
/// hypothesis, verification method, then the open items.
pub open spec fn annotation_rows(t: ThoughtView, border_len: usize) -> Seq<LineView> {
    (match t.confidence_score {
        Some(c) => seq![LineView::Confidence(c)],
        None => Seq::empty(),
    })
        + item_rows(" 🤔 Assumption: "@, list_items(t.assumptions), border_len, Style::Magenta)
        + item_rows(" ✅ Verified: "@, list_items(t.verified_assumptions), border_len, Style::Green)
        + item_rows(" 🧐 Criticism: "@, opt_item(t.criticism), border_len, Style::Red)
        + item_rows(" 🔬 Hypothesis: "@, opt_item(t.hypothesis), border_len, Style::Cyan)
        + item_rows(" 🧪 Verification: "@, opt_item(t.verification_method), border_len, Style::Cyan)
        + item_rows(" 📋 TODO: "@, list_items(t.left_to_be_done), border_len, Style::Yellow)
}

/// The lines of the box for thought `t`: top rule, header, a rule and the annotation rows
/// when there are annotations, a rule, the wrapped thought text, and the bottom rule.
pub open spec fn box_lines(t: ThoughtView, border_len: usize) -> Seq<LineView> {
    seq![LineView::Border(rule('┌', '┐', border_len)), header_row(t, border_len)]
        + (if has_annotations(t) {
            seq![LineView::Border(rule('├', '┤', border_len))]
        } else {
            Seq::empty()
        })
        + annotation_rows(t, border_len)
        + seq![LineView::Border(rule('├', '┤', border_len))]
        + wrapped_rows(t.thought, border_len, Style::Plain)
        + seq![LineView::Border(rule('└', '┘', border_len))]
}

/// The box width for a terminal width reading (`None` when the terminal size is unknown).
pub fn get_terminal_width(queried: Option<u16>) -> (w: usize)
    ensures
        w == terminal_width(queried),
        40 <= w <= 100,
{
    match queried {
        None => 80,
        Some(w) => {
            if w < 40 {
                40
            } else if w > 100 {
                100
            } else {
                w as usize
            }
        },
    }
}

fn rule_text(left: char, right: char, border_len: usize) -> (s: String)
    requires
        border_len <= 96,
    ensures
        s@ == rule(left, right, border_len),
{
    let mut s = String::new();
    push_char(&mut s, left);
    let n = border_len + 2;
    let mut i: usize = 0;
    while i < n
        invariant
            n == border_len + 2,
            i <= n,
            s@ =~= seq![left] + Seq::new(i as nat, |k: int| '─'),
        decreases n - i,
    {
        push_char(&mut s, '─');
        i = i + 1;
    }
    push_char(&mut s, right);
    assert(s@ =~= rule(left, right, border_len));
    s
}

fn padding_for(border_len: usize, shown: &str) -> (p: usize)
    requires
        border_len <= 96,
    ensures
        p == row_padding(border_len, shown@),
{
    let n = shown.len();
    let w = border_len + 2;
    if n >= w {
        0
    } else {
        w - n
    }
}

fn push_line(out: &mut Vec<BoxLine>, line: BoxLine)
    ensures
        lines_view(*final(out)) == lines_view(*old(out)).push(line@),
{
    out.push(line);
    assert(lines_view(*out) =~= lines_view(*old(out)).push(line@));
}

fn push_wrapped_rows(out: &mut Vec<BoxLine>, text: &str, border_len: usize, style: Style)
    requires
        border_len <= 96,
    ensures
        lines_view(*final(out)) == lines_view(*old(out)) + wrapped_rows(text@, border_len, style),
{
    let wrapped = wrap_text(text, border_len);
    let ghost base = lines_view(*out);
    let ghost rows = wrapped_rows(text@, border_len, style);
    let mut i: usize = 0;
    while i < wrapped.len()
        invariant
            border_len <= 96,
            i <= wrapped@.len(),
            strs_view(wrapped) == wrapped_lines(text@, border_len),
            rows == wrapped_rows(text@, border_len, style),
            rows.len() == wrapped@.len(),
            lines_view(*out) =~= base + rows.take(i as int),
        decreases wrapped@.len() - i,
    {
        let w = &wrapped[i];
        assert(strs_view(wrapped)[i as int] == w@);
        let padding = padding_for(border_len, w.as_str());
        let mut segs: Vec<Segment> = Vec::new();
        segs.push(Segment { text: w.clone(), style });
        assert(segments_view(segs) =~= seq![(w@, style)]);
        push_line(out, BoxLine::Row(segs, padding));
        assert(rows.take(i + 1) =~= rows.take(i as int).push(rows[i as int]));
        i = i + 1;
    }
    assert(rows.take(wrapped@.len() as int) =~= rows);
}

fn push_labelled(out: &mut Vec<BoxLine>, label: &str, item: &String, border_len: usize, style: Style)
    requires
        border_len <= 96,
    ensures
        lines_view(*final(out)) == lines_view(*old(out)) + wrapped_rows(label@ + item@, border_len, style),
{
    let mut text = String::new();
    push_str(&mut text, label);
    push_str(&mut text, item.as_str());
    assert(text@ =~= label@ + item@);
    push_wrapped_rows(out, text.as_str(), border_len, style);
}

fn push_item_rows(out: &mut Vec<BoxLine>, label: &str, items: &Vec<String>, border_len: usize, style: Style)
    requires
        border_len <= 96,
    ensures
        lines_view(*final(out)) == lines_view(*old(out)) + item_rows(label@, strs_view(*items), border_len, style),
{
    let ghost base = lines_view(*out);
    let ghost all = strs_view(*items);
    let mut i: usize = 0;
    while i < items.len()
        invariant
            border_len <= 96,
            i <= items@.len(),
            all == strs_view(*items),
            all.len() == items@.len(),
            lines_view(*out) =~= base + item_rows(label@, all.take(i as int), border_len, style),
        decreases items@.len() - i,
    {
        assert(all[i as int] == items@[i as int]@);
        push_labelled(out, label, &items[i], border_len, style);
        proof {
            let next = all.take(i + 1);
            assert(next.drop_last() =~= all.take(i as int));
            assert(next.last() == all[i as int]);
        }
        i = i + 1;
    }
    assert(all.take(items@.len() as int) =~= all);
}

fn push_list_rows(out: &mut Vec<BoxLine>, label: &str, items: &Option<Vec<String>>, border_len: usize, style: Style)
    requires
        border_len <= 96,
    ensures
        lines_view(*final(out)) == lines_view(*old(out))
            + item_rows(label@, list_items(crate::types::opt_strs_view(*items)), border_len, style),
{
    match items {
        Some(v) => push_item_rows(out, label, v, border_len, style),
        None => {
            assert(lines_view(*out) =~= lines_view(*out) + Seq::<LineView>::empty());
        },
    }
}

fn push_opt_rows(out: &mut Vec<BoxLine>, label: &str, item: &Option<String>, border_len: usize, style: Style)
    requires
        border_len <= 96,
    ensures
        lines_view(*final(out)) == lines_view(*old(out))
            + item_rows(label@, opt_item(crate::types::opt_str_view(*item)), border_len, style),
{
    match item {
        Some(s) => {
            proof {
                let one = seq![s@];
                assert(one.drop_last() =~= Seq::<Seq<char>>::empty());
                assert(item_rows(label@, Seq::<Seq<char>>::empty(), border_len, style) =~= Seq::<LineView>::empty());
                assert(item_rows(label@, one, border_len, style) =~= wrapped_rows(label@ + s@, border_len, style));
            }
            push_labelled(out, label, s, border_len, style);
        },
        None => {
            assert(lines_view(*out) =~= lines_view(*out) + Seq::<LineView>::empty());
        },
    }
}

fn context_text(t: &ThoughtData) -> (s: String)
    ensures
        s@ == header_context(t@),
{
    let mut s = String::new();
    if t.is_revision_flag() {
        let rev = match t.revises_thought {
            Some(r) => r,
            None => 0,
        };
        push_str(&mut s, " (revising thought ");
        push_decimal(&mut s, rev);
        push_str(&mut s, ")");
    } else {
        match t.branch_from_thought {
            Some(b) => {
                push_str(&mut s, " (from thought ");
                push_decimal(&mut s, b);
                push_str(&mut s, ", ID: ");
                match &t.branch_id {
                    Some(id) => push_str(&mut s, id.as_str()),
                    None => push_str(&mut s, "unknown"),
                }
                push_str(&mut s, ")");
            },
            None => {},
        }
    }
    assert(s@ =~= header_context(t@));
    s
}

fn time_text(t: &ThoughtData) -> (s: String)
    ensures
        s@ == header_time(t@),
{
    let mut s = String::new();
    match t.timestamp {
        Some(ts) => {
            push_str(&mut s, " @ ");
            let clock = format_clock(ts);
            push_str(&mut s, clock.as_str());
        },
        None => {},
    }
    assert(s@ =~= header_time(t@));
    s
}

fn header_line(t: &ThoughtData, border_len: usize) -> (l: BoxLine)
    requires
        border_len <= 96,
    ensures
        l@ == header_row(t@, border_len),
{
    let revision = t.is_revision_flag();
    let (label, label_style, word) = if revision {
        ("🔄 Revision", Style::BoldYellow, "Revision")
    } else if t.branch_from_thought.is_some() {
        ("🌿 Branch", Style::BoldGreen, "Branch")
    } else {
        ("💭 Thought", Style::BoldBlue, "Thought")
    };
    assert((label@, label_style) == kind_label(t@));
    assert(word@ == kind_word(t@));
    let mut counts = String::new();
    push_str(&mut counts, " ");
    push_decimal(&mut counts, t.thought_number);
    push_str(&mut counts, "/");
    push_decimal(&mut counts, t.total_thoughts);
    assert(counts@ =~= header_counts(t@));
    let context = context_text(t);
    let time = time_text(t);
    let mut plain = String::new();
    push_str(&mut plain, word);
    push_str(&mut plain, counts.as_str());
    push_str(&mut plain, context.as_str());
    push_str(&mut plain, time.as_str());
    assert(plain@ =~= header_plain(t@));
    let padding = padding_for(border_len, plain.as_str());
    let mut segs: Vec<Segment> = Vec::new();
    segs.push(Segment { text: String::from_str(label), style: label_style });
    segs.push(Segment { text: counts, style: Style::Plain });
    segs.push(Segment { text: context, style: Style::Cyan });
    segs.push(Segment { text: time, style: Style::Dimmed });
    assert(segments_view(segs) =~= seq![
        kind_label(t@),
        (header_counts(t@), Style::Plain),
        (header_context(t@), Style::Cyan),
        (header_time(t@), Style::Dimmed),
    ]);
    BoxLine::Row(segs, padding)
}

fn has_items(o: &Option<Vec<String>>) -> (r: bool)
    ensures
        r == (list_items(crate::types::opt_strs_view(*o)).len() > 0),
{
    match o {
        Some(v) => v.len() > 0,
        None => false,
    }
}

fn annotation_lines(t: &ThoughtData, border_len: usize) -> (lines: Vec<BoxLine>)
    requires
        border_len <= 96,
    ensures
        lines_view(lines) == annotation_rows(t@, border_len),
{
    let mut lines: Vec<BoxLine> = Vec::new();
    match t.confidence_score {
        Some(c) => push_line(&mut lines, BoxLine::Confidence(c)),
        None => {},
    }
    let ghost conf = lines_view(lines);
    assert(conf =~= (match t@.confidence_score {
        Some(c) => seq![LineView::Confidence(c)],
        None => Seq::empty(),
    }));
    push_list_rows(&mut lines, " 🤔 Assumption: ", &t.assumptions, border_len, Style::Magenta);
    push_list_rows(&mut lines, " ✅ Verified: ", &t.verified_assumptions, border_len, Style::Green);
    push_opt_rows(&mut lines, " 🧐 Criticism: ", &t.criticism, border_len, Style::Red);
    push_opt_rows(&mut lines, " 🔬 Hypothesis: ", &t.hypothesis, border_len, Style::Cyan);
    push_opt_rows(&mut lines, " 🧪 Verification: ", &t.verification_method, border_len, Style::Cyan);
    push_list_rows(&mut lines, " 📋 TODO: ", &t.left_to_be_done, border_len, Style::Yellow);
    lines
}

fn append_lines(out: &mut Vec<BoxLine>, more: Vec<BoxLine>)
    ensures
        lines_view(*final(out)) == lines_view(*old(out)) + lines_view(more),
{
    let mut more = more;
    let ghost added = lines_view(more);
    out.append(&mut more);
    assert(lines_view(*out) =~= lines_view(*old(out)) + added);
}

/// Lays out the console box for a thought at the box width that `get_terminal_width`
/// gives for the terminal width reading `queried_width`.
pub fn format_thought(thought_data: &ThoughtData, queried_width: Option<u16>) -> (b: ThoughtBox)
    ensures
        b.frame == frame_style(thought_data@),
        b.border_len == terminal_width(queried_width) - 4,
        lines_view(b.lines) == box_lines(thought_data@, b.border_len),
{
    let t = thought_data;
    let term_width = get_terminal_width(queried_width);
    let border_len = term_width - 4;
    let frame = if t.is_revision_flag() {
        Style::Yellow
    } else if t.branch_from_thought.is_some() {
        Style::Green
    } else {
        Style::Blue
    };
    let ghost tv = t@;
    let ghost mid = LineView::Border(rule('├', '┤', border_len));
    let mut lines: Vec<BoxLine> = Vec::new();
    push_line(&mut lines, BoxLine::Border(rule_text('┌', '┐', border_len)));
    push_line(&mut lines, header_line(t, border_len));
    let ghost opening = lines_view(lines);
    assert(opening =~= seq![LineView::Border(rule('┌', '┐', border_len)), header_row(tv, border_len)]);
    let annotated = t.confidence_score.is_some() || has_items(&t.assumptions)
        || has_items(&t.verified_assumptions) || t.criticism.is_some() || t.hypothesis.is_some()
        || t.verification_method.is_some() || has_items(&t.left_to_be_done);
    assert(annotated == has_annotations(tv));
    if annotated {
        push_line(&mut lines, BoxLine::Border(rule_text('├', '┤', border_len)));
    }
    let ghost stage1 = lines_view(lines);
    assert(stage1 =~= opening + (if has_annotations(tv) { seq![mid] } else { Seq::empty() }));
    let notes = annotation_lines(t, border_len);
    append_lines(&mut lines, notes);
    let ghost stage2 = lines_view(lines);
    assert(stage2 == stage1 + annotation_rows(tv, border_len));
    push_line(&mut lines, BoxLine::Border(rule_text('├', '┤', border_len)));
    let ghost stage3 = lines_view(lines);
    assert(stage3 =~= stage2 + seq![mid]);
    push_wrapped_rows(&mut lines, t.thought.as_str(), border_len, Style::Plain);
    let ghost stage4 = lines_view(lines);
    assert(stage4 == stage3 + wrapped_rows(tv.thought, border_len, Style::Plain));
    push_line(&mut lines, BoxLine::Border(rule_text('└', '┘', border_len)));
    assert(lines_view(lines) =~= stage4 + seq![LineView::Border(rule('└', '┘', border_len))]);
    ThoughtBox { frame, border_len, lines }
}

} // verus!
