//! The records exchanged with clients: thoughts, tool results and tool replies.

use vstd::prelude::*;


verus! {

/// A UTC instant: whole seconds since the Unix epoch and the nanoseconds within that second.
#[derive(Clone, Copy, Debug, PartialEq, Eq, Structural)]
pub struct Timestamp {
    pub secs: i64,
    pub nanos: u32,
}

/// One reasoning step submitted by a client.
///
/// `confidence_score` holds the IEEE-754 bit pattern of the client's confidence
/// (a number between 0.0 and 1.0); the library carries it through unchanged.
#[derive(Debug)]
pub struct ThoughtData {
    pub thought: String,
    pub thought_number: usize,
    pub total_thoughts: usize,
    pub next_thought_needed: bool,
    pub is_revision: Option<bool>,
    pub revises_thought: Option<usize>,
    pub branch_from_thought: Option<usize>,
    pub branch_id: Option<String>,
    pub needs_more_thoughts: Option<bool>,
    pub parent_thoughts: Option<Vec<usize>>,
    pub assumptions: Option<Vec<String>>,
    pub verified_assumptions: Option<Vec<String>>,
    pub confidence_score: Option<u64>,
    pub criticism: Option<String>,
    pub hypothesis: Option<String>,
    pub verification_method: Option<String>,
    pub left_to_be_done: Option<Vec<String>>,
    pub timestamp: Option<Timestamp>,
    pub session_id: Option<String>,
}

/// What the `sequentialthinking` tool reports after recording a thought.
///
/// `confidence_history` holds, for each thought of the session in order, the bit pattern of
/// its confidence score when it has one.
#[derive(Debug)]
pub struct ToolResult {
    pub thought_number: usize,
    pub total_thoughts: usize,
    pub next_thought_needed: bool,
    pub branches: Vec<String>,
    pub thought_history_length: usize,
    pub thought_graph_mermaid: String,
    pub confidence_history: Vec<Option<u64>>,
    pub left_to_be_done: Vec<String>,
    pub session_id: String,
}

/// A text item of a tool reply.
#[derive(Debug)]
pub struct TextContent {
    pub content_type: String,
    pub text: String,
}

/// The reply to a tool call: its content, and whether the call failed.
#[derive(Debug)]
pub struct ToolCallResponse {
    pub content: Vec<TextContent>,
    pub is_error: Option<bool>,
}

/// The mathematical content of a [`ThoughtData`].
pub ghost struct ThoughtView {
    pub thought: Seq<char>,
    pub thought_number: usize,
    pub total_thoughts: usize,
    pub next_thought_needed: bool,
    pub is_revision: Option<bool>,
    pub revises_thought: Option<usize>,
    pub branch_from_thought: Option<usize>,
    pub branch_id: Option<Seq<char>>,
    pub needs_more_thoughts: Option<bool>,
    pub parent_thoughts: Option<Seq<usize>>,
    pub assumptions: Option<Seq<Seq<char>>>,
    pub verified_assumptions: Option<Seq<Seq<char>>>,
    pub confidence_score: Option<u64>,
    pub criticism: Option<Seq<char>>,
    pub hypothesis: Option<Seq<char>>,
    pub verification_method: Option<Seq<char>>,
    pub left_to_be_done: Option<Seq<Seq<char>>>,
    pub timestamp: Option<Timestamp>,
    pub session_id: Option<Seq<char>>,
}

pub open spec fn opt_str_view(o: Option<String>) -> Option<Seq<char>> {
    match o {
        Some(s) => Some(s@),
        None => None,
    }
}

pub open spec fn strs_view(v: Vec<String>) -> Seq<Seq<char>> {
    v@.map_values(|s: String| s@)
}

pub open spec fn opt_strs_view(o: Option<Vec<String>>) -> Option<Seq<Seq<char>>> {
    match o {
        Some(v) => Some(strs_view(v)),
        None => None,
    }
}

pub open spec fn opt_nums_view(o: Option<Vec<usize>>) -> Option<Seq<usize>> {
    match o {
        Some(v) => Some(v@),
        None => None,
    }
}

impl View for ThoughtData {
    type V = ThoughtView;

    open spec fn view(&self) -> ThoughtView {
        ThoughtView {
            thought: self.thought@,
            thought_number: self.thought_number,
            total_thoughts: self.total_thoughts,
            next_thought_needed: self.next_thought_needed,
            is_revision: self.is_revision,
            revises_thought: self.revises_thought,
            branch_from_thought: self.branch_from_thought,
            branch_id: opt_str_view(self.branch_id),
            needs_more_thoughts: self.needs_more_thoughts,
            parent_thoughts: opt_nums_view(self.parent_thoughts),
            assumptions: opt_strs_view(self.assumptions),
            verified_assumptions: opt_strs_view(self.verified_assumptions),
            confidence_score: self.confidence_score,
            criticism: opt_str_view(self.criticism),
            hypothesis: opt_str_view(self.hypothesis),
            verification_method: opt_str_view(self.verification_method),
            left_to_be_done: opt_strs_view(self.left_to_be_done),
            timestamp: self.timestamp,
            session_id: opt_str_view(self.session_id),
        }
    }
}

/// The views of a sequence of thoughts.
pub open spec fn thoughts_view(ts: Seq<ThoughtData>) -> Seq<ThoughtView> {
    ts.map_values(|t: ThoughtData| t@)
}

impl ThoughtView {
    /// Whether the thought is flagged as a revision (`isRevision`, absent meaning false).
    pub open spec fn revision(self) -> bool {
        self.is_revision == Some(true)
    }

    /// The merge parents of the thought (empty when absent).
    pub open spec fn parents(self) -> Seq<usize> {
        match self.parent_thoughts {
            Some(p) => p,
            None => Seq::empty(),
        }
    }

    /// The thoughts this one depends on: its merge parents, then the thought it
    /// branches from, then the thought it revises.
    pub open spec fn dependencies(self) -> Seq<usize> {
        self.parents()
            + (match self.branch_from_thought { Some(b) => seq![b], None => Seq::empty() })
            + (match self.revises_thought { Some(r) => seq![r], None => Seq::empty() })
    }
}

/// Copies a string.
pub fn copy_string(s: &String) -> (r: String)
    ensures
        r@ == s@,
{
    s.clone()
}

/// Copies an optional string.
pub fn copy_opt_string(o: &Option<String>) -> (r: Option<String>)
    ensures
        opt_str_view(r) == opt_str_view(*o),
{
    match o {
        Some(s) => Some(s.clone()),
        None => None,
    }
}

/// Copies a list of strings.
pub fn copy_strings(v: &Vec<String>) -> (r: Vec<String>)
    ensures
        strs_view(r) == strs_view(*v),
{
    let mut r: Vec<String> = Vec::new();
    let mut i: usize = 0;
    while i < v.len()
        invariant
            i <= v.len(),
            r@.len() == i,
            forall|j: int| 0 <= j < i ==> #[trigger] r@[j]@ == v@[j]@,
        decreases v.len() - i,
    {
        let c = v[i].clone();
        r.push(c);
        i = i + 1;
    }
    assert(strs_view(r) =~= strs_view(*v));
    r
}

/// Copies an optional list of strings.
pub fn copy_opt_strings(o: &Option<Vec<String>>) -> (r: Option<Vec<String>>)
    ensures
        opt_strs_view(r) == opt_strs_view(*o),
{
    match o {
        Some(v) => Some(copy_strings(v)),
        None => None,
    }
}

/// Copies an optional list of numbers.
pub fn copy_opt_nums(o: &Option<Vec<usize>>) -> (r: Option<Vec<usize>>)
    ensures
        opt_nums_view(r) == opt_nums_view(*o),
{
    match o {
        Some(v) => {
            let mut r: Vec<usize> = Vec::new();
            let mut i: usize = 0;
            while i < v.len()
                invariant
                    i <= v.len(),
                    r@ =~= v@.take(i as int),
                decreases v.len() - i,
            {
                r.push(v[i]);
                i = i + 1;
            }
            assert(v@.take(v.len() as int) =~= v@);
            Some(r)
        },
        None => None,
    }
}

impl ThoughtData {
    /// A thought with the four required fields set and every optional field absent.
    pub fn new(thought: String, thought_number: usize, total_thoughts: usize, next_thought_needed: bool) -> (t: ThoughtData)
        ensures
            t@.thought == thought@,
            t@.thought_number == thought_number,
            t@.total_thoughts == total_thoughts,
            t@.next_thought_needed == next_thought_needed,
            t@.is_revision is None,
            t@.revises_thought is None,
            t@.branch_from_thought is None,
            t@.branch_id is None,
            t@.needs_more_thoughts is None,
            t@.parent_thoughts is None,
            t@.assumptions is None,
            t@.verified_assumptions is None,
            t@.confidence_score is None,
            t@.criticism is None,
            t@.hypothesis is None,
            t@.verification_method is None,
            t@.left_to_be_done is None,
            t@.timestamp is None,
            t@.session_id is None,
    {
        ThoughtData {
            thought,
            thought_number,
            total_thoughts,
            next_thought_needed,
            is_revision: None,
            revises_thought: None,
            branch_from_thought: None,
            branch_id: None,
            needs_more_thoughts: None,
            parent_thoughts: None,
            assumptions: None,
            verified_assumptions: None,
            confidence_score: None,
            criticism: None,
            hypothesis: None,
            verification_method: None,
            left_to_be_done: None,
            timestamp: None,
            session_id: None,
        }
    }

    /// An independent copy of the thought.
    pub fn duplicate(&self) -> (r: ThoughtData)
        ensures
            r@ == self@,
    {
        ThoughtData {
            thought: copy_string(&self.thought),
            thought_number: self.thought_number,
            total_thoughts: self.total_thoughts,
            next_thought_needed: self.next_thought_needed,
            is_revision: self.is_revision,
            revises_thought: self.revises_thought,
            branch_from_thought: self.branch_from_thought,
            branch_id: copy_opt_string(&self.branch_id),
            needs_more_thoughts: self.needs_more_thoughts,
            parent_thoughts: copy_opt_nums(&self.parent_thoughts),
            assumptions: copy_opt_strings(&self.assumptions),
            verified_assumptions: copy_opt_strings(&self.verified_assumptions),
            confidence_score: self.confidence_score,
            criticism: copy_opt_string(&self.criticism),
            hypothesis: copy_opt_string(&self.hypothesis),
            verification_method: copy_opt_string(&self.verification_method),
            left_to_be_done: copy_opt_strings(&self.left_to_be_done),
            timestamp: self.timestamp,
            session_id: copy_opt_string(&self.session_id),
        }
    }

    /// The thoughts this one depends on: merge parents, then the branch origin, then the revised thought.
    pub fn dependencies(&self) -> (r: Vec<usize>)
        ensures
            r@ == self@.dependencies(),
    {
        let mut deps: Vec<usize> = Vec::new();
        match &self.parent_thoughts {
            Some(parents) => {
                let mut i: usize = 0;
                while i < parents.len()
                    invariant
                        i <= parents.len(),
                        deps@ =~= parents@.take(i as int),
                    decreases parents.len() - i,
                {
                    deps.push(parents[i]);
                    i = i + 1;
                }
                assert(parents@.take(parents.len() as int) =~= parents@);
            },
            None => {},
        }
        let ghost with_parents = deps@;
        match self.branch_from_thought {
            Some(b) => deps.push(b),
            None => {},
        }
        let ghost with_branch = deps@;
        match self.revises_thought {
            Some(r) => deps.push(r),
            None => {},
        }
        assert(deps@ =~= self@.dependencies());
        deps
    }

    /// Whether the thought is flagged as a revision (`isRevision`, absent meaning false).
    pub fn is_revision_flag(&self) -> (b: bool)
        ensures
            b == self@.revision(),
    {
        match self.is_revision {
            Some(b) => b,
            None => false,
        }
    }
}

/// Copies a list of thoughts.
pub fn copy_thoughts(v: &Vec<ThoughtData>) -> (r: Vec<ThoughtData>)
    ensures
        thoughts_view(r@) == thoughts_view(v@),
{
    let mut r: Vec<ThoughtData> = Vec::new();
    let mut i: usize = 0;
    while i < v.len()
        invariant
            i <= v.len(),
            r@.len() == i,
            forall|j: int| 0 <= j < i ==> #[trigger] r@[j]@ == v@[j]@,
        decreases v.len() - i,
    {
        let c = v[i].duplicate();
        r.push(c);
        i = i + 1;
    }
    assert(thoughts_view(r@) =~= thoughts_view(v@));
    r
}

} // verus!
