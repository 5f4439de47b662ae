//! The tools the server offers, and the registry that routes calls to them by name.

pub mod sequentialthinking;
pub mod analyze_graph;
pub mod export_session;
pub mod summarize;
pub mod templates;

use vstd::prelude::*;
use crate::text::str_eq;
use crate::persistence::ThoughtStore;
use crate::server::SequentialThinkingServer;
use crate::types::thoughts_view;
use crate::server::branches_view;
use crate::tools::analyze_graph::{AnalyzeGraphTool, analyze_graph_description, analyze_graph_schema};
use crate::tools::export_session::{ExportSessionTool, export_session_description, export_session_schema};
use crate::tools::sequentialthinking::{SequentialThinkingTool, sequentialthinking_description, sequentialthinking_schema};
use crate::tools::summarize::{SummarizeReasoningTool, summarize_description, summarize_schema};
use crate::tools::templates::{TemplatesTool, templates_description, templates_schema};

verus! {

/// The session a query tool works on: the one named, else the active one.
pub open spec fn query_session(named: Option<&str>, current: Seq<char>) -> Seq<char> {
    match named {
        Some(s) => s@,
        None => current,
    }
}

/// The error a query tool reports when no session is named and none is active.
pub open spec fn no_session_message() -> Seq<char> {
    "No active session and no sessionId provided"@
}

/// Loads the session a query tool works on (the one named, else the active one) and
/// returns its identifier. Fails when that identifier is empty, or when the store fails;
/// the server is unchanged then.
pub fn open_session<S: ThoughtStore>(server: &mut SequentialThinkingServer<S>, session_id: Option<&str>) -> (r: Result<String, String>)
    ensures
        ({
            let sid = query_session(session_id, old(server).current_session_id@);
            &&& sid.len() == 0 ==> (r matches Err(e) && e@ == no_session_message())
            &&& r matches Ok(s) ==> s@ == sid && sid.len() > 0 && final(server).current_session_id@ == sid && final(server).consistent()
            &&& r is Ok ==> old(server).store.loads(sid, thoughts_view(final(server).thought_history@))
            &&& r is Err ==> {
                &&& final(server).current_session_id@ == old(server).current_session_id@
                &&& thoughts_view(final(server).thought_history@) == thoughts_view(old(server).thought_history@)
                &&& branches_view(final(server).branches@) == branches_view(old(server).branches@)
            }
        }),
        final(server).store == old(server).store,
{
    let sid = match session_id {
        Some(s) => String::from_str(s),
        None => server.current_session_id.clone(),
    };
    if sid.as_str().is_empty() {
        return Err(String::from_str("No active session and no sessionId provided"));
    }
    match server.load_session(sid.as_str()) {
        Ok(()) => Ok(sid),
        Err(e) => Err(e),
    }
}

/// The tools of the server.
#[derive(Clone, Copy, Debug, PartialEq, Eq, Structural)]
pub enum ToolKind {
    SequentialThinking(SequentialThinkingTool),
    AnalyzeGraph(AnalyzeGraphTool),
    ExportSession(ExportSessionTool),
    SummarizeReasoning(SummarizeReasoningTool),
    Templates(TemplatesTool),
}

/// The name a tool is called by.
pub open spec fn tool_name(k: ToolKind) -> Seq<char> {
    match k {
        ToolKind::SequentialThinking(_) => "sequentialthinking"@,
        ToolKind::AnalyzeGraph(_) => "analyze_graph"@,
        ToolKind::ExportSession(_) => "export_session"@,
        ToolKind::SummarizeReasoning(_) => "summarize_reasoning"@,
        ToolKind::Templates(_) => "reasoning_templates"@,
    }
}

/// The description of a tool.
pub open spec fn tool_description(k: ToolKind) -> Seq<char> {
    match k {
        ToolKind::SequentialThinking(_) => sequentialthinking_description(),
        ToolKind::AnalyzeGraph(_) => analyze_graph_description(),
        ToolKind::ExportSession(_) => export_session_description(),
        ToolKind::SummarizeReasoning(_) => summarize_description(),
        ToolKind::Templates(_) => templates_description(),
    }
}

/// The JSON Schema text of a tool's arguments.
pub open spec fn tool_schema(k: ToolKind) -> Seq<char> {
    match k {
        ToolKind::SequentialThinking(_) => sequentialthinking_schema(),
        ToolKind::AnalyzeGraph(_) => analyze_graph_schema(),
        ToolKind::ExportSession(_) => export_session_schema(),
        ToolKind::SummarizeReasoning(_) => summarize_schema(),
        ToolKind::Templates(_) => templates_schema(),
    }
}

impl ToolKind {
    /// The name the tool is called by.
    pub fn name(&self) -> (r: &'static str)
        ensures
            r@ == tool_name(*self),
    {
        match self {
            ToolKind::SequentialThinking(t) => t.name(),
            ToolKind::AnalyzeGraph(t) => t.name(),
            ToolKind::ExportSession(t) => t.name(),
            ToolKind::SummarizeReasoning(t) => t.name(),
            ToolKind::Templates(t) => t.name(),
        }
    }

    /// What the tool does, for clients choosing a tool.
    pub fn description(&self) -> (r: &'static str)
        ensures
            r@ == tool_description(*self),
    {
        match self {
            ToolKind::SequentialThinking(t) => t.description(),
            ToolKind::AnalyzeGraph(t) => t.description(),
            ToolKind::ExportSession(t) => t.description(),
            ToolKind::SummarizeReasoning(t) => t.description(),
            ToolKind::Templates(t) => t.description(),
        }
    }

    /// The JSON Schema of the tool's arguments, as JSON text.
    pub fn input_schema(&self) -> (r: String)
        ensures
            r@ == tool_schema(*self),
    {
        match self {
            ToolKind::SequentialThinking(t) => t.input_schema(),
            ToolKind::AnalyzeGraph(t) => t.input_schema(),
            ToolKind::ExportSession(t) => t.input_schema(),
            ToolKind::SummarizeReasoning(t) => t.input_schema(),
            ToolKind::Templates(t) => t.input_schema(),
        }
    }
}

/// `a` sorts strictly before `b` in the character-by-character order of `str`
/// (code points compared in turn, a proper prefix first).
pub open spec fn text_lt(a: Seq<char>, b: Seq<char>) -> bool
    decreases a.len(),
{
    if b.len() == 0 {
        false
    } else if a.len() == 0 {
        true
    } else if (a[0] as int) < (b[0] as int) {
        true
    } else if (a[0] as int) > (b[0] as int) {
        false
    } else {
        text_lt(a.drop_first(), b.drop_first())
    }
}

/// Of two different texts, one sorts before the other.
pub proof fn lemma_text_lt_total(a: Seq<char>, b: Seq<char>)
    requires
        a != b,
    ensures
        text_lt(a, b) || text_lt(b, a),
    decreases a.len(),
{
    if a.len() > 0 && b.len() > 0 && a[0] == b[0] {
        if a.drop_first() == b.drop_first() {
            assert(a =~= seq![a[0]] + a.drop_first());
            assert(b =~= seq![b[0]] + b.drop_first());
        }
        lemma_text_lt_total(a.drop_first(), b.drop_first());
    } else if a.len() > 0 && b.len() > 0 {
        assert((a[0] as int) != (b[0] as int));
    } else if a.len() == 0 && b.len() == 0 {
        assert(a =~= b);
    }
}

/// Sorting before is transitive.
pub proof fn lemma_text_lt_trans(a: Seq<char>, b: Seq<char>, c: Seq<char>)
    requires
        text_lt(a, b),
        text_lt(b, c),
    ensures
        text_lt(a, c),
    decreases a.len(),
{
    if a.len() > 0 && b.len() > 0 && c.len() > 0 && a[0] == b[0] && b[0] == c[0] {
        lemma_text_lt_trans(a.drop_first(), b.drop_first(), c.drop_first());
    }
}

/// Different tools are called by different names.
pub proof fn lemma_tool_name_injective(k1: ToolKind, k2: ToolKind)
    ensures
        tool_name(k1) == tool_name(k2) ==> k1 == k2,
{
    reveal_strlit("sequentialthinking");
    reveal_strlit("analyze_graph");
    reveal_strlit("export_session");
    reveal_strlit("summarize_reasoning");
    reveal_strlit("reasoning_templates");
    if tool_name(k1) == tool_name(k2) {
        assert(tool_name(k1).len() == tool_name(k2).len());
        assert(tool_name(k1)[0] == tool_name(k2)[0]);
    }
}

/// Whether `a` sorts strictly before `b`.
pub fn str_lt(a: &str, b: &str) -> (r: bool)
    ensures
        r == text_lt(a@, b@),
{
    let n = a.unicode_len();
    let m = b.unicode_len();
    let mut i: usize = 0;
    assert(a@.skip(0) =~= a@);
    assert(b@.skip(0) =~= b@);
    while i < n && i < m
        invariant
            n == a@.len(),
            m == b@.len(),
            i <= n,
            i <= m,
            text_lt(a@, b@) == text_lt(a@.skip(i as int), b@.skip(i as int)),
        decreases n - i,
    {
        let x = a.get_char(i);
        let y = b.get_char(i);
        proof {
            assert(a@.skip(i as int)[0] == x);
            assert(b@.skip(i as int)[0] == y);
            assert(a@.skip(i as int).drop_first() =~= a@.skip(i + 1));
            assert(b@.skip(i as int).drop_first() =~= b@.skip(i + 1));
        }
        if (x as u32) < (y as u32) {
            return true;
        }
        if (x as u32) > (y as u32) {
            return false;
        }
        i = i + 1;
    }
    proof {
        if i < m {
            assert(a@.skip(i as int).len() == 0);
        } else {
            assert(b@.skip(i as int).len() == 0);
        }
    }
    i < m
}

/// The tools registered with the server, one per name.
pub struct ToolRegistry {
    tools: Vec<ToolKind>,
}

impl View for ToolRegistry {
    type V = Set<ToolKind>;

    closed spec fn view(&self) -> Set<ToolKind> {
        self.tools@.to_set()
    }
}

/// `list` holds the tools of `s`, each once, in increasing order of name.
pub open spec fn sorted_listing(s: Set<ToolKind>, list: Seq<ToolKind>) -> bool {
    &&& list.no_duplicates()
    &&& list.to_set() == s
    &&& forall|i: int, j: int| 0 <= i < j < list.len() ==> text_lt(tool_name(#[trigger] list[i]), tool_name(#[trigger] list[j]))
}

impl ToolRegistry {
    #[verifier::type_invariant]
    closed spec fn well_formed(&self) -> bool {
        self.tools@.no_duplicates()
    }

    /// An empty registry.
    pub fn new() -> (r: ToolRegistry)
        ensures
            r@ == Set::<ToolKind>::empty(),
    {
        let r = ToolRegistry { tools: Vec::new() };
        assert(r@ =~= Set::<ToolKind>::empty());
        r
    }

    /// Registers a tool under its name.
    pub fn register(&mut self, tool: ToolKind)
        ensures
            final(self)@ == old(self)@.insert(tool),
    {
        proof {
            use_type_invariant(&*self);
        }
        let mut i: usize = 0;
        while i < self.tools.len()
            invariant
                i <= self.tools@.len(),
                forall|j: int| 0 <= j < i ==> self.tools@[j] != tool,
            decreases self.tools@.len() - i,
        {
            if self.tools[i] == tool {
                assert(self.tools@.to_set() =~= self.tools@.to_set().insert(tool)) by {
                    assert(self.tools@.contains(tool));
                }
                return;
            }
            i = i + 1;
        }
        let mut tools: Vec<ToolKind> = Vec::new();
        std::mem::swap(&mut tools, &mut self.tools);
        let ghost before = tools@;
        tools.push(tool);
        proof {
            crate::graph::quality::lemma_push_to_set_any(before, tool);
            assert(tools@ =~= before.push(tool));
            assert forall|a: int, b: int| 0 <= a < b < tools@.len() implies tools@[a] != tools@[b] by {
                if b == before.len() {
                    assert(before[a] != tool);
                }
            }
        }
        self.tools = tools;
    }

    /// The tool registered under `name`.
    pub fn get(&self, name: &str) -> (r: Option<ToolKind>)
        ensures
            match r {
                Some(k) => self@.contains(k) && tool_name(k) == name@,
                None => forall|k: ToolKind| self@.contains(k) ==> tool_name(k) != name@,
            },
    {
        let mut i: usize = 0;
        while i < self.tools.len()
            invariant
                i <= self.tools@.len(),
                forall|j: int| 0 <= j < i ==> tool_name(#[trigger] self.tools@[j]) != name@,
            decreases self.tools@.len() - i,
        {
            let k = self.tools[i];
            if str_eq(k.name(), name) {
                assert(self.tools@.contains(k));
                return Some(k);
            }
            i = i + 1;
        }
        assert forall|k: ToolKind| self@.contains(k) implies tool_name(k) != name@ by {
            let j = choose|j: int| 0 <= j < self.tools@.len() && self.tools@[j] == k;
            assert(tool_name(self.tools@[j]) != name@);
        }
        None
    }

    /// The registered tools in increasing order of name.
    pub fn list(&self) -> (r: Vec<ToolKind>)
        ensures
            sorted_listing(self@, r@),
    {
        proof {
            use_type_invariant(self);
        }
        let mut r: Vec<ToolKind> = Vec::new();
        let mut i: usize = 0;
        assert(r@.to_set() =~= self.tools@.take(0).to_set());
        while i < self.tools.len()
            invariant
                i <= self.tools@.len(),
                self.tools@.no_duplicates(),
                r@.no_duplicates(),
                r@.to_set() == self.tools@.take(i as int).to_set(),
                forall|a: int, b: int| 0 <= a < b < r@.len() ==> text_lt(tool_name(#[trigger] r@[a]), tool_name(#[trigger] r@[b])),
            decreases self.tools@.len() - i,
        {
            let k = self.tools[i];
            let mut p: usize = 0;
            while p < r.len() && str_lt(r[p].name(), k.name())
                invariant
                    p <= r@.len(),
                    forall|q: int| 0 <= q < p ==> text_lt(tool_name(#[trigger] r@[q]), tool_name(k)),
                decreases r@.len() - p,
            {
                p = p + 1;
            }
            let ghost before = r@;
            proof {
                assert(!before.contains(k)) by {
                    if before.contains(k) {
                        assert(before.to_set().contains(k));
                        let j = choose|j: int| 0 <= j < i && self.tools@.take(i as int)[j] == k;
                        assert(self.tools@[j] == self.tools@[i as int]);
                    }
                }
                assert(self.tools@.take(i + 1) =~= self.tools@.take(i as int).push(k));
                crate::graph::quality::lemma_push_to_set_any(self.tools@.take(i as int), k);
            }
            r.insert(p, k);
            proof {
                assert(r@ =~= before.insert(p as int, k));
                assert(r@.to_set() =~= before.to_set().insert(k)) by {
                    assert forall|x: ToolKind| #[trigger] r@.to_set().contains(x) <==> before.to_set().insert(x).contains(k) || before.to_set().insert(k).contains(x) by {
                        if r@.contains(x) {
                            let j = choose|j: int| 0 <= j < r@.len() && r@[j] == x;
                            if j < p { assert(before[j] == x); } else if j > p { assert(before[j - 1] == x); }
                        }
                        if before.contains(x) {
                            let j = choose|j: int| 0 <= j < before.len() && before[j] == x;
                            if j < p { assert(r@[j] == x); } else { assert(r@[j + 1] == x); }
                        }
                        if x == k { assert(r@[p as int] == x); }
                    }
                }
                assert forall|a: int, b: int| 0 <= a < b < r@.len() implies r@[a] != r@[b] by {
                    let a0 = if a < p { a } else { a - 1 };
                    let b0 = if b < p { b } else { b - 1 };
                    if a != p && b != p {
                        assert(before[a0] != before[b0]);
                    } else if a == p {
                        assert(before[b0] != k) by { assert(before.contains(before[b0])); }
                    } else {
                        assert(before[a0] != k) by { assert(before.contains(before[a0])); }
                    }
                }
                assert forall|a: int, b: int| 0 <= a < b < r@.len() implies text_lt(tool_name(#[trigger] r@[a]), tool_name(#[trigger] r@[b])) by {
                    let a0 = if a < p { a } else { a - 1 };
                    let b0 = if b < p { b } else { b - 1 };
                    if a != p && b != p {
                        assert(text_lt(tool_name(before[a0]), tool_name(before[b0])));
                    } else if a == p {
                        assert(p < before.len());
                        assert(!text_lt(tool_name(before[p as int]), tool_name(k)));
                        assert(before[p as int] != k) by { assert(before.contains(before[p as int])); }
                        lemma_tool_name_injective(before[p as int], k);
                        lemma_text_lt_total(tool_name(k), tool_name(before[p as int]));
                        if b0 > p {
                            assert(text_lt(tool_name(before[p as int]), tool_name(before[b0])));
                            lemma_text_lt_trans(tool_name(k), tool_name(before[p as int]), tool_name(before[b0]));
                        }
                    } else {
                        assert(text_lt(tool_name(before[a0]), tool_name(k)));
                    }
                }
            }
            i = i + 1;
        }
        assert(self.tools@.take(self.tools@.len() as int) =~= self.tools@);
        r
    }
}

} // verus!
