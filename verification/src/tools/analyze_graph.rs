//! Queries over the thought graph of a session.

use vstd::prelude::*;
use crate::graph::assumptions::{
    assumption_facts, select_members, contradiction_messages, contradiction_message, enumerates,
    unverified_assumptions, unverified_set, flatten_assumptions, flatten_verifications,
    all_assumptions, all_verifications,
};
use crate::graph::lineage::{dead_branches, dead_branch_thoughts};
use crate::graph::quality::{calculate_quality, QualityReport, contradicted_set, reports_quality};
use crate::persistence::ThoughtStore;
use crate::server::SequentialThinkingServer;
use crate::text::str_eq;
use crate::tools::{open_session, query_session, no_session_message};
use crate::types::{ThoughtData, ThoughtView, thoughts_view, strs_view};

verus! {

/// The `analyze_graph` tool.
#[derive(Clone, Copy, Debug, PartialEq, Eq, Structural)]
pub struct AnalyzeGraphTool;

/// Counts describing a session; the average confidence is derived from `confidence_scores`.
pub struct SummaryStats {
    pub session_id: String,
    pub total_thoughts: usize,
    pub confidence_scores: Vec<u64>,
    pub branches_count: usize,
    pub total_assumptions: usize,
    pub total_verified_assumptions: usize,
    pub quality: QualityReport,
}

/// The answer to a graph query.
pub enum GraphAnalysis {
    /// The thoughts that carry a confidence score, in order; the low-confidence query keeps
    /// those at or below its threshold.
    ScoredThoughts(Vec<ThoughtData>),
    Contradictions(Vec<String>),
    UnverifiedAssumptions(Vec<String>),
    DeadBranches(Vec<ThoughtData>),
    SummaryStats(SummaryStats),
    QualityReport(QualityReport),
}

/// The queries the tool answers.
pub enum QueryKind {
    LowConfidence,
    Contradictions,
    UnverifiedAssumptions,
    DeadBranches,
    SummaryStats,
    QualityReport,
    Unknown,
}

/// Which query a query name selects.
pub open spec fn query_kind(q: Seq<char>) -> QueryKind {
    if q == "low_confidence"@ {
        QueryKind::LowConfidence
    } else if q == "contradictions"@ {
        QueryKind::Contradictions
    } else if q == "unverified_assumptions"@ {
        QueryKind::UnverifiedAssumptions
    } else if q == "dead_branches"@ {
        QueryKind::DeadBranches
    } else if q == "summary_stats"@ {
        QueryKind::SummaryStats
    } else if q == "quality_report"@ {
        QueryKind::QualityReport
    } else {
        QueryKind::Unknown
    }
}

/// The thoughts of a history that carry a confidence score, in order.
pub open spec fn with_confidence(ts: Seq<ThoughtView>) -> Seq<ThoughtView>
    decreases ts.len(),
{
    if ts.len() == 0 {
        Seq::empty()
    } else {
        with_confidence(ts.drop_last()) + (if ts.last().confidence_score is Some { seq![ts.last()] } else { Seq::empty() })
    }
}

/// The tail of an analysis contradiction message.
pub open spec fn assumed_tail() -> Seq<char> {
    "' is assumed but has been refuted/falsified."@
}

/// The thoughts that carry a confidence score.
pub fn scored_thoughts(thoughts: &Vec<ThoughtData>) -> (r: Vec<ThoughtData>)
    ensures
        thoughts_view(r@) == with_confidence(thoughts_view(thoughts@)),
{
    let ghost tv = thoughts_view(thoughts@);
    let mut r: Vec<ThoughtData> = Vec::new();
    let mut i: usize = 0;
    assert(thoughts_view(r@) =~= with_confidence(tv.take(0)));
    while i < thoughts.len()
        invariant
            i <= thoughts@.len(),
            tv == thoughts_view(thoughts@),
            thoughts_view(r@) == with_confidence(tv.take(i as int)),
        decreases thoughts@.len() - i,
    {
        if thoughts[i].confidence_score.is_some() {
            r.push(thoughts[i].duplicate());
        }
        proof {
            assert(tv.take(i + 1).drop_last() =~= tv.take(i as int));
            assert(tv.take(i + 1).last() == thoughts@[i as int]@);
            assert(thoughts_view(r@) =~= with_confidence(tv.take(i + 1)));
        }
        i = i + 1;
    }
    assert(tv.take(thoughts@.len() as int) =~= tv);
    r
}

/// The answer to query `kind` over history `h` with branch count `nb`, for session `sid`.
pub open spec fn answers(a: GraphAnalysis, kind: QueryKind, h: Seq<ThoughtView>, nb: nat, sid: Seq<char>) -> bool {
    match kind {
        QueryKind::LowConfidence => a matches GraphAnalysis::ScoredThoughts(v) && thoughts_view(v@) == with_confidence(h),
        QueryKind::Contradictions => a matches GraphAnalysis::Contradictions(v)
            && exists|l: Seq<Seq<char>>| #[trigger] enumerates(l, contradicted_set(h))
                && strs_view(v) == l.map_values(|x: Seq<char>| contradiction_message(x, assumed_tail())),
        QueryKind::UnverifiedAssumptions => a matches GraphAnalysis::UnverifiedAssumptions(v) && enumerates(strs_view(v), unverified_set(h)),
        QueryKind::DeadBranches => a matches GraphAnalysis::DeadBranches(v) && thoughts_view(v@) == dead_branch_thoughts(h),
        QueryKind::SummaryStats => a matches GraphAnalysis::SummaryStats(st) && {
            &&& st.session_id@ == sid
            &&& st.total_thoughts == h.len()
            &&& st.confidence_scores@ == crate::graph::quality::present_confidences(h)
            &&& st.branches_count == nb
            &&& st.total_assumptions == all_assumptions(h).len()
            &&& st.total_verified_assumptions == all_verifications(h).len()
            &&& reports_quality(st.quality, sid, h)
        },
        QueryKind::QualityReport => a matches GraphAnalysis::QualityReport(q) && reports_quality(q, sid, h),
        QueryKind::Unknown => false,
    }
}

/// The description of the `analyze_graph` tool.
pub open spec fn analyze_graph_description() -> Seq<char> {
    "Query and analyze the thought graph of a thinking session without adding new thoughts. Supports querying low confidence thoughts, contradictions, unverified assumptions, dead branches, and summary statistics."@
}

/// The JSON Schema text of the `analyze_graph` tool's arguments.
pub open spec fn analyze_graph_schema() -> Seq<char> {
    "{\"type\":\"object\",\"properties\":{\"query\":{\"type\":\"string\",\"enum\":[\"low_confidence\",\"contradictions\",\"unverified_assumptions\",\"dead_branches\",\"summary_stats\",\"quality_report\"],\"description\":\"The type of analysis/query to run against the thought graph\"},\"confidenceThreshold\":{\"type\":\"number\",\"default\":0.5,\"description\":\"Confidence threshold to filter low confidence thoughts (default is 0.5)\"},\"sessionId\":{\"type\":\"string\",\"description\":\"The session identifier to analyze (defaults to the current active session)\"}},\"required\":[\"query\"]}"@
}

impl AnalyzeGraphTool {
    pub fn name(&self) -> (r: &'static str)
        ensures
            r@ == "analyze_graph"@,
    {
        "analyze_graph"
    }

    /// What the tool does, for clients choosing a tool.
    pub fn description(&self) -> (r: &'static str)
        ensures
            r@ == analyze_graph_description(),
    {
        "Query and analyze the thought graph of a thinking session without adding new thoughts. Supports querying low confidence thoughts, contradictions, unverified assumptions, dead branches, and summary statistics."
    }

    /// The JSON Schema of the tool's arguments, as JSON text.
    pub fn input_schema(&self) -> (r: String)
        ensures
            r@ == analyze_graph_schema(),
    {
        String::from_str("{\"type\":\"object\",\"properties\":{\"query\":{\"type\":\"string\",\"enum\":[\"low_confidence\",\"contradictions\",\"unverified_assumptions\",\"dead_branches\",\"summary_stats\",\"quality_report\"],\"description\":\"The type of analysis/query to run against the thought graph\"},\"confidenceThreshold\":{\"type\":\"number\",\"default\":0.5,\"description\":\"Confidence threshold to filter low confidence thoughts (default is 0.5)\"},\"sessionId\":{\"type\":\"string\",\"description\":\"The session identifier to analyze (defaults to the current active session)\"}},\"required\":[\"query\"]}")
    }

    /// Answers `query` over the history of session `sid`, which has `branches_count` branches.
    pub fn run_query(
        &self,
        history: &Vec<ThoughtData>,
        branches_count: usize,
        sid: String,
        query: Option<&str>,
    ) -> (r: Result<GraphAnalysis, String>)
        ensures
            ({
                let h = thoughts_view(history@);
                &&& query is None ==> (r matches Err(e) && e@ == "Missing query parameter"@)
                &&& query matches Some(q) ==> (query_kind(q@) is Unknown ==> (r matches Err(e) && e@ == "Unknown query type: "@ + q@))
                &&& query matches Some(q) ==> (!(query_kind(q@) is Unknown) ==> (r matches Ok(a) && answers(a, query_kind(q@), h, branches_count as nat, sid@)))
            }),
    {
        let q = match query {
            Some(q) => q,
            None => {
                return Err(String::from_str("Missing query parameter"));
            },
        };
        if str_eq(q, "low_confidence") {
            Ok(GraphAnalysis::ScoredThoughts(scored_thoughts(history)))
        } else if str_eq(q, "contradictions") {
            let facts = assumption_facts(history.as_slice());
            let none: Vec<String> = Vec::new();
            assert(strs_view(none) =~= Seq::<Seq<char>>::empty());
            let clashing = select_members(&facts.assumed, &facts.refuted, &none, true);
            proof {
                assert(strs_view(clashing).to_set() =~= contradicted_set(thoughts_view(history@)));
                assert(enumerates(strs_view(clashing), contradicted_set(thoughts_view(history@))));
            }
            Ok(GraphAnalysis::Contradictions(contradiction_messages(&clashing, "' is assumed but has been refuted/falsified.")))
        } else if str_eq(q, "unverified_assumptions") {
            Ok(GraphAnalysis::UnverifiedAssumptions(unverified_assumptions(history.as_slice())))
        } else if str_eq(q, "dead_branches") {
            Ok(GraphAnalysis::DeadBranches(dead_branches(history)))
        } else if str_eq(q, "summary_stats") {
            let quality = calculate_quality(sid.as_str(), history.as_slice());
            Ok(GraphAnalysis::SummaryStats(SummaryStats {
                session_id: sid,
                total_thoughts: history.len(),
                confidence_scores: crate::graph::quality::collect_confidences(history.as_slice()),
                branches_count,
                total_assumptions: flatten_assumptions(history.as_slice()).len(),
                total_verified_assumptions: flatten_verifications(history.as_slice()).len(),
                quality,
            }))
        } else if str_eq(q, "quality_report") {
            Ok(GraphAnalysis::QualityReport(calculate_quality(sid.as_str(), history.as_slice())))
        } else {
            let mut msg = String::from_str("Unknown query type: ");
            crate::text::push_str(&mut msg, q);
            Err(msg)
        }
    }

    /// Loads the session named (else the active one) and answers `query` over it.
    pub fn execute<S: ThoughtStore>(
        &self,
        server: &mut SequentialThinkingServer<S>,
        query: Option<&str>,
        session_id: Option<&str>,
    ) -> (r: Result<GraphAnalysis, String>)
        ensures
            ({
                let sid = query_session(session_id, old(server).current_session_id@);
                let h = thoughts_view(final(server).thought_history@);
                let unchanged = final(server).current_session_id@ == old(server).current_session_id@
                    && h == thoughts_view(old(server).thought_history@)
                    && crate::server::branches_view(final(server).branches@) == crate::server::branches_view(old(server).branches@);
                &&& sid.len() == 0 ==> (r matches Err(e) && e@ == no_session_message() && unchanged)
                &&& r is Ok ==> final(server).current_session_id@ == sid && final(server).consistent()
                &&& r matches Ok(a) ==> (query matches Some(q) && answers(a, query_kind(q@), h, final(server).branches@.len(), sid))
                &&& query is None ==> r is Err
                &&& query matches Some(q) ==> (query_kind(q@) is Unknown ==> r is Err)
                &&& r matches Err(e) ==> {
                    ||| sid.len() == 0 && e@ == no_session_message()
                    ||| unchanged
                    ||| query is None && e@ == "Missing query parameter"@
                    ||| query matches Some(q) && query_kind(q@) is Unknown && e@ == "Unknown query type: "@ + q@
                }
            }),
        old(server).consistent() ==> final(server).consistent(),
        final(server).store == old(server).store,
        r is Ok ==> old(server).store.loads(query_session(session_id, old(server).current_session_id@), thoughts_view(final(server).thought_history@)),
    {
        let sid = match open_session(server, session_id) {
            Ok(s) => s,
            Err(e) => {
                return Err(e);
            },
        };
        let count = server.branches.len();
        self.run_query(&server.thought_history, count, sid, query)
    }
}

} // verus!
