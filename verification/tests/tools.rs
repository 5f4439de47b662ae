use sequential_thinking::persistence::memory::MemoryThoughtStore;
use sequential_thinking::server::SequentialThinkingServer;
use sequential_thinking::tools::analyze_graph::{AnalyzeGraphTool, GraphAnalysis};
use sequential_thinking::tools::export_session::{ExportData, ExportSessionTool, MarkdownPart};
use sequential_thinking::tools::sequentialthinking::SequentialThinkingTool;
use sequential_thinking::tools::summarize::SummarizeReasoningTool;
use sequential_thinking::tools::templates::{TemplateSelection, TemplatesTool};
use sequential_thinking::tools::{open_session, ToolKind, ToolRegistry};
use sequential_thinking::types::ThoughtData;

fn new_server() -> SequentialThinkingServer<MemoryThoughtStore> {
    SequentialThinkingServer::new(MemoryThoughtStore::new(), true)
}

fn setup_server_with_data() -> SequentialThinkingServer<MemoryThoughtStore> {
    let mut server = new_server();

    let mut t1 = ThoughtData::new("Initial thought".to_string(), 1, 3, true);
    t1.assumptions = Some(vec!["A1".to_string()]);
    t1.confidence_score = Some(0.8f64.to_bits());
    t1.hypothesis = Some("H1".to_string());
    t1.verification_method = Some("V1".to_string());
    t1.left_to_be_done = Some(vec!["Todo1".to_string()]);
    t1.session_id = Some("test-session".to_string());
    server.process_thought(t1).unwrap();

    let mut t2 = ThoughtData::new("Branching thought".to_string(), 2, 3, true);
    t2.branch_from_thought = Some(1);
    t2.branch_id = Some("branch-a".to_string());
    t2.assumptions = Some(vec!["A2".to_string()]);
    t2.verified_assumptions = Some(vec!["refuted: A1".to_string()]);
    t2.confidence_score = Some(0.3f64.to_bits());
    t2.session_id = Some("test-session".to_string());
    server.process_thought(t2).unwrap();

    let mut t3 = ThoughtData::new("Revising first thought".to_string(), 3, 3, false);
    t3.is_revision = Some(true);
    t3.revises_thought = Some(1);
    t3.confidence_score = Some(0.9f64.to_bits());
    t3.session_id = Some("test-session".to_string());
    server.process_thought(t3).unwrap();

    server
}

#[test]
fn test_sequential_thinking_tool() {
    let mut server = new_server();
    let tool = SequentialThinkingTool;

    let mut args = ThoughtData::new("Direct tool thought".to_string(), 1, 1, false);
    args.session_id = Some("direct-session".to_string());

    let res = tool.execute(&mut server, args).unwrap();
    assert_eq!(res.thought_number, 1);
    assert_eq!(res.session_id, "direct-session");
}

#[test]
fn test_analyze_graph_tool() {
    let mut server = setup_server_with_data();
    let tool = AnalyzeGraphTool;

    let res = tool.execute(&mut server, Some("low_confidence"), Some("test-session")).unwrap();
    let scored = match res {
        GraphAnalysis::ScoredThoughts(list) => list,
        _ => panic!("expected scored thoughts"),
    };
    let threshold = 0.4f64;
    let list: Vec<&ThoughtData> = scored
        .iter()
        .filter(|t| t.confidence_score.map(|c| f64::from_bits(c) < threshold).unwrap_or(false))
        .collect();
    assert_eq!(list.len(), 1);
    assert_eq!(list[0].thought_number, 2);

    let res = tool.execute(&mut server, Some("contradictions"), Some("test-session")).unwrap();
    let list = match res {
        GraphAnalysis::Contradictions(list) => list,
        _ => panic!("expected contradictions"),
    };
    assert_eq!(list.len(), 1);
    assert!(list[0].contains("a1"));

    let res = tool.execute(&mut server, Some("unverified_assumptions"), Some("test-session")).unwrap();
    let list = match res {
        GraphAnalysis::UnverifiedAssumptions(list) => list,
        _ => panic!("expected unverified assumptions"),
    };
    assert!(list.contains(&"A2".to_string()));
    assert!(!list.contains(&"A1".to_string()));

    let res = tool.execute(&mut server, Some("dead_branches"), Some("test-session")).unwrap();
    let list = match res {
        GraphAnalysis::DeadBranches(list) => list,
        _ => panic!("expected dead branches"),
    };
    assert_eq!(list.len(), 1);
    assert_eq!(list[0].thought_number, 2);

    let res = tool.execute(&mut server, Some("summary_stats"), Some("test-session")).unwrap();
    let stats = match res {
        GraphAnalysis::SummaryStats(stats) => stats,
        _ => panic!("expected summary statistics"),
    };
    assert_eq!(stats.total_thoughts, 3);
    assert_eq!(stats.branches_count, 1);
    assert_eq!(stats.total_assumptions, 2);
    assert_eq!(stats.total_verified_assumptions, 1);
    assert_eq!(stats.confidence_scores.len(), 3);
    assert_eq!(stats.quality.total_thoughts, 3);

    let res = tool.execute(&mut server, Some("quality_report"), Some("test-session")).unwrap();
    let report = match res {
        GraphAnalysis::QualityReport(report) => report,
        _ => panic!("expected a quality report"),
    };
    assert_eq!(report.total_thoughts, 3);
    assert_eq!(report.session_id, "test-session");
    assert_eq!(report.contradictions_count, 1);
}

#[test]
fn analyze_graph_errors() {
    let mut server = setup_server_with_data();
    let tool = AnalyzeGraphTool;
    match tool.execute(&mut server, None, Some("test-session")) {
        Err(e) => assert_eq!(e, "Missing query parameter"),
        Ok(_) => panic!("a query is required"),
    }
    match tool.execute(&mut server, Some("shape"), Some("test-session")) {
        Err(e) => assert_eq!(e, "Unknown query type: shape"),
        Ok(_) => panic!("unknown query"),
    }
    let mut fresh = new_server();
    match tool.execute(&mut fresh, Some("summary_stats"), None) {
        Err(e) => assert_eq!(e, "No active session and no sessionId provided"),
        Ok(_) => panic!("no session to analyze"),
    }
}

#[test]
fn test_export_session_tool() {
    let mut server = setup_server_with_data();
    let tool = ExportSessionTool;

    let res = tool.execute(&mut server, Some("mermaid"), Some("test-session")).unwrap();
    match res.data {
        ExportData::Mermaid(text) => assert!(text.contains("graph TD")),
        _ => panic!("expected mermaid"),
    }

    let res = tool.execute(&mut server, Some("markdown"), Some("test-session")).unwrap();
    match res.data {
        ExportData::Markdown(parts) => {
            let text: String = parts
                .iter()
                .map(|p| match p {
                    MarkdownPart::Text(t) => t.clone(),
                    MarkdownPart::Confidence(_) => String::new(),
                })
                .collect();
            assert!(text.contains("# Reasoning Session History"));
        }
        _ => panic!("expected markdown"),
    }

    let res = tool.execute(&mut server, Some("json"), Some("test-session")).unwrap();
    match res.data {
        ExportData::Json(nodes, edges) => {
            assert_eq!(nodes.len(), 3);
            assert_eq!(edges.len(), 2);
        }
        _ => panic!("expected a JSON graph"),
    }

    let res = tool.execute(&mut server, Some("dot"), Some("test-session")).unwrap();
    match res.data {
        ExportData::Dot(text) => assert!(text.contains("digraph G")),
        _ => panic!("expected DOT"),
    }
}

#[test]
fn json_export_edges() {
    let mut server = setup_server_with_data();
    let res = ExportSessionTool.execute(&mut server, Some("json"), None).unwrap();
    assert_eq!(res.session_id, "test-session");
    match res.data {
        ExportData::Json(nodes, edges) => {
            let ids: Vec<&str> = nodes.iter().map(|n| n.id.as_str()).collect();
            assert_eq!(ids, vec!["T1", "T2", "T3"]);
            assert_eq!(nodes[1].confidence_score, Some(0.3f64.to_bits()));
            let e: Vec<(&str, &str, &str)> = edges
                .iter()
                .map(|e| (e.source.as_str(), e.target.as_str(), e.kind.as_str()))
                .collect();
            assert_eq!(e, vec![("T1", "T2", "branch"), ("T1", "T3", "revision")]);
        }
        _ => panic!("expected a JSON graph"),
    }
}

#[test]
fn export_errors() {
    let mut server = setup_server_with_data();
    match ExportSessionTool.execute(&mut server, None, Some("test-session")) {
        Err(e) => assert_eq!(e, "Missing format parameter"),
        Ok(_) => panic!("a format is required"),
    }
    match ExportSessionTool.execute(&mut server, Some("pdf"), Some("test-session")) {
        Err(e) => assert_eq!(e, "Unknown format: pdf"),
        Ok(_) => panic!("unknown format"),
    }
}

#[test]
fn dot_export_text() {
    let mut server = new_server();
    let mut t1 = ThoughtData::new("Say \"hi\"".to_string(), 1, 2, true);
    t1.session_id = Some("d".to_string());
    server.process_thought(t1).unwrap();
    let t2 = ThoughtData::new("Next".to_string(), 2, 2, false);
    server.process_thought(t2).unwrap();
    let res = ExportSessionTool.execute(&mut server, Some("dot"), None).unwrap();
    match res.data {
        ExportData::Dot(text) => {
            assert!(text.starts_with("digraph G {\n"));
            assert!(text.contains("  T1 [label=\"T1: Say \\\"hi\\\"\\n...\", fillcolor=\"#a5ccf7\"];\n"));
            assert!(text.contains("T1 -> T2"));
            assert!(text.ends_with("}\n"));
        }
        _ => panic!("expected DOT"),
    }
}

#[test]
fn test_summarize_reasoning_tool() {
    let mut server = setup_server_with_data();
    let tool = SummarizeReasoningTool;

    let res = tool.execute(&mut server, Some("test-session")).unwrap();
    assert_eq!(res.total_thoughts, 3);
    assert_eq!(res.total_branches, 1);
    assert!(res.timeline.contains("T1 → T2"));
}

#[test]
fn summary_details() {
    let mut server = setup_server_with_data();
    let res = SummarizeReasoningTool.execute(&mut server, None).unwrap();
    assert_eq!(res.session_id, "test-session");
    assert!(res.merge_points.is_empty());
    assert_eq!(res.confidence_scores.len(), 3);
    assert_eq!(res.unverified_assumptions, vec!["A2".to_string()]);
    assert!(res.open_todos.is_empty());
}

#[test]
fn test_templates_tool() {
    let tool = TemplatesTool;

    match tool.execute(Some("all")) {
        TemplateSelection::All(list) => assert_eq!(list.len(), 3),
        TemplateSelection::One(_) => panic!("expected all templates"),
    }

    match tool.execute(Some("hypothesis-test")) {
        TemplateSelection::One(t) => {
            assert_eq!(t.id, "hypothesis-test");
            assert!(!t.recommended_steps.is_empty());
        }
        TemplateSelection::All(_) => panic!("expected one template"),
    }
}

#[test]
fn templates_default_and_unknown_give_all() {
    let tool = TemplatesTool;
    assert!(matches!(tool.execute(None), TemplateSelection::All(ref l) if l.len() == 3));
    assert!(matches!(tool.execute(Some("other")), TemplateSelection::All(ref l) if l.len() == 3));
    match tool.execute(Some("devils-advocate")) {
        TemplateSelection::One(t) => {
            assert_eq!(t.recommended_steps.len(), 4);
            let steps: Vec<usize> = t.recommended_steps.iter().map(|s| s.step).collect();
            assert_eq!(steps, vec![1, 2, 3, 4]);
        }
        TemplateSelection::All(_) => panic!("expected one template"),
    }
}

#[test]
fn registry_lists_by_name_and_finds_tools() {
    let mut registry = ToolRegistry::new();
    registry.register(ToolKind::Templates(TemplatesTool));
    registry.register(ToolKind::SequentialThinking(SequentialThinkingTool));
    registry.register(ToolKind::AnalyzeGraph(AnalyzeGraphTool));
    registry.register(ToolKind::ExportSession(ExportSessionTool));
    registry.register(ToolKind::SummarizeReasoning(SummarizeReasoningTool));
    registry.register(ToolKind::Templates(TemplatesTool));
    let names: Vec<&str> = registry.list().iter().map(|k| k.name()).collect();
    assert_eq!(
        names,
        vec!["analyze_graph", "export_session", "reasoning_templates", "sequentialthinking", "summarize_reasoning"]
    );
    assert_eq!(registry.get("export_session"), Some(ToolKind::ExportSession(ExportSessionTool)));
    assert_eq!(registry.get("nope"), None);
}

#[test]
fn tool_schemas_are_json_objects() {
    let kinds = [
        ToolKind::SequentialThinking(SequentialThinkingTool),
        ToolKind::AnalyzeGraph(AnalyzeGraphTool),
        ToolKind::ExportSession(ExportSessionTool),
        ToolKind::SummarizeReasoning(SummarizeReasoningTool),
        ToolKind::Templates(TemplatesTool),
    ];
    for k in kinds {
        let schema = k.input_schema();
        assert!(schema.starts_with("{\"type\":\"object\",\"properties\":{"));
        assert!(!k.description().is_empty());
    }
    assert!(SequentialThinkingTool.input_schema().contains("\"required\":[\"thought\",\"nextThoughtNeeded\",\"thoughtNumber\",\"totalThoughts\"]"));
}

#[test]
fn open_session_prefers_the_named_session() {
    let mut server = setup_server_with_data();
    let sid = open_session(&mut server, Some("other")).unwrap();
    assert_eq!(sid, "other");
    assert!(server.thought_history.is_empty());
    let sid = open_session(&mut server, Some("test-session")).unwrap();
    assert_eq!(sid, "test-session");
    assert_eq!(server.thought_history.len(), 3);
}

#[test]
fn all_templates_carry_the_single_templates() {
    let tool = TemplatesTool;
    let all = match tool.execute(None) {
        TemplateSelection::All(list) => list,
        TemplateSelection::One(_) => panic!("expected all templates"),
    };
    for (i, id) in ["divide-and-conquer", "hypothesis-test", "devils-advocate"].iter().enumerate() {
        let one = match tool.execute(Some(id)) {
            TemplateSelection::One(t) => t,
            TemplateSelection::All(_) => panic!("expected one template"),
        };
        assert_eq!(all[i].id, one.id);
        assert_eq!(all[i].name, one.name);
        assert_eq!(all[i].description, one.description);
        for (a, b) in all[i].recommended_steps.iter().zip(one.recommended_steps.iter()) {
            assert_eq!(a.step, b.step);
            assert_eq!(a.title, b.title);
            assert_eq!(a.description, b.description);
            assert_eq!(a.properties_to_set, b.properties_to_set);
        }
    }
    let h = &all[1];
    assert_eq!(h.recommended_steps[0].title, "Hypothesis Formulation");
    assert_eq!(
        h.recommended_steps[0].properties_to_set,
        vec!["hypothesis".to_string(), "verificationMethod".to_string()]
    );
    assert_eq!(
        h.recommended_steps[3].properties_to_set,
        vec!["isRevision".to_string(), "revisesThought".to_string(), "criticism".to_string()]
    );
}
