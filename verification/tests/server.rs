use sequential_thinking::console::{format_thought, get_terminal_width, BoxLine, Style};
use sequential_thinking::graph::mermaid::generate_mermaid;
use sequential_thinking::persistence::memory::MemoryThoughtStore;
use sequential_thinking::persistence::ThoughtStore;
use sequential_thinking::server::SequentialThinkingServer;
use sequential_thinking::tools::export_session::{markdown_document, MarkdownPart};
use sequential_thinking::types::{ThoughtData, Timestamp};

fn thought(text: &str, number: usize, total: usize, next: bool) -> ThoughtData {
    ThoughtData::new(text.to_string(), number, total, next)
}

fn new_server() -> SequentialThinkingServer<MemoryThoughtStore> {
    SequentialThinkingServer::new(MemoryThoughtStore::new(), true)
}

#[test]
fn test_basic_thought() {
    let mut server = new_server();
    let input = thought("First thought", 1, 3, true);

    let result = server.process_thought(input).unwrap();
    assert_eq!(result.thought_number, 1);
    assert_eq!(result.total_thoughts, 3);
    assert_eq!(result.next_thought_needed, true);
    assert_eq!(result.thought_history_length, 1);
}

#[test]
fn test_auto_adjust_total_thoughts() {
    let mut server = new_server();
    let input = thought("Future thought", 5, 3, true);

    let result = server.process_thought(input).unwrap();
    assert_eq!(result.total_thoughts, 5);
}

#[test]
fn test_branching() {
    let mut server = new_server();

    let input1 = thought("Main line", 1, 3, true);
    let mut input2 = thought("Branch line", 2, 3, true);
    input2.branch_from_thought = Some(1);
    input2.branch_id = Some("branch-a".to_string());

    server.process_thought(input1).unwrap();
    let result = server.process_thought(input2).unwrap();

    assert_eq!(result.branches.len(), 1);
    assert!(result.branches.contains(&"branch-a".to_string()));
    assert!(result.thought_graph_mermaid.contains("T1 --> T2"));
}

#[test]
fn test_mermaid_generation_with_got_parent() {
    let mut server = new_server();

    let input1 = thought("Idea A", 1, 3, true);
    let input2 = thought("Idea B", 2, 3, true);
    let mut input3 = thought("Merge A and B", 3, 3, false);
    input3.parent_thoughts = Some(vec![1, 2]);

    server.process_thought(input1).unwrap();
    server.process_thought(input2).unwrap();
    let result = server.process_thought(input3).unwrap();

    assert!(result.thought_graph_mermaid.contains("T1 --> T3"));
    assert!(result.thought_graph_mermaid.contains("T2 --> T3"));
}

#[test]
fn test_new_fields() {
    let mut server = new_server();

    let mut input = thought("Checking new fields", 1, 1, false);
    input.assumptions = Some(vec!["A1".to_string()]);
    input.verified_assumptions = Some(vec!["V1".to_string()]);
    input.confidence_score = Some(0.8f64.to_bits());
    input.criticism = Some("C1".to_string());
    input.hypothesis = Some("H1".to_string());
    input.verification_method = Some("VM1".to_string());
    input.left_to_be_done = Some(vec!["Todo1".to_string()]);

    let result = server.process_thought(input).unwrap();
    assert_eq!(result.left_to_be_done.len(), 1);
    assert_eq!(result.left_to_be_done[0], "Todo1");

    let recorded = &server.thought_history[0];
    assert!(recorded.timestamp.is_some());
}

#[test]
fn stamped_thought_opens_the_fresh_session() {
    let mut server = new_server();
    let now = Timestamp { secs: 1_700_000_000, nanos: 5 };
    let mut input = thought("Plan", 2, 1, true);
    input.confidence_score = Some(0.25f64.to_bits());
    input.left_to_be_done = Some(vec!["check".to_string(), "ship".to_string()]);
    let result = server.process_thought_at(input, now, "fresh-1".to_string()).unwrap();
    assert_eq!(result.session_id, "fresh-1");
    assert_eq!(server.current_session_id, "fresh-1");
    assert_eq!(result.total_thoughts, 2);
    assert_eq!(result.confidence_history, vec![Some(0.25f64.to_bits())]);
    assert_eq!(result.left_to_be_done, vec!["check".to_string(), "ship".to_string()]);
    assert_eq!(server.thought_history[0].timestamp, Some(now));
    assert_eq!(server.thought_history[0].total_thoughts, 2);
    let stored = server.store.load_session("fresh-1").unwrap();
    assert_eq!(stored.len(), 1);
    assert_eq!(stored[0].thought, "Plan");
}

#[test]
fn given_timestamp_is_kept() {
    let mut server = new_server();
    let given = Timestamp { secs: 10, nanos: 0 };
    let mut input = thought("Old", 1, 1, false);
    input.timestamp = Some(given);
    server.process_thought_at(input, Timestamp { secs: 99, nanos: 0 }, "s".to_string()).unwrap();
    assert_eq!(server.thought_history[0].timestamp, Some(given));
}

#[test]
fn active_session_is_reused_and_named_session_is_loaded() {
    let mut server = new_server();
    let now = Timestamp { secs: 1, nanos: 0 };
    let mut a1 = thought("a1", 1, 2, true);
    a1.session_id = Some("a".to_string());
    server.process_thought_at(a1, now, "unused".to_string()).unwrap();
    let a2 = thought("a2", 2, 2, false);
    let r = server.process_thought_at(a2, now, "unused".to_string()).unwrap();
    assert_eq!(r.session_id, "a");
    assert_eq!(r.thought_history_length, 2);

    let mut b1 = thought("b1", 1, 1, false);
    b1.session_id = Some("b".to_string());
    let r = server.process_thought_at(b1, now, "unused".to_string()).unwrap();
    assert_eq!(r.session_id, "b");
    assert_eq!(r.thought_history_length, 1);

    let mut a3 = thought("a3", 3, 3, false);
    a3.session_id = Some("a".to_string());
    let r = server.process_thought_at(a3, now, "unused".to_string()).unwrap();
    assert_eq!(r.thought_history_length, 3);
    let texts: Vec<&str> = server.thought_history.iter().map(|t| t.thought.as_str()).collect();
    assert_eq!(texts, vec!["a1", "a2", "a3"]);
}

#[test]
fn branches_are_rebuilt_when_a_session_is_loaded() {
    let mut server = new_server();
    let now = Timestamp { secs: 1, nanos: 0 };
    let mut t1 = thought("root", 1, 2, true);
    t1.session_id = Some("x".to_string());
    server.process_thought_at(t1, now, String::new()).unwrap();
    let mut t2 = thought("alt", 2, 2, false);
    t2.branch_from_thought = Some(1);
    t2.branch_id = Some("alt-1".to_string());
    server.process_thought_at(t2, now, String::new()).unwrap();

    let mut other = thought("other", 1, 1, false);
    other.session_id = Some("y".to_string());
    let r = server.process_thought_at(other, now, String::new()).unwrap();
    assert!(r.branches.is_empty());

    server.load_session("x").unwrap();
    assert_eq!(server.branches.len(), 1);
    assert_eq!(server.branches[0].0, "alt-1");
    assert_eq!(server.branches[0].1.len(), 1);
    assert_eq!(server.branches[0].1[0].thought, "alt");
}

#[test]
fn mermaid_text_of_one_thought() {
    let t = thought("Idea \"A\" [draft]", 1, 1, false);
    let text = generate_mermaid(&[t]);
    let expected = String::from("graph TD\n")
        + "    classDef revision fill:#fafd7c,stroke:#d4b200,stroke-width:2px,color:#000;\n"
        + "    classDef branch fill:#a1e887,stroke:#3b7a14,stroke-width:2px,color:#000;\n"
        + "    classDef hypothesis fill:#d1b3ff,stroke:#6a3d9a,stroke-width:2px,color:#000;\n"
        + "    classDef standard fill:#a5ccf7,stroke:#265c96,stroke-width:2px,color:#000;\n\n"
        + "    T1[\"T1: Idea 'A' (draft)\"]\n"
        + "    class T1 standard\n";
    assert_eq!(text, expected);
}

#[test]
fn mermaid_links_and_long_labels() {
    let t1 = thought("This thought is certainly longer than thirty characters", 1, 3, true);
    let t2 = thought("next", 2, 3, true);
    let mut t3 = thought("fix", 3, 3, false);
    t3.is_revision = Some(true);
    t3.revises_thought = Some(1);
    let text = generate_mermaid(&[t1, t2, t3]);
    assert!(text.contains("    T1[\"T1: This thought is certainly long...\"]\n"));
    assert!(text.contains("    T1 --> T2\n"));
    assert!(text.contains("    T1 -.->|revises| T3\n"));
    assert!(text.contains("    class T3 revision\n"));
}

#[test]
fn terminal_width_is_clamped() {
    assert_eq!(get_terminal_width(None), 80);
    assert_eq!(get_terminal_width(Some(10)), 40);
    assert_eq!(get_terminal_width(Some(40)), 40);
    assert_eq!(get_terminal_width(Some(63)), 63);
    assert_eq!(get_terminal_width(Some(100)), 100);
    assert_eq!(get_terminal_width(Some(250)), 100);
}

fn row(line: &BoxLine) -> (Vec<(String, Style)>, usize) {
    match line {
        BoxLine::Row(segments, padding) => {
            (segments.iter().map(|s| (s.text.clone(), s.style)).collect(), *padding)
        }
        other => panic!("expected a row, got {:?}", other),
    }
}

fn border(line: &BoxLine) -> String {
    match line {
        BoxLine::Border(text) => text.clone(),
        other => panic!("expected a border, got {:?}", other),
    }
}

#[test]
fn plain_thought_box_layout() {
    let t = thought("First thought", 1, 3, true);
    let b = format_thought(&t, None);
    assert_eq!(b.frame, Style::Blue);
    assert_eq!(b.border_len, 76);
    assert_eq!(b.lines.len(), 5);
    assert_eq!(border(&b.lines[0]), format!("┌{}┐", "─".repeat(78)));
    let (segments, padding) = row(&b.lines[1]);
    assert_eq!(
        segments,
        vec![
            ("💭 Thought".to_string(), Style::BoldBlue),
            (" 1/3".to_string(), Style::Plain),
            (String::new(), Style::Cyan),
            (String::new(), Style::Dimmed),
        ]
    );
    assert_eq!(padding, 78 - "Thought 1/3".len());
    assert_eq!(border(&b.lines[2]), format!("├{}┤", "─".repeat(78)));
    let (segments, padding) = row(&b.lines[3]);
    assert_eq!(segments, vec![("First thought".to_string(), Style::Plain)]);
    assert_eq!(padding, 65);
    assert_eq!(border(&b.lines[4]), format!("└{}┘", "─".repeat(78)));
}

#[test]
fn annotated_revision_box_layout() {
    let mut t = thought("Second look", 2, 2, false);
    t.is_revision = Some(true);
    t.revises_thought = Some(1);
    t.timestamp = Some(Timestamp { secs: 3661, nanos: 0 });
    t.confidence_score = Some(0.5f64.to_bits());
    t.assumptions = Some(vec!["A".to_string()]);
    t.criticism = Some("weak".to_string());
    t.left_to_be_done = Some(vec![]);
    let b = format_thought(&t, Some(44));
    assert_eq!(b.frame, Style::Yellow);
    assert_eq!(b.border_len, 40);
    let (header, padding) = row(&b.lines[1]);
    assert_eq!(header[0], ("🔄 Revision".to_string(), Style::BoldYellow));
    assert_eq!(header[1].0, " 2/2");
    assert_eq!(header[2], (" (revising thought 1)".to_string(), Style::Cyan));
    assert_eq!(header[3], (" @ 01:01:01".to_string(), Style::Dimmed));
    let plain = "Revision 2/2 (revising thought 1) @ 01:01:01";
    assert_eq!(padding, 42usize.saturating_sub(plain.len()));
    assert_eq!(border(&b.lines[2]), format!("├{}┤", "─".repeat(42)));
    assert!(matches!(b.lines[3], BoxLine::Confidence(bits) if bits == 0.5f64.to_bits()));
    let (assumption, _) = row(&b.lines[4]);
    assert_eq!(assumption, vec![(" 🤔 Assumption: A".to_string(), Style::Magenta)]);
    let (criticism, _) = row(&b.lines[5]);
    assert_eq!(criticism, vec![(" 🧐 Criticism: weak".to_string(), Style::Red)]);
    assert_eq!(border(&b.lines[6]), format!("├{}┤", "─".repeat(42)));
    let (text, _) = row(&b.lines[7]);
    assert_eq!(text, vec![("Second look".to_string(), Style::Plain)]);
    assert_eq!(b.lines.len(), 9);
}

#[test]
fn branch_box_header_and_wrapping() {
    let mut t = thought("one two three four five six seven eight nine ten eleven twelve", 4, 9, true);
    t.branch_from_thought = Some(2);
    let b = format_thought(&t, Some(40));
    assert_eq!(b.frame, Style::Green);
    assert_eq!(b.border_len, 36);
    let (header, _) = row(&b.lines[1]);
    assert_eq!(header[0].0, "🌿 Branch");
    assert_eq!(header[2].0, " (from thought 2, ID: unknown)");
    let text_rows: Vec<String> = b.lines[3..b.lines.len() - 1]
        .iter()
        .map(|l| row(l).0[0].0.clone())
        .collect();
    assert!(text_rows.len() >= 2);
    assert!(text_rows.iter().all(|r| r.len() <= 36));
    assert_eq!(text_rows.join(" "), "one two three four five six seven eight nine ten eleven twelve");
}

#[test]
fn clock_time_in_the_box_header() {
    let mut t = thought("late", 1, 1, false);
    t.timestamp = Some(Timestamp { secs: 86_400 + 3_723, nanos: 0 });
    let b = format_thought(&t, None);
    let (header, _) = row(&b.lines[1]);
    assert_eq!(header[3], (" @ 01:02:03".to_string(), Style::Dimmed));
    t.timestamp = Some(Timestamp { secs: i64::MAX, nanos: 0 });
    let b = format_thought(&t, None);
    let (header, _) = row(&b.lines[1]);
    assert_eq!(header[3].0, " @ ");
}

#[test]
fn calendar_time_in_the_markdown_export() {
    let mut t = thought("dated", 1, 1, false);
    t.timestamp = Some(Timestamp { secs: 86_400 + 3_723, nanos: 0 });
    t.confidence_score = Some(0.5f64.to_bits());
    let parts = markdown_document("m", &vec![t]);
    let text: Vec<String> = parts
        .iter()
        .filter_map(|p| match p {
            MarkdownPart::Text(s) => Some(s.clone()),
            MarkdownPart::Confidence(_) => None,
        })
        .collect();
    assert_eq!(text[0], "# Reasoning Session History - Session `m`\n\n");
    assert_eq!(text[1], "## Thought 1\n*Timestamp: 1970-01-02 01:02:03 UTC*\n\ndated\n\n");
    assert!(matches!(parts[2], MarkdownPart::Confidence(bits) if bits == 0.5f64.to_bits()));
    assert_eq!(text[2], "---\n\n");
}

#[test]
fn fresh_session_identifiers_are_hyphenated_and_distinct() {
    let mut first = new_server();
    let a = first.process_thought(thought("a", 1, 1, false)).unwrap().session_id;
    let mut second = new_server();
    let b = second.process_thought(thought("b", 1, 1, false)).unwrap().session_id;
    assert_eq!(a.len(), 36);
    for (i, c) in a.chars().enumerate() {
        if i == 8 || i == 13 || i == 18 || i == 23 {
            assert_eq!(c, '-');
        }
    }
    assert_ne!(a, b);
    assert_eq!(first.current_session_id, a);
}

#[test]
fn repeated_branch_identifier_extends_one_branch() {
    let mut server = new_server();
    let now = Timestamp { secs: 1, nanos: 0 };
    let mut t1 = thought("root", 1, 4, true);
    t1.session_id = Some("s".to_string());
    server.process_thought_at(t1, now, String::new()).unwrap();
    for (n, id) in [(2, "x"), (3, "y"), (4, "x")] {
        let mut t = thought("step", n, 4, true);
        t.branch_from_thought = Some(1);
        t.branch_id = Some(id.to_string());
        server.process_thought_at(t, now, String::new()).unwrap();
    }
    let mut no_origin = thought("named only", 5, 5, false);
    no_origin.branch_id = Some("z".to_string());
    let r = server.process_thought_at(no_origin, now, String::new()).unwrap();
    assert_eq!(r.branches, vec!["x".to_string(), "y".to_string()]);
    assert_eq!(server.branches[0].1.len(), 2);
    assert_eq!(server.branches[1].1.len(), 1);
}

#[test]
fn store_answers_decide_loading_and_recording() {
    let mut server = new_server();
    let now = Timestamp { secs: 1, nanos: 0 };
    let mut first = thought("kept", 1, 1, false);
    first.session_id = Some("s".to_string());
    server.process_thought_at(first, now, String::new()).unwrap();

    assert_eq!(server.adopt_session("t", Err("disk gone".to_string())), Err("disk gone".to_string()));
    assert_eq!(server.current_session_id, "s");
    assert_eq!(server.thought_history.len(), 1);

    let refused = server.record_thought("s".to_string(), thought("lost", 2, 2, false), Err("full".to_string()));
    match refused {
        Err(e) => assert_eq!(e, "full"),
        Ok(_) => panic!("the store refused the thought"),
    }
    assert_eq!(server.thought_history.len(), 1);

    let mut branch = thought("alt", 2, 2, false);
    branch.branch_from_thought = Some(1);
    branch.branch_id = Some("b".to_string());
    let r = server.record_thought("s".to_string(), branch, Ok(())).unwrap();
    assert_eq!(r.thought_history_length, 2);
    assert_eq!(r.branches, vec!["b".to_string()]);
    assert_eq!(r.session_id, "s");

    let loaded = vec![thought("other", 1, 1, false)];
    assert_eq!(server.adopt_session("t", Ok(loaded)), Ok(()));
    assert_eq!(server.current_session_id, "t");
    assert_eq!(server.thought_history.len(), 1);
    assert!(server.branches.is_empty());
}
