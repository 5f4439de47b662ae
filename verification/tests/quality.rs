use std::collections::{HashMap, HashSet};

use sequential_thinking::graph::assumptions::unverified_assumptions;
use sequential_thinking::graph::lineage::{dead_branches, main_chain};
use sequential_thinking::graph::quality::{calculate_quality, detect_cycle, dfs_find_cycle};
use sequential_thinking::types::ThoughtData;

fn create_dummy_thought(num: usize, confidence: Option<f64>) -> ThoughtData {
    let mut t = ThoughtData::new(format!("Thought {}", num), num, 10, true);
    t.confidence_score = confidence.map(|c| c.to_bits());
    t.session_id = Some("test-session".to_string());
    t
}

#[test]
fn test_detect_cycle_none() {
    let t1 = create_dummy_thought(1, Some(0.8));
    let mut t2 = create_dummy_thought(2, Some(0.9));
    t2.parent_thoughts = Some(vec![1]);

    let thoughts = vec![t1, t2];
    assert!(detect_cycle(&thoughts).is_none());
}

#[test]
fn test_detect_cycle_exists() {
    let mut t1 = create_dummy_thought(1, Some(0.8));
    t1.parent_thoughts = Some(vec![2]);
    let mut t2 = create_dummy_thought(2, Some(0.9));
    t2.parent_thoughts = Some(vec![1]);

    let thoughts = vec![t1, t2];
    let cycle = detect_cycle(&thoughts);
    assert!(cycle.is_some());
    let path = cycle.unwrap();
    assert!(path.contains(&1));
    assert!(path.contains(&2));
}

#[test]
fn test_contradiction_detection() {
    let mut t1 = create_dummy_thought(1, Some(0.8));
    t1.assumptions = Some(vec!["Gravity is constant".to_string()]);

    let mut t2 = create_dummy_thought(2, Some(0.7));
    t2.verified_assumptions = Some(vec!["refuted: Gravity is constant".to_string()]);

    let thoughts = vec![t1, t2];
    let report = calculate_quality("test-session", &thoughts);
    assert_eq!(report.contradictions_count, 1);
    assert_eq!(
        report.contradictions,
        vec!["Assumption 'gravity is constant' is declared but refuted/falsified.".to_string()]
    );
}

#[test]
fn cycle_path_is_closed_and_follows_dependencies() {
    let mut t1 = create_dummy_thought(1, None);
    t1.revises_thought = Some(3);
    let mut t2 = create_dummy_thought(2, None);
    t2.branch_from_thought = Some(1);
    let mut t3 = create_dummy_thought(3, None);
    t3.parent_thoughts = Some(vec![2]);
    let thoughts = vec![t1, t2, t3];
    let path = detect_cycle(&thoughts).unwrap();
    assert!(path.len() >= 2);
    assert_eq!(path.first(), path.last());
    let deps: HashMap<usize, usize> = [(1, 3), (2, 1), (3, 2)].into_iter().collect();
    for w in path.windows(2) {
        assert_eq!(deps[&w[0]], w[1]);
    }
}

#[test]
fn self_dependency_is_a_cycle() {
    let mut t1 = create_dummy_thought(1, None);
    t1.revises_thought = Some(1);
    let path = detect_cycle(&vec![t1]).unwrap();
    assert_eq!(path, vec![1, 1]);
}

#[test]
fn dependencies_on_unknown_thoughts_are_no_cycle() {
    let mut t1 = create_dummy_thought(1, None);
    t1.parent_thoughts = Some(vec![7, 8]);
    let mut t2 = create_dummy_thought(2, None);
    t2.branch_from_thought = Some(9);
    assert!(detect_cycle(&vec![t1, t2]).is_none());
    assert!(detect_cycle(&Vec::new()).is_none());
}

#[test]
fn depth_first_search_reports_the_loop_from_its_entry() {
    let mut adj: HashMap<usize, Vec<usize>> = HashMap::new();
    adj.insert(1, vec![2]);
    adj.insert(2, vec![3]);
    adj.insert(3, vec![2]);
    let mut visited = HashSet::new();
    let mut rec_stack = HashSet::new();
    let mut path = Vec::new();
    let cycle = dfs_find_cycle(1, &adj, &mut visited, &mut rec_stack, &mut path);
    assert_eq!(cycle, Some(vec![2, 3, 2]));
}

#[test]
fn depth_first_search_without_loop_restores_the_path() {
    let mut adj: HashMap<usize, Vec<usize>> = HashMap::new();
    adj.insert(1, vec![2, 3]);
    adj.insert(2, vec![3]);
    adj.insert(3, vec![]);
    let mut visited = HashSet::new();
    let mut rec_stack = HashSet::new();
    let mut path = Vec::new();
    let cycle = dfs_find_cycle(1, &adj, &mut visited, &mut rec_stack, &mut path);
    assert_eq!(cycle, None);
    assert!(path.is_empty());
    assert!(rec_stack.is_empty());
    assert_eq!(visited, [1, 2, 3].into_iter().collect::<HashSet<usize>>());
}

#[test]
fn quality_counts_assumptions_and_checks() {
    let mut t1 = create_dummy_thought(1, Some(0.5));
    t1.assumptions = Some(vec!["  Data is Clean ".to_string(), "Users are honest".to_string(), "data is clean".to_string()]);
    let mut t2 = create_dummy_thought(2, None);
    t2.verified_assumptions = Some(vec!["Verified: data is clean".to_string()]);
    let report = calculate_quality("s1", &vec![t1, t2]);
    assert_eq!(report.session_id, "s1");
    assert_eq!(report.total_thoughts, 2);
    assert_eq!(report.confidence_scores, vec![0.5f64.to_bits()]);
    assert_eq!(report.assumptions_count, 2);
    assert_eq!(report.verified_assumptions_count, 1);
    assert_eq!(report.contradictions_count, 0);
    assert!(report.contradictions.is_empty());
    assert!(!report.loop_detected);
    assert_eq!(report.loop_path, None);
}

#[test]
fn quality_reports_the_loop() {
    let mut t1 = create_dummy_thought(1, None);
    t1.parent_thoughts = Some(vec![2]);
    let mut t2 = create_dummy_thought(2, None);
    t2.parent_thoughts = Some(vec![1]);
    let report = calculate_quality("s", &vec![t1, t2]);
    assert!(report.loop_detected);
    let path = report.loop_path.unwrap();
    assert_eq!(path.first(), path.last());
    assert_eq!(path.len(), 3);
}

#[test]
fn quality_of_an_empty_session() {
    let report = calculate_quality("empty", &Vec::new());
    assert_eq!(report.total_thoughts, 0);
    assert!(report.confidence_scores.is_empty());
    assert_eq!(report.assumptions_count, 0);
    assert_eq!(report.verified_assumptions_count, 0);
    assert!(!report.loop_detected);
}

#[test]
fn unverified_assumptions_keep_first_spelling_and_order() {
    let mut t1 = create_dummy_thought(1, None);
    t1.assumptions = Some(vec!["A1".to_string(), "B2".to_string()]);
    let mut t2 = create_dummy_thought(2, None);
    t2.assumptions = Some(vec!["a1".to_string(), "C3".to_string()]);
    t2.verified_assumptions = Some(vec!["verified: B2".to_string()]);
    let list = unverified_assumptions(&vec![t1, t2]);
    assert_eq!(list, vec!["A1".to_string(), "a1".to_string(), "C3".to_string()]);
}

#[test]
fn refuted_assumption_is_not_unverified() {
    let mut t1 = create_dummy_thought(1, None);
    t1.assumptions = Some(vec!["A1".to_string()]);
    let mut t2 = create_dummy_thought(2, None);
    t2.verified_assumptions = Some(vec!["refuted: A1".to_string()]);
    assert!(unverified_assumptions(&vec![t1, t2]).is_empty());
}

#[test]
fn main_chain_follows_links_back_from_the_last_thought() {
    let t1 = create_dummy_thought(1, None);
    let t2 = create_dummy_thought(2, None);
    let t3 = create_dummy_thought(3, None);
    let thoughts = vec![t1, t2, t3];
    assert_eq!(main_chain(&thoughts), [1, 2, 3].into_iter().collect::<HashSet<usize>>());
    assert!(dead_branches(&thoughts).is_empty());
}

#[test]
fn revision_leaves_the_revised_line_behind() {
    let t1 = create_dummy_thought(1, None);
    let t2 = create_dummy_thought(2, None);
    let mut t3 = create_dummy_thought(3, None);
    t3.is_revision = Some(true);
    t3.revises_thought = Some(1);
    let thoughts = vec![t1, t2, t3];
    assert_eq!(main_chain(&thoughts), [1, 3].into_iter().collect::<HashSet<usize>>());
    let dead = dead_branches(&thoughts);
    assert_eq!(dead.len(), 1);
    assert_eq!(dead[0].thought_number, 2);
}

#[test]
fn abandoned_branch_is_dead() {
    let t1 = create_dummy_thought(1, None);
    let mut t2 = create_dummy_thought(2, None);
    t2.branch_from_thought = Some(1);
    let mut t3 = create_dummy_thought(3, None);
    t3.parent_thoughts = Some(vec![1]);
    let thoughts = vec![t1, t2, t3];
    let dead = dead_branches(&thoughts);
    assert_eq!(dead.len(), 1);
    assert_eq!(dead[0].thought_number, 2);
    assert!(dead_branches(&Vec::new()).is_empty());
}

#[test]
fn depth_first_search_on_a_two_node_loop() {
    let adj: HashMap<usize, Vec<usize>> = [(1, vec![2]), (2, vec![1])].into_iter().collect();
    let mut visited = HashSet::new();
    let mut rec_stack = HashSet::new();
    let mut path = Vec::new();
    let cycle = dfs_find_cycle(1, &adj, &mut visited, &mut rec_stack, &mut path);
    assert_eq!(cycle, Some(vec![1, 2, 1]));
    assert_eq!(visited, [1, 2].into_iter().collect::<HashSet<usize>>());
    assert_eq!(path, vec![1, 2]);
}

#[test]
fn depth_first_search_from_an_inconsistent_state() {
    let adj: HashMap<usize, Vec<usize>> = [(1, vec![2, 3]), (3, vec![])].into_iter().collect();
    let mut visited: HashSet<usize> = [1, 2].into_iter().collect();
    let mut rec_stack: HashSet<usize> = [2].into_iter().collect();
    let mut path = vec![9];
    let cycle = dfs_find_cycle(1, &adj, &mut visited, &mut rec_stack, &mut path);
    assert_eq!(cycle, None);
    assert_eq!(visited, [1, 2, 3].into_iter().collect::<HashSet<usize>>());
    assert_eq!(rec_stack, [2].into_iter().collect::<HashSet<usize>>());
    assert_eq!(path, vec![9]);
}
