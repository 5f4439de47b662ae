use sequential_thinking::persistence::memory::{earlier, MemoryThoughtStore};
use sequential_thinking::persistence::ThoughtStore;
use sequential_thinking::types::{ThoughtData, Timestamp};

fn t(text: &str, n: usize) -> ThoughtData {
    ThoughtData::new(text.to_string(), n, 5, true)
}

fn at(secs: i64) -> Timestamp {
    Timestamp { secs, nanos: 0 }
}

#[test]
fn load_returns_saved_thoughts_in_order() {
    let mut store = MemoryThoughtStore::new();
    store.save_thought_at("s", &t("one", 1), at(1));
    store.save_thought_at("s", &t("two", 2), at(2));
    store.save_thought_at("other", &t("x", 1), at(3));
    let loaded = store.load_thoughts("s");
    let texts: Vec<&str> = loaded.iter().map(|x| x.thought.as_str()).collect();
    assert_eq!(texts, vec!["one", "two"]);
    assert_eq!(store.load_thoughts("other").len(), 1);
    assert!(store.load_thoughts("missing").is_empty());
}

#[test]
fn trait_methods_save_load_and_delete() {
    let mut store = MemoryThoughtStore::new();
    store.save_thought("s", &t("one", 1)).unwrap();
    store.save_thought("k", &t("kept", 1)).unwrap();
    assert_eq!(store.load_session("s").unwrap().len(), 1);
    store.delete_session("s").unwrap();
    assert!(store.load_session("s").unwrap().is_empty());
    assert_eq!(store.load_session("k").unwrap()[0].thought, "kept");
    let listed = store.list_sessions().unwrap();
    assert_eq!(listed.len(), 1);
    assert_eq!(listed[0].id, "k");
}

#[test]
fn session_timestamps_track_first_and_latest_save() {
    let mut store = MemoryThoughtStore::new();
    store.save_thought_at("s", &t("one", 1), at(10));
    store.save_thought_at("s", &t("two", 2), at(20));
    let listed = store.session_summaries();
    assert_eq!(listed.len(), 1);
    assert_eq!(listed[0].created_at, at(10));
    assert_eq!(listed[0].updated_at, at(20));
    assert_eq!(listed[0].total_thoughts, 2);
}

#[test]
fn sessions_are_listed_most_recent_first() {
    let mut store = MemoryThoughtStore::new();
    store.save_thought_at("a", &t("a", 1), at(5));
    store.save_thought_at("b", &t("b", 1), at(7));
    store.save_thought_at("c", &t("c", 1), at(6));
    store.save_thought_at("a", &t("a2", 2), at(9));
    let ids: Vec<String> = store.session_summaries().into_iter().map(|s| s.id).collect();
    assert_eq!(ids, vec!["a".to_string(), "b".to_string(), "c".to_string()]);
}

#[test]
fn equal_update_times_keep_insertion_order() {
    let mut store = MemoryThoughtStore::new();
    store.save_thought_at("first", &t("1", 1), at(4));
    store.save_thought_at("second", &t("2", 1), at(4));
    let ids: Vec<String> = store.session_summaries().into_iter().map(|s| s.id).collect();
    assert_eq!(ids, vec!["first".to_string(), "second".to_string()]);
}

#[test]
fn removing_an_unknown_session_changes_nothing() {
    let mut store = MemoryThoughtStore::new();
    store.save_thought_at("s", &t("one", 1), at(1));
    store.remove_session("nope");
    assert_eq!(store.load_thoughts("s").len(), 1);
    assert_eq!(store.session_summaries().len(), 1);
}

#[test]
fn instant_order() {
    assert!(earlier(Timestamp { secs: 1, nanos: 9 }, Timestamp { secs: 2, nanos: 0 }));
    assert!(earlier(Timestamp { secs: 1, nanos: 1 }, Timestamp { secs: 1, nanos: 2 }));
    assert!(!earlier(Timestamp { secs: 1, nanos: 2 }, Timestamp { secs: 1, nanos: 2 }));
    assert!(!earlier(Timestamp { secs: 3, nanos: 0 }, Timestamp { secs: 2, nanos: 5 }));
}

#[test]
fn loads_after_a_sequence_of_saves_and_deletes() {
    let mut store = MemoryThoughtStore::new();
    store.save_thought("a", &t("a1", 1)).unwrap();
    store.save_thought("b", &t("b1", 1)).unwrap();
    store.save_thought("a", &t("a2", 2)).unwrap();
    store.delete_session("a").unwrap();
    store.save_thought("a", &t("a3", 3)).unwrap();
    store.delete_session("c").unwrap();
    let a: Vec<String> = store.load_session("a").unwrap().into_iter().map(|x| x.thought).collect();
    let b: Vec<String> = store.load_session("b").unwrap().into_iter().map(|x| x.thought).collect();
    assert_eq!(a, vec!["a3".to_string()]);
    assert_eq!(b, vec!["b1".to_string()]);
    assert!(store.load_session("c").unwrap().is_empty());
}
