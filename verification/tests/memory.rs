use bella::store::MemoryStore;
use bella::types::{Episode, NewEpisode};

fn corr() -> u128 {
    uuid::Uuid::new_v4().as_u128()
}

#[test]
fn record_then_recall_round_trips() {
    let mut store = MemoryStore::open_in_memory();
    let corr = corr();
    store
        .insert_episode(NewEpisode {
            correlation_id: corr,
            content: "user asked about their calendar".into(),
            kind: "utterance".into(),
        })
        .unwrap();

    let recent = store.recent_episodes(10);
    assert_eq!(recent.len(), 1);
    assert_eq!(recent[0].content, "user asked about their calendar");
    assert_eq!(recent[0].correlation_id, corr);
}

#[test]
fn recent_respects_limit_and_ordering() {
    let mut store = MemoryStore::open_in_memory();
    for i in 0..5 {
        store
            .insert_episode(NewEpisode {
                correlation_id: corr(),
                content: format!("episode {i}"),
                kind: "utterance".into(),
            })
            .unwrap();
    }
    let recent = store.recent_episodes(3);
    assert_eq!(recent.len(), 3);
    // Most recent (highest index inserted last) should come first.
    assert_eq!(recent[0].content, "episode 4");
}

#[test]
fn interaction_history_groups_by_correlation_in_order() {
    let mut store = MemoryStore::open_in_memory();
    let corr_a = corr();
    store
        .insert_episode(NewEpisode { correlation_id: corr_a, content: "step one".into(), kind: "utterance".into() })
        .unwrap();
    store
        .insert_episode(NewEpisode { correlation_id: corr_a, content: "step two".into(), kind: "action_taken".into() })
        .unwrap();
    store
        .insert_episode(NewEpisode {
            correlation_id: corr(),
            content: "unrelated episode".into(),
            kind: "utterance".into(),
        })
        .unwrap();

    let history = store.episodes_by_correlation(corr_a);
    assert_eq!(history.len(), 2);
    assert_eq!(history[0].content, "step one");
    assert_eq!(history[1].content, "step two");
}

#[test]
fn search_finds_substring_matches_only() {
    let mut store = MemoryStore::open_in_memory();
    store
        .insert_episode(NewEpisode {
            correlation_id: corr(),
            content: "remind me to buy groceries".into(),
            kind: "utterance".into(),
        })
        .unwrap();
    store
        .insert_episode(NewEpisode {
            correlation_id: corr(),
            content: "what's the weather like".into(),
            kind: "utterance".into(),
        })
        .unwrap();

    let results = store.search_content("groceries", 10);
    assert_eq!(results.len(), 1);
    assert!(results[0].content.contains("groceries"));
}

#[test]
fn count_reflects_number_of_stored_episodes() {
    let mut store = MemoryStore::open_in_memory();
    assert_eq!(store.count(), 0);
    store
        .insert_episode(NewEpisode { correlation_id: corr(), content: "one".into(), kind: "utterance".into() })
        .unwrap();
    assert_eq!(store.count(), 1);
}

fn ep(id: u128, corr: u128, t: i64, content: &str) -> Episode {
    Episode { id, correlation_id: corr, created_at_unix: t, content: content.into(), kind: "utterance".into() }
}

#[test]
fn timeline_orders_by_time_then_storage_order() {
    let mut store = MemoryStore::new();
    store.insert_record(ep(1, 7, 100, "a")).unwrap();
    store.insert_record(ep(2, 7, 300, "b")).unwrap();
    store.insert_record(ep(3, 7, 200, "c")).unwrap();
    store.insert_record(ep(4, 7, 200, "d")).unwrap();
    let recent: Vec<String> = store.recent_episodes(10).into_iter().map(|e| e.content).collect();
    assert_eq!(recent, vec!["b", "d", "c", "a"]);
    let history: Vec<String> = store.episodes_by_correlation(7).into_iter().map(|e| e.content).collect();
    assert_eq!(history, vec!["a", "c", "d", "b"]);
    assert_eq!(store.recent_episodes(0).len(), 0);
    assert_eq!(store.recent_episodes(2).len(), 2);
}

#[test]
fn duplicate_id_is_refused_and_changes_nothing() {
    let mut store = MemoryStore::new();
    store.insert_record(ep(9, 1, 10, "first")).unwrap();
    let err = store.insert_record(ep(9, 2, 20, "second")).unwrap_err();
    match err {
        bella::error::BellaError::Internal(text) => assert_eq!(text, "UNIQUE constraint failed: episodes.id"),
        other => panic!("unexpected error {:?}", other),
    }
    assert_eq!(store.count(), 1);
    assert_eq!(store.get_by_id(9).unwrap().content, "first");
    assert!(store.get_by_id(10).is_none());
}

#[test]
fn search_ignores_ascii_case_and_respects_limit() {
    let mut store = MemoryStore::new();
    store.insert_record(ep(1, 1, 1, "Buy GROCERIES today")).unwrap();
    store.insert_record(ep(2, 1, 2, "groceries again")).unwrap();
    store.insert_record(ep(3, 1, 3, "nothing here")).unwrap();
    let all: Vec<u128> = store.search_content("Groceries", 10).into_iter().map(|e| e.id).collect();
    assert_eq!(all, vec![2, 1]);
    let one: Vec<u128> = store.search_content("groceries", 1).into_iter().map(|e| e.id).collect();
    assert_eq!(one, vec![2]);
    assert_eq!(store.search_content("", 10).len(), 3);
    assert_eq!(store.search_content("zzz", 10).len(), 0);
}

#[test]
fn recorded_episode_is_found_by_id() {
    let mut store = MemoryStore::new();
    let e = store
        .insert_episode(NewEpisode { correlation_id: 5, content: "hello".into(), kind: "k".into() })
        .unwrap();
    let found = store.get_by_id(e.id).unwrap();
    assert_eq!(found.content, "hello");
    assert_eq!(found.correlation_id, 5);
    assert_eq!(found.created_at_unix, e.created_at_unix);
}

#[test]
fn rows_read_back_with_nil_fallback() {
    let id = uuid::Uuid::new_v4();
    let e = Episode::from_row(&id.to_string(), "not-a-uuid", 42, "c".into(), "k".into());
    assert_eq!(e.id, id.as_u128());
    assert_eq!(e.correlation_id, 0);
    assert_eq!(e.created_at_unix, 42);
    assert_eq!(bella::ids::id_from_text("550e8400-e29b-41d4-a716-446655440000"), 0x550e8400e29b41d4a716446655440000);
}

#[test]
fn substring_helpers() {
    assert!(bella::text::has_prefix("/home/a", "/home"));
    assert!(!bella::text::has_prefix("/ho", "/home"));
    assert!(bella::text::contains_ignoring_ascii_case("Hello World", "WORLD"));
    assert!(!bella::text::contains_ignoring_ascii_case("Hello", "hello world"));
    assert!(bella::text::contains_ignoring_ascii_case("abc", ""));
    assert_eq!(bella::text::chars_of("héllo"), vec!['h', 'é', 'l', 'l', 'o']);
}
