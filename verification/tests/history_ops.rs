use rstube::history::{
    contains_id, dedup_history, filter_unseen, first_occurrences, forget_lines, latest_resumable,
    recent_window, MergedIds,
    HistoryKey,
};

fn key(id: &str, ts_end: u64) -> HistoryKey {
    HistoryKey { video_id: id.to_string(), ts_end }
}

#[test]
fn dedup_keeps_latest_session_newest_first() {
    let entries = vec![
        key("a", 100),
        key("b", 300),
        key("a", 500),
        key("c", 200),
        key("b", 250),
    ];
    assert_eq!(dedup_history(&entries), vec![2, 1, 3]);
}

#[test]
fn dedup_keeps_first_of_equal_latest_sessions() {
    let entries = vec![key("a", 7), key("a", 7), key("a", 3)];
    assert_eq!(dedup_history(&entries), vec![0]);
    assert_eq!(dedup_history(&Vec::new()), Vec::<usize>::new());
}

#[test]
fn unseen_items_keep_their_order() {
    let ids = vec!["a".to_string(), "b".to_string(), "c".to_string(), "b".to_string()];
    let seen = vec!["b".to_string()];
    assert_eq!(filter_unseen(&ids, &seen), vec![0, 2]);
    assert_eq!(filter_unseen(&ids, &Vec::new()), vec![0, 1, 2, 3]);
}

#[test]
fn merging_keeps_first_occurrences() {
    let ids = vec![
        "x".to_string(),
        "y".to_string(),
        "x".to_string(),
        "z".to_string(),
        "y".to_string(),
    ];
    assert_eq!(first_occurrences(&ids), vec![0, 1, 3]);
    assert!(contains_id(&ids, "z"));
    assert!(!contains_id(&ids, "w"));
}

#[test]
fn recent_window_is_most_recent_first() {
    assert_eq!(recent_window(5, 3), vec![4, 3, 2]);
    assert_eq!(recent_window(2, 20), vec![1, 0]);
    assert_eq!(recent_window(0, 20), Vec::<usize>::new());
    assert_eq!(recent_window(50, 20).len(), 20);
    assert_eq!(recent_window(50, 20)[19], 30);
}

#[test]
fn quick_quits_do_not_hide_resumable_sessions() {
    let entries = vec![key("a", 100), key("b", 200), key("a", 300), key("c", 400), key("b", 500)];
    let resumable = vec![true, true, false, false, true];
    assert_eq!(latest_resumable(&entries, &resumable), vec![4, 0]);
    assert_eq!(latest_resumable(&entries, &vec![false; 5]), Vec::<usize>::new());
    let ties = vec![key("a", 7), key("a", 7)];
    assert_eq!(latest_resumable(&ties, &vec![true, true]), vec![0]);
}

#[test]
fn merging_configured_videos() {
    let mut seen = MergedIds::from_ids(&vec!["a".to_string(), "b".to_string()]);
    assert!(!seen.should_load("b"));
    assert!(seen.should_load("c"));
    // The first entry for "c" fails to load: a later one is still loaded.
    assert!(!seen.record_load(None));
    assert!(seen.should_load("c"));
    assert!(seen.record_load(Some("c".to_string())));
    assert!(!seen.should_load("c"));
    assert!(seen.should_load("d"));
}

#[test]
fn forgetting_a_video_drops_its_lines() {
    let lines = vec![
        Some("a".to_string()),
        None,
        Some("b".to_string()),
        Some("a".to_string()),
    ];
    assert_eq!(forget_lines(&lines, "a"), (vec![1, 2], 2));
    assert_eq!(forget_lines(&lines, "z"), (vec![0, 1, 2, 3], 0));
}
