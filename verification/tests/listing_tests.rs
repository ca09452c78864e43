use transportal::listing::{contains_sub, process_torrent_list, TorrentEntry};

fn entry(name: &str, added_date: Option<u64>, index: usize) -> TorrentEntry {
    TorrentEntry {
        name: name.to_string(),
        added_date,
        index,
    }
}

#[test]
fn test_contains_sub() {
    assert!(contains_sub("hello world", "lo wo"));
    assert!(contains_sub("hello", "hello"));
    assert!(contains_sub("hello", ""));
    assert!(contains_sub("", ""));
    assert!(!contains_sub("", "a"));
    assert!(!contains_sub("hello", "hello!"));
    assert!(!contains_sub("abc", "ac"));
}

#[test]
fn test_list_sorted_newest_first() {
    let entries = vec![
        entry("a", Some(100), 0),
        entry("b", Some(300), 1),
        entry("c", None, 2),
        entry("d", Some(200), 3),
    ];
    let out = process_torrent_list(entries, None);
    let order: Vec<usize> = out.iter().map(|e| e.index).collect();
    // records without a date come first, then by added date descending
    assert_eq!(order, vec![2, 1, 3, 0]);
}

#[test]
fn test_list_filter_is_case_insensitive() {
    let entries = vec![
        entry("Ubuntu ISO", Some(3), 0),
        entry("Debian ISO", Some(2), 1),
        entry("holiday photos", Some(1), 2),
    ];
    let out = process_torrent_list(entries, Some("iso"));
    let order: Vec<usize> = out.iter().map(|e| e.index).collect();
    assert_eq!(order, vec![0, 1]);
}

#[test]
fn test_list_filter_drops_everything_on_no_match() {
    let entries = vec![entry("alpha", Some(1), 0), entry("beta", Some(2), 1)];
    let out = process_torrent_list(entries, Some("gamma"));
    assert!(out.is_empty());
}

#[test]
fn test_list_empty() {
    let out = process_torrent_list(Vec::new(), Some("x"));
    assert!(out.is_empty());
}

#[test]
fn test_list_equal_dates_keep_input_order() {
    // records with equal added dates tie in the list order; the sort is
    // stable, so they keep their upstream order
    let entries = vec![
        entry("one", Some(5), 0),
        entry("late", Some(1), 1),
        entry("two", Some(5), 2),
        entry("three", Some(5), 3),
        entry("undated-a", None, 4),
        entry("undated-b", None, 5),
    ];
    let out = process_torrent_list(entries, None);
    let order: Vec<usize> = out.iter().map(|e| e.index).collect();
    assert_eq!(order, vec![4, 5, 0, 2, 3, 1]);
}
