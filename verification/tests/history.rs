use anime_grabber::history::HistorySet;
use anime_grabber::model::{HistoryData, HistoryResult};

fn event(url: &str, successful: bool) -> HistoryResult {
    HistoryResult { data: HistoryData { url: url.to_string() }, successful }
}

#[test]
fn new_history_is_empty() {
    let set = HistorySet::new();
    assert!(set.is_empty());
    assert_eq!(set.len(), 0);
    assert!(!set.contains("x1"));
}

#[test]
fn history_of_no_events_is_empty() {
    let set = HistorySet::from_history(&vec![]);
    assert!(set.is_empty());
    assert_eq!(set.len(), 0);
}

#[test]
fn history_keeps_successful_events_only() {
    let set = HistorySet::from_history(&vec![
        event("x1", true),
        event("x2", false),
        event("x3", true),
    ]);
    assert!(set.contains("x1"));
    assert!(!set.contains("x2"));
    assert!(set.contains("x3"));
    assert!(!set.contains("x4"));
    assert_eq!(set.len(), 2);
    assert!(!set.is_empty());
}

#[test]
fn history_holds_each_key_once() {
    let set = HistorySet::from_history(&vec![
        event("x1", true),
        event("x1", true),
        event("x1", false),
    ]);
    assert!(set.contains("x1"));
    assert_eq!(set.len(), 1);
}

#[test]
fn history_of_failures_is_empty() {
    let set = HistorySet::from_history(&vec![event("x1", false), event("x2", false)]);
    assert!(set.is_empty());
    assert!(!set.contains("x1"));
}

#[test]
fn history_keys_are_compared_exactly() {
    let set = HistorySet::from_history(&vec![event("Guid-1", true)]);
    assert!(set.contains("Guid-1"));
    assert!(!set.contains("guid-1"));
    assert!(!set.contains("Guid-"));
    assert!(!set.contains(""));
}
