use anime_grabber::eligibility::{is_eligible, MAX_AGE_DAYS};
use anime_grabber::history::HistorySet;
use anime_grabber::model::{Anime, HistoryData, HistoryResult, SearchResult};

fn anime(exclude_keywords: &str) -> Anime {
    Anime { keywords: "show".to_string(), exclude_keywords: exclude_keywords.to_string() }
}

fn candidate(age: u32, title: &str, guid: &str) -> SearchResult {
    SearchResult { age, title: title.to_string(), guid: guid.to_string() }
}

fn grabbed(urls: &[&str]) -> HistorySet {
    let records: Vec<HistoryResult> = urls
        .iter()
        .map(|url| HistoryResult { data: HistoryData { url: url.to_string() }, successful: true })
        .collect();
    HistorySet::from_history(&records)
}

#[test]
fn age_limit_is_two_days() {
    assert_eq!(MAX_AGE_DAYS, 2);
}

#[test]
fn fresh_unseen_candidate_is_eligible() {
    assert!(is_eligible(&candidate(1, "Show A S01E01", "x1"), &anime(""), &grabbed(&[])));
}

#[test]
fn age_boundary() {
    let history = grabbed(&[]);
    assert!(is_eligible(&candidate(0, "Show", "a"), &anime(""), &history));
    assert!(is_eligible(&candidate(2, "Show", "a"), &anime(""), &history));
    assert!(!is_eligible(&candidate(3, "Show", "a"), &anime(""), &history));
    assert!(!is_eligible(&candidate(u32::MAX, "Show", "a"), &anime(""), &history));
}

#[test]
fn stale_candidate_is_rejected_whatever_else_holds() {
    assert!(!is_eligible(&candidate(5, "Show A", "x2"), &anime(""), &grabbed(&[])));
    assert!(!is_eligible(&candidate(5, "Show A", "x2"), &anime("RAW"), &grabbed(&["x9"])));
    assert!(!is_eligible(&candidate(5, "", ""), &anime(""), &grabbed(&[])));
}

#[test]
fn excluded_keyword_rejects() {
    let history = grabbed(&[]);
    assert!(!is_eligible(&candidate(0, "Show B [RAW]", "x3"), &anime("RAW"), &history));
    assert!(!is_eligible(&candidate(0, "Show B [RAW]", "x3"), &anime("dub raw"), &history));
    assert!(is_eligible(&candidate(0, "Show B [RAW]", "x3"), &anime("dub"), &history));
}

#[test]
fn grabbed_candidate_is_rejected() {
    assert!(!is_eligible(&candidate(1, "Show A", "x4"), &anime(""), &grabbed(&["x4"])));
    assert!(is_eligible(&candidate(1, "Show A", "x4"), &anime(""), &grabbed(&["x5"])));
}

#[test]
fn failed_grab_does_not_reject() {
    let history = HistorySet::from_history(&vec![HistoryResult {
        data: HistoryData { url: "x4".to_string() },
        successful: false,
    }]);
    assert!(is_eligible(&candidate(1, "Show A", "x4"), &anime(""), &history));
}

#[test]
fn eligibility_is_the_same_each_time() {
    let c = candidate(1, "Show A", "x1");
    let a = anime("RAW");
    let h = grabbed(&["x2"]);
    assert_eq!(is_eligible(&c, &a, &h), is_eligible(&c, &a, &h));
}
