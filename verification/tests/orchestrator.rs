use anime_grabber::model::{Anime, HistoryData, HistoryResult, SearchResult};
use anime_grabber::orchestrator::{exit_status, Orchestrator, RunError, RunPhase, RunReport};
use anime_grabber::selector::{SelectionError, SelectionOutcome, SelectorAction, SelectorEvent};

fn anime(keywords: &str, exclude_keywords: &str) -> Anime {
    Anime { keywords: keywords.to_string(), exclude_keywords: exclude_keywords.to_string() }
}

fn candidate(age: u32, title: &str, guid: &str) -> SearchResult {
    SearchResult { age, title: title.to_string(), guid: guid.to_string() }
}

fn event(url: &str, successful: bool) -> HistoryResult {
    HistoryResult { data: HistoryData { url: url.to_string() }, successful }
}

#[test]
fn scenario_one_title_fails_its_search_and_the_other_still_downloads() {
    let mut run = Orchestrator::new(&vec![anime("first", ""), anime("second", "")], false);
    let searches = run.history_fetched(&vec![]);
    assert_eq!(
        searches,
        vec![SelectorAction::Search("first".into()), SelectorAction::Search("second".into())]
    );
    assert_eq!(run.item_event(0, SelectorEvent::SearchFailed), SelectorAction::Finish);
    assert!(!run.is_complete());
    assert_eq!(run.report(), None);
    assert_eq!(
        run.item_event(1, SelectorEvent::SearchCompleted(vec![candidate(1, "Second 01", "s1")])),
        SelectorAction::Download("s1".into())
    );
    assert_eq!(run.item_event(1, SelectorEvent::DownloadCompleted), SelectorAction::Finish);
    assert!(run.is_complete());
    let report = run.report().expect("complete");
    assert_eq!(
        report,
        Ok(RunReport {
            items: vec![
                Err(SelectionError::SearchFailed),
                Ok(SelectionOutcome::Downloaded(candidate(1, "Second 01", "s1"))),
            ],
        })
    );
    assert_eq!(exit_status(&report), 1);
}

#[test]
fn no_title_is_selected_for_before_the_history_arrives() {
    let mut run = Orchestrator::new(&vec![anime("first", "")], true);
    assert_eq!(run.phase(), RunPhase::AwaitingHistory);
    assert_eq!(run.item_event(0, SelectorEvent::Start), SelectorAction::Nothing);
    assert_eq!(
        run.item_event(0, SelectorEvent::SearchCompleted(vec![candidate(1, "First", "f")])),
        SelectorAction::Nothing
    );
    assert!(!run.is_complete());
    assert_eq!(run.report(), None);
    assert_eq!(run.history_fetched(&vec![]), vec![SelectorAction::Search("first".into())]);
    assert_eq!(run.phase(), RunPhase::Running);
}

#[test]
fn history_failure_ends_the_run() {
    let mut run = Orchestrator::new(&vec![anime("first", ""), anime("second", "")], true);
    run.history_failed();
    assert_eq!(run.phase(), RunPhase::Aborted);
    assert!(run.is_complete());
    assert_eq!(run.report(), Some(Err(RunError::HistoryFetchFailed)));
    assert_eq!(exit_status(&Err(RunError::HistoryFetchFailed)), 1);
    assert_eq!(run.item_event(0, SelectorEvent::Start), SelectorAction::Nothing);
    assert!(run.history_fetched(&vec![event("x", true)]).is_empty());
    assert_eq!(run.phase(), RunPhase::Aborted);
    assert!(run.history().is_empty());
}

#[test]
fn history_is_taken_once() {
    let mut run = Orchestrator::new(&vec![anime("first", "")], true);
    assert_eq!(run.history_fetched(&vec![event("f", true)]).len(), 1);
    assert!(run.history_fetched(&vec![event("g", true)]).is_empty());
    run.history_failed();
    assert_eq!(run.phase(), RunPhase::Running);
    assert!(run.history().contains("f"));
    assert!(!run.history().contains("g"));
    assert_eq!(run.history().len(), 1);
}

#[test]
fn history_rules_out_what_was_grabbed() {
    let mut run = Orchestrator::new(&vec![anime("first", "")], true);
    run.history_fetched(&vec![event("f1", true), event("f2", false)]);
    let results = vec![candidate(0, "First 1", "f1"), candidate(0, "First 2", "f2")];
    assert_eq!(
        run.item_event(0, SelectorEvent::SearchCompleted(results)),
        SelectorAction::Download("f2".into())
    );
}

#[test]
fn run_without_titles_is_complete_once_the_history_came() {
    let mut run = Orchestrator::new(&vec![], true);
    assert_eq!(run.len(), 0);
    assert!(!run.is_complete());
    assert!(run.history_fetched(&vec![]).is_empty());
    assert!(run.is_complete());
    let report = run.report().expect("complete");
    assert_eq!(report, Ok(RunReport { items: vec![] }));
    assert_eq!(exit_status(&report), 0);
}

#[test]
fn event_for_an_unknown_title_is_ignored() {
    let mut run = Orchestrator::new(&vec![anime("first", "")], true);
    run.history_fetched(&vec![]);
    assert_eq!(run.item_event(1, SelectorEvent::SearchFailed), SelectorAction::Nothing);
    assert_eq!(run.item_event(usize::MAX, SelectorEvent::SearchFailed), SelectorAction::Nothing);
    assert!(!run.is_complete());
}

#[test]
fn titles_do_not_disturb_each_other() {
    let wanted = vec![anime("a", ""), anime("b", "raw"), anime("c", "")];
    let mut run = Orchestrator::new(&wanted, true);
    run.history_fetched(&vec![event("c1", true)]);
    let found = |guid: &str, title: &str| {
        SelectorEvent::SearchCompleted(vec![candidate(1, title, guid)])
    };
    assert_eq!(run.item_event(2, found("c1", "C 1")), SelectorAction::Finish);
    assert_eq!(run.item_event(0, found("a1", "A 1")), SelectorAction::Download("a1".into()));
    assert_eq!(run.item_event(1, found("b1", "B 1 RAW")), SelectorAction::Finish);
    assert_eq!(run.item_event(0, SelectorEvent::DownloadFailed), SelectorAction::Finish);
    assert!(run.is_complete());
    assert_eq!(
        run.report(),
        Some(Ok(RunReport {
            items: vec![
                Err(SelectionError::DownloadFailed(candidate(1, "A 1", "a1"))),
                Ok(SelectionOutcome::NothingSelected),
                Ok(SelectionOutcome::NothingSelected),
            ],
        }))
    );
}

#[test]
fn exit_status_is_zero_for_a_clean_run_only() {
    let downloaded = || Ok(SelectionOutcome::Downloaded(candidate(1, "A", "a")));
    assert_eq!(exit_status(&Ok(RunReport { items: vec![] })), 0);
    let clean = RunReport { items: vec![downloaded(), Ok(SelectionOutcome::NothingSelected)] };
    assert_eq!(exit_status(&Ok(clean)), 0);
    let failed = RunReport { items: vec![downloaded(), Err(SelectionError::SearchFailed)] };
    assert_eq!(exit_status(&Ok(failed)), 1);
    assert_eq!(
        exit_status(&Ok(RunReport {
            items: vec![Err(SelectionError::NotifyFailed(candidate(1, "A", "a"))), downloaded()],
        })),
        1
    );
    assert_eq!(
        exit_status(&Ok(RunReport {
            items: vec![Err(SelectionError::DownloadFailed(candidate(1, "A", "a")))],
        })),
        1
    );
    assert_eq!(exit_status(&Err(RunError::HistoryFetchFailed)), 1);
    assert!(RunReport { items: vec![downloaded()] }.is_success());
    assert!(!RunReport { items: vec![Err(SelectionError::SearchFailed)] }.is_success());
}

#[test]
fn notifications_follow_the_run_switch() {
    let mut run = Orchestrator::new(&vec![anime("a", "")], true);
    run.history_fetched(&vec![]);
    run.item_event(0, SelectorEvent::SearchCompleted(vec![candidate(1, "A 1", "a1")]));
    assert_eq!(
        run.item_event(0, SelectorEvent::DownloadCompleted),
        SelectorAction::Notify("Downloading A 1".into())
    );
    assert!(!run.is_complete());
    assert_eq!(run.item_event(0, SelectorEvent::NotifyFailed), SelectorAction::Finish);
    assert_eq!(
        run.report(),
        Some(Ok(RunReport {
            items: vec![Err(SelectionError::NotifyFailed(candidate(1, "A 1", "a1")))],
        }))
    );
}
