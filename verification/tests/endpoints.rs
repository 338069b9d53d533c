use anime_grabber::endpoints::{
    Config, DownloadRequest, HistoryQuery, Ntfy, Prowlarr, SearchQuery, HISTORY_LIMIT,
};
use anime_grabber::model::Anime;
use anime_grabber::orchestrator::{Orchestrator, RunPhase};
use anime_grabber::selector::SelectorAction;

fn prowlarr() -> Prowlarr {
    Prowlarr { url: "http://localhost:9696".to_string(), api_key: "k".to_string(), indexer: 7 }
}

#[test]
fn indexer_addresses() {
    assert_eq!(prowlarr().search_url(), "http://localhost:9696/api/v1/search");
    assert_eq!(prowlarr().download_url(), "http://localhost:9696/api/v1/search");
    assert_eq!(prowlarr().history_url(), "http://localhost:9696/api/v1/history/indexer");
}

#[test]
fn search_goes_to_the_configured_indexer() {
    assert_eq!(
        prowlarr().search_query("frieren 1080p"),
        SearchQuery { query: "frieren 1080p".to_string(), indexer_id: 7 }
    );
}

#[test]
fn history_asks_for_the_latest_hundred_grabs() {
    assert_eq!(HISTORY_LIMIT, 100);
    assert_eq!(
        prowlarr().history_query(),
        HistoryQuery { indexer_id: 7, event_type: "releaseGrabbed".to_string(), limit: 100 }
    );
}

#[test]
fn download_names_release_and_indexer() {
    assert_eq!(
        prowlarr().download_request("x1"),
        DownloadRequest { guid: "x1".to_string(), indexer_id: 7 }
    );
}

#[test]
fn notification_address_ends_in_the_topic() {
    let ntfy = Ntfy { enable: true, topic: "anime".to_string() };
    assert_eq!(ntfy.topic_url(), "https://ntfy.sh/anime");
}

#[test]
fn run_is_set_up_from_the_configuration() {
    let config = Config {
        prowlarr: prowlarr(),
        ntfy: Ntfy { enable: true, topic: "anime".to_string() },
        animes: vec![
            Anime { keywords: "a".to_string(), exclude_keywords: "".to_string() },
            Anime { keywords: "b".to_string(), exclude_keywords: "raw".to_string() },
        ],
    };
    let mut run = Orchestrator::from_config(&config);
    assert_eq!(run.len(), 2);
    assert_eq!(run.phase(), RunPhase::AwaitingHistory);
    assert_eq!(
        run.history_fetched(&vec![]),
        vec![SelectorAction::Search("a".into()), SelectorAction::Search("b".into())]
    );
}
