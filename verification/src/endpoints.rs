//! What is asked of the indexer and of the notification service: the
//! addresses and the values of each request. Sending is left to the caller.

use crate::model::Anime;
use vstd::prelude::*;
use vstd::string::StringExecFns;

verus! {

/// How many of the latest history events are asked for.
pub const HISTORY_LIMIT: u32 = 100;

/// The indexer service and the one indexer that is searched.
#[derive(Debug, PartialEq, Eq)]
pub struct Prowlarr {
    /// The service's base address, without a slash at its end.
    pub url: String,
    /// The key that the service asks for with every request.
    pub api_key: String,
    /// The number of the indexer that searches and downloads go to.
    pub indexer: u32,
}

/// The notification channel.
#[derive(Debug, PartialEq, Eq)]
pub struct Ntfy {
    /// Whether downloads are announced at all.
    pub enable: bool,
    /// The topic that announcements are posted to.
    pub topic: String,
}

/// All that a run is set up with.
#[derive(Debug, PartialEq, Eq)]
pub struct Config {
    pub prowlarr: Prowlarr,
    pub ntfy: Ntfy,
    /// The wanted titles, in the order in which they are reported.
    pub animes: Vec<Anime>,
}

/// The values of a search: the text to look for, on one indexer.
#[derive(Debug, PartialEq, Eq)]
pub struct SearchQuery {
    pub query: String,
    pub indexer_id: u32,
}

/// The values of a history request: the latest grabs of one indexer.
#[derive(Debug, PartialEq, Eq)]
pub struct HistoryQuery {
    pub indexer_id: u32,
    pub event_type: String,
    pub limit: u32,
}

/// The body of a download request: which release, from which indexer.
#[derive(Debug, PartialEq, Eq)]
pub struct DownloadRequest {
    pub guid: String,
    pub indexer_id: u32,
}

/// The path of the search endpoint, which also takes download requests.
pub open spec fn search_path() -> Seq<char> {
    "/api/v1/search"@
}

/// The path of the history endpoint.
pub open spec fn history_path() -> Seq<char> {
    "/api/v1/history/indexer"@
}

/// The kind of history event that records a grab.
pub open spec fn grab_event_type() -> Seq<char> {
    "releaseGrabbed"@
}

/// The address under which the notification topics live.
pub open spec fn topic_base() -> Seq<char> {
    "https://ntfy.sh/"@
}

impl Prowlarr {
    /// The address that searches are sent to.
    pub fn search_url(&self) -> (url: String)
        ensures
            url@ == self.url@ + search_path(),
    {
        self.url.clone().concat("/api/v1/search")
    }

    /// The address that download requests are sent to. The indexer service
    /// takes them where it takes searches.
    pub fn download_url(&self) -> (url: String)
        ensures
            url@ == self.url@ + search_path(),
    {
        self.search_url()
    }

    /// The address that the history is asked from.
    pub fn history_url(&self) -> (url: String)
        ensures
            url@ == self.url@ + history_path(),
    {
        self.url.clone().concat("/api/v1/history/indexer")
    }

    /// The values of a search for `keywords` on the configured indexer.
    pub fn search_query(&self, keywords: &str) -> (query: SearchQuery)
        ensures
            query.query@ == keywords@,
            query.indexer_id == self.indexer,
    {
        SearchQuery { query: keywords.to_owned(), indexer_id: self.indexer }
    }

    /// The values of the history request: the latest [`HISTORY_LIMIT`] grabs
    /// of the configured indexer.
    pub fn history_query(&self) -> (query: HistoryQuery)
        ensures
            query.indexer_id == self.indexer,
            query.event_type@ == grab_event_type(),
            query.limit == HISTORY_LIMIT,
    {
        HistoryQuery {
            indexer_id: self.indexer,
            event_type: String::from_str("releaseGrabbed"),
            limit: HISTORY_LIMIT,
        }
    }

    /// The body that asks for the download of the release with key `guid`
    /// from the configured indexer.
    pub fn download_request(&self, guid: &str) -> (request: DownloadRequest)
        ensures
            request.guid@ == guid@,
            request.indexer_id == self.indexer,
    {
        DownloadRequest { guid: guid.to_owned(), indexer_id: self.indexer }
    }
}

impl Ntfy {
    /// The address that announcements are posted to.
    pub fn topic_url(&self) -> (url: String)
        ensures
            url@ == topic_base() + self.topic@,
    {
        String::from_str("https://ntfy.sh/").concat(self.topic.as_str())
    }
}

} // verus!
