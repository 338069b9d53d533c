//! The records that the selection works on, and their mathematical views.

use vstd::prelude::*;

verus! {

/// A wanted title: what to search for, and which words disqualify a result.
#[derive(Debug, PartialEq, Eq)]
pub struct Anime {
    /// The free-text query handed to the indexer.
    pub keywords: String,
    /// White-space separated words; a result whose title holds one of them,
    /// letter case ignored, is passed over.
    pub exclude_keywords: String,
}

/// What an [`Anime`] stands for in contracts.
pub struct AnimeView {
    pub keywords: Seq<char>,
    pub exclude_keywords: Seq<char>,
}

impl View for Anime {
    type V = AnimeView;

    open spec fn view(&self) -> AnimeView {
        AnimeView { keywords: self.keywords@, exclude_keywords: self.exclude_keywords@ }
    }
}

impl DeepView for Anime {
    type V = AnimeView;

    open spec fn deep_view(&self) -> AnimeView {
        self@
    }
}

impl Clone for Anime {
    fn clone(&self) -> (copy: Self)
        ensures
            copy == *self,
    {
        Anime { keywords: self.keywords.clone(), exclude_keywords: self.exclude_keywords.clone() }
    }
}

/// One search result, in the place the indexer gave it.
#[derive(Debug, PartialEq, Eq)]
pub struct SearchResult {
    /// Days since the release appeared.
    pub age: u32,
    /// The release's name, used for keyword exclusion and in notifications.
    pub title: String,
    /// The key by which the release is downloaded and found in the history.
    pub guid: String,
}

/// What a [`SearchResult`] stands for in contracts.
pub struct SearchResultView {
    pub age: u32,
    pub title: Seq<char>,
    pub guid: Seq<char>,
}

impl View for SearchResult {
    type V = SearchResultView;

    open spec fn view(&self) -> SearchResultView {
        SearchResultView { age: self.age, title: self.title@, guid: self.guid@ }
    }
}

impl DeepView for SearchResult {
    type V = SearchResultView;

    open spec fn deep_view(&self) -> SearchResultView {
        self@
    }
}

impl Clone for SearchResult {
    fn clone(&self) -> (copy: Self)
        ensures
            copy == *self,
    {
        SearchResult { age: self.age, title: self.title.clone(), guid: self.guid.clone() }
    }
}

/// The payload of a history event.
#[derive(Debug, PartialEq, Eq)]
pub struct HistoryData {
    /// The key of the release that was grabbed.
    pub url: String,
}

/// One event of the indexer's grab history.
#[derive(Debug, PartialEq, Eq)]
pub struct HistoryResult {
    pub data: HistoryData,
    /// Whether the grab went through.
    pub successful: bool,
}

/// What a [`HistoryResult`] stands for in contracts.
pub struct HistoryResultView {
    pub url: Seq<char>,
    pub successful: bool,
}

impl View for HistoryResult {
    type V = HistoryResultView;

    open spec fn view(&self) -> HistoryResultView {
        HistoryResultView { url: self.data.url@, successful: self.successful }
    }
}

impl DeepView for HistoryResult {
    type V = HistoryResultView;

    open spec fn deep_view(&self) -> HistoryResultView {
        self@
    }
}

} // verus!
