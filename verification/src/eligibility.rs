//! Which search results qualify for a wanted title.

use crate::history::HistorySet;
use crate::keywords::{
    contains_ignoring_case, match_exclude_keywords, matches_exclude_keywords, whitespace_tokens,
};
use crate::model::{Anime, AnimeView, SearchResult, SearchResultView};
use vstd::prelude::*;

verus! {

/// A result older than this many days is stale.
pub const MAX_AGE_DAYS: u32 = 2;

/// A result qualifies when it is fresh, holds none of the excluded words and
/// was not grabbed before.
pub open spec fn eligible(
    candidate: SearchResultView,
    anime: AnimeView,
    history: Set<Seq<char>>,
) -> bool {
    &&& candidate.age <= MAX_AGE_DAYS
    &&& !matches_exclude_keywords(candidate.title, anime.exclude_keywords)
    &&& !history.contains(candidate.guid)
}

/// Decides whether `candidate` qualifies for `anime`, given what was grabbed
/// before. The three rules are tried in the order age, excluded words,
/// history, and the first that fails settles it.
pub fn is_eligible(candidate: &SearchResult, anime: &Anime, history: &HistorySet) -> (ok: bool)
    ensures
        ok == eligible(candidate@, anime@, history@),
        candidate.age > MAX_AGE_DAYS ==> !ok,
        forall|i: int|
            0 <= i < whitespace_tokens(anime.exclude_keywords@).len() && contains_ignoring_case(
                candidate.title@,
                #[trigger] whitespace_tokens(anime.exclude_keywords@)[i],
            ) ==> !ok,
        history@.contains(candidate.guid@) ==> !ok,
{
    if candidate.age > MAX_AGE_DAYS {
        return false;
    }
    if match_exclude_keywords(candidate.title.as_str(), anime.exclude_keywords.as_str()) {
        return false;
    }
    !history.contains(candidate.guid.as_str())
}

} // verus!
