//! Which of a list of search results is taken: the first that qualifies, in
//! the order in which the indexer gave them.

use crate::eligibility::{eligible, is_eligible};
use crate::history::HistorySet;
use crate::model::{Anime, AnimeView, SearchResult, SearchResultView};
use vstd::prelude::*;

verus! {

/// The result at `at` qualifies and none before it does.
pub open spec fn is_first_eligible(
    candidates: Seq<SearchResultView>,
    anime: AnimeView,
    history: Set<Seq<char>>,
    at: int,
) -> bool {
    &&& 0 <= at < candidates.len()
    &&& eligible(candidates[at], anime, history)
    &&& forall|j: int| 0 <= j < at ==> !eligible(#[trigger] candidates[j], anime, history)
}

/// No result qualifies.
pub open spec fn none_eligible(
    candidates: Seq<SearchResultView>,
    anime: AnimeView,
    history: Set<Seq<char>>,
) -> bool {
    forall|j: int| 0 <= j < candidates.len() ==> !eligible(#[trigger] candidates[j], anime, history)
}

/// The place of the first result that qualifies, if one does.
pub open spec fn first_eligible(
    candidates: Seq<SearchResultView>,
    anime: AnimeView,
    history: Set<Seq<char>>,
) -> Option<int> {
    if exists|at: int| is_first_eligible(candidates, anime, history, at) {
        Some(choose|at: int| is_first_eligible(candidates, anime, history, at))
    } else {
        None
    }
}

/// How many results qualify.
pub open spec fn count_eligible(
    candidates: Seq<SearchResultView>,
    anime: AnimeView,
    history: Set<Seq<char>>,
) -> nat {
    candidates.filter(qualifies(anime, history)).len()
}

/// The test that a result qualifies for `anime`, given `history`.
pub open spec fn qualifies(anime: AnimeView, history: Set<Seq<char>>) -> spec_fn(
    SearchResultView,
) -> bool {
    |c: SearchResultView| eligible(c, anime, history)
}

/// At most one place is the first that qualifies, and there is none exactly
/// when no result qualifies.
pub proof fn lemma_first_eligible(
    candidates: Seq<SearchResultView>,
    anime: AnimeView,
    history: Set<Seq<char>>,
)
    ensures
        match first_eligible(candidates, anime, history) {
            Some(at) => is_first_eligible(candidates, anime, history, at),
            None => none_eligible(candidates, anime, history),
        },
        forall|at: int| #[trigger]
            is_first_eligible(candidates, anime, history, at) ==> first_eligible(
                candidates,
                anime,
                history,
            ) == Some(at),
{
    if exists|at: int| is_first_eligible(candidates, anime, history, at) {
        let chosen = choose|at: int| is_first_eligible(candidates, anime, history, at);
        assert forall|at: int| #[trigger]
            is_first_eligible(candidates, anime, history, at) implies at == chosen by {
            if at < chosen {
                assert(!eligible(candidates[at], anime, history));
            } else if chosen < at {
                assert(!eligible(candidates[chosen], anime, history));
            }
        }
    } else {
        assert forall|j: int| 0 <= j < candidates.len() implies !eligible(
            #[trigger] candidates[j],
            anime,
            history,
        ) by {
            if eligible(candidates[j], anime, history) {
                lemma_least_eligible(candidates, anime, history, j);
            }
        }
    }
}

/// Below a result that qualifies stands a first one.
proof fn lemma_least_eligible(
    candidates: Seq<SearchResultView>,
    anime: AnimeView,
    history: Set<Seq<char>>,
    below: int,
)
    requires
        0 <= below < candidates.len(),
        eligible(candidates[below], anime, history),
    ensures
        exists|at: int| is_first_eligible(candidates, anime, history, at),
    decreases below,
{
    if exists|j: int| 0 <= j < below && eligible(#[trigger] candidates[j], anime, history) {
        let j = choose|j: int| 0 <= j < below && eligible(#[trigger] candidates[j], anime, history);
        lemma_least_eligible(candidates, anime, history, j);
    } else {
        assert(is_first_eligible(candidates, anime, history, below));
    }
}

/// Finds the first result that qualifies. The results are taken in the order
/// given, which is the indexer's; nothing is sorted.
pub fn select(candidates: &Vec<SearchResult>, anime: &Anime, history: &HistorySet) -> (choice:
    Option<usize>)
    ensures
        match choice {
            Some(at) => is_first_eligible(candidates.deep_view(), anime@, history@, at as int),
            None => none_eligible(candidates.deep_view(), anime@, history@),
        },
        first_eligible(candidates.deep_view(), anime@, history@) == match choice {
            Some(at) => Some(at as int),
            None => None,
        },
{
    let mut i: usize = 0;
    while i < candidates.len()
        invariant
            i <= candidates.len(),
            forall|j: int|
                0 <= j < i ==> !eligible(#[trigger] candidates.deep_view()[j], anime@, history@),
        decreases candidates.len() - i,
    {
        if is_eligible(&candidates[i], anime, history) {
            proof {
                assert(candidates.deep_view()[i as int] == candidates[i as int]@);
                lemma_first_eligible(candidates.deep_view(), anime@, history@);
            }
            return Some(i);
        }
        i += 1;
    }
    proof {
        lemma_first_eligible(candidates.deep_view(), anime@, history@);
    }
    None
}

/// No result qualifies exactly when the count of those that do is zero, and
/// exactly when there is no first one.
pub proof fn lemma_count_eligible(
    candidates: Seq<SearchResultView>,
    anime: AnimeView,
    history: Set<Seq<char>>,
)
    ensures
        count_eligible(candidates, anime, history) == 0 <==> none_eligible(
            candidates,
            anime,
            history,
        ),
        count_eligible(candidates, anime, history) == 0 <==> first_eligible(
            candidates,
            anime,
            history,
        ) is None,
{
    let pred = qualifies(anime, history);
    let kept = candidates.filter(pred);
    lemma_first_eligible(candidates, anime, history);
    if kept.len() > 0 {
        candidates.lemma_filter_pred(pred, 0);
        assert(kept.contains(kept[0]));
        candidates.lemma_filter_contains_rev(pred, kept[0]);
        let j = choose|j: int| 0 <= j < candidates.len() && candidates[j] == kept[0];
        assert(eligible(candidates[j], anime, history));
        if first_eligible(candidates, anime, history) is None {
            assert(!eligible(candidates[j], anime, history));
        }
    } else {
        assert forall|j: int| 0 <= j < candidates.len() implies !eligible(
            #[trigger] candidates[j],
            anime,
            history,
        ) by {
            if eligible(candidates[j], anime, history) {
                candidates.lemma_filter_contains(pred, j);
            }
        }
        if first_eligible(candidates, anime, history) is Some {
            let at = first_eligible(candidates, anime, history)->0;
            assert(eligible(candidates[at], anime, history));
        }
    }
}

/// What was downloaded is not downloaded again. Where a run took the result
/// at `at` and the history has since grown to hold its key, a second run over
/// the same results passes over everything up to and including `at`: it
/// takes nothing, or a later result with another key.
pub proof fn lemma_rerun_downloads_nothing_twice(
    candidates: Seq<SearchResultView>,
    anime: AnimeView,
    history: Set<Seq<char>>,
    later_history: Set<Seq<char>>,
    at: int,
)
    requires
        is_first_eligible(candidates, anime, history, at),
        history.subset_of(later_history),
        later_history.contains(candidates[at].guid),
    ensures
        first_eligible(candidates, anime, later_history) matches Some(again) ==> {
            &&& at < again < candidates.len()
            &&& candidates[again].guid != candidates[at].guid
            &&& eligible(candidates[again], anime, history)
        },
{
    lemma_first_eligible(candidates, anime, later_history);
    if first_eligible(candidates, anime, later_history) is Some {
        let again = first_eligible(candidates, anime, later_history)->0;
        assert(eligible(candidates[again], anime, later_history));
        if again < at {
            assert(!eligible(candidates[again], anime, history));
        }
    }
}

} // verus!
