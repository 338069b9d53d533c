//! What a selection does over a whole run of events: how many downloads and
//! notifications it asks for, whatever the events and their order.

use crate::eligibility::eligible;
use crate::model::{AnimeView, SearchResultView};
use crate::selection::{
    count_eligible, first_eligible, is_first_eligible, lemma_count_eligible,
    lemma_first_eligible, none_eligible,
};
use crate::selector::{
    notification_text, step, SelectionOutcomeView, SelectorActionView, SelectorEventView,
    SelectorStateView,
};
use vstd::math::min;
use vstd::prelude::*;

verus! {

/// The state after a run of events from `start`, and the actions that were
/// answered, one for each event.
pub open spec fn run(
    anime: AnimeView,
    notify_enabled: bool,
    history: Set<Seq<char>>,
    start: SelectorStateView,
    events: Seq<SelectorEventView>,
) -> (SelectorStateView, Seq<SelectorActionView>)
    decreases events.len(),
{
    if events.len() == 0 {
        (start, Seq::empty())
    } else {
        let before = run(anime, notify_enabled, history, start, events.drop_last());
        let last = step(anime, notify_enabled, history, before.0, events.last());
        (last.0, before.1.push(last.1))
    }
}

/// The test that an action asks for a download.
pub open spec fn is_download() -> spec_fn(SelectorActionView) -> bool {
    |action: SelectorActionView| action is Download
}

/// The test that an action asks for a notification.
pub open spec fn is_notify() -> spec_fn(SelectorActionView) -> bool {
    |action: SelectorActionView| action is Notify
}

/// How many downloads `actions` ask for.
pub open spec fn downloads(actions: Seq<SelectorActionView>) -> nat {
    actions.filter(is_download()).len()
}

/// How many notifications `actions` ask for.
pub open spec fn notifications(actions: Seq<SelectorActionView>) -> nat {
    actions.filter(is_notify()).len()
}

/// A download can still be asked for from this state.
pub open spec fn may_download(state: SelectorStateView) -> bool {
    state is Idle || state is Searching
}

/// A notification can still be asked for from this state.
pub open spec fn may_notify(state: SelectorStateView) -> bool {
    state is Idle || state is Searching || state is Downloading
}

/// No side effect comes unearned. A download is asked for only in answer to
/// search results, and then for the first of them that qualifies. A
/// notification is asked for only in answer to a download that went through,
/// only where notifications are on, and it names the release that was
/// downloaded.
pub proof fn lemma_side_effects_are_earned(
    anime: AnimeView,
    notify_enabled: bool,
    history: Set<Seq<char>>,
    state: SelectorStateView,
    event: SelectorEventView,
)
    ensures
        step(anime, notify_enabled, history, state, event).1 matches SelectorActionView::Download(
            guid,
        ) ==> {
            &&& state is Searching
            &&& event matches SelectorEventView::SearchCompleted(candidates)
            &&& first_eligible(candidates, anime, history) matches Some(at)
            &&& is_first_eligible(candidates, anime, history, at)
            &&& guid == candidates[at].guid
        },
        step(anime, notify_enabled, history, state, event).1 matches SelectorActionView::Notify(
            message,
        ) ==> {
            &&& notify_enabled
            &&& state matches SelectorStateView::Downloading(chosen)
            &&& event is DownloadCompleted
            &&& message == notification_text(chosen.title)
        },
{
    if let SelectorEventView::SearchCompleted(candidates) = event {
        lemma_first_eligible(candidates, anime, history);
    }
}

/// A run of two parts is the run of the first, then the run of the second
/// from where the first ended.
pub proof fn lemma_run_concat(
    anime: AnimeView,
    notify_enabled: bool,
    history: Set<Seq<char>>,
    start: SelectorStateView,
    first: Seq<SelectorEventView>,
    second: Seq<SelectorEventView>,
)
    ensures
        ({
            let head = run(anime, notify_enabled, history, start, first);
            let tail = run(anime, notify_enabled, history, head.0, second);
            run(anime, notify_enabled, history, start, first + second) == (
                tail.0,
                head.1 + tail.1,
            )
        }),
    decreases second.len(),
{
    let head = run(anime, notify_enabled, history, start, first);
    let tail = run(anime, notify_enabled, history, head.0, second);
    if second.len() == 0 {
        assert(first + second =~= first);
        assert(head.1 + tail.1 =~= head.1);
    } else {
        lemma_run_concat(anime, notify_enabled, history, start, first, second.drop_last());
        assert((first + second).drop_last() =~= first + second.drop_last());
        assert((first + second).last() == second.last());
        let before = run(anime, notify_enabled, history, head.0, second.drop_last());
        let last = step(anime, notify_enabled, history, before.0, second.last());
        assert((head.1 + before.1).push(last.1) =~= head.1 + before.1.push(last.1));
    }
}

/// Whatever events come, in whatever order: a selection asks for at most
/// one download and at most one notification, and from a state in which the
/// download was already asked for it asks for none.
pub proof fn lemma_at_most_one_download(
    anime: AnimeView,
    notify_enabled: bool,
    history: Set<Seq<char>>,
    start: SelectorStateView,
    events: Seq<SelectorEventView>,
)
    ensures
        ({
            let end = run(anime, notify_enabled, history, start, events);
            &&& downloads(end.1) <= 1
            &&& notifications(end.1) <= 1
            &&& !may_download(start) ==> downloads(end.1) == 0
            &&& !may_notify(start) ==> notifications(end.1) == 0
            &&& may_download(end.0) ==> may_download(start) && downloads(end.1) == 0
            &&& may_notify(end.0) ==> may_notify(start) && notifications(end.1) == 0
            &&& end.1.len() == events.len()
        }),
    decreases events.len(),
{
    reveal(Seq::filter);
    if events.len() > 0 {
        lemma_at_most_one_download(anime, notify_enabled, history, start, events.drop_last());
        let before = run(anime, notify_enabled, history, start, events.drop_last());
        let last = step(anime, notify_enabled, history, before.0, events.last());
        before.1.lemma_filter_len_push(is_download(), last.1);
        before.1.lemma_filter_len_push(is_notify(), last.1);
    }
}

/// A selection that was handed its search results asks for exactly one
/// download where at least one result qualifies, and for none where none
/// does, whatever events follow: `min(n, 1)` downloads for `n` results that
/// qualify.
pub proof fn lemma_downloads_match_eligible(
    anime: AnimeView,
    notify_enabled: bool,
    history: Set<Seq<char>>,
    candidates: Seq<SearchResultView>,
    rest: Seq<SelectorEventView>,
)
    ensures
        ({
            let events = seq![
                SelectorEventView::Start,
                SelectorEventView::SearchCompleted(candidates),
            ] + rest;
            let n = count_eligible(candidates, anime, history);
            downloads(run(anime, notify_enabled, history, SelectorStateView::Idle, events).1)
                == min(n as int, 1)
        }),
{
    let opening = seq![SelectorEventView::Start, SelectorEventView::SearchCompleted(candidates)];
    lemma_opening(anime, notify_enabled, history, candidates);
    lemma_count_eligible(candidates, anime, history);
    lemma_first_eligible(candidates, anime, history);
    let head = run(anime, notify_enabled, history, SelectorStateView::Idle, opening);
    lemma_run_concat(anime, notify_enabled, history, SelectorStateView::Idle, opening, rest);
    lemma_at_most_one_download(anime, notify_enabled, history, head.0, rest);
    let tail = run(anime, notify_enabled, history, head.0, rest);
    Seq::filter_distributes_over_add(head.1, tail.1, is_download());
}

/// Where no result qualifies, the selection asks for no download and no
/// notification, whatever events follow, and ends with nothing selected. So
/// a second run over the same results, after the download of the first run
/// has entered the history and no other result qualifies, does nothing.
pub proof fn lemma_nothing_eligible_no_side_effect(
    anime: AnimeView,
    notify_enabled: bool,
    history: Set<Seq<char>>,
    candidates: Seq<SearchResultView>,
    rest: Seq<SelectorEventView>,
)
    requires
        none_eligible(candidates, anime, history),
    ensures
        ({
            let events = seq![
                SelectorEventView::Start,
                SelectorEventView::SearchCompleted(candidates),
            ] + rest;
            let end = run(anime, notify_enabled, history, SelectorStateView::Idle, events);
            &&& downloads(end.1) == 0
            &&& notifications(end.1) == 0
            &&& end.0 == SelectorStateView::Finished(Ok(SelectionOutcomeView::NothingSelected))
        }),
{
    let opening = seq![SelectorEventView::Start, SelectorEventView::SearchCompleted(candidates)];
    lemma_opening(anime, notify_enabled, history, candidates);
    lemma_first_eligible(candidates, anime, history);
    if first_eligible(candidates, anime, history) is Some {
        let at = first_eligible(candidates, anime, history)->0;
        assert(eligible(candidates[at], anime, history));
    }
    let head = run(anime, notify_enabled, history, SelectorStateView::Idle, opening);
    lemma_run_concat(anime, notify_enabled, history, SelectorStateView::Idle, opening, rest);
    lemma_at_most_one_download(anime, notify_enabled, history, head.0, rest);
    lemma_finished_stays(anime, notify_enabled, history, head.0, rest);
    let tail = run(anime, notify_enabled, history, head.0, rest);
    Seq::filter_distributes_over_add(head.1, tail.1, is_download());
    Seq::filter_distributes_over_add(head.1, tail.1, is_notify());
}

/// A selection that is over stays as it is.
pub proof fn lemma_finished_stays(
    anime: AnimeView,
    notify_enabled: bool,
    history: Set<Seq<char>>,
    start: SelectorStateView,
    events: Seq<SelectorEventView>,
)
    requires
        start is Finished,
    ensures
        run(anime, notify_enabled, history, start, events).0 == start,
        forall|i: int|
            0 <= i < events.len() ==> #[trigger] run(
                anime,
                notify_enabled,
                history,
                start,
                events,
            ).1[i] == SelectorActionView::Nothing,
    decreases events.len(),
{
    if events.len() > 0 {
        lemma_finished_stays(anime, notify_enabled, history, start, events.drop_last());
        lemma_at_most_one_download(anime, notify_enabled, history, start, events.drop_last());
    }
}

/// What the beginning and the search results lead to.
proof fn lemma_opening(
    anime: AnimeView,
    notify_enabled: bool,
    history: Set<Seq<char>>,
    candidates: Seq<SearchResultView>,
)
    ensures
        ({
            let opening = seq![
                SelectorEventView::Start,
                SelectorEventView::SearchCompleted(candidates),
            ];
            let found = step(
                anime,
                notify_enabled,
                history,
                SelectorStateView::Searching,
                SelectorEventView::SearchCompleted(candidates),
            );
            let head = run(anime, notify_enabled, history, SelectorStateView::Idle, opening);
            &&& head.0 == found.0
            &&& head.1 == seq![SelectorActionView::Search(anime.keywords), found.1]
            &&& downloads(head.1) == (if found.1 is Download {
                1nat
            } else {
                0nat
            })
            &&& notifications(head.1) == 0
        }),
{
    let opening = seq![SelectorEventView::Start, SelectorEventView::SearchCompleted(candidates)];
    let begin = seq![SelectorEventView::Start];
    assert(opening.drop_last() =~= begin);
    assert(begin.drop_last() =~= Seq::<SelectorEventView>::empty());
    reveal_with_fuel(run, 3);
    let found = step(
        anime,
        notify_enabled,
        history,
        SelectorStateView::Searching,
        SelectorEventView::SearchCompleted(candidates),
    );
    let head = run(anime, notify_enabled, history, SelectorStateView::Idle, opening);
    let search = SelectorActionView::Search(anime.keywords);
    assert(head.1 =~= seq![search, found.1]);
    let none = Seq::<SelectorActionView>::empty();
    assert(head.1 =~= none.push(search).push(found.1));
    reveal(Seq::filter);
    assert(none.filter(is_download()).len() == 0);
    assert(none.filter(is_notify()).len() == 0);
    none.lemma_filter_len_push(is_download(), search);
    none.lemma_filter_len_push(is_notify(), search);
    none.push(search).lemma_filter_len_push(is_download(), found.1);
    none.push(search).lemma_filter_len_push(is_notify(), found.1);
}

} // verus!
