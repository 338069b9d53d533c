//! The selection for one wanted title, told as a machine that takes what
//! happened outside and answers with what to do next: search, download the
//! first result that qualifies, announce it, and stop.

use crate::history::HistorySet;
use crate::model::{Anime, AnimeView, SearchResult, SearchResultView};
use crate::selection::{first_eligible, select};
use vstd::prelude::*;
use vstd::string::StringExecFns;

verus! {

/// How the selection for one title ended when nothing went wrong.
#[derive(Debug, PartialEq, Eq)]
pub enum SelectionOutcome {
    /// No result qualified; nothing was downloaded and nobody was notified.
    NothingSelected,
    /// This result was downloaded and, where notifications are on, announced.
    Downloaded(SearchResult),
}

/// What a [`SelectionOutcome`] stands for in contracts.
pub enum SelectionOutcomeView {
    NothingSelected,
    Downloaded(SearchResultView),
}

impl View for SelectionOutcome {
    type V = SelectionOutcomeView;

    open spec fn view(&self) -> SelectionOutcomeView {
        match self {
            SelectionOutcome::NothingSelected => SelectionOutcomeView::NothingSelected,
            SelectionOutcome::Downloaded(c) => SelectionOutcomeView::Downloaded(c@),
        }
    }
}

impl Clone for SelectionOutcome {
    fn clone(&self) -> (copy: Self)
        ensures
            copy == *self,
    {
        match self {
            SelectionOutcome::NothingSelected => SelectionOutcome::NothingSelected,
            SelectionOutcome::Downloaded(c) => SelectionOutcome::Downloaded(c.clone()),
        }
    }
}

/// What stopped the selection for one title.
#[derive(Debug, PartialEq, Eq)]
pub enum SelectionError {
    /// The search did not come back with results.
    SearchFailed,
    /// The download of this result was refused. No other result is tried.
    DownloadFailed(SearchResult),
    /// This result was downloaded, but the notification did not go out. The
    /// download stands.
    NotifyFailed(SearchResult),
}

/// What a [`SelectionError`] stands for in contracts.
pub enum SelectionErrorView {
    SearchFailed,
    DownloadFailed(SearchResultView),
    NotifyFailed(SearchResultView),
}

impl View for SelectionError {
    type V = SelectionErrorView;

    open spec fn view(&self) -> SelectionErrorView {
        match self {
            SelectionError::SearchFailed => SelectionErrorView::SearchFailed,
            SelectionError::DownloadFailed(c) => SelectionErrorView::DownloadFailed(c@),
            SelectionError::NotifyFailed(c) => SelectionErrorView::NotifyFailed(c@),
        }
    }
}

impl Clone for SelectionError {
    fn clone(&self) -> (copy: Self)
        ensures
            copy == *self,
    {
        match self {
            SelectionError::SearchFailed => SelectionError::SearchFailed,
            SelectionError::DownloadFailed(c) => SelectionError::DownloadFailed(c.clone()),
            SelectionError::NotifyFailed(c) => SelectionError::NotifyFailed(c.clone()),
        }
    }
}

/// What the result of a selection stands for in contracts.
pub open spec fn result_view(result: Result<SelectionOutcome, SelectionError>) -> Result<
    SelectionOutcomeView,
    SelectionErrorView,
> {
    match result {
        Ok(outcome) => Ok(outcome@),
        Err(error) => Err(error@),
    }
}

/// A copy of a selection's result.
fn clone_result(result: &Result<SelectionOutcome, SelectionError>) -> (copy: Result<
    SelectionOutcome,
    SelectionError,
>)
    ensures
        copy == *result,
{
    match result {
        Ok(outcome) => Ok(outcome.clone()),
        Err(error) => Err(error.clone()),
    }
}

/// Where the selection for one title stands.
#[derive(Debug, PartialEq, Eq)]
pub enum SelectorState {
    /// Nothing was asked for yet.
    Idle,
    /// The search is under way.
    Searching,
    /// The download of this result is under way.
    Downloading(SearchResult),
    /// This result was downloaded and its notification is under way.
    Notifying(SearchResult),
    /// The selection is over, with this result.
    Finished(Result<SelectionOutcome, SelectionError>),
}

/// What a [`SelectorState`] stands for in contracts.
pub enum SelectorStateView {
    Idle,
    Searching,
    Downloading(SearchResultView),
    Notifying(SearchResultView),
    Finished(Result<SelectionOutcomeView, SelectionErrorView>),
}

impl View for SelectorState {
    type V = SelectorStateView;

    open spec fn view(&self) -> SelectorStateView {
        match self {
            SelectorState::Idle => SelectorStateView::Idle,
            SelectorState::Searching => SelectorStateView::Searching,
            SelectorState::Downloading(c) => SelectorStateView::Downloading(c@),
            SelectorState::Notifying(c) => SelectorStateView::Notifying(c@),
            SelectorState::Finished(result) => SelectorStateView::Finished(result_view(*result)),
        }
    }
}

impl DeepView for SelectorState {
    type V = SelectorStateView;

    open spec fn deep_view(&self) -> SelectorStateView {
        self@
    }
}

impl Clone for SelectorState {
    fn clone(&self) -> (copy: Self)
        ensures
            copy == *self,
    {
        match self {
            SelectorState::Idle => SelectorState::Idle,
            SelectorState::Searching => SelectorState::Searching,
            SelectorState::Downloading(c) => SelectorState::Downloading(c.clone()),
            SelectorState::Notifying(c) => SelectorState::Notifying(c.clone()),
            SelectorState::Finished(result) => SelectorState::Finished(clone_result(result)),
        }
    }
}

/// What happened outside, as the caller reports it.
#[derive(Debug, PartialEq, Eq)]
pub enum SelectorEvent {
    /// The selection is to begin.
    Start,
    /// The search came back with these results, best first.
    SearchCompleted(Vec<SearchResult>),
    /// The search failed.
    SearchFailed,
    /// The indexer accepted the download.
    DownloadCompleted,
    /// The indexer refused the download.
    DownloadFailed,
    /// The notification went out.
    NotifyCompleted,
    /// The notification did not go out.
    NotifyFailed,
}

/// What a [`SelectorEvent`] stands for in contracts.
pub enum SelectorEventView {
    Start,
    SearchCompleted(Seq<SearchResultView>),
    SearchFailed,
    DownloadCompleted,
    DownloadFailed,
    NotifyCompleted,
    NotifyFailed,
}

impl View for SelectorEvent {
    type V = SelectorEventView;

    open spec fn view(&self) -> SelectorEventView {
        match self {
            SelectorEvent::Start => SelectorEventView::Start,
            SelectorEvent::SearchCompleted(results) => SelectorEventView::SearchCompleted(
                results.deep_view(),
            ),
            SelectorEvent::SearchFailed => SelectorEventView::SearchFailed,
            SelectorEvent::DownloadCompleted => SelectorEventView::DownloadCompleted,
            SelectorEvent::DownloadFailed => SelectorEventView::DownloadFailed,
            SelectorEvent::NotifyCompleted => SelectorEventView::NotifyCompleted,
            SelectorEvent::NotifyFailed => SelectorEventView::NotifyFailed,
        }
    }
}

/// What the caller is to do next.
#[derive(Debug, PartialEq, Eq)]
pub enum SelectorAction {
    /// Search the indexer for these keywords.
    Search(String),
    /// Download the release with this key.
    Download(String),
    /// Send this message.
    Notify(String),
    /// The selection is over; its result is in the state.
    Finish,
    /// The event answered nothing that was asked; nothing changed.
    Nothing,
}

/// What a [`SelectorAction`] stands for in contracts.
pub enum SelectorActionView {
    Search(Seq<char>),
    Download(Seq<char>),
    Notify(Seq<char>),
    Finish,
    Nothing,
}

impl View for SelectorAction {
    type V = SelectorActionView;

    open spec fn view(&self) -> SelectorActionView {
        match self {
            SelectorAction::Search(keywords) => SelectorActionView::Search(keywords@),
            SelectorAction::Download(guid) => SelectorActionView::Download(guid@),
            SelectorAction::Notify(message) => SelectorActionView::Notify(message@),
            SelectorAction::Finish => SelectorActionView::Finish,
            SelectorAction::Nothing => SelectorActionView::Nothing,
        }
    }
}

impl DeepView for SelectorAction {
    type V = SelectorActionView;

    open spec fn deep_view(&self) -> SelectorActionView {
        self@
    }
}

/// The text that announces the download of the release named `title`.
pub open spec fn notification_text(title: Seq<char>) -> Seq<char> {
    "Downloading "@ + title
}

/// Writes the message that announces the download of the release named
/// `title`.
pub fn notification_message(title: &str) -> (message: String)
    ensures
        message@ == notification_text(title@),
{
    let mut message = String::from_str("Downloading ");
    message.append(title);
    message
}

/// One move of the selection: the state after `event`, and what the caller
/// is to do next.
///
/// The search is asked for once. Its results are scanned in their order and
/// the first that qualifies is downloaded; no other is tried, whatever
/// becomes of that download. A download that went through is announced where
/// notifications are on. An event that answers nothing that was asked leaves
/// the state as it is.
pub open spec fn step(
    anime: AnimeView,
    notify_enabled: bool,
    history: Set<Seq<char>>,
    state: SelectorStateView,
    event: SelectorEventView,
) -> (SelectorStateView, SelectorActionView) {
    match (state, event) {
        (SelectorStateView::Idle, SelectorEventView::Start) => (
            SelectorStateView::Searching,
            SelectorActionView::Search(anime.keywords),
        ),
        (SelectorStateView::Searching, SelectorEventView::SearchCompleted(candidates)) => {
            match first_eligible(candidates, anime, history) {
                Some(at) => (
                    SelectorStateView::Downloading(candidates[at]),
                    SelectorActionView::Download(candidates[at].guid),
                ),
                None => (
                    SelectorStateView::Finished(Ok(SelectionOutcomeView::NothingSelected)),
                    SelectorActionView::Finish,
                ),
            }
        },
        (SelectorStateView::Searching, SelectorEventView::SearchFailed) => (
            SelectorStateView::Finished(Err(SelectionErrorView::SearchFailed)),
            SelectorActionView::Finish,
        ),
        (SelectorStateView::Downloading(chosen), SelectorEventView::DownloadCompleted) => {
            if notify_enabled {
                (
                    SelectorStateView::Notifying(chosen),
                    SelectorActionView::Notify(notification_text(chosen.title)),
                )
            } else {
                (
                    SelectorStateView::Finished(Ok(SelectionOutcomeView::Downloaded(chosen))),
                    SelectorActionView::Finish,
                )
            }
        },
        (SelectorStateView::Downloading(chosen), SelectorEventView::DownloadFailed) => (
            SelectorStateView::Finished(Err(SelectionErrorView::DownloadFailed(chosen))),
            SelectorActionView::Finish,
        ),
        (SelectorStateView::Notifying(chosen), SelectorEventView::NotifyCompleted) => (
            SelectorStateView::Finished(Ok(SelectionOutcomeView::Downloaded(chosen))),
            SelectorActionView::Finish,
        ),
        (SelectorStateView::Notifying(chosen), SelectorEventView::NotifyFailed) => (
            SelectorStateView::Finished(Err(SelectionErrorView::NotifyFailed(chosen))),
            SelectorActionView::Finish,
        ),
        _ => (state, SelectorActionView::Nothing),
    }
}

/// Makes one move of the selection for `anime`: takes the state and what
/// happened, and gives the next state and what to do.
pub fn advance(
    anime: &Anime,
    notify_enabled: bool,
    history: &HistorySet,
    state: &SelectorState,
    event: SelectorEvent,
) -> (next: (SelectorState, SelectorAction))
    ensures
        (next.0@, next.1@) == step(anime@, notify_enabled, history@, state@, event@),
{
    match state {
        SelectorState::Idle => match event {
            SelectorEvent::Start => (
                SelectorState::Searching,
                SelectorAction::Search(anime.keywords.clone()),
            ),
            _ => (SelectorState::Idle, SelectorAction::Nothing),
        },
        SelectorState::Searching => match event {
            SelectorEvent::SearchCompleted(candidates) => match select(
                &candidates,
                anime,
                history,
            ) {
                Some(at) => {
                    let chosen = candidates[at].clone();
                    let guid = chosen.guid.clone();
                    assert(candidates.deep_view()[at as int] == chosen@);
                    (SelectorState::Downloading(chosen), SelectorAction::Download(guid))
                },
                None => (
                    SelectorState::Finished(Ok(SelectionOutcome::NothingSelected)),
                    SelectorAction::Finish,
                ),
            },
            SelectorEvent::SearchFailed => (
                SelectorState::Finished(Err(SelectionError::SearchFailed)),
                SelectorAction::Finish,
            ),
            _ => (SelectorState::Searching, SelectorAction::Nothing),
        },
        SelectorState::Downloading(chosen) => match event {
            SelectorEvent::DownloadCompleted => {
                if notify_enabled {
                    let message = notification_message(chosen.title.as_str());
                    (SelectorState::Notifying(chosen.clone()), SelectorAction::Notify(message))
                } else {
                    (
                        SelectorState::Finished(Ok(SelectionOutcome::Downloaded(chosen.clone()))),
                        SelectorAction::Finish,
                    )
                }
            },
            SelectorEvent::DownloadFailed => (
                SelectorState::Finished(Err(SelectionError::DownloadFailed(chosen.clone()))),
                SelectorAction::Finish,
            ),
            _ => (SelectorState::Downloading(chosen.clone()), SelectorAction::Nothing),
        },
        SelectorState::Notifying(chosen) => match event {
            SelectorEvent::NotifyCompleted => (
                SelectorState::Finished(Ok(SelectionOutcome::Downloaded(chosen.clone()))),
                SelectorAction::Finish,
            ),
            SelectorEvent::NotifyFailed => (
                SelectorState::Finished(Err(SelectionError::NotifyFailed(chosen.clone()))),
                SelectorAction::Finish,
            ),
            _ => (SelectorState::Notifying(chosen.clone()), SelectorAction::Nothing),
        },
        SelectorState::Finished(result) => (
            SelectorState::Finished(clone_result(result)),
            SelectorAction::Nothing,
        ),
    }
}

/// The selection for one wanted title. It keeps the title, whether
/// notifications are on, and where the selection stands.
#[derive(Debug)]
pub struct ItemSelector {
    anime: Anime,
    notify_enabled: bool,
    state: SelectorState,
}

/// What an [`ItemSelector`] stands for in contracts.
pub struct ItemSelectorView {
    pub anime: AnimeView,
    pub notify_enabled: bool,
    pub state: SelectorStateView,
}

impl View for ItemSelector {
    type V = ItemSelectorView;

    closed spec fn view(&self) -> ItemSelectorView {
        ItemSelectorView {
            anime: self.anime@,
            notify_enabled: self.notify_enabled,
            state: self.state@,
        }
    }
}

impl DeepView for ItemSelector {
    type V = ItemSelectorView;

    open spec fn deep_view(&self) -> ItemSelectorView {
        self@
    }
}

impl ItemSelector {
    /// A selection for `anime` that has not begun.
    pub fn new(anime: Anime, notify_enabled: bool) -> (selector: ItemSelector)
        ensures
            selector@ == (ItemSelectorView {
                anime: anime@,
                notify_enabled,
                state: SelectorStateView::Idle,
            }),
    {
        ItemSelector { anime, notify_enabled, state: SelectorState::Idle }
    }

    /// Takes what happened and answers with what to do next. The title and
    /// the notification switch stay as they are; the state moves as
    /// [`step`] says.
    pub fn step(&mut self, event: SelectorEvent, history: &HistorySet) -> (action: SelectorAction)
        ensures
            final(self)@.anime == old(self)@.anime,
            final(self)@.notify_enabled == old(self)@.notify_enabled,
            (final(self)@.state, action@) == step(
                old(self)@.anime,
                old(self)@.notify_enabled,
                history@,
                old(self)@.state,
                event@,
            ),
    {
        let (state, action) = advance(
            &self.anime,
            self.notify_enabled,
            history,
            &self.state,
            event,
        );
        self.state = state;
        action
    }

    /// Whether the selection is over.
    pub fn is_finished(&self) -> (finished: bool)
        ensures
            finished == (self@.state is Finished),
    {
        match self.state {
            SelectorState::Finished(_) => true,
            _ => false,
        }
    }

    /// The result of the selection, once it is over.
    pub fn result(&self) -> (result: Option<Result<SelectionOutcome, SelectionError>>)
        ensures
            match result {
                Some(r) => self@.state == SelectorStateView::Finished(result_view(r)),
                None => !(self@.state is Finished),
            },
    {
        match &self.state {
            SelectorState::Finished(result) => Some(clone_result(result)),
            _ => None,
        }
    }

    /// Where the selection stands.
    pub fn state(&self) -> (state: &SelectorState)
        ensures
            state@ == self@.state,
    {
        &self.state
    }

    /// The title that is selected for.
    pub fn anime(&self) -> (anime: &Anime)
        ensures
            anime@ == self@.anime,
    {
        &self.anime
    }
}

} // verus!
