//! One run over all wanted titles: the history is fetched once, then every
//! title is selected for on its own, and the run is over when all of them
//! are.
//!
//! A title whose search, download or notification fails is reported with that
//! failure and stops no other title. Only a history that cannot be fetched
//! ends the run as a whole, before any title is looked at. The run's status
//! is zero exactly when the history came and every title ended without a
//! failure.

use crate::endpoints::Config;
use crate::history::{successful_urls, HistorySet};
use crate::model::{Anime, AnimeView, HistoryResult};
use crate::selector::{
    result_view, step, ItemSelector, ItemSelectorView, SelectionError, SelectionErrorView,
    SelectionOutcome, SelectionOutcomeView, SelectorAction, SelectorActionView, SelectorEvent,
    SelectorEventView, SelectorStateView,
};
use crate::trace::{downloads, is_download, lemma_at_most_one_download, may_download, run};
use vstd::prelude::*;

verus! {

/// How far a run has come.
#[derive(Debug, Clone, Copy, PartialEq, Eq, Structural)]
pub enum RunPhase {
    /// The history has not arrived; no title is selected for yet.
    AwaitingHistory,
    /// The history is fixed and the titles are selected for.
    Running,
    /// The history could not be fetched; the run is over.
    Aborted,
}

/// What ends a run as a whole.
#[derive(Debug, Clone, Copy, PartialEq, Eq, Structural)]
pub enum RunError {
    /// The history could not be fetched, so nothing can be told apart from
    /// what was grabbed before.
    HistoryFetchFailed,
}

/// How each title ended, in the order in which the titles were given.
#[derive(Debug, PartialEq, Eq)]
pub struct RunReport {
    pub items: Vec<Result<SelectionOutcome, SelectionError>>,
}

/// What a [`RunReport`] stands for in contracts.
pub open spec fn report_view(report: RunReport) -> Seq<
    Result<SelectionOutcomeView, SelectionErrorView>,
> {
    Seq::new(report.items@.len(), |i: int| result_view(report.items@[i]))
}

/// What the end of a run stands for in contracts.
pub open spec fn outcome_view(outcome: Result<RunReport, RunError>) -> Result<
    Seq<Result<SelectionOutcomeView, SelectionErrorView>>,
    RunError,
> {
    match outcome {
        Ok(report) => Ok(report_view(report)),
        Err(error) => Err(error),
    }
}

/// The status that a process ends with after a run that ended so: zero when
/// the history came and no title failed, one otherwise.
pub open spec fn exit_status_of(
    outcome: Result<Seq<Result<SelectionOutcomeView, SelectionErrorView>>, RunError>,
) -> u8 {
    match outcome {
        Ok(items) => if all_ok(items) {
            0u8
        } else {
            1u8
        },
        Err(_) => 1u8,
    }
}

/// No title ended with a failure.
pub open spec fn all_ok(items: Seq<Result<SelectionOutcomeView, SelectionErrorView>>) -> bool {
    forall|i: int| 0 <= i < items.len() ==> (#[trigger] items[i]) is Ok
}

/// A run: the history, once it has arrived, and one selection for each
/// wanted title.
#[derive(Debug)]
pub struct Orchestrator {
    phase: RunPhase,
    history: HistorySet,
    selectors: Vec<ItemSelector>,
}

/// What an [`Orchestrator`] stands for in contracts.
pub struct OrchestratorView {
    pub phase: RunPhase,
    pub history: Set<Seq<char>>,
    pub selectors: Seq<ItemSelectorView>,
}

impl OrchestratorView {
    /// No selection has begun before the history is fixed, and the history is
    /// empty until it has arrived.
    pub open spec fn well_formed(self) -> bool {
        self.phase != RunPhase::Running ==> {
            &&& self.history == Set::<Seq<char>>::empty()
            &&& forall|i: int|
                0 <= i < self.selectors.len() ==> (#[trigger] self.selectors[i]).state
                    == SelectorStateView::Idle
        }
    }

    /// Every selection is over, or the run was given up: nothing is left to
    /// wait for.
    pub open spec fn complete(self) -> bool {
        match self.phase {
            RunPhase::AwaitingHistory => false,
            RunPhase::Running => forall|i: int|
                0 <= i < self.selectors.len() ==> (#[trigger] self.selectors[i]).state is Finished,
            RunPhase::Aborted => true,
        }
    }

    /// How the run ended, where it is over.
    pub open spec fn outcome(self) -> Result<
        Seq<Result<SelectionOutcomeView, SelectionErrorView>>,
        RunError,
    > {
        match self.phase {
            RunPhase::Aborted => Err(RunError::HistoryFetchFailed),
            _ => Ok(Seq::new(self.selectors.len(), |i: int| self.selectors[i].state->Finished_0)),
        }
    }
}

/// One move of a run: `event` is handed to the title at `index`, and the
/// answer is what to do for that title. No other title and nothing else of
/// the run changes. Before the history has arrived, after the run was given
/// up, and for an index beyond the titles, nothing changes at all.
pub open spec fn item_step(run: OrchestratorView, index: int, event: SelectorEventView) -> (
    OrchestratorView,
    SelectorActionView,
) {
    if run.phase == RunPhase::Running && 0 <= index < run.selectors.len() {
        let title = run.selectors[index];
        let moved = step(title.anime, title.notify_enabled, run.history, title.state, event);
        (
            OrchestratorView {
                selectors: run.selectors.update(
                    index,
                    ItemSelectorView { state: moved.0, ..title },
                ),
                ..run
            },
            moved.1,
        )
    } else {
        (run, SelectorActionView::Nothing)
    }
}

/// The run after `events`, each addressed to a title by its index, and the
/// answers, each with the index of the title that it is for.
pub open spec fn item_run(run: OrchestratorView, events: Seq<(int, SelectorEventView)>) -> (
    OrchestratorView,
    Seq<(int, SelectorActionView)>,
)
    decreases events.len(),
{
    if events.len() == 0 {
        (run, Seq::empty())
    } else {
        let before = item_run(run, events.drop_last());
        let last = item_step(before.0, events.last().0, events.last().1);
        (last.0, before.1.push((events.last().0, last.1)))
    }
}

/// The test that an addressed item is for the title at `index`.
pub open spec fn addressed_to<T>(index: int) -> spec_fn((int, T)) -> bool {
    |item: (int, T)| item.0 == index
}

/// What an addressed item carries.
pub open spec fn carried<T>() -> spec_fn((int, T)) -> T {
    |item: (int, T)| item.1
}

/// Those of `items` that are for the title at `index`, in their order and
/// without the address.
pub open spec fn own<T>(items: Seq<(int, T)>, index: int) -> Seq<T> {
    items.filter(addressed_to(index)).map_values(carried())
}

impl View for Orchestrator {
    type V = OrchestratorView;

    closed spec fn view(&self) -> OrchestratorView {
        OrchestratorView {
            phase: self.phase,
            history: self.history@,
            selectors: self.selectors.deep_view(),
        }
    }
}

impl Orchestrator {
    #[verifier::type_invariant]
    spec fn valid(&self) -> bool {
        self@.well_formed()
    }

    /// A run over `animes` that waits for the history. Notifications are
    /// sent for every title or for none.
    pub fn new(animes: &Vec<Anime>, notify_enabled: bool) -> (run: Orchestrator)
        ensures
            run@.well_formed(),
            run@.phase == RunPhase::AwaitingHistory,
            run@.history == Set::<Seq<char>>::empty(),
            run@.selectors.len() == animes.len(),
            forall|i: int|
                0 <= i < animes.len() ==> #[trigger] run@.selectors[i] == (ItemSelectorView {
                    anime: animes[i]@,
                    notify_enabled,
                    state: SelectorStateView::Idle,
                }),
    {
        let mut selectors: Vec<ItemSelector> = Vec::new();
        let mut i: usize = 0;
        while i < animes.len()
            invariant
                i <= animes.len(),
                selectors.len() == i,
                forall|j: int|
                    0 <= j < i ==> #[trigger] selectors.deep_view()[j] == (ItemSelectorView {
                        anime: animes[j]@,
                        notify_enabled,
                        state: SelectorStateView::Idle,
                    }),
            decreases animes.len() - i,
        {
            let ghost before = selectors.deep_view();
            let selector = ItemSelector::new(animes[i].clone(), notify_enabled);
            selectors.push(selector);
            assert(selectors.deep_view() =~= before.push(selector@));
            i += 1;
        }
        Orchestrator { phase: RunPhase::AwaitingHistory, history: HistorySet::new(), selectors }
    }

    /// A run over the titles of `config` that waits for the history, with
    /// notifications as `config` switches them.
    pub fn from_config(config: &Config) -> (run: Orchestrator)
        ensures
            run@.well_formed(),
            run@.phase == RunPhase::AwaitingHistory,
            run@.history == Set::<Seq<char>>::empty(),
            run@.selectors.len() == config.animes.len(),
            forall|i: int|
                0 <= i < config.animes.len() ==> #[trigger] run@.selectors[i] == (ItemSelectorView {
                    anime: config.animes[i]@,
                    notify_enabled: config.ntfy.enable,
                    state: SelectorStateView::Idle,
                }),
    {
        Orchestrator::new(&config.animes, config.ntfy.enable)
    }

    /// Takes the history as it was fetched, fixes the set of what was grabbed
    /// before, and begins every selection: the answer holds, for each title in
    /// turn, the search to make. Where the history was taken or given up
    /// before, nothing changes and the answer is empty.
    pub fn history_fetched(&mut self, records: &Vec<HistoryResult>) -> (actions: Vec<
        SelectorAction,
    >)
        ensures
            final(self)@.well_formed(),
            final(self)@.selectors.len() == old(self)@.selectors.len(),
            old(self)@.phase == RunPhase::AwaitingHistory ==> {
                &&& final(self)@.phase == RunPhase::Running
                &&& final(self)@.history == successful_urls(records.deep_view())
                &&& actions.len() == old(self)@.selectors.len()
                &&& forall|i: int|
                    0 <= i < actions.len() ==> #[trigger] final(self)@.selectors[i] == (
                    ItemSelectorView {
                        state: SelectorStateView::Searching,
                        ..old(self)@.selectors[i]
                    })
                &&& forall|i: int|
                    0 <= i < actions.len() ==> (#[trigger] actions[i])@
                        == SelectorActionView::Search(old(self)@.selectors[i].anime.keywords)
            },
            old(self)@.phase != RunPhase::AwaitingHistory ==> {
                &&& final(self)@ == old(self)@
                &&& actions.len() == 0
            },
    {
        proof {
            use_type_invariant(&*self);
        }
        let mut actions: Vec<SelectorAction> = Vec::new();
        if self.phase != RunPhase::AwaitingHistory {
            return actions;
        }
        self.phase = RunPhase::Running;
        self.history = HistorySet::from_history(records);
        let mut i: usize = 0;
        while i < self.selectors.len()
            invariant
                i <= self.selectors.len(),
                actions.len() == i,
                self.phase == RunPhase::Running,
                self.history@ == successful_urls(records.deep_view()),
                self.selectors.len() == old(self).selectors.len(),
                forall|j: int|
                    i <= j < self.selectors.len() ==> #[trigger] self.selectors.deep_view()[j]
                        == old(self).selectors.deep_view()[j],
                forall|j: int|
                    #![trigger old(self).selectors.deep_view()[j]]
                    0 <= j < self.selectors.len() ==> old(self).selectors.deep_view()[j].state
                        == SelectorStateView::Idle,
                forall|j: int|
                    0 <= j < i ==> #[trigger] self.selectors.deep_view()[j] == (ItemSelectorView {
                        state: SelectorStateView::Searching,
                        ..old(self).selectors.deep_view()[j]
                    }),
                forall|j: int|
                    0 <= j < i ==> (#[trigger] actions[j])@ == SelectorActionView::Search(
                        old(self).selectors.deep_view()[j].anime.keywords,
                    ),
            decreases self.selectors.len() - i,
        {
            let ghost before = self.selectors.deep_view();
            let action = self.selectors[i].step(SelectorEvent::Start, &self.history);
            assert(forall|j: int|
                0 <= j < self.selectors.len() && j != i ==> #[trigger] self.selectors.deep_view()[j]
                    == before[j]);
            assert(self.selectors.deep_view()[i as int] == self.selectors[i as int]@);
            assert(before[i as int] == old(self).selectors.deep_view()[i as int]);
            actions.push(action);
            i += 1;
        }
        actions
    }

    /// Takes note that the history could not be fetched: the run is over, and
    /// no title is selected for. Where the history was taken before, nothing
    /// changes.
    pub fn history_failed(&mut self)
        ensures
            final(self)@.well_formed(),
            final(self)@.history == old(self)@.history,
            final(self)@.selectors == old(self)@.selectors,
            final(self)@.phase == (match old(self)@.phase {
                RunPhase::AwaitingHistory => RunPhase::Aborted,
                phase => phase,
            }),
    {
        proof {
            use_type_invariant(&*self);
        }
        if self.phase == RunPhase::AwaitingHistory {
            self.phase = RunPhase::Aborted;
        }
    }

    /// Hands `event` to the selection of the title at `index` and answers
    /// with what to do for that title. The other titles and the history stay
    /// as they are, whatever the event. Before the history has arrived, after
    /// the run was given up, or for an index beyond the titles, nothing
    /// changes and nothing is to be done.
    pub fn item_event(&mut self, index: usize, event: SelectorEvent) -> (action: SelectorAction)
        ensures
            (final(self)@, action@) == item_step(old(self)@, index as int, event@),
            final(self)@.well_formed(),
            final(self)@.phase == old(self)@.phase,
            final(self)@.history == old(self)@.history,
            final(self)@.selectors.len() == old(self)@.selectors.len(),
            forall|j: int|
                #![trigger final(self)@.selectors[j]]
                0 <= j < old(self)@.selectors.len() && j != index ==> final(self)@.selectors[j]
                    == old(self)@.selectors[j],
    {
        proof {
            use_type_invariant(&*self);
        }
        if self.phase == RunPhase::Running && index < self.selectors.len() {
            let ghost before = self.selectors.deep_view();
            let action = self.selectors[index].step(event, &self.history);
            assert(forall|j: int|
                0 <= j < self.selectors.len() && j != index
                    ==> #[trigger] self.selectors.deep_view()[j] == before[j]);
            assert(self.selectors.deep_view()[index as int] == self.selectors[index as int]@);
            assert(self@.selectors =~= item_step(old(self)@, index as int, event@).0.selectors);
            action
        } else {
            assert(self@ =~= old(self)@);
            SelectorAction::Nothing
        }
    }

    /// How far the run has come.
    pub fn phase(&self) -> (phase: RunPhase)
        ensures
            phase == self@.phase,
    {
        self.phase
    }

    /// The number of wanted titles.
    pub fn len(&self) -> (n: usize)
        ensures
            n == self@.selectors.len(),
    {
        self.selectors.len()
    }

    /// The set of what was grabbed before; empty until the history arrives.
    pub fn history(&self) -> (history: &HistorySet)
        ensures
            history@ == self@.history,
    {
        &self.history
    }

    /// Whether nothing is left to wait for: the run was given up, or every
    /// selection is over.
    pub fn is_complete(&self) -> (complete: bool)
        ensures
            complete == self@.complete(),
    {
        match self.phase {
            RunPhase::AwaitingHistory => false,
            RunPhase::Aborted => true,
            RunPhase::Running => all_finished(&self.selectors),
        }
    }

    /// How the run ended: `None` while something is still waited for; the
    /// failure to fetch the history where the run was given up; else how each
    /// title ended, in the order of the titles.
    pub fn report(&self) -> (report: Option<Result<RunReport, RunError>>)
        ensures
            report is Some <==> self@.complete(),
            report matches Some(outcome) ==> outcome_view(outcome) == self@.outcome(),
    {
        match self.phase {
            RunPhase::AwaitingHistory => None,
            RunPhase::Aborted => Some(Err(RunError::HistoryFetchFailed)),
            RunPhase::Running => match collect_results(&self.selectors) {
                Some(items) => {
                    let report = RunReport { items };
                    assert(report_view(report) =~= self@.outcome()->Ok_0);
                    Some(Ok(report))
                },
                None => None,
            },
        }
    }
}

impl RunReport {
    /// Whether every title ended without a failure.
    pub fn is_success(&self) -> (success: bool)
        ensures
            success == all_ok(report_view(*self)),
    {
        let mut i: usize = 0;
        while i < self.items.len()
            invariant
                i <= self.items.len(),
                forall|j: int| 0 <= j < i ==> (#[trigger] self.items[j]) is Ok,
            decreases self.items.len() - i,
        {
            if self.items[i].is_err() {
                assert(!(report_view(*self)[i as int] is Ok));
                return false;
            }
            i += 1;
        }
        assert forall|j: int| 0 <= j < report_view(*self).len() implies (#[trigger] report_view(
            *self,
        )[j]) is Ok by {
            assert(self.items[j] is Ok);
        }
        true
    }
}

/// Whether every selection is over.
fn all_finished(selectors: &Vec<ItemSelector>) -> (finished: bool)
    ensures
        finished == forall|i: int|
            0 <= i < selectors.len() ==> (#[trigger] selectors.deep_view()[i]).state is Finished,
{
    let mut i: usize = 0;
    while i < selectors.len()
        invariant
            i <= selectors.len(),
            forall|j: int| 0 <= j < i ==> (#[trigger] selectors.deep_view()[j]).state is Finished,
        decreases selectors.len() - i,
    {
        if !selectors[i].is_finished() {
            assert(!(selectors.deep_view()[i as int].state is Finished));
            return false;
        }
        i += 1;
    }
    true
}

/// The results of the selections in their order, where all are over.
fn collect_results(selectors: &Vec<ItemSelector>) -> (results: Option<
    Vec<Result<SelectionOutcome, SelectionError>>,
>)
    ensures
        results is Some <==> forall|i: int|
            0 <= i < selectors.len() ==> (#[trigger] selectors.deep_view()[i]).state is Finished,
        results matches Some(items) ==> {
            &&& items.len() == selectors.len()
            &&& forall|i: int|
                0 <= i < items.len() ==> (#[trigger] selectors.deep_view()[i]).state
                    == SelectorStateView::Finished(result_view(items[i]))
        },
{
    let mut items: Vec<Result<SelectionOutcome, SelectionError>> = Vec::new();
    let mut i: usize = 0;
    while i < selectors.len()
        invariant
            i <= selectors.len(),
            items.len() == i,
            forall|j: int|
                0 <= j < i ==> (#[trigger] selectors.deep_view()[j]).state
                    == SelectorStateView::Finished(result_view(items[j])),
        decreases selectors.len() - i,
    {
        match selectors[i].result() {
            Some(result) => {
                items.push(result);
            },
            None => {
                assert(!(selectors.deep_view()[i as int].state is Finished));
                return None;
            },
        }
        i += 1;
    }
    Some(items)
}

/// The status that a process ends with after a run that ended as `outcome`
/// says: zero when the history came and no title failed, one otherwise.
pub fn exit_status(outcome: &Result<RunReport, RunError>) -> (status: u8)
    ensures
        status == exit_status_of(outcome_view(*outcome)),
        status == 0 <==> (outcome matches Ok(report) && all_ok(report_view(*report))),
{
    match outcome {
        Err(_) => 1,
        Ok(report) => if report.is_success() {
            0
        } else {
            1
        },
    }
}

/// The titles of a run do not touch each other: after any events, in any
/// order and for whichever titles, a title stands where its own events alone
/// would have brought it, and was answered as it would have been alone. The
/// history and the phase of the run stay as they were.
pub proof fn lemma_titles_are_independent(
    start: OrchestratorView,
    events: Seq<(int, SelectorEventView)>,
    index: int,
)
    requires
        start.phase == RunPhase::Running,
        0 <= index < start.selectors.len(),
    ensures
        ({
            let end = item_run(start, events);
            let title = start.selectors[index];
            let alone = run(
                title.anime,
                title.notify_enabled,
                start.history,
                title.state,
                own(events, index),
            );
            &&& end.0.phase == start.phase
            &&& end.0.history == start.history
            &&& end.0.selectors.len() == start.selectors.len()
            &&& end.0.selectors[index] == (ItemSelectorView { state: alone.0, ..title })
            &&& own(end.1, index) == alone.1
        }),
    decreases events.len(),
{
    let title = start.selectors[index];
    if events.len() == 0 {
        reveal(Seq::filter);
        assert(own(events, index) =~= Seq::<SelectorEventView>::empty());
        assert(own(item_run(start, events).1, index) =~= Seq::<SelectorActionView>::empty());
    } else {
        let earlier = events.drop_last();
        let (to, event) = events.last();
        lemma_titles_are_independent(start, earlier, index);
        let before = item_run(start, earlier);
        let last = item_step(before.0, to, event);
        assert(events =~= earlier.push((to, event)));
        earlier.lemma_filter_push((to, event), addressed_to(index));
        before.1.lemma_filter_push((to, last.1), addressed_to(index));
        if to == index {
            let mine = own(earlier, index);
            earlier.filter(addressed_to(index)).lemma_push_map_commute(carried(), (to, event));
            before.1.filter(addressed_to(index)).lemma_push_map_commute(carried(), (to, last.1));
            assert(own(events, index) =~= mine.push(event));
            assert(mine.push(event).drop_last() =~= mine);
            assert(own(item_run(start, events).1, index) =~= own(before.1, index).push(last.1));
        } else {
            assert(own(events, index) =~= own(earlier, index));
            assert(own(item_run(start, events).1, index) =~= own(before.1, index));
        }
    }
}

/// Where the titles are not selected for, or there is no title at `index`,
/// events addressed to `index` are answered with nothing, and the run keeps
/// its phase and the number of its titles.
proof fn lemma_nothing_for_no_title(
    start: OrchestratorView,
    events: Seq<(int, SelectorEventView)>,
    index: int,
)
    requires
        !(start.phase == RunPhase::Running && 0 <= index < start.selectors.len()),
    ensures
        downloads(own(item_run(start, events).1, index)) == 0,
        item_run(start, events).0.phase == start.phase,
        item_run(start, events).0.selectors.len() == start.selectors.len(),
    decreases events.len(),
{
    reveal(Seq::filter);
    if events.len() > 0 {
        let earlier = events.drop_last();
        let (to, event) = events.last();
        lemma_nothing_for_no_title(start, earlier, index);
        let before = item_run(start, earlier);
        let last = item_step(before.0, to, event);
        before.1.lemma_filter_push((to, last.1), addressed_to(index));
        if to == index {
            let mine = before.1.filter(addressed_to(index));
            mine.lemma_push_map_commute(carried(), (to, last.1));
            assert(own(item_run(start, events).1, index) =~= own(before.1, index).push(last.1));
            own(before.1, index).lemma_filter_len_push(is_download(), last.1);
        }
    }
}

/// In a run, whatever its state and however the events of the titles fall:
/// no title is asked to download more than once, and a title whose download
/// was asked for before is not asked again.
pub proof fn lemma_one_download_per_title(
    start: OrchestratorView,
    events: Seq<(int, SelectorEventView)>,
    index: int,
)
    ensures
        downloads(own(item_run(start, events).1, index)) <= 1,
        0 <= index < start.selectors.len() && !may_download(start.selectors[index].state)
            ==> downloads(own(item_run(start, events).1, index)) == 0,
{
    if start.phase == RunPhase::Running && 0 <= index < start.selectors.len() {
        let title = start.selectors[index];
        lemma_titles_are_independent(start, events, index);
        lemma_at_most_one_download(
            title.anime,
            title.notify_enabled,
            start.history,
            title.state,
            own(events, index),
        );
    } else {
        lemma_nothing_for_no_title(start, events, index);
    }
}

/// A run that is over stays as it is: whatever is reported for whichever
/// title afterwards changes nothing and is answered with nothing, so the
/// report of the run is final.
pub proof fn lemma_complete_run_stays(
    start: OrchestratorView,
    events: Seq<(int, SelectorEventView)>,
)
    requires
        start.complete(),
    ensures
        item_run(start, events).0 == start,
        forall|k: int|
            0 <= k < events.len() ==> (#[trigger] item_run(start, events).1[k]).1
                == SelectorActionView::Nothing,
        item_run(start, events).1.len() == events.len(),
    decreases events.len(),
{
    if events.len() > 0 {
        let (to, event) = events.last();
        lemma_complete_run_stays(start, events.drop_last());
        if start.phase == RunPhase::Running && 0 <= to < start.selectors.len() {
            assert(start.selectors[to].state is Finished);
            assert(item_step(start, to, event).0.selectors =~= start.selectors);
        }
    }
}

} // verus!
