//! The set of releases that were grabbed before.

use crate::model::{HistoryResult, HistoryResultView};
use vstd::prelude::*;
use vstd::seq_lib::seq_to_set_is_finite;

verus! {

/// The keys of the events in `records` that went through.
pub open spec fn successful_urls(records: Seq<HistoryResultView>) -> Set<Seq<char>> {
    Set::new(
        |url: Seq<char>|
            exists|i: int|
                0 <= i < records.len() && (#[trigger] records[i]).successful && records[i].url
                    == url,
    )
}

/// One more event adds its key where it went through, and nothing where it
/// failed.
pub proof fn lemma_successful_urls_push(records: Seq<HistoryResultView>, record: HistoryResultView)
    ensures
        successful_urls(records.push(record)) == if record.successful {
            successful_urls(records).insert(record.url)
        } else {
            successful_urls(records)
        },
{
    let more = records.push(record);
    let expected = if record.successful {
        successful_urls(records).insert(record.url)
    } else {
        successful_urls(records)
    };
    assert forall|url: Seq<char>| successful_urls(more).contains(url) implies expected.contains(
        url,
    ) by {
        let k = choose|k: int|
            0 <= k < more.len() && (#[trigger] more[k]).successful && more[k].url == url;
        if k < records.len() {
            assert(records[k] == more[k]);
        }
    }
    assert forall|url: Seq<char>| expected.contains(url) implies successful_urls(more).contains(
        url,
    ) by {
        if successful_urls(records).contains(url) {
            let k = choose|k: int|
                0 <= k < records.len() && (#[trigger] records[k]).successful && records[k].url
                    == url;
            assert(more[k] == records[k]);
        } else {
            assert(more[records.len() as int] == record);
        }
    }
    assert(successful_urls(more) =~= expected);
}

/// The keys of the releases that were grabbed with success. It is built once,
/// from the indexer's history, and only read afterwards.
#[derive(Debug)]
pub struct HistorySet {
    urls: Vec<String>,
}

impl View for HistorySet {
    type V = Set<Seq<char>>;

    closed spec fn view(&self) -> Set<Seq<char>> {
        self.urls.deep_view().to_set()
    }
}

impl HistorySet {
    /// No key is held twice.
    #[verifier::type_invariant]
    spec fn distinct(&self) -> bool {
        self.urls.deep_view().no_duplicates()
    }

    /// The set without any key.
    pub fn new() -> (set: HistorySet)
        ensures
            set@ == Set::<Seq<char>>::empty(),
    {
        let set = HistorySet { urls: Vec::new() };
        assert(set.urls.deep_view() =~= Seq::empty());
        assert(set@ =~= Set::empty());
        set
    }

    /// Collects the keys of the successful events of `records`; events that
    /// failed leave no trace.
    pub fn from_history(records: &Vec<HistoryResult>) -> (set: HistorySet)
        ensures
            set@ == successful_urls(records.deep_view()),
            set@.finite(),
    {
        let mut urls: Vec<String> = Vec::new();
        let mut i: usize = 0;
        assert(urls.deep_view().to_set() =~= successful_urls(records.deep_view().take(0)));
        while i < records.len()
            invariant
                i <= records.len(),
                urls.deep_view().no_duplicates(),
                urls.deep_view().to_set() == successful_urls(records.deep_view().take(i as int)),
            decreases records.len() - i,
        {
            let ghost held = urls.deep_view();
            let record = &records[i];
            proof {
                assert(records.deep_view().take(i + 1) =~= records.deep_view().take(
                    i as int,
                ).push(record@));
                lemma_successful_urls_push(records.deep_view().take(i as int), record@);
            }
            if record.successful && !holds(&urls, &record.data.url) {
                urls.push(record.data.url.clone());
                proof {
                    assert(urls.deep_view() =~= held.push(record.data.url@));
                    held.lemma_push_to_set_commute(record.data.url@);
                }
            } else if record.successful {
                assert(held.to_set().insert(record.data.url@) =~= held.to_set());
            }
            i += 1;
        }
        proof {
            assert(records.deep_view().take(records.len() as int) =~= records.deep_view());
            seq_to_set_is_finite(urls.deep_view());
        }
        HistorySet { urls }
    }

    /// Whether the release with key `guid` was grabbed before.
    pub fn contains(&self, guid: &str) -> (found: bool)
        ensures
            found == self@.contains(guid@),
    {
        let key = guid.to_owned();
        holds(&self.urls, &key)
    }

    /// The number of distinct keys.
    pub fn len(&self) -> (n: usize)
        ensures
            n == self@.len(),
            self@.finite(),
    {
        proof {
            use_type_invariant(self);
            self.urls.deep_view().unique_seq_to_set();
            seq_to_set_is_finite(self.urls.deep_view());
        }
        self.urls.len()
    }

    /// Whether no release was grabbed before.
    pub fn is_empty(&self) -> (empty: bool)
        ensures
            empty == (self@.len() == 0),
            empty == (self@ == Set::<Seq<char>>::empty()),
    {
        proof {
            use_type_invariant(self);
            self.urls.deep_view().unique_seq_to_set();
            if self.urls.len() == 0 {
                assert(self@ =~= Set::empty());
            }
        }
        self.urls.len() == 0
    }
}

/// Whether one of `urls` reads as `key` does.
fn holds(urls: &Vec<String>, key: &String) -> (found: bool)
    ensures
        found == urls.deep_view().to_set().contains(key@),
{
    let mut i: usize = 0;
    while i < urls.len()
        invariant
            i <= urls.len(),
            forall|j: int| 0 <= j < i ==> urls.deep_view()[j] != key@,
        decreases urls.len() - i,
    {
        assert(urls.deep_view()[i as int] == urls[i as int]@);
        if urls[i] == *key {
            return true;
        }
        i += 1;
    }
    false
}

} // verus!
