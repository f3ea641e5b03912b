//! The detail catalog: a keyed collection of per-category structured
//! values, loaded once from an embedded JSON dataset.

use vstd::prelude::*;
use serde_json::Value;
use crate::error::LoadError;
use crate::json::{clone_value, entries_of, json_of, parse_json, value_entries};
use crate::num::{parse_dec, parse_i64};

verus! {

/// The content of a list of keyed detail pairs.
pub open spec fn details_view(s: Seq<(i64, Value)>) -> Seq<(int, Value)> {
    s.map_values(|p: (i64, Value)| (p.0 as int, p.1))
}

/// The mapping a list of keyed detail pairs holds: each key is sent to the
/// value of its first pair (the catalog only ever holds pairwise distinct
/// keys, so no later pair is ever shadowed).
pub open spec fn pairs_map(s: Seq<(int, Value)>) -> Map<int, Value>
    decreases s.len(),
{
    if s.len() == 0 {
        Map::empty()
    } else {
        pairs_map(s.skip(1)).insert(s[0].0, s[0].1)
    }
}

/// Whether some pair in `s` has key `k`.
pub open spec fn has_key(s: Seq<(int, Value)>, k: int) -> bool {
    exists|i: int| 0 <= i < s.len() && s[i].0 == k
}

/// Keys are pairwise distinct.
pub open spec fn unique_keys(s: Seq<(int, Value)>) -> bool {
    forall|i: int, j: int| 0 <= i < j < s.len() ==> s[i].0 != s[j].0
}

/// A key of `pairs_map(s)` is exactly a key of some pair of `s`.
pub proof fn lemma_pairs_map_dom(s: Seq<(int, Value)>)
    ensures
        forall|k: int| #[trigger] pairs_map(s).dom().contains(k) <==> has_key(s, k),
    decreases s.len(),
{
    if s.len() > 0 {
        let rest = s.skip(1);
        lemma_pairs_map_dom(rest);
        assert forall|k: int| has_key(s, k) implies #[trigger] pairs_map(s).dom().contains(k) by {
            let i = choose|i: int| 0 <= i < s.len() && s[i].0 == k;
            if i > 0 {
                assert(rest[i - 1] == s[i]);
                assert(has_key(rest, k));
                assert(pairs_map(rest).dom().contains(k));
            }
        }
        assert forall|k: int| #[trigger] pairs_map(s).dom().contains(k) implies has_key(s, k) by {
            if k == s[0].0 {
                assert(s[0].0 == k);
            } else {
                assert(pairs_map(rest).dom().contains(k));
                assert(has_key(rest, k));
                let i = choose|i: int| 0 <= i < rest.len() && rest[i].0 == k;
                assert(s[i + 1] == rest[i]);
            }
        }
    }
}

/// Pairs before `i` do not carry `k`, so the mapping agrees with the
/// mapping of the tail from `i` on key `k`.
proof fn lemma_pairs_map_skip(s: Seq<(int, Value)>, i: int, k: int)
    requires
        0 <= i <= s.len(),
        forall|j: int| 0 <= j < i ==> s[j].0 != k,
    ensures
        pairs_map(s).dom().contains(k) <==> pairs_map(s.skip(i)).dom().contains(k),
        pairs_map(s).dom().contains(k) ==> pairs_map(s)[k] == pairs_map(s.skip(i))[k],
    decreases i,
{
    if i > 0 {
        let rest = s.skip(1);
        assert(forall|j: int| 0 <= j < i - 1 ==> #[trigger] rest[j].0 == s[j + 1].0);
        lemma_pairs_map_skip(rest, i - 1, k);
        assert(rest.skip(i - 1) =~= s.skip(i));
    } else {
        assert(s.skip(0) =~= s);
    }
}

/// The first pair carrying a key gives the mapping's value at that key.
pub proof fn lemma_pairs_map_at(s: Seq<(int, Value)>, i: int)
    requires
        0 <= i < s.len(),
        forall|j: int| 0 <= j < i ==> s[j].0 != s[i].0,
    ensures
        pairs_map(s).dom().contains(s[i].0),
        pairs_map(s)[s[i].0] == s[i].1,
{
    lemma_pairs_map_skip(s, i, s[i].0);
    assert(s.skip(i)[0] == s[i]);
}

/// The keyed details a sequence of object entries denotes: each key must
/// be the canonical decimal form of an id.
pub open spec fn detail_models_of(es: Seq<(Seq<char>, Value)>) -> Option<Seq<(int, Value)>>
    decreases es.len(),
{
    if es.len() == 0 {
        Some(Seq::empty())
    } else {
        match (detail_models_of(es.drop_last()), parse_dec(es.last().0)) {
            (Some(front), Some(k)) => Some(front.push((k as int, es.last().1))),
            _ => None,
        }
    }
}

/// The catalog content a detail dataset text denotes: its keyed pairs when
/// the text is a JSON object whose keys are canonical decimal ids, pairwise
/// distinct, and the error it is rejected with otherwise.
pub open spec fn details_load_model(text: Seq<char>) -> Result<Seq<(int, Value)>, LoadError> {
    match json_of(text) {
        Some(doc) => match entries_of(doc) {
            Some(es) => match detail_models_of(es) {
                Some(pairs) => if unique_keys(pairs) {
                    Ok(pairs)
                } else {
                    Err(LoadError::DuplicateId)
                },
                None => Err(LoadError::Malformed),
            },
            None => Err(LoadError::Malformed),
        },
        None => Err(LoadError::Malformed),
    }
}

proof fn lemma_detail_models_of_index(es: Seq<(Seq<char>, Value)>, i: int)
    requires
        0 <= i < es.len(),
        detail_models_of(es) is Some,
    ensures
        parse_dec(es[i].0) is Some,
    decreases es.len(),
{
    if i < es.len() - 1 {
        lemma_detail_models_of_index(es.drop_last(), i);
    }
}

/// The embedded detail dataset: an object from id (in decimal form) to an
/// arbitrary structured value.
pub open spec fn detail_dataset_text() -> Seq<char> {
    "{\"2\": {\"description\": \"bat-and-ball games\", \"clues_count\": 5}, \"3\": {\"description\": \"hoop games\", \"clues_count\": 5}, \"4\": {\"description\": \"combat sports\", \"clues_count\": 5}, \"5\": {\"description\": \"riding events\", \"clues_count\": 5}, \"6\": {\"description\": \"club-and-ball games\", \"clues_count\": 5}, \"7\": {\"description\": \"racket games\", \"clues_count\": 5}}"@
}

/// The embedded detail dataset as text.
pub fn detail_dataset() -> (r: &'static str)
    ensures
        r@ == detail_dataset_text(),
{
    "{\"2\": {\"description\": \"bat-and-ball games\", \"clues_count\": 5}, \"3\": {\"description\": \"hoop games\", \"clues_count\": 5}, \"4\": {\"description\": \"combat sports\", \"clues_count\": 5}, \"5\": {\"description\": \"riding events\", \"clues_count\": 5}, \"6\": {\"description\": \"club-and-ball games\", \"clues_count\": 5}, \"7\": {\"description\": \"racket games\", \"clues_count\": 5}}"
}

/// The keyed catalog of detail records. Immutable once loaded: every
/// query hands out copies, never views into the snapshot.
pub struct CategoryDetails {
    details: Vec<(i64, Value)>,
}

impl View for CategoryDetails {
    type V = Seq<(int, Value)>;

    closed spec fn view(&self) -> Seq<(int, Value)> {
        details_view(self.details@)
    }
}

impl CategoryDetails {
    /// The mapping this catalog holds.
    pub open spec fn as_map(&self) -> Map<int, Value> {
        pairs_map(self@)
    }

    /// Loads the embedded detail dataset.
    pub fn new() -> (r: Result<CategoryDetails, LoadError>)
        ensures
            match r {
                Ok(d) => details_load_model(detail_dataset_text()) == Ok::<
                    Seq<(int, Value)>,
                    LoadError,
                >(d@) && unique_keys(d@),
                Err(e) => details_load_model(detail_dataset_text()) == Err::<
                    Seq<(int, Value)>,
                    LoadError,
                >(e),
            },
    {
        Self::load_from(detail_dataset())
    }

    /// Parses a detail dataset: a JSON object whose keys are ids in
    /// canonical decimal form, pairwise distinct.
    pub fn load_from(text: &str) -> (r: Result<CategoryDetails, LoadError>)
        ensures
            match r {
                Ok(d) => details_load_model(text@) == Ok::<Seq<(int, Value)>, LoadError>(d@)
                    && unique_keys(d@),
                Err(e) => details_load_model(text@) == Err::<Seq<(int, Value)>, LoadError>(e),
            },
    {
        let doc = match parse_json(text) {
            Some(d) => d,
            None => {
                return Err(LoadError::Malformed);
            },
        };
        let es = match value_entries(&doc) {
            Some(e) => e,
            None => {
                return Err(LoadError::Malformed);
            },
        };
        let ghost evs = es@.map_values(|p: (String, Value)| (p.0@, p.1));
        let mut pairs: Vec<(i64, Value)> = Vec::new();
        let mut i: usize = 0;
        while i < es.len()
            invariant
                i <= es.len(),
                json_of(text@) == Some(doc),
                entries_of(doc) == Some(evs),
                evs == es@.map_values(|p: (String, Value)| (p.0@, p.1)),
                detail_models_of(evs.subrange(0, i as int)) == Some(details_view(pairs@)),
            decreases es.len() - i,
        {
            proof {
                assert(evs[i as int] == (es@[i as int].0@, es@[i as int].1));
            }
            let k = match parse_i64(es[i].0.as_str()) {
                Some(k) => k,
                None => {
                    proof {
                        if detail_models_of(evs) is Some {
                            lemma_detail_models_of_index(evs, i as int);
                        }
                    }
                    return Err(LoadError::Malformed);
                },
            };
            let ghost prev = pairs@;
            let v = clone_value(&es[i].1);
            pairs.push((k, v));
            proof {
                let pre = evs.subrange(0, i as int);
                let ext = evs.subrange(0, i + 1);
                assert(ext.drop_last() =~= pre);
                assert(ext.last() == evs[i as int]);
                assert(pairs@ == prev.push((k, v)));
                assert(details_view(pairs@) =~= details_view(prev).push((k as int, v)));
                assert(detail_models_of(ext) == Some(details_view(pairs@)));
            }
            i = i + 1;
        }
        proof {
            assert(evs.subrange(0, evs.len() as int) =~= evs);
        }
        if Self::keys_unique(&pairs) {
            Ok(CategoryDetails { details: pairs })
        } else {
            Err(LoadError::DuplicateId)
        }
    }

    /// Whether the keys of `pairs` are pairwise distinct.
    fn keys_unique(pairs: &Vec<(i64, Value)>) -> (r: bool)
        ensures
            r == unique_keys(details_view(pairs@)),
    {
        let mut i: usize = 0;
        while i < pairs.len()
            invariant
                i <= pairs.len(),
                forall|a: int, b: int| 0 <= a < b < i ==> pairs@[a].0 != pairs@[b].0,
            decreases pairs.len() - i,
        {
            let mut j: usize = 0;
            while j < i
                invariant
                    j <= i < pairs.len(),
                    forall|a: int, b: int| 0 <= a < b < i ==> pairs@[a].0 != pairs@[b].0,
                    forall|a: int| 0 <= a < j ==> pairs@[a].0 != pairs@[i as int].0,
                decreases i - j,
            {
                if pairs[j].0 == pairs[i].0 {
                    proof {
                        assert(details_view(pairs@)[j as int].0 == details_view(
                            pairs@,
                        )[i as int].0);
                    }
                    return false;
                }
                j = j + 1;
            }
            i = i + 1;
        }
        true
    }

    /// The number of detail records.
    pub fn total(&self) -> (r: usize)
        ensures
            r == self@.len(),
    {
        self.details.len()
    }

    /// The keys, in catalog order.
    pub fn keys(&self) -> (r: Vec<i64>)
        ensures
            r@.len() == self@.len(),
            forall|i: int| 0 <= i < r@.len() ==> r@[i] as int == self@[i].0,
    {
        let mut out: Vec<i64> = Vec::new();
        let mut i: usize = 0;
        while i < self.details.len()
            invariant
                i <= self.details@.len(),
                self@.len() == self.details@.len(),
                out@.len() == i,
                forall|j: int| 0 <= j < i ==> out@[j] as int == self@[j].0,
            decreases self.details.len() - i,
        {
            out.push(self.details[i].0);
            i = i + 1;
        }
        out
    }

    /// A copy of the full mapping, as keyed pairs in catalog order.
    pub fn get_details(&self) -> (r: Vec<(i64, Value)>)
        ensures
            details_view(r@) == self@,
    {
        let mut out: Vec<(i64, Value)> = Vec::new();
        let mut i: usize = 0;
        while i < self.details.len()
            invariant
                i <= self.details@.len(),
                self@.len() == self.details@.len(),
                out@.len() == i,
                forall|j: int| 0 <= j < i ==> out@[j] == self.details@[j],
            decreases self.details.len() - i,
        {
            let k = self.details[i].0;
            let v = clone_value(&self.details[i].1);
            out.push((k, v));
            i = i + 1;
        }
        proof {
            assert(out@ =~= self.details@);
        }
        out
    }

    /// A copy of the value stored under `key`, if the catalog holds one.
    pub fn lookup(&self, key: i64) -> (r: Option<Value>)
        ensures
            match r {
                Some(v) => self.as_map().dom().contains(key as int) && v == self.as_map()[key
                    as int],
                None => !self.as_map().dom().contains(key as int),
            },
    {
        let mut i: usize = 0;
        while i < self.details.len()
            invariant
                i <= self.details@.len(),
                self@.len() == self.details@.len(),
                forall|j: int| 0 <= j < i ==> self@[j].0 != key as int,
            decreases self.details.len() - i,
        {
            if self.details[i].0 == key {
                proof {
                    assert(self@[i as int].0 == key as int);
                    lemma_pairs_map_at(self@, i as int);
                }
                return Some(clone_value(&self.details[i].1));
            }
            i = i + 1;
        }
        proof {
            lemma_pairs_map_dom(self@);
            if has_key(self@, key as int) {
                let j = choose|j: int| 0 <= j < self@.len() && self@[j].0 == key as int;
                assert(false);
            }
        }
        None
    }

    /// A copy of the value stored under `key`.
    pub fn get_detail(&self, key: i64) -> (r: Value)
        requires
            self.as_map().dom().contains(key as int),
        ensures
            r == self.as_map()[key as int],
    {
        match self.lookup(key) {
            Some(v) => v,
            None => vstd::pervasive::unreached(),
        }
    }
}

} // verus!
