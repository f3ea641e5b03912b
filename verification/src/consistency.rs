//! Consistency across the two catalogs: the detail keys must be drawn from
//! the category id set, and no known id may lack a detail entry. This is a
//! load-time invariant, checked once before serving begins.

use vstd::prelude::*;
use serde_json::Value;
use crate::category::{has_id, CatModel, Categories};
use crate::detail::{has_key, lemma_pairs_map_dom, pairs_map, CategoryDetails};
use crate::validate::is_valid_id;

verus! {

/// Every detail key is a known id, and every known id has a detail entry.
pub open spec fn consistent(cats: Seq<CatModel>, dets: Seq<(int, Value)>) -> bool {
    (forall|i: int| 0 <= i < dets.len() ==> has_id(cats, #[trigger] dets[i].0)) && (forall|i: int|
        0 <= i < cats.len() ==> has_key(dets, #[trigger] cats[i].id))
}

/// The known id set of a catalog.
pub open spec fn id_set(cats: Seq<CatModel>) -> Set<int> {
    Set::new(|id: int| has_id(cats, id))
}

/// The key set of the full detail mapping is exactly the known id set.
pub proof fn lemma_details_cover_ids(cats: Seq<CatModel>, dets: Seq<(int, Value)>)
    requires
        consistent(cats, dets),
    ensures
        pairs_map(dets).dom() =~= id_set(cats),
{
    lemma_pairs_map_dom(dets);
    assert forall|k: int| #[trigger] pairs_map(dets).dom().contains(k) implies id_set(
        cats,
    ).contains(k) by {
        let i = choose|i: int| 0 <= i < dets.len() && dets[i].0 == k;
        assert(has_id(cats, dets[i].0));
    }
    assert forall|k: int| #[trigger] id_set(cats).contains(k) implies pairs_map(
        dets,
    ).dom().contains(k) by {
        let i = choose|i: int| 0 <= i < cats.len() && cats[i].id == k;
        assert(has_key(dets, cats[i].id));
    }
}

/// True exactly when the two loaded catalogs are consistent.
pub fn check_consistency(cats: &Categories, dets: &CategoryDetails) -> (r: bool)
    ensures
        r == consistent(cats@, dets@),
{
    let known = cats.ids();
    let keys = dets.keys();
    let mut i: usize = 0;
    while i < keys.len()
        invariant
            i <= keys@.len(),
            keys@.len() == dets@.len(),
            forall|j: int| 0 <= j < keys@.len() ==> keys@[j] as int == dets@[j].0,
            known@.len() == cats@.len(),
            forall|j: int| 0 <= j < known@.len() ==> known@[j] as int == cats@[j].id,
            forall|j: int| 0 <= j < i ==> has_id(cats@, #[trigger] dets@[j].0),
        decreases keys.len() - i,
    {
        let k = keys[i];
        proof {
            if known@.contains(k) {
                let j = choose|j: int| 0 <= j < known@.len() && known@[j] == k;
                assert(cats@[j].id == k as int);
            }
        }
        if !is_valid_id(k, &known) {
            proof {
                assert(!has_id(cats@, dets@[i as int].0)) by {
                    if has_id(cats@, dets@[i as int].0) {
                        let j = choose|j: int|
                            0 <= j < cats@.len() && cats@[j].id == dets@[i as int].0;
                        assert(known@[j] == k);
                    }
                }
            }
            return false;
        }
        i = i + 1;
    }
    let mut i: usize = 0;
    while i < known.len()
        invariant
            i <= known@.len(),
            keys@.len() == dets@.len(),
            forall|j: int| 0 <= j < keys@.len() ==> keys@[j] as int == dets@[j].0,
            known@.len() == cats@.len(),
            forall|j: int| 0 <= j < known@.len() ==> known@[j] as int == cats@[j].id,
            forall|j: int| 0 <= j < i ==> has_key(dets@, #[trigger] cats@[j].id),
        decreases known.len() - i,
    {
        let id = known[i];
        proof {
            if keys@.contains(id) {
                let j = choose|j: int| 0 <= j < keys@.len() && keys@[j] == id;
                assert(dets@[j].0 == id as int);
            }
        }
        if !is_valid_id(id, &keys) {
            proof {
                assert(!has_key(dets@, cats@[i as int].id)) by {
                    if has_key(dets@, cats@[i as int].id) {
                        let j = choose|j: int|
                            0 <= j < dets@.len() && dets@[j].0 == cats@[i as int].id;
                        assert(keys@[j] == id);
                    }
                }
            }
            return false;
        }
        i = i + 1;
    }
    true
}

} // verus!
