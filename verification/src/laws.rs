//! Properties of the library stated as proved laws, over the same spec
//! functions the public contracts use.

use vstd::prelude::*;
use serde_json::Value;
use crate::category::{categories_load_model, unique_ids, CatModel};
use crate::detail::{details_load_model, pairs_map, unique_keys};
use crate::error::LoadError;
use crate::num::{
    all_digits, canonical_digits, dec_int, dec_nat, digit_char, digit_val, digits_val,
    is_dec_digit, parse_dec,
};

verus! {

/// A prefix of length `n` drawn from a catalog of at least `n` records has
/// exactly `n` records, each the record at the same position of the source.
pub proof fn lemma_prefix_exact(m: Seq<CatModel>, r: Seq<CatModel>, n: int)
    requires
        1 <= n <= m.len(),
        r == m.subrange(0, n),
    ensures
        r.len() == n,
        forall|i: int| 0 <= i < n ==> r[i] == m[i],
{
}

/// A count of zero and a count one past the total both lie outside the
/// valid range `[1, total]`, whatever the total is.
pub proof fn lemma_boundary_counts_invalid(total: int)
    requires
        total >= 0,
    ensures
        !(1 <= 0 && 0 <= total),
        !(1 <= total + 1 && total + 1 <= total),
{
}

/// A single-entry result drawn from the full mapping at a valid key is the
/// mapping `{key: full[key]}`.
pub proof fn lemma_single_entry_matches_full(dets: Seq<(int, Value)>, key: int)
    requires
        pairs_map(dets).dom().contains(key),
    ensures
        pairs_map(seq![(key, pairs_map(dets)[key])]) =~= map![key => pairs_map(dets)[key]],
{
    let one = seq![(key, pairs_map(dets)[key])];
    assert(one.skip(1) =~= Seq::<(int, Value)>::empty());
    reveal_with_fuel(pairs_map, 2);
    assert(pairs_map(one) == pairs_map(Seq::<(int, Value)>::empty()).insert(
        key,
        pairs_map(dets)[key],
    ));
}

/// A successfully loaded category catalog has pairwise distinct ids, and a
/// successfully loaded detail catalog pairwise distinct keys.
pub proof fn lemma_loaded_catalogs_unique(
    cat_text: Seq<char>,
    det_text: Seq<char>,
    cats: Seq<CatModel>,
    dets: Seq<(int, Value)>,
)
    requires
        categories_load_model(cat_text) == Ok::<Seq<CatModel>, LoadError>(cats),
        details_load_model(det_text) == Ok::<Seq<(int, Value)>, LoadError>(dets),
    ensures
        unique_ids(cats),
        unique_keys(dets),
{
}

/// In a catalog with pairwise distinct ids, two records with one id are one
/// record: a lookup by a known id is pinned to a single record.
pub proof fn lemma_record_by_id_unique(m: Seq<CatModel>, a: CatModel, b: CatModel, id: int)
    requires
        unique_ids(m),
        m.contains(a),
        m.contains(b),
        a.id == id,
        b.id == id,
    ensures
        a == b,
{
    let i = choose|i: int| 0 <= i < m.len() && m[i] == a;
    let j = choose|j: int| 0 <= j < m.len() && m[j] == b;
    if i != j {
        assert(m[i].id != m[j].id);
    }
}

/// Loading one category dataset text twice yields the same content: the
/// loaded catalog is a function of the text alone.
pub proof fn lemma_category_load_deterministic(text: Seq<char>, a: Seq<CatModel>, b: Seq<CatModel>)
    requires
        categories_load_model(text) == Ok::<Seq<CatModel>, LoadError>(a),
        categories_load_model(text) == Ok::<Seq<CatModel>, LoadError>(b),
    ensures
        a == b,
{
}

/// Loading one detail dataset text twice yields the same content.
pub proof fn lemma_detail_load_deterministic(
    text: Seq<char>,
    a: Seq<(int, Value)>,
    b: Seq<(int, Value)>,
)
    requires
        details_load_model(text) == Ok::<Seq<(int, Value)>, LoadError>(a),
        details_load_model(text) == Ok::<Seq<(int, Value)>, LoadError>(b),
    ensures
        a == b,
{
}

proof fn lemma_dec_nat_props(m: nat)
    ensures
        dec_nat(m).len() >= 1,
        all_digits(dec_nat(m)),
        digits_val(dec_nat(m)) == m,
        m >= 1 ==> dec_nat(m)[0] as int != 48,
        m < 10 ==> dec_nat(m).len() == 1,
    decreases m,
{
    if m < 10 {
        let s = dec_nat(m);
        assert(s == seq![digit_char(m as int)]);
        assert(is_dec_digit(digit_char(m as int)) && digit_val(digit_char(m as int)) == m);
        reveal_with_fuel(digits_val, 3);
        assert(s.drop_last() =~= Seq::<char>::empty());
        assert(digits_val(s) == digit_val(s.last()));
    } else {
        lemma_dec_nat_props(m / 10);
        let front = dec_nat(m / 10);
        let c = digit_char((m % 10) as int);
        let s = dec_nat(m);
        assert(s == front.push(c));
        assert(s.drop_last() =~= front);
        assert(s.last() == c);
        assert(is_dec_digit(c) && digit_val(c) == m % 10);
        assert(all_digits(s)) by {
            assert forall|i: int| 0 <= i < s.len() implies is_dec_digit(s[i]) by {
                if i < s.len() - 1 {
                    assert(s[i] == front[i]);
                }
            }
        }
        assert(digits_val(s) == digits_val(front) * 10 + digit_val(c));
        assert(s[0] == front[0]);
    }
}

/// The parser accepts exactly what the formatter writes: the canonical
/// decimal form of `n` parses back to `n`.
pub proof fn lemma_parse_roundtrip(n: i64)
    ensures
        parse_dec(dec_int(n as int)) == Some(n),
{
    if n >= 0 {
        lemma_dec_nat_props(n as nat);
        assert(canonical_digits(dec_nat(n as nat)));
    } else {
        let m = (-(n as int)) as nat;
        lemma_dec_nat_props(m);
        let s = dec_int(n as int);
        assert(s == seq!['-'] + dec_nat(m));
        assert(s.skip(1) =~= dec_nat(m));
        assert(s[0] == '-');
        assert(!is_dec_digit('-'));
        assert(canonical_digits(s.skip(1))) by {
            assert(s.skip(1)[0] == dec_nat(m)[0]);
        }
        assert(!canonical_digits(s));
        assert(parse_dec(s) == Some((-digits_val(s.skip(1))) as i64));
    }
}

} // verus!
