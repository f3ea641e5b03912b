//! The response assembler and the validated query surface: every query is
//! gated by the validator, answered from a catalog, and wrapped into a
//! uniform success/error result whose error message names the offending
//! value and the valid bound or set.

use vstd::prelude::*;
use serde_json::Value;
use crate::category::{cats_view, has_id, ids_of, Categories, Category};
use crate::detail::{details_view, CategoryDetails};
use crate::num::{dec_int, i64_to_string, parse_dec, parse_i64, u64_to_string};
use crate::validate::{is_valid_count, is_valid_id};
use vstd::string::StringExecFns;

verus! {

/// How a rejected query is classified at the boundary. The two validation
/// kinds are the caller's fault; an internal inconsistency is not.
#[derive(Clone, Copy, Debug, PartialEq, Eq, Structural)]
pub enum ErrorKind {
    InvalidCount,
    InvalidId,
    InternalInconsistency,
}

impl ErrorKind {
    /// Whether the boundary should report this as a client-input error
    /// (the equivalent of a bad request) rather than an internal one.
    pub fn is_client_input(&self) -> (r: bool)
        ensures
            r == (*self == ErrorKind::InvalidCount || *self == ErrorKind::InvalidId),
    {
        match self {
            ErrorKind::InvalidCount => true,
            ErrorKind::InvalidId => true,
            ErrorKind::InternalInconsistency => false,
        }
    }
}

/// The error payload crossing the boundary.
pub struct ErrorResponse {
    pub error: String,
}

/// The success payload of the category queries.
pub struct CategoriesResponse {
    pub categories: Vec<Category>,
}

/// The success payload of the detail queries.
pub struct CategoryDetailsResponse {
    pub details: Vec<(i64, Value)>,
}

/// The result of a category query.
pub enum ApiCategoriesResponse {
    Success(CategoriesResponse),
    Error(ErrorKind, ErrorResponse),
}

/// The result of a detail query.
pub enum ApiCategoryDetailsResponse {
    Success(CategoryDetailsResponse),
    Error(ErrorKind, ErrorResponse),
}

/// The ids `ids`, written as a bracketed comma-separated list.
pub open spec fn ids_repr(ids: Seq<int>) -> Seq<char> {
    seq!['['] + ids_repr_inner(ids) + seq![']']
}

/// The ids `ids`, written in decimal and separated by commas.
pub open spec fn ids_repr_inner(ids: Seq<int>) -> Seq<char>
    decreases ids.len(),
{
    if ids.len() == 0 {
        Seq::empty()
    } else if ids.len() == 1 {
        dec_int(ids[0])
    } else {
        ids_repr_inner(ids.drop_last()) + ", "@ + dec_int(ids.last())
    }
}

/// The message rejecting a count outside `[1, total]`.
pub open spec fn invalid_count_message(total: int, got: int) -> Seq<char> {
    "Invalid count. Count must be between 1 and "@ + dec_int(total) + "; got "@ + dec_int(got)
}

/// The message rejecting an id outside the known id set.
pub open spec fn invalid_id_message(ids: Seq<int>, got: int) -> Seq<char> {
    "Invalid id. ID must be in "@ + ids_repr(ids) + "; got "@ + dec_int(got)
}

/// The message rejecting a category number outside the known id set.
pub open spec fn invalid_category_number_message(ids: Seq<int>) -> Seq<char> {
    "Invalid category number. Category number must be one of "@ + ids_repr(ids)
}

/// The message reporting a known id with no detail entry.
pub open spec fn missing_detail_message(id: int) -> Seq<char> {
    "Internal inconsistency. No detail entry for known category id "@ + dec_int(id)
}

/// The ids of `s` as mathematical integers.
pub open spec fn ids_ints(s: Seq<i64>) -> Seq<int> {
    s.map_values(|x: i64| x as int)
}

/// Writes `ids` as a bracketed comma-separated decimal list.
fn ids_to_string(ids: &Vec<i64>) -> (r: String)
    ensures
        r@ == ids_repr(ids_ints(ids@)),
{
    let ghost all = ids_ints(ids@);
    let mut s = String::from_str("[");
    proof {
        reveal_strlit("[");
        reveal_strlit("]");
        reveal_strlit(", ");
        assert(s@ =~= seq!['[']);
        assert(all.subrange(0, 0) =~= Seq::<int>::empty());
        assert(s@ =~= seq!['['] + ids_repr_inner(all.subrange(0, 0)));
    }
    let mut i: usize = 0;
    while i < ids.len()
        invariant
            i <= ids@.len(),
            all == ids_ints(ids@),
            all.len() == ids@.len(),
            s@ == seq!['['] + ids_repr_inner(all.subrange(0, i as int)),
        decreases ids.len() - i,
    {
        if i > 0 {
            s.append(", ");
        }
        s.append(i64_to_string(ids[i]).as_str());
        proof {
            reveal_strlit(", ");
            let pre = all.subrange(0, i as int);
            let ext = all.subrange(0, i + 1);
            assert(ext.drop_last() =~= pre);
            assert(ext.last() == all[i as int]);
            assert(all[i as int] == ids@[i as int] as int);
            if i == 0 {
                assert(ext =~= seq![all[0]]);
                assert(s@ =~= seq!['['] + ids_repr_inner(ext));
            } else {
                assert(ids_repr_inner(ext) == ids_repr_inner(pre) + ", "@ + dec_int(ext.last()));
                assert(s@ =~= seq!['['] + ids_repr_inner(ext));
            }
        }
        i = i + 1;
    }
    s.append("]");
    proof {
        reveal_strlit("]");
        assert(all.subrange(0, all.len() as int) =~= all);
        assert(s@ =~= seq!['['] + ids_repr_inner(all) + seq![']']);
    }
    s
}

/// Assembles the error rejecting `got` against the bound `total`.
fn invalid_count_error(total: usize, got: i64) -> (r: ErrorResponse)
    ensures
        r.error@ == invalid_count_message(total as int, got as int),
{
    let mut s = String::from_str("Invalid count. Count must be between 1 and ");
    s.append(u64_to_string(total as u64).as_str());
    s.append("; got ");
    s.append(i64_to_string(got).as_str());
    proof {
        reveal_strlit("Invalid count. Count must be between 1 and ");
        reveal_strlit("; got ");
        assert(s@ =~= invalid_count_message(total as int, got as int));
    }
    ErrorResponse { error: s }
}

/// Assembles the error rejecting the id `got` against the known id set.
fn invalid_id_error(known_ids: &Vec<i64>, got: i64) -> (r: ErrorResponse)
    ensures
        r.error@ == invalid_id_message(ids_ints(known_ids@), got as int),
{
    let mut s = String::from_str("Invalid id. ID must be in ");
    s.append(ids_to_string(known_ids).as_str());
    s.append("; got ");
    s.append(i64_to_string(got).as_str());
    proof {
        reveal_strlit("Invalid id. ID must be in ");
        reveal_strlit("; got ");
        assert(s@ =~= invalid_id_message(ids_ints(known_ids@), got as int));
    }
    ErrorResponse { error: s }
}

/// Assembles the error rejecting the category number against the known id set.
fn invalid_category_number_error(known_ids: &Vec<i64>) -> (r: ErrorResponse)
    ensures
        r.error@ == invalid_category_number_message(ids_ints(known_ids@)),
{
    let mut s = String::from_str("Invalid category number. Category number must be one of ");
    s.append(ids_to_string(known_ids).as_str());
    proof {
        reveal_strlit("Invalid category number. Category number must be one of ");
        assert(s@ =~= invalid_category_number_message(ids_ints(known_ids@)));
    }
    ErrorResponse { error: s }
}

/// Assembles the internal error for a known id with no detail entry.
fn missing_detail_error(id: i64) -> (r: ErrorResponse)
    ensures
        r.error@ == missing_detail_message(id as int),
{
    let mut s = String::from_str("Internal inconsistency. No detail entry for known category id ");
    s.append(i64_to_string(id).as_str());
    proof {
        reveal_strlit("Internal inconsistency. No detail entry for known category id ");
        assert(s@ =~= missing_detail_message(id as int));
    }
    ErrorResponse { error: s }
}

/// Serves the category listing: the first `count` categories in catalog
/// order, all of them when no count is asked, and a client-input error
/// when the count lies outside `[1, total]`.
pub fn get_categories(cats: &Categories, count: Option<i32>) -> (r: ApiCategoriesResponse)
    ensures
        match count {
            Some(c) => if 1 <= c && c as int <= cats@.len() {
                r matches ApiCategoriesResponse::Success(p) && cats_view(p.categories@)
                    == cats@.subrange(0, c as int)
            } else {
                r matches ApiCategoriesResponse::Error(k, e) && k == ErrorKind::InvalidCount
                    && e.error@ == invalid_count_message(cats@.len() as int, c as int)
            },
            None => if cats@.len() > 0 {
                r matches ApiCategoriesResponse::Success(p) && cats_view(p.categories@) == cats@
            } else {
                r matches ApiCategoriesResponse::Error(k, e) && k == ErrorKind::InvalidCount
                    && e.error@ == invalid_count_message(0, 0)
            },
        },
{
    match count {
        Some(c) => {
            if is_valid_count(c, cats.total()) {
                let items = cats.get_categories(c as usize);
                ApiCategoriesResponse::Success(CategoriesResponse { categories: items })
            } else {
                ApiCategoriesResponse::Error(
                    ErrorKind::InvalidCount,
                    invalid_count_error(cats.total(), c as i64),
                )
            }
        },
        None => {
            let total = cats.total();
            if total > 0 {
                let items = cats.get_categories(total);
                proof {
                    assert(cats@.subrange(0, cats@.len() as int) =~= cats@);
                }
                ApiCategoriesResponse::Success(CategoriesResponse { categories: items })
            } else {
                ApiCategoriesResponse::Error(
                    ErrorKind::InvalidCount,
                    invalid_count_error(0, 0),
                )
            }
        },
    }
}

/// Serves one category by id: the record whose id field equals the
/// requested id, or a client-input error naming the known id set.
pub fn get_category(cats: &Categories, id: i32) -> (r: ApiCategoriesResponse)
    ensures
        if has_id(cats@, id as int) {
            r matches ApiCategoriesResponse::Success(p) && p.categories@.len() == 1
                && cats@.contains(p.categories@[0]@) && p.categories@[0]@.id == id as int
        } else {
            r matches ApiCategoriesResponse::Error(k, e) && k == ErrorKind::InvalidId && e.error@
                == invalid_id_message(ids_of(cats@), id as int)
        },
{
    let known = cats.ids();
    proof {
        if known@.contains(id as i64) {
            let j = choose|j: int| 0 <= j < known@.len() && known@[j] == id as i64;
            assert(cats@[j].id == id as int);
        }
        if has_id(cats@, id as int) {
            let j = choose|j: int| 0 <= j < cats@.len() && cats@[j].id == id as int;
            assert(known@[j] as int == id as int);
        }
    }
    if is_valid_id(id as i64, &known) {
        let record = cats.get_category(id as i64);
        let mut one: Vec<Category> = Vec::new();
        one.push(record);
        ApiCategoriesResponse::Success(CategoriesResponse { categories: one })
    } else {
        proof {
            assert(ids_ints(known@) =~= ids_of(cats@));
        }
        ApiCategoriesResponse::Error(ErrorKind::InvalidId, invalid_id_error(&known, id as i64))
    }
}

/// Serves the full detail mapping; this query has no failure path.
pub fn get_category_details(dets: &CategoryDetails) -> (r: ApiCategoryDetailsResponse)
    ensures
        r matches ApiCategoryDetailsResponse::Success(p) && details_view(p.details@) == dets@,
{
    ApiCategoryDetailsResponse::Success(
        CategoryDetailsResponse { details: dets.get_details() },
    )
}

/// Serves the detail record for one category number (an id in decimal
/// form): a single-entry mapping on success; a client-input error naming
/// the known id set when the number is not a known id; an internal error
/// when a known id has no detail entry (unreachable for consistently
/// loaded catalogs).
pub fn get_category_detail(
    cats: &Categories,
    dets: &CategoryDetails,
    category_number: &str,
) -> (r: ApiCategoryDetailsResponse)
    ensures
        match parse_dec(category_number@) {
            Some(id) => if has_id(cats@, id as int) {
                if dets.as_map().dom().contains(id as int) {
                    r matches ApiCategoryDetailsResponse::Success(p) && details_view(p.details@)
                        == seq![(id as int, dets.as_map()[id as int])]
                } else {
                    r matches ApiCategoryDetailsResponse::Error(k, e) && k
                        == ErrorKind::InternalInconsistency && e.error@ == missing_detail_message(
                        id as int,
                    )
                }
            } else {
                r matches ApiCategoryDetailsResponse::Error(k, e) && k == ErrorKind::InvalidId
                    && e.error@ == invalid_category_number_message(ids_of(cats@))
            },
            None => r matches ApiCategoryDetailsResponse::Error(k, e) && k == ErrorKind::InvalidId
                && e.error@ == invalid_category_number_message(ids_of(cats@)),
        },
{
    let known = cats.ids();
    proof {
        assert(ids_ints(known@) =~= ids_of(cats@));
    }
    let id = match parse_i64(category_number) {
        Some(id) => id,
        None => {
            return ApiCategoryDetailsResponse::Error(
                ErrorKind::InvalidId,
                invalid_category_number_error(&known),
            );
        },
    };
    proof {
        if known@.contains(id) {
            let j = choose|j: int| 0 <= j < known@.len() && known@[j] == id;
            assert(cats@[j].id == id as int);
        }
        if has_id(cats@, id as int) {
            let j = choose|j: int| 0 <= j < cats@.len() && cats@[j].id == id as int;
            assert(known@[j] as int == id as int);
        }
    }
    if !is_valid_id(id, &known) {
        return ApiCategoryDetailsResponse::Error(
            ErrorKind::InvalidId,
            invalid_category_number_error(&known),
        );
    }
    match dets.lookup(id) {
        Some(v) => {
            let mut one: Vec<(i64, Value)> = Vec::new();
            one.push((id, v));
            proof {
                assert(details_view(one@) =~= seq![(id as int, dets.as_map()[id as int])]);
            }
            ApiCategoryDetailsResponse::Success(CategoryDetailsResponse { details: one })
        },
        None => ApiCategoryDetailsResponse::Error(
            ErrorKind::InternalInconsistency,
            missing_detail_error(id),
        ),
    }
}

} // verus!
