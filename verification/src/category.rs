//! The ordered category catalog: loaded once from an embedded JSON dataset,
//! then served as an immutable snapshot.

use vstd::prelude::*;
use serde_json::Value;
use crate::error::LoadError;
use crate::json::{
    clone_value, elements_of, entries_of, int_of, json_of, parse_json, str_of, value_elements,
    value_entries, value_int, value_str,
};
use vstd::string::StringExecFns;

verus! {

/// One catalog record: a unique integer id, a display title, and the full
/// list of fields of the source object (id and title included) in key order.
pub struct Category {
    pub id: i64,
    pub title: String,
    pub fields: Vec<(String, Value)>,
}

/// The mathematical content of a `Category`.
pub ghost struct CatModel {
    pub id: int,
    pub title: Seq<char>,
    pub fields: Seq<(Seq<char>, Value)>,
}

/// The content of a list of entry pairs.
pub open spec fn entries_view(es: Seq<(String, Value)>) -> Seq<(Seq<char>, Value)> {
    es.map_values(|p: (String, Value)| (p.0@, p.1))
}

impl View for Category {
    type V = CatModel;

    open spec fn view(&self) -> CatModel {
        CatModel { id: self.id as int, title: self.title@, fields: entries_view(self.fields@) }
    }
}

/// The content of a list of categories.
pub open spec fn cats_view(s: Seq<Category>) -> Seq<CatModel> {
    s.map_values(|c: Category| c@)
}

/// The first value in `es` whose key is `key`.
pub open spec fn entry_lookup(es: Seq<(Seq<char>, Value)>, key: Seq<char>) -> Option<Value>
    decreases es.len(),
{
    if es.len() == 0 {
        None
    } else if es[0].0 == key {
        Some(es[0].1)
    } else {
        entry_lookup(es.skip(1), key)
    }
}

/// The record a JSON value denotes: its object entries together with the
/// integer `id` field and the string `title` field they must contain.
pub open spec fn cat_model_of(v: Value) -> Option<CatModel> {
    match entries_of(v) {
        Some(es) => match entry_lookup(es, "id"@) {
            Some(idv) => match int_of(idv) {
                Some(id) => match entry_lookup(es, "title"@) {
                    Some(tv) => match str_of(tv) {
                        Some(title) => Some(CatModel { id: id as int, title, fields: es }),
                        None => None,
                    },
                    None => None,
                },
                None => None,
            },
            None => None,
        },
        None => None,
    }
}

/// The records a sequence of JSON values denotes, if every one is well-formed.
pub open spec fn cat_models_of(es: Seq<Value>) -> Option<Seq<CatModel>>
    decreases es.len(),
{
    if es.len() == 0 {
        Some(Seq::empty())
    } else {
        match (cat_models_of(es.drop_last()), cat_model_of(es.last())) {
            (Some(front), Some(c)) => Some(front.push(c)),
            _ => None,
        }
    }
}

/// Ids are pairwise distinct.
pub open spec fn unique_ids(m: Seq<CatModel>) -> bool {
    forall|i: int, j: int| 0 <= i < j < m.len() ==> m[i].id != m[j].id
}

/// Whether some record in `m` has id `id`.
pub open spec fn has_id(m: Seq<CatModel>, id: int) -> bool {
    exists|i: int| 0 <= i < m.len() && m[i].id == id
}

/// The ids of `m`, in catalog order.
pub open spec fn ids_of(m: Seq<CatModel>) -> Seq<int> {
    m.map_values(|c: CatModel| c.id)
}

/// The catalog content a category dataset text denotes: its record
/// sequence when the text is a JSON array of well-formed records with
/// pairwise distinct ids, and the error it is rejected with otherwise.
pub open spec fn categories_load_model(text: Seq<char>) -> Result<Seq<CatModel>, LoadError> {
    match json_of(text) {
        Some(doc) => match elements_of(doc) {
            Some(elems) => match cat_models_of(elems) {
                Some(cats) => if unique_ids(cats) {
                    Ok(cats)
                } else {
                    Err(LoadError::DuplicateId)
                },
                None => Err(LoadError::Malformed),
            },
            None => Err(LoadError::Malformed),
        },
        None => Err(LoadError::Malformed),
    }
}

proof fn lemma_cat_models_of_index(es: Seq<Value>, i: int)
    requires
        0 <= i < es.len(),
        cat_models_of(es) is Some,
    ensures
        cat_model_of(es[i]) is Some,
    decreases es.len(),
{
    if i < es.len() - 1 {
        lemma_cat_models_of_index(es.drop_last(), i);
    }
}

/// The embedded category dataset: an array of category objects whose
/// order is the canonical serving order.
pub open spec fn category_dataset_text() -> Seq<char> {
    "[{\"id\": 2, \"title\": \"baseball\", \"clues_count\": 5}, {\"id\": 3, \"title\": \"basketball\", \"clues_count\": 5}, {\"id\": 4, \"title\": \"boxing\", \"clues_count\": 5}, {\"id\": 5, \"title\": \"cycling\", \"clues_count\": 5}, {\"id\": 6, \"title\": \"golf\", \"clues_count\": 5}, {\"id\": 7, \"title\": \"tennis\", \"clues_count\": 5}]"@
}

/// The embedded category dataset as text.
pub fn category_dataset() -> (r: &'static str)
    ensures
        r@ == category_dataset_text(),
{
    "[{\"id\": 2, \"title\": \"baseball\", \"clues_count\": 5}, {\"id\": 3, \"title\": \"basketball\", \"clues_count\": 5}, {\"id\": 4, \"title\": \"boxing\", \"clues_count\": 5}, {\"id\": 5, \"title\": \"cycling\", \"clues_count\": 5}, {\"id\": 6, \"title\": \"golf\", \"clues_count\": 5}, {\"id\": 7, \"title\": \"tennis\", \"clues_count\": 5}]"
}

/// The ordered catalog of categories. Immutable once loaded: every query
/// hands out copies of its records, never views into them.
pub struct Categories {
    categories: Vec<Category>,
}

impl View for Categories {
    type V = Seq<CatModel>;

    closed spec fn view(&self) -> Seq<CatModel> {
        cats_view(self.categories@)
    }
}

impl Category {
    /// A copy of this record.
    pub fn duplicate(&self) -> (r: Category)
        ensures
            r@ == self@,
            r.id == self.id,
    {
        let mut fields: Vec<(String, Value)> = Vec::new();
        let mut i: usize = 0;
        while i < self.fields.len()
            invariant
                i <= self.fields.len(),
                fields@ =~= self.fields@.subrange(0, i as int),
            decreases self.fields.len() - i,
        {
            let k = self.fields[i].0.clone();
            let v = clone_value(&self.fields[i].1);
            fields.push((k, v));
            proof {
                assert(fields@ =~= self.fields@.subrange(0, i + 1));
            }
            i = i + 1;
        }
        proof {
            assert(fields@ =~= self.fields@);
        }
        Category { id: self.id, title: self.title.clone(), fields }
    }
}

impl Categories {
    /// Loads the embedded category dataset.
    pub fn new() -> (r: Result<Categories, LoadError>)
        ensures
            match r {
                Ok(c) => categories_load_model(category_dataset_text()) == Ok::<
                    Seq<CatModel>,
                    LoadError,
                >(c@),
                Err(e) => categories_load_model(category_dataset_text()) == Err::<
                    Seq<CatModel>,
                    LoadError,
                >(e),
            },
    {
        Self::load_from(category_dataset())
    }

    /// Parses a category dataset: a JSON array of objects, each with an
    /// integer `id` field and a string `title` field; ids must be pairwise
    /// distinct.
    pub fn load_from(text: &str) -> (r: Result<Categories, LoadError>)
        ensures
            match r {
                Ok(c) => categories_load_model(text@) == Ok::<Seq<CatModel>, LoadError>(c@),
                Err(e) => categories_load_model(text@) == Err::<Seq<CatModel>, LoadError>(e),
            },
    {
        let doc = match parse_json(text) {
            Some(d) => d,
            None => {
                return Err(LoadError::Malformed);
            },
        };
        let elems = match value_elements(&doc) {
            Some(e) => e,
            None => {
                return Err(LoadError::Malformed);
            },
        };
        let mut cats: Vec<Category> = Vec::new();
        let mut i: usize = 0;
        while i < elems.len()
            invariant
                i <= elems.len(),
                json_of(text@) == Some(doc),
                elements_of(doc) == Some(elems@),
                cat_models_of(elems@.subrange(0, i as int)) == Some(cats_view(cats@)),
            decreases elems.len() - i,
        {
            let ghost prev_cats = cats@;
            let c = match Self::parse_category(&elems[i]) {
                Some(c) => c,
                None => {
                    proof {
                        if cat_models_of(elems@) is Some {
                            lemma_cat_models_of_index(elems@, i as int);
                        }
                    }
                    return Err(LoadError::Malformed);
                },
            };
            let ghost cm = c@;
            cats.push(c);
            proof {
                let pre = elems@.subrange(0, i as int);
                let ext = elems@.subrange(0, i + 1);
                assert(ext.drop_last() =~= pre);
                assert(ext.last() == elems@[i as int]);
                assert(cats@ == prev_cats.push(cats@.last()));
                assert(cats_view(cats@) =~= cats_view(prev_cats).push(cm));
                assert(cat_models_of(ext) == Some(cats_view(cats@)));
            }
            i = i + 1;
        }
        proof {
            assert(elems@.subrange(0, elems@.len() as int) =~= elems@);
        }
        if Self::ids_unique(&cats) {
            Ok(Categories { categories: cats })
        } else {
            Err(LoadError::DuplicateId)
        }
    }

    /// Reads one record: the entries of an object with an integer `id`
    /// and a string `title`.
    fn parse_category(v: &Value) -> (r: Option<Category>)
        ensures
            match r {
                Some(c) => cat_model_of(*v) == Some(c@),
                None => cat_model_of(*v) is None,
            },
    {
        let es = match value_entries(v) {
            Some(es) => es,
            None => {
                return None;
            },
        };
        let id_key = String::from_str("id");
        let title_key = String::from_str("title");
        proof {
            reveal_strlit("id");
            reveal_strlit("title");
        }
        let idv = match Self::find_entry(&es, &id_key) {
            Some(x) => x,
            None => {
                return None;
            },
        };
        let id = match value_int(&idv) {
            Some(n) => n,
            None => {
                return None;
            },
        };
        let tv = match Self::find_entry(&es, &title_key) {
            Some(x) => x,
            None => {
                return None;
            },
        };
        let title = match value_str(&tv) {
            Some(t) => t,
            None => {
                return None;
            },
        };
        Some(Category { id, title, fields: es })
    }

    /// The first entry of `es` whose key is `key`, as a copy of its value.
    fn find_entry(es: &Vec<(String, Value)>, key: &String) -> (r: Option<Value>)
        ensures
            r == entry_lookup(entries_view(es@), key@),
    {
        let ghost full = entries_view(es@);
        proof {
            assert(full.skip(0) =~= full);
        }
        let mut i: usize = 0;
        while i < es.len()
            invariant
                i <= es.len(),
                full == entries_view(es@),
                entry_lookup(full, key@) == entry_lookup(full.skip(i as int), key@),
            decreases es.len() - i,
        {
            proof {
                assert(full.skip(i as int)[0] == full[i as int]);
            }
            if es[i].0 == *key {
                return Some(clone_value(&es[i].1));
            }
            proof {
                assert(full.skip(i as int).skip(1) =~= full.skip(i + 1));
            }
            i = i + 1;
        }
        proof {
            assert(full.skip(es@.len() as int) =~= Seq::<(Seq<char>, Value)>::empty());
        }
        None
    }

    /// Whether the ids of `cats` are pairwise distinct.
    fn ids_unique(cats: &Vec<Category>) -> (r: bool)
        ensures
            r == unique_ids(cats_view(cats@)),
    {
        let mut i: usize = 0;
        while i < cats.len()
            invariant
                i <= cats.len(),
                forall|a: int, b: int| 0 <= a < b < i ==> cats@[a].id != cats@[b].id,
            decreases cats.len() - i,
        {
            let mut j: usize = 0;
            while j < i
                invariant
                    j <= i < cats.len(),
                    forall|a: int, b: int| 0 <= a < b < i ==> cats@[a].id != cats@[b].id,
                    forall|a: int| 0 <= a < j ==> cats@[a].id != cats@[i as int].id,
                decreases i - j,
            {
                if cats[j].id == cats[i].id {
                    proof {
                        assert(cats_view(cats@)[j as int].id == cats_view(cats@)[i as int].id);
                    }
                    return false;
                }
                j = j + 1;
            }
            i = i + 1;
        }
        true
    }

    /// The number of categories.
    pub fn total(&self) -> (r: usize)
        ensures
            r == self@.len(),
    {
        self.categories.len()
    }

    /// The known ids, in catalog order.
    pub fn ids(&self) -> (r: Vec<i64>)
        ensures
            r@.len() == self@.len(),
            forall|i: int| 0 <= i < r@.len() ==> r@[i] as int == self@[i].id,
    {
        let mut ids: Vec<i64> = Vec::new();
        let mut i: usize = 0;
        while i < self.categories.len()
            invariant
                i <= self.categories.len(),
                self@.len() == self.categories@.len(),
                ids@.len() == i,
                forall|j: int| 0 <= j < i ==> ids@[j] as int == self@[j].id,
            decreases self.categories.len() - i,
        {
            ids.push(self.categories[i].id);
            i = i + 1;
        }
        ids
    }

    /// Appends one record; the catalog keeps insertion order.
    pub fn add_category(&mut self, category: Category)
        requires
            !has_id(old(self)@, category@.id),
        ensures
            final(self)@ == old(self)@.push(category@),
    {
        self.categories.push(category);
        proof {
            assert(self@ =~= old(self)@.push(category@));
        }
    }

    /// The first `count` categories in catalog order, as copies.
    pub fn get_categories(&self, count: usize) -> (r: Vec<Category>)
        requires
            1 <= count <= self@.len(),
        ensures
            cats_view(r@) == self@.subrange(0, count as int),
    {
        let mut out: Vec<Category> = Vec::new();
        let mut i: usize = 0;
        while i < count
            invariant
                i <= count <= self.categories@.len(),
                self@.len() == self.categories@.len(),
                out@.len() == i,
                forall|j: int| 0 <= j < i ==> #[trigger] out@[j]@ == self@[j],
            decreases count - i,
        {
            out.push(self.categories[i].duplicate());
            i = i + 1;
        }
        proof {
            assert(cats_view(out@) =~= self@.subrange(0, count as int));
        }
        out
    }

    /// A copy of the record whose id is `id`.
    pub fn get_category(&self, id: i64) -> (r: Category)
        requires
            has_id(self@, id as int),
        ensures
            self@.contains(r@),
            r@.id == id as int,
    {
        let mut i: usize = 0;
        while i < self.categories.len()
            invariant
                i <= self.categories@.len(),
                self@.len() == self.categories@.len(),
                has_id(self@, id as int),
                forall|j: int| 0 <= j < i ==> self@[j].id != id as int,
            decreases self.categories.len() - i,
        {
            if self.categories[i].id == id {
                let r = self.categories[i].duplicate();
                proof {
                    assert(self@[i as int] == r@);
                }
                return r;
            }
            i = i + 1;
        }
        proof {
            assert(false);
        }
        vstd::pervasive::unreached()
    }
}

} // verus!
