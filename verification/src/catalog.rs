//! The catalog: which collections and which indexes there are. It mirrors the two tables of
//! the backing store that describe them, and follows every step that changes them.

use crate::index::{IndexInfo, IndexInfoV};
use crate::plan::{Step, StepV};
use crate::seqs::{first_where, lemma_first_where_is, replaced, without};
use crate::value::{Val, Value};
use vstd::prelude::*;

verus! {

/// The content of a collection record.
pub struct CollectionV {
    pub db: Seq<char>,
    pub coll: Seq<char>,
    pub options: Val,
}

/// The record of a collection: its database, its name, and the options it was made with.
#[derive(Debug, PartialEq, Eq)]
pub struct Collection {
    pub db: String,
    pub coll: String,
    pub options: Value,
}

impl DeepView for Collection {
    type V = CollectionV;

    open spec fn deep_view(&self) -> CollectionV {
        CollectionV { db: self.db@, coll: self.coll@, options: self.options@ }
    }
}

impl Clone for Collection {
    fn clone(&self) -> (r: Collection)
        ensures
            r.deep_view() == self.deep_view(),
    {
        Collection { db: self.db.clone(), coll: self.coll.clone(), options: self.options.copy() }
    }
}

/// The content of a catalog.
pub struct CatalogV {
    pub collections: Seq<CollectionV>,
    pub indexes: Seq<IndexInfoV>,
}

/// The records of all collections and of all indexes, each in the order of its table.
#[derive(Debug, PartialEq, Eq)]
pub struct Catalog {
    pub collections: Vec<Collection>,
    pub indexes: Vec<IndexInfo>,
}

impl DeepView for Catalog {
    type V = CatalogV;

    open spec fn deep_view(&self) -> CatalogV {
        CatalogV {
            collections: self.collections.deep_view(),
            indexes: self.indexes.deep_view(),
        }
    }
}

/// The test "is the record of this collection".
pub open spec fn is_collection(db: Seq<char>, coll: Seq<char>) -> spec_fn(CollectionV) -> bool {
    |c: CollectionV| c.db == db && c.coll == coll
}

/// The test "is the record of an index of this collection".
pub open spec fn in_collection(db: Seq<char>, coll: Seq<char>) -> spec_fn(IndexInfoV) -> bool {
    |i: IndexInfoV| i.db == db && i.coll == coll
}

/// The test "is the record of this index".
pub open spec fn is_index(db: Seq<char>, coll: Seq<char>, name: Seq<char>) -> spec_fn(
    IndexInfoV,
) -> bool {
    |i: IndexInfoV| i.db == db && i.coll == coll && i.name == name
}

/// Puts a collection record under another name.
pub open spec fn moved_collection(db: Seq<char>, coll: Seq<char>) -> spec_fn(
    CollectionV,
) -> CollectionV {
    |c: CollectionV| CollectionV { db, coll, options: c.options }
}

/// Puts an index record under another collection name.
pub open spec fn moved_index(db: Seq<char>, coll: Seq<char>) -> spec_fn(IndexInfoV) -> IndexInfoV {
    |i: IndexInfoV| IndexInfoV { db, coll, name: i.name, spec: i.spec, options: i.options }
}

impl CatalogV {
    /// Whether the collection is recorded.
    pub open spec fn has_collection(self, db: Seq<char>, coll: Seq<char>) -> bool {
        first_where(self.collections, is_collection(db, coll)) < self.collections.len()
    }

    /// The first record of the collection.
    pub open spec fn collection(self, db: Seq<char>, coll: Seq<char>) -> CollectionV {
        self.collections[first_where(self.collections, is_collection(db, coll))]
    }

    /// Whether the index is recorded.
    pub open spec fn has_index(self, db: Seq<char>, coll: Seq<char>, name: Seq<char>) -> bool {
        first_where(self.indexes, is_index(db, coll, name)) < self.indexes.len()
    }

    /// The first record of the index.
    pub open spec fn index(self, db: Seq<char>, coll: Seq<char>, name: Seq<char>) -> IndexInfoV {
        self.indexes[first_where(self.indexes, is_index(db, coll, name))]
    }

    /// The catalog after one step. Only steps that change the two describing tables change
    /// it. The records of a collection's indexes go with the collection's record when it is
    /// removed, and follow it when it is renamed.
    pub open spec fn apply(self, s: StepV) -> CatalogV {
        match s {
            StepV::InsertCollection { db, coll, options } => CatalogV {
                collections: self.collections.push(CollectionV { db, coll, options }),
                indexes: self.indexes,
            },
            StepV::DeleteCollection { db, coll } => CatalogV {
                collections: without(self.collections, is_collection(db, coll)),
                indexes: without(self.indexes, in_collection(db, coll)),
            },
            StepV::RenameCollection { db, coll, new_db, new_coll } => CatalogV {
                collections: replaced(
                    self.collections,
                    is_collection(db, coll),
                    moved_collection(new_db, new_coll),
                ),
                indexes: replaced(
                    self.indexes,
                    in_collection(db, coll),
                    moved_index(new_db, new_coll),
                ),
            },
            StepV::InsertIndex { info } => CatalogV {
                collections: self.collections,
                indexes: self.indexes.push(info),
            },
            StepV::DeleteIndex { db, coll, name } => CatalogV {
                collections: self.collections,
                indexes: without(self.indexes, is_index(db, coll, name)),
            },
            _ => self,
        }
    }

    /// The catalog after the steps, taken in order.
    pub open spec fn run(self, steps: Seq<StepV>) -> CatalogV
        decreases steps.len(),
    {
        if steps.len() == 0 {
            self
        } else {
            self.run(steps.drop_last()).apply(steps.last())
        }
    }
}

/// Taking steps one after the other is taking them all.
pub proof fn lemma_run_concat(c: CatalogV, a: Seq<StepV>, b: Seq<StepV>)
    ensures
        c.run(a + b) == c.run(a).run(b),
    decreases b.len(),
{
    if b.len() == 0 {
        assert(a + b =~= a);
    } else {
        assert((a + b).drop_last() =~= a + b.drop_last());
        lemma_run_concat(c, a, b.drop_last());
    }
}

/// Taking one more step.
pub proof fn lemma_run_push(c: CatalogV, a: Seq<StepV>, s: StepV)
    ensures
        c.run(a.push(s)) == c.run(a).apply(s),
{
    assert(a.push(s).drop_last() =~= a);
}

/// Taking a single step.
pub proof fn lemma_run_one(c: CatalogV, s: StepV)
    ensures
        c.run(seq![s]) == c.apply(s),
{
    assert(seq![s].drop_last() =~= Seq::<StepV>::empty());
    assert(c.run(Seq::<StepV>::empty()) == c);
}

impl Catalog {
    /// A catalog without records.
    pub fn new() -> (r: Catalog)
        ensures
            r.deep_view().collections.len() == 0,
            r.deep_view().indexes.len() == 0,
    {
        Catalog { collections: Vec::new(), indexes: Vec::new() }
    }

    /// The options of a collection, if the collection is recorded.
    pub fn get_collection_options(&self, db: &str, coll: &str) -> (r: Option<&Value>)
        ensures
            self.deep_view().has_collection(db@, coll@) ==> r is Some && r->0@
                == self.deep_view().collection(db@, coll@).options,
            !self.deep_view().has_collection(db@, coll@) ==> r is None,
    {
        let d = db.to_owned();
        let c = coll.to_owned();
        let ghost all = self.collections.deep_view();
        let mut i: usize = 0;
        while i < self.collections.len()
            invariant
                i <= self.collections.len(),
                all == self.collections.deep_view(),
                d@ == db@,
                c@ == coll@,
                forall|j: int| 0 <= j < i ==> !is_collection(db@, coll@)(#[trigger] all[j]),
            decreases self.collections.len() - i,
        {
            assert(all[i as int] == self.collections[i as int].deep_view());
            if self.collections[i].db == d && self.collections[i].coll == c {
                proof {
                    lemma_first_where_is(all, is_collection(db@, coll@), i as int);
                }
                return Some(&self.collections[i].options);
            }
            i += 1;
        }
        proof {
            lemma_first_where_is(all, is_collection(db@, coll@), i as int);
        }
        None
    }

    /// The record of an index, if the index is recorded.
    pub fn get_index_info(&self, db: &str, coll: &str, name: &str) -> (r: Option<&IndexInfo>)
        ensures
            self.deep_view().has_index(db@, coll@, name@) ==> r is Some && r->0@
                == self.deep_view().index(db@, coll@, name@),
            !self.deep_view().has_index(db@, coll@, name@) ==> r is None,
    {
        let d = db.to_owned();
        let c = coll.to_owned();
        let n = name.to_owned();
        let ghost all = self.indexes.deep_view();
        let mut i: usize = 0;
        while i < self.indexes.len()
            invariant
                i <= self.indexes.len(),
                all == self.indexes.deep_view(),
                d@ == db@,
                c@ == coll@,
                n@ == name@,
                forall|j: int| 0 <= j < i ==> !is_index(db@, coll@, name@)(#[trigger] all[j]),
            decreases self.indexes.len() - i,
        {
            assert(all[i as int] == self.indexes[i as int].deep_view());
            if self.indexes[i].db == d && self.indexes[i].coll == c && self.indexes[i].name == n {
                proof {
                    lemma_first_where_is(all, is_index(db@, coll@, name@), i as int);
                }
                return Some(&self.indexes[i]);
            }
            i += 1;
        }
        proof {
            lemma_first_where_is(all, is_index(db@, coll@, name@), i as int);
        }
        None
    }

    /// The records of all collections.
    pub fn base_list_collections(&self) -> (r: Vec<Collection>)
        ensures
            r.deep_view() == self.deep_view().collections,
    {
        let mut out: Vec<Collection> = Vec::new();
        let mut i: usize = 0;
        while i < self.collections.len()
            invariant
                i <= self.collections.len(),
                out.len() == i,
                forall|j: int|
                    0 <= j < i ==> (#[trigger] out[j]).deep_view()
                        == self.collections[j].deep_view(),
            decreases self.collections.len() - i,
        {
            out.push(self.collections[i].clone());
            i += 1;
        }
        assert(out.deep_view() =~= self.collections.deep_view());
        out
    }

    /// The records of all indexes.
    pub fn base_list_indexes(&self) -> (r: Vec<IndexInfo>)
        ensures
            r.deep_view() == self.deep_view().indexes,
    {
        let mut out: Vec<IndexInfo> = Vec::new();
        let mut i: usize = 0;
        while i < self.indexes.len()
            invariant
                i <= self.indexes.len(),
                out.len() == i,
                forall|j: int|
                    0 <= j < i ==> (#[trigger] out[j]).deep_view() == self.indexes[j].deep_view(),
            decreases self.indexes.len() - i,
        {
            out.push(self.indexes[i].clone());
            i += 1;
        }
        assert(out.deep_view() =~= self.indexes.deep_view());
        out
    }

    /// Takes the records of a collection out.
    fn remove_collection(&mut self, db: &String, coll: &String)
        ensures
            final(self).deep_view().collections == without(
                old(self).deep_view().collections,
                is_collection(db@, coll@),
            ),
            final(self).deep_view().indexes == old(self).deep_view().indexes,
    {
        let ghost all = self.collections.deep_view();
        let mut out: Vec<Collection> = Vec::new();
        let mut i: usize = 0;
        assert(all.take(0) =~= Seq::empty());
        assert(out.deep_view() =~= Seq::empty());
        while i < self.collections.len()
            invariant
                i <= self.collections.len(),
                all == self.collections.deep_view(),
                self.indexes == old(self).indexes,
                out.deep_view() == without(all.take(i as int), is_collection(db@, coll@)),
            decreases self.collections.len() - i,
        {
            proof {
                assert(all.take(i + 1).drop_last() =~= all.take(i as int));
                assert(all.take(i + 1).last() == self.collections[i as int].deep_view());
            }
            if !(self.collections[i].db == *db && self.collections[i].coll == *coll) {
                let ghost before = out.deep_view();
                out.push(self.collections[i].clone());
                assert(out.deep_view() =~= before.push(self.collections[i as int].deep_view()));
            }
            i += 1;
        }
        assert(all.take(self.collections.len() as int) =~= all);
        self.collections = out;
    }

    /// Takes out the records of the indexes of a collection or, where `name` is given, of
    /// the one index of that name.
    fn remove_indexes(&mut self, db: &String, coll: &String, name: Option<&String>)
        ensures
            final(self).deep_view().indexes == without(
                old(self).deep_view().indexes,
                match name {
                    Some(n) => is_index(db@, coll@, n@),
                    None => in_collection(db@, coll@),
                },
            ),
            final(self).deep_view().collections == old(self).deep_view().collections,
    {
        let ghost all = self.indexes.deep_view();
        let ghost p = match name {
            Some(n) => is_index(db@, coll@, n@),
            None => in_collection(db@, coll@),
        };
        let mut out: Vec<IndexInfo> = Vec::new();
        let mut i: usize = 0;
        assert(all.take(0) =~= Seq::empty());
        assert(out.deep_view() =~= Seq::empty());
        while i < self.indexes.len()
            invariant
                i <= self.indexes.len(),
                all == self.indexes.deep_view(),
                self.collections == old(self).collections,
                p == match name {
                    Some(n) => is_index(db@, coll@, n@),
                    None => in_collection(db@, coll@),
                },
                out.deep_view() == without(all.take(i as int), p),
            decreases self.indexes.len() - i,
        {
            proof {
                assert(all.take(i + 1).drop_last() =~= all.take(i as int));
                assert(all.take(i + 1).last() == self.indexes[i as int].deep_view());
            }
            let hit = self.indexes[i].db == *db && self.indexes[i].coll == *coll && match name {
                Some(n) => self.indexes[i].name == *n,
                None => true,
            };
            if !hit {
                let ghost before = out.deep_view();
                out.push(self.indexes[i].clone());
                assert(out.deep_view() =~= before.push(self.indexes[i as int].deep_view()));
            }
            i += 1;
        }
        assert(all.take(self.indexes.len() as int) =~= all);
        self.indexes = out;
    }

    /// Puts the records of a collection and of its indexes under another name.
    fn rename(&mut self, db: &String, coll: &String, new_db: &String, new_coll: &String)
        ensures
            final(self).deep_view().collections == replaced(
                old(self).deep_view().collections,
                is_collection(db@, coll@),
                moved_collection(new_db@, new_coll@),
            ),
            final(self).deep_view().indexes == replaced(
                old(self).deep_view().indexes,
                in_collection(db@, coll@),
                moved_index(new_db@, new_coll@),
            ),
    {
        let ghost cs = self.collections.deep_view();
        let ghost xs = self.indexes.deep_view();
        let mut i: usize = 0;
        while i < self.collections.len()
            invariant
                i <= self.collections.len(),
                self.collections.len() == cs.len(),
                self.indexes.deep_view() == xs,
                forall|j: int|
                    0 <= j < i ==> (#[trigger] self.collections[j]).deep_view() == replaced(
                        cs,
                        is_collection(db@, coll@),
                        moved_collection(new_db@, new_coll@),
                    )[j],
                forall|j: int|
                    i <= j < cs.len() ==> (#[trigger] self.collections[j]).deep_view() == cs[j],
            decreases self.collections.len() - i,
        {
            if self.collections[i].db == *db && self.collections[i].coll == *coll {
                let moved = Collection {
                    db: new_db.clone(),
                    coll: new_coll.clone(),
                    options: self.collections[i].options.copy(),
                };
                self.collections.set(i, moved);
            }
            i += 1;
        }
        assert(self.collections.deep_view() =~= replaced(
            cs,
            is_collection(db@, coll@),
            moved_collection(new_db@, new_coll@),
        ));
        let mut k: usize = 0;
        while k < self.indexes.len()
            invariant
                k <= self.indexes.len(),
                self.indexes.len() == xs.len(),
                self.collections.deep_view() == replaced(
                    cs,
                    is_collection(db@, coll@),
                    moved_collection(new_db@, new_coll@),
                ),
                forall|j: int|
                    0 <= j < k ==> (#[trigger] self.indexes[j]).deep_view() == replaced(
                        xs,
                        in_collection(db@, coll@),
                        moved_index(new_db@, new_coll@),
                    )[j],
                forall|j: int| k <= j < xs.len() ==> (#[trigger] self.indexes[j]).deep_view() == xs[j],
            decreases self.indexes.len() - k,
        {
            if self.indexes[k].db == *db && self.indexes[k].coll == *coll {
                let moved = IndexInfo {
                    db: new_db.clone(),
                    coll: new_coll.clone(),
                    name: self.indexes[k].name.clone(),
                    spec: self.indexes[k].spec.copy(),
                    options: self.indexes[k].options.copy(),
                };
                self.indexes.set(k, moved);
            }
            k += 1;
        }
        assert(self.indexes.deep_view() =~= replaced(
            xs,
            in_collection(db@, coll@),
            moved_index(new_db@, new_coll@),
        ));
    }

    /// Follows one step.
    pub fn apply(&mut self, step: &Step)
        ensures
            final(self).deep_view() == old(self).deep_view().apply(step.deep_view()),
    {
        match step {
            Step::InsertCollection { db, coll, options } => {
                let ghost before = self.collections.deep_view();
                let row = Collection { db: db.clone(), coll: coll.clone(), options: options.copy() };
                self.collections.push(row);
                assert(self.collections.deep_view() =~= before.push(
                    CollectionV { db: db@, coll: coll@, options: options@ },
                ));
            },
            Step::DeleteCollection { db, coll } => {
                self.remove_collection(db, coll);
                self.remove_indexes(db, coll, None);
            },
            Step::RenameCollection { db, coll, new_db, new_coll } => {
                self.rename(db, coll, new_db, new_coll);
            },
            Step::InsertIndex { info } => {
                let ghost before = self.indexes.deep_view();
                self.indexes.push(info.clone());
                assert(self.indexes.deep_view() =~= before.push(info@));
            },
            Step::DeleteIndex { db, coll, name } => {
                self.remove_indexes(db, coll, Some(name));
            },
            _ => {},
        }
    }
}

} // verus!
