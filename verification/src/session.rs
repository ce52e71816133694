//! Writing documents: the write session of a collection, and the steps that keep the
//! entries of every index of the collection in line with its documents.

use crate::catalog::{Catalog, CatalogV};
use crate::conn::{create_collection_steps, entry_steps, no_options};
use crate::entries::{copy_entry, get_index_entries, index_entries};
use crate::error::Error;
use crate::index::{get_normalized_spec, normalized, IndexInfo, IndexInfoV};
use crate::layout::{index_table, sql_find_rowid, Expect, Param, ParamV, Statement, StatementV};
use crate::plan::{Step, StepV};
use crate::seqs::without;
use crate::value::{field, Val, Value};
use vstd::prelude::*;

verus! {

/// The content of a write session.
pub struct WriteSessionV {
    pub db: Seq<char>,
    pub coll: Seq<char>,
    pub find_rowid: bool,
    pub indexes: Seq<IndexInfoV>,
}

/// What is prepared for writing to one collection: the collection, whether its documents
/// can be found by `_id`, and its indexes.
#[derive(Debug, PartialEq, Eq)]
pub struct WriteSession {
    pub db: String,
    pub coll: String,
    pub find_rowid: bool,
    pub indexes: Vec<IndexInfo>,
}

impl DeepView for WriteSession {
    type V = WriteSessionV;

    open spec fn deep_view(&self) -> WriteSessionV {
        WriteSessionV {
            db: self.db@,
            coll: self.coll@,
            find_rowid: self.find_rowid,
            indexes: self.indexes.deep_view(),
        }
    }
}

/// The content of a connection.
pub struct ConnectionV {
    pub catalog: CatalogV,
    pub statements: Option<WriteSessionV>,
}

/// The state of one connection to the store: the catalog as this connection knows it, and
/// its write session while one is open.
#[derive(Debug, PartialEq, Eq)]
pub struct Connection {
    pub catalog: Catalog,
    pub statements: Option<WriteSession>,
}

impl DeepView for Connection {
    type V = ConnectionV;

    open spec fn deep_view(&self) -> ConnectionV {
        ConnectionV { catalog: self.catalog.deep_view(), statements: self.statements.deep_view() }
    }
}

/// The test "is no index of this collection".
pub open spec fn outside(db: Seq<char>, coll: Seq<char>) -> spec_fn(IndexInfoV) -> bool {
    |i: IndexInfoV| !(i.db == db && i.coll == coll)
}

/// The session that writing to a collection needs, given the catalog after the collection
/// was made sure of.
pub open spec fn session_for(c: CatalogV, db: Seq<char>, coll: Seq<char>) -> WriteSessionV {
    WriteSessionV {
        db,
        coll,
        find_rowid: c.has_index(db, coll, "_id_"@),
        indexes: without(c.indexes, outside(db, coll)),
    }
}

/// The steps that remove the entries of the row `rowid` from every index of the session.
pub open spec fn delete_steps(s: WriteSessionV, rowid: i64) -> Seq<StepV> {
    Seq::new(
        s.indexes.len(),
        |i: int| StepV::DeleteEntries { db: s.db, coll: s.coll, name: s.indexes[i].name, rowid },
    )
}

/// The steps that enter the document `doc` of the row `rowid` into each of the indexes, in
/// their order; `None` where the description of an index cannot be normalized.
pub open spec fn insert_steps(indexes: Seq<IndexInfoV>, rowid: i64, doc: Val) -> Option<Seq<StepV>>
    decreases indexes.len(),
{
    if indexes.len() == 0 {
        Some(Seq::empty())
    } else {
        let x = indexes.last();
        match (insert_steps(indexes.drop_last(), rowid, doc), normalized(x)) {
            (Some(p), Some((f, w))) => Some(
                p + entry_steps(x, index_entries(doc, f, w, x.options), rowid),
            ),
            _ => None,
        }
    }
}

/// The steps that bring every index of the session in line with the document `doc` of the
/// row `rowid`: the row's old entries leave, then its entries are entered.
pub open spec fn reindex_steps(s: WriteSessionV, rowid: i64, doc: Val) -> Option<Seq<StepV>> {
    match insert_steps(s.indexes, rowid, doc) {
        Some(ins) => Some(delete_steps(s, rowid) + ins),
        None => None,
    }
}

/// The statement that looks up the row of the document with the `_id` value `id`.
pub open spec fn lookup(s: WriteSessionV, id: Val) -> StatementV {
    StatementV {
        sql: sql_find_rowid(index_table(s.db, s.coll, "_id_"@)),
        params: seq![ParamV::Key(seq![(id, false)])],
        expect: Expect::Anything,
    }
}

/// The `_id` of a document, if it has one.
pub open spec fn id_of(doc: Val) -> Option<Val> {
    match doc {
        Val::Document(d) => field(d, "_id"@),
        _ => None,
    }
}

/// Once a prefix of the indexes cannot be entered into, the whole cannot.
proof fn lemma_insert_steps_none(indexes: Seq<IndexInfoV>, i: int, rowid: i64, doc: Val)
    requires
        0 <= i <= indexes.len(),
        insert_steps(indexes.take(i), rowid, doc) is None,
    ensures
        insert_steps(indexes, rowid, doc) is None,
    decreases indexes.len() - i,
{
    if i < indexes.len() {
        assert(indexes.take(i + 1).drop_last() =~= indexes.take(i));
        lemma_insert_steps_none(indexes, i + 1, rowid, doc);
    } else {
        assert(indexes.take(i) =~= indexes);
    }
}

impl WriteSession {
    /// The steps that remove the entries of the row `rowid` from every index.
    pub fn update_indexes_delete(&self, rowid: i64) -> (r: Vec<Step>)
        ensures
            r.deep_view() == delete_steps(self.deep_view(), rowid),
    {
        let mut out: Vec<Step> = Vec::new();
        let mut i: usize = 0;
        while i < self.indexes.len()
            invariant
                i <= self.indexes.len(),
                out.len() == i,
                forall|j: int|
                    0 <= j < i ==> (#[trigger] out[j]).deep_view() == delete_steps(
                        self.deep_view(),
                        rowid,
                    )[j],
            decreases self.indexes.len() - i,
        {
            out.push(
                Step::DeleteEntries {
                    db: self.db.clone(),
                    coll: self.coll.clone(),
                    name: self.indexes[i].name.clone(),
                    rowid,
                },
            );
            i += 1;
        }
        assert(out.deep_view() =~= delete_steps(self.deep_view(), rowid));
        out
    }

    /// The steps that enter the document `v` of the row `rowid` into every index.
    pub fn update_indexes_insert(&self, rowid: i64, v: &Value) -> (r: Result<Vec<Step>, Error>)
        ensures
            match insert_steps(self.deep_view().indexes, rowid, v@) {
                Some(steps) => r is Ok && r->Ok_0.deep_view() == steps,
                None => r is Err && r->Err_0 == Error::BadIndexSpec,
            },
    {
        let ghost all = self.indexes.deep_view();
        let mut out: Vec<Step> = Vec::new();
        let mut i: usize = 0;
        assert(all.take(0) =~= Seq::empty());
        assert(out.deep_view() =~= Seq::empty());
        while i < self.indexes.len()
            invariant
                i <= self.indexes.len(),
                all == self.indexes.deep_view(),
                insert_steps(all.take(i as int), rowid, v@) == Some(out.deep_view()),
            decreases self.indexes.len() - i,
        {
            let info = &self.indexes[i];
            proof {
                assert(all.take(i + 1).drop_last() =~= all.take(i as int));
                assert(all.take(i + 1).last() == info@);
            }
            match get_normalized_spec(info) {
                Err(_) => {
                    proof {
                        lemma_insert_steps_none(all, i + 1, rowid, v@);
                    }
                    return Err(Error::BadIndexSpec);
                },
                Ok((fields, weights)) => {
                    let entries = get_index_entries(v, &fields, &weights, &info.options);
                    let ghost ev = entries.deep_view();
                    let ghost row_steps = entry_steps(info@, ev, rowid);
                    let ghost done = out.deep_view();
                    let mut j: usize = 0;
                    assert(done + row_steps.take(0) =~= done);
                    while j < entries.len()
                        invariant
                            j <= entries.len(),
                            ev == entries.deep_view(),
                            row_steps == entry_steps(info@, ev, rowid),
                            out.deep_view() == done + row_steps.take(j as int),
                        decreases entries.len() - j,
                    {
                        let ghost mid = out.deep_view();
                        let step = Step::InsertEntry {
                            db: info.db.clone(),
                            coll: info.coll.clone(),
                            name: info.name.clone(),
                            key: copy_entry(&entries[j]),
                            rowid,
                        };
                        assert(step.deep_view() == row_steps[j as int]);
                        out.push(step);
                        assert(out.deep_view() =~= mid.push(row_steps[j as int]));
                        assert(done + row_steps.take(j + 1) =~= (done + row_steps.take(
                            j as int,
                        )).push(row_steps[j as int]));
                        j += 1;
                    }
                    assert(row_steps.take(entries.len() as int) =~= row_steps);
                },
            }
            i += 1;
        }
        assert(all.take(self.indexes.len() as int) =~= all);
        Ok(out)
    }

    /// The steps that bring every index in line with the document `v` of the row `rowid`.
    pub fn reindex(&self, rowid: i64, v: &Value) -> (r: Result<Vec<Step>, Error>)
        ensures
            match reindex_steps(self.deep_view(), rowid, v@) {
                Some(steps) => r is Ok && r->Ok_0.deep_view() == steps,
                None => r is Err && r->Err_0 == Error::BadIndexSpec,
            },
    {
        let mut out = self.update_indexes_delete(rowid);
        let ghost deletes = out.deep_view();
        match self.update_indexes_insert(rowid, v) {
            Err(e) => Err(e),
            Ok(mut ins) => {
                let ghost inserts = ins.deep_view();
                out.append(&mut ins);
                assert(out.deep_view() =~= deletes + inserts);
                Ok(out)
            },
        }
    }

    /// The statement that looks up the row of the document with the `_id` value `v`, where
    /// the collection has the index for it.
    pub fn find_rowid(&self, v: &Value) -> (r: Option<Statement>)
        ensures
            self.find_rowid ==> r is Some && r->0.deep_view() == lookup(self.deep_view(), v@),
            !self.find_rowid ==> r is None,
    {
        if !self.find_rowid {
            return None;
        }
        let table = crate::layout::get_table_name_for_index(
            self.db.as_str(),
            self.coll.as_str(),
            "_id_",
        );
        let mut key: Vec<(Value, bool)> = Vec::new();
        key.push((v.copy(), false));
        assert(key.deep_view() =~= seq![(v@, false)]);
        let mut params: Vec<Param> = Vec::new();
        params.push(Param::Key(key));
        assert(params.deep_view() =~= seq![ParamV::Key(seq![(v@, false)])]);
        Some(
            Statement {
                sql: crate::layout::find_rowid(table.as_str()),
                params,
                expect: Expect::Anything,
            },
        )
    }
}

impl Connection {
    /// A connection that knows the given catalog and has no write session.
    pub fn new(catalog: Catalog) -> (r: Connection)
        ensures
            r.catalog == catalog,
            r.statements is None,
    {
        Connection { catalog, statements: None }
    }

    /// Opens the write session for a collection, which is made first where it is missing.
    /// A session that was open before is discarded.
    pub fn prepare_write(&mut self, db: &str, coll: &str, plan: &mut Vec<Step>)
        ensures
            final(plan).deep_view() == old(plan).deep_view() + create_collection_steps(
                old(self).deep_view().catalog,
                db@,
                coll@,
                no_options(),
            ),
            final(self).deep_view().catalog == old(self).deep_view().catalog.run(
                create_collection_steps(old(self).deep_view().catalog, db@, coll@, no_options()),
            ),
            final(self).deep_view().statements == Some(
                session_for(final(self).deep_view().catalog, db@, coll@),
            ),
    {
        let none: Vec<Value> = Vec::new();
        proof {
            crate::value::lemma_array_view(none);
            assert(none.deep_view() =~= Seq::empty());
        }
        let _created = self.catalog.base_create_collection(db, coll, Value::Array(none), plan);
        let find_rowid = self.catalog.get_index_info(db, coll, "_id_").is_some();
        let d = db.to_owned();
        let c = coll.to_owned();
        let ghost all = self.catalog.indexes.deep_view();
        let mut indexes: Vec<IndexInfo> = Vec::new();
        let mut i: usize = 0;
        assert(all.take(0) =~= Seq::empty());
        assert(indexes.deep_view() =~= Seq::empty());
        while i < self.catalog.indexes.len()
            invariant
                i <= self.catalog.indexes.len(),
                all == self.catalog.indexes.deep_view(),
                d@ == db@,
                c@ == coll@,
                indexes.deep_view() == without(all.take(i as int), outside(db@, coll@)),
            decreases self.catalog.indexes.len() - i,
        {
            proof {
                assert(all.take(i + 1).drop_last() =~= all.take(i as int));
                assert(all.take(i + 1).last() == self.catalog.indexes[i as int]@);
            }
            if self.catalog.indexes[i].db == d && self.catalog.indexes[i].coll == c {
                let ghost before = indexes.deep_view();
                indexes.push(self.catalog.indexes[i].clone());
                assert(indexes.deep_view() =~= before.push(self.catalog.indexes[i as int]@));
            }
            i += 1;
        }
        assert(all.take(self.catalog.indexes.len() as int) =~= all);
        self.statements = Some(WriteSession { db: d, coll: c, find_rowid, indexes });
    }

    /// Discards the write session.
    pub fn unprepare_write(&mut self)
        ensures
            final(self).deep_view().catalog == old(self).deep_view().catalog,
            final(self).deep_view().statements is None,
    {
        self.statements = None;
    }

    /// The statement that looks up the row of the document with the `_id` value `v`.
    /// Without a write session there is no lookup; without an index on `_id` there is
    /// nothing to look up.
    pub fn find_rowid(&self, v: &Value) -> (r: Result<Option<Statement>, Error>)
        ensures
            match self.deep_view().statements {
                None => r is Err && r->Err_0 == Error::NoSession,
                Some(s) => r is Ok && if s.find_rowid {
                    r->Ok_0 is Some && r->Ok_0->0.deep_view() == lookup(s, v@)
                } else {
                    r->Ok_0 is None
                },
            },
    {
        match &self.statements {
            None => Err(Error::NoSession),
            Some(s) => Ok(s.find_rowid(v)),
        }
    }

    /// The step that stores the new document `v`.
    pub fn insert(&self, v: Value) -> (r: Result<Step, Error>)
        ensures
            match self.deep_view().statements {
                None => r is Err && r->Err_0 == Error::NoSession,
                Some(s) => r is Ok && r->Ok_0.deep_view() == (StepV::InsertDocument {
                    db: s.db,
                    coll: s.coll,
                    doc: v@,
                }),
            },
    {
        match &self.statements {
            None => Err(Error::NoSession),
            Some(s) => Ok(Step::InsertDocument { db: s.db.clone(), coll: s.coll.clone(), doc: v }),
        }
    }

    /// The steps that follow the storing of the new document `v`, once the backing store
    /// has given it the row `rowid`: every index is brought in line with it.
    pub fn after_insert(&self, rowid: i64, v: &Value) -> (r: Result<Vec<Step>, Error>)
        ensures
            match self.deep_view().statements {
                None => r is Err && r->Err_0 == Error::NoSession,
                Some(s) => match reindex_steps(s, rowid, v@) {
                    Some(steps) => r is Ok && r->Ok_0.deep_view() == steps,
                    None => r is Err && r->Err_0 == Error::BadIndexSpec,
                },
            },
    {
        match &self.statements {
            None => Err(Error::NoSession),
            Some(s) => s.reindex(rowid, v),
        }
    }

    /// The statement that looks up the row which `update` is to replace: the row of the
    /// document with the `_id` of `v`.
    pub fn update_lookup(&self, v: &Value) -> (r: Result<Statement, Error>)
        ensures
            match id_of(v@) {
                None => r is Err && r->Err_0 == Error::UpdateWithoutId,
                Some(id) => match self.deep_view().statements {
                    None => r is Err && r->Err_0 == Error::NoSession,
                    Some(s) => if s.find_rowid {
                        r is Ok && r->Ok_0.deep_view() == lookup(s, id)
                    } else {
                        r is Err && r->Err_0 == Error::UpdateMissing
                    },
                },
            },
    {
        match v.find_key("_id") {
            None => Err(Error::UpdateWithoutId),
            Some(id) => match self.find_rowid(id) {
                Err(e) => Err(e),
                Ok(None) => Err(Error::UpdateMissing),
                Ok(Some(statement)) => Ok(statement),
            },
        }
    }

    /// The steps that replace a stored document by `v`, where `found` is the row that the
    /// lookup gave: the document of the row is replaced, then every index is brought in
    /// line with it.
    pub fn update(&self, v: Value, found: Option<i64>) -> (r: Result<Vec<Step>, Error>)
        ensures
            match (found, self.deep_view().statements) {
                (None, _) => r is Err && r->Err_0 == Error::UpdateMissing,
                (Some(_), None) => r is Err && r->Err_0 == Error::NoSession,
                (Some(rowid), Some(s)) => match reindex_steps(s, rowid, v@) {
                    Some(steps) => r is Ok && r->Ok_0.deep_view() == seq![
                        StepV::UpdateDocument { db: s.db, coll: s.coll, rowid, doc: v@ },
                    ] + steps,
                    None => r is Err && r->Err_0 == Error::BadIndexSpec,
                },
            },
    {
        let rowid = match found {
            None => {
                return Err(Error::UpdateMissing);
            },
            Some(rowid) => rowid,
        };
        match &self.statements {
            None => Err(Error::NoSession),
            Some(s) => match s.reindex(rowid, &v) {
                Err(e) => Err(e),
                Ok(mut steps) => {
                    let ghost tail = steps.deep_view();
                    let ghost first = StepV::UpdateDocument {
                        db: s.db@,
                        coll: s.coll@,
                        rowid,
                        doc: v@,
                    };
                    let mut out: Vec<Step> = Vec::new();
                    out.push(
                        Step::UpdateDocument {
                            db: s.db.clone(),
                            coll: s.coll.clone(),
                            rowid,
                            doc: v,
                        },
                    );
                    assert(out.deep_view() =~= seq![first]);
                    out.append(&mut steps);
                    assert(out.deep_view() =~= seq![first] + tail);
                    Ok(out)
                },
            },
        }
    }

    /// The step that removes a stored document, where `found` is the row that the lookup
    /// gave. Where the lookup gave none, there is nothing to remove.
    pub fn delete(&self, found: Option<i64>) -> (r: Result<Option<Step>, Error>)
        ensures
            match (found, self.deep_view().statements) {
                (None, _) => r is Ok && r->Ok_0 is None,
                (Some(_), None) => r is Err && r->Err_0 == Error::NoSession,
                (Some(rowid), Some(s)) => r is Ok && r->Ok_0 is Some && r->Ok_0->0.deep_view() == (
                StepV::DeleteDocument { db: s.db, coll: s.coll, rowid }),
            },
    {
        let rowid = match found {
            None => {
                return Ok(None);
            },
            Some(rowid) => rowid,
        };
        match &self.statements {
            None => Err(Error::NoSession),
            Some(s) => Ok(
                Some(Step::DeleteDocument { db: s.db.clone(), coll: s.coll.clone(), rowid }),
            ),
        }
    }

    /// What `delete` answers once the removal of the row `rowid` has changed `changes`
    /// rows, and the steps that are left to take: one row means that the document was
    /// removed, and its entries leave every index; no row means that there was none; any
    /// other number is a failure.
    pub fn after_delete(&self, rowid: i64, changes: u64) -> (r: Result<(bool, Vec<Step>), Error>)
        ensures
            match self.deep_view().statements {
                None => r is Err && r->Err_0 == Error::NoSession,
                Some(s) => if changes == 1 {
                    r is Ok && r->Ok_0.0 && r->Ok_0.1.deep_view() == delete_steps(s, rowid)
                } else if changes == 0 {
                    r is Ok && !r->Ok_0.0 && r->Ok_0.1.deep_view() == Seq::<StepV>::empty()
                } else {
                    r is Err && r->Err_0 == Error::WrongChanges
                },
            },
    {
        match &self.statements {
            None => Err(Error::NoSession),
            Some(s) => {
                if changes == 1 {
                    Ok((true, s.update_indexes_delete(rowid)))
                } else if changes == 0 {
                    let none: Vec<Step> = Vec::new();
                    assert(none.deep_view() =~= Seq::empty());
                    Ok((false, none))
                } else {
                    Err(Error::WrongChanges)
                }
            },
        }
    }
}

} // verus!
