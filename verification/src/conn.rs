//! The lifecycle of collections and indexes: what each operation answers, how it changes
//! the catalog, and which steps it asks of the backing store.
//!
//! An operation reads the catalog, appends its steps to a plan and follows them in the
//! catalog, so that the catalog always is what the backing store will hold once the plan
//! has run.

use crate::catalog::{lemma_run_concat, lemma_run_push, Catalog, CatalogV, CollectionV};
use crate::entries::{copy_entry, get_index_entries, index_entries};
use crate::error::Error;
use crate::index::{get_normalized_spec, normalized, IndexInfo, IndexInfoV, IndexType};
use crate::plan::{Step, StepV};
use crate::text::{begins_with, name_parts, split_name, starts_with};
use crate::value::{has_flag, Val, Value};
use vstd::prelude::*;

verus! {

/// The options of a collection that is made without any.
pub open spec fn no_options() -> Val {
    Val::Array(Seq::empty())
}

/// Whether a collection with these options gets an index on `_id` of itself.
pub open spec fn auto_index(options: Val) -> bool {
    !has_flag(options, "autoIndexId"@, false)
}

/// The index on `_id` that a collection gets of itself.
pub open spec fn id_index(db: Seq<char>, coll: Seq<char>) -> IndexInfoV {
    IndexInfoV {
        db,
        coll,
        name: "_id_"@,
        spec: Val::Document(seq![("_id"@, Val::Int32(1))]),
        options: Val::Document(seq![("unique"@, Val::Boolean(true))]),
    }
}

/// The steps that make an index without entries: its record, its table, and the means to
/// find its entries by document.
pub open spec fn new_index_steps(info: IndexInfoV) -> Seq<StepV> {
    seq![
        StepV::InsertIndex { info },
        StepV::CreateIndexTable {
            db: info.db,
            coll: info.coll,
            name: info.name,
            unique: has_flag(info.options, "unique"@, true),
        },
        StepV::CreateChildIndex { db: info.db, coll: info.coll, name: info.name },
    ]
}

/// The steps that make a collection: none where it is there already; else its record and
/// its table and, unless its options decline it, the index on `_id`.
pub open spec fn create_collection_steps(
    c: CatalogV,
    db: Seq<char>,
    coll: Seq<char>,
    options: Val,
) -> Seq<StepV> {
    if c.has_collection(db, coll) {
        Seq::empty()
    } else {
        seq![StepV::InsertCollection { db, coll, options }, StepV::CreateDocs { db, coll }] + (
        if auto_index(options) && !c.has_index(db, coll, "_id_"@) {
            new_index_steps(id_index(db, coll))
        } else {
            Seq::empty()
        })
    }
}

/// One step for each entry, all for the document in the row `rowid`.
pub open spec fn entry_steps(info: IndexInfoV, entries: Seq<Seq<(Val, bool)>>, rowid: i64) -> Seq<
    StepV,
> {
    Seq::new(
        entries.len(),
        |i: int|
            StepV::InsertEntry {
                db: info.db,
                coll: info.coll,
                name: info.name,
                key: entries[i],
                rowid,
            },
    )
}

/// The steps that enter the documents `rows` into an index, row by row.
pub open spec fn backfill(
    info: IndexInfoV,
    fields: Seq<(Seq<char>, IndexType)>,
    weights: Option<Seq<(Seq<char>, i32)>>,
    rows: Seq<(i64, Val)>,
) -> Seq<StepV>
    decreases rows.len(),
{
    if rows.len() == 0 {
        Seq::empty()
    } else {
        backfill(info, fields, weights, rows.drop_last()) + entry_steps(
            info,
            index_entries(rows.last().1, fields, weights, info.options),
            rows.last().0,
        )
    }
}

/// What creating an index answers, and the steps it takes, where `rows` are the documents
/// of its collection. The collection is made first where it is missing. An index of that
/// name with the same keys is left as it is, one with other keys is a conflict, and an
/// index whose description cannot be normalized is refused; else the index is made and
/// every document is entered.
pub open spec fn create_index_outcome(c: CatalogV, info: IndexInfoV, rows: Seq<(i64, Val)>) -> (
    Result<bool, Error>,
    Seq<StepV>,
) {
    let first = create_collection_steps(c, info.db, info.coll, no_options());
    let c1 = c.run(first);
    if c1.has_index(info.db, info.coll, info.name) {
        if c1.index(info.db, info.coll, info.name).spec != info.spec {
            (Err(Error::IndexConflict), first)
        } else {
            (Ok(false), first)
        }
    } else {
        match normalized(info) {
            None => (Err(Error::BadIndexSpec), first),
            Some((f, w)) => (Ok(true), first + new_index_steps(info) + backfill(info, f, w, rows)),
        }
    }
}

/// The documents given for the `i`-th index of a batch; none where none were given.
pub open spec fn rows_at(rows: Seq<Seq<(i64, Val)>>, i: int) -> Seq<(i64, Val)> {
    if 0 <= i < rows.len() {
        rows[i]
    } else {
        Seq::empty()
    }
}

/// What creating the indexes `what[i..]` one after the other answers, and the steps it
/// takes. The first failure ends the batch.
pub open spec fn create_indexes_from(
    c: CatalogV,
    what: Seq<IndexInfoV>,
    rows: Seq<Seq<(i64, Val)>>,
    i: nat,
) -> (Result<Seq<bool>, Error>, Seq<StepV>)
    decreases what.len() - i,
{
    if i >= what.len() {
        (Ok(Seq::empty()), Seq::empty())
    } else {
        let (r, s) = create_index_outcome(c, what[i as int], rows_at(rows, i as int));
        match r {
            Err(e) => (Err(e), s),
            Ok(b) => {
                let (r2, s2) = create_indexes_from(c.run(s), what, rows, i + 1);
                match r2 {
                    Err(e) => (Err(e), s + s2),
                    Ok(bs) => (Ok(seq![b] + bs), s + s2),
                }
            },
        }
    }
}

/// The steps that drop an index: none where it is not recorded.
pub open spec fn drop_index_steps(
    c: CatalogV,
    db: Seq<char>,
    coll: Seq<char>,
    name: Seq<char>,
) -> Seq<StepV> {
    if c.has_index(db, coll, name) {
        seq![StepV::DeleteIndex { db, coll, name }, StepV::DropIndexTable { db, coll, name }]
    } else {
        Seq::empty()
    }
}

/// The steps that drop those of the indexes `list[i..]` that belong to a collection.
pub open spec fn drop_indexes_from(
    c: CatalogV,
    list: Seq<IndexInfoV>,
    i: nat,
    db: Seq<char>,
    coll: Seq<char>,
) -> Seq<StepV>
    decreases list.len() - i,
{
    if i >= list.len() {
        Seq::empty()
    } else {
        let x = list[i as int];
        let s = if x.db == db && x.coll == coll {
            drop_index_steps(c, x.db, x.coll, x.name)
        } else {
            Seq::empty()
        };
        s + drop_indexes_from(c.run(s), list, i + 1, db, coll)
    }
}

/// The steps that drop a collection: none where it is not recorded; else its indexes
/// first, then its record and its table.
pub open spec fn drop_collection_steps(c: CatalogV, db: Seq<char>, coll: Seq<char>) -> Seq<StepV> {
    if c.has_collection(db, coll) {
        drop_indexes_from(c, c.indexes, 0, db, coll) + seq![
            StepV::DeleteCollection { db, coll },
            StepV::DropDocs { db, coll },
        ]
    } else {
        Seq::empty()
    }
}

/// The steps that drop those of the collections `list[i..]` that belong to a database.
pub open spec fn drop_database_from(c: CatalogV, list: Seq<CollectionV>, i: nat, db: Seq<char>) -> Seq<
    StepV,
>
    decreases list.len() - i,
{
    if i >= list.len() {
        Seq::empty()
    } else {
        let x = list[i as int];
        let s = if x.db == db {
            drop_collection_steps(c, x.db, x.coll)
        } else {
            Seq::empty()
        };
        s + drop_database_from(c.run(s), list, i + 1, db)
    }
}

/// Whether a collection name is reserved for the system and so cannot take part in a
/// rename: it begins with `system.` and is not `system.users`.
pub open spec fn reserved(coll: Seq<char>) -> bool {
    coll != "system.users"@ && starts_with(coll, "system."@)
}

/// The steps that move the tables of those of the indexes `list[i..]` that belong to the
/// collection `db`.`coll`.
pub open spec fn rename_index_tables(
    list: Seq<IndexInfoV>,
    i: nat,
    db: Seq<char>,
    coll: Seq<char>,
    new_db: Seq<char>,
    new_coll: Seq<char>,
) -> Seq<StepV>
    decreases list.len() - i,
{
    if i >= list.len() {
        Seq::empty()
    } else {
        let x = list[i as int];
        let s = if x.db == db && x.coll == coll {
            seq![StepV::RenameIndexTable { db, coll, name: x.name, new_db, new_coll }]
        } else {
            Seq::empty()
        };
        s + rename_index_tables(list, i + 1, db, coll, new_db, new_coll)
    }
}

/// What renaming a collection answers, and the steps it takes.
///
/// A name without a database part and a reserved collection name on either side are
/// refused. A target that is to be dropped is dropped first. Where the source is missing,
/// the target is made, and the answer says whether it was. Else the record of the source
/// moves, with those of its indexes, and so do its table and the tables of its indexes.
pub open spec fn rename_outcome(
    c: CatalogV,
    old_name: Seq<char>,
    new_name: Seq<char>,
    drop_target: bool,
) -> (Result<bool, Error>, Seq<StepV>) {
    match (name_parts(old_name), name_parts(new_name)) {
        (Some((db, coll)), Some((new_db, new_coll))) => {
            if reserved(coll) || reserved(new_coll) {
                (Err(Error::SystemRename), Seq::empty())
            } else {
                let d = if drop_target {
                    drop_collection_steps(c, new_db, new_coll)
                } else {
                    Seq::empty()
                };
                let c1 = c.run(d);
                if c1.has_collection(db, coll) {
                    (
                        Ok(false),
                        d + seq![
                            StepV::RenameCollection { db, coll, new_db, new_coll },
                            StepV::RenameDocs { db, coll, new_db, new_coll },
                        ] + rename_index_tables(c1.indexes, 0, db, coll, new_db, new_coll),
                    )
                } else {
                    (
                        Ok(!c1.has_collection(new_db, new_coll)),
                        d + create_collection_steps(c1, new_db, new_coll, no_options()),
                    )
                }
            }
        },
        _ => (Err(Error::BadName), Seq::empty()),
    }
}

/// The steps that clear a collection: where it is recorded, it is dropped with its indexes
/// and made anew with the options it had; else it is made without options.
pub open spec fn clear_collection_steps(c: CatalogV, db: Seq<char>, coll: Seq<char>) -> Seq<StepV> {
    if c.has_collection(db, coll) {
        let d = drop_collection_steps(c, db, coll);
        d + create_collection_steps(c.run(d), db, coll, c.collection(db, coll).options)
    } else {
        create_collection_steps(c, db, coll, no_options())
    }
}

/// The step that ends a transaction: it is kept where all went well, undone otherwise.
pub fn finish_tx(ok: bool) -> (r: Step)
    ensures
        r.deep_view() == if ok {
            StepV::Commit
        } else {
            StepV::Rollback
        },
{
    if ok {
        Step::Commit
    } else {
        Step::Rollback
    }
}

/// The step that opens a transaction for reading.
pub fn begin_tx() -> (r: Step)
    ensures
        r.deep_view() == StepV::Begin,
{
    Step::Begin
}

/// The step that opens a transaction for writing, which keeps other writers out.
pub fn begin_write_tx() -> (r: Step)
    ensures
        r.deep_view() == StepV::BeginImmediate,
{
    Step::BeginImmediate
}

/// The step that keeps what a transaction did.
pub fn commit_tx() -> (r: Step)
    ensures
        r.deep_view() == StepV::Commit,
{
    Step::Commit
}

/// The step that undoes what a transaction did.
pub fn rollback_tx() -> (r: Step)
    ensures
        r.deep_view() == StepV::Rollback,
{
    Step::Rollback
}

/// A statement that changes data must hand back no row.
pub fn step_done(returned_row: bool) -> (r: Result<(), Error>)
    ensures
        r == if returned_row {
            Err::<(), Error>(Error::UnexpectedRow)
        } else {
            Ok::<(), Error>(())
        },
{
    if returned_row {
        Err(Error::UnexpectedRow)
    } else {
        Ok(())
    }
}

/// A statement must have changed as many rows as it had to.
pub fn verify_changes(changes: u64, shouldbe: u64) -> (r: Result<(), Error>)
    ensures
        r == if changes == shouldbe {
            Ok::<(), Error>(())
        } else {
            Err::<(), Error>(Error::WrongChanges)
        },
{
    if changes == shouldbe {
        Ok(())
    } else {
        Err(Error::WrongChanges)
    }
}

/// Whether a collection name is reserved for the system.
pub fn is_reserved(coll: &str) -> (r: bool)
    ensures
        r == reserved(coll@),
{
    let users = "system.users".to_owned();
    let given = coll.to_owned();
    !(given == users) && begins_with(coll, "system.")
}

impl Catalog {
    /// Appends a step to the plan and follows it in the catalog.
    fn emit(&mut self, plan: &mut Vec<Step>, step: Step)
        ensures
            final(plan).deep_view() == old(plan).deep_view().push(step.deep_view()),
            final(self).deep_view() == old(self).deep_view().apply(step.deep_view()),
    {
        let ghost before = plan.deep_view();
        self.apply(&step);
        plan.push(step);
        assert(plan.deep_view() =~= before.push(step.deep_view()));
    }

    /// Makes an index without entries.
    fn new_index(&mut self, info: IndexInfo, plan: &mut Vec<Step>)
        ensures
            final(plan).deep_view() == old(plan).deep_view() + new_index_steps(info@),
            final(self).deep_view() == old(self).deep_view().run(new_index_steps(info@)),
    {
        let ghost c0 = self.deep_view();
        let ghost p0 = plan.deep_view();
        let ghost steps = new_index_steps(info@);
        let unique = info.options.flag_is("unique", true);
        let table = Step::CreateIndexTable {
            db: info.db.clone(),
            coll: info.coll.clone(),
            name: info.name.clone(),
            unique,
        };
        let child = Step::CreateChildIndex {
            db: info.db.clone(),
            coll: info.coll.clone(),
            name: info.name.clone(),
        };
        self.emit(plan, Step::InsertIndex { info });
        self.emit(plan, table);
        self.emit(plan, child);
        proof {
            assert(plan.deep_view() =~= p0 + steps);
            assert(steps.drop_last().drop_last() =~= seq![steps[0]]);
            crate::catalog::lemma_run_one(c0, steps[0]);
            assert(steps.drop_last().last() == steps[1]);
            assert(c0.run(steps.drop_last()) == c0.run(steps.drop_last().drop_last()).apply(
                steps[1],
            ));
        }
    }

    /// Makes sure that a collection is there. Answers whether it had to be made.
    pub fn base_create_collection(
        &mut self,
        db: &str,
        coll: &str,
        options: Value,
        plan: &mut Vec<Step>,
    ) -> (created: bool)
        ensures
            created == !old(self).deep_view().has_collection(db@, coll@),
            final(plan).deep_view() == old(plan).deep_view() + create_collection_steps(
                old(self).deep_view(),
                db@,
                coll@,
                options@,
            ),
            final(self).deep_view() == old(self).deep_view().run(
                create_collection_steps(old(self).deep_view(), db@, coll@, options@),
            ),
    {
        let ghost c0 = self.deep_view();
        let ghost p0 = plan.deep_view();
        let ghost steps = create_collection_steps(c0, db@, coll@, options@);
        if self.get_collection_options(db, coll).is_some() {
            assert(p0 + steps =~= p0);
            return false;
        }
        let auto = !options.flag_is("autoIndexId", false);
        let wanted = auto && self.get_index_info(db, coll, "_id_").is_none();
        let ghost head = seq![
            StepV::InsertCollection { db: db@, coll: coll@, options: options@ },
            StepV::CreateDocs { db: db@, coll: coll@ },
        ];
        self.emit(plan, Step::InsertCollection { db: db.to_owned(), coll: coll.to_owned(), options });
        self.emit(plan, Step::CreateDocs { db: db.to_owned(), coll: coll.to_owned() });
        proof {
            assert(plan.deep_view() =~= p0 + head);
            assert(head.drop_last() =~= seq![head[0]]);
            crate::catalog::lemma_run_one(c0, head[0]);
            assert(self.deep_view() == c0.run(head));
        }
        if wanted {
            let mut keys: Vec<(String, Value)> = Vec::new();
            keys.push(("_id".to_owned(), Value::Int32(1)));
            let mut opts: Vec<(String, Value)> = Vec::new();
            opts.push(("unique".to_owned(), Value::Boolean(true)));
            proof {
                crate::value::lemma_document_view(keys);
                crate::value::lemma_document_view(opts);
                assert(keys.deep_view() =~= seq![("_id"@, Val::Int32(1))]);
                assert(opts.deep_view() =~= seq![("unique"@, Val::Boolean(true))]);
            }
            let info = IndexInfo {
                db: db.to_owned(),
                coll: coll.to_owned(),
                name: "_id_".to_owned(),
                spec: Value::Document(keys),
                options: Value::Document(opts),
            };
            assert(info@ == id_index(db@, coll@));
            self.new_index(info, plan);
            proof {
                lemma_run_concat(c0, head, new_index_steps(id_index(db@, coll@)));
                assert(plan.deep_view() =~= p0 + steps);
            }
        } else {
            assert(head + Seq::<StepV>::empty() =~= head);
        }
        true
    }

    /// Enters the documents `rows` into an index with the given normal form.
    fn fill_index(
        &mut self,
        info: &IndexInfo,
        fields: &Vec<(String, IndexType)>,
        weights: &Option<Vec<(String, i32)>>,
        rows: &Vec<(i64, Value)>,
        plan: &mut Vec<Step>,
    )
        ensures
            final(plan).deep_view() == old(plan).deep_view() + backfill(
                info@,
                fields.deep_view(),
                weights.deep_view(),
                rows.deep_view(),
            ),
            final(self).deep_view() == old(self).deep_view(),
    {
        let ghost c0 = self.deep_view();
        let ghost p0 = plan.deep_view();
        let ghost rv = rows.deep_view();
        let ghost fv = fields.deep_view();
        let ghost wv = weights.deep_view();
        let mut i: usize = 0;
        assert(rv.take(0) =~= Seq::empty());
        assert(p0 + Seq::<StepV>::empty() =~= p0);
        while i < rows.len()
            invariant
                i <= rows.len(),
                rv == rows.deep_view(),
                fv == fields.deep_view(),
                wv == weights.deep_view(),
                self.deep_view() == c0,
                plan.deep_view() == p0 + backfill(info@, fv, wv, rv.take(i as int)),
            decreases rows.len() - i,
        {
            proof {
                assert(rv.take(i + 1).drop_last() =~= rv.take(i as int));
                assert(rv.take(i + 1).last() == (rows[i as int].0, rows[i as int].1@));
            }
            let rowid = rows[i].0;
            let entries = get_index_entries(&rows[i].1, fields, weights, &info.options);
            let ghost ev = entries.deep_view();
            let ghost row_steps = entry_steps(info@, ev, rowid);
            let ghost done = plan.deep_view();
            let mut j: usize = 0;
            assert(row_steps.take(0) =~= Seq::empty());
            assert(done + Seq::<StepV>::empty() =~= done);
            while j < entries.len()
                invariant
                    j <= entries.len(),
                    ev == entries.deep_view(),
                    row_steps == entry_steps(info@, ev, rowid),
                    self.deep_view() == c0,
                    plan.deep_view() == done + row_steps.take(j as int),
                decreases entries.len() - j,
            {
                let step = Step::InsertEntry {
                    db: info.db.clone(),
                    coll: info.coll.clone(),
                    name: info.name.clone(),
                    key: copy_entry(&entries[j]),
                    rowid,
                };
                assert(step.deep_view() == row_steps[j as int]);
                self.emit(plan, step);
                assert(done + row_steps.take(j + 1) =~= (done + row_steps.take(j as int)).push(
                    row_steps[j as int],
                ));
                j += 1;
            }
            assert(row_steps.take(entries.len() as int) =~= row_steps);
            assert(p0 + (backfill(info@, fv, wv, rv.take(i as int)) + row_steps) =~= (p0 + backfill(
                info@,
                fv,
                wv,
                rv.take(i as int),
            )) + row_steps);
            i += 1;
        }
        assert(rv.take(rows.len() as int) =~= rv);
    }

    /// Creates an index, where `rows` are the documents that its collection holds. Answers
    /// whether the index had to be made.
    pub fn create_index(&mut self, info: IndexInfo, rows: &Vec<(i64, Value)>, plan: &mut Vec<Step>) -> (r:
        Result<bool, Error>)
        ensures
            r == create_index_outcome(old(self).deep_view(), info@, rows.deep_view()).0,
            final(plan).deep_view() == old(plan).deep_view() + create_index_outcome(
                old(self).deep_view(),
                info@,
                rows.deep_view(),
            ).1,
            final(self).deep_view() == old(self).deep_view().run(
                create_index_outcome(old(self).deep_view(), info@, rows.deep_view()).1,
            ),
    {
        let ghost c0 = self.deep_view();
        let ghost p0 = plan.deep_view();
        let ghost first = create_collection_steps(c0, info.db@, info.coll@, no_options());
        let none: Vec<Value> = Vec::new();
        proof {
            crate::value::lemma_array_view(none);
            assert(none.deep_view() =~= Seq::empty());
        }
        let _created = self.base_create_collection(
            info.db.as_str(),
            info.coll.as_str(),
            Value::Array(none),
            plan,
        );
        let same_keys = match self.get_index_info(
            info.db.as_str(),
            info.coll.as_str(),
            info.name.as_str(),
        ) {
            Some(already) => Some(already.spec.same(&info.spec)),
            None => None,
        };
        match same_keys {
            Some(same) => {
                if same {
                    Ok(false)
                } else {
                    Err(Error::IndexConflict)
                }
            },
            None => match get_normalized_spec(&info) {
                Err(_) => Err(Error::BadIndexSpec),
                Ok((fields, weights)) => {
                    let copy = info.clone();
                    self.new_index(copy, plan);
                    self.fill_index(&info, &fields, &weights, rows, plan);
                    proof {
                        let made = new_index_steps(info@);
                        let filled = backfill(
                            info@,
                            fields.deep_view(),
                            weights.deep_view(),
                            rows.deep_view(),
                        );
                        assert(plan.deep_view() =~= p0 + (first + made + filled));
                        lemma_run_concat(c0, first, made);
                        lemma_backfill_inert(
                            info@,
                            fields.deep_view(),
                            weights.deep_view(),
                            rows.deep_view(),
                        );
                        lemma_run_inert(c0.run(first + made), filled);
                        lemma_run_concat(c0, first + made, filled);
                    }
                    Ok(true)
                },
            },
        }
    }

    /// Creates the indexes `what`, one after the other. `rows[i]` are the documents that
    /// the collection of `what[i]` holds. Answers for each index whether it had to be made;
    /// the first failure ends the batch.
    pub fn base_create_indexes(
        &mut self,
        what: Vec<IndexInfo>,
        rows: &Vec<Vec<(i64, Value)>>,
        plan: &mut Vec<Step>,
    ) -> (r: Result<Vec<bool>, Error>)
        ensures
            match create_indexes_from(old(self).deep_view(), what.deep_view(), rows.deep_view(), 0).0 {
                Ok(bs) => r is Ok && r->Ok_0@ == bs,
                Err(e) => r is Err && r->Err_0 == e,
            },
            final(plan).deep_view() == old(plan).deep_view() + create_indexes_from(
                old(self).deep_view(),
                what.deep_view(),
                rows.deep_view(),
                0,
            ).1,
            final(self).deep_view() == old(self).deep_view().run(
                create_indexes_from(old(self).deep_view(), what.deep_view(), rows.deep_view(), 0).1,
            ),
    {
        let ghost c0 = self.deep_view();
        let ghost p0 = plan.deep_view();
        let ghost wv = what.deep_view();
        let ghost rv = rows.deep_view();
        let ghost total = create_indexes_from(c0, wv, rv, 0);
        let ghost mut done: Seq<StepV> = Seq::empty();
        let none: Vec<(i64, Value)> = Vec::new();
        assert(none.deep_view() =~= Seq::empty());
        let mut v: Vec<bool> = Vec::new();
        let mut i: usize = 0;
        proof {
            assert(p0 + done =~= p0);
            assert(done + total.1 =~= total.1);
            if total.0 is Ok {
                assert(v@ + total.0->Ok_0 =~= total.0->Ok_0);
            }
        }
        while i < what.len()
            invariant
                i <= what.len(),
                wv == what.deep_view(),
                rv == rows.deep_view(),
                none.deep_view() == Seq::<(i64, Val)>::empty(),
                c0 == old(self).deep_view(),
                p0 == old(plan).deep_view(),
                total == create_indexes_from(c0, wv, rv, 0),
                plan.deep_view() == p0 + done,
                self.deep_view() == c0.run(done),
                total.1 == done + create_indexes_from(self.deep_view(), wv, rv, i as nat).1,
                match create_indexes_from(self.deep_view(), wv, rv, i as nat).0 {
                    Ok(bs) => total.0 is Ok && total.0->Ok_0 == v@ + bs,
                    Err(e) => total.0 == Err::<Seq<bool>, Error>(e),
                },
            decreases what.len() - i,
        {
            let ghost c = self.deep_view();
            let ghost rest = create_indexes_from(c, wv, rv, i as nat);
            let given = if i < rows.len() {
                &rows[i]
            } else {
                &none
            };
            assert(given.deep_view() == rows_at(rv, i as int));
            let ghost one = create_index_outcome(c, wv[i as int], rows_at(rv, i as int));
            let info = what[i].clone();
            assert(info@ == wv[i as int]);
            let r = self.create_index(info, given, plan);
            proof {
                lemma_run_concat(c0, done, one.1);
                assert(p0 + done + one.1 =~= p0 + (done + one.1));
            }
            match r {
                Err(e) => {
                    proof {
                        assert(rest.1 == one.1);
                    }
                    return Err(e);
                },
                Ok(b) => {
                    proof {
                        let next = create_indexes_from(c.run(one.1), wv, rv, (i + 1) as nat);
                        assert(rest.1 == one.1 + next.1);
                        assert(done + (one.1 + next.1) =~= (done + one.1) + next.1);
                        if next.0 is Ok {
                            assert(v@ + (seq![b] + next.0->Ok_0) =~= v@.push(b) + next.0->Ok_0);
                        }
                        done = done + one.1;
                    }
                    v.push(b);
                },
            }
            i += 1;
        }
        proof {
            assert(done + Seq::<StepV>::empty() =~= done);
            assert(v@ + Seq::<bool>::empty() =~= v@);
        }
        Ok(v)
    }

    /// Drops an index. Answers whether it was there.
    pub fn base_drop_index(&mut self, db: &str, coll: &str, name: &str, plan: &mut Vec<Step>) -> (existed:
        bool)
        ensures
            existed == old(self).deep_view().has_index(db@, coll@, name@),
            final(plan).deep_view() == old(plan).deep_view() + drop_index_steps(
                old(self).deep_view(),
                db@,
                coll@,
                name@,
            ),
            final(self).deep_view() == old(self).deep_view().run(
                drop_index_steps(old(self).deep_view(), db@, coll@, name@),
            ),
    {
        let ghost c0 = self.deep_view();
        let ghost p0 = plan.deep_view();
        if self.get_index_info(db, coll, name).is_none() {
            assert(p0 + Seq::<StepV>::empty() =~= p0);
            return false;
        }
        let ghost steps = drop_index_steps(c0, db@, coll@, name@);
        self.emit(
            plan,
            Step::DeleteIndex { db: db.to_owned(), coll: coll.to_owned(), name: name.to_owned() },
        );
        self.emit(
            plan,
            Step::DropIndexTable { db: db.to_owned(), coll: coll.to_owned(), name: name.to_owned() },
        );
        proof {
            assert(plan.deep_view() =~= p0 + steps);
            assert(steps.drop_last() =~= seq![steps[0]]);
            crate::catalog::lemma_run_one(c0, steps[0]);
        }
        true
    }

    /// Drops a collection with all its indexes. Answers whether it was there.
    pub fn base_drop_collection(&mut self, db: &str, coll: &str, plan: &mut Vec<Step>) -> (existed: bool)
        ensures
            existed == old(self).deep_view().has_collection(db@, coll@),
            final(plan).deep_view() == old(plan).deep_view() + drop_collection_steps(
                old(self).deep_view(),
                db@,
                coll@,
            ),
            final(self).deep_view() == old(self).deep_view().run(
                drop_collection_steps(old(self).deep_view(), db@, coll@),
            ),
    {
        let ghost c0 = self.deep_view();
        let ghost p0 = plan.deep_view();
        if self.get_collection_options(db, coll).is_none() {
            assert(p0 + Seq::<StepV>::empty() =~= p0);
            return false;
        }
        let indexes = self.base_list_indexes();
        let ghost list = indexes.deep_view();
        let ghost total = drop_indexes_from(c0, list, 0, db@, coll@);
        let ghost mut done: Seq<StepV> = Seq::empty();
        let d = db.to_owned();
        let c = coll.to_owned();
        let mut i: usize = 0;
        proof {
            assert(p0 + done =~= p0);
            assert(done + total =~= total);
        }
        while i < indexes.len()
            invariant
                i <= indexes.len(),
                list == indexes.deep_view(),
                d@ == db@,
                c@ == coll@,
                plan.deep_view() == p0 + done,
                self.deep_view() == c0.run(done),
                total == done + drop_indexes_from(self.deep_view(), list, i as nat, db@, coll@),
            decreases indexes.len() - i,
        {
            let ghost cur = self.deep_view();
            assert(list[i as int] == indexes[i as int]@);
            if indexes[i].db == d && indexes[i].coll == c {
                let ghost s = drop_index_steps(cur, db@, coll@, indexes[i as int].name@);
                self.base_drop_index(db, coll, indexes[i].name.as_str(), plan);
                proof {
                    lemma_run_concat(c0, done, s);
                    assert(p0 + done + s =~= p0 + (done + s));
                    assert(done + (s + drop_indexes_from(
                        cur.run(s),
                        list,
                        (i + 1) as nat,
                        db@,
                        coll@,
                    )) =~= (done + s) + drop_indexes_from(
                        cur.run(s),
                        list,
                        (i + 1) as nat,
                        db@,
                        coll@,
                    ));
                    done = done + s;
                }
            } else {
                proof {
                    let s = Seq::<StepV>::empty();
                    assert(cur.run(s) == cur);
                    assert(s + drop_indexes_from(cur, list, (i + 1) as nat, db@, coll@)
                        =~= drop_indexes_from(cur, list, (i + 1) as nat, db@, coll@));
                }
            }
            i += 1;
        }
        let ghost tail = seq![
            StepV::DeleteCollection { db: db@, coll: coll@ },
            StepV::DropDocs { db: db@, coll: coll@ },
        ];
        self.emit(plan, Step::DeleteCollection { db: db.to_owned(), coll: coll.to_owned() });
        self.emit(plan, Step::DropDocs { db: db.to_owned(), coll: coll.to_owned() });
        proof {
            assert(done + Seq::<StepV>::empty() =~= done);
            assert(plan.deep_view() =~= p0 + (total + tail));
            assert(tail.drop_last() =~= seq![tail[0]]);
            crate::catalog::lemma_run_one(c0.run(total), tail[0]);
            lemma_run_concat(c0, total, tail);
        }
        true
    }

    /// Drops every collection of a database. Answers whether there was any.
    pub fn base_drop_database(&mut self, db: &str, plan: &mut Vec<Step>) -> (any: bool)
        ensures
            any == exists|i: int|
                0 <= i < old(self).deep_view().collections.len() && (
                #[trigger] old(self).deep_view().collections[i]).db == db@,
            final(plan).deep_view() == old(plan).deep_view() + drop_database_from(
                old(self).deep_view(),
                old(self).deep_view().collections,
                0,
                db@,
            ),
            final(self).deep_view() == old(self).deep_view().run(
                drop_database_from(old(self).deep_view(), old(self).deep_view().collections, 0, db@),
            ),
    {
        let ghost c0 = self.deep_view();
        let ghost p0 = plan.deep_view();
        let collections = self.base_list_collections();
        let ghost list = collections.deep_view();
        let ghost total = drop_database_from(c0, list, 0, db@);
        let ghost mut done: Seq<StepV> = Seq::empty();
        let d = db.to_owned();
        let mut b = false;
        let mut i: usize = 0;
        proof {
            assert(p0 + done =~= p0);
            assert(done + total =~= total);
        }
        while i < collections.len()
            invariant
                i <= collections.len(),
                list == collections.deep_view(),
                list == c0.collections,
                d@ == db@,
                plan.deep_view() == p0 + done,
                self.deep_view() == c0.run(done),
                total == done + drop_database_from(self.deep_view(), list, i as nat, db@),
                b == exists|k: int| 0 <= k < i && (#[trigger] list[k]).db == db@,
            decreases collections.len() - i,
        {
            let ghost cur = self.deep_view();
            assert(list[i as int] == collections[i as int].deep_view());
            if collections[i].db == d {
                let ghost s = drop_collection_steps(cur, db@, collections[i as int].coll@);
                self.base_drop_collection(db, collections[i].coll.as_str(), plan);
                proof {
                    lemma_run_concat(c0, done, s);
                    assert(p0 + done + s =~= p0 + (done + s));
                    assert(done + (s + drop_database_from(cur.run(s), list, (i + 1) as nat, db@))
                        =~= (done + s) + drop_database_from(cur.run(s), list, (i + 1) as nat, db@));
                    done = done + s;
                }
                b = true;
            } else {
                proof {
                    let s = Seq::<StepV>::empty();
                    assert(cur.run(s) == cur);
                    assert(s + drop_database_from(cur, list, (i + 1) as nat, db@)
                        =~= drop_database_from(cur, list, (i + 1) as nat, db@));
                }
            }
            i += 1;
        }
        proof {
            assert(done + Seq::<StepV>::empty() =~= done);
        }
        b
    }

    /// Renames a collection, given both full names. Answers whether the target had to be
    /// made because the source was missing.
    pub fn base_rename_collection(
        &mut self,
        old_name: &str,
        new_name: &str,
        drop_target: bool,
        plan: &mut Vec<Step>,
    ) -> (r: Result<bool, Error>)
        ensures
            r == rename_outcome(old(self).deep_view(), old_name@, new_name@, drop_target).0,
            final(plan).deep_view() == old(plan).deep_view() + rename_outcome(
                old(self).deep_view(),
                old_name@,
                new_name@,
                drop_target,
            ).1,
            final(self).deep_view() == old(self).deep_view().run(
                rename_outcome(old(self).deep_view(), old_name@, new_name@, drop_target).1,
            ),
    {
        let ghost c0 = self.deep_view();
        let ghost p0 = plan.deep_view();
        assert(p0 + Seq::<StepV>::empty() =~= p0);
        let (old_db, old_coll) = match split_name(old_name) {
            Some(parts) => parts,
            None => {
                return Err(Error::BadName);
            },
        };
        let (new_db, new_coll) = match split_name(new_name) {
            Some(parts) => parts,
            None => {
                return Err(Error::BadName);
            },
        };
        if is_reserved(old_coll.as_str()) {
            return Err(Error::SystemRename);
        }
        if is_reserved(new_coll.as_str()) {
            return Err(Error::SystemRename);
        }
        let ghost d = if drop_target {
            drop_collection_steps(c0, new_db@, new_coll@)
        } else {
            Seq::empty()
        };
        if drop_target {
            let _deleted = self.base_drop_collection(new_db.as_str(), new_coll.as_str(), plan);
        }
        let ghost c1 = self.deep_view();
        assert(c1 == c0.run(d));
        assert(plan.deep_view() == p0 + d);
        if self.get_collection_options(old_db.as_str(), old_coll.as_str()).is_none() {
            let none: Vec<Value> = Vec::new();
            proof {
                crate::value::lemma_array_view(none);
                assert(none.deep_view() =~= Seq::empty());
            }
            let ghost s = create_collection_steps(c1, new_db@, new_coll@, no_options());
            let created = self.base_create_collection(
                new_db.as_str(),
                new_coll.as_str(),
                Value::Array(none),
                plan,
            );
            proof {
                lemma_run_concat(c0, d, s);
                assert(p0 + d + s =~= p0 + (d + s));
            }
            return Ok(created);
        }
        let indexes = self.base_list_indexes();
        let ghost list = indexes.deep_view();
        let ghost head = seq![
            StepV::RenameCollection {
                db: old_db@,
                coll: old_coll@,
                new_db: new_db@,
                new_coll: new_coll@,
            },
            StepV::RenameDocs { db: old_db@, coll: old_coll@, new_db: new_db@, new_coll: new_coll@ },
        ];
        let ghost tables = rename_index_tables(list, 0, old_db@, old_coll@, new_db@, new_coll@);
        self.emit(
            plan,
            Step::RenameCollection {
                db: old_db.clone(),
                coll: old_coll.clone(),
                new_db: new_db.clone(),
                new_coll: new_coll.clone(),
            },
        );
        self.emit(
            plan,
            Step::RenameDocs {
                db: old_db.clone(),
                coll: old_coll.clone(),
                new_db: new_db.clone(),
                new_coll: new_coll.clone(),
            },
        );
        let ghost c2 = self.deep_view();
        proof {
            assert(plan.deep_view() =~= p0 + d + head);
            assert(head.drop_last() =~= seq![head[0]]);
            crate::catalog::lemma_run_one(c1, head[0]);
            assert(c2 == c1.run(head));
        }
        let ghost mut done: Seq<StepV> = Seq::empty();
        let mut i: usize = 0;
        proof {
            assert(done + tables =~= tables);
            assert(p0 + d + head + done =~= p0 + d + head);
        }
        while i < indexes.len()
            invariant
                i <= indexes.len(),
                list == indexes.deep_view(),
                plan.deep_view() == p0 + d + head + done,
                self.deep_view() == c2,
                c2.run(done) == c2,
                tables == done + rename_index_tables(
                    list,
                    i as nat,
                    old_db@,
                    old_coll@,
                    new_db@,
                    new_coll@,
                ),
            decreases indexes.len() - i,
        {
            assert(list[i as int] == indexes[i as int]@);
            let ghost rest = rename_index_tables(
                list,
                (i + 1) as nat,
                old_db@,
                old_coll@,
                new_db@,
                new_coll@,
            );
            if indexes[i].db == old_db && indexes[i].coll == old_coll {
                let step = Step::RenameIndexTable {
                    db: old_db.clone(),
                    coll: old_coll.clone(),
                    name: indexes[i].name.clone(),
                    new_db: new_db.clone(),
                    new_coll: new_coll.clone(),
                };
                let ghost sv = step.deep_view();
                self.emit(plan, step);
                proof {
                    lemma_run_push(c2, done, sv);
                    assert(done + (seq![sv] + rest) =~= done.push(sv) + rest);
                    assert(p0 + d + head + done.push(sv) =~= (p0 + d + head + done).push(sv));
                    done = done.push(sv);
                }
            } else {
                assert(Seq::<StepV>::empty() + rest =~= rest);
            }
            i += 1;
        }
        proof {
            assert(done + Seq::<StepV>::empty() =~= done);
            assert(p0 + d + head + tables =~= p0 + (d + head + tables));
            lemma_run_concat(c0, d, head);
            lemma_run_concat(c0, d + head, tables);
        }
        Ok(false)
    }

    /// Clears a collection: afterwards it is there and holds no document. Answers whether
    /// it had to be made because it was missing.
    pub fn base_clear_collection(&mut self, db: &str, coll: &str, plan: &mut Vec<Step>) -> (created: bool)
        ensures
            created == !old(self).deep_view().has_collection(db@, coll@),
            final(plan).deep_view() == old(plan).deep_view() + clear_collection_steps(
                old(self).deep_view(),
                db@,
                coll@,
            ),
            final(self).deep_view() == old(self).deep_view().run(
                clear_collection_steps(old(self).deep_view(), db@, coll@),
            ),
    {
        let ghost c0 = self.deep_view();
        let ghost p0 = plan.deep_view();
        let kept = match self.get_collection_options(db, coll) {
            Some(options) => Some(options.copy()),
            None => None,
        };
        match kept {
            None => {
                let none: Vec<Value> = Vec::new();
                proof {
                    crate::value::lemma_array_view(none);
                    assert(none.deep_view() =~= Seq::empty());
                }
                self.base_create_collection(db, coll, Value::Array(none), plan)
            },
            Some(options) => {
                let ghost d = drop_collection_steps(c0, db@, coll@);
                let ghost s = create_collection_steps(c0.run(d), db@, coll@, options@);
                self.base_drop_collection(db, coll, plan);
                self.base_create_collection(db, coll, options, plan);
                proof {
                    lemma_run_concat(c0, d, s);
                    assert(p0 + d + s =~= p0 + (d + s));
                }
                false
            },
        }
    }
}

/// Entering documents into an index takes no other steps than entering entries.
pub proof fn lemma_backfill_inert(
    info: IndexInfoV,
    fields: Seq<(Seq<char>, IndexType)>,
    weights: Option<Seq<(Seq<char>, i32)>>,
    rows: Seq<(i64, Val)>,
)
    ensures
        forall|i: int|
            0 <= i < backfill(info, fields, weights, rows).len() ==> #[trigger] backfill(
                info,
                fields,
                weights,
                rows,
            )[i] is InsertEntry,
    decreases rows.len(),
{
    if rows.len() > 0 {
        lemma_backfill_inert(info, fields, weights, rows.drop_last());
    }
}

/// Steps that enter documents into an index leave the catalog as it is.
pub proof fn lemma_run_inert(c: CatalogV, steps: Seq<StepV>)
    requires
        forall|i: int| 0 <= i < steps.len() ==> #[trigger] steps[i] is InsertEntry,
    ensures
        c.run(steps) == c,
    decreases steps.len(),
{
    if steps.len() > 0 {
        let head = steps.drop_last();
        assert forall|i: int| 0 <= i < head.len() implies #[trigger] head[i] is InsertEntry by {
            assert(head[i] == steps[i]);
        }
        lemma_run_inert(c, head);
        assert(steps[steps.len() - 1] is InsertEntry);
    }
}

} // verus!
