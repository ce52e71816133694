//! The steps that the storage layer asks the backing store to take, and the statement
//! that each step is.

use crate::index::{IndexInfo, IndexInfoV};
use crate::layout::{
    docs_table, index_table, sql_begin, sql_begin_immediate, sql_commit, sql_create_child_index,
    sql_create_docs, sql_create_index_table, sql_delete_collection, sql_delete_document,
    sql_delete_entries, sql_delete_index, sql_drop_table, sql_insert_collection,
    sql_insert_document, sql_insert_entry, sql_insert_index, sql_rename_collection,
    sql_rename_table, sql_rollback, sql_update_document, Expect, Param, ParamV, Statement,
    StatementV,
};
use crate::value::{Val, Value};
use vstd::prelude::*;

verus! {

/// The content of a step.
pub enum StepV {
    Begin,
    BeginImmediate,
    Commit,
    Rollback,
    InsertCollection { db: Seq<char>, coll: Seq<char>, options: Val },
    CreateDocs { db: Seq<char>, coll: Seq<char> },
    DeleteCollection { db: Seq<char>, coll: Seq<char> },
    DropDocs { db: Seq<char>, coll: Seq<char> },
    RenameCollection { db: Seq<char>, coll: Seq<char>, new_db: Seq<char>, new_coll: Seq<char> },
    RenameDocs { db: Seq<char>, coll: Seq<char>, new_db: Seq<char>, new_coll: Seq<char> },
    RenameIndexTable {
        db: Seq<char>,
        coll: Seq<char>,
        name: Seq<char>,
        new_db: Seq<char>,
        new_coll: Seq<char>,
    },
    InsertIndex { info: IndexInfoV },
    CreateIndexTable { db: Seq<char>, coll: Seq<char>, name: Seq<char>, unique: bool },
    CreateChildIndex { db: Seq<char>, coll: Seq<char>, name: Seq<char> },
    DeleteIndex { db: Seq<char>, coll: Seq<char>, name: Seq<char> },
    DropIndexTable { db: Seq<char>, coll: Seq<char>, name: Seq<char> },
    InsertEntry {
        db: Seq<char>,
        coll: Seq<char>,
        name: Seq<char>,
        key: Seq<(Val, bool)>,
        rowid: i64,
    },
    DeleteEntries { db: Seq<char>, coll: Seq<char>, name: Seq<char>, rowid: i64 },
    InsertDocument { db: Seq<char>, coll: Seq<char>, doc: Val },
    UpdateDocument { db: Seq<char>, coll: Seq<char>, rowid: i64, doc: Val },
    DeleteDocument { db: Seq<char>, coll: Seq<char>, rowid: i64 },
}

/// One step for the backing store to take.
#[derive(Debug, PartialEq, Eq)]
pub enum Step {
    /// Opens a transaction that reads.
    Begin,
    /// Opens a transaction that writes and keeps other writers out.
    BeginImmediate,
    Commit,
    Rollback,
    /// Records a collection with its options.
    InsertCollection { db: String, coll: String, options: Value },
    /// Creates the table for the documents of a collection.
    CreateDocs { db: String, coll: String },
    /// Removes the record of a collection.
    DeleteCollection { db: String, coll: String },
    /// Drops the table of the documents of a collection.
    DropDocs { db: String, coll: String },
    /// Records a collection under another name; the records of its indexes follow.
    RenameCollection { db: String, coll: String, new_db: String, new_coll: String },
    /// Moves the documents table of a collection to its name under another collection name.
    RenameDocs { db: String, coll: String, new_db: String, new_coll: String },
    /// Moves the table of an index to its name under another collection name.
    RenameIndexTable { db: String, coll: String, name: String, new_db: String, new_coll: String },
    /// Records an index.
    InsertIndex { info: IndexInfo },
    /// Creates the table for the entries of an index.
    CreateIndexTable { db: String, coll: String, name: String, unique: bool },
    /// Lets the entries of an index be found by their document.
    CreateChildIndex { db: String, coll: String, name: String },
    /// Removes the record of an index.
    DeleteIndex { db: String, coll: String, name: String },
    /// Drops the table of the entries of an index.
    DropIndexTable { db: String, coll: String, name: String },
    /// Adds one entry for a document to an index.
    InsertEntry { db: String, coll: String, name: String, key: Vec<(Value, bool)>, rowid: i64 },
    /// Removes the entries of a document from an index.
    DeleteEntries { db: String, coll: String, name: String, rowid: i64 },
    /// Stores a new document; the backing store gives it its row identifier.
    InsertDocument { db: String, coll: String, doc: Value },
    /// Replaces the stored document of a row.
    UpdateDocument { db: String, coll: String, rowid: i64, doc: Value },
    /// Removes the stored document of a row.
    DeleteDocument { db: String, coll: String, rowid: i64 },
}

impl DeepView for Step {
    type V = StepV;

    open spec fn deep_view(&self) -> StepV {
        match self {
            Step::Begin => StepV::Begin,
            Step::BeginImmediate => StepV::BeginImmediate,
            Step::Commit => StepV::Commit,
            Step::Rollback => StepV::Rollback,
            Step::InsertCollection { db, coll, options } => StepV::InsertCollection {
                db: db@,
                coll: coll@,
                options: options@,
            },
            Step::CreateDocs { db, coll } => StepV::CreateDocs { db: db@, coll: coll@ },
            Step::DeleteCollection { db, coll } => StepV::DeleteCollection { db: db@, coll: coll@ },
            Step::DropDocs { db, coll } => StepV::DropDocs { db: db@, coll: coll@ },
            Step::RenameCollection { db, coll, new_db, new_coll } => StepV::RenameCollection {
                db: db@,
                coll: coll@,
                new_db: new_db@,
                new_coll: new_coll@,
            },
            Step::RenameDocs { db, coll, new_db, new_coll } => StepV::RenameDocs {
                db: db@,
                coll: coll@,
                new_db: new_db@,
                new_coll: new_coll@,
            },
            Step::RenameIndexTable { db, coll, name, new_db, new_coll } => StepV::RenameIndexTable {
                db: db@,
                coll: coll@,
                name: name@,
                new_db: new_db@,
                new_coll: new_coll@,
            },
            Step::InsertIndex { info } => StepV::InsertIndex { info: info@ },
            Step::CreateIndexTable { db, coll, name, unique } => StepV::CreateIndexTable {
                db: db@,
                coll: coll@,
                name: name@,
                unique: *unique,
            },
            Step::CreateChildIndex { db, coll, name } => StepV::CreateChildIndex {
                db: db@,
                coll: coll@,
                name: name@,
            },
            Step::DeleteIndex { db, coll, name } => StepV::DeleteIndex {
                db: db@,
                coll: coll@,
                name: name@,
            },
            Step::DropIndexTable { db, coll, name } => StepV::DropIndexTable {
                db: db@,
                coll: coll@,
                name: name@,
            },
            Step::InsertEntry { db, coll, name, key, rowid } => StepV::InsertEntry {
                db: db@,
                coll: coll@,
                name: name@,
                key: key.deep_view(),
                rowid: *rowid,
            },
            Step::DeleteEntries { db, coll, name, rowid } => StepV::DeleteEntries {
                db: db@,
                coll: coll@,
                name: name@,
                rowid: *rowid,
            },
            Step::InsertDocument { db, coll, doc } => StepV::InsertDocument {
                db: db@,
                coll: coll@,
                doc: doc@,
            },
            Step::UpdateDocument { db, coll, rowid, doc } => StepV::UpdateDocument {
                db: db@,
                coll: coll@,
                rowid: *rowid,
                doc: doc@,
            },
            Step::DeleteDocument { db, coll, rowid } => StepV::DeleteDocument {
                db: db@,
                coll: coll@,
                rowid: *rowid,
            },
        }
    }
}

/// A statement without parameters after which nothing is checked.
pub open spec fn plain(sql: Seq<char>) -> StatementV {
    StatementV { sql, params: Seq::empty(), expect: Expect::Anything }
}

/// The statement that a step is: its text, its parameters in order, and what has to hold
/// after it has run.
pub open spec fn statement_of(s: StepV) -> StatementV {
    match s {
        StepV::Begin => plain(sql_begin()),
        StepV::BeginImmediate => plain(sql_begin_immediate()),
        StepV::Commit => plain(sql_commit()),
        StepV::Rollback => plain(sql_rollback()),
        StepV::InsertCollection { db, coll, options } => StatementV {
            sql: sql_insert_collection(),
            params: seq![ParamV::Text(db), ParamV::Text(coll), ParamV::Document(options)],
            expect: Expect::NoRow,
        },
        StepV::CreateDocs { db, coll } => plain(sql_create_docs(docs_table(db, coll))),
        StepV::DeleteCollection { db, coll } => StatementV {
            sql: sql_delete_collection(),
            params: seq![ParamV::Text(db), ParamV::Text(coll)],
            expect: Expect::Changes(1),
        },
        StepV::DropDocs { db, coll } => plain(sql_drop_table(docs_table(db, coll))),
        StepV::RenameCollection { db, coll, new_db, new_coll } => StatementV {
            sql: sql_rename_collection(),
            params: seq![
                ParamV::Text(new_db),
                ParamV::Text(new_coll),
                ParamV::Text(db),
                ParamV::Text(coll),
            ],
            expect: Expect::NoRow,
        },
        StepV::RenameDocs { db, coll, new_db, new_coll } => plain(
            sql_rename_table(docs_table(db, coll), docs_table(new_db, new_coll)),
        ),
        StepV::RenameIndexTable { db, coll, name, new_db, new_coll } => plain(
            sql_rename_table(index_table(db, coll, name), index_table(new_db, new_coll, name)),
        ),
        StepV::InsertIndex { info } => StatementV {
            sql: sql_insert_index(),
            params: seq![
                ParamV::Text(info.db),
                ParamV::Text(info.coll),
                ParamV::Text(info.name),
                ParamV::Document(info.spec),
                ParamV::Document(info.options),
            ],
            expect: Expect::NoRow,
        },
        StepV::CreateIndexTable { db, coll, name, unique } => plain(
            sql_create_index_table(index_table(db, coll, name), docs_table(db, coll), unique),
        ),
        StepV::CreateChildIndex { db, coll, name } => plain(
            sql_create_child_index(index_table(db, coll, name)),
        ),
        StepV::DeleteIndex { db, coll, name } => StatementV {
            sql: sql_delete_index(),
            params: seq![ParamV::Text(db), ParamV::Text(coll), ParamV::Text(name)],
            expect: Expect::Changes(1),
        },
        StepV::DropIndexTable { db, coll, name } => plain(
            sql_drop_table(index_table(db, coll, name)),
        ),
        StepV::InsertEntry { db, coll, name, key, rowid } => StatementV {
            sql: sql_insert_entry(index_table(db, coll, name)),
            params: seq![ParamV::Key(key), ParamV::Int(rowid)],
            expect: Expect::Changes(1),
        },
        StepV::DeleteEntries { db, coll, name, rowid } => StatementV {
            sql: sql_delete_entries(index_table(db, coll, name)),
            params: seq![ParamV::Int(rowid)],
            expect: Expect::NoRow,
        },
        StepV::InsertDocument { db, coll, doc } => StatementV {
            sql: sql_insert_document(docs_table(db, coll)),
            params: seq![ParamV::Document(doc)],
            expect: Expect::Changes(1),
        },
        StepV::UpdateDocument { db, coll, rowid, doc } => StatementV {
            sql: sql_update_document(docs_table(db, coll)),
            params: seq![ParamV::Document(doc), ParamV::Int(rowid)],
            expect: Expect::Changes(1),
        },
        StepV::DeleteDocument { db, coll, rowid } => StatementV {
            sql: sql_delete_document(docs_table(db, coll)),
            params: seq![ParamV::Int(rowid)],
            expect: Expect::NoRow,
        },
    }
}

/// A statement without parameters after which nothing is checked.
fn exec_only(sql: String) -> (r: Statement)
    ensures
        r.deep_view() == plain(sql@),
{
    let r = Statement { sql, params: Vec::new(), expect: Expect::Anything };
    assert(r.params.deep_view() =~= Seq::empty());
    r
}

/// A statement with the given parameters.
fn with_params(sql: String, params: Vec<Param>, expect: Expect) -> (r: Statement)
    ensures
        r.deep_view() == (StatementV { sql: sql@, params: params.deep_view(), expect }),
{
    Statement { sql, params, expect }
}

/// The parameters that name a collection, and an index of it where `name` is given.
fn name_params(db: &String, coll: &String, name: Option<&String>) -> (r: Vec<Param>)
    ensures
        r.deep_view() == match name {
            Some(n) => seq![ParamV::Text(db@), ParamV::Text(coll@), ParamV::Text(n@)],
            None => seq![ParamV::Text(db@), ParamV::Text(coll@)],
        },
{
    let mut p: Vec<Param> = Vec::new();
    p.push(Param::Text(db.clone()));
    p.push(Param::Text(coll.clone()));
    match name {
        Some(n) => {
            p.push(Param::Text(n.clone()));
            assert(p.deep_view() =~= seq![
                ParamV::Text(db@),
                ParamV::Text(coll@),
                ParamV::Text(n@),
            ]);
        },
        None => {
            assert(p.deep_view() =~= seq![ParamV::Text(db@), ParamV::Text(coll@)]);
        },
    }
    p
}

impl Step {
    /// The statement that this step is.
    pub fn statement(&self) -> (r: Statement)
        ensures
            r.deep_view() == statement_of(self.deep_view()),
    {
        match self {
            Step::Begin => exec_only("BEGIN TRANSACTION".to_owned()),
            Step::BeginImmediate => exec_only("BEGIN IMMEDIATE TRANSACTION".to_owned()),
            Step::Commit => exec_only("COMMIT TRANSACTION".to_owned()),
            Step::Rollback => exec_only("ROLLBACK TRANSACTION".to_owned()),
            Step::InsertCollection { db, coll, options } => {
                let mut p = name_params(db, coll, None);
                let ghost head = p.deep_view();
                p.push(Param::Document(options.copy()));
                assert(p.deep_view() =~= head.push(ParamV::Document(options@)));
                assert(p.deep_view() =~= seq![
                    ParamV::Text(db@),
                    ParamV::Text(coll@),
                    ParamV::Document(options@),
                ]);
                with_params(
                    "INSERT INTO \"collections\" (dbName,collName,options) VALUES (?,?,?)".to_owned(),
                    p,
                    Expect::NoRow,
                )
            },
            Step::CreateDocs { db, coll } => {
                let docs = crate::layout::get_table_name_for_collection(db.as_str(), coll.as_str());
                exec_only(crate::layout::create_docs(docs.as_str()))
            },
            Step::DeleteCollection { db, coll } => with_params(
                "DELETE FROM \"collections\" WHERE dbName=? AND collName=?".to_owned(),
                name_params(db, coll, None),
                Expect::Changes(1),
            ),
            Step::DropDocs { db, coll } => {
                let docs = crate::layout::get_table_name_for_collection(db.as_str(), coll.as_str());
                exec_only(crate::layout::drop_table(docs.as_str()))
            },
            Step::RenameCollection { db, coll, new_db, new_coll } => {
                let mut p = name_params(new_db, new_coll, None);
                let ghost head = p.deep_view();
                p.push(Param::Text(db.clone()));
                p.push(Param::Text(coll.clone()));
                assert(p.deep_view() =~= head.push(ParamV::Text(db@)).push(ParamV::Text(coll@)));
                assert(p.deep_view() =~= seq![
                    ParamV::Text(new_db@),
                    ParamV::Text(new_coll@),
                    ParamV::Text(db@),
                    ParamV::Text(coll@),
                ]);
                with_params(
                    "UPDATE \"collections\" SET dbName=?, collName=? WHERE dbName=? AND collName=?".to_owned(),
                    p,
                    Expect::NoRow,
                )
            },
            Step::RenameDocs { db, coll, new_db, new_coll } => {
                let from = crate::layout::get_table_name_for_collection(db.as_str(), coll.as_str());
                let to = crate::layout::get_table_name_for_collection(
                    new_db.as_str(),
                    new_coll.as_str(),
                );
                exec_only(crate::layout::rename_table(from.as_str(), to.as_str()))
            },
            Step::RenameIndexTable { db, coll, name, new_db, new_coll } => {
                let from = crate::layout::get_table_name_for_index(
                    db.as_str(),
                    coll.as_str(),
                    name.as_str(),
                );
                let to = crate::layout::get_table_name_for_index(
                    new_db.as_str(),
                    new_coll.as_str(),
                    name.as_str(),
                );
                exec_only(crate::layout::rename_table(from.as_str(), to.as_str()))
            },
            Step::InsertIndex { info } => {
                let mut p = name_params(&info.db, &info.coll, Some(&info.name));
                let ghost head = p.deep_view();
                p.push(Param::Document(info.spec.copy()));
                p.push(Param::Document(info.options.copy()));
                assert(p.deep_view() =~= head.push(ParamV::Document(info.spec@)).push(
                    ParamV::Document(info.options@),
                ));
                assert(p.deep_view() =~= seq![
                    ParamV::Text(info.db@),
                    ParamV::Text(info.coll@),
                    ParamV::Text(info.name@),
                    ParamV::Document(info.spec@),
                    ParamV::Document(info.options@),
                ]);
                with_params(
                    "INSERT INTO \"indexes\" (dbName,collName,ndxName,spec,options) VALUES (?,?,?,?,?)".to_owned(),
                    p,
                    Expect::NoRow,
                )
            },
            Step::CreateIndexTable { db, coll, name, unique } => {
                let ndx = crate::layout::get_table_name_for_index(
                    db.as_str(),
                    coll.as_str(),
                    name.as_str(),
                );
                let docs = crate::layout::get_table_name_for_collection(db.as_str(), coll.as_str());
                exec_only(crate::layout::create_index_table(ndx.as_str(), docs.as_str(), *unique))
            },
            Step::CreateChildIndex { db, coll, name } => {
                let ndx = crate::layout::get_table_name_for_index(
                    db.as_str(),
                    coll.as_str(),
                    name.as_str(),
                );
                exec_only(crate::layout::create_child_index(ndx.as_str()))
            },
            Step::DeleteIndex { db, coll, name } => with_params(
                "DELETE FROM \"indexes\" WHERE dbName=? AND collName=? AND ndxName=?".to_owned(),
                name_params(db, coll, Some(name)),
                Expect::Changes(1),
            ),
            Step::DropIndexTable { db, coll, name } => {
                let ndx = crate::layout::get_table_name_for_index(
                    db.as_str(),
                    coll.as_str(),
                    name.as_str(),
                );
                exec_only(crate::layout::drop_table(ndx.as_str()))
            },
            Step::InsertEntry { db, coll, name, key, rowid } => {
                let ndx = crate::layout::get_table_name_for_index(
                    db.as_str(),
                    coll.as_str(),
                    name.as_str(),
                );
                let mut p: Vec<Param> = Vec::new();
                p.push(Param::Key(crate::entries::copy_entry(key)));
                p.push(Param::Int(*rowid));
                assert(p.deep_view() =~= seq![ParamV::Key(key.deep_view()), ParamV::Int(*rowid)]);
                with_params(crate::layout::insert_entry(ndx.as_str()), p, Expect::Changes(1))
            },
            Step::DeleteEntries { db, coll, name, rowid } => {
                let ndx = crate::layout::get_table_name_for_index(
                    db.as_str(),
                    coll.as_str(),
                    name.as_str(),
                );
                let mut p: Vec<Param> = Vec::new();
                p.push(Param::Int(*rowid));
                assert(p.deep_view() =~= seq![ParamV::Int(*rowid)]);
                with_params(crate::layout::delete_entries(ndx.as_str()), p, Expect::NoRow)
            },
            Step::InsertDocument { db, coll, doc } => {
                let docs = crate::layout::get_table_name_for_collection(db.as_str(), coll.as_str());
                let mut p: Vec<Param> = Vec::new();
                p.push(Param::Document(doc.copy()));
                assert(p.deep_view() =~= seq![ParamV::Document(doc@)]);
                with_params(crate::layout::insert_document(docs.as_str()), p, Expect::Changes(1))
            },
            Step::UpdateDocument { db, coll, rowid, doc } => {
                let docs = crate::layout::get_table_name_for_collection(db.as_str(), coll.as_str());
                let mut p: Vec<Param> = Vec::new();
                p.push(Param::Document(doc.copy()));
                p.push(Param::Int(*rowid));
                assert(p.deep_view() =~= seq![ParamV::Document(doc@), ParamV::Int(*rowid)]);
                with_params(crate::layout::update_document(docs.as_str()), p, Expect::Changes(1))
            },
            Step::DeleteDocument { db, coll, rowid } => {
                let docs = crate::layout::get_table_name_for_collection(db.as_str(), coll.as_str());
                let mut p: Vec<Param> = Vec::new();
                p.push(Param::Int(*rowid));
                assert(p.deep_view() =~= seq![ParamV::Int(*rowid)]);
                with_params(crate::layout::delete_document(docs.as_str()), p, Expect::NoRow)
            },
        }
    }
}

} // verus!
