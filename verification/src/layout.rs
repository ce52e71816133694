//! The physical layout: which table holds what, under which name, and the text of every
//! statement that the storage layer hands to the backing store.

use crate::value::{Val, Value};
use vstd::prelude::*;

verus! {

/// The name of the table that holds the documents of a collection.
pub open spec fn docs_table(db: Seq<char>, coll: Seq<char>) -> Seq<char> {
    "docs."@ + db + "."@ + coll
}

/// The name of the table that holds the entries of an index.
pub open spec fn index_table(db: Seq<char>, coll: Seq<char>, name: Seq<char>) -> Seq<char> {
    "ndx."@ + db + "."@ + coll + "."@ + name
}

/// The statement that creates a documents table: a row identifier and the document.
pub open spec fn sql_create_docs(docs: Seq<char>) -> Seq<char> {
    "CREATE TABLE \""@ + docs + "\" (did INTEGER PRIMARY KEY, bson BLOB NOT NULL)"@
}

/// An index table refers to its documents table and loses a document's entries with the
/// document. In a unique index the key alone is the primary key.
pub open spec fn sql_create_index_table(ndx: Seq<char>, docs: Seq<char>, unique: bool) -> Seq<
    char,
> {
    "CREATE TABLE \""@ + ndx + "\" (k BLOB NOT NULL, doc_rowid int NOT NULL REFERENCES \""@ + docs
        + if unique {
        "\"(did) ON DELETE CASCADE, PRIMARY KEY (k))"@
    } else {
        "\"(did) ON DELETE CASCADE, PRIMARY KEY (k,doc_rowid))"@
    }
}

/// The statement that lets the entries of an index be found by their document.
pub open spec fn sql_create_child_index(ndx: Seq<char>) -> Seq<char> {
    "CREATE INDEX \"childndx_"@ + ndx + "\" ON \""@ + ndx + "\" (doc_rowid)"@
}

/// The statement that drops a table.
pub open spec fn sql_drop_table(table: Seq<char>) -> Seq<char> {
    "DROP TABLE \""@ + table + "\""@
}

/// The statement that gives a table another name.
pub open spec fn sql_rename_table(from: Seq<char>, to: Seq<char>) -> Seq<char> {
    "ALTER TABLE \""@ + from + "\" RENAME TO \""@ + to + "\""@
}

/// The statement that adds an entry, a key and the row of its document, to an index.
pub open spec fn sql_insert_entry(ndx: Seq<char>) -> Seq<char> {
    "INSERT INTO \""@ + ndx + "\" (k,doc_rowid) VALUES (?,?)"@
}

/// The statement that removes the entries of one document from an index.
pub open spec fn sql_delete_entries(ndx: Seq<char>) -> Seq<char> {
    "DELETE FROM \""@ + ndx + "\" WHERE doc_rowid=?"@
}

/// The statement that finds the row of the document with a given key.
pub open spec fn sql_find_rowid(ndx: Seq<char>) -> Seq<char> {
    "SELECT doc_rowid FROM \""@ + ndx + "\" WHERE k=?"@
}

/// The statement that stores a new document.
pub open spec fn sql_insert_document(docs: Seq<char>) -> Seq<char> {
    "INSERT INTO \""@ + docs + "\" (bson) VALUES (?)"@
}

/// The statement that replaces the document of a row.
pub open spec fn sql_update_document(docs: Seq<char>) -> Seq<char> {
    "UPDATE \""@ + docs + "\" SET bson=? WHERE rowid=?"@
}

/// The statement that removes the document of a row.
pub open spec fn sql_delete_document(docs: Seq<char>) -> Seq<char> {
    "DELETE FROM \""@ + docs + "\" WHERE rowid=?"@
}

/// The statement that reads every document of a collection.
pub open spec fn sql_scan_documents(docs: Seq<char>) -> Seq<char> {
    "SELECT bson FROM \""@ + docs + "\""@
}

/// The statement that reads every document of a collection with its row.
pub open spec fn sql_scan_rows(docs: Seq<char>) -> Seq<char> {
    "SELECT did,bson FROM \""@ + docs + "\""@
}

/// A scan through an index gives each document once, however many of its entries match.
pub open spec fn sql_index_scan(docs: Seq<char>, ndx: Seq<char>, condition: Seq<char>) -> Seq<
    char,
> {
    "SELECT DISTINCT d.bson FROM \""@ + docs + "\" d INNER JOIN \""@ + ndx
        + "\" i ON (d.did = i.doc_rowid) WHERE "@ + condition
}

/// The statement that records a collection.
pub open spec fn sql_insert_collection() -> Seq<char> {
    "INSERT INTO \"collections\" (dbName,collName,options) VALUES (?,?,?)"@
}

/// The statement that removes the record of a collection.
pub open spec fn sql_delete_collection() -> Seq<char> {
    "DELETE FROM \"collections\" WHERE dbName=? AND collName=?"@
}

/// The statement that records a collection under another name.
pub open spec fn sql_rename_collection() -> Seq<char> {
    "UPDATE \"collections\" SET dbName=?, collName=? WHERE dbName=? AND collName=?"@
}

/// The statement that records an index.
pub open spec fn sql_insert_index() -> Seq<char> {
    "INSERT INTO \"indexes\" (dbName,collName,ndxName,spec,options) VALUES (?,?,?,?,?)"@
}

/// The statement that removes the record of an index.
pub open spec fn sql_delete_index() -> Seq<char> {
    "DELETE FROM \"indexes\" WHERE dbName=? AND collName=? AND ndxName=?"@
}

/// The statement that reads the records of all indexes.
pub open spec fn sql_list_indexes() -> Seq<char> {
    "SELECT ndxName, spec, options, dbName, collName FROM \"indexes\""@
}

/// The statement that reads the records of all collections, by collection name.
pub open spec fn sql_list_collections() -> Seq<char> {
    "SELECT dbName, collName, options FROM \"collections\" ORDER BY collName ASC"@
}

/// The statement that opens a transaction.
pub open spec fn sql_begin() -> Seq<char> {
    "BEGIN TRANSACTION"@
}

/// The statement that opens a transaction and keeps other writers out from the start.
pub open spec fn sql_begin_immediate() -> Seq<char> {
    "BEGIN IMMEDIATE TRANSACTION"@
}

/// The statement that keeps what a transaction did.
pub open spec fn sql_commit() -> Seq<char> {
    "COMMIT TRANSACTION"@
}

/// The statement that undoes what a transaction did.
pub open spec fn sql_rollback() -> Seq<char> {
    "ROLLBACK TRANSACTION"@
}

/// The statements that prepare a store for use, in order: write-ahead logging, enforced
/// references, and the two tables that describe all collections and all indexes.
pub open spec fn schema() -> Seq<Seq<char>> {
    seq![
        "PRAGMA journal_mode=WAL"@,
        "PRAGMA foreign_keys=ON"@,
        "CREATE TABLE IF NOT EXISTS \"collections\" (dbName TEXT NOT NULL, collName TEXT NOT NULL, options BLOB NOT NULL, PRIMARY KEY (dbName,collName))"@,
        "CREATE TABLE IF NOT EXISTS \"indexes\" (dbName TEXT NOT NULL, collName TEXT NOT NULL, ndxName TEXT NOT NULL, spec BLOB NOT NULL, options BLOB NOT NULL, PRIMARY KEY (dbName, collName, ndxName), FOREIGN KEY (dbName,collName) REFERENCES \"collections\" ON DELETE CASCADE ON UPDATE CASCADE, UNIQUE (spec,dbName,collName))"@,
    ]
}

/// The content of a statement parameter.
pub enum ParamV {
    Text(Seq<char>),
    Int(i64),
    Blob(Seq<u8>),
    Document(Val),
    Key(Seq<(Val, bool)>),
}

/// A value bound to a `?` of a statement.
#[derive(Debug, PartialEq, Eq)]
pub enum Param {
    Text(String),
    Int(i64),
    /// Bytes bound as they are.
    Blob(Vec<u8>),
    /// A document, bound as its binary encoding.
    Document(Value),
    /// An index key, bound as the composite encoding of its (value, descending) pairs.
    Key(Vec<(Value, bool)>),
}

impl DeepView for Param {
    type V = ParamV;

    open spec fn deep_view(&self) -> ParamV {
        match self {
            Param::Text(s) => ParamV::Text(s@),
            Param::Int(n) => ParamV::Int(*n),
            Param::Blob(b) => ParamV::Blob(b@),
            Param::Document(d) => ParamV::Document(d@),
            Param::Key(k) => ParamV::Key(k.deep_view()),
        }
    }
}

/// What has to hold after a statement has run.
#[derive(Debug, Clone, Copy, PartialEq, Eq, Structural)]
pub enum Expect {
    /// Nothing is checked.
    Anything,
    /// The statement hands back no row.
    NoRow,
    /// The statement hands back no row and changes exactly this many rows.
    Changes(u64),
}

/// The content of a statement.
pub struct StatementV {
    pub sql: Seq<char>,
    pub params: Seq<ParamV>,
    pub expect: Expect,
}

/// A statement for the backing store: its text, the values for its `?` in order, and what
/// has to hold after it has run.
#[derive(Debug, PartialEq, Eq)]
pub struct Statement {
    pub sql: String,
    pub params: Vec<Param>,
    pub expect: Expect,
}

impl DeepView for Statement {
    type V = StatementV;

    open spec fn deep_view(&self) -> StatementV {
        StatementV { sql: self.sql@, params: self.params.deep_view(), expect: self.expect }
    }
}

/// The name of the table that holds the documents of a collection.
pub fn get_table_name_for_collection(db: &str, coll: &str) -> (r: String)
    ensures
        r@ == docs_table(db@, coll@),
{
    "docs.".to_owned().concat(db).concat(".").concat(coll)
}

/// The name of the table that holds the entries of an index.
pub fn get_table_name_for_index(db: &str, coll: &str, name: &str) -> (r: String)
    ensures
        r@ == index_table(db@, coll@, name@),
{
    "ndx.".to_owned().concat(db).concat(".").concat(coll).concat(".").concat(name)
}

/// `before`, `name`, `after`, one after the other.
fn around(before: &str, name: &str, after: &str) -> (r: String)
    ensures
        r@ == before@ + name@ + after@,
{
    before.to_owned().concat(name).concat(after)
}

/// The statement that creates a documents table: a row identifier and the document.
pub fn create_docs(docs: &str) -> (r: String)
    ensures
        r@ == sql_create_docs(docs@),
{
    around("CREATE TABLE \"", docs, "\" (did INTEGER PRIMARY KEY, bson BLOB NOT NULL)")
}

/// The statement that creates the table of an index.
pub fn create_index_table(ndx: &str, docs: &str, unique: bool) -> (r: String)
    ensures
        r@ == sql_create_index_table(ndx@, docs@, unique),
{
    let head = around(
        "CREATE TABLE \"",
        ndx,
        "\" (k BLOB NOT NULL, doc_rowid int NOT NULL REFERENCES \"",
    ).concat(docs);
    if unique {
        head.concat("\"(did) ON DELETE CASCADE, PRIMARY KEY (k))")
    } else {
        head.concat("\"(did) ON DELETE CASCADE, PRIMARY KEY (k,doc_rowid))")
    }
}

/// The statement that lets the entries of an index be found by their document.
pub fn create_child_index(ndx: &str) -> (r: String)
    ensures
        r@ == sql_create_child_index(ndx@),
{
    around("CREATE INDEX \"childndx_", ndx, "\" ON \"").concat(ndx).concat("\" (doc_rowid)")
}

/// The statement that drops a table.
pub fn drop_table(table: &str) -> (r: String)
    ensures
        r@ == sql_drop_table(table@),
{
    around("DROP TABLE \"", table, "\"")
}

/// The statement that gives a table another name.
pub fn rename_table(from: &str, to: &str) -> (r: String)
    ensures
        r@ == sql_rename_table(from@, to@),
{
    around("ALTER TABLE \"", from, "\" RENAME TO \"").concat(to).concat("\"")
}

/// The statement that adds an entry, a key and the row of its document, to an index.
pub fn insert_entry(ndx: &str) -> (r: String)
    ensures
        r@ == sql_insert_entry(ndx@),
{
    around("INSERT INTO \"", ndx, "\" (k,doc_rowid) VALUES (?,?)")
}

/// The statement that removes the entries of one document from an index.
pub fn delete_entries(ndx: &str) -> (r: String)
    ensures
        r@ == sql_delete_entries(ndx@),
{
    around("DELETE FROM \"", ndx, "\" WHERE doc_rowid=?")
}

/// The statement that finds the row of the document with a given key.
pub fn find_rowid(ndx: &str) -> (r: String)
    ensures
        r@ == sql_find_rowid(ndx@),
{
    around("SELECT doc_rowid FROM \"", ndx, "\" WHERE k=?")
}

/// The statement that stores a new document.
pub fn insert_document(docs: &str) -> (r: String)
    ensures
        r@ == sql_insert_document(docs@),
{
    around("INSERT INTO \"", docs, "\" (bson) VALUES (?)")
}

/// The statement that replaces the document of a row.
pub fn update_document(docs: &str) -> (r: String)
    ensures
        r@ == sql_update_document(docs@),
{
    around("UPDATE \"", docs, "\" SET bson=? WHERE rowid=?")
}

/// The statement that removes the document of a row.
pub fn delete_document(docs: &str) -> (r: String)
    ensures
        r@ == sql_delete_document(docs@),
{
    around("DELETE FROM \"", docs, "\" WHERE rowid=?")
}

/// The statement that reads every document of a collection.
pub fn scan_documents(docs: &str) -> (r: String)
    ensures
        r@ == sql_scan_documents(docs@),
{
    around("SELECT bson FROM \"", docs, "\"")
}

/// The statement that reads every document of a collection with its row.
pub fn scan_rows(docs: &str) -> (r: String)
    ensures
        r@ == sql_scan_rows(docs@),
{
    around("SELECT did,bson FROM \"", docs, "\"")
}

/// The statement that reads, each once, the documents with an entry that meets the condition.
pub fn index_scan(docs: &str, ndx: &str, condition: &str) -> (r: String)
    ensures
        r@ == sql_index_scan(docs@, ndx@, condition@),
{
    around("SELECT DISTINCT d.bson FROM \"", docs, "\" d INNER JOIN \"").concat(ndx).concat(
        "\" i ON (d.did = i.doc_rowid) WHERE ",
    ).concat(condition)
}

/// The statement that reads the records of all indexes.
pub fn list_indexes() -> (r: String)
    ensures
        r@ == sql_list_indexes(),
{
    "SELECT ndxName, spec, options, dbName, collName FROM \"indexes\"".to_owned()
}

/// The statement that reads the records of all collections, by collection name.
pub fn list_collections() -> (r: String)
    ensures
        r@ == sql_list_collections(),
{
    "SELECT dbName, collName, options FROM \"collections\" ORDER BY collName ASC".to_owned()
}

/// The statements that prepare a store for use, in the order in which they have to run.
pub fn base_connect() -> (r: Vec<String>)
    ensures
        r.deep_view() == schema(),
{
    let mut out: Vec<String> = Vec::new();
    out.push("PRAGMA journal_mode=WAL".to_owned());
    out.push("PRAGMA foreign_keys=ON".to_owned());
    out.push(
        "CREATE TABLE IF NOT EXISTS \"collections\" (dbName TEXT NOT NULL, collName TEXT NOT NULL, options BLOB NOT NULL, PRIMARY KEY (dbName,collName))".to_owned(),
    );
    out.push(
        "CREATE TABLE IF NOT EXISTS \"indexes\" (dbName TEXT NOT NULL, collName TEXT NOT NULL, ndxName TEXT NOT NULL, spec BLOB NOT NULL, options BLOB NOT NULL, PRIMARY KEY (dbName, collName, ndxName), FOREIGN KEY (dbName,collName) REFERENCES \"collections\" ON DELETE CASCADE ON UPDATE CASCADE, UNIQUE (spec,dbName,collName))".to_owned(),
    );
    assert(out.deep_view() =~= schema());
    out
}

} // verus!
