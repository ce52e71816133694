use elmo_sqlite3::error::{Error, ErrorKind};
use elmo_sqlite3::index::IndexInfo;
use elmo_sqlite3::layout::{
    base_connect, create_child_index, create_docs, create_index_table, delete_document,
    delete_entries, drop_table, find_rowid, get_table_name_for_collection,
    get_table_name_for_index, index_scan, insert_document, insert_entry, list_collections,
    list_indexes, rename_table, scan_documents, scan_rows, update_document, Expect, Param, Statement,
};
use elmo_sqlite3::plan::Step;
use elmo_sqlite3::value::Value;

fn s(x: &str) -> String {
    String::from(x)
}

fn plain(sql: &str) -> Statement {
    Statement { sql: s(sql), params: vec![], expect: Expect::Anything }
}

#[test]
fn table_names() {
    assert_eq!(get_table_name_for_collection("app", "users"), "docs.app.users");
    assert_eq!(get_table_name_for_collection("", ""), "docs..");
    assert_eq!(get_table_name_for_collection("a", "system.users"), "docs.a.system.users");
    assert_eq!(get_table_name_for_index("app", "users", "_id_"), "ndx.app.users._id_");
    assert_eq!(get_table_name_for_index("a", "b", "c"), "ndx.a.b.c");
}

#[test]
fn table_names_are_a_function_of_their_parts() {
    assert_eq!(
        get_table_name_for_collection("app", "users"),
        get_table_name_for_collection(&s("app"), &s("users"))
    );
    assert_ne!(
        get_table_name_for_collection("app", "users"),
        get_table_name_for_collection("app", "user")
    );
    assert_ne!(
        get_table_name_for_index("app", "users", "a"),
        get_table_name_for_index("app", "users", "b")
    );
}

#[test]
fn statement_texts() {
    assert_eq!(
        create_docs("docs.a.b"),
        "CREATE TABLE \"docs.a.b\" (did INTEGER PRIMARY KEY, bson BLOB NOT NULL)"
    );
    assert_eq!(
        create_index_table("ndx.a.b.c", "docs.a.b", true),
        "CREATE TABLE \"ndx.a.b.c\" (k BLOB NOT NULL, doc_rowid int NOT NULL REFERENCES \"docs.a.b\"(did) ON DELETE CASCADE, PRIMARY KEY (k))"
    );
    assert_eq!(
        create_index_table("ndx.a.b.c", "docs.a.b", false),
        "CREATE TABLE \"ndx.a.b.c\" (k BLOB NOT NULL, doc_rowid int NOT NULL REFERENCES \"docs.a.b\"(did) ON DELETE CASCADE, PRIMARY KEY (k,doc_rowid))"
    );
    assert_eq!(
        create_child_index("ndx.a.b.c"),
        "CREATE INDEX \"childndx_ndx.a.b.c\" ON \"ndx.a.b.c\" (doc_rowid)"
    );
    assert_eq!(drop_table("docs.a.b"), "DROP TABLE \"docs.a.b\"");
    assert_eq!(rename_table("docs.a.b", "docs.c.d"), "ALTER TABLE \"docs.a.b\" RENAME TO \"docs.c.d\"");
    assert_eq!(insert_entry("ndx.a.b.c"), "INSERT INTO \"ndx.a.b.c\" (k,doc_rowid) VALUES (?,?)");
    assert_eq!(delete_entries("ndx.a.b.c"), "DELETE FROM \"ndx.a.b.c\" WHERE doc_rowid=?");
    assert_eq!(find_rowid("ndx.a.b._id_"), "SELECT doc_rowid FROM \"ndx.a.b._id_\" WHERE k=?");
    assert_eq!(insert_document("docs.a.b"), "INSERT INTO \"docs.a.b\" (bson) VALUES (?)");
    assert_eq!(update_document("docs.a.b"), "UPDATE \"docs.a.b\" SET bson=? WHERE rowid=?");
    assert_eq!(delete_document("docs.a.b"), "DELETE FROM \"docs.a.b\" WHERE rowid=?");
    assert_eq!(scan_documents("docs.a.b"), "SELECT bson FROM \"docs.a.b\"");
    assert_eq!(scan_rows("docs.a.b"), "SELECT did,bson FROM \"docs.a.b\"");
    assert_eq!(
        index_scan("docs.a.b", "ndx.a.b.c", "k > ?"),
        "SELECT DISTINCT d.bson FROM \"docs.a.b\" d INNER JOIN \"ndx.a.b.c\" i ON (d.did = i.doc_rowid) WHERE k > ?"
    );
    assert_eq!(list_indexes(), "SELECT ndxName, spec, options, dbName, collName FROM \"indexes\"");
    assert_eq!(
        list_collections(),
        "SELECT dbName, collName, options FROM \"collections\" ORDER BY collName ASC"
    );
}

#[test]
fn the_schema_of_a_new_store() {
    assert_eq!(
        base_connect(),
        vec![
            "PRAGMA journal_mode=WAL",
            "PRAGMA foreign_keys=ON",
            "CREATE TABLE IF NOT EXISTS \"collections\" (dbName TEXT NOT NULL, collName TEXT NOT NULL, options BLOB NOT NULL, PRIMARY KEY (dbName,collName))",
            "CREATE TABLE IF NOT EXISTS \"indexes\" (dbName TEXT NOT NULL, collName TEXT NOT NULL, ndxName TEXT NOT NULL, spec BLOB NOT NULL, options BLOB NOT NULL, PRIMARY KEY (dbName, collName, ndxName), FOREIGN KEY (dbName,collName) REFERENCES \"collections\" ON DELETE CASCADE ON UPDATE CASCADE, UNIQUE (spec,dbName,collName))",
        ]
    );
}

#[test]
fn the_statements_of_transaction_steps() {
    assert_eq!(Step::Begin.statement(), plain("BEGIN TRANSACTION"));
    assert_eq!(Step::BeginImmediate.statement(), plain("BEGIN IMMEDIATE TRANSACTION"));
    assert_eq!(Step::Commit.statement(), plain("COMMIT TRANSACTION"));
    assert_eq!(Step::Rollback.statement(), plain("ROLLBACK TRANSACTION"));
}

#[test]
fn the_statements_of_collection_steps() {
    let options = Value::Document(vec![(s("capped"), Value::Boolean(false))]);
    assert_eq!(
        Step::InsertCollection { db: s("a"), coll: s("b"), options: options.clone() }.statement(),
        Statement {
            sql: s("INSERT INTO \"collections\" (dbName,collName,options) VALUES (?,?,?)"),
            params: vec![Param::Text(s("a")), Param::Text(s("b")), Param::Document(options)],
            expect: Expect::NoRow,
        }
    );
    assert_eq!(
        Step::CreateDocs { db: s("a"), coll: s("b") }.statement(),
        plain("CREATE TABLE \"docs.a.b\" (did INTEGER PRIMARY KEY, bson BLOB NOT NULL)")
    );
    assert_eq!(
        Step::DeleteCollection { db: s("a"), coll: s("b") }.statement(),
        Statement {
            sql: s("DELETE FROM \"collections\" WHERE dbName=? AND collName=?"),
            params: vec![Param::Text(s("a")), Param::Text(s("b"))],
            expect: Expect::Changes(1),
        }
    );
    assert_eq!(
        Step::DropDocs { db: s("a"), coll: s("b") }.statement(),
        plain("DROP TABLE \"docs.a.b\"")
    );
    assert_eq!(
        Step::RenameCollection { db: s("a"), coll: s("b"), new_db: s("c"), new_coll: s("d") }
            .statement(),
        Statement {
            sql: s("UPDATE \"collections\" SET dbName=?, collName=? WHERE dbName=? AND collName=?"),
            params: vec![
                Param::Text(s("c")),
                Param::Text(s("d")),
                Param::Text(s("a")),
                Param::Text(s("b")),
            ],
            expect: Expect::NoRow,
        }
    );
    assert_eq!(
        Step::RenameDocs { db: s("a"), coll: s("b"), new_db: s("c"), new_coll: s("d") }.statement(),
        plain("ALTER TABLE \"docs.a.b\" RENAME TO \"docs.c.d\"")
    );
    assert_eq!(
        Step::RenameIndexTable {
            db: s("a"),
            coll: s("b"),
            name: s("n"),
            new_db: s("c"),
            new_coll: s("d"),
        }
        .statement(),
        plain("ALTER TABLE \"ndx.a.b.n\" RENAME TO \"ndx.c.d.n\"")
    );
}

#[test]
fn the_statements_of_index_steps() {
    let spec = Value::Document(vec![(s("x"), Value::Int32(1))]);
    let options = Value::Document(vec![]);
    let info =
        IndexInfo { db: s("a"), coll: s("b"), name: s("n"), spec: spec.clone(), options: options.clone() };
    assert_eq!(
        Step::InsertIndex { info }.statement(),
        Statement {
            sql: s("INSERT INTO \"indexes\" (dbName,collName,ndxName,spec,options) VALUES (?,?,?,?,?)"),
            params: vec![
                Param::Text(s("a")),
                Param::Text(s("b")),
                Param::Text(s("n")),
                Param::Document(spec),
                Param::Document(options),
            ],
            expect: Expect::NoRow,
        }
    );
    assert_eq!(
        Step::CreateIndexTable { db: s("a"), coll: s("b"), name: s("n"), unique: true }.statement(),
        plain("CREATE TABLE \"ndx.a.b.n\" (k BLOB NOT NULL, doc_rowid int NOT NULL REFERENCES \"docs.a.b\"(did) ON DELETE CASCADE, PRIMARY KEY (k))")
    );
    assert_eq!(
        Step::CreateIndexTable { db: s("a"), coll: s("b"), name: s("n"), unique: false }.statement(),
        plain("CREATE TABLE \"ndx.a.b.n\" (k BLOB NOT NULL, doc_rowid int NOT NULL REFERENCES \"docs.a.b\"(did) ON DELETE CASCADE, PRIMARY KEY (k,doc_rowid))")
    );
    assert_eq!(
        Step::CreateChildIndex { db: s("a"), coll: s("b"), name: s("n") }.statement(),
        plain("CREATE INDEX \"childndx_ndx.a.b.n\" ON \"ndx.a.b.n\" (doc_rowid)")
    );
    assert_eq!(
        Step::DeleteIndex { db: s("a"), coll: s("b"), name: s("n") }.statement(),
        Statement {
            sql: s("DELETE FROM \"indexes\" WHERE dbName=? AND collName=? AND ndxName=?"),
            params: vec![Param::Text(s("a")), Param::Text(s("b")), Param::Text(s("n"))],
            expect: Expect::Changes(1),
        }
    );
    assert_eq!(
        Step::DropIndexTable { db: s("a"), coll: s("b"), name: s("n") }.statement(),
        plain("DROP TABLE \"ndx.a.b.n\"")
    );
}

#[test]
fn the_statements_of_document_steps() {
    let key = vec![(Value::Int32(5), true)];
    let doc = Value::Document(vec![(s("_id"), Value::Int32(5))]);
    assert_eq!(
        Step::InsertEntry { db: s("a"), coll: s("b"), name: s("n"), key: key.clone(), rowid: 7 }
            .statement(),
        Statement {
            sql: s("INSERT INTO \"ndx.a.b.n\" (k,doc_rowid) VALUES (?,?)"),
            params: vec![Param::Key(key), Param::Int(7)],
            expect: Expect::Changes(1),
        }
    );
    assert_eq!(
        Step::DeleteEntries { db: s("a"), coll: s("b"), name: s("n"), rowid: 7 }.statement(),
        Statement {
            sql: s("DELETE FROM \"ndx.a.b.n\" WHERE doc_rowid=?"),
            params: vec![Param::Int(7)],
            expect: Expect::NoRow,
        }
    );
    assert_eq!(
        Step::InsertDocument { db: s("a"), coll: s("b"), doc: doc.clone() }.statement(),
        Statement {
            sql: s("INSERT INTO \"docs.a.b\" (bson) VALUES (?)"),
            params: vec![Param::Document(doc.clone())],
            expect: Expect::Changes(1),
        }
    );
    assert_eq!(
        Step::UpdateDocument { db: s("a"), coll: s("b"), rowid: 7, doc: doc.clone() }.statement(),
        Statement {
            sql: s("UPDATE \"docs.a.b\" SET bson=? WHERE rowid=?"),
            params: vec![Param::Document(doc), Param::Int(7)],
            expect: Expect::Changes(1),
        }
    );
    assert_eq!(
        Step::DeleteDocument { db: s("a"), coll: s("b"), rowid: 7 }.statement(),
        Statement {
            sql: s("DELETE FROM \"docs.a.b\" WHERE rowid=?"),
            params: vec![Param::Int(7)],
            expect: Expect::NoRow,
        }
    );
}

#[test]
fn every_failure_has_a_kind_and_words() {
    let all = [
        (Error::UpdateWithoutId, ErrorKind::NotFound, "cannot update without _id"),
        (Error::UpdateMissing, ErrorKind::NotFound, "update but does not exist"),
        (Error::IndexConflict, ErrorKind::Conflict, "index already exists with different keys"),
        (
            Error::SystemRename,
            ErrorKind::Conflict,
            "renameCollection with a system collection not allowed.",
        ),
        (Error::BadName, ErrorKind::NotFound, "collection name without a database"),
        (Error::UnexpectedRow, ErrorKind::IntegrityViolation, "step_done() returned a row"),
        (Error::WrongChanges, ErrorKind::IntegrityViolation, "changes() is wrong"),
        (Error::NoSession, ErrorKind::SessionState, "must prepare_write()"),
        (Error::BadIndexSpec, ErrorKind::Encoding, "index keys or weights are malformed"),
        (Error::BadBounds, ErrorKind::Encoding, "query bounds do not fit the index"),
        (Error::Corrupt, ErrorKind::CorruptData, "stored document does not decode"),
        (Error::Backend, ErrorKind::Backend, "the backing store failed"),
    ];
    for (e, kind, words) in all {
        assert_eq!(e.kind(), kind);
        assert_eq!(e.message(), words);
    }
}
