use elmo_sqlite3::bounds::{Comparator, KeyBounds, QueryBounds, QueryPlan};
use elmo_sqlite3::catalog::Catalog;
use elmo_sqlite3::error::{Error, ErrorKind};
use elmo_sqlite3::index::IndexInfo;
use elmo_sqlite3::layout::{Expect, Param, Statement};
use elmo_sqlite3::plan::Step;
use elmo_sqlite3::reader::{get_table_scan_reader, next, ReadPlan, Reader};
use elmo_sqlite3::session::{Connection, WriteSession};
use elmo_sqlite3::value::Value;

fn s(x: &str) -> String {
    String::from(x)
}

fn text(x: &str) -> Value {
    Value::Text(s(x))
}

fn num(n: i32) -> Value {
    Value::Int32(n)
}

fn doc(pairs: Vec<(&str, Value)>) -> Value {
    Value::Document(pairs.into_iter().map(|(k, v)| (s(k), v)).collect())
}

fn index(db: &str, coll: &str, name: &str, spec: Value, options: Value) -> IndexInfo {
    IndexInfo { db: s(db), coll: s(coll), name: s(name), spec, options }
}

fn tags_index() -> IndexInfo {
    index("app", "users", "tags_1", doc(vec![("tags", num(1))]), doc(vec![]))
}

fn id_index() -> IndexInfo {
    index("app", "users", "_id_", doc(vec![("_id", num(1))]), doc(vec![("unique", Value::Boolean(true))]))
}

fn entry(name: &str, key: Vec<(Value, bool)>, rowid: i64) -> Step {
    Step::InsertEntry { db: s("app"), coll: s("users"), name: s(name), key, rowid }
}

fn leave(name: &str, rowid: i64) -> Step {
    Step::DeleteEntries { db: s("app"), coll: s("users"), name: s(name), rowid }
}

fn lookup(id: Value) -> Statement {
    Statement {
        sql: s("SELECT doc_rowid FROM \"ndx.app.users._id_\" WHERE k=?"),
        params: vec![Param::Key(vec![(id, false)])],
        expect: Expect::Anything,
    }
}

/// A connection with the collection app.users, its index on tags, and an index of
/// another collection.
fn prepared() -> Connection {
    let mut c = Catalog::new();
    let mut plan = Vec::new();
    c.base_create_collection("app", "posts", Value::Array(vec![]), &mut plan);
    c.base_create_collection("app", "users", Value::Array(vec![]), &mut plan);
    c.create_index(tags_index(), &vec![], &mut plan).unwrap();
    let mut conn = Connection::new(c);
    let mut steps = Vec::new();
    conn.prepare_write("app", "users", &mut steps);
    assert!(steps.is_empty());
    conn
}

fn first() -> Value {
    doc(vec![("_id", num(1)), ("tags", Value::Array(vec![text("a"), text("b")]))])
}

#[test]
fn prepare_write_makes_the_collection_and_opens_the_session() {
    let mut conn = Connection::new(Catalog::new());
    assert_eq!(conn.statements, None);
    let mut plan = Vec::new();
    conn.prepare_write("app", "users", &mut plan);
    assert_eq!(plan.len(), 5);
    assert_eq!(plan[0], Step::InsertCollection { db: s("app"), coll: s("users"), options: Value::Array(vec![]) });
    assert_eq!(
        conn.statements,
        Some(WriteSession { db: s("app"), coll: s("users"), find_rowid: true, indexes: vec![id_index()] })
    );
    assert!(conn.catalog.get_collection_options("app", "users").is_some());
}

#[test]
fn a_session_holds_the_indexes_of_its_collection_only() {
    let conn = prepared();
    let session = conn.statements.as_ref().unwrap();
    assert_eq!(session.indexes, vec![id_index(), tags_index()]);
    assert!(session.find_rowid);
}

#[test]
fn a_collection_without_id_index_has_no_lookup() {
    let mut c = Catalog::new();
    let mut plan = Vec::new();
    c.base_create_collection("app", "log", doc(vec![("autoIndexId", Value::Boolean(false))]), &mut plan);
    let mut conn = Connection::new(c);
    conn.prepare_write("app", "log", &mut plan);
    assert!(!conn.statements.as_ref().unwrap().find_rowid);
    assert_eq!(conn.find_rowid(&num(1)), Ok(None));
    assert_eq!(conn.update_lookup(&first()), Err(Error::UpdateMissing));
}

#[test]
fn preparing_again_replaces_the_session() {
    let mut conn = prepared();
    let mut plan = Vec::new();
    conn.prepare_write("app", "posts", &mut plan);
    assert!(plan.is_empty());
    assert_eq!(conn.statements.as_ref().unwrap().coll, "posts");
    assert_eq!(conn.statements.as_ref().unwrap().indexes.len(), 1);
    conn.unprepare_write();
    assert_eq!(conn.statements, None);
}

#[test]
fn writes_without_a_session_fail() {
    let conn = Connection::new(Catalog::new());
    assert_eq!(conn.insert(first()), Err(Error::NoSession));
    assert_eq!(conn.after_insert(1, &first()), Err(Error::NoSession));
    assert_eq!(conn.find_rowid(&num(1)), Err(Error::NoSession));
    assert_eq!(conn.update_lookup(&first()), Err(Error::NoSession));
    assert_eq!(conn.update(first(), Some(1)), Err(Error::NoSession));
    assert_eq!(conn.delete(Some(1)), Err(Error::NoSession));
    assert_eq!(conn.after_delete(1, 1), Err(Error::NoSession));
    assert_eq!(Error::NoSession.kind(), ErrorKind::SessionState);
    let mut closed = prepared();
    closed.unprepare_write();
    assert_eq!(closed.insert(first()), Err(Error::NoSession));
}

#[test]
fn insert_stores_the_document_and_enters_it_everywhere() {
    let conn = prepared();
    assert_eq!(
        conn.insert(first()),
        Ok(Step::InsertDocument { db: s("app"), coll: s("users"), doc: first() })
    );
    assert_eq!(
        conn.after_insert(7, &first()),
        Ok(vec![
            leave("_id_", 7),
            leave("tags_1", 7),
            entry("_id_", vec![(num(1), false)], 7),
            entry("tags_1", vec![(text("a"), false)], 7),
            entry("tags_1", vec![(text("b"), false)], 7),
        ])
    );
}

#[test]
fn update_replaces_the_document_and_its_entries() {
    let conn = prepared();
    let second = doc(vec![("_id", num(1)), ("tags", Value::Array(vec![text("a")]))]);
    assert_eq!(conn.update_lookup(&second), Ok(lookup(num(1))));
    let steps = conn.update(second.clone(), Some(7)).unwrap();
    assert_eq!(
        steps,
        vec![
            Step::UpdateDocument { db: s("app"), coll: s("users"), rowid: 7, doc: second },
            leave("_id_", 7),
            leave("tags_1", 7),
            entry("_id_", vec![(num(1), false)], 7),
            entry("tags_1", vec![(text("a"), false)], 7),
        ]
    );
    let left: Vec<&Step> = steps
        .iter()
        .filter(|step| matches!(step, Step::InsertEntry { name, .. } if name == "tags_1"))
        .collect();
    assert_eq!(left, vec![&entry("tags_1", vec![(text("a"), false)], 7)]);
    let gone = steps.iter().position(|step| *step == leave("tags_1", 7)).unwrap();
    let back = steps.iter().position(|step| matches!(step, Step::InsertEntry { .. })).unwrap();
    assert!(gone < back);
}

#[test]
fn update_needs_an_id_and_a_stored_document() {
    let conn = prepared();
    let nameless = doc(vec![("tags", text("a"))]);
    assert_eq!(conn.update_lookup(&nameless), Err(Error::UpdateWithoutId));
    assert_eq!(conn.update_lookup(&num(1)), Err(Error::UpdateWithoutId));
    assert_eq!(conn.update(first(), None), Err(Error::UpdateMissing));
    assert_eq!(Error::UpdateMissing.kind(), ErrorKind::NotFound);
    assert_eq!(Error::UpdateWithoutId.kind(), ErrorKind::NotFound);
    let no_session = Connection::new(Catalog::new());
    assert_eq!(no_session.update_lookup(&nameless), Err(Error::UpdateWithoutId));
    assert_eq!(no_session.update(first(), None), Err(Error::UpdateMissing));
}

#[test]
fn delete_removes_the_document_and_its_entries() {
    let conn = prepared();
    assert_eq!(conn.find_rowid(&num(1)), Ok(Some(lookup(num(1)))));
    assert_eq!(conn.delete(None), Ok(None));
    assert_eq!(
        conn.delete(Some(7)),
        Ok(Some(Step::DeleteDocument { db: s("app"), coll: s("users"), rowid: 7 }))
    );
    assert_eq!(conn.after_delete(7, 1), Ok((true, vec![leave("_id_", 7), leave("tags_1", 7)])));
    assert_eq!(conn.after_delete(7, 0), Ok((false, vec![])));
    assert_eq!(conn.after_delete(7, 2), Err(Error::WrongChanges));
    assert_eq!(conn.after_delete(7, u64::MAX), Err(Error::WrongChanges));
}

#[test]
fn an_index_that_cannot_be_normalized_stops_the_write() {
    let mut conn = prepared();
    conn.statements.as_mut().unwrap().indexes.push(index(
        "app",
        "users",
        "bad",
        doc(vec![("x", text("hashed"))]),
        doc(vec![]),
    ));
    assert_eq!(conn.after_insert(1, &first()), Err(Error::BadIndexSpec));
    assert_eq!(conn.update(first(), Some(1)), Err(Error::BadIndexSpec));
    let session = conn.statements.as_ref().unwrap();
    assert_eq!(session.update_indexes_insert(1, &first()), Err(Error::BadIndexSpec));
    assert_eq!(session.update_indexes_delete(1).len(), 3);
}

#[test]
fn a_read_of_a_missing_collection_is_empty() {
    let c = Catalog::new();
    assert_eq!(c.get_reader(true, "app", "users", None), Ok(ReadPlan::Empty));
    let plan = QueryPlan { ndx: tags_index(), bounds: QueryBounds::EQ(vec![text("a")]) };
    assert_eq!(c.get_reader(true, "app", "users", Some(&plan)), Ok(ReadPlan::Empty));
    let odd = QueryPlan { ndx: tags_index(), bounds: QueryBounds::Text(vec![], s("a")) };
    assert_eq!(c.get_reader(false, "app", "users", Some(&odd)), Ok(ReadPlan::Empty));
}

#[test]
fn a_read_without_a_query_plan_scans_the_table() {
    let conn = prepared();
    let want = Statement {
        sql: s("SELECT bson FROM \"docs.app.users\""),
        params: vec![],
        expect: Expect::Anything,
    };
    assert_eq!(get_table_scan_reader("app", "users"), want);
    assert_eq!(
        conn.catalog.get_reader(true, "app", "users", None),
        Ok(ReadPlan::TableScan { tx: true, statement: want })
    );
}

#[test]
fn a_read_with_a_query_plan_scans_the_index() {
    let conn = prepared();
    let plan = QueryPlan {
        ndx: index("app", "users", "age_-1", doc(vec![("age", num(-1))]), doc(vec![])),
        bounds: QueryBounds::GTE_LT(vec![num(5)], vec![num(10)]),
    };
    assert_eq!(
        conn.catalog.get_reader(false, "app", "users", Some(&plan)),
        Ok(ReadPlan::IndexScan {
            tx: false,
            db: s("app"),
            coll: s("users"),
            name: s("age_-1"),
            bounds: KeyBounds::Two(
                Comparator::Gte,
                vec![(num(5), true)],
                Comparator::Lt,
                vec![(num(10), true)]
            ),
        })
    );
}

#[test]
fn a_read_refuses_plans_it_cannot_follow() {
    let conn = prepared();
    let by_text = QueryPlan { ndx: tags_index(), bounds: QueryBounds::Text(vec![], s("a")) };
    assert_eq!(conn.catalog.get_reader(true, "app", "users", Some(&by_text)), Err(Error::BadBounds));
    let long = QueryPlan { ndx: tags_index(), bounds: QueryBounds::EQ(vec![num(1), num(2)]) };
    assert_eq!(conn.catalog.get_reader(true, "app", "users", Some(&long)), Err(Error::BadBounds));
    let bad = QueryPlan {
        ndx: index("app", "users", "bad", Value::Null, doc(vec![])),
        bounds: QueryBounds::EQ(vec![]),
    };
    assert_eq!(conn.catalog.get_reader(true, "app", "users", Some(&bad)), Err(Error::BadIndexSpec));
}

#[test]
fn a_reader_releases_the_transaction_it_opened() {
    let owning = Reader::new(true, Some(get_table_scan_reader("app", "users")));
    assert!(owning.tx);
    assert_eq!(owning.begin(), Some(Step::Begin));
    assert_eq!(owning.release(), Some(Step::Commit));
    assert_eq!(owning.get_total_keys_examined(), 0);
    let borrowed = Reader::new(false, Some(get_table_scan_reader("app", "users")));
    assert_eq!(borrowed.begin(), None);
    assert_eq!(borrowed.release(), None);
    let empty = Reader::new(true, None);
    assert!(!empty.tx);
    assert_eq!(empty.begin(), None);
    assert_eq!(empty.release(), None);
    assert_eq!(empty.get_total_keys_examined(), 0);
}

#[test]
fn a_reader_hands_on_rows_failures_and_the_end() {
    assert_eq!(next(Ok(Some(first()))), Some(Ok(first())));
    assert_eq!(next::<Value>(Ok(None)), None);
    assert_eq!(next::<Value>(Err(Error::Corrupt)), Some(Err(Error::Corrupt)));
    assert_eq!(next::<Value>(Err(Error::Backend)), Some(Err(Error::Backend)));
    assert_eq!(Error::Corrupt.kind(), ErrorKind::CorruptData);
    assert_eq!(Error::Backend.kind(), ErrorKind::Backend);
}
