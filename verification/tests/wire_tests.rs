use elmo_sqlite3::error::{Error, ErrorKind};
use elmo_sqlite3::value::Value;
use elmo_sqlite3::wire::{
    body_length, create_reply, parse_message_from_client, reply_2004, reply_insert, reply_cmd,
    reply_err, slurp_header, ClientMsg, MsgGetMore, MsgKillCursors, MsgQuery, Reply, Routed,
};

fn s(x: &str) -> String {
    String::from(x)
}

fn doc(pairs: Vec<(&str, Value)>) -> Value {
    Value::Document(pairs.into_iter().map(|(k, v)| (s(k), v)).collect())
}

fn header(request_id: i32, kind: i32) -> Vec<u8> {
    let mut b = Vec::new();
    b.extend_from_slice(&0i32.to_le_bytes());
    b.extend_from_slice(&request_id.to_le_bytes());
    b.extend_from_slice(&(-3i32).to_le_bytes());
    b.extend_from_slice(&kind.to_le_bytes());
    b
}

/// A stand-in for a document in binary form: its length and then `fill` bytes.
fn binary(fill: &[u8]) -> Vec<u8> {
    let mut b = ((fill.len() + 4) as i32).to_le_bytes().to_vec();
    b.extend_from_slice(fill);
    b
}

fn query_message(name: &[u8], query: &[u8], selector: Option<&[u8]>) -> Vec<u8> {
    let mut b = header(77, 2004);
    b.extend_from_slice(&5i32.to_le_bytes());
    b.extend_from_slice(name);
    b.push(0);
    b.extend_from_slice(&(-1i32).to_le_bytes());
    b.extend_from_slice(&100i32.to_le_bytes());
    b.extend_from_slice(query);
    if let Some(sel) = selector {
        b.extend_from_slice(sel);
    }
    b
}

#[test]
fn the_header_is_four_numbers() {
    let mut b = Vec::new();
    for n in [0x0102_0304i32, -1, i32::MIN, 2004] {
        b.extend_from_slice(&n.to_le_bytes());
    }
    assert_eq!(slurp_header(&b), (0x0102_0304, -1, i32::MIN, 2004));
    b.push(9);
    assert_eq!(slurp_header(&b), (0x0102_0304, -1, i32::MIN, 2004));
}

#[test]
fn a_query_message() {
    let q = binary(&[1, 2, 3, 0]);
    let b = query_message(b"app.$cmd", &q, None);
    assert_eq!(
        parse_message_from_client(&b),
        Ok(ClientMsg::Query(MsgQuery {
            request_id: 77,
            flags: 5,
            full_collection_name: b"app.$cmd".to_vec(),
            number_to_skip: -1,
            number_to_return: 100,
            query: q,
            return_fields_selector: None,
        }))
    );
}

#[test]
fn a_query_message_with_a_selector_of_fields() {
    let q = binary(&[0]);
    let sel = binary(&[7, 7, 0]);
    let b = query_message(b"", &q, Some(&sel));
    assert_eq!(
        parse_message_from_client(&b),
        Ok(ClientMsg::Query(MsgQuery {
            request_id: 77,
            flags: 5,
            full_collection_name: vec![],
            number_to_skip: -1,
            number_to_return: 100,
            query: q,
            return_fields_selector: Some(sel),
        }))
    );
}

#[test]
fn a_query_message_that_is_cut_short() {
    let q = binary(&[1, 2, 3, 0]);
    let sel = binary(&[7, 0]);
    let whole = query_message(b"app.users", &q, Some(&sel));
    assert!(parse_message_from_client(&whole).is_ok());
    let without_selector = whole.len() - sel.len();
    for n in 0..whole.len() {
        if n != without_selector {
            assert_eq!(parse_message_from_client(&whole[..n]), Err(Error::BadMessage), "{}", n);
        }
    }
    assert!(parse_message_from_client(&whole[..without_selector]).is_ok());
    assert_eq!(Error::BadMessage.kind(), ErrorKind::CorruptData);
}

#[test]
fn a_query_message_with_a_document_of_no_length() {
    let mut short = 4i32.to_le_bytes().to_vec();
    short.push(0);
    assert_eq!(
        parse_message_from_client(&query_message(b"a.b", &short, None)),
        Err(Error::BadMessage)
    );
    let negative = (-8i32).to_le_bytes().to_vec();
    assert_eq!(
        parse_message_from_client(&query_message(b"a.b", &negative, None)),
        Err(Error::BadMessage)
    );
    let smallest = binary(&[0]);
    assert!(parse_message_from_client(&query_message(b"a.b", &smallest, None)).is_ok());
}

#[test]
fn a_message_that_asks_for_more() {
    let mut b = header(9, 2005);
    b.extend_from_slice(&0i32.to_le_bytes());
    b.extend_from_slice(b"app.users\0");
    b.extend_from_slice(&25i32.to_le_bytes());
    b.extend_from_slice(&(-0x0102_0304_0506_0708i64).to_le_bytes());
    assert_eq!(
        parse_message_from_client(&b),
        Ok(ClientMsg::GetMore(MsgGetMore {
            request_id: 9,
            full_collection_name: b"app.users".to_vec(),
            number_to_return: 25,
            cursor_id: -0x0102_0304_0506_0708,
        }))
    );
    for n in 0..b.len() {
        assert_eq!(parse_message_from_client(&b[..n]), Err(Error::BadMessage));
    }
    b.push(1);
    assert!(parse_message_from_client(&b).is_ok());
}

#[test]
fn a_message_that_gives_cursors_up() {
    let mut b = header(3, 2007);
    b.extend_from_slice(&0i32.to_le_bytes());
    b.extend_from_slice(&3i32.to_le_bytes());
    for c in [1i64, -1, i64::MAX] {
        b.extend_from_slice(&c.to_le_bytes());
    }
    assert_eq!(
        parse_message_from_client(&b),
        Ok(ClientMsg::KillCursors(MsgKillCursors { request_id: 3, cursor_ids: vec![1, -1, i64::MAX] }))
    );
    assert_eq!(parse_message_from_client(&b[..b.len() - 1]), Err(Error::BadMessage));
    let mut none = header(3, 2007);
    none.extend_from_slice(&0i32.to_le_bytes());
    none.extend_from_slice(&0i32.to_le_bytes());
    assert_eq!(
        parse_message_from_client(&none),
        Ok(ClientMsg::KillCursors(MsgKillCursors { request_id: 3, cursor_ids: vec![] }))
    );
    let mut negative = header(3, 2007);
    negative.extend_from_slice(&0i32.to_le_bytes());
    negative.extend_from_slice(&(-5i32).to_le_bytes());
    assert_eq!(
        parse_message_from_client(&negative),
        Ok(ClientMsg::KillCursors(MsgKillCursors { request_id: 3, cursor_ids: vec![] }))
    );
    let mut huge = header(3, 2007);
    huge.extend_from_slice(&0i32.to_le_bytes());
    huge.extend_from_slice(&i32::MAX.to_le_bytes());
    assert_eq!(parse_message_from_client(&huge), Err(Error::BadMessage));
}

#[test]
fn a_message_of_unknown_kind() {
    for kind in [0, 1, 2001, 2003, 2006, 2008, -2004] {
        let mut b = header(1, kind);
        b.extend_from_slice(&[0; 64]);
        assert_eq!(parse_message_from_client(&b), Err(Error::BadMessage));
    }
    assert_eq!(parse_message_from_client(&[]), Err(Error::BadMessage));
}

#[test]
fn the_length_of_a_message_body() {
    assert_eq!(body_length(&4u32.to_le_bytes()), Ok(0));
    assert_eq!(body_length(&100u32.to_le_bytes()), Ok(96));
    assert_eq!(body_length(&[0x10, 0x01, 0, 0]), Ok(0x110 - 4));
    assert_eq!(body_length(&3u32.to_le_bytes()), Err(Error::BadMessage));
    assert_eq!(body_length(&0u32.to_le_bytes()), Err(Error::BadMessage));
}

#[test]
fn replies() {
    let docs = vec![doc(vec![("a", Value::Int32(1))])];
    assert_eq!(
        create_reply(5, docs.clone(), 9),
        Reply {
            request_id: 0,
            response_to: 5,
            response_flags: 0,
            cursor_id: 9,
            starting_from: 0,
            documents: docs,
        }
    );
    assert_eq!(
        reply_err(5),
        Reply {
            request_id: 0,
            response_to: 5,
            response_flags: 0,
            cursor_id: 0,
            starting_from: 0,
            documents: vec![doc(vec![("ok", Value::Int32(0))])],
        }
    );
}

#[test]
fn the_reply_to_an_insert() {
    let one = Value::Double(1.0f64.to_bits());
    assert_eq!(
        reply_insert(8, 3, vec![]).documents,
        vec![doc(vec![("n", Value::Int32(3)), ("ok", one.clone())])]
    );
    assert_eq!(reply_insert(8, 0, vec![]).documents, vec![doc(vec![("n", Value::Int32(0)), ("ok", one.clone())])]);
    let failed = vec![doc(vec![("index", Value::Int32(1))])];
    assert_eq!(
        reply_insert(8, 3, failed.clone()),
        Reply {
            request_id: 0,
            response_to: 8,
            response_flags: 0,
            cursor_id: 0,
            starting_from: 0,
            documents: vec![doc(vec![
                ("n", Value::Int32(2)),
                ("writeErrors", Value::Array(failed)),
                ("ok", one),
            ])],
        }
    );
}

#[test]
fn the_bytes_of_a_reply() {
    let r = Reply {
        request_id: 0x0102_0304,
        response_to: -2,
        response_flags: 8,
        cursor_id: 0x1122_3344_5566_7788,
        starting_from: 3,
        documents: vec![Value::Null, Value::Null],
    };
    let docs = vec![vec![5u8, 0, 0, 0, 0], vec![6, 0, 0, 0, 9, 0]];
    let mut want = Vec::new();
    want.extend_from_slice(&47u32.to_be_bytes());
    want.extend_from_slice(&0x0102_0304i32.to_le_bytes());
    want.extend_from_slice(&(-2i32).to_le_bytes());
    want.extend_from_slice(&1u32.to_le_bytes());
    want.extend_from_slice(&8i32.to_le_bytes());
    want.extend_from_slice(&0x1122_3344_5566_7788i64.to_le_bytes());
    want.extend_from_slice(&3i32.to_le_bytes());
    want.extend_from_slice(&2u32.to_le_bytes());
    want.extend_from_slice(&docs[0]);
    want.extend_from_slice(&docs[1]);
    assert_eq!(want.len(), 47);
    assert_eq!(r.encode_reply(&docs), want);
    let empty = create_reply(1, vec![], 0).encode_reply(&vec![]);
    assert_eq!(empty.len(), 36);
    assert_eq!(&empty[..4], &[0, 0, 0, 36]);
}

#[test]
fn commands_are_routed_by_their_first_field() {
    let docs = vec![doc(vec![("_id", Value::Int32(1))]), Value::Null];
    let insert = doc(vec![
        ("insert", Value::Text(s("users"))),
        ("ordered", Value::Boolean(true)),
        ("documents", Value::Array(docs.clone())),
    ]);
    let want = Routed::Insert { db: s("app"), coll: s("users"), documents: docs.clone() };
    assert_eq!(reply_cmd("app", &insert), want);
    assert_eq!(reply_2004("app.$cmd", &insert), want);
    assert_eq!(reply_2004("app.$cmd.more", &insert), want);
    let later = doc(vec![
        ("documents", Value::Array(docs.clone())),
        ("insert", Value::Text(s("users"))),
    ]);
    assert_eq!(reply_cmd("app", &later), Routed::Refused);
    for bad in [
        doc(vec![]),
        doc(vec![("find", Value::Text(s("users")))]),
        doc(vec![("insert", Value::Int32(1)), ("documents", Value::Array(vec![]))]),
        doc(vec![("insert", Value::Text(s("users")))]),
        doc(vec![("insert", Value::Text(s("users"))), ("documents", Value::Null)]),
        Value::Array(vec![]),
        Value::Null,
    ] {
        assert_eq!(reply_cmd("app", &bad), Routed::Refused);
        assert_eq!(reply_2004("app.$cmd", &bad), Routed::Refused);
    }
}

#[test]
fn requests_that_are_no_commands_are_refused() {
    let insert = doc(vec![
        ("insert", Value::Text(s("users"))),
        ("documents", Value::Array(vec![])),
    ]);
    for name in [
        "",
        "app",
        "app.users",
        "admin.$cmd",
        "admin.users",
        "app.$cmd.sys.inprog",
        "app.system.indexes",
        "app.system.namespaces",
        ".x",
    ] {
        assert_eq!(reply_2004(name, &insert), Routed::Refused, "{}", name);
    }
    assert_eq!(
        reply_2004(".$cmd", &insert),
        Routed::Insert { db: s(""), coll: s("users"), documents: vec![] }
    );
    assert_eq!(
        reply_2004("app.$cmd.sys.inprog.x", &insert),
        Routed::Insert { db: s("app"), coll: s("users"), documents: vec![] }
    );
}
