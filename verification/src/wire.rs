//! The messages between a client and the server: how a message from a client is cut into
//! its parts, how a request is routed, and how a reply is laid out in bytes.
//!
//! Documents travel in their binary form, which begins with its own length; here they are
//! cut out and put in as bytes.

use crate::error::Error;
use crate::text::{split, split_at_each};
use crate::value::{field, Val, Value};
use vstd::bytes::{
    spec_u32_from_le_bytes, spec_u32_to_le_bytes, spec_u64_from_le_bytes, spec_u64_to_le_bytes,
    u32_from_le_bytes, u32_to_le_bytes, u64_from_le_bytes, u64_to_le_bytes,
};
use vstd::prelude::*;
use vstd::slice::slice_subrange;

verus! {

/// The content of a query message.
pub struct MsgQueryV {
    pub request_id: i32,
    pub flags: i32,
    pub full_collection_name: Seq<u8>,
    pub number_to_skip: i32,
    pub number_to_return: i32,
    pub query: Seq<u8>,
    pub return_fields_selector: Option<Seq<u8>>,
}

/// A query or a command: the collection it is for, by its full name as bytes, and the
/// query document and the optional selector of fields, both in binary form.
#[derive(Debug, PartialEq, Eq)]
pub struct MsgQuery {
    pub request_id: i32,
    pub flags: i32,
    pub full_collection_name: Vec<u8>,
    pub number_to_skip: i32,
    pub number_to_return: i32,
    pub query: Vec<u8>,
    pub return_fields_selector: Option<Vec<u8>>,
}

/// The content of a message that asks for more of a cursor.
pub struct MsgGetMoreV {
    pub request_id: i32,
    pub full_collection_name: Seq<u8>,
    pub number_to_return: i32,
    pub cursor_id: i64,
}

/// A message that asks for more documents of a cursor.
#[derive(Debug, PartialEq, Eq)]
pub struct MsgGetMore {
    pub request_id: i32,
    pub full_collection_name: Vec<u8>,
    pub number_to_return: i32,
    pub cursor_id: i64,
}

/// The content of a message that gives cursors up.
pub struct MsgKillCursorsV {
    pub request_id: i32,
    pub cursor_ids: Seq<i64>,
}

/// A message that gives cursors up.
#[derive(Debug, PartialEq, Eq)]
pub struct MsgKillCursors {
    pub request_id: i32,
    pub cursor_ids: Vec<i64>,
}

/// The content of a message from a client.
pub enum ClientMsgV {
    Query(MsgQueryV),
    GetMore(MsgGetMoreV),
    KillCursors(MsgKillCursorsV),
}

/// A message from a client.
#[derive(Debug, PartialEq, Eq)]
pub enum ClientMsg {
    Query(MsgQuery),
    GetMore(MsgGetMore),
    KillCursors(MsgKillCursors),
}

impl View for ClientMsg {
    type V = ClientMsgV;

    open spec fn view(&self) -> ClientMsgV {
        match self {
            ClientMsg::Query(q) => ClientMsgV::Query(
                MsgQueryV {
                    request_id: q.request_id,
                    flags: q.flags,
                    full_collection_name: q.full_collection_name@,
                    number_to_skip: q.number_to_skip,
                    number_to_return: q.number_to_return,
                    query: q.query@,
                    return_fields_selector: match q.return_fields_selector {
                        Some(d) => Some(d@),
                        None => None,
                    },
                },
            ),
            ClientMsg::GetMore(m) => ClientMsgV::GetMore(
                MsgGetMoreV {
                    request_id: m.request_id,
                    full_collection_name: m.full_collection_name@,
                    number_to_return: m.number_to_return,
                    cursor_id: m.cursor_id,
                },
            ),
            ClientMsg::KillCursors(k) => ClientMsgV::KillCursors(
                MsgKillCursorsV { request_id: k.request_id, cursor_ids: k.cursor_ids@ },
            ),
        }
    }
}

/// The number that the four bytes at `i` write, least significant byte first.
pub open spec fn i32_at(b: Seq<u8>, i: int) -> i32 {
    spec_u32_from_le_bytes(b.subrange(i, i + 4)) as i32
}

/// The number that the eight bytes at `i` write, least significant byte first.
pub open spec fn i64_at(b: Seq<u8>, i: int) -> i64 {
    spec_u64_from_le_bytes(b.subrange(i, i + 8)) as i64
}

/// How many bytes from `i` on come before the first zero byte; all that are left where
/// there is none.
pub open spec fn text_len(b: Seq<u8>, i: int) -> int
    decreases b.len() - i,
{
    if 0 <= i < b.len() && b[i] != 0 {
        1 + text_len(b, i + 1)
    } else {
        0
    }
}

/// The numbers that the `n` groups of eight bytes from `i` on write.
pub open spec fn i64s_at(b: Seq<u8>, i: int, n: int) -> Seq<i64> {
    Seq::new(
        if n > 0 {
            n as nat
        } else {
            0
        },
        |k: int| i64_at(b, i + 8 * k),
    )
}

/// The end of the document in binary form that begins at `i`, if the bytes hold it whole:
/// its first four bytes give its length, which covers at least themselves and one byte
/// more.
pub open spec fn document_end(b: Seq<u8>, i: int) -> Option<int> {
    if 0 <= i && i + 4 <= b.len() && i32_at(b, i) >= 5 && i + i32_at(b, i) <= b.len() {
        Some(i + i32_at(b, i))
    } else {
        None
    }
}

/// The query message in the bytes after the header.
pub open spec fn parsed_query(b: Seq<u8>, request_id: i32) -> Option<ClientMsgV> {
    let name_at = 20int;
    let n = text_len(b, name_at);
    let skip_at = name_at + n + 1;
    let query_at = skip_at + 8;
    if b.len() < query_at {
        None
    } else {
        match document_end(b, query_at) {
            None => None,
            Some(end) => if end < b.len() {
                match document_end(b, end) {
                    None => None,
                    Some(last) => Some(
                        ClientMsgV::Query(
                            MsgQueryV {
                                request_id,
                                flags: i32_at(b, 16),
                                full_collection_name: b.subrange(name_at, name_at + n),
                                number_to_skip: i32_at(b, skip_at),
                                number_to_return: i32_at(b, skip_at + 4),
                                query: b.subrange(query_at, end),
                                return_fields_selector: Some(b.subrange(end, last)),
                            },
                        ),
                    ),
                }
            } else {
                Some(
                    ClientMsgV::Query(
                        MsgQueryV {
                            request_id,
                            flags: i32_at(b, 16),
                            full_collection_name: b.subrange(name_at, name_at + n),
                            number_to_skip: i32_at(b, skip_at),
                            number_to_return: i32_at(b, skip_at + 4),
                            query: b.subrange(query_at, end),
                            return_fields_selector: None,
                        },
                    ),
                )
            },
        }
    }
}

/// The message that asks for more in the bytes after the header.
pub open spec fn parsed_get_more(b: Seq<u8>, request_id: i32) -> Option<ClientMsgV> {
    let name_at = 20int;
    let n = text_len(b, name_at);
    let rest_at = name_at + n + 1;
    if b.len() < rest_at + 12 {
        None
    } else {
        Some(
            ClientMsgV::GetMore(
                MsgGetMoreV {
                    request_id,
                    full_collection_name: b.subrange(name_at, name_at + n),
                    number_to_return: i32_at(b, rest_at),
                    cursor_id: i64_at(b, rest_at + 4),
                },
            ),
        )
    }
}

/// The message that gives cursors up in the bytes after the header.
pub open spec fn parsed_kill_cursors(b: Seq<u8>, request_id: i32) -> Option<ClientMsgV> {
    if b.len() < 24 {
        None
    } else {
        let n = i32_at(b, 20);
        if n > 0 && b.len() < 24 + 8 * n {
            None
        } else {
            Some(
                ClientMsgV::KillCursors(
                    MsgKillCursorsV { request_id, cursor_ids: i64s_at(b, 24, n as int) },
                ),
            )
        }
    }
}

/// The message that the bytes hold, if they hold one whole message of a known kind.
///
/// A message begins with four numbers of four bytes: its length, the identifier of the
/// request, the identifier that it responds to, and its kind. What follows depends on the
/// kind. The kind with the number 2004 is a query: flags, the full collection name ended by a zero byte, how
/// many documents to skip and to return, the query document, and, if bytes are left, the
/// selector of fields. The one with the number 2005 asks for more: four bytes unread, the full collection
/// name, how many documents to return, and the cursor. The one with the number 2007 gives cursors up: four
/// bytes unread, the number of cursors, and the cursors.
pub open spec fn parsed(b: Seq<u8>) -> Option<ClientMsgV> {
    if b.len() < 20 {
        None
    } else {
        let request_id = i32_at(b, 4);
        let kind = i32_at(b, 12);
        if kind == 2004 {
            parsed_query(b, request_id)
        } else if kind == 2005 {
            parsed_get_more(b, request_id)
        } else if kind == 2007 {
            parsed_kill_cursors(b, request_id)
        } else {
            None
        }
    }
}

/// The four bytes of a number, most significant byte first.
pub open spec fn be_bytes(x: u32) -> Seq<u8> {
    seq![(x >> 24) as u8, ((x >> 16) & 0xff) as u8, ((x >> 8) & 0xff) as u8, (x & 0xff) as u8]
}

/// Byte strings one after the other.
pub open spec fn joined(parts: Seq<Seq<u8>>) -> Seq<u8>
    decreases parts.len(),
{
    if parts.len() == 0 {
        Seq::empty()
    } else {
        joined(parts.drop_last()) + parts.last()
    }
}

/// The bytes of each byte string.
pub open spec fn bodies(docs: Seq<Vec<u8>>) -> Seq<Seq<u8>> {
    Seq::new(docs.len(), |i: int| docs[i]@)
}

/// The content of a reply.
pub struct ReplyV {
    pub request_id: i32,
    pub response_to: i32,
    pub response_flags: i32,
    pub cursor_id: i64,
    pub starting_from: i32,
    pub documents: Seq<Val>,
}

/// A reply to a client.
#[derive(Debug, PartialEq, Eq)]
pub struct Reply {
    pub request_id: i32,
    pub response_to: i32,
    pub response_flags: i32,
    pub cursor_id: i64,
    pub starting_from: i32,
    pub documents: Vec<Value>,
}

impl DeepView for Reply {
    type V = ReplyV;

    open spec fn deep_view(&self) -> ReplyV {
        ReplyV {
            request_id: self.request_id,
            response_to: self.response_to,
            response_flags: self.response_flags,
            cursor_id: self.cursor_id,
            starting_from: self.starting_from,
            documents: self.documents.deep_view(),
        }
    }
}

/// The part of an encoded reply that follows its length: the identifiers, the kind of a
/// reply, which is 1, the flags, the cursor, the position of the first document, the number
/// of documents, and the documents.
pub open spec fn reply_body(r: ReplyV, docs: Seq<Seq<u8>>) -> Seq<u8> {
    spec_u32_to_le_bytes(r.request_id as u32) + spec_u32_to_le_bytes(r.response_to as u32)
        + spec_u32_to_le_bytes(1) + spec_u32_to_le_bytes(r.response_flags as u32)
        + spec_u64_to_le_bytes(r.cursor_id as u64) + spec_u32_to_le_bytes(r.starting_from as u32)
        + spec_u32_to_le_bytes(docs.len() as u32) + joined(docs)
}

/// The bytes of a reply whose documents have the binary forms `docs`: the length of the
/// whole, most significant byte first, and then the body.
pub open spec fn encoded_reply(r: ReplyV, docs: Seq<Seq<u8>>) -> Seq<u8> {
    be_bytes((4 + reply_body(r, docs).len()) as u32) + reply_body(r, docs)
}

/// The reply to the request `request_id` with the given documents and cursor.
pub open spec fn reply_to(request_id: i32, documents: Seq<Val>, cursor_id: i64) -> ReplyV {
    ReplyV {
        request_id: 0,
        response_to: request_id,
        response_flags: 0,
        cursor_id,
        starting_from: 0,
        documents,
    }
}

/// The document that reports a failure.
pub open spec fn failure() -> Val {
    Val::Document(seq![("ok"@, Val::Int32(0))])
}

/// The bits of the floating-point number one.
pub open spec fn one() -> u64 {
    0x3ff0_0000_0000_0000
}

/// The document that reports what an insert did: how many documents went in, the failures
/// where there were any, and that the command itself went well.
pub open spec fn insert_report(n: i32, write_errors: Seq<Val>) -> Val {
    if write_errors.len() > 0 {
        Val::Document(
            seq![
                ("n"@, Val::Int32(n)),
                ("writeErrors"@, Val::Array(write_errors)),
                ("ok"@, Val::Double(one())),
            ],
        )
    } else {
        Val::Document(seq![("n"@, Val::Int32(n)), ("ok"@, Val::Double(one()))])
    }
}

/// The database of a command: a request is a command where its collection is `$cmd`, its
/// database is not `admin`, and its name is not that of the operations in progress.
pub open spec fn command_db(name: Seq<char>) -> Option<Seq<char>> {
    let parts = split(name, '.');
    if parts.len() >= 2 && parts[0] != "admin"@ && parts[1] == "$cmd"@ && !(parts.len() == 4
        && parts[2] == "sys"@ && parts[3] == "inprog"@) {
        Some(parts[0])
    } else {
        None
    }
}

/// The content of a routed request.
pub enum RoutedV {
    Insert { db: Seq<char>, coll: Seq<char>, documents: Seq<Val> },
    Refused,
}

/// What a request asks for.
#[derive(Debug, PartialEq, Eq)]
pub enum Routed {
    /// To insert the documents into the collection.
    Insert { db: String, coll: String, documents: Vec<Value> },
    /// Nothing that can be answered but by a failure.
    Refused,
}

impl DeepView for Routed {
    type V = RoutedV;

    open spec fn deep_view(&self) -> RoutedV {
        match self {
            Routed::Insert { db, coll, documents } => RoutedV::Insert {
                db: db@,
                coll: coll@,
                documents: documents.deep_view(),
            },
            Routed::Refused => RoutedV::Refused,
        }
    }
}

/// What a command asks for: the command is named by the first field of its document. An
/// insert names its collection by a text and gives its documents as an array.
pub open spec fn routed_command(db: Seq<char>, query: Val) -> RoutedV {
    match query {
        Val::Document(d) => if d.len() > 0 && d[0].0 == "insert"@ {
            match (field(d, "insert"@), field(d, "documents"@)) {
                (Some(Val::Text(coll)), Some(Val::Array(documents))) => RoutedV::Insert {
                    db,
                    coll,
                    documents,
                },
                _ => RoutedV::Refused,
            }
        } else {
            RoutedV::Refused
        },
        _ => RoutedV::Refused,
    }
}

/// What the request with the full collection name `name` and the query document `query`
/// asks for.
pub open spec fn routed(name: Seq<char>, query: Val) -> RoutedV {
    match command_db(name) {
        Some(db) => routed_command(db, query),
        None => RoutedV::Refused,
    }
}

/// Whether `i + n` bytes are there.
fn in_reach(ba: &[u8], i: usize, n: usize) -> (r: bool)
    ensures
        r == (i + n <= ba.len()),
{
    i <= ba.len() && n <= ba.len() - i
}

/// Reads four bytes as a number, least significant byte first.
fn slurp_i32_le(ba: &[u8], i: usize) -> (r: i32)
    requires
        i + 4 <= ba.len(),
    ensures
        r == i32_at(ba@, i as int),
{
    let x = u32_from_le_bytes(slice_subrange(ba, i, i + 4));
    #[verifier::truncate]
    (x as i32)
}

/// Reads eight bytes as a number, least significant byte first.
fn slurp_i64_le(ba: &[u8], i: usize) -> (r: i64)
    requires
        i + 8 <= ba.len(),
    ensures
        r == i64_at(ba@, i as int),
{
    let x = u64_from_le_bytes(slice_subrange(ba, i, i + 8));
    #[verifier::truncate]
    (x as i64)
}

/// A copy of the bytes from `i` to `j`.
fn cut(ba: &[u8], i: usize, j: usize) -> (r: Vec<u8>)
    requires
        i <= j <= ba.len(),
    ensures
        r@ == ba@.subrange(i as int, j as int),
{
    vstd::slice::slice_to_vec(slice_subrange(ba, i, j))
}

/// The position of the first zero byte at or after `i`, or the length where there is none.
fn slurp_cstring(ba: &[u8], i: usize) -> (end: usize)
    requires
        i <= ba.len(),
    ensures
        end == i + text_len(ba@, i as int),
        i <= end <= ba.len(),
{
    let mut end: usize = i;
    while end < ba.len() && ba[end] != 0
        invariant
            i <= end <= ba.len(),
            text_len(ba@, i as int) == (end - i) + text_len(ba@, end as int),
        decreases ba.len() - end,
    {
        end += 1;
    }
    end
}

/// The end of the document in binary form that begins at `i`.
fn slurp_document(ba: &[u8], i: usize) -> (r: Option<usize>)
    requires
        i <= ba.len(),
    ensures
        match document_end(ba@, i as int) {
            Some(end) => r == Some(end as usize) && i + 5 <= end <= ba.len(),
            None => r is None,
        },
{
    if !in_reach(ba, i, 4) {
        return None;
    }
    let n = slurp_i32_le(ba, i);
    if n < 5 {
        return None;
    }
    let len = n as usize;
    if !in_reach(ba, i, len) {
        return None;
    }
    Some(i + len)
}

/// The first four numbers of a message: its length, the identifier of the request, the
/// identifier that it responds to, and its kind.
pub fn slurp_header(ba: &[u8]) -> (r: (i32, i32, i32, i32))
    requires
        ba.len() >= 16,
    ensures
        r == (i32_at(ba@, 0), i32_at(ba@, 4), i32_at(ba@, 8), i32_at(ba@, 12)),
{
    (slurp_i32_le(ba, 0), slurp_i32_le(ba, 4), slurp_i32_le(ba, 8), slurp_i32_le(ba, 12))
}

/// Cuts a message from a client into its parts.
pub fn parse_message_from_client(ba: &[u8]) -> (r: Result<ClientMsg, Error>)
    ensures
        match parsed(ba@) {
            Some(m) => r is Ok && r->Ok_0@ == m,
            None => r is Err && r->Err_0 == Error::BadMessage,
        },
{
    if ba.len() < 20 {
        return Err(Error::BadMessage);
    }
    let (_message_length, request_id, _response_to, kind) = slurp_header(ba);
    if kind == 2004 {
        let flags = slurp_i32_le(ba, 16);
        let name_end = slurp_cstring(ba, 20);
        if !in_reach(ba, name_end, 9) {
            return Err(Error::BadMessage);
        }
        let skip_at = name_end + 1;
        let query_at = skip_at + 8;
        let number_to_skip = slurp_i32_le(ba, skip_at);
        let number_to_return = slurp_i32_le(ba, skip_at + 4);
        let end = match slurp_document(ba, query_at) {
            Some(end) => end,
            None => {
                return Err(Error::BadMessage);
            },
        };
        let return_fields_selector = if end < ba.len() {
            match slurp_document(ba, end) {
                Some(last) => Some(cut(ba, end, last)),
                None => {
                    return Err(Error::BadMessage);
                },
            }
        } else {
            None
        };
        Ok(
            ClientMsg::Query(
                MsgQuery {
                    request_id,
                    flags,
                    full_collection_name: cut(ba, 20, name_end),
                    number_to_skip,
                    number_to_return,
                    query: cut(ba, query_at, end),
                    return_fields_selector,
                },
            ),
        )
    } else if kind == 2005 {
        let name_end = slurp_cstring(ba, 20);
        if !in_reach(ba, name_end, 13) {
            return Err(Error::BadMessage);
        }
        let rest_at = name_end + 1;
        Ok(
            ClientMsg::GetMore(
                MsgGetMore {
                    request_id,
                    full_collection_name: cut(ba, 20, name_end),
                    number_to_return: slurp_i32_le(ba, rest_at),
                    cursor_id: slurp_i64_le(ba, rest_at + 4),
                },
            ),
        )
    } else if kind == 2007 {
        if ba.len() < 24 {
            return Err(Error::BadMessage);
        }
        let n = slurp_i32_le(ba, 20);
        let count: usize = if n > 0 {
            n as usize
        } else {
            0
        };
        if count > (ba.len() - 24) / 8 {
            return Err(Error::BadMessage);
        }
        let mut cursor_ids: Vec<i64> = Vec::new();
        let mut k: usize = 0;
        while k < count
            invariant
                k <= count,
                24 + 8 * count <= ba.len(),
                cursor_ids@.len() == k,
                forall|j: int| 0 <= j < k ==> cursor_ids@[j] == i64_at(ba@, 24 + 8 * j),
            decreases count - k,
        {
            cursor_ids.push(slurp_i64_le(ba, 24 + 8 * k));
            k += 1;
        }
        assert(cursor_ids@ =~= i64s_at(ba@, 24, n as int));
        Ok(ClientMsg::KillCursors(MsgKillCursors { request_id, cursor_ids }))
    } else {
        Err(Error::BadMessage)
    }
}

/// How many bytes of a message follow its first four, which give the length of the whole.
pub fn body_length(first: &[u8]) -> (r: Result<usize, Error>)
    requires
        first.len() == 4,
    ensures
        spec_u32_from_le_bytes(first@) >= 4 ==> r == Ok::<usize, Error>(
            (spec_u32_from_le_bytes(first@) - 4) as usize,
        ),
        spec_u32_from_le_bytes(first@) < 4 ==> r == Err::<usize, Error>(Error::BadMessage),
{
    let n = u32_from_le_bytes(first);
    if n < 4 {
        Err(Error::BadMessage)
    } else {
        Ok((n - 4) as usize)
    }
}

/// The four bytes of a number, most significant byte first.
fn u32_to_bytes_be(x: u32) -> (r: Vec<u8>)
    ensures
        r@ == be_bytes(x),
{
    let mut out: Vec<u8> = Vec::new();
    out.push((x >> 24) as u8);
    out.push(((x >> 16) & 0xff) as u8);
    out.push(((x >> 8) & 0xff) as u8);
    out.push((x & 0xff) as u8);
    assert(out@ =~= be_bytes(x));
    out
}

/// Appends the bytes of `part`.
fn push_all(w: &mut Vec<u8>, part: &Vec<u8>)
    ensures
        final(w)@ == old(w)@ + part@,
{
    let ghost before = w@;
    let mut i: usize = 0;
    while i < part.len()
        invariant
            i <= part.len(),
            w@ == before + part@.take(i as int),
        decreases part.len() - i,
    {
        w.push(part[i]);
        assert(before + part@.take(i + 1) =~= (before + part@.take(i as int)).push(part@[i as int]));
        i += 1;
    }
    assert(part@.take(part.len() as int) =~= part@);
}

/// The reply to the request `req_id` with the given documents and cursor.
pub fn create_reply(req_id: i32, docs: Vec<Value>, crsr_id: i64) -> (r: Reply)
    ensures
        r.deep_view() == reply_to(req_id, docs.deep_view(), crsr_id),
{
    Reply {
        request_id: 0,
        response_to: req_id,
        response_flags: 0,
        cursor_id: crsr_id,
        starting_from: 0,
        documents: docs,
    }
}

/// The reply that reports a failure of the request `request_id`.
pub fn reply_err(request_id: i32) -> (r: Reply)
    ensures
        r.deep_view() == reply_to(request_id, seq![failure()], 0),
{
    let mut pairs: Vec<(String, Value)> = Vec::new();
    pairs.push(("ok".to_owned(), Value::Int32(0)));
    proof {
        crate::value::lemma_document_view(pairs);
        assert(pairs.deep_view() =~= seq![("ok"@, Val::Int32(0))]);
    }
    let mut docs: Vec<Value> = Vec::new();
    docs.push(Value::Document(pairs));
    assert(docs.deep_view() =~= seq![failure()]);
    create_reply(request_id, docs, 0)
}

/// The reply to an insert of `results` documents of which those in `write_errors` failed.
pub fn reply_insert(request_id: i32, results: usize, write_errors: Vec<Value>) -> (r: Reply)
    requires
        write_errors.len() <= results,
    ensures
        r.deep_view() == reply_to(
            request_id,
            seq![insert_report((results - write_errors.len()) as i32, write_errors.deep_view())],
            0,
        ),
{
    let n = #[verifier::truncate]
    ((results - write_errors.len()) as i32);
    let ghost errors = write_errors.deep_view();
    let failed = write_errors.len() > 0;
    let mut pairs: Vec<(String, Value)> = Vec::new();
    pairs.push(("n".to_owned(), Value::Int32(n)));
    if failed {
        proof {
            crate::value::lemma_array_view(write_errors);
        }
        pairs.push(("writeErrors".to_owned(), Value::Array(write_errors)));
    }
    pairs.push(("ok".to_owned(), Value::Double(0x3ff0_0000_0000_0000)));
    proof {
        crate::value::lemma_document_view(pairs);
        if failed {
            assert(pairs.deep_view() =~= seq![
                ("n"@, Val::Int32(n)),
                ("writeErrors"@, Val::Array(errors)),
                ("ok"@, Val::Double(one())),
            ]);
        } else {
            assert(pairs.deep_view() =~= seq![("n"@, Val::Int32(n)), ("ok"@, Val::Double(one()))]);
        }
    }
    let mut docs: Vec<Value> = Vec::new();
    docs.push(Value::Document(pairs));
    assert(docs.deep_view() =~= seq![insert_report(n, errors)]);
    create_reply(request_id, docs, 0)
}

/// What the command with the document `query` asks of the database `db`.
pub fn reply_cmd(db: &str, query: &Value) -> (r: Routed)
    ensures
        r.deep_view() == routed_command(db@, query@),
{
    let first = match query {
        Value::Document(pairs) => {
            proof {
                crate::value::lemma_document_view(*pairs);
            }
            if pairs.len() == 0 {
                return Routed::Refused;
            }
            assert(pairs.deep_view()[0] == (pairs[0].0@, pairs[0].1@));
            let insert = "insert".to_owned();
            pairs[0].0 == insert
        },
        _ => {
            return Routed::Refused;
        },
    };
    if !first {
        return Routed::Refused;
    }
    let coll = match query.find_key("insert") {
        Some(Value::Text(coll)) => coll.clone(),
        _ => {
            return Routed::Refused;
        },
    };
    match query.find_key("documents") {
        Some(Value::Array(docs)) => {
            proof {
                crate::value::lemma_array_view(*docs);
            }
            let mut documents: Vec<Value> = Vec::new();
            let mut i: usize = 0;
            while i < docs.len()
                invariant
                    i <= docs.len(),
                    documents.len() == i,
                    forall|j: int| 0 <= j < i ==> documents[j]@ == docs[j]@,
                decreases docs.len() - i,
            {
                documents.push(docs[i].copy());
                i += 1;
            }
            assert(documents.deep_view() =~= docs.deep_view());
            Routed::Insert { db: db.to_owned(), coll, documents }
        },
        _ => Routed::Refused,
    }
}

/// What the request with the full collection name `name` and the query document `query`
/// asks for.
pub fn reply_2004(name: &str, query: &Value) -> (r: Routed)
    ensures
        r.deep_view() == routed(name@, query@),
{
    let pair = split_at_each(name, '.');
    if pair.len() < 2 {
        return Routed::Refused;
    }
    assert(pair.deep_view()[0] == pair[0]@);
    assert(pair.deep_view()[1] == pair[1]@);
    let admin = "admin".to_owned();
    let cmd = "$cmd".to_owned();
    if pair[0] == admin || pair[1] != cmd {
        return Routed::Refused;
    }
    if pair.len() == 4 {
        assert(pair.deep_view()[2] == pair[2]@);
        assert(pair.deep_view()[3] == pair[3]@);
        let sys = "sys".to_owned();
        let inprog = "inprog".to_owned();
        if pair[2] == sys && pair[3] == inprog {
            return Routed::Refused;
        }
    }
    reply_cmd(pair[0].as_str(), query)
}

impl Reply {
    /// The bytes of the reply, where `docs` holds the binary form of each of its
    /// documents.
        pub fn encode_reply(&self, docs: &Vec<Vec<u8>>) -> (r: Vec<u8>)
        ensures
            r@ == encoded_reply(self.deep_view(), bodies(docs@)),
    {
        let mut w: Vec<u8> = Vec::new();
        push_all(&mut w, &u32_to_le_bytes(#[verifier::truncate] (self.request_id as u32)));
        push_all(&mut w, &u32_to_le_bytes(#[verifier::truncate] (self.response_to as u32)));
        push_all(&mut w, &u32_to_le_bytes(1));
        push_all(&mut w, &u32_to_le_bytes(#[verifier::truncate] (self.response_flags as u32)));
        push_all(&mut w, &u64_to_le_bytes(#[verifier::truncate] (self.cursor_id as u64)));
        push_all(&mut w, &u32_to_le_bytes(#[verifier::truncate] (self.starting_from as u32)));
        push_all(&mut w, &u32_to_le_bytes(#[verifier::truncate] (docs.len() as u32)));
        let ghost head = w@;
        let ghost all = bodies(docs@);
        let mut i: usize = 0;
        assert(all.take(0) =~= Seq::empty());
        assert(head + joined(all.take(0)) =~= head);
        while i < docs.len()
            invariant
                i <= docs.len(),
                all == bodies(docs@),
                w@ == head + joined(all.take(i as int)),
            decreases docs.len() - i,
        {
            proof {
                assert(all.take(i + 1).drop_last() =~= all.take(i as int));
                assert(all.take(i + 1).last() == docs[i as int]@);
                assert(head + (joined(all.take(i as int)) + docs[i as int]@) =~= (head + joined(
                    all.take(i as int),
                )) + docs[i as int]@);
            }
            push_all(&mut w, &docs[i]);
            i += 1;
        }
        assert(all.take(docs.len() as int) =~= all);
        assert(w@ =~= reply_body(self.deep_view(), all));
        let total = #[verifier::truncate]
        ((w.len() as u128 + 4) as u32);
        let mut out = u32_to_bytes_be(total);
        push_all(&mut out, &w);
        out
    }
}

} // verus!
