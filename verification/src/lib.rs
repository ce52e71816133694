//! Collections and indexes of documents on top of a store of rows.
//!
//! The library decides and the caller carries out: every operation answers with the steps
//! that the backing store is to take, and nothing here touches a file or a socket. What a
//! document is says `value`; how an index is described, `index`; which entries a document
//! has in an index, `entries`; which keys a query asks for, `bounds`; how tables and
//! statements are named and worded, `layout` and `plan`; what there is, `catalog`; how
//! collections and indexes come and go, `conn`; how documents are written and read,
//! `session` and `reader`; and how clients are spoken to, `wire`.

pub mod bounds;
pub mod catalog;
pub mod conn;
pub mod conn_laws;
pub mod entries;
pub mod entry_laws;
pub mod error;
pub mod index;
pub mod layout;
pub mod plan;
pub mod reader;
pub mod seqs;
pub mod session;
pub mod text;
pub mod value;
pub mod wire;
