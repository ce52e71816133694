//! What can go wrong, by kind.

use vstd::prelude::*;

verus! {

/// The kind of a failure, as a caller tells failures apart.
#[derive(Debug, Clone, Copy, PartialEq, Eq, Structural)]
pub enum ErrorKind {
    /// Something that has to be there is not.
    NotFound,
    /// The request contradicts what is already there.
    Conflict,
    /// A statement touched another number of rows than it had to.
    IntegrityViolation,
    /// A write was asked for while no write session was open.
    SessionState,
    /// Stored bytes do not decode.
    CorruptData,
    /// The backing store failed.
    Backend,
    /// A document, an index description or a key cannot be put into its stored form.
    Encoding,
}

/// A failure of the storage layer.
#[derive(Debug, Clone, Copy, PartialEq, Eq, Structural)]
pub enum Error {
    /// `update` was given a document without an `_id`.
    UpdateWithoutId,
    /// `update` found no stored document with that `_id`.
    UpdateMissing,
    /// An index of that name exists with other keys.
    IndexConflict,
    /// A rename to or from a reserved system collection.
    SystemRename,
    /// A collection name that has no database part.
    BadName,
    /// A statement that changes data handed back a row.
    UnexpectedRow,
    /// A statement changed another number of rows than expected.
    WrongChanges,
    /// A write without `prepare_write` before it.
    NoSession,
    /// An index description that cannot be normalized.
    BadIndexSpec,
    /// Query bounds that do not fit the index they are for.
    BadBounds,
    /// Stored bytes that do not decode.
    Corrupt,
    /// A message from a client that is cut short or of no known kind.
    BadMessage,
    /// A failure reported by the backing store.
    Backend,
}

impl Error {
    /// The kind of this failure.
    pub open spec fn spec_kind(self) -> ErrorKind {
        match self {
            Error::UpdateWithoutId => ErrorKind::NotFound,
            Error::UpdateMissing => ErrorKind::NotFound,
            Error::IndexConflict => ErrorKind::Conflict,
            Error::SystemRename => ErrorKind::Conflict,
            Error::BadName => ErrorKind::NotFound,
            Error::UnexpectedRow => ErrorKind::IntegrityViolation,
            Error::WrongChanges => ErrorKind::IntegrityViolation,
            Error::NoSession => ErrorKind::SessionState,
            Error::BadIndexSpec => ErrorKind::Encoding,
            Error::BadBounds => ErrorKind::Encoding,
            Error::Corrupt => ErrorKind::CorruptData,
            Error::BadMessage => ErrorKind::CorruptData,
            Error::Backend => ErrorKind::Backend,
        }
    }

    /// The words that describe this failure.
    pub open spec fn spec_message(self) -> Seq<char> {
        match self {
            Error::UpdateWithoutId => "cannot update without _id"@,
            Error::UpdateMissing => "update but does not exist"@,
            Error::IndexConflict => "index already exists with different keys"@,
            Error::SystemRename => "renameCollection with a system collection not allowed."@,
            Error::BadName => "collection name without a database"@,
            Error::UnexpectedRow => "step_done() returned a row"@,
            Error::WrongChanges => "changes() is wrong"@,
            Error::NoSession => "must prepare_write()"@,
            Error::BadIndexSpec => "index keys or weights are malformed"@,
            Error::BadBounds => "query bounds do not fit the index"@,
            Error::Corrupt => "stored document does not decode"@,
            Error::BadMessage => "message is cut short or of unknown kind"@,
            Error::Backend => "the backing store failed"@,
        }
    }

    /// The kind of this failure.
    #[verifier::when_used_as_spec(spec_kind)]
    pub fn kind(self) -> (k: ErrorKind)
        ensures
            k == self.spec_kind(),
    {
        match self {
            Error::UpdateWithoutId => ErrorKind::NotFound,
            Error::UpdateMissing => ErrorKind::NotFound,
            Error::IndexConflict => ErrorKind::Conflict,
            Error::SystemRename => ErrorKind::Conflict,
            Error::BadName => ErrorKind::NotFound,
            Error::UnexpectedRow => ErrorKind::IntegrityViolation,
            Error::WrongChanges => ErrorKind::IntegrityViolation,
            Error::NoSession => ErrorKind::SessionState,
            Error::BadIndexSpec => ErrorKind::Encoding,
            Error::BadBounds => ErrorKind::Encoding,
            Error::Corrupt => ErrorKind::CorruptData,
            Error::BadMessage => ErrorKind::CorruptData,
            Error::Backend => ErrorKind::Backend,
        }
    }

    /// The words that describe this failure.
    pub fn message(self) -> (m: String)
        ensures
            m@ == self.spec_message(),
    {
        match self {
            Error::UpdateWithoutId => "cannot update without _id".to_owned(),
            Error::UpdateMissing => "update but does not exist".to_owned(),
            Error::IndexConflict => "index already exists with different keys".to_owned(),
            Error::SystemRename => "renameCollection with a system collection not allowed.".to_owned(),
            Error::BadName => "collection name without a database".to_owned(),
            Error::UnexpectedRow => "step_done() returned a row".to_owned(),
            Error::WrongChanges => "changes() is wrong".to_owned(),
            Error::NoSession => "must prepare_write()".to_owned(),
            Error::BadIndexSpec => "index keys or weights are malformed".to_owned(),
            Error::BadBounds => "query bounds do not fit the index".to_owned(),
            Error::Corrupt => "stored document does not decode".to_owned(),
            Error::BadMessage => "message is cut short or of unknown kind".to_owned(),
            Error::Backend => "the backing store failed".to_owned(),
        }
    }
}

} // verus!
