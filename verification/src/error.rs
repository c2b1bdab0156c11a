use vstd::prelude::*;

verus! {

#[verifier::external_type_specification]
#[verifier::external_body]
pub struct ExIoError(std::io::Error);

/// Why a record could not be brought into the stored form.
#[derive(Debug, Clone, Copy, PartialEq, Eq, Structural)]
pub enum EncodeError {
    /// The record, or the document made of it, is larger than the stored
    /// form can hold.
    TooLarge,
    /// The columnar writer refused the columns.
    Container,
    /// What the writer produced does not read back as the rows handed to it.
    Unreadable,
}

/// Why stored bytes could not be read as records.
#[derive(Debug, Clone, Copy, PartialEq, Eq, Structural)]
pub enum DecodeError {
    /// The file ends inside a frame.
    Truncated,
    /// A frame holds more bytes than one document may have.
    TooLarge,
    /// The file holds no frame at all, so not even a schema.
    NoHeader,
    /// A frame does not hold a readable columnar document, or no reading of
    /// it was given.
    Container,
    /// A document's schema is not the schema of a record.
    Schema,
    /// Rows do not come as the three columns of a record.
    Column,
}

/// The ways in which an operation of the store fails.
#[derive(Debug)]
pub enum DbError {
    /// A file operation failed.
    Io(std::io::Error),
    /// A record could not be brought into the stored form.
    Encode(EncodeError),
    /// The stored bytes do not hold what the schema promises.
    Decode(DecodeError),
}

impl From<std::io::Error> for DbError {
    fn from(error: std::io::Error) -> (r: DbError) {
        DbError::Io(error)
    }
}

impl vstd::std_specs::convert::FromSpecImpl<std::io::Error> for DbError {
    open spec fn obeys_from_spec() -> bool {
        true
    }

    open spec fn from_spec(error: std::io::Error) -> DbError {
        DbError::Io(error)
    }
}

impl DbError {
    /// The text that stands for the error's kind.
    pub open spec fn message(self) -> Seq<char> {
        match self {
            DbError::Io(_) => "IO error"@,
            DbError::Encode(_) => "Encoding error"@,
            DbError::Decode(_) => "Decode error"@,
        }
    }

    /// The error's kind as text, for a caller that reports it.
    pub fn to_string(&self) -> (text: String)
        ensures
            text@ == self.message(),
    {
        match self {
            DbError::Io(_) => "IO error".to_string(),
            DbError::Encode(_) => "Encoding error".to_string(),
            DbError::Decode(_) => "Decode error".to_string(),
        }
    }
}

} // verus!
