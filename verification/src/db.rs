//! The store: what a store file holds, what initialising it and appending
//! to it write, and what listing it returns.
//!
//! The store file is a sequence of frames. The first holds a document
//! without rows, which carries the schema; every append adds one frame
//! whose document holds the appended record as its only row. Nothing here
//! touches the file: the caller reads and writes it, under the store's
//! lock, and hands the bytes over. Nor is a document of the file handed to
//! the columnar reader here, whose answer to bytes of unknown origin is not
//! known: the caller reads each document, step by step as
//! [`crate::document::document_outcome`] asks, and hands over what came of
//! it.

use crate::document::{document_records, encoded_records, write_records};
pub use crate::error::DbError;
use crate::error::{DecodeError, EncodeError};
use crate::frame::{frame, frame_bytes, parse_frames, payloads, split_frames, LENGTH_BYTES};
use crate::models::{Record, RecordModel};
use vstd::prelude::*;

verus! {

/// The frame that holds `document`, where a document was made and is not
/// too long to frame.
pub open spec fn framed(document: Result<Seq<u8>, EncodeError>) -> Result<Seq<u8>, EncodeError> {
    match document {
        Err(e) => Err(e),
        Ok(document) => if document.len() + LENGTH_BYTES <= usize::MAX {
            Ok(frame_bytes(document))
        } else {
            Err(EncodeError::TooLarge)
        },
    }
}

/// The content of a freshly initialised store file: the schema and no row.
pub open spec fn initial_file() -> Result<Seq<u8>, EncodeError> {
    framed(encoded_records(Seq::empty()))
}

/// The bytes by which appending `record` extends the store file.
pub open spec fn record_frame(record: RecordModel) -> Result<Seq<u8>, EncodeError> {
    framed(encoded_records(seq![record]))
}

/// The records of the documents in the given frames, in the order of the
/// frames, or the error of the first frame that cannot be read.
pub open spec fn frames_records(frames: Seq<Seq<u8>>) -> Result<Seq<RecordModel>, DecodeError>
    decreases frames.len(),
{
    if frames.len() == 0 {
        Ok(Seq::empty())
    } else {
        match frames_records(frames.drop_last()) {
            Err(e) => Err(e),
            Ok(before) => match document_records(frames.last()) {
                Err(e) => Err(e),
                Ok(rows) => Ok(before + rows),
            },
        }
    }
}

/// The records that a store file holds, in the order in which they were
/// appended, or why it cannot be read.
pub open spec fn stored_records(file: Seq<u8>) -> Result<Seq<RecordModel>, DecodeError> {
    match parse_frames(file) {
        None => Err(DecodeError::Truncated),
        Some(frames) => if frames.len() == 0 {
            Err(DecodeError::NoHeader)
        } else {
            frames_records(frames)
        },
    }
}

/// What one reading of a document stands for in contracts.
pub open spec fn outcome_view(outcome: Result<Vec<Record>, DecodeError>) -> Result<
    Seq<RecordModel>,
    DecodeError,
> {
    match outcome {
        Ok(records) => Ok(records.deep_view()),
        Err(e) => Err(e),
    }
}

/// What the readings of several documents stand for in contracts.
pub open spec fn outcomes_view(outcomes: Seq<Result<Vec<Record>, DecodeError>>) -> Seq<
    Result<Seq<RecordModel>, DecodeError>,
> {
    outcomes.map_values(|outcome: Result<Vec<Record>, DecodeError>| outcome_view(outcome))
}

/// The records of several documents one after the other, as reading each
/// gave them, or the error of the first that could not be read.
pub open spec fn joined(outcomes: Seq<Result<Seq<RecordModel>, DecodeError>>) -> Result<
    Seq<RecordModel>,
    DecodeError,
>
    decreases outcomes.len(),
{
    if outcomes.len() == 0 {
        Ok(Seq::empty())
    } else {
        match joined(outcomes.drop_last()) {
            Err(e) => Err(e),
            Ok(before) => match outcomes.last() {
                Err(e) => Err(e),
                Ok(rows) => Ok(before + rows),
            },
        }
    }
}

/// What listing a store file comes to, given what reading the document of
/// each of its frames came to.
pub open spec fn listed(
    file: Seq<u8>,
    outcomes: Seq<Result<Seq<RecordModel>, DecodeError>>,
) -> Result<Seq<RecordModel>, DecodeError> {
    match parse_frames(file) {
        None => Err(DecodeError::Truncated),
        Some(frames) => if frames.len() == 0 {
            Err(DecodeError::NoHeader)
        } else if outcomes.len() != frames.len() {
            Err(DecodeError::Container)
        } else {
            joined(outcomes)
        },
    }
}

/// Whether each outcome is what the document of its frame holds.
pub open spec fn read_faithfully(
    file: Seq<u8>,
    outcomes: Seq<Result<Seq<RecordModel>, DecodeError>>,
) -> bool {
    parse_frames(file) matches Some(frames) ==> outcomes.len() == frames.len() && forall|
        i: int,
    |
        0 <= i < frames.len() ==> #[trigger] outcomes[i] == document_records(frames[i])
}

/// The store file after a successful initialisation: an existing file is
/// left as it is, a missing one is created with the initial content.
pub open spec fn initialized(file: Option<Seq<u8>>) -> Option<Seq<u8>> {
    match file {
        Some(content) => Some(content),
        None => match initial_file() {
            Ok(content) => Some(content),
            Err(_) => None,
        },
    }
}

/// Once one of the first `count` frames cannot be read, the error stays
/// whatever follows.
pub proof fn lemma_frames_records_prefix(frames: Seq<Seq<u8>>, count: int)
    requires
        0 <= count <= frames.len(),
        frames_records(frames.take(count)) is Err,
    ensures
        frames_records(frames) == frames_records(frames.take(count)),
    decreases frames.len() - count,
{
    if count == frames.len() {
        assert(frames.take(count) =~= frames);
    } else {
        assert(frames.take(count + 1).drop_last() =~= frames.take(count));
        lemma_frames_records_prefix(frames, count + 1);
    }
}

/// Once one of the first `count` documents could not be read, the error
/// stays whatever follows.
pub proof fn lemma_joined_prefix(
    outcomes: Seq<Result<Seq<RecordModel>, DecodeError>>,
    count: int,
)
    requires
        0 <= count <= outcomes.len(),
        joined(outcomes.take(count)) is Err,
    ensures
        joined(outcomes) == joined(outcomes.take(count)),
    decreases outcomes.len() - count,
{
    if count == outcomes.len() {
        assert(outcomes.take(count) =~= outcomes);
    } else {
        assert(outcomes.take(count + 1).drop_last() =~= outcomes.take(count));
        lemma_joined_prefix(outcomes, count + 1);
    }
}

/// Documents read faithfully come, one after the other, to what their
/// frames hold.
pub proof fn lemma_joined_frames(
    frames: Seq<Seq<u8>>,
    outcomes: Seq<Result<Seq<RecordModel>, DecodeError>>,
)
    requires
        outcomes.len() == frames.len(),
        forall|i: int| 0 <= i < frames.len() ==> #[trigger] outcomes[i] == document_records(
            frames[i],
        ),
    ensures
        joined(outcomes) == frames_records(frames),
    decreases frames.len(),
{
    if frames.len() > 0 {
        lemma_joined_frames(frames.drop_last(), outcomes.drop_last());
        assert(outcomes.last() == outcomes[outcomes.len() - 1]);
    }
}

/// A copy of the given records.
fn copy_records(records: &Vec<Record>) -> (copy: Vec<Record>)
    ensures
        copy.deep_view() == records.deep_view(),
{
    let mut copy: Vec<Record> = Vec::new();
    let mut row: usize = 0;
    while row < records.len()
        invariant
            row <= records.len(),
            copy.len() == row,
            forall|i: int| 0 <= i < row ==> (#[trigger] copy@[i])@ == records@[i]@,
        decreases records.len() - row,
    {
        let record = &records[row];
        copy.push(Record { id: record.id, name: record.name.clone(), value_bits: record.value_bits });
        row += 1;
    }
    proof {
        assert(copy.deep_view() =~= records.deep_view());
    }
    copy
}

/// Wraps a document in a frame.
fn seal(document: Vec<u8>) -> (r: Result<Vec<u8>, DbError>)
    ensures
        match r {
            Ok(bytes) => framed(Ok(document@)) == Ok::<Seq<u8>, EncodeError>(bytes@),
            Err(e) => e is Encode && framed(Ok(document@)) == Err::<Seq<u8>, EncodeError>(
                e->Encode_0,
            ),
        },
{
    match frame(document.as_slice()) {
        Some(bytes) => Ok(bytes),
        None => Err(DbError::Encode(EncodeError::TooLarge)),
    }
}

/// A store of records in one file.
pub struct Database {
    file_path: String,
}

impl Database {
    /// The path of the store file.
    pub closed spec fn path(&self) -> Seq<char> {
        self.file_path@
    }

    /// A store whose file lies at `file_path`.
    pub fn new(file_path: &str) -> (db: Database)
        ensures
            db.path() == file_path@,
    {
        Database { file_path: file_path.to_string() }
    }

    /// The path of the store file.
    pub fn file_path(&self) -> (path: &str)
        ensures
            path@ == self.path(),
    {
        self.file_path.as_str()
    }

    /// Decides what initialising the store writes.
    ///
    /// `exists` says whether a file lies at the store's path. Where one
    /// does, nothing is to be written: `Ok(None)`. Where none does, the
    /// result holds the content with which the file is to be created: the
    /// schema and no row.
    pub fn initialize(&self, exists: bool) -> (r: Result<Option<Vec<u8>>, DbError>)
        ensures
            exists ==> r == Ok::<Option<Vec<u8>>, DbError>(None),
            !exists ==> match r {
                Ok(Some(content)) => initial_file() == Ok::<Seq<u8>, EncodeError>(content@),
                Ok(None) => false,
                Err(e) => e is Encode && initial_file() == Err::<Seq<u8>, EncodeError>(
                    e->Encode_0,
                ),
            },
    {
        if exists {
            return Ok(None);
        }
        let rows: Vec<Record> = Vec::new();
        proof {
            assert(rows.deep_view() =~= Seq::<RecordModel>::empty());
        }
        let document = match write_records(&rows) {
            Ok(document) => document,
            Err(e) => {
                return Err(DbError::Encode(e));
            },
        };
        match seal(document) {
            Ok(content) => Ok(Some(content)),
            Err(e) => Err(e),
        }
    }

    /// Encodes `record` as the bytes that are to be written behind the
    /// present content of the store file.
    ///
    /// They hold the record as the only row of one new row group. A file
    /// extended by them lists the record after all that it listed before.
    pub fn add_record(&self, record: Record) -> (r: Result<Vec<u8>, DbError>)
        ensures
            match r {
                Ok(bytes) => record_frame(record@) == Ok::<Seq<u8>, EncodeError>(bytes@),
                Err(e) => e is Encode && record_frame(record@) == Err::<Seq<u8>, EncodeError>(
                    e->Encode_0,
                ),
            },
    {
        let ghost model = record@;
        let mut rows: Vec<Record> = Vec::new();
        rows.push(record);
        proof {
            assert(rows.deep_view() =~= seq![model]);
        }
        let document = match write_records(&rows) {
            Ok(document) => document,
            Err(e) => {
                return Err(DbError::Encode(e));
            },
        };
        seal(document)
    }

    /// Lists the records that the store file with the given content holds:
    /// every row of every row group, in file order, which is the order in
    /// which the records were appended.
    ///
    /// `outcomes` holds, for every frame of the file in order, what reading
    /// its document came to. Fails, and returns no record at all, where the
    /// file ends inside a frame, holds no schema, holds a frame of which no
    /// reading is given, or holds a document that could not be read as rows
    /// of the schema of a record.
    pub fn get_records(
        &self,
        contents: &[u8],
        outcomes: &Vec<Result<Vec<Record>, DecodeError>>,
    ) -> (r: Result<Vec<Record>, DbError>)
        ensures
            match r {
                Ok(records) => listed(contents@, outcomes_view(outcomes@)) == Ok::<
                    Seq<RecordModel>,
                    DecodeError,
                >(records.deep_view()),
                Err(e) => e is Decode && listed(contents@, outcomes_view(outcomes@)) == Err::<
                    Seq<RecordModel>,
                    DecodeError,
                >(e->Decode_0),
            },
    {
        let frames = match split_frames(contents) {
            Some(frames) => frames,
            None => {
                return Err(DbError::Decode(DecodeError::Truncated));
            },
        };
        proof {
            assert(payloads(frames@).len() == frames@.len());
        }
        if frames.len() == 0 {
            return Err(DbError::Decode(DecodeError::NoHeader));
        }
        if outcomes.len() != frames.len() {
            return Err(DbError::Decode(DecodeError::Container));
        }
        let ghost all = outcomes_view(outcomes@);
        let mut records: Vec<Record> = Vec::new();
        let mut index: usize = 0;
        proof {
            assert(all.take(0) =~= Seq::<Result<Seq<RecordModel>, DecodeError>>::empty());
            assert(records.deep_view() =~= Seq::<RecordModel>::empty());
        }
        while index < outcomes.len()
            invariant
                index <= outcomes.len(),
                0 < outcomes.len(),
                parse_frames(contents@) is Some,
                parse_frames(contents@)->Some_0.len() == outcomes.len(),
                all == outcomes_view(outcomes@),
                joined(all.take(index as int)) == Ok::<Seq<RecordModel>, DecodeError>(
                    records.deep_view(),
                ),
            decreases outcomes.len() - index,
        {
            let ghost before = records.deep_view();
            proof {
                assert(all.take(index + 1).drop_last() =~= all.take(index as int));
                assert(all.take(index + 1).last() == outcome_view(outcomes@[index as int]));
            }
            match &outcomes[index] {
                Ok(rows) => {
                    let mut rows = copy_records(rows);
                    let ghost added = rows.deep_view();
                    records.append(&mut rows);
                    proof {
                        assert(records.deep_view() =~= before + added);
                    }
                },
                Err(e) => {
                    proof {
                        lemma_joined_prefix(all, index + 1);
                    }
                    return Err(DbError::Decode(*e));
                },
            }
            index += 1;
        }
        proof {
            assert(all.take(index as int) =~= all);
        }
        Ok(records)
    }
}

} // verus!
