//! Documents: one columnar container each, holding the schema of a record
//! and zero or more rows.

use crate::codec::{
    batch_column, batch_columns, batch_width, document_chunks, document_columns,
    document_fields, document_nodes, read_batches, read_chunks, read_fields, read_nodes,
    text_bytes, was_written, write_document, written_document, Batch, MAX_TEXT_BYTES,
};
use crate::error::{DecodeError, EncodeError};
use parquet::errors::ParquetError;
use crate::models::{Record, RecordModel};
use crate::rows::{batches_records, records_from_batches};
use crate::schema::{
    are_chunks_within, chunks_within, is_flat, is_flat_schema, is_record_schema, record_schema,
    ChunkSpec, Column, ColumnModel, FieldModel, FieldSpec, SchemaNode,
};
use vstd::prelude::*;

verus! {

/// The number of rows that are read from a document in one batch.
pub const ROWS_PER_BATCH: usize = 1;

/// Whether a document declares a schema other than that of a record: its
/// stored schema is not flat, or does not read as the three columns of a
/// record.
pub open spec fn declares_other_schema(document: Seq<u8>) -> bool {
    document_nodes(document) matches Some(nodes) && (!is_flat(nodes) || (document_fields(
        document,
    ) matches Some(fields) && fields != record_schema()))
}

/// The rows of a document whose schema is that of a record, or why it holds
/// none: its footer places a column outside the document, its rows cannot
/// be read, or they do not come as the three columns of a record.
pub open spec fn document_rows(document: Seq<u8>) -> Result<Seq<RecordModel>, DecodeError> {
    match document_chunks(document) {
        None => Err(DecodeError::Container),
        Some(chunks) => if !chunks_within(chunks, document.len() as int) {
            Err(DecodeError::Container)
        } else {
            match document_columns(document, ROWS_PER_BATCH) {
                None => Err(DecodeError::Container),
                Some(batches) => match batches_records(batches) {
                    None => Err(DecodeError::Column),
                    Some(records) => Ok(records),
                },
            }
        },
    }
}

/// The records that a document holds, or why it holds none: it is too
/// long, its footer cannot be decoded, its schema is not that of a record,
/// or its rows cannot be had.
pub open spec fn document_records(document: Seq<u8>) -> Result<Seq<RecordModel>, DecodeError> {
    if document.len() > MAX_TEXT_BYTES {
        Err(DecodeError::TooLarge)
    } else {
        match document_nodes(document) {
            None => Err(DecodeError::Container),
            Some(nodes) => if !is_flat(nodes) {
                Err(DecodeError::Schema)
            } else {
                match document_fields(document) {
                    None => Err(DecodeError::Container),
                    Some(fields) => if fields != record_schema() {
                        Err(DecodeError::Schema)
                    } else {
                        document_rows(document)
                    },
                }
            },
        }
    }
}

/// One step in reading a document: not taken yet, failed, or what it gave.
#[derive(Debug, Clone, PartialEq, Eq)]
pub enum Stage<T> {
    Unread,
    Failed,
    Read(T),
}

/// What has been read of one document so far, step by step: the nodes of
/// its stored schema, the fields that the schema reads as, the place of its
/// columns, and its rows in batches of [`ROWS_PER_BATCH`].
#[derive(Debug, Clone, PartialEq, Eq)]
pub struct Reading {
    pub nodes: Stage<Vec<SchemaNode>>,
    pub fields: Stage<Vec<FieldSpec>>,
    pub chunks: Stage<Vec<ChunkSpec>>,
    pub batches: Stage<Vec<Vec<Column>>>,
}

/// What a [`Reading`] stands for in contracts.
pub struct ReadingModel {
    pub nodes: Stage<Seq<SchemaNode>>,
    pub fields: Stage<Seq<FieldModel>>,
    pub chunks: Stage<Seq<ChunkSpec>>,
    pub batches: Stage<Seq<Seq<ColumnModel>>>,
}

impl View for Reading {
    type V = ReadingModel;

    open spec fn view(&self) -> ReadingModel {
        ReadingModel {
            nodes: match self.nodes {
                Stage::Unread => Stage::Unread,
                Stage::Failed => Stage::Failed,
                Stage::Read(nodes) => Stage::Read(nodes@),
            },
            fields: match self.fields {
                Stage::Unread => Stage::Unread,
                Stage::Failed => Stage::Failed,
                Stage::Read(fields) => Stage::Read(fields.deep_view()),
            },
            chunks: match self.chunks {
                Stage::Unread => Stage::Unread,
                Stage::Failed => Stage::Failed,
                Stage::Read(chunks) => Stage::Read(chunks@),
            },
            batches: match self.batches {
                Stage::Unread => Stage::Unread,
                Stage::Failed => Stage::Failed,
                Stage::Read(batches) => Stage::Read(batches.deep_view()),
            },
        }
    }
}

/// What a document of `length` bytes comes to, as far as what has been read
/// of it decides: `None` where the next step has to be taken first. The
/// steps are asked for in their order, and none once an earlier one has
/// decided.
pub open spec fn outcome(length: int, reading: ReadingModel) -> Option<
    Result<Seq<RecordModel>, DecodeError>,
> {
    if length > MAX_TEXT_BYTES {
        Some(Err(DecodeError::TooLarge))
    } else {
        match reading.nodes {
            Stage::Unread => None,
            Stage::Failed => Some(Err(DecodeError::Container)),
            Stage::Read(nodes) => if !is_flat(nodes) {
                Some(Err(DecodeError::Schema))
            } else {
                match reading.fields {
                    Stage::Unread => None,
                    Stage::Failed => Some(Err(DecodeError::Container)),
                    Stage::Read(fields) => if fields != record_schema() {
                        Some(Err(DecodeError::Schema))
                    } else {
                        rows_outcome(length, reading)
                    },
                }
            },
        }
    }
}

/// What a document whose schema is that of a record comes to, as far as
/// what has been read of its columns decides.
pub open spec fn rows_outcome(length: int, reading: ReadingModel) -> Option<
    Result<Seq<RecordModel>, DecodeError>,
> {
    match reading.chunks {
        Stage::Unread => None,
        Stage::Failed => Some(Err(DecodeError::Container)),
        Stage::Read(chunks) => if !chunks_within(chunks, length) {
            Some(Err(DecodeError::Container))
        } else {
            match reading.batches {
                Stage::Unread => None,
                Stage::Failed => Some(Err(DecodeError::Container)),
                Stage::Read(batches) => match batches_records(batches) {
                    None => Some(Err(DecodeError::Column)),
                    Some(records) => Some(Ok(records)),
                },
            }
        },
    }
}

/// The step as the reader's answer gives it.
pub open spec fn stage_of<T>(answer: Option<T>) -> Stage<T> {
    match answer {
        Some(value) => Stage::Read(value),
        None => Stage::Failed,
    }
}

/// Whether every step taken so far gave what the reader gives for
/// `document`.
pub open spec fn reading_of(reading: ReadingModel, document: Seq<u8>) -> bool {
    &&& reading.nodes is Unread || reading.nodes == stage_of(document_nodes(document))
    &&& reading.fields is Unread || reading.fields == stage_of(document_fields(document))
    &&& reading.chunks is Unread || reading.chunks == stage_of(document_chunks(document))
    &&& reading.batches is Unread || reading.batches == stage_of(
        document_columns(document, ROWS_PER_BATCH),
    )
}

/// Where the steps taken on a document decide what it comes to, they decide
/// what the document holds.
pub proof fn lemma_outcome_of_reading(document: Seq<u8>, reading: ReadingModel)
    requires
        reading_of(reading, document),
        outcome(document.len() as int, reading) is Some,
    ensures
        outcome(document.len() as int, reading) == Some(document_records(document)),
{
}

/// Decides what a document of `length` bytes comes to, from what has been
/// read of it so far: its records, or why it holds none, or `None` where
/// the next step has to be taken first.
///
/// The nodes of the stored schema are asked for first; the fields only of a
/// flat schema; the place of the columns, and then the rows, only where the
/// fields are those of a record.
pub fn document_outcome(length: usize, reading: &Reading) -> (r: Option<
    Result<Vec<Record>, DecodeError>,
>)
    ensures
        r is Some <==> outcome(length as int, reading@) is Some,
        r matches Some(Ok(records)) ==> outcome(length as int, reading@) == Some(
            Ok::<Seq<RecordModel>, DecodeError>(records.deep_view()),
        ),
        r matches Some(Err(e)) ==> outcome(length as int, reading@) == Some(
            Err::<Seq<RecordModel>, DecodeError>(e),
        ),
{
    if length > MAX_TEXT_BYTES {
        return Some(Err(DecodeError::TooLarge));
    }
    match &reading.nodes {
        Stage::Unread => {
            return None;
        },
        Stage::Failed => {
            return Some(Err(DecodeError::Container));
        },
        Stage::Read(nodes) => {
            if !is_flat_schema(nodes) {
                return Some(Err(DecodeError::Schema));
            }
        },
    }
    match &reading.fields {
        Stage::Unread => {
            return None;
        },
        Stage::Failed => {
            return Some(Err(DecodeError::Container));
        },
        Stage::Read(fields) => {
            if !is_record_schema(fields) {
                return Some(Err(DecodeError::Schema));
            }
        },
    }
    match &reading.chunks {
        Stage::Unread => {
            return None;
        },
        Stage::Failed => {
            return Some(Err(DecodeError::Container));
        },
        Stage::Read(chunks) => {
            if !are_chunks_within(chunks, length) {
                return Some(Err(DecodeError::Container));
            }
        },
    }
    match &reading.batches {
        Stage::Unread => None,
        Stage::Failed => Some(Err(DecodeError::Container)),
        Stage::Read(batches) => Some(records_from_batches(batches)),
    }
}

/// The ids of the given records, in order.
pub open spec fn ids_of(records: Seq<RecordModel>) -> Seq<u32> {
    Seq::new(records.len(), |i: int| records[i].id)
}

/// The names of the given records, in order.
pub open spec fn names_of(records: Seq<RecordModel>) -> Seq<Seq<char>> {
    Seq::new(records.len(), |i: int| records[i].name)
}

/// The values of the given records, in order.
pub open spec fn values_of(records: Seq<RecordModel>) -> Seq<u64> {
    Seq::new(records.len(), |i: int| records[i].value_bits)
}

/// The document that holds the given records as one row group, or why there
/// is none: their names are too long for one column, the writer refuses
/// them, or what it wrote does not read back as these records.
pub open spec fn encoded_records(records: Seq<RecordModel>) -> Result<Seq<u8>, EncodeError> {
    if text_bytes(names_of(records)) > MAX_TEXT_BYTES {
        Err(EncodeError::TooLarge)
    } else {
        match written_document(
            "id"@,
            ids_of(records),
            "name"@,
            names_of(records),
            "value"@,
            values_of(records),
        ) {
            None => Err(EncodeError::Container),
            Some(document) => if document_records(document) == Ok::<
                Seq<RecordModel>,
                DecodeError,
            >(records) {
                Ok(document)
            } else {
                Err(EncodeError::Unreadable)
            },
        }
    }
}

/// The text of a string column never takes fewer bytes than that of the
/// column's first `count` cells.
proof fn lemma_text_bytes_prefix(names: Seq<Seq<char>>, count: int)
    requires
        0 <= count <= names.len(),
    ensures
        text_bytes(names.take(count)) <= text_bytes(names),
    decreases names.len() - count,
{
    if count == names.len() {
        assert(names.take(count) =~= names);
    } else {
        assert(names.take(count + 1).drop_last() =~= names.take(count));
        lemma_text_bytes_prefix(names, count + 1);
    }
}

/// The columns of one batch, in schema order.
fn columns_of(batch: &Batch) -> (columns: Vec<Column>)
    ensures
        columns.deep_view() == batch_columns(*batch),
{
    let width = batch_width(batch);
    let mut columns: Vec<Column> = Vec::new();
    let mut index: usize = 0;
    while index < width
        invariant
            index <= width,
            width == batch_columns(*batch).len(),
            columns.deep_view() =~= batch_columns(*batch).take(index as int),
        decreases width - index,
    {
        let ghost before = columns.deep_view();
        let ghost all = batch_columns(*batch);
        let column = batch_column(batch, index);
        proof {
            assert(all.take(index + 1) =~= all.take(index as int).push(column.deep_view()));
        }
        columns.push(column);
        proof {
            assert(columns.deep_view() =~= before.push(column.deep_view()));
        }
        index += 1;
    }
    proof {
        assert(batch_columns(*batch).take(index as int) =~= batch_columns(*batch));
    }
    columns
}

/// Whether two lists hold the same records in the same order.
pub fn same_records(left: &Vec<Record>, right: &Vec<Record>) -> (same: bool)
    ensures
        same == (left.deep_view() == right.deep_view()),
{
    if left.len() != right.len() {
        proof {
            assert(left.deep_view().len() != right.deep_view().len());
        }
        return false;
    }
    let mut row: usize = 0;
    while row < left.len()
        invariant
            row <= left.len(),
            left.len() == right.len(),
            forall|i: int| 0 <= i < row ==> (#[trigger] left@[i])@ == right@[i]@,
        decreases left.len() - row,
    {
        let agree = left[row].id == right[row].id && left[row].name == right[row].name
            && left[row].value_bits == right[row].value_bits;
        if !agree {
            proof {
                assert(left.deep_view()[row as int] == left@[row as int]@);
                assert(right.deep_view()[row as int] == right@[row as int]@);
            }
            return false;
        }
        row += 1;
    }
    proof {
        assert(left.deep_view() =~= right.deep_view());
    }
    true
}

/// The step as the reader's answer gives it.
fn stage<T>(answer: Result<T, ParquetError>) -> (stage: Stage<T>)
    ensures
        stage == match answer {
            Ok(value) => Stage::Read(value),
            Err(_) => Stage::Failed,
        },
{
    match answer {
        Ok(value) => Stage::Read(value),
        Err(_) => Stage::Failed,
    }
}

/// The columns of every batch, in the order of the batches.
fn columns_of_all(batches: &Vec<Batch>) -> (columns: Vec<Vec<Column>>)
    ensures
        columns.deep_view().len() == batches@.len(),
        forall|i: int|
            0 <= i < batches@.len() ==> #[trigger] columns.deep_view()[i] == batch_columns(
                batches@[i],
            ),
{
    let mut columns: Vec<Vec<Column>> = Vec::new();
    let mut index: usize = 0;
    while index < batches.len()
        invariant
            index <= batches.len(),
            columns.deep_view().len() == index,
            forall|i: int|
                0 <= i < index ==> #[trigger] columns.deep_view()[i] == batch_columns(
                    batches@[i],
                ),
        decreases batches.len() - index,
    {
        let ghost before = columns.deep_view();
        let batch = columns_of(&batches[index]);
        columns.push(batch);
        proof {
            assert(columns.deep_view() =~= before.push(batch.deep_view()));
        }
        index += 1;
    }
    columns
}

/// Reads the records of a document that the writer made: every row of
/// every row group, in file order.
///
/// The document's schema must be that of a record, also where it holds no
/// row at all; its rows must come as the three columns of a record. Each
/// step is taken only once [`document_outcome`] has asked for it.
pub fn read_document(document: &[u8]) -> (r: Result<Vec<Record>, DecodeError>)
    requires
        was_written(document@),
    ensures
        match r {
            Ok(records) => document_records(document@) == Ok::<Seq<RecordModel>, DecodeError>(
                records.deep_view(),
            ),
            Err(e) => document_records(document@) == Err::<Seq<RecordModel>, DecodeError>(e),
        },
{
    let length = document.len();
    let mut reading = Reading {
        nodes: Stage::Unread,
        fields: Stage::Unread,
        chunks: Stage::Unread,
        batches: Stage::Unread,
    };
    if let Some(outcome) = document_outcome(length, &reading) {
        proof {
            lemma_outcome_of_reading(document@, reading@);
        }
        return outcome;
    }
    reading.nodes = stage(read_nodes(document));
    if let Some(outcome) = document_outcome(length, &reading) {
        proof {
            lemma_outcome_of_reading(document@, reading@);
        }
        return outcome;
    }
    reading.fields = stage(read_fields(document));
    if let Some(outcome) = document_outcome(length, &reading) {
        proof {
            lemma_outcome_of_reading(document@, reading@);
        }
        return outcome;
    }
    reading.chunks = stage(read_chunks(document));
    if let Some(outcome) = document_outcome(length, &reading) {
        proof {
            lemma_outcome_of_reading(document@, reading@);
        }
        return outcome;
    }
    reading.batches = match read_batches(document, ROWS_PER_BATCH) {
        Ok(batches) => {
            let columns = columns_of_all(&batches);
            proof {
                assert(columns.deep_view() =~= document_columns(
                    document@,
                    ROWS_PER_BATCH,
                )->Some_0);
            }
            Stage::Read(columns)
        },
        Err(_) => Stage::Failed,
    };
    proof {
        lemma_outcome_of_reading(document@, reading@);
    }
    match document_outcome(length, &reading) {
        Some(outcome) => outcome,
        None => Err(DecodeError::Container),
    }
}

/// Writes the given records as a document with one row group (none where
/// there are no records), and makes sure that the document reads back as
/// exactly these records.
pub fn write_records(records: &Vec<Record>) -> (r: Result<Vec<u8>, EncodeError>)
    ensures
        match r {
            Ok(document) => encoded_records(records.deep_view()) == Ok::<Seq<u8>, EncodeError>(
                document@,
            ),
            Err(e) => encoded_records(records.deep_view()) == Err::<Seq<u8>, EncodeError>(e),
        },
{
    let ghost model = records.deep_view();
    let mut ids: Vec<u32> = Vec::new();
    let mut names: Vec<String> = Vec::new();
    let mut values: Vec<u64> = Vec::new();
    let mut bytes: usize = 0;
    let mut row: usize = 0;
    proof {
        assert(names_of(model).take(0) =~= Seq::<Seq<char>>::empty());
    }
    while row < records.len()
        invariant
            row <= records.len(),
            model == records.deep_view(),
            ids@ =~= ids_of(model).take(row as int),
            names.deep_view() =~= names_of(model).take(row as int),
            values@ =~= values_of(model).take(row as int),
            bytes == text_bytes(names_of(model).take(row as int)),
            bytes <= MAX_TEXT_BYTES,
        decreases records.len() - row,
    {
        let record = &records[row];
        let length = record.name.as_str().as_bytes().len();
        proof {
            assert(model[row as int] == record@);
            assert(names_of(model).take(row + 1).drop_last() =~= names_of(model).take(row as int));
            assert(names_of(model).take(row + 1).last() == record.name@);
            lemma_text_bytes_prefix(names_of(model), row + 1);
            assert(length == vstd::utf8::encode_utf8(record.name@).len());
            assert(text_bytes(names_of(model).take(row + 1)) == bytes + length);
        }
        if length > MAX_TEXT_BYTES - bytes {
            return Err(EncodeError::TooLarge);
        }
        bytes += length;
        ids.push(record.id);
        names.push(record.name.clone());
        values.push(record.value_bits);
        row += 1;
    }
    proof {
        assert(ids_of(model).take(row as int) =~= ids_of(model));
        assert(names_of(model).take(row as int) =~= names_of(model));
        assert(values_of(model).take(row as int) =~= values_of(model));
    }
    let document = match write_document("id", &ids, "name", &names, "value", &values) {
        Ok(document) => document,
        Err(_) => {
            return Err(EncodeError::Container);
        },
    };
    proof {
        assert(written_document(
            "id"@,
            ids@,
            "name"@,
            names.deep_view(),
            "value"@,
            values@,
        ) == Some(document@));
    }
    match read_document(&document) {
        Ok(back) => {
            if same_records(&back, records) {
                Ok(document)
            } else {
                Err(EncodeError::Unreadable)
            }
        },
        Err(_) => Err(EncodeError::Unreadable),
    }
}

} // verus!
