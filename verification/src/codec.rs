//! The columnar codec: the calls into `arrow` and `parquet`, each behind a
//! contract that is believed, not proved. The writer takes any columns; the
//! reader is handed nothing but what the writer has made.

use crate::schema::{
    chunks_within, is_flat, record_schema, ChunkSpec, Column, ColumnModel, ColumnType,
    FieldModel, FieldSpec, Occurrence, SchemaNode,
};
use arrow::array::{Array, ArrayRef, AsArray, Float64Array, StringArray, UInt32Array};
use arrow::buffer::Buffer;
use arrow::datatypes::{DataType, Float64Type, UInt32Type};
use arrow::record_batch::RecordBatch;
use bytes::Bytes;
use parquet::arrow::arrow_reader::{ArrowReaderOptions, ParquetRecordBatchReaderBuilder};
use parquet::arrow::ArrowWriter;
use parquet::basic::Repetition;
use parquet::errors::ParquetError;
use parquet::file::metadata::ParquetMetaDataReader;
use std::sync::Arc;
use vstd::prelude::*;

verus! {

/// A run of consecutive rows of a document, as the reader hands them out:
/// an `arrow::record_batch::RecordBatch`, kept as it came. Nothing is known
/// of what it holds but through [`batch_columns`].
#[verifier::external_body]
pub struct Batch {
    batch: RecordBatch,
}

/// `parquet::errors::ParquetError`, carried through as it is.
#[verifier::external_type_specification]
#[verifier::external_body]
pub struct ExParquetError(ParquetError);

/// The columns that a batch holds, in schema order, each as its cells.
pub uninterp spec fn batch_columns(batch: Batch) -> Seq<ColumnModel>;

/// The nodes directly below the root of the schema that a document's footer
/// stores, in order; `None` where the bytes do not end in a footer that can
/// be decoded.
pub uninterp spec fn document_nodes(document: Seq<u8>) -> Option<Seq<SchemaNode>>;

/// Where a document's footer says that the pages of its columns lie, row
/// group after row group and column after column; `None` where the bytes do
/// not end in a footer that can be decoded.
pub uninterp spec fn document_chunks(document: Seq<u8>) -> Option<Seq<ChunkSpec>>;

/// The fields of the schema that the reader makes of a document's stored
/// schema alone, `None` where it cannot open the document.
pub uninterp spec fn document_fields(document: Seq<u8>) -> Option<Seq<FieldModel>>;

/// The batches of at most `rows` rows in which the reader hands out the rows
/// of a document, in file order, each as its columns; `None` where reading
/// fails.
pub uninterp spec fn document_columns(document: Seq<u8>, rows: usize) -> Option<
    Seq<Seq<ColumnModel>>,
>;

/// Whether a document may be handed to the reader for its rows: its schema
/// is flat and reads as that of a record, the pages of its columns lie
/// inside it, and a batch of `rows` rows, each with a text that is no longer
/// than the document, stays within what one string column can hold.
pub open spec fn readable(document: Seq<u8>, rows: usize) -> bool {
    &&& document_nodes(document) matches Some(nodes) && is_flat(nodes)
    &&& document_fields(document) == Some(record_schema())
    &&& document_chunks(document) matches Some(chunks) && chunks_within(
        chunks,
        document.len() as int,
    )
    &&& 0 < rows
    &&& rows * document.len() <= MAX_TEXT_BYTES
}

/// The document that the writer makes of an id, a name and a value column
/// under the given labels, `None` where it refuses them.
pub uninterp spec fn written_document(
    id_label: Seq<char>,
    ids: Seq<u32>,
    name_label: Seq<char>,
    names: Seq<Seq<char>>,
    value_label: Seq<char>,
    values: Seq<u64>,
) -> Option<Seq<u8>>;

/// Whether a document is one that the writer has made, of whatever columns
/// under whatever labels. Only such documents are handed to the reader:
/// what it does on other bytes is its own affair.
pub open spec fn was_written(document: Seq<u8>) -> bool {
    exists|
        id_label: Seq<char>,
        ids: Seq<u32>,
        name_label: Seq<char>,
        names: Seq<Seq<char>>,
        value_label: Seq<char>,
        values: Seq<u64>,
    |
        #[trigger] written_document(id_label, ids, name_label, names, value_label, values)
            == Some(document)
}

/// The number of bytes that the texts of a string column take together.
pub open spec fn text_bytes(names: Seq<Seq<char>>) -> nat
    decreases names.len(),
{
    if names.len() == 0 {
        0
    } else {
        text_bytes(names.drop_last()) + vstd::utf8::encode_utf8(names.last()).len()
    }
}

/// The most bytes that the texts of one string column may take together:
/// the column finds its texts by 32-bit signed offsets.
pub const MAX_TEXT_BYTES: usize = 0x7fff_ffff;

/// `RecordBatch::num_columns`: how many columns the batch has.
#[verifier::external_body]
pub(crate) fn batch_width(batch: &Batch) -> (width: usize)
    ensures
        width == batch_columns(*batch).len(),
{
    batch.batch.num_columns()
}

/// `RecordBatch::column`, which panics beyond the last column, with the
/// array's cells copied out by `iter`: the cells of column `index`, a null
/// cell as `None` and a floating value as its bits, where the array's
/// `data_type` is one of the three that a record has, and `Other` where it
/// is any other.
#[verifier::external_body]
pub(crate) fn batch_column(batch: &Batch, index: usize) -> (column: Column)
    requires
        index < batch_columns(*batch).len(),
    ensures
        column@ == batch_columns(*batch)[index as int],
{
    let array = batch.batch.column(index);
    match array.data_type() {
        DataType::UInt32 => Column::UInt32(array.as_primitive::<UInt32Type>().iter().collect()),
        DataType::Utf8 => Column::Utf8(
            array.as_string::<i32>().iter().map(|s| s.map(String::from)).collect(),
        ),
        DataType::Float64 => Column::Float64(
            array.as_primitive::<Float64Type>().iter().map(|v| v.map(|x| x.to_bits())).collect(),
        ),
        _ => Column::Other,
    }
}

/// `ParquetMetaDataReader::parse_and_finish` on a copy of the bytes, then
/// the root of the stored schema and `Type::get_fields` on it (the footer
/// decoder refuses a root that is no group): for each node below the root,
/// in order, whether it `is_primitive` and its `repetition`, where it has
/// one; or the decoder's error. No node is converted or descended into.
/// Believed: the decoder returns on every document that the writer made,
/// and the same bytes always give the same.
#[verifier::external_body]
pub(crate) fn read_nodes(document: &[u8]) -> (r: Result<Vec<SchemaNode>, ParquetError>)
    requires
        was_written(document@),
    ensures
        r is Ok <==> document_nodes(document@) is Some,
        r is Ok ==> r->Ok_0@ == document_nodes(document@)->Some_0,
{
    let source = Bytes::copy_from_slice(document);
    let footer = ParquetMetaDataReader::new().parse_and_finish(&source)?;
    let mut nodes = Vec::new();
    for node in footer.file_metadata().schema().get_fields() {
        let occurrence = match node.get_basic_info().has_repetition() {
            false => None,
            true => Some(match node.get_basic_info().repetition() {
                Repetition::REQUIRED => Occurrence::Required,
                Repetition::OPTIONAL => Occurrence::Optional,
                Repetition::REPEATED => Occurrence::Repeated,
            }),
        };
        nodes.push(SchemaNode { leaf: node.is_primitive(), occurrence });
    }
    Ok(nodes)
}

/// `ParquetMetaDataReader::parse_and_finish` on a copy of the bytes, then
/// for every column of every row group, in order, its
/// `dictionary_page_offset`, `data_page_offset` and `compressed_size` as the
/// footer gives them; or the decoder's error. Believed: the decoder
/// returns on every document that the writer made, and the same bytes
/// always give the same.
#[verifier::external_body]
pub(crate) fn read_chunks(document: &[u8]) -> (r: Result<Vec<ChunkSpec>, ParquetError>)
    requires
        was_written(document@),
    ensures
        r is Ok <==> document_chunks(document@) is Some,
        r is Ok ==> r->Ok_0@ == document_chunks(document@)->Some_0,
{
    let source = Bytes::copy_from_slice(document);
    let footer = ParquetMetaDataReader::new().parse_and_finish(&source)?;
    let mut chunks = Vec::new();
    for chunk in footer.row_groups().iter().flat_map(|group| group.columns()) {
        chunks.push(ChunkSpec {
            dictionary_page: chunk.dictionary_page_offset(),
            data_page: chunk.data_page_offset(),
            length: chunk.compressed_size(),
        });
    }
    Ok(chunks)
}

/// `ParquetRecordBatchReaderBuilder::try_new_with_options` on a copy of the
/// bytes, with `ArrowReaderOptions::with_skip_arrow_metadata` set, so that
/// no embedded hint is decoded, then `schema`: the fields that the reader
/// makes of the stored schema, in order, each with its name, its type
/// (`Other` for all but the three types that a record has) and whether it
/// may hold nulls; or the reader's error. The conversion of a stored schema
/// panics on some groups: only a schema of leaves is admitted, and only in
/// a document that the writer made. Believed: the reader returns on every
/// such document, and the same bytes always give the same.
#[verifier::external_body]
pub(crate) fn read_fields(document: &[u8]) -> (r: Result<Vec<FieldSpec>, ParquetError>)
    requires
        was_written(document@),
        document_nodes(document@) matches Some(nodes) && is_flat(nodes),
    ensures
        r is Ok <==> document_fields(document@) is Some,
        r is Ok ==> r->Ok_0.deep_view() == document_fields(document@)->Some_0,
{
    let options = ArrowReaderOptions::new().with_skip_arrow_metadata(true);
    let source = Bytes::copy_from_slice(document);
    let builder = ParquetRecordBatchReaderBuilder::try_new_with_options(source, options)?;
    let mut fields = Vec::new();
    for field in builder.schema().fields() {
        let data_type = match field.data_type() {
            DataType::UInt32 => ColumnType::UInt32,
            DataType::Utf8 => ColumnType::Utf8,
            DataType::Float64 => ColumnType::Float64,
            _ => ColumnType::Other,
        };
        fields.push(FieldSpec { name: field.name().clone(), data_type, nullable: field.is_nullable() });
    }
    Ok(fields)
}

/// `ParquetRecordBatchReaderBuilder::try_new_with_options` on a copy of the
/// bytes, with `ArrowReaderOptions::with_skip_arrow_metadata` set, then
/// `with_batch_size`, `build`, and the reader run to its end: the batches in
/// which it hands out the document's rows, in file order, or the first
/// error (one of `arrow` as the error that `parquet` makes of it). The
/// reader panics on some malformed pages, and what a page holds cannot be
/// looked at before it is decoded: admitted are only documents that the
/// writer made, and of these only those whose schema has been read as that
/// of a record, whose footer places every column inside the document, and
/// whose batches cannot outgrow the 32-bit offsets of a string column.
/// Believed: the reader returns on every such document, and the same bytes
/// and batch size always give the same.
#[verifier::external_body]
pub(crate) fn read_batches(document: &[u8], rows: usize) -> (r: Result<
    Vec<Batch>,
    ParquetError,
>)
    requires
        was_written(document@),
        readable(document@, rows),
    ensures
        r is Ok <==> document_columns(document@, rows) is Some,
        r is Ok ==> r->Ok_0@.len() == document_columns(document@, rows)->Some_0.len(),
        r is Ok ==> forall|i: int|
            0 <= i < r->Ok_0@.len() ==> batch_columns(#[trigger] r->Ok_0@[i])
                == document_columns(document@, rows)->Some_0[i],
{
    let options = ArrowReaderOptions::new().with_skip_arrow_metadata(true);
    let source = Bytes::copy_from_slice(document);
    let builder = ParquetRecordBatchReaderBuilder::try_new_with_options(source, options)?;
    let reader = builder.with_batch_size(rows).build()?;
    let batches: Result<Vec<Batch>, _> =
        reader.map(|batch| batch.map(|batch| Batch { batch })).collect();
    batches.map_err(ParquetError::from)
}

/// `RecordBatch::try_from_iter` on the three columns as `arrow` arrays (the
/// values taken as the bits of 64-bit floating numbers), then
/// `ArrowWriter::try_new` with its default properties into a fresh buffer,
/// `write` and `close`: the bytes of the finished document, or the first
/// error. The string array panics where its texts take more than
/// [`MAX_TEXT_BYTES`] together. Believed: the same columns under the same
/// labels always give the same.
#[verifier::external_body]
pub(crate) fn write_document(
    id_label: &str,
    ids: &Vec<u32>,
    name_label: &str,
    names: &Vec<String>,
    value_label: &str,
    values: &Vec<u64>,
) -> (r: Result<Vec<u8>, ParquetError>)
    requires
        text_bytes(names.deep_view()) <= MAX_TEXT_BYTES,
    ensures
        r is Ok <==> written_document(
            id_label@,
            ids@,
            name_label@,
            names.deep_view(),
            value_label@,
            values@,
        ) is Some,
        r is Ok ==> r->Ok_0@ == written_document(
            id_label@,
            ids@,
            name_label@,
            names.deep_view(),
            value_label@,
            values@,
        )->Some_0,
{
    let floats = Float64Array::new(Buffer::from_vec(values.clone()).into(), None);
    let columns: Vec<(&str, ArrayRef)> = vec![
        (id_label, Arc::new(UInt32Array::from(ids.clone()))),
        (name_label, Arc::new(StringArray::from(names.clone()))),
        (value_label, Arc::new(floats)),
    ];
    let batch = RecordBatch::try_from_iter(columns)?;
    let mut document = Vec::new();
    let mut writer = ArrowWriter::try_new(&mut document, batch.schema(), None)?;
    writer.write(&batch)?;
    writer.close()?;
    Ok(document)
}

} // verus!
