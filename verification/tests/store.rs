use arrow::array::{Array, AsArray};
use arrow::datatypes::{DataType, Float64Type, UInt32Type};
use arrow::record_batch::RecordBatch;
use bytes::Bytes;
use parquet::arrow::arrow_reader::{ArrowReaderOptions, ParquetRecordBatchReaderBuilder};
use parquet::basic::Repetition;
use parquet::errors::ParquetError;
use parquet::file::metadata::ParquetMetaDataReader;
use record_store::document::{document_outcome, Reading, Stage, ROWS_PER_BATCH};
use record_store::schema::{ChunkSpec, Column, ColumnType, FieldSpec, Occurrence, SchemaNode};
use record_store::db::{Database, DbError};
use record_store::error::{DecodeError, EncodeError};
use record_store::frame::{frame, split_frames};
use record_store::models::Record;

fn stage<T>(answer: Result<T, ParquetError>) -> Stage<T> {
    match answer {
        Ok(value) => Stage::Read(value),
        Err(_) => Stage::Failed,
    }
}

fn builder(source: &Bytes) -> Result<ParquetRecordBatchReaderBuilder<Bytes>, ParquetError> {
    let options = ArrowReaderOptions::new().with_skip_arrow_metadata(true);
    ParquetRecordBatchReaderBuilder::try_new_with_options(source.clone(), options)
}

fn nodes(source: &Bytes) -> Result<Vec<SchemaNode>, ParquetError> {
    let footer = ParquetMetaDataReader::new().parse_and_finish(source)?;
    let mut nodes = Vec::new();
    for node in footer.file_metadata().schema().get_fields() {
        let occurrence = match node.get_basic_info().has_repetition() {
            false => None,
            true => Some(match node.get_basic_info().repetition() {
                Repetition::REQUIRED => Occurrence::Required,
                Repetition::OPTIONAL => Occurrence::Optional,
                Repetition::REPEATED => Occurrence::Repeated,
            }),
        };
        nodes.push(SchemaNode { leaf: node.is_primitive(), occurrence });
    }
    Ok(nodes)
}

fn fields(source: &Bytes) -> Result<Vec<FieldSpec>, ParquetError> {
    let mut fields = Vec::new();
    for field in builder(source)?.schema().fields() {
        let data_type = match field.data_type() {
            DataType::UInt32 => ColumnType::UInt32,
            DataType::Utf8 => ColumnType::Utf8,
            DataType::Float64 => ColumnType::Float64,
            _ => ColumnType::Other,
        };
        fields.push(FieldSpec { name: field.name().clone(), data_type, nullable: field.is_nullable() });
    }
    Ok(fields)
}

fn chunks(source: &Bytes) -> Result<Vec<ChunkSpec>, ParquetError> {
    let footer = ParquetMetaDataReader::new().parse_and_finish(source)?;
    let mut chunks = Vec::new();
    for chunk in footer.row_groups().iter().flat_map(|group| group.columns()) {
        chunks.push(ChunkSpec {
            dictionary_page: chunk.dictionary_page_offset(),
            data_page: chunk.data_page_offset(),
            length: chunk.compressed_size(),
        });
    }
    Ok(chunks)
}

fn columns(batch: &RecordBatch) -> Vec<Column> {
    let mut columns = Vec::new();
    for array in batch.columns() {
        columns.push(match array.data_type() {
            DataType::UInt32 => Column::UInt32(array.as_primitive::<UInt32Type>().iter().collect()),
            DataType::Utf8 => Column::Utf8(
                array.as_string::<i32>().iter().map(|s| s.map(String::from)).collect(),
            ),
            DataType::Float64 => Column::Float64(
                array.as_primitive::<Float64Type>().iter().map(|v| v.map(|x| x.to_bits())).collect(),
            ),
            _ => Column::Other,
        });
    }
    columns
}

fn batches(source: &Bytes) -> Result<Vec<Vec<Column>>, ParquetError> {
    let reader = builder(source)?.with_batch_size(ROWS_PER_BATCH).build()?;
    let mut batches = Vec::new();
    for batch in reader {
        batches.push(columns(&batch?));
    }
    Ok(batches)
}

/// Reads one document, taking each step only once the library asks for it.
fn read(document: &[u8]) -> Result<Vec<Record>, DecodeError> {
    let source = Bytes::copy_from_slice(document);
    let mut reading = Reading {
        nodes: Stage::Unread,
        fields: Stage::Unread,
        chunks: Stage::Unread,
        batches: Stage::Unread,
    };
    loop {
        if let Some(outcome) = document_outcome(document.len(), &reading) {
            return outcome;
        }
        if reading.nodes == Stage::Unread {
            reading.nodes = stage(nodes(&source));
        } else if reading.fields == Stage::Unread {
            reading.fields = stage(fields(&source));
        } else if reading.chunks == Stage::Unread {
            reading.chunks = stage(chunks(&source));
        } else {
            reading.batches = stage(batches(&source));
        }
    }
}

/// Lists a store file, reading each of its documents.
fn list(db: &Database, file: &[u8]) -> Result<Vec<Record>, DbError> {
    let outcomes = match split_frames(file) {
        Some(documents) => documents.iter().map(|document| read(document)).collect(),
        None => Vec::new(),
    };
    db.get_records(file, &outcomes)
}

fn record(id: u32, name: &str, value: f64) -> Record {
    Record { id, name: name.to_string(), value_bits: value.to_bits() }
}

fn fresh(db: &Database) -> Vec<u8> {
    db.initialize(false).expect("initialize").expect("content for a missing file")
}

fn append(db: &Database, file: &mut Vec<u8>, r: Record) {
    let bytes = db.add_record(r).expect("add_record");
    file.extend_from_slice(&bytes);
}

#[test]
fn new_keeps_the_path() {
    let db = Database::new("data.parquet");
    assert_eq!(db.file_path(), "data.parquet");
    assert_eq!(Database::new("").file_path(), "");
}

#[test]
fn initialize_leaves_an_existing_file_alone() {
    let db = Database::new("data.parquet");
    assert!(matches!(db.initialize(true), Ok(None)));
}

#[test]
fn initialize_twice_is_initialize_once() {
    let db = Database::new("data.parquet");
    let once = fresh(&db);
    // the second call finds the file and writes nothing
    assert!(matches!(db.initialize(true), Ok(None)));
    assert_eq!(list(&db, &once).unwrap(), Vec::<Record>::new());
    // and what a first call would write is the same on every call
    assert_eq!(fresh(&db), once);
}

#[test]
fn fresh_store_lists_nothing() {
    let db = Database::new("p");
    let file = fresh(&db);
    assert!(!file.is_empty());
    assert_eq!(list(&db, &file).unwrap(), Vec::<Record>::new());
}

#[test]
fn fresh_store_is_one_frame() {
    let db = Database::new("p");
    let file = fresh(&db);
    let frames = split_frames(&file).unwrap();
    assert_eq!(frames.len(), 1);
    assert_eq!(&frames[0][..4], b"PAR1");
}

#[test]
fn scenario_init_append_list() {
    let db = Database::new("p");
    let mut file = fresh(&db);
    assert_eq!(list(&db, &file).unwrap(), vec![]);
    append(&db, &mut file, record(1, "a", 1.5));
    assert_eq!(list(&db, &file).unwrap(), vec![record(1, "a", 1.5)]);
    append(&db, &mut file, record(2, "b", -2.0));
    assert_eq!(list(&db, &file).unwrap(), vec![record(1, "a", 1.5), record(2, "b", -2.0)]);
}

#[test]
fn append_then_list_round_trip() {
    let db = Database::new("p");
    for r in [
        record(0, "", 0.0),
        record(u32::MAX, "name", f64::MAX),
        record(7, "zwölf ≠ 十二 🦀", -0.0),
        record(7, "line\nbreak\0nul", f64::MIN_POSITIVE),
    ] {
        let mut file = fresh(&db);
        append(&db, &mut file, r.clone());
        assert_eq!(list(&db, &file).unwrap(), vec![r]);
    }
}

#[test]
fn non_finite_values_are_kept_bit_for_bit() {
    let db = Database::new("p");
    let patterns: [u64; 5] = [
        f64::INFINITY.to_bits(),
        f64::NEG_INFINITY.to_bits(),
        f64::NAN.to_bits(),
        0x7ff0_0000_0000_0001,
        0xfff8_dead_beef_0001,
    ];
    let mut file = fresh(&db);
    for (i, bits) in patterns.iter().enumerate() {
        let r = Record { id: i as u32, name: "n".to_string(), value_bits: *bits };
        append(&db, &mut file, r);
    }
    let listed = list(&db, &file).unwrap();
    let bits: Vec<u64> = listed.iter().map(|r| r.value_bits).collect();
    assert_eq!(bits, patterns.to_vec());
    assert!(f64::from_bits(listed[2].value_bits).is_nan());
}

#[test]
fn order_is_append_order() {
    let db = Database::new("p");
    let (r1, r2, r3) = (record(3, "c", 3.0), record(1, "a", 1.0), record(2, "b", 2.0));
    let mut file = fresh(&db);
    append(&db, &mut file, r1.clone());
    append(&db, &mut file, r2.clone());
    append(&db, &mut file, r3.clone());
    assert_eq!(list(&db, &file).unwrap(), vec![r1, r2, r3]);
}

#[test]
fn duplicate_ids_are_kept() {
    let db = Database::new("p");
    let mut file = fresh(&db);
    append(&db, &mut file, record(5, "first", 1.0));
    append(&db, &mut file, record(5, "second", 2.0));
    assert_eq!(
        list(&db, &file).unwrap(),
        vec![record(5, "first", 1.0), record(5, "second", 2.0)]
    );
}

#[test]
fn identical_records_are_both_kept() {
    let db = Database::new("p");
    let mut file = fresh(&db);
    append(&db, &mut file, record(5, "same", 1.0));
    append(&db, &mut file, record(5, "same", 1.0));
    assert_eq!(list(&db, &file).unwrap(), vec![record(5, "same", 1.0); 2]);
}

#[test]
fn every_append_adds_one_frame() {
    let db = Database::new("p");
    let mut file = fresh(&db);
    for i in 0..4 {
        append(&db, &mut file, record(i, "x", 0.5));
        assert_eq!(split_frames(&file).unwrap().len(), i as usize + 2);
    }
}

#[test]
fn appends_in_any_turn_order_lose_and_repeat_nothing() {
    let db = Database::new("p");
    let launched: Vec<Record> = (0..8).map(|i| record(i, &format!("r{i}"), i as f64)).collect();
    let turns = [5usize, 0, 7, 2, 1, 6, 3, 4];
    let mut file = fresh(&db);
    for t in turns {
        append(&db, &mut file, launched[t].clone());
    }
    let listed = list(&db, &file).unwrap();
    let expected: Vec<Record> = turns.iter().map(|t| launched[*t].clone()).collect();
    assert_eq!(listed, expected);
    for r in &launched {
        assert_eq!(listed.iter().filter(|l| *l == r).count(), 1);
    }
}

#[test]
fn add_record_does_not_depend_on_the_path() {
    let a = Database::new("a").add_record(record(1, "a", 1.5)).unwrap();
    let b = Database::new("b").add_record(record(1, "a", 1.5)).unwrap();
    assert_eq!(a, b);
}

#[test]
fn empty_file_has_no_header() {
    let db = Database::new("p");
    assert!(matches!(list(&db, &[]), Err(DbError::Decode(DecodeError::NoHeader))));
}

#[test]
fn file_cut_inside_a_frame_is_truncated() {
    let db = Database::new("p");
    let mut file = fresh(&db);
    append(&db, &mut file, record(1, "a", 1.5));
    for cut in [1usize, 7, 8, 9, file.len() - 1] {
        let r = list(&db, &file[..cut]);
        assert!(matches!(r, Err(DbError::Decode(DecodeError::Truncated))), "cut at {cut}");
    }
    let header_len = fresh(&db).len();
    // a cut between two frames leaves a shorter, whole file
    assert_eq!(list(&db, &file[..header_len]).unwrap(), vec![]);
    // a cut inside the second frame never shows part of its row
    let r = list(&db, &file[..header_len + 12]);
    assert!(matches!(r, Err(DbError::Decode(DecodeError::Truncated))));
}

#[test]
fn frame_that_is_no_document_fails() {
    let db = Database::new("p");
    let mut file = fresh(&db);
    append(&db, &mut file, record(1, "a", 1.5));
    file.extend_from_slice(&frame(b"not a columnar document").unwrap());
    assert!(matches!(list(&db, &file), Err(DbError::Decode(DecodeError::Container))));
    let only = frame(b"").unwrap();
    assert!(matches!(list(&db, &only), Err(DbError::Decode(DecodeError::Container))));
}

#[test]
fn damaged_document_never_lists_part_of_the_rows() {
    let db = Database::new("p");
    let mut file = fresh(&db);
    append(&db, &mut file, record(1, "a", 1.5));
    let header_len = fresh(&db).len();
    // overwrite the footer magic of the first document
    for b in &mut file[header_len - 4..header_len] {
        *b = 0;
    }
    assert!(matches!(list(&db, &file), Err(DbError::Decode(_))));
}

#[test]
fn name_beyond_what_a_column_holds_is_too_large() {
    let db = Database::new("p");
    let name = String::from_utf8(vec![b'a'; 0x8000_0000]).unwrap();
    let r = db.add_record(Record { id: 1, name, value_bits: 0 });
    assert!(matches!(r, Err(DbError::Encode(EncodeError::TooLarge))));
}
