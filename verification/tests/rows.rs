use record_store::error::DecodeError;
use record_store::models::Record;
use record_store::rows::{records_from_batches, records_from_columns};
use record_store::schema::{
    are_chunks_within, is_flat_schema, is_record_schema, ChunkSpec, Column, ColumnType,
    FieldSpec, Occurrence, SchemaNode,
};

fn field(name: &str, data_type: ColumnType, nullable: bool) -> FieldSpec {
    FieldSpec { name: name.to_string(), data_type, nullable }
}

fn schema() -> Vec<FieldSpec> {
    vec![
        field("id", ColumnType::UInt32, false),
        field("name", ColumnType::Utf8, false),
        field("value", ColumnType::Float64, false),
    ]
}

fn text(s: &str) -> Option<String> {
    Some(s.to_string())
}

#[test]
fn record_schema_is_accepted() {
    assert!(is_record_schema(&schema()));
}

#[test]
fn schema_with_an_extra_column_is_refused() {
    let mut fields = schema();
    fields.push(field("extra", ColumnType::UInt32, false));
    assert!(!is_record_schema(&fields));
}

#[test]
fn schema_with_a_missing_column_is_refused() {
    let mut fields = schema();
    fields.pop();
    assert!(!is_record_schema(&fields));
    assert!(!is_record_schema(&Vec::new()));
}

#[test]
fn schema_with_another_name_type_or_order_is_refused() {
    let mut fields = schema();
    fields[0].name = "ID".to_string();
    assert!(!is_record_schema(&fields));
    let mut fields = schema();
    fields[2].data_type = ColumnType::Other;
    assert!(!is_record_schema(&fields));
    let mut fields = schema();
    fields[0].data_type = ColumnType::Float64;
    assert!(!is_record_schema(&fields));
    let mut fields = schema();
    fields.swap(0, 1);
    assert!(!is_record_schema(&fields));
}

#[test]
fn schema_with_a_nullable_column_is_refused() {
    for i in 0..3 {
        let mut fields = schema();
        fields[i].nullable = true;
        assert!(!is_record_schema(&fields));
    }
}

#[test]
fn rows_are_aligned_across_columns() {
    let columns = vec![
        Column::UInt32(vec![Some(1), Some(2), Some(3)]),
        Column::Utf8(vec![text("a"), text("b"), text("c")]),
        Column::Float64(vec![Some(10), Some(20), Some(30)]),
    ];
    assert_eq!(
        records_from_columns(&columns).unwrap(),
        vec![
            Record { id: 1, name: "a".to_string(), value_bits: 10 },
            Record { id: 2, name: "b".to_string(), value_bits: 20 },
            Record { id: 3, name: "c".to_string(), value_bits: 30 },
        ]
    );
}

#[test]
fn empty_columns_hold_no_row() {
    let columns =
        vec![Column::UInt32(vec![]), Column::Utf8(vec![]), Column::Float64(vec![])];
    assert_eq!(records_from_columns(&columns).unwrap(), vec![]);
}

#[test]
fn wrong_number_of_columns_is_refused() {
    let three = vec![
        Column::UInt32(vec![Some(1)]),
        Column::Utf8(vec![text("a")]),
        Column::Float64(vec![Some(10)]),
    ];
    let mut four = three.clone();
    four.push(Column::UInt32(vec![Some(1)]));
    assert_eq!(records_from_columns(&four), Err(DecodeError::Column));
    assert_eq!(records_from_columns(&three[..2].to_vec()), Err(DecodeError::Column));
    assert_eq!(records_from_columns(&Vec::new()), Err(DecodeError::Column));
}

#[test]
fn column_of_another_type_is_refused() {
    let swapped = vec![
        Column::Utf8(vec![text("a")]),
        Column::UInt32(vec![Some(1)]),
        Column::Float64(vec![Some(10)]),
    ];
    assert_eq!(records_from_columns(&swapped), Err(DecodeError::Column));
    let other = vec![Column::UInt32(vec![Some(1)]), Column::Utf8(vec![text("a")]), Column::Other];
    assert_eq!(records_from_columns(&other), Err(DecodeError::Column));
    let bits_for_ids = vec![
        Column::Float64(vec![Some(1)]),
        Column::Utf8(vec![text("a")]),
        Column::Float64(vec![Some(10)]),
    ];
    assert_eq!(records_from_columns(&bits_for_ids), Err(DecodeError::Column));
}

#[test]
fn null_cell_is_refused() {
    let full = vec![
        Column::UInt32(vec![Some(1), Some(2)]),
        Column::Utf8(vec![text("a"), text("b")]),
        Column::Float64(vec![Some(10), Some(20)]),
    ];
    assert!(records_from_columns(&full).is_ok());
    let mut c = full.clone();
    c[0] = Column::UInt32(vec![Some(1), None]);
    assert_eq!(records_from_columns(&c), Err(DecodeError::Column));
    let mut c = full.clone();
    c[1] = Column::Utf8(vec![None, text("b")]);
    assert_eq!(records_from_columns(&c), Err(DecodeError::Column));
    let mut c = full.clone();
    c[2] = Column::Float64(vec![Some(10), None]);
    assert_eq!(records_from_columns(&c), Err(DecodeError::Column));
}

#[test]
fn columns_of_different_length_are_refused() {
    let ragged = vec![
        Column::UInt32(vec![Some(1), Some(2)]),
        Column::Utf8(vec![text("a")]),
        Column::Float64(vec![Some(10), Some(20)]),
    ];
    assert_eq!(records_from_columns(&ragged), Err(DecodeError::Column));
    let ragged = vec![
        Column::UInt32(vec![Some(1)]),
        Column::Utf8(vec![text("a")]),
        Column::Float64(vec![]),
    ];
    assert_eq!(records_from_columns(&ragged), Err(DecodeError::Column));
}

#[test]
fn batches_are_put_together_in_order() {
    let first = vec![
        Column::UInt32(vec![Some(1), Some(2)]),
        Column::Utf8(vec![text("a"), text("b")]),
        Column::Float64(vec![Some(10), Some(20)]),
    ];
    let none = vec![Column::UInt32(vec![]), Column::Utf8(vec![]), Column::Float64(vec![])];
    let last = vec![
        Column::UInt32(vec![Some(3)]),
        Column::Utf8(vec![text("c")]),
        Column::Float64(vec![Some(30)]),
    ];
    let listed = records_from_batches(&vec![first, none, last]).unwrap();
    assert_eq!(
        listed,
        vec![
            Record { id: 1, name: "a".to_string(), value_bits: 10 },
            Record { id: 2, name: "b".to_string(), value_bits: 20 },
            Record { id: 3, name: "c".to_string(), value_bits: 30 },
        ]
    );
    assert_eq!(records_from_batches(&Vec::new()).unwrap(), vec![]);
}

#[test]
fn one_bad_batch_fails_them_all() {
    let good = vec![
        Column::UInt32(vec![Some(1)]),
        Column::Utf8(vec![text("a")]),
        Column::Float64(vec![Some(10)]),
    ];
    let bad = vec![Column::UInt32(vec![Some(1)]), Column::Utf8(vec![text("a")])];
    assert_eq!(
        records_from_batches(&vec![good.clone(), bad.clone(), good.clone()]),
        Err(DecodeError::Column)
    );
    assert_eq!(records_from_batches(&vec![good, bad]), Err(DecodeError::Column));
}

fn leaf(occurrence: Occurrence) -> SchemaNode {
    SchemaNode { leaf: true, occurrence: Some(occurrence) }
}

#[test]
fn three_required_leaves_are_flat() {
    assert!(is_flat_schema(&vec![leaf(Occurrence::Required); 3]));
}

#[test]
fn other_shapes_are_not_flat() {
    let required = leaf(Occurrence::Required);
    assert!(!is_flat_schema(&Vec::new()));
    assert!(!is_flat_schema(&vec![required; 2]));
    assert!(!is_flat_schema(&vec![required; 4]));
    for at in 0..3 {
        for other in [
            leaf(Occurrence::Optional),
            leaf(Occurrence::Repeated),
            SchemaNode { leaf: true, occurrence: None },
            SchemaNode { leaf: false, occurrence: Some(Occurrence::Required) },
            SchemaNode { leaf: false, occurrence: Some(Occurrence::Repeated) },
        ] {
            let mut nodes = vec![required; 3];
            nodes[at] = other;
            assert!(!is_flat_schema(&nodes), "{other:?} at {at}");
        }
    }
}

fn chunk(dictionary_page: Option<i64>, data_page: i64, length: i64) -> ChunkSpec {
    ChunkSpec { dictionary_page, data_page, length }
}

#[test]
fn chunks_inside_the_document_are_within() {
    assert!(are_chunks_within(&Vec::new(), 0));
    assert!(are_chunks_within(&vec![chunk(None, 4, 30), chunk(Some(34), 50, 66)], 100));
    assert!(are_chunks_within(&vec![chunk(None, 0, 100)], 100));
    assert!(are_chunks_within(&vec![chunk(None, 100, 0)], 100));
    // where a dictionary page comes first, the offset of the data page is not asked
    assert!(are_chunks_within(&vec![chunk(Some(4), -1, 10)], 100));
}

#[test]
fn chunks_outside_the_document_are_not_within() {
    assert!(!are_chunks_within(&vec![chunk(None, -1, 10)], 100));
    assert!(!are_chunks_within(&vec![chunk(Some(-1), 4, 10)], 100));
    assert!(!are_chunks_within(&vec![chunk(None, 4, -1)], 100));
    assert!(!are_chunks_within(&vec![chunk(None, 4, 97)], 100));
    assert!(!are_chunks_within(&vec![chunk(None, 101, 0)], 100));
    assert!(!are_chunks_within(&vec![chunk(None, i64::MAX, i64::MAX)], 100));
    assert!(!are_chunks_within(&vec![chunk(None, 4, 10), chunk(None, 4, i64::MIN)], 100));
    assert!(!are_chunks_within(&vec![chunk(None, 1, 0)], 0));
}
