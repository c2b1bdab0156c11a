//! Rows and columns: how the records of a batch of rows lie in its three
//! columns, and how they are put together again.

use crate::error::DecodeError;
use crate::models::{Record, RecordModel};
use crate::schema::{Column, ColumnModel};
use vstd::prelude::*;

verus! {

/// Whether no cell of a column is null.
pub open spec fn cells_present<T>(cells: Seq<Option<T>>) -> bool {
    forall|i: int| 0 <= i < cells.len() ==> (#[trigger] cells[i]) is Some
}

/// The records that three columns of equal length without nulls hold: row
/// `i` takes its id, name and value from cell `i` of each.
pub open spec fn zip_rows(
    ids: Seq<Option<u32>>,
    names: Seq<Option<Seq<char>>>,
    values: Seq<Option<u64>>,
) -> Option<Seq<RecordModel>> {
    if ids.len() == names.len() && names.len() == values.len() && cells_present(ids)
        && cells_present(names) && cells_present(values) {
        Some(
            Seq::new(
                ids.len(),
                |i: int|
                    RecordModel {
                        id: ids[i]->Some_0,
                        name: names[i]->Some_0,
                        value_bits: values[i]->Some_0,
                    },
            ),
        )
    } else {
        None
    }
}

/// The records of a batch with the given columns; `None` unless these
/// are three columns of the types of a record, of one length, without nulls.
pub open spec fn columns_records(columns: Seq<ColumnModel>) -> Option<Seq<RecordModel>> {
    if columns.len() != 3 {
        None
    } else {
        match (columns[0], columns[1], columns[2]) {
            (
                ColumnModel::UInt32(ids),
                ColumnModel::Utf8(names),
                ColumnModel::Float64(values),
            ) => zip_rows(ids, names, values),
            _ => None,
        }
    }
}

/// The records of batches with the given columns, in the order of the
/// batches; `None` where a batch does not hold the columns of a record.
pub open spec fn batches_records(batches: Seq<Seq<ColumnModel>>) -> Option<Seq<RecordModel>>
    decreases batches.len(),
{
    if batches.len() == 0 {
        Some(Seq::empty())
    } else {
        match (batches_records(batches.drop_last()), columns_records(batches.last())) {
            (Some(before), Some(rows)) => Some(before + rows),
            _ => None,
        }
    }
}

/// The id column of the given records.
pub open spec fn id_cells(records: Seq<RecordModel>) -> Seq<Option<u32>> {
    Seq::new(records.len(), |i: int| Some(records[i].id))
}

/// The name column of the given records.
pub open spec fn name_cells(records: Seq<RecordModel>) -> Seq<Option<Seq<char>>> {
    Seq::new(records.len(), |i: int| Some(records[i].name))
}

/// The value column of the given records.
pub open spec fn value_cells(records: Seq<RecordModel>) -> Seq<Option<u64>> {
    Seq::new(records.len(), |i: int| Some(records[i].value_bits))
}

/// The three columns in which the given records lie.
pub open spec fn records_columns(records: Seq<RecordModel>) -> Seq<ColumnModel> {
    seq![
        ColumnModel::UInt32(id_cells(records)),
        ColumnModel::Utf8(name_cells(records)),
        ColumnModel::Float64(value_cells(records)),
    ]
}

/// Records laid out in columns and put together again are the same records,
/// in the same order.
pub proof fn lemma_columns_round_trip(records: Seq<RecordModel>)
    ensures
        columns_records(records_columns(records)) == Some(records),
{
    let rows = zip_rows(id_cells(records), name_cells(records), value_cells(records));
    assert(rows is Some);
    assert(rows->Some_0 =~= records);
}

/// Puts the rows of a batch together from its columns.
///
/// Fails with [`DecodeError::Column`] unless the columns are the three
/// columns of a record: an id, a name and a value column, in this order, of
/// one length and without nulls.
pub fn records_from_columns(columns: &Vec<Column>) -> (r: Result<Vec<Record>, DecodeError>)
    ensures
        match r {
            Ok(records) => columns_records(columns.deep_view()) == Some(records.deep_view()),
            Err(e) => e == DecodeError::Column && columns_records(columns.deep_view()) is None,
        },
{
    if columns.len() != 3 {
        return Err(DecodeError::Column);
    }
    proof {
        assert(columns.deep_view()[0] == columns[0]@);
        assert(columns.deep_view()[1] == columns[1]@);
        assert(columns.deep_view()[2] == columns[2]@);
    }
    match (&columns[0], &columns[1], &columns[2]) {
        (Column::UInt32(ids), Column::Utf8(names), Column::Float64(values)) => {
            if ids.len() != names.len() || names.len() != values.len() {
                return Err(DecodeError::Column);
            }
            let ghost texts = names@.map_values(|cell: Option<String>| crate::schema::cell_text(cell));
            let mut records: Vec<Record> = Vec::new();
            let mut row: usize = 0;
            while row < ids.len()
                invariant
                    row <= ids.len(),
                    columns.deep_view().len() == 3,
                    columns.deep_view()[0] == ColumnModel::UInt32(ids@),
                    columns.deep_view()[1] == ColumnModel::Utf8(texts),
                    columns.deep_view()[2] == ColumnModel::Float64(values@),
                    ids.len() == names.len(),
                    names.len() == values.len(),
                    texts == names@.map_values(
                        |cell: Option<String>| crate::schema::cell_text(cell),
                    ),
                    records.len() == row,
                    forall|i: int| 0 <= i < row ==> (#[trigger] ids@[i]) is Some,
                    forall|i: int| 0 <= i < row ==> (#[trigger] texts[i]) is Some,
                    forall|i: int| 0 <= i < row ==> (#[trigger] values@[i]) is Some,
                    forall|i: int|
                        0 <= i < row ==> (#[trigger] records@[i])@ == (RecordModel {
                            id: ids@[i]->Some_0,
                            name: texts[i]->Some_0,
                            value_bits: values@[i]->Some_0,
                        }),
                decreases ids.len() - row,
            {
                match (ids[row], &names[row], values[row]) {
                    (Some(id), Some(name), Some(value_bits)) => {
                        records.push(Record { id, name: name.clone(), value_bits });
                    },
                    _ => {
                        proof {
                            assert(ids@[row as int] is None || texts[row as int] is None
                                || values@[row as int] is None);
                            assert(!cells_present(ids@) || !cells_present(texts) || !cells_present(
                                values@,
                            ));
                        }
                        return Err(DecodeError::Column);
                    },
                }
                row += 1;
            }
            proof {
                assert(cells_present(ids@));
                assert(cells_present(texts));
                assert(cells_present(values@));
                assert(records.deep_view() =~= zip_rows(ids@, texts, values@)->Some_0);
            }
            Ok(records)
        },
        _ => Err(DecodeError::Column),
    }
}

/// Once a batch among the first `count` cannot be read, the whole sequence
/// cannot.
proof fn lemma_batches_records_prefix(batches: Seq<Seq<ColumnModel>>, count: int)
    requires
        0 <= count <= batches.len(),
        batches_records(batches.take(count)) is None,
    ensures
        batches_records(batches) is None,
    decreases batches.len() - count,
{
    if count == batches.len() {
        assert(batches.take(count) =~= batches);
    } else {
        assert(batches.take(count + 1).drop_last() =~= batches.take(count));
        lemma_batches_records_prefix(batches, count + 1);
    }
}

/// Puts the rows of several batches together, batch after batch.
///
/// Fails with [`DecodeError::Column`], and returns no row at all, where one
/// of the batches does not hold the columns of a record.
pub fn records_from_batches(batches: &Vec<Vec<Column>>) -> (r: Result<Vec<Record>, DecodeError>)
    ensures
        match r {
            Ok(records) => batches_records(batches.deep_view()) == Some(records.deep_view()),
            Err(e) => e == DecodeError::Column && batches_records(batches.deep_view()) is None,
        },
{
    let ghost columns = batches.deep_view();
    let mut records: Vec<Record> = Vec::new();
    let mut index: usize = 0;
    proof {
        assert(columns.take(0) =~= Seq::<Seq<ColumnModel>>::empty());
        assert(records.deep_view() =~= Seq::<RecordModel>::empty());
    }
    while index < batches.len()
        invariant
            index <= batches.len(),
            columns == batches.deep_view(),
            batches_records(columns.take(index as int)) == Some(records.deep_view()),
        decreases batches.len() - index,
    {
        let ghost before = records.deep_view();
        proof {
            assert(columns.take(index + 1).drop_last() =~= columns.take(index as int));
            assert(columns.take(index + 1).last() == batches@[index as int].deep_view());
        }
        match records_from_columns(&batches[index]) {
            Ok(rows) => {
                let ghost added = rows.deep_view();
                let mut rows = rows;
                records.append(&mut rows);
                proof {
                    assert(records.deep_view() =~= before + added);
                }
            },
            Err(e) => {
                proof {
                    lemma_batches_records_prefix(columns, index + 1);
                }
                return Err(e);
            },
        }
        index += 1;
    }
    proof {
        assert(columns.take(index as int) =~= columns);
    }
    Ok(records)
}

} // verus!
