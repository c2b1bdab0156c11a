use vstd::prelude::*;

verus! {

/// One row of the store.
///
/// `value_bits` is the IEEE-754 bit pattern of the row's 64-bit floating
/// value, so that every value, NaN payloads included, compares exactly.
#[derive(Debug, Clone, PartialEq, Eq)]
pub struct Record {
    pub id: u32,
    pub name: String,
    pub value_bits: u64,
}

/// What a [`Record`] stands for in contracts.
pub struct RecordModel {
    pub id: u32,
    pub name: Seq<char>,
    pub value_bits: u64,
}

impl View for Record {
    type V = RecordModel;

    open spec fn view(&self) -> RecordModel {
        RecordModel { id: self.id, name: self.name@, value_bits: self.value_bits }
    }
}

impl DeepView for Record {
    type V = RecordModel;

    open spec fn deep_view(&self) -> RecordModel {
        self@
    }
}

} // verus!
