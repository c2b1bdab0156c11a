use vstd::prelude::*;

verus! {

/// How often a value of a schema node occurs in a row.
#[derive(Debug, Clone, Copy, PartialEq, Eq, Structural)]
pub enum Occurrence {
    Required,
    Optional,
    Repeated,
}

/// One node directly below the root of a document's stored schema: whether
/// it is a leaf, that is a column of plain values and no group of further
/// nodes, and how often its value occurs in a row, where the schema says so.
#[derive(Debug, Clone, Copy, PartialEq, Eq, Structural)]
pub struct SchemaNode {
    pub leaf: bool,
    pub occurrence: Option<Occurrence>,
}

/// Whether the nodes are those of a flat schema of three columns: three
/// leaves, each with exactly one value in every row.
pub open spec fn is_flat(nodes: Seq<SchemaNode>) -> bool {
    &&& nodes.len() == 3
    &&& forall|i: int|
        0 <= i < nodes.len() ==> (#[trigger] nodes[i]) == (SchemaNode {
            leaf: true,
            occurrence: Some(Occurrence::Required),
        })
}

/// Whether the nodes below the root of a stored schema are three leaves,
/// each with exactly one value in every row.
pub fn is_flat_schema(nodes: &Vec<SchemaNode>) -> (flat: bool)
    ensures
        flat == is_flat(nodes@),
{
    if nodes.len() != 3 {
        return false;
    }
    let mut index: usize = 0;
    while index < 3
        invariant
            index <= 3,
            nodes.len() == 3,
            forall|i: int|
                0 <= i < index ==> (#[trigger] nodes@[i]) == (SchemaNode {
                    leaf: true,
                    occurrence: Some(Occurrence::Required),
                }),
        decreases 3 - index,
    {
        let node = nodes[index];
        let single = match node.occurrence {
            Some(Occurrence::Required) => true,
            _ => false,
        };
        if !node.leaf || !single {
            return false;
        }
        index += 1;
    }
    true
}

/// Where a document's footer says that the pages of one column of one row
/// group lie: the offset of its dictionary page, where it has one, that of
/// its first data page, and the number of bytes that all its pages take.
#[derive(Debug, Clone, Copy, PartialEq, Eq, Structural)]
pub struct ChunkSpec {
    pub dictionary_page: Option<i64>,
    pub data_page: i64,
    pub length: i64,
}

impl ChunkSpec {
    /// The offset at which the pages begin.
    pub open spec fn start(self) -> int {
        match self.dictionary_page {
            Some(offset) => offset as int,
            None => self.data_page as int,
        }
    }

    /// Whether the pages lie inside a document of `size` bytes.
    pub open spec fn within(self, size: int) -> bool {
        0 <= self.start() && 0 <= self.length && self.start() + self.length <= size
    }
}

/// Whether the pages of every column lie inside a document of `size` bytes.
pub open spec fn chunks_within(chunks: Seq<ChunkSpec>, size: int) -> bool {
    forall|i: int| 0 <= i < chunks.len() ==> (#[trigger] chunks[i]).within(size)
}

/// Whether the pages of every column lie inside a document of `size` bytes.
pub fn are_chunks_within(chunks: &Vec<ChunkSpec>, size: usize) -> (within: bool)
    ensures
        within == chunks_within(chunks@, size as int),
{
    let mut index: usize = 0;
    while index < chunks.len()
        invariant
            index <= chunks.len(),
            forall|i: int| 0 <= i < index ==> (#[trigger] chunks@[i]).within(size as int),
        decreases chunks.len() - index,
    {
        let chunk = chunks[index];
        let start = match chunk.dictionary_page {
            Some(offset) => offset,
            None => chunk.data_page,
        };
        if start < 0 || chunk.length < 0 {
            return false;
        }
        if start as u64 > size as u64 || chunk.length as u64 > size as u64 - start as u64 {
            return false;
        }
        index += 1;
    }
    true
}

/// The type of a column, as far as the store tells column types apart.
#[derive(Debug, Clone, Copy, PartialEq, Eq, Structural)]
pub enum ColumnType {
    UInt32,
    Utf8,
    Float64,
    /// Any type that no column of a record has.
    Other,
}

/// One column of a schema: its name, its type, and whether it may hold nulls.
#[derive(Debug, Clone, PartialEq, Eq)]
pub struct FieldSpec {
    pub name: String,
    pub data_type: ColumnType,
    pub nullable: bool,
}

/// What a [`FieldSpec`] stands for in contracts.
pub struct FieldModel {
    pub name: Seq<char>,
    pub data_type: ColumnType,
    pub nullable: bool,
}

impl View for FieldSpec {
    type V = FieldModel;

    open spec fn view(&self) -> FieldModel {
        FieldModel { name: self.name@, data_type: self.data_type, nullable: self.nullable }
    }
}

impl DeepView for FieldSpec {
    type V = FieldModel;

    open spec fn deep_view(&self) -> FieldModel {
        self@
    }
}

/// The cells of one column of a batch of rows, a null cell being `None`.
#[derive(Debug, Clone, PartialEq, Eq)]
pub enum Column {
    UInt32(Vec<Option<u32>>),
    Utf8(Vec<Option<String>>),
    Float64(Vec<Option<u64>>),
    /// A column of a type that no column of a record has.
    Other,
}

/// What a [`Column`] stands for in contracts.
pub enum ColumnModel {
    UInt32(Seq<Option<u32>>),
    Utf8(Seq<Option<Seq<char>>>),
    Float64(Seq<Option<u64>>),
    Other,
}

/// The text of a cell that holds a string.
pub open spec fn cell_text(cell: Option<String>) -> Option<Seq<char>> {
    match cell {
        Some(s) => Some(s@),
        None => None,
    }
}

impl View for Column {
    type V = ColumnModel;

    open spec fn view(&self) -> ColumnModel {
        match self {
            Column::UInt32(cells) => ColumnModel::UInt32(cells@),
            Column::Utf8(cells) => ColumnModel::Utf8(
                cells@.map_values(|cell: Option<String>| cell_text(cell)),
            ),
            Column::Float64(cells) => ColumnModel::Float64(cells@),
            Column::Other => ColumnModel::Other,
        }
    }
}

impl DeepView for Column {
    type V = ColumnModel;

    open spec fn deep_view(&self) -> ColumnModel {
        self@
    }
}

/// The schema of a record: its three columns, none of which holds nulls.
pub open spec fn record_schema() -> Seq<FieldModel> {
    seq![
        FieldModel { name: "id"@, data_type: ColumnType::UInt32, nullable: false },
        FieldModel { name: "name"@, data_type: ColumnType::Utf8, nullable: false },
        FieldModel { name: "value"@, data_type: ColumnType::Float64, nullable: false },
    ]
}

/// Whether `field` is a column without nulls of the given name and type.
fn is_field(field: &FieldSpec, name: &str, data_type: ColumnType) -> (b: bool)
    ensures
        b == (field@ == FieldModel { name: name@, data_type, nullable: false }),
{
    let name_agrees = field.name == name.to_string();
    name_agrees && field.data_type == data_type && !field.nullable
}

/// Whether `fields` is the schema of a record.
pub fn is_record_schema(fields: &Vec<FieldSpec>) -> (b: bool)
    ensures
        b == (fields.deep_view() == record_schema()),
{
    proof {
        assert(fields.deep_view().len() == fields.len());
        assert(record_schema().len() == 3);
    }
    if fields.len() != 3 {
        return false;
    }
    let agrees = is_field(&fields[0], "id", ColumnType::UInt32) && is_field(
        &fields[1],
        "name",
        ColumnType::Utf8,
    ) && is_field(&fields[2], "value", ColumnType::Float64);
    proof {
        let schema = record_schema();
        assert(fields.deep_view()[0] == fields[0]@);
        assert(fields.deep_view()[1] == fields[1]@);
        assert(fields.deep_view()[2] == fields[2]@);
        if agrees {
            assert(fields.deep_view() =~= schema);
        }
    }
    agrees
}

} // verus!
