//! Resolution of attribute values that live on a different payload than the one
//! being written.
//!
//! Copying an attribute from a resource or a scope onto a record is a join, not a
//! broadcast: each target row resolves to its own value. This module walks the
//! parent-id chain from the payload being written up to the root batch, then down
//! into the source attributes batch, and materializes one value per target row.

use crate::column::{
    Cell, Column, ColumnView, DataType, Leaf, LeafView, ScalarType, Scalars, Slot,
};
use crate::consts::{
    ATTRIBUTE_BOOL, ATTRIBUTE_BYTES, ATTRIBUTE_DOUBLE, ATTRIBUTE_INT, ATTRIBUTE_KEY,
    ATTRIBUTE_STR, ATTRIBUTE_TYPE, ID, PARENT_ID, RESOURCE, SCOPE,
};
use crate::error::Error;
use crate::payload::{ArrowPayloadType, AttributeValueType};
use crate::records::{
    BatchView, OtapArrowRecords, Payload, PayloadView, RecordBatch, RecordsView,
    StringArrayAccessor,
};
use std::collections::HashMap;
use vstd::prelude::*;

verus! {

/// Where an attribute value is read from, relative to the record being written.
#[derive(Clone, Copy, PartialEq, Eq, Structural, Debug)]
pub enum AttributeSourceScope {
    /// The resource the record belongs to.
    Resource,
    /// The instrumentation scope the record belongs to.
    Scope,
    /// The root record itself (log record, span, or metric).
    Record,
}

/// The attributes payload holding the values for `scope`.
pub open spec fn attrs_payload(
    scope: AttributeSourceScope,
    root_payload_type: ArrowPayloadType,
) -> Option<ArrowPayloadType> {
    match scope {
        AttributeSourceScope::Resource => Some(ArrowPayloadType::ResourceAttrs),
        AttributeSourceScope::Scope => Some(ArrowPayloadType::ScopeAttrs),
        AttributeSourceScope::Record => match root_payload_type {
            ArrowPayloadType::Logs => Some(ArrowPayloadType::LogAttrs),
            ArrowPayloadType::Spans => Some(ArrowPayloadType::SpanAttrs),
            ArrowPayloadType::UnivariateMetrics => Some(ArrowPayloadType::MetricAttrs),
            ArrowPayloadType::MultivariateMetrics => Some(ArrowPayloadType::MetricAttrs),
            _ => None,
        },
    }
}

/// The attributes payload holding the values for `scope`.
pub fn source_attrs_payload_type(
    scope: AttributeSourceScope,
    root_payload_type: ArrowPayloadType,
) -> (r: Option<ArrowPayloadType>)
    ensures
        r == attrs_payload(scope, root_payload_type),
{
    match scope {
        AttributeSourceScope::Resource => Some(ArrowPayloadType::ResourceAttrs),
        AttributeSourceScope::Scope => Some(ArrowPayloadType::ScopeAttrs),
        AttributeSourceScope::Record => match root_payload_type {
            ArrowPayloadType::Logs => Some(ArrowPayloadType::LogAttrs),
            ArrowPayloadType::Spans => Some(ArrowPayloadType::SpanAttrs),
            ArrowPayloadType::UnivariateMetrics => Some(ArrowPayloadType::MetricAttrs),
            ArrowPayloadType::MultivariateMetrics => Some(ArrowPayloadType::MetricAttrs),
            _ => None,
        },
    }
}

/// The payload a given payload's `parent_id` column points at.
pub open spec fn parent_payload(
    payload_type: ArrowPayloadType,
    root_payload_type: ArrowPayloadType,
) -> Option<ArrowPayloadType> {
    match payload_type {
        ArrowPayloadType::NumberDataPoints => Some(root_payload_type),
        ArrowPayloadType::SummaryDataPoints => Some(root_payload_type),
        ArrowPayloadType::HistogramDataPoints => Some(root_payload_type),
        ArrowPayloadType::ExpHistogramDataPoints => Some(root_payload_type),
        ArrowPayloadType::SpanEvents => Some(root_payload_type),
        ArrowPayloadType::SpanLinks => Some(root_payload_type),
        ArrowPayloadType::NumberDpExemplars => Some(ArrowPayloadType::NumberDataPoints),
        ArrowPayloadType::HistogramDpExemplars => Some(ArrowPayloadType::HistogramDataPoints),
        ArrowPayloadType::ExpHistogramDpExemplars => Some(
            ArrowPayloadType::ExpHistogramDataPoints,
        ),
        _ => None,
    }
}

/// The payload a given payload's `parent_id` column points at.
pub fn parent_payload_type(
    payload_type: ArrowPayloadType,
    root_payload_type: ArrowPayloadType,
) -> (r: Option<ArrowPayloadType>)
    ensures
        r == parent_payload(payload_type, root_payload_type),
{
    match payload_type {
        ArrowPayloadType::NumberDataPoints => Some(root_payload_type),
        ArrowPayloadType::SummaryDataPoints => Some(root_payload_type),
        ArrowPayloadType::HistogramDataPoints => Some(root_payload_type),
        ArrowPayloadType::ExpHistogramDataPoints => Some(root_payload_type),
        ArrowPayloadType::SpanEvents => Some(root_payload_type),
        ArrowPayloadType::SpanLinks => Some(root_payload_type),
        ArrowPayloadType::NumberDpExemplars => Some(ArrowPayloadType::NumberDataPoints),
        ArrowPayloadType::HistogramDpExemplars => Some(ArrowPayloadType::HistogramDataPoints),
        ArrowPayloadType::ExpHistogramDpExemplars => Some(
            ArrowPayloadType::ExpHistogramDataPoints,
        ),
        _ => None,
    }
}

/// How many parents a payload has up to the root.
pub open spec fn depth(payload_type: ArrowPayloadType, root_payload_type: ArrowPayloadType) -> nat {
    if payload_type == root_payload_type {
        0
    } else {
        match payload_type {
            ArrowPayloadType::NumberDataPoints => 1,
            ArrowPayloadType::SummaryDataPoints => 1,
            ArrowPayloadType::HistogramDataPoints => 1,
            ArrowPayloadType::ExpHistogramDataPoints => 1,
            ArrowPayloadType::SpanEvents => 1,
            ArrowPayloadType::SpanLinks => 1,
            ArrowPayloadType::NumberDpExemplars => 2,
            ArrowPayloadType::HistogramDpExemplars => 2,
            ArrowPayloadType::ExpHistogramDpExemplars => 2,
            _ => 0,
        }
    }
}

/// The value column holding a given attribute type, or `None` if it is not a scalar.
pub open spec fn value_column_of(value_type: AttributeValueType) -> Option<&'static str> {
    match value_type {
        AttributeValueType::Str => Some(ATTRIBUTE_STR),
        AttributeValueType::Int => Some(ATTRIBUTE_INT),
        AttributeValueType::Double => Some(ATTRIBUTE_DOUBLE),
        AttributeValueType::Bool => Some(ATTRIBUTE_BOOL),
        AttributeValueType::Bytes => Some(ATTRIBUTE_BYTES),
        AttributeValueType::Empty => None,
        AttributeValueType::MapValue => None,
        AttributeValueType::Slice => None,
    }
}

/// The value column holding a given attribute type, or `None` if it is not a scalar.
pub fn scalar_value_column(value_type: AttributeValueType) -> (r: Option<&'static str>)
    ensures
        r == value_column_of(value_type),
{
    match value_type {
        AttributeValueType::Str => Some(ATTRIBUTE_STR),
        AttributeValueType::Int => Some(ATTRIBUTE_INT),
        AttributeValueType::Double => Some(ATTRIBUTE_DOUBLE),
        AttributeValueType::Bool => Some(ATTRIBUTE_BOOL),
        AttributeValueType::Bytes => Some(ATTRIBUTE_BYTES),
        AttributeValueType::Empty => None,
        AttributeValueType::MapValue => None,
        AttributeValueType::Slice => None,
    }
}

/// The identifiers in a scalar column, as 64-bit integers.
pub open spec fn leaf_ids(leaf: LeafView, name: &'static str) -> Result<Seq<Option<u64>>, Error> {
    if leaf is Dictionary && !crate::kernels::fits(leaf.cells()) {
        Err(Error::ColumnLengthMismatch)
    } else if crate::kernels::is_unsigned(leaf.scalar_type()) {
        Ok(leaf.cells().map_values(|cell: Option<Cell>| crate::kernels::word(cell)))
    } else {
        Err(
            Error::ColumnDataTypeMismatch {
                name,
                expect: DataType::Scalar(ScalarType::UInt64),
                actual: DataType::Scalar(leaf.scalar_type()),
            },
        )
    }
}

/// The identifiers in a column, as 64-bit integers.
pub open spec fn column_ids(column: ColumnView, name: &'static str) -> Result<
    Seq<Option<u64>>,
    Error,
> {
    match column {
        ColumnView::Leaf(leaf) => leaf_ids(leaf, name),
        _ => Err(
            Error::ColumnDataTypeMismatch {
                name,
                expect: DataType::Scalar(ScalarType::UInt64),
                actual: column.data_type(),
            },
        ),
    }
}

/// The identifiers in a column that has to be there.
pub open spec fn required_ids(batch: BatchView, name: &'static str) -> Result<
    Seq<Option<u64>>,
    Error,
> {
    match batch.required(name) {
        Ok(column) => column_ids(column, name),
        Err(e) => Err(e),
    }
}

/// As many nulls as a batch has rows.
pub open spec fn no_ids(rows: nat) -> Seq<Option<u64>> {
    Seq::new(rows, |row: int| None)
}

/// The identifiers in the `id` field of a struct column; nothing where there is no such
/// column or field.
pub open spec fn struct_column_ids(batch: BatchView, struct_column: Seq<char>) -> Result<
    Seq<Option<u64>>,
    Error,
> {
    match batch.column(struct_column) {
        Some(ColumnView::Struct(column)) => match column.child(ID@) {
            Some(leaf) => leaf_ids(leaf, ID),
            None => Ok(no_ids(batch.rows)),
        },
        _ => Ok(no_ids(batch.rows)),
    }
}

/// The last of the first `rows` rows that has an identifier.
pub open spec fn last_row_with(ids: Seq<Option<u64>>, id: u64, rows: nat) -> Option<int>
    decreases rows,
{
    if rows == 0 {
        None
    } else if ids[rows - 1] == Some(id) {
        Some(rows - 1)
    } else {
        last_row_with(ids, id, (rows - 1) as nat)
    }
}

/// A lookup table gives, for every identifier, the last row that has it.
pub open spec fn indexes(table: Map<u64, usize>, ids: Seq<Option<u64>>, rows: nat) -> bool {
    forall|id: u64| #[trigger]
        table.contains_key(id) == (last_row_with(ids, id, rows) is Some) && (table.contains_key(id)
            ==> last_row_with(ids, id, rows) == Some(table[id] as int))
}

/// The rows of identifiers, the last row of each.
pub fn id_index(ids: &Vec<Option<u64>>) -> (r: HashMap<u64, usize>)
    ensures
        indexes(r@, ids@, ids@.len()),
{
    broadcast use vstd::std_specs::hash::group_hash_axioms;

    let mut table: HashMap<u64, usize> = HashMap::new();
    let mut row: usize = 0;
    while row < ids.len()
        invariant
            row <= ids@.len(),
            indexes(table@, ids@, row as nat),
        decreases ids@.len() - row,
    {
        if let Some(id) = ids[row] {
            let _ = table.insert(id, row);
        }
        row = row + 1;
    }
    table
}

/// Reads the identifiers in a scalar column as 64-bit integers.
fn leaf_ids_as_u64(leaf: &Leaf, name: &'static str) -> (r: Result<Vec<Option<u64>>, Error>)
    requires
        leaf@.wf(),
    ensures
        match r {
            Ok(ids) => leaf_ids(leaf@, name) == Ok::<Seq<Option<u64>>, Error>(ids@) && ids@.len()
                == leaf@.len(),
            Err(e) => leaf_ids(leaf@, name) == Err::<Seq<Option<u64>>, Error>(e),
        },
{
    let decoded;
    let plain = match leaf {
        Leaf::Plain(scalars) => scalars,
        Leaf::Dictionary(dictionary) => {
            assert(leaf@.cells() =~= crate::kernels::decoded(
                dictionary.values@.cells(),
                dictionary.keys@,
            ));
            decoded = match crate::kernels::decode_dictionary(dictionary) {
                Ok(decoded) => decoded,
                Err(e) => return Err(e),
            };
            &decoded
        },
    };
    assert(plain@.cells() == leaf@.cells());
    assert(plain@.cells().len() == leaf@.len());
    match plain.scalar_type() {
        ScalarType::UInt8 => crate::kernels::widen(plain),
        ScalarType::UInt16 => crate::kernels::widen(plain),
        ScalarType::UInt32 => crate::kernels::widen(plain),
        ScalarType::UInt64 => crate::kernels::widen(plain),
        actual => Err(
            Error::ColumnDataTypeMismatch {
                name,
                expect: DataType::Scalar(ScalarType::UInt64),
                actual: DataType::Scalar(actual),
            },
        ),
    }
}

/// Reads the identifiers in a column as 64-bit integers.
fn ids_as_u64(column: &Column, name: &'static str) -> (r: Result<Vec<Option<u64>>, Error>)
    requires
        column@.wf(),
    ensures
        match r {
            Ok(ids) => column_ids(column@, name) == Ok::<Seq<Option<u64>>, Error>(ids@)
                && ids@.len() == column@.len(),
            Err(e) => column_ids(column@, name) == Err::<Seq<Option<u64>>, Error>(e),
        },
{
    match column {
        Column::Leaf(leaf) => leaf_ids_as_u64(leaf, name),
        _ => Err(
            Error::ColumnDataTypeMismatch {
                name,
                expect: DataType::Scalar(ScalarType::UInt64),
                actual: column.data_type(),
            },
        ),
    }
}

/// Reads the identifiers in a column that has to be there.
fn required_ids_as_u64(batch: &RecordBatch, name: &'static str) -> (r: Result<
    Vec<Option<u64>>,
    Error,
>)
    requires
        batch@.wf(),
    ensures
        match r {
            Ok(ids) => required_ids(batch@, name) == Ok::<Seq<Option<u64>>, Error>(ids@)
                && ids@.len() == batch@.rows,
            Err(e) => required_ids(batch@, name) == Err::<Seq<Option<u64>>, Error>(e),
        },
{
    match batch.get_required_array(name) {
        Ok(column) => ids_as_u64(column, name),
        Err(e) => Err(e),
    }
}

/// As many nulls as a batch has rows.
fn null_ids(rows: usize) -> (r: Vec<Option<u64>>)
    ensures
        r@ == no_ids(rows as nat),
{
    let mut out: Vec<Option<u64>> = Vec::new();
    let mut row: usize = 0;
    while row < rows
        invariant
            row <= rows,
            out@ == no_ids(row as nat),
        decreases rows - row,
    {
        out.push(None);
        row = row + 1;
        assert(out@ =~= no_ids(row as nat));
    }
    out
}

/// Reads the identifiers in the `id` field of a struct column.
fn struct_ids(batch: &RecordBatch, struct_column: &str) -> (r: Result<Vec<Option<u64>>, Error>)
    requires
        batch@.wf(),
    ensures
        match r {
            Ok(ids) => struct_column_ids(batch@, struct_column@) == Ok::<Seq<Option<u64>>, Error>(
                ids@,
            ),
            Err(e) => struct_column_ids(batch@, struct_column@) == Err::<Seq<Option<u64>>, Error>(
                e,
            ),
        },
{
    match batch.column_by_name(struct_column) {
        Some(Column::Struct(column)) => match column.child(ID) {
            Some(leaf) => leaf_ids_as_u64(leaf, ID),
            None => Ok(null_ids(batch.num_rows())),
        },
        _ => Ok(null_ids(batch.num_rows())),
    }
}

/// The columns of an attributes batch that say which attribute a row carries.
pub struct AttributesView {
    /// Key of each row.
    pub keys: Seq<Option<Seq<char>>>,
    /// Code of the value type of each row.
    pub types: Seq<Slot<u8>>,
    /// Identifier of the row's parent.
    pub parents: Seq<Option<u64>>,
}

/// Reads the columns of an attributes batch.
pub open spec fn attribute_columns(batch: BatchView) -> Result<AttributesView, Error> {
    match batch.required_text(ATTRIBUTE_KEY) {
        Err(e) => Err(e),
        Ok(keys) => match batch.required_u8(ATTRIBUTE_TYPE) {
            Err(e) => Err(e),
            Ok(types) => match required_ids(batch, PARENT_ID) {
                Err(e) => Err(e),
                Ok(parents) => Ok(AttributesView { keys, types, parents }),
            },
        },
    }
}

impl AttributesView {
    /// Every column has a given length.
    pub open spec fn has_len(self, rows: nat) -> bool {
        self.keys.len() == rows && self.types.len() == rows && self.parents.len() == rows
    }

    /// A row carries a key.
    pub open spec fn carries(self, key: Seq<char>, row: int) -> bool {
        self.keys[row] == Some(key)
    }

    /// Value type of a row, if its code stands for one.
    pub open spec fn row_type(self, row: int) -> Option<AttributeValueType> {
        AttributeValueType::decoded(self.types[row].value)
    }

    /// The first row from `from` on that carries a key.
    pub open spec fn first_carrier(self, key: Seq<char>, from: int) -> Option<int>
        decreases self.keys.len() - from,
    {
        if from < 0 || from >= self.keys.len() {
            None
        } else if self.carries(key, from) {
            Some(from)
        } else {
            self.first_carrier(key, from + 1)
        }
    }

    /// The first row from `from` on that carries a key with a value of unknown type.
    pub open spec fn first_unknown(self, key: Seq<char>, from: int) -> Option<int>
        decreases self.keys.len() - from,
    {
        if from < 0 || from >= self.keys.len() {
            None
        } else if self.carries(key, from) && self.row_type(from) is None {
            Some(from)
        } else {
            self.first_unknown(key, from + 1)
        }
    }

    /// Value type of the first row that carries a key.
    pub open spec fn key_type(self, key: Seq<char>) -> Option<AttributeValueType> {
        match self.first_carrier(key, 0) {
            Some(row) => self.row_type(row),
            None => None,
        }
    }

    /// A row holds the value of a key for a parent: it carries the key, with a value of the
    /// type that the key's first row has.
    pub open spec fn holds(self, key: Seq<char>, id: u64, row: int) -> bool {
        &&& self.carries(key, row)
        &&& self.row_type(row) == self.key_type(key)
        &&& self.parents[row] == Some(id)
    }

    /// The last of the first `rows` rows that holds the value of a key for a parent.
    pub open spec fn last_holder(self, key: Seq<char>, id: u64, rows: nat) -> Option<int>
        decreases rows,
    {
        if rows == 0 {
            None
        } else if self.holds(key, id, rows - 1) {
            Some(rows - 1)
        } else {
            self.last_holder(key, id, (rows - 1) as nat)
        }
    }

    /// The row that holds the value of a key for a parent.
    pub open spec fn source_row(self, key: Seq<char>, id: u64) -> Option<int> {
        self.last_holder(key, id, self.keys.len())
    }
}

/// A lookup table gives, for every parent, the row that holds the value of a key.
pub open spec fn indexes_sources(
    table: Map<u64, usize>,
    attributes: AttributesView,
    key: Seq<char>,
    rows: nat,
) -> bool {
    forall|id: u64| #[trigger]
        table.contains_key(id) == (attributes.last_holder(key, id, rows) is Some) && (
        table.contains_key(id) ==> attributes.last_holder(key, id, rows) == Some(table[id] as int))
}

/// No row holds the value of a key before the key's first row.
proof fn lemma_no_holder(attributes: AttributesView, key: Seq<char>, rows: nat)
    requires
        rows <= attributes.keys.len(),
        forall|i: int| 0 <= i < rows ==> !attributes.carries(key, i),
    ensures
        forall|id: u64| (#[trigger] attributes.last_holder(key, id, rows)) is None,
    decreases rows,
{
    if rows > 0 {
        lemma_no_holder(attributes, key, (rows - 1) as nat);
        assert(!attributes.carries(key, rows - 1));
        assert forall|id: u64| (#[trigger] attributes.last_holder(key, id, rows)) is None by {
            assert(attributes.last_holder(key, id, (rows - 1) as nat) is None);
        }
    }
}

/// The values of a column: scalars as they are, and structs or lists by the row of a column
/// that holds them.
#[derive(Clone, PartialEq, Eq, Debug)]
pub struct SourceValues {
    /// The values. Where they are structs or lists, the row of `nested` that holds each, nothing
    /// where it is null.
    pub scalars: Scalars,
    /// The column that holds the values, where they are structs or lists.
    pub nested: Option<Column>,
}

/// The contents of a column of values.
pub struct ValuesView {
    /// Type of the values, or of the numbers of their rows.
    pub scalar_type: ScalarType,
    /// The values, or the numbers of their rows, nothing where one is null.
    pub cells: Seq<Option<Cell>>,
    /// The column that holds the values, where they are structs or lists.
    pub nested: Option<ColumnView>,
}

impl View for SourceValues {
    type V = ValuesView;

    open spec fn view(&self) -> ValuesView {
        ValuesView {
            scalar_type: self.scalars@.scalar_type(),
            cells: self.scalars@.cells(),
            nested: match self.nested {
                Some(column) => Some(column@),
                None => None,
            },
        }
    }
}

/// The numbers of the rows that are not null.
pub open spec fn row_numbers(validity: Seq<bool>) -> Seq<Option<Cell>> {
    Seq::new(
        validity.len(),
        |row: int|
            if validity[row] {
                Some(Cell::UInt64(row as u64))
            } else {
                None
            },
    )
}

/// The values of a column of structs or lists, given which of its rows are not null.
pub open spec fn nested_values(column: ColumnView, validity: Seq<bool>) -> ValuesView {
    ValuesView {
        scalar_type: ScalarType::UInt64,
        cells: row_numbers(validity),
        nested: Some(column),
    }
}

/// What an attributes batch says about a key.
pub struct SourceView {
    /// The column that holds the key's values.
    pub values: ValuesView,
    /// The columns that say which rows are the key's.
    pub attributes: AttributesView,
}

/// The values of a column, without dictionary encoding where they are scalars; nothing where
/// there is no column.
pub open spec fn plain_values(column: Option<ColumnView>) -> Result<Option<ValuesView>, Error> {
    match column {
        None => Ok(None),
        Some(ColumnView::Leaf(leaf)) => if leaf is Dictionary && !crate::kernels::fits(
            leaf.cells(),
        ) {
            Err(Error::ColumnLengthMismatch)
        } else {
            Ok(
                Some(
                    ValuesView {
                        scalar_type: leaf.scalar_type(),
                        cells: leaf.cells(),
                        nested: None,
                    },
                ),
            )
        },
        Some(ColumnView::Struct(structs)) => Ok(
            Some(nested_values(column->0, structs.validity)),
        ),
        Some(ColumnView::List(list)) => Ok(Some(nested_values(column->0, list.validity))),
    }
}

/// The values of a key in an attributes batch; nothing where no row carries the key, where
/// its value type has no column of its own, or where the batch has no column for it.
pub open spec fn key_source(batch: BatchView, key: Seq<char>) -> Result<
    Option<SourceView>,
    Error,
> {
    match attribute_columns(batch) {
        Err(e) => Err(e),
        Ok(attributes) => match attributes.first_unknown(key, 0) {
            Some(row) => Err(
                Error::UnknownAttributeValueType { code: attributes.types[row].value },
            ),
            None => match attributes.key_type(key) {
                None => Ok(None),
                Some(value_type) => match value_column_of(value_type) {
                    None => Ok(None),
                    Some(name) => match plain_values(batch.column(name@)) {
                        Err(e) => Err(e),
                        Ok(None) => Ok(None),
                        Ok(Some(values)) => Ok(Some(SourceView { values, attributes })),
                    },
                },
            },
        },
    }
}

/// The values of a key, and the row that holds the value for each parent.
pub struct SourceRows {
    /// The column that holds the key's values, without dictionary encoding.
    pub values: SourceValues,
    /// The row that holds the value, by the parent's identifier.
    pub row_by_source_id: HashMap<u64, usize>,
}

impl SourceRows {
    /// The rows are those of a source.
    pub open spec fn represents(self, source: SourceView, key: Seq<char>) -> bool {
        &&& self.values.scalars@.wf()
        &&& self.values@ == source.values
        &&& indexes_sources(
            self.row_by_source_id@,
            source.attributes,
            key,
            source.attributes.keys.len(),
        )
        &&& source.attributes.has_len(self.values.scalars@.len())
    }
}

/// Numbers the rows that are not null.
fn number_rows(validity: &Vec<bool>) -> (r: Scalars)
    ensures
        r@.scalar_type() == ScalarType::UInt64,
        r@.cells() == row_numbers(validity@),
        r@.wf(),
        r@.len() == validity@.len(),
{
    let mut rows: Vec<Option<u64>> = Vec::new();
    let mut row: usize = 0;
    while row < validity.len()
        invariant
            row <= validity@.len(),
            rows@.len() == row,
            forall|k: int|
                0 <= k < row ==> (#[trigger] rows@[k]) == (if validity@[k] {
                    Some(k as u64)
                } else {
                    None
                }),
        decreases validity@.len() - row,
    {
        let number: Option<u64> = if validity[row] {
            Some(row as u64)
        } else {
            None
        };
        rows.push(number);
        row = row + 1;
    }
    let r = Scalars::UInt64(rows);
    assert(r@.cells() =~= row_numbers(validity@));
    proof {
        crate::column::lemma_no_bytes(r@.cells());
    }
    r
}

/// Copies the values of a column, without dictionary encoding where they are scalars.
fn plain_column(column: Option<&Column>) -> (r: Result<Option<SourceValues>, Error>)
    requires
        column matches Some(column) ==> column@.wf(),
    ensures
        match r {
            Ok(None) => column is None,
            Ok(Some(values)) => column is Some && plain_values(Some(column->0@)) == Ok::<
                Option<ValuesView>,
                Error,
            >(Some(values@)) && values.scalars@.wf() && values.scalars@.len()
                == column->0@.len(),
            Err(e) => column is Some && plain_values(Some(column->0@)) == Err::<
                Option<ValuesView>,
                Error,
            >(e),
        },
{
    match column {
        None => Ok(None),
        Some(Column::Leaf(Leaf::Plain(scalars))) => {
            let values = scalars.duplicate();
            assert(values@.len() == values@.cells().len());
            Ok(Some(SourceValues { scalars: values, nested: None }))
        },
        Some(Column::Leaf(Leaf::Dictionary(dictionary))) => {
            let ghost leaf = column->0@->Leaf_0;
            assert(leaf.cells() =~= crate::kernels::decoded(
                dictionary.values@.cells(),
                dictionary.keys@,
            ));
            match crate::kernels::decode_dictionary(dictionary) {
                Ok(values) => {
                    assert(values@.len() == values@.cells().len());
                    Ok(Some(SourceValues { scalars: values, nested: None }))
                },
                Err(e) => Err(e),
            }
        },
        Some(Column::Struct(structs)) => {
            let scalars = number_rows(&structs.validity);
            Ok(
                Some(
                    SourceValues { scalars, nested: Some(Column::Struct(structs.duplicate())) },
                ),
            )
        },
        Some(Column::List(list)) => {
            let scalars = number_rows(&list.validity);
            Ok(Some(SourceValues { scalars, nested: Some(Column::List(list.duplicate())) }))
        },
    }
}

/// Finds the rows of an attributes batch carrying `source_key`, indexed by parent id.
///
/// A key may legitimately appear with different value types across rows. Only the type of
/// the first occurrence is copied, because the destination is a single typed column.
pub fn index_source_rows(source_attrs: &RecordBatch, source_key: &str) -> (r: Result<
    Option<SourceRows>,
    Error,
>)
    requires
        source_attrs@.wf(),
    ensures
        match r {
            Ok(Some(rows)) => key_source(source_attrs@, source_key@) matches Ok(Some(source))
                && rows.represents(source, source_key@) && source.attributes.has_len(
                source_attrs@.rows,
            ),
            Ok(None) => key_source(source_attrs@, source_key@) == Ok::<Option<SourceView>, Error>(
                None,
            ),
            Err(e) => key_source(source_attrs@, source_key@) == Err::<Option<SourceView>, Error>(e),
        },
{
    broadcast use vstd::std_specs::hash::group_hash_axioms;

    let key_column = match source_attrs.get_required_array(ATTRIBUTE_KEY) {
        Ok(column) => column,
        Err(e) => return Err(e),
    };
    let keys = match StringArrayAccessor::try_new(key_column) {
        Ok(keys) => keys,
        Err(e) => return Err(e),
    };
    let types = match source_attrs.get_u8_array(ATTRIBUTE_TYPE) {
        Ok(types) => types,
        Err(e) => return Err(e),
    };
    let parent_ids = match required_ids_as_u64(source_attrs, PARENT_ID) {
        Ok(ids) => ids,
        Err(e) => return Err(e),
    };
    let ghost attributes = AttributesView {
        keys: keys.texts(),
        types: types@,
        parents: parent_ids@,
    };
    assert(attribute_columns(source_attrs@) == Ok::<AttributesView, Error>(attributes));
    let ghost key = source_key@;

    let mut value_type: Option<AttributeValueType> = None;
    let mut row_by_source_id: HashMap<u64, usize> = HashMap::new();
    let mut row: usize = 0;
    proof {
        lemma_no_holder(attributes, key, 0);
    }
    while row < parent_ids.len()
        invariant
            row <= parent_ids@.len(),
            keys.wf(),
            key == source_key@,
            attributes.keys == keys.texts(),
            attributes.types == types@,
            attributes.parents == parent_ids@,
            attributes.has_len(parent_ids@.len()),
            attribute_columns(source_attrs@) == Ok::<AttributesView, Error>(attributes),
            attributes.first_unknown(key, 0) == attributes.first_unknown(key, row as int),
            value_type is None ==> attributes.first_carrier(key, 0) == attributes.first_carrier(
                key,
                row as int,
            ),
            value_type is None ==> forall|i: int| 0 <= i < row ==> !attributes.carries(key, i),
            value_type is Some ==> attributes.key_type(key) == value_type,
            indexes_sources(row_by_source_id@, attributes, key, row as nat),
        decreases parent_ids@.len() - row,
    {
        let carries = match keys.value_at(row) {
            Some(found) => crate::text::is_text(found, source_key),
            None => false,
        };
        assert(carries == attributes.carries(key, row as int));
        if carries {
            let row_type = match AttributeValueType::from_code(types[row].value) {
                Some(row_type) => row_type,
                None => {
                    return Err(Error::UnknownAttributeValueType { code: types[row].value });
                },
            };
            assert(attributes.row_type(row as int) == Some(row_type));
            let matching = match value_type {
                None => {
                    value_type = Some(row_type);
                    true
                },
                Some(expected) => expected == row_type,
            };
            if matching {
                if let Some(parent_id) = parent_ids[row] {
                    let _ = row_by_source_id.insert(parent_id, row);
                }
            }
        }
        row = row + 1;
    }
    let column_name = match value_type {
        Some(value_type) => match scalar_value_column(value_type) {
            Some(column_name) => column_name,
            None => return Ok(None),
        },
        None => return Ok(None),
    };
    match plain_column(source_attrs.column_by_name(column_name)) {
        Ok(Some(values)) => Ok(Some(SourceRows { values, row_by_source_id })),
        Ok(None) => Ok(None),
        Err(e) => Err(e),
    }
}

/// The root rows that the rows of a payload descend from, given those of its parent.
pub open spec fn descended(
    parent_ids: Seq<Option<u64>>,
    ids: Seq<Option<u64>>,
    root_rows: Seq<Option<usize>>,
) -> Seq<Option<usize>> {
    Seq::new(
        parent_ids.len(),
        |row: int|
            match parent_ids[row] {
                None => None,
                Some(id) => match last_row_with(ids, id, ids.len()) {
                    Some(parent_row) if parent_row < root_rows.len() => root_rows[parent_row],
                    _ => None,
                },
            },
    )
}

/// Every row on its own.
pub open spec fn own_rows(rows: nat) -> Seq<Option<usize>> {
    Seq::new(rows, |row: int| Some(row as usize))
}

/// The root row that each row of a payload descends from; nothing where the payload or one
/// of its ancestors is missing, or where the payload does not descend from the root.
pub open spec fn rows_to_root(
    records: RecordsView,
    payload_type: ArrowPayloadType,
    root_payload_type: ArrowPayloadType,
) -> Result<Option<Seq<Option<usize>>>, Error>
    decreases depth(payload_type, root_payload_type),
{
    match records.get(payload_type) {
        None => Ok(None),
        Some(payload) => if payload_type == root_payload_type {
            Ok(Some(own_rows(payload.stored.rows)))
        } else {
            match parent_payload(payload_type, root_payload_type) {
                None => Ok(None),
                Some(parent_type) => match records.get(parent_type) {
                    None => Ok(None),
                    Some(parent) => match rows_to_root(records, parent_type, root_payload_type) {
                        Err(e) => Err(e),
                        Ok(None) => Ok(None),
                        Ok(Some(root_rows)) => match payload_ids(parent, ID) {
                            Err(e) => Err(e),
                            Ok(ids) => match payload_ids(payload, PARENT_ID) {
                                Err(e) => Err(e),
                                Ok(parent_ids) => Ok(Some(descended(parent_ids, ids, root_rows))),
                            },
                        },
                    },
                },
            }
        },
    }
}

/// The identifiers in a column of a payload, without transport-optimized encodings.
pub open spec fn payload_ids(payload: PayloadView, name: &'static str) -> Result<
    Seq<Option<u64>>,
    Error,
> {
    match payload.plain {
        Err(e) => Err(e),
        Ok(batch) => required_ids(batch, name),
    }
}

/// Reads the identifiers in a column of a payload.
fn payload_ids_as_u64(payload: &Payload, name: &'static str) -> (r: Result<
    Vec<Option<u64>>,
    Error,
>)
    requires
        payload@.wf(),
    ensures
        match r {
            Ok(ids) => payload_ids(payload@, name) == Ok::<Seq<Option<u64>>, Error>(ids@),
            Err(e) => payload_ids(payload@, name) == Err::<Seq<Option<u64>>, Error>(e),
        },
{
    match payload.remove_transport_optimized_encodings() {
        Ok(batch) => required_ids_as_u64(batch, name),
        Err(e) => Err(e),
    }
}

/// Maps each row of `payload_type` to the root batch row it descends from.
pub fn map_rows_to_root(
    otap_batch: &OtapArrowRecords,
    payload_type: ArrowPayloadType,
    root_payload_type: ArrowPayloadType,
) -> (r: Result<Option<Vec<Option<usize>>>, Error>)
    requires
        otap_batch.wf(),
    ensures
        match r {
            Ok(Some(rows)) => rows_to_root(otap_batch@, payload_type, root_payload_type) == Ok::<
                Option<Seq<Option<usize>>>,
                Error,
            >(Some(rows@)),
            Ok(None) => rows_to_root(otap_batch@, payload_type, root_payload_type) == Ok::<
                Option<Seq<Option<usize>>>,
                Error,
            >(None),
            Err(e) => rows_to_root(otap_batch@, payload_type, root_payload_type) == Err::<
                Option<Seq<Option<usize>>>,
                Error,
            >(e),
        },
    decreases depth(payload_type, root_payload_type),
{
    broadcast use vstd::std_specs::hash::group_hash_axioms;

    let payload = match otap_batch.get(payload_type) {
        Some(payload) => payload,
        None => return Ok(None),
    };
    if payload_type == root_payload_type {
        let rows = payload.stored.num_rows();
        let mut out: Vec<Option<usize>> = Vec::new();
        let mut row: usize = 0;
        while row < rows
            invariant
                row <= rows,
                out@ == own_rows(row as nat),
            decreases rows - row,
        {
            out.push(Some(row));
            row = row + 1;
            assert(out@ =~= own_rows(row as nat));
        }
        return Ok(Some(out));
    }
    let parent_type = match parent_payload_type(payload_type, root_payload_type) {
        Some(parent_type) => parent_type,
        None => return Ok(None),
    };
    let parent = match otap_batch.get(parent_type) {
        Some(parent) => parent,
        None => return Ok(None),
    };
    let root_row_of_parent_row = match map_rows_to_root(
        otap_batch,
        parent_type,
        root_payload_type,
    ) {
        Ok(Some(rows)) => rows,
        Ok(None) => return Ok(None),
        Err(e) => return Err(e),
    };
    let ids = match payload_ids_as_u64(parent, ID) {
        Ok(ids) => ids,
        Err(e) => return Err(e),
    };
    let parent_row_by_id = id_index(&ids);
    let parent_ids = match payload_ids_as_u64(payload, PARENT_ID) {
        Ok(ids) => ids,
        Err(e) => return Err(e),
    };
    let ghost whole = descended(parent_ids@, ids@, root_row_of_parent_row@);
    let mut out: Vec<Option<usize>> = Vec::new();
    let mut row: usize = 0;
    while row < parent_ids.len()
        invariant
            row <= parent_ids@.len(),
            indexes(parent_row_by_id@, ids@, ids@.len()),
            whole == descended(parent_ids@, ids@, root_row_of_parent_row@),
            out@ == whole.take(row as int),
        decreases parent_ids@.len() - row,
    {
        let root_row = match parent_ids[row] {
            None => None,
            Some(id) => match parent_row_by_id.get(&id) {
                None => None,
                Some(parent_row) => if *parent_row < root_row_of_parent_row.len() {
                    root_row_of_parent_row[*parent_row]
                } else {
                    None
                },
            },
        };
        assert(root_row == whole[row as int]);
        out.push(root_row);
        row = row + 1;
        assert(out@ =~= whole.take(row as int));
    }
    assert(out@ =~= whole);
    Ok(Some(out))
}

/// The identifier by which each root row names its source.
pub open spec fn source_ids(scope: AttributeSourceScope, root: BatchView) -> Result<
    Seq<Option<u64>>,
    Error,
> {
    match scope {
        AttributeSourceScope::Resource => struct_column_ids(root, RESOURCE@),
        AttributeSourceScope::Scope => struct_column_ids(root, SCOPE@),
        AttributeSourceScope::Record => required_ids(root, ID),
    }
}

/// The row of a source that a target row gets its value from.
pub open spec fn value_row(
    root_row: Option<usize>,
    source_id_of_root_row: Seq<Option<u64>>,
    attributes: AttributesView,
    key: Seq<char>,
) -> Option<u32> {
    match root_row {
        Some(root_row) if root_row < source_id_of_root_row.len() =>
            match source_id_of_root_row[root_row as int] {
                None => None,
                Some(id) => match attributes.source_row(key, id) {
                    Some(row) if row <= u32::MAX => Some(row as u32),
                    _ => None,
                },
            },
        _ => None,
    }
}

/// The rows of a source that the target rows get their values from.
pub open spec fn value_rows(
    root_rows: Seq<Option<usize>>,
    source_id_of_root_row: Seq<Option<u64>>,
    attributes: AttributesView,
    key: Seq<char>,
) -> Seq<Option<u32>> {
    Seq::new(
        root_rows.len(),
        |i: int| value_row(root_rows[i], source_id_of_root_row, attributes, key),
    )
}

/// No target row gets a value.
pub open spec fn all_null(indices: Seq<Option<u32>>) -> bool {
    forall|i: int| 0 <= i < indices.len() ==> (#[trigger] indices[i]) is None
}

/// The values that target rows get out of a source.
pub open spec fn joined(source: SourceView, indices: Seq<Option<u32>>) -> Result<
    Option<ValuesView>,
    Error,
> {
    if all_null(indices) {
        Ok(None)
    } else if !crate::kernels::fits(crate::kernels::gathered(source.values.cells, indices)) {
        Err(Error::ColumnLengthMismatch)
    } else {
        Ok(
            Some(
                ValuesView {
                    scalar_type: source.values.scalar_type,
                    cells: crate::kernels::gathered(source.values.cells, indices),
                    nested: source.values.nested,
                },
            ),
        )
    }
}

/// The values of a key for the rows of a payload, given the source of the key and the root
/// rows that the rows descend from.
pub open spec fn resolved_from(
    records: RecordsView,
    scope: AttributeSourceScope,
    key: Seq<char>,
    source: SourceView,
    root_rows: Seq<Option<usize>>,
) -> Result<Option<ValuesView>, Error> {
    match records.get(records.root) {
        None => Ok(None),
        Some(root) => match root.plain {
            Err(e) => Err(e),
            Ok(batch) => match source_ids(scope, batch) {
                Err(e) => Err(e),
                Ok(ids) => joined(source, value_rows(root_rows, ids, source.attributes, key)),
            },
        },
    }
}

/// The source of a key in a message.
pub open spec fn source_of(
    records: RecordsView,
    scope: AttributeSourceScope,
    key: Seq<char>,
) -> Result<Option<SourceView>, Error> {
    match attrs_payload(scope, records.root) {
        None => Ok(None),
        Some(attrs_type) => match records.get(attrs_type) {
            None => Ok(None),
            Some(attrs) => match attrs.plain {
                Err(e) => Err(e),
                Ok(batch) => key_source(batch, key),
            },
        },
    }
}

/// The values of a key for the rows of a payload.
pub open spec fn resolved(
    records: RecordsView,
    target: ArrowPayloadType,
    scope: AttributeSourceScope,
    key: Seq<char>,
) -> Result<Option<ValuesView>, Error> {
    match source_of(records, scope, key) {
        Err(e) => Err(e),
        Ok(None) => Ok(None),
        Ok(Some(source)) => match rows_to_root(records, target, records.root) {
            Err(e) => Err(e),
            Ok(None) => Ok(None),
            Ok(Some(root_rows)) => resolved_from(records, scope, key, source, root_rows),
        },
    }
}

/// A holder of a value is one of the rows.
pub(crate) proof fn lemma_last_holder(attributes: AttributesView, key: Seq<char>, id: u64, rows: nat)
    ensures
        attributes.last_holder(key, id, rows) matches Some(row) ==> 0 <= row < rows
            && attributes.holds(key, id, row) && forall|later: int|
            row < later < rows ==> !attributes.holds(key, id, later),
        attributes.last_holder(key, id, rows) is None ==> forall|row: int|
            0 <= row < rows ==> !attributes.holds(key, id, row),
    decreases rows,
{
    if rows > 0 && !attributes.holds(key, id, rows - 1) {
        lemma_last_holder(attributes, key, id, (rows - 1) as nat);
    }
}

/// Finds the rows of a source that the target rows get their values from.
fn index_values(
    root_row_of_target_row: &Vec<Option<usize>>,
    source_id_of_root_row: &Vec<Option<u64>>,
    source: &SourceRows,
    Ghost(view): Ghost<SourceView>,
    Ghost(key): Ghost<Seq<char>>,
) -> (r: (Vec<Option<u32>>, bool))
    requires
        source.represents(view, key),
    ensures
        r.0@ == value_rows(root_row_of_target_row@, source_id_of_root_row@, view.attributes, key),
        forall|i: int|
            0 <= i < r.0@.len() && (#[trigger] r.0@[i]) is Some ==> r.0@[i]->0
                < source.values.scalars@.len(),
        r.1 == all_null(r.0@),
{
    broadcast use vstd::std_specs::hash::group_hash_axioms;

    let ghost attributes = view.attributes;
    let ghost whole = value_rows(
        root_row_of_target_row@,
        source_id_of_root_row@,
        attributes,
        key,
    );
    let mut indices: Vec<Option<u32>> = Vec::new();
    let mut empty = true;
    let mut i: usize = 0;
    while i < root_row_of_target_row.len()
        invariant
            i <= root_row_of_target_row@.len(),
            attributes == view.attributes,
            attributes.has_len(source.values.scalars@.len()),
            indexes_sources(
                source.row_by_source_id@,
                attributes,
                key,
                attributes.keys.len(),
            ),
            whole == value_rows(
                root_row_of_target_row@,
                source_id_of_root_row@,
                attributes,
                key,
            ),
            indices@ == whole.take(i as int),
            forall|k: int|
                0 <= k < indices@.len() && (#[trigger] indices@[k]) is Some ==> indices@[k]->0
                    < source.values.scalars@.len(),
            empty == all_null(indices@),
        decreases root_row_of_target_row@.len() - i,
    {
        let source_id = match root_row_of_target_row[i] {
            Some(root_row) => if root_row < source_id_of_root_row.len() {
                source_id_of_root_row[root_row]
            } else {
                None
            },
            None => None,
        };
        let index: Option<u32> = match source_id {
            Some(id) => {
                proof {
                    lemma_last_holder(attributes, key, id, attributes.keys.len());
                }
                match source.row_by_source_id.get(&id) {
                    Some(row) => if *row <= u32::MAX as usize {
                        Some(*row as u32)
                    } else {
                        None
                    },
                    None => None,
                }
            },
            None => None,
        };
        assert(index == whole[i as int]);
        let ghost before = indices@;
        indices.push(index);
        if index.is_some() {
            empty = false;
            assert(indices@[i as int] is Some);
        }
        i = i + 1;
        assert(indices@ =~= whole.take(i as int));
        assert(all_null(before) && index is None ==> all_null(indices@));
        assert(!all_null(before) ==> !all_null(indices@)) by {
            if !all_null(before) {
                let k = choose|k: int| 0 <= k < before.len() && (#[trigger] before[k]) is Some;
                assert(indices@[k] == before[k]);
            }
        }
    }
    assert(indices@ =~= whole);
    (indices, empty)
}

/// Resolves `source_key` for every row of `target_parent_payload_type`.
///
/// Returns values with one entry per row of that payload's record batch, null where the row
/// has no value for the key. Returns `None` when the source cannot be reached at all: a
/// missing payload, an absent key, or a value type that OTAP attributes cannot represent as a
/// scalar column. Where the value column holds structs or lists, they are not copied out: the
/// column is handed on as it is, with the row of it that each entry gets.
pub fn resolve_source_values(
    otap_batch: &OtapArrowRecords,
    target_parent_payload_type: ArrowPayloadType,
    scope: AttributeSourceScope,
    source_key: &str,
) -> (r: Result<Option<SourceValues>, Error>)
    requires
        otap_batch.wf(),
    ensures
        match r {
            Ok(Some(values)) => resolved(
                otap_batch@,
                target_parent_payload_type,
                scope,
                source_key@,
            ) == Ok::<Option<ValuesView>, Error>(Some(values@)) && values.scalars@.wf(),
            Ok(None) => resolved(otap_batch@, target_parent_payload_type, scope, source_key@)
                == Ok::<Option<ValuesView>, Error>(None),
            Err(e) => resolved(otap_batch@, target_parent_payload_type, scope, source_key@)
                == Err::<Option<ValuesView>, Error>(e),
        },
{
    let root_payload_type = otap_batch.root_payload_type();
    let attrs_type = match source_attrs_payload_type(scope, root_payload_type) {
        Some(attrs_type) => attrs_type,
        None => return Ok(None),
    };
    let attrs = match otap_batch.get(attrs_type) {
        Some(attrs) => attrs,
        None => return Ok(None),
    };
    let source_attrs = match attrs.remove_transport_optimized_encodings() {
        Ok(batch) => batch,
        Err(e) => return Err(e),
    };
    let source = match index_source_rows(source_attrs, source_key) {
        Ok(Some(source)) => source,
        Ok(None) => return Ok(None),
        Err(e) => return Err(e),
    };
    let ghost view = key_source(source_attrs@, source_key@)->Ok_0->0;
    let root_row_of_target_row = match map_rows_to_root(
        otap_batch,
        target_parent_payload_type,
        root_payload_type,
    ) {
        Ok(Some(rows)) => rows,
        Ok(None) => return Ok(None),
        Err(e) => return Err(e),
    };
    let root = match otap_batch.get(root_payload_type) {
        Some(root) => root,
        None => return Ok(None),
    };
    let root_batch = match root.remove_transport_optimized_encodings() {
        Ok(batch) => batch,
        Err(e) => return Err(e),
    };
    let ids = match scope {
        AttributeSourceScope::Resource => struct_ids(root_batch, RESOURCE),
        AttributeSourceScope::Scope => struct_ids(root_batch, SCOPE),
        AttributeSourceScope::Record => required_ids_as_u64(root_batch, ID),
    };
    let source_id_of_root_row = match ids {
        Ok(ids) => ids,
        Err(e) => return Err(e),
    };
    let (indices, empty) = index_values(
        &root_row_of_target_row,
        &source_id_of_root_row,
        &source,
        Ghost(view),
        Ghost(source_key@),
    );
    if empty {
        return Ok(None);
    }
    let values = source.values;
    match crate::kernels::take_rows(&values.scalars, &indices) {
        Ok(scalars) => Ok(Some(SourceValues { scalars, nested: values.nested })),
        Err(e) => Err(e),
    }
}

} // verus!
