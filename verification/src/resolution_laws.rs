//! What resolving attribute values gives, told by column names, type codes and values.

use crate::attribute_source::{
    AttributeSourceScope, AttributesView, SourceValues, SourceView, ValuesView,
};
use crate::column::{Cell, ColumnView, DataType, LeafView, ScalarType, ScalarsView};
use crate::error::Error;
use crate::metric_laws::{holds_texts, lacks, stands_at};
use crate::payload::{ArrowPayloadType, AttributeValueType};
use crate::records::{BatchView, OtapArrowRecords, RecordsView};
use std::collections::HashMap;
use vstd::prelude::*;

verus! {

/// A column is one of unsigned integers, plain.
pub open spec fn is_unsigned(values: ScalarsView) -> bool {
    values is UInt8 || values is UInt16 || values is UInt32 || values is UInt64
}

/// The unsigned integer in a row, or nothing where it is null.
pub open spec fn unsigned_at(values: ScalarsView, row: int) -> Option<u64> {
    match values {
        ScalarsView::UInt8(v) => if v[row].valid {
            Some(v[row].value as u64)
        } else {
            None
        },
        ScalarsView::UInt16(v) => if v[row].valid {
            Some(v[row].value as u64)
        } else {
            None
        },
        ScalarsView::UInt32(v) => match v[row] {
            Some(x) => Some(x as u64),
            None => None,
        },
        ScalarsView::UInt64(v) => v[row],
        _ => None,
    }
}

/// A scalar column holds identifiers: unsigned integers of any width, plain or through the keys
/// of a dictionary.
pub open spec fn holds_ids(leaf: LeafView, ids: Seq<Option<u64>>) -> bool {
    match leaf {
        LeafView::Plain(values) => {
            &&& is_unsigned(values)
            &&& ids.len() == values.len()
            &&& forall|row: int|
                0 <= row < ids.len() ==> (#[trigger] ids[row]) == unsigned_at(values, row)
        },
        LeafView::Dictionary(_, keys, values) => {
            &&& is_unsigned(values)
            &&& ids.len() == keys.len()
            &&& forall|row: int|
                0 <= row < ids.len() ==> (#[trigger] ids[row]) == (match keys[row] {
                    Some(k) => unsigned_at(values, k as int),
                    None => None,
                })
        },
    }
}

/// A sound scalar column of unsigned integers is read as the identifiers that it holds; any other
/// scalar column that fits its buffer is refused for its type.
pub proof fn law_ids_of_a_column(leaf: LeafView, name: &'static str)
    requires
        leaf.wf(),
    ensures
        forall|ids: Seq<Option<u64>>|
            crate::attribute_source::leaf_ids(leaf, name) == Ok::<Seq<Option<u64>>, Error>(ids)
                <==> #[trigger] holds_ids(leaf, ids),
        ({
            let values = match leaf {
                LeafView::Plain(values) => values,
                LeafView::Dictionary(_, _, values) => values,
            };
            match crate::attribute_source::leaf_ids(leaf, name) {
                Ok(_) => is_unsigned(values),
                Err(e) => !is_unsigned(values) && e == (if leaf is Dictionary
                    && crate::column::cells_bytes(leaf.cells()) > 0x7fff_ffff {
                    Error::ColumnLengthMismatch
                } else {
                    Error::ColumnDataTypeMismatch {
                        name,
                        expect: DataType::Scalar(ScalarType::UInt64),
                        actual: DataType::Scalar(values.scalar_type()),
                    }
                }),
            }
        }),
{
    let cells = leaf.cells();
    let read = cells.map_values(|cell: Option<Cell>| crate::kernels::word(cell));
    let values = match leaf {
        LeafView::Plain(values) => values,
        LeafView::Dictionary(_, _, values) => values,
    };
    if is_unsigned(values) {
        assert forall|row: int| 0 <= row < cells.len() implies crate::column::cell_bytes(
            #[trigger] cells[row],
        ) == 0 by {}
        crate::column::lemma_no_bytes(cells);
        assert(holds_ids(leaf, read)) by {
            assert forall|row: int| 0 <= row < read.len() implies (#[trigger] read[row]) == (
            match leaf {
                LeafView::Plain(values) => unsigned_at(values, row),
                LeafView::Dictionary(_, keys, values) => match keys[row] {
                    Some(k) => unsigned_at(values, k as int),
                    None => None,
                },
            }) by {
                assert(read[row] == crate::kernels::word(cells[row]));
            }
        }
        assert forall|ids: Seq<Option<u64>>| #[trigger] holds_ids(leaf, ids) implies ids == read by {
            assert(ids =~= read);
        }
    }
}

/// A batch holds identifiers in the scalar column of a given name.
pub open spec fn batch_holds_ids(
    batch: BatchView,
    name: Seq<char>,
    ids: Seq<Option<u64>>,
) -> bool {
    exists|i: int| #[trigger]
        stands_at(batch.fields, name, i) && batch.columns[i] is Leaf && holds_ids(
            batch.columns[i]->Leaf_0,
            ids,
        )
}

/// A message holds identifiers in the column of a given name of a payload.
pub open spec fn payload_holds_ids(
    records: RecordsView,
    t: ArrowPayloadType,
    name: Seq<char>,
    ids: Seq<Option<u64>>,
) -> bool {
    &&& records.payloads.contains_key(t)
    &&& records.payloads[t].plain is Ok
    &&& batch_holds_ids(records.payloads[t].plain->Ok_0, name, ids)
}

/// Identifiers are read as they stand.
proof fn lemma_batch_ids(batch: BatchView, name: &'static str, ids: Seq<Option<u64>>)
    requires
        batch.wf(),
        batch_holds_ids(batch, name@, ids),
    ensures
        crate::attribute_source::required_ids(batch, name) == Ok::<Seq<Option<u64>>, Error>(ids),
        ids.len() == batch.rows,
{
    let i = choose|i: int| #[trigger]
        stands_at(batch.fields, name@, i) && batch.columns[i] is Leaf && holds_ids(
            batch.columns[i]->Leaf_0,
            ids,
        );
    crate::metric_laws::law_first_of_a_name(batch.fields, name@);
    assert(batch.columns[i].wf() && batch.columns[i].len() == batch.rows);
    law_ids_of_a_column(batch.columns[i]->Leaf_0, name);
}

/// The rows of a payload name, by their `parent_id`, rows of another: data points, events and
/// links of spans those of the root, and exemplars the data points of their kind. Nothing else
/// has a parent.
pub open spec fn belongs_to(
    t: ArrowPayloadType,
    parent: ArrowPayloadType,
    root: ArrowPayloadType,
) -> bool {
    ||| parent == root && (t == ArrowPayloadType::NumberDataPoints || t
        == ArrowPayloadType::SummaryDataPoints || t == ArrowPayloadType::HistogramDataPoints || t
        == ArrowPayloadType::ExpHistogramDataPoints || t == ArrowPayloadType::SpanEvents || t
        == ArrowPayloadType::SpanLinks)
    ||| parent == ArrowPayloadType::NumberDataPoints && t == ArrowPayloadType::NumberDpExemplars
    ||| parent == ArrowPayloadType::HistogramDataPoints && t
        == ArrowPayloadType::HistogramDpExemplars
    ||| parent == ArrowPayloadType::ExpHistogramDataPoints && t
        == ArrowPayloadType::ExpHistogramDpExemplars
}

/// The parent of a payload is the one that its rows belong to, and there is none exactly where
/// they belong to none.
pub proof fn law_parents(
    t: ArrowPayloadType,
    root: ArrowPayloadType,
    r: Option<ArrowPayloadType>,
)
    requires
        call_ensures(crate::attribute_source::parent_payload_type, (t, root), r),
    ensures
        r == crate::attribute_source::parent_payload(t, root),
        forall|parent: ArrowPayloadType|
            r == Some(parent) <==> #[trigger] belongs_to(t, parent, root),
        r is None <==> forall|parent: ArrowPayloadType| !(#[trigger] belongs_to(t, parent, root)),
{
    if let Some(parent) = r {
        assert(belongs_to(t, parent, root));
    }
}

/// The parent relation as the model has it.
proof fn lemma_parents(t: ArrowPayloadType, root: ArrowPayloadType)
    ensures
        forall|parent: ArrowPayloadType|
            crate::attribute_source::parent_payload(t, root) == Some(parent) <==> #[trigger]
            belongs_to(t, parent, root),
        crate::attribute_source::parent_payload(t, root) is None <==> forall|
            parent: ArrowPayloadType,
        | !(#[trigger] belongs_to(t, parent, root)),
{
    if let Some(parent) = crate::attribute_source::parent_payload(t, root) {
        assert(belongs_to(t, parent, root));
    }
}

/// The last row that has an identifier.
pub open spec fn last_at(ids: Seq<Option<u64>>, id: u64, row: int) -> bool {
    &&& 0 <= row < ids.len()
    &&& ids[row] == Some(id)
    &&& forall|later: int| row < later < ids.len() ==> (#[trigger] ids[later]) != Some(id)
}

/// The root row that a row with a given parent identifier descends from: that of the last parent
/// row with the identifier, and none where no parent row has it.
pub open spec fn descends(
    parent: Option<u64>,
    ids: Seq<Option<u64>>,
    parent_rows: Seq<Option<usize>>,
    root_row: Option<usize>,
) -> bool {
    match parent {
        None => root_row is None,
        Some(id) => {
            &&& forall|row: int| #[trigger] last_at(ids, id, row) ==> root_row == parent_rows[row]
            &&& (forall|row: int| 0 <= row < ids.len() ==> (#[trigger] ids[row]) != Some(id))
                ==> root_row is None
        },
    }
}

/// An index of identifiers holds those that occur, each with its last row.
pub proof fn law_index_of_ids(ids: Vec<Option<u64>>, table: HashMap<u64, usize>, id: u64)
    requires
        call_ensures(crate::attribute_source::id_index, (&ids,), table),
    ensures
        forall|row: usize|
            (table@.contains_key(id) && table@[id] == row) <==> #[trigger] last_at(
                ids@,
                id,
                row as int,
            ),
        table@.contains_key(id) <==> exists|row: int|
            0 <= row < ids@.len() && (#[trigger] ids@[row]) == Some(id),
{
    crate::attribute_laws::law_last_row_wins(ids@, id, ids@.len());
    assert(table@.contains_key(id) == (crate::attribute_source::last_row_with(
        ids@,
        id,
        ids@.len(),
    ) is Some));
    lemma_last_at(ids@, id);
    assert forall|row: usize| #[trigger] last_at(ids@, id, row as int) implies table@.contains_key(
        id,
    ) && table@[id] == row by {
        assert(crate::attribute_source::last_row_with(ids@, id, ids@.len()) == Some(row as int));
    }
}

/// The row that is looked up is the last that has the identifier.
proof fn lemma_last_at(ids: Seq<Option<u64>>, id: u64)
    ensures
        forall|row: int|
            crate::attribute_source::last_row_with(ids, id, ids.len()) == Some(row)
                <==> #[trigger] last_at(ids, id, row),
        crate::attribute_source::last_row_with(ids, id, ids.len()) is None <==> forall|row: int|
            0 <= row < ids.len() ==> (#[trigger] ids[row]) != Some(id),
{
    crate::attribute_laws::law_last_row_wins(ids, id, ids.len());
    assert forall|row: int| #[trigger] last_at(
        ids,
        id,
        row,
    ) implies crate::attribute_source::last_row_with(ids, id, ids.len()) == Some(row) by {
        if let Some(found) = crate::attribute_source::last_row_with(ids, id, ids.len()) {
            if found < row {
                assert(ids[row] != Some(id));
            } else if row < found {
                assert(ids[found] != Some(id));
            }
        }
    }
}

/// The rows of a payload descend from the root rows that their parent rows descend from, whatever
/// the payload, as long as it belongs to another whose rows descend from the root.
pub proof fn law_rows_of_a_child(
    records: RecordsView,
    t: ArrowPayloadType,
    parent: ArrowPayloadType,
    root: ArrowPayloadType,
    parent_rows: Seq<Option<usize>>,
    ids: Seq<Option<u64>>,
    parent_ids: Seq<Option<u64>>,
)
    requires
        records.wf(),
        t != root,
        belongs_to(t, parent, root),
        crate::attribute_source::rows_to_root(records, parent, root) == Ok::<
            Option<Seq<Option<usize>>>,
            Error,
        >(Some(parent_rows)),
        payload_holds_ids(records, parent, "id"@, ids),
        payload_holds_ids(records, t, "parent_id"@, parent_ids),
    ensures
        crate::attribute_source::rows_to_root(records, t, root) matches Ok(Some(rows))
            && rows.len() == parent_ids.len() && forall|row: int|
            0 <= row < rows.len() ==> descends(
                parent_ids[row],
                ids,
                parent_rows,
                #[trigger] rows[row],
            ),
{
    lemma_parents(t, root);
    assert(records.payloads[t].wf());
    assert(records.payloads[parent].wf());
    lemma_batch_ids(records.payloads[parent].plain->Ok_0, "id", ids);
    lemma_batch_ids(records.payloads[t].plain->Ok_0, "parent_id", parent_ids);
    assert(records.get(t) == Some(records.payloads[t]));
    assert(records.get(parent) == Some(records.payloads[parent]));
    let rows = crate::attribute_source::rows_to_root(records, t, root)->Ok_0->0;
    assert(rows == crate::attribute_source::descended(parent_ids, ids, parent_rows));
    lemma_rows_len(records, parent, root);
    assert forall|row: int| 0 <= row < rows.len() implies descends(
        parent_ids[row],
        ids,
        parent_rows,
        #[trigger] rows[row],
    ) by {
        if let Some(id) = parent_ids[row] {
            lemma_last_at(ids, id);
            crate::attribute_laws::law_last_row_wins(ids, id, ids.len());
        }
    }
}

/// There are as many root rows as rows of a payload.
proof fn lemma_rows_len(records: RecordsView, t: ArrowPayloadType, root: ArrowPayloadType)
    requires
        records.wf(),
        crate::attribute_source::rows_to_root(records, t, root) matches Ok(rows) && rows is Some,
    ensures
        records.payloads.contains_key(t),
        crate::attribute_source::rows_to_root(records, t, root)->Ok_0->0.len()
            == records.payloads[t].stored.rows,
{
    crate::attribute_laws::lemma_root_rows_len(records, t, root);
}

/// The rows of the root descend from themselves.
pub proof fn law_rows_of_the_root(records: RecordsView, root: ArrowPayloadType)
    requires
        records.wf(),
        records.payloads.contains_key(root),
    ensures
        crate::attribute_source::rows_to_root(records, root, root) matches Ok(Some(rows))
            && rows.len() == records.payloads[root].stored.rows && forall|row: int|
            0 <= row < rows.len() ==> (#[trigger] rows[row]) == Some(row as usize),
{
    assert(records.payloads[root].wf());
}

/// The data points of gauges, sums, summaries, histograms and exponential histograms, and the
/// events and links of spans, descend from the last root row whose `id` is their `parent_id`, and
/// from none where there is no such row.
pub proof fn law_rows_below_the_root(
    records: RecordsView,
    t: ArrowPayloadType,
    root: ArrowPayloadType,
    ids: Seq<Option<u64>>,
    parent_ids: Seq<Option<u64>>,
)
    requires
        records.wf(),
        t != root,
        t == ArrowPayloadType::NumberDataPoints || t == ArrowPayloadType::SummaryDataPoints || t
            == ArrowPayloadType::HistogramDataPoints || t
            == ArrowPayloadType::ExpHistogramDataPoints || t == ArrowPayloadType::SpanEvents || t
            == ArrowPayloadType::SpanLinks,
        payload_holds_ids(records, root, "id"@, ids),
        payload_holds_ids(records, t, "parent_id"@, parent_ids),
    ensures
        crate::attribute_source::rows_to_root(records, t, root) matches Ok(Some(rows))
            && rows.len() == parent_ids.len() && forall|row: int|
            0 <= row < rows.len() ==> match #[trigger] rows[row] {
                Some(found) => parent_ids[row] is Some && last_at(
                    ids,
                    parent_ids[row]->0,
                    found as int,
                ),
                None => parent_ids[row] is None || forall|k: int|
                    0 <= k < ids.len() ==> (#[trigger] ids[k]) != parent_ids[row],
            },
{
    law_rows_of_the_root(records, root);
    let parent_rows = crate::attribute_source::rows_to_root(records, root, root)->Ok_0->0;
    assert(belongs_to(t, root, root));
    law_rows_of_a_child(records, t, root, root, parent_rows, ids, parent_ids);
    assert(records.payloads[root].wf());
    lemma_batch_ids(records.payloads[root].plain->Ok_0, "id", ids);
    let rows = crate::attribute_source::rows_to_root(records, t, root)->Ok_0->0;
    assert forall|row: int| 0 <= row < rows.len() implies match #[trigger] rows[row] {
        Some(found) => parent_ids[row] is Some && last_at(ids, parent_ids[row]->0, found as int),
        None => parent_ids[row] is None || forall|k: int|
            0 <= k < ids.len() ==> (#[trigger] ids[k]) != parent_ids[row],
    } by {
        assert(descends(parent_ids[row], ids, parent_rows, rows[row]));
        if let Some(id) = parent_ids[row] {
            lemma_last_at(ids, id);
            crate::attribute_laws::law_last_row_wins(ids, id, ids.len());
            if let Some(found) = crate::attribute_source::last_row_with(ids, id, ids.len()) {
                assert(last_at(ids, id, found));
                assert(parent_rows[found] == Some(found as usize));
            }
        }
    }
}

/// No root row is found for a payload that is missing, that belongs to none and is not the root,
/// or whose parent is missing.
pub proof fn law_rows_out_of_reach(
    records: RecordsView,
    t: ArrowPayloadType,
    root: ArrowPayloadType,
)
    requires
        !records.payloads.contains_key(t) || (t != root && forall|parent: ArrowPayloadType|
            #[trigger] belongs_to(t, parent, root) ==> !records.payloads.contains_key(parent)),
    ensures
        crate::attribute_source::rows_to_root(records, t, root) == Ok::<
            Option<Seq<Option<usize>>>,
            Error,
        >(None),
{
    lemma_parents(t, root);
}

/// A call that maps rows to the root gives the root rows that are stated of a message.
pub proof fn law_a_call_maps_rows(
    records: OtapArrowRecords,
    t: ArrowPayloadType,
    root: ArrowPayloadType,
    result: Result<Option<Vec<Option<usize>>>, Error>,
)
    requires
        call_ensures(
            crate::attribute_source::map_rows_to_root,
            (&records, t, root),
            result,
        ),
    ensures
        match crate::attribute_source::rows_to_root(records@, t, root) {
            Ok(Some(rows)) => result is Ok && result->Ok_0 is Some && result->Ok_0->0@ == rows,
            Ok(None) => result is Ok && result->Ok_0 is None,
            Err(e) => result is Err && result->Err_0 == e,
        },
{
}

/// A batch holds no identifiers under a name, for a reason: the column is missing, is not one of
/// scalars, or is refused for its type.
pub open spec fn batch_lacks_ids(batch: BatchView, name: &'static str, e: Error) -> bool {
    ||| lacks(batch.fields, name@) && e == (Error::ColumnNotFound { name })
    ||| exists|i: int| #[trigger]
        stands_at(batch.fields, name@, i) && !(batch.columns[i] is Leaf) && e == (
        Error::ColumnDataTypeMismatch {
            name,
            expect: DataType::Scalar(ScalarType::UInt64),
            actual: batch.columns[i].data_type(),
        })
    ||| exists|i: int| #[trigger]
        stands_at(batch.fields, name@, i) && batch.columns[i] is Leaf
            && crate::attribute_source::leaf_ids(batch.columns[i]->Leaf_0, name) == Err::<
            Seq<Option<u64>>,
            Error,
        >(e)
}

/// Identifiers that a batch lacks are reported for the reason that it lacks them.
pub proof fn law_ids_that_cannot_be_read(batch: BatchView, name: &'static str)
    requires
        batch.wf(),
    ensures
        forall|e: Error|
            crate::attribute_source::required_ids(batch, name) == Err::<Seq<Option<u64>>, Error>(e)
                <==> #[trigger] batch_lacks_ids(batch, name, e),
        forall|ids: Seq<Option<u64>>|
            crate::attribute_source::required_ids(batch, name) == Ok::<Seq<Option<u64>>, Error>(ids)
                <==> #[trigger] batch_holds_ids(batch, name@, ids),
{
    crate::metric_laws::law_first_of_a_name(batch.fields, name@);
    if let Some(i) = crate::column::first_named(batch.fields, name@, 0) {
        assert(stands_at(batch.fields, name@, i));
        assert(batch.columns[i].wf());
        if let ColumnView::Leaf(leaf) = batch.columns[i] {
            law_ids_of_a_column(leaf, name);
        }
    }
}

/// Rows are not traced to the root where the identifiers along the way cannot be read: those of
/// the parents come first, and then those of the payload itself, where the parents' own rows can
/// be traced.
pub proof fn law_rows_that_cannot_be_traced(
    records: RecordsView,
    t: ArrowPayloadType,
    parent: ArrowPayloadType,
    root: ArrowPayloadType,
    e: Error,
)
    requires
        records.wf(),
        t != root,
        belongs_to(t, parent, root),
        records.payloads.contains_key(t),
        records.payloads.contains_key(parent),
        match crate::attribute_source::rows_to_root(records, parent, root) {
            Err(reason) => e == reason,
            Ok(None) => false,
            Ok(Some(_)) => match records.payloads[parent].plain {
                Err(reason) => e == reason,
                Ok(parents) => batch_lacks_ids(parents, "id", e) || (exists|
                    ids: Seq<Option<u64>>,
                | #[trigger] batch_holds_ids(parents, "id"@, ids)) && match records.payloads[t].plain {
                    Err(reason) => e == reason,
                    Ok(batch) => batch_lacks_ids(batch, "parent_id", e),
                },
            },
        },
    ensures
        crate::attribute_source::rows_to_root(records, t, root) == Err::<
            Option<Seq<Option<usize>>>,
            Error,
        >(e),
{
    lemma_parents(t, root);
    assert(records.payloads[t].wf());
    assert(records.payloads[parent].wf());
    if let Ok(parents) = records.payloads[parent].plain {
        law_ids_that_cannot_be_read(parents, "id");
    }
    if let Ok(batch) = records.payloads[t].plain {
        law_ids_that_cannot_be_read(batch, "parent_id");
    }
}

/// The payload that holds the attributes of a scope: those of resources, of instrumentation
/// scopes, or of the records of the message.
pub open spec fn holds_source(
    scope: AttributeSourceScope,
    root: ArrowPayloadType,
    attrs: ArrowPayloadType,
) -> bool {
    ||| scope == AttributeSourceScope::Resource && attrs == ArrowPayloadType::ResourceAttrs
    ||| scope == AttributeSourceScope::Scope && attrs == ArrowPayloadType::ScopeAttrs
    ||| scope == AttributeSourceScope::Record && root == ArrowPayloadType::Logs && attrs
        == ArrowPayloadType::LogAttrs
    ||| scope == AttributeSourceScope::Record && root == ArrowPayloadType::Spans && attrs
        == ArrowPayloadType::SpanAttrs
    ||| scope == AttributeSourceScope::Record && (root == ArrowPayloadType::UnivariateMetrics || root
        == ArrowPayloadType::MultivariateMetrics) && attrs == ArrowPayloadType::MetricAttrs
}

/// Attributes are read from the payload that holds those of the scope, and from none exactly
/// where there is no such payload.
pub proof fn law_sources(
    scope: AttributeSourceScope,
    root: ArrowPayloadType,
    r: Option<ArrowPayloadType>,
)
    requires
        call_ensures(crate::attribute_source::source_attrs_payload_type, (scope, root), r),
    ensures
        r == crate::attribute_source::attrs_payload(scope, root),
        forall|attrs: ArrowPayloadType| r == Some(attrs) <==> #[trigger] holds_source(scope, root, attrs),
        r is None <==> scope == AttributeSourceScope::Record && root != ArrowPayloadType::Logs && root
            != ArrowPayloadType::Spans && root != ArrowPayloadType::UnivariateMetrics && root
            != ArrowPayloadType::MultivariateMetrics,
{
}

/// The column that holds the values of a type code.
pub open spec fn names_values(code: u8, name: Seq<char>) -> bool {
    ||| code == 1 && name == "str"@
    ||| code == 2 && name == "int"@
    ||| code == 3 && name == "double"@
    ||| code == 4 && name == "bool"@
    ||| code == 7 && name == "bytes"@
}

/// Texts, integers, doubles, truth values and byte strings have a column of their own; empty
/// values, maps and lists have none.
pub proof fn law_value_columns(value_type: AttributeValueType, r: Option<&'static str>)
    requires
        call_ensures(crate::attribute_source::scalar_value_column, (value_type,), r),
    ensures
        r == crate::attribute_source::value_column_of(value_type),
        value_type == AttributeValueType::Str ==> r == Some("str"),
        value_type == AttributeValueType::Int ==> r == Some("int"),
        value_type == AttributeValueType::Double ==> r == Some("double"),
        value_type == AttributeValueType::Bool ==> r == Some("bool"),
        value_type == AttributeValueType::Bytes ==> r == Some("bytes"),
        value_type == AttributeValueType::Empty ==> r is None,
        value_type == AttributeValueType::MapValue ==> r is None,
        value_type == AttributeValueType::Slice ==> r is None,
{
}

/// The identifiers by which the rows of a root batch name their source: the `id` field of the
/// struct column `resource` or `scope`, nothing at all where there is no such field, or the
/// column `id` itself.
pub open spec fn names_sources(
    scope: AttributeSourceScope,
    root: BatchView,
    ids: Seq<Option<u64>>,
) -> bool {
    match scope {
        AttributeSourceScope::Resource => struct_names_sources(root, "resource"@, ids),
        AttributeSourceScope::Scope => struct_names_sources(root, "scope"@, ids),
        AttributeSourceScope::Record => batch_holds_ids(root, "id"@, ids),
    }
}

/// A struct column has a field of identifiers.
pub open spec fn has_id_field(root: BatchView, name: Seq<char>, i: int, c: int) -> bool {
    &&& stands_at(root.fields, name, i)
    &&& root.columns[i] is Struct
    &&& stands_at(root.columns[i]->Struct_0.fields, "id"@, c)
}

/// The identifiers in the `id` field of a struct column.
pub open spec fn struct_names_sources(
    root: BatchView,
    name: Seq<char>,
    ids: Seq<Option<u64>>,
) -> bool {
    ||| exists|i: int, c: int| #[trigger]
        has_id_field(root, name, i, c) && holds_ids(root.columns[i]->Struct_0.children[c], ids)
    ||| (forall|i: int, c: int| !(#[trigger] has_id_field(root, name, i, c))) && ids.len()
        == root.rows && forall|row: int| 0 <= row < ids.len() ==> (#[trigger] ids[row]) is None
}

/// The rows of a root batch name their sources by just these identifiers.
pub proof fn law_ids_of_sources(scope: AttributeSourceScope, root: BatchView)
    requires
        root.wf(),
    ensures
        forall|ids: Seq<Option<u64>>|
            crate::attribute_source::source_ids(scope, root) == Ok::<Seq<Option<u64>>, Error>(ids)
                <==> #[trigger] names_sources(scope, root, ids),
        scope == AttributeSourceScope::Record ==> forall|e: Error|
            crate::attribute_source::source_ids(scope, root) == Err::<Seq<Option<u64>>, Error>(e)
                <==> #[trigger] batch_lacks_ids(root, "id", e),
{
    match scope {
        AttributeSourceScope::Resource => {
            lemma_struct_ids(root, "resource"@);
        },
        AttributeSourceScope::Scope => {
            lemma_struct_ids(root, "scope"@);
        },
        AttributeSourceScope::Record => {
            law_ids_that_cannot_be_read(root, "id");
        },
    }
}

/// The identifiers in a struct column are read as they stand.
proof fn lemma_struct_ids(root: BatchView, name: Seq<char>)
    requires
        root.wf(),
    ensures
        forall|ids: Seq<Option<u64>>|
            crate::attribute_source::struct_column_ids(root, name) == Ok::<
                Seq<Option<u64>>,
                Error,
            >(ids) <==> #[trigger] struct_names_sources(root, name, ids),
{
    crate::metric_laws::law_first_of_a_name(root.fields, name);
    let none = crate::attribute_source::no_ids(root.rows);
    match crate::column::first_named(root.fields, name, 0) {
        Some(i) => {
            assert(stands_at(root.fields, name, i));
            if let ColumnView::Struct(column) = root.columns[i] {
                assert(root.columns[i].wf());
                crate::metric_laws::law_first_of_a_name(column.fields, "id"@);
                if let Some(c) = crate::column::first_named(column.fields, "id"@, 0) {
                    assert(stands_at(column.fields, "id"@, c));
                    assert(has_id_field(root, name, i, c));
                    assert(column.children[c].wf());
                    law_ids_of_a_column(column.children[c], "id");
                }
            }
        },
        None => {},
    }
    assert forall|ids: Seq<Option<u64>>| #[trigger]
        struct_names_sources(root, name, ids) implies crate::attribute_source::struct_column_ids(
        root,
        name,
    ) == Ok::<Seq<Option<u64>>, Error>(ids) by {
        if forall|i: int, c: int| !(#[trigger] has_id_field(root, name, i, c)) {
            assert(ids =~= none);
        }
    }
}

/// An attributes batch lists, per row, a key, a type code and the identifier of what the row is
/// an attribute of.
pub open spec fn lists_attributes(batch: BatchView, attributes: AttributesView) -> bool {
    exists|k: int, y: int, p: int|
        {
            &&& #[trigger] stands_at(batch.fields, "key"@, k)
            &&& #[trigger] stands_at(batch.fields, "type"@, y)
            &&& #[trigger] stands_at(batch.fields, "parent_id"@, p)
            &&& holds_texts(batch.columns[k], attributes.keys)
            &&& batch.columns[y] == ColumnView::Leaf(
                LeafView::Plain(ScalarsView::UInt8(attributes.types)),
            )
            &&& batch.columns[p] is Leaf
            &&& holds_ids(batch.columns[p]->Leaf_0, attributes.parents)
        }
}

/// The columns of an attributes batch are read as they stand.
proof fn lemma_attributes_read(batch: BatchView, attributes: AttributesView)
    requires
        batch.wf(),
        lists_attributes(batch, attributes),
    ensures
        crate::attribute_source::attribute_columns(batch) == Ok::<AttributesView, Error>(
            attributes,
        ),
        attributes.keys.len() == batch.rows,
        attributes.types.len() == batch.rows,
        attributes.parents.len() == batch.rows,
{
    let (k, y, p) = choose|k: int, y: int, p: int|
        {
            &&& #[trigger] stands_at(batch.fields, "key"@, k)
            &&& #[trigger] stands_at(batch.fields, "type"@, y)
            &&& #[trigger] stands_at(batch.fields, "parent_id"@, p)
            &&& holds_texts(batch.columns[k], attributes.keys)
            &&& batch.columns[y] == ColumnView::Leaf(
                LeafView::Plain(ScalarsView::UInt8(attributes.types)),
            )
            &&& batch.columns[p] is Leaf
            &&& holds_ids(batch.columns[p]->Leaf_0, attributes.parents)
        };
    crate::metric_laws::law_first_of_a_name(batch.fields, "key"@);
    crate::metric_laws::law_first_of_a_name(batch.fields, "type"@);
    crate::metric_laws::law_first_of_a_name(batch.fields, "parent_id"@);
    crate::metric_laws::law_texts_of_a_column(batch.columns[k]);
    assert(batch.columns[k].len() == batch.rows);
    assert(batch.columns[y].len() == batch.rows);
    assert(batch_holds_ids(batch, "parent_id"@, attributes.parents));
    lemma_batch_ids(batch, "parent_id", attributes.parents);
}

/// An attributes batch cannot be read, for a reason: one of the columns `key`, `type` and
/// `parent_id`, taken in this order, is missing or is not of texts, plain 8-bit integers and
/// identifiers.
pub open spec fn attributes_unreadable(batch: BatchView, e: Error) -> bool {
    let keys_read = exists|k: int, texts: Seq<Option<Seq<char>>>| #[trigger]
        stands_at(batch.fields, "key"@, k) && #[trigger] holds_texts(batch.columns[k], texts);
    let types_read = exists|y: int| #[trigger]
        stands_at(batch.fields, "type"@, y) && batch.columns[y] is Leaf && batch.columns[y]->Leaf_0
            is Plain && batch.columns[y]->Leaf_0->Plain_0 is UInt8;
    ||| lacks(batch.fields, "key"@) && e == (Error::ColumnNotFound { name: "key" })
    ||| !keys_read && exists|k: int| #[trigger]
        stands_at(batch.fields, "key"@, k) && e == (Error::UnsupportedStringColumnType {
            data_type: batch.columns[k].data_type(),
        })
    ||| keys_read && lacks(batch.fields, "type"@) && e == (Error::ColumnNotFound { name: "type" })
    ||| keys_read && !types_read && exists|y: int| #[trigger]
        stands_at(batch.fields, "type"@, y) && e == (Error::ColumnDataTypeMismatch {
            name: "type",
            expect: DataType::Scalar(ScalarType::UInt8),
            actual: batch.columns[y].data_type(),
        })
    ||| keys_read && types_read && batch_lacks_ids(batch, "parent_id", e)
}

/// An attributes batch either lists attributes or cannot be read for one reason.
pub proof fn law_unreadable_attributes(batch: BatchView)
    requires
        batch.wf(),
    ensures
        forall|e: Error|
            crate::attribute_source::attribute_columns(batch) == Err::<AttributesView, Error>(e)
                <==> #[trigger] attributes_unreadable(batch, e),
        forall|attributes: AttributesView|
            crate::attribute_source::attribute_columns(batch) == Ok::<AttributesView, Error>(
                attributes,
            ) <==> #[trigger] lists_attributes(batch, attributes),
{
    crate::metric_laws::law_first_of_a_name(batch.fields, "key"@);
    crate::metric_laws::law_first_of_a_name(batch.fields, "type"@);
    crate::metric_laws::law_first_of_a_name(batch.fields, "parent_id"@);
    law_ids_that_cannot_be_read(batch, "parent_id");
    if let Some(k) = crate::column::first_named(batch.fields, "key"@, 0) {
        assert(stands_at(batch.fields, "key"@, k));
        crate::metric_laws::law_texts_of_a_column(batch.columns[k]);
        if let Ok(texts) = crate::records::column_text(batch.columns[k]) {
            assert(holds_texts(batch.columns[k], texts));
        }
    }
    if let Some(y) = crate::column::first_named(batch.fields, "type"@, 0) {
        assert(stands_at(batch.fields, "type"@, y));
    }
    assert forall|attributes: AttributesView| #[trigger]
        lists_attributes(batch, attributes) implies crate::attribute_source::attribute_columns(batch)
        == Ok::<AttributesView, Error>(attributes) by {
        lemma_attributes_read(batch, attributes);
    }
    if let Ok(attributes) = crate::attribute_source::attribute_columns(batch) {
        assert(batch_holds_ids(batch, "parent_id"@, attributes.parents));
        let p = choose|p: int| #[trigger]
            stands_at(batch.fields, "parent_id"@, p) && batch.columns[p] is Leaf && holds_ids(
                batch.columns[p]->Leaf_0,
                attributes.parents,
            );
        assert(stands_at(batch.fields, "parent_id"@, p));
        assert(lists_attributes(batch, attributes));
    }
}

/// The first row that carries a key.
pub open spec fn first_with(attributes: AttributesView, key: Seq<char>, row: int) -> bool {
    &&& 0 <= row < attributes.keys.len()
    &&& attributes.keys[row] == Some(key)
    &&& forall|earlier: int|
        0 <= earlier < row ==> (#[trigger] attributes.keys[earlier]) != Some(key)
}

/// Every row that carries a key has a type code that stands for a type.
pub open spec fn types_known(attributes: AttributesView, key: Seq<char>) -> bool {
    forall|row: int|
        0 <= row < attributes.keys.len() && (#[trigger] attributes.keys[row]) == Some(key)
            ==> attributes.types[row].value <= 7
}

/// A row carries a key for an identifier, with the type code of the key's first row.
pub open spec fn offers(
    attributes: AttributesView,
    key: Seq<char>,
    first: int,
    id: u64,
    row: int,
) -> bool {
    &&& 0 <= row < attributes.keys.len()
    &&& attributes.keys[row] == Some(key)
    &&& attributes.types[row].value == attributes.types[first].value
    &&& attributes.parents[row] == Some(id)
}

/// The row that holds the value of a key for an identifier: the last that offers one.
pub open spec fn answers(
    attributes: AttributesView,
    key: Seq<char>,
    first: int,
    id: u64,
    row: int,
) -> bool {
    &&& offers(attributes, key, first, id, row)
    &&& forall|later: int|
        row < later ==> !(#[trigger] offers(attributes, key, first, id, later))
}

/// The value of a key for an identifier is in the last row that carries the key for it with the
/// type code that the key's first row has, and nowhere exactly where no row does.
pub proof fn law_row_of_a_value(
    attributes: AttributesView,
    key: Seq<char>,
    first: int,
    id: u64,
)
    requires
        first_with(attributes, key, first),
        types_known(attributes, key),
    ensures
        forall|row: int|
            attributes.source_row(key, id) == Some(row) <==> #[trigger] answers(
                attributes,
                key,
                first,
                id,
                row,
            ),
        attributes.source_row(key, id) is None <==> forall|row: int| !(#[trigger] offers(
            attributes,
            key,
            first,
            id,
            row,
        )),
{
    crate::attribute_laws::law_last_value_wins(attributes, key, id);
    assert forall|earlier: int| 0 <= earlier < first implies !attributes.carries(key, earlier) by {
        assert(attributes.keys[earlier] != Some(key));
    }
    crate::attribute_laws::law_first_occurrence_sets_type(attributes, key, first);
    assert(attributes.types[first].value <= 7);
    assert forall|row: int|
        0 <= row < attributes.keys.len() implies #[trigger] attributes.holds(key, id, row)
        == offers(attributes, key, first, id, row) by {
        if attributes.keys[row] == Some(key) {
            assert(attributes.types[row].value <= 7);
        }
    }
    assert forall|row: int| #[trigger]
        answers(attributes, key, first, id, row) implies attributes.source_row(key, id) == Some(
        row,
    ) by {
        assert(attributes.holds(key, id, row));
        if let Some(found) = attributes.source_row(key, id) {
            if found < row {
                assert(!attributes.holds(key, id, row));
            } else if row < found {
                assert(attributes.holds(key, id, found));
                assert(offers(attributes, key, first, id, found));
            }
        }
    }
    if let Some(found) = attributes.source_row(key, id) {
        assert(attributes.holds(key, id, found));
        assert(offers(attributes, key, first, id, found));
        assert forall|later: int| found < later implies !(#[trigger] offers(
            attributes,
            key,
            first,
            id,
            later,
        )) by {
            if later < attributes.keys.len() {
                assert(!attributes.holds(key, id, later));
            }
        }
        assert(answers(attributes, key, first, id, found));
    } else {
        assert forall|row: int| !(#[trigger] offers(attributes, key, first, id, row)) by {
            if 0 <= row < attributes.keys.len() {
                assert(!attributes.holds(key, id, row));
            }
        }
    }
}

/// The value in a row of a column: a scalar as it is, and a struct or a list by its row.
pub open spec fn value_in(column: ColumnView, row: int) -> Option<Cell> {
    match column {
        ColumnView::Leaf(LeafView::Plain(values)) => values.cell(row),
        ColumnView::Leaf(LeafView::Dictionary(_, keys, values)) => match keys[row] {
            Some(k) => values.cell(k as int),
            None => None,
        },
        ColumnView::Struct(structs) => if structs.validity[row] {
            Some(Cell::UInt64(row as u64))
        } else {
            None
        },
        ColumnView::List(list) => if list.validity[row] {
            Some(Cell::UInt64(row as u64))
        } else {
            None
        },
    }
}

/// Values out of a column, one per target row: the scalars themselves, or rows of the column.
pub open spec fn values_out_of(
    column: ColumnView,
    cells: Seq<Option<Cell>>,
    values: ValuesView,
) -> bool {
    &&& values.cells == cells
    &&& match column {
        ColumnView::Leaf(LeafView::Plain(scalars)) => values.scalar_type == scalars.scalar_type()
            && values.nested is None,
        ColumnView::Leaf(LeafView::Dictionary(_, _, scalars)) => values.scalar_type
            == scalars.scalar_type() && values.nested is None,
        _ => values.scalar_type == ScalarType::UInt64 && values.nested == Some(column),
    }
}

/// All values of a column together fit one buffer with 32-bit offsets.
pub open spec fn fits_decoded(column: ColumnView, rows: nat) -> bool {
    crate::column::cells_bytes(Seq::new(rows, |row: int| value_in(column, row))) <= 0x7fff_ffff
}

/// A target row reaches a row of the attributes: through its root row, the identifier of the
/// source that the root row names, and the row that answers for it. Rows beyond 32-bit indices
/// are out of reach.
pub open spec fn reaches(
    root_rows: Seq<Option<usize>>,
    ids: Seq<Option<u64>>,
    attributes: AttributesView,
    key: Seq<char>,
    first: int,
    target: int,
    row: int,
) -> bool {
    &&& 0 <= target < root_rows.len()
    &&& root_rows[target] is Some
    &&& root_rows[target]->0 < ids.len()
    &&& ids[root_rows[target]->0 as int] is Some
    &&& answers(attributes, key, first, ids[root_rows[target]->0 as int]->0, row)
    &&& row <= u32::MAX
}

/// One value per target row: that in the row that it reaches, and null where it reaches none.
pub open spec fn is_join(
    root_rows: Seq<Option<usize>>,
    ids: Seq<Option<u64>>,
    attributes: AttributesView,
    key: Seq<char>,
    first: int,
    column: ColumnView,
    cells: Seq<Option<Cell>>,
) -> bool {
    &&& cells.len() == root_rows.len()
    &&& forall|target: int, row: int| #[trigger]
        reaches(root_rows, ids, attributes, key, first, target, row) ==> cells[target] == value_in(
            column,
            row,
        )
    &&& forall|target: int|
        0 <= target < cells.len() && (forall|row: int| !(#[trigger] reaches(
            root_rows,
            ids,
            attributes,
            key,
            first,
            target,
            row,
        ))) ==> (#[trigger] cells[target]) is None
}

/// A message holds, for a scope, attributes with a key whose values stand in a column.
pub open spec fn holds_key(
    records: RecordsView,
    scope: AttributeSourceScope,
    key: Seq<char>,
    attrs: BatchView,
    attributes: AttributesView,
    first: int,
    column: ColumnView,
) -> bool {
    &&& exists|t: ArrowPayloadType| #[trigger]
        holds_source(scope, records.root, t) && records.payloads.contains_key(t)
            && records.payloads[t].plain == Ok::<BatchView, Error>(attrs)
    &&& lists_attributes(attrs, attributes)
    &&& first_with(attributes, key, first)
    &&& types_known(attributes, key)
    &&& exists|name: Seq<char>, v: int| #[trigger]
        names_values(attributes.types[first].value, name) && #[trigger] stands_at(
            attrs.fields,
            name,
            v,
        ) && attrs.columns[v] == column
}

/// The source of a key, as it stands in a message.
proof fn lemma_source(
    records: RecordsView,
    scope: AttributeSourceScope,
    key: Seq<char>,
    attrs: BatchView,
    attributes: AttributesView,
    first: int,
    column: ColumnView,
) -> (source: SourceView)
    requires
        records.wf(),
        holds_key(records, scope, key, attrs, attributes, first, column),
        fits_decoded(column, attrs.rows),
    ensures
        crate::attribute_source::source_of(records, scope, key) == Ok::<Option<SourceView>, Error>(
            Some(source),
        ),
        source.attributes == attributes,
        attributes.keys.len() == attrs.rows,
        source.values.cells.len() == attrs.rows,
        forall|row: int|
            0 <= row < attrs.rows ==> (#[trigger] source.values.cells[row]) == value_in(
                column,
                row,
            ),
        values_out_of(column, source.values.cells, source.values),
{
    let t = choose|t: ArrowPayloadType| #[trigger]
        holds_source(scope, records.root, t) && records.payloads.contains_key(t)
            && records.payloads[t].plain == Ok::<BatchView, Error>(attrs);
    let (name, v) = choose|name: Seq<char>, v: int| #[trigger]
        names_values(attributes.types[first].value, name) && #[trigger] stands_at(
            attrs.fields,
            name,
            v,
        ) && attrs.columns[v] == column;
    assert(records.payloads[t].wf());
    assert(attrs.wf());
    lemma_key_source(attrs, key, attributes, first, name, v);
    crate::attribute_source::source_of(records, scope, key)->Ok_0->0
}

/// No row of unknown type is found where every row's type is known.
proof fn lemma_types_known(attributes: AttributesView, key: Seq<char>, from: int)
    requires
        0 <= from,
        types_known(attributes, key),
    ensures
        attributes.first_unknown(key, from) is None,
    decreases attributes.keys.len() - from,
{
    if from < attributes.keys.len() {
        lemma_types_known(attributes, key, from + 1);
        if attributes.keys[from] == Some(key) {
            assert(attributes.types[from].value <= 7);
        }
    }
}

/// Resolution is a join, from the raw columns of a message: each target row gets the value in the
/// last attribute row that carries the key, with the type of the key's first row, for the source
/// that its own root row names, and null where there is none. Where no target row gets a row,
/// there is no result; where the values do not fit one buffer, that is reported.
pub proof fn law_values_of_a_key(
    records: RecordsView,
    target: ArrowPayloadType,
    scope: AttributeSourceScope,
    key: Seq<char>,
    attrs: BatchView,
    attributes: AttributesView,
    first: int,
    column: ColumnView,
    root: BatchView,
    ids: Seq<Option<u64>>,
    root_rows: Seq<Option<usize>>,
    cells: Seq<Option<Cell>>,
)
    requires
        records.wf(),
        holds_key(records, scope, key, attrs, attributes, first, column),
        fits_decoded(column, attrs.rows),
        records.payloads.contains_key(records.root),
        records.payloads[records.root].plain == Ok::<BatchView, Error>(root),
        names_sources(scope, root, ids),
        crate::attribute_source::rows_to_root(records, target, records.root) == Ok::<
            Option<Seq<Option<usize>>>,
            Error,
        >(Some(root_rows)),
        is_join(root_rows, ids, attributes, key, first, column, cells),
    ensures
        (forall|row: int, from: int| !(#[trigger] reaches(
            root_rows,
            ids,
            attributes,
            key,
            first,
            row,
            from,
        ))) ==> crate::attribute_source::resolved(records, target, scope, key) == Ok::<
            Option<ValuesView>,
            Error,
        >(None),
        (exists|row: int, from: int| #[trigger]
            reaches(root_rows, ids, attributes, key, first, row, from))
            ==> match crate::attribute_source::resolved(records, target, scope, key) {
            Ok(Some(values)) => values_out_of(column, cells, values) && crate::column::cells_bytes(
                cells,
            ) <= 0x7fff_ffff,
            Ok(None) => false,
            Err(e) => e == Error::ColumnLengthMismatch && crate::column::cells_bytes(cells)
                > 0x7fff_ffff,
        },
{
    let source = lemma_source(records, scope, key, attrs, attributes, first, column);
    assert(records.payloads[records.root].wf());
    law_ids_of_sources(scope, root);
    assert(crate::attribute_source::source_ids(scope, root) == Ok::<Seq<Option<u64>>, Error>(ids));
    let indices = crate::attribute_source::value_rows(root_rows, ids, attributes, key);
    assert forall|row: int, from: int| #[trigger]
        reaches(root_rows, ids, attributes, key, first, row, from) implies indices[row] == Some(
        from as u32,
    ) && 0 <= from < attributes.keys.len() by {
        let id = ids[root_rows[row]->0 as int]->0;
        law_row_of_a_value(attributes, key, first, id);
        assert(attributes.source_row(key, id) == Some(from));
    }
    assert forall|row: int|
        0 <= row < indices.len() && (#[trigger] indices[row]) is Some implies reaches(
        root_rows,
        ids,
        attributes,
        key,
        first,
        row,
        indices[row]->0 as int,
    ) by {
        let id = ids[root_rows[row]->0 as int]->0;
        law_row_of_a_value(attributes, key, first, id);
        crate::attribute_laws::law_last_value_wins(attributes, key, id);
        assert(attributes.source_row(key, id) == Some(indices[row]->0 as int));
    }
    let gathered = crate::kernels::gathered(source.values.cells, indices);
    assert(gathered =~= cells) by {
        assert forall|row: int| 0 <= row < cells.len() implies gathered[row] == cells[row] by {
            match indices[row] {
                Some(from) => {
                    assert(reaches(root_rows, ids, attributes, key, first, row, from as int));
                    assert(0 <= from < attributes.keys.len());
                    assert(source.values.cells[from as int] == value_in(column, from as int));
                },
                None => {
                    assert(forall|from: int| !(#[trigger] reaches(
                        root_rows,
                        ids,
                        attributes,
                        key,
                        first,
                        row,
                        from,
                    )));
                },
            }
        }
    }
    if crate::attribute_source::all_null(indices) {
        assert forall|row: int, from: int| !(#[trigger] reaches(
            root_rows,
            ids,
            attributes,
            key,
            first,
            row,
            from,
        )) by {
            if reaches(root_rows, ids, attributes, key, first, row, from) {
                assert(indices[row] is Some);
            }
        }
    } else {
        let row = choose|row: int| 0 <= row < indices.len() && (#[trigger] indices[row]) is Some;
        assert(reaches(root_rows, ids, attributes, key, first, row, indices[row]->0 as int));
    }
}

/// Nothing is resolved where there is no payload for the scope, where no row of it carries the
/// key, where the type of the key's first row has no column of its own, or where the batch has
/// no such column.
pub proof fn law_nothing_to_resolve(
    records: RecordsView,
    target: ArrowPayloadType,
    scope: AttributeSourceScope,
    key: Seq<char>,
    t: ArrowPayloadType,
    attrs: BatchView,
    attributes: AttributesView,
    first: int,
)
    requires
        records.wf(),
        ({
            ||| forall|u: ArrowPayloadType|
                !(#[trigger] holds_source(scope, records.root, u) && records.payloads.contains_key(u))
            ||| {
                &&& holds_source(scope, records.root, t)
                &&& records.payloads.contains_key(t)
                &&& records.payloads[t].plain == Ok::<BatchView, Error>(attrs)
                &&& lists_attributes(attrs, attributes)
                &&& {
                    ||| forall|row: int|
                        0 <= row < attributes.keys.len() ==> (#[trigger] attributes.keys[row])
                            != Some(key)
                    ||| {
                        &&& first_with(attributes, key, first)
                        &&& types_known(attributes, key)
                        &&& forall|name: Seq<char>| #[trigger]
                            names_values(attributes.types[first].value, name) ==> lacks(
                                attrs.fields,
                                name,
                            )
                    }
                }
            }
        }),
    ensures
        crate::attribute_source::resolved(records, target, scope, key) == Ok::<
            Option<ValuesView>,
            Error,
        >(None),
{
    if forall|u: ArrowPayloadType|
        !(#[trigger] holds_source(scope, records.root, u) && records.payloads.contains_key(u)) {
        if let Some(u) = crate::attribute_source::attrs_payload(scope, records.root) {
            assert(holds_source(scope, records.root, u));
        }
    } else {
        assert(records.payloads[t].wf());
        lemma_attributes_read(attrs, attributes);
        if forall|row: int|
            0 <= row < attributes.keys.len() ==> (#[trigger] attributes.keys[row]) != Some(key) {
            assert forall|row: int| 0 <= row < attributes.keys.len() implies !attributes.carries(
                key,
                row,
            ) by {
                assert(attributes.keys[row] != Some(key));
            }
            crate::attribute_laws::law_absent_key_resolves_nothing(
                records,
                target,
                scope,
                key,
                t,
                attrs,
                attributes,
            );
        } else {
            lemma_types_known(attributes, key, 0);
            assert forall|earlier: int| 0 <= earlier < first implies !attributes.carries(
                key,
                earlier,
            ) by {
                assert(attributes.keys[earlier] != Some(key));
            }
            crate::attribute_laws::law_first_occurrence_sets_type(attributes, key, first);
            let code = attributes.types[first].value;
            assert(code <= 7);
            if let Some(name) = crate::attribute_source::value_column_of(
                attributes.key_type(key)->0,
            ) {
                assert(names_values(code, name@));
                crate::metric_laws::law_first_of_a_name(attrs.fields, name@);
            }
        }
    }
}

/// A row that carries the key with a type code that stands for no type makes resolution fail; the
/// first such row is reported. Rows of other keys do not matter.
pub proof fn law_unknown_types_are_reported(
    records: RecordsView,
    target: ArrowPayloadType,
    scope: AttributeSourceScope,
    key: Seq<char>,
    t: ArrowPayloadType,
    attrs: BatchView,
    attributes: AttributesView,
    row: int,
)
    requires
        records.wf(),
        holds_source(scope, records.root, t),
        records.payloads.contains_key(t),
        records.payloads[t].plain == Ok::<BatchView, Error>(attrs),
        lists_attributes(attrs, attributes),
        0 <= row < attributes.keys.len(),
        attributes.keys[row] == Some(key),
        attributes.types[row].value > 7,
        forall|earlier: int|
            0 <= earlier < row && (#[trigger] attributes.keys[earlier]) == Some(key)
                ==> attributes.types[earlier].value <= 7,
    ensures
        crate::attribute_source::resolved(records, target, scope, key) == Err::<
            Option<ValuesView>,
            Error,
        >(Error::UnknownAttributeValueType { code: attributes.types[row].value }),
{
    assert(records.payloads[t].wf());
    lemma_attributes_read(attrs, attributes);
    lemma_first_unknown(attributes, key, 0, row);
}

/// The first row of unknown type is found from any row before it.
proof fn lemma_first_unknown(attributes: AttributesView, key: Seq<char>, from: int, row: int)
    requires
        0 <= from <= row < attributes.keys.len(),
        attributes.keys[row] == Some(key),
        attributes.types[row].value > 7,
        forall|earlier: int|
            from <= earlier < row && (#[trigger] attributes.keys[earlier]) == Some(key)
                ==> attributes.types[earlier].value <= 7,
    ensures
        attributes.first_unknown(key, from) == Some(row),
    decreases row - from,
{
    if from < row {
        if attributes.keys[from] == Some(key) {
            assert(attributes.types[from].value <= 7);
        }
        lemma_first_unknown(attributes, key, from + 1, row);
    }
}

/// Attributes that cannot be decoded or read are reported, before anything else is looked at.
pub proof fn law_unreadable_sources_are_reported(
    records: RecordsView,
    target: ArrowPayloadType,
    scope: AttributeSourceScope,
    key: Seq<char>,
    t: ArrowPayloadType,
    e: Error,
)
    requires
        records.wf(),
        holds_source(scope, records.root, t),
        records.payloads.contains_key(t),
        match records.payloads[t].plain {
            Ok(attrs) => attributes_unreadable(attrs, e),
            Err(reason) => e == reason,
        },
    ensures
        crate::attribute_source::resolved(records, target, scope, key) == Err::<
            Option<ValuesView>,
            Error,
        >(e),
{
    assert(records.payloads[t].wf());
    if let Ok(attrs) = records.payloads[t].plain {
        law_unreadable_attributes(attrs);
    }
}

/// Where a key has values, the target decides next: nothing is resolved where its rows do not
/// reach the root, and what stops them from being traced is reported. Then the root decides: what
/// stops it from being decoded, or its identifiers from being read, is reported.
pub proof fn law_unreachable_sources(
    records: RecordsView,
    target: ArrowPayloadType,
    scope: AttributeSourceScope,
    key: Seq<char>,
    attrs: BatchView,
    attributes: AttributesView,
    first: int,
    column: ColumnView,
)
    requires
        records.wf(),
        holds_key(records, scope, key, attrs, attributes, first, column),
        fits_decoded(column, attrs.rows),
    ensures
        match crate::attribute_source::rows_to_root(records, target, records.root) {
            Err(e) => crate::attribute_source::resolved(records, target, scope, key) == Err::<
                Option<ValuesView>,
                Error,
            >(e),
            Ok(None) => crate::attribute_source::resolved(records, target, scope, key) == Ok::<
                Option<ValuesView>,
                Error,
            >(None),
            Ok(Some(_)) => records.payloads.contains_key(records.root) ==> match records.payloads[
            records.root].plain {
                Err(e) => crate::attribute_source::resolved(records, target, scope, key) == Err::<
                    Option<ValuesView>,
                    Error,
                >(e),
                Ok(root) => scope == AttributeSourceScope::Record ==> forall|e: Error| #[trigger]
                    batch_lacks_ids(root, "id", e) ==> crate::attribute_source::resolved(
                        records,
                        target,
                        scope,
                        key,
                    ) == Err::<Option<ValuesView>, Error>(e),
            },
        },
{
    let source = lemma_source(records, scope, key, attrs, attributes, first, column);
    if records.payloads.contains_key(records.root) {
        assert(records.payloads[records.root].wf());
        if let Ok(root) = records.payloads[records.root].plain {
            law_ids_of_sources(scope, root);
        }
    }
}

/// A data point, or an event or link of a span, gets the value that the source of its record has:
/// its `parent_id` names the record by `id`, the record names its source, and the source has the
/// value in the row that answers for it.
pub proof fn law_value_of_a_data_point(
    records: RecordsView,
    target: ArrowPayloadType,
    scope: AttributeSourceScope,
    key: Seq<char>,
    attrs: BatchView,
    attributes: AttributesView,
    first: int,
    column: ColumnView,
    root: BatchView,
    root_ids: Seq<Option<u64>>,
    parent_ids: Seq<Option<u64>>,
    ids: Seq<Option<u64>>,
    row: int,
    record: int,
    from: int,
)
    requires
        records.wf(),
        target != records.root,
        target == ArrowPayloadType::NumberDataPoints || target
            == ArrowPayloadType::SummaryDataPoints || target
            == ArrowPayloadType::HistogramDataPoints || target
            == ArrowPayloadType::ExpHistogramDataPoints || target == ArrowPayloadType::SpanEvents
            || target == ArrowPayloadType::SpanLinks,
        holds_key(records, scope, key, attrs, attributes, first, column),
        fits_decoded(column, attrs.rows),
        payload_holds_ids(records, records.root, "id"@, root_ids),
        payload_holds_ids(records, target, "parent_id"@, parent_ids),
        records.payloads[records.root].plain == Ok::<BatchView, Error>(root),
        names_sources(scope, root, ids),
        0 <= row < parent_ids.len(),
        parent_ids[row] is Some,
        last_at(root_ids, parent_ids[row]->0, record),
        record < ids.len(),
        ids[record] is Some,
        answers(attributes, key, first, ids[record]->0, from),
        from <= u32::MAX,
    ensures
        match crate::attribute_source::resolved(records, target, scope, key) {
            Ok(Some(values)) => values.cells.len() == parent_ids.len() && values.cells[row]
                == value_in(column, from),
            Ok(None) => false,
            Err(e) => e == Error::ColumnLengthMismatch,
        },
{
    law_rows_below_the_root(records, target, records.root, root_ids, parent_ids);
    let root_rows = crate::attribute_source::rows_to_root(
        records,
        target,
        records.root,
    )->Ok_0->0;
    assert(root_rows[row] == Some(record as usize)) by {
        lemma_last_at(root_ids, parent_ids[row]->0);
        assert(records.payloads[records.root].wf());
        lemma_batch_ids(root, "id", root_ids);
    }
    let cells = lemma_join(root_rows, ids, attributes, key, first, column);
    law_values_of_a_key(
        records,
        target,
        scope,
        key,
        attrs,
        attributes,
        first,
        column,
        root,
        ids,
        root_rows,
        cells,
    );
    assert(reaches(root_rows, ids, attributes, key, first, row, from));
}

/// Every join has its values.
proof fn lemma_join(
    root_rows: Seq<Option<usize>>,
    ids: Seq<Option<u64>>,
    attributes: AttributesView,
    key: Seq<char>,
    first: int,
    column: ColumnView,
) -> (cells: Seq<Option<Cell>>)
    ensures
        is_join(root_rows, ids, attributes, key, first, column, cells),
{
    let cells = Seq::new(
        root_rows.len(),
        |target: int|
            if exists|row: int| #[trigger]
                reaches(root_rows, ids, attributes, key, first, target, row) {
                value_in(
                    column,
                    choose|row: int| #[trigger]
                        reaches(root_rows, ids, attributes, key, first, target, row),
                )
            } else {
                None
            },
    );
    assert forall|target: int, row: int| #[trigger]
        reaches(root_rows, ids, attributes, key, first, target, row) implies cells[target]
        == value_in(column, row) by {
        let chosen = choose|r: int| #[trigger]
            reaches(root_rows, ids, attributes, key, first, target, r);
        assert(reaches(root_rows, ids, attributes, key, first, target, chosen));
        let id = ids[root_rows[target]->0 as int]->0;
        if chosen < row {
            assert(!offers(attributes, key, first, id, row));
        } else if row < chosen {
            assert(!offers(attributes, key, first, id, chosen));
        }
    }
    cells
}

/// A record gets the value that its own source has.
pub proof fn law_value_of_a_record(
    records: RecordsView,
    scope: AttributeSourceScope,
    key: Seq<char>,
    attrs: BatchView,
    attributes: AttributesView,
    first: int,
    column: ColumnView,
    root: BatchView,
    ids: Seq<Option<u64>>,
    record: int,
    from: int,
)
    requires
        records.wf(),
        holds_key(records, scope, key, attrs, attributes, first, column),
        fits_decoded(column, attrs.rows),
        records.payloads.contains_key(records.root),
        records.payloads[records.root].plain == Ok::<BatchView, Error>(root),
        names_sources(scope, root, ids),
        0 <= record < root.rows,
        record < ids.len(),
        ids[record] is Some,
        answers(attributes, key, first, ids[record]->0, from),
        from <= u32::MAX,
    ensures
        match crate::attribute_source::resolved(records, records.root, scope, key) {
            Ok(Some(values)) => values.cells.len() == root.rows && values.cells[record] == value_in(
                column,
                from,
            ),
            Ok(None) => false,
            Err(e) => e == Error::ColumnLengthMismatch,
        },
{
    law_rows_of_the_root(records, records.root);
    assert(records.payloads[records.root].wf());
    let root_rows = crate::attribute_source::rows_to_root(
        records,
        records.root,
        records.root,
    )->Ok_0->0;
    let cells = lemma_join(root_rows, ids, attributes, key, first, column);
    law_values_of_a_key(
        records,
        records.root,
        scope,
        key,
        attrs,
        attributes,
        first,
        column,
        root,
        ids,
        root_rows,
        cells,
    );
    assert(root_rows[record] == Some(record as usize));
    assert(reaches(root_rows, ids, attributes, key, first, record, from));
}

/// The data points that exemplars of a kind belong to.
pub open spec fn exemplifies(exemplars: ArrowPayloadType, points: ArrowPayloadType) -> bool {
    ||| exemplars == ArrowPayloadType::NumberDpExemplars && points
        == ArrowPayloadType::NumberDataPoints
    ||| exemplars == ArrowPayloadType::HistogramDpExemplars && points
        == ArrowPayloadType::HistogramDataPoints
    ||| exemplars == ArrowPayloadType::ExpHistogramDpExemplars && points
        == ArrowPayloadType::ExpHistogramDataPoints
}

/// An exemplar gets the value that the source of its data point's record has: its `parent_id`
/// names the data point by `id`, whose `parent_id` names the record.
pub proof fn law_value_of_an_exemplar(
    records: RecordsView,
    target: ArrowPayloadType,
    points: ArrowPayloadType,
    scope: AttributeSourceScope,
    key: Seq<char>,
    attrs: BatchView,
    attributes: AttributesView,
    first: int,
    column: ColumnView,
    root: BatchView,
    root_ids: Seq<Option<u64>>,
    point_parents: Seq<Option<u64>>,
    point_ids: Seq<Option<u64>>,
    parent_ids: Seq<Option<u64>>,
    ids: Seq<Option<u64>>,
    row: int,
    point: int,
    record: int,
    from: int,
)
    requires
        records.wf(),
        exemplifies(target, points),
        target != records.root,
        points != records.root,
        holds_key(records, scope, key, attrs, attributes, first, column),
        fits_decoded(column, attrs.rows),
        payload_holds_ids(records, records.root, "id"@, root_ids),
        payload_holds_ids(records, points, "parent_id"@, point_parents),
        payload_holds_ids(records, points, "id"@, point_ids),
        payload_holds_ids(records, target, "parent_id"@, parent_ids),
        records.payloads[records.root].plain == Ok::<BatchView, Error>(root),
        names_sources(scope, root, ids),
        0 <= row < parent_ids.len(),
        parent_ids[row] is Some,
        last_at(point_ids, parent_ids[row]->0, point),
        point < point_parents.len(),
        point_parents[point] is Some,
        last_at(root_ids, point_parents[point]->0, record),
        record < ids.len(),
        ids[record] is Some,
        answers(attributes, key, first, ids[record]->0, from),
        from <= u32::MAX,
    ensures
        match crate::attribute_source::resolved(records, target, scope, key) {
            Ok(Some(values)) => values.cells.len() == parent_ids.len() && values.cells[row]
                == value_in(column, from),
            Ok(None) => false,
            Err(e) => e == Error::ColumnLengthMismatch,
        },
{
    let top = records.root;
    law_rows_below_the_root(records, points, top, root_ids, point_parents);
    let point_rows = crate::attribute_source::rows_to_root(records, points, top)->Ok_0->0;
    assert(point_rows[point] == Some(record as usize)) by {
        lemma_last_at(root_ids, point_parents[point]->0);
        assert(records.payloads[top].wf());
        lemma_batch_ids(root, "id", root_ids);
    }
    assert(belongs_to(target, points, top));
    law_rows_of_a_child(records, target, points, top, point_rows, point_ids, parent_ids);
    let root_rows = crate::attribute_source::rows_to_root(records, target, top)->Ok_0->0;
    assert(descends(parent_ids[row], point_ids, point_rows, root_rows[row]));
    let cells = lemma_join(root_rows, ids, attributes, key, first, column);
    law_values_of_a_key(
        records,
        target,
        scope,
        key,
        attrs,
        attributes,
        first,
        column,
        root,
        ids,
        root_rows,
        cells,
    );
    assert(reaches(root_rows, ids, attributes, key, first, row, from));
}

/// A call that resolves a key gives what is stated of a message.
pub proof fn law_a_call_resolves(
    records: OtapArrowRecords,
    target: ArrowPayloadType,
    scope: AttributeSourceScope,
    key: &str,
    result: Result<Option<SourceValues>, Error>,
)
    requires
        call_ensures(
            crate::attribute_source::resolve_source_values,
            (&records, target, scope, key),
            result,
        ),
    ensures
        match crate::attribute_source::resolved(records@, target, scope, key@) {
            Ok(Some(values)) => {
                &&& result is Ok
                &&& result->Ok_0 is Some
                &&& result->Ok_0->0.scalars@.scalar_type() == values.scalar_type
                &&& result->Ok_0->0.scalars@.cells() == values.cells
                &&& match (result->Ok_0->0.nested, values.nested) {
                    (Some(column), Some(nested)) => column@ == nested,
                    (None, None) => true,
                    _ => false,
                }
            },
            Ok(None) => result is Ok && result->Ok_0 is None,
            Err(e) => result is Err && result->Err_0 == e,
        },
{
}

/// Looking up the rows of a key in an attributes batch gives, for each identifier, the row that
/// answers for it, and the values of the column in which the key's values stand.
pub proof fn law_rows_of_a_key(
    attrs: crate::records::RecordBatch,
    key: &str,
    result: Result<Option<crate::attribute_source::SourceRows>, Error>,
    attributes: AttributesView,
    first: int,
    name: Seq<char>,
    v: int,
    id: u64,
)
    requires
        attrs@.wf(),
        lists_attributes(attrs@, attributes),
        first_with(attributes, key@, first),
        types_known(attributes, key@),
        names_values(attributes.types[first].value, name),
        stands_at(attrs@.fields, name, v),
        fits_decoded(attrs@.columns[v], attrs@.rows),
        call_ensures(crate::attribute_source::index_source_rows, (&attrs, key), result),
    ensures
        result is Ok,
        result->Ok_0 is Some,
        ({
            let table = result->Ok_0->0.row_by_source_id@;
            forall|row: usize|
                (table.contains_key(id) && table[id] == row) <==> #[trigger] answers(
                    attributes,
                    key@,
                    first,
                    id,
                    row as int,
                )
        }),
        forall|row: int|
            0 <= row < attrs@.rows ==> (#[trigger] result->Ok_0->0.values.scalars@.cells()[row])
                == value_in(attrs@.columns[v], row),
{
    lemma_key_source(attrs@, key@, attributes, first, name, v);
    law_row_of_a_value(attributes, key@, first, id);
    let rows = result->Ok_0->0;
    let table = rows.row_by_source_id@;
    assert(table.contains_key(id) == (attributes.last_holder(
        key@,
        id,
        attributes.keys.len(),
    ) is Some));
    assert(rows.values@.cells == rows.values.scalars@.cells());
}

/// The source of a key in an attributes batch.
proof fn lemma_key_source(
    attrs: BatchView,
    key: Seq<char>,
    attributes: AttributesView,
    first: int,
    name: Seq<char>,
    v: int,
)
    requires
        attrs.wf(),
        lists_attributes(attrs, attributes),
        first_with(attributes, key, first),
        types_known(attributes, key),
        names_values(attributes.types[first].value, name),
        stands_at(attrs.fields, name, v),
        fits_decoded(attrs.columns[v], attrs.rows),
    ensures
        crate::attribute_source::key_source(attrs, key) matches Ok(Some(source))
            && source.attributes == attributes && source.values.cells.len() == attrs.rows
            && values_out_of(attrs.columns[v], source.values.cells, source.values) && forall|
            row: int,
        |
            0 <= row < attrs.rows ==> (#[trigger] source.values.cells[row]) == value_in(
                attrs.columns[v],
                row,
            ),
        attributes.keys.len() == attrs.rows,
{
    let column = attrs.columns[v];
    lemma_attributes_read(attrs, attributes);
    crate::metric_laws::law_first_of_a_name(attrs.fields, name);
    lemma_types_known(attributes, key, 0);
    assert forall|earlier: int| 0 <= earlier < first implies !attributes.carries(key, earlier) by {
        assert(attributes.keys[earlier] != Some(key));
    }
    crate::attribute_laws::law_first_occurrence_sets_type(attributes, key, first);
    assert(column.wf() && column.len() == attrs.rows);
    if column is Leaf {
        lemma_decoded_cells(column, attrs.rows);
    }
}

/// An `id` field of a resource or a scope that cannot be read as identifiers is reported.
pub proof fn law_source_ids_that_cannot_be_read(
    scope: AttributeSourceScope,
    root: BatchView,
    i: int,
    c: int,
    e: Error,
)
    requires
        scope == AttributeSourceScope::Resource && has_id_field(root, "resource"@, i, c) || scope
            == AttributeSourceScope::Scope && has_id_field(root, "scope"@, i, c),
        crate::attribute_source::leaf_ids(root.columns[i]->Struct_0.children[c], "id") == Err::<
            Seq<Option<u64>>,
            Error,
        >(e),
    ensures
        crate::attribute_source::source_ids(scope, root) == Err::<Seq<Option<u64>>, Error>(e),
{
    crate::metric_laws::law_first_of_a_name(root.fields, "resource"@);
    crate::metric_laws::law_first_of_a_name(root.fields, "scope"@);
    crate::metric_laws::law_first_of_a_name(root.columns[i]->Struct_0.fields, "id"@);
}

/// Values in a dictionary that do not fit one buffer when unpacked are reported, before the rows
/// of the target are looked at.
pub proof fn law_values_too_long_to_unpack(
    records: RecordsView,
    target: ArrowPayloadType,
    scope: AttributeSourceScope,
    key: Seq<char>,
    attrs: BatchView,
    attributes: AttributesView,
    first: int,
    column: ColumnView,
)
    requires
        records.wf(),
        holds_key(records, scope, key, attrs, attributes, first, column),
        column is Leaf,
        column->Leaf_0 is Dictionary,
        !fits_decoded(column, attrs.rows),
    ensures
        crate::attribute_source::resolved(records, target, scope, key) == Err::<
            Option<ValuesView>,
            Error,
        >(Error::ColumnLengthMismatch),
{
    let t = choose|t: ArrowPayloadType| #[trigger]
        holds_source(scope, records.root, t) && records.payloads.contains_key(t)
            && records.payloads[t].plain == Ok::<BatchView, Error>(attrs);
    let (name, v) = choose|name: Seq<char>, v: int| #[trigger]
        names_values(attributes.types[first].value, name) && #[trigger] stands_at(
            attrs.fields,
            name,
            v,
        ) && attrs.columns[v] == column;
    assert(records.payloads[t].wf());
    assert(attrs.wf());
    lemma_attributes_read(attrs, attributes);
    crate::metric_laws::law_first_of_a_name(attrs.fields, name);
    lemma_types_known(attributes, key, 0);
    assert forall|earlier: int| 0 <= earlier < first implies !attributes.carries(key, earlier) by {
        assert(attributes.keys[earlier] != Some(key));
    }
    crate::attribute_laws::law_first_occurrence_sets_type(attributes, key, first);
    assert(column.wf() && column.len() == attrs.rows);
    lemma_decoded_cells(column, attrs.rows);
}

/// The values of a scalar column are those in its rows.
proof fn lemma_decoded_cells(column: ColumnView, rows: nat)
    requires
        column.wf(),
        column is Leaf,
        column.len() == rows,
    ensures
        column->Leaf_0.cells() == Seq::new(rows, |row: int| value_in(column, row)),
{
    let leaf = column->Leaf_0;
    let cells = Seq::new(rows, |row: int| value_in(column, row));
    assert forall|row: int| 0 <= row < rows implies leaf.cells()[row] == cells[row] by {
        if let LeafView::Dictionary(_, keys, values) = leaf {
            if let Some(k) = keys[row] {
                assert(k < values.len());
                assert(values.cells()[k as int] == values.cell(k as int));
            }
        }
    }
    assert(leaf.cells() =~= cells);
}

} // verus!
