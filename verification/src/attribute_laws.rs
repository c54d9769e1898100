//! What holds of attribute resolution as a whole.

use crate::attribute_source::{AttributeSourceScope, AttributesView, SourceView, ValuesView};
use crate::error::Error;
use crate::payload::{ArrowPayloadType, AttributeValueType};
use crate::records::{BatchView, RecordsView};
use vstd::prelude::*;

verus! {

/// An identifier is looked up in the last row that has it, and not found exactly where no row
/// has it.
pub proof fn law_last_row_wins(ids: Seq<Option<u64>>, id: u64, rows: nat)
    requires
        rows <= ids.len(),
    ensures
        match crate::attribute_source::last_row_with(ids, id, rows) {
            Some(row) => 0 <= row < rows && ids[row] == Some(id) && forall|later: int|
                row < later < rows ==> ids[later] != Some(id),
            None => forall|row: int| 0 <= row < rows ==> ids[row] != Some(id),
        },
    decreases rows,
{
    if rows > 0 && ids[rows - 1] != Some(id) {
        law_last_row_wins(ids, id, (rows - 1) as nat);
    }
}

/// The value of a key for a parent is read from the last row that carries the key for that
/// parent with a value of the type that the key's first row has.
pub proof fn law_last_value_wins(attributes: AttributesView, key: Seq<char>, id: u64)
    ensures
        match attributes.source_row(key, id) {
            Some(row) => 0 <= row < attributes.keys.len() && attributes.holds(key, id, row)
                && forall|later: int|
                row < later < attributes.keys.len() ==> !attributes.holds(key, id, later),
            None => forall|row: int|
                0 <= row < attributes.keys.len() ==> !attributes.holds(key, id, row),
        },
{
    crate::attribute_source::lemma_last_holder(attributes, key, id, attributes.keys.len());
}

/// The type that a key's values are copied with is that of the first row that carries it.
pub proof fn law_first_occurrence_sets_type(attributes: AttributesView, key: Seq<char>, row: int)
    requires
        0 <= row < attributes.keys.len(),
        attributes.carries(key, row),
        forall|earlier: int| 0 <= earlier < row ==> !attributes.carries(key, earlier),
    ensures
        attributes.key_type(key) == attributes.row_type(row),
{
    lemma_first_carrier(attributes, key, 0, row);
}

/// The first carrier is found from any row before it.
proof fn lemma_first_carrier(attributes: AttributesView, key: Seq<char>, from: int, row: int)
    requires
        0 <= from <= row < attributes.keys.len(),
        attributes.carries(key, row),
        forall|earlier: int| from <= earlier < row ==> !attributes.carries(key, earlier),
    ensures
        attributes.first_carrier(key, from) == Some(row),
    decreases row - from,
{
    if from < row {
        lemma_first_carrier(attributes, key, from + 1, row);
    }
}

/// No row carries a key that no row carries.
proof fn lemma_no_carrier(attributes: AttributesView, key: Seq<char>, from: int)
    requires
        forall|row: int| 0 <= row < attributes.keys.len() ==> !attributes.carries(key, row),
    ensures
        attributes.first_carrier(key, from) is None,
        attributes.first_unknown(key, from) is None,
    decreases attributes.keys.len() - from,
{
    if 0 <= from < attributes.keys.len() {
        lemma_no_carrier(attributes, key, from + 1);
    }
}

/// The identifier by which a target row names its source, given the root rows that target
/// rows descend from and the identifiers of the root rows.
pub open spec fn source_id(
    root_rows: Seq<Option<usize>>,
    ids: Seq<Option<u64>>,
    row: int,
) -> Option<u64> {
    match root_rows[row] {
        Some(root_row) if root_row < ids.len() => ids[root_row as int],
        _ => None,
    }
}

/// Resolution is a join: each target row gets the value that its own source has for the key,
/// and null where its source has none.
///
/// Rows of a source beyond the range of 32-bit indices are out of reach, and count as none.
pub proof fn law_resolution_is_a_join(
    records: RecordsView,
    target: ArrowPayloadType,
    scope: AttributeSourceScope,
    key: Seq<char>,
    source: SourceView,
    root_rows: Seq<Option<usize>>,
    root: BatchView,
    ids: Seq<Option<u64>>,
    values: ValuesView,
    row: int,
)
    requires
        crate::attribute_source::source_of(records, scope, key) == Ok::<Option<SourceView>, Error>(
            Some(source),
        ),
        crate::attribute_source::rows_to_root(records, target, records.root) == Ok::<
            Option<Seq<Option<usize>>>,
            Error,
        >(Some(root_rows)),
        records.get(records.root) is Some,
        records.get(records.root)->0.plain == Ok::<BatchView, Error>(root),
        crate::attribute_source::source_ids(scope, root) == Ok::<Seq<Option<u64>>, Error>(ids),
        crate::attribute_source::resolved(records, target, scope, key) == Ok::<
            Option<ValuesView>,
            Error,
        >(Some(values)),
        0 <= row < root_rows.len(),
    ensures
        values.scalar_type == source.values.scalar_type,
        values.nested == source.values.nested,
        values.cells.len() == root_rows.len(),
        match source_id(root_rows, ids, row) {
            None => values.cells[row] is None,
            Some(id) => match source.attributes.source_row(key, id) {
                Some(found) => if found <= u32::MAX {
                    values.cells[row] == source.values.cells[found]
                } else {
                    values.cells[row] is None
                },
                None => values.cells[row] is None,
            },
        },
{
    crate::attribute_source::lemma_last_holder(
        source.attributes,
        key,
        source_id(root_rows, ids, row)->0,
        source.attributes.keys.len(),
    );
}

/// Target rows with the same source get the same value.
pub proof fn law_same_source_same_value(
    source: SourceView,
    key: Seq<char>,
    root_rows: Seq<Option<usize>>,
    ids: Seq<Option<u64>>,
    values: ValuesView,
    a: int,
    b: int,
)
    requires
        crate::attribute_source::joined(
            source,
            crate::attribute_source::value_rows(root_rows, ids, source.attributes, key),
        ) == Ok::<Option<ValuesView>, Error>(Some(values)),
        0 <= a < root_rows.len(),
        0 <= b < root_rows.len(),
        source_id(root_rows, ids, a) == source_id(root_rows, ids, b),
    ensures
        values.cells[a] == values.cells[b],
{
}

/// Resolution gives one entry per row of the target payload.
pub proof fn law_one_entry_per_target_row(
    records: RecordsView,
    target: ArrowPayloadType,
    scope: AttributeSourceScope,
    key: Seq<char>,
    values: ValuesView,
)
    requires
        records.wf(),
        crate::attribute_source::resolved(records, target, scope, key) == Ok::<
            Option<ValuesView>,
            Error,
        >(Some(values)),
    ensures
        records.get(target) matches Some(payload) && values.cells.len() == payload.stored.rows,
{
    let root_rows = crate::attribute_source::rows_to_root(records, target, records.root)->Ok_0->0;
    assert(values.cells.len() == root_rows.len());
    lemma_root_rows_len(records, target, records.root);
}

/// Every row of a payload is mapped to the root.
pub(crate) proof fn lemma_root_rows_len(
    records: RecordsView,
    target: ArrowPayloadType,
    root: ArrowPayloadType,
)
    requires
        records.wf(),
        crate::attribute_source::rows_to_root(records, target, root) matches Ok(rows)
            && rows is Some,
    ensures
        records.get(target) is Some,
        crate::attribute_source::rows_to_root(records, target, root)->Ok_0->0.len() == records.get(
            target,
        )->0.stored.rows,
{
    if target != root {
        lemma_payload_ids_len(records, target, crate::consts::PARENT_ID);
    }
}

/// Nothing is resolved where the attributes payload of the scope is missing.
pub proof fn law_missing_payload_resolves_nothing(
    records: RecordsView,
    target: ArrowPayloadType,
    scope: AttributeSourceScope,
    key: Seq<char>,
)
    requires
        match crate::attribute_source::attrs_payload(scope, records.root) {
            Some(attrs_type) => records.get(attrs_type) is None,
            None => true,
        },
    ensures
        crate::attribute_source::resolved(records, target, scope, key) == Ok::<
            Option<ValuesView>,
            Error,
        >(None),
{
}

/// Nothing is resolved for a key that no row of the attributes payload carries.
pub proof fn law_absent_key_resolves_nothing(
    records: RecordsView,
    target: ArrowPayloadType,
    scope: AttributeSourceScope,
    key: Seq<char>,
    attrs_type: ArrowPayloadType,
    attrs: BatchView,
    attributes: AttributesView,
)
    requires
        crate::attribute_source::attrs_payload(scope, records.root) == Some(attrs_type),
        records.get(attrs_type) is Some,
        records.get(attrs_type)->0.plain == Ok::<BatchView, Error>(attrs),
        crate::attribute_source::attribute_columns(attrs) == Ok::<AttributesView, Error>(
            attributes,
        ),
        forall|row: int| 0 <= row < attributes.keys.len() ==> !attributes.carries(key, row),
    ensures
        crate::attribute_source::resolved(records, target, scope, key) == Ok::<
            Option<ValuesView>,
            Error,
        >(None),
{
    lemma_no_carrier(attributes, key, 0);
}

/// Nothing is resolved for a key whose value type has no column of its own.
pub proof fn law_non_scalar_resolves_nothing(
    records: RecordsView,
    target: ArrowPayloadType,
    scope: AttributeSourceScope,
    key: Seq<char>,
    attrs_type: ArrowPayloadType,
    attrs: BatchView,
    attributes: AttributesView,
)
    requires
        crate::attribute_source::attrs_payload(scope, records.root) == Some(attrs_type),
        records.get(attrs_type) is Some,
        records.get(attrs_type)->0.plain == Ok::<BatchView, Error>(attrs),
        crate::attribute_source::attribute_columns(attrs) == Ok::<AttributesView, Error>(
            attributes,
        ),
        attributes.first_unknown(key, 0) is None,
        attributes.key_type(key) == Some(AttributeValueType::Empty) || attributes.key_type(key)
            == Some(AttributeValueType::MapValue) || attributes.key_type(key) == Some(
            AttributeValueType::Slice,
        ),
    ensures
        crate::attribute_source::resolved(records, target, scope, key) == Ok::<
            Option<ValuesView>,
            Error,
        >(None),
{
}

/// Every row of the root payload descends from itself.
pub proof fn law_root_rows_are_their_own(records: RecordsView, row: int)
    requires
        records.wf(),
        records.get(records.root) is Some,
        0 <= row < records.get(records.root)->0.stored.rows,
    ensures
        crate::attribute_source::rows_to_root(
            records,
            records.root,
            records.root,
        ) matches Ok(Some(rows)) && rows.len() == records.get(records.root)->0.stored.rows
            && rows[row] == Some(row as usize),
{
}

/// A payload has a chain of parents up to the root, all of them present.
pub open spec fn has_chain(
    records: RecordsView,
    payload_type: ArrowPayloadType,
    root_payload_type: ArrowPayloadType,
) -> bool
    decreases crate::attribute_source::depth(payload_type, root_payload_type),
{
    records.get(payload_type) is Some && if payload_type == root_payload_type {
        true
    } else {
        match crate::attribute_source::parent_payload(payload_type, root_payload_type) {
            Some(parent) => has_chain(records, parent, root_payload_type),
            None => false,
        }
    }
}

/// A key has no values in an attributes batch: no row carries it, the type of its first row
/// has no value column, or that column is absent.
pub open spec fn without_values(batch: BatchView, key: Seq<char>) -> bool {
    let attributes = crate::attribute_source::attribute_columns(batch)->Ok_0;
    ||| forall|row: int| 0 <= row < attributes.keys.len() ==> !attributes.carries(key, row)
    ||| match crate::attribute_source::value_column_of(attributes.key_type(key)->0) {
        Some(name) => batch.column(name@) is None,
        None => true,
    }
}

/// An attributes batch that can be read is refused for its value types exactly where a row
/// that carries the key has one that no code stands for; rows of other keys do not matter.
/// Else it has no source for the key exactly where the key has no values in it.
pub proof fn law_source_of_a_key(batch: BatchView, key: Seq<char>, attributes: AttributesView)
    requires
        crate::attribute_source::attribute_columns(batch) == Ok::<AttributesView, Error>(
            attributes,
        ),
    ensures
        (crate::attribute_source::key_source(batch, key) matches Err(e)
            && e is UnknownAttributeValueType) <==> exists|row: int|
            0 <= row < attributes.keys.len() && attributes.carries(key, row)
                && #[trigger] attributes.row_type(row) is None,
        crate::attribute_source::key_source(batch, key) matches Ok(source) ==> (source is None
            <==> without_values(batch, key)),
{
    lemma_unknown(attributes, key, 0);
    if attributes.first_unknown(key, 0) is None {
        lemma_carrier(attributes, key, 0);
        if forall|row: int| 0 <= row < attributes.keys.len() ==> !attributes.carries(key, row) {
            lemma_no_carrier(attributes, key, 0);
        }
    }
}

/// A carrier of unknown type is found exactly where there is one.
proof fn lemma_unknown(attributes: AttributesView, key: Seq<char>, from: int)
    requires
        0 <= from,
    ensures
        attributes.first_unknown(key, from) is Some <==> exists|row: int|
            from <= row < attributes.keys.len() && attributes.carries(key, row)
                && #[trigger] attributes.row_type(row) is None,
    decreases attributes.keys.len() - from,
{
    if from < attributes.keys.len() {
        lemma_unknown(attributes, key, from + 1);
        if attributes.carries(key, from) && attributes.row_type(from) is None {
        } else if exists|row: int|
            from <= row < attributes.keys.len() && attributes.carries(key, row)
                && #[trigger] attributes.row_type(row) is None {
            let row = choose|row: int|
                from <= row < attributes.keys.len() && attributes.carries(key, row)
                    && #[trigger] attributes.row_type(row) is None;
            assert(row != from);
        }
    }
}

/// A key has no values in a message: there is no attributes payload for the scope, or the key
/// has no values in it.
pub open spec fn without_source(
    records: RecordsView,
    scope: AttributeSourceScope,
    key: Seq<char>,
) -> bool {
    match crate::attribute_source::attrs_payload(scope, records.root) {
        None => true,
        Some(attrs_type) => match records.get(attrs_type) {
            None => true,
            Some(attrs) => without_values(attrs.plain->Ok_0, key),
        },
    }
}

/// No row of a payload gets a value, given that the key has values and that the payload has a
/// chain of parents up to the root.
pub open spec fn no_row_matches(
    records: RecordsView,
    target: ArrowPayloadType,
    scope: AttributeSourceScope,
    key: Seq<char>,
) -> bool {
    let source = crate::attribute_source::source_of(records, scope, key)->Ok_0->0;
    let root_rows = crate::attribute_source::rows_to_root(
        records,
        target,
        records.root,
    )->Ok_0->0;
    let root = records.get(records.root)->0.plain->Ok_0;
    let ids = crate::attribute_source::source_ids(scope, root)->Ok_0;
    crate::attribute_source::all_null(
        crate::attribute_source::value_rows(root_rows, ids, source.attributes, key),
    )
}

/// Resolution that does not fail gives nothing exactly where the key has no values, where the
/// target has no chain of parents up to the root, or where no target row gets a value.
pub proof fn law_nothing_resolved_exactly_where_unreachable(
    records: RecordsView,
    target: ArrowPayloadType,
    scope: AttributeSourceScope,
    key: Seq<char>,
)
    requires
        crate::attribute_source::resolved(records, target, scope, key) is Ok,
    ensures
        crate::attribute_source::resolved(records, target, scope, key)->Ok_0 is None <==> {
            ||| without_source(records, scope, key)
            ||| !has_chain(records, target, records.root)
            ||| no_row_matches(records, target, scope, key)
        },
{
    lemma_without_source(records, scope, key);
    if crate::attribute_source::source_of(records, scope, key)->Ok_0 is Some {
        lemma_chain(records, target, records.root);
        if has_chain(records, target, records.root) {
            lemma_chain_has_root(records, target, records.root);
        }
    }
}

/// A source is missing exactly where the key has no values.
proof fn lemma_without_source(records: RecordsView, scope: AttributeSourceScope, key: Seq<char>)
    requires
        crate::attribute_source::source_of(records, scope, key) is Ok,
    ensures
        crate::attribute_source::source_of(records, scope, key)->Ok_0 is None <==> without_source(
            records,
            scope,
            key,
        ),
{
    if let Some(attrs_type) = crate::attribute_source::attrs_payload(scope, records.root) {
        if let Some(attrs) = records.get(attrs_type) {
            let batch = attrs.plain->Ok_0;
            let attributes = crate::attribute_source::attribute_columns(batch)->Ok_0;
            law_source_of_a_key(batch, key, attributes);
        }
    }
}

/// Where no row that carries a key has a value of unknown type, the first carrier has one of
/// known type.
proof fn lemma_carrier(attributes: AttributesView, key: Seq<char>, from: int)
    requires
        0 <= from,
        attributes.first_unknown(key, from) is None,
    ensures
        match attributes.first_carrier(key, from) {
            Some(row) => from <= row < attributes.keys.len() && attributes.carries(key, row)
                && attributes.row_type(row) is Some,
            None => forall|row: int|
                from <= row < attributes.keys.len() ==> !attributes.carries(key, row),
        },
    decreases attributes.keys.len() - from,
{
    if from < attributes.keys.len() && !attributes.carries(key, from) {
        lemma_carrier(attributes, key, from + 1);
    }
}

/// Rows map to the root exactly along a chain of parents.
proof fn lemma_chain(
    records: RecordsView,
    payload_type: ArrowPayloadType,
    root_payload_type: ArrowPayloadType,
)
    requires
        crate::attribute_source::rows_to_root(records, payload_type, root_payload_type) is Ok,
    ensures
        crate::attribute_source::rows_to_root(
            records,
            payload_type,
            root_payload_type,
        )->Ok_0 is Some <==> has_chain(records, payload_type, root_payload_type),
    decreases crate::attribute_source::depth(payload_type, root_payload_type),
{
    if records.get(payload_type) is Some && payload_type != root_payload_type {
        if let Some(parent) = crate::attribute_source::parent_payload(
            payload_type,
            root_payload_type,
        ) {
            if records.get(parent) is Some {
                lemma_chain(records, parent, root_payload_type);
            } else {
                assert(!has_chain(records, parent, root_payload_type));
            }
        }
    }
}

/// A chain of parents ends at a root that is present.
proof fn lemma_chain_has_root(
    records: RecordsView,
    payload_type: ArrowPayloadType,
    root_payload_type: ArrowPayloadType,
)
    requires
        has_chain(records, payload_type, root_payload_type),
    ensures
        records.get(root_payload_type) is Some,
    decreases crate::attribute_source::depth(payload_type, root_payload_type),
{
    if payload_type != root_payload_type {
        lemma_chain_has_root(
            records,
            crate::attribute_source::parent_payload(payload_type, root_payload_type)->0,
            root_payload_type,
        );
    }
}

/// A row of a payload descends from the root row that its parent row descends from: that of
/// the last row of the parent payload whose identifier is the row's parent identifier. A row
/// with a null or unknown parent identifier descends from none. There is one entry per row, and
/// every root row is one of the root payload.
pub proof fn law_rows_descend_from_their_parents(
    records: RecordsView,
    payload_type: ArrowPayloadType,
    root_type: ArrowPayloadType,
    parent_type: ArrowPayloadType,
    rows: Seq<Option<usize>>,
    parent_rows: Seq<Option<usize>>,
    ids: Seq<Option<u64>>,
    parent_ids: Seq<Option<u64>>,
    row: int,
)
    requires
        records.wf(),
        payload_type != root_type,
        crate::attribute_source::parent_payload(payload_type, root_type) == Some(parent_type),
        crate::attribute_source::rows_to_root(records, payload_type, root_type) == Ok::<
            Option<Seq<Option<usize>>>,
            Error,
        >(Some(rows)),
        crate::attribute_source::rows_to_root(records, parent_type, root_type) == Ok::<
            Option<Seq<Option<usize>>>,
            Error,
        >(Some(parent_rows)),
        records.get(parent_type) is Some,
        crate::attribute_source::payload_ids(
            records.get(parent_type)->0,
            crate::consts::ID,
        ) == Ok::<Seq<Option<u64>>, Error>(ids),
        records.get(payload_type) is Some,
        crate::attribute_source::payload_ids(
            records.get(payload_type)->0,
            crate::consts::PARENT_ID,
        ) == Ok::<Seq<Option<u64>>, Error>(parent_ids),
        0 <= row < rows.len(),
    ensures
        rows.len() == records.get(payload_type)->0.stored.rows,
        rows.len() == parent_ids.len(),
        parent_rows.len() == ids.len(),
        match parent_ids[row] {
            None => rows[row] is None,
            Some(id) => match crate::attribute_source::last_row_with(ids, id, ids.len()) {
                Some(parent_row) => 0 <= parent_row < parent_rows.len() && rows[row]
                    == parent_rows[parent_row],
                None => rows[row] is None,
            },
        },
        rows[row] matches Some(root_row) ==> records.get(root_type) matches Some(root) && root_row
            < root.stored.rows,
{
    lemma_root_rows_len(records, payload_type, root_type);
    lemma_root_rows_len(records, parent_type, root_type);
    lemma_payload_ids_len(records, parent_type, crate::consts::ID);
    lemma_root_rows_in_range(records, payload_type, root_type, row);
    if let Some(id) = parent_ids[row] {
        law_last_row_wins(ids, id, ids.len());
    }
}

/// There are as many identifiers as rows.
proof fn lemma_payload_ids_len(records: RecordsView, t: ArrowPayloadType, name: &'static str)
    requires
        records.wf(),
        records.get(t) is Some,
        crate::attribute_source::payload_ids(records.get(t)->0, name) is Ok,
    ensures
        crate::attribute_source::payload_ids(records.get(t)->0, name)->Ok_0.len() == records.get(
            t,
        )->0.stored.rows,
{
    let batch = records.get(t)->0.plain->Ok_0;
    assert(records.payloads.contains_key(t));
    assert(batch.wf());
    crate::column::lemma_first_named(batch.fields, name@, 0);
    let column = batch.required(name)->Ok_0;
    assert(column.wf() && column.len() == batch.rows);
    assert(column->Leaf_0.cells().len() == column.len());
}

/// A root row is one of the root payload.
proof fn lemma_root_rows_in_range(
    records: RecordsView,
    payload_type: ArrowPayloadType,
    root_type: ArrowPayloadType,
    row: int,
)
    requires
        records.wf(),
        crate::attribute_source::rows_to_root(records, payload_type, root_type) matches Ok(rows)
            && rows is Some,
        0 <= row < crate::attribute_source::rows_to_root(
            records,
            payload_type,
            root_type,
        )->Ok_0->0.len(),
    ensures
        crate::attribute_source::rows_to_root(
            records,
            payload_type,
            root_type,
        )->Ok_0->0[row] matches Some(root_row) ==> records.get(root_type) matches Some(root)
            && root_row < root.stored.rows,
    decreases crate::attribute_source::depth(payload_type, root_type),
{
    if payload_type == root_type {
        assert(records.payloads.contains_key(root_type));
    } else {
        let parent = crate::attribute_source::parent_payload(payload_type, root_type)->0;
        let ids = crate::attribute_source::payload_ids(
            records.get(parent)->0,
            crate::consts::ID,
        )->Ok_0;
        let parent_ids = crate::attribute_source::payload_ids(
            records.get(payload_type)->0,
            crate::consts::PARENT_ID,
        )->Ok_0;
        let parent_rows = crate::attribute_source::rows_to_root(
            records,
            parent,
            root_type,
        )->Ok_0->0;
        if let Some(id) = parent_ids[row] {
            law_last_row_wins(ids, id, ids.len());
            if let Some(parent_row) = crate::attribute_source::last_row_with(ids, id, ids.len()) {
                if parent_row < parent_rows.len() {
                    lemma_root_rows_in_range(records, parent, root_type, parent_row);
                }
            }
        }
    }
}

} // verus!
