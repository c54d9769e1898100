use otap_transform::attribute_source::{
    id_index, index_source_rows, map_rows_to_root, parent_payload_type, resolve_source_values,
    scalar_value_column, source_attrs_payload_type, AttributeSourceScope, SourceValues,
};
use otap_transform::column::{
    Column, DataType, Dictionary, Field, Items, KeyType, Leaf, ListColumn, ScalarType, Scalars,
    Slot, StructColumn,
};
use otap_transform::consts;
use otap_transform::double::Double;
use otap_transform::error::Error;
use otap_transform::payload::{ArrowPayloadType, AttributeValueType};
use otap_transform::records::{OtapArrowRecords, Payload, RecordBatch, Signal};

const STR: u8 = 1;
const INT: u8 = 2;

fn batch(columns: Vec<(&str, Column)>) -> RecordBatch {
    let mut fields = Vec::new();
    let mut values = Vec::new();
    for (name, column) in columns {
        fields.push(Field::new(name, true));
        values.push(column);
    }
    RecordBatch::try_new(fields, values).expect("batch")
}

fn slots<T: Copy + Default>(values: &[Option<T>]) -> Vec<Slot<T>> {
    values
        .iter()
        .map(|v| Slot { valid: v.is_some(), value: v.unwrap_or_default() })
        .collect()
}

fn u16s(values: &[Option<u16>]) -> Column {
    Column::plain(Scalars::UInt16(slots(values)))
}

fn u32s(values: &[Option<u32>]) -> Column {
    Column::plain(Scalars::UInt32(values.to_vec()))
}

fn u8s(values: &[u8]) -> Column {
    Column::plain(Scalars::UInt8(slots(&values.iter().map(|v| Some(*v)).collect::<Vec<_>>())))
}

fn text_values(values: &[Option<&str>]) -> Scalars {
    Scalars::Utf8(values.iter().map(|v| v.map(str::to_owned)).collect())
}

fn texts(values: &[Option<&str>]) -> Column {
    Column::plain(text_values(values))
}

fn ids_struct(ids: Leaf) -> Column {
    let validity = vec![true; ids.len()];
    Column::Struct(StructColumn {
        fields: vec![Field::new(consts::ID, true)],
        children: vec![ids],
        validity,
    })
}

fn u16_ids(values: &[Option<u16>]) -> Column {
    ids_struct(Leaf::Plain(Scalars::UInt16(slots(values))))
}

/// Attributes that are all text, from (parent id, key, value) tuples.
fn text_attrs(rows: &[(u16, &str, &str)]) -> RecordBatch {
    batch(vec![
        (
            consts::PARENT_ID,
            u16s(&rows.iter().map(|r| Some(r.0)).collect::<Vec<_>>()),
        ),
        (
            consts::ATTRIBUTE_KEY,
            texts(&rows.iter().map(|r| Some(r.1)).collect::<Vec<_>>()),
        ),
        (consts::ATTRIBUTE_TYPE, u8s(&vec![STR; rows.len()])),
        (
            consts::ATTRIBUTE_STR,
            texts(&rows.iter().map(|r| Some(r.2)).collect::<Vec<_>>()),
        ),
    ])
}

/// Log records, each with the identifiers of its resource and scope.
fn logs(
    resource_attributes: &[(u16, &str, &str)],
    scope_attributes: &[(u16, &str, &str)],
    log_records: &[(u16, u16)],
) -> OtapArrowRecords {
    let mut records = OtapArrowRecords::empty(Signal::Logs);
    records.set(
        ArrowPayloadType::Logs,
        batch(vec![
            (
                consts::ID,
                u16s(&(0..log_records.len()).map(|i| Some(i as u16)).collect::<Vec<_>>()),
            ),
            (
                consts::RESOURCE,
                u16_ids(&log_records.iter().map(|r| Some(r.0)).collect::<Vec<_>>()),
            ),
            (
                consts::SCOPE,
                u16_ids(&log_records.iter().map(|r| Some(r.1)).collect::<Vec<_>>()),
            ),
        ]),
    );
    if !resource_attributes.is_empty() {
        records.set(ArrowPayloadType::ResourceAttrs, text_attrs(resource_attributes));
    }
    if !scope_attributes.is_empty() {
        records.set(ArrowPayloadType::ScopeAttrs, text_attrs(scope_attributes));
    }
    records
}

fn resolved(
    records: &OtapArrowRecords,
    target: ArrowPayloadType,
    scope: AttributeSourceScope,
    key: &str,
) -> Option<Scalars> {
    let values = resolve_source_values(records, target, scope, key).expect("resolve")?;
    assert_eq!(values.nested, None);
    Some(values.scalars)
}

/// Scenario: A resource attribute is read for every log record under that resource.
/// Guarantees: Each record receives the resource's value rather than a broadcast constant.
#[test]
fn resource_attribute_is_copied_onto_records() {
    let records = logs(
        &[(0, "service.instance.id", "instance-1")],
        &[],
        &[(0, 0), (0, 0)],
    );

    let values = resolved(
        &records,
        ArrowPayloadType::Logs,
        AttributeSourceScope::Resource,
        "service.instance.id",
    );

    assert_eq!(values, Some(text_values(&[Some("instance-1"), Some("instance-1")])));
}

/// Scenario: The source key is absent from the batch.
/// Guarantees: Nothing is resolved, rather than a column of nulls.
#[test]
fn a_missing_source_key_writes_nothing() {
    let records = logs(&[(0, "other", "x")], &[], &[(0, 0)]);

    let values = resolved(
        &records,
        ArrowPayloadType::Logs,
        AttributeSourceScope::Resource,
        "service.instance.id",
    );

    assert_eq!(values, None);
}

/// Scenario: A resource attribute is read for metric data points.
/// Guarantees: The value is resolved across two parent-id hops, data point to metric to
/// resource.
#[test]
fn resource_attribute_is_copied_onto_metric_data_points() {
    let mut records = OtapArrowRecords::empty(Signal::Metrics);
    records.set(
        ArrowPayloadType::UnivariateMetrics,
        batch(vec![
            (consts::ID, u16s(&[Some(0)])),
            (consts::NAME, texts(&[Some("cpu")])),
            (consts::RESOURCE, u16_ids(&[Some(0)])),
        ]),
    );
    records.set(
        ArrowPayloadType::NumberDataPoints,
        batch(vec![
            (consts::ID, u32s(&[Some(0), Some(1)])),
            (consts::PARENT_ID, u16s(&[Some(0), Some(0)])),
        ]),
    );
    records.set(
        ArrowPayloadType::ResourceAttrs,
        text_attrs(&[(0, "microsoft.pipeline.resourceId", "/subscriptions/x")]),
    );

    let values = resolved(
        &records,
        ArrowPayloadType::NumberDataPoints,
        AttributeSourceScope::Resource,
        "microsoft.pipeline.resourceId",
    );

    assert_eq!(
        values,
        Some(text_values(&[Some("/subscriptions/x"), Some("/subscriptions/x")]))
    );
}

/// Scenario: Records belong to different resources and scopes, some of which lack the key.
/// Guarantees: Each record gets the value of its own, and null where there is none.
#[test]
fn each_record_resolves_to_its_own_source() {
    let records = logs(
        &[(0, "host", "a"), (2, "host", "c"), (0, "other", "x")],
        &[(1, "node.id", "n1")],
        &[(2, 1), (0, 0), (1, 1)],
    );

    assert_eq!(
        resolved(&records, ArrowPayloadType::Logs, AttributeSourceScope::Resource, "host"),
        Some(text_values(&[Some("c"), Some("a"), None]))
    );
    assert_eq!(
        resolved(&records, ArrowPayloadType::Logs, AttributeSourceScope::Scope, "node.id"),
        Some(text_values(&[Some("n1"), None, Some("n1")]))
    );
}

/// Scenario: An attribute of the record itself is read.
/// Guarantees: It is found through the record's own identifier.
#[test]
fn record_attributes_resolve_through_the_record_id() {
    let mut records = logs(&[], &[], &[(0, 0), (0, 0)]);
    records.set(ArrowPayloadType::LogAttrs, text_attrs(&[(1, "k", "v")]));

    assert_eq!(
        resolved(&records, ArrowPayloadType::Logs, AttributeSourceScope::Record, "k"),
        Some(text_values(&[None, Some("v")]))
    );
}

/// Scenario: Exemplars of data points descend from metrics over two hops.
/// Guarantees: Rows without a known parent get nothing.
#[test]
fn exemplars_descend_over_two_hops() {
    let mut records = OtapArrowRecords::empty(Signal::Metrics);
    records.set(
        ArrowPayloadType::UnivariateMetrics,
        batch(vec![(consts::ID, u16s(&[Some(5), Some(6)]))]),
    );
    records.set(
        ArrowPayloadType::NumberDataPoints,
        batch(vec![
            (consts::ID, u32s(&[Some(10), Some(11), Some(12)])),
            (consts::PARENT_ID, u16s(&[Some(6), Some(9), Some(5)])),
        ]),
    );
    records.set(
        ArrowPayloadType::NumberDpExemplars,
        batch(vec![(
            consts::PARENT_ID,
            u32s(&[Some(12), Some(10), Some(11), None, Some(99)]),
        )]),
    );
    records.set(ArrowPayloadType::MetricAttrs, text_attrs(&[(6, "k", "six"), (5, "k", "five")]));

    assert_eq!(
        map_rows_to_root(
            &records,
            ArrowPayloadType::NumberDpExemplars,
            ArrowPayloadType::UnivariateMetrics
        ),
        Ok(Some(vec![Some(0), Some(1), None, None, None]))
    );
    assert_eq!(
        resolved(
            &records,
            ArrowPayloadType::NumberDpExemplars,
            AttributeSourceScope::Record,
            "k"
        ),
        Some(text_values(&[Some("five"), Some("six"), None, None, None]))
    );
}

/// Scenario: Rows are mapped to the root from payloads that have no way there.
/// Guarantees: Nothing is mapped; the root's own rows are their own.
#[test]
fn rows_map_to_the_root_only_along_parents() {
    let mut records = logs(&[(0, "k", "v")], &[], &[(0, 0), (0, 0)]);

    assert_eq!(
        map_rows_to_root(&records, ArrowPayloadType::Logs, ArrowPayloadType::Logs),
        Ok(Some(vec![Some(0), Some(1)]))
    );
    assert_eq!(
        map_rows_to_root(&records, ArrowPayloadType::ResourceAttrs, ArrowPayloadType::Logs),
        Ok(None)
    );
    assert_eq!(
        map_rows_to_root(&records, ArrowPayloadType::SpanEvents, ArrowPayloadType::Logs),
        Ok(None)
    );
    records.set(
        ArrowPayloadType::NumberDpExemplars,
        batch(vec![(consts::PARENT_ID, u32s(&[Some(0)]))]),
    );
    assert_eq!(
        map_rows_to_root(&records, ArrowPayloadType::NumberDpExemplars, ArrowPayloadType::Logs),
        Ok(None)
    );
}

/// Scenario: A key has values of several types.
/// Guarantees: Only values of the type of the first occurrence are copied.
#[test]
fn only_the_type_of_the_first_occurrence_is_copied() {
    let attrs = batch(vec![
        (consts::PARENT_ID, u16s(&[Some(0), Some(1), Some(2), None])),
        (consts::ATTRIBUTE_KEY, texts(&[Some("k"); 4])),
        (consts::ATTRIBUTE_TYPE, u8s(&[INT, STR, INT, INT])),
        (consts::ATTRIBUTE_STR, texts(&[None, Some("x"), None, None])),
        (
            consts::ATTRIBUTE_INT,
            Column::plain(Scalars::Int64(vec![Some(10), None, Some(30), Some(40)])),
        ),
    ]);
    let mut records = logs(&[], &[], &[(0, 0), (1, 0), (2, 0)]);
    records.set(ArrowPayloadType::ResourceAttrs, attrs.clone());

    assert_eq!(
        resolved(&records, ArrowPayloadType::Logs, AttributeSourceScope::Resource, "k"),
        Some(Scalars::Int64(vec![Some(10), None, Some(30)]))
    );
    let source = index_source_rows(&attrs, "k").expect("index").expect("source");
    assert_eq!(source.row_by_source_id.len(), 2);
    assert_eq!(source.row_by_source_id.get(&0), Some(&0));
    assert_eq!(source.row_by_source_id.get(&2), Some(&2));
}

/// Scenario: A key occurs twice for one resource.
/// Guarantees: The last occurrence is the one that is copied.
#[test]
fn the_last_value_of_a_key_wins() {
    let records = logs(&[(0, "k", "first"), (0, "k", "last")], &[], &[(0, 0)]);

    assert_eq!(
        resolved(&records, ArrowPayloadType::Logs, AttributeSourceScope::Resource, "k"),
        Some(text_values(&[Some("last")]))
    );
}

/// Scenario: Values of every scalar type are copied, some of them dictionary-encoded.
/// Guarantees: They come out plain, with their type and their nulls.
#[test]
fn values_of_every_scalar_type_are_copied() {
    let run = |code: u8, name: &str, column: Column| {
        let mut records = logs(&[], &[], &[(1, 0), (0, 0), (7, 0)]);
        records.set(
            ArrowPayloadType::ResourceAttrs,
            batch(vec![
                (consts::PARENT_ID, u16s(&[Some(0), Some(1)])),
                (consts::ATTRIBUTE_KEY, texts(&[Some("k"), Some("k")])),
                (consts::ATTRIBUTE_TYPE, u8s(&[code, code])),
                (name, column),
            ]),
        );
        resolved(&records, ArrowPayloadType::Logs, AttributeSourceScope::Resource, "k")
    };
    let dictionary = |values: Scalars| {
        Column::Leaf(Leaf::Dictionary(Dictionary {
            key: KeyType::UInt8,
            keys: vec![Some(1), Some(0)],
            values,
        }))
    };
    let wide = |values: Scalars| {
        Column::Leaf(Leaf::Dictionary(Dictionary {
            key: KeyType::UInt32,
            keys: vec![Some(1), Some(0)],
            values,
        }))
    };
    let pi = Double { bits: 3.25f64.to_bits() };

    assert_eq!(
        run(1, consts::ATTRIBUTE_STR, wide(text_values(&[Some("b"), Some("a")]))),
        Some(text_values(&[Some("b"), Some("a"), None]))
    );

    assert_eq!(
        run(1, consts::ATTRIBUTE_STR, dictionary(text_values(&[Some("b"), Some("a")]))),
        Some(text_values(&[Some("b"), Some("a"), None]))
    );
    assert_eq!(
        run(2, consts::ATTRIBUTE_INT, dictionary(Scalars::Int64(vec![Some(2), None]))),
        Some(Scalars::Int64(vec![Some(2), None, None]))
    );
    assert_eq!(
        run(3, consts::ATTRIBUTE_DOUBLE, Column::plain(Scalars::Float64(vec![None, Some(pi)]))),
        Some(Scalars::Float64(vec![Some(pi), None, None]))
    );
    assert_eq!(
        run(4, consts::ATTRIBUTE_BOOL, Column::plain(Scalars::Boolean(vec![Some(true), Some(false)]))),
        Some(Scalars::Boolean(vec![Some(false), Some(true), None]))
    );
    assert_eq!(
        run(7, consts::ATTRIBUTE_BYTES, dictionary(Scalars::Binary(vec![Some(vec![9]), Some(vec![])]))),
        Some(Scalars::Binary(vec![Some(vec![9]), Some(vec![]), None]))
    );
}

/// Scenario: A key's values are maps, lists or empty, or there is no column for them.
/// Guarantees: Nothing is resolved.
#[test]
fn values_without_a_scalar_column_resolve_to_nothing() {
    for code in [0u8, 5, 6, 2] {
        let mut records = logs(&[], &[], &[(0, 0)]);
        records.set(
            ArrowPayloadType::ResourceAttrs,
            batch(vec![
                (consts::PARENT_ID, u16s(&[Some(0)])),
                (consts::ATTRIBUTE_KEY, texts(&[Some("k")])),
                (consts::ATTRIBUTE_TYPE, u8s(&[code])),
                (consts::ATTRIBUTE_STR, texts(&[Some("x")])),
            ]),
        );
        assert_eq!(
            resolved(&records, ArrowPayloadType::Logs, AttributeSourceScope::Resource, "k"),
            None
        );
    }
}

/// Scenario: The value column of a key holds lists or structs.
/// Guarantees: The column is handed on, with the row of it that each record gets.
#[test]
fn lists_and_structs_are_carried_through() {
    let lists = Column::List(ListColumn {
        offsets: vec![0, 2, 2, 3],
        items: Items::Leaf(Leaf::Plain(text_values(&[Some("a"), Some("b"), Some("c")]))),
        item_nullable: true,
        validity: vec![true, false, true],
    });
    let structs = Column::Struct(StructColumn {
        fields: vec![Field::new("x", true)],
        children: vec![Leaf::Plain(Scalars::Int64(vec![Some(1), Some(2), Some(3)]))],
        validity: vec![true, false, true],
    });
    for column in [lists, structs] {
        let attrs = batch(vec![
            (consts::PARENT_ID, u16s(&[Some(0), Some(1), Some(2)])),
            (consts::ATTRIBUTE_KEY, texts(&[Some("k"); 3])),
            (consts::ATTRIBUTE_TYPE, u8s(&[STR; 3])),
            (consts::ATTRIBUTE_STR, column.clone()),
        ]);
        let source = index_source_rows(&attrs, "k").expect("index").expect("source");
        assert_eq!(
            source.values,
            SourceValues {
                scalars: Scalars::UInt64(vec![Some(0), None, Some(2)]),
                nested: Some(column.clone()),
            }
        );
        let mut records = logs(&[], &[], &[(2, 0), (1, 0), (0, 0), (9, 0)]);
        records.set(ArrowPayloadType::ResourceAttrs, attrs);
        assert_eq!(
            resolve_source_values(
                &records,
                ArrowPayloadType::Logs,
                AttributeSourceScope::Resource,
                "k"
            ),
            Ok(Some(SourceValues {
                scalars: Scalars::UInt64(vec![Some(2), None, Some(0), None]),
                nested: Some(column),
            }))
        );
    }
}

/// Scenario: No target row resolves to an attribute row, or the target has no rows.
/// Guarantees: Nothing is resolved.
#[test]
fn targets_without_a_matching_row_resolve_to_nothing() {
    let records = logs(&[(0, "k", "x")], &[], &[(5, 0), (6, 0)]);
    assert_eq!(
        resolved(&records, ArrowPayloadType::Logs, AttributeSourceScope::Resource, "k"),
        None
    );
    let records = logs(&[(0, "k", "x")], &[], &[]);
    assert_eq!(
        resolved(&records, ArrowPayloadType::Logs, AttributeSourceScope::Resource, "k"),
        None
    );
}

/// Scenario: A row that carries the key has a value type that no code stands for.
/// Guarantees: The code is reported; rows of other keys do not matter.
#[test]
fn an_unknown_value_type_is_reported() {
    let attrs = |key: &str| {
        batch(vec![
            (consts::PARENT_ID, u16s(&[Some(0), Some(0)])),
            (consts::ATTRIBUTE_KEY, texts(&[Some("k"), Some(key)])),
            (consts::ATTRIBUTE_TYPE, u8s(&[STR, 19])),
            (consts::ATTRIBUTE_STR, texts(&[Some("x"), None])),
        ])
    };
    let mut records = logs(&[], &[], &[(0, 0)]);
    records.set(ArrowPayloadType::ResourceAttrs, attrs("k"));

    let error = resolve_source_values(
        &records,
        ArrowPayloadType::Logs,
        AttributeSourceScope::Resource,
        "k",
    )
    .expect_err("unknown type");
    assert_eq!(error, Error::UnknownAttributeValueType { code: 19 });
    assert_eq!(
        error.unexpected_state_reason().as_deref(),
        Some("unknown attribute value type 19")
    );
    assert_eq!(Error::ColumnLengthMismatch.unexpected_state_reason(), None);

    records.set(ArrowPayloadType::ResourceAttrs, attrs("other"));
    assert_eq!(
        resolved(&records, ArrowPayloadType::Logs, AttributeSourceScope::Resource, "k"),
        Some(text_values(&[Some("x")]))
    );
}

/// Scenario: Identifiers come in unsigned columns of every width, plain and dictionary-encoded.
/// Guarantees: They are matched by value.
#[test]
fn identifiers_of_every_width_are_joined() {
    let ids: Vec<Leaf> = vec![
        Leaf::Plain(Scalars::UInt8(slots(&[Some(7u8), None, Some(3)]))),
        Leaf::Plain(Scalars::UInt16(slots(&[Some(7u16), None, Some(3)]))),
        Leaf::Plain(Scalars::UInt32(vec![Some(7), None, Some(3)])),
        Leaf::Plain(Scalars::UInt64(vec![Some(7), None, Some(3)])),
        Leaf::Dictionary(Dictionary {
            key: KeyType::UInt8,
            keys: vec![Some(0), None, Some(1)],
            values: Scalars::UInt32(vec![Some(7), Some(3)]),
        }),
        Leaf::Dictionary(Dictionary {
            key: KeyType::Int32,
            keys: vec![Some(0), None, Some(1)],
            values: Scalars::UInt16(slots(&[Some(7u16), Some(3)])),
        }),
    ];
    for leaf in ids {
        let mut records = OtapArrowRecords::empty(Signal::Traces);
        records.set(
            ArrowPayloadType::Spans,
            batch(vec![(consts::ID, u16s(&[None; 3])), (consts::RESOURCE, ids_struct(leaf))]),
        );
        records.set(ArrowPayloadType::ResourceAttrs, text_attrs(&[(3, "k", "x"), (7, "k", "y")]));
        assert_eq!(
            resolved(&records, ArrowPayloadType::Spans, AttributeSourceScope::Resource, "k"),
            Some(text_values(&[Some("y"), None, Some("x")]))
        );
    }
}

/// Scenario: Identifier columns are missing or not unsigned integers.
/// Guarantees: A missing resource resolves nothing, a column of another type is reported.
#[test]
fn identifiers_of_other_types_are_reported() {
    let root = |columns: Vec<(&str, Column)>| {
        let mut records = OtapArrowRecords::empty(Signal::Logs);
        records.set(ArrowPayloadType::Logs, batch(columns));
        records.set(ArrowPayloadType::ResourceAttrs, text_attrs(&[(0, "k", "x")]));
        records.set(ArrowPayloadType::LogAttrs, text_attrs(&[(0, "k", "x")]));
        records
    };
    let resolve = |records: &OtapArrowRecords, scope| {
        resolve_source_values(records, ArrowPayloadType::Logs, scope, "k")
    };
    let mismatch = |actual| {
        Err(Error::ColumnDataTypeMismatch {
            name: consts::ID,
            expect: DataType::Scalar(ScalarType::UInt64),
            actual,
        })
    };

    let bare = root(vec![("body", texts(&[Some("a")]))]);
    assert_eq!(resolve(&bare, AttributeSourceScope::Resource), Ok(None));
    assert_eq!(
        resolve(&bare, AttributeSourceScope::Record),
        Err(Error::ColumnNotFound { name: consts::ID })
    );

    let without_id = root(vec![(
        consts::RESOURCE,
        Column::Struct(StructColumn {
            fields: vec![Field::new("schema_url", true)],
            children: vec![Leaf::Plain(text_values(&[None]))],
            validity: vec![true],
        }),
    )]);
    assert_eq!(resolve(&without_id, AttributeSourceScope::Resource), Ok(None));

    let signed = root(vec![
        (consts::RESOURCE, ids_struct(Leaf::Plain(Scalars::Int64(vec![Some(0)])))),
        (consts::ID, u16_ids(&[Some(0)])),
    ]);
    assert_eq!(
        resolve(&signed, AttributeSourceScope::Resource),
        mismatch(DataType::Scalar(ScalarType::Int64))
    );
    assert_eq!(resolve(&signed, AttributeSourceScope::Record), mismatch(DataType::Struct));

    let texts_of_dictionary = root(vec![(
        consts::RESOURCE,
        ids_struct(Leaf::Dictionary(Dictionary {
            key: KeyType::UInt16,
            keys: vec![Some(0)],
            values: text_values(&[Some("0")]),
        })),
    )]);
    assert_eq!(
        resolve(&texts_of_dictionary, AttributeSourceScope::Resource),
        mismatch(DataType::Scalar(ScalarType::Utf8))
    );
}

/// Scenario: The attributes batch lacks a column, or one has the wrong type.
/// Guarantees: The first that is read and wrong is reported.
#[test]
fn attributes_that_cannot_be_read_are_reported() {
    let run = |columns: Vec<(&str, Column)>| index_source_rows(&batch(columns), "k").map(|_| ());
    let key = || (consts::ATTRIBUTE_KEY, texts(&[Some("k")]));

    assert_eq!(
        run(vec![(consts::PARENT_ID, u16s(&[Some(0)]))]),
        Err(Error::ColumnNotFound { name: consts::ATTRIBUTE_KEY })
    );
    assert_eq!(
        run(vec![(consts::ATTRIBUTE_KEY, u8s(&[1]))]),
        Err(Error::UnsupportedStringColumnType { data_type: DataType::Scalar(ScalarType::UInt8) })
    );
    assert_eq!(
        run(vec![key(), (consts::ATTRIBUTE_TYPE, u16s(&[Some(1)]))]),
        Err(Error::ColumnDataTypeMismatch {
            name: consts::ATTRIBUTE_TYPE,
            expect: DataType::Scalar(ScalarType::UInt8),
            actual: DataType::Scalar(ScalarType::UInt16),
        })
    );
    assert_eq!(
        run(vec![key(), (consts::ATTRIBUTE_TYPE, u8s(&[1]))]),
        Err(Error::ColumnNotFound { name: consts::PARENT_ID })
    );
}

/// Scenario: The source payload cannot be decoded from its transport encoding.
/// Guarantees: The error comes out, unless a payload before it is missing.
#[test]
fn a_source_that_cannot_be_decoded_is_reported() {
    let mut records = logs(&[], &[], &[(0, 0)]);
    records.put(
        ArrowPayloadType::ResourceAttrs,
        Payload {
            stored: text_attrs(&[(0, "k", "x")]),
            decoded: Some(Err(Error::ColumnLengthMismatch)),
        },
    );

    assert_eq!(
        resolve_source_values(
            &records,
            ArrowPayloadType::Logs,
            AttributeSourceScope::Resource,
            "k"
        ),
        Err(Error::ColumnLengthMismatch)
    );
    assert_eq!(
        resolve_source_values(&records, ArrowPayloadType::Logs, AttributeSourceScope::Scope, "k"),
        Ok(None)
    );
}

/// Scenario: Identifiers are indexed.
/// Guarantees: The last row of each wins, rows without identifier are left out.
#[test]
fn identifiers_are_indexed_by_their_last_row() {
    let index = id_index(&vec![Some(4), None, Some(5), Some(4)]);

    assert_eq!(index.len(), 2);
    assert_eq!(index.get(&4), Some(&3));
    assert_eq!(index.get(&5), Some(&2));
}

/// Scenario: Payloads are related to each other.
/// Guarantees: Sources and parents are those of the OTAP data model.
#[test]
fn payload_relations_follow_the_data_model() {
    let record = |root| source_attrs_payload_type(AttributeSourceScope::Record, root);
    assert_eq!(record(ArrowPayloadType::Logs), Some(ArrowPayloadType::LogAttrs));
    assert_eq!(record(ArrowPayloadType::Spans), Some(ArrowPayloadType::SpanAttrs));
    assert_eq!(record(ArrowPayloadType::UnivariateMetrics), Some(ArrowPayloadType::MetricAttrs));
    assert_eq!(record(ArrowPayloadType::MultivariateMetrics), Some(ArrowPayloadType::MetricAttrs));
    assert_eq!(record(ArrowPayloadType::SpanEvents), None);
    assert_eq!(
        source_attrs_payload_type(AttributeSourceScope::Resource, ArrowPayloadType::Unknown),
        Some(ArrowPayloadType::ResourceAttrs)
    );
    assert_eq!(
        source_attrs_payload_type(AttributeSourceScope::Scope, ArrowPayloadType::Unknown),
        Some(ArrowPayloadType::ScopeAttrs)
    );

    assert_eq!(parent_payload_type(ArrowPayloadType::SpanLinks, ArrowPayloadType::Spans), Some(ArrowPayloadType::Spans));
    assert_eq!(
        parent_payload_type(ArrowPayloadType::SummaryDataPoints, ArrowPayloadType::UnivariateMetrics),
        Some(ArrowPayloadType::UnivariateMetrics)
    );
    assert_eq!(
        parent_payload_type(ArrowPayloadType::HistogramDpExemplars, ArrowPayloadType::UnivariateMetrics),
        Some(ArrowPayloadType::HistogramDataPoints)
    );
    assert_eq!(
        parent_payload_type(ArrowPayloadType::ExpHistogramDpExemplars, ArrowPayloadType::UnivariateMetrics),
        Some(ArrowPayloadType::ExpHistogramDataPoints)
    );
    assert_eq!(parent_payload_type(ArrowPayloadType::LogAttrs, ArrowPayloadType::Logs), None);

    assert_eq!(scalar_value_column(AttributeValueType::Bytes), Some("bytes"));
    assert_eq!(scalar_value_column(AttributeValueType::Double), Some("double"));
    assert_eq!(scalar_value_column(AttributeValueType::Slice), None);
    assert_eq!(AttributeValueType::from_code(5), Some(AttributeValueType::MapValue));
    assert_eq!(AttributeValueType::from_code(8), None);
}
