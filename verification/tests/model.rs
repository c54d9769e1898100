use otap_transform::column::{
    Column, Dictionary, Field, Items, KeyType, Leaf, ListColumn, ScalarType, Scalars, Slot,
    StructColumn,
};
use otap_transform::double::Double;
use otap_transform::error::Error;
use otap_transform::kernels::{decode_dictionary, take_rows, widen};
use otap_transform::payload::ArrowPayloadType;
use otap_transform::records::{OtapArrowRecords, Payload, RecordBatch, Signal, StringArrayAccessor};

fn texts(values: &[Option<&str>]) -> Scalars {
    Scalars::Utf8(values.iter().map(|v| v.map(str::to_owned)).collect())
}

/// Scenario: Dictionaries of every value type are unpacked.
/// Guarantees: Each row gets the value its key names, nothing where key or value is null.
#[test]
fn dictionaries_are_unpacked() {
    let unpack = |values: Scalars| {
        decode_dictionary(&Dictionary {
            key: KeyType::UInt16,
            keys: vec![Some(1), None, Some(0), Some(1)],
            values,
        })
    };
    let d = |x: f64| Double { bits: x.to_bits() };
    let slot = |x: u8| Slot { valid: true, value: x };

    assert_eq!(
        unpack(texts(&[None, Some("b")])),
        Ok(texts(&[Some("b"), None, None, Some("b")]))
    );
    assert_eq!(
        unpack(Scalars::Binary(vec![Some(vec![1, 2]), Some(vec![])])),
        Ok(Scalars::Binary(vec![Some(vec![]), None, Some(vec![1, 2]), Some(vec![])]))
    );
    assert_eq!(
        unpack(Scalars::Boolean(vec![Some(true), Some(false)])),
        Ok(Scalars::Boolean(vec![Some(false), None, Some(true), Some(false)]))
    );
    assert_eq!(
        unpack(Scalars::Float64(vec![Some(d(1.5)), Some(d(-0.0))])),
        Ok(Scalars::Float64(vec![Some(d(-0.0)), None, Some(d(1.5)), Some(d(-0.0))]))
    );
    assert_eq!(
        unpack(Scalars::Other(9, vec![Some(77), Some(88)])),
        Ok(Scalars::Other(9, vec![Some(88), None, Some(77), Some(88)]))
    );
    assert_eq!(
        unpack(Scalars::UInt8(vec![slot(3), slot(4)])),
        Ok(Scalars::UInt8(vec![slot(4), Slot { valid: false, value: 0 }, slot(3), slot(4)]))
    );
    assert_eq!(
        unpack(Scalars::UInt64(vec![Some(3), Some(u64::MAX)])),
        Ok(Scalars::UInt64(vec![Some(u64::MAX), None, Some(3), Some(u64::MAX)]))
    );
}

/// Scenario: Dictionaries with keys of every type are unpacked and checked.
/// Guarantees: Keys name values whatever their width, and none beyond it.
#[test]
fn dictionaries_have_keys_of_every_type() {
    let widths = [
        (KeyType::Int8, 0x7fu64),
        (KeyType::Int16, 0x7fff),
        (KeyType::Int32, 0x7fff_ffff),
        (KeyType::Int64, 0x7fff_ffff_ffff_ffff),
        (KeyType::UInt8, 0xff),
        (KeyType::UInt16, 0xffff),
        (KeyType::UInt32, 0xffff_ffff),
        (KeyType::UInt64, u64::MAX),
    ];
    for (key, largest) in widths {
        assert_eq!(key.largest_key(), largest);
        let dictionary = |code: u64, values: usize| Dictionary {
            key,
            keys: vec![Some(code), None],
            values: Scalars::UInt64((0..values as u64).map(Some).collect()),
        };
        assert_eq!(
            decode_dictionary(&dictionary(100, 101)),
            Ok(Scalars::UInt64(vec![Some(100), None]))
        );
        assert!(Leaf::Dictionary(dictionary(100, 101)).is_wf());
        assert!(!Leaf::Dictionary(dictionary(101, 101)).is_wf());
        assert_eq!(Leaf::Dictionary(dictionary(300, 400)).is_wf(), largest >= 300);
        let texts = Column::Leaf(Leaf::Dictionary(Dictionary {
            key,
            keys: vec![Some(0)],
            values: texts(&[Some("x")]),
        }));
        let short = key == KeyType::UInt8 || key == KeyType::UInt16;
        assert_eq!(StringArrayAccessor::try_new(&texts).is_ok(), short);
    }
}

/// Scenario: Unsigned columns of every width are widened.
/// Guarantees: Values and nulls are kept.
#[test]
fn unsigned_columns_are_widened() {
    let null = Slot { valid: false, value: 5 };
    assert_eq!(
        widen(&Scalars::UInt8(vec![Slot { valid: true, value: 255 }, null])),
        Ok(vec![Some(255), None])
    );
    assert_eq!(
        widen(&Scalars::UInt16(vec![Slot { valid: true, value: 65535 }])),
        Ok(vec![Some(65535)])
    );
    assert_eq!(widen(&Scalars::UInt32(vec![None, Some(u32::MAX)])), Ok(vec![None, Some(4294967295)]));
    assert_eq!(widen(&Scalars::UInt64(vec![Some(u64::MAX)])), Ok(vec![Some(u64::MAX)]));
}

/// Scenario: Rows are picked out of columns.
/// Guarantees: Each index gives the value in that row, and null where there is none.
#[test]
fn rows_are_picked() {
    let indices = vec![Some(2), None, Some(0), Some(0)];
    assert_eq!(
        take_rows(&texts(&[Some("a"), Some("b"), None]), &indices),
        Ok(texts(&[None, None, Some("a"), Some("a")]))
    );
    assert_eq!(
        take_rows(&Scalars::Int64(vec![Some(-1), Some(2), Some(3)]), &indices),
        Ok(Scalars::Int64(vec![Some(3), None, Some(-1), Some(-1)]))
    );
    assert_eq!(
        take_rows(&Scalars::UInt32(vec![Some(1), Some(2), Some(3)]), &vec![]),
        Ok(Scalars::UInt32(vec![]))
    );
    assert_eq!(
        take_rows(&Scalars::UInt16(vec![Slot { valid: true, value: 8 }]), &vec![Some(0)]),
        Ok(Scalars::UInt16(vec![Slot { valid: true, value: 8 }]))
    );
}

/// Scenario: Batches are put together from parts that do not fit.
/// Guarantees: They are refused.
#[test]
fn batches_of_unfit_parts_are_refused() {
    let try_new = |columns: Vec<Column>, names: usize| {
        let fields = (0..names).map(|i| Field::new(&format!("c{i}"), true)).collect();
        RecordBatch::try_new(fields, columns).map(|batch| batch.num_rows())
    };
    let plain = |rows: usize| Column::plain(Scalars::Int64(vec![None; rows]));
    let list = |offsets: Vec<usize>, rows: usize| {
        Column::List(ListColumn {
            offsets,
            items: Items::Leaf(Leaf::Plain(Scalars::Int64(vec![None; 3]))),
            item_nullable: true,
            validity: vec![true; rows],
        })
    };
    let refused = Err(Error::ColumnLengthMismatch);

    assert_eq!(try_new(vec![plain(2), list(vec![0, 1, 3], 2)], 2), Ok(2));
    assert_eq!(try_new(vec![], 0), refused);
    assert_eq!(try_new(vec![plain(2)], 2), refused);
    assert_eq!(try_new(vec![plain(2), plain(3)], 2), refused);
    assert_eq!(try_new(vec![list(vec![0, 4], 1)], 1), refused);
    assert_eq!(try_new(vec![list(vec![1, 0], 1)], 1), refused);
    assert_eq!(try_new(vec![list(vec![0, 1], 2)], 1), refused);
    let dictionary = |key, code: u64, values: usize| {
        Column::Leaf(Leaf::Dictionary(Dictionary {
            key,
            keys: vec![Some(code)],
            values: Scalars::Int64(vec![None; values]),
        }))
    };
    assert_eq!(try_new(vec![dictionary(KeyType::UInt8, 1, 2)], 1), Ok(1));
    assert_eq!(try_new(vec![dictionary(KeyType::UInt8, 2, 2)], 1), refused);
    let uneven = Column::Struct(StructColumn {
        fields: vec![Field::new("a", true)],
        children: vec![Leaf::Plain(Scalars::Int64(vec![None]))],
        validity: vec![true, true],
    });
    assert_eq!(try_new(vec![uneven], 1), refused);
}

/// Scenario: Columns of a batch are looked up.
/// Guarantees: The first of a name is found, and typed reads say what is wrong.
#[test]
fn columns_are_looked_up_by_name() {
    let first = Column::plain(Scalars::UInt16(vec![Slot { valid: true, value: 1 }]));
    let second = Column::plain(texts(&[Some("x")]));
    let batch = RecordBatch::try_new(
        vec![Field::new("id", true), Field::new("id", true)],
        vec![first.clone(), second.clone()],
    )
    .expect("batch");

    assert_eq!(batch.column_by_name("id"), Some(&first));
    assert_eq!(batch.column_by_name("ID"), None);
    assert_eq!(batch.get_required_array("nope"), Err(Error::ColumnNotFound { name: "nope" }));
    assert!(batch.get_u16_array("id").is_ok());
    assert!(batch.get_u8_array("id").is_err());
    let accessor = StringArrayAccessor::try_new(&second).expect("text");
    assert_eq!(accessor.value_at(0).map(String::as_str), Some("x"));
    assert!(StringArrayAccessor::try_new(&first).is_err());
    assert_eq!(batch.duplicate(), batch);
}

/// Scenario: Payloads are put into messages of every kind.
/// Guarantees: Each is found under its own type, as stored and as decoded.
#[test]
fn payloads_are_kept_apart() {
    let batch = |rows: usize| {
        RecordBatch::try_new(
            vec![Field::new("a", true)],
            vec![Column::plain(Scalars::Boolean(vec![None; rows]))],
        )
        .expect("batch")
    };
    let other = RecordBatch::try_new(
        vec![Field::new("b", true)],
        vec![Column::plain(Scalars::Boolean(vec![Some(true); 2]))],
    )
    .expect("batch");
    let roots = [
        (Signal::Logs, ArrowPayloadType::Logs),
        (Signal::Metrics, ArrowPayloadType::UnivariateMetrics),
        (Signal::MultivariateMetrics, ArrowPayloadType::MultivariateMetrics),
        (Signal::Traces, ArrowPayloadType::Spans),
    ];
    for (signal, root) in roots {
        let mut records = OtapArrowRecords::empty(signal);
        assert_eq!(records.root_payload_type(), root);
        assert_eq!(records.get(root), None);
        records.set(root, batch(1));
        records.put(
            ArrowPayloadType::SpanLinks,
            Payload { stored: batch(2), decoded: Some(Ok(other.clone())) },
        );
        let links = records.get(ArrowPayloadType::SpanLinks).expect("links");
        assert_eq!(links.stored.num_rows(), 2);
        let decoded = links.remove_transport_optimized_encodings().expect("decoded");
        assert_eq!(decoded, &other);
        assert_ne!(decoded, &links.stored);
        let plain = records.get(root).expect("root");
        assert_eq!(plain.remove_transport_optimized_encodings(), Ok(&batch(1)));
        assert_eq!(records.get(ArrowPayloadType::SpanEvents), None);
    }
}

/// Scenario: Columns are asked for their type and length.
/// Guarantees: Both are those of their values.
#[test]
fn columns_know_their_type() {
    let scalars = Scalars::Binary(vec![None, Some(vec![1])]);
    assert_eq!(scalars.scalar_type(), ScalarType::Binary);
    assert_eq!(scalars.len(), 2);
    assert!(scalars.fits());
    assert_eq!(scalars.duplicate(), scalars);
}
