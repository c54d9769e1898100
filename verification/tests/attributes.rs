use otap_transform::attributes::{
    config_map_to_telemetry, config_to_telemetry_attr, intern_custom_descriptor, AttributeMap,
    AttributeSetHandler, AttributeValue, AttributeValueType, ChannelImplementation, ChannelKind,
    ChannelMode, ChannelType, ConfigEntry, ConfigValue, CustomAttributeSet, DescriptorTable,
    EngineAttributeSet, EngineEntityAttributeSet, ExtensionAttributeSet,
    ExtensionChannelAttributeSet, ExtensionScopeAttributeSet, NodeAttributeSet,
    NodeChannelAttributeSet, NodeWithCustomAttributeSet, NodeWithCustomChannelAttributeSet,
    NodeWithCustomTopicAttributeSet, NodeWithTopicAttributeSet, PipelineAttributeSet,
    TelemetryAttribute,
};
use otap_transform::double::Double;
use std::collections::BTreeMap;
use std::sync::Arc;

fn write_double(value: Double) -> String {
    format!("{}", f64::from_bits(value.bits))
}

fn text(value: &AttributeValue) -> String {
    value.to_string_value(&write_double)
}

fn emitted<S: AttributeSetHandler>(set: &S) -> Vec<(String, String)> {
    set.iter_attributes().into_iter().map(|(key, value)| (key, text(&value))).collect()
}

fn keys<S: AttributeSetHandler>(set: &S) -> Vec<String> {
    set.descriptor().fields.iter().map(|field| field.key.clone()).collect()
}

fn custom(entries: &[(&str, AttributeValue)]) -> AttributeMap {
    let mut map = AttributeMap::new();
    for (key, value) in entries {
        map.insert((*key).to_owned(), value.clone());
    }
    map
}

fn pipeline() -> PipelineAttributeSet {
    PipelineAttributeSet {
        pipeline_id: "p".into(),
        engine_attrs: EngineAttributeSet { core_id: 3, numa_node_id: 1 },
        pipeline_group_id: "g".into(),
        deployment_generation: 9,
    }
}

/// Distinct `(group, pipeline)` pairs must not collide on attribute values: flattening into a
/// single `/`-separated string allows two real scopes to register the same telemetry entity.
#[test]
fn pipeline_scope_ids_are_unambiguous_across_group_pipeline_splits() {
    let a = ExtensionScopeAttributeSet::pipeline(PipelineAttributeSet {
        pipeline_group_id: "a/b".into(),
        pipeline_id: "c".into(),
        ..PipelineAttributeSet::default()
    });
    let b = ExtensionScopeAttributeSet::pipeline(PipelineAttributeSet {
        pipeline_group_id: "a".into(),
        pipeline_id: "b/c".into(),
        ..PipelineAttributeSet::default()
    });
    let a_values = a.attribute_values();
    let b_values = b.attribute_values();
    assert_ne!(a_values, b_values);
}

/// Scenario: A node declares custom telemetry attributes in its config.
/// Guarantees: Each configured key is emitted as its own top-level attribute, preserving its
/// value type, rather than nested under a single map.
#[test]
fn custom_attributes_are_emitted_as_individual_attributes() {
    let mut custom = AttributeMap::new();
    custom.insert("component.name".to_string(), AttributeValue::String("otlp-in".into()));
    custom.insert("replica.index".to_string(), AttributeValue::Int(3));

    let attrs = CustomAttributeSet::new(custom, &mut DescriptorTable::new());

    let emitted: Vec<(String, String)> = attrs
        .iter_attributes()
        .into_iter()
        .map(|(key, value)| (key, value.to_string_value(&write_double)))
        .collect();
    assert_eq!(
        emitted,
        vec![
            ("component.name".to_string(), "otlp-in".to_string()),
            ("replica.index".to_string(), "3".to_string()),
        ]
    );
    assert_eq!(
        attrs.descriptor().fields.iter().map(|field| field.value_type).collect::<Vec<_>>(),
        vec![AttributeValueType::String, AttributeValueType::Int]
    );
}

/// Scenario: Two nodes are configured with the same custom attribute keys and types.
/// Guarantees: The interned descriptor is reused, so repeated construction does not make a new
/// descriptor per node.
#[test]
fn custom_attribute_descriptors_are_interned_per_key_shape() {
    let mut table = DescriptorTable::new();
    let mut shape = |value: &str| {
        let mut custom = AttributeMap::new();
        custom.insert("region".to_string(), AttributeValue::String(value.into()));
        CustomAttributeSet::new(custom, &mut table)
    };

    assert!(std::ptr::eq(
        Arc::as_ptr(&shape("eastus").descriptor()),
        Arc::as_ptr(&shape("westus").descriptor())
    ));
    assert_eq!(table.len(), 1);
}

/// Scenario: A node has no custom telemetry attributes configured.
/// Guarantees: No attributes are emitted at all, so entities stay free of empty placeholder
/// attributes.
#[test]
fn empty_custom_attributes_emit_nothing() {
    let attrs = CustomAttributeSet::default();

    assert_eq!(attrs.iter_attributes().len(), 0);
    assert!(attrs.descriptor().fields.is_empty());
}

/// Scenario: Channel entity dimensions are represented by closed enum value sets.
/// Guarantees: Their cardinalities and exported lowercase values remain stable.
#[test]
fn channel_attribute_enums_have_stable_values() {
    assert_eq!(ChannelKind::CARDINALITY, 2);
    assert_eq!(&ChannelKind::VARIANTS, &["control", "pdata"]);
    assert_eq!(ChannelMode::CARDINALITY, 2);
    assert_eq!(&ChannelMode::VARIANTS, &["local", "shared"]);
    assert_eq!(ChannelType::CARDINALITY, 2);
    assert_eq!(&ChannelType::VARIANTS, &["mpsc", "mpmc"]);
    assert_eq!(ChannelImplementation::CARDINALITY, 3);
    assert_eq!(&ChannelImplementation::VARIANTS, &["internal", "tokio", "flume"]);
}

/// Scenario: A node channel entity is built from typed channel dimensions.
/// Guarantees: Scope attributes retain their established keys and string values.
#[test]
fn node_channel_attribute_enums_serialize_as_scope_strings() {
    let attrs = NodeChannelAttributeSet {
        channel_id: "channel-a".into(),
        node_attrs: NodeAttributeSet::default(),
        node_port: "output".into(),
        channel_kind: ChannelKind::Pdata,
        channel_mode: ChannelMode::Shared,
        channel_type: ChannelType::Mpmc,
        channel_impl: ChannelImplementation::Flume,
    };
    let attr_map: BTreeMap<String, String> = attrs
        .iter_attributes()
        .into_iter()
        .map(|(key, value)| (key, value.to_string_value(&write_double)))
        .collect();

    assert_eq!(attr_map.get("channel.kind").map(String::as_str), Some("pdata"));
    assert_eq!(attr_map.get("channel.mode").map(String::as_str), Some("shared"));
    assert_eq!(attr_map.get("channel.type").map(String::as_str), Some("mpmc"));
    assert_eq!(attr_map.get("channel.impl").map(String::as_str), Some("flume"));
    assert_eq!(attr_map.get("channel.id").map(String::as_str), Some("channel-a"));
    assert_eq!(attr_map.get("node.port").map(String::as_str), Some("output"));
}

/// Scenario: Sets are composed of others.
/// Guarantees: Composed attributes stand in the place of the field that holds them.
#[test]
fn composed_attributes_stand_in_place() {
    let node = NodeAttributeSet {
        node_id: "n".into(),
        pipeline_attrs: pipeline(),
        node_urn: "urn".into(),
        node_type: "processor".into(),
    };
    let own = |pairs: &[(&str, &str)]| -> Vec<(String, String)> {
        pairs.iter().map(|(k, v)| ((*k).to_owned(), (*v).to_owned())).collect()
    };
    let node_pairs = [
        ("node.id", "n"),
        ("pipeline.id", "p"),
        ("core.id", "3"),
        ("numa.node.id", "1"),
        ("pipeline.group.id", "g"),
        ("deployment.generation", "9"),
        ("node.urn", "urn"),
        ("node.type", "processor"),
    ];
    assert_eq!(emitted(&node), own(&node_pairs));
    assert_eq!(node.descriptor().name, "node.attrs");

    let topic = NodeWithTopicAttributeSet { node_attrs: node.clone(), topic: "t".into() };
    let mut expected = own(&node_pairs);
    expected.push(("topic".to_owned(), "t".to_owned()));
    assert_eq!(emitted(&topic), expected);
    assert_eq!(topic.descriptor().name, "node.topic.attrs");

    let custom_attrs =
        CustomAttributeSet::new(custom(&[("zone", AttributeValue::UInt(4))]), &mut DescriptorTable::new());
    let with_custom = NodeWithCustomAttributeSet { node_attrs: node.clone(), custom_attrs };
    let mut expected = own(&node_pairs);
    expected.push(("zone".to_owned(), "4".to_owned()));
    assert_eq!(emitted(&with_custom), expected);
    assert_eq!(with_custom.descriptor().name, "node.custom.attrs");

    let both = NodeWithCustomTopicAttributeSet { node_custom_attrs: with_custom, topic: "t".into() };
    expected.push(("topic".to_owned(), "t".to_owned()));
    assert_eq!(emitted(&both), expected);
    assert_eq!(both.descriptor().name, "node.custom.topic.attrs");
}

/// Scenario: Extension and channel sets are described.
/// Guarantees: Names and keys stay as they are.
#[test]
fn descriptors_list_names_and_keys() {
    let extension = ExtensionAttributeSet {
        extension_id: "e".into(),
        extension_scope: ExtensionScopeAttributeSet::pipeline(pipeline()),
        extension_variant: "shared".into(),
    };
    assert_eq!(
        keys(&extension),
        vec![
            "extension.id",
            "scope.kind",
            "pipeline.id",
            "core.id",
            "numa.node.id",
            "pipeline.group.id",
            "deployment.generation",
            "extension.variant",
        ]
    );
    let channel = ExtensionChannelAttributeSet {
        channel_id: "c".into(),
        extension_attrs: extension,
        channel_mode: ChannelMode::Local,
        channel_impl: ChannelImplementation::Tokio,
    };
    let pairs = emitted(&channel);
    assert_eq!(pairs.len(), 11);
    assert_eq!(pairs[2], ("scope.kind".to_owned(), "pipeline".to_owned()));
    assert_eq!(pairs[9], ("channel.mode".to_owned(), "local".to_owned()));
    assert_eq!(pairs[10], ("channel.impl".to_owned(), "tokio".to_owned()));
    assert_eq!(channel.descriptor().name, "extension.channel.attrs");

    let engine = EngineAttributeSet { core_id: 0, numa_node_id: 0 };
    assert_eq!(engine.descriptor().name, "controller.attrs");
    assert_eq!(engine.descriptor().fields[0].brief, "Core identifier.");
    assert_eq!(engine.descriptor().fields[0].value_type, AttributeValueType::Int);
    let entity = EngineEntityAttributeSet;
    assert_eq!(entity.descriptor().name, "engine");
    assert!(entity.attribute_values().is_empty());

    let node_channel = NodeWithCustomChannelAttributeSet {
        channel_attrs: NodeChannelAttributeSet {
            channel_id: "c".into(),
            node_attrs: NodeAttributeSet::default(),
            node_port: "in".into(),
            channel_kind: ChannelKind::Control,
            channel_mode: ChannelMode::Local,
            channel_type: ChannelType::Mpsc,
            channel_impl: ChannelImplementation::Internal,
        },
        custom_attrs: CustomAttributeSet::default(),
    };
    assert_eq!(node_channel.descriptor().name, "node.channel.custom.attrs");
    assert_eq!(keys(&node_channel).len(), 14);
}

/// Scenario: Scopes are made by their constructor and by default.
/// Guarantees: Only the former is an identity; copies keep everything.
#[test]
fn only_constructed_scopes_are_identities() {
    let scope = ExtensionScopeAttributeSet::pipeline(pipeline());
    assert!(scope.is_identity());
    assert_eq!(scope.clone().attribute_values(), scope.attribute_values());
    let blank = ExtensionScopeAttributeSet::default();
    assert!(!blank.is_identity());
    assert_eq!(blank.attribute_values()[0], AttributeValue::String("".into()));
}

/// Scenario: Configured values of every type are converted.
/// Guarantees: Types are preserved, arrays become text.
#[test]
fn configured_values_keep_their_type() {
    let pi = Double { bits: 3.5f64.to_bits() };
    assert_eq!(
        config_to_telemetry_attr(&ConfigValue::String("s".into())),
        AttributeValue::String("s".into())
    );
    assert_eq!(config_to_telemetry_attr(&ConfigValue::Bool(true)), AttributeValue::Boolean(true));
    assert_eq!(config_to_telemetry_attr(&ConfigValue::I64(-4)), AttributeValue::Int(-4));
    assert_eq!(config_to_telemetry_attr(&ConfigValue::F64(pi)), AttributeValue::Double(pi));
    assert_eq!(
        config_to_telemetry_attr(&ConfigValue::Array("[1, 2]".into())),
        AttributeValue::String("[1, 2]".into())
    );
}

/// Scenario: Entries of a map of configured attributes come in different orders.
/// Guarantees: The result is the same, in the order of the keys.
#[test]
fn configured_attributes_come_out_in_key_order() {
    let entry = |key: &str, value: i64| ConfigEntry {
        key: key.to_owned(),
        attribute: TelemetryAttribute { value: ConfigValue::I64(value), brief: None },
    };
    let a = config_map_to_telemetry(&vec![entry("b", 1), entry("a.b", 2), entry("a", 3)]);
    let b = config_map_to_telemetry(&vec![entry("a", 3), entry("b", 1), entry("a.b", 2)]);

    assert_eq!(a, b);
    let keys: Vec<&str> = a.entries.iter().map(|entry| entry.key.as_str()).collect();
    assert_eq!(keys, vec!["a", "a.b", "b"]);
    assert_eq!(a.entries[1].value, AttributeValue::Int(2));
}

/// Scenario: Keys with characters of every length in bytes are put into a map.
/// Guarantees: The map orders them as strings, and a key that comes again is replaced.
#[test]
fn maps_order_keys_as_strings() {
    let keys = ["z", "", "é", "a", "ab", "\u{ffff}", "\u{10000}", "Z", "a"];
    let mut map = AttributeMap::new();
    let mut expected = BTreeMap::new();
    for (i, key) in keys.iter().enumerate() {
        map.insert((*key).to_owned(), AttributeValue::UInt(i as u64));
        expected.insert((*key).to_owned(), AttributeValue::UInt(i as u64));
    }

    let entries: Vec<(String, AttributeValue)> =
        map.entries.into_iter().map(|entry| (entry.key, entry.value)).collect();
    assert_eq!(entries, expected.into_iter().collect::<Vec<_>>());
}

/// Scenario: Descriptors are asked for in turn.
/// Guarantees: Each sequence of keys and types has one, those without fields are not kept.
#[test]
fn descriptors_are_told_apart_by_keys_types_and_order() {
    let mut table = DescriptorTable::new();
    let key = |name: &str, value_type| (name.to_owned(), value_type);
    let a = intern_custom_descriptor(&mut table, vec![key("a", AttributeValueType::Int)]);
    let b = intern_custom_descriptor(&mut table, vec![key("a", AttributeValueType::String)]);
    let c = intern_custom_descriptor(
        &mut table,
        vec![key("a", AttributeValueType::Int), key("b", AttributeValueType::Double)],
    );
    let d = intern_custom_descriptor(
        &mut table,
        vec![key("b", AttributeValueType::Double), key("a", AttributeValueType::Int)],
    );
    assert_eq!(table.len(), 4);
    assert_ne!(a, b);
    assert_ne!(c, d);
    let again = intern_custom_descriptor(&mut table, vec![key("a", AttributeValueType::String)]);
    assert!(Arc::ptr_eq(&again, &b));
    assert!(!Arc::ptr_eq(&again, &a));
    let empty = intern_custom_descriptor(&mut table, vec![]);
    assert!(Arc::ptr_eq(&empty, &intern_custom_descriptor(&mut table, vec![])));
    let bare = CustomAttributeSet::new(AttributeMap::new(), &mut table);
    assert!(Arc::ptr_eq(&empty, &bare.descriptor()));
    assert!(empty.fields.is_empty());
    assert_eq!(empty.name, "custom.attrs");
    assert_eq!(table.len(), 4);
    assert_eq!(a.fields[0].brief, "Custom user-defined attribute");
}

/// Scenario: A custom set is hashed and copied.
/// Guarantees: The hash covers keys and written values; a copy shares the descriptor.
#[test]
fn custom_sets_hash_by_keys_and_text() {
    let mut table = DescriptorTable::new();
    let set = CustomAttributeSet::new(
        custom(&[
            ("flag", AttributeValue::Boolean(false)),
            ("ratio", AttributeValue::Double(Double { bits: 0.5f64.to_bits() })),
            ("count", AttributeValue::Int(i64::MIN)),
        ]),
        &mut table,
    );

    let (len, parts) = set.hash_parts(&write_double);
    assert_eq!(len, 3);
    assert_eq!(
        parts,
        vec![
            ("count".to_owned(), "-9223372036854775808".to_owned()),
            ("flag".to_owned(), "false".to_owned()),
            ("ratio".to_owned(), "0.5".to_owned()),
        ]
    );
    let copy = set.clone();
    assert!(Arc::ptr_eq(&copy.descriptor(), &set.descriptor()));
    assert_eq!(copy.attribute_values(), set.attribute_values());
}

/// Scenario: Values are written as text.
/// Guarantees: Integers are decimal over their whole range.
#[test]
fn values_are_written_as_text() {
    assert_eq!(text(&AttributeValue::String("x".into())), "x");
    assert_eq!(text(&AttributeValue::Int(0)), "0");
    assert_eq!(text(&AttributeValue::Int(-120)), "-120");
    assert_eq!(text(&AttributeValue::Int(i64::MAX)), "9223372036854775807");
    assert_eq!(text(&AttributeValue::UInt(u64::MAX)), "18446744073709551615");
    assert_eq!(text(&AttributeValue::Boolean(true)), "true");
    assert_eq!(AttributeValue::UInt(1).value_type(), AttributeValueType::Int);
}

/// Scenario: The channel dimensions are named.
/// Guarantees: Each value has its own name, that of its place.
#[test]
fn channel_values_are_named_by_place() {
    assert_eq!(ChannelKind::Control.as_str(), ChannelKind::VARIANTS[0]);
    assert_eq!(ChannelMode::Shared.as_str(), ChannelMode::VARIANTS[1]);
    assert_eq!(ChannelType::Mpsc.as_str(), ChannelType::VARIANTS[0]);
    assert_eq!(ChannelImplementation::Flume.as_str(), ChannelImplementation::VARIANTS[2]);
}
