//! What the attribute sets of entities emit, told by keys and fields.

use crate::attributes::{
    Attribute, AttributeMap, AttributeSetHandler, AttributeValue, AttributeValueType,
    AttributesDescriptor, ChannelImplementation, ChannelKind, ChannelMode, ChannelType, ConfigEntry,
    ConfigValue, CustomAttributeSet, DescriptorTable, EngineAttributeSet, EngineEntityAttributeSet,
    ExtensionAttributeSet, ExtensionChannelAttributeSet, ExtensionScopeAttributeSet,
    NodeAttributeSet, NodeChannelAttributeSet, NodeWithCustomAttributeSet,
    NodeWithCustomChannelAttributeSet, NodeWithCustomTopicAttributeSet, NodeWithTopicAttributeSet,
    PipelineAttributeSet, ValueView,
};
use crate::double::Double;
use std::sync::Arc;
use vstd::prelude::*;

verus! {

/// A configured value stands for a telemetry value: texts, truth values, integers and doubles
/// for themselves, and an array for its written text.
pub open spec fn stands_for(configured: ConfigValue, value: AttributeValue) -> bool {
    match (configured, value) {
        (ConfigValue::String(a), AttributeValue::String(b)) => a@ == b@,
        (ConfigValue::Bool(a), AttributeValue::Boolean(b)) => a == b,
        (ConfigValue::I64(a), AttributeValue::Int(b)) => a == b,
        (ConfigValue::F64(a), AttributeValue::Double(b)) => a == b,
        (ConfigValue::Array(a), AttributeValue::String(b)) => a@ == b@,
        _ => false,
    }
}

/// Converting a configured value gives the value that it stands for.
pub proof fn law_converted_values(configured: ConfigValue, value: AttributeValue)
    requires
        call_ensures(crate::attributes::config_to_telemetry_attr, (&configured,), value),
    ensures
        stands_for(configured, value),
{
}

/// Conversion loses nothing: two configured scalars of one type are converted to the same value
/// only where they are equal.
pub proof fn law_conversion_tells_values_apart(
    a: ConfigValue,
    b: ConfigValue,
    x: AttributeValue,
    y: AttributeValue,
)
    requires
        call_ensures(crate::attributes::config_to_telemetry_attr, (&a,), x),
        call_ensures(crate::attributes::config_to_telemetry_attr, (&b,), y),
        x@ == y@,
    ensures
        a is String && b is String ==> a->String_0@ == b->String_0@,
        a is Bool && b is Bool ==> a == b,
        a is I64 && b is I64 ==> a == b,
        a is F64 && b is F64 ==> a == b,
{
}

/// Converting configured attributes gives one entry per key, in the order of the keys, with the
/// value that the key is configured with.
pub proof fn law_converted_maps(configured: Vec<ConfigEntry>, map: AttributeMap)
    requires
        call_ensures(crate::attributes::config_map_to_telemetry, (&configured,), map),
        forall|i: int, j: int|
            0 <= i < j < configured@.len() ==> (#[trigger] configured@[i]).key@ != (
            #[trigger] configured@[j]).key@,
    ensures
        forall|i: int|
            0 <= i < configured@.len() ==> exists|j: int|
                0 <= j < map.entries@.len() && (#[trigger] map.entries@[j]).key@ == (
                #[trigger] configured@[i]).key@ && stands_for(
                    configured@[i].attribute.value,
                    map.entries@[j].value,
                ),
        forall|j: int|
            0 <= j < map.entries@.len() ==> exists|i: int|
                0 <= i < configured@.len() && (#[trigger] configured@[i]).key@ == (
                #[trigger] map.entries@[j]).key@,
        forall|i: int, j: int|
            0 <= i < j < map.entries@.len() ==> crate::text::precedes(
                (#[trigger] map.entries@[i]).key@,
                (#[trigger] map.entries@[j]).key@,
            ),
{
    crate::attributes::law_configured_keys_keep_their_values(configured@);
    assert forall|i: int| 0 <= i < configured@.len() implies exists|j: int|
        0 <= j < map.entries@.len() && (#[trigger] map.entries@[j]).key@ == (
        #[trigger] configured@[i]).key@ && stands_for(
            configured@[i].attribute.value,
            map.entries@[j].value,
        ) by {
        let key = configured@[i].key@;
        assert(map@.contains_key(key));
        let j = choose|j: int| #[trigger] crate::attributes::has_key(map.entries@, j, key);
        map.lemma_entry(j);
        assert(map.entries@[j].key@ == key);
        assert(map.entries@[j].value@ == crate::attributes::telemetry_value(
            configured@[i].attribute.value,
        ));
    }
    assert forall|j: int| 0 <= j < map.entries@.len() implies exists|i: int|
        0 <= i < configured@.len() && (#[trigger] configured@[i]).key@ == (
        #[trigger] map.entries@[j]).key@ by {
        map.lemma_entry(j);
        assert(crate::attributes::entries_map(configured@).contains_key(map.entries@[j].key@));
    }
}

/// An attribute is text under a key.
pub open spec fn is_text(
    attribute: Attribute,
    key: Seq<char>,
    brief: Seq<char>,
    text: Seq<char>,
) -> bool {
    &&& attribute.key@ == key
    &&& attribute.brief@ == brief
    &&& attribute.value is String
    &&& attribute.value->String_0@ == text
}

/// An attribute is an unsigned number under a key.
pub open spec fn is_number(
    attribute: Attribute,
    key: Seq<char>,
    brief: Seq<char>,
    number: u64,
) -> bool {
    &&& attribute.key@ == key
    &&& attribute.brief@ == brief
    &&& attribute.value == AttributeValue::UInt(number)
}

/// Two attributes from a position on describe an engine.
pub open spec fn describes_engine(
    attributes: Seq<Attribute>,
    at: int,
    set: EngineAttributeSet,
) -> bool {
    &&& is_number(attributes[at], "core.id"@, "Core identifier."@, set.core_id as u64)
    &&& is_number(
        attributes[at + 1],
        "numa.node.id"@,
        "NUMA node identifier."@,
        set.numa_node_id as u64,
    )
}

/// Five attributes from a position on describe a pipeline.
pub open spec fn describes_pipeline(
    attributes: Seq<Attribute>,
    at: int,
    set: PipelineAttributeSet,
) -> bool {
    &&& is_text(
        attributes[at],
        "pipeline.id"@,
        "Pipeline identifier as defined in the configuration."@,
        set.pipeline_id@,
    )
    &&& describes_engine(attributes, at + 1, set.engine_attrs)
    &&& is_text(
        attributes[at + 3],
        "pipeline.group.id"@,
        "Pipeline group identifier."@,
        set.pipeline_group_id@,
    )
    &&& is_number(
        attributes[at + 4],
        "deployment.generation"@,
        "Deployment generation for this runtime instance."@,
        set.deployment_generation,
    )
}

/// Six attributes from a position on describe the host scope of an extension.
pub open spec fn describes_scope(
    attributes: Seq<Attribute>,
    at: int,
    kind: Seq<char>,
    pipeline: PipelineAttributeSet,
) -> bool {
    &&& is_text(attributes[at], "scope.kind"@, "Scope kind discriminator."@, kind)
    &&& describes_pipeline(attributes, at + 1, pipeline)
}

/// Eight attributes from a position on describe an extension.
pub open spec fn describes_extension(
    attributes: Seq<Attribute>,
    at: int,
    set: ExtensionAttributeSet,
) -> bool {
    &&& is_text(
        attributes[at],
        "extension.id"@,
        "Extension unique identifier within its host scope."@,
        set.extension_id@,
    )
    &&& describes_scope(
        attributes,
        at + 1,
        set.extension_scope.kind_view(),
        set.extension_scope.payload(),
    )
    &&& is_text(
        attributes[at + 7],
        "extension.variant"@,
        "Physical variant of the extension (`\"local\"` or `\"shared\"`)."@,
        set.extension_variant@,
    )
}

/// Eight attributes from a position on describe a node.
pub open spec fn describes_node(
    attributes: Seq<Attribute>,
    at: int,
    set: NodeAttributeSet,
) -> bool {
    &&& is_text(
        attributes[at],
        "node.id"@,
        "Node unique identifier (in scope of the pipeline)."@,
        set.node_id@,
    )
    &&& describes_pipeline(attributes, at + 1, set.pipeline_attrs)
    &&& is_text(attributes[at + 6], "node.urn"@, "Node plugin URN."@, set.node_urn@)
    &&& is_text(
        attributes[at + 7],
        "node.type"@,
        "Node type (e.g., \"receiver\", \"processor\", \"exporter\")."@,
        set.node_type@,
    )
}

/// The exported name of a channel's payload.
pub open spec fn kind_name(kind: ChannelKind, name: Seq<char>) -> bool {
    ||| kind == ChannelKind::Control && name == "control"@
    ||| kind == ChannelKind::Pdata && name == "pdata"@
}

/// The exported name of a channel's concurrency boundary.
pub open spec fn mode_name(mode: ChannelMode, name: Seq<char>) -> bool {
    ||| mode == ChannelMode::Local && name == "local"@
    ||| mode == ChannelMode::Shared && name == "shared"@
}

/// The exported name of a channel's topology.
pub open spec fn topology_name(topology: ChannelType, name: Seq<char>) -> bool {
    ||| topology == ChannelType::Mpsc && name == "mpsc"@
    ||| topology == ChannelType::Mpmc && name == "mpmc"@
}

/// The exported name of a channel's implementation.
pub open spec fn implementation_name(
    implementation: ChannelImplementation,
    name: Seq<char>,
) -> bool {
    ||| implementation == ChannelImplementation::Internal && name == "internal"@
    ||| implementation == ChannelImplementation::Tokio && name == "tokio"@
    ||| implementation == ChannelImplementation::Flume && name == "flume"@
}

/// Fourteen attributes from a position on describe a channel of a node.
pub open spec fn describes_channel(
    attributes: Seq<Attribute>,
    at: int,
    set: NodeChannelAttributeSet,
) -> bool {
    &&& is_text(
        attributes[at],
        "channel.id"@,
        "Unique channel identifier within the host scope."@,
        set.channel_id@,
    )
    &&& describes_node(attributes, at + 1, set.node_attrs)
    &&& is_text(
        attributes[at + 9],
        "node.port"@,
        "Port name for the channel endpoint."@,
        set.node_port@,
    )
    &&& attributes[at + 10].value is String
    &&& is_text(
        attributes[at + 10],
        "channel.kind"@,
        "Channel payload kind (\"control\" or \"pdata\")."@,
        attributes[at + 10].value->String_0@,
    )
    &&& kind_name(set.channel_kind, attributes[at + 10].value->String_0@)
    &&& is_text(
        attributes[at + 11],
        "channel.mode"@,
        "Concurrency mode of the channel (\"local\" or \"shared\")."@,
        attributes[at + 11].value->String_0@,
    )
    &&& mode_name(set.channel_mode, attributes[at + 11].value->String_0@)
    &&& is_text(
        attributes[at + 12],
        "channel.type"@,
        "Channel type (\"mpsc\" or \"mpmc\")."@,
        attributes[at + 12].value->String_0@,
    )
    &&& topology_name(set.channel_type, attributes[at + 12].value->String_0@)
    &&& is_text(
        attributes[at + 13],
        "channel.impl"@,
        "Channel implementation (\"tokio\", \"flume\", \"internal\")."@,
        attributes[at + 13].value->String_0@,
    )
    &&& implementation_name(set.channel_impl, attributes[at + 13].value->String_0@)
}

/// The contents of an attribute say what it is.
proof fn lemma_attributes(attributes: Seq<Attribute>)
    ensures
        crate::attributes::attribute_list(attributes).len() == attributes.len(),
        forall|i: int|
            0 <= i < attributes.len() ==> {
                let view = crate::attributes::attribute_list(attributes)[i];
                &&& (#[trigger] attributes[i]).key@ == view.key
                &&& attributes[i].brief@ == view.brief
                &&& attributes[i].value@ == view.value
            },
{
}

/// An engine is described by its core and its NUMA node.
pub proof fn law_attributes_of_an_engine(set: EngineAttributeSet, attributes: Vec<Attribute>)
    requires
        call_ensures(EngineAttributeSet::attributes, (&set,), attributes),
    ensures
        attributes@.len() == 2,
        describes_engine(attributes@, 0, set),
{
    lemma_attributes(attributes@);
    lemma_engine(attributes@, 0, set);
}

/// The engine as a whole is described by nothing.
pub proof fn law_attributes_of_the_engine_entity(
    set: EngineEntityAttributeSet,
    attributes: Vec<Attribute>,
)
    requires
        call_ensures(EngineEntityAttributeSet::attributes, (&set,), attributes),
    ensures
        attributes@.len() == 0,
{
    lemma_attributes(attributes@);
}

/// Attributes that are those of an engine describe it.
proof fn lemma_engine(attributes: Seq<Attribute>, at: int, set: EngineAttributeSet)
    requires
        0 <= at <= attributes.len() - 2,
        forall|k: int|
            0 <= k < 2 ==> (#[trigger] crate::attributes::attribute_list(attributes)[at + k])
                == set.attribute_views()[k],
    ensures
        set.attribute_views().len() == 2,
        describes_engine(attributes, at, set),
{
    let views = crate::attributes::attribute_list(attributes);
    lemma_attributes(attributes);
    assert(views[at + 0] == set.attribute_views()[0]);
    assert(views[at + 1] == set.attribute_views()[1]);
}

/// Attributes that are those of a pipeline describe it.
proof fn lemma_pipeline(attributes: Seq<Attribute>, at: int, set: PipelineAttributeSet)
    requires
        0 <= at <= attributes.len() - 5,
        forall|k: int|
            0 <= k < 5 ==> (#[trigger] crate::attributes::attribute_list(attributes)[at + k])
                == set.attribute_views()[k],
    ensures
        set.attribute_views().len() == 5,
        describes_pipeline(attributes, at, set),
{
    let views = crate::attributes::attribute_list(attributes);
    lemma_attributes(attributes);
    assert(views[at + 0] == set.attribute_views()[0]);
    assert forall|k: int| 0 <= k < 2 implies (#[trigger] views[at + 1 + k])
        == set.engine_attrs.attribute_views()[k] by {
        assert(views[at + (1 + k)] == set.attribute_views()[1 + k]);
    }
    lemma_engine(attributes, at + 1, set.engine_attrs);
    assert(views[at + 3] == set.attribute_views()[3]);
    assert(views[at + 4] == set.attribute_views()[4]);
}

/// A pipeline is described by its identifier, its engine, its group and its generation.
pub proof fn law_attributes_of_a_pipeline(set: PipelineAttributeSet, attributes: Vec<Attribute>)
    requires
        call_ensures(PipelineAttributeSet::attributes, (&set,), attributes),
    ensures
        attributes@.len() == 5,
        describes_pipeline(attributes@, 0, set),
{
    lemma_attributes(attributes@);
    assert(set.attribute_views().len() == 5);
    lemma_pipeline(attributes@, 0, set);
}

/// Attributes that are those of a scope describe it.
proof fn lemma_scope(attributes: Seq<Attribute>, at: int, set: ExtensionScopeAttributeSet)
    requires
        0 <= at <= attributes.len() - 6,
        forall|k: int|
            0 <= k < 6 ==> (#[trigger] crate::attributes::attribute_list(attributes)[at + k])
                == set.attribute_views()[k],
    ensures
        set.attribute_views().len() == 6,
        describes_scope(attributes, at, set.kind_view(), set.payload()),
{
    let views = crate::attributes::attribute_list(attributes);
    lemma_attributes(attributes);
    assert(views[at + 0] == set.attribute_views()[0]);
    assert forall|k: int| 0 <= k < 5 implies (#[trigger] views[at + 1 + k])
        == set.payload().attribute_views()[k] by {
        assert(views[at + (1 + k)] == set.attribute_views()[1 + k]);
    }
    assert(set.payload().attribute_views().len() == 5);
    lemma_pipeline(attributes, at + 1, set.payload());
}

/// Attributes that are those of an extension describe it.
proof fn lemma_extension(attributes: Seq<Attribute>, at: int, set: ExtensionAttributeSet)
    requires
        0 <= at <= attributes.len() - 8,
        forall|k: int|
            0 <= k < 8 ==> (#[trigger] crate::attributes::attribute_list(attributes)[at + k])
                == set.attribute_views()[k],
    ensures
        set.attribute_views().len() == 8,
        describes_extension(attributes, at, set),
{
    let views = crate::attributes::attribute_list(attributes);
    lemma_attributes(attributes);
    let scope = set.extension_scope.attribute_views();
    assert(scope.len() == 6);
    assert(views[at + 0] == set.attribute_views()[0]);
    assert forall|k: int| 0 <= k < 6 implies (#[trigger] views[at + 1 + k]) == scope[k] by {
        assert(views[at + (1 + k)] == set.attribute_views()[1 + k]);
    }
    lemma_scope(attributes, at + 1, set.extension_scope);
    assert(views[at + 7] == set.attribute_views()[7]);
}

/// Attributes that are those of a node describe it.
proof fn lemma_node(attributes: Seq<Attribute>, at: int, set: NodeAttributeSet)
    requires
        0 <= at <= attributes.len() - 8,
        forall|k: int|
            0 <= k < 8 ==> (#[trigger] crate::attributes::attribute_list(attributes)[at + k])
                == set.attribute_views()[k],
    ensures
        set.attribute_views().len() == 8,
        describes_node(attributes, at, set),
{
    let views = crate::attributes::attribute_list(attributes);
    lemma_attributes(attributes);
    let pipeline = set.pipeline_attrs.attribute_views();
    assert(pipeline.len() == 5);
    assert(views[at + 0] == set.attribute_views()[0]);
    assert forall|k: int| 0 <= k < 5 implies (#[trigger] views[at + 1 + k]) == pipeline[k] by {
        assert(views[at + (1 + k)] == set.attribute_views()[1 + k]);
    }
    lemma_pipeline(attributes, at + 1, set.pipeline_attrs);
    assert(views[at + 6] == set.attribute_views()[6]);
    assert(views[at + 7] == set.attribute_views()[7]);
}

/// Attributes that are those of a channel of a node describe it.
proof fn lemma_channel(attributes: Seq<Attribute>, at: int, set: NodeChannelAttributeSet)
    requires
        0 <= at <= attributes.len() - 14,
        forall|k: int|
            0 <= k < 14 ==> (#[trigger] crate::attributes::attribute_list(attributes)[at + k])
                == set.attribute_views()[k],
    ensures
        set.attribute_views().len() == 14,
        describes_channel(attributes, at, set),
{
    let views = crate::attributes::attribute_list(attributes);
    lemma_attributes(attributes);
    let node = set.node_attrs.attribute_views();
    assert(node.len() == 8);
    assert(views[at + 0] == set.attribute_views()[0]);
    assert forall|k: int| 0 <= k < 8 implies (#[trigger] views[at + 1 + k]) == node[k] by {
        assert(views[at + (1 + k)] == set.attribute_views()[1 + k]);
    }
    lemma_node(attributes, at + 1, set.node_attrs);
    assert(views[at + 9] == set.attribute_views()[9]);
    assert(views[at + 10] == set.attribute_views()[10]);
    assert(views[at + 11] == set.attribute_views()[11]);
    assert(views[at + 12] == set.attribute_views()[12]);
    assert(views[at + 13] == set.attribute_views()[13]);
    lemma_names_of_channels();
}

/// The exported names of the channel dimensions, as the model has them.
proof fn lemma_names_of_channels()
    ensures
        forall|kind: ChannelKind| kind_name(kind, #[trigger] kind.name()),
        forall|mode: ChannelMode| mode_name(mode, #[trigger] mode.name()),
        forall|topology: ChannelType| topology_name(topology, #[trigger] topology.name()),
        forall|implementation: ChannelImplementation|
            implementation_name(implementation, #[trigger] implementation.name()),
{
}

/// A pipeline scope is described by its kind and by the whole pipeline.
pub proof fn law_attributes_of_a_pipeline_scope(
    pipeline: PipelineAttributeSet,
    set: ExtensionScopeAttributeSet,
    attributes: Vec<Attribute>,
)
    requires
        call_ensures(ExtensionScopeAttributeSet::pipeline, (pipeline,), set),
        call_ensures(ExtensionScopeAttributeSet::attributes, (&set,), attributes),
    ensures
        attributes@.len() == 6,
        describes_scope(attributes@, 0, "pipeline"@, pipeline),
{
    lemma_attributes(attributes@);
    assert(set.attribute_views().len() == 6);
    lemma_scope(attributes@, 0, set);
}

/// A scope that is no identity has an empty kind and an empty pipeline; every other one is of the
/// kind `pipeline`.
pub proof fn law_scopes_that_are_identities(
    pipeline: PipelineAttributeSet,
    made: ExtensionScopeAttributeSet,
    default: ExtensionScopeAttributeSet,
    made_is: bool,
    default_is: bool,
)
    requires
        call_ensures(ExtensionScopeAttributeSet::pipeline, (pipeline,), made),
        call_ensures(ExtensionScopeAttributeSet::default, (), default),
        call_ensures(ExtensionScopeAttributeSet::is_identity, (&made,), made_is),
        call_ensures(ExtensionScopeAttributeSet::is_identity, (&default,), default_is),
    ensures
        made_is,
        !default_is,
        made.payload() == pipeline,
        default.kind_view() == ""@,
        default.payload().pipeline_id@ == ""@,
        default.payload().pipeline_group_id@ == ""@,
        default.payload().engine_attrs.core_id == 0,
        default.payload().engine_attrs.numa_node_id == 0,
        default.payload().deployment_generation == 0,
{
    reveal_strlit("pipeline");
    reveal_strlit("");
    assert("pipeline"@.len() != ""@.len());
}

/// An extension is described by its identifier, its host scope and its variant.
pub proof fn law_attributes_of_an_extension(
    set: ExtensionAttributeSet,
    attributes: Vec<Attribute>,
)
    requires
        call_ensures(ExtensionAttributeSet::attributes, (&set,), attributes),
    ensures
        attributes@.len() == 8,
        describes_extension(attributes@, 0, set),
{
    lemma_attributes(attributes@);
    assert(set.extension_scope.attribute_views().len() == 6);
    assert(set.attribute_views().len() == 8);
    lemma_extension(attributes@, 0, set);
}

/// A node is described by its identifier, its pipeline, its plugin and its type.
pub proof fn law_attributes_of_a_node(set: NodeAttributeSet, attributes: Vec<Attribute>)
    requires
        call_ensures(NodeAttributeSet::attributes, (&set,), attributes),
    ensures
        attributes@.len() == 8,
        describes_node(attributes@, 0, set),
{
    lemma_attributes(attributes@);
    assert(set.attribute_views().len() == 8);
    lemma_node(attributes@, 0, set);
}

/// Attributes from a position on are those of a custom attribute set.
pub open spec fn describes_custom(
    attributes: Seq<Attribute>,
    at: int,
    custom: Seq<Attribute>,
) -> bool {
    forall|k: int|
        0 <= k < custom.len() ==> (#[trigger] attributes[at + k])@ == custom[k]@
}

/// A node with custom attributes is described as the node, and then by its custom attributes.
pub proof fn law_attributes_of_a_node_with_custom_ones(
    set: NodeWithCustomAttributeSet,
    attributes: Vec<Attribute>,
    custom: Vec<Attribute>,
)
    requires
        call_ensures(NodeWithCustomAttributeSet::attributes, (&set,), attributes),
        call_ensures(CustomAttributeSet::attributes, (&set.custom_attrs,), custom),
    ensures
        attributes@.len() == 8 + custom@.len(),
        describes_node(attributes@, 0, set.node_attrs),
        describes_custom(attributes@, 8, custom@),
{
    lemma_attributes(attributes@);
    lemma_attributes(custom@);
    let node = set.node_attrs.attribute_views();
    let views = crate::attributes::attribute_list(attributes@);
    assert(node.len() == 8);
    assert forall|k: int| 0 <= k < 8 implies (#[trigger] views[0 + k]) == node[k] by {}
    lemma_node(attributes@, 0, set.node_attrs);
    assert forall|k: int| 0 <= k < custom@.len() implies (#[trigger] attributes@[8 + k])@
        == custom@[k]@ by {
        assert(views[8 + k] == crate::attributes::attribute_list(custom@)[k]);
    }
}

/// A node with a topic is described as the node, and then by its topic.
pub proof fn law_attributes_of_a_node_with_a_topic(
    set: NodeWithTopicAttributeSet,
    attributes: Vec<Attribute>,
)
    requires
        call_ensures(NodeWithTopicAttributeSet::attributes, (&set,), attributes),
    ensures
        attributes@.len() == 9,
        describes_node(attributes@, 0, set.node_attrs),
        is_text(
            attributes@[8],
            "topic"@,
            "Topic name associated with the node metrics."@,
            set.topic@,
        ),
{
    lemma_attributes(attributes@);
    let node = set.node_attrs.attribute_views();
    let views = crate::attributes::attribute_list(attributes@);
    assert(node.len() == 8);
    assert forall|k: int| 0 <= k < 8 implies (#[trigger] views[0 + k]) == node[k] by {}
    lemma_node(attributes@, 0, set.node_attrs);
    assert(views[8] == set.attribute_views()[8]);
}

/// A node with custom attributes and a topic is described as the node, then by its custom
/// attributes, and then by its topic.
pub proof fn law_attributes_of_a_node_with_custom_ones_and_a_topic(
    set: NodeWithCustomTopicAttributeSet,
    attributes: Vec<Attribute>,
    custom: Vec<Attribute>,
)
    requires
        call_ensures(NodeWithCustomTopicAttributeSet::attributes, (&set,), attributes),
        call_ensures(
            CustomAttributeSet::attributes,
            (&set.node_custom_attrs.custom_attrs,),
            custom,
        ),
    ensures
        attributes@.len() == 9 + custom@.len(),
        describes_node(attributes@, 0, set.node_custom_attrs.node_attrs),
        describes_custom(attributes@, 8, custom@),
        is_text(
            attributes@[8 + custom@.len() as int],
            "topic"@,
            "Topic name associated with the node metrics."@,
            set.topic@,
        ),
{
    lemma_attributes(attributes@);
    lemma_attributes(custom@);
    let inner = set.node_custom_attrs;
    let node = inner.node_attrs.attribute_views();
    let views = crate::attributes::attribute_list(attributes@);
    assert(node.len() == 8);
    assert(inner.attribute_views().len() == 8 + custom@.len());
    assert forall|k: int| 0 <= k < 8 implies (#[trigger] views[0 + k]) == node[k] by {
        assert(views[k] == inner.attribute_views()[k]);
    }
    lemma_node(attributes@, 0, inner.node_attrs);
    assert forall|k: int| 0 <= k < custom@.len() implies (#[trigger] attributes@[8 + k])@
        == custom@[k]@ by {
        assert(views[8 + k] == inner.attribute_views()[8 + k]);
        assert(views[8 + k] == crate::attributes::attribute_list(custom@)[k]);
    }
    let last = 8 + custom@.len() as int;
    assert(views[last] == set.attribute_views()[last]);
}

/// A channel of a node is described by its identifier, its node, its port, and the exported names
/// of its payload kind, its concurrency mode, its topology and its implementation.
pub proof fn law_attributes_of_a_channel(
    set: NodeChannelAttributeSet,
    attributes: Vec<Attribute>,
)
    requires
        call_ensures(NodeChannelAttributeSet::attributes, (&set,), attributes),
    ensures
        attributes@.len() == 14,
        describes_channel(attributes@, 0, set),
{
    lemma_attributes(attributes@);
    assert(set.node_attrs.attribute_views().len() == 8);
    assert(set.attribute_views().len() == 14);
    lemma_channel(attributes@, 0, set);
}

/// A channel of a node with custom attributes is described as the channel, and then by the custom
/// attributes.
pub proof fn law_attributes_of_a_channel_with_custom_ones(
    set: NodeWithCustomChannelAttributeSet,
    attributes: Vec<Attribute>,
    custom: Vec<Attribute>,
)
    requires
        call_ensures(NodeWithCustomChannelAttributeSet::attributes, (&set,), attributes),
        call_ensures(CustomAttributeSet::attributes, (&set.custom_attrs,), custom),
    ensures
        attributes@.len() == 14 + custom@.len(),
        describes_channel(attributes@, 0, set.channel_attrs),
        describes_custom(attributes@, 14, custom@),
{
    lemma_attributes(attributes@);
    lemma_attributes(custom@);
    assert(set.channel_attrs.node_attrs.attribute_views().len() == 8);
    let channel = set.channel_attrs.attribute_views();
    let views = crate::attributes::attribute_list(attributes@);
    assert(channel.len() == 14);
    assert forall|k: int| 0 <= k < 14 implies (#[trigger] views[0 + k]) == channel[k] by {}
    lemma_channel(attributes@, 0, set.channel_attrs);
    assert forall|k: int| 0 <= k < custom@.len() implies (#[trigger] attributes@[14 + k])@
        == custom@[k]@ by {
        assert(views[14 + k] == crate::attributes::attribute_list(custom@)[k]);
    }
}

/// A channel of an extension is described by its identifier, its extension, and the exported names
/// of its concurrency mode and its implementation.
pub proof fn law_attributes_of_an_extension_channel(
    set: ExtensionChannelAttributeSet,
    attributes: Vec<Attribute>,
)
    requires
        call_ensures(ExtensionChannelAttributeSet::attributes, (&set,), attributes),
    ensures
        attributes@.len() == 11,
        is_text(
            attributes@[0],
            "channel.id"@,
            "Unique channel identifier within the host scope."@,
            set.channel_id@,
        ),
        describes_extension(attributes@, 1, set.extension_attrs),
        is_text(
            attributes@[9],
            "channel.mode"@,
            "Concurrency mode of the channel (\"local\" or \"shared\")."@,
            attributes@[9].value->String_0@,
        ),
        mode_name(set.channel_mode, attributes@[9].value->String_0@),
        is_text(
            attributes@[10],
            "channel.impl"@,
            "Channel implementation (\"tokio\", \"internal\")."@,
            attributes@[10].value->String_0@,
        ),
        implementation_name(set.channel_impl, attributes@[10].value->String_0@),
{
    lemma_attributes(attributes@);
    let extension = set.extension_attrs.attribute_views();
    let views = crate::attributes::attribute_list(attributes@);
    assert(set.extension_attrs.extension_scope.attribute_views().len() == 6);
    assert(extension.len() == 8);
    assert(set.attribute_views().len() == 11);
    assert forall|k: int| 0 <= k < 8 implies (#[trigger] views[1 + k]) == extension[k] by {
        assert(views[1 + k] == set.attribute_views()[1 + k]);
    }
    lemma_extension(attributes@, 1, set.extension_attrs);
    assert(views[9] == set.attribute_views()[9]);
    assert(views[10] == set.attribute_views()[10]);
    lemma_names_of_channels();
}

/// The keys and values that any set emits are those of its attributes, in order.
pub proof fn law_emitted_pairs<T: AttributeSetHandler>(
    set: T,
    attributes: Vec<Attribute>,
    pairs: Vec<(String, AttributeValue)>,
    i: int,
)
    requires
        call_ensures(T::attributes, (&set,), attributes),
        call_ensures(T::iter_attributes, (&set,), pairs),
        0 <= i < attributes@.len(),
    ensures
        pairs@.len() == attributes@.len(),
        pairs@[i].0@ == attributes@[i].key@,
        pairs@[i].1@ == attributes@[i].value@,
{
    lemma_attributes(attributes@);
}

/// The values that any set gives are those of its attributes, in order.
pub proof fn law_emitted_values<T: AttributeSetHandler>(
    set: T,
    attributes: Vec<Attribute>,
    values: Vec<AttributeValue>,
    i: int,
)
    requires
        call_ensures(T::attributes, (&set,), attributes),
        call_ensures(T::attribute_values, (&set,), values),
        0 <= i < attributes@.len(),
    ensures
        values@.len() == attributes@.len(),
        values@[i]@ == attributes@[i].value@,
{
    lemma_attributes(attributes@);
}

/// Type of a value.
pub open spec fn is_of_type(value: AttributeValue, t: AttributeValueType) -> bool {
    match value {
        AttributeValue::String(_) => t == AttributeValueType::String,
        AttributeValue::Int(_) => t == AttributeValueType::Int,
        AttributeValue::UInt(_) => t == AttributeValueType::Int,
        AttributeValue::Double(_) => t == AttributeValueType::Double,
        AttributeValue::Boolean(_) => t == AttributeValueType::Boolean,
    }
}

/// A value is of one type; both kinds of integer count as integers.
pub proof fn law_types_of_values(value: AttributeValue, t: AttributeValueType)
    requires
        call_ensures(AttributeValue::value_type, (&value,), t),
    ensures
        is_of_type(value, t),
        t == value@.value_type(),
{
}

/// The descriptor of any set has its name, and one field per attribute, in order, with the key,
/// the brief and the type of the value.
pub proof fn law_descriptors<T: AttributeSetHandler>(
    set: T,
    name: &'static str,
    attributes: Vec<Attribute>,
    descriptor: Arc<AttributesDescriptor>,
    i: int,
)
    requires
        call_ensures(T::set_name, (&set,), name),
        call_ensures(T::attributes, (&set,), attributes),
        call_ensures(T::descriptor, (&set,), descriptor),
        0 <= i < attributes@.len(),
    ensures
        descriptor.name@ == name@,
        descriptor.fields@.len() == attributes@.len(),
        descriptor.fields@[i].key@ == attributes@[i].key@,
        descriptor.fields@[i].brief@ == attributes@[i].brief@,
        is_of_type(attributes@[i].value, descriptor.fields@[i].value_type),
{
    lemma_attributes(attributes@);
    let views = crate::attributes::descriptor_of(set.name_view(), set.attribute_views()).fields;
    let fields = crate::attributes::field_views(descriptor.fields@);
    assert(descriptor@.fields == views);
    assert(fields.len() == descriptor.fields@.len());
    assert(fields[i] == descriptor.fields@[i]@);
    assert(views[i] == fields[i]);
}

/// Every set goes by its own name.
pub proof fn law_names_of_sets(
    engine: EngineAttributeSet,
    engine_name: &'static str,
    entity: EngineEntityAttributeSet,
    entity_name: &'static str,
    pipeline: PipelineAttributeSet,
    pipeline_name: &'static str,
    scope: ExtensionScopeAttributeSet,
    scope_name: &'static str,
    extension: ExtensionAttributeSet,
    extension_name: &'static str,
    node: NodeAttributeSet,
    node_name: &'static str,
)
    requires
        call_ensures(EngineAttributeSet::set_name, (&engine,), engine_name),
        call_ensures(EngineEntityAttributeSet::set_name, (&entity,), entity_name),
        call_ensures(PipelineAttributeSet::set_name, (&pipeline,), pipeline_name),
        call_ensures(ExtensionScopeAttributeSet::set_name, (&scope,), scope_name),
        call_ensures(ExtensionAttributeSet::set_name, (&extension,), extension_name),
        call_ensures(NodeAttributeSet::set_name, (&node,), node_name),
    ensures
        engine_name@ == "controller.attrs"@,
        entity_name@ == "engine"@,
        pipeline_name@ == "pipeline.attrs"@,
        scope_name@ == "extension.scope.attrs"@,
        extension_name@ == "extension.attrs"@,
        node_name@ == "node.attrs"@,
{
}

/// Every set that extends another goes by its own name.
pub proof fn law_names_of_extended_sets(
    custom: CustomAttributeSet,
    custom_name: &'static str,
    node: NodeWithCustomAttributeSet,
    node_name: &'static str,
    topic: NodeWithTopicAttributeSet,
    topic_name: &'static str,
    custom_topic: NodeWithCustomTopicAttributeSet,
    custom_topic_name: &'static str,
    channel: NodeChannelAttributeSet,
    channel_name: &'static str,
    custom_channel: NodeWithCustomChannelAttributeSet,
    custom_channel_name: &'static str,
    extension_channel: ExtensionChannelAttributeSet,
    extension_channel_name: &'static str,
)
    requires
        call_ensures(CustomAttributeSet::set_name, (&custom,), custom_name),
        call_ensures(NodeWithCustomAttributeSet::set_name, (&node,), node_name),
        call_ensures(NodeWithTopicAttributeSet::set_name, (&topic,), topic_name),
        call_ensures(
            NodeWithCustomTopicAttributeSet::set_name,
            (&custom_topic,),
            custom_topic_name,
        ),
        call_ensures(NodeChannelAttributeSet::set_name, (&channel,), channel_name),
        call_ensures(
            NodeWithCustomChannelAttributeSet::set_name,
            (&custom_channel,),
            custom_channel_name,
        ),
        call_ensures(
            ExtensionChannelAttributeSet::set_name,
            (&extension_channel,),
            extension_channel_name,
        ),
    ensures
        custom_name@ == "custom.attrs"@,
        node_name@ == "node.custom.attrs"@,
        topic_name@ == "node.topic.attrs"@,
        custom_topic_name@ == "node.custom.topic.attrs"@,
        channel_name@ == "node.channel.attrs"@,
        custom_channel_name@ == "node.channel.custom.attrs"@,
        extension_channel_name@ == "extension.channel.attrs"@,
{
}

/// The values of the channel dimensions are exported under fixed names, which are also listed in
/// order.
pub proof fn law_exported_names(
    kind: ChannelKind,
    kind_text: &'static str,
    mode: ChannelMode,
    mode_text: &'static str,
    topology: ChannelType,
    topology_text: &'static str,
    implementation: ChannelImplementation,
    implementation_text: &'static str,
)
    requires
        call_ensures(ChannelKind::as_str, (kind,), kind_text),
        call_ensures(ChannelMode::as_str, (mode,), mode_text),
        call_ensures(ChannelType::as_str, (topology,), topology_text),
        call_ensures(ChannelImplementation::as_str, (implementation,), implementation_text),
    ensures
        kind_name(kind, kind_text@),
        mode_name(mode, mode_text@),
        topology_name(topology, topology_text@),
        implementation_name(implementation, implementation_text@),
        ChannelKind::CARDINALITY == 2,
        ChannelKind::VARIANTS@[0]@ == "control"@,
        ChannelKind::VARIANTS@[1]@ == "pdata"@,
        ChannelMode::CARDINALITY == 2,
        ChannelMode::VARIANTS@[0]@ == "local"@,
        ChannelMode::VARIANTS@[1]@ == "shared"@,
        ChannelType::CARDINALITY == 2,
        ChannelType::VARIANTS@[0]@ == "mpsc"@,
        ChannelType::VARIANTS@[1]@ == "mpmc"@,
        ChannelImplementation::CARDINALITY == 3,
        ChannelImplementation::VARIANTS@[0]@ == "internal"@,
        ChannelImplementation::VARIANTS@[1]@ == "tokio"@,
        ChannelImplementation::VARIANTS@[2]@ == "flume"@,
{
    lemma_names_of_channels();
}

/// A custom attribute set emits one attribute per entry of the map that it is made from, in
/// order, under the entry's key and with the entry's value.
pub proof fn law_custom_attributes(
    map: AttributeMap,
    table: &mut DescriptorTable,
    set: CustomAttributeSet,
    attributes: Vec<Attribute>,
    i: int,
)
    requires
        call_ensures(CustomAttributeSet::new, (map, table), set),
        call_ensures(CustomAttributeSet::attributes, (&set,), attributes),
        0 <= i < map.entries@.len(),
    ensures
        attributes@.len() == map.entries@.len(),
        attributes@[i].key@ == map.entries@[i].key@,
        attributes@[i].brief@ == "Custom user-defined attribute"@,
        attributes@[i].value@ == map.entries@[i].value@,
{
    lemma_attributes(attributes@);
    assert(set.attribute_views() == crate::attributes::custom_views(map.entries@));
    assert(crate::attributes::attribute_list(attributes@)[i]
        == crate::attributes::custom_views(map.entries@)[i]);
}

/// Without custom attributes nothing is emitted.
pub proof fn law_no_custom_attributes(
    set: CustomAttributeSet,
    attributes: Vec<Attribute>,
    descriptor: Arc<AttributesDescriptor>,
)
    requires
        call_ensures(CustomAttributeSet::default, (), set),
        call_ensures(CustomAttributeSet::attributes, (&set,), attributes),
        call_ensures(CustomAttributeSet::descriptor, (&set,), descriptor),
    ensures
        attributes@.len() == 0,
        descriptor.name@ == "custom.attrs"@,
        descriptor.fields@.len() == 0,
{
    lemma_attributes(attributes@);
    assert(descriptor@.fields.len() == descriptor.fields@.len());
}

/// A copy of a custom attribute set emits what the set emits, and refers to the same descriptor.
pub proof fn law_copies_of_custom_attributes(
    set: CustomAttributeSet,
    copy: CustomAttributeSet,
    of_set: Vec<Attribute>,
    of_copy: Vec<Attribute>,
    set_descriptor: Arc<AttributesDescriptor>,
    copy_descriptor: Arc<AttributesDescriptor>,
    i: int,
)
    requires
        call_ensures(CustomAttributeSet::clone, (&set,), copy),
        call_ensures(CustomAttributeSet::attributes, (&set,), of_set),
        call_ensures(CustomAttributeSet::attributes, (&copy,), of_copy),
        call_ensures(CustomAttributeSet::descriptor, (&set,), set_descriptor),
        call_ensures(CustomAttributeSet::descriptor, (&copy,), copy_descriptor),
        0 <= i < of_set@.len(),
    ensures
        of_copy@.len() == of_set@.len(),
        of_copy@[i].key@ == of_set@[i].key@,
        of_copy@[i].value@ == of_set@[i].value@,
        copy_descriptor == set_descriptor,
{
    lemma_attributes(of_set@);
    lemma_attributes(of_copy@);
}

/// What a hash of a custom attribute set covers is how many attributes it has, and then the key
/// and the written value of each, in order.
pub proof fn law_hashed_parts<F: Fn(Double) -> String>(
    set: CustomAttributeSet,
    write_double: F,
    parts: (usize, Vec<(String, String)>),
    attributes: Vec<Attribute>,
    i: int,
)
    requires
        call_ensures(CustomAttributeSet::hash_parts::<F>, (&set, &write_double), parts),
        call_ensures(CustomAttributeSet::attributes, (&set,), attributes),
        0 <= i < attributes@.len(),
    ensures
        parts.0 == attributes@.len(),
        parts.1@.len() == attributes@.len(),
        parts.1@[i].0@ == attributes@[i].key@,
        reads(write_double, attributes@[i].value, parts.1@[i].1),
{
    lemma_attributes(attributes@);
    lemma_reads(write_double, attributes@[i].value, parts.1@[i].1);
}

/// A text is how a value reads: a text as it is, numbers in decimal, a double as the function
/// handed over writes it, and truth values as `true` and `false`.
pub open spec fn reads<F: Fn(Double) -> String>(
    write_double: F,
    value: AttributeValue,
    text: String,
) -> bool {
    match value {
        AttributeValue::String(s) => text@ == s@,
        AttributeValue::Int(i) => crate::model_laws::is_integer_text(text@, i as int),
        AttributeValue::UInt(u) => crate::model_laws::is_integer_text(text@, u as int),
        AttributeValue::Double(d) => call_ensures(write_double, (d,), text),
        AttributeValue::Boolean(true) => text@ == "true"@,
        AttributeValue::Boolean(false) => text@ == "false"@,
    }
}

/// A written value is how the value reads.
proof fn lemma_reads<F: Fn(Double) -> String>(
    write_double: F,
    value: AttributeValue,
    text: String,
)
    requires
        crate::attributes::written(write_double, value@, text),
    ensures
        reads(write_double, value, text),
{
    match value {
        AttributeValue::Int(i) => {
            crate::model_laws::law_written_integers(i as int);
        },
        AttributeValue::UInt(u) => {
            crate::model_laws::law_written_integers(u as int);
        },
        _ => {},
    }
}

/// A value is written as it reads.
pub proof fn law_written_values<F: Fn(Double) -> String>(
    value: AttributeValue,
    write_double: F,
    text: String,
)
    requires
        call_ensures(AttributeValue::to_string_value::<F>, (&value, &write_double), text),
    ensures
        reads(write_double, value, text),
{
    lemma_reads(write_double, value, text);
}

/// Asking a table for a descriptor gives one with the keys and value types asked for, in order.
/// The table holds it from then on, along with all that it held; it grows by one exactly where
/// there are keys and it held no descriptor for them yet.
pub proof fn law_interned_descriptors(
    table: &mut DescriptorTable,
    shape: Vec<(String, AttributeValueType)>,
    descriptor: Arc<AttributesDescriptor>,
)
    requires
        call_ensures(
            crate::attributes::intern_custom_descriptor,
            (table, shape),
            descriptor,
        ),
    ensures
        descriptor.name@ == "custom.attrs"@,
        descriptor.fields@.len() == shape@.len(),
        forall|i: int|
            0 <= i < shape@.len() ==> (#[trigger] descriptor.fields@[i]).key@ == shape@[i].0@
                && descriptor.fields@[i].brief@ == "Custom user-defined attribute"@
                && descriptor.fields@[i].value_type == shape@[i].1,
        shape@.len() == 0 ==> final(table)@ == old(table)@,
        shape@.len() > 0 ==> final(table)@.contains(descriptor@),
        shape@.len() > 0 && !old(table)@.contains(descriptor@) ==> final(table)@ == old(
            table,
        )@.push(descriptor@),
        old(table)@.contains(descriptor@) ==> final(table)@ == old(table)@,
        final(table)@.no_duplicates(),
        final(table).holds(descriptor),
{
    let wanted = crate::attributes::custom_descriptor(crate::attributes::shape_views(shape@));
    assert(descriptor@ == wanted);
    assert(descriptor@.fields.len() == descriptor.fields@.len());
    assert(wanted.fields.len() == shape@.len());
    assert forall|i: int| 0 <= i < shape@.len() implies (#[trigger] descriptor.fields@[i]).key@
        == shape@[i].0@ && descriptor.fields@[i].brief@ == "Custom user-defined attribute"@
        && descriptor.fields@[i].value_type == shape@[i].1 by {
        assert(descriptor@.fields[i] == descriptor.fields@[i]@);
        assert(wanted.fields[i].key == shape@[i].0@);
    }
    if shape@.len() > 0 && !old(table)@.contains(wanted) {
        assert(old(table)@.push(wanted)[old(table)@.len() as int] == wanted);
    }
}

/// The default sets are empty: texts without characters, and numbers that are zero.
pub proof fn law_default_sets(
    engine: EngineAttributeSet,
    pipeline: PipelineAttributeSet,
    extension: ExtensionAttributeSet,
    node: NodeAttributeSet,
    topic: NodeWithTopicAttributeSet,
)
    requires
        call_ensures(EngineAttributeSet::default, (), engine),
        call_ensures(PipelineAttributeSet::default, (), pipeline),
        call_ensures(ExtensionAttributeSet::default, (), extension),
        call_ensures(NodeAttributeSet::default, (), node),
        call_ensures(NodeWithTopicAttributeSet::default, (), topic),
    ensures
        engine.core_id == 0 && engine.numa_node_id == 0,
        crate::attributes::blank_pipeline(pipeline),
        pipeline.pipeline_id@ == ""@ && pipeline.pipeline_group_id@ == ""@
            && pipeline.deployment_generation == 0 && pipeline.engine_attrs.core_id == 0
            && pipeline.engine_attrs.numa_node_id == 0,
        extension.extension_id@ == ""@ && extension.extension_variant@ == ""@
            && extension.extension_scope.kind_view() == ""@,
        node.node_id@ == ""@ && node.node_urn@ == ""@ && node.node_type@ == ""@,
        crate::attributes::blank_pipeline(node.pipeline_attrs),
        topic.topic@ == ""@ && topic.node_attrs.node_id@ == ""@,
{
}

/// Putting a value under a key gives the key that value, in place of any that it had, and leaves
/// every other key as it was. The keys stay in order, so none occurs twice.
pub proof fn law_values_put_under_keys(
    map: &mut AttributeMap,
    key: String,
    value: AttributeValue,
    other: Seq<char>,
    x: ValueView,
)
    requires
        old(map).wf(),
        call_ensures(AttributeMap::insert, (map, key, value), ()),
        other != key@,
    ensures
        maps_to(*final(map), key@, value@),
        maps_to(*final(map), other, x) <==> maps_to(*old(map), other, x),
        forall|i: int, j: int|
            0 <= i < j < final(map).entries@.len() ==> crate::text::precedes(
                (#[trigger] final(map).entries@[i]).key@,
                (#[trigger] final(map).entries@[j]).key@,
            ),
{
    law_entries_of_a_map(*final(map), key@, value@);
    law_entries_of_a_map(*final(map), other, x);
    law_entries_of_a_map(*old(map), other, x);
}

/// An entry of a map has a key and a value.
pub open spec fn maps_to(map: AttributeMap, key: Seq<char>, value: ValueView) -> bool {
    exists|i: int|
        0 <= i < map.entries@.len() && (#[trigger] map.entries@[i]).key@ == key
            && map.entries@[i].value@ == value
}

/// A map holds a value under a key exactly where one of its entries has both.
pub proof fn law_entries_of_a_map(map: AttributeMap, key: Seq<char>, value: ValueView)
    requires
        map.wf(),
    ensures
        map@.contains_key(key) && map@[key] == value <==> maps_to(map, key, value),
{
    if map@.contains_key(key) {
        let i = choose|i: int| #[trigger] crate::attributes::has_key(map.entries@, i, key);
        map.lemma_entry(i);
        assert(map.entries@[i].key@ == key);
    }
    if maps_to(map, key, value) {
        let i = choose|i: int|
            0 <= i < map.entries@.len() && (#[trigger] map.entries@[i]).key@ == key
                && map.entries@[i].value@ == value;
        map.lemma_entry(i);
    }
}

/// A map starts without entries, and a table without descriptors; the length of a table is the
/// number of its descriptors.
pub proof fn law_fresh_maps_and_tables(
    map: AttributeMap,
    fresh: DescriptorTable,
    table: DescriptorTable,
    len: usize,
)
    requires
        call_ensures(AttributeMap::new, (), map),
        call_ensures(DescriptorTable::new, (), fresh),
        call_ensures(DescriptorTable::len, (&table,), len),
    ensures
        map.entries@.len() == 0,
        fresh@.len() == 0,
        len == table@.len(),
        table@.no_duplicates(),
{
    if map.entries@.len() > 0 {
        map.lemma_entry(0);
    }
}

/// A copy of a pipeline is the same pipeline, and a copy of a scope emits what the scope emits.
pub proof fn law_copies(
    pipeline: PipelineAttributeSet,
    pipeline_copy: PipelineAttributeSet,
    scope: ExtensionScopeAttributeSet,
    scope_copy: ExtensionScopeAttributeSet,
    of_scope: Vec<Attribute>,
    of_copy: Vec<Attribute>,
    i: int,
)
    requires
        call_ensures(PipelineAttributeSet::clone, (&pipeline,), pipeline_copy),
        call_ensures(ExtensionScopeAttributeSet::clone, (&scope,), scope_copy),
        call_ensures(ExtensionScopeAttributeSet::attributes, (&scope,), of_scope),
        call_ensures(ExtensionScopeAttributeSet::attributes, (&scope_copy,), of_copy),
        0 <= i < of_scope@.len(),
    ensures
        pipeline_copy.pipeline_id@ == pipeline.pipeline_id@,
        pipeline_copy.pipeline_group_id@ == pipeline.pipeline_group_id@,
        pipeline_copy.engine_attrs == pipeline.engine_attrs,
        pipeline_copy.deployment_generation == pipeline.deployment_generation,
        of_copy@.len() == of_scope@.len(),
        of_copy@[i].key@ == of_scope@[i].key@,
        of_copy@[i].value@ == of_scope@[i].value@,
{
    lemma_attributes(of_scope@);
    lemma_attributes(of_copy@);
}

/// The default sets of nodes with custom attributes are those of a default node, without any.
pub proof fn law_default_sets_with_custom_attributes(
    node: NodeWithCustomAttributeSet,
    topic: NodeWithCustomTopicAttributeSet,
    of_node: Vec<Attribute>,
)
    requires
        call_ensures(NodeWithCustomAttributeSet::default, (), node),
        call_ensures(NodeWithCustomTopicAttributeSet::default, (), topic),
        call_ensures(CustomAttributeSet::attributes, (&node.custom_attrs,), of_node),
    ensures
        node.node_attrs.node_id@ == ""@ && node.node_attrs.node_urn@ == ""@
            && node.node_attrs.node_type@ == ""@,
        crate::attributes::blank_pipeline(node.node_attrs.pipeline_attrs),
        of_node@.len() == 0,
        topic.topic@ == ""@,
        topic.node_custom_attrs.node_attrs.node_id@ == ""@,
{
    lemma_attributes(of_node@);
}

/// The contents of a value tell it apart from every other: values with the same contents are of
/// the same kind and hold the same.
pub proof fn law_contents_of_values(a: AttributeValue, b: AttributeValue)
    requires
        a@ == b@,
    ensures
        match (a, b) {
            (AttributeValue::String(x), AttributeValue::String(y)) => x@ == y@,
            (AttributeValue::Int(x), AttributeValue::Int(y)) => x == y,
            (AttributeValue::UInt(x), AttributeValue::UInt(y)) => x == y,
            (AttributeValue::Double(x), AttributeValue::Double(y)) => x == y,
            (AttributeValue::Boolean(x), AttributeValue::Boolean(y)) => x == y,
            _ => false,
        },
{
}

} // verus!
