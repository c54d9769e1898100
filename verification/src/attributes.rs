//! Attributes describing the resource, engine, pipeline, and node context.
//!
//! These attributes are used for metrics aggregation and reporting.

use crate::double::Double;
use std::sync::Arc;
use vstd::prelude::*;

verus! {

/// Type of an attribute's value.
#[derive(Clone, Copy, PartialEq, Eq, Structural, Debug, Hash)]
pub enum AttributeValueType {
    /// Text.
    String,
    /// An integer.
    Int,
    /// A double.
    Double,
    /// A truth value.
    Boolean,
}

/// Value of an attribute.
#[derive(Clone, PartialEq, Eq, Debug, Hash)]
pub enum AttributeValue {
    /// Text.
    String(String),
    /// A signed integer.
    Int(i64),
    /// An unsigned integer.
    UInt(u64),
    /// A double.
    Double(Double),
    /// A truth value.
    Boolean(bool),
}

/// The contents of an attribute's value.
pub enum ValueView {
    /// Text.
    String(Seq<char>),
    /// A signed integer.
    Int(i64),
    /// An unsigned integer.
    UInt(u64),
    /// A double.
    Double(Double),
    /// A truth value.
    Boolean(bool),
}

impl View for AttributeValue {
    type V = ValueView;

    open spec fn view(&self) -> ValueView {
        match self {
            AttributeValue::String(s) => ValueView::String(s@),
            AttributeValue::Int(i) => ValueView::Int(*i),
            AttributeValue::UInt(u) => ValueView::UInt(*u),
            AttributeValue::Double(d) => ValueView::Double(*d),
            AttributeValue::Boolean(b) => ValueView::Boolean(*b),
        }
    }
}

impl ValueView {
    /// Type of the value; both kinds of integer count as integers.
    pub open spec fn value_type(self) -> AttributeValueType {
        match self {
            ValueView::String(_) => AttributeValueType::String,
            ValueView::Int(_) => AttributeValueType::Int,
            ValueView::UInt(_) => AttributeValueType::Int,
            ValueView::Double(_) => AttributeValueType::Double,
            ValueView::Boolean(_) => AttributeValueType::Boolean,
        }
    }
}

/// A text is a value written out. How a double is written is up to a function.
pub open spec fn written<F: Fn(Double) -> String>(
    write_double: F,
    value: ValueView,
    text: String,
) -> bool {
    match value {
        ValueView::String(s) => text@ == s,
        ValueView::Int(i) => text@ == crate::text::signed_decimal(i as int),
        ValueView::UInt(u) => text@ == crate::text::decimal(u as nat),
        ValueView::Double(d) => call_ensures(write_double, (d,), text),
        ValueView::Boolean(b) => text@ == (if b {
            "true"@
        } else {
            "false"@
        }),
    }
}

impl AttributeValue {
    /// Type of the value; both kinds of integer count as integers.
    pub fn value_type(&self) -> (r: AttributeValueType)
        ensures
            r == self@.value_type(),
    {
        match self {
            AttributeValue::String(_) => AttributeValueType::String,
            AttributeValue::Int(_) => AttributeValueType::Int,
            AttributeValue::UInt(_) => AttributeValueType::Int,
            AttributeValue::Double(_) => AttributeValueType::Double,
            AttributeValue::Boolean(_) => AttributeValueType::Boolean,
        }
    }

    /// Copies the value.
    pub fn duplicate(&self) -> (r: AttributeValue)
        ensures
            r@ == self@,
    {
        match self {
            AttributeValue::String(s) => AttributeValue::String(s.clone()),
            AttributeValue::Int(i) => AttributeValue::Int(*i),
            AttributeValue::UInt(u) => AttributeValue::UInt(*u),
            AttributeValue::Double(d) => AttributeValue::Double(*d),
            AttributeValue::Boolean(b) => AttributeValue::Boolean(*b),
        }
    }

    /// Writes the value as text. How a double is written is up to the caller.
    pub fn to_string_value<F: Fn(Double) -> String>(&self, write_double: &F) -> (r: String)
        requires
            forall|d: Double| call_requires(*write_double, (d,)),
        ensures
            written(*write_double, self@, r),
    {
        match self {
            AttributeValue::String(s) => s.clone(),
            AttributeValue::Int(i) => crate::text::write_signed_decimal(*i),
            AttributeValue::UInt(u) => crate::text::write_decimal(*u),
            AttributeValue::Double(d) => write_double(*d),
            AttributeValue::Boolean(b) => if *b {
                "true".to_owned()
            } else {
                "false".to_owned()
            },
        }
    }
}

/// Value of a telemetry attribute as configured.
#[derive(Clone, PartialEq, Eq, Debug)]
pub enum ConfigValue {
    /// Text.
    String(String),
    /// A truth value.
    Bool(bool),
    /// An integer.
    I64(i64),
    /// A double.
    F64(Double),
    /// An array, held in its written form.
    Array(String),
}

/// A telemetry attribute as configured.
#[derive(Clone, PartialEq, Eq, Debug)]
pub struct TelemetryAttribute {
    /// Value of the attribute.
    pub value: ConfigValue,
    /// What the attribute is about.
    pub brief: Option<String>,
}

/// The value that a configured one stands for. Arrays are encoded as text.
pub open spec fn telemetry_value(value: ConfigValue) -> ValueView {
    match value {
        ConfigValue::String(s) => ValueView::String(s@),
        ConfigValue::Bool(b) => ValueView::Boolean(b),
        ConfigValue::I64(i) => ValueView::Int(i),
        ConfigValue::F64(d) => ValueView::Double(d),
        ConfigValue::Array(text) => ValueView::String(text@),
    }
}

/// Converts a configured value to a telemetry value. Arrays are encoded as text.
pub fn config_to_telemetry_attr(value: &ConfigValue) -> (r: AttributeValue)
    ensures
        r@ == telemetry_value(*value),
{
    match value {
        ConfigValue::String(s) => AttributeValue::String(s.clone()),
        ConfigValue::Bool(b) => AttributeValue::Boolean(*b),
        ConfigValue::I64(i) => AttributeValue::Int(*i),
        ConfigValue::F64(d) => AttributeValue::Double(*d),
        ConfigValue::Array(text) => AttributeValue::String(text.clone()),
    }
}

/// A key with its value.
#[derive(Clone, PartialEq, Eq, Debug)]
pub struct Entry {
    /// The key.
    pub key: String,
    /// The value.
    pub value: AttributeValue,
}

/// Attribute values by key, in the order of the keys.
#[derive(Clone, PartialEq, Eq, Debug)]
pub struct AttributeMap {
    /// The entries, keys ascending.
    pub entries: Vec<Entry>,
}

/// An entry has a key.
pub open spec fn has_key(entries: Seq<Entry>, i: int, key: Seq<char>) -> bool {
    0 <= i < entries.len() && entries[i].key@ == key
}

impl View for AttributeMap {
    type V = Map<Seq<char>, ValueView>;

    open spec fn view(&self) -> Map<Seq<char>, ValueView> {
        Map::new(
            |key: Seq<char>| exists|i: int| #[trigger] has_key(self.entries@, i, key),
            |key: Seq<char>|
                self.entries@[choose|i: int| #[trigger] has_key(self.entries@, i, key)].value@,
        )
    }
}

impl AttributeMap {
    /// The keys ascend strictly.
    pub open spec fn wf(&self) -> bool {
        forall|i: int, j: int|
            0 <= i < j < self.entries@.len() ==> crate::text::precedes(
                (#[trigger] self.entries@[i]).key@,
                (#[trigger] self.entries@[j]).key@,
            )
    }

    /// Each entry is found under its key.
    pub proof fn lemma_entry(&self, i: int)
        requires
            self.wf(),
            0 <= i < self.entries@.len(),
        ensures
            self@.contains_key(self.entries@[i].key@),
            self@[self.entries@[i].key@] == self.entries@[i].value@,
    {
        let key = self.entries@[i].key@;
        assert(has_key(self.entries@, i, key));
        let found = choose|k: int| #[trigger] has_key(self.entries@, k, key);
        crate::text::lemma_precedes_irreflexive(key, 0);
        assert(found == i);
    }

    /// A map without entries.
    pub fn new() -> (r: AttributeMap)
        ensures
            r.wf(),
            r@ == Map::<Seq<char>, ValueView>::empty(),
    {
        let r = AttributeMap { entries: Vec::new() };
        assert(r@ =~= Map::<Seq<char>, ValueView>::empty());
        r
    }

    /// Puts a value under a key, in place of the one that is there.
    pub fn insert(&mut self, key: String, value: AttributeValue)
        requires
            old(self).wf(),
        ensures
            final(self).wf(),
            final(self)@ == old(self)@.insert(key@, value@),
    {
        let ghost before = *self;
        let mut at: usize = 0;
        while at < self.entries.len() && crate::text::comes_before(&self.entries[at].key, &key)
            invariant
                at <= self.entries@.len(),
                *self == before,
                forall|k: int|
                    0 <= k < at ==> crate::text::precedes(
                        (#[trigger] self.entries@[k]).key@,
                        key@,
                    ),
            decreases self.entries@.len() - at,
        {
            at = at + 1;
        }
        let ghost wanted = key@;
        let ghost stored = value@;
        if at < self.entries.len() && self.entries[at].key == key {
            self.entries.set(at, Entry { key, value });
            proof {
                lemma_put(before, *self, at as int, true);
            }
        } else {
            proof {
                if at < before.entries@.len() {
                    let next = before.entries@[at as int].key@;
                    if !crate::text::precedes(wanted, next) {
                        crate::text::lemma_precedes_total(wanted, next, 0);
                    }
                    assert forall|k: int| at <= k < before.entries@.len() implies
                        crate::text::precedes(wanted, (#[trigger] before.entries@[k]).key@) by {
                        if k > at {
                            crate::text::lemma_precedes_transitive(
                                wanted,
                                next,
                                before.entries@[k].key@,
                                0,
                            );
                        }
                    }
                }
            }
            self.entries.insert(at, Entry { key, value });
            proof {
                lemma_put(before, *self, at as int, false);
            }
        }
    }
}

/// Putting an entry in its place keeps the keys ascending and changes the map at one key.
proof fn lemma_put(before: AttributeMap, after: AttributeMap, at: int, replaced: bool)
    requires
        before.wf(),
        0 <= at <= before.entries@.len(),
        replaced ==> at < before.entries@.len(),
        replaced ==> after.entries@ == before.entries@.update(at, after.entries@[at])
            && before.entries@[at].key@ == after.entries@[at].key@,
        !replaced ==> after.entries@ == before.entries@.insert(at, after.entries@[at]),
        !replaced ==> forall|k: int|
            0 <= k < at ==> crate::text::precedes(
                (#[trigger] before.entries@[k]).key@,
                after.entries@[at].key@,
            ),
        !replaced ==> forall|k: int|
            at <= k < before.entries@.len() ==> crate::text::precedes(
                after.entries@[at].key@,
                (#[trigger] before.entries@[k]).key@,
            ),
    ensures
        after.wf(),
        after@ == before@.insert(after.entries@[at].key@, after.entries@[at].value@),
{
    let key = after.entries@[at].key@;
    let a = after.entries@;
    let b = before.entries@;
    assert forall|i: int, j: int| 0 <= i < j < a.len() implies crate::text::precedes(
        (#[trigger] a[i]).key@,
        (#[trigger] a[j]).key@,
    ) by {
        if replaced {
            assert(a[i].key@ == b[i].key@);
            assert(a[j].key@ == b[j].key@);
        } else {
            let i0 = if i > at {
                i - 1
            } else {
                i
            };
            let j0 = if j > at {
                j - 1
            } else {
                j
            };
            if i != at {
                assert(a[i] == b[i0]);
            }
            if j != at {
                assert(a[j] == b[j0]);
            }
        }
    }
    let expected = before@.insert(key, a[at].value@);
    assert forall|k: Seq<char>| after@.contains_key(k) == expected.contains_key(k) by {
        if after@.contains_key(k) {
            let i = choose|i: int| #[trigger] has_key(a, i, k);
            if i != at {
                let i0 = if !replaced && i > at {
                    i - 1
                } else {
                    i
                };
                assert(has_key(b, i0, k));
            }
        }
        if expected.contains_key(k) {
            if k == key {
                assert(has_key(a, at, k));
            } else {
                let i = choose|i: int| #[trigger] has_key(b, i, k);
                let i1 = if !replaced && i >= at {
                    i + 1
                } else {
                    i
                };
                assert(has_key(a, i1, k));
            }
        }
    }
    assert forall|k: Seq<char>| after@.contains_key(k) implies after@[k] == expected[k] by {
        let i = choose|i: int| #[trigger] has_key(a, i, k);
        after.lemma_entry(i);
        if k == key {
            after.lemma_entry(at);
        } else {
            let i0 = if !replaced && i > at {
                i - 1
            } else {
                i
            };
            assert(i != at);
            assert(b[i0] == a[i]);
            before.lemma_entry(i0);
        }
    }
    assert(after@ =~= expected);
}

/// A configured attribute under its key.
#[derive(Clone, PartialEq, Eq, Debug)]
pub struct ConfigEntry {
    /// The key.
    pub key: String,
    /// The attribute.
    pub attribute: TelemetryAttribute,
}

/// The map that entries make up, taken one after another.
pub open spec fn entries_map(entries: Seq<ConfigEntry>) -> Map<Seq<char>, ValueView>
    decreases entries.len(),
{
    if entries.len() == 0 {
        Map::empty()
    } else {
        entries_map(entries.drop_last()).insert(
            entries.last().key@,
            telemetry_value(entries.last().attribute.value),
        )
    }
}

/// Converts a map of configured attributes, extracting just the keys and values. The entries
/// of the map may come in any order.
pub fn config_map_to_telemetry(map: &Vec<ConfigEntry>) -> (r: AttributeMap)
    ensures
        r.wf(),
        r@ == entries_map(map@),
{
    let mut out = AttributeMap::new();
    let mut i: usize = 0;
    while i < map.len()
        invariant
            i <= map@.len(),
            out.wf(),
            out@ == entries_map(map@.take(i as int)),
        decreases map@.len() - i,
    {
        assert(map@.take(i + 1).drop_last() == map@.take(i as int));
        out.insert(map[i].key.clone(), config_to_telemetry_attr(&map[i].attribute.value));
        i = i + 1;
    }
    assert(map@.take(i as int) == map@);
    out
}

/// A field of an attribute set.
#[derive(Clone, PartialEq, Eq, Debug, Hash)]
pub struct AttributeField {
    /// Key of the attribute.
    pub key: String,
    /// What the attribute is about.
    pub brief: &'static str,
    /// Type of the attribute's value.
    pub value_type: AttributeValueType,
}

/// The contents of a field.
pub struct FieldView {
    /// Key of the attribute.
    pub key: Seq<char>,
    /// What the attribute is about.
    pub brief: Seq<char>,
    /// Type of the attribute's value.
    pub value_type: AttributeValueType,
}

impl View for AttributeField {
    type V = FieldView;

    open spec fn view(&self) -> FieldView {
        FieldView { key: self.key@, brief: self.brief@, value_type: self.value_type }
    }
}

/// Name and fields of an attribute set.
#[derive(Clone, PartialEq, Eq, Debug, Hash)]
pub struct AttributesDescriptor {
    /// Name of the set.
    pub name: &'static str,
    /// The fields, in order.
    pub fields: Vec<AttributeField>,
}

/// The contents of a descriptor.
#[verifier::ext_equal]
pub struct DescriptorView {
    /// Name of the set.
    pub name: Seq<char>,
    /// The fields, in order.
    pub fields: Seq<FieldView>,
}

/// The contents of several fields.
pub open spec fn field_views(fields: Seq<AttributeField>) -> Seq<FieldView> {
    fields.map_values(|field: AttributeField| field@)
}

impl View for AttributesDescriptor {
    type V = DescriptorView;

    open spec fn view(&self) -> DescriptorView {
        DescriptorView { name: self.name@, fields: field_views(self.fields@) }
    }
}

/// An attribute of a set, with its value.
#[derive(Clone, PartialEq, Eq, Debug)]
pub struct Attribute {
    /// Key of the attribute.
    pub key: String,
    /// What the attribute is about.
    pub brief: &'static str,
    /// Value of the attribute.
    pub value: AttributeValue,
}

/// The contents of an attribute.
pub struct AttributeView {
    /// Key of the attribute.
    pub key: Seq<char>,
    /// What the attribute is about.
    pub brief: Seq<char>,
    /// Value of the attribute.
    pub value: ValueView,
}

impl View for Attribute {
    type V = AttributeView;

    open spec fn view(&self) -> AttributeView {
        AttributeView { key: self.key@, brief: self.brief@, value: self.value@ }
    }
}

/// The contents of several attributes.
pub open spec fn attribute_list(attributes: Seq<Attribute>) -> Seq<AttributeView> {
    attributes.map_values(|attribute: Attribute| attribute@)
}

/// An attribute that is text.
pub open spec fn text(key: &'static str, brief: &'static str, value: Seq<char>) -> AttributeView {
    AttributeView { key: key@, brief: brief@, value: ValueView::String(value) }
}

/// An attribute that is a number.
pub open spec fn number(key: &'static str, brief: &'static str, value: u64) -> AttributeView {
    AttributeView { key: key@, brief: brief@, value: ValueView::UInt(value) }
}

/// The descriptor of a set with given attributes.
pub open spec fn descriptor_of(name: Seq<char>, attributes: Seq<AttributeView>) -> DescriptorView {
    DescriptorView {
        name,
        fields: attributes.map_values(
            |a: AttributeView|
                FieldView { key: a.key, brief: a.brief, value_type: a.value.value_type() },
        ),
    }
}

/// A set of attributes that describes an entity.
pub trait AttributeSetHandler {
    /// Name of the set.
    spec fn name_view(&self) -> Seq<char>;

    /// The attributes, in order.
    spec fn attribute_views(&self) -> Seq<AttributeView>;

    /// Name of the set.
    fn set_name(&self) -> (r: &'static str)
        ensures
            r@ == self.name_view(),
    ;

    /// The attributes, in order.
    fn attributes(&self) -> (r: Vec<Attribute>)
        ensures
            attribute_list(r@) == self.attribute_views(),
    ;

    /// Name and fields of the set.
    fn descriptor(&self) -> (r: Arc<AttributesDescriptor>)
        ensures
            r@ == descriptor_of(self.name_view(), self.attribute_views()),
    {
        let attributes = self.attributes();
        let name = self.set_name();
        Arc::new(describe(name, &attributes))
    }

    /// The values of the attributes, in order.
    fn attribute_values(&self) -> (r: Vec<AttributeValue>)
        ensures
            r@.len() == self.attribute_views().len(),
            forall|i: int|
                0 <= i < r@.len() ==> (#[trigger] r@[i])@ == self.attribute_views()[i].value,
    {
        let attributes = self.attributes();
        values_of(&attributes)
    }

    /// The keys and values of the attributes, in order.
    fn iter_attributes(&self) -> (r: Vec<(String, AttributeValue)>)
        ensures
            r@.len() == self.attribute_views().len(),
            forall|i: int|
                0 <= i < r@.len() ==> (#[trigger] r@[i]).0@ == self.attribute_views()[i].key
                    && r@[i].1@ == self.attribute_views()[i].value,
    {
        let attributes = self.attributes();
        pairs_of(&attributes)
    }
}

/// Describes a set with given attributes.
fn describe(name: &'static str, attributes: &Vec<Attribute>) -> (r: AttributesDescriptor)
    ensures
        r@ == descriptor_of(name@, attribute_list(attributes@)),
{
    let ghost whole = descriptor_of(name@, attribute_list(attributes@)).fields;
    let mut fields: Vec<AttributeField> = Vec::new();
    let mut i: usize = 0;
    while i < attributes.len()
        invariant
            i <= attributes@.len(),
            whole == descriptor_of(name@, attribute_list(attributes@)).fields,
            fields@.len() == i,
            forall|k: int| 0 <= k < i ==> (#[trigger] fields@[k])@ == whole[k],
        decreases attributes@.len() - i,
    {
        let attribute = &attributes[i];
        fields.push(
            AttributeField {
                key: attribute.key.clone(),
                brief: attribute.brief,
                value_type: attribute.value.value_type(),
            },
        );
        i = i + 1;
    }
    assert(field_views(fields@) =~= whole);
    AttributesDescriptor { name, fields }
}

/// The values of attributes.
fn values_of(attributes: &Vec<Attribute>) -> (r: Vec<AttributeValue>)
    ensures
        r@.len() == attributes@.len(),
        forall|i: int|
            0 <= i < r@.len() ==> (#[trigger] r@[i])@ == attribute_list(attributes@)[i].value,
{
    let mut out: Vec<AttributeValue> = Vec::new();
    let mut i: usize = 0;
    while i < attributes.len()
        invariant
            i <= attributes@.len(),
            out@.len() == i,
            forall|k: int|
                0 <= k < i ==> (#[trigger] out@[k])@ == attribute_list(attributes@)[k].value,
        decreases attributes@.len() - i,
    {
        out.push(attributes[i].value.duplicate());
        i = i + 1;
    }
    out
}

/// The keys and values of attributes.
fn pairs_of(attributes: &Vec<Attribute>) -> (r: Vec<(String, AttributeValue)>)
    ensures
        r@.len() == attributes@.len(),
        forall|i: int|
            0 <= i < r@.len() ==> (#[trigger] r@[i]).0@ == attribute_list(attributes@)[i].key
                && r@[i].1@ == attribute_list(attributes@)[i].value,
{
    let mut out: Vec<(String, AttributeValue)> = Vec::new();
    let mut i: usize = 0;
    while i < attributes.len()
        invariant
            i <= attributes@.len(),
            out@.len() == i,
            forall|k: int|
                0 <= k < i ==> (#[trigger] out@[k]).0@ == attribute_list(attributes@)[k].key
                    && out@[k].1@ == attribute_list(attributes@)[k].value,
        decreases attributes@.len() - i,
    {
        out.push((attributes[i].key.clone(), attributes[i].value.duplicate()));
        i = i + 1;
    }
    out
}

/// Adds an attribute that is text to those that are there.
fn put_text(
    attributes: &mut Vec<Attribute>,
    key: &'static str,
    brief: &'static str,
    value: &str,
)
    ensures
        attribute_list(final(attributes)@) == attribute_list(old(attributes)@).push(
            text(key, brief, value@),
        ),
{
    let ghost before = attributes@;
    attributes.push(
        Attribute { key: key.to_owned(), brief, value: AttributeValue::String(value.to_owned()) },
    );
    assert(attribute_list(attributes@) =~= attribute_list(before).push(text(key, brief, value@)));
}

/// Adds an attribute that is a number to those that are there.
fn put_number(
    attributes: &mut Vec<Attribute>,
    key: &'static str,
    brief: &'static str,
    value: u64,
)
    ensures
        attribute_list(final(attributes)@) == attribute_list(old(attributes)@).push(
            number(key, brief, value),
        ),
{
    let ghost before = attributes@;
    attributes.push(
        Attribute { key: key.to_owned(), brief, value: AttributeValue::UInt(value) },
    );
    assert(attribute_list(attributes@) =~= attribute_list(before).push(number(key, brief, value)));
}

/// Adds the attributes of a composed set to those that are there.
fn compose(attributes: &mut Vec<Attribute>, composed: Vec<Attribute>)
    ensures
        attribute_list(final(attributes)@) == attribute_list(old(attributes)@) + attribute_list(
            composed@,
        ),
{
    let ghost before = attributes@;
    let mut composed = composed;
    let ghost added = composed@;
    attributes.append(&mut composed);
    assert(attribute_list(attributes@) =~= attribute_list(before) + attribute_list(added));
}

/// Payload carried by an internal channel.
#[derive(Clone, Copy, PartialEq, Eq, Structural, Debug, Hash)]
pub enum ChannelKind {
    /// Engine control messages.
    Control,
    /// Pipeline telemetry data.
    Pdata,
}

impl ChannelKind {
    /// Number of values.
    pub const CARDINALITY: usize = 2;

    /// Exported names of the values, in order.
    pub const VARIANTS: [&'static str; 2] = ["control", "pdata"];

    /// Position of the value.
    pub open spec fn index(self) -> int {
        match self {
            ChannelKind::Control => 0,
            ChannelKind::Pdata => 1,
        }
    }

    /// The exported name of the value.
    pub open spec fn name(self) -> Seq<char> {
        Self::VARIANTS@[self.index()]@
    }

    /// The exported name of the value.
    pub fn as_str(self) -> (r: &'static str)
        ensures
            r == Self::VARIANTS@[self.index()],
            r@ == self.name(),
            0 <= self.index() < Self::CARDINALITY,
    {
        match self {
            ChannelKind::Control => "control",
            ChannelKind::Pdata => "pdata",
        }
    }
}

/// Concurrency boundary crossed by an internal channel.
#[derive(Clone, Copy, PartialEq, Eq, Structural, Debug, Hash)]
pub enum ChannelMode {
    /// Both endpoints run on the same local executor.
    Local,
    /// The channel can cross thread or executor boundaries.
    Shared,
}

impl ChannelMode {
    /// Number of values.
    pub const CARDINALITY: usize = 2;

    /// Exported names of the values, in order.
    pub const VARIANTS: [&'static str; 2] = ["local", "shared"];

    /// Position of the value.
    pub open spec fn index(self) -> int {
        match self {
            ChannelMode::Local => 0,
            ChannelMode::Shared => 1,
        }
    }

    /// The exported name of the value.
    pub open spec fn name(self) -> Seq<char> {
        Self::VARIANTS@[self.index()]@
    }

    /// The exported name of the value.
    pub fn as_str(self) -> (r: &'static str)
        ensures
            r == Self::VARIANTS@[self.index()],
            r@ == self.name(),
            0 <= self.index() < Self::CARDINALITY,
    {
        match self {
            ChannelMode::Local => "local",
            ChannelMode::Shared => "shared",
        }
    }
}

/// Producer/consumer topology supported by an internal channel.
#[derive(Clone, Copy, PartialEq, Eq, Structural, Debug, Hash)]
pub enum ChannelType {
    /// Multiple producers and a single consumer.
    Mpsc,
    /// Multiple producers and multiple consumers.
    Mpmc,
}

impl ChannelType {
    /// Number of values.
    pub const CARDINALITY: usize = 2;

    /// Exported names of the values, in order.
    pub const VARIANTS: [&'static str; 2] = ["mpsc", "mpmc"];

    /// Position of the value.
    pub open spec fn index(self) -> int {
        match self {
            ChannelType::Mpsc => 0,
            ChannelType::Mpmc => 1,
        }
    }

    /// The exported name of the value.
    pub open spec fn name(self) -> Seq<char> {
        Self::VARIANTS@[self.index()]@
    }

    /// The exported name of the value.
    pub fn as_str(self) -> (r: &'static str)
        ensures
            r == Self::VARIANTS@[self.index()],
            r@ == self.name(),
            0 <= self.index() < Self::CARDINALITY,
    {
        match self {
            ChannelType::Mpsc => "mpsc",
            ChannelType::Mpmc => "mpmc",
        }
    }
}

/// Runtime implementation backing an internal channel.
#[derive(Clone, Copy, PartialEq, Eq, Structural, Debug, Hash)]
pub enum ChannelImplementation {
    /// The engine's own local channel implementation.
    Internal,
    /// Tokio's channel implementation.
    Tokio,
    /// Flume's channel implementation.
    Flume,
}

impl ChannelImplementation {
    /// Number of values.
    pub const CARDINALITY: usize = 3;

    /// Exported names of the values, in order.
    pub const VARIANTS: [&'static str; 3] = ["internal", "tokio", "flume"];

    /// Position of the value.
    pub open spec fn index(self) -> int {
        match self {
            ChannelImplementation::Internal => 0,
            ChannelImplementation::Tokio => 1,
            ChannelImplementation::Flume => 2,
        }
    }

    /// The exported name of the value.
    pub open spec fn name(self) -> Seq<char> {
        Self::VARIANTS@[self.index()]@
    }

    /// The exported name of the value.
    pub fn as_str(self) -> (r: &'static str)
        ensures
            r == Self::VARIANTS@[self.index()],
            r@ == self.name(),
            0 <= self.index() < Self::CARDINALITY,
    {
        match self {
            ChannelImplementation::Internal => "internal",
            ChannelImplementation::Tokio => "tokio",
            ChannelImplementation::Flume => "flume",
        }
    }
}

/// Engine attributes (core id, numa node id, ...).
#[derive(Clone, Copy, Debug, Hash)]
pub struct EngineAttributeSet {
    /// Core identifier.
    pub core_id: usize,
    /// NUMA node identifier.
    pub numa_node_id: usize,
}

impl Default for EngineAttributeSet {
    fn default() -> (r: EngineAttributeSet)
        ensures
            r.core_id == 0,
            r.numa_node_id == 0,
    {
        EngineAttributeSet {
            core_id: 0,
            numa_node_id: 0,
        }
    }
}

impl AttributeSetHandler for EngineAttributeSet {
    open spec fn name_view(&self) -> Seq<char> {
        "controller.attrs"@
    }

    open spec fn attribute_views(&self) -> Seq<AttributeView> {
        seq![
            number("core.id", "Core identifier.", self.core_id as u64),
            number("numa.node.id", "NUMA node identifier.", self.numa_node_id as u64),
        ]
    }

    fn set_name(&self) -> &'static str {
        "controller.attrs"
    }

    fn attributes(&self) -> Vec<Attribute> {
        let mut out: Vec<Attribute> = Vec::new();
        put_number(&mut out, "core.id", "Core identifier.", self.core_id as u64);
        put_number(&mut out, "numa.node.id", "NUMA node identifier.", self.numa_node_id as u64);
        assert(attribute_list(out@) =~= self.attribute_views());
        out
    }
}

/// Empty attribute set for the engine-global entity. Process and host identity live on the
/// resource layer, so engine-wide metrics carry no scope attributes.
#[derive(Clone, Debug, Hash)]
pub struct EngineEntityAttributeSet;

impl Default for EngineEntityAttributeSet {
    fn default() -> EngineEntityAttributeSet {
        EngineEntityAttributeSet
    }
}

impl AttributeSetHandler for EngineEntityAttributeSet {
    open spec fn name_view(&self) -> Seq<char> {
        "engine"@
    }

    open spec fn attribute_views(&self) -> Seq<AttributeView> {
        Seq::empty()
    }

    fn set_name(&self) -> &'static str {
        "engine"
    }

    fn attributes(&self) -> Vec<Attribute> {
        let out: Vec<Attribute> = Vec::new();
        assert(attribute_list(out@) =~= self.attribute_views());
        out
    }
}

/// Pipeline attributes.
#[derive(Debug, Hash)]
pub struct PipelineAttributeSet {
    /// Pipeline identifier as defined in the configuration.
    pub pipeline_id: String,
    /// Engine attributes.
    pub engine_attrs: EngineAttributeSet,
    /// Pipeline group identifier.
    pub pipeline_group_id: String,
    /// Deployment generation for this runtime instance.
    pub deployment_generation: u64,
}

impl Clone for PipelineAttributeSet {
    fn clone(&self) -> (r: PipelineAttributeSet)
        ensures
            r.pipeline_id@ == self.pipeline_id@,
            r.engine_attrs == self.engine_attrs,
            r.pipeline_group_id@ == self.pipeline_group_id@,
            r.deployment_generation == self.deployment_generation,
    {
        PipelineAttributeSet {
            pipeline_id: self.pipeline_id.clone(),
            engine_attrs: self.engine_attrs,
            pipeline_group_id: self.pipeline_group_id.clone(),
            deployment_generation: self.deployment_generation,
        }
    }
}

impl Default for PipelineAttributeSet {
    fn default() -> (r: PipelineAttributeSet)
        ensures
            r.pipeline_id@ == ""@,
            call_ensures(EngineAttributeSet::default, (), r.engine_attrs),
            r.pipeline_group_id@ == ""@,
            r.deployment_generation == 0,
    {
        PipelineAttributeSet {
            pipeline_id: "".to_owned(),
            engine_attrs: EngineAttributeSet::default(),
            pipeline_group_id: "".to_owned(),
            deployment_generation: 0,
        }
    }
}

impl AttributeSetHandler for PipelineAttributeSet {
    open spec fn name_view(&self) -> Seq<char> {
        "pipeline.attrs"@
    }

    open spec fn attribute_views(&self) -> Seq<AttributeView> {
        seq![
            text(
                "pipeline.id",
                "Pipeline identifier as defined in the configuration.",
                self.pipeline_id@,
            ),
        ] + self.engine_attrs.attribute_views() + seq![
            text("pipeline.group.id", "Pipeline group identifier.", self.pipeline_group_id@),
            number(
                "deployment.generation",
                "Deployment generation for this runtime instance.",
                self.deployment_generation,
            ),
        ]
    }

    fn set_name(&self) -> &'static str {
        "pipeline.attrs"
    }

    fn attributes(&self) -> Vec<Attribute> {
        let mut out: Vec<Attribute> = Vec::new();
        put_text(
            &mut out,
            "pipeline.id",
            "Pipeline identifier as defined in the configuration.",
            self.pipeline_id.as_str(),
        );
        compose(&mut out, self.engine_attrs.attributes());
        put_text(
            &mut out,
            "pipeline.group.id",
            "Pipeline group identifier.",
            self.pipeline_group_id.as_str(),
        );
        put_number(
            &mut out,
            "deployment.generation",
            "Deployment generation for this runtime instance.",
            self.deployment_generation,
        );
        assert(attribute_list(out@) =~= self.attribute_views());
        out
    }
}

/// Host scope of an extension. Composed into [`ExtensionAttributeSet`] to disambiguate
/// extensions across hosting scopes.
///
/// Fields are private; the type can only be constructed through a scope-kind constructor
/// (e.g. [`ExtensionScopeAttributeSet::pipeline`]). So every scope value has a populated
/// payload matching its `scope.kind` discriminator, but for the default.
#[derive(Debug, Hash)]
pub struct ExtensionScopeAttributeSet {
    /// Scope kind discriminator. Always paired with the populated payload field that matches
    /// it.
    kind: String,
    /// Pipeline-scope payload. Populated when `kind == "pipeline"`.
    pipeline: PipelineAttributeSet,
}

/// The attributes of a scope of a given kind with a given pipeline payload.
pub open spec fn scope_views(kind: Seq<char>, pipeline: PipelineAttributeSet) -> Seq<
    AttributeView,
> {
    seq![text("scope.kind", "Scope kind discriminator.", kind)] + pipeline.attribute_views()
}

/// A pipeline attribute set without identity.
pub open spec fn blank_pipeline(pipeline: PipelineAttributeSet) -> bool {
    &&& pipeline.pipeline_id@ == ""@
    &&& pipeline.engine_attrs.core_id == 0
    &&& pipeline.engine_attrs.numa_node_id == 0
    &&& pipeline.pipeline_group_id@ == ""@
    &&& pipeline.deployment_generation == 0
}

impl ExtensionScopeAttributeSet {
    /// Kind of the scope.
    pub closed spec fn kind_view(&self) -> Seq<char> {
        self.kind@
    }

    /// The pipeline payload of the scope.
    pub closed spec fn payload(&self) -> PipelineAttributeSet {
        self.pipeline
    }

    /// The kind is that of a constructor, with its payload, or the value is the default.
    #[verifier::type_invariant]
    closed spec fn inv(&self) -> bool {
        self.kind@ == "pipeline"@ || (self.kind@ == ""@ && blank_pipeline(self.pipeline))
    }

    /// Pipeline-host scope. The full pipeline attribute set (group id, pipeline id, engine
    /// id, generation) is composed into the resulting scope so two distinct
    /// `(group, pipeline)` pairs can never collide on identity, regardless of the characters
    /// they contain.
    pub fn pipeline(pipeline: PipelineAttributeSet) -> (r: ExtensionScopeAttributeSet)
        ensures
            r.kind_view() == "pipeline"@,
            r.payload() == pipeline,
            r.attribute_views() == scope_views("pipeline"@, pipeline),
    {
        ExtensionScopeAttributeSet { kind: "pipeline".to_owned(), pipeline }
    }

    /// Whether the scope is an identity: whether it is not the default.
    pub fn is_identity(&self) -> (r: bool)
        ensures
            r == (self.kind_view() == "pipeline"@),
            !r ==> self.kind_view() == ""@ && blank_pipeline(self.payload()),
    {
        proof {
            use_type_invariant(self);
        }
        crate::text::is_text(&self.kind, "pipeline")
    }
}

impl Default for ExtensionScopeAttributeSet {
    /// Carries an empty `scope.kind` and is not a valid scope identity: values that identify
    /// a scope are constructed through a scope-kind constructor (e.g.
    /// [`ExtensionScopeAttributeSet::pipeline`]).
    fn default() -> (r: ExtensionScopeAttributeSet)
        ensures
            r.kind_view() == ""@,
            blank_pipeline(r.payload()),
    {
        let pipeline = PipelineAttributeSet::default();
        ExtensionScopeAttributeSet { kind: "".to_owned(), pipeline }
    }
}

impl Clone for ExtensionScopeAttributeSet {
    fn clone(&self) -> (r: ExtensionScopeAttributeSet)
        ensures
            r.attribute_views() == self.attribute_views(),
    {
        proof {
            use_type_invariant(self);
        }
        let pipeline = self.pipeline.clone();
        ExtensionScopeAttributeSet { kind: self.kind.clone(), pipeline }
    }
}

impl AttributeSetHandler for ExtensionScopeAttributeSet {
    open spec fn name_view(&self) -> Seq<char> {
        "extension.scope.attrs"@
    }

    open spec fn attribute_views(&self) -> Seq<AttributeView> {
        scope_views(self.kind_view(), self.payload())
    }

    fn set_name(&self) -> &'static str {
        "extension.scope.attrs"
    }

    fn attributes(&self) -> Vec<Attribute> {
        let mut out: Vec<Attribute> = Vec::new();
        put_text(&mut out, "scope.kind", "Scope kind discriminator.", self.kind.as_str());
        compose(&mut out, self.pipeline.attributes());
        assert(attribute_list(out@) =~= self.attribute_views());
        out
    }
}

/// Extension attributes, including the host scope.
#[derive(Clone, Debug, Hash)]
pub struct ExtensionAttributeSet {
    /// Extension unique identifier within its host scope.
    pub extension_id: String,
    /// Host scope of the extension.
    pub extension_scope: ExtensionScopeAttributeSet,
    /// Physical variant of the extension (`"local"` or `"shared"`).
    pub extension_variant: String,
}

impl Default for ExtensionAttributeSet {
    fn default() -> (r: ExtensionAttributeSet)
        ensures
            r.extension_id@ == ""@,
            call_ensures(ExtensionScopeAttributeSet::default, (), r.extension_scope),
            r.extension_variant@ == ""@,
    {
        ExtensionAttributeSet {
            extension_id: "".to_owned(),
            extension_scope: ExtensionScopeAttributeSet::default(),
            extension_variant: "".to_owned(),
        }
    }
}

impl AttributeSetHandler for ExtensionAttributeSet {
    open spec fn name_view(&self) -> Seq<char> {
        "extension.attrs"@
    }

    open spec fn attribute_views(&self) -> Seq<AttributeView> {
        seq![
            text(
                "extension.id",
                "Extension unique identifier within its host scope.",
                self.extension_id@,
            ),
        ] + self.extension_scope.attribute_views() + seq![
            text(
                "extension.variant",
                "Physical variant of the extension (`\"local\"` or `\"shared\"`).",
                self.extension_variant@,
            ),
        ]
    }

    fn set_name(&self) -> &'static str {
        "extension.attrs"
    }

    fn attributes(&self) -> Vec<Attribute> {
        let mut out: Vec<Attribute> = Vec::new();
        put_text(
            &mut out,
            "extension.id",
            "Extension unique identifier within its host scope.",
            self.extension_id.as_str(),
        );
        compose(&mut out, self.extension_scope.attributes());
        put_text(
            &mut out,
            "extension.variant",
            "Physical variant of the extension (`\"local\"` or `\"shared\"`).",
            self.extension_variant.as_str(),
        );
        assert(attribute_list(out@) =~= self.attribute_views());
        out
    }
}

/// Node attributes.
#[derive(Clone, Debug, Hash)]
pub struct NodeAttributeSet {
    /// Node unique identifier (in scope of the pipeline).
    pub node_id: String,
    /// Pipeline attributes.
    pub pipeline_attrs: PipelineAttributeSet,
    /// Node plugin URN.
    pub node_urn: String,
    /// Node type (e.g., "receiver", "processor", "exporter").
    pub node_type: String,
}

impl Default for NodeAttributeSet {
    fn default() -> (r: NodeAttributeSet)
        ensures
            r.node_id@ == ""@,
            call_ensures(PipelineAttributeSet::default, (), r.pipeline_attrs),
            r.node_urn@ == ""@,
            r.node_type@ == ""@,
    {
        NodeAttributeSet {
            node_id: "".to_owned(),
            pipeline_attrs: PipelineAttributeSet::default(),
            node_urn: "".to_owned(),
            node_type: "".to_owned(),
        }
    }
}

impl AttributeSetHandler for NodeAttributeSet {
    open spec fn name_view(&self) -> Seq<char> {
        "node.attrs"@
    }

    open spec fn attribute_views(&self) -> Seq<AttributeView> {
        seq![
            text("node.id", "Node unique identifier (in scope of the pipeline).", self.node_id@),
        ] + self.pipeline_attrs.attribute_views() + seq![
            text("node.urn", "Node plugin URN.", self.node_urn@),
            text(
                "node.type",
                "Node type (e.g., \"receiver\", \"processor\", \"exporter\").",
                self.node_type@,
            ),
        ]
    }

    fn set_name(&self) -> &'static str {
        "node.attrs"
    }

    fn attributes(&self) -> Vec<Attribute> {
        let mut out: Vec<Attribute> = Vec::new();
        put_text(
            &mut out,
            "node.id",
            "Node unique identifier (in scope of the pipeline).",
            self.node_id.as_str(),
        );
        compose(&mut out, self.pipeline_attrs.attributes());
        put_text(&mut out, "node.urn", "Node plugin URN.", self.node_urn.as_str());
        put_text(
            &mut out,
            "node.type",
            "Node type (e.g., \"receiver\", \"processor\", \"exporter\").",
            self.node_type.as_str(),
        );
        assert(attribute_list(out@) =~= self.attribute_views());
        out
    }
}

/// A custom attribute set that holds arbitrary user-configured key-value pairs.
///
/// Each configured key becomes its own top-level attribute. Keys come from node
/// configuration rather than a compile-time schema, so the descriptor is built on first use
/// and interned; the number of distinct key sets is bounded by the configuration.
#[derive(Debug)]
pub struct CustomAttributeSet {
    /// Name and fields of the set.
    descriptor: Arc<AttributesDescriptor>,
    /// The values, one per field.
    values: Vec<AttributeValue>,
}

/// Keys and value types, in order.
pub open spec fn shape_views(shape: Seq<(String, AttributeValueType)>) -> Seq<
    (Seq<char>, AttributeValueType),
> {
    shape.map_values(|field: (String, AttributeValueType)| (field.0@, field.1))
}

/// The descriptor of a set with given keys and value types.
pub open spec fn custom_descriptor(
    shape: Seq<(Seq<char>, AttributeValueType)>,
) -> DescriptorView {
    DescriptorView {
        name: "custom.attrs"@,
        fields: shape.map_values(
            |field: (Seq<char>, AttributeValueType)|
                FieldView {
                    key: field.0,
                    brief: "Custom user-defined attribute"@,
                    value_type: field.1,
                },
        ),
    }
}

/// Descriptors of custom attribute sets, one per sequence of keys and value types.
#[derive(Debug)]
pub struct DescriptorTable {
    /// The descriptor without fields, which is shared by all sets without attributes.
    empty: Arc<AttributesDescriptor>,
    /// The descriptors, in the order in which they were first asked for.
    entries: Vec<Arc<AttributesDescriptor>>,
}

/// No descriptor occurs twice, and each has fields.
pub open spec fn distinct_descriptors(table: Seq<DescriptorView>) -> bool {
    &&& table.no_duplicates()
    &&& forall|i: int| 0 <= i < table.len() ==> (#[trigger] table[i]).fields.len() > 0
}

/// What a table of descriptors becomes when one is asked for: it grows by that descriptor
/// where it is not there yet. The descriptor without fields is not kept in the table.
pub open spec fn interned(
    table: Seq<DescriptorView>,
    shape: Seq<(Seq<char>, AttributeValueType)>,
) -> Seq<DescriptorView> {
    if shape.len() == 0 || table.contains(custom_descriptor(shape)) {
        table
    } else {
        table.push(custom_descriptor(shape))
    }
}

impl View for DescriptorTable {
    type V = Seq<DescriptorView>;

    closed spec fn view(&self) -> Seq<DescriptorView> {
        self.entries@.map_values(|entry: Arc<AttributesDescriptor>| entry@)
    }
}

/// Hands out another reference to a descriptor with `Arc::clone`: it refers to the descriptor
/// that the given one refers to.
#[verifier::external_body]
fn share(descriptor: &Arc<AttributesDescriptor>) -> (r: Arc<AttributesDescriptor>)
    ensures
        r == *descriptor,
{
    Arc::clone(descriptor)
}

/// Whether a descriptor has given keys and value types.
fn has_shape(
    descriptor: &AttributesDescriptor,
    shape: &Vec<(String, AttributeValueType)>,
) -> (r: bool)
    requires
        forall|k: int|
            0 <= k < descriptor.fields@.len() ==> (#[trigger] descriptor.fields@[k]).brief@
                == "Custom user-defined attribute"@,
        descriptor.name@ == "custom.attrs"@,
    ensures
        r == (descriptor@ == custom_descriptor(shape_views(shape@))),
{
    let ghost wanted = custom_descriptor(shape_views(shape@)).fields;
    if descriptor.fields.len() != shape.len() {
        assert(descriptor@.fields.len() != wanted.len());
        return false;
    }
    let mut i: usize = 0;
    while i < shape.len()
        invariant
            i <= shape@.len(),
            descriptor.fields@.len() == shape@.len(),
            wanted == custom_descriptor(shape_views(shape@)).fields,
            forall|k: int|
                0 <= k < descriptor.fields@.len() ==> (#[trigger] descriptor.fields@[k]).brief@
                    == "Custom user-defined attribute"@,
            forall|k: int| 0 <= k < i ==> (#[trigger] descriptor.fields@[k])@ == wanted[k],
        decreases shape@.len() - i,
    {
        let field = &descriptor.fields[i];
        assert(wanted[i as int].key == shape@[i as int].0@);
        assert(descriptor@.fields[i as int] == field@);
        if field.key != shape[i].0 || field.value_type != shape[i].1 {
            return false;
        }
        i = i + 1;
    }
    assert(descriptor@.fields =~= wanted);
    true
}

impl DescriptorTable {
    /// Every descriptor is one of a custom attribute set with attributes, and none occurs
    /// twice. The descriptor without fields is kept apart.
    #[verifier::type_invariant]
    closed spec fn inv(&self) -> bool {
        &&& self.empty@ == custom_descriptor(Seq::empty())
        &&& custom_fields(*self.empty)
        &&& forall|i: int|
            0 <= i < self.entries@.len() ==> custom_fields(*(#[trigger] self.entries@[i]))
        &&& distinct_descriptors(self@)
    }

    /// A descriptor is one that the table holds: that without fields, or one of its entries.
    pub closed spec fn holds(&self, descriptor: Arc<AttributesDescriptor>) -> bool {
        if descriptor@.fields.len() == 0 {
            descriptor == self.empty
        } else {
            self.entries@.contains(descriptor)
        }
    }

    /// A table without descriptors.
    pub fn new() -> (r: DescriptorTable)
        ensures
            r@ == Seq::<DescriptorView>::empty(),
    {
        let shape: Vec<(String, AttributeValueType)> = Vec::new();
        let empty = Arc::new(build_custom_descriptor(&shape));
        assert(shape_views(shape@) =~= Seq::empty());
        let r = DescriptorTable { empty, entries: Vec::new() };
        assert(r@ =~= Seq::<DescriptorView>::empty());
        r
    }

    /// Number of descriptors, none of which occurs twice.
    pub fn len(&self) -> (r: usize)
        ensures
            r == self@.len(),
            distinct_descriptors(self@),
    {
        proof {
            use_type_invariant(self);
        }
        self.entries.len()
    }
}

/// The descriptor is one of a custom attribute set.
pub open spec fn custom_fields(descriptor: AttributesDescriptor) -> bool {
    &&& descriptor.name@ == "custom.attrs"@
    &&& forall|k: int|
        0 <= k < descriptor.fields@.len() ==> (#[trigger] descriptor.fields@[k]).brief@
            == "Custom user-defined attribute"@
}

/// Builds the descriptor of a set with given keys and value types.
fn build_custom_descriptor(shape: &Vec<(String, AttributeValueType)>) -> (r: AttributesDescriptor)
    ensures
        r@ == custom_descriptor(shape_views(shape@)),
        custom_fields(r),
{
    let ghost whole = custom_descriptor(shape_views(shape@)).fields;
    let mut fields: Vec<AttributeField> = Vec::new();
    let mut i: usize = 0;
    while i < shape.len()
        invariant
            i <= shape@.len(),
            whole == custom_descriptor(shape_views(shape@)).fields,
            fields@.len() == i,
            forall|k: int| 0 <= k < i ==> (#[trigger] fields@[k])@ == whole[k],
        decreases shape@.len() - i,
    {
        fields.push(
            AttributeField {
                key: shape[i].0.clone(),
                brief: "Custom user-defined attribute",
                value_type: shape[i].1,
            },
        );
        i = i + 1;
    }
    assert(field_views(fields@) =~= whole);
    assert forall|k: int| 0 <= k < fields@.len() implies (#[trigger] fields@[k]).brief@
        == "Custom user-defined attribute"@ by {
        assert(fields@[k]@ == whole[k]);
    }
    AttributesDescriptor { name: "custom.attrs", fields }
}

/// Returns the descriptor that the table holds for `shape`, creating one on first use.
///
/// The table never lets go of a descriptor, so all calls with one shape give the same one.
/// Descriptors are compared here by what they are, not by their addresses.
pub fn intern_custom_descriptor(
    table: &mut DescriptorTable,
    shape: Vec<(String, AttributeValueType)>,
) -> (r: Arc<AttributesDescriptor>)
    ensures
        r@ == custom_descriptor(shape_views(shape@)),
        custom_fields(*r),
        final(table)@ == interned(old(table)@, shape_views(shape@)),
        distinct_descriptors(old(table)@),
        distinct_descriptors(final(table)@),
        final(table).holds(r),
        forall|d: Arc<AttributesDescriptor>| #[trigger]
            old(table).holds(d) ==> final(table).holds(d),
{
    let ghost wanted = custom_descriptor(shape_views(shape@));
    let ghost before = table@;
    proof {
        use_type_invariant(&*table);
        law_interned_descriptors_are_distinct(before, shape_views(shape@));
    }
    if shape.len() == 0 {
        assert(shape_views(shape@) =~= Seq::empty());
        return share(&table.empty);
    }
    let mut i: usize = 0;
    while i < table.entries.len()
        invariant
            i <= table.entries@.len(),
            before == table@,
            *table == *old(table),
            distinct_descriptors(before),
            shape@.len() > 0,
            wanted == custom_descriptor(shape_views(shape@)),
            forall|k: int|
                0 <= k < table.entries@.len() ==> custom_fields(*(#[trigger] table.entries@[k])),
            forall|k: int| 0 <= k < i ==> (#[trigger] table@[k]) != wanted,
        decreases table.entries@.len() - i,
    {
        assert(custom_fields(*table.entries@[i as int]));
        assert(table@[i as int] == table.entries@[i as int]@);
        if has_shape(&table.entries[i], &shape) {
            assert(table@.contains(wanted));
            assert(wanted.fields.len() == shape@.len());
            assert(table.entries@.contains(table.entries@[i as int]));
            return share(&table.entries[i]);
        }
        i = i + 1;
    }
    let ghost known = table.entries@;
    let descriptor = Arc::new(build_custom_descriptor(&shape));
    let mut entries: Vec<Arc<AttributesDescriptor>> = Vec::new();
    std::mem::swap(&mut entries, &mut table.entries);
    entries.push(share(&descriptor));
    assert(entries@.map_values(|entry: Arc<AttributesDescriptor>| entry@) =~= before.push(wanted));
    table.entries = entries;
    proof {
        assert(table@ =~= before.push(wanted));
        assert(table.entries@ == known.push(descriptor));
        assert(table.entries@[known.len() as int] == descriptor);
        assert(wanted.fields.len() == shape@.len());
        assert forall|d: Arc<AttributesDescriptor>| known.contains(d) implies #[trigger]
            table.entries@.contains(d) by {
            let k = choose|k: int| 0 <= k < known.len() && known[k] == d;
            assert(table.entries@[k] == d);
        }
    }
    descriptor
}

/// The keys and value types of entries, in order.
pub open spec fn entries_shape(entries: Seq<Entry>) -> Seq<(Seq<char>, AttributeValueType)> {
    entries.map_values(|entry: Entry| (entry.key@, entry.value@.value_type()))
}

/// The attributes that entries make up, in order.
pub open spec fn custom_views(entries: Seq<Entry>) -> Seq<AttributeView> {
    entries.map_values(
        |entry: Entry|
            AttributeView {
                key: entry.key@,
                brief: "Custom user-defined attribute"@,
                value: entry.value@,
            },
    )
}

impl CustomAttributeSet {
    /// The descriptor that the set refers to.
    pub closed spec fn shared(&self) -> Arc<AttributesDescriptor> {
        self.descriptor
    }

    /// Keys known ahead of configuration: none, because configuration supplies them all.
    pub const KEY_SCHEMA: [&'static str; 0] = [];

    /// The attributes, in order.
    pub closed spec fn views(&self) -> Seq<AttributeView> {
        Seq::new(
            self.values@.len(),
            |i: int|
                AttributeView {
                    key: self.descriptor.fields@[i].key@,
                    brief: self.descriptor.fields@[i].brief@,
                    value: self.values@[i]@,
                },
        )
    }

    /// One value per field, of the type that the field says.
    #[verifier::type_invariant]
    closed spec fn inv(&self) -> bool {
        &&& custom_fields(*self.descriptor)
        &&& self.descriptor.fields@.len() == self.values@.len()
        &&& forall|i: int|
            0 <= i < self.values@.len() ==> (#[trigger] self.values@[i])@.value_type()
                == self.descriptor.fields@[i].value_type
    }

    /// Creates a custom attribute set from a map of key-value pairs, with a descriptor out of
    /// a table.
    pub fn new(custom_attrs: AttributeMap, table: &mut DescriptorTable) -> (r: CustomAttributeSet)
        ensures
            r.attribute_views() == custom_views(custom_attrs.entries@),
            final(table)@ == interned(old(table)@, entries_shape(custom_attrs.entries@)),
            r.shared()@ == custom_descriptor(entries_shape(custom_attrs.entries@)),
            final(table).holds(r.shared()),
            forall|d: Arc<AttributesDescriptor>| #[trigger]
                old(table).holds(d) ==> final(table).holds(d),
            distinct_descriptors(final(table)@),
    {
        let ghost entries = custom_attrs.entries@;
        let mut shape: Vec<(String, AttributeValueType)> = Vec::new();
        let mut values: Vec<AttributeValue> = Vec::new();
        let mut i: usize = 0;
        while i < custom_attrs.entries.len()
            invariant
                i <= custom_attrs.entries@.len(),
                entries == custom_attrs.entries@,
                shape@.len() == i,
                values@.len() == i,
                forall|k: int|
                    0 <= k < i ==> (#[trigger] shape@[k]).0@ == entries[k].key@ && shape@[k].1
                        == entries[k].value@.value_type(),
                forall|k: int| 0 <= k < i ==> (#[trigger] values@[k])@ == entries[k].value@,
            decreases custom_attrs.entries@.len() - i,
        {
            let entry = &custom_attrs.entries[i];
            shape.push((entry.key.clone(), entry.value.value_type()));
            values.push(entry.value.duplicate());
            i = i + 1;
        }
        assert(shape_views(shape@) =~= entries_shape(entries));
        let descriptor = intern_custom_descriptor(table, shape);
        proof {
            assert(descriptor@.fields.len() == descriptor.fields@.len());
            assert forall|k: int| 0 <= k < values@.len() implies
                descriptor.fields@[k].key@ == entries[k].key@ && descriptor.fields@[k].value_type
                == (#[trigger] values@[k])@.value_type() by {
                assert(descriptor@.fields[k] == descriptor.fields@[k]@);
            }
        }
        let r = CustomAttributeSet { descriptor, values };
        assert(r.views() =~= custom_views(entries));
        r
    }

    /// What a hash of the set covers: the number of values, then each key and the text of its
    /// value. How a double is written is up to the caller.
    pub fn hash_parts<F: Fn(Double) -> String>(&self, write_double: &F) -> (r: (
        usize,
        Vec<(String, String)>,
    ))
        requires
            forall|d: Double| call_requires(*write_double, (d,)),
        ensures
            r.0 == self.attribute_views().len(),
            r.1@.len() == self.attribute_views().len(),
            forall|i: int|
                0 <= i < r.1@.len() ==> (#[trigger] r.1@[i]).0@ == self.attribute_views()[i].key
                    && written(*write_double, self.attribute_views()[i].value, r.1@[i].1),
    {
        proof {
            use_type_invariant(self);
        }
        let mut out: Vec<(String, String)> = Vec::new();
        let mut i: usize = 0;
        while i < self.values.len()
            invariant
                i <= self.values@.len(),
                self.descriptor.fields@.len() == self.values@.len(),
                forall|d: Double| call_requires(*write_double, (d,)),
                out@.len() == i,
                forall|k: int|
                    0 <= k < i ==> (#[trigger] out@[k]).0@ == self.views()[k].key && written(
                        *write_double,
                        self.views()[k].value,
                        out@[k].1,
                    ),
            decreases self.values@.len() - i,
        {
            out.push(
                (
                    self.descriptor.fields[i].key.clone(),
                    self.values[i].to_string_value(write_double),
                ),
            );
            i = i + 1;
        }
        (self.values.len(), out)
    }
}

impl Clone for CustomAttributeSet {
    fn clone(&self) -> (r: CustomAttributeSet)
        ensures
            r.attribute_views() == self.attribute_views(),
            r.shared() == self.shared(),
    {
        proof {
            use_type_invariant(self);
        }
        let mut values: Vec<AttributeValue> = Vec::new();
        let mut i: usize = 0;
        while i < self.values.len()
            invariant
                i <= self.values@.len(),
                values@.len() == i,
                forall|k: int| 0 <= k < i ==> (#[trigger] values@[k])@ == self.values@[k]@,
            decreases self.values@.len() - i,
        {
            values.push(self.values[i].duplicate());
            i = i + 1;
        }
        let r = CustomAttributeSet { descriptor: share(&self.descriptor), values };
        assert(r.views() =~= self.views());
        r
    }
}

impl Default for CustomAttributeSet {
    fn default() -> (r: CustomAttributeSet)
        ensures
            r.attribute_views() == Seq::<AttributeView>::empty(),
    {
        let shape: Vec<(String, AttributeValueType)> = Vec::new();
        let descriptor = Arc::new(build_custom_descriptor(&shape));
        assert(descriptor@.fields.len() == descriptor.fields@.len());
        let r = CustomAttributeSet { descriptor, values: Vec::new() };
        assert(r.views() =~= Seq::<AttributeView>::empty());
        r
    }
}

impl AttributeSetHandler for CustomAttributeSet {
    open spec fn name_view(&self) -> Seq<char> {
        "custom.attrs"@
    }

    open spec fn attribute_views(&self) -> Seq<AttributeView> {
        self.views()
    }

    fn set_name(&self) -> &'static str {
        "custom.attrs"
    }

    fn attributes(&self) -> Vec<Attribute> {
        proof {
            use_type_invariant(self);
        }
        let mut out: Vec<Attribute> = Vec::new();
        let mut i: usize = 0;
        while i < self.values.len()
            invariant
                i <= self.values@.len(),
                self.descriptor.fields@.len() == self.values@.len(),
                out@.len() == i,
                forall|k: int| 0 <= k < i ==> (#[trigger] out@[k])@ == self.views()[k],
            decreases self.values@.len() - i,
        {
            let field = &self.descriptor.fields[i];
            out.push(
                Attribute {
                    key: field.key.clone(),
                    brief: field.brief,
                    value: self.values[i].duplicate(),
                },
            );
            i = i + 1;
        }
        assert(attribute_list(out@) =~= self.views());
        out
    }

    fn descriptor(&self) -> (r: Arc<AttributesDescriptor>)
        ensures
            r == self.shared(),
    {
        proof {
            use_type_invariant(self);
            assert(self.descriptor@.fields =~= descriptor_of(
                "custom.attrs"@,
                self.views(),
            ).fields);
        }
        share(&self.descriptor)
    }
}

/// Node attributes extended with user-configured custom telemetry attributes.
///
/// This is used only when a node has custom attributes. Nodes without use
/// [`NodeAttributeSet`] directly, avoiding empty noise in telemetry output.
#[derive(Clone, Debug)]
pub struct NodeWithCustomAttributeSet {
    /// Base node attributes.
    pub node_attrs: NodeAttributeSet,
    /// Custom user-defined telemetry attributes.
    pub custom_attrs: CustomAttributeSet,
}

impl Default for NodeWithCustomAttributeSet {
    fn default() -> (r: NodeWithCustomAttributeSet)
        ensures
            call_ensures(NodeAttributeSet::default, (), r.node_attrs),
            call_ensures(CustomAttributeSet::default, (), r.custom_attrs),
    {
        NodeWithCustomAttributeSet {
            node_attrs: NodeAttributeSet::default(),
            custom_attrs: CustomAttributeSet::default(),
        }
    }
}

impl AttributeSetHandler for NodeWithCustomAttributeSet {
    open spec fn name_view(&self) -> Seq<char> {
        "node.custom.attrs"@
    }

    open spec fn attribute_views(&self) -> Seq<AttributeView> {
        self.node_attrs.attribute_views() + self.custom_attrs.attribute_views()
    }

    fn set_name(&self) -> &'static str {
        "node.custom.attrs"
    }

    fn attributes(&self) -> Vec<Attribute> {
        let mut out: Vec<Attribute> = Vec::new();
        compose(&mut out, self.node_attrs.attributes());
        compose(&mut out, self.custom_attrs.attributes());
        assert(attribute_list(out@) =~= self.attribute_views());
        out
    }
}

/// Node attributes extended with a topic name.
#[derive(Clone, Debug, Hash)]
pub struct NodeWithTopicAttributeSet {
    /// Base node attributes.
    pub node_attrs: NodeAttributeSet,
    /// Topic name associated with the node metrics.
    pub topic: String,
}

impl Default for NodeWithTopicAttributeSet {
    fn default() -> (r: NodeWithTopicAttributeSet)
        ensures
            call_ensures(NodeAttributeSet::default, (), r.node_attrs),
            r.topic@ == ""@,
    {
        NodeWithTopicAttributeSet {
            node_attrs: NodeAttributeSet::default(),
            topic: "".to_owned(),
        }
    }
}

impl AttributeSetHandler for NodeWithTopicAttributeSet {
    open spec fn name_view(&self) -> Seq<char> {
        "node.topic.attrs"@
    }

    open spec fn attribute_views(&self) -> Seq<AttributeView> {
        self.node_attrs.attribute_views() + seq![
            text("topic", "Topic name associated with the node metrics.", self.topic@),
        ]
    }

    fn set_name(&self) -> &'static str {
        "node.topic.attrs"
    }

    fn attributes(&self) -> Vec<Attribute> {
        let mut out: Vec<Attribute> = Vec::new();
        compose(&mut out, self.node_attrs.attributes());
        put_text(
            &mut out,
            "topic",
            "Topic name associated with the node metrics.",
            self.topic.as_str(),
        );
        assert(attribute_list(out@) =~= self.attribute_views());
        out
    }
}

/// Node attributes (including custom telemetry attributes) extended with a topic name.
#[derive(Clone, Debug)]
pub struct NodeWithCustomTopicAttributeSet {
    /// Base node and custom telemetry attributes.
    pub node_custom_attrs: NodeWithCustomAttributeSet,
    /// Topic name associated with the node metrics.
    pub topic: String,
}

impl Default for NodeWithCustomTopicAttributeSet {
    fn default() -> (r: NodeWithCustomTopicAttributeSet)
        ensures
            call_ensures(NodeWithCustomAttributeSet::default, (), r.node_custom_attrs),
            r.topic@ == ""@,
    {
        NodeWithCustomTopicAttributeSet {
            node_custom_attrs: NodeWithCustomAttributeSet::default(),
            topic: "".to_owned(),
        }
    }
}

impl AttributeSetHandler for NodeWithCustomTopicAttributeSet {
    open spec fn name_view(&self) -> Seq<char> {
        "node.custom.topic.attrs"@
    }

    open spec fn attribute_views(&self) -> Seq<AttributeView> {
        self.node_custom_attrs.attribute_views() + seq![
            text("topic", "Topic name associated with the node metrics.", self.topic@),
        ]
    }

    fn set_name(&self) -> &'static str {
        "node.custom.topic.attrs"
    }

    fn attributes(&self) -> Vec<Attribute> {
        let mut out: Vec<Attribute> = Vec::new();
        compose(&mut out, self.node_custom_attrs.attributes());
        put_text(
            &mut out,
            "topic",
            "Topic name associated with the node metrics.",
            self.topic.as_str(),
        );
        assert(attribute_list(out@) =~= self.attribute_views());
        out
    }
}

/// Channel endpoint attributes for a node-hosted channel.
#[derive(Clone, Debug, Hash)]
pub struct NodeChannelAttributeSet {
    /// Unique channel identifier within the host scope.
    pub channel_id: String,
    /// Node attributes.
    pub node_attrs: NodeAttributeSet,
    /// Port name for the channel endpoint.
    ///
    /// On the sender side, this is the port to which the channel is connected. On the
    /// receiver side, this defaults to the node's input port.
    pub node_port: String,
    /// Channel payload kind ("control" or "pdata").
    pub channel_kind: ChannelKind,
    /// Concurrency mode of the channel ("local" or "shared").
    pub channel_mode: ChannelMode,
    /// Channel type ("mpsc" or "mpmc").
    pub channel_type: ChannelType,
    /// Channel implementation ("tokio", "flume", "internal").
    pub channel_impl: ChannelImplementation,
}

impl AttributeSetHandler for NodeChannelAttributeSet {
    open spec fn name_view(&self) -> Seq<char> {
        "node.channel.attrs"@
    }

    open spec fn attribute_views(&self) -> Seq<AttributeView> {
        seq![
            text(
                "channel.id",
                "Unique channel identifier within the host scope.",
                self.channel_id@,
            ),
        ] + self.node_attrs.attribute_views() + seq![
            text("node.port", "Port name for the channel endpoint.", self.node_port@),
            text(
                "channel.kind",
                "Channel payload kind (\"control\" or \"pdata\").",
                self.channel_kind.name(),
            ),
            text(
                "channel.mode",
                "Concurrency mode of the channel (\"local\" or \"shared\").",
                self.channel_mode.name(),
            ),
            text("channel.type", "Channel type (\"mpsc\" or \"mpmc\").", self.channel_type.name()),
            text(
                "channel.impl",
                "Channel implementation (\"tokio\", \"flume\", \"internal\").",
                self.channel_impl.name(),
            ),
        ]
    }

    fn set_name(&self) -> &'static str {
        "node.channel.attrs"
    }

    fn attributes(&self) -> Vec<Attribute> {
        let mut out: Vec<Attribute> = Vec::new();
        put_text(
            &mut out,
            "channel.id",
            "Unique channel identifier within the host scope.",
            self.channel_id.as_str(),
        );
        compose(&mut out, self.node_attrs.attributes());
        put_text(
            &mut out,
            "node.port",
            "Port name for the channel endpoint.",
            self.node_port.as_str(),
        );
        put_text(
            &mut out,
            "channel.kind",
            "Channel payload kind (\"control\" or \"pdata\").",
            self.channel_kind.as_str(),
        );
        put_text(
            &mut out,
            "channel.mode",
            "Concurrency mode of the channel (\"local\" or \"shared\").",
            self.channel_mode.as_str(),
        );
        put_text(
            &mut out,
            "channel.type",
            "Channel type (\"mpsc\" or \"mpmc\").",
            self.channel_type.as_str(),
        );
        put_text(
            &mut out,
            "channel.impl",
            "Channel implementation (\"tokio\", \"flume\", \"internal\").",
            self.channel_impl.as_str(),
        );
        assert(attribute_list(out@) =~= self.attribute_views());
        out
    }
}

/// Channel endpoint attributes for a node-hosted channel, extended with user-configured
/// custom telemetry attributes.
#[derive(Clone, Debug)]
pub struct NodeWithCustomChannelAttributeSet {
    /// Base node channel attributes.
    pub channel_attrs: NodeChannelAttributeSet,
    /// Custom user-defined telemetry attributes.
    pub custom_attrs: CustomAttributeSet,
}

impl AttributeSetHandler for NodeWithCustomChannelAttributeSet {
    open spec fn name_view(&self) -> Seq<char> {
        "node.channel.custom.attrs"@
    }

    open spec fn attribute_views(&self) -> Seq<AttributeView> {
        self.channel_attrs.attribute_views() + self.custom_attrs.attribute_views()
    }

    fn set_name(&self) -> &'static str {
        "node.channel.custom.attrs"
    }

    fn attributes(&self) -> Vec<Attribute> {
        let mut out: Vec<Attribute> = Vec::new();
        compose(&mut out, self.channel_attrs.attributes());
        compose(&mut out, self.custom_attrs.attributes());
        assert(attribute_list(out@) =~= self.attribute_views());
        out
    }
}

/// Channel endpoint attributes for an extension-hosted channel.
///
/// Extensions only have a single kind of control channel with many producers and one
/// consumer, so `channel.kind` and `channel.type` are left out as invariants.
#[derive(Clone, Debug, Hash)]
pub struct ExtensionChannelAttributeSet {
    /// Unique channel identifier within the host scope.
    pub channel_id: String,
    /// Extension attributes.
    pub extension_attrs: ExtensionAttributeSet,
    /// Concurrency mode of the channel ("local" or "shared").
    pub channel_mode: ChannelMode,
    /// Channel implementation ("tokio", "internal").
    pub channel_impl: ChannelImplementation,
}

impl AttributeSetHandler for ExtensionChannelAttributeSet {
    open spec fn name_view(&self) -> Seq<char> {
        "extension.channel.attrs"@
    }

    open spec fn attribute_views(&self) -> Seq<AttributeView> {
        seq![
            text(
                "channel.id",
                "Unique channel identifier within the host scope.",
                self.channel_id@,
            ),
        ] + self.extension_attrs.attribute_views() + seq![
            text(
                "channel.mode",
                "Concurrency mode of the channel (\"local\" or \"shared\").",
                self.channel_mode.name(),
            ),
            text(
                "channel.impl",
                "Channel implementation (\"tokio\", \"internal\").",
                self.channel_impl.name(),
            ),
        ]
    }

    fn set_name(&self) -> &'static str {
        "extension.channel.attrs"
    }

    fn attributes(&self) -> Vec<Attribute> {
        let mut out: Vec<Attribute> = Vec::new();
        put_text(
            &mut out,
            "channel.id",
            "Unique channel identifier within the host scope.",
            self.channel_id.as_str(),
        );
        compose(&mut out, self.extension_attrs.attributes());
        put_text(
            &mut out,
            "channel.mode",
            "Concurrency mode of the channel (\"local\" or \"shared\").",
            self.channel_mode.as_str(),
        );
        put_text(
            &mut out,
            "channel.impl",
            "Channel implementation (\"tokio\", \"internal\").",
            self.channel_impl.as_str(),
        );
        assert(attribute_list(out@) =~= self.attribute_views());
        out
    }
}

/// A map of configured attributes holds exactly the keys of its entries, and each key has the
/// value of its entry. So the order of the entries does not matter.
pub proof fn law_configured_keys_keep_their_values(entries: Seq<ConfigEntry>)
    requires
        forall|i: int, j: int|
            0 <= i < j < entries.len() ==> (#[trigger] entries[i]).key@ != (
            #[trigger] entries[j]).key@,
    ensures
        forall|key: Seq<char>| #[trigger]
            entries_map(entries).contains_key(key) <==> exists|i: int|
                0 <= i < entries.len() && (#[trigger] entries[i]).key@ == key,
        forall|i: int|
            0 <= i < entries.len() ==> entries_map(entries)[(#[trigger] entries[i]).key@]
                == telemetry_value(entries[i].attribute.value),
    decreases entries.len(),
{
    if entries.len() > 0 {
        let rest = entries.drop_last();
        let last = entries.len() - 1;
        assert forall|i: int, j: int| 0 <= i < j < rest.len() implies (#[trigger] rest[i]).key@ != (
        #[trigger] rest[j]).key@ by {
            assert(rest[i] == entries[i]);
            assert(rest[j] == entries[j]);
        }
        law_configured_keys_keep_their_values(rest);
        assert forall|key: Seq<char>| #[trigger]
            entries_map(entries).contains_key(key) <==> exists|i: int|
                0 <= i < entries.len() && (#[trigger] entries[i]).key@ == key by {
            if entries_map(entries).contains_key(key) {
                if key == entries[last].key@ {
                } else {
                    assert(entries_map(rest).contains_key(key));
                    let i = choose|i: int| 0 <= i < rest.len() && (#[trigger] rest[i]).key@ == key;
                    assert(entries[i] == rest[i]);
                }
            }
            if exists|i: int| 0 <= i < entries.len() && (#[trigger] entries[i]).key@ == key {
                let i = choose|i: int|
                    0 <= i < entries.len() && (#[trigger] entries[i]).key@ == key;
                if i < last {
                    assert(rest[i].key@ == key);
                    assert(entries_map(rest).contains_key(key));
                }
            }
        }
        assert forall|i: int| 0 <= i < entries.len() implies entries_map(entries)[(
        #[trigger] entries[i]).key@] == telemetry_value(entries[i].attribute.value) by {
            if i < last {
                assert(entries[i].key@ != entries[last].key@);
                assert(rest[i] == entries[i]);
            }
        }
    }
}

/// Asking for a descriptor a second time gives no new one.
pub proof fn law_interning_twice_adds_nothing(
    table: Seq<DescriptorView>,
    shape: Seq<(Seq<char>, AttributeValueType)>,
)
    ensures
        interned(interned(table, shape), shape) == interned(table, shape),
{
    if shape.len() > 0 && !table.contains(custom_descriptor(shape)) {
        assert(table.push(custom_descriptor(shape))[table.len() as int] == custom_descriptor(
            shape,
        ));
    }
}

/// Asking for a descriptor leaves those that are there in their places, and adds at most one.
pub proof fn law_interned_descriptors_stay(
    table: Seq<DescriptorView>,
    shape: Seq<(Seq<char>, AttributeValueType)>,
    i: int,
)
    requires
        0 <= i < table.len(),
    ensures
        interned(table, shape)[i] == table[i],
        interned(table, shape).len() <= table.len() + 1,
{
}

/// Asking for descriptors never makes one occur twice.
pub proof fn law_interned_descriptors_are_distinct(
    table: Seq<DescriptorView>,
    shape: Seq<(Seq<char>, AttributeValueType)>,
)
    requires
        distinct_descriptors(table),
    ensures
        distinct_descriptors(interned(table, shape)),
{
    let added = custom_descriptor(shape);
    if shape.len() > 0 && !table.contains(added) {
        assert(added.fields.len() == shape.len());
        assert forall|i: int, j: int|
            0 <= i < table.len() + 1 && 0 <= j < table.len() + 1 && i != j implies table.push(
            added,
        )[i] != table.push(added)[j] by {
            if i == table.len() {
                assert(table.contains(table[j]));
            }
            if j == table.len() {
                assert(table.contains(table[i]));
            }
        }
    }
}

/// A table holds one descriptor for each sequence of keys and value types: two that it holds
/// are the same exactly where their contents are. So two calls that ask one table for a
/// descriptor are given the same one exactly where they ask with the same shape, whatever calls
/// lie between.
pub proof fn law_one_descriptor_per_shape(
    table: DescriptorTable,
    a: Arc<AttributesDescriptor>,
    b: Arc<AttributesDescriptor>,
    a_shape: Seq<(Seq<char>, AttributeValueType)>,
    b_shape: Seq<(Seq<char>, AttributeValueType)>,
)
    requires
        distinct_descriptors(table@),
        table.holds(a),
        table.holds(b),
        a@ == custom_descriptor(a_shape),
        b@ == custom_descriptor(b_shape),
    ensures
        a == b <==> a_shape == b_shape,
{
    if a@ == b@ {
        law_shapes_tell_descriptors_apart(a_shape, b_shape);
        if a@.fields.len() > 0 {
            let i = choose|i: int| 0 <= i < table.entries@.len() && table.entries@[i] == a;
            let j = choose|j: int| 0 <= j < table.entries@.len() && table.entries@[j] == b;
            assert(table@[i] == a@);
            assert(table@[j] == b@);
        }
    }
}

/// Different keys or value types, or a different order of them, make different descriptors.
pub proof fn law_shapes_tell_descriptors_apart(
    a: Seq<(Seq<char>, AttributeValueType)>,
    b: Seq<(Seq<char>, AttributeValueType)>,
)
    requires
        custom_descriptor(a) == custom_descriptor(b),
    ensures
        a == b,
{
    let left = custom_descriptor(a).fields;
    let right = custom_descriptor(b).fields;
    assert(a.len() == left.len());
    assert(b.len() == right.len());
    assert forall|i: int| 0 <= i < a.len() implies a[i] == b[i] by {
        assert(left[i].key == a[i].0 && left[i].value_type == a[i].1);
        assert(right[i].key == b[i].0 && right[i].value_type == b[i].1);
    }
    assert(a =~= b);
}

/// Each configured key becomes one attribute of its own, with its value and no other.
pub proof fn law_custom_keys_are_individual_attributes(map: AttributeMap, i: int, j: int)
    requires
        map.wf(),
        0 <= i < j < map.entries@.len(),
    ensures
        custom_views(map.entries@).len() == map.entries@.len(),
        custom_views(map.entries@)[i].key != custom_views(map.entries@)[j].key,
        map@.contains_key(custom_views(map.entries@)[i].key),
        map@[custom_views(map.entries@)[i].key] == custom_views(map.entries@)[i].value,
{
    map.lemma_entry(i);
    crate::text::lemma_precedes_irreflexive(map.entries@[i].key@, 0);
    assert(crate::text::precedes(map.entries@[i].key@, map.entries@[j].key@));
}

/// The values of attributes, in order.
pub open spec fn value_views(attributes: Seq<AttributeView>) -> Seq<ValueView> {
    attributes.map_values(|a: AttributeView| a.value)
}

/// Distinct pipelines make distinct scopes: two pipeline scopes with the same attribute values
/// have the same pipeline, group, engine attributes and generation, regardless of the
/// characters in their identifiers.
pub proof fn law_pipeline_scopes_do_not_collide(a: PipelineAttributeSet, b: PipelineAttributeSet)
    requires
        value_views(scope_views("pipeline"@, a)) == value_views(scope_views("pipeline"@, b)),
    ensures
        a.pipeline_id@ == b.pipeline_id@,
        a.pipeline_group_id@ == b.pipeline_group_id@,
        a.engine_attrs.core_id == b.engine_attrs.core_id,
        a.engine_attrs.numa_node_id == b.engine_attrs.numa_node_id,
        a.deployment_generation == b.deployment_generation,
{
    let left = value_views(scope_views("pipeline"@, a));
    let right = value_views(scope_views("pipeline"@, b));
    assert(left[1] == ValueView::String(a.pipeline_id@));
    assert(right[1] == ValueView::String(b.pipeline_id@));
    assert(left[2] == ValueView::UInt(a.engine_attrs.core_id as u64));
    assert(right[2] == ValueView::UInt(b.engine_attrs.core_id as u64));
    assert(left[3] == ValueView::UInt(a.engine_attrs.numa_node_id as u64));
    assert(right[3] == ValueView::UInt(b.engine_attrs.numa_node_id as u64));
    assert(left[4] == ValueView::String(a.pipeline_group_id@));
    assert(right[4] == ValueView::String(b.pipeline_group_id@));
    assert(left[5] == ValueView::UInt(a.deployment_generation));
    assert(right[5] == ValueView::UInt(b.deployment_generation));
}

/// The exported names tell the values of each channel dimension apart.
pub proof fn law_channel_names_tell_values_apart()
    ensures
        forall|a: ChannelKind, b: ChannelKind| #[trigger] a.name() == #[trigger] b.name() ==> a
            == b,
        forall|a: ChannelMode, b: ChannelMode| #[trigger] a.name() == #[trigger] b.name() ==> a
            == b,
        forall|a: ChannelType, b: ChannelType| #[trigger] a.name() == #[trigger] b.name() ==> a
            == b,
        forall|a: ChannelImplementation, b: ChannelImplementation| #[trigger]
            a.name() == #[trigger] b.name() ==> a == b,
{
    reveal_strlit("control");
    reveal_strlit("pdata");
    reveal_strlit("local");
    reveal_strlit("shared");
    reveal_strlit("mpsc");
    reveal_strlit("mpmc");
    reveal_strlit("internal");
    reveal_strlit("tokio");
    reveal_strlit("flume");
    assert("control"@.len() != "pdata"@.len());
    assert("local"@.len() != "shared"@.len());
    assert("mpsc"@[2] != "mpmc"@[2]);
    assert("internal"@.len() != "tokio"@.len());
    assert("internal"@.len() != "flume"@.len());
    assert("tokio"@[0] != "flume"@[0]);
}

} // verus!
