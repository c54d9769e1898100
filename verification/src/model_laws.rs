//! What the plain values that batches are modelled by mean.

use crate::column::{
    Cell, ColumnView, DataType, ItemsView, KeyType, LeafView, ListView, ScalarType, ScalarsView, Slot,
    StructView,
};
use crate::double::Double;
use crate::error::Error;
use crate::payload::{ArrowPayloadType, AttributeValueType, MetricType};
use crate::records::{BatchView, Signal};
use vstd::prelude::*;

verus! {

/// A character is a decimal digit.
pub open spec fn is_digit(c: char) -> bool {
    '0' as int <= c as int <= '9' as int
}

/// The number that decimal digits make up.
pub open spec fn number_of(digits: Seq<char>) -> int
    decreases digits.len(),
{
    if digits.len() == 0 {
        0
    } else {
        10 * number_of(digits.drop_last()) + (digits.last() as int - '0' as int)
    }
}

/// A text is a natural number in decimal: digits that make it up, without leading zeros.
pub open spec fn is_natural_text(text: Seq<char>, n: int) -> bool {
    &&& text.len() > 0
    &&& forall|i: int| 0 <= i < text.len() ==> is_digit(#[trigger] text[i])
    &&& number_of(text) == n
    &&& text[0] == '0' ==> text.len() == 1
}

/// A text is an integer in decimal: a natural number, behind a minus sign where the integer is
/// negative.
pub open spec fn is_integer_text(text: Seq<char>, n: int) -> bool {
    if n < 0 {
        text.len() > 0 && text[0] == '-' && is_natural_text(text.skip(1), -n)
    } else {
        is_natural_text(text, n)
    }
}

/// A digit is written as the character that stands for it.
proof fn lemma_digit(d: nat)
    requires
        d < 10,
    ensures
        crate::text::digit(d).len() == 1,
        crate::text::digit(d)[0] as int == '0' as int + d,
        is_digit(crate::text::digit(d)[0]),
{
    reveal_strlit("0");
    reveal_strlit("1");
    reveal_strlit("2");
    reveal_strlit("3");
    reveal_strlit("4");
    reveal_strlit("5");
    reveal_strlit("6");
    reveal_strlit("7");
    reveal_strlit("8");
    reveal_strlit("9");
}

/// A number is written in decimal: reading the digits gives the number back, and there are no
/// leading zeros.
pub proof fn law_written_naturals(n: nat)
    ensures
        is_natural_text(crate::text::decimal(n), n as int),
        n > 0 ==> crate::text::decimal(n)[0] != '0',
    decreases n,
{
    lemma_digit(n % 10);
    let text = crate::text::decimal(n);
    let last = crate::text::digit(n % 10);
    if n < 10 {
        assert(text.drop_last() =~= Seq::empty());
        assert(number_of(text.drop_last()) == 0);
    } else {
        law_written_naturals(n / 10);
        let front = crate::text::decimal(n / 10);
        assert(text.drop_last() =~= front);
        assert(text.last() == last[0]);
        assert(text[0] == front[0]);
        assert forall|i: int| 0 <= i < text.len() implies is_digit(#[trigger] text[i]) by {
            if i < front.len() {
                assert(text[i] == front[i]);
            }
        }
    }
}

/// An integer is written in decimal, with a minus sign exactly where it is negative.
pub proof fn law_written_integers(n: int)
    ensures
        is_integer_text(crate::text::signed_decimal(n), n),
        n >= 0 ==> is_integer_text(crate::text::decimal(n as nat), n),
{
    if n < 0 {
        reveal_strlit("-");
        law_written_naturals((-n) as nat);
        let text = crate::text::signed_decimal(n);
        assert(text.skip(1) =~= crate::text::decimal((-n) as nat));
    } else {
        law_written_naturals(n as nat);
    }
}

/// One text comes before another where the first character that differs is smaller, or where it
/// ends first.
pub open spec fn comes_first(a: Seq<char>, b: Seq<char>, i: int) -> bool {
    &&& 0 <= i <= a.len()
    &&& i < b.len()
    &&& forall|k: int| 0 <= k < i ==> (#[trigger] a[k]) == b[k]
    &&& i == a.len() || (a[i] as int) < (b[i] as int)
}

/// Texts are ordered by the first character that differs, and a text comes after its own
/// beginnings.
pub proof fn law_order_of_texts(a: Seq<char>, b: Seq<char>)
    ensures
        crate::text::precedes(a, b) <==> exists|i: int| #[trigger] comes_first(a, b, i),
{
    lemma_order_of_texts(a, b, 0);
}

/// Texts that agree up to a position are ordered by what comes from there on.
proof fn lemma_order_of_texts(a: Seq<char>, b: Seq<char>, from: int)
    requires
        0 <= from <= a.len(),
        from <= b.len(),
        forall|k: int| 0 <= k < from ==> (#[trigger] a[k]) == b[k],
    ensures
        crate::text::precedes_from(a, b, from) <==> exists|i: int| #[trigger] comes_first(a, b, i),
    decreases b.len() - from,
{
    if from < b.len() && from < a.len() && a[from] == b[from] {
        lemma_order_of_texts(a, b, from + 1);
    } else {
        if crate::text::precedes_from(a, b, from) {
            assert(comes_first(a, b, from));
        }
        if exists|i: int| #[trigger] comes_first(a, b, i) {
            let i = choose|i: int| #[trigger] comes_first(a, b, i);
            if i < from {
                assert(a[i] == b[i]);
            } else if from < i {
                assert(a[from] == b[from]);
            }
        }
    }
}

/// A double is finite exactly where its exponent bits are not all set.
pub proof fn law_finite_doubles(d: Double, r: bool)
    requires
        call_ensures(Double::is_finite, (d,), r),
    ensures
        r == d.finite(),
        r <==> d.bits & 0x7ff0_0000_0000_0000 != 0x7ff0_0000_0000_0000,
{
    let bits = d.bits;
    assert((bits / 0x10_0000_0000_0000) % 2048 != 2047 <==> bits & 0x7ff0_0000_0000_0000
        != 0x7ff0_0000_0000_0000) by (bit_vector);
}

/// The two infinities are written `inf` and `-inf`, and everything else that is not finite `NaN`.
pub proof fn law_written_non_finite_doubles(d: Double, text: &'static str)
    requires
        !d.finite(),
        call_ensures(Double::write_non_finite, (d,), text),
    ensures
        text@ == d.non_finite_text(),
        d.bits == 0x7ff0_0000_0000_0000 ==> text@ == "inf"@,
        d.bits == 0xfff0_0000_0000_0000 ==> text@ == "-inf"@,
        d.bits != 0x7ff0_0000_0000_0000 && d.bits != 0xfff0_0000_0000_0000 ==> text@ == "NaN"@,
{
    let bits = d.bits;
    assert((bits / 0x10_0000_0000_0000) % 2048 == 2047 ==> (bits % 0x10_0000_0000_0000 == 0 <==> (
    bits == 0x7ff0_0000_0000_0000 || bits == 0xfff0_0000_0000_0000))) by (bit_vector);
}

/// Metric types have the codes from 0 to 5.
pub proof fn law_metric_type_codes(code: u8, r: Option<MetricType>)
    requires
        call_ensures(MetricType::from_code, (code,), r),
    ensures
        r == MetricType::decoded(code),
        r == Some(MetricType::Empty) <==> code == 0,
        r == Some(MetricType::Gauge) <==> code == 1,
        r == Some(MetricType::Sum) <==> code == 2,
        r == Some(MetricType::Histogram) <==> code == 3,
        r == Some(MetricType::ExponentialHistogram) <==> code == 4,
        r == Some(MetricType::Summary) <==> code == 5,
        r is None <==> code > 5,
{
}

/// Attribute value types have the codes from 0 to 7.
pub proof fn law_value_type_codes(code: u8, r: Option<AttributeValueType>)
    requires
        call_ensures(AttributeValueType::from_code, (code,), r),
    ensures
        r == AttributeValueType::decoded(code),
        r == Some(AttributeValueType::Empty) <==> code == 0,
        r == Some(AttributeValueType::Str) <==> code == 1,
        r == Some(AttributeValueType::Int) <==> code == 2,
        r == Some(AttributeValueType::Double) <==> code == 3,
        r == Some(AttributeValueType::Bool) <==> code == 4,
        r == Some(AttributeValueType::MapValue) <==> code == 5,
        r == Some(AttributeValueType::Slice) <==> code == 6,
        r == Some(AttributeValueType::Bytes) <==> code == 7,
        r is None <==> code > 7,
{
}

/// Payload types have a slot each, and no two share one.
pub proof fn law_slots(a: ArrowPayloadType, b: ArrowPayloadType, i: usize, j: usize)
    requires
        call_ensures(ArrowPayloadType::slot_index, (a,), i),
        call_ensures(ArrowPayloadType::slot_index, (b,), j),
    ensures
        i < 28,
        i == j <==> a == b,
{
}

/// The records of a message are in the payload of its signal.
pub proof fn law_roots(signal: Signal)
    ensures
        signal == Signal::Logs ==> signal.root() == ArrowPayloadType::Logs,
        signal == Signal::Metrics ==> signal.root() == ArrowPayloadType::UnivariateMetrics,
        signal == Signal::MultivariateMetrics ==> signal.root()
            == ArrowPayloadType::MultivariateMetrics,
        signal == Signal::Traces ==> signal.root() == ArrowPayloadType::Spans,
{
}

/// A message holds what was put in place last under each payload type, and nothing else changes.
pub proof fn law_payloads_put_in_place(
    records: &mut crate::records::OtapArrowRecords,
    t: ArrowPayloadType,
    payload: crate::records::Payload,
    u: ArrowPayloadType,
)
    requires
        call_ensures(crate::records::OtapArrowRecords::put, (records, t, payload), ()),
    ensures
        final(records).wf(),
        final(records)@.root == old(records)@.root,
        final(records)@.payloads.contains_key(t),
        final(records)@.payloads[t] == payload@,
        u != t ==> final(records)@.payloads.contains_key(u) == old(
            records,
        )@.payloads.contains_key(u),
        u != t && old(records)@.payloads.contains_key(u) ==> final(records)@.payloads[u] == old(
            records,
        )@.payloads[u],
{
}

/// A batch put in place is there as it is, without transport encodings.
pub proof fn law_batches_put_in_place(
    records: &mut crate::records::OtapArrowRecords,
    t: ArrowPayloadType,
    batch: crate::records::RecordBatch,
    u: ArrowPayloadType,
)
    requires
        call_ensures(crate::records::OtapArrowRecords::set, (records, t, batch), ()),
    ensures
        final(records)@.root == old(records)@.root,
        final(records)@.payloads.contains_key(t),
        final(records)@.payloads[t].stored == batch@,
        final(records)@.payloads[t].plain == Ok::<BatchView, Error>(batch@),
        u != t ==> final(records)@.payloads.contains_key(u) == old(
            records,
        )@.payloads.contains_key(u),
        u != t && old(records)@.payloads.contains_key(u) ==> final(records)@.payloads[u] == old(
            records,
        )@.payloads[u],
{
}

/// What a message holds under a payload type is what is found there, as stored and as decoded.
pub proof fn law_payloads_found(
    records: crate::records::OtapArrowRecords,
    t: ArrowPayloadType,
    found: Option<&crate::records::Payload>,
)
    requires
        call_ensures(crate::records::OtapArrowRecords::get, (&records, t), found),
    ensures
        found is Some <==> records@.payloads.contains_key(t),
        found is Some ==> {
            &&& records@.payloads[t].stored == found->0.stored@
            &&& match found->0.decoded {
                Some(Ok(batch)) => records@.payloads[t].plain == Ok::<BatchView, Error>(batch@),
                Some(Err(e)) => records@.payloads[t].plain == Err::<BatchView, Error>(e),
                None => records@.payloads[t].plain == Ok::<BatchView, Error>(found->0.stored@),
            }
        },
{
}

/// The value in a row of a scalar column is the one stored there, and nothing where it is null.
pub proof fn law_cells(values: ScalarsView, row: int)
    requires
        0 <= row < values.len(),
    ensures
        values.cells().len() == values.len(),
        values.cells()[row] == values.cell(row),
        match values {
            ScalarsView::UInt8(v) => v.len() == values.len() && values.cell(row) == (
            if v[row].valid {
                Some(Cell::UInt8(v[row].value))
            } else {
                None
            }),
            ScalarsView::UInt16(v) => v.len() == values.len() && values.cell(row) == (
            if v[row].valid {
                Some(Cell::UInt16(v[row].value))
            } else {
                None
            }),
            ScalarsView::UInt32(v) => v.len() == values.len() && (v[row] is None ==> values.cell(row)
                is None) && (v[row] is Some ==> values.cell(row) == Some(Cell::UInt32(v[row]->0))),
            ScalarsView::UInt64(v) => v.len() == values.len() && (v[row] is None ==> values.cell(row)
                is None) && (v[row] is Some ==> values.cell(row) == Some(Cell::UInt64(v[row]->0))),
            ScalarsView::Int64(v) => v.len() == values.len() && (v[row] is None ==> values.cell(row)
                is None) && (v[row] is Some ==> values.cell(row) == Some(Cell::Int64(v[row]->0))),
            ScalarsView::Float64(v) => v.len() == values.len() && (v[row] is None ==> values.cell(
                row,
            ) is None) && (v[row] is Some ==> values.cell(row) == Some(Cell::Float64(v[row]->0))),
            ScalarsView::Boolean(v) => v.len() == values.len() && (v[row] is None ==> values.cell(
                row,
            ) is None) && (v[row] is Some ==> values.cell(row) == Some(Cell::Boolean(v[row]->0))),
            ScalarsView::Utf8(v) => v.len() == values.len() && (v[row] is None ==> values.cell(row)
                is None) && (v[row] is Some ==> values.cell(row) == Some(Cell::Utf8(v[row]->0))),
            ScalarsView::Binary(v) => v.len() == values.len() && (v[row] is None ==> values.cell(
                row,
            ) is None) && (v[row] is Some ==> values.cell(row) == Some(Cell::Binary(v[row]->0))),
            ScalarsView::Other(_, v) => v.len() == values.len() && (v[row] is None ==> values.cell(
                row,
            ) is None) && (v[row] is Some ==> values.cell(row) == Some(Cell::Other(v[row]->0))),
        },
{
}

/// The type of a scalar column is that of its values, and a dictionary has that of its keys too.
pub proof fn law_types_of_columns(column: ColumnView)
    ensures
        column is Struct ==> column.data_type() == DataType::Struct,
        column is List && column->List_0.items is Struct ==> column.data_type() == DataType::List(
            crate::column::ItemType::Struct,
        ),
        match column {
            ColumnView::Leaf(LeafView::Plain(values)) => column.data_type() == DataType::Scalar(
                values.scalar_type(),
            ),
            ColumnView::Leaf(LeafView::Dictionary(key, _, values)) => column.data_type()
                == DataType::Dictionary(key, values.scalar_type()),
            ColumnView::List(list) => match list.items {
                ItemsView::Leaf(LeafView::Plain(values)) => column.data_type() == DataType::List(
                    crate::column::ItemType::Scalar(values.scalar_type()),
                ),
                ItemsView::Leaf(LeafView::Dictionary(key, _, values)) => column.data_type()
                    == DataType::List(
                    crate::column::ItemType::Dictionary(key, values.scalar_type()),
                ),
                ItemsView::Struct(_) => true,
            },
            ColumnView::Struct(_) => true,
        },
{
}

/// The type of plain values.
pub proof fn law_types_of_scalars(values: ScalarsView)
    ensures
        values is UInt8 <==> values.scalar_type() == ScalarType::UInt8,
        values is UInt16 <==> values.scalar_type() == ScalarType::UInt16,
        values is UInt32 <==> values.scalar_type() == ScalarType::UInt32,
        values is UInt64 <==> values.scalar_type() == ScalarType::UInt64,
        values is Int64 <==> values.scalar_type() == ScalarType::Int64,
        values is Float64 <==> values.scalar_type() == ScalarType::Float64,
        values is Boolean <==> values.scalar_type() == ScalarType::Boolean,
        values is Utf8 <==> values.scalar_type() == ScalarType::Utf8,
        values is Binary <==> values.scalar_type() == ScalarType::Binary,
        values is Other <==> values.scalar_type() is Other,
        values is Other ==> values.scalar_type() == ScalarType::Other(values->Other_0),
{
}

/// A text takes up its UTF-8 bytes, a byte string its own, and anything else none.
pub proof fn law_bytes_of_a_cell(cell: Option<Cell>)
    ensures
        crate::column::cells_bytes(seq![cell]) == (match cell {
            Some(Cell::Utf8(text)) => vstd::utf8::encode_utf8(text).len(),
            Some(Cell::Binary(bytes)) => bytes.len(),
            _ => 0,
        }),
        crate::column::cells_bytes(Seq::empty()) == 0,
{
    let one = seq![cell];
    assert(one.drop_last() =~= Seq::empty());
    assert(crate::column::cells_bytes(one.drop_last()) == 0);
    assert(one.last() == cell);
}

/// Cells put one behind the other take up the bytes of both together.
pub proof fn law_bytes_add_up(a: Seq<Option<Cell>>, b: Seq<Option<Cell>>)
    ensures
        crate::column::cells_bytes(a + b) == crate::column::cells_bytes(a)
            + crate::column::cells_bytes(b),
    decreases b.len(),
{
    if b.len() == 0 {
        assert(a + b =~= a);
    } else {
        law_bytes_add_up(a, b.drop_last());
        assert((a + b).drop_last() =~= a + b.drop_last());
    }
}

/// A text or binary column fits its buffer exactly where its values take up no more bytes than
/// 32-bit offsets reach.
pub proof fn law_values_that_fit(values: crate::column::Scalars, r: bool)
    requires
        call_ensures(crate::column::Scalars::fits, (&values,), r),
    ensures
        r == values@.wf(),
        r <==> crate::column::cells_bytes(values@.cells()) <= 0x7fff_ffff,
{
}

/// The largest key of each type.
pub proof fn law_largest_keys(key: KeyType, r: u64)
    requires
        call_ensures(KeyType::largest_key, (key,), r),
    ensures
        r == key.largest(),
        key == KeyType::Int8 ==> r == i8::MAX,
        key == KeyType::Int16 ==> r == i16::MAX,
        key == KeyType::Int32 ==> r == i32::MAX,
        key == KeyType::Int64 ==> r == i64::MAX,
        key == KeyType::UInt8 ==> r == u8::MAX,
        key == KeyType::UInt16 ==> r == u16::MAX,
        key == KeyType::UInt32 ==> r == u32::MAX,
        key == KeyType::UInt64 ==> r == u64::MAX,
{
}

/// A dictionary is sound exactly where its values fit their buffer and every key that is not null
/// names one of them and is in the range of its type.
pub proof fn law_sound_dictionaries(key: KeyType, keys: Seq<Option<u64>>, values: ScalarsView)
    ensures
        LeafView::Dictionary(key, keys, values).wf() <==> {
            &&& crate::column::cells_bytes(values.cells()) <= 0x7fff_ffff
            &&& forall|row: int|
                0 <= row < keys.len() && (#[trigger] keys[row]) is Some ==> keys[row]->0
                    < values.len() && keys[row]->0 <= key.largest()
        },
        LeafView::Plain(values).wf() <==> crate::column::cells_bytes(values.cells())
            <= 0x7fff_ffff,
{
}

/// A struct column is sound exactly where each field has a sound child with as many rows, and a
/// list column where its items are sound and its offsets ascend within them.
pub proof fn law_sound_columns(structs: StructView, list: ListView)
    ensures
        ColumnView::Struct(structs).wf() <==> {
            &&& structs.fields.len() == structs.children.len()
            &&& forall|i: int|
                0 <= i < structs.children.len() ==> (#[trigger] structs.children[i]).wf()
                    && structs.children[i].len() == structs.validity.len()
        },
        ColumnView::List(list).wf() <==> {
            &&& list.items.wf()
            &&& list.offsets.len() == list.validity.len() + 1
            &&& forall|i: int, j: int|
                0 <= i <= j < list.offsets.len() ==> list.offsets[i] <= list.offsets[j]
            &&& list.offsets[list.offsets.len() - 1] <= list.items.len()
        },
{
}

/// A batch is sound exactly where it has one sound column per field, each with as many rows as
/// the batch, of which there are at most so many that three batches of them can be counted.
pub proof fn law_sound_batches(batch: BatchView)
    ensures
        batch.wf() <==> {
            &&& batch.fields.len() == batch.columns.len()
            &&& batch.rows <= 0x1fff_ffff_ffff_ffff
            &&& batch.rows <= usize::MAX
            &&& forall|i: int|
                0 <= i < batch.columns.len() ==> (#[trigger] batch.columns[i]).wf()
                    && batch.columns[i].len() == batch.rows
        },
{
}

/// Unpacking a dictionary gives each row the value that its key names, and null where the key or
/// that value is null. It fails exactly where the values do not fit one buffer.
pub proof fn law_unpacked_dictionaries(
    dictionary: crate::column::Dictionary,
    result: Result<crate::column::Scalars, Error>,
    row: int,
)
    requires
        call_ensures(crate::kernels::decode_dictionary, (&dictionary,), result),
        0 <= row < dictionary.keys@.len(),
    ensures
        match result {
            Ok(plain) => {
                &&& plain@.cells().len() == dictionary.keys@.len()
                &&& plain@.scalar_type() == dictionary.values@.scalar_type()
                &&& match dictionary.keys@[row] {
                    Some(key) => plain@.cells()[row] == dictionary.values@.cells()[key as int],
                    None => plain@.cells()[row] is None,
                }
                &&& crate::column::cells_bytes(plain@.cells()) <= 0x7fff_ffff
            },
            Err(e) => e == Error::ColumnLengthMismatch,
        },
{
}

/// Widening unsigned integers keeps each value, and each null.
pub proof fn law_widened_integers(
    column: crate::column::Scalars,
    result: Result<Vec<Option<u64>>, Error>,
    row: int,
)
    requires
        call_ensures(crate::kernels::widen, (&column,), result),
        0 <= row < column@.len(),
    ensures
        result is Ok,
        result->Ok_0@.len() == column@.len(),
        column@.cells()[row] is None ==> result->Ok_0@[row] is None,
        match column@.cells()[row] {
            Some(Cell::UInt8(x)) => result->Ok_0@[row] == Some(x as u64),
            Some(Cell::UInt16(x)) => result->Ok_0@[row] == Some(x as u64),
            Some(Cell::UInt32(x)) => result->Ok_0@[row] == Some(x as u64),
            Some(Cell::UInt64(x)) => result->Ok_0@[row] == Some(x),
            _ => true,
        },
{
}

/// Picking rows gives the value in each row picked, and null where none is.
pub proof fn law_picked_rows(
    column: crate::column::Scalars,
    indices: Vec<Option<u32>>,
    result: Result<crate::column::Scalars, Error>,
    row: int,
)
    requires
        call_ensures(crate::kernels::take_rows, (&column, &indices), result),
        0 <= row < indices@.len(),
    ensures
        match result {
            Ok(taken) => {
                &&& taken@.cells().len() == indices@.len()
                &&& taken@.scalar_type() == column@.scalar_type()
                &&& match indices@[row] {
                    Some(from) => taken@.cells()[row] == column@.cells()[from as int],
                    None => taken@.cells()[row] is None,
                }
            },
            Err(e) => e == Error::ColumnLengthMismatch,
        },
{
}

/// An unknown value type is reported with its code in decimal; other errors report nothing of the
/// kind.
pub proof fn law_reported_states(e: Error, r: Option<String>)
    requires
        call_ensures(Error::unexpected_state_reason, (&e,), r),
    ensures
        r is Some <==> e is UnknownAttributeValueType,
        e matches Error::UnknownAttributeValueType { code } ==> exists|number: Seq<char>| #[trigger]
            is_natural_text(number, code as int) && r->0@ == "unknown attribute value type "@
                + number,
{
    if let Error::UnknownAttributeValueType { code } = e {
        law_written_naturals(code as nat);
        assert(is_natural_text(crate::text::decimal(code as nat), code as int));
    }
}

/// What a slot holds is its value, and nothing where it is null.
pub proof fn law_slots_hold_values(slot: Slot<u16>, r: Option<u16>)
    requires
        call_ensures(Slot::<u16>::get, (&slot,), r),
    ensures
        slot.valid ==> r == Some(slot.value),
        !slot.valid ==> r is None,
{
}

/// The contents of scalars are the values that they hold, row by row.
pub proof fn law_contents_of_scalars(values: crate::column::Scalars, row: int)
    requires
        0 <= row < values@.len(),
    ensures
        match values {
            crate::column::Scalars::UInt8(v) => values@ == ScalarsView::UInt8(v@),
            crate::column::Scalars::UInt16(v) => values@ == ScalarsView::UInt16(v@),
            crate::column::Scalars::UInt32(v) => values@ == ScalarsView::UInt32(v@),
            crate::column::Scalars::UInt64(v) => values@ == ScalarsView::UInt64(v@),
            crate::column::Scalars::Int64(v) => values@ == ScalarsView::Int64(v@),
            crate::column::Scalars::Float64(v) => values@ == ScalarsView::Float64(v@),
            crate::column::Scalars::Boolean(v) => values@ == ScalarsView::Boolean(v@),
            crate::column::Scalars::Utf8(v) => values@ is Utf8 && values@->Utf8_0.len() == v@.len()
                && match v@[row] {
                Some(text) => values@->Utf8_0[row] == Some(text@),
                None => values@->Utf8_0[row] is None,
            },
            crate::column::Scalars::Binary(v) => values@ is Binary && values@->Binary_0.len()
                == v@.len() && match v@[row] {
                Some(bytes) => values@->Binary_0[row] == Some(bytes@),
                None => values@->Binary_0[row] is None,
            },
            crate::column::Scalars::Other(tag, v) => values@ == ScalarsView::Other(tag, v@),
        },
{
}

/// The contents of a column are those of its parts.
pub proof fn law_contents_of_columns(column: crate::column::Column)
    ensures
        match column {
            crate::column::Column::Leaf(crate::column::Leaf::Plain(values)) => column@
                == ColumnView::Leaf(LeafView::Plain(values@)),
            crate::column::Column::Leaf(crate::column::Leaf::Dictionary(dictionary)) => column@
                == ColumnView::Leaf(
                LeafView::Dictionary(dictionary.key, dictionary.keys@, dictionary.values@),
            ),
            crate::column::Column::Struct(structs) => {
                &&& column@ is Struct
                &&& column@->Struct_0.validity == structs.validity@
                &&& column@->Struct_0.fields.len() == structs.fields@.len()
                &&& forall|i: int|
                    0 <= i < structs.fields@.len() ==> (#[trigger] column@->Struct_0.fields[i]).name
                        == structs.fields@[i].name@ && column@->Struct_0.fields[i].nullable
                        == structs.fields@[i].nullable
                &&& column@->Struct_0.children.len() == structs.children@.len()
                &&& forall|i: int|
                    0 <= i < structs.children@.len() ==> (#[trigger] column@->Struct_0.children[i])
                        == structs.children@[i]@
            },
            crate::column::Column::List(list) => {
                &&& column@ is List
                &&& column@->List_0.offsets == list.offsets@
                &&& column@->List_0.validity == list.validity@
                &&& column@->List_0.item_nullable == list.item_nullable
                &&& match list.items {
                    crate::column::Items::Leaf(leaf) => column@->List_0.items == ItemsView::Leaf(
                        leaf@,
                    ),
                    crate::column::Items::Struct(structs) => column@->List_0.items
                        == ItemsView::Struct(structs@),
                }
            },
        },
{
}

/// The contents of a batch are its fields and columns, in order, and its number of rows.
pub proof fn law_contents_of_batches(batch: crate::records::RecordBatch)
    ensures
        batch@.rows == batch.rows,
        batch@.fields.len() == batch.fields@.len(),
        forall|i: int|
            0 <= i < batch.fields@.len() ==> (#[trigger] batch@.fields[i]).name
                == batch.fields@[i].name@ && batch@.fields[i].nullable == batch.fields@[i].nullable,
        batch@.columns.len() == batch.columns@.len(),
        forall|i: int|
            0 <= i < batch.columns@.len() ==> (#[trigger] batch@.columns[i]) == batch.columns@[i]@,
{
}

/// A batch is put together exactly where there is at least one column, one field for each, and
/// every column is sound and as long as the first; it then holds just these.
pub proof fn law_batches_put_together(
    fields: Vec<crate::column::Field>,
    columns: Vec<crate::column::Column>,
    result: Result<crate::records::RecordBatch, Error>,
)
    requires
        call_ensures(crate::records::RecordBatch::try_new, (fields, columns), result),
    ensures
        result is Ok <==> {
            &&& columns@.len() > 0
            &&& fields@.len() == columns@.len()
            &&& columns@[0]@.len() <= 0x1fff_ffff_ffff_ffff
            &&& forall|i: int|
                0 <= i < columns@.len() ==> (#[trigger] columns@[i])@.wf() && columns@[i]@.len()
                    == columns@[0]@.len()
        },
        result matches Err(e) ==> e == Error::ColumnLengthMismatch,
        result matches Ok(batch) ==> {
            &&& batch@.rows == columns@[0]@.len()
            &&& batch@.fields.len() == fields@.len()
            &&& forall|i: int|
                0 <= i < fields@.len() ==> (#[trigger] batch@.fields[i]).name == fields@[i].name@
            &&& batch@.columns.len() == columns@.len()
            &&& forall|i: int|
                0 <= i < columns@.len() ==> (#[trigger] batch@.columns[i]) == columns@[i]@
        },
{
    let views = crate::records::column_views(columns@);
    assert forall|i: int| 0 <= i < columns@.len() implies (#[trigger] views[i]) == columns@[i]@ by {}
    if let Ok(batch) = result {
        assert(batch@.fields.len() == fields@.len());
        assert(batch@.columns.len() == columns@.len());
        assert forall|i: int| 0 <= i < columns@.len() implies (#[trigger] columns@[i])@.wf()
            && columns@[i]@.len() == columns@[0]@.len() by {
            assert(batch@.columns[i] == columns@[i]@);
        }
    }
}

/// A column that has to be there is the first of its name, and is reported exactly where no column
/// has the name.
pub proof fn law_required_columns(batch: BatchView, name: &'static str)
    ensures
        forall|i: int| #[trigger]
            crate::metric_laws::stands_at(batch.fields, name@, i) ==> batch.required(name) == Ok::<
                ColumnView,
                Error,
            >(batch.columns[i]) && batch.column(name@) == Some(batch.columns[i]),
        crate::metric_laws::lacks(batch.fields, name@) ==> batch.required(name) == Err::<
            ColumnView,
            Error,
        >(Error::ColumnNotFound { name }) && batch.column(name@) is None,
        batch.required(name) is Ok <==> !crate::metric_laws::lacks(batch.fields, name@),
{
    crate::metric_laws::law_first_of_a_name(batch.fields, name@);
}

/// Columns of plain 16-bit and 8-bit integers are read as they stand, and a column of any other
/// type is reported with the type that it has.
pub proof fn law_required_integers(batch: BatchView, name: &'static str, i: int)
    requires
        crate::metric_laws::stands_at(batch.fields, name@, i),
    ensures
        match batch.columns[i] {
            ColumnView::Leaf(LeafView::Plain(ScalarsView::UInt16(v))) => batch.required_u16(name)
                == Ok::<Seq<Slot<u16>>, Error>(v),
            column => batch.required_u16(name) == Err::<Seq<Slot<u16>>, Error>(
                Error::ColumnDataTypeMismatch {
                    name,
                    expect: DataType::Scalar(ScalarType::UInt16),
                    actual: column.data_type(),
                },
            ),
        },
        match batch.columns[i] {
            ColumnView::Leaf(LeafView::Plain(ScalarsView::UInt8(v))) => batch.required_u8(name)
                == Ok::<Seq<Slot<u8>>, Error>(v),
            column => batch.required_u8(name) == Err::<Seq<Slot<u8>>, Error>(
                Error::ColumnDataTypeMismatch {
                    name,
                    expect: DataType::Scalar(ScalarType::UInt8),
                    actual: column.data_type(),
                },
            ),
        },
{
    law_required_columns(batch, name);
}

/// A fresh message holds no payload. Logs, metrics of either kind and spans are the records of a
/// message, by its signal, however many payloads it holds.
pub proof fn law_records_of_a_message(
    signal: Signal,
    fresh: crate::records::OtapArrowRecords,
    records: crate::records::OtapArrowRecords,
    root: ArrowPayloadType,
    t: ArrowPayloadType,
)
    requires
        call_ensures(crate::records::OtapArrowRecords::empty, (signal,), fresh),
        call_ensures(crate::records::OtapArrowRecords::root_payload_type, (&records,), root),
    ensures
        !fresh@.payloads.contains_key(t),
        fresh@.root == signal.root(),
        root == records@.root,
        root == ArrowPayloadType::Logs <==> records.signal == Signal::Logs,
        root == ArrowPayloadType::UnivariateMetrics <==> records.signal == Signal::Metrics,
        root == ArrowPayloadType::MultivariateMetrics <==> records.signal
            == Signal::MultivariateMetrics,
        root == ArrowPayloadType::Spans <==> records.signal == Signal::Traces,
{
}

/// The text in a row of a column of text is what reading the row gives, whichever way the texts
/// are stored.
pub proof fn law_texts_read_by_row(
    column: crate::column::Column,
    accessor: crate::records::StringArrayAccessor,
    row: usize,
    text: Option<&String>,
    texts: Seq<Option<Seq<char>>>,
)
    requires
        crate::metric_laws::holds_texts(column@, texts),
        call_ensures(
            crate::records::StringArrayAccessor::try_new,
            (&column,),
            Ok::<crate::records::StringArrayAccessor, Error>(accessor),
        ),
        row < texts.len(),
        call_ensures(crate::records::StringArrayAccessor::value_at, (&accessor, row), text),
    ensures
        match text {
            Some(found) => texts[row as int] == Some(found@),
            None => texts[row as int] is None,
        },
{
    crate::metric_laws::law_texts_of_a_column(column@);
}

} // verus!
