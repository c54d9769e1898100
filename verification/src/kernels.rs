//! The boundary to the `arrow` crate: its compute kernels over plain values.
//!
//! Columns go to `arrow` and come back in an exchange form whose variants are arrays
//! that `arrow` knows. Doubles travel as the words of their bit patterns, and values
//! that are only carried through travel as the words of their handles.

use crate::column::{Cell, Dictionary, LeafView, ScalarType, Scalars, Slot};
use crate::double::Double;
use crate::error::Error;
use arrow::array::{
    make_array, Array, ArrayData, BinaryArray, BooleanArray, DictionaryArray, Int64Array,
    StringArray, UInt16Array, UInt32Array, UInt64Array, UInt8Array,
};
use arrow::compute::{cast, take};
use arrow::datatypes::DataType;
use arrow::error::ArrowError;
use vstd::prelude::*;

verus! {

/// An array of `arrow`, in the untyped form all of them share.
#[verifier::external_type_specification]
#[verifier::external_body]
pub struct ExArrayData(arrow::array::ArrayData);

/// What the kernels of `arrow` fail with.
#[verifier::external_type_specification]
#[verifier::external_body]
pub struct ExArrowError(arrow::error::ArrowError);

/// The values of an array, nothing where one is null.
pub uninterp spec fn array_cells(array: ArrayData) -> Seq<Option<Cell>>;

/// The type of an array's values.
pub uninterp spec fn array_type(array: ArrayData) -> ScalarType;

/// A column in the form in which it is exchanged with `arrow`.
pub enum Exchange {
    /// Unsigned 8-bit integers.
    UInt8(Vec<Option<u8>>),
    /// Unsigned 16-bit integers.
    UInt16(Vec<Option<u16>>),
    /// Unsigned 32-bit integers.
    UInt32(Vec<Option<u32>>),
    /// Unsigned 64-bit integers.
    UInt64(Vec<Option<u64>>),
    /// Signed 64-bit integers.
    Int64(Vec<Option<i64>>),
    /// Truth values.
    Boolean(Vec<Option<bool>>),
    /// Text.
    Utf8(Vec<Option<String>>),
    /// Byte strings.
    Binary(Vec<Option<Vec<u8>>>),
}

impl Exchange {
    /// Number of rows.
    pub open spec fn len(self) -> nat {
        match self {
            Exchange::UInt8(v) => v@.len(),
            Exchange::UInt16(v) => v@.len(),
            Exchange::UInt32(v) => v@.len(),
            Exchange::UInt64(v) => v@.len(),
            Exchange::Int64(v) => v@.len(),
            Exchange::Boolean(v) => v@.len(),
            Exchange::Utf8(v) => v@.len(),
            Exchange::Binary(v) => v@.len(),
        }
    }

    /// The value in a row, or nothing where it is null.
    pub open spec fn cell(self, row: int) -> Option<Cell> {
        match self {
            Exchange::UInt8(v) => match v@[row] {
                Some(x) => Some(Cell::UInt8(x)),
                None => None,
            },
            Exchange::UInt16(v) => match v@[row] {
                Some(x) => Some(Cell::UInt16(x)),
                None => None,
            },
            Exchange::UInt32(v) => match v@[row] {
                Some(x) => Some(Cell::UInt32(x)),
                None => None,
            },
            Exchange::UInt64(v) => match v@[row] {
                Some(x) => Some(Cell::UInt64(x)),
                None => None,
            },
            Exchange::Int64(v) => match v@[row] {
                Some(x) => Some(Cell::Int64(x)),
                None => None,
            },
            Exchange::Boolean(v) => match v@[row] {
                Some(x) => Some(Cell::Boolean(x)),
                None => None,
            },
            Exchange::Utf8(v) => match v@[row] {
                Some(x) => Some(Cell::Utf8(x@)),
                None => None,
            },
            Exchange::Binary(v) => match v@[row] {
                Some(x) => Some(Cell::Binary(x@)),
                None => None,
            },
        }
    }

    /// The values of all rows.
    pub open spec fn cells(self) -> Seq<Option<Cell>> {
        Seq::new(self.len(), |row: int| self.cell(row))
    }

    /// Type of the values.
    pub open spec fn scalar_type(self) -> ScalarType {
        match self {
            Exchange::UInt8(_) => ScalarType::UInt8,
            Exchange::UInt16(_) => ScalarType::UInt16,
            Exchange::UInt32(_) => ScalarType::UInt32,
            Exchange::UInt64(_) => ScalarType::UInt64,
            Exchange::Int64(_) => ScalarType::Int64,
            Exchange::Boolean(_) => ScalarType::Boolean,
            Exchange::Utf8(_) => ScalarType::Utf8,
            Exchange::Binary(_) => ScalarType::Binary,
        }
    }
}

/// Types whose values are numbers that `arrow` holds as they are.
pub open spec fn is_number(t: ScalarType) -> bool {
    t is UInt8 || t is UInt16 || t is UInt32 || t is UInt64 || t is Int64
}

/// Types of unsigned integers.
pub open spec fn is_unsigned(t: ScalarType) -> bool {
    t is UInt8 || t is UInt16 || t is UInt32 || t is UInt64
}

/// The values fit the value buffer of one column.
pub open spec fn fits(cells: Seq<Option<Cell>>) -> bool {
    crate::column::cells_bytes(cells) <= crate::column::MAX_TEXT_BYTES
}

/// An unsigned integer as a 64-bit one.
pub open spec fn word(cell: Option<Cell>) -> Option<u64> {
    match cell {
        Some(Cell::UInt8(x)) => Some(x as u64),
        Some(Cell::UInt16(x)) => Some(x as u64),
        Some(Cell::UInt32(x)) => Some(x as u64),
        Some(Cell::UInt64(x)) => Some(x),
        _ => None,
    }
}

/// An unsigned integer cell widened to 64 bits.
pub open spec fn widened(cell: Option<Cell>) -> Option<Cell> {
    match word(cell) {
        Some(x) => Some(Cell::UInt64(x)),
        None => None,
    }
}

/// Unsigned integer cells widened to 64 bits.
pub open spec fn widened_cells(cells: Seq<Option<Cell>>) -> Seq<Option<Cell>> {
    Seq::new(cells.len(), |i: int| widened(cells[i]))
}

/// The cells that indices pick out of others.
pub open spec fn gathered(cells: Seq<Option<Cell>>, indices: Seq<Option<u32>>) -> Seq<
    Option<Cell>,
> {
    Seq::new(
        indices.len(),
        |i: int|
            match indices[i] {
                Some(k) => cells[k as int],
                None => None,
            },
    )
}

/// The cells that the keys of a dictionary name.
pub open spec fn decoded(cells: Seq<Option<Cell>>, keys: Seq<Option<u64>>) -> Seq<Option<Cell>> {
    Seq::new(keys.len(), |i: int| crate::column::keyed(keys[i], cells))
}

/// Builds an array with the `FromIterator` impls of `arrow`'s array types.
///
/// The array holds the values it is built from, row by row. The values of a text or
/// binary array must fit a buffer with 32-bit offsets: the builders panic beyond.
#[verifier::external_body]
fn array_of(column: &Exchange) -> (r: ArrayData)
    requires
        fits(column.cells()),
    ensures
        array_cells(r) == column.cells(),
        array_type(r) == column.scalar_type(),
{
    match column {
        Exchange::UInt8(v) => UInt8Array::from_iter(v).into(),
        Exchange::UInt16(v) => UInt16Array::from_iter(v).into(),
        Exchange::UInt32(v) => UInt32Array::from_iter(v).into(),
        Exchange::UInt64(v) => UInt64Array::from_iter(v).into(),
        Exchange::Int64(v) => Int64Array::from_iter(v).into(),
        Exchange::Boolean(v) => BooleanArray::from_iter(v).into(),
        Exchange::Utf8(v) => StringArray::from_iter(v).into(),
        Exchange::Binary(v) => BinaryArray::from_iter(v).into(),
    }
}

/// Reads an array of numbers with the iterators of `arrow`'s primitive arrays.
///
/// What is read are the values of the array, row by row.
#[verifier::external_body]
fn numbers_of(array: ArrayData) -> (r: Exchange)
    requires
        is_number(array_type(array)),
    ensures
        r.cells() == array_cells(array),
        r.scalar_type() == array_type(array),
{
    match array.data_type() {
        DataType::UInt8 => Exchange::UInt8(UInt8Array::from(array).iter().collect()),
        DataType::UInt16 => Exchange::UInt16(UInt16Array::from(array).iter().collect()),
        DataType::UInt32 => Exchange::UInt32(UInt32Array::from(array).iter().collect()),
        DataType::UInt64 => Exchange::UInt64(UInt64Array::from(array).iter().collect()),
        _ => Exchange::Int64(Int64Array::from(array).iter().collect()),
    }
}

/// Reads an array of truth values with the iterator of `arrow`'s `BooleanArray`.
///
/// What is read are the values of the array, row by row.
#[verifier::external_body]
fn booleans_of(array: ArrayData) -> (r: Exchange)
    requires
        array_type(array) is Boolean,
    ensures
        r.cells() == array_cells(array),
        r.scalar_type() == array_type(array),
{
    Exchange::Boolean(BooleanArray::from(array).iter().collect())
}

/// Reads an array of text with the iterator of `arrow`'s `StringArray`.
///
/// What is read are the values of the array, row by row.
#[verifier::external_body]
fn texts_of(array: ArrayData) -> (r: Exchange)
    requires
        array_type(array) is Utf8,
    ensures
        r.cells() == array_cells(array),
        r.scalar_type() == array_type(array),
{
    Exchange::Utf8(StringArray::from(array).iter().map(|v| v.map(str::to_owned)).collect())
}

/// Reads an array of byte strings with the iterator of `arrow`'s `BinaryArray`.
///
/// What is read are the values of the array, row by row.
#[verifier::external_body]
fn byte_strings_of(array: ArrayData) -> (r: Exchange)
    requires
        array_type(array) is Binary,
    ensures
        r.cells() == array_cells(array),
        r.scalar_type() == array_type(array),
{
    Exchange::Binary(BinaryArray::from(array).iter().map(|v| v.map(<[u8]>::to_vec)).collect())
}

/// Widens an array of unsigned integers with `arrow::compute::cast`.
///
/// Casting unsigned integers to 64 bits keeps every value and every null, and does not
/// fail.
#[verifier::external_body]
fn cast_to_u64(array: &ArrayData) -> (r: Result<ArrayData, ArrowError>)
    requires
        is_unsigned(array_type(*array)),
    ensures
        r is Ok,
        array_type(r->Ok_0) is UInt64,
        array_cells(r->Ok_0) == widened_cells(array_cells(*array)),
{
    cast(&make_array(array.clone()), &DataType::UInt64).map(|wide| wide.to_data())
}

/// Unpacks a dictionary with `arrow::compute::cast` to the type of its values.
///
/// Each row gets the value its key names, nothing where the key or that value is null.
/// The cast fails exactly where the values of the rows do not fit the value buffer of one
/// array. Every key must name a value: `DictionaryArray::try_new` refuses others. The keys are
/// handed over with 64 bits whatever their own width: which values they name is all that the
/// cast reads of them.
#[verifier::external_body]
fn cast_dictionary(keys: &Vec<Option<u64>>, values: &ArrayData) -> (r: Result<
    ArrayData,
    ArrowError,
>)
    requires
        forall|i: int|
            0 <= i < keys@.len() && (#[trigger] keys@[i]) is Some ==> keys@[i]->0 < array_cells(
                *values,
            ).len(),
    ensures
        r is Ok <==> fits(decoded(array_cells(*values), keys@)),
        r matches Ok(plain) ==> array_cells(plain) == decoded(array_cells(*values), keys@)
            && array_type(plain) == array_type(*values),
{
    let dictionary =
        DictionaryArray::try_new(UInt64Array::from_iter(keys), make_array(values.clone()))?;
    cast(&dictionary, values.data_type()).map(|plain| plain.to_data())
}

/// Picks rows of an array with `arrow::compute::take`.
///
/// Each index gives the value in that row, nothing where the index or that value is null.
/// The kernel fails exactly where the picked values do not fit the value buffer of one
/// array, and panics on an index beyond the array.
#[verifier::external_body]
fn take_array(values: &ArrayData, indices: &Vec<Option<u32>>) -> (r: Result<ArrayData, ArrowError>)
    requires
        forall|i: int|
            0 <= i < indices@.len() && (#[trigger] indices@[i]) is Some ==> indices@[i]->0
                < array_cells(*values).len(),
    ensures
        r is Ok <==> fits(gathered(array_cells(*values), indices@)),
        r matches Ok(taken) ==> array_cells(taken) == gathered(array_cells(*values), indices@)
            && array_type(taken) == array_type(*values),
{
    let indices = UInt32Array::from_iter(indices);
    take(&make_array(values.clone()), &indices, None).map(|taken| taken.to_data())
}

/// The type in which `arrow` holds values of a type.
pub open spec fn carrier(t: ScalarType) -> ScalarType {
    match t {
        ScalarType::Float64 => ScalarType::UInt64,
        ScalarType::Other(_) => ScalarType::UInt64,
        _ => t,
    }
}

/// The cell in which `arrow` holds a value.
pub open spec fn carried(cell: Option<Cell>) -> Option<Cell> {
    match cell {
        Some(Cell::Float64(d)) => Some(Cell::UInt64(d.bits)),
        Some(Cell::Other(handle)) => Some(Cell::UInt64(handle)),
        _ => cell,
    }
}

/// The cells in which `arrow` holds values.
pub open spec fn carried_cells(cells: Seq<Option<Cell>>) -> Seq<Option<Cell>> {
    Seq::new(cells.len(), |i: int| carried(cells[i]))
}

/// A value is of a type.
pub open spec fn has_type(cell: Option<Cell>, t: ScalarType) -> bool {
    match cell {
        None => true,
        Some(Cell::UInt8(_)) => t is UInt8,
        Some(Cell::UInt16(_)) => t is UInt16,
        Some(Cell::UInt32(_)) => t is UInt32,
        Some(Cell::UInt64(_)) => t is UInt64,
        Some(Cell::Int64(_)) => t is Int64,
        Some(Cell::Float64(_)) => t is Float64,
        Some(Cell::Boolean(_)) => t is Boolean,
        Some(Cell::Utf8(_)) => t is Utf8,
        Some(Cell::Binary(_)) => t is Binary,
        Some(Cell::Other(_)) => t is Other,
    }
}

/// Values of one type that are carried alike are alike.
proof fn lemma_carried_apart(a: Seq<Option<Cell>>, b: Seq<Option<Cell>>, t: ScalarType)
    requires
        forall|i: int| 0 <= i < a.len() ==> has_type(#[trigger] a[i], t),
        forall|i: int| 0 <= i < b.len() ==> has_type(#[trigger] b[i], t),
        carried_cells(a) == carried_cells(b),
    ensures
        a == b,
{
    assert(a.len() == carried_cells(a).len());
    assert(b.len() == carried_cells(b).len());
    assert forall|i: int| 0 <= i < a.len() implies a[i] == b[i] by {
        assert(carried_cells(a)[i] == carried_cells(b)[i]);
        assert(has_type(a[i], t) && has_type(b[i], t));
    }
    assert(a =~= b);
}

/// Carrying values changes nothing about the bytes they take up.
proof fn lemma_carried_bytes(cells: Seq<Option<Cell>>)
    ensures
        crate::column::cells_bytes(carried_cells(cells)) == crate::column::cells_bytes(cells),
    decreases cells.len(),
{
    if cells.len() > 0 {
        lemma_carried_bytes(cells.drop_last());
        assert(carried_cells(cells).drop_last() =~= carried_cells(cells.drop_last()));
    }
}

/// The words of doubles.
fn words_of_doubles(cells: &Vec<Option<Double>>) -> (r: Vec<Option<u64>>)
    ensures
        r@.len() == cells@.len(),
        forall|i: int|
            0 <= i < r@.len() ==> (#[trigger] r@[i]) == (match cells@[i] {
                Some(d) => Some(d.bits),
                None => None,
            }),
{
    let mut out: Vec<Option<u64>> = Vec::new();
    let mut i: usize = 0;
    while i < cells.len()
        invariant
            i <= cells@.len(),
            out@.len() == i,
            forall|k: int|
                0 <= k < i ==> (#[trigger] out@[k]) == (match cells@[k] {
                    Some(d) => Some(d.bits),
                    None => None,
                }),
        decreases cells@.len() - i,
    {
        let word = match cells[i] {
            Some(d) => Some(d.bits),
            None => None,
        };
        out.push(word);
        i = i + 1;
    }
    out
}

/// The doubles of words.
fn doubles_of_words(cells: &Vec<Option<u64>>) -> (r: Vec<Option<Double>>)
    ensures
        r@.len() == cells@.len(),
        forall|i: int|
            0 <= i < r@.len() ==> (#[trigger] r@[i]) == (match cells@[i] {
                Some(bits) => Some(Double { bits }),
                None => None,
            }),
{
    let mut out: Vec<Option<Double>> = Vec::new();
    let mut i: usize = 0;
    while i < cells.len()
        invariant
            i <= cells@.len(),
            out@.len() == i,
            forall|k: int|
                0 <= k < i ==> (#[trigger] out@[k]) == (match cells@[k] {
                    Some(bits) => Some(Double { bits }),
                    None => None,
                }),
        decreases cells@.len() - i,
    {
        let double = match cells[i] {
            Some(bits) => Some(Double { bits }),
            None => None,
        };
        out.push(double);
        i = i + 1;
    }
    out
}

/// The values of slots.
fn options_of_slots<T: Copy>(cells: &Vec<Slot<T>>) -> (r: Vec<Option<T>>)
    ensures
        r@.len() == cells@.len(),
        forall|i: int| 0 <= i < r@.len() ==> (#[trigger] r@[i]) == cells@[i].cell(),
{
    let mut out: Vec<Option<T>> = Vec::new();
    let mut i: usize = 0;
    while i < cells.len()
        invariant
            i <= cells@.len(),
            out@.len() == i,
            forall|k: int| 0 <= k < i ==> (#[trigger] out@[k]) == cells@[k].cell(),
        decreases cells@.len() - i,
    {
        out.push(cells[i].get());
        i = i + 1;
    }
    out
}

/// Slots of values; `under` is stored under nulls.
fn slots_of_options<T: Copy>(cells: &Vec<Option<T>>, under: T) -> (r: Vec<Slot<T>>)
    ensures
        r@.len() == cells@.len(),
        forall|i: int| 0 <= i < r@.len() ==> (#[trigger] r@[i]).cell() == cells@[i],
{
    let mut out: Vec<Slot<T>> = Vec::new();
    let mut i: usize = 0;
    while i < cells.len()
        invariant
            i <= cells@.len(),
            out@.len() == i,
            forall|k: int| 0 <= k < i ==> (#[trigger] out@[k]).cell() == cells@[k],
        decreases cells@.len() - i,
    {
        let slot = match cells[i] {
            Some(value) => Slot { valid: true, value },
            None => Slot { valid: false, value: under },
        };
        out.push(slot);
        i = i + 1;
    }
    out
}

/// Puts a column into exchange form.
fn to_exchange(column: &Scalars) -> (r: Exchange)
    ensures
        r.cells() == carried_cells(column@.cells()),
        r.scalar_type() == carrier(column@.scalar_type()),
{
    let r = match column {
        Scalars::UInt8(v) => Exchange::UInt8(options_of_slots(v)),
        Scalars::UInt16(v) => Exchange::UInt16(options_of_slots(v)),
        Scalars::UInt32(v) => Exchange::UInt32(crate::column::copy_cells(v)),
        Scalars::UInt64(v) => Exchange::UInt64(crate::column::copy_cells(v)),
        Scalars::Int64(v) => Exchange::Int64(crate::column::copy_cells(v)),
        Scalars::Float64(v) => Exchange::UInt64(words_of_doubles(v)),
        Scalars::Boolean(v) => Exchange::Boolean(crate::column::copy_cells(v)),
        Scalars::Utf8(v) => Exchange::Utf8(crate::column::copy_texts(v)),
        Scalars::Binary(v) => Exchange::Binary(crate::column::copy_byte_strings(v)),
        Scalars::Other(_, v) => Exchange::UInt64(crate::column::copy_cells(v)),
    };
    assert forall|i: int| 0 <= i < r.len() implies r.cell(i) == carried(column@.cell(i)) by {
        match column {
            Scalars::Utf8(v) => {
                assert(crate::column::text_cell(r->Utf8_0@[i]) == crate::column::text_cell(v@[i]));
            },
            Scalars::Binary(v) => {
                assert(crate::column::bytes_cell(r->Binary_0@[i]) == crate::column::bytes_cell(
                    v@[i],
                ));
            },
            _ => {},
        }
    }
    assert(r.cells() =~= carried_cells(column@.cells()));
    r
}

/// Takes a column of a type out of exchange form.
fn from_exchange(column: Exchange, t: ScalarType) -> (r: Scalars)
    requires
        column.scalar_type() == carrier(t),
    ensures
        r@.scalar_type() == t,
        carried_cells(r@.cells()) == column.cells(),
{
    let ghost before = column.cells();
    let r = match column {
        Exchange::UInt8(v) => Scalars::UInt8(slots_of_options(&v, 0)),
        Exchange::UInt16(v) => Scalars::UInt16(slots_of_options(&v, 0)),
        Exchange::UInt32(v) => Scalars::UInt32(v),
        Exchange::UInt64(v) => match t {
            ScalarType::Float64 => Scalars::Float64(doubles_of_words(&v)),
            ScalarType::Other(tag) => Scalars::Other(tag, v),
            _ => Scalars::UInt64(v),
        },
        Exchange::Int64(v) => Scalars::Int64(v),
        Exchange::Boolean(v) => Scalars::Boolean(v),
        Exchange::Utf8(v) => Scalars::Utf8(v),
        Exchange::Binary(v) => Scalars::Binary(v),
    };
    assert(carried_cells(r@.cells()) =~= before);
    r
}

/// Hands a column to `arrow`.
fn to_array(column: &Scalars) -> (r: ArrayData)
    requires
        column@.wf(),
    ensures
        array_cells(r) == carried_cells(column@.cells()),
        array_type(r) == carrier(column@.scalar_type()),
{
    proof {
        lemma_carried_bytes(column@.cells());
    }
    array_of(&to_exchange(column))
}

/// Takes a column of a type back from `arrow`.
fn from_array(array: ArrayData, t: ScalarType, Ghost(cells): Ghost<Seq<Option<Cell>>>) -> (r: Scalars)
    requires
        array_type(array) == carrier(t),
        array_cells(array) == carried_cells(cells),
        forall|i: int| 0 <= i < cells.len() ==> has_type(#[trigger] cells[i], t),
    ensures
        r@.scalar_type() == t,
        r@.cells() == cells,
{
    let exchange = match t {
        ScalarType::Boolean => booleans_of(array),
        ScalarType::Utf8 => texts_of(array),
        ScalarType::Binary => byte_strings_of(array),
        _ => numbers_of(array),
    };
    let r = from_exchange(exchange, t);
    proof {
        assert forall|i: int| 0 <= i < r@.cells().len() implies has_type(
            #[trigger] r@.cells()[i],
            t,
        ) by {}
        lemma_carried_apart(r@.cells(), cells, t);
    }
    r
}

/// Unpacks a dictionary: each row gets the value its key names.
pub fn decode_dictionary(column: &Dictionary) -> (r: Result<Scalars, Error>)
    requires
        LeafView::Dictionary(column.key, column.keys@, column.values@).wf(),
    ensures
        match r {
            Ok(plain) => {
                &&& fits(decoded(column.values@.cells(), column.keys@))
                &&& plain@.scalar_type() == column.values@.scalar_type()
                &&& plain@.cells() == decoded(column.values@.cells(), column.keys@)
            },
            Err(e) => {
                &&& !fits(decoded(column.values@.cells(), column.keys@))
                &&& e == Error::ColumnLengthMismatch
            },
        },
{
    let ghost cells = decoded(column.values@.cells(), column.keys@);
    let values = to_array(&column.values);
    assert(decoded(array_cells(values), column.keys@) =~= carried_cells(cells));
    proof {
        lemma_carried_bytes(cells);
    }
    match cast_dictionary(&column.keys, &values) {
        Ok(plain) => {
            assert forall|i: int| 0 <= i < cells.len() implies has_type(
                #[trigger] cells[i],
                column.values@.scalar_type(),
            ) by {}
            Ok(from_array(plain, column.values.scalar_type(), Ghost(cells)))
        },
        Err(_) => Err(Error::ColumnLengthMismatch),
    }
}

/// Widens a column of unsigned integers.
pub fn widen(column: &Scalars) -> (r: Result<Vec<Option<u64>>, Error>)
    requires
        column@.wf(),
        is_unsigned(column@.scalar_type()),
    ensures
        r is Ok,
        r->Ok_0@ == column@.cells().map_values(|cell: Option<Cell>| word(cell)),
{
    let ghost words = column@.cells().map_values(|cell: Option<Cell>| word(cell));
    let array = to_array(column);
    let wide = match cast_to_u64(&array) {
        Ok(wide) => wide,
        Err(_) => return Err(Error::ColumnLengthMismatch),
    };
    match numbers_of(wide) {
        Exchange::UInt64(v) => {
            assert(v@.len() == Exchange::UInt64(v).cells().len());
            assert forall|i: int| 0 <= i < words.len() implies #[trigger] v@[i] == words[i] by {
                assert(Exchange::UInt64(v).cells()[i] == widened(array_cells(array)[i]));
                assert(array_cells(array)[i] == column@.cell(i));
            }
            assert(v@ =~= words);
            Ok(v)
        },
        _ => Err(Error::ColumnLengthMismatch),
    }
}

/// Picks rows of a column.
pub fn take_rows(column: &Scalars, indices: &Vec<Option<u32>>) -> (r: Result<Scalars, Error>)
    requires
        column@.wf(),
        forall|i: int|
            0 <= i < indices@.len() && (#[trigger] indices@[i]) is Some ==> indices@[i]->0
                < column@.len(),
    ensures
        match r {
            Ok(taken) => {
                &&& fits(gathered(column@.cells(), indices@))
                &&& taken@.scalar_type() == column@.scalar_type()
                &&& taken@.cells() == gathered(column@.cells(), indices@)
            },
            Err(e) => {
                &&& !fits(gathered(column@.cells(), indices@))
                &&& e == Error::ColumnLengthMismatch
            },
        },
{
    let ghost cells = gathered(column@.cells(), indices@);
    let values = to_array(column);
    assert(gathered(array_cells(values), indices@) =~= carried_cells(cells));
    proof {
        lemma_carried_bytes(cells);
    }
    match take_array(&values, indices) {
        Ok(taken) => {
            assert forall|i: int| 0 <= i < cells.len() implies has_type(
                #[trigger] cells[i],
                column@.scalar_type(),
            ) by {}
            Ok(from_array(taken, column.scalar_type(), Ghost(cells)))
        },
        Err(_) => Err(Error::ColumnLengthMismatch),
    }
}

} // verus!
