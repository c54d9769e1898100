//! Columns of a record batch, by plain values.

use crate::double::Double;
use vstd::prelude::*;

verus! {

/// The types of the values a scalar column holds.
#[derive(Clone, Copy, PartialEq, Eq, Structural, Debug, Hash)]
pub enum ScalarType {
    /// Unsigned 8-bit integers.
    UInt8,
    /// Unsigned 16-bit integers.
    UInt16,
    /// Unsigned 32-bit integers.
    UInt32,
    /// Unsigned 64-bit integers.
    UInt64,
    /// Signed 64-bit integers.
    Int64,
    /// Binary64 numbers.
    Float64,
    /// Truth values.
    Boolean,
    /// Text.
    Utf8,
    /// Byte strings.
    Binary,
    /// A type whose values are only carried through, told apart by a tag.
    Other(u32),
}

/// The types of a dictionary's keys.
#[derive(Clone, Copy, PartialEq, Eq, Structural, Debug, Hash)]
pub enum KeyType {
    /// Signed 8-bit keys.
    Int8,
    /// Signed 16-bit keys.
    Int16,
    /// Signed 32-bit keys.
    Int32,
    /// Signed 64-bit keys.
    Int64,
    /// Unsigned 8-bit keys.
    UInt8,
    /// Unsigned 16-bit keys.
    UInt16,
    /// Unsigned 32-bit keys.
    UInt32,
    /// Unsigned 64-bit keys.
    UInt64,
}

impl KeyType {
    /// The largest key of the type.
    pub open spec fn largest(self) -> u64 {
        match self {
            KeyType::Int8 => 0x7f,
            KeyType::Int16 => 0x7fff,
            KeyType::Int32 => 0x7fff_ffff,
            KeyType::Int64 => 0x7fff_ffff_ffff_ffff,
            KeyType::UInt8 => 0xff,
            KeyType::UInt16 => 0xffff,
            KeyType::UInt32 => 0xffff_ffff,
            KeyType::UInt64 => 0xffff_ffff_ffff_ffff,
        }
    }

    /// The largest key of the type.
    pub fn largest_key(self) -> (r: u64)
        ensures
            r == self.largest(),
    {
        match self {
            KeyType::Int8 => 0x7f,
            KeyType::Int16 => 0x7fff,
            KeyType::Int32 => 0x7fff_ffff,
            KeyType::Int64 => 0x7fff_ffff_ffff_ffff,
            KeyType::UInt8 => 0xff,
            KeyType::UInt16 => 0xffff,
            KeyType::UInt32 => 0xffff_ffff,
            KeyType::UInt64 => 0xffff_ffff_ffff_ffff,
        }
    }
}

/// The types of a list's items.
#[derive(Clone, Copy, PartialEq, Eq, Structural, Debug, Hash)]
pub enum ItemType {
    /// Scalars.
    Scalar(ScalarType),
    /// Dictionary-encoded scalars.
    Dictionary(KeyType, ScalarType),
    /// Structs.
    Struct,
}

/// The types of a column.
#[derive(Clone, Copy, PartialEq, Eq, Structural, Debug, Hash)]
pub enum DataType {
    /// Scalars.
    Scalar(ScalarType),
    /// Dictionary-encoded scalars.
    Dictionary(KeyType, ScalarType),
    /// Structs.
    Struct,
    /// Lists.
    List(ItemType),
}

/// A slot of a column whose stored value can be read even where the slot is null.
#[derive(Clone, Copy, PartialEq, Eq, Debug)]
pub struct Slot<T> {
    /// Whether the slot holds a value.
    pub valid: bool,
    /// The value, or what is stored under a null.
    pub value: T,
}

impl<T> Slot<T> {
    /// The value, or nothing where the slot is null.
    pub open spec fn cell(self) -> Option<T> {
        if self.valid {
            Some(self.value)
        } else {
            None
        }
    }
}

impl<T: Copy> Slot<T> {
    /// The value, or nothing where the slot is null.
    pub fn get(&self) -> (r: Option<T>)
        ensures
            r == self.cell(),
    {
        if self.valid {
            Some(self.value)
        } else {
            None
        }
    }
}

/// One value of a scalar column.
pub enum Cell {
    /// An unsigned 8-bit integer.
    UInt8(u8),
    /// An unsigned 16-bit integer.
    UInt16(u16),
    /// An unsigned 32-bit integer.
    UInt32(u32),
    /// An unsigned 64-bit integer.
    UInt64(u64),
    /// A signed 64-bit integer.
    Int64(i64),
    /// A binary64 number.
    Float64(Double),
    /// A truth value.
    Boolean(bool),
    /// Text.
    Utf8(Seq<char>),
    /// A byte string.
    Binary(Seq<u8>),
    /// A value that is only carried through.
    Other(u64),
}

/// Most bytes that the values of one text or binary column take up together.
pub const MAX_TEXT_BYTES: usize = 0x7fff_ffff;

/// Bytes that a cell takes up in the value buffer of a text or binary column.
pub open spec fn cell_bytes(cell: Option<Cell>) -> nat {
    match cell {
        Some(Cell::Utf8(s)) => vstd::utf8::encode_utf8(s).len(),
        Some(Cell::Binary(b)) => b.len(),
        _ => 0,
    }
}

/// Bytes that the cells of a column take up in its value buffer.
pub open spec fn cells_bytes(cells: Seq<Option<Cell>>) -> nat
    decreases cells.len(),
{
    if cells.len() == 0 {
        0
    } else {
        cells_bytes(cells.drop_last()) + cell_bytes(cells.last())
    }
}

/// The text of a nullable string.
pub open spec fn text_cell(cell: Option<String>) -> Option<Seq<char>> {
    match cell {
        Some(s) => Some(s@),
        None => None,
    }
}

/// The texts of nullable strings.
pub open spec fn text_cells(cells: Seq<Option<String>>) -> Seq<Option<Seq<char>>> {
    cells.map_values(|cell: Option<String>| text_cell(cell))
}

/// The bytes of a nullable byte string.
pub open spec fn bytes_cell(cell: Option<Vec<u8>>) -> Option<Seq<u8>> {
    match cell {
        Some(b) => Some(b@),
        None => None,
    }
}

/// The bytes of nullable byte strings.
pub open spec fn bytes_cells(cells: Seq<Option<Vec<u8>>>) -> Seq<Option<Seq<u8>>> {
    cells.map_values(|cell: Option<Vec<u8>>| bytes_cell(cell))
}

/// A column of scalars.
#[derive(Clone, PartialEq, Eq, Debug)]
pub enum Scalars {
    /// Unsigned 8-bit integers.
    UInt8(Vec<Slot<u8>>),
    /// Unsigned 16-bit integers.
    UInt16(Vec<Slot<u16>>),
    /// Unsigned 32-bit integers.
    UInt32(Vec<Option<u32>>),
    /// Unsigned 64-bit integers.
    UInt64(Vec<Option<u64>>),
    /// Signed 64-bit integers.
    Int64(Vec<Option<i64>>),
    /// Binary64 numbers.
    Float64(Vec<Option<Double>>),
    /// Truth values.
    Boolean(Vec<Option<bool>>),
    /// Text.
    Utf8(Vec<Option<String>>),
    /// Byte strings.
    Binary(Vec<Option<Vec<u8>>>),
    /// Values that are only carried through, each by a handle.
    Other(u32, Vec<Option<u64>>),
}

/// The contents of a column of scalars.
pub enum ScalarsView {
    /// Unsigned 8-bit integers.
    UInt8(Seq<Slot<u8>>),
    /// Unsigned 16-bit integers.
    UInt16(Seq<Slot<u16>>),
    /// Unsigned 32-bit integers.
    UInt32(Seq<Option<u32>>),
    /// Unsigned 64-bit integers.
    UInt64(Seq<Option<u64>>),
    /// Signed 64-bit integers.
    Int64(Seq<Option<i64>>),
    /// Binary64 numbers.
    Float64(Seq<Option<Double>>),
    /// Truth values.
    Boolean(Seq<Option<bool>>),
    /// Text.
    Utf8(Seq<Option<Seq<char>>>),
    /// Byte strings.
    Binary(Seq<Option<Seq<u8>>>),
    /// Values that are only carried through.
    Other(u32, Seq<Option<u64>>),
}

impl View for Scalars {
    type V = ScalarsView;

    open spec fn view(&self) -> ScalarsView {
        match self {
            Scalars::UInt8(v) => ScalarsView::UInt8(v@),
            Scalars::UInt16(v) => ScalarsView::UInt16(v@),
            Scalars::UInt32(v) => ScalarsView::UInt32(v@),
            Scalars::UInt64(v) => ScalarsView::UInt64(v@),
            Scalars::Int64(v) => ScalarsView::Int64(v@),
            Scalars::Float64(v) => ScalarsView::Float64(v@),
            Scalars::Boolean(v) => ScalarsView::Boolean(v@),
            Scalars::Utf8(v) => ScalarsView::Utf8(text_cells(v@)),
            Scalars::Binary(v) => ScalarsView::Binary(bytes_cells(v@)),
            Scalars::Other(tag, v) => ScalarsView::Other(*tag, v@),
        }
    }
}

impl ScalarsView {
    /// Number of rows.
    pub open spec fn len(self) -> nat {
        match self {
            ScalarsView::UInt8(v) => v.len(),
            ScalarsView::UInt16(v) => v.len(),
            ScalarsView::UInt32(v) => v.len(),
            ScalarsView::UInt64(v) => v.len(),
            ScalarsView::Int64(v) => v.len(),
            ScalarsView::Float64(v) => v.len(),
            ScalarsView::Boolean(v) => v.len(),
            ScalarsView::Utf8(v) => v.len(),
            ScalarsView::Binary(v) => v.len(),
            ScalarsView::Other(_, v) => v.len(),
        }
    }

    /// Type of the values.
    pub open spec fn scalar_type(self) -> ScalarType {
        match self {
            ScalarsView::UInt8(_) => ScalarType::UInt8,
            ScalarsView::UInt16(_) => ScalarType::UInt16,
            ScalarsView::UInt32(_) => ScalarType::UInt32,
            ScalarsView::UInt64(_) => ScalarType::UInt64,
            ScalarsView::Int64(_) => ScalarType::Int64,
            ScalarsView::Float64(_) => ScalarType::Float64,
            ScalarsView::Boolean(_) => ScalarType::Boolean,
            ScalarsView::Utf8(_) => ScalarType::Utf8,
            ScalarsView::Binary(_) => ScalarType::Binary,
            ScalarsView::Other(tag, _) => ScalarType::Other(tag),
        }
    }

    /// The value in a row, or nothing where it is null.
    pub open spec fn cell(self, row: int) -> Option<Cell> {
        match self {
            ScalarsView::UInt8(v) => match v[row].cell() {
                Some(x) => Some(Cell::UInt8(x)),
                None => None,
            },
            ScalarsView::UInt16(v) => match v[row].cell() {
                Some(x) => Some(Cell::UInt16(x)),
                None => None,
            },
            ScalarsView::UInt32(v) => match v[row] {
                Some(x) => Some(Cell::UInt32(x)),
                None => None,
            },
            ScalarsView::UInt64(v) => match v[row] {
                Some(x) => Some(Cell::UInt64(x)),
                None => None,
            },
            ScalarsView::Int64(v) => match v[row] {
                Some(x) => Some(Cell::Int64(x)),
                None => None,
            },
            ScalarsView::Float64(v) => match v[row] {
                Some(x) => Some(Cell::Float64(x)),
                None => None,
            },
            ScalarsView::Boolean(v) => match v[row] {
                Some(x) => Some(Cell::Boolean(x)),
                None => None,
            },
            ScalarsView::Utf8(v) => match v[row] {
                Some(x) => Some(Cell::Utf8(x)),
                None => None,
            },
            ScalarsView::Binary(v) => match v[row] {
                Some(x) => Some(Cell::Binary(x)),
                None => None,
            },
            ScalarsView::Other(_, v) => match v[row] {
                Some(x) => Some(Cell::Other(x)),
                None => None,
            },
        }
    }

    /// The values of all rows.
    pub open spec fn cells(self) -> Seq<Option<Cell>> {
        Seq::new(self.len(), |row: int| self.cell(row))
    }

    /// The values fit the value buffer of one column.
    pub open spec fn wf(self) -> bool {
        cells_bytes(self.cells()) <= MAX_TEXT_BYTES
    }
}

/// Copies a column of plain values.
pub(crate) fn copy_cells<T: Copy>(cells: &Vec<T>) -> (r: Vec<T>)
    ensures
        r@ == cells@,
{
    let mut out: Vec<T> = Vec::new();
    let mut i: usize = 0;
    while i < cells.len()
        invariant
            i <= cells.len(),
            out@ == cells@.take(i as int),
        decreases cells.len() - i,
    {
        out.push(cells[i]);
        i = i + 1;
    }
    assert(cells@.take(i as int) == cells@);
    out
}

/// Copies a nullable string.
pub(crate) fn copy_text(cell: &Option<String>) -> (r: Option<String>)
    ensures
        text_cell(r) == text_cell(*cell),
{
    match cell {
        Some(s) => Some(s.clone()),
        None => None,
    }
}

/// Copies a column of text.
pub(crate) fn copy_texts(cells: &Vec<Option<String>>) -> (r: Vec<Option<String>>)
    ensures
        text_cells(r@) == text_cells(cells@),
        r@.len() == cells@.len(),
        forall|k: int| 0 <= k < r@.len() ==> text_cell(#[trigger] r@[k]) == text_cell(cells@[k]),
{
    let mut out: Vec<Option<String>> = Vec::new();
    let mut i: usize = 0;
    while i < cells.len()
        invariant
            i <= cells.len(),
            out@.len() == i,
            forall|k: int| 0 <= k < i ==> text_cell(#[trigger] out@[k]) == text_cell(cells@[k]),
        decreases cells.len() - i,
    {
        out.push(copy_text(&cells[i]));
        i = i + 1;
    }
    assert(text_cells(out@) =~= text_cells(cells@));
    out
}

/// Copies a column of byte strings.
pub(crate) fn copy_byte_strings(cells: &Vec<Option<Vec<u8>>>) -> (r: Vec<Option<Vec<u8>>>)
    ensures
        bytes_cells(r@) == bytes_cells(cells@),
        r@.len() == cells@.len(),
        forall|k: int| 0 <= k < r@.len() ==> bytes_cell(#[trigger] r@[k]) == bytes_cell(cells@[k]),
{
    let mut out: Vec<Option<Vec<u8>>> = Vec::new();
    let mut i: usize = 0;
    while i < cells.len()
        invariant
            i <= cells.len(),
            out@.len() == i,
            forall|k: int| 0 <= k < i ==> bytes_cell(#[trigger] out@[k]) == bytes_cell(cells@[k]),
        decreases cells.len() - i,
    {
        let cell = match &cells[i] {
            Some(b) => Some(copy_cells(b)),
            None => None,
        };
        out.push(cell);
        i = i + 1;
    }
    assert(bytes_cells(out@) =~= bytes_cells(cells@));
    out
}

impl Scalars {
    /// Number of rows.
    pub fn len(&self) -> (r: usize)
        ensures
            r == self@.len(),
    {
        match self {
            Scalars::UInt8(v) => v.len(),
            Scalars::UInt16(v) => v.len(),
            Scalars::UInt32(v) => v.len(),
            Scalars::UInt64(v) => v.len(),
            Scalars::Int64(v) => v.len(),
            Scalars::Float64(v) => v.len(),
            Scalars::Boolean(v) => v.len(),
            Scalars::Utf8(v) => v.len(),
            Scalars::Binary(v) => v.len(),
            Scalars::Other(_, v) => v.len(),
        }
    }

    /// Type of the values.
    pub fn scalar_type(&self) -> (r: ScalarType)
        ensures
            r == self@.scalar_type(),
    {
        match self {
            Scalars::UInt8(_) => ScalarType::UInt8,
            Scalars::UInt16(_) => ScalarType::UInt16,
            Scalars::UInt32(_) => ScalarType::UInt32,
            Scalars::UInt64(_) => ScalarType::UInt64,
            Scalars::Int64(_) => ScalarType::Int64,
            Scalars::Float64(_) => ScalarType::Float64,
            Scalars::Boolean(_) => ScalarType::Boolean,
            Scalars::Utf8(_) => ScalarType::Utf8,
            Scalars::Binary(_) => ScalarType::Binary,
            Scalars::Other(tag, _) => ScalarType::Other(*tag),
        }
    }

    /// Copies the column.
    pub fn duplicate(&self) -> (r: Scalars)
        ensures
            r@ == self@,
    {
        match self {
            Scalars::UInt8(v) => Scalars::UInt8(copy_cells(v)),
            Scalars::UInt16(v) => Scalars::UInt16(copy_cells(v)),
            Scalars::UInt32(v) => Scalars::UInt32(copy_cells(v)),
            Scalars::UInt64(v) => Scalars::UInt64(copy_cells(v)),
            Scalars::Int64(v) => Scalars::Int64(copy_cells(v)),
            Scalars::Float64(v) => Scalars::Float64(copy_cells(v)),
            Scalars::Boolean(v) => Scalars::Boolean(copy_cells(v)),
            Scalars::Utf8(v) => Scalars::Utf8(copy_texts(v)),
            Scalars::Binary(v) => Scalars::Binary(copy_byte_strings(v)),
            Scalars::Other(tag, v) => Scalars::Other(*tag, copy_cells(v)),
        }
    }

    /// Bytes that the value in a row takes up in the value buffer.
    fn row_bytes(&self, row: usize) -> (r: usize)
        requires
            row < self@.len(),
        ensures
            r == cell_bytes(self@.cell(row as int)),
    {
        match self {
            Scalars::Utf8(v) => match &v[row] {
                Some(s) => s.as_str().as_bytes().len(),
                None => 0,
            },
            Scalars::Binary(v) => match &v[row] {
                Some(b) => b.len(),
                None => 0,
            },
            _ => 0,
        }
    }

    /// Whether the values fit the value buffer of one column.
    pub fn fits(&self) -> (r: bool)
        ensures
            r == self@.wf(),
    {
        let ghost cells = self@.cells();
        let mut used: usize = 0;
        let mut i: usize = 0;
        while i < self.len()
            invariant
                i <= self@.len(),
                cells == self@.cells(),
                used == cells_bytes(cells.take(i as int)),
                used <= MAX_TEXT_BYTES,
            decreases self@.len() - i,
        {
            let more = self.row_bytes(i);
            proof {
                lemma_cells_bytes_step(cells, i as int);
                lemma_cells_bytes_grow(cells, i as int + 1);
            }
            if more > MAX_TEXT_BYTES - used {
                return false;
            }
            used = used + more;
            i = i + 1;
        }
        assert(cells.take(i as int) == cells);
        true
    }
}

/// One more cell takes up its own bytes.
pub(crate) proof fn lemma_cells_bytes_step(cells: Seq<Option<Cell>>, n: int)
    requires
        0 <= n < cells.len(),
    ensures
        cells_bytes(cells.take(n + 1)) == cells_bytes(cells.take(n)) + cell_bytes(cells[n]),
{
    assert(cells.take(n + 1).drop_last() == cells.take(n));
}

/// A prefix takes up no more bytes than the whole.
pub(crate) proof fn lemma_cells_bytes_grow(cells: Seq<Option<Cell>>, n: int)
    requires
        0 <= n <= cells.len(),
    ensures
        cells_bytes(cells.take(n)) <= cells_bytes(cells),
    decreases cells.len() - n,
{
    if n < cells.len() {
        lemma_cells_bytes_step(cells, n);
        lemma_cells_bytes_grow(cells, n + 1);
    } else {
        assert(cells.take(n) == cells);
    }
}

/// Cells of a fixed width take up no bytes of a value buffer.
pub(crate) proof fn lemma_no_bytes(cells: Seq<Option<Cell>>)
    requires
        forall|i: int|
            0 <= i < cells.len() ==> cell_bytes(#[trigger] cells[i]) == 0,
    ensures
        cells_bytes(cells) == 0,
    decreases cells.len(),
{
    if cells.len() > 0 {
        lemma_no_bytes(cells.drop_last());
    }
}

/// A dictionary-encoded column: each row names one of the values.
#[derive(Clone, PartialEq, Eq, Debug)]
pub struct Dictionary {
    /// Type of the keys.
    pub key: KeyType,
    /// For each row, which value it has.
    pub keys: Vec<Option<u64>>,
    /// The values.
    pub values: Scalars,
}

/// A scalar column, plain or dictionary-encoded.
#[derive(Clone, PartialEq, Eq, Debug)]
pub enum Leaf {
    /// One value per row.
    Plain(Scalars),
    /// One key per row.
    Dictionary(Dictionary),
}

/// The contents of a scalar column.
pub enum LeafView {
    /// One value per row.
    Plain(ScalarsView),
    /// One key per row, and the values.
    Dictionary(KeyType, Seq<Option<u64>>, ScalarsView),
}

impl View for Leaf {
    type V = LeafView;

    open spec fn view(&self) -> LeafView {
        match self {
            Leaf::Plain(s) => LeafView::Plain(s@),
            Leaf::Dictionary(d) => LeafView::Dictionary(d.key, d.keys@, d.values@),
        }
    }
}

/// The value a key of a dictionary names.
pub open spec fn keyed<T>(key: Option<u64>, values: Seq<Option<T>>) -> Option<T> {
    match key {
        Some(k) => values[k as int],
        None => None,
    }
}

impl LeafView {
    /// Number of rows.
    pub open spec fn len(self) -> nat {
        match self {
            LeafView::Plain(s) => s.len(),
            LeafView::Dictionary(_, keys, _) => keys.len(),
        }
    }

    /// Type of the column.
    pub open spec fn data_type(self) -> DataType {
        match self {
            LeafView::Plain(s) => DataType::Scalar(s.scalar_type()),
            LeafView::Dictionary(key, _, values) => DataType::Dictionary(key, values.scalar_type()),
        }
    }

    /// Type of the column as a list's items.
    pub open spec fn item_type(self) -> ItemType {
        match self {
            LeafView::Plain(s) => ItemType::Scalar(s.scalar_type()),
            LeafView::Dictionary(key, _, values) => ItemType::Dictionary(key, values.scalar_type()),
        }
    }

    /// Type of the values, once no longer dictionary-encoded.
    pub open spec fn scalar_type(self) -> ScalarType {
        match self {
            LeafView::Plain(s) => s.scalar_type(),
            LeafView::Dictionary(_, _, values) => values.scalar_type(),
        }
    }

    /// The values of all rows.
    pub open spec fn cells(self) -> Seq<Option<Cell>> {
        match self {
            LeafView::Plain(s) => s.cells(),
            LeafView::Dictionary(_, keys, values) => Seq::new(
                keys.len(),
                |row: int| keyed(keys[row], values.cells()),
            ),
        }
    }

    /// The texts of all rows, where the column is one of text. Dictionaries of text have
    /// unsigned keys of 8 or 16 bits.
    pub open spec fn texts(self) -> Option<Seq<Option<Seq<char>>>> {
        match self {
            LeafView::Plain(ScalarsView::Utf8(v)) => Some(v),
            LeafView::Dictionary(key, keys, ScalarsView::Utf8(v)) => if key is UInt8
                || key is UInt16 {
                Some(Seq::new(keys.len(), |row: int| keyed(keys[row], v)))
            } else {
                None
            },
            _ => None,
        }
    }

    /// The values fit their buffer, and every key names one of them.
    pub open spec fn wf(self) -> bool {
        match self {
            LeafView::Plain(s) => s.wf(),
            LeafView::Dictionary(key, keys, values) => {
                &&& values.wf()
                &&& forall|row: int|
                    0 <= row < keys.len() && (#[trigger] keys[row]) is Some ==> {
                        &&& keys[row]->0 < values.len()
                        &&& keys[row]->0 <= key.largest()
                    }
            },
        }
    }
}

impl Leaf {
    /// Number of rows.
    pub fn len(&self) -> (r: usize)
        ensures
            r == self@.len(),
    {
        match self {
            Leaf::Plain(s) => s.len(),
            Leaf::Dictionary(d) => d.keys.len(),
        }
    }

    /// Type of the column.
    pub fn data_type(&self) -> (r: DataType)
        ensures
            r == self@.data_type(),
    {
        match self {
            Leaf::Plain(s) => DataType::Scalar(s.scalar_type()),
            Leaf::Dictionary(d) => DataType::Dictionary(d.key, d.values.scalar_type()),
        }
    }

    /// Type of the column as a list's items.
    pub fn item_type(&self) -> (r: ItemType)
        ensures
            r == self@.item_type(),
    {
        match self {
            Leaf::Plain(s) => ItemType::Scalar(s.scalar_type()),
            Leaf::Dictionary(d) => ItemType::Dictionary(d.key, d.values.scalar_type()),
        }
    }

    /// Copies the column.
    pub fn duplicate(&self) -> (r: Leaf)
        ensures
            r@ == self@,
    {
        match self {
            Leaf::Plain(s) => Leaf::Plain(s.duplicate()),
            Leaf::Dictionary(d) => Leaf::Dictionary(
                Dictionary {
                    key: d.key,
                    keys: copy_cells(&d.keys),
                    values: d.values.duplicate(),
                },
            ),
        }
    }

    /// Whether the values fit their buffer and every key names one of them.
    pub fn is_wf(&self) -> (r: bool)
        ensures
            r == self@.wf(),
    {
        match self {
            Leaf::Plain(s) => s.fits(),
            Leaf::Dictionary(d) => {
                if !d.values.fits() {
                    return false;
                }
                let limit = d.values.len();
                let largest = d.key.largest_key();
                let mut i: usize = 0;
                while i < d.keys.len()
                    invariant
                        i <= d.keys.len(),
                        limit == d.values@.len(),
                        largest == d.key.largest(),
                        forall|row: int|
                            0 <= row < i && (#[trigger] d.keys@[row]) is Some ==> {
                                &&& d.keys@[row]->0 < limit
                                &&& d.keys@[row]->0 <= largest
                            },
                        self == (Leaf::Dictionary(*d)),
                    decreases d.keys.len() - i,
                {
                    if let Some(k) = d.keys[i] {
                        if k >= limit as u64 || k > largest {
                            assert(d.keys@[i as int] is Some);
                            return false;
                        }
                    }
                    i = i + 1;
                }
                true
            },
        }
    }
}

/// A column's name and whether it may hold nulls.
#[derive(Clone, PartialEq, Eq, Debug)]
pub struct Field {
    /// The column's name.
    pub name: String,
    /// Whether it may hold nulls.
    pub nullable: bool,
}

/// The contents of a field.
pub struct FieldView {
    /// The column's name.
    pub name: Seq<char>,
    /// Whether it may hold nulls.
    pub nullable: bool,
}

impl View for Field {
    type V = FieldView;

    open spec fn view(&self) -> FieldView {
        FieldView { name: self.name@, nullable: self.nullable }
    }
}

impl Field {
    /// A field of a given name.
    pub fn new(name: &str, nullable: bool) -> (r: Field)
        ensures
            r@ == (FieldView { name: name@, nullable }),
    {
        Field { name: name.to_owned(), nullable }
    }

    /// Copies the field.
    pub fn duplicate(&self) -> (r: Field)
        ensures
            r@ == self@,
    {
        Field { name: self.name.clone(), nullable: self.nullable }
    }
}

/// The contents of several fields.
pub open spec fn field_views(fields: Seq<Field>) -> Seq<FieldView> {
    fields.map_values(|field: Field| field@)
}

/// The first field from `from` on that has a given name.
pub open spec fn first_named(fields: Seq<FieldView>, name: Seq<char>, from: int) -> Option<int>
    decreases fields.len() - from,
{
    if from < 0 || from >= fields.len() {
        None
    } else if fields[from].name == name {
        Some(from)
    } else {
        first_named(fields, name, from + 1)
    }
}

/// Where a field of a given name is found, it has that name, and none before it does.
pub proof fn lemma_first_named(fields: Seq<FieldView>, name: Seq<char>, from: int)
    requires
        0 <= from,
    ensures
        match first_named(fields, name, from) {
            Some(i) => from <= i < fields.len() && fields[i].name == name && forall|k: int|
                from <= k < i ==> (#[trigger] fields[k]).name != name,
            None => forall|k: int|
                from <= k < fields.len() ==> (#[trigger] fields[k]).name != name,
        },
    decreases fields.len() - from,
{
    if from < fields.len() && fields[from].name != name {
        lemma_first_named(fields, name, from + 1);
    }
}

/// The position of the first field that has a given name.
pub(crate) fn position_of(fields: &Vec<Field>, name: &str) -> (r: Option<usize>)
    ensures
        match r {
            Some(i) => first_named(field_views(fields@), name@, 0) == Some(i as int),
            None => first_named(field_views(fields@), name@, 0) is None,
        },
        r is Some ==> r->0 < fields@.len() && fields@[r->0 as int].name@ == name@,
{
    let wanted = name.to_owned();
    let mut i: usize = 0;
    while i < fields.len()
        invariant
            i <= fields@.len(),
            wanted@ == name@,
            first_named(field_views(fields@), name@, 0) == first_named(
                field_views(fields@),
                name@,
                i as int,
            ),
        decreases fields@.len() - i,
    {
        if fields[i].name == wanted {
            return Some(i);
        }
        i = i + 1;
    }
    None
}

/// Copies several fields.
pub(crate) fn copy_fields(fields: &Vec<Field>) -> (r: Vec<Field>)
    ensures
        field_views(r@) == field_views(fields@),
{
    let mut out: Vec<Field> = Vec::new();
    let mut i: usize = 0;
    while i < fields.len()
        invariant
            i <= fields.len(),
            out@.len() == i,
            forall|k: int| 0 <= k < i ==> (#[trigger] out@[k])@ == fields@[k]@,
        decreases fields.len() - i,
    {
        out.push(fields[i].duplicate());
        i = i + 1;
    }
    assert(field_views(out@) =~= field_views(fields@));
    out
}

/// The contents of several scalar columns.
pub open spec fn leaf_views(leaves: Seq<Leaf>) -> Seq<LeafView> {
    leaves.map_values(|leaf: Leaf| leaf@)
}

/// Copies several scalar columns.
pub(crate) fn copy_leaves(leaves: &Vec<Leaf>) -> (r: Vec<Leaf>)
    ensures
        leaf_views(r@) == leaf_views(leaves@),
{
    let mut out: Vec<Leaf> = Vec::new();
    let mut i: usize = 0;
    while i < leaves.len()
        invariant
            i <= leaves.len(),
            out@.len() == i,
            forall|k: int| 0 <= k < i ==> (#[trigger] out@[k])@ == leaves@[k]@,
        decreases leaves.len() - i,
    {
        out.push(leaves[i].duplicate());
        i = i + 1;
    }
    assert(leaf_views(out@) =~= leaf_views(leaves@));
    out
}

/// A column of structs.
#[derive(Clone, PartialEq, Eq, Debug)]
pub struct StructColumn {
    /// The fields of a struct.
    pub fields: Vec<Field>,
    /// One column per field.
    pub children: Vec<Leaf>,
    /// For each row, whether there is a struct.
    pub validity: Vec<bool>,
}

/// The contents of a column of structs.
pub struct StructView {
    /// The fields of a struct.
    pub fields: Seq<FieldView>,
    /// One column per field.
    pub children: Seq<LeafView>,
    /// For each row, whether there is a struct.
    pub validity: Seq<bool>,
}

impl View for StructColumn {
    type V = StructView;

    open spec fn view(&self) -> StructView {
        StructView {
            fields: field_views(self.fields@),
            children: leaf_views(self.children@),
            validity: self.validity@,
        }
    }
}

impl StructView {
    /// Number of rows.
    pub open spec fn len(self) -> nat {
        self.validity.len()
    }

    /// The child column of a given name.
    pub open spec fn child(self, name: Seq<char>) -> Option<LeafView> {
        match first_named(self.fields, name, 0) {
            Some(i) => Some(self.children[i]),
            None => None,
        }
    }

    /// One sound child column per field, each with as many rows as the struct column.
    pub open spec fn wf(self) -> bool {
        &&& self.fields.len() == self.children.len()
        &&& forall|i: int|
            0 <= i < self.children.len() ==> (#[trigger] self.children[i]).wf()
                && self.children[i].len() == self.validity.len()
    }
}

impl StructColumn {
    /// Copies the column.
    pub fn duplicate(&self) -> (r: StructColumn)
        ensures
            r@ == self@,
    {
        StructColumn {
            fields: copy_fields(&self.fields),
            children: copy_leaves(&self.children),
            validity: copy_cells(&self.validity),
        }
    }

    /// The child column of a given name.
    pub fn child(&self, name: &str) -> (r: Option<&Leaf>)
        requires
            self@.wf(),
        ensures
            match r {
                Some(leaf) => self@.child(name@) == Some(leaf@) && leaf@.wf(),
                None => self@.child(name@) is None,
            },
    {
        match position_of(&self.fields, name) {
            Some(i) => {
                assert(self@.children[i as int] == self.children@[i as int]@);
                Some(&self.children[i])
            },
            None => None,
        }
    }

    /// Whether there is one sound child column per field, of the right length.
    pub fn is_wf(&self) -> (r: bool)
        ensures
            r == self@.wf(),
    {
        if self.fields.len() != self.children.len() {
            return false;
        }
        let rows = self.validity.len();
        let mut i: usize = 0;
        while i < self.children.len()
            invariant
                i <= self.children.len(),
                rows == self.validity@.len(),
                forall|k: int|
                    0 <= k < i ==> (#[trigger] self@.children[k]).wf() && self@.children[k].len()
                        == rows,
            decreases self.children.len() - i,
        {
            assert(self@.children[i as int] == self.children@[i as int]@);
            if !self.children[i].is_wf() || self.children[i].len() != rows {
                return false;
            }
            i = i + 1;
        }
        true
    }
}

/// The items of a column of lists, those of all rows together.
#[derive(Clone, PartialEq, Eq, Debug)]
pub enum Items {
    /// Scalars.
    Leaf(Leaf),
    /// Structs.
    Struct(StructColumn),
}

/// The contents of a list column's items.
pub enum ItemsView {
    /// Scalars.
    Leaf(LeafView),
    /// Structs.
    Struct(StructView),
}

impl View for Items {
    type V = ItemsView;

    open spec fn view(&self) -> ItemsView {
        match self {
            Items::Leaf(leaf) => ItemsView::Leaf(leaf@),
            Items::Struct(column) => ItemsView::Struct(column@),
        }
    }
}

impl ItemsView {
    /// Number of items.
    pub open spec fn len(self) -> nat {
        match self {
            ItemsView::Leaf(leaf) => leaf.len(),
            ItemsView::Struct(column) => column.len(),
        }
    }

    /// Type of the items.
    pub open spec fn item_type(self) -> ItemType {
        match self {
            ItemsView::Leaf(leaf) => leaf.item_type(),
            ItemsView::Struct(_) => ItemType::Struct,
        }
    }

    /// Type of the items as a column.
    pub open spec fn data_type(self) -> DataType {
        match self {
            ItemsView::Leaf(leaf) => leaf.data_type(),
            ItemsView::Struct(_) => DataType::Struct,
        }
    }

    /// The items are sound.
    pub open spec fn wf(self) -> bool {
        match self {
            ItemsView::Leaf(leaf) => leaf.wf(),
            ItemsView::Struct(column) => column.wf(),
        }
    }
}

impl Items {
    /// Number of items.
    pub fn len(&self) -> (r: usize)
        ensures
            r == self@.len(),
    {
        match self {
            Items::Leaf(leaf) => leaf.len(),
            Items::Struct(column) => column.validity.len(),
        }
    }

    /// Type of the items.
    pub fn item_type(&self) -> (r: ItemType)
        ensures
            r == self@.item_type(),
    {
        match self {
            Items::Leaf(leaf) => leaf.item_type(),
            Items::Struct(_) => ItemType::Struct,
        }
    }

    /// Type of the items as a column.
    pub fn data_type(&self) -> (r: DataType)
        ensures
            r == self@.data_type(),
    {
        match self {
            Items::Leaf(leaf) => leaf.data_type(),
            Items::Struct(_) => DataType::Struct,
        }
    }

    /// Copies the items.
    pub fn duplicate(&self) -> (r: Items)
        ensures
            r@ == self@,
    {
        match self {
            Items::Leaf(leaf) => Items::Leaf(leaf.duplicate()),
            Items::Struct(column) => Items::Struct(column.duplicate()),
        }
    }

    /// Whether the items are sound.
    pub fn is_wf(&self) -> (r: bool)
        ensures
            r == self@.wf(),
    {
        match self {
            Items::Leaf(leaf) => leaf.is_wf(),
            Items::Struct(column) => column.is_wf(),
        }
    }
}

/// A column of lists.
#[derive(Clone, PartialEq, Eq, Debug)]
pub struct ListColumn {
    /// Row `i` has the items from `offsets[i]` up to `offsets[i + 1]`.
    pub offsets: Vec<usize>,
    /// The items of all rows together.
    pub items: Items,
    /// Whether the items may be null.
    pub item_nullable: bool,
    /// For each row, whether there is a list.
    pub validity: Vec<bool>,
}

/// The contents of a column of lists.
pub struct ListView {
    /// Row `i` has the items from `offsets[i]` up to `offsets[i + 1]`.
    pub offsets: Seq<usize>,
    /// The items of all rows together.
    pub items: ItemsView,
    /// Whether the items may be null.
    pub item_nullable: bool,
    /// For each row, whether there is a list.
    pub validity: Seq<bool>,
}

impl View for ListColumn {
    type V = ListView;

    open spec fn view(&self) -> ListView {
        ListView {
            offsets: self.offsets@,
            items: self.items@,
            item_nullable: self.item_nullable,
            validity: self.validity@,
        }
    }
}

impl ListView {
    /// Number of rows.
    pub open spec fn len(self) -> nat {
        self.validity.len()
    }

    /// The items are sound, and the offsets cut consecutive ranges out of them.
    pub open spec fn wf(self) -> bool {
        &&& self.items.wf()
        &&& self.offsets.len() == self.validity.len() + 1
        &&& forall|i: int, j: int|
            0 <= i <= j < self.offsets.len() ==> self.offsets[i] <= self.offsets[j]
        &&& self.offsets.last() <= self.items.len()
    }
}

impl ListColumn {
    /// Copies the column.
    pub fn duplicate(&self) -> (r: ListColumn)
        ensures
            r@ == self@,
    {
        ListColumn {
            offsets: copy_cells(&self.offsets),
            items: self.items.duplicate(),
            item_nullable: self.item_nullable,
            validity: copy_cells(&self.validity),
        }
    }

    /// Whether the items are sound and the offsets cut consecutive ranges out of them.
    pub fn is_wf(&self) -> (r: bool)
        ensures
            r == self@.wf(),
    {
        if !self.items.is_wf() || self.offsets.len() == 0 || self.offsets.len() - 1
            != self.validity.len() {
            return false;
        }
        let mut i: usize = 1;
        while i < self.offsets.len()
            invariant
                1 <= i <= self.offsets@.len(),
                forall|a: int, b: int|
                    0 <= a <= b < i ==> self.offsets@[a] <= self.offsets@[b],
            decreases self.offsets@.len() - i,
        {
            if self.offsets[i] < self.offsets[i - 1] {
                return false;
            }
            i = i + 1;
        }
        self.offsets[self.offsets.len() - 1] <= self.items.len()
    }
}

/// A column of a record batch.
#[derive(Clone, PartialEq, Eq, Debug)]
pub enum Column {
    /// Scalars.
    Leaf(Leaf),
    /// Structs.
    Struct(StructColumn),
    /// Lists.
    List(ListColumn),
}

/// The contents of a column.
pub enum ColumnView {
    /// Scalars.
    Leaf(LeafView),
    /// Structs.
    Struct(StructView),
    /// Lists.
    List(ListView),
}

impl View for Column {
    type V = ColumnView;

    open spec fn view(&self) -> ColumnView {
        match self {
            Column::Leaf(leaf) => ColumnView::Leaf(leaf@),
            Column::Struct(column) => ColumnView::Struct(column@),
            Column::List(column) => ColumnView::List(column@),
        }
    }
}

impl ColumnView {
    /// Number of rows.
    pub open spec fn len(self) -> nat {
        match self {
            ColumnView::Leaf(leaf) => leaf.len(),
            ColumnView::Struct(column) => column.len(),
            ColumnView::List(column) => column.len(),
        }
    }

    /// Type of the column.
    pub open spec fn data_type(self) -> DataType {
        match self {
            ColumnView::Leaf(leaf) => leaf.data_type(),
            ColumnView::Struct(_) => DataType::Struct,
            ColumnView::List(column) => DataType::List(column.items.item_type()),
        }
    }

    /// The texts of all rows, where the column is one of text.
    pub open spec fn texts(self) -> Option<Seq<Option<Seq<char>>>> {
        match self {
            ColumnView::Leaf(leaf) => leaf.texts(),
            _ => None,
        }
    }

    /// The column is sound.
    pub open spec fn wf(self) -> bool {
        match self {
            ColumnView::Leaf(leaf) => leaf.wf(),
            ColumnView::Struct(column) => column.wf(),
            ColumnView::List(column) => column.wf(),
        }
    }
}

impl Column {
    /// A column of one scalar per row.
    pub fn plain(scalars: Scalars) -> (r: Column)
        ensures
            r@ == ColumnView::Leaf(LeafView::Plain(scalars@)),
    {
        Column::Leaf(Leaf::Plain(scalars))
    }

    /// Number of rows.
    pub fn len(&self) -> (r: usize)
        ensures
            r == self@.len(),
    {
        match self {
            Column::Leaf(leaf) => leaf.len(),
            Column::Struct(column) => column.validity.len(),
            Column::List(column) => column.validity.len(),
        }
    }

    /// Type of the column.
    pub fn data_type(&self) -> (r: DataType)
        ensures
            r == self@.data_type(),
    {
        match self {
            Column::Leaf(leaf) => leaf.data_type(),
            Column::Struct(_) => DataType::Struct,
            Column::List(column) => DataType::List(column.items.item_type()),
        }
    }

    /// Copies the column.
    pub fn duplicate(&self) -> (r: Column)
        ensures
            r@ == self@,
    {
        match self {
            Column::Leaf(leaf) => Column::Leaf(leaf.duplicate()),
            Column::Struct(column) => Column::Struct(column.duplicate()),
            Column::List(column) => Column::List(column.duplicate()),
        }
    }

    /// Whether the column is sound.
    pub fn is_wf(&self) -> (r: bool)
        ensures
            r == self@.wf(),
    {
        match self {
            Column::Leaf(leaf) => leaf.is_wf(),
            Column::Struct(column) => column.is_wf(),
            Column::List(column) => column.is_wf(),
        }
    }
}

} // verus!
