//! Record batches, and the payloads that make up an OTAP message.

use crate::column::{
    Column, ColumnView, DataType, Field, FieldView, KeyType, Leaf, LeafView, ScalarType,
    Scalars, ScalarsView, Slot,
};
use crate::error::Error;
use crate::payload::{ArrowPayloadType, PAYLOAD_SLOTS};
use vstd::prelude::*;

verus! {

/// Most rows of one batch.
pub const MAX_ROWS: u64 = 0x1fff_ffff_ffff_ffff;

/// A table: named columns of the same length.
#[derive(Clone, PartialEq, Eq, Debug)]
pub struct RecordBatch {
    /// Name of each column.
    pub fields: Vec<Field>,
    /// The columns.
    pub columns: Vec<Column>,
    /// Length of each column.
    pub rows: usize,
}

/// The contents of a batch.
pub struct BatchView {
    /// Name of each column.
    pub fields: Seq<FieldView>,
    /// The columns.
    pub columns: Seq<ColumnView>,
    /// Length of each column.
    pub rows: nat,
}

/// The contents of several columns.
pub open spec fn column_views(columns: Seq<Column>) -> Seq<ColumnView> {
    columns.map_values(|column: Column| column@)
}

impl View for RecordBatch {
    type V = BatchView;

    open spec fn view(&self) -> BatchView {
        BatchView {
            fields: crate::column::field_views(self.fields@),
            columns: column_views(self.columns@),
            rows: self.rows as nat,
        }
    }
}

impl BatchView {
    /// One sound column per name, all of the batch's length.
    pub open spec fn wf(self) -> bool {
        &&& self.fields.len() == self.columns.len()
        &&& self.rows <= MAX_ROWS
        &&& self.rows <= usize::MAX
        &&& forall|i: int|
            0 <= i < self.columns.len() ==> (#[trigger] self.columns[i]).wf()
                && self.columns[i].len() == self.rows
    }

    /// Position of the column of a given name.
    pub open spec fn index_of(self, name: Seq<char>) -> Option<int> {
        crate::column::first_named(self.fields, name, 0)
    }

    /// The column of a given name.
    pub open spec fn column(self, name: Seq<char>) -> Option<ColumnView> {
        match self.index_of(name) {
            Some(i) => Some(self.columns[i]),
            None => None,
        }
    }

    /// A column that has to be there.
    pub open spec fn required(self, name: &'static str) -> Result<ColumnView, Error> {
        match self.column(name@) {
            Some(column) => Ok(column),
            None => Err(Error::ColumnNotFound { name }),
        }
    }

    /// A column that has to be there and hold plain unsigned 16-bit integers.
    pub open spec fn required_u16(self, name: &'static str) -> Result<Seq<Slot<u16>>, Error> {
        match self.required(name) {
            Ok(ColumnView::Leaf(LeafView::Plain(ScalarsView::UInt16(v)))) => Ok(v),
            Ok(column) => Err(
                Error::ColumnDataTypeMismatch {
                    name,
                    expect: DataType::Scalar(ScalarType::UInt16),
                    actual: column.data_type(),
                },
            ),
            Err(e) => Err(e),
        }
    }

    /// A column that has to be there and hold plain unsigned 8-bit integers.
    pub open spec fn required_u8(self, name: &'static str) -> Result<Seq<Slot<u8>>, Error> {
        match self.required(name) {
            Ok(ColumnView::Leaf(LeafView::Plain(ScalarsView::UInt8(v)))) => Ok(v),
            Ok(column) => Err(
                Error::ColumnDataTypeMismatch {
                    name,
                    expect: DataType::Scalar(ScalarType::UInt8),
                    actual: column.data_type(),
                },
            ),
            Err(e) => Err(e),
        }
    }

    /// A column that has to be there and hold text.
    pub open spec fn required_text(self, name: &'static str) -> Result<
        Seq<Option<Seq<char>>>,
        Error,
    > {
        match self.required(name) {
            Ok(column) => column_text(column),
            Err(e) => Err(e),
        }
    }
}

/// The texts of a column, or why it has none.
pub open spec fn column_text(column: ColumnView) -> Result<Seq<Option<Seq<char>>>, Error> {
    match column.texts() {
        Some(texts) => Ok(texts),
        None => Err(Error::UnsupportedStringColumnType { data_type: column.data_type() }),
    }
}

/// Every column is sound and has a given length.
pub open spec fn columns_agree(columns: Seq<ColumnView>, rows: nat) -> bool {
    forall|i: int|
        0 <= i < columns.len() ==> (#[trigger] columns[i]).wf() && columns[i].len() == rows
}

/// Copies several columns.
pub(crate) fn copy_columns(columns: &Vec<Column>) -> (r: Vec<Column>)
    ensures
        column_views(r@) == column_views(columns@),
{
    let mut out: Vec<Column> = Vec::new();
    let mut i: usize = 0;
    while i < columns.len()
        invariant
            i <= columns.len(),
            out@.len() == i,
            forall|k: int| 0 <= k < i ==> (#[trigger] out@[k])@ == columns@[k]@,
        decreases columns.len() - i,
    {
        out.push(columns[i].duplicate());
        i = i + 1;
    }
    assert(column_views(out@) =~= column_views(columns@));
    out
}

impl RecordBatch {
    /// Puts a batch together from its columns.
    pub fn try_new(fields: Vec<Field>, columns: Vec<Column>) -> (r: Result<RecordBatch, Error>)
        ensures
            match r {
                Ok(batch) => batch@ == (BatchView {
                    fields: crate::column::field_views(fields@),
                    columns: column_views(columns@),
                    rows: columns@[0]@.len(),
                }) && batch@.wf() && columns@.len() > 0,
                Err(e) => e == Error::ColumnLengthMismatch && !(fields@.len() == columns@.len()
                    && columns@.len() > 0 && columns@[0]@.len() <= MAX_ROWS && columns_agree(
                    column_views(columns@),
                    columns@[0]@.len(),
                )),
            },
    {
        if columns.len() == 0 || fields.len() != columns.len() {
            return Err(Error::ColumnLengthMismatch);
        }
        let rows = columns[0].len();
        if rows as u64 > MAX_ROWS {
            return Err(Error::ColumnLengthMismatch);
        }
        let ghost views = column_views(columns@);
        let mut i: usize = 0;
        while i < columns.len()
            invariant
                i <= columns@.len(),
                views == column_views(columns@),
                columns@.len() > 0,
                rows == columns@[0]@.len(),
                forall|k: int|
                    0 <= k < i ==> (#[trigger] views[k]).wf() && views[k].len() == rows,
            decreases columns@.len() - i,
        {
            assert(views[i as int] == columns@[i as int]@);
            if !columns[i].is_wf() || columns[i].len() != rows {
                return Err(Error::ColumnLengthMismatch);
            }
            i = i + 1;
        }
        Ok(RecordBatch { fields, columns, rows })
    }

    /// Number of rows.
    pub fn num_rows(&self) -> (r: usize)
        ensures
            r == self@.rows,
    {
        self.rows
    }

    /// Copies the batch.
    pub fn duplicate(&self) -> (r: RecordBatch)
        ensures
            r@ == self@,
    {
        RecordBatch {
            fields: crate::column::copy_fields(&self.fields),
            columns: copy_columns(&self.columns),
            rows: self.rows,
        }
    }

    /// The column of a given name.
    pub fn column_by_name(&self, name: &str) -> (r: Option<&Column>)
        requires
            self@.wf(),
        ensures
            match r {
                Some(column) => self@.column(name@) == Some(column@) && column@.wf()
                    && column@.len() == self@.rows,
                None => self@.column(name@) is None,
            },
    {
        match crate::column::position_of(&self.fields, name) {
            Some(i) => {
                assert(self@.columns[i as int] == self.columns@[i as int]@);
                Some(&self.columns[i])
            },
            None => None,
        }
    }

    /// A column that has to be there.
    pub fn get_required_array(&self, name: &'static str) -> (r: Result<&Column, Error>)
        requires
            self@.wf(),
        ensures
            match r {
                Ok(column) => self@.required(name) == Ok::<ColumnView, Error>(column@)
                    && column@.wf() && column@.len() == self@.rows,
                Err(e) => self@.required(name) == Err::<ColumnView, Error>(e),
            },
    {
        match self.column_by_name(name) {
            Some(column) => Ok(column),
            None => Err(Error::ColumnNotFound { name }),
        }
    }

    /// A column that has to be there and hold plain unsigned 16-bit integers.
    pub fn get_u16_array(&self, name: &'static str) -> (r: Result<&Vec<Slot<u16>>, Error>)
        requires
            self@.wf(),
        ensures
            match r {
                Ok(v) => self@.required_u16(name) == Ok::<Seq<Slot<u16>>, Error>(v@) && v@.len()
                    == self@.rows,
                Err(e) => self@.required_u16(name) == Err::<Seq<Slot<u16>>, Error>(e),
            },
    {
        let column = match self.get_required_array(name) {
            Ok(column) => column,
            Err(e) => return Err(e),
        };
        match column {
            Column::Leaf(Leaf::Plain(Scalars::UInt16(v))) => Ok(v),
            _ => Err(
                Error::ColumnDataTypeMismatch {
                    name,
                    expect: DataType::Scalar(ScalarType::UInt16),
                    actual: column.data_type(),
                },
            ),
        }
    }

    /// A column that has to be there and hold plain unsigned 8-bit integers.
    pub fn get_u8_array(&self, name: &'static str) -> (r: Result<&Vec<Slot<u8>>, Error>)
        requires
            self@.wf(),
        ensures
            match r {
                Ok(v) => self@.required_u8(name) == Ok::<Seq<Slot<u8>>, Error>(v@) && v@.len()
                    == self@.rows,
                Err(e) => self@.required_u8(name) == Err::<Seq<Slot<u8>>, Error>(e),
            },
    {
        let column = match self.get_required_array(name) {
            Ok(column) => column,
            Err(e) => return Err(e),
        };
        match column {
            Column::Leaf(Leaf::Plain(Scalars::UInt8(v))) => Ok(v),
            _ => Err(
                Error::ColumnDataTypeMismatch {
                    name,
                    expect: DataType::Scalar(ScalarType::UInt8),
                    actual: column.data_type(),
                },
            ),
        }
    }
}

/// Row-wise access to a column of text, plain or dictionary-encoded.
#[derive(Clone, Copy)]
pub enum StringArrayAccessor<'a> {
    /// One text per row.
    Plain(&'a Vec<Option<String>>),
    /// One key per row, and the texts.
    Dictionary(&'a Vec<Option<u64>>, &'a Vec<Option<String>>),
}

impl<'a> StringArrayAccessor<'a> {
    /// The texts of all rows.
    pub open spec fn texts(self) -> Seq<Option<Seq<char>>> {
        match self {
            StringArrayAccessor::Plain(v) => crate::column::text_cells(v@),
            StringArrayAccessor::Dictionary(keys, v) => Seq::new(
                keys@.len(),
                |row: int| crate::column::keyed(keys@[row], crate::column::text_cells(v@)),
            ),
        }
    }

    /// Every key names a text.
    pub open spec fn wf(self) -> bool {
        match self {
            StringArrayAccessor::Plain(_) => true,
            StringArrayAccessor::Dictionary(keys, v) => forall|row: int|
                0 <= row < keys@.len() && (#[trigger] keys@[row]) is Some ==> keys@[row]->0
                    < v@.len(),
        }
    }

    /// Reads a column as text.
    pub fn try_new(column: &'a Column) -> (r: Result<StringArrayAccessor<'a>, Error>)
        requires
            column@.wf(),
        ensures
            match r {
                Ok(accessor) => column_text(column@) == Ok::<Seq<Option<Seq<char>>>, Error>(
                    accessor.texts(),
                ) && accessor.wf() && accessor.texts().len() == column@.len(),
                Err(e) => column_text(column@) == Err::<Seq<Option<Seq<char>>>, Error>(e),
            },
    {
        match column {
            Column::Leaf(Leaf::Plain(Scalars::Utf8(v))) => Ok(StringArrayAccessor::Plain(v)),
            Column::Leaf(Leaf::Dictionary(dictionary)) => {
                let short_keys = match dictionary.key {
                    KeyType::UInt8 => true,
                    KeyType::UInt16 => true,
                    _ => false,
                };
                match &dictionary.values {
                    Scalars::Utf8(v) if short_keys => {
                        let accessor = StringArrayAccessor::Dictionary(&dictionary.keys, v);
                        assert(column@.texts()->0 =~= accessor.texts());
                        Ok(accessor)
                    },
                    _ => Err(
                        Error::UnsupportedStringColumnType { data_type: column.data_type() },
                    ),
                }
            },
            _ => Err(Error::UnsupportedStringColumnType { data_type: column.data_type() }),
        }
    }

    /// The text in a row, or nothing where it is null.
    pub fn value_at(&self, row: usize) -> (r: Option<&'a String>)
        requires
            self.wf(),
            row < self.texts().len(),
        ensures
            match r {
                Some(s) => self.texts()[row as int] == Some(s@),
                None => self.texts()[row as int] is None,
            },
    {
        match self {
            StringArrayAccessor::Plain(v) => match &v[row] {
                Some(s) => Some(s),
                None => None,
            },
            StringArrayAccessor::Dictionary(keys, v) => match keys[row] {
                Some(k) => {
                    let texts = v.len();
                    assert(keys@[row as int] == Some(k) && k < texts);
                    match &v[k as usize] {
                        Some(s) => Some(s),
                        None => None,
                    }
                },
                None => None,
            },
        }
    }
}

/// A payload of a message.
///
/// Identifier columns may be stored in an encoding that suits transport. What
/// decoding them gives is held beside the stored batch.
#[derive(Clone, PartialEq, Eq, Debug)]
pub struct Payload {
    /// The batch as stored.
    pub stored: RecordBatch,
    /// What removing the transport-optimized encodings gives, where there are any.
    pub decoded: Option<Result<RecordBatch, Error>>,
}

/// The contents of a payload.
pub struct PayloadView {
    /// The batch as stored.
    pub stored: BatchView,
    /// The batch without transport-optimized encodings, or why there is none.
    pub plain: Result<BatchView, Error>,
}

impl View for Payload {
    type V = PayloadView;

    open spec fn view(&self) -> PayloadView {
        PayloadView {
            stored: self.stored@,
            plain: match self.decoded {
                Some(Ok(batch)) => Ok(batch@),
                Some(Err(e)) => Err(e),
                None => Ok(self.stored@),
            },
        }
    }
}

impl PayloadView {
    /// A payload without transport-optimized encodings.
    pub open spec fn of_plain(batch: BatchView) -> PayloadView {
        PayloadView { stored: batch, plain: Ok(batch) }
    }

    /// Both batches are sound, and have the same number of rows: encodings are those of
    /// columns.
    pub open spec fn wf(self) -> bool {
        &&& self.stored.wf()
        &&& self.plain matches Ok(batch) ==> batch.wf() && batch.rows == self.stored.rows
    }
}

impl Payload {
    /// A payload without transport-optimized encodings.
    pub fn plain(batch: RecordBatch) -> (r: Payload)
        ensures
            r@ == PayloadView::of_plain(batch@),
    {
        Payload { stored: batch, decoded: None }
    }

    /// The batch without transport-optimized encodings, or why there is none.
    pub fn remove_transport_optimized_encodings(&self) -> (r: Result<&RecordBatch, Error>)
        ensures
            match r {
                Ok(batch) => self@.plain == Ok::<BatchView, Error>(batch@),
                Err(e) => self@.plain == Err::<BatchView, Error>(e),
            },
    {
        match &self.decoded {
            Some(Ok(batch)) => Ok(batch),
            Some(Err(e)) => Err(*e),
            None => Ok(&self.stored),
        }
    }
}

/// What kind of records a message carries.
#[derive(Clone, Copy, PartialEq, Eq, Structural, Debug, Hash)]
pub enum Signal {
    /// Log records.
    Logs,
    /// Metrics, one name per row.
    Metrics,
    /// Metrics, several names per row.
    MultivariateMetrics,
    /// Spans.
    Traces,
}

impl Signal {
    /// The payload that holds the records themselves.
    pub open spec fn root(self) -> ArrowPayloadType {
        match self {
            Signal::Logs => ArrowPayloadType::Logs,
            Signal::Metrics => ArrowPayloadType::UnivariateMetrics,
            Signal::MultivariateMetrics => ArrowPayloadType::MultivariateMetrics,
            Signal::Traces => ArrowPayloadType::Spans,
        }
    }
}

/// An OTAP message: at most one batch per payload type.
#[derive(Clone, PartialEq, Eq, Debug)]
pub struct OtapArrowRecords {
    /// What kind of records the message carries.
    pub signal: Signal,
    /// The payloads, by their slot.
    pub payloads: Vec<Option<Payload>>,
}

/// The contents of a message.
#[verifier::ext_equal]
pub struct RecordsView {
    /// The payload that holds the records themselves.
    pub root: ArrowPayloadType,
    /// The payloads.
    pub payloads: Map<ArrowPayloadType, PayloadView>,
}

impl View for OtapArrowRecords {
    type V = RecordsView;

    open spec fn view(&self) -> RecordsView {
        RecordsView {
            root: self.signal.root(),
            payloads: Map::new(
                |t: ArrowPayloadType| self.payloads@[t.slot()] is Some,
                |t: ArrowPayloadType| self.payloads@[t.slot()]->0@,
            ),
        }
    }
}

impl RecordsView {
    /// The payload of a given type.
    pub open spec fn get(self, t: ArrowPayloadType) -> Option<PayloadView> {
        if self.payloads.contains_key(t) {
            Some(self.payloads[t])
        } else {
            None
        }
    }

    /// The message with one payload put in place.
    pub open spec fn set(self, t: ArrowPayloadType, batch: BatchView) -> RecordsView {
        RecordsView {
            root: self.root,
            payloads: self.payloads.insert(t, PayloadView::of_plain(batch)),
        }
    }

    /// Every payload is sound.
    pub open spec fn wf(self) -> bool {
        forall|t: ArrowPayloadType| #[trigger]
            self.payloads.contains_key(t) ==> self.payloads[t].wf()
    }
}

impl OtapArrowRecords {
    /// One slot per payload type, and every payload sound.
    pub open spec fn wf(&self) -> bool {
        &&& self.payloads@.len() == PAYLOAD_SLOTS
        &&& self@.wf()
    }

    /// A message without payloads.
    pub fn empty(signal: Signal) -> (r: OtapArrowRecords)
        ensures
            r.wf(),
            r@ == (RecordsView { root: signal.root(), payloads: Map::empty() }),
    {
        let mut payloads: Vec<Option<Payload>> = Vec::new();
        let mut i: usize = 0;
        while i < PAYLOAD_SLOTS
            invariant
                i <= PAYLOAD_SLOTS,
                payloads@.len() == i,
                forall|k: int| 0 <= k < i ==> (#[trigger] payloads@[k]) is None,
            decreases PAYLOAD_SLOTS - i,
        {
            payloads.push(None);
            i = i + 1;
        }
        let records = OtapArrowRecords { signal, payloads };
        assert(records@.payloads =~= Map::empty());
        records
    }

    /// The payload that holds the records themselves.
    pub fn root_payload_type(&self) -> (r: ArrowPayloadType)
        ensures
            r == self@.root,
    {
        match self.signal {
            Signal::Logs => ArrowPayloadType::Logs,
            Signal::Metrics => ArrowPayloadType::UnivariateMetrics,
            Signal::MultivariateMetrics => ArrowPayloadType::MultivariateMetrics,
            Signal::Traces => ArrowPayloadType::Spans,
        }
    }

    /// The payload of a given type.
    pub fn get(&self, t: ArrowPayloadType) -> (r: Option<&Payload>)
        requires
            self.wf(),
        ensures
            match r {
                Some(payload) => self@.get(t) == Some(payload@) && payload@.wf(),
                None => self@.get(t) is None,
            },
    {
        match &self.payloads[t.slot_index()] {
            Some(payload) => {
                assert(self@.payloads.contains_key(t));
                Some(payload)
            },
            None => None,
        }
    }

    /// Puts a payload in place, as stored and as decoded.
    pub fn put(&mut self, t: ArrowPayloadType, payload: Payload)
        requires
            old(self).wf(),
            payload@.wf(),
        ensures
            final(self).wf(),
            final(self)@ == (RecordsView {
                root: old(self)@.root,
                payloads: old(self)@.payloads.insert(t, payload@),
            }),
    {
        let ghost before = self@;
        self.payloads.set(t.slot_index(), Some(payload));
        proof {
            let after = before.payloads.insert(t, payload@);
            assert forall|u: ArrowPayloadType| u.slot() == t.slot() implies u == t by {}
            assert(self@.payloads =~= after);
        }
    }

    /// Puts a batch without transport-optimized encodings in place.
    pub fn set(&mut self, t: ArrowPayloadType, batch: RecordBatch)
        requires
            old(self).wf(),
            batch@.wf(),
        ensures
            final(self).wf(),
            final(self)@ == old(self)@.set(t, batch@),
    {
        self.put(t, Payload::plain(batch));
    }
}

} // verus!
