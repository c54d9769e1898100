//! What can go wrong while reading a batch.

use crate::column::DataType;
use vstd::prelude::*;

verus! {

/// Errors of the batch transforms.
#[derive(Clone, Copy, PartialEq, Eq, Debug)]
pub enum Error {
    /// A column has another type than the one it is read as.
    ColumnDataTypeMismatch {
        /// The column.
        name: &'static str,
        /// The type it is read as.
        expect: DataType,
        /// The type it has.
        actual: DataType,
    },
    /// A batch or a column cannot be put together from its parts.
    ColumnLengthMismatch,
    /// A column that is read does not exist.
    ColumnNotFound {
        /// The column.
        name: &'static str,
    },
    /// A column that is read as text is neither text nor a dictionary of text.
    UnsupportedStringColumnType {
        /// The type it has.
        data_type: DataType,
    },
    /// An attribute carries a value type that no code stands for.
    UnknownAttributeValueType {
        /// The code found.
        code: u8,
    },
}

impl Error {
    /// What was found in a batch that its schema does not allow for, if that is the error.
    pub open spec fn unexpected_state(self) -> Option<Seq<char>> {
        match self {
            Error::UnknownAttributeValueType { code } => Some(
                "unknown attribute value type "@ + crate::text::decimal(code as nat),
            ),
            _ => None,
        }
    }

    /// Says what was found in a batch that its schema does not allow for, if that is the
    /// error.
    pub fn unexpected_state_reason(&self) -> (r: Option<String>)
        ensures
            crate::column::text_cell(r) == self.unexpected_state(),
    {
        match self {
            Error::UnknownAttributeValueType { code } => Some(
                "unknown attribute value type ".to_owned().concat(
                    crate::text::write_decimal(*code as u64).as_str(),
                ),
            ),
            _ => None,
        }
    }
}

} // verus!
