//! Names of the columns that are read or written.

use vstd::prelude::*;

verus! {

/// Identifier of a row.
pub const ID: &'static str = "id";

/// Identifier of the row that a row belongs to.
pub const PARENT_ID: &'static str = "parent_id";

/// The resource of a root row.
pub const RESOURCE: &'static str = "resource";

/// The instrumentation scope of a root row.
pub const SCOPE: &'static str = "scope";

/// Name of a metric.
pub const NAME: &'static str = "name";

/// Unit of a metric.
pub const UNIT: &'static str = "unit";

/// Shape of a metric's data.
pub const METRIC_TYPE: &'static str = "metric_type";

/// Integer value of a number data point.
pub const INT_VALUE: &'static str = "int_value";

/// Double value of a number data point.
pub const DOUBLE_VALUE: &'static str = "double_value";

/// Sum of a histogram or summary.
pub const HISTOGRAM_SUM: &'static str = "sum";

/// Smallest value in a histogram.
pub const HISTOGRAM_MIN: &'static str = "min";

/// Largest value in a histogram.
pub const HISTOGRAM_MAX: &'static str = "max";

/// Bounds of a histogram's buckets.
pub const HISTOGRAM_EXPLICIT_BOUNDS: &'static str = "explicit_bounds";

/// Quantiles of a summary.
pub const SUMMARY_QUANTILE_VALUES: &'static str = "quantile";

/// Value at a quantile of a summary.
pub const SUMMARY_VALUE: &'static str = "value";

/// What a mismatch in a plain column of doubles is reported under.
pub const DOUBLE_COLUMN: &'static str = "double column";

/// Key of an attribute.
pub const ATTRIBUTE_KEY: &'static str = "key";

/// Value type of an attribute.
pub const ATTRIBUTE_TYPE: &'static str = "type";

/// Text value of an attribute.
pub const ATTRIBUTE_STR: &'static str = "str";

/// Integer value of an attribute.
pub const ATTRIBUTE_INT: &'static str = "int";

/// Double value of an attribute.
pub const ATTRIBUTE_DOUBLE: &'static str = "double";

/// Truth value of an attribute.
pub const ATTRIBUTE_BOOL: &'static str = "bool";

/// Byte string value of an attribute.
pub const ATTRIBUTE_BYTES: &'static str = "bytes";

} // verus!
