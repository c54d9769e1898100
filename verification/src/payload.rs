//! The payloads of an OTAP batch and the codes their columns carry.

use vstd::prelude::*;

verus! {

/// The kinds of record batch an OTAP message is made of.
#[derive(Clone, Copy, PartialEq, Eq, Structural, Debug, Hash)]
pub enum ArrowPayloadType {
    /// No known payload.
    Unknown,
    /// Attributes of resources.
    ResourceAttrs,
    /// Attributes of instrumentation scopes.
    ScopeAttrs,
    /// Metrics, one name per row.
    UnivariateMetrics,
    /// Number data points.
    NumberDataPoints,
    /// Summary data points.
    SummaryDataPoints,
    /// Histogram data points.
    HistogramDataPoints,
    /// Exponential histogram data points.
    ExpHistogramDataPoints,
    /// Attributes of number data points.
    NumberDpAttrs,
    /// Attributes of summary data points.
    SummaryDpAttrs,
    /// Attributes of histogram data points.
    HistogramDpAttrs,
    /// Attributes of exponential histogram data points.
    ExpHistogramDpAttrs,
    /// Exemplars of number data points.
    NumberDpExemplars,
    /// Exemplars of histogram data points.
    HistogramDpExemplars,
    /// Exemplars of exponential histogram data points.
    ExpHistogramDpExemplars,
    /// Attributes of number data point exemplars.
    NumberDpExemplarAttrs,
    /// Attributes of histogram data point exemplars.
    HistogramDpExemplarAttrs,
    /// Attributes of exponential histogram data point exemplars.
    ExpHistogramDpExemplarAttrs,
    /// Metrics, several names per row.
    MultivariateMetrics,
    /// Attributes of metrics.
    MetricAttrs,
    /// Log records.
    Logs,
    /// Attributes of log records.
    LogAttrs,
    /// Spans.
    Spans,
    /// Attributes of spans.
    SpanAttrs,
    /// Events of spans.
    SpanEvents,
    /// Links of spans.
    SpanLinks,
    /// Attributes of span events.
    SpanEventAttrs,
    /// Attributes of span links.
    SpanLinkAttrs,
}

/// Number of payload types.
pub const PAYLOAD_SLOTS: usize = 28;

impl ArrowPayloadType {
    /// Position of the payload in a message's table of payloads.
    pub open spec fn slot(self) -> int {
        match self {
            ArrowPayloadType::Unknown => 0,
            ArrowPayloadType::ResourceAttrs => 1,
            ArrowPayloadType::ScopeAttrs => 2,
            ArrowPayloadType::UnivariateMetrics => 3,
            ArrowPayloadType::NumberDataPoints => 4,
            ArrowPayloadType::SummaryDataPoints => 5,
            ArrowPayloadType::HistogramDataPoints => 6,
            ArrowPayloadType::ExpHistogramDataPoints => 7,
            ArrowPayloadType::NumberDpAttrs => 8,
            ArrowPayloadType::SummaryDpAttrs => 9,
            ArrowPayloadType::HistogramDpAttrs => 10,
            ArrowPayloadType::ExpHistogramDpAttrs => 11,
            ArrowPayloadType::NumberDpExemplars => 12,
            ArrowPayloadType::HistogramDpExemplars => 13,
            ArrowPayloadType::ExpHistogramDpExemplars => 14,
            ArrowPayloadType::NumberDpExemplarAttrs => 15,
            ArrowPayloadType::HistogramDpExemplarAttrs => 16,
            ArrowPayloadType::ExpHistogramDpExemplarAttrs => 17,
            ArrowPayloadType::MultivariateMetrics => 18,
            ArrowPayloadType::MetricAttrs => 19,
            ArrowPayloadType::Logs => 20,
            ArrowPayloadType::LogAttrs => 21,
            ArrowPayloadType::Spans => 22,
            ArrowPayloadType::SpanAttrs => 23,
            ArrowPayloadType::SpanEvents => 24,
            ArrowPayloadType::SpanLinks => 25,
            ArrowPayloadType::SpanEventAttrs => 26,
            ArrowPayloadType::SpanLinkAttrs => 27,
        }
    }

    /// Position of the payload in a message's table of payloads.
    pub fn slot_index(self) -> (r: usize)
        ensures
            r == self.slot(),
            r < PAYLOAD_SLOTS,
    {
        match self {
            ArrowPayloadType::Unknown => 0,
            ArrowPayloadType::ResourceAttrs => 1,
            ArrowPayloadType::ScopeAttrs => 2,
            ArrowPayloadType::UnivariateMetrics => 3,
            ArrowPayloadType::NumberDataPoints => 4,
            ArrowPayloadType::SummaryDataPoints => 5,
            ArrowPayloadType::HistogramDataPoints => 6,
            ArrowPayloadType::ExpHistogramDataPoints => 7,
            ArrowPayloadType::NumberDpAttrs => 8,
            ArrowPayloadType::SummaryDpAttrs => 9,
            ArrowPayloadType::HistogramDpAttrs => 10,
            ArrowPayloadType::ExpHistogramDpAttrs => 11,
            ArrowPayloadType::NumberDpExemplars => 12,
            ArrowPayloadType::HistogramDpExemplars => 13,
            ArrowPayloadType::ExpHistogramDpExemplars => 14,
            ArrowPayloadType::NumberDpExemplarAttrs => 15,
            ArrowPayloadType::HistogramDpExemplarAttrs => 16,
            ArrowPayloadType::ExpHistogramDpExemplarAttrs => 17,
            ArrowPayloadType::MultivariateMetrics => 18,
            ArrowPayloadType::MetricAttrs => 19,
            ArrowPayloadType::Logs => 20,
            ArrowPayloadType::LogAttrs => 21,
            ArrowPayloadType::Spans => 22,
            ArrowPayloadType::SpanAttrs => 23,
            ArrowPayloadType::SpanEvents => 24,
            ArrowPayloadType::SpanLinks => 25,
            ArrowPayloadType::SpanEventAttrs => 26,
            ArrowPayloadType::SpanLinkAttrs => 27,
        }
    }
}

/// The shape of a metric's data, as coded in the metrics payload.
#[derive(Clone, Copy, PartialEq, Eq, Structural, Debug, Hash)]
pub enum MetricType {
    /// No data.
    Empty,
    /// Sampled values.
    Gauge,
    /// Accumulated values.
    Sum,
    /// Counts over explicit bounds.
    Histogram,
    /// Counts over exponential bounds.
    ExponentialHistogram,
    /// Precomputed quantiles.
    Summary,
}

impl MetricType {
    /// The metric type a code stands for, if any.
    pub open spec fn decoded(code: u8) -> Option<MetricType> {
        if code == 0 {
            Some(MetricType::Empty)
        } else if code == 1 {
            Some(MetricType::Gauge)
        } else if code == 2 {
            Some(MetricType::Sum)
        } else if code == 3 {
            Some(MetricType::Histogram)
        } else if code == 4 {
            Some(MetricType::ExponentialHistogram)
        } else if code == 5 {
            Some(MetricType::Summary)
        } else {
            None
        }
    }

    /// Decodes a metric type.
    pub fn from_code(code: u8) -> (r: Option<MetricType>)
        ensures
            r == MetricType::decoded(code),
    {
        match code {
            0 => Some(MetricType::Empty),
            1 => Some(MetricType::Gauge),
            2 => Some(MetricType::Sum),
            3 => Some(MetricType::Histogram),
            4 => Some(MetricType::ExponentialHistogram),
            5 => Some(MetricType::Summary),
            _ => None,
        }
    }
}

/// The type of an attribute's value, as coded in an attributes payload.
#[derive(Clone, Copy, PartialEq, Eq, Structural, Debug, Hash)]
pub enum AttributeValueType {
    /// No value.
    Empty,
    /// Text.
    Str,
    /// A 64-bit integer.
    Int,
    /// A double.
    Double,
    /// A truth value.
    Bool,
    /// A map of values.
    MapValue,
    /// A list of values.
    Slice,
    /// Raw bytes.
    Bytes,
}

impl AttributeValueType {
    /// The value type a code stands for, if any.
    pub open spec fn decoded(code: u8) -> Option<AttributeValueType> {
        if code == 0 {
            Some(AttributeValueType::Empty)
        } else if code == 1 {
            Some(AttributeValueType::Str)
        } else if code == 2 {
            Some(AttributeValueType::Int)
        } else if code == 3 {
            Some(AttributeValueType::Double)
        } else if code == 4 {
            Some(AttributeValueType::Bool)
        } else if code == 5 {
            Some(AttributeValueType::MapValue)
        } else if code == 6 {
            Some(AttributeValueType::Slice)
        } else if code == 7 {
            Some(AttributeValueType::Bytes)
        } else {
            None
        }
    }

    /// Decodes a value type.
    pub fn from_code(code: u8) -> (r: Option<AttributeValueType>)
        ensures
            r == AttributeValueType::decoded(code),
    {
        match code {
            0 => Some(AttributeValueType::Empty),
            1 => Some(AttributeValueType::Str),
            2 => Some(AttributeValueType::Int),
            3 => Some(AttributeValueType::Double),
            4 => Some(AttributeValueType::Bool),
            5 => Some(AttributeValueType::MapValue),
            6 => Some(AttributeValueType::Slice),
            7 => Some(AttributeValueType::Bytes),
            _ => None,
        }
    }
}

} // verus!
