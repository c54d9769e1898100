//! Verified transforms over OTAP telemetry batches.
//!
//! * [`metric_scale`] multiplies the data point values of named metrics by a
//!   constant factor and restates their unit; [`scale_laws`] and [`metric_laws`]
//!   state what holds of such a pass as a whole.
//! * [`attribute_source`] resolves attribute values that live on another payload
//!   than the one being written; [`attribute_laws`] and [`resolution_laws`] state
//!   what holds of that.
//! * [`scale_metric_processor`] is the pipeline node around the scaling pass.
//! * [`attributes`] describes the engine, pipeline, node, extension and channel
//!   entities; [`entity_laws`] states what each of them emits.
//!
//! The batches these work on are modelled in [`column`] and [`records`] by plain
//! values, whose meaning [`model_laws`] states; [`kernels`] is the boundary to the
//! `arrow` crate.

pub mod attribute_laws;
pub mod attribute_source;
pub mod attributes;
pub mod column;
pub mod consts;
pub mod double;
pub mod entity_laws;
pub mod error;
pub mod kernels;
pub mod metric_laws;
pub mod metric_scale;
pub mod model_laws;
pub mod payload;
pub mod records;
pub mod resolution_laws;
pub mod scale_laws;
pub mod scale_metric_processor;
pub mod text;
