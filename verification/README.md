# otap_transform

Verified transforms over OTAP telemetry batches, written in Verus.

- `metric_scale` multiplies the data point values of named metrics by a constant factor and
  restates their unit in the same pass. `scale_laws` states what holds of a pass as a whole.
- `attribute_source` resolves an attribute of a resource, scope or record for every row of a
  payload. `attribute_laws` states what holds of a resolution.
- `scale_metric_processor` checks the configuration of the pipeline node around the scaling
  pass, decides what to do about a message, and counts what was done.
- `attributes` describes the engine, pipeline, node, extension and channel entities.

Record batches are modelled by plain values in `column` and `records`. Doubles are carried by
their bit pattern (`double`); the caller supplies the functions that multiply them. `kernels`
is the boundary to the `arrow` crate: the functions marked `external_body` there, and the one
in `attributes` that clones an `Arc`, are believed without proof.

`app/` is the ordinary Rust around the library: JSON configuration, `arrow` record batches and
the messages of a pipeline. Before it calls a function of the library that has a `requires`, it
tests the condition.
