use otap_transform::column::{
    Column, DataType, Dictionary, Field, ItemType, Items, KeyType, Leaf, ListColumn, ScalarType,
    Scalars, Slot, StructColumn,
};
use otap_transform::consts;
use otap_transform::double::Double;
use otap_transform::error::Error;
use otap_transform::metric_scale::{
    apply_metric_scale, count_pass, is_scalable, unit_column_fits, MetricScaleRule,
    MetricScaleStats, ScalePlan,
};
use otap_transform::payload::{ArrowPayloadType, MetricType};
use otap_transform::records::{OtapArrowRecords, Payload, RecordBatch, Signal};

const COUNT: &str = "count";
const TIME_UNIX_NANO: &str = "time_unix_nano";
const QUANTILE: &str = "quantile";

fn double(value: f64) -> Double {
    Double { bits: value.to_bits() }
}

fn number(value: Double) -> f64 {
    f64::from_bits(value.bits)
}

fn scale_double(value: Double, factor: Double) -> Double {
    double(number(value) * number(factor))
}

fn scale_int(value: i64, factor: Double) -> i64 {
    (value as f64 * number(factor)) as i64
}

fn scale(
    records: &mut OtapArrowRecords,
    rules: &[MetricScaleRule],
) -> Result<MetricScaleStats, Error> {
    let rules = rules.to_vec();
    assert!(unit_column_fits(records, &rules));
    let counts = count_pass(records, &rules);
    let result = apply_metric_scale(records, &rules, &scale_double, &scale_int);
    assert_eq!(counts, result.ok());
    result
}

fn batch(columns: Vec<(&str, Column)>) -> RecordBatch {
    let mut fields = Vec::new();
    let mut values = Vec::new();
    for (name, column) in columns {
        fields.push(Field::new(name, true));
        values.push(column);
    }
    RecordBatch::try_new(fields, values).expect("batch")
}

fn u16s(values: &[u16]) -> Column {
    Column::plain(Scalars::UInt16(
        values.iter().map(|v| Slot { valid: true, value: *v }).collect(),
    ))
}

fn u8s(values: &[u8]) -> Column {
    Column::plain(Scalars::UInt8(
        values.iter().map(|v| Slot { valid: true, value: *v }).collect(),
    ))
}

fn texts(values: &[Option<&str>]) -> Column {
    Column::plain(Scalars::Utf8(values.iter().map(|v| v.map(str::to_owned)).collect()))
}

fn doubles(values: &[Option<f64>]) -> Column {
    Column::plain(Scalars::Float64(values.iter().map(|v| v.map(double)).collect()))
}

fn ints(values: &[Option<i64>]) -> Column {
    Column::plain(Scalars::Int64(values.to_vec()))
}

fn times(rows: usize) -> Column {
    Column::plain(Scalars::Other(7, vec![Some(0); rows]))
}

/// A metrics root batch from (id, metric_type, name, unit) tuples.
fn root_batch(rows: &[(u16, u8, &str, Option<&str>)]) -> RecordBatch {
    batch(vec![
        (consts::ID, u16s(&rows.iter().map(|r| r.0).collect::<Vec<_>>())),
        (consts::METRIC_TYPE, u8s(&rows.iter().map(|r| r.1).collect::<Vec<_>>())),
        (consts::NAME, texts(&rows.iter().map(|r| Some(r.2)).collect::<Vec<_>>())),
        (consts::UNIT, texts(&rows.iter().map(|r| r.3).collect::<Vec<_>>())),
    ])
}

fn number_dp_batch(rows: &[(u16, Option<i64>, Option<f64>)]) -> RecordBatch {
    batch(vec![
        (consts::PARENT_ID, u16s(&rows.iter().map(|r| r.0).collect::<Vec<_>>())),
        (TIME_UNIX_NANO, times(rows.len())),
        (consts::INT_VALUE, ints(&rows.iter().map(|r| r.1).collect::<Vec<_>>())),
        (consts::DOUBLE_VALUE, doubles(&rows.iter().map(|r| r.2).collect::<Vec<_>>())),
    ])
}

fn metrics(batches: Vec<(ArrowPayloadType, RecordBatch)>) -> OtapArrowRecords {
    let mut records = OtapArrowRecords::empty(Signal::Metrics);
    for (payload_type, batch) in batches {
        records.set(payload_type, batch);
    }
    records
}

fn column<'a>(
    records: &'a OtapArrowRecords,
    payload_type: ArrowPayloadType,
    name: &str,
) -> &'a Column {
    records
        .get(payload_type)
        .expect("payload present")
        .stored
        .column_by_name(name)
        .expect("column present")
}

fn double_column(records: &OtapArrowRecords, t: ArrowPayloadType, name: &str) -> Vec<Option<f64>> {
    match column(records, t, name) {
        Column::Leaf(Leaf::Plain(Scalars::Float64(v))) => {
            v.iter().map(|d| d.map(number)).collect()
        }
        _ => panic!("column type"),
    }
}

fn int_column(records: &OtapArrowRecords, t: ArrowPayloadType, name: &str) -> Vec<Option<i64>> {
    match column(records, t, name) {
        Column::Leaf(Leaf::Plain(Scalars::Int64(v))) => v.clone(),
        _ => panic!("column type"),
    }
}

fn text_column(records: &OtapArrowRecords, t: ArrowPayloadType, name: &str) -> Vec<Option<String>> {
    match column(records, t, name) {
        Column::Leaf(Leaf::Plain(Scalars::Utf8(v))) => v.clone(),
        _ => panic!("column type"),
    }
}

fn rule(name: &str, factor: f64, unit: Option<&str>) -> MetricScaleRule {
    MetricScaleRule {
        metric_names: vec![name.to_owned()],
        factor: double(factor),
        unit: unit.map(str::to_owned),
    }
}

fn bounds_column(offsets: Vec<usize>, values: &[Option<f64>], validity: Vec<bool>) -> Column {
    Column::List(ListColumn {
        offsets,
        items: Items::Leaf(Leaf::Plain(Scalars::Float64(
            values.iter().map(|v| v.map(double)).collect(),
        ))),
        item_nullable: true,
        validity,
    })
}

fn quantile_column(offsets: Vec<usize>, rows: &[(f64, f64)], validity: Vec<bool>) -> Column {
    Column::List(ListColumn {
        offsets,
        items: Items::Struct(StructColumn {
            fields: vec![Field::new(QUANTILE, false), Field::new(consts::SUMMARY_VALUE, false)],
            children: vec![
                Leaf::Plain(Scalars::Float64(rows.iter().map(|r| Some(double(r.0))).collect())),
                Leaf::Plain(Scalars::Float64(rows.iter().map(|r| Some(double(r.1))).collect())),
            ],
            validity: vec![true; rows.len()],
        }),
        item_nullable: true,
        validity,
    })
}

fn list_doubles(column: &Column, child: usize) -> Vec<Option<f64>> {
    match column {
        Column::List(list) => match &list.items {
            Items::Leaf(Leaf::Plain(Scalars::Float64(v))) => {
                v.iter().map(|d| d.map(number)).collect()
            }
            Items::Struct(items) => match &items.children[child] {
                Leaf::Plain(Scalars::Float64(v)) => v.iter().map(|d| d.map(number)).collect(),
                _ => panic!("item type"),
            },
            _ => panic!("item type"),
        },
        _ => panic!("column type"),
    }
}

/// Scenario: A gauge named by a rule carries both int and double data points.
/// Guarantees: Both value columns are multiplied by the factor and int values truncate toward zero.
#[test]
fn number_data_points_are_scaled() {
    let mut records = metrics(vec![
        (ArrowPayloadType::UnivariateMetrics, root_batch(&[(1, 1, "cpu", Some("1"))])),
        (
            ArrowPayloadType::NumberDataPoints,
            number_dp_batch(&[(1, Some(7), None), (1, None, Some(0.25))]),
        ),
    ]);

    let stats = scale(&mut records, &[rule("cpu", 100.0, None)]).expect("scale");

    assert_eq!(stats.metrics_scaled, 1);
    assert_eq!(stats.data_points_scaled, 2);
    let ints = int_column(&records, ArrowPayloadType::NumberDataPoints, consts::INT_VALUE);
    assert_eq!(ints[0], Some(700));
    assert_eq!(ints[1], None);
    let doubles = double_column(&records, ArrowPayloadType::NumberDataPoints, consts::DOUBLE_VALUE);
    assert!((doubles[1].expect("value") - 25.0).abs() < f64::EPSILON);
}

/// Scenario: A rule supplies a replacement unit alongside the factor.
/// Guarantees: The unit column of the scaled metric is rewritten and unmatched metrics keep theirs.
#[test]
fn unit_is_replaced_for_scaled_metrics_only() {
    let mut records = metrics(vec![
        (
            ArrowPayloadType::UnivariateMetrics,
            root_batch(&[(1, 1, "duration", Some("ns")), (2, 1, "other", Some("By"))]),
        ),
        (
            ArrowPayloadType::NumberDataPoints,
            number_dp_batch(&[(1, None, Some(1000.0)), (2, None, Some(1000.0))]),
        ),
    ]);

    let stats = scale(&mut records, &[rule("duration", 0.000001, Some("ms"))]).expect("scale");

    assert_eq!(stats.data_points_scaled, 1);
    let units = text_column(&records, ArrowPayloadType::UnivariateMetrics, consts::UNIT);
    assert_eq!(units[0].as_deref(), Some("ms"));
    assert_eq!(units[1].as_deref(), Some("By"));
    let doubles = double_column(&records, ArrowPayloadType::NumberDataPoints, consts::DOUBLE_VALUE);
    assert!((doubles[0].expect("value") - 0.001).abs() < 1e-12);
    assert!((doubles[1].expect("value") - 1000.0).abs() < f64::EPSILON);
}

/// Scenario: A histogram is scaled by a factor.
/// Guarantees: Sum, min, max and explicit bounds are all multiplied while counts are untouched.
#[test]
fn histogram_magnitudes_are_scaled() {
    let counts = Column::plain(Scalars::UInt64(vec![Some(4)]));
    let data_points = batch(vec![
        (consts::PARENT_ID, u16s(&[1])),
        (TIME_UNIX_NANO, times(1)),
        (COUNT, counts.clone()),
        (consts::HISTOGRAM_SUM, doubles(&[Some(10.0)])),
        (consts::HISTOGRAM_MIN, doubles(&[Some(1.0)])),
        (consts::HISTOGRAM_MAX, doubles(&[Some(5.0)])),
        (
            consts::HISTOGRAM_EXPLICIT_BOUNDS,
            bounds_column(vec![0, 2], &[Some(1.0), Some(2.0)], vec![true]),
        ),
    ]);
    let mut records = metrics(vec![
        (ArrowPayloadType::UnivariateMetrics, root_batch(&[(1, 3, "latency", Some("ns"))])),
        (ArrowPayloadType::HistogramDataPoints, data_points),
    ]);

    let stats = scale(&mut records, &[rule("latency", 2.0, None)]).expect("scale");

    assert_eq!(stats.data_points_scaled, 1);
    let t = ArrowPayloadType::HistogramDataPoints;
    let sum = double_column(&records, t, consts::HISTOGRAM_SUM);
    assert!((sum[0].expect("sum") - 20.0).abs() < f64::EPSILON);
    assert_eq!(double_column(&records, t, consts::HISTOGRAM_MIN), vec![Some(2.0)]);
    assert_eq!(double_column(&records, t, consts::HISTOGRAM_MAX), vec![Some(10.0)]);
    assert_eq!(column(&records, t, COUNT), &counts);
    let values = list_doubles(column(&records, t, consts::HISTOGRAM_EXPLICIT_BOUNDS), 0);
    assert!((values[0].expect("bounds values") - 2.0).abs() < f64::EPSILON);
    assert!((values[1].expect("bounds values") - 4.0).abs() < f64::EPSILON);
}

/// Scenario: A summary metric with quantile values is scaled.
/// Guarantees: The sum and each quantile value are multiplied while the quantile keys are unchanged.
#[test]
fn summary_quantile_values_are_scaled() {
    let data_points = batch(vec![
        (consts::PARENT_ID, u16s(&[1])),
        (TIME_UNIX_NANO, times(1)),
        (COUNT, Column::plain(Scalars::UInt64(vec![Some(2)]))),
        (consts::HISTOGRAM_SUM, doubles(&[Some(6.0)])),
        (consts::SUMMARY_QUANTILE_VALUES, quantile_column(vec![0, 1], &[(0.5, 3.0)], vec![true])),
    ]);
    let mut records = metrics(vec![
        (ArrowPayloadType::UnivariateMetrics, root_batch(&[(1, 5, "duration", Some("ns"))])),
        (ArrowPayloadType::SummaryDataPoints, data_points),
    ]);

    let stats = scale(&mut records, &[rule("duration", 0.5, None)]).expect("scale");

    assert_eq!(stats.data_points_scaled, 1);
    let t = ArrowPayloadType::SummaryDataPoints;
    let sum = double_column(&records, t, consts::HISTOGRAM_SUM);
    assert!((sum[0].expect("sum") - 3.0).abs() < f64::EPSILON);
    let list = column(&records, t, consts::SUMMARY_QUANTILE_VALUES);
    assert!((list_doubles(list, 0)[0].expect("quantile key") - 0.5).abs() < f64::EPSILON);
    assert!((list_doubles(list, 1)[0].expect("quantile value") - 1.5).abs() < f64::EPSILON);
}

/// Scenario: A rule names an exponential histogram, which no constant factor can scale.
/// Guarantees: The metric is counted as unsupported and neither its values nor its unit change.
#[test]
fn exponential_histograms_are_left_untouched() {
    let mut records = metrics(vec![(
        ArrowPayloadType::UnivariateMetrics,
        root_batch(&[(1, 4, "latency", Some("ns"))]),
    )]);

    let stats = scale(&mut records, &[rule("latency", 2.0, Some("ms"))]).expect("scale");

    assert_eq!(stats.metrics_unsupported, 1);
    assert_eq!(stats.metrics_scaled, 0);
    let units = text_column(&records, ArrowPayloadType::UnivariateMetrics, consts::UNIT);
    assert_eq!(units[0].as_deref(), Some("ns"));
}

/// Scenario: A rule set is applied to a batch whose root payload is not metrics.
/// Guarantees: The batch is reported as unchanged rather than erroring.
#[test]
fn non_metric_batches_are_a_no_op() {
    let mut records = OtapArrowRecords::empty(Signal::Logs);

    let stats = scale(&mut records, &[rule("cpu", 2.0, None)]).expect("scale");

    assert_eq!(stats, MetricScaleStats::default());
}

/// Scenario: No rules are given.
/// Guarantees: Nothing changes, not even where the root batch could not be read.
#[test]
fn no_rules_change_nothing() {
    let mut records = metrics(vec![(
        ArrowPayloadType::UnivariateMetrics,
        batch(vec![(consts::NAME, texts(&[Some("cpu")]))]),
    )]);
    let before = records.clone();

    assert_eq!(scale(&mut records, &[]), Ok(MetricScaleStats::default()));
    assert_eq!(records, before);
}

/// Scenario: Two rules name the same metric.
/// Guarantees: The first one decides about factor and unit.
#[test]
fn the_first_rule_naming_a_metric_wins() {
    let mut records = metrics(vec![
        (ArrowPayloadType::UnivariateMetrics, root_batch(&[(1, 2, "cpu", Some("s"))])),
        (ArrowPayloadType::NumberDataPoints, number_dp_batch(&[(1, Some(3), None)])),
    ]);
    let rules = [
        MetricScaleRule {
            metric_names: vec!["mem".to_owned(), "cpu".to_owned()],
            factor: double(10.0),
            unit: None,
        },
        rule("cpu", 1000.0, Some("ms")),
    ];

    let stats = scale(&mut records, &rules).expect("scale");

    assert_eq!(stats.metrics_scaled, 1);
    assert_eq!(
        int_column(&records, ArrowPayloadType::NumberDataPoints, consts::INT_VALUE),
        vec![Some(30)]
    );
    assert_eq!(
        text_column(&records, ArrowPayloadType::UnivariateMetrics, consts::UNIT),
        vec![Some("s".to_owned())]
    );
}

/// Scenario: An exponential histogram and a gauge are named by one rule with a unit.
/// Guarantees: The gauge is scaled and restated, the histogram keeps its unit and is counted.
#[test]
fn an_exponential_histogram_keeps_its_unit_beside_a_scaled_gauge() {
    let mut records = metrics(vec![
        (
            ArrowPayloadType::UnivariateMetrics,
            root_batch(&[(1, 4, "latency", Some("ns")), (2, 1, "latency", None)]),
        ),
        (
            ArrowPayloadType::NumberDataPoints,
            number_dp_batch(&[(1, Some(5), None), (2, Some(5), None)]),
        ),
        (
            ArrowPayloadType::ExpHistogramDataPoints,
            batch(vec![
                (consts::PARENT_ID, u16s(&[1])),
                (consts::HISTOGRAM_SUM, doubles(&[Some(8.0)])),
            ]),
        ),
    ]);
    let exponential = records.get(ArrowPayloadType::ExpHistogramDataPoints).cloned();

    let stats = scale(&mut records, &[rule("latency", 2.0, Some("ms"))]).expect("scale");

    assert_eq!(
        stats,
        MetricScaleStats { metrics_scaled: 1, data_points_scaled: 1, metrics_unsupported: 1 }
    );
    assert_eq!(
        text_column(&records, ArrowPayloadType::UnivariateMetrics, consts::UNIT),
        vec![Some("ns".to_owned()), Some("ms".to_owned())]
    );
    assert_eq!(
        int_column(&records, ArrowPayloadType::NumberDataPoints, consts::INT_VALUE),
        vec![Some(5), Some(10)]
    );
    assert_eq!(records.get(ArrowPayloadType::ExpHistogramDataPoints).cloned(), exponential);
}

/// Scenario: The root batch has no unit column, and the names are dictionary-encoded.
/// Guarantees: A unit column is added at the end, null for metrics without a replacement.
#[test]
fn a_missing_unit_column_is_added() {
    let names = Column::Leaf(Leaf::Dictionary(Dictionary {
        key: KeyType::UInt8,
        keys: vec![Some(1), Some(0), None],
        values: Scalars::Utf8(vec![Some("other".to_owned()), Some("cpu".to_owned())]),
    }));
    let mut records = metrics(vec![(
        ArrowPayloadType::UnivariateMetrics,
        batch(vec![
            (consts::ID, u16s(&[1, 2, 3])),
            (consts::METRIC_TYPE, u8s(&[1, 1, 1])),
            (consts::NAME, names),
        ]),
    )]);

    let stats = scale(&mut records, &[rule("cpu", 2.0, Some("%"))]).expect("scale");

    assert_eq!(stats.metrics_scaled, 1);
    assert_eq!(stats.data_points_scaled, 0);
    let root = &records.get(ArrowPayloadType::UnivariateMetrics).expect("root").stored;
    assert_eq!(root.fields[3], Field::new(consts::UNIT, true));
    assert_eq!(
        text_column(&records, ArrowPayloadType::UnivariateMetrics, consts::UNIT),
        vec![Some("%".to_owned()), None, None]
    );
}

/// Scenario: A dictionary-encoded unit column is restated.
/// Guarantees: It comes out plain, with the units of the other metrics kept.
#[test]
fn a_dictionary_unit_column_is_restated_as_plain_text() {
    let units = Column::Leaf(Leaf::Dictionary(Dictionary {
        key: KeyType::UInt16,
        keys: vec![Some(0), Some(0)],
        values: Scalars::Utf8(vec![Some("ns".to_owned())]),
    }));
    let mut records = metrics(vec![(
        ArrowPayloadType::UnivariateMetrics,
        batch(vec![
            (consts::UNIT, units),
            (consts::ID, u16s(&[1, 2])),
            (consts::METRIC_TYPE, u8s(&[1, 1])),
            (consts::NAME, texts(&[Some("a"), Some("b")])),
        ]),
    )]);

    let stats = scale(&mut records, &[rule("b", 2.0, Some("us"))]).expect("scale");

    assert_eq!(stats.metrics_scaled, 1);
    assert_eq!(
        text_column(&records, ArrowPayloadType::UnivariateMetrics, consts::UNIT),
        vec![Some("ns".to_owned()), Some("us".to_owned())]
    );
}

/// Scenario: Data points belong to several metrics, one has a null parent.
/// Guarantees: Only rows of scaled metrics change; lists of others and of null rows stay.
#[test]
fn rows_of_other_metrics_keep_their_values() {
    let parents = Column::plain(Scalars::UInt16(vec![
        Slot { valid: true, value: 1 },
        Slot { valid: true, value: 2 },
        Slot { valid: false, value: 1 },
        Slot { valid: true, value: 1 },
    ]));
    let data_points = batch(vec![
        (consts::PARENT_ID, parents),
        (consts::HISTOGRAM_SUM, doubles(&[Some(1.0), Some(1.0), Some(1.0), None])),
        (
            consts::HISTOGRAM_EXPLICIT_BOUNDS,
            bounds_column(
                vec![0, 2, 3, 4, 5],
                &[Some(1.0), None, Some(2.0), Some(3.0), Some(4.0), Some(5.0)],
                vec![true, true, true, false],
            ),
        ),
    ]);
    let mut records = metrics(vec![
        (
            ArrowPayloadType::UnivariateMetrics,
            root_batch(&[(1, 3, "a", None), (2, 3, "b", None)]),
        ),
        (ArrowPayloadType::HistogramDataPoints, data_points),
    ]);

    let stats = scale(&mut records, &[rule("a", 10.0, None)]).expect("scale");

    assert_eq!(stats.data_points_scaled, 2);
    let t = ArrowPayloadType::HistogramDataPoints;
    assert_eq!(
        double_column(&records, t, consts::HISTOGRAM_SUM),
        vec![Some(10.0), Some(1.0), Some(1.0), None]
    );
    assert_eq!(
        list_doubles(column(&records, t, consts::HISTOGRAM_EXPLICIT_BOUNDS), 0),
        vec![Some(10.0), None, Some(2.0), Some(3.0), Some(4.0), Some(5.0)]
    );
}

/// Scenario: Quantiles of two summaries, one of them scaled.
/// Guarantees: The values of that one are multiplied, the keys of both stay.
#[test]
fn quantiles_of_other_summaries_stay() {
    let data_points = batch(vec![
        (consts::PARENT_ID, u16s(&[1, 2])),
        (
            consts::SUMMARY_QUANTILE_VALUES,
            quantile_column(
                vec![0, 1, 3],
                &[(0.5, 3.0), (0.5, 4.0), (0.9, 5.0)],
                vec![true, true],
            ),
        ),
    ]);
    let mut records = metrics(vec![
        (
            ArrowPayloadType::UnivariateMetrics,
            root_batch(&[(1, 5, "a", None), (2, 5, "b", None)]),
        ),
        (ArrowPayloadType::SummaryDataPoints, data_points),
    ]);

    let stats = scale(&mut records, &[rule("b", 2.0, None)]).expect("scale");

    assert_eq!(stats.data_points_scaled, 1);
    let list = column(
        &records,
        ArrowPayloadType::SummaryDataPoints,
        consts::SUMMARY_QUANTILE_VALUES,
    );
    assert_eq!(list_doubles(list, 0), vec![Some(0.5), Some(0.5), Some(0.9)]);
    assert_eq!(list_doubles(list, 1), vec![Some(3.0), Some(8.0), Some(10.0)]);
}

/// Scenario: Two rows of the root batch carry the same identifier.
/// Guarantees: The factor of the last one applies to the data points.
#[test]
fn the_last_row_of_an_identifier_sets_the_factor() {
    let mut records = metrics(vec![
        (
            ArrowPayloadType::UnivariateMetrics,
            root_batch(&[(1, 1, "a", None), (1, 1, "b", None)]),
        ),
        (ArrowPayloadType::NumberDataPoints, number_dp_batch(&[(1, Some(1), None)])),
    ]);

    let stats = scale(&mut records, &[rule("a", 2.0, None), rule("b", 3.0, None)]).expect("scale");

    assert_eq!(stats.metrics_scaled, 2);
    assert_eq!(
        int_column(&records, ArrowPayloadType::NumberDataPoints, consts::INT_VALUE),
        vec![Some(3)]
    );
}

/// Scenario: A payload is stored in a transport-optimized encoding.
/// Guarantees: The decoded batch is scaled, and what is put back is plain.
#[test]
fn decoded_payloads_are_scaled() {
    let mut records = metrics(vec![(
        ArrowPayloadType::UnivariateMetrics,
        root_batch(&[(1, 1, "a", None), (2, 1, "b", None)]),
    )]);
    records.put(
        ArrowPayloadType::NumberDataPoints,
        Payload {
            stored: number_dp_batch(&[(1, Some(1), None), (1, Some(1), None)]),
            decoded: Some(Ok(number_dp_batch(&[(1, Some(1), None), (2, Some(1), None)]))),
        },
    );

    let stats = scale(&mut records, &[rule("b", 4.0, None)]).expect("scale");

    assert_eq!(stats.data_points_scaled, 1);
    assert_eq!(
        records.get(ArrowPayloadType::NumberDataPoints),
        Some(&Payload::plain(number_dp_batch(&[(1, Some(1), None), (2, Some(4), None)])))
    );
}

/// Scenario: A payload cannot be decoded.
/// Guarantees: The error comes out; where it is the root, nothing has changed.
#[test]
fn a_payload_that_cannot_be_decoded_fails_the_pass() {
    let mut records = OtapArrowRecords::empty(Signal::MultivariateMetrics);
    records.put(
        ArrowPayloadType::MultivariateMetrics,
        Payload {
            stored: root_batch(&[(1, 1, "a", None)]),
            decoded: Some(Err(Error::ColumnLengthMismatch)),
        },
    );
    let before = records.clone();

    assert_eq!(scale(&mut records, &[rule("a", 2.0, None)]), Err(Error::ColumnLengthMismatch));
    assert_eq!(records, before);
}

/// Scenario: Columns of the root batch are missing or of the wrong type.
/// Guarantees: The first one that is read and wrong is reported, and nothing changes.
#[test]
fn a_root_batch_that_cannot_be_read_is_reported() {
    let rules = [rule("a", 2.0, Some("s"))];
    let mut run = |columns: Vec<(&str, Column)>| {
        let mut records = metrics(vec![(ArrowPayloadType::UnivariateMetrics, batch(columns))]);
        let before = records.clone();
        let result = scale(&mut records, &rules);
        assert_eq!(records, before);
        result
    };

    assert_eq!(
        run(vec![(consts::NAME, texts(&[Some("a")]))]),
        Err(Error::ColumnNotFound { name: consts::ID })
    );
    assert_eq!(
        run(vec![(consts::ID, u8s(&[1]))]),
        Err(Error::ColumnDataTypeMismatch {
            name: consts::ID,
            expect: DataType::Scalar(ScalarType::UInt16),
            actual: DataType::Scalar(ScalarType::UInt8),
        })
    );
    assert_eq!(
        run(vec![(consts::ID, u16s(&[1])), (consts::METRIC_TYPE, u16s(&[1]))]),
        Err(Error::ColumnDataTypeMismatch {
            name: consts::METRIC_TYPE,
            expect: DataType::Scalar(ScalarType::UInt8),
            actual: DataType::Scalar(ScalarType::UInt16),
        })
    );
    assert_eq!(
        run(vec![
            (consts::ID, u16s(&[1])),
            (consts::METRIC_TYPE, u8s(&[1])),
            (consts::NAME, u16s(&[1])),
        ]),
        Err(Error::UnsupportedStringColumnType {
            data_type: DataType::Scalar(ScalarType::UInt16),
        })
    );
    assert_eq!(
        run(vec![
            (consts::ID, u16s(&[1])),
            (consts::METRIC_TYPE, u8s(&[1])),
            (consts::NAME, texts(&[Some("a")])),
            (consts::UNIT, ints(&[Some(1)])),
        ]),
        Err(Error::UnsupportedStringColumnType { data_type: DataType::Scalar(ScalarType::Int64) })
    );
}

/// Scenario: Value columns of the data points are of the wrong type.
/// Guarantees: Each is reported by name and types.
#[test]
fn data_points_that_cannot_be_read_are_reported() {
    let run = |t: ArrowPayloadType, name: &str, column: Column| {
        let mut records = metrics(vec![
            (ArrowPayloadType::UnivariateMetrics, root_batch(&[(1, 1, "a", None)])),
            (t, batch(vec![(consts::PARENT_ID, u16s(&[1])), (name, column)])),
        ]);
        scale(&mut records, &[rule("a", 2.0, None)])
    };
    let mismatch = |name, expect, actual| {
        Err(Error::ColumnDataTypeMismatch { name, expect, actual })
    };
    let float = DataType::Scalar(ScalarType::Float64);
    let int = DataType::Scalar(ScalarType::Int64);
    let list = |items: Items| {
        Column::List(ListColumn {
            offsets: vec![0, 1],
            items,
            item_nullable: false,
            validity: vec![true],
        })
    };

    assert_eq!(
        run(ArrowPayloadType::NumberDataPoints, consts::INT_VALUE, doubles(&[None])),
        mismatch(consts::INT_VALUE, int, float)
    );
    assert_eq!(
        run(ArrowPayloadType::NumberDataPoints, consts::DOUBLE_VALUE, ints(&[None])),
        mismatch("double column", float, int)
    );
    assert_eq!(
        run(ArrowPayloadType::HistogramDataPoints, consts::HISTOGRAM_EXPLICIT_BOUNDS, ints(&[None])),
        mismatch(
            consts::HISTOGRAM_EXPLICIT_BOUNDS,
            DataType::List(ItemType::Scalar(ScalarType::Float64)),
            int
        )
    );
    assert_eq!(
        run(
            ArrowPayloadType::HistogramDataPoints,
            consts::HISTOGRAM_EXPLICIT_BOUNDS,
            list(Items::Leaf(Leaf::Plain(Scalars::Int64(vec![Some(1)]))))
        ),
        mismatch(consts::HISTOGRAM_EXPLICIT_BOUNDS, float, int)
    );
    assert_eq!(
        run(ArrowPayloadType::SummaryDataPoints, consts::SUMMARY_QUANTILE_VALUES, ints(&[None])),
        mismatch(consts::SUMMARY_QUANTILE_VALUES, DataType::List(ItemType::Struct), int)
    );
    assert_eq!(
        run(
            ArrowPayloadType::SummaryDataPoints,
            consts::SUMMARY_QUANTILE_VALUES,
            list(Items::Leaf(Leaf::Plain(Scalars::Int64(vec![Some(1)]))))
        ),
        mismatch(consts::SUMMARY_QUANTILE_VALUES, DataType::Struct, int)
    );
    let quantiles = |name: &str, child: Scalars| {
        list(Items::Struct(StructColumn {
            fields: vec![Field::new(name, false)],
            children: vec![Leaf::Plain(child)],
            validity: vec![true],
        }))
    };
    assert_eq!(
        run(
            ArrowPayloadType::SummaryDataPoints,
            consts::SUMMARY_QUANTILE_VALUES,
            quantiles("other", Scalars::Int64(vec![Some(1)]))
        ),
        Err(Error::ColumnNotFound { name: consts::SUMMARY_VALUE })
    );
    assert_eq!(
        run(
            ArrowPayloadType::SummaryDataPoints,
            consts::SUMMARY_QUANTILE_VALUES,
            quantiles(consts::SUMMARY_VALUE, Scalars::Int64(vec![Some(1)]))
        ),
        mismatch(consts::SUMMARY_VALUE, float, int)
    );
}

/// Scenario: Data points have no parent column.
/// Guarantees: The pass fails; the units restated before stay restated.
#[test]
fn data_points_without_parents_fail_the_pass() {
    let mut records = metrics(vec![
        (ArrowPayloadType::UnivariateMetrics, root_batch(&[(1, 1, "a", Some("s"))])),
        (
            ArrowPayloadType::NumberDataPoints,
            batch(vec![(consts::INT_VALUE, ints(&[Some(1)]))]),
        ),
    ]);

    assert_eq!(
        scale(&mut records, &[rule("a", 2.0, Some("ms"))]),
        Err(Error::ColumnNotFound { name: consts::PARENT_ID })
    );
    assert_eq!(
        text_column(&records, ArrowPayloadType::UnivariateMetrics, consts::UNIT),
        vec![Some("ms".to_owned())]
    );
    assert_eq!(
        int_column(&records, ArrowPayloadType::NumberDataPoints, consts::INT_VALUE),
        vec![Some(1)]
    );
}

/// Scenario: Integers are scaled by fractions.
/// Guarantees: They truncate toward zero on both sides of it.
#[test]
fn integers_truncate_toward_zero() {
    let mut records = metrics(vec![
        (ArrowPayloadType::UnivariateMetrics, root_batch(&[(1, 2, "a", None)])),
        (
            ArrowPayloadType::NumberDataPoints,
            number_dp_batch(&[(1, Some(7), None), (1, Some(-7), None)]),
        ),
    ]);

    let stats = scale(&mut records, &[rule("a", 0.5, None)]).expect("scale");

    assert_eq!(stats.data_points_scaled, 2);
    assert_eq!(
        int_column(&records, ArrowPayloadType::NumberDataPoints, consts::INT_VALUE),
        vec![Some(3), Some(-3)]
    );
}

/// Scenario: Metric type codes are classified.
/// Guarantees: Gauges, sums, histograms and summaries are scalable, nothing else.
#[test]
fn scalable_types_are_the_plain_magnitudes() {
    let scalable: Vec<u8> = (0..=255).filter(|code| is_scalable(*code)).collect();
    assert_eq!(scalable, vec![1, 2, 3, 5]);
    assert_eq!(MetricType::from_code(4), Some(MetricType::ExponentialHistogram));
    assert_eq!(MetricType::from_code(6), None);
}

/// Scenario: A plan is built from a root batch.
/// Guarantees: It holds the factor per identifier and the unit per row, and adds to the counts.
#[test]
fn a_plan_holds_factors_and_units() {
    let root = root_batch(&[(1, 1, "a", None), (2, 4, "a", None), (3, 1, "c", None)]);
    let mut stats =
        MetricScaleStats { metrics_scaled: 5, data_points_scaled: 6, metrics_unsupported: 7 };

    let plan = ScalePlan::build(&root, &vec![rule("a", 2.5, Some("s"))], &mut stats).expect("plan");

    assert_eq!(plan.factor_by_metric_id.len(), 1);
    assert_eq!(plan.factor_by_metric_id.get(&1), Some(&double(2.5)));
    assert_eq!(plan.unit_by_row, vec![Some("s".to_owned()), None, None]);
    assert_eq!(
        stats,
        MetricScaleStats { metrics_scaled: 6, data_points_scaled: 6, metrics_unsupported: 8 }
    );
    let points = number_dp_batch(&[(3, None, None), (1, None, None)]);
    assert_eq!(plan.row_factors(&points), Ok(vec![None, Some(double(2.5))]));
    let restated = plan.apply_units(&root).expect("units");
    assert_eq!(
        restated.column_by_name(consts::UNIT),
        Some(&texts(&[Some("s"), None, None]))
    );
}

fn root_with_null_id() -> RecordBatch {
    batch(vec![
        (
            consts::ID,
            Column::plain(Scalars::UInt16(vec![
                Slot { valid: false, value: 0 },
                Slot { valid: true, value: 0 },
            ])),
        ),
        (consts::METRIC_TYPE, u8s(&[1, 1])),
        (consts::NAME, texts(&[Some("cpu"), Some("other")])),
        (consts::UNIT, texts(&[None, None])),
    ])
}

/// Scenario: A named metric has a null identifier, under which another metric's is stored.
/// Guarantees: The data points of the other metric, which no rule names, are left untouched.
#[test]
fn a_null_identifier_scales_no_data_points() {
    let mut records = metrics(vec![
        (ArrowPayloadType::UnivariateMetrics, root_with_null_id()),
        (ArrowPayloadType::NumberDataPoints, number_dp_batch(&[(0, None, Some(5.0))])),
    ]);

    let stats = scale(&mut records, &[rule("cpu", 2.0, None)]).expect("scale");

    assert_eq!(
        stats,
        MetricScaleStats { metrics_scaled: 1, data_points_scaled: 0, metrics_unsupported: 0 }
    );
    assert_eq!(
        double_column(&records, ArrowPayloadType::NumberDataPoints, consts::DOUBLE_VALUE),
        vec![Some(5.0)]
    );
}

/// Scenario: A metric with a null identifier is named by a rule with a unit.
/// Guarantees: Its unit is restated though it has no data points.
#[test]
fn a_metric_without_identifier_gets_its_unit() {
    let mut records =
        metrics(vec![(ArrowPayloadType::UnivariateMetrics, root_with_null_id())]);

    let stats = scale(&mut records, &[rule("cpu", 2.0, Some("%"))]).expect("scale");

    assert_eq!(stats.metrics_scaled, 1);
    assert_eq!(
        text_column(&records, ArrowPayloadType::UnivariateMetrics, consts::UNIT),
        vec![Some("%".to_owned()), None]
    );
}

/// Scenario: Rules are appended that name metrics of earlier rules, or metrics that are absent.
/// Guarantees: Plan and counts stay the same.
#[test]
fn appended_rules_change_nothing() {
    let root = root_batch(&[(1, 1, "a", None), (2, 4, "b", None), (3, 5, "c", Some("s"))]);
    let rules = vec![rule("a", 2.0, Some("ms")), rule("b", 3.0, None)];
    let mut longer = rules.clone();
    longer.push(rule("b", 9.0, Some("x")));
    longer.push(rule("absent", 9.0, Some("x")));
    longer.push(rule("a", 9.0, None));
    let mut stats = MetricScaleStats::default();
    let mut longer_stats = MetricScaleStats::default();

    let plan = ScalePlan::build(&root, &rules, &mut stats).expect("plan");
    let longer_plan = ScalePlan::build(&root, &longer, &mut longer_stats).expect("plan");

    assert_eq!(plan.factor_by_metric_id, longer_plan.factor_by_metric_id);
    assert_eq!(plan.unit_by_row, longer_plan.unit_by_row);
    assert_eq!(stats, longer_stats);
}
