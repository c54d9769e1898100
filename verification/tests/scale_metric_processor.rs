use otap_transform::column::{Column, Field, Scalars, Slot};
use otap_transform::consts;
use otap_transform::double::Double;
use otap_transform::error::Error;
use otap_transform::metric_scale::{MetricScaleStats, unit_column_fits};
use otap_transform::payload::ArrowPayloadType;
use otap_transform::records::{OtapArrowRecords, RecordBatch, Signal};
use otap_transform::scale_metric_processor::{
    Config, ConfigError, Decision, Incoming, Rule, ScaleMetricMetrics, ScaleMetricProcessor,
    SCALE_METRIC_PROCESSOR_URN,
};

fn double(value: f64) -> Double {
    Double { bits: value.to_bits() }
}

fn scale_double(value: Double, factor: Double) -> Double {
    double(f64::from_bits(value.bits) * f64::from_bits(factor.bits))
}

fn scale_int(value: i64, factor: Double) -> i64 {
    (value as f64 * f64::from_bits(factor.bits)) as i64
}

fn rule(names: &[&str], factor: f64, unit: Option<&str>) -> Rule {
    Rule {
        metric_names: names.iter().map(|name| (*name).to_owned()).collect(),
        factor: double(factor),
        unit: unit.map(str::to_owned),
    }
}

fn error_of(rules: Vec<Rule>) -> Option<String> {
    match ScaleMetricProcessor::from_config(Config { rules }) {
        Ok(_) => None,
        Err(ConfigError::InvalidUserConfig { error }) => Some(error),
    }
}

fn gauge(value: i64) -> OtapArrowRecords {
    let id = || Column::plain(Scalars::UInt16(vec![Slot { valid: true, value: 1 }]));
    let mut records = OtapArrowRecords::empty(Signal::Metrics);
    let root = RecordBatch::try_new(
        vec![
            Field::new(consts::ID, true),
            Field::new(consts::METRIC_TYPE, false),
            Field::new(consts::NAME, false),
        ],
        vec![
            id(),
            Column::plain(Scalars::UInt8(vec![Slot { valid: true, value: 1 }])),
            Column::plain(Scalars::Utf8(vec![Some("cpu".to_owned())])),
        ],
    );
    records.set(ArrowPayloadType::UnivariateMetrics, root.expect("root"));
    let points = RecordBatch::try_new(
        vec![Field::new(consts::PARENT_ID, true), Field::new(consts::INT_VALUE, true)],
        vec![id(), Column::plain(Scalars::Int64(vec![Some(value)]))],
    );
    records.set(ArrowPayloadType::NumberDataPoints, points.expect("points"));
    records
}

/// Scenario: A rule is declared without naming any metric.
/// Guarantees: Configuration is rejected instead of silently scaling nothing.
#[test]
fn rule_without_metric_names_is_rejected() {
    let config = Config { rules: vec![rule(&[], 2.0, None)] };

    assert!(ScaleMetricProcessor::from_config(config).is_err());
}

/// Scenario: A rule declares a non-finite factor.
/// Guarantees: Configuration is rejected so data points cannot be turned into NaN or infinity.
#[test]
fn non_finite_factor_is_rejected() {
    let config = Config { rules: vec![rule(&["cpu"], f64::NAN, None)] };

    assert!(ScaleMetricProcessor::from_config(config).is_err());
}

/// Scenario: A valid rule set naming a factor and a replacement unit is parsed.
/// Guarantees: Both the factor and the unit survive into the processor's rule list.
#[test]
fn valid_rules_are_parsed() {
    let config = Config {
        rules: vec![
            rule(&["process_cpu_utilization"], 100.0, None),
            rule(&["processing_duration"], 0.000001, Some("ms")),
        ],
    };

    let processor = ScaleMetricProcessor::from_config(config).expect("valid config");

    assert_eq!(processor.rules.len(), 2);
    assert_eq!(processor.rules[0].factor, double(100.0));
    assert_eq!(processor.rules[1].unit.as_deref(), Some("ms"));
    assert_eq!(processor.rules[1].metric_names, vec!["processing_duration".to_owned()]);
    assert_eq!(processor.metrics, ScaleMetricMetrics::default());
}

/// Scenario: Configurations are rejected for different reasons.
/// Guarantees: The first rule that is not acceptable is reported, names before factor.
#[test]
fn rejected_rules_say_why() {
    let names = "ScaleMetricProcessor rule must name at least one metric";
    let factor = |text: &str| format!("ScaleMetricProcessor factor must be finite, got {text}");

    assert_eq!(error_of(vec![rule(&[], f64::NAN, None)]), Some(names.to_owned()));
    assert_eq!(error_of(vec![rule(&["a"], f64::NAN, None)]), Some(factor("NaN")));
    assert_eq!(error_of(vec![rule(&["a"], f64::INFINITY, None)]), Some(factor("inf")));
    assert_eq!(error_of(vec![rule(&["a"], f64::NEG_INFINITY, None)]), Some(factor("-inf")));
    assert_eq!(
        error_of(vec![rule(&["a"], 1.0, None), rule(&["b"], f64::INFINITY, None), rule(&[], 1.0, None)]),
        Some(factor("inf"))
    );
    assert_eq!(error_of(vec![rule(&["a"], f64::MAX, None), rule(&["b"], -0.0, None)]), None);
    assert_eq!(error_of(vec![]), None);
    assert_eq!(
        ConfigError::unparsable("missing field `factor`"),
        ConfigError::InvalidUserConfig {
            error: "Failed to parse ScaleMetricProcessor configuration: missing field `factor`"
                .to_owned(),
        }
    );
}

/// Scenario: Messages of every kind reach the processor.
/// Guarantees: Data is forwarded as it is without rules, and scaled with rules.
#[test]
fn messages_are_told_apart() {
    let idle = ScaleMetricProcessor::from_config(Config::default()).expect("no rules");
    let busy = ScaleMetricProcessor::from_config(Config { rules: vec![rule(&["a"], 2.0, None)] })
        .expect("one rule");

    assert_eq!(idle.decide(Incoming::Data), Decision::Forward);
    assert_eq!(busy.decide(Incoming::Data), Decision::Scale);
    for processor in [idle, busy] {
        assert_eq!(processor.decide(Incoming::CollectTelemetry), Decision::Report);
        assert_eq!(processor.decide(Incoming::OtherControl), Decision::Ignore);
    }
    assert_eq!(SCALE_METRIC_PROCESSOR_URN, "urn:otel:processor:scale_metric");
}

/// Scenario: Records are scaled twice, then a pass fails.
/// Guarantees: The counters add up, and a failed pass leaves them alone.
#[test]
fn counters_add_up_over_passes() {
    let config = Config { rules: vec![rule(&["cpu"], 3.0, Some("%"))] };
    let mut processor = ScaleMetricProcessor::from_config(config).expect("config");
    let one = MetricScaleStats { metrics_scaled: 1, data_points_scaled: 1, metrics_unsupported: 0 };

    for _ in 0..2 {
        let mut records = gauge(5);
        assert!(unit_column_fits(&records, &processor.rules));
        assert!(processor.can_count(&records));
        assert_eq!(
            processor.scale_records(&mut records, &scale_double, &scale_int),
            Ok(one)
        );
        let points = &records.get(ArrowPayloadType::NumberDataPoints).expect("points").stored;
        assert_eq!(
            points.column_by_name(consts::INT_VALUE),
            Some(&Column::plain(Scalars::Int64(vec![Some(15)])))
        );
    }
    let mut broken = OtapArrowRecords::empty(Signal::Metrics);
    broken.set(
        ArrowPayloadType::UnivariateMetrics,
        RecordBatch::try_new(
            vec![Field::new("x", true)],
            vec![Column::plain(Scalars::Int64(vec![None]))],
        )
        .expect("batch"),
    );
    assert_eq!(
        processor.scale_records(&mut broken, &scale_double, &scale_int),
        Err(Error::ColumnNotFound { name: consts::ID })
    );

    assert_eq!(
        processor.metrics,
        ScaleMetricMetrics { metrics_scaled: 2, data_points_scaled: 2, metrics_unsupported: 0 }
    );
}

/// Scenario: Counters are close to the end of their range.
/// Guarantees: There is room exactly for the passes that do not count beyond it.
#[test]
fn counters_know_when_they_are_full() {
    let config = Config { rules: vec![rule(&["cpu"], 3.0, None)] };
    let mut processor = ScaleMetricProcessor::from_config(config).expect("config");
    processor.metrics.record(MetricScaleStats {
        metrics_scaled: u64::MAX - 1,
        data_points_scaled: u64::MAX - 1,
        metrics_unsupported: u64::MAX,
    });

    let mut records = gauge(5);
    assert!(processor.can_count(&records));
    assert!(processor.scale_records(&mut records, &scale_double, &scale_int).is_ok());
    assert_eq!(processor.metrics.metrics_scaled, u64::MAX);
    assert!(!processor.can_count(&gauge(5)));
    assert!(processor.can_count(&OtapArrowRecords::empty(Signal::Logs)));
    let one = |scaled, points, unsupported| MetricScaleStats {
        metrics_scaled: scaled,
        data_points_scaled: points,
        metrics_unsupported: unsupported,
    };
    assert!(processor.metrics.can_record(one(0, 0, 0)));
    assert!(!processor.metrics.can_record(one(0, 0, 1)));
    assert!(!processor.metrics.can_record(one(0, 1, 0)));
}

/// Scenario: Doubles of every class are tested.
/// Guarantees: Exactly infinities and NaN are not finite.
#[test]
fn finiteness_follows_the_bit_pattern() {
    for value in [0.0, -0.0, 1.5, f64::MIN, f64::MAX, f64::MIN_POSITIVE, 5e-324] {
        assert!(double(value).is_finite());
    }
    for value in [f64::NAN, -f64::NAN, f64::INFINITY, f64::NEG_INFINITY] {
        assert!(!double(value).is_finite());
        assert_eq!(double(value).write_non_finite(), format!("{value}"));
    }
}
