//! Scale metric processor for OTAP pipelines.
//!
//! Multiplies the data point values of named metrics by a constant factor, and
//! optionally restates their unit. Both are applied in the same pass, so a scaled
//! metric is never observed carrying its pre-scaling unit.
//!
//! Gauges, sums, histograms and summaries are scaled. Exponential histograms cannot be
//! scaled by a constant factor without rebuilding their bucket structure, so a matched
//! exponential histogram is left entirely untouched, including its unit, and counted in
//! `metrics_unsupported`.

use crate::double::Double;
use crate::error::Error;
use crate::metric_scale::{MetricScaleRule, MetricScaleStats, PassCounts, RuleView};
use crate::records::OtapArrowRecords;
use vstd::prelude::*;

verus! {

/// URN of the processor.
pub const SCALE_METRIC_PROCESSOR_URN: &'static str = "urn:otel:processor:scale_metric";

/// A single scaling rule.
#[derive(Clone, PartialEq, Eq, Debug)]
pub struct Rule {
    /// Names of the metrics this rule applies to.
    pub metric_names: Vec<String>,
    /// Multiplier applied to every data point value of a matched metric.
    pub factor: Double,
    /// Replacement unit, applied together with the factor.
    pub unit: Option<String>,
}

impl View for Rule {
    type V = RuleView;

    open spec fn view(&self) -> RuleView {
        RuleView {
            metric_names: self.metric_names@.map_values(|name: String| name@),
            factor: self.factor,
            unit: crate::column::text_cell(self.unit),
        }
    }
}

/// Configuration of the processor.
#[derive(Clone, PartialEq, Eq, Debug)]
pub struct Config {
    /// Rules applied in order; the first rule naming a metric wins.
    pub rules: Vec<Rule>,
}

impl Config {
    /// The contents of the rules.
    pub open spec fn rule_views(self) -> Seq<RuleView> {
        self.rules@.map_values(|rule: Rule| rule@)
    }
}

impl Default for Config {
    fn default() -> (r: Config)
        ensures
            r.rules@.len() == 0,
    {
        Config { rules: Vec::new() }
    }
}

/// Why a processor cannot be made.
#[derive(Clone, PartialEq, Eq, Debug)]
pub enum ConfigError {
    /// The configuration is not acceptable.
    InvalidUserConfig {
        /// What is wrong with it.
        error: String,
    },
}

impl ConfigError {
    /// A configuration that could not be parsed, for a given reason.
    pub fn unparsable(reason: &str) -> (r: ConfigError)
        ensures
            match r {
                ConfigError::InvalidUserConfig { error } => error@
                    == "Failed to parse ScaleMetricProcessor configuration: "@ + reason@,
            },
    {
        ConfigError::InvalidUserConfig {
            error: "Failed to parse ScaleMetricProcessor configuration: ".to_owned().concat(reason),
        }
    }
}

/// What is wrong with a rule.
pub open spec fn rule_error(rule: RuleView) -> Option<Seq<char>> {
    if rule.metric_names.len() == 0 {
        Some("ScaleMetricProcessor rule must name at least one metric"@)
    } else if !rule.factor.finite() {
        Some(
            "ScaleMetricProcessor factor must be finite, got "@ + rule.factor.non_finite_text(),
        )
    } else {
        None
    }
}

/// What is wrong with the first rule from `from` on that is not acceptable.
pub open spec fn rules_error(rules: Seq<RuleView>, from: int) -> Option<Seq<char>>
    decreases rules.len() - from,
{
    if from < 0 || from >= rules.len() {
        None
    } else {
        match rule_error(rules[from]) {
            Some(error) => Some(error),
            None => rules_error(rules, from + 1),
        }
    }
}

/// Counters of the processor.
#[derive(Clone, Copy, PartialEq, Eq, Structural, Debug)]
pub struct ScaleMetricMetrics {
    /// Number of metrics matched by a rule and scaled.
    pub metrics_scaled: u64,
    /// Number of data point rows whose values were multiplied.
    pub data_points_scaled: u64,
    /// Number of metrics matched by a rule but left untouched because their type cannot be
    /// scaled by a constant factor.
    pub metrics_unsupported: u64,
}

impl Default for ScaleMetricMetrics {
    fn default() -> (r: ScaleMetricMetrics)
        ensures
            r == (ScaleMetricMetrics {
                metrics_scaled: 0,
                data_points_scaled: 0,
                metrics_unsupported: 0,
            }),
    {
        ScaleMetricMetrics { metrics_scaled: 0, data_points_scaled: 0, metrics_unsupported: 0 }
    }
}

impl ScaleMetricMetrics {
    /// Name of the set of counters.
    pub const NAME: &'static str = "processor.scale_metric";

    /// The counters stay in range when the counts of one more pass are added.
    pub open spec fn has_room(self, stats: MetricScaleStats) -> bool {
        &&& self.metrics_scaled + stats.metrics_scaled <= u64::MAX
        &&& self.data_points_scaled + stats.data_points_scaled <= u64::MAX
        &&& self.metrics_unsupported + stats.metrics_unsupported <= u64::MAX
    }

    /// The counters stay in range when what a pass counts is added; a pass that fails adds
    /// nothing.
    pub open spec fn has_room_for(self, counts: Option<PassCounts>) -> bool {
        counts matches Some(counts) ==> {
            &&& self.metrics_scaled + counts.metrics_scaled <= u64::MAX
            &&& self.data_points_scaled + counts.data_points_scaled <= u64::MAX
            &&& self.metrics_unsupported + counts.metrics_unsupported <= u64::MAX
        }
    }

    /// Whether the counters stay in range when the counts of one more pass are added.
    pub fn can_record(&self, stats: MetricScaleStats) -> (r: bool)
        ensures
            r == self.has_room(stats),
    {
        self.metrics_scaled <= u64::MAX - stats.metrics_scaled && self.data_points_scaled
            <= u64::MAX - stats.data_points_scaled && self.metrics_unsupported <= u64::MAX
            - stats.metrics_unsupported
    }

    /// The counters after the counts of a pass are added.
    pub open spec fn plus(self, stats: MetricScaleStats) -> ScaleMetricMetrics {
        ScaleMetricMetrics {
            metrics_scaled: (self.metrics_scaled + stats.metrics_scaled) as u64,
            data_points_scaled: (self.data_points_scaled + stats.data_points_scaled) as u64,
            metrics_unsupported: (self.metrics_unsupported + stats.metrics_unsupported) as u64,
        }
    }

    /// Adds the counts of a pass.
    pub fn record(&mut self, stats: MetricScaleStats)
        requires
            old(self).has_room(stats),
        ensures
            *final(self) == old(self).plus(stats),
            final(self).metrics_scaled == old(self).metrics_scaled + stats.metrics_scaled,
            final(self).data_points_scaled == old(self).data_points_scaled
                + stats.data_points_scaled,
            final(self).metrics_unsupported == old(self).metrics_unsupported
                + stats.metrics_unsupported,
    {
        self.metrics_scaled = self.metrics_scaled + stats.metrics_scaled;
        self.data_points_scaled = self.data_points_scaled + stats.data_points_scaled;
        self.metrics_unsupported = self.metrics_unsupported + stats.metrics_unsupported;
    }
}

/// Processor that multiplies metric data point values by a constant factor.
pub struct ScaleMetricProcessor {
    /// The rules, in order.
    pub rules: Vec<MetricScaleRule>,
    /// The counters.
    pub metrics: ScaleMetricMetrics,
}

/// What reaches the processor.
#[derive(Clone, Copy, PartialEq, Eq, Structural, Debug)]
pub enum Incoming {
    /// A request to report the counters.
    CollectTelemetry,
    /// Any other control message.
    OtherControl,
    /// Telemetry data.
    Data,
}

/// What the processor has to do about what reaches it.
#[derive(Clone, Copy, PartialEq, Eq, Structural, Debug)]
pub enum Decision {
    /// Report the counters.
    Report,
    /// Do nothing.
    Ignore,
    /// Send the data on as it came.
    Forward,
    /// Convert the data to records, scale them, and send those on.
    Scale,
}

impl ScaleMetricProcessor {
    /// Every rule names a metric and has a finite factor.
    pub open spec fn wf(self) -> bool {
        rules_error(crate::metric_scale::rule_views(self.rules@), 0) is None
    }

    /// Creates a processor from configuration.
    pub fn from_config(config: Config) -> (r: Result<ScaleMetricProcessor, ConfigError>)
        ensures
            match r {
                Ok(processor) => {
                    &&& rules_error(config.rule_views(), 0) is None
                    &&& crate::metric_scale::rule_views(processor.rules@) == config.rule_views()
                    &&& processor.metrics == (ScaleMetricMetrics {
                        metrics_scaled: 0,
                        data_points_scaled: 0,
                        metrics_unsupported: 0,
                    })
                    &&& processor.wf()
                },
                Err(ConfigError::InvalidUserConfig { error }) => rules_error(
                    config.rule_views(),
                    0,
                ) == Some(error@),
            },
    {
        let ghost views = config.rule_views();
        let mut rules: Vec<MetricScaleRule> = Vec::new();
        let mut i: usize = 0;
        while i < config.rules.len()
            invariant
                i <= config.rules@.len(),
                views == config.rule_views(),
                rules_error(views, 0) == rules_error(views, i as int),
                rules@.len() == i,
                forall|k: int| 0 <= k < i ==> (#[trigger] rules@[k])@ == views[k],
            decreases config.rules@.len() - i,
        {
            let rule = &config.rules[i];
            assert(views[i as int] == rule@);
            if rule.metric_names.len() == 0 {
                return Err(
                    ConfigError::InvalidUserConfig {
                        error: "ScaleMetricProcessor rule must name at least one metric".to_owned(),
                    },
                );
            }
            if !rule.factor.is_finite() {
                return Err(
                    ConfigError::InvalidUserConfig {
                        error: "ScaleMetricProcessor factor must be finite, got ".to_owned().concat(
                            rule.factor.write_non_finite(),
                        ),
                    },
                );
            }
            let scale_rule = MetricScaleRule {
                metric_names: copy_names(&rule.metric_names),
                factor: rule.factor,
                unit: crate::column::copy_text(&rule.unit),
            };
            assert(scale_rule@.metric_names =~= rule@.metric_names);
            rules.push(scale_rule);
            i = i + 1;
        }
        assert(crate::metric_scale::rule_views(rules@) =~= views);
        Ok(
            ScaleMetricProcessor {
                rules,
                metrics: ScaleMetricMetrics {
                    metrics_scaled: 0,
                    data_points_scaled: 0,
                    metrics_unsupported: 0,
                },
            },
        )
    }

    /// Whether the counters stay in range when the given records are scaled.
    pub fn can_count(&self, records: &OtapArrowRecords) -> (r: bool)
        requires
            records.wf(),
        ensures
            r == self.metrics.has_room_for(
                crate::metric_scale::pass_counts(
                    records@,
                    crate::metric_scale::rule_views(self.rules@),
                ),
            ),
    {
        match crate::metric_scale::count_pass(records, &self.rules) {
            Some(stats) => self.metrics.can_record(stats),
            None => true,
        }
    }

    /// What to do about what reaches the processor.
    pub fn decide(&self, incoming: Incoming) -> (r: Decision)
        ensures
            r == (match incoming {
                Incoming::CollectTelemetry => Decision::Report,
                Incoming::OtherControl => Decision::Ignore,
                Incoming::Data => if self.rules@.len() == 0 {
                    Decision::Forward
                } else {
                    Decision::Scale
                },
            }),
    {
        match incoming {
            Incoming::CollectTelemetry => Decision::Report,
            Incoming::OtherControl => Decision::Ignore,
            Incoming::Data => if self.rules.len() == 0 {
                Decision::Forward
            } else {
                Decision::Scale
            },
        }
    }

    /// Scales records and counts what was done. The counters are not touched where the pass
    /// fails.
    pub fn scale_records<D: Fn(Double, Double) -> Double, I: Fn(i64, Double) -> i64>(
        &mut self,
        records: &mut OtapArrowRecords,
        scale_double: &D,
        scale_int: &I,
    ) -> (r: Result<MetricScaleStats, Error>)
        requires
            old(records).wf(),
            crate::metric_scale::accepts_all(*scale_double, *scale_int),
            crate::metric_scale::units_fit(
                old(records)@,
                crate::metric_scale::rule_views(old(self).rules@),
            ),
            old(self).metrics.has_room_for(
                crate::metric_scale::pass_counts(
                    old(records)@,
                    crate::metric_scale::rule_views(old(self).rules@),
                ),
            ),
        ensures
            final(records).wf(),
            crate::metric_scale::scale_effect(
                crate::metric_scale::arithmetic(*scale_double, *scale_int),
                crate::metric_scale::rule_views(old(self).rules@),
                old(records)@,
                final(records)@,
                r,
            ),
            final(self).rules == old(self).rules,
            match r {
                Ok(stats) => old(self).metrics.has_room(stats) && final(self).metrics == old(
                    self,
                ).metrics.plus(stats),
                Err(_) => final(self).metrics == old(self).metrics,
            },
    {
        let stats = match crate::metric_scale::apply_metric_scale(
            records,
            &self.rules,
            scale_double,
            scale_int,
        ) {
            Ok(stats) => stats,
            Err(e) => return Err(e),
        };
        self.metrics.record(stats);
        Ok(stats)
    }
}

/// Copies names.
fn copy_names(names: &Vec<String>) -> (r: Vec<String>)
    ensures
        r@.len() == names@.len(),
        forall|i: int| 0 <= i < r@.len() ==> (#[trigger] r@[i])@ == names@[i]@,
{
    let mut out: Vec<String> = Vec::new();
    let mut i: usize = 0;
    while i < names.len()
        invariant
            i <= names@.len(),
            out@.len() == i,
            forall|k: int| 0 <= k < i ==> (#[trigger] out@[k])@ == names@[k]@,
        decreases names@.len() - i,
    {
        out.push(names[i].clone());
        i = i + 1;
    }
    out
}

/// A configuration is accepted exactly where every rule names at least one metric and has a
/// finite factor.
pub proof fn law_accepted_rules(rules: Seq<RuleView>)
    ensures
        rules_error(rules, 0) is None <==> forall|i: int|
            0 <= i < rules.len() ==> (#[trigger] rules[i]).metric_names.len() > 0
                && rules[i].factor.finite(),
{
    lemma_accepted_rules(rules, 0);
}

/// Rules from a position on are accepted exactly where each of them is.
proof fn lemma_accepted_rules(rules: Seq<RuleView>, from: int)
    requires
        0 <= from,
    ensures
        rules_error(rules, from) is None <==> forall|i: int|
            from <= i < rules.len() ==> (#[trigger] rules[i]).metric_names.len() > 0
                && rules[i].factor.finite(),
    decreases rules.len() - from,
{
    if from < rules.len() {
        lemma_accepted_rules(rules, from + 1);
        assert(rules[from].metric_names.len() >= 0);
    }
}

/// A rule is refused where it names no metric.
pub open spec fn names_nothing(rule: Rule) -> bool {
    rule.metric_names@.len() == 0
}

/// A rule is refused where its factor is an infinity or NaN: all its exponent bits are set.
pub open spec fn is_unbounded(rule: Rule) -> bool {
    rule.factor.bits & 0x7ff0_0000_0000_0000 == 0x7ff0_0000_0000_0000
}

/// A configuration makes a processor exactly where every rule names a metric and has a finite
/// factor. The processor then has just these rules, in order, and counters at zero. Else the
/// first rule that is refused is reported: for naming no metric, or for its factor.
pub proof fn law_configured_processors(
    config: Config,
    result: Result<ScaleMetricProcessor, ConfigError>,
)
    requires
        call_ensures(ScaleMetricProcessor::from_config, (config,), result),
    ensures
        result is Ok <==> forall|i: int|
            0 <= i < config.rules@.len() ==> !names_nothing(#[trigger] config.rules@[i])
                && !is_unbounded(config.rules@[i]),
        result matches Ok(processor) ==> {
            &&& processor.rules@.len() == config.rules@.len()
            &&& processor.metrics.metrics_scaled == 0
            &&& processor.metrics.data_points_scaled == 0
            &&& processor.metrics.metrics_unsupported == 0
            &&& forall|i: int|
                0 <= i < config.rules@.len() ==> same_rule(
                    config.rules@[i],
                    #[trigger] processor.rules@[i],
                )
        },
        forall|i: int|
            0 <= i < config.rules@.len() && (names_nothing(#[trigger] config.rules@[i])
                || is_unbounded(config.rules@[i])) && (forall|k: int|
                0 <= k < i ==> !names_nothing(#[trigger] config.rules@[k]) && !is_unbounded(
                    config.rules@[k],
                )) ==> result is Err && result->Err_0->error@ == (if names_nothing(
                config.rules@[i],
            ) {
                "ScaleMetricProcessor rule must name at least one metric"@
            } else {
                "ScaleMetricProcessor factor must be finite, got "@ + (
                if config.rules@[i].factor.bits == 0x7ff0_0000_0000_0000 {
                    "inf"@
                } else if config.rules@[i].factor.bits == 0xfff0_0000_0000_0000 {
                    "-inf"@
                } else {
                    "NaN"@
                })
            }),
{
    let views = config.rule_views();
    law_accepted_rules(views);
    assert forall|i: int| 0 <= i < config.rules@.len() implies {
        &&& (#[trigger] views[i]) == config.rules@[i]@
        &&& views[i].metric_names.len() == config.rules@[i].metric_names@.len()
        &&& views[i].factor.finite() == !is_unbounded(config.rules@[i])
    } by {
        lemma_unbounded(config.rules@[i].factor.bits);
    }
    assert(result is Ok ==> forall|i: int|
        0 <= i < config.rules@.len() ==> !names_nothing(#[trigger] config.rules@[i])
            && !is_unbounded(config.rules@[i])) by {
        if result is Ok {
            assert forall|i: int| 0 <= i < config.rules@.len() implies !names_nothing(
                #[trigger] config.rules@[i],
            ) && !is_unbounded(config.rules@[i]) by {
                assert(views[i].metric_names.len() > 0);
            }
        }
    }
    if result is Err {
        let i = choose|i: int|
            0 <= i < views.len() && !((#[trigger] views[i]).metric_names.len() > 0
                && views[i].factor.finite());
        assert(names_nothing(config.rules@[i]) || is_unbounded(config.rules@[i]));
    }
    if let Ok(processor) = result {
        let made = crate::metric_scale::rule_views(processor.rules@);
        assert(made.len() == processor.rules@.len());
        assert forall|i: int| 0 <= i < config.rules@.len() implies same_rule(
            config.rules@[i],
            #[trigger] processor.rules@[i],
        ) by {
            assert(made[i] == views[i]);
            assert(made[i] == processor.rules@[i]@);
            assert(made[i].metric_names.len() == processor.rules@[i].metric_names@.len());
            assert forall|k: int| 0 <= k < config.rules@[i].metric_names@.len() implies (
            #[trigger] processor.rules@[i].metric_names@[k])@ == config.rules@[i].metric_names@[k]@
                by {
                assert(made[i].metric_names[k] == views[i].metric_names[k]);
            }
        }
    }
    assert forall|i: int|
        0 <= i < config.rules@.len() && (names_nothing(#[trigger] config.rules@[i]) || is_unbounded(
            config.rules@[i],
        )) && (forall|k: int|
            0 <= k < i ==> !names_nothing(#[trigger] config.rules@[k]) && !is_unbounded(
                config.rules@[k],
            )) implies rules_error(views, 0) == rule_error(views[i]) && rule_error(views[i])
        is Some && rule_error(views[i]) == Some(
        if names_nothing(config.rules@[i]) {
            "ScaleMetricProcessor rule must name at least one metric"@
        } else {
            "ScaleMetricProcessor factor must be finite, got "@ + (
            if config.rules@[i].factor.bits == 0x7ff0_0000_0000_0000 {
                "inf"@
            } else if config.rules@[i].factor.bits == 0xfff0_0000_0000_0000 {
                "-inf"@
            } else {
                "NaN"@
            })
        },
    ) by {
        assert(views[i] == config.rules@[i]@);
        lemma_unbounded(config.rules@[i].factor.bits);
        lemma_first_refused(config, 0, i);
    }
}

/// A factor whose exponent bits are all set is an infinity, or else NaN.
proof fn lemma_unbounded(bits: u64)
    ensures
        (Double { bits }).finite() <==> bits & 0x7ff0_0000_0000_0000 != 0x7ff0_0000_0000_0000,
        bits & 0x7ff0_0000_0000_0000 == 0x7ff0_0000_0000_0000 ==> (Double {
            bits,
        }).non_finite_text() == (if bits == 0x7ff0_0000_0000_0000 {
            "inf"@
        } else if bits == 0xfff0_0000_0000_0000 {
            "-inf"@
        } else {
            "NaN"@
        }),
{
    assert((bits / 0x10_0000_0000_0000) % 2048 != 2047 <==> bits & 0x7ff0_0000_0000_0000
        != 0x7ff0_0000_0000_0000) by (bit_vector);
    assert((bits / 0x10_0000_0000_0000) % 2048 == 2047 ==> (bits % 0x10_0000_0000_0000 == 0 <==> (
    bits == 0x7ff0_0000_0000_0000 || bits == 0xfff0_0000_0000_0000))) by (bit_vector);
}

/// The first rule that is refused is found from any rule before it.
proof fn lemma_first_refused(config: Config, from: int, i: int)
    requires
        0 <= from <= i < config.rules@.len(),
        names_nothing(config.rules@[i]) || is_unbounded(config.rules@[i]),
        forall|k: int|
            from <= k < i ==> !names_nothing(#[trigger] config.rules@[k]) && !is_unbounded(
                config.rules@[k],
            ),
    ensures
        rules_error(config.rule_views(), from) == rule_error(config.rule_views()[i]),
        rule_error(config.rule_views()[i]) is Some,
    decreases i - from,
{
    let views = config.rule_views();
    assert(views[from] == config.rules@[from]@);
    assert(views[from].metric_names.len() == config.rules@[from].metric_names@.len());
    lemma_unbounded(config.rules@[from].factor.bits);
    if from < i {
        lemma_first_refused(config, from + 1, i);
    }
}

/// A rule of a processor is the one that was configured.
pub open spec fn same_rule(configured: Rule, rule: MetricScaleRule) -> bool {
    &&& rule.factor == configured.factor
    &&& rule.metric_names@.len() == configured.metric_names@.len()
    &&& forall|k: int|
        0 <= k < configured.metric_names@.len() ==> (#[trigger] rule.metric_names@[k])@
            == configured.metric_names@[k]@
    &&& match (configured.unit, rule.unit) {
        (Some(a), Some(b)) => a@ == b@,
        (None, None) => true,
        _ => false,
    }
}

/// Data is sent on as it came exactly where there are no rules, and else scaled; a request for
/// telemetry is answered, and any other control message is ignored.
pub proof fn law_decisions(processor: ScaleMetricProcessor, incoming: Incoming, r: Decision)
    requires
        call_ensures(ScaleMetricProcessor::decide, (&processor, incoming), r),
    ensures
        r == Decision::Report <==> incoming == Incoming::CollectTelemetry,
        r == Decision::Ignore <==> incoming == Incoming::OtherControl,
        r == Decision::Forward <==> incoming == Incoming::Data && processor.rules@.len() == 0,
        r == Decision::Scale <==> incoming == Incoming::Data && processor.rules@.len() > 0,
{
}

/// The counters add up the counts of the passes, each on its own.
pub proof fn law_counters_add_up(metrics: &mut ScaleMetricMetrics, stats: MetricScaleStats)
    requires
        call_ensures(ScaleMetricMetrics::record, (metrics, stats), ()),
    ensures
        final(metrics).metrics_scaled == old(metrics).metrics_scaled + stats.metrics_scaled,
        final(metrics).data_points_scaled == old(metrics).data_points_scaled
            + stats.data_points_scaled,
        final(metrics).metrics_unsupported == old(metrics).metrics_unsupported
            + stats.metrics_unsupported,
{
}

/// Counters have room for a pass exactly where none of the sums is out of range.
pub proof fn law_room_for_counts(metrics: ScaleMetricMetrics, stats: MetricScaleStats, r: bool)
    requires
        call_ensures(ScaleMetricMetrics::can_record, (&metrics, stats), r),
    ensures
        r <==> metrics.metrics_scaled + stats.metrics_scaled <= u64::MAX
            && metrics.data_points_scaled + stats.data_points_scaled <= u64::MAX
            && metrics.metrics_unsupported + stats.metrics_unsupported <= u64::MAX,
{
}

/// Scaling records through a processor is a pass with its rules. The counters grow by what the
/// pass counts, and are not touched where it fails.
pub proof fn law_scaled_records<D: Fn(Double, Double) -> Double, I: Fn(i64, Double) -> i64>(
    processor: &mut ScaleMetricProcessor,
    records: &mut OtapArrowRecords,
    scale_double: D,
    scale_int: I,
    result: Result<MetricScaleStats, Error>,
)
    requires
        call_ensures(
            ScaleMetricProcessor::scale_records::<D, I>,
            (processor, records, &scale_double, &scale_int),
            result,
        ),
    ensures
        crate::metric_scale::scale_effect(
            crate::metric_scale::arithmetic(scale_double, scale_int),
            crate::metric_scale::rule_views(old(processor).rules@),
            old(records)@,
            final(records)@,
            result,
        ),
        final(processor).rules == old(processor).rules,
        match result {
            Ok(stats) => {
                &&& final(processor).metrics.metrics_scaled == old(processor).metrics.metrics_scaled
                    + stats.metrics_scaled
                &&& final(processor).metrics.data_points_scaled == old(
                    processor,
                ).metrics.data_points_scaled + stats.data_points_scaled
                &&& final(processor).metrics.metrics_unsupported == old(
                    processor,
                ).metrics.metrics_unsupported + stats.metrics_unsupported
            },
            Err(_) => final(processor).metrics == old(processor).metrics,
        },
{
}

/// A configuration that cannot be parsed is reported with the reason.
pub proof fn law_unparsable_configurations(reason: &str, r: ConfigError)
    requires
        call_ensures(ConfigError::unparsable, (reason,), r),
    ensures
        r->error@ == "Failed to parse ScaleMetricProcessor configuration: "@ + reason@,
{
}

/// A processor can count a pass exactly where its counters have room for what the pass counts; a
/// pass that fails counts nothing.
pub proof fn law_room_for_a_pass(
    processor: ScaleMetricProcessor,
    records: OtapArrowRecords,
    r: bool,
)
    requires
        call_ensures(ScaleMetricProcessor::can_count, (&processor, &records), r),
    ensures
        match crate::metric_scale::pass_counts(
            records@,
            crate::metric_scale::rule_views(processor.rules@),
        ) {
            Some(counts) => r <==> processor.metrics.metrics_scaled + counts.metrics_scaled
                <= u64::MAX && processor.metrics.data_points_scaled + counts.data_points_scaled
                <= u64::MAX && processor.metrics.metrics_unsupported + counts.metrics_unsupported
                <= u64::MAX,
            None => r,
        },
{
}

/// By default there are no rules, and all counters are at zero.
pub proof fn law_default_configuration(
    config: Config,
    metrics: ScaleMetricMetrics,
    stats: MetricScaleStats,
)
    requires
        call_ensures(Config::default, (), config),
        call_ensures(ScaleMetricMetrics::default, (), metrics),
        call_ensures(MetricScaleStats::default, (), stats),
    ensures
        config.rules@.len() == 0,
        metrics.metrics_scaled == 0 && metrics.data_points_scaled == 0
            && metrics.metrics_unsupported == 0,
        stats.metrics_scaled == 0 && stats.data_points_scaled == 0 && stats.metrics_unsupported
            == 0,
{
}

/// The processor and its counters go by fixed names.
pub proof fn law_names_of_the_processor()
    ensures
        SCALE_METRIC_PROCESSOR_URN@ == "urn:otel:processor:scale_metric"@,
        ScaleMetricMetrics::NAME@ == "processor.scale_metric"@,
{
}

} // verus!
