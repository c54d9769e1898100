//! What holds of a scaling pass as a whole.

use crate::column::{ColumnView, ItemsView, LeafView, ListView, ScalarsView};
use crate::consts::{SUMMARY_VALUE, UNIT};
use crate::double::Double;
use crate::error::Error;
use crate::metric_scale::{
    Arithmetic, MetricScaleStats, RootStep, RootView, RowMatch, RuleView, ValueColumn,
    SCALABLE_PAYLOADS,
};
use crate::payload::{ArrowPayloadType, MetricType};
use crate::records::{BatchView, PayloadView, RecordsView};
use vstd::prelude::*;

verus! {

/// The rule that decides about a metric is the first that names it, and there is none exactly
/// where no rule names it.
pub proof fn law_first_rule_wins(rules: Seq<RuleView>, name: Seq<char>, from: int)
    requires
        0 <= from,
    ensures
        match crate::metric_scale::first_rule(rules, name, from) {
            Some(rule) => from <= rule < rules.len() && rules[rule].metric_names.contains(name)
                && forall|earlier: int|
                from <= earlier < rule ==> !(#[trigger] rules[earlier]).metric_names.contains(name),
            None => forall|rule: int|
                from <= rule < rules.len() ==> !(#[trigger] rules[rule]).metric_names.contains(name),
        },
    decreases rules.len() - from,
{
    if from < rules.len() && !rules[from].metric_names.contains(name) {
        law_first_rule_wins(rules, name, from + 1);
    }
}

/// Further rules add nothing to what earlier rules say of a metric, nor to metrics that are
/// not there.
pub open spec fn adds_nothing(
    root: RootView,
    rules: Seq<RuleView>,
    more: Seq<RuleView>,
    rows: nat,
) -> bool {
    forall|k: int, row: int|
        0 <= k < more.len() && 0 <= row < rows && root.names[row] is Some
            && (#[trigger] more[k]).metric_names.contains((#[trigger] root.names[row])->0)
            ==> exists|rule: int|
            0 <= rule < rules.len() && (#[trigger] rules[rule]).metric_names.contains(
                root.names[row]->0,
            )
}

/// Later rules never override or add to an earlier match: appending rules whose metric names
/// are listed by an earlier rule already, or are the name of no row, changes neither the
/// factors and units of the plan nor the counts.
pub proof fn law_appended_rules_change_nothing(
    root: RootView,
    rules: Seq<RuleView>,
    more: Seq<RuleView>,
    rows: nat,
)
    requires
        rows <= root.names.len(),
        adds_nothing(root, rules, more, root.names.len()),
    ensures
        root.factors(rules + more, rows) == root.factors(rules, rows),
        root.units(rules + more) == root.units(rules),
        root.scaled(rules + more, rows) == root.scaled(rules, rows),
        root.unsupported(rules + more, rows) == root.unsupported(rules, rows),
{
    assert forall|row: int| 0 <= row < root.names.len() implies #[trigger] root.row_match(
        rules + more,
        row,
    ) == root.row_match(rules, row) && root.unit(rules + more, row) == root.unit(rules, row) by {
        lemma_same_match(root, rules, more, row);
    }
    assert(root.units(rules + more) =~= root.units(rules));
    lemma_same_plan(root, rules, more, rows);
}

/// A row is matched alike with rules that add nothing.
proof fn lemma_same_match(root: RootView, rules: Seq<RuleView>, more: Seq<RuleView>, row: int)
    requires
        0 <= row < root.names.len(),
        adds_nothing(root, rules, more, root.names.len()),
    ensures
        root.row_match(rules + more, row) == root.row_match(rules, row),
        root.unit(rules + more, row) == root.unit(rules, row),
        root.row_match(rules, row) matches RowMatch::Scaled(rule) ==> (rules + more)[rule]
            == rules[rule],
{
    if let Some(name) = root.names[row] {
        let all = rules + more;
        law_first_rule_wins(rules, name, 0);
        law_first_rule_wins(all, name, 0);
        assert forall|k: int| 0 <= k < rules.len() implies #[trigger] all[k] == rules[k] by {}
        match crate::metric_scale::first_rule(rules, name, 0) {
            Some(i) => {
                assert(all[i] == rules[i]);
                if let Some(j) = crate::metric_scale::first_rule(all, name, 0) {
                    if j < i {
                        assert(rules[j] == all[j]);
                    }
                }
            },
            None => {
                if let Some(j) = crate::metric_scale::first_rule(all, name, 0) {
                    if j < rules.len() {
                        assert(rules[j] == all[j]);
                    } else {
                        assert(all[j] == more[j - rules.len()]);
                        assert(more[j - rules.len()].metric_names.contains(root.names[row]->0));
                    }
                }
            },
        }
    }
}

/// A plan is the same with rules that add nothing.
proof fn lemma_same_plan(root: RootView, rules: Seq<RuleView>, more: Seq<RuleView>, rows: nat)
    requires
        rows <= root.names.len(),
        adds_nothing(root, rules, more, root.names.len()),
    ensures
        root.factors(rules + more, rows) == root.factors(rules, rows),
        root.scaled(rules + more, rows) == root.scaled(rules, rows),
        root.unsupported(rules + more, rows) == root.unsupported(rules, rows),
    decreases rows,
{
    if rows > 0 {
        lemma_same_plan(root, rules, more, (rows - 1) as nat);
        lemma_same_match(root, rules, more, rows - 1);
    }
}

/// Appending rules that add nothing changes nothing about a whole pass: what it makes of the
/// root payload, which metrics it scales by how much, and what it counts.
pub proof fn law_appended_rules_scale_the_same(
    records: RecordsView,
    rules: Seq<RuleView>,
    more: Seq<RuleView>,
)
    requires
        records.wf(),
        rules.len() > 0,
        match records.get(records.root) {
            Some(payload) => match payload.plain {
                Ok(root) => match crate::metric_scale::root_columns(root) {
                    Ok(columns) => adds_nothing(columns, rules, more, root.rows),
                    Err(_) => true,
                },
                Err(_) => true,
            },
            None => true,
        },
    ensures
        crate::metric_scale::root_step(records, rules + more) == crate::metric_scale::root_step(
            records,
            rules,
        ),
        crate::metric_scale::pass_counts(records, rules + more)
            == crate::metric_scale::pass_counts(records, rules),
{
    if let Some(payload) = records.get(records.root) {
        assert(records.payloads.contains_key(records.root));
        if let Ok(root) = payload.plain {
            if let Ok(columns) = crate::metric_scale::root_columns(root) {
                lemma_root_columns_len(root);
                law_appended_rules_change_nothing(columns, rules, more, root.rows);
            }
        }
    }
}

/// Gauges, sums, histograms and summaries are scaled; exponential histograms and metrics
/// without data are not, nor is anything that no metric type stands for.
pub proof fn law_scalable_types(code: u8)
    ensures
        crate::metric_scale::scalable(code) <==> MetricType::decoded(code) == Some(
            MetricType::Gauge,
        ) || MetricType::decoded(code) == Some(MetricType::Sum) || MetricType::decoded(code)
            == Some(MetricType::Histogram) || MetricType::decoded(code) == Some(
            MetricType::Summary,
        ),
{
}

/// Without rules, or on a message that holds no metrics, nothing changes and nothing is
/// counted.
pub proof fn law_untouched_without_metrics(
    ops: Arithmetic,
    rules: Seq<RuleView>,
    before: RecordsView,
    after: RecordsView,
    result: Result<MetricScaleStats, Error>,
)
    requires
        crate::metric_scale::scale_effect(ops, rules, before, after, result),
        rules.len() == 0 || !crate::metric_scale::holds_metrics(before.root) || before.get(
            before.root,
        ) is None,
    ensures
        after == before,
        result == Ok::<MetricScaleStats, Error>(
            (MetricScaleStats { metrics_scaled: 0, data_points_scaled: 0, metrics_unsupported: 0 }),
        ),
{
}

/// No metric is scaled where no row is.
proof fn lemma_nothing_planned(root: RootView, rules: Seq<RuleView>, rows: nat)
    requires
        forall|row: int| 0 <= row < rows ==> !(#[trigger] root.row_match(rules, row) is Scaled),
    ensures
        root.scaled(rules, rows) == 0,
    decreases rows,
{
    if rows > 0 {
        lemma_nothing_planned(root, rules, (rows - 1) as nat);
        assert(!(root.row_match(rules, rows - 1) is Scaled));
    }
}

/// Where the rules name no metric that can be scaled, nothing changes: the metrics they do
/// name, exponential histograms among them, keep everything including their unit, and are
/// counted as unsupported.
pub proof fn law_untouched_without_scalable_match(
    ops: Arithmetic,
    rules: Seq<RuleView>,
    before: RecordsView,
    after: RecordsView,
    result: Result<MetricScaleStats, Error>,
    root: BatchView,
    columns: RootView,
)
    requires
        crate::metric_scale::scale_effect(ops, rules, before, after, result),
        crate::metric_scale::holds_metrics(before.root),
        before.get(before.root) is Some,
        before.get(before.root)->0.plain == Ok::<BatchView, Error>(root),
        crate::metric_scale::root_columns(root) == Ok::<RootView, Error>(columns),
        forall|row: int|
            0 <= row < root.rows ==> !(#[trigger] columns.row_match(rules, row) is Scaled),
    ensures
        after == before,
        result is Ok,
        result->Ok_0.metrics_scaled == 0,
        result->Ok_0.data_points_scaled == 0,
        rules.len() > 0 ==> result->Ok_0.metrics_unsupported == columns.unsupported(
            rules,
            root.rows,
        ),
{
    lemma_nothing_planned(columns, rules, root.rows);
}

/// How many of the first `rows` metrics are named by a rule.
pub open spec fn named(root: RootView, rules: Seq<RuleView>, rows: nat) -> nat
    decreases rows,
{
    if rows == 0 {
        0
    } else {
        named(root, rules, (rows - 1) as nat) + if root.row_match(rules, rows - 1) is Unnamed {
            0nat
        } else {
            1
        }
    }
}

/// Every metric that a rule names is counted once: as scaled, or as unsupported.
pub proof fn law_named_metrics_are_counted_once(root: RootView, rules: Seq<RuleView>, rows: nat)
    ensures
        root.scaled(rules, rows) + root.unsupported(rules, rows) == named(root, rules, rows),
        named(root, rules, rows) <= rows,
    decreases rows,
{
    if rows > 0 {
        law_named_metrics_are_counted_once(root, rules, (rows - 1) as nat);
    }
}

/// The metrics counted as scaled are the rows that a rule scales, and those counted as
/// unsupported the rows that a rule names but cannot scale.
pub proof fn law_metric_counts(root: RootView, rules: Seq<RuleView>, rows: nat)
    ensures
        Set::new(|row: int| 0 <= row < rows && root.row_match(rules, row) is Scaled).finite(),
        Set::new(|row: int| 0 <= row < rows && root.row_match(rules, row) is Scaled).len()
            == root.scaled(rules, rows),
        Set::new(|row: int| 0 <= row < rows && root.row_match(rules, row) is Unsupported).finite(),
        Set::new(|row: int| 0 <= row < rows && root.row_match(rules, row) is Unsupported).len()
            == root.unsupported(rules, rows),
    decreases rows,
{
    let scaled = Set::new(|row: int| 0 <= row < rows && root.row_match(rules, row) is Scaled);
    let unsupported = Set::new(
        |row: int| 0 <= row < rows && root.row_match(rules, row) is Unsupported,
    );
    if rows == 0 {
        assert(scaled =~= Set::empty());
        assert(unsupported =~= Set::empty());
    } else {
        let last = rows - 1;
        law_metric_counts(root, rules, last as nat);
        let scaled_before = Set::new(
            |row: int| 0 <= row < last && root.row_match(rules, row) is Scaled,
        );
        let unsupported_before = Set::new(
            |row: int| 0 <= row < last && root.row_match(rules, row) is Unsupported,
        );
        match root.row_match(rules, last) {
            RowMatch::Scaled(_) => {
                assert(scaled =~= scaled_before.insert(last));
                assert(unsupported =~= unsupported_before);
            },
            RowMatch::Unsupported => {
                assert(scaled =~= scaled_before);
                assert(unsupported =~= unsupported_before.insert(last));
            },
            RowMatch::Unnamed => {
                assert(scaled =~= scaled_before);
                assert(unsupported =~= unsupported_before);
            },
        }
    }
}

/// The data points counted as scaled are the rows that have a factor.
pub proof fn law_data_point_counts(row_factors: Seq<Option<Double>>)
    ensures
        Set::new(|row: int| 0 <= row < row_factors.len() && row_factors[row] is Some).finite(),
        Set::new(|row: int| 0 <= row < row_factors.len() && row_factors[row] is Some).len()
            == crate::metric_scale::rows_with_factor(row_factors),
    decreases row_factors.len(),
{
    let rows = Set::new(|row: int| 0 <= row < row_factors.len() && row_factors[row] is Some);
    if row_factors.len() == 0 {
        assert(rows =~= Set::empty());
    } else {
        let rest = row_factors.drop_last();
        let last = row_factors.len() - 1;
        law_data_point_counts(rest);
        let before = Set::new(|row: int| 0 <= row < rest.len() && rest[row] is Some);
        assert(forall|row: int| 0 <= row < rest.len() ==> rest[row] == row_factors[row]);
        if row_factors.last() is Some {
            assert(rows =~= before.insert(last));
        } else {
            assert(rows =~= before);
        }
    }
}

/// A metric identifier has a factor exactly where a row that is scaled carries it, and it is
/// the factor of the rule for the last such row. What is stored under a null identifier does
/// not matter.
pub proof fn law_factor_of_metric(root: RootView, rules: Seq<RuleView>, rows: nat, id: u16)
    ensures
        root.factors(rules, rows).contains_key(id) <==> exists|row: int|
            0 <= row < rows && root.ids[row].cell() == Some(id) && #[trigger] root.row_match(
                rules,
                row,
            ) is Scaled,
        forall|row: int|
            0 <= row < rows && root.ids[row].cell() == Some(id) && (#[trigger] root.row_match(
                rules,
                row,
            )) is Scaled && (forall|later: int|
                row < later < rows && root.ids[later].cell() == Some(id) ==> !(#[trigger] root.row_match(
                    rules,
                    later,
                ) is Scaled)) ==> root.factors(rules, rows)[id] == rules[root.row_match(
                rules,
                row,
            )->Scaled_0].factor,
    decreases rows,
{
    if rows > 0 {
        let last = rows - 1;
        law_factor_of_metric(root, rules, last as nat, id);
        if root.ids[last].cell() == Some(id) && root.row_match(rules, last) is Scaled {
            assert(root.factors(rules, rows).contains_key(id));
        } else {
            assert(root.factors(rules, rows).contains_key(id) == root.factors(
                rules,
                last as nat,
            ).contains_key(id));
            assert(root.factors(rules, rows).contains_key(id) ==> root.factors(rules, rows)[id]
                == root.factors(rules, last as nat)[id]);
            assert forall|row: int|
                0 <= row < rows && root.ids[row].cell() == Some(id) && (#[trigger] root.row_match(
                    rules,
                    row,
                )) is Scaled && (forall|later: int|
                    row < later < rows && root.ids[later].cell() == Some(id) ==> !(
                    #[trigger] root.row_match(
                        rules,
                        later,
                    ) is Scaled)) implies root.factors(rules, rows)[id] == rules[root.row_match(
                rules,
                row,
            )->Scaled_0].factor by {
                assert(row < last);
                assert(forall|later: int|
                    row < later < last && root.ids[later].cell() == Some(id) ==> !(
                    #[trigger] root.row_match(rules, later) is Scaled));
            }
        }
    }
}

/// A pass changes no payload but the root and the data points of gauges, sums, histograms and
/// summaries; those of exponential histograms, attributes and exemplars stay as they are.
pub proof fn law_other_payloads_untouched(
    ops: Arithmetic,
    rules: Seq<RuleView>,
    before: RecordsView,
    after: RecordsView,
    result: Result<MetricScaleStats, Error>,
    t: ArrowPayloadType,
)
    requires
        crate::metric_scale::scale_effect(ops, rules, before, after, result),
        t != before.root,
        t != ArrowPayloadType::NumberDataPoints,
        t != ArrowPayloadType::HistogramDataPoints,
        t != ArrowPayloadType::SummaryDataPoints,
    ensures
        after.get(t) == before.get(t),
{
    if let RootStep::Scale { root, factors, .. } = crate::metric_scale::root_step(before, rules) {
        let restated = before.set(before.root, root);
        crate::metric_scale::lemma_stops_at(restated, factors, 0);
        assert(after.payloads.dom().contains(t) == restated.payloads.dom().contains(t));
        if restated.payloads.contains_key(t) {
            assert(before.payloads.contains_key(t));
        }
    }
}

/// The root payload after a pass that scales something is the root batch with its units
/// restated, whether or not the data points can then be read.
proof fn lemma_root_after(
    ops: Arithmetic,
    rules: Seq<RuleView>,
    before: RecordsView,
    after: RecordsView,
    result: Result<MetricScaleStats, Error>,
)
    requires
        crate::metric_scale::scale_effect(ops, rules, before, after, result),
        crate::metric_scale::root_step(before, rules) is Scale,
    ensures
        after.get(before.root) == Some(
            PayloadView::of_plain(crate::metric_scale::root_step(before, rules)->root),
        ),
{
    let root = crate::metric_scale::root_step(before, rules)->root;
    let factors = crate::metric_scale::root_step(before, rules)->factors;
    let restated = before.set(before.root, root);
    crate::metric_scale::lemma_stops_at(restated, factors, 0);
    assert(restated.payloads.contains_key(before.root));
    assert(after.payloads.dom().contains(before.root));
}

/// The unit of the metric in a row of a root batch.
pub open spec fn unit_of(root: BatchView, row: int) -> Option<Seq<char>> {
    match root.column(UNIT@) {
        Some(column) => match column.texts() {
            Some(texts) => texts[row],
            None => None,
        },
        None => None,
    }
}

/// Restating units gives each row its replacement where it has one, leaves the unit of every
/// other row as it is, and leaves every other column as it is.
pub proof fn law_restated_units(
    root: BatchView,
    units: Seq<Option<Seq<char>>>,
    after: BatchView,
    row: int,
)
    requires
        root.wf(),
        units.len() == root.rows,
        crate::metric_scale::restated(root, units) == Ok::<BatchView, Error>(after),
        0 <= row < root.rows,
    ensures
        after.rows == root.rows,
        match units[row] {
            Some(unit) => unit_of(after, row) == Some(unit),
            None => unit_of(after, row) == unit_of(root, row),
        },
        forall|name: Seq<char>|
            name != UNIT@ ==> #[trigger] after.column(name) == root.column(name),
{
    if !(forall|k: int| 0 <= k < units.len() ==> (#[trigger] units[k]) is None) {
        crate::column::lemma_first_named(root.fields, UNIT@, 0);
        crate::column::lemma_first_named(after.fields, UNIT@, 0);
        match root.index_of(UNIT@) {
            Some(i) => {
                assert(after.fields[i].name == UNIT@);
                assert(forall|k: int| 0 <= k < i ==> after.fields[k] == root.fields[k]);
                assert(after.index_of(UNIT@) == Some(i));
            },
            None => {
                let i = root.fields.len() as int;
                assert(after.fields[i].name == UNIT@);
                assert(forall|k: int| 0 <= k < i ==> after.fields[k] == root.fields[k]);
                assert(after.index_of(UNIT@) == Some(i));
            },
        }
        assert forall|name: Seq<char>| name != UNIT@ implies #[trigger] after.column(name)
            == root.column(name) by {
            crate::column::lemma_first_named(root.fields, name, 0);
            crate::column::lemma_first_named(after.fields, name, 0);
            assert(forall|k: int|
                0 <= k < root.fields.len() && root.fields[k].name != UNIT@ ==> after.fields[k]
                    == root.fields[k]);
            assert(forall|k: int|
                0 <= k < after.fields.len() && after.fields[k].name != UNIT@ ==> k
                    < root.fields.len() && after.fields[k] == root.fields[k]);
            if let Some(i) = root.index_of(name) {
                assert(after.fields[i].name == name);
                if let Some(j) = after.index_of(name) {
                    assert(root.fields[j].name == name);
                }
            } else {
                if let Some(j) = after.index_of(name) {
                    assert(root.fields[j].name == name);
                }
            }
        }
    }
}

/// After a pass that scales something, a metric that was scaled by a rule with a unit carries
/// that unit, and every other metric carries the unit it had, exponential histograms that a
/// rule names among them. This holds whether or not the data points can then be read.
pub proof fn law_units_follow_the_factor(
    ops: Arithmetic,
    rules: Seq<RuleView>,
    before: RecordsView,
    after: RecordsView,
    result: Result<MetricScaleStats, Error>,
    root: BatchView,
    columns: RootView,
    row: int,
)
    requires
        before.wf(),
        crate::metric_scale::scale_effect(ops, rules, before, after, result),
        crate::metric_scale::root_step(before, rules) is Scale,
        before.get(before.root) is Some,
        before.get(before.root)->0.plain == Ok::<BatchView, Error>(root),
        crate::metric_scale::root_columns(root) == Ok::<RootView, Error>(columns),
        0 <= row < root.rows,
    ensures
        after.get(before.root) matches Some(payload) && payload.plain matches Ok(root_after)
            && root_after.rows == root.rows && match columns.row_match(rules, row) {
            RowMatch::Scaled(rule) => match rules[rule].unit {
                Some(unit) => unit_of(root_after, row) == Some(unit),
                None => unit_of(root_after, row) == unit_of(root, row),
            },
            _ => unit_of(root_after, row) == unit_of(root, row),
        } && forall|name: Seq<char>|
            name != UNIT@ ==> #[trigger] root_after.column(name) == root.column(name),
{
    lemma_root_after(ops, rules, before, after, result);
    assert(before.payloads.contains_key(before.root));
    assert(root.wf());
    lemma_root_columns_len(root);
    law_restated_units(
        root,
        columns.units(rules),
        crate::metric_scale::root_step(before, rules)->root,
        row,
    );
}

/// The names of a root batch are as many as its rows.
proof fn lemma_root_columns_len(root: BatchView)
    requires
        root.wf(),
        crate::metric_scale::root_columns(root) is Ok,
    ensures
        crate::metric_scale::root_columns(root)->Ok_0.names.len() == root.rows,
{
    crate::column::lemma_first_named(root.fields, crate::consts::NAME@, 0);
    let column = root.required(crate::consts::NAME)->Ok_0;
    assert(column.wf() && column.len() == root.rows);
}

/// A pass that succeeds leaves a data points payload as it is where no row of it belongs to a
/// metric that is scaled, and else multiplies each row by the factor of the metric it belongs
/// to.
pub proof fn law_data_points_follow_their_metric(
    ops: Arithmetic,
    rules: Seq<RuleView>,
    before: RecordsView,
    after: RecordsView,
    stats: MetricScaleStats,
    t: ArrowPayloadType,
    data_points: BatchView,
    parents: Seq<crate::column::Slot<u16>>,
)
    requires
        crate::metric_scale::scale_effect(
            ops,
            rules,
            before,
            after,
            Ok::<MetricScaleStats, Error>(stats),
        ),
        crate::metric_scale::root_step(before, rules) is Scale,
        crate::metric_scale::scaling_rank(t) < SCALABLE_PAYLOADS,
        before.get(t) is Some,
        before.get(t)->0.plain == Ok::<BatchView, Error>(data_points),
        data_points.required_u16(crate::consts::PARENT_ID) == Ok::<
            Seq<crate::column::Slot<u16>>,
            Error,
        >(parents),
    ensures
        ({
            let factors = crate::metric_scale::root_step(before, rules)->factors;
            let row_factors = crate::metric_scale::factors_of_rows(factors, parents);
            if crate::metric_scale::rows_with_factor(row_factors) == 0 {
                after.get(t) == before.get(t)
            } else {
                after.get(t) matches Some(payload) && payload == PayloadView::of_plain(
                    payload.stored,
                ) && ops.batch(data_points, row_factors, payload.stored)
            }
        }),
{
    let root = crate::metric_scale::root_step(before, rules)->root;
    let factors = crate::metric_scale::root_step(before, rules)->factors;
    let restated = before.set(before.root, root);
    crate::metric_scale::lemma_stops_at(restated, factors, 0);
    lemma_no_stop(restated, factors, 0);
    assert(before.payloads.contains_key(t));
    assert(t != before.root);
    assert(restated.payloads.contains_key(t));
    assert(restated.payloads[t] == before.payloads[t]);
    assert(after.payloads.dom().contains(t));
    let rank = crate::metric_scale::scaling_rank(t);
    assert(crate::metric_scale::scalable_payload(rank) == t);
    assert(!(crate::metric_scale::step_at(restated, factors, rank) is Fail));
}

/// Where the pass stops nowhere, no payload makes it fail.
proof fn lemma_no_stop(records: RecordsView, factors: Map<u16, Double>, rank: int)
    requires
        0 <= rank <= SCALABLE_PAYLOADS,
        crate::metric_scale::stops_at(records, factors, rank) == SCALABLE_PAYLOADS,
    ensures
        forall|k: int|
            rank <= k < SCALABLE_PAYLOADS ==> !(#[trigger] crate::metric_scale::step_at(
                records,
                factors,
                k,
            ) is Fail),
    decreases SCALABLE_PAYLOADS - rank,
{
    if rank < SCALABLE_PAYLOADS {
        lemma_no_stop(records, factors, rank + 1);
    }
}

/// An item of a list column gets the factor of the row whose list it is in, and none where
/// that row is null.
pub proof fn law_item_factor(
    list: ListView,
    row_factors: Seq<Option<Double>>,
    row: int,
    item: int,
)
    requires
        list.wf(),
        0 <= row < list.len(),
        list.offsets[row] <= item < list.offsets[row + 1],
    ensures
        crate::metric_scale::item_factor(list, row_factors, list.len(), item) == (
        if list.validity[row] {
            row_factors[row]
        } else {
            None
        }),
{
    lemma_item_factor(list, row_factors, row, item, list.len());
}

/// An item's factor does not depend on the rows after its own.
proof fn lemma_item_factor(
    list: ListView,
    row_factors: Seq<Option<Double>>,
    row: int,
    item: int,
    rows: nat,
)
    requires
        list.wf(),
        0 <= row < rows <= list.len(),
        list.offsets[row] <= item < list.offsets[row + 1],
    ensures
        crate::metric_scale::item_factor(list, row_factors, rows, item) == (
        if list.validity[row] {
            row_factors[row]
        } else {
            None
        }),
    decreases rows,
{
    if rows - 1 > row {
        assert(list.offsets[row + 1] <= list.offsets[rows - 1]);
        lemma_item_factor(list, row_factors, row, item, (rows - 1) as nat);
    }
}

/// An item that is in no row's list gets no factor.
pub proof fn law_item_outside_lists(
    list: ListView,
    row_factors: Seq<Option<Double>>,
    item: int,
    rows: nat,
)
    requires
        rows <= list.len(),
        forall|row: int|
            0 <= row < rows ==> !(#[trigger] list.offsets[row] <= item < list.offsets[row + 1]),
    ensures
        crate::metric_scale::item_factor(list, row_factors, rows, item) is None,
    decreases rows,
{
    if rows > 0 {
        assert(!(list.offsets[rows - 1] <= item < list.offsets[rows as int]));
        law_item_outside_lists(list, row_factors, item, (rows - 1) as nat);
    }
}

/// An item is the same in two item columns.
pub open spec fn item_kept(before: ItemsView, after: ItemsView, item: int) -> bool {
    match (before, after) {
        (ItemsView::Leaf(a), ItemsView::Leaf(b)) => b.data_type() == a.data_type() && b.cells()[item]
            == a.cells()[item],
        (ItemsView::Struct(a), ItemsView::Struct(b)) => {
            &&& b.fields == a.fields
            &&& b.validity == a.validity
            &&& b.children.len() == a.children.len()
            &&& forall|k: int|
                0 <= k < a.children.len() ==> (#[trigger] b.children[k]).data_type()
                    == a.children[k].data_type() && b.children[k].cells()[item]
                    == a.children[k].cells()[item]
        },
        _ => false,
    }
}

/// A row is the same in two columns.
pub open spec fn row_kept(before: ColumnView, after: ColumnView, row: int) -> bool {
    match (before, after) {
        (ColumnView::Leaf(a), ColumnView::Leaf(b)) => b.data_type() == a.data_type()
            && b.cells()[row] == a.cells()[row],
        (ColumnView::List(a), ColumnView::List(b)) => {
            &&& b.offsets == a.offsets
            &&& b.validity == a.validity
            &&& b.item_nullable == a.item_nullable
            &&& forall|item: int|
                a.offsets[row] <= item < a.offsets[row + 1] ==> #[trigger] item_kept(
                    a.items,
                    b.items,
                    item,
                )
        },
        _ => after == before,
    }
}

/// A data point whose metric is not scaled keeps every value.
pub proof fn law_rows_without_factor_are_kept(
    ops: Arithmetic,
    data_points: BatchView,
    row_factors: Seq<Option<Double>>,
    result: BatchView,
    i: int,
    row: int,
)
    requires
        data_points.wf(),
        ops.batch(data_points, row_factors, result),
        0 <= i < data_points.columns.len(),
        0 <= row < data_points.rows,
        row_factors[row] is None,
    ensures
        row_kept(data_points.columns[i], result.columns[i], row),
{
    let before = data_points.columns[i];
    let after = result.columns[i];
    assert(before.wf() && before.len() == data_points.rows);
    assert(ops.column(data_points.fields[i].name, before, row_factors, after));
    match crate::metric_scale::value_column(data_points.fields[i].name) {
        ValueColumn::DoubleList => {
            let list = before->List_0;
            let results = after->List_0.items->Leaf_0->Plain_0->Float64_0;
            assert forall|item: int|
                list.offsets[row] <= item < list.offsets[row + 1] implies #[trigger] item_kept(
                list.items,
                after->List_0.items,
                item,
            ) by {
                law_item_factor(list, row_factors, row, item);
                assert(list.offsets[row + 1] <= list.offsets[list.offsets.len() - 1]);
                assert(0 <= item < results.len());
                assert(results[item] == list.items->Leaf_0->Plain_0->Float64_0[item]);
            }
        },
        ValueColumn::QuantileList => {
            let list = before->List_0;
            let quantiles = list.items->Struct_0;
            let quantiles_after = after->List_0.items->Struct_0;
            crate::column::lemma_first_named(quantiles.fields, SUMMARY_VALUE@, 0);
            let place = crate::column::first_named(quantiles.fields, SUMMARY_VALUE@, 0)->0;
            let values = quantiles.children[place]->Plain_0->Float64_0;
            let results = quantiles_after.children[place]->Plain_0->Float64_0;
            assert(quantiles.wf());
            assert(quantiles.children[place].wf());
            assert forall|item: int|
                list.offsets[row] <= item < list.offsets[row + 1] implies #[trigger] item_kept(
                list.items,
                after->List_0.items,
                item,
            ) by {
                law_item_factor(list, row_factors, row, item);
                assert(list.offsets[row + 1] <= list.offsets[list.offsets.len() - 1]);
                assert(0 <= item < results.len());
                assert(results[item] == values[item]);
            }
        },
        _ => {},
    }
}

/// A column that holds no values, such as counts, keys or times, stays as it is in every row.
pub proof fn law_other_columns_are_kept(
    ops: Arithmetic,
    data_points: BatchView,
    row_factors: Seq<Option<Double>>,
    result: BatchView,
    i: int,
)
    requires
        ops.batch(data_points, row_factors, result),
        0 <= i < data_points.columns.len(),
        crate::metric_scale::value_column(data_points.fields[i].name) is Untouched,
    ensures
        result.columns[i] == data_points.columns[i],
{
    assert(ops.column(
        data_points.fields[i].name,
        data_points.columns[i],
        row_factors,
        result.columns[i],
    ));
}

/// The values of a scalar column of a data point whose metric is scaled are multiplied by the
/// metric's factor; nulls stay null.
pub proof fn law_scalar_values_are_multiplied(
    ops: Arithmetic,
    data_points: BatchView,
    row_factors: Seq<Option<Double>>,
    result: BatchView,
    i: int,
    row: int,
)
    requires
        data_points.wf(),
        ops.batch(data_points, row_factors, result),
        0 <= i < data_points.columns.len(),
        0 <= row < data_points.rows,
        row_factors[row] is Some,
    ensures
        match crate::metric_scale::value_column(data_points.fields[i].name) {
            ValueColumn::Double => match (data_points.columns[i], result.columns[i]) {
                (
                    ColumnView::Leaf(LeafView::Plain(ScalarsView::Float64(values))),
                    ColumnView::Leaf(LeafView::Plain(ScalarsView::Float64(results))),
                ) => match values[row] {
                    Some(value) => results[row] is Some && (ops.double)(
                        value,
                        row_factors[row]->0,
                        results[row]->0,
                    ),
                    None => results[row] is None,
                },
                _ => false,
            },
            ValueColumn::Int => match (data_points.columns[i], result.columns[i]) {
                (
                    ColumnView::Leaf(LeafView::Plain(ScalarsView::Int64(values))),
                    ColumnView::Leaf(LeafView::Plain(ScalarsView::Int64(results))),
                ) => match values[row] {
                    Some(value) => results[row] is Some && (ops.int)(
                        value,
                        row_factors[row]->0,
                        results[row]->0,
                    ),
                    None => results[row] is None,
                },
                _ => false,
            },
            _ => true,
        },
{
    let before = data_points.columns[i];
    let after = result.columns[i];
    assert(before.wf() && before.len() == data_points.rows);
    assert(ops.column(data_points.fields[i].name, before, row_factors, after));
}

/// The doubles in the items of a list column, and where they are for quantiles: in the field
/// that holds the value at each quantile.
pub open spec fn item_doubles(items: ItemsView) -> Option<Seq<Option<Double>>> {
    match items {
        ItemsView::Leaf(LeafView::Plain(ScalarsView::Float64(values))) => Some(values),
        ItemsView::Struct(quantiles) => match quantiles.child(SUMMARY_VALUE@) {
            Some(LeafView::Plain(ScalarsView::Float64(values))) => Some(values),
            _ => None,
        },
        _ => None,
    }
}

/// The bounds of a histogram and the values at the quantiles of a summary are multiplied by
/// the factor of their metric; the lists keep their lengths and their nulls.
pub proof fn law_list_values_are_multiplied(
    ops: Arithmetic,
    data_points: BatchView,
    row_factors: Seq<Option<Double>>,
    result: BatchView,
    i: int,
    row: int,
    item: int,
)
    requires
        data_points.wf(),
        ops.batch(data_points, row_factors, result),
        0 <= i < data_points.columns.len(),
        0 <= row < data_points.rows,
        row_factors[row] is Some,
        crate::metric_scale::value_column(data_points.fields[i].name) is DoubleList
            || crate::metric_scale::value_column(data_points.fields[i].name) is QuantileList,
        data_points.columns[i]->List_0.offsets[row] <= item
            < data_points.columns[i]->List_0.offsets[row + 1],
        data_points.columns[i]->List_0.validity[row],
    ensures
        match (data_points.columns[i], result.columns[i]) {
            (ColumnView::List(list), ColumnView::List(list_after)) => {
                &&& list_after.offsets == list.offsets
                &&& list_after.validity == list.validity
                &&& item_doubles(list.items) matches Some(values)
                &&& item_doubles(list_after.items) matches Some(results)
                &&& match values[item] {
                    Some(value) => results[item] is Some && (ops.double)(
                        value,
                        row_factors[row]->0,
                        results[item]->0,
                    ),
                    None => results[item] is None,
                }
            },
            _ => false,
        },
{
    let before = data_points.columns[i];
    let after = result.columns[i];
    assert(before.wf() && before.len() == data_points.rows);
    assert(ops.column(data_points.fields[i].name, before, row_factors, after));
    let list = before->List_0;
    law_item_factor(list, row_factors, row, item);
    assert(list.offsets[row + 1] <= list.offsets[list.offsets.len() - 1]);
    if let ItemsView::Struct(quantiles) = list.items {
        crate::column::lemma_first_named(quantiles.fields, SUMMARY_VALUE@, 0);
        let place = crate::column::first_named(quantiles.fields, SUMMARY_VALUE@, 0)->0;
        assert(quantiles.wf());
        assert(quantiles.children[place].wf());
    }
    let results = item_doubles(after->List_0.items)->0;
    assert(0 <= item < results.len());
    assert(ops.double_cell(
        item_doubles(list.items)->0[item],
        crate::metric_scale::item_factors(list, row_factors)[item],
        results[item],
    ));
}

/// The keys of quantiles are not scaled: of the fields of a quantile only its value changes.
pub proof fn law_quantile_keys_are_kept(
    ops: Arithmetic,
    data_points: BatchView,
    row_factors: Seq<Option<Double>>,
    result: BatchView,
    i: int,
    field: int,
)
    requires
        data_points.wf(),
        ops.batch(data_points, row_factors, result),
        0 <= i < data_points.columns.len(),
        crate::metric_scale::value_column(data_points.fields[i].name) is QuantileList,
        0 <= field < data_points.columns[i]->List_0.items->Struct_0.fields.len(),
        data_points.columns[i]->List_0.items->Struct_0.fields[field].name != SUMMARY_VALUE@,
    ensures
        result.columns[i]->List_0.items->Struct_0.fields
            == data_points.columns[i]->List_0.items->Struct_0.fields,
        result.columns[i]->List_0.items->Struct_0.children[field]
            == data_points.columns[i]->List_0.items->Struct_0.children[field],
{
    let before = data_points.columns[i];
    assert(before.wf());
    assert(ops.column(
        data_points.fields[i].name,
        before,
        row_factors,
        result.columns[i],
    ));
    let quantiles = before->List_0.items->Struct_0;
    assert(quantiles.wf());
    crate::column::lemma_first_named(quantiles.fields, SUMMARY_VALUE@, 0);
}

} // verus!
