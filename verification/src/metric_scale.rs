//! Multiplication of metric data point values by a constant factor.
//!
//! Metrics are selected by name in the root payload, then every value column of the
//! data points belonging to them is multiplied. The unit is restated in the same
//! pass, so a scaled metric is never observed carrying its pre-scaling unit.
//!
//! Exponential histograms are not scalable by a constant factor without rebuilding
//! their bucket structure, so matched exponential histograms are left untouched and
//! counted separately rather than being partially rewritten.
//!
//! How a double or an integer is multiplied is a parameter: the two functions the
//! caller supplies are applied to exactly the values that are due to be scaled.

use crate::column::{
    Column, ColumnView, DataType, Field, FieldView, ItemType, Items, ItemsView, Leaf, LeafView,
    ListColumn, ListView, ScalarType, Scalars, ScalarsView, Slot, StructColumn, StructView,
};
use crate::consts::{
    DOUBLE_COLUMN, DOUBLE_VALUE, HISTOGRAM_EXPLICIT_BOUNDS, HISTOGRAM_MAX, HISTOGRAM_MIN,
    HISTOGRAM_SUM, ID, INT_VALUE, METRIC_TYPE, NAME, PARENT_ID, SUMMARY_QUANTILE_VALUES,
    SUMMARY_VALUE, UNIT,
};
use crate::double::Double;
use crate::error::Error;
use crate::payload::{ArrowPayloadType, MetricType};
use crate::records::{
    BatchView, OtapArrowRecords, PayloadView, RecordBatch, RecordsView, StringArrayAccessor,
};
use std::collections::HashMap;
use vstd::prelude::*;

verus! {

/// A single scaling rule.
#[derive(Clone, PartialEq, Eq, Debug)]
pub struct MetricScaleRule {
    /// Metric names this rule applies to.
    pub metric_names: Vec<String>,
    /// Multiplier applied to every data point value of a matched metric.
    pub factor: Double,
    /// Replacement unit, applied in the same pass as the factor.
    pub unit: Option<String>,
}

/// The contents of a rule.
pub struct RuleView {
    /// Metric names this rule applies to.
    pub metric_names: Seq<Seq<char>>,
    /// Multiplier applied to every data point value of a matched metric.
    pub factor: Double,
    /// Replacement unit, applied in the same pass as the factor.
    pub unit: Option<Seq<char>>,
}

impl View for MetricScaleRule {
    type V = RuleView;

    open spec fn view(&self) -> RuleView {
        RuleView {
            metric_names: self.metric_names@.map_values(|name: String| name@),
            factor: self.factor,
            unit: crate::column::text_cell(self.unit),
        }
    }
}

/// The contents of several rules.
pub open spec fn rule_views(rules: Seq<MetricScaleRule>) -> Seq<RuleView> {
    rules.map_values(|rule: MetricScaleRule| rule@)
}

/// Counts describing what a scaling pass changed.
#[derive(Clone, Copy, PartialEq, Eq, Structural, Debug)]
pub struct MetricScaleStats {
    /// Metrics matched by a rule and scaled.
    pub metrics_scaled: u64,
    /// Data point rows whose values were multiplied.
    pub data_points_scaled: u64,
    /// Metrics matched by a rule but left untouched because their type cannot be
    /// scaled by a constant factor.
    pub metrics_unsupported: u64,
}

impl Default for MetricScaleStats {
    fn default() -> (r: MetricScaleStats)
        ensures
            r == (MetricScaleStats {
                metrics_scaled: 0,
                data_points_scaled: 0,
                metrics_unsupported: 0,
            }),
    {
        MetricScaleStats { metrics_scaled: 0, data_points_scaled: 0, metrics_unsupported: 0 }
    }
}

/// Metric types whose data point values are a plain magnitude a factor can scale.
pub open spec fn scalable(metric_type: u8) -> bool {
    match MetricType::decoded(metric_type) {
        Some(MetricType::Gauge) => true,
        Some(MetricType::Sum) => true,
        Some(MetricType::Histogram) => true,
        Some(MetricType::Summary) => true,
        _ => false,
    }
}

/// Metric types whose data point values are a plain magnitude a factor can scale.
pub fn is_scalable(metric_type: u8) -> (r: bool)
    ensures
        r == scalable(metric_type),
{
    match MetricType::from_code(metric_type) {
        Some(MetricType::Gauge) => true,
        Some(MetricType::Sum) => true,
        Some(MetricType::Histogram) => true,
        Some(MetricType::Summary) => true,
        _ => false,
    }
}

/// The first rule from `from` on that names a metric.
pub open spec fn first_rule(rules: Seq<RuleView>, name: Seq<char>, from: int) -> Option<int>
    decreases rules.len() - from,
{
    if from < 0 || from >= rules.len() {
        None
    } else if rules[from].metric_names.contains(name) {
        Some(from)
    } else {
        first_rule(rules, name, from + 1)
    }
}

/// The columns of the root batch that select what is scaled.
pub struct RootView {
    /// Identifier of each metric.
    pub ids: Seq<Slot<u16>>,
    /// Shape of each metric's data.
    pub types: Seq<Slot<u8>>,
    /// Name of each metric.
    pub names: Seq<Option<Seq<char>>>,
}

/// Reads the root batch, or says which column is wrong first.
pub open spec fn root_columns(root: BatchView) -> Result<RootView, Error> {
    match root.required_u16(ID) {
        Err(e) => Err(e),
        Ok(ids) => match root.required_u8(METRIC_TYPE) {
            Err(e) => Err(e),
            Ok(types) => match root.required_text(NAME) {
                Err(e) => Err(e),
                Ok(names) => Ok(RootView { ids, types, names }),
            },
        },
    }
}

/// What the rules say of one metric.
pub enum RowMatch {
    /// No rule names it.
    Unnamed,
    /// A rule names it, but its type cannot be scaled.
    Unsupported,
    /// The rule at this position scales it.
    Scaled(int),
}

impl RootView {
    /// What the rules say of the metric in a row.
    pub open spec fn row_match(self, rules: Seq<RuleView>, row: int) -> RowMatch {
        match self.names[row] {
            None => RowMatch::Unnamed,
            Some(name) => match first_rule(rules, name, 0) {
                None => RowMatch::Unnamed,
                Some(rule) => if scalable(self.types[row].value) {
                    RowMatch::Scaled(rule)
                } else {
                    RowMatch::Unsupported
                },
            },
        }
    }

    /// The factor for each metric identifier, as the first `rows` rows set it. No data point
    /// belongs to a metric without identifier, so such a metric sets none.
    pub open spec fn factors(self, rules: Seq<RuleView>, rows: nat) -> Map<u16, Double>
        decreases rows,
    {
        if rows == 0 {
            Map::empty()
        } else {
            let before = self.factors(rules, (rows - 1) as nat);
            match self.row_match(rules, rows - 1) {
                RowMatch::Scaled(rule) => match self.ids[rows - 1].cell() {
                    Some(id) => before.insert(id, rules[rule].factor),
                    None => before,
                },
                _ => before,
            }
        }
    }

    /// The replacement unit of the metric in a row.
    pub open spec fn unit(self, rules: Seq<RuleView>, row: int) -> Option<Seq<char>> {
        match self.row_match(rules, row) {
            RowMatch::Scaled(rule) => rules[rule].unit,
            _ => None,
        }
    }

    /// The replacement unit of each metric.
    pub open spec fn units(self, rules: Seq<RuleView>) -> Seq<Option<Seq<char>>> {
        Seq::new(self.names.len(), |row: int| self.unit(rules, row))
    }

    /// How many of the first `rows` metrics are scaled.
    pub open spec fn scaled(self, rules: Seq<RuleView>, rows: nat) -> nat
        decreases rows,
    {
        if rows == 0 {
            0
        } else {
            self.scaled(rules, (rows - 1) as nat) + if self.row_match(rules, rows - 1) is Scaled {
                1nat
            } else {
                0
            }
        }
    }

    /// How many of the first `rows` metrics are named but cannot be scaled.
    pub open spec fn unsupported(self, rules: Seq<RuleView>, rows: nat) -> nat
        decreases rows,
    {
        if rows == 0 {
            0
        } else {
            self.unsupported(rules, (rows - 1) as nat) + if self.row_match(rules, rows
                - 1) is Unsupported {
                1nat
            } else {
                0
            }
        }
    }
}

/// The counts are no larger than the number of rows.
proof fn lemma_counts_bounded(root: RootView, rules: Seq<RuleView>, rows: nat)
    ensures
        root.scaled(rules, rows) + root.unsupported(rules, rows) <= rows,
    decreases rows,
{
    if rows > 0 {
        lemma_counts_bounded(root, rules, (rows - 1) as nat);
    }
}

/// The counts grow with the number of rows.
proof fn lemma_counts_grow(root: RootView, rules: Seq<RuleView>, rows: nat, more: nat)
    requires
        rows <= more,
    ensures
        root.scaled(rules, rows) <= root.scaled(rules, more),
        root.unsupported(rules, rows) <= root.unsupported(rules, more),
    decreases more,
{
    if rows < more {
        lemma_counts_grow(root, rules, rows, (more - 1) as nat);
    }
}

/// Whether a rule names a metric.
fn names_metric(rule: &MetricScaleRule, name: &String) -> (r: bool)
    ensures
        r == rule@.metric_names.contains(name@),
{
    let ghost names = rule@.metric_names;
    let mut i: usize = 0;
    while i < rule.metric_names.len()
        invariant
            i <= rule.metric_names@.len(),
            names == rule@.metric_names,
            forall|k: int| 0 <= k < i ==> #[trigger] names[k] != name@,
        decreases rule.metric_names@.len() - i,
    {
        if rule.metric_names[i] == *name {
            assert(names[i as int] == name@);
            return true;
        }
        i = i + 1;
    }
    false
}

/// The first rule that names a metric.
fn find_rule(rules: &Vec<MetricScaleRule>, name: &String) -> (r: Option<usize>)
    ensures
        match r {
            Some(i) => first_rule(rule_views(rules@), name@, 0) == Some(i as int) && i
                < rules@.len(),
            None => first_rule(rule_views(rules@), name@, 0) is None,
        },
{
    let mut i: usize = 0;
    while i < rules.len()
        invariant
            i <= rules@.len(),
            first_rule(rule_views(rules@), name@, 0) == first_rule(
                rule_views(rules@),
                name@,
                i as int,
            ),
        decreases rules@.len() - i,
    {
        if names_metric(&rules[i], name) {
            return Some(i);
        }
        i = i + 1;
    }
    None
}

/// Which metrics to scale, by how much, and what unit they end up with.
pub struct ScalePlan {
    /// The factor for each metric identifier.
    pub factor_by_metric_id: HashMap<u16, Double>,
    /// Replacement unit per root row, `None` where the row keeps its unit.
    pub unit_by_row: Vec<Option<String>>,
}

impl ScalePlan {
    /// Selects the metrics of a root batch that the rules name.
    pub fn build(
        root: &RecordBatch,
        rules: &Vec<MetricScaleRule>,
        stats: &mut MetricScaleStats,
    ) -> (r: Result<ScalePlan, Error>)
        requires
            root@.wf(),
            root_columns(root@) matches Ok(columns) ==> old(stats).metrics_scaled
                + columns.scaled(rule_views(rules@), root@.rows) <= u64::MAX && old(
                stats,
            ).metrics_unsupported + columns.unsupported(rule_views(rules@), root@.rows)
                <= u64::MAX,
        ensures
            match root_columns(root@) {
                Ok(columns) => {
                    let views = rule_views(rules@);
                    &&& r matches Ok(plan)
                    &&& plan.factor_by_metric_id@ == columns.factors(views, root@.rows)
                    &&& crate::column::text_cells(plan.unit_by_row@) == columns.units(views)
                    &&& columns.names.len() == root@.rows
                    &&& final(stats).metrics_scaled == old(stats).metrics_scaled + columns.scaled(
                        views,
                        root@.rows,
                    )
                    &&& final(stats).metrics_unsupported == old(stats).metrics_unsupported
                        + columns.unsupported(views, root@.rows)
                    &&& final(stats).data_points_scaled == old(stats).data_points_scaled
                },
                Err(e) => r is Err && r->Err_0 == e && *final(stats) == *old(stats),
            },
    {
        broadcast use vstd::std_specs::hash::group_hash_axioms;

        let ids = match root.get_u16_array(ID) {
            Ok(v) => v,
            Err(e) => return Err(e),
        };
        let types = match root.get_u8_array(METRIC_TYPE) {
            Ok(v) => v,
            Err(e) => return Err(e),
        };
        let name_column = match root.get_required_array(NAME) {
            Ok(column) => column,
            Err(e) => return Err(e),
        };
        let names = match StringArrayAccessor::try_new(name_column) {
            Ok(names) => names,
            Err(e) => return Err(e),
        };
        let ghost columns = RootView { ids: ids@, types: types@, names: names.texts() };
        let ghost views = rule_views(rules@);
        let rows = root.num_rows();

        let mut factor_by_metric_id: HashMap<u16, Double> = HashMap::new();
        let mut unit_by_row: Vec<Option<String>> = Vec::new();
        let mut row: usize = 0;
        while row < rows
            invariant
                row <= rows,
                rows == root@.rows,
                ids@.len() == rows,
                types@.len() == rows,
                names.wf(),
                names.texts().len() == rows,
                columns == (RootView { ids: ids@, types: types@, names: names.texts() }),
                views == rule_views(rules@),
                old(stats).metrics_scaled + columns.scaled(views, rows as nat) <= u64::MAX,
                old(stats).metrics_unsupported + columns.unsupported(views, rows as nat)
                    <= u64::MAX,
                factor_by_metric_id@ == columns.factors(views, row as nat),
                unit_by_row@.len() == row,
                forall|k: int|
                    0 <= k < row ==> crate::column::text_cell(#[trigger] unit_by_row@[k])
                        == columns.unit(views, k),
                stats.metrics_scaled == old(stats).metrics_scaled + columns.scaled(
                    views,
                    row as nat,
                ),
                stats.metrics_unsupported == old(stats).metrics_unsupported + columns.unsupported(
                    views,
                    row as nat,
                ),
                stats.data_points_scaled == old(stats).data_points_scaled,
            decreases rows - row,
        {
            proof {
                lemma_counts_grow(columns, views, (row + 1) as nat, rows as nat);
            }
            let mut unit: Option<String> = None;
            if let Some(name) = names.value_at(row) {
                if let Some(rule) = find_rule(rules, name) {
                    assert(views[rule as int] == rules@[rule as int]@);
                    if is_scalable(types[row].value) {
                        assert(columns.row_match(views, row as int) == RowMatch::Scaled(
                            rule as int,
                        ));
                        if let Some(id) = ids[row].get() {
                            let _ = factor_by_metric_id.insert(id, rules[rule].factor);
                        }
                        unit = crate::column::copy_text(&rules[rule].unit);
                        stats.metrics_scaled = stats.metrics_scaled + 1;
                    } else {
                        stats.metrics_unsupported = stats.metrics_unsupported + 1;
                    }
                }
            }
            unit_by_row.push(unit);
            row = row + 1;
        }
        assert(crate::column::text_cells(unit_by_row@) =~= columns.units(views));
        Ok(ScalePlan { factor_by_metric_id, unit_by_row })
    }
}

/// The factor for each data point row, keyed by its parent metric.
pub open spec fn factors_of_rows(
    factors: Map<u16, Double>,
    parents: Seq<Slot<u16>>,
) -> Seq<Option<Double>> {
    Seq::new(
        parents.len(),
        |row: int|
            match parents[row].cell() {
                Some(id) => if factors.contains_key(id) {
                    Some(factors[id])
                } else {
                    None
                },
                None => None,
            },
    )
}

/// How many rows have a factor.
pub open spec fn rows_with_factor(row_factors: Seq<Option<Double>>) -> nat
    decreases row_factors.len(),
{
    if row_factors.len() == 0 {
        0
    } else {
        rows_with_factor(row_factors.drop_last()) + if row_factors.last() is Some {
            1nat
        } else {
            0
        }
    }
}

/// Counts the rows that have a factor.
fn count_scaled_rows(row_factors: &Vec<Option<Double>>) -> (r: u64)
    requires
        row_factors@.len() <= u64::MAX,
    ensures
        r == rows_with_factor(row_factors@),
        r <= row_factors@.len(),
{
    let mut count: u64 = 0;
    let mut i: usize = 0;
    while i < row_factors.len()
        invariant
            i <= row_factors@.len(),
            row_factors@.len() <= u64::MAX,
            count == rows_with_factor(row_factors@.take(i as int)),
            count <= i,
        decreases row_factors@.len() - i,
    {
        assert(row_factors@.take(i + 1).drop_last() == row_factors@.take(i as int));
        if row_factors[i].is_some() {
            count = count + 1;
        }
        i = i + 1;
    }
    assert(row_factors@.take(i as int) == row_factors@);
    count
}

/// The units of all rows: the replacement where there is one, else what is there.
pub open spec fn merged_units(
    units: Seq<Option<Seq<char>>>,
    existing: Option<Seq<Option<Seq<char>>>>,
) -> Seq<Option<Seq<char>>> {
    Seq::new(
        units.len(),
        |row: int|
            match units[row] {
                Some(unit) => Some(unit),
                None => match existing {
                    Some(texts) => texts[row],
                    None => None,
                },
            },
    )
}

/// The field of the unit column.
pub open spec fn unit_field() -> FieldView {
    FieldView { name: UNIT@, nullable: true }
}

/// A column of units.
pub open spec fn unit_column(units: Seq<Option<Seq<char>>>) -> ColumnView {
    ColumnView::Leaf(LeafView::Plain(ScalarsView::Utf8(units)))
}

/// The root batch with its units restated, or why its unit column cannot be read.
pub open spec fn restated(root: BatchView, units: Seq<Option<Seq<char>>>) -> Result<
    BatchView,
    Error,
> {
    if forall|row: int| 0 <= row < units.len() ==> (#[trigger] units[row]) is None {
        Ok(root)
    } else {
        match root.index_of(UNIT@) {
            Some(i) => match crate::records::column_text(root.columns[i]) {
                Ok(texts) => Ok(
                    BatchView {
                        fields: root.fields.update(i, unit_field()),
                        columns: root.columns.update(
                            i,
                            unit_column(merged_units(units, Some(texts))),
                        ),
                        rows: root.rows,
                    },
                ),
                Err(e) => Err(e),
            },
            None => Ok(
                BatchView {
                    fields: root.fields.push(unit_field()),
                    columns: root.columns.push(unit_column(merged_units(units, None))),
                    rows: root.rows,
                },
            ),
        }
    }
}

impl ScalePlan {
    /// Returns the factor to apply to each data point row, keyed by its parent metric.
    pub fn row_factors(&self, data_points: &RecordBatch) -> (r: Result<Vec<Option<Double>>, Error>)
        requires
            data_points@.wf(),
        ensures
            match data_points@.required_u16(PARENT_ID) {
                Ok(parents) => r is Ok && r->Ok_0@ == factors_of_rows(
                    self.factor_by_metric_id@,
                    parents,
                ) && r->Ok_0@.len() == data_points@.rows,
                Err(e) => r is Err && r->Err_0 == e,
            },
    {
        broadcast use vstd::std_specs::hash::group_hash_axioms;

        let parents = match data_points.get_u16_array(PARENT_ID) {
            Ok(v) => v,
            Err(e) => return Err(e),
        };
        let ghost wanted = factors_of_rows(self.factor_by_metric_id@, parents@);
        let mut out: Vec<Option<Double>> = Vec::new();
        let mut row: usize = 0;
        while row < parents.len()
            invariant
                row <= parents@.len(),
                wanted == factors_of_rows(self.factor_by_metric_id@, parents@),
                out@ == wanted.take(row as int),
            decreases parents@.len() - row,
        {
            let factor = match parents[row].get() {
                Some(id) => match self.factor_by_metric_id.get(&id) {
                    Some(factor) => Some(*factor),
                    None => None,
                },
                None => None,
            };
            assert(factor == wanted[row as int]);
            out.push(factor);
            row = row + 1;
            assert(out@ =~= wanted.take(row as int));
        }
        assert(wanted.take(row as int) == wanted);
        Ok(out)
    }

    /// Whether no row gets a replacement unit.
    fn keeps_units(&self) -> (r: bool)
        ensures
            r == (forall|row: int|
                0 <= row < self.unit_by_row@.len() ==> (#[trigger] crate::column::text_cells(
                    self.unit_by_row@,
                )[row]) is None),
    {
        let ghost units = crate::column::text_cells(self.unit_by_row@);
        let mut row: usize = 0;
        while row < self.unit_by_row.len()
            invariant
                row <= self.unit_by_row@.len(),
                units == crate::column::text_cells(self.unit_by_row@),
                forall|k: int| 0 <= k < row ==> (#[trigger] units[k]) is None,
            decreases self.unit_by_row@.len() - row,
        {
            assert(units[row as int] == crate::column::text_cell(self.unit_by_row@[row as int]));
            if self.unit_by_row[row].is_some() {
                return false;
            }
            row = row + 1;
        }
        true
    }

    /// The units of all rows: the replacement where there is one, else what is there.
    fn merge_units(&self, existing: Option<StringArrayAccessor>) -> (r: Vec<Option<String>>)
        requires
            existing matches Some(accessor) ==> accessor.wf() && accessor.texts().len()
                == self.unit_by_row@.len(),
        ensures
            crate::column::text_cells(r@) == merged_units(
                crate::column::text_cells(self.unit_by_row@),
                match existing {
                    Some(accessor) => Some(accessor.texts()),
                    None => None,
                },
            ),
    {
        let ghost texts = match existing {
            Some(accessor) => Some(accessor.texts()),
            None => None,
        };
        let ghost wanted = merged_units(crate::column::text_cells(self.unit_by_row@), texts);
        let mut out: Vec<Option<String>> = Vec::new();
        let mut row: usize = 0;
        while row < self.unit_by_row.len()
            invariant
                row <= self.unit_by_row@.len(),
                existing matches Some(accessor) ==> accessor.wf() && accessor.texts().len()
                    == self.unit_by_row@.len(),
                texts == (match existing {
                    Some(accessor) => Some(accessor.texts()),
                    None => None,
                }),
                wanted == merged_units(crate::column::text_cells(self.unit_by_row@), texts),
                out@.len() == row,
                forall|k: int|
                    0 <= k < row ==> crate::column::text_cell(#[trigger] out@[k]) == wanted[k],
            decreases self.unit_by_row@.len() - row,
        {
            let unit = match &self.unit_by_row[row] {
                Some(unit) => Some(unit.clone()),
                None => match &existing {
                    Some(accessor) => match accessor.value_at(row) {
                        Some(text) => Some(text.clone()),
                        None => None,
                    },
                    None => None,
                },
            };
            assert(crate::column::text_cell(unit) == wanted[row as int]);
            out.push(unit);
            row = row + 1;
        }
        assert(crate::column::text_cells(out@) =~= wanted);
        out
    }

    /// Rewrites the unit column so a scaled metric never keeps its old unit.
    pub fn apply_units(&self, root: &RecordBatch) -> (r: Result<RecordBatch, Error>)
        requires
            root@.wf(),
            self.unit_by_row@.len() == root@.rows,
            restated(root@, crate::column::text_cells(self.unit_by_row@)) matches Ok(batch)
                ==> batch.wf(),
        ensures
            match restated(root@, crate::column::text_cells(self.unit_by_row@)) {
                Ok(batch) => r is Ok && r->Ok_0@ == batch,
                Err(e) => r is Err && r->Err_0 == e,
            },
    {
        let ghost units = crate::column::text_cells(self.unit_by_row@);
        if self.keeps_units() {
            return Ok(root.duplicate());
        }
        let mut fields = crate::column::copy_fields(&root.fields);
        let mut columns = crate::records::copy_columns(&root.columns);
        match crate::column::position_of(&root.fields, UNIT) {
            Some(i) => {
                assert(root@.columns[i as int] == root.columns@[i as int]@);
                let existing = match StringArrayAccessor::try_new(&root.columns[i]) {
                    Ok(accessor) => accessor,
                    Err(e) => return Err(e),
                };
                let merged = self.merge_units(Some(existing));
                let ghost before = fields@;
                let ghost columns_before = columns@;
                fields.set(i, Field::new(UNIT, true));
                columns.set(i, Column::plain(Scalars::Utf8(merged)));
                assert(crate::column::field_views(fields@) =~= crate::column::field_views(
                    before,
                ).update(i as int, unit_field()));
                assert(crate::records::column_views(columns@) =~= crate::records::column_views(
                    columns_before,
                ).update(i as int, columns@[i as int]@));
            },
            None => {
                let merged = self.merge_units(None);
                let ghost before = fields@;
                let ghost columns_before = columns@;
                fields.push(Field::new(UNIT, true));
                columns.push(Column::plain(Scalars::Utf8(merged)));
                assert(crate::column::field_views(fields@) =~= crate::column::field_views(
                    before,
                ).push(unit_field()));
                assert(crate::records::column_views(columns@) =~= crate::records::column_views(
                    columns_before,
                ).push(columns@.last()@));
            },
        }
        Ok(RecordBatch { fields, columns, rows: root.rows })
    }
}

/// How values are multiplied: which results the caller's functions may give.
pub struct Arithmetic {
    /// A double times a factor may give a double.
    pub double: spec_fn(Double, Double, Double) -> bool,
    /// An integer times a factor may give an integer.
    pub int: spec_fn(i64, Double, i64) -> bool,
}

/// The arithmetic that two functions carry out.
pub open spec fn arithmetic<D: Fn(Double, Double) -> Double, I: Fn(i64, Double) -> i64>(
    scale_double: D,
    scale_int: I,
) -> Arithmetic {
    Arithmetic {
        double: |value: Double, factor: Double, result: Double|
            call_ensures(scale_double, (value, factor), result),
        int: |value: i64, factor: Double, result: i64|
            call_ensures(scale_int, (value, factor), result),
    }
}

/// Both functions accept every value and every factor.
pub open spec fn accepts_all<D: Fn(Double, Double) -> Double, I: Fn(i64, Double) -> i64>(
    scale_double: D,
    scale_int: I,
) -> bool {
    &&& forall|value: Double, factor: Double| call_requires(scale_double, (value, factor))
    &&& forall|value: i64, factor: Double| call_requires(scale_int, (value, factor))
}

impl Arithmetic {
    /// A cell multiplied by its factor: nulls, and cells without factor, stay.
    pub open spec fn double_cell(
        self,
        value: Option<Double>,
        factor: Option<Double>,
        result: Option<Double>,
    ) -> bool {
        match (value, factor) {
            (Some(v), Some(f)) => result is Some && (self.double)(v, f, result->0),
            _ => result == value,
        }
    }

    /// A cell multiplied by its factor: nulls, and cells without factor, stay.
    pub open spec fn int_cell(
        self,
        value: Option<i64>,
        factor: Option<Double>,
        result: Option<i64>,
    ) -> bool {
        match (value, factor) {
            (Some(v), Some(f)) => result is Some && (self.int)(v, f, result->0),
            _ => result == value,
        }
    }

    /// Cells multiplied one by one.
    pub open spec fn double_cells(
        self,
        values: Seq<Option<Double>>,
        factors: Seq<Option<Double>>,
        results: Seq<Option<Double>>,
    ) -> bool {
        &&& results.len() == values.len()
        &&& forall|i: int|
            0 <= i < values.len() ==> self.double_cell(values[i], factors[i], #[trigger] results[i])
    }

    /// Cells multiplied one by one.
    pub open spec fn int_cells(
        self,
        values: Seq<Option<i64>>,
        factors: Seq<Option<Double>>,
        results: Seq<Option<i64>>,
    ) -> bool {
        &&& results.len() == values.len()
        &&& forall|i: int|
            0 <= i < values.len() ==> self.int_cell(values[i], factors[i], #[trigger] results[i])
    }
}

/// The factor for an item of a list column, as the first `rows` rows give it: that of
/// the row whose list the item is in, if that row is not null.
pub open spec fn item_factor(
    list: ListView,
    row_factors: Seq<Option<Double>>,
    rows: nat,
    item: int,
) -> Option<Double>
    decreases rows,
{
    if rows == 0 {
        None
    } else if list.offsets[rows - 1] <= item < list.offsets[rows as int] {
        if list.validity[rows - 1] {
            row_factors[rows - 1]
        } else {
            None
        }
    } else {
        item_factor(list, row_factors, (rows - 1) as nat, item)
    }
}

/// The factor for each item of a list column.
pub open spec fn item_factors(list: ListView, row_factors: Seq<Option<Double>>) -> Seq<
    Option<Double>,
> {
    Seq::new(
        list.items.len(),
        |item: int| item_factor(list, row_factors, list.len(), item),
    )
}

/// What a column of a data points batch holds, told by its name.
#[derive(Clone, Copy, PartialEq, Eq, Structural, Debug)]
pub enum ValueColumn {
    /// Integer values.
    Int,
    /// Double values.
    Double,
    /// Lists of doubles.
    DoubleList,
    /// Lists of quantiles with their value.
    QuantileList,
    /// Nothing that a factor scales.
    Untouched,
}

/// What a column of a given name holds. `sum`, `min`, `max` and `double_value` are all
/// plain magnitudes.
pub open spec fn value_column(name: Seq<char>) -> ValueColumn {
    if name == INT_VALUE@ {
        ValueColumn::Int
    } else if name == DOUBLE_VALUE@ || name == HISTOGRAM_SUM@ || name == HISTOGRAM_MIN@ || name
        == HISTOGRAM_MAX@ {
        ValueColumn::Double
    } else if name == HISTOGRAM_EXPLICIT_BOUNDS@ {
        ValueColumn::DoubleList
    } else if name == SUMMARY_QUANTILE_VALUES@ {
        ValueColumn::QuantileList
    } else {
        ValueColumn::Untouched
    }
}

/// A column has another type than the one it is read as.
pub open spec fn mismatch(name: &'static str, expect: DataType, actual: DataType) -> Error {
    Error::ColumnDataTypeMismatch { name, expect, actual }
}

/// Why a column cannot be read as lists of doubles.
pub open spec fn double_list_error(column: ColumnView) -> Option<Error> {
    match column {
        ColumnView::List(list) => match list.items {
            ItemsView::Leaf(LeafView::Plain(ScalarsView::Float64(_))) => None,
            items => Some(
                mismatch(
                    HISTOGRAM_EXPLICIT_BOUNDS,
                    DataType::Scalar(ScalarType::Float64),
                    items.data_type(),
                ),
            ),
        },
        _ => Some(
            mismatch(
                HISTOGRAM_EXPLICIT_BOUNDS,
                DataType::List(ItemType::Scalar(ScalarType::Float64)),
                column.data_type(),
            ),
        ),
    }
}

/// Why a column cannot be read as lists of quantiles.
pub open spec fn quantile_list_error(column: ColumnView) -> Option<Error> {
    match column {
        ColumnView::List(list) => match list.items {
            ItemsView::Struct(quantiles) => match quantiles.child(SUMMARY_VALUE@) {
                None => Some(Error::ColumnNotFound { name: SUMMARY_VALUE }),
                Some(LeafView::Plain(ScalarsView::Float64(_))) => None,
                Some(leaf) => Some(
                    mismatch(
                        SUMMARY_VALUE,
                        DataType::Scalar(ScalarType::Float64),
                        leaf.data_type(),
                    ),
                ),
            },
            items => Some(
                mismatch(SUMMARY_QUANTILE_VALUES, DataType::Struct, items.data_type()),
            ),
        },
        _ => Some(
            mismatch(
                SUMMARY_QUANTILE_VALUES,
                DataType::List(ItemType::Struct),
                column.data_type(),
            ),
        ),
    }
}

/// Why a column of a given name cannot be scaled.
pub open spec fn column_error(name: Seq<char>, column: ColumnView) -> Option<Error> {
    match value_column(name) {
        ValueColumn::Int => match column {
            ColumnView::Leaf(LeafView::Plain(ScalarsView::Int64(_))) => None,
            _ => Some(
                mismatch(INT_VALUE, DataType::Scalar(ScalarType::Int64), column.data_type()),
            ),
        },
        ValueColumn::Double => match column {
            ColumnView::Leaf(LeafView::Plain(ScalarsView::Float64(_))) => None,
            _ => Some(
                mismatch(DOUBLE_COLUMN, DataType::Scalar(ScalarType::Float64), column.data_type()),
            ),
        },
        ValueColumn::DoubleList => double_list_error(column),
        ValueColumn::QuantileList => quantile_list_error(column),
        ValueColumn::Untouched => None,
    }
}

/// A list column with other items; its offsets and its nulls are untouched.
pub open spec fn with_items(list: ListView, items: ItemsView) -> ColumnView {
    ColumnView::List(
        ListView {
            offsets: list.offsets,
            items,
            item_nullable: list.item_nullable,
            validity: list.validity,
        },
    )
}

impl Arithmetic {
    /// A plain column of integers, multiplied row by row.
    pub open spec fn int_column(
        self,
        column: ColumnView,
        row_factors: Seq<Option<Double>>,
        result: ColumnView,
    ) -> bool {
        match column {
            ColumnView::Leaf(LeafView::Plain(ScalarsView::Int64(values))) => match result {
                ColumnView::Leaf(LeafView::Plain(ScalarsView::Int64(results))) => self.int_cells(
                    values,
                    row_factors,
                    results,
                ),
                _ => false,
            },
            _ => false,
        }
    }

    /// A plain column of doubles, multiplied row by row.
    pub open spec fn double_column(
        self,
        column: ColumnView,
        row_factors: Seq<Option<Double>>,
        result: ColumnView,
    ) -> bool {
        match column {
            ColumnView::Leaf(LeafView::Plain(ScalarsView::Float64(values))) => match result {
                ColumnView::Leaf(LeafView::Plain(ScalarsView::Float64(results))) =>
                    self.double_cells(values, row_factors, results),
                _ => false,
            },
            _ => false,
        }
    }

    /// A column of lists of doubles, each list multiplied by its row's factor.
    pub open spec fn double_list_column(
        self,
        column: ColumnView,
        row_factors: Seq<Option<Double>>,
        result: ColumnView,
    ) -> bool {
        match column {
            ColumnView::List(list) => match list.items {
                ItemsView::Leaf(LeafView::Plain(ScalarsView::Float64(values))) =>
                    exists|results: Seq<Option<Double>>| #[trigger]
                        self.double_cells(values, item_factors(list, row_factors), results)
                            && result == with_items(
                            list,
                            ItemsView::Leaf(LeafView::Plain(ScalarsView::Float64(results))),
                        ),
                _ => false,
            },
            _ => false,
        }
    }

    /// A column of lists of quantiles, the value at each quantile multiplied by its row's
    /// factor.
    pub open spec fn quantile_list_column(
        self,
        column: ColumnView,
        row_factors: Seq<Option<Double>>,
        result: ColumnView,
    ) -> bool {
        match column {
            ColumnView::List(list) => match list.items {
                ItemsView::Struct(quantiles) => match crate::column::first_named(
                    quantiles.fields,
                    SUMMARY_VALUE@,
                    0,
                ) {
                    Some(i) => match quantiles.children[i] {
                        LeafView::Plain(ScalarsView::Float64(values)) =>
                            exists|results: Seq<Option<Double>>| #[trigger]
                                self.double_cells(values, item_factors(list, row_factors), results)
                                    && result == with_items(
                                    list,
                                    ItemsView::Struct(
                                        StructView {
                                            fields: quantiles.fields,
                                            children: quantiles.children.update(
                                                i,
                                                LeafView::Plain(ScalarsView::Float64(results)),
                                            ),
                                            validity: quantiles.validity,
                                        },
                                    ),
                                ),
                        _ => false,
                    },
                    None => false,
                },
                _ => false,
            },
            _ => false,
        }
    }

    /// A column of a given name, scaled as that name asks for.
    pub open spec fn column(
        self,
        name: Seq<char>,
        column: ColumnView,
        row_factors: Seq<Option<Double>>,
        result: ColumnView,
    ) -> bool {
        match value_column(name) {
            ValueColumn::Int => self.int_column(column, row_factors, result),
            ValueColumn::Double => self.double_column(column, row_factors, result),
            ValueColumn::DoubleList => self.double_list_column(column, row_factors, result),
            ValueColumn::QuantileList => self.quantile_list_column(column, row_factors, result),
            ValueColumn::Untouched => result == column,
        }
    }

    /// A data points batch with every value column scaled.
    pub open spec fn batch(
        self,
        data_points: BatchView,
        row_factors: Seq<Option<Double>>,
        result: BatchView,
    ) -> bool {
        &&& result.fields == data_points.fields
        &&& result.rows == data_points.rows
        &&& result.columns.len() == data_points.columns.len()
        &&& forall|i: int|
            0 <= i < data_points.columns.len() ==> self.column(
                data_points.fields[i].name,
                data_points.columns[i],
                row_factors,
                #[trigger] result.columns[i],
            )
    }
}

/// Why a data points batch cannot be scaled: the first column that is wrong.
pub open spec fn batch_error(data_points: BatchView, from: int) -> Option<Error>
    decreases data_points.columns.len() - from,
{
    if from < 0 || from >= data_points.columns.len() {
        None
    } else {
        match column_error(data_points.fields[from].name, data_points.columns[from]) {
            Some(e) => Some(e),
            None => batch_error(data_points, from + 1),
        }
    }
}

/// Columns of numbers always fit their buffer.
proof fn lemma_numbers_fit(scalars: ScalarsView)
    requires
        scalars is Int64 || scalars is Float64,
    ensures
        scalars.wf(),
{
    crate::column::lemma_no_bytes(scalars.cells());
}

/// Items from the end of a row's list on are in no list up to that row.
proof fn lemma_item_beyond(
    list: ListView,
    row_factors: Seq<Option<Double>>,
    rows: nat,
    item: int,
)
    requires
        list.wf(),
        rows <= list.len(),
        list.offsets[rows as int] <= item,
    ensures
        item_factor(list, row_factors, rows, item) is None,
    decreases rows,
{
    if rows > 0 {
        assert(list.offsets[rows - 1] <= list.offsets[rows as int]);
        lemma_item_beyond(list, row_factors, (rows - 1) as nat, item);
    }
}

/// Multiplies a double cell by its factor.
fn scale_double_cell<D: Fn(Double, Double) -> Double>(
    value: Option<Double>,
    factor: Option<Double>,
    scale_double: &D,
) -> (r: Option<Double>)
    requires
        forall|v: Double, f: Double| call_requires(*scale_double, (v, f)),
    ensures
        match (value, factor) {
            (Some(v), Some(f)) => r is Some && call_ensures(*scale_double, (v, f), r->0),
            _ => r == value,
        },
{
    match value {
        Some(v) => match factor {
            Some(f) => Some(scale_double(v, f)),
            None => Some(v),
        },
        None => None,
    }
}

/// Multiplies a plain column of doubles row by row.
fn scale_double_column<D: Fn(Double, Double) -> Double, I: Fn(i64, Double) -> i64>(
    column: &Column,
    row_factors: &Vec<Option<Double>>,
    scale_double: &D,
    scale_int: &I,
) -> (r: Result<Column, Error>)
    requires
        accepts_all(*scale_double, *scale_int),
        column@.len() == row_factors@.len(),
    ensures
        match column@ {
            ColumnView::Leaf(LeafView::Plain(ScalarsView::Float64(_))) => r is Ok && arithmetic(
                *scale_double,
                *scale_int,
            ).double_column(column@, row_factors@, r->Ok_0@),
            _ => r is Err && r->Err_0 == mismatch(
                DOUBLE_COLUMN,
                DataType::Scalar(ScalarType::Float64),
                column@.data_type(),
            ),
        },
{
    match column {
        Column::Leaf(Leaf::Plain(Scalars::Float64(values))) => {
            let ghost ops = arithmetic(*scale_double, *scale_int);
            let mut out: Vec<Option<Double>> = Vec::new();
            let mut row: usize = 0;
            while row < values.len()
                invariant
                    row <= values@.len(),
                    values@.len() == row_factors@.len(),
                    accepts_all(*scale_double, *scale_int),
                    ops == arithmetic(*scale_double, *scale_int),
                    out@.len() == row,
                    forall|k: int|
                        0 <= k < row ==> ops.double_cell(
                            values@[k],
                            row_factors@[k],
                            #[trigger] out@[k],
                        ),
                decreases values@.len() - row,
            {
                out.push(scale_double_cell(values[row], row_factors[row], scale_double));
                row = row + 1;
            }
            Ok(Column::plain(Scalars::Float64(out)))
        },
        _ => Err(
            Error::ColumnDataTypeMismatch {
                name: DOUBLE_COLUMN,
                expect: DataType::Scalar(ScalarType::Float64),
                actual: column.data_type(),
            },
        ),
    }
}

/// Multiplies a plain column of integers row by row.
fn scale_int_column<D: Fn(Double, Double) -> Double, I: Fn(i64, Double) -> i64>(
    column: &Column,
    row_factors: &Vec<Option<Double>>,
    scale_double: &D,
    scale_int: &I,
) -> (r: Result<Column, Error>)
    requires
        accepts_all(*scale_double, *scale_int),
        column@.len() == row_factors@.len(),
    ensures
        match column@ {
            ColumnView::Leaf(LeafView::Plain(ScalarsView::Int64(_))) => r is Ok && arithmetic(
                *scale_double,
                *scale_int,
            ).int_column(column@, row_factors@, r->Ok_0@),
            _ => r is Err && r->Err_0 == mismatch(
                INT_VALUE,
                DataType::Scalar(ScalarType::Int64),
                column@.data_type(),
            ),
        },
{
    match column {
        Column::Leaf(Leaf::Plain(Scalars::Int64(values))) => {
            let ghost ops = arithmetic(*scale_double, *scale_int);
            let mut out: Vec<Option<i64>> = Vec::new();
            let mut row: usize = 0;
            while row < values.len()
                invariant
                    row <= values@.len(),
                    values@.len() == row_factors@.len(),
                    accepts_all(*scale_double, *scale_int),
                    ops == arithmetic(*scale_double, *scale_int),
                    out@.len() == row,
                    forall|k: int|
                        0 <= k < row ==> ops.int_cell(
                            values@[k],
                            row_factors@[k],
                            #[trigger] out@[k],
                        ),
                decreases values@.len() - row,
            {
                let cell = match values[row] {
                    Some(v) => match row_factors[row] {
                        Some(f) => Some(scale_int(v, f)),
                        None => Some(v),
                    },
                    None => None,
                };
                out.push(cell);
                row = row + 1;
            }
            Ok(Column::plain(Scalars::Int64(out)))
        },
        _ => Err(
            Error::ColumnDataTypeMismatch {
                name: INT_VALUE,
                expect: DataType::Scalar(ScalarType::Int64),
                actual: column.data_type(),
            },
        ),
    }
}

/// Multiplies the child values of each list row by that row's factor, leaving the
/// offsets and nulls of the list untouched.
fn scale_values_by_list_row<D: Fn(Double, Double) -> Double, I: Fn(i64, Double) -> i64>(
    values: &Vec<Option<Double>>,
    list: &ListColumn,
    row_factors: &Vec<Option<Double>>,
    scale_double: &D,
    scale_int: &I,
) -> (r: Vec<Option<Double>>)
    requires
        accepts_all(*scale_double, *scale_int),
        list@.wf(),
        values@.len() == list@.items.len(),
        row_factors@.len() == list@.len(),
    ensures
        arithmetic(*scale_double, *scale_int).double_cells(
            values@,
            item_factors(list@, row_factors@),
            r@,
        ),
{
    let ghost ops = arithmetic(*scale_double, *scale_int);
    let ghost view = list@;
    let mut scaled = crate::column::copy_cells(values);
    let mut row: usize = 0;
    while row < row_factors.len()
        invariant
            row <= row_factors@.len(),
            view == list@,
            view.wf(),
            values@.len() == view.items.len(),
            row_factors@.len() == view.len(),
            accepts_all(*scale_double, *scale_int),
            ops == arithmetic(*scale_double, *scale_int),
            scaled@.len() == values@.len(),
            forall|j: int|
                0 <= j < values@.len() ==> ops.double_cell(
                    values@[j],
                    item_factor(view, row_factors@, row as nat, j),
                    #[trigger] scaled@[j],
                ),
        decreases row_factors@.len() - row,
    {
        let ghost before = scaled@;
        let start = list.offsets[row];
        let end = list.offsets[row + 1];
        proof {
            assert(view.offsets[row as int] <= view.offsets[row + 1]);
            assert(view.offsets[row + 1] <= view.offsets[view.offsets.len() - 1]);
        }
        if let Some(factor) = row_factors[row] {
            if list.validity[row] {
                let mut item: usize = start;
                while item < end
                    invariant
                        start <= item <= end,
                        end <= values@.len(),
                        row < row_factors@.len(),
                        row_factors@[row as int] == Some(factor),
                        view == list@,
                        view.wf(),
                        row_factors@.len() == view.len(),
                        view.validity[row as int],
                        start == view.offsets[row as int],
                        end == view.offsets[row + 1],
                        accepts_all(*scale_double, *scale_int),
                        ops == arithmetic(*scale_double, *scale_int),
                        scaled@.len() == values@.len(),
                        before.len() == values@.len(),
                        forall|j: int|
                            0 <= j < values@.len() ==> ops.double_cell(
                                values@[j],
                                item_factor(view, row_factors@, row as nat, j),
                                #[trigger] before[j],
                            ),
                        forall|j: int|
                            0 <= j < start || item <= j < values@.len() ==> #[trigger] scaled@[j]
                                == before[j],
                        forall|j: int|
                            start <= j < item ==> ops.double_cell(
                                values@[j],
                                Some(factor),
                                #[trigger] scaled@[j],
                            ),
                    decreases end - item,
                {
                    proof {
                        lemma_item_beyond(view, row_factors@, row as nat, item as int);
                        assert(scaled@[item as int] == before[item as int]);
                    }
                    let cell = scale_double_cell(scaled[item], Some(factor), scale_double);
                    scaled.set(item, cell);
                    item = item + 1;
                }
            }
        }
        proof {
            assert forall|j: int| 0 <= j < values@.len() implies ops.double_cell(
                values@[j],
                item_factor(view, row_factors@, (row + 1) as nat, j),
                #[trigger] scaled@[j],
            ) by {
                assert(ops.double_cell(
                    values@[j],
                    item_factor(view, row_factors@, row as nat, j),
                    before[j],
                ));
                if start <= j < end {
                    lemma_item_beyond(view, row_factors@, row as nat, j);
                }
            }
        }
        row = row + 1;
    }
    scaled
}

/// Multiplies the bounds of each histogram by its row's factor.
fn scale_double_list_column<D: Fn(Double, Double) -> Double, I: Fn(i64, Double) -> i64>(
    column: &Column,
    row_factors: &Vec<Option<Double>>,
    scale_double: &D,
    scale_int: &I,
) -> (r: Result<Column, Error>)
    requires
        accepts_all(*scale_double, *scale_int),
        column@.wf(),
        column@.len() == row_factors@.len(),
    ensures
        match double_list_error(column@) {
            None => r is Ok && arithmetic(*scale_double, *scale_int).double_list_column(
                column@,
                row_factors@,
                r->Ok_0@,
            ),
            Some(e) => r is Err && r->Err_0 == e,
        },
{
    let list = match column {
        Column::List(list) => list,
        _ => {
            return Err(
                Error::ColumnDataTypeMismatch {
                    name: HISTOGRAM_EXPLICIT_BOUNDS,
                    expect: DataType::List(ItemType::Scalar(ScalarType::Float64)),
                    actual: column.data_type(),
                },
            );
        },
    };
    let values = match &list.items {
        Items::Leaf(Leaf::Plain(Scalars::Float64(values))) => values,
        items => {
            return Err(
                Error::ColumnDataTypeMismatch {
                    name: HISTOGRAM_EXPLICIT_BOUNDS,
                    expect: DataType::Scalar(ScalarType::Float64),
                    actual: items.data_type(),
                },
            );
        },
    };
    let scaled = scale_values_by_list_row(values, list, row_factors, scale_double, scale_int);
    let ghost results = scaled@;
    assert(arithmetic(*scale_double, *scale_int).double_cells(
        values@,
        item_factors(list@, row_factors@),
        results,
    ));
    Ok(
        Column::List(
            ListColumn {
                offsets: crate::column::copy_cells(&list.offsets),
                items: Items::Leaf(Leaf::Plain(Scalars::Float64(scaled))),
                item_nullable: list.item_nullable,
                validity: crate::column::copy_cells(&list.validity),
            },
        ),
    )
}

/// Multiplies the value at each quantile of a summary by its row's factor.
fn scale_quantile_list_column<D: Fn(Double, Double) -> Double, I: Fn(i64, Double) -> i64>(
    column: &Column,
    row_factors: &Vec<Option<Double>>,
    scale_double: &D,
    scale_int: &I,
) -> (r: Result<Column, Error>)
    requires
        accepts_all(*scale_double, *scale_int),
        column@.wf(),
        column@.len() == row_factors@.len(),
    ensures
        match quantile_list_error(column@) {
            None => r is Ok && arithmetic(*scale_double, *scale_int).quantile_list_column(
                column@,
                row_factors@,
                r->Ok_0@,
            ),
            Some(e) => r is Err && r->Err_0 == e,
        },
{
    let list = match column {
        Column::List(list) => list,
        _ => {
            return Err(
                Error::ColumnDataTypeMismatch {
                    name: SUMMARY_QUANTILE_VALUES,
                    expect: DataType::List(ItemType::Struct),
                    actual: column.data_type(),
                },
            );
        },
    };
    let quantiles = match &list.items {
        Items::Struct(quantiles) => quantiles,
        items => {
            return Err(
                Error::ColumnDataTypeMismatch {
                    name: SUMMARY_QUANTILE_VALUES,
                    expect: DataType::Struct,
                    actual: items.data_type(),
                },
            );
        },
    };
    let value_index = match crate::column::position_of(&quantiles.fields, SUMMARY_VALUE) {
        Some(i) => i,
        None => return Err(Error::ColumnNotFound { name: SUMMARY_VALUE }),
    };
    assert(quantiles@.children[value_index as int] == quantiles.children@[value_index as int]@);
    let values = match &quantiles.children[value_index] {
        Leaf::Plain(Scalars::Float64(values)) => values,
        leaf => {
            return Err(
                Error::ColumnDataTypeMismatch {
                    name: SUMMARY_VALUE,
                    expect: DataType::Scalar(ScalarType::Float64),
                    actual: leaf.data_type(),
                },
            );
        },
    };
    let scaled = scale_values_by_list_row(values, list, row_factors, scale_double, scale_int);
    let ghost results = scaled@;
    assert(arithmetic(*scale_double, *scale_int).double_cells(
        values@,
        item_factors(list@, row_factors@),
        results,
    ));
    let mut children = crate::column::copy_leaves(&quantiles.children);
    let ghost before = children@;
    children.set(value_index, Leaf::Plain(Scalars::Float64(scaled)));
    assert(crate::column::leaf_views(children@) =~= crate::column::leaf_views(before).update(
        value_index as int,
        LeafView::Plain(ScalarsView::Float64(results)),
    ));
    Ok(
        Column::List(
            ListColumn {
                offsets: crate::column::copy_cells(&list.offsets),
                items: Items::Struct(
                    StructColumn {
                        fields: crate::column::copy_fields(&quantiles.fields),
                        children,
                        validity: crate::column::copy_cells(&quantiles.validity),
                    },
                ),
                item_nullable: list.item_nullable,
                validity: crate::column::copy_cells(&list.validity),
            },
        ),
    )
}

/// Tells what a column of a given name holds.
fn classify_column(name: &String) -> (r: ValueColumn)
    ensures
        r == value_column(name@),
{
    if crate::text::is_text(name, INT_VALUE) {
        ValueColumn::Int
    } else if crate::text::is_text(name, DOUBLE_VALUE) || crate::text::is_text(name, HISTOGRAM_SUM)
        || crate::text::is_text(name, HISTOGRAM_MIN) || crate::text::is_text(name, HISTOGRAM_MAX) {
        ValueColumn::Double
    } else if crate::text::is_text(name, HISTOGRAM_EXPLICIT_BOUNDS) {
        ValueColumn::DoubleList
    } else if crate::text::is_text(name, SUMMARY_QUANTILE_VALUES) {
        ValueColumn::QuantileList
    } else {
        ValueColumn::Untouched
    }
}

/// A scaled column is as sound as the column it was made from, and as long.
proof fn lemma_scaled_column_wf(
    ops: Arithmetic,
    name: Seq<char>,
    column: ColumnView,
    row_factors: Seq<Option<Double>>,
    result: ColumnView,
)
    requires
        column.wf(),
        ops.column(name, column, row_factors, result),
    ensures
        result.wf(),
        result.len() == column.len(),
        result.data_type() == column.data_type(),
{
    match value_column(name) {
        ValueColumn::Int => {
            if let ColumnView::Leaf(LeafView::Plain(scalars)) = result {
                lemma_numbers_fit(scalars);
            }
        },
        ValueColumn::Double => {
            if let ColumnView::Leaf(LeafView::Plain(scalars)) = result {
                lemma_numbers_fit(scalars);
            }
        },
        ValueColumn::DoubleList => {
            if let ColumnView::List(list) = result {
                if let ItemsView::Leaf(LeafView::Plain(scalars)) = list.items {
                    lemma_numbers_fit(scalars);
                }
            }
        },
        ValueColumn::QuantileList => {
            if let ColumnView::List(before) = column {
                if let ItemsView::Struct(quantiles) = before.items {
                    crate::column::lemma_first_named(quantiles.fields, SUMMARY_VALUE@, 0);
                    let i = crate::column::first_named(quantiles.fields, SUMMARY_VALUE@, 0)->0;
                    if let ColumnView::List(list) = result {
                        if let ItemsView::Struct(after) = list.items {
                            if let LeafView::Plain(scalars) = after.children[i] {
                                lemma_numbers_fit(scalars);
                            }
                            assert forall|k: int| 0 <= k < after.children.len() implies (
                            #[trigger] after.children[k]).wf() && after.children[k].len()
                                == after.validity.len() by {
                                assert(quantiles.children[k].wf());
                                if k == i {
                                    assert(quantiles.children[i].len()
                                        == quantiles.validity.len());
                                }
                            }
                        }
                    }
                }
            }
        },
        ValueColumn::Untouched => {},
    }
}

/// Multiplies every value column of `data_points` by the per-row factor.
fn scale_data_points<D: Fn(Double, Double) -> Double, I: Fn(i64, Double) -> i64>(
    data_points: &RecordBatch,
    row_factors: &Vec<Option<Double>>,
    scale_double: &D,
    scale_int: &I,
) -> (r: Result<RecordBatch, Error>)
    requires
        accepts_all(*scale_double, *scale_int),
        data_points@.wf(),
        row_factors@.len() == data_points@.rows,
    ensures
        match batch_error(data_points@, 0) {
            None => r is Ok && r->Ok_0@.wf() && arithmetic(*scale_double, *scale_int).batch(
                data_points@,
                row_factors@,
                r->Ok_0@,
            ),
            Some(e) => r is Err && r->Err_0 == e,
        },
{
    let ghost ops = arithmetic(*scale_double, *scale_int);
    let ghost view = data_points@;
    let mut columns: Vec<Column> = Vec::new();
    let mut index: usize = 0;
    while index < data_points.columns.len()
        invariant
            index <= data_points.columns@.len(),
            view == data_points@,
            view.wf(),
            row_factors@.len() == view.rows,
            accepts_all(*scale_double, *scale_int),
            ops == arithmetic(*scale_double, *scale_int),
            batch_error(view, 0) == batch_error(view, index as int),
            columns@.len() == index,
            forall|k: int|
                0 <= k < index ==> ops.column(
                    view.fields[k].name,
                    view.columns[k],
                    row_factors@,
                    (#[trigger] columns@[k])@,
                ),
        decreases data_points.columns@.len() - index,
    {
        let column = &data_points.columns[index];
        assert(view.columns[index as int] == column@);
        assert(view.fields[index as int] == data_points.fields@[index as int]@);
        let scaled = match classify_column(&data_points.fields[index].name) {
            ValueColumn::Int => match scale_int_column(
                column,
                row_factors,
                scale_double,
                scale_int,
            ) {
                Ok(scaled) => scaled,
                Err(e) => return Err(e),
            },
            ValueColumn::Double => match scale_double_column(
                column,
                row_factors,
                scale_double,
                scale_int,
            ) {
                Ok(scaled) => scaled,
                Err(e) => return Err(e),
            },
            ValueColumn::DoubleList => match scale_double_list_column(
                column,
                row_factors,
                scale_double,
                scale_int,
            ) {
                Ok(scaled) => scaled,
                Err(e) => return Err(e),
            },
            ValueColumn::QuantileList => match scale_quantile_list_column(
                column,
                row_factors,
                scale_double,
                scale_int,
            ) {
                Ok(scaled) => scaled,
                Err(e) => return Err(e),
            },
            ValueColumn::Untouched => column.duplicate(),
        };
        columns.push(scaled);
        index = index + 1;
    }
    let scaled = RecordBatch {
        fields: crate::column::copy_fields(&data_points.fields),
        columns,
        rows: data_points.rows,
    };
    proof {
        assert forall|k: int| 0 <= k < view.columns.len() implies (#[trigger] scaled@.columns[k]).wf()
            && scaled@.columns[k].len() == view.rows && ops.column(
            view.fields[k].name,
            view.columns[k],
            row_factors@,
            scaled@.columns[k],
        ) by {
            assert(scaled@.columns[k] == columns@[k]@);
            assert(view.columns[k].wf());
            lemma_scaled_column_wf(
                ops,
                view.fields[k].name,
                view.columns[k],
                row_factors@,
                scaled@.columns[k],
            );
        }
    }
    Ok(scaled)
}

/// Number of data point payloads whose values can be multiplied by a constant factor.
pub const SCALABLE_PAYLOADS: usize = 3;

/// Where a payload comes in the order in which data points are scaled; payloads that hold
/// no scalable data points come nowhere.
pub open spec fn scaling_rank(t: ArrowPayloadType) -> int {
    match t {
        ArrowPayloadType::NumberDataPoints => 0,
        ArrowPayloadType::HistogramDataPoints => 1,
        ArrowPayloadType::SummaryDataPoints => 2,
        _ => SCALABLE_PAYLOADS as int,
    }
}

/// The payload at a place in the order in which data points are scaled.
pub open spec fn scalable_payload(rank: int) -> ArrowPayloadType {
    if rank == 0 {
        ArrowPayloadType::NumberDataPoints
    } else if rank == 1 {
        ArrowPayloadType::HistogramDataPoints
    } else {
        ArrowPayloadType::SummaryDataPoints
    }
}

/// The payload at a place in the order in which data points are scaled.
fn scalable_payload_at(rank: usize) -> (r: ArrowPayloadType)
    requires
        rank < SCALABLE_PAYLOADS,
    ensures
        r == scalable_payload(rank as int),
{
    if rank == 0 {
        ArrowPayloadType::NumberDataPoints
    } else if rank == 1 {
        ArrowPayloadType::HistogramDataPoints
    } else {
        ArrowPayloadType::SummaryDataPoints
    }
}

/// What the pass has to do with one data points payload.
pub enum PointsStep {
    /// Leave it as it is: it is absent, or none of its rows has a factor.
    Keep,
    /// Stop with an error.
    Fail(Error),
    /// Multiply these data points by these factors.
    Scale(BatchView, Seq<Option<Double>>),
}

/// What the pass has to do with a data points payload.
pub open spec fn points_step(
    payload: Option<PayloadView>,
    factors: Map<u16, Double>,
) -> PointsStep {
    match payload {
        None => PointsStep::Keep,
        Some(payload) => match payload.plain {
            Err(e) => PointsStep::Fail(e),
            Ok(data_points) => match data_points.required_u16(PARENT_ID) {
                Err(e) => PointsStep::Fail(e),
                Ok(parents) => {
                    let row_factors = factors_of_rows(factors, parents);
                    if rows_with_factor(row_factors) == 0 {
                        PointsStep::Keep
                    } else {
                        match batch_error(data_points, 0) {
                            Some(e) => PointsStep::Fail(e),
                            None => PointsStep::Scale(data_points, row_factors),
                        }
                    }
                },
            },
        },
    }
}

/// What the pass has to do with the payload at a place in the order.
pub open spec fn step_at(records: RecordsView, factors: Map<u16, Double>, rank: int) -> PointsStep {
    points_step(records.get(scalable_payload(rank)), factors)
}

/// The place of the first payload from `rank` on that stops the pass, or the number of
/// payloads if none does.
pub open spec fn stops_at(records: RecordsView, factors: Map<u16, Double>, rank: int) -> int
    decreases SCALABLE_PAYLOADS - rank,
{
    if rank >= SCALABLE_PAYLOADS || step_at(records, factors, rank) is Fail {
        rank
    } else {
        stops_at(records, factors, rank + 1)
    }
}

/// How many data point rows the payloads before `rank` have scaled.
pub open spec fn points_scaled(records: RecordsView, factors: Map<u16, Double>, rank: int) -> nat
    decreases rank,
{
    if rank <= 0 {
        0
    } else {
        points_scaled(records, factors, rank - 1) + match step_at(records, factors, rank - 1) {
            PointsStep::Scale(_, row_factors) => rows_with_factor(row_factors),
            _ => 0,
        }
    }
}

/// The data points payloads before `rank` have been scaled, and nothing else has changed.
pub open spec fn points_effect(
    ops: Arithmetic,
    factors: Map<u16, Double>,
    before: RecordsView,
    after: RecordsView,
    rank: int,
) -> bool {
    &&& after.root == before.root
    &&& after.payloads.dom() == before.payloads.dom()
    &&& forall|t: ArrowPayloadType| #[trigger]
        before.payloads.contains_key(t) ==> payload_effect(
            ops,
            factors,
            before.payloads[t],
            after.payloads[t],
            scaling_rank(t) < rank,
        )
}

/// One payload after the pass: scaled if its turn has come and it has to be, else unchanged.
pub open spec fn payload_effect(
    ops: Arithmetic,
    factors: Map<u16, Double>,
    before: PayloadView,
    after: PayloadView,
    turn: bool,
) -> bool {
    match points_step(Some(before), factors) {
        PointsStep::Scale(data_points, row_factors) => if turn {
            &&& ops.batch(data_points, row_factors, after.stored)
            &&& after == PayloadView::of_plain(after.stored)
        } else {
            after == before
        },
        _ => after == before,
    }
}

/// What the pass makes of the root payload.
pub enum RootStep {
    /// Nothing is scaled; this many metrics are named but cannot be.
    Nothing(nat),
    /// Stop with an error.
    Fail(Error),
    /// Scale what these factors select.
    Scale {
        /// The root batch with its units restated.
        root: BatchView,
        /// The factor for each metric identifier.
        factors: Map<u16, Double>,
        /// How many metrics are scaled.
        scaled: nat,
        /// How many metrics are named but cannot be scaled.
        unsupported: nat,
    },
}

/// Payloads that hold metrics.
pub open spec fn holds_metrics(t: ArrowPayloadType) -> bool {
    t == ArrowPayloadType::UnivariateMetrics || t == ArrowPayloadType::MultivariateMetrics
}

/// What the pass makes of the root payload of a message.
pub open spec fn root_step(records: RecordsView, rules: Seq<RuleView>) -> RootStep {
    if rules.len() == 0 || !holds_metrics(records.root) {
        RootStep::Nothing(0)
    } else {
        match records.get(records.root) {
            None => RootStep::Nothing(0),
            Some(payload) => match payload.plain {
                Err(e) => RootStep::Fail(e),
                Ok(root) => match root_columns(root) {
                    Err(e) => RootStep::Fail(e),
                    Ok(columns) => {
                        let factors = columns.factors(rules, root.rows);
                        let unsupported = columns.unsupported(rules, root.rows);
                        if columns.scaled(rules, root.rows) == 0 {
                            RootStep::Nothing(unsupported)
                        } else {
                            match restated(root, columns.units(rules)) {
                                Err(e) => RootStep::Fail(e),
                                Ok(root_after) => RootStep::Scale {
                                    root: root_after,
                                    factors,
                                    scaled: columns.scaled(rules, root.rows),
                                    unsupported,
                                },
                            }
                        }
                    },
                },
            },
        }
    }
}

/// The restated unit column, if there is to be one, fits the value buffer of one column.
pub open spec fn units_fit(records: RecordsView, rules: Seq<RuleView>) -> bool {
    root_step(records, rules) matches RootStep::Scale { root, .. } ==> root.wf()
}

/// What a scaling pass makes of a message, and what it returns.
pub open spec fn scale_effect(
    ops: Arithmetic,
    rules: Seq<RuleView>,
    before: RecordsView,
    after: RecordsView,
    result: Result<MetricScaleStats, Error>,
) -> bool {
    match root_step(before, rules) {
        RootStep::Nothing(unsupported) => {
            &&& after == before
            &&& result matches Ok(stats)
            &&& stats.metrics_scaled == 0
            &&& stats.data_points_scaled == 0
            &&& stats.metrics_unsupported == unsupported
        },
        RootStep::Fail(e) => after == before && result is Err && result->Err_0 == e,
        RootStep::Scale { root, factors, scaled, unsupported } => {
            let restated = before.set(before.root, root);
            let stop = stops_at(restated, factors, 0);
            &&& points_effect(ops, factors, restated, after, stop)
            &&& match step_at(restated, factors, stop) {
                PointsStep::Fail(e) if stop < SCALABLE_PAYLOADS => result is Err && result->Err_0
                    == e,
                _ => {
                    &&& result matches Ok(stats)
                    &&& stats.metrics_scaled == scaled
                    &&& stats.data_points_scaled == points_scaled(
                        restated,
                        factors,
                        SCALABLE_PAYLOADS as int,
                    )
                    &&& stats.metrics_unsupported == unsupported
                },
            }
        },
    }
}

/// What a pass counts.
pub struct PassCounts {
    /// Metrics matched by a rule and scaled.
    pub metrics_scaled: nat,
    /// Data point rows whose values are multiplied.
    pub data_points_scaled: nat,
    /// Metrics matched by a rule but left untouched.
    pub metrics_unsupported: nat,
}

/// What a pass over a message counts, or nothing where it fails.
pub open spec fn pass_counts(records: RecordsView, rules: Seq<RuleView>) -> Option<PassCounts> {
    match root_step(records, rules) {
        RootStep::Nothing(unsupported) => Some(
            PassCounts {
                metrics_scaled: 0,
                data_points_scaled: 0,
                metrics_unsupported: unsupported,
            },
        ),
        RootStep::Fail(_) => None,
        RootStep::Scale { root, factors, scaled, unsupported } => {
            let restated = records.set(records.root, root);
            if stops_at(restated, factors, 0) < SCALABLE_PAYLOADS {
                None
            } else {
                Some(
                    PassCounts {
                        metrics_scaled: scaled,
                        data_points_scaled: points_scaled(
                            restated,
                            factors,
                            SCALABLE_PAYLOADS as int,
                        ),
                        metrics_unsupported: unsupported,
                    },
                )
            }
        },
    }
}

/// The counts are what a pass counts.
pub open spec fn counted(stats: MetricScaleStats, counts: PassCounts) -> bool {
    &&& stats.metrics_scaled == counts.metrics_scaled
    &&& stats.data_points_scaled == counts.data_points_scaled
    &&& stats.metrics_unsupported == counts.metrics_unsupported
}

/// The pass stops at a place in the order only where that payload makes it fail.
pub(crate) proof fn lemma_stops_at(records: RecordsView, factors: Map<u16, Double>, rank: int)
    requires
        0 <= rank <= SCALABLE_PAYLOADS,
    ensures
        rank <= stops_at(records, factors, rank) <= SCALABLE_PAYLOADS,
        stops_at(records, factors, rank) < SCALABLE_PAYLOADS ==> step_at(
            records,
            factors,
            stops_at(records, factors, rank),
        ) is Fail,
    decreases SCALABLE_PAYLOADS - rank,
{
    if rank < SCALABLE_PAYLOADS {
        lemma_stops_at(records, factors, rank + 1);
    }
}

/// Applies the supplied scaling rules to the metrics in `otap_batch`.
///
/// Batches that are not metrics, and metrics not named by any rule, are left
/// untouched.
pub fn apply_metric_scale<D: Fn(Double, Double) -> Double, I: Fn(i64, Double) -> i64>(
    otap_batch: &mut OtapArrowRecords,
    rules: &Vec<MetricScaleRule>,
    scale_double: &D,
    scale_int: &I,
) -> (r: Result<MetricScaleStats, Error>)
    requires
        old(otap_batch).wf(),
        accepts_all(*scale_double, *scale_int),
        units_fit(old(otap_batch)@, rule_views(rules@)),
    ensures
        final(otap_batch).wf(),
        scale_effect(
            arithmetic(*scale_double, *scale_int),
            rule_views(rules@),
            old(otap_batch)@,
            final(otap_batch)@,
            r,
        ),
        match pass_counts(old(otap_batch)@, rule_views(rules@)) {
            Some(counts) => r matches Ok(stats) && counted(stats, counts),
            None => r is Err,
        },
{
    let ghost ops = arithmetic(*scale_double, *scale_int);
    let ghost views = rule_views(rules@);
    let mut stats = MetricScaleStats {
        metrics_scaled: 0,
        data_points_scaled: 0,
        metrics_unsupported: 0,
    };
    if rules.len() == 0 {
        return Ok(stats);
    }
    let root_payload_type = otap_batch.root_payload_type();
    match root_payload_type {
        ArrowPayloadType::UnivariateMetrics => {},
        ArrowPayloadType::MultivariateMetrics => {},
        _ => return Ok(stats),
    }
    let payload = match otap_batch.get(root_payload_type) {
        Some(payload) => payload,
        None => return Ok(stats),
    };
    let root = match payload.remove_transport_optimized_encodings() {
        Ok(root) => root,
        Err(e) => return Err(e),
    };
    proof {
        if let Ok(columns) = root_columns(root@) {
            lemma_counts_bounded(columns, rule_views(rules@), root@.rows);
        }
    }
    let plan = match ScalePlan::build(root, rules, &mut stats) {
        Ok(plan) => plan,
        Err(e) => return Err(e),
    };
    if stats.metrics_scaled == 0 {
        return Ok(stats);
    }
    assert(plan.unit_by_row@.len() == crate::column::text_cells(plan.unit_by_row@).len());
    let restated_root = match plan.apply_units(root) {
        Ok(batch) => batch,
        Err(e) => return Err(e),
    };
    otap_batch.set(root_payload_type, restated_root);

    let ghost factors = plan.factor_by_metric_id@;
    let ghost start = otap_batch@;
    let ghost stop = stops_at(start, factors, 0);
    let mut rank: usize = 0;
    while rank < SCALABLE_PAYLOADS
        invariant
            rank <= SCALABLE_PAYLOADS,
            otap_batch.wf(),
            accepts_all(*scale_double, *scale_int),
            ops == arithmetic(*scale_double, *scale_int),
            factors == plan.factor_by_metric_id@,
            stop == stops_at(start, factors, rank as int),
            stop == stops_at(start, factors, 0),
            points_effect(ops, factors, start, otap_batch@, rank as int),
            stats.data_points_scaled == points_scaled(start, factors, rank as int),
            stats.data_points_scaled <= rank * crate::records::MAX_ROWS,
            root_step(old(otap_batch)@, views) is Scale,
            root_step(old(otap_batch)@, views)->scaled == stats.metrics_scaled,
            root_step(old(otap_batch)@, views)->unsupported == stats.metrics_unsupported,
            root_step(old(otap_batch)@, views)->factors == factors,
            start == old(otap_batch)@.set(
                old(otap_batch)@.root,
                root_step(old(otap_batch)@, views)->root,
            ),
            views == rule_views(rules@),
        decreases SCALABLE_PAYLOADS - rank,
    {
        let ghost current = otap_batch@;
        let payload_type = scalable_payload_at(rank);
        assert(scaling_rank(payload_type) == rank);
        assert(current.payloads.dom().contains(payload_type) == start.payloads.dom().contains(
            payload_type,
        ));
        assert(current.get(payload_type) == start.get(payload_type));
        let scaled = match otap_batch.get(payload_type) {
            None => None,
            Some(payload) => {
                let data_points = match payload.remove_transport_optimized_encodings() {
                    Ok(data_points) => data_points,
                    Err(e) => return Err(e),
                };
                let row_factors = match plan.row_factors(data_points) {
                    Ok(row_factors) => row_factors,
                    Err(e) => return Err(e),
                };
                let scaled_rows = count_scaled_rows(&row_factors);
                if scaled_rows == 0 {
                    None
                } else {
                    match scale_data_points(data_points, &row_factors, scale_double, scale_int) {
                        Ok(scaled) => {
                            stats.data_points_scaled = stats.data_points_scaled + scaled_rows;
                            Some(scaled)
                        },
                        Err(e) => return Err(e),
                    }
                }
            },
        };
        if let Some(scaled) = scaled {
            otap_batch.set(payload_type, scaled);
        }
        proof {
            assert(otap_batch@.payloads.dom() =~= start.payloads.dom());
            assert forall|t: ArrowPayloadType| #[trigger]
                start.payloads.contains_key(t) implies payload_effect(
                ops,
                factors,
                start.payloads[t],
                otap_batch@.payloads[t],
                scaling_rank(t) < rank + 1,
            ) by {
                assert(payload_effect(
                    ops,
                    factors,
                    start.payloads[t],
                    current.payloads[t],
                    scaling_rank(t) < rank,
                ));
                assert(scaling_rank(t) == rank ==> t == payload_type);
            }
        }
        rank = rank + 1;
    }
    Ok(stats)
}

/// Whether a column of a given name can be scaled.
fn column_scales(name: &String, column: &Column) -> (r: bool)
    requires
        column@.wf(),
    ensures
        r == (column_error(name@, column@) is None),
{
    match (classify_column(name), column) {
        (ValueColumn::Untouched, _) => true,
        (ValueColumn::Int, Column::Leaf(Leaf::Plain(Scalars::Int64(_)))) => true,
        (ValueColumn::Double, Column::Leaf(Leaf::Plain(Scalars::Float64(_)))) => true,
        (ValueColumn::DoubleList, Column::List(list)) => match &list.items {
            Items::Leaf(Leaf::Plain(Scalars::Float64(_))) => true,
            _ => false,
        },
        (ValueColumn::QuantileList, Column::List(list)) => match &list.items {
            Items::Struct(quantiles) => match quantiles.child(SUMMARY_VALUE) {
                Some(Leaf::Plain(Scalars::Float64(_))) => true,
                _ => false,
            },
            _ => false,
        },
        _ => false,
    }
}

/// Whether every value column of a data points batch can be scaled.
fn data_points_scale(data_points: &RecordBatch) -> (r: bool)
    requires
        data_points@.wf(),
    ensures
        r == (batch_error(data_points@, 0) is None),
{
    let ghost view = data_points@;
    let mut index: usize = 0;
    while index < data_points.columns.len()
        invariant
            index <= data_points.columns@.len(),
            view == data_points@,
            view.wf(),
            batch_error(view, 0) == batch_error(view, index as int),
        decreases data_points.columns@.len() - index,
    {
        assert(view.columns[index as int] == data_points.columns@[index as int]@);
        assert(view.fields[index as int] == data_points.fields@[index as int]@);
        if !column_scales(&data_points.fields[index].name, &data_points.columns[index]) {
            return false;
        }
        index = index + 1;
    }
    true
}

/// Whether the unit column of a root batch can be restated.
fn units_restate(plan: &ScalePlan, root: &RecordBatch) -> (r: bool)
    requires
        root@.wf(),
    ensures
        r == (restated(root@, crate::column::text_cells(plan.unit_by_row@)) is Ok),
{
    if plan.keeps_units() {
        return true;
    }
    match crate::column::position_of(&root.fields, UNIT) {
        Some(i) => {
            assert(root@.columns[i as int] == root.columns@[i as int]@);
            match StringArrayAccessor::try_new(&root.columns[i]) {
                Ok(_) => true,
                Err(_) => false,
            }
        },
        None => true,
    }
}

/// Says what a pass over a message counts, without changing it; nothing where the pass fails.
pub fn count_pass(otap_batch: &OtapArrowRecords, rules: &Vec<MetricScaleRule>) -> (r: Option<
    MetricScaleStats,
>)
    requires
        otap_batch.wf(),
    ensures
        match pass_counts(otap_batch@, rule_views(rules@)) {
            Some(counts) => r matches Some(stats) && counted(stats, counts),
            None => r is None,
        },
{
    let ghost views = rule_views(rules@);
    let mut stats = MetricScaleStats {
        metrics_scaled: 0,
        data_points_scaled: 0,
        metrics_unsupported: 0,
    };
    if rules.len() == 0 {
        return Some(stats);
    }
    let root_payload_type = otap_batch.root_payload_type();
    match root_payload_type {
        ArrowPayloadType::UnivariateMetrics => {},
        ArrowPayloadType::MultivariateMetrics => {},
        _ => return Some(stats),
    }
    let payload = match otap_batch.get(root_payload_type) {
        Some(payload) => payload,
        None => return Some(stats),
    };
    let root = match payload.remove_transport_optimized_encodings() {
        Ok(root) => root,
        Err(_) => return None,
    };
    proof {
        if let Ok(columns) = root_columns(root@) {
            lemma_counts_bounded(columns, rule_views(rules@), root@.rows);
        }
    }
    let plan = match ScalePlan::build(root, rules, &mut stats) {
        Ok(plan) => plan,
        Err(_) => return None,
    };
    if stats.metrics_scaled == 0 {
        return Some(stats);
    }
    if !units_restate(&plan, root) {
        return None;
    }
    let ghost factors = plan.factor_by_metric_id@;
    let ghost before = otap_batch@;
    let ghost start = before.set(before.root, root_step(before, views)->root);
    let mut rank: usize = 0;
    while rank < SCALABLE_PAYLOADS
        invariant
            rank <= SCALABLE_PAYLOADS,
            otap_batch.wf(),
            before == otap_batch@,
            views == rule_views(rules@),
            holds_metrics(before.root),
            factors == plan.factor_by_metric_id@,
            root_step(before, views) is Scale,
            root_step(before, views)->factors == factors,
            root_step(before, views)->scaled == stats.metrics_scaled,
            root_step(before, views)->unsupported == stats.metrics_unsupported,
            start == before.set(before.root, root_step(before, views)->root),
            stops_at(start, factors, 0) == stops_at(start, factors, rank as int),
            stats.data_points_scaled == points_scaled(start, factors, rank as int),
            stats.data_points_scaled <= rank * crate::records::MAX_ROWS,
        decreases SCALABLE_PAYLOADS - rank,
    {
        let payload_type = scalable_payload_at(rank);
        assert(start.get(payload_type) == before.get(payload_type));
        if let Some(payload) = otap_batch.get(payload_type) {
            let data_points = match payload.remove_transport_optimized_encodings() {
                Ok(data_points) => data_points,
                Err(_) => return None,
            };
            let row_factors = match plan.row_factors(data_points) {
                Ok(row_factors) => row_factors,
                Err(_) => return None,
            };
            let scaled_rows = count_scaled_rows(&row_factors);
            if scaled_rows > 0 {
                if !data_points_scale(data_points) {
                    return None;
                }
                stats.data_points_scaled = stats.data_points_scaled + scaled_rows;
            }
        }
        rank = rank + 1;
    }
    Some(stats)
}

/// Whether the restated unit column, if there is to be one, fits the value buffer of one
/// column.
pub fn unit_column_fits(otap_batch: &OtapArrowRecords, rules: &Vec<MetricScaleRule>) -> (r: bool)
    requires
        otap_batch.wf(),
    ensures
        r == units_fit(otap_batch@, rule_views(rules@)),
{
    let ghost views = rule_views(rules@);
    if rules.len() == 0 {
        return true;
    }
    let root_payload_type = otap_batch.root_payload_type();
    match root_payload_type {
        ArrowPayloadType::UnivariateMetrics => {},
        ArrowPayloadType::MultivariateMetrics => {},
        _ => return true,
    }
    let payload = match otap_batch.get(root_payload_type) {
        Some(payload) => payload,
        None => return true,
    };
    let root = match payload.remove_transport_optimized_encodings() {
        Ok(root) => root,
        Err(_) => return true,
    };
    let mut stats = MetricScaleStats {
        metrics_scaled: 0,
        data_points_scaled: 0,
        metrics_unsupported: 0,
    };
    proof {
        if let Ok(columns) = root_columns(root@) {
            lemma_counts_bounded(columns, rule_views(rules@), root@.rows);
        }
    }
    let plan = match ScalePlan::build(root, rules, &mut stats) {
        Ok(plan) => plan,
        Err(_) => return true,
    };
    if stats.metrics_scaled == 0 || plan.keeps_units() {
        return true;
    }
    let ghost units = crate::column::text_cells(plan.unit_by_row@);
    let merged = match crate::column::position_of(&root.fields, UNIT) {
        Some(i) => {
            assert(root@.columns[i as int] == root.columns@[i as int]@);
            match StringArrayAccessor::try_new(&root.columns[i]) {
                Ok(accessor) => plan.merge_units(Some(accessor)),
                Err(_) => return true,
            }
        },
        None => plan.merge_units(None),
    };
    let column = Scalars::Utf8(merged);
    let fits = column.fits();
    proof {
        let after = restated(root@, units)->Ok_0;
        let place = match root@.index_of(UNIT@) {
            Some(i) => i,
            None => root@.columns.len() as int,
        };
        crate::column::lemma_first_named(root@.fields, UNIT@, 0);
        assert(after.columns[place] == ColumnView::Leaf(LeafView::Plain(column@)));
        if fits {
            assert forall|k: int| 0 <= k < after.columns.len() implies (
            #[trigger] after.columns[k]).wf() && after.columns[k].len() == after.rows by {
                if k != place {
                    assert(after.columns[k] == root@.columns[k]);
                }
            }
        }
    }
    fits
}

} // verus!
