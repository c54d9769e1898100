//! What a scaling pass does to a message, told by column names, type codes and values.

use crate::column::{
    ColumnView, DataType, FieldView, ItemType, ItemsView, KeyType, LeafView, ListView,
    ScalarType, ScalarsView, Slot, StructView,
};
use crate::double::Double;
use crate::error::Error;
use crate::metric_scale::{
    Arithmetic, MetricScaleRule, MetricScaleStats, PointsStep, RootStep, RootView, RowMatch, RuleView,
    ScalePlan,
};
use crate::payload::ArrowPayloadType;
use crate::records::{BatchView, OtapArrowRecords, RecordsView};
use vstd::prelude::*;

verus! {

/// The first field of a given name stands at a position.
pub open spec fn stands_at(fields: Seq<FieldView>, name: Seq<char>, i: int) -> bool {
    &&& 0 <= i < fields.len()
    &&& fields[i].name == name
    &&& forall|k: int| 0 <= k < i ==> (#[trigger] fields[k]).name != name
}

/// No field has a given name.
pub open spec fn lacks(fields: Seq<FieldView>, name: Seq<char>) -> bool {
    forall|k: int| 0 <= k < fields.len() ==> (#[trigger] fields[k]).name != name
}

/// A column is looked up by its name: the first of that name is found, and none exactly where no
/// column has the name.
pub proof fn law_first_of_a_name(fields: Seq<FieldView>, name: Seq<char>)
    ensures
        forall|i: int|
            crate::column::first_named(fields, name, 0) == Some(i) <==> #[trigger] stands_at(
                fields,
                name,
                i,
            ),
        crate::column::first_named(fields, name, 0) is None <==> lacks(fields, name),
{
    crate::column::lemma_first_named(fields, name, 0);
    assert forall|i: int| #[trigger] stands_at(fields, name, i) implies crate::column::first_named(
        fields,
        name,
        0,
    ) == Some(i) by {
        match crate::column::first_named(fields, name, 0) {
            Some(j) => {
                if j < i {
                    assert(fields[j].name != name);
                } else if i < j {
                    assert(fields[i].name != name);
                }
            },
            None => {
                assert(fields[i].name != name);
            },
        }
    }
}

/// A column holds a text or null per row: plain, or through unsigned keys of 8 or 16 bits that
/// name texts.
pub open spec fn holds_texts(column: ColumnView, texts: Seq<Option<Seq<char>>>) -> bool {
    match column {
        ColumnView::Leaf(LeafView::Plain(ScalarsView::Utf8(plain))) => texts == plain,
        ColumnView::Leaf(LeafView::Dictionary(key, keys, ScalarsView::Utf8(known))) => {
            &&& key == KeyType::UInt8 || key == KeyType::UInt16
            &&& texts.len() == keys.len()
            &&& forall|row: int|
                0 <= row < keys.len() ==> #[trigger] texts[row] == (match keys[row] {
                    Some(k) => known[k as int],
                    None => None,
                })
        },
        _ => false,
    }
}

/// A column is read as text exactly where it holds texts, and gives just these.
pub proof fn law_texts_of_a_column(column: ColumnView)
    ensures
        forall|texts: Seq<Option<Seq<char>>>|
            crate::records::column_text(column) == Ok::<Seq<Option<Seq<char>>>, Error>(texts)
                <==> #[trigger] holds_texts(column, texts),
        forall|e: Error|
            crate::records::column_text(column) == Err::<Seq<Option<Seq<char>>>, Error>(e) ==> e
                == (Error::UnsupportedStringColumnType { data_type: column.data_type() }),
{
    assert forall|texts: Seq<Option<Seq<char>>>| #[trigger] holds_texts(column, texts) implies
        crate::records::column_text(column) == Ok::<Seq<Option<Seq<char>>>, Error>(texts) by {
        assert(column.texts()->0 =~= texts);
    }
}

/// A root batch holds metrics: an identifier, a type code and a name per row.
pub open spec fn lists_metrics(root: BatchView, metrics: RootView) -> bool {
    exists|i: int, j: int, k: int|
        {
            &&& #[trigger] stands_at(root.fields, "id"@, i)
            &&& #[trigger] stands_at(root.fields, "metric_type"@, j)
            &&& #[trigger] stands_at(root.fields, "name"@, k)
            &&& root.columns[i] == ColumnView::Leaf(
                LeafView::Plain(ScalarsView::UInt16(metrics.ids)),
            )
            &&& root.columns[j] == ColumnView::Leaf(
                LeafView::Plain(ScalarsView::UInt8(metrics.types)),
            )
            &&& holds_texts(root.columns[k], metrics.names)
        }
}

/// A rule is the one that decides about a name: the first that lists it.
pub open spec fn decides(rules: Seq<RuleView>, name: Seq<char>, rule: int) -> bool {
    &&& 0 <= rule < rules.len()
    &&& rules[rule].metric_names.contains(name)
    &&& forall|earlier: int|
        0 <= earlier < rule ==> !(#[trigger] rules[earlier]).metric_names.contains(name)
}

/// A type code stands for a gauge, a sum, a histogram or a summary.
pub open spec fn is_magnitude(code: u8) -> bool {
    code == 1 || code == 2 || code == 3 || code == 5
}

/// The metric in a row is scaled by a rule.
pub open spec fn scaled_by(metrics: RootView, rules: Seq<RuleView>, row: int, rule: int) -> bool {
    &&& 0 <= row < metrics.names.len()
    &&& metrics.names[row] is Some
    &&& decides(rules, metrics.names[row]->0, rule)
    &&& is_magnitude(metrics.types[row].value)
}

/// The metric in a row is named by a rule, but of a type that cannot be scaled.
pub open spec fn refused_by(metrics: RootView, rules: Seq<RuleView>, row: int, rule: int) -> bool {
    &&& 0 <= row < metrics.names.len()
    &&& metrics.names[row] is Some
    &&& decides(rules, metrics.names[row]->0, rule)
    &&& !is_magnitude(metrics.types[row].value)
}

/// A metric is scaled by the first rule that lists its name where it is a gauge, a sum, a
/// histogram or a summary, and is unsupported where a rule lists its name and it is none of
/// these. It is left alone exactly where it has no name or no rule lists it. Where the row stands
/// does not matter, nor what the other rows hold.
pub proof fn law_match_of_a_row(metrics: RootView, rules: Seq<RuleView>, row: int)
    requires
        0 <= row < metrics.names.len(),
    ensures
        forall|rule: int|
            metrics.row_match(rules, row) == RowMatch::Scaled(rule) <==> #[trigger] scaled_by(
                metrics,
                rules,
                row,
                rule,
            ),
        metrics.row_match(rules, row) is Scaled <==> exists|rule: int| #[trigger]
            scaled_by(metrics, rules, row, rule),
        metrics.row_match(rules, row) is Unsupported <==> exists|rule: int| #[trigger]
            refused_by(metrics, rules, row, rule),
        metrics.row_match(rules, row) is Unnamed <==> (metrics.names[row] is None || forall|rule: int|
            0 <= rule < rules.len() ==> !(#[trigger] rules[rule]).metric_names.contains(
                metrics.names[row]->0,
            )),
{
    if let Some(name) = metrics.names[row] {
        crate::scale_laws::law_first_rule_wins(rules, name, 0);
        assert forall|rule: int| #[trigger]
            decides(rules, name, rule) implies crate::metric_scale::first_rule(rules, name, 0)
            == Some(rule) by {
            match crate::metric_scale::first_rule(rules, name, 0) {
                Some(first) => {
                    if first < rule {
                        assert(!rules[first].metric_names.contains(name));
                    } else if rule < first {
                        assert(!rules[rule].metric_names.contains(name));
                    }
                },
                None => {
                    assert(!rules[rule].metric_names.contains(name));
                },
            }
        }
        if let Some(first) = crate::metric_scale::first_rule(rules, name, 0) {
            assert(decides(rules, name, first));
            if is_magnitude(metrics.types[row].value) {
                assert(scaled_by(metrics, rules, row, first));
            } else {
                assert(refused_by(metrics, rules, row, first));
            }
        }
    }
}

/// How a metric is matched depends on its name and type alone: two rows with the same name and
/// type code, wherever they stand, are matched alike.
pub proof fn law_equal_metrics_match_alike(
    a: RootView,
    b: RootView,
    rules: Seq<RuleView>,
    i: int,
    j: int,
)
    requires
        a.names[i] == b.names[j],
        a.types[i].value == b.types[j].value,
    ensures
        a.row_match(rules, i) == b.row_match(rules, j),
{
}

/// The root batch is read as the metrics that it holds.
proof fn lemma_metrics_read(root: BatchView, metrics: RootView)
    requires
        root.wf(),
        lists_metrics(root, metrics),
    ensures
        crate::metric_scale::root_columns(root) == Ok::<RootView, Error>(metrics),
        metrics.ids.len() == root.rows,
        metrics.types.len() == root.rows,
        metrics.names.len() == root.rows,
{
    let (i, j, k) = choose|i: int, j: int, k: int|
        {
            &&& #[trigger] stands_at(root.fields, "id"@, i)
            &&& #[trigger] stands_at(root.fields, "metric_type"@, j)
            &&& #[trigger] stands_at(root.fields, "name"@, k)
            &&& root.columns[i] == ColumnView::Leaf(
                LeafView::Plain(ScalarsView::UInt16(metrics.ids)),
            )
            &&& root.columns[j] == ColumnView::Leaf(
                LeafView::Plain(ScalarsView::UInt8(metrics.types)),
            )
            &&& holds_texts(root.columns[k], metrics.names)
        };
    law_first_of_a_name(root.fields, "id"@);
    law_first_of_a_name(root.fields, "metric_type"@);
    law_first_of_a_name(root.fields, "name"@);
    law_texts_of_a_column(root.columns[k]);
    assert(root.columns[i].len() == root.rows);
    assert(root.columns[j].len() == root.rows);
    assert(root.columns[k].len() == root.rows);
}

/// The metric in a row carries an identifier.
pub open spec fn carries_id(metrics: RootView, row: int, id: u16) -> bool {
    metrics.ids[row].valid && metrics.ids[row].value == id
}

/// Data points of a metric are scaled by a rule: the rule scales the last scaled row that carries
/// the metric's identifier.
pub open spec fn scales_points(
    metrics: RootView,
    rules: Seq<RuleView>,
    id: u16,
    row: int,
    rule: int,
) -> bool {
    &&& scaled_by(metrics, rules, row, rule)
    &&& carries_id(metrics, row, id)
    &&& forall|later: int, other: int|
        row < later && #[trigger] scaled_by(metrics, rules, later, other) ==> !carries_id(
            metrics,
            later,
            id,
        )
}

/// A data point is due a factor: its parent is not null, and the metric that it names is scaled
/// by a rule with that factor.
pub open spec fn due(
    metrics: RootView,
    rules: Seq<RuleView>,
    parent: Slot<u16>,
    factor: Double,
) -> bool {
    parent.valid && exists|row: int, rule: int| #[trigger]
        scales_points(metrics, rules, parent.value, row, rule) && rules[rule].factor == factor
}

/// A data point is to be left alone: its parent is null, or no metric that is scaled carries the
/// identifier.
pub open spec fn spared(metrics: RootView, rules: Seq<RuleView>, parent: Slot<u16>) -> bool {
    parent.valid ==> forall|row: int, rule: int| #[trigger]
        scaled_by(metrics, rules, row, rule) ==> !carries_id(metrics, row, parent.value)
}

/// A data point gets a factor exactly where the metric that its parent identifier names is
/// scaled, and then the factor of that metric's rule.
pub proof fn law_factor_of_a_data_point(
    metrics: RootView,
    rules: Seq<RuleView>,
    parents: Seq<Slot<u16>>,
    row: int,
)
    requires
        0 <= row < parents.len(),
    ensures
        ({
            let factors = crate::metric_scale::factors_of_rows(
                metrics.factors(rules, metrics.names.len()),
                parents,
            );
            &&& factors.len() == parents.len()
            &&& forall|factor: Double|
                factors[row] == Some(factor) <==> #[trigger] due(
                    metrics,
                    rules,
                    parents[row],
                    factor,
                )
            &&& factors[row] is None <==> spared(metrics, rules, parents[row])
        }),
{
    let rows = metrics.names.len();
    let table = metrics.factors(rules, rows);
    let parent = parents[row];
    let factors = crate::metric_scale::factors_of_rows(table, parents);
    if parent.valid {
        let id = parent.value;
        crate::scale_laws::law_factor_of_metric(metrics, rules, rows, id);
        assert forall|r: int| 0 <= r < rows implies (#[trigger] metrics.row_match(rules, r)) is Scaled
            == (exists|rule: int| #[trigger] scaled_by(metrics, rules, r, rule)) && (
        metrics.row_match(rules, r) is Scaled ==> scaled_by(
            metrics,
            rules,
            r,
            metrics.row_match(rules, r)->Scaled_0,
        )) by {
            law_match_of_a_row(metrics, rules, r);
        }
        assert forall|r: int, rule: int| #[trigger] scaled_by(metrics, rules, r, rule) implies
            metrics.row_match(rules, r) == RowMatch::Scaled(rule) by {
            law_match_of_a_row(metrics, rules, r);
        }
        assert forall|r: int, rule: int| #[trigger]
            scales_points(metrics, rules, id, r, rule) implies table.contains_key(id) && table[id]
            == rules[rule].factor by {
            assert(metrics.row_match(rules, r) == RowMatch::Scaled(rule));
            assert forall|later: int|
                r < later < rows && metrics.ids[later].cell() == Some(id) implies !(
            #[trigger] metrics.row_match(rules, later) is Scaled) by {
                if metrics.row_match(rules, later) is Scaled {
                    let other = metrics.row_match(rules, later)->Scaled_0;
                    assert(scaled_by(metrics, rules, later, other));
                }
            }
        }
        if table.contains_key(id) {
            let first = choose|r: int|
                0 <= r < rows && metrics.ids[r].cell() == Some(id) && #[trigger] metrics.row_match(
                    rules,
                    r,
                ) is Scaled;
            let last = lemma_last_scaled(metrics, rules, id, first, rows as int);
            let rule = metrics.row_match(rules, last)->Scaled_0;
            assert(scales_points(metrics, rules, id, last, rule)) by {
                assert forall|later: int, other: int|
                    last < later && #[trigger] scaled_by(
                        metrics,
                        rules,
                        later,
                        other,
                    ) implies !carries_id(metrics, later, id) by {
                    assert(metrics.row_match(rules, later) is Scaled);
                }
            }
            assert(due(metrics, rules, parent, table[id]));
            assert(scaled_by(metrics, rules, last, rule));
        }
    }
}

/// Among the scaled rows that carry an identifier one is the last.
proof fn lemma_last_scaled(
    metrics: RootView,
    rules: Seq<RuleView>,
    id: u16,
    from: int,
    rows: int,
) -> (last: int)
    requires
        0 <= from < rows,
        metrics.ids[from].cell() == Some(id),
        metrics.row_match(rules, from) is Scaled,
    ensures
        from <= last < rows,
        metrics.ids[last].cell() == Some(id),
        metrics.row_match(rules, last) is Scaled,
        forall|later: int|
            last < later < rows && metrics.ids[later].cell() == Some(id) ==> !(
            #[trigger] metrics.row_match(rules, later) is Scaled),
    decreases rows - from,
{
    if exists|later: int|
        from < later < rows && metrics.ids[later].cell() == Some(id) && #[trigger] metrics.row_match(
            rules,
            later,
        ) is Scaled {
        let later = choose|later: int|
            from < later < rows && metrics.ids[later].cell() == Some(id)
                && #[trigger] metrics.row_match(rules, later) is Scaled;
        lemma_last_scaled(metrics, rules, id, later, rows)
    } else {
        from
    }
}

/// A column of a given name holds what is multiplied there: integers under `int_value`, doubles
/// under `double_value`, `sum`, `min` and `max`, lists of doubles under `explicit_bounds`, and
/// lists of structs with doubles under `value` under `quantile`. Under every other name anything
/// may stand.
pub open spec fn suits(name: Seq<char>, column: ColumnView) -> bool {
    &&& name == "int_value"@ ==> column is Leaf && column->Leaf_0 is Plain
        && column->Leaf_0->Plain_0 is Int64
    &&& name == "double_value"@ || name == "sum"@ || name == "min"@ || name == "max"@ ==> column
        is Leaf && column->Leaf_0 is Plain && column->Leaf_0->Plain_0 is Float64
    &&& name == "explicit_bounds"@ ==> column is List && column->List_0.items is Leaf
        && column->List_0.items->Leaf_0 is Plain
        && column->List_0.items->Leaf_0->Plain_0 is Float64
    &&& name == "quantile"@ ==> column is List && column->List_0.items is Struct && exists|c: int|
        #[trigger] stands_at(column->List_0.items->Struct_0.fields, "value"@, c)
            && column->List_0.items->Struct_0.children[c] is Plain
            && column->List_0.items->Struct_0.children[c]->Plain_0 is Float64
}

/// The names of the value columns differ from each other.
proof fn lemma_value_names_differ()
    ensures
        "int_value"@ != "double_value"@,
        "int_value"@ != "sum"@,
        "int_value"@ != "min"@,
        "int_value"@ != "max"@,
        "int_value"@ != "explicit_bounds"@,
        "int_value"@ != "quantile"@,
        "explicit_bounds"@ != "double_value"@,
        "explicit_bounds"@ != "sum"@,
        "explicit_bounds"@ != "min"@,
        "explicit_bounds"@ != "max"@,
        "explicit_bounds"@ != "quantile"@,
        "quantile"@ != "double_value"@,
        "quantile"@ != "sum"@,
        "quantile"@ != "min"@,
        "quantile"@ != "max"@,
{
    reveal_strlit("int_value");
    reveal_strlit("double_value");
    reveal_strlit("sum");
    reveal_strlit("min");
    reveal_strlit("max");
    reveal_strlit("explicit_bounds");
    reveal_strlit("quantile");
    assert("int_value"@.len() == 9);
    assert("double_value"@.len() == 12);
    assert("sum"@.len() == 3);
    assert("min"@.len() == 3);
    assert("max"@.len() == 3);
    assert("explicit_bounds"@.len() == 15);
    assert("quantile"@.len() == 8);
}

/// A column stops a pass exactly where its name is that of a value column and it does not hold
/// such values. A column of any other name, such as counts, never does, whatever it holds.
pub proof fn law_only_value_columns_stop_a_pass(name: Seq<char>, column: ColumnView)
    ensures
        crate::metric_scale::column_error(name, column) is None <==> suits(name, column),
        name != "int_value"@ && name != "double_value"@ && name != "sum"@ && name != "min"@ && name
            != "max"@ && name != "explicit_bounds"@ && name != "quantile"@
            ==> crate::metric_scale::column_error(name, column) is None,
{
    lemma_value_names_differ();
    if name == "quantile"@ {
        if let ColumnView::List(list) = column {
            if let ItemsView::Struct(quantiles) = list.items {
                law_first_of_a_name(quantiles.fields, "value"@);
                crate::column::lemma_first_named(quantiles.fields, "value"@, 0);
                if let Some(c) = crate::column::first_named(quantiles.fields, "value"@, 0) {
                    assert(stands_at(quantiles.fields, "value"@, c));
                }
            }
        }
    }
}

/// What is reported of a value column that does not hold such values: the column, what it is
/// read as, and what it is. A `quantile` column without `value` field is reported as such.
pub proof fn law_errors_of_value_columns(name: Seq<char>, column: ColumnView, e: Error)
    requires
        crate::metric_scale::column_error(name, column) == Some(e),
    ensures
        name == "int_value"@ ==> e == (Error::ColumnDataTypeMismatch {
            name: "int_value",
            expect: DataType::Scalar(ScalarType::Int64),
            actual: column.data_type(),
        }),
        name == "double_value"@ || name == "sum"@ || name == "min"@ || name == "max"@ ==> e == (
        Error::ColumnDataTypeMismatch {
            name: "double column",
            expect: DataType::Scalar(ScalarType::Float64),
            actual: column.data_type(),
        }),
        name == "explicit_bounds"@ && !(column is List) ==> e == (Error::ColumnDataTypeMismatch {
            name: "explicit_bounds",
            expect: DataType::List(ItemType::Scalar(ScalarType::Float64)),
            actual: column.data_type(),
        }),
        name == "explicit_bounds"@ && column is List ==> e == (Error::ColumnDataTypeMismatch {
            name: "explicit_bounds",
            expect: DataType::Scalar(ScalarType::Float64),
            actual: column->List_0.items.data_type(),
        }),
        name == "quantile"@ && !(column is List) ==> e == (Error::ColumnDataTypeMismatch {
            name: "quantile",
            expect: DataType::List(ItemType::Struct),
            actual: column.data_type(),
        }),
        name == "quantile"@ && column is List && !(column->List_0.items is Struct) ==> e == (
        Error::ColumnDataTypeMismatch {
            name: "quantile",
            expect: DataType::Struct,
            actual: column->List_0.items.data_type(),
        }),
        name == "quantile"@ && column is List && column->List_0.items is Struct ==> {
            let quantiles = column->List_0.items->Struct_0;
            &&& lacks(quantiles.fields, "value"@) ==> e == (Error::ColumnNotFound { name: "value" })
            &&& forall|c: int| #[trigger]
                stands_at(quantiles.fields, "value"@, c) ==> e == (Error::ColumnDataTypeMismatch {
                    name: "value",
                    expect: DataType::Scalar(ScalarType::Float64),
                    actual: quantiles.children[c].data_type(),
                })
        },
{
    lemma_value_names_differ();
    if name == "quantile"@ {
        if let ColumnView::List(list) = column {
            if let ItemsView::Struct(quantiles) = list.items {
                law_first_of_a_name(quantiles.fields, "value"@);
            }
        }
    }
}

/// A batch of data points can be scaled exactly where every value column holds such values. Else
/// it is refused for the first column that does not.
pub proof fn law_first_unsuitable_column(data_points: BatchView)
    ensures
        crate::metric_scale::batch_error(data_points, 0) is None <==> forall|i: int|
            0 <= i < data_points.columns.len() ==> suits(
                data_points.fields[i].name,
                #[trigger] data_points.columns[i],
            ),
        forall|i: int|
            0 <= i < data_points.columns.len() && !suits(
                data_points.fields[i].name,
                #[trigger] data_points.columns[i],
            ) && (forall|k: int|
                0 <= k < i ==> suits(data_points.fields[k].name, #[trigger] data_points.columns[k]))
                ==> crate::metric_scale::batch_error(data_points, 0)
                == crate::metric_scale::column_error(
                data_points.fields[i].name,
                data_points.columns[i],
            ),
{
    lemma_first_unsuitable_column(data_points, 0);
}

/// The columns from a position on can be scaled, or the first that cannot decides.
proof fn lemma_first_unsuitable_column(data_points: BatchView, from: int)
    requires
        0 <= from,
    ensures
        crate::metric_scale::batch_error(data_points, from) is None <==> forall|i: int|
            from <= i < data_points.columns.len() ==> suits(
                data_points.fields[i].name,
                #[trigger] data_points.columns[i],
            ),
        forall|i: int|
            from <= i < data_points.columns.len() && !suits(
                data_points.fields[i].name,
                #[trigger] data_points.columns[i],
            ) && (forall|k: int|
                from <= k < i ==> suits(
                    data_points.fields[k].name,
                    #[trigger] data_points.columns[k],
                )) ==> crate::metric_scale::batch_error(data_points, from)
                == crate::metric_scale::column_error(
                data_points.fields[i].name,
                data_points.columns[i],
            ),
    decreases data_points.columns.len() - from,
{
    if from < data_points.columns.len() {
        law_only_value_columns_stop_a_pass(data_points.fields[from].name, data_points.columns[from]);
        lemma_first_unsuitable_column(data_points, from + 1);
    }
}

/// A double after a pass: multiplied where there is a factor, and else as it was. Nulls stay.
pub open spec fn double_treated(
    ops: Arithmetic,
    before: Option<Double>,
    factor: Option<Double>,
    after: Option<Double>,
) -> bool {
    match before {
        Some(value) => match factor {
            Some(by) => after is Some && (ops.double)(value, by, after->0),
            None => after == Some(value),
        },
        None => after is None,
    }
}

/// An integer after a pass: multiplied where there is a factor, and else as it was. Nulls stay.
pub open spec fn int_treated(
    ops: Arithmetic,
    before: Option<i64>,
    factor: Option<Double>,
    after: Option<i64>,
) -> bool {
    match before {
        Some(value) => match factor {
            Some(by) => after is Some && (ops.int)(value, by, after->0),
            None => after == Some(value),
        },
        None => after is None,
    }
}

/// Doubles in the lists of a row after a pass. A row without list keeps what is stored there, and
/// so does what is stored outside of all lists.
pub open spec fn list_treated(
    ops: Arithmetic,
    list: ListView,
    before: Seq<Option<Double>>,
    row: int,
    factor: Option<Double>,
    after: Seq<Option<Double>>,
) -> bool {
    &&& after.len() == before.len()
    &&& forall|item: int|
        list.offsets[row] <= item < list.offsets[row + 1] ==> double_treated(
            ops,
            before[item],
            if list.validity[row] {
                factor
            } else {
                None
            },
            #[trigger] after[item],
        )
    &&& forall|item: int|
        0 <= item < before.len() && outside(list, item) ==> (#[trigger] after[item])
            == before[item]
}

/// An item is in the list of no row.
pub open spec fn outside(list: ListView, item: int) -> bool {
    forall|row: int|
        0 <= row < list.validity.len() ==> !(#[trigger] list.offsets[row] <= item < list.offsets[row
            + 1])
}

/// One row of a column of data points after a pass, where the row is due a factor or, without
/// one, is left alone: the values under the names of value columns are multiplied, and the
/// column is as it was under every other name.
pub open spec fn row_treated(
    ops: Arithmetic,
    name: Seq<char>,
    before: ColumnView,
    row: int,
    factor: Option<Double>,
    after: ColumnView,
) -> bool {
    if name == "int_value"@ {
        match (before, after) {
            (
                ColumnView::Leaf(LeafView::Plain(ScalarsView::Int64(a))),
                ColumnView::Leaf(LeafView::Plain(ScalarsView::Int64(b))),
            ) => b.len() == a.len() && int_treated(ops, a[row], factor, b[row]),
            _ => false,
        }
    } else if name == "double_value"@ || name == "sum"@ || name == "min"@ || name == "max"@ {
        match (before, after) {
            (
                ColumnView::Leaf(LeafView::Plain(ScalarsView::Float64(a))),
                ColumnView::Leaf(LeafView::Plain(ScalarsView::Float64(b))),
            ) => b.len() == a.len() && double_treated(ops, a[row], factor, b[row]),
            _ => false,
        }
    } else if name == "explicit_bounds"@ {
        match (before, after) {
            (ColumnView::List(a), ColumnView::List(b)) => {
                &&& b.offsets == a.offsets
                &&& b.validity == a.validity
                &&& b.item_nullable == a.item_nullable
                &&& match (a.items, b.items) {
                    (
                        ItemsView::Leaf(LeafView::Plain(ScalarsView::Float64(x))),
                        ItemsView::Leaf(LeafView::Plain(ScalarsView::Float64(y))),
                    ) => list_treated(ops, a, x, row, factor, y),
                    _ => false,
                }
            },
            _ => false,
        }
    } else if name == "quantile"@ {
        match (before, after) {
            (ColumnView::List(a), ColumnView::List(b)) => {
                &&& b.offsets == a.offsets
                &&& b.validity == a.validity
                &&& b.item_nullable == a.item_nullable
                &&& match (a.items, b.items) {
                    (ItemsView::Struct(x), ItemsView::Struct(y)) => quantiles_treated(
                        ops,
                        a,
                        x,
                        row,
                        factor,
                        y,
                    ),
                    _ => false,
                }
            },
            _ => false,
        }
    } else {
        after == before
    }
}

/// Quantiles in the lists of a row after a pass: only the values under `value` are multiplied.
pub open spec fn quantiles_treated(
    ops: Arithmetic,
    list: ListView,
    before: StructView,
    row: int,
    factor: Option<Double>,
    after: StructView,
) -> bool {
    &&& after.fields == before.fields
    &&& after.validity == before.validity
    &&& after.children.len() == before.children.len()
    &&& forall|c: int|
        0 <= c < before.children.len() && !stands_at(before.fields, "value"@, c) ==> (
        #[trigger] after.children[c]) == before.children[c]
    &&& forall|c: int| #[trigger]
        stands_at(before.fields, "value"@, c) ==> match (before.children[c], after.children[c]) {
            (
                LeafView::Plain(ScalarsView::Float64(x)),
                LeafView::Plain(ScalarsView::Float64(y)),
            ) => list_treated(ops, list, x, row, factor, y),
            _ => false,
        }
}

/// A scaled batch treats every row of every column as its factor asks for.
proof fn lemma_rows_treated(
    ops: Arithmetic,
    data_points: BatchView,
    row_factors: Seq<Option<Double>>,
    result: BatchView,
    i: int,
    row: int,
)
    requires
        data_points.wf(),
        ops.batch(data_points, row_factors, result),
        0 <= i < data_points.columns.len(),
        0 <= row < data_points.rows,
    ensures
        row_treated(
            ops,
            data_points.fields[i].name,
            data_points.columns[i],
            row,
            row_factors[row],
            result.columns[i],
        ),
{
    let name = data_points.fields[i].name;
    let before = data_points.columns[i];
    let after = result.columns[i];
    lemma_value_names_differ();
    assert(before.wf() && before.len() == data_points.rows);
    assert(ops.column(name, before, row_factors, after));
    if name == "explicit_bounds"@ {
        let list = before->List_0;
        let values = list.items->Leaf_0->Plain_0->Float64_0;
        let results = after->List_0.items->Leaf_0->Plain_0->Float64_0;
        assert(ops.double_cells(
            values,
            crate::metric_scale::item_factors(list, row_factors),
            results,
        ));
        lemma_list_treated(ops, list, values, row_factors, row, results);
    } else if name == "quantile"@ {
        let list = before->List_0;
        let quantiles = list.items->Struct_0;
        let quantiles_after = after->List_0.items->Struct_0;
        law_first_of_a_name(quantiles.fields, "value"@);
        crate::column::lemma_first_named(quantiles.fields, "value"@, 0);
        let c = crate::column::first_named(quantiles.fields, "value"@, 0)->0;
        assert(stands_at(quantiles.fields, "value"@, c));
        let values = quantiles.children[c]->Plain_0->Float64_0;
        let results = quantiles_after.children[c]->Plain_0->Float64_0;
        assert(quantiles.wf());
        assert(quantiles.children[c].wf());
        assert(quantiles.children[c].len() == list.items.len());
        lemma_list_treated(ops, list, values, row_factors, row, results);
    }
}

/// Items multiplied one by one are treated as the row that they belong to.
proof fn lemma_list_treated(
    ops: Arithmetic,
    list: ListView,
    values: Seq<Option<Double>>,
    row_factors: Seq<Option<Double>>,
    row: int,
    results: Seq<Option<Double>>,
)
    requires
        list.wf(),
        values.len() == list.items.len(),
        0 <= row < list.len(),
        ops.double_cells(values, crate::metric_scale::item_factors(list, row_factors), results),
    ensures
        list_treated(ops, list, values, row, row_factors[row], results),
{
    assert forall|item: int| list.offsets[row] <= item < list.offsets[row + 1] implies double_treated(
        ops,
        values[item],
        if list.validity[row] {
            row_factors[row]
        } else {
            None
        },
        #[trigger] results[item],
    ) by {
        crate::scale_laws::law_item_factor(list, row_factors, row, item);
        assert(list.offsets[row + 1] <= list.offsets[list.offsets.len() - 1]);
        assert(0 <= item < results.len());
        assert(ops.double_cell(
            values[item],
            crate::metric_scale::item_factors(list, row_factors)[item],
            results[item],
        ));
    }
    assert forall|item: int| 0 <= item < values.len() && outside(list, item) implies (
    #[trigger] results[item]) == values[item] by {
        crate::scale_laws::law_item_outside_lists(list, row_factors, item, list.len());
        assert(ops.double_cell(
            values[item],
            crate::metric_scale::item_factors(list, row_factors)[item],
            results[item],
        ));
    }
}

/// A message of metrics whose root payload holds given metrics.
pub open spec fn carries_metrics(records: RecordsView, root: BatchView, metrics: RootView) -> bool {
    &&& records.root == ArrowPayloadType::UnivariateMetrics || records.root
        == ArrowPayloadType::MultivariateMetrics
    &&& records.payloads.contains_key(records.root)
    &&& records.payloads[records.root].plain == Ok::<BatchView, Error>(root)
    &&& lists_metrics(root, metrics)
}

/// Some metric is scaled.
pub open spec fn scales_some(metrics: RootView, rules: Seq<RuleView>) -> bool {
    exists|row: int, rule: int| #[trigger] scaled_by(metrics, rules, row, rule)
}

/// A payload holds the data points of gauges and sums, of histograms, or of summaries.
pub open spec fn is_points(t: ArrowPayloadType) -> bool {
    t == ArrowPayloadType::NumberDataPoints || t == ArrowPayloadType::HistogramDataPoints || t
        == ArrowPayloadType::SummaryDataPoints
}

/// A batch names the metric that each data point belongs to.
pub open spec fn names_parents(data_points: BatchView, parents: Seq<Slot<u16>>) -> bool {
    exists|p: int| #[trigger]
        stands_at(data_points.fields, "parent_id"@, p) && data_points.columns[p]
            == ColumnView::Leaf(LeafView::Plain(ScalarsView::UInt16(parents)))
}

/// A message holds data points with given parents under a payload type.
pub open spec fn carries_points(
    records: RecordsView,
    t: ArrowPayloadType,
    data_points: BatchView,
    parents: Seq<Slot<u16>>,
) -> bool {
    &&& records.payloads.contains_key(t)
    &&& records.payloads[t].plain == Ok::<BatchView, Error>(data_points)
    &&& names_parents(data_points, parents)
}

/// A data point is due a factor, or without one is to be left alone.
pub open spec fn entitled(
    metrics: RootView,
    rules: Seq<RuleView>,
    parent: Slot<u16>,
    factor: Option<Double>,
) -> bool {
    match factor {
        Some(by) => due(metrics, rules, parent, by),
        None => spared(metrics, rules, parent),
    }
}

/// Every data point is to be left alone.
pub open spec fn spares_all(
    metrics: RootView,
    rules: Seq<RuleView>,
    parents: Seq<Slot<u16>>,
) -> bool {
    forall|row: int| 0 <= row < parents.len() ==> spared(metrics, rules, #[trigger] parents[row])
}

/// The parents of data points are read as they stand.
proof fn lemma_parents_read(data_points: BatchView, parents: Seq<Slot<u16>>)
    requires
        data_points.wf(),
        names_parents(data_points, parents),
    ensures
        data_points.required_u16("parent_id") == Ok::<Seq<Slot<u16>>, Error>(parents),
        parents.len() == data_points.rows,
{
    let p = choose|p: int| #[trigger]
        stands_at(data_points.fields, "parent_id"@, p) && data_points.columns[p]
            == ColumnView::Leaf(LeafView::Plain(ScalarsView::UInt16(parents)));
    law_first_of_a_name(data_points.fields, "parent_id"@);
    assert(data_points.columns[p].len() == data_points.rows);
}

/// Some of the first rows is counted as scaled exactly where one is matched so.
proof fn lemma_some_scaled(metrics: RootView, rules: Seq<RuleView>, rows: nat)
    ensures
        metrics.scaled(rules, rows) > 0 <==> exists|row: int|
            0 <= row < rows && #[trigger] metrics.row_match(rules, row) is Scaled,
    decreases rows,
{
    if rows > 0 {
        lemma_some_scaled(metrics, rules, (rows - 1) as nat);
        if metrics.scaled(rules, rows) > 0 && !(metrics.row_match(rules, rows - 1) is Scaled) {
            let row = choose|row: int|
                0 <= row < rows - 1 && #[trigger] metrics.row_match(rules, row) is Scaled;
            assert(0 <= row < rows && metrics.row_match(rules, row) is Scaled);
        }
        if exists|row: int|
            0 <= row < rows && #[trigger] metrics.row_match(rules, row) is Scaled {
            let row = choose|row: int|
                0 <= row < rows && #[trigger] metrics.row_match(rules, row) is Scaled;
            if row < rows - 1 {
                assert(0 <= row < (rows - 1) as nat && metrics.row_match(rules, row) is Scaled);
            }
        }
    }
}

/// What the pass makes of the root payload, given the metrics that it holds.
proof fn lemma_root_step(
    records: RecordsView,
    rules: Seq<RuleView>,
    root: BatchView,
    metrics: RootView,
)
    requires
        records.wf(),
        carries_metrics(records, root, metrics),
    ensures
        root.wf(),
        crate::metric_scale::root_columns(root) == Ok::<RootView, Error>(metrics),
        metrics.ids.len() == root.rows,
        metrics.types.len() == root.rows,
        metrics.names.len() == root.rows,
        scales_some(metrics, rules) <==> metrics.scaled(rules, root.rows) > 0,
        !scales_some(metrics, rules) ==> crate::metric_scale::root_step(records, rules)
            == RootStep::Nothing(metrics.unsupported(rules, root.rows)),
        scales_some(metrics, rules) ==> crate::metric_scale::root_step(records, rules) == (
        match crate::metric_scale::restated(root, metrics.units(rules)) {
            Err(e) => RootStep::Fail(e),
            Ok(after) => RootStep::Scale {
                root: after,
                factors: metrics.factors(rules, root.rows),
                scaled: metrics.scaled(rules, root.rows),
                unsupported: metrics.unsupported(rules, root.rows),
            },
        }),
{
    assert(records.payloads[records.root].wf());
    lemma_metrics_read(root, metrics);
    lemma_some_scaled(metrics, rules, root.rows);
    assert forall|row: int| 0 <= row < root.rows implies (#[trigger] metrics.row_match(
        rules,
        row,
    )) is Scaled == (exists|rule: int| #[trigger] scaled_by(metrics, rules, row, rule)) by {
        law_match_of_a_row(metrics, rules, row);
    }
    if scales_some(metrics, rules) {
        let (row, rule) = choose|row: int, rule: int| #[trigger]
            scaled_by(metrics, rules, row, rule);
        assert(metrics.row_match(rules, row) is Scaled);
    }
    if rules.len() == 0 {
        lemma_no_rules(metrics, rules, root.rows);
    }
}

/// Without rules no metric is counted.
proof fn lemma_no_rules(metrics: RootView, rules: Seq<RuleView>, rows: nat)
    requires
        rules.len() == 0,
    ensures
        metrics.scaled(rules, rows) == 0,
        metrics.unsupported(rules, rows) == 0,
    decreases rows,
{
    if rows > 0 {
        lemma_no_rules(metrics, rules, (rows - 1) as nat);
    }
}

/// No row has a factor exactly where every data point is to be left alone.
proof fn lemma_spares_all(
    metrics: RootView,
    rules: Seq<RuleView>,
    parents: Seq<Slot<u16>>,
)
    ensures
        ({
            let factors = crate::metric_scale::factors_of_rows(
                metrics.factors(rules, metrics.names.len()),
                parents,
            );
            crate::metric_scale::rows_with_factor(factors) == 0 <==> spares_all(
                metrics,
                rules,
                parents,
            )
        }),
{
    let factors = crate::metric_scale::factors_of_rows(
        metrics.factors(rules, metrics.names.len()),
        parents,
    );
    crate::scale_laws::law_data_point_counts(factors);
    let rows = Set::new(|row: int| 0 <= row < factors.len() && factors[row] is Some);
    assert forall|row: int| 0 <= row < parents.len() implies (#[trigger] factors[row]) is None
        == spared(metrics, rules, parents[row]) by {
        law_factor_of_a_data_point(metrics, rules, parents, row);
    }
    if crate::metric_scale::rows_with_factor(factors) == 0 {
        assert(rows =~= Set::empty());
        assert forall|row: int| 0 <= row < parents.len() implies spared(
            metrics,
            rules,
            #[trigger] parents[row],
        ) by {
            assert(!rows.contains(row));
            assert(factors[row] is None);
        }
    }
    if spares_all(metrics, rules, parents) {
        assert forall|row: int| !rows.contains(row) by {
            if 0 <= row < parents.len() {
                assert(spared(metrics, rules, parents[row]));
                assert(factors[row] is None);
            }
        }
        assert(rows =~= Set::empty());
    }
}

/// The rows of metrics that are scaled.
pub open spec fn scaled_rows(metrics: RootView, rules: Seq<RuleView>) -> Set<int> {
    Set::new(|row: int| exists|rule: int| #[trigger] scaled_by(metrics, rules, row, rule))
}

/// The rows of metrics that a rule names but that cannot be scaled.
pub open spec fn refused_rows(metrics: RootView, rules: Seq<RuleView>) -> Set<int> {
    Set::new(|row: int| exists|rule: int| #[trigger] refused_by(metrics, rules, row, rule))
}

/// The rows of data points that belong to a scaled metric.
pub open spec fn due_rows(
    metrics: RootView,
    rules: Seq<RuleView>,
    parents: Seq<Slot<u16>>,
) -> Set<int> {
    Set::new(|row: int| 0 <= row < parents.len() && !spared(metrics, rules, parents[row]))
}

/// A message holds data points with given parents under a payload type, or none at all.
pub open spec fn has_points(
    records: RecordsView,
    t: ArrowPayloadType,
    parents: Seq<Slot<u16>>,
) -> bool {
    ||| !records.payloads.contains_key(t) && parents.len() == 0
    ||| exists|data_points: BatchView| #[trigger] carries_points(records, t, data_points, parents)
}

/// A pass counts the rows of metrics that are scaled, the rows of metrics that a rule names but
/// that cannot be scaled, and the rows of data points, of all three payloads together, that
/// belong to a scaled metric.
pub proof fn law_counts_of_a_pass(
    records: RecordsView,
    rules: Seq<RuleView>,
    root: BatchView,
    metrics: RootView,
    numbers: Seq<Slot<u16>>,
    histograms: Seq<Slot<u16>>,
    summaries: Seq<Slot<u16>>,
    counts: crate::metric_scale::PassCounts,
)
    requires
        records.wf(),
        carries_metrics(records, root, metrics),
        has_points(records, ArrowPayloadType::NumberDataPoints, numbers),
        has_points(records, ArrowPayloadType::HistogramDataPoints, histograms),
        has_points(records, ArrowPayloadType::SummaryDataPoints, summaries),
        crate::metric_scale::pass_counts(records, rules) == Some(counts),
    ensures
        scaled_rows(metrics, rules).finite(),
        counts.metrics_scaled == scaled_rows(metrics, rules).len(),
        refused_rows(metrics, rules).finite(),
        counts.metrics_unsupported == refused_rows(metrics, rules).len(),
        due_rows(metrics, rules, numbers).finite(),
        due_rows(metrics, rules, histograms).finite(),
        due_rows(metrics, rules, summaries).finite(),
        counts.data_points_scaled == due_rows(metrics, rules, numbers).len() + due_rows(
            metrics,
            rules,
            histograms,
        ).len() + due_rows(metrics, rules, summaries).len(),
{
    let rows = root.rows;
    lemma_root_step(records, rules, root, metrics);
    lemma_metric_counts(metrics, rules);
    lemma_due_rows(metrics, rules, numbers);
    lemma_due_rows(metrics, rules, histograms);
    lemma_due_rows(metrics, rules, summaries);
    if scales_some(metrics, rules) {
        let restated = crate::metric_scale::restated(root, metrics.units(rules))->Ok_0;
        let factors = metrics.factors(rules, rows);
        let start = records.set(records.root, restated);
        crate::metric_scale::lemma_stops_at(start, factors, 0);
        reveal_with_fuel(crate::metric_scale::points_scaled, 4);
        reveal_with_fuel(crate::metric_scale::stops_at, 4);
        lemma_points_counted(
            records,
            rules,
            root,
            metrics,
            restated,
            ArrowPayloadType::NumberDataPoints,
            numbers,
        );
        lemma_points_counted(
            records,
            rules,
            root,
            metrics,
            restated,
            ArrowPayloadType::HistogramDataPoints,
            histograms,
        );
        lemma_points_counted(
            records,
            rules,
            root,
            metrics,
            restated,
            ArrowPayloadType::SummaryDataPoints,
            summaries,
        );
    } else {
        lemma_all_spared(metrics, rules, numbers);
        lemma_all_spared(metrics, rules, histograms);
        lemma_all_spared(metrics, rules, summaries);
    }
}

/// Where no metric is scaled, every data point is to be left alone.
proof fn lemma_all_spared(metrics: RootView, rules: Seq<RuleView>, parents: Seq<Slot<u16>>)
    requires
        !scales_some(metrics, rules),
    ensures
        spares_all(metrics, rules, parents),
        due_rows(metrics, rules, parents) =~= Set::empty(),
{
    assert forall|k: int| 0 <= k < parents.len() implies spared(
        metrics,
        rules,
        #[trigger] parents[k],
    ) by {
        assert forall|r: int, rule: int| #[trigger]
            scaled_by(metrics, rules, r, rule) implies !carries_id(metrics, r, parents[k].value) by {
            assert(scales_some(metrics, rules));
        }
    }
}

/// The rows that have a factor are those that belong to a scaled metric.
proof fn lemma_due_rows(metrics: RootView, rules: Seq<RuleView>, parents: Seq<Slot<u16>>)
    ensures
        due_rows(metrics, rules, parents).finite(),
        due_rows(metrics, rules, parents).len() == crate::metric_scale::rows_with_factor(
            crate::metric_scale::factors_of_rows(
                metrics.factors(rules, metrics.names.len()),
                parents,
            ),
        ),
{
    let factors = crate::metric_scale::factors_of_rows(
        metrics.factors(rules, metrics.names.len()),
        parents,
    );
    crate::scale_laws::law_data_point_counts(factors);
    assert forall|row: int| 0 <= row < parents.len() implies (#[trigger] factors[row]) is None
        == spared(metrics, rules, parents[row]) by {
        law_factor_of_a_data_point(metrics, rules, parents, row);
    }
    assert(due_rows(metrics, rules, parents) =~= Set::new(
        |row: int| 0 <= row < factors.len() && factors[row] is Some,
    ));
}

/// What is counted of one payload of data points.
proof fn lemma_points_counted(
    records: RecordsView,
    rules: Seq<RuleView>,
    root: BatchView,
    metrics: RootView,
    restated: BatchView,
    t: ArrowPayloadType,
    parents: Seq<Slot<u16>>,
)
    requires
        records.wf(),
        carries_metrics(records, root, metrics),
        is_points(t),
        has_points(records, t, parents),
    ensures
        ({
            let factors = metrics.factors(rules, root.rows);
            let start = records.set(records.root, restated);
            match crate::metric_scale::points_step(start.get(t), factors) {
                PointsStep::Scale(_, row_factors) => crate::metric_scale::rows_with_factor(
                    row_factors,
                ) == due_rows(metrics, rules, parents).len(),
                PointsStep::Keep => due_rows(metrics, rules, parents).len() == 0,
                PointsStep::Fail(_) => true,
            }
        }),
{
    lemma_root_step(records, rules, root, metrics);
    lemma_due_rows(metrics, rules, parents);
    let start = records.set(records.root, restated);
    assert(start.get(t) == records.get(t));
    if exists|data_points: BatchView| #[trigger] carries_points(records, t, data_points, parents) {
        let data_points = choose|data_points: BatchView| #[trigger]
            carries_points(records, t, data_points, parents);
        assert(records.payloads[t].wf());
        lemma_parents_read(data_points, parents);
    } else {
        assert(due_rows(metrics, rules, parents) =~= Set::empty());
    }
}

/// A pass succeeds exactly where counting it beforehand gives counts, and then returns just
/// these.
pub proof fn law_counts_foretell_the_pass(
    ops: Arithmetic,
    rules: Seq<RuleView>,
    before: RecordsView,
    after: RecordsView,
    result: Result<MetricScaleStats, Error>,
)
    requires
        crate::metric_scale::scale_effect(ops, rules, before, after, result),
    ensures
        match crate::metric_scale::pass_counts(before, rules) {
            Some(counts) => {
                &&& result is Ok
                &&& result->Ok_0.metrics_scaled == counts.metrics_scaled
                &&& result->Ok_0.data_points_scaled == counts.data_points_scaled
                &&& result->Ok_0.metrics_unsupported == counts.metrics_unsupported
            },
            None => result is Err,
        },
{
    if let RootStep::Scale { root, factors, .. } = crate::metric_scale::root_step(before, rules) {
        crate::metric_scale::lemma_stops_at(before.set(before.root, root), factors, 0);
    }
}

/// Some metric is scaled by a rule with a replacement unit.
pub open spec fn restates_some(metrics: RootView, rules: Seq<RuleView>) -> bool {
    exists|row: int, rule: int| #[trigger]
        scaled_by(metrics, rules, row, rule) && rules[rule].unit is Some
}

/// The unit of a metric after a pass: that of the rule that scales it, where the rule has one,
/// and else what it was.
pub open spec fn unit_treated(
    metrics: RootView,
    rules: Seq<RuleView>,
    row: int,
    before: Option<Seq<char>>,
    after: Option<Seq<char>>,
) -> bool {
    &&& forall|rule: int| #[trigger]
        scaled_by(metrics, rules, row, rule) && rules[rule].unit is Some ==> after
            == rules[rule].unit
    &&& (forall|rule: int| #[trigger]
        scaled_by(metrics, rules, row, rule) ==> rules[rule].unit is None) ==> after == before
}

/// A plain column of nullable texts under `unit`.
pub open spec fn holds_units(
    root: BatchView,
    u: int,
    units: Seq<Option<Seq<char>>>,
) -> bool {
    &&& root.fields[u].name == "unit"@
    &&& root.fields[u].nullable
    &&& root.columns[u] == ColumnView::Leaf(LeafView::Plain(ScalarsView::Utf8(units)))
    &&& units.len() == root.rows
}

/// The replacement unit of a row is that of the rule that scales it.
proof fn lemma_unit_of_a_row(metrics: RootView, rules: Seq<RuleView>, row: int)
    requires
        0 <= row < metrics.names.len(),
    ensures
        forall|rule: int| #[trigger]
            scaled_by(metrics, rules, row, rule) ==> metrics.units(rules)[row]
                == rules[rule].unit,
        metrics.units(rules)[row] is Some ==> exists|rule: int| #[trigger]
            scaled_by(metrics, rules, row, rule) && rules[rule].unit is Some,
{
    law_match_of_a_row(metrics, rules, row);
    if metrics.units(rules)[row] is Some {
        let rule = metrics.row_match(rules, row)->Scaled_0;
        assert(scaled_by(metrics, rules, row, rule));
    }
}

/// Some row has a replacement unit exactly where a rule with one scales it.
proof fn lemma_restates_some(metrics: RootView, rules: Seq<RuleView>)
    ensures
        restates_some(metrics, rules) <==> !(forall|row: int|
            0 <= row < metrics.units(rules).len() ==> (#[trigger] metrics.units(rules)[row])
                is None),
{
    let units = metrics.units(rules);
    if restates_some(metrics, rules) {
        let (row, rule) = choose|row: int, rule: int| #[trigger]
            scaled_by(metrics, rules, row, rule) && rules[rule].unit is Some;
        lemma_unit_of_a_row(metrics, rules, row);
        assert(units[row] is Some);
    }
    if !(forall|row: int| 0 <= row < units.len() ==> (#[trigger] units[row]) is None) {
        let row = choose|row: int| 0 <= row < units.len() && (#[trigger] units[row]) is Some;
        lemma_unit_of_a_row(metrics, rules, row);
    }
}

/// What restating makes of a root batch, given the metrics that it holds: each metric that a rule
/// with a unit scales carries that unit, every other one the unit that it had, and no other
/// column changes. The units stand in a plain nullable column under `unit`, in the place of the
/// column that was there or behind all others. They cannot be restated exactly where the column
/// that is there holds no texts.
pub proof fn law_restated_root(root: BatchView, metrics: RootView, rules: Seq<RuleView>)
    requires
        root.wf(),
        lists_metrics(root, metrics),
    ensures
        !restates_some(metrics, rules) ==> crate::metric_scale::restated(root, metrics.units(rules))
            == Ok::<BatchView, Error>(root),
        restates_some(metrics, rules) && lacks(root.fields, "unit"@) ==> {
            &&& crate::metric_scale::restated(root, metrics.units(rules)) matches Ok(after)
            &&& after.rows == root.rows
            &&& after.fields.len() == root.fields.len() + 1
            &&& after.columns.len() == root.columns.len() + 1
            &&& forall|k: int|
                0 <= k < root.fields.len() ==> (#[trigger] after.fields[k]) == root.fields[k]
            &&& forall|k: int|
                0 <= k < root.columns.len() ==> (#[trigger] after.columns[k]) == root.columns[k]
            &&& exists|units: Seq<Option<Seq<char>>>| #[trigger]
                holds_units(after, root.fields.len() as int, units) && forall|row: int|
                    0 <= row < root.rows ==> unit_treated(
                        metrics,
                        rules,
                        row,
                        None,
                        #[trigger] units[row],
                    )
        },
        forall|u: int, texts: Seq<Option<Seq<char>>>|
            restates_some(metrics, rules) && #[trigger] stands_at(root.fields, "unit"@, u)
                && #[trigger] holds_texts(root.columns[u], texts) ==> {
                &&& crate::metric_scale::restated(root, metrics.units(rules)) matches Ok(after)
                &&& after.rows == root.rows
                &&& after.fields.len() == root.fields.len()
                &&& after.columns.len() == root.columns.len()
                &&& forall|k: int|
                    0 <= k < root.fields.len() && k != u ==> (#[trigger] after.fields[k])
                        == root.fields[k]
                &&& forall|k: int|
                    0 <= k < root.columns.len() && k != u ==> (#[trigger] after.columns[k])
                        == root.columns[k]
                &&& exists|units: Seq<Option<Seq<char>>>| #[trigger]
                    holds_units(after, u, units) && forall|row: int|
                        0 <= row < root.rows ==> unit_treated(
                            metrics,
                            rules,
                            row,
                            texts[row],
                            #[trigger] units[row],
                        )
            },
        forall|u: int|
            restates_some(metrics, rules) && #[trigger] stands_at(root.fields, "unit"@, u) && !(
            exists|texts: Seq<Option<Seq<char>>>| #[trigger] holds_texts(root.columns[u], texts))
                ==> crate::metric_scale::restated(root, metrics.units(rules)) == Err::<
                BatchView,
                Error,
            >(Error::UnsupportedStringColumnType { data_type: root.columns[u].data_type() }),
{
    let units = metrics.units(rules);
    lemma_metrics_read(root, metrics);
    lemma_restates_some(metrics, rules);
    law_first_of_a_name(root.fields, "unit"@);
    assert forall|row: int| 0 <= row < root.rows implies (forall|rule: int| #[trigger]
        scaled_by(metrics, rules, row, rule) ==> (#[trigger] units[row]) == rules[rule].unit) && (
    units[row] is Some ==> exists|rule: int| #[trigger]
        scaled_by(metrics, rules, row, rule) && rules[rule].unit is Some) by {
        lemma_unit_of_a_row(metrics, rules, row);
    }
    if restates_some(metrics, rules) {
        if lacks(root.fields, "unit"@) {
            let merged = crate::metric_scale::merged_units(units, None);
            let after = crate::metric_scale::restated(root, units)->Ok_0;
            assert(holds_units(after, root.fields.len() as int, merged));
            assert forall|row: int| 0 <= row < root.rows implies unit_treated(
                metrics,
                rules,
                row,
                None,
                #[trigger] merged[row],
            ) by {
                assert(units[row] == units[row]);
            }
        }
        assert forall|u: int, texts: Seq<Option<Seq<char>>>|
            #[trigger] stands_at(root.fields, "unit"@, u) && #[trigger] holds_texts(
                root.columns[u],
                texts,
            ) implies ({
            &&& crate::metric_scale::restated(root, units) matches Ok(after)
            &&& after.rows == root.rows
            &&& after.fields.len() == root.fields.len()
            &&& after.columns.len() == root.columns.len()
            &&& forall|k: int|
                0 <= k < root.fields.len() && k != u ==> (#[trigger] after.fields[k])
                    == root.fields[k]
            &&& forall|k: int|
                0 <= k < root.columns.len() && k != u ==> (#[trigger] after.columns[k])
                    == root.columns[k]
            &&& exists|written: Seq<Option<Seq<char>>>| #[trigger]
                holds_units(after, u, written) && forall|row: int|
                    0 <= row < root.rows ==> unit_treated(
                        metrics,
                        rules,
                        row,
                        texts[row],
                        #[trigger] written[row],
                    )
        }) by {
            law_texts_of_a_column(root.columns[u]);
            let merged = crate::metric_scale::merged_units(units, Some(texts));
            let after = crate::metric_scale::restated(root, units)->Ok_0;
            assert(holds_units(after, u, merged));
            assert forall|row: int| 0 <= row < root.rows implies unit_treated(
                metrics,
                rules,
                row,
                texts[row],
                #[trigger] merged[row],
            ) by {
                assert(units[row] == units[row]);
            }
        }
        assert forall|u: int|
            #[trigger] stands_at(root.fields, "unit"@, u) && !(exists|
                texts: Seq<Option<Seq<char>>>,
            | #[trigger] holds_texts(root.columns[u], texts)) implies crate::metric_scale::restated(
            root,
            units,
        ) == Err::<BatchView, Error>(
            Error::UnsupportedStringColumnType { data_type: root.columns[u].data_type() },
        ) by {
            law_texts_of_a_column(root.columns[u]);
            if let Ok(texts) = crate::records::column_text(root.columns[u]) {
                assert(holds_texts(root.columns[u], texts));
            }
        }
    }
}

/// After a pass over a message of which some metric is scaled, the root payload is the one whose
/// units are restated, without transport encodings; where the units cannot be restated, the pass
/// reports that and changes nothing. Where no metric is scaled, nothing changes.
pub proof fn law_root_after_a_pass(
    ops: Arithmetic,
    rules: Seq<RuleView>,
    before: RecordsView,
    after: RecordsView,
    result: Result<MetricScaleStats, Error>,
    root: BatchView,
    metrics: RootView,
)
    requires
        before.wf(),
        crate::metric_scale::scale_effect(ops, rules, before, after, result),
        carries_metrics(before, root, metrics),
    ensures
        after.root == before.root,
        after.payloads.dom() == before.payloads.dom(),
        !scales_some(metrics, rules) ==> after == before && result is Ok,
        scales_some(metrics, rules) ==> match crate::metric_scale::restated(
            root,
            metrics.units(rules),
        ) {
            Ok(restated) => {
                &&& after.payloads[before.root].stored == restated
                &&& after.payloads[before.root].plain == Ok::<BatchView, Error>(restated)
            },
            Err(e) => after == before && result == Err::<MetricScaleStats, Error>(e),
        },
        forall|t: ArrowPayloadType| #[trigger]
            before.payloads.contains_key(t) && t != before.root && !is_points(t)
                ==> after.payloads[t] == before.payloads[t],
{
    lemma_root_step(before, rules, root, metrics);
    if let RootStep::Scale { root: restated, factors, .. } = crate::metric_scale::root_step(
        before,
        rules,
    ) {
        let start = before.set(before.root, restated);
        crate::metric_scale::lemma_stops_at(start, factors, 0);
        assert(start.payloads.dom() =~= before.payloads.dom());
        assert(start.payloads.contains_key(before.root));
        assert forall|t: ArrowPayloadType| #[trigger]
            before.payloads.contains_key(t) && t != before.root && !is_points(
                t,
            ) implies after.payloads[t] == before.payloads[t] by {
            assert(start.payloads.contains_key(t));
        }
    }
}

/// Without rules, on a message that holds no metrics, or on one without root payload, a pass
/// changes nothing and counts nothing.
pub proof fn law_nothing_to_scale(
    ops: Arithmetic,
    rules: Seq<RuleView>,
    before: RecordsView,
    after: RecordsView,
    result: Result<MetricScaleStats, Error>,
)
    requires
        crate::metric_scale::scale_effect(ops, rules, before, after, result),
        rules.len() == 0 || (before.root != ArrowPayloadType::UnivariateMetrics && before.root
            != ArrowPayloadType::MultivariateMetrics) || !before.payloads.contains_key(before.root),
    ensures
        after == before,
        result is Ok,
        result->Ok_0.metrics_scaled == 0,
        result->Ok_0.data_points_scaled == 0,
        result->Ok_0.metrics_unsupported == 0,
{
}

/// A root batch cannot be read as metrics, for a reason: one of the columns `id`, `metric_type`
/// and `name`, taken in this order, is missing or is not of plain 16-bit integers, plain 8-bit
/// integers and texts.
pub open spec fn unreadable(root: BatchView, e: Error) -> bool {
    let ids_read = exists|i: int| #[trigger]
        stands_at(root.fields, "id"@, i) && root.columns[i] is Leaf && root.columns[i]->Leaf_0
            is Plain && root.columns[i]->Leaf_0->Plain_0 is UInt16;
    let types_read = exists|j: int| #[trigger]
        stands_at(root.fields, "metric_type"@, j) && root.columns[j] is Leaf
            && root.columns[j]->Leaf_0 is Plain && root.columns[j]->Leaf_0->Plain_0 is UInt8;
    ||| lacks(root.fields, "id"@) && e == (Error::ColumnNotFound { name: "id" })
    ||| !ids_read && exists|i: int| #[trigger]
        stands_at(root.fields, "id"@, i) && e == (Error::ColumnDataTypeMismatch {
            name: "id",
            expect: DataType::Scalar(ScalarType::UInt16),
            actual: root.columns[i].data_type(),
        })
    ||| ids_read && lacks(root.fields, "metric_type"@) && e == (Error::ColumnNotFound {
        name: "metric_type",
    })
    ||| ids_read && !types_read && exists|j: int| #[trigger]
        stands_at(root.fields, "metric_type"@, j) && e == (Error::ColumnDataTypeMismatch {
            name: "metric_type",
            expect: DataType::Scalar(ScalarType::UInt8),
            actual: root.columns[j].data_type(),
        })
    ||| ids_read && types_read && lacks(root.fields, "name"@) && e == (Error::ColumnNotFound {
        name: "name",
    })
    ||| ids_read && types_read && exists|k: int| #[trigger]
        stands_at(root.fields, "name"@, k) && !(exists|texts: Seq<Option<Seq<char>>>| #[trigger]
            holds_texts(root.columns[k], texts)) && e == (Error::UnsupportedStringColumnType {
            data_type: root.columns[k].data_type(),
        })
}

/// A root batch either holds metrics, or cannot be read for one reason, which a pass with rules
/// then reports without changing anything.
pub proof fn law_unreadable_metrics(root: BatchView)
    ensures
        forall|e: Error|
            crate::metric_scale::root_columns(root) == Err::<RootView, Error>(e)
                <==> #[trigger] unreadable(root, e),
        forall|metrics: RootView|
            crate::metric_scale::root_columns(root) == Ok::<RootView, Error>(metrics)
                <==> #[trigger] lists_metrics(root, metrics),
{
    law_first_of_a_name(root.fields, "id"@);
    law_first_of_a_name(root.fields, "metric_type"@);
    law_first_of_a_name(root.fields, "name"@);
    let ids = crate::column::first_named(root.fields, "id"@, 0);
    let types = crate::column::first_named(root.fields, "metric_type"@, 0);
    let names = crate::column::first_named(root.fields, "name"@, 0);
    if let Some(i) = ids {
        assert(stands_at(root.fields, "id"@, i));
    }
    if let Some(j) = types {
        assert(stands_at(root.fields, "metric_type"@, j));
    }
    if let Some(k) = names {
        assert(stands_at(root.fields, "name"@, k));
        law_texts_of_a_column(root.columns[k]);
        if let Ok(texts) = crate::records::column_text(root.columns[k]) {
            assert(holds_texts(root.columns[k], texts));
        }
    }
}

/// A pass with rules over a message of metrics fails where its root payload cannot be decoded or
/// read, for that reason, and then changes nothing.
pub proof fn law_unreadable_root(
    ops: Arithmetic,
    rules: Seq<RuleView>,
    before: RecordsView,
    after: RecordsView,
    result: Result<MetricScaleStats, Error>,
    e: Error,
)
    requires
        crate::metric_scale::scale_effect(ops, rules, before, after, result),
        rules.len() > 0,
        before.root == ArrowPayloadType::UnivariateMetrics || before.root
            == ArrowPayloadType::MultivariateMetrics,
        before.payloads.contains_key(before.root),
        match before.payloads[before.root].plain {
            Ok(root) => unreadable(root, e),
            Err(reason) => e == reason,
        },
    ensures
        after == before,
        result == Err::<MetricScaleStats, Error>(e),
{
    if let Ok(root) = before.payloads[before.root].plain {
        law_unreadable_metrics(root);
    }
}

/// The first column of a batch that does not suit its name.
pub open spec fn first_unsuitable(data_points: BatchView, i: int) -> bool {
    &&& 0 <= i < data_points.columns.len()
    &&& !suits(data_points.fields[i].name, data_points.columns[i])
    &&& forall|k: int|
        0 <= k < i ==> suits(data_points.fields[k].name, #[trigger] data_points.columns[k])
}

/// A payload of data points stops a pass, for a reason: it cannot be decoded, its parents cannot
/// be read, or it has rows to be scaled and a value column that does not hold such values.
pub open spec fn points_fail(
    records: RecordsView,
    metrics: RootView,
    rules: Seq<RuleView>,
    t: ArrowPayloadType,
    e: Error,
) -> bool {
    records.payloads.contains_key(t) && match records.payloads[t].plain {
        Err(reason) => e == reason,
        Ok(data_points) => {
            ||| lacks(data_points.fields, "parent_id"@) && e == (Error::ColumnNotFound {
                name: "parent_id",
            })
            ||| exists|p: int| #[trigger]
                stands_at(data_points.fields, "parent_id"@, p) && !(data_points.columns[p] is Leaf
                    && data_points.columns[p]->Leaf_0 is Plain
                    && data_points.columns[p]->Leaf_0->Plain_0 is UInt16) && e == (
                Error::ColumnDataTypeMismatch {
                    name: "parent_id",
                    expect: DataType::Scalar(ScalarType::UInt16),
                    actual: data_points.columns[p].data_type(),
                })
            ||| exists|parents: Seq<Slot<u16>>, i: int|
                {
                    &&& #[trigger] names_parents(data_points, parents)
                    &&& !spares_all(metrics, rules, parents)
                    &&& #[trigger] first_unsuitable(data_points, i)
                    &&& crate::metric_scale::column_error(
                        data_points.fields[i].name,
                        data_points.columns[i],
                    ) == Some(e)
                }
        },
    }
}

/// A payload makes the pass fail exactly where it stops it.
proof fn lemma_points_fail(
    records: RecordsView,
    rules: Seq<RuleView>,
    root: BatchView,
    metrics: RootView,
    restated: BatchView,
    t: ArrowPayloadType,
)
    requires
        records.wf(),
        carries_metrics(records, root, metrics),
        is_points(t),
    ensures
        ({
            let start = records.set(records.root, restated);
            let step = crate::metric_scale::points_step(
                start.get(t),
                metrics.factors(rules, root.rows),
            );
            forall|e: Error|
                step == PointsStep::Fail(e) <==> #[trigger] points_fail(
                    records,
                    metrics,
                    rules,
                    t,
                    e,
                )
        }),
{
    lemma_root_step(records, rules, root, metrics);
    let start = records.set(records.root, restated);
    assert(start.get(t) == records.get(t));
    let step = crate::metric_scale::points_step(start.get(t), metrics.factors(rules, root.rows));
    if records.payloads.contains_key(t) {
        if let Ok(data_points) = records.payloads[t].plain {
            assert(records.payloads[t].wf());
            law_first_of_a_name(data_points.fields, "parent_id"@);
            law_first_unsuitable_column(data_points);
            match crate::column::first_named(data_points.fields, "parent_id"@, 0) {
                None => {},
                Some(p) => {
                    assert(stands_at(data_points.fields, "parent_id"@, p));
                    match data_points.columns[p] {
                        ColumnView::Leaf(LeafView::Plain(ScalarsView::UInt16(parents))) => {
                            assert(names_parents(data_points, parents));
                            lemma_spares_all(metrics, rules, parents);
                            assert forall|others: Seq<Slot<u16>>| #[trigger]
                                names_parents(data_points, others) implies others == parents by {
                                lemma_parents_read(data_points, others);
                                lemma_parents_read(data_points, parents);
                            }
                            if crate::metric_scale::batch_error(data_points, 0) is Some {
                                let bad = choose|i: int|
                                    0 <= i < data_points.columns.len() && !suits(
                                        data_points.fields[i].name,
                                        #[trigger] data_points.columns[i],
                                    );
                                let i = lemma_first_unsuitable(data_points, bad);
                                assert(first_unsuitable(data_points, i));
                            }
                            assert forall|i: int| #[trigger]
                                first_unsuitable(
                                    data_points,
                                    i,
                                ) implies crate::metric_scale::batch_error(data_points, 0)
                                == crate::metric_scale::column_error(
                                data_points.fields[i].name,
                                data_points.columns[i],
                            ) by {
                                assert(!suits(data_points.fields[i].name, data_points.columns[i]));
                            }
                        },
                        _ => {},
                    }
                },
            }
        }
    }
}

/// Where a column does not suit its name, one is the first.
proof fn lemma_first_unsuitable(data_points: BatchView, bad: int) -> (i: int)
    requires
        0 <= bad < data_points.columns.len(),
        !suits(data_points.fields[bad].name, data_points.columns[bad]),
    ensures
        first_unsuitable(data_points, i),
    decreases bad,
{
    if forall|k: int|
        0 <= k < bad ==> suits(data_points.fields[k].name, #[trigger] data_points.columns[k]) {
        bad
    } else {
        let k = choose|k: int|
            0 <= k < bad && !suits(data_points.fields[k].name, #[trigger] data_points.columns[k]);
        lemma_first_unsuitable(data_points, k)
    }
}

/// A payload of data points does not stop a pass.
pub open spec fn points_pass(
    records: RecordsView,
    metrics: RootView,
    rules: Seq<RuleView>,
    t: ArrowPayloadType,
) -> bool {
    forall|e: Error| !(#[trigger] points_fail(records, metrics, rules, t, e))
}

/// A pass over a message whose metrics can be read and whose units can be restated fails exactly
/// where a payload of data points stops it, for the reason of the first one that does: number
/// data points come first, then histograms, then summaries. From that payload on, the data points
/// are as they were.
pub proof fn law_failures_of_a_pass(
    ops: Arithmetic,
    rules: Seq<RuleView>,
    before: RecordsView,
    after: RecordsView,
    result: Result<MetricScaleStats, Error>,
    root: BatchView,
    metrics: RootView,
)
    requires
        before.wf(),
        crate::metric_scale::scale_effect(ops, rules, before, after, result),
        carries_metrics(before, root, metrics),
        scales_some(metrics, rules),
        crate::metric_scale::restated(root, metrics.units(rules)) is Ok,
    ensures
        result is Ok <==> {
            &&& points_pass(before, metrics, rules, ArrowPayloadType::NumberDataPoints)
            &&& points_pass(before, metrics, rules, ArrowPayloadType::HistogramDataPoints)
            &&& points_pass(before, metrics, rules, ArrowPayloadType::SummaryDataPoints)
        },
        forall|e: Error|
            points_fail(before, metrics, rules, ArrowPayloadType::NumberDataPoints, e) ==> result
                == Err::<MetricScaleStats, Error>(e) && after.get(ArrowPayloadType::NumberDataPoints)
                == before.get(ArrowPayloadType::NumberDataPoints) && after.get(
                ArrowPayloadType::HistogramDataPoints,
            ) == before.get(ArrowPayloadType::HistogramDataPoints) && after.get(
                ArrowPayloadType::SummaryDataPoints,
            ) == before.get(ArrowPayloadType::SummaryDataPoints),
        forall|e: Error|
            points_pass(before, metrics, rules, ArrowPayloadType::NumberDataPoints) && points_fail(
                before,
                metrics,
                rules,
                ArrowPayloadType::HistogramDataPoints,
                e,
            ) ==> result == Err::<MetricScaleStats, Error>(e) && after.get(
                ArrowPayloadType::HistogramDataPoints,
            ) == before.get(ArrowPayloadType::HistogramDataPoints) && after.get(
                ArrowPayloadType::SummaryDataPoints,
            ) == before.get(ArrowPayloadType::SummaryDataPoints),
        forall|e: Error|
            points_pass(before, metrics, rules, ArrowPayloadType::NumberDataPoints) && points_pass(
                before,
                metrics,
                rules,
                ArrowPayloadType::HistogramDataPoints,
            ) && points_fail(before, metrics, rules, ArrowPayloadType::SummaryDataPoints, e)
                ==> result == Err::<MetricScaleStats, Error>(e) && after.get(
                ArrowPayloadType::SummaryDataPoints,
            ) == before.get(ArrowPayloadType::SummaryDataPoints),
{
    lemma_root_step(before, rules, root, metrics);
    let restated = crate::metric_scale::restated(root, metrics.units(rules))->Ok_0;
    let factors = metrics.factors(rules, root.rows);
    let start = before.set(before.root, restated);
    crate::metric_scale::lemma_stops_at(start, factors, 0);
    reveal_with_fuel(crate::metric_scale::stops_at, 4);
    let numbers = ArrowPayloadType::NumberDataPoints;
    let histograms = ArrowPayloadType::HistogramDataPoints;
    let summaries = ArrowPayloadType::SummaryDataPoints;
    lemma_points_fail(before, rules, root, metrics, restated, numbers);
    lemma_points_fail(before, rules, root, metrics, restated, histograms);
    lemma_points_fail(before, rules, root, metrics, restated, summaries);
    lemma_pass_or_fail(start, factors, before, rules, metrics, numbers);
    lemma_pass_or_fail(start, factors, before, rules, metrics, histograms);
    lemma_pass_or_fail(start, factors, before, rules, metrics, summaries);
    assert(start.payloads.dom() =~= before.payloads.dom());
    assert(start.payloads.contains_key(numbers) == before.payloads.contains_key(numbers));
    assert(start.payloads.contains_key(histograms) == before.payloads.contains_key(histograms));
    assert(start.payloads.contains_key(summaries) == before.payloads.contains_key(summaries));
    assert(after.payloads.contains_key(numbers) == before.payloads.contains_key(numbers));
    assert(after.payloads.contains_key(histograms) == before.payloads.contains_key(histograms));
    assert(after.payloads.contains_key(summaries) == before.payloads.contains_key(summaries));
}

/// A payload does not stop a pass exactly where its step is none that fails.
proof fn lemma_pass_or_fail(
    start: RecordsView,
    factors: Map<u16, Double>,
    records: RecordsView,
    rules: Seq<RuleView>,
    metrics: RootView,
    t: ArrowPayloadType,
)
    requires
        forall|e: Error|
            crate::metric_scale::points_step(start.get(t), factors) == PointsStep::Fail(e)
                <==> #[trigger] points_fail(records, metrics, rules, t, e),
    ensures
        points_pass(records, metrics, rules, t) <==> !(crate::metric_scale::points_step(
            start.get(t),
            factors,
        ) is Fail),
{
    if let PointsStep::Fail(e) = crate::metric_scale::points_step(start.get(t), factors) {
        assert(points_fail(records, metrics, rules, t, e));
    }
}

/// Multiplying is what the functions handed over do.
pub proof fn law_arithmetic_is_the_callers<
    D: Fn(Double, Double) -> Double,
    I: Fn(i64, Double) -> i64,
>(scale_double: D, scale_int: I)
    ensures
        forall|value: Double, factor: Double, result: Double|
            (crate::metric_scale::arithmetic(scale_double, scale_int).double)(
                value,
                factor,
                result,
            ) <==> #[trigger] call_ensures(scale_double, (value, factor), result),
        forall|value: i64, factor: Double, result: i64|
            (crate::metric_scale::arithmetic(scale_double, scale_int).int)(value, factor, result)
                <==> #[trigger] call_ensures(scale_int, (value, factor), result),
{
}

/// A call that scales a message has the effect of a pass on it: what is stated of a pass holds
/// of the message before and after the call, and of what it returns.
pub proof fn law_a_call_is_a_pass<D: Fn(Double, Double) -> Double, I: Fn(i64, Double) -> i64>(
    records: &mut OtapArrowRecords,
    rules: Vec<MetricScaleRule>,
    scale_double: D,
    scale_int: I,
    result: Result<MetricScaleStats, Error>,
)
    requires
        call_ensures(
            crate::metric_scale::apply_metric_scale::<D, I>,
            (records, &rules, &scale_double, &scale_int),
            result,
        ),
    ensures
        crate::metric_scale::scale_effect(
            crate::metric_scale::arithmetic(scale_double, scale_int),
            crate::metric_scale::rule_views(rules@),
            old(records)@,
            final(records)@,
            result,
        ),
        final(records).wf(),
{
}

/// The contents of a rule are its names, its factor and its unit, and rules keep their order.
pub proof fn law_contents_of_rules(rules: Vec<MetricScaleRule>, i: int, k: int)
    requires
        0 <= i < rules@.len(),
        0 <= k < rules@[i].metric_names@.len(),
    ensures
        crate::metric_scale::rule_views(rules@).len() == rules@.len(),
        crate::metric_scale::rule_views(rules@)[i].metric_names.len()
            == rules@[i].metric_names@.len(),
        crate::metric_scale::rule_views(rules@)[i].metric_names[k] == rules@[i].metric_names@[k]@,
        crate::metric_scale::rule_views(rules@)[i].factor == rules@[i].factor,
        match rules@[i].unit {
            Some(unit) => crate::metric_scale::rule_views(rules@)[i].unit == Some(unit@),
            None => crate::metric_scale::rule_views(rules@)[i].unit is None,
        },
{
}

/// Gauges, sums, histograms and summaries can be scaled, and nothing else: not metrics without
/// data, not exponential histograms, and no type that has no code.
pub proof fn law_types_that_can_be_scaled(code: u8, r: bool)
    requires
        call_ensures(crate::metric_scale::is_scalable, (code,), r),
    ensures
        r <==> is_magnitude(code),
        r == crate::metric_scale::scalable(code),
{
}

/// A plan holds, for the metrics of a root batch, the factor that data points of each identifier
/// are due, and the unit that each row gets; building it counts the rows that are scaled and
/// those that a rule names but that cannot be.
pub proof fn law_plan_of_a_root(
    root: crate::records::RecordBatch,
    rules: Vec<MetricScaleRule>,
    stats: &mut MetricScaleStats,
    result: Result<ScalePlan, Error>,
    metrics: RootView,
    id: u16,
    row: int,
)
    requires
        root@.wf(),
        lists_metrics(root@, metrics),
        call_ensures(ScalePlan::build, (&root, &rules, stats), result),
        0 <= row < root@.rows,
    ensures
        result is Ok,
        ({
            let plan = result->Ok_0;
            let views = crate::metric_scale::rule_views(rules@);
            let factors = plan.factor_by_metric_id@;
            &&& forall|factor: Double|
                (factors.contains_key(id) && factors[id] == factor) <==> #[trigger] due(
                    metrics,
                    views,
                    Slot { valid: true, value: id },
                    factor,
                )
            &&& plan.unit_by_row@.len() == root@.rows
            &&& match plan.unit_by_row@[row] {
                Some(unit) => exists|rule: int| #[trigger]
                    scaled_by(metrics, views, row, rule) && views[rule].unit == Some(unit@),
                None => forall|rule: int| #[trigger]
                    scaled_by(metrics, views, row, rule) ==> views[rule].unit is None,
            }
            &&& final(stats).metrics_scaled == old(stats).metrics_scaled + scaled_rows(
                metrics,
                views,
            ).len()
            &&& final(stats).metrics_unsupported == old(stats).metrics_unsupported + refused_rows(
                metrics,
                views,
            ).len()
            &&& final(stats).data_points_scaled == old(stats).data_points_scaled
        }),
{
    let views = crate::metric_scale::rule_views(rules@);
    let rows = root@.rows;
    lemma_metrics_read(root@, metrics);
    lemma_metric_counts(metrics, views);
    lemma_unit_of_a_row(metrics, views, row);
    let plan = result->Ok_0;
    let factors = plan.factor_by_metric_id@;
    assert(crate::column::text_cells(plan.unit_by_row@) == metrics.units(views));
    assert(crate::column::text_cells(plan.unit_by_row@).len() == plan.unit_by_row@.len());
    assert(crate::column::text_cells(plan.unit_by_row@)[row] == crate::column::text_cell(
        plan.unit_by_row@[row],
    ));
    let parents = seq![Slot { valid: true, value: id }];
    law_factor_of_a_data_point(metrics, views, parents, 0);
    assert(parents[0] == Slot { valid: true, value: id });
    assert forall|factor: Double|
        (factors.contains_key(id) && factors[id] == factor) <==> #[trigger] due(
            metrics,
            views,
            Slot { valid: true, value: id },
            factor,
        ) by {
        assert(crate::metric_scale::factors_of_rows(factors, parents)[0] == (
        if factors.contains_key(id) {
            Some(factors[id])
        } else {
            None
        }));
    }
}

/// The counted metrics are the rows that are scaled, and those that are refused.
proof fn lemma_metric_counts(metrics: RootView, rules: Seq<RuleView>)
    ensures
        scaled_rows(metrics, rules).finite(),
        scaled_rows(metrics, rules).len() == metrics.scaled(rules, metrics.names.len()),
        refused_rows(metrics, rules).finite(),
        refused_rows(metrics, rules).len() == metrics.unsupported(rules, metrics.names.len()),
{
    let rows = metrics.names.len();
    crate::scale_laws::law_metric_counts(metrics, rules, rows);
    assert forall|row: int| 0 <= row < rows implies (#[trigger] metrics.row_match(rules, row)
        is Scaled) == (exists|rule: int| #[trigger] scaled_by(metrics, rules, row, rule)) && (
    metrics.row_match(rules, row) is Unsupported) == (exists|rule: int| #[trigger]
        refused_by(metrics, rules, row, rule)) by {
        law_match_of_a_row(metrics, rules, row);
    }
    assert(scaled_rows(metrics, rules) =~= Set::new(
        |row: int| 0 <= row < rows && metrics.row_match(rules, row) is Scaled,
    ));
    assert(refused_rows(metrics, rules) =~= Set::new(
        |row: int| 0 <= row < rows && metrics.row_match(rules, row) is Unsupported,
    ));
}

/// A plan gives each data point the factor of the metric that its parent identifier names, and
/// none where that is null or names no metric of the plan.
pub proof fn law_factors_of_a_plan(
    plan: ScalePlan,
    data_points: crate::records::RecordBatch,
    result: Result<Vec<Option<Double>>, Error>,
    parents: Seq<Slot<u16>>,
    row: int,
)
    requires
        data_points@.wf(),
        names_parents(data_points@, parents),
        call_ensures(ScalePlan::row_factors, (&plan, &data_points), result),
        0 <= row < data_points@.rows,
    ensures
        result is Ok,
        result->Ok_0@.len() == data_points@.rows,
        match result->Ok_0@[row] {
            Some(factor) => parents[row].valid && plan.factor_by_metric_id@.contains_key(
                parents[row].value,
            ) && plan.factor_by_metric_id@[parents[row].value] == factor,
            None => !parents[row].valid || !plan.factor_by_metric_id@.contains_key(
                parents[row].value,
            ),
        },
{
    lemma_parents_read(data_points@, parents);
}

/// Counting a pass beforehand gives what the pass counts, and nothing where it fails.
pub proof fn law_counting_beforehand(
    records: OtapArrowRecords,
    rules: Vec<MetricScaleRule>,
    result: Option<MetricScaleStats>,
)
    requires
        call_ensures(crate::metric_scale::count_pass, (&records, &rules), result),
    ensures
        match crate::metric_scale::pass_counts(
            records@,
            crate::metric_scale::rule_views(rules@),
        ) {
            Some(counts) => {
                &&& result is Some
                &&& result->0.metrics_scaled == counts.metrics_scaled
                &&& result->0.data_points_scaled == counts.data_points_scaled
                &&& result->0.metrics_unsupported == counts.metrics_unsupported
            },
            None => result is None,
        },
{
}

/// The units of a message are too long for one column exactly where some are restated and the
/// units of all metrics together then take up more bytes than 32-bit offsets reach.
pub proof fn law_units_that_do_not_fit(
    records: OtapArrowRecords,
    rules: Vec<MetricScaleRule>,
    fits: bool,
    root: BatchView,
    metrics: RootView,
)
    requires
        records.wf(),
        carries_metrics(records@, root, metrics),
        call_ensures(crate::metric_scale::unit_column_fits, (&records, &rules), fits),
    ensures
        ({
            let views = crate::metric_scale::rule_views(rules@);
            &&& !restates_some(metrics, views) ==> fits
            &&& match crate::metric_scale::restated(root, metrics.units(views)) {
                Ok(after) => forall|u: int, units: Seq<Option<Seq<char>>>|
                    restates_some(metrics, views) && 0 <= u < after.columns.len()
                        && #[trigger] holds_units(after, u, units) && (root.fields.len() == u
                        || stands_at(root.fields, "unit"@, u)) ==> (fits
                        <==> crate::column::cells_bytes(ScalarsView::Utf8(units).cells())
                        <= 0x7fff_ffff),
                Err(_) => fits,
            }
        }),
{
    let views = crate::metric_scale::rule_views(rules@);
    lemma_root_step(records@, views, root, metrics);
    law_restated_root(root, metrics, views);
    lemma_restates_some(metrics, views);
    law_first_of_a_name(root.fields, "unit"@);
    if let Ok(after) = crate::metric_scale::restated(root, metrics.units(views)) {
        assert forall|u: int, units: Seq<Option<Seq<char>>>|
            restates_some(metrics, views) && 0 <= u < after.columns.len() && #[trigger] holds_units(
                after,
                u,
                units,
            ) && (root.fields.len() == u || stands_at(root.fields, "unit"@, u)) implies (fits
            <==> crate::column::cells_bytes(ScalarsView::Utf8(units).cells()) <= 0x7fff_ffff) by {
            let (row, rule) = choose|row: int, rule: int| #[trigger]
                scaled_by(metrics, views, row, rule) && views[rule].unit is Some;
            assert(scales_some(metrics, views));
            let column = ScalarsView::Utf8(units);
            assert(after.columns[u].wf() == column.wf());
            match crate::column::first_named(root.fields, "unit"@, 0) {
                Some(place) => {
                    assert(stands_at(root.fields, "unit"@, place));
                    assert(after.columns.len() == root.columns.len());
                    assert(u == place);
                },
                None => {
                    assert(u == root.fields.len());
                },
            }
            if column.wf() {
                assert forall|k: int| 0 <= k < after.columns.len() implies (
                #[trigger] after.columns[k]).wf() && after.columns[k].len() == after.rows by {
                    if k != u {
                        assert(after.columns[k] == root.columns[k]);
                    }
                }
            }
        }
    }
}

/// A payload of data points and those before it do not stop a pass: number data points come first,
/// then histograms, then summaries.
pub open spec fn points_reached(
    records: RecordsView,
    metrics: RootView,
    rules: Seq<RuleView>,
    t: ArrowPayloadType,
) -> bool {
    &&& points_pass(records, metrics, rules, ArrowPayloadType::NumberDataPoints)
    &&& t == ArrowPayloadType::HistogramDataPoints || t == ArrowPayloadType::SummaryDataPoints
        ==> points_pass(records, metrics, rules, ArrowPayloadType::HistogramDataPoints)
    &&& t == ArrowPayloadType::SummaryDataPoints ==> points_pass(
        records,
        metrics,
        rules,
        ArrowPayloadType::SummaryDataPoints,
    )
}

/// After a pass, a payload of data points none of which belongs to a scaled metric is as it was,
/// with its encodings. In any other payload of data points of gauges, sums, histograms or
/// summaries, each row that belongs to a scaled metric has its values multiplied by the factor of
/// that metric's rule, and each other row is as it was: integers under `int_value`, doubles under
/// `double_value`, `sum`, `min` and `max`, the bounds under `explicit_bounds` and the values of
/// quantiles under `quantile`. Every other column, such as bucket counts, is as it was. Where the
/// pass fails, this still holds of the payloads before the one that stops it.
pub proof fn law_data_points_after_a_pass(
    ops: Arithmetic,
    rules: Seq<RuleView>,
    before: RecordsView,
    after: RecordsView,
    result: Result<MetricScaleStats, Error>,
    root: BatchView,
    metrics: RootView,
    t: ArrowPayloadType,
    data_points: BatchView,
    parents: Seq<Slot<u16>>,
    i: int,
    row: int,
    factor: Option<Double>,
)
    requires
        before.wf(),
        crate::metric_scale::scale_effect(ops, rules, before, after, result),
        carries_metrics(before, root, metrics),
        is_points(t),
        carries_points(before, t, data_points, parents),
        0 <= i < data_points.columns.len(),
        0 <= row < data_points.rows,
        entitled(metrics, rules, parents[row], factor),
        result is Ok || (crate::metric_scale::restated(root, metrics.units(rules)) is Ok
            && points_reached(before, metrics, rules, t)),
    ensures
        after.payloads.contains_key(t),
        spares_all(metrics, rules, parents) ==> after.payloads[t] == before.payloads[t],
        !spares_all(metrics, rules, parents) ==> {
            let scaled = after.payloads[t].stored;
            &&& after.payloads[t].plain == Ok::<BatchView, Error>(scaled)
            &&& scaled.fields == data_points.fields
            &&& scaled.rows == data_points.rows
            &&& scaled.columns.len() == data_points.columns.len()
            &&& row_treated(
                ops,
                data_points.fields[i].name,
                data_points.columns[i],
                row,
                factor,
                scaled.columns[i],
            )
        },
{
    lemma_root_step(before, rules, root, metrics);
    assert(before.payloads[t].wf());
    lemma_parents_read(data_points, parents);
    lemma_spares_all(metrics, rules, parents);
    law_factor_of_a_data_point(metrics, rules, parents, row);
    if scales_some(metrics, rules) {
        let restated = crate::metric_scale::restated(root, metrics.units(rules))->Ok_0;
        let factors = metrics.factors(rules, root.rows);
        let start = before.set(before.root, restated);
        if result is Ok {
            law_failures_of_a_pass(ops, rules, before, after, result, root, metrics);
        }
        assert(points_reached(before, metrics, rules, t));
        let numbers = ArrowPayloadType::NumberDataPoints;
        let histograms = ArrowPayloadType::HistogramDataPoints;
        let summaries = ArrowPayloadType::SummaryDataPoints;
        lemma_points_fail(before, rules, root, metrics, restated, numbers);
        lemma_points_fail(before, rules, root, metrics, restated, histograms);
        lemma_points_fail(before, rules, root, metrics, restated, summaries);
        lemma_pass_or_fail(start, factors, before, rules, metrics, numbers);
        lemma_pass_or_fail(start, factors, before, rules, metrics, histograms);
        lemma_pass_or_fail(start, factors, before, rules, metrics, summaries);
        crate::metric_scale::lemma_stops_at(start, factors, 0);
        reveal_with_fuel(crate::metric_scale::stops_at, 4);
        assert(start.payloads.contains_key(t));
        assert(start.payloads[t] == before.payloads[t]);
        assert(after.payloads.dom().contains(t));
        if !spares_all(metrics, rules, parents) {
            let row_factors = crate::metric_scale::factors_of_rows(factors, parents);
            assert(ops.batch(data_points, row_factors, after.payloads[t].stored));
            lemma_rows_treated(
                ops,
                data_points,
                row_factors,
                after.payloads[t].stored,
                i,
                row,
            );
        }
    } else {
        lemma_all_spared(metrics, rules, parents);
    }
}

/// Where a pass has nothing to do or cannot read the metrics, no unit is restated, so the units
/// fit.
pub proof fn law_units_that_are_not_restated(
    records: OtapArrowRecords,
    rules: Vec<MetricScaleRule>,
    fits: bool,
)
    requires
        call_ensures(crate::metric_scale::unit_column_fits, (&records, &rules), fits),
        rules@.len() == 0 || (records@.root != ArrowPayloadType::UnivariateMetrics && records@.root
            != ArrowPayloadType::MultivariateMetrics) || !records@.payloads.contains_key(
            records@.root,
        ) || match records@.payloads[records@.root].plain {
            Ok(root) => exists|e: Error| #[trigger] unreadable(root, e),
            Err(_) => true,
        },
    ensures
        fits,
{
    if records@.payloads.contains_key(records@.root) {
        if let Ok(root) = records@.payloads[records@.root].plain {
            law_unreadable_metrics(root);
        }
    }
}

/// A pass over a message without metrics, or without rules, counts nothing.
pub proof fn law_nothing_to_count(records: RecordsView, rules: Seq<RuleView>)
    requires
        rules.len() == 0 || (records.root != ArrowPayloadType::UnivariateMetrics && records.root
            != ArrowPayloadType::MultivariateMetrics) || !records.payloads.contains_key(
            records.root,
        ),
    ensures
        crate::metric_scale::pass_counts(records, rules) matches Some(counts)
            && counts.metrics_scaled == 0 && counts.data_points_scaled == 0
            && counts.metrics_unsupported == 0,
{
}

/// A unit that a plan has for a row is written there, and else what was there stays.
pub open spec fn unit_written(
    planned: Option<String>,
    before: Option<Seq<char>>,
    after: Option<Seq<char>>,
) -> bool {
    match planned {
        Some(unit) => after == Some(unit@),
        None => after == before,
    }
}

/// Applying the units of any plan to a root batch writes the unit of each row that has one in the
/// plan, keeps that of every other row, and changes no other column. Where the plan has no unit,
/// nothing changes.
pub proof fn law_applied_units(
    plan: ScalePlan,
    root: crate::records::RecordBatch,
    result: Result<crate::records::RecordBatch, Error>,
)
    requires
        root@.wf(),
        plan.unit_by_row@.len() == root@.rows,
        call_ensures(ScalePlan::apply_units, (&plan, &root), result),
    ensures
        (forall|row: int| 0 <= row < root@.rows ==> (#[trigger] plan.unit_by_row@[row]) is None)
            ==> result is Ok && result->Ok_0@ == root@,
        forall|row: int|
            0 <= row < root@.rows && (#[trigger] plan.unit_by_row@[row]) is Some && lacks(
                root@.fields,
                "unit"@,
            ) ==> {
                &&& result matches Ok(after)
                &&& after@.rows == root@.rows
                &&& after@.fields.len() == root@.fields.len() + 1
                &&& after@.columns.len() == root@.columns.len() + 1
                &&& forall|k: int|
                    0 <= k < root@.fields.len() ==> (#[trigger] after@.fields[k]) == root@.fields[k]
                &&& forall|k: int|
                    0 <= k < root@.columns.len() ==> (#[trigger] after@.columns[k])
                        == root@.columns[k]
                &&& exists|units: Seq<Option<Seq<char>>>| #[trigger]
                    holds_units(after@, root@.fields.len() as int, units) && forall|k: int|
                        0 <= k < root@.rows ==> unit_written(
                            plan.unit_by_row@[k],
                            None,
                            #[trigger] units[k],
                        )
            },
        forall|row: int, u: int, texts: Seq<Option<Seq<char>>>|
            0 <= row < root@.rows && (#[trigger] plan.unit_by_row@[row]) is Some && (
            #[trigger] stands_at(root@.fields, "unit"@, u)) && #[trigger] holds_texts(
                root@.columns[u],
                texts,
            ) ==> {
                &&& result matches Ok(after)
                &&& after@.rows == root@.rows
                &&& after@.fields.len() == root@.fields.len()
                &&& after@.columns.len() == root@.columns.len()
                &&& forall|k: int|
                    0 <= k < root@.fields.len() && k != u ==> (#[trigger] after@.fields[k])
                        == root@.fields[k]
                &&& forall|k: int|
                    0 <= k < root@.columns.len() && k != u ==> (#[trigger] after@.columns[k])
                        == root@.columns[k]
                &&& exists|units: Seq<Option<Seq<char>>>| #[trigger]
                    holds_units(after@, u, units) && forall|k: int|
                        0 <= k < root@.rows ==> unit_written(
                            plan.unit_by_row@[k],
                            texts[k],
                            #[trigger] units[k],
                        )
            },
{
    let units = crate::column::text_cells(plan.unit_by_row@);
    assert(units.len() == plan.unit_by_row@.len());
    assert forall|k: int| 0 <= k < root@.rows implies #[trigger] units[k]
        == crate::column::text_cell(plan.unit_by_row@[k]) by {}
    law_first_of_a_name(root@.fields, "unit"@);
    if forall|row: int| 0 <= row < root@.rows ==> (#[trigger] plan.unit_by_row@[row]) is None {
        assert forall|row: int| 0 <= row < units.len() implies (#[trigger] units[row]) is None by {
            assert(plan.unit_by_row@[row] is None);
        }
    }
    if exists|row: int| 0 <= row < root@.rows && (#[trigger] plan.unit_by_row@[row]) is Some {
        let some = choose|row: int|
            0 <= row < root@.rows && (#[trigger] plan.unit_by_row@[row]) is Some;
        assert(units[some] is Some);
        match crate::column::first_named(root@.fields, "unit"@, 0) {
            None => {
                let merged = crate::metric_scale::merged_units(units, None);
                assert(holds_units(result->Ok_0@, root@.fields.len() as int, merged));
                assert forall|k: int| 0 <= k < root@.rows implies unit_written(
                    plan.unit_by_row@[k],
                    None,
                    #[trigger] merged[k],
                ) by {
                    assert(units[k] == crate::column::text_cell(plan.unit_by_row@[k]));
                }
            },
            Some(u) => {
                assert(stands_at(root@.fields, "unit"@, u));
                law_texts_of_a_column(root@.columns[u]);
                if let Ok(texts) = crate::records::column_text(root@.columns[u]) {
                    assert(holds_texts(root@.columns[u], texts));
                    let merged = crate::metric_scale::merged_units(units, Some(texts));
                    assert(holds_units(result->Ok_0@, u, merged));
                    assert forall|k: int| 0 <= k < root@.rows implies unit_written(
                        plan.unit_by_row@[k],
                        texts[k],
                        #[trigger] merged[k],
                    ) by {
                        assert(units[k] == crate::column::text_cell(plan.unit_by_row@[k]));
                    }
                }
            },
        }
    }
}

/// A payload of data points can be scaled: its parents can be read, and every value column holds
/// such values. What other columns hold does not matter.
pub open spec fn points_suit(records: RecordsView, t: ArrowPayloadType) -> bool {
    records.payloads.contains_key(t) ==> {
        &&& records.payloads[t].plain matches Ok(data_points)
        &&& exists|parents: Seq<Slot<u16>>| #[trigger] names_parents(data_points, parents)
        &&& forall|i: int|
            0 <= i < data_points.columns.len() ==> suits(
                data_points.fields[i].name,
                #[trigger] data_points.columns[i],
            )
    }
}

/// A pass over a message whose metrics can be read succeeds where the units, if any are restated,
/// replace texts or nothing, and every payload of data points can be scaled. So columns that hold
/// no values, such as bucket counts, flags or times, never make it fail.
pub proof fn law_sound_messages_are_scaled(
    ops: Arithmetic,
    rules: Seq<RuleView>,
    before: RecordsView,
    after: RecordsView,
    result: Result<MetricScaleStats, Error>,
    root: BatchView,
    metrics: RootView,
)
    requires
        before.wf(),
        crate::metric_scale::scale_effect(ops, rules, before, after, result),
        carries_metrics(before, root, metrics),
        forall|u: int| #[trigger]
            stands_at(root.fields, "unit"@, u) ==> exists|texts: Seq<Option<Seq<char>>>| #[trigger]
                holds_texts(root.columns[u], texts),
        points_suit(before, ArrowPayloadType::NumberDataPoints),
        points_suit(before, ArrowPayloadType::HistogramDataPoints),
        points_suit(before, ArrowPayloadType::SummaryDataPoints),
    ensures
        result is Ok,
{
    law_root_after_a_pass(ops, rules, before, after, result, root, metrics);
    if scales_some(metrics, rules) {
        lemma_root_step(before, rules, root, metrics);
        law_restated_root(root, metrics, rules);
        law_first_of_a_name(root.fields, "unit"@);
        if let Some(u) = crate::column::first_named(root.fields, "unit"@, 0) {
            assert(stands_at(root.fields, "unit"@, u));
        }
        law_failures_of_a_pass(ops, rules, before, after, result, root, metrics);
        lemma_points_suit(before, metrics, rules, ArrowPayloadType::NumberDataPoints);
        lemma_points_suit(before, metrics, rules, ArrowPayloadType::HistogramDataPoints);
        lemma_points_suit(before, metrics, rules, ArrowPayloadType::SummaryDataPoints);
    }
}

/// A payload that can be scaled does not stop a pass.
proof fn lemma_points_suit(
    records: RecordsView,
    metrics: RootView,
    rules: Seq<RuleView>,
    t: ArrowPayloadType,
)
    requires
        points_suit(records, t),
    ensures
        points_pass(records, metrics, rules, t),
{
    if records.payloads.contains_key(t) {
        let data_points = records.payloads[t].plain->Ok_0;
        law_first_of_a_name(data_points.fields, "parent_id"@);
        let parents = choose|parents: Seq<Slot<u16>>| #[trigger]
            names_parents(data_points, parents);
        assert(names_parents(data_points, parents));
    }
}

} // verus!
