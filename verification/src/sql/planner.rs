//! From a parsed `SELECT` to a logical plan over registered tables.
use vstd::prelude::*;

use std::sync::Arc;

use crate::dataframe::{DataFrame, col, col_index};
use crate::error::{Error, SpecError, result_view};
use crate::logical_plan::expr::{
    BinaryOp, Literal, LogicalExpr, SpecLiteral, SpecLogicalExpr, expr_view, exprs_view, names_column, share,
    share_all, spec_binary_op_from,
};
use crate::logical_plan::{SpecLogicalPlan, plan_schema};
use crate::names::{
    NameSet, is_sorted_names, law_names_insert, law_names_inter, law_names_minus, law_names_union, names_insert,
    names_inter, names_minus, names_union, names_view,
};
use crate::schema::{DataType, Schema, SpecDataType, SpecField};
use crate::sql::expr::{Select, SpecSelect, SpecSqlExpr, SqlExpr, sql_view, sql_views};
use crate::sql::parser::{lemma_function_view, lemma_select_view, opt_view};
use crate::text::{ascii_uppercase, is_ascii_text, lowercase, uppercase, str_eq, to_lowercase, to_uppercase};

verus! {

/// The data type that a lowercase cast type names: `double` is the one a
/// `CAST` can take.
pub open spec fn cast_type_of(lower: Seq<char>) -> Option<SpecDataType> {
    if lower == "double"@ {
        Some(SpecDataType::Float64)
    } else {
        None
    }
}

/// The data type that a `CAST` names.
pub open spec fn spec_parse_data_type(t: Seq<char>) -> Result<SpecDataType, SpecError> {
    match cast_type_of(lowercase(t)) {
        Some(dt) => Ok(dt),
        None => Err(SpecError::UnsupportedCastType(t)),
    }
}

/// The aggregate functions that take their first argument as input.
pub open spec fn is_plain_aggregate(upper: Seq<char>) -> bool {
    upper == "MIN"@ || upper == "MAX"@ || upper == "SUM"@ || upper == "AVG"@
}

/// The logical expression of a SQL expression.  `COUNT` of anything but `*`,
/// functions that are not aggregates, `CAST`s, sorts and nested selects are
/// not handled.
pub open spec fn spec_logical_expr(e: SpecSqlExpr) -> Result<SpecLogicalExpr, SpecError>
    decreases e,
{
    match e {
        SpecSqlExpr::Indentifier(id) => Ok(SpecLogicalExpr::Column(id)),
        SpecSqlExpr::String(v) => Ok(SpecLogicalExpr::Literal(SpecLiteral::String(v))),
        SpecSqlExpr::Long(v) => Ok(SpecLogicalExpr::Literal(SpecLiteral::Long(v))),
        SpecSqlExpr::Double(v) => Ok(SpecLogicalExpr::Literal(SpecLiteral::Double(v))),
        SpecSqlExpr::BinaryExpr { lhs, op, rhs } => match spec_logical_expr(*lhs) {
            Err(err) => Err(err),
            Ok(l) => match spec_logical_expr(*rhs) {
                Err(err) => Err(err),
                Ok(r) => match spec_binary_op_from(op) {
                    Err(err) => Err(err),
                    Ok(o) => Ok(SpecLogicalExpr::Binary { lhs: Box::new(l), op: o, rhs: Box::new(r) }),
                },
            },
        },
        SpecSqlExpr::Alias { expr, alias } => match spec_logical_expr(*expr) {
            Err(err) => Err(err),
            Ok(x) => Ok(SpecLogicalExpr::Alias { expr: Box::new(x), alias }),
        },
        SpecSqlExpr::Function { id, args } => {
            let upper = uppercase(id);
            if is_plain_aggregate(upper) {
                if args.len() == 0 {
                    Err(SpecError::MissingArgument(upper))
                } else {
                    match spec_logical_expr(args[0]) {
                        Err(err) => Err(err),
                        Ok(x) => Ok(SpecLogicalExpr::Aggregate { name: upper, expr: Box::new(x) }),
                    }
                }
            } else if upper == "COUNT"@ {
                if args.len() == 0 {
                    Err(SpecError::MissingArgument(upper))
                } else if args[0] == SpecSqlExpr::Indentifier("*"@) {
                    Ok(SpecLogicalExpr::Aggregate {
                        name: upper,
                        expr: Box::new(SpecLogicalExpr::Literal(SpecLiteral::Long(1))),
                    })
                } else {
                    Err(SpecError::Unsupported)
                }
            } else {
                Err(SpecError::Unsupported)
            }
        },
        SpecSqlExpr::Cast { expr, data_type } => match spec_parse_data_type(data_type) {
            Err(err) => Err(err),
            Ok(dt) => match spec_logical_expr(*expr) {
                Err(err) => Err(err),
                Ok(x) => Ok(SpecLogicalExpr::Cast { expr: Box::new(x), data_type: dt }),
            },
        },
        SpecSqlExpr::Sort { .. } => Err(SpecError::Unsupported),
        SpecSqlExpr::Select(_) => Err(SpecError::Unsupported),
    }
}

/// A call of `MIN`, `MAX`, `SUM` or `AVG` is read in any ASCII case, and its
/// aggregate is named in uppercase.
pub proof fn law_aggregate_call_in_any_case(id: Seq<char>, args: Seq<SpecSqlExpr>)
    requires
        is_ascii_text(id),
        is_plain_aggregate(ascii_uppercase(id)),
        args.len() > 0,
        spec_logical_expr(args[0]) is Ok,
    ensures
        spec_logical_expr(SpecSqlExpr::Function { id, args }) == Ok::<SpecLogicalExpr, SpecError>(SpecLogicalExpr::Aggregate {
            name: ascii_uppercase(id),
            expr: Box::new(spec_logical_expr(args[0])->Ok_0),
        }),
{
}

/// The logical expressions of a list; the first error wins.
pub open spec fn spec_logical_exprs(es: Seq<SpecSqlExpr>) -> Result<Seq<SpecLogicalExpr>, SpecError>
    decreases es.len(),
{
    if es.len() == 0 {
        Ok(Seq::empty())
    } else {
        match spec_logical_exprs(es.drop_last()) {
            Err(err) => Err(err),
            Ok(xs) => match spec_logical_expr(es.last()) {
                Err(err) => Err(err),
                Ok(x) => Ok(xs.push(x)),
            },
        }
    }
}

/// The column names an expression refers to, added to `acc`.
pub open spec fn collect_columns(e: SpecLogicalExpr, acc: Seq<Seq<char>>) -> Seq<Seq<char>>
    decreases e,
{
    match e {
        SpecLogicalExpr::Column(c) => names_insert(acc, c),
        SpecLogicalExpr::Binary { lhs, rhs, .. } => collect_columns(*rhs, collect_columns(*lhs, acc)),
        SpecLogicalExpr::Aggregate { expr, .. } => collect_columns(*expr, acc),
        SpecLogicalExpr::Alias { expr, .. } => collect_columns(*expr, acc),
        _ => acc,
    }
}

/// The column names a list of expressions refers to, in ascending order.
pub open spec fn referenced_columns(es: Seq<SpecLogicalExpr>) -> Seq<Seq<char>>
    decreases es.len(),
{
    if es.len() == 0 {
        Seq::empty()
    } else {
        collect_columns(es.last(), referenced_columns(es.drop_last()))
    }
}

/// The names of a list of fields, in ascending order.
pub open spec fn field_name_set(fs: Seq<SpecField>) -> Seq<Seq<char>>
    decreases fs.len(),
{
    if fs.len() == 0 {
        Seq::empty()
    } else {
        names_insert(field_name_set(fs.drop_last()), fs.last().name)
    }
}

/// The columns that an expression refers to and that the table has.
pub open spec fn spec_valid_referenced_columns(e: SpecSqlExpr, table: SpecLogicalPlan) -> Result<Seq<Seq<char>>, SpecError> {
    match spec_logical_expr(e) {
        Err(err) => Err(err),
        Ok(x) => match plan_schema(table) {
            Err(err) => Err(err),
            Ok(s) => Ok(names_inter(collect_columns(x, Seq::empty()), field_name_set(s))),
        },
    }
}

pub open spec fn columns_of(names: Seq<Seq<char>>) -> Seq<SpecLogicalExpr> {
    names.map_values(|n: Seq<char>| SpecLogicalExpr::Column(n))
}

pub open spec fn projection_of(input: SpecLogicalPlan, exprs: Seq<SpecLogicalExpr>) -> SpecLogicalPlan {
    SpecLogicalPlan::Projection { input: Box::new(input), exprs }
}

pub open spec fn selection_of(input: SpecLogicalPlan, expr: SpecLogicalExpr) -> SpecLogicalPlan {
    SpecLogicalPlan::Selection { input: Box::new(input), expr }
}

/// A query without aggregates: the projection, filtered; columns that only
/// the filter needs are projected first and dropped after the filter.
pub open spec fn spec_plan_non_aggregate(
    filter: Option<Box<SpecSqlExpr>>,
    df: SpecLogicalPlan,
    projection: Seq<SpecLogicalExpr>,
) -> Result<SpecLogicalPlan, SpecError> {
    match filter {
        None => Ok(projection_of(df, projection)),
        Some(f) => match spec_valid_referenced_columns(*f, df) {
            Err(err) => Err(err),
            Ok(in_filter) => {
                let missing = names_minus(in_filter, referenced_columns(projection));
                match spec_logical_expr(*f) {
                    Err(err) => Err(err),
                    Ok(fx) => if missing.len() == 0 {
                        Ok(selection_of(projection_of(df, projection), fx))
                    } else {
                        Ok(projection_of(
                            selection_of(projection_of(df, projection + columns_of(missing)), fx),
                            projection,
                        ))
                    },
                }
            },
        }
    }
}

/// The aggregate list and the final projection of an aggregate query: an
/// aggregate goes to the aggregate list and is projected by its column; an
/// alias of a non-aggregate puts the aliased expression in the aggregate
/// list; anything else is projected as the next group column.
pub open spec fn spec_split(es: Seq<SpecLogicalExpr>, num_group: int)
    -> Result<(Seq<SpecLogicalExpr>, Seq<SpecLogicalExpr>, int), SpecError>
    decreases es.len(),
{
    if es.len() == 0 {
        Ok((Seq::empty(), Seq::empty(), 0))
    } else {
        match spec_split(es.drop_last(), num_group) {
            Err(err) => Err(err),
            Ok((aggregate, projection, group_count)) => match es.last() {
                SpecLogicalExpr::Aggregate { .. } => Ok((
                    aggregate.push(es.last()),
                    projection.push(SpecLogicalExpr::ColumnIndex((num_group + aggregate.len()) as usize)),
                    group_count,
                )),
                SpecLogicalExpr::Alias { expr, alias } => if *expr is Aggregate {
                    Err(SpecError::AliasWrapsAggregate)
                } else {
                    Ok((
                        aggregate.push(*expr),
                        projection.push(SpecLogicalExpr::Alias {
                            expr: Box::new(SpecLogicalExpr::ColumnIndex((num_group + aggregate.len()) as usize)),
                            alias,
                        }),
                        group_count,
                    ))
                },
                _ => Ok((aggregate, projection.push(SpecLogicalExpr::ColumnIndex(group_count as usize)), group_count + 1)),
            },
        }
    }
}

pub open spec fn has_aggregate(es: Seq<SpecLogicalExpr>) -> bool {
    exists|i: int| 0 <= i < es.len() && (#[trigger] es[i]) is Aggregate
}

/// The expressions that are not aggregates, in order.
pub open spec fn non_aggregates(es: Seq<SpecLogicalExpr>) -> Seq<SpecLogicalExpr>
    decreases es.len(),
{
    if es.len() == 0 {
        Seq::empty()
    } else if es.last() is Aggregate {
        non_aggregates(es.drop_last())
    } else {
        non_aggregates(es.drop_last()).push(es.last())
    }
}

/// The filtered input of an aggregate query: the non-aggregate expressions,
/// and every other column that the filter or the aggregates need, projected
/// and then filtered.
pub open spec fn spec_filtered_input(
    filter: SpecSqlExpr,
    df: SpecLogicalPlan,
    projection_expr: Seq<SpecLogicalExpr>,
    aggregate: Seq<SpecLogicalExpr>,
) -> Result<SpecLogicalPlan, SpecError> {
    let plain = non_aggregates(projection_expr);
    let in_plain = referenced_columns(plain);
    let in_aggregates = referenced_columns(aggregate);
    match spec_valid_referenced_columns(filter, df) {
        Err(err) => Err(err),
        Ok(in_filter) => {
            let all = names_union(names_union(in_plain, in_filter), in_aggregates);
            let missing = names_minus(all, in_plain);
            match spec_logical_expr(filter) {
                Err(err) => Err(err),
                Ok(fx) => if missing.len() == 0 {
                    Ok(selection_of(projection_of(df, plain), fx))
                } else {
                    Ok(selection_of(projection_of(df, plain + columns_of(missing)), fx))
                },
            }
        },
    }
}

proof fn lemma_collect_columns_members(e: SpecLogicalExpr, acc: Seq<Seq<char>>)
    requires
        is_sorted_names(acc),
    ensures
        is_sorted_names(collect_columns(e, acc)),
        forall|y: Seq<char>| #[trigger] collect_columns(e, acc).contains(y) <==> (acc.contains(y) || names_column(e, y)),
    decreases e,
{
    match e {
        SpecLogicalExpr::Column(c) => law_names_insert(acc, c),
        SpecLogicalExpr::Binary { lhs, rhs, .. } => {
            lemma_collect_columns_members(*lhs, acc);
            lemma_collect_columns_members(*rhs, collect_columns(*lhs, acc));
        },
        SpecLogicalExpr::Aggregate { expr, .. } => lemma_collect_columns_members(*expr, acc),
        SpecLogicalExpr::Alias { expr, .. } => lemma_collect_columns_members(*expr, acc),
        _ => {},
    }
}

proof fn lemma_referenced_columns_members(es: Seq<SpecLogicalExpr>)
    ensures
        is_sorted_names(referenced_columns(es)),
        forall|y: Seq<char>| #[trigger] referenced_columns(es).contains(y)
            <==> exists|i: int| 0 <= i < es.len() && names_column(#[trigger] es[i], y),
    decreases es.len(),
{
    if es.len() > 0 {
        let init = es.drop_last();
        lemma_referenced_columns_members(init);
        lemma_collect_columns_members(es.last(), referenced_columns(init));
        assert forall|y: Seq<char>| #[trigger] referenced_columns(es).contains(y)
            <==> exists|i: int| 0 <= i < es.len() && names_column(#[trigger] es[i], y) by {
            if exists|i: int| 0 <= i < es.len() && names_column(#[trigger] es[i], y) {
                let i = choose|i: int| 0 <= i < es.len() && names_column(#[trigger] es[i], y);
                if i < es.len() - 1 {
                    assert(init[i] == es[i]);
                }
            }
            if exists|i: int| 0 <= i < init.len() && names_column(#[trigger] init[i], y) {
                let i = choose|i: int| 0 <= i < init.len() && names_column(#[trigger] init[i], y);
                assert(es[i] == init[i]);
            }
        }
    } else {
        assert(referenced_columns(es) =~= Seq::<Seq<char>>::empty());
    }
}

/// The projection under the filter of an aggregate query, when the plan is
/// a filter over a projection of `df`.
pub open spec fn projected_under_filter(r: SpecLogicalPlan, df: SpecLogicalPlan) -> Option<Seq<SpecLogicalExpr>> {
    match r {
        SpecLogicalPlan::Selection { input, .. } => match *input {
            SpecLogicalPlan::Projection { input: d, exprs } => if *d == df { Some(exprs) } else { None },
            _ => None,
        },
        _ => None,
    }
}

/// The input of an aggregate query with a filter is the table, projected
/// and then filtered.  The projection starts with the query's expressions
/// that are not aggregates, and it names every column that an aggregate
/// names: a column that those expressions do not name is projected as
/// itself.  It also names every column of the table that the filter names.
pub proof fn law_filtered_input_keeps_needed_columns(
    filter: SpecSqlExpr,
    df: SpecLogicalPlan,
    projection_expr: Seq<SpecLogicalExpr>,
    aggregate: Seq<SpecLogicalExpr>,
    n: Seq<char>,
)
    requires
        spec_filtered_input(filter, df, projection_expr, aggregate) is Ok,
    ensures
        ({
            let r = spec_filtered_input(filter, df, projection_expr, aggregate)->Ok_0;
            let plain = non_aggregates(projection_expr);
            let named_by_aggregate = exists|i: int| 0 <= i < aggregate.len() && names_column(#[trigger] aggregate[i], n);
            let named_by_plain = exists|j: int| 0 <= j < plain.len() && names_column(#[trigger] plain[j], n);
            let named_by_filter = names_column(spec_logical_expr(filter)->Ok_0, n)
                && exists|k: int| 0 <= k < plan_schema(df)->Ok_0.len() && #[trigger] plan_schema(df)->Ok_0[k].name == n;
            &&& projected_under_filter(r, df) is Some
            &&& projected_under_filter(r, df)->Some_0.len() >= plain.len()
            &&& projected_under_filter(r, df)->Some_0.subrange(0, plain.len() as int) == plain
            &&& (named_by_aggregate || named_by_filter) && !named_by_plain
                ==> projected_under_filter(r, df)->Some_0.contains(SpecLogicalExpr::Column(n))
            &&& (named_by_aggregate || named_by_filter) ==> exists|j: int|
                0 <= j < projected_under_filter(r, df)->Some_0.len()
                    && names_column(#[trigger] projected_under_filter(r, df)->Some_0[j], n)
        }),
{
    let plain = non_aggregates(projection_expr);
    let in_plain = referenced_columns(plain);
    let in_aggregates = referenced_columns(aggregate);
    lemma_referenced_columns_members(plain);
    lemma_referenced_columns_members(aggregate);
    let fx = spec_logical_expr(filter)->Ok_0;
    let fields = plan_schema(df)->Ok_0;
    lemma_collect_columns_members(fx, Seq::empty());
    lemma_field_name_set_members(fields);
    let in_filter = spec_valid_referenced_columns(filter, df)->Ok_0;
    law_names_inter(collect_columns(fx, Seq::empty()), field_name_set(fields));
    law_names_union(in_plain, in_filter);
    law_names_union(names_union(in_plain, in_filter), in_aggregates);
    let all = names_union(names_union(in_plain, in_filter), in_aggregates);
    law_names_minus(all, in_plain);
    let missing = names_minus(all, in_plain);
    let r = spec_filtered_input(filter, df, projection_expr, aggregate)->Ok_0;
    let exprs = if missing.len() == 0 { plain } else { plain + columns_of(missing) };
    assert(projected_under_filter(r, df) == Some(exprs));
    assert(exprs.subrange(0, plain.len() as int) =~= plain);
    let named_by_aggregate = exists|i: int| 0 <= i < aggregate.len() && names_column(#[trigger] aggregate[i], n);
    let named_by_plain = exists|j: int| 0 <= j < plain.len() && names_column(#[trigger] plain[j], n);
    let named_by_filter = names_column(fx, n)
        && exists|k: int| 0 <= k < fields.len() && #[trigger] fields[k].name == n;
    if named_by_aggregate || named_by_filter {
        assert(all.contains(n));
        if named_by_plain {
            let j = choose|j: int| 0 <= j < plain.len() && names_column(#[trigger] plain[j], n);
            assert(exprs[j] == plain[j]);
        } else {
            assert(missing.contains(n));
            let m = choose|m: int| 0 <= m < missing.len() && missing[m] == n;
            let j = plain.len() + m;
            assert(exprs[j] == SpecLogicalExpr::Column(n));
            assert(names_column(exprs[j], n));
        }
    }
}

proof fn lemma_field_name_set_members(fs: Seq<SpecField>)
    ensures
        is_sorted_names(field_name_set(fs)),
        forall|y: Seq<char>| #[trigger] field_name_set(fs).contains(y)
            <==> exists|k: int| 0 <= k < fs.len() && #[trigger] fs[k].name == y,
    decreases fs.len(),
{
    if fs.len() > 0 {
        let init = fs.drop_last();
        lemma_field_name_set_members(init);
        law_names_insert(field_name_set(init), fs.last().name);
        assert forall|y: Seq<char>| #[trigger] field_name_set(fs).contains(y)
            <==> exists|k: int| 0 <= k < fs.len() && #[trigger] fs[k].name == y by {
            if exists|k: int| 0 <= k < fs.len() && #[trigger] fs[k].name == y {
                let k = choose|k: int| 0 <= k < fs.len() && #[trigger] fs[k].name == y;
                if k < fs.len() - 1 {
                    assert(init[k].name == y);
                }
            }
            if exists|k: int| 0 <= k < init.len() && #[trigger] init[k].name == y {
                let k = choose|k: int| 0 <= k < init.len() && #[trigger] init[k].name == y;
                assert(fs[k].name == y);
            }
        }
    } else {
        assert(field_name_set(fs) =~= Seq::<Seq<char>>::empty());
    }
}

/// The first registered table of that name.
pub open spec fn lookup_table(tables: Seq<(Seq<char>, SpecLogicalPlan)>, name: Seq<char>) -> Option<SpecLogicalPlan>
    decreases tables.len(),
{
    if tables.len() == 0 {
        None
    } else if tables[0].0 == name {
        Some(tables[0].1)
    } else {
        lookup_table(tables.drop_first(), name)
    }
}

pub open spec fn tables_view(v: Seq<(String, DataFrame)>) -> Seq<(Seq<char>, SpecLogicalPlan)> {
    v.map_values(|t: (String, DataFrame)| (t.0@, t.1@))
}

/// The aggregate part of a query, after its projection has been read.
pub open spec fn spec_plan_aggregate(s: SpecSelect, df: SpecLogicalPlan, projection_expr: Seq<SpecLogicalExpr>) -> Result<SpecLogicalPlan, SpecError> {
    match spec_logical_exprs(s.group_by) {
        Err(err) => Err(err),
        Ok(group_by) => match spec_split(projection_expr, s.group_by.len() as int) {
            Err(err) => Err(err),
            Ok((aggregate, projection, _)) => {
                let input = match s.filter {
                    Some(f) => spec_filtered_input(*f, df, projection_expr, aggregate),
                    None => Ok(df),
                };
                match input {
                    Err(err) => Err(err),
                    Ok(input) => {
                        let aggregated = projection_of(
                            SpecLogicalPlan::Aggregate { input: Box::new(input), group_expr: group_by, aggregate_expr: aggregate },
                            projection,
                        );
                        match s.having {
                            None => Ok(aggregated),
                            Some(h) => match spec_logical_expr(*h) {
                                Err(err) => Err(err),
                                Ok(hx) => Ok(selection_of(aggregated, hx)),
                            },
                        }
                    },
                }
            },
        },
    }
}

/// The plan of a `SELECT` over the registered tables.
pub open spec fn spec_create_dataframe(e: SpecSqlExpr, tables: Seq<(Seq<char>, SpecLogicalPlan)>) -> Result<SpecLogicalPlan, SpecError> {
    match e {
        SpecSqlExpr::Select(s) => match lookup_table(tables, s.table_name) {
            None => Err(SpecError::NoSuchTable(s.table_name)),
            Some(df) => match spec_logical_exprs(s.projection) {
                Err(err) => Err(err),
                Ok(projection_expr) => if !has_aggregate(projection_expr) {
                    spec_plan_non_aggregate(s.filter, df, projection_expr)
                } else {
                    spec_plan_aggregate(s, df, projection_expr)
                },
            },
        },
        _ => Err(SpecError::NotASelect),
    }
}


/// The data type that a `CAST` names.
fn parse_data_type(data_type: &str) -> (r: Result<DataType, Error>)
    ensures
        result_view(r) == spec_parse_data_type(data_type@),
{
    let lower = to_lowercase(data_type);
    match cast_type(lower.as_str()) {
        Some(dt) => Ok(dt),
        None => Err(Error::UnsupportedCastType(String::from_str(data_type))),
    }
}

/// The data type that a lowercase cast type names, if a `CAST` can take it.
pub fn cast_type(lower: &str) -> (r: Option<DataType>)
    ensures
        r.is_some() == cast_type_of(lower@).is_some(),
        r.is_some() ==> r.unwrap()@ == cast_type_of(lower@).unwrap(),
{
    if str_eq(lower, "double") {
        Some(DataType::Float64)
    } else {
        None
    }
}

/// Whether an uppercase function name is one of the aggregates that take
/// their first argument as input: `MIN`, `MAX`, `SUM` and `AVG`.
pub fn is_plain_aggregate_name(upper: &str) -> (r: bool)
    ensures
        r == is_plain_aggregate(upper@),
{
    str_eq(upper, "MIN") || str_eq(upper, "MAX") || str_eq(upper, "SUM") || str_eq(upper, "AVG")
}

/// The logical expression of a SQL expression.
fn create_logical_expr(expr: &SqlExpr) -> (r: Result<Arc<LogicalExpr>, Error>)
    ensures
        result_view(r) == spec_logical_expr(expr@),
    decreases expr,
{
    let logical_expr = match expr {
        SqlExpr::Indentifier(id) => LogicalExpr::Column(id.0.clone()),
        SqlExpr::String(value) => LogicalExpr::Literal(Literal::String(value.clone())),
        SqlExpr::Long(value) => LogicalExpr::Literal(Literal::Long(*value)),
        SqlExpr::Double(value) => LogicalExpr::Literal(Literal::Double(value.clone())),
        SqlExpr::BinaryExpr { lhs, op, rhs } => {
            let lhs = create_logical_expr(lhs)?;
            let rhs = create_logical_expr(rhs)?;
            let op = BinaryOp::try_from_str(op.as_str())?;
            LogicalExpr::Binary { lhs, op, rhs }
        },
        SqlExpr::Alias { expr: inner, alias } => {
            let inner = create_logical_expr(inner)?;
            LogicalExpr::Alias { expr: inner, alias: alias.0.clone() }
        },
        SqlExpr::Function { id, args } => {
            proof {
                lemma_function_view(*id, *args);
            }
            let upper = to_uppercase(id.as_str());
            if is_plain_aggregate_name(upper.as_str()) {
                if args.len() == 0 {
                    return Err(Error::MissingArgument(upper));
                }
                let first = create_logical_expr(&args[0])?;
                LogicalExpr::Aggregate { name: upper, expr: first }
            } else if str_eq(upper.as_str(), "COUNT") {
                if args.len() == 0 {
                    return Err(Error::MissingArgument(upper));
                }
                let is_star = match &args[0] {
                    SqlExpr::Indentifier(first) => str_eq(first.0.as_str(), "*"),
                    _ => false,
                };
                if is_star {
                    assert(sql_view(args@[0]) == SpecSqlExpr::Indentifier("*"@));
                    let one = Arc::new(LogicalExpr::Literal(Literal::Long(1)));
                    assert(expr_view(*one) == SpecLogicalExpr::Literal(SpecLiteral::Long(1)));
                    LogicalExpr::Aggregate { name: upper, expr: one }
                } else {
                    return Err(Error::Unsupported);
                }
            } else {
                return Err(Error::Unsupported);
            }
        },
        SqlExpr::Cast { expr: inner, data_type } => {
            let data_type = parse_data_type(data_type.0.as_str())?;
            let inner = create_logical_expr(inner)?;
            LogicalExpr::Cast { expr: inner, data_type }
        },
        SqlExpr::Sort { .. } => {
            return Err(Error::Unsupported);
        },
        SqlExpr::Select(_) => {
            return Err(Error::Unsupported);
        },
    };
    Ok(Arc::new(logical_expr))
}

/// The logical expressions of a list; the first error wins.
fn create_logical_exprs(exprs: &Vec<SqlExpr>) -> (r: Result<Vec<Arc<LogicalExpr>>, Error>)
    ensures
        match r {
            Ok(v) => spec_logical_exprs(sql_views(exprs@)) == Ok::<Seq<SpecLogicalExpr>, SpecError>(exprs_view(v@))
                && v.len() == exprs.len(),
            Err(e) => spec_logical_exprs(sql_views(exprs@)) == Err::<Seq<SpecLogicalExpr>, SpecError>(e@),
        },
{
    let mut out: Vec<Arc<LogicalExpr>> = Vec::new();
    let mut i: usize = 0;
    assert(sql_views(exprs@).subrange(0, 0) =~= Seq::<SpecSqlExpr>::empty());
    assert(exprs_view(out@) =~= Seq::<SpecLogicalExpr>::empty());
    while i < exprs.len()
        invariant
            i <= exprs.len(),
            out.len() == i,
            spec_logical_exprs(sql_views(exprs@).subrange(0, i as int)) == Ok::<Seq<SpecLogicalExpr>, SpecError>(exprs_view(out@)),
        decreases exprs.len() - i,
    {
        let ghost prefix = sql_views(exprs@).subrange(0, i + 1);
        assert(prefix.drop_last() =~= sql_views(exprs@).subrange(0, i as int));
        assert(prefix.last() == sql_view(exprs@[i as int]));
        let x = match create_logical_expr(&exprs[i]) {
            Ok(x) => x,
            Err(e) => {
                proof { lemma_logical_exprs_error_persists(sql_views(exprs@), i as int + 1); }
                assert(sql_views(exprs@).subrange(0, exprs@.len() as int) =~= sql_views(exprs@));
                return Err(e);
            },
        };
        let ghost prev = out@;
        out.push(x);
        assert(exprs_view(out@) =~= exprs_view(prev).push(expr_view(*x)));
        i = i + 1;
    }
    assert(sql_views(exprs@).subrange(0, exprs@.len() as int) =~= sql_views(exprs@));
    Ok(out)
}

/// Once a prefix of a list fails, the whole list fails with that error.
proof fn lemma_logical_exprs_error_persists(es: Seq<SpecSqlExpr>, k: int)
    requires
        0 <= k <= es.len(),
        spec_logical_exprs(es.subrange(0, k)) is Err,
    ensures
        spec_logical_exprs(es) == spec_logical_exprs(es.subrange(0, k)),
    decreases es.len() - k,
{
    if k < es.len() {
        assert(es.subrange(0, k + 1).drop_last() =~= es.subrange(0, k));
        lemma_logical_exprs_error_persists(es, k + 1);
    } else {
        assert(es.subrange(0, k) =~= es);
    }
}


/// Adds the column names that an expression refers to.
fn visit(expr: &LogicalExpr, accumulator: &mut NameSet)
    ensures
        final(accumulator)@ == collect_columns(expr@, old(accumulator)@),
    decreases expr,
{
    match expr {
        LogicalExpr::Column(c) => {
            accumulator.insert(c.as_str());
        },
        LogicalExpr::Binary { lhs, op: _, rhs } => {
            visit(lhs, accumulator);
            visit(rhs, accumulator);
        },
        LogicalExpr::Aggregate { name: _, expr: inner } => visit(inner, accumulator),
        LogicalExpr::Alias { expr: inner, alias: _ } => visit(inner, accumulator),
        _ => {},
    }
}

/// The column names that a list of expressions refers to.
fn get_referenced_columns(exprs: &Vec<Arc<LogicalExpr>>) -> (r: NameSet)
    ensures
        r@ == referenced_columns(exprs_view(exprs@)),
{
    let mut accumulator = NameSet::new();
    let mut i: usize = 0;
    assert(exprs_view(exprs@).subrange(0, 0) =~= Seq::<SpecLogicalExpr>::empty());
    while i < exprs.len()
        invariant
            i <= exprs.len(),
            accumulator@ == referenced_columns(exprs_view(exprs@).subrange(0, i as int)),
        decreases exprs.len() - i,
    {
        assert(exprs_view(exprs@).subrange(0, i + 1).drop_last() =~= exprs_view(exprs@).subrange(0, i as int));
        visit(&exprs[i], &mut accumulator);
        i = i + 1;
    }
    assert(exprs_view(exprs@).subrange(0, exprs@.len() as int) =~= exprs_view(exprs@));
    accumulator
}

/// The names of the fields of a schema.
fn field_names(schema: &Schema) -> (r: NameSet)
    ensures
        r@ == field_name_set(schema@),
{
    let mut names = NameSet::new();
    let mut i: usize = 0;
    assert(schema@.subrange(0, 0) =~= Seq::<SpecField>::empty());
    while i < schema.fields.len()
        invariant
            i <= schema.fields.len(),
            names@ == field_name_set(schema@.subrange(0, i as int)),
        decreases schema.fields.len() - i,
    {
        assert(schema@.subrange(0, i + 1).drop_last() =~= schema@.subrange(0, i as int));
        names.insert(schema.fields[i].name.as_str());
        i = i + 1;
    }
    assert(schema@.subrange(0, schema@.len() as int) =~= schema@);
    names
}

/// The columns that an expression refers to and that the table has.
fn get_valid_referened_columns(expr: &SqlExpr, table: &DataFrame) -> (r: Result<NameSet, Error>)
    ensures
        result_view(r) == spec_valid_referenced_columns(expr@, table@),
{
    let logical_expr = create_logical_expr(expr)?;
    let mut single: Vec<Arc<LogicalExpr>> = Vec::new();
    single.push(logical_expr);
    let referenced = get_referenced_columns(&single);
    assert(exprs_view(single@).drop_last() =~= Seq::<SpecLogicalExpr>::empty());
    assert(exprs_view(single@).last() == expr_view(*single@[0]));
    assert(referenced_columns(exprs_view(single@).drop_last()) == Seq::<Seq<char>>::empty());
    let schema = table.plan().schema()?;
    let valid = field_names(&schema);
    Ok(referenced.intersection(&valid))
}

/// Column expressions for a list of names.
fn columns(names: &Vec<String>) -> (r: Vec<Arc<LogicalExpr>>)
    ensures
        exprs_view(r@) == columns_of(names_view(names@)),
{
    let mut out: Vec<Arc<LogicalExpr>> = Vec::new();
    let mut i: usize = 0;
    while i < names.len()
        invariant
            i <= names.len(),
            exprs_view(out@) == columns_of(names_view(names@)).subrange(0, i as int),
        decreases names.len() - i,
    {
        let ghost prev = out@;
        out.push(col(names[i].as_str()));
        assert(exprs_view(out@) =~= exprs_view(prev).push(SpecLogicalExpr::Column(names@[i as int]@)));
        assert(columns_of(names_view(names@)).subrange(0, i + 1)
            =~= columns_of(names_view(names@)).subrange(0, i as int).push(SpecLogicalExpr::Column(names@[i as int]@)));
        i = i + 1;
    }
    assert(columns_of(names_view(names@)).subrange(0, names@.len() as int) =~= columns_of(names_view(names@)));
    out
}

/// `a` followed by `b`.
fn concat(a: Vec<Arc<LogicalExpr>>, b: Vec<Arc<LogicalExpr>>) -> (r: Vec<Arc<LogicalExpr>>)
    ensures
        exprs_view(r@) == exprs_view(a@) + exprs_view(b@),
{
    let mut a = a;
    let mut b = b;
    let ghost a0 = a@;
    let ghost b0 = b@;
    a.append(&mut b);
    assert(exprs_view(a@) =~= exprs_view(a0) + exprs_view(b0));
    a
}

/// A query without aggregates.
fn plan_non_aggregate_query(
    filter: Option<Box<SqlExpr>>,
    df: DataFrame,
    projection: Vec<Arc<LogicalExpr>>,
) -> (r: Result<DataFrame, Error>)
    ensures
        result_view(r) == spec_plan_non_aggregate(opt_view(filter), df@, exprs_view(projection@)),
{
    let filter = match filter {
        None => {
            return Ok(df.project(projection));
        },
        Some(f) => f,
    };
    let column_names_in_projection = get_referenced_columns(&projection);
    let column_names_in_filter = get_valid_referened_columns(&filter, &df)?;
    let missing = column_names_in_filter.difference(&column_names_in_projection);
    let filter = create_logical_expr(&filter)?;
    if missing.len() == 0 {
        return Ok(df.project(projection).filter(filter));
    }
    let full_projection = concat(share_all(&projection), columns(&missing));
    Ok(df.project(full_projection).filter(filter).project(projection))
}


/// Whether any expression of the list is an aggregate.
fn contains_aggregate(exprs: &Vec<Arc<LogicalExpr>>) -> (r: bool)
    ensures
        r == has_aggregate(exprs_view(exprs@)),
{
    let mut i: usize = 0;
    while i < exprs.len()
        invariant
            i <= exprs.len(),
            forall|j: int| 0 <= j < i ==> !(#[trigger] exprs_view(exprs@)[j] is Aggregate),
        decreases exprs.len() - i,
    {
        if matches!(&*exprs[i], LogicalExpr::Aggregate { .. }) {
            assert(exprs_view(exprs@)[i as int] is Aggregate);
            return true;
        }
        i = i + 1;
    }
    false
}

/// The expressions of the list that are not aggregates, shared.
fn non_aggregate_exprs(exprs: &Vec<Arc<LogicalExpr>>) -> (r: Vec<Arc<LogicalExpr>>)
    ensures
        exprs_view(r@) == non_aggregates(exprs_view(exprs@)),
{
    let mut out: Vec<Arc<LogicalExpr>> = Vec::new();
    let mut i: usize = 0;
    assert(exprs_view(exprs@).subrange(0, 0) =~= Seq::<SpecLogicalExpr>::empty());
    assert(exprs_view(out@) =~= Seq::<SpecLogicalExpr>::empty());
    while i < exprs.len()
        invariant
            i <= exprs.len(),
            exprs_view(out@) == non_aggregates(exprs_view(exprs@).subrange(0, i as int)),
        decreases exprs.len() - i,
    {
        let ghost prefix = exprs_view(exprs@).subrange(0, i + 1);
        assert(prefix.drop_last() =~= exprs_view(exprs@).subrange(0, i as int));
        assert(prefix.last() == expr_view(*exprs@[i as int]));
        if !matches!(&*exprs[i], LogicalExpr::Aggregate { .. }) {
            let ghost prev = out@;
            out.push(share(&exprs[i]));
            assert(exprs_view(out@) =~= exprs_view(prev).push(expr_view(*exprs@[i as int])));
        }
        i = i + 1;
    }
    assert(exprs_view(exprs@).subrange(0, exprs@.len() as int) =~= exprs_view(exprs@));
    out
}

/// Once a prefix of the projection fails to split, the whole projection
/// fails with that error.
proof fn lemma_split_error_persists(es: Seq<SpecLogicalExpr>, num_group: int, k: int)
    requires
        0 <= k <= es.len(),
        spec_split(es.subrange(0, k), num_group) is Err,
    ensures
        spec_split(es, num_group) == spec_split(es.subrange(0, k), num_group),
    decreases es.len() - k,
{
    if k < es.len() {
        assert(es.subrange(0, k + 1).drop_last() =~= es.subrange(0, k));
        lemma_split_error_persists(es, num_group, k + 1);
    } else {
        assert(es.subrange(0, k) =~= es);
    }
}

/// The aggregate list and the final projection of an aggregate query.
fn split_aggregates(projection_expr: &Vec<Arc<LogicalExpr>>, num_group: usize)
    -> (r: Result<(Vec<Arc<LogicalExpr>>, Vec<Arc<LogicalExpr>>), Error>)
    requires
        num_group + projection_expr.len() <= usize::MAX,
    ensures
        match r {
            Ok((aggregate, projection)) => spec_split(exprs_view(projection_expr@), num_group as int) matches Ok((a, p, _))
                && a == exprs_view(aggregate@) && p == exprs_view(projection@),
            Err(e) => spec_split(exprs_view(projection_expr@), num_group as int) == Err::<(Seq<SpecLogicalExpr>, Seq<SpecLogicalExpr>, int), SpecError>(e@),
        },
{
    let ghost es = exprs_view(projection_expr@);
    let mut aggregate: Vec<Arc<LogicalExpr>> = Vec::new();
    let mut projection: Vec<Arc<LogicalExpr>> = Vec::new();
    let mut group_count: usize = 0;
    let mut i: usize = 0;
    assert(es.subrange(0, 0) =~= Seq::<SpecLogicalExpr>::empty());
    assert(exprs_view(aggregate@) =~= Seq::<SpecLogicalExpr>::empty());
    assert(exprs_view(projection@) =~= Seq::<SpecLogicalExpr>::empty());
    while i < projection_expr.len()
        invariant
            i <= projection_expr.len(),
            num_group + projection_expr.len() <= usize::MAX,
            es == exprs_view(projection_expr@),
            aggregate.len() <= i,
            group_count <= i,
            spec_split(es.subrange(0, i as int), num_group as int) == Ok::<(Seq<SpecLogicalExpr>, Seq<SpecLogicalExpr>, int), SpecError>(
                (exprs_view(aggregate@), exprs_view(projection@), group_count as int)),
        decreases projection_expr.len() - i,
    {
        let ghost prefix = es.subrange(0, i + 1);
        assert(prefix.drop_last() =~= es.subrange(0, i as int));
        assert(prefix.last() == expr_view(*projection_expr@[i as int]));
        let ghost prev_a = aggregate@;
        let ghost prev_p = projection@;
        match &*projection_expr[i] {
            LogicalExpr::Aggregate { .. } => {
                projection.push(col_index(num_group + aggregate.len()));
                aggregate.push(share(&projection_expr[i]));
                assert(exprs_view(aggregate@) =~= exprs_view(prev_a).push(prefix.last()));
                assert(exprs_view(projection@) =~= exprs_view(prev_p).push(
                    SpecLogicalExpr::ColumnIndex((num_group + prev_a.len()) as usize)));
            },
            LogicalExpr::Alias { expr: e, alias } => {
                if matches!(&**e, LogicalExpr::Aggregate { .. }) {
                    assert(expr_view(**e) is Aggregate);
                    proof { lemma_split_error_persists(es, num_group as int, i + 1); }
                    return Err(Error::AliasWrapsAggregate);
                }
                projection.push(col_index(num_group + aggregate.len()).alias(alias.as_str()));
                aggregate.push(share(e));
                assert(exprs_view(aggregate@) =~= exprs_view(prev_a).push(expr_view(**e)));
                assert(exprs_view(projection@) =~= exprs_view(prev_p).push(SpecLogicalExpr::Alias {
                    expr: Box::new(SpecLogicalExpr::ColumnIndex((num_group + prev_a.len()) as usize)),
                    alias: alias@,
                }));
            },
            _ => {
                projection.push(col_index(group_count));
                group_count = group_count + 1;
                assert(exprs_view(aggregate@) =~= exprs_view(prev_a));
                assert(exprs_view(projection@) =~= exprs_view(prev_p).push(
                    SpecLogicalExpr::ColumnIndex((group_count - 1) as usize)));
            },
        }
        i = i + 1;
    }
    assert(es.subrange(0, projection_expr@.len() as int) =~= es);
    Ok((aggregate, projection))
}


/// The filtered input of an aggregate query.
fn filtered_input(
    filter: &SqlExpr,
    df: DataFrame,
    projection_expr: &Vec<Arc<LogicalExpr>>,
    aggregate: &Vec<Arc<LogicalExpr>>,
) -> (r: Result<DataFrame, Error>)
    ensures
        result_view(r) == spec_filtered_input(filter@, df@, exprs_view(projection_expr@), exprs_view(aggregate@)),
{
    let projection_expr_without_aggregates = non_aggregate_exprs(projection_expr);
    let column_names_in_projection_without_aggregates = get_referenced_columns(&projection_expr_without_aggregates);
    let column_names_in_aggregates = get_referenced_columns(aggregate);
    let column_names_in_filter = get_valid_referened_columns(filter, &df)?;
    let all_required_columns = column_names_in_projection_without_aggregates
        .union(&column_names_in_filter)
        .union(&column_names_in_aggregates);
    let missing = all_required_columns.difference(&column_names_in_projection_without_aggregates);
    if missing.len() == 0 {
        let df = df.project(projection_expr_without_aggregates);
        let filter = create_logical_expr(filter)?;
        Ok(df.filter(filter))
    } else {
        let full_projection = concat(projection_expr_without_aggregates, columns(&missing));
        let filter = create_logical_expr(filter)?;
        Ok(df.project(full_projection).filter(filter))
    }
}

/// The first registered table of that name.
fn find_table(tables: &Vec<(String, DataFrame)>, name: &str) -> (r: Option<DataFrame>)
    ensures
        match r {
            Some(df) => lookup_table(tables_view(tables@), name@) == Some(df@),
            None => lookup_table(tables_view(tables@), name@) is None,
        },
{
    let ghost all = tables_view(tables@);
    let mut i: usize = 0;
    assert(all.subrange(0, all.len() as int) =~= all);
    while i < tables.len()
        invariant
            i <= tables.len(),
            all == tables_view(tables@),
            lookup_table(all, name@) == lookup_table(all.subrange(i as int, all.len() as int), name@),
        decreases tables.len() - i,
    {
        let ghost rest = all.subrange(i as int, all.len() as int);
        assert(rest[0] == (tables@[i as int].0@, tables@[i as int].1@));
        if str_eq(tables[i].0.as_str(), name) {
            return Some(tables[i].1.duplicate());
        }
        assert(rest.drop_first() =~= all.subrange(i + 1, all.len() as int));
        i = i + 1;
    }
    None
}

/// The logical plan of a `SELECT` over the registered tables.
///
/// Columns that only the filter needs are projected for it; an aggregate
/// query projects its group columns and aggregates by index, and a `HAVING`
/// filters the result.
pub fn create_dataframe(sql_expr: SqlExpr, tables: &Vec<(String, DataFrame)>) -> (r: Result<DataFrame, Error>)
    requires
        sql_expr@ matches SpecSqlExpr::Select(s) ==> s.group_by.len() + s.projection.len() <= usize::MAX,
    ensures
        result_view(r) == spec_create_dataframe(sql_expr@, tables_view(tables@)),
{
    let select = match sql_expr {
        SqlExpr::Select(select) => select,
        _ => {
            return Err(Error::NotASelect);
        },
    };
    proof {
        lemma_select_view(select);
    }
    let Select { projection, filter, group_by, having, table_name } = select;
    let df = match find_table(tables, table_name.0.as_str()) {
        Some(df) => df,
        None => {
            return Err(Error::NoSuchTable(table_name.0));
        },
    };
    let projection_expr = create_logical_exprs(&projection)?;
    if !contains_aggregate(&projection_expr) {
        return plan_non_aggregate_query(filter, df, projection_expr);
    }
    let group_by_expr = create_logical_exprs(&group_by)?;
    let (aggregate, final_projection) = split_aggregates(&projection_expr, group_by.len())?;
    let df = match filter {
        Some(f) => filtered_input(&f, df, &projection_expr, &aggregate)?,
        None => df,
    };
    let df = df.aggregate(group_by_expr, aggregate).project(final_projection);
    match having {
        None => Ok(df),
        Some(h) => {
            let having = create_logical_expr(&h)?;
            Ok(df.filter(having))
        },
    }
}

} // verus!
