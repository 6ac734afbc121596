//! From a logical plan to the physical plan that executes it.
use vstd::prelude::*;

use std::sync::Arc;

use crate::error::{Error, SpecError, result_view};
use crate::logical_plan::expr::{BinaryOp, Literal, LogicalExpr, SpecLogicalExpr, binary_op_text, expr_view, exprs_view};
use crate::logical_plan::{LogicalPlan, SpecLogicalPlan, fields_over, pairs_view, plan_schema};
use crate::physical_plan::aggregate::{PhysicalAggregateExpr, SpecAggregateExpr, aggregate_exprs_view, aggregate_of_lowercase};
use crate::physical_plan::expr::{
    PhysicalBinaryExpr, PhysicalBinaryOp, PhysicalExpr, PhysicalLiteralExpr, SpecPhysicalExpr, physical_op_text,
    physical_expr_view, physical_exprs_view,
};
use crate::physical_plan::{
    HashAggregrateExec, HashJoinExec, PhysicalPlan, ProjectionExec, ScanExec, SelectionExec, SpecPhysicalPlan,
    physical_schema,
};
use crate::schema::{Schema, SpecField, index_of_name};
use crate::text::{ascii_lowercase, is_ascii_text, lowercase, to_lowercase};
use crate::utils::{copy_strings, field_ids_by_names, spec_field_ids, strings_view};

verus! {

/// The physical operator of a logical one, where there is one.
pub open spec fn physical_op_of(op: BinaryOp) -> Option<PhysicalBinaryOp> {
    match op {
        BinaryOp::Eq => Some(PhysicalBinaryOp::Eq),
        BinaryOp::Plus => Some(PhysicalBinaryOp::Add),
        BinaryOp::Minus => Some(PhysicalBinaryOp::Sub),
        BinaryOp::Multiply => Some(PhysicalBinaryOp::Mul),
        BinaryOp::Divide => Some(PhysicalBinaryOp::Div),
        _ => None,
    }
}

/// The physical expression of a logical one over the output of `input`:
/// columns by name become columns by position, aliases disappear.
/// Aggregates, casts and the operators without a physical counterpart are
/// not handled.
pub open spec fn spec_physical_expr(e: SpecLogicalExpr, input: SpecLogicalPlan) -> Result<SpecPhysicalExpr, SpecError>
    decreases e,
{
    match e {
        SpecLogicalExpr::Column(name) => match plan_schema(input) {
            Err(err) => Err(err),
            Ok(s) => match index_of_name(s, name) {
                Some(i) => Ok(SpecPhysicalExpr::Column(i as usize)),
                None => Err(SpecError::FieldNotFound(name)),
            },
        },
        SpecLogicalExpr::ColumnIndex(i) => Ok(SpecPhysicalExpr::Column(i)),
        SpecLogicalExpr::Literal(l) => Ok(SpecPhysicalExpr::Literal(l)),
        SpecLogicalExpr::Binary { lhs, op, rhs } => match spec_physical_expr(*lhs, input) {
            Err(err) => Err(err),
            Ok(l) => match spec_physical_expr(*rhs, input) {
                Err(err) => Err(err),
                Ok(r) => match physical_op_of(op) {
                    Some(o) => Ok(SpecPhysicalExpr::Binary { lhs: Box::new(l), op: o, rhs: Box::new(r) }),
                    None => Err(SpecError::Unsupported),
                },
            },
        },
        SpecLogicalExpr::Alias { expr, .. } => spec_physical_expr(*expr, input),
        SpecLogicalExpr::Aggregate { .. } => Err(SpecError::Unsupported),
        SpecLogicalExpr::Cast { .. } => Err(SpecError::Unsupported),
    }
}

/// A logical operator is planned as the physical operator written the same
/// way: `=`, `+`, `-`, `*` and `/` have one, and the comparisons other than
/// `=`, `AS` and `AND` have none.  A planned binary expression keeps its
/// operator.
pub proof fn law_physical_operator_is_the_same_operation(op: BinaryOp, lhs: SpecLogicalExpr, rhs: SpecLogicalExpr, input: SpecLogicalPlan)
    ensures
        physical_op_of(op) is Some <==> (binary_op_text(op) == "="@ || binary_op_text(op) == "+"@
            || binary_op_text(op) == "-"@ || binary_op_text(op) == "*"@ || binary_op_text(op) == "/"@),
        physical_op_of(op) matches Some(p) ==> physical_op_text(p) == binary_op_text(op),
        spec_physical_expr(SpecLogicalExpr::Binary { lhs: Box::new(lhs), op, rhs: Box::new(rhs) }, input)
            matches Ok(x) ==> (x matches SpecPhysicalExpr::Binary { op: p, .. } && physical_op_text(p) == binary_op_text(op)),
{
    reveal_strlit("=");
    reveal_strlit("+");
    reveal_strlit("-");
    reveal_strlit("*");
    reveal_strlit("/");
    reveal_strlit("!=");
    reveal_strlit(">");
    reveal_strlit(">=");
    reveal_strlit("<");
    reveal_strlit("<=");
    reveal_strlit("AS");
    reveal_strlit("AND");
    let t = binary_op_text(op);
    match op {
        BinaryOp::Neq | BinaryOp::GtEq | BinaryOp::LtEq | BinaryOp::As | BinaryOp::And => {
            assert(t.len() == 2 || t.len() == 3);
        },
        BinaryOp::Gt | BinaryOp::Lt => {
            assert(t[0] != ("="@)[0] && t[0] != ("+"@)[0] && t[0] != ("-"@)[0] && t[0] != ("*"@)[0] && t[0] != ("/"@)[0]);
        },
        _ => {},
    }
}

/// The physical expressions of a list; the first error wins.
pub open spec fn spec_physical_exprs(es: Seq<SpecLogicalExpr>, input: SpecLogicalPlan) -> Result<Seq<SpecPhysicalExpr>, SpecError>
    decreases es.len(),
{
    if es.len() == 0 {
        Ok(Seq::empty())
    } else {
        match spec_physical_exprs(es.drop_last(), input) {
            Err(err) => Err(err),
            Ok(xs) => match spec_physical_expr(es.last(), input) {
                Err(err) => Err(err),
                Ok(x) => Ok(xs.push(x)),
            },
        }
    }
}

/// The aggregate function of an aggregate expression: `MAX` and `SUM`, in
/// any case.
pub open spec fn spec_aggregate(e: SpecLogicalExpr, input: SpecLogicalPlan) -> Result<SpecAggregateExpr, SpecError> {
    match e {
        SpecLogicalExpr::Aggregate { name, expr } => match spec_physical_expr(*expr, input) {
            Err(err) => Err(err),
            Ok(x) => match aggregate_of_lowercase(lowercase(name), x) {
                Some(a) => Ok(a),
                None => Err(SpecError::UnsupportedAggregate(name)),
            },
        },
        _ => Err(SpecError::InvalidAggregateExpr),
    }
}

/// An aggregate expression whose input plans is planned as `MAX` when its
/// name is `max` in any ASCII case, as `SUM` when it is `sum` in any ASCII
/// case, and refused with its name for every other ASCII name.
pub proof fn law_aggregate_name_in_any_case(name: Seq<char>, expr: SpecLogicalExpr, input: SpecLogicalPlan)
    requires
        spec_physical_expr(expr, input) is Ok,
    ensures
        ({
            let a = SpecLogicalExpr::Aggregate { name, expr: Box::new(expr) };
            let x = spec_physical_expr(expr, input)->Ok_0;
            &&& ascii_lowercase(name) == "max"@ ==> spec_aggregate(a, input) == Ok::<SpecAggregateExpr, SpecError>(SpecAggregateExpr::Max(x))
            &&& ascii_lowercase(name) == "sum"@ ==> spec_aggregate(a, input) == Ok::<SpecAggregateExpr, SpecError>(SpecAggregateExpr::Sum(x))
            &&& is_ascii_text(name) && ascii_lowercase(name) != "max"@ && ascii_lowercase(name) != "sum"@
                ==> spec_aggregate(a, input) == Err::<SpecAggregateExpr, SpecError>(SpecError::UnsupportedAggregate(name))
        }),
{
    reveal_strlit("max");
    reveal_strlit("sum");
    let l = ascii_lowercase(name);
    if l == "max"@ || l == "sum"@ {
        assert forall|i: int| 0 <= i < name.len() implies (#[trigger] name[i]) < '\u{80}' by {
            assert(l[i] == crate::text::ascii_lower(name[i]));
            assert(l.len() == name.len());
            assert(l.len() == 3);
            assert(l[i] < '\u{80}') by {
                if l == "max"@ {
                    assert(l[0] == 'm' && l[1] == 'a' && l[2] == 'x');
                } else {
                    assert(l[0] == 's' && l[1] == 'u' && l[2] == 'm');
                }
            }
        }
    }
    assert(("max"@)[0] != ("sum"@)[0]);
}

/// The aggregate functions of a list; the first error wins.
pub open spec fn spec_aggregates(es: Seq<SpecLogicalExpr>, input: SpecLogicalPlan) -> Result<Seq<SpecAggregateExpr>, SpecError>
    decreases es.len(),
{
    if es.len() == 0 {
        Ok(Seq::empty())
    } else {
        match spec_aggregates(es.drop_last(), input) {
            Err(err) => Err(err),
            Ok(xs) => match spec_aggregate(es.last(), input) {
                Err(err) => Err(err),
                Ok(x) => Ok(xs.push(x)),
            },
        }
    }
}

/// The positions of the fields of `right` that `left` has no name for.
pub open spec fn columns_not_in(left: Seq<SpecField>, right: Seq<SpecField>) -> Seq<usize>
    decreases right.len(),
{
    if right.len() == 0 {
        Seq::empty()
    } else if index_of_name(left, right.last().name) is None {
        columns_not_in(left, right.drop_last()).push((right.len() - 1) as usize)
    } else {
        columns_not_in(left, right.drop_last())
    }
}

pub open spec fn left_names(on: Seq<(Seq<char>, Seq<char>)>) -> Seq<Seq<char>> {
    on.map_values(|p: (Seq<char>, Seq<char>)| p.0)
}

pub open spec fn right_names(on: Seq<(Seq<char>, Seq<char>)>) -> Seq<Seq<char>> {
    on.map_values(|p: (Seq<char>, Seq<char>)| p.1)
}

/// The physical plan of a logical plan.  The logical plan's schema must be
/// known; projections, aggregates and joins carry it.
pub open spec fn spec_physical_plan(p: SpecLogicalPlan) -> Result<SpecPhysicalPlan, SpecError>
    decreases p,
{
    match plan_schema(p) {
        Err(err) => Err(err),
        Ok(schema) => match p {
            SpecLogicalPlan::Scan { source, projection, .. } => Ok(SpecPhysicalPlan::Scan { source, projection }),
            SpecLogicalPlan::Selection { input, expr } => match spec_physical_plan(*input) {
                Err(err) => Err(err),
                Ok(i) => match spec_physical_expr(expr, *input) {
                    Err(err) => Err(err),
                    Ok(x) => Ok(SpecPhysicalPlan::Selection { input: Box::new(i), expr: x }),
                },
            },
            SpecLogicalPlan::Projection { input, exprs } => match spec_physical_plan(*input) {
                Err(err) => Err(err),
                Ok(i) => match spec_physical_exprs(exprs, *input) {
                    Err(err) => Err(err),
                    Ok(xs) => Ok(SpecPhysicalPlan::Projection { schema, input: Box::new(i), exprs: xs }),
                },
            },
            SpecLogicalPlan::Aggregate { input, group_expr, aggregate_expr } => match spec_physical_plan(*input) {
                Err(err) => Err(err),
                Ok(i) => match spec_physical_exprs(group_expr, *input) {
                    Err(err) => Err(err),
                    Ok(gs) => match spec_aggregates(aggregate_expr, *input) {
                        Err(err) => Err(err),
                        Ok(aggs) => Ok(SpecPhysicalPlan::HashAggregate {
                            schema,
                            input: Box::new(i),
                            group_expr: gs,
                            aggregate_expr: aggs,
                        }),
                    },
                },
            },
            SpecLogicalPlan::Join { left, right, join_type, on } => match spec_physical_plan(*left) {
                Err(err) => Err(err),
                Ok(l) => match spec_physical_plan(*right) {
                    Err(err) => Err(err),
                    Ok(r) => match plan_schema(*left) {
                        Err(err) => Err(err),
                        Ok(ls) => match spec_field_ids(ls, left_names(on)) {
                            Err(err) => Err(err),
                            Ok(lks) => match plan_schema(*right) {
                                Err(err) => Err(err),
                                Ok(rs) => match spec_field_ids(rs, right_names(on)) {
                                    Err(err) => Err(err),
                                    Ok(rks) => Ok(SpecPhysicalPlan::Join {
                                        schema,
                                        lhs: Box::new(l),
                                        rhs: Box::new(r),
                                        join_type,
                                        lhs_keys: lks,
                                        rhs_keys: rks,
                                        right_columns_to_include: columns_not_in(ls, rs),
                                    }),
                                },
                            },
                        },
                    },
                },
            },
        },
    }
}


/// Every scan of the plan names the columns it reads.
pub open spec fn scans_name_columns(p: SpecLogicalPlan) -> bool
    decreases p,
{
    match p {
        SpecLogicalPlan::Scan { projection, .. } => projection.len() > 0,
        SpecLogicalPlan::Selection { input, .. } => scans_name_columns(*input),
        SpecLogicalPlan::Projection { input, .. } => scans_name_columns(*input),
        SpecLogicalPlan::Aggregate { input, .. } => scans_name_columns(*input),
        SpecLogicalPlan::Join { left, right, .. } => scans_name_columns(*left) && scans_name_columns(*right),
    }
}

/// The physical plan produces the schema of the logical plan it came
/// from, as long as every scan names the columns it reads.
pub proof fn law_physical_plan_keeps_schema(p: SpecLogicalPlan)
    requires
        scans_name_columns(p),
        spec_physical_plan(p) is Ok,
    ensures
        physical_schema(spec_physical_plan(p)->Ok_0) == plan_schema(p),
    decreases p,
{
    match p {
        SpecLogicalPlan::Selection { input, .. } => {
            law_physical_plan_keeps_schema(*input);
        },
        _ => {},
    }
}

/// The physical expression of a logical one over the output of `input`.
pub fn create_physical_expr(expr: &LogicalExpr, input: &LogicalPlan) -> (r: Result<PhysicalExpr, Error>)
    ensures
        result_view(r) == spec_physical_expr(expr@, input@),
    decreases expr,
{
    match expr {
        LogicalExpr::Column(name) => {
            let schema = input.schema()?;
            let index = schema.index_of(name.as_str())?;
            Ok(PhysicalExpr::Column(index))
        },
        LogicalExpr::ColumnIndex(index) => Ok(PhysicalExpr::Column(*index)),
        LogicalExpr::Literal(literal) => Ok(PhysicalExpr::Literal(match literal {
            Literal::String(v) => PhysicalLiteralExpr::String(v.clone()),
            Literal::Long(v) => PhysicalLiteralExpr::Long(*v),
            Literal::Double(v) => PhysicalLiteralExpr::Double(v.clone()),
        })),
        LogicalExpr::Binary { lhs, op, rhs } => {
            let lhs = create_physical_expr(lhs, input)?;
            let rhs = create_physical_expr(rhs, input)?;
            let op = match op {
                BinaryOp::Eq => PhysicalBinaryOp::Eq,
                BinaryOp::Plus => PhysicalBinaryOp::Add,
                BinaryOp::Minus => PhysicalBinaryOp::Sub,
                BinaryOp::Multiply => PhysicalBinaryOp::Mul,
                BinaryOp::Divide => PhysicalBinaryOp::Div,
                _ => {
                    return Err(Error::Unsupported);
                },
            };
            let x = PhysicalExpr::Binary(PhysicalBinaryExpr { lhs: Arc::new(lhs), op, rhs: Arc::new(rhs) });
            Ok(x)
        },
        LogicalExpr::Aggregate { .. } => Err(Error::Unsupported),
        LogicalExpr::Alias { expr: inner, alias: _ } => create_physical_expr(inner, input),
        LogicalExpr::Cast { .. } => Err(Error::Unsupported),
    }
}

proof fn lemma_physical_exprs_error_persists(es: Seq<SpecLogicalExpr>, input: SpecLogicalPlan, k: int)
    requires
        0 <= k <= es.len(),
        spec_physical_exprs(es.subrange(0, k), input) is Err,
    ensures
        spec_physical_exprs(es, input) == spec_physical_exprs(es.subrange(0, k), input),
    decreases es.len() - k,
{
    if k < es.len() {
        assert(es.subrange(0, k + 1).drop_last() =~= es.subrange(0, k));
        lemma_physical_exprs_error_persists(es, input, k + 1);
    } else {
        assert(es.subrange(0, k) =~= es);
    }
}

/// The physical expressions of a list over the output of `input`.
fn create_physical_exprs(exprs: &Vec<Arc<LogicalExpr>>, input: &LogicalPlan) -> (r: Result<Vec<PhysicalExpr>, Error>)
    ensures
        match r {
            Ok(xs) => spec_physical_exprs(exprs_view(exprs@), input@) == Ok::<Seq<SpecPhysicalExpr>, SpecError>(physical_exprs_view(xs@)),
            Err(e) => spec_physical_exprs(exprs_view(exprs@), input@) == Err::<Seq<SpecPhysicalExpr>, SpecError>(e@),
        },
{
    let ghost es = exprs_view(exprs@);
    let mut out: Vec<PhysicalExpr> = Vec::new();
    let mut i: usize = 0;
    assert(es.subrange(0, 0) =~= Seq::<SpecLogicalExpr>::empty());
    assert(physical_exprs_view(out@) =~= Seq::<SpecPhysicalExpr>::empty());
    while i < exprs.len()
        invariant
            i <= exprs.len(),
            es == exprs_view(exprs@),
            spec_physical_exprs(es.subrange(0, i as int), input@) == Ok::<Seq<SpecPhysicalExpr>, SpecError>(physical_exprs_view(out@)),
        decreases exprs.len() - i,
    {
        let ghost prefix = es.subrange(0, i + 1);
        assert(prefix.drop_last() =~= es.subrange(0, i as int));
        assert(prefix.last() == expr_view(*exprs@[i as int]));
        let x = match create_physical_expr(&exprs[i], input) {
            Ok(x) => x,
            Err(e) => {
                proof { lemma_physical_exprs_error_persists(es, input@, i + 1); }
                return Err(e);
            },
        };
        let ghost prev = out@;
        out.push(x);
        assert(physical_exprs_view(out@) =~= physical_exprs_view(prev).push(physical_expr_view(x)));
        i = i + 1;
    }
    assert(es.subrange(0, exprs@.len() as int) =~= es);
    Ok(out)
}

/// The aggregate function of an aggregate expression.
fn create_aggregate(expr: &LogicalExpr, input: &LogicalPlan) -> (r: Result<PhysicalAggregateExpr, Error>)
    ensures
        result_view(r) == spec_aggregate(expr@, input@),
{
    match expr {
        LogicalExpr::Aggregate { name, expr: inner } => {
            let x = create_physical_expr(inner, input)?;
            let lower = to_lowercase(name.as_str());
            match PhysicalAggregateExpr::from_lowercase(lower.as_str(), x) {
                Some(a) => Ok(a),
                None => Err(Error::UnsupportedAggregate(name.clone())),
            }
        },
        _ => Err(Error::InvalidAggregateExpr),
    }
}

proof fn lemma_aggregates_error_persists(es: Seq<SpecLogicalExpr>, input: SpecLogicalPlan, k: int)
    requires
        0 <= k <= es.len(),
        spec_aggregates(es.subrange(0, k), input) is Err,
    ensures
        spec_aggregates(es, input) == spec_aggregates(es.subrange(0, k), input),
    decreases es.len() - k,
{
    if k < es.len() {
        assert(es.subrange(0, k + 1).drop_last() =~= es.subrange(0, k));
        lemma_aggregates_error_persists(es, input, k + 1);
    } else {
        assert(es.subrange(0, k) =~= es);
    }
}

/// The aggregate functions of a list.
fn create_aggregates(exprs: &Vec<Arc<LogicalExpr>>, input: &LogicalPlan) -> (r: Result<Vec<PhysicalAggregateExpr>, Error>)
    ensures
        match r {
            Ok(xs) => spec_aggregates(exprs_view(exprs@), input@) == Ok::<Seq<SpecAggregateExpr>, SpecError>(aggregate_exprs_view(xs@)),
            Err(e) => spec_aggregates(exprs_view(exprs@), input@) == Err::<Seq<SpecAggregateExpr>, SpecError>(e@),
        },
{
    let ghost es = exprs_view(exprs@);
    let mut out: Vec<PhysicalAggregateExpr> = Vec::new();
    let mut i: usize = 0;
    assert(es.subrange(0, 0) =~= Seq::<SpecLogicalExpr>::empty());
    assert(aggregate_exprs_view(out@) =~= Seq::<SpecAggregateExpr>::empty());
    while i < exprs.len()
        invariant
            i <= exprs.len(),
            es == exprs_view(exprs@),
            spec_aggregates(es.subrange(0, i as int), input@) == Ok::<Seq<SpecAggregateExpr>, SpecError>(aggregate_exprs_view(out@)),
        decreases exprs.len() - i,
    {
        let ghost prefix = es.subrange(0, i + 1);
        assert(prefix.drop_last() =~= es.subrange(0, i as int));
        assert(prefix.last() == expr_view(*exprs@[i as int]));
        let x = match create_aggregate(&exprs[i], input) {
            Ok(x) => x,
            Err(e) => {
                proof { lemma_aggregates_error_persists(es, input@, i + 1); }
                return Err(e);
            },
        };
        let ghost prev = out@;
        out.push(x);
        assert(aggregate_exprs_view(out@) =~= aggregate_exprs_view(prev).push(x@));
        i = i + 1;
    }
    assert(es.subrange(0, exprs@.len() as int) =~= es);
    Ok(out)
}

/// One side of each join pair.
fn pair_side(on: &Vec<(String, String)>, left: bool) -> (r: Vec<String>)
    ensures
        strings_view(r@) == if left { left_names(pairs_view(on@)) } else { right_names(pairs_view(on@)) },
{
    let ghost side = if left { left_names(pairs_view(on@)) } else { right_names(pairs_view(on@)) };
    let mut out: Vec<String> = Vec::new();
    let mut i: usize = 0;
    while i < on.len()
        invariant
            i <= on.len(),
            side == if left { left_names(pairs_view(on@)) } else { right_names(pairs_view(on@)) },
            strings_view(out@) == side.subrange(0, i as int),
        decreases on.len() - i,
    {
        let ghost prev = out@;
        let name = if left { on[i].0.clone() } else { on[i].1.clone() };
        out.push(name);
        assert(strings_view(out@) =~= strings_view(prev).push(side[i as int]));
        assert(side.subrange(0, i + 1) =~= side.subrange(0, i as int).push(side[i as int]));
        i = i + 1;
    }
    assert(side.subrange(0, on@.len() as int) =~= side);
    out
}

/// The positions of the fields of `right` that `left` has no name for.
fn right_columns(left: &Schema, right: &Schema) -> (r: Vec<usize>)
    ensures
        r@ == columns_not_in(left@, right@),
{
    let mut out: Vec<usize> = Vec::new();
    let mut i: usize = 0;
    assert(right@.subrange(0, 0) =~= Seq::<SpecField>::empty());
    while i < right.fields.len()
        invariant
            i <= right.fields.len(),
            out@ == columns_not_in(left@, right@.subrange(0, i as int)),
        decreases right.fields.len() - i,
    {
        let ghost prefix = right@.subrange(0, i + 1);
        assert(prefix.drop_last() =~= right@.subrange(0, i as int));
        assert(prefix.last() == right@[i as int]);
        if left.index_of(right.fields[i].name.as_str()).is_err() {
            out.push(i);
        }
        i = i + 1;
    }
    assert(right@.subrange(0, right@.len() as int) =~= right@);
    out
}

/// The fields of a projection's expressions over the output of its input.
fn projected_fields(exprs: &Vec<Arc<LogicalExpr>>, input: &LogicalPlan) -> (r: Result<Schema, Error>)
    ensures
        result_view(r) == plan_schema(SpecLogicalPlan::Projection { input: Box::new(input@), exprs: exprs_view(exprs@) }),
{
    if exprs.len() == 0 {
        return Ok(Schema::empty());
    }
    let schema = input.schema()?;
    let fields = fields_over(exprs, &schema)?;
    Ok(Schema::new(fields))
}

/// The physical plan of a logical plan.
pub fn create_physical_plan(plan: &LogicalPlan) -> (r: Result<PhysicalPlan, Error>)
    ensures
        result_view(r) == spec_physical_plan(plan@),
    decreases plan,
{
    let schema = plan.schema()?;
    match plan {
        LogicalPlan::Scan(scan) => Ok(PhysicalPlan::Scan(ScanExec {
            data_source: scan.data_source.duplicate(),
            projection: copy_strings(&scan.projection),
        })),
        LogicalPlan::Selection(selection) => {
            let input = create_physical_plan(&selection.input)?;
            let filter_expr = create_physical_expr(&selection.expr, &selection.input)?;
            Ok(PhysicalPlan::Selection(SelectionExec { input: Box::new(input), expr: filter_expr }))
        },
        LogicalPlan::Projection(projection) => {
            let input = create_physical_plan(&projection.input)?;
            let expr = create_physical_exprs(&projection.expr, &projection.input)?;
            let projected = projected_fields(&projection.expr, &projection.input)?;
            Ok(PhysicalPlan::Projection(ProjectionExec { schema: projected, input: Box::new(input), expr }))
        },
        LogicalPlan::Aggregate(aggregate) => {
            let input = create_physical_plan(&aggregate.input)?;
            let group_expr = create_physical_exprs(&aggregate.group_expr, &aggregate.input)?;
            let aggregate_expr = create_aggregates(&aggregate.aggregate_expr, &aggregate.input)?;
            Ok(PhysicalPlan::HashAggregate(HashAggregrateExec {
                schema,
                input: Box::new(input),
                group_expr,
                aggregate_expr,
            }))
        },
        LogicalPlan::Join(join) => {
            let lhs = create_physical_plan(&join.left)?;
            let rhs = create_physical_plan(&join.right)?;
            let left_schema = join.left.schema()?;
            let lhs_keys = field_ids_by_names(&left_schema, &pair_side(&join.on, true))?;
            let right_schema = join.right.schema()?;
            let rhs_keys = field_ids_by_names(&right_schema, &pair_side(&join.on, false))?;
            let right_columns_to_include = right_columns(&left_schema, &right_schema);
            Ok(PhysicalPlan::Join(HashJoinExec {
                schema,
                lhs: Box::new(lhs),
                rhs: Box::new(rhs),
                join_type: join.join_type,
                lhs_keys,
                rhs_keys,
                right_columns_to_include,
            }))
        },
    }
}

} // verus!
