//! A builder of logical plans.
use vstd::prelude::*;

use std::sync::Arc;

use crate::logical_plan::expr::{BinaryOp, Literal, LogicalExpr, SpecLogicalExpr, expr_view, exprs_view};
use crate::logical_plan::{
    Aggregate, Join, JoinType, LogicalPlan, Projection, Selection, SpecLogicalPlan, pairs_view,
};

verus! {

#[derive(Debug)]
pub struct DataFrame {
    plan: LogicalPlan,
}

impl View for DataFrame {
    type V = SpecLogicalPlan;

    closed spec fn view(&self) -> SpecLogicalPlan {
        self.plan@
    }
}

/// The name pairs with their sides swapped.
pub open spec fn swap_pairs(on: Seq<(Seq<char>, Seq<char>)>) -> Seq<(Seq<char>, Seq<char>)> {
    on.map_values(|p: (Seq<char>, Seq<char>)| (p.1, p.0))
}

/// The plan of a join: a right join is the left join of the swapped inputs.
pub open spec fn spec_join(left: SpecLogicalPlan, right: SpecLogicalPlan, jt: JoinType, on: Seq<(Seq<char>, Seq<char>)>) -> SpecLogicalPlan {
    if jt == JoinType::Right {
        SpecLogicalPlan::Join { left: Box::new(right), right: Box::new(left), join_type: JoinType::Left, on: swap_pairs(on) }
    } else {
        SpecLogicalPlan::Join { left: Box::new(left), right: Box::new(right), join_type: jt, on }
    }
}

impl DataFrame {
    pub fn new(plan: LogicalPlan) -> (df: DataFrame)
        ensures
            df@ == plan@,
    {
        DataFrame { plan }
    }

    /// A copy of the plan.
    pub fn plan(&self) -> (p: LogicalPlan)
        ensures
            p@ == self@,
    {
        self.plan.duplicate()
    }

    /// A copy of the data frame.
    pub fn duplicate(&self) -> (df: DataFrame)
        ensures
            df@ == self@,
    {
        DataFrame { plan: self.plan.duplicate() }
    }

    pub fn project(self, expr: Vec<Arc<LogicalExpr>>) -> (df: DataFrame)
        ensures
            df@ == (SpecLogicalPlan::Projection { input: Box::new(self@), exprs: exprs_view(expr@) }),
    {
        let plan = LogicalPlan::Projection(Projection { input: Box::new(self.plan), expr });
        DataFrame { plan }
    }

    pub fn filter(self, expr: Arc<LogicalExpr>) -> (df: DataFrame)
        ensures
            df@ == (SpecLogicalPlan::Selection { input: Box::new(self@), expr: expr_view(*expr) }),
    {
        let plan = LogicalPlan::Selection(Selection { input: Box::new(self.plan), expr });
        DataFrame { plan }
    }

    pub fn aggregate(self, group_by: Vec<Arc<LogicalExpr>>, aggregate: Vec<Arc<LogicalExpr>>) -> (df: DataFrame)
        ensures
            df@ == (SpecLogicalPlan::Aggregate {
                input: Box::new(self@),
                group_expr: exprs_view(group_by@),
                aggregate_expr: exprs_view(aggregate@),
            }),
    {
        let plan = LogicalPlan::Aggregate(Aggregate { input: Box::new(self.plan), group_expr: group_by, aggregate_expr: aggregate });
        DataFrame { plan }
    }

    pub fn join(self, right: DataFrame, join_type: JoinType, on: Vec<(String, String)>) -> (df: DataFrame)
        ensures
            df@ == spec_join(self@, right@, join_type, pairs_view(on@)),
    {
        let plan = match join_type {
            JoinType::Inner | JoinType::Left => LogicalPlan::Join(Join {
                left: Box::new(self.plan),
                right: Box::new(right.plan),
                join_type,
                on,
            }),
            JoinType::Right => {
                let mut swapped: Vec<(String, String)> = Vec::new();
                let mut on = on;
                let ghost given = pairs_view(on@);
                let mut i: usize = 0;
                while i < on.len()
                    invariant
                        i <= on.len(),
                        given == pairs_view(on@),
                        pairs_view(swapped@) == swap_pairs(given).subrange(0, i as int),
                    decreases on.len() - i,
                {
                    let ghost prev = swapped@;
                    swapped.push((on[i].1.clone(), on[i].0.clone()));
                    assert(pairs_view(swapped@) =~= pairs_view(prev).push((on@[i as int].1@, on@[i as int].0@)));
                    assert(swap_pairs(given).subrange(0, i + 1) =~= swap_pairs(given).subrange(0, i as int).push((on@[i as int].1@, on@[i as int].0@)));
                    i = i + 1;
                }
                assert(swap_pairs(given).subrange(0, on.len() as int) =~= swap_pairs(given));
                LogicalPlan::Join(Join {
                    left: Box::new(right.plan),
                    right: Box::new(self.plan),
                    join_type: JoinType::Left,
                    on: swapped,
                })
            },
        };
        DataFrame { plan }
    }
}

/// A column by name.
pub fn col(name: &str) -> (e: Arc<LogicalExpr>)
    ensures
        expr_view(*e) == SpecLogicalExpr::Column(name@),
{
    Arc::new(LogicalExpr::Column(String::from_str(name)))
}

/// A column by index.
pub fn col_index(index: usize) -> (e: Arc<LogicalExpr>)
    ensures
        expr_view(*e) == SpecLogicalExpr::ColumnIndex(index),
{
    Arc::new(LogicalExpr::ColumnIndex(index))
}

/// A literal value.
pub fn lit(value: Literal) -> (e: Arc<LogicalExpr>)
    ensures
        expr_view(*e) == SpecLogicalExpr::Literal(value@),
{
    Arc::new(LogicalExpr::Literal(value))
}

/// The binary expression of two operands.
pub open spec fn spec_binary(lhs: SpecLogicalExpr, op: BinaryOp, rhs: SpecLogicalExpr) -> SpecLogicalExpr {
    SpecLogicalExpr::Binary { lhs: Box::new(lhs), op, rhs: Box::new(rhs) }
}

impl LogicalExpr {
    fn binary(lhs: Arc<LogicalExpr>, op: BinaryOp, rhs: Arc<LogicalExpr>) -> (e: Arc<LogicalExpr>)
        ensures
            expr_view(*e) == spec_binary(expr_view(*lhs), op, expr_view(*rhs)),
    {
        Arc::new(LogicalExpr::Binary { lhs, op, rhs })
    }

    pub fn eq(self: Arc<LogicalExpr>, rhs: Arc<LogicalExpr>) -> (e: Arc<LogicalExpr>)
        ensures
            expr_view(*e) == spec_binary(expr_view(*self), BinaryOp::Eq, expr_view(*rhs)),
    {
        Self::binary(self, BinaryOp::Eq, rhs)
    }

    pub fn neq(self: Arc<LogicalExpr>, rhs: Arc<LogicalExpr>) -> (e: Arc<LogicalExpr>)
        ensures
            expr_view(*e) == spec_binary(expr_view(*self), BinaryOp::Neq, expr_view(*rhs)),
    {
        Self::binary(self, BinaryOp::Neq, rhs)
    }

    pub fn gt(self: Arc<LogicalExpr>, rhs: Arc<LogicalExpr>) -> (e: Arc<LogicalExpr>)
        ensures
            expr_view(*e) == spec_binary(expr_view(*self), BinaryOp::Gt, expr_view(*rhs)),
    {
        Self::binary(self, BinaryOp::Gt, rhs)
    }

    pub fn gteq(self: Arc<LogicalExpr>, rhs: Arc<LogicalExpr>) -> (e: Arc<LogicalExpr>)
        ensures
            expr_view(*e) == spec_binary(expr_view(*self), BinaryOp::GtEq, expr_view(*rhs)),
    {
        Self::binary(self, BinaryOp::GtEq, rhs)
    }

    pub fn lt(self: Arc<LogicalExpr>, rhs: Arc<LogicalExpr>) -> (e: Arc<LogicalExpr>)
        ensures
            expr_view(*e) == spec_binary(expr_view(*self), BinaryOp::Lt, expr_view(*rhs)),
    {
        Self::binary(self, BinaryOp::Lt, rhs)
    }

    pub fn lteq(self: Arc<LogicalExpr>, rhs: Arc<LogicalExpr>) -> (e: Arc<LogicalExpr>)
        ensures
            expr_view(*e) == spec_binary(expr_view(*self), BinaryOp::LtEq, expr_view(*rhs)),
    {
        Self::binary(self, BinaryOp::LtEq, rhs)
    }

    pub fn mult(self: Arc<LogicalExpr>, rhs: Arc<LogicalExpr>) -> (e: Arc<LogicalExpr>)
        ensures
            expr_view(*e) == spec_binary(expr_view(*self), BinaryOp::Multiply, expr_view(*rhs)),
    {
        Self::binary(self, BinaryOp::Multiply, rhs)
    }

    pub fn alias(self: Arc<LogicalExpr>, alias: &str) -> (e: Arc<LogicalExpr>)
        ensures
            expr_view(*e) == (SpecLogicalExpr::Alias { expr: Box::new(expr_view(*self)), alias: alias@ }),
    {
        Arc::new(LogicalExpr::Alias { expr: self, alias: String::from_str(alias) })
    }
}

/// A right join is the left join of the swapped inputs, with each pair of
/// join keys swapped.
pub proof fn law_right_join_swaps_inputs(
    left: SpecLogicalPlan,
    right: SpecLogicalPlan,
    on: Seq<(Seq<char>, Seq<char>)>,
)
    ensures
        spec_join(left, right, JoinType::Right, on) == spec_join(right, left, JoinType::Left, swap_pairs(on)),
{
}

} // verus!
