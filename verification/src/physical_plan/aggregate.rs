//! Aggregate functions of the hash aggregation.
use vstd::prelude::*;

use crate::physical_plan::expr::{PhysicalExpr, SpecPhysicalExpr, physical_expr_text, physical_expr_view};
use crate::text::str_eq;

verus! {

/// An aggregate function applied to the value of an expression.
#[derive(Debug)]
pub enum PhysicalAggregateExpr {
    Max(Box<PhysicalExpr>),
    Sum(Box<PhysicalExpr>),
}

pub enum SpecAggregateExpr {
    Max(SpecPhysicalExpr),
    Sum(SpecPhysicalExpr),
}

pub open spec fn aggregate_expr_view(a: PhysicalAggregateExpr) -> SpecAggregateExpr {
    match a {
        PhysicalAggregateExpr::Max(e) => SpecAggregateExpr::Max(physical_expr_view(*e)),
        PhysicalAggregateExpr::Sum(e) => SpecAggregateExpr::Sum(physical_expr_view(*e)),
    }
}

impl View for PhysicalAggregateExpr {
    type V = SpecAggregateExpr;

    open spec fn view(&self) -> SpecAggregateExpr {
        aggregate_expr_view(*self)
    }
}

pub open spec fn aggregate_exprs_view(v: Seq<PhysicalAggregateExpr>) -> Seq<SpecAggregateExpr> {
    v.map_values(|a: PhysicalAggregateExpr| aggregate_expr_view(a))
}

/// The aggregate function that a lowercase name stands for, applied to `x`:
/// `max` and `sum` are the ones that the hash aggregation computes.
pub open spec fn aggregate_of_lowercase(lower: Seq<char>, x: SpecPhysicalExpr) -> Option<SpecAggregateExpr> {
    if lower == "max"@ {
        Some(SpecAggregateExpr::Max(x))
    } else if lower == "sum"@ {
        Some(SpecAggregateExpr::Sum(x))
    } else {
        None
    }
}

/// The expression whose values are aggregated.
pub open spec fn aggregate_input(a: SpecAggregateExpr) -> SpecPhysicalExpr {
    match a {
        SpecAggregateExpr::Max(e) => e,
        SpecAggregateExpr::Sum(e) => e,
    }
}

pub open spec fn aggregate_text(a: SpecAggregateExpr) -> Seq<char> {
    match a {
        SpecAggregateExpr::Max(e) => "MAX("@ + physical_expr_text(e) + ")"@,
        SpecAggregateExpr::Sum(e) => "SUM("@ + physical_expr_text(e) + ")"@,
    }
}

impl PhysicalAggregateExpr {
    /// The expression whose values are aggregated.
    /// The aggregate function that a lowercase name stands for, applied to
    /// `input`, if the hash aggregation computes it.
    pub fn from_lowercase(lower: &str, input: PhysicalExpr) -> (r: Option<PhysicalAggregateExpr>)
        ensures
            r.is_some() == aggregate_of_lowercase(lower@, input@).is_some(),
            r.is_some() ==> r.unwrap()@ == aggregate_of_lowercase(lower@, input@).unwrap(),
    {
        if str_eq(lower, "max") {
            Some(PhysicalAggregateExpr::Max(Box::new(input)))
        } else if str_eq(lower, "sum") {
            Some(PhysicalAggregateExpr::Sum(Box::new(input)))
        } else {
            None
        }
    }

    pub fn input(&self) -> (e: &PhysicalExpr)
        ensures
            e@ == aggregate_input(self@),
    {
        match self {
            PhysicalAggregateExpr::Max(e) => e,
            PhysicalAggregateExpr::Sum(e) => e,
        }
    }

    /// Appends the aggregate's text to `out`.
    pub fn write_to(&self, out: &mut String)
        ensures
            final(out)@ == old(out)@ + aggregate_text(self@),
    {
        match self {
            PhysicalAggregateExpr::Max(e) => {
                out.append("MAX(");
                e.write_to(out);
                out.append(")");
            },
            PhysicalAggregateExpr::Sum(e) => {
                out.append("SUM(");
                e.write_to(out);
                out.append(")");
            },
        }
    }

    pub fn to_string(&self) -> (s: String)
        ensures
            s@ == aggregate_text(self@),
    {
        let mut s = String::new();
        self.write_to(&mut s);
        s
    }

    pub fn duplicate(&self) -> (r: PhysicalAggregateExpr)
        ensures
            r@ == self@,
    {
        match self {
            PhysicalAggregateExpr::Max(e) => PhysicalAggregateExpr::Max(Box::new(e.duplicate())),
            PhysicalAggregateExpr::Sum(e) => PhysicalAggregateExpr::Sum(Box::new(e.duplicate())),
        }
    }
}

} // verus!
