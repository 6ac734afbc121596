//! Physical expressions: what an executor evaluates over a record batch.
use vstd::prelude::*;

use std::sync::Arc;

use crate::logical_plan::expr::{SpecLiteral, logical_literal_text};
use crate::text::{nat_decimal, push_i64, push_usize};

verus! {

/// An expression over the columns of a batch, by position.
#[derive(Debug)]
pub enum PhysicalExpr {
    Column(usize),
    Literal(PhysicalLiteralExpr),
    Binary(PhysicalBinaryExpr),
}

/// A constant; a double is held as its shortest decimal text.
#[derive(Debug)]
pub enum PhysicalLiteralExpr {
    String(String),
    Long(i64),
    Double(String),
}

#[derive(Debug)]
pub struct PhysicalBinaryExpr {
    pub lhs: Arc<PhysicalExpr>,
    pub op: PhysicalBinaryOp,
    pub rhs: Arc<PhysicalExpr>,
}

#[derive(Debug, Clone, Copy, PartialEq, Eq, Structural)]
pub enum PhysicalBinaryOp {
    Eq,
    Add,
    Sub,
    Mul,
    Div,
}

pub enum SpecPhysicalExpr {
    Column(usize),
    Literal(SpecLiteral),
    Binary { lhs: Box<SpecPhysicalExpr>, op: PhysicalBinaryOp, rhs: Box<SpecPhysicalExpr> },
}

impl View for PhysicalLiteralExpr {
    type V = SpecLiteral;

    open spec fn view(&self) -> SpecLiteral {
        match self {
            PhysicalLiteralExpr::String(s) => SpecLiteral::String(s@),
            PhysicalLiteralExpr::Long(v) => SpecLiteral::Long(*v),
            PhysicalLiteralExpr::Double(s) => SpecLiteral::Double(s@),
        }
    }
}

pub open spec fn physical_expr_view(e: PhysicalExpr) -> SpecPhysicalExpr
    decreases e,
{
    match e {
        PhysicalExpr::Column(i) => SpecPhysicalExpr::Column(i),
        PhysicalExpr::Literal(l) => SpecPhysicalExpr::Literal(l@),
        PhysicalExpr::Binary(b) => SpecPhysicalExpr::Binary {
            lhs: Box::new(physical_expr_view(*b.lhs)),
            op: b.op,
            rhs: Box::new(physical_expr_view(*b.rhs)),
        },
    }
}

impl View for PhysicalExpr {
    type V = SpecPhysicalExpr;

    open spec fn view(&self) -> SpecPhysicalExpr {
        physical_expr_view(*self)
    }
}

/// The views of a list of expressions.
pub open spec fn physical_exprs_view(v: Seq<PhysicalExpr>) -> Seq<SpecPhysicalExpr> {
    v.map_values(|e: PhysicalExpr| physical_expr_view(e))
}

pub open spec fn physical_op_text(op: PhysicalBinaryOp) -> Seq<char> {
    match op {
        PhysicalBinaryOp::Eq => "="@,
        PhysicalBinaryOp::Add => "+"@,
        PhysicalBinaryOp::Sub => "-"@,
        PhysicalBinaryOp::Mul => "*"@,
        PhysicalBinaryOp::Div => "/"@,
    }
}

/// The text of a physical expression: columns by `#` and position.
pub open spec fn physical_expr_text(e: SpecPhysicalExpr) -> Seq<char>
    decreases e,
{
    match e {
        SpecPhysicalExpr::Column(i) => "#"@ + nat_decimal(i as nat),
        SpecPhysicalExpr::Literal(l) => logical_literal_text(l),
        SpecPhysicalExpr::Binary { lhs, op, rhs } => physical_expr_text(*lhs) + " "@ + physical_op_text(op) + " "@
            + physical_expr_text(*rhs),
    }
}

impl PhysicalBinaryOp {
    pub fn to_str(&self) -> (s: &'static str)
        ensures
            s@ == physical_op_text(*self),
    {
        match self {
            PhysicalBinaryOp::Eq => {
                proof { reveal_strlit("="); }
                "="
            },
            PhysicalBinaryOp::Add => {
                proof { reveal_strlit("+"); }
                "+"
            },
            PhysicalBinaryOp::Sub => {
                proof { reveal_strlit("-"); }
                "-"
            },
            PhysicalBinaryOp::Mul => {
                proof { reveal_strlit("*"); }
                "*"
            },
            PhysicalBinaryOp::Div => {
                proof { reveal_strlit("/"); }
                "/"
            },
        }
    }
}

impl PhysicalLiteralExpr {
    pub fn duplicate(&self) -> (r: PhysicalLiteralExpr)
        ensures
            r@ == self@,
    {
        match self {
            PhysicalLiteralExpr::String(s) => PhysicalLiteralExpr::String(s.clone()),
            PhysicalLiteralExpr::Long(v) => PhysicalLiteralExpr::Long(*v),
            PhysicalLiteralExpr::Double(s) => PhysicalLiteralExpr::Double(s.clone()),
        }
    }
}

impl PhysicalExpr {
    /// Appends the expression's text to `out`.
    pub fn write_to(&self, out: &mut String)
        ensures
            final(out)@ == old(out)@ + physical_expr_text(self@),
        decreases self,
    {
        match self {
            PhysicalExpr::Column(i) => {
                out.append("#");
                push_usize(out, *i);
            },
            PhysicalExpr::Literal(l) => match l {
                PhysicalLiteralExpr::String(s) => {
                    out.append("'");
                    out.append(s.as_str());
                    out.append("'");
                },
                PhysicalLiteralExpr::Long(v) => push_i64(out, *v),
                PhysicalLiteralExpr::Double(s) => out.append(s.as_str()),
            },
            PhysicalExpr::Binary(b) => {
                b.lhs.write_to(out);
                out.append(" ");
                out.append(b.op.to_str());
                out.append(" ");
                b.rhs.write_to(out);
            },
        }
    }

    pub fn to_string(&self) -> (s: String)
        ensures
            s@ == physical_expr_text(self@),
    {
        let mut s = String::new();
        self.write_to(&mut s);
        s
    }

    pub fn duplicate(&self) -> (r: PhysicalExpr)
        ensures
            r@ == self@,
        decreases self,
    {
        match self {
            PhysicalExpr::Column(i) => PhysicalExpr::Column(*i),
            PhysicalExpr::Literal(l) => PhysicalExpr::Literal(l.duplicate()),
            PhysicalExpr::Binary(b) => PhysicalExpr::Binary(PhysicalBinaryExpr {
                lhs: Arc::new(b.lhs.duplicate()),
                op: b.op,
                rhs: Arc::new(b.rhs.duplicate()),
            }),
        }
    }
}

} // verus!
