//! Logical expressions: their output field over a schema, and their text.
use vstd::prelude::*;

use std::sync::Arc;

use crate::error::{Error, SpecError, result_view};
use crate::schema::{
    DataType, Field, Schema, SpecDataType, SpecField, data_type_text,
    spec_field_with_name,
};
use crate::text::{
    ascii_lowercase, int_decimal, is_ascii_text, push_i64, push_usize, nat_decimal, lowercase, str_eq, to_lowercase,
};

verus! {

#[derive(Debug)]
pub enum LogicalExpr {
    Column(String),
    ColumnIndex(usize),
    Literal(Literal),
    Binary { lhs: Arc<LogicalExpr>, op: BinaryOp, rhs: Arc<LogicalExpr> },
    Aggregate { name: String, expr: Arc<LogicalExpr> },
    Alias { expr: Arc<LogicalExpr>, alias: String },
    Cast { expr: Arc<LogicalExpr>, data_type: DataType },
}

/// A literal value; a double is held as its shortest decimal text.
#[derive(Debug, Clone, PartialEq, Eq)]
pub enum Literal {
    String(String),
    Long(i64),
    Double(String),
}

#[derive(Debug, Clone, Copy, PartialEq, Eq, Structural)]
pub enum BinaryOp {
    Eq,
    Neq,
    Gt,
    GtEq,
    Lt,
    LtEq,
    Plus,
    Minus,
    Multiply,
    Divide,
    As,
    And,
}

pub enum SpecLiteral {
    String(Seq<char>),
    Long(i64),
    Double(Seq<char>),
}

pub enum SpecLogicalExpr {
    Column(Seq<char>),
    ColumnIndex(usize),
    Literal(SpecLiteral),
    Binary { lhs: Box<SpecLogicalExpr>, op: BinaryOp, rhs: Box<SpecLogicalExpr> },
    Aggregate { name: Seq<char>, expr: Box<SpecLogicalExpr> },
    Alias { expr: Box<SpecLogicalExpr>, alias: Seq<char> },
    Cast { expr: Box<SpecLogicalExpr>, data_type: SpecDataType },
}

impl View for Literal {
    type V = SpecLiteral;

    open spec fn view(&self) -> SpecLiteral {
        match self {
            Literal::String(s) => SpecLiteral::String(s@),
            Literal::Long(v) => SpecLiteral::Long(*v),
            Literal::Double(s) => SpecLiteral::Double(s@),
        }
    }
}

pub open spec fn expr_view(e: LogicalExpr) -> SpecLogicalExpr
    decreases e,
{
    match e {
        LogicalExpr::Column(name) => SpecLogicalExpr::Column(name@),
        LogicalExpr::ColumnIndex(i) => SpecLogicalExpr::ColumnIndex(i),
        LogicalExpr::Literal(l) => SpecLogicalExpr::Literal(l@),
        LogicalExpr::Binary { lhs, op, rhs } => SpecLogicalExpr::Binary {
            lhs: Box::new(expr_view(*lhs)),
            op,
            rhs: Box::new(expr_view(*rhs)),
        },
        LogicalExpr::Aggregate { name, expr } => SpecLogicalExpr::Aggregate {
            name: name@,
            expr: Box::new(expr_view(*expr)),
        },
        LogicalExpr::Alias { expr, alias } => SpecLogicalExpr::Alias {
            expr: Box::new(expr_view(*expr)),
            alias: alias@,
        },
        LogicalExpr::Cast { expr, data_type } => SpecLogicalExpr::Cast {
            expr: Box::new(expr_view(*expr)),
            data_type: data_type@,
        },
    }
}

impl View for LogicalExpr {
    type V = SpecLogicalExpr;

    open spec fn view(&self) -> SpecLogicalExpr {
        expr_view(*self)
    }
}

/// The views of a list of shared expressions.
pub open spec fn exprs_view(v: Seq<Arc<LogicalExpr>>) -> Seq<SpecLogicalExpr> {
    v.map_values(|e: Arc<LogicalExpr>| expr_view(*e))
}

/// `Arc::clone`: another pointer to the same expression.
#[verifier::external_body]
pub fn share(e: &Arc<LogicalExpr>) -> (r: Arc<LogicalExpr>)
    ensures
        *r == **e,
{
    Arc::clone(e)
}

/// Shares every expression of a list.
pub fn share_all(v: &Vec<Arc<LogicalExpr>>) -> (r: Vec<Arc<LogicalExpr>>)
    ensures
        exprs_view(r@) == exprs_view(v@),
{
    let mut r: Vec<Arc<LogicalExpr>> = Vec::new();
    let mut i: usize = 0;
    while i < v.len()
        invariant
            i <= v.len(),
            exprs_view(r@) == exprs_view(v@).subrange(0, i as int),
        decreases v.len() - i,
    {
        let ghost prev = r@;
        r.push(share(&v[i]));
        assert(exprs_view(r@) =~= exprs_view(prev).push(expr_view(*v@[i as int])));
        assert(exprs_view(v@).subrange(0, i + 1) =~= exprs_view(v@).subrange(0, i as int).push(expr_view(*v@[i as int])));
        i = i + 1;
    }
    assert(exprs_view(v@).subrange(0, v.len() as int) =~= exprs_view(v@));
    r
}

/// Whether an expression names the column `n`: as a column, or inside an
/// operand, an aliased expression or an aggregated expression.  The operand
/// of a cast is not looked into, and a column index names no column.
pub open spec fn names_column(e: SpecLogicalExpr, n: Seq<char>) -> bool
    decreases e,
{
    match e {
        SpecLogicalExpr::Column(c) => c == n,
        SpecLogicalExpr::Binary { lhs, rhs, .. } => names_column(*lhs, n) || names_column(*rhs, n),
        SpecLogicalExpr::Alias { expr, .. } => names_column(*expr, n),
        SpecLogicalExpr::Aggregate { expr, .. } => names_column(*expr, n),
        _ => false,
    }
}

pub open spec fn binary_op_text(op: BinaryOp) -> Seq<char> {
    match op {
        BinaryOp::Eq => "="@,
        BinaryOp::Neq => "!="@,
        BinaryOp::Gt => ">"@,
        BinaryOp::GtEq => ">="@,
        BinaryOp::Lt => "<"@,
        BinaryOp::LtEq => "<="@,
        BinaryOp::Plus => "+"@,
        BinaryOp::Minus => "-"@,
        BinaryOp::Multiply => "*"@,
        BinaryOp::Divide => "/"@,
        BinaryOp::As => "AS"@,
        BinaryOp::And => "AND"@,
    }
}

/// The operator that a lowercase text names, if any.
pub open spec fn binary_op_of(lower: Seq<char>) -> Option<BinaryOp> {
    if lower == "="@ {
        Some(BinaryOp::Eq)
    } else if lower == "!="@ {
        Some(BinaryOp::Neq)
    } else if lower == ">"@ {
        Some(BinaryOp::Gt)
    } else if lower == ">="@ {
        Some(BinaryOp::GtEq)
    } else if lower == "<"@ {
        Some(BinaryOp::Lt)
    } else if lower == "<="@ {
        Some(BinaryOp::LtEq)
    } else if lower == "+"@ {
        Some(BinaryOp::Plus)
    } else if lower == "-"@ {
        Some(BinaryOp::Minus)
    } else if lower == "*"@ {
        Some(BinaryOp::Multiply)
    } else if lower == "/"@ {
        Some(BinaryOp::Divide)
    } else if lower == "as"@ {
        Some(BinaryOp::As)
    } else if lower == "and"@ {
        Some(BinaryOp::And)
    } else {
        None
    }
}

/// The lowercase text of an operator.
pub open spec fn binary_op_word(op: BinaryOp) -> Seq<char> {
    match op {
        BinaryOp::As => "as"@,
        BinaryOp::And => "and"@,
        _ => binary_op_text(op),
    }
}

proof fn lemma_binary_op_words()
    ensures
        forall|op: BinaryOp| #[trigger] ascii_lowercase(binary_op_text(op)) == binary_op_word(op),
        forall|op: BinaryOp| is_ascii_text(#[trigger] binary_op_text(op)),
        forall|op: BinaryOp, w: Seq<char>| (#[trigger] binary_op_of(w) == Some(op) <==> w == #[trigger] binary_op_word(op)),
{
    reveal_strlit("=");
    reveal_strlit("!=");
    reveal_strlit(">");
    reveal_strlit(">=");
    reveal_strlit("<");
    reveal_strlit("<=");
    reveal_strlit("+");
    reveal_strlit("-");
    reveal_strlit("*");
    reveal_strlit("/");
    reveal_strlit("AS");
    reveal_strlit("AND");
    reveal_strlit("as");
    reveal_strlit("and");
    assert forall|op: BinaryOp| #[trigger] ascii_lowercase(binary_op_text(op)) == binary_op_word(op) by {
        assert(ascii_lowercase(binary_op_text(op)) =~= binary_op_word(op));
    }
    assert forall|op: BinaryOp| is_ascii_text(#[trigger] binary_op_text(op)) by {
        let t = binary_op_text(op);
        assert forall|i: int| 0 <= i < t.len() implies (#[trigger] t[i]) < '\u{80}' by {}
    }
    let words = seq!["="@, "!="@, ">"@, ">="@, "<"@, "<="@, "+"@, "-"@, "*"@, "/"@, "as"@, "and"@];
    assert forall|i: int, j: int| 0 <= i < j < 12 implies #[trigger] words[i] != #[trigger] words[j] by {
        if words[i].len() == words[j].len() {
            assert(words[i][0] != words[j][0] || words[i][1] != words[j][1]);
        }
    }
    assert(words[0] == binary_op_word(BinaryOp::Eq));
    assert(words[1] == binary_op_word(BinaryOp::Neq));
    assert(words[2] == binary_op_word(BinaryOp::Gt));
    assert(words[3] == binary_op_word(BinaryOp::GtEq));
    assert(words[4] == binary_op_word(BinaryOp::Lt));
    assert(words[5] == binary_op_word(BinaryOp::LtEq));
    assert(words[6] == binary_op_word(BinaryOp::Plus));
    assert(words[7] == binary_op_word(BinaryOp::Minus));
    assert(words[8] == binary_op_word(BinaryOp::Multiply));
    assert(words[9] == binary_op_word(BinaryOp::Divide));
    assert(words[10] == binary_op_word(BinaryOp::As));
    assert(words[11] == binary_op_word(BinaryOp::And));
}

/// An operator is read from its text and from every text that differs from
/// it only in the case of ASCII letters (`and` is `AND`), and from no other
/// ASCII text.
pub proof fn law_binary_op_read_in_any_case(op: BinaryOp, t: Seq<char>)
    ensures
        spec_binary_op_from(binary_op_text(op)) == Ok::<BinaryOp, SpecError>(op),
        is_ascii_text(t) ==> (spec_binary_op_from(t) == Ok::<BinaryOp, SpecError>(op)
            <==> ascii_lowercase(t) == ascii_lowercase(binary_op_text(op))),
{
    lemma_binary_op_words();
    assert(binary_op_of(binary_op_word(op)) == Some(op));
}

pub open spec fn spec_binary_op_from(op: Seq<char>) -> Result<BinaryOp, SpecError> {
    match binary_op_of(lowercase(op)) {
        Some(o) => Ok(o),
        None => Err(SpecError::InvalidBinaryOp(op)),
    }
}

impl BinaryOp {
    pub fn to_str(&self) -> (s: &'static str)
        ensures
            s@ == binary_op_text(*self),
    {
        match self {
            BinaryOp::Eq => "=",
            BinaryOp::Neq => "!=",
            BinaryOp::Gt => ">",
            BinaryOp::GtEq => ">=",
            BinaryOp::Lt => "<",
            BinaryOp::LtEq => "<=",
            BinaryOp::Plus => "+",
            BinaryOp::Minus => "-",
            BinaryOp::Multiply => "*",
            BinaryOp::Divide => "/",
            BinaryOp::As => "AS",
            BinaryOp::And => "AND",
        }
    }

    pub fn to_string(&self) -> (s: String)
        ensures
            s@ == binary_op_text(*self),
    {
        String::from_str(self.to_str())
    }

    /// Reads an operator from its text, whatever its case.
    pub fn try_from_str(op: &str) -> (r: Result<BinaryOp, Error>)
        ensures
            match r {
                Ok(o) => spec_binary_op_from(op@) == Ok::<BinaryOp, SpecError>(o),
                Err(e) => spec_binary_op_from(op@) == Err::<BinaryOp, SpecError>(e@),
            },
    {
        let lower = to_lowercase(op);
        match BinaryOp::from_lowercase(lower.as_str()) {
            Some(o) => Ok(o),
            None => Err(Error::InvalidBinaryOp(String::from_str(op))),
        }
    }

    /// The operator that a lowercase text names, if any.
    pub fn from_lowercase(l: &str) -> (r: Option<BinaryOp>)
        ensures
            r == binary_op_of(l@),
    {
        if str_eq(l, "=") {
            Some(BinaryOp::Eq)
        } else if str_eq(l, "!=") {
            Some(BinaryOp::Neq)
        } else if str_eq(l, ">") {
            Some(BinaryOp::Gt)
        } else if str_eq(l, ">=") {
            Some(BinaryOp::GtEq)
        } else if str_eq(l, "<") {
            Some(BinaryOp::Lt)
        } else if str_eq(l, "<=") {
            Some(BinaryOp::LtEq)
        } else if str_eq(l, "+") {
            Some(BinaryOp::Plus)
        } else if str_eq(l, "-") {
            Some(BinaryOp::Minus)
        } else if str_eq(l, "*") {
            Some(BinaryOp::Multiply)
        } else if str_eq(l, "/") {
            Some(BinaryOp::Divide)
        } else if str_eq(l, "as") {
            Some(BinaryOp::As)
        } else if str_eq(l, "and") {
            Some(BinaryOp::And)
        } else {
            None
        }
    }
}

pub open spec fn logical_literal_text(l: SpecLiteral) -> Seq<char> {
    match l {
        SpecLiteral::String(s) => "'"@ + s + "'"@,
        SpecLiteral::Long(v) => int_decimal(v as int),
        SpecLiteral::Double(s) => s,
    }
}

/// The text of an expression.
pub open spec fn expr_text(e: SpecLogicalExpr) -> Seq<char>
    decreases e,
{
    match e {
        SpecLogicalExpr::Column(name) => "#"@ + name,
        SpecLogicalExpr::ColumnIndex(i) => "#"@ + nat_decimal(i as nat),
        SpecLogicalExpr::Literal(l) => logical_literal_text(l),
        SpecLogicalExpr::Binary { lhs, op, rhs } => expr_text(*lhs) + " "@ + binary_op_text(op) + " "@ + expr_text(*rhs),
        SpecLogicalExpr::Aggregate { name, expr } => name + "("@ + expr_text(*expr) + ")"@,
        SpecLogicalExpr::Alias { expr, alias } => expr_text(*expr) + " as "@ + alias,
        SpecLogicalExpr::Cast { expr, data_type } => expr_text(*expr) + " as "@ + data_type_text(data_type),
    }
}

/// The field that an expression yields over a schema.
pub open spec fn field_of(e: SpecLogicalExpr, s: Seq<SpecField>) -> Result<SpecField, SpecError>
    decreases e,
{
    match e {
        SpecLogicalExpr::Column(name) => spec_field_with_name(s, name),
        SpecLogicalExpr::ColumnIndex(i) => if i < s.len() {
            Ok(s[i as int])
        } else {
            Err(SpecError::ColumnIndexOutOfRange(i))
        },
        SpecLogicalExpr::Literal(l) => Ok(match l {
            SpecLiteral::String(v) => SpecField { name: v, data_type: SpecDataType::Utf8, nullable: true },
            SpecLiteral::Long(v) => SpecField { name: int_decimal(v as int), data_type: SpecDataType::Int64, nullable: true },
            SpecLiteral::Double(v) => SpecField { name: v, data_type: SpecDataType::Float64, nullable: true },
        }),
        SpecLogicalExpr::Binary { lhs, op, rhs } => match field_of(*lhs, s) {
            Err(e) => Err(e),
            Ok(lf) => match field_of(*rhs, s) {
                Err(e) => Err(e),
                Ok(rf) => if lf.data_type != rf.data_type {
                    Err(SpecError::DataTypeMismatch)
                } else {
                    Ok(SpecField { name: binary_op_text(op), data_type: lf.data_type, nullable: lf.nullable || rf.nullable })
                },
            },
        },
        SpecLogicalExpr::Aggregate { name, expr } => match field_of(*expr, s) {
            Err(e) => Err(e),
            Ok(f) => Ok(SpecField { name, ..f }),
        },
        SpecLogicalExpr::Alias { expr, alias } => match field_of(*expr, s) {
            Err(e) => Err(e),
            Ok(f) => Ok(SpecField { name: alias, ..f }),
        },
        SpecLogicalExpr::Cast { expr, data_type } => match field_of(*expr, s) {
            Err(e) => Err(e),
            Ok(f) => Ok(SpecField { data_type, ..f }),
        },
    }
}

impl Literal {
    pub fn duplicate(&self) -> (r: Literal)
        ensures
            r@ == self@,
    {
        match self {
            Literal::String(s) => Literal::String(s.clone()),
            Literal::Long(v) => Literal::Long(*v),
            Literal::Double(s) => Literal::Double(s.clone()),
        }
    }

    pub fn write_to(&self, out: &mut String)
        ensures
            final(out)@ == old(out)@ + logical_literal_text(self@),
    {
        match self {
            Literal::String(s) => {
                out.append("'");
                out.append(s.as_str());
                out.append("'");
            },
            Literal::Long(v) => push_i64(out, *v),
            Literal::Double(s) => out.append(s.as_str()),
        }
    }
}

impl LogicalExpr {
    /// Appends the expression's text to `out`.
    pub fn write_to(&self, out: &mut String)
        ensures
            final(out)@ == old(out)@ + expr_text(self@),
        decreases self,
    {
        match self {
            LogicalExpr::Column(name) => {
                out.append("#");
                out.append(name.as_str());
            },
            LogicalExpr::ColumnIndex(i) => {
                out.append("#");
                push_usize(out, *i);
            },
            LogicalExpr::Literal(l) => l.write_to(out),
            LogicalExpr::Binary { lhs, op, rhs } => {
                lhs.write_to(out);
                out.append(" ");
                out.append(op.to_str());
                out.append(" ");
                rhs.write_to(out);
            },
            LogicalExpr::Aggregate { name, expr } => {
                out.append(name.as_str());
                out.append("(");
                expr.write_to(out);
                out.append(")");
            },
            LogicalExpr::Alias { expr, alias } => {
                expr.write_to(out);
                out.append(" as ");
                out.append(alias.as_str());
            },
            LogicalExpr::Cast { expr, data_type } => {
                expr.write_to(out);
                out.append(" as ");
                data_type.write_to(out);
            },
        }
    }

    pub fn to_string(&self) -> (s: String)
        ensures
            s@ == expr_text(self@),
    {
        let mut s = String::new();
        self.write_to(&mut s);
        s
    }

    /// The field that the expression yields over a schema.
    pub fn field_over(&self, schema: &Schema) -> (r: Result<Field, Error>)
        ensures
            result_view(r) == field_of(self@, schema@),
        decreases self,
    {
        match self {
            LogicalExpr::Column(name) => schema.field_with_name(name.as_str()),
            LogicalExpr::ColumnIndex(i) => if *i < schema.len() {
                Ok(schema.field(*i))
            } else {
                Err(Error::ColumnIndexOutOfRange(*i))
            },
            LogicalExpr::Literal(literal) => match literal {
                Literal::String(s) => Ok(Field::new(s.clone(), DataType::Utf8, true)),
                Literal::Long(l) => {
                    let mut name = String::new();
                    push_i64(&mut name, *l);
                    Ok(Field::new(name, DataType::Int64, true))
                },
                Literal::Double(d) => Ok(Field::new(d.clone(), DataType::Float64, true)),
            },
            LogicalExpr::Binary { lhs, op, rhs } => {
                let left_field = lhs.field_over(schema)?;
                let right_field = rhs.field_over(schema)?;
                if !left_field.data_type.same_as(&right_field.data_type) {
                    return Err(Error::DataTypeMismatch);
                }
                Ok(Field::new(op.to_string(), left_field.data_type, left_field.nullable || right_field.nullable))
            },
            LogicalExpr::Aggregate { name, expr } => Ok(expr.field_over(schema)?.with_name(name.clone())),
            LogicalExpr::Alias { expr, alias } => Ok(expr.field_over(schema)?.with_name(alias.clone())),
            LogicalExpr::Cast { expr, data_type } => Ok(expr.field_over(schema)?.with_data_type(data_type.duplicate())),
        }
    }
}

} // verus!
