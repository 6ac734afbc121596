//! The syntax tree of a SQL statement.
use vstd::prelude::*;

verus! {

#[derive(Debug, PartialEq, Eq)]
pub enum SqlExpr {
    Indentifier(SqlIdentifier),
    String(String),
    Long(i64),
    /// A double, held as its shortest decimal text.
    Double(String),
    BinaryExpr { lhs: Box<SqlExpr>, op: String, rhs: Box<SqlExpr> },
    Alias { expr: Box<SqlExpr>, alias: SqlIdentifier },
    Function { id: String, args: Vec<SqlExpr> },
    Cast { expr: Box<SqlExpr>, data_type: SqlIdentifier },
    Sort { expr: Box<SqlExpr>, asc: bool },
    Select(Select),
}

#[derive(Debug, PartialEq, Eq, Clone)]
pub struct SqlIdentifier(pub String);

#[derive(Debug, PartialEq, Eq)]
pub struct Select {
    pub projection: Vec<SqlExpr>,
    pub filter: Option<Box<SqlExpr>>,
    pub group_by: Vec<SqlExpr>,
    pub having: Option<Box<SqlExpr>>,
    pub table_name: SqlIdentifier,
}

pub enum SpecSqlExpr {
    Indentifier(Seq<char>),
    String(Seq<char>),
    Long(i64),
    Double(Seq<char>),
    BinaryExpr { lhs: Box<SpecSqlExpr>, op: Seq<char>, rhs: Box<SpecSqlExpr> },
    Alias { expr: Box<SpecSqlExpr>, alias: Seq<char> },
    Function { id: Seq<char>, args: Seq<SpecSqlExpr> },
    Cast { expr: Box<SpecSqlExpr>, data_type: Seq<char> },
    Sort { expr: Box<SpecSqlExpr>, asc: bool },
    Select(SpecSelect),
}

pub struct SpecSelect {
    pub projection: Seq<SpecSqlExpr>,
    pub filter: Option<Box<SpecSqlExpr>>,
    pub group_by: Seq<SpecSqlExpr>,
    pub having: Option<Box<SpecSqlExpr>>,
    pub table_name: Seq<char>,
}

pub open spec fn sql_view(e: SqlExpr) -> SpecSqlExpr
    decreases e,
{
    match e {
        SqlExpr::Indentifier(id) => SpecSqlExpr::Indentifier(id.0@),
        SqlExpr::String(s) => SpecSqlExpr::String(s@),
        SqlExpr::Long(v) => SpecSqlExpr::Long(v),
        SqlExpr::Double(s) => SpecSqlExpr::Double(s@),
        SqlExpr::BinaryExpr { lhs, op, rhs } => SpecSqlExpr::BinaryExpr {
            lhs: Box::new(sql_view(*lhs)),
            op: op@,
            rhs: Box::new(sql_view(*rhs)),
        },
        SqlExpr::Alias { expr, alias } => SpecSqlExpr::Alias { expr: Box::new(sql_view(*expr)), alias: alias.0@ },
        SqlExpr::Function { id, args } => SpecSqlExpr::Function {
            id: id@,
            args: Seq::new(args@.len(), |i: int| if 0 <= i < args@.len() { sql_view(args@[i]) } else { SpecSqlExpr::Long(0) }),
        },
        SqlExpr::Cast { expr, data_type } => SpecSqlExpr::Cast {
            expr: Box::new(sql_view(*expr)),
            data_type: data_type.0@,
        },
        SqlExpr::Sort { expr, asc } => SpecSqlExpr::Sort { expr: Box::new(sql_view(*expr)), asc: asc },
        SqlExpr::Select(s) => SpecSqlExpr::Select(SpecSelect {
            projection: Seq::new(s.projection@.len(), |i: int| if 0 <= i < s.projection@.len() { sql_view(s.projection@[i]) } else { SpecSqlExpr::Long(0) }),
            filter: match s.filter {
                Some(f) => Some(Box::new(sql_view(*f))),
                None => None,
            },
            group_by: Seq::new(s.group_by@.len(), |i: int| if 0 <= i < s.group_by@.len() { sql_view(s.group_by@[i]) } else { SpecSqlExpr::Long(0) }),
            having: match s.having {
                Some(h) => Some(Box::new(sql_view(*h))),
                None => None,
            },
            table_name: s.table_name.0@,
        }),
    }
}

impl View for SqlExpr {
    type V = SpecSqlExpr;

    open spec fn view(&self) -> SpecSqlExpr {
        sql_view(*self)
    }
}

/// The views of a list of expressions.
pub open spec fn sql_views(v: Seq<SqlExpr>) -> Seq<SpecSqlExpr> {
    Seq::new(v.len(), |i: int| sql_view(v[i]))
}

} // verus!
