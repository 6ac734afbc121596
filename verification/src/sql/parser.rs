//! A Pratt parser from tokens to a [`SqlExpr`].
use vstd::prelude::*;

use crate::error::{Error, SpecError};
use crate::sql::expr::{Select, SpecSelect, SpecSqlExpr, SqlExpr, SqlIdentifier, sql_view, sql_views};
use crate::sql::token::{Keyword, Literal, SpecLiteral, SpecToken, Symbol, Token, symbol_text};
use crate::sql::token_stream::TokenStream;

verus! {

/// The outcome of parsing at an offset: a value and the offset after it, an
/// error and the offset reached, or a construct that the grammar leaves
/// unimplemented.
pub enum Parsed<T> {
    Done(T, int),
    Failed(SpecError, int),
    Panicked,
}

/// The tokens whose binding power is left unimplemented.
pub open spec fn infix_power_panics(t: SpecToken) -> bool {
    match t {
        SpecToken::Keyword(Keyword::Avg) | SpecToken::Keyword(Keyword::OrderBy) => true,
        SpecToken::Literal(_) => true,
        _ => false,
    }
}

/// The binding power of a token in infix position, if it has one.
pub open spec fn spec_infix_power(t: SpecToken) -> Option<u8> {
    match t {
        SpecToken::Keyword(k) => match k {
            Keyword::As | Keyword::And => Some(10u8),
            _ => None,
        },
        SpecToken::Literal(_) => None,
        SpecToken::Symbol(s) => match s {
            Symbol::Plus | Symbol::Minus => Some(50u8),
            Symbol::Multiply | Symbol::Divide => Some(60u8),
            Symbol::Eq => Some(30u8),
            Symbol::Le | Symbol::Ge => Some(40u8),
            Symbol::Comma => Some(0u8),
            Symbol::LParen => Some(70u8),
            Symbol::RParen => None,
        },
    }
}

/// Operators bind in this order, loosest first: the comma; `AS` and `AND`;
/// `=`; `<` and `>`; `+` and `-`; `*` and `/`; a call's `(`.
pub proof fn law_binding_power_order()
    ensures
        ({
            let pw = |s: Symbol| spec_infix_power(SpecToken::Symbol(s))->Some_0;
            let kw = |k: Keyword| spec_infix_power(SpecToken::Keyword(k))->Some_0;
            &&& pw(Symbol::Comma) < kw(Keyword::As)
            &&& kw(Keyword::As) == kw(Keyword::And)
            &&& kw(Keyword::And) < pw(Symbol::Eq)
            &&& pw(Symbol::Eq) < pw(Symbol::Le)
            &&& pw(Symbol::Le) == pw(Symbol::Ge)
            &&& pw(Symbol::Ge) < pw(Symbol::Plus)
            &&& pw(Symbol::Plus) == pw(Symbol::Minus)
            &&& pw(Symbol::Minus) < pw(Symbol::Multiply)
            &&& pw(Symbol::Multiply) == pw(Symbol::Divide)
            &&& pw(Symbol::Divide) < pw(Symbol::LParen)
        }),
{
}

pub open spec fn long_token(v: i64) -> SpecToken {
    SpecToken::Literal(SpecLiteral::Long(v))
}

pub open spec fn binary(lhs: SpecSqlExpr, op: Symbol, rhs: SpecSqlExpr) -> SpecSqlExpr {
    SpecSqlExpr::BinaryExpr { lhs: Box::new(lhs), op: symbol_text(op), rhs: Box::new(rhs) }
}

pub open spec fn is_additive(s: Symbol) -> bool {
    s == Symbol::Plus || s == Symbol::Minus
}

pub open spec fn is_multiplicative(s: Symbol) -> bool {
    s == Symbol::Multiply || s == Symbol::Divide
}

/// `a o1 b o2 c` where `o2` binds tighter than `o1`: the right operation is
/// applied first.
proof fn lemma_right_first(a: i64, o1: Symbol, b: i64, o2: Symbol, c: i64)
    requires
        spec_infix_power(SpecToken::Symbol(o1)) matches Some(p1) && p1 > 0,
        spec_infix_power(SpecToken::Symbol(o2)) matches Some(p2) && p2 > spec_infix_power(SpecToken::Symbol(o1))->Some_0,
        o1 != Symbol::LParen,
        o2 != Symbol::LParen,
    ensures
        spec_parse_expr(seq![long_token(a), SpecToken::Symbol(o1), long_token(b), SpecToken::Symbol(o2), long_token(c)], 0, 0)
            == Parsed::Done(binary(SpecSqlExpr::Long(a), o1, binary(SpecSqlExpr::Long(b), o2, SpecSqlExpr::Long(c))), 5),
{
    let ts = seq![long_token(a), SpecToken::Symbol(o1), long_token(b), SpecToken::Symbol(o2), long_token(c)];
    let p1 = spec_infix_power(SpecToken::Symbol(o1))->Some_0;
    let p2 = spec_infix_power(SpecToken::Symbol(o2))->Some_0;
    let ec = SpecSqlExpr::Long(c);
    let bc = binary(SpecSqlExpr::Long(b), o2, ec);
    let abc = binary(SpecSqlExpr::Long(a), o1, bc);
    assert(spec_parse_loop(ts, 5, ec, p2) == Parsed::Done(ec, 5));
    assert(spec_parse_expr(ts, 4, p2) == Parsed::Done(ec, 5));
    assert(spec_infix(ts, 4, SpecSqlExpr::Long(b), ts[3], p2) == Parsed::Done(bc, 5));
    assert(spec_parse_loop(ts, 5, bc, p1) == Parsed::Done(bc, 5));
    assert(spec_parse_loop(ts, 3, SpecSqlExpr::Long(b), p1) == Parsed::Done(bc, 5));
    assert(spec_parse_expr(ts, 2, p1) == Parsed::Done(bc, 5));
    assert(spec_infix(ts, 2, SpecSqlExpr::Long(a), ts[1], p1) == Parsed::Done(abc, 5));
    assert(spec_parse_loop(ts, 5, abc, 0) == Parsed::Done(abc, 5));
    assert(spec_parse_loop(ts, 1, SpecSqlExpr::Long(a), 0) == Parsed::Done(abc, 5));
}

/// `a o1 b o2 c` where `o1` binds at least as tight as `o2`: the left
/// operation is applied first.
proof fn lemma_left_first(a: i64, o1: Symbol, b: i64, o2: Symbol, c: i64)
    requires
        spec_infix_power(SpecToken::Symbol(o2)) matches Some(p2) && p2 > 0,
        spec_infix_power(SpecToken::Symbol(o1)) matches Some(p1) && p1 >= spec_infix_power(SpecToken::Symbol(o2))->Some_0,
        o1 != Symbol::LParen,
        o2 != Symbol::LParen,
    ensures
        spec_parse_expr(seq![long_token(a), SpecToken::Symbol(o1), long_token(b), SpecToken::Symbol(o2), long_token(c)], 0, 0)
            == Parsed::Done(binary(binary(SpecSqlExpr::Long(a), o1, SpecSqlExpr::Long(b)), o2, SpecSqlExpr::Long(c)), 5),
{
    let ts = seq![long_token(a), SpecToken::Symbol(o1), long_token(b), SpecToken::Symbol(o2), long_token(c)];
    let p1 = spec_infix_power(SpecToken::Symbol(o1))->Some_0;
    let p2 = spec_infix_power(SpecToken::Symbol(o2))->Some_0;
    let eb = SpecSqlExpr::Long(b);
    let ec = SpecSqlExpr::Long(c);
    let ab = binary(SpecSqlExpr::Long(a), o1, eb);
    let abc = binary(ab, o2, ec);
    assert(spec_parse_loop(ts, 3, eb, p1) == Parsed::Done(eb, 3));
    assert(spec_parse_expr(ts, 2, p1) == Parsed::Done(eb, 3));
    assert(spec_infix(ts, 2, SpecSqlExpr::Long(a), ts[1], p1) == Parsed::Done(ab, 3));
    assert(spec_parse_loop(ts, 5, ec, p2) == Parsed::Done(ec, 5));
    assert(spec_parse_expr(ts, 4, p2) == Parsed::Done(ec, 5));
    assert(spec_infix(ts, 4, ab, ts[3], p2) == Parsed::Done(abc, 5));
    assert(spec_parse_loop(ts, 5, abc, 0) == Parsed::Done(abc, 5));
    assert(spec_parse_loop(ts, 3, ab, 0) == Parsed::Done(abc, 5));
    assert(spec_parse_loop(ts, 1, SpecSqlExpr::Long(a), 0) == Parsed::Done(abc, 5));
}

/// `*` and `/` bind tighter than `+` and `-`: `a + b / c` reads as
/// `a + (b / c)` and `a / b + c` as `(a / b) + c`; operators that bind
/// alike apply from the left: `a - b + c` reads as `(a - b) + c` and
/// `a / b * c` as `(a / b) * c`.
pub proof fn law_arithmetic_precedence(a: i64, b: i64, c: i64, add: Symbol, add2: Symbol, mul: Symbol, mul2: Symbol)
    requires
        is_additive(add),
        is_additive(add2),
        is_multiplicative(mul),
        is_multiplicative(mul2),
    ensures
        spec_parse_expr(seq![long_token(a), SpecToken::Symbol(add), long_token(b), SpecToken::Symbol(mul), long_token(c)], 0, 0)
            == Parsed::Done(binary(SpecSqlExpr::Long(a), add, binary(SpecSqlExpr::Long(b), mul, SpecSqlExpr::Long(c))), 5),
        spec_parse_expr(seq![long_token(a), SpecToken::Symbol(mul), long_token(b), SpecToken::Symbol(add), long_token(c)], 0, 0)
            == Parsed::Done(binary(binary(SpecSqlExpr::Long(a), mul, SpecSqlExpr::Long(b)), add, SpecSqlExpr::Long(c)), 5),
        spec_parse_expr(seq![long_token(a), SpecToken::Symbol(add), long_token(b), SpecToken::Symbol(add2), long_token(c)], 0, 0)
            == Parsed::Done(binary(binary(SpecSqlExpr::Long(a), add, SpecSqlExpr::Long(b)), add2, SpecSqlExpr::Long(c)), 5),
        spec_parse_expr(seq![long_token(a), SpecToken::Symbol(mul), long_token(b), SpecToken::Symbol(mul2), long_token(c)], 0, 0)
            == Parsed::Done(binary(binary(SpecSqlExpr::Long(a), mul, SpecSqlExpr::Long(b)), mul2, SpecSqlExpr::Long(c)), 5),
{
    lemma_right_first(a, add, b, mul, c);
    lemma_left_first(a, mul, b, add, c);
    lemma_left_first(a, add, b, add2, c);
    lemma_left_first(a, mul, b, mul2, c);
}

/// The binding power of a token in infix position, if it has one.
pub fn infix_power(token: &Token) -> (r: Option<u8>)
    requires
        !infix_power_panics(token@),
    ensures
        r == spec_infix_power(token@),
{
    match token {
        Token::Keyword(keyword) => match keyword {
            Keyword::As => Some(10),
            Keyword::And => Some(10),
            _ => None,
        },
        Token::Literal(_) => None,
        Token::Symbol(symbol) => match symbol {
            Symbol::Plus => Some(50),
            Symbol::Minus => Some(50),
            Symbol::Multiply => Some(60),
            Symbol::Divide => Some(60),
            Symbol::Eq => Some(30),
            Symbol::Le => Some(40),
            Symbol::Ge => Some(40),
            Symbol::Comma => Some(0),
            Symbol::LParen => Some(70),
            Symbol::RParen => None,
        },
    }
}

/// An expression whose binding power must exceed `mp`, at offset `p`.
pub open spec fn spec_parse_expr(ts: Seq<SpecToken>, p: int, mp: u8) -> Parsed<SpecSqlExpr>
    decreases ts.len() - p, 3int,
{
    if p < 0 || p >= ts.len() {
        Parsed::Failed(SpecError::NoRemainingTokens, p)
    } else {
        match spec_prefix(ts, p + 1, ts[p]) {
            Parsed::Panicked => Parsed::Panicked,
            Parsed::Failed(e, q) => Parsed::Failed(e, q),
            Parsed::Done(lhs, q) => if p < q <= ts.len() {
                spec_parse_loop(ts, q, lhs, mp)
            } else {
                Parsed::Panicked
            },
        }
    }
}

/// What follows the prefix token `tok`, read up to offset `p`.
pub open spec fn spec_prefix(ts: Seq<SpecToken>, p: int, tok: SpecToken) -> Parsed<SpecSqlExpr>
    decreases ts.len() - p, 7int,
{
    match tok {
        SpecToken::Keyword(Keyword::Select) => spec_select(ts, p),
        SpecToken::Keyword(Keyword::Cast) => spec_cast(ts, p),
        SpecToken::Keyword(Keyword::Avg) => Parsed::Done(SpecSqlExpr::Indentifier("AVG"@), p),
        SpecToken::Keyword(_) => Parsed::Panicked,
        SpecToken::Literal(l) => Parsed::Done(
            match l {
                SpecLiteral::Long(v) => SpecSqlExpr::Long(v),
                SpecLiteral::Double(v) => SpecSqlExpr::Double(v),
                SpecLiteral::String(v) => SpecSqlExpr::String(v),
                SpecLiteral::Identifier(v) => SpecSqlExpr::Indentifier(v),
            },
            p,
        ),
        SpecToken::Symbol(_) => Parsed::Panicked,
    }
}

/// The infix operators that bind tighter than `mp`, applied from offset `p`.
pub open spec fn spec_parse_loop(ts: Seq<SpecToken>, p: int, lhs: SpecSqlExpr, mp: u8) -> Parsed<SpecSqlExpr>
    decreases ts.len() - p, 2int,
{
    if p < 0 || p >= ts.len() {
        Parsed::Done(lhs, p)
    } else if infix_power_panics(ts[p]) {
        Parsed::Panicked
    } else {
        match spec_infix_power(ts[p]) {
            None => Parsed::Done(lhs, p),
            Some(bp) => if bp <= mp {
                Parsed::Done(lhs, p)
            } else {
                match spec_infix(ts, p + 1, lhs, ts[p], bp) {
                    Parsed::Panicked => Parsed::Panicked,
                    Parsed::Failed(e, q) => Parsed::Failed(e, q),
                    Parsed::Done(e2, q) => if p < q <= ts.len() {
                        spec_parse_loop(ts, q, e2, mp)
                    } else {
                        Parsed::Panicked
                    },
                }
            },
        }
    }
}

/// The right side of the infix operator `op`, read from offset `p`.
pub open spec fn spec_infix(ts: Seq<SpecToken>, p: int, lhs: SpecSqlExpr, op: SpecToken, bp: u8) -> Parsed<SpecSqlExpr>
    decreases ts.len() - p, 6int,
{
    match op {
        SpecToken::Keyword(Keyword::As) => match spec_parse_expr(ts, p, bp) {
            Parsed::Panicked => Parsed::Panicked,
            Parsed::Failed(e, q) => Parsed::Failed(e, q),
            Parsed::Done(rhs, q) => match rhs {
                SpecSqlExpr::Indentifier(alias) => Parsed::Done(SpecSqlExpr::Alias { expr: Box::new(lhs), alias }, q),
                _ => Parsed::Failed(SpecError::ExpectedAliasIdentifier, q),
            },
        },
        SpecToken::Keyword(Keyword::And) => match spec_parse_expr(ts, p, bp) {
            Parsed::Panicked => Parsed::Panicked,
            Parsed::Failed(e, q) => Parsed::Failed(e, q),
            Parsed::Done(rhs, q) => Parsed::Done(
                SpecSqlExpr::BinaryExpr { lhs: Box::new(lhs), op: "AND"@, rhs: Box::new(rhs) },
                q,
            ),
        },
        SpecToken::Keyword(_) => Parsed::Panicked,
        SpecToken::Literal(_) => Parsed::Panicked,
        SpecToken::Symbol(Symbol::LParen) => match lhs {
            SpecSqlExpr::Indentifier(id) => match spec_expr_list(ts, p) {
                Parsed::Panicked => Parsed::Panicked,
                Parsed::Failed(e, q) => Parsed::Failed(e, q),
                Parsed::Done(args, q) => if q < 0 || q >= ts.len() {
                    Parsed::Failed(SpecError::NoRemainingTokens, q)
                } else if ts[q] != SpecToken::Symbol(Symbol::RParen) {
                    Parsed::Failed(
                        SpecError::UnexpectedToken { expected: SpecToken::Symbol(Symbol::RParen), found: ts[q] },
                        q + 1,
                    )
                } else {
                    Parsed::Done(SpecSqlExpr::Function { id, args }, q + 1)
                },
            },
            _ => Parsed::Failed(SpecError::ExpectedFunction, p),
        },
        SpecToken::Symbol(s) => match spec_parse_expr(ts, p, bp) {
            Parsed::Panicked => Parsed::Panicked,
            Parsed::Failed(e, q) => Parsed::Failed(e, q),
            Parsed::Done(rhs, q) => Parsed::Done(
                SpecSqlExpr::BinaryExpr { lhs: Box::new(lhs), op: symbol_text(s), rhs: Box::new(rhs) },
                q,
            ),
        },
    }
}

/// A comma separated list of expressions from offset `p`; it ends at the
/// first expression that does not parse, after the tokens that attempt read.
pub open spec fn spec_expr_list(ts: Seq<SpecToken>, p: int) -> Parsed<Seq<SpecSqlExpr>>
    decreases ts.len() - p, 5int,
{
    spec_list_loop(ts, p, Seq::empty())
}

pub open spec fn spec_list_loop(ts: Seq<SpecToken>, p: int, acc: Seq<SpecSqlExpr>) -> Parsed<Seq<SpecSqlExpr>>
    decreases ts.len() - p, 4int,
{
    match spec_parse_expr(ts, p, 0) {
        Parsed::Panicked => Parsed::Panicked,
        Parsed::Failed(_, q) => Parsed::Done(acc, q),
        Parsed::Done(e, q) => if p < q <= ts.len() {
            if q < ts.len() && ts[q] == SpecToken::Symbol(Symbol::Comma) {
                spec_list_loop(ts, q + 1, acc.push(e))
            } else {
                Parsed::Done(acc.push(e), q)
            }
        } else {
            Parsed::Panicked
        },
    }
}

/// A `SELECT` statement after the `SELECT` keyword.
pub open spec fn spec_select(ts: Seq<SpecToken>, p: int) -> Parsed<SpecSqlExpr>
    decreases ts.len() - p, 6int,
{
    match spec_expr_list(ts, p) {
        Parsed::Panicked => Parsed::Panicked,
        Parsed::Failed(e, q) => Parsed::Failed(e, q),
        Parsed::Done(exprs, q) => if !(p <= q <= ts.len()) {
            Parsed::Panicked
        } else if q >= ts.len() {
            Parsed::Failed(SpecError::NoRemainingTokens, q)
        } else if ts[q] != SpecToken::Keyword(Keyword::From) {
            Parsed::Failed(SpecError::UnexpectedToken { expected: SpecToken::Keyword(Keyword::From), found: ts[q] }, q + 1)
        } else {
            spec_select_from(ts, q + 1, exprs)
        },
    }
}

/// The table name after `FROM`, then the optional clauses.
pub open spec fn spec_select_from(ts: Seq<SpecToken>, p: int, exprs: Seq<SpecSqlExpr>) -> Parsed<SpecSqlExpr>
    decreases ts.len() - p, 1int,
{
    if p < 0 || p >= ts.len() {
        Parsed::Failed(SpecError::ExpectedTableName, p)
    } else {
        match ts[p] {
            SpecToken::Literal(SpecLiteral::Identifier(table)) => spec_select_where(ts, p + 1, exprs, table),
            _ => Parsed::Failed(SpecError::ExpectedTableName, p + 1),
        }
    }
}

pub open spec fn spec_select_where(ts: Seq<SpecToken>, p: int, exprs: Seq<SpecSqlExpr>, table: Seq<char>) -> Parsed<SpecSqlExpr>
    decreases ts.len() - p, 3int,
{
    if 0 <= p < ts.len() && ts[p] == SpecToken::Keyword(Keyword::Where) {
        match spec_parse_expr(ts, p + 1, 0) {
            Parsed::Panicked => Parsed::Panicked,
            Parsed::Failed(e, q) => Parsed::Failed(e, q),
            Parsed::Done(f, q) => if p < q <= ts.len() {
                spec_select_group(ts, q, exprs, table, Some(Box::new(f)))
            } else {
                Parsed::Panicked
            },
        }
    } else {
        spec_select_group(ts, p, exprs, table, None)
    }
}

pub open spec fn spec_select_group(
    ts: Seq<SpecToken>,
    p: int,
    exprs: Seq<SpecSqlExpr>,
    table: Seq<char>,
    filter: Option<Box<SpecSqlExpr>>,
) -> Parsed<SpecSqlExpr>
    decreases ts.len() - p, 2int,
{
    if 0 <= p < ts.len() && ts[p] == SpecToken::Keyword(Keyword::GroupBy) {
        match spec_expr_list(ts, p + 1) {
            Parsed::Panicked => Parsed::Panicked,
            Parsed::Failed(e, q) => Parsed::Failed(e, q),
            Parsed::Done(g, q) => if p < q <= ts.len() {
                spec_select_having(ts, q, exprs, table, filter, g)
            } else {
                Parsed::Panicked
            },
        }
    } else {
        spec_select_having(ts, p, exprs, table, filter, Seq::empty())
    }
}

pub open spec fn spec_select_having(
    ts: Seq<SpecToken>,
    p: int,
    exprs: Seq<SpecSqlExpr>,
    table: Seq<char>,
    filter: Option<Box<SpecSqlExpr>>,
    group_by: Seq<SpecSqlExpr>,
) -> Parsed<SpecSqlExpr>
    decreases ts.len() - p, 1int,
{
    if 0 <= p < ts.len() && ts[p] == SpecToken::Keyword(Keyword::Having) {
        match spec_parse_expr(ts, p + 1, 0) {
            Parsed::Panicked => Parsed::Panicked,
            Parsed::Failed(e, q) => Parsed::Failed(e, q),
            Parsed::Done(h, q) => Parsed::Done(
                SpecSqlExpr::Select(SpecSelect {
                    projection: exprs,
                    filter,
                    group_by,
                    having: Some(Box::new(h)),
                    table_name: table,
                }),
                q,
            ),
        }
    } else {
        Parsed::Done(
            SpecSqlExpr::Select(SpecSelect { projection: exprs, filter, group_by, having: None, table_name: table }),
            p,
        )
    }
}

/// `CAST ( expr AS type )` after the `CAST` keyword.
pub open spec fn spec_cast(ts: Seq<SpecToken>, p: int) -> Parsed<SpecSqlExpr>
    decreases ts.len() - p, 6int,
{
    if p < 0 || p >= ts.len() {
        Parsed::Failed(SpecError::NoRemainingTokens, p)
    } else if ts[p] != SpecToken::Symbol(Symbol::LParen) {
        Parsed::Failed(SpecError::UnexpectedToken { expected: SpecToken::Symbol(Symbol::LParen), found: ts[p] }, p + 1)
    } else {
        match spec_parse_expr(ts, p + 1, 0) {
            Parsed::Panicked => Parsed::Panicked,
            Parsed::Failed(e, q) => Parsed::Failed(e, q),
            Parsed::Done(e, q) => if q < 0 || q >= ts.len() {
                Parsed::Failed(SpecError::NoRemainingTokens, q)
            } else if ts[q] != SpecToken::Symbol(Symbol::RParen) {
                Parsed::Failed(
                    SpecError::UnexpectedToken { expected: SpecToken::Symbol(Symbol::RParen), found: ts[q] },
                    q + 1,
                )
            } else {
                match e {
                    SpecSqlExpr::Alias { expr, alias } => Parsed::Done(SpecSqlExpr::Cast { expr, data_type: alias }, q + 1),
                    _ => Parsed::Failed(SpecError::CastWithoutType, q + 1),
                }
            },
        }
    }
}

/// The statement or expression that the tokens from offset `p` on read as.
pub open spec fn spec_parse(ts: Seq<SpecToken>, p: int) -> Parsed<SpecSqlExpr> {
    spec_parse_expr(ts, p, 0)
}

} // verus!

verus! {

/// What a parse result says, at the offset the stream reached.
pub open spec fn outcome(r: Result<SqlExpr, Error>, q: int) -> Parsed<SpecSqlExpr> {
    match r {
        Ok(e) => Parsed::Done(e@, q),
        Err(e) => if e is Unsupported {
            Parsed::Panicked
        } else {
            Parsed::Failed(e@, q)
        },
    }
}

pub open spec fn list_outcome(r: Result<Vec<SqlExpr>, Error>, q: int) -> Parsed<Seq<SpecSqlExpr>> {
    match r {
        Ok(v) => Parsed::Done(sql_views(v@), q),
        Err(e) => if e is Unsupported {
            Parsed::Panicked
        } else {
            Parsed::Failed(e@, q)
        },
    }
}

pub open spec fn opt_view(f: Option<Box<SqlExpr>>) -> Option<Box<SpecSqlExpr>> {
    match f {
        Some(e) => Some(Box::new(sql_view(*e))),
        None => None,
    }
}

pub proof fn lemma_function_view(id: String, args: Vec<SqlExpr>)
    ensures
        sql_view((SqlExpr::Function { id, args })) == (SpecSqlExpr::Function { id: id@, args: sql_views(args@) }),
{
    assert(sql_view(SqlExpr::Function { id, args })->args =~= sql_views(args@));
}

pub proof fn lemma_select_view(s: Select)
    ensures
        sql_view(SqlExpr::Select(s)) == SpecSqlExpr::Select((SpecSelect {
            projection: sql_views(s.projection@),
            filter: match s.filter {
                Some(f) => Some(Box::new(sql_view(*f))),
                None => None,
            },
            group_by: sql_views(s.group_by@),
            having: match s.having {
                Some(h) => Some(Box::new(sql_view(*h))),
                None => None,
            },
            table_name: s.table_name.0@,
        })),
{
    let v = sql_view(SqlExpr::Select(s));
    assert(v->Select_0.projection =~= sql_views(s.projection@));
    assert(v->Select_0.group_by =~= sql_views(s.group_by@));
}

fn infix_panics(token: &Token) -> (r: bool)
    ensures
        r == infix_power_panics(token@),
{
    match token {
        Token::Keyword(Keyword::Avg) => true,
        Token::Keyword(Keyword::OrderBy) => true,
        Token::Literal(_) => true,
        _ => false,
    }
}

/// Parses a token stream into a [`SqlExpr`].
pub struct Parser {
    stream: TokenStream,
}

impl Parser {
    /// The tokens being parsed.
    pub closed spec fn tokens(&self) -> Seq<SpecToken> {
        self.stream.tokens()
    }

    /// How many tokens have been read.
    pub closed spec fn position(&self) -> int {
        self.stream.position()
    }

    pub fn new(stream: TokenStream) -> (p: Parser)
        ensures
            p.tokens() == stream.tokens(),
            p.position() == stream.position(),
    {
        Parser { stream }
    }

    fn prefix(&mut self) -> (r: Result<SqlExpr, Error>)
        ensures
            final(self).tokens() == old(self).tokens(),
            old(self).position() <= final(self).position() <= final(self).tokens().len(),
            r is Ok ==> final(self).position() > old(self).position(),
            outcome(r, final(self).position()) == (if old(self).position() >= old(self).tokens().len() {
                Parsed::Failed(SpecError::NoRemainingTokens, old(self).position())
            } else {
                spec_prefix(old(self).tokens(), old(self).position() + 1, old(self).tokens()[old(self).position()])
            }),
        decreases old(self).tokens().len() - old(self).position(), 2int,
    {
        proof {
            use_type_invariant(&self.stream);
            self.stream.lemma_position_in_range();
        }
        let token = self.stream.next_token()?;
        match token {
            Token::Keyword(keyword) => match keyword {
                Keyword::Select => self.select(),
                Keyword::Cast => self.cast(),
                Keyword::Avg => Ok(SqlExpr::Indentifier(SqlIdentifier(Keyword::Avg.to_string()))),
                _ => Err(Error::Unsupported),
            },
            Token::Literal(literal) => Ok(match literal {
                Literal::Long(v) => SqlExpr::Long(v),
                Literal::Double(v) => SqlExpr::Double(v),
                Literal::String(v) => SqlExpr::String(v),
                Literal::Identifier(ident) => SqlExpr::Indentifier(SqlIdentifier(ident)),
            }),
            Token::Symbol(_) => Err(Error::Unsupported),
        }
    }

    fn infix(&mut self, lhs: SqlExpr, bp: u8) -> (r: Result<SqlExpr, Error>)
        requires
            old(self).position() < old(self).tokens().len(),
        ensures
            final(self).tokens() == old(self).tokens(),
            old(self).position() < final(self).position() <= final(self).tokens().len(),
            outcome(r, final(self).position()) == spec_infix(
                old(self).tokens(),
                old(self).position() + 1,
                lhs@,
                old(self).tokens()[old(self).position()],
                bp,
            ),
        decreases old(self).tokens().len() - old(self).position(), 1int,
    {
        proof {
            use_type_invariant(&self.stream);
            self.stream.lemma_position_in_range();
        }
        let op = self.stream.next_token()?;
        match op {
            Token::Keyword(keyword) => match keyword {
                Keyword::As => match self.parse_expr(bp)? {
                    SqlExpr::Indentifier(alias) => Ok(SqlExpr::Alias { expr: Box::new(lhs), alias }),
                    _ => Err(Error::ExpectedAliasIdentifier),
                },
                Keyword::And => {
                    let rhs = self.parse_expr(bp)?;
                    Ok(SqlExpr::BinaryExpr { lhs: Box::new(lhs), op: Keyword::And.to_string(), rhs: Box::new(rhs) })
                },
                _ => Err(Error::Unsupported),
            },
            Token::Literal(_) => Err(Error::Unsupported),
            Token::Symbol(symbol) => match symbol {
                Symbol::LParen => match lhs {
                    SqlExpr::Indentifier(SqlIdentifier(id)) => {
                        let exprs = self.expr_list()?;
                        self.stream.expect(Token::Symbol(Symbol::RParen))?;
                        proof {
                            lemma_function_view(id, exprs);
                        }
                        Ok(SqlExpr::Function { id, args: exprs })
                    },
                    _ => Err(Error::ExpectedFunction),
                },
                _ => {
                    let rhs = self.parse_expr(bp)?;
                    Ok(SqlExpr::BinaryExpr { lhs: Box::new(lhs), op: symbol.to_string(), rhs: Box::new(rhs) })
                },
            },
        }
    }

    fn parse_expr(&mut self, min_power: u8) -> (r: Result<SqlExpr, Error>)
        ensures
            final(self).tokens() == old(self).tokens(),
            old(self).position() <= final(self).position() <= final(self).tokens().len(),
            r is Ok ==> final(self).position() > old(self).position(),
            outcome(r, final(self).position()) == spec_parse_expr(old(self).tokens(), old(self).position(), min_power),
        decreases old(self).tokens().len() - old(self).position(), 3int,
    {
        let ghost ts = self.tokens();
        let ghost p0 = self.position();
        proof {
            use_type_invariant(&self.stream);
            self.stream.lemma_position_in_range();
        }
        let mut lhs = self.prefix()?;
        loop
            invariant
                self.tokens() == ts,
                ts == old(self).tokens(),
                p0 == old(self).position(),
                p0 < self.position() <= ts.len(),
                spec_parse_expr(ts, p0, min_power) == spec_parse_loop(ts, self.position(), lhs@, min_power),
            ensures
                self.tokens() == ts,
                p0 < self.position() <= ts.len(),
                spec_parse_expr(ts, p0, min_power) == Parsed::Done(lhs@, self.position()),
            decreases ts.len() - self.position(),
        {
            let op = match self.stream.peek_token() {
                Ok(op) => op,
                Err(_) => break,
            };
            if infix_panics(&op) {
                return Err(Error::Unsupported);
            }
            let bp = match infix_power(&op) {
                Some(bp) => bp,
                None => break,
            };
            if bp <= min_power {
                break;
            }
            lhs = self.infix(lhs, bp)?;
        }
        Ok(lhs)
    }

    /// Parses the statement or expression at the read position.  The result
    /// is `Err(Error::Unsupported)` exactly where the grammar reaches a
    /// construct it leaves unimplemented.
    pub fn parse(&mut self) -> (r: Result<SqlExpr, Error>)
        ensures
            final(self).tokens() == old(self).tokens(),
            old(self).position() <= final(self).position() <= final(self).tokens().len(),
            r is Ok ==> final(self).position() > old(self).position(),
            outcome(r, final(self).position()) == spec_parse(old(self).tokens(), old(self).position()),
        decreases old(self).tokens().len() - old(self).position(), 4int,
    {
        self.parse_expr(0)
    }

    fn select(&mut self) -> (r: Result<SqlExpr, Error>)
        ensures
            final(self).tokens() == old(self).tokens(),
            old(self).position() <= final(self).position() <= final(self).tokens().len(),
            r is Ok ==> final(self).position() > old(self).position(),
            outcome(r, final(self).position()) == spec_select(old(self).tokens(), old(self).position()),
        decreases old(self).tokens().len() - old(self).position(), 6int,
    {
        proof {
            use_type_invariant(&self.stream);
            self.stream.lemma_position_in_range();
        }
        let exprs = self.expr_list()?;
        self.stream.expect(Token::Keyword(Keyword::From))?;
        self.select_from(exprs)
    }

    /// The table name after `FROM`, then the optional clauses.
    fn select_from(&mut self, exprs: Vec<SqlExpr>) -> (r: Result<SqlExpr, Error>)
        ensures
            final(self).tokens() == old(self).tokens(),
            old(self).position() <= final(self).position() <= final(self).tokens().len(),
            r is Ok ==> final(self).position() > old(self).position(),
            outcome(r, final(self).position()) == spec_select_from(old(self).tokens(), old(self).position(), sql_views(exprs@)),
        decreases old(self).tokens().len() - old(self).position(), 1int,
    {
        proof {
            use_type_invariant(&self.stream);
            self.stream.lemma_position_in_range();
        }
        let table = match self.stream.next_token() {
            Ok(Token::Literal(Literal::Identifier(table))) => table,
            _ => return Err(Error::ExpectedTableName),
        };
        self.select_where(exprs, table)
    }

    fn select_where(&mut self, exprs: Vec<SqlExpr>, table: String) -> (r: Result<SqlExpr, Error>)
        ensures
            final(self).tokens() == old(self).tokens(),
            old(self).position() <= final(self).position() <= final(self).tokens().len(),
            outcome(r, final(self).position()) == spec_select_where(old(self).tokens(), old(self).position(), sql_views(exprs@), table@),
        decreases old(self).tokens().len() - old(self).position(), 3int,
    {
        proof {
            use_type_invariant(&self.stream);
            self.stream.lemma_position_in_range();
        }
        if self.stream.consume(&Token::Keyword(Keyword::Where)) {
            let expr = self.parse()?;
            self.select_group(exprs, table, Some(Box::new(expr)))
        } else {
            self.select_group(exprs, table, None)
        }
    }

    fn select_group(&mut self, exprs: Vec<SqlExpr>, table: String, filter: Option<Box<SqlExpr>>) -> (r: Result<SqlExpr, Error>)
        ensures
            final(self).tokens() == old(self).tokens(),
            old(self).position() <= final(self).position() <= final(self).tokens().len(),
            outcome(r, final(self).position()) == spec_select_group(
                old(self).tokens(),
                old(self).position(),
                sql_views(exprs@),
                table@,
                opt_view(filter),
            ),
        decreases old(self).tokens().len() - old(self).position(), 2int,
    {
        proof {
            use_type_invariant(&self.stream);
            self.stream.lemma_position_in_range();
        }
        if self.stream.consume(&Token::Keyword(Keyword::GroupBy)) {
            let group_by = self.expr_list()?;
            self.select_having(exprs, table, filter, group_by)
        } else {
            let group_by: Vec<SqlExpr> = Vec::new();
            assert(sql_views(group_by@) =~= Seq::<SpecSqlExpr>::empty());
            self.select_having(exprs, table, filter, group_by)
        }
    }

    fn select_having(
        &mut self,
        exprs: Vec<SqlExpr>,
        table: String,
        filter: Option<Box<SqlExpr>>,
        group_by: Vec<SqlExpr>,
    ) -> (r: Result<SqlExpr, Error>)
        ensures
            final(self).tokens() == old(self).tokens(),
            old(self).position() <= final(self).position() <= final(self).tokens().len(),
            outcome(r, final(self).position()) == spec_select_having(
                old(self).tokens(),
                old(self).position(),
                sql_views(exprs@),
                table@,
                opt_view(filter),
                sql_views(group_by@),
            ),
        decreases old(self).tokens().len() - old(self).position(), 1int,
    {
        proof {
            use_type_invariant(&self.stream);
            self.stream.lemma_position_in_range();
        }
        let having = if self.stream.consume(&Token::Keyword(Keyword::Having)) {
            let expr = self.parse()?;
            Some(Box::new(expr))
        } else {
            None
        };
        let select = Select { projection: exprs, filter, group_by, having, table_name: SqlIdentifier(table) };
        proof {
            lemma_select_view(select);
        }
        Ok(SqlExpr::Select(select))
    }

    fn cast(&mut self) -> (r: Result<SqlExpr, Error>)
        ensures
            final(self).tokens() == old(self).tokens(),
            old(self).position() <= final(self).position() <= final(self).tokens().len(),
            r is Ok ==> final(self).position() > old(self).position(),
            outcome(r, final(self).position()) == spec_cast(old(self).tokens(), old(self).position()),
        decreases old(self).tokens().len() - old(self).position(), 1int,
    {
        let ghost ts = self.tokens();
        let ghost p0 = self.position();
        proof {
            use_type_invariant(&self.stream);
            self.stream.lemma_position_in_range();
        }
        match self.stream.expect(Token::Symbol(Symbol::LParen)) {
            Ok(()) => {},
            Err(e) => {
                assert(outcome(Err(e), self.position()) == spec_cast(ts, p0));
                return Err(e);
            },
        }
        let expr = self.parse()?;
        self.stream.expect(Token::Symbol(Symbol::RParen))?;
        match expr {
            SqlExpr::Alias { expr, alias } => Ok(SqlExpr::Cast { expr, data_type: alias }),
            _ => Err(Error::CastWithoutType),
        }
    }

    fn expr_list(&mut self) -> (r: Result<Vec<SqlExpr>, Error>)
        ensures
            final(self).tokens() == old(self).tokens(),
            old(self).position() <= final(self).position() <= final(self).tokens().len(),
            list_outcome(r, final(self).position()) == spec_expr_list(old(self).tokens(), old(self).position()),
        decreases old(self).tokens().len() - old(self).position(), 5int,
    {
        let ghost ts = self.tokens();
        let ghost p0 = self.position();
        proof {
            use_type_invariant(&self.stream);
            self.stream.lemma_position_in_range();
        }
        let mut exprs: Vec<SqlExpr> = Vec::new();
        assert(sql_views(exprs@) =~= Seq::<SpecSqlExpr>::empty());
        loop
            invariant
                self.tokens() == ts,
                ts == old(self).tokens(),
                p0 == old(self).position(),
                p0 <= self.position() <= ts.len(),
                spec_expr_list(ts, p0) == spec_list_loop(ts, self.position(), sql_views(exprs@)),
            decreases ts.len() - self.position(),
        {
            let ghost p = self.position();
            match self.parse() {
                Ok(expr) => {
                    let ghost prev = exprs@;
                    let ghost ev = expr@;
                    exprs.push(expr);
                    assert(sql_views(exprs@) =~= sql_views(prev).push(ev));
                    match self.stream.peek_token() {
                        Ok(Token::Symbol(Symbol::Comma)) => {
                            let _ = self.stream.next_token();
                        },
                        _ => {
                            return Ok(exprs);
                        },
                    }
                },
                Err(Error::Unsupported) => {
                    return Err(Error::Unsupported);
                },
                Err(_) => {
                    return Ok(exprs);
                },
            }
        }
    }
}

} // verus!
