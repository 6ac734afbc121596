//! Logical plans: their output schema, their children and their text.
pub mod expr;

use vstd::prelude::*;

use std::sync::Arc;

use crate::data_source::{DataSource, SpecDataSource, source_schema};
use crate::error::{Error, SpecError, result_view};
use crate::logical_plan::expr::{LogicalExpr, SpecLogicalExpr, expr_text, expr_view, exprs_view, field_of, share_all};
use crate::schema::{Field, Schema, SpecField, fields_view, index_of_name, spec_project};
use crate::utils::{copy_strings, field_ids_by_names, spec_field_ids, strings_view};

verus! {

#[derive(Debug)]
pub enum LogicalPlan {
    Scan(Scan),
    Selection(Selection),
    Projection(Projection),
    Aggregate(Aggregate),
    Join(Join),
}

#[derive(Debug)]
pub struct Scan {
    pub path: String,
    pub data_source: DataSource,
    pub projection: Vec<String>,
}

#[derive(Debug)]
pub struct Selection {
    pub input: Box<LogicalPlan>,
    pub expr: Arc<LogicalExpr>,
}

#[derive(Debug)]
pub struct Projection {
    pub input: Box<LogicalPlan>,
    pub expr: Vec<Arc<LogicalExpr>>,
}

#[derive(Debug)]
pub struct Aggregate {
    pub input: Box<LogicalPlan>,
    pub group_expr: Vec<Arc<LogicalExpr>>,
    pub aggregate_expr: Vec<Arc<LogicalExpr>>,
}

#[derive(Debug)]
pub struct Join {
    pub left: Box<LogicalPlan>,
    pub right: Box<LogicalPlan>,
    pub join_type: JoinType,
    pub on: Vec<(String, String)>,
}

#[derive(Debug, Clone, Copy, PartialEq, Eq, Structural)]
pub enum JoinType {
    Inner,
    Left,
    Right,
}

pub enum SpecLogicalPlan {
    Scan { path: Seq<char>, source: SpecDataSource, projection: Seq<Seq<char>> },
    Selection { input: Box<SpecLogicalPlan>, expr: SpecLogicalExpr },
    Projection { input: Box<SpecLogicalPlan>, exprs: Seq<SpecLogicalExpr> },
    Aggregate { input: Box<SpecLogicalPlan>, group_expr: Seq<SpecLogicalExpr>, aggregate_expr: Seq<SpecLogicalExpr> },
    Join { left: Box<SpecLogicalPlan>, right: Box<SpecLogicalPlan>, join_type: JoinType, on: Seq<(Seq<char>, Seq<char>)> },
}

pub open spec fn pairs_view(v: Seq<(String, String)>) -> Seq<(Seq<char>, Seq<char>)> {
    v.map_values(|p: (String, String)| (p.0@, p.1@))
}

pub open spec fn plan_view(p: LogicalPlan) -> SpecLogicalPlan
    decreases p,
{
    match p {
        LogicalPlan::Scan(s) => SpecLogicalPlan::Scan {
            path: s.path@,
            source: s.data_source@,
            projection: strings_view(s.projection@),
        },
        LogicalPlan::Selection(s) => SpecLogicalPlan::Selection { input: Box::new(plan_view(*s.input)), expr: expr_view(*s.expr) },
        LogicalPlan::Projection(s) => SpecLogicalPlan::Projection { input: Box::new(plan_view(*s.input)), exprs: exprs_view(s.expr@) },
        LogicalPlan::Aggregate(s) => SpecLogicalPlan::Aggregate {
            input: Box::new(plan_view(*s.input)),
            group_expr: exprs_view(s.group_expr@),
            aggregate_expr: exprs_view(s.aggregate_expr@),
        },
        LogicalPlan::Join(s) => SpecLogicalPlan::Join {
            left: Box::new(plan_view(*s.left)),
            right: Box::new(plan_view(*s.right)),
            join_type: s.join_type,
            on: pairs_view(s.on@),
        },
    }
}

impl View for LogicalPlan {
    type V = SpecLogicalPlan;

    open spec fn view(&self) -> SpecLogicalPlan {
        plan_view(*self)
    }
}

/// The fields of a list of expressions over a schema; the first error wins.
pub open spec fn fields_of(es: Seq<SpecLogicalExpr>, s: Seq<SpecField>) -> Result<Seq<SpecField>, SpecError>
    decreases es.len(),
{
    if es.len() == 0 {
        Ok(Seq::empty())
    } else {
        match fields_of(es.drop_last(), s) {
            Err(e) => Err(e),
            Ok(fs) => match field_of(es.last(), s) {
                Err(e) => Err(e),
                Ok(f) => Ok(fs.push(f)),
            },
        }
    }
}

/// The fields of `b` whose names no field of `a` has, in order.
pub open spec fn new_fields(a: Seq<SpecField>, b: Seq<SpecField>) -> Seq<SpecField>
    decreases b.len(),
{
    if b.len() == 0 {
        Seq::empty()
    } else if index_of_name(a, b.last().name) is None {
        new_fields(a, b.drop_last()).push(b.last())
    } else {
        new_fields(a, b.drop_last())
    }
}

/// The fields of a join: those of the outer side, then those of the other
/// side that the outer side has no name for.
pub open spec fn join_fields(l: Seq<SpecField>, r: Seq<SpecField>, jt: JoinType) -> Seq<SpecField> {
    if jt == JoinType::Right {
        r + new_fields(r, l)
    } else {
        l + new_fields(l, r)
    }
}

/// The output schema of a plan.
pub open spec fn plan_schema(p: SpecLogicalPlan) -> Result<Seq<SpecField>, SpecError>
    decreases p,
{
    match p {
        SpecLogicalPlan::Scan { source, projection, .. } => match source_schema(source) {
            Err(e) => Err(e),
            Ok(s) => if projection.len() == 0 {
                Ok(s)
            } else {
                match spec_field_ids(s, projection) {
                    Err(e) => Err(e),
                    Ok(ids) => spec_project(s, ids),
                }
            },
        },
        SpecLogicalPlan::Selection { input, .. } => plan_schema(*input),
        SpecLogicalPlan::Projection { input, exprs } => if exprs.len() == 0 {
            Ok(Seq::empty())
        } else {
            match plan_schema(*input) {
                Err(e) => Err(e),
                Ok(s) => fields_of(exprs, s),
            }
        },
        SpecLogicalPlan::Aggregate { input, group_expr, aggregate_expr } => if group_expr.len() + aggregate_expr.len() == 0 {
            Ok(Seq::empty())
        } else {
            match plan_schema(*input) {
                Err(e) => Err(e),
                Ok(s) => match fields_of(group_expr, s) {
                    Err(e) => Err(e),
                    Ok(g) => match fields_of(aggregate_expr, s) {
                        Err(e) => Err(e),
                        Ok(a) => Ok(g + a),
                    },
                },
            }
        },
        SpecLogicalPlan::Join { left, right, join_type, .. } => match plan_schema(*left) {
            Err(e) => Err(e),
            Ok(l) => match plan_schema(*right) {
                Err(e) => Err(e),
                Ok(r) => Ok(join_fields(l, r, join_type)),
            },
        },
    }
}

/// The field an expression yields over the output of a plan.
pub open spec fn spec_to_field(e: SpecLogicalExpr, input: SpecLogicalPlan) -> Result<SpecField, SpecError> {
    match plan_schema(input) {
        Err(err) => Err(err),
        Ok(s) => field_of(e, s),
    }
}

pub open spec fn plan_children(p: SpecLogicalPlan) -> Seq<SpecLogicalPlan> {
    match p {
        SpecLogicalPlan::Scan { .. } => Seq::empty(),
        SpecLogicalPlan::Selection { input, .. } => seq![*input],
        SpecLogicalPlan::Projection { input, .. } => seq![*input],
        SpecLogicalPlan::Aggregate { input, .. } => seq![*input],
        SpecLogicalPlan::Join { left, right, .. } => seq![*left, *right],
    }
}

/// The texts joined with a separator between each two.
pub open spec fn joined(ts: Seq<Seq<char>>, sep: Seq<char>) -> Seq<char>
    decreases ts.len(),
{
    if ts.len() == 0 {
        Seq::empty()
    } else if ts.len() == 1 {
        ts[0]
    } else {
        joined(ts.drop_last(), sep) + sep + ts.last()
    }
}

pub open spec fn exprs_texts(es: Seq<SpecLogicalExpr>) -> Seq<Seq<char>> {
    es.map_values(|e: SpecLogicalExpr| expr_text(e))
}

pub open spec fn join_type_text(jt: JoinType) -> Seq<char> {
    match jt {
        JoinType::Inner => "inner"@,
        JoinType::Left => "left"@,
        JoinType::Right => "right"@,
    }
}

pub open spec fn on_texts(on: Seq<(Seq<char>, Seq<char>)>) -> Seq<Seq<char>> {
    on.map_values(|p: (Seq<char>, Seq<char>)| p.0 + "="@ + p.1)
}

/// The line of a plan node, without the lines of its children.
pub open spec fn node_text(p: SpecLogicalPlan) -> Seq<char> {
    match p {
        SpecLogicalPlan::Scan { path, projection, .. } => if projection.len() == 0 {
            "Scan: "@ + path + "; projection=None"@ + "\n"@
        } else {
            "Scan: "@ + path + "; projection=["@ + joined(projection, ","@) + "]"@ + "\n"@
        },
        SpecLogicalPlan::Selection { expr, .. } => "Filter: "@ + expr_text(expr) + "\n"@,
        SpecLogicalPlan::Projection { exprs, .. } => "Projection: "@ + joined(exprs_texts(exprs), ", "@) + "\n"@,
        SpecLogicalPlan::Aggregate { group_expr, aggregate_expr, .. } => "Aggregate: group_expr=["@
            + joined(exprs_texts(group_expr), ", "@) + "], aggregate_expr=["@ + joined(exprs_texts(aggregate_expr), ", "@)
            + "]"@ + "\n"@,
        SpecLogicalPlan::Join { join_type, on, .. } => "Join: type="@ + join_type_text(join_type) + ", on="@
            + joined(on_texts(on), ", "@),
    }
}

/// The text of a plan: one line per node after `prefix`, the lines of the
/// inputs after `prefix` and two more spaces.
pub open spec fn plan_text(p: SpecLogicalPlan, prefix: Seq<char>) -> Seq<char>
    decreases p,
{
    prefix + node_text(p) + match p {
        SpecLogicalPlan::Scan { .. } => Seq::empty(),
        SpecLogicalPlan::Selection { input, .. } => plan_text(*input, prefix + "  "@),
        SpecLogicalPlan::Projection { input, .. } => plan_text(*input, prefix + "  "@),
        SpecLogicalPlan::Aggregate { input, .. } => plan_text(*input, prefix + "  "@),
        SpecLogicalPlan::Join { left, right, .. } => plan_text(*left, prefix + "  "@) + plan_text(*right, prefix + "  "@),
    }
}

/// The fields of a list of expressions over a schema.
pub fn fields_over(es: &Vec<Arc<LogicalExpr>>, schema: &Schema) -> (r: Result<Vec<Field>, Error>)
    ensures
        match r {
            Ok(fs) => fields_of(exprs_view(es@), schema@) == Ok::<Seq<SpecField>, SpecError>(fields_view(fs@)),
            Err(e) => fields_of(exprs_view(es@), schema@) == Err::<Seq<SpecField>, SpecError>(e@),
        },
{
    let ghost v = exprs_view(es@);
    let mut fields: Vec<Field> = Vec::new();
    let mut k: usize = 0;
    assert(v.subrange(0, 0) =~= Seq::<SpecLogicalExpr>::empty());
    assert(fields_view(fields@) =~= Seq::<SpecField>::empty());
    while k < es.len()
        invariant
            k <= es.len(),
            v == exprs_view(es@),
            fields_of(v.subrange(0, k as int), schema@) == Ok::<Seq<SpecField>, SpecError>(fields_view(fields@)),
        decreases es.len() - k,
    {
        assert(v.subrange(0, k + 1).drop_last() =~= v.subrange(0, k as int));
        match es[k].field_over(schema) {
            Ok(f) => {
                let ghost prev = fields@;
                fields.push(f);
                assert(fields_view(fields@) =~= fields_view(prev).push(fields@.last()@));
            },
            Err(e) => {
                proof {
                    lemma_fields_of_error_persists(v, schema@, k + 1);
                }
                return Err(e);
            },
        }
        k = k + 1;
    }
    assert(v.subrange(0, es.len() as int) =~= v);
    Ok(fields)
}

proof fn lemma_fields_of_error_persists(es: Seq<SpecLogicalExpr>, s: Seq<SpecField>, k: int)
    requires
        0 <= k <= es.len(),
        fields_of(es.subrange(0, k), s) is Err,
    ensures
        fields_of(es, s) == fields_of(es.subrange(0, k), s),
    decreases es.len() - k,
{
    if k < es.len() {
        assert(es.subrange(0, k + 1).drop_last() =~= es.subrange(0, k));
        lemma_fields_of_error_persists(es, s, k + 1);
    } else {
        assert(es.subrange(0, k) =~= es);
    }
}

/// Appends `texts` joined by `sep` to `out`.
fn write_joined_exprs(es: &Vec<Arc<LogicalExpr>>, sep: &str, out: &mut String)
    ensures
        final(out)@ == old(out)@ + joined(exprs_texts(exprs_view(es@)), sep@),
{
    let ghost ts = exprs_texts(exprs_view(es@));
    let ghost start = out@;
    let mut i: usize = 0;
    assert(ts.subrange(0, 0) =~= Seq::<Seq<char>>::empty());
    while i < es.len()
        invariant
            i <= es.len(),
            ts == exprs_texts(exprs_view(es@)),
            out@ == start + joined(ts.subrange(0, i as int), sep@),
        decreases es.len() - i,
    {
        assert(ts.subrange(0, i + 1).drop_last() =~= ts.subrange(0, i as int));
        if i > 0 {
            out.append(sep);
        }
        es[i].write_to(out);
        i = i + 1;
    }
    assert(ts.subrange(0, es.len() as int) =~= ts);
}

/// Appends `names` joined by `sep` to `out`.
pub(crate) fn write_joined_strings(names: &Vec<String>, sep: &str, out: &mut String)
    ensures
        final(out)@ == old(out)@ + joined(strings_view(names@), sep@),
{
    let ghost ts = strings_view(names@);
    let ghost start = out@;
    let mut i: usize = 0;
    assert(ts.subrange(0, 0) =~= Seq::<Seq<char>>::empty());
    while i < names.len()
        invariant
            i <= names.len(),
            ts == strings_view(names@),
            out@ == start + joined(ts.subrange(0, i as int), sep@),
        decreases names.len() - i,
    {
        assert(ts.subrange(0, i + 1).drop_last() =~= ts.subrange(0, i as int));
        if i > 0 {
            out.append(sep);
        }
        out.append(names[i].as_str());
        i = i + 1;
    }
    assert(ts.subrange(0, names.len() as int) =~= ts);
}

fn write_joined_pairs(on: &Vec<(String, String)>, sep: &str, out: &mut String)
    ensures
        final(out)@ == old(out)@ + joined(on_texts(pairs_view(on@)), sep@),
{
    let ghost ts = on_texts(pairs_view(on@));
    let ghost start = out@;
    let mut i: usize = 0;
    assert(ts.subrange(0, 0) =~= Seq::<Seq<char>>::empty());
    while i < on.len()
        invariant
            i <= on.len(),
            ts == on_texts(pairs_view(on@)),
            out@ == start + joined(ts.subrange(0, i as int), sep@),
        decreases on.len() - i,
    {
        assert(ts.subrange(0, i + 1).drop_last() =~= ts.subrange(0, i as int));
        if i > 0 {
            out.append(sep);
        }
        out.append(on[i].0.as_str());
        out.append("=");
        out.append(on[i].1.as_str());
        i = i + 1;
    }
    assert(ts.subrange(0, on.len() as int) =~= ts);
}

impl JoinType {
    pub fn to_str(&self) -> (s: &'static str)
        ensures
            s@ == join_type_text(*self),
    {
        match self {
            JoinType::Inner => "inner",
            JoinType::Left => "left",
            JoinType::Right => "right",
        }
    }
}

impl LogicalExpr {
    /// The field that the expression yields over the output of `input`.
    pub fn to_field(&self, input: &LogicalPlan) -> (r: Result<Field, Error>)
        ensures
            result_view(r) == spec_to_field(self@, input@),
    {
        let schema = input.schema()?;
        self.field_over(&schema)
    }
}

impl LogicalPlan {
    /// The output schema of the plan.
    pub fn schema(&self) -> (r: Result<Schema, Error>)
        ensures
            result_view(r) == plan_schema(self@),
        decreases self,
    {
        match self {
            LogicalPlan::Scan(scan) => {
                let schema = scan.data_source.schema()?;
                if scan.projection.len() == 0 {
                    Ok(schema)
                } else {
                    let field_ids = field_ids_by_names(&schema, &scan.projection)?;
                    schema.project(&field_ids)
                }
            },
            LogicalPlan::Selection(selection) => selection.input.schema(),
            LogicalPlan::Projection(projection) => {
                if projection.expr.len() == 0 {
                    return Ok(Schema::empty());
                }
                let schema = projection.input.schema()?;
                let fields = fields_over(&projection.expr, &schema)?;
                Ok(Schema::new(fields))
            },
            LogicalPlan::Aggregate(aggregate) => {
                if aggregate.group_expr.len() == 0 && aggregate.aggregate_expr.len() == 0 {
                    return Ok(Schema::empty());
                }
                let schema = aggregate.input.schema()?;
                let mut groups = fields_over(&aggregate.group_expr, &schema)?;
                let mut aggregates = fields_over(&aggregate.aggregate_expr, &schema)?;
                let ghost g = groups@;
                let ghost a = aggregates@;
                groups.append(&mut aggregates);
                assert(fields_view(groups@) =~= fields_view(g) + fields_view(a));
                Ok(Schema::new(groups))
            },
            LogicalPlan::Join(join) => {
                let lhs = join.left.schema()?;
                let rhs = join.right.schema()?;
                let (outer, inner) = match join.join_type {
                    JoinType::Inner | JoinType::Left => (lhs, rhs),
                    JoinType::Right => (rhs, lhs),
                };
                let mut fields = outer.duplicate().fields;
                let ghost base = fields@;
                let mut i: usize = 0;
                assert(inner@.subrange(0, 0) =~= Seq::<SpecField>::empty());
                assert(fields_view(fields@) =~= outer@ + new_fields(outer@, inner@.subrange(0, 0)));
                while i < inner.fields.len()
                    invariant
                        i <= inner.fields.len(),
                        fields_view(fields@) == outer@ + new_fields(outer@, inner@.subrange(0, i as int)),
                    decreases inner.fields.len() - i,
                {
                    assert(inner@.subrange(0, i + 1).drop_last() =~= inner@.subrange(0, i as int));
                    assert(inner@.subrange(0, i + 1).last() == inner@[i as int]);
                    if outer.index_of(inner.fields[i].name.as_str()).is_err() {
                        let ghost prev = fields@;
                        fields.push(inner.field(i));
                        assert(fields_view(fields@) =~= fields_view(prev).push(inner@[i as int]));
                    }
                    i = i + 1;
                }
                assert(inner@.subrange(0, inner.fields.len() as int) =~= inner@);
                Ok(Schema::new(fields))
            },
        }
    }

    /// The inputs of the plan's root.
    pub fn children(&self) -> (r: Vec<&LogicalPlan>)
        ensures
            r@.map_values(|c: &LogicalPlan| plan_view(*c)) == plan_children(self@),
    {
        let r: Vec<&LogicalPlan> = match self {
            LogicalPlan::Scan(_) => Vec::new(),
            LogicalPlan::Selection(s) => {
                let mut v = Vec::new();
                v.push(&*s.input);
                v
            },
            LogicalPlan::Projection(s) => {
                let mut v = Vec::new();
                v.push(&*s.input);
                v
            },
            LogicalPlan::Aggregate(s) => {
                let mut v = Vec::new();
                v.push(&*s.input);
                v
            },
            LogicalPlan::Join(s) => {
                let mut v = Vec::new();
                v.push(&*s.left);
                v.push(&*s.right);
                v
            },
        };
        assert(r@.map_values(|c: &LogicalPlan| plan_view(*c)) =~= plan_children(self@));
        r
    }

    /// Appends the line of the plan's root to `out`.
    fn write_node(&self, out: &mut String)
        ensures
            final(out)@ == old(out)@ + node_text(self@),
    {
        match self {
            LogicalPlan::Scan(scan) => {
                out.append("Scan: ");
                out.append(scan.path.as_str());
                if scan.projection.len() == 0 {
                    out.append("; projection=None");
                } else {
                    out.append("; projection=[");
                    write_joined_strings(&scan.projection, ",", out);
                    out.append("]");
                }
                out.append("\n");
            },
            LogicalPlan::Selection(selection) => {
                out.append("Filter: ");
                selection.expr.write_to(out);
                out.append("\n");
            },
            LogicalPlan::Projection(projection) => {
                out.append("Projection: ");
                write_joined_exprs(&projection.expr, ", ", out);
                out.append("\n");
            },
            LogicalPlan::Aggregate(aggregate) => {
                out.append("Aggregate: group_expr=[");
                write_joined_exprs(&aggregate.group_expr, ", ", out);
                out.append("], aggregate_expr=[");
                write_joined_exprs(&aggregate.aggregate_expr, ", ", out);
                out.append("]");
                out.append("\n");
            },
            LogicalPlan::Join(join) => {
                out.append("Join: type=");
                out.append(join.join_type.to_str());
                out.append(", on=");
                write_joined_pairs(&join.on, ", ", out);
            },
        }
    }

    /// Appends the text of the plan, each line after `prefix`, to `out`.
    pub fn write_to(&self, prefix: &String, out: &mut String)
        ensures
            final(out)@ == old(out)@ + plan_text(self@, prefix@),
        decreases self,
    {
        out.append(prefix.as_str());
        self.write_node(out);
        let mut inner = prefix.clone();
        inner.append("  ");
        match self {
            LogicalPlan::Scan(_) => {},
            LogicalPlan::Selection(s) => s.input.write_to(&inner, out),
            LogicalPlan::Projection(s) => s.input.write_to(&inner, out),
            LogicalPlan::Aggregate(s) => s.input.write_to(&inner, out),
            LogicalPlan::Join(s) => {
                s.left.write_to(&inner, out);
                s.right.write_to(&inner, out);
            },
        }
    }

    /// The text of the plan.
    pub fn to_string(&self) -> (s: String)
        ensures
            s@ == plan_text(self@, Seq::empty()),
    {
        let mut s = String::new();
        let prefix = String::new();
        self.write_to(&prefix, &mut s);
        s
    }

    /// A copy of the plan; expressions are shared.
    pub fn duplicate(&self) -> (r: LogicalPlan)
        ensures
            r@ == self@,
        decreases self,
    {
        match self {
            LogicalPlan::Scan(s) => LogicalPlan::Scan(Scan {
                path: s.path.clone(),
                data_source: s.data_source.duplicate(),
                projection: copy_strings(&s.projection),
            }),
            LogicalPlan::Selection(s) => LogicalPlan::Selection(Selection {
                input: Box::new(s.input.duplicate()),
                expr: crate::logical_plan::expr::share(&s.expr),
            }),
            LogicalPlan::Projection(s) => LogicalPlan::Projection(Projection {
                input: Box::new(s.input.duplicate()),
                expr: share_all(&s.expr),
            }),
            LogicalPlan::Aggregate(s) => LogicalPlan::Aggregate(Aggregate {
                input: Box::new(s.input.duplicate()),
                group_expr: share_all(&s.group_expr),
                aggregate_expr: share_all(&s.aggregate_expr),
            }),
            LogicalPlan::Join(s) => LogicalPlan::Join(Join {
                left: Box::new(s.left.duplicate()),
                right: Box::new(s.right.duplicate()),
                join_type: s.join_type,
                on: copy_pairs(&s.on),
            }),
        }
    }
}

/// A copy of a list of name pairs.
pub fn copy_pairs(v: &Vec<(String, String)>) -> (r: Vec<(String, String)>)
    ensures
        pairs_view(r@) == pairs_view(v@),
{
    let mut r: Vec<(String, String)> = Vec::new();
    let mut i: usize = 0;
    while i < v.len()
        invariant
            i <= v.len(),
            pairs_view(r@) == pairs_view(v@).subrange(0, i as int),
        decreases v.len() - i,
    {
        let ghost prev = r@;
        r.push((v[i].0.clone(), v[i].1.clone()));
        assert(pairs_view(r@) =~= pairs_view(prev).push((v@[i as int].0@, v@[i as int].1@)));
        assert(pairs_view(v@).subrange(0, i + 1) =~= pairs_view(v@).subrange(0, i as int).push((v@[i as int].0@, v@[i as int].1@)));
        i = i + 1;
    }
    assert(pairs_view(v@).subrange(0, v.len() as int) =~= pairs_view(v@));
    r
}

} // verus!
