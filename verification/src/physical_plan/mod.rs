//! Physical plans: the operators that an executor runs, with the schema
//! each one produces.
pub mod aggregate;
pub mod expr;
pub mod grouping;

use vstd::prelude::*;

use crate::data_source::{DataSource, SpecDataSource, source_schema};
use crate::error::{Error, SpecError, result_view};
use crate::logical_plan::{JoinType, join_type_text, joined, write_joined_strings};
use crate::physical_plan::aggregate::{PhysicalAggregateExpr, SpecAggregateExpr, aggregate_exprs_view, aggregate_text};
use crate::physical_plan::expr::{PhysicalExpr, SpecPhysicalExpr, physical_expr_text, physical_expr_view, physical_exprs_view};
use crate::schema::{Schema, SpecField, data_type_text, spec_project};
use crate::text::{nat_decimal, push_usize};
use crate::utils::{field_ids_by_names, spec_field_ids, strings_view};

verus! {

#[derive(Debug)]
pub enum PhysicalPlan {
    Scan(ScanExec),
    Projection(ProjectionExec),
    Selection(SelectionExec),
    HashAggregate(HashAggregrateExec),
    Join(HashJoinExec),
}

/// Reads the named columns of a data source; all of them when none is named.
#[derive(Debug)]
pub struct ScanExec {
    pub data_source: DataSource,
    pub projection: Vec<String>,
}

/// Evaluates one expression per output column.
#[derive(Debug)]
pub struct ProjectionExec {
    pub schema: Schema,
    pub input: Box<PhysicalPlan>,
    pub expr: Vec<PhysicalExpr>,
}

/// Keeps the rows for which the predicate holds.
#[derive(Debug)]
pub struct SelectionExec {
    pub input: Box<PhysicalPlan>,
    pub expr: PhysicalExpr,
}

/// Groups the rows by the group expressions and aggregates each group.
#[derive(Debug)]
pub struct HashAggregrateExec {
    pub schema: Schema,
    pub input: Box<PhysicalPlan>,
    pub group_expr: Vec<PhysicalExpr>,
    pub aggregate_expr: Vec<PhysicalAggregateExpr>,
}

/// Joins two inputs on equal keys.  The output holds every column of the
/// left input and those columns of the right input that the left input has
/// no name for.
#[derive(Debug)]
pub struct HashJoinExec {
    pub schema: Schema,
    pub lhs: Box<PhysicalPlan>,
    pub rhs: Box<PhysicalPlan>,
    pub join_type: JoinType,
    pub lhs_keys: Vec<usize>,
    pub rhs_keys: Vec<usize>,
    pub right_columns_to_include: Vec<usize>,
}

pub enum SpecPhysicalPlan {
    Scan { source: SpecDataSource, projection: Seq<Seq<char>> },
    Projection { schema: Seq<SpecField>, input: Box<SpecPhysicalPlan>, exprs: Seq<SpecPhysicalExpr> },
    Selection { input: Box<SpecPhysicalPlan>, expr: SpecPhysicalExpr },
    HashAggregate {
        schema: Seq<SpecField>,
        input: Box<SpecPhysicalPlan>,
        group_expr: Seq<SpecPhysicalExpr>,
        aggregate_expr: Seq<SpecAggregateExpr>,
    },
    Join {
        schema: Seq<SpecField>,
        lhs: Box<SpecPhysicalPlan>,
        rhs: Box<SpecPhysicalPlan>,
        join_type: JoinType,
        lhs_keys: Seq<usize>,
        rhs_keys: Seq<usize>,
        right_columns_to_include: Seq<usize>,
    },
}

pub open spec fn physical_plan_view(p: PhysicalPlan) -> SpecPhysicalPlan
    decreases p,
{
    match p {
        PhysicalPlan::Scan(s) => SpecPhysicalPlan::Scan { source: s.data_source@, projection: strings_view(s.projection@) },
        PhysicalPlan::Projection(s) => SpecPhysicalPlan::Projection {
            schema: s.schema@,
            input: Box::new(physical_plan_view(*s.input)),
            exprs: physical_exprs_view(s.expr@),
        },
        PhysicalPlan::Selection(s) => SpecPhysicalPlan::Selection {
            input: Box::new(physical_plan_view(*s.input)),
            expr: physical_expr_view(s.expr),
        },
        PhysicalPlan::HashAggregate(s) => SpecPhysicalPlan::HashAggregate {
            schema: s.schema@,
            input: Box::new(physical_plan_view(*s.input)),
            group_expr: physical_exprs_view(s.group_expr@),
            aggregate_expr: aggregate_exprs_view(s.aggregate_expr@),
        },
        PhysicalPlan::Join(s) => SpecPhysicalPlan::Join {
            schema: s.schema@,
            lhs: Box::new(physical_plan_view(*s.lhs)),
            rhs: Box::new(physical_plan_view(*s.rhs)),
            join_type: s.join_type,
            lhs_keys: s.lhs_keys@,
            rhs_keys: s.rhs_keys@,
            right_columns_to_include: s.right_columns_to_include@,
        },
    }
}

impl View for PhysicalPlan {
    type V = SpecPhysicalPlan;

    open spec fn view(&self) -> SpecPhysicalPlan {
        physical_plan_view(*self)
    }
}

/// The schema of the batches that a physical plan produces.  A scan yields
/// the named fields of its source, in the order of the names.
pub open spec fn physical_schema(p: SpecPhysicalPlan) -> Result<Seq<SpecField>, SpecError>
    decreases p,
{
    match p {
        SpecPhysicalPlan::Scan { source, projection } => match source_schema(source) {
            Err(e) => Err(e),
            Ok(s) => match spec_field_ids(s, projection) {
                Err(e) => Err(e),
                Ok(ids) => spec_project(s, ids),
            },
        },
        SpecPhysicalPlan::Projection { schema, .. } => Ok(schema),
        SpecPhysicalPlan::Selection { input, .. } => physical_schema(*input),
        SpecPhysicalPlan::HashAggregate { schema, .. } => Ok(schema),
        SpecPhysicalPlan::Join { schema, .. } => Ok(schema),
    }
}

pub open spec fn physical_children(p: SpecPhysicalPlan) -> Seq<SpecPhysicalPlan> {
    match p {
        SpecPhysicalPlan::Scan { .. } => Seq::empty(),
        SpecPhysicalPlan::Projection { input, .. } => seq![*input],
        SpecPhysicalPlan::Selection { input, .. } => seq![*input],
        SpecPhysicalPlan::HashAggregate { input, .. } => seq![*input],
        SpecPhysicalPlan::Join { lhs, rhs, .. } => seq![*lhs, *rhs],
    }
}

pub open spec fn physical_exprs_texts(es: Seq<SpecPhysicalExpr>) -> Seq<Seq<char>> {
    es.map_values(|e: SpecPhysicalExpr| physical_expr_text(e))
}

pub open spec fn aggregate_texts(es: Seq<SpecAggregateExpr>) -> Seq<Seq<char>> {
    es.map_values(|a: SpecAggregateExpr| aggregate_text(a))
}

pub open spec fn field_texts(fs: Seq<SpecField>) -> Seq<Seq<char>> {
    fs.map_values(|f: SpecField| "("@ + f.name + ","@ + data_type_text(f.data_type) + ")"@)
}

pub open spec fn index_texts(ks: Seq<usize>) -> Seq<Seq<char>> {
    ks.map_values(|k: usize| "#"@ + nat_decimal(k as nat))
}

/// The fields of a source, as `(name,type)` pairs; none when its schema is
/// not known.
pub open spec fn source_text(source: SpecDataSource) -> Seq<char> {
    match source_schema(source) {
        Ok(s) => "["@ + joined(field_texts(s), ","@) + "]"@,
        Err(_) => "[]"@,
    }
}

/// The line of a physical plan node, without the lines of its children.
pub open spec fn physical_node_text(p: SpecPhysicalPlan) -> Seq<char> {
    match p {
        SpecPhysicalPlan::Scan { source, projection } => "ScanExec: "@ + source_text(source) + "; projection="@
            + if projection.len() == 0 { "None"@ } else { "["@ + joined(projection, ","@) + "]"@ } + "\n"@,
        SpecPhysicalPlan::Projection { exprs, .. } => "ProjectionExec: "@ + joined(physical_exprs_texts(exprs), ", "@) + "\n"@,
        SpecPhysicalPlan::Selection { expr, .. } => "SelectionExec: "@ + physical_expr_text(expr) + "\n"@,
        SpecPhysicalPlan::HashAggregate { group_expr, aggregate_expr, .. } => "HashAggregrateExec: group_expr=["@
            + joined(physical_exprs_texts(group_expr), ", "@) + "], aggregate_expr=["@
            + joined(aggregate_texts(aggregate_expr), ", "@) + "]"@ + "\n"@,
        SpecPhysicalPlan::Join { join_type, lhs_keys, rhs_keys, .. } => "HashJoinExec: type="@ + join_type_text(join_type)
            + ", lhs_keys=["@ + joined(index_texts(lhs_keys), ", "@) + "], rhs_keys=["@
            + joined(index_texts(rhs_keys), ", "@) + "]"@ + "\n"@,
    }
}

/// The text of a physical plan: one line per node after `prefix`, the
/// lines of the inputs after `prefix` and two more spaces.
pub open spec fn physical_plan_text(p: SpecPhysicalPlan, prefix: Seq<char>) -> Seq<char>
    decreases p,
{
    prefix + physical_node_text(p) + match p {
        SpecPhysicalPlan::Scan { .. } => Seq::empty(),
        SpecPhysicalPlan::Projection { input, .. } => physical_plan_text(*input, prefix + "  "@),
        SpecPhysicalPlan::Selection { input, .. } => physical_plan_text(*input, prefix + "  "@),
        SpecPhysicalPlan::HashAggregate { input, .. } => physical_plan_text(*input, prefix + "  "@),
        SpecPhysicalPlan::Join { lhs, rhs, .. } => physical_plan_text(*lhs, prefix + "  "@) + physical_plan_text(*rhs, prefix + "  "@),
    }
}

/// Appends the texts of the expressions, joined by `", "`.
fn write_joined_physical(es: &Vec<PhysicalExpr>, out: &mut String)
    ensures
        final(out)@ == old(out)@ + joined(physical_exprs_texts(physical_exprs_view(es@)), ", "@),
{
    let ghost ts = physical_exprs_texts(physical_exprs_view(es@));
    let ghost start = out@;
    let mut i: usize = 0;
    assert(ts.subrange(0, 0) =~= Seq::<Seq<char>>::empty());
    while i < es.len()
        invariant
            i <= es.len(),
            ts == physical_exprs_texts(physical_exprs_view(es@)),
            out@ == start + joined(ts.subrange(0, i as int), ", "@),
        decreases es.len() - i,
    {
        assert(ts.subrange(0, i + 1).drop_last() =~= ts.subrange(0, i as int));
        if i > 0 {
            out.append(", ");
        }
        es[i].write_to(out);
        i = i + 1;
    }
    assert(ts.subrange(0, es.len() as int) =~= ts);
}

/// Appends the texts of the aggregates, joined by `", "`.
fn write_joined_aggregates(es: &Vec<PhysicalAggregateExpr>, out: &mut String)
    ensures
        final(out)@ == old(out)@ + joined(aggregate_texts(aggregate_exprs_view(es@)), ", "@),
{
    let ghost ts = aggregate_texts(aggregate_exprs_view(es@));
    let ghost start = out@;
    let mut i: usize = 0;
    assert(ts.subrange(0, 0) =~= Seq::<Seq<char>>::empty());
    while i < es.len()
        invariant
            i <= es.len(),
            ts == aggregate_texts(aggregate_exprs_view(es@)),
            out@ == start + joined(ts.subrange(0, i as int), ", "@),
        decreases es.len() - i,
    {
        assert(ts.subrange(0, i + 1).drop_last() =~= ts.subrange(0, i as int));
        if i > 0 {
            out.append(", ");
        }
        es[i].write_to(out);
        i = i + 1;
    }
    assert(ts.subrange(0, es.len() as int) =~= ts);
}

/// Appends the fields as `(name,type)` pairs, joined by `","`.
fn write_joined_fields(schema: &Schema, out: &mut String)
    ensures
        final(out)@ == old(out)@ + joined(field_texts(schema@), ","@),
{
    let ghost ts = field_texts(schema@);
    let ghost start = out@;
    let mut i: usize = 0;
    assert(ts.subrange(0, 0) =~= Seq::<Seq<char>>::empty());
    while i < schema.fields.len()
        invariant
            i <= schema.fields.len(),
            ts == field_texts(schema@),
            out@ == start + joined(ts.subrange(0, i as int), ","@),
        decreases schema.fields.len() - i,
    {
        assert(ts.subrange(0, i + 1).drop_last() =~= ts.subrange(0, i as int));
        if i > 0 {
            out.append(",");
        }
        let ghost before = out@;
        out.append("(");
        out.append(schema.fields[i].name.as_str());
        out.append(",");
        schema.fields[i].data_type.write_to(out);
        out.append(")");
        assert(out@ =~= before + ts[i as int]);
        i = i + 1;
    }
    assert(ts.subrange(0, schema.fields.len() as int) =~= ts);
}

/// Appends the positions as `#k`, joined by `", "`.
fn write_joined_indices(ks: &Vec<usize>, out: &mut String)
    ensures
        final(out)@ == old(out)@ + joined(index_texts(ks@), ", "@),
{
    let ghost ts = index_texts(ks@);
    let ghost start = out@;
    let mut i: usize = 0;
    assert(ts.subrange(0, 0) =~= Seq::<Seq<char>>::empty());
    while i < ks.len()
        invariant
            i <= ks.len(),
            ts == index_texts(ks@),
            out@ == start + joined(ts.subrange(0, i as int), ", "@),
        decreases ks.len() - i,
    {
        assert(ts.subrange(0, i + 1).drop_last() =~= ts.subrange(0, i as int));
        if i > 0 {
            out.append(", ");
        }
        let ghost before = out@;
        out.append("#");
        push_usize(out, ks[i]);
        assert(out@ =~= before + ts[i as int]);
        i = i + 1;
    }
    assert(ts.subrange(0, ks.len() as int) =~= ts);
}

impl ScanExec {
    /// The schema of the named columns of the source.
    pub fn schema(&self) -> (r: Result<Schema, Error>)
        ensures
            result_view(r) == physical_schema(SpecPhysicalPlan::Scan {
                source: self.data_source@,
                projection: strings_view(self.projection@),
            }),
    {
        let schema = self.data_source.schema()?;
        let field_ids = field_ids_by_names(&schema, &self.projection)?;
        schema.project(&field_ids)
    }
}

impl ProjectionExec {
    pub fn schema(&self) -> (r: Result<Schema, Error>)
        ensures
            r matches Ok(s) && s@ == self.schema@,
    {
        Ok(self.schema.duplicate())
    }
}

impl SelectionExec {
    pub fn schema(&self) -> (r: Result<Schema, Error>)
        ensures
            result_view(r) == physical_schema(physical_plan_view(*self.input)),
    {
        self.input.schema()
    }
}

impl HashAggregrateExec {
    pub fn schema(&self) -> (r: Result<Schema, Error>)
        ensures
            r matches Ok(s) && s@ == self.schema@,
    {
        Ok(self.schema.duplicate())
    }
}

impl HashJoinExec {
    pub fn schema(&self) -> (r: Result<Schema, Error>)
        ensures
            r matches Ok(s) && s@ == self.schema@,
    {
        Ok(self.schema.duplicate())
    }
}

impl PhysicalPlan {
    /// The schema of the batches that the plan produces.
    pub fn schema(&self) -> (r: Result<Schema, Error>)
        ensures
            result_view(r) == physical_schema(self@),
        decreases self,
    {
        match self {
            PhysicalPlan::Scan(scan_exec) => scan_exec.schema(),
            PhysicalPlan::Projection(projection_exec) => projection_exec.schema(),
            PhysicalPlan::Selection(selection_exec) => selection_exec.input.schema(),
            PhysicalPlan::HashAggregate(hash_aggregrate_exec) => hash_aggregrate_exec.schema(),
            PhysicalPlan::Join(hash_join_exec) => hash_join_exec.schema(),
        }
    }

    /// Appends the line of the plan's root to `out`.
    fn write_node(&self, out: &mut String)
        ensures
            final(out)@ == old(out)@ + physical_node_text(self@),
    {
        match self {
            PhysicalPlan::Scan(scan) => {
                out.append("ScanExec: ");
                match scan.data_source.schema() {
                    Ok(schema) => {
                        out.append("[");
                        write_joined_fields(&schema, out);
                        out.append("]");
                    },
                    Err(_) => out.append("[]"),
                }
                out.append("; projection=");
                if scan.projection.len() == 0 {
                    out.append("None");
                } else {
                    out.append("[");
                    write_joined_strings(&scan.projection, ",", out);
                    out.append("]");
                }
                out.append("\n");
            },
            PhysicalPlan::Projection(projection) => {
                out.append("ProjectionExec: ");
                write_joined_physical(&projection.expr, out);
                out.append("\n");
            },
            PhysicalPlan::Selection(selection) => {
                out.append("SelectionExec: ");
                selection.expr.write_to(out);
                out.append("\n");
            },
            PhysicalPlan::HashAggregate(aggregate) => {
                out.append("HashAggregrateExec: group_expr=[");
                write_joined_physical(&aggregate.group_expr, out);
                out.append("], aggregate_expr=[");
                write_joined_aggregates(&aggregate.aggregate_expr, out);
                out.append("]");
                out.append("\n");
            },
            PhysicalPlan::Join(join) => {
                out.append("HashJoinExec: type=");
                out.append(join.join_type.to_str());
                out.append(", lhs_keys=[");
                write_joined_indices(&join.lhs_keys, out);
                out.append("], rhs_keys=[");
                write_joined_indices(&join.rhs_keys, out);
                out.append("]");
                out.append("\n");
            },
        }
    }

    /// Appends the text of the plan, each line after `prefix`, to `out`.
    pub fn write_to(&self, prefix: &String, out: &mut String)
        ensures
            final(out)@ == old(out)@ + physical_plan_text(self@, prefix@),
        decreases self,
    {
        out.append(prefix.as_str());
        self.write_node(out);
        let mut inner = prefix.clone();
        inner.append("  ");
        match self {
            PhysicalPlan::Scan(_) => {},
            PhysicalPlan::Projection(p) => p.input.write_to(&inner, out),
            PhysicalPlan::Selection(p) => p.input.write_to(&inner, out),
            PhysicalPlan::HashAggregate(p) => p.input.write_to(&inner, out),
            PhysicalPlan::Join(p) => {
                p.lhs.write_to(&inner, out);
                p.rhs.write_to(&inner, out);
            },
        }
    }

    /// The text of the plan.
    pub fn to_string(&self) -> (s: String)
        ensures
            s@ == physical_plan_text(self@, Seq::empty()),
    {
        let mut s = String::new();
        let prefix = String::new();
        self.write_to(&prefix, &mut s);
        s
    }

    /// The inputs of the plan's root.
    pub fn children(&self) -> (r: Vec<&PhysicalPlan>)
        ensures
            r@.map_values(|c: &PhysicalPlan| physical_plan_view(*c)) == physical_children(self@),
    {
        let mut v: Vec<&PhysicalPlan> = Vec::new();
        match self {
            PhysicalPlan::Scan(_) => {},
            PhysicalPlan::Projection(p) => v.push(&*p.input),
            PhysicalPlan::Selection(p) => v.push(&*p.input),
            PhysicalPlan::HashAggregate(p) => v.push(&*p.input),
            PhysicalPlan::Join(p) => {
                v.push(&*p.lhs);
                v.push(&*p.rhs);
            },
        }
        assert(v@.map_values(|c: &PhysicalPlan| physical_plan_view(*c)) =~= physical_children(self@));
        v
    }
}

} // verus!
