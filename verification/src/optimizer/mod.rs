//! Rewrites of logical plans that keep what they compute.
use vstd::prelude::*;

use crate::data_source::{SpecDataSource, source_schema};
use crate::error::{Error, SpecError, result_view};
use crate::logical_plan::expr::{LogicalExpr, SpecLogicalExpr, expr_view, exprs_view, names_column, share, share_all};
use crate::logical_plan::{
    Aggregate, Join, LogicalPlan, Projection, Scan, Selection, SpecLogicalPlan, pairs_view, plan_schema,
    copy_pairs,
};
use crate::names::{NameSet, is_sorted_names, law_names_insert, names_insert};
use crate::schema::{Schema, SpecField, index_of_name, lemma_index_of_from};
use crate::utils::strings_view;

verus! {

/// The column names an expression needs from `input`, added to `acc`.  A
/// column index is resolved against the schema of `input`; the operand of a
/// cast is not looked into.
pub open spec fn extract(e: SpecLogicalExpr, input: SpecLogicalPlan, acc: Seq<Seq<char>>) -> Result<Seq<Seq<char>>, SpecError>
    decreases e,
{
    match e {
        SpecLogicalExpr::Column(name) => Ok(names_insert(acc, name)),
        SpecLogicalExpr::ColumnIndex(i) => match plan_schema(input) {
            Err(err) => Err(err),
            Ok(s) => if i < s.len() {
                Ok(names_insert(acc, s[i as int].name))
            } else {
                Err(SpecError::ColumnIndexOutOfRange(i))
            },
        },
        SpecLogicalExpr::Binary { lhs, rhs, .. } => match extract(*lhs, input, acc) {
            Err(err) => Err(err),
            Ok(a) => extract(*rhs, input, a),
        },
        SpecLogicalExpr::Alias { expr, .. } => extract(*expr, input, acc),
        SpecLogicalExpr::Aggregate { expr, .. } => extract(*expr, input, acc),
        _ => Ok(acc),
    }
}

/// The column names a list of expressions needs, one expression after the other.
pub open spec fn extract_all(es: Seq<SpecLogicalExpr>, input: SpecLogicalPlan, acc: Seq<Seq<char>>) -> Result<Seq<Seq<char>>, SpecError>
    decreases es.len(),
{
    if es.len() == 0 {
        Ok(acc)
    } else {
        match extract_all(es.drop_last(), input, acc) {
            Err(err) => Err(err),
            Ok(a) => extract(es.last(), input, a),
        }
    }
}

/// The names of the fields that `names` holds, in the order of the fields.
pub open spec fn scan_projection(fields: Seq<SpecField>, names: Seq<Seq<char>>) -> Seq<Seq<char>>
    decreases fields.len(),
{
    if fields.len() == 0 {
        Seq::empty()
    } else if names.contains(fields.last().name) {
        scan_projection(fields.drop_last(), names).push(fields.last().name)
    } else {
        scan_projection(fields.drop_last(), names)
    }
}

/// The names of the fields added to `acc`.
pub open spec fn insert_field_names(acc: Seq<Seq<char>>, fields: Seq<SpecField>) -> Seq<Seq<char>>
    decreases fields.len(),
{
    if fields.len() == 0 {
        acc
    } else {
        names_insert(insert_field_names(acc, fields.drop_last()), fields.last().name)
    }
}

/// Both names of each join pair added to `acc`.
pub open spec fn insert_pairs(acc: Seq<Seq<char>>, on: Seq<(Seq<char>, Seq<char>)>) -> Seq<Seq<char>>
    decreases on.len(),
{
    if on.len() == 0 {
        acc
    } else {
        names_insert(names_insert(insert_pairs(acc, on.drop_last()), on.last().0), on.last().1)
    }
}

/// The names a join adds before its inputs are rewritten: when nothing is
/// needed yet, every field of both sides; then the join keys.
pub open spec fn join_names(
    acc: Seq<Seq<char>>,
    left: SpecLogicalPlan,
    right: SpecLogicalPlan,
    on: Seq<(Seq<char>, Seq<char>)>,
) -> Result<Seq<Seq<char>>, SpecError> {
    if acc.len() == 0 {
        match plan_schema(left) {
            Err(err) => Err(err),
            Ok(ls) => match plan_schema(right) {
                Err(err) => Err(err),
                Ok(rs) => Ok(insert_pairs(insert_field_names(insert_field_names(acc, ls), rs), on)),
            },
        }
    } else {
        Ok(insert_pairs(acc, on))
    }
}

/// Projection push-down: walking from the root, collect the columns each
/// node needs, and let every scan read only the needed fields of its
/// source, in the source's order.  Returns the rewritten plan and the
/// collected names.
pub open spec fn spec_push_down(p: SpecLogicalPlan, acc: Seq<Seq<char>>) -> Result<(SpecLogicalPlan, Seq<Seq<char>>), SpecError>
    decreases p,
{
    match p {
        SpecLogicalPlan::Scan { path, source, .. } => match source_schema(source) {
            Err(err) => Err(err),
            Ok(s) => Ok((SpecLogicalPlan::Scan { path, source, projection: scan_projection(s, acc) }, acc)),
        },
        SpecLogicalPlan::Selection { input, expr } => match extract(expr, p, acc) {
            Err(err) => Err(err),
            Ok(a) => match spec_push_down(*input, a) {
                Err(err) => Err(err),
                Ok((q, b)) => Ok((SpecLogicalPlan::Selection { input: Box::new(q), expr }, b)),
            },
        },
        SpecLogicalPlan::Projection { input, exprs } => match extract_all(exprs, *input, acc) {
            Err(err) => Err(err),
            Ok(a) => match spec_push_down(*input, a) {
                Err(err) => Err(err),
                Ok((q, b)) => Ok((SpecLogicalPlan::Projection { input: Box::new(q), exprs }, b)),
            },
        },
        SpecLogicalPlan::Aggregate { input, group_expr, aggregate_expr } => match extract_all(group_expr, *input, acc) {
            Err(err) => Err(err),
            Ok(a) => match extract_all(aggregate_expr, *input, a) {
                Err(err) => Err(err),
                Ok(b) => match spec_push_down(*input, b) {
                    Err(err) => Err(err),
                    Ok((q, c)) => Ok((SpecLogicalPlan::Aggregate { input: Box::new(q), group_expr, aggregate_expr }, c)),
                },
            },
        },
        SpecLogicalPlan::Join { left, right, join_type, on } => match join_names(acc, *left, *right, on) {
            Err(err) => Err(err),
            Ok(a) => match spec_push_down(*left, a) {
                Err(err) => Err(err),
                Ok((l, b)) => match spec_push_down(*right, b) {
                    Err(err) => Err(err),
                    Ok((r, c)) => Ok((SpecLogicalPlan::Join { left: Box::new(l), right: Box::new(r), join_type, on }, c)),
                },
            },
        },
    }
}

/// The plan after projection push-down from an empty set of names.
pub open spec fn spec_projection_push_down(p: SpecLogicalPlan) -> Result<SpecLogicalPlan, SpecError> {
    match spec_push_down(p, Seq::empty()) {
        Err(err) => Err(err),
        Ok((q, _)) => Ok(q),
    }
}


/// The plan with every scan reading all columns of its source.
pub open spec fn without_scan_projections(p: SpecLogicalPlan) -> SpecLogicalPlan
    decreases p,
{
    match p {
        SpecLogicalPlan::Scan { path, source, .. } => SpecLogicalPlan::Scan { path, source, projection: Seq::empty() },
        SpecLogicalPlan::Selection { input, expr } => SpecLogicalPlan::Selection {
            input: Box::new(without_scan_projections(*input)),
            expr,
        },
        SpecLogicalPlan::Projection { input, exprs } => SpecLogicalPlan::Projection {
            input: Box::new(without_scan_projections(*input)),
            exprs,
        },
        SpecLogicalPlan::Aggregate { input, group_expr, aggregate_expr } => SpecLogicalPlan::Aggregate {
            input: Box::new(without_scan_projections(*input)),
            group_expr,
            aggregate_expr,
        },
        SpecLogicalPlan::Join { left, right, join_type, on } => SpecLogicalPlan::Join {
            left: Box::new(without_scan_projections(*left)),
            right: Box::new(without_scan_projections(*right)),
            join_type,
            on,
        },
    }
}

/// Every scan of the plan names only fields that its source has.
pub open spec fn scans_read_known_fields(p: SpecLogicalPlan) -> bool
    decreases p,
{
    match p {
        SpecLogicalPlan::Scan { source, projection, .. } => match source_schema(source) {
            Ok(s) => forall|i: int| 0 <= i < projection.len() ==> #[trigger] index_of_name(s, projection[i]) is Some,
            Err(_) => false,
        },
        SpecLogicalPlan::Selection { input, .. } => scans_read_known_fields(*input),
        SpecLogicalPlan::Projection { input, .. } => scans_read_known_fields(*input),
        SpecLogicalPlan::Aggregate { input, .. } => scans_read_known_fields(*input),
        SpecLogicalPlan::Join { left, right, .. } => scans_read_known_fields(*left) && scans_read_known_fields(*right),
    }
}

/// The names a scan projects are names of fields of its source.
proof fn lemma_scan_projection_known(fields: Seq<SpecField>, names: Seq<Seq<char>>)
    ensures
        forall|i: int| 0 <= i < scan_projection(fields, names).len()
            ==> #[trigger] index_of_name(fields, scan_projection(fields, names)[i]) is Some,
    decreases fields.len(),
{
    if fields.len() > 0 {
        let init = fields.drop_last();
        lemma_scan_projection_known(init, names);
        let pr = scan_projection(fields, names);
        assert forall|i: int| 0 <= i < pr.len() implies #[trigger] index_of_name(fields, pr[i]) is Some by {
            let name = pr[i];
            if i < scan_projection(init, names).len() {
                lemma_name_in_init(init, name);
                let k = choose|k: int| 0 <= k < init.len() && init[k].name == name;
                lemma_name_found(fields, name, k);
            } else {
                lemma_name_found(fields, name, fields.len() - 1);
            }
        }
    }
}

/// A name that some field of `init` has is found there.
proof fn lemma_name_in_init(init: Seq<SpecField>, name: Seq<char>)
    requires
        index_of_name(init, name) is Some,
    ensures
        exists|k: int| 0 <= k < init.len() && init[k].name == name,
{
    lemma_index_of_from(init, name, 0);
}

/// A name that a field has is found.
proof fn lemma_name_found(fields: Seq<SpecField>, name: Seq<char>, k: int)
    requires
        0 <= k < fields.len(),
        fields[k].name == name,
    ensures
        index_of_name(fields, name) is Some,
{
    lemma_index_of_from(fields, name, 0);
}

/// Projection push-down changes nothing but the columns that scans read.
pub proof fn law_push_down_only_projects_scans(p: SpecLogicalPlan, acc: Seq<Seq<char>>)
    requires
        spec_push_down(p, acc) is Ok,
    ensures
        without_scan_projections(spec_push_down(p, acc)->Ok_0.0) == without_scan_projections(p),
        scans_read_known_fields(spec_push_down(p, acc)->Ok_0.0),
    decreases p,
{
    match p {
        SpecLogicalPlan::Scan { source, .. } => {
            lemma_scan_projection_known(source_schema(source)->Ok_0, acc);
        },
        SpecLogicalPlan::Selection { input, expr } => {
            let a = extract(expr, p, acc)->Ok_0;
            law_push_down_only_projects_scans(*input, a);
        },
        SpecLogicalPlan::Projection { input, exprs } => {
            let a = extract_all(exprs, *input, acc)->Ok_0;
            law_push_down_only_projects_scans(*input, a);
        },
        SpecLogicalPlan::Aggregate { input, group_expr, aggregate_expr } => {
            let a = extract_all(group_expr, *input, acc)->Ok_0;
            let b = extract_all(aggregate_expr, *input, a)->Ok_0;
            law_push_down_only_projects_scans(*input, b);
        },
        SpecLogicalPlan::Join { left, right, on, .. } => {
            let a = join_names(acc, *left, *right, on)->Ok_0;
            law_push_down_only_projects_scans(*left, a);
            let b = spec_push_down(*left, a)->Ok_0.1;
            law_push_down_only_projects_scans(*right, b);
        },
    }
}

/// The names a step of the collection adds keep the names it had.
pub open spec fn names_grow(before: Seq<Seq<char>>, after: Seq<Seq<char>>) -> bool {
    &&& is_sorted_names(after)
    &&& forall|y: Seq<char>| #[trigger] before.contains(y) ==> after.contains(y)
}

proof fn lemma_insert_grows(acc: Seq<Seq<char>>, x: Seq<char>)
    requires
        is_sorted_names(acc),
    ensures
        names_grow(acc, names_insert(acc, x)),
        names_insert(acc, x).contains(x),
{
    law_names_insert(acc, x);
}

proof fn lemma_extract_grows(e: SpecLogicalExpr, input: SpecLogicalPlan, acc: Seq<Seq<char>>)
    requires
        is_sorted_names(acc),
        extract(e, input, acc) is Ok,
    ensures
        names_grow(acc, extract(e, input, acc)->Ok_0),
    decreases e,
{
    match e {
        SpecLogicalExpr::Column(name) => lemma_insert_grows(acc, name),
        SpecLogicalExpr::ColumnIndex(i) => lemma_insert_grows(acc, plan_schema(input)->Ok_0[i as int].name),
        SpecLogicalExpr::Binary { lhs, rhs, .. } => {
            lemma_extract_grows(*lhs, input, acc);
            lemma_extract_grows(*rhs, input, extract(*lhs, input, acc)->Ok_0);
        },
        SpecLogicalExpr::Alias { expr, .. } => lemma_extract_grows(*expr, input, acc),
        SpecLogicalExpr::Aggregate { expr, .. } => lemma_extract_grows(*expr, input, acc),
        _ => {},
    }
}

proof fn lemma_extract_all_grows(es: Seq<SpecLogicalExpr>, input: SpecLogicalPlan, acc: Seq<Seq<char>>)
    requires
        is_sorted_names(acc),
        extract_all(es, input, acc) is Ok,
    ensures
        names_grow(acc, extract_all(es, input, acc)->Ok_0),
    decreases es.len(),
{
    if es.len() > 0 {
        lemma_extract_all_grows(es.drop_last(), input, acc);
        lemma_extract_grows(es.last(), input, extract_all(es.drop_last(), input, acc)->Ok_0);
    }
}

proof fn lemma_field_names_grow(acc: Seq<Seq<char>>, fields: Seq<SpecField>)
    requires
        is_sorted_names(acc),
    ensures
        names_grow(acc, insert_field_names(acc, fields)),
    decreases fields.len(),
{
    if fields.len() > 0 {
        lemma_field_names_grow(acc, fields.drop_last());
        lemma_insert_grows(insert_field_names(acc, fields.drop_last()), fields.last().name);
    }
}

proof fn lemma_pairs_grow(acc: Seq<Seq<char>>, on: Seq<(Seq<char>, Seq<char>)>)
    requires
        is_sorted_names(acc),
    ensures
        names_grow(acc, insert_pairs(acc, on)),
    decreases on.len(),
{
    if on.len() > 0 {
        lemma_pairs_grow(acc, on.drop_last());
        let a = insert_pairs(acc, on.drop_last());
        lemma_insert_grows(a, on.last().0);
        lemma_insert_grows(names_insert(a, on.last().0), on.last().1);
    }
}

/// Every column an expression names is among the names collected for it.
pub proof fn law_extract_collects_named_columns(e: SpecLogicalExpr, input: SpecLogicalPlan, acc: Seq<Seq<char>>, n: Seq<char>)
    requires
        is_sorted_names(acc),
        extract(e, input, acc) is Ok,
        names_column(e, n),
    ensures
        extract(e, input, acc)->Ok_0.contains(n),
    decreases e,
{
    match e {
        SpecLogicalExpr::Column(c) => lemma_insert_grows(acc, c),
        SpecLogicalExpr::Binary { lhs, rhs, .. } => {
            lemma_extract_grows(*lhs, input, acc);
            let a = extract(*lhs, input, acc)->Ok_0;
            lemma_extract_grows(*rhs, input, a);
            if names_column(*lhs, n) {
                law_extract_collects_named_columns(*lhs, input, acc, n);
            } else {
                law_extract_collects_named_columns(*rhs, input, a, n);
            }
        },
        SpecLogicalExpr::Alias { expr, .. } => law_extract_collects_named_columns(*expr, input, acc, n),
        SpecLogicalExpr::Aggregate { expr, .. } => law_extract_collects_named_columns(*expr, input, acc, n),
        _ => {},
    }
}

/// Every column that some expression of a list names is among the names
/// collected for the list.
pub proof fn law_extract_all_collects_named_columns(
    es: Seq<SpecLogicalExpr>,
    input: SpecLogicalPlan,
    acc: Seq<Seq<char>>,
    i: int,
    n: Seq<char>,
)
    requires
        is_sorted_names(acc),
        extract_all(es, input, acc) is Ok,
        0 <= i < es.len(),
        names_column(es[i], n),
    ensures
        extract_all(es, input, acc)->Ok_0.contains(n),
    decreases es.len(),
{
    let init = es.drop_last();
    lemma_extract_all_grows(init, input, acc);
    let a = extract_all(init, input, acc)->Ok_0;
    lemma_extract_grows(es.last(), input, a);
    if i == es.len() - 1 {
        law_extract_collects_named_columns(es.last(), input, a, n);
    } else {
        assert(init[i] == es[i]);
        law_extract_all_collects_named_columns(init, input, acc, i, n);
    }
}

/// Whether the plan is a projection or a filter directly over a scan that
/// reads the column `n`.
pub open spec fn reads_below(p: SpecLogicalPlan, n: Seq<char>) -> bool {
    match p {
        SpecLogicalPlan::Projection { input, .. } => match *input {
            SpecLogicalPlan::Scan { projection, .. } => projection.contains(n),
            _ => false,
        },
        SpecLogicalPlan::Selection { input, .. } => match *input {
            SpecLogicalPlan::Scan { projection, .. } => projection.contains(n),
            _ => false,
        },
        _ => false,
    }
}

/// After push-down, a scan under a projection or a filter reads every field
/// of its source that an expression of that node names, aliased or not.
pub proof fn law_scan_reads_the_columns_named_above(
    path: Seq<char>,
    source: SpecDataSource,
    projection: Seq<Seq<char>>,
    exprs: Seq<SpecLogicalExpr>,
    filter: SpecLogicalExpr,
    acc: Seq<Seq<char>>,
    n: Seq<char>,
    k: int,
)
    requires
        is_sorted_names(acc),
        source_schema(source) is Ok,
        0 <= k < source_schema(source)->Ok_0.len(),
        source_schema(source)->Ok_0[k].name == n,
    ensures
        ({
            let scan = SpecLogicalPlan::Scan { path, source, projection };
            let p = SpecLogicalPlan::Projection { input: Box::new(scan), exprs };
            (exists|i: int| 0 <= i < exprs.len() && names_column(#[trigger] exprs[i], n)) && spec_push_down(p, acc) is Ok
                ==> reads_below(spec_push_down(p, acc)->Ok_0.0, n)
        }),
        ({
            let scan = SpecLogicalPlan::Scan { path, source, projection };
            let s = SpecLogicalPlan::Selection { input: Box::new(scan), expr: filter };
            names_column(filter, n) && spec_push_down(s, acc) is Ok
                ==> reads_below(spec_push_down(s, acc)->Ok_0.0, n)
        }),
{
    let fields = source_schema(source)->Ok_0;
    let scan = SpecLogicalPlan::Scan { path, source, projection };
    let p = SpecLogicalPlan::Projection { input: Box::new(scan), exprs };
    if (exists|i: int| 0 <= i < exprs.len() && names_column(#[trigger] exprs[i], n)) && spec_push_down(p, acc) is Ok {
        let i = choose|i: int| 0 <= i < exprs.len() && names_column(#[trigger] exprs[i], n);
        law_extract_all_collects_named_columns(exprs, scan, acc, i, n);
        let a = extract_all(exprs, scan, acc)->Ok_0;
        law_scan_projection_members(fields, a, n);
        assert(fields[k].name == n);
        assert(spec_push_down(scan, a)->Ok_0.0 == SpecLogicalPlan::Scan { path, source, projection: scan_projection(fields, a) });
    }
    let s = SpecLogicalPlan::Selection { input: Box::new(scan), expr: filter };
    if names_column(filter, n) && spec_push_down(s, acc) is Ok {
        law_extract_collects_named_columns(filter, s, acc, n);
        let a = extract(filter, s, acc)->Ok_0;
        law_scan_projection_members(fields, a, n);
        assert(fields[k].name == n);
        assert(spec_push_down(scan, a)->Ok_0.0 == SpecLogicalPlan::Scan { path, source, projection: scan_projection(fields, a) });
    }
}

/// The names that projection push-down collects stay an ascending list, and
/// every name it starts from is still among them at the end.
pub proof fn law_push_down_names_only_grow(p: SpecLogicalPlan, acc: Seq<Seq<char>>)
    requires
        is_sorted_names(acc),
        spec_push_down(p, acc) is Ok,
    ensures
        names_grow(acc, spec_push_down(p, acc)->Ok_0.1),
    decreases p,
{
    match p {
        SpecLogicalPlan::Scan { .. } => {},
        SpecLogicalPlan::Selection { input, expr } => {
            lemma_extract_grows(expr, p, acc);
            law_push_down_names_only_grow(*input, extract(expr, p, acc)->Ok_0);
        },
        SpecLogicalPlan::Projection { input, exprs } => {
            lemma_extract_all_grows(exprs, *input, acc);
            law_push_down_names_only_grow(*input, extract_all(exprs, *input, acc)->Ok_0);
        },
        SpecLogicalPlan::Aggregate { input, group_expr, aggregate_expr } => {
            lemma_extract_all_grows(group_expr, *input, acc);
            let a = extract_all(group_expr, *input, acc)->Ok_0;
            lemma_extract_all_grows(aggregate_expr, *input, a);
            law_push_down_names_only_grow(*input, extract_all(aggregate_expr, *input, a)->Ok_0);
        },
        SpecLogicalPlan::Join { left, right, on, .. } => {
            if acc.len() == 0 {
                let ls = plan_schema(*left)->Ok_0;
                let rs = plan_schema(*right)->Ok_0;
                lemma_field_names_grow(acc, ls);
                lemma_field_names_grow(insert_field_names(acc, ls), rs);
                lemma_pairs_grow(insert_field_names(insert_field_names(acc, ls), rs), on);
            } else {
                lemma_pairs_grow(acc, on);
            }
            let a = join_names(acc, *left, *right, on)->Ok_0;
            law_push_down_names_only_grow(*left, a);
            law_push_down_names_only_grow(*right, spec_push_down(*left, a)->Ok_0.1);
        },
    }
}

/// A scan after push-down reads exactly the fields of its source whose names
/// were collected, in the source's order.
pub proof fn law_scan_projection_members(fields: Seq<SpecField>, names: Seq<Seq<char>>, x: Seq<char>)
    ensures
        scan_projection(fields, names).contains(x)
            <==> (names.contains(x) && exists|k: int| 0 <= k < fields.len() && #[trigger] fields[k].name == x),
    decreases fields.len(),
{
    if fields.len() > 0 {
        let init = fields.drop_last();
        law_scan_projection_members(init, names, x);
        let pr = scan_projection(fields, names);
        let pi = scan_projection(init, names);
        if exists|k: int| 0 <= k < init.len() && #[trigger] init[k].name == x {
            let k = choose|k: int| 0 <= k < init.len() && #[trigger] init[k].name == x;
            assert(fields[k].name == x);
        }
        if exists|k: int| 0 <= k < fields.len() && #[trigger] fields[k].name == x {
            let k = choose|k: int| 0 <= k < fields.len() && #[trigger] fields[k].name == x;
            if k < fields.len() - 1 {
                assert(init[k].name == x);
            }
        }
        if names.contains(fields.last().name) {
            assert(pr == pi.push(fields.last().name));
            if pr.contains(x) && x != fields.last().name {
                let j = choose|j: int| 0 <= j < pr.len() && pr[j] == x;
                assert(pi[j] == x);
            }
            if pi.contains(x) {
                let j = choose|j: int| 0 <= j < pi.len() && pi[j] == x;
                assert(pr[j] == x);
            }
            if x == fields.last().name {
                assert(pr[pr.len() - 1] == x);
            }
        }
    }
}

/// The optimizer changes nothing but the columns that scans read, and every
/// scan it leaves names only fields of its source.
pub proof fn law_optimize_only_projects_scans(p: SpecLogicalPlan)
    requires
        spec_projection_push_down(p) is Ok,
    ensures
        without_scan_projections(spec_projection_push_down(p)->Ok_0) == without_scan_projections(p),
        scans_read_known_fields(spec_projection_push_down(p)->Ok_0),
{
    law_push_down_only_projects_scans(p, Seq::empty());
}

/// Adds the column names an expression needs from `input`.
fn extract_columns(expr: &LogicalExpr, input: &LogicalPlan, accum: &mut NameSet) -> (r: Result<(), Error>)
    ensures
        match r {
            Ok(_) => extract(expr@, input@, old(accum)@) == Ok::<Seq<Seq<char>>, SpecError>(final(accum)@),
            Err(e) => extract(expr@, input@, old(accum)@) == Err::<Seq<Seq<char>>, SpecError>(e@),
        },
    decreases expr,
{
    match expr {
        LogicalExpr::Column(name) => {
            accum.insert(name.as_str());
        },
        LogicalExpr::ColumnIndex(i) => {
            let schema = input.schema()?;
            if *i < schema.len() {
                let field = schema.field(*i);
                accum.insert(field.name.as_str());
            } else {
                return Err(Error::ColumnIndexOutOfRange(*i));
            }
        },
        LogicalExpr::Binary { lhs, op: _, rhs } => {
            extract_columns(lhs, input, accum)?;
            extract_columns(rhs, input, accum)?;
        },
        LogicalExpr::Alias { expr: inner, alias: _ } => extract_columns(inner, input, accum)?,
        LogicalExpr::Aggregate { name: _, expr: inner } => extract_columns(inner, input, accum)?,
        LogicalExpr::Cast { .. } => {},
        LogicalExpr::Literal(_) => {},
    }
    Ok(())
}

/// Once a prefix of a list fails, the whole list fails with that error.
proof fn lemma_extract_all_error_persists(es: Seq<SpecLogicalExpr>, input: SpecLogicalPlan, acc: Seq<Seq<char>>, k: int)
    requires
        0 <= k <= es.len(),
        extract_all(es.subrange(0, k), input, acc) is Err,
    ensures
        extract_all(es, input, acc) == extract_all(es.subrange(0, k), input, acc),
    decreases es.len() - k,
{
    if k < es.len() {
        assert(es.subrange(0, k + 1).drop_last() =~= es.subrange(0, k));
        lemma_extract_all_error_persists(es, input, acc, k + 1);
    } else {
        assert(es.subrange(0, k) =~= es);
    }
}

/// Adds the column names a list of expressions needs from `input`.
fn extract_columns_all(exprs: &Vec<std::sync::Arc<LogicalExpr>>, input: &LogicalPlan, accum: &mut NameSet) -> (r: Result<(), Error>)
    ensures
        match r {
            Ok(_) => extract_all(exprs_view(exprs@), input@, old(accum)@) == Ok::<Seq<Seq<char>>, SpecError>(final(accum)@),
            Err(e) => extract_all(exprs_view(exprs@), input@, old(accum)@) == Err::<Seq<Seq<char>>, SpecError>(e@),
        },
{
    let ghost es = exprs_view(exprs@);
    let ghost acc0 = accum@;
    let mut i: usize = 0;
    assert(es.subrange(0, 0) =~= Seq::<SpecLogicalExpr>::empty());
    while i < exprs.len()
        invariant
            i <= exprs.len(),
            es == exprs_view(exprs@),
            acc0 == old(accum)@,
            extract_all(es.subrange(0, i as int), input@, acc0) == Ok::<Seq<Seq<char>>, SpecError>(accum@),
        decreases exprs.len() - i,
    {
        let ghost prefix = es.subrange(0, i + 1);
        assert(prefix.drop_last() =~= es.subrange(0, i as int));
        assert(prefix.last() == expr_view(*exprs@[i as int]));
        match extract_columns(&exprs[i], input, accum) {
            Ok(_) => {},
            Err(e) => {
                proof { lemma_extract_all_error_persists(es, input@, acc0, i + 1); }
                return Err(e);
            },
        }
        i = i + 1;
    }
    assert(es.subrange(0, exprs@.len() as int) =~= es);
    Ok(())
}

/// The names of the fields of `schema` that `names` holds, in order.
fn projected_names(schema: &Schema, names: &NameSet) -> (r: Vec<String>)
    ensures
        strings_view(r@) == scan_projection(schema@, names@),
{
    let mut out: Vec<String> = Vec::new();
    let mut i: usize = 0;
    assert(schema@.subrange(0, 0) =~= Seq::<SpecField>::empty());
    assert(strings_view(out@) =~= Seq::<Seq<char>>::empty());
    while i < schema.fields.len()
        invariant
            i <= schema.fields.len(),
            strings_view(out@) == scan_projection(schema@.subrange(0, i as int), names@),
        decreases schema.fields.len() - i,
    {
        assert(schema@.subrange(0, i + 1).drop_last() =~= schema@.subrange(0, i as int));
        assert(schema@.subrange(0, i + 1).last() == schema@[i as int]);
        if names.contains(schema.fields[i].name.as_str()) {
            let ghost prev = out@;
            out.push(schema.fields[i].name.clone());
            assert(strings_view(out@) =~= strings_view(prev).push(schema@[i as int].name));
        }
        i = i + 1;
    }
    assert(schema@.subrange(0, schema@.len() as int) =~= schema@);
    out
}

/// Adds the names of the fields of a schema.
fn insert_names_of(names: &mut NameSet, schema: &Schema)
    ensures
        final(names)@ == insert_field_names(old(names)@, schema@),
{
    let mut i: usize = 0;
    assert(schema@.subrange(0, 0) =~= Seq::<SpecField>::empty());
    while i < schema.fields.len()
        invariant
            i <= schema.fields.len(),
            names@ == insert_field_names(old(names)@, schema@.subrange(0, i as int)),
        decreases schema.fields.len() - i,
    {
        assert(schema@.subrange(0, i + 1).drop_last() =~= schema@.subrange(0, i as int));
        names.insert(schema.fields[i].name.as_str());
        i = i + 1;
    }
    assert(schema@.subrange(0, schema@.len() as int) =~= schema@);
}

/// Adds both names of each join pair.
fn insert_pair_names(names: &mut NameSet, on: &Vec<(String, String)>)
    ensures
        final(names)@ == insert_pairs(old(names)@, pairs_view(on@)),
{
    let mut i: usize = 0;
    assert(pairs_view(on@).subrange(0, 0) =~= Seq::<(Seq<char>, Seq<char>)>::empty());
    while i < on.len()
        invariant
            i <= on.len(),
            names@ == insert_pairs(old(names)@, pairs_view(on@).subrange(0, i as int)),
        decreases on.len() - i,
    {
        assert(pairs_view(on@).subrange(0, i + 1).drop_last() =~= pairs_view(on@).subrange(0, i as int));
        names.insert(on[i].0.as_str());
        names.insert(on[i].1.as_str());
        i = i + 1;
    }
    assert(pairs_view(on@).subrange(0, on@.len() as int) =~= pairs_view(on@));
}

/// Rewrites a plan so that its scans read only the columns that the nodes
/// above them need; `column_names` collects those columns.
fn push_down(plan: &LogicalPlan, column_names: &mut NameSet) -> (r: Result<LogicalPlan, Error>)
    ensures
        match r {
            Ok(q) => spec_push_down(plan@, old(column_names)@)
                == Ok::<(SpecLogicalPlan, Seq<Seq<char>>), SpecError>((q@, final(column_names)@)),
            Err(e) => spec_push_down(plan@, old(column_names)@)
                == Err::<(SpecLogicalPlan, Seq<Seq<char>>), SpecError>(e@),
        },
    decreases plan,
{
    match plan {
        LogicalPlan::Scan(scan) => {
            let schema = scan.data_source.schema()?;
            let projection = projected_names(&schema, column_names);
            Ok(LogicalPlan::Scan(Scan {
                path: scan.path.clone(),
                data_source: scan.data_source.duplicate(),
                projection,
            }))
        },
        LogicalPlan::Selection(selection) => {
            extract_columns(&selection.expr, plan, column_names)?;
            let input = push_down(&selection.input, column_names)?;
            Ok(LogicalPlan::Selection(Selection { input: Box::new(input), expr: share(&selection.expr) }))
        },
        LogicalPlan::Projection(projection) => {
            extract_columns_all(&projection.expr, &projection.input, column_names)?;
            let input = push_down(&projection.input, column_names)?;
            Ok(LogicalPlan::Projection(Projection { input: Box::new(input), expr: share_all(&projection.expr) }))
        },
        LogicalPlan::Aggregate(aggregate) => {
            extract_columns_all(&aggregate.group_expr, &aggregate.input, column_names)?;
            extract_columns_all(&aggregate.aggregate_expr, &aggregate.input, column_names)?;
            let input = push_down(&aggregate.input, column_names)?;
            Ok(LogicalPlan::Aggregate(Aggregate {
                input: Box::new(input),
                group_expr: share_all(&aggregate.group_expr),
                aggregate_expr: share_all(&aggregate.aggregate_expr),
            }))
        },
        LogicalPlan::Join(join) => {
            if column_names.is_empty() {
                let left_schema = join.left.schema()?;
                let right_schema = join.right.schema()?;
                insert_names_of(column_names, &left_schema);
                insert_names_of(column_names, &right_schema);
            }
            insert_pair_names(column_names, &join.on);
            let left = push_down(&join.left, column_names)?;
            let right = push_down(&join.right, column_names)?;
            Ok(LogicalPlan::Join(Join {
                left: Box::new(left),
                right: Box::new(right),
                join_type: join.join_type,
                on: copy_pairs(&join.on),
            }))
        },
    }
}

fn projection_push_down(plan: &LogicalPlan) -> (r: Result<LogicalPlan, Error>)
    ensures
        result_view(r) == spec_projection_push_down(plan@),
{
    let mut accum = NameSet::new();
    push_down(plan, &mut accum)
}

/// The rewrites that the optimizer knows.
pub enum OptimizerRule {
    ProjectionPushDown,
}

impl OptimizerRule {
    /// Applies the rule to a plan.
    pub fn optimize(&self, plan: &LogicalPlan) -> (r: Result<LogicalPlan, Error>)
        ensures
            match self {
                OptimizerRule::ProjectionPushDown => result_view(r) == spec_projection_push_down(plan@),
            },
    {
        match self {
            OptimizerRule::ProjectionPushDown => projection_push_down(plan),
        }
    }
}

/// Applies every rule, in order.
pub fn optimize(plan: LogicalPlan) -> (r: Result<LogicalPlan, Error>)
    ensures
        result_view(r) == spec_projection_push_down(plan@),
{
    let rules: Vec<OptimizerRule> = vec![OptimizerRule::ProjectionPushDown];
    let ghost given = plan@;
    let mut current = plan;
    let mut i: usize = 0;
    while i < rules.len()
        invariant
            i <= rules.len(),
            given == plan@,
            rules@ == seq![OptimizerRule::ProjectionPushDown],
            i == 0 ==> current@ == given,
            i == 1 ==> spec_projection_push_down(given) == Ok::<SpecLogicalPlan, SpecError>(current@),
        decreases rules.len() - i,
    {
        current = rules[i].optimize(&current)?;
        i = i + 1;
    }
    Ok(current)
}

} // verus!
