//! The entry point: registered tables, SQL in, plans out.
use vstd::prelude::*;
use vstd::string::StringSliceAdditionalSpecFns;

use crate::data_source::{DataSource, SpecDataSource};
use crate::data_source::csv::CsvDataSource;
use crate::data_source::parquet::ParquetDataSource;
use crate::dataframe::DataFrame;
use crate::error::{Error, SpecError, result_view};
use crate::logical_plan::{LogicalPlan, Scan, SpecLogicalPlan};
use crate::optimizer::{optimize, spec_projection_push_down};
use crate::physical_plan::{PhysicalPlan, SpecPhysicalPlan};
use crate::query_planner::{create_physical_plan, spec_physical_plan};
use crate::sql::expr::{SpecSqlExpr, SqlExpr};
use crate::sql::parser::{Parsed, Parser, lemma_select_view, spec_parse};
use crate::sql::planner::{create_dataframe, lookup_table, spec_create_dataframe, tables_view};
use crate::sql::token_stream::tokens_of;
use crate::sql::tokenizer::{Tokenizer, spec_tokenize};
use crate::schema::{Schema, SpecField};
use crate::text::str_eq;

verus! {

/// The tables, by name, that a list of named plans holds: the first entry
/// of each name counts.
pub open spec fn table_map(tables: Seq<(Seq<char>, SpecLogicalPlan)>) -> Map<Seq<char>, SpecLogicalPlan> {
    Map::new(|k: Seq<char>| lookup_table(tables, k) is Some, |k: Seq<char>| lookup_table(tables, k)->Some_0)
}

/// Whether the lists of a `SELECT` are short enough to be indexed together.
pub open spec fn lengths_fit(e: SpecSqlExpr) -> bool {
    e matches SpecSqlExpr::Select(s) ==> s.group_by.len() + s.projection.len() <= usize::MAX
}

/// The plan of a SQL text over the given tables: tokenize, parse, plan.
pub open spec fn spec_sql(sql: Seq<u8>, tables: Seq<(Seq<char>, SpecLogicalPlan)>) -> Result<SpecLogicalPlan, SpecError> {
    match spec_tokenize(sql, 0) {
        Err(e) => Err(e),
        Ok(spans) => match spec_parse(tokens_of(spans), 0) {
            Parsed::Done(e, _) => if lengths_fit(e) {
                spec_create_dataframe(e, tables)
            } else {
                Err(SpecError::Unsupported)
            },
            Parsed::Failed(err, _) => Err(err),
            Parsed::Panicked => Err(SpecError::Unsupported),
        },
    }
}

/// The physical plan that runs a logical plan: optimized, then planned.
pub open spec fn spec_execute(plan: SpecLogicalPlan) -> Result<SpecPhysicalPlan, SpecError> {
    match spec_projection_push_down(plan) {
        Err(e) => Err(e),
        Ok(q) => spec_physical_plan(q),
    }
}

/// The plan of a file scan that reads every column.
/// The fields of a schema that was read, if it was.
pub open spec fn schema_read(schema: Option<Schema>) -> Option<Seq<SpecField>> {
    match schema {
        Some(s) => Some(s@),
        None => None,
    }
}

pub open spec fn file_scan(path: Seq<char>, source: crate::data_source::SpecDataSource) -> SpecLogicalPlan {
    SpecLogicalPlan::Scan { path, source, projection: Seq::empty() }
}

/// Registered tables and the way from SQL to plans over them.
pub struct ExecutionContext {
    tables: Vec<(String, DataFrame)>,
}

impl View for ExecutionContext {
    type V = Map<Seq<char>, SpecLogicalPlan>;

    closed spec fn view(&self) -> Map<Seq<char>, SpecLogicalPlan> {
        table_map(tables_view(self.tables@))
    }
}

/// Replacing the first entry of a name changes what that name finds and
/// nothing else.
proof fn lemma_lookup_after_update(s: Seq<(Seq<char>, SpecLogicalPlan)>, i: int, plan: SpecLogicalPlan, k: Seq<char>)
    requires
        0 <= i < s.len(),
        forall|j: int| 0 <= j < i ==> s[j].0 != s[i].0,
    ensures
        lookup_table(s.update(i, (s[i].0, plan)), k) == if k == s[i].0 { Some(plan) } else { lookup_table(s, k) },
    decreases i,
{
    let t = s.update(i, (s[i].0, plan));
    if i > 0 {
        let u = s.drop_first();
        assert(t.drop_first() =~= u.update(i - 1, (s[i].0, plan)));
        assert(u[i - 1] == s[i]);
        assert forall|j: int| 0 <= j < i - 1 implies (#[trigger] u[j]).0 != u[i - 1].0 by {
            assert(u[j] == s[j + 1]);
        }
        lemma_lookup_after_update(u, i - 1, plan, k);
        assert(s[0].0 != s[i].0);
        assert(t[0] == s[0]);
    } else {
        assert(t.drop_first() =~= s.drop_first());
    }
}

/// Appending an entry for a name that nothing finds makes that name find it
/// and changes nothing else.
proof fn lemma_lookup_after_push(s: Seq<(Seq<char>, SpecLogicalPlan)>, name: Seq<char>, plan: SpecLogicalPlan, k: Seq<char>)
    requires
        lookup_table(s, name) is None,
    ensures
        lookup_table(s.push((name, plan)), k) == if k == name { Some(plan) } else { lookup_table(s, k) },
    decreases s.len(),
{
    let t = s.push((name, plan));
    if s.len() > 0 {
        assert(t.drop_first() =~= s.drop_first().push((name, plan)));
        assert(t[0] == s[0]);
        assert(s[0].0 != name);
        assert(lookup_table(s.drop_first(), name) is None);
        lemma_lookup_after_push(s.drop_first(), name, plan, k);
        if s[0].0 == k {
            assert(lookup_table(t, k) == Some(s[0].1));
        } else {
            assert(lookup_table(t, k) == lookup_table(t.drop_first(), k));
            assert(lookup_table(s, k) == lookup_table(s.drop_first(), k));
        }
    } else {
        assert(t.drop_first() =~= Seq::<(Seq<char>, SpecLogicalPlan)>::empty());
        assert(t[0] == (name, plan));
    }
}

impl Default for ExecutionContext {
    fn default() -> (c: ExecutionContext)
        ensures
            c@ == Map::<Seq<char>, SpecLogicalPlan>::empty(),
    {
        let c = ExecutionContext { tables: Vec::new() };
        assert(c@ =~= Map::<Seq<char>, SpecLogicalPlan>::empty());
        c
    }
}

impl ExecutionContext {
    /// The registered tables, in the order of registration.
    pub closed spec fn tables(&self) -> Seq<(Seq<char>, SpecLogicalPlan)> {
        tables_view(self.tables@)
    }

    /// What a table name finds is what the view maps it to.
    pub proof fn lemma_view_is_lookup(&self, name: Seq<char>)
        ensures
            lookup_table(self.tables(), name) == if self@.contains_key(name) { Some(self@[name]) } else { None },
    {
    }

    /// The plan of a SQL query over the registered tables.
    pub fn sql(&self, sql: &str) -> (r: Result<DataFrame, Error>)
        ensures
            result_view(r) == spec_sql(sql.spec_bytes(), self.tables()),
    {
        let tokenizer = Tokenizer::new(sql);
        let stream = tokenizer.stream()?;
        let mut parser = Parser::new(stream);
        let expr = parser.parse()?;
        let fits = match &expr {
            SqlExpr::Select(select) => {
                proof { lemma_select_view(*select); }
                select.group_by.len() <= usize::MAX - select.projection.len()
            },
            _ => true,
        };
        if !fits {
            return Err(Error::Unsupported);
        }
        create_dataframe(expr, &self.tables)
    }

    /// Registers a data frame under a name; a table of that name is replaced.
    pub fn register(&mut self, table_name: &str, df: DataFrame)
        ensures
            final(self)@ == old(self)@.insert(table_name@, df@),
    {
        let ghost s = tables_view(self.tables@);
        let mut i: usize = 0;
        while i < self.tables.len()
            invariant
                i <= self.tables.len(),
                s == tables_view(self.tables@),
                self.tables@ == old(self).tables@,
                forall|j: int| 0 <= j < i ==> s[j].0 != table_name@,
            decreases self.tables.len() - i,
        {
            if str_eq(self.tables[i].0.as_str(), table_name) {
                let ghost plan = df@;
                self.tables.set(i, (String::from_str(table_name), df));
                proof {
                    assert(tables_view(self.tables@) =~= s.update(i as int, (s[i as int].0, plan)));
                    assert forall|k: Seq<char>| true implies lookup_table(tables_view(self.tables@), k)
                        == (if k == table_name@ { Some(plan) } else { lookup_table(s, k) }) by {
                        lemma_lookup_after_update(s, i as int, plan, k);
                    }
                    assert(self@ =~= old(self)@.insert(table_name@, plan));
                }
                return;
            }
            i = i + 1;
        }
        proof {
            assert(lookup_table(s, table_name@) is None) by {
                lemma_lookup_absent(s, table_name@);
            }
        }
        let ghost plan = df@;
        self.tables.push((String::from_str(table_name), df));
        proof {
            assert(tables_view(self.tables@) =~= s.push((table_name@, plan)));
            assert forall|k: Seq<char>| true implies lookup_table(tables_view(self.tables@), k)
                == (if k == table_name@ { Some(plan) } else { lookup_table(s, k) }) by {
                lemma_lookup_after_push(s, table_name@, plan, k);
            }
            assert(self@ =~= old(self)@.insert(table_name@, plan));
        }
    }

    /// A data frame over a CSV file with a header row.  `schema` is the
    /// file's schema as the caller read it, `None` where it could not be
    /// read; planning over the file then fails with `SchemaUnavailable`.
    pub fn csv(filename: &str, schema: Option<Schema>) -> (r: Result<DataFrame, Error>)
        ensures
            r matches Ok(df) && df@ == file_scan(
                filename@,
                SpecDataSource::Csv { path: filename@, schema: schema_read(schema) },
            ),
    {
        let source = CsvDataSource::new(filename);
        let source = match schema {
            Some(s) => source.with_schema(s),
            None => source,
        };
        let plan = LogicalPlan::Scan(Scan {
            path: String::from_str(filename),
            data_source: DataSource::Csv(source),
            projection: Vec::new(),
        });
        assert(plan@->projection =~= Seq::<Seq<char>>::empty());
        Ok(DataFrame::new(plan))
    }

    /// Registers a CSV file under a table name, with its schema as the
    /// caller read it.
    pub fn register_csv(&mut self, table_name: &str, file_name: &str, schema: Option<Schema>) -> (r: Result<(), Error>)
        ensures
            r is Ok,
            final(self)@ == old(self)@.insert(
                table_name@,
                file_scan(file_name@, SpecDataSource::Csv { path: file_name@, schema: schema_read(schema) }),
            ),
    {
        let df = ExecutionContext::csv(file_name, schema)?;
        self.register(table_name, df);
        Ok(())
    }

    /// A data frame over a Parquet file.  `schema` is the file's schema as
    /// the caller read it, `None` where it could not be read.
    pub fn parquet(filename: &str, schema: Option<Schema>) -> (r: Result<DataFrame, Error>)
        ensures
            r matches Ok(df) && df@ == file_scan(
                filename@,
                SpecDataSource::Parquet { path: filename@, schema: schema_read(schema) },
            ),
    {
        let source = ParquetDataSource::new(filename);
        let source = match schema {
            Some(s) => source.with_schema(s),
            None => source,
        };
        let plan = LogicalPlan::Scan(Scan {
            path: String::from_str(filename),
            data_source: DataSource::Parquet(source),
            projection: Vec::new(),
        });
        assert(plan@->projection =~= Seq::<Seq<char>>::empty());
        Ok(DataFrame::new(plan))
    }

    /// The physical plan that runs a logical plan: the plan is optimized
    /// first.  Running it reads the data sources.
    pub fn execute(self, plan: LogicalPlan) -> (r: Result<PhysicalPlan, Error>)
        ensures
            result_view(r) == spec_execute(plan@),
    {
        let plan = optimize(plan)?;
        create_physical_plan(&plan)
    }
}

/// A name that no entry has finds nothing.
proof fn lemma_lookup_absent(s: Seq<(Seq<char>, SpecLogicalPlan)>, name: Seq<char>)
    requires
        forall|j: int| 0 <= j < s.len() ==> s[j].0 != name,
    ensures
        lookup_table(s, name) is None,
    decreases s.len(),
{
    if s.len() > 0 {
        assert(s[0].0 != name);
        assert forall|j: int| 0 <= j < s.drop_first().len() implies s.drop_first()[j].0 != name by {
            assert(s.drop_first()[j] == s[j + 1]);
        }
        lemma_lookup_absent(s.drop_first(), name);
    }
}

} // verus!
