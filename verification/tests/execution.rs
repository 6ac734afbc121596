use query_engine::data_source::DataSource;
use query_engine::data_source::csv::CsvDataSource;
use query_engine::dataframe::DataFrame;
use query_engine::error::Error;
use query_engine::execution::ExecutionContext;
use query_engine::logical_plan::{LogicalPlan, Scan};
use query_engine::schema::{DataType, Field, Schema};

fn state_salary() -> Schema {
    Schema::new(vec![
        Field::new("state".to_string(), DataType::Utf8, true),
        Field::new("salary".to_string(), DataType::Int64, true),
    ])
}

fn scan(path: &str) -> DataFrame {
    let schema = state_salary();
    DataFrame::new(LogicalPlan::Scan(Scan {
        path: path.to_string(),
        data_source: DataSource::Csv(CsvDataSource::new(path).with_schema(schema)),
        projection: vec![],
    }))
}

#[test]
fn sql_reads_a_registered_table() -> Result<(), Error> {
    let mut ctx = ExecutionContext::default();
    ctx.register("employee", scan("a.csv"));
    let df = ctx.sql("SELECT state FROM employee")?;
    assert_eq!(df.plan().to_string().trim_end(), "Projection: #state\n  Scan: a.csv; projection=None");
    Ok(())
}

#[test]
fn register_replaces_a_table_of_the_same_name() -> Result<(), Error> {
    let mut ctx = ExecutionContext::default();
    ctx.register("employee", scan("a.csv"));
    ctx.register("other", scan("c.csv"));
    ctx.register("employee", scan("b.csv"));
    let df = ctx.sql("SELECT state FROM employee")?;
    assert_eq!(df.plan().to_string().trim_end(), "Projection: #state\n  Scan: b.csv; projection=None");
    let df = ctx.sql("SELECT state FROM other")?;
    assert_eq!(df.plan().to_string().trim_end(), "Projection: #state\n  Scan: c.csv; projection=None");
    Ok(())
}

#[test]
fn sql_on_an_empty_context() {
    let ctx = ExecutionContext::default();
    assert_eq!(ctx.sql("SELECT a FROM t").unwrap_err(), Error::NoSuchTable("t".to_string()));
}

#[test]
fn register_csv_scans_the_file() -> Result<(), Error> {
    let mut ctx = ExecutionContext::default();
    ctx.register_csv("employee", "employee.csv", Some(state_salary()))?;
    let df = ctx.sql("SELECT state FROM employee WHERE salary = 10")?;
    assert_eq!(
        df.plan().to_string().trim_end(),
        "Projection: #state\n  Filter: #salary = 10\n    Projection: #state, #salary\n      Scan: employee.csv; projection=None"
    );
    let physical = ctx.execute(df.plan())?;
    assert_eq!(
        physical.to_string().lines().last(),
        Some("      ScanExec: [(state,Utf8),(salary,Int64)]; projection=[state,salary]")
    );
    Ok(())
}

#[test]
fn a_file_whose_schema_was_not_read_cannot_be_planned() -> Result<(), Error> {
    let mut ctx = ExecutionContext::default();
    ctx.register_csv("employee", "missing.csv", None)?;
    assert_eq!(
        ctx.sql("SELECT state FROM employee WHERE salary = 10").unwrap_err(),
        Error::SchemaUnavailable("missing.csv".to_string())
    );
    Ok(())
}

#[test]
fn parquet_scans_the_file() -> Result<(), Error> {
    let df = ExecutionContext::parquet("data.parquet", Some(state_salary()))?;
    assert_eq!(df.plan().to_string().trim_end(), "Scan: data.parquet; projection=None");
    let names: Vec<String> = df.plan().schema()?.fields.iter().map(|f| f.name.clone()).collect();
    assert_eq!(names, vec!["state".to_string(), "salary".to_string()]);
    Ok(())
}

#[test]
fn execute_optimizes_then_plans() -> Result<(), Error> {
    let mut ctx = ExecutionContext::default();
    ctx.register("employee", scan("a.csv"));
    let df = ctx.sql("SELECT state, SUM(salary) FROM employee GROUP BY state")?;
    let physical = ctx.execute(df.plan())?;
    assert_eq!(
        physical.to_string().trim_end(),
        "ProjectionExec: #0, #1\n  HashAggregrateExec: group_expr=[#0], aggregate_expr=[SUM(#1)]\n    ScanExec: [(state,Utf8),(salary,Int64)]; projection=[state,salary]"
    );
    Ok(())
}

#[test]
fn syntax_errors_come_back() {
    let ctx = ExecutionContext::default();
    assert_eq!(ctx.sql("SELECT 'open").unwrap_err(), Error::UnterminatedString("'open".to_string()));
}
