use query_engine::data_source::DataSource;
use query_engine::data_source::csv::CsvDataSource;
use query_engine::dataframe::DataFrame;
use query_engine::error::Error;
use query_engine::logical_plan::{JoinType, LogicalPlan, Scan};
use query_engine::optimizer::{OptimizerRule, optimize};
use query_engine::schema::{DataType, Field, Schema};
use query_engine::sql::parser::Parser;
use query_engine::sql::planner::create_dataframe;
use query_engine::sql::tokenizer::Tokenizer;

fn employee_schema() -> Schema {
    Schema::new(vec![
        Field::new("id".to_string(), DataType::Int64, true),
        Field::new("first_name".to_string(), DataType::Utf8, true),
        Field::new("last_name".to_string(), DataType::Utf8, true),
        Field::new("state".to_string(), DataType::Utf8, true),
        Field::new("job_title".to_string(), DataType::Utf8, true),
        Field::new("salary".to_string(), DataType::Int64, true),
    ])
}

fn employee_scan() -> LogicalPlan {
    LogicalPlan::Scan(Scan {
        path: "employee".to_string(),
        data_source: DataSource::Csv(CsvDataSource::new("test_data/employee.csv").with_schema(employee_schema())),
        projection: vec![],
    })
}

fn plan(sql: &str) -> Result<LogicalPlan, Error> {
    let stream = Tokenizer::new(sql).stream()?;
    let sql_expr = Parser::new(stream).parse()?;
    let tables = vec![("employee".to_string(), DataFrame::new(employee_scan()))];
    Ok(create_dataframe(sql_expr, &tables)?.plan())
}

fn text(plan: &LogicalPlan) -> String {
    plan.to_string().trim_end().to_string()
}

#[test]
fn test_projection_push_down() -> Result<(), Error> {
    let plan = plan("SELECT id, first_name, last_name FROM employee WHERE state = 'CO'")?;
    let plan = OptimizerRule::ProjectionPushDown.optimize(&plan)?;
    assert_eq!(
        text(&plan),
        "Projection: #id, #first_name, #last_name\n  Filter: #state = 'CO'\n    Projection: #id, #first_name, #last_name, #state\n      Scan: employee; projection=[id,first_name,last_name,state]"
    );
    Ok(())
}

#[test]
fn push_down_follows_the_source_order() -> Result<(), Error> {
    let plan = plan("SELECT salary, id FROM employee")?;
    let plan = optimize(plan)?;
    assert_eq!(text(&plan), "Projection: #salary, #id\n  Scan: employee; projection=[id,salary]");
    Ok(())
}

#[test]
fn push_down_resolves_column_indices() -> Result<(), Error> {
    let plan = plan("SELECT state, MAX(salary) FROM employee GROUP BY state")?;
    let plan = optimize(plan)?;
    assert_eq!(
        text(&plan),
        "Projection: #0, #1\n  Aggregate: group_expr=[#state], aggregate_expr=[MAX(#salary)]\n    Scan: employee; projection=[state,salary]"
    );
    Ok(())
}

#[test]
fn push_down_keeps_everything_but_scan_projections() -> Result<(), Error> {
    let before = plan("SELECT last_name FROM employee WHERE state = 'CA'")?;
    let after = optimize(before.duplicate())?;
    let lines_before: Vec<String> = text(&before).lines().map(|l| l.to_string()).collect();
    let lines_after: Vec<String> = text(&after).lines().map(|l| l.to_string()).collect();
    assert_eq!(lines_before.len(), lines_after.len());
    assert_eq!(lines_before[..3], lines_after[..3]);
    assert_eq!(lines_after[3], "      Scan: employee; projection=[last_name,state]");
    Ok(())
}

#[test]
fn push_down_through_a_join_needs_both_schemas() -> Result<(), Error> {
    let left = DataFrame::new(employee_scan());
    let right = DataFrame::new(employee_scan());
    let joined = left.join(right, JoinType::Inner, vec![("id".to_string(), "id".to_string())]);
    let plan = optimize(joined.plan())?;
    assert_eq!(
        text(&plan),
        "Join: type=inner, on=id=id  Scan: employee; projection=[id,first_name,last_name,state,job_title,salary]\n  Scan: employee; projection=[id,first_name,last_name,state,job_title,salary]"
    );
    Ok(())
}

#[test]
fn push_down_needs_the_schema_of_a_file() {
    let scan = LogicalPlan::Scan(Scan {
        path: "employee".to_string(),
        data_source: DataSource::Csv(CsvDataSource::new("employee.csv")),
        projection: vec![],
    });
    assert_eq!(optimize(scan).unwrap_err(), Error::SchemaUnavailable("employee.csv".to_string()));
}

#[test]
fn push_down_reports_a_column_index_out_of_range() {
    let df = DataFrame::new(employee_scan()).project(vec![query_engine::dataframe::col_index(9)]);
    assert_eq!(optimize(df.plan()).unwrap_err(), Error::ColumnIndexOutOfRange(9));
}
