use query_engine::data_source::DataSource;
use query_engine::data_source::csv::CsvDataSource;
use query_engine::dataframe::DataFrame;
use query_engine::error::Error;
use query_engine::logical_plan::{LogicalPlan, Scan};
use query_engine::schema::{DataType, Field, Schema};
use query_engine::sql::expr::{Select, SqlExpr, SqlIdentifier};
use query_engine::sql::parser::Parser;
use query_engine::sql::planner::{cast_type, create_dataframe, is_plain_aggregate_name};
use query_engine::sql::tokenizer::Tokenizer;

fn employee_schema() -> Schema {
    Schema::new(vec![
        Field::new("id".to_string(), DataType::Int64, true),
        Field::new("first_name".to_string(), DataType::Utf8, true),
        Field::new("last_name".to_string(), DataType::Utf8, true),
        Field::new("state".to_string(), DataType::Utf8, true),
        Field::new("job_title".to_string(), DataType::Utf8, true),
        Field::new("salary".to_string(), DataType::Int64, true),
    ])
}

fn plan(sql: &str) -> Result<LogicalPlan, Error> {
    let scan = LogicalPlan::Scan(Scan {
        path: "employee".to_string(),
        data_source: DataSource::Csv(CsvDataSource::new("test_data/employee.csv").with_schema(employee_schema())),
        projection: vec![],
    });
    let stream = Tokenizer::new(sql).stream()?;
    let mut parser = Parser::new(stream);
    let sql_expr = parser.parse()?;
    let tables = vec![("employee".to_string(), DataFrame::new(scan))];
    let df = create_dataframe(sql_expr, &tables)?;
    Ok(df.plan())
}

fn text(plan: &LogicalPlan) -> String {
    plan.to_string().trim_end().to_string()
}

#[test]
fn simple_select() -> Result<(), Error> {
    let plan = plan("SELECT state FROM employee")?;
    assert_eq!(text(&plan), "Projection: #state\n  Scan: employee; projection=None");
    Ok(())
}

#[test]
fn select_with_filter() -> Result<(), Error> {
    let plan = plan("SELECT state FROM employee WHERE state = 'CA'")?;
    assert_eq!(
        text(&plan),
        "Filter: #state = 'CA'\n  Projection: #state\n    Scan: employee; projection=None"
    );
    Ok(())
}

#[test]
fn select_with_filter_not_in_projection() -> Result<(), Error> {
    let plan = plan("SELECT last_name FROM employee WHERE state = 'CA'")?;
    assert_eq!(
        text(&plan),
        "Projection: #last_name\n  Filter: #state = 'CA'\n    Projection: #last_name, #state\n      Scan: employee; projection=None"
    );
    Ok(())
}

#[test]
fn select_filter_on_projection() -> Result<(), Error> {
    let plan = plan("SELECT last_name AS foo FROM employee WHERE foo = 'Einstein'")?;
    assert_eq!(
        text(&plan),
        "Filter: #foo = 'Einstein'\n  Projection: #last_name as foo\n    Scan: employee; projection=None"
    );
    Ok(())
}

#[test]
fn select_filter_on_projection_and_not() -> Result<(), Error> {
    let plan = plan(
        r#"
SELECT last_name AS foo
FROM employee 
WHERE foo = 'Einstein' AND state = 'CA'
"#,
    )?;
    assert_eq!(
        text(&plan),
        "Projection: #last_name as foo\n  Filter: #foo = 'Einstein' AND #state = 'CA'\n    Projection: #last_name as foo, #state\n      Scan: employee; projection=None"
    );
    Ok(())
}

#[test]
fn planner_plan_aggregate_query() -> Result<(), Error> {
    let plan = plan("SELECT state, MAX(salary) FROM employee GROUP BY state")?;
    assert_eq!(
        text(&plan),
        "Projection: #0, #1\n  Aggregate: group_expr=[#state], aggregate_expr=[MAX(#salary)]\n    Scan: employee; projection=None"
    );
    Ok(())
}

#[test]
fn plan_aggregate_query_with_having() -> Result<(), Error> {
    let plan = plan("SELECT state, MAX(salary) FROM employee GROUP BY state HAVING MAX(salary) > 10")?;
    assert_eq!(
        text(&plan),
        "Filter: MAX(#salary) > 10\n  Projection: #0, #1\n    Aggregate: group_expr=[#state], aggregate_expr=[MAX(#salary)]\n      Scan: employee; projection=None"
    );
    Ok(())
}

#[test]
fn plan_aggregate_query_aggr_first() -> Result<(), Error> {
    let plan = plan("SELECT MAX(salary), state FROM employee GROUP BY state")?;
    assert_eq!(
        text(&plan),
        "Projection: #1, #0\n  Aggregate: group_expr=[#state], aggregate_expr=[MAX(#salary)]\n    Scan: employee; projection=None"
    );
    Ok(())
}

#[test]
fn plan_aggregate_query_with_filter() -> Result<(), Error> {
    let plan = plan("SELECT state, MAX(salary) FROM employee WHERE salary > 50000 GROUP BY state")?;
    assert_eq!(
        text(&plan),
        "Projection: #0, #1\n  Aggregate: group_expr=[#state], aggregate_expr=[MAX(#salary)]\n    Filter: #salary > 50000\n      Projection: #state, #salary\n        Scan: employee; projection=None"
    );
    Ok(())
}

#[test]
fn plan_aggregate_query_with_cast() -> Result<(), Error> {
    let plan = plan("SELECT state, MAX(CAST(salary AS double)) FROM employee GROUP BY state")?;
    assert_eq!(
        text(&plan),
        "Projection: #0, #1\n  Aggregate: group_expr=[#state], aggregate_expr=[MAX(#salary as Float64)]\n    Scan: employee; projection=None"
    );
    Ok(())
}

#[test]
fn unknown_table_is_an_error() {
    assert_eq!(plan("SELECT a FROM nowhere").unwrap_err(), Error::NoSuchTable("nowhere".to_string()));
}

#[test]
fn not_a_select_is_an_error() {
    assert_eq!(plan("1 + 2").unwrap_err(), Error::NotASelect);
}

fn select_over_employee(projection: Vec<SqlExpr>, group_by: Vec<SqlExpr>) -> Result<LogicalPlan, Error> {
    let scan = LogicalPlan::Scan(Scan {
        path: "employee".to_string(),
        data_source: DataSource::Csv(CsvDataSource::new("test_data/employee.csv").with_schema(employee_schema())),
        projection: vec![],
    });
    let tables = vec![("employee".to_string(), DataFrame::new(scan))];
    let select = SqlExpr::Select(Select { projection, filter: None, group_by, having: None, table_name: SqlIdentifier("employee".to_string()) });
    Ok(create_dataframe(select, &tables)?.plan())
}

fn ident(name: &str) -> SqlExpr {
    SqlExpr::Indentifier(SqlIdentifier(name.to_string()))
}

#[test]
fn aggregate_without_argument_is_an_error() {
    let max = SqlExpr::Function { id: "max".to_string(), args: vec![] };
    assert_eq!(
        select_over_employee(vec![ident("state"), max], vec![ident("state")]).unwrap_err(),
        Error::MissingArgument("MAX".to_string())
    );
}

#[test]
fn empty_argument_list_does_not_parse() {
    assert_eq!(plan("SELECT state, MAX() FROM employee GROUP BY state").unwrap_err(), Error::Unsupported);
}

#[test]
fn alias_of_a_non_aggregate_goes_to_the_aggregate_list() -> Result<(), Error> {
    let plan = plan("SELECT state, salary AS s, MAX(id) FROM employee GROUP BY state")?;
    assert_eq!(
        text(&plan),
        "Projection: #0, #1 as s, #2\n  Aggregate: group_expr=[#state], aggregate_expr=[#salary, MAX(#id)]\n    Scan: employee; projection=None"
    );
    Ok(())
}

#[test]
fn alias_of_an_aggregate_alone_is_not_an_aggregate_query() -> Result<(), Error> {
    let plan = plan("SELECT state, MAX(salary) AS m FROM employee")?;
    assert_eq!(text(&plan), "Projection: #state, MAX(#salary) as m\n  Scan: employee; projection=None");
    Ok(())
}

#[test]
fn alias_of_an_aggregate_is_refused() {
    assert_eq!(
        plan("SELECT state, MAX(salary), MAX(id) AS m FROM employee GROUP BY state").unwrap_err(),
        Error::AliasWrapsAggregate
    );
}

#[test]
fn unsupported_cast_type_is_an_error() {
    assert_eq!(
        plan("SELECT CAST(salary AS text) FROM employee").unwrap_err(),
        Error::UnsupportedCastType("text".to_string())
    );
}

#[test]
fn count_star_counts_ones() -> Result<(), Error> {
    let count = SqlExpr::Function { id: "count".to_string(), args: vec![ident("*")] };
    let plan = select_over_employee(vec![ident("state"), count], vec![ident("state")])?;
    assert_eq!(
        text(&plan),
        "Projection: #0, #1\n  Aggregate: group_expr=[#state], aggregate_expr=[COUNT(1)]\n    Scan: employee; projection=None"
    );
    Ok(())
}

#[test]
fn star_does_not_parse() {
    assert_eq!(plan("SELECT state, COUNT(*) FROM employee GROUP BY state").unwrap_err(), Error::Unsupported);
}

#[test]
fn count_of_a_column_is_unsupported() {
    assert_eq!(
        plan("SELECT state, COUNT(id) FROM employee GROUP BY state").unwrap_err(),
        Error::Unsupported
    );
}

#[test]
fn unknown_function_is_unsupported() {
    assert_eq!(plan("SELECT foo(id) FROM employee").unwrap_err(), Error::Unsupported);
}

#[test]
fn filter_needs_the_schema_of_a_file() {
    let scan = LogicalPlan::Scan(Scan {
        path: "employee".to_string(),
        data_source: DataSource::Csv(CsvDataSource::new("employee.csv")),
        projection: vec![],
    });
    let stream = Tokenizer::new("SELECT state FROM employee WHERE state = 'CA'").stream().unwrap();
    let sql_expr = Parser::new(stream).parse().unwrap();
    let tables = vec![("employee".to_string(), DataFrame::new(scan))];
    assert_eq!(
        create_dataframe(sql_expr, &tables).unwrap_err(),
        Error::SchemaUnavailable("employee.csv".to_string())
    );
}

#[test]
fn cast_types_by_lowercase_name() {
    assert_eq!(cast_type("double"), Some(DataType::Float64));
    assert_eq!(cast_type("DOUBLE"), None);
    assert_eq!(cast_type("int"), None);
}

#[test]
fn plain_aggregate_names() {
    for name in ["MIN", "MAX", "SUM", "AVG"] {
        assert!(is_plain_aggregate_name(name));
    }
    assert!(!is_plain_aggregate_name("COUNT"));
    assert!(!is_plain_aggregate_name("sum"));
}
