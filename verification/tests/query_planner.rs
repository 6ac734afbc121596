use query_engine::data_source::DataSource;
use query_engine::data_source::csv::CsvDataSource;
use query_engine::dataframe::DataFrame;
use query_engine::error::Error;
use query_engine::logical_plan::{LogicalPlan, Scan};
use query_engine::physical_plan::PhysicalPlan;
use query_engine::physical_plan::aggregate::PhysicalAggregateExpr;
use query_engine::physical_plan::expr::{PhysicalBinaryOp, PhysicalExpr, PhysicalLiteralExpr};
use query_engine::query_planner::create_physical_plan;
use query_engine::schema::{DataType, Field, Schema};
use query_engine::sql::parser::Parser;
use query_engine::sql::planner::create_dataframe;
use query_engine::sql::tokenizer::Tokenizer;

fn employee_schema() -> Schema {
    Schema::new(vec![
        Field::new("id".to_string(), DataType::Int64, true),
        Field::new("first_name".to_string(), DataType::Utf8, true),
        Field::new("last_name".to_string(), DataType::Utf8, true),
        Field::new("state".to_string(), DataType::Utf8, true),
        Field::new("job_title".to_string(), DataType::Utf8, true),
        Field::new("salary".to_string(), DataType::Int64, true),
    ])
}

fn plan(sql: &str) -> Result<LogicalPlan, Error> {
    let scan = LogicalPlan::Scan(Scan {
        path: "employee".to_string(),
        data_source: DataSource::Csv(CsvDataSource::new("test_data/employee.csv").with_schema(employee_schema())),
        projection: vec![],
    });
    let stream = Tokenizer::new(sql).stream()?;
    let sql_expr = Parser::new(stream).parse()?;
    let tables = vec![("employee".to_string(), DataFrame::new(scan))];
    Ok(create_dataframe(sql_expr, &tables)?.plan())
}

#[test]
fn mod_plan_aggregate_query() -> Result<(), Error> {
    let logical_plan = plan("SELECT state, SUM(salary) FROM employee GROUP BY state")?;
    let physical_plan = create_physical_plan(&logical_plan)?;
    assert_eq!(
        physical_plan.to_string().trim_end(),
        "ProjectionExec: #0, #1\n  HashAggregrateExec: group_expr=[#3], aggregate_expr=[SUM(#5)]\n    ScanExec: [(id,Int64),(first_name,Utf8),(last_name,Utf8),(state,Utf8),(job_title,Utf8),(salary,Int64)]; projection=None"
    );
    Ok(())
}

#[test]
fn filter_becomes_a_selection() -> Result<(), Error> {
    let logical_plan = plan("SELECT id, salary FROM employee WHERE salary * 2 = 10")?;
    let physical_plan = create_physical_plan(&logical_plan)?;
    let PhysicalPlan::Selection(selection) = &physical_plan else { panic!("not a selection") };
    let PhysicalExpr::Binary(eq) = &selection.expr else { panic!("not a comparison") };
    assert_eq!(eq.op, PhysicalBinaryOp::Eq);
    let PhysicalExpr::Binary(mul) = eq.lhs.as_ref() else { panic!("not a product") };
    assert_eq!(mul.op, PhysicalBinaryOp::Mul);
    assert!(matches!(mul.lhs.as_ref(), PhysicalExpr::Column(1)));
    assert!(matches!(mul.rhs.as_ref(), PhysicalExpr::Literal(PhysicalLiteralExpr::Long(2))));
    assert_eq!(physical_plan.to_string().lines().next(), Some("SelectionExec: #1 * 2 = 10"));
    Ok(())
}

#[test]
fn aggregate_names_are_read_in_any_case() -> Result<(), Error> {
    let logical_plan = plan("SELECT state, max(salary) FROM employee GROUP BY state")?;
    let physical_plan = create_physical_plan(&logical_plan)?;
    let PhysicalPlan::Projection(projection) = &physical_plan else { panic!("not a projection") };
    let PhysicalPlan::HashAggregate(aggregate) = projection.input.as_ref() else { panic!("not an aggregate") };
    assert!(matches!(&aggregate.aggregate_expr[0], PhysicalAggregateExpr::Max(_)));
    assert_eq!(aggregate.schema.fields[1].name, "MAX");
    Ok(())
}

#[test]
fn avg_has_no_physical_aggregate() -> Result<(), Error> {
    let logical_plan = plan("SELECT state, AVG(salary) FROM employee GROUP BY state")?;
    assert_eq!(
        create_physical_plan(&logical_plan).unwrap_err(),
        Error::UnsupportedAggregate("AVG".to_string())
    );
    Ok(())
}

#[test]
fn unsupported_operator_is_refused() -> Result<(), Error> {
    let logical_plan = plan("SELECT id FROM employee WHERE salary > 10")?;
    assert_eq!(create_physical_plan(&logical_plan).unwrap_err(), Error::Unsupported);
    Ok(())
}

#[test]
fn unknown_aggregate_is_refused() -> Result<(), Error> {
    let logical_plan = plan("SELECT state, MIN(salary) FROM employee GROUP BY state")?;
    assert_eq!(
        create_physical_plan(&logical_plan).unwrap_err(),
        Error::UnsupportedAggregate("MIN".to_string())
    );
    Ok(())
}

#[test]
fn scan_schema_follows_the_projection() -> Result<(), Error> {
    let scan = LogicalPlan::Scan(Scan {
        path: "employee".to_string(),
        data_source: DataSource::Csv(CsvDataSource::new("e.csv").with_schema(employee_schema())),
        projection: vec!["salary".to_string(), "id".to_string()],
    });
    let physical_plan = create_physical_plan(&scan)?;
    let names: Vec<String> = physical_plan.schema()?.fields.iter().map(|f| f.name.clone()).collect();
    assert_eq!(names, vec!["salary".to_string(), "id".to_string()]);
    let logical_names: Vec<String> = scan.schema()?.fields.iter().map(|f| f.name.clone()).collect();
    assert_eq!(names, logical_names);
    Ok(())
}

#[test]
fn aggregate_from_lowercase_name() {
    let max = PhysicalAggregateExpr::from_lowercase("max", PhysicalExpr::Column(2));
    assert!(matches!(max, Some(PhysicalAggregateExpr::Max(ref e)) if matches!(e.as_ref(), PhysicalExpr::Column(2))));
    let sum = PhysicalAggregateExpr::from_lowercase("sum", PhysicalExpr::Column(0));
    assert!(matches!(sum, Some(PhysicalAggregateExpr::Sum(_))));
    assert!(PhysicalAggregateExpr::from_lowercase("MAX", PhysicalExpr::Column(0)).is_none());
    assert!(PhysicalAggregateExpr::from_lowercase("min", PhysicalExpr::Column(0)).is_none());
}

#[test]
fn mixed_case_sum_is_planned_as_sum() -> Result<(), Error> {
    let logical_plan = plan("SELECT state, Sum(salary) FROM employee GROUP BY state")?;
    let physical_plan = create_physical_plan(&logical_plan)?;
    let PhysicalPlan::Projection(projection) = &physical_plan else { panic!("not a projection") };
    let PhysicalPlan::HashAggregate(aggregate) = projection.input.as_ref() else { panic!("not an aggregate") };
    assert!(matches!(&aggregate.aggregate_expr[0], PhysicalAggregateExpr::Sum(_)));
    assert_eq!(aggregate.schema.fields[1].name, "SUM");
    Ok(())
}
