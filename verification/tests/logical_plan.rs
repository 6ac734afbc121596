use std::sync::Arc;

use query_engine::data_source::DataSource;
use query_engine::data_source::memory::MemoryDataSource;
use query_engine::dataframe::{DataFrame, col, lit};
use query_engine::error::Error;
use query_engine::execution::ExecutionContext;
use query_engine::logical_plan::expr::{BinaryOp, Literal, LogicalExpr};
use query_engine::logical_plan::{JoinType, LogicalPlan, Projection, Scan, Selection};
use query_engine::schema::{DataType, Field, Schema};

fn data_source() -> DataSource {
    let schema = Schema::new(vec![
        Field::new("a".to_string(), DataType::Int32, false),
        Field::new("b".to_string(), DataType::Utf8, false),
    ]);
    DataSource::Memory(MemoryDataSource::new(schema, 0))
}

fn text(plan: &LogicalPlan) -> String {
    plan.to_string().trim_end().to_string()
}

#[test]
fn test_scan() {
    let plan = LogicalPlan::Scan(Scan {
        path: "users".to_string(),
        data_source: data_source(),
        projection: vec!["name".to_string()],
    });
    assert_eq!(text(&plan), "Scan: users; projection=[name]");
}

#[test]
fn test_selection() {
    let scan = LogicalPlan::Scan(Scan {
        path: "users".to_string(),
        data_source: data_source(),
        projection: vec!["name".to_string()],
    });
    let plan = LogicalPlan::Selection(Selection {
        input: Box::new(scan),
        expr: Arc::new(LogicalExpr::Binary {
            lhs: Arc::new(LogicalExpr::Column("name".to_string())),
            op: BinaryOp::Eq,
            rhs: Arc::new(LogicalExpr::Literal(Literal::String("Alice".to_string()))),
        }),
    });
    assert_eq!(text(&plan), "Filter: #name = 'Alice'\n  Scan: users; projection=[name]");
}

#[test]
fn test_compose() {
    let scan = LogicalPlan::Scan(Scan {
        path: "employees".to_string(),
        data_source: data_source(),
        projection: vec![],
    });
    let filter = LogicalPlan::Selection(Selection {
        input: Box::new(scan),
        expr: Arc::new(LogicalExpr::Binary {
            lhs: Arc::new(LogicalExpr::Column("department".to_string())),
            op: BinaryOp::Eq,
            rhs: Arc::new(LogicalExpr::Literal(Literal::String("Engineering".to_string()))),
        }),
    });
    let project = LogicalPlan::Projection(Projection {
        input: Box::new(filter),
        expr: vec![
            Arc::new(LogicalExpr::Column("name".to_string())),
            Arc::new(LogicalExpr::Alias {
                expr: Arc::new(LogicalExpr::Binary {
                    lhs: Arc::new(LogicalExpr::Column("salary".to_string())),
                    op: BinaryOp::Eq,
                    rhs: Arc::new(LogicalExpr::Literal(Literal::Double("1.1".to_string()))),
                }),
                alias: "new_salary".to_string(),
            }),
        ],
    });
    assert_eq!(
        text(&project),
        "Projection: #name, #salary = 1.1 as new_salary\n  Filter: #department = 'Engineering'\n    Scan: employees; projection=None"
    );
}

#[test]
fn test_dataframe() -> Result<(), Error> {
    let ctx = ExecutionContext::csv("employee.csv", None)?;
    let df = ctx
        .filter(col("state").eq(lit(Literal::String("CO".to_string()))))
        .project(vec![
            col("id"),
            col("first_name"),
            col("last_name"),
            col("salary"),
            col("salary").mult(lit(Literal::Double("0.1".to_string()))).alias("bonus"),
        ])
        .filter(col("bonus").gt(lit(Literal::Long(1000))));
    assert_eq!(
        text(&df.plan()),
        "Filter: #bonus > 1000\n  Projection: #id, #first_name, #last_name, #salary, #salary * 0.1 as bonus\n    Filter: #state = 'CO'\n      Scan: employee.csv; projection=None"
    );
    Ok(())
}

#[test]
fn schema_of_a_projection() -> Result<(), Error> {
    let scan = LogicalPlan::Scan(Scan { path: "t".to_string(), data_source: data_source(), projection: vec![] });
    let df = DataFrame::new(scan).project(vec![
        col("b"),
        col("a").alias("x"),
        lit(Literal::Long(7)),
    ]);
    let schema = df.plan().schema()?;
    let fields: Vec<(String, DataType)> =
        schema.fields.iter().map(|f| (f.name.clone(), f.data_type.clone())).collect();
    assert_eq!(
        fields,
        vec![
            ("b".to_string(), DataType::Utf8),
            ("x".to_string(), DataType::Int32),
            ("7".to_string(), DataType::Int64),
        ]
    );
    Ok(())
}

#[test]
fn schema_errors() {
    let scan = || LogicalPlan::Scan(Scan { path: "t".to_string(), data_source: data_source(), projection: vec![] });
    let missing = DataFrame::new(scan()).project(vec![col("zzz")]);
    assert_eq!(missing.plan().schema().unwrap_err(), Error::FieldNotFound("zzz".to_string()));
    let mismatch = DataFrame::new(scan()).project(vec![col("a").eq(col("b"))]);
    assert_eq!(mismatch.plan().schema().unwrap_err(), Error::DataTypeMismatch);
    let out_of_range = DataFrame::new(scan()).project(vec![query_engine::dataframe::col_index(5)]);
    assert_eq!(out_of_range.plan().schema().unwrap_err(), Error::ColumnIndexOutOfRange(5));
}

#[test]
fn right_join_swaps_inputs() -> Result<(), Error> {
    let left = DataFrame::new(LogicalPlan::Scan(Scan { path: "l".to_string(), data_source: data_source(), projection: vec![] }));
    let right = DataFrame::new(LogicalPlan::Scan(Scan { path: "r".to_string(), data_source: data_source(), projection: vec![] }));
    let joined = left.join(right, JoinType::Right, vec![("a".to_string(), "b".to_string())]);
    assert_eq!(
        text(&joined.plan()),
        "Join: type=left, on=b=a  Scan: r; projection=None\n  Scan: l; projection=None"
    );
    Ok(())
}

#[test]
fn binary_op_text_round_trip() {
    for op in [
        BinaryOp::Eq,
        BinaryOp::Neq,
        BinaryOp::Gt,
        BinaryOp::GtEq,
        BinaryOp::Lt,
        BinaryOp::LtEq,
        BinaryOp::Plus,
        BinaryOp::Minus,
        BinaryOp::Multiply,
        BinaryOp::Divide,
        BinaryOp::As,
        BinaryOp::And,
    ] {
        assert_eq!(BinaryOp::try_from_str(&op.to_string()), Ok(op));
    }
    assert_eq!(BinaryOp::try_from_str("<>"), Err(Error::InvalidBinaryOp("<>".to_string())));
}

#[test]
fn operators_are_read_in_any_case() {
    assert_eq!(BinaryOp::try_from_str("and"), Ok(BinaryOp::And));
    assert_eq!(BinaryOp::try_from_str("As"), Ok(BinaryOp::As));
    assert_eq!(BinaryOp::from_lowercase("and"), Some(BinaryOp::And));
    assert_eq!(BinaryOp::from_lowercase(">="), Some(BinaryOp::GtEq));
    assert_eq!(BinaryOp::from_lowercase("AND"), None);
    assert_eq!(BinaryOp::from_lowercase("or"), None);
}
