use query_engine::error::Error;
use query_engine::sql::expr::{Select, SqlExpr, SqlIdentifier};
use query_engine::sql::parser::Parser;
use query_engine::sql::tokenizer::Tokenizer;

fn parse(sql: &str) -> Result<SqlExpr, Error> {
    let stream = Tokenizer::new(sql).stream()?;
    let mut parser = Parser::new(stream);
    parser.parse()
}

fn id(name: &str) -> SqlExpr {
    SqlExpr::Indentifier(SqlIdentifier(name.to_string()))
}

fn binary(lhs: SqlExpr, op: &str, rhs: SqlExpr) -> SqlExpr {
    SqlExpr::BinaryExpr { lhs: Box::new(lhs), op: op.to_string(), rhs: Box::new(rhs) }
}

fn alias(expr: SqlExpr, name: &str) -> SqlExpr {
    SqlExpr::Alias { expr: Box::new(expr), alias: SqlIdentifier(name.to_string()) }
}

#[test]
fn identifier() -> Result<(), Error> {
    let data = parse("employee")?;
    assert_eq!(data, SqlExpr::Indentifier(SqlIdentifier("employee".to_string())));
    Ok(())
}

#[test]
fn expr_associate() -> Result<(), Error> {
    assert_eq!(
        parse("1 + 2 * 3")?,
        binary(SqlExpr::Long(1), "+", binary(SqlExpr::Long(2), "*", SqlExpr::Long(3)))
    );
    assert_eq!(
        parse("1 * 2 + 3")?,
        binary(binary(SqlExpr::Long(1), "*", SqlExpr::Long(2)), "+", SqlExpr::Long(3))
    );
    Ok(())
}

#[test]
fn parser_select_1() -> Result<(), Error> {
    let expected = SqlExpr::Select(Select {
        projection: vec![
            id("id"),
            id("first_name"),
            alias(binary(id("salary"), "*", SqlExpr::Double("1.1".to_string())), "new_salary"),
        ],
        filter: Some(Box::new(binary(id("state"), "=", SqlExpr::String("CO".to_string())))),
        group_by: vec![],
        having: None,
        table_name: SqlIdentifier("employee".to_string()),
    });
    assert_eq!(
        parse(
            r#"
SELECT id, first_name, salary * 1.1 AS new_salary
FROM employee
WHERE state = 'CO'
"#
        )?,
        expected
    );
    Ok(())
}

#[test]
fn parser_select_2() -> Result<(), Error> {
    let expected = SqlExpr::Select(Select {
        projection: vec![
            id("id"),
            id("first_name"),
            alias(binary(id("salary"), "/", SqlExpr::Long(12)), "monthly_salary"),
        ],
        filter: Some(Box::new(binary(
            binary(id("state"), "=", SqlExpr::String("CO".to_string())),
            "AND",
            binary(id("monthly_salary"), ">", SqlExpr::Long(1000)),
        ))),
        group_by: vec![],
        having: None,
        table_name: SqlIdentifier("employee".to_string()),
    });
    assert_eq!(
        parse(
            r#"
SELECT id, first_name, salary/12 AS monthly_salary
FROM employee
WHERE state = 'CO' AND monthly_salary > 1000
        "#
        )?,
        expected
    );
    Ok(())
}

#[test]
fn parser_select_3() -> Result<(), Error> {
    let expected = SqlExpr::Select(Select {
        projection: vec![
            id("department"),
            alias(SqlExpr::Function { id: "AVG".to_string(), args: vec![id("salary")] }, "avg_salary"),
        ],
        filter: Some(Box::new(binary(id("state"), "=", SqlExpr::String("CO".to_string())))),
        group_by: vec![id("department")],
        having: Some(Box::new(binary(id("avg_salary"), ">", SqlExpr::Long(50000)))),
        table_name: SqlIdentifier("employee".to_string()),
    });
    assert_eq!(
        parse(
            r#"
SELECT department, AVG(salary) AS avg_salary
FROM employee
WHERE state = 'CO'
GROUP BY department
HAVING avg_salary > 50000
        "#
        )?,
        expected
    );
    Ok(())
}

#[test]
fn cast_is_parsed() -> Result<(), Error> {
    assert_eq!(
        parse("CAST(salary AS double)")?,
        SqlExpr::Cast { expr: Box::new(id("salary")), data_type: SqlIdentifier("double".to_string()) }
    );
    Ok(())
}

#[test]
fn empty_input_has_no_tokens() {
    assert_eq!(parse(""), Err(Error::NoRemainingTokens));
}

#[test]
fn select_without_table_is_an_error() {
    assert_eq!(parse("SELECT a FROM"), Err(Error::ExpectedTableName));
}
