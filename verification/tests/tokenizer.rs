use query_engine::error::Error;
use query_engine::sql::error::ParseError;
use query_engine::sql::token::{Keyword, Literal, Symbol, Token, TokenSpan};
use query_engine::sql::tokenizer::Tokenizer;

fn tokens(s: &str) -> Result<Vec<Token>, Error> {
    let spans = Tokenizer::new(s).tokenize()?;
    Ok(spans.into_iter().map(|span| span.token).collect())
}

fn tokens_to_string(tokens: Vec<Token>) -> String {
    let s: Vec<String> = tokens.iter().map(|t| t.to_string()).collect();
    s.join(" ")
}

#[test]
fn tokenizer_select_1() -> Result<(), Error> {
    let tokens = tokens(
        r#"
SELECT id, first_name, salary * 1.1 AS new_salary
FROM employee
WHERE state = 'CO'
"#,
    )?;
    assert_eq!(
        tokens_to_string(tokens),
        "SELECT #id , #first_name , #salary * 1.1 AS #new_salary FROM #employee WHERE #state = 'CO'"
    );
    Ok(())
}

#[test]
fn tokenizer_select_2() -> Result<(), Error> {
    let tokens = tokens(
        r#"
SELECT id, first_name, salary/12 AS monthly_salary
FROM employee
WHERE state = 'CO' AND monthly_salary > 1000
"#,
    )?;
    assert_eq!(
        tokens_to_string(tokens),
        "SELECT #id , #first_name , #salary / 12 AS #monthly_salary FROM #employee WHERE #state = 'CO' AND #monthly_salary > 1000"
    );
    Ok(())
}

#[test]
fn tokenizer_select_3() -> Result<(), Error> {
    let tokens = tokens(
        r#"
SELECT department, AVG(salary) AS avg_salary
FROM employee
WHERE state = 'CO'
GROUP BY department
HAVING avg_salary > 50000
"#,
    )?;
    assert_eq!(
        tokens_to_string(tokens),
        "SELECT #department , AVG ( #salary ) AS #avg_salary FROM #employee WHERE #state = 'CO' GROUP BY #department HAVING #avg_salary > 50000"
    );
    Ok(())
}

#[test]
fn literal_cases() -> Result<(), Error> {
    assert_eq!(tokens("123")?, vec![Token::Literal(Literal::Long(123))]);
    assert_eq!(tokens("1.23")?, vec![Token::Literal(Literal::Double("1.23".to_string()))]);
    assert_eq!(tokens("one")?, vec![Token::Literal(Literal::Identifier("one".to_string()))]);
    assert_eq!(
        tokens("contains_underscore")?,
        vec![Token::Literal(Literal::Identifier("contains_underscore".to_string()))]
    );
    Ok(())
}

#[test]
fn keyword_cases() -> Result<(), Error> {
    assert_eq!(tokens("SELECT")?, vec![Token::Keyword(Keyword::Select)]);
    assert_eq!(tokens("Select")?, vec![Token::Keyword(Keyword::Select)]);
    assert_eq!(tokens("FROM")?, vec![Token::Keyword(Keyword::From)]);
    assert_eq!(tokens("WHERE")?, vec![Token::Keyword(Keyword::Where)]);
    assert_eq!(tokens("AS")?, vec![Token::Keyword(Keyword::As)]);
    Ok(())
}

#[test]
fn symbol_cases() -> Result<(), Error> {
    assert_eq!(tokens("+")?, vec![Token::Symbol(Symbol::Plus)]);
    assert_eq!(tokens("-")?, vec![Token::Symbol(Symbol::Minus)]);
    assert_eq!(tokens("*")?, vec![Token::Symbol(Symbol::Multiply)]);
    assert_eq!(tokens("/")?, vec![Token::Symbol(Symbol::Divide)]);
    assert_eq!(tokens("=")?, vec![Token::Symbol(Symbol::Eq)]);
    assert_eq!(tokens(",")?, vec![Token::Symbol(Symbol::Comma)]);
    Ok(())
}

#[test]
fn double_text_is_normalized() -> Result<(), Error> {
    assert_eq!(tokens("007.50")?, vec![Token::Literal(Literal::Double("7.5".to_string()))]);
    assert_eq!(tokens("2.0")?, vec![Token::Literal(Literal::Double("2".to_string()))]);
    assert_eq!(tokens(".5")?, vec![Token::Literal(Literal::Double("0.5".to_string()))]);
    Ok(())
}

#[test]
fn group_by_is_one_token() -> Result<(), Error> {
    let spans = Tokenizer::new("GROUP  by x").tokenize()?;
    assert_eq!(spans.len(), 2);
    assert_eq!(spans[0].token, Token::Keyword(Keyword::GroupBy));
    // the span of `GROUP BY` runs from the end of `GROUP` to the end of `by`
    assert_eq!((spans[0].start, spans[0].end), (5, 9));
    assert_eq!(spans[1], TokenSpan::new(Token::Literal(Literal::Identifier("x".to_string())), 10, 11));
    Ok(())
}

#[test]
fn spans_are_in_order_within_the_input() -> Result<(), Error> {
    let sql = "SELECT a, 'b c' FROM t WHERE x >= 10";
    let spans = Tokenizer::new(sql).tokenize()?;
    for (i, span) in spans.iter().enumerate() {
        assert!(span.start <= span.end && span.end <= sql.len());
        if i + 1 < spans.len() {
            assert!(span.end <= spans[i + 1].start);
        }
    }
    Ok(())
}

#[test]
fn unterminated_string_is_an_error() {
    let err = Tokenizer::new("SELECT 'abc").tokenize().unwrap_err();
    assert_eq!(err, Error::UnterminatedString("'abc".to_string()));
}

#[test]
fn each_symbol_byte_is_one_token() -> Result<(), Error> {
    assert_eq!(
        tokens("a <> (b))")?,
        vec![
            Token::Literal(Literal::Identifier("a".to_string())),
            Token::Symbol(Symbol::Le),
            Token::Symbol(Symbol::Ge),
            Token::Symbol(Symbol::LParen),
            Token::Literal(Literal::Identifier("b".to_string())),
            Token::Symbol(Symbol::RParen),
            Token::Symbol(Symbol::RParen),
        ]
    );
    Ok(())
}

#[test]
fn tokenizing_stops_at_an_unknown_byte() -> Result<(), Error> {
    assert_eq!(tokens("a ; b")?, vec![Token::Literal(Literal::Identifier("a".to_string()))]);
    Ok(())
}

#[test]
fn keyword_text_round_trip() {
    for k in [
        Keyword::Select,
        Keyword::From,
        Keyword::Where,
        Keyword::As,
        Keyword::And,
        Keyword::Avg,
        Keyword::Cast,
        Keyword::Having,
    ] {
        assert_eq!(Keyword::try_from_str(&k.to_string()), Ok(k));
    }
    // the two-word keywords are read by the tokenizer, not from their text
    assert!(Keyword::try_from_str(&Keyword::GroupBy.to_string()).is_err());
    assert!(Keyword::try_from_str(&Keyword::OrderBy.to_string()).is_err());
}

#[test]
fn symbol_text_round_trip() {
    for s in [
        Symbol::Plus,
        Symbol::Minus,
        Symbol::Multiply,
        Symbol::Divide,
        Symbol::Eq,
        Symbol::Le,
        Symbol::Ge,
        Symbol::Comma,
        Symbol::LParen,
        Symbol::RParen,
    ] {
        assert_eq!(Symbol::try_from_str(&s.to_string()), Ok(s));
    }
}

#[test]
fn literal_integers_follow_the_integer_parse() {
    assert_eq!(Literal::try_from_str("123"), Ok(Literal::Long(123)));
    assert_eq!(Literal::try_from_str("-5"), Ok(Literal::Long(-5)));
    assert_eq!(Literal::try_from_str("+7"), Ok(Literal::Long(7)));
    assert_eq!(Literal::try_from_str("-9223372036854775808"), Ok(Literal::Long(i64::MIN)));
}

#[test]
fn literal_doubles_follow_the_float_grammar() {
    assert_eq!(Literal::try_from_str("1.23"), Ok(Literal::Double("1.23".to_string())));
    assert_eq!(Literal::try_from_str("-1.50"), Ok(Literal::Double("-1.5".to_string())));
    assert_eq!(Literal::try_from_str("+2.0"), Ok(Literal::Double("2".to_string())));
    assert_eq!(Literal::try_from_str("1e5"), Ok(Literal::Double("1e5".to_string())));
    assert_eq!(Literal::try_from_str("inf"), Ok(Literal::Double("inf".to_string())));
    assert_eq!(Literal::try_from_str("NaN"), Ok(Literal::Double("NaN".to_string())));
    assert_eq!(Literal::try_from_str("9223372036854775808"), Ok(Literal::Double("9223372036854775808".to_string())));
}

#[test]
fn literal_strings_and_identifiers() {
    assert_eq!(Literal::try_from_str("'CO'"), Ok(Literal::String("CO".to_string())));
    assert_eq!(Literal::try_from_str("''"), Ok(Literal::String(String::new())));
    assert_eq!(
        Literal::try_from_str("'CO"),
        Err(Error::Parse(ParseError::InvalidLiteralString("'CO".to_string())))
    );
    assert_eq!(
        Literal::try_from_str("'"),
        Err(Error::Parse(ParseError::InvalidLiteralString("'".to_string())))
    );
    assert_eq!(Literal::try_from_str("abc"), Ok(Literal::Identifier("abc".to_string())));
    assert_eq!(Literal::try_from_str("1e"), Ok(Literal::Identifier("1e".to_string())));
}

#[test]
fn keywords_are_read_in_any_case() -> Result<(), Error> {
    assert_eq!(Keyword::try_from_str("sElEcT"), Ok(Keyword::Select));
    assert_eq!(Keyword::try_from_str("Having"), Ok(Keyword::Having));
    assert!(Keyword::try_from_str("group").is_err());
    assert!(Keyword::try_from_str("by").is_err());
    assert_eq!(tokens("Select")?, vec![Token::Keyword(Keyword::Select)]);
    assert_eq!(tokens("group BY")?, vec![Token::Keyword(Keyword::GroupBy)]);
    Ok(())
}

#[test]
fn keywords_from_lowercase_words() {
    assert_eq!(Keyword::from_lowercase("select"), Some(Keyword::Select));
    assert_eq!(Keyword::from_lowercase("avg"), Some(Keyword::Avg));
    assert_eq!(Keyword::from_lowercase("SELECT"), None);
    assert_eq!(Keyword::from_lowercase("group"), None);
    assert_eq!(Keyword::two_word_start("group"), Some(Keyword::GroupBy));
    assert_eq!(Keyword::two_word_start("order"), Some(Keyword::OrderBy));
    assert_eq!(Keyword::two_word_start("select"), None);
}
