use mini_sql::ast::{BinaryOperator, Expression, Statement};
use mini_sql::parser::SQLParser;
use mini_sql::pratt::ExpressionError;
use mini_sql::tokenizer::{GeneralError, Keyword, ParseError, Token, Tokenizer};

fn tokenize(input: &str) -> Vec<Token> {
    let mut tokenizer = Tokenizer::new(input);
    let mut tokens = Vec::new();
    loop {
        let token = tokenizer.next_token();
        if token == Token::Eof {
            tokens.push(token);
            break;
        }
        tokens.push(token);
    }
    tokens
}

fn parse(input: &str) -> Result<Statement, ParseError> {
    let tokens = tokenize(input);
    let mut parser = SQLParser::new(&tokens);
    parser.parse_statement()
}

fn binary(left: Expression, operator: BinaryOperator, right: Expression) -> Expression {
    Expression::BinaryOperation {
        left_operand: Box::new(left),
        operator,
        right_operand: Box::new(right),
    }
}

#[test]
fn round_trip_full_select() {
    let statement = parse("SELECT a, b FROM t WHERE a = 1 AND b != 2 ORDER BY a").unwrap();
    let selection = binary(
        binary(
            Expression::Identifier("a".to_string()),
            BinaryOperator::Equals,
            Expression::Number(1),
        ),
        BinaryOperator::And,
        binary(
            Expression::Identifier("b".to_string()),
            BinaryOperator::NotEquals,
            Expression::Number(2),
        ),
    );
    assert_eq!(
        statement,
        Statement::Select {
            columns: vec!["a".to_string(), "b".to_string()],
            table: "t".to_string(),
            selection: Some(selection),
            order_by: Some(vec!["a".to_string()]),
            limit: None,
        }
    );
}

#[test]
fn simple_select() {
    let statement = parse("SELECT a FROM t").unwrap();
    assert_eq!(
        statement,
        Statement::Select {
            columns: vec!["a".to_string()],
            table: "t".to_string(),
            selection: None,
            order_by: None,
            limit: None,
        }
    );
}

#[test]
fn select_where_without_order_by() {
    let statement = parse("select name, age from people where age >= 18").unwrap();
    assert_eq!(
        statement,
        Statement::Select {
            columns: vec!["name".to_string(), "age".to_string()],
            table: "people".to_string(),
            selection: Some(binary(
                Expression::Identifier("age".to_string()),
                BinaryOperator::GreaterThanOrEqual,
                Expression::Number(18),
            )),
            order_by: None,
            limit: None,
        }
    );
}

#[test]
fn order_by_list_ends_at_semicolon() {
    let statement = parse("SELECT a FROM t ORDER BY a, b;").unwrap();
    assert_eq!(
        statement,
        Statement::Select {
            columns: vec!["a".to_string()],
            table: "t".to_string(),
            selection: None,
            order_by: Some(vec!["a".to_string(), "b".to_string()]),
            limit: None,
        }
    );
}

#[test]
fn select_without_columns_is_rejected() {
    let err = parse("SELECT FROM t").unwrap_err();
    assert_eq!(err, ParseError::General(GeneralError::EmptyColumns));
}

#[test]
fn unterminated_string_is_rejected() {
    let err = parse("SELECT a FROM t WHERE b = 'x").unwrap_err();
    assert_eq!(
        err,
        ParseError::InvalidExpression(ExpressionError::UnexpectedToken(Token::Invalid('\'')))
    );
}

#[test]
fn reparsing_identical_tokens_yields_equal_trees() {
    let tokens = tokenize("SELECT a, b FROM t WHERE a = 1 OR b < 2 ORDER BY b");
    let first = SQLParser::new(&tokens).parse_statement();
    let second = SQLParser::new(&tokens).parse_statement();
    assert_eq!(first, second);
    assert!(first.is_ok());
}

#[test]
fn unknown_statement_start_names_the_token() {
    let err = parse("DROP x").unwrap_err();
    assert_eq!(
        err,
        ParseError::UnknownStartOfStatement(Token::Identifier("DROP".to_string()))
    );
    let err = parse("1").unwrap_err();
    assert_eq!(err, ParseError::UnknownStartOfStatement(Token::Number(1)));
}

#[test]
fn empty_input_is_rejected() {
    // The scanner of an empty line still emits the end-of-input token,
    // which no statement starts with.
    let err = parse("").unwrap_err();
    assert_eq!(err, ParseError::UnknownStartOfStatement(Token::Eof));
    // A genuinely empty token sequence is its own failure.
    let tokens: Vec<Token> = Vec::new();
    let err = SQLParser::new(&tokens).parse_statement().unwrap_err();
    assert_eq!(err, ParseError::General(GeneralError::EmptyInput));
}

#[test]
fn table_name_must_be_an_identifier() {
    let err = parse("SELECT a FROM 1").unwrap_err();
    assert_eq!(err, ParseError::ExpectedIdentifier);
    // The scanner's end-of-input marker is an ordinary token here, so a
    // missing table name is "not an identifier", not "out of tokens".
    let err = parse("SELECT a FROM").unwrap_err();
    assert_eq!(err, ParseError::ExpectedIdentifier);
}

#[test]
fn column_list_rejects_foreign_tokens() {
    let err = parse("SELECT a + FROM t").unwrap_err();
    assert_eq!(
        err,
        ParseError::General(GeneralError::UnexpectedTokenInColumns(Token::Plus))
    );
    let err = parse("SELECT a, b").unwrap_err();
    assert_eq!(
        err,
        ParseError::General(GeneralError::UnexpectedTokenInColumns(Token::Eof))
    );
}

#[test]
fn order_requires_by() {
    let err = parse("SELECT a FROM t ORDER x").unwrap_err();
    assert_eq!(err, ParseError::ExpectedKeyword(Keyword::By));
}

#[test]
fn order_by_rejects_foreign_tokens() {
    let err = parse("SELECT a FROM t ORDER BY a + b").unwrap_err();
    assert_eq!(
        err,
        ParseError::General(GeneralError::UnexpectedTokenInOrderBy(Token::Plus))
    );
}

#[test]
fn where_clause_hands_cursor_back_before_order_by() {
    // The tokens the predicate consumed are exactly skipped: the ORDER BY
    // clause after a parenthesized predicate is still seen.
    let statement = parse("SELECT a FROM t WHERE (a + 1) * 2 > 4 ORDER BY a").unwrap();
    match statement {
        Statement::Select { selection, order_by, .. } => {
            assert!(selection.is_some());
            assert_eq!(order_by, Some(vec!["a".to_string()]));
        }
    }
}

#[test]
fn new_select_assembles_the_fields() {
    let statement = Statement::new_select(
        vec!["a".to_string()],
        "t".to_string(),
        None,
        Some(vec!["a".to_string()]),
        Some(10),
    );
    assert_eq!(
        statement,
        Statement::Select {
            columns: vec!["a".to_string()],
            table: "t".to_string(),
            selection: None,
            order_by: Some(vec!["a".to_string()]),
            limit: Some(10),
        }
    );
}

#[test]
fn numeric_overflow_in_predicate_is_a_typed_error() {
    let err = parse("SELECT a FROM t WHERE a = 99999999999999999999").unwrap_err();
    assert_eq!(
        err,
        ParseError::InvalidExpression(ExpressionError::UnexpectedToken(Token::Invalid('9')))
    );
}
