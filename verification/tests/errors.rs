use sql_parser::parser::Parser;
use sql_parser::statement::{Expression, Statement};
use sql_parser::token::Location;

#[test]
fn empty_input_parses_to_no_statements() {
    let mut parser = Parser::new("   \n  ");
    assert_eq!(parser.try_parse(), Ok(vec![]));
}

#[test]
fn missing_terminator_on_last_statement_discards_the_whole_batch() {
    let sql = "DROP TABLE a; DROP TABLE b; SELECT * FROM c";
    let mut parser = Parser::new(sql);
    let r = parser.try_parse();
    assert!(r.is_err(), "no partial two-statement result may be returned");
}

#[test]
fn missing_terminator_error_points_at_end_of_input() {
    let sql = "DROP TABLE test";
    let mut parser = Parser::new(sql);
    let err = parser.try_parse().expect_err("the terminator is mandatory");
    assert_eq!(err.location, Location::new(sql.len()));
}

#[test]
fn lexical_error_in_statement_is_reported_at_the_opening_quote() {
    let sql = "SELECT \"abc FROM users;";
    let mut parser = Parser::new(sql);
    let err = parser.try_parse().expect_err("the string literal never closes");
    assert_eq!(err.location, Location::new(7));
}

#[test]
fn statement_must_start_with_a_keyword() {
    let mut parser = Parser::new("users SELECT id;");
    assert!(parser.try_parse().is_err());
}

#[test]
fn statement_keyword_must_start_a_statement_form() {
    let mut parser = Parser::new("FROM users;");
    assert!(parser.try_parse().is_err());
}

#[test]
fn create_requires_database_or_table() {
    let mut parser = Parser::new("CREATE INDEX idx;");
    assert!(parser.try_parse().is_err());
}

#[test]
fn insert_requires_parenthesized_column_list() {
    let mut parser = Parser::new("INSERT INTO t a, b VALUES (1, 2);");
    assert!(parser.try_parse().is_err());
}

#[test]
fn varchar_requires_a_length() {
    let mut parser = Parser::new("CREATE TABLE t (name VARCHAR);");
    assert!(parser.try_parse().is_err());
}

#[test]
fn varchar_length_must_fit() {
    let mut parser = Parser::new("CREATE TABLE t (name VARCHAR(99999999999999999999999999));");
    assert!(parser.try_parse().is_err());
}

#[test]
fn expression_requires_a_prefix_term() {
    let mut parser = Parser::new("SELECT FROM users;");
    assert!(parser.try_parse().is_err());
}

#[test]
fn unclosed_group_is_rejected() {
    let mut parser = Parser::new("SELECT (a + b FROM t;");
    assert!(parser.try_parse().is_err());
}

#[test]
fn keywords_parse_case_insensitively() {
    let mut parser = Parser::new("select * from users;");
    assert_eq!(
        parser.try_parse(),
        Ok(vec![Statement::Select {
            columns: vec![Expression::Wildcard],
            from: "users".into(),
            where_clause: None
        }])
    );
}

#[test]
fn statements_come_back_in_source_order() {
    let sql = "DROP TABLE a; DROP TABLE b;";
    let mut parser = Parser::new(sql);
    let statements = parser.try_parse().expect("both statements are well-formed");
    assert_eq!(statements.len(), 2);
    assert!(matches!(&statements[0], Statement::Drop(d) if *d == sql_parser::statement::Drop::Table("a".into())));
    assert!(matches!(&statements[1], Statement::Drop(d) if *d == sql_parser::statement::Drop::Table("b".into())));
}
