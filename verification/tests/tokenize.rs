use sql_parser::token::{Keyword, Location, Token};
use sql_parser::tokenizer::{tokenize, TokenWithLocation};

fn at(token: Token, offset: usize) -> TokenWithLocation {
    TokenWithLocation { token, location: Location::new(offset) }
}

#[test]
fn tokenize_simple_statement() {
    assert_eq!(
        tokenize("DROP TABLE test;"),
        Ok(vec![
            at(Token::Keyword(Keyword::Drop), 0),
            at(Token::Whitespace(1), 4),
            at(Token::Keyword(Keyword::Table), 5),
            at(Token::Whitespace(1), 10),
            at(Token::Identifier("test".into()), 11),
            at(Token::SemiColon, 15),
            at(Token::Eof, 16),
        ])
    );
}

#[test]
fn tokenize_operators_and_literals() {
    assert_eq!(
        tokenize("a!=1<=2>=(\"x\")"),
        Ok(vec![
            at(Token::Identifier("a".into()), 0),
            at(Token::Neq, 1),
            at(Token::Number("1".into()), 3),
            at(Token::LtEq, 4),
            at(Token::Number("2".into()), 6),
            at(Token::GtEq, 7),
            at(Token::LeftParen, 9),
            at(Token::Str("x".into()), 10),
            at(Token::RightParen, 13),
            at(Token::Eof, 14),
        ])
    );
}

#[test]
fn tokenize_keywords_case_insensitively() {
    assert_eq!(
        tokenize("select Select SELECT selected"),
        Ok(vec![
            at(Token::Keyword(Keyword::Select), 0),
            at(Token::Whitespace(1), 6),
            at(Token::Keyword(Keyword::Select), 7),
            at(Token::Whitespace(1), 13),
            at(Token::Keyword(Keyword::Select), 14),
            at(Token::Whitespace(1), 20),
            at(Token::Identifier("selected".into()), 21),
            at(Token::Eof, 29),
        ])
    );
}

#[test]
fn tokenize_whitespace_runs_keep_locations_exact() {
    assert_eq!(
        tokenize("1  \n\t2"),
        Ok(vec![
            at(Token::Number("1".into()), 0),
            at(Token::Whitespace(4), 1),
            at(Token::Number("2".into()), 5),
            at(Token::Eof, 6),
        ])
    );
}

#[test]
fn tokenize_twice_yields_identical_sequences() {
    let sql = "SELECT id, name FROM users WHERE id != \"x y\" + 12;";
    let first = tokenize(sql);
    let second = tokenize(sql);
    assert_eq!(first, second);
}

#[test]
fn unterminated_string_fails_at_opening_quote() {
    let r = tokenize("abc \"unterminated");
    let err = r.expect_err("an unterminated string literal must be rejected");
    assert_eq!(err.location, Location::new(4));
}

#[test]
fn lone_bang_is_a_lexical_error() {
    let err = tokenize("a ! b").expect_err("a lone '!' starts no lexeme");
    assert_eq!(err.location, Location::new(2));
}

#[test]
fn unsupported_character_is_a_lexical_error() {
    let err = tokenize("price # 2").expect_err("'#' starts no lexeme");
    assert_eq!(err.location, Location::new(6));
}
