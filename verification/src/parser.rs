//! The executable recursive-descent / precedence-climbing parser. Every
//! method is proved to return exactly what the corresponding specification
//! function of the `grammar` module says: the same tree on inputs the grammar
//! accepts, and an error carrying the grammar's error location otherwise.

use vstd::prelude::*;
use vstd::slice::slice_index_get;
use vstd::string::StrSliceExecFns;
use vstd::string::StringExecFns;

use crate::grammar::{
    all_digits, digits_val, lemma_digits_val_prefix, lemma_skip_ws_props,
    spec_consume_one_of, spec_consume_optional, spec_expect_keyword, spec_expect_one_of,
    spec_expect_semicolon, spec_expect_token, spec_expr_loop, spec_next, spec_next_precedence,
    column_item, expression_item, identifier_item, spec_comma_separated, spec_list_rest,
    spec_close_list, spec_parse_column, spec_parse_expr, spec_parse_expression,
    spec_parse_from_and_optional_where, spec_parse_identifier, spec_parse_infix,
    spec_parse_optional_where, spec_parse_prefix, spec_parse_program, spec_parse_statement,
    spec_parse_statement_body, spec_parse_usize, spec_skip_ws, NextTok, Parse, Pos,
};
use crate::statement::{
    BinaryOperator, Column, Constraint, Create, DataType, Drop, Expression, Statement, StatementV,
    Value,
};
use crate::token::{digit_char, token_matches, Keyword, Location, Token, TokenV};
use crate::tokenizer::{lemma_scan_not_eof_token, scan_at, spec_scan, ScanTok, TokenizerError};

verus! {

/// A syntactic (or lifted lexical) error: a human-readable message and the
/// source location the error is reported at.
#[derive(Debug, PartialEq)]
pub struct ParserError {
    pub message: String,
    pub location: Location,
}

impl ParserError {
    pub fn new(message: String, location: Location) -> (r: ParserError)
        ensures
            r.message == message,
            r.location == location,
    {
        ParserError { message, location }
    }
}

pub type ParseResult<T> = Result<T, ParserError>;

/// Lifts a lexical error into the parser's error type, prefixing the message
/// and keeping the location.
fn lift_lex_error(err: TokenizerError) -> (r: ParserError)
    ensures
        r.location == err.location,
        r.message@ == "syntax error: "@ + err.message@,
{
    let mut message = String::from_str("syntax error: ");
    message.append(err.message.as_str());
    ParserError { message, location: err.location }
}

/// The parser: a cursor over the input characters (the tokenizer runs on
/// demand, one token ahead), and the location of the last consumed token.
pub struct Parser<'i> {
    input: &'i str,
    length: usize,
    pos: usize,
    location: Location,
}

impl<'i> Parser<'i> {
    /// The input text.
    pub closed spec fn src(self) -> Seq<char> {
        self.input@
    }

    /// The specification-level parsing state this parser stands at.
    pub closed spec fn vpos(self) -> Pos {
        Pos { at: self.pos as int, last: self.location.offset as int }
    }

    /// Characters left to scan: the measure parsing recursion descends on.
    pub closed spec fn remaining(self) -> int {
        self.length - self.pos
    }

    /// The cursor is within the input and `length` caches its character count.
    pub closed spec fn wf(self) -> bool {
        &&& self.length == self.input@.len()
        &&& self.pos <= self.length
        &&& self.location.offset <= self.length
    }

    /// Creates a new parser for the given `input` string, at its start.
    pub fn new(input: &'i str) -> (p: Parser<'i>)
        ensures
            p.wf(),
            p.src() == input@,
            p.vpos() == (Pos { at: 0int, last: 0int }),
    {
        Parser { input, length: input.unicode_len(), pos: 0, location: Location::new(0) }
    }

    /// Builds a [`ParserError`] at the location of the last consumed token.
    fn error(&self, message: &str) -> (r: ParserError)
        ensures
            r.location.offset as int == self.vpos().last,
    {
        ParserError::new(String::from_str(message), self.location)
    }

    /// Skips the whitespace token in front of the cursor, if any.
    fn skip_white_spaces(&mut self)
        requires
            old(self).wf(),
        ensures
            final(self).wf(),
            final(self).src() == old(self).src(),
            final(self).length == old(self).length,
            final(self).location == old(self).location,
            old(self).pos <= final(self).pos,
            final(self).pos as int == spec_skip_ws(old(self).src(), old(self).pos as int),
    {
        match scan_at(self.input, self.length, self.pos) {
            Ok((Token::Whitespace(_), w)) => {
                self.pos = self.pos + w;
            },
            _ => {},
        }
    }

    /// Consumes the next token after whitespace and records its location;
    /// at the end of the input it yields `Eof` without moving. A lexical
    /// error is lifted, keeping its location.
    fn next_token(&mut self) -> (r: ParseResult<Token>)
        requires
            old(self).wf(),
        ensures
            final(self).wf(),
            final(self).src() == old(self).src(),
            final(self).length == old(self).length,
            old(self).pos <= final(self).pos,
            match spec_next(old(self).src(), old(self).vpos()) {
                NextTok::Tok { t, loc, pos } => {
                    &&& r matches Ok(tok) && tok@ == t
                    &&& final(self).vpos() == pos
                    &&& (!(t is Eof) ==> old(self).pos < final(self).pos)
                },
                NextTok::Fail { loc } => {
                    &&& r matches Err(e) && e.location.offset as int == loc
                    &&& final(self).location == old(self).location
                },
            },
    {
        self.skip_white_spaces();
        match scan_at(self.input, self.length, self.pos) {
            Err(te) => Err(lift_lex_error(te)),
            Ok((tok, w)) => {
                self.location = Location::new(self.pos);
                self.pos = self.pos + w;
                Ok(tok)
            },
        }
    }

    /// Reads the next token after whitespace without consuming it; the
    /// whitespace itself is consumed.
    fn peek_token(&mut self) -> (r: Result<Token, TokenizerError>)
        requires
            old(self).wf(),
        ensures
            final(self).wf(),
            final(self).src() == old(self).src(),
            final(self).length == old(self).length,
            final(self).location == old(self).location,
            old(self).pos <= final(self).pos,
            final(self).pos as int == spec_skip_ws(old(self).src(), old(self).pos as int),
            match spec_scan(old(self).src(), spec_skip_ws(old(self).src(), old(self).pos as int)) {
                ScanTok::Eof => r matches Ok(tok) && tok@ == TokenV::Eof,
                ScanTok::Tok { t, width } => r matches Ok(tok) && tok@ == t,
                ScanTok::Fail { loc } => r matches Err(e) && e.location.offset as int == loc,
            },
    {
        self.skip_white_spaces();
        match scan_at(self.input, self.length, self.pos) {
            Ok((tok, _)) => Ok(tok),
            Err(te) => Err(te),
        }
    }

    /// If the next token equals `optional`, consumes it and reports `true`;
    /// otherwise consumes nothing beyond whitespace.
    fn consume_optional_token(&mut self, optional: Token) -> (r: bool)
        requires
            old(self).wf(),
            !(optional@ is Eof),
        ensures
            final(self).wf(),
            final(self).src() == old(self).src(),
            final(self).length == old(self).length,
            old(self).pos <= final(self).pos,
            ({
                let (c, p1) = spec_consume_optional(old(self).src(), old(self).vpos(), optional@);
                &&& r == c
                &&& final(self).vpos() == p1
                &&& (c ==> old(self).pos < final(self).pos)
            }),
    {
        proof {
            lemma_skip_ws_props(old(self).src(), old(self).vpos().at);
        }
        let found = match self.peek_token() {
            Ok(tok) => token_matches(&tok, &optional),
            Err(_) => false,
        };
        if found {
            let _ = self.next_token();
            true
        } else {
            false
        }
    }

    /// Same as [`Self::consume_optional_token`] for a keyword.
    fn consume_optional_keyword(&mut self, optional: Keyword) -> (r: bool)
        requires
            old(self).wf(),
        ensures
            final(self).wf(),
            final(self).src() == old(self).src(),
            final(self).length == old(self).length,
            old(self).pos <= final(self).pos,
            ({
                let (c, p1) = spec_consume_optional(
                    old(self).src(),
                    old(self).vpos(),
                    TokenV::Keyword(optional),
                );
                &&& r == c
                &&& final(self).vpos() == p1
                &&& (c ==> old(self).pos < final(self).pos)
            }),
    {
        self.consume_optional_token(Token::Keyword(optional))
    }

    /// Consumes the next token only if it matches one of the given keywords,
    /// tried in order; reports which one matched.
    #[verifier::loop_isolation(false)]
    fn consume_one_of(&mut self, keywords: &[Keyword]) -> (r: Option<Keyword>)
        requires
            old(self).wf(),
        ensures
            final(self).wf(),
            final(self).src() == old(self).src(),
            final(self).length == old(self).length,
            old(self).pos <= final(self).pos,
            ({
                let (k, p1) = spec_consume_one_of(old(self).src(), old(self).vpos(), keywords@, 0);
                &&& r == k
                &&& final(self).vpos() == p1
                &&& (k is Some ==> old(self).pos < final(self).pos)
            }),
    {
        let ghost pre = *self;
        let ghost goal = spec_consume_one_of(pre.src(), pre.vpos(), keywords@, 0);
        let n = keywords.len();
        let mut idx: usize = 0;
        while idx < n
            invariant
                self.wf(),
                self.src() == pre.src(),
                self.length == pre.length,
                pre.pos <= self.pos,
                n == keywords@.len(),
                idx <= n,
                spec_consume_one_of(pre.src(), self.vpos(), keywords@, idx as int) == goal,
            decreases n - idx,
        {
            let kw = *slice_index_get(keywords, idx);
            if self.consume_optional_keyword(kw) {
                return Some(kw);
            }
            idx = idx + 1;
        }
        None
    }

    /// Requires the next token to be exactly `expected` and returns it;
    /// anything else is an error at that token.
    fn expect_token(&mut self, expected: Token) -> (r: ParseResult<Token>)
        requires
            old(self).wf(),
        ensures
            final(self).wf(),
            final(self).src() == old(self).src(),
            final(self).length == old(self).length,
            old(self).pos <= final(self).pos,
            match spec_expect_token(old(self).src(), old(self).vpos(), expected@) {
                Parse::Done { v, pos } => {
                    &&& r matches Ok(tok) && tok@ == expected@
                    &&& final(self).vpos() == pos
                    &&& (!(expected@ is Eof) ==> old(self).pos < final(self).pos)
                },
                Parse::Fail { loc } => r matches Err(e) && e.location.offset as int == loc,
            },
    {
        let token = self.next_token()?;
        if token_matches(&token, &expected) {
            Ok(token)
        } else {
            Err(self.error("unexpected token"))
        }
    }

    /// Same as [`Self::expect_token`] for a keyword.
    fn expect_keyword(&mut self, expected: Keyword) -> (r: ParseResult<()>)
        requires
            old(self).wf(),
        ensures
            final(self).wf(),
            final(self).src() == old(self).src(),
            final(self).length == old(self).length,
            old(self).pos <= final(self).pos,
            match spec_expect_keyword(old(self).src(), old(self).vpos(), expected) {
                Parse::Done { v, pos } => {
                    &&& r is Ok
                    &&& final(self).vpos() == pos
                    &&& old(self).pos < final(self).pos
                },
                Parse::Fail { loc } => r matches Err(e) && e.location.offset as int == loc,
            },
    {
        match self.expect_token(Token::Keyword(expected)) {
            Ok(_) => Ok(()),
            Err(e) => Err(e),
        }
    }

    /// Requires the `;` statement terminator.
    fn expect_semicolon(&mut self) -> (r: ParseResult<()>)
        requires
            old(self).wf(),
        ensures
            final(self).wf(),
            final(self).src() == old(self).src(),
            final(self).length == old(self).length,
            old(self).pos <= final(self).pos,
            match spec_expect_semicolon(old(self).src(), old(self).vpos()) {
                Parse::Done { v, pos } => {
                    &&& r is Ok
                    &&& final(self).vpos() == pos
                    &&& old(self).pos < final(self).pos
                },
                Parse::Fail { loc } => r matches Err(e) && e.location.offset as int == loc,
            },
    {
        match self.next_token() {
            Err(_) => Err(self.error("missing ';' statement terminator")),
            Ok(tok) => {
                if token_matches(&tok, &Token::SemiColon) {
                    Ok(())
                } else {
                    Err(self.error("missing ';' statement terminator"))
                }
            },
        }
    }

    /// Requires the next token to match one of the given keywords; otherwise
    /// the offending token is consumed and reported as an error.
    fn expect_one_of(&mut self, keywords: &[Keyword]) -> (r: ParseResult<Keyword>)
        requires
            old(self).wf(),
        ensures
            final(self).wf(),
            final(self).src() == old(self).src(),
            final(self).length == old(self).length,
            old(self).pos <= final(self).pos,
            match spec_expect_one_of(old(self).src(), old(self).vpos(), keywords@) {
                Parse::Done { v, pos } => {
                    &&& r matches Ok(k) && k == v
                    &&& final(self).vpos() == pos
                    &&& old(self).pos < final(self).pos
                },
                Parse::Fail { loc } => r matches Err(e) && e.location.offset as int == loc,
            },
    {
        match self.consume_one_of(keywords) {
            Some(k) => Ok(k),
            None => {
                let _ = self.next_token()?;
                Err(self.error("unexpected token, expected one of the accepted keywords"))
            },
        }
    }

    /// Precedence of the next operator in the stream, 0 if none follows.
    fn get_next_precedence(&mut self) -> (r: u8)
        requires
            old(self).wf(),
        ensures
            final(self).wf(),
            final(self).src() == old(self).src(),
            final(self).length == old(self).length,
            final(self).location == old(self).location,
            old(self).pos <= final(self).pos,
            final(self).pos as int == spec_skip_ws(old(self).src(), old(self).pos as int),
            r as int == spec_next_precedence(old(self).src(), old(self).pos as int),
    {
        match self.peek_token() {
            Err(_) => 0,
            Ok(token) => match token {
                Token::Keyword(Keyword::Or) => 5,
                Token::Keyword(Keyword::And) => 10,
                Token::Eq => 20,
                Token::Neq => 20,
                Token::Gt => 20,
                Token::GtEq => 20,
                Token::Lt => 20,
                Token::LtEq => 20,
                Token::Plus => 30,
                Token::Minus => 30,
                Token::Mul => 40,
                Token::Div => 40,
                _ => 0,
            },
        }
    }

    /// Parses the beginning of an expression: an identifier, `*`, a literal,
    /// or a parenthesized expression.
    fn parse_prefix(&mut self) -> (r: ParseResult<Expression>)
        requires
            old(self).wf(),
        ensures
            final(self).wf(),
            final(self).src() == old(self).src(),
            final(self).length == old(self).length,
            old(self).pos <= final(self).pos,
            match spec_parse_prefix(old(self).src(), old(self).vpos()) {
                Parse::Done { v, pos } => {
                    &&& r matches Ok(e) && e@ == v
                    &&& final(self).vpos() == pos
                    &&& old(self).pos < final(self).pos
                },
                Parse::Fail { loc } => r matches Err(e) && e.location.offset as int == loc,
            },
        decreases old(self).remaining(), 0int,
    {
        match self.next_token()? {
            Token::Identifier(ident) => Ok(Expression::Identifier(ident)),
            Token::Mul => Ok(Expression::Wildcard),
            Token::Number(num) => Ok(Expression::Value(Value::Number(num))),
            Token::Str(string) => Ok(Expression::Value(Value::Str(string))),
            Token::LeftParen => {
                let expr = self.parse_expression()?;
                self.expect_token(Token::RightParen)?;
                Ok(expr)
            },
            _ => Err(self.error("expected an identifier, raw value or opening parenthesis")),
        }
    }

    /// Parses an infix step: an operator token followed by its right operand,
    /// combined with `left` into a `BinaryOperation`.
    fn parse_infix(&mut self, left: Expression, precedence: u8) -> (r: ParseResult<Expression>)
        requires
            old(self).wf(),
        ensures
            final(self).wf(),
            final(self).src() == old(self).src(),
            final(self).length == old(self).length,
            old(self).pos <= final(self).pos,
            match spec_parse_infix(old(self).src(), left@, old(self).vpos(), precedence as int) {
                Parse::Done { v, pos } => {
                    &&& r matches Ok(e) && e@ == v
                    &&& final(self).vpos() == pos
                    &&& old(self).pos < final(self).pos
                },
                Parse::Fail { loc } => r matches Err(e) && e.location.offset as int == loc,
            },
        decreases old(self).remaining(), 1int,
    {
        let token = self.next_token()?;
        let operator = match token {
            Token::Plus => BinaryOperator::Plus,
            Token::Minus => BinaryOperator::Minus,
            Token::Div => BinaryOperator::Div,
            Token::Mul => BinaryOperator::Mul,
            Token::Eq => BinaryOperator::Eq,
            Token::Neq => BinaryOperator::Neq,
            Token::Gt => BinaryOperator::Gt,
            Token::GtEq => BinaryOperator::GtEq,
            Token::Lt => BinaryOperator::Lt,
            Token::LtEq => BinaryOperator::LtEq,
            Token::Keyword(Keyword::And) => BinaryOperator::And,
            Token::Keyword(Keyword::Or) => BinaryOperator::Or,
            _ => {
                return Err(self.error("expected a binary operator"));
            },
        };
        let right = self.parse_expr(precedence)?;
        Ok(Expression::BinaryOperation {
            left: Box::new(left),
            operator,
            right: Box::new(right),
        })
    }

    /// The precedence-climbing loop: a prefix term, then operators that bind
    /// tighter than `precedence`, each with its right operand.
    #[verifier::loop_isolation(false)]
    fn parse_expr(&mut self, precedence: u8) -> (r: ParseResult<Expression>)
        requires
            old(self).wf(),
        ensures
            final(self).wf(),
            final(self).src() == old(self).src(),
            final(self).length == old(self).length,
            old(self).pos <= final(self).pos,
            match spec_parse_expr(old(self).src(), old(self).vpos(), precedence as int) {
                Parse::Done { v, pos } => {
                    &&& r matches Ok(e) && e@ == v
                    &&& final(self).vpos() == pos
                    &&& old(self).pos < final(self).pos
                },
                Parse::Fail { loc } => r matches Err(e) && e.location.offset as int == loc,
            },
        decreases old(self).remaining(), 3int,
    {
        let ghost s = old(self).src();
        let mut expr = self.parse_prefix()?;
        let ghost mut loop_state = self.vpos();
        let ghost goal = spec_expr_loop(s, expr@, loop_state, precedence as int);
        proof {
            assert(spec_parse_expr(s, old(self).vpos(), precedence as int) == goal);
        }
        let mut next_precedence = self.get_next_precedence();
        while precedence < next_precedence
            invariant
                self.wf(),
                self.src() == s,
                old(self).pos < self.pos,
                0 <= loop_state.at <= s.len(),
                self.vpos().at == spec_skip_ws(s, loop_state.at),
                self.vpos().last == loop_state.last,
                loop_state.at <= self.vpos().at,
                next_precedence as int == spec_next_precedence(s, loop_state.at),
                spec_expr_loop(s, expr@, loop_state, precedence as int) == goal,
            decreases self.length - self.pos,
        {
            expr = self.parse_infix(expr, next_precedence)?;
            proof {
                loop_state = self.vpos();
            }
            next_precedence = self.get_next_precedence();
        }
        Ok(expr)
    }

    /// Parses a whole expression, climbing from the lowest precedence.
    pub fn parse_expression(&mut self) -> (r: ParseResult<Expression>)
        requires
            old(self).wf(),
        ensures
            final(self).wf(),
            final(self).src() == old(self).src(),
            old(self).vpos().at <= final(self).vpos().at,
            match spec_parse_expression(old(self).src(), old(self).vpos()) {
                Parse::Done { v, pos } => {
                    &&& r matches Ok(e) && e@ == v
                    &&& final(self).vpos() == pos
                    &&& old(self).vpos().at < final(self).vpos().at
                },
                Parse::Fail { loc } => r matches Err(e) && e.location.offset as int == loc,
            },
        decreases old(self).remaining(), 4int,
    {
        self.parse_expr(0)
    }

    /// Requires an identifier token and returns its text.
    fn parse_identifier(&mut self) -> (r: ParseResult<String>)
        requires
            old(self).wf(),
        ensures
            final(self).wf(),
            final(self).src() == old(self).src(),
            final(self).length == old(self).length,
            old(self).pos <= final(self).pos,
            match spec_parse_identifier(old(self).src(), old(self).vpos()) {
                Parse::Done { v, pos } => {
                    &&& r matches Ok(name) && name@ == v
                    &&& final(self).vpos() == pos
                    &&& old(self).pos < final(self).pos
                },
                Parse::Fail { loc } => r matches Err(e) && e.location.offset as int == loc,
            },
    {
        match self.next_token()? {
            Token::Identifier(name) => Ok(name),
            _ => Err(self.error("expected identifier")),
        }
    }

    /// Parses the comma-separated expression lists after `SELECT`, `SET` or
    /// `VALUES`: surrounding parentheses are optional, at least one item is
    /// required.
    #[verifier::rlimit(50)]
    fn parse_comma_separated_expressions(&mut self) -> (r: ParseResult<Vec<Expression>>)
        requires
            old(self).wf(),
        ensures
            final(self).wf(),
            final(self).src() == old(self).src(),
            final(self).length == old(self).length,
            old(self).pos <= final(self).pos,
            match spec_comma_separated(old(self).src(), expression_item(), false, old(self).vpos()) {
                Parse::Done { v, pos } => {
                    &&& r matches Ok(items) && items.deep_view() == v
                    &&& final(self).vpos() == pos
                    &&& old(self).pos < final(self).pos
                },
                Parse::Fail { loc } => r matches Err(e) && e.location.offset as int == loc,
            },
    {
        let ghost pre = *self;
        let ghost s = pre.src();
        let left_paren = self.consume_optional_token(Token::LeftParen);
        let first = self.parse_expression()?;
        let ghost firstv = first@;
        let mut results: Vec<Expression> = Vec::new();
        results.push(first);
        proof {
            assert(results.deep_view() =~= seq![firstv]);
        }
        let ghost goal = spec_list_rest(s, expression_item(), seq![firstv], self.vpos());
        proof {
            assert(spec_comma_separated(s, expression_item(), false, pre.vpos()) == spec_close_list(
                s,
                left_paren,
                goal,
            ));
        }
        loop
            invariant_except_break
                pre == *old(self),
                s == pre.src(),
                self.wf(),
                self.src() == s,
                self.length == pre.length,
                pre.pos < self.pos,
                spec_list_rest(s, expression_item(), results.deep_view(), self.vpos()) == goal,
                spec_comma_separated(s, expression_item(), false, pre.vpos()) == spec_close_list(
                    s,
                    left_paren,
                    goal,
                ),
            ensures
                pre == *old(self),
                s == pre.src(),
                self.wf(),
                self.src() == s,
                self.length == pre.length,
                pre.pos < self.pos,
                goal == (Parse::Done { v: results.deep_view(), pos: self.vpos() }),
                spec_comma_separated(s, expression_item(), false, pre.vpos()) == spec_close_list(
                    s,
                    left_paren,
                    goal,
                ),
            decreases self.length - self.pos,
        {
            let more = self.consume_optional_token(Token::Comma);
            if !more {
                break;
            }
            let item = self.parse_expression()?;
            let ghost itemv = item@;
            let ghost prev = results.deep_view();
            results.push(item);
            proof {
                assert(results.deep_view() =~= prev.push(itemv));
            }
        }
        if left_paren {
            self.expect_token(Token::RightParen)?;
        }
        Ok(results)
    }

    /// Parses the parenthesized column-definition list of `CREATE TABLE`;
    /// the parentheses are required.
    #[verifier::rlimit(50)]
    fn parse_schema(&mut self) -> (r: ParseResult<Vec<Column>>)
        requires
            old(self).wf(),
        ensures
            final(self).wf(),
            final(self).src() == old(self).src(),
            final(self).length == old(self).length,
            old(self).pos <= final(self).pos,
            match spec_comma_separated(old(self).src(), column_item(), true, old(self).vpos()) {
                Parse::Done { v, pos } => {
                    &&& r matches Ok(items) && items.deep_view() == v
                    &&& final(self).vpos() == pos
                    &&& old(self).pos < final(self).pos
                },
                Parse::Fail { loc } => r matches Err(e) && e.location.offset as int == loc,
            },
    {
        let ghost pre = *self;
        let ghost s = pre.src();
        let left_paren = self.consume_optional_token(Token::LeftParen);
        if !left_paren {
            return Err(self.error("opening parenthesis is required"));
        }
        let first = self.parse_column()?;
        let ghost firstv = first@;
        let mut results: Vec<Column> = Vec::new();
        results.push(first);
        proof {
            assert(results.deep_view() =~= seq![firstv]);
        }
        let ghost goal = spec_list_rest(s, column_item(), seq![firstv], self.vpos());
        proof {
            assert(spec_comma_separated(s, column_item(), true, pre.vpos()) == spec_close_list(
                s,
                left_paren,
                goal,
            ));
        }
        loop
            invariant_except_break
                pre == *old(self),
                s == pre.src(),
                self.wf(),
                self.src() == s,
                self.length == pre.length,
                pre.pos < self.pos,
                spec_list_rest(s, column_item(), results.deep_view(), self.vpos()) == goal,
                spec_comma_separated(s, column_item(), true, pre.vpos()) == spec_close_list(
                    s,
                    left_paren,
                    goal,
                ),
            ensures
                pre == *old(self),
                s == pre.src(),
                self.wf(),
                self.src() == s,
                self.length == pre.length,
                pre.pos < self.pos,
                goal == (Parse::Done { v: results.deep_view(), pos: self.vpos() }),
                spec_comma_separated(s, column_item(), true, pre.vpos()) == spec_close_list(
                    s,
                    left_paren,
                    goal,
                ),
            decreases self.length - self.pos,
        {
            let more = self.consume_optional_token(Token::Comma);
            if !more {
                break;
            }
            let item = self.parse_column()?;
            let ghost itemv = item@;
            let ghost prev = results.deep_view();
            results.push(item);
            proof {
                assert(results.deep_view() =~= prev.push(itemv));
            }
        }
        self.expect_token(Token::RightParen)?;
        Ok(results)
    }

    /// Parses the parenthesized list of bare target-column identifiers of
    /// `INSERT INTO`; the parentheses are required.
    #[verifier::rlimit(50)]
    fn parse_identifier_list(&mut self) -> (r: ParseResult<Vec<String>>)
        requires
            old(self).wf(),
        ensures
            final(self).wf(),
            final(self).src() == old(self).src(),
            final(self).length == old(self).length,
            old(self).pos <= final(self).pos,
            match spec_comma_separated(old(self).src(), identifier_item(), true, old(self).vpos()) {
                Parse::Done { v, pos } => {
                    &&& r matches Ok(items) && items.deep_view() == v
                    &&& final(self).vpos() == pos
                    &&& old(self).pos < final(self).pos
                },
                Parse::Fail { loc } => r matches Err(e) && e.location.offset as int == loc,
            },
    {
        let ghost pre = *self;
        let ghost s = pre.src();
        let left_paren = self.consume_optional_token(Token::LeftParen);
        if !left_paren {
            return Err(self.error("opening parenthesis is required"));
        }
        let first = self.parse_identifier()?;
        let ghost firstv = first@;
        let mut results: Vec<String> = Vec::new();
        results.push(first);
        proof {
            assert(results.deep_view() =~= seq![firstv]);
        }
        let ghost goal = spec_list_rest(s, identifier_item(), seq![firstv], self.vpos());
        proof {
            assert(spec_comma_separated(s, identifier_item(), true, pre.vpos()) == spec_close_list(
                s,
                left_paren,
                goal,
            ));
        }
        loop
            invariant_except_break
                pre == *old(self),
                s == pre.src(),
                self.wf(),
                self.src() == s,
                self.length == pre.length,
                pre.pos < self.pos,
                spec_list_rest(s, identifier_item(), results.deep_view(), self.vpos()) == goal,
                spec_comma_separated(s, identifier_item(), true, pre.vpos()) == spec_close_list(
                    s,
                    left_paren,
                    goal,
                ),
            ensures
                pre == *old(self),
                s == pre.src(),
                self.wf(),
                self.src() == s,
                self.length == pre.length,
                pre.pos < self.pos,
                goal == (Parse::Done { v: results.deep_view(), pos: self.vpos() }),
                spec_comma_separated(s, identifier_item(), true, pre.vpos()) == spec_close_list(
                    s,
                    left_paren,
                    goal,
                ),
            decreases self.length - self.pos,
        {
            let more = self.consume_optional_token(Token::Comma);
            if !more {
                break;
            }
            let item = self.parse_identifier()?;
            let ghost itemv = item@;
            let ghost prev = results.deep_view();
            results.push(item);
            proof {
                assert(results.deep_view() =~= prev.push(itemv));
            }
        }
        self.expect_token(Token::RightParen)?;
        Ok(results)
    }

    /// Parses one column definition of a `CREATE TABLE` schema: name, data
    /// type, optional `PRIMARY KEY` or `UNIQUE` constraint.
    fn parse_column(&mut self) -> (r: ParseResult<Column>)
        requires
            old(self).wf(),
        ensures
            final(self).wf(),
            final(self).src() == old(self).src(),
            final(self).length == old(self).length,
            old(self).pos <= final(self).pos,
            match spec_parse_column(old(self).src(), old(self).vpos()) {
                Parse::Done { v, pos } => {
                    &&& r matches Ok(c) && c@ == v
                    &&& final(self).vpos() == pos
                    &&& old(self).pos < final(self).pos
                },
                Parse::Fail { loc } => r matches Err(e) && e.location.offset as int == loc,
            },
    {
        let name = self.parse_identifier()?;
        let data_type = match self.next_token()? {
            Token::Keyword(Keyword::Int) => DataType::Int,
            Token::Keyword(Keyword::Varchar) => {
                self.expect_token(Token::LeftParen)?;
                let length = match self.next_token()? {
                    Token::Number(num) => match parse_number_usize(num.as_str()) {
                        Some(l) => l,
                        None => {
                            return Err(self.error("incorrect varchar length"));
                        },
                    },
                    _ => {
                        return Err(self.error("expected varchar length"));
                    },
                };
                self.expect_token(Token::RightParen)?;
                DataType::Varchar(length)
            },
            Token::Keyword(_) => {
                return Err(self.error("unexpected keyword"));
            },
            _ => {
                return Err(self.error("expected data type"));
            },
        };
        let keywords = [Keyword::Primary, Keyword::Unique];
        proof {
            assert(keywords@ =~= seq![Keyword::Primary, Keyword::Unique]);
        }
        let constraint = match self.consume_one_of(&keywords) {
            Some(Keyword::Primary) => {
                self.expect_keyword(Keyword::Key)?;
                Some(Constraint::PrimaryKey)
            },
            Some(Keyword::Unique) => Some(Constraint::Unique),
            _ => None,
        };
        Ok(Column { name, data_type, constraint })
    }

    /// Parses the entire `WHERE` clause if the next token is the `WHERE`
    /// keyword.
    fn parse_optional_where(&mut self) -> (r: ParseResult<Option<Expression>>)
        requires
            old(self).wf(),
        ensures
            final(self).wf(),
            final(self).src() == old(self).src(),
            final(self).length == old(self).length,
            old(self).pos <= final(self).pos,
            match spec_parse_optional_where(old(self).src(), old(self).vpos()) {
                Parse::Done { v, pos } => {
                    &&& r matches Ok(w) && w.deep_view() == v
                    &&& final(self).vpos() == pos
                },
                Parse::Fail { loc } => r matches Err(e) && e.location.offset as int == loc,
            },
    {
        if self.consume_optional_keyword(Keyword::Where) {
            let expr = self.parse_expression()?;
            Ok(Some(expr))
        } else {
            Ok(None)
        }
    }

    /// Parses the table identifier of a `FROM`/`UPDATE`/`DELETE` clause and
    /// an optional `WHERE` clause after it.
    fn parse_from_and_optional_where(&mut self) -> (r: ParseResult<(String, Option<Expression>)>)
        requires
            old(self).wf(),
        ensures
            final(self).wf(),
            final(self).src() == old(self).src(),
            final(self).length == old(self).length,
            old(self).pos <= final(self).pos,
            match spec_parse_from_and_optional_where(old(self).src(), old(self).vpos()) {
                Parse::Done { v, pos } => {
                    &&& r matches Ok(fw) && fw.0@ == v.0 && fw.1.deep_view() == v.1
                    &&& final(self).vpos() == pos
                    &&& old(self).pos < final(self).pos
                },
                Parse::Fail { loc } => r matches Err(e) && e.location.offset as int == loc,
            },
    {
        let from = self.parse_identifier()?;
        let where_clause = self.parse_optional_where()?;
        Ok((from, where_clause))
    }

    /// Parses the body of one statement, after its leading keyword was
    /// consumed.
    #[verifier::rlimit(80)]
    fn parse_statement_body(&mut self, keyword: Keyword) -> (r: ParseResult<Statement>)
        requires
            old(self).wf(),
        ensures
            final(self).wf(),
            final(self).src() == old(self).src(),
            final(self).length == old(self).length,
            old(self).pos <= final(self).pos,
            match spec_parse_statement_body(old(self).src(), keyword, old(self).vpos()) {
                Parse::Done { v, pos } => {
                    &&& r matches Ok(st) && st@ == v
                    &&& final(self).vpos() == pos
                },
                Parse::Fail { loc } => r matches Err(e) && e.location.offset as int == loc,
            },
    {
        proof {
            reveal(spec_parse_statement_body);
        }
        match keyword {
            Keyword::Select => {
                let columns = self.parse_comma_separated_expressions()?;
                self.expect_keyword(Keyword::From)?;
                let (from, where_clause) = self.parse_from_and_optional_where()?;
                Ok(Statement::Select { columns, from, where_clause })
            },
            Keyword::Create => {
                let keywords = [Keyword::Database, Keyword::Table];
                proof {
                    assert(keywords@ =~= seq![Keyword::Database, Keyword::Table]);
                }
                let which = self.expect_one_of(&keywords)?;
                let identifier = self.parse_identifier()?;
                if let Keyword::Database = which {
                    Ok(Statement::Create(Create::Database(identifier)))
                } else {
                    let columns = self.parse_schema()?;
                    Ok(Statement::Create(Create::Table { name: identifier, columns }))
                }
            },
            Keyword::Update => {
                let table = self.parse_identifier()?;
                self.expect_keyword(Keyword::SetKw)?;
                let columns = self.parse_comma_separated_expressions()?;
                let where_clause = self.parse_optional_where()?;
                Ok(Statement::Update { table, columns, where_clause })
            },
            Keyword::Insert => {
                self.expect_keyword(Keyword::Into)?;
                let into = self.parse_identifier()?;
                let columns = self.parse_identifier_list()?;
                self.expect_keyword(Keyword::Values)?;
                let values = self.parse_comma_separated_expressions()?;
                Ok(Statement::Insert { into, columns, values })
            },
            Keyword::Delete => {
                self.expect_keyword(Keyword::From)?;
                let (from, where_clause) = self.parse_from_and_optional_where()?;
                Ok(Statement::Delete { from, where_clause })
            },
            Keyword::Drop => {
                let keywords = [Keyword::Database, Keyword::Table];
                proof {
                    assert(keywords@ =~= seq![Keyword::Database, Keyword::Table]);
                }
                let which = self.expect_one_of(&keywords)?;
                let identifier = self.parse_identifier()?;
                if let Keyword::Database = which {
                    Ok(Statement::Drop(Drop::Database(identifier)))
                } else {
                    Ok(Statement::Drop(Drop::Table(identifier)))
                }
            },
            _ => Err(self.error("unexpected initial statement keyword")),
        }
    }

    /// Parses a single SQL statement: a leading statement keyword, its body,
    /// and the mandatory `;` terminator.
    pub fn parse_statement(&mut self) -> (r: ParseResult<Statement>)
        requires
            old(self).wf(),
        ensures
            final(self).wf(),
            final(self).src() == old(self).src(),
            old(self).vpos().at <= final(self).vpos().at,
            match spec_parse_statement(old(self).src(), old(self).vpos()) {
                Parse::Done { v, pos } => {
                    &&& r matches Ok(st) && st@ == v
                    &&& final(self).vpos() == pos
                    &&& old(self).vpos().at < final(self).vpos().at
                },
                Parse::Fail { loc } => r matches Err(e) && e.location.offset as int == loc,
            },
    {
        let keyword = match self.next_token()? {
            Token::Keyword(k) => k,
            _ => {
                return Err(
                    self.error(
                        "unexpected initial token, statements must start with one of the supported keywords",
                    ),
                );
            },
        };
        let statement = self.parse_statement_body(keyword)?;
        self.expect_semicolon()?;
        Ok(statement)
    }

    /// Attempts to parse the whole input into its list of statements, in
    /// source order. The first error anywhere — lexical or syntactic —
    /// aborts the call and discards every statement already parsed.
    #[verifier::rlimit(100)]
    pub fn try_parse(&mut self) -> (r: ParseResult<Vec<Statement>>)
        requires
            old(self).wf(),
        ensures
            final(self).wf(),
            final(self).src() == old(self).src(),
            match spec_parse_program(old(self).src(), old(self).vpos(), Seq::empty()) {
                Parse::Done { v, pos } => {
                    &&& r matches Ok(statements) && statements.deep_view() == v
                    &&& final(self).vpos() == pos
                },
                Parse::Fail { loc } => r matches Err(e) && e.location.offset as int == loc,
            },
    {
        let ghost pre = *self;
        let ghost s = pre.src();
        let ghost goal = spec_parse_program(s, pre.vpos(), Seq::empty());
        let mut statements: Vec<Statement> = Vec::new();
        proof {
            assert(statements.deep_view() =~= Seq::<StatementV>::empty());
        }
        loop
            invariant_except_break
                pre == *old(self),
                s == pre.src(),
                goal == spec_parse_program(s, pre.vpos(), Seq::<StatementV>::empty()),
                self.wf(),
                self.src() == s,
                self.length == pre.length,
                pre.pos <= self.pos,
                spec_parse_program(s, self.vpos(), statements.deep_view()) == goal,
            ensures
                pre == *old(self),
                s == pre.src(),
                goal == spec_parse_program(s, pre.vpos(), Seq::<StatementV>::empty()),
                self.wf(),
                self.src() == s,
                goal == (Parse::Done { v: statements.deep_view(), pos: self.vpos() }),
            decreases self.length - self.pos,
        {
            let ghost p_head = self.vpos();
            proof {
                lemma_scan_not_eof_token(s, spec_skip_ws(s, p_head.at));
            }
            let at_end = match self.peek_token() {
                Ok(tok) => token_matches(&tok, &Token::Eof),
                Err(_) => false,
            };
            if at_end {
                break;
            }
            let st = self.parse_statement()?;
            let ghost stv = st@;
            let ghost prev = statements.deep_view();
            statements.push(st);
            proof {
                assert(statements.deep_view() =~= prev.push(stv));
            }
        }
        Ok(statements)
    }
}

/// Reads an unsigned decimal number the way `parse::<usize>` would: the
/// value if the text is a nonempty digit string whose value fits, nothing
/// otherwise.
fn parse_number_usize(num: &str) -> (r: Option<usize>)
    ensures
        match spec_parse_usize(num@) {
            Some(n) => r matches Some(x) && x as int == n,
            None => r is None,
        },
{
    let n = num.unicode_len();
    if n == 0 {
        return None;
    }
    let mut val: usize = 0;
    let mut i: usize = 0;
    while i < n
        invariant
            n == num@.len(),
            i <= n,
            all_digits(num@.subrange(0, i as int)),
            val as int == digits_val(num@.subrange(0, i as int)),
        decreases n - i,
    {
        let c = num.get_char(i);
        if !digit_char(c) {
            assert(!all_digits(num@));
            return None;
        }
        let d = (c as u32) - ('0' as u32);
        let ghost prefix = num@.subrange(0, i as int);
        let ghost extended = num@.subrange(0, i as int + 1);
        proof {
            assert(extended.drop_last() =~= prefix);
            assert(extended.last() == num@[i as int]);
            assert(digits_val(extended) == digits_val(prefix) * 10 + (c as int - '0' as int));
        }
        if val > (usize::MAX - (d as usize)) / 10 {
            // the value of this prefix alone no longer fits in usize
            proof {
                assert(val * 10 + d > usize::MAX) by (nonlinear_arith)
                    requires
                        val > (usize::MAX - (d as usize)) / 10,
                        d <= 9,
                ;
                if all_digits(num@) && digits_val(num@) <= usize::MAX {
                    lemma_digits_val_prefix(num@, i as int + 1);
                    assert(digits_val(extended) <= digits_val(num@));
                    assert(false);
                }
            }
            return None;
        }
        proof {
            assert(val * 10 + d <= usize::MAX) by (nonlinear_arith)
                requires
                    val <= (usize::MAX - (d as usize)) / 10,
                    d <= 9,
            ;
        }
        val = val * 10 + (d as usize);
        i = i + 1;
    }
    proof {
        assert(num@.subrange(0, n as int) =~= num@);
    }
    Some(val)
}

} // verus!
