//! The specification-level grammar: mathematical functions over the input
//! character sequence that define exactly which inputs parse, into which
//! trees, and at which position an input is rejected. The executable parser
//! is proved equal to these functions.
//!
//! A few branches test that the cursor moved forward and stayed in bounds and
//! otherwise reject; the cursor always does, so those branches are never
//! taken — they only keep the recursion visibly well-founded.

use vstd::prelude::*;

use crate::statement::{
    BinaryOperator, ColumnV, Constraint, CreateV, DataType, DropV, ExpressionV, StatementV, ValueV,
};
use crate::token::{is_digit_char, Keyword, TokenV};
use crate::tokenizer::{lemma_run_in_bounds, spec_scan, ws_pred, ScanTok};

verus! {

/// A parsing state: the cursor `at`, and `last`, the start of the last
/// consumed token (the position some errors are reported at).
pub struct Pos {
    pub at: int,
    pub last: int,
}

/// The outcome of a specification-level parse: the parsed value with the
/// state after it, or the location of the first error.
pub enum Parse<T> {
    Done { v: T, pos: Pos },
    Fail { loc: int },
}

/// The cursor after the whitespace token at `at`, if there is one; the
/// scanner returns maximal runs, so one step suffices.
pub open spec fn spec_skip_ws(s: Seq<char>, at: int) -> int {
    match spec_scan(s, at) {
        ScanTok::Tok { t: TokenV::Whitespace(_), width } => at + width,
        _ => at,
    }
}

/// Skipping whitespace stays within the input, lands on something that is
/// not a whitespace token (runs are maximal), and is idempotent.
pub proof fn lemma_skip_ws_props(s: Seq<char>, at: int)
    requires
        0 <= at <= s.len(),
    ensures
        at <= spec_skip_ws(s, at) <= s.len(),
        match spec_scan(s, spec_skip_ws(s, at)) {
            ScanTok::Tok { t, .. } => !(t is Whitespace),
            _ => true,
        },
        spec_skip_ws(s, spec_skip_ws(s, at)) == spec_skip_ws(s, at),
{
    lemma_run_in_bounds(s, at, ws_pred());
}

/// The next token after whitespace: the token, the location of its first
/// character, and the state after consuming it — or the lexical error.
/// At the end of the input the token is `Eof` and the cursor does not move.
pub enum NextTok {
    Tok { t: TokenV, loc: int, pos: Pos },
    Fail { loc: int },
}

pub open spec fn spec_next(s: Seq<char>, p: Pos) -> NextTok {
    let j = spec_skip_ws(s, p.at);
    match spec_scan(s, j) {
        ScanTok::Eof => NextTok::Tok { t: TokenV::Eof, loc: j, pos: Pos { at: j, last: j } },
        ScanTok::Tok { t, width } => NextTok::Tok { t, loc: j, pos: Pos { at: j + width, last: j } },
        ScanTok::Fail { loc } => NextTok::Fail { loc },
    }
}

/// Consume the next token if and only if it equals `t`; either way the cursor
/// ends up past the leading whitespace.
pub open spec fn spec_consume_optional(s: Seq<char>, p: Pos, t: TokenV) -> (bool, Pos) {
    let j = spec_skip_ws(s, p.at);
    match spec_scan(s, j) {
        ScanTok::Tok { t: got, width } => if got == t {
            (true, Pos { at: j + width, last: j })
        } else {
            (false, Pos { at: j, last: p.last })
        },
        _ => (false, Pos { at: j, last: p.last }),
    }
}

/// Require the next token to equal `t`; a mismatch is an error at that
/// token's first character.
pub open spec fn spec_expect_token(s: Seq<char>, p: Pos, t: TokenV) -> Parse<()> {
    match spec_next(s, p) {
        NextTok::Fail { loc } => Parse::Fail { loc },
        NextTok::Tok { t: got, loc, pos } => if got == t {
            Parse::Done { v: (), pos }
        } else {
            Parse::Fail { loc }
        },
    }
}

pub open spec fn spec_expect_keyword(s: Seq<char>, p: Pos, k: Keyword) -> Parse<()> {
    spec_expect_token(s, p, TokenV::Keyword(k))
}

/// Require the statement terminator. A token that is not `;` is an error at
/// that token; a lexical error here is reported at the last consumed token.
pub open spec fn spec_expect_semicolon(s: Seq<char>, p: Pos) -> Parse<()> {
    match spec_next(s, p) {
        NextTok::Fail { loc } => Parse::Fail { loc: p.last },
        NextTok::Tok { t: got, loc, pos } => if got == TokenV::SemiColon {
            Parse::Done { v: (), pos }
        } else {
            Parse::Fail { loc }
        },
    }
}

/// Try the keywords from index `idx` on, in order; consume and return the
/// first that matches the next token.
pub open spec fn spec_consume_one_of(
    s: Seq<char>,
    p: Pos,
    kws: Seq<Keyword>,
    idx: int,
) -> (Option<Keyword>, Pos)
    decreases kws.len() - idx,
{
    if idx < 0 || idx >= kws.len() {
        (None, p)
    } else {
        let (c, p1) = spec_consume_optional(s, p, TokenV::Keyword(kws[idx]));
        if c {
            (Some(kws[idx]), p1)
        } else {
            spec_consume_one_of(s, p1, kws, idx + 1)
        }
    }
}

/// Require one of the keywords; when none matches, the next token is consumed
/// and the error is at its first character.
pub open spec fn spec_expect_one_of(s: Seq<char>, p: Pos, kws: Seq<Keyword>) -> Parse<Keyword> {
    let (r, p1) = spec_consume_one_of(s, p, kws, 0);
    match r {
        Some(k) => Parse::Done { v: k, pos: p1 },
        None => match spec_next(s, p1) {
            NextTok::Fail { loc } => Parse::Fail { loc },
            NextTok::Tok { loc, .. } => Parse::Fail { loc },
        },
    }
}

/// Require an identifier token and yield its name.
pub open spec fn spec_parse_identifier(s: Seq<char>, p: Pos) -> Parse<Seq<char>> {
    match spec_next(s, p) {
        NextTok::Fail { loc } => Parse::Fail { loc },
        NextTok::Tok { t, loc, pos } => match t {
            TokenV::Identifier(name) => Parse::Done { v: name, pos },
            _ => Parse::Fail { loc },
        },
    }
}

/// The binary operator a token denotes, if any.
pub open spec fn op_of(t: TokenV) -> Option<BinaryOperator> {
    match t {
        TokenV::Plus => Some(BinaryOperator::Plus),
        TokenV::Minus => Some(BinaryOperator::Minus),
        TokenV::Div => Some(BinaryOperator::Div),
        TokenV::Mul => Some(BinaryOperator::Mul),
        TokenV::Eq => Some(BinaryOperator::Eq),
        TokenV::Neq => Some(BinaryOperator::Neq),
        TokenV::Gt => Some(BinaryOperator::Gt),
        TokenV::GtEq => Some(BinaryOperator::GtEq),
        TokenV::Lt => Some(BinaryOperator::Lt),
        TokenV::LtEq => Some(BinaryOperator::LtEq),
        TokenV::Keyword(Keyword::And) => Some(BinaryOperator::And),
        TokenV::Keyword(Keyword::Or) => Some(BinaryOperator::Or),
        _ => None,
    }
}

/// The fixed precedence table; higher binds tighter, and any token that is
/// not an operator has precedence 0, which ends the climbing loop.
pub open spec fn prec_of(t: TokenV) -> int {
    match t {
        TokenV::Keyword(Keyword::Or) => 5,
        TokenV::Keyword(Keyword::And) => 10,
        TokenV::Eq => 20,
        TokenV::Neq => 20,
        TokenV::Gt => 20,
        TokenV::GtEq => 20,
        TokenV::Lt => 20,
        TokenV::LtEq => 20,
        TokenV::Plus => 30,
        TokenV::Minus => 30,
        TokenV::Mul => 40,
        TokenV::Div => 40,
        _ => 0,
    }
}

/// Precedence of the next token after whitespace; 0 at the end of the input
/// or on a lexical error (the error surfaces when the token is consumed).
pub open spec fn spec_next_precedence(s: Seq<char>, at: int) -> int {
    match spec_scan(s, spec_skip_ws(s, at)) {
        ScanTok::Tok { t, .. } => prec_of(t),
        _ => 0,
    }
}

/// A prefix term: an identifier, `*`, a literal, or a parenthesized
/// expression whose parentheses are consumed and not represented.
pub open spec fn spec_parse_prefix(s: Seq<char>, p: Pos) -> Parse<ExpressionV>
    decreases s.len() - p.at, 0int,
{
    match spec_next(s, p) {
        NextTok::Fail { loc } => Parse::Fail { loc },
        NextTok::Tok { t, loc, pos } => match t {
            TokenV::Identifier(name) => Parse::Done { v: ExpressionV::Identifier(name), pos },
            TokenV::Mul => Parse::Done { v: ExpressionV::Wildcard, pos },
            TokenV::Number(n) => Parse::Done { v: ExpressionV::Value(ValueV::Number(n)), pos },
            TokenV::Str(t) => Parse::Done { v: ExpressionV::Value(ValueV::Str(t)), pos },
            TokenV::LeftParen => {
                if pos.at <= p.at || pos.at > s.len() {
                    Parse::Fail { loc: pos.at }
                } else {
                    match spec_parse_expr(s, pos, 0) {
                        Parse::Fail { loc: l } => Parse::Fail { loc: l },
                        Parse::Done { v, pos: p2 } => match spec_expect_token(
                            s,
                            p2,
                            TokenV::RightParen,
                        ) {
                            Parse::Fail { loc: l } => Parse::Fail { loc: l },
                            Parse::Done { pos: p3, .. } => Parse::Done { v, pos: p3 },
                        },
                    }
                }
            },
            _ => Parse::Fail { loc },
        },
    }
}

/// Precedence climbing: parse one prefix term, then, while the next operator
/// binds tighter than `minp`, combine it with its right operand.
pub open spec fn spec_parse_expr(s: Seq<char>, p: Pos, minp: int) -> Parse<ExpressionV>
    decreases s.len() - p.at, 3int,
{
    match spec_parse_prefix(s, p) {
        Parse::Fail { loc } => Parse::Fail { loc },
        Parse::Done { v, pos } => {
            if pos.at < p.at || pos.at > s.len() {
                Parse::Fail { loc: pos.at }
            } else {
                spec_expr_loop(s, v, pos, minp)
            }
        },
    }
}

/// The climbing loop around `left`: each step consumes one operator that
/// binds tighter than `minp` together with its right operand, so equal
/// precedences associate to the left.
pub open spec fn spec_expr_loop(s: Seq<char>, left: ExpressionV, p: Pos, minp: int) -> Parse<
    ExpressionV,
>
    decreases s.len() - p.at, 2int,
{
    let j = spec_skip_ws(s, p.at);
    let np = spec_next_precedence(s, p.at);
    let p1 = Pos { at: j, last: p.last };
    if minp < np {
        if j > s.len() {
            Parse::Fail { loc: j }
        } else {
            match spec_parse_infix(s, left, p1, np) {
                Parse::Fail { loc } => Parse::Fail { loc },
                Parse::Done { v, pos } => {
                    if pos.at <= p.at || pos.at > s.len() {
                        Parse::Fail { loc: pos.at }
                    } else {
                        spec_expr_loop(s, v, pos, minp)
                    }
                },
            }
        }
    } else {
        Parse::Done { v: left, pos: p1 }
    }
}

/// One infix step: the operator token, then the right operand parsed at the
/// operator's own precedence, combined into a `BinaryOperation`.
pub open spec fn spec_parse_infix(s: Seq<char>, left: ExpressionV, p: Pos, prec: int) -> Parse<
    ExpressionV,
>
    decreases s.len() - p.at, 1int,
{
    match spec_next(s, p) {
        NextTok::Fail { loc } => Parse::Fail { loc },
        NextTok::Tok { t, loc, pos } => match op_of(t) {
            None => Parse::Fail { loc },
            Some(op) => {
                if pos.at <= p.at || pos.at > s.len() {
                    Parse::Fail { loc: pos.at }
                } else {
                    match spec_parse_expr(s, pos, prec) {
                        Parse::Fail { loc: l } => Parse::Fail { loc: l },
                        Parse::Done { v: right, pos: p2 } => Parse::Done {
                            v: ExpressionV::BinaryOperation {
                                left: Box::new(left),
                                operator: op,
                                right: Box::new(right),
                            },
                            pos: p2,
                        },
                    }
                }
            },
        },
    }
}

/// A whole expression: climbing from the lowest precedence.
pub open spec fn spec_parse_expression(s: Seq<char>, p: Pos) -> Parse<ExpressionV> {
    spec_parse_expr(s, p, 0)
}

/// The items after the first of a comma-separated list: a comma continues
/// the list, anything else ends it.
pub open spec fn spec_list_rest<T>(
    s: Seq<char>,
    item: spec_fn(Seq<char>, Pos) -> Parse<T>,
    acc: Seq<T>,
    p: Pos,
) -> Parse<Seq<T>>
    decreases s.len() - p.at,
{
    let (c, p1) = spec_consume_optional(s, p, TokenV::Comma);
    if c {
        if p1.at <= p.at || p1.at > s.len() {
            Parse::Fail { loc: p1.at }
        } else {
            match item(s, p1) {
                Parse::Fail { loc } => Parse::Fail { loc },
                Parse::Done { v, pos } => {
                    if pos.at < p1.at || pos.at > s.len() {
                        Parse::Fail { loc: pos.at }
                    } else {
                        spec_list_rest(s, item, acc.push(v), pos)
                    }
                },
            }
        }
    } else {
        Parse::Done { v: acc, pos: p1 }
    }
}

/// Closes a comma-separated list: when it was opened by a parenthesis, the
/// matching closing parenthesis is required.
pub open spec fn spec_close_list<T>(s: Seq<char>, lp: bool, inner: Parse<Seq<T>>) -> Parse<Seq<T>> {
    match inner {
        Parse::Fail { loc } => Parse::Fail { loc },
        Parse::Done { v, pos } => if lp {
            match spec_expect_token(s, pos, TokenV::RightParen) {
                Parse::Fail { loc } => Parse::Fail { loc },
                Parse::Done { pos: p3, .. } => Parse::Done { v, pos: p3 },
            }
        } else {
            Parse::Done { v, pos }
        },
    }
}

/// The generic comma-separated list: an opening parenthesis is consumed if
/// present and then a matching closing one is required; if `required_parenthesis`
/// is set its absence is an error (at the last consumed token); at least one
/// item is always required.
pub open spec fn spec_comma_separated<T>(
    s: Seq<char>,
    item: spec_fn(Seq<char>, Pos) -> Parse<T>,
    required_parenthesis: bool,
    p: Pos,
) -> Parse<Seq<T>> {
    let (lp, p1) = spec_consume_optional(s, p, TokenV::LeftParen);
    if required_parenthesis && !lp {
        Parse::Fail { loc: p.last }
    } else {
        match item(s, p1) {
            Parse::Fail { loc } => Parse::Fail { loc },
            Parse::Done { v, pos } => spec_close_list(
                s,
                lp,
                spec_list_rest(s, item, seq![v], pos),
            ),
        }
    }
}

pub open spec fn expression_item() -> spec_fn(Seq<char>, Pos) -> Parse<ExpressionV> {
    |s: Seq<char>, p: Pos| spec_parse_expression(s, p)
}

pub open spec fn column_item() -> spec_fn(Seq<char>, Pos) -> Parse<ColumnV> {
    |s: Seq<char>, p: Pos| spec_parse_column(s, p)
}

pub open spec fn identifier_item() -> spec_fn(Seq<char>, Pos) -> Parse<Seq<char>> {
    |s: Seq<char>, p: Pos| spec_parse_identifier(s, p)
}

/// The numeric value of a digit string, as `parse::<usize>` reads it: the
/// value if the string is nonempty, all digits and fits, and nothing
/// otherwise.
pub open spec fn digits_val(s: Seq<char>) -> int
    decreases s.len(),
{
    if s.len() == 0 {
        0
    } else {
        digits_val(s.drop_last()) * 10 + (s.last() as int - '0' as int)
    }
}

pub open spec fn all_digits(s: Seq<char>) -> bool {
    forall|k: int| 0 <= k < s.len() ==> is_digit_char(s[k])
}

pub open spec fn spec_parse_usize(s: Seq<char>) -> Option<int> {
    if s.len() > 0 && all_digits(s) && digits_val(s) <= usize::MAX {
        Some(digits_val(s))
    } else {
        None
    }
}

proof fn lemma_digits_val_nonneg(s: Seq<char>)
    requires
        all_digits(s),
    ensures
        digits_val(s) >= 0,
    decreases s.len(),
{
    if s.len() > 0 {
        assert(all_digits(s.drop_last()));
        lemma_digits_val_nonneg(s.drop_last());
    }
}

/// Reading more digits never makes the value smaller: the value of a prefix
/// bounds the value of the whole digit string from below.
pub proof fn lemma_digits_val_prefix(s: Seq<char>, i: int)
    requires
        all_digits(s),
        0 <= i <= s.len(),
    ensures
        digits_val(s.subrange(0, i)) <= digits_val(s),
    decreases s.len() - i,
{
    if i == s.len() {
        assert(s.subrange(0, i) =~= s);
    } else {
        let a = s.subrange(0, i);
        let b = s.subrange(0, i + 1);
        assert(b.drop_last() =~= a);
        assert(all_digits(a));
        lemma_digits_val_nonneg(a);
        assert(digits_val(b) == digits_val(a) * 10 + (b.last() as int - '0' as int));
        lemma_digits_val_prefix(s, i + 1);
    }
}

/// The optional trailing constraint of a column definition: `PRIMARY KEY`,
/// `UNIQUE`, or nothing.
pub open spec fn spec_column_constraint(
    s: Seq<char>,
    name: Seq<char>,
    data_type: DataType,
    p: Pos,
) -> Parse<ColumnV> {
    let (r, p1) = spec_consume_one_of(s, p, seq![Keyword::Primary, Keyword::Unique], 0);
    match r {
        Some(Keyword::Primary) => match spec_expect_keyword(s, p1, Keyword::Key) {
            Parse::Fail { loc } => Parse::Fail { loc },
            Parse::Done { pos: p2, .. } => Parse::Done {
                v: ColumnV { name, data_type, constraint: Some(Constraint::PrimaryKey) },
                pos: p2,
            },
        },
        Some(Keyword::Unique) => Parse::Done {
            v: ColumnV { name, data_type, constraint: Some(Constraint::Unique) },
            pos: p1,
        },
        _ => Parse::Done { v: ColumnV { name, data_type, constraint: None }, pos: p1 },
    }
}

/// A column definition: name, data type (`INT`, or `VARCHAR` with a
/// parenthesized length that must fit in `usize`), optional constraint.
/// A malformed length is an error at the length token.
pub open spec fn spec_parse_column(s: Seq<char>, p: Pos) -> Parse<ColumnV> {
    match spec_parse_identifier(s, p) {
        Parse::Fail { loc } => Parse::Fail { loc },
        Parse::Done { v: name, pos: p1 } => match spec_next(s, p1) {
            NextTok::Fail { loc } => Parse::Fail { loc },
            NextTok::Tok { t, loc, pos: p2 } => match t {
                TokenV::Keyword(Keyword::Int) => spec_column_constraint(s, name, DataType::Int, p2),
                TokenV::Keyword(Keyword::Varchar) => match spec_expect_token(
                    s,
                    p2,
                    TokenV::LeftParen,
                ) {
                    Parse::Fail { loc: l } => Parse::Fail { loc: l },
                    Parse::Done { pos: p3, .. } => match spec_next(s, p3) {
                        NextTok::Fail { loc: l } => Parse::Fail { loc: l },
                        NextTok::Tok { t: t2, loc: l, pos: p4 } => match t2 {
                            TokenV::Number(num) => match spec_parse_usize(num) {
                                Some(n) => match spec_expect_token(s, p4, TokenV::RightParen) {
                                    Parse::Fail { loc: l2 } => Parse::Fail { loc: l2 },
                                    Parse::Done { pos: p5, .. } => spec_column_constraint(
                                        s,
                                        name,
                                        DataType::Varchar(n as usize),
                                        p5,
                                    ),
                                },
                                None => Parse::Fail { loc: l },
                            },
                            _ => Parse::Fail { loc: l },
                        },
                    },
                },
                TokenV::Keyword(_) => Parse::Fail { loc },
                _ => Parse::Fail { loc },
            },
        },
    }
}

/// The optional `WHERE` clause: the keyword followed by one expression.
pub open spec fn spec_parse_optional_where(s: Seq<char>, p: Pos) -> Parse<Option<ExpressionV>> {
    let (c, p1) = spec_consume_optional(s, p, TokenV::Keyword(Keyword::Where));
    if c {
        match spec_parse_expression(s, p1) {
            Parse::Fail { loc } => Parse::Fail { loc },
            Parse::Done { v, pos } => Parse::Done { v: Some(v), pos },
        }
    } else {
        Parse::Done { v: None, pos: p1 }
    }
}

/// A table identifier followed by an optional `WHERE` clause.
pub open spec fn spec_parse_from_and_optional_where(s: Seq<char>, p: Pos) -> Parse<
    (Seq<char>, Option<ExpressionV>),
> {
    match spec_parse_identifier(s, p) {
        Parse::Fail { loc } => Parse::Fail { loc },
        Parse::Done { v: from, pos: p1 } => match spec_parse_optional_where(s, p1) {
            Parse::Fail { loc } => Parse::Fail { loc },
            Parse::Done { v: w, pos: p2 } => Parse::Done { v: (from, w), pos: p2 },
        },
    }
}

/// The body of one statement, after its leading keyword has been consumed.
#[verifier::opaque]
pub open spec fn spec_parse_statement_body(s: Seq<char>, kw: Keyword, p: Pos) -> Parse<
    StatementV,
> {
    match kw {
        Keyword::Select => match spec_comma_separated(s, expression_item(), false, p) {
            Parse::Fail { loc } => Parse::Fail { loc },
            Parse::Done { v: columns, pos: p1 } => match spec_expect_keyword(s, p1, Keyword::From) {
                Parse::Fail { loc } => Parse::Fail { loc },
                Parse::Done { pos: p2, .. } => match spec_parse_from_and_optional_where(s, p2) {
                    Parse::Fail { loc } => Parse::Fail { loc },
                    Parse::Done { v: fw, pos: p3 } => Parse::Done {
                        v: StatementV::Select { columns, from: fw.0, where_clause: fw.1 },
                        pos: p3,
                    },
                },
            },
        },
        Keyword::Create => match spec_expect_one_of(s, p, seq![Keyword::Database, Keyword::Table]) {
            Parse::Fail { loc } => Parse::Fail { loc },
            Parse::Done { v: k, pos: p1 } => match spec_parse_identifier(s, p1) {
                Parse::Fail { loc } => Parse::Fail { loc },
                Parse::Done { v: name, pos: p2 } => if k == Keyword::Database {
                    Parse::Done { v: StatementV::Create(CreateV::Database(name)), pos: p2 }
                } else {
                    match spec_comma_separated(s, column_item(), true, p2) {
                        Parse::Fail { loc } => Parse::Fail { loc },
                        Parse::Done { v: columns, pos: p3 } => Parse::Done {
                            v: StatementV::Create(CreateV::Table { name, columns }),
                            pos: p3,
                        },
                    }
                },
            },
        },
        Keyword::Update => match spec_parse_identifier(s, p) {
            Parse::Fail { loc } => Parse::Fail { loc },
            Parse::Done { v: table, pos: p1 } => match spec_expect_keyword(s, p1, Keyword::SetKw) {
                Parse::Fail { loc } => Parse::Fail { loc },
                Parse::Done { pos: p2, .. } => match spec_comma_separated(
                    s,
                    expression_item(),
                    false,
                    p2,
                ) {
                    Parse::Fail { loc } => Parse::Fail { loc },
                    Parse::Done { v: columns, pos: p3 } => match spec_parse_optional_where(s, p3) {
                        Parse::Fail { loc } => Parse::Fail { loc },
                        Parse::Done { v: w, pos: p4 } => Parse::Done {
                            v: StatementV::Update { table, columns, where_clause: w },
                            pos: p4,
                        },
                    },
                },
            },
        },
        Keyword::Insert => match spec_expect_keyword(s, p, Keyword::Into) {
            Parse::Fail { loc } => Parse::Fail { loc },
            Parse::Done { pos: p1, .. } => match spec_parse_identifier(s, p1) {
                Parse::Fail { loc } => Parse::Fail { loc },
                Parse::Done { v: into, pos: p2 } => match spec_comma_separated(
                    s,
                    identifier_item(),
                    true,
                    p2,
                ) {
                    Parse::Fail { loc } => Parse::Fail { loc },
                    Parse::Done { v: columns, pos: p3 } => match spec_expect_keyword(
                        s,
                        p3,
                        Keyword::Values,
                    ) {
                        Parse::Fail { loc } => Parse::Fail { loc },
                        Parse::Done { pos: p4, .. } => match spec_comma_separated(
                            s,
                            expression_item(),
                            false,
                            p4,
                        ) {
                            Parse::Fail { loc } => Parse::Fail { loc },
                            Parse::Done { v: values, pos: p5 } => Parse::Done {
                                v: StatementV::Insert { into, columns, values },
                                pos: p5,
                            },
                        },
                    },
                },
            },
        },
        Keyword::Delete => match spec_expect_keyword(s, p, Keyword::From) {
            Parse::Fail { loc } => Parse::Fail { loc },
            Parse::Done { pos: p1, .. } => match spec_parse_from_and_optional_where(s, p1) {
                Parse::Fail { loc } => Parse::Fail { loc },
                Parse::Done { v: fw, pos: p2 } => Parse::Done {
                    v: StatementV::Delete { from: fw.0, where_clause: fw.1 },
                    pos: p2,
                },
            },
        },
        Keyword::Drop => match spec_expect_one_of(s, p, seq![Keyword::Database, Keyword::Table]) {
            Parse::Fail { loc } => Parse::Fail { loc },
            Parse::Done { v: k, pos: p1 } => match spec_parse_identifier(s, p1) {
                Parse::Fail { loc } => Parse::Fail { loc },
                Parse::Done { v: name, pos: p2 } => if k == Keyword::Database {
                    Parse::Done { v: StatementV::Drop(DropV::Database(name)), pos: p2 }
                } else {
                    Parse::Done { v: StatementV::Drop(DropV::Table(name)), pos: p2 }
                },
            },
        },
        _ => Parse::Fail { loc: p.last },
    }
}

/// One full statement: a leading statement keyword, its body, and the
/// mandatory `;` terminator, whose absence is an error even when the body
/// parsed. A non-keyword first token is an error at that token.
pub open spec fn spec_parse_statement(s: Seq<char>, p: Pos) -> Parse<StatementV> {
    match spec_next(s, p) {
        NextTok::Fail { loc } => Parse::Fail { loc },
        NextTok::Tok { t, loc, pos } => match t {
            TokenV::Keyword(kw) => match spec_parse_statement_body(s, kw, pos) {
                Parse::Fail { loc: l } => Parse::Fail { loc: l },
                Parse::Done { v, pos: p2 } => match spec_expect_semicolon(s, p2) {
                    Parse::Fail { loc: l } => Parse::Fail { loc: l },
                    Parse::Done { pos: p3, .. } => Parse::Done { v, pos: p3 },
                },
            },
            _ => Parse::Fail { loc },
        },
    }
}

/// A whole input: statements accumulate in source order until only the end
/// of the input is left; the first error anywhere discards them all.
pub open spec fn spec_parse_program(s: Seq<char>, p: Pos, acc: Seq<StatementV>) -> Parse<
    Seq<StatementV>,
>
    decreases s.len() - p.at,
{
    let j = spec_skip_ws(s, p.at);
    match spec_scan(s, j) {
        ScanTok::Eof => Parse::Done { v: acc, pos: Pos { at: j, last: p.last } },
        _ => match spec_parse_statement(s, Pos { at: j, last: p.last }) {
            Parse::Fail { loc } => Parse::Fail { loc },
            Parse::Done { v, pos: p2 } => {
                if p2.at <= j || j < p.at || p2.at > s.len() {
                    Parse::Fail { loc: p2.at }
                } else {
                    spec_parse_program(s, p2, acc.push(v))
                }
            },
        },
    }
}

} // verus!
