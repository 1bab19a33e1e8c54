//! The lexical categories the tokenizer can emit, together with their
//! mathematical view (`TokenV`, over `Seq<char>`), source locations, and the
//! case-insensitive reserved-word table.

use vstd::prelude::*;

verus! {

/// Position of a token or an error in the source text, as a character offset
/// from the start of the input. Offsets are deterministic and increase
/// monotonically as the source is scanned.
#[derive(Debug, Clone, Copy, PartialEq, Eq, Structural)]
pub struct Location {
    pub offset: usize,
}

impl Location {
    pub fn new(offset: usize) -> (r: Location)
        ensures
            r.offset == offset,
    {
        Location { offset }
    }
}

impl Default for Location {
    fn default() -> (r: Location)
        ensures
            r.offset == 0,
    {
        Location { offset: 0 }
    }
}

/// The fixed reserved-word set. Any other word is an identifier.
#[derive(Debug, Clone, Copy, PartialEq, Eq, Structural)]
pub enum Keyword {
    Select,
    From,
    Where,
    Create,
    Database,
    Table,
    Update,
    SetKw,
    Insert,
    Into,
    Values,
    Delete,
    Drop,
    And,
    Or,
    Primary,
    Key,
    Unique,
    Int,
    Varchar,
}

/// One lexical unit of the source text. Literal-carrying variants keep the
/// lexeme as written (number digits unparsed, string delimiters stripped);
/// `Whitespace` records the length of a maximal whitespace run.
#[derive(Debug, PartialEq)]
pub enum Token {
    Keyword(Keyword),
    Identifier(String),
    Number(String),
    Str(String),
    Plus,
    Minus,
    Mul,
    Div,
    Eq,
    Neq,
    Gt,
    GtEq,
    Lt,
    LtEq,
    Comma,
    SemiColon,
    LeftParen,
    RightParen,
    Whitespace(usize),
    Eof,
}

/// Mathematical view of a [`Token`]: the same shape with lexemes as
/// character sequences.
pub enum TokenV {
    Keyword(Keyword),
    Identifier(Seq<char>),
    Number(Seq<char>),
    Str(Seq<char>),
    Plus,
    Minus,
    Mul,
    Div,
    Eq,
    Neq,
    Gt,
    GtEq,
    Lt,
    LtEq,
    Comma,
    SemiColon,
    LeftParen,
    RightParen,
    Whitespace(nat),
    Eof,
}

impl View for Token {
    type V = TokenV;

    open spec fn view(&self) -> TokenV {
        match self {
            Token::Keyword(k) => TokenV::Keyword(*k),
            Token::Identifier(s) => TokenV::Identifier(s@),
            Token::Number(s) => TokenV::Number(s@),
            Token::Str(s) => TokenV::Str(s@),
            Token::Plus => TokenV::Plus,
            Token::Minus => TokenV::Minus,
            Token::Mul => TokenV::Mul,
            Token::Div => TokenV::Div,
            Token::Eq => TokenV::Eq,
            Token::Neq => TokenV::Neq,
            Token::Gt => TokenV::Gt,
            Token::GtEq => TokenV::GtEq,
            Token::Lt => TokenV::Lt,
            Token::LtEq => TokenV::LtEq,
            Token::Comma => TokenV::Comma,
            Token::SemiColon => TokenV::SemiColon,
            Token::LeftParen => TokenV::LeftParen,
            Token::RightParen => TokenV::RightParen,
            Token::Whitespace(n) => TokenV::Whitespace(*n as nat),
            Token::Eof => TokenV::Eof,
        }
    }
}

impl DeepView for Token {
    type V = TokenV;

    open spec fn deep_view(&self) -> TokenV {
        self.view()
    }
}

/// Decides `a@ == b@`, so the parser can compare an upcoming token against an
/// expected one.
pub fn token_matches(a: &Token, b: &Token) -> (r: bool)
    ensures
        r == (a@ == b@),
{
    match (a, b) {
        (Token::Keyword(x), Token::Keyword(y)) => *x == *y,
        (Token::Identifier(x), Token::Identifier(y)) => *x == *y,
        (Token::Number(x), Token::Number(y)) => *x == *y,
        (Token::Str(x), Token::Str(y)) => *x == *y,
        (Token::Plus, Token::Plus) => true,
        (Token::Minus, Token::Minus) => true,
        (Token::Mul, Token::Mul) => true,
        (Token::Div, Token::Div) => true,
        (Token::Eq, Token::Eq) => true,
        (Token::Neq, Token::Neq) => true,
        (Token::Gt, Token::Gt) => true,
        (Token::GtEq, Token::GtEq) => true,
        (Token::Lt, Token::Lt) => true,
        (Token::LtEq, Token::LtEq) => true,
        (Token::Comma, Token::Comma) => true,
        (Token::SemiColon, Token::SemiColon) => true,
        (Token::LeftParen, Token::LeftParen) => true,
        (Token::RightParen, Token::RightParen) => true,
        (Token::Whitespace(x), Token::Whitespace(y)) => *x == *y,
        (Token::Eof, Token::Eof) => true,
        _ => false,
    }
}

/// Characters the tokenizer treats as whitespace.
pub open spec fn is_ws_char(c: char) -> bool {
    c == ' ' || c == '\t' || c == '\r' || c == '\n'
}

pub fn ws_char(c: char) -> (r: bool)
    ensures
        r == is_ws_char(c),
{
    c == ' ' || c == '\t' || c == '\r' || c == '\n'
}

/// Decimal digits, the alphabet of numeric literals.
pub open spec fn is_digit_char(c: char) -> bool {
    '0' <= c && c <= '9'
}

pub fn digit_char(c: char) -> (r: bool)
    ensures
        r == is_digit_char(c),
{
    '0' <= c && c <= '9'
}

/// Characters that may begin an identifier or keyword.
pub open spec fn is_ident_start_char(c: char) -> bool {
    ('a' <= c && c <= 'z') || ('A' <= c && c <= 'Z') || c == '_'
}

pub fn ident_start_char(c: char) -> (r: bool)
    ensures
        r == is_ident_start_char(c),
{
    ('a' <= c && c <= 'z') || ('A' <= c && c <= 'Z') || c == '_'
}

/// Characters that may continue an identifier or keyword.
pub open spec fn is_ident_char(c: char) -> bool {
    is_ident_start_char(c) || is_digit_char(c)
}

pub fn ident_char(c: char) -> (r: bool)
    ensures
        r == is_ident_char(c),
{
    ident_start_char(c) || digit_char(c)
}

/// `a` equals `b` up to ASCII case, where `b` is a reserved-word letter:
/// either the characters agree exactly or `a` is the lowercase form of an
/// uppercase letter `b`.
pub open spec fn char_eq_ci(a: char, b: char) -> bool {
    a == b || ('A' <= b && b <= 'Z' && a as int == b as int + 32)
}

/// Case-insensitive equality of a lexeme against an (uppercase) reserved word.
pub open spec fn seq_eq_ci(lex: Seq<char>, kw: Seq<char>) -> bool {
    lex.len() == kw.len() && forall|k: int| 0 <= k < lex.len() ==> char_eq_ci(lex[k], kw[k])
}

/// The reserved word a lexeme names, if any; matching is case-insensitive.
pub open spec fn spec_keyword_of(lex: Seq<char>) -> Option<Keyword> {
    if seq_eq_ci(lex, "SELECT"@) {
        Some(Keyword::Select)
    } else if seq_eq_ci(lex, "FROM"@) {
        Some(Keyword::From)
    } else if seq_eq_ci(lex, "WHERE"@) {
        Some(Keyword::Where)
    } else if seq_eq_ci(lex, "CREATE"@) {
        Some(Keyword::Create)
    } else if seq_eq_ci(lex, "DATABASE"@) {
        Some(Keyword::Database)
    } else if seq_eq_ci(lex, "TABLE"@) {
        Some(Keyword::Table)
    } else if seq_eq_ci(lex, "UPDATE"@) {
        Some(Keyword::Update)
    } else if seq_eq_ci(lex, "SET"@) {
        Some(Keyword::SetKw)
    } else if seq_eq_ci(lex, "INSERT"@) {
        Some(Keyword::Insert)
    } else if seq_eq_ci(lex, "INTO"@) {
        Some(Keyword::Into)
    } else if seq_eq_ci(lex, "VALUES"@) {
        Some(Keyword::Values)
    } else if seq_eq_ci(lex, "DELETE"@) {
        Some(Keyword::Delete)
    } else if seq_eq_ci(lex, "DROP"@) {
        Some(Keyword::Drop)
    } else if seq_eq_ci(lex, "AND"@) {
        Some(Keyword::And)
    } else if seq_eq_ci(lex, "OR"@) {
        Some(Keyword::Or)
    } else if seq_eq_ci(lex, "PRIMARY"@) {
        Some(Keyword::Primary)
    } else if seq_eq_ci(lex, "KEY"@) {
        Some(Keyword::Key)
    } else if seq_eq_ci(lex, "UNIQUE"@) {
        Some(Keyword::Unique)
    } else if seq_eq_ci(lex, "INT"@) {
        Some(Keyword::Int)
    } else if seq_eq_ci(lex, "VARCHAR"@) {
        Some(Keyword::Varchar)
    } else {
        None
    }
}

/// Case-insensitive comparison of a lexeme against one reserved word.
fn str_eq_ci(lex: &str, kw: &str) -> (r: bool)
    ensures
        r == seq_eq_ci(lex@, kw@),
{
    let n = kw.unicode_len();
    if lex.unicode_len() != n {
        return false;
    }
    let mut i: usize = 0;
    while i < n
        invariant
            lex@.len() == n,
            kw@.len() == n,
            i <= n,
            forall|k: int| 0 <= k < i ==> char_eq_ci(lex@[k], kw@[k]),
        decreases n - i,
    {
        let a = lex.get_char(i);
        let b = kw.get_char(i);
        if !(a == b || ('A' <= b && b <= 'Z' && (a as u32) == (b as u32) + 32)) {
            return false;
        }
        i = i + 1;
    }
    true
}

/// Executable reserved-word lookup, equal to [`spec_keyword_of`].
pub fn keyword_of(lex: &str) -> (r: Option<Keyword>)
    ensures
        r == spec_keyword_of(lex@),
{
    if str_eq_ci(lex, "SELECT") {
        Some(Keyword::Select)
    } else if str_eq_ci(lex, "FROM") {
        Some(Keyword::From)
    } else if str_eq_ci(lex, "WHERE") {
        Some(Keyword::Where)
    } else if str_eq_ci(lex, "CREATE") {
        Some(Keyword::Create)
    } else if str_eq_ci(lex, "DATABASE") {
        Some(Keyword::Database)
    } else if str_eq_ci(lex, "TABLE") {
        Some(Keyword::Table)
    } else if str_eq_ci(lex, "UPDATE") {
        Some(Keyword::Update)
    } else if str_eq_ci(lex, "SET") {
        Some(Keyword::SetKw)
    } else if str_eq_ci(lex, "INSERT") {
        Some(Keyword::Insert)
    } else if str_eq_ci(lex, "INTO") {
        Some(Keyword::Into)
    } else if str_eq_ci(lex, "VALUES") {
        Some(Keyword::Values)
    } else if str_eq_ci(lex, "DELETE") {
        Some(Keyword::Delete)
    } else if str_eq_ci(lex, "DROP") {
        Some(Keyword::Drop)
    } else if str_eq_ci(lex, "AND") {
        Some(Keyword::And)
    } else if str_eq_ci(lex, "OR") {
        Some(Keyword::Or)
    } else if str_eq_ci(lex, "PRIMARY") {
        Some(Keyword::Primary)
    } else if str_eq_ci(lex, "KEY") {
        Some(Keyword::Key)
    } else if str_eq_ci(lex, "UNIQUE") {
        Some(Keyword::Unique)
    } else if str_eq_ci(lex, "INT") {
        Some(Keyword::Int)
    } else if str_eq_ci(lex, "VARCHAR") {
        Some(Keyword::Varchar)
    } else {
        None
    }
}

} // verus!
