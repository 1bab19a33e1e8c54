//! The lexical analyzer. `spec_scan` is the mathematical definition of one
//! maximal-munch scanning step over a character sequence; `scan_at` is the
//! executable scanner, proved to return exactly what `spec_scan` says;
//! `tokenize` turns a whole input into its token/location sequence or the
//! first lexical error.

use vstd::prelude::*;
use vstd::string::StrSliceExecFns;
use vstd::string::StringExecFns;

use crate::token::{
    digit_char, ident_char, ident_start_char, is_digit_char, is_ident_char, is_ident_start_char,
    is_ws_char, keyword_of, spec_keyword_of, ws_char, Location, Token, TokenV,
};

verus! {

/// A lexical error: a human-readable message and the location of the first
/// character that no valid lexeme starts at (for an unterminated string
/// literal, the opening quote).
#[derive(Debug, PartialEq)]
pub struct TokenizerError {
    pub message: String,
    pub location: Location,
}

/// A token together with the location of its first character.
#[derive(Debug, PartialEq)]
pub struct TokenWithLocation {
    pub token: Token,
    pub location: Location,
}

impl DeepView for TokenWithLocation {
    type V = (TokenV, int);

    open spec fn deep_view(&self) -> (TokenV, int) {
        (self.token@, self.location.offset as int)
    }
}

/// Length of the maximal run of characters satisfying `p` starting at `i`.
pub open spec fn run_len(s: Seq<char>, i: int, p: spec_fn(char) -> bool) -> nat
    decreases s.len() - i,
{
    if 0 <= i < s.len() && p(s[i]) {
        1 + run_len(s, i + 1, p)
    } else {
        0
    }
}

pub open spec fn ws_pred() -> spec_fn(char) -> bool {
    |c: char| is_ws_char(c)
}

pub open spec fn digit_pred() -> spec_fn(char) -> bool {
    |c: char| is_digit_char(c)
}

pub open spec fn ident_pred() -> spec_fn(char) -> bool {
    |c: char| is_ident_char(c)
}

/// A maximal run stays within the input and ends where `p` first fails.
pub proof fn lemma_run_in_bounds(s: Seq<char>, i: int, p: spec_fn(char) -> bool)
    requires
        0 <= i <= s.len(),
    ensures
        i + run_len(s, i, p) <= s.len(),
        i + run_len(s, i, p) == s.len() || !p(s[i + run_len(s, i, p)]),
    decreases s.len() - i,
{
    if i < s.len() && p(s[i]) {
        lemma_run_in_bounds(s, i + 1, p);
    }
}

/// Distance from `i` to the next `"` at or after `i`, if there is one.
pub open spec fn closing_quote(s: Seq<char>, i: int) -> Option<nat>
    decreases s.len() - i,
{
    if i < 0 || i >= s.len() {
        None
    } else if s[i] == '"' {
        Some(0)
    } else {
        match closing_quote(s, i + 1) {
            Some(d) => Some((d + 1) as nat),
            None => None,
        }
    }
}

/// The outcome of one scanning step at index `i`: end of input, a token
/// occupying the `width` characters starting at `i`, or a lexical error at
/// `loc`.
pub enum ScanTok {
    Eof,
    Tok { t: TokenV, width: nat },
    Fail { loc: int },
}

/// One maximal-munch scanning step at index `i` of `s`. Whitespace is
/// tokenized rather than dropped; keywords are recognized case-insensitively;
/// two-character operators are preferred over their one-character prefixes;
/// an unterminated string literal fails at the opening quote.
pub open spec fn spec_scan(s: Seq<char>, i: int) -> ScanTok {
    if i < 0 || i >= s.len() {
        ScanTok::Eof
    } else {
        let c = s[i];
        if is_ws_char(c) {
            let w = run_len(s, i, ws_pred());
            ScanTok::Tok { t: TokenV::Whitespace(w), width: w }
        } else if is_digit_char(c) {
            let w = run_len(s, i, digit_pred());
            ScanTok::Tok { t: TokenV::Number(s.subrange(i, i + w)), width: w }
        } else if is_ident_start_char(c) {
            let w = run_len(s, i, ident_pred());
            let lex = s.subrange(i, i + w);
            match spec_keyword_of(lex) {
                Some(k) => ScanTok::Tok { t: TokenV::Keyword(k), width: w },
                None => ScanTok::Tok { t: TokenV::Identifier(lex), width: w },
            }
        } else if c == '"' {
            match closing_quote(s, i + 1) {
                Some(d) => ScanTok::Tok {
                    t: TokenV::Str(s.subrange(i + 1, i + 1 + d)),
                    width: (d + 2) as nat,
                },
                None => ScanTok::Fail { loc: i },
            }
        } else if c == '+' {
            ScanTok::Tok { t: TokenV::Plus, width: 1 }
        } else if c == '-' {
            ScanTok::Tok { t: TokenV::Minus, width: 1 }
        } else if c == '*' {
            ScanTok::Tok { t: TokenV::Mul, width: 1 }
        } else if c == '/' {
            ScanTok::Tok { t: TokenV::Div, width: 1 }
        } else if c == ',' {
            ScanTok::Tok { t: TokenV::Comma, width: 1 }
        } else if c == ';' {
            ScanTok::Tok { t: TokenV::SemiColon, width: 1 }
        } else if c == '(' {
            ScanTok::Tok { t: TokenV::LeftParen, width: 1 }
        } else if c == ')' {
            ScanTok::Tok { t: TokenV::RightParen, width: 1 }
        } else if c == '=' {
            ScanTok::Tok { t: TokenV::Eq, width: 1 }
        } else if c == '!' {
            if i + 1 < s.len() && s[i + 1] == '=' {
                ScanTok::Tok { t: TokenV::Neq, width: 2 }
            } else {
                ScanTok::Fail { loc: i }
            }
        } else if c == '<' {
            if i + 1 < s.len() && s[i + 1] == '=' {
                ScanTok::Tok { t: TokenV::LtEq, width: 2 }
            } else {
                ScanTok::Tok { t: TokenV::Lt, width: 1 }
            }
        } else if c == '>' {
            if i + 1 < s.len() && s[i + 1] == '=' {
                ScanTok::Tok { t: TokenV::GtEq, width: 2 }
            } else {
                ScanTok::Tok { t: TokenV::Gt, width: 1 }
            }
        } else {
            ScanTok::Fail { loc: i }
        }
    }
}

/// How an executable scanning result relates to the specification scanner:
/// end of input is the `Eof` token of width zero, a token agrees with the
/// specification token and its width, and a failure carries the
/// specification's error location.
pub open spec fn scan_matches(s: Seq<char>, i: int, r: Result<(Token, usize), TokenizerError>) -> bool {
    match spec_scan(s, i) {
        ScanTok::Eof => r matches Ok(p) && p.0@ == TokenV::Eof && p.1 == 0,
        ScanTok::Tok { t, width } => r matches Ok(p) && p.0@ == t && p.1 == width,
        ScanTok::Fail { loc } => r matches Err(e) && e.location.offset == loc,
    }
}

/// A run observed by a left-to-right walk is the maximal run.
proof fn lemma_run_len(s: Seq<char>, i: int, j: int, p: spec_fn(char) -> bool)
    requires
        0 <= i <= j <= s.len(),
        forall|k: int| i <= k < j ==> p(s[k]),
        j == s.len() || !p(s[j]),
    ensures
        run_len(s, i, p) == j - i,
    decreases j - i,
{
    if i < j {
        lemma_run_len(s, i + 1, j, p);
    }
}

proof fn lemma_closing_quote_found(s: Seq<char>, i: int, j: int)
    requires
        0 <= i <= j < s.len(),
        forall|k: int| i <= k < j ==> s[k] != '"',
        s[j] == '"',
    ensures
        closing_quote(s, i) == Some((j - i) as nat),
    decreases j - i,
{
    if i < j {
        lemma_closing_quote_found(s, i + 1, j);
    }
}

proof fn lemma_closing_quote_missing(s: Seq<char>, i: int)
    requires
        0 <= i,
        forall|k: int| i <= k < s.len() ==> s[k] != '"',
    ensures
        closing_quote(s, i) is None,
    decreases s.len() - i,
{
    if i < s.len() {
        lemma_closing_quote_missing(s, i + 1);
    }
}

/// A scanned token is never the `Eof` sentinel: that case is reported as
/// `ScanTok::Eof` itself.
pub proof fn lemma_scan_not_eof_token(s: Seq<char>, i: int)
    ensures
        match spec_scan(s, i) {
            ScanTok::Tok { t, .. } => !(t is Eof),
            _ => true,
        },
{
}

/// An input whose last string literal is never closed fails lexically at the
/// opening quote, not at the end of the input.
pub proof fn lemma_unterminated_string_location(s: Seq<char>, i: int)
    requires
        0 <= i < s.len(),
        s[i] == '"',
        forall|k: int| i < k < s.len() ==> s[k] != '"',
    ensures
        spec_scan(s, i) == (ScanTok::Fail { loc: i }),
{
    lemma_closing_quote_missing(s, i + 1);
}

/// The character classes scanned as maximal runs.
#[derive(Clone, Copy)]
enum CharClass {
    Ws,
    Digit,
    Ident,
}

spec fn class_pred(class: CharClass) -> spec_fn(char) -> bool {
    match class {
        CharClass::Ws => ws_pred(),
        CharClass::Digit => digit_pred(),
        CharClass::Ident => ident_pred(),
    }
}

fn class_test(class: CharClass, c: char) -> (r: bool)
    ensures
        r == class_pred(class)(c),
{
    match class {
        CharClass::Ws => ws_char(c),
        CharClass::Digit => digit_char(c),
        CharClass::Ident => ident_char(c),
    }
}

/// Index one past the maximal run of `class` characters starting at `start`.
fn run_end(input: &str, length: usize, start: usize, class: CharClass) -> (j: usize)
    requires
        length == input@.len(),
        start <= length,
    ensures
        start <= j <= length,
        j - start == run_len(input@, start as int, class_pred(class)),
{
    let mut j = start;
    while j < length && class_test(class, input.get_char(j))
        invariant
            length == input@.len(),
            start <= j <= length,
            forall|k: int| start <= k < j ==> class_pred(class)(input@[k]),
        decreases length - j,
    {
        j = j + 1;
    }
    proof {
        lemma_run_len(input@, start as int, j as int, class_pred(class));
    }
    j
}

/// Scans the single token starting at character index `i`, returning it with
/// its width, or the lexical error there. Equal to [`spec_scan`] at `i`.
pub fn scan_at(input: &str, length: usize, i: usize) -> (r: Result<(Token, usize), TokenizerError>)
    requires
        length == input@.len(),
        i <= length,
    ensures
        scan_matches(input@, i as int, r),
        r matches Ok(p) ==> i + p.1 <= length,
        r matches Ok(p) ==> (p.1 == 0 <==> p.0@ is Eof),
{
    if i >= length {
        return Ok((Token::Eof, 0));
    }
    let c = input.get_char(i);
    if ws_char(c) {
        let j = run_end(input, length, i, CharClass::Ws);
        Ok((Token::Whitespace(j - i), j - i))
    } else if digit_char(c) {
        let j = run_end(input, length, i, CharClass::Digit);
        let lex = input.substring_char(i, j);
        Ok((Token::Number(String::from_str(lex)), j - i))
    } else if ident_start_char(c) {
        let j = run_end(input, length, i, CharClass::Ident);
        let lex = input.substring_char(i, j);
        match keyword_of(lex) {
            Some(k) => Ok((Token::Keyword(k), j - i)),
            None => Ok((Token::Identifier(String::from_str(lex)), j - i)),
        }
    } else if c == '"' {
        let mut j = i + 1;
        while j < length && input.get_char(j) != '"'
            invariant
                length == input@.len(),
                i + 1 <= j <= length,
                forall|k: int| i + 1 <= k < j ==> input@[k] != '"',
            decreases length - j,
        {
            j = j + 1;
        }
        if j >= length {
            proof {
                lemma_closing_quote_missing(input@, i as int + 1);
            }
            Err(TokenizerError {
                message: String::from_str("unterminated string literal"),
                location: Location::new(i),
            })
        } else {
            proof {
                lemma_closing_quote_found(input@, i as int + 1, j as int);
            }
            let content = input.substring_char(i + 1, j);
            Ok((Token::Str(String::from_str(content)), j + 1 - i))
        }
    } else if c == '+' {
        Ok((Token::Plus, 1))
    } else if c == '-' {
        Ok((Token::Minus, 1))
    } else if c == '*' {
        Ok((Token::Mul, 1))
    } else if c == '/' {
        Ok((Token::Div, 1))
    } else if c == ',' {
        Ok((Token::Comma, 1))
    } else if c == ';' {
        Ok((Token::SemiColon, 1))
    } else if c == '(' {
        Ok((Token::LeftParen, 1))
    } else if c == ')' {
        Ok((Token::RightParen, 1))
    } else if c == '=' {
        Ok((Token::Eq, 1))
    } else if c == '!' {
        if i + 1 < length && input.get_char(i + 1) == '=' {
            Ok((Token::Neq, 2))
        } else {
            Err(TokenizerError {
                message: String::from_str("unexpected character, expected '!='"),
                location: Location::new(i),
            })
        }
    } else if c == '<' {
        if i + 1 < length && input.get_char(i + 1) == '=' {
            Ok((Token::LtEq, 2))
        } else {
            Ok((Token::Lt, 1))
        }
    } else if c == '>' {
        if i + 1 < length && input.get_char(i + 1) == '=' {
            Ok((Token::GtEq, 2))
        } else {
            Ok((Token::Gt, 1))
        }
    } else {
        Err(TokenizerError {
            message: String::from_str("unexpected or unsupported character"),
            location: Location::new(i),
        })
    }
}

/// The token/location sequence of `s` from index `i` on, ending with the
/// `Eof` sentinel, or the location of the first lexical error. A scanned
/// token always moves the cursor forward within bounds; the inner test only
/// keeps the recursion well-founded.
pub open spec fn spec_tokenize(s: Seq<char>, i: int) -> Result<Seq<(TokenV, int)>, int>
    decreases s.len() - i,
{
    match spec_scan(s, i) {
        ScanTok::Eof => Ok(seq![(TokenV::Eof, i)]),
        ScanTok::Fail { loc } => Err(loc),
        ScanTok::Tok { t, width } => {
            if width < 1 || i + width > s.len() {
                Err(i)
            } else {
                match spec_tokenize(s, i + width) {
                    Ok(rest) => Ok(seq![(t, i)] + rest),
                    Err(loc) => Err(loc),
                }
            }
        },
    }
}

/// Tokenizes the whole input: every token with the location of its first
/// character, ending with `Eof`, or the first lexical error. The result is
/// exactly [`spec_tokenize`] of the input text, hence a pure function of it.
pub fn tokenize(input: &str) -> (r: Result<Vec<TokenWithLocation>, TokenizerError>)
    ensures
        match spec_tokenize(input@, 0) {
            Ok(toks) => r matches Ok(v) && v.deep_view() == toks,
            Err(loc) => r matches Err(e) && e.location.offset == loc,
        },
{
    let length = input.unicode_len();
    let mut out: Vec<TokenWithLocation> = Vec::new();
    let mut i: usize = 0;
    loop
        invariant
            length == input@.len(),
            i <= length,
            match spec_tokenize(input@, i as int) {
                Ok(rest) => spec_tokenize(input@, 0) == Ok::<_, int>(out.deep_view() + rest),
                Err(loc) => spec_tokenize(input@, 0) == Err::<Seq<(TokenV, int)>, _>(loc),
            },
        decreases length - i,
    {
        match scan_at(input, length, i) {
            Err(e) => {
                return Err(e);
            },
            Ok((tok, width)) => {
                let ghost prev = out.deep_view();
                out.push(TokenWithLocation { token: tok, location: Location::new(i) });
                proof {
                    assert(out.deep_view() =~= prev + seq![(tok@, i as int)]);
                }
                if width == 0 {
                    proof {
                        assert(out.deep_view() =~= prev + seq![(TokenV::Eof, i as int)]);
                        assert(spec_tokenize(input@, i as int) == Ok::<_, int>(
                            seq![(TokenV::Eof, i as int)],
                        ));
                    }
                    return Ok(out);
                }
                proof {
                    let sp = spec_tokenize(input@, i as int);
                    let rest = spec_tokenize(input@, i + width);
                    if rest is Ok {
                        assert(prev + (seq![(tok@, i as int)] + rest->Ok_0) =~= (prev + seq![
                            (tok@, i as int),
                        ]) + rest->Ok_0);
                    }
                }
                i = i + width;
            },
        }
    }
}

/// Tokenization is deterministic: two token/location sequences obtained from
/// the same input text are equal.
pub proof fn lemma_tokenize_deterministic(
    s: Seq<char>,
    r1: Result<Seq<(TokenV, int)>, int>,
    r2: Result<Seq<(TokenV, int)>, int>,
)
    requires
        r1 == spec_tokenize(s, 0),
        r2 == spec_tokenize(s, 0),
    ensures
        r1 == r2,
{
}

} // verus!
