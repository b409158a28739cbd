use vstd::prelude::*;
use crate::models::ExprView;
use crate::text::{all_ascii, ascii_upper_char, upper_of};

verus! {

/// Deepest nesting of parentheses that the parser accepts.
pub const MAX_NESTING_DEPTH: usize = 100;

/// Why a license expression could not be parsed.
#[derive(Debug, Clone, Copy, PartialEq, Eq, Structural)]
pub enum ParseError {
    MismatchedParentheses,
    UnexpectedEndOfExpression,
    ExpectedClosingParenthesis,
    ExpectedExceptionAfterWith,
    NestingTooDeep,
}

pub open spec fn error_text(e: ParseError) -> Seq<char> {
    match e {
        ParseError::MismatchedParentheses => "Mismatched parentheses"@,
        ParseError::UnexpectedEndOfExpression => "Unexpected end of expression"@,
        ParseError::ExpectedClosingParenthesis => "Expected closing parenthesis"@,
        ParseError::ExpectedExceptionAfterWith => "Expected exception after WITH"@,
        ParseError::NestingTooDeep => "Expression nested too deeply"@,
    }
}

impl ParseError {
    /// Text of the error for a reader.
    pub fn message(&self) -> (r: String)
        ensures
            r@ == error_text(*self),
    {
        match self {
            ParseError::MismatchedParentheses => String::from_str("Mismatched parentheses"),
            ParseError::UnexpectedEndOfExpression => String::from_str("Unexpected end of expression"),
            ParseError::ExpectedClosingParenthesis => String::from_str("Expected closing parenthesis"),
            ParseError::ExpectedExceptionAfterWith => String::from_str("Expected exception after WITH"),
            ParseError::NestingTooDeep => String::from_str("Expression nested too deeply"),
        }
    }
}

pub open spec fn is_separator(c: char) -> bool {
    c == ' ' || c == '\t' || c == '\n'
}

pub open spec fn is_paren(c: char) -> bool {
    c == '(' || c == ')'
}

/// Completed tokens, with the pending one added if it is not empty.
pub open spec fn flush(done: Seq<Seq<char>>, pending: Seq<char>) -> Seq<Seq<char>> {
    if pending.len() == 0 {
        done
    } else {
        done.push(pending)
    }
}

/// Tokens completed after reading `s`, and the token still being read.
pub open spec fn scan(s: Seq<char>) -> (Seq<Seq<char>>, Seq<char>)
    decreases s.len(),
{
    if s.len() == 0 {
        (Seq::empty(), Seq::empty())
    } else {
        let (done, pending) = scan(s.drop_last());
        let c = s.last();
        if is_paren(c) {
            (flush(done, pending).push(seq![c]), Seq::empty())
        } else if is_separator(c) {
            (flush(done, pending), Seq::empty())
        } else {
            (done, pending.push(c))
        }
    }
}

/// Opening minus closing parentheses in `s`.
pub open spec fn paren_depth(s: Seq<char>) -> int
    decreases s.len(),
{
    if s.len() == 0 {
        0
    } else {
        paren_depth(s.drop_last()) + if s.last() == '(' {
            1int
        } else if s.last() == ')' {
            -1int
        } else {
            0int
        }
    }
}

/// The tokens of a text: each parenthesis alone, and each maximal run of
/// characters that are neither parentheses nor separators.
pub open spec fn tokens_of(s: Seq<char>) -> Result<Seq<Seq<char>>, ParseError> {
    if paren_depth(s) != 0 {
        Err(ParseError::MismatchedParentheses)
    } else {
        Ok(flush(scan(s).0, scan(s).1))
    }
}

/// Upper case of a token: ASCII letters are upper-cased one by one; other
/// text is upper-cased by the Unicode rules.
pub open spec fn upper_text(tok: Seq<char>) -> Seq<char> {
    if all_ascii(tok) {
        tok.map_values(|c: char| ascii_upper_char(c))
    } else {
        upper_of(tok)
    }
}

/// A token is the keyword `kw` when its upper case spells it.
pub open spec fn is_keyword(tok: Seq<char>, kw: Seq<char>) -> bool {
    upper_text(tok) == kw
}

/// `OR`-separated operands, folded to the left.
pub open spec fn parse_or(toks: Seq<Seq<char>>, pos: int, depth: int) -> Result<(ExprView, int), ParseError>
    decreases toks.len() - pos, 6int,
{
    match parse_and(toks, pos, depth) {
        Err(e) => Err(e),
        Ok((left, p)) => if pos < p <= toks.len() {
            or_tail(toks, left, p, depth)
        } else {
            Ok((left, p))
        },
    }
}

pub open spec fn or_tail(toks: Seq<Seq<char>>, left: ExprView, pos: int, depth: int) -> Result<(ExprView, int), ParseError>
    decreases toks.len() - pos, 5int,
{
    if 0 <= pos < toks.len() && is_keyword(toks[pos], "OR"@) {
        match parse_and(toks, pos + 1, depth) {
            Err(e) => Err(e),
            Ok((right, p)) => {
                let node = ExprView::Or(Box::new(left), Box::new(right));
                if pos < p <= toks.len() {
                    or_tail(toks, node, p, depth)
                } else {
                    Ok((node, p))
                }
            },
        }
    } else {
        Ok((left, pos))
    }
}

/// `AND`-separated operands, folded to the left.
pub open spec fn parse_and(toks: Seq<Seq<char>>, pos: int, depth: int) -> Result<(ExprView, int), ParseError>
    decreases toks.len() - pos, 4int,
{
    match parse_with(toks, pos, depth) {
        Err(e) => Err(e),
        Ok((left, p)) => if pos < p <= toks.len() {
            and_tail(toks, left, p, depth)
        } else {
            Ok((left, p))
        },
    }
}

pub open spec fn and_tail(toks: Seq<Seq<char>>, left: ExprView, pos: int, depth: int) -> Result<(ExprView, int), ParseError>
    decreases toks.len() - pos, 3int,
{
    if 0 <= pos < toks.len() && is_keyword(toks[pos], "AND"@) {
        match parse_with(toks, pos + 1, depth) {
            Err(e) => Err(e),
            Ok((right, p)) => {
                let node = ExprView::And(Box::new(left), Box::new(right));
                if pos < p <= toks.len() {
                    and_tail(toks, node, p, depth)
                } else {
                    Ok((node, p))
                }
            },
        }
    } else {
        Ok((left, pos))
    }
}

/// A primary followed by any number of `WITH <exception>` suffixes.
pub open spec fn parse_with(toks: Seq<Seq<char>>, pos: int, depth: int) -> Result<(ExprView, int), ParseError>
    decreases toks.len() - pos, 2int,
{
    match parse_primary(toks, pos, depth) {
        Err(e) => Err(e),
        Ok((base, p)) => if pos < p <= toks.len() {
            with_tail(toks, base, p)
        } else {
            Ok((base, p))
        },
    }
}

pub open spec fn with_tail(toks: Seq<Seq<char>>, base: ExprView, pos: int) -> Result<(ExprView, int), ParseError>
    decreases toks.len() - pos, 1int,
{
    if 0 <= pos < toks.len() && is_keyword(toks[pos], "WITH"@) {
        if pos + 1 >= toks.len() {
            Err(ParseError::ExpectedExceptionAfterWith)
        } else {
            with_tail(toks, ExprView::With(Box::new(base), toks[pos + 1]), pos + 2)
        }
    } else {
        Ok((base, pos))
    }
}

/// A parenthesised expression or a single license identifier.
pub open spec fn parse_primary(toks: Seq<Seq<char>>, pos: int, depth: int) -> Result<(ExprView, int), ParseError>
    decreases toks.len() - pos, 0int,
{
    if pos < 0 || pos >= toks.len() {
        Err(ParseError::UnexpectedEndOfExpression)
    } else if toks[pos] == "("@ {
        if depth >= MAX_NESTING_DEPTH {
            Err(ParseError::NestingTooDeep)
        } else {
            match parse_or(toks, pos + 1, depth + 1) {
                Err(e) => Err(e),
                Ok((inner, p)) => if 0 <= p < toks.len() && toks[p] == ")"@ {
                    Ok((inner, p + 1))
                } else {
                    Err(ParseError::ExpectedClosingParenthesis)
                },
            }
        }
    } else {
        Ok((ExprView::Leaf(toks[pos]), pos + 1))
    }
}

/// The tree that a token sequence starts with; tokens after it are ignored.
pub open spec fn parse_tokens(toks: Seq<Seq<char>>) -> Result<ExprView, ParseError> {
    match parse_or(toks, 0, 0) {
        Ok((tree, _)) => Ok(tree),
        Err(e) => Err(e),
    }
}

/// The tree that a text parses to.
pub open spec fn parse_text(s: Seq<char>) -> Result<ExprView, ParseError> {
    match tokens_of(s) {
        Ok(toks) => parse_tokens(toks),
        Err(e) => Err(e),
    }
}

} // verus!
