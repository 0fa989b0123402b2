//! The lexer: from source text to tokens.
use crate::error::LexError;
use crate::literal::is_digit;
use crate::model::{tokens_view, Token, TokenType, TokenView};
use crate::text::chars_of;
use vstd::prelude::*;

verus! {

/// Whether `char::is_alphanumeric` holds of a character.
pub uninterp spec fn alphanumeric(c: char) -> bool;

/// Whether `char::is_numeric` holds of a character.
pub uninterp spec fn numeric(c: char) -> bool;

/// `char::is_alphanumeric` depends on the character alone; its result is named
/// [`alphanumeric`]. Of the ASCII characters it holds of the letters and the
/// digits and of no other.
pub assume_specification[ char::is_alphanumeric ](c: char) -> (r: bool)
    ensures
        r == alphanumeric(c),
        c <= '\x7f' ==> r == (('a' <= c <= 'z') || ('A' <= c <= 'Z') || ('0' <= c <= '9')),
;

/// `char::is_numeric` depends on the character alone; its result is named
/// [`numeric`]. Of the ASCII characters it holds of the digits and of no other.
pub assume_specification[ char::is_numeric ](c: char) -> (r: bool)
    ensures
        r == numeric(c),
        c <= '\x7f' ==> r == ('0' <= c <= '9'),
;

// ---------------------------------------------------------------------------
// The rules
// ---------------------------------------------------------------------------
/// An identifier starts with an ASCII letter or one of `+ - * / = ?`.
pub open spec fn starts_identifier(c: char) -> bool {
    ('a' <= c <= 'z') || ('A' <= c <= 'Z') || c == '+' || c == '-' || c == '*' || c == '/' || c
        == '=' || c == '?'
}

/// Whether a character is a letter or a digit: of the ASCII characters the
/// letters `a` to `z` and `A` to `Z` and the digits, of the others those that
/// [`alphanumeric`] holds of.
pub open spec fn is_alphanumeric(c: char) -> bool {
    if c <= '\x7f' {
        ('a' <= c <= 'z') || ('A' <= c <= 'Z') || ('0' <= c <= '9')
    } else {
        alphanumeric(c)
    }
}

/// Whether a character is numeric: of the ASCII characters the digits, of the
/// others those that [`numeric`] holds of.
pub open spec fn is_numeric(c: char) -> bool {
    if c <= '\x7f' {
        '0' <= c <= '9'
    } else {
        numeric(c)
    }
}

/// An identifier goes on with letters, digits, `-`, `'` and `?`.
pub open spec fn continues_identifier(c: char) -> bool {
    is_alphanumeric(c) || c == '-' || c == '\'' || c == '?'
}

/// The line after `line`; the count stops at the largest number.
pub open spec fn next_line(line: usize) -> usize {
    if line < usize::MAX {
        (line + 1) as usize
    } else {
        line
    }
}

/// Where the identifier characters from `pos` on end.
pub open spec fn identifier_end(s: Seq<char>, pos: int) -> int
    decreases s.len() - pos,
{
    if 0 <= pos < s.len() && continues_identifier(s[pos]) {
        identifier_end(s, pos + 1)
    } else {
        pos
    }
}

/// Where a comment ends whose text starts at `pos`: behind the next line feed,
/// or at the end of the text.
pub open spec fn comment_end(s: Seq<char>, pos: int) -> int
    decreases s.len() - pos,
{
    if 0 <= pos < s.len() {
        if s[pos] == '\n' {
            pos + 1
        } else {
            comment_end(s, pos + 1)
        }
    } else {
        pos
    }
}

/// Whether a comment whose text starts at `pos` ends with a line feed.
pub open spec fn comment_ends_line(s: Seq<char>, pos: int) -> bool
    decreases s.len() - pos,
{
    if 0 <= pos < s.len() {
        if s[pos] == '\n' {
            true
        } else {
            comment_ends_line(s, pos + 1)
        }
    } else {
        false
    }
}

/// What scanning a string literal gives.
pub enum StringScan {
    /// The literal's text, where the text goes on behind it, and the line that
    /// the text goes on with.
    Text { text: Seq<char>, end: int, line: usize },
    /// A backslash before `character`, which is no escape, on line `line`.
    UnknownEscape { character: char, line: usize },
}

/// The string literal whose text, behind the opening quote, starts at `pos` on
/// line `line`, with `text` read so far.
///
/// The literal ends at the next quote that no backslash precedes, or at the end
/// of the text. `\"`, `\n` and `\t` stand for a quote, a line feed and a tab; a
/// backslash at the very end of the text stands for nothing. A line feed in
/// the literal is part of its text and starts a new line; the two characters
/// `\n` do not.
pub open spec fn scan_string(s: Seq<char>, pos: int, text: Seq<char>, line: usize) -> StringScan
    decreases s.len() - pos,
{
    if 0 <= pos < s.len() {
        if s[pos] == '"' {
            StringScan::Text { text, end: pos + 1, line }
        } else if s[pos] == '\\' {
            if pos + 1 < s.len() {
                let escaped = s[pos + 1];
                if escaped == '"' {
                    scan_string(s, pos + 2, text.push('"'), line)
                } else if escaped == 'n' {
                    scan_string(s, pos + 2, text.push('\n'), line)
                } else if escaped == 't' {
                    scan_string(s, pos + 2, text.push('\t'), line)
                } else {
                    StringScan::UnknownEscape { character: escaped, line }
                }
            } else {
                StringScan::Text { text, end: pos + 1, line }
            }
        } else if s[pos] == '\n' {
            scan_string(s, pos + 1, text.push(s[pos]), next_line(line))
        } else {
            scan_string(s, pos + 1, text.push(s[pos]), line)
        }
    } else {
        StringScan::Text { text, end: pos, line }
    }
}

/// What scanning a numeric literal gives.
pub enum NumberScan {
    /// Where the literal ends, and whether it holds a decimal point.
    Literal { end: int, is_double: bool },
    /// A second decimal point.
    SecondPoint,
}

/// The numeric literal that goes on at `pos`; `is_double` says that a decimal
/// point was read.
pub open spec fn scan_number(s: Seq<char>, pos: int, is_double: bool) -> NumberScan
    decreases s.len() - pos,
{
    if 0 <= pos < s.len() {
        if s[pos] == '.' {
            if is_double {
                NumberScan::SecondPoint
            } else {
                scan_number(s, pos + 1, true)
            }
        } else if is_numeric(s[pos]) {
            scan_number(s, pos + 1, is_double)
        } else {
            NumberScan::Literal { end: pos, is_double }
        }
    } else {
        NumberScan::Literal { end: pos, is_double }
    }
}

/// What the lexer does at one place of the text.
pub enum Step {
    /// Nothing is produced; the text goes on at `next`, on line `line`.
    Skip { next: int, line: usize },
    /// A token is produced; the text goes on at `next`, on line `line`.
    Emit { token: TokenView, next: int, line: usize },
    /// The text is rejected.
    Fail { error: LexError },
}

/// The token that the single character `c` at `pos` makes.
pub open spec fn single(kind: TokenType, c: char, line: usize, pos: int) -> Step {
    Step::Emit {
        token: TokenView { _type: kind, text: seq![c], line_number: line },
        next: pos + 1,
        line,
    }
}

/// What the lexer does at `pos`, on line `line`.
///
/// A token carries the line that it starts on. Every line feed that is passed
/// starts a new line: one between tokens, the one that ends a comment, and one
/// inside a string literal.
pub open spec fn step_spec(s: Seq<char>, pos: int, line: usize) -> Step
    recommends
        0 <= pos < s.len(),
{
    let c = s[pos];
    if c == '\t' || c == ' ' {
        Step::Skip { next: pos + 1, line }
    } else if c == '\n' {
        Step::Skip { next: pos + 1, line: next_line(line) }
    } else if c == ';' {
        Step::Skip {
            next: comment_end(s, pos + 1),
            line: if comment_ends_line(s, pos + 1) {
                next_line(line)
            } else {
                line
            },
        }
    } else if c == '(' {
        single(TokenType::ParenL, c, line, pos)
    } else if c == ')' {
        single(TokenType::ParenR, c, line, pos)
    } else if c == '[' {
        single(TokenType::BracketL, c, line, pos)
    } else if c == ']' {
        single(TokenType::BracketR, c, line, pos)
    } else if c == '\'' {
        single(TokenType::Quote, c, line, pos)
    } else if starts_identifier(c) {
        let end = identifier_end(s, pos + 1);
        Step::Emit {
            token: TokenView {
                _type: TokenType::Ident,
                text: s.subrange(pos, end),
                line_number: line,
            },
            next: end,
            line,
        }
    } else if c == '"' {
        match scan_string(s, pos + 1, Seq::empty(), line) {
            StringScan::Text { text, end, line: after } => Step::Emit {
                token: TokenView { _type: TokenType::StringLiteral, text, line_number: line },
                next: end,
                line: after,
            },
            StringScan::UnknownEscape { character, line: at } => Step::Fail {
                error: LexError::UnknownEscape { character, line: at },
            },
        }
    } else if is_digit(c) {
        match scan_number(s, pos + 1, false) {
            NumberScan::Literal { end, is_double } => Step::Emit {
                token: TokenView {
                    _type: if is_double {
                        TokenType::DoubleLiteral
                    } else {
                        TokenType::IntLiteral
                    },
                    text: s.subrange(pos, end),
                    line_number: line,
                },
                next: end,
                line,
            },
            NumberScan::SecondPoint => Step::Fail {
                error: LexError::MultipleDecimalPlaces { line },
            },
        }
    } else {
        Step::Fail { error: LexError::UnrecognizedCharacter { character: c, line } }
    }
}

/// The tokens of the text from `pos` on, behind `tokens`, or the first error.
pub open spec fn lex_from(s: Seq<char>, pos: int, line: usize, tokens: Seq<TokenView>) -> Result<
    Seq<TokenView>,
    LexError,
>
    decreases s.len() - pos,
{
    if 0 <= pos < s.len() {
        match step_spec(s, pos, line) {
            Step::Skip { next, line } => if pos < next <= s.len() {
                lex_from(s, next, line, tokens)
            } else {
                Ok(tokens)
            },
            Step::Emit { token, next, line } => if pos < next <= s.len() {
                lex_from(s, next, line, tokens.push(token))
            } else {
                Ok(tokens)
            },
            Step::Fail { error } => Err(error),
        }
    } else {
        Ok(tokens)
    }
}

/// The tokens of a text, or the first error in it.
///
/// The rules are applied from left to right, starting on line 1. Blanks, tabs,
/// line feeds and comments produce nothing. Every line feed that is passed
/// starts a new line, also inside a string literal; a token carries the line
/// that it starts on, and an error the line that it was found on.
pub open spec fn lex_spec(s: Seq<char>) -> Result<Seq<TokenView>, LexError> {
    lex_from(s, 0, 1, Seq::empty())
}

// ---------------------------------------------------------------------------
// The scanner
// ---------------------------------------------------------------------------
/// The mathematical form of the lexer's result.
pub open spec fn lex_result_view(r: Result<Vec<Token>, LexError>) -> Result<
    Seq<TokenView>,
    LexError,
> {
    match r {
        Ok(tokens) => Ok(tokens_view(tokens@)),
        Err(e) => Err(e),
    }
}

fn skip_comment(chars: &Vec<char>, pos: usize) -> (r: (usize, bool))
    requires
        pos <= chars.len(),
    ensures
        r.0 == comment_end(chars@, pos as int),
        r.1 == comment_ends_line(chars@, pos as int),
        pos <= r.0 <= chars.len(),
{
    let mut i: usize = pos;
    while i < chars.len()
        invariant
            pos <= i <= chars.len(),
            comment_end(chars@, i as int) == comment_end(chars@, pos as int),
            comment_ends_line(chars@, i as int) == comment_ends_line(chars@, pos as int),
        decreases chars.len() - i,
    {
        if chars[i] == '\n' {
            return (i + 1, true);
        }
        i += 1;
    }
    (i, false)
}

fn read_identifier(chars: &Vec<char>, pos: usize, text: &mut String) -> (end: usize)
    requires
        pos <= chars.len(),
    ensures
        end == identifier_end(chars@, pos as int),
        pos <= end <= chars.len(),
        final(text)@ == old(text)@ + chars@.subrange(pos as int, end as int),
{
    let mut i: usize = pos;
    assert(text@ =~= old(text)@ + chars@.subrange(pos as int, i as int));
    while i < chars.len()
        invariant
            pos <= i <= chars.len(),
            identifier_end(chars@, i as int) == identifier_end(chars@, pos as int),
            text@ == old(text)@ + chars@.subrange(pos as int, i as int),
        decreases chars.len() - i,
    {
        let next = chars[i];
        if next.is_alphanumeric() || next == '-' || next == '\'' || next == '?' {
            text.push(next);
            assert(text@ =~= old(text)@ + chars@.subrange(pos as int, i + 1));
            i += 1;
        } else {
            return i;
        }
    }
    i
}

/// What scanning a string literal gives, in executable form.
enum StringRead {
    Text { text: String, end: usize, line: usize },
    UnknownEscape { character: char, line: usize },
}

fn read_string(chars: &Vec<char>, pos: usize, line: usize) -> (r: StringRead)
    requires
        pos <= chars.len(),
    ensures
        match r {
            StringRead::Text { text, end, line: after } => scan_string(
                chars@,
                pos as int,
                Seq::empty(),
                line,
            ) == (StringScan::Text { text: text@, end: end as int, line: after }) && pos <= end
                <= chars.len(),
            StringRead::UnknownEscape { character, line: at } => scan_string(
                chars@,
                pos as int,
                Seq::empty(),
                line,
            ) == (StringScan::UnknownEscape { character, line: at }),
        },
{
    let mut text = String::new();
    let mut now: usize = line;
    let mut i: usize = pos;
    while i < chars.len()
        invariant
            pos <= i <= chars.len(),
            scan_string(chars@, i as int, text@, now) == scan_string(
                chars@,
                pos as int,
                Seq::empty(),
                line,
            ),
        decreases chars.len() - i,
    {
        let next = chars[i];
        if next == '"' {
            return StringRead::Text { text, end: i + 1, line: now };
        } else if next == '\\' {
            if i + 1 < chars.len() {
                let escaped = chars[i + 1];
                if escaped == '"' {
                    text.push('"');
                } else if escaped == 'n' {
                    text.push('\n');
                } else if escaped == 't' {
                    text.push('\t');
                } else {
                    return StringRead::UnknownEscape { character: escaped, line: now };
                }
                i += 2;
            } else {
                return StringRead::Text { text, end: i + 1, line: now };
            }
        } else {
            if next == '\n' && now < usize::MAX {
                now += 1;
            }
            text.push(next);
            i += 1;
        }
    }
    StringRead::Text { text, end: i, line: now }
}

fn read_number(chars: &Vec<char>, pos: usize, text: &mut String) -> (r: Option<(usize, bool)>)
    requires
        pos <= chars.len(),
    ensures
        match r {
            Some((end, is_double)) => scan_number(chars@, pos as int, false) == (
            NumberScan::Literal { end: end as int, is_double }) && pos <= end <= chars.len()
                && final(text)@ == old(text)@ + chars@.subrange(pos as int, end as int),
            None => scan_number(chars@, pos as int, false) == NumberScan::SecondPoint,
        },
{
    let mut is_double = false;
    let mut i: usize = pos;
    assert(text@ =~= old(text)@ + chars@.subrange(pos as int, i as int));
    while i < chars.len()
        invariant
            pos <= i <= chars.len(),
            scan_number(chars@, i as int, is_double) == scan_number(chars@, pos as int, false),
            text@ == old(text)@ + chars@.subrange(pos as int, i as int),
        decreases chars.len() - i,
    {
        let next = chars[i];
        if next == '.' {
            if is_double {
                return None;
            }
            is_double = true;
        } else if !next.is_numeric() {
            return Some((i, is_double));
        }
        text.push(next);
        assert(text@ =~= old(text)@ + chars@.subrange(pos as int, i + 1));
        i += 1;
    }
    Some((i, is_double))
}

fn push_token(tokens: &mut Vec<Token>, kind: TokenType, text: String, line_number: usize)
    ensures
        tokens_view(final(tokens)@) == tokens_view(old(tokens)@).push(
            TokenView { _type: kind, text: text@, line_number },
        ),
{
    tokens.push(Token { _type: kind, text, line_number });
    assert(tokens_view(tokens@) =~= tokens_view(old(tokens)@).push(
        TokenView { _type: kind, text: text@, line_number },
    ));
}

/// The kind of the token that a single character makes, if it makes one.
fn single_kind(c: char) -> (r: Option<TokenType>)
    ensures
        r == if c == '(' {
            Some(TokenType::ParenL)
        } else if c == ')' {
            Some(TokenType::ParenR)
        } else if c == '[' {
            Some(TokenType::BracketL)
        } else if c == ']' {
            Some(TokenType::BracketR)
        } else if c == '\'' {
            Some(TokenType::Quote)
        } else {
            None
        },
{
    if c == '(' {
        Some(TokenType::ParenL)
    } else if c == ')' {
        Some(TokenType::ParenR)
    } else if c == '[' {
        Some(TokenType::BracketL)
    } else if c == ']' {
        Some(TokenType::BracketR)
    } else if c == '\'' {
        Some(TokenType::Quote)
    } else {
        None
    }
}

fn is_identifier_start(c: char) -> (r: bool)
    ensures
        r == starts_identifier(c),
{
    ('a' <= c && c <= 'z') || ('A' <= c && c <= 'Z') || c == '+' || c == '-' || c == '*' || c
        == '/' || c == '=' || c == '?'
}

/// The tokens of a text, in order, or the first error in it.
///
/// Blanks, tabs, line feeds and comments (from `;` to the end of the line)
/// produce nothing. Each of `( ) [ ] '` is a token. An identifier starts with an
/// ASCII letter or one of `+ - * / = ?` and goes on with alphanumeric
/// characters, `-`, `'` and `?`. A string literal stands between double quotes,
/// with `\"`, `\n` and `\t` as escapes. A numeric literal starts with a digit
/// and goes on with numeric characters and at most one decimal point, which
/// makes it a double literal. Lines are counted from 1 by every line feed that
/// is passed, also inside a string literal; a token carries the line that it
/// starts on, and an error the line that it was found on.
pub fn lex(s: String) -> (r: Result<Vec<Token>, LexError>)
    ensures
        lex_result_view(r) == lex_spec(s@),
{
    let chars = chars_of(s.as_str());
    let mut tokens: Vec<Token> = Vec::new();
    let mut line_number: usize = 1;
    let mut pos: usize = 0;
    assert(tokens_view(tokens@) =~= Seq::<TokenView>::empty());
    while pos < chars.len()
        invariant
            pos <= chars.len(),
            chars@ == s@,
            lex_from(chars@, pos as int, line_number, tokens_view(tokens@)) == lex_spec(s@),
        decreases chars.len() - pos,
    {
        let ch = chars[pos];
        if ch == '\t' || ch == ' ' {
            pos += 1;
        } else if ch == '\n' {
            if line_number < usize::MAX {
                line_number += 1;
            }
            pos += 1;
        } else if ch == ';' {
            let (end, ends_line) = skip_comment(&chars, pos + 1);
            if ends_line && line_number < usize::MAX {
                line_number += 1;
            }
            pos = end;
        } else if let Some(kind) = single_kind(ch) {
            let mut text = String::new();
            text.push(ch);
            assert(text@ =~= seq![ch]);
            push_token(&mut tokens, kind, text, line_number);
            pos += 1;
        } else if is_identifier_start(ch) {
            let mut text = String::new();
            text.push(ch);
            let end = read_identifier(&chars, pos + 1, &mut text);
            assert(text@ =~= chars@.subrange(pos as int, end as int));
            push_token(&mut tokens, TokenType::Ident, text, line_number);
            pos = end;
        } else if ch == '"' {
            match read_string(&chars, pos + 1, line_number) {
                StringRead::Text { text, end, line } => {
                    push_token(&mut tokens, TokenType::StringLiteral, text, line_number);
                    pos = end;
                    line_number = line;
                },
                StringRead::UnknownEscape { character, line } => {
                    return Err(LexError::UnknownEscape { character, line });
                },
            }
        } else if '0' <= ch && ch <= '9' {
            let mut text = String::new();
            text.push(ch);
            match read_number(&chars, pos + 1, &mut text) {
                Some((end, is_double)) => {
                    assert(text@ =~= chars@.subrange(pos as int, end as int));
                    let kind = if is_double {
                        TokenType::DoubleLiteral
                    } else {
                        TokenType::IntLiteral
                    };
                    push_token(&mut tokens, kind, text, line_number);
                    pos = end;
                },
                None => {
                    return Err(LexError::MultipleDecimalPlaces { line: line_number });
                },
            }
        } else {
            return Err(LexError::UnrecognizedCharacter { character: ch, line: line_number });
        }
    }
    Ok(tokens)
}

} // verus!
