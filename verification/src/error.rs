//! The three kinds of failure: in the lexer, in the parser and in the evaluator.
use crate::model::{Builtin, Elt, EltView, TokenType};
use crate::semantics::natural_text;
use crate::text::push_natural;
use vstd::prelude::*;
use vstd::string::StringExecFns;

verus! {

/// Why the lexer rejected a text; `line` is the 1-based line it stopped on.
#[derive(Debug, PartialEq, Eq, Structural, Clone, Copy)]
pub enum LexError {
    /// A character that starts no token.
    UnrecognizedCharacter { character: char, line: usize },
    /// A backslash in a string literal before a character other than `"`, `n`
    /// and `t`.
    UnknownEscape { character: char, line: usize },
    /// A second decimal point in a numeric literal.
    MultipleDecimalPlaces { line: usize },
}

impl LexError {
    /// The line that the error is on.
    pub fn line(&self) -> (r: usize)
        ensures
            r == self.spec_line(),
    {
        match self {
            LexError::UnrecognizedCharacter { line, .. } => *line,
            LexError::UnknownEscape { line, .. } => *line,
            LexError::MultipleDecimalPlaces { line } => *line,
        }
    }

    pub open spec fn spec_line(&self) -> usize {
        match self {
            LexError::UnrecognizedCharacter { line, .. } => *line,
            LexError::UnknownEscape { line, .. } => *line,
            LexError::MultipleDecimalPlaces { line } => *line,
        }
    }

    /// The message of the error, which names the character and the line.
    pub open spec fn message_spec(&self) -> Seq<char> {
        match self {
            LexError::UnrecognizedCharacter { character, line } => "unrecognized character '"@.push(
                *character,
            ) + "' on line "@ + natural_text(*line as nat),
            LexError::UnknownEscape { character, line } => "unknown escape sequence \\"@.push(
                *character,
            ) + " on line "@ + natural_text(*line as nat),
            LexError::MultipleDecimalPlaces { line } => "multiple decimal places in float literal on line "@
                + natural_text(*line as nat),
        }
    }

    /// The message of the error, which names the character and the line.
    pub fn message(&self) -> (r: String)
        ensures
            r@ == self.message_spec(),
    {
        match self {
            LexError::UnrecognizedCharacter { character, line } => {
                let mut out = "unrecognized character '".to_owned();
                out.push(*character);
                out.append("' on line ");
                push_natural(&mut out, *line as u64);
                out
            },
            LexError::UnknownEscape { character, line } => {
                let mut out = "unknown escape sequence \\".to_owned();
                out.push(*character);
                out.append(" on line ");
                push_natural(&mut out, *line as u64);
                out
            },
            LexError::MultipleDecimalPlaces { line } => {
                let mut out = "multiple decimal places in float literal on line ".to_owned();
                push_natural(&mut out, *line as u64);
                out
            },
        }
    }
}

/// Why the parser rejected a sequence of tokens; `line` is a 1-based line.
#[derive(Debug, PartialEq, Eq)]
pub enum ParseError {
    /// A `)` or `]` where an expression was expected, on line `line`.
    UnexpectedClosing { delimiter: TokenType, line: usize },
    /// A list that was opened on line `line` and never closed.
    UnterminatedList { line: usize },
    /// A vector that was opened on line `line` and never closed.
    UnterminatedVector { line: usize },
    /// The tokens ended where an expression was expected.
    UnexpectedEnd,
    /// An integer literal that is no 64-bit integer.
    BadIntegerLiteral { text: String, line: usize },
    /// A double literal that is no number.
    BadDoubleLiteral { text: String, line: usize },
}

/// The mathematical form of a [`ParseError`].
pub enum ParseErrorView {
    UnexpectedClosing { delimiter: TokenType, line: usize },
    UnterminatedList { line: usize },
    UnterminatedVector { line: usize },
    UnexpectedEnd,
    BadIntegerLiteral { text: Seq<char>, line: usize },
    BadDoubleLiteral { text: Seq<char>, line: usize },
}

impl ParseErrorView {
    /// The line that the error is on, where it has one.
    pub open spec fn line(&self) -> Option<usize> {
        match self {
            ParseErrorView::UnexpectedClosing { line, .. } => Some(*line),
            ParseErrorView::UnterminatedList { line } => Some(*line),
            ParseErrorView::UnterminatedVector { line } => Some(*line),
            ParseErrorView::UnexpectedEnd => None,
            ParseErrorView::BadIntegerLiteral { line, .. } => Some(*line),
            ParseErrorView::BadDoubleLiteral { line, .. } => Some(*line),
        }
    }

    /// The message of the error, which names what was found and the line.
    pub open spec fn message(&self) -> Seq<char> {
        match self {
            ParseErrorView::UnexpectedClosing { delimiter, line } => (if *delimiter
                == TokenType::BracketR {
                "unexpected closing bracket on line "@
            } else {
                "unexpected closing paren on line "@
            }) + natural_text(*line as nat),
            ParseErrorView::UnterminatedList { line } => "unterminated list starting on line "@
                + natural_text(*line as nat),
            ParseErrorView::UnterminatedVector { line } => "unterminated vector starting on line "@
                + natural_text(*line as nat),
            ParseErrorView::UnexpectedEnd => "unexpected end of input"@,
            ParseErrorView::BadIntegerLiteral { text, line } => "bad integer literal on line "@
                + natural_text(*line as nat) + ": "@ + *text,
            ParseErrorView::BadDoubleLiteral { text, line } => "bad double literal on line "@
                + natural_text(*line as nat) + ": "@ + *text,
        }
    }
}

impl ParseError {
    /// The line that the error is on, where it has one.
    pub fn line(&self) -> (r: Option<usize>)
        ensures
            r == self@.line(),
    {
        match self {
            ParseError::UnexpectedClosing { line, .. } => Some(*line),
            ParseError::UnterminatedList { line } => Some(*line),
            ParseError::UnterminatedVector { line } => Some(*line),
            ParseError::UnexpectedEnd => None,
            ParseError::BadIntegerLiteral { line, .. } => Some(*line),
            ParseError::BadDoubleLiteral { line, .. } => Some(*line),
        }
    }

    /// The message of the error, which names what was found and the line.
    pub fn message(&self) -> (r: String)
        ensures
            r@ == self@.message(),
    {
        match self {
            ParseError::UnexpectedClosing { delimiter, line } => {
                let mut out = match delimiter {
                    TokenType::BracketR => "unexpected closing bracket on line ".to_owned(),
                    _ => "unexpected closing paren on line ".to_owned(),
                };
                push_natural(&mut out, *line as u64);
                out
            },
            ParseError::UnterminatedList { line } => {
                let mut out = "unterminated list starting on line ".to_owned();
                push_natural(&mut out, *line as u64);
                out
            },
            ParseError::UnterminatedVector { line } => {
                let mut out = "unterminated vector starting on line ".to_owned();
                push_natural(&mut out, *line as u64);
                out
            },
            ParseError::UnexpectedEnd => "unexpected end of input".to_owned(),
            ParseError::BadIntegerLiteral { text, line } => {
                let mut out = "bad integer literal on line ".to_owned();
                push_natural(&mut out, *line as u64);
                out.append(": ");
                out.append(text.as_str());
                out
            },
            ParseError::BadDoubleLiteral { text, line } => {
                let mut out = "bad double literal on line ".to_owned();
                push_natural(&mut out, *line as u64);
                out.append(": ");
                out.append(text.as_str());
                out
            },
        }
    }
}

impl View for ParseError {
    type V = ParseErrorView;

    open spec fn view(&self) -> ParseErrorView {
        match self {
            ParseError::UnexpectedClosing { delimiter, line } => ParseErrorView::UnexpectedClosing {
                delimiter: *delimiter,
                line: *line,
            },
            ParseError::UnterminatedList { line } => ParseErrorView::UnterminatedList {
                line: *line,
            },
            ParseError::UnterminatedVector { line } => ParseErrorView::UnterminatedVector {
                line: *line,
            },
            ParseError::UnexpectedEnd => ParseErrorView::UnexpectedEnd,
            ParseError::BadIntegerLiteral { text, line } => ParseErrorView::BadIntegerLiteral {
                text: text@,
                line: *line,
            },
            ParseError::BadDoubleLiteral { text, line } => ParseErrorView::BadDoubleLiteral {
                text: text@,
                line: *line,
            },
        }
    }
}

/// Why an evaluation failed.
#[derive(Debug, PartialEq, Eq)]
pub enum EvalError {
    /// A symbol that the scope does not bind.
    UndefinedVariable { name: String },
    /// The empty list was evaluated as a call.
    EmptyCall,
    /// The head of a call evaluated to a value that cannot be called.
    NotCallable { value: Elt },
    /// A function or macro was given `received` arguments for `expected` parameters.
    WrongParameterCount { expected: usize, received: usize },
    /// A primitive was given a number of arguments that it does not take.
    WrongArgumentCount { builtin: Builtin, received: usize },
    /// A primitive was given a value of a kind that it does not take.
    TypeMismatch { builtin: Builtin, value: Elt },
    /// `car` of the empty list.
    EmptyList,
    /// `nth` with an index outside the list.
    IndexOutOfRange { index: i64, length: usize },
    /// An integer result outside the 64-bit range.
    Overflow { builtin: Builtin },
    /// Calls nested deeper than the runtime's limit.
    DepthExceeded,
}

/// The mathematical form of an [`EvalError`].
pub enum EvalErrorView {
    UndefinedVariable { name: Seq<char> },
    EmptyCall,
    NotCallable { value: EltView },
    WrongParameterCount { expected: usize, received: usize },
    WrongArgumentCount { builtin: Builtin, received: usize },
    TypeMismatch { builtin: Builtin, value: EltView },
    EmptyList,
    IndexOutOfRange { index: i64, length: usize },
    Overflow { builtin: Builtin },
    DepthExceeded,
}

impl View for EvalError {
    type V = EvalErrorView;

    open spec fn view(&self) -> EvalErrorView {
        match self {
            EvalError::UndefinedVariable { name } => EvalErrorView::UndefinedVariable { name: name@ },
            EvalError::EmptyCall => EvalErrorView::EmptyCall,
            EvalError::NotCallable { value } => EvalErrorView::NotCallable { value: value@ },
            EvalError::WrongParameterCount { expected, received } => {
                EvalErrorView::WrongParameterCount { expected: *expected, received: *received }
            },
            EvalError::WrongArgumentCount { builtin, received } => {
                EvalErrorView::WrongArgumentCount { builtin: *builtin, received: *received }
            },
            EvalError::TypeMismatch { builtin, value } => EvalErrorView::TypeMismatch {
                builtin: *builtin,
                value: value@,
            },
            EvalError::EmptyList => EvalErrorView::EmptyList,
            EvalError::IndexOutOfRange { index, length } => EvalErrorView::IndexOutOfRange {
                index: *index,
                length: *length,
            },
            EvalError::Overflow { builtin } => EvalErrorView::Overflow { builtin: *builtin },
            EvalError::DepthExceeded => EvalErrorView::DepthExceeded,
        }
    }
}

} // verus!
