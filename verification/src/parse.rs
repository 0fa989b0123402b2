//! The parser: from tokens to expressions.
use crate::error::{ParseError, ParseErrorView};
use crate::literal::{double_spec, integer_spec, is_double_literal, parse_integer};
use crate::model::{
    elts_view, lemma_items_view, tokens_view, Double, DoubleView, Elt, EltView, Token, TokenType,
    TokenView,
};
use crate::text::chars_of;
use vstd::prelude::*;

verus! {

// ---------------------------------------------------------------------------
// The grammar
// ---------------------------------------------------------------------------
/// The error for a list or a vector that was opened on line `line` and is not
/// closed by `closing`.
pub open spec fn unterminated(closing: TokenType, line: usize) -> ParseErrorView {
    if closing == TokenType::ParenR {
        ParseErrorView::UnterminatedList { line }
    } else {
        ParseErrorView::UnterminatedVector { line }
    }
}

/// The expression that starts at `index`, and the index behind it.
///
/// `(` opens a list and `[` a vector, each of the expressions up to the matching
/// closer. A quote mark before an expression `e` stands for the list
/// `(quote e)`. An integer literal is the 64-bit integer it stands for, a
/// double literal the double it stands for, a string literal a string and an
/// identifier a symbol.
pub open spec fn parse_expr_spec(tokens: Seq<TokenView>, index: int) -> Result<
    (EltView, int),
    ParseErrorView,
>
    decreases tokens.len() - index, 0nat,
{
    if !(0 <= index < tokens.len()) {
        Err(ParseErrorView::UnexpectedEnd)
    } else {
        let token = tokens[index];
        match token._type {
            TokenType::ParenL => match parse_items_spec(
                tokens,
                index + 1,
                TokenType::ParenR,
                token.line_number,
                Seq::empty(),
            ) {
                Ok((items, next)) => Ok((EltView::List(items), next)),
                Err(e) => Err(e),
            },
            TokenType::BracketL => match parse_items_spec(
                tokens,
                index + 1,
                TokenType::BracketR,
                token.line_number,
                Seq::empty(),
            ) {
                Ok((items, next)) => Ok((EltView::Vector(items), next)),
                Err(e) => Err(e),
            },
            TokenType::IntLiteral => match integer_spec(token.text) {
                Some(i) => Ok((EltView::Int(i), index + 1)),
                None => Err(
                    ParseErrorView::BadIntegerLiteral {
                        text: token.text,
                        line: token.line_number,
                    },
                ),
            },
            TokenType::Quote => match parse_expr_spec(tokens, index + 1) {
                Ok((quoted, next)) => Ok(
                    (EltView::List(seq![EltView::Symbol("quote"@), quoted]), next),
                ),
                Err(e) => Err(e),
            },
            TokenType::StringLiteral => Ok((EltView::String_(token.text), index + 1)),
            TokenType::DoubleLiteral => if double_spec(token.text) {
                Ok((EltView::Double(DoubleView::Literal(token.text)), index + 1))
            } else {
                Err(
                    ParseErrorView::BadDoubleLiteral {
                        text: token.text,
                        line: token.line_number,
                    },
                )
            },
            TokenType::Ident => Ok((EltView::Symbol(token.text), index + 1)),
            TokenType::BracketR | TokenType::ParenR => Err(
                ParseErrorView::UnexpectedClosing {
                    delimiter: token._type,
                    line: token.line_number,
                },
            ),
        }
    }
}

/// The expressions from `index` up to the token `closing`, behind `items`, and
/// the index behind that token. `opened_on` is the line of the opener.
pub open spec fn parse_items_spec(
    tokens: Seq<TokenView>,
    index: int,
    closing: TokenType,
    opened_on: usize,
    items: Seq<EltView>,
) -> Result<(Seq<EltView>, int), ParseErrorView>
    decreases tokens.len() - index, 1nat,
{
    if !(0 <= index < tokens.len()) {
        Err(unterminated(closing, opened_on))
    } else if tokens[index]._type == closing {
        Ok((items, index + 1))
    } else {
        match parse_expr_spec(tokens, index) {
            Err(e) => Err(e),
            Ok((item, next)) => if index < next <= tokens.len() {
                parse_items_spec(tokens, next, closing, opened_on, items.push(item))
            } else {
                Err(ParseErrorView::UnexpectedEnd)
            },
        }
    }
}

/// The expressions from `index` to the end of the tokens, behind `nodes`.
pub open spec fn parse_from_spec(tokens: Seq<TokenView>, index: int, nodes: Seq<EltView>) -> Result<
    Seq<EltView>,
    ParseErrorView,
>
    decreases tokens.len() - index, 2nat,
{
    if !(0 <= index < tokens.len()) {
        Ok(nodes)
    } else {
        match parse_expr_spec(tokens, index) {
            Err(e) => Err(e),
            Ok((node, next)) => if index < next <= tokens.len() {
                parse_from_spec(tokens, next, nodes.push(node))
            } else {
                Err(ParseErrorView::UnexpectedEnd)
            },
        }
    }
}

/// The top-level expressions that a sequence of tokens holds, in order, or the
/// first error in it.
pub open spec fn parse_spec(tokens: Seq<TokenView>) -> Result<Seq<EltView>, ParseErrorView> {
    parse_from_spec(tokens, 0, Seq::empty())
}

// ---------------------------------------------------------------------------
// The parser
// ---------------------------------------------------------------------------
/// The mathematical form of a parsed expression and the index behind it.
pub open spec fn parsed_view(r: Result<(Elt, usize), ParseError>) -> Result<
    (EltView, int),
    ParseErrorView,
> {
    match r {
        Ok((elt, next)) => Ok((elt@, next as int)),
        Err(e) => Err(e@),
    }
}

/// The mathematical form of parsed items and the index behind them.
pub open spec fn items_view(r: Result<(Vec<Elt>, usize), ParseError>) -> Result<
    (Seq<EltView>, int),
    ParseErrorView,
> {
    match r {
        Ok((elts, next)) => Ok((elts_view(elts@), next as int)),
        Err(e) => Err(e@),
    }
}

/// The mathematical form of the parser's result.
pub open spec fn parse_result_view(r: Result<Vec<Elt>, ParseError>) -> Result<
    Seq<EltView>,
    ParseErrorView,
> {
    match r {
        Ok(nodes) => Ok(elts_view(nodes@)),
        Err(e) => Err(e@),
    }
}

fn parse_expr(tokens: &[Token], index: usize) -> (r: Result<(Elt, usize), ParseError>)
    ensures
        parsed_view(r) == parse_expr_spec(tokens_view(tokens@), index as int),
        r matches Ok((_, next)) ==> index < next <= tokens.len(),
    decreases tokens.len() - index, 0nat,
{
    if index >= tokens.len() {
        return Err(ParseError::UnexpectedEnd);
    }
    let token = &tokens[index];
    assert(tokens_view(tokens@)[index as int] == token@);
    match token._type {
        TokenType::ParenL => parse_list(tokens, index),
        TokenType::BracketL => parse_vector(tokens, index),
        TokenType::IntLiteral => {
            let chars = chars_of(token.text.as_str());
            match parse_integer(&chars) {
                Some(i) => Ok((Elt::Int(i), index + 1)),
                None => Err(
                    ParseError::BadIntegerLiteral {
                        text: token.text.clone(),
                        line: token.line_number,
                    },
                ),
            }
        },
        TokenType::Quote => {
            match parse_expr(tokens, index + 1) {
                Ok((quoted, next)) => {
                    let ghost q = quoted@;
                    let mut items: Vec<Elt> = Vec::new();
                    items.push(Elt::Symbol("quote".to_owned()));
                    items.push(quoted);
                    let r = Elt::List(items);
                    proof {
                        lemma_items_view(r);
                        assert(elts_view(items@) =~= seq![EltView::Symbol("quote"@), q]);
                    }
                    Ok((r, next))
                },
                Err(e) => Err(e),
            }
        },
        TokenType::StringLiteral => Ok((Elt::String_(token.text.clone()), index + 1)),
        TokenType::DoubleLiteral => {
            let chars = chars_of(token.text.as_str());
            if is_double_literal(&chars) {
                Ok((Elt::Double(Double::Literal(token.text.clone())), index + 1))
            } else {
                Err(
                    ParseError::BadDoubleLiteral {
                        text: token.text.clone(),
                        line: token.line_number,
                    },
                )
            }
        },
        TokenType::Ident => Ok((Elt::Symbol(token.text.clone()), index + 1)),
        TokenType::BracketR => Err(
            ParseError::UnexpectedClosing {
                delimiter: TokenType::BracketR,
                line: token.line_number,
            },
        ),
        TokenType::ParenR => Err(
            ParseError::UnexpectedClosing { delimiter: TokenType::ParenR, line: token.line_number },
        ),
    }
}

/// The expressions from `index` up to the token `closing`.
fn parse_items(tokens: &[Token], index: usize, closing: TokenType, opened_on: usize) -> (r: Result<
    (Vec<Elt>, usize),
    ParseError,
>)
    requires
        index <= tokens.len(),
        closing == TokenType::ParenR || closing == TokenType::BracketR,
    ensures
        items_view(r) == parse_items_spec(
            tokens_view(tokens@),
            index as int,
            closing,
            opened_on,
            Seq::empty(),
        ),
        r matches Ok((_, next)) ==> index < next <= tokens.len(),
    decreases tokens.len() - index, 1nat,
{
    let ghost all = tokens_view(tokens@);
    let mut elts: Vec<Elt> = Vec::new();
    let mut at: usize = index;
    assert(elts_view(elts@) =~= Seq::<EltView>::empty());
    loop
        invariant
            index <= at <= tokens.len(),
            all == tokens_view(tokens@),
            closing == TokenType::ParenR || closing == TokenType::BracketR,
            parse_items_spec(all, at as int, closing, opened_on, elts_view(elts@))
                == parse_items_spec(all, index as int, closing, opened_on, Seq::empty()),
        decreases tokens.len() - at,
    {
        if at >= tokens.len() {
            return Err(
                match closing {
                    TokenType::ParenR => ParseError::UnterminatedList { line: opened_on },
                    _ => ParseError::UnterminatedVector { line: opened_on },
                },
            );
        }
        assert(all[at as int] == tokens@[at as int]@);
        if tokens[at]._type == closing {
            return Ok((elts, at + 1));
        }
        match parse_expr(tokens, at) {
            Ok((elt, next)) => {
                let ghost before = elts_view(elts@);
                let ghost item = elt@;
                elts.push(elt);
                assert(elts_view(elts@) =~= before.push(item));
                at = next;
            },
            Err(e) => {
                return Err(e);
            },
        }
    }
}

fn parse_vector(tokens: &[Token], index: usize) -> (r: Result<(Elt, usize), ParseError>)
    requires
        index < tokens.len(),
        tokens@[index as int]._type == TokenType::BracketL,
    ensures
        parsed_view(r) == parse_expr_spec(tokens_view(tokens@), index as int),
        r matches Ok((_, next)) ==> index < next <= tokens.len(),
    decreases tokens.len() - index - 1, 2nat,
{
    let start_line_number = tokens[index].line_number;
    assert(tokens_view(tokens@)[index as int] == tokens@[index as int]@);
    // skip the opening bracket
    match parse_items(tokens, index + 1, TokenType::BracketR, start_line_number) {
        Ok((elts, next)) => {
            let r = Elt::Vector(elts);
            proof {
                lemma_items_view(r);
            }
            Ok((r, next))
        },
        Err(e) => Err(e),
    }
}

fn parse_list(tokens: &[Token], index: usize) -> (r: Result<(Elt, usize), ParseError>)
    requires
        index < tokens.len(),
        tokens@[index as int]._type == TokenType::ParenL,
    ensures
        parsed_view(r) == parse_expr_spec(tokens_view(tokens@), index as int),
        r matches Ok((_, next)) ==> index < next <= tokens.len(),
    decreases tokens.len() - index - 1, 2nat,
{
    let start_line_number = tokens[index].line_number;
    assert(tokens_view(tokens@)[index as int] == tokens@[index as int]@);
    // skip the opening parenthesis
    match parse_items(tokens, index + 1, TokenType::ParenR, start_line_number) {
        Ok((elts, next)) => {
            let r = Elt::List(elts);
            proof {
                lemma_items_view(r);
            }
            Ok((r, next))
        },
        Err(e) => Err(e),
    }
}

/// The top-level expressions that `tokens` hold, in order, or the first error.
///
/// Expressions are parsed one after the other until the tokens are used up.
/// The errors are: a closer where an expression is expected; a list or vector
/// that is never closed, with the line of its opener; the end of the tokens
/// behind a quote mark; and a numeric literal that is no number.
pub fn parse(tokens: &[Token]) -> (r: Result<Vec<Elt>, ParseError>)
    ensures
        parse_result_view(r) == parse_spec(tokens_view(tokens@)),
{
    let ghost all = tokens_view(tokens@);
    let mut nodes: Vec<Elt> = Vec::new();
    let mut index: usize = 0;
    assert(elts_view(nodes@) =~= Seq::<EltView>::empty());
    while index < tokens.len()
        invariant
            index <= tokens.len(),
            all == tokens_view(tokens@),
            parse_from_spec(all, index as int, elts_view(nodes@)) == parse_spec(all),
        decreases tokens.len() - index,
    {
        match parse_expr(tokens, index) {
            Ok((node, new_index)) => {
                let ghost before = elts_view(nodes@);
                let ghost item = node@;
                nodes.push(node);
                assert(elts_view(nodes@) =~= before.push(item));
                index = new_index;
            },
            Err(e) => {
                return Err(e);
            },
        }
    }
    Ok(nodes)
}

} // verus!
