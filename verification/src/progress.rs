//! The cursor only moves forward: every rule of the grammar that succeeds
//! ends behind the position where it began, and within the token sequence.

use vstd::prelude::*;
use crate::ast::ExpressionView;
use crate::classify::{classify, ReferenceKind};
use crate::grammar::{
    at_or_after, lemma_skip_trivia, member_call, parse_arg_list, parse_block, parse_body,
    parse_condition, parse_expression, parse_optional_args, parse_postfix, parse_primary,
    parse_statement, parse_statement_at, reference_width, segments_at, skip_trivia, Parsed,
};
use crate::token::{
    is_delimiter, is_keyword, is_operator, token_at, Delimiter, Keyword, Operator, TokenView,
};

verus! {

/// Whether a successful outcome of a rule that began at `pos` ends at least
/// `least` tokens further on and within the `len` tokens of the sequence.
pub open spec fn moves_forward<T>(parsed: Parsed<T>, pos: nat, least: nat, len: nat) -> bool {
    parsed matches Ok((_, next)) ==> pos + least <= next <= len
}

/// A position that a rule hands on is never before the bound that the grammar
/// holds it to.
pub proof fn lemma_held_position<T>(parsed: Parsed<T>, pos: nat, least: nat, len: nat, bound: nat)
    requires
        moves_forward(parsed, pos, least, len),
        bound <= pos + least,
    ensures
        parsed matches Ok((_, next)) ==> at_or_after(bound, next) == next,
{
}

/// An argument list, where one stands, ends within the sequence and not before its start.
pub proof fn lemma_optional_args_forward(ts: Seq<TokenView>, pos: nat)
    requires
        pos <= ts.len(),
    ensures
        moves_forward(parse_optional_args(ts, pos), pos, 0, ts.len()),
    decreases ts.len() - pos, 0nat,
{
    if is_delimiter(token_at(ts, pos), Delimiter::LeftParen) {
        if !is_delimiter(token_at(ts, pos + 1), Delimiter::RightParen) {
            lemma_arg_list_forward(ts, pos + 1);
        }
    }
}

/// The expressions of an argument list and its `)` take at least two tokens.
pub proof fn lemma_arg_list_forward(ts: Seq<TokenView>, pos: nat)
    requires
        pos <= ts.len(),
    ensures
        moves_forward(parse_arg_list(ts, pos), pos, 2, ts.len()),
    decreases ts.len() - pos, 4nat,
{
    lemma_expression_forward(ts, pos);
    match parse_expression(ts, pos) {
        Err(_) => {},
        Ok((_, p)) => {
            if is_delimiter(token_at(ts, p), Delimiter::Comma) {
                lemma_arg_list_forward(ts, p + 1);
            }
        },
    }
}

/// A primary expression takes at least one token.
pub proof fn lemma_primary_forward(ts: Seq<TokenView>, pos: nat)
    requires
        pos <= ts.len(),
    ensures
        moves_forward(parse_primary(ts, pos), pos, 1, ts.len()),
    decreases ts.len() - pos, 0nat,
{
    match token_at(ts, pos) {
        TokenView::Identifier(_) => {
            if is_delimiter(token_at(ts, pos + 1), Delimiter::LeftBracket) {
                lemma_expression_forward(ts, pos + 2);
            } else {
                match classify(segments_at(ts, pos)) {
                    ReferenceKind::NestedModuleCall => {
                        lemma_optional_args_forward(ts, pos + 5);
                    },
                    ReferenceKind::ModuleCall => {
                        lemma_optional_args_forward(ts, pos + 3);
                    },
                    _ => {},
                }
            }
        },
        _ => {},
    }
}

/// The member accesses behind a receiver end within the sequence and not before their start.
pub proof fn lemma_postfix_forward(ts: Seq<TokenView>, pos: nat, receiver: ExpressionView)
    requires
        pos <= ts.len(),
    ensures
        moves_forward(parse_postfix(ts, pos, receiver), pos, 0, ts.len()),
    decreases ts.len() - pos, 0nat,
{
    if is_delimiter(token_at(ts, pos), Delimiter::Dot) {
        match token_at(ts, pos + 1) {
            TokenView::Identifier(method) => {
                lemma_optional_args_forward(ts, pos + 2);
                match parse_optional_args(ts, pos + 2) {
                    Err(_) => {},
                    Ok((args, p)) => {
                        lemma_postfix_forward(ts, p, member_call(receiver, method, args));
                    },
                }
            },
            _ => {},
        }
    }
}

/// An expression takes at least one token.
pub proof fn lemma_expression_forward(ts: Seq<TokenView>, pos: nat)
    requires
        pos <= ts.len(),
    ensures
        moves_forward(parse_expression(ts, pos), pos, 1, ts.len()),
    decreases ts.len() - pos, 3nat,
{
    lemma_primary_forward(ts, pos);
    match parse_primary(ts, pos) {
        Err(_) => {},
        Ok((primary, p)) => {
            lemma_postfix_forward(ts, p, primary);
            match parse_postfix(ts, p, primary) {
                Err(_) => {},
                Ok((_, q)) => {
                    if is_operator(token_at(ts, q), Operator::Plus) {
                        lemma_expression_forward(ts, q + 1);
                    }
                },
            }
        },
    }
}

/// A condition takes at least three tokens.
pub proof fn lemma_condition_forward(ts: Seq<TokenView>, pos: nat)
    requires
        pos <= ts.len(),
    ensures
        moves_forward(parse_condition(ts, pos), pos, 3, ts.len()),
{
    if is_delimiter(token_at(ts, pos), Delimiter::LeftParen) {
        lemma_expression_forward(ts, pos + 1);
    }
}

/// A statement takes at least one token.
pub proof fn lemma_statement_at_forward(ts: Seq<TokenView>, pos: nat)
    requires
        pos <= ts.len(),
    ensures
        moves_forward(parse_statement_at(ts, pos), pos, 1, ts.len()),
    decreases ts.len() - pos, 0nat,
{
    match token_at(ts, pos) {
        TokenView::Keyword(Keyword::Var) => {
            if token_at(ts, pos + 1) is Identifier && is_operator(
                token_at(ts, pos + 2),
                Operator::Assign,
            ) {
                lemma_expression_forward(ts, pos + 3);
            }
        },
        TokenView::Identifier(_) => {
            let kind = classify(segments_at(ts, pos));
            if kind != ReferenceKind::Variable {
                lemma_optional_args_forward(ts, pos + reference_width(kind));
            } else if is_operator(token_at(ts, pos + 1), Operator::Assign) {
                lemma_expression_forward(ts, pos + 2);
            }
        },
        TokenView::Keyword(Keyword::If) => {
            lemma_condition_forward(ts, pos + 1);
            match parse_condition(ts, pos + 1) {
                Err(_) => {},
                Ok((_, p)) => {
                    lemma_body_forward(ts, p);
                    match parse_body(ts, p) {
                        Err(_) => {},
                        Ok((_, q)) => {
                            if is_keyword(token_at(ts, q), Keyword::Else) {
                                lemma_body_forward(ts, q + 1);
                            }
                        },
                    }
                },
            }
        },
        TokenView::Keyword(Keyword::While) => {
            lemma_condition_forward(ts, pos + 1);
            match parse_condition(ts, pos + 1) {
                Err(_) => {},
                Ok((_, p)) => {
                    lemma_body_forward(ts, p);
                },
            }
        },
        _ => {},
    }
}

/// A statement behind tags and semicolons takes at least one token.
pub proof fn lemma_statement_forward(ts: Seq<TokenView>, pos: nat)
    requires
        pos <= ts.len(),
    ensures
        moves_forward(parse_statement(ts, pos), pos, 1, ts.len()),
    decreases ts.len() - pos, 1nat,
{
    lemma_skip_trivia(ts, pos);
    lemma_statement_at_forward(ts, skip_trivia(ts, pos));
}

/// A body takes at least one token.
pub proof fn lemma_body_forward(ts: Seq<TokenView>, pos: nat)
    requires
        pos <= ts.len(),
    ensures
        moves_forward(parse_body(ts, pos), pos, 1, ts.len()),
    decreases ts.len() - pos, 3nat,
{
    if is_delimiter(token_at(ts, pos), Delimiter::LeftBrace) {
        lemma_block_forward(ts, pos + 1);
    } else {
        lemma_statement_forward(ts, pos);
    }
}

/// The statements of a block and its `}` take at least one token.
pub proof fn lemma_block_forward(ts: Seq<TokenView>, pos: nat)
    requires
        pos <= ts.len(),
    ensures
        moves_forward(parse_block(ts, pos), pos, 1, ts.len()),
    decreases ts.len() - pos, 2nat,
{
    lemma_skip_trivia(ts, pos);
    let start = skip_trivia(ts, pos);
    if !is_delimiter(token_at(ts, start), Delimiter::RightBrace) && !(token_at(ts, start)
        is EndOfInput) {
        lemma_statement_at_forward(ts, start);
        match parse_statement_at(ts, start) {
            Err(_) => {},
            Ok((_, p)) => {
                lemma_block_forward(ts, p);
            },
        }
    }
}

} // verus!
