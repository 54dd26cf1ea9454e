//! The grammar, as functions from a token sequence and a position to the
//! tree that starts there and the position behind it. These functions say
//! what the parser returns; the parser itself is in `parser`.

use vstd::prelude::*;
use crate::ascii::DOT;
use crate::ast::{BinaryOperator, ExpressionView, StatementView};
use crate::classify::{classify, ReferenceKind};
use crate::error::{ParseError, ParseErrorKind};
use crate::token::{
    is_delimiter, is_keyword, is_operator, token_at, Delimiter, Keyword, Operator, TokenView,
};

verus! {

/// What parsing from a position yields: a value and the position behind it, or a failure.
pub type Parsed<T> = Result<(T, nat), ParseError>;

pub open spec fn fail<T>(kind: ParseErrorKind, pos: nat) -> Parsed<T> {
    Err(ParseError { kind, position: pos as usize })
}

/// How many tokens lie at or behind `pos`.
pub open spec fn remaining(ts: Seq<TokenView>, pos: nat) -> nat {
    if pos <= ts.len() {
        (ts.len() - pos) as nat
    } else {
        0
    }
}

/// The position `p`, held to the bound. The cursor only moves forward, so a
/// position that a rule hands on is never before the bound it is held to
/// here (the lemmas of `progress` show it), and this is then `p` itself. It
/// is what lets each rule be defined by recursion on the tokens that are left.
pub open spec fn at_or_after(bound: nat, p: nat) -> nat {
    if p >= bound {
        p
    } else {
        bound
    }
}

pub open spec fn identifier_at(ts: Seq<TokenView>, pos: nat) -> Option<Seq<u8>> {
    match token_at(ts, pos) {
        TokenView::Identifier(name) => Some(name),
        _ => None,
    }
}

/// The name behind the dot at `pos`, where a dot and a name stand there.
pub open spec fn member_at(ts: Seq<TokenView>, pos: nat) -> Option<Seq<u8>> {
    if is_delimiter(token_at(ts, pos), Delimiter::Dot) {
        identifier_at(ts, pos + 1)
    } else {
        None
    }
}

/// The dotted reference that starts at `pos`, up to three names long.
pub open spec fn segments_at(ts: Seq<TokenView>, pos: nat) -> Seq<Seq<u8>> {
    match identifier_at(ts, pos) {
        None => seq![],
        Some(first) => match member_at(ts, pos + 1) {
            None => seq![first],
            Some(second) => match member_at(ts, pos + 3) {
                None => seq![first, second],
                Some(third) => seq![first, second, third],
            },
        },
    }
}

/// The path of a namespace within a module.
pub open spec fn nested_path(module: Seq<u8>, sub: Seq<u8>) -> Seq<u8> {
    module + seq![DOT] + sub
}

/// How many tokens the names and dots of a reference of this kind take.
pub open spec fn reference_width(kind: ReferenceKind) -> nat {
    match kind {
        ReferenceKind::NestedModuleCall => 5,
        ReferenceKind::Variable => 1,
        _ => 3,
    }
}

/// The node for a call into a module, given the reference that names it.
pub open spec fn module_call(
    kind: ReferenceKind,
    segments: Seq<Seq<u8>>,
    args: Seq<ExpressionView>,
) -> ExpressionView {
    if kind == ReferenceKind::NestedModuleCall {
        ExpressionView::FunctionCall {
            module: nested_path(segments[0], segments[1]),
            function: segments[2],
            args,
        }
    } else {
        ExpressionView::FunctionCall { module: segments[0], function: segments[1], args }
    }
}

/// The node for `receiver.method(args)`: an array operation where the
/// receiver is a variable and the classifier says so, otherwise a method call.
pub open spec fn member_call(
    receiver: ExpressionView,
    method: Seq<u8>,
    args: Seq<ExpressionView>,
) -> ExpressionView {
    if receiver matches ExpressionView::Variable(name) && classify(seq![name, method])
        == ReferenceKind::ArraySugar {
        ExpressionView::ArrayMethodCall { array: Box::new(receiver), method, args }
    } else {
        ExpressionView::MethodCall { object: Box::new(receiver), method, args }
    }
}

/// The argument list at `pos`, if one stands there: `(`, expressions separated by
/// commas, `)`. Without a `(` there are no arguments and nothing is consumed.
pub open spec fn parse_optional_args(ts: Seq<TokenView>, pos: nat) -> Parsed<Seq<ExpressionView>>
    decreases remaining(ts, pos), 0nat,
{
    if is_delimiter(token_at(ts, pos), Delimiter::LeftParen) {
        if is_delimiter(token_at(ts, pos + 1), Delimiter::RightParen) {
            Ok((seq![], pos + 2))
        } else {
            parse_arg_list(ts, pos + 1)
        }
    } else {
        Ok((seq![], pos))
    }
}

/// One or more expressions separated by commas, and the `)` that closes them.
pub open spec fn parse_arg_list(ts: Seq<TokenView>, pos: nat) -> Parsed<Seq<ExpressionView>>
    decreases remaining(ts, pos), 3nat,
{
    match parse_expression(ts, pos) {
        Err(e) => Err(e),
        Ok((first, p)) => {
            let p = at_or_after(pos + 1, p);
            if is_delimiter(token_at(ts, p), Delimiter::Comma) {
                match parse_arg_list(ts, p + 1) {
                    Err(e) => Err(e),
                    Ok((rest, q)) => Ok((seq![first] + rest, q)),
                }
            } else if is_delimiter(token_at(ts, p), Delimiter::RightParen) {
                Ok((seq![first], p + 1))
            } else {
                fail(ParseErrorKind::ExpectedRightParen, p)
            }
        },
    }
}

/// The primary expression that starts with the name at `pos`: `name[index]`,
/// a call into a known module, or the variable `name`.
pub open spec fn parse_named(ts: Seq<TokenView>, pos: nat, name: Seq<u8>) -> Parsed<ExpressionView>
    decreases remaining(ts, pos), 0nat,
{
    if is_delimiter(token_at(ts, pos + 1), Delimiter::LeftBracket) {
        match parse_expression(ts, pos + 2) {
            Err(e) => Err(e),
            Ok((index, p)) => {
                if is_delimiter(token_at(ts, p), Delimiter::RightBracket) {
                    Ok(
                        (
                            ExpressionView::ArrayAccess {
                                array: Box::new(ExpressionView::Variable(name)),
                                index: Box::new(index),
                            },
                            p + 1,
                        ),
                    )
                } else {
                    fail(ParseErrorKind::ExpectedRightBracket, p)
                }
            },
        }
    } else {
        let segments = segments_at(ts, pos);
        let kind = classify(segments);
        if kind == ReferenceKind::NestedModuleCall || kind == ReferenceKind::ModuleCall {
            match parse_optional_args(ts, pos + reference_width(kind)) {
                Err(e) => Err(e),
                Ok((args, p)) => Ok((module_call(kind, segments, args), p)),
            }
        } else {
            Ok((ExpressionView::Variable(name), pos + 1))
        }
    }
}

/// A primary expression: a literal, `[]`, or what the name at `pos` starts.
pub open spec fn parse_primary(ts: Seq<TokenView>, pos: nat) -> Parsed<ExpressionView>
    decreases remaining(ts, pos), 1nat,
{
    match token_at(ts, pos) {
        TokenView::StringLiteral(text) => Ok((ExpressionView::StringLiteral(text), pos + 1)),
        TokenView::Integer(value) => Ok((ExpressionView::Integer(value), pos + 1)),
        TokenView::Float(value) => Ok((ExpressionView::Float(value), pos + 1)),
        TokenView::Boolean(value) => Ok((ExpressionView::Boolean(value), pos + 1)),
        TokenView::Delimiter(Delimiter::LeftBracket) => {
            if is_delimiter(token_at(ts, pos + 1), Delimiter::RightBracket) {
                Ok((ExpressionView::ArrayLiteral(seq![]), pos + 2))
            } else {
                fail(ParseErrorKind::ExpectedRightBracket, pos + 1)
            }
        },
        TokenView::Identifier(name) => parse_named(ts, pos, name),
        _ => fail(ParseErrorKind::ExpectedExpression, pos),
    }
}

/// The member accesses behind a receiver: `.name`, each with or without arguments.
pub open spec fn parse_postfix(
    ts: Seq<TokenView>,
    pos: nat,
    receiver: ExpressionView,
) -> Parsed<ExpressionView>
    decreases remaining(ts, pos), 0nat,
{
    if is_delimiter(token_at(ts, pos), Delimiter::Dot) {
        match identifier_at(ts, pos + 1) {
            None => fail(ParseErrorKind::ExpectedIdentifier, pos + 1),
            Some(method) => match parse_optional_args(ts, pos + 2) {
                Err(e) => Err(e),
                Ok((args, p)) => parse_postfix(
                    ts,
                    at_or_after(pos + 2, p),
                    member_call(receiver, method, args),
                ),
            },
        }
    } else {
        Ok((receiver, pos))
    }
}

/// An expression: a primary, its member accesses, and then, behind a `+`,
/// another expression as the right operand.
pub open spec fn parse_expression(ts: Seq<TokenView>, pos: nat) -> Parsed<ExpressionView>
    decreases remaining(ts, pos), 2nat,
{
    if token_at(ts, pos) is EndOfInput {
        fail(ParseErrorKind::ExpectedExpression, pos)
    } else {
        match parse_primary(ts, pos) {
            Err(e) => Err(e),
            Ok((primary, p)) => match parse_postfix(ts, at_or_after(pos + 1, p), primary) {
                Err(e) => Err(e),
                Ok((left, q)) => {
                    let q = at_or_after(pos + 1, q);
                    if is_operator(token_at(ts, q), Operator::Plus) {
                        match parse_expression(ts, q + 1) {
                            Err(e) => Err(e),
                            Ok((right, r)) => Ok(
                                (
                                    ExpressionView::BinaryOperation {
                                        left: Box::new(left),
                                        operator: BinaryOperator::Add,
                                        right: Box::new(right),
                                    },
                                    r,
                                ),
                            ),
                        }
                    } else {
                        Ok((left, q))
                    }
                },
            },
        }
    }
}

/// Whether a token only separates or annotates statements: an `@` tag or a `;`.
pub open spec fn is_trivia(t: TokenView) -> bool {
    t is Tag || is_delimiter(t, Delimiter::Semicolon)
}

/// The first position at or behind `pos` that holds no tag and no `;`.
pub open spec fn skip_trivia(ts: Seq<TokenView>, pos: nat) -> nat
    decreases remaining(ts, pos),
{
    if is_trivia(token_at(ts, pos)) {
        skip_trivia(ts, pos + 1)
    } else {
        pos
    }
}

pub proof fn lemma_skip_trivia(ts: Seq<TokenView>, pos: nat)
    ensures
        pos <= skip_trivia(ts, pos),
        pos <= ts.len() ==> skip_trivia(ts, pos) <= ts.len(),
        !is_trivia(token_at(ts, skip_trivia(ts, pos))),
    decreases remaining(ts, pos),
{
    if is_trivia(token_at(ts, pos)) {
        lemma_skip_trivia(ts, pos + 1);
    }
}

/// The statement for a dotted reference with its arguments, by the kind of the reference.
pub open spec fn reference_statement(
    kind: ReferenceKind,
    segments: Seq<Seq<u8>>,
    args: Seq<ExpressionView>,
) -> StatementView {
    match kind {
        ReferenceKind::NestedModuleCall => StatementView::FunctionCall {
            module: nested_path(segments[0], segments[1]),
            function: segments[2],
            args,
        },
        ReferenceKind::ModuleCall => StatementView::FunctionCall {
            module: segments[0],
            function: segments[1],
            args,
        },
        ReferenceKind::ArraySugar => StatementView::ArrayMethodCall {
            array_var: segments[0],
            method: segments[1],
            args,
        },
        _ => StatementView::ExpressionStmt {
            expression: ExpressionView::MethodCall {
                object: Box::new(ExpressionView::Variable(segments[0])),
                method: segments[1],
                args,
            },
        },
    }
}

/// What follows the keyword `import`: the name of a module.
pub open spec fn parse_import(ts: Seq<TokenView>, pos: nat) -> Parsed<StatementView> {
    match identifier_at(ts, pos) {
        None => fail(ParseErrorKind::ExpectedIdentifier, pos),
        Some(module) => Ok((StatementView::Import(module), pos + 1)),
    }
}

/// What follows the keyword of a binding: a name, `=`, and an expression.
pub open spec fn parse_binding(ts: Seq<TokenView>, pos: nat) -> Parsed<StatementView> {
    match identifier_at(ts, pos) {
        None => fail(ParseErrorKind::ExpectedIdentifier, pos),
        Some(var_name) => {
            if is_operator(token_at(ts, pos + 1), Operator::Assign) {
                match parse_expression(ts, pos + 2) {
                    Err(e) => Err(e),
                    Ok((expression, p)) => Ok(
                        (StatementView::VariableAssignment { var_name, expression }, p),
                    ),
                }
            } else {
                fail(ParseErrorKind::ExpectedAssign, pos + 1)
            }
        },
    }
}

/// The statement that starts with the name at `pos`: a dotted reference with
/// its arguments, or an assignment to the variable `name`.
pub open spec fn parse_named_statement(ts: Seq<TokenView>, pos: nat, name: Seq<u8>) -> Parsed<
    StatementView,
> {
    let segments = segments_at(ts, pos);
    let kind = classify(segments);
    if kind != ReferenceKind::Variable {
        match parse_optional_args(ts, pos + reference_width(kind)) {
            Err(e) => Err(e),
            Ok((args, p)) => Ok((reference_statement(kind, segments, args), p)),
        }
    } else if is_operator(token_at(ts, pos + 1), Operator::Assign) {
        match parse_expression(ts, pos + 2) {
            Err(e) => Err(e),
            Ok((value, p)) => Ok((StatementView::Assignment { variable: name, value }, p)),
        }
    } else {
        fail(ParseErrorKind::UnexpectedToken, pos)
    }
}

/// The condition of an `if` or a `while`: an expression in parentheses.
pub open spec fn parse_condition(ts: Seq<TokenView>, pos: nat) -> Parsed<ExpressionView> {
    if is_delimiter(token_at(ts, pos), Delimiter::LeftParen) {
        match parse_expression(ts, pos + 1) {
            Err(e) => Err(e),
            Ok((condition, p)) => {
                if is_delimiter(token_at(ts, p), Delimiter::RightParen) {
                    Ok((condition, p + 1))
                } else {
                    fail(ParseErrorKind::ExpectedRightParen, p)
                }
            },
        }
    } else {
        fail(ParseErrorKind::ExpectedLeftParen, pos)
    }
}

/// What follows the keyword `if`: a condition, a body and, behind `else`, another body.
pub open spec fn parse_if(ts: Seq<TokenView>, pos: nat) -> Parsed<StatementView>
    decreases remaining(ts, pos), 5nat,
{
    match parse_condition(ts, pos) {
        Err(e) => Err(e),
        Ok((condition, p)) => match parse_body(ts, at_or_after(pos + 1, p)) {
            Err(e) => Err(e),
            Ok((then_branch, q)) => {
                let q = at_or_after(pos + 1, q);
                if is_keyword(token_at(ts, q), Keyword::Else) {
                    match parse_body(ts, q + 1) {
                        Err(e) => Err(e),
                        Ok((else_branch, r)) => Ok(
                            (
                                StatementView::If {
                                    condition,
                                    then_branch,
                                    else_branch: Some(else_branch),
                                },
                                r,
                            ),
                        ),
                    }
                } else {
                    Ok((StatementView::If { condition, then_branch, else_branch: None }, q))
                }
            },
        },
    }
}

/// What follows the keyword `while`: a condition and a body.
pub open spec fn parse_while(ts: Seq<TokenView>, pos: nat) -> Parsed<StatementView>
    decreases remaining(ts, pos), 5nat,
{
    match parse_condition(ts, pos) {
        Err(e) => Err(e),
        Ok((condition, p)) => match parse_body(ts, at_or_after(pos + 1, p)) {
            Err(e) => Err(e),
            Ok((body, q)) => Ok((StatementView::While { condition, body }, q)),
        },
    }
}

/// A statement that starts at `pos`. The rules apply in this order: `import`,
/// a binding, what a name starts (a dotted reference, else an assignment),
/// `if`, `while`. No other token starts a statement.
pub open spec fn parse_statement_at(ts: Seq<TokenView>, pos: nat) -> Parsed<StatementView>
    decreases remaining(ts, pos), 0nat,
{
    match token_at(ts, pos) {
        TokenView::Keyword(Keyword::Import) => parse_import(ts, pos + 1),
        TokenView::Keyword(Keyword::Var) => parse_binding(ts, pos + 1),
        TokenView::Identifier(name) => parse_named_statement(ts, pos, name),
        TokenView::Keyword(Keyword::If) => parse_if(ts, pos + 1),
        TokenView::Keyword(Keyword::While) => parse_while(ts, pos + 1),
        _ => fail(ParseErrorKind::UnexpectedToken, pos),
    }
}

/// A statement, behind any tags and semicolons that precede it.
pub open spec fn parse_statement(ts: Seq<TokenView>, pos: nat) -> Parsed<StatementView>
    decreases remaining(ts, pos), 1nat,
{
    proof {
        lemma_skip_trivia(ts, pos);
    }
    parse_statement_at(ts, skip_trivia(ts, pos))
}

/// The body of an `if`, an `else` or a `while`: the statements between braces,
/// or else the one statement that follows.
pub open spec fn parse_body(ts: Seq<TokenView>, pos: nat) -> Parsed<Seq<StatementView>>
    decreases remaining(ts, pos), 3nat,
{
    if is_delimiter(token_at(ts, pos), Delimiter::LeftBrace) {
        parse_block(ts, pos + 1)
    } else {
        match parse_statement(ts, pos) {
            Err(e) => Err(e),
            Ok((only, p)) => Ok((seq![only], p)),
        }
    }
}

/// The statements up to the `}` that closes a block, and the position behind it.
pub open spec fn parse_block(ts: Seq<TokenView>, pos: nat) -> Parsed<Seq<StatementView>>
    decreases remaining(ts, pos), 2nat,
{
    let start = skip_trivia(ts, pos);
    if is_delimiter(token_at(ts, start), Delimiter::RightBrace) {
        Ok((seq![], start + 1))
    } else if token_at(ts, start) is EndOfInput {
        fail(ParseErrorKind::ExpectedRightBrace, start)
    } else {
        proof {
            lemma_skip_trivia(ts, pos);
        }
        match parse_statement_at(ts, start) {
            Err(e) => Err(e),
            Ok((first, p)) => match parse_block(ts, at_or_after(start + 1, p)) {
                Err(e) => Err(e),
                Ok((rest, q)) => Ok((seq![first] + rest, q)),
            },
        }
    }
}

/// The statements up to the end-of-input marker.
pub open spec fn parse_program(ts: Seq<TokenView>, pos: nat) -> Result<
    Seq<StatementView>,
    ParseError,
>
    decreases remaining(ts, pos),
{
    let start = skip_trivia(ts, pos);
    if token_at(ts, start) is EndOfInput {
        Ok(seq![])
    } else {
        proof {
            lemma_skip_trivia(ts, pos);
        }
        match parse_statement_at(ts, start) {
            Err(e) => Err(e),
            Ok((first, p)) => match parse_program(ts, at_or_after(start + 1, p)) {
                Err(e) => Err(e),
                Ok(rest) => Ok(seq![first] + rest),
            },
        }
    }
}

/// The syntax tree of a token sequence: one statement after another until the
/// end-of-input marker, or the first failure.
pub open spec fn parse_tokens(ts: Seq<TokenView>) -> Result<Seq<StatementView>, ParseError> {
    parse_program(ts, 0)
}

} // verus!
