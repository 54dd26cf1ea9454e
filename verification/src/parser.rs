//! The parser: from a token sequence to a syntax tree, or to the first failure.

use vstd::prelude::*;
use crate::ascii::DOT;
use crate::ast::{
    lemma_expression_children, lemma_statement_children, BinaryOperator, Expression,
    ExpressionView, Statement, StatementView,
};
use crate::classify::{classify, classify_reference, ReferenceKind};
use crate::error::{ParseError, ParseErrorKind};
use crate::grammar;
use crate::grammar::{
    identifier_at, member_at, nested_path, reference_width, segments_at, Parsed,
};
use crate::token::{
    is_delimiter, is_keyword, is_operator, token_at, Delimiter, Keyword, Operator, Token,
    TokenView,
};

verus! {

/// What a parsing step returns: a value and the position behind it, or a failure.
pub type Step<T> = Result<(T, usize), ParseError>;

/// Whether the outcome of a parsing step is the one the grammar gives.
pub open spec fn agrees<T: DeepView>(step: Step<T>, parsed: Parsed<T::V>) -> bool {
    match step {
        Ok((value, next)) => parsed == Ok::<(T::V, nat), ParseError>(
            (value.deep_view(), next as nat),
        ),
        Err(e) => parsed == Err::<(T::V, nat), ParseError>(e),
    }
}

/// Whether a successful step from `pos` consumed at least `least` tokens and stayed
/// within the sequence.
pub open spec fn advanced<T>(step: Step<T>, pos: usize, least: nat, len: nat) -> bool {
    step matches Ok((_, next)) ==> pos + least <= next <= len
}

proof fn lemma_token_view(tokens: &Vec<Token>, pos: usize)
    requires
        pos < tokens.len(),
    ensures
        token_at(tokens.deep_view(), pos as nat) == tokens@[pos as int]@,
{
}

fn delimiter_at(tokens: &Vec<Token>, pos: usize, d: Delimiter) -> (r: bool)
    ensures
        r == is_delimiter(token_at(tokens.deep_view(), pos as nat), d),
        r ==> pos < tokens.len(),
{
    if pos < tokens.len() {
        proof {
            lemma_token_view(tokens, pos);
        }
        tokens[pos].is_delimiter(d)
    } else {
        false
    }
}

fn operator_at(tokens: &Vec<Token>, pos: usize, o: Operator) -> (r: bool)
    ensures
        r == is_operator(token_at(tokens.deep_view(), pos as nat), o),
        r ==> pos < tokens.len(),
{
    if pos < tokens.len() {
        proof {
            lemma_token_view(tokens, pos);
        }
        tokens[pos].is_operator(o)
    } else {
        false
    }
}

fn keyword_at(tokens: &Vec<Token>, pos: usize, k: Keyword) -> (r: bool)
    ensures
        r == is_keyword(token_at(tokens.deep_view(), pos as nat), k),
        r ==> pos < tokens.len(),
{
    if pos < tokens.len() {
        proof {
            lemma_token_view(tokens, pos);
        }
        tokens[pos].is_keyword(k)
    } else {
        false
    }
}

fn end_at(tokens: &Vec<Token>, pos: usize) -> (r: bool)
    ensures
        r == (token_at(tokens.deep_view(), pos as nat) is EndOfInput),
        !r ==> pos < tokens.len(),
{
    if pos < tokens.len() {
        proof {
            lemma_token_view(tokens, pos);
        }
        match &tokens[pos] {
            Token::EndOfInput => true,
            _ => false,
        }
    } else {
        true
    }
}

fn name_at(tokens: &Vec<Token>, pos: usize) -> (r: Option<&Vec<u8>>)
    ensures
        match r {
            Some(name) => identifier_at(tokens.deep_view(), pos as nat) == Some(name@) && pos
                < tokens.len(),
            None => identifier_at(tokens.deep_view(), pos as nat) is None,
        },
{
    if pos < tokens.len() {
        proof {
            lemma_token_view(tokens, pos);
        }
        match &tokens[pos] {
            Token::Identifier(name) => Some(name),
            _ => None,
        }
    } else {
        None
    }
}

fn member_name_at(tokens: &Vec<Token>, pos: usize) -> (r: Option<&Vec<u8>>)
    ensures
        match r {
            Some(name) => member_at(tokens.deep_view(), pos as nat) == Some(name@) && pos + 1
                < tokens.len(),
            None => member_at(tokens.deep_view(), pos as nat) is None,
        },
{
    if delimiter_at(tokens, pos, Delimiter::Dot) {
        name_at(tokens, pos + 1)
    } else {
        None
    }
}

fn clone_bytes(v: &Vec<u8>) -> (r: Vec<u8>)
    ensures
        r@ == v@,
{
    let mut r: Vec<u8> = Vec::new();
    r.extend_from_slice(v.as_slice());
    r
}

fn join_path(module: &Vec<u8>, sub: &Vec<u8>) -> (r: Vec<u8>)
    ensures
        r@ == nested_path(module@, sub@),
{
    let mut r: Vec<u8> = Vec::new();
    r.extend_from_slice(module.as_slice());
    r.push(DOT);
    r.extend_from_slice(sub.as_slice());
    r
}

/// A dotted reference as it stands in the token sequence.
struct Reference<'a> {
    kind: ReferenceKind,
    first: &'a Vec<u8>,
    second: Option<&'a Vec<u8>>,
    third: Option<&'a Vec<u8>>,
}

impl<'a> Reference<'a> {
    spec fn segments(self) -> Seq<Seq<u8>> {
        match self.second {
            None => seq![self.first@],
            Some(second) => match self.third {
                None => seq![self.first@, second@],
                Some(third) => seq![self.first@, second@, third@],
            },
        }
    }
}

/// Reads the dotted reference whose first name, `first`, stands at `pos`.
fn read_reference<'a>(tokens: &'a Vec<Token>, pos: usize, first: &'a Vec<u8>) -> (r: Reference<'a>)
    requires
        pos < tokens.len(),
        identifier_at(tokens.deep_view(), pos as nat) == Some(first@),
    ensures
        r.first == first,
        r.segments() == segments_at(tokens.deep_view(), pos as nat),
        r.kind == classify(r.segments()),
        pos + reference_width(r.kind) <= tokens.len(),
        r.kind != ReferenceKind::Variable ==> r.second is Some,
        r.kind == ReferenceKind::NestedModuleCall ==> r.third is Some,
{
    let second = member_name_at(tokens, pos + 1);
    let third = match second {
        Some(_) => member_name_at(tokens, pos + 3),
        None => None,
    };
    let mut names: Vec<&[u8]> = Vec::new();
    names.push(first.as_slice());
    match second {
        Some(s) => {
            names.push(s.as_slice());
            match third {
                Some(t) => {
                    names.push(t.as_slice());
                },
                None => {},
            }
        },
        None => {},
    }
    let r = Reference { kind: ReferenceKind::Variable, first, second, third };
    let segments = names.as_slice();
    proof {
        let deep = segments.deep_view();
        assert(deep[0] =~= first@);
        if second is Some {
            assert(deep[1] =~= second->0@);
            if third is Some {
                assert(deep[2] =~= third->0@);
            }
        }
        assert(deep =~= r.segments());
    }
    let kind = classify_reference(segments);
    Reference { kind, first, second, third }
}

/// The outcome `tail` with `head` put before the values it holds.
pub open spec fn prepend<T>(head: Seq<T>, tail: Parsed<Seq<T>>) -> Parsed<Seq<T>> {
    match tail {
        Ok((rest, next)) => Ok((head + rest, next)),
        Err(e) => Err(e),
    }
}

proof fn lemma_prepend_empty<T>(tail: Parsed<Seq<T>>)
    ensures
        prepend(Seq::empty(), tail) == tail,
{
    match tail {
        Ok((rest, next)) => {
            assert(Seq::<T>::empty() + rest =~= rest);
        },
        Err(_) => {},
    }
}

proof fn lemma_prepend_push<T>(head: Seq<T>, item: T, tail: Parsed<Seq<T>>)
    ensures
        prepend(head, prepend(seq![item], tail)) == prepend(head.push(item), tail),
{
    match tail {
        Ok((rest, next)) => {
            assert(head + (seq![item] + rest) =~= head.push(item) + rest);
        },
        Err(_) => {},
    }
}

proof fn lemma_pushed_views<T: DeepView>(before: Vec<T>, after: Vec<T>, item: T)
    requires
        after@ == before@.push(item),
    ensures
        after.deep_view() == before.deep_view().push(item.deep_view()),
{
    assert(after.deep_view() =~= before.deep_view().push(item.deep_view()));
}

fn error<T>(kind: ParseErrorKind, pos: usize) -> (r: Step<T>)
    ensures
        r == Err::<(T, usize), ParseError>(ParseError { kind, position: pos }),
{
    Err(ParseError { kind, position: pos })
}

/// Builds the node for `receiver.method(args)`.
fn make_member_call(receiver: Expression, method: &Vec<u8>, args: Vec<Expression>) -> (r:
    Expression)
    ensures
        r@ == grammar::member_call(receiver@, method@, args.deep_view()),
{
    let sugar = match &receiver {
        Expression::Variable(name) => {
            let mut names: Vec<&[u8]> = Vec::new();
            names.push(name.as_slice());
            names.push(method.as_slice());
            let segments = names.as_slice();
            proof {
                let deep = segments.deep_view();
                assert(deep[0] =~= name@);
                assert(deep[1] =~= method@);
                assert(deep =~= seq![name@, method@]);
            }
            classify_reference(segments) == ReferenceKind::ArraySugar
        },
        _ => false,
    };
    let r = if sugar {
        Expression::ArrayMethodCall {
            array: Box::new(receiver),
            method: clone_bytes(method),
            args,
        }
    } else {
        Expression::MethodCall { object: Box::new(receiver), method: clone_bytes(method), args }
    };
    proof {
        lemma_expression_children(r);
    }
    r
}

/// Parses the argument list at `pos`, if one stands there.
fn parse_optional_args(tokens: &Vec<Token>, pos: usize) -> (r: Step<Vec<Expression>>)
    requires
        pos <= tokens.len(),
    ensures
        agrees(r, grammar::parse_optional_args(tokens.deep_view(), pos as nat)),
        advanced(r, pos, 0, tokens.len() as nat),
    decreases tokens.len() - pos, 0nat,
{
    if delimiter_at(tokens, pos, Delimiter::LeftParen) {
        if delimiter_at(tokens, pos + 1, Delimiter::RightParen) {
            let args: Vec<Expression> = Vec::new();
            assert(args.deep_view() =~= Seq::<ExpressionView>::empty());
            Ok((args, pos + 2))
        } else {
            parse_arg_list(tokens, pos + 1)
        }
    } else {
        let args: Vec<Expression> = Vec::new();
        assert(args.deep_view() =~= Seq::<ExpressionView>::empty());
        Ok((args, pos))
    }
}

/// One step through an argument list: an expression, and whether a comma or
/// the closing `)` follows it. Returns the expression, whether the list goes
/// on, and the position behind the comma or the `)`.
fn parse_arg(tokens: &Vec<Token>, pos: usize) -> (r: Result<(Expression, bool, usize), ParseError>)
    requires
        pos <= tokens.len(),
    ensures
        match r {
            Ok((arg, more, next)) => pos + 2 <= next <= tokens.len() && grammar::parse_arg_list(
                tokens.deep_view(),
                pos as nat,
            ) == if more {
                prepend(seq![arg@], grammar::parse_arg_list(tokens.deep_view(), next as nat))
            } else {
                Ok::<(Seq<ExpressionView>, nat), ParseError>((seq![arg@], next as nat))
            },
            Err(e) => grammar::parse_arg_list(tokens.deep_view(), pos as nat) == Err::<
                (Seq<ExpressionView>, nat),
                ParseError,
            >(e),
        },
    decreases tokens.len() - pos, 4nat,
{
    match parse_expression_within(tokens, pos) {
        Err(e) => Err(e),
        Ok((arg, p)) => {
            if delimiter_at(tokens, p, Delimiter::Comma) {
                Ok((arg, true, p + 1))
            } else if delimiter_at(tokens, p, Delimiter::RightParen) {
                Ok((arg, false, p + 1))
            } else {
                Err(ParseError { kind: ParseErrorKind::ExpectedRightParen, position: p })
            }
        },
    }
}

/// Parses the expressions of an argument list and the `)` behind them.
fn parse_arg_list(tokens: &Vec<Token>, pos: usize) -> (r: Step<Vec<Expression>>)
    requires
        pos <= tokens.len(),
    ensures
        agrees(r, grammar::parse_arg_list(tokens.deep_view(), pos as nat)),
        advanced(r, pos, 2, tokens.len() as nat),
    decreases tokens.len() - pos, 5nat,
{
    let ghost ts = tokens.deep_view();
    let mut args: Vec<Expression> = Vec::new();
    let mut cur: usize = pos;
    proof {
        assert(args.deep_view() =~= Seq::<ExpressionView>::empty());
        lemma_prepend_empty(grammar::parse_arg_list(ts, pos as nat));
    }
    loop
        invariant
            pos <= cur <= tokens.len(),
            ts == tokens.deep_view(),
            grammar::parse_arg_list(ts, pos as nat) == prepend(
                args.deep_view(),
                grammar::parse_arg_list(ts, cur as nat),
            ),
        decreases tokens.len() - cur,
    {
        match parse_arg(tokens, cur) {
            Err(e) => {
                return Err(e);
            },
            Ok((arg, more, next)) => {
                let ghost before = args;
                let ghost head = args.deep_view();
                let ghost item = arg@;
                args.push(arg);
                proof {
                    lemma_pushed_views(before, args, arg);
                    if more {
                        lemma_prepend_push(head, item, grammar::parse_arg_list(ts, next as nat));
                    } else {
                        assert(head + seq![item] =~= head.push(item));
                    }
                }
                if !more {
                    return Ok((args, next));
                }
                cur = next;
            },
        }
    }
}

/// Parses the primary expression that starts with the name at `pos`.
fn parse_named(tokens: &Vec<Token>, pos: usize, name: &Vec<u8>) -> (r: Step<Expression>)
    requires
        pos < tokens.len(),
        tokens@[pos as int]@ == TokenView::Identifier(name@),
    ensures
        agrees(r, grammar::parse_named(tokens.deep_view(), pos as nat, name@)),
        advanced(r, pos, 1, tokens.len() as nat),
    decreases tokens.len() - pos, 1nat,
{
    proof {
        lemma_token_view(tokens, pos);
    }
    if delimiter_at(tokens, pos + 1, Delimiter::LeftBracket) {
        match parse_expression_within(tokens, pos + 2) {
            Err(e) => Err(e),
            Ok((index, p)) => {
                if delimiter_at(tokens, p, Delimiter::RightBracket) {
                    let array = Expression::Variable(clone_bytes(name));
                    assert(array@ == ExpressionView::Variable(name@));
                    Ok(
                        (
                            Expression::ArrayAccess {
                                array: Box::new(array),
                                index: Box::new(index),
                            },
                            p + 1,
                        ),
                    )
                } else {
                    error(ParseErrorKind::ExpectedRightBracket, p)
                }
            },
        }
    } else {
        let reference = read_reference(tokens, pos, name);
        let nested = reference.kind == ReferenceKind::NestedModuleCall;
        if nested || reference.kind == ReferenceKind::ModuleCall {
            let width: usize = if nested {
                5
            } else {
                3
            };
            match parse_optional_args(tokens, pos + width) {
                Err(e) => Err(e),
                Ok((args, p)) => Ok((make_module_call(reference, args), p)),
            }
        } else {
            Ok((Expression::Variable(clone_bytes(name)), pos + 1))
        }
    }
}

/// Builds the node for a call into a module.
fn make_module_call(reference: Reference, args: Vec<Expression>) -> (e: Expression)
    requires
        reference.kind == ReferenceKind::NestedModuleCall || reference.kind
            == ReferenceKind::ModuleCall,
        reference.second is Some,
        reference.kind == ReferenceKind::NestedModuleCall ==> reference.third is Some,
    ensures
        e@ == grammar::module_call(reference.kind, reference.segments(), args.deep_view()),
{
    let e = if reference.kind == ReferenceKind::NestedModuleCall {
        Expression::FunctionCall {
            module: join_path(reference.first, reference.second.unwrap()),
            function: clone_bytes(reference.third.unwrap()),
            args,
        }
    } else {
        Expression::FunctionCall {
            module: clone_bytes(reference.first),
            function: clone_bytes(reference.second.unwrap()),
            args,
        }
    };
    proof {
        lemma_expression_children(e);
    }
    e
}

/// Parses a primary expression.
fn parse_primary(tokens: &Vec<Token>, pos: usize) -> (r: Step<Expression>)
    requires
        pos <= tokens.len(),
    ensures
        agrees(r, grammar::parse_primary(tokens.deep_view(), pos as nat)),
        advanced(r, pos, 1, tokens.len() as nat),
    decreases tokens.len() - pos, 2nat,
{
    if pos >= tokens.len() {
        return error(ParseErrorKind::ExpectedExpression, pos);
    }
    proof {
        lemma_token_view(tokens, pos);
    }
    match &tokens[pos] {
        Token::StringLiteral(text) => Ok((Expression::StringLiteral(clone_bytes(text)), pos + 1)),
        Token::Integer(value) => Ok((Expression::Integer(*value), pos + 1)),
        Token::Float(value) => Ok((Expression::Float(*value), pos + 1)),
        Token::Boolean(value) => Ok((Expression::Boolean(*value), pos + 1)),
        Token::Delimiter(Delimiter::LeftBracket) => {
            if delimiter_at(tokens, pos + 1, Delimiter::RightBracket) {
                let items: Vec<Expression> = Vec::new();
                let e = Expression::ArrayLiteral(items);
                proof {
                    lemma_expression_children(e);
                    assert(items.deep_view() =~= Seq::<ExpressionView>::empty());
                }
                Ok((e, pos + 2))
            } else {
                error(ParseErrorKind::ExpectedRightBracket, pos + 1)
            }
        },
        Token::Identifier(name) => parse_named(tokens, pos, name),
        _ => error(ParseErrorKind::ExpectedExpression, pos),
    }
}

/// Parses the member accesses that follow `receiver`.
fn parse_postfix(tokens: &Vec<Token>, pos: usize, receiver: Expression) -> (r: Step<Expression>)
    requires
        pos <= tokens.len(),
    ensures
        agrees(r, grammar::parse_postfix(tokens.deep_view(), pos as nat, receiver@)),
        advanced(r, pos, 0, tokens.len() as nat),
    decreases tokens.len() - pos, 0nat,
{
    let ghost ts = tokens.deep_view();
    let ghost first = receiver@;
    let mut current = receiver;
    let mut cur: usize = pos;
    while delimiter_at(tokens, cur, Delimiter::Dot)
        invariant
            pos <= cur <= tokens.len(),
            ts == tokens.deep_view(),
            first == receiver@,
            grammar::parse_postfix(ts, pos as nat, first) == grammar::parse_postfix(
                ts,
                cur as nat,
                current@,
            ),
        decreases tokens.len() - cur,
    {
        match name_at(tokens, cur + 1) {
            None => {
                return error(ParseErrorKind::ExpectedIdentifier, cur + 1);
            },
            Some(method) => {
                match parse_optional_args(tokens, cur + 2) {
                    Err(e) => {
                        return Err(e);
                    },
                    Ok((args, p)) => {
                        current = make_member_call(current, method, args);
                        cur = p;
                    },
                }
            },
        }
    }
    Ok((current, cur))
}

/// Parses an expression that starts at `pos`, a position within the sequence.
fn parse_expression_within(tokens: &Vec<Token>, pos: usize) -> (r: Step<Expression>)
    requires
        pos <= tokens.len(),
    ensures
        agrees(r, grammar::parse_expression(tokens.deep_view(), pos as nat)),
        advanced(r, pos, 1, tokens.len() as nat),
    decreases tokens.len() - pos, 3nat,
{
    if end_at(tokens, pos) {
        return error(ParseErrorKind::ExpectedExpression, pos);
    }
    match parse_primary(tokens, pos) {
        Err(e) => Err(e),
        Ok((primary, p)) => match parse_postfix(tokens, p, primary) {
            Err(e) => Err(e),
            Ok((left, q)) => {
                if operator_at(tokens, q, Operator::Plus) {
                    match parse_expression_within(tokens, q + 1) {
                        Err(e) => Err(e),
                        Ok((right, r)) => Ok(
                            (
                                Expression::BinaryOperation {
                                    left: Box::new(left),
                                    operator: BinaryOperator::Add,
                                    right: Box::new(right),
                                },
                                r,
                            ),
                        ),
                    }
                } else {
                    Ok((left, q))
                }
            },
        },
    }
}

/// Parses the expression that starts at token `pos`: a primary with its member
/// accesses and, behind a `+`, a right operand. Returns the expression and the
/// index of the first token behind it, or says what was missing and where.
pub fn parse_expression(tokens: &Vec<Token>, pos: usize) -> (r: Step<Expression>)
    ensures
        agrees(r, grammar::parse_expression(tokens.deep_view(), pos as nat)),
        advanced(r, pos, 1, tokens.len() as nat),
{
    if pos > tokens.len() {
        error(ParseErrorKind::ExpectedExpression, pos)
    } else {
        parse_expression_within(tokens, pos)
    }
}

/// Moves past the tags and semicolons at `pos`.
fn skip_trivia(tokens: &Vec<Token>, pos: usize) -> (r: usize)
    requires
        pos <= tokens.len(),
    ensures
        r == grammar::skip_trivia(tokens.deep_view(), pos as nat),
        pos <= r <= tokens.len(),
{
    let mut cur: usize = pos;
    while cur < tokens.len() && is_trivia_token(&tokens[cur])
        invariant
            pos <= cur <= tokens.len(),
            grammar::skip_trivia(tokens.deep_view(), pos as nat) == grammar::skip_trivia(
                tokens.deep_view(),
                cur as nat,
            ),
        decreases tokens.len() - cur,
    {
        proof {
            lemma_token_view(tokens, cur);
        }
        cur += 1;
    }
    proof {
        if cur < tokens.len() {
            lemma_token_view(tokens, cur);
        }
    }
    cur
}

fn is_trivia_token(t: &Token) -> (r: bool)
    ensures
        r == grammar::is_trivia(t@),
{
    match t {
        Token::Tag(_) => true,
        Token::Delimiter(d) => *d == Delimiter::Semicolon,
        _ => false,
    }
}

/// Parses what follows the keyword `import`.
fn parse_import(tokens: &Vec<Token>, pos: usize) -> (r: Step<Statement>)
    requires
        pos <= tokens.len(),
    ensures
        agrees(r, grammar::parse_import(tokens.deep_view(), pos as nat)),
        advanced(r, pos, 1, tokens.len() as nat),
{
    match name_at(tokens, pos) {
        None => error(ParseErrorKind::ExpectedIdentifier, pos),
        Some(module) => Ok((Statement::Import(clone_bytes(module)), pos + 1)),
    }
}

/// Parses what follows the keyword of a binding.
fn parse_binding(tokens: &Vec<Token>, pos: usize) -> (r: Step<Statement>)
    requires
        pos <= tokens.len(),
    ensures
        agrees(r, grammar::parse_binding(tokens.deep_view(), pos as nat)),
        advanced(r, pos, 3, tokens.len() as nat),
{
    match name_at(tokens, pos) {
        None => error(ParseErrorKind::ExpectedIdentifier, pos),
        Some(name) => {
            if operator_at(tokens, pos + 1, Operator::Assign) {
                match parse_expression_within(tokens, pos + 2) {
                    Err(e) => Err(e),
                    Ok((expression, p)) => Ok(
                        (
                            Statement::VariableAssignment {
                                var_name: clone_bytes(name),
                                expression,
                            },
                            p,
                        ),
                    ),
                }
            } else {
                error(ParseErrorKind::ExpectedAssign, pos + 1)
            }
        },
    }
}

/// Builds the statement for a dotted reference with its arguments.
fn make_reference_statement(reference: Reference, args: Vec<Expression>) -> (r: Statement)
    requires
        reference.kind != ReferenceKind::Variable,
        reference.second is Some,
        reference.kind == ReferenceKind::NestedModuleCall ==> reference.third is Some,
    ensures
        r@ == grammar::reference_statement(reference.kind, reference.segments(), args.deep_view()),
{
    match reference.kind {
        ReferenceKind::NestedModuleCall => Statement::FunctionCall {
            module: join_path(reference.first, reference.second.unwrap()),
            function: clone_bytes(reference.third.unwrap()),
            args,
        },
        ReferenceKind::ModuleCall => Statement::FunctionCall {
            module: clone_bytes(reference.first),
            function: clone_bytes(reference.second.unwrap()),
            args,
        },
        ReferenceKind::ArraySugar => Statement::ArrayMethodCall {
            array_var: clone_bytes(reference.first),
            method: clone_bytes(reference.second.unwrap()),
            args,
        },
        _ => {
            let object = Expression::Variable(clone_bytes(reference.first));
            assert(object@ == ExpressionView::Variable(reference.first@));
            let expression = Expression::MethodCall {
                object: Box::new(object),
                method: clone_bytes(reference.second.unwrap()),
                args,
            };
            proof {
                lemma_expression_children(expression);
            }
            Statement::ExpressionStmt { expression }
        },
    }
}

/// Parses the statement that the name at `pos` starts: a dotted reference with
/// its arguments, or an assignment.
fn parse_named_statement(tokens: &Vec<Token>, pos: usize, name: &Vec<u8>) -> (r: Step<Statement>)
    requires
        pos < tokens.len(),
        tokens@[pos as int]@ == TokenView::Identifier(name@),
    ensures
        agrees(r, grammar::parse_named_statement(tokens.deep_view(), pos as nat, name@)),
        advanced(r, pos, 1, tokens.len() as nat),
{
    proof {
        lemma_token_view(tokens, pos);
    }
    let reference = read_reference(tokens, pos, name);
    if reference.kind != ReferenceKind::Variable {
        let width: usize = if reference.kind == ReferenceKind::NestedModuleCall {
            5
        } else {
            3
        };
        match parse_optional_args(tokens, pos + width) {
            Err(e) => Err(e),
            Ok((args, p)) => Ok((make_reference_statement(reference, args), p)),
        }
    } else if operator_at(tokens, pos + 1, Operator::Assign) {
        match parse_expression_within(tokens, pos + 2) {
            Err(e) => Err(e),
            Ok((value, p)) => Ok((Statement::Assignment { variable: clone_bytes(name), value }, p)),
        }
    } else {
        error(ParseErrorKind::UnexpectedToken, pos)
    }
}

/// Parses the parenthesised condition at `pos`.
fn parse_condition(tokens: &Vec<Token>, pos: usize) -> (r: Step<Expression>)
    requires
        pos <= tokens.len(),
    ensures
        agrees(r, grammar::parse_condition(tokens.deep_view(), pos as nat)),
        advanced(r, pos, 3, tokens.len() as nat),
{
    if delimiter_at(tokens, pos, Delimiter::LeftParen) {
        match parse_expression_within(tokens, pos + 1) {
            Err(e) => Err(e),
            Ok((condition, p)) => {
                if delimiter_at(tokens, p, Delimiter::RightParen) {
                    Ok((condition, p + 1))
                } else {
                    error(ParseErrorKind::ExpectedRightParen, p)
                }
            },
        }
    } else {
        error(ParseErrorKind::ExpectedLeftParen, pos)
    }
}

/// Parses what follows the keyword `if`.
fn parse_if(tokens: &Vec<Token>, pos: usize) -> (r: Step<Statement>)
    requires
        pos <= tokens.len(),
    ensures
        agrees(r, grammar::parse_if(tokens.deep_view(), pos as nat)),
        advanced(r, pos, 1, tokens.len() as nat),
    decreases tokens.len() - pos, 0nat,
{
    match parse_condition(tokens, pos) {
        Err(e) => Err(e),
        Ok((condition, p)) => match parse_body(tokens, p) {
            Err(e) => Err(e),
            Ok((then_branch, q)) => {
                if keyword_at(tokens, q, Keyword::Else) {
                    match parse_body(tokens, q + 1) {
                        Err(e) => Err(e),
                        Ok((else_body, r)) => {
                            let s = Statement::If {
                                condition,
                                then_branch,
                                else_branch: Some(else_body),
                            };
                            proof {
                                lemma_statement_children(s);
                            }
                            Ok((s, r))
                        },
                    }
                } else {
                    let s = Statement::If { condition, then_branch, else_branch: None };
                    proof {
                        lemma_statement_children(s);
                    }
                    Ok((s, q))
                }
            },
        },
    }
}

/// Parses what follows the keyword `while`.
fn parse_while(tokens: &Vec<Token>, pos: usize) -> (r: Step<Statement>)
    requires
        pos <= tokens.len(),
    ensures
        agrees(r, grammar::parse_while(tokens.deep_view(), pos as nat)),
        advanced(r, pos, 1, tokens.len() as nat),
    decreases tokens.len() - pos, 0nat,
{
    match parse_condition(tokens, pos) {
        Err(e) => Err(e),
        Ok((condition, p)) => match parse_body(tokens, p) {
            Err(e) => Err(e),
            Ok((body, q)) => {
                let s = Statement::While { condition, body };
                proof {
                    lemma_statement_children(s);
                }
                Ok((s, q))
            },
        },
    }
}

/// Parses the statement that starts at `pos`.
fn parse_statement_at(tokens: &Vec<Token>, pos: usize) -> (r: Step<Statement>)
    requires
        pos <= tokens.len(),
    ensures
        agrees(r, grammar::parse_statement_at(tokens.deep_view(), pos as nat)),
        advanced(r, pos, 1, tokens.len() as nat),
    decreases tokens.len() - pos, 1nat,
{
    if pos >= tokens.len() {
        return error(ParseErrorKind::UnexpectedToken, pos);
    }
    proof {
        lemma_token_view(tokens, pos);
    }
    match &tokens[pos] {
        Token::Keyword(Keyword::Import) => parse_import(tokens, pos + 1),
        Token::Keyword(Keyword::Var) => parse_binding(tokens, pos + 1),
        Token::Identifier(name) => parse_named_statement(tokens, pos, name),
        Token::Keyword(Keyword::If) => parse_if(tokens, pos + 1),
        Token::Keyword(Keyword::While) => parse_while(tokens, pos + 1),
        _ => error(ParseErrorKind::UnexpectedToken, pos),
    }
}

/// Parses the body of an `if`, an `else` or a `while`.
fn parse_body(tokens: &Vec<Token>, pos: usize) -> (r: Step<Vec<Statement>>)
    requires
        pos <= tokens.len(),
    ensures
        agrees(r, grammar::parse_body(tokens.deep_view(), pos as nat)),
        advanced(r, pos, 1, tokens.len() as nat),
    decreases tokens.len() - pos, 4nat,
{
    if delimiter_at(tokens, pos, Delimiter::LeftBrace) {
        parse_block(tokens, pos + 1)
    } else {
        let start = skip_trivia(tokens, pos);
        match parse_statement_at(tokens, start) {
            Err(e) => Err(e),
            Ok((only, p)) => {
                let ghost item = only@;
                let mut body: Vec<Statement> = Vec::new();
                body.push(only);
                assert(body.deep_view() =~= seq![item]);
                Ok((body, p))
            },
        }
    }
}

/// One step through a block: nothing at its closing brace, else the next statement.
fn parse_block_item(tokens: &Vec<Token>, pos: usize) -> (r: Result<
    (Option<Statement>, usize),
    ParseError,
>)
    requires
        pos <= tokens.len(),
    ensures
        match r {
            Ok((None, next)) => grammar::parse_block(tokens.deep_view(), pos as nat) == Ok::<
                (Seq<StatementView>, nat),
                ParseError,
            >((Seq::empty(), next as nat)) && pos < next <= tokens.len(),
            Ok((Some(statement), next)) => grammar::parse_block(tokens.deep_view(), pos as nat)
                == prepend(
                seq![statement@],
                grammar::parse_block(tokens.deep_view(), next as nat),
            ) && pos < next <= tokens.len(),
            Err(e) => grammar::parse_block(tokens.deep_view(), pos as nat) == Err::<
                (Seq<StatementView>, nat),
                ParseError,
            >(e),
        },
    decreases tokens.len() - pos, 2nat,
{
    let start = skip_trivia(tokens, pos);
    if delimiter_at(tokens, start, Delimiter::RightBrace) {
        return Ok((None, start + 1));
    }
    if end_at(tokens, start) {
        return Err(ParseError { kind: ParseErrorKind::ExpectedRightBrace, position: start });
    }
    match parse_statement_at(tokens, start) {
        Err(e) => Err(e),
        Ok((statement, next)) => Ok((Some(statement), next)),
    }
}

/// Parses the statements of a block up to its closing brace.
fn parse_block(tokens: &Vec<Token>, pos: usize) -> (r: Step<Vec<Statement>>)
    requires
        pos <= tokens.len(),
    ensures
        agrees(r, grammar::parse_block(tokens.deep_view(), pos as nat)),
        advanced(r, pos, 1, tokens.len() as nat),
    decreases tokens.len() - pos, 3nat,
{
    let ghost ts = tokens.deep_view();
    let mut body: Vec<Statement> = Vec::new();
    let mut cur: usize = pos;
    proof {
        assert(body.deep_view() =~= Seq::<StatementView>::empty());
        lemma_prepend_empty(grammar::parse_block(ts, pos as nat));
    }
    loop
        invariant
            pos <= cur <= tokens.len(),
            ts == tokens.deep_view(),
            grammar::parse_block(ts, pos as nat) == prepend(
                body.deep_view(),
                grammar::parse_block(ts, cur as nat),
            ),
        decreases tokens.len() - cur,
    {
        let ghost head = body.deep_view();
        match parse_block_item(tokens, cur) {
            Err(e) => {
                return Err(e);
            },
            Ok((None, next)) => {
                proof {
                    assert(head + Seq::<StatementView>::empty() =~= head);
                }
                return Ok((body, next));
            },
            Ok((Some(statement), next)) => {
                let ghost before = body;
                let ghost item = statement@;
                body.push(statement);
                proof {
                    lemma_pushed_views(before, body, statement);
                    lemma_prepend_push(head, item, grammar::parse_block(ts, next as nat));
                }
                cur = next;
            },
        }
    }
}

/// The outcome `tail` with `head` put before the statements it holds.
pub open spec fn prepend_statements(
    head: Seq<StatementView>,
    tail: Result<Seq<StatementView>, ParseError>,
) -> Result<Seq<StatementView>, ParseError> {
    match tail {
        Ok(rest) => Ok(head + rest),
        Err(e) => Err(e),
    }
}

/// Whether what the parser returned is what the grammar gives for the tokens.
pub open spec fn parse_agrees(
    r: Result<Vec<Statement>, ParseError>,
    expected: Result<Seq<StatementView>, ParseError>,
) -> bool {
    match r {
        Ok(tree) => expected == Ok::<Seq<StatementView>, ParseError>(tree.deep_view()),
        Err(e) => expected == Err::<Seq<StatementView>, ParseError>(e),
    }
}

proof fn lemma_prepend_statement(
    head: Seq<StatementView>,
    item: StatementView,
    tail: Result<Seq<StatementView>, ParseError>,
)
    ensures
        prepend_statements(head, prepend_statements(seq![item], tail)) == prepend_statements(
            head.push(item),
            tail,
        ),
{
    match tail {
        Ok(rest) => {
            assert(head + (seq![item] + rest) =~= head.push(item) + rest);
        },
        Err(_) => {},
    }
}

/// One step through a program: nothing at the end-of-input marker, else the next statement.
fn parse_program_item(tokens: &Vec<Token>, pos: usize) -> (r: Result<
    Option<(Statement, usize)>,
    ParseError,
>)
    requires
        pos <= tokens.len(),
    ensures
        match r {
            Ok(None) => grammar::parse_program(tokens.deep_view(), pos as nat) == Ok::<
                Seq<StatementView>,
                ParseError,
            >(Seq::empty()),
            Ok(Some((statement, next))) => grammar::parse_program(tokens.deep_view(), pos as nat)
                == prepend_statements(
                seq![statement@],
                grammar::parse_program(tokens.deep_view(), next as nat),
            ) && pos < next <= tokens.len(),
            Err(e) => grammar::parse_program(tokens.deep_view(), pos as nat) == Err::<
                Seq<StatementView>,
                ParseError,
            >(e),
        },
{
    let start = skip_trivia(tokens, pos);
    if end_at(tokens, start) {
        return Ok(None);
    }
    match parse_statement_at(tokens, start) {
        Err(e) => Err(e),
        Ok((statement, next)) => Ok(Some((statement, next))),
    }
}

/// Parses a token sequence into the statements of a program. Parsing runs until
/// the end-of-input marker (or the end of the sequence) and yields one
/// statement per match; at the first token that fits no rule, or where a
/// required delimiter is missing, it stops and returns that failure alone.
pub fn parse(tokens: &Vec<Token>) -> (r: Result<Vec<Statement>, ParseError>)
    ensures
        parse_agrees(r, grammar::parse_tokens(tokens.deep_view())),
{
    let ghost ts = tokens.deep_view();
    let mut tree: Vec<Statement> = Vec::new();
    let mut cur: usize = 0;
    proof {
        assert(tree.deep_view() =~= Seq::<StatementView>::empty());
        match grammar::parse_program(ts, 0) {
            Ok(rest) => {
                assert(Seq::<StatementView>::empty() + rest =~= rest);
            },
            Err(_) => {},
        }
    }
    loop
        invariant
            cur <= tokens.len(),
            ts == tokens.deep_view(),
            grammar::parse_program(ts, 0) == prepend_statements(
                tree.deep_view(),
                grammar::parse_program(ts, cur as nat),
            ),
        decreases tokens.len() - cur,
    {
        let ghost head = tree.deep_view();
        match parse_program_item(tokens, cur) {
            Err(e) => {
                return Err(e);
            },
            Ok(None) => {
                proof {
                    assert(head + Seq::<StatementView>::empty() =~= head);
                }
                return Ok(tree);
            },
            Ok(Some((statement, next))) => {
                let ghost before = tree;
                let ghost item = statement@;
                tree.push(statement);
                proof {
                    lemma_pushed_views(before, tree, statement);
                    lemma_prepend_statement(head, item, grammar::parse_program(ts, next as nat));
                }
                cur = next;
            },
        }
    }
}

} // verus!
