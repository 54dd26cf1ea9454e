//! Which modules a program calls into. The generator can leave out the
//! runtime support of the modules that a program never calls.

use vstd::prelude::*;
use vstd::string::StringSliceAdditionalSpecFns;
use crate::ascii::DOT;
use crate::ast::{
    lemma_expression_children, lemma_statement_children, Expression, ExpressionView, Statement,
    StatementView,
};
use crate::bytes::{bytes_eq, copy_range, run_end, scan_run, ByteClass};
use crate::runtime::Support;

verus! {

/// The first segment of a dotted module path.
pub open spec fn module_root(module: Seq<u8>) -> Seq<u8> {
    module.subrange(0, run_end(module, 0, ByteClass::Until(DOT)))
}

/// Whether some expression of the list calls into the module `root`.
pub open spec fn any_expression_calls(es: Seq<ExpressionView>, root: Seq<u8>) -> bool
    decreases es,
{
    es.len() > 0 && (any_expression_calls(es.drop_last(), root) || expression_calls(
        es.last(),
        root,
    ))
}

/// Whether the expression, or an expression within it, calls into the module `root`.
pub open spec fn expression_calls(e: ExpressionView, root: Seq<u8>) -> bool
    decreases e,
{
    match e {
        ExpressionView::BinaryOperation { left, right, .. } => expression_calls(*left, root)
            || expression_calls(*right, root),
        ExpressionView::FunctionCall { module, args, .. } => module_root(module) == root
            || any_expression_calls(args, root),
        ExpressionView::ArrayLiteral(items) => any_expression_calls(items, root),
        ExpressionView::ArrayAccess { array, index } => expression_calls(*array, root)
            || expression_calls(*index, root),
        ExpressionView::ArrayMethodCall { array, args, .. } => expression_calls(*array, root)
            || any_expression_calls(args, root),
        ExpressionView::MethodCall { object, args, .. } => expression_calls(*object, root)
            || any_expression_calls(args, root),
        _ => false,
    }
}

/// Whether some statement of the list calls into the module `root`.
pub open spec fn any_statement_calls(statements: Seq<StatementView>, root: Seq<u8>) -> bool
    decreases statements,
{
    statements.len() > 0 && (any_statement_calls(statements.drop_last(), root) || statement_calls(
        statements.last(),
        root,
    ))
}

/// Whether the statement, or anything within it, calls into the module `root`.
/// An import calls nothing.
pub open spec fn statement_calls(s: StatementView, root: Seq<u8>) -> bool
    decreases s,
{
    match s {
        StatementView::Import(_) => false,
        StatementView::VariableAssignment { expression, .. } => expression_calls(expression, root),
        StatementView::Assignment { value, .. } => expression_calls(value, root),
        StatementView::FunctionCall { module, args, .. } => module_root(module) == root
            || any_expression_calls(args, root),
        StatementView::ExpressionStmt { expression } => expression_calls(expression, root),
        StatementView::ArrayMethodCall { args, .. } => any_expression_calls(args, root),
        StatementView::If { condition, then_branch, else_branch } => expression_calls(
            condition,
            root,
        ) || any_statement_calls(then_branch, root) || match else_branch {
            Some(statements) => any_statement_calls(statements, root),
            None => false,
        },
        StatementView::While { condition, body } => expression_calls(condition, root)
            || any_statement_calls(body, root),
    }
}

/// The runtime support that a program calls into.
pub open spec fn support_used(tree: Seq<StatementView>) -> Support {
    Support {
        math: any_statement_calls(tree, "math".spec_bytes()),
        crystal: any_statement_calls(tree, "crystal".spec_bytes()),
        symbolic: any_statement_calls(tree, "symbolic".spec_bytes()),
    }
}

fn has_root(module: &[u8], root: &[u8]) -> (r: bool)
    ensures
        r == (module_root(module@) == root@),
{
    let end = scan_run(module, 0, ByteClass::Until(DOT));
    let first = copy_range(module, 0, end);
    bytes_eq(first.as_slice(), root)
}

fn any_expression_calls_into(es: &Vec<Expression>, root: &[u8]) -> (r: bool)
    ensures
        r == any_expression_calls(es.deep_view(), root@),
    decreases es,
{
    let ghost views = es.deep_view();
    let mut found = false;
    let mut i: usize = 0;
    while i < es.len()
        invariant
            0 <= i <= es.len(),
            views == es.deep_view(),
            found == any_expression_calls(views.take(i as int), root@),
        decreases es.len() - i,
    {
        proof {
            assert(views.take(i + 1).drop_last() == views.take(i as int));
        }
        if expression_calls_into(&es[i], root) {
            found = true;
        }
        i += 1;
    }
    proof {
        assert(views.take(i as int) == views);
    }
    found
}

/// Whether the expression calls into the module `root`.
pub fn expression_calls_into(e: &Expression, root: &[u8]) -> (r: bool)
    ensures
        r == expression_calls(e@, root@),
    decreases e,
{
    proof {
        lemma_expression_children(*e);
    }
    match e {
        Expression::BinaryOperation { left, right, .. } => {
            let l = expression_calls_into(left, root);
            let r = expression_calls_into(right, root);
            l || r
        },
        Expression::FunctionCall { module, args, .. } => {
            let here = has_root(module.as_slice(), root);
            let within = any_expression_calls_into(args, root);
            here || within
        },
        Expression::ArrayLiteral(items) => any_expression_calls_into(items, root),
        Expression::ArrayAccess { array, index } => {
            let a = expression_calls_into(array, root);
            let i = expression_calls_into(index, root);
            a || i
        },
        Expression::ArrayMethodCall { array, args, .. } => {
            let a = expression_calls_into(array, root);
            let within = any_expression_calls_into(args, root);
            a || within
        },
        Expression::MethodCall { object, args, .. } => {
            let o = expression_calls_into(object, root);
            let within = any_expression_calls_into(args, root);
            o || within
        },
        _ => false,
    }
}

fn any_statement_calls_into(statements: &Vec<Statement>, root: &[u8]) -> (r: bool)
    ensures
        r == any_statement_calls(statements.deep_view(), root@),
    decreases statements,
{
    let ghost views = statements.deep_view();
    let mut found = false;
    let mut i: usize = 0;
    while i < statements.len()
        invariant
            0 <= i <= statements.len(),
            views == statements.deep_view(),
            found == any_statement_calls(views.take(i as int), root@),
        decreases statements.len() - i,
    {
        proof {
            assert(views.take(i + 1).drop_last() == views.take(i as int));
        }
        if statement_calls_into(&statements[i], root) {
            found = true;
        }
        i += 1;
    }
    proof {
        assert(views.take(i as int) == views);
    }
    found
}

fn statement_calls_into(s: &Statement, root: &[u8]) -> (r: bool)
    ensures
        r == statement_calls(s@, root@),
    decreases s,
{
    proof {
        lemma_statement_children(*s);
    }
    match s {
        Statement::Import(_) => false,
        Statement::VariableAssignment { expression, .. } => expression_calls_into(expression, root),
        Statement::Assignment { value, .. } => expression_calls_into(value, root),
        Statement::FunctionCall { module, args, .. } => {
            let here = has_root(module.as_slice(), root);
            let within = any_expression_calls_into(args, root);
            here || within
        },
        Statement::ExpressionStmt { expression } => expression_calls_into(expression, root),
        Statement::ArrayMethodCall { args, .. } => any_expression_calls_into(args, root),
        Statement::If { condition, then_branch, else_branch } => {
            let c = expression_calls_into(condition, root);
            let t = any_statement_calls_into(then_branch, root);
            let e = match else_branch {
                Some(statements) => any_statement_calls_into(statements, root),
                None => false,
            };
            c || t || e
        },
        Statement::While { condition, body } => {
            let c = expression_calls_into(condition, root);
            let b = any_statement_calls_into(body, root);
            c || b
        },
    }
}

/// Finds the runtime support that a program calls into.
pub fn find_support(tree: &Vec<Statement>) -> (support: Support)
    ensures
        support == support_used(tree.deep_view()),
{
    Support {
        math: any_statement_calls_into(tree, "math".as_bytes()),
        crystal: any_statement_calls_into(tree, "crystal".as_bytes()),
        symbolic: any_statement_calls_into(tree, "symbolic".as_bytes()),
    }
}

} // verus!
