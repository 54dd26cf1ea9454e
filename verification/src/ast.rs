//! The syntax tree: what the parser builds and the generator renders.

use vstd::prelude::*;
use crate::token::Decimal;

verus! {

/// The symbol of a binary operation.
#[derive(Clone, Copy, Debug, PartialEq, Eq, Structural)]
pub enum BinaryOperator {
    Add,
    Sub,
    Mul,
    Div,
    Eq,
    Ne,
    Lt,
    Le,
    Gt,
    Ge,
    And,
    Or,
}

/// An expression. Each node owns its children; nothing is shared.
#[derive(Debug, PartialEq, Eq)]
pub enum Expression {
    Integer(i64),
    Float(Decimal),
    StringLiteral(Vec<u8>),
    Boolean(bool),
    Variable(Vec<u8>),
    BinaryOperation { left: Box<Expression>, operator: BinaryOperator, right: Box<Expression> },
    /// A call into a namespace. `module` is the dotted path to it.
    FunctionCall { module: Vec<u8>, function: Vec<u8>, args: Vec<Expression> },
    ArrayLiteral(Vec<Expression>),
    ArrayAccess { array: Box<Expression>, index: Box<Expression> },
    /// One of the array methods, called on a variable that holds an array.
    ArrayMethodCall { array: Box<Expression>, method: Vec<u8>, args: Vec<Expression> },
    /// Any other method call on a receiver.
    MethodCall { object: Box<Expression>, method: Vec<u8>, args: Vec<Expression> },
}

/// The mathematical value of an [`Expression`].
pub ghost enum ExpressionView {
    Integer(i64),
    Float(Decimal),
    StringLiteral(Seq<u8>),
    Boolean(bool),
    Variable(Seq<u8>),
    BinaryOperation {
        left: Box<ExpressionView>,
        operator: BinaryOperator,
        right: Box<ExpressionView>,
    },
    FunctionCall { module: Seq<u8>, function: Seq<u8>, args: Seq<ExpressionView> },
    ArrayLiteral(Seq<ExpressionView>),
    ArrayAccess { array: Box<ExpressionView>, index: Box<ExpressionView> },
    ArrayMethodCall { array: Box<ExpressionView>, method: Seq<u8>, args: Seq<ExpressionView> },
    MethodCall { object: Box<ExpressionView>, method: Seq<u8>, args: Seq<ExpressionView> },
}

/// A statement.
#[derive(Debug, PartialEq, Eq)]
pub enum Statement {
    /// Names a module; it has no effect of its own.
    Import(Vec<u8>),
    /// Binds a new variable to the value of an expression.
    VariableAssignment { var_name: Vec<u8>, expression: Expression },
    /// Gives an existing variable a new value.
    Assignment { variable: Vec<u8>, value: Expression },
    FunctionCall { module: Vec<u8>, function: Vec<u8>, args: Vec<Expression> },
    /// A method call made for its effect.
    ExpressionStmt { expression: Expression },
    ArrayMethodCall { array_var: Vec<u8>, method: Vec<u8>, args: Vec<Expression> },
    If { condition: Expression, then_branch: Vec<Statement>, else_branch: Option<Vec<Statement>> },
    While { condition: Expression, body: Vec<Statement> },
}

/// The mathematical value of a [`Statement`].
pub ghost enum StatementView {
    Import(Seq<u8>),
    VariableAssignment { var_name: Seq<u8>, expression: ExpressionView },
    Assignment { variable: Seq<u8>, value: ExpressionView },
    FunctionCall { module: Seq<u8>, function: Seq<u8>, args: Seq<ExpressionView> },
    ExpressionStmt { expression: ExpressionView },
    ArrayMethodCall { array_var: Seq<u8>, method: Seq<u8>, args: Seq<ExpressionView> },
    If {
        condition: ExpressionView,
        then_branch: Seq<StatementView>,
        else_branch: Option<Seq<StatementView>>,
    },
    While { condition: ExpressionView, body: Seq<StatementView> },
}

/// The view of an expression, node by node.
pub open spec fn expression_view(e: Expression) -> ExpressionView
    decreases e,
{
    match e {
        Expression::Integer(v) => ExpressionView::Integer(v),
        Expression::Float(d) => ExpressionView::Float(d),
        Expression::StringLiteral(s) => ExpressionView::StringLiteral(s@),
        Expression::Boolean(b) => ExpressionView::Boolean(b),
        Expression::Variable(n) => ExpressionView::Variable(n@),
        Expression::BinaryOperation { left, operator, right } => ExpressionView::BinaryOperation {
            left: Box::new(expression_view(*left)),
            operator,
            right: Box::new(expression_view(*right)),
        },
        Expression::FunctionCall { module, function, args } => ExpressionView::FunctionCall {
            module: module@,
            function: function@,
            args: Seq::new(
                args@.len(),
                |i: int|
                    if 0 <= i < args@.len() {
                        expression_view(args@[i])
                    } else {
                        ExpressionView::Boolean(false)
                    },
            ),
        },
        Expression::ArrayLiteral(items) => ExpressionView::ArrayLiteral(
            Seq::new(
                items@.len(),
                |i: int|
                    if 0 <= i < items@.len() {
                        expression_view(items@[i])
                    } else {
                        ExpressionView::Boolean(false)
                    },
            ),
        ),
        Expression::ArrayAccess { array, index } => ExpressionView::ArrayAccess {
            array: Box::new(expression_view(*array)),
            index: Box::new(expression_view(*index)),
        },
        Expression::ArrayMethodCall { array, method, args } => ExpressionView::ArrayMethodCall {
            array: Box::new(expression_view(*array)),
            method: method@,
            args: Seq::new(
                args@.len(),
                |i: int|
                    if 0 <= i < args@.len() {
                        expression_view(args@[i])
                    } else {
                        ExpressionView::Boolean(false)
                    },
            ),
        },
        Expression::MethodCall { object, method, args } => ExpressionView::MethodCall {
            object: Box::new(expression_view(*object)),
            method: method@,
            args: Seq::new(
                args@.len(),
                |i: int|
                    if 0 <= i < args@.len() {
                        expression_view(args@[i])
                    } else {
                        ExpressionView::Boolean(false)
                    },
            ),
        },
    }
}

impl View for Expression {
    type V = ExpressionView;

    open spec fn view(&self) -> ExpressionView {
        expression_view(*self)
    }
}

impl DeepView for Expression {
    type V = ExpressionView;

    open spec fn deep_view(&self) -> ExpressionView {
        expression_view(*self)
    }
}

/// The view of a statement, node by node.
pub open spec fn statement_view(s: Statement) -> StatementView
    decreases s,
{
    match s {
        Statement::Import(m) => StatementView::Import(m@),
        Statement::VariableAssignment { var_name, expression } => {
            StatementView::VariableAssignment { var_name: var_name@, expression: expression@ }
        },
        Statement::Assignment { variable, value } => StatementView::Assignment {
            variable: variable@,
            value: value@,
        },
        Statement::FunctionCall { module, function, args } => StatementView::FunctionCall {
            module: module@,
            function: function@,
            args: args.deep_view(),
        },
        Statement::ExpressionStmt { expression } => StatementView::ExpressionStmt {
            expression: expression@,
        },
        Statement::ArrayMethodCall { array_var, method, args } => StatementView::ArrayMethodCall {
            array_var: array_var@,
            method: method@,
            args: args.deep_view(),
        },
        Statement::If { condition, then_branch, else_branch } => StatementView::If {
            condition: condition@,
            then_branch: Seq::new(
                then_branch@.len(),
                |i: int|
                    if 0 <= i < then_branch@.len() {
                        statement_view(then_branch@[i])
                    } else {
                        StatementView::Import(Seq::empty())
                    },
            ),
            else_branch: match else_branch {
                Some(stmts) => Some(
                    Seq::new(
                        stmts@.len(),
                        |i: int|
                            if 0 <= i < stmts@.len() {
                                statement_view(stmts@[i])
                            } else {
                                StatementView::Import(Seq::empty())
                            },
                    ),
                ),
                None => None,
            },
        },
        Statement::While { condition, body } => StatementView::While {
            condition: condition@,
            body: Seq::new(
                body@.len(),
                |i: int|
                    if 0 <= i < body@.len() {
                        statement_view(body@[i])
                    } else {
                        StatementView::Import(Seq::empty())
                    },
            ),
        },
    }
}

impl View for Statement {
    type V = StatementView;

    open spec fn view(&self) -> StatementView {
        statement_view(*self)
    }
}

impl DeepView for Statement {
    type V = StatementView;

    open spec fn deep_view(&self) -> StatementView {
        statement_view(*self)
    }
}

/// The views of the children of a node are the deep view of the vector that holds them.
pub proof fn lemma_expression_children(e: Expression)
    ensures
        e matches Expression::FunctionCall { args, .. } ==> e@->FunctionCall_args
            == args.deep_view(),
        e matches Expression::ArrayLiteral(items) ==> e@->ArrayLiteral_0 == items.deep_view(),
        e matches Expression::ArrayMethodCall { args, .. } ==> e@->ArrayMethodCall_args
            == args.deep_view(),
        e matches Expression::MethodCall { args, .. } ==> e@->MethodCall_args == args.deep_view(),
{
    match e {
        Expression::FunctionCall { args, .. } => {
            assert(e@->FunctionCall_args =~= args.deep_view());
        },
        Expression::ArrayLiteral(items) => {
            assert(e@->ArrayLiteral_0 =~= items.deep_view());
        },
        Expression::ArrayMethodCall { args, .. } => {
            assert(e@->ArrayMethodCall_args =~= args.deep_view());
        },
        Expression::MethodCall { args, .. } => {
            assert(e@->MethodCall_args =~= args.deep_view());
        },
        _ => {},
    }
}

/// The views of the statements of a body are the deep view of the vector that holds them.
pub proof fn lemma_statement_children(s: Statement)
    ensures
        s matches Statement::If { then_branch, else_branch, .. } ==> {
            &&& s@->then_branch == then_branch.deep_view()
            &&& match else_branch {
                Some(stmts) => s@->else_branch == Some(stmts.deep_view()),
                None => s@->else_branch is None,
            }
        },
        s matches Statement::While { body, .. } ==> s@->body == body.deep_view(),
{
    match s {
        Statement::If { then_branch, else_branch, .. } => {
            assert(s@->then_branch =~= then_branch.deep_view());
            match else_branch {
                Some(stmts) => {
                    assert(s@->else_branch->0 =~= stmts.deep_view());
                },
                None => {},
            }
        },
        Statement::While { body, .. } => {
            assert(s@->body =~= body.deep_view());
        },
        _ => {},
    }
}

} // verus!
