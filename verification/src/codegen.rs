//! The code generator: from a syntax tree to C++ text. Every tree has a text.

use vstd::prelude::*;
use vstd::string::StringSliceAdditionalSpecFns;
use crate::ascii::{DOT, QUOTE};
use crate::ast::{
    lemma_expression_children, lemma_statement_children, BinaryOperator, Expression,
    ExpressionView, Statement, StatementView,
};
use crate::bytes::bytes_eq;
use crate::number::{decimal_text, integer_text, render_decimal, render_integer};
use crate::runtime::{program_text, wrap_program, Support};
use crate::usage::{find_support, support_used};

verus! {

/// A dotted module path as a C++ namespace path: each dot becomes `::`.
pub open spec fn namespace_text(module: Seq<u8>) -> Seq<u8>
    decreases module.len(),
{
    if module.len() == 0 {
        Seq::empty()
    } else if module.last() == DOT {
        namespace_text(module.drop_last()) + "::".spec_bytes()
    } else {
        namespace_text(module.drop_last()).push(module.last())
    }
}

/// The texts, in order, with `separator` between each two.
pub open spec fn join_texts(parts: Seq<Seq<u8>>, separator: Seq<u8>) -> Seq<u8>
    decreases parts.len(),
{
    if parts.len() == 0 {
        Seq::empty()
    } else if parts.len() == 1 {
        parts[0]
    } else {
        join_texts(parts.drop_last(), separator) + separator + parts.last()
    }
}

/// Arguments as they stand in a call: separated by a comma and a space.
pub open spec fn argument_text(args: Seq<Seq<u8>>) -> Seq<u8> {
    join_texts(args, ", ".spec_bytes())
}

pub open spec fn operator_text(operator: BinaryOperator) -> Seq<u8> {
    match operator {
        BinaryOperator::Add => "+".spec_bytes(),
        BinaryOperator::Sub => "-".spec_bytes(),
        BinaryOperator::Mul => "*".spec_bytes(),
        BinaryOperator::Div => "/".spec_bytes(),
        BinaryOperator::Eq => "==".spec_bytes(),
        BinaryOperator::Ne => "!=".spec_bytes(),
        BinaryOperator::Lt => "<".spec_bytes(),
        BinaryOperator::Le => "<=".spec_bytes(),
        BinaryOperator::Gt => ">".spec_bytes(),
        BinaryOperator::Ge => ">=".spec_bytes(),
        BinaryOperator::And => "&&".spec_bytes(),
        BinaryOperator::Or => "||".spec_bytes(),
    }
}

/// Whether a rendered operand is a string literal: its text opens with a quote.
pub open spec fn is_string_text(text: Seq<u8>) -> bool {
    text.len() > 0 && text[0] == QUOTE
}

/// A binary operation over rendered operands. An addition with a string
/// literal on either side is a concatenation: both operands are made
/// `std::string` first.
pub open spec fn binary_text(left: Seq<u8>, operator: BinaryOperator, right: Seq<u8>) -> Seq<u8> {
    if operator == BinaryOperator::Add && (is_string_text(left) || is_string_text(right)) {
        "std::string(".spec_bytes() + left + ") + std::string(".spec_bytes() + right
            + ")".spec_bytes()
    } else {
        left + " ".spec_bytes() + operator_text(operator) + " ".spec_bytes() + right
    }
}

/// A call into a namespace.
pub open spec fn call_text(module: Seq<u8>, function: Seq<u8>, args: Seq<Seq<u8>>) -> Seq<u8> {
    namespace_text(module) + "::".spec_bytes() + function + "(".spec_bytes() + argument_text(args)
        + ")".spec_bytes()
}

/// A method call through the receiver: `object->method(args)`.
pub open spec fn indirect_call_text(object: Seq<u8>, method: Seq<u8>, args: Seq<Seq<u8>>) -> Seq<
    u8,
> {
    object + "->".spec_bytes() + method + "(".spec_bytes() + argument_text(args) + ")".spec_bytes()
}

/// An array method on a rendered receiver: `append` inserts at the end,
/// `length` and `size` ask for the number of elements, `get` and `at` read at
/// an index, `set` writes the second argument at the first (without a second,
/// at index 0; without any, the value 0). Any other name is called through
/// the receiver.
pub open spec fn array_method_text(array: Seq<u8>, method: Seq<u8>, args: Seq<Seq<u8>>) -> Seq<
    u8,
> {
    if method == "append".spec_bytes() {
        array + ".push_back(".spec_bytes() + argument_text(args) + ")".spec_bytes()
    } else if method == "length".spec_bytes() || method == "size".spec_bytes() {
        array + ".size()".spec_bytes()
    } else if method == "get".spec_bytes() || method == "at".spec_bytes() {
        array + "[".spec_bytes() + argument_text(args) + "]".spec_bytes()
    } else if method == "set".spec_bytes() {
        if args.len() >= 2 {
            array + "[".spec_bytes() + args[0] + "] = ".spec_bytes() + args[1]
        } else if args.len() == 1 {
            array + "[0] = ".spec_bytes() + args[0]
        } else {
            array + "[0] = ".spec_bytes() + "0".spec_bytes()
        }
    } else {
        indirect_call_text(array, method, args)
    }
}

/// A method call on a rendered receiver: `to_string` converts the receiver,
/// any other method is called through it.
pub open spec fn method_text(object: Seq<u8>, method: Seq<u8>, args: Seq<Seq<u8>>) -> Seq<u8> {
    if method == "to_string".spec_bytes() {
        "std::to_string(".spec_bytes() + object + ")".spec_bytes()
    } else {
        indirect_call_text(object, method, args)
    }
}

/// The text of each expression, in order.
pub open spec fn expression_texts(es: Seq<ExpressionView>) -> Seq<Seq<u8>>
    decreases es,
{
    if es.len() == 0 {
        Seq::empty()
    } else {
        expression_texts(es.drop_last()).push(expression_text(es.last()))
    }
}

/// The C++ text of an expression.
pub open spec fn expression_text(e: ExpressionView) -> Seq<u8>
    decreases e,
{
    match e {
        ExpressionView::Integer(value) => integer_text(value as int),
        ExpressionView::Float(value) => decimal_text(value),
        ExpressionView::StringLiteral(text) => seq![QUOTE] + text + seq![QUOTE],
        ExpressionView::Boolean(value) => if value {
            "true".spec_bytes()
        } else {
            "false".spec_bytes()
        },
        ExpressionView::Variable(name) => name,
        ExpressionView::BinaryOperation { left, operator, right } => binary_text(
            expression_text(*left),
            operator,
            expression_text(*right),
        ),
        ExpressionView::FunctionCall { module, function, args } => call_text(
            module,
            function,
            expression_texts(args),
        ),
        ExpressionView::ArrayLiteral(_) => "std::vector<int>{}".spec_bytes(),
        ExpressionView::ArrayAccess { array, index } => expression_text(*array) + "[".spec_bytes()
            + expression_text(*index) + "]".spec_bytes(),
        ExpressionView::ArrayMethodCall { array, method, args } => array_method_text(
            expression_text(*array),
            method,
            expression_texts(args),
        ),
        ExpressionView::MethodCall { object, method, args } => method_text(
            expression_text(*object),
            method,
            expression_texts(args),
        ),
    }
}

/// One level of indentation.
pub open spec fn indent_step() -> Seq<u8> {
    "    ".spec_bytes()
}

/// The declaration that binds `name` to the value of `expression`. An empty
/// array becomes an empty vector; an array method that only changes the array
/// stands alone, without a variable.
pub open spec fn binding_text(name: Seq<u8>, expression: ExpressionView) -> Seq<u8> {
    match expression {
        ExpressionView::ArrayLiteral(_) => "std::vector<int> ".spec_bytes() + name,
        ExpressionView::ArrayMethodCall { method, .. } => {
            if method == "append".spec_bytes() || method == "set".spec_bytes() {
                expression_text(expression)
            } else {
                "auto ".spec_bytes() + name + " = ".spec_bytes() + expression_text(expression)
            }
        },
        _ => "auto ".spec_bytes() + name + " = ".spec_bytes() + expression_text(expression),
    }
}

/// A statement that fits on one line, indented and closed.
pub open spec fn line(indent: Seq<u8>, text: Seq<u8>) -> Seq<u8> {
    indent + text + ";\n".spec_bytes()
}

/// A conditional at `indent`, over its rendered condition and branches.
pub open spec fn if_text(
    indent: Seq<u8>,
    condition: Seq<u8>,
    then_block: Seq<u8>,
    else_block: Option<Seq<u8>>,
) -> Seq<u8> {
    let head = indent + "if (".spec_bytes() + condition + ") {\n".spec_bytes() + then_block
        + indent + "}".spec_bytes();
    match else_block {
        Some(block) => head + " else {\n".spec_bytes() + block + indent + "}\n".spec_bytes(),
        None => head + "\n".spec_bytes(),
    }
}

/// A loop at `indent`, over its rendered condition and body.
pub open spec fn while_text(indent: Seq<u8>, condition: Seq<u8>, body: Seq<u8>) -> Seq<u8> {
    indent + "while (".spec_bytes() + condition + ") {\n".spec_bytes() + body + indent
        + "}\n".spec_bytes()
}

/// The C++ text of the statements, one after another, each at `indent`.
pub open spec fn block_text(statements: Seq<StatementView>, indent: Seq<u8>) -> Seq<u8>
    decreases statements,
{
    if statements.len() == 0 {
        Seq::empty()
    } else {
        block_text(statements.drop_last(), indent) + statement_text(statements.last(), indent)
    }
}

/// The C++ text of a statement at `indent`. An import has none.
pub open spec fn statement_text(s: StatementView, indent: Seq<u8>) -> Seq<u8>
    decreases s,
{
    match s {
        StatementView::Import(_) => Seq::empty(),
        StatementView::VariableAssignment { var_name, expression } => line(
            indent,
            binding_text(var_name, expression),
        ),
        StatementView::Assignment { variable, value } => line(
            indent,
            variable + " = ".spec_bytes() + expression_text(value),
        ),
        StatementView::FunctionCall { module, function, args } => line(
            indent,
            call_text(module, function, expression_texts(args)),
        ),
        StatementView::ExpressionStmt { expression } => line(indent, expression_text(expression)),
        StatementView::ArrayMethodCall { array_var, method, args } => line(
            indent,
            array_method_text(array_var, method, expression_texts(args)),
        ),
        StatementView::If { condition, then_branch, else_branch } => if_text(
            indent,
            expression_text(condition),
            block_text(then_branch, indent + indent_step()),
            match else_branch {
                Some(statements) => Some(block_text(statements, indent + indent_step())),
                None => None,
            },
        ),
        StatementView::While { condition, body } => while_text(
            indent,
            expression_text(condition),
            block_text(body, indent + indent_step()),
        ),
    }
}

/// The C++ text of a program's statements, as they stand in the entry point.
pub open spec fn statements_text(tree: Seq<StatementView>) -> Seq<u8> {
    block_text(tree, indent_step())
}

/// How much of the runtime support a generated program holds.
#[derive(Clone, Copy, Debug, PartialEq, Eq, Structural)]
pub enum PreludeMode {
    /// All of it, whatever the program calls.
    Full,
    /// Only the namespaces that the program calls into.
    Pruned,
}

/// The runtime support that a program gets in the given mode.
pub open spec fn support_for(tree: Seq<StatementView>, mode: PreludeMode) -> Support {
    match mode {
        PreludeMode::Full => Support::all(),
        PreludeMode::Pruned => support_used(tree),
    }
}

/// The whole generated program for a syntax tree.
pub open spec fn generated_text(
    tree: Seq<StatementView>,
    source_name: Seq<u8>,
    tool_version: Seq<u8>,
    mode: PreludeMode,
) -> Seq<u8> {
    program_text(statements_text(tree), source_name, tool_version, support_for(tree, mode))
}

fn append(out: &mut Vec<u8>, text: &str)
    ensures
        final(out)@ == old(out)@ + text.spec_bytes(),
{
    out.extend_from_slice(text.as_bytes());
}

fn is_text(bytes: &[u8], text: &str) -> (r: bool)
    ensures
        r == (bytes@ == text.spec_bytes()),
{
    bytes_eq(bytes, text.as_bytes())
}

/// Renders a dotted module path as a namespace path.
pub fn namespace_path(module: &[u8]) -> (out: Vec<u8>)
    ensures
        out@ == namespace_text(module@),
{
    let mut out: Vec<u8> = Vec::new();
    let mut i: usize = 0;
    while i < module.len()
        invariant
            0 <= i <= module@.len(),
            out@ == namespace_text(module@.take(i as int)),
        decreases module@.len() - i,
    {
        proof {
            assert(module@.take(i + 1).drop_last() == module@.take(i as int));
        }
        if module[i] == DOT {
            append(&mut out, "::");
        } else {
            out.push(module[i]);
        }
        i += 1;
    }
    proof {
        assert(module@.take(i as int) == module@);
    }
    out
}

/// Joins rendered arguments with a comma and a space.
pub fn join_arguments(args: &Vec<Vec<u8>>) -> (out: Vec<u8>)
    ensures
        out@ == argument_text(args.deep_view()),
{
    let ghost texts = args.deep_view();
    let mut out: Vec<u8> = Vec::new();
    let mut i: usize = 0;
    while i < args.len()
        invariant
            0 <= i <= args.len(),
            texts == args.deep_view(),
            out@ == argument_text(texts.take(i as int)),
        decreases args.len() - i,
    {
        proof {
            assert(texts.take(i + 1).drop_last() == texts.take(i as int));
            assert(texts.take(i + 1).last() == args@[i as int]@);
        }
        if i > 0 {
            append(&mut out, ", ");
        }
        out.extend_from_slice(args[i].as_slice());
        i += 1;
        proof {
            assert(out@ =~= argument_text(texts.take(i as int)));
        }
    }
    proof {
        assert(texts.take(i as int) == texts);
    }
    out
}

fn operator_symbol(operator: BinaryOperator) -> (r: &'static str)
    ensures
        r.spec_bytes() == operator_text(operator),
{
    match operator {
        BinaryOperator::Add => "+",
        BinaryOperator::Sub => "-",
        BinaryOperator::Mul => "*",
        BinaryOperator::Div => "/",
        BinaryOperator::Eq => "==",
        BinaryOperator::Ne => "!=",
        BinaryOperator::Lt => "<",
        BinaryOperator::Le => "<=",
        BinaryOperator::Gt => ">",
        BinaryOperator::Ge => ">=",
        BinaryOperator::And => "&&",
        BinaryOperator::Or => "||",
    }
}

fn is_string_literal_text(text: &[u8]) -> (r: bool)
    ensures
        r == is_string_text(text@),
{
    text.len() > 0 && text[0] == QUOTE
}

/// Renders a binary operation over rendered operands.
pub fn render_binary(left: &[u8], operator: BinaryOperator, right: &[u8]) -> (out: Vec<u8>)
    ensures
        out@ == binary_text(left@, operator, right@),
{
    let mut out: Vec<u8> = Vec::new();
    let concatenation = match operator {
        BinaryOperator::Add => is_string_literal_text(left) || is_string_literal_text(right),
        _ => false,
    };
    if concatenation {
        append(&mut out, "std::string(");
        out.extend_from_slice(left);
        append(&mut out, ") + std::string(");
        out.extend_from_slice(right);
        append(&mut out, ")");
    } else {
        out.extend_from_slice(left);
        append(&mut out, " ");
        append(&mut out, operator_symbol(operator));
        append(&mut out, " ");
        out.extend_from_slice(right);
    }
    out
}

/// Renders a call into a namespace.
pub fn render_call(module: &[u8], function: &[u8], args: &Vec<Vec<u8>>) -> (out: Vec<u8>)
    ensures
        out@ == call_text(module@, function@, args.deep_view()),
{
    let mut out = namespace_path(module);
    append(&mut out, "::");
    out.extend_from_slice(function);
    append(&mut out, "(");
    let joined = join_arguments(args);
    out.extend_from_slice(joined.as_slice());
    append(&mut out, ")");
    out
}

fn render_indirect_call(object: &[u8], method: &[u8], args: &Vec<Vec<u8>>) -> (out: Vec<u8>)
    ensures
        out@ == indirect_call_text(object@, method@, args.deep_view()),
{
    let mut out: Vec<u8> = Vec::new();
    out.extend_from_slice(object);
    append(&mut out, "->");
    out.extend_from_slice(method);
    append(&mut out, "(");
    let joined = join_arguments(args);
    out.extend_from_slice(joined.as_slice());
    append(&mut out, ")");
    out
}

/// Renders an array method on a rendered receiver.
pub fn render_array_method(array: &[u8], method: &[u8], args: &Vec<Vec<u8>>) -> (out: Vec<u8>)
    ensures
        out@ == array_method_text(array@, method@, args.deep_view()),
{
    let mut out: Vec<u8> = Vec::new();
    if is_text(method, "append") {
        out.extend_from_slice(array);
        append(&mut out, ".push_back(");
        let joined = join_arguments(args);
        out.extend_from_slice(joined.as_slice());
        append(&mut out, ")");
        out
    } else if is_text(method, "length") || is_text(method, "size") {
        out.extend_from_slice(array);
        append(&mut out, ".size()");
        out
    } else if is_text(method, "get") || is_text(method, "at") {
        out.extend_from_slice(array);
        append(&mut out, "[");
        let joined = join_arguments(args);
        out.extend_from_slice(joined.as_slice());
        append(&mut out, "]");
        out
    } else if is_text(method, "set") {
        out.extend_from_slice(array);
        if args.len() >= 2 {
            append(&mut out, "[");
            out.extend_from_slice(args[0].as_slice());
            append(&mut out, "] = ");
            out.extend_from_slice(args[1].as_slice());
        } else if args.len() == 1 {
            append(&mut out, "[0] = ");
            out.extend_from_slice(args[0].as_slice());
        } else {
            append(&mut out, "[0] = ");
            append(&mut out, "0");
        }
        out
    } else {
        render_indirect_call(array, method, args)
    }
}

/// Renders a method call on a rendered receiver.
pub fn render_method(object: &[u8], method: &[u8], args: &Vec<Vec<u8>>) -> (out: Vec<u8>)
    ensures
        out@ == method_text(object@, method@, args.deep_view()),
{
    if is_text(method, "to_string") {
        let mut out: Vec<u8> = Vec::new();
        append(&mut out, "std::to_string(");
        out.extend_from_slice(object);
        append(&mut out, ")");
        out
    } else {
        render_indirect_call(object, method, args)
    }
}

proof fn lemma_texts_step(es: Seq<ExpressionView>, i: int)
    requires
        0 <= i < es.len(),
    ensures
        expression_texts(es.take(i + 1)) == expression_texts(es.take(i)).push(
            expression_text(es[i]),
        ),
{
    assert(es.take(i + 1).drop_last() == es.take(i));
}

proof fn lemma_block_step(statements: Seq<StatementView>, indent: Seq<u8>, i: int)
    requires
        0 <= i < statements.len(),
    ensures
        block_text(statements.take(i + 1), indent) == block_text(statements.take(i), indent)
            + statement_text(statements[i], indent),
{
    assert(statements.take(i + 1).drop_last() == statements.take(i));
}

/// Renders each expression, in order.
fn generate_expressions(es: &Vec<Expression>) -> (texts: Vec<Vec<u8>>)
    ensures
        texts.deep_view() == expression_texts(es.deep_view()),
    decreases es,
{
    let ghost views = es.deep_view();
    let mut texts: Vec<Vec<u8>> = Vec::new();
    let mut i: usize = 0;
    assert(texts.deep_view() =~= expression_texts(views.take(0)));
    while i < es.len()
        invariant
            0 <= i <= es.len(),
            views == es.deep_view(),
            texts.deep_view() == expression_texts(views.take(i as int)),
        decreases es.len() - i,
    {
        let ghost before = texts;
        let text = generate_cpp_for_expression(&es[i]);
        texts.push(text);
        proof {
            lemma_texts_step(views, i as int);
            assert(text.deep_view() =~= text@);
            assert(texts.deep_view() =~= before.deep_view().push(text@));
        }
        i += 1;
    }
    proof {
        assert(views.take(i as int) == views);
    }
    texts
}

/// Renders an expression as C++ text. Every expression has a rendering.
pub fn generate_cpp_for_expression(e: &Expression) -> (out: Vec<u8>)
    ensures
        out@ == expression_text(e@),
    decreases e,
{
    proof {
        lemma_expression_children(*e);
    }
    match e {
        Expression::Integer(value) => render_integer(*value),
        Expression::Float(value) => render_decimal(*value),
        Expression::StringLiteral(text) => {
            let mut out: Vec<u8> = Vec::new();
            out.push(QUOTE);
            out.extend_from_slice(text.as_slice());
            out.push(QUOTE);
            out
        },
        Expression::Boolean(value) => {
            let mut out: Vec<u8> = Vec::new();
            if *value {
                append(&mut out, "true");
            } else {
                append(&mut out, "false");
            }
            out
        },
        Expression::Variable(name) => {
            let mut out: Vec<u8> = Vec::new();
            out.extend_from_slice(name.as_slice());
            out
        },
        Expression::BinaryOperation { left, operator, right } => {
            let l = generate_cpp_for_expression(left);
            let r = generate_cpp_for_expression(right);
            render_binary(l.as_slice(), *operator, r.as_slice())
        },
        Expression::FunctionCall { module, function, args } => {
            let texts = generate_expressions(args);
            render_call(module.as_slice(), function.as_slice(), &texts)
        },
        Expression::ArrayLiteral(_) => {
            let mut out: Vec<u8> = Vec::new();
            append(&mut out, "std::vector<int>{}");
            out
        },
        Expression::ArrayAccess { array, index } => {
            let mut out = generate_cpp_for_expression(array);
            append(&mut out, "[");
            let i = generate_cpp_for_expression(index);
            out.extend_from_slice(i.as_slice());
            append(&mut out, "]");
            out
        },
        Expression::ArrayMethodCall { array, method, args } => {
            let a = generate_cpp_for_expression(array);
            let texts = generate_expressions(args);
            render_array_method(a.as_slice(), method.as_slice(), &texts)
        },
        Expression::MethodCall { object, method, args } => {
            let o = generate_cpp_for_expression(object);
            let texts = generate_expressions(args);
            render_method(o.as_slice(), method.as_slice(), &texts)
        },
    }
}

/// Renders the declaration that binds `name` to the value of `expression`.
fn render_binding(name: &[u8], expression: &Expression) -> (out: Vec<u8>)
    ensures
        out@ == binding_text(name@, expression@),
{
    let mut out: Vec<u8> = Vec::new();
    let text = generate_cpp_for_expression(expression);
    match expression {
        Expression::ArrayLiteral(_) => {
            append(&mut out, "std::vector<int> ");
            out.extend_from_slice(name);
            out
        },
        Expression::ArrayMethodCall { method, .. } => {
            if is_text(method.as_slice(), "append") || is_text(method.as_slice(), "set") {
                text
            } else {
                append(&mut out, "auto ");
                out.extend_from_slice(name);
                append(&mut out, " = ");
                out.extend_from_slice(text.as_slice());
                out
            }
        },
        _ => {
            append(&mut out, "auto ");
            out.extend_from_slice(name);
            append(&mut out, " = ");
            out.extend_from_slice(text.as_slice());
            out
        },
    }
}

fn render_line(indent: &[u8], text: &[u8]) -> (out: Vec<u8>)
    ensures
        out@ == line(indent@, text@),
{
    let mut out: Vec<u8> = Vec::new();
    out.extend_from_slice(indent);
    out.extend_from_slice(text);
    append(&mut out, ";\n");
    out
}

fn render_if(
    indent: &[u8],
    condition: &[u8],
    then_block: &[u8],
    else_block: Option<Vec<u8>>,
) -> (out: Vec<u8>)
    ensures
        out@ == if_text(
            indent@,
            condition@,
            then_block@,
            match else_block {
                Some(block) => Some(block@),
                None => None,
            },
        ),
{
    let mut out: Vec<u8> = Vec::new();
    out.extend_from_slice(indent);
    append(&mut out, "if (");
    out.extend_from_slice(condition);
    append(&mut out, ") {\n");
    out.extend_from_slice(then_block);
    out.extend_from_slice(indent);
    append(&mut out, "}");
    match else_block {
        Some(block) => {
            append(&mut out, " else {\n");
            out.extend_from_slice(block.as_slice());
            out.extend_from_slice(indent);
            append(&mut out, "}\n");
        },
        None => {
            append(&mut out, "\n");
        },
    }
    out
}

fn render_while(indent: &[u8], condition: &[u8], body: &[u8]) -> (out: Vec<u8>)
    ensures
        out@ == while_text(indent@, condition@, body@),
{
    let mut out: Vec<u8> = Vec::new();
    out.extend_from_slice(indent);
    append(&mut out, "while (");
    out.extend_from_slice(condition);
    append(&mut out, ") {\n");
    out.extend_from_slice(body);
    out.extend_from_slice(indent);
    append(&mut out, "}\n");
    out
}

fn deeper(indent: &[u8]) -> (inner: Vec<u8>)
    ensures
        inner@ == indent@ + indent_step(),
{
    let mut inner: Vec<u8> = Vec::new();
    inner.extend_from_slice(indent);
    append(&mut inner, "    ");
    inner
}

/// Renders the statements, each at `indent`.
fn render_block(statements: &Vec<Statement>, indent: &[u8]) -> (out: Vec<u8>)
    ensures
        out@ == block_text(statements.deep_view(), indent@),
    decreases statements,
{
    let ghost views = statements.deep_view();
    let mut out: Vec<u8> = Vec::new();
    let mut i: usize = 0;
    while i < statements.len()
        invariant
            0 <= i <= statements.len(),
            views == statements.deep_view(),
            out@ == block_text(views.take(i as int), indent@),
        decreases statements.len() - i,
    {
        let text = render_statement(&statements[i], indent);
        out.extend_from_slice(text.as_slice());
        proof {
            lemma_block_step(views, indent@, i as int);
        }
        i += 1;
    }
    proof {
        assert(views.take(i as int) == views);
    }
    out
}

/// Renders a statement at `indent`.
fn render_statement(s: &Statement, indent: &[u8]) -> (out: Vec<u8>)
    ensures
        out@ == statement_text(s@, indent@),
    decreases s,
{
    proof {
        lemma_statement_children(*s);
    }
    match s {
        Statement::Import(_) => Vec::new(),
        Statement::VariableAssignment { var_name, expression } => {
            let text = render_binding(var_name.as_slice(), expression);
            render_line(indent, text.as_slice())
        },
        Statement::Assignment { variable, value } => {
            let mut text: Vec<u8> = Vec::new();
            text.extend_from_slice(variable.as_slice());
            append(&mut text, " = ");
            let v = generate_cpp_for_expression(value);
            text.extend_from_slice(v.as_slice());
            render_line(indent, text.as_slice())
        },
        Statement::FunctionCall { module, function, args } => {
            let texts = generate_expressions(args);
            let text = render_call(module.as_slice(), function.as_slice(), &texts);
            render_line(indent, text.as_slice())
        },
        Statement::ExpressionStmt { expression } => {
            let text = generate_cpp_for_expression(expression);
            render_line(indent, text.as_slice())
        },
        Statement::ArrayMethodCall { array_var, method, args } => {
            let texts = generate_expressions(args);
            let text = render_array_method(array_var.as_slice(), method.as_slice(), &texts);
            render_line(indent, text.as_slice())
        },
        Statement::If { condition, then_branch, else_branch } => {
            let inner = deeper(indent);
            let c = generate_cpp_for_expression(condition);
            let then_block = render_block(then_branch, inner.as_slice());
            let else_block = match else_branch {
                Some(statements) => Some(render_block(statements, inner.as_slice())),
                None => None,
            };
            render_if(indent, c.as_slice(), then_block.as_slice(), else_block)
        },
        Statement::While { condition, body } => {
            let inner = deeper(indent);
            let c = generate_cpp_for_expression(condition);
            let block = render_block(body, inner.as_slice());
            render_while(indent, c.as_slice(), block.as_slice())
        },
    }
}

/// Renders the statements of a program as they stand in the entry point: one
/// after another, each indented by one step. Every tree has a rendering.
pub fn generate_cpp_from_statements(statements: &Vec<Statement>) -> (out: Vec<u8>)
    ensures
        out@ == statements_text(statements.deep_view()),
{
    render_block(statements, "    ".as_bytes())
}

/// Generates the whole program for a syntax tree: the header that names the
/// source file and the tool version, the runtime support as `mode` asks for
/// it, and the entry point that runs the statements of the program.
pub fn generate_with_prelude(
    tree: &Vec<Statement>,
    source_name: &str,
    tool_version: &str,
    mode: PreludeMode,
) -> (out: Vec<u8>)
    ensures
        out@ == generated_text(
            tree.deep_view(),
            source_name.spec_bytes(),
            tool_version.spec_bytes(),
            mode,
        ),
{
    let support = match mode {
        PreludeMode::Full => Support::full(),
        PreludeMode::Pruned => find_support(tree),
    };
    let body = generate_cpp_from_statements(tree);
    wrap_program(body.as_slice(), source_name.as_bytes(), tool_version.as_bytes(), support)
}

/// Generates the whole program for a syntax tree, with all of the runtime
/// support, whatever the program calls.
pub fn generate(tree: &Vec<Statement>, source_name: &str, tool_version: &str) -> (out: Vec<u8>)
    ensures
        out@ == generated_text(
            tree.deep_view(),
            source_name.spec_bytes(),
            tool_version.spec_bytes(),
            PreludeMode::Full,
        ),
{
    generate_with_prelude(tree, source_name, tool_version, PreludeMode::Full)
}

} // verus!
