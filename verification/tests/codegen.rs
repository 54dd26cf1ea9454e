use nymyac::{
    generate, generate_cpp_for_expression, generate_cpp_from_statements, parse, tokenize,
    BinaryOperator, Decimal, Expression, Statement,
};

fn b(s: &str) -> Vec<u8> {
    s.as_bytes().to_vec()
}

fn var(name: &str) -> Expression {
    Expression::Variable(b(name))
}

fn string(s: &str) -> Expression {
    Expression::StringLiteral(b(s))
}

fn integer(v: i64) -> Expression {
    Expression::Integer(v)
}

fn expr_text(e: &Expression) -> String {
    String::from_utf8(generate_cpp_for_expression(e)).unwrap()
}

fn body_text(statements: &Vec<Statement>) -> String {
    String::from_utf8(generate_cpp_from_statements(statements)).unwrap()
}

fn transpile(source: &str) -> String {
    body_text(&parse(&tokenize(source)).unwrap())
}

fn array_call(method: &str, args: Vec<Expression>) -> Expression {
    Expression::ArrayMethodCall { array: Box::new(var("list")), method: b(method), args }
}

#[test]
fn manifest_call_renders_its_literal_unchanged() {
    assert_eq!(transpile("crystal.manifest(\"hi\")"), "    crystal::manifest(\"hi\");\n");
    assert_eq!(transpile("crystal.manifest('hi')"), "    crystal::manifest(\"hi\");\n");
}

#[test]
fn nested_namespace_call_uses_the_separator_throughout() {
    assert_eq!(transpile("math.sub.function(1, 2)"), "    math::sub::function(1, 2);\n");
    assert_eq!(
        transpile("var m = symbolic.numerology.get_meaning(7)"),
        "    auto m = symbolic::numerology::get_meaning(7);\n"
    );
}

#[test]
fn module_path_with_any_number_of_segments() {
    let e = Expression::FunctionCall { module: b("a.b.c.d"), function: b("f"), args: vec![] };
    assert_eq!(expr_text(&e), "a::b::c::d::f()");
    let e = Expression::FunctionCall { module: b(""), function: b("f"), args: vec![integer(1)] };
    assert_eq!(expr_text(&e), "::f(1)");
}

#[test]
fn empty_array_binding_then_append() {
    assert_eq!(
        transpile("var x = []\nx.append(5)"),
        "    std::vector<int> x;\n    x.push_back(5);\n"
    );
}

#[test]
fn array_methods_follow_the_table() {
    assert_eq!(transpile("list.append(7)"), "    list.push_back(7);\n");
    assert_eq!(transpile("list.length()"), "    list.size();\n");
    assert_eq!(transpile("list.size"), "    list.size();\n");
    assert_eq!(transpile("list.get(2)"), "    list[2];\n");
    assert_eq!(transpile("list.at(i)"), "    list[i];\n");
    assert_eq!(transpile("list.set(2, 9)"), "    list[2] = 9;\n");
}

#[test]
fn array_method_expressions_follow_the_table() {
    assert_eq!(expr_text(&array_call("append", vec![integer(1), integer(2)])), "list.push_back(1, 2)");
    assert_eq!(expr_text(&array_call("length", vec![integer(1)])), "list.size()");
    assert_eq!(expr_text(&array_call("size", vec![])), "list.size()");
    assert_eq!(expr_text(&array_call("get", vec![integer(3)])), "list[3]");
    assert_eq!(expr_text(&array_call("at", vec![var("i")])), "list[i]");
    assert_eq!(expr_text(&array_call("set", vec![integer(1), string("v"), integer(5)])), "list[1] = \"v\"");
}

#[test]
fn set_with_fewer_than_two_arguments_writes_at_zero() {
    assert_eq!(expr_text(&array_call("set", vec![integer(8)])), "list[0] = 8");
    assert_eq!(expr_text(&array_call("set", vec![])), "list[0] = 0");
    assert_eq!(transpile("list.set(8)"), "    list[0] = 8;\n");
}

#[test]
fn unknown_array_method_is_called_through_the_receiver() {
    assert_eq!(expr_text(&array_call("reverse", vec![integer(1)])), "list->reverse(1)");
    let s = Statement::ArrayMethodCall { array_var: b("list"), method: b("clear"), args: vec![] };
    assert_eq!(body_text(&vec![s]), "    list->clear();\n");
}

#[test]
fn integer_renders_without_a_fraction() {
    assert_eq!(expr_text(&integer(42)), "42");
    assert_eq!(expr_text(&integer(0)), "0");
    assert_eq!(expr_text(&integer(-17)), "-17");
    assert_eq!(expr_text(&integer(i64::MAX)), "9223372036854775807");
    assert_eq!(expr_text(&integer(i64::MIN)), "-9223372036854775808");
    assert_eq!(transpile("var n = 42"), "    auto n = 42;\n");
}

#[test]
fn float_renders_with_a_fraction() {
    let f = |mantissa: u64, scale: usize| expr_text(&Expression::Float(Decimal { mantissa, scale }));
    assert_eq!(f(35, 1), "3.5");
    assert_eq!(f(3, 0), "3.0");
    assert_eq!(f(0, 0), "0.0");
    assert_eq!(f(125, 3), "0.125");
    assert_eq!(f(5, 3), "0.005");
    assert_eq!(f(12345, 2), "123.45");
    assert_eq!(f(50, 1), "5.0");
    assert_eq!(f(0, 2), "0.00");
    assert_eq!(f(u64::MAX, 0), "18446744073709551615.0");
    assert_eq!(f(u64::MAX, 20), "0.18446744073709551615");
}

#[test]
fn numeric_literals_round_trip() {
    assert_eq!(transpile("var a = 42"), "    auto a = 42;\n");
    assert_eq!(transpile("var a = 3.5"), "    auto a = 3.5;\n");
    assert_eq!(transpile("var a = 3.0"), "    auto a = 3.0;\n");
    assert_eq!(transpile("var a = 3."), "    auto a = 3.0;\n");
    assert_eq!(transpile("var a = 03.50"), "    auto a = 3.5;\n");
    assert_eq!(transpile("var a = 0.25"), "    auto a = 0.25;\n");
}

#[test]
fn literals_and_variables() {
    assert_eq!(expr_text(&string("a b")), "\"a b\"");
    assert_eq!(expr_text(&string("")), "\"\"");
    assert_eq!(expr_text(&Expression::Boolean(true)), "true");
    assert_eq!(expr_text(&Expression::Boolean(false)), "false");
    assert_eq!(expr_text(&var("count")), "count");
    assert_eq!(expr_text(&Expression::ArrayLiteral(vec![])), "std::vector<int>{}");
    assert_eq!(expr_text(&Expression::ArrayLiteral(vec![integer(1)])), "std::vector<int>{}");
}

#[test]
fn array_access_renders_with_brackets() {
    let e = Expression::ArrayAccess { array: Box::new(var("a")), index: Box::new(integer(3)) };
    assert_eq!(expr_text(&e), "a[3]");
    assert_eq!(transpile("var v = a[i + 1]"), "    auto v = a[i + 1];\n");
}

fn binary(left: Expression, operator: BinaryOperator, right: Expression) -> Expression {
    Expression::BinaryOperation { left: Box::new(left), operator, right: Box::new(right) }
}

#[test]
fn addition_of_numbers_is_plain() {
    assert_eq!(expr_text(&binary(var("a"), BinaryOperator::Add, integer(1))), "a + 1");
    assert_eq!(transpile("var s = a + b + c"), "    auto s = a + b + c;\n");
}

#[test]
fn addition_with_a_string_literal_makes_both_strings() {
    assert_eq!(
        expr_text(&binary(string("n: "), BinaryOperator::Add, var("n"))),
        "std::string(\"n: \") + std::string(n)"
    );
    assert_eq!(
        expr_text(&binary(var("n"), BinaryOperator::Add, string("!"))),
        "std::string(n) + std::string(\"!\")"
    );
    assert_eq!(
        expr_text(&binary(string("a"), BinaryOperator::Add, string("b"))),
        "std::string(\"a\") + std::string(\"b\")"
    );
    assert_eq!(
        transpile("crystal.manifest(\"x = \" + x.to_string())"),
        "    crystal::manifest(std::string(\"x = \") + std::string(std::to_string(x)));\n"
    );
}

#[test]
fn every_operator_has_a_symbol() {
    let cases = [
        (BinaryOperator::Add, "a + b"),
        (BinaryOperator::Sub, "a - b"),
        (BinaryOperator::Mul, "a * b"),
        (BinaryOperator::Div, "a / b"),
        (BinaryOperator::Eq, "a == b"),
        (BinaryOperator::Ne, "a != b"),
        (BinaryOperator::Lt, "a < b"),
        (BinaryOperator::Le, "a <= b"),
        (BinaryOperator::Gt, "a > b"),
        (BinaryOperator::Ge, "a >= b"),
        (BinaryOperator::And, "a && b"),
        (BinaryOperator::Or, "a || b"),
    ];
    for (operator, expected) in cases {
        assert_eq!(expr_text(&binary(var("a"), operator, var("b"))), expected);
    }
    assert_eq!(
        expr_text(&binary(string("a"), BinaryOperator::Eq, var("b"))),
        "\"a\" == b"
    );
}

#[test]
fn method_calls_go_through_the_receiver() {
    assert_eq!(transpile("window.show(1, \"x\")"), "    window->show(1, \"x\");\n");
    assert_eq!(transpile("var t = n.to_string()"), "    auto t = std::to_string(n);\n");
    assert_eq!(transpile("var t = items[0].name"), "    auto t = items[0]->name();\n");
}

#[test]
fn bindings() {
    assert_eq!(transpile("var n = list.length"), "    auto n = list.size();\n");
    assert_eq!(transpile("var v = list.get(0)"), "    auto v = list[0];\n");
    assert_eq!(transpile("var r = list.append(1)"), "    list.push_back(1);\n");
    assert_eq!(transpile("var r = list.set(0, 1)"), "    list[0] = 1;\n");
    assert_eq!(transpile("var r = math.sqrt(2)"), "    auto r = math::sqrt(2);\n");
    assert_eq!(transpile("var s = \"text\""), "    auto s = \"text\";\n");
    assert_eq!(transpile("var ok = true"), "    auto ok = true;\n");
}

#[test]
fn assignment_and_import() {
    assert_eq!(transpile("x = x + 1"), "    x = x + 1;\n");
    assert_eq!(transpile("import math"), "");
    assert_eq!(transpile("import math\nx = 1\nimport gui"), "    x = 1;\n");
    assert_eq!(transpile(""), "");
}

#[test]
fn conditional_renders_its_branches_one_step_deeper() {
    assert_eq!(
        transpile("if (ready) { x = 1 crystal.print(\"a\") }"),
        "    if (ready) {\n        x = 1;\n        crystal::print(\"a\");\n    }\n"
    );
    assert_eq!(
        transpile("if (ready) x = 1 else { x = 2 }"),
        "    if (ready) {\n        x = 1;\n    } else {\n        x = 2;\n    }\n"
    );
    assert_eq!(transpile("if (ready) { }"), "    if (ready) {\n    }\n");
}

#[test]
fn loop_renders_its_body_one_step_deeper() {
    assert_eq!(
        transpile("while (queue.length) { if (flag) { queue.append(1) } }"),
        "    while (queue.size()) {\n        if (flag) {\n            queue.push_back(1);\n        }\n    }\n"
    );
}

#[test]
fn whole_program_layout() {
    let tree = parse(&tokenize("crystal.manifest(\"hi\")")).unwrap();
    let text = String::from_utf8(generate(&tree, "demo.nym", "0.2.0")).unwrap();
    assert!(text.starts_with(
        "/*\n * NymyaLang to C++ generated code (version 0.2.0)\n * Auto-generated from demo.nym\n */\n\n#include <iostream>\n"
    ));
    assert!(text.ends_with(
        "    } catch (const std::exception& e) {\n        std::cerr << \"Runtime error: \" << e.what() << std::endl;\n        return 1;\n    }\n    return 0;\n}\n"
    ));
    let order = [
        "namespace math {",
        "long long pow_int(long long base, long long exp)",
        "long long gcd(long long a, long long b)",
        "namespace crystal {",
        "void manifest(const std::string& msg)",
        "namespace file {",
        "namespace symbolic {",
        "int main() {\n    try {\n",
        "// crystal::manifest(\"NymyaLang runtime 0.2.0 initialized\");",
        "// crystal::manifest(\"Compiled from: demo.nym\");",
        "        // Actual program execution\n    crystal::manifest(\"hi\");\n\n\n        // Program completion message\n",
    ];
    let mut from = 0;
    for piece in order {
        let at = text[from..].find(piece);
        assert!(at.is_some(), "missing or out of order: {}", piece);
        from += at.unwrap() + piece.len();
    }
}

#[test]
fn prelude_is_emitted_for_an_empty_program() {
    let text = String::from_utf8(generate(&Vec::new(), "empty.nym", "1")).unwrap();
    assert!(text.contains("namespace math {"));
    assert!(text.contains("namespace crystal {"));
    assert!(text.contains("namespace symbolic {"));
    assert!(text.contains("        // Actual program execution\n\n\n        // Program completion message\n"));
    assert_eq!(text.matches("int main()").count(), 1);
}

fn pruned(source: &str) -> String {
    let tree = parse(&tokenize(source)).unwrap();
    String::from_utf8(nymyac::generate_with_prelude(&tree, "p.nym", "1", nymyac::PreludeMode::Pruned))
        .unwrap()
}

fn namespaces(text: &str) -> (bool, bool, bool) {
    (
        text.contains("namespace math {"),
        text.contains("namespace crystal {"),
        text.contains("namespace symbolic {"),
    )
}

#[test]
fn full_prelude_is_what_generate_emits() {
    let tree = parse(&tokenize("var x = 1")).unwrap();
    assert_eq!(
        nymyac::generate_with_prelude(&tree, "p.nym", "1", nymyac::PreludeMode::Full),
        generate(&tree, "p.nym", "1")
    );
    let text = String::from_utf8(generate(&tree, "p.nym", "1")).unwrap();
    assert_eq!(namespaces(&text), (true, true, true));
}

#[test]
fn pruned_prelude_holds_only_what_is_called() {
    assert_eq!(namespaces(&pruned("")), (false, false, false));
    assert_eq!(namespaces(&pruned("var x = 1\nx.append(2)")), (false, false, false));
    assert_eq!(namespaces(&pruned("crystal.manifest(\"hi\")")), (false, true, false));
    assert_eq!(namespaces(&pruned("var r = math.sqrt(2)")), (true, false, false));
    assert_eq!(
        namespaces(&pruned("var m = symbolic.numerology.get_meaning(7)")),
        (false, false, true)
    );
    assert_eq!(
        namespaces(&pruned("crystal.manifest(math.pow_int(2, 8).to_string())")),
        (true, true, false)
    );
}

#[test]
fn pruned_prelude_sees_calls_at_any_depth() {
    assert_eq!(
        namespaces(&pruned("while (ready) { if (flag) { } else { list.set(0, items[math.abs(i)]) } }")),
        (true, false, false)
    );
    assert_eq!(
        namespaces(&pruned("if (crystal.file.dalan_aya(\"f\")) total = 1 + 2 + symbolic.x")),
        (false, true, true)
    );
}

#[test]
fn pruned_prelude_goes_by_the_first_segment_only() {
    assert_eq!(namespaces(&pruned("import math")), (false, false, false));
    assert_eq!(namespaces(&pruned("gui.math.show()")), (false, false, false));
    assert_eq!(namespaces(&pruned("window.math(crystal)")), (false, false, false));
    let tree = vec![Statement::FunctionCall { module: b("mathematics"), function: b("f"), args: vec![] }];
    let text = String::from_utf8(nymyac::generate_with_prelude(&tree, "p", "1", nymyac::PreludeMode::Pruned))
        .unwrap();
    assert_eq!(namespaces(&text), (false, false, false));
}

#[test]
fn pruned_prelude_keeps_the_headers_and_the_entry_point() {
    let text = pruned("var x = 1");
    assert!(text.starts_with("/*\n * NymyaLang to C++ generated code (version 1)\n * Auto-generated from p.nym\n */\n\n#include <iostream>\n#include <string>\n#include <vector>\n#include <cmath>\n#include <fstream>\n\nint main() {\n"));
    assert!(text.contains("        // Actual program execution\n    auto x = 1;\n\n\n"));
}
