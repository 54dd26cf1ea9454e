use nymyac::bytes::{
    byte_is_digit, byte_is_lowercase, byte_is_space, byte_is_word, byte_is_word_start, bytes_eq,
    ByteClass,
};
use nymyac::classify::{array_method, known_module, name_starts_lowercase};
use nymyac::codegen::{
    join_arguments, namespace_path, render_array_method, render_binary, render_call, render_method,
};
use nymyac::number::{push_digits, render_decimal, render_integer};
use nymyac::runtime::{render_support, wrap_program, Support};
use nymyac::usage::{expression_calls_into, find_support};
use nymyac::{BinaryOperator, Decimal, Delimiter, Expression, Keyword, Operator, Statement, Token};

fn b(s: &str) -> Vec<u8> {
    s.as_bytes().to_vec()
}

#[test]
fn byte_classes() {
    for c in 0..=255u8 {
        assert_eq!(byte_is_digit(c), c.is_ascii_digit());
        assert_eq!(byte_is_lowercase(c), c.is_ascii_lowercase());
        assert_eq!(byte_is_word_start(c), c.is_ascii_alphabetic() || c == b'_');
        assert_eq!(byte_is_word(c), c.is_ascii_alphanumeric() || c == b'_');
        assert_eq!(byte_is_space(c), c == b' ' || c == b'\t' || c == b'\n' || c == b'\r');
        assert_eq!(ByteClass::Digit.contains(c), c.is_ascii_digit());
        assert_eq!(ByteClass::Word.contains(c), c.is_ascii_alphanumeric() || c == b'_');
        assert_eq!(ByteClass::WithinLine.contains(c), c != b'\n');
        assert_eq!(ByteClass::Until(b'"').contains(c), c != b'"');
    }
}

#[test]
fn byte_string_equality() {
    assert!(bytes_eq(b"", b""));
    assert!(bytes_eq(b"abc", b"abc"));
    assert!(!bytes_eq(b"abc", b"abd"));
    assert!(!bytes_eq(b"abc", b"ab"));
    assert!(!bytes_eq(b"", b"a"));
}

#[test]
fn name_tables() {
    assert!(known_module(b"crystal"));
    assert!(known_module(b"gui"));
    assert!(!known_module(b"Crystal"));
    assert!(!known_module(b"crystals"));
    assert!(!known_module(b""));
    assert!(array_method(b"append"));
    assert!(array_method(b"at"));
    assert!(!array_method(b"push"));
    assert!(!array_method(b"Append"));
    assert!(name_starts_lowercase(b"x"));
    assert!(!name_starts_lowercase(b"X"));
    assert!(!name_starts_lowercase(b"_x"));
    assert!(!name_starts_lowercase(b""));
}

#[test]
fn token_kinds() {
    let dot = Token::Delimiter(Delimiter::Dot);
    assert!(dot.is_delimiter(Delimiter::Dot));
    assert!(!dot.is_delimiter(Delimiter::Comma));
    assert!(!dot.is_operator(Operator::Plus));
    assert!(!dot.is_keyword(Keyword::If));
    assert!(Token::Operator(Operator::Plus).is_operator(Operator::Plus));
    assert!(!Token::Operator(Operator::Plus).is_operator(Operator::Minus));
    assert!(Token::Keyword(Keyword::Else).is_keyword(Keyword::Else));
    assert!(!Token::Identifier(b("else")).is_keyword(Keyword::Else));
    assert!(!Token::EndOfInput.is_delimiter(Delimiter::Dot));
}

#[test]
fn namespace_paths() {
    assert_eq!(namespace_path(b"math"), b("math"));
    assert_eq!(namespace_path(b"a.b"), b("a::b"));
    assert_eq!(namespace_path(b"a.b.c"), b("a::b::c"));
    assert_eq!(namespace_path(b"."), b("::"));
    assert_eq!(namespace_path(b""), b(""));
}

#[test]
fn joined_arguments() {
    assert_eq!(join_arguments(&vec![]), b(""));
    assert_eq!(join_arguments(&vec![b("1")]), b("1"));
    assert_eq!(join_arguments(&vec![b("1"), b("x"), b("\"s\"")]), b("1, x, \"s\""));
    assert_eq!(join_arguments(&vec![b(""), b("")]), b(", "));
}

#[test]
fn rendered_pieces() {
    assert_eq!(render_binary(b"a", BinaryOperator::Mul, b"b"), b("a * b"));
    assert_eq!(render_binary(b"", BinaryOperator::Add, b""), b(" + "));
    assert_eq!(
        render_binary(b"\"a\"", BinaryOperator::Add, b"1"),
        b("std::string(\"a\") + std::string(1)")
    );
    assert_eq!(render_call(b"a.b", b"f", &vec![b("1"), b("2")]), b("a::b::f(1, 2)"));
    assert_eq!(render_array_method(b"v", b"append", &vec![b("1")]), b("v.push_back(1)"));
    assert_eq!(render_array_method(b"v", b"other", &vec![b("1")]), b("v->other(1)"));
    assert_eq!(render_method(b"v", b"to_string", &vec![b("1")]), b("std::to_string(v)"));
    assert_eq!(render_method(b"v", b"show", &vec![]), b("v->show()"));
}

#[test]
fn rendered_numbers() {
    let mut out = b("n=");
    push_digits(&mut out, 0);
    push_digits(&mut out, 9);
    push_digits(&mut out, 10);
    push_digits(&mut out, u64::MAX);
    assert_eq!(out, b("n=091018446744073709551615"));
    assert_eq!(render_integer(-1), b("-1"));
    assert_eq!(render_integer(1000), b("1000"));
    assert_eq!(render_decimal(Decimal { mantissa: 1, scale: 1 }), b("0.1"));
    assert_eq!(render_decimal(Decimal { mantissa: 10, scale: 1 }), b("1.0"));
    assert_eq!(render_decimal(Decimal { mantissa: 100, scale: 0 }), b("100.0"));
}

#[test]
fn runtime_support_pieces() {
    let none = Support { math: false, crystal: false, symbolic: false };
    let includes = String::from_utf8(render_support(none)).unwrap();
    assert_eq!(
        includes,
        "#include <iostream>\n#include <string>\n#include <vector>\n#include <cmath>\n#include <fstream>\n\n"
    );
    let all = String::from_utf8(render_support(Support::full())).unwrap();
    assert!(all.starts_with(&includes));
    let math = all.find("// Math utilities\nnamespace math {").unwrap();
    let crystal = all.find("// Crystal utilities (console output and file operations)\nnamespace crystal {").unwrap();
    let symbolic = all.find("// Symbolic mathematics namespace\nnamespace symbolic {").unwrap();
    assert!(math < crystal && crystal < symbolic);
    assert!(all.ends_with("}\n\n"));
    let only_math = Support { math: true, crystal: false, symbolic: false };
    let text = String::from_utf8(render_support(only_math)).unwrap();
    assert_eq!(text, all[..crystal]);
    let program = String::from_utf8(wrap_program(b"BODY", b"NAME", b"VERSION", none)).unwrap();
    assert_eq!(
        program,
        "/*\n * NymyaLang to C++ generated code (version VERSION)\n * Auto-generated from NAME\n */\n\n\
         #include <iostream>\n#include <string>\n#include <vector>\n#include <cmath>\n#include <fstream>\n\n\
         int main() {\n    try {\n        // Runtime initialization message (optional)\n        \
         // crystal::manifest(\"NymyaLang runtime VERSION initialized\");\n        \
         // crystal::manifest(\"Compiled from: NAME\");\n\n        // Actual program execution\nBODY\n\n        \
         // Program completion message\n        // crystal::manifest(\"Program execution completed\");\n    \
         } catch (const std::exception& e) {\n        std::cerr << \"Runtime error: \" << e.what() << std::endl;\n        \
         return 1;\n    }\n    return 0;\n}\n"
    );
}

#[test]
fn calls_into_modules() {
    let call = Expression::FunctionCall { module: b("math.deep"), function: b("f"), args: vec![] };
    assert!(expression_calls_into(&call, b"math"));
    assert!(!expression_calls_into(&call, b"math.deep"));
    assert!(!expression_calls_into(&call, b"deep"));
    assert!(!expression_calls_into(&Expression::Variable(b("math")), b"math"));
    let nested = Expression::ArrayLiteral(vec![Expression::MethodCall {
        object: Box::new(Expression::Variable(b("x"))),
        method: b("m"),
        args: vec![Expression::Integer(1), call],
    }]);
    assert!(expression_calls_into(&nested, b"math"));
    assert!(!expression_calls_into(&nested, b"crystal"));
    let tree = vec![Statement::ExpressionStmt { expression: nested }];
    assert_eq!(find_support(&tree), Support { math: true, crystal: false, symbolic: false });
    assert_eq!(find_support(&Vec::new()), Support { math: false, crystal: false, symbolic: false });
}
