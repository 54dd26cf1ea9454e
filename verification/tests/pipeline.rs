use nymyac::{generate, generate_target, parse, tokenize, ParseError, ParseErrorKind};

#[test]
fn target_is_tokenize_parse_generate() {
    let source = "import math\nvar x = []\nx.append(5)\ncrystal.manifest(\"done\")\n";
    let tree = parse(&tokenize(source)).unwrap();
    assert_eq!(generate_target("a.nym", source, "0.2.0"), Ok(generate(&tree, "a.nym", "0.2.0")));
}

#[test]
fn target_holds_the_statements() {
    let text = generate_target("a.nym", "var x = []\nx.append(5)", "9.9").unwrap();
    let text = String::from_utf8(text).unwrap();
    assert!(text.contains("    std::vector<int> x;\n    x.push_back(5);\n"));
    assert!(text.contains("(version 9.9)"));
    assert!(text.contains("Auto-generated from a.nym"));
}

#[test]
fn dangling_operator_produces_no_text() {
    assert_eq!(
        generate_target("a.nym", "+", "0.2.0"),
        Err(ParseError { kind: ParseErrorKind::UnexpectedToken, position: 0 })
    );
    assert_eq!(
        generate_target("a.nym", "crystal.manifest(\"ok\")\n* 2", "0.2.0"),
        Err(ParseError { kind: ParseErrorKind::UnexpectedToken, position: 6 })
    );
}

#[test]
fn missing_delimiter_produces_no_text() {
    assert_eq!(
        generate_target("a.nym", "crystal.manifest(\"ok\"", "0.2.0"),
        Err(ParseError { kind: ParseErrorKind::ExpectedRightParen, position: 5 })
    );
}

#[test]
fn same_source_gives_the_same_text() {
    let source = "@tag var n = list.length\nwhile (n) { n = n + 1 }";
    assert_eq!(generate_target("s.nym", source, "1"), generate_target("s.nym", source, "1"));
}

#[test]
fn reference_reads_alike_as_statement_and_expression() {
    for source in [
        "crystal.manifest(\"hi\")",
        "math.sub.function(1, 2)",
        "list.append(5)",
        "list.length",
        "window.show(a, b)",
        "Window.size",
        "gui.at(1)",
    ] {
        let tokens = tokenize(source);
        let tree = parse(&tokens).unwrap();
        let (expression, next) = nymyac::parse_expression(&tokens, 0).unwrap();
        assert_eq!(next, tokens.len() - 1);
        let statement_text = nymyac::generate_cpp_from_statements(&tree);
        let mut expected = b"    ".to_vec();
        expected.extend_from_slice(&nymyac::generate_cpp_for_expression(&expression));
        expected.extend_from_slice(b";\n");
        assert_eq!(statement_text, expected, "{}", source);
    }
}

#[test]
fn cursor_only_moves_forward() {
    let tokens = tokenize("a.b(c[0], d.e + 1).f + g math.h.i(j)");
    let mut pos = 0;
    let mut ends = Vec::new();
    while pos + 1 < tokens.len() {
        let (_, next) = nymyac::parse_expression(&tokens, pos).unwrap();
        assert!(next > pos && next < tokens.len());
        ends.push(next);
        pos = next;
    }
    assert_eq!(ends, vec![19, 27]);
}
