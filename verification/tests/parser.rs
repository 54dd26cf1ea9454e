use nymyac::{
    classify_reference, parse, parse_expression, tokenize, BinaryOperator, Decimal, Expression,
    ParseError, ParseErrorKind, ReferenceKind, Statement, Token,
};

fn b(s: &str) -> Vec<u8> {
    s.as_bytes().to_vec()
}

fn var(name: &str) -> Expression {
    Expression::Variable(b(name))
}

fn string(s: &str) -> Expression {
    Expression::StringLiteral(b(s))
}

fn parse_source(source: &str) -> Result<Vec<Statement>, ParseError> {
    parse(&tokenize(source))
}

fn parse_one_expression(source: &str) -> Expression {
    let tokens = tokenize(source);
    let (e, next) = parse_expression(&tokens, 0).unwrap();
    assert_eq!(next, tokens.len() - 1);
    e
}

fn failure(source: &str) -> ParseError {
    parse_source(source).unwrap_err()
}

#[test]
fn empty_program() {
    assert_eq!(parse_source(""), Ok(vec![]));
    assert_eq!(parse_source("// nothing\n"), Ok(vec![]));
    assert_eq!(parse(&Vec::new()), Ok(vec![]));
}

#[test]
fn manifest_call_is_a_module_call_with_one_literal_argument() {
    assert_eq!(
        parse_source("crystal.manifest(\"hi\")"),
        Ok(vec![Statement::FunctionCall {
            module: b("crystal"),
            function: b("manifest"),
            args: vec![string("hi")],
        }])
    );
}

#[test]
fn import_names_the_next_identifier() {
    assert_eq!(parse_source("import math"), Ok(vec![Statement::Import(b("math"))]));
    assert_eq!(
        parse_source("import math\nimport crystal"),
        Ok(vec![Statement::Import(b("math")), Statement::Import(b("crystal"))])
    );
}

#[test]
fn import_without_a_name_fails() {
    assert_eq!(failure("import"), ParseError { kind: ParseErrorKind::ExpectedIdentifier, position: 1 });
    assert_eq!(failure("import 5"), ParseError { kind: ParseErrorKind::ExpectedIdentifier, position: 1 });
}

#[test]
fn binding_of_an_empty_array() {
    assert_eq!(
        parse_source("var x = []"),
        Ok(vec![Statement::VariableAssignment {
            var_name: b("x"),
            expression: Expression::ArrayLiteral(vec![]),
        }])
    );
}

#[test]
fn binding_with_let() {
    assert_eq!(
        parse_source("let n = 42"),
        Ok(vec![Statement::VariableAssignment { var_name: b("n"), expression: Expression::Integer(42) }])
    );
}

#[test]
fn binding_failures() {
    assert_eq!(failure("var"), ParseError { kind: ParseErrorKind::ExpectedIdentifier, position: 1 });
    assert_eq!(failure("var x"), ParseError { kind: ParseErrorKind::ExpectedAssign, position: 2 });
    assert_eq!(failure("var x 5"), ParseError { kind: ParseErrorKind::ExpectedAssign, position: 2 });
    assert_eq!(failure("var x ="), ParseError { kind: ParseErrorKind::ExpectedExpression, position: 3 });
    assert_eq!(failure("var x = )"), ParseError { kind: ParseErrorKind::ExpectedExpression, position: 3 });
}

#[test]
fn array_append_statement() {
    assert_eq!(
        parse_source("var x = []\nx.append(5)"),
        Ok(vec![
            Statement::VariableAssignment {
                var_name: b("x"),
                expression: Expression::ArrayLiteral(vec![]),
            },
            Statement::ArrayMethodCall {
                array_var: b("x"),
                method: b("append"),
                args: vec![Expression::Integer(5)],
            },
        ])
    );
}

#[test]
fn nested_namespace_call() {
    assert_eq!(
        parse_source("graphics.stl_basic.draw(1, 2)"),
        Ok(vec![Statement::FunctionCall {
            module: b("graphics.stl_basic"),
            function: b("draw"),
            args: vec![Expression::Integer(1), Expression::Integer(2)],
        }])
    );
}

#[test]
fn three_segments_behind_a_variable_are_no_namespace() {
    assert_eq!(
        failure("thing.part.run()"),
        ParseError { kind: ParseErrorKind::UnexpectedToken, position: 3 }
    );
}

#[test]
fn method_call_on_a_variable_is_an_expression_statement() {
    assert_eq!(
        parse_source("window.show(1)"),
        Ok(vec![Statement::ExpressionStmt {
            expression: Expression::MethodCall {
                object: Box::new(var("window")),
                method: b("show"),
                args: vec![Expression::Integer(1)],
            },
        }])
    );
    assert_eq!(
        parse_source("Window.show"),
        Ok(vec![Statement::ExpressionStmt {
            expression: Expression::MethodCall {
                object: Box::new(var("Window")),
                method: b("show"),
                args: vec![],
            },
        }])
    );
}

#[test]
fn array_method_names_on_a_module_are_module_calls() {
    assert_eq!(
        parse_source("math.size()"),
        Ok(vec![Statement::FunctionCall { module: b("math"), function: b("size"), args: vec![] }])
    );
}

#[test]
fn array_method_on_an_uppercase_name_is_a_method_call() {
    assert_eq!(
        parse_source("List.append(1)"),
        Ok(vec![Statement::ExpressionStmt {
            expression: Expression::MethodCall {
                object: Box::new(var("List")),
                method: b("append"),
                args: vec![Expression::Integer(1)],
            },
        }])
    );
}

#[test]
fn reference_classification_order() {
    let x: &[u8] = b"x";
    let append: &[u8] = b"append";
    let math: &[u8] = b"math";
    let sqrt: &[u8] = b"sqrt";
    let upper: &[u8] = b"Items";
    let other: &[u8] = b"other";
    assert_eq!(classify_reference(&[]), ReferenceKind::Variable);
    assert_eq!(classify_reference(&[x]), ReferenceKind::Variable);
    assert_eq!(classify_reference(&[math]), ReferenceKind::Variable);
    assert_eq!(classify_reference(&[x, append]), ReferenceKind::ArraySugar);
    assert_eq!(classify_reference(&[x, sqrt]), ReferenceKind::GenericMethod);
    assert_eq!(classify_reference(&[upper, append]), ReferenceKind::GenericMethod);
    assert_eq!(classify_reference(&[math, sqrt]), ReferenceKind::ModuleCall);
    assert_eq!(classify_reference(&[math, append]), ReferenceKind::ModuleCall);
    assert_eq!(classify_reference(&[math, other, sqrt]), ReferenceKind::NestedModuleCall);
    assert_eq!(classify_reference(&[math, append, sqrt]), ReferenceKind::NestedModuleCall);
    assert_eq!(classify_reference(&[x, append, sqrt]), ReferenceKind::ArraySugar);
    assert_eq!(classify_reference(&[x, other, sqrt]), ReferenceKind::GenericMethod);
}

#[test]
fn every_known_module_is_a_module() {
    let f: &[u8] = b"f";
    for name in [
        "crystal", "math", "quantum", "symbolic", "networking", "system", "image", "graphics",
        "physics", "datetime", "lowlevel", "ml", "gui",
    ] {
        assert_eq!(classify_reference(&[name.as_bytes(), f]), ReferenceKind::ModuleCall);
    }
    assert_eq!(classify_reference(&[b"maths".as_slice(), f]), ReferenceKind::GenericMethod);
}

#[test]
fn every_array_method_is_sugar_on_a_variable() {
    let list: &[u8] = b"list";
    for name in ["append", "length", "size", "get", "at", "set"] {
        assert_eq!(classify_reference(&[list, name.as_bytes()]), ReferenceKind::ArraySugar);
    }
    assert_eq!(classify_reference(&[list, b"push".as_slice()]), ReferenceKind::GenericMethod);
}

#[test]
fn tags_and_semicolons_are_skipped() {
    assert_eq!(
        parse_source("@shira import math; @nora @sela crystal.print(\"x\");;"),
        Ok(vec![
            Statement::Import(b("math")),
            Statement::FunctionCall { module: b("crystal"), function: b("print"), args: vec![string("x")] },
        ])
    );
}

#[test]
fn plain_assignment() {
    assert_eq!(
        parse_source("total = total + 1"),
        Ok(vec![Statement::Assignment {
            variable: b("total"),
            value: Expression::BinaryOperation {
                left: Box::new(var("total")),
                operator: BinaryOperator::Add,
                right: Box::new(Expression::Integer(1)),
            },
        }])
    );
}

#[test]
fn dangling_operator_fails() {
    assert_eq!(failure("+"), ParseError { kind: ParseErrorKind::UnexpectedToken, position: 0 });
    assert_eq!(
        failure("import math\n+ 1"),
        ParseError { kind: ParseErrorKind::UnexpectedToken, position: 2 }
    );
    assert_eq!(failure(")"), ParseError { kind: ParseErrorKind::UnexpectedToken, position: 0 });
    assert_eq!(failure("x"), ParseError { kind: ParseErrorKind::UnexpectedToken, position: 0 });
    assert_eq!(failure("42"), ParseError { kind: ParseErrorKind::UnexpectedToken, position: 0 });
}

#[test]
fn missing_closing_paren_fails() {
    assert_eq!(
        failure("crystal.manifest(\"hi\""),
        ParseError { kind: ParseErrorKind::ExpectedRightParen, position: 5 }
    );
    assert_eq!(
        failure("crystal.manifest(1 2)"),
        ParseError { kind: ParseErrorKind::ExpectedRightParen, position: 5 }
    );
    assert_eq!(
        failure("crystal.manifest(1,)"),
        ParseError { kind: ParseErrorKind::ExpectedExpression, position: 6 }
    );
}

#[test]
fn missing_closing_bracket_fails() {
    assert_eq!(
        failure("var x = a[1"),
        ParseError { kind: ParseErrorKind::ExpectedRightBracket, position: 6 }
    );
    assert_eq!(
        failure("var x = [1]"),
        ParseError { kind: ParseErrorKind::ExpectedRightBracket, position: 4 }
    );
}

#[test]
fn literals() {
    assert_eq!(parse_one_expression("42"), Expression::Integer(42));
    assert_eq!(parse_one_expression("3.5"), Expression::Float(Decimal { mantissa: 35, scale: 1 }));
    assert_eq!(parse_one_expression("\"hi\""), string("hi"));
    assert_eq!(parse_one_expression("'hi'"), string("hi"));
    assert_eq!(parse_one_expression("true"), Expression::Boolean(true));
    assert_eq!(parse_one_expression("false"), Expression::Boolean(false));
    assert_eq!(parse_one_expression("[]"), Expression::ArrayLiteral(vec![]));
    assert_eq!(parse_one_expression("name"), var("name"));
}

#[test]
fn array_access() {
    assert_eq!(
        parse_one_expression("items[i + 1]"),
        Expression::ArrayAccess {
            array: Box::new(var("items")),
            index: Box::new(Expression::BinaryOperation {
                left: Box::new(var("i")),
                operator: BinaryOperator::Add,
                right: Box::new(Expression::Integer(1)),
            }),
        }
    );
}

#[test]
fn module_call_expression() {
    assert_eq!(
        parse_one_expression("math.sqrt(x)"),
        Expression::FunctionCall { module: b("math"), function: b("sqrt"), args: vec![var("x")] }
    );
    assert_eq!(
        parse_one_expression("math.PI"),
        Expression::FunctionCall { module: b("math"), function: b("PI"), args: vec![] }
    );
    assert_eq!(
        parse_one_expression("symbolic.numerology.get_meaning(7)"),
        Expression::FunctionCall {
            module: b("symbolic.numerology"),
            function: b("get_meaning"),
            args: vec![Expression::Integer(7)],
        }
    );
}

#[test]
fn array_property_without_arguments_is_a_call_without_arguments() {
    assert_eq!(
        parse_one_expression("list.length"),
        Expression::ArrayMethodCall { array: Box::new(var("list")), method: b("length"), args: vec![] }
    );
    assert_eq!(
        parse_one_expression("list.length()"),
        Expression::ArrayMethodCall { array: Box::new(var("list")), method: b("length"), args: vec![] }
    );
}

#[test]
fn array_method_expression_with_arguments() {
    assert_eq!(
        parse_one_expression("list.get(0)"),
        Expression::ArrayMethodCall {
            array: Box::new(var("list")),
            method: b("get"),
            args: vec![Expression::Integer(0)],
        }
    );
}

#[test]
fn other_members_are_method_calls() {
    assert_eq!(
        parse_one_expression("x.to_string()"),
        Expression::MethodCall { object: Box::new(var("x")), method: b("to_string"), args: vec![] }
    );
    assert_eq!(
        parse_one_expression("Items.size"),
        Expression::MethodCall { object: Box::new(var("Items")), method: b("size"), args: vec![] }
    );
}

#[test]
fn member_chain() {
    assert_eq!(
        parse_one_expression("items[0].name.size(1)"),
        Expression::MethodCall {
            object: Box::new(Expression::MethodCall {
                object: Box::new(Expression::ArrayAccess {
                    array: Box::new(var("items")),
                    index: Box::new(Expression::Integer(0)),
                }),
                method: b("name"),
                args: vec![],
            }),
            method: b("size"),
            args: vec![Expression::Integer(1)],
        }
    );
    assert_eq!(
        parse_one_expression("list.length.to_string()"),
        Expression::MethodCall {
            object: Box::new(Expression::ArrayMethodCall {
                array: Box::new(var("list")),
                method: b("length"),
                args: vec![],
            }),
            method: b("to_string"),
            args: vec![],
        }
    );
}

#[test]
fn member_without_a_name_fails() {
    let tokens = tokenize("a[0].(");
    assert_eq!(
        parse_expression(&tokens, 0),
        Err(ParseError { kind: ParseErrorKind::ExpectedIdentifier, position: 5 })
    );
}

#[test]
fn addition_nests_to_the_right() {
    assert_eq!(
        parse_one_expression("a + b + c"),
        Expression::BinaryOperation {
            left: Box::new(var("a")),
            operator: BinaryOperator::Add,
            right: Box::new(Expression::BinaryOperation {
                left: Box::new(var("b")),
                operator: BinaryOperator::Add,
                right: Box::new(var("c")),
            }),
        }
    );
}

#[test]
fn other_operators_end_the_expression() {
    let tokens = tokenize("a - b");
    assert_eq!(parse_expression(&tokens, 0), Ok((var("a"), 1)));
    let tokens = tokenize("a < b");
    assert_eq!(parse_expression(&tokens, 0), Ok((var("a"), 1)));
}

#[test]
fn expression_from_a_later_position() {
    let tokens = tokenize("var x = 1 + 2");
    assert_eq!(
        parse_expression(&tokens, 3),
        Ok((
            Expression::BinaryOperation {
                left: Box::new(Expression::Integer(1)),
                operator: BinaryOperator::Add,
                right: Box::new(Expression::Integer(2)),
            },
            6
        ))
    );
}

#[test]
fn expression_beyond_the_tokens_fails() {
    let tokens = tokenize("x");
    assert_eq!(
        parse_expression(&tokens, 1),
        Err(ParseError { kind: ParseErrorKind::ExpectedExpression, position: 1 })
    );
    assert_eq!(
        parse_expression(&tokens, 7),
        Err(ParseError { kind: ParseErrorKind::ExpectedExpression, position: 7 })
    );
    assert_eq!(
        parse_expression(&Vec::new(), 0),
        Err(ParseError { kind: ParseErrorKind::ExpectedExpression, position: 0 })
    );
}

#[test]
fn arguments_are_expressions_in_source_order() {
    assert_eq!(
        parse_source("crystal.manifest(\"n = \" + n.to_string(), list[0], math.abs(x))"),
        Ok(vec![Statement::FunctionCall {
            module: b("crystal"),
            function: b("manifest"),
            args: vec![
                Expression::BinaryOperation {
                    left: Box::new(string("n = ")),
                    operator: BinaryOperator::Add,
                    right: Box::new(Expression::MethodCall {
                        object: Box::new(var("n")),
                        method: b("to_string"),
                        args: vec![],
                    }),
                },
                Expression::ArrayAccess {
                    array: Box::new(var("list")),
                    index: Box::new(Expression::Integer(0)),
                },
                Expression::FunctionCall { module: b("math"), function: b("abs"), args: vec![var("x")] },
            ],
        }])
    );
}

#[test]
fn conditional_with_a_block() {
    assert_eq!(
        parse_source("if (ready) { crystal.print(\"a\") crystal.print(\"b\") }"),
        Ok(vec![Statement::If {
            condition: var("ready"),
            then_branch: vec![
                Statement::FunctionCall { module: b("crystal"), function: b("print"), args: vec![string("a")] },
                Statement::FunctionCall { module: b("crystal"), function: b("print"), args: vec![string("b")] },
            ],
            else_branch: None,
        }])
    );
}

#[test]
fn conditional_with_else() {
    assert_eq!(
        parse_source("if (ready) { x = 1 } else { x = 2; y = 3 }"),
        Ok(vec![Statement::If {
            condition: var("ready"),
            then_branch: vec![Statement::Assignment { variable: b("x"), value: Expression::Integer(1) }],
            else_branch: Some(vec![
                Statement::Assignment { variable: b("x"), value: Expression::Integer(2) },
                Statement::Assignment { variable: b("y"), value: Expression::Integer(3) },
            ]),
        }])
    );
}

#[test]
fn conditional_with_single_statements() {
    assert_eq!(
        parse_source("if (ready) x = 1 else x = 2\ny = 3"),
        Ok(vec![
            Statement::If {
                condition: var("ready"),
                then_branch: vec![Statement::Assignment { variable: b("x"), value: Expression::Integer(1) }],
                else_branch: Some(vec![Statement::Assignment {
                    variable: b("x"),
                    value: Expression::Integer(2),
                }]),
            },
            Statement::Assignment { variable: b("y"), value: Expression::Integer(3) },
        ])
    );
}

#[test]
fn loop_with_a_nested_conditional() {
    assert_eq!(
        parse_source("while (queue.length) { if (flag) { } queue.set(0, 1) }"),
        Ok(vec![Statement::While {
            condition: Expression::ArrayMethodCall {
                array: Box::new(var("queue")),
                method: b("length"),
                args: vec![],
            },
            body: vec![
                Statement::If { condition: var("flag"), then_branch: vec![], else_branch: None },
                Statement::ArrayMethodCall {
                    array_var: b("queue"),
                    method: b("set"),
                    args: vec![Expression::Integer(0), Expression::Integer(1)],
                },
            ],
        }])
    );
}

#[test]
fn control_flow_failures() {
    assert_eq!(failure("if ready { }"), ParseError { kind: ParseErrorKind::ExpectedLeftParen, position: 1 });
    assert_eq!(failure("while"), ParseError { kind: ParseErrorKind::ExpectedLeftParen, position: 1 });
    assert_eq!(failure("if (ready { }"), ParseError { kind: ParseErrorKind::ExpectedRightParen, position: 3 });
    assert_eq!(failure("if (a < b) { }"), ParseError { kind: ParseErrorKind::ExpectedRightParen, position: 3 });
    assert_eq!(failure("if (ready) { x = 1"), ParseError { kind: ParseErrorKind::ExpectedRightBrace, position: 8 });
    assert_eq!(failure("while (ready) {"), ParseError { kind: ParseErrorKind::ExpectedRightBrace, position: 5 });
    assert_eq!(failure("if (ready)"), ParseError { kind: ParseErrorKind::UnexpectedToken, position: 4 });
    assert_eq!(failure("if (ready) { + }"), ParseError { kind: ParseErrorKind::UnexpectedToken, position: 5 });
    assert_eq!(failure("else { }"), ParseError { kind: ParseErrorKind::UnexpectedToken, position: 0 });
    assert_eq!(failure("}"), ParseError { kind: ParseErrorKind::UnexpectedToken, position: 0 });
}

#[test]
fn parsing_stops_at_the_marker() {
    let tokens = vec![
        Token::Keyword(nymyac::Keyword::Import),
        Token::Identifier(b("math")),
        Token::EndOfInput,
        Token::Operator(nymyac::Operator::Plus),
    ];
    assert_eq!(parse(&tokens), Ok(vec![Statement::Import(b("math"))]));
}

#[test]
fn tokens_without_a_marker_end_at_the_last_token() {
    let tokens = vec![Token::Keyword(nymyac::Keyword::Import), Token::Identifier(b("math"))];
    assert_eq!(parse(&tokens), Ok(vec![Statement::Import(b("math"))]));
    let tokens = vec![Token::Keyword(nymyac::Keyword::Import)];
    assert_eq!(parse(&tokens), Err(ParseError { kind: ParseErrorKind::ExpectedIdentifier, position: 1 }));
}

#[test]
fn failure_descriptions() {
    assert_eq!(ParseErrorKind::UnexpectedToken.describe(), "no statement starts here");
    assert_eq!(ParseErrorKind::ExpectedExpression.describe(), "expected an expression");
    assert_eq!(ParseErrorKind::ExpectedIdentifier.describe(), "expected a name");
    assert_eq!(ParseErrorKind::ExpectedAssign.describe(), "expected '=' in the binding");
    assert_eq!(ParseErrorKind::ExpectedLeftParen.describe(), "expected '('");
    assert_eq!(ParseErrorKind::ExpectedRightParen.describe(), "expected ')'");
    assert_eq!(ParseErrorKind::ExpectedRightBracket.describe(), "expected ']'");
    assert_eq!(ParseErrorKind::ExpectedRightBrace.describe(), "expected '}'");
}

#[test]
fn failure_messages() {
    assert_eq!(
        ParseError { kind: ParseErrorKind::ExpectedRightParen, position: 5 }.message(),
        "expected ')' at token 5"
    );
    assert_eq!(
        ParseError { kind: ParseErrorKind::UnexpectedToken, position: 0 }.message(),
        "no statement starts here at token 0"
    );
    assert_eq!(
        ParseError { kind: ParseErrorKind::ExpectedIdentifier, position: 1234567890 }.message(),
        "expected a name at token 1234567890"
    );
    assert_eq!(failure("var x = a[1").message(), "expected ']' at token 6");
}
