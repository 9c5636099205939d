use triggerlang::{
    parse_triggers, parse_triggers_to_ast, Comparison, ComparisonOp, Expr, FuncCall,
    TriggerParser, TriggerParserError, Value,
};

fn parse_one_condition(cond: &str) -> Expr {
    let input = format!(
        "trigger T {{\n    on: ev\n    description: \"d\"\n    condition: {}\n    action: f()\n}};\n",
        cond
    );
    let ast = parse_triggers_to_ast(&input).expect("the trigger should parse");
    assert_eq!(ast.triggers.len(), 1);
    match ast.triggers.into_iter().next().and_then(|t| t.condition) {
        Some(e) => e,
        None => panic!("a condition was expected"),
    }
}

#[test]
fn comparison_operators_lower_to_their_variants() {
    let cases = [
        ("player.score == 50", ComparisonOp::Eq),
        ("player.score != 50", ComparisonOp::Neq),
        ("player.score > 50", ComparisonOp::Gt),
        ("player.score < 50", ComparisonOp::Lt),
        ("player.score >= 50", ComparisonOp::Gte),
        ("player.score <= 50", ComparisonOp::Lte),
    ];
    for (text, op) in cases {
        let e = parse_one_condition(text);
        let expected = Expr::Comparison(Comparison {
            left: "player.score".to_string(),
            operator: op,
            right: Value::Number("50".to_string()),
        });
        assert_eq!(e, expected, "for `{}`", text);
    }
}

#[test]
fn nested_condition_lowers_to_the_expected_tree() {
    let e = parse_one_condition("(a == true || b == \"x\") && !c");
    let expected = Expr::And(
        Box::new(Expr::Parenthesized(Box::new(Expr::Or(
            Box::new(Expr::Comparison(Comparison {
                left: "a".to_string(),
                operator: ComparisonOp::Eq,
                right: Value::Boolean(true),
            })),
            Box::new(Expr::Comparison(Comparison {
                left: "b".to_string(),
                operator: ComparisonOp::Eq,
                right: Value::String("x".to_string()),
            })),
        )))),
        Box::new(Expr::Not(Box::new(Expr::Ident("c".to_string())))),
    );
    assert_eq!(e, expected);
}

#[test]
fn operator_chains_associate_to_the_right() {
    let e = parse_one_condition("a && b && c");
    let expected = Expr::And(
        Box::new(Expr::Ident("a".to_string())),
        Box::new(Expr::And(
            Box::new(Expr::Ident("b".to_string())),
            Box::new(Expr::Ident("c".to_string())),
        )),
    );
    assert_eq!(e, expected);
}

#[test]
fn adjacent_expressions_form_an_implicit_conjunction() {
    let e = parse_one_condition("a b");
    let expected = Expr::And(
        Box::new(Expr::Ident("a".to_string())),
        Box::new(Expr::Ident("b".to_string())),
    );
    assert_eq!(e, expected);
}

#[test]
fn file_with_three_triggers_keeps_source_order() {
    let input = r#"
        trigger First {
            on: a
            description: "1"
            action: f()
        };
        trigger Second {
            on: b
            description: "2"
            action: g()
        };
        trigger Third {
            on: c
            description: "3"
            action: h()
        };
    "#;
    let ast = parse_triggers_to_ast(input).expect("three triggers should parse");
    assert_eq!(ast.triggers.len(), 3);
    assert_eq!(ast.triggers[0].name, "First");
    assert_eq!(ast.triggers[1].name, "Second");
    assert_eq!(ast.triggers[2].name, "Third");
    assert_eq!(ast.triggers[0].event_type, "a");
    assert_eq!(ast.triggers[2].description, "3");
}

#[test]
fn multiple_actions_keep_declaration_order() {
    let input = r#"
        trigger Multi {
            on: ev
            description: "d"
            action: first("x", 1)
            action: second()
            action: third(y)
        };
    "#;
    let ast = parse_triggers_to_ast(input).expect("the trigger should parse");
    let actions = &ast.triggers[0].actions;
    assert_eq!(actions.len(), 3);
    assert_eq!(
        actions[0],
        FuncCall {
            name: "first".to_string(),
            args: vec![Value::String("x".to_string()), Value::Number("1".to_string())],
        }
    );
    assert_eq!(actions[1], FuncCall { name: "second".to_string(), args: vec![] });
    assert_eq!(
        actions[2],
        FuncCall { name: "third".to_string(), args: vec![Value::Ident("y".to_string())] }
    );
}

#[test]
fn duplicate_scalar_fields_keep_the_last_declaration() {
    let input = r#"
        trigger Dup {
            on: first_event
            description: "first"
            on: second_event
            description: "second"
            action: f()
        };
    "#;
    let ast = parse_triggers_to_ast(input).expect("the trigger should parse");
    assert_eq!(ast.triggers[0].event_type, "second_event");
    assert_eq!(ast.triggers[0].description, "second");
}

#[test]
fn description_is_quote_stripped() {
    let input = r#"
        trigger Quoted {
            on: ev
            description: "spaces and: punctuation!"
            action: f()
        };
    "#;
    let ast = parse_triggers_to_ast(input).expect("the trigger should parse");
    assert_eq!(ast.triggers[0].description, "spaces and: punctuation!");
}

#[test]
fn numbers_keep_their_lexeme() {
    let e = parse_one_condition("x == 007.250");
    let expected = Expr::Comparison(Comparison {
        left: "x".to_string(),
        operator: ComparisonOp::Eq,
        right: Value::Number("007.250".to_string()),
    });
    assert_eq!(e, expected);
}

#[test]
fn double_negation_nests() {
    let e = parse_one_condition("!!a");
    let expected = Expr::Not(Box::new(Expr::Not(Box::new(Expr::Ident("a".to_string())))));
    assert_eq!(e, expected);
}

#[test]
fn missing_on_field_is_a_syntax_error_with_a_message() {
    let input = r#"
        trigger NoOn {
            description: "d"
            action: f()
        };
    "#;
    let err = match parse_triggers_to_ast(input) {
        Ok(_) => panic!("a trigger without `on` must be rejected"),
        Err(e) => e,
    };
    let TriggerParserError::SyntaxError(m) = err;
    assert!(m.contains("syntax error"));
}

#[test]
fn rendered_file_reparses_to_the_same_ast() {
    let input = r#"
        trigger RoundTrip {
            on: message_receive
            description: "keeps its shape"
            condition: (a == true || b == "x") && !c.d
            action: notify("admin", 2, flag)
            action: log()
        };
        trigger Plain {
            on: tick
            description: "no condition"
            action: noop()
        };
    "#;
    let first = parse_triggers_to_ast(input).expect("the file should parse");
    let rendered = first.render();
    let second = parse_triggers_to_ast(&rendered).expect("the rendering should reparse");
    assert_eq!(first, second);
}

#[test]
fn rendering_has_the_documented_shape() {
    let input = "trigger T { on: ev description: \"d\" condition: x >= 1 action: f(true) };";
    let ast = parse_triggers_to_ast(input).expect("the trigger should parse");
    let expected = "trigger T {\n    on: ev\n    description: \"d\"\n    condition: x >= 1\n    action: f(true)\n};\n";
    assert_eq!(ast.render(), expected);
}

#[test]
fn parser_type_entry_point_agrees_with_the_free_function() {
    let input = "trigger T { on: ev description: \"d\" action: f() };";
    let via_type = TriggerParser::parse(input).expect("the trigger should parse");
    let via_free = parse_triggers_to_ast(input).expect("the trigger should parse");
    assert_eq!(via_type, via_free);
    assert!(parse_triggers(input).is_ok());
}

#[test]
fn error_message_names_the_failing_offset() {
    let err = match parse_triggers_to_ast("trigger Broken { on: ev };") {
        Ok(_) => panic!("a trigger without description must be rejected"),
        Err(e) => e,
    };
    assert!(err.message().contains("character offset 0"));
}

#[test]
fn dangling_operator_is_rejected() {
    let input = r#"
        trigger Dangling {
            on: ev
            description: "d"
            condition: a &&
            action: f()
        };
    "#;
    assert!(parse_triggers(input).is_err());
}

#[test]
fn empty_argument_list_parses() {
    let input = "trigger T { on: ev description: \"d\" action: ping() };";
    let ast = parse_triggers_to_ast(input).expect("the trigger should parse");
    assert_eq!(ast.triggers[0].actions[0], FuncCall { name: "ping".to_string(), args: vec![] });
}
