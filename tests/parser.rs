use lua_parser::ast::{BinaryOpKind, Chunk, Expression, Statement, TableKey, UnaryOpKind};
use lua_parser::parser::{decimal_string, parse_from_tokens};
use lua_parser::tokenizer::tokenize;

fn parse(source: &str) -> Result<Chunk, String> {
    let tokens = tokenize(source).unwrap();
    parse_from_tokens(&tokens)
}

fn number(e: &Expression) -> &str {
    match e {
        Expression::Number(t) => t,
        other => panic!("not a number: {:?}", other),
    }
}

fn name(e: &Expression) -> &str {
    match e {
        Expression::Name(t) => t,
        other => panic!("not a name: {:?}", other),
    }
}

#[test]
fn local_assignment_single() {
    let chunk = parse("local x = 1").unwrap();
    assert_eq!(chunk.statements.len(), 1);
    match &chunk.statements[0] {
        Statement::LocalAssignment(a) => {
            assert_eq!(a.names, vec!["x".to_string()]);
            assert_eq!(a.values.len(), 1);
            assert_eq!(number(&a.values[0]), "1");
        },
        other => panic!("unexpected {:?}", other),
    }
}

#[test]
fn local_assignment_lists() {
    let chunk = parse("local a, b = 1, 2").unwrap();
    assert_eq!(chunk.statements.len(), 1);
    match &chunk.statements[0] {
        Statement::LocalAssignment(a) => {
            assert_eq!(a.names, vec!["a".to_string(), "b".to_string()]);
            assert_eq!(a.values.len(), 2);
            assert_eq!(number(&a.values[0]), "1");
            assert_eq!(number(&a.values[1]), "2");
        },
        other => panic!("unexpected {:?}", other),
    }
}

#[test]
fn local_without_values() {
    let chunk = parse("local a, b").unwrap();
    match &chunk.statements[0] {
        Statement::LocalAssignment(a) => {
            assert_eq!(a.names, vec!["a".to_string(), "b".to_string()]);
            assert!(a.values.is_empty());
        },
        other => panic!("unexpected {:?}", other),
    }
}

#[test]
fn numeric_for_without_step() {
    let chunk = parse("for i = 1, 10 do end").unwrap();
    assert_eq!(chunk.statements.len(), 1);
    match &chunk.statements[0] {
        Statement::NumericFor(f) => {
            assert_eq!(f.var, "i");
            assert_eq!(number(&f.start), "1");
            assert_eq!(number(&f.end), "10");
            assert!(f.step.is_none());
            assert!(f.body.statements.is_empty());
        },
        other => panic!("unexpected {:?}", other),
    }
}

#[test]
fn numeric_for_with_step() {
    let chunk = parse("for i = 10, 1, -1 do f(i) end").unwrap();
    match &chunk.statements[0] {
        Statement::NumericFor(f) => {
            assert_eq!(number(f.step.as_ref().unwrap()), "-1");
            assert_eq!(f.body.statements.len(), 1);
        },
        other => panic!("unexpected {:?}", other),
    }
    assert!(parse("for i = 1, 2 end").is_err());
}

#[test]
fn if_with_else() {
    let chunk = parse("if true then x() else y() end").unwrap();
    assert_eq!(chunk.statements.len(), 1);
    match &chunk.statements[0] {
        Statement::IfStatement(i) => {
            assert!(matches!(i.condition, Expression::Bool(true)));
            assert!(i.else_if_branches.is_empty());
            assert_eq!(i.body.statements.len(), 1);
            let else_body = i.else_branch.as_ref().unwrap();
            assert_eq!(else_body.statements.len(), 1);
            match &else_body.statements[0] {
                Statement::FunctionCall(c) => {
                    assert_eq!(name(&c.name_expression), "y");
                    assert!(c.arguments.is_empty());
                },
                other => panic!("unexpected {:?}", other),
            }
        },
        other => panic!("unexpected {:?}", other),
    }
}

#[test]
fn if_with_else_ifs() {
    let chunk = parse("if a then elseif b then f() elseif c then end").unwrap();
    match &chunk.statements[0] {
        Statement::IfStatement(i) => {
            assert_eq!(i.else_if_branches.len(), 2);
            assert_eq!(name(&i.else_if_branches[0].0), "b");
            assert_eq!(i.else_if_branches[0].1.statements.len(), 1);
            assert_eq!(name(&i.else_if_branches[1].0), "c");
            assert!(i.else_branch.is_none());
        },
        other => panic!("unexpected {:?}", other),
    }
}

#[test]
fn bare_function_call() {
    let chunk = parse("f(1, 2)").unwrap();
    assert_eq!(chunk.statements.len(), 1);
    match &chunk.statements[0] {
        Statement::FunctionCall(c) => {
            assert_eq!(name(&c.name_expression), "f");
            assert_eq!(c.arguments.len(), 2);
            assert_eq!(number(&c.arguments[0]), "1");
            assert_eq!(number(&c.arguments[1]), "2");
        },
        other => panic!("unexpected {:?}", other),
    }
}

#[test]
fn missing_local_name_fails() {
    let result = parse("local = 1");
    assert_eq!(
        result.unwrap_err(),
        "A token was left at the end of the stream: local (line 1, column 1)"
    );
}

#[test]
fn leftover_token_names_its_position() {
    let source = "f()\n\n\n\n\n\n\n\n\n\n                                                                                                      )";
    assert_eq!(
        parse(source).unwrap_err(),
        "A token was left at the end of the stream: ) (line 11, column 103)"
    );
}

#[test]
fn decimal_rendering() {
    assert_eq!(decimal_string(0), "0");
    assert_eq!(decimal_string(7), "7");
    assert_eq!(decimal_string(10), "10");
    assert_eq!(decimal_string(90210), "90210");
    assert_eq!(decimal_string(usize::MAX), usize::MAX.to_string());
}

#[test]
fn call_arguments_take_no_trailing_comma() {
    assert!(parse("f(1,)").is_err());
    assert!(parse("f()").is_ok());
}

#[test]
fn binary_operators_group_to_the_right() {
    let chunk = parse("local x = 1 * 2 + 3").unwrap();
    match &chunk.statements[0] {
        Statement::LocalAssignment(a) => match &a.values[0] {
            Expression::BinaryOp(b) => {
                assert!(matches!(b.operator, BinaryOpKind::Multiply));
                assert_eq!(number(&b.left), "1");
                match b.right.as_ref() {
                    Expression::BinaryOp(inner) => {
                        assert!(matches!(inner.operator, BinaryOpKind::Add));
                        assert_eq!(number(&inner.left), "2");
                        assert_eq!(number(&inner.right), "3");
                    },
                    other => panic!("unexpected {:?}", other),
                }
            },
            other => panic!("unexpected {:?}", other),
        },
        other => panic!("unexpected {:?}", other),
    }
}

#[test]
fn unary_operators_nest() {
    let chunk = parse("local x = - - y, not z, #t").unwrap();
    match &chunk.statements[0] {
        Statement::LocalAssignment(a) => {
            match &a.values[0] {
                Expression::UnaryOp(u) => {
                    assert!(matches!(u.operator, UnaryOpKind::Negate));
                    assert!(matches!(u.argument.as_ref(), Expression::UnaryOp(_)));
                },
                other => panic!("unexpected {:?}", other),
            }
            assert!(matches!(&a.values[1], Expression::UnaryOp(u) if matches!(u.operator, UnaryOpKind::BooleanNot)));
            assert!(matches!(&a.values[2], Expression::UnaryOp(u) if matches!(u.operator, UnaryOpKind::Length)));
        },
        other => panic!("unexpected {:?}", other),
    }
}

#[test]
fn table_literals() {
    let chunk = parse("local t = {1, x = 2; [3] = 4,}").unwrap();
    match &chunk.statements[0] {
        Statement::LocalAssignment(a) => match &a.values[0] {
            Expression::Table(t) => {
                assert_eq!(t.items.len(), 3);
                assert!(t.items[0].0.is_none());
                assert_eq!(number(&t.items[0].1), "1");
                assert!(matches!(&t.items[1].0, Some(TableKey::Name(n)) if n == "x"));
                assert!(matches!(&t.items[2].0, Some(TableKey::Expression(Expression::Number(n))) if n == "3"));
                assert_eq!(number(&t.items[2].1), "4");
            },
            other => panic!("unexpected {:?}", other),
        },
        other => panic!("unexpected {:?}", other),
    }
    assert!(parse("local t = {}").is_ok());
}

#[test]
fn loops_and_functions() {
    let chunk = parse("while x do f() end repeat g() until (y) local function h(a, b) end function k() end").unwrap();
    assert_eq!(chunk.statements.len(), 4);
    assert!(matches!(&chunk.statements[0], Statement::WhileLoop(w) if w.body.statements.len() == 1));
    match &chunk.statements[1] {
        Statement::RepeatLoop(r) => assert!(matches!(r.condition, Expression::ParenExpression(_))),
        other => panic!("unexpected {:?}", other),
    }
    match &chunk.statements[2] {
        Statement::FunctionDeclaration(f) => {
            assert!(f.local);
            assert_eq!(f.name, "h");
            assert_eq!(f.parameters, vec!["a".to_string(), "b".to_string()]);
        },
        other => panic!("unexpected {:?}", other),
    }
    match &chunk.statements[3] {
        Statement::FunctionDeclaration(f) => {
            assert!(!f.local);
            assert!(f.parameters.is_empty());
        },
        other => panic!("unexpected {:?}", other),
    }
}

#[test]
fn empty_program() {
    assert!(parse("").unwrap().statements.is_empty());
}
