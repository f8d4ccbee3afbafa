//! End-to-end tests of the compilation pipeline: lexer, parser and semantic
//! analyzer composed.

use hjc::compile_source;
use hjc::errors::{Error, SemanticError, SyntaxCtx};
use hjc::nodes::{CommandNode, ExpressionNode, Operator, ScopeNode, TExpressionNode, Type};

fn assert_fully_annotated_expr(te: &TExpressionNode) {
    assert!(te.t.is_some(), "type slot left absent");
    match &te.node {
        ExpressionNode::BinaryOperationNode(b) => {
            assert_fully_annotated_expr(&b.left_expr);
            assert_fully_annotated_expr(&b.right_expr);
        }
        ExpressionNode::UnaryOperationNode(u) => {
            assert_fully_annotated_expr(&u.expression);
        }
        ExpressionNode::FunctionCallNode(f) => {
            for a in &f.args {
                assert_fully_annotated_expr(a);
            }
        }
        _ => {}
    }
}

fn assert_fully_annotated(scope: &ScopeNode) {
    for c in &scope.commands {
        match c {
            CommandNode::VariableDefinitionNode(d) => {
                if let Some(e) = &d.expression {
                    assert_fully_annotated_expr(e);
                }
            }
            CommandNode::VariableAssignmentNode(a) => {
                assert_fully_annotated_expr(&a.expression);
            }
            CommandNode::FunctionCallNode(f) => {
                for a in &f.args {
                    assert_fully_annotated_expr(a);
                }
            }
        }
    }
}

#[test]
fn analyze_fills_every_type_slot() {
    let scope = compile_source(
        "let int a = 1;\nlet b = a + 2 * 3;\nlet float c = 2.5;\nb += 4;\nprint(b);\n",
    )
    .expect("valid program must compile");
    assert_eq!(scope.commands.len(), 5);
    assert_fully_annotated(&scope);
}

#[test]
fn valid_program_types() {
    let scope = compile_source("let x = 1 + 2;").expect("must compile");
    match &scope.commands[0] {
        CommandNode::VariableDefinitionNode(d) => {
            let e = d.expression.as_ref().unwrap();
            assert_eq!(e.t, Some(Type::Int));
        }
        _ => panic!("expected a definition"),
    }
}

#[test]
fn print_statement_accepts_any_type() {
    assert!(compile_source("let s = \"hi\"; print(s);").is_ok());
    assert!(compile_source("let c = 'x'; print(c);").is_ok());
    assert!(compile_source("let b = true; print(b);").is_ok());
}

#[test]
fn rejects_mismatched_explicit_type() {
    let e = compile_source("let int x = 'a';").unwrap_err();
    match e {
        Error::Semantic(SemanticError::MismatchedDefinition { declared, found }) => {
            assert_eq!(declared, Type::Int);
            assert_eq!(found, Type::Char);
        }
        other => panic!("wrong error: {:?}", other),
    }
}

#[test]
fn rejects_assignment_to_undefined_variable() {
    let e = compile_source("y = 1;").unwrap_err();
    match e {
        Error::Semantic(SemanticError::AssignUndefined { name }) => {
            assert_eq!(name, "y");
        }
        other => panic!("wrong error: {:?}", other),
    }
}

#[test]
fn rejects_print_with_two_arguments() {
    let e = compile_source("print(1, 2);").unwrap_err();
    assert!(matches!(
        e,
        Error::Semantic(SemanticError::WrongArgumentCount)
    ));
}

#[test]
fn rejects_call_nested_in_expression() {
    let e = compile_source("let x = print(1) + 1;").unwrap_err();
    match e {
        Error::Semantic(SemanticError::CallInExpression { name }) => {
            assert_eq!(name, "print");
        }
        other => panic!("wrong error: {:?}", other),
    }
}

#[test]
fn rejects_undefined_function() {
    let e = compile_source("foo(1);").unwrap_err();
    match e {
        Error::Semantic(SemanticError::UndefinedFunction { name }) => {
            assert_eq!(name, "foo");
        }
        other => panic!("wrong error: {:?}", other),
    }
}

#[test]
fn rejects_undefined_variable_in_expression() {
    let e = compile_source("let x = q + 1;").unwrap_err();
    match e {
        Error::Semantic(SemanticError::UndefinedVariable { name }) => {
            assert_eq!(name, "q");
        }
        other => panic!("wrong error: {:?}", other),
    }
}

#[test]
fn rejects_unknown_type_annotation() {
    let e = compile_source("let uint x = 1;").unwrap_err();
    match e {
        Error::Semantic(SemanticError::UnknownTypeName { name }) => {
            assert_eq!(name, "uint");
        }
        other => panic!("wrong error: {:?}", other),
    }
}

#[test]
fn rejects_non_numeric_binary_operands() {
    let e = compile_source("let x = true + 1;").unwrap_err();
    match e {
        Error::Semantic(SemanticError::InvalidBinaryTypes { left, right }) => {
            assert_eq!(left, Type::Bool);
            assert_eq!(right, Type::Int);
        }
        other => panic!("wrong error: {:?}", other),
    }
}

#[test]
fn rejects_non_numeric_unary_operand() {
    let e = compile_source("let x = -true;").unwrap_err();
    match e {
        Error::Semantic(SemanticError::InvalidUnaryType { found }) => {
            assert_eq!(found, Type::Bool);
        }
        other => panic!("wrong error: {:?}", other),
    }
}

#[test]
fn rejects_oversized_int_literal() {
    let e = compile_source("let x = 99999999999999999999;").unwrap_err();
    match e {
        Error::Syntax(se) => assert_eq!(se.ctx, SyntaxCtx::NumberTooLarge),
        other => panic!("wrong error: {:?}", other),
    }
}

#[test]
fn largest_int_literal_fits() {
    let scope = compile_source("let x = 9223372036854775807;").expect("must compile");
    match &scope.commands[0] {
        CommandNode::VariableDefinitionNode(d) => {
            match &d.expression.as_ref().unwrap().node {
                ExpressionNode::IntLiteralNode(n) => assert_eq!(n.value, i64::MAX),
                other => panic!("wrong node: {:?}", other),
            }
        }
        _ => panic!("expected a definition"),
    }
}

#[test]
fn unary_minus_keeps_operand_type() {
    let scope = compile_source("let x = -5; let y = -2.5;").expect("must compile");
    match (&scope.commands[0], &scope.commands[1]) {
        (
            CommandNode::VariableDefinitionNode(dx),
            CommandNode::VariableDefinitionNode(dy),
        ) => {
            assert_eq!(dx.expression.as_ref().unwrap().t, Some(Type::Int));
            assert_eq!(dy.expression.as_ref().unwrap().t, Some(Type::Float));
            match &dx.expression.as_ref().unwrap().node {
                ExpressionNode::UnaryOperationNode(u) => {
                    assert_eq!(u.operator, Operator::Minus);
                }
                other => panic!("wrong node: {:?}", other),
            }
        }
        _ => panic!("expected two definitions"),
    }
}

#[test]
fn empty_source_is_an_empty_program() {
    let scope = compile_source("").expect("must compile");
    assert_eq!(scope.commands.len(), 0);
}

#[test]
fn error_messages_render() {
    let e = compile_source("let x = q;").unwrap_err();
    assert_eq!(
        e.message(),
        "Usage of undefined variable \"q\" in expression!"
    );
    let e2 = compile_source("let int x = 2.0;").unwrap_err();
    assert_eq!(
        e2.message(),
        "Mismatching variable types in variable definition: \"int\" (left) and \"float\" (right)"
    );
    let e3 = compile_source("let x = 1").unwrap_err();
    assert_eq!(
        e3.message(),
        "Unexpected EOF when trying to parse expression (missed a semicolon?)"
    );
}
