//! Tests of the parser: precedence, associativity, desugaring, statement
//! forms and syntax errors.

use hjc::errors::SyntaxCtx;
use hjc::lexer::create_tokens;
use hjc::nodes::{
    CommandNode, ExpressionNode, Operator, ScopeNode, TExpressionNode,
};
use hjc::parser::Parser;

fn parse(source: &str) -> Result<ScopeNode, hjc::errors::SyntaxError> {
    let tokens = create_tokens(source.to_string()).expect("lexing must succeed");
    Parser::new(tokens).parse()
}

fn definition_expr(scope: &ScopeNode, i: usize) -> &TExpressionNode {
    match &scope.commands[i] {
        CommandNode::VariableDefinitionNode(d) => d.expression.as_ref().unwrap(),
        other => panic!("expected a definition, got {:?}", other),
    }
}

fn int_value(te: &TExpressionNode) -> i64 {
    match &te.node {
        ExpressionNode::IntLiteralNode(n) => n.value,
        other => panic!("expected an int literal, got {:?}", other),
    }
}

#[test]
fn multiplication_binds_tighter_than_addition() {
    let scope = parse("let x = 1 + 2 * 3;").unwrap();
    match &definition_expr(&scope, 0).node {
        ExpressionNode::BinaryOperationNode(top) => {
            assert_eq!(top.operator, Operator::Plus);
            assert_eq!(int_value(&top.left_expr), 1);
            match &top.right_expr.node {
                ExpressionNode::BinaryOperationNode(right) => {
                    assert_eq!(right.operator, Operator::Multiply);
                    assert_eq!(int_value(&right.left_expr), 2);
                    assert_eq!(int_value(&right.right_expr), 3);
                }
                other => panic!("right child must be the multiplication, got {:?}", other),
            }
        }
        other => panic!("expected a binary operation, got {:?}", other),
    }
}

#[test]
fn equal_priority_is_left_associative() {
    let scope = parse("let x = 10 - 2 - 3;").unwrap();
    match &definition_expr(&scope, 0).node {
        ExpressionNode::BinaryOperationNode(top) => {
            assert_eq!(top.operator, Operator::Minus);
            assert_eq!(int_value(&top.right_expr), 3);
            match &top.left_expr.node {
                ExpressionNode::BinaryOperationNode(left) => {
                    assert_eq!(left.operator, Operator::Minus);
                    assert_eq!(int_value(&left.left_expr), 10);
                    assert_eq!(int_value(&left.right_expr), 2);
                }
                other => panic!("left child must be the first subtraction, got {:?}", other),
            }
        }
        other => panic!("expected a binary operation, got {:?}", other),
    }
}

#[test]
fn parentheses_override_precedence() {
    let scope = parse("let x = (1 + 2) * 3;").unwrap();
    match &definition_expr(&scope, 0).node {
        ExpressionNode::BinaryOperationNode(top) => {
            assert_eq!(top.operator, Operator::Multiply);
            assert_eq!(int_value(&top.right_expr), 3);
            assert!(matches!(
                &top.left_expr.node,
                ExpressionNode::BinaryOperationNode(_)
            ));
        }
        other => panic!("expected a binary operation, got {:?}", other),
    }
}

#[test]
fn compound_assignment_desugars_to_binary_operation() {
    let scope = parse("x += 5;").unwrap();
    match &scope.commands[0] {
        CommandNode::VariableAssignmentNode(a) => {
            assert_eq!(a.variable.name, "x");
            match &a.expression.node {
                ExpressionNode::BinaryOperationNode(b) => {
                    assert_eq!(b.operator, Operator::Plus);
                    match &b.left_expr.node {
                        ExpressionNode::VariableNode(v) => assert_eq!(v.name, "x"),
                        other => panic!("left operand must be the variable, got {:?}", other),
                    }
                    assert_eq!(int_value(&b.right_expr), 5);
                }
                other => panic!("expected the desugared binary operation, got {:?}", other),
            }
        }
        other => panic!("expected an assignment, got {:?}", other),
    }
}

#[test]
fn plain_assignment_parses_the_expression_directly() {
    let scope = parse("x = x + 5;").unwrap();
    match &scope.commands[0] {
        CommandNode::VariableAssignmentNode(a) => {
            assert!(matches!(
                &a.expression.node,
                ExpressionNode::BinaryOperationNode(_)
            ));
        }
        other => panic!("expected an assignment, got {:?}", other),
    }
}

#[test]
fn string_literal_quotes_are_stripped() {
    let scope = parse("let s = \"hello\";").unwrap();
    match &definition_expr(&scope, 0).node {
        ExpressionNode::StringLiteralNode(n) => assert_eq!(n.value, "hello"),
        other => panic!("expected a string literal, got {:?}", other),
    }
}

#[test]
fn char_literal_takes_the_interior_character() {
    let scope = parse("let c = 'z';").unwrap();
    match &definition_expr(&scope, 0).node {
        ExpressionNode::CharLiteralNode(n) => assert_eq!(n.value, 'z'),
        other => panic!("expected a char literal, got {:?}", other),
    }
}

#[test]
fn float_literal_routes_on_the_dot() {
    let scope = parse("let a = 2.5; let b = 25;").unwrap();
    assert!(matches!(
        &definition_expr(&scope, 0).node,
        ExpressionNode::FloatLiteralNode(_)
    ));
    assert!(matches!(
        &definition_expr(&scope, 1).node,
        ExpressionNode::IntLiteralNode(_)
    ));
}

#[test]
fn call_statement_with_arguments() {
    let scope = parse("print(1, 2 + 3);").unwrap();
    match &scope.commands[0] {
        CommandNode::FunctionCallNode(f) => {
            assert_eq!(f.function.name, "print");
            assert_eq!(f.args.len(), 2);
        }
        other => panic!("expected a call, got {:?}", other),
    }
}

#[test]
fn call_without_arguments() {
    let scope = parse("print();").unwrap();
    match &scope.commands[0] {
        CommandNode::FunctionCallNode(f) => assert_eq!(f.args.len(), 0),
        other => panic!("expected a call, got {:?}", other),
    }
}

#[test]
fn definition_without_explicit_type() {
    let scope = parse("let x = true;").unwrap();
    match &scope.commands[0] {
        CommandNode::VariableDefinitionNode(d) => {
            assert!(d.vtype.is_none());
            assert_eq!(d.variable.name, "x");
        }
        other => panic!("expected a definition, got {:?}", other),
    }
}

#[test]
fn missing_semicolon_is_a_syntax_error() {
    let e = parse("let x = 1").unwrap_err();
    assert_eq!(e.ctx, SyntaxCtx::ExprContinuation);
    assert!(e.found.is_none());
}

#[test]
fn star_cannot_be_unary() {
    let e = parse("let x = *1;").unwrap_err();
    assert_eq!(e.ctx, SyntaxCtx::UnaryOperator);
    assert_eq!(e.found.as_deref(), Some("*"));
    assert_eq!(
        e.message(),
        "The operator \"*\" can't be used as a unary operator (expected value before it)"
    );
}

#[test]
fn missing_closing_parenthesis() {
    let e = parse("let x = (1 + 2;").unwrap_err();
    assert_eq!(e.ctx, SyntaxCtx::CloseParen);
    assert_eq!(e.found.as_deref(), Some(";"));
}

#[test]
fn compound_operator_rejected_in_definition() {
    let e = parse("let x += 1;").unwrap_err();
    assert_eq!(e.ctx, SyntaxCtx::DefSpecialAssign);
    assert_eq!(e.found.as_deref(), Some("+="));
}

#[test]
fn stray_keyword_cannot_start_a_command() {
    let e = parse("if x;").unwrap_err();
    assert_eq!(e.ctx, SyntaxCtx::CommandKeyword);
    assert_eq!(e.found.as_deref(), Some("if"));
}

#[test]
fn bracket_cannot_start_a_command() {
    let e = parse("[1];").unwrap_err();
    assert_eq!(e.ctx, SyntaxCtx::Command);
    assert_eq!(e.found.as_deref(), Some("["));
}

#[test]
fn name_alone_hits_end_of_input() {
    let e = parse("x").unwrap_err();
    assert_eq!(e.ctx, SyntaxCtx::CommandAfterName);
    assert!(e.found.is_none());
}

#[test]
fn bad_separator_in_call_arguments() {
    let e = parse("print(1; 2);").unwrap_err();
    assert_eq!(e.ctx, SyntaxCtx::CallArgSeparator);
    assert_eq!(e.found.as_deref(), Some(";"));
}

#[test]
fn nested_call_parses_and_is_left_to_semantics() {
    // the parser accepts the call syntax inside an expression; only the
    // semantic analyzer rejects it
    let scope = parse("let x = print(1) + 1;").unwrap();
    assert_eq!(scope.commands.len(), 1);
}

#[test]
fn deeply_nested_parentheses() {
    let scope = parse("let x = ((((1))));").unwrap();
    assert_eq!(int_value(definition_expr(&scope, 0)), 1);
}

#[test]
fn semicolon_alone_cannot_be_a_value() {
    let e = parse("let x = ;").unwrap_err();
    assert_eq!(e.ctx, SyntaxCtx::ExprValue);
    assert_eq!(e.found.as_deref(), Some(";"));
}

#[test]
fn name_at_end_of_expression_input() {
    let e = parse("let x = y").unwrap_err();
    assert_eq!(e.ctx, SyntaxCtx::ExprAfterName);
    assert!(e.found.is_none());
}

#[test]
fn two_values_without_an_operator() {
    let e = parse("let x = 1 2;").unwrap_err();
    assert_eq!(e.ctx, SyntaxCtx::ExprContinuation);
    assert_eq!(e.found.as_deref(), Some("2"));
}

#[test]
fn binary_operation_cut_short_at_end_of_input() {
    let e = parse("let x = 1 + 2").unwrap_err();
    assert_eq!(e.ctx, SyntaxCtx::BinaryContinuation);
    assert!(e.found.is_none());
}

#[test]
fn lone_let_hits_end_of_input() {
    let e = parse("let").unwrap_err();
    assert_eq!(e.ctx, SyntaxCtx::DefTypeOrName);
    assert!(e.found.is_none());
}

#[test]
fn definition_needs_a_variable_name() {
    let e = parse("let int 5 = 1;").unwrap_err();
    assert_eq!(e.ctx, SyntaxCtx::DefName);
    assert_eq!(e.found.as_deref(), Some("5"));
}

#[test]
fn definition_needs_an_equal_sign() {
    let e = parse("let x 5;").unwrap_err();
    assert_eq!(e.ctx, SyntaxCtx::DefAssignOp);
    assert_eq!(e.found.as_deref(), Some("5"));
}

#[test]
fn assignment_needs_a_semicolon() {
    let e = parse("x = 1)").unwrap_err();
    assert_eq!(e.ctx, SyntaxCtx::Semicolon);
    assert_eq!(e.found.as_deref(), Some(")"));
}

#[test]
fn call_cut_short_after_open_parenthesis() {
    let e = parse("print(").unwrap_err();
    assert_eq!(e.ctx, SyntaxCtx::CallCloseParen);
    assert!(e.found.is_none());
}

#[test]
fn call_statement_needs_a_semicolon() {
    let e = parse("print(1)").unwrap_err();
    assert_eq!(e.ctx, SyntaxCtx::CallSemicolon);
    assert!(e.found.is_none());
}

#[test]
fn name_followed_by_a_literal_is_no_command() {
    let e = parse("x 1;").unwrap_err();
    assert_eq!(e.ctx, SyntaxCtx::CommandAfterName);
    assert_eq!(e.found.as_deref(), Some("1"));
}
