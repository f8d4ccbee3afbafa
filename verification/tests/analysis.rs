//! Tests of the semantic analyzer: promotion, redefinition, the symbol
//! table, and the node helpers.

use hjc::lexer::create_tokens;
use hjc::nodes::{get_tab_str, CommandNode, Operator, Type};
use hjc::parser::Parser;
use hjc::variable_traverser::{SymbolTable, VariableTraverser};

fn analyze(source: &str) -> (VariableTraverser, hjc::nodes::ScopeNode) {
    let tokens = create_tokens(source.to_string()).expect("lexing must succeed");
    let mut scope = Parser::new(tokens).parse().expect("parsing must succeed");
    let mut traverser = VariableTraverser::new();
    traverser
        .traverse(&mut scope)
        .expect("analysis must succeed");
    (traverser, scope)
}

#[test]
fn int_plus_float_promotes_to_float() {
    let (tr, _) = analyze("let x = 1 + 2.0;");
    assert_eq!(tr.variable_table.get("x"), Some(Type::Float));
}

#[test]
fn int_plus_int_stays_int() {
    let (tr, _) = analyze("let x = 1 + 2;");
    assert_eq!(tr.variable_table.get("x"), Some(Type::Int));
}

#[test]
fn literal_types_are_recorded() {
    let (tr, _) = analyze(
        "let a = 1; let b = 1.5; let c = true; let d = 'd'; let e = \"e\";",
    );
    assert_eq!(tr.variable_table.get("a"), Some(Type::Int));
    assert_eq!(tr.variable_table.get("b"), Some(Type::Float));
    assert_eq!(tr.variable_table.get("c"), Some(Type::Bool));
    assert_eq!(tr.variable_table.get("d"), Some(Type::Char));
    assert_eq!(tr.variable_table.get("e"), Some(Type::Str));
    assert_eq!(tr.variable_table.get("f"), None);
}

#[test]
fn redefinition_with_a_different_type_overwrites() {
    let (tr, _) = analyze("let int x = 1; let float x = 2.0;");
    assert_eq!(tr.variable_table.get("x"), Some(Type::Float));
}

#[test]
fn compound_assignment_type_checks_like_spelled_out_form() {
    let (tr1, _) = analyze("let int x = 1; x += 5;");
    let (tr2, _) = analyze("let int x = 1; x = x + 5;");
    assert_eq!(tr1.variable_table.get("x"), Some(Type::Int));
    assert_eq!(tr2.variable_table.get("x"), Some(Type::Int));
}

#[test]
fn compound_assignment_respects_types() {
    let tokens = create_tokens("let b = true; b += 1;".to_string()).unwrap();
    let mut scope = Parser::new(tokens).parse().unwrap();
    let mut traverser = VariableTraverser::new();
    let e = traverser.traverse(&mut scope).unwrap_err();
    assert!(matches!(
        e,
        hjc::errors::SemanticError::InvalidBinaryTypes { .. }
    ));
}

#[test]
fn assignment_must_match_recorded_type() {
    let tokens = create_tokens("let int x = 1; x = 2.5;".to_string()).unwrap();
    let mut scope = Parser::new(tokens).parse().unwrap();
    let mut traverser = VariableTraverser::new();
    let e = traverser.traverse(&mut scope).unwrap_err();
    match e {
        hjc::errors::SemanticError::AssignMismatch { expected, found } => {
            assert_eq!(expected, Type::Int);
            assert_eq!(found, Type::Float);
        }
        other => panic!("wrong error: {:?}", other),
    }
}

#[test]
fn symbol_table_insert_and_get() {
    let mut table = SymbolTable::new();
    assert_eq!(table.get("x"), None);
    table.insert("x".to_string(), Type::Int);
    assert_eq!(table.get("x"), Some(Type::Int));
    table.insert("x".to_string(), Type::Str);
    assert_eq!(table.get("x"), Some(Type::Str));
    table.insert("y".to_string(), Type::Bool);
    assert_eq!(table.get("x"), Some(Type::Str));
    assert_eq!(table.get("y"), Some(Type::Bool));
}

#[test]
fn operator_helpers() {
    assert!(matches!(Operator::from("+"), Operator::Plus));
    assert!(matches!(Operator::from("%"), Operator::Modulo));
    assert_eq!(Operator::Plus.to_str(), "+");
    assert_eq!(Operator::Divide.to_str(), "/");
    assert_eq!(Operator::Plus.priority_score(), 1);
    assert_eq!(Operator::Minus.priority_score(), 1);
    assert_eq!(Operator::Multiply.priority_score(), 2);
    assert_eq!(Operator::Divide.priority_score(), 2);
    assert_eq!(Operator::Modulo.priority_score(), 2);
}

#[test]
fn type_helpers() {
    assert_eq!(Type::from("int"), Type::Int);
    assert_eq!(Type::from("str"), Type::Str);
    assert_eq!(Type::Float.to_str(), "float");
    assert_eq!(Type::Char.to_str(), "char");
}

#[test]
fn tab_string_repeats_tabs() {
    assert_eq!(get_tab_str(0), "");
    assert_eq!(get_tab_str(3), "\t\t\t");
}

#[test]
fn debug_str_renders_a_tree() {
    let (_, scope) = analyze("let x = 1 + 2;");
    match &scope.commands[0] {
        CommandNode::VariableDefinitionNode(d) => {
            let text = d.expression.as_ref().unwrap().debug_str(0);
            assert_eq!(
                text,
                "Binary operation:\n\tInt literal with value 1\n\tOperator: +\n\tInt literal with value 2\n"
            );
        }
        other => panic!("expected a definition, got {:?}", other),
    }
}

#[test]
fn debug_str_renders_a_command_and_scope() {
    let (_, scope) = analyze("print(7);");
    let text = scope.commands[0].debug_str(0);
    assert_eq!(
        text,
        "Function call command calling to function print\nArgument 1:\n\tInt literal with value 7\n"
    );
    let whole = scope.debug_str();
    assert!(whole.starts_with("Outer scope node with commands:\n"));
    assert!(whole.contains("calling to function print"));
}

#[test]
fn definition_without_type_or_expression_is_rejected() {
    // the parser always supplies an initializer; a hand-built tree can omit
    // both the type and the expression, which the analyzer must reject
    let mut scope = hjc::nodes::ScopeNode {
        commands: vec![CommandNode::VariableDefinitionNode(
            hjc::nodes::VariableDefinitionNode {
                vtype: None,
                variable: hjc::nodes::VariableNode {
                    name: "x".to_string(),
                },
                expression: None,
            },
        )],
    };
    let mut traverser = VariableTraverser::new();
    let e = traverser.traverse(&mut scope).unwrap_err();
    assert!(matches!(
        e,
        hjc::errors::SemanticError::UndefinedTypeInDefinition
    ));
}

#[test]
fn definition_with_explicit_type_only_records_it() {
    let mut scope = hjc::nodes::ScopeNode {
        commands: vec![CommandNode::VariableDefinitionNode(
            hjc::nodes::VariableDefinitionNode {
                vtype: Some("bool".to_string()),
                variable: hjc::nodes::VariableNode {
                    name: "flag".to_string(),
                },
                expression: None,
            },
        )],
    };
    let mut traverser = VariableTraverser::new();
    traverser.traverse(&mut scope).expect("must analyze");
    assert_eq!(traverser.variable_table.get("flag"), Some(Type::Bool));
}

#[test]
fn decimal_rendering() {
    assert_eq!(hjc::text::u64_to_string(0), "0");
    assert_eq!(hjc::text::u64_to_string(907), "907");
    assert_eq!(hjc::text::i64_to_string(-42), "-42");
    assert_eq!(hjc::text::i64_to_string(i64::MIN), "-9223372036854775808");
}
