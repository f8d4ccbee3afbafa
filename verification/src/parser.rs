//! The parser: consumes the token sequence and produces the untyped AST.
//!
//! Each parsing function is proved to return exactly what the corresponding
//! spec function in `parse_spec` describes, over the models of its tokens.

use crate::errors::{SyntaxCtx, SyntaxError};
use crate::lexer::{count_char_in, token_views, token_wf, tokens_wf, Token, TokenType};
use crate::nodes::{
    cmd_view, cmds_view, expr_view, lemma_cmds_view, lemma_texprs_view, texpr_view, texprs_view,
    BinaryOperationNode, BoolLiteralNode, CharLiteralNode, CommandNode, ExpressionNode,
    FloatLiteralNode, FunctionCallNode, FunctionNode, IntLiteralNode, Operator, ScopeNode,
    StringLiteralNode, TExpressionNode, UnaryOperationNode, VariableAssignmentNode,
    VariableDefinitionNode, VariableNode,
};
use crate::parse_spec::{
    digits_val, lemma_digits_val_prefix, p_binary, p_binary_rest, p_call_args, p_command,
    p_expr_rest, p_expression, p_function_call, p_program_from, p_single_value,
    p_variable_assignment, p_variable_definition, syn_err,
};
use crate::text::{is_digit_char, lemma_count_char_zero};
use vstd::prelude::*;
use vstd::string::StrSliceExecFns;
use vstd::string::StringExecFns;

verus! {

/// An end-of-input syntax error.
fn eof_err(ctx: SyntaxCtx) -> (r: SyntaxError)
    ensures
        r@ == syn_err(ctx, None),
{
    SyntaxError { ctx, found: None }
}

/// A syntax error carrying the text of the offending token.
fn tok_err(ctx: SyntaxCtx, tokens: &Vec<Token>, at: usize) -> (r: SyntaxError)
    requires
        at < tokens@.len(),
    ensures
        r@ == syn_err(ctx, Some(token_views(tokens@)[at as int].text)),
{
    SyntaxError { ctx, found: Some(tokens[at].value.clone()) }
}

/// Converts a digit string to a machine integer; `None` when the value
/// exceeds the `i64` range.
fn parse_int_value(s: &str) -> (r: Option<i64>)
    requires
        forall|k: int| 0 <= k < s@.len() ==> is_digit_char(#[trigger] s@[k]),
    ensures
        match r {
            Some(v) => v as int == digits_val(s@) && digits_val(s@) <= i64::MAX as int,
            None => digits_val(s@) > i64::MAX as int,
        },
{
    let l = s.unicode_len();
    let mut acc: i64 = 0;
    let mut i: usize = 0;
    proof {
        assert(s@.subrange(0, 0) =~= Seq::<char>::empty());
    }
    while i < l
        invariant
            l == s@.len(),
            0 <= i <= l,
            forall|k: int| 0 <= k < s@.len() ==> is_digit_char(#[trigger] s@[k]),
            0 <= acc,
            acc as int == digits_val(s@.subrange(0, i as int)),
        decreases l - i,
    {
        let c = s.get_char(i);
        proof {
            assert(is_digit_char(s@[i as int]));
            assert(s@.subrange(0, i as int + 1).drop_last() =~= s@.subrange(0, i as int));
            assert(s@.subrange(0, i as int + 1).last() == s@[i as int]);
        }
        let d: i64 = ((c as u32) - 48) as i64;
        if acc > (i64::MAX - d) / 10 {
            proof {
                assert(acc as int * 10 + d as int > i64::MAX as int) by (nonlinear_arith)
                    requires
                        acc as int > (i64::MAX as int - d as int) / 10,
                        0 <= d as int <= 9,
                        0 <= acc as int,
                ;
                lemma_digits_val_prefix(s@, i as int + 1);
            }
            return None;
        }
        proof {
            assert(acc as int * 10 + d as int <= i64::MAX as int) by (nonlinear_arith)
                requires
                    acc as int <= (i64::MAX as int - d as int) / 10,
                    0 <= d as int <= 9,
                    0 <= acc as int,
            ;
        }
        acc = acc * 10 + d;
        i += 1;
    }
    proof {
        assert(s@.subrange(0, l as int) =~= s@);
    }
    Some(acc)
}

/// One operand: a parenthesized sub-expression, a unary `+`/`-`, a literal,
/// a variable reference, or a function call.
fn parse_single_value(tokens: &Vec<Token>, idx: usize) -> (r: Result<
    (ExpressionNode, usize),
    SyntaxError,
>)
    requires
        tokens_wf(token_views(tokens@)),
    ensures
        match p_single_value(token_views(tokens@), idx as int) {
            Ok((e, j)) => r matches Ok(p) && expr_view(p.0) == e && p.1 == j && idx < p.1
                <= tokens@.len(),
            Err(ev) => r matches Err(se) && se@ == ev,
        },
    decreases tokens@.len() - idx, 4int,
{
    let ghost toks = token_views(tokens@);
    if idx >= tokens.len() {
        return Err(eof_err(SyntaxCtx::ExprValue));
    }
    let kind = tokens[idx].kind;
    match kind {
        TokenType::OpenParen => {
            match parse_expression(tokens, idx + 1) {
                Ok((e, j)) => {
                    if j < tokens.len() && tokens[j].kind == TokenType::CloseParen {
                        Ok((e, j + 1))
                    } else if j < tokens.len() {
                        Err(tok_err(SyntaxCtx::CloseParen, tokens, j))
                    } else {
                        Err(eof_err(SyntaxCtx::CloseParen))
                    }
                },
                Err(e) => Err(e),
            }
        },
        TokenType::Operator => {
            let value = tokens[idx].value.clone();
            proof {
                assert(toks[idx as int].text == value@);
            }
            let op = Operator::from(value.as_str());
            if op == Operator::Plus || op == Operator::Minus {
                match parse_single_value(tokens, idx + 1) {
                    Ok((v, j)) => {
                        let node = UnaryOperationNode {
                            operator: op,
                            expression: Box::new(TExpressionNode { node: v, t: None }),
                        };
                        Ok((ExpressionNode::UnaryOperationNode(node), j))
                    },
                    Err(e) => Err(e),
                }
            } else {
                Err(tok_err(SyntaxCtx::UnaryOperator, tokens, idx))
            }
        },
        TokenType::NumberLiteral => {
            let value = tokens[idx].value.clone();
            proof {
                assert(toks[idx as int].text == value@);
            }
            if count_char_in(value.as_str(), '.') > 0 {
                let node = FloatLiteralNode { text: value };
                Ok((ExpressionNode::FloatLiteralNode(node), idx + 1))
            } else {
                proof {
                    assert(token_wf(toks[idx as int]));
                    lemma_count_char_zero(value@, '.');
                    assert forall|k: int| 0 <= k < value@.len() implies is_digit_char(
                        #[trigger] value@[k],
                    ) by {
                        assert(crate::text::is_number_char(value@[k]));
                        assert(value@[k] != '.');
                    }
                }
                match parse_int_value(value.as_str()) {
                    Some(v) => {
                        let node = IntLiteralNode { value: v };
                        Ok((ExpressionNode::IntLiteralNode(node), idx + 1))
                    },
                    None => Err(tok_err(SyntaxCtx::NumberTooLarge, tokens, idx)),
                }
            }
        },
        TokenType::BoolLiteral => {
            let value = tokens[idx].value.clone();
            proof {
                assert(toks[idx as int].text == value@);
            }
            let b = crate::text::text_eq(value.as_str(), "true");
            let node = BoolLiteralNode { value: b };
            Ok((ExpressionNode::BoolLiteralNode(node), idx + 1))
        },
        TokenType::StringLiteral => {
            let value = tokens[idx].value.clone();
            proof {
                assert(toks[idx as int].text == value@);
                assert(token_wf(toks[idx as int]));
            }
            let l = value.as_str().unicode_len();
            let stripped = String::from_str(value.as_str().substring_char(1, l - 1));
            let node = StringLiteralNode { value: stripped };
            Ok((ExpressionNode::StringLiteralNode(node), idx + 1))
        },
        TokenType::CharLiteral => {
            let value = tokens[idx].value.clone();
            proof {
                assert(toks[idx as int].text == value@);
                assert(token_wf(toks[idx as int]));
            }
            let c = value.as_str().get_char(1);
            let node = CharLiteralNode { value: c };
            Ok((ExpressionNode::CharLiteralNode(node), idx + 1))
        },
        TokenType::Name => {
            if idx + 1 >= tokens.len() {
                Err(eof_err(SyntaxCtx::ExprAfterName))
            } else if tokens[idx + 1].kind == TokenType::OpenParen {
                match parse_function_call(tokens, idx) {
                    Ok((node, j)) => Ok((ExpressionNode::FunctionCallNode(node), j)),
                    Err(e) => Err(e),
                }
            } else {
                let value = tokens[idx].value.clone();
                proof {
                    assert(toks[idx as int].text == value@);
                }
                let node = VariableNode { name: value };
                Ok((ExpressionNode::VariableNode(node), idx + 1))
            }
        },
        _ => Err(tok_err(SyntaxCtx::ExprValue, tokens, idx)),
    }
}

/// A function call `name ( args )`, without a statement terminator. The
/// caller has seen the name at `idx` and the opening parenthesis after it.
fn parse_function_call(tokens: &Vec<Token>, idx: usize) -> (r: Result<
    (FunctionCallNode, usize),
    SyntaxError,
>)
    requires
        tokens_wf(token_views(tokens@)),
        idx + 2 <= tokens@.len(),
    ensures
        match p_function_call(token_views(tokens@), idx as int) {
            Ok(((name, args), j)) => r matches Ok(p) && p.0.function.name@ == name && texprs_view(
                p.0.args,
                0,
            ) == args && p.1 == j && idx < p.1 <= tokens@.len(),
            Err(ev) => r matches Err(se) && se@ == ev,
        },
    decreases tokens@.len() - idx, 3int,
{
    let ghost toks = token_views(tokens@);
    let n = tokens.len();
    let name = tokens[idx].value.clone();
    proof {
        assert(toks[idx as int].text == name@);
    }
    let function = FunctionNode { name };
    let k = idx + 2;
    if k >= n {
        return Err(eof_err(SyntaxCtx::CallCloseParen));
    }
    if tokens[k].kind == TokenType::CloseParen {
        let node = FunctionCallNode { function, args: Vec::new() };
        proof {
            assert(texprs_view(node.args, 0) =~= Seq::<crate::nodes::TExprV>::empty());
        }
        return Ok((node, k + 1));
    }
    match parse_call_args(tokens, k) {
        Ok((args, j)) => Ok((FunctionCallNode { function, args }, j)),
        Err(e) => Err(e),
    }
}

/// A nonempty argument list `expr (, expr)* )`, consuming the closing
/// parenthesis.
fn parse_call_args(tokens: &Vec<Token>, idx: usize) -> (r: Result<
    (Vec<TExpressionNode>, usize),
    SyntaxError,
>)
    requires
        tokens_wf(token_views(tokens@)),
    ensures
        match p_call_args(token_views(tokens@), idx as int) {
            Ok((args, j)) => r matches Ok(p) && texprs_view(p.0, 0) == args && p.1 == j && idx < p.1
                <= tokens@.len(),
            Err(ev) => r matches Err(se) && se@ == ev,
        },
    decreases tokens@.len() - idx, 6int,
{
    let ghost toks = token_views(tokens@);
    if idx >= tokens.len() {
        return Err(eof_err(SyntaxCtx::ExprValue));
    }
    match parse_expression(tokens, idx) {
        Ok((e, j)) => {
            let arg = TExpressionNode { node: e, t: None };
            if j >= tokens.len() {
                return Err(eof_err(SyntaxCtx::CallCloseParen));
            }
            if tokens[j].kind == TokenType::CloseParen {
                let mut args: Vec<TExpressionNode> = Vec::new();
                args.push(arg);
                proof {
                    lemma_texprs_view(args, 0);
                    assert(texprs_view(args, 0) =~= seq![texpr_view(args@[0])]);
                }
                Ok((args, j + 1))
            } else if tokens[j].kind == TokenType::Comma {
                match parse_call_args(tokens, j + 1) {
                    Ok((rest, j2)) => {
                        let mut rest = rest;
                        let ghost rest_view = texprs_view(rest, 0);
                        let ghost rest0 = rest@;
                        proof {
                            lemma_texprs_view(rest, 0);
                        }
                        let mut args: Vec<TExpressionNode> = Vec::new();
                        args.push(arg);
                        args.append(&mut rest);
                        proof {
                            lemma_texprs_view(args, 0);
                            assert(args@ =~= seq![arg] + rest0);
                            assert(texprs_view(args, 0) =~= seq![texpr_view(arg)] + rest_view);
                        }
                        Ok((args, j2))
                    },
                    Err(e) => Err(e),
                }
            } else {
                Err(tok_err(SyntaxCtx::CallArgSeparator, tokens, j))
            }
        },
        Err(e) => Err(e),
    }
}

/// An expression: one operand, then any number of binary-operation
/// extensions.
fn parse_expression(tokens: &Vec<Token>, idx: usize) -> (r: Result<
    (ExpressionNode, usize),
    SyntaxError,
>)
    requires
        tokens_wf(token_views(tokens@)),
    ensures
        match p_expression(token_views(tokens@), idx as int) {
            Ok((e, j)) => r matches Ok(p) && expr_view(p.0) == e && p.1 == j && idx < p.1
                < tokens@.len(),
            Err(ev) => r matches Err(se) && se@ == ev,
        },
    decreases tokens@.len() - idx, 5int,
{
    match parse_single_value(tokens, idx) {
        Ok((v, j)) => parse_expr_rest(tokens, j, v),
        Err(e) => Err(e),
    }
}

/// The continuation of an expression after a complete operand or binary
/// operation: stops (without consuming) at a comma, closing parenthesis or
/// semicolon.
fn parse_expr_rest(tokens: &Vec<Token>, idx: usize, cur: ExpressionNode) -> (r: Result<
    (ExpressionNode, usize),
    SyntaxError,
>)
    requires
        tokens_wf(token_views(tokens@)),
    ensures
        match p_expr_rest(token_views(tokens@), idx as int, expr_view(cur)) {
            Ok((e, j)) => r matches Ok(p) && expr_view(p.0) == e && p.1 == j && idx <= p.1
                < tokens@.len(),
            Err(ev) => r matches Err(se) && se@ == ev,
        },
    decreases tokens@.len() - idx, 2int,
{
    let ghost toks = token_views(tokens@);
    if idx >= tokens.len() {
        return Err(eof_err(SyntaxCtx::ExprContinuation));
    }
    let kind = tokens[idx].kind;
    match kind {
        TokenType::Comma | TokenType::CloseParen | TokenType::Semicolon => Ok((cur, idx)),
        TokenType::Operator => {
            match parse_binary(tokens, idx, cur) {
                Ok((e2, j2)) => parse_expr_rest(tokens, j2, e2),
                Err(e) => Err(e),
            }
        },
        _ => Err(tok_err(SyntaxCtx::ExprContinuation, tokens, idx)),
    }
}

/// A binary operation: the operator at `idx` applied to `left` and the
/// operand after it, absorbing tighter-binding operators on the right.
fn parse_binary(tokens: &Vec<Token>, idx: usize, left: ExpressionNode) -> (r: Result<
    (ExpressionNode, usize),
    SyntaxError,
>)
    requires
        tokens_wf(token_views(tokens@)),
        idx < tokens@.len(),
        token_views(tokens@)[idx as int].kind == TokenType::Operator,
    ensures
        match p_binary(token_views(tokens@), idx as int, expr_view(left)) {
            Ok((e, j)) => r matches Ok(p) && expr_view(p.0) == e && p.1 == j && idx < p.1
                < tokens@.len(),
            Err(ev) => r matches Err(se) && se@ == ev,
        },
    decreases tokens@.len() - idx, 1int,
{
    let ghost toks = token_views(tokens@);
    let n = tokens.len();
    let value = tokens[idx].value.clone();
    proof {
        assert(toks[idx as int].text == value@);
        assert(token_wf(toks[idx as int]));
    }
    let op = Operator::from(value.as_str());
    match parse_single_value(tokens, idx + 1) {
        Ok((rhs, j2)) => parse_binary_rest(tokens, j2, op, left, rhs),
        Err(e) => Err(e),
    }
}

/// While the pending operator binds strictly tighter than `op`, absorb it
/// into the right-hand side; then combine `left op right`.
fn parse_binary_rest(
    tokens: &Vec<Token>,
    idx: usize,
    op: Operator,
    left: ExpressionNode,
    right: ExpressionNode,
) -> (r: Result<(ExpressionNode, usize), SyntaxError>)
    requires
        tokens_wf(token_views(tokens@)),
    ensures
        match p_binary_rest(
            token_views(tokens@),
            idx as int,
            op,
            expr_view(left),
            expr_view(right),
        ) {
            Ok((e, j)) => r matches Ok(p) && expr_view(p.0) == e && p.1 == j && idx <= p.1
                < tokens@.len(),
            Err(ev) => r matches Err(se) && se@ == ev,
        },
    decreases tokens@.len() - idx, 2int,
{
    let ghost toks = token_views(tokens@);
    if idx >= tokens.len() {
        return Err(eof_err(SyntaxCtx::BinaryContinuation));
    }
    if tokens[idx].kind == TokenType::Operator {
        let value = tokens[idx].value.clone();
        proof {
            assert(toks[idx as int].text == value@);
            assert(token_wf(toks[idx as int]));
        }
        let op2 = Operator::from(value.as_str());
        if op2.priority_score() > op.priority_score() {
            match parse_binary(tokens, idx, right) {
                Ok((r2, m2)) => parse_binary_rest(tokens, m2, op, left, r2),
                Err(e) => Err(e),
            }
        } else {
            let node = BinaryOperationNode {
                left_expr: Box::new(TExpressionNode { node: left, t: None }),
                operator: op,
                right_expr: Box::new(TExpressionNode { node: right, t: None }),
            };
            Ok((ExpressionNode::BinaryOperationNode(node), idx))
        }
    } else {
        let node = BinaryOperationNode {
            left_expr: Box::new(TExpressionNode { node: left, t: None }),
            operator: op,
            right_expr: Box::new(TExpressionNode { node: right, t: None }),
        };
        Ok((ExpressionNode::BinaryOperationNode(node), idx))
    }
}

/// `let [type]? name = expression ;` — the caller has seen the `let` at
/// `idx`.
fn parse_variable_definition(tokens: &Vec<Token>, idx: usize) -> (r: Result<
    (VariableDefinitionNode, usize),
    SyntaxError,
>)
    requires
        tokens_wf(token_views(tokens@)),
        idx < tokens@.len(),
    ensures
        match p_variable_definition(token_views(tokens@), idx as int) {
            Ok((cmd, j)) => r matches Ok(p) && cmd_view(
                CommandNode::VariableDefinitionNode(p.0),
            ) == cmd && p.1 == j && idx < p.1 <= tokens@.len(),
            Err(ev) => r matches Err(se) && se@ == ev,
        },
    decreases tokens@.len() - idx, 3int,
{
    let ghost toks = token_views(tokens@);
    let n = tokens.len();
    let k = idx + 1;
    if k >= n {
        return Err(eof_err(SyntaxCtx::DefTypeOrName));
    }
    let mut vtype: Option<String> = None;
    let mut k2 = k;
    if tokens[k].kind == TokenType::InbuiltType {
        let tv = tokens[k].value.clone();
        proof {
            assert(toks[k as int].text == tv@);
        }
        vtype = Some(tv);
        k2 = k + 1;
    }
    if k2 >= n {
        return Err(eof_err(SyntaxCtx::DefName));
    }
    if tokens[k2].kind != TokenType::Name {
        return Err(tok_err(SyntaxCtx::DefName, tokens, k2));
    }
    let name = tokens[k2].value.clone();
    proof {
        assert(toks[k2 as int].text == name@);
    }
    let k3 = k2 + 1;
    if k3 >= n {
        return Err(eof_err(SyntaxCtx::DefAssignOp));
    }
    if tokens[k3].kind != TokenType::AssignmentOperator {
        return Err(tok_err(SyntaxCtx::DefAssignOp, tokens, k3));
    }
    let opval = tokens[k3].value.clone();
    proof {
        assert(toks[k3 as int].text == opval@);
    }
    if !crate::text::text_eq(opval.as_str(), "=") {
        return Err(tok_err(SyntaxCtx::DefSpecialAssign, tokens, k3));
    }
    match parse_expression(tokens, k3 + 1) {
        Ok((e, j)) => {
            if j >= n {
                return Err(eof_err(SyntaxCtx::Semicolon));
            }
            if tokens[j].kind == TokenType::Semicolon {
                let node = VariableDefinitionNode {
                    vtype,
                    variable: VariableNode { name },
                    expression: Some(Box::new(TExpressionNode { node: e, t: None })),
                };
                Ok((node, j + 1))
            } else {
                Err(tok_err(SyntaxCtx::Semicolon, tokens, j))
            }
        },
        Err(e) => Err(e),
    }
}

/// `name =|<op>= expression ;` — a compound operator is desugared into
/// `name = name <op> (expression)`.
fn parse_variable_assignment(tokens: &Vec<Token>, idx: usize) -> (r: Result<
    (VariableAssignmentNode, usize),
    SyntaxError,
>)
    requires
        tokens_wf(token_views(tokens@)),
    ensures
        match p_variable_assignment(token_views(tokens@), idx as int) {
            Ok((cmd, j)) => r matches Ok(p) && cmd_view(
                CommandNode::VariableAssignmentNode(p.0),
            ) == cmd && p.1 == j && idx < p.1 <= tokens@.len(),
            Err(ev) => r matches Err(se) && se@ == ev,
        },
    decreases tokens@.len() - idx, 3int,
{
    let ghost toks = token_views(tokens@);
    let n = tokens.len();
    if idx >= n {
        return Err(eof_err(SyntaxCtx::AssignName));
    }
    if tokens[idx].kind != TokenType::Name {
        return Err(tok_err(SyntaxCtx::AssignName, tokens, idx));
    }
    let name = tokens[idx].value.clone();
    proof {
        assert(toks[idx as int].text == name@);
    }
    if idx + 1 >= n {
        return Err(eof_err(SyntaxCtx::AssignOp));
    }
    if tokens[idx + 1].kind != TokenType::AssignmentOperator {
        return Err(tok_err(SyntaxCtx::AssignOp, tokens, idx + 1));
    }
    let opval = tokens[idx + 1].value.clone();
    proof {
        assert(toks[idx as int + 1].text == opval@);
    }
    let plain = crate::text::text_eq(opval.as_str(), "=");
    match parse_expression(tokens, idx + 2) {
        Ok((e, j)) => {
            if j >= n {
                return Err(eof_err(SyntaxCtx::Semicolon));
            }
            if tokens[j].kind != TokenType::Semicolon {
                return Err(tok_err(SyntaxCtx::Semicolon, tokens, j));
            }
            let expression: TExpressionNode = if plain {
                TExpressionNode { node: e, t: None }
            } else {
                proof {
                    assert(token_wf(toks[idx as int + 1]));
                }
                let opfirst = String::from_str(opval.as_str().substring_char(0, 1));
                let op = Operator::from(opfirst.as_str());
                let bin = BinaryOperationNode {
                    left_expr: Box::new(
                        TExpressionNode {
                            node: ExpressionNode::VariableNode(
                                VariableNode { name: name.clone() },
                            ),
                            t: None,
                        },
                    ),
                    operator: op,
                    right_expr: Box::new(TExpressionNode { node: e, t: None }),
                };
                TExpressionNode { node: ExpressionNode::BinaryOperationNode(bin), t: None }
            };
            proof {
                reveal_with_fuel(crate::nodes::texpr_view, 4);
                reveal_with_fuel(crate::nodes::expr_view, 4);
            }
            let node = VariableAssignmentNode {
                variable: VariableNode { name },
                expression: Box::new(expression),
            };
            Ok((node, j + 1))
        },
        Err(e) => Err(e),
    }
}

/// One command: a definition after `let`, a call or an assignment after a
/// name.
fn parse_command(tokens: &Vec<Token>, idx: usize) -> (r: Result<(CommandNode, usize), SyntaxError>)
    requires
        tokens_wf(token_views(tokens@)),
    ensures
        match p_command(token_views(tokens@), idx as int) {
            Ok((cmd, j)) => r matches Ok(p) && cmd_view(p.0) == cmd && p.1 == j && idx < p.1
                <= tokens@.len(),
            Err(ev) => r matches Err(se) && se@ == ev,
        },
    decreases tokens@.len() - idx, 4int,
{
    let ghost toks = token_views(tokens@);
    let n = tokens.len();
    if idx >= n {
        return Err(eof_err(SyntaxCtx::Command));
    }
    let kind = tokens[idx].kind;
    match kind {
        TokenType::Keyword => {
            let value = tokens[idx].value.clone();
            proof {
                assert(toks[idx as int].text == value@);
            }
            if crate::text::text_eq(value.as_str(), "let") {
                match parse_variable_definition(tokens, idx) {
                    Ok((node, j)) => Ok((CommandNode::VariableDefinitionNode(node), j)),
                    Err(e) => Err(e),
                }
            } else {
                Err(tok_err(SyntaxCtx::CommandKeyword, tokens, idx))
            }
        },
        TokenType::Name => {
            if idx + 1 >= n {
                return Err(eof_err(SyntaxCtx::CommandAfterName));
            }
            match tokens[idx + 1].kind {
                TokenType::OpenParen => {
                    match parse_function_call(tokens, idx) {
                        Ok((node, j)) => {
                            if j >= n {
                                return Err(eof_err(SyntaxCtx::CallSemicolon));
                            }
                            if tokens[j].kind == TokenType::Semicolon {
                                Ok((CommandNode::FunctionCallNode(node), j + 1))
                            } else {
                                Err(tok_err(SyntaxCtx::CallSemicolon, tokens, j))
                            }
                        },
                        Err(e) => Err(e),
                    }
                },
                TokenType::AssignmentOperator => {
                    match parse_variable_assignment(tokens, idx) {
                        Ok((node, j)) => Ok((CommandNode::VariableAssignmentNode(node), j)),
                        Err(e) => Err(e),
                    }
                },
                _ => Err(tok_err(SyntaxCtx::CommandAfterName, tokens, idx + 1)),
            }
        },
        _ => Err(tok_err(SyntaxCtx::Command, tokens, idx)),
    }
}

/// The parser: a token sequence and an advancing cursor.
pub struct Parser {
    pub tokens: Vec<Token>,
    pub idx: usize,
}

impl Parser {
    /// The cursor never stands past the end of the token sequence.
    pub open spec fn wf(&self) -> bool {
        self.idx <= self.tokens@.len()
    }

    /// The models of the parser's tokens.
    pub open spec fn toks(&self) -> Seq<crate::lexer::TokenModel> {
        token_views(self.tokens@)
    }

    pub fn new(tokens: Vec<Token>) -> (r: Parser)
        ensures
            r.tokens == tokens,
            r.idx == 0,
            r.wf(),
    {
        Parser { tokens, idx: 0 }
    }

    /// Parses the whole token sequence into a program scope, exactly as
    /// `p_program_from` describes from the current cursor on.
    pub fn parse(&mut self) -> (r: Result<ScopeNode, SyntaxError>)
        requires
            old(self).wf(),
            tokens_wf(token_views(old(self).tokens@)),
        ensures
            final(self).tokens == old(self).tokens,
            match p_program_from(token_views(old(self).tokens@), old(self).idx as int) {
                Ok(sv) => r matches Ok(sc) && crate::nodes::scope_view(sc) == sv,
                Err(ev) => r matches Err(se) && se@ == ev,
            },
    {
        let ghost toks = token_views(self.tokens@);
        let ghost i0 = self.idx as int;
        let mut commands: Vec<CommandNode> = Vec::new();
        proof {
            assert(cmds_view(commands, 0) =~= Seq::<crate::nodes::CmdV>::empty());
            match p_program_from(toks, i0) {
                Ok(sc) => {
                    assert(cmds_view(commands, 0) + sc.commands =~= sc.commands);
                },
                Err(_) => {},
            }
        }
        while self.idx < self.tokens.len()
            invariant
                self.wf(),
                self.tokens == old(self).tokens,
                toks == token_views(self.tokens@),
                tokens_wf(toks),
                i0 == old(self).idx as int,
                crate::parse_spec::prog_cont(
                    cmds_view(commands, 0),
                    p_program_from(toks, self.idx as int),
                ) == p_program_from(toks, i0),
            decreases self.tokens@.len() - self.idx,
        {
            let ghost i = self.idx as int;
            match parse_command(&self.tokens, self.idx) {
                Ok((cmd, j)) => {
                    let ghost done0 = cmds_view(commands, 0);
                    proof {
                        lemma_cmds_view(commands, 0);
                    }
                    commands.push(cmd);
                    self.idx = j;
                    proof {
                        lemma_cmds_view(commands, 0);
                        assert(cmds_view(commands, 0) =~= done0 + seq![
                            crate::nodes::cmd_view(cmd),
                        ]);
                        match p_command(toks, i) {
                            Ok((cmd_v, j_v)) => {
                                assert(crate::lexer::step_idx(j_v, i, toks.len() as int) == j_v);
                                match p_program_from(toks, j_v) {
                                    Ok(sc) => {
                                        assert((done0 + seq![cmd_v]) + sc.commands =~= done0 + (
                                        seq![cmd_v] + sc.commands));
                                    },
                                    Err(_) => {},
                                }
                            },
                            Err(_) => {
                                assert(false);
                            },
                        }
                    }
                },
                Err(e) => {
                    proof {
                        match p_command(toks, i) {
                            Err(ev) => {
                                assert(p_program_from(toks, i) == Err::<
                                    crate::nodes::ScopeV,
                                    crate::errors::SynErrV,
                                >(ev));
                            },
                            Ok(_) => {
                                assert(false);
                            },
                        }
                    }
                    return Err(e);
                },
            }
        }
        proof {
            match p_program_from(toks, self.idx as int) {
                Ok(sc) => {
                    assert(sc.commands =~= Seq::<crate::nodes::CmdV>::empty());
                    assert(cmds_view(commands, 0) + sc.commands =~= cmds_view(commands, 0));
                },
                Err(_) => {},
            }
        }
        Ok(ScopeNode { commands })
    }
}

} // verus!
