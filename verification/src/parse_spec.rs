//! The grammar of the language, written as spec functions: recursive descent
//! for statements and precedence climbing for expressions, over a sequence of
//! token models.
//!
//! Each function returns `Ok((result, next))` — the parsed construct and the
//! index of the first unconsumed token — or the first syntax error. The
//! executable `Parser` is proved to return exactly these results.

use crate::errors::{SynErrV, SyntaxCtx};
use crate::lexer::{step_idx, TokenModel, TokenType};
use crate::nodes::{op_from_text, op_priority, CmdV, ExprV, Operator, ScopeV, TExprV};
use crate::text::{count_char, is_digit_char};
use vstd::prelude::*;

verus! {

/// The tokens not yet consumed at position `i`; the measure of the mutual
/// recursion below.
pub open spec fn rem(toks: Seq<TokenModel>, i: int) -> int {
    if i <= toks.len() {
        toks.len() - i
    } else {
        0
    }
}

/// The numeric value of a digit character.
pub open spec fn digit_val(c: char) -> int {
    (c as u32) - 48
}

/// The value of a decimal digit string.
pub open spec fn digits_val(s: Seq<char>) -> int
    decreases s.len(),
{
    if s.len() == 0 {
        0
    } else {
        digits_val(s.drop_last()) * 10 + digit_val(s.last())
    }
}

/// A digit string's value is nonnegative.
pub proof fn lemma_digits_val_nonneg(s: Seq<char>)
    requires
        forall|k: int| 0 <= k < s.len() ==> is_digit_char(#[trigger] s[k]),
    ensures
        digits_val(s) >= 0,
    decreases s.len(),
{
    if s.len() > 0 {
        lemma_digits_val_nonneg(s.drop_last());
        assert(is_digit_char(s.last()));
    }
}

/// A digit string's value only grows as digits are appended.
pub proof fn lemma_digits_val_prefix(s: Seq<char>, k: int)
    requires
        forall|j: int| 0 <= j < s.len() ==> is_digit_char(#[trigger] s[j]),
        0 <= k <= s.len(),
    ensures
        digits_val(s.subrange(0, k)) <= digits_val(s),
    decreases s.len() - k,
{
    if k < s.len() {
        let p = s.subrange(0, k);
        let q = s.subrange(0, k + 1);
        assert(q.drop_last() =~= p);
        assert(forall|j: int| 0 <= j < p.len() ==> is_digit_char(#[trigger] p[j]));
        lemma_digits_val_nonneg(p);
        assert(is_digit_char(q.last()));
        lemma_digits_val_prefix(s, k + 1);
    } else {
        assert(s.subrange(0, k) =~= s);
    }
}

/// An untyped expression in a fresh, not yet typed slot.
pub open spec fn untyped(e: ExprV) -> TExprV {
    TExprV { node: e, t: None }
}

/// A syntax error: what was expected, and the offending token's text.
pub open spec fn syn_err(ctx: SyntaxCtx, found: Option<Seq<char>>) -> SynErrV {
    SynErrV { ctx, found }
}

/// One operand: a parenthesized sub-expression, a unary `+`/`-` applied to an
/// operand, a literal, a variable reference, or a function call.
pub open spec fn p_single_value(toks: Seq<TokenModel>, i: int) -> Result<(ExprV, int), SynErrV>
    decreases rem(toks, i), 4int,
{
    if !(0 <= i < toks.len()) {
        Err(syn_err(SyntaxCtx::ExprValue, None))
    } else {
        let t = toks[i];
        match t.kind {
            TokenType::OpenParen => match p_expression(toks, i + 1) {
                Ok((e, j)) => if 0 <= j < toks.len() && toks[j].kind == TokenType::CloseParen {
                    Ok((e, j + 1))
                } else {
                    Err(
                        syn_err(
                            SyntaxCtx::CloseParen,
                            if 0 <= j < toks.len() {
                                Some(toks[j].text)
                            } else {
                                None
                            },
                        ),
                    )
                },
                Err(e) => Err(e),
            },
            TokenType::Operator => {
                let op = match op_from_text(t.text) {
                    Some(op) => op,
                    None => Operator::Multiply,
                };
                if op == Operator::Plus || op == Operator::Minus {
                    match p_single_value(toks, i + 1) {
                        Ok((v, j)) => Ok(
                            (ExprV::Unary { op, expr: Box::new(untyped(v)) }, j),
                        ),
                        Err(e) => Err(e),
                    }
                } else {
                    Err(syn_err(SyntaxCtx::UnaryOperator, Some(t.text)))
                }
            },
            TokenType::NumberLiteral => {
                if count_char(t.text, '.') > 0 {
                    Ok((ExprV::FloatLit { text: t.text }, i + 1))
                } else if digits_val(t.text) <= i64::MAX {
                    Ok((ExprV::IntLit { value: digits_val(t.text) }, i + 1))
                } else {
                    Err(syn_err(SyntaxCtx::NumberTooLarge, Some(t.text)))
                }
            },
            TokenType::BoolLiteral => Ok((ExprV::BoolLit { value: t.text == "true"@ }, i + 1)),
            TokenType::StringLiteral => Ok(
                (
                    ExprV::StrLit {
                        value: if t.text.len() >= 2 {
                            t.text.subrange(1, t.text.len() - 1)
                        } else {
                            Seq::empty()
                        },
                    },
                    i + 1,
                ),
            ),
            TokenType::CharLiteral => Ok(
                (
                    ExprV::CharLit {
                        value: if t.text.len() >= 2 {
                            t.text[1]
                        } else {
                            '\''
                        },
                    },
                    i + 1,
                ),
            ),
            TokenType::Name => {
                if !(i + 1 < toks.len()) {
                    Err(syn_err(SyntaxCtx::ExprAfterName, None))
                } else if toks[i + 1].kind == TokenType::OpenParen {
                    match p_function_call(toks, i) {
                        Ok(((name, args), j)) => Ok((ExprV::Call { name, args }, j)),
                        Err(e) => Err(e),
                    }
                } else {
                    Ok((ExprV::Var { name: t.text }, i + 1))
                }
            },
            _ => Err(syn_err(SyntaxCtx::ExprValue, Some(t.text))),
        }
    }
}

/// A function call `name ( args )`, without a statement terminator: the name
/// at `i` must be followed by an opening parenthesis.
pub open spec fn p_function_call(toks: Seq<TokenModel>, i: int) -> Result<
    ((Seq<char>, Seq<TExprV>), int),
    SynErrV,
>
    decreases rem(toks, i), 3int,
{
    if !(0 <= i < toks.len()) {
        Err(syn_err(SyntaxCtx::ExprValue, None))
    } else {
        let name = toks[i].text;
        let k = i + 2;
        if !(k < toks.len()) {
            Err(syn_err(SyntaxCtx::CallCloseParen, None))
        } else if toks[k].kind == TokenType::CloseParen {
            Ok(((name, Seq::empty()), k + 1))
        } else {
            match p_call_args(toks, k) {
                Ok((args, j)) => Ok(((name, args), j)),
                Err(e) => Err(e),
            }
        }
    }
}

/// A nonempty argument list `expr (, expr)* )`, consuming the closing
/// parenthesis.
pub open spec fn p_call_args(toks: Seq<TokenModel>, k: int) -> Result<(Seq<TExprV>, int), SynErrV>
    decreases rem(toks, k), 6int,
{
    if !(0 <= k < toks.len()) {
        // what `p_expression` itself answers past the end
        Err(syn_err(SyntaxCtx::ExprValue, None))
    } else {
        match p_expression(toks, k) {
        Ok((e, j)) => {
            let arg = untyped(e);
            if !(0 <= j < toks.len()) {
                Err(syn_err(SyntaxCtx::CallCloseParen, None))
            } else if toks[j].kind == TokenType::CloseParen {
                Ok((seq![arg], j + 1))
            } else if toks[j].kind == TokenType::Comma {
                match p_call_args(toks, step_idx(j + 1, k, toks.len() as int)) {
                    Ok((args, j2)) => Ok((seq![arg] + args, j2)),
                    Err(e2) => Err(e2),
                }
            } else {
                Err(syn_err(SyntaxCtx::CallArgSeparator, Some(toks[j].text)))
            }
        },
            Err(e) => Err(e),
        }
    }
}

/// An expression: one operand, then any number of binary-operation
/// extensions, stopping (without consuming) at a comma, closing parenthesis
/// or semicolon.
pub open spec fn p_expression(toks: Seq<TokenModel>, i: int) -> Result<(ExprV, int), SynErrV>
    decreases rem(toks, i), 5int,
{
    match p_single_value(toks, i) {
        Ok((v, j)) => p_expr_rest(toks, step_idx(j, i, toks.len() as int), v),
        Err(e) => Err(e),
    }
}

/// The continuation of an expression after a complete operand or binary
/// operation.
pub open spec fn p_expr_rest(toks: Seq<TokenModel>, j: int, cur: ExprV) -> Result<
    (ExprV, int),
    SynErrV,
>
    decreases rem(toks, j), 2int,
{
    if !(0 <= j < toks.len()) {
        Err(syn_err(SyntaxCtx::ExprContinuation, None))
    } else {
        match toks[j].kind {
            TokenType::Comma | TokenType::CloseParen | TokenType::Semicolon => Ok((cur, j)),
            TokenType::Operator => match p_binary(toks, j, cur) {
                Ok((e2, j2)) => p_expr_rest(toks, step_idx(j2, j, toks.len() as int), e2),
                Err(e) => Err(e),
            },
            _ => Err(syn_err(SyntaxCtx::ExprContinuation, Some(toks[j].text))),
        }
    }
}

/// A binary operation: the operator at `j` applied to `left` and the operand
/// after it, absorbing tighter-binding operators on the right.
pub open spec fn p_binary(toks: Seq<TokenModel>, j: int, left: ExprV) -> Result<
    (ExprV, int),
    SynErrV,
>
    decreases rem(toks, j), 1int,
{
    if !(0 <= j < toks.len()) {
        Err(syn_err(SyntaxCtx::BinaryContinuation, None))
    } else {
        let op = match op_from_text(toks[j].text) {
            Some(op) => op,
            None => Operator::Plus,
        };
        match p_single_value(toks, j + 1) {
            Ok((rhs, j2)) => p_binary_rest(toks, step_idx(j2, j, toks.len() as int), op, left, rhs),
            Err(e) => Err(e),
        }
    }
}

/// While the pending operator binds strictly tighter than `op`, absorb it
/// into the right-hand side; then combine.
pub open spec fn p_binary_rest(
    toks: Seq<TokenModel>,
    m: int,
    op: Operator,
    left: ExprV,
    right: ExprV,
) -> Result<(ExprV, int), SynErrV>
    decreases rem(toks, m), 2int,
{
    if !(0 <= m < toks.len()) {
        Err(syn_err(SyntaxCtx::BinaryContinuation, None))
    } else if toks[m].kind == TokenType::Operator && op_priority(
        match op_from_text(toks[m].text) {
            Some(op2) => op2,
            None => Operator::Plus,
        },
    ) > op_priority(op) {
        match p_binary(toks, m, right) {
            Ok((r2, m2)) => p_binary_rest(toks, step_idx(m2, m, toks.len() as int), op, left, r2),
            Err(e) => Err(e),
        }
    } else {
        Ok(
            (
                ExprV::Binary {
                    left: Box::new(untyped(left)),
                    op,
                    right: Box::new(untyped(right)),
                },
                m,
            ),
        )
    }
}

/// `let [type]? name = expression ;` — the compound assignment operators are
/// rejected here.
pub open spec fn p_variable_definition(toks: Seq<TokenModel>, i: int) -> Result<
    (CmdV, int),
    SynErrV,
>
    decreases rem(toks, i), 3int,
{
    let k = i + 1;
    if !(0 <= i && k < toks.len()) {
        Err(syn_err(SyntaxCtx::DefTypeOrName, None))
    } else {
        let has_type = toks[k].kind == TokenType::InbuiltType;
        let vtype: Option<Seq<char>> = if has_type {
            Some(toks[k].text)
        } else {
            None
        };
        let k2 = if has_type {
            k + 1
        } else {
            k
        };
        if !(k2 < toks.len()) {
            Err(syn_err(SyntaxCtx::DefName, None))
        } else if toks[k2].kind != TokenType::Name {
            Err(syn_err(SyntaxCtx::DefName, Some(toks[k2].text)))
        } else {
            let name = toks[k2].text;
            let k3 = k2 + 1;
            if !(k3 < toks.len()) {
                Err(syn_err(SyntaxCtx::DefAssignOp, None))
            } else if toks[k3].kind != TokenType::AssignmentOperator {
                Err(syn_err(SyntaxCtx::DefAssignOp, Some(toks[k3].text)))
            } else if toks[k3].text != "="@ {
                Err(syn_err(SyntaxCtx::DefSpecialAssign, Some(toks[k3].text)))
            } else {
                match p_expression(toks, k3 + 1) {
                    Ok((e, j)) => if !(0 <= j < toks.len()) {
                        Err(syn_err(SyntaxCtx::Semicolon, None))
                    } else if toks[j].kind == TokenType::Semicolon {
                        Ok(
                            (
                                CmdV::Def { vtype, name, expr: Some(untyped(e)) },
                                j + 1,
                            ),
                        )
                    } else {
                        Err(syn_err(SyntaxCtx::Semicolon, Some(toks[j].text)))
                    },
                    Err(e) => Err(e),
                }
            }
        }
    }
}

/// `name <op>= expression ;` — a compound operator is desugared into
/// `name = name <op> (expression)`.
pub open spec fn p_variable_assignment(toks: Seq<TokenModel>, i: int) -> Result<
    (CmdV, int),
    SynErrV,
>
    decreases rem(toks, i), 3int,
{
    if !(0 <= i < toks.len()) {
        Err(syn_err(SyntaxCtx::AssignName, None))
    } else if toks[i].kind != TokenType::Name {
        Err(syn_err(SyntaxCtx::AssignName, Some(toks[i].text)))
    } else {
        let name = toks[i].text;
        if !(i + 1 < toks.len()) {
            Err(syn_err(SyntaxCtx::AssignOp, None))
        } else if toks[i + 1].kind != TokenType::AssignmentOperator {
            Err(syn_err(SyntaxCtx::AssignOp, Some(toks[i + 1].text)))
        } else {
            let opt = toks[i + 1].text;
            match p_expression(toks, i + 2) {
                Ok((e, j)) => if !(0 <= j < toks.len()) {
                    Err(syn_err(SyntaxCtx::Semicolon, None))
                } else if toks[j].kind != TokenType::Semicolon {
                    Err(syn_err(SyntaxCtx::Semicolon, Some(toks[j].text)))
                } else {
                    let expr = if opt == "="@ {
                        untyped(e)
                    } else {
                        let op = match op_from_text(opt.subrange(0, 1)) {
                            Some(op) => op,
                            None => Operator::Plus,
                        };
                        untyped(
                            ExprV::Binary {
                                left: Box::new(untyped(ExprV::Var { name })),
                                op,
                                right: Box::new(untyped(e)),
                            },
                        )
                    };
                    Ok((CmdV::Assign { name, expr }, j + 1))
                },
                Err(e) => Err(e),
            }
        }
    }
}

/// One command: a definition after `let`, a call or an assignment after a
/// name, anything else is a syntax error.
pub open spec fn p_command(toks: Seq<TokenModel>, i: int) -> Result<(CmdV, int), SynErrV>
    decreases rem(toks, i), 4int,
{
    if !(0 <= i < toks.len()) {
        Err(syn_err(SyntaxCtx::Command, None))
    } else {
        let t = toks[i];
        match t.kind {
            TokenType::Keyword => if t.text == "let"@ {
                p_variable_definition(toks, i)
            } else {
                Err(syn_err(SyntaxCtx::CommandKeyword, Some(t.text)))
            },
            TokenType::Name => if !(i + 1 < toks.len()) {
                Err(syn_err(SyntaxCtx::CommandAfterName, None))
            } else {
                match toks[i + 1].kind {
                    TokenType::OpenParen => match p_function_call(toks, i) {
                        Ok(((name, args), j)) => if !(0 <= j < toks.len()) {
                            Err(syn_err(SyntaxCtx::CallSemicolon, None))
                        } else if toks[j].kind == TokenType::Semicolon {
                            Ok((CmdV::Call { name, args }, j + 1))
                        } else {
                            Err(syn_err(SyntaxCtx::CallSemicolon, Some(toks[j].text)))
                        },
                        Err(e) => Err(e),
                    },
                    TokenType::AssignmentOperator => p_variable_assignment(toks, i),
                    _ => Err(syn_err(SyntaxCtx::CommandAfterName, Some(toks[i + 1].text))),
                }
            },
            _ => Err(syn_err(SyntaxCtx::Command, Some(t.text))),
        }
    }
}

/// The program from position `i` on: commands until the tokens are exhausted.
pub open spec fn p_program_from(toks: Seq<TokenModel>, i: int) -> Result<ScopeV, SynErrV>
    decreases rem(toks, i), 7int,
{
    if !(0 <= i < toks.len()) {
        Ok(ScopeV { commands: Seq::empty() })
    } else {
        match p_command(toks, i) {
            Ok((cmd, j)) => match p_program_from(toks, step_idx(j, i, toks.len() as int)) {
                Ok(sc) => Ok(ScopeV { commands: seq![cmd] + sc.commands }),
                Err(e) => Err(e),
            },
            Err(e) => Err(e),
        }
    }
}

/// Prefixes `done` onto the commands of a parse result.
pub open spec fn prog_cont(done: Seq<CmdV>, r: Result<ScopeV, SynErrV>) -> Result<ScopeV, SynErrV> {
    match r {
        Ok(sc) => Ok(ScopeV { commands: done + sc.commands }),
        Err(e) => Err(e),
    }
}

/// Parsing of a whole token sequence.
pub open spec fn parse_program(toks: Seq<TokenModel>) -> Result<ScopeV, SynErrV> {
    p_program_from(toks, 0)
}

} // verus!
