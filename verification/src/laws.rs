//! Properties of the pipeline that hold for all inputs, stated and proved
//! once and for all: full annotation after a successful analysis, the
//! desugaring of compound assignments, the numeric promotion rule, and the
//! overwriting behavior of variable redefinition.

use crate::compile_spec;
use crate::errors::SynErrV;
use crate::lexer::{TokenModel, TokenType};
use crate::nodes::{CmdV, ExprV, Operator, TExprV, Type};
use crate::parse_spec::{p_expression, p_variable_assignment, untyped};
use crate::semantics::{annotate_texpr, check_cmd, check_cmds, expr_type, is_numeric, SymTab};
use vstd::prelude::*;

verus! {

/// A typed expression node whose slot, and all of whose children's slots,
/// are filled.
pub open spec fn texpr_annotated(te: TExprV) -> bool
    decreases te,
{
    te.t is Some && expr_annotated(te.node)
}

/// An expression all of whose typed sub-nodes carry a filled slot.
pub open spec fn expr_annotated(e: ExprV) -> bool
    decreases e,
{
    match e {
        ExprV::Binary { left, op, right } => texpr_annotated(*left) && texpr_annotated(*right),
        ExprV::Unary { op, expr } => texpr_annotated(*expr),
        ExprV::Call { name, args } => texprs_annotated(args, 0),
        _ => true,
    }
}

/// All argument slots from index `i` on are filled.
pub open spec fn texprs_annotated(args: Seq<TExprV>, i: int) -> bool
    decreases args, args.len() - i,
{
    if 0 <= i < args.len() {
        texpr_annotated(args[i]) && texprs_annotated(args, i + 1)
    } else {
        true
    }
}

/// A command all of whose expressions carry filled slots.
pub open spec fn cmd_annotated(c: CmdV) -> bool {
    match c {
        CmdV::Def { vtype, name, expr } => match expr {
            Some(te) => texpr_annotated(te),
            None => true,
        },
        CmdV::Assign { name, expr } => texpr_annotated(expr),
        CmdV::Call { name, args } => texprs_annotated(args, 0),
    }
}

/// A successfully typed expression comes out of annotation with every slot
/// filled.
proof fn lemma_annotate_filled(tbl: SymTab, te: TExprV)
    requires
        expr_type(tbl, te.node) is Ok,
    ensures
        texpr_annotated(annotate_texpr(tbl, te)),
    decreases te,
{
    match te.node {
        ExprV::Binary { left, op, right } => {
            lemma_annotate_filled(tbl, *left);
            lemma_annotate_filled(tbl, *right);
        },
        ExprV::Unary { op, expr } => {
            lemma_annotate_filled(tbl, *expr);
        },
        _ => {},
    }
}

/// A successfully checked command comes out with every slot filled.
proof fn lemma_check_cmd_annotated(tbl: SymTab, c: CmdV, c2: CmdV, tbl2: SymTab)
    requires
        check_cmd(tbl, c) == Ok::<(CmdV, SymTab), crate::errors::SemErrV>((c2, tbl2)),
    ensures
        cmd_annotated(c2),
{
    match c {
        CmdV::Def { vtype, name, expr } => {
            match expr {
                Some(te) => {
                    if expr_type(tbl, te.node) is Ok {
                        lemma_annotate_filled(tbl, te);
                    }
                },
                None => {},
            }
        },
        CmdV::Assign { name, expr } => {
            lemma_annotate_filled(tbl, expr);
        },
        CmdV::Call { name, args } => {
            lemma_annotate_filled(tbl, args[0]);
            let s = seq![annotate_texpr(tbl, args[0])];
            assert(texprs_annotated(s, 1));
            assert(s[0] == annotate_texpr(tbl, args[0]));
            assert(texprs_annotated(s, 0));
        },
    }
}

/// After a successful analysis pass, no typed expression node is left with
/// an absent type: every command the checker returns is fully annotated.
pub proof fn lemma_analysis_fully_annotates(tbl: SymTab, cs: Seq<CmdV>, cs2: Seq<CmdV>, tbl2: SymTab)
    requires
        check_cmds(tbl, cs) == Ok::<(Seq<CmdV>, SymTab), crate::errors::SemErrV>((cs2, tbl2)),
    ensures
        forall|k: int| 0 <= k < cs2.len() ==> cmd_annotated(#[trigger] cs2[k]),
    decreases cs.len(),
{
    if cs.len() > 0 {
        match check_cmd(tbl, cs[0]) {
            Ok((c2, tblm)) => {
                lemma_check_cmd_annotated(tbl, cs[0], c2, tblm);
                match check_cmds(tblm, cs.subrange(1, cs.len() as int)) {
                    Ok((rest, tbl3)) => {
                        lemma_analysis_fully_annotates(
                            tblm,
                            cs.subrange(1, cs.len() as int),
                            rest,
                            tbl3,
                        );
                        assert forall|k: int| 0 <= k < cs2.len() implies cmd_annotated(
                            #[trigger] cs2[k],
                        ) by {
                            if k > 0 {
                                assert(cs2[k] == rest[k - 1]);
                            }
                        }
                    },
                    Err(_) => {},
                }
            },
            Err(_) => {},
        }
    }
}

/// For every valid program, the whole pipeline hands back a fully annotated
/// tree: compilation never leaves a typed expression node with an absent
/// type.
pub proof fn lemma_compile_fully_annotates(src: Seq<char>)
    ensures
        compile_spec(src) matches Ok(sv) ==> forall|k: int|
            0 <= k < sv.commands.len() ==> cmd_annotated(#[trigger] sv.commands[k]),
{
    match crate::lexer::lex_spec(src) {
        crate::lexer::LexOut::Toks { tokens } => {
            match crate::parse_spec::parse_program(tokens) {
                Ok(sv0) => {
                    match check_cmds(Map::empty(), sv0.commands) {
                        Ok((cs, tbl)) => {
                            lemma_analysis_fully_annotates(Map::empty(), sv0.commands, cs, tbl);
                        },
                        Err(_) => {},
                    }
                },
                Err(_) => {},
            }
        },
        crate::lexer::LexOut::Fail { .. } => {},
    }
}

/// Compound assignment desugars: `name <op>= e ;` parses into exactly the
/// assignment of `name <op> (e)` to `name`, with a fresh reference to the
/// same variable as the left operand — so the type checker sees the same
/// tree it would see for the spelled-out form.
pub proof fn lemma_compound_assignment_desugars(
    toks: Seq<TokenModel>,
    i: int,
    op: Operator,
    e: ExprV,
    j: int,
)
    requires
        0 <= i,
        i + 1 < toks.len(),
        toks[i].kind == TokenType::Name,
        toks[i + 1].kind == TokenType::AssignmentOperator,
        toks[i + 1].text != "="@,
        crate::nodes::op_from_text(toks[i + 1].text.subrange(0, 1)) == Some(op),
        p_expression(toks, i + 2) == Ok::<(ExprV, int), SynErrV>((e, j)),
        0 <= j < toks.len(),
        toks[j].kind == TokenType::Semicolon,
    ensures
        p_variable_assignment(toks, i) == Ok::<(CmdV, int), SynErrV>(
            (
                CmdV::Assign {
                    name: toks[i].text,
                    expr: untyped(
                        ExprV::Binary {
                            left: Box::new(untyped(ExprV::Var { name: toks[i].text })),
                            op,
                            right: Box::new(untyped(e)),
                        },
                    ),
                },
                j + 1,
            ),
        ),
{
}

/// Type promotion: a binary operation over numeric operands has type
/// `Float` exactly when either operand has type `Float`, and type `Int`
/// otherwise.
pub proof fn lemma_binary_promotion(tbl: SymTab, l: TExprV, op: Operator, r: TExprV, lt: Type, rt: Type)
    requires
        expr_type(tbl, l.node) == Ok::<Type, crate::errors::SemErrV>(lt),
        expr_type(tbl, r.node) == Ok::<Type, crate::errors::SemErrV>(rt),
        is_numeric(lt),
        is_numeric(rt),
    ensures
        expr_type(tbl, ExprV::Binary { left: Box::new(l), op, right: Box::new(r) }) == Ok::<
            Type,
            crate::errors::SemErrV,
        >(
            if lt == Type::Float || rt == Type::Float {
                Type::Float
            } else {
                Type::Int
            },
        ),
{
}

/// Redefinition overwrites: a successful later definition of a name
/// replaces its recorded type, whatever was recorded for it before, and
/// leaves every other name's record unchanged.
pub proof fn lemma_redefinition_overwrites(
    tbl: SymTab,
    d: CmdV,
    n: Seq<char>,
    c2: CmdV,
    tbl2: SymTab,
)
    requires
        d matches CmdV::Def { name, .. } && name == n,
        check_cmd(tbl, d) == Ok::<(CmdV, SymTab), crate::errors::SemErrV>((c2, tbl2)),
    ensures
        tbl2.dom().contains(n),
        tbl2 == tbl.insert(n, tbl2[n]),
        forall|k: Seq<char>|
            k != n ==> (#[trigger] tbl2.dom().contains(k) <==> tbl.dom().contains(k)),
        forall|k: Seq<char>| k != n && tbl.dom().contains(k) ==> #[trigger] tbl2[k] == tbl[k],
{
    match d {
        CmdV::Def { vtype, name, expr } => {
            assert(tbl2 =~= tbl.insert(n, tbl2[n]));
        },
        _ => {},
    }
}

} // verus!
