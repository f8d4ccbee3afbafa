//! The typing rules of the language, written as spec functions: expression
//! type computation, type annotation, and per-command checking with the
//! symbol table threaded through.
//!
//! The executable `VariableTraverser` is proved to behave exactly as
//! `check_cmds` describes.

use crate::errors::SemErrV;
use crate::nodes::{type_from_text, CmdV, ExprV, TExprV, Type};
use vstd::prelude::*;

verus! {

/// The symbol table: each defined variable's name mapped to its type.
pub type SymTab = Map<Seq<char>, Type>;

/// Whether a type may take part in arithmetic.
pub open spec fn is_numeric(t: Type) -> bool {
    t == Type::Int || t == Type::Float
}

/// The type of an expression under a symbol table, or the first semantic
/// error found: bottom-up, left before right, with the float-absorption rule
/// for binary operations. A function call inside an expression is always an
/// error.
pub open spec fn expr_type(tbl: SymTab, e: ExprV) -> Result<Type, SemErrV>
    decreases e,
{
    match e {
        ExprV::Var { name } => if tbl.dom().contains(name) {
            Ok(tbl[name])
        } else {
            Err(SemErrV::UndefinedVariable { name })
        },
        ExprV::Unary { op, expr } => match expr_type(tbl, (*expr).node) {
            Ok(t) => if is_numeric(t) {
                Ok(t)
            } else {
                Err(SemErrV::InvalidUnaryType { found: t })
            },
            Err(e2) => Err(e2),
        },
        ExprV::Binary { left, op, right } => match expr_type(tbl, (*left).node) {
            Ok(lt) => match expr_type(tbl, (*right).node) {
                Ok(rt) => if !is_numeric(lt) || !is_numeric(rt) {
                    Err(SemErrV::InvalidBinaryTypes { left: lt, right: rt })
                } else if lt == Type::Float || rt == Type::Float {
                    Ok(Type::Float)
                } else {
                    Ok(Type::Int)
                },
                Err(e2) => Err(e2),
            },
            Err(e2) => Err(e2),
        },
        ExprV::IntLit { .. } => Ok(Type::Int),
        ExprV::FloatLit { .. } => Ok(Type::Float),
        ExprV::BoolLit { .. } => Ok(Type::Bool),
        ExprV::CharLit { .. } => Ok(Type::Char),
        ExprV::StrLit { .. } => Ok(Type::Str),
        ExprV::Call { name, args } => Err(SemErrV::CallInExpression { name }),
    }
}

/// The tree with every successfully typed slot filled in. Only meaningful
/// where `expr_type` succeeds; an erroneous slot keeps its old content.
pub open spec fn annotate_texpr(tbl: SymTab, te: TExprV) -> TExprV
    decreases te,
{
    TExprV {
        node: annotate_expr(tbl, te.node),
        t: match expr_type(tbl, te.node) {
            Ok(t) => Some(t),
            Err(_) => te.t,
        },
    }
}

/// The structural part of annotation: slots are filled inside unary and
/// binary operations; other nodes keep their shape.
pub open spec fn annotate_expr(tbl: SymTab, e: ExprV) -> ExprV
    decreases e,
{
    match e {
        ExprV::Binary { left, op, right } => ExprV::Binary {
            left: Box::new(annotate_texpr(tbl, *left)),
            op,
            right: Box::new(annotate_texpr(tbl, *right)),
        },
        ExprV::Unary { op, expr } => ExprV::Unary {
            op,
            expr: Box::new(annotate_texpr(tbl, *expr)),
        },
        _ => e,
    }
}

/// One command checked under a symbol table: the annotated command and the
/// updated table, or the first semantic error.
pub open spec fn check_cmd(tbl: SymTab, c: CmdV) -> Result<(CmdV, SymTab), SemErrV> {
    match c {
        CmdV::Def { vtype, name, expr } => match vtype {
            Some(ts) => match type_from_text(ts) {
                None => Err(SemErrV::UnknownTypeName { name: ts }),
                Some(vt) => match expr {
                    Some(te) => match expr_type(tbl, te.node) {
                        Ok(rt) => if vt != rt {
                            Err(SemErrV::MismatchedDefinition { declared: vt, found: rt })
                        } else {
                            Ok(
                                (
                                    CmdV::Def {
                                        vtype,
                                        name,
                                        expr: Some(annotate_texpr(tbl, te)),
                                    },
                                    tbl.insert(name, vt),
                                ),
                            )
                        },
                        Err(e2) => Err(e2),
                    },
                    None => Ok((CmdV::Def { vtype, name, expr }, tbl.insert(name, vt))),
                },
            },
            None => match expr {
                Some(te) => match expr_type(tbl, te.node) {
                    Ok(rt) => Ok(
                        (
                            CmdV::Def { vtype, name, expr: Some(annotate_texpr(tbl, te)) },
                            tbl.insert(name, rt),
                        ),
                    ),
                    Err(e2) => Err(e2),
                },
                None => Err(SemErrV::UndefinedTypeInDefinition),
            },
        },
        CmdV::Assign { name, expr } => if !tbl.dom().contains(name) {
            Err(SemErrV::AssignUndefined { name })
        } else {
            match expr_type(tbl, expr.node) {
                Ok(rt) => if tbl[name] != rt {
                    Err(SemErrV::AssignMismatch { expected: tbl[name], found: rt })
                } else {
                    Ok((CmdV::Assign { name, expr: annotate_texpr(tbl, expr) }, tbl))
                },
                Err(e2) => Err(e2),
            }
        },
        CmdV::Call { name, args } => if name != "print"@ {
            Err(SemErrV::UndefinedFunction { name })
        } else if args.len() != 1 {
            Err(SemErrV::WrongArgumentCount)
        } else {
            match expr_type(tbl, args[0].node) {
                Ok(_) => Ok(
                    (CmdV::Call { name, args: seq![annotate_texpr(tbl, args[0])] }, tbl),
                ),
                Err(e2) => Err(e2),
            }
        },
    }
}

/// A command sequence checked front to back, threading the symbol table:
/// the annotated commands and the final table, or the first error.
pub open spec fn check_cmds(tbl: SymTab, cs: Seq<CmdV>) -> Result<(Seq<CmdV>, SymTab), SemErrV>
    decreases cs.len(),
{
    if cs.len() == 0 {
        Ok((Seq::empty(), tbl))
    } else {
        match check_cmd(tbl, cs[0]) {
            Ok((c2, tbl2)) => match check_cmds(tbl2, cs.subrange(1, cs.len() as int)) {
                Ok((rest, tbl3)) => Ok((seq![c2] + rest, tbl3)),
                Err(e2) => Err(e2),
            },
            Err(e2) => Err(e2),
        }
    }
}

/// Prefixes `done` onto the annotated commands of a checking result.
pub open spec fn check_cont(done: Seq<CmdV>, r: Result<(Seq<CmdV>, SymTab), SemErrV>) -> Result<
    (Seq<CmdV>, SymTab),
    SemErrV,
> {
    match r {
        Ok((cs, tbl)) => Ok((done + cs, tbl)),
        Err(e) => Err(e),
    }
}

} // verus!
