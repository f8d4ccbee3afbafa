//! The semantic analyzer: walks the AST, fills every expression's type slot,
//! and enforces the typing rules against the symbol table.

use crate::errors::SemanticError;
use crate::nodes::{
    cmd_view, cmds_view, expr_view, lemma_cmds_view, scope_view, texpr_view, BinaryOperationNode,
    CommandNode, ExpressionNode, FunctionCallNode, ScopeNode, TExpressionNode, Type,
    UnaryOperationNode, VariableAssignmentNode, VariableDefinitionNode, VariableNode,
};
use crate::semantics::{annotate_texpr, check_cmd, check_cmds, check_cont, expr_type, SymTab};
use crate::text::text_eq;
use vstd::prelude::*;
use vstd::string::StrSliceExecFns;

verus! {

/// The value of an entry list as a map: a later entry for the same name
/// overrides an earlier one.
pub open spec fn entries_map(s: Seq<(String, Type)>) -> SymTab
    decreases s.len(),
{
    if s.len() == 0 {
        Map::empty()
    } else {
        entries_map(s.drop_last()).insert(s.last().0@, s.last().1)
    }
}

/// The symbol table: a mapping from variable name to its type, with
/// overriding insertion.
pub struct SymbolTable {
    entries: Vec<(String, Type)>,
}

impl View for SymbolTable {
    type V = SymTab;

    closed spec fn view(&self) -> SymTab {
        entries_map(self.entries@)
    }
}

/// An entry whose name does not recur later holds the map's value for it.
proof fn lemma_entries_map_find(s: Seq<(String, Type)>, i: int, k: Seq<char>)
    requires
        0 <= i < s.len(),
        s[i].0@ == k,
        forall|j: int| i < j < s.len() ==> #[trigger] s[j].0@ != k,
    ensures
        entries_map(s).dom().contains(k),
        entries_map(s)[k] == s[i].1,
    decreases s.len(),
{
    if i < s.len() - 1 {
        assert(s.drop_last()[i].0@ == k);
        assert(forall|j: int|
            i < j < s.len() - 1 ==> #[trigger] s.drop_last()[j].0@ != k);
        lemma_entries_map_find(s.drop_last(), i, k);
        assert(s.last().0@ != k);
    }
}

/// A name in no entry is not in the map.
proof fn lemma_entries_map_absent(s: Seq<(String, Type)>, k: Seq<char>)
    requires
        forall|j: int| 0 <= j < s.len() ==> #[trigger] s[j].0@ != k,
    ensures
        !entries_map(s).dom().contains(k),
    decreases s.len(),
{
    if s.len() > 0 {
        assert(forall|j: int|
            0 <= j < s.len() - 1 ==> #[trigger] s.drop_last()[j].0@ != k);
        lemma_entries_map_absent(s.drop_last(), k);
    }
}

impl SymbolTable {
    pub fn new() -> (r: SymbolTable)
        ensures
            r@ == Map::<Seq<char>, Type>::empty(),
    {
        SymbolTable { entries: Vec::new() }
    }

    /// Records `name` with type `t`, overriding any earlier entry.
    pub fn insert(&mut self, name: String, t: Type)
        ensures
            final(self)@ == old(self)@.insert(name@, t),
    {
        let ghost s0 = self.entries@;
        self.entries.push((name, t));
        proof {
            assert(self.entries@.drop_last() =~= s0);
        }
    }

    /// The recorded type of `name`, if a definition has introduced it.
    pub fn get(&self, name: &str) -> (r: Option<Type>)
        ensures
            match r {
                Some(t) => self@.dom().contains(name@) && self@[name@] == t,
                None => !self@.dom().contains(name@),
            },
    {
        let ghost s = self.entries@;
        let mut i = self.entries.len();
        loop
            invariant
                s == self.entries@,
                0 <= i <= s.len(),
                forall|j: int| i <= j < s.len() ==> #[trigger] s[j].0@ != name@,
            ensures
                0 <= i <= s.len(),
                forall|j: int| i <= j < s.len() ==> #[trigger] s[j].0@ != name@,
                i > 0 ==> s[i - 1].0@ == name@,
            decreases i,
        {
            if i == 0 {
                break ;
            }
            if text_eq(self.entries[i - 1].0.as_str(), name) {
                break ;
            }
            i -= 1;
        }
        if i > 0 {
            proof {
                lemma_entries_map_find(s, i - 1, name@);
            }
            Some(self.entries[i - 1].1)
        } else {
            proof {
                lemma_entries_map_absent(s, name@);
            }
            None
        }
    }
}

/// The semantic analyzer: owns the symbol table for one analysis pass.
pub struct VariableTraverser {
    pub variable_table: SymbolTable,
}

impl VariableTraverser {
    pub fn new() -> (r: VariableTraverser)
        ensures
            r.variable_table@ == Map::<Seq<char>, Type>::empty(),
    {
        VariableTraverser { variable_table: SymbolTable::new() }
    }

    /// Types one expression tree bottom-up: the annotated tree and its type,
    /// or the first semantic error (in which case nothing is promised about
    /// the returned tree).
    fn assign_expression_type(tbl: &SymbolTable, te: TExpressionNode) -> (r: (
        TExpressionNode,
        Result<Type, SemanticError>,
    ))
        ensures
            match expr_type(tbl@, expr_view(te.node)) {
                Ok(t) => (r.1 matches Ok(t2) && t2 == t) && texpr_view(r.0) == annotate_texpr(
                    tbl@,
                    texpr_view(te),
                ),
                Err(ev) => r.1 matches Err(se) && se@ == ev,
            },
        decreases te,
    {
        let TExpressionNode { node, t: old_t } = te;
        match node {
            ExpressionNode::VariableNode(v) => {
                match tbl.get(v.name.as_str()) {
                    Some(ty) => (
                        TExpressionNode {
                            node: ExpressionNode::VariableNode(v),
                            t: Some(ty),
                        },
                        Ok(ty),
                    ),
                    None => {
                        let err = SemanticError::UndefinedVariable { name: v.name.clone() };
                        (
                            TExpressionNode {
                                node: ExpressionNode::VariableNode(v),
                                t: old_t,
                            },
                            Err(err),
                        )
                    },
                }
            },
            ExpressionNode::UnaryOperationNode(u) => {
                let UnaryOperationNode { operator, expression } = u;
                let (child, tr) = Self::assign_expression_type(tbl, *expression);
                let rebuilt = UnaryOperationNode { operator, expression: Box::new(child) };
                match tr {
                    Ok(ct) => {
                        if ct == Type::Int || ct == Type::Float {
                            (
                                TExpressionNode {
                                    node: ExpressionNode::UnaryOperationNode(rebuilt),
                                    t: Some(ct),
                                },
                                Ok(ct),
                            )
                        } else {
                            (
                                TExpressionNode {
                                    node: ExpressionNode::UnaryOperationNode(rebuilt),
                                    t: old_t,
                                },
                                Err(SemanticError::InvalidUnaryType { found: ct }),
                            )
                        }
                    },
                    Err(e) => (
                        TExpressionNode {
                            node: ExpressionNode::UnaryOperationNode(rebuilt),
                            t: old_t,
                        },
                        Err(e),
                    ),
                }
            },
            ExpressionNode::BinaryOperationNode(b) => {
                let BinaryOperationNode { left_expr, operator, right_expr } = b;
                let (lchild, ltr) = Self::assign_expression_type(tbl, *left_expr);
                match ltr {
                    Err(e) => {
                        let rebuilt = BinaryOperationNode {
                            left_expr: Box::new(lchild),
                            operator,
                            right_expr,
                        };
                        (
                            TExpressionNode {
                                node: ExpressionNode::BinaryOperationNode(rebuilt),
                                t: old_t,
                            },
                            Err(e),
                        )
                    },
                    Ok(lt) => {
                        let (rchild, rtr) = Self::assign_expression_type(tbl, *right_expr);
                        let rebuilt = BinaryOperationNode {
                            left_expr: Box::new(lchild),
                            operator,
                            right_expr: Box::new(rchild),
                        };
                        match rtr {
                            Err(e) => (
                                TExpressionNode {
                                    node: ExpressionNode::BinaryOperationNode(rebuilt),
                                    t: old_t,
                                },
                                Err(e),
                            ),
                            Ok(rt) => {
                                let l_num = lt == Type::Int || lt == Type::Float;
                                let r_num = rt == Type::Int || rt == Type::Float;
                                if !l_num || !r_num {
                                    (
                                        TExpressionNode {
                                            node: ExpressionNode::BinaryOperationNode(rebuilt),
                                            t: old_t,
                                        },
                                        Err(
                                            SemanticError::InvalidBinaryTypes {
                                                left: lt,
                                                right: rt,
                                            },
                                        ),
                                    )
                                } else {
                                    let ty = if lt == Type::Float || rt == Type::Float {
                                        Type::Float
                                    } else {
                                        Type::Int
                                    };
                                    (
                                        TExpressionNode {
                                            node: ExpressionNode::BinaryOperationNode(rebuilt),
                                            t: Some(ty),
                                        },
                                        Ok(ty),
                                    )
                                }
                            },
                        }
                    },
                }
            },
            ExpressionNode::FunctionCallNode(f) => {
                let err = SemanticError::CallInExpression { name: f.function.name.clone() };
                (
                    TExpressionNode { node: ExpressionNode::FunctionCallNode(f), t: old_t },
                    Err(err),
                )
            },
            ExpressionNode::IntLiteralNode(n) => (
                TExpressionNode {
                    node: ExpressionNode::IntLiteralNode(n),
                    t: Some(Type::Int),
                },
                Ok(Type::Int),
            ),
            ExpressionNode::FloatLiteralNode(n) => (
                TExpressionNode {
                    node: ExpressionNode::FloatLiteralNode(n),
                    t: Some(Type::Float),
                },
                Ok(Type::Float),
            ),
            ExpressionNode::BoolLiteralNode(n) => (
                TExpressionNode {
                    node: ExpressionNode::BoolLiteralNode(n),
                    t: Some(Type::Bool),
                },
                Ok(Type::Bool),
            ),
            ExpressionNode::CharLiteralNode(n) => (
                TExpressionNode {
                    node: ExpressionNode::CharLiteralNode(n),
                    t: Some(Type::Char),
                },
                Ok(Type::Char),
            ),
            ExpressionNode::StringLiteralNode(n) => (
                TExpressionNode {
                    node: ExpressionNode::StringLiteralNode(n),
                    t: Some(Type::Str),
                },
                Ok(Type::Str),
            ),
        }
    }

    /// Checks one command against the symbol table, recording definitions.
    fn check_command(&mut self, c: CommandNode) -> (r: Result<CommandNode, SemanticError>)
        ensures
            match check_cmd(old(self).variable_table@, cmd_view(c)) {
                Ok((c2, tbl2)) => (r matches Ok(cc) && cmd_view(cc) == c2)
                    && final(self).variable_table@ == tbl2,
                Err(ev) => r matches Err(se) && se@ == ev,
            },
    {
        match c {
            CommandNode::VariableDefinitionNode(d) => {
                let VariableDefinitionNode { vtype, variable, expression } = d;
                match vtype {
                    Some(ts) => {
                        let known = text_eq(ts.as_str(), "int") || text_eq(ts.as_str(), "float")
                            || text_eq(ts.as_str(), "bool") || text_eq(ts.as_str(), "char")
                            || text_eq(ts.as_str(), "str");
                        if !known {
                            return Err(SemanticError::UnknownTypeName { name: ts });
                        }
                        let vt = Type::from(ts.as_str());
                        match expression {
                            Some(b) => {
                                let (te2, tr) = Self::assign_expression_type(
                                    &self.variable_table,
                                    *b,
                                );
                                match tr {
                                    Ok(rt) => {
                                        if vt != rt {
                                            Err(
                                                SemanticError::MismatchedDefinition {
                                                    declared: vt,
                                                    found: rt,
                                                },
                                            )
                                        } else {
                                            self.variable_table.insert(variable.name.clone(), vt);
                                            Ok(
                                                CommandNode::VariableDefinitionNode(
                                                    VariableDefinitionNode {
                                                        vtype: Some(ts),
                                                        variable,
                                                        expression: Some(Box::new(te2)),
                                                    },
                                                ),
                                            )
                                        }
                                    },
                                    Err(e) => Err(e),
                                }
                            },
                            None => {
                                self.variable_table.insert(variable.name.clone(), vt);
                                Ok(
                                    CommandNode::VariableDefinitionNode(
                                        VariableDefinitionNode {
                                            vtype: Some(ts),
                                            variable,
                                            expression: None,
                                        },
                                    ),
                                )
                            },
                        }
                    },
                    None => {
                        match expression {
                            Some(b) => {
                                let (te2, tr) = Self::assign_expression_type(
                                    &self.variable_table,
                                    *b,
                                );
                                match tr {
                                    Ok(rt) => {
                                        self.variable_table.insert(variable.name.clone(), rt);
                                        Ok(
                                            CommandNode::VariableDefinitionNode(
                                                VariableDefinitionNode {
                                                    vtype: None,
                                                    variable,
                                                    expression: Some(Box::new(te2)),
                                                },
                                            ),
                                        )
                                    },
                                    Err(e) => Err(e),
                                }
                            },
                            None => Err(SemanticError::UndefinedTypeInDefinition),
                        }
                    },
                }
            },
            CommandNode::VariableAssignmentNode(a) => {
                let VariableAssignmentNode { variable, expression } = a;
                match self.variable_table.get(variable.name.as_str()) {
                    None => Err(SemanticError::AssignUndefined { name: variable.name }),
                    Some(vt) => {
                        let (te2, tr) = Self::assign_expression_type(
                            &self.variable_table,
                            *expression,
                        );
                        match tr {
                            Ok(rt) => {
                                if vt != rt {
                                    Err(
                                        SemanticError::AssignMismatch {
                                            expected: vt,
                                            found: rt,
                                        },
                                    )
                                } else {
                                    Ok(
                                        CommandNode::VariableAssignmentNode(
                                            VariableAssignmentNode {
                                                variable,
                                                expression: Box::new(te2),
                                            },
                                        ),
                                    )
                                }
                            },
                            Err(e) => Err(e),
                        }
                    },
                }
            },
            CommandNode::FunctionCallNode(f) => {
                let FunctionCallNode { function, args } = f;
                if !text_eq(function.name.as_str(), "print") {
                    return Err(SemanticError::UndefinedFunction { name: function.name });
                }
                proof {
                    crate::nodes::lemma_texprs_view(args, 0);
                }
                if args.len() != 1 {
                    return Err(SemanticError::WrongArgumentCount);
                }
                let mut args = args;
                let ghost args0 = args;
                let a0 = args.remove(0);
                proof {
                    crate::nodes::lemma_texprs_view(args0, 0);
                }
                let (a2, tr) = Self::assign_expression_type(&self.variable_table, a0);
                match tr {
                    Ok(_) => {
                        let mut newargs: Vec<TExpressionNode> = Vec::new();
                        newargs.push(a2);
                        proof {
                            crate::nodes::lemma_texprs_view(newargs, 0);
                            assert(crate::nodes::texprs_view(newargs, 0) =~= seq![
                                texpr_view(newargs@[0]),
                            ]);
                        }
                        Ok(
                            CommandNode::FunctionCallNode(
                                FunctionCallNode { function, args: newargs },
                            ),
                        )
                    },
                    Err(e) => Err(e),
                }
            },
        }
    }

    /// Analyzes a whole scope: fills every type slot and updates the symbol
    /// table, or stops at the first semantic error (in which case nothing is
    /// promised about the scope's content).
    pub fn traverse(&mut self, scope_node: &mut ScopeNode) -> (r: Result<(), SemanticError>)
        ensures
            match check_cmds(
                old(self).variable_table@,
                scope_view(*old(scope_node)).commands,
            ) {
                Ok((cs, tbl)) => (r matches Ok(_) && scope_view(*final(scope_node)).commands
                    == cs) && final(self).variable_table@ == tbl,
                Err(ev) => r matches Err(se) && se@ == ev,
            },
    {
        let ghost cmds0 = cmds_view(old(scope_node).commands, 0);
        let ghost tbl0 = old(self).variable_table@;
        let mut out: Vec<CommandNode> = Vec::new();
        proof {
            assert(cmds_view(out, 0) =~= Seq::<crate::nodes::CmdV>::empty());
            match check_cmds(tbl0, cmds0) {
                Ok((cs, tbl)) => {
                    assert(cmds_view(out, 0) + cs =~= cs);
                },
                Err(_) => {},
            }
        }
        while scope_node.commands.len() > 0
            invariant
                tbl0 == old(self).variable_table@,
                cmds0 == cmds_view(old(scope_node).commands, 0),
                check_cont(
                    cmds_view(out, 0),
                    check_cmds(
                        self.variable_table@,
                        cmds_view(scope_node.commands, 0),
                    ),
                ) == check_cmds(tbl0, cmds0),
            decreases scope_node.commands@.len(),
        {
            let ghost pending = cmds_view(scope_node.commands, 0);
            let ghost tbl_now = self.variable_table@;
            proof {
                lemma_cmds_view(scope_node.commands, 0);
            }
            let c = scope_node.commands.remove(0);
            proof {
                lemma_cmds_view(scope_node.commands, 0);
                assert(cmds_view(scope_node.commands, 0) =~= pending.subrange(
                    1,
                    pending.len() as int,
                ));
            }
            match self.check_command(c) {
                Ok(c2) => {
                    let ghost done0 = cmds_view(out, 0);
                    proof {
                        lemma_cmds_view(out, 0);
                    }
                    out.push(c2);
                    proof {
                        lemma_cmds_view(out, 0);
                        assert(cmds_view(out, 0) =~= done0 + seq![cmd_view(c2)]);
                        match check_cmd(tbl_now, cmd_view(c)) {
                            Ok((cv2, tbl2)) => {
                                match check_cmds(tbl2, cmds_view(scope_node.commands, 0)) {
                                    Ok((rest, tbl3)) => {
                                        assert((done0 + seq![cv2]) + rest =~= done0 + (seq![
                                            cv2,
                                        ] + rest));
                                    },
                                    Err(_) => {},
                                }
                            },
                            Err(_) => {
                                assert(false);
                            },
                        }
                    }
                },
                Err(e) => {
                    return Err(e);
                },
            }
        }
        proof {
            assert(cmds_view(scope_node.commands, 0) =~= Seq::<crate::nodes::CmdV>::empty());
            match check_cmds(tbl0, cmds0) {
                Ok((cs, tbl)) => {
                    assert(cmds_view(out, 0) + Seq::<crate::nodes::CmdV>::empty() =~= cmds_view(
                        out,
                        0,
                    ));
                },
                Err(_) => {},
            }
        }
        scope_node.commands = out;
        Ok(())
    }
}

} // verus!
