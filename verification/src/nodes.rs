//! The AST vocabulary shared by the parser and the semantic analyzer:
//! operators, value types, and the tree node kinds.

use vstd::prelude::*;

verus! {

broadcast use {vstd::std_specs::vec::axiom_vec_index_decreases, vstd::seq::axiom_seq_index_decreases};

/// A binary/unary arithmetic operator of the language.
#[derive(Clone, Copy, PartialEq, Eq, Structural, Debug)]
pub enum Operator {
    Plus,
    Minus,
    Multiply,
    Divide,
    Modulo,
}

/// The source text of an operator.
pub open spec fn op_text(op: Operator) -> Seq<char> {
    match op {
        Operator::Plus => "+"@,
        Operator::Minus => "-"@,
        Operator::Multiply => "*"@,
        Operator::Divide => "/"@,
        Operator::Modulo => "%"@,
    }
}

/// The operator named by a piece of source text, if any.
pub open spec fn op_from_text(s: Seq<char>) -> Option<Operator> {
    if s == "+"@ {
        Some(Operator::Plus)
    } else if s == "-"@ {
        Some(Operator::Minus)
    } else if s == "*"@ {
        Some(Operator::Multiply)
    } else if s == "/"@ {
        Some(Operator::Divide)
    } else if s == "%"@ {
        Some(Operator::Modulo)
    } else {
        None
    }
}

/// Priority score of an operator: additive operators bind weaker (1) than
/// multiplicative ones (2).
pub open spec fn op_priority(op: Operator) -> int {
    match op {
        Operator::Plus | Operator::Minus => 1,
        Operator::Multiply | Operator::Divide | Operator::Modulo => 2,
    }
}

impl Operator {
    /// Builds the operator named by `op`. Texts outside the closed operator
    /// set indicate a defect in the caller and are excluded up front.
    pub fn from(op: &str) -> (r: Operator)
        requires
            op_from_text(op@) is Some,
        ensures
            Some(r) == op_from_text(op@),
    {
        proof {
            reveal_strlit("+");
            reveal_strlit("-");
            reveal_strlit("*");
            reveal_strlit("/");
            reveal_strlit("%");
        }
        let c = op.get_char(0);
        match c {
            '+' => Operator::Plus,
            '-' => Operator::Minus,
            '*' => Operator::Multiply,
            '/' => Operator::Divide,
            _ => {
                proof {
                    assert(op@ == "%"@);
                }
                Operator::Modulo
            },
        }
    }

    pub fn to_str(&self) -> (r: String)
        ensures
            r@ == op_text(*self),
    {
        match self {
            Operator::Plus => String::from_str("+"),
            Operator::Minus => String::from_str("-"),
            Operator::Multiply => String::from_str("*"),
            Operator::Divide => String::from_str("/"),
            Operator::Modulo => String::from_str("%"),
        }
    }

    pub fn priority_score(&self) -> (r: u32)
        ensures
            r == op_priority(*self),
    {
        match self {
            Operator::Plus | Operator::Minus => 1,
            Operator::Multiply | Operator::Divide | Operator::Modulo => 2,
        }
    }
}

/// A value type of the language. The set is closed; comparison is structural.
#[derive(Clone, Copy, PartialEq, Eq, Structural, Debug)]
pub enum Type {
    Int,
    Float,
    Bool,
    Char,
    Str,
}

/// The source name of a value type.
pub open spec fn type_text(t: Type) -> Seq<char> {
    match t {
        Type::Int => "int"@,
        Type::Float => "float"@,
        Type::Bool => "bool"@,
        Type::Char => "char"@,
        Type::Str => "str"@,
    }
}

/// The value type named by a piece of source text, if any. The inbuilt type
/// names `uint` and `ufloat` are recognized by the lexer but have no value
/// type here, so they map to `None` like any other unknown text.
pub open spec fn type_from_text(s: Seq<char>) -> Option<Type> {
    if s == "int"@ {
        Some(Type::Int)
    } else if s == "float"@ {
        Some(Type::Float)
    } else if s == "bool"@ {
        Some(Type::Bool)
    } else if s == "char"@ {
        Some(Type::Char)
    } else if s == "str"@ {
        Some(Type::Str)
    } else {
        None
    }
}

impl Type {
    /// Builds the value type named by `typename`. Names outside the closed
    /// type set indicate a defect in the caller and are excluded up front.
    pub fn from(typename: &str) -> (r: Type)
        requires
            type_from_text(typename@) is Some,
        ensures
            Some(r) == type_from_text(typename@),
    {
        if crate::text::text_eq(typename, "int") {
            Type::Int
        } else if crate::text::text_eq(typename, "float") {
            Type::Float
        } else if crate::text::text_eq(typename, "bool") {
            Type::Bool
        } else if crate::text::text_eq(typename, "char") {
            Type::Char
        } else {
            Type::Str
        }
    }

    pub fn to_str(&self) -> (r: &'static str)
        ensures
            r@ == type_text(*self),
    {
        match self {
            Type::Int => "int",
            Type::Float => "float",
            Type::Bool => "bool",
            Type::Char => "char",
            Type::Str => "str",
        }
    }
}

/// The whole program: one flat scope holding an ordered command sequence.
#[derive(Debug)]
pub struct ScopeNode {
    pub commands: Vec<CommandNode>,
}

/// A reference to a variable by name.
#[derive(Clone, Debug)]
pub struct VariableNode {
    pub name: String,
}

/// `let [type]? name = expression ;`
#[derive(Debug)]
pub struct VariableDefinitionNode {
    /// The explicit type annotation's source text, if one was written.
    pub vtype: Option<String>,
    pub variable: VariableNode,
    pub expression: Option<Box<TExpressionNode>>,
}

/// `name = expression ;`
#[derive(Debug)]
pub struct VariableAssignmentNode {
    pub variable: VariableNode,
    pub expression: Box<TExpressionNode>,
}

/// `left operator right`
#[derive(Debug)]
pub struct BinaryOperationNode {
    pub left_expr: Box<TExpressionNode>,
    pub operator: Operator,
    pub right_expr: Box<TExpressionNode>,
}

/// A prefix `+` or `-` applied to an operand.
#[derive(Debug)]
pub struct UnaryOperationNode {
    pub operator: Operator,
    pub expression: Box<TExpressionNode>,
}

#[derive(Clone, Debug)]
pub struct IntLiteralNode {
    pub value: i64,
}

/// A float literal, kept as its source text: the front end only needs its
/// type, never its numeric value.
#[derive(Clone, Debug)]
pub struct FloatLiteralNode {
    pub text: String,
}

#[derive(Clone, Debug)]
pub struct BoolLiteralNode {
    pub value: bool,
}

/// A string literal, with the surrounding quotes already stripped.
#[derive(Clone, Debug)]
pub struct StringLiteralNode {
    pub value: String,
}

#[derive(Clone, Debug)]
pub struct CharLiteralNode {
    pub value: char,
}

/// `function(args...)`
#[derive(Debug)]
pub struct FunctionCallNode {
    pub function: FunctionNode,
    pub args: Vec<TExpressionNode>,
}

/// A reference to a function by name.
#[derive(Clone, Debug)]
pub struct FunctionNode {
    pub name: String,
}

/// One statement of the program.
#[derive(Debug)]
pub enum CommandNode {
    VariableDefinitionNode(VariableDefinitionNode),
    VariableAssignmentNode(VariableAssignmentNode),
    FunctionCallNode(FunctionCallNode),
}

/// An expression together with its type slot: absent until the semantic
/// analyzer fills it in.
#[derive(Debug)]
pub struct TExpressionNode {
    pub node: ExpressionNode,
    pub t: Option<Type>,
}

/// An expression.
#[derive(Debug)]
pub enum ExpressionNode {
    BinaryOperationNode(BinaryOperationNode),
    UnaryOperationNode(UnaryOperationNode),
    VariableNode(VariableNode),
    IntLiteralNode(IntLiteralNode),
    FloatLiteralNode(FloatLiteralNode),
    BoolLiteralNode(BoolLiteralNode),
    StringLiteralNode(StringLiteralNode),
    CharLiteralNode(CharLiteralNode),
    FunctionCallNode(FunctionCallNode),
}

/// Mathematical model of a typed expression node.
pub struct TExprV {
    pub node: ExprV,
    pub t: Option<Type>,
}

/// Mathematical model of an expression.
pub enum ExprV {
    Binary { left: Box<TExprV>, op: Operator, right: Box<TExprV> },
    Unary { op: Operator, expr: Box<TExprV> },
    Var { name: Seq<char> },
    IntLit { value: int },
    FloatLit { text: Seq<char> },
    BoolLit { value: bool },
    StrLit { value: Seq<char> },
    CharLit { value: char },
    Call { name: Seq<char>, args: Seq<TExprV> },
}

/// Mathematical model of a command.
pub enum CmdV {
    Def { vtype: Option<Seq<char>>, name: Seq<char>, expr: Option<TExprV> },
    Assign { name: Seq<char>, expr: TExprV },
    Call { name: Seq<char>, args: Seq<TExprV> },
}

/// Mathematical model of a program scope.
pub struct ScopeV {
    pub commands: Seq<CmdV>,
}

pub open spec fn texpr_view(t: TExpressionNode) -> TExprV
    decreases t,
{
    TExprV { node: expr_view(t.node), t: t.t }
}

pub open spec fn expr_view(e: ExpressionNode) -> ExprV
    decreases e,
{
    match e {
        ExpressionNode::BinaryOperationNode(b) => ExprV::Binary {
            left: Box::new(texpr_view(*b.left_expr)),
            op: b.operator,
            right: Box::new(texpr_view(*b.right_expr)),
        },
        ExpressionNode::UnaryOperationNode(u) => ExprV::Unary {
            op: u.operator,
            expr: Box::new(texpr_view(*u.expression)),
        },
        ExpressionNode::VariableNode(v) => ExprV::Var { name: v.name@ },
        ExpressionNode::IntLiteralNode(n) => ExprV::IntLit { value: n.value as int },
        ExpressionNode::FloatLiteralNode(n) => ExprV::FloatLit { text: n.text@ },
        ExpressionNode::BoolLiteralNode(n) => ExprV::BoolLit { value: n.value },
        ExpressionNode::StringLiteralNode(n) => ExprV::StrLit { value: n.value@ },
        ExpressionNode::CharLiteralNode(n) => ExprV::CharLit { value: n.value },
        ExpressionNode::FunctionCallNode(f) => ExprV::Call {
            name: f.function.name@,
            args: texprs_view(f.args, 0),
        },
    }
}

/// The models of the argument expressions from index `i` on.
pub open spec fn texprs_view(args: Vec<TExpressionNode>, i: int) -> Seq<TExprV>
    decreases args, args.len() - i,
{
    if 0 <= i < args.len() {
        seq![texpr_view(args[i])] + texprs_view(args, i + 1)
    } else {
        Seq::empty()
    }
}

pub open spec fn cmd_view(c: CommandNode) -> CmdV
    decreases c,
{
    match c {
        CommandNode::VariableDefinitionNode(d) => CmdV::Def {
            vtype: match d.vtype {
                Some(t) => Some(t@),
                None => None,
            },
            name: d.variable.name@,
            expr: match d.expression {
                Some(b) => Some(texpr_view(*b)),
                None => None,
            },
        },
        CommandNode::VariableAssignmentNode(a) => CmdV::Assign {
            name: a.variable.name@,
            expr: texpr_view(*a.expression),
        },
        CommandNode::FunctionCallNode(f) => CmdV::Call {
            name: f.function.name@,
            args: texprs_view(f.args, 0),
        },
    }
}

/// The models of the commands from index `i` on.
pub open spec fn cmds_view(cmds: Vec<CommandNode>, i: int) -> Seq<CmdV>
    decreases cmds, cmds.len() - i,
{
    if 0 <= i < cmds.len() {
        seq![cmd_view(cmds[i])] + cmds_view(cmds, i + 1)
    } else {
        Seq::empty()
    }
}

pub open spec fn scope_view(s: ScopeNode) -> ScopeV {
    ScopeV { commands: cmds_view(s.commands, 0) }
}

pub proof fn lemma_texprs_view(args: Vec<TExpressionNode>, i: int)
    requires
        0 <= i <= args.len(),
    ensures
        texprs_view(args, i).len() == args.len() - i,
        forall|k: int|
            0 <= k < args.len() - i ==> #[trigger] texprs_view(args, i)[k] == texpr_view(
                args[i + k],
            ),
    decreases args.len() - i,
{
    if i < args.len() {
        lemma_texprs_view(args, i + 1);
        assert forall|k: int| 0 <= k < args.len() - i implies #[trigger] texprs_view(args, i)[k]
            == texpr_view(args[i + k]) by {
            if k > 0 {
                assert(texprs_view(args, i)[k] == texprs_view(args, i + 1)[k - 1]);
            }
        }
    }
}

pub proof fn lemma_cmds_view(cmds: Vec<CommandNode>, i: int)
    requires
        0 <= i <= cmds.len(),
    ensures
        cmds_view(cmds, i).len() == cmds.len() - i,
        forall|k: int|
            0 <= k < cmds.len() - i ==> #[trigger] cmds_view(cmds, i)[k] == cmd_view(cmds[i + k]),
    decreases cmds.len() - i,
{
    if i < cmds.len() {
        lemma_cmds_view(cmds, i + 1);
        assert forall|k: int| 0 <= k < cmds.len() - i implies #[trigger] cmds_view(cmds, i)[k]
            == cmd_view(cmds[i + k]) by {
            if k > 0 {
                assert(cmds_view(cmds, i)[k] == cmds_view(cmds, i + 1)[k - 1]);
            }
        }
    }
}

/// `n` tab characters.
pub open spec fn tab_text(n: int) -> Seq<char>
    decreases n,
{
    if n <= 0 {
        Seq::empty()
    } else {
        tab_text(n - 1) + seq!['\t']
    }
}

/// The indentation for one nesting level of the diagnostic dump.
pub fn get_tab_str(tab_lvl: usize) -> (r: String)
    ensures
        r@ == tab_text(tab_lvl as int),
{
    let mut s = String::new();
    let mut i: usize = 0;
    proof {
        assert(s@ =~= tab_text(0));
    }
    while i < tab_lvl
        invariant
            0 <= i <= tab_lvl,
            s@ == tab_text(i as int),
        decreases tab_lvl - i,
    {
        s.append("\t");
        i += 1;
        proof {
            reveal_strlit("\t");
            assert(s@ =~= tab_text(i as int));
        }
    }
    s
}

/// The deepest indentation the diagnostic dump uses: nesting beyond it
/// stays at this level, which keeps the level arithmetic within the machine.
pub const MAX_TAB_LEVEL: usize = 1000000;

/// The next indentation level, capped at `MAX_TAB_LEVEL`.
pub open spec fn next_lvl(lvl: int) -> int {
    if lvl < MAX_TAB_LEVEL {
        lvl + 1
    } else {
        lvl
    }
}

/// The next indentation level, capped at `MAX_TAB_LEVEL`.
pub fn next_tab_lvl(tab_lvl: usize) -> (r: usize)
    ensures
        r as int == next_lvl(tab_lvl as int),
{
    if tab_lvl < MAX_TAB_LEVEL {
        tab_lvl + 1
    } else {
        tab_lvl
    }
}

/// The diagnostic text of an expression, indented `lvl` levels. The format
/// serves human inspection only.
pub open spec fn render_expr(e: ExprV, lvl: int) -> Seq<char>
    decreases e, 1int,
{
    match e {
        ExprV::Binary { left, op, right } => tab_text(lvl) + "Binary operation:\n"@ + render_expr(
            (*left).node,
            next_lvl(lvl),
        ) + tab_text(next_lvl(lvl)) + "Operator: "@ + op_text(op) + "\n"@ + render_expr(
            (*right).node,
            next_lvl(lvl),
        ),
        ExprV::Unary { op, expr } => tab_text(lvl) + "Unary operation:\n"@ + tab_text(
            next_lvl(lvl),
        ) + "Operator: "@ + op_text(op) + "\n"@ + render_expr((*expr).node, next_lvl(lvl)),
        ExprV::Var { name } => tab_text(lvl) + "Variable with name "@ + name + "\n"@,
        ExprV::Call { name, args } => tab_text(lvl) + "Function call calling to function "@ + name
            + "\n"@ + if args.len() == 0 {
            tab_text(lvl) + "without arguments\n"@
        } else {
            render_args(args, 0, lvl)
        },
        ExprV::IntLit { value } => tab_text(lvl) + "Int literal with value "@
            + crate::text::dec_str_signed(value) + "\n"@,
        ExprV::FloatLit { text } => tab_text(lvl) + "Float literal with value "@ + text + "\n"@,
        ExprV::CharLit { value } => tab_text(lvl) + "Char literal with value '"@ + seq![value]
            + "'\n"@,
        ExprV::StrLit { value } => tab_text(lvl) + "String literal with value \""@ + value
            + "\"\n"@,
        ExprV::BoolLit { value } => tab_text(lvl) + "Bool literal with value "@ + if value {
            "true"@
        } else {
            "false"@
        } + "\n"@,
    }
}

/// The diagnostic text of the arguments from index `i` on, numbered from
/// one.
pub open spec fn render_args(args: Seq<TExprV>, i: int, lvl: int) -> Seq<char>
    decreases args, args.len() - i,
{
    if 0 <= i < args.len() {
        tab_text(lvl) + "Argument "@ + crate::text::dec_str(i + 1) + ":\n"@ + render_expr(
            args[i].node,
            next_lvl(lvl),
        ) + render_args(args, i + 1, lvl)
    } else {
        Seq::empty()
    }
}

/// The diagnostic text of a command, indented `lvl` levels.
pub open spec fn render_cmd(c: CmdV, lvl: int) -> Seq<char>
    decreases c,
{
    match c {
        CmdV::Def { vtype, name, expr } => tab_text(lvl) + "Variable definition"@ + (match vtype {
            Some(ts) => " with explicit type "@ + ts,
            None => Seq::empty(),
        }) + " defining variable "@ + name + "\n"@ + (match expr {
            Some(te) => tab_text(next_lvl(lvl)) + "with expression:\n"@ + render_expr(
                te.node,
                next_lvl(lvl),
            ),
            None => Seq::empty(),
        }),
        CmdV::Assign { name, expr } => tab_text(lvl) + "Variable assignment assigning to variable "@
            + name + "\n"@ + tab_text(next_lvl(lvl)) + "with expression:\n"@ + render_expr(
            expr.node,
            next_lvl(lvl),
        ),
        CmdV::Call { name, args } => tab_text(lvl) + "Function call command calling to function "@
            + name + "\n"@ + if args.len() == 0 {
            tab_text(lvl) + "without arguments\n"@
        } else {
            render_args(args, 0, lvl)
        },
    }
}

/// The diagnostic text of the commands from index `i` on, each indented one
/// level.
pub open spec fn render_cmds(cs: Seq<CmdV>, i: int) -> Seq<char>
    decreases cs.len() - i,
{
    if 0 <= i < cs.len() {
        render_cmd(cs[i], 1) + render_cmds(cs, i + 1)
    } else {
        Seq::empty()
    }
}

/// The diagnostic text of an expression tree.
fn expr_debug_str(e: &ExpressionNode, tab_lvl: usize) -> (r: String)
    ensures
        r@ == render_expr(expr_view(*e), tab_lvl as int),
    decreases *e, 1int,
{
    match e {
        ExpressionNode::BinaryOperationNode(b) => {
            let mut s = get_tab_str(tab_lvl);
            s.append("Binary operation:\n");
            s.append(expr_debug_str(&b.left_expr.node, next_tab_lvl(tab_lvl)).as_str());
            s.append(get_tab_str(next_tab_lvl(tab_lvl)).as_str());
            s.append("Operator: ");
            s.append(b.operator.to_str().as_str());
            s.append("\n");
            s.append(expr_debug_str(&b.right_expr.node, next_tab_lvl(tab_lvl)).as_str());
            proof {
                assert(s@ =~= render_expr(expr_view(*e), tab_lvl as int));
            }
            s
        },
        ExpressionNode::UnaryOperationNode(u) => {
            let mut s = get_tab_str(tab_lvl);
            s.append("Unary operation:\n");
            s.append(get_tab_str(next_tab_lvl(tab_lvl)).as_str());
            s.append("Operator: ");
            s.append(u.operator.to_str().as_str());
            s.append("\n");
            s.append(expr_debug_str(&u.expression.node, next_tab_lvl(tab_lvl)).as_str());
            proof {
                assert(s@ =~= render_expr(expr_view(*e), tab_lvl as int));
            }
            s
        },
        ExpressionNode::VariableNode(v) => {
            let mut s = get_tab_str(tab_lvl);
            s.append("Variable with name ");
            s.append(v.name.as_str());
            s.append("\n");
            proof {
                assert(s@ =~= render_expr(expr_view(*e), tab_lvl as int));
            }
            s
        },
        ExpressionNode::FunctionCallNode(f) => {
            let mut s = get_tab_str(tab_lvl);
            s.append("Function call calling to function ");
            s.append(f.function.name.as_str());
            s.append("\n");
            if f.args.len() == 0 {
                s.append(get_tab_str(tab_lvl).as_str());
                s.append("without arguments\n");
            } else {
                s.append(args_debug_str(&f.args, tab_lvl).as_str());
            }
            proof {
                lemma_texprs_view(f.args, 0);
                assert(s@ =~= render_expr(expr_view(*e), tab_lvl as int));
            }
            s
        },
        ExpressionNode::IntLiteralNode(n) => {
            let mut s = get_tab_str(tab_lvl);
            s.append("Int literal with value ");
            s.append(crate::text::i64_to_string(n.value).as_str());
            s.append("\n");
            proof {
                assert(s@ =~= render_expr(expr_view(*e), tab_lvl as int));
            }
            s
        },
        ExpressionNode::FloatLiteralNode(n) => {
            let mut s = get_tab_str(tab_lvl);
            s.append("Float literal with value ");
            s.append(n.text.as_str());
            s.append("\n");
            proof {
                assert(s@ =~= render_expr(expr_view(*e), tab_lvl as int));
            }
            s
        },
        ExpressionNode::CharLiteralNode(n) => {
            let mut s = get_tab_str(tab_lvl);
            s.append("Char literal with value '");
            s.append(crate::text::char_to_string(n.value).as_str());
            s.append("'\n");
            proof {
                assert(s@ =~= render_expr(expr_view(*e), tab_lvl as int));
            }
            s
        },
        ExpressionNode::StringLiteralNode(n) => {
            let mut s = get_tab_str(tab_lvl);
            s.append("String literal with value \"");
            s.append(n.value.as_str());
            s.append("\"\n");
            proof {
                assert(s@ =~= render_expr(expr_view(*e), tab_lvl as int));
            }
            s
        },
        ExpressionNode::BoolLiteralNode(n) => {
            let mut s = get_tab_str(tab_lvl);
            s.append("Bool literal with value ");
            if n.value {
                s.append("true");
            } else {
                s.append("false");
            }
            s.append("\n");
            proof {
                assert(s@ =~= render_expr(expr_view(*e), tab_lvl as int));
            }
            s
        },
    }
}

/// The diagnostic text of an argument list, numbered from one.
fn args_debug_str(args: &Vec<TExpressionNode>, tab_lvl: usize) -> (r: String)
    ensures
        r@ == render_args(texprs_view(*args, 0), 0, tab_lvl as int),
    decreases *args, 0int,
{
    let ghost va = texprs_view(*args, 0);
    proof {
        lemma_texprs_view(*args, 0);
    }
    let mut s = String::new();
    let mut i: usize = 0;
    proof {
        assert(s@ + render_args(va, 0, tab_lvl as int) =~= render_args(va, 0, tab_lvl as int));
    }
    while i < args.len()
        invariant
            va == texprs_view(*args, 0),
            va.len() == args.len(),
            forall|k: int| 0 <= k < args.len() ==> #[trigger] va[k] == texpr_view(args[k]),
            0 <= i <= args.len(),
            s@ + render_args(va, i as int, tab_lvl as int) == render_args(va, 0, tab_lvl as int),
        decreases args.len() - i,
    {
        let ghost s0 = s@;
        s.append(get_tab_str(tab_lvl).as_str());
        s.append("Argument ");
        s.append(crate::text::u64_to_string((i as u64) + 1).as_str());
        s.append(":\n");
        s.append(expr_debug_str(&args[i].node, next_tab_lvl(tab_lvl)).as_str());
        proof {
            assert(render_args(va, i as int, tab_lvl as int) =~= (tab_text(tab_lvl as int)
                + "Argument "@ + crate::text::dec_str(i as int + 1) + ":\n"@ + render_expr(
                va[i as int].node,
                next_lvl(tab_lvl as int),
            )) + render_args(va, i as int + 1, tab_lvl as int));
            assert(s@ =~= s0 + (tab_text(tab_lvl as int) + "Argument "@ + crate::text::dec_str(
                i as int + 1,
            ) + ":\n"@ + render_expr(va[i as int].node, next_lvl(tab_lvl as int))));
            assert(s@ + render_args(va, i as int + 1, tab_lvl as int) =~= render_args(
                va,
                0,
                tab_lvl as int,
            ));
        }
        i += 1;
    }
    proof {
        assert(render_args(va, args@.len() as int, tab_lvl as int) =~= Seq::<char>::empty());
        assert(s@ + Seq::<char>::empty() =~= s@);
    }
    s
}

impl TExpressionNode {
    /// A depth-indented diagnostic rendering of the expression tree, for
    /// human inspection only.
    pub fn debug_str(&self, tab_lvl: usize) -> (r: String)
        ensures
            r@ == render_expr(expr_view(self.node), tab_lvl as int),
    {
        expr_debug_str(&self.node, tab_lvl)
    }
}

impl CommandNode {
    /// A depth-indented diagnostic rendering of the command, for human
    /// inspection only.
    pub fn debug_str(&self, tab_lvl: usize) -> (r: String)
        ensures
            r@ == render_cmd(cmd_view(*self), tab_lvl as int),
    {
        match self {
            CommandNode::VariableDefinitionNode(d) => {
                let mut s = get_tab_str(tab_lvl);
                s.append("Variable definition");
                match &d.vtype {
                    Some(ts) => {
                        s.append(" with explicit type ");
                        s.append(ts.as_str());
                    },
                    None => {},
                }
                s.append(" defining variable ");
                s.append(d.variable.name.as_str());
                s.append("\n");
                match &d.expression {
                    Some(b) => {
                        s.append(get_tab_str(next_tab_lvl(tab_lvl)).as_str());
                        s.append("with expression:\n");
                        s.append(expr_debug_str(&b.node, next_tab_lvl(tab_lvl)).as_str());
                    },
                    None => {},
                }
                proof {
                    assert(s@ =~= render_cmd(cmd_view(*self), tab_lvl as int));
                }
                s
            },
            CommandNode::VariableAssignmentNode(a) => {
                let mut s = get_tab_str(tab_lvl);
                s.append("Variable assignment assigning to variable ");
                s.append(a.variable.name.as_str());
                s.append("\n");
                s.append(get_tab_str(next_tab_lvl(tab_lvl)).as_str());
                s.append("with expression:\n");
                s.append(expr_debug_str(&a.expression.node, next_tab_lvl(tab_lvl)).as_str());
                proof {
                    assert(s@ =~= render_cmd(cmd_view(*self), tab_lvl as int));
                }
                s
            },
            CommandNode::FunctionCallNode(f) => {
                let mut s = get_tab_str(tab_lvl);
                s.append("Function call command calling to function ");
                s.append(f.function.name.as_str());
                s.append("\n");
                if f.args.len() == 0 {
                    s.append(get_tab_str(tab_lvl).as_str());
                    s.append("without arguments\n");
                } else {
                    s.append(args_debug_str(&f.args, tab_lvl).as_str());
                }
                proof {
                    lemma_texprs_view(f.args, 0);
                    assert(s@ =~= render_cmd(cmd_view(*self), tab_lvl as int));
                }
                s
            },
        }
    }
}

impl ScopeNode {
    /// A diagnostic rendering of the whole program, for human inspection
    /// only.
    pub fn debug_str(&self) -> (r: String)
        ensures
            r@ == "Outer scope node with commands:\n"@ + render_cmds(scope_view(*self).commands, 0),
    {
        let ghost vc = cmds_view(self.commands, 0);
        proof {
            lemma_cmds_view(self.commands, 0);
        }
        let mut s = String::from_str("Outer scope node with commands:\n");
        let ghost s0 = s@;
        let mut i: usize = 0;
        proof {
            assert(s@ + render_cmds(vc, 0) =~= s0 + render_cmds(vc, 0));
        }
        while i < self.commands.len()
            invariant
                vc == cmds_view(self.commands, 0),
                vc.len() == self.commands.len(),
                forall|k: int|
                    0 <= k < self.commands.len() ==> #[trigger] vc[k] == cmd_view(
                        self.commands[k],
                    ),
                0 <= i <= self.commands.len(),
                s0 == "Outer scope node with commands:\n"@,
                s@ + render_cmds(vc, i as int) == s0 + render_cmds(vc, 0),
            decreases self.commands.len() - i,
        {
            let ghost sp = s@;
            s.append(self.commands[i].debug_str(1).as_str());
            proof {
                assert(render_cmds(vc, i as int) =~= render_cmd(vc[i as int], 1) + render_cmds(
                    vc,
                    i as int + 1,
                ));
                assert(s@ + render_cmds(vc, i as int + 1) =~= sp + render_cmds(vc, i as int));
            }
            i += 1;
        }
        proof {
            assert(render_cmds(vc, self.commands@.len() as int) =~= Seq::<char>::empty());
            assert(s@ + Seq::<char>::empty() =~= s@);
        }
        s
    }
}

} // verus!
