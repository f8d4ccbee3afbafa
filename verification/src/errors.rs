//! Error taxonomy of the pipeline: lexical, syntax and semantic errors.
//!
//! Every user-facing failure is a structured value here; the contracts of the
//! pipeline stages say exactly which value comes back on which input. The
//! `message` methods render the human-readable text for presentation.

use crate::nodes::{type_text, Type};
use vstd::prelude::*;
use vstd::string::StringExecFns;

verus! {

/// A failure of lexical analysis.
#[derive(Clone, Copy, PartialEq, Eq, Structural, Debug)]
pub enum LexError {
    /// A `'` literal was opened and the input ended before the closing quote.
    UnterminatedCharLiteral,
    /// A `"` literal was opened and the input ended before the closing quote.
    UnterminatedStringLiteral,
    /// A number literal with a second dot, or one that starts or ends with a
    /// dot.
    InvalidNumber,
    /// A character that cannot start any token.
    UnexpectedChar { found: char },
}

/// What the parser was looking for when a syntax error arose. Together with
/// the offending token's text (absent at end of input) this determines the
/// error message.
#[derive(Clone, Copy, PartialEq, Eq, Structural, Debug)]
pub enum SyntaxCtx {
    /// A value (operand) was expected.
    ExprValue,
    /// The input ended right after a name inside an expression.
    ExprAfterName,
    /// An operator or terminator was expected after an expression.
    ExprContinuation,
    /// The input ended while a binary operation was still being extended.
    BinaryContinuation,
    /// A closing parenthesis was expected after a sub-expression.
    CloseParen,
    /// The operator cannot be used as a unary prefix.
    UnaryOperator,
    /// A type or variable name was expected after `let`.
    DefTypeOrName,
    /// A variable name was expected in a definition.
    DefName,
    /// An assignment operator was expected in a definition.
    DefAssignOp,
    /// A compound assignment operator cannot be used in a definition.
    DefSpecialAssign,
    /// A variable name was expected in an assignment.
    AssignName,
    /// An assignment operator was expected in an assignment.
    AssignOp,
    /// A statement-terminating semicolon was expected.
    Semicolon,
    /// A closing parenthesis was expected in a call's argument list.
    CallCloseParen,
    /// A comma or closing parenthesis was expected between call arguments.
    CallArgSeparator,
    /// A semicolon was expected after a call statement.
    CallSemicolon,
    /// A command was expected and the token cannot start one.
    Command,
    /// A keyword that does not start a command.
    CommandKeyword,
    /// A command was expected and the token after the leading name decides
    /// neither a call nor an assignment.
    CommandAfterName,
    /// An integer literal that does not fit the machine integer range.
    NumberTooLarge,
}

/// A failure of parsing: what was expected, and the text of the offending
/// token (`None` when the input ended early).
#[derive(Clone, PartialEq, Eq, Debug)]
pub struct SyntaxError {
    pub ctx: SyntaxCtx,
    pub found: Option<String>,
}

/// Mathematical model of a `SyntaxError`.
pub struct SynErrV {
    pub ctx: SyntaxCtx,
    pub found: Option<Seq<char>>,
}

impl View for SyntaxError {
    type V = SynErrV;

    open spec fn view(&self) -> SynErrV {
        SynErrV {
            ctx: self.ctx,
            found: match self.found {
                Some(t) => Some(t@),
                None => None,
            },
        }
    }
}

/// A failure of semantic analysis.
#[derive(Clone, PartialEq, Eq, Debug)]
pub enum SemanticError {
    /// A definition's explicit type differs from its initializer's type.
    MismatchedDefinition { declared: Type, found: Type },
    /// A definition with neither an explicit type nor an initializer.
    UndefinedTypeInDefinition,
    /// A definition's explicit type name has no value type (`uint`, `ufloat`).
    UnknownTypeName { name: String },
    /// An assignment to a name that no definition has introduced.
    AssignUndefined { name: String },
    /// An assignment whose expression type differs from the variable's type.
    AssignMismatch { expected: Type, found: Type },
    /// A call of a function other than the `print` intrinsic.
    UndefinedFunction { name: String },
    /// A `print` call with other than exactly one argument.
    WrongArgumentCount,
    /// A use of an undefined variable inside an expression.
    UndefinedVariable { name: String },
    /// A unary operation on a non-numeric operand.
    InvalidUnaryType { found: Type },
    /// A binary operation with a non-numeric operand.
    InvalidBinaryTypes { left: Type, right: Type },
    /// A function call nested inside an expression.
    CallInExpression { name: String },
}

/// Mathematical model of a `SemanticError`.
pub enum SemErrV {
    MismatchedDefinition { declared: Type, found: Type },
    UndefinedTypeInDefinition,
    UnknownTypeName { name: Seq<char> },
    AssignUndefined { name: Seq<char> },
    AssignMismatch { expected: Type, found: Type },
    UndefinedFunction { name: Seq<char> },
    WrongArgumentCount,
    UndefinedVariable { name: Seq<char> },
    InvalidUnaryType { found: Type },
    InvalidBinaryTypes { left: Type, right: Type },
    CallInExpression { name: Seq<char> },
}

impl View for SemanticError {
    type V = SemErrV;

    open spec fn view(&self) -> SemErrV {
        match self {
            SemanticError::MismatchedDefinition { declared, found } => SemErrV::MismatchedDefinition {
                declared: *declared,
                found: *found,
            },
            SemanticError::UndefinedTypeInDefinition => SemErrV::UndefinedTypeInDefinition,
            SemanticError::UnknownTypeName { name } => SemErrV::UnknownTypeName { name: name@ },
            SemanticError::AssignUndefined { name } => SemErrV::AssignUndefined { name: name@ },
            SemanticError::AssignMismatch { expected, found } => SemErrV::AssignMismatch {
                expected: *expected,
                found: *found,
            },
            SemanticError::UndefinedFunction { name } => SemErrV::UndefinedFunction { name: name@ },
            SemanticError::WrongArgumentCount => SemErrV::WrongArgumentCount,
            SemanticError::UndefinedVariable { name } => SemErrV::UndefinedVariable { name: name@ },
            SemanticError::InvalidUnaryType { found } => SemErrV::InvalidUnaryType { found: *found },
            SemanticError::InvalidBinaryTypes { left, right } => SemErrV::InvalidBinaryTypes {
                left: *left,
                right: *right,
            },
            SemanticError::CallInExpression { name } => SemErrV::CallInExpression { name: name@ },
        }
    }
}

/// A failure of any stage of the pipeline, tagged by the stage that produced
/// it.
#[derive(Clone, PartialEq, Eq, Debug)]
pub enum Error {
    Lexical(LexError),
    Syntax(SyntaxError),
    Semantic(SemanticError),
}

/// Mathematical model of an `Error`.
pub enum ErrorV {
    Lexical(LexError),
    Syntax(SynErrV),
    Semantic(SemErrV),
}

impl View for Error {
    type V = ErrorV;

    open spec fn view(&self) -> ErrorV {
        match self {
            Error::Lexical(e) => ErrorV::Lexical(*e),
            Error::Syntax(e) => ErrorV::Syntax(e@),
            Error::Semantic(e) => ErrorV::Semantic(e@),
        }
    }
}

/// The message text of a lexical error.
pub open spec fn lex_message(e: LexError) -> Seq<char> {
    match e {
        LexError::UnterminatedCharLiteral => "Unexpected EOF (you have to close the ' character literal!)"@,
        LexError::UnterminatedStringLiteral => "Unexpected EOF (you have to close the \" string literal!)"@,
        LexError::InvalidNumber => "Invalid number syntax!"@,
        LexError::UnexpectedChar { found } => "Unexpected character '"@ + seq![found] + "'!"@,
    }
}

impl LexError {
    /// The human-readable message for this error.
    pub fn message(&self) -> (r: String)
        ensures
            r@ == lex_message(*self),
    {
        match self {
            LexError::UnterminatedCharLiteral => String::from_str(
                "Unexpected EOF (you have to close the ' character literal!)",
            ),
            LexError::UnterminatedStringLiteral => String::from_str(
                "Unexpected EOF (you have to close the \" string literal!)",
            ),
            LexError::InvalidNumber => String::from_str("Invalid number syntax!"),
            LexError::UnexpectedChar { found } => {
                let mut s = String::from_str("Unexpected character '");
                s.append(crate::text::char_to_string(*found).as_str());
                s.append("'!");
                proof {
                    assert(s@ =~= lex_message(*self));
                }
                s
            },
        }
    }
}

/// The message when the input ended while this was being parsed.
pub open spec fn syntax_eof_text(ctx: SyntaxCtx) -> Seq<char> {
    match ctx {
        SyntaxCtx::ExprValue => "Unexpected EOF when trying to parse expression (missing value)"@,
        SyntaxCtx::ExprAfterName => "Unexpected EOF while parsing expression (missed a semicolon?)"@,
        SyntaxCtx::ExprContinuation => "Unexpected EOF when trying to parse expression (missed a semicolon?)"@,
        SyntaxCtx::BinaryContinuation => "Unexpected EOF when trying to parse expression (missed a semicolon?)"@,
        SyntaxCtx::CloseParen => "Unexpected EOF after expression (expected closing parenthesis)"@,
        SyntaxCtx::UnaryOperator => "Unexpected EOF when trying to parse expression (missing value)"@,
        SyntaxCtx::DefTypeOrName => "Unexpected EOF when trying to parse a variable definition (expected variable name or type)"@,
        SyntaxCtx::DefName => "Unexpected EOF when trying to parse a variable definition (expected variable name)"@,
        SyntaxCtx::DefAssignOp => "Unexpected EOF when trying to parse a variable definition (expected equal sign)"@,
        SyntaxCtx::DefSpecialAssign => "Unexpected EOF when trying to parse a variable definition (expected equal sign)"@,
        SyntaxCtx::AssignName => "Unexpected EOF when trying to parse a variable assignment (expected variable name)"@,
        SyntaxCtx::AssignOp => "Unexpected EOF when trying to parse a variable assignment (expected equal sign)"@,
        SyntaxCtx::Semicolon => "Unexpected EOF when trying to parse a variable assignment (expected semicolon)"@,
        SyntaxCtx::CallCloseParen => "Unexpected EOF when trying to parse function call (expected closing parenthesis)"@,
        SyntaxCtx::CallArgSeparator => "Unexpected EOF when trying to parse function call (expected closing parenthesis)"@,
        SyntaxCtx::CallSemicolon => "Unexpected EOF when trying to parse function call (expected semicolon)"@,
        SyntaxCtx::Command => "Unexpected EOF when trying to parse a command"@,
        SyntaxCtx::CommandKeyword => "Unexpected EOF when trying to parse a command"@,
        SyntaxCtx::CommandAfterName => "Unexpected EOF when trying to parse a command"@,
        SyntaxCtx::NumberTooLarge => "Number literal doesn't fit the integer range"@,
    }
}

/// What stands before the quoted offending token in the message.
pub open spec fn syntax_found_pre(ctx: SyntaxCtx) -> Seq<char> {
    match ctx {
        SyntaxCtx::UnaryOperator => "The operator \""@,
        SyntaxCtx::DefSpecialAssign => "Can't use special assignment operator \""@,
        SyntaxCtx::CommandKeyword => "Unexpected keyword \""@,
        SyntaxCtx::NumberTooLarge => "Number literal \""@,
        _ => "Unexpected token \""@,
    }
}

/// What stands after the quoted offending token in the message.
pub open spec fn syntax_found_post(ctx: SyntaxCtx) -> Seq<char> {
    match ctx {
        SyntaxCtx::ExprValue => "\" while parsing expression, expected value"@,
        SyntaxCtx::ExprAfterName => "\" while parsing expression (forgot a semicolon?)"@,
        SyntaxCtx::ExprContinuation => "\" while parsing expression (forgot a semicolon?)"@,
        SyntaxCtx::BinaryContinuation => "\" while parsing expression (forgot a semicolon?)"@,
        SyntaxCtx::CloseParen => "\" after expression (expected closing parenthesis)"@,
        SyntaxCtx::UnaryOperator => "\" can't be used as a unary operator (expected value before it)"@,
        SyntaxCtx::DefTypeOrName => "\" while parsing variable definition (expected variable name or type)"@,
        SyntaxCtx::DefName => "\" while parsing variable definition (expected variable name)"@,
        SyntaxCtx::DefAssignOp => "\" while parsing variable definition (expected equal sign)"@,
        SyntaxCtx::DefSpecialAssign => "\" for a variable definition"@,
        SyntaxCtx::AssignName => "\" while parsing variable assignment (expected variable name)"@,
        SyntaxCtx::AssignOp => "\" while parsing variable assignment (expected equal sign)"@,
        SyntaxCtx::Semicolon => "\" while parsing variable assignment (expected semicolon)"@,
        SyntaxCtx::CallCloseParen => "\" when trying to parse function call (expected closing parenthesis)"@,
        SyntaxCtx::CallArgSeparator => "\" in function parameters"@,
        SyntaxCtx::CallSemicolon => "\" while parsing function call (expected semicolon)"@,
        SyntaxCtx::Command => "\", expected a command (either a variable assignment or a function call)"@,
        SyntaxCtx::CommandKeyword => "\", expected a command (either a variable assignment or a function call)"@,
        SyntaxCtx::CommandAfterName => "\" after custom name, expected a command (either a variable assignment or a function call)"@,
        SyntaxCtx::NumberTooLarge => "\" doesn't fit the integer range"@,
    }
}

/// The message text of a syntax error: what was expected, and the quoted
/// text of the offending token where there was one.
pub open spec fn syntax_message(e: SynErrV) -> Seq<char> {
    match e.found {
        None => syntax_eof_text(e.ctx),
        Some(t) => syntax_found_pre(e.ctx) + t + syntax_found_post(e.ctx),
    }
}

/// The text before the quoted token, as `syntax_found_pre` gives it.
fn found_pre_str(ctx: SyntaxCtx) -> (r: &'static str)
    ensures
        r@ == syntax_found_pre(ctx),
{
    match ctx {
        SyntaxCtx::UnaryOperator => "The operator \"",
        SyntaxCtx::DefSpecialAssign => "Can't use special assignment operator \"",
        SyntaxCtx::CommandKeyword => "Unexpected keyword \"",
        SyntaxCtx::NumberTooLarge => "Number literal \"",
        _ => "Unexpected token \"",
    }
}

/// The text after the quoted token, as `syntax_found_post` gives it.
fn found_post_str(ctx: SyntaxCtx) -> (r: &'static str)
    ensures
        r@ == syntax_found_post(ctx),
{
    match ctx {
        SyntaxCtx::ExprValue => "\" while parsing expression, expected value",
        SyntaxCtx::ExprAfterName => "\" while parsing expression (forgot a semicolon?)",
        SyntaxCtx::ExprContinuation => "\" while parsing expression (forgot a semicolon?)",
        SyntaxCtx::BinaryContinuation => "\" while parsing expression (forgot a semicolon?)",
        SyntaxCtx::CloseParen => "\" after expression (expected closing parenthesis)",
        SyntaxCtx::UnaryOperator => "\" can't be used as a unary operator (expected value before it)",
        SyntaxCtx::DefTypeOrName => "\" while parsing variable definition (expected variable name or type)",
        SyntaxCtx::DefName => "\" while parsing variable definition (expected variable name)",
        SyntaxCtx::DefAssignOp => "\" while parsing variable definition (expected equal sign)",
        SyntaxCtx::DefSpecialAssign => "\" for a variable definition",
        SyntaxCtx::AssignName => "\" while parsing variable assignment (expected variable name)",
        SyntaxCtx::AssignOp => "\" while parsing variable assignment (expected equal sign)",
        SyntaxCtx::Semicolon => "\" while parsing variable assignment (expected semicolon)",
        SyntaxCtx::CallCloseParen => "\" when trying to parse function call (expected closing parenthesis)",
        SyntaxCtx::CallArgSeparator => "\" in function parameters",
        SyntaxCtx::CallSemicolon => "\" while parsing function call (expected semicolon)",
        SyntaxCtx::Command => "\", expected a command (either a variable assignment or a function call)",
        SyntaxCtx::CommandKeyword => "\", expected a command (either a variable assignment or a function call)",
        SyntaxCtx::CommandAfterName => "\" after custom name, expected a command (either a variable assignment or a function call)",
        SyntaxCtx::NumberTooLarge => "\" doesn't fit the integer range",
    }
}

/// The end-of-input message, as `syntax_eof_text` gives it.
fn eof_text_str(ctx: SyntaxCtx) -> (r: &'static str)
    ensures
        r@ == syntax_eof_text(ctx),
{
    match ctx {
        SyntaxCtx::ExprValue => "Unexpected EOF when trying to parse expression (missing value)",
        SyntaxCtx::ExprAfterName => "Unexpected EOF while parsing expression (missed a semicolon?)",
        SyntaxCtx::ExprContinuation => "Unexpected EOF when trying to parse expression (missed a semicolon?)",
        SyntaxCtx::BinaryContinuation => "Unexpected EOF when trying to parse expression (missed a semicolon?)",
        SyntaxCtx::CloseParen => "Unexpected EOF after expression (expected closing parenthesis)",
        SyntaxCtx::UnaryOperator => "Unexpected EOF when trying to parse expression (missing value)",
        SyntaxCtx::DefTypeOrName => "Unexpected EOF when trying to parse a variable definition (expected variable name or type)",
        SyntaxCtx::DefName => "Unexpected EOF when trying to parse a variable definition (expected variable name)",
        SyntaxCtx::DefAssignOp => "Unexpected EOF when trying to parse a variable definition (expected equal sign)",
        SyntaxCtx::DefSpecialAssign => "Unexpected EOF when trying to parse a variable definition (expected equal sign)",
        SyntaxCtx::AssignName => "Unexpected EOF when trying to parse a variable assignment (expected variable name)",
        SyntaxCtx::AssignOp => "Unexpected EOF when trying to parse a variable assignment (expected equal sign)",
        SyntaxCtx::Semicolon => "Unexpected EOF when trying to parse a variable assignment (expected semicolon)",
        SyntaxCtx::CallCloseParen => "Unexpected EOF when trying to parse function call (expected closing parenthesis)",
        SyntaxCtx::CallArgSeparator => "Unexpected EOF when trying to parse function call (expected closing parenthesis)",
        SyntaxCtx::CallSemicolon => "Unexpected EOF when trying to parse function call (expected semicolon)",
        SyntaxCtx::Command => "Unexpected EOF when trying to parse a command",
        SyntaxCtx::CommandKeyword => "Unexpected EOF when trying to parse a command",
        SyntaxCtx::CommandAfterName => "Unexpected EOF when trying to parse a command",
        SyntaxCtx::NumberTooLarge => "Number literal doesn't fit the integer range",
    }
}

impl SyntaxError {
    /// The human-readable message for this error.
    pub fn message(&self) -> (r: String)
        ensures
            r@ == syntax_message(self@),
    {
        match &self.found {
            None => String::from_str(eof_text_str(self.ctx)),
            Some(t) => {
                let mut s = String::from_str(found_pre_str(self.ctx));
                s.append(t.as_str());
                s.append(found_post_str(self.ctx));
                proof {
                    assert(s@ =~= syntax_message(self@));
                }
                s
            },
        }
    }
}

/// The message text of a semantic error.
pub open spec fn semantic_message(e: SemErrV) -> Seq<char> {
    match e {
        SemErrV::MismatchedDefinition { declared, found } => "Mismatching variable types in variable definition: \""@
            + type_text(declared) + "\" (left) and \""@ + type_text(found) + "\" (right)"@,
        SemErrV::UndefinedTypeInDefinition => "Undefined type for variable definition!"@,
        SemErrV::UnknownTypeName { name } => "Unknown type \""@ + name
            + "\" for a variable definition"@,
        SemErrV::AssignUndefined { name } => "Assigning to undefined variable \""@ + name + "\""@,
        SemErrV::AssignMismatch { expected, found } => "Cannot assign expression of type \""@
            + type_text(found) + "\" to variable of type \""@ + type_text(expected) + "\""@,
        SemErrV::UndefinedFunction { name } => "Undefined function \""@ + name
            + "\" (only the print function is implemented yet)"@,
        SemErrV::WrongArgumentCount => "Invalid number of elements for print function! (You have to supply exactly one element)"@,
        SemErrV::UndefinedVariable { name } => "Usage of undefined variable \""@ + name
            + "\" in expression!"@,
        SemErrV::InvalidUnaryType { found } => "Invalid type \""@ + type_text(found)
            + "\" for unary operation (must be either int or float)"@,
        SemErrV::InvalidBinaryTypes { left, right } => "Invalid types \""@ + type_text(left)
            + "\" and \""@ + type_text(right) + "\" for binary operation!"@,
        SemErrV::CallInExpression { name } => "Function calls in expressions aren't supported yet! (Tried to call \""@
            + name + "()\" in expression)"@,
    }
}

impl SemanticError {
    /// The human-readable message for this error.
    pub fn message(&self) -> (r: String)
        ensures
            r@ == semantic_message(self@),
    {
        match self {
            SemanticError::MismatchedDefinition { declared, found } => {
                let mut s = String::from_str(
                    "Mismatching variable types in variable definition: \"",
                );
                s.append(declared.to_str());
                s.append("\" (left) and \"");
                s.append(found.to_str());
                s.append("\" (right)");
                proof {
                    assert(s@ =~= semantic_message(self@));
                }
                s
            },
            SemanticError::UndefinedTypeInDefinition => String::from_str(
                "Undefined type for variable definition!",
            ),
            SemanticError::UnknownTypeName { name } => {
                let mut s = String::from_str("Unknown type \"");
                s.append(name.as_str());
                s.append("\" for a variable definition");
                proof {
                    assert(s@ =~= semantic_message(self@));
                }
                s
            },
            SemanticError::AssignUndefined { name } => {
                let mut s = String::from_str("Assigning to undefined variable \"");
                s.append(name.as_str());
                s.append("\"");
                proof {
                    assert(s@ =~= semantic_message(self@));
                }
                s
            },
            SemanticError::AssignMismatch { expected, found } => {
                let mut s = String::from_str("Cannot assign expression of type \"");
                s.append(found.to_str());
                s.append("\" to variable of type \"");
                s.append(expected.to_str());
                s.append("\"");
                proof {
                    assert(s@ =~= semantic_message(self@));
                }
                s
            },
            SemanticError::UndefinedFunction { name } => {
                let mut s = String::from_str("Undefined function \"");
                s.append(name.as_str());
                s.append("\" (only the print function is implemented yet)");
                proof {
                    assert(s@ =~= semantic_message(self@));
                }
                s
            },
            SemanticError::WrongArgumentCount => String::from_str(
                "Invalid number of elements for print function! (You have to supply exactly one element)",
            ),
            SemanticError::UndefinedVariable { name } => {
                let mut s = String::from_str("Usage of undefined variable \"");
                s.append(name.as_str());
                s.append("\" in expression!");
                proof {
                    assert(s@ =~= semantic_message(self@));
                }
                s
            },
            SemanticError::InvalidUnaryType { found } => {
                let mut s = String::from_str("Invalid type \"");
                s.append(found.to_str());
                s.append("\" for unary operation (must be either int or float)");
                proof {
                    assert(s@ =~= semantic_message(self@));
                }
                s
            },
            SemanticError::InvalidBinaryTypes { left, right } => {
                let mut s = String::from_str("Invalid types \"");
                s.append(left.to_str());
                s.append("\" and \"");
                s.append(right.to_str());
                s.append("\" for binary operation!");
                proof {
                    assert(s@ =~= semantic_message(self@));
                }
                s
            },
            SemanticError::CallInExpression { name } => {
                let mut s = String::from_str(
                    "Function calls in expressions aren't supported yet! (Tried to call \"",
                );
                s.append(name.as_str());
                s.append("()\" in expression)");
                proof {
                    assert(s@ =~= semantic_message(self@));
                }
                s
            },
        }
    }
}

/// The message text of any pipeline error.
pub open spec fn error_message(e: ErrorV) -> Seq<char> {
    match e {
        ErrorV::Lexical(le) => lex_message(le),
        ErrorV::Syntax(se) => syntax_message(se),
        ErrorV::Semantic(se) => semantic_message(se),
    }
}

impl Error {
    /// The human-readable message for this error, whatever the stage that
    /// produced it.
    pub fn message(&self) -> (r: String)
        ensures
            r@ == error_message(self@),
    {
        match self {
            Error::Lexical(e) => e.message(),
            Error::Syntax(e) => e.message(),
            Error::Semantic(e) => e.message(),
        }
    }
}

} // verus!
