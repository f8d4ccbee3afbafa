//! Front end of a small statically typed language: lexical analysis,
//! recursive-descent parsing with precedence climbing, and type checking.
//!
//! `compile_source` runs the three stages in order and is proved to return
//! exactly what `compile_spec` — the composition of the spec-level lexer,
//! grammar and typing rules — describes.

pub mod errors;
pub mod laws;
pub mod lexer;
pub mod nodes;
pub mod parse_spec;
pub mod parser;
pub mod semantics;
pub mod text;
pub mod variable_traverser;

use crate::errors::{Error, ErrorV};
use crate::lexer::{lex_spec, tokenize_str, LexOut};
use crate::nodes::{scope_view, ScopeNode, ScopeV};
use crate::parse_spec::parse_program;
use crate::parser::Parser;
use crate::semantics::check_cmds;
use crate::variable_traverser::VariableTraverser;
use vstd::prelude::*;

verus! {

/// What the user asked for on the command line; the surrounding program
/// fills this in and decides what to do with the pipeline's output.
pub struct Config {
    /// The name of the output file.
    pub output: Option<String>,
    /// Print debug information.
    pub debug: bool,
    /// The name of the file to be compiled.
    pub file: String,
}

/// The whole pipeline over source text: tokens, then the untyped tree, then
/// the type-annotated tree — or the first error of the first failing stage,
/// tagged by that stage.
pub open spec fn compile_spec(src: Seq<char>) -> Result<ScopeV, ErrorV> {
    match lex_spec(src) {
        LexOut::Fail { err } => Err(ErrorV::Lexical(err)),
        LexOut::Toks { tokens } => match parse_program(tokens) {
            Err(e) => Err(ErrorV::Syntax(e)),
            Ok(sv) => match check_cmds(Map::empty(), sv.commands) {
                Err(e) => Err(ErrorV::Semantic(e)),
                Ok((cs, tbl)) => Ok(ScopeV { commands: cs }),
            },
        },
    }
}

/// Runs lexer, parser and semantic analyzer over `source` and returns the
/// fully type-annotated program, or the first error encountered.
pub fn compile_source(source: &str) -> (r: Result<ScopeNode, Error>)
    ensures
        match compile_spec(source@) {
            Ok(sv) => r matches Ok(sc) && scope_view(sc) == sv,
            Err(ev) => r matches Err(e) && e@ == ev,
        },
{
    let tokens = match tokenize_str(source) {
        Ok(t) => t,
        Err(e) => {
            return Err(Error::Lexical(e));
        },
    };
    let mut parser = Parser::new(tokens);
    let mut scope = match parser.parse() {
        Ok(s) => s,
        Err(e) => {
            return Err(Error::Syntax(e));
        },
    };
    let mut traverser = VariableTraverser::new();
    match traverser.traverse(&mut scope) {
        Ok(_) => Ok(scope),
        Err(e) => Err(Error::Semantic(e)),
    }
}

} // verus!
