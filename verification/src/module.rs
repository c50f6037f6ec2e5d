//! One compilation unit moving through the pipeline: parse, resolve, rewrite
//! passes, code generation. Each stage either stores its artifact or reports
//! that it failed; the caller decides whether to go on.

use vstd::prelude::*;

use crate::ast::AST;
use crate::bytecode::Program;
use crate::codegen::{codegen_spec, codegen_wsk_vm};
use crate::fold::fold_items_v;
use crate::parser;
use crate::resolve::{resolve, resolve_spec, ResolveError};
use crate::resolved::{ast_view, ResolvedAST};
use crate::symbol::SymbolTable;
use crate::token::Token;
use crate::visit::run_passes;

verus! {

/// Which stages of the pipeline a run performs.
#[derive(Debug)]
pub struct CompileSwitch {
    pub do_parse_ast: bool,
    pub debug_ast: bool,
    pub do_resolve_module: bool,
    pub debug_module: bool,
    pub do_codegen: bool,
}

impl Default for CompileSwitch {
    /// Every stage off.
    fn default() -> (r: CompileSwitch)
        ensures
            !r.do_parse_ast,
            !r.debug_ast,
            !r.do_resolve_module,
            !r.debug_module,
            !r.do_codegen,
    {
        CompileSwitch {
            do_parse_ast: false,
            debug_ast: false,
            do_resolve_module: false,
            debug_module: false,
            do_codegen: false,
        }
    }
}

/// One compilation unit: its name and the artifacts built so far.
#[derive(Debug)]
pub struct Module {
    pub name: String,
    pub ast: Option<AST>,
    pub resolved_ast: Option<(ResolvedAST, SymbolTable)>,
}

impl Module {
    /// A fresh unit with nothing parsed yet.
    pub fn new(name: String) -> (r: Module)
        ensures
            r.name == name,
            r.ast is None,
            r.resolved_ast is None,
    {
        Module { name, ast: None, resolved_ast: None }
    }

    /// Parse the unit from a token stream; on failure the diagnostics come back
    /// and no tree is stored.
    pub fn parse_ast(&mut self, tokens: Vec<Token>) -> (r: Option<
        Vec<crate::token::Located<parser::ParseError>>,
    >)
        ensures
            final(self).name == old(self).name,
            final(self).resolved_ast == old(self).resolved_ast,
            r is None <==> final(self).ast is Some,
            r is None <==> parser::p_parse(tokens@).0.len() == 0,
            (r is None ==> (final(self).ast matches Some(a) && crate::ast::items_v(a.items, 0)
                == parser::p_parse(tokens@).1)),
            (r matches Some(errs) ==> errs@ == parser::p_parse(tokens@).0),
    {
        match parser::parse(tokens) {
            Ok(a) => {
                self.ast = Some(a);
                None
            },
            Err(errs) => {
                self.ast = None;
                Some(errs)
            },
        }
    }

    /// Resolve the stored tree; on failure the aggregated diagnostics come back
    /// and no resolved tree is stored.
    pub fn resolve_ast(&mut self) -> (r: Option<Vec<ResolveError>>)
        ensures
            final(self).name == old(self).name,
            final(self).ast == old(self).ast,
            match old(self).ast {
                None => r is None && final(self).resolved_ast is None,
                Some(a) => {
                    &&& (r is None <==> resolve_spec(a).1.len() == 0)
                    &&& (r is None ==> (final(self).resolved_ast matches Some(p) && p.1@
                        == resolve_spec(a).0 && ast_view(p.0) == resolve_spec(a).2))
                    &&& (r matches Some(errs) ==> errs@.map_values(
                        |e: ResolveError| e@,
                    ) == resolve_spec(a).1)
                },
            },
    {
        match &self.ast {
            None => {
                self.resolved_ast = None;
                None
            },
            Some(a) => match resolve(a) {
                Ok((rast, table)) => {
                    self.resolved_ast = Some((rast, table));
                    None
                },
                Err(errs) => {
                    self.resolved_ast = None;
                    Some(errs)
                },
            },
        }
    }

    /// Run the rewrite passes — constant folding — over the resolved tree.
    /// Nothing happens when resolution has not run.
    pub fn run_passes(&mut self) -> (r: bool)
        ensures
            final(self).name == old(self).name,
            final(self).ast == old(self).ast,
            r == (old(self).resolved_ast is Some),
            match old(self).resolved_ast {
                Some(p) => (final(self).resolved_ast matches Some(q) && q.1 == p.1 && ast_view(
                    q.0,
                ) == fold_items_v(ast_view(p.0), 0)),
                None => final(self).resolved_ast is None,
            },
    {
        match &mut self.resolved_ast {
            Some(p) => {
                run_passes(&mut p.0);
                true
            },
            None => false,
        }
    }

    /// Lower the resolved tree to bytecode. Nothing happens when resolution has
    /// not run; an internal lowering error yields `None`.
    pub fn codegen(&self) -> (r: Option<Program>)
        ensures
            match self.resolved_ast {
                Some(p) => match r {
                    Some(prog) => codegen_spec(p.1, p.0.items) == Some(prog@),
                    None => codegen_spec(p.1, p.0.items) is None,
                },
                None => r is None,
            },
    {
        match &self.resolved_ast {
            Some(p) => match codegen_wsk_vm(&p.1, &p.0.items) {
                Ok(prog) => Some(prog),
                Err(_) => None,
            },
            None => None,
        }
    }

    /// The unit's name.
    pub fn get_name(&self) -> (r: &String)
        ensures
            r == &self.name,
    {
        &self.name
    }
}

} // verus!
