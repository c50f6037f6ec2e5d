//! The artifact of lowering a raw tree: the resolved items together with the
//! symbol table they reference.

use vstd::prelude::*;

use crate::bytecode::Program;
use crate::codegen::{codegen_spec, codegen_wsk_vm, CodegenError};
use crate::resolved::Item;
use crate::symbol::SymbolTable;

verus! {

/// A resolved compilation unit bundled with its symbol table, as the code
/// generator consumes it.
#[derive(Debug)]
pub struct Module {
    pub sym_table: SymbolTable,
    pub items: Vec<Item>,
}

impl Module {
    /// Lower this unit to an executable program.
    pub fn codegen(&self) -> (r: Result<Program, CodegenError>)
        ensures
            match r {
                Ok(p) => codegen_spec(self.sym_table, self.items) == Some(p@),
                Err(_) => codegen_spec(self.sym_table, self.items) is None,
            },
    {
        codegen_wsk_vm(&self.sym_table, &self.items)
    }
}

} // verus!
