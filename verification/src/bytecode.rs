//! The bytecode artifact: runtime values, instructions, compiled functions,
//! and the program that bundles them.
//!
//! Jumps are encoded as signed displacements relative to the instruction
//! immediately following the jump, so concatenated code needs no relocation.

use vstd::prelude::*;

verus! {

/// A runtime value of the machine: the unit value, a 64-bit integer, or a boolean.
#[derive(Debug, Clone, Copy, PartialEq, Eq, Structural)]
pub enum Value {
    Unit,
    Int(i64),
    Bool(bool),
}

/// A binary operator of the instruction set.
#[derive(Debug, Clone, Copy, PartialEq, Eq, Structural)]
pub enum BinOp {
    Add,
    Sub,
    And,
    Or,
    Eq,
    Ne,
    Lt,
    Le,
    Gt,
    Ge,
}

/// One machine instruction.
#[derive(Debug, Clone, Copy, PartialEq, Eq, Structural)]
pub enum Inst {
    /// Push a constant onto the operand stack.
    Push(Value),
    /// Discard the top of the operand stack.
    Pop,
    /// Push the value of a local slot of the current frame.
    Load(usize),
    /// Pop the top of the operand stack into a local slot of the current frame.
    Store(usize),
    /// Pop an integer and push its (wrapping) negation.
    Neg,
    /// Pop a boolean and push its negation.
    Not,
    /// Pop two operands and push the result of the operator.
    Bin(BinOp),
    /// Unconditional jump: new pointer = (pointer after this instruction) + displacement.
    Jmp(i64),
    /// Pop a boolean; if it is false, jump as `Jmp` does; otherwise fall through.
    JmpFalse(i64),
    /// Push a frame for the named function, binding popped arguments to its leading slots.
    Call(usize),
    /// Pop the return value, tear down the current frame, and resume the caller.
    Ret,
    /// Stop execution.
    Halt,
}

/// A compiled function: its arity, the size of its local-slot array, and its code.
#[derive(Debug, Clone, PartialEq, Eq)]
pub struct Func {
    pub n_params: usize,
    pub n_slots: usize,
    pub insts: Vec<Inst>,
}

/// The mathematical model of a compiled function.
pub struct FuncV {
    pub n_params: int,
    pub n_slots: int,
    pub insts: Seq<Inst>,
}

impl View for Func {
    type V = FuncV;

    open spec fn view(&self) -> FuncV {
        FuncV { n_params: self.n_params as int, n_slots: self.n_slots as int, insts: self.insts@ }
    }
}

/// An executable program: an ordered list of compiled functions and the index
/// of the function where execution starts.
#[derive(Debug, Clone, PartialEq, Eq)]
pub struct Program {
    pub funcs: Vec<Func>,
    pub entry: usize,
}

/// The mathematical model of a program.
pub struct ProgramV {
    pub funcs: Seq<FuncV>,
    pub entry: int,
}

impl View for Program {
    type V = ProgramV;

    open spec fn view(&self) -> ProgramV {
        ProgramV { funcs: self.funcs@.map_values(|f: Func| f@), entry: self.entry as int }
    }
}

} // verus!
