//! The virtual machine: a single call-stack, single-operand-stack interpreter
//! over a [`Program`](crate::bytecode::Program).
//!
//! The machine fetches the instruction at the current pointer, executes it, and
//! advances the pointer by one unless the instruction retargets it. Every fatal
//! condition (operand-stack underflow, invalid slot, invalid jump target,
//! call-stack exhaustion, operand type mismatch) surfaces as a tagged
//! [`RunError`]; execution is never continued past one.

use vstd::prelude::*;

use crate::bytecode::{BinOp, Func, Inst, Program, Value};

verus! {

/// The deepest the call stack may grow before a call faults.
pub const MAX_CALL_DEPTH: usize = 1024;

/// The cause of a fatal runtime fault.
#[derive(Debug, Clone, Copy, PartialEq, Eq, Structural)]
pub enum RunError {
    StackUnderflow,
    InvalidSlot,
    InvalidJump,
    TypeMismatch,
    InvalidFunction,
    CallStackOverflow,
}

/// What a bounded run of the machine ends in: a terminal value, a fault, or
/// exhaustion of the step budget.
#[derive(Debug, Clone, Copy, PartialEq, Eq, Structural)]
pub enum RunOutcome {
    Done(Value),
    Fault(RunError),
    OutOfFuel,
}

/// One active call frame: the function it executes, the instruction pointer
/// within that function, and the frame's local-slot array.
#[derive(Debug, Clone)]
pub struct Frame {
    pub func: usize,
    pub ip: usize,
    pub locals: Vec<Value>,
}

/// The mathematical model of a call frame.
#[verifier::ext_equal]
pub struct FrameV {
    pub func: int,
    pub ip: int,
    pub locals: Seq<Value>,
}

impl View for Frame {
    type V = FrameV;

    open spec fn view(&self) -> FrameV {
        FrameV { func: self.func as int, ip: self.ip as int, locals: self.locals@ }
    }
}

/// The machine state: the call stack (last frame is the active one) and the
/// shared operand stack.
#[derive(Debug)]
pub struct VM {
    pub frames: Vec<Frame>,
    pub stack: Vec<Value>,
}

/// The mathematical model of the machine state.
#[verifier::ext_equal]
pub struct StateV {
    pub frames: Seq<FrameV>,
    pub stack: Seq<Value>,
}

impl View for VM {
    type V = StateV;

    open spec fn view(&self) -> StateV {
        StateV { frames: self.frames@.map_values(|f: Frame| f@), stack: self.stack@ }
    }
}

/// The result of one machine step: a successor state, a terminal value, or a fault.
pub enum StepV {
    Next(StateV),
    Done(Value),
    Fault(RunError),
}

/// What a binary operator yields on two operands, or `None` on a type mismatch.
pub open spec fn eval_bin_spec(op: BinOp, a: Value, b: Value) -> Option<Value> {
    match (op, a, b) {
        (BinOp::Add, Value::Int(x), Value::Int(y)) => Some(Value::Int(x.wrapping_add(y))),
        (BinOp::Sub, Value::Int(x), Value::Int(y)) => Some(Value::Int(x.wrapping_sub(y))),
        (BinOp::And, Value::Bool(x), Value::Bool(y)) => Some(Value::Bool(x && y)),
        (BinOp::Or, Value::Bool(x), Value::Bool(y)) => Some(Value::Bool(x || y)),
        (BinOp::Eq, Value::Int(x), Value::Int(y)) => Some(Value::Bool(x == y)),
        (BinOp::Eq, Value::Bool(x), Value::Bool(y)) => Some(Value::Bool(x == y)),
        (BinOp::Ne, Value::Int(x), Value::Int(y)) => Some(Value::Bool(x != y)),
        (BinOp::Ne, Value::Bool(x), Value::Bool(y)) => Some(Value::Bool(x != y)),
        (BinOp::Lt, Value::Int(x), Value::Int(y)) => Some(Value::Bool(x < y)),
        (BinOp::Le, Value::Int(x), Value::Int(y)) => Some(Value::Bool(x <= y)),
        (BinOp::Gt, Value::Int(x), Value::Int(y)) => Some(Value::Bool(x > y)),
        (BinOp::Ge, Value::Int(x), Value::Int(y)) => Some(Value::Bool(x >= y)),
        _ => None,
    }
}

/// The jump target reached from `ip` by displacement `d`, if it lies inside a
/// function of `len` instructions: (pointer after the jump) + displacement.
pub open spec fn jump_target_spec(ip: int, d: int, len: int) -> Option<int> {
    let t = ip + 1 + d;
    if 0 <= t < len {
        Some(t)
    } else {
        None
    }
}

/// The locals of a freshly pushed frame: the `n_params` topmost stack values in
/// stack order, padded with `Unit` up to `n_slots`.
pub open spec fn call_locals_spec(stack: Seq<Value>, n_params: int, n_slots: int) -> Seq<Value> {
    Seq::new(n_slots as nat, |i: int| if i < n_params {
        stack[stack.len() - n_params + i]
    } else {
        Value::Unit
    })
}

/// One fetch-decode-execute step of the machine.
pub open spec fn step_spec(p: Program, s: StateV) -> StepV {
    if s.frames.len() == 0 {
        StepV::Fault(RunError::StackUnderflow)
    } else {
        let f = s.frames.last();
        if !(0 <= f.func < p.funcs@.len()) {
            StepV::Fault(RunError::InvalidFunction)
        } else {
            let insts = p.funcs@[f.func].insts@;
            if !(0 <= f.ip < insts.len()) {
                StepV::Fault(RunError::InvalidJump)
            } else {
                step_inst_spec(p, s, insts[f.ip])
            }
        }
    }
}

/// The successor state with the active frame replaced.
pub open spec fn replace_top(s: StateV, f: FrameV) -> Seq<FrameV> {
    s.frames.drop_last().push(f)
}

/// The active frame with its instruction pointer advanced by one.
pub open spec fn advanced(f: FrameV) -> FrameV {
    FrameV { func: f.func, ip: f.ip + 1, locals: f.locals }
}

/// Execution of one already-fetched instruction.
pub open spec fn step_inst_spec(p: Program, s: StateV, inst: Inst) -> StepV {
    let f = s.frames.last();
    let insts = p.funcs@[f.func].insts@;
    match inst {
        Inst::Push(v) => StepV::Next(
            StateV { frames: replace_top(s, advanced(f)), stack: s.stack.push(v) },
        ),
        Inst::Pop => if s.stack.len() == 0 {
            StepV::Fault(RunError::StackUnderflow)
        } else {
            StepV::Next(StateV { frames: replace_top(s, advanced(f)), stack: s.stack.drop_last() })
        },
        Inst::Load(slot) => if slot >= f.locals.len() {
            StepV::Fault(RunError::InvalidSlot)
        } else {
            StepV::Next(
                StateV { frames: replace_top(s, advanced(f)), stack: s.stack.push(f.locals[slot as int]) },
            )
        },
        Inst::Store(slot) => if s.stack.len() == 0 {
            StepV::Fault(RunError::StackUnderflow)
        } else if slot >= f.locals.len() {
            StepV::Fault(RunError::InvalidSlot)
        } else {
            let f2 = FrameV {
                func: f.func,
                ip: f.ip + 1,
                locals: f.locals.update(slot as int, s.stack.last()),
            };
            StepV::Next(StateV { frames: replace_top(s, f2), stack: s.stack.drop_last() })
        },
        Inst::Neg => if s.stack.len() == 0 {
            StepV::Fault(RunError::StackUnderflow)
        } else {
            match s.stack.last() {
                Value::Int(x) => StepV::Next(
                    StateV {
                        frames: replace_top(s, advanced(f)),
                        stack: s.stack.drop_last().push(Value::Int((0i64).wrapping_sub(x))),
                    },
                ),
                _ => StepV::Fault(RunError::TypeMismatch),
            }
        },
        Inst::Not => if s.stack.len() == 0 {
            StepV::Fault(RunError::StackUnderflow)
        } else {
            match s.stack.last() {
                Value::Bool(b) => StepV::Next(
                    StateV {
                        frames: replace_top(s, advanced(f)),
                        stack: s.stack.drop_last().push(Value::Bool(!b)),
                    },
                ),
                _ => StepV::Fault(RunError::TypeMismatch),
            }
        },
        Inst::Bin(op) => if s.stack.len() < 2 {
            StepV::Fault(RunError::StackUnderflow)
        } else {
            let rhs = s.stack.last();
            let lhs = s.stack[s.stack.len() - 2];
            match eval_bin_spec(op, lhs, rhs) {
                Some(v) => StepV::Next(
                    StateV {
                        frames: replace_top(s, advanced(f)),
                        stack: s.stack.drop_last().drop_last().push(v),
                    },
                ),
                None => StepV::Fault(RunError::TypeMismatch),
            }
        },
        Inst::Jmp(d) => match jump_target_spec(f.ip, d as int, insts.len() as int) {
            Some(t) => StepV::Next(
                StateV {
                    frames: replace_top(s, FrameV { func: f.func, ip: t, locals: f.locals }),
                    stack: s.stack,
                },
            ),
            None => StepV::Fault(RunError::InvalidJump),
        },
        Inst::JmpFalse(d) => if s.stack.len() == 0 {
            StepV::Fault(RunError::StackUnderflow)
        } else {
            match s.stack.last() {
                Value::Bool(b) => if b {
                    StepV::Next(
                        StateV { frames: replace_top(s, advanced(f)), stack: s.stack.drop_last() },
                    )
                } else {
                    match jump_target_spec(f.ip, d as int, insts.len() as int) {
                        Some(t) => StepV::Next(
                            StateV {
                                frames: replace_top(
                                    s,
                                    FrameV { func: f.func, ip: t, locals: f.locals },
                                ),
                                stack: s.stack.drop_last(),
                            },
                        ),
                        None => StepV::Fault(RunError::InvalidJump),
                    }
                },
                _ => StepV::Fault(RunError::TypeMismatch),
            }
        },
        Inst::Call(fi) => if fi >= p.funcs@.len() {
            StepV::Fault(RunError::InvalidFunction)
        } else if s.frames.len() >= MAX_CALL_DEPTH {
            StepV::Fault(RunError::CallStackOverflow)
        } else {
            let callee = p.funcs@[fi as int];
            if callee.n_params > callee.n_slots {
                StepV::Fault(RunError::InvalidSlot)
            } else if s.stack.len() < callee.n_params {
                StepV::Fault(RunError::StackUnderflow)
            } else {
                let locals = call_locals_spec(
                    s.stack,
                    callee.n_params as int,
                    callee.n_slots as int,
                );
                StepV::Next(
                    StateV {
                        frames: replace_top(s, advanced(f)).push(
                            FrameV { func: fi as int, ip: 0, locals },
                        ),
                        stack: s.stack.subrange(0, s.stack.len() - callee.n_params),
                    },
                )
            }
        },
        Inst::Ret => if s.stack.len() == 0 {
            StepV::Fault(RunError::StackUnderflow)
        } else if s.frames.len() == 1 {
            StepV::Done(s.stack.last())
        } else {
            StepV::Next(StateV { frames: s.frames.drop_last(), stack: s.stack })
        },
        Inst::Halt => if s.stack.len() == 0 {
            StepV::Done(Value::Unit)
        } else {
            StepV::Done(s.stack.last())
        },
    }
}

/// Bounded execution at the specification level: at most `fuel` steps.
pub open spec fn run_spec(p: Program, s: StateV, fuel: nat) -> RunOutcome
    decreases fuel,
{
    if fuel == 0 {
        RunOutcome::OutOfFuel
    } else {
        match step_spec(p, s) {
            StepV::Done(v) => RunOutcome::Done(v),
            StepV::Fault(e) => RunOutcome::Fault(e),
            StepV::Next(s2) => run_spec(p, s2, (fuel - 1) as nat),
        }
    }
}

/// The state the machine starts in: one frame for the entry function, with all
/// of its local slots holding `Unit`, and an empty operand stack.
pub open spec fn init_state_spec(p: Program) -> StateV {
    StateV {
        frames: seq![
            FrameV {
                func: p.entry as int,
                ip: 0,
                locals: Seq::new(p.funcs@[p.entry as int].n_slots as nat, |i: int| Value::Unit),
            }
        ],
        stack: Seq::empty(),
    }
}

/// What a whole bounded run of `p` ends in.
pub open spec fn run_program_spec(p: Program, fuel: nat) -> RunOutcome {
    if p.entry >= p.funcs@.len() {
        RunOutcome::Fault(RunError::InvalidFunction)
    } else {
        run_spec(p, init_state_spec(p), fuel)
    }
}

/// Law: a jump whose target lies outside the current function faults with
/// `InvalidJump`; the machine never continues out of bounds.
pub proof fn lemma_jump_out_of_bounds_faults(p: Program, s: StateV, d: i64)
    requires
        s.frames.len() > 0,
        0 <= s.frames.last().func < p.funcs@.len(),
        0 <= s.frames.last().ip < p.funcs@[s.frames.last().func].insts@.len(),
        p.funcs@[s.frames.last().func].insts@[s.frames.last().ip] == Inst::Jmp(d),
        !(0 <= s.frames.last().ip + 1 + d
            < p.funcs@[s.frames.last().func].insts@.len()),
    ensures
        step_spec(p, s) == StepV::Fault(RunError::InvalidJump),
{
}

/// Law: an instruction pointer that has left the function's code is itself a
/// fault, never a silent continuation.
pub proof fn lemma_pointer_out_of_bounds_faults(p: Program, s: StateV)
    requires
        s.frames.len() > 0,
        0 <= s.frames.last().func < p.funcs@.len(),
        s.frames.last().ip >= p.funcs@[s.frames.last().func].insts@.len(),
    ensures
        step_spec(p, s) == StepV::Fault(RunError::InvalidJump),
{
}

impl VM {
    /// Evaluate a binary operator on two runtime values.
    fn eval_bin(op: BinOp, a: Value, b: Value) -> (r: Option<Value>)
        ensures
            r == eval_bin_spec(op, a, b),
    {
        match (op, a, b) {
            (BinOp::Add, Value::Int(x), Value::Int(y)) => Some(Value::Int(x.wrapping_add(y))),
            (BinOp::Sub, Value::Int(x), Value::Int(y)) => Some(Value::Int(x.wrapping_sub(y))),
            (BinOp::And, Value::Bool(x), Value::Bool(y)) => Some(Value::Bool(x && y)),
            (BinOp::Or, Value::Bool(x), Value::Bool(y)) => Some(Value::Bool(x || y)),
            (BinOp::Eq, Value::Int(x), Value::Int(y)) => Some(Value::Bool(x == y)),
            (BinOp::Eq, Value::Bool(x), Value::Bool(y)) => Some(Value::Bool(x == y)),
            (BinOp::Ne, Value::Int(x), Value::Int(y)) => Some(Value::Bool(x != y)),
            (BinOp::Ne, Value::Bool(x), Value::Bool(y)) => Some(Value::Bool(x != y)),
            (BinOp::Lt, Value::Int(x), Value::Int(y)) => Some(Value::Bool(x < y)),
            (BinOp::Le, Value::Int(x), Value::Int(y)) => Some(Value::Bool(x <= y)),
            (BinOp::Gt, Value::Int(x), Value::Int(y)) => Some(Value::Bool(x > y)),
            (BinOp::Ge, Value::Int(x), Value::Int(y)) => Some(Value::Bool(x >= y)),
            _ => None,
        }
    }

    /// Compute a jump target, or `None` when it leaves the function.
    fn jump_target(ip: usize, d: i64, len: usize) -> (r: Option<usize>)
        requires
            len <= usize::MAX,
        ensures
            match r {
                Some(t) => jump_target_spec(ip as int, d as int, len as int) == Some(t as int),
                None => jump_target_spec(ip as int, d as int, len as int) is None,
            },
    {
        let t: i128 = ip as i128 + 1 + d as i128;
        if 0 <= t && t < len as i128 {
            Some(t as usize)
        } else {
            None
        }
    }

    /// Perform one step of the machine: `None` means execution goes on in the
    /// updated state; `Some` carries the terminal value or the fault.
    pub fn step(p: &Program, vm: &mut VM) -> (r: Option<RunOutcome>)
        ensures
            match step_spec(*p, old(vm)@) {
                StepV::Next(s2) => r is None && final(vm)@ == s2,
                StepV::Done(v) => r == Some(RunOutcome::Done(v)),
                StepV::Fault(e) => r == Some(RunOutcome::Fault(e)),
            },
    {
        let ghost s0 = vm@;
        let flen = vm.frames.len();
        if flen == 0 {
            return Some(RunOutcome::Fault(RunError::StackUnderflow));
        }
        let mut fr = vm.frames.pop().unwrap();
        let ghost f = s0.frames.last();
        assert(fr@ == f);
        assert(vm.frames@.map_values(|x: Frame| x@) =~= s0.frames.drop_last());
        if fr.func >= p.funcs.len() {
            return Some(RunOutcome::Fault(RunError::InvalidFunction));
        }
        let insts_len = p.funcs[fr.func].insts.len();
        if fr.ip >= insts_len {
            return Some(RunOutcome::Fault(RunError::InvalidJump));
        }
        let inst = p.funcs[fr.func].insts[fr.ip];
        match inst {
            Inst::Push(v) => {
                fr.ip = fr.ip + 1;
                vm.frames.push(fr);
                vm.stack.push(v);
                assert(vm@.frames =~= replace_top(s0, advanced(f)));
                None
            },
            Inst::Pop => {
                if vm.stack.len() == 0 {
                    return Some(RunOutcome::Fault(RunError::StackUnderflow));
                }
                vm.stack.pop().unwrap();
                fr.ip = fr.ip + 1;
                vm.frames.push(fr);
                assert(vm@.frames =~= replace_top(s0, advanced(f)));
                None
            },
            Inst::Load(slot) => {
                if slot >= fr.locals.len() {
                    return Some(RunOutcome::Fault(RunError::InvalidSlot));
                }
                let v = fr.locals[slot];
                fr.ip = fr.ip + 1;
                vm.frames.push(fr);
                vm.stack.push(v);
                assert(vm@.frames =~= replace_top(s0, advanced(f)));
                None
            },
            Inst::Store(slot) => {
                if vm.stack.len() == 0 {
                    return Some(RunOutcome::Fault(RunError::StackUnderflow));
                }
                if slot >= fr.locals.len() {
                    return Some(RunOutcome::Fault(RunError::InvalidSlot));
                }
                let v = vm.stack.pop().unwrap();
                fr.locals[slot] = v;
                fr.ip = fr.ip + 1;
                vm.frames.push(fr);
                assert(vm@.frames =~= replace_top(
                    s0,
                    FrameV {
                        func: f.func,
                        ip: f.ip + 1,
                        locals: f.locals.update(slot as int, s0.stack.last()),
                    },
                ));
                None
            },
            Inst::Neg => {
                if vm.stack.len() == 0 {
                    return Some(RunOutcome::Fault(RunError::StackUnderflow));
                }
                let v = vm.stack[vm.stack.len() - 1];
                match v {
                    Value::Int(x) => {
                        vm.stack.pop().unwrap();
                        vm.stack.push(Value::Int((0i64).wrapping_sub(x)));
                        fr.ip = fr.ip + 1;
                        vm.frames.push(fr);
                        assert(vm@.frames =~= replace_top(s0, advanced(f)));
                        None
                    },
                    _ => Some(RunOutcome::Fault(RunError::TypeMismatch)),
                }
            },
            Inst::Not => {
                if vm.stack.len() == 0 {
                    return Some(RunOutcome::Fault(RunError::StackUnderflow));
                }
                let v = vm.stack[vm.stack.len() - 1];
                match v {
                    Value::Bool(b) => {
                        vm.stack.pop().unwrap();
                        vm.stack.push(Value::Bool(!b));
                        fr.ip = fr.ip + 1;
                        vm.frames.push(fr);
                        assert(vm@.frames =~= replace_top(s0, advanced(f)));
                        None
                    },
                    _ => Some(RunOutcome::Fault(RunError::TypeMismatch)),
                }
            },
            Inst::Bin(op) => {
                if vm.stack.len() < 2 {
                    return Some(RunOutcome::Fault(RunError::StackUnderflow));
                }
                let rhs = vm.stack[vm.stack.len() - 1];
                let lhs = vm.stack[vm.stack.len() - 2];
                match Self::eval_bin(op, lhs, rhs) {
                    Some(v) => {
                        vm.stack.pop().unwrap();
                        vm.stack.pop().unwrap();
                        vm.stack.push(v);
                        fr.ip = fr.ip + 1;
                        vm.frames.push(fr);
                        assert(vm@.frames =~= replace_top(s0, advanced(f)));
                        None
                    },
                    None => Some(RunOutcome::Fault(RunError::TypeMismatch)),
                }
            },
            Inst::Jmp(d) => {
                match Self::jump_target(fr.ip, d, insts_len) {
                    Some(t) => {
                        fr.ip = t;
                        vm.frames.push(fr);
                        assert(vm@.frames =~= replace_top(
                            s0,
                            FrameV { func: f.func, ip: t as int, locals: f.locals },
                        ));
                        None
                    },
                    None => Some(RunOutcome::Fault(RunError::InvalidJump)),
                }
            },
            Inst::JmpFalse(d) => {
                if vm.stack.len() == 0 {
                    return Some(RunOutcome::Fault(RunError::StackUnderflow));
                }
                let v = vm.stack[vm.stack.len() - 1];
                match v {
                    Value::Bool(b) => {
                        if b {
                            vm.stack.pop().unwrap();
                            fr.ip = fr.ip + 1;
                            vm.frames.push(fr);
                            assert(vm@.frames =~= replace_top(s0, advanced(f)));
                            None
                        } else {
                            match Self::jump_target(fr.ip, d, insts_len) {
                                Some(t) => {
                                    vm.stack.pop().unwrap();
                                    fr.ip = t;
                                    vm.frames.push(fr);
                                    assert(vm@.frames =~= replace_top(
                                        s0,
                                        FrameV { func: f.func, ip: t as int, locals: f.locals },
                                    ));
                                    None
                                },
                                None => Some(RunOutcome::Fault(RunError::InvalidJump)),
                            }
                        }
                    },
                    _ => Some(RunOutcome::Fault(RunError::TypeMismatch)),
                }
            },
            Inst::Call(fi) => {
                if fi >= p.funcs.len() {
                    return Some(RunOutcome::Fault(RunError::InvalidFunction));
                }
                if flen >= MAX_CALL_DEPTH {
                    return Some(RunOutcome::Fault(RunError::CallStackOverflow));
                }
                let n_params = p.funcs[fi].n_params;
                let n_slots = p.funcs[fi].n_slots;
                if n_params > n_slots {
                    return Some(RunOutcome::Fault(RunError::InvalidSlot));
                }
                if vm.stack.len() < n_params {
                    return Some(RunOutcome::Fault(RunError::StackUnderflow));
                }
                let start = vm.stack.len() - n_params;
                let mut locals: Vec<Value> = Vec::new();
                let mut j: usize = 0;
                while j < n_params
                    invariant
                        j <= n_params,
                        n_params <= vm.stack.len(),
                        start == vm.stack.len() - n_params,
                        locals@.len() == j,
                        forall|k: int| 0 <= k < j ==> locals@[k] == vm.stack@[start + k],
                    decreases n_params - j,
                {
                    locals.push(vm.stack[start + j]);
                    j = j + 1;
                }
                while locals.len() < n_slots
                    invariant
                        n_params <= locals@.len() <= n_slots,
                        forall|k: int| 0 <= k < n_params ==> locals@[k] == vm.stack@[start + k],
                        forall|k: int| n_params <= k < locals@.len() ==> locals@[k] == Value::Unit,
                    decreases n_slots - locals@.len(),
                {
                    locals.push(Value::Unit);
                }
                assert(locals@ =~= call_locals_spec(s0.stack, n_params as int, n_slots as int));
                vm.stack.truncate(start);
                assert(vm.stack@ =~= s0.stack.subrange(0, s0.stack.len() - n_params));
                fr.ip = fr.ip + 1;
                vm.frames.push(fr);
                vm.frames.push(Frame { func: fi, ip: 0, locals });
                assert(vm@.frames =~= replace_top(s0, advanced(f)).push(
                    FrameV {
                        func: fi as int,
                        ip: 0,
                        locals: call_locals_spec(
                            s0.stack,
                            p.funcs@[fi as int].n_params as int,
                            p.funcs@[fi as int].n_slots as int,
                        ),
                    },
                ));
                None
            },
            Inst::Ret => {
                if vm.stack.len() == 0 {
                    return Some(RunOutcome::Fault(RunError::StackUnderflow));
                }
                let v = vm.stack[vm.stack.len() - 1];
                if vm.frames.len() == 0 {
                    Some(RunOutcome::Done(v))
                } else {
                    assert(vm@.frames =~= s0.frames.drop_last());
                    None
                }
            },
            Inst::Halt => {
                if vm.stack.len() == 0 {
                    Some(RunOutcome::Done(Value::Unit))
                } else {
                    let v = vm.stack[vm.stack.len() - 1];
                    Some(RunOutcome::Done(v))
                }
            },
        }
    }

    /// Run `p` from its entry function for at most `fuel` steps.
    pub fn run(p: &Program, fuel: u64) -> (r: RunOutcome)
        ensures
            r == run_program_spec(*p, fuel as nat),
    {
        if p.entry >= p.funcs.len() {
            return RunOutcome::Fault(RunError::InvalidFunction);
        }
        let n_slots = p.funcs[p.entry].n_slots;
        let mut locals: Vec<Value> = Vec::new();
        while locals.len() < n_slots
            invariant
                locals@.len() <= n_slots,
                forall|k: int| 0 <= k < locals@.len() ==> locals@[k] == Value::Unit,
            decreases n_slots - locals@.len(),
        {
            locals.push(Value::Unit);
        }
        let mut frames: Vec<Frame> = Vec::new();
        frames.push(Frame { func: p.entry, ip: 0, locals });
        let mut vm = VM { frames, stack: Vec::new() };
        assert(vm@.frames[0].locals =~= init_state_spec(*p).frames[0].locals);
        assert(vm@.frames[0] =~= init_state_spec(*p).frames[0]);
        assert(vm@.frames =~= init_state_spec(*p).frames);
        assert(vm@.stack =~= init_state_spec(*p).stack);
        assert(vm@ =~= init_state_spec(*p));
        let mut remaining: u64 = fuel;
        loop
            invariant
                run_spec(*p, vm@, remaining as nat) == run_program_spec(*p, fuel as nat),
            decreases remaining,
        {
            if remaining == 0 {
                return RunOutcome::OutOfFuel;
            }
            match Self::step(p, &mut vm) {
                Some(out) => {
                    return out;
                },
                None => {
                    remaining = remaining - 1;
                },
            }
        }
    }
}

} // verus!
