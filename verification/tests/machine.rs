//! The machine and its binary form: arithmetic, faults, and the codec.

use whiskc::bytecode::{BinOp, Func, Inst, Program, Value};
use whiskc::vm::{RunError, RunOutcome, VM};

fn one_func_program(insts: Vec<Inst>, n_slots: usize) -> Program {
    Program { funcs: vec![Func { n_params: 0, n_slots, insts }], entry: 0 }
}

#[test]
fn vm_add_and_return() {
    let p = one_func_program(
        vec![
            Inst::Push(Value::Int(2)),
            Inst::Push(Value::Int(3)),
            Inst::Bin(BinOp::Add),
            Inst::Ret,
        ],
        0,
    );
    assert_eq!(VM::run(&p, 100), RunOutcome::Done(Value::Int(5)));
}

#[test]
fn vm_store_load_slots() {
    let p = one_func_program(
        vec![
            Inst::Push(Value::Int(7)),
            Inst::Store(0),
            Inst::Load(0),
            Inst::Load(0),
            Inst::Bin(BinOp::Add),
            Inst::Ret,
        ],
        1,
    );
    assert_eq!(VM::run(&p, 100), RunOutcome::Done(Value::Int(14)));
}

#[test]
fn vm_type_mismatch_is_fatal() {
    let p = one_func_program(
        vec![
            Inst::Push(Value::Bool(true)),
            Inst::Push(Value::Int(1)),
            Inst::Bin(BinOp::Add),
            Inst::Ret,
        ],
        0,
    );
    assert_eq!(VM::run(&p, 100), RunOutcome::Fault(RunError::TypeMismatch));
}

#[test]
fn vm_stack_underflow_is_fatal() {
    let p = one_func_program(vec![Inst::Bin(BinOp::Add)], 0);
    assert_eq!(VM::run(&p, 100), RunOutcome::Fault(RunError::StackUnderflow));
}

#[test]
fn vm_invalid_slot_is_fatal() {
    let p = one_func_program(vec![Inst::Load(3), Inst::Ret], 1);
    assert_eq!(VM::run(&p, 100), RunOutcome::Fault(RunError::InvalidSlot));
}

#[test]
fn vm_jump_outside_function_is_fatal() {
    let p = one_func_program(vec![Inst::Jmp(5)], 0);
    assert_eq!(VM::run(&p, 100), RunOutcome::Fault(RunError::InvalidJump));
}

#[test]
fn vm_backward_jump_out_of_bounds_is_fatal() {
    let p = one_func_program(vec![Inst::Jmp(-4)], 0);
    assert_eq!(VM::run(&p, 100), RunOutcome::Fault(RunError::InvalidJump));
}

#[test]
fn vm_running_off_the_end_is_fatal() {
    let p = one_func_program(vec![Inst::Push(Value::Int(1))], 0);
    assert_eq!(VM::run(&p, 100), RunOutcome::Fault(RunError::InvalidJump));
}

#[test]
fn vm_invalid_function_is_fatal() {
    let p = one_func_program(vec![Inst::Call(9), Inst::Ret], 0);
    assert_eq!(VM::run(&p, 100), RunOutcome::Fault(RunError::InvalidFunction));
}

#[test]
fn vm_call_binds_arguments_in_stack_order() {
    // f(a, b) = a - b; main returns f(10, 4)
    let main = Func {
        n_params: 0,
        n_slots: 0,
        insts: vec![
            Inst::Push(Value::Int(10)),
            Inst::Push(Value::Int(4)),
            Inst::Call(1),
            Inst::Ret,
        ],
    };
    let f = Func {
        n_params: 2,
        n_slots: 2,
        insts: vec![Inst::Load(0), Inst::Load(1), Inst::Bin(BinOp::Sub), Inst::Ret],
    };
    let p = Program { funcs: vec![main, f], entry: 0 };
    assert_eq!(VM::run(&p, 100), RunOutcome::Done(Value::Int(6)));
}

#[test]
fn vm_jmp_false_takes_the_jump_only_on_false() {
    // JmpFalse skips the next instruction when the popped value is false
    let p = one_func_program(
        vec![
            Inst::Push(Value::Bool(false)),
            Inst::JmpFalse(1),
            Inst::Push(Value::Int(1)),
            Inst::Push(Value::Int(2)),
            Inst::Ret,
        ],
        0,
    );
    assert_eq!(VM::run(&p, 100), RunOutcome::Done(Value::Int(2)));
    let q = one_func_program(
        vec![
            Inst::Push(Value::Bool(true)),
            Inst::JmpFalse(1),
            Inst::Push(Value::Int(1)),
            Inst::Ret,
        ],
        0,
    );
    assert_eq!(VM::run(&q, 100), RunOutcome::Done(Value::Int(1)));
}

#[test]
fn vm_out_of_fuel_on_endless_loop() {
    let p = one_func_program(vec![Inst::Jmp(-1)], 0);
    assert_eq!(VM::run(&p, 50), RunOutcome::OutOfFuel);
}

#[test]
fn vm_neg_and_not() {
    let p = one_func_program(vec![Inst::Push(Value::Int(5)), Inst::Neg, Inst::Ret], 0);
    assert_eq!(VM::run(&p, 100), RunOutcome::Done(Value::Int(-5)));
    let q = one_func_program(vec![Inst::Push(Value::Bool(false)), Inst::Not, Inst::Ret], 0);
    assert_eq!(VM::run(&q, 100), RunOutcome::Done(Value::Bool(true)));
}

#[test]
fn vm_comparisons() {
    for (op, a, b, want) in [
        (BinOp::Lt, 3, 4, true),
        (BinOp::Le, 4, 4, true),
        (BinOp::Gt, 3, 4, false),
        (BinOp::Ge, 5, 4, true),
        (BinOp::Eq, 4, 4, true),
        (BinOp::Ne, 4, 4, false),
    ] {
        let p = one_func_program(
            vec![Inst::Push(Value::Int(a)), Inst::Push(Value::Int(b)), Inst::Bin(op), Inst::Ret],
            0,
        );
        assert_eq!(VM::run(&p, 100), RunOutcome::Done(Value::Bool(want)));
    }
}

#[test]
fn codec_round_trips_a_program() {
    let p = Program {
        funcs: vec![
            Func {
                n_params: 0,
                n_slots: 2,
                insts: vec![
                    Inst::Push(Value::Int(-7)),
                    Inst::Push(Value::Bool(true)),
                    Inst::Push(Value::Unit),
                    Inst::Pop,
                    Inst::Load(1),
                    Inst::Store(0),
                    Inst::Neg,
                    Inst::Not,
                    Inst::Bin(BinOp::Ge),
                    Inst::Jmp(-3),
                    Inst::JmpFalse(4),
                    Inst::Call(1),
                    Inst::Ret,
                    Inst::Halt,
                ],
            },
            Func { n_params: 2, n_slots: 3, insts: vec![Inst::Ret] },
        ],
        entry: 1,
    };
    let bin = p.to_bin();
    let q = Program::from_bytes(&bin).expect("a just-encoded program decodes");
    assert_eq!(q, p);
}

#[test]
fn codec_empty_program_is_header_only() {
    let p = Program { funcs: vec![], entry: 0 };
    let bin = p.to_bin();
    assert_eq!(bin.len(), 16);
    assert_eq!(Program::from_bytes(&bin), Some(p));
}

#[test]
fn codec_rejects_truncated_input() {
    let p = Program {
        funcs: vec![Func { n_params: 0, n_slots: 0, insts: vec![Inst::Ret] }],
        entry: 0,
    };
    let mut bin = p.to_bin();
    bin.pop();
    assert_eq!(Program::from_bytes(&bin), None);
}

#[test]
fn codec_rejects_trailing_garbage() {
    let p = Program { funcs: vec![], entry: 0 };
    let mut bin = p.to_bin();
    bin.push(0);
    assert_eq!(Program::from_bytes(&bin), None);
}

#[test]
fn codec_rejects_unknown_tag() {
    let p = Program {
        funcs: vec![Func { n_params: 0, n_slots: 0, insts: vec![Inst::Ret] }],
        entry: 0,
    };
    let mut bin = p.to_bin();
    let tag_at = 16 + 24;
    bin[tag_at] = 200;
    assert_eq!(Program::from_bytes(&bin), None);
}

#[test]
fn vm_call_stack_exhaustion_is_fatal() {
    // a function that calls itself forever exhausts the call stack
    let p = one_func_program(vec![Inst::Call(0), Inst::Ret], 0);
    assert_eq!(VM::run(&p, 50_000), RunOutcome::Fault(RunError::CallStackOverflow));
}
