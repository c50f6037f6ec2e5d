//! Bytecode generation: lower a resolved unit into per-function linear code.
//!
//! Slots are assigned from a stack of bindings pushed on block entry and popped
//! on block exit, so sibling blocks reuse slot numbers. `if` lowering places a
//! conditional jump over the then-code and, unless the then-block ends in a
//! `return`, an unconditional jump over the else-code; `loop` lowering wraps its
//! body with a backward jump. Displacements are relative to the instruction
//! after the jump. Failures here are internal errors and abort the whole unit.

use vstd::prelude::*;

use crate::bytecode::{BinOp, Func, FuncV, Inst, Program, ProgramV, Value};
use crate::resolve::lookup_func;
use crate::resolved::{Block, Expr, ExprKind, Item, Stmt};
use crate::symbol::{SymbolTable, VarId};
use crate::token::Operator;

verus! {

/// An internal lowering failure: these indicate a bug in an earlier stage, not
/// a user-facing diagnostic.
#[derive(Debug, Clone, Copy, PartialEq, Eq, Structural)]
pub enum CodegenError {
    /// An assignment whose target is not a resolved identifier.
    UnsupportedAssignmentTarget,
    /// A variable with no bound slot.
    UnboundVariable,
    /// A construct the instruction set cannot express.
    UnsupportedConstruct,
}

/// The machine operator of a source operator.
pub open spec fn binop_of(op: Operator) -> Option<BinOp> {
    match op {
        Operator::Add => Some(BinOp::Add),
        Operator::Sub => Some(BinOp::Sub),
        Operator::And => Some(BinOp::And),
        Operator::Or => Some(BinOp::Or),
        Operator::Equal => Some(BinOp::Eq),
        Operator::NotEqual => Some(BinOp::Ne),
        Operator::Less => Some(BinOp::Lt),
        Operator::LessEqual => Some(BinOp::Le),
        Operator::Greater => Some(BinOp::Gt),
        Operator::GreaterEqual => Some(BinOp::Ge),
        Operator::Not => None,
    }
}

/// The slot bound to variable `v`, innermost binding first.
pub open spec fn lookup_slot(binds: Seq<(int, int)>, v: int) -> Option<int>
    decreases binds.len(),
{
    if binds.len() == 0 {
        None
    } else if binds.last().0 == v {
        Some(binds.last().1)
    } else {
        lookup_slot(binds.drop_last(), v)
    }
}

/// The lowering state across one function: the live bindings (variable id to
/// slot) and the largest slot count seen so far.
#[verifier::ext_equal]
pub struct GenStV {
    pub binds: Seq<(int, int)>,
    pub max: int,
}

/// The code of one expression: it leaves exactly one value on the operand stack.
pub open spec fn gen_expr(binds: Seq<(int, int)>, e: Expr) -> Option<Seq<Inst>>
    decreases e, 0nat,
{
    match e.kind {
        ExprKind::Unit => Some(seq![Inst::Push(Value::Unit)]),
        ExprKind::Integer(v) => Some(seq![Inst::Push(Value::Int(v))]),
        ExprKind::Bool(b) => Some(seq![Inst::Push(Value::Bool(b))]),
        ExprKind::Identifier(id) => match lookup_slot(binds, id.sym_id.0 as int) {
            Some(s) => if 0 <= s <= usize::MAX {
                Some(seq![Inst::Load(s as usize)])
            } else {
                None
            },
            None => None,
        },
        ExprKind::Unary(u) => match gen_expr(binds, *u.expr) {
            Some(code) => match u.op {
                Operator::Sub => Some(code.push(Inst::Neg)),
                Operator::Not => Some(code.push(Inst::Not)),
                _ => None,
            },
            None => None,
        },
        ExprKind::Binary(b) => match (gen_expr(binds, *b.left), gen_expr(binds, *b.right)) {
            (Some(lc), Some(rc)) => match binop_of(b.op) {
                Some(op) => Some(lc + rc + seq![Inst::Bin(op)]),
                None => None,
            },
            _ => None,
        },
        ExprKind::Call(c) => match gen_args(binds, c.args, 0) {
            Some(code) => Some(code.push(Inst::Call(c.callee.0))),
            None => None,
        },
    }
}

/// The concatenated code of the arguments of a call, from index `i` on,
/// evaluated left to right.
pub open spec fn gen_args(binds: Seq<(int, int)>, args: Vec<Expr>, i: int) -> Option<Seq<Inst>>
    decreases args, args.len() - i, 1nat,
{
    if i < 0 || i >= args.len() {
        Some(Seq::empty())
    } else {
        match (gen_expr(binds, args[i]), gen_args(binds, args, i + 1)) {
            (Some(c0), Some(rest)) => Some(c0 + rest),
            _ => None,
        }
    }
}

/// Whether a block's last statement is a `return`, so control never leaves its
/// end.
pub open spec fn ends_in_return(b: Block) -> bool {
    b.stmts.len() > 0 && b.stmts[b.stmts.len() - 1] is Return
}

/// The code of one statement: no net operand-stack effect.
pub open spec fn gen_stmt(st: GenStV, s: Stmt) -> Option<(GenStV, Seq<Inst>)>
    decreases s, 0nat,
{
    match s {
        Stmt::Block(b) => gen_block(st, b),
        Stmt::Expr(es) => match gen_expr(st.binds, es.expr) {
            Some(code) => Some((st, code.push(Inst::Pop))),
            None => None,
        },
        Stmt::Assign(a) => match a.target.kind {
            ExprKind::Identifier(id) => match (
                gen_expr(st.binds, a.value),
                lookup_slot(st.binds, id.sym_id.0 as int),
            ) {
                (Some(code), Some(slot)) => if 0 <= slot <= usize::MAX {
                    Some((st, code.push(Inst::Store(slot as usize))))
                } else {
                    None
                },
                _ => None,
            },
            _ => None,
        },
        Stmt::Let(l) => match gen_expr(st.binds, l.value) {
            Some(code) => {
                let slot = st.binds.len() as int;
                if slot < usize::MAX {
                    let st2 = GenStV {
                        binds: st.binds.push((l.sym_id.0 as int, slot)),
                        max: if slot + 1 > st.max {
                            slot + 1
                        } else {
                            st.max
                        },
                    };
                    Some((st2, code.push(Inst::Store(slot as usize))))
                } else {
                    None
                }
            },
            None => None,
        },
        Stmt::If(i) => match gen_expr(st.binds, i.cond) {
            Some(cond_code) => match gen_block(st, i.body) {
                Some((st1, then_code)) => {
                    let (st2, else_code) = match i.else_body {
                        Some(b) => match gen_block(st1, b) {
                            Some((s2, c2)) => (s2, Some(c2)),
                            None => (st1, None),
                        },
                        None => (st1, Some(Seq::empty())),
                    };
                    match else_code {
                        Some(ec) => {
                            let add_jmp = !ends_in_return(i.body);
                            let jmp_seq: Seq<Inst> = if add_jmp {
                                seq![Inst::Jmp(ec.len() as i64)]
                            } else {
                                Seq::empty()
                            };
                            let d_false = then_code.len() + jmp_seq.len();
                            if ec.len() <= i64::MAX && d_false <= i64::MAX {
                                Some(
                                    (
                                        st2,
                                        cond_code + seq![Inst::JmpFalse(d_false as i64)]
                                            + then_code + jmp_seq + ec,
                                    ),
                                )
                            } else {
                                None
                            }
                        },
                        None => None,
                    }
                },
                None => None,
            },
            None => None,
        },
        Stmt::Loop(l) => match gen_block(st, l.body) {
            Some((st1, body)) => if body.len() + 1 <= i64::MAX {
                Some((st1, body.push(Inst::Jmp((-(body.len() + 1)) as i64))))
            } else {
                None
            },
            None => None,
        },
        Stmt::Return(r) => match r.expr {
            Some(e) => match gen_expr(st.binds, e) {
                Some(code) => Some((st, code.push(Inst::Ret))),
                None => None,
            },
            None => Some((st, seq![Inst::Push(Value::Unit), Inst::Ret])),
        },
    }
}

/// The code of the statements of a block, from index `i` on.
pub open spec fn gen_stmts(st: GenStV, stmts: Vec<Stmt>, i: int) -> Option<(GenStV, Seq<Inst>)>
    decreases stmts, stmts.len() - i, 1nat,
{
    if i < 0 || i >= stmts.len() {
        Some((st, Seq::empty()))
    } else {
        match gen_stmt(st, stmts[i]) {
            Some((st1, c0)) => match gen_stmts(st1, stmts, i + 1) {
                Some((st2, rest)) => Some((st2, c0 + rest)),
                None => None,
            },
            None => None,
        }
    }
}

/// A binding stack cut back to its first `n` entries (unchanged when shorter).
pub open spec fn cut_binds(binds: Seq<(int, int)>, n: int) -> Seq<(int, int)> {
    if 0 <= n <= binds.len() {
        binds.subrange(0, n)
    } else {
        binds
    }
}

/// The code of a block: its bindings live only inside it, so the binding stack
/// is cut back on exit while the slot high-water mark is kept.
pub open spec fn gen_block(st: GenStV, b: Block) -> Option<(GenStV, Seq<Inst>)>
    decreases b, 1nat,
{
    match gen_stmts(st, b.stmts, 0) {
        Some((st1, code)) => Some(
            (GenStV { binds: cut_binds(st1.binds, st.binds.len() as int), max: st1.max }, code),
        ),
        None => None,
    }
}

/// The compiled form of one item: parameters take the leading slots; a function
/// body is followed by an implicit `return` of the unit value; an extern
/// declaration compiles to an empty function.
pub open spec fn gen_item(t: SymbolTable, it: Item) -> Option<FuncV> {
    let fid = match it {
        Item::Function(f) => f.sig.func_id.0 as int,
        Item::ExternFunction(e) => e.0.func_id.0 as int,
    };
    if !(0 <= fid < t.funcs@.len()) {
        None
    } else {
        let params = t@.funcs[fid].params;
        let n = params.len() as int;
        match it {
            Item::ExternFunction(_) => Some(
                FuncV { n_params: n, n_slots: n, insts: Seq::empty() },
            ),
            Item::Function(f) => {
                let st0 = GenStV { binds: Seq::new(n as nat, |j: int| (params[j], j)), max: n };
                match gen_block(st0, f.body) {
                    Some((st1, code)) => Some(
                        FuncV {
                            n_params: n,
                            n_slots: st1.max,
                            insts: code + seq![Inst::Push(Value::Unit), Inst::Ret],
                        },
                    ),
                    None => None,
                }
            },
        }
    }
}

/// The compiled forms of the items from index `i` on.
pub open spec fn gen_items(t: SymbolTable, items: Vec<Item>, i: int) -> Option<Seq<FuncV>>
    decreases items.len() - i,
{
    if i < 0 || i >= items.len() {
        Some(Seq::empty())
    } else {
        match (gen_item(t, items[i]), gen_items(t, items, i + 1)) {
            (Some(f), Some(rest)) => Some(seq![f] + rest),
            _ => None,
        }
    }
}

/// The compiled program of a resolved unit: its functions in item order, and
/// the function named `main` (else the first) as the entry.
pub open spec fn codegen_spec(t: SymbolTable, items: Vec<Item>) -> Option<ProgramV> {
    match gen_items(t, items, 0) {
        Some(fs) => {
            let entry = match lookup_func(t@.funcs, "main"@, 0) {
                Some(f) => f,
                None => 0,
            };
            Some(ProgramV { funcs: fs, entry: entry })
        },
        None => None,
    }
}

/// The model of the binding stack.
pub open spec fn binds_view(v: Vec<(VarId, usize)>) -> Seq<(int, int)> {
    v@.map_values(|p: (VarId, usize)| (p.0.0 as int, p.1 as int))
}

/// The lowering state across one function.
pub struct GenState {
    pub binds: Vec<(VarId, usize)>,
    pub max: usize,
}

impl View for GenState {
    type V = GenStV;

    open spec fn view(&self) -> GenStV {
        GenStV { binds: binds_view(self.binds), max: self.max as int }
    }
}

/// Find the slot bound to a variable, innermost binding first.
fn lookup_slot_x(binds: &Vec<(VarId, usize)>, v: VarId) -> (r: Option<usize>)
    ensures
        match r {
            Some(s) => lookup_slot(binds_view(*binds), v.0 as int) == Some(s as int),
            None => lookup_slot(binds_view(*binds), v.0 as int) is None,
        },
{
    let ghost bv = binds_view(*binds);
    let mut j: usize = binds.len();
    assert(bv.subrange(0, j as int) =~= bv);
    while j > 0
        invariant
            j <= binds@.len(),
            bv == binds_view(*binds),
            bv.len() == binds@.len(),
            lookup_slot(bv, v.0 as int) == lookup_slot(bv.subrange(0, j as int), v.0 as int),
        decreases j,
    {
        if binds[j - 1].0.0 == v.0 {
            return Some(binds[j - 1].1);
        }
        proof {
            assert(bv.subrange(0, j as int).drop_last() =~= bv.subrange(0, j as int - 1));
        }
        j = j - 1;
    }
    None
}

/// Emit the code of one expression.
fn gen_expr_x(binds: &Vec<(VarId, usize)>, e: &Expr) -> (r: Result<Vec<Inst>, CodegenError>)
    ensures
        match r {
            Ok(c) => gen_expr(binds_view(*binds), *e) == Some(c@),
            Err(_) => gen_expr(binds_view(*binds), *e) is None,
        },
    decreases *e, 0nat,
{
    match &e.kind {
        ExprKind::Unit => {
            let mut c: Vec<Inst> = Vec::new();
            c.push(Inst::Push(Value::Unit));
            assert(c@ =~= seq![Inst::Push(Value::Unit)]);
            Ok(c)
        },
        ExprKind::Integer(v) => {
            let mut c: Vec<Inst> = Vec::new();
            c.push(Inst::Push(Value::Int(*v)));
            assert(c@ =~= seq![Inst::Push(Value::Int(e.kind->Integer_0))]);
            Ok(c)
        },
        ExprKind::Bool(b) => {
            let mut c: Vec<Inst> = Vec::new();
            c.push(Inst::Push(Value::Bool(*b)));
            assert(c@ =~= seq![Inst::Push(Value::Bool(e.kind->Bool_0))]);
            Ok(c)
        },
        ExprKind::Identifier(id) => match lookup_slot_x(binds, id.sym_id) {
            Some(s) => {
                let mut c: Vec<Inst> = Vec::new();
                c.push(Inst::Load(s));
                assert(c@ =~= seq![Inst::Load(s)]);
                Ok(c)
            },
            None => Err(CodegenError::UnboundVariable),
        },
        ExprKind::Unary(u) => match gen_expr_x(binds, &u.expr) {
            Ok(mut code) => match u.op {
                Operator::Sub => {
                    code.push(Inst::Neg);
                    Ok(code)
                },
                Operator::Not => {
                    code.push(Inst::Not);
                    Ok(code)
                },
                _ => Err(CodegenError::UnsupportedConstruct),
            },
            Err(e0) => Err(e0),
        },
        ExprKind::Binary(b) => {
            let lc = gen_expr_x(binds, &b.left);
            match lc {
                Ok(mut lcode) => match gen_expr_x(binds, &b.right) {
                    Ok(mut rcode) => {
                        let op = match b.op {
                            Operator::Add => Some(BinOp::Add),
                            Operator::Sub => Some(BinOp::Sub),
                            Operator::And => Some(BinOp::And),
                            Operator::Or => Some(BinOp::Or),
                            Operator::Equal => Some(BinOp::Eq),
                            Operator::NotEqual => Some(BinOp::Ne),
                            Operator::Less => Some(BinOp::Lt),
                            Operator::LessEqual => Some(BinOp::Le),
                            Operator::Greater => Some(BinOp::Gt),
                            Operator::GreaterEqual => Some(BinOp::Ge),
                            Operator::Not => None,
                        };
                        match op {
                            Some(o) => {
                                let ghost l0 = lcode@;
                                lcode.append(&mut rcode);
                                lcode.push(Inst::Bin(o));
                                proof {
                                    assert(lcode@ =~= l0 + gen_expr(
                                        binds_view(*binds),
                                        *b.right,
                                    ).unwrap() + seq![Inst::Bin(o)]);
                                }
                                Ok(lcode)
                            },
                            None => Err(CodegenError::UnsupportedConstruct),
                        }
                    },
                    Err(e0) => Err(e0),
                },
                Err(e0) => Err(e0),
            }
        },
        ExprKind::Call(c) => match gen_args_x(binds, &c.args, 0) {
            Ok(mut code) => {
                code.push(Inst::Call(c.callee.0));
                Ok(code)
            },
            Err(e0) => Err(e0),
        },
    }
}

/// Emit the code of the arguments of a call, from index `i` on.
fn gen_args_x(binds: &Vec<(VarId, usize)>, args: &Vec<Expr>, i: usize) -> (r: Result<
    Vec<Inst>,
    CodegenError,
>)
    ensures
        match r {
            Ok(c) => gen_args(binds_view(*binds), *args, i as int) == Some(c@),
            Err(_) => gen_args(binds_view(*binds), *args, i as int) is None,
        },
    decreases *args, args.len() - i, 1nat,
{
    if i >= args.len() {
        let c: Vec<Inst> = Vec::new();
        assert(c@ =~= Seq::<Inst>::empty());
        Ok(c)
    } else {
        match gen_expr_x(binds, &args[i]) {
            Ok(mut c0) => match gen_args_x(binds, args, i + 1) {
                Ok(mut rest) => {
                    c0.append(&mut rest);
                    Ok(c0)
                },
                Err(e0) => Err(e0),
            },
            Err(e0) => Err(e0),
        }
    }
}

/// Emit the code of one statement, updating the binding state.
fn gen_stmt_x(st: &mut GenState, s: &Stmt) -> (r: Result<Vec<Inst>, CodegenError>)
    ensures
        match r {
            Ok(c) => gen_stmt(old(st)@, *s) == Some((final(st)@, c@)),
            Err(_) => gen_stmt(old(st)@, *s) is None,
        },
    decreases *s, 0nat,
{
    match s {
        Stmt::Block(b) => gen_block_x(st, b),
        Stmt::Expr(es) => match gen_expr_x(&st.binds, &es.expr) {
            Ok(mut code) => {
                code.push(Inst::Pop);
                Ok(code)
            },
            Err(e0) => Err(e0),
        },
        Stmt::Assign(a) => match &a.target.kind {
            ExprKind::Identifier(id) => {
                let code = gen_expr_x(&st.binds, &a.value);
                match (code, lookup_slot_x(&st.binds, id.sym_id)) {
                    (Ok(mut c), Some(slot)) => {
                        c.push(Inst::Store(slot));
                        Ok(c)
                    },
                    (Err(e0), _) => Err(e0),
                    _ => Err(CodegenError::UnboundVariable),
                }
            },
            _ => Err(CodegenError::UnsupportedAssignmentTarget),
        },
        Stmt::Let(l) => match gen_expr_x(&st.binds, &l.value) {
            Ok(mut code) => {
                let slot = st.binds.len();
                if slot >= usize::MAX {
                    return Err(CodegenError::UnsupportedConstruct);
                }
                let ghost b0 = binds_view(st.binds);
                st.binds.push((l.sym_id, slot));
                proof {
                    assert(binds_view(st.binds) =~= b0.push((l.sym_id.0 as int, slot as int)));
                }
                if slot + 1 > st.max {
                    st.max = slot + 1;
                }
                code.push(Inst::Store(slot));
                Ok(code)
            },
            Err(e0) => Err(e0),
        },
        Stmt::If(i) => {
            let cond_code = gen_expr_x(&st.binds, &i.cond);
            match cond_code {
                Ok(cc) => match gen_block_x(st, &i.body) {
                    Ok(then_code) => {
                        let else_code: Result<Vec<Inst>, CodegenError> = match &i.else_body {
                            Some(b) => gen_block_x(st, b),
                            None => Ok(Vec::new()),
                        };
                        match else_code {
                            Ok(ec) => {
                                let add_jmp = !block_ends_in_return(&i.body);
                                if (ec.len() as u128) > (i64::MAX as u128) {
                                    return Err(CodegenError::UnsupportedConstruct);
                                }
                                let jmp_len: usize = if add_jmp {
                                    1
                                } else {
                                    0
                                };
                                if (then_code.len() as u128) + (jmp_len as u128) > (
                                i64::MAX as u128) {
                                    return Err(CodegenError::UnsupportedConstruct);
                                }
                                let d_false: i64 = ((then_code.len() as u128) + (
                                jmp_len as u128)) as i64;
                                let mut out = cc;
                                let ghost c0 = out@;
                                out.push(Inst::JmpFalse(d_false));
                                let mut tc = then_code;
                                let ghost t0 = tc@;
                                out.append(&mut tc);
                                if add_jmp {
                                    out.push(Inst::Jmp(ec.len() as i64));
                                }
                                let mut e0 = ec;
                                let ghost ev = e0@;
                                out.append(&mut e0);
                                proof {
                                    let js: Seq<Inst> = if add_jmp {
                                        seq![Inst::Jmp(ev.len() as i64)]
                                    } else {
                                        Seq::empty()
                                    };
                                    assert(out@ =~= c0 + seq![
                                        Inst::JmpFalse((t0.len() + js.len()) as i64),
                                    ] + t0 + js + ev);
                                }
                                Ok(out)
                            },
                            Err(e0) => Err(e0),
                        }
                    },
                    Err(e0) => Err(e0),
                },
                Err(e0) => Err(e0),
            }
        },
        Stmt::Loop(l) => match gen_block_x(st, &l.body) {
            Ok(mut body) => {
                if (body.len() as u128) + 1 > (i64::MAX as u128) {
                    return Err(CodegenError::UnsupportedConstruct);
                }
                let d: i64 = -(((body.len() as u128) + 1) as i64);
                body.push(Inst::Jmp(d));
                Ok(body)
            },
            Err(e0) => Err(e0),
        },
        Stmt::Return(r0) => match &r0.expr {
            Some(e) => match gen_expr_x(&st.binds, e) {
                Ok(mut code) => {
                    code.push(Inst::Ret);
                    Ok(code)
                },
                Err(e0) => Err(e0),
            },
            None => {
                let mut c: Vec<Inst> = Vec::new();
                c.push(Inst::Push(Value::Unit));
                c.push(Inst::Ret);
                assert(c@ =~= seq![Inst::Push(Value::Unit), Inst::Ret]);
                Ok(c)
            },
        },
    }
}

/// Whether the block's last statement is a `return`.
fn block_ends_in_return(b: &Block) -> (r: bool)
    ensures
        r == ends_in_return(*b),
{
    if b.stmts.len() == 0 {
        return false;
    }
    match &b.stmts[b.stmts.len() - 1] {
        Stmt::Return(_) => true,
        _ => false,
    }
}

/// Emit the code of the statements of a block, from index `i` on.
fn gen_stmts_x(st: &mut GenState, stmts: &Vec<Stmt>, i: usize) -> (r: Result<
    Vec<Inst>,
    CodegenError,
>)
    ensures
        match r {
            Ok(c) => gen_stmts(old(st)@, *stmts, i as int) == Some((final(st)@, c@)),
            Err(_) => gen_stmts(old(st)@, *stmts, i as int) is None,
        },
    decreases *stmts, stmts.len() - i, 1nat,
{
    if i >= stmts.len() {
        let c: Vec<Inst> = Vec::new();
        assert(c@ =~= Seq::<Inst>::empty());
        Ok(c)
    } else {
        match gen_stmt_x(st, &stmts[i]) {
            Ok(mut c0) => match gen_stmts_x(st, stmts, i + 1) {
                Ok(mut rest) => {
                    c0.append(&mut rest);
                    Ok(c0)
                },
                Err(e0) => Err(e0),
            },
            Err(e0) => Err(e0),
        }
    }
}

/// Emit the code of a block, cutting its bindings back on exit.
fn gen_block_x(st: &mut GenState, b: &Block) -> (r: Result<Vec<Inst>, CodegenError>)
    ensures
        match r {
            Ok(c) => gen_block(old(st)@, *b) == Some((final(st)@, c@)),
            Err(_) => gen_block(old(st)@, *b) is None,
        },
    decreases *b, 1nat,
{
    let saved = st.binds.len();
    match gen_stmts_x(st, &b.stmts, 0) {
        Ok(code) => {
            let ghost b1 = binds_view(st.binds);
            st.binds.truncate(saved);
            proof {
                if saved <= b1.len() {
                    assert(binds_view(st.binds) =~= cut_binds(b1, saved as int));
                } else {
                    assert(binds_view(st.binds) =~= cut_binds(b1, saved as int));
                }
            }
            Ok(code)
        },
        Err(e0) => Err(e0),
    }
}

/// Compile one item into a machine function.
fn gen_item_x(t: &SymbolTable, it: &Item) -> (r: Result<Func, CodegenError>)
    ensures
        match r {
            Ok(f) => gen_item(*t, *it) == Some(f@),
            Err(_) => gen_item(*t, *it) is None,
        },
{
    let fid = match it {
        Item::Function(f) => f.sig.func_id.0,
        Item::ExternFunction(e) => e.0.func_id.0,
    };
    if fid >= t.funcs.len() {
        return Err(CodegenError::UnboundVariable);
    }
    let n = t.funcs[fid].params.len();
    match it {
        Item::ExternFunction(_) => {
            let f = Func { n_params: n, n_slots: n, insts: Vec::new() };
            assert(f@.insts =~= Seq::<Inst>::empty());
            Ok(f)
        },
        Item::Function(func) => {
            let mut binds: Vec<(VarId, usize)> = Vec::new();
            let mut j: usize = 0;
            while j < n
                invariant
                    j <= n,
                    fid < t.funcs@.len(),
                    n == t.funcs@[fid as int].params@.len(),
                    binds@.len() == j,
                    forall|k: int|
                        0 <= k < j ==> #[trigger] binds@[k] == (
                            t.funcs@[fid as int].params@[k],
                            k as usize,
                        ),
                decreases n - j,
            {
                binds.push((t.funcs[fid].params[j], j));
                j = j + 1;
            }
            let mut st = GenState { binds, max: n };
            proof {
                assert(t.funcs@[fid as int].params.len() == t.funcs@[fid as int].params@.len());
                assert(st@.binds =~= Seq::new(
                    t@.funcs[fid as int].params.len(),
                    |k: int| (t@.funcs[fid as int].params[k], k),
                ));
            }
            match gen_block_x(&mut st, &func.body) {
                Ok(mut code) => {
                    code.push(Inst::Push(Value::Unit));
                    code.push(Inst::Ret);
                    let f = Func { n_params: n, n_slots: st.max, insts: code };
                    proof {
                        assert(f@.insts =~= gen_block(
                            GenStV {
                                binds: Seq::new(
                                    t@.funcs[fid as int].params.len(),
                                    |k: int| (t@.funcs[fid as int].params[k], k),
                                ),
                                max: t@.funcs[fid as int].params.len() as int,
                            },
                            func.body,
                        ).unwrap().1 + seq![Inst::Push(Value::Unit), Inst::Ret]);
                    }
                    Ok(f)
                },
                Err(e0) => Err(e0),
            }
        },
    }
}

/// Compile the items from index `i` on.
fn gen_items_x(t: &SymbolTable, items: &Vec<Item>, i: usize) -> (r: Result<Vec<Func>, CodegenError>)
    ensures
        match r {
            Ok(fs) => gen_items(*t, *items, i as int) == Some(fs@.map_values(|f: Func| f@)),
            Err(_) => gen_items(*t, *items, i as int) is None,
        },
    decreases items.len() - i,
{
    if i >= items.len() {
        let fs: Vec<Func> = Vec::new();
        assert(fs@.map_values(|f: Func| f@) =~= Seq::<FuncV>::empty());
        Ok(fs)
    } else {
        match gen_item_x(t, &items[i]) {
            Ok(f) => match gen_items_x(t, items, i + 1) {
                Ok(mut rest) => {
                    let ghost r0 = rest@;
                    let ghost fv = f@;
                    rest.insert(0, f);
                    proof {
                        assert(rest@.map_values(|x: Func| x@) =~= seq![fv] + r0.map_values(
                            |x: Func| x@,
                        ));
                    }
                    Ok(rest)
                },
                Err(e0) => Err(e0),
            },
            Err(e0) => Err(e0),
        }
    }
}

/// Lower resolved items to an executable program: one machine function per
/// item, in order; the function named `main` (else the first) is the entry.
pub fn codegen_wsk_vm(t: &SymbolTable, items: &Vec<Item>) -> (r: Result<Program, CodegenError>)
    ensures
        match r {
            Ok(p) => codegen_spec(*t, *items) == Some(p@),
            Err(_) => codegen_spec(*t, *items) is None,
        },
{
    match gen_items_x(t, items, 0) {
        Ok(funcs) => {
            let main_name: String = "main".to_string();
            let entry = match crate::resolve::lookup_func_x(&t.funcs, &main_name) {
                Some(f) => f,
                None => 0,
            };
            let p = Program { funcs, entry };
            proof {
                assert(p@.funcs =~= codegen_spec(*t, *items).unwrap().funcs);
            }
            Ok(p)
        },
        Err(e0) => Err(e0),
    }
}

/// Every jump of a code segment stays inside it: the pointer after the jump
/// plus its displacement lands at an index of the segment or just past its end.
pub open spec fn jumps_closed(code: Seq<Inst>) -> bool {
    forall|i: int|
        0 <= i < code.len() ==> match #[trigger] code[i] {
            Inst::Jmp(d) => 0 <= i + 1 + d <= code.len(),
            Inst::JmpFalse(d) => 0 <= i + 1 + d <= code.len(),
            _ => true,
        }
}

/// A segment with no jump instruction at all.
pub open spec fn no_jumps(code: Seq<Inst>) -> bool {
    forall|i: int|
        0 <= i < code.len() ==> match #[trigger] code[i] {
            Inst::Jmp(_) => false,
            Inst::JmpFalse(_) => false,
            _ => true,
        }
}

/// Closed segments stay closed under concatenation.
pub proof fn lemma_closed_concat(a: Seq<Inst>, b: Seq<Inst>)
    requires
        jumps_closed(a),
        jumps_closed(b),
    ensures
        jumps_closed(a + b),
{
    let c = a + b;
    assert forall|i: int| 0 <= i < c.len() implies match #[trigger] c[i] {
        Inst::Jmp(d) => 0 <= i + 1 + d <= c.len(),
        Inst::JmpFalse(d) => 0 <= i + 1 + d <= c.len(),
        _ => true,
    } by {
        if i < a.len() {
            assert(c[i] == a[i]);
        } else {
            assert(c[i] == b[i - a.len()]);
        }
    }
}

/// The code of an expression holds no jump: expressions are straight-line.
pub proof fn lemma_gen_expr_no_jumps(binds: Seq<(int, int)>, e: Expr)
    ensures
        gen_expr(binds, e) matches Some(c) ==> no_jumps(c),
    decreases e, 0nat,
{
    match e.kind {
        ExprKind::Unary(u) => {
            lemma_gen_expr_no_jumps(binds, *u.expr);
        },
        ExprKind::Binary(b) => {
            lemma_gen_expr_no_jumps(binds, *b.left);
            lemma_gen_expr_no_jumps(binds, *b.right);
        },
        ExprKind::Call(c) => {
            lemma_gen_args_no_jumps(binds, c.args, 0);
        },
        _ => {},
    }
}

pub proof fn lemma_gen_args_no_jumps(binds: Seq<(int, int)>, args: Vec<Expr>, i: int)
    ensures
        gen_args(binds, args, i) matches Some(c) ==> no_jumps(c),
    decreases args, args.len() - i, 1nat,
{
    if 0 <= i < args.len() {
        lemma_gen_expr_no_jumps(binds, args[i]);
        lemma_gen_args_no_jumps(binds, args, i + 1);
    }
}

/// The code of a statement is jump-closed: every displacement it emits stays
/// inside the statement's own code.
pub proof fn lemma_gen_stmt_closed(st: GenStV, s: Stmt)
    ensures
        gen_stmt(st, s) matches Some(p) ==> jumps_closed(p.1),
    decreases s, 0nat,
{
    match s {
        Stmt::Block(b) => {
            lemma_gen_block_closed(st, b);
        },
        Stmt::Expr(es) => {
            lemma_gen_expr_no_jumps(st.binds, es.expr);
        },
        Stmt::Assign(a) => {
            lemma_gen_expr_no_jumps(st.binds, a.value);
        },
        Stmt::Let(l) => {
            lemma_gen_expr_no_jumps(st.binds, l.value);
        },
        Stmt::If(i) => {
            lemma_gen_expr_no_jumps(st.binds, i.cond);
            lemma_gen_block_closed(st, i.body);
            match gen_expr(st.binds, i.cond) {
                Some(cc) => match gen_block(st, i.body) {
                    Some((st1, tc)) => {
                        match i.else_body {
                            Some(b) => {
                                lemma_gen_block_closed(st1, b);
                            },
                            None => {},
                        }
                        match gen_stmt(st, s) {
                            Some(p) => {
                                let code = p.1;
                                let ec_len = code.len() - cc.len() - 1 - tc.len() - (
                                if !ends_in_return(i.body) {
                                    1int
                                } else {
                                    0int
                                });
                                assert forall|k: int| 0 <= k < code.len() implies match #[trigger] code[k] {
                                    Inst::Jmp(d) => 0 <= k + 1 + d <= code.len(),
                                    Inst::JmpFalse(d) => 0 <= k + 1 + d <= code.len(),
                                    _ => true,
                                } by {
                                    let jl: int = if !ends_in_return(i.body) {
                                        1
                                    } else {
                                        0
                                    };
                                    if k < cc.len() {
                                        assert(code[k] == cc[k]);
                                    } else if k == cc.len() {
                                    } else if k < cc.len() + 1 + tc.len() {
                                        assert(code[k] == tc[k - cc.len() - 1]);
                                    } else if jl == 1 && k == cc.len() + 1 + tc.len() {
                                    } else {
                                        let off = cc.len() + 1 + tc.len() + jl;
                                        assert(0 <= k - off < code.len() - off);
                                    }
                                }
                            },
                            None => {},
                        }
                    },
                    None => {},
                },
                None => {},
            }
        },
        Stmt::Loop(l) => {
            lemma_gen_block_closed(st, l.body);
        },
        Stmt::Return(r) => {
            match r.expr {
                Some(e) => {
                    lemma_gen_expr_no_jumps(st.binds, e);
                },
                None => {},
            }
        },
    }
}

pub proof fn lemma_gen_stmts_closed(st: GenStV, stmts: Vec<Stmt>, i: int)
    ensures
        gen_stmts(st, stmts, i) matches Some(p) ==> jumps_closed(p.1),
    decreases stmts, stmts.len() - i, 1nat,
{
    if 0 <= i < stmts.len() {
        lemma_gen_stmt_closed(st, stmts[i]);
        match gen_stmt(st, stmts[i]) {
            Some((st1, c0)) => {
                lemma_gen_stmts_closed(st1, stmts, i + 1);
                match gen_stmts(st1, stmts, i + 1) {
                    Some((_st2, rest)) => {
                        lemma_closed_concat(c0, rest);
                    },
                    None => {},
                }
            },
            None => {},
        }
    }
}

pub proof fn lemma_gen_block_closed(st: GenStV, b: Block)
    ensures
        gen_block(st, b) matches Some(p) ==> jumps_closed(p.1),
    decreases b, 1nat,
{
    lemma_gen_stmts_closed(st, b.stmts, 0);
}

/// Law: every jump of a generated function lands strictly inside the function's
/// code, so the machine never faults with an invalid jump target while running
/// it: the body's jumps reach at most the appended implicit return.
pub proof fn lemma_gen_item_jumps_in_bounds(t: SymbolTable, it: Item)
    ensures
        gen_item(t, it) matches Some(f) ==> forall|i: int|
            0 <= i < f.insts.len() ==> match #[trigger] f.insts[i] {
                Inst::Jmp(d) => 0 <= i + 1 + d < f.insts.len(),
                Inst::JmpFalse(d) => 0 <= i + 1 + d < f.insts.len(),
                _ => true,
            },
{
    match it {
        Item::ExternFunction(_) => {},
        Item::Function(func) => {
            let fid = func.sig.func_id.0 as int;
            if 0 <= fid < t.funcs@.len() {
                let params = t@.funcs[fid].params;
                let n = params.len() as int;
                let st0 = GenStV { binds: Seq::new(n as nat, |j: int| (params[j], j)), max: n };
                lemma_gen_block_closed(st0, func.body);
                match gen_block(st0, func.body) {
                    Some((_st1, code)) => {
                        match gen_item(t, it) {
                            Some(f) => {
                                assert forall|i: int| 0 <= i < f.insts.len() implies match #[trigger] f.insts[i] {
                                    Inst::Jmp(d) => 0 <= i + 1 + d < f.insts.len(),
                                    Inst::JmpFalse(d) => 0 <= i + 1 + d < f.insts.len(),
                                    _ => true,
                                } by {
                                    if i < code.len() {
                                        assert(f.insts[i] == code[i]);
                                    } else {
                                        assert(f.insts[i] == seq![
                                            Inst::Push(Value::Unit),
                                            Inst::Ret,
                                        ][i - code.len()]);
                                    }
                                }
                            },
                            None => {},
                        }
                    },
                    None => {},
                }
            }
        },
    }
}

} // verus!
