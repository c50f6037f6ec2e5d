//! Two-phase symbol resolution over one compilation unit.
//!
//! Phase one registers every top-level signature — so forward references and
//! mutual recursion resolve — allocating a function symbol, an entry block and
//! one variable per parameter. Phase two resolves every body: entering a block
//! allocates a fresh block whose parent is the enclosing one and pushes a scope
//! frame; a `let` binds its name only after its initializer is resolved;
//! identifier lookup walks the frames innermost-first, so inner bindings
//! shadow outer ones. Failures are aggregated, never fatal: resolution returns
//! either the resolved tree with its symbol table, or every error at once.

use vstd::prelude::*;

use crate::ast;
use crate::resolved;
use crate::resolved::{
    ast_view, block_view, expr_view, item_view, items_view, stmt_view, BlockV, ExprKindV, ExprV,
    IfV, ItemV, LetV, StmtV,
};
use crate::symbol::{
    BlockId, BlockSymbolV, FuncId, FuncSymbolV, SymbolTable, SymbolTableV, TypeId, VarId,
    VarSymbolV,
};
use crate::token::{Located, Operator, Span, Type};

verus! {

/// A resolution diagnostic.
#[derive(Debug)]
pub enum ResolveError {
    /// A name that no scope frame and no parameter binds.
    UnresolvedIdentifier(Located<String>),
    /// A callee name that no top-level function carries.
    UnresolvedCall(Located<String>),
    /// A construct in a position the back end does not support.
    UnsupportedExpr(Span),
}

/// The mathematical model of a resolution diagnostic.
pub enum ResolveErrorV {
    UnresolvedIdentifier(Seq<char>, Span),
    UnresolvedCall(Seq<char>, Span),
    UnsupportedExpr(Span),
}

impl View for ResolveError {
    type V = ResolveErrorV;

    open spec fn view(&self) -> ResolveErrorV {
        match self {
            ResolveError::UnresolvedIdentifier(l) => ResolveErrorV::UnresolvedIdentifier(
                l.item@,
                l.loc,
            ),
            ResolveError::UnresolvedCall(l) => ResolveErrorV::UnresolvedCall(l.item@, l.loc),
            ResolveError::UnsupportedExpr(s) => ResolveErrorV::UnsupportedExpr(*s),
        }
    }
}

/// The model of the resolver's working state: the table built so far, the scope
/// frames (innermost last; each frame binds names to variable ids, newest
/// last), and the diagnostics collected so far.
#[verifier::ext_equal]
pub struct ResolveStV {
    pub table: SymbolTableV,
    pub scopes: Seq<Seq<(Seq<char>, int)>>,
    pub errors: Seq<ResolveErrorV>,
}

/// The id of a source-level type name.
pub open spec fn ty_id(t: Type) -> int {
    match t {
        Type::Unit => 0,
        Type::Int => 1,
        Type::Bool => 2,
    }
}

/// The type a unary operator yields.
pub open spec fn unary_ty(op: Operator) -> int {
    match op {
        Operator::Not => 2,
        _ => 1,
    }
}

/// The type a binary operator yields.
pub open spec fn binary_ty(op: Operator) -> int {
    match op {
        Operator::Add => 1,
        Operator::Sub => 1,
        _ => 2,
    }
}

/// The newest binding of `name` in one scope frame.
pub open spec fn lookup_frame(frame: Seq<(Seq<char>, int)>, name: Seq<char>) -> Option<int>
    decreases frame.len(),
{
    if frame.len() == 0 {
        None
    } else if frame.last().0 == name {
        Some(frame.last().1)
    } else {
        lookup_frame(frame.drop_last(), name)
    }
}

/// The binding of `name` in the innermost frame that has one.
pub open spec fn lookup_scopes(scopes: Seq<Seq<(Seq<char>, int)>>, name: Seq<char>) -> Option<int>
    decreases scopes.len(),
{
    if scopes.len() == 0 {
        None
    } else {
        match lookup_frame(scopes.last(), name) {
            Some(v) => Some(v),
            None => lookup_scopes(scopes.drop_last(), name),
        }
    }
}

/// The first top-level function named `name`, from index `i` on.
pub open spec fn lookup_func(funcs: Seq<FuncSymbolV>, name: Seq<char>, i: int) -> Option<int>
    decreases funcs.len() - i,
{
    if i < 0 || i >= funcs.len() {
        None
    } else if funcs[i].name == name {
        Some(i)
    } else {
        lookup_func(funcs, name, i + 1)
    }
}

/// The scope stack with its innermost frame removed (or unchanged when empty).
pub open spec fn pop_frame(s: Seq<Seq<(Seq<char>, int)>>) -> Seq<Seq<(Seq<char>, int)>> {
    if s.len() > 0 {
        s.drop_last()
    } else {
        s
    }
}

/// The state with one more diagnostic.
pub open spec fn push_err(st: ResolveStV, e: ResolveErrorV) -> ResolveStV {
    ResolveStV { table: st.table, scopes: st.scopes, errors: st.errors.push(e) }
}

/// The state with a fresh variable allocated in `block` and bound in the
/// innermost scope frame.
pub open spec fn bind_var(st: ResolveStV, block: int, name: Seq<char>, ty: int) -> ResolveStV {
    let vid = st.table.vars.len() as int;
    let table = SymbolTableV {
        types: st.table.types,
        funcs: st.table.funcs,
        blocks: st.table.blocks,
        vars: st.table.vars.push(VarSymbolV { block: block, name: name, ty: ty }),
    };
    let scopes = if st.scopes.len() == 0 {
        st.scopes
    } else {
        st.scopes.update(st.scopes.len() - 1, st.scopes.last().push((name, vid)))
    };
    ResolveStV { table: table, scopes: scopes, errors: st.errors }
}

/// Resolution of one expression: the successor state and, on success, the
/// model of the resolved node it becomes (which carries its type).
pub open spec fn res_expr(st: ResolveStV, e: ast::Expr) -> (ResolveStV, Option<ExprV>)
    decreases e, 0nat,
{
    match e {
        ast::Expr::Integer(l) => (
            st,
            Some(ExprV { kind: ExprKindV::Integer(l.item), ty: 1, loc: l.loc }),
        ),
        ast::Expr::Bool(l) => (
            st,
            Some(ExprV { kind: ExprKindV::Bool(l.item), ty: 2, loc: l.loc }),
        ),
        ast::Expr::Identifier(l) => match lookup_scopes(st.scopes, l.item@) {
            Some(v) => {
                let ty = if 0 <= v < st.table.vars.len() {
                    st.table.vars[v].ty
                } else {
                    0
                };
                (st, Some(ExprV { kind: ExprKindV::Identifier(v), ty: ty, loc: l.loc }))
            },
            None => (
                push_err(st, ResolveErrorV::UnresolvedIdentifier(l.item@, l.loc)),
                None,
            ),
        },
        ast::Expr::Unary(u) => {
            let (st1, inner) = res_expr(st, *u.expr);
            (st1, match inner {
                Some(re) => Some(
                    ExprV {
                        kind: ExprKindV::Unary(u.op.item, Box::new(re)),
                        ty: unary_ty(u.op.item),
                        loc: u.op.loc,
                    },
                ),
                None => None,
            })
        },
        ast::Expr::Binary(b) => {
            let (st1, lt) = res_expr(st, *b.left);
            let (st2, rt) = res_expr(st1, *b.right);
            (st2, match (lt, rt) {
                (Some(le), Some(re)) => Some(
                    ExprV {
                        kind: ExprKindV::Binary(b.op.item, Box::new(le), Box::new(re)),
                        ty: binary_ty(b.op.item),
                        loc: b.op.loc,
                    },
                ),
                _ => None,
            })
        },
        ast::Expr::Call(c) => match *c.callee {
            ast::Expr::Identifier(l) => match lookup_func(st.table.funcs, l.item@, 0) {
                Some(f) => {
                    let ret = if 0 <= f < st.table.funcs.len() {
                        st.table.funcs[f].ret_ty
                    } else {
                        0
                    };
                    let (st1, args) = res_args(st, c.args.items, 0);
                    (st1, match args {
                        Some(avs) => Some(
                            ExprV { kind: ExprKindV::Call(f, avs), ty: ret, loc: c.loc },
                        ),
                        None => None,
                    })
                },
                None => {
                    let st1 = push_err(st, ResolveErrorV::UnresolvedCall(l.item@, l.loc));
                    let (st2, _args) = res_args(st1, c.args.items, 0);
                    (st2, None)
                },
            },
            _ => (push_err(st, ResolveErrorV::UnsupportedExpr(c.loc)), None),
        },
        ast::Expr::Grouped(g) => res_expr(st, *g.expr),
        ast::Expr::Cast(ca) => {
            let (st1, inner) = res_expr(st, *ca.expr);
            (st1, match inner {
                Some(re) => Some(
                    ExprV { kind: re.kind, ty: ty_id(ca.ty.item), loc: re.loc },
                ),
                None => None,
            })
        },
        ast::Expr::Array(a) => (push_err(st, ResolveErrorV::UnsupportedExpr(a.loc)), None),
        ast::Expr::ArrayIndex(ai) => (push_err(st, ResolveErrorV::UnsupportedExpr(ai.loc)), None),
        ast::Expr::Block(b) => (push_err(st, ResolveErrorV::UnsupportedExpr(b.loc)), None),
        ast::Expr::If(i) => (push_err(st, ResolveErrorV::UnsupportedExpr(i.loc)), None),
        ast::Expr::Loop(l) => (push_err(st, ResolveErrorV::UnsupportedExpr(l.loc)), None),
        ast::Expr::Return(r) => (push_err(st, ResolveErrorV::UnsupportedExpr(r.loc)), None),
    }
}

/// Resolution of call arguments from index `i` on: the successor state and,
/// when every argument resolved, the models of the resolved arguments in order.
pub open spec fn res_args(st: ResolveStV, args: Vec<ast::Expr>, i: int) -> (
    ResolveStV,
    Option<Seq<ExprV>>,
)
    decreases args, args.len() - i, 1nat,
{
    if i < 0 || i >= args.len() {
        (st, Some(Seq::empty()))
    } else {
        let (st1, n) = res_expr(st, args[i]);
        let (st2, rest) = res_args(st1, args, i + 1);
        (st2, match (n, rest) {
            (Some(e0), Some(r0)) => Some(seq![e0] + r0),
            _ => None,
        })
    }
}

/// Resolution of one statement inside block `cb` of function `f`: the successor
/// state and, on success, the model of the resolved statement.
pub open spec fn res_stmt(st: ResolveStV, f: int, cb: int, s: ast::Stmt) -> (
    ResolveStV,
    Option<StmtV>,
)
    decreases s, 0nat,
{
    match s {
        ast::Stmt::Expr(e) => match e {
            ast::Expr::Block(b) => {
                let (st1, bv) = res_block(st, f, cb, b);
                (st1, Some(StmtV::Block(bv)))
            },
            ast::Expr::If(i) => res_if(st, f, cb, i),
            ast::Expr::Loop(l) => {
                let (st1, bv) = res_block(st, f, cb, l.body);
                (st1, Some(StmtV::Loop(bv)))
            },
            ast::Expr::Return(r) => match r.expr {
                Some(e0) => {
                    let (st1, n) = res_expr(st, *e0);
                    (st1, match n {
                        Some(re) => Some(StmtV::Return(Some(re))),
                        None => None,
                    })
                },
                None => (st, Some(StmtV::Return(None))),
            },
            other => {
                let (st1, n) = res_expr(st, other);
                (st1, match n {
                    Some(re) => Some(StmtV::Expr(re)),
                    None => None,
                })
            },
        },
        ast::Stmt::Let(l) => {
            let (st1, n) = res_expr(st, l.value);
            let ty = match l.ty {
                Some(t) => ty_id(t.item),
                None => match n {
                    Some(re) => re.ty,
                    None => 0,
                },
            };
            let vid = st1.table.vars.len() as int;
            (bind_var(st1, cb, l.name.item@, ty), match n {
                Some(re) => Some(
                    StmtV::Let(LetV { sym_id: vid, name: l.name.item@, ty: ty, value: re }),
                ),
                None => None,
            })
        },
        ast::Stmt::Assign(a) => {
            let (st1, tn) = res_expr(st, a.target);
            let (st2, vn) = res_expr(st1, a.value);
            (st2, match (tn, vn) {
                (Some(t0), Some(v0)) => Some(StmtV::Assign(t0, v0)),
                _ => None,
            })
        },
    }
}

/// Resolution of an `if` statement: condition, then-block, optional else-block.
pub open spec fn res_if(st: ResolveStV, f: int, cb: int, i: ast::IfExpr) -> (
    ResolveStV,
    Option<StmtV>,
)
    decreases i, 3nat,
{
    let (st1, cn) = res_expr(st, *i.cond);
    let (st2, bv) = res_block(st1, f, cb, i.body);
    let (st3, ev) = match i.else_ {
        Some(b) => {
            let (s0, b0) = res_block(st2, f, cb, b);
            (s0, Some(b0))
        },
        None => (st2, None),
    };
    (st3, match cn {
        Some(c0) => Some(StmtV::If(IfV { cond: c0, body: bv, else_body: ev })),
        None => None,
    })
}

/// Entering a nested block: allocate a fresh block whose parent is `parent`,
/// then resolve its contents in a fresh scope frame.
pub open spec fn res_block(st: ResolveStV, f: int, parent: int, b: ast::BlockExpr) -> (
    ResolveStV,
    BlockV,
)
    decreases b, 2nat,
{
    let bid = st.table.blocks.len() as int;
    let table = SymbolTableV {
        types: st.table.types,
        funcs: st.table.funcs,
        blocks: st.table.blocks.push(BlockSymbolV { func: f, parent_block: Some(parent) }),
        vars: st.table.vars,
    };
    res_block_in(ResolveStV { table: table, scopes: st.scopes, errors: st.errors }, f, bid, b)
}

/// Resolution of a block's contents into the already-allocated block `bid`:
/// push a scope frame, resolve the statements and the trailing expression,
/// pop the frame. Statements that failed leave diagnostics but no node.
pub open spec fn res_block_in(st: ResolveStV, f: int, bid: int, b: ast::BlockExpr) -> (
    ResolveStV,
    BlockV,
)
    decreases b, 1nat,
{
    let st1 = ResolveStV {
        table: st.table,
        scopes: st.scopes.push(Seq::empty()),
        errors: st.errors,
    };
    let (st2, stmts) = res_stmts(st1, f, bid, b.stmts, 0);
    let (st3, all) = match b.eval_expr {
        Some(e) => {
            let (s0, n) = res_expr(st2, *e);
            (s0, match n {
                Some(re) => stmts.push(StmtV::Expr(re)),
                None => stmts,
            })
        },
        None => (st2, stmts),
    };
    (
        ResolveStV { table: st3.table, scopes: pop_frame(st3.scopes), errors: st3.errors },
        BlockV { block_id: bid, stmts: all },
    )
}

/// Resolution of the statements of a block, from index `i` on: the successor
/// state and the models of the statements that resolved, in order.
pub open spec fn res_stmts(st: ResolveStV, f: int, cb: int, stmts: Vec<ast::Stmt>, i: int) -> (
    ResolveStV,
    Seq<StmtV>,
)
    decreases stmts, stmts.len() - i, 1nat,
{
    if i < 0 || i >= stmts.len() {
        (st, Seq::empty())
    } else {
        let (st1, n) = res_stmt(st, f, cb, stmts[i]);
        let (st2, rest) = res_stmts(st1, f, cb, stmts, i + 1);
        (st2, match n {
            Some(sv) => seq![sv] + rest,
            None => rest,
        })
    }
}

/// The scope frame that a function body starts with: its parameters, bound in
/// order to the variable ids phase one allocated.
pub open spec fn param_frame(t: SymbolTableV, fidx: int, params: Vec<ast::Param>) -> Seq<
    (Seq<char>, int),
> {
    let n = if 0 <= fidx < t.funcs.len() && t.funcs[fidx].params.len() <= params.len() {
        t.funcs[fidx].params.len() as int
    } else {
        0
    };
    Seq::new(n as nat, |j: int| (params[j].name.item@, t.funcs[fidx].params[j]))
}

/// Phase-two resolution of the item at index `idx`, whose function symbol is
/// the `idx`-th of the table: the successor state and the item's model.
pub open spec fn res_item(st: ResolveStV, idx: int, it: ast::Item) -> (ResolveStV, Option<ItemV>) {
    match it {
        ast::Item::Function(func) => {
            if 0 <= idx < st.table.funcs.len() {
                let frame = param_frame(st.table, idx, func.sig.params.items);
                let st1 = ResolveStV {
                    table: st.table,
                    scopes: st.scopes.push(frame),
                    errors: st.errors,
                };
                let (st2, bv) = res_block_in(st1, idx, st.table.funcs[idx].entry_block, func.body);
                (
                    ResolveStV { table: st2.table, scopes: pop_frame(st2.scopes), errors: st2.errors },
                    Some(ItemV::Function(idx, bv)),
                )
            } else {
                (st, None)
            }
        },
        ast::Item::ExternFunction(_) => (st, Some(ItemV::ExternFunction(idx))),
    }
}

/// Phase-two resolution of the items from index `i` on: the successor state and
/// the models of the items that resolved, in order.
pub open spec fn res_items(st: ResolveStV, items: Vec<ast::Item>, i: int) -> (ResolveStV, Seq<ItemV>)
    decreases items.len() - i,
{
    if i < 0 || i >= items.len() {
        (st, Seq::empty())
    } else {
        let (st1, n) = res_item(st, i, items[i]);
        let (st2, rest) = res_items(st1, items, i + 1);
        (st2, match n {
            Some(iv) => seq![iv] + rest,
            None => rest,
        })
    }
}

/// Phase-one registration of the parameters of one signature, from index `i` on.
pub open spec fn reg_params(t: SymbolTableV, params: Vec<ast::Param>, i: int, block: int) -> SymbolTableV
    decreases params, params.len() - i,
{
    if i < 0 || i >= params.len() {
        t
    } else {
        let t1 = SymbolTableV {
            types: t.types,
            funcs: t.funcs,
            blocks: t.blocks,
            vars: t.vars.push(
                VarSymbolV { block: block, name: params[i].name.item@, ty: ty_id(params[i].ty.item) },
            ),
        };
        reg_params(t1, params, i + 1, block)
    }
}

/// Phase-one registration of one signature: an entry block, one variable per
/// parameter, and the function symbol itself.
pub open spec fn reg_sig(t: SymbolTableV, sig: ast::FunctionSig) -> SymbolTableV {
    let bid = t.blocks.len() as int;
    let fid = t.funcs.len() as int;
    let vstart = t.vars.len() as int;
    let n = sig.params.items.len() as int;
    let t1 = SymbolTableV {
        types: t.types,
        funcs: t.funcs,
        blocks: t.blocks.push(BlockSymbolV { func: fid, parent_block: None }),
        vars: t.vars,
    };
    let t2 = reg_params(t1, sig.params.items, 0, bid);
    SymbolTableV {
        types: t2.types,
        funcs: t2.funcs.push(
            FuncSymbolV {
                name: sig.name.item@,
                params: Seq::new(n as nat, |j: int| vstart + j),
                ret_ty: ty_id(sig.ret_ty.item),
                entry_block: bid,
            },
        ),
        blocks: t2.blocks,
        vars: t2.vars,
    }
}

/// Phase-one registration of every item's signature, from index `i` on.
pub open spec fn reg_items(t: SymbolTableV, items: Vec<ast::Item>, i: int) -> SymbolTableV
    decreases items.len() - i,
{
    if i < 0 || i >= items.len() {
        t
    } else {
        let t1 = match items[i] {
            ast::Item::Function(f) => reg_sig(t, f.sig),
            ast::Item::ExternFunction(e) => reg_sig(t, e.sig),
        };
        reg_items(t1, items, i + 1)
    }
}

/// The table a fresh run starts from: only the primitive types.
pub open spec fn init_table() -> SymbolTableV {
    SymbolTableV {
        types: seq!["unit"@, "int"@, "bool"@],
        funcs: Seq::empty(),
        blocks: Seq::empty(),
        vars: Seq::empty(),
    }
}

/// What resolving a whole unit yields: the symbol table, the aggregated
/// diagnostics in order of discovery, and the models of the resolved items.
pub open spec fn resolve_spec(a: ast::AST) -> (SymbolTableV, Seq<ResolveErrorV>, Seq<ItemV>) {
    let t = reg_items(init_table(), a.items, 0);
    let (st, items) = res_items(
        ResolveStV { table: t, scopes: Seq::empty(), errors: Seq::empty() },
        a.items,
        0,
    );
    (st.table, st.errors, items)
}

/// Law: resolution is a function of the tree alone — resolving, then resolving
/// the unchanged tree again, yields the identical symbol table, and identical
/// tables are isomorphic (every id and every relationship coincides).
pub proof fn lemma_resolve_deterministic(a: ast::AST, t1: SymbolTableV, t2: SymbolTableV)
    requires
        t1 == resolve_spec(a).0,
        t2 == resolve_spec(a).0,
    ensures
        t1 == t2,
{
}

/// The model of one scope frame.
pub open spec fn frame_view(f: Vec<(String, VarId)>) -> Seq<(Seq<char>, int)> {
    f@.map_values(|p: (String, VarId)| (p.0@, p.1.0 as int))
}

/// The model of the scope stack.
pub open spec fn scopes_view(s: Vec<Vec<(String, VarId)>>) -> Seq<Seq<(Seq<char>, int)>> {
    s@.map_values(|f: Vec<(String, VarId)>| frame_view(f))
}

/// The resolver's working state: the table being built, the scope frames, and
/// the diagnostics collected so far.
pub struct ResolveContext {
    pub table: SymbolTable,
    pub scopes: Vec<Vec<(String, VarId)>>,
    pub errors: Vec<ResolveError>,
}

impl View for ResolveContext {
    type V = ResolveStV;

    open spec fn view(&self) -> ResolveStV {
        ResolveStV {
            table: self.table@,
            scopes: scopes_view(self.scopes),
            errors: self.errors@.map_values(|e: ResolveError| e@),
        }
    }
}

impl ResolveContext {
    /// The dense-id invariant of the underlying table.
    pub open spec fn wf(&self) -> bool {
        self.table.ids_dense()
    }
}

/// Map a source-level type name to its type id.
fn ty_of_x(t: Type) -> (r: TypeId)
    ensures
        r.0 as int == ty_id(t),
{
    match t {
        Type::Unit => TypeId(0),
        Type::Int => TypeId(1),
        Type::Bool => TypeId(2),
    }
}

/// Look a name up in one scope frame, newest binding first.
fn lookup_frame_x(frame: &Vec<(String, VarId)>, name: &String) -> (r: Option<VarId>)
    ensures
        match r {
            Some(v) => lookup_frame(frame_view(*frame), name@) == Some(v.0 as int),
            None => lookup_frame(frame_view(*frame), name@) is None,
        },
{
    let ghost fv = frame_view(*frame);
    let mut j: usize = frame.len();
    assert(fv.subrange(0, j as int) =~= fv);
    while j > 0
        invariant
            j <= frame@.len(),
            fv == frame_view(*frame),
            fv.len() == frame@.len(),
            lookup_frame(fv, name@) == lookup_frame(fv.subrange(0, j as int), name@),
        decreases j,
    {
        if frame[j - 1].0 == *name {
            return Some(frame[j - 1].1);
        }
        proof {
            assert(fv.subrange(0, j as int).drop_last() =~= fv.subrange(0, j as int - 1));
        }
        j = j - 1;
    }
    None
}

/// Look a name up through the scope frames, innermost first.
fn lookup_scopes_x(scopes: &Vec<Vec<(String, VarId)>>, name: &String) -> (r: Option<VarId>)
    ensures
        match r {
            Some(v) => lookup_scopes(scopes_view(*scopes), name@) == Some(v.0 as int),
            None => lookup_scopes(scopes_view(*scopes), name@) is None,
        },
{
    let ghost sv = scopes_view(*scopes);
    let mut j: usize = scopes.len();
    assert(sv.subrange(0, j as int) =~= sv);
    while j > 0
        invariant
            j <= scopes@.len(),
            sv == scopes_view(*scopes),
            sv.len() == scopes@.len(),
            lookup_scopes(sv, name@) == lookup_scopes(sv.subrange(0, j as int), name@),
        decreases j,
    {
        match lookup_frame_x(&scopes[j - 1], name) {
            Some(v) => {
                return Some(v);
            },
            None => {},
        }
        proof {
            assert(sv.subrange(0, j as int).drop_last() =~= sv.subrange(0, j as int - 1));
        }
        j = j - 1;
    }
    None
}

/// Find the first top-level function with the given name.
pub(crate) fn lookup_func_x(funcs: &Vec<crate::symbol::FuncSymbol>, name: &String) -> (r: Option<usize>)
    ensures
        match r {
            Some(f) => lookup_func(
                funcs@.map_values(|f2: crate::symbol::FuncSymbol| f2@),
                name@,
                0,
            ) == Some(f as int) && f < funcs@.len(),
            None => lookup_func(
                funcs@.map_values(|f2: crate::symbol::FuncSymbol| f2@),
                name@,
                0,
            ) is None,
        },
{
    let ghost fv = funcs@.map_values(|f2: crate::symbol::FuncSymbol| f2@);
    let mut i: usize = 0;
    while i < funcs.len()
        invariant
            i <= funcs@.len(),
            fv == funcs@.map_values(|f2: crate::symbol::FuncSymbol| f2@),
            fv.len() == funcs@.len(),
            lookup_func(fv, name@, 0) == lookup_func(fv, name@, i as int),
        decreases funcs@.len() - i,
    {
        if funcs[i].name == *name {
            return Some(i);
        }
        i = i + 1;
    }
    None
}

impl ResolveContext {
    /// Record one diagnostic.
    fn push_err_x(&mut self, e: ResolveError)
        requires
            old(self).wf(),
        ensures
            final(self).wf(),
            final(self)@ == push_err(old(self)@, e@),
    {
        let ghost ev = e@;
        self.errors.push(e);
        assert(self.errors@.map_values(|x: ResolveError| x@) =~= old(
            self,
        ).errors@.map_values(|x: ResolveError| x@).push(ev));
        assert(self@ =~= push_err(old(self)@, ev));
    }

    /// Allocate a fresh variable in `block` and bind it in the innermost frame.
    fn bind_var_x(&mut self, block: BlockId, name: &String, ty: TypeId) -> (r: VarId)
        requires
            old(self).wf(),
        ensures
            final(self).wf(),
            final(self)@ == bind_var(old(self)@, block.0 as int, name@, ty.0 as int),
            r.0 as int == old(self)@.table.vars.len(),
    {
        proof {
            assert(old(self).table.vars.len() == old(self).table.vars@.len());
        }
        let vid = self.table.add_var(block, name.clone(), ty);
        if self.scopes.len() > 0 {
            let mut fr = self.scopes.pop().unwrap();
            fr.push((name.clone(), vid));
            self.scopes.push(fr);
            proof {
                let ov = old(self)@;
                assert(frame_view(fr) =~= ov.scopes.last().push((name@, vid.0 as int)));
                assert(scopes_view(self.scopes) =~= ov.scopes.update(
                    ov.scopes.len() - 1,
                    ov.scopes.last().push((name@, vid.0 as int)),
                ));
                assert(self@ =~~= bind_var(ov, block.0 as int, name@, ty.0 as int));
            }
        } else {
            proof {
                assert(self@ =~~= bind_var(old(self)@, block.0 as int, name@, ty.0 as int));
            }
        }
        vid
    }
}

/// Resolve one expression, collecting diagnostics; `None` means it failed.
pub fn res_expr_x(ctx: &mut ResolveContext, e: &ast::Expr) -> (r: Option<resolved::Expr>)
    requires
        old(ctx).wf(),
    ensures
        final(ctx).wf(),
        final(ctx)@ == res_expr(old(ctx)@, *e).0,
        match r {
            Some(re) => res_expr(old(ctx)@, *e).1 == Some(expr_view(re)),
            None => res_expr(old(ctx)@, *e).1 is None,
        },
    decreases *e, 0nat,
{
    match e {
        ast::Expr::Integer(l) => Some(
            resolved::Expr { kind: resolved::ExprKind::Integer(l.item), ty: TypeId(1), loc: l.loc },
        ),
        ast::Expr::Bool(l) => Some(
            resolved::Expr { kind: resolved::ExprKind::Bool(l.item), ty: TypeId(2), loc: l.loc },
        ),
        ast::Expr::Identifier(l) => match lookup_scopes_x(&ctx.scopes, &l.item) {
            Some(vid) => {
                let t = if vid.0 < ctx.table.vars.len() {
                    ctx.table.vars[vid.0].ty
                } else {
                    TypeId(0)
                };
                Some(
                    resolved::Expr {
                        kind: resolved::ExprKind::Identifier(resolved::IdentExpr { sym_id: vid }),
                        ty: t,
                        loc: l.loc,
                    },
                )
            },
            None => {
                ctx.push_err_x(
                    ResolveError::UnresolvedIdentifier(Located { item: l.item.clone(), loc: l.loc }),
                );
                None
            },
        },
        ast::Expr::Unary(u) => {
            let inner = res_expr_x(ctx, &u.expr);
            match inner {
                Some(re) => {
                    let t = match u.op.item {
                        Operator::Not => TypeId(2),
                        _ => TypeId(1),
                    };
                    Some(
                        resolved::Expr {
                            kind: resolved::ExprKind::Unary(
                                resolved::UnaryExpr { op: u.op.item, expr: Box::new(re) },
                            ),
                            ty: t,
                            loc: u.op.loc,
                        },
                    )
                },
                None => None,
            }
        },
        ast::Expr::Binary(b) => {
            let left = res_expr_x(ctx, &b.left);
            let right = res_expr_x(ctx, &b.right);
            match (left, right) {
                (Some(le), Some(re)) => {
                    let t = match b.op.item {
                        Operator::Add => TypeId(1),
                        Operator::Sub => TypeId(1),
                        _ => TypeId(2),
                    };
                    Some(
                        resolved::Expr {
                            kind: resolved::ExprKind::Binary(
                                resolved::BinaryExpr {
                                    op: b.op.item,
                                    left: Box::new(le),
                                    right: Box::new(re),
                                },
                            ),
                            ty: t,
                            loc: b.op.loc,
                        },
                    )
                },
                _ => None,
            }
        },
        ast::Expr::Call(c) => match &*c.callee {
            ast::Expr::Identifier(l) => match lookup_func_x(&ctx.table.funcs, &l.item) {
                Some(fi) => {
                    let ret = if fi < ctx.table.funcs.len() {
                        ctx.table.funcs[fi].ret_ty
                    } else {
                        TypeId(0)
                    };
                    match res_args_x(ctx, &c.args.items, 0) {
                        Some(v) => Some(
                            resolved::Expr {
                                kind: resolved::ExprKind::Call(
                                    resolved::CallExpr { callee: FuncId(fi), args: v },
                                ),
                                ty: ret,
                                loc: c.loc,
                            },
                        ),
                        None => None,
                    }
                },
                None => {
                    ctx.push_err_x(
                        ResolveError::UnresolvedCall(Located { item: l.item.clone(), loc: l.loc }),
                    );
                    let _unused = res_args_x(ctx, &c.args.items, 0);
                    None
                },
            },
            _ => {
                ctx.push_err_x(ResolveError::UnsupportedExpr(c.loc));
                None
            },
        },
        ast::Expr::Grouped(g) => res_expr_x(ctx, &g.expr),
        ast::Expr::Cast(ca) => {
            let inner = res_expr_x(ctx, &ca.expr);
            match inner {
                Some(re) => {
                    let t = ty_of_x(ca.ty.item);
                    Some(resolved::Expr { kind: re.kind, ty: t, loc: re.loc })
                },
                None => None,
            }
        },
        ast::Expr::Array(a) => {
            ctx.push_err_x(ResolveError::UnsupportedExpr(a.loc));
            None
        },
        ast::Expr::ArrayIndex(ai) => {
            ctx.push_err_x(ResolveError::UnsupportedExpr(ai.loc));
            None
        },
        ast::Expr::Block(b) => {
            ctx.push_err_x(ResolveError::UnsupportedExpr(b.loc));
            None
        },
        ast::Expr::If(i) => {
            ctx.push_err_x(ResolveError::UnsupportedExpr(i.loc));
            None
        },
        ast::Expr::Loop(l) => {
            ctx.push_err_x(ResolveError::UnsupportedExpr(l.loc));
            None
        },
        ast::Expr::Return(r0) => {
            ctx.push_err_x(ResolveError::UnsupportedExpr(r0.loc));
            None
        },
    }
}

/// Resolve the arguments of a call from index `i` on; `None` when any failed.
pub fn res_args_x(ctx: &mut ResolveContext, args: &Vec<ast::Expr>, i: usize) -> (r: Option<
    Vec<resolved::Expr>,
>)
    requires
        old(ctx).wf(),
    ensures
        final(ctx).wf(),
        final(ctx)@ == res_args(old(ctx)@, *args, i as int).0,
        match r {
            Some(v) => res_args(old(ctx)@, *args, i as int).1 == Some(
                crate::resolved::args_view(v, 0),
            ),
            None => res_args(old(ctx)@, *args, i as int).1 is None,
        },
    decreases *args, args.len() - i, 1nat,
{
    if i >= args.len() {
        let v: Vec<resolved::Expr> = Vec::new();
        assert(crate::resolved::args_view(v, 0) =~= Seq::<ExprV>::empty());
        Some(v)
    } else {
        let first = res_expr_x(ctx, &args[i]);
        let rest = res_args_x(ctx, args, i + 1);
        match (first, rest) {
            (Some(e0), Some(mut v)) => {
                let ghost v0 = v;
                let ghost e0v = expr_view(e0);
                v.insert(0, e0);
                proof {
                    assert(v@ =~= seq![e0] + v0@);
                    crate::resolved::lemma_args_view_cons(v0, v, e0);
                }
                Some(v)
            },
            _ => None,
        }
    }
}

/// Resolve one statement inside block `cb` of function `f`; `None` means some
/// part of it failed (its diagnostics are recorded).
pub fn res_stmt_x(ctx: &mut ResolveContext, f: FuncId, cb: BlockId, s: &ast::Stmt) -> (r: Option<
    resolved::Stmt,
>)
    requires
        old(ctx).wf(),
    ensures
        final(ctx).wf(),
        final(ctx)@ == res_stmt(old(ctx)@, f.0 as int, cb.0 as int, *s).0,
        match r {
            Some(sv) => res_stmt(old(ctx)@, f.0 as int, cb.0 as int, *s).1 == Some(stmt_view(sv)),
            None => res_stmt(old(ctx)@, f.0 as int, cb.0 as int, *s).1 is None,
        },
    decreases *s, 0nat,
{
    match s {
        ast::Stmt::Expr(e) => match e {
            ast::Expr::Block(b) => {
                let blk = res_block_x(ctx, f, cb, b);
                Some(resolved::Stmt::Block(blk))
            },
            ast::Expr::If(i) => res_if_x(ctx, f, cb, i),
            ast::Expr::Loop(l) => {
                let body = res_block_x(ctx, f, cb, &l.body);
                Some(resolved::Stmt::Loop(resolved::LoopStmt { body }))
            },
            ast::Expr::Return(r0) => match &r0.expr {
                Some(e0) => match res_expr_x(ctx, &**e0) {
                    Some(re) => Some(resolved::Stmt::Return(resolved::ReturnStmt { expr: Some(re) })),
                    None => None,
                },
                None => Some(resolved::Stmt::Return(resolved::ReturnStmt { expr: None })),
            },
            other => match res_expr_x(ctx, other) {
                Some(re) => Some(resolved::Stmt::Expr(resolved::ExprStmt { expr: re })),
                None => None,
            },
        },
        ast::Stmt::Let(l) => {
            let value = res_expr_x(ctx, &l.value);
            let ty = match &l.ty {
                Some(t) => ty_of_x(t.item),
                None => match &value {
                    Some(re) => re.ty,
                    None => TypeId(0),
                },
            };
            let vid = ctx.bind_var_x(cb, &l.name.item, ty);
            match value {
                Some(v) => Some(
                    resolved::Stmt::Let(
                        resolved::LetStmt {
                            sym_id: vid,
                            name: Located { item: l.name.item.clone(), loc: l.name.loc },
                            ty,
                            value: v,
                        },
                    ),
                ),
                None => None,
            }
        },
        ast::Stmt::Assign(a) => {
            let target = res_expr_x(ctx, &a.target);
            let value = res_expr_x(ctx, &a.value);
            match (target, value) {
                (Some(t), Some(v)) => Some(
                    resolved::Stmt::Assign(resolved::AssignStmt { target: t, value: v }),
                ),
                _ => None,
            }
        },
    }
}

/// Resolve an `if` statement: its condition, its then-block, its else-block.
pub fn res_if_x(ctx: &mut ResolveContext, f: FuncId, cb: BlockId, i: &ast::IfExpr) -> (r: Option<
    resolved::Stmt,
>)
    requires
        old(ctx).wf(),
    ensures
        final(ctx).wf(),
        final(ctx)@ == res_if(old(ctx)@, f.0 as int, cb.0 as int, *i).0,
        match r {
            Some(sv) => res_if(old(ctx)@, f.0 as int, cb.0 as int, *i).1 == Some(stmt_view(sv)),
            None => res_if(old(ctx)@, f.0 as int, cb.0 as int, *i).1 is None,
        },
    decreases *i, 3nat,
{
    let cond = res_expr_x(ctx, &i.cond);
    let body = res_block_x(ctx, f, cb, &i.body);
    let else_body = match &i.else_ {
        Some(b) => Some(res_block_x(ctx, f, cb, b)),
        None => None,
    };
    match cond {
        Some(c) => Some(resolved::Stmt::If(resolved::IfStmt { cond: c, body, else_body })),
        None => None,
    }
}

/// Enter a nested block: allocate its fresh block symbol, then resolve its
/// contents.
pub fn res_block_x(ctx: &mut ResolveContext, f: FuncId, parent: BlockId, b: &ast::BlockExpr) -> (r:
    resolved::Block)
    requires
        old(ctx).wf(),
    ensures
        final(ctx).wf(),
        final(ctx)@ == res_block(old(ctx)@, f.0 as int, parent.0 as int, *b).0,
        block_view(r) == res_block(old(ctx)@, f.0 as int, parent.0 as int, *b).1,
    decreases *b, 2nat,
{
    proof {
        assert(ctx.table.blocks.len() == ctx.table.blocks@.len());
    }
    let bid = ctx.table.add_block(f, Some(parent));
    res_block_in_x(ctx, f, bid, b)
}

/// Resolve a block's contents into the already-allocated block `bid`.
pub fn res_block_in_x(ctx: &mut ResolveContext, f: FuncId, bid: BlockId, b: &ast::BlockExpr) -> (r:
    resolved::Block)
    requires
        old(ctx).wf(),
    ensures
        final(ctx).wf(),
        final(ctx)@ == res_block_in(old(ctx)@, f.0 as int, bid.0 as int, *b).0,
        block_view(r) == res_block_in(old(ctx)@, f.0 as int, bid.0 as int, *b).1,
        r.block_id == bid,
    decreases *b, 1nat,
{
    ctx.scopes.push(Vec::new());
    proof {
        assert(frame_view(ctx.scopes@.last()) =~= Seq::<(Seq<char>, int)>::empty());
        assert(scopes_view(ctx.scopes) =~= old(ctx)@.scopes.push(Seq::empty()));
        assert(ctx@ =~~= (ResolveStV {
            table: old(ctx)@.table,
            scopes: old(ctx)@.scopes.push(Seq::empty()),
            errors: old(ctx)@.errors,
        }));
    }
    let ghost st1 = ctx@;
    let ghost full = res_stmts(st1, f.0 as int, bid.0 as int, b.stmts, 0);
    let mut out: Vec<resolved::Stmt> = Vec::new();
    let n = b.stmts.len();
    let mut i: usize = 0;
    while i < n
        invariant
            ctx.wf(),
            i <= n,
            n == b.stmts@.len(),
            full == res_stmts(st1, f.0 as int, bid.0 as int, b.stmts, 0),
            full.0 == res_stmts(ctx@, f.0 as int, bid.0 as int, b.stmts, i as int).0,
            full.1 == crate::resolved::stmts_view(out, 0) + res_stmts(
                ctx@,
                f.0 as int,
                bid.0 as int,
                b.stmts,
                i as int,
            ).1,
        decreases n - i,
    {
        let ghost pre = ctx@;
        let ghost out0 = out;
        match res_stmt_x(ctx, f, bid, &b.stmts[i]) {
            Some(st) => {
                out.push(st);
                proof {
                    crate::resolved::lemma_stmts_view_push(out0, out, st);
                    assert(crate::resolved::stmts_view(out, 0) + res_stmts(
                        ctx@,
                        f.0 as int,
                        bid.0 as int,
                        b.stmts,
                        i + 1,
                    ).1 =~= crate::resolved::stmts_view(out0, 0) + (seq![stmt_view(st)]
                        + res_stmts(ctx@, f.0 as int, bid.0 as int, b.stmts, i + 1).1));
                }
            },
            None => {},
        }
        i = i + 1;
    }
    assert(ctx@ == full.0);
    let ghost tail = res_stmts(ctx@, f.0 as int, bid.0 as int, b.stmts, n as int).1;
    assert(tail =~= Seq::<StmtV>::empty());
    assert(full.1 =~= crate::resolved::stmts_view(out, 0)) by {
        assert(crate::resolved::stmts_view(out, 0) + tail =~= crate::resolved::stmts_view(out, 0));
    }
    match &b.eval_expr {
        Some(e) => {
            let ghost out1 = out;
            match res_expr_x(ctx, &**e) {
                Some(re) => {
                    let st = resolved::Stmt::Expr(resolved::ExprStmt { expr: re });
                    let ghost out0 = out;
                    out.push(st);
                    proof {
                        crate::resolved::lemma_stmts_view_push(out0, out, st);
                    }
                },
                None => {},
            }
        },
        None => {},
    }
    let ghost st3 = ctx@;
    if ctx.scopes.len() > 0 {
        ctx.scopes.pop();
    }
    let r = resolved::Block { block_id: bid, stmts: out };
    proof {
        assert(scopes_view(ctx.scopes) =~= pop_frame(st3.scopes));
        assert(ctx@ =~~= res_block_in(old(ctx)@, f.0 as int, bid.0 as int, *b).0);
        assert(block_view(r) =~~= res_block_in(old(ctx)@, f.0 as int, bid.0 as int, *b).1);
    }
    r
}

/// Phase-two resolution of the item at index `idx`.
pub fn res_item_x(ctx: &mut ResolveContext, idx: usize, it: &ast::Item) -> (r: Option<
    resolved::Item,
>)
    requires
        old(ctx).wf(),
    ensures
        final(ctx).wf(),
        final(ctx)@ == res_item(old(ctx)@, idx as int, *it).0,
        match r {
            Some(iv) => res_item(old(ctx)@, idx as int, *it).1 == Some(item_view(iv)),
            None => res_item(old(ctx)@, idx as int, *it).1 is None,
        },
{
    match it {
        ast::Item::ExternFunction(_) => Some(
            resolved::Item::ExternFunction(
                resolved::ExternFunction(resolved::FunctionSig { func_id: FuncId(idx) }),
            ),
        ),
        ast::Item::Function(func) => {
            if idx >= ctx.table.funcs.len() {
                return None;
            }
            let fp_len = ctx.table.funcs[idx].params.len();
            let raw_len = func.sig.params.items.len();
            let n = if fp_len <= raw_len {
                fp_len
            } else {
                0
            };
            let mut frame: Vec<(String, VarId)> = Vec::new();
            let mut j: usize = 0;
            while j < n
        invariant
                    old(ctx) == ctx,
                    ctx.wf(),
                    j <= n,
                    idx < ctx.table.funcs@.len(),
                    n <= ctx.table.funcs@[idx as int].params@.len(),
                    n <= func.sig.params.items@.len(),
                    frame@.len() == j,
                    forall|k: int|
                        0 <= k < j ==> #[trigger] frame@[k] == (
                            func.sig.params.items@[k].name.item,
                            ctx.table.funcs@[idx as int].params@[k],
                        ),
                decreases n - j,
            {
                let pname = func.sig.params.items[j].name.item.clone();
                let vid = ctx.table.funcs[idx].params[j];
                frame.push((pname, vid));
                j = j + 1;
            }
            proof {
                assert(ctx.table.funcs.len() == ctx.table.funcs@.len());
                assert(ctx.table.funcs@[idx as int].params.len() == ctx.table.funcs@[idx as int].params@.len());
                assert(frame_view(frame) =~= param_frame(
                    ctx@.table,
                    idx as int,
                    func.sig.params.items,
                ));
            }
            ctx.scopes.push(frame);
            let ghost ov = old(ctx)@;
            proof {
                assert(ctx@ =~~= (ResolveStV {
                    table: ov.table,
                    scopes: ov.scopes.push(param_frame(ov.table, idx as int, func.sig.params.items)),
                    errors: ov.errors,
                }));
            }
            let entry = ctx.table.funcs[idx].entry_block;
            let body = res_block_in_x(ctx, FuncId(idx), entry, &func.body);
            let ghost st2 = ctx@;
            if ctx.scopes.len() > 0 {
                ctx.scopes.pop();
            }
            proof {
                assert(scopes_view(ctx.scopes) =~= pop_frame(st2.scopes));
                assert(ctx@ =~~= res_item(ov, idx as int, *it).0);
            }
            Some(
                resolved::Item::Function(
                    resolved::Function {
                        sig: resolved::FunctionSig { func_id: FuncId(idx) },
                        body,
                    },
                ),
            )
        },
    }
}

/// Phase-one registration of one signature.
fn reg_sig_x(table: &mut SymbolTable, sig: &ast::FunctionSig)
    requires
        old(table).ids_dense(),
    ensures
        final(table).ids_dense(),
        final(table)@ == reg_sig(old(table)@, *sig),
{
    proof {
        assert(table.funcs.len() == table.funcs@.len());
        assert(table.blocks.len() == table.blocks@.len());
        assert(table.vars.len() == table.vars@.len());
    }
    let fid = FuncId(table.funcs.len());
    let bid = table.add_block(fid, None);
    let ghost t1 = table@;
    let ghost vstart = table@.vars.len() as int;
    let params = &sig.params.items;
    let mut vids: Vec<VarId> = Vec::new();
    let mut j: usize = 0;
    while j < params.len()
        invariant
            table.ids_dense(),
            j <= params@.len(),
            table@.funcs == t1.funcs,
            table@.blocks == t1.blocks,
            table@.types == t1.types,
            table@.vars.len() == vstart + j,
            reg_params(t1, *params, 0, bid.0 as int) == reg_params(
                table@,
                *params,
                j as int,
                bid.0 as int,
            ),
            vids@.len() == j,
            forall|k: int| 0 <= k < j ==> (#[trigger] vids@[k]).0 as int == vstart + k,
        decreases params@.len() - j,
    {
        proof {
            assert(table.vars.len() == table.vars@.len());
        }
        let vid = table.add_var(bid, params[j].name.item.clone(), ty_of_x(params[j].ty.item));
        vids.push(vid);
        j = j + 1;
    }
    let ghost t2 = reg_params(t1, *params, 0, bid.0 as int);
    assert(table@ == t2);
    proof {
        assert(vids@.map_values(|v: VarId| v.0 as int) =~= Seq::new(
            params@.len() as nat,
            |k: int| vstart + k,
        ));
    }
    let _fid2 = table.add_func(sig.name.item.clone(), vids, ty_of_x(sig.ret_ty.item), bid);
    proof {
        assert(table@ =~~= reg_sig(old(table)@, *sig));
    }
}

/// Resolve one compilation unit: register every signature, then resolve every
/// body, and return either the resolved tree with its symbol table or every
/// diagnostic collected, in order.
pub fn resolve(a: &ast::AST) -> (r: Result<(resolved::ResolvedAST, SymbolTable), Vec<ResolveError>>)
    ensures
        match r {
            Ok((rast, table)) => table@ == resolve_spec(*a).0 && resolve_spec(*a).1.len() == 0
                && ast_view(rast) == resolve_spec(*a).2,
            Err(errs) => errs@.map_values(|e: ResolveError| e@) == resolve_spec(*a).1 && errs@.len()
                > 0,
        },
{
    let mut table = SymbolTable::new();
    assert(table@ =~~= init_table());
    let n = a.items.len();
    let mut i: usize = 0;
    while i < n
        invariant
            table.ids_dense(),
            i <= n,
            n == a.items@.len(),
            reg_items(init_table(), a.items, 0) == reg_items(table@, a.items, i as int),
        decreases n - i,
    {
        match &a.items[i] {
            ast::Item::Function(f) => {
                reg_sig_x(&mut table, &f.sig);
            },
            ast::Item::ExternFunction(e) => {
                reg_sig_x(&mut table, &e.sig);
            },
        }
        i = i + 1;
    }
    let mut ctx = ResolveContext { table, scopes: Vec::new(), errors: Vec::new() };
    proof {
        assert(ctx@ =~~= (ResolveStV {
            table: reg_items(init_table(), a.items, 0),
            scopes: Seq::empty(),
            errors: Seq::empty(),
        }));
    }
    let ghost st0 = ctx@;
    let ghost full = res_items(st0, a.items, 0);
    let mut items: Vec<resolved::Item> = Vec::new();
    let mut k: usize = 0;
    while k < n
        invariant
            ctx.wf(),
            k <= n,
            n == a.items@.len(),
            full == res_items(st0, a.items, 0),
            full.0 == res_items(ctx@, a.items, k as int).0,
            full.1 == items_view(items, 0) + res_items(ctx@, a.items, k as int).1,
        decreases n - k,
    {
        let ghost items0 = items;
        match res_item_x(&mut ctx, k, &a.items[k]) {
            Some(it) => {
                items.push(it);
                proof {
                    crate::resolved::lemma_items_view_push(items0, items, it);
                    assert(items_view(items, 0) + res_items(ctx@, a.items, k + 1).1
                        =~= items_view(items0, 0) + (seq![item_view(it)] + res_items(
                        ctx@,
                        a.items,
                        k + 1,
                    ).1));
                }
            },
            None => {},
        }
        k = k + 1;
    }
    assert(ctx@ == full.0);
    proof {
        let tail = res_items(ctx@, a.items, n as int).1;
        assert(tail =~= Seq::<ItemV>::empty());
        assert(items_view(items, 0) + tail =~= items_view(items, 0));
        assert(ast_view(resolved::ResolvedAST { items }) == items_view(items, 0));
    }
    if ctx.errors.len() == 0 {
        proof {
            assert(ctx.errors@.map_values(|e: ResolveError| e@) =~= resolve_spec(*a).1);
        }
        Ok((resolved::ResolvedAST { items }, ctx.table))
    } else {
        proof {
            assert(ctx.errors@.map_values(|e: ResolveError| e@) =~= resolve_spec(*a).1);
        }
        Err(ctx.errors)
    }
}

/// A table as the resolver keeps it: well-formed, with exactly the three
/// primitive types registered.
pub open spec fn table_ok(t: SymbolTableV) -> bool {
    crate::symbol::table_wf(t) && t.types.len() == 3
}

/// Expression resolution never touches the table, and a resolved type is
/// always one of the registered ones.
proof fn lemma_res_expr_table(st: ResolveStV, e: ast::Expr)
    ensures
        res_expr(st, e).0.table == st.table,
        table_ok(st.table) ==> match res_expr(st, e).1 {
            Some(ev) => 0 <= ev.ty < 3,
            None => true,
        },
    decreases e, 0nat,
{
    match e {
        ast::Expr::Identifier(l) => {
            if table_ok(st.table) {
                match lookup_scopes(st.scopes, l.item@) {
                    Some(v) => {
                        if 0 <= v < st.table.vars.len() {
                            assert(0 <= st.table.vars[v].block < st.table.blocks.len());
                            assert(0 <= st.table.vars[v].ty < st.table.types.len());
                        }
                    },
                    None => {},
                }
            }
        },
        ast::Expr::Unary(u) => {
            lemma_res_expr_table(st, *u.expr);
        },
        ast::Expr::Binary(b) => {
            lemma_res_expr_table(st, *b.left);
            lemma_res_expr_table(res_expr(st, *b.left).0, *b.right);
        },
        ast::Expr::Call(c) => match *c.callee {
            ast::Expr::Identifier(l) => {
                lemma_res_args_table(st, c.args.items, 0);
                lemma_res_args_table(
                    push_err(st, ResolveErrorV::UnresolvedCall(l.item@, l.loc)),
                    c.args.items,
                    0,
                );
                match lookup_func(st.table.funcs, l.item@, 0) {
                    Some(f) => {
                        lemma_lookup_func_in_range(st.table.funcs, l.item@, 0);
                        if table_ok(st.table) && 0 <= f < st.table.funcs.len() {
                            assert(0 <= st.table.funcs[f].ret_ty < st.table.types.len());
                            assert(0 <= st.table.funcs[f].entry_block < st.table.blocks.len());
                        }
                    },
                    None => {},
                }
            },
            _ => {},
        },
        ast::Expr::Grouped(g) => {
            lemma_res_expr_table(st, *g.expr);
        },
        ast::Expr::Cast(ca) => {
            lemma_res_expr_table(st, *ca.expr);
        },
        _ => {},
    }
}

/// A found function index lies inside the function arena.
proof fn lemma_lookup_func_in_range(funcs: Seq<FuncSymbolV>, name: Seq<char>, i: int)
    requires
        0 <= i,
    ensures
        match lookup_func(funcs, name, i) {
            Some(f) => i <= f < funcs.len(),
            None => true,
        },
    decreases funcs.len() - i,
{
    if i < funcs.len() && !(funcs[i].name == name) {
        lemma_lookup_func_in_range(funcs, name, i + 1);
    }
}

proof fn lemma_res_args_table(st: ResolveStV, args: Vec<ast::Expr>, i: int)
    ensures
        res_args(st, args, i).0.table == st.table,
    decreases args, args.len() - i, 1nat,
{
    if 0 <= i < args.len() {
        lemma_res_expr_table(st, args[i]);
        lemma_res_args_table(res_expr(st, args[i]).0, args, i + 1);
    }
}

/// Statement resolution keeps the table well-formed: types and functions are
/// untouched, and blocks and variables only grow with valid references.
proof fn lemma_res_stmt_wf(st: ResolveStV, f: int, cb: int, s: ast::Stmt)
    requires
        table_ok(st.table),
        0 <= f < st.table.funcs.len(),
        0 <= cb < st.table.blocks.len(),
    ensures
        table_ok(res_stmt(st, f, cb, s).0.table),
        res_stmt(st, f, cb, s).0.table.funcs == st.table.funcs,
        res_stmt(st, f, cb, s).0.table.types == st.table.types,
        st.table.blocks.len() <= res_stmt(st, f, cb, s).0.table.blocks.len(),
    decreases s, 0nat,
{
    match s {
        ast::Stmt::Expr(e) => match e {
            ast::Expr::Block(b) => {
                lemma_res_block_wf(st, f, cb, b);
            },
            ast::Expr::If(i) => {
                lemma_res_if_wf(st, f, cb, i);
            },
            ast::Expr::Loop(l) => {
                lemma_res_block_wf(st, f, cb, l.body);
            },
            ast::Expr::Return(r) => match r.expr {
                Some(e0) => {
                    lemma_res_expr_table(st, *e0);
                },
                None => {},
            },
            other => {
                lemma_res_expr_table(st, other);
            },
        },
        ast::Stmt::Let(l) => {
            lemma_res_expr_table(st, l.value);
            let st1 = res_expr(st, l.value).0;
            let vt = res_expr(st, l.value).1;
            let ty = match l.ty {
                Some(t) => ty_id(t.item),
                None => match vt {
                    Some(re) => re.ty,
                    None => 0,
                },
            };
            assert(0 <= ty < 3);
            assert(table_ok(bind_var(st1, cb, l.name.item@, ty).table));
        },
        ast::Stmt::Assign(a) => {
            lemma_res_expr_table(st, a.target);
            lemma_res_expr_table(res_expr(st, a.target).0, a.value);
        },
    }
}

proof fn lemma_res_if_wf(st: ResolveStV, f: int, cb: int, i: ast::IfExpr)
    requires
        table_ok(st.table),
        0 <= f < st.table.funcs.len(),
        0 <= cb < st.table.blocks.len(),
    ensures
        table_ok(res_if(st, f, cb, i).0.table),
        res_if(st, f, cb, i).0.table.funcs == st.table.funcs,
        res_if(st, f, cb, i).0.table.types == st.table.types,
        st.table.blocks.len() <= res_if(st, f, cb, i).0.table.blocks.len(),
    decreases i, 3nat,
{
    lemma_res_expr_table(st, *i.cond);
    let st1 = res_expr(st, *i.cond).0;
    lemma_res_block_wf(st1, f, cb, i.body);
    match i.else_ {
        Some(b) => {
            lemma_res_block_wf(res_block(st1, f, cb, i.body).0, f, cb, b);
        },
        None => {},
    }
}

proof fn lemma_res_block_wf(st: ResolveStV, f: int, parent: int, b: ast::BlockExpr)
    requires
        table_ok(st.table),
        0 <= f < st.table.funcs.len(),
        0 <= parent < st.table.blocks.len(),
    ensures
        table_ok(res_block(st, f, parent, b).0.table),
        res_block(st, f, parent, b).0.table.funcs == st.table.funcs,
        res_block(st, f, parent, b).0.table.types == st.table.types,
        st.table.blocks.len() <= res_block(st, f, parent, b).0.table.blocks.len(),
    decreases b, 2nat,
{
    let bid = st.table.blocks.len() as int;
    let table = SymbolTableV {
        types: st.table.types,
        funcs: st.table.funcs,
        blocks: st.table.blocks.push(BlockSymbolV { func: f, parent_block: Some(parent) }),
        vars: st.table.vars,
    };
    assert(table_ok(table));
    lemma_res_block_in_wf(
        ResolveStV { table: table, scopes: st.scopes, errors: st.errors },
        f,
        bid,
        b,
    );
}

proof fn lemma_res_block_in_wf(st: ResolveStV, f: int, bid: int, b: ast::BlockExpr)
    requires
        table_ok(st.table),
        0 <= f < st.table.funcs.len(),
        0 <= bid < st.table.blocks.len(),
    ensures
        table_ok(res_block_in(st, f, bid, b).0.table),
        res_block_in(st, f, bid, b).0.table.funcs == st.table.funcs,
        res_block_in(st, f, bid, b).0.table.types == st.table.types,
        st.table.blocks.len() <= res_block_in(st, f, bid, b).0.table.blocks.len(),
    decreases b, 1nat,
{
    let st1 = ResolveStV { table: st.table, scopes: st.scopes.push(Seq::empty()), errors: st.errors };
    lemma_res_stmts_wf(st1, f, bid, b.stmts, 0);
    let st2 = res_stmts(st1, f, bid, b.stmts, 0).0;
    match b.eval_expr {
        Some(e) => {
            lemma_res_expr_table(st2, *e);
        },
        None => {},
    }
}

proof fn lemma_res_stmts_wf(st: ResolveStV, f: int, cb: int, stmts: Vec<ast::Stmt>, i: int)
    requires
        table_ok(st.table),
        0 <= f < st.table.funcs.len(),
        0 <= cb < st.table.blocks.len(),
    ensures
        table_ok(res_stmts(st, f, cb, stmts, i).0.table),
        res_stmts(st, f, cb, stmts, i).0.table.funcs == st.table.funcs,
        res_stmts(st, f, cb, stmts, i).0.table.types == st.table.types,
        st.table.blocks.len() <= res_stmts(st, f, cb, stmts, i).0.table.blocks.len(),
    decreases stmts, stmts.len() - i, 1nat,
{
    if 0 <= i < stmts.len() {
        lemma_res_stmt_wf(st, f, cb, stmts[i]);
        lemma_res_stmts_wf(res_stmt(st, f, cb, stmts[i]).0, f, cb, stmts, i + 1);
    }
}

proof fn lemma_res_item_wf(st: ResolveStV, idx: int, it: ast::Item)
    requires
        table_ok(st.table),
    ensures
        table_ok(res_item(st, idx, it).0.table),
        res_item(st, idx, it).0.table.funcs == st.table.funcs,
        res_item(st, idx, it).0.table.types == st.table.types,
{
    match it {
        ast::Item::Function(func) => {
            if 0 <= idx < st.table.funcs.len() {
                let frame = param_frame(st.table, idx, func.sig.params.items);
                let st1 = ResolveStV {
                    table: st.table,
                    scopes: st.scopes.push(frame),
                    errors: st.errors,
                };
                assert(0 <= st.table.funcs[idx].ret_ty < st.table.types.len());
                assert(0 <= st.table.funcs[idx].entry_block < st.table.blocks.len());
                lemma_res_block_in_wf(st1, idx, st.table.funcs[idx].entry_block, func.body);
            }
        },
        ast::Item::ExternFunction(_) => {},
    }
}

proof fn lemma_res_items_wf(st: ResolveStV, items: Vec<ast::Item>, i: int)
    requires
        table_ok(st.table),
    ensures
        table_ok(res_items(st, items, i).0.table),
    decreases items.len() - i,
{
    if 0 <= i < items.len() {
        lemma_res_item_wf(st, i, items[i]);
        lemma_res_items_wf(res_item(st, i, items[i]).0, items, i + 1);
    }
}

proof fn lemma_reg_params_wf(t: SymbolTableV, params: Vec<ast::Param>, i: int, block: int)
    requires
        table_ok(t),
        0 <= block < t.blocks.len(),
    ensures
        table_ok(reg_params(t, params, i, block)),
        reg_params(t, params, i, block).funcs == t.funcs,
        reg_params(t, params, i, block).blocks == t.blocks,
        reg_params(t, params, i, block).types == t.types,
        t.vars.len() <= reg_params(t, params, i, block).vars.len(),
    decreases params, params.len() - i,
{
    if 0 <= i < params.len() {
        let t1 = SymbolTableV {
            types: t.types,
            funcs: t.funcs,
            blocks: t.blocks,
            vars: t.vars.push(
                VarSymbolV {
                    block: block,
                    name: params[i].name.item@,
                    ty: ty_id(params[i].ty.item),
                },
            ),
        };
        assert(table_ok(t1));
        lemma_reg_params_wf(t1, params, i + 1, block);
    }
}

proof fn lemma_reg_sig_wf(t: SymbolTableV, sig: ast::FunctionSig)
    requires
        table_ok(t),
    ensures
        table_ok(reg_sig(t, sig)),
        reg_sig(t, sig).funcs.len() == t.funcs.len() + 1,
{
    let bid = t.blocks.len() as int;
    let fid = t.funcs.len() as int;
    let vstart = t.vars.len() as int;
    let n = sig.params.items.len() as int;
    let t1 = SymbolTableV {
        types: t.types,
        funcs: t.funcs,
        blocks: t.blocks.push(BlockSymbolV { func: fid, parent_block: None }),
        vars: t.vars,
    };
    lemma_reg_params_vars(t1, sig.params.items, 0, bid);
    let t2 = reg_params(t1, sig.params.items, 0, bid);
    let out = reg_sig(t, sig);
    assert(out.funcs == t2.funcs.push(
        FuncSymbolV {
            name: sig.name.item@,
            params: Seq::new(n as nat, |j: int| vstart + j),
            ret_ty: ty_id(sig.ret_ty.item),
            entry_block: bid,
        },
    ));
    assert forall|i: int| 0 <= i < out.funcs.len() implies {
        &&& 0 <= #[trigger] out.funcs[i].ret_ty < out.types.len()
        &&& 0 <= out.funcs[i].entry_block < out.blocks.len()
        &&& forall|j: int|
            0 <= j < out.funcs[i].params.len() ==> 0 <= #[trigger] out.funcs[i].params[j]
                < out.vars.len()
    } by {
        if i < t.funcs.len() {
            assert(out.funcs[i] == t.funcs[i]);
        }
    }
}

/// Parameter registration only appends variables, each owned by the given
/// block and carrying a registered type.
proof fn lemma_reg_params_vars(t: SymbolTableV, params: Vec<ast::Param>, i: int, block: int)
    requires
        t.types.len() == 3,
        0 <= block < t.blocks.len(),
        forall|j: int|
            0 <= j < t.vars.len() ==> {
                &&& 0 <= (#[trigger] t.vars[j]).block < t.blocks.len()
                &&& 0 <= t.vars[j].ty < t.types.len()
            },
    ensures
        ({
            let t2 = reg_params(t, params, i, block);
            &&& t2.types == t.types
            &&& t2.funcs == t.funcs
            &&& t2.blocks == t.blocks
            &&& (0 <= i <= params.len() ==> t2.vars.len() == t.vars.len() + (params.len() - i))
            &&& (i > params.len() || i < 0 ==> t2.vars == t.vars)
            &&& forall|j: int|
                0 <= j < t2.vars.len() ==> {
                    &&& 0 <= (#[trigger] t2.vars[j]).block < t.blocks.len()
                    &&& 0 <= t2.vars[j].ty < t.types.len()
                }
        }),
    decreases params, params.len() - i,
{
    if 0 <= i < params.len() {
        let t1 = SymbolTableV {
            types: t.types,
            funcs: t.funcs,
            blocks: t.blocks,
            vars: t.vars.push(
                VarSymbolV {
                    block: block,
                    name: params[i].name.item@,
                    ty: ty_id(params[i].ty.item),
                },
            ),
        };
        lemma_reg_params_vars(t1, params, i + 1, block);
    }
}

proof fn lemma_reg_items_wf(t: SymbolTableV, items: Vec<ast::Item>, i: int)
    requires
        table_ok(t),
    ensures
        table_ok(reg_items(t, items, i)),
        0 <= i <= items@.len() ==> reg_items(t, items, i).funcs.len() == t.funcs.len() + (
        items@.len() - i),
    decreases items.len() - i,
{
    if 0 <= i < items.len() {
        match items[i] {
            ast::Item::Function(f) => {
                lemma_reg_sig_wf(t, f.sig);
                lemma_reg_items_wf(reg_sig(t, f.sig), items, i + 1);
            },
            ast::Item::ExternFunction(e) => {
                lemma_reg_sig_wf(t, e.sig);
                lemma_reg_items_wf(reg_sig(t, e.sig), items, i + 1);
            },
        }
    }
}

/// Law: the symbol table resolution returns is well-formed — ids are dense,
/// every cross-reference lands inside its arena, and a block's parent always
/// precedes it, so the block-parent relation is acyclic.
pub proof fn lemma_resolve_table_wf(a: ast::AST)
    ensures
        crate::symbol::table_wf(resolve_spec(a).0),
{
    assert(table_ok(init_table()));
    lemma_reg_items_wf(init_table(), a.items, 0);
    lemma_res_items_wf(
        ResolveStV {
            table: reg_items(init_table(), a.items, 0),
            scopes: Seq::empty(),
            errors: Seq::empty(),
        },
        a.items,
        0,
    );
}

/// Every binding of every scope frame names a variable of the table.
pub open spec fn scopes_ok(scopes: Seq<Seq<(Seq<char>, int)>>, t: SymbolTableV) -> bool {
    forall|i: int, j: int|
        0 <= i < scopes.len() && 0 <= j < scopes[i].len() ==> 0 <= (#[trigger] scopes[i][j]).1
            < t.vars.len()
}

/// Every symbol id a resolved expression carries lands inside its arena, and
/// its type is a registered one.
pub open spec fn expr_ids_ok(e: ExprV, t: SymbolTableV) -> bool
    decreases e, 0nat,
{
    &&& 0 <= e.ty < t.types.len()
    &&& match e.kind {
        ExprKindV::Identifier(v) => 0 <= v < t.vars.len(),
        ExprKindV::Unary(_, b) => expr_ids_ok(*b, t),
        ExprKindV::Binary(_, l, r) => expr_ids_ok(*l, t) && expr_ids_ok(*r, t),
        ExprKindV::Call(f, args) => 0 <= f < t.funcs.len() && args_ids_ok(args, t, 0),
        _ => true,
    }
}

/// Id validity of the arguments of a call, from index `i` on.
pub open spec fn args_ids_ok(args: Seq<ExprV>, t: SymbolTableV, i: int) -> bool
    decreases args, args.len() - i, 1nat,
{
    if i < 0 || i >= args.len() {
        true
    } else {
        expr_ids_ok(args[i], t) && args_ids_ok(args, t, i + 1)
    }
}

/// Every symbol id a resolved statement carries lands inside its arena.
pub open spec fn stmt_ids_ok(s: StmtV, t: SymbolTableV) -> bool
    decreases s, 0nat,
{
    match s {
        StmtV::Block(b) => block_ids_ok(b, t),
        StmtV::Expr(e) => expr_ids_ok(e, t),
        StmtV::Assign(a, v) => expr_ids_ok(a, t) && expr_ids_ok(v, t),
        StmtV::Let(l) => 0 <= l.sym_id < t.vars.len() && 0 <= l.ty < t.types.len() && expr_ids_ok(
            l.value,
            t,
        ),
        StmtV::If(i) => expr_ids_ok(i.cond, t) && block_ids_ok(i.body, t) && match i.else_body {
            Some(b) => block_ids_ok(b, t),
            None => true,
        },
        StmtV::Loop(b) => block_ids_ok(b, t),
        StmtV::Return(o) => match o {
            Some(e) => expr_ids_ok(e, t),
            None => true,
        },
    }
}

/// Every symbol id a resolved block carries lands inside its arena.
pub open spec fn block_ids_ok(b: BlockV, t: SymbolTableV) -> bool
    decreases b, 1nat,
{
    0 <= b.block_id < t.blocks.len() && stmts_ids_ok(b.stmts, t, 0)
}

/// Id validity of the statements of a block, from index `i` on.
pub open spec fn stmts_ids_ok(ss: Seq<StmtV>, t: SymbolTableV, i: int) -> bool
    decreases ss, ss.len() - i, 1nat,
{
    if i < 0 || i >= ss.len() {
        true
    } else {
        stmt_ids_ok(ss[i], t) && stmts_ids_ok(ss, t, i + 1)
    }
}

/// Every symbol id a resolved item carries lands inside its arena.
pub open spec fn item_ids_ok(it: ItemV, t: SymbolTableV) -> bool {
    match it {
        ItemV::Function(f, b) => 0 <= f < t.funcs.len() && block_ids_ok(b, t),
        ItemV::ExternFunction(f) => 0 <= f < t.funcs.len(),
    }
}

/// Id validity of a sequence of resolved items, from index `i` on.
pub open spec fn items_ids_ok(its: Seq<ItemV>, t: SymbolTableV, i: int) -> bool
    decreases its.len() - i,
{
    if i < 0 || i >= its.len() {
        true
    } else {
        item_ids_ok(its[i], t) && items_ids_ok(its, t, i + 1)
    }
}

/// Arenas only grow during resolution; id validity carries over to the grown
/// table.
pub open spec fn table_leq(t1: SymbolTableV, t2: SymbolTableV) -> bool {
    &&& t1.types.len() <= t2.types.len()
    &&& t1.funcs.len() <= t2.funcs.len()
    &&& t1.blocks.len() <= t2.blocks.len()
    &&& t1.vars.len() <= t2.vars.len()
}

proof fn lemma_expr_ids_mono(e: ExprV, t1: SymbolTableV, t2: SymbolTableV)
    requires
        table_leq(t1, t2),
        expr_ids_ok(e, t1),
    ensures
        expr_ids_ok(e, t2),
    decreases e, 0nat,
{
    match e.kind {
        ExprKindV::Unary(_, b) => {
            lemma_expr_ids_mono(*b, t1, t2);
        },
        ExprKindV::Binary(_, l, r) => {
            lemma_expr_ids_mono(*l, t1, t2);
            lemma_expr_ids_mono(*r, t1, t2);
        },
        ExprKindV::Call(_, args) => {
            lemma_args_ids_mono(args, t1, t2, 0);
        },
        _ => {},
    }
}

proof fn lemma_args_ids_mono(args: Seq<ExprV>, t1: SymbolTableV, t2: SymbolTableV, i: int)
    requires
        table_leq(t1, t2),
        args_ids_ok(args, t1, i),
    ensures
        args_ids_ok(args, t2, i),
    decreases args, args.len() - i, 1nat,
{
    if 0 <= i < args.len() {
        lemma_expr_ids_mono(args[i], t1, t2);
        lemma_args_ids_mono(args, t1, t2, i + 1);
    }
}

proof fn lemma_stmt_ids_mono(s: StmtV, t1: SymbolTableV, t2: SymbolTableV)
    requires
        table_leq(t1, t2),
        stmt_ids_ok(s, t1),
    ensures
        stmt_ids_ok(s, t2),
    decreases s, 0nat,
{
    match s {
        StmtV::Block(b) => {
            lemma_block_ids_mono(b, t1, t2);
        },
        StmtV::Expr(e) => {
            lemma_expr_ids_mono(e, t1, t2);
        },
        StmtV::Assign(a, v) => {
            lemma_expr_ids_mono(a, t1, t2);
            lemma_expr_ids_mono(v, t1, t2);
        },
        StmtV::Let(l) => {
            lemma_expr_ids_mono(l.value, t1, t2);
        },
        StmtV::If(i) => {
            lemma_expr_ids_mono(i.cond, t1, t2);
            lemma_block_ids_mono(i.body, t1, t2);
            match i.else_body {
                Some(b) => {
                    lemma_block_ids_mono(b, t1, t2);
                },
                None => {},
            }
        },
        StmtV::Loop(b) => {
            lemma_block_ids_mono(b, t1, t2);
        },
        StmtV::Return(o) => {
            match o {
                Some(e) => {
                    lemma_expr_ids_mono(e, t1, t2);
                },
                None => {},
            }
        },
    }
}

proof fn lemma_block_ids_mono(b: BlockV, t1: SymbolTableV, t2: SymbolTableV)
    requires
        table_leq(t1, t2),
        block_ids_ok(b, t1),
    ensures
        block_ids_ok(b, t2),
    decreases b, 1nat,
{
    lemma_stmts_ids_mono(b.stmts, t1, t2, 0);
}

proof fn lemma_stmts_ids_mono(ss: Seq<StmtV>, t1: SymbolTableV, t2: SymbolTableV, i: int)
    requires
        table_leq(t1, t2),
        stmts_ids_ok(ss, t1, i),
    ensures
        stmts_ids_ok(ss, t2, i),
    decreases ss, ss.len() - i, 1nat,
{
    if 0 <= i < ss.len() {
        lemma_stmt_ids_mono(ss[i], t1, t2);
        lemma_stmts_ids_mono(ss, t1, t2, i + 1);
    }
}

/// A binding found in one frame names a variable of the table.
proof fn lemma_lookup_frame_range(frame: Seq<(Seq<char>, int)>, name: Seq<char>, nv: int)
    requires
        forall|j: int| 0 <= j < frame.len() ==> 0 <= (#[trigger] frame[j]).1 < nv,
    ensures
        match lookup_frame(frame, name) {
            Some(v) => 0 <= v < nv,
            None => true,
        },
    decreases frame.len(),
{
    if frame.len() > 0 && !(frame.last().0 == name) {
        lemma_lookup_frame_range(frame.drop_last(), name, nv);
    }
}

/// A binding found in the scope stack names a variable of the table.
proof fn lemma_lookup_scopes_range(
    scopes: Seq<Seq<(Seq<char>, int)>>,
    name: Seq<char>,
    t: SymbolTableV,
)
    requires
        scopes_ok(scopes, t),
    ensures
        match lookup_scopes(scopes, name) {
            Some(v) => 0 <= v < t.vars.len(),
            None => true,
        },
    decreases scopes.len(),
{
    if scopes.len() > 0 {
        lemma_lookup_frame_range(scopes.last(), name, t.vars.len() as int);
        match lookup_frame(scopes.last(), name) {
            Some(_) => {},
            None => {
                assert(scopes_ok(scopes.drop_last(), t));
                lemma_lookup_scopes_range(scopes.drop_last(), name, t);
            },
        }
    }
}

/// Expression resolution leaves scopes untouched and hands back a node whose
/// ids all land inside the table's arenas.
proof fn lemma_res_expr_ids(st: ResolveStV, e: ast::Expr)
    requires
        table_ok(st.table),
        scopes_ok(st.scopes, st.table),
    ensures
        res_expr(st, e).0.scopes == st.scopes,
        match res_expr(st, e).1 {
            Some(ev) => expr_ids_ok(ev, st.table),
            None => true,
        },
    decreases e, 0nat,
{
    lemma_res_expr_table(st, e);
    match e {
        ast::Expr::Identifier(l) => {
            lemma_lookup_scopes_range(st.scopes, l.item@, st.table);
            match lookup_scopes(st.scopes, l.item@) {
                Some(v) => {
                    assert(0 <= st.table.vars[v].block);
                    assert(0 <= st.table.vars[v].ty < st.table.types.len());
                },
                None => {},
            }
        },
        ast::Expr::Unary(u) => {
            lemma_res_expr_ids(st, *u.expr);
        },
        ast::Expr::Binary(b) => {
            lemma_res_expr_ids(st, *b.left);
            lemma_res_expr_table(st, *b.left);
            lemma_res_expr_ids(res_expr(st, *b.left).0, *b.right);
        },
        ast::Expr::Call(c) => match *c.callee {
            ast::Expr::Identifier(l) => {
                lemma_lookup_func_in_range(st.table.funcs, l.item@, 0);
                lemma_res_args_ids(st, c.args.items, 0);
                lemma_res_args_ids(
                    push_err(st, ResolveErrorV::UnresolvedCall(l.item@, l.loc)),
                    c.args.items,
                    0,
                );
                match lookup_func(st.table.funcs, l.item@, 0) {
                    Some(f) => {
                        assert(0 <= st.table.funcs[f].ret_ty < st.table.types.len());
                    },
                    None => {},
                }
            },
            _ => {},
        },
        ast::Expr::Grouped(g) => {
            lemma_res_expr_ids(st, *g.expr);
        },
        ast::Expr::Cast(ca) => {
            lemma_res_expr_ids(st, *ca.expr);
        },
        _ => {},
    }
}

proof fn lemma_res_args_ids(st: ResolveStV, args: Vec<ast::Expr>, i: int)
    requires
        table_ok(st.table),
        scopes_ok(st.scopes, st.table),
    ensures
        res_args(st, args, i).0.scopes == st.scopes,
        match res_args(st, args, i).1 {
            Some(avs) => args_ids_ok(avs, st.table, 0),
            None => true,
        },
    decreases args, args.len() - i, 1nat,
{
    lemma_res_args_table(st, args, i);
    if 0 <= i < args.len() {
        lemma_res_expr_ids(st, args[i]);
        lemma_res_expr_table(st, args[i]);
        let st1 = res_expr(st, args[i]).0;
        lemma_res_args_ids(st1, args, i + 1);
        match (res_expr(st, args[i]).1, res_args(st1, args, i + 1).1) {
            (Some(e0), Some(r0)) => {
                lemma_args_ids_cons(e0, r0, st.table);
            },
            _ => {},
        }
    }
}

/// Prepending a valid argument to valid arguments keeps them valid.
proof fn lemma_args_ids_cons(e: ExprV, rest: Seq<ExprV>, t: SymbolTableV)
    requires
        expr_ids_ok(e, t),
        args_ids_ok(rest, t, 0),
    ensures
        args_ids_ok(seq![e] + rest, t, 0),
{
    lemma_args_ids_shift(seq![e] + rest, rest, t, 0);
    assert((seq![e] + rest)[0] == e);
}

proof fn lemma_args_ids_shift(s: Seq<ExprV>, rest: Seq<ExprV>, t: SymbolTableV, i: int)
    requires
        s.len() == rest.len() + 1,
        forall|k: int| 0 <= k < rest.len() ==> s[k + 1] == rest[k],
        args_ids_ok(rest, t, i),
        0 <= i <= rest.len(),
    ensures
        args_ids_ok(s, t, i + 1),
    decreases rest.len() - i,
{
    if i < rest.len() {
        lemma_args_ids_shift(s, rest, t, i + 1);
        assert(s[i + 1] == rest[i]);
    }
}

/// Prepending a valid statement to valid statements keeps them valid.
proof fn lemma_stmts_ids_cons(sv: StmtV, rest: Seq<StmtV>, t: SymbolTableV)
    requires
        stmt_ids_ok(sv, t),
        stmts_ids_ok(rest, t, 0),
    ensures
        stmts_ids_ok(seq![sv] + rest, t, 0),
{
    lemma_stmts_ids_shift(seq![sv] + rest, rest, t, 0);
    assert((seq![sv] + rest)[0] == sv);
}

proof fn lemma_stmts_ids_shift(s: Seq<StmtV>, rest: Seq<StmtV>, t: SymbolTableV, i: int)
    requires
        s.len() == rest.len() + 1,
        forall|k: int| 0 <= k < rest.len() ==> s[k + 1] == rest[k],
        stmts_ids_ok(rest, t, i),
        0 <= i <= rest.len(),
    ensures
        stmts_ids_ok(s, t, i + 1),
    decreases rest.len() - i,
{
    if i < rest.len() {
        lemma_stmts_ids_shift(s, rest, t, i + 1);
        assert(s[i + 1] == rest[i]);
    }
}

/// Appending a valid statement to valid statements keeps them valid.
proof fn lemma_stmts_ids_snoc(ss: Seq<StmtV>, sv: StmtV, t: SymbolTableV)
    requires
        stmts_ids_ok(ss, t, 0),
        stmt_ids_ok(sv, t),
    ensures
        stmts_ids_ok(ss.push(sv), t, 0),
{
    lemma_stmts_ids_snoc_from(ss, sv, t, 0);
}

proof fn lemma_stmts_ids_snoc_from(ss: Seq<StmtV>, sv: StmtV, t: SymbolTableV, i: int)
    requires
        stmts_ids_ok(ss, t, i),
        stmt_ids_ok(sv, t),
        0 <= i <= ss.len(),
    ensures
        stmts_ids_ok(ss.push(sv), t, i),
    decreases ss.len() - i,
{
    if i < ss.len() {
        assert(ss.push(sv)[i] == ss[i]);
        lemma_stmts_ids_snoc_from(ss, sv, t, i + 1);
    } else {
        assert(ss.push(sv)[i] == sv);
        assert(stmts_ids_ok(ss.push(sv), t, i + 1));
    }
}

/// Statement resolution keeps the scope stack valid and hands back a node whose
/// ids all land inside the grown table's arenas.
proof fn lemma_res_stmt_ids(st: ResolveStV, f: int, cb: int, s: ast::Stmt)
    requires
        table_ok(st.table),
        scopes_ok(st.scopes, st.table),
        0 <= f < st.table.funcs.len(),
        0 <= cb < st.table.blocks.len(),
    ensures
        st.table.vars.len() <= res_stmt(st, f, cb, s).0.table.vars.len(),
        scopes_ok(res_stmt(st, f, cb, s).0.scopes, res_stmt(st, f, cb, s).0.table),
        match res_stmt(st, f, cb, s).1 {
            Some(sv) => stmt_ids_ok(sv, res_stmt(st, f, cb, s).0.table),
            None => true,
        },
    decreases s, 0nat,
{
    lemma_res_stmt_wf(st, f, cb, s);
    match s {
        ast::Stmt::Expr(e) => match e {
            ast::Expr::Block(b) => {
                lemma_res_block_ids(st, f, cb, b);
            },
            ast::Expr::If(i) => {
                lemma_res_if_ids(st, f, cb, i);
            },
            ast::Expr::Loop(l) => {
                lemma_res_block_ids(st, f, cb, l.body);
            },
            ast::Expr::Return(r) => match r.expr {
                Some(e0) => {
                    lemma_res_expr_ids(st, *e0);
                    lemma_res_expr_table(st, *e0);
                },
                None => {},
            },
            other => {
                lemma_res_expr_ids(st, other);
                lemma_res_expr_table(st, other);
            },
        },
        ast::Stmt::Let(l) => {
            lemma_res_expr_ids(st, l.value);
            lemma_res_expr_table(st, l.value);
            let st1 = res_expr(st, l.value).0;
            let n = res_expr(st, l.value).1;
            let ty = match l.ty {
                Some(t) => ty_id(t.item),
                None => match n {
                    Some(re) => re.ty,
                    None => 0,
                },
            };
            let out = bind_var(st1, cb, l.name.item@, ty);
            assert(scopes_ok(out.scopes, out.table));
            match n {
                Some(re) => {
                    lemma_expr_ids_mono(re, st.table, out.table);
                },
                None => {},
            }
        },
        ast::Stmt::Assign(a) => {
            lemma_res_expr_ids(st, a.target);
            lemma_res_expr_table(st, a.target);
            lemma_res_expr_ids(res_expr(st, a.target).0, a.value);
            lemma_res_expr_table(res_expr(st, a.target).0, a.value);
        },
    }
}

proof fn lemma_res_if_ids(st: ResolveStV, f: int, cb: int, i: ast::IfExpr)
    requires
        table_ok(st.table),
        scopes_ok(st.scopes, st.table),
        0 <= f < st.table.funcs.len(),
        0 <= cb < st.table.blocks.len(),
    ensures
        st.table.vars.len() <= res_if(st, f, cb, i).0.table.vars.len(),
        scopes_ok(res_if(st, f, cb, i).0.scopes, res_if(st, f, cb, i).0.table),
        match res_if(st, f, cb, i).1 {
            Some(sv) => stmt_ids_ok(sv, res_if(st, f, cb, i).0.table),
            None => true,
        },
    decreases i, 3nat,
{
    lemma_res_if_wf(st, f, cb, i);
    lemma_res_expr_ids(st, *i.cond);
    lemma_res_expr_table(st, *i.cond);
    let st1 = res_expr(st, *i.cond).0;
    lemma_res_block_wf(st1, f, cb, i.body);
    lemma_res_block_ids(st1, f, cb, i.body);
    let (st2, bv) = res_block(st1, f, cb, i.body);
    match i.else_ {
        Some(b) => {
            lemma_res_block_ids(st2, f, cb, b);
            lemma_res_block_wf(st2, f, cb, b);
            let (st3, eb) = res_block(st2, f, cb, b);
            lemma_block_ids_mono(bv, st2.table, st3.table);
            match res_expr(st, *i.cond).1 {
                Some(c0) => {
                    lemma_expr_ids_mono(c0, st.table, st3.table);
                },
                None => {},
            }
        },
        None => {
            match res_expr(st, *i.cond).1 {
                Some(c0) => {
                    lemma_expr_ids_mono(c0, st.table, st2.table);
                },
                None => {},
            }
        },
    }
}

proof fn lemma_res_block_ids(st: ResolveStV, f: int, parent: int, b: ast::BlockExpr)
    requires
        table_ok(st.table),
        scopes_ok(st.scopes, st.table),
        0 <= f < st.table.funcs.len(),
        0 <= parent < st.table.blocks.len(),
    ensures
        st.table.vars.len() <= res_block(st, f, parent, b).0.table.vars.len(),
        scopes_ok(res_block(st, f, parent, b).0.scopes, res_block(st, f, parent, b).0.table),
        block_ids_ok(res_block(st, f, parent, b).1, res_block(st, f, parent, b).0.table),
    decreases b, 2nat,
{
    lemma_res_block_wf(st, f, parent, b);
    let bid = st.table.blocks.len() as int;
    let table = SymbolTableV {
        types: st.table.types,
        funcs: st.table.funcs,
        blocks: st.table.blocks.push(BlockSymbolV { func: f, parent_block: Some(parent) }),
        vars: st.table.vars,
    };
    let stx = ResolveStV { table: table, scopes: st.scopes, errors: st.errors };
    assert(table_ok(stx.table));
    assert(scopes_ok(stx.scopes, stx.table));
    lemma_res_block_in_ids(stx, f, bid, b);
    lemma_res_block_in_wf(stx, f, bid, b);
}

proof fn lemma_res_block_in_ids(st: ResolveStV, f: int, bid: int, b: ast::BlockExpr)
    requires
        table_ok(st.table),
        scopes_ok(st.scopes, st.table),
        0 <= f < st.table.funcs.len(),
        0 <= bid < st.table.blocks.len(),
    ensures
        st.table.vars.len() <= res_block_in(st, f, bid, b).0.table.vars.len(),
        st.table.blocks.len() <= res_block_in(st, f, bid, b).0.table.blocks.len(),
        scopes_ok(res_block_in(st, f, bid, b).0.scopes, res_block_in(st, f, bid, b).0.table),
        block_ids_ok(res_block_in(st, f, bid, b).1, res_block_in(st, f, bid, b).0.table),
    decreases b, 1nat,
{
    lemma_res_block_in_wf(st, f, bid, b);
    let st1 = ResolveStV { table: st.table, scopes: st.scopes.push(Seq::empty()), errors: st.errors };
    assert(scopes_ok(st1.scopes, st1.table));
    lemma_res_stmts_ids(st1, f, bid, b.stmts, 0);
    lemma_res_stmts_wf(st1, f, bid, b.stmts, 0);
    let (st2, stmts) = res_stmts(st1, f, bid, b.stmts, 0);
    match b.eval_expr {
        Some(e) => {
            lemma_res_expr_ids(st2, *e);
            lemma_res_expr_table(st2, *e);
            match res_expr(st2, *e).1 {
                Some(re) => {
                    lemma_stmts_ids_snoc(stmts, StmtV::Expr(re), st2.table);
                },
                None => {},
            }
        },
        None => {},
    }
    let out = res_block_in(st, f, bid, b);
    assert forall|i: int, j: int|
        0 <= i < out.0.scopes.len() && 0 <= j < out.0.scopes[i].len() implies 0 <= (
    #[trigger] out.0.scopes[i][j]).1 < out.0.table.vars.len() by {
        assert(out.0.scopes[i] == st2.scopes[i]);
    }
}

proof fn lemma_res_stmts_ids(st: ResolveStV, f: int, cb: int, stmts: Vec<ast::Stmt>, i: int)
    requires
        table_ok(st.table),
        scopes_ok(st.scopes, st.table),
        0 <= f < st.table.funcs.len(),
        0 <= cb < st.table.blocks.len(),
    ensures
        st.table.vars.len() <= res_stmts(st, f, cb, stmts, i).0.table.vars.len(),
        scopes_ok(res_stmts(st, f, cb, stmts, i).0.scopes, res_stmts(st, f, cb, stmts, i).0.table),
        stmts_ids_ok(res_stmts(st, f, cb, stmts, i).1, res_stmts(st, f, cb, stmts, i).0.table, 0),
    decreases stmts, stmts.len() - i, 1nat,
{
    if 0 <= i < stmts.len() {
        lemma_res_stmt_ids(st, f, cb, stmts[i]);
        lemma_res_stmt_wf(st, f, cb, stmts[i]);
        let (st1, n) = res_stmt(st, f, cb, stmts[i]);
        lemma_res_stmts_ids(st1, f, cb, stmts, i + 1);
        lemma_res_stmts_wf(st1, f, cb, stmts, i + 1);
        let (st2, rest) = res_stmts(st1, f, cb, stmts, i + 1);
        match n {
            Some(sv) => {
                lemma_stmt_ids_mono(sv, st1.table, st2.table);
                lemma_stmts_ids_cons(sv, rest, st2.table);
            },
            None => {},
        }
    }
}

proof fn lemma_res_item_ids(st: ResolveStV, idx: int, it: ast::Item)
    requires
        table_ok(st.table),
        scopes_ok(st.scopes, st.table),
        0 <= idx < st.table.funcs.len(),
    ensures
        scopes_ok(res_item(st, idx, it).0.scopes, res_item(st, idx, it).0.table),
        table_leq(st.table, res_item(st, idx, it).0.table),
        match res_item(st, idx, it).1 {
            Some(iv) => item_ids_ok(iv, res_item(st, idx, it).0.table),
            None => true,
        },
{
    lemma_res_item_wf(st, idx, it);
    match it {
        ast::Item::Function(func) => {
            if 0 <= idx < st.table.funcs.len() {
                let frame = param_frame(st.table, idx, func.sig.params.items);
                let st1 = ResolveStV {
                    table: st.table,
                    scopes: st.scopes.push(frame),
                    errors: st.errors,
                };
                assert(0 <= st.table.funcs[idx].ret_ty < st.table.types.len());
                assert(0 <= st.table.funcs[idx].entry_block < st.table.blocks.len());
                assert forall|i: int, j: int|
                    0 <= i < st1.scopes.len() && 0 <= j < st1.scopes[i].len() implies 0 <= (
                #[trigger] st1.scopes[i][j]).1 < st1.table.vars.len() by {
                    if i < st1.scopes.len() - 1 {
                        assert(st1.scopes[i] == st.scopes[i]);
                    } else {
                        assert(st1.scopes[i] == frame);
                        assert(0 <= st.table.funcs[idx].params[j] < st.table.vars.len());
                    }
                }
                lemma_res_block_in_ids(st1, idx, st.table.funcs[idx].entry_block, func.body);
                lemma_res_block_in_wf(st1, idx, st.table.funcs[idx].entry_block, func.body);
                let (st2, bv) = res_block_in(st1, idx, st.table.funcs[idx].entry_block, func.body);
                let out = res_item(st, idx, it).0;
                assert forall|i: int, j: int|
                    0 <= i < out.scopes.len() && 0 <= j < out.scopes[i].len() implies 0 <= (
                #[trigger] out.scopes[i][j]).1 < out.table.vars.len() by {
                    assert(out.scopes[i] == st2.scopes[i]);
                }
            }
        },
        ast::Item::ExternFunction(_) => {},
    }
}

proof fn lemma_res_items_ids(st: ResolveStV, items: Vec<ast::Item>, i: int)
    requires
        table_ok(st.table),
        scopes_ok(st.scopes, st.table),
        items@.len() <= st.table.funcs.len(),
    ensures
        table_leq(st.table, res_items(st, items, i).0.table),
        items_ids_ok(res_items(st, items, i).1, res_items(st, items, i).0.table, 0),
    decreases items.len() - i,
{
    if 0 <= i < items.len() {
        lemma_res_item_ids(st, i, items[i]);
        lemma_res_item_wf(st, i, items[i]);
        let (st1, n) = res_item(st, i, items[i]);
        lemma_res_items_ids(st1, items, i + 1);
        lemma_res_items_wf(st1, items, i + 1);
        let (st2, rest) = res_items(st1, items, i + 1);
        match n {
            Some(iv) => {
                lemma_item_ids_mono(iv, st1.table, st2.table);
                lemma_items_ids_cons(iv, rest, st2.table);
            },
            None => {},
        }
    }
}

proof fn lemma_item_ids_mono(iv: ItemV, t1: SymbolTableV, t2: SymbolTableV)
    requires
        table_leq(t1, t2),
        item_ids_ok(iv, t1),
    ensures
        item_ids_ok(iv, t2),
{
    match iv {
        ItemV::Function(_, b) => {
            lemma_block_ids_mono(b, t1, t2);
        },
        ItemV::ExternFunction(_) => {},
    }
}

proof fn lemma_items_ids_cons(iv: ItemV, rest: Seq<ItemV>, t: SymbolTableV)
    requires
        item_ids_ok(iv, t),
        items_ids_ok(rest, t, 0),
    ensures
        items_ids_ok(seq![iv] + rest, t, 0),
{
    lemma_items_ids_shift(seq![iv] + rest, rest, t, 0);
    assert((seq![iv] + rest)[0] == iv);
}

proof fn lemma_items_ids_shift(s: Seq<ItemV>, rest: Seq<ItemV>, t: SymbolTableV, i: int)
    requires
        s.len() == rest.len() + 1,
        forall|k: int| 0 <= k < rest.len() ==> s[k + 1] == rest[k],
        items_ids_ok(rest, t, i),
        0 <= i <= rest.len(),
    ensures
        items_ids_ok(s, t, i + 1),
    decreases rest.len() - i,
{
    if i < rest.len() {
        lemma_items_ids_shift(s, rest, t, i + 1);
        assert(s[i + 1] == rest[i]);
    }
}

/// Law: finalized resolution leaves no dangling reference — every symbol id
/// carried by the resolved tree (variables of identifiers and `let` bindings,
/// callees of calls, block ids, type ids) exists in the returned symbol table.
pub proof fn lemma_resolve_ids_ok(a: ast::AST)
    ensures
        items_ids_ok(resolve_spec(a).2, resolve_spec(a).0, 0),
{
    assert(table_ok(init_table()));
    lemma_reg_items_wf(init_table(), a.items, 0);
    let st0 = ResolveStV {
        table: reg_items(init_table(), a.items, 0),
        scopes: Seq::empty(),
        errors: Seq::empty(),
    };
    assert(st0.table.funcs.len() == a.items@.len());
    assert(scopes_ok(st0.scopes, st0.table));
    lemma_res_items_ids(st0, a.items, 0);
}

} // verus!
