//! The constant-folding pass over the resolved tree: one traversal function per
//! node kind, each rewriting its node in place and proved equal to the folding
//! functions of [`crate::fold`].
//!
//! These functions specialise the classic open visitor to the one rewrite the
//! pipeline runs. An open visitor trait with caller-supplied methods cannot be
//! verified here: termination and behaviour through an unknown implementation
//! would rest on contracts nobody has proved, so the traversal is written once,
//! concretely, and carries exact contracts instead.

use vstd::prelude::*;

use crate::fold::{
    fold_args_v, fold_block_v, fold_expr_v, fold_item_v, fold_items_v, fold_kind_v,
    fold_opt_block_v, fold_opt_expr_v, fold_stmt_v, fold_stmts_v, lemma_fold_args_index,
    lemma_fold_args_len, lemma_fold_items_index, lemma_fold_items_len, lemma_fold_stmts_index,
    lemma_fold_stmts_len, EvalConstant,
};
use crate::resolved::{
    args_view, ast_view, block_size, block_view, expr_size, expr_view, item_view,
    items_view, kind_view, lemma_args_size_elem, lemma_args_view_index, lemma_args_view_len,
    lemma_items_view_index, lemma_items_view_len, lemma_stmts_size_elem,
    lemma_stmts_view_index, lemma_stmts_view_len, opt_block_view, opt_expr_view, stmt_size,
    stmt_view, stmts_size, stmts_view, BinaryExpr, Block, CallExpr, Expr, ExprKind, ExprStmt,
    ExternFunction, Function, FunctionSig, IfStmt, Item, LetStmt, LoopStmt, ResolvedAST,
    ReturnStmt, Stmt, UnaryExpr,
};

verus! {

/// Fold every expression reachable from `e`, bottom-up, in place.
pub fn visit_expr_mut(e: &mut Expr)
    ensures
        expr_view(*final(e)) == fold_expr_v(expr_view(*old(e))),
    decreases expr_size(*old(e)), 0nat,
{
    match &mut e.kind {
        ExprKind::Unary(u) => {
            visit_unary_expr_mut(u);
        },
        ExprKind::Binary(b) => {
            visit_binary_expr_mut(b);
        },
        ExprKind::Call(c) => {
            visit_call_expr_mut(c);
        },
        _ => {},
    }
    let folded = e.kind.eval_constant();
    match folded {
        Some(k2) => {
            e.kind = k2;
        },
        None => {},
    }
}

/// Fold the operand of a unary application.
pub fn visit_unary_expr_mut(node: &mut UnaryExpr)
    ensures
        final(node).op == old(node).op,
        expr_view(*final(node).expr) == fold_expr_v(expr_view(*old(node).expr)),
    decreases expr_size(*old(node).expr), 1nat,
{
    visit_expr_mut(&mut *node.expr);
}

/// Fold both operands of a binary application.
pub fn visit_binary_expr_mut(node: &mut BinaryExpr)
    ensures
        final(node).op == old(node).op,
        expr_view(*final(node).left) == fold_expr_v(expr_view(*old(node).left)),
        expr_view(*final(node).right) == fold_expr_v(expr_view(*old(node).right)),
    decreases expr_size(*old(node).left) + expr_size(*old(node).right), 1nat,
{
    visit_expr_mut(&mut *node.left);
    visit_expr_mut(&mut *node.right);
}

/// Fold every argument of a call; the callee is a resolved symbol and stays.
pub fn visit_call_expr_mut(node: &mut CallExpr)
    ensures
        final(node).callee == old(node).callee,
        args_view(final(node).args, 0) == fold_args_v(args_view(old(node).args, 0), 0),
    decreases crate::resolved::args_size(old(node).args, 0), 1nat,
{
    let ghost oargs = node.args;
    let n = node.args.len();
    let mut i: usize = 0;
    while i < n
        invariant
            i <= n,
            n == node.args@.len(),
            node.args@.len() == oargs@.len(),
            node.callee == old(node).callee,
            crate::resolved::args_size(oargs, 0) == crate::resolved::args_size(old(node).args, 0),
            forall|k: int| i <= k < n ==> node.args@[k] == oargs@[k],
            forall|k: int|
                0 <= k < i ==> expr_view(node.args@[k]) == fold_expr_v(expr_view(oargs@[k])),
        decreases n - i,
    {
        proof {
            lemma_args_size_elem(oargs, 0, i as int);
        }
        visit_expr_mut(&mut node.args[i]);
        i = i + 1;
    }
    proof {
        lemma_args_view_len(node.args, 0);
        lemma_args_view_len(oargs, 0);
        lemma_fold_args_len(args_view(oargs, 0), 0);
        assert forall|k: int| 0 <= k < n implies args_view(node.args, 0)[k] == fold_args_v(
            args_view(oargs, 0),
            0,
        )[k] by {
            lemma_args_view_index(node.args, 0, k);
            lemma_args_view_index(oargs, 0, k);
            lemma_fold_args_index(args_view(oargs, 0), 0, k);
        }
        assert(args_view(node.args, 0) =~= fold_args_v(args_view(oargs, 0), 0));
    }
}

/// Fold every statement of a block, in order.
pub fn visit_block_expr_mut(node: &mut Block)
    ensures
        block_view(*final(node)) == fold_block_v(block_view(*old(node))),
    decreases block_size(*old(node)), 0nat,
{
    let ghost ostmts = node.stmts;
    let n = node.stmts.len();
    let mut i: usize = 0;
    while i < n
        invariant
            i <= n,
            n == node.stmts@.len(),
            node.stmts@.len() == ostmts@.len(),
            node.block_id == old(node).block_id,
            stmts_size(ostmts, 0) == stmts_size(old(node).stmts, 0),
            forall|k: int| i <= k < n ==> node.stmts@[k] == ostmts@[k],
            forall|k: int|
                0 <= k < i ==> stmt_view(node.stmts@[k]) == fold_stmt_v(stmt_view(ostmts@[k])),
        decreases n - i,
    {
        proof {
            lemma_stmts_size_elem(ostmts, 0, i as int);
        }
        visit_stmt_mut(&mut node.stmts[i]);
        i = i + 1;
    }
    proof {
        lemma_stmts_view_len(node.stmts, 0);
        lemma_stmts_view_len(ostmts, 0);
        lemma_fold_stmts_len(stmts_view(ostmts, 0), 0);
        assert forall|k: int| 0 <= k < n implies stmts_view(node.stmts, 0)[k] == fold_stmts_v(
            stmts_view(ostmts, 0),
            0,
        )[k] by {
            lemma_stmts_view_index(node.stmts, 0, k);
            lemma_stmts_view_index(ostmts, 0, k);
            lemma_fold_stmts_index(stmts_view(ostmts, 0), 0, k);
        }
        assert(stmts_view(node.stmts, 0) =~= fold_stmts_v(stmts_view(ostmts, 0), 0));
    }
}

/// Fold one statement in place.
pub fn visit_stmt_mut(node: &mut Stmt)
    ensures
        stmt_view(*final(node)) == fold_stmt_v(stmt_view(*old(node))),
    decreases stmt_size(*old(node)), 0nat,
{
    match node {
        Stmt::Block(b) => {
            visit_block_expr_mut(b);
        },
        Stmt::Expr(es) => {
            visit_expr_stmt_mut(es);
        },
        Stmt::Assign(a) => {
            visit_expr_mut(&mut a.target);
            visit_expr_mut(&mut a.value);
        },
        Stmt::Let(l) => {
            visit_let_stmt_mut(l);
        },
        Stmt::If(i) => {
            visit_if_expr_mut(i);
        },
        Stmt::Loop(l) => {
            visit_loop_expr_mut(l);
        },
        Stmt::Return(r) => {
            visit_return_expr_mut(r);
        },
    }
}

/// Fold the expression of a bare expression statement.
pub fn visit_expr_stmt_mut(node: &mut ExprStmt)
    ensures
        expr_view(final(node).expr) == fold_expr_v(expr_view(old(node).expr)),
{
    visit_expr_mut(&mut node.expr);
}

/// Fold the bound value of a `let`; the binding itself is untouched.
pub fn visit_let_stmt_mut(node: &mut LetStmt)
    ensures
        final(node).sym_id == old(node).sym_id,
        final(node).name == old(node).name,
        final(node).ty == old(node).ty,
        expr_view(final(node).value) == fold_expr_v(expr_view(old(node).value)),
{
    visit_expr_mut(&mut node.value);
}

/// Fold the condition and both branches of an `if`.
pub fn visit_if_expr_mut(node: &mut IfStmt)
    ensures
        expr_view(final(node).cond) == fold_expr_v(expr_view(old(node).cond)),
        block_view(final(node).body) == fold_block_v(block_view(old(node).body)),
        opt_block_view(final(node).else_body) == fold_opt_block_v(
            opt_block_view(old(node).else_body),
        ),
    decreases
            block_size(old(node).body) + (match old(node).else_body {
                Some(b) => block_size(b),
                None => 0,
            }),
            1nat,
{
    visit_expr_mut(&mut node.cond);
    visit_block_expr_mut(&mut node.body);
    match &mut node.else_body {
        Some(b) => {
            visit_block_expr_mut(b);
        },
        None => {},
    }
}

/// Fold the body of a `loop`.
pub fn visit_loop_expr_mut(node: &mut LoopStmt)
    ensures
        block_view(final(node).body) == fold_block_v(block_view(old(node).body)),
    decreases block_size(old(node).body), 1nat,
{
    visit_block_expr_mut(&mut node.body);
}

/// Fold the returned value, if any.
pub fn visit_return_expr_mut(node: &mut ReturnStmt)
    ensures
        opt_expr_view(final(node).expr) == fold_opt_expr_v(opt_expr_view(old(node).expr)),
{
    match &mut node.expr {
        Some(e) => {
            visit_expr_mut(e);
        },
        None => {},
    }
}

/// A resolved signature carries only symbol identities: nothing in it folds.
pub fn visit_func_sig_mut(node: &mut FunctionSig)
    ensures
        *final(node) == *old(node),
{
}

/// Fold the body of a function.
pub fn visit_func_mut(node: &mut Function)
    ensures
        final(node).sig == old(node).sig,
        block_view(final(node).body) == fold_block_v(block_view(old(node).body)),
{
    visit_func_sig_mut(&mut node.sig);
    visit_block_expr_mut(&mut node.body);
}

/// An extern declaration has no body: nothing in it folds.
pub fn visit_extern_func_mut(node: &mut ExternFunction)
    ensures
        *final(node) == *old(node),
{
    visit_func_sig_mut(&mut node.0);
}

/// Fold one top-level item.
pub fn visit_item_mut(node: &mut Item)
    ensures
        item_view(*final(node)) == fold_item_v(item_view(*old(node))),
{
    match node {
        Item::Function(f) => {
            visit_func_mut(f);
        },
        Item::ExternFunction(e) => {
            visit_extern_func_mut(e);
        },
    }
}

/// Fold every item of a resolved unit.
pub fn visit_ast_mut(node: &mut ResolvedAST)
    ensures
        ast_view(*final(node)) == fold_items_v(ast_view(*old(node)), 0),
{
    let ghost oitems = node.items;
    let n = node.items.len();
    let mut i: usize = 0;
    while i < n
        invariant
            i <= n,
            n == node.items@.len(),
            node.items@.len() == oitems@.len(),
            forall|k: int| i <= k < n ==> node.items@[k] == oitems@[k],
            forall|k: int|
                0 <= k < i ==> item_view(node.items@[k]) == fold_item_v(item_view(oitems@[k])),
        decreases n - i,
    {
        visit_item_mut(&mut node.items[i]);
        i = i + 1;
    }
    proof {
        lemma_items_view_len(node.items, 0);
        lemma_items_view_len(oitems, 0);
        lemma_fold_items_len(items_view(oitems, 0), 0);
        assert forall|k: int| 0 <= k < n implies items_view(node.items, 0)[k] == fold_items_v(
            items_view(oitems, 0),
            0,
        )[k] by {
            lemma_items_view_index(node.items, 0, k);
            lemma_items_view_index(oitems, 0, k);
            lemma_fold_items_index(items_view(oitems, 0), 0, k);
        }
        assert(items_view(node.items, 0) =~= fold_items_v(items_view(oitems, 0), 0));
    }
}

/// Run the optional rewrite passes over a resolved unit: today, constant folding.
pub fn run_passes(ast: &mut ResolvedAST)
    ensures
        ast_view(*final(ast)) == fold_items_v(ast_view(*old(ast)), 0),
{
    visit_ast_mut(ast);
}

} // verus!
