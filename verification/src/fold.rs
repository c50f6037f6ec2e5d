//! Constant folding: a pure, bottom-up rewrite that collapses compile-time
//! constant sub-expressions. Only literal integer and boolean leaves and the
//! arithmetic, logical and comparison operators over them fold; identifiers and
//! calls never do. The rewrite keeps each node's source location and resolved
//! type, and is proved idempotent.

use vstd::prelude::*;

use crate::resolved::{BlockV, ExprKind, ExprKindV, ExprV, IfV, ItemV, LetV, StmtV};
use crate::token::Operator;

verus! {

/// What a unary operator folds to on an already-folded operand kind, if anything.
pub open spec fn eval_unary_v(op: Operator, k: ExprKindV) -> Option<ExprKindV> {
    match (op, k) {
        (Operator::Sub, ExprKindV::Integer(v)) => Some(
            ExprKindV::Integer((0i64).wrapping_sub(v)),
        ),
        (Operator::Not, ExprKindV::Bool(b)) => Some(ExprKindV::Bool(!b)),
        _ => None,
    }
}

/// What a binary operator folds to on two already-folded operand kinds, if
/// anything. Mismatched operand kinds simply fail to fold.
pub open spec fn eval_binary_v(op: Operator, l: ExprKindV, r: ExprKindV) -> Option<ExprKindV> {
    match (op, l, r) {
        (Operator::Add, ExprKindV::Integer(a), ExprKindV::Integer(b)) => Some(
            ExprKindV::Integer(a.wrapping_add(b)),
        ),
        (Operator::Sub, ExprKindV::Integer(a), ExprKindV::Integer(b)) => Some(
            ExprKindV::Integer(a.wrapping_sub(b)),
        ),
        (Operator::And, ExprKindV::Bool(a), ExprKindV::Bool(b)) => Some(ExprKindV::Bool(a && b)),
        (Operator::Or, ExprKindV::Bool(a), ExprKindV::Bool(b)) => Some(ExprKindV::Bool(a || b)),
        (Operator::Equal, ExprKindV::Integer(a), ExprKindV::Integer(b)) => Some(
            ExprKindV::Bool(a == b),
        ),
        (Operator::Equal, ExprKindV::Bool(a), ExprKindV::Bool(b)) => Some(ExprKindV::Bool(a == b)),
        (Operator::NotEqual, ExprKindV::Integer(a), ExprKindV::Integer(b)) => Some(
            ExprKindV::Bool(a != b),
        ),
        (Operator::NotEqual, ExprKindV::Bool(a), ExprKindV::Bool(b)) => Some(
            ExprKindV::Bool(a != b),
        ),
        (Operator::Less, ExprKindV::Integer(a), ExprKindV::Integer(b)) => Some(
            ExprKindV::Bool(a < b),
        ),
        (Operator::LessEqual, ExprKindV::Integer(a), ExprKindV::Integer(b)) => Some(
            ExprKindV::Bool(a <= b),
        ),
        (Operator::Greater, ExprKindV::Integer(a), ExprKindV::Integer(b)) => Some(
            ExprKindV::Bool(a > b),
        ),
        (Operator::GreaterEqual, ExprKindV::Integer(a), ExprKindV::Integer(b)) => Some(
            ExprKindV::Bool(a >= b),
        ),
        _ => None,
    }
}

/// What one node folds to, given that its children are already folded:
/// literal leaves, identifiers and calls never fold at the node itself.
pub open spec fn eval_constant_v(k: ExprKindV) -> Option<ExprKindV> {
    match k {
        ExprKindV::Unary(op, e) => eval_unary_v(op, e.kind),
        ExprKindV::Binary(op, l, r) => eval_binary_v(op, l.kind, r.kind),
        _ => None,
    }
}

/// The folded form of an expression: fold the children bottom-up, then collapse
/// the node itself where the operands allow it. Type and location are kept.
pub open spec fn fold_expr_v(e: ExprV) -> ExprV
    decreases e,
{
    ExprV { kind: fold_kind_v(e.kind), ty: e.ty, loc: e.loc }
}

/// The folded form of an expression kind.
pub open spec fn fold_kind_v(k: ExprKindV) -> ExprKindV
    decreases k,
{
    match k {
        ExprKindV::Unary(op, e) => {
            let fe = fold_expr_v(*e);
            match eval_unary_v(op, fe.kind) {
                Some(k2) => k2,
                None => ExprKindV::Unary(op, Box::new(fe)),
            }
        },
        ExprKindV::Binary(op, l, r) => {
            let fl = fold_expr_v(*l);
            let fr = fold_expr_v(*r);
            match eval_binary_v(op, fl.kind, fr.kind) {
                Some(k2) => k2,
                None => ExprKindV::Binary(op, Box::new(fl), Box::new(fr)),
            }
        },
        ExprKindV::Call(f, args) => ExprKindV::Call(f, fold_args_v(args, 0)),
        _ => k,
    }
}

/// The folded forms of the arguments of a call, from index `i` on.
pub open spec fn fold_args_v(args: Seq<ExprV>, i: int) -> Seq<ExprV>
    decreases args, args.len() - i,
{
    if i < 0 || i >= args.len() {
        Seq::empty()
    } else {
        seq![fold_expr_v(args[i])] + fold_args_v(args, i + 1)
    }
}

pub proof fn lemma_fold_args_index(args: Seq<ExprV>, i: int, k: int)
    requires
        0 <= i <= k < args.len(),
    ensures
        fold_args_v(args, i).len() == args.len() - i,
        fold_args_v(args, i)[k - i] == fold_expr_v(args[k]),
    decreases k - i,
{
    lemma_fold_args_len(args, i);
    if i < k {
        lemma_fold_args_index(args, i + 1, k);
    }
}

pub proof fn lemma_fold_args_len(args: Seq<ExprV>, i: int)
    requires
        0 <= i <= args.len(),
    ensures
        fold_args_v(args, i).len() == args.len() - i,
    decreases args.len() - i,
{
    if i < args.len() {
        lemma_fold_args_len(args, i + 1);
    }
}

/// The folded form of an optional block.
pub open spec fn fold_opt_block_v(o: Option<BlockV>) -> Option<BlockV>
    decreases o,
{
    match o {
        Some(b) => Some(fold_block_v(b)),
        None => None,
    }
}

/// The folded form of an optional expression.
pub open spec fn fold_opt_expr_v(o: Option<ExprV>) -> Option<ExprV> {
    match o {
        Some(e) => Some(fold_expr_v(e)),
        None => None,
    }
}

/// The folded form of a statement: every expression it holds is folded; its
/// structure, symbol identities and declared types are untouched.
pub open spec fn fold_stmt_v(s: StmtV) -> StmtV
    decreases s,
{
    match s {
        StmtV::Block(b) => StmtV::Block(fold_block_v(b)),
        StmtV::Expr(e) => StmtV::Expr(fold_expr_v(e)),
        StmtV::Assign(t, v) => StmtV::Assign(fold_expr_v(t), fold_expr_v(v)),
        StmtV::Let(l) => StmtV::Let(
            LetV { sym_id: l.sym_id, name: l.name, ty: l.ty, value: fold_expr_v(l.value) },
        ),
        StmtV::If(i) => StmtV::If(
            IfV {
                cond: fold_expr_v(i.cond),
                body: fold_block_v(i.body),
                else_body: fold_opt_block_v(i.else_body),
            },
        ),
        StmtV::Loop(b) => StmtV::Loop(fold_block_v(b)),
        StmtV::Return(e) => StmtV::Return(fold_opt_expr_v(e)),
    }
}

/// The folded form of a block.
pub open spec fn fold_block_v(b: BlockV) -> BlockV
    decreases b,
{
    BlockV { block_id: b.block_id, stmts: fold_stmts_v(b.stmts, 0) }
}

/// The folded forms of the statements of a block, from index `i` on.
pub open spec fn fold_stmts_v(stmts: Seq<StmtV>, i: int) -> Seq<StmtV>
    decreases stmts, stmts.len() - i,
{
    if i < 0 || i >= stmts.len() {
        Seq::empty()
    } else {
        seq![fold_stmt_v(stmts[i])] + fold_stmts_v(stmts, i + 1)
    }
}

pub proof fn lemma_fold_stmts_index(stmts: Seq<StmtV>, i: int, k: int)
    requires
        0 <= i <= k < stmts.len(),
    ensures
        fold_stmts_v(stmts, i).len() == stmts.len() - i,
        fold_stmts_v(stmts, i)[k - i] == fold_stmt_v(stmts[k]),
    decreases k - i,
{
    lemma_fold_stmts_len(stmts, i);
    if i < k {
        lemma_fold_stmts_index(stmts, i + 1, k);
    }
}

pub proof fn lemma_fold_stmts_len(stmts: Seq<StmtV>, i: int)
    requires
        0 <= i <= stmts.len(),
    ensures
        fold_stmts_v(stmts, i).len() == stmts.len() - i,
    decreases stmts.len() - i,
{
    if i < stmts.len() {
        lemma_fold_stmts_len(stmts, i + 1);
    }
}

/// The folded form of a top-level item.
pub open spec fn fold_item_v(it: ItemV) -> ItemV {
    match it {
        ItemV::Function(f, b) => ItemV::Function(f, fold_block_v(b)),
        ItemV::ExternFunction(f) => ItemV::ExternFunction(f),
    }
}

/// The folded forms of the items of a unit, from index `i` on.
pub open spec fn fold_items_v(items: Seq<ItemV>, i: int) -> Seq<ItemV>
    decreases items.len() - i,
{
    if i < 0 || i >= items.len() {
        Seq::empty()
    } else {
        seq![fold_item_v(items[i])] + fold_items_v(items, i + 1)
    }
}

pub proof fn lemma_fold_items_index(items: Seq<ItemV>, i: int, k: int)
    requires
        0 <= i <= k < items.len(),
    ensures
        fold_items_v(items, i).len() == items.len() - i,
        fold_items_v(items, i)[k - i] == fold_item_v(items[k]),
    decreases k - i,
{
    lemma_fold_items_len(items, i);
    if i < k {
        lemma_fold_items_index(items, i + 1, k);
    }
}

pub proof fn lemma_fold_items_len(items: Seq<ItemV>, i: int)
    requires
        0 <= i <= items.len(),
    ensures
        fold_items_v(items, i).len() == items.len() - i,
    decreases items.len() - i,
{
    if i < items.len() {
        lemma_fold_items_len(items, i + 1);
    }
}

/// An expression is fully folded when no sub-expression still folds.
pub open spec fn expr_folded(e: ExprV) -> bool
    decreases e,
{
    kind_folded(e.kind)
}

/// A kind is fully folded when its children are and the node itself does not fold.
pub open spec fn kind_folded(k: ExprKindV) -> bool
    decreases k,
{
    match k {
        ExprKindV::Unary(op, e) => expr_folded(*e) && eval_unary_v(op, e.kind) is None,
        ExprKindV::Binary(op, l, r) => expr_folded(*l) && expr_folded(*r) && eval_binary_v(
            op,
            l.kind,
            r.kind,
        ) is None,
        ExprKindV::Call(_, args) => args_folded(args, 0),
        _ => true,
    }
}

/// All arguments from index `i` on are fully folded.
pub open spec fn args_folded(args: Seq<ExprV>, i: int) -> bool
    decreases args, args.len() - i,
{
    if i < 0 || i >= args.len() {
        true
    } else {
        expr_folded(args[i]) && args_folded(args, i + 1)
    }
}

/// Law: the result of folding is fully folded — no foldable sub-expression
/// survives the pass.
pub proof fn lemma_fold_is_folded(e: ExprV)
    ensures
        expr_folded(fold_expr_v(e)),
    decreases e,
{
    lemma_fold_kind_is_folded(e.kind);
}

proof fn lemma_fold_kind_is_folded(k: ExprKindV)
    ensures
        kind_folded(fold_kind_v(k)),
    decreases k,
{
    match k {
        ExprKindV::Unary(op, e) => {
            lemma_fold_is_folded(*e);
            let fe = fold_expr_v(*e);
            match eval_unary_v(op, fe.kind) {
                Some(k2) => {
                    assert(kind_folded(k2));
                },
                None => {},
            }
        },
        ExprKindV::Binary(op, l, r) => {
            lemma_fold_is_folded(*l);
            lemma_fold_is_folded(*r);
            let fl = fold_expr_v(*l);
            let fr = fold_expr_v(*r);
            match eval_binary_v(op, fl.kind, fr.kind) {
                Some(k2) => {
                    assert(kind_folded(k2));
                },
                None => {},
            }
        },
        ExprKindV::Call(f, args) => {
            lemma_fold_args_folded(args, 0);
        },
        _ => {},
    }
}

proof fn lemma_fold_args_folded(args: Seq<ExprV>, i: int)
    requires
        0 <= i <= args.len(),
    ensures
        args_folded(fold_args_v(args, i), 0),
    decreases args, args.len() - i,
{
    if i >= args.len() {
    } else {
        lemma_fold_is_folded(args[i]);
        lemma_fold_args_folded(args, i + 1);
        lemma_args_folded_cons(fold_expr_v(args[i]), fold_args_v(args, i + 1));
    }
}

/// Prepending a folded expression to folded arguments keeps them folded.
proof fn lemma_args_folded_cons(e: ExprV, rest: Seq<ExprV>)
    requires
        expr_folded(e),
        args_folded(rest, 0),
    ensures
        args_folded(seq![e] + rest, 0),
{
    let s = seq![e] + rest;
    lemma_args_folded_offset(s, rest, 0);
    assert(s[0] == e);
}

/// Foldedness of a suffix carries over to the same suffix shifted by one.
proof fn lemma_args_folded_offset(s: Seq<ExprV>, rest: Seq<ExprV>, i: int)
    requires
        s.len() == rest.len() + 1,
        forall|k: int| 0 <= k < rest.len() ==> s[k + 1] == rest[k],
        args_folded(rest, i),
        0 <= i <= rest.len(),
    ensures
        args_folded(s, i + 1),
    decreases rest.len() - i,
{
    if i < rest.len() {
        lemma_args_folded_offset(s, rest, i + 1);
        assert(s[i + 1] == rest[i]);
    }
}

/// Law: folding a fully folded expression is the identity.
pub proof fn lemma_folded_fixpoint(e: ExprV)
    requires
        expr_folded(e),
    ensures
        fold_expr_v(e) == e,
    decreases e,
{
    lemma_folded_kind_fixpoint(e.kind);
}

proof fn lemma_folded_kind_fixpoint(k: ExprKindV)
    requires
        kind_folded(k),
    ensures
        fold_kind_v(k) == k,
    decreases k,
{
    match k {
        ExprKindV::Unary(op, e) => {
            lemma_folded_fixpoint(*e);
            assert(fold_kind_v(k) =~= k);
        },
        ExprKindV::Binary(op, l, r) => {
            lemma_folded_fixpoint(*l);
            lemma_folded_fixpoint(*r);
            assert(fold_kind_v(k) =~= k);
        },
        ExprKindV::Call(f, args) => {
            lemma_folded_args_fixpoint(args, 0);
            assert(args.subrange(0, args.len() as int) =~= args);
            assert(fold_kind_v(k) =~= k);
        },
        _ => {},
    }
}

proof fn lemma_folded_args_fixpoint(args: Seq<ExprV>, i: int)
    requires
        0 <= i <= args.len(),
        args_folded(args, i),
    ensures
        fold_args_v(args, i) =~= args.subrange(i, args.len() as int),
    decreases args, args.len() - i,
{
    if i >= args.len() {
    } else {
        lemma_folded_fixpoint(args[i]);
        lemma_folded_args_fixpoint(args, i + 1);
        lemma_fold_args_len(args, i);
        assert(fold_args_v(args, i) =~= args.subrange(i, args.len() as int));
    }
}

/// Law: folding substitutes a literal without touching the node's resolved
/// type or its source location, which later stages still need.
pub proof fn lemma_fold_keeps_type_and_location(e: ExprV)
    ensures
        fold_expr_v(e).ty == e.ty,
        fold_expr_v(e).loc == e.loc,
{
}

/// Law: folding is idempotent — folding an already-folded tree changes nothing.
pub proof fn lemma_fold_idempotent(e: ExprV)
    ensures
        fold_expr_v(fold_expr_v(e)) == fold_expr_v(e),
{
    lemma_fold_is_folded(e);
    lemma_folded_fixpoint(fold_expr_v(e));
}

/// Law: a binary `+` of two integer literals folds to the literal sum, whenever
/// that sum fits the machine's integers; the node's type and location are kept.
pub proof fn lemma_fold_literal_add(e: ExprV, a: i64, b: i64, la: ExprV, lb: ExprV)
    requires
        e.kind == ExprKindV::Binary(Operator::Add, Box::new(la), Box::new(lb)),
        la.kind == ExprKindV::Integer(a),
        lb.kind == ExprKindV::Integer(b),
        i64::MIN <= a + b <= i64::MAX,
    ensures
        fold_expr_v(e) == (ExprV { kind: ExprKindV::Integer((a + b) as i64), ty: e.ty, loc: e.loc }),
{
    reveal_with_fuel(fold_expr_v, 3);
    reveal_with_fuel(fold_kind_v, 3);
    assert(fold_expr_v(la) == la);
    assert(fold_expr_v(lb) == lb);
}

/// Law: an expression with no foldable sub-expression is returned unchanged
/// (folding never touches a non-foldable tree).
pub proof fn lemma_fold_preserves_nonfoldable(e: ExprV)
    requires
        expr_folded(e),
    ensures
        fold_expr_v(e) == e,
{
    lemma_folded_fixpoint(e);
}

/// Evaluation of a node to a compile-time constant, where its operands are
/// already literal.
pub trait EvalConstant {
    /// What this node folds to, at the model level.
    spec fn constant_model(&self) -> Option<ExprKindV>;

    /// Fold this node, or return `None` when its operands are not literal.
    fn eval_constant(&self) -> (r: Option<ExprKind>)
        ensures
            match r {
                Some(k) => self.constant_model() == Some(crate::resolved::kind_view(k)),
                None => self.constant_model() is None,
            },
    ;
}

impl EvalConstant for ExprKind {
    open spec fn constant_model(&self) -> Option<ExprKindV> {
        eval_constant_v(crate::resolved::kind_view(*self))
    }

    fn eval_constant(&self) -> (r: Option<ExprKind>) {
        match self {
            ExprKind::Unary(expr) => expr.eval_constant(),
            ExprKind::Binary(expr) => expr.eval_constant(),
            _ => None,
        }
    }
}

impl EvalConstant for crate::resolved::UnaryExpr {
    open spec fn constant_model(&self) -> Option<ExprKindV> {
        eval_unary_v(self.op, crate::resolved::kind_view(self.expr.kind))
    }

    fn eval_constant(&self) -> (r: Option<ExprKind>) {
        match self.op {
            Operator::Sub => match self.expr.get_kind() {
                ExprKind::Integer(v) => Some(ExprKind::Integer((0i64).wrapping_sub(*v))),
                _ => None,
            },
            Operator::Not => match self.expr.get_kind() {
                ExprKind::Bool(v) => Some(ExprKind::Bool(!*v)),
                _ => None,
            },
            _ => None,
        }
    }
}

impl EvalConstant for crate::resolved::BinaryExpr {
    open spec fn constant_model(&self) -> Option<ExprKindV> {
        eval_binary_v(
            self.op,
            crate::resolved::kind_view(self.left.kind),
            crate::resolved::kind_view(self.right.kind),
        )
    }

    fn eval_constant(&self) -> (r: Option<ExprKind>) {
        match (self.left.get_kind(), self.right.get_kind()) {
            (ExprKind::Integer(a), ExprKind::Integer(b)) => {
                let x = *a;
                let y = *b;
                match self.op {
                    Operator::Add => Some(ExprKind::Integer(x.wrapping_add(y))),
                    Operator::Sub => Some(ExprKind::Integer(x.wrapping_sub(y))),
                    Operator::Equal => Some(ExprKind::Bool(x == y)),
                    Operator::NotEqual => Some(ExprKind::Bool(x != y)),
                    Operator::Less => Some(ExprKind::Bool(x < y)),
                    Operator::LessEqual => Some(ExprKind::Bool(x <= y)),
                    Operator::Greater => Some(ExprKind::Bool(x > y)),
                    Operator::GreaterEqual => Some(ExprKind::Bool(x >= y)),
                    _ => None,
                }
            },
            (ExprKind::Bool(a), ExprKind::Bool(b)) => {
                let x = *a;
                let y = *b;
                match self.op {
                    Operator::And => Some(ExprKind::Bool(x && y)),
                    Operator::Or => Some(ExprKind::Bool(x || y)),
                    Operator::Equal => Some(ExprKind::Bool(x == y)),
                    Operator::NotEqual => Some(ExprKind::Bool(x != y)),
                    _ => None,
                }
            },
            _ => None,
        }
    }
}

} // verus!
