//! The resolved abstract syntax tree: it mirrors the raw tree, but every name
//! carries a resolved symbol identity, statement forms are explicit, and every
//! expression node carries its resolved type.

use vstd::prelude::*;

use crate::symbol::{BlockId, FuncId, TypeId, VarId};
use crate::token::{Located, Operator, Span};

verus! {

/// A resolved identifier reference.
#[derive(Debug)]
pub struct IdentExpr {
    pub sym_id: VarId,
}

/// A resolved unary application.
#[derive(Debug)]
pub struct UnaryExpr {
    pub op: Operator,
    pub expr: Box<Expr>,
}

/// A resolved binary application.
#[derive(Debug)]
pub struct BinaryExpr {
    pub op: Operator,
    pub left: Box<Expr>,
    pub right: Box<Expr>,
}

/// A resolved call of a top-level function.
#[derive(Debug)]
pub struct CallExpr {
    pub callee: FuncId,
    pub args: Vec<Expr>,
}

/// The kind of a resolved expression.
#[derive(Debug)]
pub enum ExprKind {
    Unit,
    Integer(i64),
    Bool(bool),
    Identifier(IdentExpr),
    Unary(UnaryExpr),
    Binary(BinaryExpr),
    Call(CallExpr),
}

/// A resolved expression: its kind, its resolved type, and where it came from.
#[derive(Debug)]
pub struct Expr {
    pub kind: ExprKind,
    pub ty: TypeId,
    pub loc: Span,
}

impl Expr {
    pub fn get_kind(&self) -> (r: &ExprKind)
        ensures
            r == &self.kind,
    {
        &self.kind
    }
}

/// A resolved statement.
#[derive(Debug)]
pub enum Stmt {
    Block(Block),
    Expr(ExprStmt),
    Assign(AssignStmt),
    Let(LetStmt),
    If(IfStmt),
    Loop(LoopStmt),
    Return(ReturnStmt),
}

/// A resolved lexical block and the statements it holds.
#[derive(Debug)]
pub struct Block {
    pub block_id: BlockId,
    pub stmts: Vec<Stmt>,
}

/// A bare expression in statement position.
#[derive(Debug)]
pub struct ExprStmt {
    pub expr: Expr,
}

/// An assignment; the target must resolve to an identifier for code generation
/// to accept it.
#[derive(Debug)]
pub struct AssignStmt {
    pub target: Expr,
    pub value: Expr,
}

/// A `let` binding carrying its fresh variable identity.
#[derive(Debug)]
pub struct LetStmt {
    pub sym_id: VarId,
    pub name: Located<String>,
    pub ty: TypeId,
    pub value: Expr,
}

#[derive(Debug)]
pub struct IfStmt {
    pub cond: Expr,
    pub body: Block,
    pub else_body: Option<Block>,
}

#[derive(Debug)]
pub struct LoopStmt {
    pub body: Block,
}

#[derive(Debug)]
pub struct ReturnStmt {
    pub expr: Option<Expr>,
}

/// A resolved function signature: the symbol that phase-one registration
/// allocated for it.
#[derive(Debug)]
pub struct FunctionSig {
    pub func_id: FuncId,
}

/// A resolved function: its signature and its body, rooted at the entry block.
#[derive(Debug)]
pub struct Function {
    pub sig: FunctionSig,
    pub body: Block,
}

/// A resolved extern declaration: a signature with no body.
#[derive(Debug)]
pub struct ExternFunction(pub FunctionSig);

/// A resolved top-level item.
#[derive(Debug)]
pub enum Item {
    Function(Function),
    ExternFunction(ExternFunction),
}

/// A resolved compilation unit.
#[derive(Debug)]
pub struct ResolvedAST {
    pub items: Vec<Item>,
}

/// The mathematical model of a resolved expression.
#[verifier::ext_equal]
pub struct ExprV {
    pub kind: ExprKindV,
    pub ty: int,
    pub loc: Span,
}

/// The mathematical model of an expression kind.
#[verifier::ext_equal]
pub enum ExprKindV {
    Unit,
    Integer(i64),
    Bool(bool),
    Identifier(int),
    Unary(Operator, Box<ExprV>),
    Binary(Operator, Box<ExprV>, Box<ExprV>),
    Call(int, Seq<ExprV>),
}

/// The model of a resolved expression.
pub open spec fn expr_view(e: Expr) -> ExprV
    decreases e,
{
    ExprV { kind: kind_view(e.kind), ty: e.ty.0 as int, loc: e.loc }
}

/// The model of an expression kind.
pub open spec fn kind_view(k: ExprKind) -> ExprKindV
    decreases k,
{
    match k {
        ExprKind::Unit => ExprKindV::Unit,
        ExprKind::Integer(v) => ExprKindV::Integer(v),
        ExprKind::Bool(b) => ExprKindV::Bool(b),
        ExprKind::Identifier(id) => ExprKindV::Identifier(id.sym_id.0 as int),
        ExprKind::Unary(u) => ExprKindV::Unary(u.op, Box::new(expr_view(*u.expr))),
        ExprKind::Binary(b) => ExprKindV::Binary(
            b.op,
            Box::new(expr_view(*b.left)),
            Box::new(expr_view(*b.right)),
        ),
        ExprKind::Call(c) => ExprKindV::Call(c.callee.0 as int, args_view(c.args, 0)),
    }
}

/// The models of the arguments of a call, from index `i` on.
pub open spec fn args_view(args: Vec<Expr>, i: int) -> Seq<ExprV>
    decreases args, args.len() - i,
{
    if i < 0 || i >= args.len() {
        Seq::empty()
    } else {
        seq![expr_view(args[i])] + args_view(args, i + 1)
    }
}

pub proof fn lemma_args_view_len(args: Vec<Expr>, i: int)
    requires
        0 <= i <= args.len(),
    ensures
        args_view(args, i).len() == args.len() - i,
    decreases args@.len() - i,
{
    if i < args.len() {
        lemma_args_view_len(args, i + 1);
    }
}

pub proof fn lemma_args_view_index(args: Vec<Expr>, i: int, k: int)
    requires
        0 <= i <= k < args.len(),
    ensures
        args_view(args, i).len() == args.len() - i,
        args_view(args, i)[k - i] == expr_view(args[k]),
    decreases k - i,
{
    lemma_args_view_len(args, i);
    if i < k {
        lemma_args_view_index(args, i + 1, k);
    }
}

/// A structural size for resolved expressions, used as a recursion measure.
pub open spec fn expr_size(e: Expr) -> nat
    decreases e,
{
    kind_size(e.kind)
}

/// A structural size for expression kinds.
pub open spec fn kind_size(k: ExprKind) -> nat
    decreases k,
{
    match k {
        ExprKind::Unit => 1,
        ExprKind::Integer(_) => 1,
        ExprKind::Bool(_) => 1,
        ExprKind::Identifier(_) => 1,
        ExprKind::Unary(u) => 1 + expr_size(*u.expr),
        ExprKind::Binary(b) => 1 + expr_size(*b.left) + expr_size(*b.right),
        ExprKind::Call(c) => 1 + args_size(c.args, 0),
    }
}

/// The summed size of the expressions of a vector, from index `i` on.
pub open spec fn args_size(args: Vec<Expr>, i: int) -> nat
    decreases args, args.len() - i,
{
    if i < 0 || i >= args.len() {
        0
    } else {
        1 + expr_size(args[i]) + args_size(args, i + 1)
    }
}

pub proof fn lemma_args_size_elem(args: Vec<Expr>, i: int, k: int)
    requires
        0 <= i <= k < args.len(),
    ensures
        expr_size(args[k]) < args_size(args, i),
    decreases k - i,
{
    if i < k {
        lemma_args_size_elem(args, i + 1, k);
    }
}

/// The mathematical model of a resolved statement.
#[verifier::ext_equal]
pub enum StmtV {
    Block(BlockV),
    Expr(ExprV),
    Assign(ExprV, ExprV),
    Let(LetV),
    If(IfV),
    Loop(BlockV),
    Return(Option<ExprV>),
}

/// The mathematical model of a resolved block.
#[verifier::ext_equal]
pub struct BlockV {
    pub block_id: int,
    pub stmts: Seq<StmtV>,
}

/// The mathematical model of a `let` binding.
#[verifier::ext_equal]
pub struct LetV {
    pub sym_id: int,
    pub name: Seq<char>,
    pub ty: int,
    pub value: ExprV,
}

/// The mathematical model of an `if` statement.
#[verifier::ext_equal]
pub struct IfV {
    pub cond: ExprV,
    pub body: BlockV,
    pub else_body: Option<BlockV>,
}

/// The model of an optional block.
pub open spec fn opt_block_view(o: Option<Block>) -> Option<BlockV>
    decreases o,
{
    match o {
        Some(b) => Some(block_view(b)),
        None => None,
    }
}

/// The model of an optional expression.
pub open spec fn opt_expr_view(o: Option<Expr>) -> Option<ExprV>
    decreases o,
{
    match o {
        Some(e) => Some(expr_view(e)),
        None => None,
    }
}

/// The mathematical model of a resolved statement.
pub open spec fn stmt_view(s: Stmt) -> StmtV
    decreases s,
{
    match s {
        Stmt::Block(b) => StmtV::Block(block_view(b)),
        Stmt::Expr(es) => StmtV::Expr(expr_view(es.expr)),
        Stmt::Assign(a) => StmtV::Assign(expr_view(a.target), expr_view(a.value)),
        Stmt::Let(l) => StmtV::Let(
            LetV {
                sym_id: l.sym_id.0 as int,
                name: l.name.item@,
                ty: l.ty.0 as int,
                value: expr_view(l.value),
            },
        ),
        Stmt::If(i) => StmtV::If(
            IfV {
                cond: expr_view(i.cond),
                body: block_view(i.body),
                else_body: opt_block_view(i.else_body),
            },
        ),
        Stmt::Loop(l) => StmtV::Loop(block_view(l.body)),
        Stmt::Return(r) => StmtV::Return(opt_expr_view(r.expr)),
    }
}

/// The mathematical model of a resolved block.
pub open spec fn block_view(b: Block) -> BlockV
    decreases b,
{
    BlockV { block_id: b.block_id.0 as int, stmts: stmts_view(b.stmts, 0) }
}

/// The models of the statements of a block, from index `i` on.
pub open spec fn stmts_view(stmts: Vec<Stmt>, i: int) -> Seq<StmtV>
    decreases stmts, stmts.len() - i,
{
    if i < 0 || i >= stmts.len() {
        Seq::empty()
    } else {
        seq![stmt_view(stmts[i])] + stmts_view(stmts, i + 1)
    }
}

pub proof fn lemma_stmts_view_index(stmts: Vec<Stmt>, i: int, k: int)
    requires
        0 <= i <= k < stmts.len(),
    ensures
        stmts_view(stmts, i).len() == stmts.len() - i,
        stmts_view(stmts, i)[k - i] == stmt_view(stmts[k]),
    decreases k - i,
{
    lemma_stmts_view_len(stmts, i);
    if i < k {
        lemma_stmts_view_index(stmts, i + 1, k);
    }
}

pub proof fn lemma_stmts_view_len(stmts: Vec<Stmt>, i: int)
    requires
        0 <= i <= stmts.len(),
    ensures
        stmts_view(stmts, i).len() == stmts.len() - i,
    decreases stmts@.len() - i,
{
    if i < stmts.len() {
        lemma_stmts_view_len(stmts, i + 1);
    }
}

/// A structural size for statements, used as a recursion measure.
pub open spec fn stmt_size(s: Stmt) -> nat
    decreases s,
{
    match s {
        Stmt::Block(b) => 1 + block_size(b),
        Stmt::Expr(_) => 1,
        Stmt::Assign(_) => 1,
        Stmt::Let(_) => 1,
        Stmt::If(i) => 1 + block_size(i.body) + match i.else_body {
            Some(b) => block_size(b),
            None => 0,
        },
        Stmt::Loop(l) => 1 + block_size(l.body),
        Stmt::Return(_) => 1,
    }
}

/// A structural size for blocks.
pub open spec fn block_size(b: Block) -> nat
    decreases b,
{
    1 + stmts_size(b.stmts, 0)
}

/// The summed size of the statements of a vector, from index `i` on.
pub open spec fn stmts_size(stmts: Vec<Stmt>, i: int) -> nat
    decreases stmts, stmts.len() - i,
{
    if i < 0 || i >= stmts.len() {
        0
    } else {
        1 + stmt_size(stmts[i]) + stmts_size(stmts, i + 1)
    }
}

pub proof fn lemma_stmts_size_elem(stmts: Vec<Stmt>, i: int, k: int)
    requires
        0 <= i <= k < stmts.len(),
    ensures
        stmt_size(stmts[k]) < stmts_size(stmts, i),
    decreases k - i,
{
    if i < k {
        lemma_stmts_size_elem(stmts, i + 1, k);
    }
}

/// The mathematical model of a resolved item.
#[verifier::ext_equal]
pub enum ItemV {
    Function(int, BlockV),
    ExternFunction(int),
}

/// The mathematical model of a resolved item.
pub open spec fn item_view(it: Item) -> ItemV
    decreases it,
{
    match it {
        Item::Function(f) => ItemV::Function(f.sig.func_id.0 as int, block_view(f.body)),
        Item::ExternFunction(e) => ItemV::ExternFunction(e.0.func_id.0 as int),
    }
}

/// The models of the items of a unit, from index `i` on.
pub open spec fn items_view(items: Vec<Item>, i: int) -> Seq<ItemV>
    decreases items, items.len() - i,
{
    if i < 0 || i >= items.len() {
        Seq::empty()
    } else {
        seq![item_view(items[i])] + items_view(items, i + 1)
    }
}

pub proof fn lemma_items_view_len(items: Vec<Item>, i: int)
    requires
        0 <= i <= items.len(),
    ensures
        items_view(items, i).len() == items.len() - i,
    decreases items@.len() - i,
{
    if i < items.len() {
        lemma_items_view_len(items, i + 1);
    }
}

pub proof fn lemma_items_view_index(items: Vec<Item>, i: int, k: int)
    requires
        0 <= i <= k < items.len(),
    ensures
        items_view(items, i).len() == items.len() - i,
        items_view(items, i)[k - i] == item_view(items[k]),
    decreases k - i,
{
    lemma_items_view_len(items, i);
    if i < k {
        lemma_items_view_index(items, i + 1, k);
    }
}

/// The mathematical model of a resolved compilation unit.
pub open spec fn ast_view(a: ResolvedAST) -> Seq<ItemV> {
    items_view(a.items, 0)
}

} // verus!

verus! {

/// Appending one statement extends the block's model by that statement's model.
pub proof fn lemma_stmts_view_push(v1: Vec<Stmt>, v2: Vec<Stmt>, s: Stmt)
    requires
        v2@ == v1@.push(s),
    ensures
        stmts_view(v2, 0) == stmts_view(v1, 0) + seq![stmt_view(s)],
{
    lemma_stmts_view_push_from(v1, v2, s, 0);
}

proof fn lemma_stmts_view_push_from(v1: Vec<Stmt>, v2: Vec<Stmt>, s: Stmt, i: int)
    requires
        v2@ == v1@.push(s),
        0 <= i <= v1@.len(),
    ensures
        stmts_view(v2, i) =~= stmts_view(v1, i) + seq![stmt_view(s)],
    decreases v1@.len() - i,
{
    if i < v1@.len() {
        lemma_stmts_view_push_from(v1, v2, s, i + 1);
        assert(v2[i] == v1[i]);
        assert(stmts_view(v2, i) =~= stmts_view(v1, i) + seq![stmt_view(s)]);
    } else {
        assert(v2@.len() == i + 1);
        assert(v2[i] == s);
        assert(stmts_view(v2, i + 1) =~= Seq::<StmtV>::empty());
        assert(stmts_view(v2, i) =~= stmts_view(v1, i) + seq![stmt_view(s)]);
    }
}

/// Prepending one expression extends the argument models by that expression's
/// model, in front.
pub proof fn lemma_args_view_cons(v1: Vec<Expr>, v2: Vec<Expr>, e: Expr)
    requires
        v2@ == seq![e] + v1@,
    ensures
        args_view(v2, 0) == seq![expr_view(e)] + args_view(v1, 0),
{
    lemma_args_view_shift(v1, v2, e, 0);
    assert(v2[0] == e);
    assert(args_view(v2, 0) =~= seq![expr_view(e)] + args_view(v1, 0));
}

proof fn lemma_args_view_shift(v1: Vec<Expr>, v2: Vec<Expr>, e: Expr, i: int)
    requires
        v2@ == seq![e] + v1@,
        0 <= i <= v1@.len(),
    ensures
        args_view(v2, i + 1) =~= args_view(v1, i),
    decreases v1@.len() - i,
{
    if i < v1@.len() {
        lemma_args_view_shift(v1, v2, e, i + 1);
        assert(v2[i + 1] == v1[i]);
        assert(args_view(v2, i + 1) =~= args_view(v1, i));
    }
}

/// Appending one item extends the unit's model by that item's model.
pub proof fn lemma_items_view_push(v1: Vec<Item>, v2: Vec<Item>, it: Item)
    requires
        v2@ == v1@.push(it),
    ensures
        items_view(v2, 0) == items_view(v1, 0) + seq![item_view(it)],
{
    lemma_items_view_push_from(v1, v2, it, 0);
}

proof fn lemma_items_view_push_from(v1: Vec<Item>, v2: Vec<Item>, it: Item, i: int)
    requires
        v2@ == v1@.push(it),
        0 <= i <= v1@.len(),
    ensures
        items_view(v2, i) =~= items_view(v1, i) + seq![item_view(it)],
    decreases v1@.len() - i,
{
    if i < v1@.len() {
        lemma_items_view_push_from(v1, v2, it, i + 1);
        assert(v2[i] == v1[i]);
        assert(items_view(v2, i) =~= items_view(v1, i) + seq![item_view(it)]);
    } else {
        assert(v2@.len() == i + 1);
        assert(v2[i] == it);
        assert(items_view(v2, i + 1) =~= Seq::<ItemV>::empty());
        assert(items_view(v2, i) =~= items_view(v1, i) + seq![item_view(it)]);
    }
}

} // verus!
