//! The raw abstract syntax tree, as the parser builds it: a closed tagged union
//! over expressions, statement forms, and top-level items.

use vstd::prelude::*;

use crate::token::{Delimiter, Located, Operator, Span, Type};

verus! {

/// An ordered sequence of elements together with the separator kind used
/// between them. Element order is significant.
#[derive(Debug)]
pub struct Punctuated<T> {
    pub items: Vec<T>,
    pub sep: Delimiter,
}

/// A raw expression.
#[derive(Debug)]
pub enum Expr {
    Integer(Located<i64>),
    Bool(Located<bool>),
    Identifier(Located<String>),
    Unary(UnaryExpr),
    Binary(BinaryExpr),
    Call(CallExpr),
    Array(ArrayExpr),
    ArrayIndex(ArrayIndexExpr),
    Cast(CastExpr),
    Grouped(GroupedExpr),
    Block(BlockExpr),
    If(IfExpr),
    Loop(LoopExpr),
    Return(ReturnExpr),
}

#[derive(Debug)]
pub struct UnaryExpr {
    pub op: Located<Operator>,
    pub expr: Box<Expr>,
}

#[derive(Debug)]
pub struct BinaryExpr {
    pub op: Located<Operator>,
    pub left: Box<Expr>,
    pub right: Box<Expr>,
}

#[derive(Debug)]
pub struct CallExpr {
    pub callee: Box<Expr>,
    pub args: Punctuated<Expr>,
    pub loc: Span,
}

#[derive(Debug)]
pub struct ArrayExpr {
    pub elements: Punctuated<Expr>,
    pub loc: Span,
}

#[derive(Debug)]
pub struct ArrayIndexExpr {
    pub expr: Box<Expr>,
    pub index: Box<Expr>,
    pub loc: Span,
}

#[derive(Debug)]
pub struct CastExpr {
    pub expr: Box<Expr>,
    pub ty: Located<Type>,
}

#[derive(Debug)]
pub struct GroupedExpr {
    pub expr: Box<Expr>,
}

#[derive(Debug)]
pub struct BlockExpr {
    pub stmts: Vec<Stmt>,
    pub eval_expr: Option<Box<Expr>>,
    pub loc: Span,
}

#[derive(Debug)]
pub struct IfExpr {
    pub cond: Box<Expr>,
    pub body: BlockExpr,
    pub else_: Option<BlockExpr>,
    pub loc: Span,
}

#[derive(Debug)]
pub struct LoopExpr {
    pub body: BlockExpr,
    pub loc: Span,
}

#[derive(Debug)]
pub struct ReturnExpr {
    pub expr: Option<Box<Expr>>,
    pub loc: Span,
}

/// A raw statement.
#[derive(Debug)]
pub enum Stmt {
    /// A bare expression statement (an `if`, `loop`, `return`, block or call in
    /// statement position).
    Expr(Expr),
    Let(LetStmt),
    Assign(AssignStmt),
}

#[derive(Debug)]
pub struct LetStmt {
    pub name: Located<String>,
    pub ty: Option<Located<Type>>,
    pub value: Expr,
}

#[derive(Debug)]
pub struct AssignStmt {
    pub target: Expr,
    pub value: Expr,
}

/// A parameter: a name together with its declared type.
#[derive(Debug)]
pub struct Param {
    pub name: Located<String>,
    pub ty: Located<Type>,
}

/// A function signature: name, ordered parameters, return type.
#[derive(Debug)]
pub struct FunctionSig {
    pub name: Located<String>,
    pub params: Punctuated<Param>,
    pub ret_ty: Located<Type>,
}

#[derive(Debug)]
pub struct Function {
    pub sig: FunctionSig,
    pub body: BlockExpr,
}

#[derive(Debug)]
pub struct ExternFunction {
    pub sig: FunctionSig,
}

/// A top-level item.
#[derive(Debug)]
pub enum Item {
    Function(Function),
    ExternFunction(ExternFunction),
}

/// One parsed compilation unit.
#[derive(Debug)]
pub struct AST {
    pub items: Vec<Item>,
}

/// The mathematical model of a raw expression.
#[verifier::ext_equal]
pub enum ExprV {
    Integer(i64, Span),
    Bool(bool, Span),
    Identifier(String, Span),
    Unary(Operator, Span, Box<ExprV>),
    Binary(Operator, Span, Box<ExprV>, Box<ExprV>),
    Call(Box<ExprV>, Seq<ExprV>, Span),
    Array(Seq<ExprV>, Span),
    ArrayIndex(Box<ExprV>, Box<ExprV>, Span),
    Cast(Box<ExprV>, Type, Span),
    Grouped(Box<ExprV>),
    Block(BlockV),
    If(IfV),
    Loop(BlockV, Span),
    Return(Option<Box<ExprV>>, Span),
}

/// The mathematical model of a raw block.
#[verifier::ext_equal]
pub struct BlockV {
    pub stmts: Seq<StmtV>,
    pub eval_expr: Option<Box<ExprV>>,
    pub loc: Span,
}

/// The mathematical model of a raw `if`.
#[verifier::ext_equal]
pub struct IfV {
    pub cond: Box<ExprV>,
    pub body: BlockV,
    pub else_: Option<BlockV>,
    pub loc: Span,
}

/// The mathematical model of a raw statement.
#[verifier::ext_equal]
pub enum StmtV {
    Expr(ExprV),
    Let(String, Span, Option<Type>, ExprV),
    Assign(ExprV, ExprV),
}

/// The mathematical model of a parameter.
#[verifier::ext_equal]
pub struct ParamV {
    pub name: String,
    pub name_loc: Span,
    pub ty: Type,
    pub ty_loc: Span,
}

/// The mathematical model of a function signature.
#[verifier::ext_equal]
pub struct SigV {
    pub name: String,
    pub name_loc: Span,
    pub params: Seq<ParamV>,
    pub ret_ty: Type,
    pub ret_loc: Span,
}

/// The mathematical model of a top-level item.
#[verifier::ext_equal]
pub enum ItemV {
    Function(SigV, BlockV),
    ExternFunction(SigV),
}

/// The model of a raw expression.
pub open spec fn expr_v(e: Expr) -> ExprV
    decreases e, 1nat,
{
    match e {
        Expr::Integer(l) => ExprV::Integer(l.item, l.loc),
        Expr::Bool(l) => ExprV::Bool(l.item, l.loc),
        Expr::Identifier(l) => ExprV::Identifier(l.item, l.loc),
        Expr::Unary(u) => ExprV::Unary(u.op.item, u.op.loc, Box::new(expr_v(*u.expr))),
        Expr::Binary(b) => ExprV::Binary(
            b.op.item,
            b.op.loc,
            Box::new(expr_v(*b.left)),
            Box::new(expr_v(*b.right)),
        ),
        Expr::Call(c) => ExprV::Call(Box::new(expr_v(*c.callee)), exprs_v(c.args.items, 0), c.loc),
        Expr::Array(a) => ExprV::Array(exprs_v(a.elements.items, 0), a.loc),
        Expr::ArrayIndex(ai) => ExprV::ArrayIndex(
            Box::new(expr_v(*ai.expr)),
            Box::new(expr_v(*ai.index)),
            ai.loc,
        ),
        Expr::Cast(c) => ExprV::Cast(Box::new(expr_v(*c.expr)), c.ty.item, c.ty.loc),
        Expr::Grouped(g) => ExprV::Grouped(Box::new(expr_v(*g.expr))),
        Expr::Block(b) => ExprV::Block(block_v(b)),
        Expr::If(i) => ExprV::If(
            IfV {
                cond: Box::new(expr_v(*i.cond)),
                body: block_v(i.body),
                else_: match i.else_ {
                    Some(b) => Some(block_v(b)),
                    None => None,
                },
                loc: i.loc,
            },
        ),
        Expr::Loop(l) => ExprV::Loop(block_v(l.body), l.loc),
        Expr::Return(r) => ExprV::Return(
            match r.expr {
                Some(e0) => Some(Box::new(expr_v(*e0))),
                None => None,
            },
            r.loc,
        ),
    }
}

/// The models of a list of expressions, from index `i` on.
pub open spec fn exprs_v(v: Vec<Expr>, i: int) -> Seq<ExprV>
    decreases v, v.len() - i, 2nat,
{
    if i < 0 || i >= v.len() {
        Seq::empty()
    } else {
        seq![expr_v(v[i])] + exprs_v(v, i + 1)
    }
}

/// The model of a raw block.
pub open spec fn block_v(b: BlockExpr) -> BlockV
    decreases b, 2nat,
{
    BlockV {
        stmts: stmts_v(b.stmts, 0),
        eval_expr: match b.eval_expr {
            Some(e) => Some(Box::new(expr_v(*e))),
            None => None,
        },
        loc: b.loc,
    }
}

/// The model of a raw statement.
pub open spec fn stmt_v(s: Stmt) -> StmtV
    decreases s, 1nat,
{
    match s {
        Stmt::Expr(e) => StmtV::Expr(expr_v(e)),
        Stmt::Let(l) => StmtV::Let(
            l.name.item,
            l.name.loc,
            match l.ty {
                Some(t) => Some(t.item),
                None => None,
            },
            expr_v(l.value),
        ),
        Stmt::Assign(a) => StmtV::Assign(expr_v(a.target), expr_v(a.value)),
    }
}

/// The models of a list of statements, from index `i` on.
pub open spec fn stmts_v(v: Vec<Stmt>, i: int) -> Seq<StmtV>
    decreases v, v.len() - i, 2nat,
{
    if i < 0 || i >= v.len() {
        Seq::empty()
    } else {
        seq![stmt_v(v[i])] + stmts_v(v, i + 1)
    }
}

/// The model of a parameter.
pub open spec fn param_v(p: Param) -> ParamV {
    ParamV { name: p.name.item, name_loc: p.name.loc, ty: p.ty.item, ty_loc: p.ty.loc }
}

/// The models of a parameter list, from index `i` on.
pub open spec fn params_v(v: Vec<Param>, i: int) -> Seq<ParamV>
    decreases v.len() - i,
{
    if i < 0 || i >= v.len() {
        Seq::empty()
    } else {
        seq![param_v(v[i])] + params_v(v, i + 1)
    }
}

/// The model of a function signature.
pub open spec fn sig_v(s: FunctionSig) -> SigV {
    SigV {
        name: s.name.item,
        name_loc: s.name.loc,
        params: params_v(s.params.items, 0),
        ret_ty: s.ret_ty.item,
        ret_loc: s.ret_ty.loc,
    }
}

/// The model of a top-level item.
pub open spec fn item_v(it: Item) -> ItemV
    decreases it,
{
    match it {
        Item::Function(f) => ItemV::Function(sig_v(f.sig), block_v(f.body)),
        Item::ExternFunction(e) => ItemV::ExternFunction(sig_v(e.sig)),
    }
}

/// The models of a list of items, from index `i` on.
pub open spec fn items_v(v: Vec<Item>, i: int) -> Seq<ItemV>
    decreases v.len() - i,
{
    if i < 0 || i >= v.len() {
        Seq::empty()
    } else {
        seq![item_v(v[i])] + items_v(v, i + 1)
    }
}

/// Prepending one expression extends the list's model by that expression's
/// model, in front.
pub proof fn lemma_exprs_v_cons(v1: Vec<Expr>, v2: Vec<Expr>, e: Expr)
    requires
        v2@ == seq![e] + v1@,
    ensures
        exprs_v(v2, 0) == seq![expr_v(e)] + exprs_v(v1, 0),
{
    lemma_exprs_v_shift(v1, v2, e, 0);
    assert(v2[0] == e);
    assert(exprs_v(v2, 0) =~= seq![expr_v(e)] + exprs_v(v1, 0));
}

proof fn lemma_exprs_v_shift(v1: Vec<Expr>, v2: Vec<Expr>, e: Expr, i: int)
    requires
        v2@ == seq![e] + v1@,
        0 <= i <= v1@.len(),
    ensures
        exprs_v(v2, i + 1) =~= exprs_v(v1, i),
    decreases v1@.len() - i,
{
    if i < v1@.len() {
        lemma_exprs_v_shift(v1, v2, e, i + 1);
        assert(v2[i + 1] == v1[i]);
        assert(exprs_v(v2, i + 1) =~= exprs_v(v1, i));
    }
}

/// Prepending one statement extends the list's model by that statement's
/// model, in front.
pub proof fn lemma_stmts_v_cons(v1: Vec<Stmt>, v2: Vec<Stmt>, s: Stmt)
    requires
        v2@ == seq![s] + v1@,
    ensures
        stmts_v(v2, 0) == seq![stmt_v(s)] + stmts_v(v1, 0),
{
    lemma_stmts_v_shift(v1, v2, s, 0);
    assert(v2[0] == s);
    assert(stmts_v(v2, 0) =~= seq![stmt_v(s)] + stmts_v(v1, 0));
}

proof fn lemma_stmts_v_shift(v1: Vec<Stmt>, v2: Vec<Stmt>, s: Stmt, i: int)
    requires
        v2@ == seq![s] + v1@,
        0 <= i <= v1@.len(),
    ensures
        stmts_v(v2, i + 1) =~= stmts_v(v1, i),
    decreases v1@.len() - i,
{
    if i < v1@.len() {
        lemma_stmts_v_shift(v1, v2, s, i + 1);
        assert(v2[i + 1] == v1[i]);
        assert(stmts_v(v2, i + 1) =~= stmts_v(v1, i));
    }
}

/// Prepending one parameter extends the list's model by that parameter's
/// model, in front.
pub proof fn lemma_params_v_cons(v1: Vec<Param>, v2: Vec<Param>, p: Param)
    requires
        v2@ == seq![p] + v1@,
    ensures
        params_v(v2, 0) == seq![param_v(p)] + params_v(v1, 0),
{
    lemma_params_v_shift(v1, v2, p, 0);
    assert(v2[0] == p);
    assert(params_v(v2, 0) =~= seq![param_v(p)] + params_v(v1, 0));
}

proof fn lemma_params_v_shift(v1: Vec<Param>, v2: Vec<Param>, p: Param, i: int)
    requires
        v2@ == seq![p] + v1@,
        0 <= i <= v1@.len(),
    ensures
        params_v(v2, i + 1) =~= params_v(v1, i),
    decreases v1@.len() - i,
{
    if i < v1@.len() {
        lemma_params_v_shift(v1, v2, p, i + 1);
        assert(v2[i + 1] == v1[i]);
        assert(params_v(v2, i + 1) =~= params_v(v1, i));
    }
}

/// Prepending one item extends the unit's model by that item's model, in front.
pub proof fn lemma_items_v_cons(v1: Vec<Item>, v2: Vec<Item>, it: Item)
    requires
        v2@ == seq![it] + v1@,
    ensures
        items_v(v2, 0) == seq![item_v(it)] + items_v(v1, 0),
{
    lemma_items_v_shift(v1, v2, it, 0);
    assert(v2[0] == it);
    assert(items_v(v2, 0) =~= seq![item_v(it)] + items_v(v1, 0));
}

proof fn lemma_items_v_shift(v1: Vec<Item>, v2: Vec<Item>, it: Item, i: int)
    requires
        v2@ == seq![it] + v1@,
        0 <= i <= v1@.len(),
    ensures
        items_v(v2, i + 1) =~= items_v(v1, i),
    decreases v1@.len() - i,
{
    if i < v1@.len() {
        lemma_items_v_shift(v1, v2, it, i + 1);
        assert(v2[i + 1] == v1[i]);
        assert(items_v(v2, i + 1) =~= items_v(v1, i));
    }
}

} // verus!
