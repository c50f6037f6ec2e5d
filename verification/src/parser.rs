//! The parser: a precedence-climbing expression engine with prefix and infix
//! handlers dispatched on the token kind, and a recursive-descent declaration
//! and statement parser on top of it.
//!
//! Every parsing function is pinned to the specification-level parser (`p_*`):
//! its contract states exactly which tree the consumed tokens derive and which
//! diagnostics a failure pushes. Failures push a diagnostic at the offending
//! token and yield no value; parsing goes on elsewhere where it can, so one run
//! reports many problems. Every parsing function consumes at least one token
//! when it succeeds and never rewinds, which is also its termination argument.

use vstd::prelude::*;

use crate::ast::{
    block_v, expr_v, exprs_v, item_v, items_v, lemma_exprs_v_cons, lemma_items_v_cons,
    lemma_params_v_cons, lemma_stmts_v_cons, param_v, params_v, sig_v, stmt_v, stmts_v,
    ArrayExpr, ArrayIndexExpr, AssignStmt, BinaryExpr, BlockExpr, BlockV, CallExpr, CastExpr, Expr,
    ExprV, ExternFunction, Function, FunctionSig, GroupedExpr, IfExpr, IfV, Item, ItemV, LetStmt,
    LoopExpr, Param, ParamV, Punctuated, ReturnExpr, SigV, Stmt, StmtV, UnaryExpr, AST,
};
use crate::token::{Delimiter, Keyword, Located, LiteralKeyword, Operator, Span, Token, TokenKind};

verus! {

/// A failure of the expression engine.
#[derive(Debug)]
pub enum ExprParseError {
    /// No prefix handler accepts the token.
    UnexpectedToken(TokenKind),
    /// No infix handler accepts the token where a continuation was required.
    UnexpectedInfixOperator(TokenKind),
}

/// A failure of the declaration parser.
#[derive(Debug)]
pub enum FunctionParseError {
    /// A function whose parsed body is not a block expression.
    MissingFunctionBody { func_name: String },
}

/// A parse diagnostic.
#[derive(Debug)]
pub enum ParseError {
    Expr(ExprParseError),
    Func(FunctionParseError),
    ExpectedDelimiter(Delimiter),
    ExpectedKeyword(Keyword),
    ExpectedIdentifier,
    ExpectedType,
}

/// The parser's working state: the token stream, the cursor, and the
/// diagnostics collected so far.
pub struct ParseContext {
    pub tokens: Vec<Token>,
    pub pos: usize,
    pub errors: Vec<Located<ParseError>>,
}

/// The binding powers, a strict total order deciding when the engine stops
/// extending an expression with infix operators.
#[derive(Debug, Clone, Copy, PartialEq, Eq, Structural)]
pub enum BindingPower {
    Zero,
    LogicalAdditive,
    LogicalMultiplicative,
    Comparative,
    Additive,
    Cast,
    Unary,
    Call,
    ArrayIndex,
    Primary,
}

impl BindingPower {
    /// The numeric level of this power.
    pub open spec fn spec_val(self) -> u8 {
        match self {
            BindingPower::Zero => 0,
            BindingPower::LogicalAdditive => 1,
            BindingPower::LogicalMultiplicative => 2,
            BindingPower::Comparative => 3,
            BindingPower::Additive => 4,
            BindingPower::Cast => 5,
            BindingPower::Unary => 6,
            BindingPower::Call => 7,
            BindingPower::ArrayIndex => 8,
            BindingPower::Primary => 9,
        }
    }

    /// The numeric level of this power.
    pub fn val(self) -> (r: u8)
        ensures
            r == self.spec_val(),
    {
        match self {
            BindingPower::Zero => 0,
            BindingPower::LogicalAdditive => 1,
            BindingPower::LogicalMultiplicative => 2,
            BindingPower::Comparative => 3,
            BindingPower::Additive => 4,
            BindingPower::Cast => 5,
            BindingPower::Unary => 6,
            BindingPower::Call => 7,
            BindingPower::ArrayIndex => 8,
            BindingPower::Primary => 9,
        }
    }
}

/// The model of the parser's cursor and diagnostics.
#[verifier::ext_equal]
pub struct PStV {
    pub pos: int,
    pub errors: Seq<Located<ParseError>>,
}

impl ParseContext {
    /// The cursor never leaves the token stream.
    pub open spec fn wf(&self) -> bool {
        self.pos <= self.tokens@.len()
    }

    /// The model of this context's cursor and diagnostics.
    pub open spec fn pst(&self) -> PStV {
        PStV { pos: self.pos as int, errors: self.errors@ }
    }

    /// A fresh context over a token stream.
    pub fn new(tokens: Vec<Token>) -> (r: ParseContext)
        ensures
            r.wf(),
            r.tokens == tokens,
            r.pos == 0,
            r.errors@.len() == 0,
    {
        ParseContext { tokens, pos: 0, errors: Vec::new() }
    }

    /// Record one diagnostic.
    pub fn push_error(&mut self, e: Located<ParseError>)
        requires
            old(self).wf(),
        ensures
            final(self).wf(),
            final(self).tokens == old(self).tokens,
            final(self).pos == old(self).pos,
            final(self).errors@ == old(self).errors@.push(e),
    {
        self.errors.push(e);
    }

    /// Whether the cursor has reached the end of the stream.
    pub fn at_end(&self) -> (r: bool)
        requires
            self.wf(),
        ensures
            r == (self.pos == self.tokens@.len()),
    {
        self.pos >= self.tokens.len()
    }

    /// The location of the token under the cursor, or an empty one at the end.
    pub fn here(&self) -> (r: Span)
        requires
            self.wf(),
        ensures
            r == here_loc(self.tokens@, self.pos as int),
    {
        if self.pos < self.tokens.len() {
            self.tokens[self.pos].loc
        } else {
            Span { start: 0, end: 0 }
        }
    }
}

/// The location of the token at `p`, or an empty one past the end.
pub open spec fn here_loc(toks: Seq<Token>, p: int) -> Span {
    if 0 <= p < toks.len() {
        toks[p].loc
    } else {
        Span { start: 0, end: 0 }
    }
}

/// The state with one more diagnostic.
pub open spec fn p_push(st: PStV, item: ParseError, loc: Span) -> PStV {
    PStV { pos: st.pos, errors: st.errors.push(Located { item, loc }) }
}

/// The state with the cursor advanced past one token.
pub open spec fn p_bump(st: PStV) -> PStV {
    PStV { pos: st.pos + 1, errors: st.errors }
}

/// Whether the token at the cursor is the given delimiter.
pub open spec fn delim_at(toks: Seq<Token>, p: int, d: Delimiter) -> bool {
    0 <= p < toks.len() && match toks[p].kind {
        TokenKind::Delimiter(d2) => d2 == d,
        _ => false,
    }
}

/// Whether the token at the cursor is the given keyword.
pub open spec fn kw_at(toks: Seq<Token>, p: int, k: Keyword) -> bool {
    0 <= p < toks.len() && match toks[p].kind {
        TokenKind::Keyword(k2) => k2 == k,
        _ => false,
    }
}

/// Whether the token at the cursor is an identifier.
pub open spec fn ident_at(toks: Seq<Token>, p: int) -> bool {
    0 <= p < toks.len() && toks[p].kind is Identifier
}

/// Whether the token at the cursor is a type name.
pub open spec fn type_at(toks: Seq<Token>, p: int) -> bool {
    0 <= p < toks.len() && toks[p].kind is Type
}

/// Advance the cursor past the token under it.
fn bump(ctx: &mut ParseContext)
    requires
        old(ctx).wf(),
        old(ctx).pos < old(ctx).tokens@.len(),
    ensures
        final(ctx).wf(),
        final(ctx).tokens == old(ctx).tokens,
        final(ctx).errors == old(ctx).errors,
        final(ctx).pos == old(ctx).pos + 1,
        final(ctx).pst() == p_bump(old(ctx).pst()),
{
    proof {
        assert(ctx.tokens.len() == ctx.tokens@.len());
    }
    ctx.pos = ctx.pos + 1;
    assert(ctx.pst() =~= p_bump(old(ctx).pst()));
}

/// An equal copy of a token kind.
fn dup_kind(k: &TokenKind) -> (r: TokenKind)
    ensures
        r == *k,
{
    match k {
        TokenKind::Literal(v) => TokenKind::Literal(*v),
        TokenKind::LiteralKeyword(w) => TokenKind::LiteralKeyword(*w),
        TokenKind::Identifier(s) => TokenKind::Identifier(s.clone()),
        TokenKind::Keyword(w) => TokenKind::Keyword(*w),
        TokenKind::Operator(o) => TokenKind::Operator(*o),
        TokenKind::Delimiter(d) => TokenKind::Delimiter(*d),
        TokenKind::Type(t) => TokenKind::Type(*t),
        TokenKind::Eof => TokenKind::Eof,
    }
}

/// Consume the expected delimiter, or push a diagnostic and fail.
fn match_delimiter(ctx: &mut ParseContext, d: Delimiter) -> (r: Option<Span>)
    requires
        old(ctx).wf(),
    ensures
        final(ctx).wf(),
        final(ctx).tokens == old(ctx).tokens,
        match r {
            Some(l) => delim_at(old(ctx).tokens@, old(ctx).pos as int, d) && final(ctx).pst()
                == p_bump(old(ctx).pst()) && l == here_loc(old(ctx).tokens@, old(ctx).pos as int),
            None => !delim_at(old(ctx).tokens@, old(ctx).pos as int, d) && final(ctx).pst()
                == p_push(
                old(ctx).pst(),
                ParseError::ExpectedDelimiter(d),
                here_loc(old(ctx).tokens@, old(ctx).pos as int),
            ),
        },
{
    if ctx.pos < ctx.tokens.len() {
        let matches_d = match &ctx.tokens[ctx.pos].kind {
            TokenKind::Delimiter(d2) => *d2 == d,
            _ => false,
        };
        if matches_d {
            let loc = ctx.tokens[ctx.pos].loc;
            bump(ctx);
            return Some(loc);
        }
    }
    let loc = ctx.here();
    ctx.push_error(Located { item: ParseError::ExpectedDelimiter(d), loc });
    assert(ctx.pst() =~= p_push(
        old(ctx).pst(),
        ParseError::ExpectedDelimiter(d),
        here_loc(old(ctx).tokens@, old(ctx).pos as int),
    ));
    None
}

/// Consume the expected keyword, or push a diagnostic and fail.
fn match_keyword(ctx: &mut ParseContext, k: Keyword) -> (r: Option<Span>)
    requires
        old(ctx).wf(),
    ensures
        final(ctx).wf(),
        final(ctx).tokens == old(ctx).tokens,
        match r {
            Some(l) => kw_at(old(ctx).tokens@, old(ctx).pos as int, k) && final(ctx).pst()
                == p_bump(old(ctx).pst()) && l == here_loc(old(ctx).tokens@, old(ctx).pos as int),
            None => !kw_at(old(ctx).tokens@, old(ctx).pos as int, k) && final(ctx).pst() == p_push(
                old(ctx).pst(),
                ParseError::ExpectedKeyword(k),
                here_loc(old(ctx).tokens@, old(ctx).pos as int),
            ),
        },
{
    if ctx.pos < ctx.tokens.len() {
        let matches_k = match &ctx.tokens[ctx.pos].kind {
            TokenKind::Keyword(k2) => *k2 == k,
            _ => false,
        };
        if matches_k {
            let loc = ctx.tokens[ctx.pos].loc;
            bump(ctx);
            return Some(loc);
        }
    }
    let loc = ctx.here();
    ctx.push_error(Located { item: ParseError::ExpectedKeyword(k), loc });
    assert(ctx.pst() =~= p_push(
        old(ctx).pst(),
        ParseError::ExpectedKeyword(k),
        here_loc(old(ctx).tokens@, old(ctx).pos as int),
    ));
    None
}

/// Consume an identifier, or push a diagnostic and fail.
fn match_identifier(ctx: &mut ParseContext) -> (r: Option<Located<String>>)
    requires
        old(ctx).wf(),
    ensures
        final(ctx).wf(),
        final(ctx).tokens == old(ctx).tokens,
        match r {
            Some(l) => ident_at(old(ctx).tokens@, old(ctx).pos as int) && final(ctx).pst()
                == p_bump(old(ctx).pst()) && Some(l.item) == (match old(ctx).tokens@[old(
                ctx,
            ).pos as int].kind {
                TokenKind::Identifier(s) => Some(s),
                _ => None,
            }) && l.loc == here_loc(old(ctx).tokens@, old(ctx).pos as int),
            None => !ident_at(old(ctx).tokens@, old(ctx).pos as int) && final(ctx).pst() == p_push(
                old(ctx).pst(),
                ParseError::ExpectedIdentifier,
                here_loc(old(ctx).tokens@, old(ctx).pos as int),
            ),
        },
{
    if ctx.pos < ctx.tokens.len() {
        let got: Option<(String, Span)> = match &ctx.tokens[ctx.pos].kind {
            TokenKind::Identifier(s) => Some((s.clone(), ctx.tokens[ctx.pos].loc)),
            _ => None,
        };
        match got {
            Some((s, loc)) => {
                bump(ctx);
                return Some(Located { item: s, loc });
            },
            None => {},
        }
    }
    let loc = ctx.here();
    ctx.push_error(Located { item: ParseError::ExpectedIdentifier, loc });
    assert(ctx.pst() =~= p_push(
        old(ctx).pst(),
        ParseError::ExpectedIdentifier,
        here_loc(old(ctx).tokens@, old(ctx).pos as int),
    ));
    None
}

/// Consume a type name, or push a diagnostic and fail.
fn match_type(ctx: &mut ParseContext) -> (r: Option<Located<crate::token::Type>>)
    requires
        old(ctx).wf(),
    ensures
        final(ctx).wf(),
        final(ctx).tokens == old(ctx).tokens,
        match r {
            Some(l) => type_at(old(ctx).tokens@, old(ctx).pos as int) && final(ctx).pst() == p_bump(
                old(ctx).pst(),
            ) && Some(l.item) == (match old(ctx).tokens@[old(ctx).pos as int].kind {
                TokenKind::Type(t) => Some(t),
                _ => None,
            }) && l.loc == here_loc(old(ctx).tokens@, old(ctx).pos as int),
            None => !type_at(old(ctx).tokens@, old(ctx).pos as int) && final(ctx).pst() == p_push(
                old(ctx).pst(),
                ParseError::ExpectedType,
                here_loc(old(ctx).tokens@, old(ctx).pos as int),
            ),
        },
{
    if ctx.pos < ctx.tokens.len() {
        let got: Option<(crate::token::Type, Span)> = match &ctx.tokens[ctx.pos].kind {
            TokenKind::Type(t) => Some((*t, ctx.tokens[ctx.pos].loc)),
            _ => None,
        };
        match got {
            Some((t, loc)) => {
                bump(ctx);
                return Some(Located { item: t, loc });
            },
            None => {},
        }
    }
    let loc = ctx.here();
    ctx.push_error(Located { item: ParseError::ExpectedType, loc });
    assert(ctx.pst() =~= p_push(
        old(ctx).pst(),
        ParseError::ExpectedType,
        here_loc(old(ctx).tokens@, old(ctx).pos as int),
    ));
    None
}

// ------------------------------------------------------------------
// The specification-level parser: one `p_*` function per parsing function,
// defining exactly which tree the tokens derive and which diagnostics come
// out. The progress guards (`.pos <= st.pos`) are never taken by the
// executable parser, which consumes at least one token wherever it succeeds.
// ------------------------------------------------------------------

/// The prefix form the engine dispatches on, per token kind.
pub open spec fn p_primary(toks: Seq<Token>, st: PStV) -> (PStV, Option<ExprV>) {
    if 0 <= st.pos < toks.len() {
        let tok = toks[st.pos];
        match tok.kind {
            TokenKind::Literal(v) => (p_bump(st), Some(ExprV::Integer(v, tok.loc))),
            TokenKind::LiteralKeyword(w) => (
                p_bump(st),
                Some(ExprV::Bool(w is True, tok.loc)),
            ),
            TokenKind::Identifier(s) => (p_bump(st), Some(ExprV::Identifier(s, tok.loc))),
            _ => (st, None),
        }
    } else {
        (st, None)
    }
}

/// A prefix `-` or `!`: the operand parses at `Unary` power, above every
/// binary operator, so `- 1 + 2` derives `(-1) + 2`.
pub open spec fn p_prefix_unary(toks: Seq<Token>, st: PStV) -> (PStV, Option<ExprV>)
    decreases toks.len() - st.pos, 1nat,
{
    if 0 <= st.pos < toks.len() {
        let tok = toks[st.pos];
        match tok.kind {
            TokenKind::Operator(o) => {
                let (st1, inner) = p_expr_bp(
                    toks,
                    p_bump(st),
                    BindingPower::Unary.spec_val(),
                );
                (st1, match inner {
                    Some(e) => Some(ExprV::Unary(o, tok.loc, Box::new(e))),
                    None => None,
                })
            },
            k => (
                p_push(st, ParseError::Expr(ExprParseError::UnexpectedToken(k)), tok.loc),
                None,
            ),
        }
    } else {
        (
            p_push(
                st,
                ParseError::Expr(ExprParseError::UnexpectedToken(TokenKind::Eof)),
                here_loc(toks, st.pos),
            ),
            None,
        )
    }
}

/// A parenthesised grouping.
pub open spec fn p_group(toks: Seq<Token>, st: PStV) -> (PStV, Option<ExprV>)
    decreases toks.len() - st.pos, 1nat,
{
    if delim_at(toks, st.pos, Delimiter::ParenOpen) {
        let (st1, inner) = p_expr_bp(toks, p_bump(st), BindingPower::Zero.spec_val());
        match inner {
            Some(e) => if delim_at(toks, st1.pos, Delimiter::ParenClose) {
                (p_bump(st1), Some(ExprV::Grouped(Box::new(e))))
            } else {
                (
                    p_push(
                        st1,
                        ParseError::ExpectedDelimiter(Delimiter::ParenClose),
                        here_loc(toks, st1.pos),
                    ),
                    None,
                )
            },
            None => (st1, None),
        }
    } else {
        (
            p_push(
                st,
                ParseError::ExpectedDelimiter(Delimiter::ParenOpen),
                here_loc(toks, st.pos),
            ),
            None,
        )
    }
}

/// A comma-separated expression list up to (and consuming) `close`: the
/// separator is consumed between elements only, a trailing comma is accepted,
/// and zero elements is valid.
pub open spec fn p_expr_list(toks: Seq<Token>, st: PStV, close: Delimiter) -> (
    PStV,
    Option<Seq<ExprV>>,
)
    decreases toks.len() - st.pos, 4nat,
{
    if !(0 <= st.pos < toks.len()) {
        (p_push(st, ParseError::ExpectedDelimiter(close), here_loc(toks, st.pos)), None)
    } else if delim_at(toks, st.pos, close) {
        (p_bump(st), Some(Seq::empty()))
    } else {
        let (st1, n) = p_expr(toks, st);
        match n {
            None => (st1, None),
            Some(e) => {
                let st2 = if delim_at(toks, st1.pos, Delimiter::Comma) {
                    p_bump(st1)
                } else {
                    st1
                };
                if st2.pos <= st.pos || st2.pos > toks.len() {
                    (st2, None)
                } else {
                    let (st3, rest) = p_expr_list(toks, st2, close);
                    (st3, match rest {
                        Some(r) => Some(seq![e] + r),
                        None => None,
                    })
                }
            },
        }
    }
}

/// An array literal.
pub open spec fn p_array(toks: Seq<Token>, st: PStV) -> (PStV, Option<ExprV>)
    decreases toks.len() - st.pos, 1nat,
{
    if delim_at(toks, st.pos, Delimiter::BracketOpen) {
        let open = toks[st.pos].loc;
        let (st1, items) = p_expr_list(toks, p_bump(st), Delimiter::BracketClose);
        (st1, match items {
            Some(es) => Some(ExprV::Array(es, open)),
            None => None,
        })
    } else {
        (
            p_push(
                st,
                ParseError::ExpectedDelimiter(Delimiter::BracketOpen),
                here_loc(toks, st.pos),
            ),
            None,
        )
    }
}

/// A call continuation: the argument list after the callee.
pub open spec fn p_call(toks: Seq<Token>, st: PStV, left: ExprV) -> (PStV, Option<ExprV>)
    decreases toks.len() - st.pos, 5nat,
{
    if delim_at(toks, st.pos, Delimiter::ParenOpen) {
        let open = toks[st.pos].loc;
        let (st1, items) = p_expr_list(toks, p_bump(st), Delimiter::ParenClose);
        (st1, match items {
            Some(es) => Some(ExprV::Call(Box::new(left), es, open)),
            None => None,
        })
    } else {
        (
            p_push(
                st,
                ParseError::ExpectedDelimiter(Delimiter::ParenOpen),
                here_loc(toks, st.pos),
            ),
            None,
        )
    }
}

/// An indexing continuation after the indexed expression.
pub open spec fn p_index(toks: Seq<Token>, st: PStV, left: ExprV) -> (PStV, Option<ExprV>)
    decreases toks.len() - st.pos, 5nat,
{
    if delim_at(toks, st.pos, Delimiter::BracketOpen) {
        let open = toks[st.pos].loc;
        let (st1, inner) = p_expr(toks, p_bump(st));
        match inner {
            Some(e) => if delim_at(toks, st1.pos, Delimiter::BracketClose) {
                (p_bump(st1), Some(ExprV::ArrayIndex(Box::new(left), Box::new(e), open)))
            } else {
                (
                    p_push(
                        st1,
                        ParseError::ExpectedDelimiter(Delimiter::BracketClose),
                        here_loc(toks, st1.pos),
                    ),
                    None,
                )
            },
            None => (st1, None),
        }
    } else {
        (
            p_push(
                st,
                ParseError::ExpectedDelimiter(Delimiter::BracketOpen),
                here_loc(toks, st.pos),
            ),
            None,
        )
    }
}

/// A cast continuation after the cast expression.
pub open spec fn p_cast(toks: Seq<Token>, st: PStV, left: ExprV) -> (PStV, Option<ExprV>) {
    if kw_at(toks, st.pos, Keyword::As) {
        let st1 = p_bump(st);
        if type_at(toks, st1.pos) {
            let t = toks[st1.pos];
            (p_bump(st1), match t.kind {
                TokenKind::Type(t0) => Some(ExprV::Cast(Box::new(left), t0, t.loc)),
                _ => None,
            })
        } else {
            (p_push(st1, ParseError::ExpectedType, here_loc(toks, st1.pos)), None)
        }
    } else {
        (
            p_push(st, ParseError::ExpectedKeyword(Keyword::As), here_loc(toks, st.pos)),
            None,
        )
    }
}

/// A binary-operator continuation after its left operand: the right side parses
/// at the operator's own power, so an equal-power operator to the right does
/// not extend it — every binary operator is left-associative.
pub open spec fn p_binary(toks: Seq<Token>, st: PStV, left: ExprV, bp: u8) -> (PStV, Option<ExprV>)
    decreases toks.len() - st.pos, 1nat,
{
    if 0 <= st.pos < toks.len() {
        let tok = toks[st.pos];
        match tok.kind {
            TokenKind::Operator(o) => {
                let (st1, rhs) = p_expr_bp(toks, p_bump(st), bp);
                (st1, match rhs {
                    Some(r) => Some(ExprV::Binary(o, tok.loc, Box::new(left), Box::new(r))),
                    None => None,
                })
            },
            k => (
                p_push(
                    st,
                    ParseError::Expr(ExprParseError::UnexpectedInfixOperator(k)),
                    tok.loc,
                ),
                None,
            ),
        }
    } else {
        (
            p_push(
                st,
                ParseError::Expr(ExprParseError::UnexpectedInfixOperator(TokenKind::Eof)),
                here_loc(toks, st.pos),
            ),
            None,
        )
    }
}

/// An `if` expression: condition, then-block, optional `else` block.
pub open spec fn p_if(toks: Seq<Token>, st: PStV) -> (PStV, Option<ExprV>)
    decreases toks.len() - st.pos, 1nat,
{
    if kw_at(toks, st.pos, Keyword::If) {
        let loc = toks[st.pos].loc;
        let (st1, cond) = p_expr_bp(toks, p_bump(st), BindingPower::Zero.spec_val());
        match cond {
            Some(c) => {
                if !(st.pos < st1.pos <= toks.len()) {
                    (st1, None)
                } else {
                    let (st2, body) = p_block(toks, st1);
                    match body {
                        Some(b) => if kw_at(toks, st2.pos, Keyword::Else) {
                            if st2.pos < st.pos {
                                (st2, None)
                            } else {
                            let (st3, els) = p_block(toks, p_bump(st2));
                            (st3, match els {
                                Some(eb) => Some(
                                    ExprV::If(
                                        IfV { cond: Box::new(c), body: b, else_: Some(eb), loc },
                                    ),
                                ),
                                None => None,
                            })
                            }
                        } else {
                            (
                                st2,
                                Some(
                                    ExprV::If(IfV { cond: Box::new(c), body: b, else_: None, loc }),
                                ),
                            )
                        },
                        None => (st2, None),
                    }
                }
            },
            None => (st1, None),
        }
    } else {
        (
            p_push(st, ParseError::ExpectedKeyword(Keyword::If), here_loc(toks, st.pos)),
            None,
        )
    }
}

/// A `loop` expression.
pub open spec fn p_loop(toks: Seq<Token>, st: PStV) -> (PStV, Option<ExprV>)
    decreases toks.len() - st.pos, 1nat,
{
    if kw_at(toks, st.pos, Keyword::Loop) {
        let loc = toks[st.pos].loc;
        let (st1, body) = p_block(toks, p_bump(st));
        (st1, match body {
            Some(b) => Some(ExprV::Loop(b, loc)),
            None => None,
        })
    } else {
        (
            p_push(st, ParseError::ExpectedKeyword(Keyword::Loop), here_loc(toks, st.pos)),
            None,
        )
    }
}

/// A `return` expression with its optional value: the value is omitted exactly
/// when a semicolon or closing brace follows directly.
pub open spec fn p_return(toks: Seq<Token>, st: PStV) -> (PStV, Option<ExprV>)
    decreases toks.len() - st.pos, 1nat,
{
    if kw_at(toks, st.pos, Keyword::Return) {
        let loc = toks[st.pos].loc;
        let st1 = p_bump(st);
        let bare = !(0 <= st1.pos < toks.len()) || delim_at(toks, st1.pos, Delimiter::Semicolon)
            || delim_at(toks, st1.pos, Delimiter::BraceClose);
        if bare {
            (st1, Some(ExprV::Return(None, loc)))
        } else {
            let (st2, inner) = p_expr(toks, st1);
            (st2, match inner {
                Some(e) => Some(ExprV::Return(Some(Box::new(e)), loc)),
                None => None,
            })
        }
    } else {
        (
            p_push(st, ParseError::ExpectedKeyword(Keyword::Return), here_loc(toks, st.pos)),
            None,
        )
    }
}

/// The nud dispatch and the led loop of the engine: one expression, extended by
/// infix continuations whose power strictly exceeds `min_bp`. A token with no
/// prefix form fails with `UnexpectedToken`.
pub open spec fn p_expr_bp(toks: Seq<Token>, st: PStV, min_bp: u8) -> (PStV, Option<ExprV>)
    decreases toks.len() - st.pos, 2nat,
{
    if !(0 <= st.pos < toks.len()) {
        (
            p_push(
                st,
                ParseError::Expr(ExprParseError::UnexpectedToken(TokenKind::Eof)),
                here_loc(toks, st.pos),
            ),
            None,
        )
    } else {
        let (st1, first) = match toks[st.pos].kind {
            TokenKind::Literal(_) => p_primary(toks, st),
            TokenKind::LiteralKeyword(_) => p_primary(toks, st),
            TokenKind::Identifier(_) => p_primary(toks, st),
            TokenKind::Operator(Operator::Sub) => p_prefix_unary(toks, st),
            TokenKind::Operator(Operator::Not) => p_prefix_unary(toks, st),
            TokenKind::Delimiter(Delimiter::ParenOpen) => p_group(toks, st),
            TokenKind::Delimiter(Delimiter::BracketOpen) => p_array(toks, st),
            TokenKind::Delimiter(Delimiter::BraceOpen) => {
                let (s0, b) = p_block(toks, st);
                (s0, match b {
                    Some(b0) => Some(ExprV::Block(b0)),
                    None => None,
                })
            },
            TokenKind::Keyword(Keyword::If) => p_if(toks, st),
            TokenKind::Keyword(Keyword::Loop) => p_loop(toks, st),
            TokenKind::Keyword(Keyword::Return) => p_return(toks, st),
            k => (
                p_push(
                    st,
                    ParseError::Expr(ExprParseError::UnexpectedToken(k)),
                    toks[st.pos].loc,
                ),
                None,
            ),
        };
        match first {
            None => (st1, None),
            Some(left) => if st1.pos <= st.pos || st1.pos > toks.len() {
                (st1, Some(left))
            } else {
                p_leds(toks, st1, min_bp, left)
            },
        }
    }
}

/// The binding power an infix token continues an expression with, or `None`
/// when the token cannot continue one.
pub open spec fn led_power(k: TokenKind) -> Option<BindingPower> {
    match k {
        TokenKind::Operator(op) => match op {
            Operator::Add => Some(BindingPower::Additive),
            Operator::Sub => Some(BindingPower::Additive),
            Operator::And => Some(BindingPower::LogicalMultiplicative),
            Operator::Or => Some(BindingPower::LogicalAdditive),
            Operator::Not => None,
            _ => Some(BindingPower::Comparative),
        },
        TokenKind::Delimiter(Delimiter::ParenOpen) => Some(BindingPower::Call),
        TokenKind::Delimiter(Delimiter::BracketOpen) => Some(BindingPower::ArrayIndex),
        TokenKind::Keyword(Keyword::As) => Some(BindingPower::Cast),
        _ => None,
    }
}

/// The engine's infix loop: stop when the stream ends, when the token has no
/// infix form, or when its power is at or under the caller's minimum; otherwise
/// dispatch the continuation and go on from its result.
pub open spec fn p_leds(toks: Seq<Token>, st: PStV, min_bp: u8, left: ExprV) -> (
    PStV,
    Option<ExprV>,
)
    decreases toks.len() - st.pos, 6nat,
{
    if !(0 <= st.pos < toks.len()) {
        (st, Some(left))
    } else {
        match led_power(toks[st.pos].kind) {
            None => (st, Some(left)),
            Some(bp) => if bp.spec_val() <= min_bp {
                (st, Some(left))
            } else {
                let (st1, step) = match bp {
                    BindingPower::Call => p_call(toks, st, left),
                    BindingPower::ArrayIndex => p_index(toks, st, left),
                    BindingPower::Cast => p_cast(toks, st, left),
                    _ => p_binary(toks, st, left, bp.spec_val()),
                };
                match step {
                    None => (st1, None),
                    Some(e) => if st1.pos <= st.pos || st1.pos > toks.len() {
                        (st1, None)
                    } else {
                        p_leds(toks, st1, min_bp, e)
                    },
                }
            },
        }
    }
}

/// One expression from the lowest binding power.
pub open spec fn p_expr(toks: Seq<Token>, st: PStV) -> (PStV, Option<ExprV>)
    decreases toks.len() - st.pos, 3nat,
{
    p_expr_bp(toks, st, BindingPower::Zero.spec_val())
}

/// A `let` statement: name, optional declared type, `=`, initializer, `;`.
pub open spec fn p_let(toks: Seq<Token>, st: PStV) -> (PStV, Option<StmtV>)
    decreases toks.len() - st.pos, 3nat,
{
    if kw_at(toks, st.pos, Keyword::Let) {
        let st1 = p_bump(st);
        if ident_at(toks, st1.pos) {
            let name_tok = toks[st1.pos];
            let st2 = p_bump(st1);
            let (st3, ty) = if type_at(toks, st2.pos) {
                (p_bump(st2), match toks[st2.pos].kind {
                    TokenKind::Type(t) => Some(t),
                    _ => None,
                })
            } else {
                (st2, None)
            };
            if delim_at(toks, st3.pos, Delimiter::Assign) {
                let (st4, value) = p_expr(toks, p_bump(st3));
                match value {
                    Some(v) => if delim_at(toks, st4.pos, Delimiter::Semicolon) {
                        (p_bump(st4), match name_tok.kind {
                            TokenKind::Identifier(s) => Some(
                                StmtV::Let(s, name_tok.loc, ty, v),
                            ),
                            _ => None,
                        })
                    } else {
                        (
                            p_push(
                                st4,
                                ParseError::ExpectedDelimiter(Delimiter::Semicolon),
                                here_loc(toks, st4.pos),
                            ),
                            None,
                        )
                    },
                    None => (st4, None),
                }
            } else {
                (
                    p_push(
                        st3,
                        ParseError::ExpectedDelimiter(Delimiter::Assign),
                        here_loc(toks, st3.pos),
                    ),
                    None,
                )
            }
        } else {
            (p_push(st1, ParseError::ExpectedIdentifier, here_loc(toks, st1.pos)), None)
        }
    } else {
        (
            p_push(st, ParseError::ExpectedKeyword(Keyword::Let), here_loc(toks, st.pos)),
            None,
        )
    }
}

/// Whether an expression is brace-shaped, so it stands as a statement without a
/// semicolon.
pub open spec fn brace_shaped(e: ExprV) -> bool {
    e is Block || e is If || e is Loop
}

/// The contents of a block after its opening brace: statements until the
/// closing brace, with an optional trailing value expression directly before
/// it.
pub open spec fn p_block_items(toks: Seq<Token>, st: PStV) -> (
    PStV,
    Option<(Seq<StmtV>, Option<ExprV>)>,
)
    decreases toks.len() - st.pos, 4nat,
{
    if !(0 <= st.pos < toks.len()) {
        (
            p_push(
                st,
                ParseError::ExpectedDelimiter(Delimiter::BraceClose),
                here_loc(toks, st.pos),
            ),
            None,
        )
    } else if delim_at(toks, st.pos, Delimiter::BraceClose) {
        (p_bump(st), Some((Seq::empty(), None)))
    } else if kw_at(toks, st.pos, Keyword::Let) {
        let (st1, n) = p_let(toks, st);
        match n {
            None => (st1, None),
            Some(sv) => if st1.pos <= st.pos || st1.pos > toks.len() {
                (st1, None)
            } else {
                let (st2, rest) = p_block_items(toks, st1);
                (st2, match rest {
                    Some(r) => Some((seq![sv] + r.0, r.1)),
                    None => None,
                })
            },
        }
    } else {
        let (st1, n) = p_expr(toks, st);
        match n {
            None => (st1, None),
            Some(e) => if st1.pos < st.pos {
                (st1, None)
            } else if delim_at(toks, st1.pos, Delimiter::Assign) {
                let (st2, value) = p_expr(toks, p_bump(st1));
                match value {
                    None => (st2, None),
                    Some(v) => if delim_at(toks, st2.pos, Delimiter::Semicolon) {
                        let st3 = p_bump(st2);
                        if st3.pos <= st.pos || st3.pos > toks.len() {
                            (st3, None)
                        } else {
                            let (st4, rest) = p_block_items(toks, st3);
                            (st4, match rest {
                                Some(r) => Some((seq![StmtV::Assign(e, v)] + r.0, r.1)),
                                None => None,
                            })
                        }
                    } else {
                        (
                            p_push(
                                st2,
                                ParseError::ExpectedDelimiter(Delimiter::Semicolon),
                                here_loc(toks, st2.pos),
                            ),
                            None,
                        )
                    },
                }
            } else if delim_at(toks, st1.pos, Delimiter::Semicolon) {
                let st2 = p_bump(st1);
                if st2.pos <= st.pos || st2.pos > toks.len() {
                    (st2, None)
                } else {
                    let (st3, rest) = p_block_items(toks, st2);
                    (st3, match rest {
                        Some(r) => Some((seq![StmtV::Expr(e)] + r.0, r.1)),
                        None => None,
                    })
                }
            } else if brace_shaped(e) {
                if st1.pos <= st.pos || st1.pos > toks.len() {
                    (st1, None)
                } else {
                    let (st2, rest) = p_block_items(toks, st1);
                    (st2, match rest {
                        Some(r) => Some((seq![StmtV::Expr(e)] + r.0, r.1)),
                        None => None,
                    })
                }
            } else if delim_at(toks, st1.pos, Delimiter::BraceClose) {
                (p_bump(st1), Some((Seq::empty(), Some(e))))
            } else {
                (
                    p_push(
                        st1,
                        ParseError::ExpectedDelimiter(Delimiter::Semicolon),
                        here_loc(toks, st1.pos),
                    ),
                    None,
                )
            },
        }
    }
}

/// A braced block.
pub open spec fn p_block(toks: Seq<Token>, st: PStV) -> (PStV, Option<BlockV>)
    decreases toks.len() - st.pos, 0nat,
{
    if delim_at(toks, st.pos, Delimiter::BraceOpen) {
        let open = toks[st.pos].loc;
        let (st1, body) = p_block_items(toks, p_bump(st));
        (st1, match body {
            Some(b) => Some(
                BlockV {
                    stmts: b.0,
                    eval_expr: match b.1 {
                        Some(e) => Some(Box::new(e)),
                        None => None,
                    },
                    loc: open,
                },
            ),
            None => None,
        })
    } else {
        (
            p_push(
                st,
                ParseError::ExpectedDelimiter(Delimiter::BraceOpen),
                here_loc(toks, st.pos),
            ),
            None,
        )
    }
}

/// A parameter list up to (and consuming) the closing parenthesis.
pub open spec fn p_params(toks: Seq<Token>, st: PStV) -> (PStV, Option<Seq<ParamV>>)
    decreases toks.len() - st.pos, 4nat,
{
    if !(0 <= st.pos < toks.len()) {
        (
            p_push(
                st,
                ParseError::ExpectedDelimiter(Delimiter::ParenClose),
                here_loc(toks, st.pos),
            ),
            None,
        )
    } else if delim_at(toks, st.pos, Delimiter::ParenClose) {
        (p_bump(st), Some(Seq::empty()))
    } else if ident_at(toks, st.pos) {
        let name_tok = toks[st.pos];
        let st1 = p_bump(st);
        if type_at(toks, st1.pos) {
            let ty_tok = toks[st1.pos];
            let st2 = p_bump(st1);
            let st3 = if delim_at(toks, st2.pos, Delimiter::Comma) {
                p_bump(st2)
            } else {
                st2
            };
            let (st4, rest) = p_params(toks, st3);
            (st4, match (rest, name_tok.kind, ty_tok.kind) {
                (Some(r), TokenKind::Identifier(s), TokenKind::Type(t)) => Some(
                    seq![
                        ParamV { name: s, name_loc: name_tok.loc, ty: t, ty_loc: ty_tok.loc },
                    ] + r,
                ),
                _ => None,
            })
        } else {
            (p_push(st1, ParseError::ExpectedType, here_loc(toks, st1.pos)), None)
        }
    } else {
        (p_push(st, ParseError::ExpectedIdentifier, here_loc(toks, st.pos)), None)
    }
}

/// A function signature: `func`, name, parameter list, and a return type that
/// defaults to unit when the body's brace (or a declaration's semicolon)
/// follows directly.
pub open spec fn p_sig(toks: Seq<Token>, st: PStV) -> (PStV, Option<SigV>)
    decreases toks.len() - st.pos, 6nat,
{
    if kw_at(toks, st.pos, Keyword::Func) {
        let st1 = p_bump(st);
        if ident_at(toks, st1.pos) {
            let name_tok = toks[st1.pos];
            let st2 = p_bump(st1);
            if delim_at(toks, st2.pos, Delimiter::ParenOpen) {
                let (st3, params) = p_params(toks, p_bump(st2));
                match params {
                    None => (st3, None),
                    Some(ps) => {
                        let at_body = delim_at(toks, st3.pos, Delimiter::BraceOpen) || delim_at(
                            toks,
                            st3.pos,
                            Delimiter::Semicolon,
                        );
                        if at_body {
                            (st3, match name_tok.kind {
                                TokenKind::Identifier(s) => Some(
                                    SigV {
                                        name: s,
                                        name_loc: name_tok.loc,
                                        params: ps,
                                        ret_ty: crate::token::Type::Unit,
                                        ret_loc: name_tok.loc,
                                    },
                                ),
                                _ => None,
                            })
                        } else if type_at(toks, st3.pos) {
                            let ty_tok = toks[st3.pos];
                            (p_bump(st3), match (name_tok.kind, ty_tok.kind) {
                                (TokenKind::Identifier(s), TokenKind::Type(t)) => Some(
                                    SigV {
                                        name: s,
                                        name_loc: name_tok.loc,
                                        params: ps,
                                        ret_ty: t,
                                        ret_loc: ty_tok.loc,
                                    },
                                ),
                                _ => None,
                            })
                        } else {
                            (
                                p_push(st3, ParseError::ExpectedType, here_loc(toks, st3.pos)),
                                None,
                            )
                        }
                    },
                }
            } else {
                (
                    p_push(
                        st2,
                        ParseError::ExpectedDelimiter(Delimiter::ParenOpen),
                        here_loc(toks, st2.pos),
                    ),
                    None,
                )
            }
        } else {
            (p_push(st1, ParseError::ExpectedIdentifier, here_loc(toks, st1.pos)), None)
        }
    } else {
        (
            p_push(st, ParseError::ExpectedKeyword(Keyword::Func), here_loc(toks, st.pos)),
            None,
        )
    }
}

/// A function: its signature, then a body that must be a block expression —
/// anything else is a `MissingFunctionBody` error at the name.
pub open spec fn p_function(toks: Seq<Token>, st: PStV) -> (PStV, Option<ItemV>)
    decreases toks.len() - st.pos, 7nat,
{
    let (st1, sig) = p_sig(toks, st);
    match sig {
        None => (st1, None),
        Some(sg) => if !(st.pos <= st1.pos <= toks.len()) {
            (st1, None)
        } else {
            let (st2, body) = p_expr(toks, st1);
            match body {
                Some(ExprV::Block(b)) => (st2, Some(ItemV::Function(sg, b))),
                Some(_) => (
                    p_push(
                        st2,
                        ParseError::Func(
                            FunctionParseError::MissingFunctionBody { func_name: sg.name },
                        ),
                        sg.name_loc,
                    ),
                    None,
                ),
                None => (st2, None),
            }
        },
    }
}

/// An extern declaration: `extern`, a signature, a semicolon.
pub open spec fn p_extern(toks: Seq<Token>, st: PStV) -> (PStV, Option<ItemV>)
    decreases toks.len() - st.pos, 7nat,
{
    if kw_at(toks, st.pos, Keyword::Extern) {
        let (st1, sig) = p_sig(toks, p_bump(st));
        match sig {
            None => (st1, None),
            Some(sg) => if delim_at(toks, st1.pos, Delimiter::Semicolon) {
                (p_bump(st1), Some(ItemV::ExternFunction(sg)))
            } else {
                (
                    p_push(
                        st1,
                        ParseError::ExpectedDelimiter(Delimiter::Semicolon),
                        here_loc(toks, st1.pos),
                    ),
                    None,
                )
            },
        }
    } else {
        (
            p_push(st, ParseError::ExpectedKeyword(Keyword::Extern), here_loc(toks, st.pos)),
            None,
        )
    }
}

/// Every top-level item of the stream: a failed item leaves its diagnostics,
/// one token is skipped, and parsing goes on.
pub open spec fn p_items(toks: Seq<Token>, st: PStV) -> (PStV, Seq<ItemV>)
    decreases toks.len() - st.pos, 8nat,
{
    if !(0 <= st.pos < toks.len()) {
        (st, Seq::empty())
    } else {
        let is_extern = kw_at(toks, st.pos, Keyword::Extern);
        let is_func = kw_at(toks, st.pos, Keyword::Func);
        let (st1, n) = if is_extern {
            p_extern(toks, st)
        } else if is_func {
            p_function(toks, st)
        } else {
            (
                p_push(
                    st,
                    ParseError::Expr(ExprParseError::UnexpectedToken(toks[st.pos].kind)),
                    toks[st.pos].loc,
                ),
                None,
            )
        };
        match n {
            Some(iv) => if st1.pos <= st.pos || st1.pos > toks.len() {
                (st1, seq![iv])
            } else {
                let (st2, rest) = p_items(toks, st1);
                (st2, seq![iv] + rest)
            },
            None => {
                if st1.pos >= toks.len() || st1.pos < 0 {
                    (st1, Seq::empty())
                } else {
                    let st2 = p_bump(st1);
                    if st2.pos <= st.pos {
                        (st2, Seq::empty())
                    } else {
                        p_items(toks, st2)
                    }
                }
            },
        }
    }
}

/// What parsing a whole token stream yields: the aggregated diagnostics in
/// order of discovery, and the models of the items that parsed.
pub open spec fn p_parse(toks: Seq<Token>) -> (Seq<Located<ParseError>>, Seq<ItemV>) {
    let (st, items) = p_items(toks, PStV { pos: 0, errors: Seq::empty() });
    (st.errors, items)
}


// ------------------------------------------------------------------
// The executable parser, each function pinned to its model above.
// ------------------------------------------------------------------

/// Parse an expression with no left operand from the token under the cursor:
/// an integer literal, `true`/`false`, or an identifier.
pub fn parse_primary_expr(ctx: &mut ParseContext) -> (r: Option<Expr>)
    requires
        old(ctx).wf(),
        old(ctx).pos < old(ctx).tokens@.len(),
        match old(ctx).tokens@[old(ctx).pos as int].kind {
            TokenKind::Literal(_) => true,
            TokenKind::LiteralKeyword(_) => true,
            TokenKind::Identifier(_) => true,
            _ => false,
        },
    ensures
        final(ctx).wf(),
        final(ctx).tokens == old(ctx).tokens,
        final(ctx).pos == old(ctx).pos + 1,
        final(ctx).errors == old(ctx).errors,
        ({
            let m = p_primary(old(ctx).tokens@, old(ctx).pst());
            &&& final(ctx).pst() == m.0
            &&& (match r {
                Some(e) => m.1 == Some(expr_v(e)),
                None => m.1 is None,
            })
        }),
    decreases old(ctx).tokens@.len() - old(ctx).pos, 1nat,
{
    let loc = ctx.tokens[ctx.pos].loc;
    let out: Expr = match &ctx.tokens[ctx.pos].kind {
        TokenKind::Literal(v) => Expr::Integer(Located { item: *v, loc }),
        TokenKind::LiteralKeyword(kw) => Expr::Bool(
            Located {
                item: match kw {
                    LiteralKeyword::True => true,
                    LiteralKeyword::False => false,
                },
                loc,
            },
        ),
        TokenKind::Identifier(s) => Expr::Identifier(Located { item: s.clone(), loc }),
        _ => {
            return None;  // unreachable under the precondition
        },
    };
    bump(ctx);
    Some(out)
}

/// Parse a prefix `-` or `!` application.
pub fn parse_prefix_unary_expr(ctx: &mut ParseContext) -> (r: Option<Expr>)
    requires
        old(ctx).wf(),
    ensures
        final(ctx).wf(),
        final(ctx).tokens == old(ctx).tokens,
        old(ctx).pos <= final(ctx).pos,
        r is Some ==> old(ctx).pos < final(ctx).pos,
        ({
            let m = p_prefix_unary(old(ctx).tokens@, old(ctx).pst());
            &&& final(ctx).pst() == m.0
            &&& (match r {
                Some(e) => m.1 == Some(expr_v(e)),
                None => m.1 is None,
            })
        }),
    decreases old(ctx).tokens@.len() - old(ctx).pos, 1nat,
{
    if ctx.pos >= ctx.tokens.len() {
        let loc = ctx.here();
        ctx.push_error(
            Located { item: ParseError::Expr(ExprParseError::UnexpectedToken(TokenKind::Eof)), loc },
        );
        return None;
    }
    let loc = ctx.tokens[ctx.pos].loc;
    let op: Option<Operator> = match &ctx.tokens[ctx.pos].kind {
        TokenKind::Operator(o) => Some(*o),
        _ => None,
    };
    match op {
        Some(o) => {
            bump(ctx);
            match parse_expr_bp(ctx, BindingPower::Unary.val()) {
                Some(e) => Some(
                    Expr::Unary(UnaryExpr { op: Located { item: o, loc }, expr: Box::new(e) }),
                ),
                None => None,
            }
        },
        None => {
            let kind = dup_kind(&ctx.tokens[ctx.pos].kind);
            ctx.push_error(
                Located { item: ParseError::Expr(ExprParseError::UnexpectedToken(kind)), loc },
            );
            None
        },
    }
}

/// Parse a parenthesised grouping.
pub fn parse_group_expr(ctx: &mut ParseContext) -> (r: Option<Expr>)
    requires
        old(ctx).wf(),
    ensures
        final(ctx).wf(),
        final(ctx).tokens == old(ctx).tokens,
        old(ctx).pos <= final(ctx).pos,
        r is Some ==> old(ctx).pos < final(ctx).pos,
        ({
            let m = p_group(old(ctx).tokens@, old(ctx).pst());
            &&& final(ctx).pst() == m.0
            &&& (match r {
                Some(e) => m.1 == Some(expr_v(e)),
                None => m.1 is None,
            })
        }),
    decreases old(ctx).tokens@.len() - old(ctx).pos, 1nat,
{
    if match_delimiter(ctx, Delimiter::ParenOpen).is_none() {
        return None;
    }
    let inner = match parse_expr_bp(ctx, BindingPower::Zero.val()) {
        Some(e) => e,
        None => {
            return None;
        },
    };
    match match_delimiter(ctx, Delimiter::ParenClose) {
        Some(_) => Some(Expr::Grouped(GroupedExpr { expr: Box::new(inner) })),
        None => None,
    }
}

/// Parse a comma-separated expression list up to the closing delimiter.
fn parse_expr_list(ctx: &mut ParseContext, close: Delimiter) -> (r: Option<Vec<Expr>>)
    requires
        old(ctx).wf(),
    ensures
        final(ctx).wf(),
        final(ctx).tokens == old(ctx).tokens,
        old(ctx).pos <= final(ctx).pos,
        r is Some ==> old(ctx).pos < final(ctx).pos,
        ({
            let m = p_expr_list(old(ctx).tokens@, old(ctx).pst(), close);
            &&& final(ctx).pst() == m.0
            &&& (match r {
                Some(v) => m.1 == Some(exprs_v(v, 0)),
                None => m.1 is None,
            })
        }),
    decreases old(ctx).tokens@.len() - old(ctx).pos, 4nat,
{
    if ctx.at_end() {
        let loc = ctx.here();
        ctx.push_error(Located { item: ParseError::ExpectedDelimiter(close), loc });
        return None;
    }
    let at_close = match &ctx.tokens[ctx.pos].kind {
        TokenKind::Delimiter(d2) => *d2 == close,
        _ => false,
    };
    if at_close {
        bump(ctx);
        let v: Vec<Expr> = Vec::new();
        assert(exprs_v(v, 0) =~= Seq::<ExprV>::empty());
        return Some(v);
    }
    let e = match Expr::parse(ctx) {
        Some(e) => e,
        None => {
            return None;
        },
    };
    let at_comma = ctx.pos < ctx.tokens.len() && (match &ctx.tokens[ctx.pos].kind {
        TokenKind::Delimiter(Delimiter::Comma) => true,
        _ => false,
    });
    if at_comma {
        bump(ctx);
    }
    match parse_expr_list(ctx, close) {
        Some(mut v) => {
            let ghost v0 = v;
            v.insert(0, e);
            proof {
                assert(v@ =~= seq![e] + v0@);
                lemma_exprs_v_cons(v0, v, e);
            }
            Some(v)
        },
        None => None,
    }
}

/// Parse an array literal.
pub fn parse_array_expr(ctx: &mut ParseContext) -> (r: Option<Expr>)
    requires
        old(ctx).wf(),
    ensures
        final(ctx).wf(),
        final(ctx).tokens == old(ctx).tokens,
        old(ctx).pos <= final(ctx).pos,
        r is Some ==> old(ctx).pos < final(ctx).pos,
        ({
            let m = p_array(old(ctx).tokens@, old(ctx).pst());
            &&& final(ctx).pst() == m.0
            &&& (match r {
                Some(e) => m.1 == Some(expr_v(e)),
                None => m.1 is None,
            })
        }),
    decreases old(ctx).tokens@.len() - old(ctx).pos, 1nat,
{
    let open = match match_delimiter(ctx, Delimiter::BracketOpen) {
        Some(l) => l,
        None => {
            return None;
        },
    };
    match parse_expr_list(ctx, Delimiter::BracketClose) {
        Some(items) => Some(
            Expr::Array(
                ArrayExpr { elements: Punctuated { items, sep: Delimiter::Comma }, loc: open },
            ),
        ),
        None => None,
    }
}

/// Parse the argument list of a call, after the callee.
pub fn parse_call_expr(ctx: &mut ParseContext, left: Expr) -> (r: Option<Expr>)
    requires
        old(ctx).wf(),
    ensures
        final(ctx).wf(),
        final(ctx).tokens == old(ctx).tokens,
        old(ctx).pos <= final(ctx).pos,
        r is Some ==> old(ctx).pos < final(ctx).pos,
        ({
            let m = p_call(old(ctx).tokens@, old(ctx).pst(), expr_v(left));
            &&& final(ctx).pst() == m.0
            &&& (match r {
                Some(e) => m.1 == Some(expr_v(e)),
                None => m.1 is None,
            })
        }),
    decreases old(ctx).tokens@.len() - old(ctx).pos, 5nat,
{
    let open = match match_delimiter(ctx, Delimiter::ParenOpen) {
        Some(l) => l,
        None => {
            return None;
        },
    };
    match parse_expr_list(ctx, Delimiter::ParenClose) {
        Some(items) => Some(
            Expr::Call(
                CallExpr {
                    callee: Box::new(left),
                    args: Punctuated { items, sep: Delimiter::Comma },
                    loc: open,
                },
            ),
        ),
        None => None,
    }
}

/// Parse an indexing suffix, after the indexed expression.
pub fn parse_array_index_expr(ctx: &mut ParseContext, left: Expr) -> (r: Option<Expr>)
    requires
        old(ctx).wf(),
    ensures
        final(ctx).wf(),
        final(ctx).tokens == old(ctx).tokens,
        old(ctx).pos <= final(ctx).pos,
        r is Some ==> old(ctx).pos < final(ctx).pos,
        ({
            let m = p_index(old(ctx).tokens@, old(ctx).pst(), expr_v(left));
            &&& final(ctx).pst() == m.0
            &&& (match r {
                Some(e) => m.1 == Some(expr_v(e)),
                None => m.1 is None,
            })
        }),
    decreases old(ctx).tokens@.len() - old(ctx).pos, 5nat,
{
    let open = match match_delimiter(ctx, Delimiter::BracketOpen) {
        Some(l) => l,
        None => {
            return None;
        },
    };
    let index = match Expr::parse(ctx) {
        Some(e) => e,
        None => {
            return None;
        },
    };
    match match_delimiter(ctx, Delimiter::BracketClose) {
        Some(_) => Some(
            Expr::ArrayIndex(
                ArrayIndexExpr { expr: Box::new(left), index: Box::new(index), loc: open },
            ),
        ),
        None => None,
    }
}

/// Parse a cast suffix, after the cast expression.
pub fn parse_cast_expr(ctx: &mut ParseContext, left: Expr) -> (r: Option<Expr>)
    requires
        old(ctx).wf(),
    ensures
        final(ctx).wf(),
        final(ctx).tokens == old(ctx).tokens,
        old(ctx).pos <= final(ctx).pos,
        r is Some ==> old(ctx).pos < final(ctx).pos,
        ({
            let m = p_cast(old(ctx).tokens@, old(ctx).pst(), expr_v(left));
            &&& final(ctx).pst() == m.0
            &&& (match r {
                Some(e) => m.1 == Some(expr_v(e)),
                None => m.1 is None,
            })
        }),
    decreases old(ctx).tokens@.len() - old(ctx).pos, 1nat,
{
    if match_keyword(ctx, Keyword::As).is_none() {
        return None;
    }
    match match_type(ctx) {
        Some(t) => Some(Expr::Cast(CastExpr { expr: Box::new(left), ty: t })),
        None => None,
    }
}

/// Parse a binary-operator continuation, after its left operand. All binary
/// operators are left-associative: the right side parses at the operator's own
/// power, so an equal-power operator to the right does not extend it.
pub fn parse_binary_expr(ctx: &mut ParseContext, left: Expr, bp: u8) -> (r: Option<Expr>)
    requires
        old(ctx).wf(),
    ensures
        final(ctx).wf(),
        final(ctx).tokens == old(ctx).tokens,
        old(ctx).pos <= final(ctx).pos,
        r is Some ==> old(ctx).pos < final(ctx).pos,
        ({
            let m = p_binary(old(ctx).tokens@, old(ctx).pst(), expr_v(left), bp);
            &&& final(ctx).pst() == m.0
            &&& (match r {
                Some(e) => m.1 == Some(expr_v(e)),
                None => m.1 is None,
            })
        }),
    decreases old(ctx).tokens@.len() - old(ctx).pos, 1nat,
{
    if ctx.pos >= ctx.tokens.len() {
        let loc = ctx.here();
        ctx.push_error(
            Located {
                item: ParseError::Expr(ExprParseError::UnexpectedInfixOperator(TokenKind::Eof)),
                loc,
            },
        );
        return None;
    }
    let loc = ctx.tokens[ctx.pos].loc;
    let op: Option<Operator> = match &ctx.tokens[ctx.pos].kind {
        TokenKind::Operator(o) => Some(*o),
        _ => None,
    };
    match op {
        Some(o) => {
            bump(ctx);
            match parse_expr_bp(ctx, bp) {
                Some(rhs) => Some(
                    Expr::Binary(
                        BinaryExpr {
                            op: Located { item: o, loc },
                            left: Box::new(left),
                            right: Box::new(rhs),
                        },
                    ),
                ),
                None => None,
            }
        },
        None => {
            let kind = dup_kind(&ctx.tokens[ctx.pos].kind);
            ctx.push_error(
                Located {
                    item: ParseError::Expr(ExprParseError::UnexpectedInfixOperator(kind)),
                    loc,
                },
            );
            None
        },
    }
}

/// Parse an `if` expression: condition, then-block, optional `else` block.
fn parse_if_expr(ctx: &mut ParseContext) -> (r: Option<Expr>)
    requires
        old(ctx).wf(),
    ensures
        final(ctx).wf(),
        final(ctx).tokens == old(ctx).tokens,
        old(ctx).pos <= final(ctx).pos,
        r is Some ==> old(ctx).pos < final(ctx).pos,
        ({
            let m = p_if(old(ctx).tokens@, old(ctx).pst());
            &&& final(ctx).pst() == m.0
            &&& (match r {
                Some(e) => m.1 == Some(expr_v(e)),
                None => m.1 is None,
            })
        }),
    decreases old(ctx).tokens@.len() - old(ctx).pos, 1nat,
{
    let loc = match match_keyword(ctx, Keyword::If) {
        Some(l) => l,
        None => {
            return None;
        },
    };
    let cond = match parse_expr_bp(ctx, BindingPower::Zero.val()) {
        Some(e) => e,
        None => {
            return None;
        },
    };
    let body = match parse_block_expr(ctx) {
        Some(b) => b,
        None => {
            return None;
        },
    };
    let has_else = ctx.pos < ctx.tokens.len() && (match &ctx.tokens[ctx.pos].kind {
        TokenKind::Keyword(Keyword::Else) => true,
        _ => false,
    });
    if has_else {
        bump(ctx);
        match parse_block_expr(ctx) {
            Some(e) => Some(Expr::If(IfExpr { cond: Box::new(cond), body, else_: Some(e), loc })),
            None => None,
        }
    } else {
        Some(Expr::If(IfExpr { cond: Box::new(cond), body, else_: None, loc }))
    }
}

/// Parse a `loop` expression.
fn parse_loop_expr(ctx: &mut ParseContext) -> (r: Option<Expr>)
    requires
        old(ctx).wf(),
    ensures
        final(ctx).wf(),
        final(ctx).tokens == old(ctx).tokens,
        old(ctx).pos <= final(ctx).pos,
        r is Some ==> old(ctx).pos < final(ctx).pos,
        ({
            let m = p_loop(old(ctx).tokens@, old(ctx).pst());
            &&& final(ctx).pst() == m.0
            &&& (match r {
                Some(e) => m.1 == Some(expr_v(e)),
                None => m.1 is None,
            })
        }),
    decreases old(ctx).tokens@.len() - old(ctx).pos, 1nat,
{
    let loc = match match_keyword(ctx, Keyword::Loop) {
        Some(l) => l,
        None => {
            return None;
        },
    };
    match parse_block_expr(ctx) {
        Some(b) => Some(Expr::Loop(LoopExpr { body: b, loc })),
        None => None,
    }
}

/// Parse a `return` expression with its optional value.
fn parse_return_expr(ctx: &mut ParseContext) -> (r: Option<Expr>)
    requires
        old(ctx).wf(),
    ensures
        final(ctx).wf(),
        final(ctx).tokens == old(ctx).tokens,
        old(ctx).pos <= final(ctx).pos,
        r is Some ==> old(ctx).pos < final(ctx).pos,
        ({
            let m = p_return(old(ctx).tokens@, old(ctx).pst());
            &&& final(ctx).pst() == m.0
            &&& (match r {
                Some(e) => m.1 == Some(expr_v(e)),
                None => m.1 is None,
            })
        }),
    decreases old(ctx).tokens@.len() - old(ctx).pos, 1nat,
{
    let loc = match match_keyword(ctx, Keyword::Return) {
        Some(l) => l,
        None => {
            return None;
        },
    };
    let bare = ctx.pos >= ctx.tokens.len() || (match &ctx.tokens[ctx.pos].kind {
        TokenKind::Delimiter(Delimiter::Semicolon) => true,
        TokenKind::Delimiter(Delimiter::BraceClose) => true,
        _ => false,
    });
    if bare {
        Some(Expr::Return(ReturnExpr { expr: None, loc }))
    } else {
        match Expr::parse(ctx) {
            Some(e) => Some(Expr::Return(ReturnExpr { expr: Some(Box::new(e)), loc })),
            None => None,
        }
    }
}

/// The binding power an infix token continues an expression with.
fn led_power_x(k: &TokenKind) -> (r: Option<BindingPower>)
    ensures
        r == led_power(*k),
{
    match k {
        TokenKind::Operator(op) => match op {
            Operator::Add => Some(BindingPower::Additive),
            Operator::Sub => Some(BindingPower::Additive),
            Operator::And => Some(BindingPower::LogicalMultiplicative),
            Operator::Or => Some(BindingPower::LogicalAdditive),
            Operator::Not => None,
            _ => Some(BindingPower::Comparative),
        },
        TokenKind::Delimiter(Delimiter::ParenOpen) => Some(BindingPower::Call),
        TokenKind::Delimiter(Delimiter::BracketOpen) => Some(BindingPower::ArrayIndex),
        TokenKind::Keyword(Keyword::As) => Some(BindingPower::Cast),
        _ => None,
    }
}

/// The engine's infix continuation: extend `left` while the token under the
/// cursor has an infix form whose power exceeds `min_bp`.
fn parse_leds(ctx: &mut ParseContext, min_bp: u8, left: Expr) -> (r: Option<Expr>)
    requires
        old(ctx).wf(),
    ensures
        final(ctx).wf(),
        final(ctx).tokens == old(ctx).tokens,
        old(ctx).pos <= final(ctx).pos,
        ({
            let m = p_leds(old(ctx).tokens@, old(ctx).pst(), min_bp, expr_v(left));
            &&& final(ctx).pst() == m.0
            &&& (match r {
                Some(e) => m.1 == Some(expr_v(e)),
                None => m.1 is None,
            })
        }),
    decreases old(ctx).tokens@.len() - old(ctx).pos, 6nat,
{
    if ctx.pos >= ctx.tokens.len() {
        return Some(left);
    }
    let led = led_power_x(&ctx.tokens[ctx.pos].kind);
    let bp = match led {
        Some(p) => p,
        None => {
            return Some(left);
        },
    };
    if bp.val() <= min_bp {
        return Some(left);
    }
    let step: Option<Expr> = match bp {
        BindingPower::Call => parse_call_expr(ctx, left),
        BindingPower::ArrayIndex => parse_array_index_expr(ctx, left),
        BindingPower::Cast => parse_cast_expr(ctx, left),
        _ => parse_binary_expr(ctx, left, bp.val()),
    };
    match step {
        Some(e) => parse_leds(ctx, min_bp, e),
        None => None,
    }
}

/// The precedence-climbing engine: parse one expression, extending it with
/// infix continuations whose power exceeds `min_bp`.
pub fn parse_expr_bp(ctx: &mut ParseContext, min_bp: u8) -> (r: Option<Expr>)
    requires
        old(ctx).wf(),
    ensures
        final(ctx).wf(),
        final(ctx).tokens == old(ctx).tokens,
        old(ctx).pos <= final(ctx).pos,
        r is Some ==> old(ctx).pos < final(ctx).pos,
        ({
            let m = p_expr_bp(old(ctx).tokens@, old(ctx).pst(), min_bp);
            &&& final(ctx).pst() == m.0
            &&& (match r {
                Some(e) => m.1 == Some(expr_v(e)),
                None => m.1 is None,
            })
        }),
    decreases old(ctx).tokens@.len() - old(ctx).pos, 2nat,
{
    if ctx.pos >= ctx.tokens.len() {
        let loc = ctx.here();
        ctx.push_error(
            Located { item: ParseError::Expr(ExprParseError::UnexpectedToken(TokenKind::Eof)), loc },
        );
        return None;
    }
    // prefix (nud) dispatch on the token kind
    let nud_kind: u8 = match &ctx.tokens[ctx.pos].kind {
        TokenKind::Literal(_) => 0,
        TokenKind::LiteralKeyword(_) => 0,
        TokenKind::Identifier(_) => 0,
        TokenKind::Operator(Operator::Sub) => 1,
        TokenKind::Operator(Operator::Not) => 1,
        TokenKind::Delimiter(Delimiter::ParenOpen) => 2,
        TokenKind::Delimiter(Delimiter::BracketOpen) => 3,
        TokenKind::Delimiter(Delimiter::BraceOpen) => 4,
        TokenKind::Keyword(Keyword::If) => 5,
        TokenKind::Keyword(Keyword::Loop) => 6,
        TokenKind::Keyword(Keyword::Return) => 7,
        _ => 8,
    };
    let first: Option<Expr> = if nud_kind == 0 {
        parse_primary_expr(ctx)
    } else if nud_kind == 1 {
        parse_prefix_unary_expr(ctx)
    } else if nud_kind == 2 {
        parse_group_expr(ctx)
    } else if nud_kind == 3 {
        parse_array_expr(ctx)
    } else if nud_kind == 4 {
        match parse_block_expr(ctx) {
            Some(b) => Some(Expr::Block(b)),
            None => None,
        }
    } else if nud_kind == 5 {
        parse_if_expr(ctx)
    } else if nud_kind == 6 {
        parse_loop_expr(ctx)
    } else if nud_kind == 7 {
        parse_return_expr(ctx)
    } else {
        let loc = ctx.tokens[ctx.pos].loc;
        let kind = dup_kind(&ctx.tokens[ctx.pos].kind);
        ctx.push_error(
            Located { item: ParseError::Expr(ExprParseError::UnexpectedToken(kind)), loc },
        );
        return None;
    };
    match first {
        Some(left) => parse_leds(ctx, min_bp, left),
        None => None,
    }
}

impl Expr {
    /// Parse one expression from the lowest binding power.
    pub fn parse(ctx: &mut ParseContext) -> (r: Option<Expr>)
        requires
            old(ctx).wf(),
        ensures
            final(ctx).wf(),
            final(ctx).tokens == old(ctx).tokens,
            old(ctx).pos <= final(ctx).pos,
            r is Some ==> old(ctx).pos < final(ctx).pos,
            ({
                let m = p_expr(old(ctx).tokens@, old(ctx).pst());
                &&& final(ctx).pst() == m.0
                &&& (match r {
                    Some(e) => m.1 == Some(expr_v(e)),
                    None => m.1 is None,
                })
            }),
        decreases old(ctx).tokens@.len() - old(ctx).pos, 3nat,
    {
        parse_expr_bp(ctx, BindingPower::Zero.val())
    }
}

/// Parse a `let` statement, its `let` keyword included.
fn parse_let_stmt(ctx: &mut ParseContext) -> (r: Option<Stmt>)
    requires
        old(ctx).wf(),
    ensures
        final(ctx).wf(),
        final(ctx).tokens == old(ctx).tokens,
        old(ctx).pos <= final(ctx).pos,
        r is Some ==> old(ctx).pos < final(ctx).pos,
        ({
            let m = p_let(old(ctx).tokens@, old(ctx).pst());
            &&& final(ctx).pst() == m.0
            &&& (match r {
                Some(s) => m.1 == Some(stmt_v(s)),
                None => m.1 is None,
            })
        }),
    decreases old(ctx).tokens@.len() - old(ctx).pos, 3nat,
{
    if match_keyword(ctx, Keyword::Let).is_none() {
        return None;
    }
    let name = match match_identifier(ctx) {
        Some(n) => n,
        None => {
            return None;
        },
    };
    let has_ty = ctx.pos < ctx.tokens.len() && (match &ctx.tokens[ctx.pos].kind {
        TokenKind::Type(_) => true,
        _ => false,
    });
    let ty = if has_ty {
        match match_type(ctx) {
            Some(t) => Some(t),
            None => None,
        }
    } else {
        None
    };
    if match_delimiter(ctx, Delimiter::Assign).is_none() {
        return None;
    }
    let value = match Expr::parse(ctx) {
        Some(e) => e,
        None => {
            return None;
        },
    };
    if match_delimiter(ctx, Delimiter::Semicolon).is_none() {
        return None;
    }
    Some(Stmt::Let(LetStmt { name, ty, value }))
}

/// Parse the contents of a block after its opening brace: statements until the
/// closing brace, with an optional trailing value expression directly before
/// it; the closing brace is consumed.
fn parse_block_items(ctx: &mut ParseContext) -> (r: Option<(Vec<Stmt>, Option<Expr>)>)
    requires
        old(ctx).wf(),
    ensures
        final(ctx).wf(),
        final(ctx).tokens == old(ctx).tokens,
        old(ctx).pos <= final(ctx).pos,
        r is Some ==> old(ctx).pos < final(ctx).pos,
        ({
            let m = p_block_items(old(ctx).tokens@, old(ctx).pst());
            &&& final(ctx).pst() == m.0
            &&& (match r {
                Some(p) => m.1 matches Some(q) && q.0 == stmts_v(p.0, 0) && q.1 == (match p.1 {
                    Some(e) => Some(expr_v(e)),
                    None => None,
                }),
                None => m.1 is None,
            })
        }),
    decreases old(ctx).tokens@.len() - old(ctx).pos, 4nat,
{
    if ctx.at_end() {
        let loc = ctx.here();
        ctx.push_error(
            Located { item: ParseError::ExpectedDelimiter(Delimiter::BraceClose), loc },
        );
        return None;
    }
    let at_close = match &ctx.tokens[ctx.pos].kind {
        TokenKind::Delimiter(Delimiter::BraceClose) => true,
        _ => false,
    };
    if at_close {
        bump(ctx);
        let v: Vec<Stmt> = Vec::new();
        assert(stmts_v(v, 0) =~= Seq::<StmtV>::empty());
        return Some((v, None));
    }
    let is_let = match &ctx.tokens[ctx.pos].kind {
        TokenKind::Keyword(Keyword::Let) => true,
        _ => false,
    };
    if is_let {
        let s = match parse_let_stmt(ctx) {
            Some(s) => s,
            None => {
                return None;
            },
        };
        return match parse_block_items(ctx) {
            Some((mut v, tail)) => {
                let ghost v0 = v;
                v.insert(0, s);
                proof {
                    assert(v@ =~= seq![s] + v0@);
                    lemma_stmts_v_cons(v0, v, s);
                }
                Some((v, tail))
            },
            None => None,
        };
    }
    let e = match Expr::parse(ctx) {
        Some(e) => e,
        None => {
            return None;
        },
    };
    let at_assign = ctx.pos < ctx.tokens.len() && (match &ctx.tokens[ctx.pos].kind {
        TokenKind::Delimiter(Delimiter::Assign) => true,
        _ => false,
    });
    if at_assign {
        bump(ctx);
        let value = match Expr::parse(ctx) {
            Some(v) => v,
            None => {
                return None;
            },
        };
        if match_delimiter(ctx, Delimiter::Semicolon).is_none() {
            return None;
        }
        let s = Stmt::Assign(AssignStmt { target: e, value });
        return match parse_block_items(ctx) {
            Some((mut v, tail)) => {
                let ghost v0 = v;
                v.insert(0, s);
                proof {
                    assert(v@ =~= seq![s] + v0@);
                    lemma_stmts_v_cons(v0, v, s);
                }
                Some((v, tail))
            },
            None => None,
        };
    }
    let at_semi = ctx.pos < ctx.tokens.len() && (match &ctx.tokens[ctx.pos].kind {
        TokenKind::Delimiter(Delimiter::Semicolon) => true,
        _ => false,
    });
    if at_semi {
        bump(ctx);
        let s = Stmt::Expr(e);
        return match parse_block_items(ctx) {
            Some((mut v, tail)) => {
                let ghost v0 = v;
                v.insert(0, s);
                proof {
                    assert(v@ =~= seq![s] + v0@);
                    lemma_stmts_v_cons(v0, v, s);
                }
                Some((v, tail))
            },
            None => None,
        };
    }
    let is_brace_shaped = match &e {
        Expr::Block(_) => true,
        Expr::If(_) => true,
        Expr::Loop(_) => true,
        _ => false,
    };
    if is_brace_shaped {
        let s = Stmt::Expr(e);
        return match parse_block_items(ctx) {
            Some((mut v, tail)) => {
                let ghost v0 = v;
                v.insert(0, s);
                proof {
                    assert(v@ =~= seq![s] + v0@);
                    lemma_stmts_v_cons(v0, v, s);
                }
                Some((v, tail))
            },
            None => None,
        };
    }
    let at_brace_close = ctx.pos < ctx.tokens.len() && (match &ctx.tokens[ctx.pos].kind {
        TokenKind::Delimiter(Delimiter::BraceClose) => true,
        _ => false,
    });
    if at_brace_close {
        bump(ctx);
        let v: Vec<Stmt> = Vec::new();
        assert(stmts_v(v, 0) =~= Seq::<StmtV>::empty());
        return Some((v, Some(e)));
    }
    let loc = ctx.here();
    ctx.push_error(Located { item: ParseError::ExpectedDelimiter(Delimiter::Semicolon), loc });
    None
}

/// Parse a braced block: statements until the closing brace, with an optional
/// trailing value expression directly before it.
pub fn parse_block_expr(ctx: &mut ParseContext) -> (r: Option<BlockExpr>)
    requires
        old(ctx).wf(),
    ensures
        final(ctx).wf(),
        final(ctx).tokens == old(ctx).tokens,
        old(ctx).pos <= final(ctx).pos,
        r is Some ==> old(ctx).pos < final(ctx).pos,
        ({
            let m = p_block(old(ctx).tokens@, old(ctx).pst());
            &&& final(ctx).pst() == m.0
            &&& (match r {
                Some(b) => m.1 == Some(block_v(b)),
                None => m.1 is None,
            })
        }),
    decreases old(ctx).tokens@.len() - old(ctx).pos, 0nat,
{
    let open = match match_delimiter(ctx, Delimiter::BraceOpen) {
        Some(l) => l,
        None => {
            return None;
        },
    };
    match parse_block_items(ctx) {
        Some((stmts, tail)) => {
            let b = BlockExpr {
                stmts,
                eval_expr: match tail {
                    Some(e) => Some(Box::new(e)),
                    None => None,
                },
                loc: open,
            };
            proof {
                assert(block_v(b) =~~= p_block(old(ctx).tokens@, old(ctx).pst()).1.unwrap());
            }
            Some(b)
        },
        None => None,
    }
}

/// Parse a parameter list up to (and consuming) the closing parenthesis.
fn parse_params(ctx: &mut ParseContext) -> (r: Option<Vec<Param>>)
    requires
        old(ctx).wf(),
    ensures
        final(ctx).wf(),
        final(ctx).tokens == old(ctx).tokens,
        old(ctx).pos <= final(ctx).pos,
        r is Some ==> old(ctx).pos < final(ctx).pos,
        ({
            let m = p_params(old(ctx).tokens@, old(ctx).pst());
            &&& final(ctx).pst() == m.0
            &&& (match r {
                Some(v) => m.1 == Some(params_v(v, 0)),
                None => m.1 is None,
            })
        }),
    decreases old(ctx).tokens@.len() - old(ctx).pos, 4nat,
{
    if ctx.at_end() {
        let loc = ctx.here();
        ctx.push_error(
            Located { item: ParseError::ExpectedDelimiter(Delimiter::ParenClose), loc },
        );
        return None;
    }
    let at_close = match &ctx.tokens[ctx.pos].kind {
        TokenKind::Delimiter(Delimiter::ParenClose) => true,
        _ => false,
    };
    if at_close {
        bump(ctx);
        let v: Vec<Param> = Vec::new();
        assert(params_v(v, 0) =~= Seq::<ParamV>::empty());
        return Some(v);
    }
    let pname = match match_identifier(ctx) {
        Some(n) => n,
        None => {
            return None;
        },
    };
    let pty = match match_type(ctx) {
        Some(t) => t,
        None => {
            return None;
        },
    };
    let at_comma = ctx.pos < ctx.tokens.len() && (match &ctx.tokens[ctx.pos].kind {
        TokenKind::Delimiter(Delimiter::Comma) => true,
        _ => false,
    });
    if at_comma {
        bump(ctx);
    }
    let p = Param { name: pname, ty: pty };
    match parse_params(ctx) {
        Some(mut v) => {
            let ghost v0 = v;
            v.insert(0, p);
            proof {
                assert(v@ =~= seq![p] + v0@);
                lemma_params_v_cons(v0, v, p);
            }
            Some(v)
        },
        None => None,
    }
}

impl FunctionSig {
    /// Parse a function signature: `func` keyword, name, parameter list, and a
    /// return type that defaults to unit when the body's brace (or a
    /// declaration's semicolon) follows directly.
    pub fn parse(ctx: &mut ParseContext) -> (r: Option<FunctionSig>)
        requires
            old(ctx).wf(),
        ensures
            final(ctx).wf(),
            final(ctx).tokens == old(ctx).tokens,
            old(ctx).pos <= final(ctx).pos,
            r is Some ==> old(ctx).pos < final(ctx).pos,
            ({
                let m = p_sig(old(ctx).tokens@, old(ctx).pst());
                &&& final(ctx).pst() == m.0
                &&& (match r {
                    Some(s) => m.1 == Some(sig_v(s)),
                    None => m.1 is None,
                })
            }),
        decreases old(ctx).tokens@.len() - old(ctx).pos, 6nat,
    {
        if match_keyword(ctx, Keyword::Func).is_none() {
            return None;
        }
        let name = match match_identifier(ctx) {
            Some(n) => n,
            None => {
                return None;
            },
        };
        if match_delimiter(ctx, Delimiter::ParenOpen).is_none() {
            return None;
        }
        let params = match parse_params(ctx) {
            Some(ps) => ps,
            None => {
                return None;
            },
        };
        let at_body = ctx.pos < ctx.tokens.len() && (match &ctx.tokens[ctx.pos].kind {
            TokenKind::Delimiter(Delimiter::BraceOpen) => true,
            TokenKind::Delimiter(Delimiter::Semicolon) => true,
            _ => false,
        });
        let ret_ty = if at_body {
            Located { item: crate::token::Type::Unit, loc: name.loc }
        } else {
            match match_type(ctx) {
                Some(t) => t,
                None => {
                    return None;
                },
            }
        };
        Some(
            FunctionSig {
                name,
                params: Punctuated { items: params, sep: Delimiter::Comma },
                ret_ty,
            },
        )
    }
}

impl Function {
    /// Parse a function: its signature, then a body that must be a block
    /// expression — anything else is a `MissingFunctionBody` error at the name.
    pub fn parse(ctx: &mut ParseContext) -> (r: Option<Function>)
        requires
            old(ctx).wf(),
        ensures
            final(ctx).wf(),
            final(ctx).tokens == old(ctx).tokens,
            old(ctx).pos <= final(ctx).pos,
            r is Some ==> old(ctx).pos < final(ctx).pos,
            ({
                let m = p_function(old(ctx).tokens@, old(ctx).pst());
                &&& final(ctx).pst() == m.0
                &&& (match r {
                    Some(f) => m.1 == Some(item_v(Item::Function(f))),
                    None => m.1 is None,
                })
            }),
        decreases old(ctx).tokens@.len() - old(ctx).pos, 7nat,
    {
        let sig = match FunctionSig::parse(ctx) {
            Some(s) => s,
            None => {
                return None;
            },
        };
        match Expr::parse(ctx) {
            Some(Expr::Block(body)) => Some(Function { sig, body }),
            Some(_) => {
                let name = sig.name.item.clone();
                let loc = sig.name.loc;
                ctx.push_error(
                    Located {
                        item: ParseError::Func(
                            FunctionParseError::MissingFunctionBody { func_name: name },
                        ),
                        loc,
                    },
                );
                None
            },
            None => None,
        }
    }
}

impl ExternFunction {
    /// Parse an extern declaration: `extern`, a signature, a semicolon.
    pub fn parse(ctx: &mut ParseContext) -> (r: Option<ExternFunction>)
        requires
            old(ctx).wf(),
        ensures
            final(ctx).wf(),
            final(ctx).tokens == old(ctx).tokens,
            old(ctx).pos <= final(ctx).pos,
            r is Some ==> old(ctx).pos < final(ctx).pos,
            ({
                let m = p_extern(old(ctx).tokens@, old(ctx).pst());
                &&& final(ctx).pst() == m.0
                &&& (match r {
                    Some(e) => m.1 == Some(item_v(Item::ExternFunction(e))),
                    None => m.1 is None,
                })
            }),
        decreases old(ctx).tokens@.len() - old(ctx).pos, 7nat,
    {
        if match_keyword(ctx, Keyword::Extern).is_none() {
            return None;
        }
        let sig = match FunctionSig::parse(ctx) {
            Some(s) => s,
            None => {
                return None;
            },
        };
        if match_delimiter(ctx, Delimiter::Semicolon).is_none() {
            return None;
        }
        Some(ExternFunction { sig })
    }
}

/// Parse every top-level item of the stream: a failed item leaves its
/// diagnostics, one token is skipped, and parsing goes on.
fn parse_items(ctx: &mut ParseContext) -> (r: Vec<Item>)
    requires
        old(ctx).wf(),
    ensures
        final(ctx).wf(),
        final(ctx).tokens == old(ctx).tokens,
        old(ctx).pos <= final(ctx).pos,
        ({
            let m = p_items(old(ctx).tokens@, old(ctx).pst());
            &&& final(ctx).pst() == m.0
            &&& items_v(r, 0) == m.1
        }),
    decreases old(ctx).tokens@.len() - old(ctx).pos, 8nat,
{
    if ctx.at_end() {
        let v: Vec<Item> = Vec::new();
        assert(items_v(v, 0) =~= Seq::<ItemV>::empty());
        return v;
    }
    let is_extern = match &ctx.tokens[ctx.pos].kind {
        TokenKind::Keyword(Keyword::Extern) => true,
        _ => false,
    };
    let is_func = match &ctx.tokens[ctx.pos].kind {
        TokenKind::Keyword(Keyword::Func) => true,
        _ => false,
    };
    let step: Option<Item> = if is_extern {
        match ExternFunction::parse(ctx) {
            Some(e) => Some(Item::ExternFunction(e)),
            None => None,
        }
    } else if is_func {
        match Function::parse(ctx) {
            Some(f) => Some(Item::Function(f)),
            None => None,
        }
    } else {
        let loc = ctx.tokens[ctx.pos].loc;
        let kind = dup_kind(&ctx.tokens[ctx.pos].kind);
        ctx.push_error(
            Located { item: ParseError::Expr(ExprParseError::UnexpectedToken(kind)), loc },
        );
        None
    };
    match step {
        Some(it) => {
            let mut rest = parse_items(ctx);
            let ghost r0 = rest;
            rest.insert(0, it);
            proof {
                assert(rest@ =~= seq![it] + r0@);
                lemma_items_v_cons(r0, rest, it);
            }
            rest
        },
        None => {
            if ctx.at_end() {
                let v: Vec<Item> = Vec::new();
                assert(items_v(v, 0) =~= Seq::<ItemV>::empty());
                v
            } else {
                bump(ctx);
                parse_items(ctx)
            }
        },
    }
}

/// Parse one compilation unit from a token stream: every top-level item, with
/// all diagnostics aggregated — parsing yields either the tree the stream
/// derives and no diagnostics, or every diagnostic and no tree.
pub fn parse(tokens: Vec<Token>) -> (r: Result<AST, Vec<Located<ParseError>>>)
    ensures
        match r {
            Ok(a) => p_parse(tokens@).0.len() == 0 && items_v(a.items, 0) == p_parse(tokens@).1,
            Err(errs) => errs@ == p_parse(tokens@).0 && errs@.len() > 0,
        },
{
    let mut ctx = ParseContext::new(tokens);
    proof {
        assert(ctx.pst() =~= (PStV { pos: 0, errors: Seq::empty() }));
    }
    let items = parse_items(&mut ctx);
    if ctx.errors.len() == 0 {
        Ok(AST { items })
    } else {
        Err(ctx.errors)
    }
}

} // verus!
