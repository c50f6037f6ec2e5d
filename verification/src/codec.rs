//! The binary form of a [`Program`]: `to_bin` writes it, `from_bytes` reads it
//! back, and decoding a just-encoded program is proved to reproduce it exactly.
//!
//! Every instruction occupies ten bytes — a tag, an auxiliary byte, and one
//! 64-bit little-endian word — so offsets are simple multiples.

use vstd::prelude::*;

use crate::bytecode::{BinOp, Func, FuncV, Inst, Program, ProgramV, Value};

verus! {

/// The eight little-endian bytes of a 64-bit word.
pub open spec fn u64_le(v: u64) -> Seq<u8> {
    seq![
        (v & 0xff) as u8,
        ((v >> 8) & 0xff) as u8,
        ((v >> 16) & 0xff) as u8,
        ((v >> 24) & 0xff) as u8,
        ((v >> 32) & 0xff) as u8,
        ((v >> 40) & 0xff) as u8,
        ((v >> 48) & 0xff) as u8,
        ((v >> 56) & 0xff) as u8,
    ]
}

/// The 64-bit word read from eight little-endian bytes.
pub open spec fn u64_of_le(b: Seq<u8>) -> u64
    recommends
        b.len() == 8,
{
    (b[0] as u64) | ((b[1] as u64) << 8) | ((b[2] as u64) << 16) | ((b[3] as u64) << 24) | (
    (b[4] as u64) << 32) | ((b[5] as u64) << 40) | ((b[6] as u64) << 48) | ((b[7] as u64) << 56)
}

pub proof fn lemma_u64_le_roundtrip(v: u64)
    ensures
        u64_of_le(u64_le(v)) == v,
{
    assert((((v & 0xff) as u8) as u64) | (((((v >> 8) & 0xff) as u8) as u64) << 8) | (((((v >> 16)
        & 0xff) as u8) as u64) << 16) | (((((v >> 24) & 0xff) as u8) as u64) << 24) | (((((v >> 32)
        & 0xff) as u8) as u64) << 32) | (((((v >> 40) & 0xff) as u8) as u64) << 40) | (((((v >> 48)
        & 0xff) as u8) as u64) << 48) | (((((v >> 56) & 0xff) as u8) as u64) << 56) == v)
        by (bit_vector);
}

pub proof fn lemma_i64_cast_roundtrip(d: i64)
    ensures
        (d as u64) as i64 == d,
{
    assert((d as u64) as i64 == d) by (bit_vector);
}

proof fn lemma_byte_mask(x: u64)
    ensures
        x & 0xff < 256,
{
    assert(x & 0xff < 256) by (bit_vector);
}

/// The tag byte of a runtime value.
pub open spec fn value_tag(v: Value) -> u8 {
    match v {
        Value::Unit => 0,
        Value::Int(_) => 1,
        Value::Bool(_) => 2,
    }
}

/// The payload word of a runtime value.
pub open spec fn value_word(v: Value) -> u64 {
    match v {
        Value::Unit => 0,
        Value::Int(i) => i as u64,
        Value::Bool(b) => if b {
            1
        } else {
            0
        },
    }
}

/// The runtime value read back from a tag byte and a payload word.
pub open spec fn dec_value(tag: u8, w: u64) -> Option<Value> {
    if tag == 0 {
        Some(Value::Unit)
    } else if tag == 1 {
        Some(Value::Int(w as i64))
    } else if tag == 2 {
        Some(Value::Bool(w != 0))
    } else {
        None
    }
}

/// The tag byte of a binary operator.
pub open spec fn op_tag(op: BinOp) -> u8 {
    match op {
        BinOp::Add => 0,
        BinOp::Sub => 1,
        BinOp::And => 2,
        BinOp::Or => 3,
        BinOp::Eq => 4,
        BinOp::Ne => 5,
        BinOp::Lt => 6,
        BinOp::Le => 7,
        BinOp::Gt => 8,
        BinOp::Ge => 9,
    }
}

/// The binary operator read back from its tag byte.
pub open spec fn dec_op(tag: u8) -> Option<BinOp> {
    if tag == 0 {
        Some(BinOp::Add)
    } else if tag == 1 {
        Some(BinOp::Sub)
    } else if tag == 2 {
        Some(BinOp::And)
    } else if tag == 3 {
        Some(BinOp::Or)
    } else if tag == 4 {
        Some(BinOp::Eq)
    } else if tag == 5 {
        Some(BinOp::Ne)
    } else if tag == 6 {
        Some(BinOp::Lt)
    } else if tag == 7 {
        Some(BinOp::Le)
    } else if tag == 8 {
        Some(BinOp::Gt)
    } else if tag == 9 {
        Some(BinOp::Ge)
    } else {
        None
    }
}

/// The tag byte of an instruction.
pub open spec fn inst_tag(i: Inst) -> u8 {
    match i {
        Inst::Push(_) => 0,
        Inst::Pop => 1,
        Inst::Load(_) => 2,
        Inst::Store(_) => 3,
        Inst::Neg => 4,
        Inst::Not => 5,
        Inst::Bin(_) => 6,
        Inst::Jmp(_) => 7,
        Inst::JmpFalse(_) => 8,
        Inst::Call(_) => 9,
        Inst::Ret => 10,
        Inst::Halt => 11,
    }
}

/// The auxiliary byte of an instruction.
pub open spec fn inst_aux(i: Inst) -> u8 {
    match i {
        Inst::Push(v) => value_tag(v),
        Inst::Bin(op) => op_tag(op),
        _ => 0,
    }
}

/// The payload word of an instruction.
pub open spec fn inst_word(i: Inst) -> u64 {
    match i {
        Inst::Push(v) => value_word(v),
        Inst::Load(s) => s as u64,
        Inst::Store(s) => s as u64,
        Inst::Jmp(d) => d as u64,
        Inst::JmpFalse(d) => d as u64,
        Inst::Call(f) => f as u64,
        _ => 0,
    }
}

/// The ten bytes of one instruction.
pub open spec fn enc_inst(i: Inst) -> Seq<u8> {
    seq![inst_tag(i), inst_aux(i)] + u64_le(inst_word(i))
}

/// The instruction read back from a tag, an auxiliary byte and a payload word.
pub open spec fn dec_inst_parts(tag: u8, aux: u8, w: u64) -> Option<Inst> {
    if tag == 0 {
        match dec_value(aux, w) {
            Some(v) => Some(Inst::Push(v)),
            None => None,
        }
    } else if tag == 1 {
        Some(Inst::Pop)
    } else if tag == 2 {
        if w <= usize::MAX as u64 {
            Some(Inst::Load(w as usize))
        } else {
            None
        }
    } else if tag == 3 {
        if w <= usize::MAX as u64 {
            Some(Inst::Store(w as usize))
        } else {
            None
        }
    } else if tag == 4 {
        Some(Inst::Neg)
    } else if tag == 5 {
        Some(Inst::Not)
    } else if tag == 6 {
        match dec_op(aux) {
            Some(op) => Some(Inst::Bin(op)),
            None => None,
        }
    } else if tag == 7 {
        Some(Inst::Jmp(w as i64))
    } else if tag == 8 {
        Some(Inst::JmpFalse(w as i64))
    } else if tag == 9 {
        if w <= usize::MAX as u64 {
            Some(Inst::Call(w as usize))
        } else {
            None
        }
    } else if tag == 10 {
        Some(Inst::Ret)
    } else if tag == 11 {
        Some(Inst::Halt)
    } else {
        None
    }
}

/// Read one instruction at byte offset `pos`.
pub open spec fn dec_inst(b: Seq<u8>, pos: int) -> Option<Inst> {
    if pos < 0 || pos + 10 > b.len() {
        None
    } else {
        dec_inst_parts(b[pos], b[pos + 1], u64_of_le(b.subrange(pos + 2, pos + 10)))
    }
}

pub proof fn lemma_inst_roundtrip(i: Inst, b: Seq<u8>, pos: int)
    requires
        0 <= pos,
        pos + 10 <= b.len(),
        b.subrange(pos, pos + 10) == enc_inst(i),
    ensures
        dec_inst(b, pos) == Some(i),
{
    let e = enc_inst(i);
    assert(b[pos] == e[0]);
    assert(b[pos + 1] == e[1]);
    assert(b.subrange(pos + 2, pos + 10) =~= e.subrange(2, 10));
    assert(e.subrange(2, 10) =~= u64_le(inst_word(i)));
    lemma_u64_le_roundtrip(inst_word(i));
    match i {
        Inst::Jmp(d) => lemma_i64_cast_roundtrip(d),
        Inst::JmpFalse(d) => lemma_i64_cast_roundtrip(d),
        Inst::Push(v) => {
            match v {
                Value::Int(x) => lemma_i64_cast_roundtrip(x),
                _ => {},
            }
        },
        _ => {},
    }
}

/// The concatenated encodings of a sequence of instructions.
pub open spec fn enc_insts(is: Seq<Inst>) -> Seq<u8>
    decreases is.len(),
{
    if is.len() == 0 {
        Seq::empty()
    } else {
        enc_inst(is.first()) + enc_insts(is.drop_first())
    }
}

pub proof fn lemma_enc_insts_len(is: Seq<Inst>)
    ensures
        enc_insts(is).len() == 10 * is.len(),
    decreases is.len(),
{
    if is.len() > 0 {
        lemma_enc_insts_len(is.drop_first());
    }
}

pub proof fn lemma_enc_insts_snoc(is: Seq<Inst>, i: Inst)
    ensures
        enc_insts(is.push(i)) == enc_insts(is) + enc_inst(i),
    decreases is.len(),
{
    let p = is.push(i);
    reveal_with_fuel(enc_insts, 3);
    if is.len() == 0 {
        assert(p.first() == i);
        assert(p.drop_first() =~= Seq::<Inst>::empty());
        assert(enc_insts(p) == enc_inst(i) + Seq::<u8>::empty());
        assert(enc_inst(i) + Seq::<u8>::empty() =~= Seq::<u8>::empty() + enc_inst(i));
    } else {
        assert(p.first() == is.first());
        assert(p.drop_first() =~= is.drop_first().push(i));
        lemma_enc_insts_snoc(is.drop_first(), i);
        assert(enc_insts(p) == enc_inst(is.first()) + (enc_insts(is.drop_first()) + enc_inst(i)));
        assert(enc_inst(is.first()) + (enc_insts(is.drop_first()) + enc_inst(i)) =~= (enc_inst(
            is.first(),
        ) + enc_insts(is.drop_first())) + enc_inst(i));
    }
}

/// Read `n` instructions starting at byte offset `pos`.
pub open spec fn dec_insts(b: Seq<u8>, pos: int, n: nat) -> Option<Seq<Inst>>
    decreases n,
{
    if n == 0 {
        Some(Seq::empty())
    } else {
        match dec_inst(b, pos) {
            None => None,
            Some(i) => match dec_insts(b, pos + 10, (n - 1) as nat) {
                None => None,
                Some(rest) => Some(seq![i] + rest),
            },
        }
    }
}

pub proof fn lemma_insts_roundtrip(is: Seq<Inst>, b: Seq<u8>, pos: int)
    requires
        0 <= pos,
        pos + 10 * is.len() <= b.len(),
        b.subrange(pos, pos + 10 * is.len()) == enc_insts(is),
    ensures
        dec_insts(b, pos, is.len()) == Some(is),
    decreases is.len(),
{
    if is.len() > 0 {
        lemma_enc_insts_len(is.drop_first());
        assert(b.subrange(pos, pos + 10) =~= enc_insts(is).subrange(0, 10));
        assert(enc_insts(is).subrange(0, 10) =~= enc_inst(is.first()));
        lemma_inst_roundtrip(is.first(), b, pos);
        assert(b.subrange(pos + 10, pos + 10 + 10 * (is.len() - 1)) =~= enc_insts(is).subrange(
            10,
            enc_insts(is).len() as int,
        ));
        assert(enc_insts(is).subrange(10, enc_insts(is).len() as int) =~= enc_insts(
            is.drop_first(),
        ));
        lemma_insts_roundtrip(is.drop_first(), b, pos + 10);
        assert(seq![is.first()] + is.drop_first() =~= is);
    }
}

/// The encoding of one compiled function: arity, slot count, instruction count,
/// then the instructions.
pub open spec fn enc_func(f: Func) -> Seq<u8> {
    u64_le(f.n_params as u64) + u64_le(f.n_slots as u64) + u64_le(f.insts@.len() as u64)
        + enc_insts(f.insts@)
}

/// Read one compiled function at byte offset `pos`, yielding its model and the
/// offset just after it.
pub open spec fn dec_func(b: Seq<u8>, pos: int) -> Option<(FuncV, int)> {
    if pos < 0 || pos + 24 > b.len() {
        None
    } else {
        let np = u64_of_le(b.subrange(pos, pos + 8));
        let ns = u64_of_le(b.subrange(pos + 8, pos + 16));
        let ni = u64_of_le(b.subrange(pos + 16, pos + 24));
        if np > usize::MAX as u64 || ns > usize::MAX as u64 || ni > usize::MAX as u64 {
            None
        } else {
            match dec_insts(b, pos + 24, ni as nat) {
                None => None,
                Some(is) => Some(
                    (
                        FuncV { n_params: np as int, n_slots: ns as int, insts: is },
                        pos + 24 + 10 * ni,
                    ),
                ),
            }
        }
    }
}

pub proof fn lemma_func_roundtrip(f: Func, b: Seq<u8>, pos: int)
    requires
        0 <= pos,
        pos + enc_func(f).len() <= b.len(),
        b.subrange(pos, pos + enc_func(f).len()) == enc_func(f),
    ensures
        dec_func(b, pos) == Some((f@, pos + enc_func(f).len())),
{
    let e = enc_func(f);
    assert(f.insts.len() == f.insts@.len());
    lemma_enc_insts_len(f.insts@);
    assert(b.subrange(pos, pos + 8) =~= e.subrange(0, 8));
    assert(e.subrange(0, 8) =~= u64_le(f.n_params as u64));
    assert(b.subrange(pos + 8, pos + 16) =~= e.subrange(8, 16));
    assert(e.subrange(8, 16) =~= u64_le(f.n_slots as u64));
    assert(b.subrange(pos + 16, pos + 24) =~= e.subrange(16, 24));
    assert(e.subrange(16, 24) =~= u64_le(f.insts@.len() as u64));
    lemma_u64_le_roundtrip(f.n_params as u64);
    lemma_u64_le_roundtrip(f.n_slots as u64);
    lemma_u64_le_roundtrip(f.insts@.len() as u64);
    assert(b.subrange(pos + 24, pos + 24 + 10 * f.insts@.len()) =~= e.subrange(24, e.len() as int));
    assert(e.subrange(24, e.len() as int) =~= enc_insts(f.insts@));
    lemma_insts_roundtrip(f.insts@, b, pos + 24);
}

/// The concatenated encodings of a sequence of compiled functions.
pub open spec fn enc_funcs(fs: Seq<Func>) -> Seq<u8>
    decreases fs.len(),
{
    if fs.len() == 0 {
        Seq::empty()
    } else {
        enc_func(fs.first()) + enc_funcs(fs.drop_first())
    }
}

pub proof fn lemma_enc_funcs_snoc(fs: Seq<Func>, f: Func)
    ensures
        enc_funcs(fs.push(f)) == enc_funcs(fs) + enc_func(f),
    decreases fs.len(),
{
    let p = fs.push(f);
    reveal_with_fuel(enc_funcs, 3);
    if fs.len() == 0 {
        assert(p.first() == f);
        assert(p.drop_first() =~= Seq::<Func>::empty());
        assert(enc_funcs(p) == enc_func(f) + Seq::<u8>::empty());
        assert(enc_func(f) + Seq::<u8>::empty() =~= Seq::<u8>::empty() + enc_func(f));
    } else {
        assert(p.first() == fs.first());
        assert(p.drop_first() =~= fs.drop_first().push(f));
        lemma_enc_funcs_snoc(fs.drop_first(), f);
        assert(enc_funcs(p) == enc_func(fs.first()) + (enc_funcs(fs.drop_first()) + enc_func(f)));
        assert(enc_func(fs.first()) + (enc_funcs(fs.drop_first()) + enc_func(f)) =~= (enc_func(
            fs.first(),
        ) + enc_funcs(fs.drop_first())) + enc_func(f));
    }
}

/// Read `n` compiled functions starting at byte offset `pos`.
pub open spec fn dec_funcs(b: Seq<u8>, pos: int, n: nat) -> Option<(Seq<FuncV>, int)>
    decreases n,
{
    if n == 0 {
        Some((Seq::empty(), pos))
    } else {
        match dec_func(b, pos) {
            None => None,
            Some((f, end)) => match dec_funcs(b, end, (n - 1) as nat) {
                None => None,
                Some((rest, end2)) => Some((seq![f] + rest, end2)),
            },
        }
    }
}

pub proof fn lemma_funcs_roundtrip(fs: Seq<Func>, b: Seq<u8>, pos: int)
    requires
        0 <= pos,
        pos + enc_funcs(fs).len() <= b.len(),
        b.subrange(pos, pos + enc_funcs(fs).len()) == enc_funcs(fs),
    ensures
        dec_funcs(b, pos, fs.len()) == Some(
            (fs.map_values(|f: Func| f@), pos + enc_funcs(fs).len()),
        ),
    decreases fs.len(),
{
    if fs.len() == 0 {
        assert(fs.map_values(|f: Func| f@) =~= Seq::<FuncV>::empty());
    } else {
        let f0 = fs.first();
        let e0 = enc_func(f0);
        assert(b.subrange(pos, pos + e0.len()) =~= enc_funcs(fs).subrange(0, e0.len() as int));
        assert(enc_funcs(fs).subrange(0, e0.len() as int) =~= e0);
        lemma_func_roundtrip(f0, b, pos);
        let rest_enc = enc_funcs(fs.drop_first());
        assert(b.subrange(pos + e0.len(), pos + e0.len() + rest_enc.len()) =~= enc_funcs(
            fs,
        ).subrange(e0.len() as int, enc_funcs(fs).len() as int));
        assert(enc_funcs(fs).subrange(e0.len() as int, enc_funcs(fs).len() as int) =~= rest_enc);
        lemma_funcs_roundtrip(fs.drop_first(), b, pos + e0.len());
        lemma_enc_insts_len(f0.insts@);
        assert(seq![f0@] + fs.drop_first().map_values(|f: Func| f@) =~= fs.map_values(
            |f: Func| f@,
        ));
    }
}

/// The encoding of a whole program: entry index, function count, then the
/// functions in order.
pub open spec fn enc_prog(p: Program) -> Seq<u8> {
    u64_le(p.entry as u64) + u64_le(p.funcs@.len() as u64) + enc_funcs(p.funcs@)
}

/// Read a whole program back from its encoding. Trailing bytes are refused.
pub open spec fn dec_prog(b: Seq<u8>) -> Option<ProgramV> {
    if b.len() < 16 {
        None
    } else {
        let entry = u64_of_le(b.subrange(0, 8));
        let nf = u64_of_le(b.subrange(8, 16));
        if entry > usize::MAX as u64 || nf > usize::MAX as u64 {
            None
        } else {
            match dec_funcs(b, 16, nf as nat) {
                None => None,
                Some((fs, end)) => if end == b.len() {
                    Some(ProgramV { funcs: fs, entry: entry as int })
                } else {
                    None
                },
            }
        }
    }
}

/// Law: the binary form round-trips — decoding a just-encoded program yields
/// that program back, for every program.
pub proof fn lemma_codec_roundtrip(p: Program)
    ensures
        dec_prog(enc_prog(p)) == Some(p@),
{
    let b = enc_prog(p);
    assert(p.funcs.len() == p.funcs@.len());
    assert(b.subrange(0, 8) =~= u64_le(p.entry as u64));
    assert(b.subrange(8, 16) =~= u64_le(p.funcs@.len() as u64));
    lemma_u64_le_roundtrip(p.entry as u64);
    lemma_u64_le_roundtrip(p.funcs@.len() as u64);
    assert(b.subrange(16, 16 + enc_funcs(p.funcs@).len() as int) =~= enc_funcs(p.funcs@));
    lemma_funcs_roundtrip(p.funcs@, b, 16);
}

/// Append the eight little-endian bytes of `v`.
fn write_u64(out: &mut Vec<u8>, v: u64)
    ensures
        final(out)@ == old(out)@ + u64_le(v),
{
    proof {
        lemma_byte_mask(v);
        lemma_byte_mask(v >> 8);
        lemma_byte_mask(v >> 16);
        lemma_byte_mask(v >> 24);
        lemma_byte_mask(v >> 32);
        lemma_byte_mask(v >> 40);
        lemma_byte_mask(v >> 48);
        lemma_byte_mask(v >> 56);
    }
    out.push((v & 0xff) as u8);
    out.push(((v >> 8) & 0xff) as u8);
    out.push(((v >> 16) & 0xff) as u8);
    out.push(((v >> 24) & 0xff) as u8);
    out.push(((v >> 32) & 0xff) as u8);
    out.push(((v >> 40) & 0xff) as u8);
    out.push(((v >> 48) & 0xff) as u8);
    out.push(((v >> 56) & 0xff) as u8);
    assert(out@ =~= old(out)@ + u64_le(v));
}

/// Append the ten bytes of one instruction.
fn write_inst(out: &mut Vec<u8>, i: Inst)
    ensures
        final(out)@ == old(out)@ + enc_inst(i),
{
    let (tag, aux, w): (u8, u8, u64) = match i {
        Inst::Push(v) => {
            let (vt, vw): (u8, u64) = match v {
                Value::Unit => (0, 0),
                Value::Int(x) => (1, #[verifier::truncate] (x as u64)),
                Value::Bool(bb) => (2, if bb { 1 } else { 0 }),
            };
            (0, vt, vw)
        },
        Inst::Pop => (1, 0, 0),
        Inst::Load(s) => (2, 0, s as u64),
        Inst::Store(s) => (3, 0, s as u64),
        Inst::Neg => (4, 0, 0),
        Inst::Not => (5, 0, 0),
        Inst::Bin(op) => {
            let t: u8 = match op {
                BinOp::Add => 0,
                BinOp::Sub => 1,
                BinOp::And => 2,
                BinOp::Or => 3,
                BinOp::Eq => 4,
                BinOp::Ne => 5,
                BinOp::Lt => 6,
                BinOp::Le => 7,
                BinOp::Gt => 8,
                BinOp::Ge => 9,
            };
            (6, t, 0)
        },
        Inst::Jmp(d) => (7, 0, #[verifier::truncate] (d as u64)),
        Inst::JmpFalse(d) => (8, 0, #[verifier::truncate] (d as u64)),
        Inst::Call(f) => (9, 0, f as u64),
        Inst::Ret => (10, 0, 0),
        Inst::Halt => (11, 0, 0),
    };
    out.push(tag);
    out.push(aux);
    write_u64(out, w);
    assert(out@ =~= old(out)@ + enc_inst(i));
}

impl Program {
    /// Serialize the program to its binary artifact form.
    pub fn to_bin(&self) -> (r: Vec<u8>)
        ensures
            r@ == enc_prog(*self),
    {
        let mut out: Vec<u8> = Vec::new();
        write_u64(&mut out, self.entry as u64);
        write_u64(&mut out, self.funcs.len() as u64);
        let ghost header = u64_le(self.entry as u64) + u64_le(self.funcs@.len() as u64);
        assert(out@ =~= header);
        let mut i: usize = 0;
        while i < self.funcs.len()
            invariant
                i <= self.funcs@.len(),
                out@ == header + enc_funcs(self.funcs@.subrange(0, i as int)),
            decreases self.funcs@.len() - i,
        {
            let f = &self.funcs[i];
            write_u64(&mut out, f.n_params as u64);
            write_u64(&mut out, f.n_slots as u64);
            write_u64(&mut out, f.insts.len() as u64);
            let mut j: usize = 0;
            let ghost mid = header + enc_funcs(self.funcs@.subrange(0, i as int)) + u64_le(
                f.n_params as u64,
            ) + u64_le(f.n_slots as u64) + u64_le(f.insts@.len() as u64);
            assert(out@ =~= mid);
            while j < f.insts.len()
                invariant
                    j <= f.insts@.len(),
                    out@ == mid + enc_insts(f.insts@.subrange(0, j as int)),
                decreases f.insts@.len() - j,
            {
                write_inst(&mut out, f.insts[j]);
                proof {
                    lemma_enc_insts_snoc(f.insts@.subrange(0, j as int), f.insts@[j as int]);
                    assert(f.insts@.subrange(0, j as int).push(f.insts@[j as int]) =~= f
                        .insts@.subrange(0, j as int + 1));
                }
                j = j + 1;
            }
            proof {
                assert(f.insts@.subrange(0, f.insts@.len() as int) =~= f.insts@);
                assert(out@ =~= header + enc_funcs(self.funcs@.subrange(0, i as int)) + enc_func(
                    *f,
                ));
                lemma_enc_funcs_snoc(self.funcs@.subrange(0, i as int), *f);
                assert(self.funcs@.subrange(0, i as int).push(self.funcs@[i as int]) =~= self
                    .funcs@.subrange(0, i as int + 1));
            }
            i = i + 1;
        }
        proof {
            assert(self.funcs@.subrange(0, self.funcs@.len() as int) =~= self.funcs@);
        }
        out
    }

    /// Deserialize a program from its binary artifact form.
    pub fn from_bytes(bytes: &Vec<u8>) -> (r: Option<Program>)
        ensures
            match r {
                Some(p) => dec_prog(bytes@) == Some(p@),
                None => dec_prog(bytes@) is None,
            },
    {
        if bytes.len() < 16 {
            return None;
        }
        let entry_w = read_u64(bytes, 0);
        let nf_w = read_u64(bytes, 8);
        if entry_w > usize::MAX as u64 || nf_w > usize::MAX as u64 {
            return None;
        }
        match read_funcs(bytes, 16, nf_w) {
            None => None,
            Some((funcs, end)) => {
                if end == bytes.len() {
                    let p = Program { funcs, entry: entry_w as usize };
                    assert(p@.funcs =~= dec_prog(bytes@).unwrap().funcs);
                    Some(p)
                } else {
                    None
                }
            },
        }
    }
}

/// Read the 64-bit little-endian word at byte offset `pos`.
fn read_u64(b: &Vec<u8>, pos: usize) -> (r: u64)
    requires
        pos + 8 <= b.len(),
    ensures
        r == u64_of_le(b@.subrange(pos as int, pos as int + 8)),
{
    (b[pos] as u64) | ((b[pos + 1] as u64) << 8) | ((b[pos + 2] as u64) << 16) | ((b[pos + 3]
        as u64) << 24) | ((b[pos + 4] as u64) << 32) | ((b[pos + 5] as u64) << 40) | ((b[pos + 6]
        as u64) << 48) | ((b[pos + 7] as u64) << 56)
}

/// Read one instruction at byte offset `pos`.
fn read_inst(b: &Vec<u8>, pos: usize) -> (r: Option<Inst>)
    ensures
        r == dec_inst(b@, pos as int),
{
    if b.len() < 10 || pos > b.len() - 10 {
        return None;
    }
    let tag = b[pos];
    let aux = b[pos + 1];
    let w = read_u64(b, pos + 2);
    if tag == 0 {
        if aux == 0 {
            Some(Inst::Push(Value::Unit))
        } else if aux == 1 {
            Some(Inst::Push(Value::Int(#[verifier::truncate] (w as i64))))
        } else if aux == 2 {
            Some(Inst::Push(Value::Bool(w != 0)))
        } else {
            None
        }
    } else if tag == 1 {
        Some(Inst::Pop)
    } else if tag == 2 {
        if w <= usize::MAX as u64 {
            Some(Inst::Load(w as usize))
        } else {
            None
        }
    } else if tag == 3 {
        if w <= usize::MAX as u64 {
            Some(Inst::Store(w as usize))
        } else {
            None
        }
    } else if tag == 4 {
        Some(Inst::Neg)
    } else if tag == 5 {
        Some(Inst::Not)
    } else if tag == 6 {
        if aux == 0 {
            Some(Inst::Bin(BinOp::Add))
        } else if aux == 1 {
            Some(Inst::Bin(BinOp::Sub))
        } else if aux == 2 {
            Some(Inst::Bin(BinOp::And))
        } else if aux == 3 {
            Some(Inst::Bin(BinOp::Or))
        } else if aux == 4 {
            Some(Inst::Bin(BinOp::Eq))
        } else if aux == 5 {
            Some(Inst::Bin(BinOp::Ne))
        } else if aux == 6 {
            Some(Inst::Bin(BinOp::Lt))
        } else if aux == 7 {
            Some(Inst::Bin(BinOp::Le))
        } else if aux == 8 {
            Some(Inst::Bin(BinOp::Gt))
        } else if aux == 9 {
            Some(Inst::Bin(BinOp::Ge))
        } else {
            None
        }
    } else if tag == 7 {
        Some(Inst::Jmp(#[verifier::truncate] (w as i64)))
    } else if tag == 8 {
        Some(Inst::JmpFalse(#[verifier::truncate] (w as i64)))
    } else if tag == 9 {
        if w <= usize::MAX as u64 {
            Some(Inst::Call(w as usize))
        } else {
            None
        }
    } else if tag == 10 {
        Some(Inst::Ret)
    } else if tag == 11 {
        Some(Inst::Halt)
    } else {
        None
    }
}

/// Read `n` instructions starting at byte offset `pos`.
fn read_insts(b: &Vec<u8>, pos: usize, n: u64) -> (r: Option<(Vec<Inst>, usize)>)
    requires
        pos <= b.len(),
    ensures
        match r {
            Some((is, end)) => dec_insts(b@, pos as int, n as nat) == Some(is@) && end == pos + 10
                * n && end <= b@.len(),
            None => dec_insts(b@, pos as int, n as nat) is None,
        },
    decreases n,
{
    if n == 0 {
        Some((Vec::new(), pos))
    } else {
        match read_inst(b, pos) {
            None => None,
            Some(i) => {
                proof {
                    assert(pos + 10 <= b@.len());
                    assert(b.len() == b@.len());
                }
                match read_insts(b, pos + 10, n - 1) {
                    None => None,
                    Some((mut rest, end)) => {
                        let ghost r0 = rest@;
                        rest.insert(0, i);
                        assert(rest@ =~= seq![i] + r0);
                        Some((rest, end))
                    },
                }
            },
        }
    }
}

/// Read one compiled function at byte offset `pos`.
fn read_func(b: &Vec<u8>, pos: usize) -> (r: Option<(Func, usize)>)
    ensures
        match r {
            Some((f, end)) => dec_func(b@, pos as int) == Some((f@, end as int)) && end <= b@.len(),
            None => dec_func(b@, pos as int) is None,
        },
{
    if b.len() < 24 || pos > b.len() - 24 {
        return None;
    }
    let np = read_u64(b, pos);
    let ns = read_u64(b, pos + 8);
    let ni = read_u64(b, pos + 16);
    if np > usize::MAX as u64 || ns > usize::MAX as u64 || ni > usize::MAX as u64 {
        return None;
    }
    match read_insts(b, pos + 24, ni) {
        None => None,
        Some((insts, end)) => Some(
            (Func { n_params: np as usize, n_slots: ns as usize, insts }, end),
        ),
    }
}

/// Read `n` compiled functions starting at byte offset `pos`.
fn read_funcs(b: &Vec<u8>, pos: usize, n: u64) -> (r: Option<(Vec<Func>, usize)>)
    requires
        pos <= b.len(),
    ensures
        match r {
            Some((fs, end)) => dec_funcs(b@, pos as int, n as nat) == Some(
                (fs@.map_values(|f: Func| f@), end as int),
            ) && end <= b@.len(),
            None => dec_funcs(b@, pos as int, n as nat) is None,
        },
    decreases n,
{
    if n == 0 {
        let fs: Vec<Func> = Vec::new();
        assert(fs@.map_values(|f: Func| f@) =~= Seq::<FuncV>::empty());
        Some((fs, pos))
    } else {
        match read_func(b, pos) {
            None => None,
            Some((f, end)) => {
                match read_funcs(b, end, n - 1) {
                    None => None,
                    Some((mut rest, end2)) => {
                        let ghost r0 = rest@;
                        rest.insert(0, f);
                        assert(rest@.map_values(|x: Func| x@) =~= seq![f@] + r0.map_values(
                            |x: Func| x@,
                        ));
                        Some((rest, end2))
                    },
                }
            },
        }
    }
}

} // verus!
