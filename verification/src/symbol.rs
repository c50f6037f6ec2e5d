//! The symbol table: four disjoint dense-integer identity spaces — types,
//! functions, lexical blocks and variables — each a growable arena whose
//! handles are plain indices validated only by bounds-checked lookup.

use vstd::prelude::*;

verus! {

/// The identity of a type symbol.
#[derive(Debug, Clone, Copy, PartialEq, Eq, Structural)]
pub struct TypeId(pub usize);

/// The identity of a function symbol.
#[derive(Debug, Clone, Copy, PartialEq, Eq, Structural)]
pub struct FuncId(pub usize);

/// The identity of a lexical block.
#[derive(Debug, Clone, Copy, PartialEq, Eq, Structural)]
pub struct BlockId(pub usize);

/// The identity of a variable.
#[derive(Debug, Clone, Copy, PartialEq, Eq, Structural)]
pub struct VarId(pub usize);

/// A named primitive type.
#[derive(Debug, Clone, PartialEq, Eq)]
pub struct TypeSymbol {
    pub id: TypeId,
    pub name: String,
}

impl TypeSymbol {
    pub fn get_id(&self) -> (r: TypeId)
        ensures
            r == self.id,
    {
        self.id
    }

}

/// A function: its name, its parameters in order, its return type, and the
/// block its body opens.
#[derive(Debug, Clone, PartialEq, Eq)]
pub struct FuncSymbol {
    pub id: FuncId,
    pub name: String,
    pub params: Vec<VarId>,
    pub ret_ty: TypeId,
    pub entry_block: BlockId,
}

impl FuncSymbol {
    pub fn get_id(&self) -> (r: FuncId)
        ensures
            r == self.id,
    {
        self.id
    }

}

/// A lexical block: the function it belongs to and its enclosing block, if any.
/// Blocks form a forest rooted at each function's entry block.
#[derive(Debug, Clone, PartialEq, Eq)]
pub struct BlockSymbol {
    pub id: BlockId,
    pub func: FuncId,
    pub parent_block: Option<BlockId>,
}

impl BlockSymbol {
    pub fn get_id(&self) -> (r: BlockId)
        ensures
            r == self.id,
    {
        self.id
    }

}

/// A variable: the block that owns it, its name and its type.
#[derive(Debug, Clone, PartialEq, Eq)]
pub struct VarSymbol {
    pub id: VarId,
    pub block: BlockId,
    pub name: String,
    pub ty: TypeId,
}

impl VarSymbol {
    pub fn get_id(&self) -> (r: VarId)
        ensures
            r == self.id,
    {
        self.id
    }

}

/// The mathematical model of a function symbol.
#[verifier::ext_equal]
pub struct FuncSymbolV {
    pub name: Seq<char>,
    pub params: Seq<int>,
    pub ret_ty: int,
    pub entry_block: int,
}

/// The mathematical model of a block symbol.
#[verifier::ext_equal]
pub struct BlockSymbolV {
    pub func: int,
    pub parent_block: Option<int>,
}

/// The mathematical model of a variable symbol.
#[verifier::ext_equal]
pub struct VarSymbolV {
    pub block: int,
    pub name: Seq<char>,
    pub ty: int,
}

impl View for FuncSymbol {
    type V = FuncSymbolV;

    open spec fn view(&self) -> FuncSymbolV {
        FuncSymbolV {
            name: self.name@,
            params: self.params@.map_values(|v: VarId| v.0 as int),
            ret_ty: self.ret_ty.0 as int,
            entry_block: self.entry_block.0 as int,
        }
    }
}

impl View for BlockSymbol {
    type V = BlockSymbolV;

    open spec fn view(&self) -> BlockSymbolV {
        BlockSymbolV {
            func: self.func.0 as int,
            parent_block: match self.parent_block {
                Some(b) => Some(b.0 as int),
                None => None,
            },
        }
    }
}

impl View for VarSymbol {
    type V = VarSymbolV;

    open spec fn view(&self) -> VarSymbolV {
        VarSymbolV { block: self.block.0 as int, name: self.name@, ty: self.ty.0 as int }
    }
}

/// The mathematical model of a whole symbol table: the id of a symbol is its
/// index in its space.
#[verifier::ext_equal]
pub struct SymbolTableV {
    pub types: Seq<Seq<char>>,
    pub funcs: Seq<FuncSymbolV>,
    pub blocks: Seq<BlockSymbolV>,
    pub vars: Seq<VarSymbolV>,
}

/// The symbol table. Ids are dense: the symbol with id `i` sits at index `i`
/// of its arena.
#[derive(Debug, Clone, PartialEq, Eq)]
pub struct SymbolTable {
    pub types: Vec<TypeSymbol>,
    pub funcs: Vec<FuncSymbol>,
    pub blocks: Vec<BlockSymbol>,
    pub vars: Vec<VarSymbol>,
}

impl View for SymbolTable {
    type V = SymbolTableV;

    open spec fn view(&self) -> SymbolTableV {
        SymbolTableV {
            types: self.types@.map_values(|t: TypeSymbol| t.name@),
            funcs: self.funcs@.map_values(|f: FuncSymbol| f@),
            blocks: self.blocks@.map_values(|b: BlockSymbol| b@),
            vars: self.vars@.map_values(|v: VarSymbol| v@),
        }
    }
}

/// Ids are dense and every cross-reference lands inside its arena; a block's
/// parent always precedes it, so the parent relation is acyclic.
pub open spec fn table_wf(t: SymbolTableV) -> bool {
    &&& forall|i: int|
        0 <= i < t.funcs.len() ==> {
            &&& 0 <= #[trigger] t.funcs[i].ret_ty < t.types.len()
            &&& 0 <= t.funcs[i].entry_block < t.blocks.len()
            &&& forall|j: int|
                0 <= j < t.funcs[i].params.len() ==> 0 <= #[trigger] t.funcs[i].params[j]
                    < t.vars.len()
        }
    &&& forall|i: int|
        0 <= i < t.blocks.len() ==> {
            &&& 0 <= #[trigger] t.blocks[i].func < t.funcs.len()
            &&& match t.blocks[i].parent_block {
                Some(p) => 0 <= p < i,
                None => true,
            }
        }
    &&& forall|i: int|
        0 <= i < t.vars.len() ==> {
            &&& 0 <= #[trigger] t.vars[i].block < t.blocks.len()
            &&& 0 <= t.vars[i].ty < t.types.len()
        }
}

/// The type ids the table always starts with.
pub open spec fn unit_type_id() -> int {
    0
}

pub open spec fn int_type_id() -> int {
    1
}

pub open spec fn bool_type_id() -> int {
    2
}

impl SymbolTable {
    /// Every symbol's stored id equals its index.
    pub open spec fn ids_dense(&self) -> bool {
        &&& forall|i: int|
            0 <= i < self.types@.len() ==> (#[trigger] self.types@[i]).id == TypeId(
                i as usize,
            )
        &&& forall|i: int|
            0 <= i < self.funcs@.len() ==> (#[trigger] self.funcs@[i]).id == FuncId(
                i as usize,
            )
        &&& forall|i: int|
            0 <= i < self.blocks@.len() ==> (#[trigger] self.blocks@[i]).id == BlockId(
                i as usize,
            )
        &&& forall|i: int|
            0 <= i < self.vars@.len() ==> (#[trigger] self.vars@[i]).id == VarId(i as usize)
    }

    /// A fresh table holding only the three primitive types.
    pub fn new() -> (r: SymbolTable)
        ensures
            r@.types =~= seq!["unit"@, "int"@, "bool"@],
            r@.funcs =~= Seq::<FuncSymbolV>::empty(),
            r@.blocks =~= Seq::<BlockSymbolV>::empty(),
            r@.vars =~= Seq::<VarSymbolV>::empty(),
            r.ids_dense(),
    {
        let mut types: Vec<TypeSymbol> = Vec::new();
        types.push(TypeSymbol { id: TypeId(0), name: "unit".to_string() });
        types.push(TypeSymbol { id: TypeId(1), name: "int".to_string() });
        types.push(TypeSymbol { id: TypeId(2), name: "bool".to_string() });
        SymbolTable { types, funcs: Vec::new(), blocks: Vec::new(), vars: Vec::new() }
    }

    /// Append a function symbol, handing back its fresh id.
    pub fn add_func(
        &mut self,
        name: String,
        params: Vec<VarId>,
        ret_ty: TypeId,
        entry_block: BlockId,
    ) -> (r: FuncId)
        requires
            old(self).ids_dense(),
        ensures
            r == FuncId(old(self)@.funcs.len() as usize),
            final(self)@.funcs == old(self)@.funcs.push(
                FuncSymbolV {
                    name: name@,
                    params: params@.map_values(|v: VarId| v.0 as int),
                    ret_ty: ret_ty.0 as int,
                    entry_block: entry_block.0 as int,
                },
            ),
            final(self)@.types == old(self)@.types,
            final(self)@.blocks == old(self)@.blocks,
            final(self)@.vars == old(self)@.vars,
            final(self).ids_dense(),
    {
        let id = FuncId(self.funcs.len());
        self.funcs.push(FuncSymbol { id, name, params, ret_ty, entry_block });
        assert(self@.funcs =~= old(self)@.funcs.push(self.funcs@.last()@));
        assert(self@.types =~= old(self)@.types);
        assert(self@.blocks =~= old(self)@.blocks);
        assert(self@.vars =~= old(self)@.vars);
        id
    }

    /// Append a block symbol, handing back its fresh id.
    pub fn add_block(&mut self, func: FuncId, parent_block: Option<BlockId>) -> (r: BlockId)
        requires
            old(self).ids_dense(),
        ensures
            r == BlockId(old(self)@.blocks.len() as usize),
            final(self)@.blocks == old(self)@.blocks.push(
                BlockSymbolV {
                    func: func.0 as int,
                    parent_block: match parent_block {
                        Some(b) => Some(b.0 as int),
                        None => None,
                    },
                },
            ),
            final(self)@.types == old(self)@.types,
            final(self)@.funcs == old(self)@.funcs,
            final(self)@.vars == old(self)@.vars,
            final(self).ids_dense(),
    {
        let id = BlockId(self.blocks.len());
        self.blocks.push(BlockSymbol { id, func, parent_block });
        assert(self@.blocks =~= old(self)@.blocks.push(self.blocks@.last()@));
        assert(self@.types =~= old(self)@.types);
        assert(self@.funcs =~= old(self)@.funcs);
        assert(self@.vars =~= old(self)@.vars);
        id
    }

    /// Append a variable symbol, handing back its fresh id.
    pub fn add_var(&mut self, block: BlockId, name: String, ty: TypeId) -> (r: VarId)
        requires
            old(self).ids_dense(),
        ensures
            r == VarId(old(self)@.vars.len() as usize),
            final(self)@.vars == old(self)@.vars.push(
                VarSymbolV { block: block.0 as int, name: name@, ty: ty.0 as int },
            ),
            final(self)@.types == old(self)@.types,
            final(self)@.funcs == old(self)@.funcs,
            final(self)@.blocks == old(self)@.blocks,
            final(self).ids_dense(),
    {
        let id = VarId(self.vars.len());
        self.vars.push(VarSymbol { id, block, name, ty });
        assert(self@.vars =~= old(self)@.vars.push(self.vars@.last()@));
        assert(self@.types =~= old(self)@.types);
        assert(self@.funcs =~= old(self)@.funcs);
        assert(self@.blocks =~= old(self)@.blocks);
        id
    }
}

} // verus!
