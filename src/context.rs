use vstd::prelude::*;

use crate::ty::{Type, TypeData, all_below, type_refs_ok};
use crate::value::{Value, ValueData, ValueKind, BasicBlock};

verus! {

/// What a basic block holds: the function it belongs to, its name and its
/// instructions in order.
pub struct BlockData {
    pub parent: Value,
    pub name: String,
    pub insts: Vec<Value>,
}

/// The root owner of every type, value and block created within it.
///
/// Handles (`Type`, `Value`, `BasicBlock` and their narrowed forms) are indices
/// into the arenas of one context. Nothing is ever removed from an arena, so a
/// handle that is valid stays valid for the life of the context. The arenas are
/// public for reading; the library's operations keep them well formed (`wf`),
/// which writing to them directly may undo.
pub struct Context {
    pub types: Vec<TypeData>,
    pub values: Vec<ValueData>,
    pub blocks: Vec<BlockData>,
}

/// Every value handle in a value's description points into an arena of the given sizes.
pub open spec fn kind_refs_ok(kind: ValueKind, nv: int, nb: int) -> bool {
    match kind {
        ValueKind::ConstAggregate { elems } => forall|k: int|
            0 <= k < elems@.len() ==> 0 <= (#[trigger] elems@[k]).index < nv,
        ValueKind::Global { initializer } => initializer is Some ==> 0
            <= initializer->0.index < nv,
        ValueKind::Function { params, blocks, .. } => (forall|k: int|
            0 <= k < params@.len() ==> 0 <= (#[trigger] params@[k]).index < nv) && (forall|k: int|
            0 <= k < blocks@.len() ==> 0 <= (#[trigger] blocks@[k]).index < nb),
        ValueKind::Arg { func, .. } => 0 <= func.index < nv,
        ValueKind::Inst { operands, targets, block, .. } => (forall|k: int|
            0 <= k < operands@.len() ==> 0 <= (#[trigger] operands@[k]).index < nv) && (forall|
            k: int,
        |
            0 <= k < targets@.len() ==> 0 <= (#[trigger] targets@[k]).index < nb) && 0
            <= block.index < nb,
        _ => true,
    }
}

/// A type that is a pointer to a function signature, as the type of a function is.
pub open spec fn is_function_pointer(types: Seq<TypeData>, t: Type) -> bool {
    &&& 0 <= t.index < types.len()
    &&& types[t.index as int] is Pointer
    &&& 0 <= types[t.index as int]->Pointer_elem.index < types.len()
    &&& types[types[t.index as int]->Pointer_elem.index as int] is Function
}

pub open spec fn value_data_ok(v: ValueData, types: Seq<TypeData>, nv: int, nb: int) -> bool {
    &&& 0 <= v.ty.index < types.len()
    &&& kind_refs_ok(v.kind, nv, nb)
    &&& v.kind is Function ==> is_function_pointer(types, v.ty)
}

/// `new` is `old` with more types at its end and, at most, other bodies for
/// some named structures.
pub open spec fn types_grow(old: Seq<TypeData>, new: Seq<TypeData>) -> bool {
    &&& old.len() <= new.len()
    &&& forall|i: int|
        0 <= i < old.len() ==> (#[trigger] new[i] == old[i] || (old[i] is Named && new[i] is Named
            && new[i]->Named_name == old[i]->Named_name))
}

pub open spec fn block_data_ok(b: BlockData, nv: int) -> bool {
    &&& 0 <= b.parent.index < nv
    &&& forall|k: int| 0 <= k < b.insts@.len() ==> 0 <= (#[trigger] b.insts@[k]).index < nv
}

/// The variant of a value's description, which never changes once created.
pub open spec fn same_variant(a: ValueKind, b: ValueKind) -> bool {
    match (a, b) {
        (ValueKind::ConstInt { .. }, ValueKind::ConstInt { .. }) => true,
        (ValueKind::ConstAggregate { .. }, ValueKind::ConstAggregate { .. }) => true,
        (ValueKind::ConstString { .. }, ValueKind::ConstString { .. }) => true,
        (ValueKind::Undef, ValueKind::Undef) => true,
        (ValueKind::Global { .. }, ValueKind::Global { .. }) => true,
        (ValueKind::Function { .. }, ValueKind::Function { .. }) => true,
        (ValueKind::Arg { .. }, ValueKind::Arg { .. }) => true,
        (ValueKind::Inst { .. }, ValueKind::Inst { .. }) => true,
        _ => false,
    }
}

impl Context {
    /// A fresh context with empty arenas.
    pub fn new() -> (r: Context)
        ensures
            r.wf(),
            r.types@.len() == 0,
            r.values@.len() == 0,
            r.blocks@.len() == 0,
    {
        Context { types: Vec::new(), values: Vec::new(), blocks: Vec::new() }
    }

    /// Every handle stored in the context points into its arenas, and every
    /// anonymous type refers only to types created before it.
    pub open spec fn wf(&self) -> bool {
        &&& forall|i: int|
            0 <= i < self.types@.len() ==> type_refs_ok(
                #[trigger] self.types@[i],
                i,
                self.types@.len() as int,
            )
        &&& forall|i: int|
            0 <= i < self.values@.len() ==> value_data_ok(
                #[trigger] self.values@[i],
                self.types@,
                self.values@.len() as int,
                self.blocks@.len() as int,
            )
        &&& forall|i: int|
            0 <= i < self.blocks@.len() ==> block_data_ok(
                #[trigger] self.blocks@[i],
                self.values@.len() as int,
            )
    }

    pub open spec fn valid_type(&self, t: Type) -> bool {
        0 <= t.index < self.types@.len()
    }

    pub open spec fn valid_value(&self, v: Value) -> bool {
        0 <= v.index < self.values@.len()
    }

    pub open spec fn valid_block(&self, b: BasicBlock) -> bool {
        0 <= b.index < self.blocks@.len()
    }

    /// The type data of a valid type handle.
    pub open spec fn type_at(&self, t: Type) -> TypeData {
        self.types@[t.index as int]
    }

    /// The description of a valid value handle.
    pub open spec fn value_at(&self, v: Value) -> ValueData {
        self.values@[v.index as int]
    }

    /// The type of a valid value handle.
    pub open spec fn type_of(&self, v: Value) -> Type {
        self.values@[v.index as int].ty
    }

    /// `self` is `old` with arenas that only grew: every old type keeps its
    /// data (but for the body of a named struct), every old value keeps its type,
    /// name and variant, and every old block keeps its function.
    pub open spec fn grows_from(&self, old: Context) -> bool {
        &&& types_grow(old.types@, self.types@)
        &&& old.values@.len() <= self.values@.len()
        &&& old.blocks@.len() <= self.blocks@.len()
        &&& forall|i: int|
            0 <= i < old.values@.len() ==> {
                &&& (#[trigger] self.values@[i]).ty == old.values@[i].ty
                &&& same_variant(self.values@[i].kind, old.values@[i].kind)
            }
        &&& forall|i: int|
            0 <= i < old.blocks@.len() ==> (#[trigger] self.blocks@[i]).parent
                == old.blocks@[i].parent
    }

    /// The same context with one more value at the end of its arena.
    pub(crate) fn push_value(&mut self, data: ValueData) -> (r: Value)
        requires
            old(self).wf(),
            value_data_ok(
                data,
                old(self).types@,
                (old(self).values@.len() + 1) as int,
                old(self).blocks@.len() as int,
            ),
            old(self).values@.len() < usize::MAX,
        ensures
            final(self).wf(),
            final(self).types@ == old(self).types@,
            final(self).blocks@ == old(self).blocks@,
            final(self).values@ == old(self).values@.push(data),
            r.index == old(self).values@.len(),
            final(self).grows_from(*old(self)),
    {
        let r = Value { index: self.values.len() };
        self.values.push(data);
        proof {
            let nt = self.types@;
            let nv = self.values@.len() as int;
            let nb = self.blocks@.len() as int;
            assert forall|i: int| 0 <= i < nv implies value_data_ok(
                #[trigger] self.values@[i],
                nt,
                nv,
                nb,
            ) by {
                if i < nv - 1 {
                    lemma_value_data_ok_mono(old(self).values@[i], nt, nv - 1, nb, nt, nv, nb);
                }
            }
            assert forall|i: int| 0 <= i < nb implies block_data_ok(
                #[trigger] self.blocks@[i],
                nv,
            ) by {
                assert(block_data_ok(old(self).blocks@[i], nv - 1));
            }
        }
        r
    }
}

/// Validity of a value's description survives growth of the arenas.
pub proof fn lemma_value_data_ok_mono(
    v: ValueData,
    nt: Seq<TypeData>,
    nv: int,
    nb: int,
    nt2: Seq<TypeData>,
    nv2: int,
    nb2: int,
)
    requires
        value_data_ok(v, nt, nv, nb),
        types_grow(nt, nt2),
        nv <= nv2,
        nb <= nb2,
    ensures
        value_data_ok(v, nt2, nv2, nb2),
{
    if v.kind is Function {
        let p = nt[v.ty.index as int];
        assert(nt2[v.ty.index as int] == p);
        assert(nt2[p->Pointer_elem.index as int] == nt[p->Pointer_elem.index as int]);
    }
    match v.kind {
        ValueKind::ConstAggregate { elems } => {
            assert forall|k: int| 0 <= k < elems@.len() implies 0 <= (#[trigger] elems@[k]).index
                < nv2 by {}
        },
        ValueKind::Function { params, blocks, .. } => {
            assert forall|k: int| 0 <= k < params@.len() implies 0 <= (
            #[trigger] params@[k]).index < nv2 by {}
            assert forall|k: int| 0 <= k < blocks@.len() implies 0 <= (
            #[trigger] blocks@[k]).index < nb2 by {}
        },
        ValueKind::Inst { operands, targets, .. } => {
            assert forall|k: int| 0 <= k < operands@.len() implies 0 <= (
            #[trigger] operands@[k]).index < nv2 by {}
            assert forall|k: int| 0 <= k < targets@.len() implies 0 <= (
            #[trigger] targets@[k]).index < nb2 by {}
        },
        _ => {},
    }
}

fn types_below(items: &Vec<Type>, n: usize) -> (r: bool)
    ensures
        r == all_below(items@, n as int),
{
    let mut k: usize = 0;
    while k < items.len()
        invariant
            0 <= k <= items@.len(),
            forall|q: int| 0 <= q < k ==> 0 <= (#[trigger] items@[q]).index < n,
        decreases items@.len() - k,
    {
        if items[k].index >= n {
            return false;
        }
        k = k + 1;
    }
    true
}

fn values_below(items: &Vec<Value>, n: usize) -> (r: bool)
    ensures
        r == (forall|q: int| 0 <= q < items@.len() ==> 0 <= (#[trigger] items@[q]).index < n),
{
    let mut k: usize = 0;
    while k < items.len()
        invariant
            0 <= k <= items@.len(),
            forall|q: int| 0 <= q < k ==> 0 <= (#[trigger] items@[q]).index < n,
        decreases items@.len() - k,
    {
        if items[k].index >= n {
            return false;
        }
        k = k + 1;
    }
    true
}

fn blocks_below(items: &Vec<BasicBlock>, n: usize) -> (r: bool)
    ensures
        r == (forall|q: int| 0 <= q < items@.len() ==> 0 <= (#[trigger] items@[q]).index < n),
{
    let mut k: usize = 0;
    while k < items.len()
        invariant
            0 <= k <= items@.len(),
            forall|q: int| 0 <= q < k ==> 0 <= (#[trigger] items@[q]).index < n,
        decreases items@.len() - k,
    {
        if items[k].index >= n {
            return false;
        }
        k = k + 1;
    }
    true
}

impl Context {
    fn type_entry_ok(&self, i: usize) -> (r: bool)
        requires
            i < self.types@.len(),
        ensures
            r == type_refs_ok(self.types@[i as int], i as int, self.types@.len() as int),
    {
        match &self.types[i] {
            TypeData::Pointer { elem, .. } => elem.index < i,
            TypeData::Array { elem, .. } => elem.index < i,
            TypeData::Vector { elem, .. } => elem.index < i,
            TypeData::Struct { fields, .. } => types_below(fields, i),
            TypeData::Function { ret, params } => ret.index < i && types_below(params, i),
            TypeData::Named { fields, .. } => types_below(fields, self.types.len()),
            _ => true,
        }
    }

    fn value_entry_ok(&self, i: usize) -> (r: bool)
        requires
            i < self.values@.len(),
        ensures
            r == value_data_ok(
                self.values@[i as int],
                self.types@,
                self.values@.len() as int,
                self.blocks@.len() as int,
            ),
    {
        let nt = self.types.len();
        let nv = self.values.len();
        let nb = self.blocks.len();
        let data = &self.values[i];
        if data.ty.index >= nt {
            return false;
        }
        let refs = match &data.kind {
            ValueKind::ConstAggregate { elems } => values_below(elems, nv),
            ValueKind::Global { initializer } => match initializer {
                Some(v) => v.index < nv,
                None => true,
            },
            ValueKind::Function { params, blocks, .. } => values_below(params, nv) && blocks_below(blocks, nb),
            ValueKind::Arg { func, .. } => func.index < nv,
            ValueKind::Inst { operands, targets, block, .. } => values_below(operands, nv) && blocks_below(
                targets,
                nb,
            ) && block.index < nb,
            _ => true,
        };
        if !refs {
            return false;
        }
        match &data.kind {
            ValueKind::Function { .. } => match &self.types[data.ty.index] {
                TypeData::Pointer { elem, .. } => elem.index < nt && match &self.types[elem.index] {
                    TypeData::Function { .. } => true,
                    _ => false,
                },
                _ => false,
            },
            _ => true,
        }
    }

    /// Tests whether the context is well formed, as the library's operations keep it.
    pub fn is_well_formed(&self) -> (r: bool)
        ensures
            r == self.wf(),
    {
        let mut i: usize = 0;
        while i < self.types.len()
            invariant
                0 <= i <= self.types@.len(),
                forall|q: int| 0 <= q < i ==> type_refs_ok(#[trigger] self.types@[q], q, self.types@.len() as int),
            decreases self.types@.len() - i,
        {
            if !self.type_entry_ok(i) {
                return false;
            }
            i = i + 1;
        }
        let mut i: usize = 0;
        while i < self.values.len()
            invariant
                0 <= i <= self.values@.len(),
                forall|q: int| 0 <= q < self.types@.len() ==> type_refs_ok(#[trigger] self.types@[q], q, self.types@.len() as int),
                forall|q: int| 0 <= q < i ==> value_data_ok(
                    #[trigger] self.values@[q],
                    self.types@,
                    self.values@.len() as int,
                    self.blocks@.len() as int,
                ),
            decreases self.values@.len() - i,
        {
            if !self.value_entry_ok(i) {
                return false;
            }
            i = i + 1;
        }
        let nv = self.values.len();
        let mut i: usize = 0;
        while i < self.blocks.len()
            invariant
                nv == self.values@.len(),
                0 <= i <= self.blocks@.len(),
                forall|q: int| 0 <= q < self.types@.len() ==> type_refs_ok(#[trigger] self.types@[q], q, self.types@.len() as int),
                forall|q: int| 0 <= q < self.values@.len() ==> value_data_ok(
                    #[trigger] self.values@[q],
                    self.types@,
                    self.values@.len() as int,
                    self.blocks@.len() as int,
                ),
                forall|q: int| 0 <= q < i ==> block_data_ok(#[trigger] self.blocks@[q], nv as int),
            decreases self.blocks@.len() - i,
        {
            let b = &self.blocks[i];
            if b.parent.index >= nv || !values_below(&b.insts, nv) {
                return false;
            }
            i = i + 1;
        }
        true
    }
}

} // verus!
