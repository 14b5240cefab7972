use vstd::prelude::*;

use crate::context::{Context, value_data_ok};
use crate::opcode::{
    Arith, Opcode, Predicate, arith_opcode, arith_opcode_spec, int_predicate, int_predicate_spec,
    real_predicate, real_predicate_spec,
};
use crate::ty::{Type, TypeData, TypeKind, kind_of_data, is_float_kind, interned};
use crate::value::{Value, ValueData, ValueKind, BasicBlock, Function, PhiNode};

verus! {

/// A cursor that creates instructions and inserts them into a basic block.
///
/// Unpositioned, `block` is `None`. Positioned, new instructions go into
/// `block` just before `point`, or at its end when `point` is `None`.
pub struct Builder {
    pub block: Option<BasicBlock>,
    pub point: Option<Value>,
}

/// `k` is where an instruction goes in `insts` for a cursor at `point`: just
/// before the first occurrence of `point`, or at the end.
pub open spec fn insertion_index(insts: Seq<Value>, point: Option<Value>, k: int) -> bool {
    match point {
        None => k == insts.len(),
        Some(p) => 0 <= k < insts.len() && insts[k] == p && forall|j: int|
            0 <= j < k ==> #[trigger] insts[j] != p,
    }
}

/// `new` is `old` with `r` inserted at the builder's cursor, and no other block changed.
pub open spec fn inserted_at_cursor(old: Context, new: Context, b: Builder, r: Value) -> bool {
    let blk = b.block->0.index as int;
    &&& new.blocks@.len() == old.blocks@.len()
    &&& forall|j: int|
        0 <= j < old.blocks@.len() && j != blk ==> #[trigger] new.blocks@[j] == old.blocks@[j]
    &&& new.blocks@[blk].parent == old.blocks@[blk].parent
    &&& new.blocks@[blk].name == old.blocks@[blk].name
    &&& exists|k: int|
        insertion_index(old.blocks@[blk].insts@, b.point, k) && new.blocks@[blk].insts@
            == old.blocks@[blk].insts@.insert(k, r)
}

/// `new` is `old` with one new unnamed instruction `r`, inserted at the builder's
/// cursor, with the operation, operands, target blocks and name given; the type arena
/// may have grown by the type of `r`.
pub open spec fn emitted(
    old: Context,
    new: Context,
    b: Builder,
    r: Value,
    op: Opcode,
    operands: Seq<Value>,
    targets: Seq<BasicBlock>,
    tail: bool,
    name: Seq<char>,
) -> bool {
    &&& new.grows_from(old)
    &&& new.types@.len() <= old.types@.len() + 1
    &&& r.index == old.values@.len()
    &&& new.values@ == old.values@.push(new.values@[r.index as int])
    &&& new.value_at(r).name@ == name
    &&& new.value_at(r).kind is Inst
    &&& new.value_at(r).kind->Inst_op == op
    &&& new.value_at(r).kind->Inst_operands@ == operands
    &&& new.value_at(r).kind->Inst_targets@ == targets
    &&& new.value_at(r).kind->Inst_block == b.block->0
    &&& new.value_at(r).kind->Inst_tail_call == tail
    &&& inserted_at_cursor(old, new, b, r)
}

/// Whether two operands are both integers or both floating-point numbers.
pub open spec fn same_numeric_kind(ctx: Context, l: Value, r: Value) -> bool {
    let kl = kind_of_data(ctx.type_at(ctx.type_of(l)));
    let kr = kind_of_data(ctx.type_at(ctx.type_of(r)));
    (kl == TypeKind::Integer && kr == TypeKind::Integer) || (is_float_kind(kl) && is_float_kind(kr))
}

pub open spec fn is_integer_value(ctx: Context, v: Value) -> bool {
    kind_of_data(ctx.type_at(ctx.type_of(v))) == TypeKind::Integer
}

/// The type that indexing into a value of type `t` with `idx` yields: a field of
/// a structure (the index must be a constant), or the element of a sequence.
pub open spec fn indexed_type(ctx: Context, t: Type, idx: Value) -> Option<Type> {
    match ctx.type_at(t) {
        TypeData::Array { elem, .. } => Some(elem),
        TypeData::Vector { elem, .. } => Some(elem),
        TypeData::Struct { fields, .. } => if ctx.value_at(idx).kind is ConstInt
            && ctx.value_at(idx).kind->ConstInt_value < fields@.len() {
            Some(fields@[ctx.value_at(idx).kind->ConstInt_value as int])
        } else {
            None
        },
        TypeData::Named { fields, .. } => if ctx.value_at(idx).kind is ConstInt
            && ctx.value_at(idx).kind->ConstInt_value < fields@.len() {
            Some(fields@[ctx.value_at(idx).kind->ConstInt_value as int])
        } else {
            None
        },
        _ => None,
    }
}

/// The type reached from `t` by indexing with each of `idxs` in turn.
pub open spec fn walk_indices(ctx: Context, t: Type, idxs: Seq<Value>) -> Option<Type>
    decreases idxs.len(),
{
    if idxs.len() == 0 {
        Some(t)
    } else {
        match indexed_type(ctx, t, idxs[0]) {
            Some(next) => walk_indices(ctx, next, idxs.skip(1)),
            None => None,
        }
    }
}

/// The field type at a constant position of a structure, or the element type of
/// an array or vector.
pub open spec fn member_type(ctx: Context, t: Type, index: usize) -> Option<Type> {
    match ctx.type_at(t) {
        TypeData::Array { elem, .. } => Some(elem),
        TypeData::Vector { elem, .. } => Some(elem),
        TypeData::Struct { fields, .. } => if index < fields@.len() {
            Some(fields@[index as int])
        } else {
            None
        },
        TypeData::Named { fields, .. } => if index < fields@.len() {
            Some(fields@[index as int])
        } else {
            None
        },
        _ => None,
    }
}

impl Builder {
    /// An unpositioned builder.
    pub fn new() -> (r: Builder)
        ensures
            r.block is None,
            r.point is None,
    {
        Builder { block: None, point: None }
    }

    /// The cursor points into the context: at a block and, when set, at one of its
    /// instructions.
    pub open spec fn wf(&self, ctx: Context) -> bool {
        match self.block {
            None => self.point is None,
            Some(b) => ctx.valid_block(b) && match self.point {
                None => true,
                Some(p) => exists|k: int|
                    0 <= k < ctx.blocks@[b.index as int].insts@.len()
                        && ctx.blocks@[b.index as int].insts@[k] == p,
            },
        }
    }

    /// The builder is positioned and the context has room for one more
    /// instruction at the cursor.
    pub open spec fn slot(&self, ctx: Context) -> bool {
        &&& self.block is Some
        &&& ctx.values@.len() + 1 < usize::MAX
        &&& ctx.blocks@[self.block->0.index as int].insts@.len() + 1 < usize::MAX
    }

    /// The builder is positioned in a well-formed context with room for one more
    /// instruction and its type.
    pub open spec fn ready(&self, ctx: Context) -> bool {
        &&& ctx.wf()
        &&& self.wf(ctx)
        &&& self.slot(ctx)
        &&& ctx.types@.len() + 2 < usize::MAX
    }

    /// Returns the block the builder is positioned in.
    pub fn get_insert_block(&self) -> (r: Option<BasicBlock>)
        ensures
            r == self.block,
    {
        self.block
    }

    /// Position the builder at `instr` within `block`.
    pub fn position_at(&mut self, ctx: &Context, block: BasicBlock, instr: Value)
        requires
            ctx.valid_block(block),
            exists|k: int|
                0 <= k < ctx.blocks@[block.index as int].insts@.len()
                    && ctx.blocks@[block.index as int].insts@[k] == instr,
        ensures
            final(self).block == Some(block),
            final(self).point == Some(instr),
            final(self).wf(*ctx),
    {
        self.block = Some(block);
        self.point = Some(instr);
    }

    /// Position the builder at the end of `block`.
    pub fn position_at_end(&mut self, ctx: &Context, block: BasicBlock)
        requires
            ctx.valid_block(block),
        ensures
            final(self).block == Some(block),
            final(self).point is None,
            final(self).wf(*ctx),
    {
        self.block = Some(block);
        self.point = None;
    }

    /// Inserts the instruction `data` at the cursor.
    fn insert(&self, ctx: &mut Context, data: ValueData) -> (r: Value)
        requires
            old(ctx).wf(),
            self.wf(*old(ctx)),
            self.slot(*old(ctx)),
            value_data_ok(
                data,
                old(ctx).types@,
                (old(ctx).values@.len() + 1) as int,
                old(ctx).blocks@.len() as int,
            ),
        ensures
            final(ctx).wf(),
            self.wf(*final(ctx)),
            final(ctx).grows_from(*old(ctx)),
            final(ctx).types@ == old(ctx).types@,
            final(ctx).values@ == old(ctx).values@.push(data),
            r.index == old(ctx).values@.len(),
            inserted_at_cursor(*old(ctx), *final(ctx), *self, r),
    {
        let b = self.block.unwrap().index;
        let r = ctx.push_value(data);
        let ghost mid = *ctx;
        let ghost old_insts = ctx.blocks@[b as int].insts@;
        let mut k: usize = ctx.blocks[b].insts.len();
        match self.point {
            Some(p) => {
                let mut j: usize = 0;
                while j < ctx.blocks[b].insts.len() && ctx.blocks[b].insts[j] != p
                    invariant
                        *ctx == mid,
                        b < ctx.blocks@.len(),
                        0 <= j <= ctx.blocks@[b as int].insts@.len(),
                        forall|i: int| 0 <= i < j ==> #[trigger] ctx.blocks@[b as int].insts@[i] != p,
                        exists|i: int|
                            0 <= i < ctx.blocks@[b as int].insts@.len()
                                && ctx.blocks@[b as int].insts@[i] == p,
                    decreases ctx.blocks@[b as int].insts@.len() - j,
                {
                    j = j + 1;
                }
                proof {
                    if j == ctx.blocks@[b as int].insts@.len() {
                        let i = choose|i: int|
                            0 <= i < ctx.blocks@[b as int].insts@.len()
                                && ctx.blocks@[b as int].insts@[i] == p;
                        assert(ctx.blocks@[b as int].insts@[i] != p);
                    }
                }
                k = j;
            },
            None => {},
        }
        proof {
            assert(insertion_index(old_insts, self.point, k as int));
        }
        ctx.blocks[b].insts.insert(k, r);
        proof {
            assert(ctx.blocks@[b as int].insts@ == old_insts.insert(k as int, r));
            let nv = ctx.values@.len() as int;
            assert forall|i: int| 0 <= i < ctx.blocks@.len() implies crate::context::block_data_ok(
                #[trigger] ctx.blocks@[i],
                nv,
            ) by {
                if i == b {
                    let ins = ctx.blocks@[i].insts@;
                    assert forall|q: int| 0 <= q < ins.len() implies 0 <= (#[trigger] ins[q]).index < nv by {
                        if q < k {
                            assert(ins[q] == old_insts[q]);
                        } else if q > k {
                            assert(ins[q] == old_insts[q - 1]);
                        }
                    }
                } else {
                    assert(ctx.blocks@[i] == mid.blocks@[i]);
                }
            }
            match self.point {
                Some(p) => {
                    let ins = ctx.blocks@[b as int].insts@;
                    assert(ins[k as int + 1] == p);
                },
                None => {},
            }
        }
        r
    }

    /// Creates an unnamed instruction of type `ty` at the cursor.
    fn emit(
        &self,
        ctx: &mut Context,
        op: Opcode,
        ty: Type,
        operands: Vec<Value>,
        targets: Vec<BasicBlock>,
        tail: bool,
        name: String,
    ) -> (r: Value)
        requires
            old(ctx).wf(),
            self.wf(*old(ctx)),
            self.slot(*old(ctx)),
            old(ctx).valid_type(ty),
            old(ctx).all_valid(operands@),
            forall|k: int| 0 <= k < targets@.len() ==> old(ctx).valid_block(#[trigger] targets@[k]),
        ensures
            final(ctx).wf(),
            self.wf(*final(ctx)),
            final(ctx).types@ == old(ctx).types@,
            final(ctx).type_of(r) == ty,
            emitted(*old(ctx), *final(ctx), *self, r, op, operands@, targets@, tail, name@),
    {
        let block = self.block.unwrap();
        let data = ValueData {
            ty,
            name,
            kind: ValueKind::Inst { op, operands, targets, block, tail_call: tail },
        };
        self.insert(ctx, data)
    }

    fn void_result(ctx: &mut Context) -> (t: Type)
        requires
            old(ctx).wf(),
            old(ctx).types@.len() + 2 < usize::MAX,
        ensures
            final(ctx).wf(),
            interned(*old(ctx), *final(ctx), |x: TypeData| x is Void, t),
    {
        Type::void_ty(ctx)
    }

    /// Build an instruction that returns from the function with void.
    pub fn create_ret_void(&self, ctx: &mut Context) -> (r: Value)
        requires
            self.ready(*old(ctx)),
        ensures
            final(ctx).wf(),
            self.wf(*final(ctx)),
            emitted(*old(ctx), *final(ctx), *self, r, Opcode::RetVoid, seq![], seq![], false, seq![]),
            final(ctx).type_at(final(ctx).type_of(r)) is Void,
    {
        let t = Builder::void_result(ctx);
        self.emit(ctx, Opcode::RetVoid, t, Vec::new(), Vec::new(), false, String::new())
    }

    /// Build an instruction that returns from the function with `value`.
    pub fn create_ret(&self, ctx: &mut Context, value: Value) -> (r: Value)
        requires
            self.ready(*old(ctx)),
            old(ctx).valid_value(value),
        ensures
            final(ctx).wf(),
            self.wf(*final(ctx)),
            emitted(*old(ctx), *final(ctx), *self, r, Opcode::Ret, seq![value], seq![], false, seq![]),
            final(ctx).type_at(final(ctx).type_of(r)) is Void,
    {
        let t = Builder::void_result(ctx);
        self.emit(ctx, Opcode::Ret, t, single(value), Vec::new(), false, String::new())
    }

    /// Build an instruction that allocates an array of `size` elements of type
    /// `elem` and yields a pointer to it.
    pub fn build_array_alloca(&self, ctx: &mut Context, elem: Type, size: Value) -> (r: Value)
        requires
            self.ready(*old(ctx)),
            old(ctx).valid_type(elem),
            old(ctx).valid_value(size),
        ensures
            final(ctx).wf(),
            self.wf(*final(ctx)),
            emitted(*old(ctx), *final(ctx), *self, r, Opcode::ArrayAlloca, seq![size], seq![], false, seq![]),
            final(ctx).type_at(final(ctx).type_of(r)) == (TypeData::Pointer { elem, space: 0 }),
    {
        let t = Type::pointer_ty(ctx, elem);
        self.emit(ctx, Opcode::ArrayAlloca, t, single(size), Vec::new(), false, String::new())
    }

    /// Build an instruction that allocates room for a value of type `ty` and
    /// yields a pointer to it.
    pub fn create_alloca(&self, ctx: &mut Context, ty: Type) -> (r: Value)
        requires
            self.ready(*old(ctx)),
            old(ctx).valid_type(ty),
        ensures
            final(ctx).wf(),
            self.wf(*final(ctx)),
            emitted(*old(ctx), *final(ctx), *self, r, Opcode::Alloca, seq![], seq![], false, seq![]),
            final(ctx).type_at(final(ctx).type_of(r)) == (TypeData::Pointer { elem: ty, space: 0 }),
    {
        let t = Type::pointer_ty(ctx, ty);
        self.emit(ctx, Opcode::Alloca, t, Vec::new(), Vec::new(), false, String::new())
    }

    /// Build an instruction that frees the memory that `val` points to.
    pub fn create_free(&self, ctx: &mut Context, val: Value) -> (r: Value)
        requires
            self.ready(*old(ctx)),
            old(ctx).valid_value(val),
        ensures
            final(ctx).wf(),
            self.wf(*final(ctx)),
            emitted(*old(ctx), *final(ctx), *self, r, Opcode::Free, seq![val], seq![], false, seq![]),
            final(ctx).type_at(final(ctx).type_of(r)) is Void,
    {
        let t = Builder::void_result(ctx);
        self.emit(ctx, Opcode::Free, t, single(val), Vec::new(), false, String::new())
    }

    /// Build an instruction that stores the value `val` in the pointer `ptr`.
    pub fn create_store(&self, ctx: &mut Context, val: Value, ptr: Value) -> (r: Value)
        requires
            self.ready(*old(ctx)),
            old(ctx).valid_value(val),
            old(ctx).valid_value(ptr),
        ensures
            final(ctx).wf(),
            self.wf(*final(ctx)),
            emitted(*old(ctx), *final(ctx), *self, r, Opcode::Store, seq![val, ptr], seq![], false, seq![]),
            final(ctx).type_at(final(ctx).type_of(r)) is Void,
    {
        let t = Builder::void_result(ctx);
        self.emit(ctx, Opcode::Store, t, vec![val, ptr], Vec::new(), false, String::new())
    }

    /// Build an instruction that loads the value that `ptr` points to.
    pub fn create_load(&self, ctx: &mut Context, ptr: Value) -> (r: Value)
        requires
            self.ready(*old(ctx)),
            old(ctx).valid_value(ptr),
            old(ctx).type_at(old(ctx).type_of(ptr)) is Pointer,
        ensures
            final(ctx).wf(),
            self.wf(*final(ctx)),
            emitted(*old(ctx), *final(ctx), *self, r, Opcode::Load, seq![ptr], seq![], false, seq![]),
            final(ctx).type_of(r) == old(ctx).type_at(old(ctx).type_of(ptr))->Pointer_elem,
    {
        proof {
            assert(value_data_ok(old(ctx).values@[ptr.index as int], old(ctx).types@, old(ctx).values@.len() as int, old(ctx).blocks@.len() as int));
            let t = old(ctx).type_of(ptr);
            assert(crate::ty::type_refs_ok(old(ctx).types@[t.index as int], t.index as int, old(ctx).types@.len() as int));
        }
        let t = match ptr.get_type(ctx).get_element(ctx) {
            Some(e) => e,
            None => ptr.get_type(ctx),
        };
        self.emit(ctx, Opcode::Load, t, single(ptr), Vec::new(), false, String::new())
    }

    /// Build an instruction that branches to the block `dest`.
    pub fn create_br(&self, ctx: &mut Context, dest: BasicBlock) -> (r: Value)
        requires
            self.ready(*old(ctx)),
            old(ctx).valid_block(dest),
        ensures
            final(ctx).wf(),
            self.wf(*final(ctx)),
            emitted(*old(ctx), *final(ctx), *self, r, Opcode::Br, seq![], seq![dest], false, seq![]),
            final(ctx).type_at(final(ctx).type_of(r)) is Void,
    {
        let t = Builder::void_result(ctx);
        self.emit(ctx, Opcode::Br, t, Vec::new(), single(dest), false, String::new())
    }

    /// Build an instruction that branches to `if_block` if `cond` is true, and to
    /// `else_block` otherwise. A branch without `else_block` is malformed and
    /// fails verification of its module.
    pub fn create_cond_br(
        &self,
        ctx: &mut Context,
        cond: Value,
        if_block: BasicBlock,
        else_block: Option<BasicBlock>,
    ) -> (r: Value)
        requires
            self.ready(*old(ctx)),
            old(ctx).valid_value(cond),
            old(ctx).valid_block(if_block),
            else_block is Some ==> old(ctx).valid_block(else_block->0),
        ensures
            final(ctx).wf(),
            self.wf(*final(ctx)),
            emitted(
                *old(ctx),
                *final(ctx),
                *self,
                r,
                Opcode::CondBr,
                seq![cond],
                match else_block {
                    Some(e) => seq![if_block, e],
                    None => seq![if_block],
                },
                false,
                seq![],
            ),
            final(ctx).type_at(final(ctx).type_of(r)) is Void,
    {
        let t = Builder::void_result(ctx);
        let targets = match else_block {
            Some(e) => vec![if_block, e],
            None => single(if_block),
        };
        self.emit(ctx, Opcode::CondBr, t, single(cond), targets, false, String::new())
    }

    fn call(&self, ctx: &mut Context, func: Function, args: &[Value], tail: bool) -> (r: Value)
        requires
            self.ready(*old(ctx)),
            old(ctx).is_function_value(func.as_value()),
            old(ctx).all_valid(args@),
        ensures
            final(ctx).wf(),
            self.wf(*final(ctx)),
            emitted(*old(ctx), *final(ctx), *self, r, Opcode::Call, seq![func.as_value()] + args@, seq![], tail, seq![]),
            final(ctx).type_of(r) == return_type(*old(ctx), func),
    {
        let sig = func.get_signature(ctx);
        let ret = sig.get_return(ctx);
        proof {
            assert(crate::ty::type_refs_ok(ctx.types@[sig.index as int], sig.index as int, ctx.types@.len() as int));
        }
        let mut operands: Vec<Value> = Vec::new();
        operands.push(func.as_value());
        let mut i: usize = 0;
        while i < args.len()
            invariant
                0 <= i <= args@.len(),
                operands@ == seq![func.as_value()] + args@.subrange(0, i as int),
            decreases args@.len() - i,
        {
            operands.push(args[i]);
            proof {
                assert(seq![func.as_value()] + args@.subrange(0, i as int + 1) =~= (seq![func.as_value()] + args@.subrange(0, i as int)).push(args@[i as int]));
            }
            i = i + 1;
        }
        proof {
            assert(args@.subrange(0, args@.len() as int) =~= args@);
            assert forall|k: int| 0 <= k < operands@.len() implies ctx.valid_value(#[trigger] operands@[k]) by {
                if k > 0 {
                    assert(operands@[k] == args@[k - 1]);
                }
            }
        }
        self.emit(ctx, Opcode::Call, ret, operands, Vec::new(), tail, String::new())
    }

    /// Build an instruction that calls the function `func` with the arguments
    /// `args`, and yields what it returns.
    pub fn create_call(&self, ctx: &mut Context, func: Function, args: &[Value]) -> (r: Value)
        requires
            self.ready(*old(ctx)),
            old(ctx).is_function_value(func.as_value()),
            old(ctx).all_valid(args@),
        ensures
            final(ctx).wf(),
            self.wf(*final(ctx)),
            emitted(*old(ctx), *final(ctx), *self, r, Opcode::Call, seq![func.as_value()] + args@, seq![], false, seq![]),
            final(ctx).type_of(r) == return_type(*old(ctx), func),
    {
        self.call(ctx, func, args, false)
    }

    /// As `create_call`, with the tail-call hint set. The hint does not change
    /// what the call does and is not checked against the call's position.
    pub fn create_tail_call(&self, ctx: &mut Context, func: Function, args: &[Value]) -> (r: Value)
        requires
            self.ready(*old(ctx)),
            old(ctx).is_function_value(func.as_value()),
            old(ctx).all_valid(args@),
        ensures
            final(ctx).wf(),
            self.wf(*final(ctx)),
            emitted(*old(ctx), *final(ctx), *self, r, Opcode::Call, seq![func.as_value()] + args@, seq![], true, seq![]),
            final(ctx).type_of(r) == return_type(*old(ctx), func),
    {
        self.call(ctx, func, args, true)
    }

    /// Build an instruction that yields `true_val` if `cond` is true, and
    /// `false_val` otherwise.
    pub fn create_select(&self, ctx: &mut Context, cond: Value, true_val: Value, false_val: Value) -> (r: Value)
        requires
            self.ready(*old(ctx)),
            old(ctx).valid_value(cond),
            old(ctx).valid_value(true_val),
            old(ctx).valid_value(false_val),
        ensures
            final(ctx).wf(),
            self.wf(*final(ctx)),
            emitted(*old(ctx), *final(ctx), *self, r, Opcode::Select, seq![cond, true_val, false_val], seq![], false, seq![]),
            final(ctx).type_of(r) == old(ctx).type_of(true_val),
    {
        proof {
            assert(value_data_ok(ctx.values@[true_val.index as int], ctx.types@, ctx.values@.len() as int, ctx.blocks@.len() as int));
        }
        let t = true_val.get_type(ctx);
        self.emit(ctx, Opcode::Select, t, vec![cond, true_val, false_val], Vec::new(), false, String::new())
    }

    /// Build an instruction that reinterprets a value as the type `dest`.
    pub fn create_bit_cast(&self, ctx: &mut Context, value: Value, dest: Type) -> (r: Value)
        requires
            self.ready(*old(ctx)),
            old(ctx).valid_value(value),
            old(ctx).valid_type(dest),
        ensures
            final(ctx).wf(),
            self.wf(*final(ctx)),
            emitted(*old(ctx), *final(ctx), *self, r, Opcode::BitCast, seq![value], seq![], false, seq![]),
            final(ctx).type_of(r) == dest,
    {
        self.emit(ctx, Opcode::BitCast, dest, single(value), Vec::new(), false, String::new())
    }

    /// Build an instruction that inserts `elem` into an aggregate value at `index`.
    pub fn create_insert_value(&self, ctx: &mut Context, agg: Value, elem: Value, index: usize) -> (r: Value)
        requires
            self.ready(*old(ctx)),
            old(ctx).valid_value(agg),
            old(ctx).valid_value(elem),
            member_type(*old(ctx), old(ctx).type_of(agg), index) is Some,
        ensures
            final(ctx).wf(),
            self.wf(*final(ctx)),
            emitted(*old(ctx), *final(ctx), *self, r, Opcode::InsertValue(index), seq![agg, elem], seq![], false, seq![]),
            final(ctx).type_of(r) == old(ctx).type_of(agg),
    {
        proof {
            assert(value_data_ok(ctx.values@[agg.index as int], ctx.types@, ctx.values@.len() as int, ctx.blocks@.len() as int));
        }
        let t = agg.get_type(ctx);
        self.emit(ctx, Opcode::InsertValue(index), t, vec![agg, elem], Vec::new(), false, String::new())
    }

    /// Build an instruction that extracts the member at `index` of an aggregate value.
    pub fn create_extract_value(&self, ctx: &mut Context, agg: Value, index: usize) -> (r: Value)
        requires
            self.ready(*old(ctx)),
            old(ctx).valid_value(agg),
            member_type(*old(ctx), old(ctx).type_of(agg), index) is Some,
        ensures
            final(ctx).wf(),
            self.wf(*final(ctx)),
            emitted(*old(ctx), *final(ctx), *self, r, Opcode::ExtractValue(index), seq![agg], seq![], false, seq![]),
            final(ctx).type_of(r) == member_type(*old(ctx), old(ctx).type_of(agg), index)->0,
    {
        proof {
            assert(value_data_ok(ctx.values@[agg.index as int], ctx.types@, ctx.values@.len() as int, ctx.blocks@.len() as int));
        }
        let t = member(ctx, agg.get_type(ctx), index);
        self.emit(ctx, Opcode::ExtractValue(index), t, single(agg), Vec::new(), false, String::new())
    }

    /// Build an instruction that computes the address of an element of the
    /// aggregate `pointer` points to. The first index steps over the pointer, each
    /// further index into the type reached so far.
    pub fn create_gep(&self, ctx: &mut Context, pointer: Value, indices: &[Value]) -> (r: Value)
        requires
            self.ready(*old(ctx)),
            old(ctx).valid_value(pointer),
            old(ctx).all_valid(indices@),
            indices@.len() >= 1,
            old(ctx).type_at(old(ctx).type_of(pointer)) is Pointer,
            walk_indices(
                *old(ctx),
                old(ctx).type_at(old(ctx).type_of(pointer))->Pointer_elem,
                indices@.skip(1),
            ) is Some,
        ensures
            final(ctx).wf(),
            self.wf(*final(ctx)),
            emitted(*old(ctx), *final(ctx), *self, r, Opcode::GetElementPtr, seq![pointer] + indices@, seq![], false, seq![]),
            final(ctx).type_at(final(ctx).type_of(r)) == (TypeData::Pointer {
                elem: walk_indices(
                    *old(ctx),
                    old(ctx).type_at(old(ctx).type_of(pointer))->Pointer_elem,
                    indices@.skip(1),
                )->0,
                space: old(ctx).type_at(old(ctx).type_of(pointer))->Pointer_space,
            }),
    {
        proof {
            assert(value_data_ok(ctx.values@[pointer.index as int], ctx.types@, ctx.values@.len() as int, ctx.blocks@.len() as int));
            let t = ctx.type_of(pointer);
            assert(crate::ty::type_refs_ok(ctx.types@[t.index as int], t.index as int, ctx.types@.len() as int));
        }
        let pty = pointer.get_type(ctx);
        let (start, space) = match &ctx.types[pty.index] {
            TypeData::Pointer { elem, space } => (*elem, *space),
            _ => (pty, 0),
        };
        let mut cur = start;
        let mut k: usize = 1;
        while k < indices.len()
            invariant
                ctx.wf(),
                ctx.all_valid(indices@),
                1 <= k <= indices@.len(),
                ctx.valid_type(cur),
                walk_indices(*ctx, cur, indices@.skip(k as int)) == walk_indices(*ctx, start, indices@.skip(1)),
                walk_indices(*ctx, cur, indices@.skip(k as int)) is Some,
            decreases indices@.len() - k,
        {
            proof {
                assert(indices@.skip(k as int)[0] == indices@[k as int]);
                assert(indices@.skip(k as int).skip(1) =~= indices@.skip(k as int + 1));
            }
            cur = step(ctx, cur, indices[k]);
            k = k + 1;
        }
        proof {
            assert(indices@.skip(k as int).len() == 0);
        }
        let mut operands: Vec<Value> = Vec::new();
        operands.push(pointer);
        let mut i: usize = 0;
        while i < indices.len()
            invariant
                0 <= i <= indices@.len(),
                operands@ == seq![pointer] + indices@.subrange(0, i as int),
            decreases indices@.len() - i,
        {
            operands.push(indices[i]);
            proof {
                assert(seq![pointer] + indices@.subrange(0, i as int + 1) =~= (seq![pointer] + indices@.subrange(0, i as int)).push(indices@[i as int]));
            }
            i = i + 1;
        }
        proof {
            assert(indices@.subrange(0, indices@.len() as int) =~= indices@);
            assert forall|q: int| 0 <= q < operands@.len() implies ctx.valid_value(#[trigger] operands@[q]) by {
                if q > 0 {
                    assert(operands@[q] == indices@[q - 1]);
                }
            }
        }
        let t = Type::pointer_with_space(ctx, cur, space);
        self.emit(ctx, Opcode::GetElementPtr, t, operands, Vec::new(), false, String::new())
    }

    /// Build a phi node of type `ty`, with no incoming values yet.
    pub fn create_phi(&self, ctx: &mut Context, ty: Type, name: &str) -> (r: PhiNode)
        requires
            self.ready(*old(ctx)),
            old(ctx).valid_type(ty),
        ensures
            final(ctx).wf(),
            self.wf(*final(ctx)),
            emitted(*old(ctx), *final(ctx), *self, r.as_value(), Opcode::Phi, seq![], seq![], false, name@),
            final(ctx).type_of(r.as_value()) == ty,
    {
        let v = self.emit(ctx, Opcode::Phi, ty, Vec::new(), Vec::new(), false, String::from_str(name));
        PhiNode { index: v.index }
    }

    /// Build an instruction that branches to the block of the first case whose
    /// value equals `value`, or to `default` when none does. The cases are added in
    /// the order given.
    pub fn create_switch(
        &self,
        ctx: &mut Context,
        value: Value,
        default: BasicBlock,
        cases: &[(Value, BasicBlock)],
    ) -> (r: Value)
        requires
            self.ready(*old(ctx)),
            old(ctx).valid_value(value),
            old(ctx).valid_block(default),
            forall|k: int| 0 <= k < cases@.len() ==> old(ctx).valid_value((#[trigger] cases@[k]).0)
                && old(ctx).valid_block(cases@[k].1),
        ensures
            final(ctx).wf(),
            self.wf(*final(ctx)),
            emitted(
                *old(ctx),
                *final(ctx),
                *self,
                r,
                Opcode::Switch,
                seq![value] + cases@.map_values(|c: (Value, BasicBlock)| c.0),
                seq![default] + cases@.map_values(|c: (Value, BasicBlock)| c.1),
                false,
                seq![],
            ),
            final(ctx).type_at(final(ctx).type_of(r)) is Void,
    {
        let mut operands: Vec<Value> = Vec::new();
        let mut targets: Vec<BasicBlock> = Vec::new();
        operands.push(value);
        targets.push(default);
        let mut i: usize = 0;
        while i < cases.len()
            invariant
                0 <= i <= cases@.len(),
                operands@ == seq![value] + cases@.subrange(0, i as int).map_values(|c: (Value, BasicBlock)| c.0),
                targets@ == seq![default] + cases@.subrange(0, i as int).map_values(|c: (Value, BasicBlock)| c.1),
            decreases cases@.len() - i,
        {
            let (v, b) = cases[i];
            operands.push(v);
            targets.push(b);
            proof {
                assert(cases@.subrange(0, i as int + 1).map_values(|c: (Value, BasicBlock)| c.0) =~= cases@.subrange(0, i as int).map_values(|c: (Value, BasicBlock)| c.0).push(v));
                assert(cases@.subrange(0, i as int + 1).map_values(|c: (Value, BasicBlock)| c.1) =~= cases@.subrange(0, i as int).map_values(|c: (Value, BasicBlock)| c.1).push(b));
            }
            i = i + 1;
        }
        proof {
            assert(cases@.subrange(0, cases@.len() as int) =~= cases@);
            assert forall|q: int| 0 <= q < operands@.len() implies ctx.valid_value(#[trigger] operands@[q]) by {
                if q > 0 {
                    assert(operands@[q] == cases@[q - 1].0);
                }
            }
            assert forall|q: int| 0 <= q < targets@.len() implies ctx.valid_block(#[trigger] targets@[q]) by {
                if q > 0 {
                    assert(targets@[q] == cases@[q - 1].1);
                }
            }
        }
        let t = Builder::void_result(ctx);
        self.emit(ctx, Opcode::Switch, t, operands, targets, false, String::new())
    }

    /// Build an instruction that negates a value.
    pub fn create_neg(&self, ctx: &mut Context, value: Value) -> (r: Value)
        requires
            self.ready(*old(ctx)),
            old(ctx).valid_value(value),
        ensures
            final(ctx).wf(),
            self.wf(*final(ctx)),
            emitted(*old(ctx), *final(ctx), *self, r, Opcode::Neg, seq![value], seq![], false, seq![]),
            final(ctx).type_of(r) == old(ctx).type_of(value),
    {
        proof {
            assert(value_data_ok(ctx.values@[value.index as int], ctx.types@, ctx.values@.len() as int, ctx.blocks@.len() as int));
        }
        let t = value.get_type(ctx);
        self.emit(ctx, Opcode::Neg, t, single(value), Vec::new(), false, String::new())
    }

    /// Build an instruction that inverts the bits of a value.
    pub fn create_not(&self, ctx: &mut Context, value: Value) -> (r: Value)
        requires
            self.ready(*old(ctx)),
            old(ctx).valid_value(value),
        ensures
            final(ctx).wf(),
            self.wf(*final(ctx)),
            emitted(*old(ctx), *final(ctx), *self, r, Opcode::Not, seq![value], seq![], false, seq![]),
            final(ctx).type_of(r) == old(ctx).type_of(value),
    {
        proof {
            assert(value_data_ok(ctx.values@[value.index as int], ctx.types@, ctx.values@.len() as int, ctx.blocks@.len() as int));
        }
        let t = value.get_type(ctx);
        self.emit(ctx, Opcode::Not, t, single(value), Vec::new(), false, String::new())
    }

    /// A binary instruction whose type is that of its left operand.
    fn binary(&self, ctx: &mut Context, op: Opcode, left: Value, right: Value) -> (r: Value)
        requires
            self.ready(*old(ctx)),
            old(ctx).valid_value(left),
            old(ctx).valid_value(right),
        ensures
            final(ctx).wf(),
            self.wf(*final(ctx)),
            emitted(*old(ctx), *final(ctx), *self, r, op, seq![left, right], seq![], false, seq![]),
            final(ctx).type_of(r) == old(ctx).type_of(left),
    {
        proof {
            assert(value_data_ok(ctx.values@[left.index as int], ctx.types@, ctx.values@.len() as int, ctx.blocks@.len() as int));
        }
        let t = left.get_type(ctx);
        self.emit(ctx, op, t, vec![left, right], Vec::new(), false, String::new())
    }

    /// An arithmetic instruction: its opcode is the integer one when the left
    /// operand is an integer, the floating-point one otherwise.
    fn arith(&self, ctx: &mut Context, op: Arith, left: Value, right: Value) -> (r: Value)
        requires
            self.ready(*old(ctx)),
            old(ctx).valid_value(left),
            old(ctx).valid_value(right),
        ensures
            final(ctx).wf(),
            self.wf(*final(ctx)),
            emitted(
                *old(ctx),
                *final(ctx),
                *self,
                r,
                arith_opcode_spec(op, is_integer_value(*old(ctx), left)),
                seq![left, right],
                seq![],
                false,
                seq![],
            ),
            final(ctx).type_of(r) == old(ctx).type_of(left),
    {
        proof {
            assert(value_data_ok(ctx.values@[left.index as int], ctx.types@, ctx.values@.len() as int, ctx.blocks@.len() as int));
        }
        let integer = left.get_type(ctx).is_integer(ctx);
        self.binary(ctx, arith_opcode(op, integer), left, right)
    }

    /// Build an instruction that adds two integers or two floating-point
    /// numbers; the type of the left operand picks the opcode.
    pub fn create_add(&self, ctx: &mut Context, left: Value, right: Value) -> (r: Value)
        requires
            self.ready(*old(ctx)),
            old(ctx).valid_value(left),
            old(ctx).valid_value(right),
            same_numeric_kind(*old(ctx), left, right),
        ensures
            final(ctx).wf(),
            self.wf(*final(ctx)),
            emitted(
                *old(ctx),
                *final(ctx),
                *self,
                r,
                arith_opcode_spec(Arith::Add, is_integer_value(*old(ctx), left)),
                seq![left, right],
                seq![],
                false,
                seq![],
            ),
            final(ctx).type_of(r) == old(ctx).type_of(left),
    {
        self.arith(ctx, Arith::Add, left, right)
    }

    /// Build an instruction that subtracts two integers or two floating-point
    /// numbers; the type of the left operand picks the opcode.
    pub fn create_sub(&self, ctx: &mut Context, left: Value, right: Value) -> (r: Value)
        requires
            self.ready(*old(ctx)),
            old(ctx).valid_value(left),
            old(ctx).valid_value(right),
            same_numeric_kind(*old(ctx), left, right),
        ensures
            final(ctx).wf(),
            self.wf(*final(ctx)),
            emitted(
                *old(ctx),
                *final(ctx),
                *self,
                r,
                arith_opcode_spec(Arith::Sub, is_integer_value(*old(ctx), left)),
                seq![left, right],
                seq![],
                false,
                seq![],
            ),
            final(ctx).type_of(r) == old(ctx).type_of(left),
    {
        self.arith(ctx, Arith::Sub, left, right)
    }

    /// Build an instruction that multiplies two integers or two floating-point
    /// numbers; the type of the left operand picks the opcode.
    pub fn create_mul(&self, ctx: &mut Context, left: Value, right: Value) -> (r: Value)
        requires
            self.ready(*old(ctx)),
            old(ctx).valid_value(left),
            old(ctx).valid_value(right),
            same_numeric_kind(*old(ctx), left, right),
        ensures
            final(ctx).wf(),
            self.wf(*final(ctx)),
            emitted(
                *old(ctx),
                *final(ctx),
                *self,
                r,
                arith_opcode_spec(Arith::Mul, is_integer_value(*old(ctx), left)),
                seq![left, right],
                seq![],
                false,
                seq![],
            ),
            final(ctx).type_of(r) == old(ctx).type_of(left),
    {
        self.arith(ctx, Arith::Mul, left, right)
    }

    /// Build an instruction that divides (signed for integers) two integers or two floating-point
    /// numbers; the type of the left operand picks the opcode.
    pub fn create_div(&self, ctx: &mut Context, left: Value, right: Value) -> (r: Value)
        requires
            self.ready(*old(ctx)),
            old(ctx).valid_value(left),
            old(ctx).valid_value(right),
            same_numeric_kind(*old(ctx), left, right),
        ensures
            final(ctx).wf(),
            self.wf(*final(ctx)),
            emitted(
                *old(ctx),
                *final(ctx),
                *self,
                r,
                arith_opcode_spec(Arith::Div, is_integer_value(*old(ctx), left)),
                seq![left, right],
                seq![],
                false,
                seq![],
            ),
            final(ctx).type_of(r) == old(ctx).type_of(left),
    {
        self.arith(ctx, Arith::Div, left, right)
    }

    /// Build an instruction that takes the remainder of (signed for integers) two integers or two floating-point
    /// numbers; the type of the left operand picks the opcode.
    pub fn create_rem(&self, ctx: &mut Context, left: Value, right: Value) -> (r: Value)
        requires
            self.ready(*old(ctx)),
            old(ctx).valid_value(left),
            old(ctx).valid_value(right),
            same_numeric_kind(*old(ctx), left, right),
        ensures
            final(ctx).wf(),
            self.wf(*final(ctx)),
            emitted(
                *old(ctx),
                *final(ctx),
                *self,
                r,
                arith_opcode_spec(Arith::Rem, is_integer_value(*old(ctx), left)),
                seq![left, right],
                seq![],
                false,
                seq![],
            ),
            final(ctx).type_of(r) == old(ctx).type_of(left),
    {
        self.arith(ctx, Arith::Rem, left, right)
    }

    /// Build an instruction that shifts an integer left.
    pub fn create_shl(&self, ctx: &mut Context, left: Value, right: Value) -> (r: Value)
        requires
            self.ready(*old(ctx)),
            old(ctx).valid_value(left),
            old(ctx).valid_value(right),
        ensures
            final(ctx).wf(),
            self.wf(*final(ctx)),
            emitted(*old(ctx), *final(ctx), *self, r, Opcode::Shl, seq![left, right], seq![], false, seq![]),
            final(ctx).type_of(r) == old(ctx).type_of(left),
    {
        self.binary(ctx, Opcode::Shl, left, right)
    }

    /// Build an instruction that shifts an integer right, keeping its sign.
    pub fn create_ashr(&self, ctx: &mut Context, left: Value, right: Value) -> (r: Value)
        requires
            self.ready(*old(ctx)),
            old(ctx).valid_value(left),
            old(ctx).valid_value(right),
        ensures
            final(ctx).wf(),
            self.wf(*final(ctx)),
            emitted(*old(ctx), *final(ctx), *self, r, Opcode::AShr, seq![left, right], seq![], false, seq![]),
            final(ctx).type_of(r) == old(ctx).type_of(left),
    {
        self.binary(ctx, Opcode::AShr, left, right)
    }

    /// Build an instruction that takes the bitwise and of two integers.
    pub fn create_and(&self, ctx: &mut Context, left: Value, right: Value) -> (r: Value)
        requires
            self.ready(*old(ctx)),
            old(ctx).valid_value(left),
            old(ctx).valid_value(right),
        ensures
            final(ctx).wf(),
            self.wf(*final(ctx)),
            emitted(*old(ctx), *final(ctx), *self, r, Opcode::And, seq![left, right], seq![], false, seq![]),
            final(ctx).type_of(r) == old(ctx).type_of(left),
    {
        self.binary(ctx, Opcode::And, left, right)
    }

    /// Build an instruction that takes the bitwise or of two integers.
    pub fn create_or(&self, ctx: &mut Context, left: Value, right: Value) -> (r: Value)
        requires
            self.ready(*old(ctx)),
            old(ctx).valid_value(left),
            old(ctx).valid_value(right),
        ensures
            final(ctx).wf(),
            self.wf(*final(ctx)),
            emitted(*old(ctx), *final(ctx), *self, r, Opcode::Or, seq![left, right], seq![], false, seq![]),
            final(ctx).type_of(r) == old(ctx).type_of(left),
    {
        self.binary(ctx, Opcode::Or, left, right)
    }

    /// Build an instruction that takes the bitwise exclusive or of two integers.
    pub fn create_xor(&self, ctx: &mut Context, left: Value, right: Value) -> (r: Value)
        requires
            self.ready(*old(ctx)),
            old(ctx).valid_value(left),
            old(ctx).valid_value(right),
        ensures
            final(ctx).wf(),
            self.wf(*final(ctx)),
            emitted(*old(ctx), *final(ctx), *self, r, Opcode::Xor, seq![left, right], seq![], false, seq![]),
            final(ctx).type_of(r) == old(ctx).type_of(left),
    {
        self.binary(ctx, Opcode::Xor, left, right)
    }

    fn create_cmp_internal(
        &self,
        ctx: &mut Context,
        l: Value,
        r: Value,
        pred: Predicate,
        signed: bool,
    ) -> (v: Value)
        requires
            self.ready(*old(ctx)),
            old(ctx).valid_value(l),
            old(ctx).valid_value(r),
            old(ctx).type_of(l) == old(ctx).type_of(r),
            same_numeric_kind(*old(ctx), l, r),
        ensures
            final(ctx).wf(),
            self.wf(*final(ctx)),
            emitted(*old(ctx), *final(ctx), *self, v, cmp_opcode(*old(ctx), l, pred, signed), seq![l, r], seq![], false, seq![]),
            final(ctx).type_at(final(ctx).type_of(v)) == (TypeData::Integer { bits: 1 }),
    {
        proof {
            assert(value_data_ok(ctx.values@[l.index as int], ctx.types@, ctx.values@.len() as int, ctx.blocks@.len() as int));
        }
        let lhs_ty = l.get_type(ctx);
        let op = if lhs_ty.is_integer(ctx) {
            Opcode::ICmp(int_predicate(pred, signed))
        } else {
            Opcode::FCmp(real_predicate(pred))
        };
        let t = Type::int_ty(ctx, 1);
        self.emit(ctx, op, t, vec![l, r], Vec::new(), false, String::new())
    }

    /// Build an instruction that compares two integers (as signed numbers) or two
    /// floating-point numbers of one type with the predicate given.
    pub fn create_cmp(&self, ctx: &mut Context, l: Value, r: Value, pred: Predicate) -> (v: Value)
        requires
            self.ready(*old(ctx)),
            old(ctx).valid_value(l),
            old(ctx).valid_value(r),
            old(ctx).type_of(l) == old(ctx).type_of(r),
            same_numeric_kind(*old(ctx), l, r),
        ensures
            final(ctx).wf(),
            self.wf(*final(ctx)),
            emitted(*old(ctx), *final(ctx), *self, v, cmp_opcode(*old(ctx), l, pred, true), seq![l, r], seq![], false, seq![]),
            final(ctx).type_at(final(ctx).type_of(v)) == (TypeData::Integer { bits: 1 }),
    {
        self.create_cmp_internal(ctx, l, r, pred, true)
    }

    /// Build an instruction that compares two integers (as unsigned numbers) or two
    /// floating-point numbers of one type with the predicate given.
    pub fn create_ucmp(&self, ctx: &mut Context, l: Value, r: Value, pred: Predicate) -> (v: Value)
        requires
            self.ready(*old(ctx)),
            old(ctx).valid_value(l),
            old(ctx).valid_value(r),
            old(ctx).type_of(l) == old(ctx).type_of(r),
            same_numeric_kind(*old(ctx), l, r),
        ensures
            final(ctx).wf(),
            self.wf(*final(ctx)),
            emitted(*old(ctx), *final(ctx), *self, v, cmp_opcode(*old(ctx), l, pred, false), seq![l, r], seq![], false, seq![]),
            final(ctx).type_at(final(ctx).type_of(v)) == (TypeData::Integer { bits: 1 }),
    {
        self.create_cmp_internal(ctx, l, r, pred, false)
    }
}

/// The comparison opcode for operands like `l`: an integer comparison code
/// (signed or unsigned) for integers, an ordered one for floating-point numbers.
pub open spec fn cmp_opcode(ctx: Context, l: Value, pred: Predicate, signed: bool) -> Opcode {
    if is_integer_value(ctx, l) {
        Opcode::ICmp(int_predicate_spec(pred, signed))
    } else {
        Opcode::FCmp(real_predicate_spec(pred))
    }
}

/// The return type of a function's signature.
pub open spec fn return_type(ctx: Context, f: Function) -> Type {
    ctx.types@[ctx.type_at(ctx.type_of(f.as_value()))->Pointer_elem.index as int]->Function_ret
}

fn member(ctx: &Context, t: Type, index: usize) -> (r: Type)
    requires
        ctx.wf(),
        ctx.valid_type(t),
        member_type(*ctx, t, index) is Some,
    ensures
        r == member_type(*ctx, t, index)->0,
        ctx.valid_type(r),
{
    proof {
        assert(crate::ty::type_refs_ok(ctx.types@[t.index as int], t.index as int, ctx.types@.len() as int));
    }
    match &ctx.types[t.index] {
        TypeData::Array { elem, .. } => *elem,
        TypeData::Vector { elem, .. } => *elem,
        TypeData::Struct { fields, .. } => fields[index],
        TypeData::Named { fields, .. } => fields[index],
        _ => t,
    }
}

fn step(ctx: &Context, t: Type, idx: Value) -> (r: Type)
    requires
        ctx.wf(),
        ctx.valid_type(t),
        ctx.valid_value(idx),
        indexed_type(*ctx, t, idx) is Some,
    ensures
        r == indexed_type(*ctx, t, idx)->0,
        ctx.valid_type(r),
{
    proof {
        assert(crate::ty::type_refs_ok(ctx.types@[t.index as int], t.index as int, ctx.types@.len() as int));
    }
    let k: u64 = match &ctx.values[idx.index].kind {
        ValueKind::ConstInt { value } => *value,
        _ => 0,
    };
    match &ctx.types[t.index] {
        TypeData::Array { elem, .. } => *elem,
        TypeData::Vector { elem, .. } => *elem,
        TypeData::Struct { fields, .. } => {
            let n = fields.len();
            if k < n as u64 {
                fields[k as usize]
            } else {
                t
            }
        },
        TypeData::Named { fields, .. } => {
            let n = fields.len();
            if k < n as u64 {
                fields[k as usize]
            } else {
                t
            }
        },
        _ => t,
    }
}

fn single<T>(x: T) -> (r: Vec<T>)
    ensures
        r@ == seq![x],
{
    let mut r: Vec<T> = Vec::new();
    r.push(x);
    proof {
        assert(r@ =~= seq![x]);
    }
    r
}

impl PhiNode {
    pub open spec fn as_value_spec(self) -> Value {
        Value { index: self.index }
    }

    /// The same value as a general value handle.
    #[verifier::when_used_as_spec(as_value_spec)]
    pub fn as_value(self) -> (r: Value)
        ensures
            r == self.as_value_spec(),
    {
        Value { index: self.index }
    }

    /// Adds an incoming value, taken when control comes from `block`.
    pub fn add_incoming(&self, ctx: &mut Context, value: Value, block: BasicBlock)
        requires
            old(ctx).wf(),
            old(ctx).valid_value(self.as_value()),
            old(ctx).value_at(self.as_value()).kind is Inst,
            old(ctx).valid_value(value),
            old(ctx).valid_block(block),
        ensures
            final(ctx).wf(),
            final(ctx).grows_from(*old(ctx)),
            final(ctx).types@ == old(ctx).types@,
            final(ctx).blocks@ == old(ctx).blocks@,
            final(ctx).values@.len() == old(ctx).values@.len(),
            forall|j: int| 0 <= j < old(ctx).values@.len() && j != self.index
                ==> #[trigger] final(ctx).values@[j] == old(ctx).values@[j],
            final(ctx).type_of(self.as_value()) == old(ctx).type_of(self.as_value()),
            final(ctx).value_at(self.as_value()).name == old(ctx).value_at(self.as_value()).name,
            final(ctx).value_at(self.as_value()).kind is Inst,
            final(ctx).value_at(self.as_value()).kind->Inst_op == old(ctx).value_at(self.as_value()).kind->Inst_op,
            final(ctx).value_at(self.as_value()).kind->Inst_block == old(ctx).value_at(self.as_value()).kind->Inst_block,
            final(ctx).value_at(self.as_value()).kind->Inst_tail_call == old(ctx).value_at(self.as_value()).kind->Inst_tail_call,
            final(ctx).value_at(self.as_value()).kind->Inst_operands@
                == old(ctx).value_at(self.as_value()).kind->Inst_operands@.push(value),
            final(ctx).value_at(self.as_value()).kind->Inst_targets@
                == old(ctx).value_at(self.as_value()).kind->Inst_targets@.push(block),
    {
        let i = self.index;
        match &mut ctx.values[i].kind {
            ValueKind::Inst { operands, targets, .. } => {
                operands.push(value);
                targets.push(block);
            },
            _ => {},
        }
        proof {
            let k = ctx.values@[i as int].kind;
            let ok = old(ctx).values@[i as int].kind;
            assert forall|j: int| 0 <= j < k->Inst_operands@.len() implies 0 <= (
            #[trigger] k->Inst_operands@[j]).index < ctx.values@.len() by {
                if j < k->Inst_operands@.len() - 1 {
                    assert(k->Inst_operands@[j] == ok->Inst_operands@[j]);
                }
            }
            assert forall|j: int| 0 <= j < k->Inst_targets@.len() implies 0 <= (
            #[trigger] k->Inst_targets@[j]).index < ctx.blocks@.len() by {
                if j < k->Inst_targets@.len() - 1 {
                    assert(k->Inst_targets@[j] == ok->Inst_targets@[j]);
                }
            }
            assert(value_data_ok(
                ctx.values@[i as int],
                ctx.types@,
                ctx.values@.len() as int,
                ctx.blocks@.len() as int,
            ));
        }
    }
}

} // verus!
