use vstd::prelude::*;
use vstd::string::StringSliceAdditionalSpecFns;

use crate::attributes::{
    Attribute, attribute_mask, has_all, union_masks, union_of, word_has, word_has_all,
};
use crate::context::{Context, BlockData, value_data_ok, lemma_value_data_ok_mono};
use crate::opcode::Opcode;
use crate::ty::{Type, TypeData, FunctionType, TypeKind, kind_of_data, all_below};
use crate::iter::ValueIter;

verus! {

/// A handle to a typed value owned by a `Context`.
#[derive(Clone, Copy, PartialEq, Eq, Structural, Debug)]
pub struct Value {
    pub index: usize,
}

/// A handle to a basic block owned by a `Context`.
#[derive(Clone, Copy, PartialEq, Eq, Structural, Debug)]
pub struct BasicBlock {
    pub index: usize,
}

/// A handle to a value known to be a global value (a global variable or a function).
#[derive(Clone, Copy, PartialEq, Eq, Structural, Debug)]
pub struct GlobalValue {
    pub index: usize,
}

/// A handle to a value known to be a function.
#[derive(Clone, Copy, PartialEq, Eq, Structural, Debug)]
pub struct Function {
    pub index: usize,
}

/// A handle to a value known to be a phi node.
#[derive(Clone, Copy, PartialEq, Eq, Structural, Debug)]
pub struct PhiNode {
    pub index: usize,
}

/// A handle to a value known to be a function argument.
#[derive(Clone, Copy, PartialEq, Eq, Structural, Debug)]
pub struct Arg {
    pub index: usize,
}

/// What a value is.
pub enum ValueKind {
    ConstInt { value: u64 },
    /// A constant structure or vector.
    ConstAggregate { elems: Vec<Value> },
    ConstString { bytes: Vec<u8> },
    Undef,
    Global { initializer: Option<Value> },
    Function { params: Vec<Value>, blocks: Vec<BasicBlock>, attrs: u32 },
    Arg { func: Value, pos: usize, attrs: u32 },
    /// An instruction of `block`. Its value operands come in `operands`, the blocks
    /// it names in `targets`.
    Inst {
        op: Opcode,
        operands: Vec<Value>,
        targets: Vec<BasicBlock>,
        block: BasicBlock,
        tail_call: bool,
    },
}

/// A value's description: its type, its name (empty when it has none) and what it is.
pub struct ValueData {
    pub ty: Type,
    pub name: String,
    pub kind: ValueKind,
}

/// The attribute word of a function or an argument; other values have none.
pub open spec fn attrs_of(k: ValueKind) -> u32 {
    match k {
        ValueKind::Function { attrs, .. } => attrs,
        ValueKind::Arg { attrs, .. } => attrs,
        _ => 0,
    }
}

/// A function or argument description with its attribute word replaced.
pub open spec fn with_attrs(k: ValueKind, w: u32) -> ValueKind {
    match k {
        ValueKind::Function { params, blocks, .. } => ValueKind::Function { params, blocks, attrs: w },
        ValueKind::Arg { func, pos, .. } => ValueKind::Arg { func, pos, attrs: w },
        _ => k,
    }
}

/// `new` is `old` with the value `v` described by `d` instead, and nothing else changed.
pub open spec fn value_replaced(old: Context, new: Context, v: Value, d: ValueData) -> bool {
    &&& new.types@ == old.types@
    &&& new.blocks@ == old.blocks@
    &&& new.values@ == old.values@.update(v.index as int, d)
}

/// `new` is `old` with one more value, `r`, at the end of the value arena, and
/// perhaps more types.
pub open spec fn value_added(old: Context, new: Context, r: Value) -> bool {
    &&& new.grows_from(old)
    &&& new.blocks@ == old.blocks@
    &&& r.index == old.values@.len()
    &&& new.values@ == old.values@.push(new.values@[r.index as int])
}

/// The types of a list of values.
pub open spec fn types_of(ctx: Context, vals: Seq<Value>) -> Seq<Type> {
    vals.map_values(|v: Value| ctx.type_of(v))
}

/// Whether a value's type marks it as a function: a signature, or a pointer to
/// one. Exactly one level of pointer is looked through.
pub open spec fn function_typed(ctx: Context, v: Value) -> bool {
    let t = ctx.type_at(ctx.type_of(v));
    kind_of_data(t) == TypeKind::Function || (t is Pointer && kind_of_data(
        ctx.types@[t->Pointer_elem.index as int],
    ) == TypeKind::Function)
}

impl Context {
    /// The attribute word of a value.
    pub open spec fn attrs(&self, v: Value) -> u32 {
        attrs_of(self.value_at(v).kind)
    }

    pub open spec fn is_function_value(&self, v: Value) -> bool {
        self.valid_value(v) && self.value_at(v).kind is Function
    }

    pub open spec fn all_valid(&self, vals: Seq<Value>) -> bool {
        forall|k: int| 0 <= k < vals.len() ==> self.valid_value(#[trigger] vals[k])
    }

    fn attrs_word(&self, v: Value) -> (r: u32)
        requires
            self.valid_value(v),
        ensures
            r == self.attrs(v),
    {
        match &self.values[v.index].kind {
            ValueKind::Function { attrs, .. } => *attrs,
            ValueKind::Arg { attrs, .. } => *attrs,
            _ => 0,
        }
    }

    fn set_attrs(&mut self, v: Value, w: u32)
        requires
            old(self).wf(),
            old(self).valid_value(v),
        ensures
            final(self).wf(),
            final(self).grows_from(*old(self)),
            value_replaced(
                *old(self),
                *final(self),
                v,
                ValueData {
                    ty: old(self).type_of(v),
                    name: old(self).value_at(v).name,
                    kind: with_attrs(old(self).value_at(v).kind, w),
                },
            ),
    {
        let i = v.index;
        match &mut self.values[i].kind {
            ValueKind::Function { attrs, .. } => {
                *attrs = w;
            },
            ValueKind::Arg { attrs, .. } => {
                *attrs = w;
            },
            _ => {},
        }
        proof {
            assert(self.values@ =~= old(self).values@.update(
                i as int,
                ValueData {
                    ty: old(self).type_of(v),
                    name: old(self).value_at(v).name,
                    kind: with_attrs(old(self).value_at(v).kind, w),
                },
            ));
            assert(value_data_ok(
                self.values@[i as int],
                self.types@,
                self.values@.len() as int,
                self.blocks@.len() as int,
            ));
        }
    }
}

/// The same context, with the attribute word of `v` changed to `w`.
pub open spec fn attrs_set(old: Context, new: Context, v: Value, w: u32) -> bool {
    value_replaced(
        old,
        new,
        v,
        ValueData {
            ty: old.type_of(v),
            name: old.value_at(v).name,
            kind: with_attrs(old.value_at(v).kind, w),
        },
    )
}

impl Value {
    /// Returns the type of this value.
    pub fn get_type(&self, ctx: &Context) -> (r: Type)
        requires
            ctx.valid_value(*self),
        ensures
            r == ctx.type_of(*self),
    {
        ctx.values[self.index].ty
    }

    /// Returns the name of this value, or `None` if it has none.
    pub fn get_name<'a>(&self, ctx: &'a Context) -> (r: Option<&'a str>)
        requires
            ctx.valid_value(*self),
        ensures
            r is None <==> ctx.value_at(*self).name@.len() == 0,
            r is Some ==> r->0@ == ctx.value_at(*self).name@,
    {
        let name = ctx.values[self.index].name.as_str();
        if name.is_empty() {
            None
        } else {
            Some(name)
        }
    }

    /// Sets the name of this value.
    pub fn set_name(&self, ctx: &mut Context, name: &str)
        requires
            old(ctx).wf(),
            old(ctx).valid_value(*self),
        ensures
            final(ctx).wf(),
            final(ctx).grows_from(*old(ctx)),
            final(ctx).types@ == old(ctx).types@,
            final(ctx).blocks@ == old(ctx).blocks@,
            final(ctx).values@.len() == old(ctx).values@.len(),
            forall|j: int|
                0 <= j < old(ctx).values@.len() && j != self.index
                    ==> #[trigger] final(ctx).values@[j] == old(ctx).values@[j],
            final(ctx).type_of(*self) == old(ctx).type_of(*self),
            final(ctx).value_at(*self).kind == old(ctx).value_at(*self).kind,
            final(ctx).value_at(*self).name@ == name@,
    {
        ctx.values[self.index].name = String::from_str(name);
        proof {
            assert(value_data_ok(
                ctx.values@[self.index as int],
                ctx.types@,
                ctx.values@.len() as int,
                ctx.blocks@.len() as int,
            ));
        }
    }

    /// Create a constant integer of the integer type given.
    pub fn new_int(ctx: &mut Context, ty: Type, value: u64) -> (r: Value)
        requires
            old(ctx).wf(),
            old(ctx).valid_type(ty),
            old(ctx).type_at(ty) is Integer,
            old(ctx).values@.len() < usize::MAX,
        ensures
            final(ctx).wf(),
            value_added(*old(ctx), *final(ctx), r),
            final(ctx).types@ == old(ctx).types@,
            final(ctx).type_of(r) == ty,
            final(ctx).value_at(r).name@.len() == 0,
            final(ctx).value_at(r).kind == (ValueKind::ConstInt { value }),
    {
        ctx.push_value(ValueData { ty, name: String::new(), kind: ValueKind::ConstInt { value } })
    }

    /// Create a constant undefined value of the type given.
    pub fn new_undef(ctx: &mut Context, ty: Type) -> (r: Value)
        requires
            old(ctx).wf(),
            old(ctx).valid_type(ty),
            old(ctx).values@.len() < usize::MAX,
        ensures
            final(ctx).wf(),
            value_added(*old(ctx), *final(ctx), r),
            final(ctx).types@ == old(ctx).types@,
            final(ctx).type_of(r) == ty,
            final(ctx).value_at(r).name@.len() == 0,
            final(ctx).value_at(r).kind == ValueKind::Undef,
    {
        ctx.push_value(ValueData { ty, name: String::new(), kind: ValueKind::Undef })
    }

    /// Create a constant structure of the values given.
    pub fn new_struct(ctx: &mut Context, vals: &[Value], packed: bool) -> (r: Value)
        requires
            old(ctx).wf(),
            old(ctx).all_valid(vals@),
            old(ctx).types@.len() < usize::MAX,
            old(ctx).values@.len() < usize::MAX,
        ensures
            final(ctx).wf(),
            value_added(*old(ctx), *final(ctx), r),
            final(ctx).types@.len() <= old(ctx).types@.len() + 1,
            final(ctx).value_at(r).name@.len() == 0,
            final(ctx).value_at(r).kind is ConstAggregate,
            final(ctx).value_at(r).kind->ConstAggregate_elems@ == vals@,
            final(ctx).type_at(final(ctx).type_of(r)) is Struct,
            final(ctx).type_at(final(ctx).type_of(r))->Struct_fields@ == types_of(*old(ctx), vals@),
            final(ctx).type_at(final(ctx).type_of(r))->Struct_packed == packed,
    {
        let elem_types = value_types(ctx, vals);
        let ty = Type::struct_ty(ctx, elem_types.as_slice(), packed);
        let elems = copy_values(vals);
        ctx.push_value(ValueData { ty, name: String::new(), kind: ValueKind::ConstAggregate { elems } })
    }

    /// Create a constant vector of the values given, which all have one type.
    pub fn new_vector(ctx: &mut Context, vals: &[Value]) -> (r: Value)
        requires
            old(ctx).wf(),
            vals@.len() > 0,
            old(ctx).all_valid(vals@),
            forall|k: int| 0 <= k < vals@.len() ==> old(ctx).type_of(#[trigger] vals@[k]) == old(ctx).type_of(vals@[0]),
            old(ctx).types@.len() < usize::MAX,
            old(ctx).values@.len() < usize::MAX,
        ensures
            final(ctx).wf(),
            value_added(*old(ctx), *final(ctx), r),
            final(ctx).types@.len() <= old(ctx).types@.len() + 1,
            final(ctx).value_at(r).name@.len() == 0,
            final(ctx).value_at(r).kind is ConstAggregate,
            final(ctx).value_at(r).kind->ConstAggregate_elems@ == vals@,
            final(ctx).type_at(final(ctx).type_of(r)) == (TypeData::Vector {
                elem: old(ctx).type_of(vals@[0]),
                len: vals@.len() as usize,
            }),
    {
        let elem = ctx.values[vals[0].index].ty;
        let ty = Type::vector_ty(ctx, elem, vals.len());
        let elems = copy_values(vals);
        ctx.push_value(ValueData { ty, name: String::new(), kind: ValueKind::ConstAggregate { elems } })
    }

    /// Create a constant string of the text given, as an array of bytes. Unless
    /// `rust_style` is set, a null byte ends it.
    pub fn new_string(ctx: &mut Context, text: &str, rust_style: bool) -> (r: Value)
        requires
            old(ctx).wf(),
            old(ctx).types@.len() < usize::MAX - 1,
            old(ctx).values@.len() < usize::MAX,
            text.spec_bytes().len() < usize::MAX,
        ensures
            final(ctx).wf(),
            value_added(*old(ctx), *final(ctx), r),
            final(ctx).types@.len() <= old(ctx).types@.len() + 2,
            final(ctx).value_at(r).name@.len() == 0,
            final(ctx).value_at(r).kind is ConstString,
            final(ctx).value_at(r).kind->ConstString_bytes@ == (if rust_style {
                text.spec_bytes()
            } else {
                text.spec_bytes().push(0u8)
            }),
            final(ctx).type_at(final(ctx).type_of(r)) is Array,
            final(ctx).type_at(final(ctx).type_of(r))->Array_len
                == final(ctx).value_at(r).kind->ConstString_bytes@.len(),
            final(ctx).type_at(final(ctx).type_at(final(ctx).type_of(r))->Array_elem)
                == (TypeData::Integer { bits: 8 }),
    {
        let src = text.as_bytes();
        let mut bytes: Vec<u8> = Vec::new();
        let mut i: usize = 0;
        while i < src.len()
            invariant
                0 <= i <= src@.len(),
                bytes@ == src@.subrange(0, i as int),
            decreases src@.len() - i,
        {
            bytes.push(src[i]);
            i = i + 1;
        }
        if !rust_style {
            bytes.push(0u8);
        }
        proof {
            assert(src@.subrange(0, src@.len() as int) =~= src@);
        }
        let byte = Type::i8_ty(ctx);
        let ty = Type::array_ty(ctx, byte, bytes.len());
        ctx.push_value(ValueData { ty, name: String::new(), kind: ValueKind::ConstString { bytes } })
    }
}

fn copy_values(items: &[Value]) -> (r: Vec<Value>)
    ensures
        r@ == items@,
{
    let mut r: Vec<Value> = Vec::new();
    let mut i: usize = 0;
    while i < items.len()
        invariant
            0 <= i <= items@.len(),
            r@ == items@.subrange(0, i as int),
        decreases items@.len() - i,
    {
        r.push(items[i]);
        i = i + 1;
    }
    proof {
        assert(items@.subrange(0, items@.len() as int) =~= items@);
    }
    r
}

fn value_types(ctx: &Context, vals: &[Value]) -> (r: Vec<Type>)
    requires
        ctx.wf(),
        ctx.all_valid(vals@),
    ensures
        r@ == types_of(*ctx, vals@),
        all_below(r@, ctx.types@.len() as int),
{
    let mut r: Vec<Type> = Vec::new();
    let mut i: usize = 0;
    while i < vals.len()
        invariant
            ctx.wf(),
            ctx.all_valid(vals@),
            0 <= i <= vals@.len(),
            r@ == types_of(*ctx, vals@.subrange(0, i as int)),
            all_below(r@, ctx.types@.len() as int),
        decreases vals@.len() - i,
    {
        proof {
            assert(ctx.valid_value(vals@[i as int]));
            assert(value_data_ok(ctx.values@[vals@[i as int].index as int], ctx.types@, ctx.values@.len() as int, ctx.blocks@.len() as int));
        }
        r.push(ctx.values[vals[i].index].ty);
        proof {
            assert(types_of(*ctx, vals@.subrange(0, i as int + 1)) =~= types_of(*ctx, vals@.subrange(0, i as int)).push(ctx.type_of(vals@[i as int])));
        }
        i = i + 1;
    }
    proof {
        assert(vals@.subrange(0, vals@.len() as int) =~= vals@);
    }
    r
}


/// The parameters of a function description.
pub open spec fn params_of_kind(k: ValueKind) -> Seq<Value> {
    match k {
        ValueKind::Function { params, .. } => params@,
        _ => Seq::empty(),
    }
}

/// The blocks of a function description, in order.
pub open spec fn blocks_of_kind(k: ValueKind) -> Seq<BasicBlock> {
    match k {
        ValueKind::Function { blocks, .. } => blocks@,
        _ => Seq::empty(),
    }
}

impl Context {
    pub open spec fn params_of(&self, f: Function) -> Seq<Value> {
        params_of_kind(self.value_at(f.as_value()).kind)
    }

    pub open spec fn blocks_of(&self, f: Function) -> Seq<BasicBlock> {
        blocks_of_kind(self.value_at(f.as_value()).kind)
    }

    /// The same context with one more block at the end of its arena.
    pub(crate) fn push_block(&mut self, data: BlockData) -> (r: BasicBlock)
        requires
            old(self).wf(),
            0 <= data.parent.index < old(self).values@.len(),
            forall|k: int| 0 <= k < data.insts@.len() ==> 0 <= (#[trigger] data.insts@[k]).index < old(self).values@.len(),
            old(self).blocks@.len() < usize::MAX,
        ensures
            final(self).wf(),
            final(self).types@ == old(self).types@,
            final(self).values@ == old(self).values@,
            final(self).blocks@ == old(self).blocks@.push(data),
            r.index == old(self).blocks@.len(),
            final(self).grows_from(*old(self)),
    {
        let r = BasicBlock { index: self.blocks.len() };
        self.blocks.push(data);
        proof {
            let nt = self.types@;
            let nv = self.values@.len() as int;
            let nb = self.blocks@.len() as int;
            assert forall|i: int| 0 <= i < nv implies value_data_ok(
                #[trigger] self.values@[i],
                nt,
                nv,
                nb,
            ) by {
                lemma_value_data_ok_mono(old(self).values@[i], nt, nv, nb - 1, nt, nv, nb);
            }
        }
        r
    }

    fn attach_block(&mut self, f: Function, b: BasicBlock)
        requires
            old(self).wf(),
            old(self).is_function_value(f.as_value()),
            old(self).valid_block(b),
        ensures
            final(self).wf(),
            final(self).grows_from(*old(self)),
            value_replaced(
                *old(self),
                *final(self),
                f.as_value(),
                ValueData {
                    ty: old(self).type_of(f.as_value()),
                    name: old(self).value_at(f.as_value()).name,
                    kind: final(self).value_at(f.as_value()).kind,
                },
            ),
            final(self).value_at(f.as_value()).kind is Function,
            final(self).params_of(f) == old(self).params_of(f),
            final(self).blocks_of(f) == old(self).blocks_of(f).push(b),
            final(self).attrs(f.as_value()) == old(self).attrs(f.as_value()),
    {
        let i = f.index;
        match &mut self.values[i].kind {
            ValueKind::Function { blocks, .. } => {
                blocks.push(b);
            },
            _ => {},
        }
        proof {
            let d = ValueData {
                ty: old(self).type_of(f.as_value()),
                name: old(self).value_at(f.as_value()).name,
                kind: self.value_at(f.as_value()).kind,
            };
            assert(self.values@ =~= old(self).values@.update(i as int, d));
            let k = self.values@[i as int].kind;
            assert(k is Function);
            assert forall|j: int| 0 <= j < k->Function_blocks@.len() implies 0 <= (
            #[trigger] k->Function_blocks@[j]).index < self.blocks@.len() by {
                if j < k->Function_blocks@.len() - 1 {
                    assert(k->Function_blocks@[j] == old(self).values@[i as int].kind->Function_blocks@[j]);
                }
            }
            assert(value_data_ok(
                self.values@[i as int],
                self.types@,
                self.values@.len() as int,
                self.blocks@.len() as int,
            ));
        }
    }
}

impl GlobalValue {
    pub open spec fn as_value_spec(self) -> Value {
        Value { index: self.index }
    }

    /// The same value as a general value handle.
    #[verifier::when_used_as_spec(as_value_spec)]
    pub fn as_value(self) -> (r: Value)
        ensures
            r == self.as_value_spec(),
    {
        Value { index: self.index }
    }

    /// Narrows a value to a global value (a global variable or a function), or
    /// `None` when it is neither.
    pub fn cast(ctx: &Context, val: Value) -> (r: Option<GlobalValue>)
        requires
            ctx.valid_value(val),
        ensures
            r == (if ctx.value_at(val).kind is Global || ctx.value_at(val).kind is Function {
                Some(GlobalValue { index: val.index })
            } else {
                None
            }),
    {
        match &ctx.values[val.index].kind {
            ValueKind::Global { .. } => Some(GlobalValue { index: val.index }),
            ValueKind::Function { .. } => Some(GlobalValue { index: val.index }),
            _ => None,
        }
    }

    /// Sets the initial value for this global.
    pub fn set_initializer(&self, ctx: &mut Context, value: Value)
        requires
            old(ctx).wf(),
            old(ctx).valid_value(self.as_value()),
            old(ctx).value_at(self.as_value()).kind is Global,
            old(ctx).valid_value(value),
        ensures
            final(ctx).wf(),
            final(ctx).grows_from(*old(ctx)),
            value_replaced(
                *old(ctx),
                *final(ctx),
                self.as_value(),
                ValueData {
                    ty: old(ctx).type_of(self.as_value()),
                    name: old(ctx).value_at(self.as_value()).name,
                    kind: ValueKind::Global { initializer: Some(value) },
                },
            ),
    {
        let i = self.index;
        match &mut ctx.values[i].kind {
            ValueKind::Global { initializer } => {
                *initializer = Some(value);
            },
            _ => {},
        }
        proof {
            assert(ctx.values@ =~= old(ctx).values@.update(
                i as int,
                ValueData {
                    ty: old(ctx).type_of(self.as_value()),
                    name: old(ctx).value_at(self.as_value()).name,
                    kind: ValueKind::Global { initializer: Some(value) },
                },
            ));
            assert(value_data_ok(
                ctx.values@[i as int],
                ctx.types@,
                ctx.values@.len() as int,
                ctx.blocks@.len() as int,
            ));
        }
    }

    /// Gets the initial value for this global, or `None` when it has none.
    pub fn get_initializer(&self, ctx: &Context) -> (r: Option<Value>)
        requires
            ctx.valid_value(self.as_value()),
        ensures
            r == (match ctx.value_at(self.as_value()).kind {
                ValueKind::Global { initializer } => initializer,
                _ => None,
            }),
    {
        match &ctx.values[self.index].kind {
            ValueKind::Global { initializer } => *initializer,
            _ => None,
        }
    }
}

/// Adds the bits of `m` to the attribute word of `v`.
fn add_bits(ctx: &mut Context, v: Value, m: u32)
    requires
        old(ctx).wf(),
        old(ctx).valid_value(v),
    ensures
        final(ctx).wf(),
        final(ctx).grows_from(*old(ctx)),
        attrs_set(*old(ctx), *final(ctx), v, old(ctx).attrs(v) | m),
{
    let w = ctx.attrs_word(v);
    ctx.set_attrs(v, w | m);
}

/// Clears the bits of `m` in the attribute word of `v`.
fn clear_bits(ctx: &mut Context, v: Value, m: u32)
    requires
        old(ctx).wf(),
        old(ctx).valid_value(v),
    ensures
        final(ctx).wf(),
        final(ctx).grows_from(*old(ctx)),
        attrs_set(*old(ctx), *final(ctx), v, old(ctx).attrs(v) & !m),
{
    let w = ctx.attrs_word(v);
    ctx.set_attrs(v, w & !m);
}

impl Arg {
    pub open spec fn as_value_spec(self) -> Value {
        Value { index: self.index }
    }

    /// The same value as a general value handle.
    #[verifier::when_used_as_spec(as_value_spec)]
    pub fn as_value(self) -> (r: Value)
        ensures
            r == self.as_value_spec(),
    {
        Value { index: self.index }
    }

    /// Add the attribute given to this argument.
    pub fn add_attribute(&self, ctx: &mut Context, attr: Attribute)
        requires
            old(ctx).wf(),
            old(ctx).valid_value(self.as_value()),
            old(ctx).value_at(self.as_value()).kind is Arg,
        ensures
            final(ctx).wf(),
            final(ctx).grows_from(*old(ctx)),
            attrs_set(*old(ctx), *final(ctx), self.as_value(), old(ctx).attrs(self.as_value()) | attribute_mask(attr)),
    {
        add_bits(ctx, self.as_value(), attr.mask());
    }

    /// Add all the attributes given to this argument.
    pub fn add_attributes(&self, ctx: &mut Context, attrs: &[Attribute])
        requires
            old(ctx).wf(),
            old(ctx).valid_value(self.as_value()),
            old(ctx).value_at(self.as_value()).kind is Arg,
        ensures
            final(ctx).wf(),
            final(ctx).grows_from(*old(ctx)),
            attrs_set(*old(ctx), *final(ctx), self.as_value(), old(ctx).attrs(self.as_value()) | union_of(attrs@)),
    {
        add_bits(ctx, self.as_value(), union_masks(attrs));
    }

    /// Returns true if this argument has the attribute given.
    pub fn has_attribute(&self, ctx: &Context, attr: Attribute) -> (r: bool)
        requires
            ctx.valid_value(self.as_value()),
        ensures
            r == word_has(ctx.attrs(self.as_value()), attr),
    {
        let w = ctx.attrs_word(self.as_value());
        let m = attr.mask();
        w & m == m
    }

    /// Returns true if this argument has all the attributes given.
    pub fn has_attributes(&self, ctx: &Context, attrs: &[Attribute]) -> (r: bool)
        requires
            ctx.valid_value(self.as_value()),
        ensures
            r == word_has_all(ctx.attrs(self.as_value()), attrs@),
    {
        has_all(ctx.attrs_word(self.as_value()), attrs)
    }

    /// Remove an attribute from this argument.
    pub fn remove_attribute(&self, ctx: &mut Context, attr: Attribute)
        requires
            old(ctx).wf(),
            old(ctx).valid_value(self.as_value()),
            old(ctx).value_at(self.as_value()).kind is Arg,
        ensures
            final(ctx).wf(),
            final(ctx).grows_from(*old(ctx)),
            attrs_set(*old(ctx), *final(ctx), self.as_value(), old(ctx).attrs(self.as_value()) & !attribute_mask(attr)),
    {
        clear_bits(ctx, self.as_value(), attr.mask());
    }
}

impl Function {
    pub open spec fn as_value_spec(self) -> Value {
        Value { index: self.index }
    }

    /// The same value as a general value handle.
    #[verifier::when_used_as_spec(as_value_spec)]
    pub fn as_value(self) -> (r: Value)
        ensures
            r == self.as_value_spec(),
    {
        Value { index: self.index }
    }

    /// Narrows a value to a function: it is one when its type is a signature, or a
    /// pointer to a signature. `None` otherwise, also for arrays and vectors of
    /// signatures and for pointers to pointers.
    pub fn cast(ctx: &Context, val: Value) -> (r: Option<Function>)
        requires
            ctx.wf(),
            ctx.valid_value(val),
        ensures
            r == (if function_typed(*ctx, val) {
                Some(Function { index: val.index })
            } else {
                None
            }),
    {
        proof {
            assert(value_data_ok(ctx.values@[val.index as int], ctx.types@, ctx.values@.len() as int, ctx.blocks@.len() as int));
        }
        let ty = val.get_type(ctx);
        let mut is_func = ty.is_function(ctx);
        if ty.is_pointer(ctx) {
            match ty.get_element(ctx) {
                Some(elem) => {
                    proof {
                        assert(crate::ty::type_refs_ok(ctx.types@[ty.index as int], ty.index as int, ctx.types@.len() as int));
                    }
                    is_func = is_func || elem.is_function(ctx);
                },
                None => {},
            }
        }
        if is_func {
            Some(Function { index: val.index })
        } else {
            None
        }
    }

    /// Add a basic block with the name given at the end of the function, and return it.
    pub fn append(&self, ctx: &mut Context, name: &str) -> (r: BasicBlock)
        requires
            old(ctx).wf(),
            old(ctx).is_function_value(self.as_value()),
            old(ctx).blocks@.len() < usize::MAX,
        ensures
            final(ctx).wf(),
            final(ctx).grows_from(*old(ctx)),
            final(ctx).types@ == old(ctx).types@,
            r.index == old(ctx).blocks@.len(),
            final(ctx).blocks@ == old(ctx).blocks@.push(final(ctx).blocks@[r.index as int]),
            final(ctx).blocks@[r.index as int].parent == self.as_value(),
            final(ctx).blocks@[r.index as int].name@ == name@,
            final(ctx).blocks@[r.index as int].insts@.len() == 0,
            final(ctx).values@.len() == old(ctx).values@.len(),
            forall|j: int| 0 <= j < old(ctx).values@.len() && j != self.index
                ==> #[trigger] final(ctx).values@[j] == old(ctx).values@[j],
            final(ctx).value_at(self.as_value()).kind is Function,
            final(ctx).value_at(self.as_value()).name == old(ctx).value_at(self.as_value()).name,
            final(ctx).params_of(*self) == old(ctx).params_of(*self),
            final(ctx).blocks_of(*self) == old(ctx).blocks_of(*self).push(r),
            final(ctx).attrs(self.as_value()) == old(ctx).attrs(self.as_value()),
    {
        let b = ctx.push_block(
            BlockData { parent: self.as_value(), name: String::from_str(name), insts: Vec::new() },
        );
        ctx.attach_block(*self, b);
        b
    }

    /// Returns the entry block of this function, or `None` if it has no blocks.
    pub fn get_entry(&self, ctx: &Context) -> (r: Option<BasicBlock>)
        requires
            ctx.valid_value(self.as_value()),
        ensures
            r == (if ctx.blocks_of(*self).len() > 0 {
                Some(ctx.blocks_of(*self)[0])
            } else {
                None
            }),
    {
        match &ctx.values[self.index].kind {
            ValueKind::Function { blocks, .. } => if blocks.len() > 0 {
                Some(blocks[0])
            } else {
                None
            },
            _ => None,
        }
    }

    /// Returns the blocks of this function, in order.
    pub fn get_blocks(&self, ctx: &Context) -> (r: Vec<BasicBlock>)
        requires
            ctx.valid_value(self.as_value()),
        ensures
            r@ == ctx.blocks_of(*self),
    {
        let mut r: Vec<BasicBlock> = Vec::new();
        match &ctx.values[self.index].kind {
            ValueKind::Function { blocks, .. } => {
                let mut i: usize = 0;
                while i < blocks.len()
                    invariant
                        0 <= i <= blocks@.len(),
                        r@ == blocks@.subrange(0, i as int),
                    decreases blocks@.len() - i,
                {
                    r.push(blocks[i]);
                    i = i + 1;
                }
                proof {
                    assert(blocks@.subrange(0, blocks@.len() as int) =~= blocks@);
                }
            },
            _ => {},
        }
        r
    }

    /// Returns the name of this function.
    pub fn get_name<'a>(&self, ctx: &'a Context) -> (r: &'a str)
        requires
            ctx.valid_value(self.as_value()),
        ensures
            r@ == ctx.value_at(self.as_value()).name@,
    {
        ctx.values[self.index].name.as_str()
    }

    /// Returns the signature of this function.
    pub fn get_signature(&self, ctx: &Context) -> (r: FunctionType)
        requires
            ctx.wf(),
            ctx.is_function_value(self.as_value()),
        ensures
            r.index == ctx.type_at(ctx.type_of(self.as_value()))->Pointer_elem.index,
            ctx.type_at(r.as_type()) is Function,
    {
        proof {
            assert(value_data_ok(ctx.values@[self.index as int], ctx.types@, ctx.values@.len() as int, ctx.blocks@.len() as int));
        }
        let ty = ctx.values[self.index].ty;
        match &ctx.types[ty.index] {
            TypeData::Pointer { elem, .. } => FunctionType { index: elem.index },
            _ => FunctionType { index: ty.index },
        }
    }

    /// Returns the number of parameters.
    pub fn num_params(&self, ctx: &Context) -> (r: usize)
        requires
            ctx.valid_value(self.as_value()),
        ensures
            r == ctx.params_of(*self).len(),
    {
        match &ctx.values[self.index].kind {
            ValueKind::Function { params, .. } => params.len(),
            _ => 0,
        }
    }

    /// Returns the parameter at the position given.
    pub fn param(&self, ctx: &Context, index: usize) -> (r: Arg)
        requires
            ctx.valid_value(self.as_value()),
            index < ctx.params_of(*self).len(),
        ensures
            r.as_value() == ctx.params_of(*self)[index as int],
    {
        match &ctx.values[self.index].kind {
            ValueKind::Function { params, .. } => Arg { index: params[index].index },
            _ => Arg { index: 0 },
        }
    }

    /// Iterate through the parameters of this function, in order.
    pub fn params(&self, ctx: &Context) -> (r: ValueIter<Arg>)
        requires
            ctx.valid_value(self.as_value()),
        ensures
            r.wf(),
            r.remaining().len() == ctx.params_of(*self).len(),
            forall|k: int| 0 <= k < r.remaining().len() ==> (#[trigger] r.remaining()[k]).as_value() == ctx.params_of(*self)[k],
    {
        let mut items: Vec<Arg> = Vec::new();
        match &ctx.values[self.index].kind {
            ValueKind::Function { params, .. } => {
                let mut i: usize = 0;
                while i < params.len()
                    invariant
                        0 <= i <= params@.len(),
                        items@.len() == i,
                        forall|k: int| 0 <= k < i ==> (#[trigger] items@[k]).as_value() == params@[k],
                    decreases params@.len() - i,
                {
                    items.push(Arg { index: params[i].index });
                    i = i + 1;
                }
            },
            _ => {},
        }
        ValueIter::new(items)
    }

    /// Add the attribute given to this function.
    pub fn add_attribute(&self, ctx: &mut Context, attr: Attribute)
        requires
            old(ctx).wf(),
            old(ctx).valid_value(self.as_value()),
            old(ctx).is_function_value(self.as_value()),
        ensures
            final(ctx).wf(),
            final(ctx).grows_from(*old(ctx)),
            attrs_set(*old(ctx), *final(ctx), self.as_value(), old(ctx).attrs(self.as_value()) | attribute_mask(attr)),
    {
        add_bits(ctx, self.as_value(), attr.mask());
    }

    /// Add all the attributes given to this function.
    pub fn add_attributes(&self, ctx: &mut Context, attrs: &[Attribute])
        requires
            old(ctx).wf(),
            old(ctx).valid_value(self.as_value()),
            old(ctx).is_function_value(self.as_value()),
        ensures
            final(ctx).wf(),
            final(ctx).grows_from(*old(ctx)),
            attrs_set(*old(ctx), *final(ctx), self.as_value(), old(ctx).attrs(self.as_value()) | union_of(attrs@)),
    {
        add_bits(ctx, self.as_value(), union_masks(attrs));
    }

    /// Returns true if the attribute given is set on this function.
    pub fn has_attribute(&self, ctx: &Context, attr: Attribute) -> (r: bool)
        requires
            ctx.valid_value(self.as_value()),
        ensures
            r == word_has(ctx.attrs(self.as_value()), attr),
    {
        let w = ctx.attrs_word(self.as_value());
        let m = attr.mask();
        w & m == m
    }

    /// Returns true if all the attributes given are set on this function.
    pub fn has_attributes(&self, ctx: &Context, attrs: &[Attribute]) -> (r: bool)
        requires
            ctx.valid_value(self.as_value()),
        ensures
            r == word_has_all(ctx.attrs(self.as_value()), attrs@),
    {
        has_all(ctx.attrs_word(self.as_value()), attrs)
    }

    /// Remove the attribute given from this function.
    pub fn remove_attribute(&self, ctx: &mut Context, attr: Attribute)
        requires
            old(ctx).wf(),
            old(ctx).valid_value(self.as_value()),
            old(ctx).is_function_value(self.as_value()),
        ensures
            final(ctx).wf(),
            final(ctx).grows_from(*old(ctx)),
            attrs_set(*old(ctx), *final(ctx), self.as_value(), old(ctx).attrs(self.as_value()) & !attribute_mask(attr)),
    {
        clear_bits(ctx, self.as_value(), attr.mask());
    }
}

/// A function value always narrows to a function: its type is a pointer to its
/// signature. Any other value narrows to one exactly when its type is a
/// signature or a pointer to one, so a value with another type (an array or
/// vector of signatures, a pointer to a pointer) never does.
pub proof fn lemma_function_cast(ctx: Context, v: Value)
    requires
        ctx.wf(),
        ctx.valid_value(v),
    ensures
        ctx.value_at(v).kind is Function ==> function_typed(ctx, v),
        !function_typed(ctx, v) ==> !(ctx.value_at(v).kind is Function),
        ctx.type_at(ctx.type_of(v)) is Array || ctx.type_at(ctx.type_of(v)) is Vector
            ==> !function_typed(ctx, v),
        ctx.type_at(ctx.type_of(v)) is Pointer && ctx.types@[ctx.type_at(
            ctx.type_of(v),
        )->Pointer_elem.index as int] is Pointer ==> !function_typed(ctx, v),
{
    assert(value_data_ok(ctx.values@[v.index as int], ctx.types@, ctx.values@.len() as int, ctx.blocks@.len() as int));
}

} // verus!
