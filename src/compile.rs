use vstd::prelude::*;

use crate::context::Context;
use crate::ty::{Type, TypeData, interned};
use crate::value::{Value, ValueKind, value_added};

verus! {

/// Host values that can be embedded as typed constants: each host type has an
/// integer type of the IR, and each host value a word of that width.
pub trait Compile: Sized {
    /// The width of the integer type that stands for the host type.
    spec fn bits() -> u32;

    /// The word that stands for a host value.
    spec fn word(self) -> u64;

    /// The type of the IR that stands for the host type.
    fn get_type(ctx: &mut Context) -> (r: Type)
        requires
            old(ctx).wf(),
            old(ctx).types@.len() < usize::MAX,
        ensures
            final(ctx).wf(),
            interned(*old(ctx), *final(ctx), |x: TypeData| x == TypeData::Integer { bits: Self::bits() }, r),
    ;

    /// Embeds a host value as a constant of its type.
    fn compile(self, ctx: &mut Context) -> (r: Value)
        requires
            old(ctx).wf(),
            old(ctx).types@.len() < usize::MAX,
            old(ctx).values@.len() < usize::MAX,
        ensures
            final(ctx).wf(),
            value_added(*old(ctx), *final(ctx), r),
            final(ctx).types@.len() <= old(ctx).types@.len() + 1,
            final(ctx).type_at(final(ctx).type_of(r)) == (TypeData::Integer { bits: Self::bits() }),
            final(ctx).value_at(r).name@.len() == 0,
            final(ctx).value_at(r).kind == (ValueKind::ConstInt { value: self.word() }),
    ;
}

impl Type {
    /// The type that stands for the host type `T`.
    pub fn get<T: Compile>(ctx: &mut Context) -> (r: Type)
        requires
            old(ctx).wf(),
            old(ctx).types@.len() < usize::MAX,
        ensures
            final(ctx).wf(),
            interned(*old(ctx), *final(ctx), |x: TypeData| x == TypeData::Integer { bits: T::bits() }, r),
    {
        T::get_type(ctx)
    }
}

impl Compile for u8 {
    open spec fn bits() -> u32 {
        8
    }

    open spec fn word(self) -> u64 {
        self as u64
    }

    fn get_type(ctx: &mut Context) -> (r: Type) {
        Type::int_ty(ctx, 8)
    }

    fn compile(self, ctx: &mut Context) -> (r: Value) {
        let t = Type::int_ty(ctx, 8);
        Value::new_int(ctx, t, self as u64)
    }
}

impl Compile for u16 {
    open spec fn bits() -> u32 {
        16
    }

    open spec fn word(self) -> u64 {
        self as u64
    }

    fn get_type(ctx: &mut Context) -> (r: Type) {
        Type::int_ty(ctx, 16)
    }

    fn compile(self, ctx: &mut Context) -> (r: Value) {
        let t = Type::int_ty(ctx, 16);
        Value::new_int(ctx, t, self as u64)
    }
}

impl Compile for u32 {
    open spec fn bits() -> u32 {
        32
    }

    open spec fn word(self) -> u64 {
        self as u64
    }

    fn get_type(ctx: &mut Context) -> (r: Type) {
        Type::int_ty(ctx, 32)
    }

    fn compile(self, ctx: &mut Context) -> (r: Value) {
        let t = Type::int_ty(ctx, 32);
        Value::new_int(ctx, t, self as u64)
    }
}

impl Compile for u64 {
    open spec fn bits() -> u32 {
        64
    }

    open spec fn word(self) -> u64 {
        self as u64
    }

    fn get_type(ctx: &mut Context) -> (r: Type) {
        Type::int_ty(ctx, 64)
    }

    fn compile(self, ctx: &mut Context) -> (r: Value) {
        let t = Type::int_ty(ctx, 64);
        Value::new_int(ctx, t, self as u64)
    }
}

impl Compile for i8 {
    open spec fn bits() -> u32 {
        8
    }

    open spec fn word(self) -> u64 {
        self as u64
    }

    fn get_type(ctx: &mut Context) -> (r: Type) {
        Type::int_ty(ctx, 8)
    }

    fn compile(self, ctx: &mut Context) -> (r: Value) {
        let t = Type::int_ty(ctx, 8);
        Value::new_int(ctx, t, self as u64)
    }
}

impl Compile for i16 {
    open spec fn bits() -> u32 {
        16
    }

    open spec fn word(self) -> u64 {
        self as u64
    }

    fn get_type(ctx: &mut Context) -> (r: Type) {
        Type::int_ty(ctx, 16)
    }

    fn compile(self, ctx: &mut Context) -> (r: Value) {
        let t = Type::int_ty(ctx, 16);
        Value::new_int(ctx, t, self as u64)
    }
}

impl Compile for i32 {
    open spec fn bits() -> u32 {
        32
    }

    open spec fn word(self) -> u64 {
        self as u64
    }

    fn get_type(ctx: &mut Context) -> (r: Type) {
        Type::int_ty(ctx, 32)
    }

    fn compile(self, ctx: &mut Context) -> (r: Value) {
        let t = Type::int_ty(ctx, 32);
        Value::new_int(ctx, t, self as u64)
    }
}

impl Compile for i64 {
    open spec fn bits() -> u32 {
        64
    }

    open spec fn word(self) -> u64 {
        self as u64
    }

    fn get_type(ctx: &mut Context) -> (r: Type) {
        Type::int_ty(ctx, 64)
    }

    fn compile(self, ctx: &mut Context) -> (r: Value) {
        let t = Type::int_ty(ctx, 64);
        Value::new_int(ctx, t, self as u64)
    }
}

impl Compile for bool {
    open spec fn bits() -> u32 {
        8
    }

    open spec fn word(self) -> u64 {
        if self { 1 } else { 0 }
    }

    fn get_type(ctx: &mut Context) -> (r: Type) {
        Type::int_ty(ctx, 8)
    }

    fn compile(self, ctx: &mut Context) -> (r: Value) {
        let t = Type::int_ty(ctx, 8);
        Value::new_int(ctx, t, if self { 1 } else { 0 })
    }
}

} // verus!
