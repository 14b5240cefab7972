use vstd::prelude::*;

use crate::context::Context;
use crate::text::{nat_text, write_decimal};
use crate::module::AddressSpace;

verus! {

/// A handle to a type descriptor owned by a `Context`.
///
/// Anonymous types are uniqued: two requests for the same structure give the
/// same handle, so handles can be compared with `==`.
#[derive(Clone, Copy, PartialEq, Eq, Structural, Debug)]
pub struct Type {
    pub index: usize,
}

/// A handle to a type known to be a structure.
#[derive(Clone, Copy, PartialEq, Eq, Structural, Debug)]
pub struct StructType {
    pub index: usize,
}

/// A handle to a type known to be a function signature.
#[derive(Clone, Copy, PartialEq, Eq, Structural, Debug)]
pub struct FunctionType {
    pub index: usize,
}

/// The structure of one type descriptor.
pub enum TypeData {
    Void,
    Integer { bits: u32 },
    Half,
    Float,
    Double,
    Pointer { elem: Type, space: u32 },
    Array { elem: Type, len: usize },
    Vector { elem: Type, len: usize },
    /// An anonymous structure.
    Struct { fields: Vec<Type>, packed: bool },
    /// A named structure; `opaque` until its body is set.
    Named { name: String, fields: Vec<Type>, packed: bool, opaque: bool },
    /// A non-variadic function signature.
    Function { ret: Type, params: Vec<Type> },
}

/// The coarse kind of a type, as its predicates read it.
#[derive(Clone, Copy, PartialEq, Eq, Structural, Debug)]
pub enum TypeKind {
    Void,
    Half,
    Float,
    Double,
    Integer,
    Function,
    Struct,
    Array,
    Pointer,
    Vector,
}

pub open spec fn all_below(items: Seq<Type>, n: int) -> bool {
    forall|k: int| 0 <= k < items.len() ==> 0 <= (#[trigger] items[k]).index < n
}

/// The types that the type at index `i` of an arena of `n` types refers to are in
/// the arena, and come before it unless it is a named structure.
pub open spec fn type_refs_ok(d: TypeData, i: int, n: int) -> bool {
    match d {
        TypeData::Pointer { elem, .. } => 0 <= elem.index < i,
        TypeData::Array { elem, .. } => 0 <= elem.index < i,
        TypeData::Vector { elem, .. } => 0 <= elem.index < i,
        TypeData::Struct { fields, .. } => all_below(fields@, i),
        TypeData::Function { ret, params } => 0 <= ret.index < i && all_below(params@, i),
        TypeData::Named { fields, .. } => all_below(fields@, n),
        _ => true,
    }
}

/// Two descriptions denote the same anonymous type. Named structures are never
/// the same as another description.
pub open spec fn same_shape(a: TypeData, b: TypeData) -> bool {
    match (a, b) {
        (TypeData::Void, TypeData::Void) => true,
        (TypeData::Integer { bits: x }, TypeData::Integer { bits: y }) => x == y,
        (TypeData::Half, TypeData::Half) => true,
        (TypeData::Float, TypeData::Float) => true,
        (TypeData::Double, TypeData::Double) => true,
        (TypeData::Pointer { elem: e1, space: s1 }, TypeData::Pointer { elem: e2, space: s2 }) =>
            e1 == e2 && s1 == s2,
        (TypeData::Array { elem: e1, len: l1 }, TypeData::Array { elem: e2, len: l2 }) => e1
            == e2 && l1 == l2,
        (TypeData::Vector { elem: e1, len: l1 }, TypeData::Vector { elem: e2, len: l2 }) => e1
            == e2 && l1 == l2,
        (
            TypeData::Struct { fields: f1, packed: p1 },
            TypeData::Struct { fields: f2, packed: p2 },
        ) => f1@ == f2@ && p1 == p2,
        (
            TypeData::Function { ret: r1, params: p1 },
            TypeData::Function { ret: r2, params: p2 },
        ) => r1 == r2 && p1@ == p2@,
        _ => false,
    }
}

pub open spec fn kind_of_data(d: TypeData) -> TypeKind {
    match d {
        TypeData::Void => TypeKind::Void,
        TypeData::Integer { .. } => TypeKind::Integer,
        TypeData::Half => TypeKind::Half,
        TypeData::Float => TypeKind::Float,
        TypeData::Double => TypeKind::Double,
        TypeData::Pointer { .. } => TypeKind::Pointer,
        TypeData::Array { .. } => TypeKind::Array,
        TypeData::Vector { .. } => TypeKind::Vector,
        TypeData::Struct { .. } => TypeKind::Struct,
        TypeData::Named { .. } => TypeKind::Struct,
        TypeData::Function { .. } => TypeKind::Function,
    }
}

/// The type that a pointer, array or vector type is made of.
pub open spec fn element_of(d: TypeData) -> Option<Type> {
    match d {
        TypeData::Pointer { elem, .. } => Some(elem),
        TypeData::Array { elem, .. } => Some(elem),
        TypeData::Vector { elem, .. } => Some(elem),
        _ => None,
    }
}

pub open spec fn space_text(space: u32) -> Seq<char> {
    if space == 0 {
        Seq::empty()
    } else {
        " addrspace("@ + nat_text(space as nat) + ")"@
    }
}

/// The canonical textual form of the type at index `i` of an arena.
pub open spec fn type_text(types: Seq<TypeData>, i: int) -> Seq<char>
    decreases i + 1, 0int,
{
    if i < 0 || i >= types.len() {
        Seq::empty()
    } else {
        match types[i] {
            TypeData::Void => "void"@,
            TypeData::Integer { bits } => "i"@ + nat_text(bits as nat),
            TypeData::Half => "half"@,
            TypeData::Float => "float"@,
            TypeData::Double => "double"@,
            TypeData::Pointer { elem, space } => if 0 <= elem.index < i {
                type_text(types, elem.index as int) + space_text(space) + "*"@
            } else {
                Seq::empty()
            },
            TypeData::Array { elem, len } => if 0 <= elem.index < i {
                "["@ + nat_text(len as nat) + " x "@ + type_text(types, elem.index as int) + "]"@
            } else {
                Seq::empty()
            },
            TypeData::Vector { elem, len } => if 0 <= elem.index < i {
                "<"@ + nat_text(len as nat) + " x "@ + type_text(types, elem.index as int) + ">"@
            } else {
                Seq::empty()
            },
            TypeData::Struct { fields, packed } => if fields@.len() == 0 {
                if packed {
                    "<{}>"@
                } else {
                    "{}"@
                }
            } else if packed {
                "<{ "@ + list_text(types, i, fields@, fields@.len() as int) + " }>"@
            } else {
                "{ "@ + list_text(types, i, fields@, fields@.len() as int) + " }"@
            },
            TypeData::Named { name, .. } => "%"@ + name@,
            TypeData::Function { ret, params } => if 0 <= ret.index < i {
                type_text(types, ret.index as int) + " ("@ + list_text(
                    types,
                    i,
                    params@,
                    params@.len() as int,
                ) + ")"@
            } else {
                Seq::empty()
            },
        }
    }
}

/// The textual forms of the first `k` of `items`, separated by `", "`; only types
/// before index `i` are spelled out.
pub open spec fn list_text(types: Seq<TypeData>, i: int, items: Seq<Type>, k: int) -> Seq<char>
    decreases i, k,
{
    if k <= 0 || k > items.len() {
        Seq::empty()
    } else if 0 <= items[k - 1].index < i {
        if k == 1 {
            type_text(types, items[0].index as int)
        } else {
            list_text(types, i, items, k - 1) + ", "@ + type_text(types, items[k - 1].index as int)
        }
    } else {
        Seq::empty()
    }
}

/// Whether the type at index `i` has a size known at compile time, looking through
/// at most `depth` levels of structure.
pub open spec fn sized_within(types: Seq<TypeData>, i: int, depth: nat) -> bool
    decreases depth, 0int, 0int,
{
    if depth == 0 || i < 0 || i >= types.len() {
        false
    } else {
        match types[i] {
            TypeData::Void => false,
            TypeData::Function { .. } => false,
            TypeData::Array { elem, .. } => sized_within(types, elem.index as int, (depth - 1) as nat),
            TypeData::Vector { elem, .. } => sized_within(types, elem.index as int, (depth - 1) as nat),
            TypeData::Struct { fields, .. } => fields_sized(types, fields@, (depth - 1) as nat, fields@.len() as int),
            TypeData::Named { fields, opaque, .. } => !opaque && fields_sized(
                types,
                fields@,
                (depth - 1) as nat,
                fields@.len() as int,
            ),
            _ => true,
        }
    }
}

pub open spec fn fields_sized(types: Seq<TypeData>, items: Seq<Type>, depth: nat, k: int) -> bool
    decreases depth, 1int, k,
{
    if k <= 0 || k > items.len() {
        true
    } else {
        fields_sized(types, items, depth, k - 1) && sized_within(types, items[k - 1].index as int, depth)
    }
}

/// The arena is well formed as far as types go.
pub open spec fn types_ok(types: Seq<TypeData>) -> bool {
    forall|i: int| 0 <= i < types.len() ==> type_refs_ok(#[trigger] types[i], i, types.len() as int)
}

fn copy_types(items: &[Type]) -> (r: Vec<Type>)
    ensures
        r@ == items@,
{
    let mut r: Vec<Type> = Vec::new();
    let mut i: usize = 0;
    while i < items.len()
        invariant
            0 <= i <= items@.len(),
            r@ == items@.subrange(0, i as int),
        decreases items@.len() - i,
    {
        r.push(items[i]);
        i = i + 1;
    }
    proof {
        assert(items@.subrange(0, items@.len() as int) =~= items@);
    }
    r
}

fn same_types(a: &Vec<Type>, b: &Vec<Type>) -> (r: bool)
    ensures
        r == (a@ == b@),
{
    if a.len() != b.len() {
        return false;
    }
    let mut i: usize = 0;
    while i < a.len()
        invariant
            0 <= i <= a@.len(),
            a@.len() == b@.len(),
            forall|k: int| 0 <= k < i ==> a@[k] == b@[k],
        decreases a@.len() - i,
    {
        if a[i] != b[i] {
            return false;
        }
        i = i + 1;
    }
    proof {
        assert(a@ =~= b@);
    }
    true
}

fn shapes_equal(a: &TypeData, b: &TypeData) -> (r: bool)
    ensures
        r == same_shape(*a, *b),
{
    match (a, b) {
        (TypeData::Void, TypeData::Void) => true,
        (TypeData::Integer { bits: x }, TypeData::Integer { bits: y }) => *x == *y,
        (TypeData::Half, TypeData::Half) => true,
        (TypeData::Float, TypeData::Float) => true,
        (TypeData::Double, TypeData::Double) => true,
        (TypeData::Pointer { elem: e1, space: s1 }, TypeData::Pointer { elem: e2, space: s2 }) =>
            *e1 == *e2 && *s1 == *s2,
        (TypeData::Array { elem: e1, len: l1 }, TypeData::Array { elem: e2, len: l2 }) => *e1
            == *e2 && *l1 == *l2,
        (TypeData::Vector { elem: e1, len: l1 }, TypeData::Vector { elem: e2, len: l2 }) => *e1
            == *e2 && *l1 == *l2,
        (
            TypeData::Struct { fields: f1, packed: p1 },
            TypeData::Struct { fields: f2, packed: p2 },
        ) => *p1 == *p2 && same_types(f1, f2),
        (
            TypeData::Function { ret: r1, params: p1 },
            TypeData::Function { ret: r2, params: p2 },
        ) => *r1 == *r2 && same_types(p1, p2),
        _ => false,
    }
}

/// `ctx` is `old` with one type obtained for a shape: the type already there
/// with that shape, or else a new one at the end of the arena.
pub open spec fn interned(
    old: Context,
    ctx: Context,
    shape: spec_fn(TypeData) -> bool,
    r: Type,
) -> bool {
    &&& ctx.values@ == old.values@
    &&& ctx.blocks@ == old.blocks@
    &&& ctx.grows_from(old)
    &&& ctx.valid_type(r)
    &&& shape(ctx.types@[r.index as int])
    &&& if exists|j: int| 0 <= j < old.types@.len() && shape(#[trigger] old.types@[j]) {
        ctx.types@ == old.types@ && r.index < old.types@.len()
    } else {
        ctx.types@.len() == old.types@.len() + 1 && ctx.types@.drop_last() == old.types@
            && r.index == old.types@.len()
    }
}

impl Context {
    /// Returns the uniqued type with the structure given, adding it when it is new.
    pub(crate) fn intern(&mut self, d: TypeData) -> (r: Type)
        requires
            old(self).wf(),
            !(d is Named),
            type_refs_ok(d, old(self).types@.len() as int, old(self).types@.len() as int),
            old(self).types@.len() < usize::MAX,
        ensures
            final(self).wf(),
            interned(*old(self), *final(self), |x: TypeData| same_shape(x, d), r),
    {
        let mut i: usize = 0;
        while i < self.types.len()
            invariant
                *self == *old(self),
                self.wf(),
                0 <= i <= self.types@.len(),
                forall|j: int| 0 <= j < i ==> !same_shape(#[trigger] self.types@[j], d),
            decreases self.types@.len() - i,
        {
            if shapes_equal(&self.types[i], &d) {
                return Type { index: i };
            }
            i = i + 1;
        }
        let r = Type { index: self.types.len() };
        let ghost n = self.types@.len() as int;
        self.types.push(d);
        proof {
            assert(self.types@.drop_last() =~= old(self).types@);
            assert forall|j: int| 0 <= j < n + 1 implies type_refs_ok(
                #[trigger] self.types@[j],
                j,
                n + 1,
            ) by {
                if j < n {
                    lemma_type_refs_mono(old(self).types@[j], j, n, n + 1);
                }
            }
            assert(same_shape(d, d)) by {
                lemma_same_shape_refl(d);
            }
        }
        r
    }
}

pub proof fn lemma_same_shape_refl(d: TypeData)
    requires
        !(d is Named),
    ensures
        same_shape(d, d),
{
}

pub proof fn lemma_type_refs_mono(d: TypeData, i: int, n: int, n2: int)
    requires
        type_refs_ok(d, i, n),
        n <= n2,
    ensures
        type_refs_ok(d, i, n2),
{
}

/// Follows element types (of pointers, arrays and vectors) down from index `i`
/// until a type without one.
pub open spec fn unwrap_elements(types: Seq<TypeData>, i: int) -> int
    decreases i + 1,
{
    if 0 <= i < types.len() && element_of(types[i]) is Some && 0 <= element_of(types[i])->0.index < i {
        unwrap_elements(types, element_of(types[i])->0.index as int)
    } else {
        i
    }
}

/// The type of a function signature, as its parameter list.
pub open spec fn params_of(d: TypeData) -> Seq<Type> {
    match d {
        TypeData::Function { params, .. } => params@,
        _ => Seq::empty(),
    }
}

/// The fields of a structure type.
pub open spec fn fields_of(d: TypeData) -> Seq<Type> {
    match d {
        TypeData::Struct { fields, .. } => fields@,
        TypeData::Named { fields, .. } => fields@,
        _ => Seq::empty(),
    }
}

fn write_list(types: &Vec<TypeData>, i: usize, items: &Vec<Type>, out: &mut String)
    requires
        types_ok(types@),
        i < types@.len(),
        all_below(items@, i as int),
    ensures
        final(out)@ == old(out)@ + list_text(types@, i as int, items@, items@.len() as int),
    decreases i, 1int,
{
    let mut k: usize = 0;
    while k < items.len()
        invariant
            types_ok(types@),
            i < types@.len(),
            all_below(items@, i as int),
            0 <= k <= items@.len(),
            out@ == old(out)@ + list_text(types@, i as int, items@, k as int),
        decreases items@.len() - k,
    {
        let ghost before = out@;
        if k > 0 {
            out.append(", ");
        }
        write_type(types, items[k].index, out);
        proof {
            if k == 0 {
                assert(out@ =~= old(out)@ + list_text(types@, i as int, items@, 1));
            } else {
                assert(out@ =~= old(out)@ + list_text(types@, i as int, items@, k + 1));
            }
        }
        k = k + 1;
    }
}

fn write_type(types: &Vec<TypeData>, i: usize, out: &mut String)
    requires
        types_ok(types@),
        i < types@.len(),
    ensures
        final(out)@ == old(out)@ + type_text(types@, i as int),
    decreases i + 1, 0int,
{
    proof {
        assert(type_refs_ok(types@[i as int], i as int, types@.len() as int));
    }
    match &types[i] {
        TypeData::Void => out.append("void"),
        TypeData::Integer { bits } => {
            out.append("i");
            write_decimal(out, *bits as u64);
        },
        TypeData::Half => out.append("half"),
        TypeData::Float => out.append("float"),
        TypeData::Double => out.append("double"),
        TypeData::Pointer { elem, space } => {
            write_type(types, elem.index, out);
            if *space != 0 {
                out.append(" addrspace(");
                write_decimal(out, *space as u64);
                out.append(")");
            }
            out.append("*");
        },
        TypeData::Array { elem, len } => {
            out.append("[");
            write_decimal(out, *len as u64);
            out.append(" x ");
            write_type(types, elem.index, out);
            out.append("]");
        },
        TypeData::Vector { elem, len } => {
            out.append("<");
            write_decimal(out, *len as u64);
            out.append(" x ");
            write_type(types, elem.index, out);
            out.append(">");
        },
        TypeData::Struct { fields, packed } => {
            if fields.len() == 0 {
                if *packed {
                    out.append("<{}>");
                } else {
                    out.append("{}");
                }
            } else {
                if *packed {
                    out.append("<{ ");
                } else {
                    out.append("{ ");
                }
                write_list(types, i, fields, out);
                if *packed {
                    out.append(" }>");
                } else {
                    out.append(" }");
                }
            }
        },
        TypeData::Named { name, .. } => {
            out.append("%");
            out.append(name.as_str());
        },
        TypeData::Function { ret, params } => {
            write_type(types, ret.index, out);
            out.append(" (");
            write_list(types, i, params, out);
            out.append(")");
        },
    }
    proof {
        assert(out@ =~= old(out)@ + type_text(types@, i as int));
    }
}

fn sized_at(types: &Vec<TypeData>, i: usize, depth: usize) -> (r: bool)
    requires
        types_ok(types@),
    ensures
        r == sized_within(types@, i as int, depth as nat),
    decreases depth, 0int,
{
    if depth == 0 || i >= types.len() {
        return false;
    }
    proof {
        assert(type_refs_ok(types@[i as int], i as int, types@.len() as int));
    }
    match &types[i] {
        TypeData::Void => false,
        TypeData::Function { .. } => false,
        TypeData::Array { elem, .. } => sized_at(types, elem.index, depth - 1),
        TypeData::Vector { elem, .. } => sized_at(types, elem.index, depth - 1),
        TypeData::Struct { fields, .. } => all_sized(types, fields, depth - 1),
        TypeData::Named { fields, opaque, .. } => !*opaque && all_sized(types, fields, depth - 1),
        _ => true,
    }
}

fn all_sized(types: &Vec<TypeData>, items: &Vec<Type>, depth: usize) -> (r: bool)
    requires
        types_ok(types@),
    ensures
        r == fields_sized(types@, items@, depth as nat, items@.len() as int),
    decreases depth, 1int,
{
    let mut k: usize = 0;
    while k < items.len()
        invariant
            types_ok(types@),
            0 <= k <= items@.len(),
            fields_sized(types@, items@, depth as nat, k as int),
        decreases items@.len() - k,
    {
        if !sized_at(types, items[k].index, depth) {
            proof {
                lemma_fields_sized_prefix(types@, items@, depth as nat, k as int + 1, items@.len() as int);
            }
            return false;
        }
        k = k + 1;
    }
    true
}

proof fn lemma_fields_sized_prefix(types: Seq<TypeData>, items: Seq<Type>, depth: nat, k: int, n: int)
    requires
        1 <= k <= n <= items.len(),
        !fields_sized(types, items, depth, k),
    ensures
        !fields_sized(types, items, depth, n),
    decreases n - k,
{
    if k < n {
        lemma_fields_sized_prefix(types, items, depth, k + 1, n);
    }
}

impl Type {
    /// Returns the type with the structure given, adding it to the context when new.
    fn get_or_add(ctx: &mut Context, d: TypeData) -> (r: Type)
        requires
            old(ctx).wf(),
            !(d is Named),
            type_refs_ok(d, old(ctx).types@.len() as int, old(ctx).types@.len() as int),
            old(ctx).types@.len() < usize::MAX,
        ensures
            final(ctx).wf(),
            interned(*old(ctx), *final(ctx), |x: TypeData| same_shape(x, d), r),
    {
        ctx.intern(d)
    }

    /// The void type.
    pub fn void_ty(ctx: &mut Context) -> (r: Type)
        requires
            old(ctx).wf(),
            old(ctx).types@.len() < usize::MAX,
        ensures
            final(ctx).wf(),
            interned(*old(ctx), *final(ctx), |x: TypeData| x is Void, r),
    {
        Type::get_or_add(ctx, TypeData::Void)
    }

    /// The integer type of the width given.
    pub fn int_ty(ctx: &mut Context, bits: u32) -> (r: Type)
        requires
            old(ctx).wf(),
            old(ctx).types@.len() < usize::MAX,
        ensures
            final(ctx).wf(),
            interned(*old(ctx), *final(ctx), |x: TypeData| x == TypeData::Integer { bits }, r),
    {
        Type::get_or_add(ctx, TypeData::Integer { bits })
    }

    /// Booleans are held in eight bits.
    pub fn bool_ty(ctx: &mut Context) -> (r: Type)
        requires
            old(ctx).wf(),
            old(ctx).types@.len() < usize::MAX,
        ensures
            final(ctx).wf(),
            interned(*old(ctx), *final(ctx), |x: TypeData| x == TypeData::Integer { bits: 8 }, r),
    {
        Type::i8_ty(ctx)
    }

    pub fn i8_ty(ctx: &mut Context) -> (r: Type)
        requires
            old(ctx).wf(),
            old(ctx).types@.len() < usize::MAX,
        ensures
            final(ctx).wf(),
            interned(*old(ctx), *final(ctx), |x: TypeData| x == TypeData::Integer { bits: 8 }, r),
    {
        Type::int_ty(ctx, 8)
    }

    pub fn i16_ty(ctx: &mut Context) -> (r: Type)
        requires
            old(ctx).wf(),
            old(ctx).types@.len() < usize::MAX,
        ensures
            final(ctx).wf(),
            interned(*old(ctx), *final(ctx), |x: TypeData| x == TypeData::Integer { bits: 16 }, r),
    {
        Type::int_ty(ctx, 16)
    }

    pub fn i32_ty(ctx: &mut Context) -> (r: Type)
        requires
            old(ctx).wf(),
            old(ctx).types@.len() < usize::MAX,
        ensures
            final(ctx).wf(),
            interned(*old(ctx), *final(ctx), |x: TypeData| x == TypeData::Integer { bits: 32 }, r),
    {
        Type::int_ty(ctx, 32)
    }

    pub fn i64_ty(ctx: &mut Context) -> (r: Type)
        requires
            old(ctx).wf(),
            old(ctx).types@.len() < usize::MAX,
        ensures
            final(ctx).wf(),
            interned(*old(ctx), *final(ctx), |x: TypeData| x == TypeData::Integer { bits: 64 }, r),
    {
        Type::int_ty(ctx, 64)
    }

    /// The 32-bit floating-point type.
    pub fn f32_ty(ctx: &mut Context) -> (r: Type)
        requires
            old(ctx).wf(),
            old(ctx).types@.len() < usize::MAX,
        ensures
            final(ctx).wf(),
            interned(*old(ctx), *final(ctx), |x: TypeData| x is Float, r),
    {
        Type::get_or_add(ctx, TypeData::Float)
    }

    /// The 64-bit floating-point type.
    pub fn f64_ty(ctx: &mut Context) -> (r: Type)
        requires
            old(ctx).wf(),
            old(ctx).types@.len() < usize::MAX,
        ensures
            final(ctx).wf(),
            interned(*old(ctx), *final(ctx), |x: TypeData| x is Double, r),
    {
        Type::get_or_add(ctx, TypeData::Double)
    }

    /// Make a new array with the length given.
    pub fn array_ty(ctx: &mut Context, element: Type, length: usize) -> (r: Type)
        requires
            old(ctx).wf(),
            old(ctx).valid_type(element),
            old(ctx).types@.len() < usize::MAX,
        ensures
            final(ctx).wf(),
            interned(
                *old(ctx),
                *final(ctx),
                |x: TypeData| x == TypeData::Array { elem: element, len: length },
                r,
            ),
    {
        Type::get_or_add(ctx, TypeData::Array { elem: element, len: length })
    }

    /// Make a new vector with the length given.
    pub fn vector_ty(ctx: &mut Context, element: Type, length: usize) -> (r: Type)
        requires
            old(ctx).wf(),
            old(ctx).valid_type(element),
            old(ctx).types@.len() < usize::MAX,
        ensures
            final(ctx).wf(),
            interned(
                *old(ctx),
                *final(ctx),
                |x: TypeData| x == TypeData::Vector { elem: element, len: length },
                r,
            ),
    {
        Type::get_or_add(ctx, TypeData::Vector { elem: element, len: length })
    }

    /// Make a new pointer with the given element type, in the generic address space.
    pub fn pointer_ty(ctx: &mut Context, elem: Type) -> (r: Type)
        requires
            old(ctx).wf(),
            old(ctx).valid_type(elem),
            old(ctx).types@.len() < usize::MAX,
        ensures
            final(ctx).wf(),
            interned(*old(ctx), *final(ctx), |x: TypeData| x == TypeData::Pointer { elem, space: 0 }, r),
    {
        Type::get_or_add(ctx, TypeData::Pointer { elem, space: 0 })
    }

    /// Make a new pointer with the given element type, in the numbered address space.
    pub(crate) fn pointer_with_space(ctx: &mut Context, elem: Type, space: u32) -> (r: Type)
        requires
            old(ctx).wf(),
            old(ctx).valid_type(elem),
            old(ctx).types@.len() < usize::MAX,
        ensures
            final(ctx).wf(),
            interned(*old(ctx), *final(ctx), |x: TypeData| x == TypeData::Pointer { elem, space }, r),
    {
        Type::get_or_add(ctx, TypeData::Pointer { elem, space })
    }

    /// Make a new pointer with the given element type, in the address space given.
    pub fn pointer_in_space(ctx: &mut Context, elem: Type, space: AddressSpace) -> (r: Type)
        requires
            old(ctx).wf(),
            old(ctx).valid_type(elem),
            old(ctx).types@.len() < usize::MAX,
        ensures
            final(ctx).wf(),
            interned(
                *old(ctx),
                *final(ctx),
                |x: TypeData| x == TypeData::Pointer { elem, space: space.number_spec() },
                r,
            ),
    {
        let n = space.number();
        Type::get_or_add(ctx, TypeData::Pointer { elem, space: n })
    }

    /// Make a new anonymous structure type with the given field types.
    pub fn struct_ty(ctx: &mut Context, elems: &[Type], packed: bool) -> (r: Type)
        requires
            old(ctx).wf(),
            all_below(elems@, old(ctx).types@.len() as int),
            old(ctx).types@.len() < usize::MAX,
        ensures
            final(ctx).wf(),
            interned(
                *old(ctx),
                *final(ctx),
                |x: TypeData| x is Struct && x->Struct_fields@ == elems@ && x->Struct_packed == packed,
                r,
            ),
    {
        let fields = copy_types(elems);
        Type::get_or_add(ctx, TypeData::Struct { fields, packed })
    }

    /// Make a new function signature with the return type and parameter types given.
    pub fn function_ty(ctx: &mut Context, ret: Type, args: &[Type]) -> (r: FunctionType)
        requires
            old(ctx).wf(),
            old(ctx).valid_type(ret),
            all_below(args@, old(ctx).types@.len() as int),
            old(ctx).types@.len() < usize::MAX,
        ensures
            final(ctx).wf(),
            interned(
                *old(ctx),
                *final(ctx),
                |x: TypeData| x is Function && x->Function_ret == ret && x->Function_params@ == args@,
                r.as_type(),
            ),
    {
        let params = copy_types(args);
        let t = Type::get_or_add(ctx, TypeData::Function { ret, params });
        FunctionType { index: t.index }
    }

    /// The canonical textual form of this type.
    pub fn to_string(&self, ctx: &Context) -> (r: String)
        requires
            ctx.wf(),
            ctx.valid_type(*self),
        ensures
            r@ == type_text(ctx.types@, self.index as int),
    {
        let mut out = String::new();
        write_type(&ctx.types, self.index, &mut out);
        proof {
            assert(out@ =~= type_text(ctx.types@, self.index as int));
        }
        out
    }

    /// Return the kind of this type.
    pub fn kind(&self, ctx: &Context) -> (r: TypeKind)
        requires
            ctx.valid_type(*self),
        ensures
            r == kind_of_data(ctx.type_at(*self)),
    {
        match &ctx.types[self.index] {
            TypeData::Void => TypeKind::Void,
            TypeData::Integer { .. } => TypeKind::Integer,
            TypeData::Half => TypeKind::Half,
            TypeData::Float => TypeKind::Float,
            TypeData::Double => TypeKind::Double,
            TypeData::Pointer { .. } => TypeKind::Pointer,
            TypeData::Array { .. } => TypeKind::Array,
            TypeData::Vector { .. } => TypeKind::Vector,
            TypeData::Struct { .. } => TypeKind::Struct,
            TypeData::Named { .. } => TypeKind::Struct,
            TypeData::Function { .. } => TypeKind::Function,
        }
    }

    /// Returns true if the size of the type is known at compile time.
    pub fn is_sized(&self, ctx: &Context) -> (r: bool)
        requires
            ctx.wf(),
            ctx.valid_type(*self),
        ensures
            r == sized_within(ctx.types@, self.index as int, ctx.types@.len() as nat),
    {
        sized_at(&ctx.types, self.index, ctx.types.len())
    }

    /// Returns true if this type is a function signature.
    pub fn is_function(&self, ctx: &Context) -> (r: bool)
        requires
            ctx.valid_type(*self),
        ensures
            r == (kind_of_data(ctx.type_at(*self)) == TypeKind::Function),
    {
        self.kind(ctx) == TypeKind::Function
    }

    /// Returns true if this type is a structure.
    pub fn is_struct(&self, ctx: &Context) -> (r: bool)
        requires
            ctx.valid_type(*self),
        ensures
            r == (kind_of_data(ctx.type_at(*self)) == TypeKind::Struct),
    {
        self.kind(ctx) == TypeKind::Struct
    }

    /// Returns true if this type is void.
    pub fn is_void(&self, ctx: &Context) -> (r: bool)
        requires
            ctx.valid_type(*self),
        ensures
            r == (kind_of_data(ctx.type_at(*self)) == TypeKind::Void),
    {
        self.kind(ctx) == TypeKind::Void
    }

    /// Returns true if this type is a pointer.
    pub fn is_pointer(&self, ctx: &Context) -> (r: bool)
        requires
            ctx.valid_type(*self),
        ensures
            r == (kind_of_data(ctx.type_at(*self)) == TypeKind::Pointer),
    {
        self.kind(ctx) == TypeKind::Pointer
    }

    /// Returns true if this type is an integer.
    pub fn is_integer(&self, ctx: &Context) -> (r: bool)
        requires
            ctx.valid_type(*self),
        ensures
            r == (kind_of_data(ctx.type_at(*self)) == TypeKind::Integer),
    {
        self.kind(ctx) == TypeKind::Integer
    }

    /// Returns true if this type is any floating-point number.
    pub fn is_float(&self, ctx: &Context) -> (r: bool)
        requires
            ctx.valid_type(*self),
        ensures
            r == is_float_kind(kind_of_data(ctx.type_at(*self))),
    {
        let k = self.kind(ctx);
        k == TypeKind::Half || k == TypeKind::Float || k == TypeKind::Double
    }

    /// Returns the element of this pointer, array or vector type, or `None` for
    /// any other type.
    pub fn get_element(&self, ctx: &Context) -> (r: Option<Type>)
        requires
            ctx.valid_type(*self),
        ensures
            r == element_of(ctx.type_at(*self)),
    {
        match &ctx.types[self.index] {
            TypeData::Pointer { elem, .. } => Some(*elem),
            TypeData::Array { elem, .. } => Some(*elem),
            TypeData::Vector { elem, .. } => Some(*elem),
            _ => None,
        }
    }
}

pub open spec fn is_float_kind(k: TypeKind) -> bool {
    k == TypeKind::Half || k == TypeKind::Float || k == TypeKind::Double
}

impl StructType {
    pub open spec fn as_type_spec(self) -> Type {
        Type { index: self.index }
    }

    /// The same type as a general type handle.
    #[verifier::when_used_as_spec(as_type_spec)]
    pub fn as_type(self) -> (r: Type)
        ensures
            r == self.as_type_spec(),
    {
        Type { index: self.index }
    }

    /// Make a new anonymous structure with the given fields.
    pub fn new(ctx: &mut Context, fields: &[Type], packed: bool) -> (r: StructType)
        requires
            old(ctx).wf(),
            all_below(fields@, old(ctx).types@.len() as int),
            old(ctx).types@.len() < usize::MAX,
        ensures
            final(ctx).wf(),
            interned(
                *old(ctx),
                *final(ctx),
                |x: TypeData| x is Struct && x->Struct_fields@ == fields@ && x->Struct_packed == packed,
                r.as_type(),
            ),
    {
        let t = Type::struct_ty(ctx, fields, packed);
        StructType { index: t.index }
    }

    /// Make a new named structure whose body is not set yet. A body set later may
    /// refer to the structure itself through a pointer.
    pub fn new_opaque(ctx: &mut Context, name: &str) -> (r: StructType)
        requires
            old(ctx).wf(),
            old(ctx).types@.len() < usize::MAX,
        ensures
            final(ctx).wf(),
            final(ctx).values@ == old(ctx).values@,
            final(ctx).blocks@ == old(ctx).blocks@,
            final(ctx).grows_from(*old(ctx)),
            final(ctx).types@.drop_last() == old(ctx).types@,
            final(ctx).types@.len() == old(ctx).types@.len() + 1,
            r.index == old(ctx).types@.len(),
            final(ctx).type_at(r.as_type()) is Named,
            final(ctx).type_at(r.as_type())->Named_name@ == name@,
            final(ctx).type_at(r.as_type())->Named_fields@.len() == 0,
            final(ctx).type_at(r.as_type())->Named_opaque,
    {
        let r = StructType { index: ctx.types.len() };
        let ghost n = ctx.types@.len() as int;
        ctx.types.push(
            TypeData::Named {
                name: String::from_str(name),
                fields: Vec::new(),
                packed: false,
                opaque: true,
            },
        );
        proof {
            assert(ctx.types@.drop_last() =~= old(ctx).types@);
            assert forall|j: int| 0 <= j < n + 1 implies type_refs_ok(
                #[trigger] ctx.types@[j],
                j,
                n + 1,
            ) by {
                if j < n {
                    lemma_type_refs_mono(old(ctx).types@[j], j, n, n + 1);
                }
            }
        }
        r
    }

    /// Set the body of a named structure.
    pub fn set_body(self, ctx: &mut Context, fields: &[Type], packed: bool)
        requires
            old(ctx).wf(),
            old(ctx).valid_type(self.as_type()),
            old(ctx).type_at(self.as_type()) is Named,
            all_below(fields@, old(ctx).types@.len() as int),
        ensures
            final(ctx).wf(),
            final(ctx).values@ == old(ctx).values@,
            final(ctx).blocks@ == old(ctx).blocks@,
            final(ctx).grows_from(*old(ctx)),
            final(ctx).types@ == old(ctx).types@.update(
                self.index as int,
                final(ctx).type_at(self.as_type()),
            ),
            final(ctx).type_at(self.as_type()) is Named,
            final(ctx).type_at(self.as_type())->Named_name
                == old(ctx).type_at(self.as_type())->Named_name,
            final(ctx).type_at(self.as_type())->Named_fields@ == fields@,
            final(ctx).type_at(self.as_type())->Named_packed == packed,
            !final(ctx).type_at(self.as_type())->Named_opaque,
    {
        let name = match &ctx.types[self.index] {
            TypeData::Named { name, .. } => name.clone(),
            _ => String::new(),
        };
        let body = copy_types(fields);
        ctx.types.set(self.index, TypeData::Named { name, fields: body, packed, opaque: false });
        proof {
            let n = ctx.types@.len() as int;
            assert forall|j: int| 0 <= j < n implies type_refs_ok(#[trigger] ctx.types@[j], j, n) by {
                if j != self.index {
                    assert(type_refs_ok(old(ctx).types@[j], j, n));
                }
            }
        }
    }

    /// Make a new named structure with the given fields, in the two steps of an
    /// opaque structure and its body.
    pub fn new_named(ctx: &mut Context, name: &str, fields: &[Type], packed: bool) -> (r: StructType)
        requires
            old(ctx).wf(),
            all_below(fields@, old(ctx).types@.len() as int),
            old(ctx).types@.len() < usize::MAX,
        ensures
            final(ctx).wf(),
            final(ctx).values@ == old(ctx).values@,
            final(ctx).blocks@ == old(ctx).blocks@,
            final(ctx).grows_from(*old(ctx)),
            final(ctx).types@.drop_last() == old(ctx).types@,
            final(ctx).types@.len() == old(ctx).types@.len() + 1,
            r.index == old(ctx).types@.len(),
            final(ctx).type_at(r.as_type()) is Named,
            final(ctx).type_at(r.as_type())->Named_name@ == name@,
            final(ctx).type_at(r.as_type())->Named_fields@ == fields@,
            final(ctx).type_at(r.as_type())->Named_packed == packed,
            !final(ctx).type_at(r.as_type())->Named_opaque,
    {
        let r = StructType::new_opaque(ctx, name);
        r.set_body(ctx, fields, packed);
        proof {
            assert(ctx.types@.drop_last() =~= old(ctx).types@);
        }
        r
    }

    /// Returns the field types of this structure, in declaration order.
    pub fn get_elements(&self, ctx: &Context) -> (r: Vec<Type>)
        requires
            ctx.valid_type(self.as_type()),
        ensures
            r@ == fields_of(ctx.type_at(self.as_type())),
    {
        match &ctx.types[self.index] {
            TypeData::Struct { fields, .. } => copy_types(fields.as_slice()),
            TypeData::Named { fields, .. } => copy_types(fields.as_slice()),
            _ => Vec::new(),
        }
    }

    /// Narrows a type to a structure type, or `None` when it is not one.
    pub fn cast(ctx: &Context, ty: Type) -> (r: Option<StructType>)
        requires
            ctx.valid_type(ty),
        ensures
            r == (if kind_of_data(ctx.type_at(ty)) == TypeKind::Struct {
                Some(StructType { index: ty.index })
            } else {
                None
            }),
    {
        if ty.kind(ctx) == TypeKind::Struct {
            Some(StructType { index: ty.index })
        } else {
            None
        }
    }
}

impl FunctionType {
    pub open spec fn as_type_spec(self) -> Type {
        Type { index: self.index }
    }

    /// The same type as a general type handle.
    #[verifier::when_used_as_spec(as_type_spec)]
    pub fn as_type(self) -> (r: Type)
        ensures
            r == self.as_type_spec(),
    {
        Type { index: self.index }
    }

    /// Returns the number of parameters this signature takes.
    pub fn num_params(&self, ctx: &Context) -> (r: usize)
        requires
            ctx.valid_type(self.as_type()),
        ensures
            r == params_of(ctx.type_at(self.as_type())).len(),
    {
        match &ctx.types[self.index] {
            TypeData::Function { params, .. } => params.len(),
            _ => 0,
        }
    }

    /// Returns the parameter types of this signature.
    pub fn get_params(&self, ctx: &Context) -> (r: Vec<Type>)
        requires
            ctx.valid_type(self.as_type()),
        ensures
            r@ == params_of(ctx.type_at(self.as_type())),
    {
        match &ctx.types[self.index] {
            TypeData::Function { params, .. } => copy_types(params.as_slice()),
            _ => Vec::new(),
        }
    }

    /// Returns the type that this signature returns.
    pub fn get_return(&self, ctx: &Context) -> (r: Type)
        requires
            ctx.valid_type(self.as_type()),
            ctx.type_at(self.as_type()) is Function,
        ensures
            r == ctx.type_at(self.as_type())->Function_ret,
    {
        match &ctx.types[self.index] {
            TypeData::Function { ret, .. } => *ret,
            _ => self.as_type(),
        }
    }

    /// Narrows a type to a function signature, after following element types down
    /// through pointers (and arrays and vectors) as far as they go; `None` when what
    /// is found there is not a signature.
    pub fn cast(ctx: &Context, ty: Type) -> (r: Option<FunctionType>)
        requires
            ctx.wf(),
            ctx.valid_type(ty),
        ensures
            r == (if ctx.types@[unwrap_elements(ctx.types@, ty.index as int)] is Function {
                Some(FunctionType { index: unwrap_elements(ctx.types@, ty.index as int) as usize })
            } else {
                None
            }),
    {
        let mut cur = ty;
        let mut next = cur.get_element(ctx);
        while next.is_some()
            invariant
                ctx.wf(),
                ctx.valid_type(cur),
                next == element_of(ctx.type_at(cur)),
                unwrap_elements(ctx.types@, cur.index as int) == unwrap_elements(ctx.types@, ty.index as int),
            decreases cur.index,
        {
            proof {
                assert(type_refs_ok(ctx.types@[cur.index as int], cur.index as int, ctx.types@.len() as int));
            }
            cur = next.unwrap();
            next = cur.get_element(ctx);
        }
        if cur.is_function(ctx) {
            Some(FunctionType { index: cur.index })
        } else {
            None
        }
    }
}

/// The canonical textual form of each kind of type: `void`, `iN`, `half`,
/// `float`, `double`, `T*` (with ` addrspace(N)` before the star outside the
/// generic space), `[N x T]`, `<N x T>`, `{}` / `<{}>` for empty structures,
/// `{ T, U }` / `<{ T, U }>` otherwise, `%name` for a named structure and
/// `R (P, Q)` for a signature.
pub proof fn lemma_type_text_forms(types: Seq<TypeData>, i: int)
    requires
        types_ok(types),
        0 <= i < types.len(),
    ensures
        types[i] is Void ==> type_text(types, i) == "void"@,
        types[i] is Integer ==> type_text(types, i) == "i"@ + nat_text(types[i]->Integer_bits as nat),
        types[i] is Half ==> type_text(types, i) == "half"@,
        types[i] is Float ==> type_text(types, i) == "float"@,
        types[i] is Double ==> type_text(types, i) == "double"@,
        types[i] is Pointer ==> type_text(types, i) == type_text(types, types[i]->Pointer_elem.index as int)
            + space_text(types[i]->Pointer_space) + "*"@,
        types[i] is Array ==> type_text(types, i) == "["@ + nat_text(types[i]->Array_len as nat) + " x "@
            + type_text(types, types[i]->Array_elem.index as int) + "]"@,
        types[i] is Vector ==> type_text(types, i) == "<"@ + nat_text(types[i]->Vector_len as nat) + " x "@
            + type_text(types, types[i]->Vector_elem.index as int) + ">"@,
        types[i] is Struct && types[i]->Struct_fields@.len() == 0 ==> type_text(types, i) == if types[i]->Struct_packed {
            "<{}>"@
        } else {
            "{}"@
        },
        types[i] is Struct && types[i]->Struct_fields@.len() == 1 ==> type_text(types, i) == if types[i]->Struct_packed {
            "<{ "@ + type_text(types, types[i]->Struct_fields@[0].index as int) + " }>"@
        } else {
            "{ "@ + type_text(types, types[i]->Struct_fields@[0].index as int) + " }"@
        },
        types[i] is Named ==> type_text(types, i) == "%"@ + types[i]->Named_name@,
        types[i] is Function ==> type_text(types, i) == type_text(types, types[i]->Function_ret.index as int)
            + " ("@ + list_text(types, i, types[i]->Function_params@, types[i]->Function_params@.len() as int)
            + ")"@,
{
    assert(type_refs_ok(types[i], i, types.len() as int));
    if types[i] is Struct && types[i]->Struct_fields@.len() == 1 {
        let fields = types[i]->Struct_fields@;
        assert(0 <= fields[0].index < i);
        assert(list_text(types, i, fields, 1) == type_text(types, fields[0].index as int));
    }
}

} // verus!
