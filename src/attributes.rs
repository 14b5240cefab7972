use vstd::prelude::*;

verus! {

/// A way of indicating how arguments and functions are to be handled by code generation.
///
/// Most attributes are a single flag bit of the attribute word. Two are packed
/// multi-bit fields: `Alignment` (five bits, log2 of the alignment plus one) and
/// `StackAlignment` (three bits, log2 of the stack alignment plus one). Naming one
/// of those sets or tests its whole field.
#[derive(Clone, Copy, PartialEq, Eq, Structural, Debug)]
pub enum Attribute {
    /// Zero-extended before or after call.
    ZExt,
    /// Sign-extended before or after call.
    SExt,
    /// Mark the function as not returning.
    NoReturn,
    /// Force argument to be passed in register.
    InReg,
    /// Hidden pointer to structure to return.
    StructRet,
    /// Function doesn't unwind stack.
    NoUnwind,
    /// Consider to not alias after call.
    NoAlias,
    /// Pass structure by value.
    ByVal,
    /// Nested function static chain.
    Nest,
    /// Function doesn't access memory.
    ReadNone,
    /// Function only reads from memory.
    ReadOnly,
    /// Never inline this function.
    NoInline,
    /// Always inline this function.
    AlwaysInline,
    /// Optimize this function for size.
    OptimizeForSize,
    /// Stack protection.
    StackProtect,
    /// Stack protection required.
    StackProtectReq,
    /// Alignment of parameter (five bits).
    Alignment,
    /// Function creates no aliases of pointer.
    NoCapture,
    /// Disable redzone.
    NoRedZone,
    /// Disable implicit float instructions.
    NoImplicitFloat,
    /// Naked function.
    Naked,
    /// The source language has marked this function as inline.
    InlineHint,
    /// Alignment of stack for function (three bits).
    StackAlignment,
    /// This function returns twice.
    ReturnsTwice,
    /// Function must be in unwind table.
    UWTable,
    /// Function is called early/often, so lazy binding isn't effective.
    NonLazyBind,
}

/// The mask of the five-bit alignment field.
pub const ALIGNMENT_MASK: u32 = 0x1F_0000;

/// The mask of the three-bit stack alignment field.
pub const STACK_ALIGNMENT_MASK: u32 = 0x1C00_0000;

/// Bit position of a single-flag attribute in the attribute word.
pub open spec fn flag_position(a: Attribute) -> u32 {
    match a {
        Attribute::ZExt => 0,
        Attribute::SExt => 1,
        Attribute::NoReturn => 2,
        Attribute::InReg => 3,
        Attribute::StructRet => 4,
        Attribute::NoUnwind => 5,
        Attribute::NoAlias => 6,
        Attribute::ByVal => 7,
        Attribute::Nest => 8,
        Attribute::ReadNone => 9,
        Attribute::ReadOnly => 10,
        Attribute::NoInline => 11,
        Attribute::AlwaysInline => 12,
        Attribute::OptimizeForSize => 13,
        Attribute::StackProtect => 14,
        Attribute::StackProtectReq => 15,
        Attribute::NoCapture => 21,
        Attribute::NoRedZone => 22,
        Attribute::NoImplicitFloat => 23,
        Attribute::Naked => 24,
        Attribute::InlineHint => 25,
        Attribute::ReturnsTwice => 29,
        Attribute::UWTable => 30,
        Attribute::NonLazyBind => 31,
        Attribute::Alignment => 16,
        Attribute::StackAlignment => 26,
    }
}

/// True for the two attributes that occupy a multi-bit field.
pub open spec fn is_field(a: Attribute) -> bool {
    a == Attribute::Alignment || a == Attribute::StackAlignment
}

/// The bits of the attribute word that an attribute occupies.
pub open spec fn attribute_mask(a: Attribute) -> u32 {
    match a {
        Attribute::Alignment => ALIGNMENT_MASK,
        Attribute::StackAlignment => STACK_ALIGNMENT_MASK,
        _ => 1u32 << flag_position(a),
    }
}

/// The union of the masks of a sequence of attributes.
pub open spec fn union_of(attrs: Seq<Attribute>) -> u32
    decreases attrs.len(),
{
    if attrs.len() == 0 {
        0
    } else {
        union_of(attrs.drop_last()) | attribute_mask(attrs.last())
    }
}

/// A word has an attribute when every bit of the attribute's mask is set.
pub open spec fn word_has(word: u32, a: Attribute) -> bool {
    word & attribute_mask(a) == attribute_mask(a)
}

/// A word has a list of attributes when it has each of them.
pub open spec fn word_has_all(word: u32, attrs: Seq<Attribute>) -> bool {
    forall|i: int| 0 <= i < attrs.len() ==> word_has(word, #[trigger] attrs[i])
}

impl Attribute {
    /// The mask of this attribute in the attribute word.
    pub fn mask(self) -> (r: u32)
        ensures
            r == attribute_mask(self),
    {
        match self {
            Attribute::Alignment => ALIGNMENT_MASK,
            Attribute::StackAlignment => STACK_ALIGNMENT_MASK,
            Attribute::ZExt => 1u32 << 0u32,
            Attribute::SExt => 1u32 << 1u32,
            Attribute::NoReturn => 1u32 << 2u32,
            Attribute::InReg => 1u32 << 3u32,
            Attribute::StructRet => 1u32 << 4u32,
            Attribute::NoUnwind => 1u32 << 5u32,
            Attribute::NoAlias => 1u32 << 6u32,
            Attribute::ByVal => 1u32 << 7u32,
            Attribute::Nest => 1u32 << 8u32,
            Attribute::ReadNone => 1u32 << 9u32,
            Attribute::ReadOnly => 1u32 << 10u32,
            Attribute::NoInline => 1u32 << 11u32,
            Attribute::AlwaysInline => 1u32 << 12u32,
            Attribute::OptimizeForSize => 1u32 << 13u32,
            Attribute::StackProtect => 1u32 << 14u32,
            Attribute::StackProtectReq => 1u32 << 15u32,
            Attribute::NoCapture => 1u32 << 21u32,
            Attribute::NoRedZone => 1u32 << 22u32,
            Attribute::NoImplicitFloat => 1u32 << 23u32,
            Attribute::Naked => 1u32 << 24u32,
            Attribute::InlineHint => 1u32 << 25u32,
            Attribute::ReturnsTwice => 1u32 << 29u32,
            Attribute::UWTable => 1u32 << 30u32,
            Attribute::NonLazyBind => 1u32 << 31u32,
        }
    }
}

/// Unions the masks of several attributes into one word.
pub fn union_masks(attrs: &[Attribute]) -> (r: u32)
    ensures
        r == union_of(attrs@),
{
    let mut sum: u32 = 0;
    let mut i: usize = 0;
    while i < attrs.len()
        invariant
            0 <= i <= attrs@.len(),
            sum == union_of(attrs@.subrange(0, i as int)),
        decreases attrs@.len() - i,
    {
        proof {
            assert(attrs@.subrange(0, i as int + 1).drop_last() =~= attrs@.subrange(0, i as int));
        }
        sum = sum | attrs[i].mask();
        i = i + 1;
    }
    proof {
        assert(attrs@.subrange(0, attrs@.len() as int) =~= attrs@);
    }
    sum
}

/// Tests whether a word has every attribute of a list.
pub fn has_all(word: u32, attrs: &[Attribute]) -> (r: bool)
    ensures
        r == word_has_all(word, attrs@),
{
    let mut i: usize = 0;
    while i < attrs.len()
        invariant
            0 <= i <= attrs@.len(),
            forall|j: int| 0 <= j < i ==> word_has(word, #[trigger] attrs@[j]),
        decreases attrs@.len() - i,
    {
        let m = attrs[i].mask();
        if word & m != m {
            return false;
        }
        i = i + 1;
    }
    true
}

proof fn lemma_single_bits_disjoint(p: u32, q: u32)
    requires
        p < 32,
        q < 32,
        p != q,
    ensures
        (1u32 << p) & (1u32 << q) == 0,
{
    assert((1u32 << p) & (1u32 << q) == 0) by (bit_vector)
        requires
            p < 32,
            q < 32,
            p != q,
    ;
}

proof fn lemma_bit_outside_fields(p: u32)
    requires
        p < 32,
    ensures
        (p < 16 || 20 < p) ==> (1u32 << p) & ALIGNMENT_MASK == 0,
        (p < 26 || 28 < p) ==> (1u32 << p) & STACK_ALIGNMENT_MASK == 0,
{
    assert((p < 16 || 20 < p) ==> (1u32 << p) & 0x1F_0000u32 == 0) by (bit_vector)
        requires
            p < 32,
    ;
    assert((p < 26 || 28 < p) ==> (1u32 << p) & 0x1C00_0000u32 == 0) by (bit_vector)
        requires
            p < 32,
    ;
}

/// Two distinct attributes occupy disjoint bits of the attribute word.
pub proof fn lemma_masks_disjoint(a: Attribute, b: Attribute)
    requires
        a != b,
    ensures
        attribute_mask(a) & attribute_mask(b) == 0,
        attribute_mask(a) != 0,
{
    let p = flag_position(a);
    let q = flag_position(b);
    assert(ALIGNMENT_MASK & STACK_ALIGNMENT_MASK == 0) by (bit_vector);
    assert(STACK_ALIGNMENT_MASK & ALIGNMENT_MASK == 0) by (bit_vector);
    assert(ALIGNMENT_MASK != 0 && STACK_ALIGNMENT_MASK != 0) by (bit_vector);
    assert(p < 32 ==> (1u32 << p) != 0) by (bit_vector);
    if !is_field(a) && !is_field(b) {
        lemma_single_bits_disjoint(p, q);
    } else if !is_field(a) {
        lemma_bit_outside_fields(p);
        assert((1u32 << p) & ALIGNMENT_MASK == 0 ==> ALIGNMENT_MASK & (1u32 << p) == 0)
            by (bit_vector);
        assert((1u32 << p) & STACK_ALIGNMENT_MASK == 0 ==> STACK_ALIGNMENT_MASK & (1u32 << p)
            == 0) by (bit_vector);
    } else if !is_field(b) {
        lemma_bit_outside_fields(q);
        assert((1u32 << q) & ALIGNMENT_MASK == 0 ==> ALIGNMENT_MASK & (1u32 << q) == 0)
            by (bit_vector);
        assert((1u32 << q) & STACK_ALIGNMENT_MASK == 0 ==> STACK_ALIGNMENT_MASK & (1u32 << q)
            == 0) by (bit_vector);
    }
}

/// Adding two distinct attributes gives the same word in either order, and a word
/// that has both; removing the first afterwards clears it and keeps the second.
pub proof fn lemma_attribute_union(word: u32, a: Attribute, b: Attribute)
    requires
        a != b,
    ensures
        union_of(seq![a, b]) == union_of(seq![b, a]),
        (word | attribute_mask(a)) | attribute_mask(b) == (word | attribute_mask(b)) | attribute_mask(a),
        word_has_all((word | attribute_mask(a)) | attribute_mask(b), seq![a, b]),
        !word_has(((word | attribute_mask(a)) | attribute_mask(b)) & !attribute_mask(a), a),
        word_has(((word | attribute_mask(a)) | attribute_mask(b)) & !attribute_mask(a), b),
{
    let ma = attribute_mask(a);
    let mb = attribute_mask(b);
    lemma_masks_disjoint(a, b);
    assert(seq![a, b].drop_last() =~= seq![a]);
    assert(seq![b, a].drop_last() =~= seq![b]);
    assert(seq![a].drop_last() =~= Seq::<Attribute>::empty());
    assert(seq![b].drop_last() =~= Seq::<Attribute>::empty());
    assert(((0u32 | ma) | mb) == ((0u32 | mb) | ma)) by (bit_vector);
    assert(union_of(Seq::<Attribute>::empty()) == 0u32);
    assert(seq![a].last() == a && seq![b].last() == b);
    assert(union_of(seq![a]) == 0u32 | ma);
    assert(union_of(seq![b]) == 0u32 | mb);
    assert(union_of(seq![a, b]) == union_of(seq![a]) | mb);
    assert(union_of(seq![b, a]) == union_of(seq![b]) | ma);
    assert((word | ma) | mb == (word | mb) | ma) by (bit_vector);
    assert(((word | ma) | mb) & ma == ma && ((word | ma) | mb) & mb == mb) by (bit_vector);
    assert(ma != 0 ==> (((word | ma) | mb) & !ma) & ma != ma) by (bit_vector);
    assert(ma & mb == 0 ==> (((word | ma) | mb) & !ma) & mb == mb) by (bit_vector);
    let w = (word | ma) | mb;
    let both = seq![a, b];
    assert forall|i: int| 0 <= i < both.len() implies word_has(w, #[trigger] both[i]) by {
        if i == 1 {
            assert(both[i] == b);
        } else {
            assert(both[i] == a);
        }
    }
}

} // verus!
