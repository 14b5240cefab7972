use vstd::prelude::*;

verus! {

/// Comparative operations on values.
#[derive(Clone, Copy, PartialEq, Eq, Structural, Debug)]
pub enum Predicate {
    Equal,
    NotEqual,
    GreaterThan,
    GreaterThanOrEqual,
    LessThan,
    LessThanOrEqual,
}

/// Integer comparison codes.
#[derive(Clone, Copy, PartialEq, Eq, Structural, Debug)]
pub enum IntPredicate {
    EQ,
    NE,
    UGT,
    UGE,
    ULT,
    ULE,
    SGT,
    SGE,
    SLT,
    SLE,
}

/// Ordered floating-point comparison codes.
#[derive(Clone, Copy, PartialEq, Eq, Structural, Debug)]
pub enum RealPredicate {
    OEQ,
    ONE,
    OGT,
    OGE,
    OLT,
    OLE,
}

/// The operation an instruction performs.
#[derive(Clone, Copy, PartialEq, Eq, Structural, Debug)]
pub enum Opcode {
    Ret,
    RetVoid,
    Br,
    CondBr,
    Switch,
    Alloca,
    ArrayAlloca,
    Free,
    Load,
    Store,
    Call,
    Select,
    BitCast,
    InsertValue(usize),
    ExtractValue(usize),
    GetElementPtr,
    Phi,
    Neg,
    Not,
    Add,
    FAdd,
    Sub,
    FSub,
    Mul,
    FMul,
    SDiv,
    FDiv,
    SRem,
    FRem,
    Shl,
    AShr,
    And,
    Or,
    Xor,
    ICmp(IntPredicate),
    FCmp(RealPredicate),
}

/// The arithmetic operations that pick an integer or a floating-point opcode.
#[derive(Clone, Copy, PartialEq, Eq, Structural, Debug)]
pub enum Arith {
    Add,
    Sub,
    Mul,
    Div,
    Rem,
}

/// Instructions that end a basic block.
pub open spec fn is_terminator(op: Opcode) -> bool {
    op is Ret || op is RetVoid || op is Br || op is CondBr || op is Switch
}

/// The integer comparison code for a predicate, signed or unsigned.
pub open spec fn int_predicate_spec(pred: Predicate, signed: bool) -> IntPredicate {
    match pred {
        Predicate::Equal => IntPredicate::EQ,
        Predicate::NotEqual => IntPredicate::NE,
        Predicate::LessThan => if signed {
            IntPredicate::SLT
        } else {
            IntPredicate::ULT
        },
        Predicate::LessThanOrEqual => if signed {
            IntPredicate::SLE
        } else {
            IntPredicate::ULE
        },
        Predicate::GreaterThan => if signed {
            IntPredicate::SGT
        } else {
            IntPredicate::UGT
        },
        Predicate::GreaterThanOrEqual => if signed {
            IntPredicate::SGE
        } else {
            IntPredicate::UGE
        },
    }
}

/// The ordered floating-point comparison code for a predicate.
pub open spec fn real_predicate_spec(pred: Predicate) -> RealPredicate {
    match pred {
        Predicate::Equal => RealPredicate::OEQ,
        Predicate::NotEqual => RealPredicate::ONE,
        Predicate::GreaterThan => RealPredicate::OGT,
        Predicate::GreaterThanOrEqual => RealPredicate::OGE,
        Predicate::LessThan => RealPredicate::OLT,
        Predicate::LessThanOrEqual => RealPredicate::OLE,
    }
}

/// The opcode of an arithmetic operation on integer or floating-point operands.
pub open spec fn arith_opcode_spec(op: Arith, integer: bool) -> Opcode {
    match op {
        Arith::Add => if integer {
            Opcode::Add
        } else {
            Opcode::FAdd
        },
        Arith::Sub => if integer {
            Opcode::Sub
        } else {
            Opcode::FSub
        },
        Arith::Mul => if integer {
            Opcode::Mul
        } else {
            Opcode::FMul
        },
        Arith::Div => if integer {
            Opcode::SDiv
        } else {
            Opcode::FDiv
        },
        Arith::Rem => if integer {
            Opcode::SRem
        } else {
            Opcode::FRem
        },
    }
}

/// Translates a predicate into an integer comparison code.
pub fn int_predicate(pred: Predicate, signed: bool) -> (r: IntPredicate)
    ensures
        r == int_predicate_spec(pred, signed),
{
    match (pred, signed) {
        (Predicate::Equal, _) => IntPredicate::EQ,
        (Predicate::NotEqual, _) => IntPredicate::NE,
        (Predicate::LessThan, true) => IntPredicate::SLT,
        (Predicate::LessThan, false) => IntPredicate::ULT,
        (Predicate::LessThanOrEqual, true) => IntPredicate::SLE,
        (Predicate::LessThanOrEqual, false) => IntPredicate::ULE,
        (Predicate::GreaterThan, true) => IntPredicate::SGT,
        (Predicate::GreaterThan, false) => IntPredicate::UGT,
        (Predicate::GreaterThanOrEqual, true) => IntPredicate::SGE,
        (Predicate::GreaterThanOrEqual, false) => IntPredicate::UGE,
    }
}

/// Translates a predicate into an ordered floating-point comparison code.
pub fn real_predicate(pred: Predicate) -> (r: RealPredicate)
    ensures
        r == real_predicate_spec(pred),
{
    match pred {
        Predicate::Equal => RealPredicate::OEQ,
        Predicate::NotEqual => RealPredicate::ONE,
        Predicate::GreaterThan => RealPredicate::OGT,
        Predicate::GreaterThanOrEqual => RealPredicate::OGE,
        Predicate::LessThan => RealPredicate::OLT,
        Predicate::LessThanOrEqual => RealPredicate::OLE,
    }
}

/// Picks the integer or the floating-point opcode of an arithmetic operation.
pub fn arith_opcode(op: Arith, integer: bool) -> (r: Opcode)
    ensures
        r == arith_opcode_spec(op, integer),
{
    match op {
        Arith::Add => if integer { Opcode::Add } else { Opcode::FAdd },
        Arith::Sub => if integer { Opcode::Sub } else { Opcode::FSub },
        Arith::Mul => if integer { Opcode::Mul } else { Opcode::FMul },
        Arith::Div => if integer { Opcode::SDiv } else { Opcode::FDiv },
        Arith::Rem => if integer { Opcode::SRem } else { Opcode::FRem },
    }
}

/// Whether an instruction ends a basic block.
pub fn terminates(op: Opcode) -> (r: bool)
    ensures
        r == is_terminator(op),
{
    match op {
        Opcode::Ret | Opcode::RetVoid | Opcode::Br | Opcode::CondBr | Opcode::Switch => true,
        _ => false,
    }
}

/// The whole comparison table: for each of the six predicates, the signed and
/// the unsigned integer code and the ordered floating-point code. Equality and
/// inequality do not depend on signedness; no two other cells share a code.
pub proof fn lemma_predicate_table()
    ensures
        int_predicate_spec(Predicate::Equal, true) == IntPredicate::EQ,
        int_predicate_spec(Predicate::Equal, false) == IntPredicate::EQ,
        real_predicate_spec(Predicate::Equal) == RealPredicate::OEQ,
        int_predicate_spec(Predicate::NotEqual, true) == IntPredicate::NE,
        int_predicate_spec(Predicate::NotEqual, false) == IntPredicate::NE,
        real_predicate_spec(Predicate::NotEqual) == RealPredicate::ONE,
        int_predicate_spec(Predicate::LessThan, true) == IntPredicate::SLT,
        int_predicate_spec(Predicate::LessThan, false) == IntPredicate::ULT,
        real_predicate_spec(Predicate::LessThan) == RealPredicate::OLT,
        int_predicate_spec(Predicate::LessThanOrEqual, true) == IntPredicate::SLE,
        int_predicate_spec(Predicate::LessThanOrEqual, false) == IntPredicate::ULE,
        real_predicate_spec(Predicate::LessThanOrEqual) == RealPredicate::OLE,
        int_predicate_spec(Predicate::GreaterThan, true) == IntPredicate::SGT,
        int_predicate_spec(Predicate::GreaterThan, false) == IntPredicate::UGT,
        real_predicate_spec(Predicate::GreaterThan) == RealPredicate::OGT,
        int_predicate_spec(Predicate::GreaterThanOrEqual, true) == IntPredicate::SGE,
        int_predicate_spec(Predicate::GreaterThanOrEqual, false) == IntPredicate::UGE,
        real_predicate_spec(Predicate::GreaterThanOrEqual) == RealPredicate::OGE,
        forall|p: Predicate, q: Predicate, s: bool, t: bool|
            #![trigger int_predicate_spec(p, s), int_predicate_spec(q, t)]
            int_predicate_spec(p, s) == int_predicate_spec(q, t) ==> p == q && (s == t
                || p == Predicate::Equal || p == Predicate::NotEqual),
        forall|p: Predicate, q: Predicate|
            #![trigger real_predicate_spec(p), real_predicate_spec(q)]
            real_predicate_spec(p) == real_predicate_spec(q) ==> p == q,
{
}

} // verus!
