use vstd::prelude::*;

use crate::context::{Context, value_data_ok};
use crate::opcode::{IntPredicate, Opcode};
use crate::ty::{Type, TypeData};
use crate::value::{Value, ValueKind, BasicBlock, Function};

verus! {

// A reference evaluator for the integer part of the IR. Values are 64-bit
// words whose bits beyond the width of their type are zero; a pointer made by
// `alloca` is the number of a memory slot holding one word. Every jump and call
// spends one unit of fuel, so evaluation always ends; `None` stands for running
// out of fuel and for anything the evaluator does not cover (floating point,
// undefined values, division, address arithmetic, malformed instructions).

/// Keeps the low `w` bits of a word.
pub open spec fn truncate(x: u64, w: u32) -> u64 {
    if w >= 64 {
        x
    } else {
        x & (((1u64 << w) - 1) as u64)
    }
}

/// The width in bits of the values of a type; 64 for a type that is not an integer.
pub open spec fn width_of(ctx: Context, t: Type) -> u32 {
    match ctx.types@[t.index as int] {
        TypeData::Integer { bits } => bits,
        _ => 64,
    }
}

/// A `w`-bit word with its sign bit flipped: comparing flipped words as
/// unsigned numbers compares the unflipped words as signed ones.
pub open spec fn flip_sign(x: u64, w: u32) -> u64 {
    if w == 0 || w > 64 {
        x
    } else {
        x ^ (1u64 << ((w - 1) as u32))
    }
}

/// Whether two `w`-bit words stand in the relation of a comparison code.
pub open spec fn compare(p: IntPredicate, a: u64, b: u64, w: u32) -> bool {
    match p {
        IntPredicate::EQ => a == b,
        IntPredicate::NE => a != b,
        IntPredicate::UGT => a > b,
        IntPredicate::UGE => a >= b,
        IntPredicate::ULT => a < b,
        IntPredicate::ULE => a <= b,
        IntPredicate::SGT => flip_sign(a, w) > flip_sign(b, w),
        IntPredicate::SGE => flip_sign(a, w) >= flip_sign(b, w),
        IntPredicate::SLT => flip_sign(a, w) < flip_sign(b, w),
        IntPredicate::SLE => flip_sign(a, w) <= flip_sign(b, w),
    }
}

/// The word an operand stands for, given the words of the instructions and
/// arguments evaluated so far.
pub open spec fn operand_value(ctx: Context, env: Seq<u64>, o: Value) -> Option<u64> {
    if !ctx.valid_value(o) {
        None
    } else {
        match ctx.value_at(o).kind {
            ValueKind::ConstInt { value } => Some(truncate(value, width_of(ctx, ctx.type_of(o)))),
            ValueKind::Arg { .. } => if o.index < env.len() {
                Some(env[o.index as int])
            } else {
                None
            },
            ValueKind::Inst { .. } => if o.index < env.len() {
                Some(env[o.index as int])
            } else {
                None
            },
            _ => None,
        }
    }
}

/// The words of the first `j` operands.
pub open spec fn operand_values(ctx: Context, env: Seq<u64>, ops: Seq<Value>, j: int) -> Option<Seq<u64>>
    decreases j,
{
    if j <= 0 {
        Some(Seq::empty())
    } else {
        match operand_values(ctx, env, ops, j - 1) {
            Some(s) => match operand_value(ctx, env, ops[j - 1]) {
                Some(v) => Some(s.push(v)),
                None => None,
            },
            None => None,
        }
    }
}

/// Where a switch on `v` goes: the target of the first case from position `j`
/// on whose value is `v`, or the default target.
pub open spec fn switch_dest(
    ctx: Context,
    env: Seq<u64>,
    ops: Seq<Value>,
    tg: Seq<BasicBlock>,
    v: u64,
    j: int,
) -> Option<BasicBlock>
    decreases ops.len() - j,
{
    if j < 1 || tg.len() != ops.len() || tg.len() == 0 {
        None
    } else if j >= ops.len() {
        Some(tg[0])
    } else {
        match operand_value(ctx, env, ops[j]) {
            Some(c) => if c == v {
                Some(tg[j])
            } else {
                switch_dest(ctx, env, ops, tg, v, j + 1)
            },
            None => None,
        }
    }
}

/// The incoming word of a phi node for the block control came from: the first
/// pair from position `j` on that names that block.
pub open spec fn phi_value(
    ctx: Context,
    env: Seq<u64>,
    ops: Seq<Value>,
    tg: Seq<BasicBlock>,
    prev: Option<BasicBlock>,
    j: int,
) -> Option<u64>
    decreases ops.len() - j,
{
    if j < 0 || j >= ops.len() || j >= tg.len() {
        None
    } else if prev == Some(tg[j]) {
        operand_value(ctx, env, ops[j])
    } else {
        phi_value(ctx, env, ops, tg, prev, j + 1)
    }
}

/// The word an instruction that neither transfers control nor calls yields,
/// with the memory after it.
pub open spec fn compute(ctx: Context, env: Seq<u64>, mem: Seq<u64>, i: Value) -> Option<(u64, Seq<u64>)> {
    let k = ctx.value_at(i).kind;
    let ops = k->Inst_operands@;
    let w = width_of(ctx, ctx.type_of(i));
    if !(k is Inst) {
        None
    } else {
        match k->Inst_op {
            Opcode::Alloca => if mem.len() < 0x1000_0000 {
                Some((mem.len() as u64, mem.push(0)))
            } else {
                None
            },
            Opcode::Load => if ops.len() == 1 {
                match operand_value(ctx, env, ops[0]) {
                    Some(p) => if p < mem.len() {
                        Some((mem[p as int], mem))
                    } else {
                        None
                    },
                    None => None,
                }
            } else {
                None
            },
            Opcode::Store => if ops.len() == 2 {
                match (operand_value(ctx, env, ops[0]), operand_value(ctx, env, ops[1])) {
                    (Some(v), Some(p)) => if p < mem.len() {
                        Some((0, mem.update(p as int, v)))
                    } else {
                        None
                    },
                    _ => None,
                }
            } else {
                None
            },
            Opcode::Select => if ops.len() == 3 {
                match (
                    operand_value(ctx, env, ops[0]),
                    operand_value(ctx, env, ops[1]),
                    operand_value(ctx, env, ops[2]),
                ) {
                    (Some(c), Some(a), Some(b)) => Some((if c != 0 { a } else { b }, mem)),
                    _ => None,
                }
            } else {
                None
            },
            Opcode::Neg => if ops.len() == 1 {
                match operand_value(ctx, env, ops[0]) {
                    Some(a) => Some((truncate(vstd::wrapping::u64_specs::wrapping_sub(0, a), w), mem)),
                    None => None,
                }
            } else {
                None
            },
            Opcode::Not => if ops.len() == 1 {
                match operand_value(ctx, env, ops[0]) {
                    Some(a) => Some((truncate(!a, w), mem)),
                    None => None,
                }
            } else {
                None
            },
            Opcode::ICmp(p) => if ops.len() == 2 {
                match (operand_value(ctx, env, ops[0]), operand_value(ctx, env, ops[1])) {
                    (Some(a), Some(b)) => Some((
                        if compare(p, a, b, width_of(ctx, ctx.type_of(ops[0]))) {
                            1u64
                        } else {
                            0u64
                        },
                        mem,
                    )),
                    _ => None,
                }
            } else {
                None
            },
            Opcode::Add | Opcode::Sub | Opcode::Mul | Opcode::And | Opcode::Or | Opcode::Xor => if ops.len()
                == 2 {
                match (operand_value(ctx, env, ops[0]), operand_value(ctx, env, ops[1])) {
                    (Some(a), Some(b)) => Some((truncate(binary_word(k->Inst_op, a, b), w), mem)),
                    _ => None,
                }
            } else {
                None
            },
            _ => None,
        }
    }
}

/// The word a binary integer operation yields before truncation to its width.
pub open spec fn binary_word(op: Opcode, a: u64, b: u64) -> u64 {
    match op {
        Opcode::Add => vstd::wrapping::u64_specs::wrapping_add(a, b),
        Opcode::Sub => vstd::wrapping::u64_specs::wrapping_sub(a, b),
        Opcode::Mul => vstd::wrapping::u64_specs::wrapping_mul(a, b),
        Opcode::And => a & b,
        Opcode::Or => a | b,
        _ => a ^ b,
    }
}

/// The words of all values, zero, with the arguments of a call bound to the
/// first `n` parameters.
pub open spec fn bind_params(env: Seq<u64>, params: Seq<Value>, args: Seq<u64>, n: int) -> Seq<u64>
    decreases n,
{
    if n <= 0 {
        env
    } else {
        let e = bind_params(env, params, args, n - 1);
        if params[n - 1].index < e.len() {
            e.update(params[n - 1].index as int, args[n - 1])
        } else {
            e
        }
    }
}

/// Evaluates the instructions of block `b` from position `k` on, control having
/// come from `prev`; yields the returned word and the memory then.
pub open spec fn run_block(
    ctx: Context,
    f: Function,
    env: Seq<u64>,
    mem: Seq<u64>,
    prev: Option<BasicBlock>,
    b: BasicBlock,
    k: int,
    fuel: nat,
) -> Option<(u64, Seq<u64>)>
    decreases fuel, 1int, ctx.blocks@[b.index as int].insts@.len() - k,
{
    if !ctx.valid_block(b) || k < 0 || k >= ctx.blocks@[b.index as int].insts@.len() || fuel == 0 {
        None
    } else {
        let i = ctx.blocks@[b.index as int].insts@[k];
        if !ctx.valid_value(i) || !(ctx.value_at(i).kind is Inst) || i.index >= env.len() {
            None
        } else {
            let kind = ctx.value_at(i).kind;
            let ops = kind->Inst_operands@;
            let tg = kind->Inst_targets@;
            match kind->Inst_op {
                Opcode::Ret => if ops.len() == 1 {
                    match operand_value(ctx, env, ops[0]) {
                        Some(v) => Some((v, mem)),
                        None => None,
                    }
                } else {
                    None
                },
                Opcode::Br => if tg.len() == 1 {
                    run_block(ctx, f, env, mem, Some(b), tg[0], 0, (fuel - 1) as nat)
                } else {
                    None
                },
                Opcode::CondBr => if tg.len() == 2 && ops.len() == 1 {
                    match operand_value(ctx, env, ops[0]) {
                        Some(c) => run_block(
                            ctx,
                            f,
                            env,
                            mem,
                            Some(b),
                            if c != 0 {
                                tg[0]
                            } else {
                                tg[1]
                            },
                            0,
                            (fuel - 1) as nat,
                        ),
                        None => None,
                    }
                } else {
                    None
                },
                Opcode::Switch => if ops.len() >= 1 {
                    match operand_value(ctx, env, ops[0]) {
                        Some(v) => match switch_dest(ctx, env, ops, tg, v, 1) {
                            Some(t) => run_block(ctx, f, env, mem, Some(b), t, 0, (fuel - 1) as nat),
                            None => None,
                        },
                        None => None,
                    }
                } else {
                    None
                },
                Opcode::Call => if ops.len() >= 1 && ctx.is_function_value(ops[0]) {
                    match operand_values(ctx, env, ops.skip(1), ops.len() - 1) {
                        Some(args) => match run_function(
                            ctx,
                            Function { index: ops[0].index },
                            args,
                            mem,
                            (fuel - 1) as nat,
                        ) {
                            Some(res) => run_block(
                                ctx,
                                f,
                                env.update(i.index as int, res.0),
                                res.1,
                                prev,
                                b,
                                k + 1,
                                fuel,
                            ),
                            None => None,
                        },
                        None => None,
                    }
                } else {
                    None
                },
                Opcode::Phi => match phi_value(ctx, env, ops, tg, prev, 0) {
                    Some(v) => run_block(ctx, f, env.update(i.index as int, v), mem, prev, b, k + 1, fuel),
                    None => None,
                },
                _ => match compute(ctx, env, mem, i) {
                    Some(res) => run_block(ctx, f, env.update(i.index as int, res.0), res.1, prev, b, k + 1, fuel),
                    None => None,
                },
            }
        }
    }
}

/// Evaluates a call of `f` on `args` from its entry block, with memory `mem`;
/// yields the returned word and the memory then.
pub open spec fn run_function(ctx: Context, f: Function, args: Seq<u64>, mem: Seq<u64>, fuel: nat) -> Option<(u64, Seq<u64>)>
    decreases fuel, 0int, 0int,
{
    if fuel == 0 || !ctx.is_function_value(f.as_value()) || ctx.blocks_of(f).len() == 0
        || ctx.params_of(f).len() != args.len() {
        None
    } else {
        run_block(
            ctx,
            f,
            bind_params(Seq::new(ctx.values@.len(), |j: int| 0u64), ctx.params_of(f), args, args.len() as int),
            mem,
            None,
            ctx.blocks_of(f)[0],
            0,
            (fuel - 1) as nat,
        )
    }
}

/// The spec view of an evaluation result.
pub open spec fn result_view(r: Option<(u64, Vec<u64>)>) -> Option<(u64, Seq<u64>)> {
    match r {
        Some(p) => Some((p.0, p.1@)),
        None => None,
    }
}

fn truncate_word(x: u64, w: u32) -> (r: u64)
    ensures
        r == truncate(x, w),
{
    if w >= 64 {
        x
    } else {
        assert((1u64 << w) >= 1u64) by (bit_vector)
            requires
                w < 64,
        ;
        x & ((1u64 << w) - 1)
    }
}

fn flip_word(x: u64, w: u32) -> (r: u64)
    ensures
        r == flip_sign(x, w),
{
    if w == 0 || w > 64 {
        x
    } else {
        x ^ (1u64 << (w - 1))
    }
}

fn compare_words(p: IntPredicate, a: u64, b: u64, w: u32) -> (r: bool)
    ensures
        r == compare(p, a, b, w),
{
    match p {
        IntPredicate::EQ => a == b,
        IntPredicate::NE => a != b,
        IntPredicate::UGT => a > b,
        IntPredicate::UGE => a >= b,
        IntPredicate::ULT => a < b,
        IntPredicate::ULE => a <= b,
        IntPredicate::SGT => flip_word(a, w) > flip_word(b, w),
        IntPredicate::SGE => flip_word(a, w) >= flip_word(b, w),
        IntPredicate::SLT => flip_word(a, w) < flip_word(b, w),
        IntPredicate::SLE => flip_word(a, w) <= flip_word(b, w),
    }
}

fn width(ctx: &Context, t: Type) -> (r: u32)
    requires
        ctx.valid_type(t),
    ensures
        r == width_of(*ctx, t),
{
    match &ctx.types[t.index] {
        TypeData::Integer { bits } => *bits,
        _ => 64,
    }
}

fn operand_word(ctx: &Context, env: &Vec<u64>, o: Value) -> (r: Option<u64>)
    requires
        ctx.wf(),
    ensures
        r == operand_value(*ctx, env@, o),
{
    if o.index >= ctx.values.len() {
        return None;
    }
    proof {
        assert(value_data_ok(ctx.values@[o.index as int], ctx.types@, ctx.values@.len() as int, ctx.blocks@.len() as int));
    }
    match &ctx.values[o.index].kind {
        ValueKind::ConstInt { value } => {
            let w = width(ctx, ctx.values[o.index].ty);
            Some(truncate_word(*value, w))
        },
        ValueKind::Arg { .. } => if o.index < env.len() {
            Some(env[o.index])
        } else {
            None
        },
        ValueKind::Inst { .. } => if o.index < env.len() {
            Some(env[o.index])
        } else {
            None
        },
        _ => None,
    }
}

proof fn lemma_operand_values_stuck(ctx: Context, env: Seq<u64>, ops: Seq<Value>, j: int, n: int)
    requires
        j <= n,
        operand_values(ctx, env, ops, j) is None,
    ensures
        operand_values(ctx, env, ops, n) is None,
    decreases n - j,
{
    if j < n {
        lemma_operand_values_stuck(ctx, env, ops, j, n - 1);
    }
}

/// The words of the operands after the first.
fn argument_words(ctx: &Context, env: &Vec<u64>, ops: &Vec<Value>) -> (r: Option<Vec<u64>>)
    requires
        ctx.wf(),
        ops@.len() >= 1,
    ensures
        match r {
            Some(v) => operand_values(*ctx, env@, ops@.skip(1), ops@.len() - 1) == Some(v@),
            None => operand_values(*ctx, env@, ops@.skip(1), ops@.len() - 1) is None,
        },
{
    let ghost rest = ops@.skip(1);
    let mut out: Vec<u64> = Vec::new();
    let mut j: usize = 1;
    while j < ops.len()
        invariant
            ctx.wf(),
            rest == ops@.skip(1),
            1 <= j <= ops@.len(),
            operand_values(*ctx, env@, rest, j - 1) == Some(out@),
        decreases ops@.len() - j,
    {
        assert(rest[j - 1] == ops@[j as int]);
        match operand_word(ctx, env, ops[j]) {
            Some(v) => {
                out.push(v);
            },
            None => {
                proof {
                    lemma_operand_values_stuck(*ctx, env@, rest, j as int, ops@.len() - 1);
                }
                return None;
            },
        }
        j = j + 1;
    }
    Some(out)
}

fn switch_target(ctx: &Context, env: &Vec<u64>, ops: &Vec<Value>, tg: &Vec<BasicBlock>, v: u64) -> (r: Option<BasicBlock>)
    requires
        ctx.wf(),
    ensures
        r == switch_dest(*ctx, env@, ops@, tg@, v, 1),
{
    if tg.len() != ops.len() || tg.len() == 0 {
        return None;
    }
    let mut j: usize = 1;
    while j < ops.len()
        invariant
            ctx.wf(),
            tg@.len() == ops@.len(),
            1 <= j <= ops@.len(),
            switch_dest(*ctx, env@, ops@, tg@, v, 1) == switch_dest(*ctx, env@, ops@, tg@, v, j as int),
        decreases ops@.len() - j,
    {
        match operand_word(ctx, env, ops[j]) {
            Some(c) => {
                if c == v {
                    return Some(tg[j]);
                }
            },
            None => {
                return None;
            },
        }
        j = j + 1;
    }
    Some(tg[0])
}

fn phi_word(
    ctx: &Context,
    env: &Vec<u64>,
    ops: &Vec<Value>,
    tg: &Vec<BasicBlock>,
    prev: Option<BasicBlock>,
) -> (r: Option<u64>)
    requires
        ctx.wf(),
    ensures
        r == phi_value(*ctx, env@, ops@, tg@, prev, 0),
{
    let mut j: usize = 0;
    while j < ops.len() && j < tg.len()
        invariant
            ctx.wf(),
            0 <= j <= ops@.len(),
            phi_value(*ctx, env@, ops@, tg@, prev, 0) == phi_value(*ctx, env@, ops@, tg@, prev, j as int),
        decreases ops@.len() - j,
    {
        if prev == Some(tg[j]) {
            return operand_word(ctx, env, ops[j]);
        }
        j = j + 1;
    }
    None
}

fn compute_word(ctx: &Context, env: &Vec<u64>, mem: Vec<u64>, i: Value) -> (r: Option<(u64, Vec<u64>)>)
    requires
        ctx.wf(),
        ctx.valid_value(i),
    ensures
        result_view(r) == compute(*ctx, env@, mem@, i),
{
    proof {
        assert(value_data_ok(ctx.values@[i.index as int], ctx.types@, ctx.values@.len() as int, ctx.blocks@.len() as int));
    }
    let w = width(ctx, ctx.values[i.index].ty);
    let mut mem = mem;
    match &ctx.values[i.index].kind {
        ValueKind::Inst { op, operands, .. } => {
            let ops = operands;
            match *op {
                Opcode::Alloca => if mem.len() < 0x1000_0000 {
                    let slot = mem.len() as u64;
                    mem.push(0);
                    Some((slot, mem))
                } else {
                    None
                },
                Opcode::Load => if ops.len() == 1 {
                    match operand_word(ctx, env, ops[0]) {
                        Some(p) => if p < mem.len() as u64 {
                            let v = mem[p as usize];
                            Some((v, mem))
                        } else {
                            None
                        },
                        None => None,
                    }
                } else {
                    None
                },
                Opcode::Store => if ops.len() == 2 {
                    match (operand_word(ctx, env, ops[0]), operand_word(ctx, env, ops[1])) {
                        (Some(v), Some(p)) => if p < mem.len() as u64 {
                            mem.set(p as usize, v);
                            Some((0, mem))
                        } else {
                            None
                        },
                        _ => None,
                    }
                } else {
                    None
                },
                Opcode::Select => if ops.len() == 3 {
                    match (
                        operand_word(ctx, env, ops[0]),
                        operand_word(ctx, env, ops[1]),
                        operand_word(ctx, env, ops[2]),
                    ) {
                        (Some(c), Some(a), Some(b)) => Some((if c != 0 { a } else { b }, mem)),
                        _ => None,
                    }
                } else {
                    None
                },
                Opcode::Neg => if ops.len() == 1 {
                    match operand_word(ctx, env, ops[0]) {
                        Some(a) => Some((truncate_word(0u64.wrapping_sub(a), w), mem)),
                        None => None,
                    }
                } else {
                    None
                },
                Opcode::Not => if ops.len() == 1 {
                    match operand_word(ctx, env, ops[0]) {
                        Some(a) => Some((truncate_word(!a, w), mem)),
                        None => None,
                    }
                } else {
                    None
                },
                Opcode::ICmp(p) => if ops.len() == 2 {
                    match (operand_word(ctx, env, ops[0]), operand_word(ctx, env, ops[1])) {
                        (Some(a), Some(b)) => {
                            let ow = if ops[0].index < ctx.values.len() {
                                proof {
                                    assert(value_data_ok(ctx.values@[ops@[0].index as int], ctx.types@, ctx.values@.len() as int, ctx.blocks@.len() as int));
                                }
                                width(ctx, ctx.values[ops[0].index].ty)
                            } else {
                                64
                            };
                            Some((if compare_words(p, a, b, ow) { 1u64 } else { 0u64 }, mem))
                        },
                        _ => None,
                    }
                } else {
                    None
                },
                Opcode::Add | Opcode::Sub | Opcode::Mul | Opcode::And | Opcode::Or | Opcode::Xor => if ops.len() == 2 {
                    match (operand_word(ctx, env, ops[0]), operand_word(ctx, env, ops[1])) {
                        (Some(a), Some(b)) => {
                            let x = match *op {
                                Opcode::Add => a.wrapping_add(b),
                                Opcode::Sub => a.wrapping_sub(b),
                                Opcode::Mul => a.wrapping_mul(b),
                                Opcode::And => a & b,
                                Opcode::Or => a | b,
                                _ => a ^ b,
                            };
                            Some((truncate_word(x, w), mem))
                        },
                        _ => None,
                    }
                } else {
                    None
                },
                _ => None,
            }
        },
        _ => None,
    }
}

fn bind_words(ctx: &Context, f: Function, args: &Vec<u64>) -> (r: Vec<u64>)
    requires
        ctx.is_function_value(f.as_value()),
        ctx.params_of(f).len() == args@.len(),
    ensures
        r@ == bind_params(Seq::new(ctx.values@.len(), |j: int| 0u64), ctx.params_of(f), args@, args@.len() as int),
        r@.len() == ctx.values@.len(),
{
    let mut env: Vec<u64> = Vec::new();
    let mut i: usize = 0;
    while i < ctx.values.len()
        invariant
            0 <= i <= ctx.values@.len(),
            env@ == Seq::new(i as nat, |j: int| 0u64),
        decreases ctx.values@.len() - i,
    {
        env.push(0);
        proof {
            assert(env@ =~= Seq::new((i + 1) as nat, |j: int| 0u64));
        }
        i = i + 1;
    }
    let ghost zeros = env@;
    let n = f.num_params(ctx);
    let mut k: usize = 0;
    while k < n
        invariant
            ctx.valid_value(f.as_value()),
            n == ctx.params_of(f).len(),
            n == args@.len(),
            0 <= k <= n,
            env@ == bind_params(zeros, ctx.params_of(f), args@, k as int),
            env@.len() == zeros.len(),
        decreases n - k,
    {
        let a = f.param(ctx, k);
        if a.index < env.len() {
            env.set(a.index, args[k]);
        }
        k = k + 1;
    }
    env
}

fn eval_block(
    ctx: &Context,
    f: Function,
    env: Vec<u64>,
    mem: Vec<u64>,
    prev: Option<BasicBlock>,
    b: BasicBlock,
    k: usize,
    fuel: u64,
) -> (r: Option<(u64, Vec<u64>)>)
    requires
        ctx.wf(),
    ensures
        result_view(r) == run_block(*ctx, f, env@, mem@, prev, b, k as int, fuel as nat),
    decreases fuel, 1int, ctx.blocks@[b.index as int].insts@.len() - k,
{
    if b.index >= ctx.blocks.len() || k >= ctx.blocks[b.index].insts.len() || fuel == 0 {
        return None;
    }
    let i = ctx.blocks[b.index].insts[k];
    proof {
        assert(crate::context::block_data_ok(ctx.blocks@[b.index as int], ctx.values@.len() as int));
    }
    if i.index >= ctx.values.len() || i.index >= env.len() {
        return None;
    }
    proof {
        assert(value_data_ok(ctx.values@[i.index as int], ctx.types@, ctx.values@.len() as int, ctx.blocks@.len() as int));
    }
    let mut env = env;
    match &ctx.values[i.index].kind {
        ValueKind::Inst { op, operands, targets, .. } => {
            let ops = operands;
            let tg = targets;
            match *op {
                Opcode::Ret => if ops.len() == 1 {
                    match operand_word(ctx, &env, ops[0]) {
                        Some(v) => Some((v, mem)),
                        None => None,
                    }
                } else {
                    None
                },
                Opcode::Br => if tg.len() == 1 {
                    eval_block(ctx, f, env, mem, Some(b), tg[0], 0, fuel - 1)
                } else {
                    None
                },
                Opcode::CondBr => if tg.len() == 2 && ops.len() == 1 {
                    match operand_word(ctx, &env, ops[0]) {
                        Some(c) => {
                            let dest = if c != 0 { tg[0] } else { tg[1] };
                            eval_block(ctx, f, env, mem, Some(b), dest, 0, fuel - 1)
                        },
                        None => None,
                    }
                } else {
                    None
                },
                Opcode::Switch => if ops.len() >= 1 {
                    match operand_word(ctx, &env, ops[0]) {
                        Some(v) => match switch_target(ctx, &env, ops, tg, v) {
                            Some(t) => eval_block(ctx, f, env, mem, Some(b), t, 0, fuel - 1),
                            None => None,
                        },
                        None => None,
                    }
                } else {
                    None
                },
                Opcode::Call => {
                    if ops.len() >= 1 && ops[0].index < ctx.values.len() {
                        let callee_is_function = match &ctx.values[ops[0].index].kind {
                            ValueKind::Function { .. } => true,
                            _ => false,
                        };
                        if callee_is_function {
                            match argument_words(ctx, &env, ops) {
                                Some(args) => {
                                    let callee = Function { index: ops[0].index };
                                    match eval_function(ctx, callee, args, mem, fuel - 1) {
                                        Some((v, mem2)) => {
                                            env.set(i.index, v);
                                            eval_block(ctx, f, env, mem2, prev, b, k + 1, fuel)
                                        },
                                        None => None,
                                    }
                                },
                                None => None,
                            }
                        } else {
                            None
                        }
                    } else {
                        None
                    }
                },
                Opcode::Phi => match phi_word(ctx, &env, ops, tg, prev) {
                    Some(v) => {
                        env.set(i.index, v);
                        eval_block(ctx, f, env, mem, prev, b, k + 1, fuel)
                    },
                    None => None,
                },
                _ => match compute_word(ctx, &env, mem, i) {
                    Some((v, mem2)) => {
                        env.set(i.index, v);
                        eval_block(ctx, f, env, mem2, prev, b, k + 1, fuel)
                    },
                    None => None,
                },
            }
        },
        _ => None,
    }
}

fn eval_function(ctx: &Context, f: Function, args: Vec<u64>, mem: Vec<u64>, fuel: u64) -> (r: Option<(u64, Vec<u64>)>)
    requires
        ctx.wf(),
    ensures
        result_view(r) == run_function(*ctx, f, args@, mem@, fuel as nat),
    decreases fuel, 0int, 0int,
{
    if fuel == 0 || f.index >= ctx.values.len() {
        return None;
    }
    let is_function = match &ctx.values[f.index].kind {
        ValueKind::Function { .. } => true,
        _ => false,
    };
    if !is_function {
        return None;
    }
    let blocks = f.get_blocks(ctx);
    if blocks.len() == 0 || f.num_params(ctx) != args.len() {
        return None;
    }
    let env = bind_words(ctx, f, &args);
    eval_block(ctx, f, env, mem, None, blocks[0], 0, fuel - 1)
}

impl Function {
    /// Evaluates a call of this function on integer arguments, with an empty
    /// memory, spending at most `fuel` jumps and calls. Returns the word it
    /// returns, or `None` when it runs out of fuel or reaches something the
    /// evaluator does not cover. A call runs the body of the function value it
    /// names, so a call through a declaration (also one that linking merged
    /// into a definition of the same name) yields `None`.
    pub fn evaluate(&self, ctx: &Context, args: &[u64], fuel: u64) -> (r: Option<u64>)
        requires
            ctx.wf(),
        ensures
            r == (match run_function(*ctx, *self, args@, Seq::empty(), fuel as nat) {
                Some(res) => Some(res.0),
                None => None,
            }),
    {
        let mut words: Vec<u64> = Vec::new();
        let mut i: usize = 0;
        while i < args.len()
            invariant
                0 <= i <= args@.len(),
                words@ == args@.subrange(0, i as int),
            decreases args@.len() - i,
        {
            words.push(args[i]);
            i = i + 1;
        }
        proof {
            assert(args@.subrange(0, args@.len() as int) =~= args@);
        }
        let mem: Vec<u64> = Vec::new();
        proof {
            assert(mem@ =~= Seq::<u64>::empty());
        }
        match eval_function(ctx, *self, words, mem, fuel) {
            Some((v, _)) => Some(v),
            None => None,
        }
    }
}

} // verus!
