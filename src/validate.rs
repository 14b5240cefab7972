use vstd::prelude::*;

use crate::builder::return_type;
use crate::context::{Context, value_data_ok};
use crate::module::{Module, function_values, global_values_of, named_alike, function_list, global_list};
use crate::opcode::{Opcode, is_terminator, terminates};
use crate::ty::{Type, TypeData};
use crate::value::{Value, ValueKind, BasicBlock, Function};

verus! {

/// A function or global operand is found in a list of the module: listed
/// itself, or named like an entry (the entry linking kept for its name).
pub open spec fn resolves(ctx: Context, list: Seq<Value>, o: Value) -> bool {
    list.contains(o) || exists|k: int| 0 <= k < list.len() && named_alike(ctx, o, #[trigger] list[k])
}

/// An operand may be used in function `f` of module `m`: an instruction of `f`,
/// an argument of `f`, a function or global of `m`, or a constant.
pub open spec fn operand_ok(ctx: Context, m: Module, f: Function, o: Value) -> bool {
    &&& ctx.valid_value(o)
    &&& match ctx.value_at(o).kind {
        ValueKind::Inst { block, .. } => ctx.valid_block(block) && ctx.blocks@[block.index as int].parent
            == f.as_value(),
        ValueKind::Arg { func, .. } => func == f.as_value(),
        ValueKind::Function { .. } => resolves(ctx, function_values(m.functions@), o),
        ValueKind::Global { .. } => resolves(ctx, global_values_of(m.globals@), o),
        _ => true,
    }
}

/// A block that an instruction of `f` may branch to: one of `f`'s own.
pub open spec fn target_ok(ctx: Context, f: Function, b: BasicBlock) -> bool {
    ctx.valid_block(b) && ctx.blocks@[b.index as int].parent == f.as_value()
}

/// `p` is a pointer to values of type `t`.
pub open spec fn points_to(ctx: Context, p: Value, t: Type) -> bool {
    &&& ctx.valid_value(p)
    &&& ctx.type_at(ctx.type_of(p)) is Pointer
    &&& ctx.type_at(ctx.type_of(p))->Pointer_elem == t
}

/// The parameter types of the signature of a function value.
pub open spec fn callee_params(ctx: Context, callee: Value) -> Seq<Type> {
    ctx.types@[ctx.type_at(ctx.type_of(callee))->Pointer_elem.index as int]->Function_params@
}

/// A call names a function and passes one argument of the right type for each
/// parameter of its signature.
pub open spec fn call_ok(ctx: Context, ops: Seq<Value>) -> bool {
    &&& ops.len() >= 1
    &&& ctx.is_function_value(ops[0])
    &&& callee_params(ctx, ops[0]).len() == ops.len() - 1
    &&& forall|k: int|
        1 <= k < ops.len() ==> ctx.valid_value(#[trigger] ops[k]) && ctx.type_of(ops[k])
            == callee_params(ctx, ops[0])[k - 1]
}

/// Every case value of a switch is an integer constant of the switched type.
pub open spec fn cases_ok(ctx: Context, ops: Seq<Value>) -> bool {
    &&& ops.len() >= 1
    &&& ctx.valid_value(ops[0])
    &&& forall|k: int|
        1 <= k < ops.len() ==> ctx.valid_value(#[trigger] ops[k]) && ctx.value_at(ops[k]).kind is ConstInt
            && ctx.type_of(ops[k]) == ctx.type_of(ops[0])
}

/// Block `p` ends with an instruction that may branch to block `b`.
pub open spec fn branches_to(ctx: Context, p: BasicBlock, b: BasicBlock) -> bool {
    &&& ctx.valid_block(p)
    &&& ctx.blocks@[p.index as int].insts@.len() > 0
    &&& ctx.valid_value(ctx.blocks@[p.index as int].insts@.last())
    &&& ctx.value_at(ctx.blocks@[p.index as int].insts@.last()).kind is Inst
    &&& ctx.value_at(ctx.blocks@[p.index as int].insts@.last()).kind->Inst_targets@.contains(b)
}

/// A phi node pairs each incoming value with a block that branches to its own block.
pub open spec fn phi_ok(ctx: Context, k: ValueKind) -> bool {
    &&& k is Inst
    &&& k->Inst_operands@.len() == k->Inst_targets@.len()
    &&& forall|q: int|
        0 <= q < k->Inst_targets@.len() ==> branches_to(ctx, #[trigger] k->Inst_targets@[q], k->Inst_block)
}

/// The operands and targets of instruction `i` of `f` fit its operation: a
/// terminator has as many as it needs, a conditional branch tests an `i1`, a
/// switch compares with constants of the switched type, a return gives back
/// what `f` returns, a load or store goes through a pointer to the value's
/// type, a call fits the signature of its callee, and a phi node's incoming
/// blocks branch to its block.
pub open spec fn shape_ok(ctx: Context, f: Function, i: Value) -> bool {
    match ctx.value_at(i).kind {
        ValueKind::Inst { op, operands, targets, .. } => match op {
            Opcode::Br => targets@.len() == 1,
            Opcode::CondBr => targets@.len() == 2 && operands@.len() == 1 && ctx.valid_value(operands@[0])
                && ctx.type_at(ctx.type_of(operands@[0])) == (TypeData::Integer { bits: 1 }),
            Opcode::Switch => cases_ok(ctx, operands@) && targets@.len() == operands@.len(),
            Opcode::Ret => operands@.len() == 1 && ctx.valid_value(operands@[0]) && ctx.type_of(
                operands@[0],
            ) == return_type(ctx, f),
            Opcode::RetVoid => operands@.len() == 0 && ctx.types@[return_type(ctx, f).index as int] is Void,
            Opcode::Load => operands@.len() == 1 && points_to(ctx, operands@[0], ctx.type_of(i)),
            Opcode::Store => operands@.len() == 2 && ctx.valid_value(operands@[0]) && points_to(
                ctx,
                operands@[1],
                ctx.type_of(operands@[0]),
            ),
            Opcode::Call => call_ok(ctx, operands@),
            Opcode::Phi => phi_ok(ctx, ctx.value_at(i).kind),
            _ => true,
        },
        _ => false,
    }
}

/// The instruction `i` of a block of `f` is well formed; `last` tells whether it
/// ends its block, which it must do exactly when it is a terminator.
pub open spec fn inst_ok(ctx: Context, m: Module, f: Function, i: Value, last: bool) -> bool {
    &&& ctx.valid_value(i)
    &&& ctx.value_at(i).kind is Inst
    &&& is_terminator(ctx.value_at(i).kind->Inst_op) == last
    &&& forall|k: int|
        0 <= k < ctx.value_at(i).kind->Inst_operands@.len() ==> operand_ok(
            ctx,
            m,
            f,
            #[trigger] ctx.value_at(i).kind->Inst_operands@[k],
        )
    &&& forall|k: int|
        0 <= k < ctx.value_at(i).kind->Inst_targets@.len() ==> target_ok(
            ctx,
            f,
            #[trigger] ctx.value_at(i).kind->Inst_targets@[k],
        )
    &&& shape_ok(ctx, f, i)
}

/// A block of `f`: not empty, ended by its one terminator, every instruction well formed.
pub open spec fn block_ok(ctx: Context, m: Module, f: Function, b: BasicBlock) -> bool {
    &&& ctx.valid_block(b)
    &&& ctx.blocks@[b.index as int].parent == f.as_value()
    &&& ctx.blocks@[b.index as int].insts@.len() > 0
    &&& forall|k: int|
        0 <= k < ctx.blocks@[b.index as int].insts@.len() ==> inst_ok(
            ctx,
            m,
            f,
            #[trigger] ctx.blocks@[b.index as int].insts@[k],
            k == ctx.blocks@[b.index as int].insts@.len() - 1,
        )
}

/// The blocks of `f` are well formed, and every instruction but a phi node uses
/// only instructions that come before it in block order.
pub open spec fn function_ok(ctx: Context, m: Module, f: Function) -> bool {
    &&& forall|k: int| 0 <= k < ctx.blocks_of(f).len() ==> block_ok(ctx, m, f, #[trigger] ctx.blocks_of(f)[k])
    &&& uses_ordered(ctx, f)
}

/// The number of instructions of the block at position `b` of `f`.
pub open spec fn insts_len(ctx: Context, f: Function, b: int) -> int {
    ctx.blocks@[ctx.blocks_of(f)[b].index as int].insts@.len() as int
}

/// The instruction at position `k` of the block at position `b` of `f`.
pub open spec fn inst_at(ctx: Context, f: Function, b: int, k: int) -> Value {
    ctx.blocks@[ctx.blocks_of(f)[b].index as int].insts@[k]
}

/// `o` stands in `f` before position `k` of its block at position `bi`.
pub open spec fn defined_before(ctx: Context, f: Function, o: Value, bi: int, k: int) -> bool {
    exists|b2: int, k2: int|
        0 <= b2 <= bi && 0 <= k2 < insts_len(ctx, f, b2) && (b2 < bi || k2 < k) && #[trigger] inst_at(
            ctx,
            f,
            b2,
            k2,
        ) == o
}

/// Unless it is a phi node, the instruction at (`bi`, `k`) of `f` has no
/// instruction operand that does not come before it.
pub open spec fn inst_uses_ordered(ctx: Context, f: Function, bi: int, k: int) -> bool {
    let i = inst_at(ctx, f, bi, k);
    let ops = ctx.value_at(i).kind->Inst_operands@;
    ctx.value_at(i).kind is Inst && ctx.value_at(i).kind->Inst_op != Opcode::Phi ==> forall|q: int|
        0 <= q < ops.len() && ctx.value_at(#[trigger] ops[q]).kind is Inst ==> defined_before(ctx, f, ops[q], bi, k)
}

pub open spec fn uses_ordered(ctx: Context, f: Function) -> bool {
    forall|bi: int, k: int|
        0 <= bi < ctx.blocks_of(f).len() && 0 <= k < insts_len(ctx, f, bi) ==> #[trigger] inst_uses_ordered(
            ctx,
            f,
            bi,
            k,
        )
}

/// Every function of the module is well formed.
pub open spec fn module_ok(ctx: Context, m: Module) -> bool {
    forall|k: int| 0 <= k < m.functions@.len() ==> function_ok(ctx, m, #[trigger] m.functions@[k])
}

fn resolves_in(ctx: &Context, list: &Vec<Value>, o: Value) -> (r: bool)
    requires
        ctx.valid_value(o),
        ctx.all_valid(list@),
    ensures
        r == resolves(*ctx, list@, o),
{
    let name = &ctx.values[o.index].name;
    let named = !name.as_str().is_empty();
    let mut i: usize = 0;
    while i < list.len()
        invariant
            ctx.all_valid(list@),
            *name == ctx.value_at(o).name,
            named == (name@.len() > 0),
            0 <= i <= list@.len(),
            forall|k: int| 0 <= k < i ==> #[trigger] list@[k] != o && !named_alike(*ctx, o, list@[k]),
        decreases list@.len() - i,
    {
        let x = list[i];
        if x.index == o.index {
            proof {
                assert(list@[i as int] == o);
            }
            return true;
        }
        if named && *name == ctx.values[x.index].name {
            proof {
                assert(named_alike(*ctx, o, list@[i as int]));
            }
            return true;
        }
        i = i + 1;
    }
    proof {
        assert forall|k: int| 0 <= k < list@.len() implies #[trigger] list@[k] != o by {}
        assert(!list@.contains(o));
    }
    false
}

fn operand_allowed(ctx: &Context, m: &Module, f: Function, o: Value) -> (r: bool)
    requires
        ctx.wf(),
        m.wf(*ctx),
    ensures
        r == operand_ok(*ctx, *m, f, o),
{
    if o.index >= ctx.values.len() {
        return false;
    }
    match &ctx.values[o.index].kind {
        ValueKind::Inst { block, .. } => block.index < ctx.blocks.len() && ctx.blocks[block.index].parent.index
            == f.index,
        ValueKind::Arg { func, .. } => func.index == f.index,
        ValueKind::Function { .. } => {
            let fs = function_list(&m.functions);
            proof {
                assert forall|k: int| 0 <= k < fs@.len() implies ctx.valid_value(#[trigger] fs@[k]) by {
                    assert(ctx.is_function_value(m.functions@[k].as_value()));
                }
            }
            resolves_in(ctx, &fs, o)
        },
        ValueKind::Global { .. } => {
            let gs = global_list(&m.globals);
            proof {
                assert forall|k: int| 0 <= k < gs@.len() implies ctx.valid_value(#[trigger] gs@[k]) by {
                    assert(ctx.valid_value(m.globals@[k].as_value()));
                }
            }
            resolves_in(ctx, &gs, o)
        },
        _ => true,
    }
}

fn target_allowed(ctx: &Context, f: Function, b: BasicBlock) -> (r: bool)
    ensures
        r == target_ok(*ctx, f, b),
{
    b.index < ctx.blocks.len() && ctx.blocks[b.index].parent.index == f.index
}

fn function_return(ctx: &Context, f: Function) -> (r: Type)
    requires
        ctx.wf(),
        ctx.is_function_value(f.as_value()),
    ensures
        r == return_type(*ctx, f),
        ctx.valid_type(r),
{
    let sig = f.get_signature(ctx);
    proof {
        assert(crate::ty::type_refs_ok(ctx.types@[sig.index as int], sig.index as int, ctx.types@.len() as int));
    }
    sig.get_return(ctx)
}

fn points_to_allowed(ctx: &Context, p: Value, t: Type) -> (r: bool)
    requires
        ctx.wf(),
    ensures
        r == points_to(*ctx, p, t),
{
    if p.index >= ctx.values.len() {
        return false;
    }
    proof {
        assert(value_data_ok(ctx.values@[p.index as int], ctx.types@, ctx.values@.len() as int, ctx.blocks@.len() as int));
    }
    match &ctx.types[ctx.values[p.index].ty.index] {
        TypeData::Pointer { elem, .. } => *elem == t,
        _ => false,
    }
}

fn call_allowed(ctx: &Context, ops: &Vec<Value>) -> (r: bool)
    requires
        ctx.wf(),
    ensures
        r == call_ok(*ctx, ops@),
{
    if ops.len() == 0 || ops[0].index >= ctx.values.len() {
        return false;
    }
    let callee = ops[0];
    let is_fn = match &ctx.values[callee.index].kind {
        ValueKind::Function { .. } => true,
        _ => false,
    };
    if !is_fn {
        return false;
    }
    let sig = Function { index: callee.index }.get_signature(ctx);
    let params = sig.get_params(ctx);
    if params.len() != ops.len() - 1 {
        return false;
    }
    let mut k: usize = 1;
    while k < ops.len()
        invariant
            ctx.wf(),
            ops@.len() >= 1,
            ctx.is_function_value(ops@[0]),
            params@ == callee_params(*ctx, ops@[0]),
            params@.len() == ops@.len() - 1,
            1 <= k <= ops@.len(),
            forall|q: int| 1 <= q < k ==> ctx.valid_value(#[trigger] ops@[q]) && ctx.type_of(ops@[q])
                == callee_params(*ctx, ops@[0])[q - 1],
        decreases ops@.len() - k,
    {
        let a = ops[k];
        if a.index >= ctx.values.len() || ctx.values[a.index].ty != params[k - 1] {
            return false;
        }
        k = k + 1;
    }
    true
}

fn cases_allowed(ctx: &Context, ops: &Vec<Value>) -> (r: bool)
    ensures
        r == cases_ok(*ctx, ops@),
{
    if ops.len() == 0 || ops[0].index >= ctx.values.len() {
        return false;
    }
    let t = ctx.values[ops[0].index].ty;
    let mut k: usize = 1;
    while k < ops.len()
        invariant
            ops@.len() >= 1,
            ctx.valid_value(ops@[0]),
            t == ctx.type_of(ops@[0]),
            1 <= k <= ops@.len(),
            forall|q: int| 1 <= q < k ==> ctx.valid_value(#[trigger] ops@[q]) && ctx.value_at(ops@[q]).kind is ConstInt
                && ctx.type_of(ops@[q]) == ctx.type_of(ops@[0]),
        decreases ops@.len() - k,
    {
        let c = ops[k];
        if c.index >= ctx.values.len() || ctx.values[c.index].ty != t {
            return false;
        }
        match &ctx.values[c.index].kind {
            ValueKind::ConstInt { .. } => {},
            _ => {
                return false;
            },
        }
        k = k + 1;
    }
    true
}

fn branches_to_allowed(ctx: &Context, p: BasicBlock, b: BasicBlock) -> (r: bool)
    ensures
        r == branches_to(*ctx, p, b),
{
    if p.index >= ctx.blocks.len() {
        return false;
    }
    let insts = &ctx.blocks[p.index].insts;
    if insts.len() == 0 {
        return false;
    }
    let last = insts[insts.len() - 1];
    assert(ctx.blocks@[p.index as int].insts@.last() == last);
    if last.index >= ctx.values.len() {
        return false;
    }
    match &ctx.values[last.index].kind {
        ValueKind::Inst { targets, .. } => {
            let mut j: usize = 0;
            while j < targets.len()
                invariant
                    p.index < ctx.blocks@.len(),
                    ctx.blocks@[p.index as int].insts@.len() > 0,
                    ctx.blocks@[p.index as int].insts@.last() == last,
                    ctx.valid_value(last),
                    ctx.value_at(last).kind is Inst,
                    targets@ == ctx.value_at(last).kind->Inst_targets@,
                    0 <= j <= targets@.len(),
                    forall|q: int| 0 <= q < j ==> #[trigger] targets@[q] != b,
                decreases targets@.len() - j,
            {
                if targets[j] == b {
                    proof {
                        assert(targets@[j as int] == b);
                        assert(targets@.contains(b));
                    }
                    return true;
                }
                j = j + 1;
            }
            false
        },
        _ => false,
    }
}

fn phi_allowed(ctx: &Context, i: Value) -> (r: bool)
    requires
        ctx.valid_value(i),
    ensures
        r == phi_ok(*ctx, ctx.value_at(i).kind),
{
    match &ctx.values[i.index].kind {
        ValueKind::Inst { operands, targets, block, .. } => {
            if operands.len() != targets.len() {
                return false;
            }
            let mut q: usize = 0;
            while q < targets.len()
                invariant
                    ctx.valid_value(i),
                    ctx.value_at(i).kind is Inst,
                    targets@ == ctx.value_at(i).kind->Inst_targets@,
                    *block == ctx.value_at(i).kind->Inst_block,
                    0 <= q <= targets@.len(),
                    forall|z: int| 0 <= z < q ==> branches_to(*ctx, #[trigger] targets@[z], *block),
                decreases targets@.len() - q,
            {
                if !branches_to_allowed(ctx, targets[q], *block) {
                    proof {
                        assert(ctx.value_at(i).kind->Inst_targets@[q as int] == targets@[q as int]);
                    }
                    return false;
                }
                q = q + 1;
            }
            true
        },
        _ => false,
    }
}

fn shape_allowed(ctx: &Context, f: Function, i: Value) -> (r: bool)
    requires
        ctx.wf(),
        ctx.is_function_value(f.as_value()),
        ctx.valid_value(i),
    ensures
        r == shape_ok(*ctx, f, i),
{
    proof {
        assert(value_data_ok(ctx.values@[i.index as int], ctx.types@, ctx.values@.len() as int, ctx.blocks@.len() as int));
    }
    let ty = ctx.values[i.index].ty;
    match &ctx.values[i.index].kind {
        ValueKind::Inst { op, operands, targets, .. } => match op {
            Opcode::Br => targets.len() == 1,
            Opcode::CondBr => {
                if targets.len() != 2 || operands.len() != 1 || operands[0].index >= ctx.values.len() {
                    false
                } else {
                    proof {
                        assert(value_data_ok(ctx.values@[operands@[0].index as int], ctx.types@, ctx.values@.len() as int, ctx.blocks@.len() as int));
                    }
                    match &ctx.types[ctx.values[operands[0].index].ty.index] {
                        TypeData::Integer { bits } => *bits == 1,
                        _ => false,
                    }
                }
            },
            Opcode::Switch => cases_allowed(ctx, operands) && targets.len() == operands.len(),
            Opcode::Ret => {
                if operands.len() != 1 || operands[0].index >= ctx.values.len() {
                    false
                } else {
                    let ret = function_return(ctx, f);
                    ctx.values[operands[0].index].ty == ret
                }
            },
            Opcode::RetVoid => {
                let ret = function_return(ctx, f);
                operands.len() == 0 && ret.is_void(ctx)
            },
            Opcode::Load => operands.len() == 1 && points_to_allowed(ctx, operands[0], ty),
            Opcode::Store => {
                if operands.len() != 2 || operands[0].index >= ctx.values.len() {
                    false
                } else {
                    points_to_allowed(ctx, operands[1], ctx.values[operands[0].index].ty)
                }
            },
            Opcode::Call => call_allowed(ctx, operands),
            Opcode::Phi => phi_allowed(ctx, i),
            _ => true,
        },
        _ => false,
    }
}

fn inst_problem(ctx: &Context, m: &Module, f: Function, i: Value, last: bool) -> (r: Option<&'static str>)
    requires
        ctx.wf(),
        m.wf(*ctx),
        ctx.is_function_value(f.as_value()),
    ensures
        r is None <==> inst_ok(*ctx, *m, f, i, last),
{
    if i.index >= ctx.values.len() {
        return Some("an instruction that does not exist");
    }
    match &ctx.values[i.index].kind {
        ValueKind::Inst { op, operands, targets, .. } => {
            if terminates(*op) != last {
                if last {
                    return Some("a block that does not end with a terminator");
                } else {
                    return Some("a terminator in the middle of a block");
                }
            }
            let mut k: usize = 0;
            while k < operands.len()
                invariant
                    ctx.wf(),
                    m.wf(*ctx),
                    ctx.valid_value(i),
                    ctx.value_at(i).kind is Inst,
                    operands@ == ctx.value_at(i).kind->Inst_operands@,
                    0 <= k <= operands@.len(),
                    forall|q: int| 0 <= q < k ==> operand_ok(*ctx, *m, f, #[trigger] operands@[q]),
                decreases operands@.len() - k,
            {
                if !operand_allowed(ctx, m, f, operands[k]) {
                    proof {
                        assert(ctx.value_at(i).kind->Inst_operands@[k as int] == operands@[k as int]);
                    }
                    return Some("an operand from outside the function or module");
                }
                k = k + 1;
            }
            let mut k: usize = 0;
            while k < targets.len()
                invariant
                    ctx.valid_value(i),
                    ctx.value_at(i).kind is Inst,
                    targets@ == ctx.value_at(i).kind->Inst_targets@,
                    0 <= k <= targets@.len(),
                    forall|q: int| 0 <= q < k ==> target_ok(*ctx, f, #[trigger] targets@[q]),
                decreases targets@.len() - k,
            {
                if !target_allowed(ctx, f, targets[k]) {
                    proof {
                        assert(ctx.value_at(i).kind->Inst_targets@[k as int] == targets@[k as int]);
                    }
                    return Some("a branch to a block of another function");
                }
                k = k + 1;
            }
            if !shape_allowed(ctx, f, i) {
                return Some("a terminator with wrong operands or return type");
            }
            None
        },
        _ => Some("a block entry that is not an instruction"),
    }
}

fn block_problem(ctx: &Context, m: &Module, f: Function, b: BasicBlock) -> (r: Option<&'static str>)
    requires
        ctx.wf(),
        m.wf(*ctx),
        ctx.is_function_value(f.as_value()),
    ensures
        r is None <==> block_ok(*ctx, *m, f, b),
{
    if b.index >= ctx.blocks.len() {
        return Some("a block that does not exist");
    }
    if ctx.blocks[b.index].parent.index != f.index {
        return Some("a block of another function");
    }
    let insts = &ctx.blocks[b.index].insts;
    let n = insts.len();
    if n == 0 {
        return Some("an empty block");
    }
    let mut k: usize = 0;
    while k < n
        invariant
            ctx.wf(),
            m.wf(*ctx),
            ctx.is_function_value(f.as_value()),
            b.index < ctx.blocks@.len(),
            insts@ == ctx.blocks@[b.index as int].insts@,
            n == insts@.len(),
            0 <= k <= n,
            forall|q: int| 0 <= q < k ==> inst_ok(*ctx, *m, f, #[trigger] insts@[q], q == n - 1),
        decreases n - k,
    {
        match inst_problem(ctx, m, f, insts[k], k == n - 1) {
            Some(msg) => {
                return Some(msg);
            },
            None => {},
        }
        k = k + 1;
    }
    None
}

/// The first problem found in a function of a module, if any.
pub fn function_problem(ctx: &Context, m: &Module, f: Function) -> (r: Option<&'static str>)
    requires
        ctx.wf(),
        m.wf(*ctx),
        ctx.is_function_value(f.as_value()),
    ensures
        r is None <==> function_ok(*ctx, *m, f),
{
    let blocks = f.get_blocks(ctx);
    let mut k: usize = 0;
    while k < blocks.len()
        invariant
            ctx.wf(),
            m.wf(*ctx),
            ctx.is_function_value(f.as_value()),
            blocks@ == ctx.blocks_of(f),
            0 <= k <= blocks@.len(),
            forall|q: int| 0 <= q < k ==> block_ok(*ctx, *m, f, #[trigger] blocks@[q]),
        decreases blocks@.len() - k,
    {
        match block_problem(ctx, m, f, blocks[k]) {
            Some(msg) => {
                return Some(msg);
            },
            None => {},
        }
        k = k + 1;
    }
    if !uses_in_order(ctx, m, f, &blocks) {
        return Some("an instruction used before it is defined");
    }
    None
}

fn defined_earlier(ctx: &Context, f: Function, blocks: &Vec<BasicBlock>, o: Value, bi: usize, k: usize) -> (r: bool)
    requires
        blocks@ == ctx.blocks_of(f),
        forall|q: int| 0 <= q < blocks@.len() ==> ctx.valid_block(#[trigger] blocks@[q]),
        bi < blocks@.len(),
    ensures
        r == defined_before(*ctx, f, o, bi as int, k as int),
{
    let n = blocks.len();
    let mut b2: usize = 0;
    while b2 <= bi
        invariant
            n == blocks@.len(),
            blocks@ == ctx.blocks_of(f),
            forall|q: int| 0 <= q < blocks@.len() ==> ctx.valid_block(#[trigger] blocks@[q]),
            bi < blocks@.len(),
            0 <= b2 <= bi + 1,
            forall|x: int, y: int|
                0 <= x < b2 && 0 <= y < insts_len(*ctx, f, x) && (x < bi || y < k) ==> #[trigger] inst_at(
                    *ctx,
                    f,
                    x,
                    y,
                ) != o,
        decreases bi + 1 - b2,
    {
        let insts = &ctx.blocks[blocks[b2].index].insts;
        let mut k2: usize = 0;
        while k2 < insts.len() && (b2 < bi || k2 < k)
            invariant
                blocks@ == ctx.blocks_of(f),
                b2 <= bi < blocks@.len(),
                insts@ == ctx.blocks@[blocks@[b2 as int].index as int].insts@,
                0 <= k2 <= insts@.len(),
                forall|y: int| 0 <= y < k2 ==> #[trigger] inst_at(*ctx, f, b2 as int, y) != o,
            decreases insts@.len() - k2,
        {
            if insts[k2] == o {
                proof {
                    assert(inst_at(*ctx, f, b2 as int, k2 as int) == o);
                }
                return true;
            }
            k2 = k2 + 1;
        }
        proof {
            assert forall|x: int, y: int|
                0 <= x < b2 + 1 && 0 <= y < insts_len(*ctx, f, x) && (x < bi || y < k) implies #[trigger] inst_at(
                *ctx,
                f,
                x,
                y,
            ) != o by {
                if x == b2 {
                    assert(y < k2);
                }
            }
        }
        b2 = b2 + 1;
    }
    false
}

fn uses_in_order(ctx: &Context, m: &Module, f: Function, blocks: &Vec<BasicBlock>) -> (r: bool)
    requires
        ctx.wf(),
        blocks@ == ctx.blocks_of(f),
        forall|q: int| 0 <= q < blocks@.len() ==> block_ok(*ctx, *m, f, #[trigger] blocks@[q]),
    ensures
        r == uses_ordered(*ctx, f),
{
    let mut bi: usize = 0;
    while bi < blocks.len()
        invariant
            ctx.wf(),
            blocks@ == ctx.blocks_of(f),
            forall|q: int| 0 <= q < blocks@.len() ==> block_ok(*ctx, *m, f, #[trigger] blocks@[q]),
            0 <= bi <= blocks@.len(),
            forall|x: int, y: int|
                0 <= x < bi && 0 <= y < insts_len(*ctx, f, x) ==> #[trigger] inst_uses_ordered(*ctx, f, x, y),
        decreases blocks@.len() - bi,
    {
        assert(block_ok(*ctx, *m, f, blocks@[bi as int]));
        let insts = &ctx.blocks[blocks[bi].index].insts;
        let mut k: usize = 0;
        while k < insts.len()
            invariant
                ctx.wf(),
                blocks@ == ctx.blocks_of(f),
                forall|q: int| 0 <= q < blocks@.len() ==> block_ok(*ctx, *m, f, #[trigger] blocks@[q]),
                bi < blocks@.len(),
                insts@ == ctx.blocks@[blocks@[bi as int].index as int].insts@,
                0 <= k <= insts@.len(),
                forall|y: int| 0 <= y < k ==> #[trigger] inst_uses_ordered(*ctx, f, bi as int, y),
            decreases insts@.len() - k,
        {
            let i = insts[k];
            assert(inst_at(*ctx, f, bi as int, k as int) == i);
            assert(inst_ok(*ctx, *m, f, i, k == insts@.len() - 1));
            match &ctx.values[i.index].kind {
                ValueKind::Inst { op, operands, .. } => {
                    if *op != Opcode::Phi {
                        let mut q: usize = 0;
                        while q < operands.len()
                            invariant
                                ctx.wf(),
                                blocks@ == ctx.blocks_of(f),
                                forall|z: int| 0 <= z < blocks@.len() ==> block_ok(*ctx, *m, f, #[trigger] blocks@[z]),
                                bi < blocks@.len(),
                                ctx.valid_value(i),
                                ctx.value_at(i).kind is Inst,
                                ctx.value_at(i).kind->Inst_op != Opcode::Phi,
                                inst_at(*ctx, f, bi as int, k as int) == i,
                                0 <= k < insts_len(*ctx, f, bi as int),
                                operands@ == ctx.value_at(i).kind->Inst_operands@,
                                0 <= q <= operands@.len(),
                                forall|z: int| 0 <= z < q && ctx.value_at(#[trigger] operands@[z]).kind is Inst
                                    ==> defined_before(*ctx, f, operands@[z], bi as int, k as int),
                            decreases operands@.len() - q,
                        {
                            let o = operands[q];
                            let is_inst = o.index < ctx.values.len() && match &ctx.values[o.index].kind {
                                ValueKind::Inst { .. } => true,
                                _ => false,
                            };
                            if is_inst {
                                proof {
                                    assert forall|z: int| 0 <= z < blocks@.len() implies ctx.valid_block(#[trigger] blocks@[z]) by {
                                        assert(block_ok(*ctx, *m, f, blocks@[z]));
                                    }
                                }
                                if !defined_earlier(ctx, f, blocks, o, bi, k) {
                                    proof {
                                        assert(ctx.value_at(operands@[q as int]).kind is Inst);
                                        assert(!defined_before(*ctx, f, operands@[q as int], bi as int, k as int));
                                        assert(!inst_uses_ordered(*ctx, f, bi as int, k as int));
                                        assert(!uses_ordered(*ctx, f));
                                    }
                                    return false;
                                }
                            }
                            q = q + 1;
                        }
                    }
                },
                _ => {},
            }
            k = k + 1;
        }
        bi = bi + 1;
    }
    true
}

} // verus!
