use llvm_ir::opcode::{int_predicate, real_predicate};
use llvm_ir::Attribute::{NoUnwind, ReadNone};
use llvm_ir::{
    Compile,
    BasicBlock, Builder, Context, Function, IntPredicate, Module, Opcode, Predicate, RealPredicate,
    Type, Value, ValueKind,
};

fn op_of(ctx: &Context, v: Value) -> Opcode {
    match &ctx.values[v.index].kind {
        ValueKind::Inst { op, .. } => *op,
        _ => panic!("not an instruction"),
    }
}

fn operands_of(ctx: &Context, v: Value) -> Vec<Value> {
    match &ctx.values[v.index].kind {
        ValueKind::Inst { operands, .. } => operands.clone(),
        _ => panic!("not an instruction"),
    }
}

fn targets_of(ctx: &Context, v: Value) -> Vec<BasicBlock> {
    match &ctx.values[v.index].kind {
        ValueKind::Inst { targets, .. } => targets.clone(),
        _ => panic!("not an instruction"),
    }
}

fn tail_of(ctx: &Context, v: Value) -> bool {
    match &ctx.values[v.index].kind {
        ValueKind::Inst { tail_call, .. } => *tail_call,
        _ => panic!("not an instruction"),
    }
}

/// A module holding one function `fib` of signature `i64 (i64)`.
fn setup(ctx: &mut Context) -> (Module, Function) {
    let mut module = Module::new("simple");
    let i64t = Type::i64_ty(ctx);
    let sig = Type::function_ty(ctx, i64t, &[i64t]);
    let func = module.add_function(ctx, "fib", sig.as_type());
    func.add_attributes(ctx, &[NoUnwind, ReadNone]);
    (module, func)
}

#[test]
fn predicate_mapping_is_exact() {
    let int_cases = [
        (Predicate::Equal, true, IntPredicate::EQ),
        (Predicate::Equal, false, IntPredicate::EQ),
        (Predicate::NotEqual, true, IntPredicate::NE),
        (Predicate::NotEqual, false, IntPredicate::NE),
        (Predicate::LessThan, true, IntPredicate::SLT),
        (Predicate::LessThan, false, IntPredicate::ULT),
        (Predicate::LessThanOrEqual, true, IntPredicate::SLE),
        (Predicate::LessThanOrEqual, false, IntPredicate::ULE),
        (Predicate::GreaterThan, true, IntPredicate::SGT),
        (Predicate::GreaterThan, false, IntPredicate::UGT),
        (Predicate::GreaterThanOrEqual, true, IntPredicate::SGE),
        (Predicate::GreaterThanOrEqual, false, IntPredicate::UGE),
    ];
    for (p, signed, expected) in int_cases {
        assert_eq!(expected, int_predicate(p, signed));
    }
    let real_cases = [
        (Predicate::Equal, RealPredicate::OEQ),
        (Predicate::NotEqual, RealPredicate::ONE),
        (Predicate::LessThan, RealPredicate::OLT),
        (Predicate::LessThanOrEqual, RealPredicate::OLE),
        (Predicate::GreaterThan, RealPredicate::OGT),
        (Predicate::GreaterThanOrEqual, RealPredicate::OGE),
    ];
    for (p, expected) in real_cases {
        assert_eq!(expected, real_predicate(p));
    }
}

#[test]
fn comparisons_pick_codes_by_operand_type() {
    let mut ctx = Context::new();
    let (_module, func) = setup(&mut ctx);
    let entry = func.append(&mut ctx, "entry");
    let mut builder = Builder::new();
    builder.position_at_end(&ctx, entry);
    let i64t = Type::i64_ty(&mut ctx);
    let f64t = Type::f64_ty(&mut ctx);
    let n = func.param(&ctx, 0).as_value();
    let five = Value::new_int(&mut ctx, i64t, 5);
    let x = Value::new_undef(&mut ctx, f64t);
    let y = Value::new_undef(&mut ctx, f64t);

    let s = builder.create_cmp(&mut ctx, n, five, Predicate::LessThan);
    assert_eq!(Opcode::ICmp(IntPredicate::SLT), op_of(&ctx, s));
    assert_eq!("i1", s.get_type(&ctx).to_string(&ctx));
    assert_eq!(vec![n, five], operands_of(&ctx, s));
    let u = builder.create_ucmp(&mut ctx, n, five, Predicate::GreaterThanOrEqual);
    assert_eq!(Opcode::ICmp(IntPredicate::UGE), op_of(&ctx, u));
    let e = builder.create_ucmp(&mut ctx, n, five, Predicate::Equal);
    assert_eq!(Opcode::ICmp(IntPredicate::EQ), op_of(&ctx, e));
    let fl = builder.create_cmp(&mut ctx, x, y, Predicate::LessThanOrEqual);
    assert_eq!(Opcode::FCmp(RealPredicate::OLE), op_of(&ctx, fl));
    let fu = builder.create_ucmp(&mut ctx, x, y, Predicate::NotEqual);
    assert_eq!(Opcode::FCmp(RealPredicate::ONE), op_of(&ctx, fu));
    assert_eq!("i1", fu.get_type(&ctx).to_string(&ctx));
}

#[test]
fn arithmetic_dispatches_on_operand_type() {
    let mut ctx = Context::new();
    let (_module, func) = setup(&mut ctx);
    let entry = func.append(&mut ctx, "entry");
    let mut builder = Builder::new();
    builder.position_at_end(&ctx, entry);
    let i64t = Type::i64_ty(&mut ctx);
    let f32t = Type::f32_ty(&mut ctx);
    let a = Value::new_int(&mut ctx, i64t, 1);
    let b = Value::new_int(&mut ctx, i64t, 2);
    let x = Value::new_undef(&mut ctx, f32t);
    let y = Value::new_undef(&mut ctx, f32t);

    let int_ops = [
        (builder.create_add(&mut ctx, a, b), Opcode::Add),
        (builder.create_sub(&mut ctx, a, b), Opcode::Sub),
        (builder.create_mul(&mut ctx, a, b), Opcode::Mul),
        (builder.create_div(&mut ctx, a, b), Opcode::SDiv),
        (builder.create_rem(&mut ctx, a, b), Opcode::SRem),
        (builder.create_shl(&mut ctx, a, b), Opcode::Shl),
        (builder.create_ashr(&mut ctx, a, b), Opcode::AShr),
        (builder.create_and(&mut ctx, a, b), Opcode::And),
        (builder.create_or(&mut ctx, a, b), Opcode::Or),
        (builder.create_xor(&mut ctx, a, b), Opcode::Xor),
    ];
    for (v, op) in int_ops {
        assert_eq!(op, op_of(&ctx, v));
        assert_eq!(i64t, v.get_type(&ctx));
        assert_eq!(vec![a, b], operands_of(&ctx, v));
    }
    let float_ops = [
        (builder.create_add(&mut ctx, x, y), Opcode::FAdd),
        (builder.create_sub(&mut ctx, x, y), Opcode::FSub),
        (builder.create_mul(&mut ctx, x, y), Opcode::FMul),
        (builder.create_div(&mut ctx, x, y), Opcode::FDiv),
        (builder.create_rem(&mut ctx, x, y), Opcode::FRem),
    ];
    for (v, op) in float_ops {
        assert_eq!(op, op_of(&ctx, v));
        assert_eq!(f32t, v.get_type(&ctx));
    }
    let n = builder.create_neg(&mut ctx, a);
    assert_eq!(Opcode::Neg, op_of(&ctx, n));
    let t = builder.create_not(&mut ctx, b);
    assert_eq!(Opcode::Not, op_of(&ctx, t));
    assert_eq!(17, ctx.blocks[entry.index].insts.len());
}

#[test]
fn instructions_go_before_the_cursor() {
    let mut ctx = Context::new();
    let (_module, func) = setup(&mut ctx);
    let entry = func.append(&mut ctx, "entry");
    let mut builder = Builder::new();
    assert_eq!(None, builder.get_insert_block());
    builder.position_at_end(&ctx, entry);
    assert_eq!(Some(entry), builder.get_insert_block());
    let i64t = Type::i64_ty(&mut ctx);
    let a = Value::new_int(&mut ctx, i64t, 1);
    let first = builder.create_add(&mut ctx, a, a);
    let last = builder.create_ret(&mut ctx, first);
    builder.position_at(&ctx, entry, last);
    let middle = builder.create_mul(&mut ctx, first, a);
    let second = builder.create_sub(&mut ctx, middle, a);
    assert_eq!(vec![first, middle, second, last], ctx.blocks[entry.index].insts);
    builder.position_at(&ctx, entry, first);
    let zeroth = builder.create_neg(&mut ctx, a);
    assert_eq!(vec![zeroth, first, middle, second, last], ctx.blocks[entry.index].insts);
    match &ctx.values[middle.index].kind {
        ValueKind::Inst { block, .. } => assert_eq!(entry, *block),
        _ => panic!("not an instruction"),
    }
    assert_eq!(None, middle.get_name(&ctx));
}

#[test]
fn memory_and_aggregate_instructions() {
    let mut ctx = Context::new();
    let (_module, func) = setup(&mut ctx);
    let entry = func.append(&mut ctx, "entry");
    let mut builder = Builder::new();
    builder.position_at_end(&ctx, entry);
    let i32t = Type::i32_ty(&mut ctx);
    let i64t = Type::i64_ty(&mut ctx);
    let pair = Type::struct_ty(&mut ctx, &[i32t, i64t], false);
    let arr = Type::array_ty(&mut ctx, pair, 4);

    let slot = builder.create_alloca(&mut ctx, i64t);
    assert_eq!(Opcode::Alloca, op_of(&ctx, slot));
    assert_eq!("i64*", slot.get_type(&ctx).to_string(&ctx));
    let three = Value::new_int(&mut ctx, i64t, 3);
    let st = builder.create_store(&mut ctx, three, slot);
    assert_eq!(vec![three, slot], operands_of(&ctx, st));
    assert_eq!("void", st.get_type(&ctx).to_string(&ctx));
    let ld = builder.create_load(&mut ctx, slot);
    assert_eq!(i64t, ld.get_type(&ctx));
    let many = builder.build_array_alloca(&mut ctx, i32t, three);
    assert_eq!(Opcode::ArrayAlloca, op_of(&ctx, many));
    assert_eq!("i32*", many.get_type(&ctx).to_string(&ctx));
    let fr = builder.create_free(&mut ctx, many);
    assert_eq!(Opcode::Free, op_of(&ctx, fr));

    let table = builder.create_alloca(&mut ctx, arr);
    let zero = Value::new_int(&mut ctx, i32t, 0);
    let two = Value::new_int(&mut ctx, i32t, 2);
    let one = Value::new_int(&mut ctx, i32t, 1);
    let field = builder.create_gep(&mut ctx, table, &[zero, two, one]);
    assert_eq!(Opcode::GetElementPtr, op_of(&ctx, field));
    assert_eq!("i64*", field.get_type(&ctx).to_string(&ctx));
    assert_eq!(vec![table, zero, two, one], operands_of(&ctx, field));
    let whole = builder.create_gep(&mut ctx, table, &[zero]);
    assert_eq!("[4 x { i32, i64 }]*", whole.get_type(&ctx).to_string(&ctx));

    let undef = Value::new_undef(&mut ctx, pair);
    let second = builder.create_extract_value(&mut ctx, undef, 1);
    assert_eq!(Opcode::ExtractValue(1), op_of(&ctx, second));
    assert_eq!(i64t, second.get_type(&ctx));
    let updated = builder.create_insert_value(&mut ctx, undef, three, 1);
    assert_eq!(Opcode::InsertValue(1), op_of(&ctx, updated));
    assert_eq!(pair, updated.get_type(&ctx));

    let f64t = Type::f64_ty(&mut ctx);
    let cast = builder.create_bit_cast(&mut ctx, three, f64t);
    assert_eq!(f64t, cast.get_type(&ctx));
    let cond = builder.create_cmp(&mut ctx, three, three, Predicate::Equal);
    let sel = builder.create_select(&mut ctx, cond, three, ld);
    assert_eq!(vec![cond, three, ld], operands_of(&ctx, sel));
    assert_eq!(i64t, sel.get_type(&ctx));
}

#[test]
fn calls_carry_the_tail_hint() {
    let mut ctx = Context::new();
    let (_module, func) = setup(&mut ctx);
    let entry = func.append(&mut ctx, "entry");
    let mut builder = Builder::new();
    builder.position_at_end(&ctx, entry);
    let n = func.param(&ctx, 0).as_value();
    let plain = builder.create_call(&mut ctx, func, &[n]);
    let tail = builder.create_tail_call(&mut ctx, func, &[n]);
    assert_eq!(Opcode::Call, op_of(&ctx, plain));
    assert_eq!(Opcode::Call, op_of(&ctx, tail));
    assert!(!tail_of(&ctx, plain));
    assert!(tail_of(&ctx, tail));
    assert_eq!(vec![func.as_value(), n], operands_of(&ctx, tail));
    assert_eq!("i64", tail.get_type(&ctx).to_string(&ctx));
}

/// Builds `fib` with a switch over 0 and 1 and a default that adds the results
/// of two tail calls.
#[test]
fn switch_and_tail_recursion_scenario() {
    let mut ctx = Context::new();
    let (module, func) = setup(&mut ctx);
    let value = func.param(&ctx, 0).as_value();
    let entry = func.append(&mut ctx, "entry");
    let on_zero = func.append(&mut ctx, "on_zero");
    let on_one = func.append(&mut ctx, "on_one");
    let default = func.append(&mut ctx, "default");
    let mut builder = Builder::new();
    let i64t = Type::i64_ty(&mut ctx);
    let zero = Value::new_int(&mut ctx, i64t, 0);
    let one = Value::new_int(&mut ctx, i64t, 1);

    builder.position_at_end(&ctx, entry);
    let sw = builder.create_switch(&mut ctx, value, default, &[(zero, on_zero), (one, on_one)]);
    assert_eq!(vec![value, zero, one], operands_of(&ctx, sw));
    assert_eq!(vec![default, on_zero, on_one], targets_of(&ctx, sw));

    builder.position_at_end(&ctx, on_zero);
    builder.create_ret(&mut ctx, zero);
    builder.position_at_end(&ctx, on_one);
    builder.create_ret(&mut ctx, one);
    builder.position_at_end(&ctx, default);
    let two = Value::new_int(&mut ctx, i64t, 2);
    let a = builder.create_sub(&mut ctx, value, one);
    let b = builder.create_sub(&mut ctx, value, two);
    let fa = builder.create_tail_call(&mut ctx, func, &[a]);
    let fb = builder.create_tail_call(&mut ctx, func, &[b]);
    let sum = builder.create_add(&mut ctx, fa, fb);
    builder.create_ret(&mut ctx, sum);

    assert_eq!(Ok(()), module.verify(&ctx));
    assert!(func.has_attributes(&ctx, &[NoUnwind, ReadNone]));
    assert_eq!(6, ctx.blocks[default.index].insts.len());
    let expected = [0u64, 1, 1, 2, 3, 5, 8, 13, 21, 34];
    for (n, fib) in expected.iter().enumerate() {
        assert_eq!(Some(*fib), func.evaluate(&ctx, &[n as u64], 100));
    }
    // Too little fuel for the recursion.
    assert_eq!(None, func.evaluate(&ctx, &[9], 3));
}

#[test]
fn evaluation_of_narrow_and_signed_arithmetic() {
    let mut ctx = Context::new();
    let mut module = Module::new("narrow");
    let i8t = Type::i8_ty(&mut ctx);
    let sig = Type::function_ty(&mut ctx, i8t, &[i8t, i8t]);
    let f = module.add_function(&mut ctx, "f", sig.as_type());
    let entry = f.append(&mut ctx, "entry");
    let neg = f.append(&mut ctx, "negative");
    let pos = f.append(&mut ctx, "positive");
    let mut b = Builder::new();
    b.position_at_end(&ctx, entry);
    let x = f.param(&ctx, 0).as_value();
    let y = f.param(&ctx, 1).as_value();
    let sum = b.create_add(&mut ctx, x, y);
    let zero = Value::new_int(&mut ctx, i8t, 0);
    let is_neg = b.create_cmp(&mut ctx, sum, zero, Predicate::LessThan);
    b.create_cond_br(&mut ctx, is_neg, neg, Some(pos));
    b.position_at_end(&ctx, neg);
    let flipped = b.create_neg(&mut ctx, sum);
    b.create_ret(&mut ctx, flipped);
    b.position_at_end(&ctx, pos);
    b.create_ret(&mut ctx, sum);
    module.verify(&ctx).unwrap();
    // 100 + 27 fits in a signed byte; 100 + 28 wraps to -128, whose negation is itself.
    assert_eq!(Some(127), f.evaluate(&ctx, &[100, 27], 10));
    assert_eq!(Some(128), f.evaluate(&ctx, &[100, 28], 10));
    // 200 + 100 wraps to 44.
    assert_eq!(Some(44), f.evaluate(&ctx, &[200, 100], 10));
    // 250 is -6: its sum with 2 is -4, negated 4.
    assert_eq!(Some(4), f.evaluate(&ctx, &[250, 2], 10));
    // The wrong number of arguments is not evaluated.
    assert_eq!(None, f.evaluate(&ctx, &[1], 10));
}

/// Selects 8 when the input is below 5 and 16 otherwise, through a stored and
/// reloaded local.
#[test]
pub fn test_cond_br() {
    let mut ctx = Context::new();
    let (module, func) = setup(&mut ctx);
    let value = func.param(&ctx, 0).as_value();
    let entry = func.append(&mut ctx, "entry");
    let then_bb = func.append(&mut ctx, "then_block");
    let else_bb = func.append(&mut ctx, "else_block");
    let merge_bb = func.append(&mut ctx, "merge_bb");
    let mut builder = Builder::new();
    let i64t = Type::get::<u64>(&mut ctx);
    builder.position_at_end(&ctx, entry);
    let local = builder.create_alloca(&mut ctx, i64t);
    let five = 5u64.compile(&mut ctx);
    let cond = builder.create_cmp(&mut ctx, value, five, Predicate::LessThan);
    let br = builder.create_cond_br(&mut ctx, cond, then_bb, Some(else_bb));
    assert_eq!(vec![then_bb, else_bb], targets_of(&ctx, br));

    builder.position_at_end(&ctx, then_bb);
    let eight = 8u64.compile(&mut ctx);
    builder.create_store(&mut ctx, eight, local);
    builder.create_br(&mut ctx, merge_bb);

    builder.position_at_end(&ctx, else_bb);
    let sixteen = 16u64.compile(&mut ctx);
    builder.create_store(&mut ctx, sixteen, local);
    builder.create_br(&mut ctx, merge_bb);

    builder.position_at_end(&ctx, merge_bb);
    let ret_val = builder.create_load(&mut ctx, local);
    builder.create_ret(&mut ctx, ret_val);
    module.verify(&ctx).unwrap();
    for i in 0..10u64 {
        if i < 5 {
            assert_eq!(Some(8), func.evaluate(&ctx, &[i], 100));
        } else {
            assert_eq!(Some(16), func.evaluate(&ctx, &[i], 100));
        }
    }
}

/// The same selection, with the two values merged by a phi node.
#[test]
pub fn test_phi() {
    let mut ctx = Context::new();
    let (module, func) = setup(&mut ctx);
    let value = func.param(&ctx, 0).as_value();
    let entry = func.append(&mut ctx, "entry");
    let then_bb = func.append(&mut ctx, "then_block");
    let else_bb = func.append(&mut ctx, "else_block");
    let merge_bb = func.append(&mut ctx, "merge_bb");
    let mut builder = Builder::new();
    let i64t = Type::get::<u64>(&mut ctx);
    builder.position_at_end(&ctx, entry);
    let local1 = builder.create_alloca(&mut ctx, i64t);
    let eight = 8u64.compile(&mut ctx);
    builder.create_store(&mut ctx, eight, local1);
    let local2 = builder.create_alloca(&mut ctx, i64t);
    let sixteen = 16u64.compile(&mut ctx);
    builder.create_store(&mut ctx, sixteen, local2);
    let five = 5u64.compile(&mut ctx);
    let cond = builder.create_cmp(&mut ctx, value, five, Predicate::LessThan);
    builder.create_cond_br(&mut ctx, cond, then_bb, Some(else_bb));

    builder.position_at_end(&ctx, then_bb);
    let l8 = builder.create_load(&mut ctx, local1);
    builder.create_br(&mut ctx, merge_bb);
    builder.position_at_end(&ctx, else_bb);
    let l16 = builder.create_load(&mut ctx, local2);
    builder.create_br(&mut ctx, merge_bb);

    builder.position_at_end(&ctx, merge_bb);
    let phi = builder.create_phi(&mut ctx, i64t, "cond");
    assert_eq!(Some(merge_bb), builder.get_insert_block());
    phi.add_incoming(&mut ctx, l8, then_bb);
    phi.add_incoming(&mut ctx, l16, else_bb);
    builder.create_ret(&mut ctx, phi.as_value());
    assert_eq!(Some("cond"), phi.as_value().get_name(&ctx));
    assert_eq!(vec![l8, l16], operands_of(&ctx, phi.as_value()));
    assert_eq!(vec![then_bb, else_bb], targets_of(&ctx, phi.as_value()));
    assert_eq!(Opcode::Phi, op_of(&ctx, phi.as_value()));
    module.verify(&ctx).unwrap();
    for i in 0..10u64 {
        if i < 5 {
            assert_eq!(Some(8), func.evaluate(&ctx, &[i], 100));
        } else {
            assert_eq!(Some(16), func.evaluate(&ctx, &[i], 100));
        }
    }
}

#[test]
fn host_values_compile_to_typed_constants() {
    let mut ctx = Context::new();
    let t = Type::get::<u32>(&mut ctx);
    assert_eq!("i32", t.to_string(&ctx));
    assert_eq!(Type::i32_ty(&mut ctx), Type::get::<i32>(&mut ctx));
    assert_eq!("i8", Type::get::<bool>(&mut ctx).to_string(&ctx));
    let five = 5u64.compile(&mut ctx);
    assert_eq!("i64", five.get_type(&ctx).to_string(&ctx));
    let minus_one = (-1i8).compile(&mut ctx);
    assert_eq!("i8", minus_one.get_type(&ctx).to_string(&ctx));
    let yes = true.compile(&mut ctx);
    let words: Vec<u64> = [five, minus_one, yes]
        .iter()
        .map(|v| match &ctx.values[v.index].kind {
            ValueKind::ConstInt { value } => *value,
            _ => panic!("not a constant"),
        })
        .collect();
    assert_eq!(vec![5, u64::MAX, 1], words);
}
