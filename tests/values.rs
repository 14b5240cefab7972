use llvm_ir::attributes::union_masks;
use llvm_ir::Attribute::{
    Alignment, AlwaysInline, ByVal, InReg, InlineHint, Naked, Nest, NoAlias, NoCapture,
    NoImplicitFloat, NoInline, NoRedZone, NoReturn, NoUnwind, NonLazyBind, OptimizeForSize,
    ReadNone, ReadOnly, ReturnsTwice, SExt, StackAlignment, StackProtect, StackProtectReq,
    StructRet, UWTable, ZExt,
};
use llvm_ir::{Attribute, Context, Function, GlobalValue, Module, Type, Value, ValueKind};

fn fn_module(ctx: &mut Context, params: usize) -> (Module, Function) {
    let mut module = Module::new("values");
    let i64t = Type::i64_ty(ctx);
    let args = vec![i64t; params];
    let sig = Type::function_ty(ctx, i64t, &args);
    let f = module.add_function(ctx, "f", sig.as_type());
    (module, f)
}

#[test]
fn attribute_masks() {
    assert_eq!(1, ZExt.mask());
    assert_eq!(2, SExt.mask());
    assert_eq!(1 << 9, ReadNone.mask());
    assert_eq!(0x1F_0000, Alignment.mask());
    assert_eq!(1 << 21, NoCapture.mask());
    assert_eq!(0x1C00_0000, StackAlignment.mask());
    assert_eq!(1 << 31, NonLazyBind.mask());
    assert_eq!(3, union_masks(&[ZExt, SExt]));
    assert_eq!(0, union_masks(&[]));
    assert_eq!(0x1F_0000 | (1 << 5), union_masks(&[NoUnwind, Alignment, NoUnwind]));
}

#[test]
fn attribute_union_either_order_then_remove() {
    let mut ctx = Context::new();
    let (_m, f) = fn_module(&mut ctx, 0);
    let (_m2, g) = fn_module(&mut ctx, 0);
    f.add_attributes(&mut ctx, &[NoUnwind, ReadNone]);
    g.add_attributes(&mut ctx, &[ReadNone, NoUnwind]);
    assert!(f.has_attributes(&ctx, &[NoUnwind, ReadNone]));
    assert!(g.has_attributes(&ctx, &[NoUnwind, ReadNone]));
    assert!(!f.has_attribute(&ctx, NoInline));
    assert!(!f.has_attributes(&ctx, &[NoUnwind, NoInline]));
    assert!(f.has_attributes(&ctx, &[]));

    f.remove_attribute(&mut ctx, NoUnwind);
    assert!(!f.has_attribute(&ctx, NoUnwind));
    assert!(f.has_attribute(&ctx, ReadNone));

    g.add_attribute(&mut ctx, AlwaysInline);
    g.add_attribute(&mut ctx, NoUnwind);
    assert!(g.has_attributes(&ctx, &[AlwaysInline, ReadNone, NoUnwind]));
}

#[test]
fn attribute_fields_are_whole() {
    let mut ctx = Context::new();
    let (_m, f) = fn_module(&mut ctx, 1);
    let a = f.param(&ctx, 0);
    a.add_attribute(&mut ctx, StackAlignment);
    assert!(a.has_attribute(&ctx, StackAlignment));
    assert!(!a.has_attribute(&ctx, Alignment));
    a.add_attributes(&mut ctx, &[Alignment, NoCapture]);
    assert!(a.has_attributes(&ctx, &[Alignment, NoCapture, StackAlignment]));
    a.remove_attribute(&mut ctx, Alignment);
    assert!(!a.has_attribute(&ctx, Alignment));
    assert!(a.has_attributes(&ctx, &[NoCapture, StackAlignment]));
    assert!(!f.has_attribute(&ctx, NoCapture));
}

#[test]
fn every_attribute_round_trips() {
    let all: [Attribute; 26] = [
        ZExt, SExt, NoReturn, InReg, StructRet, NoUnwind, NoAlias, ByVal, Nest, ReadNone, ReadOnly,
        NoInline, AlwaysInline, OptimizeForSize, StackProtect, StackProtectReq, Alignment, NoCapture,
        NoRedZone, NoImplicitFloat, Naked, InlineHint, StackAlignment, ReturnsTwice, UWTable,
        NonLazyBind,
    ];
    let mut ctx = Context::new();
    let (_m, f) = fn_module(&mut ctx, 0);
    f.add_attributes(&mut ctx, &all);
    assert!(f.has_attributes(&ctx, &all));
    for (k, a) in all.iter().enumerate() {
        f.remove_attribute(&mut ctx, *a);
        assert!(!f.has_attribute(&ctx, *a));
        assert!(f.has_attributes(&ctx, &all[k + 1..]));
    }
}

#[test]
fn function_cast_only_for_functions() {
    let mut ctx = Context::new();
    let (_m, f) = fn_module(&mut ctx, 2);
    assert_eq!(Some(f), Function::cast(&ctx, f.as_value()));
    let i64t = Type::i64_ty(&mut ctx);
    let c = Value::new_int(&mut ctx, i64t, 7);
    assert_eq!(None, Function::cast(&ctx, c));
    let arg = f.param(&ctx, 0).as_value();
    assert_eq!(None, Function::cast(&ctx, arg));
    let p = Type::pointer_ty(&mut ctx, i64t);
    let u = Value::new_undef(&mut ctx, p);
    assert_eq!(None, Function::cast(&ctx, u));
    // Narrowing reads only the type: an undefined value typed as a pointer to
    // a signature narrows to a function too.
    let sig = Type::function_ty(&mut ctx, i64t, &[]);
    let fp = Type::pointer_ty(&mut ctx, sig.as_type());
    let odd = Value::new_undef(&mut ctx, fp);
    assert!(Function::cast(&ctx, odd).is_some());
    // Only one level of pointer is looked through, and never an array or vector.
    let fpp = Type::pointer_ty(&mut ctx, fp);
    let twice = Value::new_undef(&mut ctx, fpp);
    assert_eq!(None, Function::cast(&ctx, twice));
    let arr = Type::array_ty(&mut ctx, sig.as_type(), 1);
    assert_eq!("[1 x i64 ()]", arr.to_string(&ctx));
    let in_array = Value::new_undef(&mut ctx, arr);
    assert_eq!(None, Function::cast(&ctx, in_array));
    let vec_ty = Type::vector_ty(&mut ctx, sig.as_type(), 2);
    let in_vector = Value::new_undef(&mut ctx, vec_ty);
    assert_eq!(None, Function::cast(&ctx, in_vector));
}

#[test]
fn global_value_cast() {
    let mut ctx = Context::new();
    let (mut m, f) = fn_module(&mut ctx, 0);
    let i32t = Type::i32_ty(&mut ctx);
    let g = m.add_global(&mut ctx, "counter", i32t);
    assert_eq!(Some(g), GlobalValue::cast(&ctx, g.as_value()));
    assert_eq!(Some(GlobalValue { index: f.index }), GlobalValue::cast(&ctx, f.as_value()));
    let c = Value::new_int(&mut ctx, i32t, 1);
    assert_eq!(None, GlobalValue::cast(&ctx, c));
    assert_eq!("i32*", g.as_value().get_type(&ctx).to_string(&ctx));
    assert_eq!(None, g.get_initializer(&ctx));
    g.set_initializer(&mut ctx, c);
    assert_eq!(Some(c), g.get_initializer(&ctx));
}

#[test]
fn value_names() {
    let mut ctx = Context::new();
    let i8t = Type::i8_ty(&mut ctx);
    let v = Value::new_int(&mut ctx, i8t, 3);
    assert_eq!(None, v.get_name(&ctx));
    v.set_name(&mut ctx, "three");
    assert_eq!(Some("three"), v.get_name(&ctx));
    v.set_name(&mut ctx, "");
    assert_eq!(None, v.get_name(&ctx));
    let (_m, f) = fn_module(&mut ctx, 0);
    assert_eq!("f", f.get_name(&ctx));
}

#[test]
fn constant_aggregates() {
    let mut ctx = Context::new();
    let i32t = Type::i32_ty(&mut ctx);
    let i64t = Type::i64_ty(&mut ctx);
    let a = Value::new_int(&mut ctx, i32t, 1);
    let b = Value::new_int(&mut ctx, i64t, 2);
    let c = Value::new_int(&mut ctx, i32t, 3);
    let s = Value::new_struct(&mut ctx, &[a, b], false);
    assert_eq!("{ i32, i64 }", s.get_type(&ctx).to_string(&ctx));
    let sp = Value::new_struct(&mut ctx, &[a, b], true);
    assert_eq!("<{ i32, i64 }>", sp.get_type(&ctx).to_string(&ctx));
    let v = Value::new_vector(&mut ctx, &[a, c]);
    assert_eq!("<2 x i32>", v.get_type(&ctx).to_string(&ctx));
    match &ctx.values[v.index].kind {
        ValueKind::ConstAggregate { elems } => assert_eq!(&vec![a, c], elems),
        _ => panic!("not an aggregate"),
    }
}

#[test]
fn constant_strings() {
    let mut ctx = Context::new();
    let c = Value::new_string(&mut ctx, "hello", false);
    assert_eq!("[6 x i8]", c.get_type(&ctx).to_string(&ctx));
    let r = Value::new_string(&mut ctx, "hello", true);
    assert_eq!("[5 x i8]", r.get_type(&ctx).to_string(&ctx));
    match &ctx.values[c.index].kind {
        ValueKind::ConstString { bytes } => assert_eq!(b"hello\0".to_vec(), *bytes),
        _ => panic!("not a string"),
    }
    let e = Value::new_string(&mut ctx, "", true);
    assert_eq!("[0 x i8]", e.get_type(&ctx).to_string(&ctx));
}

#[test]
fn function_params_and_blocks() {
    let mut ctx = Context::new();
    let (_m, f) = fn_module(&mut ctx, 3);
    assert_eq!(3, f.num_params(&ctx));
    assert_eq!("i64 (i64, i64, i64)", f.get_signature(&ctx).as_type().to_string(&ctx));
    assert_eq!("i64 (i64, i64, i64)*", f.as_value().get_type(&ctx).to_string(&ctx));
    let mut it = f.params(&ctx);
    for k in 0..3 {
        let a = it.next().unwrap();
        assert_eq!(f.param(&ctx, k), a);
        match &ctx.values[a.index].kind {
            ValueKind::Arg { func, pos, .. } => {
                assert_eq!(f.as_value(), *func);
                assert_eq!(k, *pos);
            }
            _ => panic!("not an argument"),
        }
    }
    assert_eq!(None, it.next());
    assert_eq!(None, it.next());

    assert_eq!(None, f.get_entry(&ctx));
    let entry = f.append(&mut ctx, "entry");
    let other = f.append(&mut ctx, "other");
    assert_eq!(Some(entry), f.get_entry(&ctx));
    assert_eq!(vec![entry, other], f.get_blocks(&ctx));
    assert_eq!("other", ctx.blocks[other.index].name);
}

#[test]
fn params_of_empty_signature() {
    let mut ctx = Context::new();
    let (_m, f) = fn_module(&mut ctx, 0);
    assert_eq!(0, f.num_params(&ctx));
    assert_eq!(None, f.params(&ctx).next());
}
