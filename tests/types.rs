use llvm_ir::{Context, FunctionType, StructType, Type, TypeKind};
use llvm_ir::AddressSpace;

#[test]
pub fn test_types() {
    let mut ctx = Context::new();
    let i8t = Type::i8_ty(&mut ctx);
    let i16t = Type::i16_ty(&mut ctx);
    let i32t = Type::i32_ty(&mut ctx);
    let i64t = Type::i64_ty(&mut ctx);
    let f32t = Type::f32_ty(&mut ctx);
    let f64t = Type::f64_ty(&mut ctx);
    assert_eq!("i8", i8t.to_string(&ctx));
    assert_eq!("i16", i16t.to_string(&ctx));
    assert_eq!("i32", i32t.to_string(&ctx));
    assert_eq!("i64", i64t.to_string(&ctx));
    assert_eq!("float", f32t.to_string(&ctx));
    assert_eq!("double", f64t.to_string(&ctx));

    let arr = Type::array_ty(&mut ctx, f64t, 10);
    assert_eq!("[10 x double]", arr.to_string(&ctx));
}

#[test]
fn structural_type_text() {
    let mut ctx = Context::new();
    let void = Type::void_ty(&mut ctx);
    let i1 = Type::int_ty(&mut ctx, 1);
    let i8t = Type::i8_ty(&mut ctx);
    let i32t = Type::i32_ty(&mut ctx);
    let i64t = Type::i64_ty(&mut ctx);
    let f32t = Type::f32_ty(&mut ctx);
    assert_eq!("void", void.to_string(&ctx));
    assert_eq!("i1", i1.to_string(&ctx));

    let p = Type::pointer_ty(&mut ctx, i32t);
    assert_eq!("i32*", p.to_string(&ctx));
    let pp = Type::pointer_ty(&mut ctx, p);
    assert_eq!("i32**", pp.to_string(&ctx));
    let global_ptr = Type::pointer_in_space(&mut ctx, i8t, AddressSpace::Global);
    assert_eq!("i8 addrspace(1)*", global_ptr.to_string(&ctx));
    let local_ptr = Type::pointer_in_space(&mut ctx, i8t, AddressSpace::Local);
    assert_eq!("i8 addrspace(5)*", local_ptr.to_string(&ctx));

    let v = Type::vector_ty(&mut ctx, f32t, 4);
    assert_eq!("<4 x float>", v.to_string(&ctx));
    let big = Type::array_ty(&mut ctx, i8t, 1234);
    assert_eq!("[1234 x i8]", big.to_string(&ctx));
    let nested = Type::array_ty(&mut ctx, big, 0);
    assert_eq!("[0 x [1234 x i8]]", nested.to_string(&ctx));

    let s = Type::struct_ty(&mut ctx, &[i32t, i8t], false);
    assert_eq!("{ i32, i8 }", s.to_string(&ctx));
    let packed = Type::struct_ty(&mut ctx, &[i32t, i8t], true);
    assert_eq!("<{ i32, i8 }>", packed.to_string(&ctx));
    let empty = Type::struct_ty(&mut ctx, &[], false);
    assert_eq!("{}", empty.to_string(&ctx));
    let empty_packed = Type::struct_ty(&mut ctx, &[], true);
    assert_eq!("<{}>", empty_packed.to_string(&ctx));
    let one = Type::struct_ty(&mut ctx, &[p], false);
    assert_eq!("{ i32* }", one.to_string(&ctx));

    let f = Type::function_ty(&mut ctx, i64t, &[i64t, i32t]);
    assert_eq!("i64 (i64, i32)", f.as_type().to_string(&ctx));
    let g = Type::function_ty(&mut ctx, void, &[]);
    assert_eq!("void ()", g.as_type().to_string(&ctx));
    let fp = Type::pointer_ty(&mut ctx, f.as_type());
    assert_eq!("i64 (i64, i32)*", fp.to_string(&ctx));
}

#[test]
fn anonymous_types_are_uniqued() {
    let mut ctx = Context::new();
    let a = Type::i32_ty(&mut ctx);
    let b = Type::i32_ty(&mut ctx);
    assert_eq!(a, b);
    let n = ctx.types.len();
    let arr1 = Type::array_ty(&mut ctx, a, 3);
    let arr2 = Type::array_ty(&mut ctx, b, 3);
    let arr3 = Type::array_ty(&mut ctx, a, 4);
    assert_eq!(arr1, arr2);
    assert_ne!(arr1, arr3);
    assert_eq!(n + 2, ctx.types.len());
    let s1 = Type::struct_ty(&mut ctx, &[a, arr1], false);
    let s2 = StructType::new(&mut ctx, &[a, arr1], false);
    assert_eq!(s1, s2.as_type());
    let s3 = Type::struct_ty(&mut ctx, &[a, arr1], true);
    assert_ne!(s1, s3);
    assert_eq!(Type::bool_ty(&mut ctx), Type::i8_ty(&mut ctx));
}

#[test]
fn named_structs_are_never_uniqued() {
    let mut ctx = Context::new();
    let i32t = Type::i32_ty(&mut ctx);
    let a = StructType::new_named(&mut ctx, "pair", &[i32t, i32t], false);
    let b = StructType::new_named(&mut ctx, "pair", &[i32t, i32t], false);
    assert_ne!(a, b);
    assert_eq!("%pair", a.as_type().to_string(&ctx));
}

#[test]
fn recursive_named_struct() {
    let mut ctx = Context::new();
    let node = StructType::new_opaque(&mut ctx, "node");
    assert!(!node.as_type().is_sized(&ctx));
    assert_eq!(Vec::<Type>::new(), node.get_elements(&ctx));
    let i32t = Type::i32_ty(&mut ctx);
    let link = Type::pointer_ty(&mut ctx, node.as_type());
    assert_eq!("%node*", link.to_string(&ctx));
    node.set_body(&mut ctx, &[i32t, link], false);
    assert_eq!(vec![i32t, link], node.get_elements(&ctx));
    assert!(node.as_type().is_sized(&ctx));
    assert_eq!("%node", node.as_type().to_string(&ctx));
    let list = Type::struct_ty(&mut ctx, &[link, link], false);
    assert_eq!("{ %node*, %node* }", list.to_string(&ctx));
}

#[test]
fn type_predicates() {
    let mut ctx = Context::new();
    let void = Type::void_ty(&mut ctx);
    let i32t = Type::i32_ty(&mut ctx);
    let f32t = Type::f32_ty(&mut ctx);
    let f64t = Type::f64_ty(&mut ctx);
    let p = Type::pointer_ty(&mut ctx, i32t);
    let s = Type::struct_ty(&mut ctx, &[i32t, f64t], false);
    let f = Type::function_ty(&mut ctx, void, &[i32t]).as_type();
    let arr = Type::array_ty(&mut ctx, s, 2);

    assert!(void.is_void(&ctx) && !i32t.is_void(&ctx));
    assert!(i32t.is_integer(&ctx) && !f32t.is_integer(&ctx));
    assert!(f32t.is_float(&ctx) && f64t.is_float(&ctx) && !i32t.is_float(&ctx));
    assert!(p.is_pointer(&ctx) && !i32t.is_pointer(&ctx));
    assert!(s.is_struct(&ctx) && !arr.is_struct(&ctx));
    assert!(f.is_function(&ctx) && !p.is_function(&ctx));
    assert_eq!(TypeKind::Array, arr.kind(&ctx));
    assert_eq!(TypeKind::Double, f64t.kind(&ctx));

    assert!(i32t.is_sized(&ctx));
    assert!(p.is_sized(&ctx));
    assert!(s.is_sized(&ctx));
    assert!(arr.is_sized(&ctx));
    assert!(!void.is_sized(&ctx));
    assert!(!f.is_sized(&ctx));
    let holds_void = Type::array_ty(&mut ctx, void, 1);
    assert!(!holds_void.is_sized(&ctx));

    assert_eq!(Some(i32t), p.get_element(&ctx));
    assert_eq!(Some(s), arr.get_element(&ctx));
    assert_eq!(None, i32t.get_element(&ctx));
    assert_eq!(None, s.get_element(&ctx));
}

#[test]
fn struct_and_function_type_queries() {
    let mut ctx = Context::new();
    let i8t = Type::i8_ty(&mut ctx);
    let i64t = Type::i64_ty(&mut ctx);
    let f64t = Type::f64_ty(&mut ctx);
    let s = StructType::new(&mut ctx, &[i64t, i8t, f64t], false);
    assert_eq!(vec![i64t, i8t, f64t], s.get_elements(&ctx));

    let sig = Type::function_ty(&mut ctx, f64t, &[i8t, i64t]);
    assert_eq!(2, sig.num_params(&ctx));
    assert_eq!(vec![i8t, i64t], sig.get_params(&ctx));
    assert_eq!(f64t, sig.get_return(&ctx));
}

#[test]
fn type_casts_unwrap_indirection() {
    let mut ctx = Context::new();
    let i32t = Type::i32_ty(&mut ctx);
    let s = Type::struct_ty(&mut ctx, &[i32t], false);
    let sig = Type::function_ty(&mut ctx, i32t, &[i32t]);
    let p = Type::pointer_ty(&mut ctx, sig.as_type());
    let pp = Type::pointer_ty(&mut ctx, p);
    let ps = Type::pointer_ty(&mut ctx, s);

    assert_eq!(Some(sig), FunctionType::cast(&ctx, sig.as_type()));
    assert_eq!(Some(sig), FunctionType::cast(&ctx, p));
    assert_eq!(Some(sig), FunctionType::cast(&ctx, pp));
    assert_eq!(None, FunctionType::cast(&ctx, i32t));
    assert_eq!(None, FunctionType::cast(&ctx, s));

    assert_eq!(Some(StructType { index: s.index }), StructType::cast(&ctx, s));
    assert_eq!(None, StructType::cast(&ctx, ps));
    assert_eq!(None, StructType::cast(&ctx, i32t));
}
