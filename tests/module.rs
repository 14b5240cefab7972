use llvm_ir::{AddressSpace, Builder, Context, MemoryBuffer, Module, StructType, Type, Value};

#[test]
fn empty_module_verifies() {
    let ctx = Context::new();
    let module = Module::new("test_func_find");
    assert_eq!(Ok(()), module.verify(&ctx));
    assert_eq!("test_func_find", module.name);
}

#[test]
fn declarations_verify() {
    let mut ctx = Context::new();
    let mut module = Module::new("decls");
    let f64t = Type::f64_ty(&mut ctx);
    let sig = Type::function_ty(&mut ctx, f64t, &[f64t]);
    module.add_function(&mut ctx, "test_func3", sig.as_type());
    assert_eq!(Ok(()), module.verify(&ctx));
}

fn one_block_function(ctx: &mut Context, module: &mut Module, name: &str) -> (llvm_ir::Function, llvm_ir::BasicBlock) {
    let i32t = Type::i32_ty(ctx);
    let sig = Type::function_ty(ctx, i32t, &[i32t]);
    let f = module.add_function(ctx, name, sig.as_type());
    let entry = f.append(ctx, "entry");
    (f, entry)
}

#[test]
fn missing_terminator_is_reported() {
    let mut ctx = Context::new();
    let mut module = Module::new("m");
    let (f, entry) = one_block_function(&mut ctx, &mut module, "f");
    let mut b = Builder::new();
    b.position_at_end(&ctx, entry);
    let x = f.param(&ctx, 0).as_value();
    b.create_add(&mut ctx, x, x);
    let err = module.verify(&ctx).unwrap_err();
    assert!(!err.is_empty());
    assert!(err.starts_with("function f: "));
}

#[test]
fn empty_block_is_reported() {
    let mut ctx = Context::new();
    let mut module = Module::new("m");
    let (_f, _entry) = one_block_function(&mut ctx, &mut module, "f");
    assert!(!module.verify(&ctx).unwrap_err().is_empty());
}

#[test]
fn terminator_in_the_middle_is_reported() {
    let mut ctx = Context::new();
    let mut module = Module::new("m");
    let (f, entry) = one_block_function(&mut ctx, &mut module, "f");
    let mut b = Builder::new();
    b.position_at_end(&ctx, entry);
    let x = f.param(&ctx, 0).as_value();
    b.create_ret(&mut ctx, x);
    b.create_ret(&mut ctx, x);
    assert!(!module.verify(&ctx).unwrap_err().is_empty());
}

#[test]
fn call_to_a_function_of_another_module_is_reported() {
    let mut ctx = Context::new();
    let mut module = Module::new("m");
    let mut other = Module::new("other");
    let (f, entry) = one_block_function(&mut ctx, &mut module, "f");
    let (g, g_entry) = one_block_function(&mut ctx, &mut other, "g");
    let mut b = Builder::new();
    b.position_at_end(&ctx, g_entry);
    let y = g.param(&ctx, 0).as_value();
    b.create_ret(&mut ctx, y);
    assert_eq!(Ok(()), other.verify(&ctx));

    b.position_at_end(&ctx, entry);
    let x = f.param(&ctx, 0).as_value();
    let r = b.create_call(&mut ctx, g, &[x]);
    b.create_ret(&mut ctx, r);
    assert!(!module.verify(&ctx).unwrap_err().is_empty());

    // Once linked in, the callee is part of the module.
    assert_eq!(Ok(()), module.link(&ctx, &other));
    assert_eq!(Ok(()), module.verify(&ctx));
}

#[test]
fn argument_of_another_function_is_reported() {
    let mut ctx = Context::new();
    let mut module = Module::new("m");
    let (f, entry) = one_block_function(&mut ctx, &mut module, "f");
    let (g, _g_entry) = one_block_function(&mut ctx, &mut module, "g");
    let mut b = Builder::new();
    b.position_at_end(&ctx, entry);
    let x = f.param(&ctx, 0).as_value();
    let y = g.param(&ctx, 0).as_value();
    let s = b.create_add(&mut ctx, x, y);
    b.create_ret(&mut ctx, s);
    assert!(!module.verify(&ctx).unwrap_err().is_empty());
}

#[test]
fn branch_to_a_block_of_another_function_is_reported() {
    let mut ctx = Context::new();
    let mut module = Module::new("m");
    let (f, entry) = one_block_function(&mut ctx, &mut module, "f");
    let (g, g_entry) = one_block_function(&mut ctx, &mut module, "g");
    let mut b = Builder::new();
    b.position_at_end(&ctx, g_entry);
    let y = g.param(&ctx, 0).as_value();
    b.create_ret(&mut ctx, y);
    b.position_at_end(&ctx, entry);
    b.create_br(&mut ctx, g_entry);
    let _ = f;
    assert!(!module.verify(&ctx).unwrap_err().is_empty());
}

#[test]
fn return_type_mismatch_is_reported() {
    let mut ctx = Context::new();
    let mut module = Module::new("m");
    let (_f, entry) = one_block_function(&mut ctx, &mut module, "f");
    let mut b = Builder::new();
    b.position_at_end(&ctx, entry);
    let i64t = Type::i64_ty(&mut ctx);
    let wide = Value::new_int(&mut ctx, i64t, 1);
    b.create_ret(&mut ctx, wide);
    assert!(!module.verify(&ctx).unwrap_err().is_empty());

    let mut module2 = Module::new("m2");
    let (_g, g_entry) = one_block_function(&mut ctx, &mut module2, "g");
    b.position_at_end(&ctx, g_entry);
    b.create_ret_void(&mut ctx);
    assert!(!module2.verify(&ctx).unwrap_err().is_empty());
}

#[test]
fn cond_br_without_else_is_reported() {
    let mut ctx = Context::new();
    let mut module = Module::new("m");
    let (f, entry) = one_block_function(&mut ctx, &mut module, "f");
    let exit = f.append(&mut ctx, "exit");
    let mut b = Builder::new();
    b.position_at_end(&ctx, exit);
    let x = f.param(&ctx, 0).as_value();
    b.create_ret(&mut ctx, x);
    b.position_at_end(&ctx, entry);
    let c = b.create_cmp(&mut ctx, x, x, llvm_ir::Predicate::Equal);
    b.create_cond_br(&mut ctx, c, exit, None);
    assert!(!module.verify(&ctx).unwrap_err().is_empty());
}

#[test]
fn lookups_by_name() {
    let mut ctx = Context::new();
    let mut module = Module::new("m");
    let (f, _) = one_block_function(&mut ctx, &mut module, "f");
    let (g, _) = one_block_function(&mut ctx, &mut module, "g");
    assert_eq!(Some(f), module.get_function(&ctx, "f"));
    assert_eq!(Some(g), module.get_function(&ctx, "g"));
    assert_eq!(None, module.get_function(&ctx, "h"));

    let i8t = Type::i8_ty(&mut ctx);
    let gv = module.add_global(&mut ctx, "flag", i8t);
    assert_eq!(Some(gv), module.get_global(&ctx, "flag"));
    assert_eq!(None, module.get_global(&ctx, "f"));

    let node = StructType::new_named(&mut ctx, "node", &[i8t], false);
    assert_eq!(Some(node.as_type()), module.get_type(&ctx, "node"));
    assert_eq!(None, module.get_type(&ctx, "edge"));
}

#[test]
fn globals_in_address_spaces_and_constants() {
    let mut ctx = Context::new();
    let mut module = Module::new("m");
    let i32t = Type::i32_ty(&mut ctx);
    let shared = module.add_global_in_addr_space(&mut ctx, "s", i32t, AddressSpace::Shared);
    assert_eq!("i32 addrspace(3)*", shared.as_value().get_type(&ctx).to_string(&ctx));
    let generic = module.add_global_in_addr_space(&mut ctx, "g", i32t, AddressSpace::Generic);
    assert_eq!("i32*", generic.as_value().get_type(&ctx).to_string(&ctx));
    let seven = Value::new_int(&mut ctx, i32t, 7);
    let k = module.add_global_constant(&mut ctx, "k", seven);
    assert_eq!(Some(seven), k.get_initializer(&ctx));
    assert_eq!("i32*", k.as_value().get_type(&ctx).to_string(&ctx));
    assert_eq!(Some("k"), k.as_value().get_name(&ctx));
}

#[test]
fn iterators_yield_in_declaration_order() {
    let mut ctx = Context::new();
    let mut module = Module::new("m");
    assert_eq!(None, module.functions().next());
    assert_eq!(None, module.global_values().next());
    let (f, _) = one_block_function(&mut ctx, &mut module, "f");
    let (g, _) = one_block_function(&mut ctx, &mut module, "g");
    let (h, _) = one_block_function(&mut ctx, &mut module, "h");
    let i8t = Type::i8_ty(&mut ctx);
    let a = module.add_global(&mut ctx, "a", i8t);
    let b = module.add_global(&mut ctx, "b", i8t);

    let mut it = module.functions();
    assert_eq!(Some(f), it.next());
    assert_eq!(Some(g), it.next());
    assert_eq!(Some(h), it.next());
    assert_eq!(None, it.next());
    assert_eq!(None, it.next());
    let mut again = module.functions();
    assert_eq!(Some(f), again.next());

    let mut gs = module.global_values();
    assert_eq!(Some(a), gs.next());
    assert_eq!(Some(b), gs.next());
    assert_eq!(None, gs.next());
}

#[test]
fn link_merges_or_reports_a_clash() {
    let mut ctx = Context::new();
    let mut dest = Module::new("dest");
    let mut src = Module::new("src");
    let (f, _) = one_block_function(&mut ctx, &mut dest, "f");
    let (g, _) = one_block_function(&mut ctx, &mut src, "g");
    let i8t = Type::i8_ty(&mut ctx);
    let x = src.add_global(&mut ctx, "x", i8t);
    assert_eq!(Ok(()), dest.link(&ctx, &src));
    assert_eq!(vec![f, g], dest.functions);
    assert_eq!(vec![x], dest.globals);
    assert_eq!(vec![g], src.functions);

    // Two definitions of `g`.
    let mut again = Module::new("again");
    let (_g2, _) = one_block_function(&mut ctx, &mut again, "g");
    let err = dest.link_destroy(&ctx, again).unwrap_err();
    assert!(err.contains("g"));
    assert_eq!(vec![f, g], dest.functions);

    // Two external globals named `x` merge into one.
    let mut globals = Module::new("globals");
    let x2 = globals.add_global(&mut ctx, "x", i8t);
    assert_eq!(Ok(()), dest.link(&ctx, &globals));
    assert_eq!(vec![x], dest.globals);

    // A definition takes the place of a declaration.
    let mut defs = Module::new("defs");
    let one = Value::new_int(&mut ctx, i8t, 1);
    let x3 = defs.add_global_constant(&mut ctx, "x", one);
    assert_eq!(Ok(()), dest.link(&ctx, &defs));
    assert_eq!(vec![x3], dest.globals);
    // ... and a second definition of it clashes.
    let mut more = Module::new("more");
    let two = Value::new_int(&mut ctx, i8t, 2);
    more.add_global_constant(&mut ctx, "x", two);
    assert!(dest.link(&ctx, &more).is_err());
    assert_eq!(vec![x3], dest.globals);
    let _ = x2;

    let mut unnamed = Module::new("unnamed");
    let u1 = unnamed.add_global(&mut ctx, "", i8t);
    let mut unnamed2 = Module::new("unnamed2");
    let u2 = unnamed2.add_global(&mut ctx, "", i8t);
    assert_eq!(Ok(()), unnamed.link_destroy(&ctx, unnamed2));
    assert_eq!(vec![u1, u2], unnamed.globals);
}

#[test]
fn link_merges_declarations_and_resolves_them_by_name() {
    let mut ctx = Context::new();
    let i32t = Type::i32_ty(&mut ctx);
    let sig = Type::function_ty(&mut ctx, i32t, &[i32t]);

    // Both modules only declare `h`: one entry is kept.
    let mut a = Module::new("a");
    let mut b = Module::new("b");
    let ha = a.add_function(&mut ctx, "h", sig.as_type());
    let hb = b.add_function(&mut ctx, "h", sig.as_type());
    assert_eq!(Ok(()), a.link(&ctx, &b));
    assert_eq!(vec![ha], a.functions);

    // `main` calls its own declaration of `h`; the definition comes from `lib`.
    let mut main_mod = Module::new("main");
    let (caller, entry) = one_block_function(&mut ctx, &mut main_mod, "caller");
    let decl = main_mod.add_function(&mut ctx, "h", sig.as_type());
    let mut bld = Builder::new();
    bld.position_at_end(&ctx, entry);
    let x = caller.param(&ctx, 0).as_value();
    let r = bld.create_call(&mut ctx, decl, &[x]);
    bld.create_ret(&mut ctx, r);
    assert_eq!(Ok(()), main_mod.verify(&ctx));

    let mut lib = Module::new("lib");
    let (def, def_entry) = one_block_function(&mut ctx, &mut lib, "h");
    bld.position_at_end(&ctx, def_entry);
    let y = def.param(&ctx, 0).as_value();
    bld.create_ret(&mut ctx, y);
    assert_eq!(Ok(()), main_mod.link(&ctx, &lib));
    assert_eq!(vec![caller, def], main_mod.functions);
    assert_eq!(Some(def), main_mod.get_function(&ctx, "h"));
    // The call still names the declaration, which now resolves to `def`.
    assert_eq!(Ok(()), main_mod.verify(&ctx));

    // A declaration meeting a definition keeps the definition.
    let mut late = Module::new("late");
    late.add_function(&mut ctx, "h", sig.as_type());
    assert_eq!(Ok(()), main_mod.link(&ctx, &late));
    assert_eq!(vec![caller, def], main_mod.functions);
    let _ = hb;
}

#[test]
fn calls_must_fit_the_signature() {
    let mut ctx = Context::new();
    let mut module = Module::new("m");
    let (f, entry) = one_block_function(&mut ctx, &mut module, "f");
    let mut b = Builder::new();
    b.position_at_end(&ctx, entry);
    let x = f.param(&ctx, 0).as_value();
    let r = b.create_call(&mut ctx, f, &[x, x]);
    b.create_ret(&mut ctx, r);
    assert!(!module.verify(&ctx).unwrap_err().is_empty());

    let mut m2 = Module::new("m2");
    let (g, g_entry) = one_block_function(&mut ctx, &mut m2, "g");
    b.position_at_end(&ctx, g_entry);
    let i64t = Type::i64_ty(&mut ctx);
    let wide = Value::new_int(&mut ctx, i64t, 3);
    let r = b.create_call(&mut ctx, g, &[wide]);
    b.create_ret(&mut ctx, r);
    assert!(!m2.verify(&ctx).unwrap_err().is_empty());
}

#[test]
fn branch_condition_must_be_i1() {
    let mut ctx = Context::new();
    let mut module = Module::new("m");
    let (f, entry) = one_block_function(&mut ctx, &mut module, "f");
    let exit = f.append(&mut ctx, "exit");
    let mut b = Builder::new();
    b.position_at_end(&ctx, exit);
    let x = f.param(&ctx, 0).as_value();
    b.create_ret(&mut ctx, x);
    b.position_at_end(&ctx, entry);
    b.create_cond_br(&mut ctx, x, exit, Some(exit));
    assert!(!module.verify(&ctx).unwrap_err().is_empty());
}

#[test]
fn memory_access_must_match_the_pointer() {
    let mut ctx = Context::new();
    let mut module = Module::new("m");
    let (f, entry) = one_block_function(&mut ctx, &mut module, "f");
    let mut b = Builder::new();
    b.position_at_end(&ctx, entry);
    let i64t = Type::i64_ty(&mut ctx);
    let slot = b.create_alloca(&mut ctx, i64t);
    let x = f.param(&ctx, 0).as_value();
    b.create_store(&mut ctx, x, slot);
    b.create_ret(&mut ctx, x);
    assert!(!module.verify(&ctx).unwrap_err().is_empty());
}

#[test]
fn switch_cases_must_be_constants_of_the_switched_type() {
    let mut ctx = Context::new();
    let mut module = Module::new("m");
    let (f, entry) = one_block_function(&mut ctx, &mut module, "f");
    let other = f.append(&mut ctx, "other");
    let mut b = Builder::new();
    b.position_at_end(&ctx, other);
    let x = f.param(&ctx, 0).as_value();
    b.create_ret(&mut ctx, x);
    b.position_at_end(&ctx, entry);
    b.create_switch(&mut ctx, x, other, &[(x, other)]);
    assert!(!module.verify(&ctx).unwrap_err().is_empty());
}

#[test]
fn use_before_definition_is_reported() {
    let mut ctx = Context::new();
    let mut module = Module::new("m");
    let (f, entry) = one_block_function(&mut ctx, &mut module, "f");
    let mut b = Builder::new();
    b.position_at_end(&ctx, entry);
    let x = f.param(&ctx, 0).as_value();
    let sum = b.create_add(&mut ctx, x, x);
    let ret = b.create_ret(&mut ctx, sum);
    assert_eq!(Ok(()), module.verify(&ctx));
    // An instruction placed before the one it uses.
    b.position_at(&ctx, entry, sum);
    b.create_add(&mut ctx, sum, x);
    assert!(!module.verify(&ctx).unwrap_err().is_empty());
    let _ = ret;
}

#[test]
fn target_and_data_layout() {
    let mut module = Module::new("m");
    assert_eq!("", module.get_target());
    module.set_target("x86_64-unknown-linux-gnu");
    assert_eq!("x86_64-unknown-linux-gnu", module.get_target());
    assert_eq!("", module.get_data_layout());
    module.set_data_layout("e-m:e-i64:64");
    assert_eq!("e-m:e-i64:64", module.get_data_layout());
    assert_eq!("x86_64-unknown-linux-gnu", module.get_target());
}

#[test]
fn memory_buffer_holds_text() {
    let buf = MemoryBuffer::new(String::from("; ModuleID = 'm'"));
    assert_eq!("; ModuleID = 'm'", buf.as_str());
}

#[test]
fn phi_incoming_block_must_branch_to_it() {
    let mut ctx = Context::new();
    let mut module = Module::new("m");
    let (f, entry) = one_block_function(&mut ctx, &mut module, "f");
    let side = f.append(&mut ctx, "side");
    let merge = f.append(&mut ctx, "merge");
    let mut b = Builder::new();
    let x = f.param(&ctx, 0).as_value();
    b.position_at_end(&ctx, entry);
    b.create_br(&mut ctx, merge);
    b.position_at_end(&ctx, side);
    b.create_br(&mut ctx, merge);
    b.position_at_end(&ctx, merge);
    let i32t = Type::i32_ty(&mut ctx);
    let phi = b.create_phi(&mut ctx, i32t, "v");
    phi.add_incoming(&mut ctx, x, entry);
    b.create_ret(&mut ctx, phi.as_value());
    assert_eq!(Ok(()), module.verify(&ctx));

    // `merge` is no successor of itself.
    phi.add_incoming(&mut ctx, x, merge);
    assert!(!module.verify(&ctx).unwrap_err().is_empty());
}

#[test]
fn well_formedness_can_be_tested() {
    let mut ctx = Context::new();
    let mut module = Module::new("m");
    assert!(ctx.is_well_formed());
    let (f, entry) = one_block_function(&mut ctx, &mut module, "f");
    let mut b = Builder::new();
    b.position_at_end(&ctx, entry);
    let x = f.param(&ctx, 0).as_value();
    b.create_ret(&mut ctx, x);
    assert!(ctx.is_well_formed());
    assert!(module.is_well_formed(&ctx));

    // A module naming a value that is not a function.
    let mut odd = Module::new("odd");
    odd.functions.push(llvm_ir::Function { index: x.index });
    assert!(!odd.is_well_formed(&ctx));

    // A block naming an instruction past the end of the arena.
    ctx.blocks[entry.index].insts.push(Value { index: 1000 });
    assert!(!ctx.is_well_formed());
}
