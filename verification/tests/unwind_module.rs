use cg_clif_daemon::codegen::CodeModule;
use cg_clif_daemon::codegen::CompiledFunction;
use cg_clif_daemon::unwind_module::after_definition;
use cg_clif_daemon::unwind_module::carry_out;
use cg_clif_daemon::unwind_module::compile_with_cache;
use cg_clif_daemon::unwind_module::is_worth_caching;
use cg_clif_daemon::unwind_module::plan_compilation;
use cg_clif_daemon::unwind_module::CompilePlan;
use cg_clif_daemon::unwind_module::DefinitionError;
use cg_clif_daemon::unwind_module::InMemoryCache;
use cg_clif_daemon::unwind_module::UnwindModule;
use cranelift_codegen::control::ControlPlane;
use cranelift_codegen::cursor::Cursor;
use cranelift_codegen::cursor::FuncCursor;
use cranelift_codegen::ir::types;
use cranelift_codegen::ir::AbiParam;
use cranelift_codegen::ir::Block;
use cranelift_codegen::ir::ExtFuncData;
use cranelift_codegen::ir::ExternalName;
use cranelift_codegen::ir::Function;
use cranelift_codegen::ir::GlobalValueData;
use cranelift_codegen::ir::InstBuilder;
use cranelift_codegen::ir::Signature;
use cranelift_codegen::ir::SourceLoc;
use cranelift_codegen::ir::UserExternalName;
use cranelift_codegen::ir::UserFuncName;
use cranelift_codegen::isa;
use cranelift_codegen::isa::CallConv;
use cranelift_codegen::isa::OwnedTargetIsa;
use cranelift_codegen::settings;
use cranelift_codegen::settings::Configurable;
use cranelift_codegen::Context;
use cranelift_jit::JITBuilder;
use cranelift_jit::JITModule;
use cranelift_module::FuncId;
use cranelift_module::Linkage;
use cranelift_module::Module;
use cranelift_module::ModuleReloc;
use cranelift_module::ModuleRelocTarget;
use cranelift_object::ObjectBuilder;
use cranelift_object::ObjectModule;

fn target(verifier: &str) -> OwnedTargetIsa {
    let mut builder = settings::builder();
    builder.set("enable_verifier", verifier).unwrap();
    let flags = settings::Flags::new(builder);
    isa::lookup_by_name("x86_64-unknown-linux-gnu").unwrap().finish(flags).unwrap()
}

fn module_for(isa: OwnedTargetIsa) -> ObjectModule {
    let names = cranelift_module::default_libcall_names();
    ObjectModule::new(ObjectBuilder::new(isa, "test", names).unwrap())
}

fn object_module() -> ObjectModule {
    module_for(target("true"))
}

fn signature() -> Signature {
    let mut signature = Signature::new(CallConv::SystemV);
    signature.returns.push(AbiParam::new(types::I64));
    signature
}

/// A function of so many blocks that returns `value`, and whose source begins at `line`.
fn function(blocks: usize, value: i64, line: u32) -> Context {
    let name = UserFuncName::user(0, 0);
    let mut func = Function::with_name_signature(name, signature());
    let made: Vec<Block> = (0..blocks).map(|_| func.dfg.make_block()).collect();
    let mut pos = FuncCursor::new(&mut func);
    pos.set_srcloc(SourceLoc::new(line));
    for (i, block) in made.iter().enumerate() {
        pos.insert_block(*block);
        if i + 1 < blocks {
            pos.ins().jump(made[i + 1], &[]);
        } else {
            let value = pos.ins().iconst(types::I64, value);
            pos.ins().return_(&[value]);
        }
    }
    Context::for_function(func)
}

/// A function of so many blocks that calls the function called `name`.
fn calling(blocks: usize, name: impl Fn(&mut Function) -> ExternalName) -> Context {
    let mut ctx = function(blocks, 1, 1);
    let name = name(&mut ctx.func);
    let signature = ctx.func.import_signature(signature());
    let callee = ctx.func.import_function(ExtFuncData {
        name,
        signature,
        colocated: false,
        patchable: false,
    });
    let entry = ctx.func.layout.entry_block().unwrap();
    let mut pos = FuncCursor::new(&mut ctx.func).at_first_insertion_point(entry);
    pos.ins().call(callee, &[]);
    ctx
}

fn calling_user(blocks: usize, namespace: u32, index: u32) -> Context {
    calling(blocks, |func| {
        let name = UserExternalName::new(namespace, index);
        ExternalName::user(func.declare_imported_user_function(name))
    })
}

fn calling_test_case(blocks: usize) -> Context {
    calling(blocks, |_| ExternalName::testcase("nowhere"))
}

/// A function without an end, which the code generator rejects.
fn endless(blocks: usize) -> Context {
    let mut ctx = function(blocks, 1, 1);
    let last = ctx.func.layout.last_block().unwrap();
    let end = ctx.func.layout.last_inst(last).unwrap();
    ctx.func.layout.remove_inst(end);
    ctx
}

fn compile(module: &mut UnwindModule, ctx: &mut Context) -> CompiledFunction {
    module.compile_function(ctx, &mut ControlPlane::default()).unwrap()
}

/// What Cranelift makes of a function, without any of the code under test.
fn expected(mut ctx: Context) -> Vec<u8> {
    let module = object_module();
    let code = ctx.compile(module.isa(), &mut ControlPlane::default()).unwrap();
    code.buffer.data().to_vec()
}

fn bytes(code: &CompiledFunction) -> Vec<u8> {
    code.code.buffer.data().to_vec()
}

fn is_cached(module: &UnwindModule, ctx: &Context) -> bool {
    module.cache.as_ref().is_some_and(|cache| cache.find(CodeModule::Object(&module.module), ctx).is_ok())
}

fn callee(reloc: &ModuleReloc) -> Option<(u32, u32)> {
    match reloc.name {
        ModuleRelocTarget::User { namespace, index } => Some((namespace, index)),
        _ => None,
    }
}

#[test]
fn small_functions_are_not_worth_caching() {
    assert!(!is_worth_caching(&function(1, 7, 1)));
    assert!(!is_worth_caching(&function(2, 7, 1)));
    assert!(is_worth_caching(&function(3, 7, 1)));
    assert!(is_worth_caching(&function(4, 7, 1)));
    assert!(!is_worth_caching(&Context::new()));
}

#[test]
fn compiling_fills_the_cache() {
    let mut module = UnwindModule::new(object_module(), Some(InMemoryCache::default()));
    assert!(!is_cached(&module, &function(3, 7, 1)));
    let code = compile(&mut module, &mut function(3, 7, 1));
    assert_eq!(bytes(&code), expected(function(3, 7, 1)));
    assert!(is_cached(&module, &function(3, 7, 1)));
    assert!(!is_cached(&module, &function(3, 8, 1)));
}

#[test]
fn small_functions_bypass_the_cache() {
    let mut module = UnwindModule::new(object_module(), Some(InMemoryCache::default()));
    for blocks in [1, 2] {
        let code = compile(&mut module, &mut function(blocks, 7, 1));
        assert_eq!(bytes(&code), expected(function(blocks, 7, 1)));
        assert!(!is_cached(&module, &function(blocks, 7, 1)));
    }
}

#[test]
fn a_cache_is_not_needed() {
    let mut module = UnwindModule::new(object_module(), None);
    let code = compile(&mut module, &mut function(5, 7, 1));
    assert_eq!(bytes(&code), expected(function(5, 7, 1)));
    assert!(module.cache.is_none());
}

#[test]
fn cached_code_is_reused() {
    let mut module = UnwindModule::new(object_module(), Some(InMemoryCache::default()));
    let first = compile(&mut module, &mut function(3, 7, 1));
    let mut ctx = function(3, 7, 1);
    let second = compile(&mut module, &mut ctx);
    assert_eq!(bytes(&second), bytes(&first));
    assert_eq!(second.code.buffer.alignment, first.code.buffer.alignment);
    // The function was not touched by the passes of the code generator.
    assert_eq!(ctx.func.display().to_string(), function(3, 7, 1).func.display().to_string());
    let other = compile(&mut module, &mut function(3, 8, 1));
    assert_eq!(bytes(&other), expected(function(3, 8, 1)));
    assert_ne!(bytes(&other), bytes(&first));
    assert!(is_cached(&module, &function(3, 7, 1)));
}

#[test]
fn code_of_moved_functions_is_reused() {
    let mut module = UnwindModule::new(object_module(), Some(InMemoryCache::default()));
    let first = compile(&mut module, &mut function(3, 7, 100));
    assert!(is_cached(&module, &function(3, 7, 900)));
    let second = compile(&mut module, &mut function(3, 7, 900));
    assert_eq!(bytes(&second), bytes(&first));
    let line = |code: &CompiledFunction| {
        code.code.buffer.get_srclocs_sorted().iter().map(|loc| loc.loc.bits()).min().unwrap()
    };
    assert_eq!(line(&first), 100);
    assert_eq!(line(&second), 900);
}

#[test]
fn rejected_functions_are_not_cached() {
    for cache in [None, Some(InMemoryCache::default())] {
        let mut module = UnwindModule::new(object_module(), cache);
        for blocks in [1, 4] {
            let mut ctx = endless(blocks);
            let compiled = module.compile_function(&mut ctx, &mut ControlPlane::default());
            assert!(compiled.is_err());
            assert!(!is_cached(&module, &endless(blocks)));
            let definition = module.define_function_with_control_plane(
                FuncId::from_u32(0),
                &mut endless(blocks),
                &mut ControlPlane::default(),
            );
            assert!(matches!(definition, Err(DefinitionError::Compilation(_))));
        }
    }
}

#[test]
fn a_cache_can_be_used_directly() {
    let object = object_module();
    let module = CodeModule::Object(&object);
    let mut cache = InMemoryCache::default();
    let mut ctrl_plane = ControlPlane::default();
    let mut first = function(3, 7, 1);
    let code = compile_with_cache(module, &mut first, &mut ctrl_plane, &mut cache).unwrap();
    assert_eq!(bytes(&code), expected(function(3, 7, 1)));
    assert_eq!(bytes(&cache.find(module, &function(3, 7, 1)).unwrap()), bytes(&code));
    let key = cache.find(module, &function(3, 9, 1)).err().unwrap();
    assert!(cache.get(&key).is_none());
    let mut second = function(3, 9, 1);
    compile_with_cache(module, &mut second, &mut ctrl_plane, &mut cache).unwrap();
    assert!(cache.get(&key).is_some());
    let mut third = endless(3);
    assert!(compile_with_cache(module, &mut third, &mut ctrl_plane, &mut cache).is_err());
}

#[test]
fn a_cache_can_be_shared() {
    let object = object_module();
    let module = CodeModule::Object(&object);
    let mut cache = InMemoryCache::default();
    let mut ctrl_plane = ControlPlane::default();
    let mut ctx = function(3, 7, 1);
    let plan = plan_compilation(module, &ctx, Some(&cache));
    assert!(matches!(plan, CompilePlan::Fill(_)));
    let (code, entry) = carry_out(plan, module, &mut ctx, &mut ctrl_plane).unwrap();
    assert_eq!(bytes(&code), expected(function(3, 7, 1)));
    cache.insert(entry.unwrap());

    let mut ctx = function(3, 7, 1);
    let plan = plan_compilation(module, &ctx, Some(&cache));
    assert!(matches!(plan, CompilePlan::Reuse(_)));
    let (code, entry) = carry_out(plan, module, &mut ctx, &mut ctrl_plane).unwrap();
    assert_eq!(bytes(&code), expected(function(3, 7, 1)));
    assert!(entry.is_none());

    for (mut ctx, cache) in [(function(3, 7, 1), None), (function(2, 7, 1), Some(&cache))] {
        let compiled = expected(function(if cache.is_none() { 3 } else { 2 }, 7, 1));
        let plan = plan_compilation(module, &ctx, cache);
        assert!(matches!(plan, CompilePlan::Bypass));
        let (code, entry) = carry_out(plan, module, &mut ctx, &mut ctrl_plane).unwrap();
        assert_eq!(bytes(&code), compiled);
        assert!(entry.is_none());
    }

    let mut ctx = endless(3);
    let plan = plan_compilation(module, &ctx, Some(&cache));
    assert!(carry_out(plan, module, &mut ctx, &mut ctrl_plane).is_err());
}

#[test]
fn definitions_hold_the_code() {
    let mut module = UnwindModule::new(object_module(), Some(InMemoryCache::default()));
    let func = module.module.declare_function("f", Linkage::Export, &signature()).unwrap();
    let definition = module
        .define_function_with_control_plane(
            func,
            &mut function(3, 7, 1),
            &mut ControlPlane::default(),
        )
        .ok()
        .unwrap();
    assert_eq!(definition.bytes, expected(function(3, 7, 1)));
    assert_eq!(definition.alignment, u64::from(definition.code.code.buffer.alignment));
    assert!(definition.relocs.is_empty());
    let defined = module.module.define_function_bytes(
        func,
        definition.alignment,
        &definition.bytes,
        &definition.relocs,
    );
    assert!(defined.is_ok());
}

#[test]
fn relocations_name_the_callee() {
    for (blocks, namespace, index) in [(1, 0, 5), (3, 0, 5), (3, 0, 6), (3, 1, 8)] {
        let mut module = UnwindModule::new(object_module(), Some(InMemoryCache::default()));
        let definition = module
            .define_function_with_control_plane(
                FuncId::from_u32(2),
                &mut calling_user(blocks, namespace, index),
                &mut ControlPlane::default(),
            )
            .ok()
            .unwrap();
        assert_eq!(definition.relocs.len(), 1);
        assert_eq!(callee(&definition.relocs[0]), Some((namespace, index)));
        let relocs = definition.code.code.buffer.relocs();
        assert_eq!(definition.relocs[0].offset, relocs[0].offset);
        assert_eq!(definition.relocs[0].addend, relocs[0].addend);
    }
}

#[test]
fn reused_code_names_the_callee_of_the_new_function() {
    let mut module = UnwindModule::new(object_module(), Some(InMemoryCache::default()));
    for index in [5, 6] {
        let definition = module
            .define_function_with_control_plane(
                FuncId::from_u32(2),
                &mut calling_user(3, 0, index),
                &mut ControlPlane::default(),
            )
            .ok()
            .unwrap();
        assert_eq!(callee(&definition.relocs[0]), Some((0, index)));
        assert!(is_cached(&module, &calling_user(3, 0, 7)));
    }
}

#[test]
fn names_of_test_cases_are_not_resolved() {
    for blocks in [1, 3] {
        let mut module = UnwindModule::new(object_module(), Some(InMemoryCache::default()));
        let definition = module.define_function_with_control_plane(
            FuncId::from_u32(0),
            &mut calling_test_case(blocks),
            &mut ControlPlane::default(),
        );
        assert!(matches!(definition, Err(DefinitionError::UnresolvableRelocation)));
    }
}

/// A function that the verifier rejects, for a global value that it never uses.
fn with_unused_global(blocks: usize) -> Context {
    let mut ctx = function(blocks, 7, 1);
    ctx.func.create_global_value(GlobalValueData::VMContext);
    ctx
}

#[test]
fn the_verifier_may_be_left_out() {
    let func = FuncId::from_u32(0);
    for (verifier, defined) in [("true", false), ("false", true)] {
        for blocks in [2, 3] {
            let cache = Some(InMemoryCache::default());
            let mut module = UnwindModule::new(module_for(target(verifier)), cache);
            let definition = module.define_function_with_control_plane(
                func,
                &mut with_unused_global(blocks),
                &mut ControlPlane::default(),
            );
            assert_eq!(is_cached(&module, &with_unused_global(blocks)), defined && blocks == 3);
            match definition {
                Ok(definition) => {
                    assert!(defined);
                    assert_eq!(definition.bytes, expected(function(blocks, 7, 1)));
                }
                Err(error) => {
                    assert!(!defined);
                    assert!(matches!(error, DefinitionError::Compilation(_)));
                }
            }
        }
    }
}

#[test]
fn code_is_left_in_the_context_without_a_cache() {
    for (blocks, cache) in [(1, Some(InMemoryCache::default())), (3, None)] {
        let mut module = UnwindModule::new(object_module(), cache);
        let mut ctx = function(blocks, 7, 1);
        assert!(ctx.compiled_code().is_none());
        let code = compile(&mut module, &mut ctx);
        assert_eq!(ctx.compiled_code().unwrap().buffer.data(), bytes(&code));
    }
    let mut module = UnwindModule::new(object_module(), Some(InMemoryCache::default()));
    for _ in 0..2 {
        let mut ctx = function(3, 7, 1);
        compile(&mut module, &mut ctx);
        assert!(ctx.compiled_code().is_none());
    }
}

#[test]
fn only_accepted_definitions_are_unwound() {
    let mut module = UnwindModule::new(object_module(), None);
    let func = module.module.declare_function("f", Linkage::Export, &signature()).unwrap();
    // A function can be defined once.
    for accepted in [true, false] {
        let mut ctx = function(2, 7, 1);
        let definition = module
            .define_function_with_control_plane(func, &mut ctx, &mut ControlPlane::default())
            .ok()
            .unwrap();
        let outcome = module.module.define_function_bytes(
            func,
            definition.alignment,
            &definition.bytes,
            &definition.relocs,
        );
        match after_definition(outcome, definition) {
            Ok(code) => {
                assert!(accepted);
                assert_eq!(bytes(&code), expected(function(2, 7, 1)));
            }
            Err(error) => {
                assert!(!accepted);
                assert!(matches!(error, cranelift_module::ModuleError::DuplicateDefinition(_)));
            }
        }
    }
}

#[test]
fn a_cache_does_not_change_definitions() {
    let mut without = UnwindModule::new(object_module(), None);
    let mut with = UnwindModule::new(object_module(), Some(InMemoryCache::default()));
    for _ in 0..2 {
        for blocks in [1, 2, 3, 4] {
            let func = FuncId::from_u32(2);
            let define = |module: &mut UnwindModule| {
                let mut ctx = calling_user(blocks, 0, 5);
                module
                    .define_function_with_control_plane(func, &mut ctx, &mut ControlPlane::default())
                    .ok()
                    .unwrap()
            };
            let (plain, cached) = (define(&mut without), define(&mut with));
            assert_eq!(cached.alignment, plain.alignment);
            assert_eq!(cached.bytes, plain.bytes);
            assert_eq!(cached.relocs.len(), plain.relocs.len());
            for (a, b) in cached.relocs.iter().zip(&plain.relocs) {
                assert_eq!((a.offset, a.addend, callee(a)), (b.offset, b.addend, callee(b)));
            }
        }
    }
}

#[test]
fn later_compilations_find_what_earlier_ones_left() {
    let object = object_module();
    let module = CodeModule::Object(&object);
    let mut cache = InMemoryCache::default();
    let mut ctrl_plane = ControlPlane::default();
    for value in 0..5 {
        let mut ctx = function(3, value, 1);
        assert!(cache.find(module, &ctx).is_err());
        compile_with_cache(module, &mut ctx, &mut ctrl_plane, &mut cache).unwrap();
        for earlier in 0..=value {
            let code = cache.find(module, &function(3, earlier, 1)).unwrap();
            assert_eq!(bytes(&code), expected(function(3, earlier, 1)));
        }
    }
}

#[test]
fn modules_of_both_kinds_share_a_cache() {
    let isa = target("true");
    let names = cranelift_module::default_libcall_names();
    let jit = JITModule::new(JITBuilder::with_isa(isa.clone(), names));
    let object = module_for(isa);
    let mut cache = InMemoryCache::default();
    let mut ctrl_plane = ControlPlane::default();
    let mut ctx = function(3, 7, 1);
    let module = CodeModule::Jit(&jit);
    let code = compile_with_cache(module, &mut ctx, &mut ctrl_plane, &mut cache).unwrap();
    assert_eq!(bytes(&code), expected(function(3, 7, 1)));
    let found = cache.find(CodeModule::Object(&object), &function(3, 7, 1)).unwrap();
    assert_eq!(bytes(&found), bytes(&code));
    let mut ctx = function(1, 7, 1);
    let plan = plan_compilation(module, &ctx, Some(&cache));
    let (code, _) = carry_out(plan, module, &mut ctx, &mut ctrl_plane).unwrap();
    assert_eq!(bytes(&code), expected(function(1, 7, 1)));
}

#[test]
fn code_with_a_disassembly_has_the_same_definition() {
    let mut module = UnwindModule::new(object_module(), Some(InMemoryCache::default()));
    let mut ctx = function(3, 7, 100);
    ctx.set_disasm(true);
    let first = compile(&mut module, &mut ctx);
    assert!(is_cached(&module, &function(3, 7, 900)));
    let second = compile(&mut module, &mut function(3, 7, 900));
    assert_eq!(bytes(&second), bytes(&first));
    assert_eq!(bytes(&second), expected(function(3, 7, 900)));
    assert_eq!(second.code.buffer.alignment, first.code.buffer.alignment);
}
