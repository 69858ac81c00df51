//! The code generator, as the rest of the library sees it.
//!
//! Everything that calls into Cranelift stands here.  A function being compiled, the module that
//! knows the target, and the errors of the code generator are carried around as opaque values.  A
//! compiled stencil, which is machine code before the parameters of one particular function are
//! applied to it, is carried around in its serialized form, as plain bytes.

use cranelift_codegen::control::ControlPlane;
use cranelift_codegen::incremental_cache;
use cranelift_codegen::ir::ExternalName;
use cranelift_codegen::CodegenError;
use cranelift_codegen::Context;
use cranelift_codegen::FinalizedRelocTarget;
use cranelift_jit::JITModule;
use cranelift_module::FuncId;
use cranelift_module::Module;
use cranelift_module::ModuleReloc;
use cranelift_object::ObjectModule;
use vstd::prelude::*;

verus! {

/// Declares `cranelift_codegen::Context`: a function, together with the scratch space that
/// compiling it needs.
#[verifier::external_type_specification]
#[verifier::external_body]
pub struct ExContext(cranelift_codegen::Context);

/// Declares `cranelift_codegen::control::ControlPlane`, which carries no data unless Cranelift is
/// being fuzzed.
#[verifier::external_type_specification]
#[verifier::external_body]
pub struct ExControlPlane(cranelift_codegen::control::ControlPlane);

/// Declares `cranelift_codegen::CodegenError`: why a function could not be compiled.
#[verifier::external_type_specification]
#[verifier::external_body]
pub struct ExCodegenError(cranelift_codegen::CodegenError);

/// Declares `cranelift_object::ObjectModule`: the module being built, which knows its target.
#[verifier::external_type_specification]
#[verifier::external_body]
pub struct ExObjectModule(cranelift_object::ObjectModule);

/// Declares `cranelift_jit::JITModule`: a module whose code is run in this process.
#[verifier::external_type_specification]
#[verifier::external_body]
pub struct ExJITModule(cranelift_jit::JITModule);

/// Declares `cranelift_module::FuncId`: the number of a function within its module.
#[verifier::external_type_specification]
#[verifier::external_body]
pub struct ExFuncId(cranelift_module::FuncId);

/// Declares `cranelift_module::ModuleReloc`: a relocation against names of the module.
#[verifier::external_type_specification]
#[verifier::external_body]
pub struct ExModuleReloc(cranelift_module::ModuleReloc);

/// A module that functions are compiled for.  It knows its target.
#[derive(Clone, Copy)]
pub enum CodeModule<'a> {
    /// One that becomes an object file.
    Object(&'a ObjectModule),
    /// One whose code is run in this process.
    Jit(&'a JITModule),
}

/// Holds a `cranelift_codegen::CompiledCode`: the machine code bytes of one function, its
/// relocations in order, and the alignment that it asks for.
///
/// The type behind that name is generic over a trait that Cranelift does not export, so it cannot
/// be declared.
#[verifier::external_body]
pub struct CompiledFunction {
    pub code: cranelift_codegen::CompiledCode,
}

/// What a relocation in the code of a function refers to.
#[derive(Clone, Copy, PartialEq, Eq, Debug)]
pub enum RelocTarget {
    /// The name with this number in the name table of the function.
    UserName(u32),
    /// A name that only test cases use.
    TestCase,
    /// A function of the runtime library.
    LibCall,
    /// A symbol that the linker knows.
    KnownSymbol,
    /// This many bytes into the function itself.
    FunctionOffset(u32),
}

/// What a relocation against the names of a module refers to.
pub enum ModuleTarget {
    /// The name with this index in this namespace.
    User { namespace: u32, index: u32 },
    /// A function of the runtime library.
    LibCall,
    /// A symbol that the linker knows.
    KnownSymbol,
    /// This many bytes into the function with this number.
    FunctionOffset { func: FuncId, offset: u32 },
}

/// The basic blocks of the function in `ctx`, by number, in layout order.
pub uninterp spec fn layout_blocks(ctx: Context) -> Seq<u32>;

/// The source location from which the function in `ctx` counts its own locations.
pub uninterp spec fn base_srcloc(ctx: Context) -> u32;

/// The name table of the function in `ctx`: names, each a namespace and an index within it.
pub uninterp spec fn user_names(ctx: Context) -> Seq<(u32, u32)>;

/// The key under which code for the function in `ctx`, compiled for the target of `module`, may
/// be kept and reused.
pub uninterp spec fn function_key(module: CodeModule, ctx: Context) -> Seq<char>;

/// What compiling the function in `ctx` for the target of `module` gives.
pub uninterp spec fn compilation(module: CodeModule, ctx: Context, ctrl_plane: ControlPlane) -> Result<CompiledFunction, CodegenError>;

/// Compiling the function in `ctx` for the target of `module` comes to an end, with code or with an
/// error, and does not panic on the way.
pub uninterp spec fn compiles_normally(module: CodeModule, ctx: Context, ctrl_plane: ControlPlane) -> bool;

/// The code that the context holds from the last time its function was compiled in place.
pub uninterp spec fn held_code(ctx: Context) -> Option<CompiledFunction>;

/// The code that a serialized stencil becomes for a function whose source locations count from
/// `base`, or `None` where these bytes are no serialized stencil.
pub uninterp spec fn finished_code(stencil: Seq<u8>, base: u32) -> Option<CompiledFunction>;

/// The machine code of a compiled function.
pub uninterp spec fn machine_code(code: CompiledFunction) -> Seq<u8>;

/// The alignment that a compiled function asks for.
pub uninterp spec fn required_alignment(code: CompiledFunction) -> u32;

/// What the relocations of a compiled function refer to, in order.
pub uninterp spec fn reloc_targets(code: CompiledFunction) -> Seq<RelocTarget>;

/// Relocation `i` of a compiled function, against the names of the module that has the function
/// as number `func`, where `names` is the name table of the function.
pub uninterp spec fn module_reloc_at(code: CompiledFunction, i: int, names: Seq<(u32, u32)>, func: FuncId) -> ModuleReloc;

/// What a relocation against the names of a module refers to.
pub uninterp spec fn module_target(reloc: ModuleReloc) -> ModuleTarget;

/// What `target`, a target within the code of function number `func`, is among the names of the
/// module, given the name table of the function.
pub open spec fn resolved(target: RelocTarget, names: Seq<(u32, u32)>, func: FuncId) -> ModuleTarget {
    match target {
        RelocTarget::UserName(number) => ModuleTarget::User {
            namespace: names[number as int].0,
            index: names[number as int].1,
        },
        RelocTarget::LibCall => ModuleTarget::LibCall,
        RelocTarget::KnownSymbol => ModuleTarget::KnownSymbol,
        RelocTarget::FunctionOffset(offset) => ModuleTarget::FunctionOffset { func, offset },
        RelocTarget::TestCase => arbitrary(),
    }
}

/// These bytes are a serialized stencil: it can be finished for any function.
pub open spec fn is_stencil(stencil: Seq<u8>) -> bool {
    forall|base: u32| (#[trigger] finished_code(stencil, base)) is Some
}

/// A relocation that refers to `target` can be expressed against the names of a module, given a
/// name table of `names` entries.
pub open spec fn is_resolvable(target: RelocTarget, names: nat) -> bool {
    match target {
        RelocTarget::UserName(number) => number < names,
        RelocTarget::TestCase => false,
        _ => true,
    }
}

/// Calls `Layout::blocks` of `cranelift_codegen` and takes the block at position `n`.
///
/// Claimed: these are the blocks of the function in layout order, and there is no block at a
/// position from their number on.
#[verifier::external_body]
pub(crate) fn nth_block(ctx: &Context, n: usize) -> (block: Option<u32>)
    ensures
        block == (if n < layout_blocks(*ctx).len() {
            Some(layout_blocks(*ctx)[n as int])
        } else {
            None
        }),
{
    match ctx.func.layout.blocks().nth(n) {
        Some(block) => Some(block.as_u32()),
        None => None,
    }
}

/// Calls `incremental_cache::compute_cache_key` of `cranelift_codegen`, and writes the key, which
/// is the SHA-256 digest of the function and of the settings of the target, out as text.
///
/// Claimed: the key is determined by the module, through its target, and by the function.
#[verifier::external_body]
pub(crate) fn compute_cache_key(module: CodeModule, ctx: &Context) -> (key: String)
    ensures
        key@ == function_key(module, *ctx),
{
    let isa = match module {
        CodeModule::Object(module) => module.isa(),
        CodeModule::Jit(module) => module.isa(),
    };
    incremental_cache::compute_cache_key(isa, &ctx.func).to_string()
}

/// Calls `Context::compile` of `cranelift_codegen`, and hands out a copy of the code that it
/// leaves in the context.
///
/// Claimed: the outcome is determined by the module, through its target, by the context, and by
/// the control plane; the context then holds the code, or what it held before where there is none;
/// the name table and the base of the source locations stay as they are; and a call that returned
/// shows that compiling this function comes to an end.  Nothing is said of what else the passes of
/// the compiler make of the context.  Asked for: a function that compiling comes to an end on.  The
/// passes panic on a function without a block, and may panic on one that is not well formed or that
/// asks for something the back end of the target has no code for.
#[verifier::external_body]
pub(crate) fn compile(
    module: CodeModule,
    ctx: &mut Context,
    ctrl_plane: &mut ControlPlane,
) -> (code: Result<CompiledFunction, CodegenError>)
    requires
        compiles_normally(module, *old(ctx), *old(ctrl_plane)),
    ensures
        compiles_normally(module, *old(ctx), *old(ctrl_plane)),
        code == compilation(module, *old(ctx), *old(ctrl_plane)),
        held_code(*final(ctx)) == (match code {
            Ok(code) => Some(code),
            Err(_) => held_code(*old(ctx)),
        }),
        user_names(*final(ctx)) == user_names(*old(ctx)),
        base_srcloc(*final(ctx)) == base_srcloc(*old(ctx)),
{
    let isa = match module {
        CodeModule::Object(module) => module.isa(),
        CodeModule::Jit(module) => module.isa(),
    };
    match ctx.compile(isa, ctrl_plane) {
        Ok(code) => Ok(CompiledFunction { code: code.clone() }),
        Err(error) => Err(error.inner),
    }
}

/// Calls `Context::compile_stencil` of `cranelift_codegen`, and then
/// `incremental_cache::serialize_compiled` on the stencil, whose type Cranelift does not export.
///
/// Claimed: there is a stencil exactly where `Context::compile`, which is defined by way of this
/// function, gives code, with the same error otherwise; what was serialized can be finished for
/// any function; and finished for the function it was compiled from, it is the code that
/// `Context::compile` gives.  The code that the context holds, the name table and the base of the
/// source locations stay as they are.  Nothing is said of what else the passes of the compiler make
/// of the context, nor of the bytes, which need not be the same from one call to the next.
/// Serializing into memory that grows as needed does not fail.  Asked for: what `Context::compile`
/// asks for.
#[verifier::external_body]
pub(crate) fn compile_stencil(
    module: CodeModule,
    ctx: &mut Context,
    ctrl_plane: &mut ControlPlane,
) -> (stencil: Result<Vec<u8>, CodegenError>)
    requires
        compiles_normally(module, *old(ctx), *old(ctrl_plane)),
    ensures
        match stencil {
            Ok(stencil) => is_stencil(stencil@) && compilation(
                module,
                *old(ctx),
                *old(ctrl_plane),
            ) == Ok::<CompiledFunction, CodegenError>(
                finished_code(stencil@, base_srcloc(*old(ctx)))->0,
            ),
            Err(error) => compilation(module, *old(ctx), *old(ctrl_plane)) == Err::<
                CompiledFunction,
                CodegenError,
            >(error),
        },
        held_code(*final(ctx)) == held_code(*old(ctx)),
        user_names(*final(ctx)) == user_names(*old(ctx)),
        base_srcloc(*final(ctx)) == base_srcloc(*old(ctx)),
{
    let isa = match module {
        CodeModule::Object(module) => module.isa(),
        CodeModule::Jit(module) => module.isa(),
    };
    match ctx.compile_stencil(isa, ctrl_plane) {
        Ok(stencil) => Ok(
            incremental_cache::serialize_compiled(stencil).1.expect("Unable to serialize stencil"),
        ),
        Err(error) => Err(error),
    }
}

/// Calls `incremental_cache::try_finish_recompile` of `cranelift_codegen`, which reads a stencil
/// back and applies the parameters of the function to it.
///
/// Claimed: the outcome is determined by the bytes and by the base source location, the one
/// parameter that it applies.  Asked for: that the bytes are a serialized stencil, as what the call
/// makes of others is of no use.
#[verifier::external_body]
pub(crate) fn finish_stencil(ctx: &Context, stencil: &Vec<u8>) -> (code: Option<CompiledFunction>)
    requires
        is_stencil(stencil@),
    ensures
        code == finished_code(stencil@, base_srcloc(*ctx)),
{
    match incremental_cache::try_finish_recompile(&ctx.func, stencil) {
        Ok(code) => Some(CompiledFunction { code }),
        Err(_) => None,
    }
}

/// Reads the field `alignment` of the `MachBufferFinalized` of `cranelift_codegen`.
///
/// Claimed: it is the alignment that the code asks for.
#[verifier::external_body]
pub(crate) fn code_alignment(code: &CompiledFunction) -> (alignment: u32)
    ensures
        alignment == required_alignment(*code),
{
    code.code.buffer.alignment
}

/// Calls `MachBufferFinalized::data` of `cranelift_codegen`.
///
/// Claimed: it hands out the machine code.
#[verifier::external_body]
pub(crate) fn code_bytes(code: &CompiledFunction) -> (bytes: Vec<u8>)
    ensures
        bytes@ == machine_code(*code),
{
    code.code.buffer.data().to_vec()
}

/// Calls `MachBufferFinalized::relocs` of `cranelift_codegen`, and tells for each relocation what
/// it refers to.
///
/// Claimed: it hands out the relocations in order.
#[verifier::external_body]
pub(crate) fn code_relocs(code: &CompiledFunction) -> (targets: Vec<RelocTarget>)
    ensures
        targets@ == reloc_targets(*code),
{
    code.code.buffer.relocs().iter().map(|reloc| match &reloc.target {
        FinalizedRelocTarget::ExternalName(ExternalName::User(name)) => RelocTarget::UserName(name.as_u32()),
        FinalizedRelocTarget::ExternalName(ExternalName::TestCase(_)) => RelocTarget::TestCase,
        FinalizedRelocTarget::ExternalName(ExternalName::LibCall(_)) => RelocTarget::LibCall,
        FinalizedRelocTarget::ExternalName(ExternalName::KnownSymbol(_)) => RelocTarget::KnownSymbol,
        FinalizedRelocTarget::Func(offset) => RelocTarget::FunctionOffset(*offset),
    }).collect()
}

/// Calls `FunctionParameters::user_named_funcs` of `cranelift_codegen` and counts the entries.
///
/// Claimed: it is the name table of the function.
#[verifier::external_body]
pub(crate) fn count_user_names(ctx: &Context) -> (count: usize)
    ensures
        count == user_names(*ctx).len(),
{
    ctx.func.params.user_named_funcs().len()
}

/// Calls `ModuleReloc::from_mach_reloc` of `cranelift_module` on relocation `i`.
///
/// Claimed: the outcome is determined by the relocation, by the name table of the function, and
/// by the number of the function; it refers to the name that the name table has for the relocation,
/// to the function with the given number where the relocation refers to the function itself, and to
/// a function of the runtime library or a symbol of the linker just where the relocation does.
/// Asked for: that the relocation refers to an entry of that name
/// table, if to any, and not to the name of a test case; the call panics otherwise.
#[verifier::external_body]
pub(crate) fn module_reloc(code: &CompiledFunction, i: usize, ctx: &Context, func: FuncId) -> (reloc: ModuleReloc)
    requires
        i < reloc_targets(*code).len(),
        is_resolvable(reloc_targets(*code)[i as int], user_names(*ctx).len()),
    ensures
        reloc == module_reloc_at(*code, i as int, user_names(*ctx), func),
        module_target(reloc) == resolved(reloc_targets(*code)[i as int], user_names(*ctx), func),
{
    ModuleReloc::from_mach_reloc(&code.code.buffer.relocs()[i], &ctx.func, func)
}

} // verus!
