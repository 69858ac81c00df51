//! A module whose functions are compiled, where it pays, by way of a cache of compiled code.
//!
//! The cache outlives a compilation session: a daemon that compiles the same crate again and again
//! finds most functions compiled already.  It keeps stencils, under a key that covers the whole
//! function and the whole target, so that code for a function that moved within its source file
//! can be reused as well.

use crate::codegen::code_alignment;
use crate::codegen::code_bytes;
use crate::codegen::code_relocs;
use crate::codegen::compile;
use crate::codegen::compile_stencil;
use crate::codegen::compute_cache_key;
use crate::codegen::count_user_names;
use crate::codegen::finish_stencil;
use crate::codegen::module_reloc;
use crate::codegen::nth_block;
use crate::codegen::CodeModule;
use crate::codegen::CompiledFunction;
use crate::codegen::RelocTarget;
use cranelift_codegen::control::ControlPlane;
use cranelift_codegen::CodegenError;
use cranelift_codegen::Context;
use cranelift_module::FuncId;
use cranelift_module::ModuleReloc;
use cranelift_object::ObjectModule;
use vstd::hash_map::StringHashMap;
use vstd::prelude::*;

verus! {

/// A function with fewer blocks than this is compiled faster than its key is computed.
pub const CACHED_FROM_BLOCKS: usize = 3;

/// `stencil` finishes, for the function in `ctx`, to the code that compiling that function gives,
/// and `key` is the key of the function.
pub open spec fn compiled_from(
    key: Seq<char>,
    stencil: Seq<u8>,
    module: CodeModule,
    ctx: Context,
    ctrl_plane: ControlPlane,
) -> bool {
    let compiled = crate::codegen::compilation(module, ctx, ctrl_plane);
    &&& crate::codegen::function_key(module, ctx) == key
    &&& compiled is Ok
    &&& crate::codegen::finished_code(stencil, crate::codegen::base_srcloc(ctx)) == Some(
        compiled->Ok_0,
    )
}

/// `stencil` is a stencil that came from compiling some function whose key is `key`.
pub open spec fn belongs_under(key: Seq<char>, stencil: Seq<u8>) -> bool {
    &&& crate::codegen::is_stencil(stencil)
    &&& exists|module: CodeModule, ctx: Context, ctrl_plane: ControlPlane|
        compiled_from(key, stencil, module, ctx, ctrl_plane)
}

/// A stencil, and the key of the function that it came from compiling.
pub struct CacheEntry {
    key: String,
    stencil: Vec<u8>,
}

impl CacheEntry {
    /// The stencil came from compiling a function that has the key.
    #[verifier::type_invariant]
    spec fn well_formed(self) -> bool {
        belongs_under(self.key@, self.stencil@)
    }

    /// The key to keep the stencil under.
    pub closed spec fn key(self) -> Seq<char> {
        self.key@
    }

    /// The stencil.
    pub closed spec fn stencil(self) -> Seq<u8> {
        self.stencil@
    }
}

/// Stencils of functions compiled earlier, each under the key of the function.
pub struct InMemoryCache {
    stencils: StringHashMap<Vec<u8>>,
}

impl View for InMemoryCache {
    type V = Map<Seq<char>, Seq<u8>>;

    closed spec fn view(&self) -> Map<Seq<char>, Seq<u8>> {
        self.stencils@.map_values(|stencil: Vec<u8>| stencil@)
    }
}

impl InMemoryCache {
    /// Every stencil in the cache came from compiling a function that has the key under which the
    /// stencil is kept.
    #[verifier::type_invariant]
    spec fn well_formed(self) -> bool {
        forall|key: Seq<char>| #[trigger]
            self@.contains_key(key) ==> belongs_under(key, self@[key])
    }

    /// A copy of the stencil that is kept under `key`, if there is one.  It came from compiling a
    /// function that has this key.
    pub fn get(&self, key: &String) -> (stencil: Option<Vec<u8>>)
        ensures
            match stencil {
                Some(stencil) => {
                    &&& self@.contains_key(key@)
                    &&& stencil@ == self@[key@]
                    &&& belongs_under(key@, stencil@)
                },
                None => !self@.contains_key(key@),
            },
    {
        proof {
            use_type_invariant(self);
        }
        match self.stencils.get(key.as_str()) {
            Some(stencil) => Some(stencil.clone()),
            None => None,
        }
    }

    /// Keeps the stencil of `entry` under its key, in place of what was kept there.
    pub fn insert(&mut self, entry: CacheEntry)
        ensures
            final(self)@ == old(self)@.insert(entry.key(), entry.stencil()),
    {
        proof {
            use_type_invariant(&*self);
            use_type_invariant(&entry);
        }
        let ghost before = self@;
        let CacheEntry { key, stencil } = entry;
        let mut stencils: StringHashMap<Vec<u8>> = StringHashMap::new();
        std::mem::swap(&mut stencils, &mut self.stencils);
        stencils.insert(key, stencil);
        assert(stencils@.map_values(|stencil: Vec<u8>| stencil@) =~= before.insert(
            key@,
            stencil@,
        ));
        self.stencils = stencils;
    }

    /// Finishes the stencil that is kept under the key of the function in `ctx`, compiled for the
    /// target of `module`.  Where there is none, hands the key back.
    pub fn find(&self, module: CodeModule, ctx: &Context) -> (found: Result<CompiledFunction, String>)
        ensures
            match found {
                Ok(code) => {
                    let key = crate::codegen::function_key(module, *ctx);
                    &&& self@.contains_key(key)
                    &&& crate::codegen::finished_code(self@[key], crate::codegen::base_srcloc(*ctx))
                        == Some(code)
                    &&& belongs_under(key, self@[key])
                },
                Err(key) => {
                    &&& key@ == crate::codegen::function_key(module, *ctx)
                    &&& !self@.contains_key(key@)
                },
            },
    {
        let key = compute_cache_key(module, ctx);
        match self.get(&key) {
            Some(stencil) => Ok(finish_stencil(ctx, &stencil).unwrap()),
            None => Err(key),
        }
    }
}

impl Default for InMemoryCache {
    /// A cache that keeps nothing yet.
    fn default() -> (cache: Self)
        ensures
            cache@ == Map::<Seq<char>, Seq<u8>>::empty(),
    {
        let stencils: StringHashMap<Vec<u8>> = StringHashMap::new();
        assert(stencils@.map_values(|stencil: Vec<u8>| stencil@) =~= Map::<
            Seq<char>,
            Seq<u8>,
        >::empty());
        InMemoryCache { stencils }
    }
}

/// What compiling the function in `ctx` by way of the cache `before` comes to: `compiled` is the
/// outcome, `ctx_after` and `after` are what the context and the cache become.
///
/// Where the cache has a stencil under the key of the function, that stencil is finished for the
/// function, and neither the context nor the cache changes.  Where it has none, the function is
/// compiled, and its stencil is added to the cache unless compiling failed.  Either way the context
/// holds the code that it held before, and its name table and the base of its source locations stay
/// as they are.
pub open spec fn compiles_with_cache(
    module: CodeModule,
    ctx: Context,
    ctrl_plane: ControlPlane,
    before: Map<Seq<char>, Seq<u8>>,
    compiled: Result<CompiledFunction, CodegenError>,
    ctx_after: Context,
    ctrl_plane_after: ControlPlane,
    after: Map<Seq<char>, Seq<u8>>,
) -> bool {
    let key = crate::codegen::function_key(module, ctx);
    if before.contains_key(key) {
        &&& ctx_after == ctx
        &&& ctrl_plane_after == ctrl_plane
        &&& after == before
        &&& compiled == Ok::<CompiledFunction, CodegenError>(
            crate::codegen::finished_code(before[key], crate::codegen::base_srcloc(ctx))->0,
        )
    } else {
        &&& compiled == crate::codegen::compilation(module, ctx, ctrl_plane)
        &&& match compiled {
            Ok(code) => {
                &&& after == before.insert(key, after[key])
                &&& crate::codegen::finished_code(after[key], crate::codegen::base_srcloc(ctx))
                    == Some(code)
            },
            Err(_) => after == before,
        }
        &&& crate::codegen::held_code(ctx_after) == crate::codegen::held_code(ctx)
        &&& crate::codegen::user_names(ctx_after) == crate::codegen::user_names(ctx)
        &&& crate::codegen::base_srcloc(ctx_after) == crate::codegen::base_srcloc(ctx)
    }
}

/// Compiles the function in `ctx`, which has the key `key`, for the target of `module`.  Gives the
/// code, and the entry for a cache to keep.
pub fn compile_for_cache(
    module: CodeModule,
    ctx: &mut Context,
    ctrl_plane: &mut ControlPlane,
    key: String,
) -> (compiled: Result<(CompiledFunction, CacheEntry), CodegenError>)
    requires
        key@ == crate::codegen::function_key(module, *old(ctx)),
        crate::codegen::compiles_normally(module, *old(ctx), *old(ctrl_plane)),
    ensures
        match compiled {
            Ok((code, entry)) => {
                &&& crate::codegen::compilation(module, *old(ctx), *old(ctrl_plane)) == Ok::<
                    CompiledFunction,
                    CodegenError,
                >(code)
                &&& entry.key() == key@
                &&& crate::codegen::finished_code(
                    entry.stencil(),
                    crate::codegen::base_srcloc(*old(ctx)),
                ) == Some(code)
            },
            Err(error) => crate::codegen::compilation(module, *old(ctx), *old(ctrl_plane)) == Err::<
                CompiledFunction,
                CodegenError,
            >(error),
        },
        crate::codegen::held_code(*final(ctx)) == crate::codegen::held_code(*old(ctx)),
        crate::codegen::user_names(*final(ctx)) == crate::codegen::user_names(*old(ctx)),
        crate::codegen::base_srcloc(*final(ctx)) == crate::codegen::base_srcloc(*old(ctx)),
{
    match compile_stencil(module, ctx, ctrl_plane) {
        Ok(stencil) => {
            let code = finish_stencil(ctx, &stencil).unwrap();
            assert(compiled_from(
                key@,
                stencil@,
                module,
                *old(ctx),
                *old(ctrl_plane),
            ));
            Ok((code, CacheEntry { key, stencil }))
        },
        Err(error) => Err(error),
    }
}

/// Compiles the function in `ctx` for the target of `module`, by way of `cache`.  Where the cache
/// has no stencil for it, compiling must come to an end.
pub fn compile_with_cache(
    module: CodeModule,
    ctx: &mut Context,
    ctrl_plane: &mut ControlPlane,
    cache: &mut InMemoryCache,
) -> (compiled: Result<CompiledFunction, CodegenError>)
    requires
        old(cache)@.contains_key(crate::codegen::function_key(module, *old(ctx)))
            || crate::codegen::compiles_normally(module, *old(ctx), *old(ctrl_plane)),
    ensures
        compiles_with_cache(
            module,
            *old(ctx),
            *old(ctrl_plane),
            old(cache)@,
            compiled,
            *final(ctx),
            *final(ctrl_plane),
            final(cache)@,
        ),
{
    match cache.find(module, ctx) {
        Ok(code) => Ok(code),
        Err(key) => match compile_for_cache(module, ctx, ctrl_plane, key) {
            Ok((code, entry)) => {
                cache.insert(entry);
                Ok(code)
            },
            Err(error) => Err(error),
        },
    }
}

/// Whether the function in `ctx` has enough blocks for a cache to pay.
pub fn is_worth_caching(ctx: &Context) -> (yes: bool)
    ensures
        yes == (crate::codegen::layout_blocks(*ctx).len() >= CACHED_FROM_BLOCKS),
{
    nth_block(ctx, 1).is_some() && nth_block(ctx, 2).is_some()
}

/// How a function comes by its code.
pub enum CompilePlan {
    /// It is compiled, and no cache has to do with it.
    Bypass,
    /// It is not compiled: this is its code, of which the cache had the stencil.
    Reuse(CompiledFunction),
    /// It is compiled, and its stencil is kept under this key.
    Fill(String),
}

/// Decides how the function in `ctx` comes by its code, given the cache, if there is one.
///
/// Together with [`carry_out`] and [`InMemoryCache::insert`], this is for a cache that others use at
/// the same time: it is only read here, it is not needed while the function is being compiled, and
/// it is only changed at the end.
pub fn plan_compilation(module: CodeModule, ctx: &Context, cache: Option<&InMemoryCache>) -> (plan:
    CompilePlan)
    ensures
        plan is Bypass <==> cache is None || crate::codegen::layout_blocks(*ctx).len()
            < CACHED_FROM_BLOCKS,
        plan matches CompilePlan::Reuse(code) ==> {
            let key = crate::codegen::function_key(module, *ctx);
            &&& cache->0@.contains_key(key)
            &&& crate::codegen::finished_code(cache->0@[key], crate::codegen::base_srcloc(*ctx))
                == Some(code)
        },
        plan matches CompilePlan::Fill(key) ==> {
            &&& key@ == crate::codegen::function_key(module, *ctx)
            &&& !cache->0@.contains_key(key@)
        },
{
    match cache {
        Some(cache) => if is_worth_caching(ctx) {
            match cache.find(module, ctx) {
                Ok(code) => CompilePlan::Reuse(code),
                Err(key) => CompilePlan::Fill(key),
            }
        } else {
            CompilePlan::Bypass
        },
        None => CompilePlan::Bypass,
    }
}

/// Gives the function in `ctx` its code according to `plan`, together with an entry for the cache
/// to keep, if that is the plan.  Unless there is code to reuse, compiling must come to an end.
/// Where no cache has to do with it, the code is left in the context as well.
pub fn carry_out(
    plan: CompilePlan,
    module: CodeModule,
    ctx: &mut Context,
    ctrl_plane: &mut ControlPlane,
) -> (compiled: Result<(CompiledFunction, Option<CacheEntry>), CodegenError>)
    requires
        plan matches CompilePlan::Fill(key) ==> key@ == crate::codegen::function_key(
            module,
            *old(ctx),
        ),
        plan is Reuse || crate::codegen::compiles_normally(module, *old(ctx), *old(ctrl_plane)),
    ensures
        crate::codegen::held_code(*final(ctx)) == (match (plan, compiled) {
            (CompilePlan::Bypass, Ok((code, _))) => Some(code),
            _ => crate::codegen::held_code(*old(ctx)),
        }),
        crate::codegen::user_names(*final(ctx)) == crate::codegen::user_names(*old(ctx)),
        crate::codegen::base_srcloc(*final(ctx)) == crate::codegen::base_srcloc(*old(ctx)),
        match plan {
            CompilePlan::Reuse(code) => {
                &&& compiled == Ok::<(CompiledFunction, Option<CacheEntry>), CodegenError>(
                    (code, None),
                )
                &&& *final(ctx) == *old(ctx)
                &&& *final(ctrl_plane) == *old(ctrl_plane)
            },
            _ => match compiled {
                Ok((code, entry)) => {
                    &&& crate::codegen::compilation(module, *old(ctx), *old(ctrl_plane)) == Ok::<
                        CompiledFunction,
                        CodegenError,
                    >(code)
                    &&& entry is Some <==> plan is Fill
                    &&& entry matches Some(entry) ==> {
                        &&& entry.key() == plan->Fill_0@
                        &&& crate::codegen::finished_code(
                            entry.stencil(),
                            crate::codegen::base_srcloc(*old(ctx)),
                        ) == Some(code)
                    }
                },
                Err(error) => crate::codegen::compilation(module, *old(ctx), *old(ctrl_plane))
                    == Err::<CompiledFunction, CodegenError>(error),
            },
        },
{
    match plan {
        CompilePlan::Bypass => match compile(module, ctx, ctrl_plane) {
            Ok(code) => Ok((code, None)),
            Err(error) => Err(error),
        },
        CompilePlan::Reuse(code) => Ok((code, None)),
        CompilePlan::Fill(key) => match compile_for_cache(module, ctx, ctrl_plane, key) {
            Ok((code, entry)) => Ok((code, Some(entry))),
            Err(error) => Err(error),
        },
    }
}

/// A compiled function, ready to be handed to its module.
pub struct FunctionDefinition {
    /// The alignment that the code asks for.
    pub alignment: u64,
    /// The machine code.
    pub bytes: Vec<u8>,
    /// The relocations of the machine code, against the names of the module.
    pub relocs: Vec<ModuleReloc>,
    /// The compiled function itself, from which unwinding information is made.
    pub code: CompiledFunction,
}

impl FunctionDefinition {
    /// This is the definition of function number `func`, with the name table of `ctx`: the code
    /// may have been compiled for another function, but the names it refers to are those of this
    /// one.
    pub open spec fn defines(self, func: FuncId, ctx: Context) -> bool {
        &&& self.alignment == crate::codegen::required_alignment(self.code)
        &&& self.bytes@ == crate::codegen::machine_code(self.code)
        &&& self.relocs@ == Seq::new(
            crate::codegen::reloc_targets(self.code).len(),
            |i: int|
                crate::codegen::module_reloc_at(
                    self.code,
                    i,
                    crate::codegen::user_names(ctx),
                    func,
                ),
        )
        &&& forall|i: int|
            0 <= i < self.relocs@.len() ==> crate::codegen::module_target(#[trigger] self.relocs@[i])
                == crate::codegen::resolved(
                crate::codegen::reloc_targets(self.code)[i],
                crate::codegen::user_names(ctx),
                func,
            )
    }
}

/// Why there is no definition of a function.
pub enum DefinitionError {
    /// The code generator rejected the function.
    Compilation(CodegenError),
    /// A relocation refers to something that the module has no name for.
    UnresolvableRelocation,
}

/// Every relocation of `code` can be expressed against the names of a module, given the name
/// table of `ctx`.
pub open spec fn relocs_resolvable(code: CompiledFunction, ctx: Context) -> bool {
    forall|i: int|
        0 <= i < crate::codegen::reloc_targets(code).len() ==> crate::codegen::is_resolvable(
            #[trigger] crate::codegen::reloc_targets(code)[i],
            crate::codegen::user_names(ctx).len(),
        )
}

/// Whether a relocation that refers to `target` can be expressed, given a name table of `names`
/// entries.
fn resolvable(target: RelocTarget, names: usize) -> (yes: bool)
    ensures
        yes == crate::codegen::is_resolvable(target, names as nat),
{
    match target {
        RelocTarget::UserName(number) => (number as u64) < (names as u64),
        RelocTarget::TestCase => false,
        _ => true,
    }
}

/// Makes the definition of function number `func` from its code, where `ctx` is the context that
/// the function was compiled in.
pub fn define_compiled(func: FuncId, ctx: &Context, code: CompiledFunction) -> (definition: Option<FunctionDefinition>)
    ensures
        match definition {
            Some(definition) => {
                &&& relocs_resolvable(code, *ctx)
                &&& definition.code == code
                &&& definition.defines(func, *ctx)
            },
            None => !relocs_resolvable(code, *ctx),
        },
{
    let names: usize = count_user_names(ctx);
    let targets = code_relocs(&code);
    let mut relocs: Vec<ModuleReloc> = Vec::new();
    let mut i: usize = 0;
    while i < targets.len()
        invariant
            targets@ == crate::codegen::reloc_targets(code),
            names == crate::codegen::user_names(*ctx).len(),
            i <= targets.len(),
            relocs@ == Seq::new(
                i as nat,
                |j: int|
                    crate::codegen::module_reloc_at(
                        code,
                        j,
                        crate::codegen::user_names(*ctx),
                        func,
                    ),
            ),
            forall|j: int|
                0 <= j < i ==> crate::codegen::module_target(#[trigger] relocs@[j])
                    == crate::codegen::resolved(
                    targets@[j],
                    crate::codegen::user_names(*ctx),
                    func,
                ),
            forall|j: int|
                0 <= j < i ==> crate::codegen::is_resolvable(
                    #[trigger] targets[j],
                    crate::codegen::user_names(*ctx).len(),
                ),
        decreases targets.len() - i,
    {
        if !resolvable(targets[i], names) {
            assert(!crate::codegen::is_resolvable(
                crate::codegen::reloc_targets(code)[i as int],
                crate::codegen::user_names(*ctx).len(),
            ));
            return None;
        }
        relocs.push(module_reloc(&code, i, ctx, func));
        i = i + 1;
    }
    let alignment: u64 = code_alignment(&code) as u64;
    let bytes = code_bytes(&code);
    Some(FunctionDefinition { alignment, bytes, relocs, code })
}

/// What comes of a definition that was handed to its module: where the module accepted it, the code
/// that unwinding information is made from, which is the code that was defined, and else the error
/// of the module, and no unwinding information.
pub fn after_definition<E>(outcome: Result<(), E>, definition: FunctionDefinition) -> (next: Result<
    CompiledFunction,
    E,
>)
    ensures
        match outcome {
            Ok(_) => next == Ok::<CompiledFunction, E>(definition.code),
            Err(error) => next == Err::<CompiledFunction, E>(error),
        },
{
    match outcome {
        Ok(_) => Ok(definition.code),
        Err(error) => Err(error),
    }
}

/// An object module together with the cache, if there is one, that its functions are compiled by
/// way of.
pub struct UnwindModule {
    pub module: ObjectModule,
    pub cache: Option<InMemoryCache>,
}

impl UnwindModule {
    /// The stencils in the cache, or `None` where there is no cache.
    pub open spec fn cached(self) -> Option<Map<Seq<char>, Seq<u8>>> {
        match self.cache {
            Some(cache) => Some(cache@),
            None => None,
        }
    }

    /// The function in `ctx` is compiled by way of the cache: there is one, and the function has
    /// enough blocks for that to pay.
    pub open spec fn uses_cache(self, ctx: Context) -> bool {
        self.cached() is Some && crate::codegen::layout_blocks(ctx).len() >= CACHED_FROM_BLOCKS
    }

    /// The cache has a stencil for the function in `ctx`, or compiling it comes to an end.
    pub open spec fn can_define(self, ctx: Context, ctrl_plane: ControlPlane) -> bool {
        let module = CodeModule::Object(&self.module);
        ||| self.uses_cache(ctx) && self.cached()->0.contains_key(
            crate::codegen::function_key(module, ctx),
        )
        ||| crate::codegen::compiles_normally(module, ctx, ctrl_plane)
    }

    /// Wraps `module`.
    pub fn new(module: ObjectModule, cache: Option<InMemoryCache>) -> (wrapped: Self)
        ensures
            wrapped.module == module,
            wrapped.cache == cache,
    {
        UnwindModule { module, cache }
    }

    /// What compiling the function in `ctx` in this module comes to: by way of the cache where
    /// [`UnwindModule::uses_cache`] says so, and else in place, with the cache left alone and the
    /// code left in the context.
    pub open spec fn compiles(
        self,
        ctx: Context,
        ctrl_plane: ControlPlane,
        compiled: Result<CompiledFunction, CodegenError>,
        ctx_after: Context,
        ctrl_plane_after: ControlPlane,
        after: Self,
    ) -> bool {
        let module = CodeModule::Object(&self.module);
        &&& after.module == self.module
        &&& if self.uses_cache(ctx) {
            &&& after.cached() is Some
            &&& compiles_with_cache(
                module,
                ctx,
                ctrl_plane,
                self.cached()->0,
                compiled,
                ctx_after,
                ctrl_plane_after,
                after.cached()->0,
            )
        } else {
            &&& after.cached() == self.cached()
            &&& compiled == crate::codegen::compilation(module, ctx, ctrl_plane)
            &&& crate::codegen::held_code(ctx_after) == (match compiled {
                Ok(code) => Some(code),
                Err(_) => crate::codegen::held_code(ctx),
            })
            &&& crate::codegen::user_names(ctx_after) == crate::codegen::user_names(ctx)
            &&& crate::codegen::base_srcloc(ctx_after) == crate::codegen::base_srcloc(ctx)
        }
    }

    /// What defining the function in `ctx` as function number `func` of the module comes to: it is
    /// compiled, and its definition made from the code.
    pub open spec fn makes(
        self,
        func: FuncId,
        ctx: Context,
        ctrl_plane: ControlPlane,
        definition: Result<FunctionDefinition, DefinitionError>,
        ctx_after: Context,
        ctrl_plane_after: ControlPlane,
        after: Self,
    ) -> bool {
        match definition {
            Ok(definition) => {
                &&& self.compiles(
                    ctx,
                    ctrl_plane,
                    Ok(definition.code),
                    ctx_after,
                    ctrl_plane_after,
                    after,
                )
                &&& relocs_resolvable(definition.code, ctx_after)
                &&& definition.defines(func, ctx_after)
            },
            Err(DefinitionError::Compilation(error)) => self.compiles(
                ctx,
                ctrl_plane,
                Err(error),
                ctx_after,
                ctrl_plane_after,
                after,
            ),
            Err(DefinitionError::UnresolvableRelocation) => exists|code: CompiledFunction|
                self.compiles(ctx, ctrl_plane, Ok(code), ctx_after, ctrl_plane_after, after)
                    && !relocs_resolvable(code, ctx_after),
        }
    }

    /// Compiles the function in `ctx`, if the cache has no stencil for it.
    pub fn compile_function(&mut self, ctx: &mut Context, ctrl_plane: &mut ControlPlane) -> (compiled: Result<
        CompiledFunction,
        CodegenError,
    >)
        requires
            old(self).can_define(*old(ctx), *old(ctrl_plane)),
        ensures
            old(self).compiles(
                *old(ctx),
                *old(ctrl_plane),
                compiled,
                *final(ctx),
                *final(ctrl_plane),
                *final(self),
            ),
    {
        let module = CodeModule::Object(&self.module);
        let plan = plan_compilation(module, ctx, self.cache.as_ref());
        match carry_out(plan, module, ctx, ctrl_plane) {
            Ok((code, entry)) => {
                if let (Some(cache), Some(entry)) = (&mut self.cache, entry) {
                    cache.insert(entry);
                }
                Ok(code)
            },
            Err(error) => Err(error),
        }
    }

    /// Compiles the function in `ctx` and makes it ready to be defined as function number `func`
    /// of the module.
    pub fn define_function_with_control_plane(
        &mut self,
        func: FuncId,
        ctx: &mut Context,
        ctrl_plane: &mut ControlPlane,
    ) -> (definition: Result<FunctionDefinition, DefinitionError>)
        requires
            old(self).can_define(*old(ctx), *old(ctrl_plane)),
        ensures
            old(self).makes(
                func,
                *old(ctx),
                *old(ctrl_plane),
                definition,
                *final(ctx),
                *final(ctrl_plane),
                *final(self),
            ),
    {
        match self.compile_function(ctx, ctrl_plane) {
            Ok(code) => match define_compiled(func, ctx, code) {
                Some(definition) => Ok(definition),
                None => Err(DefinitionError::UnresolvableRelocation),
            },
            Err(error) => Err(DefinitionError::Compilation(error)),
        }
    }
}

/// Compiling a function by way of the cache, and then, with the cache that this left, a function
/// that has the same key, compiles once: the second time the stencil is finished for the second
/// function, and its context, and the cache, are left as they were.  Where the source locations of
/// both functions count from the same base, the code is the same both times.
pub proof fn second_compilation_reuses_the_first(
    module: CodeModule,
    ctx: Context,
    ctrl_plane: ControlPlane,
    before: Map<Seq<char>, Seq<u8>>,
    code: CompiledFunction,
    ctx_after: Context,
    ctrl_plane_after: ControlPlane,
    between: Map<Seq<char>, Seq<u8>>,
    other_module: CodeModule,
    other_ctx: Context,
    other_ctrl_plane: ControlPlane,
    recompiled: Result<CompiledFunction, CodegenError>,
    other_ctx_after: Context,
    other_ctrl_plane_after: ControlPlane,
    after: Map<Seq<char>, Seq<u8>>,
)
    requires
        compiles_with_cache(
            module,
            ctx,
            ctrl_plane,
            before,
            Ok(code),
            ctx_after,
            ctrl_plane_after,
            between,
        ),
        crate::codegen::function_key(other_module, other_ctx) == crate::codegen::function_key(module, ctx),
        compiles_with_cache(
            other_module,
            other_ctx,
            other_ctrl_plane,
            between,
            recompiled,
            other_ctx_after,
            other_ctrl_plane_after,
            after,
        ),
    ensures
        between.contains_key(crate::codegen::function_key(module, ctx)),
        recompiled == Ok::<CompiledFunction, CodegenError>(
            crate::codegen::finished_code(
                between[crate::codegen::function_key(module, ctx)],
                crate::codegen::base_srcloc(other_ctx),
            )->0,
        ),
        crate::codegen::base_srcloc(other_ctx) == crate::codegen::base_srcloc(ctx) ==> recompiled
            == Ok::<CompiledFunction, CodegenError>(code),
        other_ctx_after == other_ctx,
        other_ctrl_plane_after == other_ctrl_plane,
        after == between,
{
    let key = crate::codegen::function_key(module, ctx);
    if !before.contains_key(key) {
        assert(before.insert(key, between[key]).contains_key(key));
    }
}

/// A function that the cache knows nothing of is compiled as it would be without a cache.
pub proof fn a_miss_compiles_as_without_cache(
    module: UnwindModule,
    ctx: Context,
    ctrl_plane: ControlPlane,
    compiled: Result<CompiledFunction, CodegenError>,
    ctx_after: Context,
    ctrl_plane_after: ControlPlane,
    after: UnwindModule,
)
    requires
        module.compiles(ctx, ctrl_plane, compiled, ctx_after, ctrl_plane_after, after),
        module.cached() matches Some(cached) ==> !cached.contains_key(
            crate::codegen::function_key(CodeModule::Object(&module.module), ctx),
        ),
    ensures
        compiled == crate::codegen::compilation(
            CodeModule::Object(&module.module),
            ctx,
            ctrl_plane,
        ),
{
}

/// Every stencil is kept under the key of a function that it came from compiling.
pub open spec fn all_belong(cached: Map<Seq<char>, Seq<u8>>) -> bool {
    forall|key: Seq<char>| #[trigger] cached.contains_key(key) ==> belongs_under(key, cached[key])
}

/// Two compiled functions come to the same definition, whatever the number of the function and its
/// name table are: they have the same machine code, ask for the same alignment, and have the same
/// relocations.  They may differ in what is not defined, such as the source locations.
pub open spec fn same_definition(a: CompiledFunction, b: CompiledFunction) -> bool {
    &&& crate::codegen::machine_code(a) == crate::codegen::machine_code(b)
    &&& crate::codegen::required_alignment(a) == crate::codegen::required_alignment(b)
    &&& crate::codegen::reloc_targets(a) == crate::codegen::reloc_targets(b)
    &&& forall|i: int, names: Seq<(u32, u32)>, func: FuncId|
        0 <= i < crate::codegen::reloc_targets(a).len() && crate::codegen::is_resolvable(
            crate::codegen::reloc_targets(a)[i],
            names.len(),
        ) ==> #[trigger] crate::codegen::module_reloc_at(a, i, names, func)
            == crate::codegen::module_reloc_at(b, i, names, func)
}

/// The key of the function in `ctx` covers all that its definition depends on: a stencil that came
/// from compiling any function with this key, in whatever module and with whatever control plane,
/// comes to the same definition as compiling this function.
pub open spec fn key_covers(module: CodeModule, ctx: Context, ctrl_plane: ControlPlane) -> bool {
    forall|stencil: Seq<u8>, m: CodeModule, c: Context, p: ControlPlane| #[trigger]
        compiled_from(crate::codegen::function_key(module, ctx), stencil, m, c, p) ==> {
            let compiled = crate::codegen::compilation(module, ctx, ctrl_plane);
            &&& compiled is Ok
            &&& same_definition(
                compiled->Ok_0,
                crate::codegen::finished_code(stencil, crate::codegen::base_srcloc(ctx))->0,
            )
        }
}

/// Two compilations came to the same: both gave code, with the same definition, or both the same
/// error.
pub open spec fn same_outcome(
    a: Result<CompiledFunction, CodegenError>,
    b: Result<CompiledFunction, CodegenError>,
) -> bool {
    match (a, b) {
        (Ok(a), Ok(b)) => same_definition(a, b),
        (Err(a), Err(b)) => a == b,
        _ => false,
    }
}

/// Where its key covers all that the definition of a function depends on, compiling it by way of a
/// cache, whether that has a stencil or not, comes to what compiling it without one comes to.
pub proof fn a_cache_compiles_as_without_cache(
    module: CodeModule,
    ctx: Context,
    ctrl_plane: ControlPlane,
    before: Map<Seq<char>, Seq<u8>>,
    compiled: Result<CompiledFunction, CodegenError>,
    ctx_after: Context,
    ctrl_plane_after: ControlPlane,
    after: Map<Seq<char>, Seq<u8>>,
)
    requires
        compiles_with_cache(
            module,
            ctx,
            ctrl_plane,
            before,
            compiled,
            ctx_after,
            ctrl_plane_after,
            after,
        ),
        all_belong(before),
        key_covers(module, ctx, ctrl_plane),
    ensures
        same_outcome(crate::codegen::compilation(module, ctx, ctrl_plane), compiled),
{
    assert(before.contains_key(crate::codegen::function_key(module, ctx)) ==> belongs_under(
        crate::codegen::function_key(module, ctx),
        before[crate::codegen::function_key(module, ctx)],
    ));
}

/// The cache never changes what is defined.  Where its key covers all that the definition of a
/// function depends on, a module with a cache and the same module without one either both define the
/// function, with the same alignment, the same bytes and the same relocations, or both report the
/// same error.
pub proof fn a_cache_never_changes_what_is_defined(
    func: FuncId,
    ctx: Context,
    ctrl_plane: ControlPlane,
    with: UnwindModule,
    definition: Result<FunctionDefinition, DefinitionError>,
    ctx_after: Context,
    ctrl_plane_after: ControlPlane,
    after: UnwindModule,
    without: UnwindModule,
    plain_definition: Result<FunctionDefinition, DefinitionError>,
    plain_ctx_after: Context,
    plain_ctrl_plane_after: ControlPlane,
    plain_after: UnwindModule,
)
    requires
        with.module == without.module,
        without.cached() is None,
        with.cached() matches Some(cached) ==> all_belong(cached),
        key_covers(CodeModule::Object(&with.module), ctx, ctrl_plane),
        with.makes(func, ctx, ctrl_plane, definition, ctx_after, ctrl_plane_after, after),
        without.makes(
            func,
            ctx,
            ctrl_plane,
            plain_definition,
            plain_ctx_after,
            plain_ctrl_plane_after,
            plain_after,
        ),
    ensures
        match (definition, plain_definition) {
            (Ok(definition), Ok(plain_definition)) => {
                &&& definition.alignment == plain_definition.alignment
                &&& definition.bytes@ == plain_definition.bytes@
                &&& definition.relocs@ == plain_definition.relocs@
            },
            (Err(error), Err(plain_error)) => error == plain_error,
            _ => false,
        },
{
    let module = CodeModule::Object(&with.module);
    let compiled = crate::codegen::compilation(module, ctx, ctrl_plane);
    assert forall|result: Result<CompiledFunction, CodegenError>| #[trigger]
        with.compiles(ctx, ctrl_plane, result, ctx_after, ctrl_plane_after, after) implies
        same_outcome(compiled, result) by {
        if with.uses_cache(ctx) {
            a_cache_compiles_as_without_cache(
                module,
                ctx,
                ctrl_plane,
                with.cached()->0,
                result,
                ctx_after,
                ctrl_plane_after,
                after.cached()->0,
            );
        }
    }
    assert(crate::codegen::user_names(ctx_after) == crate::codegen::user_names(plain_ctx_after));
    if let (Ok(definition), Ok(plain_definition)) = (definition, plain_definition) {
        assert(definition.relocs@ =~= plain_definition.relocs@);
    }
}

/// What was cached stays cached, unchanged, whatever is compiled next.
pub proof fn compiling_keeps_what_is_cached(
    module: UnwindModule,
    ctx: Context,
    ctrl_plane: ControlPlane,
    compiled: Result<CompiledFunction, CodegenError>,
    ctx_after: Context,
    ctrl_plane_after: ControlPlane,
    after: UnwindModule,
    key: Seq<char>,
)
    requires
        module.compiles(ctx, ctrl_plane, compiled, ctx_after, ctrl_plane_after, after),
        module.cached() is Some,
        module.cached()->0.contains_key(key),
    ensures
        after.cached() is Some,
        after.cached()->0.contains_key(key),
        after.cached()->0[key] == module.cached()->0[key],
{
}

/// One compilation by way of a cache, of some function in some module, turns the contents `before`
/// of the cache into `after`.
pub open spec fn one_compilation(
    before: Map<Seq<char>, Seq<u8>>,
    after: Map<Seq<char>, Seq<u8>>,
) -> bool {
    exists|
        module: CodeModule,
        ctx: Context,
        ctrl_plane: ControlPlane,
        compiled: Result<CompiledFunction, CodegenError>,
        ctx_after: Context,
        ctrl_plane_after: ControlPlane,
    | #[trigger]
        compiles_with_cache(
            module,
            ctx,
            ctrl_plane,
            before,
            compiled,
            ctx_after,
            ctrl_plane_after,
            after,
        )
}

/// What one client had compiled is there for all later ones: of one cache, as compilations follow
/// one another for whichever clients, what it has at some time it still has, unchanged, at any
/// later time.
pub proof fn later_clients_find_what_earlier_ones_left(
    history: Seq<Map<Seq<char>, Seq<u8>>>,
    earlier: int,
    later: int,
    key: Seq<char>,
)
    requires
        forall|i: int|
            0 <= i < history.len() - 1 ==> one_compilation(#[trigger] history[i], history[i + 1]),
        0 <= earlier <= later < history.len(),
        history[earlier].contains_key(key),
    ensures
        history[later].contains_key(key),
        history[later][key] == history[earlier][key],
    decreases later - earlier,
{
    if earlier < later {
        later_clients_find_what_earlier_ones_left(history, earlier, later - 1, key);
        let i = later - 1;
        assert(one_compilation(history[i], history[i + 1]));
    }
}

/// Keeping a stencil under a key is seen by everyone who looks into the cache afterwards: they find
/// that stencil under that key, and under any other key just what was there before.
pub proof fn what_is_kept_is_seen(
    before: InMemoryCache,
    entry: CacheEntry,
    after: InMemoryCache,
    other: Seq<char>,
)
    requires
        after@ == before@.insert(entry.key(), entry.stencil()),
        other != entry.key(),
    ensures
        after@.contains_key(entry.key()),
        after@[entry.key()] == entry.stencil(),
        after@.contains_key(other) == before@.contains_key(other),
        before@.contains_key(other) ==> after@[other] == before@[other],
{
}

/// A function is rejected for a relocation just if that relocation refers to the name of a test case,
/// or to a name that the name table does not have.  Calls into the runtime library, symbols that the
/// linker knows and places within the function itself are never in the way.
pub proof fn what_relocations_are_in_the_way(code: CompiledFunction, ctx: Context)
    ensures
        relocs_resolvable(code, ctx) <==> (forall|i: int|
            0 <= i < crate::codegen::reloc_targets(code).len() ==> {
                ||| #[trigger] crate::codegen::reloc_targets(code)[i] is LibCall
                ||| crate::codegen::reloc_targets(code)[i] is KnownSymbol
                ||| crate::codegen::reloc_targets(code)[i] is FunctionOffset
                ||| crate::codegen::reloc_targets(code)[i] is UserName
                    && crate::codegen::reloc_targets(code)[i]->UserName_0
                    < crate::codegen::user_names(ctx).len()
            }),
{
    let targets = crate::codegen::reloc_targets(code);
    if forall|i: int|
        0 <= i < targets.len() ==> {
            ||| #[trigger] targets[i] is LibCall
            ||| targets[i] is KnownSymbol
            ||| targets[i] is FunctionOffset
            ||| targets[i] is UserName && targets[i]->UserName_0 < crate::codegen::user_names(
                ctx,
            ).len()
        } {
        assert forall|i: int| 0 <= i < targets.len() implies crate::codegen::is_resolvable(
            #[trigger] targets[i],
            crate::codegen::user_names(ctx).len(),
        ) by {}
    } else {
        let i = choose|i: int|
            0 <= i < targets.len() && !({
                ||| #[trigger] targets[i] is LibCall
                ||| targets[i] is KnownSymbol
                ||| targets[i] is FunctionOffset
                ||| targets[i] is UserName && targets[i]->UserName_0 < crate::codegen::user_names(
                    ctx,
                ).len()
            });
        assert(!crate::codegen::is_resolvable(
            targets[i],
            crate::codegen::user_names(ctx).len(),
        ));
    }
}

/// What the relocations of a definition refer to: for a name of the function, what the name table has
/// for it, a namespace and an index; for a place within the function, the same place in the function
/// with the number that is being defined; and else what the code itself refers to.
pub proof fn what_relocations_refer_to(
    names: Seq<(u32, u32)>,
    number: u32,
    offset: u32,
    func: FuncId,
)
    ensures
        crate::codegen::resolved(RelocTarget::UserName(number), names, func) == (
        crate::codegen::ModuleTarget::User {
            namespace: names[number as int].0,
            index: names[number as int].1,
        }),
        crate::codegen::resolved(RelocTarget::FunctionOffset(offset), names, func) == (
        crate::codegen::ModuleTarget::FunctionOffset { func, offset }),
        crate::codegen::resolved(RelocTarget::LibCall, names, func)
            == crate::codegen::ModuleTarget::LibCall,
        crate::codegen::resolved(RelocTarget::KnownSymbol, names, func)
            == crate::codegen::ModuleTarget::KnownSymbol,
{
}

/// A function that is defined is defined with all of its code: its machine code, the alignment that
/// it asks for, and each of its relocations, in order, against the names that the function has before
/// it is compiled.
pub proof fn definitions_carry_all_of_the_code(
    module: UnwindModule,
    func: FuncId,
    ctx: Context,
    ctrl_plane: ControlPlane,
    definition: FunctionDefinition,
    ctx_after: Context,
    ctrl_plane_after: ControlPlane,
    after: UnwindModule,
)
    requires
        module.makes(func, ctx, ctrl_plane, Ok(definition), ctx_after, ctrl_plane_after, after),
    ensures
        module.compiles(
            ctx,
            ctrl_plane,
            Ok(definition.code),
            ctx_after,
            ctrl_plane_after,
            after,
        ),
        definition.bytes@ == crate::codegen::machine_code(definition.code),
        definition.alignment == crate::codegen::required_alignment(definition.code),
        definition.relocs@.len() == crate::codegen::reloc_targets(definition.code).len(),
        forall|i: int|
            0 <= i < definition.relocs@.len() ==> #[trigger] definition.relocs@[i]
                == crate::codegen::module_reloc_at(
                definition.code,
                i,
                crate::codegen::user_names(ctx),
                func,
            ),
        forall|i: int|
            0 <= i < definition.relocs@.len() ==> !(
            #[trigger] crate::codegen::reloc_targets(definition.code)[i] is TestCase),
{
    what_relocations_are_in_the_way(definition.code, ctx_after);
}

/// A definition that fails fails for one of two reasons: compiling gave that error, or compiling gave
/// code with a relocation that is in the way.
pub proof fn why_definitions_fail(
    module: UnwindModule,
    func: FuncId,
    ctx: Context,
    ctrl_plane: ControlPlane,
    error: DefinitionError,
    ctx_after: Context,
    ctrl_plane_after: ControlPlane,
    after: UnwindModule,
)
    requires
        module.makes(func, ctx, ctrl_plane, Err(error), ctx_after, ctrl_plane_after, after),
    ensures
        error matches DefinitionError::Compilation(error) ==> module.compiles(
            ctx,
            ctrl_plane,
            Err(error),
            ctx_after,
            ctrl_plane_after,
            after,
        ),
        error is UnresolvableRelocation ==> exists|code: CompiledFunction, i: int|
            #![trigger crate::codegen::reloc_targets(code)[i]]
            {
                &&& module.compiles(
                    ctx,
                    ctrl_plane,
                    Ok(code),
                    ctx_after,
                    ctrl_plane_after,
                    after,
                )
                &&& 0 <= i < crate::codegen::reloc_targets(code).len()
                &&& crate::codegen::reloc_targets(code)[i] is TestCase || (
                crate::codegen::reloc_targets(code)[i] is UserName
                    && crate::codegen::reloc_targets(code)[i]->UserName_0
                    >= crate::codegen::user_names(ctx).len())
            },
{
    if error is UnresolvableRelocation {
        let code = choose|code: CompiledFunction|
            module.compiles(ctx, ctrl_plane, Ok(code), ctx_after, ctrl_plane_after, after)
                && !relocs_resolvable(code, ctx_after);
        what_relocations_are_in_the_way(code, ctx_after);
        let targets = crate::codegen::reloc_targets(code);
        let i = choose|i: int|
            0 <= i < targets.len() && !({
                ||| #[trigger] targets[i] is LibCall
                ||| targets[i] is KnownSymbol
                ||| targets[i] is FunctionOffset
                ||| targets[i] is UserName && targets[i]->UserName_0 < crate::codegen::user_names(
                    ctx_after,
                ).len()
            });
        assert(crate::codegen::reloc_targets(code)[i] is TestCase
            || crate::codegen::reloc_targets(code)[i] is UserName);
    }
}

/// A function of fewer than three blocks, and any function where there is no cache, is compiled in
/// place: the outcome is that of compiling it, its code is left in the context, and whatever cache
/// there is stays as it is.
pub proof fn small_functions_are_compiled_in_place(
    module: UnwindModule,
    ctx: Context,
    ctrl_plane: ControlPlane,
    compiled: Result<CompiledFunction, CodegenError>,
    ctx_after: Context,
    ctrl_plane_after: ControlPlane,
    after: UnwindModule,
)
    requires
        module.compiles(ctx, ctrl_plane, compiled, ctx_after, ctrl_plane_after, after),
        module.cache is None || crate::codegen::layout_blocks(ctx).len() < 3,
    ensures
        compiled == crate::codegen::compilation(
            CodeModule::Object(&module.module),
            ctx,
            ctrl_plane,
        ),
        compiled matches Ok(code) ==> crate::codegen::held_code(ctx_after) == Some(code),
        compiled is Err ==> crate::codegen::held_code(ctx_after) == crate::codegen::held_code(ctx),
        module.cache is None ==> after.cache is None,
        module.cache matches Some(cache) ==> after.cache is Some && after.cache->0@ == cache@,
        after.module == module.module,
{
}

/// A function of three blocks or more, where there is a cache, is compiled by way of it.  A stencil
/// that the cache has for it is finished, and then neither the context nor the cache changes.  Else
/// the function is compiled, and just if that gives code, the cache has a stencil for it afterwards,
/// which finishes to that code.
pub proof fn large_functions_go_by_way_of_the_cache(
    module: UnwindModule,
    ctx: Context,
    ctrl_plane: ControlPlane,
    compiled: Result<CompiledFunction, CodegenError>,
    ctx_after: Context,
    ctrl_plane_after: ControlPlane,
    after: UnwindModule,
)
    requires
        module.compiles(ctx, ctrl_plane, compiled, ctx_after, ctrl_plane_after, after),
        module.cache is Some,
        crate::codegen::layout_blocks(ctx).len() >= 3,
    ensures
        after.module == module.module,
        after.cache is Some,
        crate::codegen::held_code(ctx_after) == crate::codegen::held_code(ctx),
        ({
            let target = CodeModule::Object(&module.module);
            let key = crate::codegen::function_key(target, ctx);
            let base = crate::codegen::base_srcloc(ctx);
            let before = module.cache->0@;
            let later = after.cache->0@;
            if before.contains_key(key) {
                &&& compiled == Ok::<CompiledFunction, CodegenError>(
                    crate::codegen::finished_code(before[key], base)->0,
                )
                &&& ctx_after == ctx
                &&& ctrl_plane_after == ctrl_plane
                &&& later == before
            } else {
                &&& compiled == crate::codegen::compilation(target, ctx, ctrl_plane)
                &&& compiled is Ok <==> later.contains_key(key)
                &&& compiled matches Ok(code) ==> crate::codegen::finished_code(later[key], base)
                    == Some(code)
            }
        }),
{
    if compiled is Ok {
        let key = crate::codegen::function_key(CodeModule::Object(&module.module), ctx);
        let before = module.cache->0@;
        if !before.contains_key(key) {
            assert(before.insert(key, after.cache->0@[key]).contains_key(key));
        }
    }
}

/// Compiling a function has to do with one entry of the cache: under every other key the cache has
/// just what it had.  Where compiling fails, it has just what it had under all keys.
pub proof fn compiling_touches_one_entry(
    module: CodeModule,
    ctx: Context,
    ctrl_plane: ControlPlane,
    before: Map<Seq<char>, Seq<u8>>,
    compiled: Result<CompiledFunction, CodegenError>,
    ctx_after: Context,
    ctrl_plane_after: ControlPlane,
    after: Map<Seq<char>, Seq<u8>>,
    other: Seq<char>,
)
    requires
        compiles_with_cache(
            module,
            ctx,
            ctrl_plane,
            before,
            compiled,
            ctx_after,
            ctrl_plane_after,
            after,
        ),
    ensures
        other != crate::codegen::function_key(module, ctx) || compiled is Err
            ==> after.contains_key(other) == before.contains_key(other) && (before.contains_key(other)
            ==> after[other] == before[other]),
{
}

} // verus!
