//! Compilation of guest modules: the runner, its caches, and the steps of getting a module.

use std::sync::Arc;
use vstd::prelude::*;
use vstd::string::*;
use crate::cache::{cache_set, BoundedCache};
use crate::host::bytes_view;
use crate::limits::WasmLimits;
use crate::sections::{declared_maxima, magic, module_header, read_declared_maxima};
use crate::text::{concat, decimal, decimal_text, same_text};
use crate::validation::{
    fault_text, higher_limits_accept_more, import_fault, module_fault, module_shape,
    valid_imports_are_sandboxed,
    validate_module, validity_depends_on_shape, ExportInfo, ExportKind, ExportTree, FaultTree,
    ImportInfo, ImportTree, ModuleFault, ModuleInfo, ModuleShape, ModuleTree,
};

verus! {

/// How many modules are compiled at the same time.
pub const MAX_CONCURRENT_COMPILES: usize = 2;

/// How many functions of one deployment run at the same time.
pub const MAX_CONCURRENT_EXECUTIONS_PER_ENV: usize = 64;

/// The reservation of the garbage-collected heap, in bytes.
pub const GC_HEAP_RESERVATION_BYTES: u64 = 67_108_864;

/// By how much the garbage-collected heap may grow, in bytes.
pub const GC_HEAP_GROWTH_BYTES: u64 = 33_554_432;

/// An engine of `wasmtime`.
#[verifier::external_type_specification]
#[verifier::external_body]
pub struct ExEngine(wasmtime::Engine);

/// A compiled module of `wasmtime`.
#[verifier::external_type_specification]
#[verifier::external_body]
pub struct ExModule(wasmtime::Module);

/// A semaphore of `tokio`.
#[verifier::external_type_specification]
#[verifier::external_body]
pub struct ExSemaphore(tokio::sync::Semaphore);

/// How an engine is set up.
#[derive(Debug, Clone, Copy, PartialEq, Eq, Structural)]
pub struct EngineSettings {
    /// Whether NaNs are made canonical, so that floating point is the same on every machine.
    pub nan_canonicalization: bool,
    /// Whether relaxed SIMD, which is not deterministic, is there.
    pub relaxed_simd: bool,
    /// Whether garbage-collected types are there.
    pub gc: bool,
    /// Whether typed function references are there.
    pub function_references: bool,
    /// Whether fuel is counted.
    pub consume_fuel: bool,
    pub gc_heap_reservation: u64,
    pub gc_heap_growth: u64,
}

/// How the engine of every runner is set up: for deterministic, sandboxed execution.
pub fn engine_settings() -> (r: EngineSettings)
    ensures
        r.nan_canonicalization && !r.relaxed_simd && r.gc && r.function_references
            && r.consume_fuel,
        r.gc_heap_reservation == 64 * 1024 * 1024,
        r.gc_heap_growth == 32 * 1024 * 1024,
{
    EngineSettings {
        nan_canonicalization: true,
        relaxed_simd: false,
        gc: true,
        function_references: true,
        consume_fuel: true,
        gc_heap_reservation: GC_HEAP_RESERVATION_BYTES,
        gc_heap_growth: GC_HEAP_GROWTH_BYTES,
    }
}

/// How an engine was set up.
pub uninterp spec fn settings_of(e: wasmtime::Engine) -> EngineSettings;

/// What a module exports.
pub uninterp spec fn module_exports(m: wasmtime::Module) -> Seq<ExportTree>;

/// What a module imports.
pub uninterp spec fn module_imports(m: wasmtime::Module) -> Seq<ImportTree>;

/// What the module in a binary exports and imports, where it compiles: all but the names of types,
/// which may hold indices that the engine gave.
pub uninterp spec fn binary_shape(b: Seq<u8>) -> ModuleShape;

/// The binary that `wat::parse_bytes` gives for the source of a module, where it gives one.
pub uninterp spec fn binary_of(source: Seq<u8>) -> Option<Seq<u8>>;

/// How the engine that compiled a module, which `wasmtime::Module::engine` gives, was set up.
pub uninterp spec fn module_settings(m: wasmtime::Module) -> EngineSettings;

/// What `wasmtime::Module::serialize` gives for a module: the bytes, or the text of the error.
pub uninterp spec fn serialized_module(m: wasmtime::Module) -> Result<Seq<u8>, Seq<char>>;

/// The SHA-256 digest of some bytes.
pub uninterp spec fn sha256_of(b: Seq<u8>) -> Seq<u8>;

/// How many permits a semaphore was made with.
pub uninterp spec fn semaphore_size(s: tokio::sync::Semaphore) -> nat;

/// The maxima, in pages, of the memories that the source of a module declares for the module
/// itself. A source that cannot be read declares none; it does not compile either.
pub open spec fn source_memories(source: Seq<u8>) -> Seq<Option<u64>> {
    match binary_of(source) {
        None => Seq::empty(),
        Some(b) => match declared_maxima(b) {
            None => Seq::empty(),
            Some(maxima) => maxima,
        },
    }
}

/// What a module exports and imports, and the memories that its source declares.
pub open spec fn module_tree(m: wasmtime::Module, source: Seq<u8>) -> ModuleTree {
    ModuleTree {
        exports: module_exports(m),
        imports: module_imports(m),
        memories: source_memories(source),
    }
}

/// `wasmtime::Engine::new` with a `wasmtime::Config` that is set as the settings say, or the text
/// of the error.
#[verifier::external_body]
fn new_engine(s: &EngineSettings) -> (r: Result<wasmtime::Engine, String>)
    ensures
        r matches Ok(e) ==> settings_of(e) == *s,
{
    let mut config = wasmtime::Config::new();
    config.cranelift_nan_canonicalization(s.nan_canonicalization);
    config.wasm_relaxed_simd(s.relaxed_simd);
    config.wasm_gc(s.gc);
    config.wasm_function_references(s.function_references);
    config.consume_fuel(s.consume_fuel);
    config.gc_heap_reservation(s.gc_heap_reservation);
    config.gc_heap_reservation_for_growth(s.gc_heap_growth);
    wasmtime::Engine::new(&config).map_err(|e| e.to_string())
}

/// `wasmtime::Module::new`: the module in a binary, or the text of the error. Whichever engine
/// compiles a binary, the module has the same exports and imports; only the names of types may
/// differ. The module belongs to the engine that compiled it. Which binaries compile depends on
/// the engine and on the machine, and is not stated.
#[verifier::external_body]
fn new_module(engine: &wasmtime::Engine, b: &[u8]) -> (r: Result<wasmtime::Module, String>)
    ensures
        r matches Ok(m) ==> module_shape(module_tree(m, b@)) == binary_shape(b@),
        r matches Ok(m) ==> module_settings(m) == settings_of(*engine),
{
    wasmtime::Module::new(engine, b).map_err(|e| e.to_string())
}

/// `wasmtime::Module::exports`, each export with its name and type; a type of a function by its
/// `Display`.
#[verifier::external_body]
fn describe_exports(m: &wasmtime::Module) -> (r: Vec<ExportInfo>)
    ensures
        Seq::new(r@.len(), |i: int| r@[i]@) == module_exports(*m),
{
    m.exports().map(|e| ExportInfo {
        name: e.name().to_string(),
        kind: match e.ty() {
            wasmtime::ExternType::Func(f) => ExportKind::Func {
                params: f.params().map(|t| t.to_string()).collect(),
                results: f.results().map(|t| t.to_string()).collect(),
            },
            wasmtime::ExternType::Memory(t) => ExportKind::Memory { maximum: t.maximum() },
            _ => ExportKind::Other,
        },
    }).collect()
}

/// `wasmtime::Module::imports`, each import with its module and name, and with its maximum where it
/// is a memory that has one.
#[verifier::external_body]
fn describe_imports(m: &wasmtime::Module) -> (r: Vec<ImportInfo>)
    ensures
        Seq::new(r@.len(), |i: int| r@[i]@) == module_imports(*m),
{
    m.imports().map(|i| ImportInfo {
        module: i.module().to_string(),
        name: i.name().to_string(),
        maximum: i.ty().memory().and_then(|t| t.maximum()),
    }).collect()
}

/// `wat::parse_bytes`: the binary for the source of a module, by which `wasmtime` too reads it. A
/// source that starts like a binary is one; any other is text that has to parse.
#[verifier::external_body]
fn to_binary(source: &[u8]) -> (r: Option<Vec<u8>>)
    ensures
        bytes_view(r) == binary_of(source@),
        magic().is_prefix_of(source@) ==> bytes_view(r) == Some(source@),
{
    wat::parse_bytes(source).ok().map(|b| b.into_owned())
}

/// `wasmtime::Module::serialize`: the compiled module as bytes, or the text of the error.
#[verifier::external_body]
fn module_bytes(m: &wasmtime::Module) -> (r: Result<Vec<u8>, String>)
    ensures
        match r {
            Ok(b) => serialized_module(*m) matches Ok(got) && got == b@,
            Err(e) => serialized_module(*m) matches Err(got) && got == e@,
        },
{
    m.serialize().map_err(|e| e.to_string())
}

/// `sha2::Sha256::digest`: the SHA-256 digest of some bytes.
#[verifier::external_body]
fn sha256(b: &[u8]) -> (r: [u8; 32])
    ensures
        r@ == sha256_of(b@),
{
    <sha2::Sha256 as sha2::Digest>::digest(b).into()
}

/// `tokio::sync::Semaphore::new`: a semaphore with that many permits.
#[verifier::external_body]
fn new_semaphore(permits: usize) -> (r: tokio::sync::Semaphore)
    requires
        permits <= usize::MAX / 8,
    ensures
        semaphore_size(r) == permits,
{
    tokio::sync::Semaphore::new(permits)
}

/// The maxima, in pages, of the memories that the source of a module declares for the module
/// itself. Of a binary, they stand in its memory section.
pub fn declared_memories(source: &[u8]) -> (r: Vec<Option<u64>>)
    ensures
        r@ == source_memories(source@),
        module_header().is_prefix_of(source@) ==> (match declared_maxima(source@) {
            Some(maxima) => r@ == maxima,
            None => r@ == Seq::<Option<u64>>::empty(),
        }),
{
    proof {
        if module_header().is_prefix_of(source@) {
            assert(magic() =~= module_header().take(4));
            assert(source@.take(4) =~= source@.take(8).take(4));
            assert(magic().is_prefix_of(source@));
        }
    }
    let none: Vec<Option<u64>> = Vec::new();
    assert(none@ =~= Seq::empty());
    match to_binary(source) {
        None => none,
        Some(b) => match read_declared_maxima(b.as_slice()) {
            None => none,
            Some(maxima) => maxima,
        },
    }
}

/// What a module exports and imports, and the memories that its source declares.
pub fn describe_module(m: &wasmtime::Module, source: &[u8]) -> (r: ModuleInfo)
    ensures
        r@ == module_tree(*m, source@),
{
    ModuleInfo {
        exports: describe_exports(m),
        imports: describe_imports(m),
        memories: declared_memories(source),
    }
}

/// Why a module cannot be had, as content.
pub enum CompileFault {
    TooLarge(nat, nat),
    PermitClosed,
    TimedOut,
    Lost(Seq<char>),
    Failed(Seq<char>),
    Invalid(FaultTree),
}

/// Why a module cannot be had.
#[derive(Debug)]
pub enum CompileError {
    /// The binary is larger than the limit.
    TooLarge(usize, usize),
    /// No more modules are compiled.
    PermitClosed,
    /// Compiling took too long.
    TimedOut,
    /// The task that compiles was lost.
    Lost(String),
    /// The binary does not compile.
    Failed(String),
    /// The module breaks the sandbox contract.
    Invalid(ModuleFault),
}

impl View for CompileError {
    type V = CompileFault;

    open spec fn view(&self) -> CompileFault {
        match *self {
            CompileError::TooLarge(n, max) => CompileFault::TooLarge(n as nat, max as nat),
            CompileError::PermitClosed => CompileFault::PermitClosed,
            CompileError::TimedOut => CompileFault::TimedOut,
            CompileError::Lost(s) => CompileFault::Lost(s@),
            CompileError::Failed(s) => CompileFault::Failed(s@),
            CompileError::Invalid(f) => CompileFault::Invalid(f@),
        }
    }
}

/// What is said of a fault.
pub open spec fn compile_fault_text(f: CompileFault) -> Seq<char> {
    match f {
        CompileFault::TooLarge(n, max) => "WASM module is "@ + decimal(n)
            + " bytes, exceeding the limit of "@ + decimal(max) + " bytes"@,
        CompileFault::PermitClosed => "WASM compilation semaphore closed"@,
        CompileFault::TimedOut => "Timed out compiling WASM module"@,
        CompileFault::Lost(s) => s,
        CompileFault::Failed(s) =>
            "Failed to compile WASM module (was it built with the convex_sdk?): "@ + s,
        CompileFault::Invalid(f) => fault_text(f),
    }
}

impl CompileError {
    /// What is said of an error.
    pub fn message(&self) -> (r: String)
        ensures
            r@ == compile_fault_text(self@),
    {
        match self {
            CompileError::TooLarge(n, max) => {
                let a = concat("WASM module is ", decimal_text(*n as u64).as_str());
                let b = concat(a.as_str(), " bytes, exceeding the limit of ");
                let c = concat(b.as_str(), decimal_text(*max as u64).as_str());
                concat(c.as_str(), " bytes")
            },
            CompileError::PermitClosed => "WASM compilation semaphore closed".to_owned(),
            CompileError::TimedOut => "Timed out compiling WASM module".to_owned(),
            CompileError::Lost(s) => s.clone(),
            CompileError::Failed(s) => concat(
                "Failed to compile WASM module (was it built with the convex_sdk?): ",
                s.as_str(),
            ),
            CompileError::Invalid(f) => f.message(),
        }
    }
}

/// Compile a binary with an engine, to which the module then belongs. The module is not checked
/// against the sandbox contract yet.
pub fn compile_binary(engine: &wasmtime::Engine, binary: &[u8]) -> (r: Result<
    wasmtime::Module,
    String,
>)
    ensures
        r matches Ok(m) ==> module_shape(module_tree(m, binary@)) == binary_shape(binary@),
        r matches Ok(m) ==> module_settings(m) == settings_of(*engine),
{
    new_module(engine, binary)
}

spec fn env_semaphore(
    es: Seq<(String, Arc<tokio::sync::Semaphore>)>,
    env: Seq<char>,
) -> Option<Arc<tokio::sync::Semaphore>>
    decreases es.len(),
{
    if es.len() == 0 {
        None
    } else if es.last().0@ == env {
        Some(es.last().1)
    } else {
        env_semaphore(es.drop_last(), env)
    }
}

/// Compiles modules and keeps what was compiled.
pub struct WasmRunner {
    engine: wasmtime::Engine,
    modules: BoundedCache<wasmtime::Module>,
    serialized: BoundedCache<Vec<u8>>,
    semaphores: Vec<(String, Arc<tokio::sync::Semaphore>)>,
}

/// What is to be done next on the way to a module.
pub enum CompileAction {
    /// The module is in the cache, under this key.
    Ready([u8; 32]),
    /// Restore a module from bytes that a compatible engine wrote.
    Deserialize { key: [u8; 32], bytes: Vec<u8>, has_permit: bool },
    /// Wait for a permit to compile.
    AcquirePermit([u8; 32]),
    /// Compile the binary.
    Compile([u8; 32]),
    /// The module cannot be had.
    Fail(CompileError),
}

/// What became of compiling.
pub enum CompileOutcome {
    Compiled(wasmtime::Module),
    Failed(String),
    Lost(String),
    TimedOut,
}

/// Whether a module that comes from a source keeps the sandbox contract.
pub open spec fn is_valid(m: wasmtime::Module, source: Seq<u8>, limits: WasmLimits) -> bool {
    module_fault(module_tree(m, source), limits.max_memory_bytes) is None
}

/// Whether a module was checked with a source that has the given digest, and kept the sandbox
/// contract.
pub open spec fn was_accepted(m: wasmtime::Module, key: Seq<u8>) -> bool {
    exists|source: Seq<u8>, limits: WasmLimits| #[trigger]
        is_valid(m, source, limits) && sha256_of(source) == key
}

impl WasmRunner {
    /// The modules that are kept, under the digests of their binaries.
    pub closed spec fn modules(self) -> Map<Seq<u8>, wasmtime::Module> {
        self.modules@
    }

    /// Whether every module that is kept was checked with the source whose digest it is kept under,
    /// and kept the sandbox contract.
    pub open spec fn keeps_accepted(self) -> bool {
        forall|key: Seq<u8>| #[trigger]
            self.modules().contains_key(key) ==> was_accepted(self.modules()[key], key)
    }

    /// The compiled modules that are kept as bytes, under the digests of their binaries.
    pub closed spec fn serialized(self) -> Map<Seq<u8>, Vec<u8>> {
        self.serialized@
    }

    /// The engine.
    pub closed spec fn engine_value(self) -> wasmtime::Engine {
        self.engine
    }

    /// The semaphore of a deployment.
    pub closed spec fn semaphore_of(self, env: Seq<char>) -> Option<Arc<tokio::sync::Semaphore>> {
        env_semaphore(self.semaphores@, env)
    }

    /// Whether nothing but the modules and the bytes that are kept differs from `other`.
    pub open spec fn same_but_caches(self, other: WasmRunner) -> bool {
        &&& self.engine_value() == other.engine_value()
        &&& forall|env: Seq<char>| #[trigger] self.semaphore_of(env) == other.semaphore_of(env)
    }

    /// A runner with an engine for deterministic, sandboxed execution, and with empty caches.
    pub fn new() -> (r: Result<WasmRunner, String>)
        ensures
            r matches Ok(runner) ==> {
                &&& settings_of(runner.engine_value()).nan_canonicalization
                &&& !settings_of(runner.engine_value()).relaxed_simd
                &&& settings_of(runner.engine_value()).consume_fuel
                &&& settings_of(runner.engine_value()).gc
                &&& settings_of(runner.engine_value()).function_references
                &&& settings_of(runner.engine_value()).gc_heap_reservation == 64 * 1024 * 1024
                &&& settings_of(runner.engine_value()).gc_heap_growth == 32 * 1024 * 1024
                &&& runner.modules() == Map::<Seq<u8>, wasmtime::Module>::empty()
                &&& runner.serialized() == Map::<Seq<u8>, Vec<u8>>::empty()
                &&& runner.keeps_accepted()
                &&& forall|env: Seq<char>| #[trigger] runner.semaphore_of(env) is None
            },
    {
        WasmRunner::with_engine(new_engine(&engine_settings()))
    }

    /// A runner with an engine, and with empty caches, or why there is no engine.
    pub fn with_engine(made: Result<wasmtime::Engine, String>) -> (r: Result<WasmRunner, String>)
        ensures
            match made {
                Ok(engine) => {
                    &&& r matches Ok(runner)
                    &&& runner.engine_value() == engine
                    &&& runner.modules() == Map::<Seq<u8>, wasmtime::Module>::empty()
                    &&& runner.serialized() == Map::<Seq<u8>, Vec<u8>>::empty()
                    &&& runner.keeps_accepted()
                    &&& forall|env: Seq<char>| #[trigger] runner.semaphore_of(env) is None
                },
                Err(e) => r matches Err(text) && text == e,
            },
    {
        match made {
            Err(e) => Err(e),
            Ok(engine) => Ok(
                WasmRunner {
                    engine,
                    modules: BoundedCache::new(),
                    serialized: BoundedCache::new(),
                    semaphores: Vec::new(),
                },
            ),
        }
    }

    /// The engine behind this runner.
    pub fn engine(&self) -> (r: &wasmtime::Engine)
        ensures
            *r == self.engine_value(),
    {
        &self.engine
    }

    /// The semaphore of a deployment, which every call for that deployment gets; one with the most
    /// concurrent executions is made where there is none yet.
    pub fn execution_semaphore_for_env(&mut self, env: &str) -> (r: Arc<tokio::sync::Semaphore>)
        ensures
            match old(self).semaphore_of(env@) {
                Some(s) => r == s,
                None => semaphore_size(*r) == MAX_CONCURRENT_EXECUTIONS_PER_ENV,
            },
            forall|other: Seq<char>| #[trigger]
                final(self).semaphore_of(other) == if other == env@ {
                    Some(r)
                } else {
                    old(self).semaphore_of(other)
                },
            final(self).modules() == old(self).modules(),
            final(self).serialized() == old(self).serialized(),
            final(self).engine_value() == old(self).engine_value(),
    {
        let mut i: usize = self.semaphores.len();
        assert(self.semaphores@.take(i as int) =~= self.semaphores@);
        while i > 0
            invariant
                *self == *old(self),
                i <= self.semaphores.len(),
                env_semaphore(self.semaphores@, env@) == env_semaphore(
                    self.semaphores@.take(i as int),
                    env@,
                ),
            decreases i,
        {
            assert(self.semaphores@.take(i as int).drop_last() =~= self.semaphores@.take(i - 1));
            i -= 1;
            if same_text(self.semaphores[i].0.as_str(), env) {
                return self.semaphores[i].1.clone();
            }
        }
        let made = Arc::new(new_semaphore(MAX_CONCURRENT_EXECUTIONS_PER_ENV));
        let ghost before = self.semaphores@;
        self.semaphores.push((env.to_owned(), made.clone()));
        assert(self.semaphores@.drop_last() =~= before);
        made
    }

    /// A compiled module as bytes, to be restored later by an engine that is set up the same way.
    pub fn serialize_module(module: &wasmtime::Module) -> (r: Result<Vec<u8>, String>)
        ensures
            match serialized_module(*module) {
                Ok(b) => r matches Ok(v) && v@ == b,
                Err(e) => r matches Err(text) && text@ == "Failed to serialize WASM module: "@ + e,
            },
    {
        match module_bytes(module) {
            Ok(b) => Ok(b),
            Err(e) => Err(concat("Failed to serialize WASM module: ", e.as_str())),
        }
    }

    /// Keep a compiled module as bytes, under the digest of its binary.
    pub fn cache_serialized(&mut self, key: [u8; 32], bytes: Vec<u8>)
        ensures
            final(self).serialized() == cache_set(old(self).serialized(), key@, bytes),
            final(self).modules() == old(self).modules(),
            final(self).same_but_caches(*old(self)),
    {
        self.serialized.insert(key, bytes);
    }

    /// The bytes that are kept under a digest.
    pub fn get_serialized(&self, key: &[u8; 32]) -> (r: Option<Vec<u8>>)
        ensures
            match r {
                Some(b) => self.serialized().contains_key(key@) && b@ == self.serialized()[key@]@,
                None => !self.serialized().contains_key(key@),
            },
    {
        match self.serialized.get(key) {
            None => None,
            Some(b) => {
                let mut out: Vec<u8> = Vec::new();
                out.extend_from_slice(b.as_slice());
                assert(out@ =~= b@);
                Some(out)
            },
        }
    }

    /// The module that is kept under a digest.
    pub fn cached_module(&self, key: &[u8; 32]) -> (r: Option<&wasmtime::Module>)
        ensures
            match r {
                Some(m) => self.modules().contains_key(key@) && *m == self.modules()[key@],
                None => !self.modules().contains_key(key@),
            },
    {
        self.modules.get(key)
    }

    fn look_up(&self, key: [u8; 32], has_permit: bool) -> (r: CompileAction)
        ensures
            self.next_step(key@, has_permit, r),
    {
        if self.modules.get(&key).is_some() {
            return CompileAction::Ready(key);
        }
        match self.get_serialized(&key) {
            Some(bytes) => CompileAction::Deserialize { key, bytes, has_permit },
            None => if has_permit {
                CompileAction::Compile(key)
            } else {
                CompileAction::AcquirePermit(key)
            },
        }
    }

    /// What is done for a digest: use the module that is kept, or else restore it from the bytes
    /// that are kept, or else compile it, for which a permit is needed.
    pub open spec fn next_step(self, key: Seq<u8>, has_permit: bool, action: CompileAction) -> bool {
        if self.modules().contains_key(key) {
            action matches CompileAction::Ready(k) && k@ == key
        } else if self.serialized().contains_key(key) {
            action matches CompileAction::Deserialize { key: k, bytes, has_permit: p } && k@ == key
                && bytes@ == self.serialized()[key]@ && p == has_permit
        } else {
            without_module(key, has_permit, action)
        }
    }

    /// Start getting the module of a binary, which has to be small enough.
    pub fn get_or_compile_module(&self, binary: &[u8], limits: &WasmLimits) -> (r: CompileAction)
        ensures
            if binary@.len() > limits.max_module_size {
                r matches CompileAction::Fail(e) && e@ == CompileFault::TooLarge(
                    binary@.len(),
                    limits.max_module_size as nat,
                )
            } else {
                self.next_step(sha256_of(binary@), false, r)
            },
    {
        if binary.len() > limits.max_module_size {
            return CompileAction::Fail(
                CompileError::TooLarge(binary.len(), limits.max_module_size),
            );
        }
        self.look_up(sha256(binary), false)
    }

    /// Go on after restoring the module of a source, or failing to. A module that was restored is
    /// kept if it keeps the sandbox contract; otherwise the source is compiled.
    pub fn module_restored(
        &mut self,
        key: [u8; 32],
        restored: Option<wasmtime::Module>,
        has_permit: bool,
        source: &[u8],
        limits: &WasmLimits,
    ) -> (r: CompileAction)
        ensures
            final(self).serialized() == old(self).serialized(),
            final(self).same_but_caches(*old(self)),
            old(self).keeps_accepted() && key@ == sha256_of(source@)
                ==> final(self).keeps_accepted(),
            match restored {
                Some(m) if is_valid(m, source@, *limits) => {
                    &&& r matches CompileAction::Ready(k)
                    &&& k@ == key@
                    &&& final(self).modules() == cache_set(old(self).modules(), key@, m)
                },
                _ => {
                    &&& without_module(key@, has_permit, r)
                    &&& final(self).modules() == old(self).modules()
                },
            },
    {
        if let Some(m) = restored {
            if validate_module(&describe_module(&m, source), limits).is_ok() {
                assert(is_valid(m, source@, *limits));
                self.modules.insert(key, m);
                proof {
                    if key@ == sha256_of(source@) {
                        lemma_accepted_stay(*old(self), *self, key@, m);
                    }
                }
                return CompileAction::Ready(key);
            }
        }
        if has_permit {
            CompileAction::Compile(key)
        } else {
            CompileAction::AcquirePermit(key)
        }
    }

    /// Go on after waiting for a permit. Another task may have compiled the same module meanwhile.
    pub fn permit_acquired(&self, key: [u8; 32], acquired: bool) -> (r: CompileAction)
        ensures
            if acquired {
                self.next_step(key@, true, r)
            } else {
                r matches CompileAction::Fail(e) && e@ == CompileFault::PermitClosed
            },
    {
        if acquired {
            self.look_up(key, true)
        } else {
            CompileAction::Fail(CompileError::PermitClosed)
        }
    }

    /// Go on after compiling. A module that keeps the sandbox contract is kept, and so are its
    /// bytes where it can be serialized.
    pub fn module_compiled(
        &mut self,
        key: [u8; 32],
        outcome: CompileOutcome,
        source: &[u8],
        limits: &WasmLimits,
    ) -> (r: CompileAction)
        ensures
            final(self).same_but_caches(*old(self)),
            old(self).keeps_accepted() && key@ == sha256_of(source@)
                ==> final(self).keeps_accepted(),
            match outcome {
                CompileOutcome::Compiled(m) if is_valid(m, source@, *limits) => {
                    &&& r matches CompileAction::Ready(k)
                    &&& k@ == key@
                    &&& final(self).modules() == cache_set(old(self).modules(), key@, m)
                    &&& match serialized_module(m) {
                        Ok(b) => exists|v: Vec<u8>|
                            v@ == b && final(self).serialized() == #[trigger] cache_set(
                                old(self).serialized(),
                                key@,
                                v,
                            ),
                        Err(_) => final(self).serialized() == old(self).serialized(),
                    }
                },
                _ => {
                    &&& r matches CompileAction::Fail(e)
                    &&& e@ == compile_fault(outcome, source@, *limits)
                    &&& final(self).modules() == old(self).modules()
                    &&& final(self).serialized() == old(self).serialized()
                },
            },
    {
        match outcome {
            CompileOutcome::TimedOut => CompileAction::Fail(CompileError::TimedOut),
            CompileOutcome::Lost(e) => CompileAction::Fail(CompileError::Lost(e)),
            CompileOutcome::Failed(e) => CompileAction::Fail(CompileError::Failed(e)),
            CompileOutcome::Compiled(m) => {
                match validate_module(&describe_module(&m, source), limits) {
                    Err(f) => CompileAction::Fail(CompileError::Invalid(f)),
                    Ok(()) => {
                        assert(is_valid(m, source@, *limits));
                        if let Ok(bytes) = module_bytes(&m) {
                            let ghost kept = bytes;
                            self.serialized.insert(key, bytes);
                            assert(self.serialized() == cache_set(
                                old(self).serialized(),
                                key@,
                                kept,
                            ));
                        }
                        self.modules.insert(key, m);
                        proof {
                            if key@ == sha256_of(source@) {
                                lemma_accepted_stay(*old(self), *self, key@, m);
                            }
                        }
                        CompileAction::Ready(key)
                    },
                }
            },
        }
    }
}

proof fn lemma_accepted_stay(
    before: WasmRunner,
    after: WasmRunner,
    key: Seq<u8>,
    m: wasmtime::Module,
)
    requires
        after.modules() == cache_set(before.modules(), key, m),
        was_accepted(m, key),
    ensures
        before.keeps_accepted() ==> after.keeps_accepted(),
{
    if before.keeps_accepted() {
        assert forall|k: Seq<u8>| #[trigger] after.modules().contains_key(k) implies was_accepted(
            after.modules()[k],
            k,
        ) by {
            if k != key {
                assert(before.modules().contains_key(k));
            }
        }
    }
}

/// Why a module cannot be had after compiling.
pub open spec fn compile_fault(
    outcome: CompileOutcome,
    source: Seq<u8>,
    limits: WasmLimits,
) -> CompileFault {
    match outcome {
        CompileOutcome::TimedOut => CompileFault::TimedOut,
        CompileOutcome::Lost(e) => CompileFault::Lost(e@),
        CompileOutcome::Failed(e) => CompileFault::Failed(e@),
        CompileOutcome::Compiled(m) => CompileFault::Invalid(
            module_fault(module_tree(m, source), limits.max_memory_bytes)->0,
        ),
    }
}

/// What is done for a digest under which nothing is kept.
pub open spec fn without_module(key: Seq<u8>, has_permit: bool, action: CompileAction) -> bool {
    if has_permit {
        action matches CompileAction::Compile(k) && k@ == key
    } else {
        action matches CompileAction::AcquirePermit(k) && k@ == key
    }
}

/// A binary is accepted or turned down alike, whichever engine compiled it.
pub proof fn engines_agree_on_validity(
    binary: Seq<u8>,
    a: wasmtime::Module,
    b: wasmtime::Module,
    limits: WasmLimits,
)
    requires
        module_shape(module_tree(a, binary)) == binary_shape(binary),
        module_shape(module_tree(b, binary)) == binary_shape(binary),
    ensures
        is_valid(a, binary, limits) == is_valid(b, binary, limits),
{
    validity_depends_on_shape(
        module_tree(a, binary),
        module_tree(b, binary),
        limits.max_memory_bytes,
    );
}

/// Every module that a runner uses again without compiling was checked with the source that it is
/// asked for, or with one of the same digest, and kept the sandbox contract: it imports nothing from
/// outside the host functions and WASI.
pub proof fn ready_modules_were_accepted(
    runner: WasmRunner,
    key: Seq<u8>,
    has_permit: bool,
    action: CompileAction,
    i: int,
)
    requires
        runner.keeps_accepted(),
        runner.next_step(key, has_permit, action),
        action is Ready,
        0 <= i < module_imports(runner.modules()[key]).len(),
    ensures
        was_accepted(runner.modules()[key], key),
        import_fault(module_imports(runner.modules()[key])[i]) is None,
{
    let m = runner.modules()[key];
    assert(runner.modules().contains_key(key));
    let (source, limits) = choose|source: Seq<u8>, limits: WasmLimits| #[trigger]
        is_valid(m, source, limits) && sha256_of(source) == key;
    valid_imports_are_sandboxed(module_tree(m, source), limits.max_memory_bytes, i);
    assert(module_tree(m, source).imports[i] == module_imports(m)[i]);
}

/// A module is compiled only with a permit: whatever is kept, the first step never compiles.
pub proof fn first_step_never_compiles(runner: WasmRunner, key: Seq<u8>, action: CompileAction)
    requires
        runner.next_step(key, false, action),
    ensures
        !(action is Compile),
{
}

/// A module that was compiled or restored once is used again without compiling, until the cache is
/// emptied.
pub proof fn kept_module_is_reused(
    before: Map<Seq<u8>, wasmtime::Module>,
    runner: WasmRunner,
    key: Seq<u8>,
    m: wasmtime::Module,
    has_permit: bool,
    action: CompileAction,
)
    requires
        runner.modules() == cache_set(before, key, m),
        runner.next_step(key, has_permit, action),
    ensures
        action is Ready,
        runner.modules()[key] == m,
{
}

/// A module that is kept is used; failing that, one whose bytes are kept is restored from them; and
/// failing that, it is compiled with a permit, which is waited for first. Each step is about the
/// module that was asked for.
pub proof fn nearest_module_is_used(
    runner: WasmRunner,
    key: Seq<u8>,
    has_permit: bool,
    action: CompileAction,
)
    requires
        runner.next_step(key, has_permit, action),
    ensures
        action is Ready <==> runner.modules().contains_key(key),
        action is Deserialize <==> !runner.modules().contains_key(key)
            && runner.serialized().contains_key(key),
        action is Compile <==> !runner.modules().contains_key(key)
            && !runner.serialized().contains_key(key) && has_permit,
        action is AcquirePermit <==> !runner.modules().contains_key(key)
            && !runner.serialized().contains_key(key) && !has_permit,
        action matches CompileAction::Ready(k) ==> k@ == key,
        action matches CompileAction::Deserialize { key: k, bytes, has_permit: p } ==> k@ == key
            && bytes@ == runner.serialized()[key]@ && p == has_permit,
        action matches CompileAction::Compile(k) ==> k@ == key,
        action matches CompileAction::AcquirePermit(k) ==> k@ == key,
{
}

/// A module that cannot be restored is compiled where there is a permit, and otherwise a permit is
/// waited for.
pub proof fn unrestored_modules_are_compiled(key: Seq<u8>, has_permit: bool, action: CompileAction)
    requires
        without_module(key, has_permit, action),
    ensures
        has_permit ==> (action matches CompileAction::Compile(k) && k@ == key),
        !has_permit ==> (action matches CompileAction::AcquirePermit(k) && k@ == key),
{
}

/// What is said where no module comes of compiling: that it took too long, what was said of the
/// loss or the failure, or what is wrong with the module.
pub proof fn compile_faults_say_why(
    outcome: CompileOutcome,
    source: Seq<u8>,
    limits: WasmLimits,
)
    ensures
        outcome is TimedOut <==> compile_fault(outcome, source, limits) == CompileFault::TimedOut,
        outcome matches CompileOutcome::Lost(e) ==> compile_fault(outcome, source, limits)
            == CompileFault::Lost(e@),
        outcome matches CompileOutcome::Failed(e) ==> compile_fault(outcome, source, limits)
            == CompileFault::Failed(e@),
        outcome matches CompileOutcome::Compiled(m) ==> !is_valid(m, source, limits) ==> (
        compile_fault(outcome, source, limits) matches CompileFault::Invalid(f) && module_fault(
            module_tree(m, source),
            limits.max_memory_bytes,
        ) == Some(f)),
{
}

/// The memories that count for a module are those that its binary declares; where there is no
/// binary, or none that can be read, there are none.
pub proof fn memories_come_from_the_binary(m: wasmtime::Module, source: Seq<u8>)
    ensures
        module_tree(m, source).memories == source_memories(source),
        binary_of(source) is None ==> source_memories(source).len() == 0,
        binary_of(source) matches Some(b) ==> (match declared_maxima(b) {
            Some(maxima) => source_memories(source) == maxima,
            None => source_memories(source).len() == 0,
        }),
        module_tree(m, source).exports == module_exports(m),
        module_tree(m, source).imports == module_imports(m),
{
}

/// A binary that is too large is refused, whatever is kept of it; any other is looked for under the
/// hash of its bytes, and is not compiled before there is a permit.
pub proof fn large_binaries_are_refused(
    runner: WasmRunner,
    binary: &[u8],
    limits: WasmLimits,
    action: CompileAction,
)
    requires
        call_ensures(WasmRunner::get_or_compile_module, (&runner, binary, &limits), action),
    ensures
        action is Fail <==> binary@.len() > limits.max_module_size,
        action matches CompileAction::Fail(e) ==> e@ == CompileFault::TooLarge(
            binary@.len(),
            limits.max_module_size as nat,
        ),
        action is Ready <==> binary@.len() <= limits.max_module_size
            && runner.modules().contains_key(sha256_of(binary@)),
        !(action is Compile),
{
}

/// With a permit a module is compiled where it is still not kept; without one nothing is.
pub proof fn permits_lead_to_compiling(
    runner: WasmRunner,
    key: [u8; 32],
    acquired: bool,
    action: CompileAction,
)
    requires
        call_ensures(WasmRunner::permit_acquired, (&runner, key, acquired), action),
    ensures
        !acquired ==> (action matches CompileAction::Fail(e) && e@ == CompileFault::PermitClosed),
        acquired ==> !(action is Fail) && !(action is AcquirePermit),
        action is Compile <==> acquired && !runner.modules().contains_key(key@)
            && !runner.serialized().contains_key(key@),
{
}

/// The engine makes floating point the same everywhere, counts fuel, and has no instructions whose
/// results differ between machines.
pub proof fn engines_are_deterministic(s: EngineSettings)
    requires
        call_ensures(engine_settings, (), s),
    ensures
        s.nan_canonicalization && s.consume_fuel && !s.relaxed_simd,
        s.gc && s.function_references,
        s.gc_heap_reservation == 67_108_864,
        s.gc_heap_growth == 33_554_432,
{
}

/// What is said where a module cannot be had says how large it is and how large it may be, what was
/// said of the failure, or what is wrong with it.
pub proof fn compile_faults_are_explained(f: CompileFault)
    ensures
        f matches CompileFault::TooLarge(n, max) ==> compile_fault_text(f) == "WASM module is "@
            + decimal(n) + " bytes, exceeding the limit of "@ + decimal(max) + " bytes"@,
        f matches CompileFault::Lost(s) ==> compile_fault_text(f) == s,
        f matches CompileFault::Failed(s) ==> s.len() <= compile_fault_text(f).len()
            && compile_fault_text(f).skip(compile_fault_text(f).len() - s.len()) == s,
        f matches CompileFault::Invalid(fault) ==> compile_fault_text(f) == fault_text(fault),
{
    if let CompileFault::Failed(s) = f {
        let t = compile_fault_text(f);
        assert(t.skip(t.len() - s.len()) =~= s);
    }
}

/// Each environment has a semaphore of its own, for 64 executions, which it keeps.
pub proof fn environments_have_their_semaphore(
    runner: &mut WasmRunner,
    env: &str,
    first: Arc<tokio::sync::Semaphore>,
    later: &mut WasmRunner,
    again: Arc<tokio::sync::Semaphore>,
)
    requires
        call_ensures(WasmRunner::execution_semaphore_for_env, (runner, env), first),
        *later == *final(runner),
        call_ensures(WasmRunner::execution_semaphore_for_env, (later, env), again),
    ensures
        again == first,
        old(runner).semaphore_of(env@) is None ==> semaphore_size(*first) == 64,
        old(runner).semaphore_of(env@) matches Some(s) ==> first == s,
{
}

/// A module that compiles and is valid is kept, and is ready the next time it is asked for; its
/// bytes are kept where it has any. Of one that does not, nothing is kept.
pub proof fn compiled_modules_are_kept(
    runner: &mut WasmRunner,
    key: [u8; 32],
    outcome: CompileOutcome,
    source: &[u8],
    limits: WasmLimits,
    action: CompileAction,
    again: CompileAction,
)
    requires
        call_ensures(
            WasmRunner::module_compiled,
            (runner, key, outcome, source, &limits),
            action,
        ),
        key@ == sha256_of(source@),
        call_ensures(WasmRunner::get_or_compile_module, (final(runner), source, &limits), again),
    ensures
        action is Ready || action is Fail,
        action is Ready <==> (outcome matches CompileOutcome::Compiled(m) && is_valid(
            m,
            source@,
            limits,
        )),
        action is Ready && source@.len() <= limits.max_module_size ==> again is Ready,
        action is Ready ==> final(runner).modules().contains_key(key@) && outcome
            == CompileOutcome::Compiled(final(runner).modules()[key@]),
        action is Fail ==> final(runner).modules() == old(runner).modules()
            && final(runner).serialized() == old(runner).serialized(),
        outcome matches CompileOutcome::Compiled(m) ==> action is Ready ==> (
        serialized_module(m) matches Ok(b) ==> final(runner).serialized().contains_key(key@)
            && final(runner).serialized()[key@]@ == b),
{
}

/// A module that is restored and valid is kept and ready. One that could not be restored, or is not
/// valid, is compiled instead, with the permit that there is or after waiting for one; nothing is
/// kept of it.
pub proof fn restored_modules_are_checked(
    runner: &mut WasmRunner,
    key: [u8; 32],
    restored: Option<wasmtime::Module>,
    has_permit: bool,
    source: &[u8],
    limits: WasmLimits,
    action: CompileAction,
)
    requires
        call_ensures(
            WasmRunner::module_restored,
            (runner, key, restored, has_permit, source, &limits),
            action,
        ),
    ensures
        action is Ready <==> (restored matches Some(m) && is_valid(m, source@, limits)),
        action is Ready ==> final(runner).modules().contains_key(key@) && restored == Some(
            final(runner).modules()[key@],
        ),
        !(action is Ready) ==> final(runner).modules() == old(runner).modules() && (action is Compile
            <==> has_permit) && (action is AcquirePermit <==> !has_permit),
        final(runner).serialized() == old(runner).serialized(),
{
}

/// Bytes that are kept for a module are found under its key.
pub proof fn kept_bytes_are_found(
    runner: &mut WasmRunner,
    key: [u8; 32],
    bytes: Vec<u8>,
    found: Option<Vec<u8>>,
)
    requires
        call_ensures(WasmRunner::cache_serialized, (runner, key, bytes), ()),
        call_ensures(WasmRunner::get_serialized, (final(runner), &key), found),
    ensures
        found matches Some(b) && b@ == bytes@,
        final(runner).modules() == old(runner).modules(),
{
}

/// A runner starts with the engine that was made for it, and with nothing kept; where none could be
/// made there is no runner, and what was said of it is passed on.
pub proof fn runners_start_empty(
    made: Result<wasmtime::Engine, String>,
    runner: Result<WasmRunner, String>,
    key: [u8; 32],
    found: Option<&wasmtime::Module>,
)
    requires
        call_ensures(WasmRunner::with_engine, (made,), runner),
        runner is Ok ==> call_ensures(WasmRunner::cached_module, (&runner->Ok_0, &key), found),
    ensures
        runner is Ok <==> made is Ok,
        runner matches Ok(r) ==> made == Ok::<wasmtime::Engine, String>(r.engine_value()) && found
            is None,
        runner matches Err(e) ==> made == Err::<wasmtime::Engine, String>(e),
{
}

/// A module is valid under limits exactly where nothing is wrong with what it exports and imports
/// and with the memories of its source; a higher limit on memory makes no valid module invalid.
pub proof fn valid_modules_have_no_fault(
    m: wasmtime::Module,
    source: Seq<u8>,
    limits: WasmLimits,
    higher: WasmLimits,
)
    requires
        limits.max_memory_bytes <= higher.max_memory_bytes,
    ensures
        is_valid(m, source, limits) <==> module_fault(
            ModuleTree {
                exports: module_exports(m),
                imports: module_imports(m),
                memories: source_memories(source),
            },
            limits.max_memory_bytes,
        ) is None,
        is_valid(m, source, limits) ==> is_valid(m, source, higher),
{
    let t = module_tree(m, source);
    if is_valid(m, source, limits) {
        higher_limits_accept_more(t, limits.max_memory_bytes, higher.max_memory_bytes);
    }
}

} // verus!
