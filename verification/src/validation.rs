//! Module validation: a module that breaks the sandbox contract is turned down before it is
//! instantiated.

use vstd::prelude::*;
use vstd::string::*;
use crate::abi::{
    CALL_DATA_ALLOC, CALL_DATA_LOAD, DB_COUNT, DB_DELETE, DB_GET, DB_INSERT, DB_PATCH, DB_QUERY,
    DB_REPLACE, ERROR_SET, GUEST_FUNCTIONS, GUEST_RUN, HOST_FN_MODULE, INPUT_LENGTH, INPUT_LOAD,
    LOG, NOW_MS, OUTPUT_SET, RANDOM_BYTES,
};
use crate::limits::WasmLimits;
use crate::text::{
    concat, decimal, decimal_text, is_listed, join, joined, listed, occurs,
    parts_occur_where_they_stand, same_text, texts,
};

verus! {

/// The import module of WASI preview 1, which guests may use for their runtime.
pub const WASI_P1_MODULE: &'static str = "wasi_snapshot_preview1";

/// The page size of linear memory.
pub const WASM_PAGE_SIZE: u64 = 65_536;

/// What an export is. The types of a function are given by their names.
#[derive(Debug)]
pub enum ExportKind {
    Func { params: Vec<String>, results: Vec<String> },
    Memory { maximum: Option<u64> },
    Other,
}

/// An export of a module.
#[derive(Debug)]
pub struct ExportInfo {
    pub name: String,
    pub kind: ExportKind,
}

/// An import of a module.
#[derive(Debug)]
pub struct ImportInfo {
    pub module: String,
    pub name: String,
    /// The maximum in pages, where a memory with a maximum is imported.
    pub maximum: Option<u64>,
}

/// What a module exports and imports, and the maxima in pages of the memories that it declares for
/// itself, exported or not.
#[derive(Debug)]
pub struct ModuleInfo {
    pub exports: Vec<ExportInfo>,
    pub imports: Vec<ImportInfo>,
    pub memories: Vec<Option<u64>>,
}

/// What an export is, as content.
pub enum KindTree {
    Func(Seq<Seq<char>>, Seq<Seq<char>>),
    Memory(Option<u64>),
    Other,
}

/// The content of an export.
pub struct ExportTree {
    pub name: Seq<char>,
    pub kind: KindTree,
}

/// The content of an import.
pub struct ImportTree {
    pub module: Seq<char>,
    pub name: Seq<char>,
    pub maximum: Option<u64>,
}

/// The content of what a module exports, imports and declares.
pub struct ModuleTree {
    pub exports: Seq<ExportTree>,
    pub imports: Seq<ImportTree>,
    pub memories: Seq<Option<u64>>,
}

impl View for ExportInfo {
    type V = ExportTree;

    open spec fn view(&self) -> ExportTree {
        ExportTree {
            name: self.name@,
            kind: match self.kind {
                ExportKind::Func { params, results } => KindTree::Func(
                    texts(params@),
                    texts(results@),
                ),
                ExportKind::Memory { maximum } => KindTree::Memory(maximum),
                ExportKind::Other => KindTree::Other,
            },
        }
    }
}

impl View for ImportInfo {
    type V = ImportTree;

    open spec fn view(&self) -> ImportTree {
        ImportTree { module: self.module@, name: self.name@, maximum: self.maximum }
    }
}

impl View for ModuleInfo {
    type V = ModuleTree;

    open spec fn view(&self) -> ModuleTree {
        ModuleTree {
            exports: Seq::new(self.exports@.len(), |i: int| self.exports@[i]@),
            imports: Seq::new(self.imports@.len(), |i: int| self.imports@[i]@),
            memories: self.memories@,
        }
    }
}

/// What an export is, without the names of types, which may hold indices that the engine gave.
pub enum KindShape {
    /// A function; whether it takes nothing and returns an `i32`.
    Func { is_entry: bool },
    Memory(Option<u64>),
    Other,
}

/// What a module exports and imports, without the names of types.
pub struct ModuleShape {
    pub exports: Seq<(Seq<char>, KindShape)>,
    pub imports: Seq<ImportTree>,
}

/// The signature of an entry point: it takes nothing and returns an `i32`.
pub open spec fn entry_kind() -> KindTree {
    KindTree::Func(Seq::empty(), seq!["i32"@])
}

/// What an export is, without the names of types.
pub open spec fn kind_shape(k: KindTree) -> KindShape {
    match k {
        KindTree::Func(_, _) => KindShape::Func { is_entry: k == entry_kind() },
        KindTree::Memory(maximum) => KindShape::Memory(maximum),
        KindTree::Other => KindShape::Other,
    }
}

/// What a module exports and imports, without the names of types.
pub open spec fn module_shape(m: ModuleTree) -> ModuleShape {
    ModuleShape {
        exports: m.exports.map_values(|e: ExportTree| (e.name, kind_shape(e.kind))),
        imports: m.imports,
    }
}

/// Why a module is turned down, as content.
pub enum FaultTree {
    MissingExport(Seq<char>),
    HostImport(Seq<char>),
    WasiImport(Seq<char>),
    ForeignImport(Seq<char>, Seq<char>),
    MemoryOverflow,
    MemoryLimit(u64, u64),
    BadSignature(Seq<char>, Seq<char>),
}

/// Why a module is turned down.
#[derive(Debug)]
pub enum ModuleFault {
    /// An export that every guest has is missing.
    MissingExport(String),
    /// An import under `env` that is no host function.
    HostImport(String),
    /// An import under `wasi_snapshot_preview1` that is no WASI function.
    WasiImport(String),
    /// An import from another module.
    ForeignImport(String, String),
    /// The maximum of a memory is no number of bytes.
    MemoryOverflow,
    /// The maximum of a memory, in bytes, is over the limit.
    MemoryLimit(u64, u64),
    /// An entry point is no function without parameters that returns an `i32`; its name, and the
    /// signature that it has.
    BadSignature(String, String),
}

impl View for ModuleFault {
    type V = FaultTree;

    open spec fn view(&self) -> FaultTree {
        match *self {
            ModuleFault::MissingExport(s) => FaultTree::MissingExport(s@),
            ModuleFault::HostImport(s) => FaultTree::HostImport(s@),
            ModuleFault::WasiImport(s) => FaultTree::WasiImport(s@),
            ModuleFault::ForeignImport(m, s) => FaultTree::ForeignImport(m@, s@),
            ModuleFault::MemoryOverflow => FaultTree::MemoryOverflow,
            ModuleFault::MemoryLimit(max, limit) => FaultTree::MemoryLimit(max, limit),
            ModuleFault::BadSignature(n, s) => FaultTree::BadSignature(n@, s@),
        }
    }
}

/// The host functions under `env`.
pub open spec fn host_functions() -> Seq<&'static str> {
    seq![
        INPUT_LENGTH,
        INPUT_LOAD,
        CALL_DATA_ALLOC,
        CALL_DATA_LOAD,
        OUTPUT_SET,
        ERROR_SET,
        LOG,
        NOW_MS,
        RANDOM_BYTES,
        DB_GET,
        DB_COUNT,
        DB_INSERT,
        DB_REPLACE,
        DB_PATCH,
        DB_DELETE,
        DB_QUERY,
    ]
}

/// The functions of WASI preview 1 that guests may import.
pub open spec fn wasi_functions() -> Seq<&'static str> {
    seq![
        "args_get",
        "args_sizes_get",
        "clock_res_get",
        "clock_time_get",
        "environ_get",
        "environ_sizes_get",
        "fd_advise",
        "fd_allocate",
        "fd_close",
        "fd_datasync",
        "fd_fdstat_get",
        "fd_fdstat_set_flags",
        "fd_fdstat_set_rights",
        "fd_filestat_get",
        "fd_filestat_set_size",
        "fd_filestat_set_times",
        "fd_pread",
        "fd_prestat_dir_name",
        "fd_prestat_get",
        "fd_pwrite",
        "fd_read",
        "fd_readdir",
        "fd_renumber",
        "fd_seek",
        "fd_sync",
        "fd_tell",
        "fd_write",
        "path_create_directory",
        "path_filestat_get",
        "path_filestat_set_times",
        "path_link",
        "path_open",
        "path_readlink",
        "path_remove_directory",
        "path_rename",
        "path_symlink",
        "path_unlink_file",
        "poll_oneoff",
        "proc_exit",
        "proc_raise",
        "random_get",
        "sched_yield",
        "sock_accept",
        "sock_recv",
        "sock_send",
        "sock_shutdown",
    ]
}

/// What is wrong with an import.
pub open spec fn import_fault(i: ImportTree) -> Option<FaultTree> {
    if i.module == HOST_FN_MODULE@ {
        if listed(host_functions(), i.name) {
            None
        } else {
            Some(FaultTree::HostImport(i.name))
        }
    } else if i.module == WASI_P1_MODULE@ {
        if listed(wasi_functions(), i.name) {
            None
        } else {
            Some(FaultTree::WasiImport(i.name))
        }
    } else {
        Some(FaultTree::ForeignImport(i.module, i.name))
    }
}

/// A list of types, as text.
pub open spec fn types_text(ts: Seq<Seq<char>>) -> Seq<char> {
    "Some(["@ + joined(ts, ", "@) + "])"@
}

/// The signature of an export, as text.
pub open spec fn signature_text(k: KindTree) -> Seq<char> {
    match k {
        KindTree::Func(params, results) => types_text(params) + " -> "@ + types_text(results),
        _ => "None -> None"@,
    }
}

/// What is wrong with the signature of an export: an entry point has another one.
pub open spec fn signature_fault(e: ExportTree) -> Option<FaultTree> {
    if (e.name == GUEST_RUN@ || e.name == GUEST_FUNCTIONS@) && e.kind != entry_kind() {
        Some(FaultTree::BadSignature(e.name, signature_text(e.kind)))
    } else {
        None
    }
}

/// What is wrong with the maximum of a memory, in pages.
pub open spec fn memory_fault(maximum: Option<u64>, max_memory_bytes: u64) -> Option<FaultTree> {
    match maximum {
        None => None,
        Some(max) => if max * WASM_PAGE_SIZE > u64::MAX {
            Some(FaultTree::MemoryOverflow)
        } else if max * WASM_PAGE_SIZE > max_memory_bytes {
            Some(FaultTree::MemoryLimit((max * WASM_PAGE_SIZE) as u64, max_memory_bytes))
        } else {
            None
        },
    }
}

/// The maximum of the memory that an export is, where it is one with a maximum.
pub open spec fn export_maximum(k: KindTree) -> Option<u64> {
    match k {
        KindTree::Memory(maximum) => maximum,
        _ => None,
    }
}

/// The first fault, if there is one.
pub open spec fn first_fault(fs: Seq<Option<FaultTree>>) -> Option<FaultTree>
    decreases fs.len(),
{
    if fs.len() == 0 {
        None
    } else if fs[0] is Some {
        fs[0]
    } else {
        first_fault(fs.skip(1))
    }
}

/// Whether a module exports a name.
pub open spec fn exports_name(m: ModuleTree, name: Seq<char>) -> bool {
    exists|i: int| 0 <= i < m.exports.len() && (#[trigger] m.exports[i]).name == name
}

/// The first fault of the signatures of a module's exports.
pub open spec fn signatures_fault(m: ModuleTree) -> Option<FaultTree> {
    first_fault(m.exports.map_values(|e: ExportTree| signature_fault(e)))
}

/// The first fault of a module's imports.
pub open spec fn imports_fault(m: ModuleTree) -> Option<FaultTree> {
    first_fault(m.imports.map_values(|i: ImportTree| import_fault(i)))
}

/// The maxima of all memories of a module: those that it exports, declares and imports.
pub open spec fn memory_maxima(m: ModuleTree) -> Seq<Option<u64>> {
    m.exports.map_values(|e: ExportTree| export_maximum(e.kind)) + m.memories
        + m.imports.map_values(|i: ImportTree| i.maximum)
}

/// The first fault of some maxima of memories.
pub open spec fn maxima_fault(maxima: Seq<Option<u64>>, max_memory_bytes: u64) -> Option<FaultTree> {
    first_fault(maxima.map_values(|max: Option<u64>| memory_fault(max, max_memory_bytes)))
}

/// What is wrong with a module. In this order: an entry point is missing, or has another signature;
/// an import is not allowed; the maximum of a memory is over the limit.
pub open spec fn module_fault(m: ModuleTree, max_memory_bytes: u64) -> Option<FaultTree> {
    if !exports_name(m, GUEST_RUN@) {
        Some(FaultTree::MissingExport(GUEST_RUN@))
    } else if !exports_name(m, GUEST_FUNCTIONS@) {
        Some(FaultTree::MissingExport(GUEST_FUNCTIONS@))
    } else if signatures_fault(m) is Some {
        signatures_fault(m)
    } else if imports_fault(m) is Some {
        imports_fault(m)
    } else {
        maxima_fault(memory_maxima(m), max_memory_bytes)
    }
}

fn is_host_function(name: &str) -> (r: bool)
    ensures
        r == listed(host_functions(), name@),
{
    let names: [&str; 16] = [
        INPUT_LENGTH,
        INPUT_LOAD,
        CALL_DATA_ALLOC,
        CALL_DATA_LOAD,
        OUTPUT_SET,
        ERROR_SET,
        LOG,
        NOW_MS,
        RANDOM_BYTES,
        DB_GET,
        DB_COUNT,
        DB_INSERT,
        DB_REPLACE,
        DB_PATCH,
        DB_DELETE,
        DB_QUERY,
    ];
    assert(names@ =~= host_functions());
    is_listed(&names, name)
}

fn is_wasi_function(name: &str) -> (r: bool)
    ensures
        r == listed(wasi_functions(), name@),
{
    let names: [&str; 46] = [
        "args_get",
        "args_sizes_get",
        "clock_res_get",
        "clock_time_get",
        "environ_get",
        "environ_sizes_get",
        "fd_advise",
        "fd_allocate",
        "fd_close",
        "fd_datasync",
        "fd_fdstat_get",
        "fd_fdstat_set_flags",
        "fd_fdstat_set_rights",
        "fd_filestat_get",
        "fd_filestat_set_size",
        "fd_filestat_set_times",
        "fd_pread",
        "fd_prestat_dir_name",
        "fd_prestat_get",
        "fd_pwrite",
        "fd_read",
        "fd_readdir",
        "fd_renumber",
        "fd_seek",
        "fd_sync",
        "fd_tell",
        "fd_write",
        "path_create_directory",
        "path_filestat_get",
        "path_filestat_set_times",
        "path_link",
        "path_open",
        "path_readlink",
        "path_remove_directory",
        "path_rename",
        "path_symlink",
        "path_unlink_file",
        "poll_oneoff",
        "proc_exit",
        "proc_raise",
        "random_get",
        "sched_yield",
        "sock_accept",
        "sock_recv",
        "sock_send",
        "sock_shutdown",
    ];
    assert(names@ =~= wasi_functions());
    is_listed(&names, name)
}

fn describe_types(ts: &Vec<String>) -> (r: String)
    ensures
        r@ == types_text(texts(ts@)),
{
    concat(concat("Some([", join(ts, ", ").as_str()).as_str(), "])")
}

fn describe_signature(e: &ExportInfo) -> (r: String)
    ensures
        r@ == signature_text(e@.kind),
{
    match &e.kind {
        ExportKind::Func { params, results } => concat(
            concat(describe_types(params).as_str(), " -> ").as_str(),
            describe_types(results).as_str(),
        ),
        _ => "None -> None".to_owned(),
    }
}

fn check_import(i: &ImportInfo) -> (r: Result<(), ModuleFault>)
    ensures
        match r {
            Ok(()) => import_fault(i@) is None,
            Err(f) => import_fault(i@) == Some(f@),
        },
{
    let name = i.name.as_str();
    if same_text(i.module.as_str(), HOST_FN_MODULE) {
        if is_host_function(name) {
            Ok(())
        } else {
            Err(ModuleFault::HostImport(name.to_owned()))
        }
    } else if same_text(i.module.as_str(), WASI_P1_MODULE) {
        if is_wasi_function(name) {
            Ok(())
        } else {
            Err(ModuleFault::WasiImport(name.to_owned()))
        }
    } else {
        Err(ModuleFault::ForeignImport(i.module.clone(), name.to_owned()))
    }
}

fn is_entry_signature(e: &ExportInfo) -> (r: bool)
    ensures
        r == (e@.kind == entry_kind()),
{
    match &e.kind {
        ExportKind::Func { params, results } => {
            let r = params.len() == 0 && results.len() == 1 && same_text(
                results[0].as_str(),
                "i32",
            );
            proof {
                let want = seq!["i32"@];
                assert(want.len() == 1 && want[0] == "i32"@);
                assert(texts(params@).len() == params@.len());
                assert(texts(results@).len() == results@.len());
                if results@.len() == 1 {
                    assert(texts(results@)[0] == results@[0]@);
                }
                if r {
                    assert(texts(params@) =~= Seq::empty());
                    assert(texts(results@) =~= want);
                }
            }
            r
        },
        _ => false,
    }
}

fn check_signature(e: &ExportInfo) -> (r: Result<(), ModuleFault>)
    ensures
        match r {
            Ok(()) => signature_fault(e@) is None,
            Err(f) => signature_fault(e@) == Some(f@),
        },
{
    let name = e.name.as_str();
    if (same_text(name, GUEST_RUN) || same_text(name, GUEST_FUNCTIONS)) && !is_entry_signature(e) {
        Err(ModuleFault::BadSignature(name.to_owned(), describe_signature(e)))
    } else {
        Ok(())
    }
}

fn check_maximum(maximum: Option<u64>, max_memory_bytes: u64) -> (r: Result<(), ModuleFault>)
    ensures
        match r {
            Ok(()) => memory_fault(maximum, max_memory_bytes) is None,
            Err(f) => memory_fault(maximum, max_memory_bytes) == Some(f@),
        },
{
    match maximum {
        None => Ok(()),
        Some(max) => match max.checked_mul(WASM_PAGE_SIZE) {
            None => Err(ModuleFault::MemoryOverflow),
            Some(max_bytes) => if max_bytes > max_memory_bytes {
                Err(ModuleFault::MemoryLimit(max_bytes, max_memory_bytes))
            } else {
                Ok(())
            },
        },
    }
}

fn has_export(m: &ModuleInfo, name: &str) -> (r: bool)
    ensures
        r == exports_name(m@, name@),
{
    let mut i: usize = 0;
    while i < m.exports.len()
        invariant
            i <= m.exports.len(),
            forall|j: int| 0 <= j < i ==> (#[trigger] m@.exports[j]).name != name@,
        decreases m.exports.len() - i,
    {
        if same_text(m.exports[i].name.as_str(), name) {
            assert(m@.exports[i as int].name == name@);
            return true;
        }
        i += 1;
    }
    false
}

fn check_signatures(m: &ModuleInfo) -> (r: Result<(), ModuleFault>)
    ensures
        match r {
            Ok(()) => signatures_fault(m@) is None,
            Err(f) => signatures_fault(m@) == Some(f@),
        },
{
    let ghost faults = m@.exports.map_values(|e: ExportTree| signature_fault(e));
    let mut i: usize = 0;
    assert(faults.skip(0) =~= faults);
    while i < m.exports.len()
        invariant
            i <= m.exports.len(),
            faults == m@.exports.map_values(|e: ExportTree| signature_fault(e)),
            first_fault(faults) == first_fault(faults.skip(i as int)),
        decreases m.exports.len() - i,
    {
        assert(faults.skip(i as int).skip(1) =~= faults.skip(i + 1));
        assert(faults[i as int] == signature_fault(m.exports@[i as int]@));
        match check_signature(&m.exports[i]) {
            Err(f) => {
                return Err(f);
            },
            Ok(()) => {},
        }
        i += 1;
    }
    Ok(())
}

fn check_imports(m: &ModuleInfo) -> (r: Result<(), ModuleFault>)
    ensures
        match r {
            Ok(()) => imports_fault(m@) is None,
            Err(f) => imports_fault(m@) == Some(f@),
        },
{
    let ghost faults = m@.imports.map_values(|i: ImportTree| import_fault(i));
    let mut i: usize = 0;
    assert(faults.skip(0) =~= faults);
    while i < m.imports.len()
        invariant
            i <= m.imports.len(),
            faults == m@.imports.map_values(|i: ImportTree| import_fault(i)),
            first_fault(faults) == first_fault(faults.skip(i as int)),
        decreases m.imports.len() - i,
    {
        assert(faults.skip(i as int).skip(1) =~= faults.skip(i + 1));
        assert(faults[i as int] == import_fault(m.imports@[i as int]@));
        match check_import(&m.imports[i]) {
            Err(f) => {
                return Err(f);
            },
            Ok(()) => {},
        }
        i += 1;
    }
    Ok(())
}

fn collect_maxima(m: &ModuleInfo) -> (r: Vec<Option<u64>>)
    ensures
        r@ == memory_maxima(m@),
{
    let ghost exported = m@.exports.map_values(|e: ExportTree| export_maximum(e.kind));
    let ghost imported = m@.imports.map_values(|i: ImportTree| i.maximum);
    let mut out: Vec<Option<u64>> = Vec::new();
    let mut i: usize = 0;
    while i < m.exports.len()
        invariant
            i <= m.exports.len(),
            exported == m@.exports.map_values(|e: ExportTree| export_maximum(e.kind)),
            out@ == exported.take(i as int),
        decreases m.exports.len() - i,
    {
        assert(exported[i as int] == export_maximum(m.exports@[i as int]@.kind));
        assert(exported.take(i + 1) =~= exported.take(i as int).push(exported[i as int]));
        match &m.exports[i].kind {
            ExportKind::Memory { maximum } => {
                out.push(*maximum);
            },
            _ => {
                out.push(None);
            },
        }
        i += 1;
    }
    assert(out@ =~= exported);
    i = 0;
    while i < m.memories.len()
        invariant
            i <= m.memories.len(),
            out@ == exported + m.memories@.take(i as int),
        decreases m.memories.len() - i,
    {
        assert(m.memories@.take(i + 1) =~= m.memories@.take(i as int).push(m.memories@[i as int]));
        out.push(m.memories[i]);
        i += 1;
    }
    assert(out@ =~= exported + m.memories@);
    i = 0;
    while i < m.imports.len()
        invariant
            i <= m.imports.len(),
            imported == m@.imports.map_values(|i: ImportTree| i.maximum),
            out@ == exported + m.memories@ + imported.take(i as int),
        decreases m.imports.len() - i,
    {
        assert(imported[i as int] == m.imports@[i as int]@.maximum);
        assert(imported.take(i + 1) =~= imported.take(i as int).push(imported[i as int]));
        out.push(m.imports[i].maximum);
        i += 1;
    }
    assert(out@ =~= exported + m.memories@ + imported);
    out
}

fn check_maxima(maxima: &Vec<Option<u64>>, max_memory_bytes: u64) -> (r: Result<(), ModuleFault>)
    ensures
        match r {
            Ok(()) => maxima_fault(maxima@, max_memory_bytes) is None,
            Err(f) => maxima_fault(maxima@, max_memory_bytes) == Some(f@),
        },
{
    let ghost faults = maxima@.map_values(|max: Option<u64>| memory_fault(max, max_memory_bytes));
    let mut i: usize = 0;
    assert(faults.skip(0) =~= faults);
    while i < maxima.len()
        invariant
            i <= maxima.len(),
            faults == maxima@.map_values(|max: Option<u64>| memory_fault(max, max_memory_bytes)),
            first_fault(faults) == first_fault(faults.skip(i as int)),
        decreases maxima.len() - i,
    {
        assert(faults.skip(i as int).skip(1) =~= faults.skip(i + 1));
        assert(faults[i as int] == memory_fault(maxima@[i as int], max_memory_bytes));
        match check_maximum(maxima[i], max_memory_bytes) {
            Err(f) => {
                return Err(f);
            },
            Ok(()) => {},
        }
        i += 1;
    }
    Ok(())
}

/// Check a module against the sandbox contract. In this order: it has both entry points, which take
/// nothing and return an `i32`; it imports nothing but host functions and WASI functions; and none
/// of its memories, exported or not, declares a maximum over the limit.
pub fn validate_module(m: &ModuleInfo, limits: &WasmLimits) -> (r: Result<(), ModuleFault>)
    ensures
        match r {
            Ok(()) => module_fault(m@, limits.max_memory_bytes) is None,
            Err(f) => module_fault(m@, limits.max_memory_bytes) == Some(f@),
        },
{
    if !has_export(m, GUEST_RUN) {
        return Err(ModuleFault::MissingExport(GUEST_RUN.to_owned()));
    }
    if !has_export(m, GUEST_FUNCTIONS) {
        return Err(ModuleFault::MissingExport(GUEST_FUNCTIONS.to_owned()));
    }
    match check_signatures(m) {
        Err(f) => {
            return Err(f);
        },
        Ok(()) => {},
    }
    match check_imports(m) {
        Err(f) => {
            return Err(f);
        },
        Ok(()) => {},
    }
    check_maxima(&collect_maxima(m), limits.max_memory_bytes)
}

proof fn lemma_no_fault(fs: Seq<Option<FaultTree>>, i: int)
    requires
        first_fault(fs) is None,
        0 <= i < fs.len(),
    ensures
        fs[i] is None,
    decreases fs.len(),
{
    if i > 0 {
        lemma_no_fault(fs.skip(1), i - 1);
    }
}

/// A module that passes imports nothing from outside the host functions and WASI.
pub proof fn valid_imports_are_sandboxed(m: ModuleTree, max_memory_bytes: u64, i: int)
    requires
        module_fault(m, max_memory_bytes) is None,
        0 <= i < m.imports.len(),
    ensures
        (m.imports[i].module == HOST_FN_MODULE@ && listed(host_functions(), m.imports[i].name)) || (
        m.imports[i].module == WASI_P1_MODULE@ && listed(wasi_functions(), m.imports[i].name)),
        import_fault(m.imports[i]) is None,
{
    lemma_no_fault(m.imports.map_values(|i: ImportTree| import_fault(i)), i);
}

/// A module that passes has no memory with a maximum above the limit: neither one that it exports,
/// nor one that it keeps to itself, nor one that it imports.
pub proof fn valid_memory_is_bounded(m: ModuleTree, max_memory_bytes: u64, i: int)
    requires
        module_fault(m, max_memory_bytes) is None,
    ensures
        0 <= i < m.exports.len() ==> (m.exports[i].kind matches KindTree::Memory(Some(pages))
            ==> pages * WASM_PAGE_SIZE <= max_memory_bytes),
        0 <= i < m.memories.len() ==> (m.memories[i] matches Some(pages) ==> pages * WASM_PAGE_SIZE
            <= max_memory_bytes),
        0 <= i < m.imports.len() ==> (m.imports[i].maximum matches Some(pages) ==> pages
            * WASM_PAGE_SIZE <= max_memory_bytes),
{
    let maxima = memory_maxima(m);
    let faults = maxima.map_values(|max: Option<u64>| memory_fault(max, max_memory_bytes));
    if 0 <= i < m.exports.len() {
        assert(maxima[i] == export_maximum(m.exports[i].kind));
        lemma_no_fault(faults, i);
    }
    if 0 <= i < m.memories.len() {
        assert(maxima[m.exports.len() + i] == m.memories[i]);
        lemma_no_fault(faults, m.exports.len() + i);
    }
    if 0 <= i < m.imports.len() {
        assert(maxima[m.exports.len() + m.memories.len() + i] == m.imports[i].maximum);
        lemma_no_fault(faults, m.exports.len() + m.memories.len() + i);
    }
}

/// A module that passes has both entry points, and they take nothing and return an `i32`.
pub proof fn valid_entry_points(m: ModuleTree, max_memory_bytes: u64, i: int)
    requires
        module_fault(m, max_memory_bytes) is None,
        0 <= i < m.exports.len(),
    ensures
        exports_name(m, GUEST_RUN@),
        exports_name(m, GUEST_FUNCTIONS@),
        m.exports[i].name == GUEST_RUN@ || m.exports[i].name == GUEST_FUNCTIONS@
            ==> m.exports[i].kind == entry_kind(),
{
    lemma_no_fault(m.exports.map_values(|e: ExportTree| signature_fault(e)), i);
}

/// The entry points are checked before the imports, and those before the memories: with a wrong
/// signature that is the fault, whatever the module imports and declares.
pub proof fn checks_come_in_order(m: ModuleTree, max_memory_bytes: u64)
    requires
        exports_name(m, GUEST_RUN@),
        exports_name(m, GUEST_FUNCTIONS@),
    ensures
        signatures_fault(m) is Some ==> module_fault(m, max_memory_bytes) == signatures_fault(m),
        signatures_fault(m) is None && imports_fault(m) is Some ==> module_fault(
            m,
            max_memory_bytes,
        ) == imports_fault(m),
{
}

proof fn lemma_same_faults(fs: Seq<Option<FaultTree>>, gs: Seq<Option<FaultTree>>)
    requires
        fs.len() == gs.len(),
        forall|i: int| 0 <= i < fs.len() ==> (#[trigger] fs[i] is None) == (gs[i] is None),
    ensures
        (first_fault(fs) is None) == (first_fault(gs) is None),
    decreases fs.len(),
{
    if fs.len() > 0 && fs[0] is None {
        let fs1 = fs.skip(1);
        let gs1 = gs.skip(1);
        assert forall|i: int| 0 <= i < fs1.len() implies (#[trigger] fs1[i] is None) == (gs1[i]
            is None) by {
            assert(fs1[i] == fs[i + 1]);
            assert(gs1[i] == gs[i + 1]);
        }
        lemma_same_faults(fs1, gs1);
    }
}

/// Whether a module passes depends on its shape and the memories that it declares alone: not on the
/// engine that gave its types their names.
pub proof fn validity_depends_on_shape(a: ModuleTree, b: ModuleTree, max_memory_bytes: u64)
    requires
        module_shape(a) == module_shape(b),
        a.memories == b.memories,
    ensures
        (module_fault(a, max_memory_bytes) is None) == (module_fault(b, max_memory_bytes) is None),
{
    let shape_a = module_shape(a).exports;
    let shape_b = module_shape(b).exports;
    assert(shape_a.len() == a.exports.len() && shape_b.len() == b.exports.len());
    assert(a.exports.len() == b.exports.len());
    assert forall|i: int| 0 <= i < a.exports.len() implies (#[trigger] a.exports[i]).name
        == b.exports[i].name && kind_shape(a.exports[i].kind) == kind_shape(
        b.exports[i].kind,
    ) by {
        assert(shape_a[i] == (a.exports[i].name, kind_shape(a.exports[i].kind)));
        assert(shape_b[i] == (b.exports[i].name, kind_shape(b.exports[i].kind)));
    }
    assert forall|name: Seq<char>| #[trigger] exports_name(a, name) == exports_name(b, name) by {
        if exports_name(a, name) {
            let i = choose|i: int|
                0 <= i < a.exports.len() && (#[trigger] a.exports[i]).name == name;
            assert(b.exports[i].name == name);
        }
        if exports_name(b, name) {
            let i = choose|i: int|
                0 <= i < b.exports.len() && (#[trigger] b.exports[i]).name == name;
            assert(a.exports[i].name == b.exports[i].name);
        }
    }
    let fs = a.exports.map_values(|e: ExportTree| signature_fault(e));
    let gs = b.exports.map_values(|e: ExportTree| signature_fault(e));
    assert forall|i: int| 0 <= i < fs.len() implies (#[trigger] fs[i] is None) == (gs[i]
        is None) by {
        assert(a.exports[i].name == b.exports[i].name);
    }
    lemma_same_faults(fs, gs);
    assert(memory_maxima(a) =~= memory_maxima(b)) by {
        let exported_a = a.exports.map_values(|e: ExportTree| export_maximum(e.kind));
        let exported_b = b.exports.map_values(|e: ExportTree| export_maximum(e.kind));
        assert forall|i: int| 0 <= i < exported_a.len() implies exported_a[i]
            == #[trigger] exported_b[i] by {
            assert(kind_shape(a.exports[i].kind) == kind_shape(b.exports[i].kind));
        }
        assert(exported_a =~= exported_b);
    }
    assert(exports_name(a, GUEST_RUN@) == exports_name(b, GUEST_RUN@));
    assert(exports_name(a, GUEST_FUNCTIONS@) == exports_name(b, GUEST_FUNCTIONS@));
}

/// What is said of a fault.
pub open spec fn fault_text(f: FaultTree) -> Seq<char> {
    match f {
        FaultTree::MissingExport(name) => "WASM module is missing the "@ + name
            + " export; was it built with convex_sdk?"@,
        FaultTree::HostImport(name) => "WASM module imports "@ + HOST_FN_MODULE@ + "."@ + name
            + ", which is outside the allowed host function surface"@,
        FaultTree::WasiImport(name) => "WASM module imports "@ + WASI_P1_MODULE@ + "."@ + name
            + ", which is outside the WASI preview 1 surface"@,
        FaultTree::ForeignImport(module, name) => "WASM module imports "@ + module + "."@ + name
            + ", which is outside the allowed sandbox surface"@,
        FaultTree::MemoryOverflow => "Memory maximum overflow"@,
        FaultTree::MemoryLimit(max, limit) => "WASM module declares "@ + decimal(max as nat)
            + " bytes of memory, exceeding the limit of "@ + decimal(limit as nat) + " bytes"@,
        FaultTree::BadSignature(name, found) => "The "@ + name
            + " export must have signature () -> i32, found "@ + found,
    }
}

fn import_text(module: &str, name: &str, rest: &str) -> (r: String)
    ensures
        r@ == "WASM module imports "@ + module@ + "."@ + name@ + rest@,
{
    let a = concat("WASM module imports ", module);
    let b = concat(a.as_str(), ".");
    let c = concat(b.as_str(), name);
    concat(c.as_str(), rest)
}

impl ModuleFault {
    /// What is said of a fault.
    pub fn message(&self) -> (r: String)
        ensures
            r@ == fault_text(self@),
    {
        match self {
            ModuleFault::MissingExport(name) => concat(
                concat("WASM module is missing the ", name.as_str()).as_str(),
                " export; was it built with convex_sdk?",
            ),
            ModuleFault::HostImport(name) => import_text(
                HOST_FN_MODULE,
                name.as_str(),
                ", which is outside the allowed host function surface",
            ),
            ModuleFault::WasiImport(name) => import_text(
                WASI_P1_MODULE,
                name.as_str(),
                ", which is outside the WASI preview 1 surface",
            ),
            ModuleFault::ForeignImport(module, name) => import_text(
                module.as_str(),
                name.as_str(),
                ", which is outside the allowed sandbox surface",
            ),
            ModuleFault::MemoryOverflow => "Memory maximum overflow".to_owned(),
            ModuleFault::MemoryLimit(max, limit) => {
                let a = concat("WASM module declares ", decimal_text(*max).as_str());
                let b = concat(a.as_str(), " bytes of memory, exceeding the limit of ");
                let c = concat(b.as_str(), decimal_text(*limit).as_str());
                concat(c.as_str(), " bytes")
            },
            ModuleFault::BadSignature(name, found) => {
                let a = concat("The ", name.as_str());
                let b = concat(a.as_str(), " export must have signature () -> i32, found ");
                concat(b.as_str(), found.as_str())
            },
        }
    }
}

/// The functions that a guest may import from the host are those of the call interface, and no
/// others.
#[verifier::spinoff_prover]
pub proof fn host_surface_is_the_interface(name: Seq<char>)
    ensures
        listed(host_functions(), name) <==> (
            name == "__convex_input_length"@ || name == "__convex_input_load"@
            || name == "__convex_alloc"@ || name == "__convex_call_data_load"@
            || name == "__convex_output_set"@ || name == "__convex_error_set"@
            || name == "__convex_log"@ || name == "__convex_now_ms"@
            || name == "__convex_random_bytes"@ || name == "__convex_db_get"@
            || name == "__convex_db_count"@ || name == "__convex_db_insert"@
            || name == "__convex_db_replace"@ || name == "__convex_db_patch"@
            || name == "__convex_db_delete"@ || name == "__convex_db_query"@
        ),
{
    assert(host_functions()[0]@ == "__convex_input_length"@);
    assert(host_functions()[1]@ == "__convex_input_load"@);
    assert(host_functions()[2]@ == "__convex_alloc"@);
    assert(host_functions()[3]@ == "__convex_call_data_load"@);
    assert(host_functions()[4]@ == "__convex_output_set"@);
    assert(host_functions()[5]@ == "__convex_error_set"@);
    assert(host_functions()[6]@ == "__convex_log"@);
    assert(host_functions()[7]@ == "__convex_now_ms"@);
    assert(host_functions()[8]@ == "__convex_random_bytes"@);
    assert(host_functions()[9]@ == "__convex_db_get"@);
    assert(host_functions()[10]@ == "__convex_db_count"@);
    assert(host_functions()[11]@ == "__convex_db_insert"@);
    assert(host_functions()[12]@ == "__convex_db_replace"@);
    assert(host_functions()[13]@ == "__convex_db_patch"@);
    assert(host_functions()[14]@ == "__convex_db_delete"@);
    assert(host_functions()[15]@ == "__convex_db_query"@);
}

/// The functions that a guest may import from WASI are those of its first preview, and no others.
#[verifier::spinoff_prover]
pub proof fn wasi_surface_is_the_preview(name: Seq<char>)
    ensures
        listed(wasi_functions(), name) <==> (
            name == "args_get"@ || name == "args_sizes_get"@ || name == "clock_res_get"@
            || name == "clock_time_get"@ || name == "environ_get"@ || name == "environ_sizes_get"@
            || name == "fd_advise"@ || name == "fd_allocate"@ || name == "fd_close"@
            || name == "fd_datasync"@ || name == "fd_fdstat_get"@
            || name == "fd_fdstat_set_flags"@ || name == "fd_fdstat_set_rights"@
            || name == "fd_filestat_get"@ || name == "fd_filestat_set_size"@
            || name == "fd_filestat_set_times"@ || name == "fd_pread"@
            || name == "fd_prestat_dir_name"@ || name == "fd_prestat_get"@ || name == "fd_pwrite"@
            || name == "fd_read"@ || name == "fd_readdir"@ || name == "fd_renumber"@
            || name == "fd_seek"@ || name == "fd_sync"@ || name == "fd_tell"@
            || name == "fd_write"@ || name == "path_create_directory"@
            || name == "path_filestat_get"@ || name == "path_filestat_set_times"@
            || name == "path_link"@ || name == "path_open"@ || name == "path_readlink"@
            || name == "path_remove_directory"@ || name == "path_rename"@
            || name == "path_symlink"@ || name == "path_unlink_file"@ || name == "poll_oneoff"@
            || name == "proc_exit"@ || name == "proc_raise"@ || name == "random_get"@
            || name == "sched_yield"@ || name == "sock_accept"@ || name == "sock_recv"@
            || name == "sock_send"@ || name == "sock_shutdown"@
        ),
{
    assert(wasi_functions()[0]@ == "args_get"@);
    assert(wasi_functions()[1]@ == "args_sizes_get"@);
    assert(wasi_functions()[2]@ == "clock_res_get"@);
    assert(wasi_functions()[3]@ == "clock_time_get"@);
    assert(wasi_functions()[4]@ == "environ_get"@);
    assert(wasi_functions()[5]@ == "environ_sizes_get"@);
    assert(wasi_functions()[6]@ == "fd_advise"@);
    assert(wasi_functions()[7]@ == "fd_allocate"@);
    assert(wasi_functions()[8]@ == "fd_close"@);
    assert(wasi_functions()[9]@ == "fd_datasync"@);
    assert(wasi_functions()[10]@ == "fd_fdstat_get"@);
    assert(wasi_functions()[11]@ == "fd_fdstat_set_flags"@);
    assert(wasi_functions()[12]@ == "fd_fdstat_set_rights"@);
    assert(wasi_functions()[13]@ == "fd_filestat_get"@);
    assert(wasi_functions()[14]@ == "fd_filestat_set_size"@);
    assert(wasi_functions()[15]@ == "fd_filestat_set_times"@);
    assert(wasi_functions()[16]@ == "fd_pread"@);
    assert(wasi_functions()[17]@ == "fd_prestat_dir_name"@);
    assert(wasi_functions()[18]@ == "fd_prestat_get"@);
    assert(wasi_functions()[19]@ == "fd_pwrite"@);
    assert(wasi_functions()[20]@ == "fd_read"@);
    assert(wasi_functions()[21]@ == "fd_readdir"@);
    assert(wasi_functions()[22]@ == "fd_renumber"@);
    assert(wasi_functions()[23]@ == "fd_seek"@);
    assert(wasi_functions()[24]@ == "fd_sync"@);
    assert(wasi_functions()[25]@ == "fd_tell"@);
    assert(wasi_functions()[26]@ == "fd_write"@);
    assert(wasi_functions()[27]@ == "path_create_directory"@);
    assert(wasi_functions()[28]@ == "path_filestat_get"@);
    assert(wasi_functions()[29]@ == "path_filestat_set_times"@);
    assert(wasi_functions()[30]@ == "path_link"@);
    assert(wasi_functions()[31]@ == "path_open"@);
    assert(wasi_functions()[32]@ == "path_readlink"@);
    assert(wasi_functions()[33]@ == "path_remove_directory"@);
    assert(wasi_functions()[34]@ == "path_rename"@);
    assert(wasi_functions()[35]@ == "path_symlink"@);
    assert(wasi_functions()[36]@ == "path_unlink_file"@);
    assert(wasi_functions()[37]@ == "poll_oneoff"@);
    assert(wasi_functions()[38]@ == "proc_exit"@);
    assert(wasi_functions()[39]@ == "proc_raise"@);
    assert(wasi_functions()[40]@ == "random_get"@);
    assert(wasi_functions()[41]@ == "sched_yield"@);
    assert(wasi_functions()[42]@ == "sock_accept"@);
    assert(wasi_functions()[43]@ == "sock_recv"@);
    assert(wasi_functions()[44]@ == "sock_send"@);
    assert(wasi_functions()[45]@ == "sock_shutdown"@);
}

/// An import passes where it is a host function under `env` or a WASI function under
/// `wasi_snapshot_preview1`: being listed in the one place says nothing of the other. A fault names
/// the import that it is about.
pub proof fn imports_are_judged_by_their_module(i: ImportTree)
    ensures
        i.module == "env"@ ==> (import_fault(i) is None <==> listed(host_functions(), i.name)),
        i.module == "wasi_snapshot_preview1"@ ==> (import_fault(i) is None <==> listed(
            wasi_functions(),
            i.name,
        )),
        i.module != "env"@ && i.module != "wasi_snapshot_preview1"@ ==> import_fault(i) == Some(
            FaultTree::ForeignImport(i.module, i.name),
        ),
        i.module == "env"@ && import_fault(i) is Some ==> import_fault(i) == Some(
            FaultTree::HostImport(i.name),
        ),
        i.module == "wasi_snapshot_preview1"@ && import_fault(i) is Some ==> import_fault(i) == Some(
            FaultTree::WasiImport(i.name),
        ),
{
    reveal_strlit("env");
    reveal_strlit("wasi_snapshot_preview1");
    assert("env"@.len() != "wasi_snapshot_preview1"@.len());
}

/// A memory passes exactly where it has no maximum, or one whose pages of 64 KiB take no more than
/// the limit. A maximum that is no number of bytes is told apart from one that is too large, and of
/// the latter it is said how large it is.
pub proof fn maxima_are_counted_in_pages(maximum: Option<u64>, max_memory_bytes: u64)
    ensures
        memory_fault(maximum, max_memory_bytes) is None <==> (maximum matches Some(pages) ==> pages
            * 65536 <= max_memory_bytes),
        memory_fault(maximum, max_memory_bytes) == Some(FaultTree::MemoryOverflow) <==> (
        maximum matches Some(pages) && pages * 65536 > 0xffff_ffff_ffff_ffff),
        memory_fault(maximum, max_memory_bytes) is Some ==> (memory_fault(
            maximum,
            max_memory_bytes,
        ) == Some(FaultTree::MemoryOverflow) || memory_fault(maximum, max_memory_bytes) == Some(
            FaultTree::MemoryLimit((maximum->0 * 65536) as u64, max_memory_bytes),
        )),
{
}

proof fn lemma_all_pass(fs: Seq<Option<FaultTree>>)
    requires
        forall|i: int| 0 <= i < fs.len() ==> #[trigger] fs[i] is None,
    ensures
        first_fault(fs) is None,
    decreases fs.len(),
{
    if fs.len() > 0 {
        assert(fs[0] is None);
        assert forall|i: int| 0 <= i < fs.skip(1).len() implies #[trigger] fs.skip(1)[i] is None by {
            assert(fs[i + 1] is None);
        }
        lemma_all_pass(fs.skip(1));
    }
}

proof fn lemma_first_offender(fs: Seq<Option<FaultTree>>, i: int)
    requires
        0 <= i < fs.len(),
        fs[i] is Some,
        forall|j: int| 0 <= j < i ==> #[trigger] fs[j] is None,
    ensures
        first_fault(fs) == fs[i],
    decreases fs.len(),
{
    if i > 0 {
        assert(fs[0] is None);
        assert forall|j: int| 0 <= j < i - 1 implies #[trigger] fs.skip(1)[j] is None by {
            assert(fs[j + 1] is None);
        }
        lemma_first_offender(fs.skip(1), i - 1);
    }
}

/// A module with both entry points, each a function that takes nothing and returns an `i32`, with
/// no import but listed host functions under `env` and listed WASI functions under
/// `wasi_snapshot_preview1`, and with no memory whose maximum is over the limit, is accepted.
pub proof fn sound_modules_are_accepted(
    m: ModuleTree,
    max_memory_bytes: u64,
    run: int,
    functions: int,
)
    requires
        0 <= run < m.exports.len() && m.exports[run].name == "__convex_run"@,
        0 <= functions < m.exports.len() && m.exports[functions].name == "__convex_functions"@,
        forall|i: int|
            0 <= i < m.exports.len() && ((#[trigger] m.exports[i]).name == "__convex_run"@
                || m.exports[i].name == "__convex_functions"@) ==> m.exports[i].kind
                == KindTree::Func(Seq::empty(), seq!["i32"@]),
        forall|i: int|
            0 <= i < m.imports.len() ==> ((#[trigger] m.imports[i]).module == "env"@ && listed(
                host_functions(),
                m.imports[i].name,
            )) || (m.imports[i].module == "wasi_snapshot_preview1"@ && listed(
                wasi_functions(),
                m.imports[i].name,
            )),
        forall|i: int|
            0 <= i < m.exports.len() ==> ((#[trigger] m.exports[i]).kind matches KindTree::Memory(
                Some(pages),
            ) ==> pages * 65536 <= max_memory_bytes),
        forall|i: int|
            0 <= i < m.memories.len() ==> (#[trigger] m.memories[i] matches Some(pages) ==> pages
                * 65536 <= max_memory_bytes),
        forall|i: int|
            0 <= i < m.imports.len() ==> ((#[trigger] m.imports[i]).maximum matches Some(pages)
                ==> pages * 65536 <= max_memory_bytes),
    ensures
        module_fault(m, max_memory_bytes) is None,
{
    let signatures = m.exports.map_values(|e: ExportTree| signature_fault(e));
    assert forall|i: int| 0 <= i < signatures.len() implies #[trigger] signatures[i] is None by {
        assert(signatures[i] == signature_fault(m.exports[i]));
    }
    lemma_all_pass(signatures);
    let imports = m.imports.map_values(|i: ImportTree| import_fault(i));
    assert forall|i: int| 0 <= i < imports.len() implies #[trigger] imports[i] is None by {
        assert(imports[i] == import_fault(m.imports[i]));
        imports_are_judged_by_their_module(m.imports[i]);
    }
    lemma_all_pass(imports);
    let maxima = memory_maxima(m);
    let faults = maxima.map_values(|max: Option<u64>| memory_fault(max, max_memory_bytes));
    assert forall|i: int| 0 <= i < faults.len() implies #[trigger] faults[i] is None by {
        let exported = m.exports.len() as int;
        let own = m.memories.len() as int;
        if i < exported {
            assert(maxima[i] == export_maximum(m.exports[i].kind));
        } else if i < exported + own {
            assert(maxima[i] == m.memories[i - exported]);
        } else {
            assert(maxima[i] == m.imports[i - exported - own].maximum);
        }
    }
    lemma_all_pass(faults);
}

/// A module without an entry point is turned down for that, whatever else is wrong with it, and the
/// entry point is named; the one that runs functions comes first.
pub proof fn missing_entry_points_are_named(m: ModuleTree, max_memory_bytes: u64)
    ensures
        (forall|i: int|
            0 <= i < m.exports.len() ==> (#[trigger] m.exports[i]).name != "__convex_run"@)
            <==> module_fault(m, max_memory_bytes) == Some(
            FaultTree::MissingExport("__convex_run"@),
        ),
        (exists|i: int| 0 <= i < m.exports.len() && (#[trigger] m.exports[i]).name
            == "__convex_run"@) && (forall|i: int|
            0 <= i < m.exports.len() ==> (#[trigger] m.exports[i]).name != "__convex_functions"@)
            ==> module_fault(m, max_memory_bytes) == Some(
            FaultTree::MissingExport("__convex_functions"@),
        ),
{
    reveal_strlit("__convex_run");
    reveal_strlit("__convex_functions");
    assert("__convex_run"@.len() != "__convex_functions"@.len());
    let signatures = m.exports.map_values(|e: ExportTree| signature_fault(e));
    let imports = m.imports.map_values(|i: ImportTree| import_fault(i));
    let maxima = memory_maxima(m).map_values(
        |max: Option<u64>| memory_fault(max, max_memory_bytes),
    );
    lemma_found_among(signatures);
    lemma_found_among(imports);
    lemma_found_among(maxima);
}

proof fn lemma_found_among(fs: Seq<Option<FaultTree>>)
    ensures
        first_fault(fs) is Some ==> exists|i: int| 0 <= i < fs.len() && #[trigger] fs[i]
            == first_fault(fs),
    decreases fs.len(),
{
    if fs.len() > 0 && fs[0] is None {
        lemma_found_among(fs.skip(1));
        if first_fault(fs) is Some {
            let i = choose|i: int|
                0 <= i < fs.skip(1).len() && #[trigger] fs.skip(1)[i] == first_fault(fs);
            assert(fs[i + 1] == first_fault(fs));
        }
    }
}

/// A module with both entry points in order is turned down for the first import that is not
/// allowed.
pub proof fn first_foreign_import_is_named(m: ModuleTree, max_memory_bytes: u64, i: int)
    requires
        exports_name(m, "__convex_run"@),
        exports_name(m, "__convex_functions"@),
        forall|e: int|
            0 <= e < m.exports.len() && ((#[trigger] m.exports[e]).name == "__convex_run"@
                || m.exports[e].name == "__convex_functions"@) ==> m.exports[e].kind
                == KindTree::Func(Seq::empty(), seq!["i32"@]),
        0 <= i < m.imports.len(),
        import_fault(m.imports[i]) is Some,
        forall|j: int| 0 <= j < i ==> import_fault(#[trigger] m.imports[j]) is None,
    ensures
        module_fault(m, max_memory_bytes) == import_fault(m.imports[i]),
{
    let signatures = m.exports.map_values(|e: ExportTree| signature_fault(e));
    assert forall|e: int| 0 <= e < signatures.len() implies #[trigger] signatures[e] is None by {
        assert(signatures[e] == signature_fault(m.exports[e]));
    }
    lemma_all_pass(signatures);
    let imports = m.imports.map_values(|i: ImportTree| import_fault(i));
    assert forall|j: int| 0 <= j < i implies #[trigger] imports[j] is None by {
        assert(imports[j] == import_fault(m.imports[j]));
    }
    lemma_first_offender(imports, i);
}

/// An export under the name of an entry point that is anything but a function that takes nothing
/// and returns an `i32` is a fault, which names it; no other export is one for what it is.
pub proof fn only_entry_points_have_a_signature(e: ExportTree)
    ensures
        signature_fault(e) is Some <==> (e.name == "__convex_run"@ || e.name
            == "__convex_functions"@) && e.kind != KindTree::Func(Seq::empty(), seq!["i32"@]),
        signature_fault(e) matches Some(f) ==> (f matches FaultTree::BadSignature(name, _) && name
            == e.name),
{
}

/// A module is accepted, by the function that checks it, exactly where it has both entry points,
/// each a function that takes nothing and returns an `i32`, imports nothing that is not listed under
/// the module that it names, and has no memory whose maximum is over the limit.
#[verifier::spinoff_prover]
pub proof fn modules_are_accepted_for_cause(
    m: ModuleInfo,
    limits: WasmLimits,
    run: int,
    functions: int,
    checked: Result<(), ModuleFault>,
)
    requires
        call_ensures(validate_module, (&m, &limits), checked),
        0 <= run < m@.exports.len() && m@.exports[run].name == "__convex_run"@,
        0 <= functions < m@.exports.len() && m@.exports[functions].name == "__convex_functions"@,
    ensures
        checked is Ok <==> {
            &&& forall|i: int|
                0 <= i < m@.exports.len() && ((#[trigger] m@.exports[i]).name == "__convex_run"@
                    || m@.exports[i].name == "__convex_functions"@) ==> m@.exports[i].kind
                    == KindTree::Func(Seq::empty(), seq!["i32"@])
            &&& forall|i: int|
                0 <= i < m@.imports.len() ==> ((#[trigger] m@.imports[i]).module == "env"@ && listed(
                    host_functions(),
                    m@.imports[i].name,
                )) || (m@.imports[i].module == "wasi_snapshot_preview1"@ && listed(
                    wasi_functions(),
                    m@.imports[i].name,
                ))
            &&& forall|i: int|
                0 <= i < m@.exports.len() ==> ((
                #[trigger] m@.exports[i]).kind matches KindTree::Memory(Some(pages)) ==> pages
                    * 65536 <= limits.max_memory_bytes)
            &&& forall|i: int|
                0 <= i < m@.memories.len() ==> (#[trigger] m@.memories[i] matches Some(pages)
                    ==> pages * 65536 <= limits.max_memory_bytes)
            &&& forall|i: int|
                0 <= i < m@.imports.len() ==> ((#[trigger] m@.imports[i]).maximum matches Some(
                    pages,
                ) ==> pages * 65536 <= limits.max_memory_bytes)
        },
{
    let max = limits.max_memory_bytes;
    if checked is Ok {
        assert forall|i: int| 0 <= i < m@.exports.len() implies (((
        #[trigger] m@.exports[i]).name == "__convex_run"@ || m@.exports[i].name
            == "__convex_functions"@) ==> m@.exports[i].kind == KindTree::Func(
            Seq::empty(),
            seq!["i32"@],
        )) && (m@.exports[i].kind matches KindTree::Memory(Some(pages)) ==> pages * 65536
            <= max) by {
            valid_entry_points(m@, max, i);
            valid_memory_is_bounded(m@, max, i);
        }
        assert forall|i: int| 0 <= i < m@.imports.len() implies (((
        #[trigger] m@.imports[i]).module == "env"@ && listed(host_functions(), m@.imports[i].name))
            || (m@.imports[i].module == "wasi_snapshot_preview1"@ && listed(
            wasi_functions(),
            m@.imports[i].name,
        ))) && (m@.imports[i].maximum matches Some(pages) ==> pages * 65536 <= max) by {
            valid_imports_are_sandboxed(m@, max, i);
            valid_memory_is_bounded(m@, max, i);
        }
        assert forall|i: int| 0 <= i < m@.memories.len() implies (
        #[trigger] m@.memories[i] matches Some(pages) ==> pages * 65536 <= max) by {
            valid_memory_is_bounded(m@, max, i);
        }
    } else if (forall|i: int|
        0 <= i < m@.exports.len() && ((#[trigger] m@.exports[i]).name == "__convex_run"@
            || m@.exports[i].name == "__convex_functions"@) ==> m@.exports[i].kind
            == KindTree::Func(Seq::empty(), seq!["i32"@])) && (forall|i: int|
        0 <= i < m@.imports.len() ==> ((#[trigger] m@.imports[i]).module == "env"@ && listed(
            host_functions(),
            m@.imports[i].name,
        )) || (m@.imports[i].module == "wasi_snapshot_preview1"@ && listed(
            wasi_functions(),
            m@.imports[i].name,
        ))) && (forall|i: int|
        0 <= i < m@.exports.len() ==> ((#[trigger] m@.exports[i]).kind matches KindTree::Memory(
            Some(pages),
        ) ==> pages * 65536 <= max)) && (forall|i: int|
        0 <= i < m@.memories.len() ==> (#[trigger] m@.memories[i] matches Some(pages) ==> pages
            * 65536 <= max)) && (forall|i: int|
        0 <= i < m@.imports.len() ==> ((#[trigger] m@.imports[i]).maximum matches Some(pages)
            ==> pages * 65536 <= max)) {
        sound_modules_are_accepted(m@, max, run, functions);
    }
}

proof fn lemma_occurs_between(
    a: Seq<char>,
    b: Seq<char>,
    c: Seq<char>,
    d: Seq<char>,
    e: Seq<char>,
)
    ensures
        occurs(a + b + c + d + e, b + c + d),
        e.len() == 0 ==> occurs(a + b + c + d, b + c + d),
{
    let part = b + c + d;
    assert(a + b + c + d + e =~= a + part + e);
    parts_occur_where_they_stand(a, part, e);
    if e.len() == 0 {
        assert(a + b + c + d =~= a + part + e);
    }
}

/// What is said of a fault names what it is about.
pub proof fn faults_name_their_cause(f: FaultTree)
    ensures
        f matches FaultTree::MissingExport(name) ==> occurs(fault_text(f), name),
        f matches FaultTree::HostImport(name) ==> occurs(fault_text(f), "env"@ + "."@ + name),
        f matches FaultTree::WasiImport(name) ==> occurs(
            fault_text(f),
            "wasi_snapshot_preview1"@ + "."@ + name,
        ),
        f matches FaultTree::ForeignImport(module, name) ==> occurs(
            fault_text(f),
            module + "."@ + name,
        ),
        f matches FaultTree::MemoryLimit(max, limit) ==> occurs(
            fault_text(f),
            decimal(max as nat) + " bytes of memory, exceeding the limit of "@ + decimal(
                limit as nat,
            ),
        ),
        f matches FaultTree::BadSignature(name, found) ==> occurs(
            fault_text(f),
            name + " export must have signature () -> i32, found "@ + found,
        ),
{
    match f {
        FaultTree::MissingExport(name) => {
            parts_occur_where_they_stand(
                "WASM module is missing the "@,
                name,
                " export; was it built with convex_sdk?"@,
            );
        },
        FaultTree::HostImport(name) => {
            lemma_occurs_between(
                "WASM module imports "@,
                "env"@,
                "."@,
                name,
                ", which is outside the allowed host function surface"@,
            );
        },
        FaultTree::WasiImport(name) => {
            lemma_occurs_between(
                "WASM module imports "@,
                "wasi_snapshot_preview1"@,
                "."@,
                name,
                ", which is outside the WASI preview 1 surface"@,
            );
        },
        FaultTree::ForeignImport(module, name) => {
            lemma_occurs_between(
                "WASM module imports "@,
                module,
                "."@,
                name,
                ", which is outside the allowed sandbox surface"@,
            );
        },
        FaultTree::MemoryOverflow => {},
        FaultTree::MemoryLimit(max, limit) => {
            lemma_occurs_between(
                "WASM module declares "@,
                decimal(max as nat),
                " bytes of memory, exceeding the limit of "@,
                decimal(limit as nat),
                " bytes"@,
            );
        },
        FaultTree::BadSignature(name, found) => {
            lemma_occurs_between(
                "The "@,
                name,
                " export must have signature () -> i32, found "@,
                found,
                Seq::empty(),
            );
        },
    }
}

/// A signature is written as its parameters and its results, each as a list; what is no function has
/// neither.
pub proof fn signatures_are_written_out(params: Seq<Seq<char>>, results: Seq<Seq<char>>, k: KindTree)
    ensures
        signature_text(KindTree::Func(params, results)) == ("Some(["@ + joined(params, ", "@)
            + "])"@) + " -> "@ + ("Some(["@ + joined(results, ", "@) + "])"@),
        !(k is Func) ==> signature_text(k) == "None -> None"@,
{
}

/// A module that is accepted under a limit on memory is accepted under a higher one.
pub proof fn higher_limits_accept_more(m: ModuleTree, limit: u64, higher: u64)
    requires
        limit <= higher,
        module_fault(m, limit) is None,
    ensures
        module_fault(m, higher) is None,
{
    let fs = memory_maxima(m).map_values(|max: Option<u64>| memory_fault(max, limit));
    let gs = memory_maxima(m).map_values(|max: Option<u64>| memory_fault(max, higher));
    assert forall|i: int| 0 <= i < gs.len() implies #[trigger] gs[i] is None by {
        lemma_no_fault(fs, i);
        assert(fs[i] == memory_fault(memory_maxima(m)[i], limit));
        maxima_are_counted_in_pages(memory_maxima(m)[i], limit);
        maxima_are_counted_in_pages(memory_maxima(m)[i], higher);
    }
    lemma_all_pass(gs);
}

} // verus!
