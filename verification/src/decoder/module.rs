//! Module validation, the import allowlist, and the module-level facts the lift
//! reads.

use vstd::prelude::*;
use crate::decoder::WASI_MODULE;
use crate::decoder::error::DecodeError;
use crate::decoder::sections::{BodyDecl, ExportDecl, ImportDecl, ModuleSections, TypeDecl};
use crate::decoder::types::{ExportEntry, ImportEntry};

verus! {

/// The WebAssembly features modules are validated under: the mutable-global
/// proposal alone, wasmparser's `WasmFeatures::MUTABLE_GLOBAL` bit.
pub const ALLOWED_FEATURES: u64 = 1;

/// Names whether `bytes` is a module the WebAssembly validator accepts with the
/// features whose bits `features` sets enabled.
pub uninterp spec fn wasm_valid(bytes: Seq<u8>, features: u64) -> bool;

/// Validates `bytes` with `wasmparser::Validator::validate_all`, under the
/// feature set whose bits are `features`. The contract claims that the call
/// succeeds exactly on the modules the named predicate accepts for those
/// bytes and features; the validator's error is handed back as it came.
#[verifier::external_body]
fn validate(bytes: &[u8], features: u64) -> (r: Result<(), wasmparser::BinaryReaderError>)
    ensures
        r is Ok <==> wasm_valid(bytes@, features),
{
    let features = wasmparser::WasmFeatures::from_bits_retain(features);
    match wasmparser::Validator::new_with_features(features).validate_all(bytes) {
        Ok(_) => Ok(()),
        Err(e) => Err(e),
    }
}

/// Whether an import lies inside the allowlist: a WASI function Ananse's
/// deterministic host implements.
pub open spec fn import_allowed(i: ImportDecl) -> bool {
    i.module@ == WASI_MODULE@ && (i.name@ == "fd_write"@ || i.name@ == "proc_exit"@)
}

/// The error an import outside the allowlist is rejected with.
pub open spec fn import_error(i: ImportDecl) -> DecodeError {
    if i.module@ != WASI_MODULE@ {
        DecodeError::ForbiddenImportModule { module: i.module }
    } else {
        DecodeError::ForbiddenWasiImport { module: i.module, name: i.name }
    }
}

/// The import entry an import declares.
pub open spec fn import_entry(i: ImportDecl) -> ImportEntry {
    ImportEntry { module: i.module, name: i.name }
}

/// The export entries of the tracked kinds, in declaration order.
pub open spec fn tracked_exports(exports: Seq<ExportDecl>) -> Seq<ExportEntry>
    decreases exports.len(),
{
    if exports.len() == 0 {
        Seq::empty()
    } else {
        let e = exports.last();
        let rest = tracked_exports(exports.drop_last());
        match e.kind {
            Some(kind) => rest.push(ExportEntry { name: e.name, kind, index: e.index }),
            None => rest,
        }
    }
}

/// Checks one import against the allowlist: only `fd_write` and `proc_exit`
/// of the WASI module may be imported.
pub fn enforce_import_allowlist(import: &ImportDecl) -> (r: Result<(), DecodeError>)
    ensures
        import_allowed(*import) ==> r is Ok,
        !import_allowed(*import) ==> r == Err::<(), DecodeError>(import_error(*import)),
{
    proof {
        reveal_strlit("fd_write");
        reveal_strlit("proc_exit");
    }
    let wasi = WASI_MODULE.to_owned();
    if import.module != wasi {
        return Err(DecodeError::ForbiddenImportModule { module: import.module.clone() });
    }
    let fd_write = "fd_write".to_owned();
    let proc_exit = "proc_exit".to_owned();
    if import.name != fd_write && import.name != proc_exit {
        return Err(DecodeError::ForbiddenWasiImport { module: import.module.clone(), name: import.name.clone() });
    }
    Ok(())
}

/// A validated WebAssembly module.
#[derive(Debug, Clone)]
pub struct Module {
    bytes: Vec<u8>,
    imports: Vec<ImportEntry>,
    exports: Vec<ExportEntry>,
    sections: ModuleSections,
}

impl Module {
    /// The module's raw bytes.
    pub closed spec fn bytes_view(&self) -> Seq<u8> {
        self.bytes@
    }

    /// The module's import declarations.
    pub closed spec fn imports_view(&self) -> Seq<ImportEntry> {
        self.imports@
    }

    /// The module's export declarations of the tracked kinds.
    pub closed spec fn exports_view(&self) -> Seq<ExportEntry> {
        self.exports@
    }

    /// The module's sections.
    pub closed spec fn sections_view(&self) -> ModuleSections {
        self.sections
    }

    /// Validates `bytes` against the WASM features that are enabled for
    /// validation and checks every import of `sections`, the module's sections
    /// as read from those bytes, against the allowlist.
    ///
    /// Fails with the validator's error when the bytes do not validate, else
    /// with the first import outside the allowlist.
    pub fn decode(bytes: &[u8], sections: ModuleSections) -> (r: Result<Module, DecodeError>)
        ensures
            !wasm_valid(bytes@, ALLOWED_FEATURES) ==> (r matches Err(e) && e is ValidationFailed),
            wasm_valid(bytes@, ALLOWED_FEATURES) && (forall|i: int| 0 <= i < sections.imports@.len() ==> import_allowed(
                #[trigger] sections.imports@[i],
            )) ==> (r matches Ok(m) && m.bytes_view() == bytes@ && m.imports_view()
                == sections.imports@.map_values(|i: ImportDecl| import_entry(i)) && m.exports_view()
                == tracked_exports(sections.exports@) && m.sections_view() == sections),
            wasm_valid(bytes@, ALLOWED_FEATURES) && !(forall|i: int| 0 <= i < sections.imports@.len() ==> import_allowed(
                #[trigger] sections.imports@[i],
            )) ==> exists|k: int|
                0 <= k < sections.imports@.len() && !import_allowed(sections.imports@[k]) && (forall|j: int|
                    0 <= j < k ==> import_allowed(#[trigger] sections.imports@[j])) && r == Err::<
                    Module,
                    DecodeError,
                >(import_error(sections.imports@[k])),
    {
        if let Err(e) = validate(bytes, ALLOWED_FEATURES) {
            return Err(DecodeError::validation_failed(e));
        }
        let mut imports: Vec<ImportEntry> = Vec::new();
        let mut i: usize = 0;
        while i < sections.imports.len()
            invariant
                wasm_valid(bytes@, ALLOWED_FEATURES),
                i <= sections.imports@.len(),
                forall|j: int| 0 <= j < i ==> import_allowed(#[trigger] sections.imports@[j]),
                imports@ == sections.imports@.subrange(0, i as int).map_values(|d: ImportDecl| import_entry(d)),
            decreases sections.imports.len() - i,
        {
            let decl = &sections.imports[i];
            match enforce_import_allowlist(decl) {
                Ok(()) => {},
                Err(e) => {
                    return Err(e);
                },
            }
            imports.push(ImportEntry { module: decl.module.clone(), name: decl.name.clone() });
            i = i + 1;
            assert(imports@ =~= sections.imports@.subrange(0, i as int).map_values(|d: ImportDecl| import_entry(d)));
        }
        assert(sections.imports@.subrange(0, i as int) =~= sections.imports@);
        let mut exports: Vec<ExportEntry> = Vec::new();
        let mut k: usize = 0;
        while k < sections.exports.len()
            invariant
                k <= sections.exports@.len(),
                exports@ == tracked_exports(sections.exports@.subrange(0, k as int)),
            decreases sections.exports.len() - k,
        {
            let decl = &sections.exports[k];
            let ghost prefix = sections.exports@.subrange(0, k + 1);
            assert(prefix.drop_last() =~= sections.exports@.subrange(0, k as int));
            match decl.kind {
                Some(kind) => {
                    exports.push(ExportEntry { name: decl.name.clone(), kind, index: decl.index });
                },
                None => {},
            }
            k = k + 1;
        }
        assert(sections.exports@.subrange(0, k as int) =~= sections.exports@);
        Ok(Module { bytes: copy_bytes(bytes), imports, exports, sections })
    }

    /// The validated module's raw WebAssembly bytes.
    pub fn bytes(&self) -> (r: &[u8])
        ensures
            r@ == self.bytes_view(),
    {
        self.bytes.as_slice()
    }

    /// The module's import declarations, in declaration order.
    pub fn imports(&self) -> (r: &[ImportEntry])
        ensures
            r@ == self.imports_view(),
    {
        self.imports.as_slice()
    }

    /// The module's export declarations, in declaration order.
    pub fn exports(&self) -> (r: &[ExportEntry])
        ensures
            r@ == self.exports_view(),
    {
        self.exports.as_slice()
    }

    /// The module's sections, as read from its bytes.
    pub fn sections(&self) -> (r: &ModuleSections)
        ensures
            *r == self.sections_view(),
    {
        &self.sections
    }
}

/// The `(params, results)` arity a type entry declares; a non-function entry
/// has none.
pub open spec fn type_arity_of(t: TypeDecl) -> (u32, u32) {
    if t.is_func {
        (t.params@.len() as u32, t.results@.len() as u32)
    } else {
        (0, 0)
    }
}

/// Whether a type entry's arities fit in `u32`.
pub open spec fn type_fits(t: TypeDecl) -> bool {
    t.is_func ==> t.params@.len() <= u32::MAX && t.results@.len() <= u32::MAX
}

/// The type indices of the imported functions, in import order.
pub open spec fn imported_func_types(imports: Seq<ImportDecl>) -> Seq<u32>
    decreases imports.len(),
{
    if imports.len() == 0 {
        Seq::empty()
    } else {
        let rest = imported_func_types(imports.drop_last());
        match imports.last().func_type {
            Some(t) => rest.push(t),
            None => rest,
        }
    }
}

/// The type index of every function, imported functions first.
pub open spec fn func_types_of(s: ModuleSections) -> Seq<u32> {
    imported_func_types(s.imports@) + s.functions@
}

/// Whether a module's sections stay within the counts the lift indexes with
/// `u32`.
pub open spec fn info_fits(s: ModuleSections) -> bool {
    &&& forall|i: int| 0 <= i < s.types@.len() ==> type_fits(#[trigger] s.types@[i])
    &&& imported_func_types(s.imports@).len() <= u32::MAX
    &&& s.globals@.len() <= u32::MAX
}

/// Module-level facts the per-function lift needs.
pub struct ModuleInfo<'a> {
    /// `(params, results)` arity per type index.
    pub type_arities: Vec<(u32, u32)>,
    /// Type index per function index (imported functions first).
    pub func_type_idx: Vec<u32>,
    /// Count of imported functions, which occupy the low function indices.
    pub num_imported_funcs: u32,
    /// Count of module globals.
    pub num_globals: u32,
    /// Defined function bodies, in code-section order.
    pub bodies: &'a [BodyDecl],
}

/// Whether `info` holds the facts of `s`.
pub open spec fn info_of(info: ModuleInfo, s: ModuleSections) -> bool {
    &&& info.type_arities@ == s.types@.map_values(|t: TypeDecl| type_arity_of(t))
    &&& info.func_type_idx@ == func_types_of(s)
    &&& info.num_imported_funcs == imported_func_types(s.imports@).len()
    &&& info.num_globals == s.globals@.len()
    &&& info.bodies@ == s.bodies@
}

impl<'a> ModuleInfo<'a> {
    /// Reads the module-level facts off a module's sections.
    pub fn parse(sections: &'a ModuleSections) -> (r: Result<ModuleInfo<'a>, DecodeError>)
        ensures
            info_fits(*sections) ==> (r matches Ok(info) && info_of(info, *sections)),
            !info_fits(*sections) ==> (r matches Err(e) && e is FunctionTooLarge),
    {
        let mut type_arities: Vec<(u32, u32)> = Vec::new();
        let mut i: usize = 0;
        while i < sections.types.len()
            invariant
                i <= sections.types@.len(),
                forall|j: int| 0 <= j < i ==> type_fits(#[trigger] sections.types@[j]),
                type_arities@ == sections.types@.subrange(0, i as int).map_values(|t: TypeDecl| type_arity_of(t)),
            decreases sections.types.len() - i,
        {
            let t = &sections.types[i];
            let arity = if t.is_func {
                if t.params.len() > u32::MAX as usize || t.results.len() > u32::MAX as usize {
                    return Err(DecodeError::FunctionTooLarge { func_index: 0 });
                }
                (t.params.len() as u32, t.results.len() as u32)
            } else {
                (0, 0)
            };
            type_arities.push(arity);
            i = i + 1;
            assert(type_arities@ =~= sections.types@.subrange(0, i as int).map_values(|t: TypeDecl| type_arity_of(t)));
        }
        assert(sections.types@.subrange(0, i as int) =~= sections.types@);
        let mut func_type_idx: Vec<u32> = Vec::new();
        let mut num_imported_funcs: u32 = 0;
        let mut k: usize = 0;
        while k < sections.imports.len()
            invariant
                forall|j: int| 0 <= j < sections.types@.len() ==> type_fits(#[trigger] sections.types@[j]),
                k <= sections.imports@.len(),
                func_type_idx@ == imported_func_types(sections.imports@.subrange(0, k as int)),
                num_imported_funcs == func_type_idx@.len(),
            decreases sections.imports.len() - k,
        {
            let ghost prefix = sections.imports@.subrange(0, k + 1);
            assert(prefix.drop_last() =~= sections.imports@.subrange(0, k as int));
            match sections.imports[k].func_type {
                Some(t) => {
                    if num_imported_funcs == u32::MAX {
                        proof {
                            lemma_imported_grows(sections.imports@, (k + 1) as nat);
                        }
                        return Err(DecodeError::FunctionTooLarge { func_index: 0 });
                    }
                    func_type_idx.push(t);
                    num_imported_funcs = num_imported_funcs + 1;
                },
                None => {},
            }
            k = k + 1;
        }
        assert(sections.imports@.subrange(0, k as int) =~= sections.imports@);
        let mut f: usize = 0;
        let ghost imported = func_type_idx@;
        while f < sections.functions.len()
            invariant
                f <= sections.functions@.len(),
                func_type_idx@ == imported + sections.functions@.subrange(0, f as int),
            decreases sections.functions.len() - f,
        {
            func_type_idx.push(sections.functions[f]);
            f = f + 1;
            assert(func_type_idx@ =~= imported + sections.functions@.subrange(0, f as int));
        }
        assert(sections.functions@.subrange(0, f as int) =~= sections.functions@);
        if sections.globals.len() > u32::MAX as usize {
            return Err(DecodeError::FunctionTooLarge { func_index: 0 });
        }
        Ok(ModuleInfo {
            type_arities,
            func_type_idx,
            num_imported_funcs,
            num_globals: sections.globals.len() as u32,
            bodies: sections.bodies.as_slice(),
        })
    }

    /// `(params, results)` for a type index.
    pub fn type_arity(&self, type_idx: u32) -> (r: Option<(u32, u32)>)
        ensures
            r == (if type_idx < self.type_arities@.len() {
                Some(self.type_arities@[type_idx as int])
            } else {
                None
            }),
    {
        if (type_idx as usize) < self.type_arities.len() {
            Some(self.type_arities[type_idx as usize])
        } else {
            None
        }
    }

    /// `(params, results)` for a function index, resolved through its type.
    pub fn func_arity(&self, func_idx: u32) -> (r: Option<(u32, u32)>)
        ensures
            r == (if func_idx < self.func_type_idx@.len() && self.func_type_idx@[func_idx as int]
                < self.type_arities@.len() {
                Some(self.type_arities@[self.func_type_idx@[func_idx as int] as int])
            } else {
                None
            }),
    {
        if (func_idx as usize) >= self.func_type_idx.len() {
            return None;
        }
        self.type_arity(self.func_type_idx[func_idx as usize])
    }
}

/// A copy of `bytes`.
pub fn copy_bytes(bytes: &[u8]) -> (r: Vec<u8>)
    ensures
        r@ == bytes@,
{
    let mut out: Vec<u8> = Vec::new();
    let mut i: usize = 0;
    while i < bytes.len()
        invariant
            i <= bytes@.len(),
            out@ == bytes@.subrange(0, i as int),
        decreases bytes.len() - i,
    {
        out.push(bytes[i]);
        i = i + 1;
        assert(out@ =~= bytes@.subrange(0, i as int));
    }
    assert(bytes@.subrange(0, i as int) =~= bytes@);
    out
}

proof fn lemma_imported_grows(imports: Seq<ImportDecl>, n: nat)
    requires
        n <= imports.len(),
    ensures
        imported_func_types(imports.subrange(0, n as int)).len() <= imported_func_types(imports).len(),
    decreases imports.len() - n,
{
    if n < imports.len() {
        lemma_imported_grows(imports, n + 1);
        let p = imports.subrange(0, n + 1 as int);
        assert(p.drop_last() =~= imports.subrange(0, n as int));
    } else {
        assert(imports.subrange(0, n as int) =~= imports);
    }
}

} // verus!
