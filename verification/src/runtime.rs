//! A decoded module bound to the host its imports dispatch to: the decode ->
//! lift -> execute pipeline behind one entry point.

use vstd::prelude::*;
use crate::decoder::error::DecodeError;
use crate::decoder::image::image_supported;
use crate::decoder::module::{ALLOWED_FEATURES, Module, import_allowed, import_error, wasm_valid, info_fits};
use crate::decoder::sections::ModuleSections;
use crate::decoder::types::{Word, WordType};
use crate::executor::entry::{Entry, entry_parameters, entry_params_spec, entry_target};
use crate::executor::execution::{entry_outcome, run_fits_entry};
use crate::executor::error::ExecuteError;
use crate::executor::host::{Host, NoHost};
use crate::executor::interp::{Execution, as_result, execute};
use crate::executor::runtime::ExecutionResult;
use crate::wasi::WasiSnapshotPreview1;

verus! {

/// An error from decoding or executing a module through the [`Runtime`] facade.
#[derive(Debug, Clone, PartialEq, Eq)]
pub enum Error {
    /// The module failed to decode or validate.
    Decode(DecodeError),
    /// Execution failed---a trap, an unsupported operator, or a host error.
    Execute(ExecuteError),
}

/// Whether `bytes`, with `sections` read from them, decode to a module.
pub open spec fn decodes(bytes: Seq<u8>, sections: ModuleSections) -> bool {
    wasm_valid(bytes, ALLOWED_FEATURES) && forall|i: int| 0 <= i < sections.imports@.len() ==> import_allowed(#[trigger] sections.imports@[i])
}

/// A call's result as an [`ExecutionResult`] or the execution error it
/// reports.
pub open spec fn call_results(r: Result<Execution, Error>) -> Result<ExecutionResult, ExecuteError> {
    match r {
        Ok(e) => Ok(as_result(e)),
        Err(Error::Execute(x)) => Err(x),
        Err(_) => Err(ExecuteError::UndefinedEntry),
    }
}

/// A decoded module bound to the host its imports dispatch to.
///
/// The runtime decodes once at construction and runs an entry to completion on
/// [`call`](Self::call). [`instantiate`](Self::instantiate) rejects every
/// import, [`instantiate_with_wasi`](Self::instantiate_with_wasi) journals
/// output through the deterministic minimal WASI, and
/// [`instantiate_with_host`](Self::instantiate_with_host) accepts any [`Host`].
pub struct Runtime<H: Host> {
    module: Module,
    host: H,
}

impl<H: Host> Runtime<H> {
    /// The decoded module.
    pub closed spec fn module_view(&self) -> Module {
        self.module
    }

    /// The host.
    pub closed spec fn host_view(&self) -> H {
        self.host
    }

    /// Decodes `bytes`, whose sections are `sections`, into a runtime
    /// dispatching imports to `host`.
    pub fn instantiate_with_host(bytes: &[u8], sections: ModuleSections, host: H) -> (r: Result<Self, Error>)
        ensures
            decodes(bytes@, sections) <==> r is Ok,
            r matches Ok(rt) ==> rt.module_view().bytes_view() == bytes@ && rt.module_view().sections_view() == sections
                && rt.host_view() == host,
            r matches Err(e) ==> e is Decode,
            !wasm_valid(bytes@, ALLOWED_FEATURES) ==> (r matches Err(Error::Decode(e)) && e is ValidationFailed),
            wasm_valid(bytes@, ALLOWED_FEATURES) && r is Err ==> exists|k: int|
                0 <= k < sections.imports@.len() && !import_allowed(sections.imports@[k]) && (forall|j: int|
                    0 <= j < k ==> import_allowed(#[trigger] sections.imports@[j])) && r == Err::<
                    Self,
                    Error,
                >(Error::Decode(import_error(sections.imports@[k]))),
    {
        match Module::decode(bytes, sections) {
            Ok(module) => Ok(Runtime { module, host }),
            Err(e) => Err(Error::Decode(e)),
        }
    }

    /// The decoded module.
    pub fn module(&self) -> (r: &Module)
        ensures
            *r == self.module_view(),
    {
        &self.module
    }

    /// The host imported functions dispatch to.
    pub fn host(&self) -> (r: &H)
        ensures
            *r == self.host_view(),
    {
        &self.host
    }

    /// The parameter widths `entry` expects, in order---the types a caller
    /// coerces its arguments to before [`call`](Self::call).
    pub fn parameters(&self, entry: &Entry) -> (r: Result<Vec<WordType>, Error>)
        ensures
            image_supported(self.module_view().sections_view()) ==> match entry_params_spec(
                *entry,
                self.module_view().sections_view(),
            ) {
                Ok(p) => r matches Ok(v) && v@ == p,
                Err(e) => r == Err::<Vec<WordType>, Error>(Error::Execute(e)),
            },
            !image_supported(self.module_view().sections_view()) ==> r matches Err(Error::Execute(ExecuteError::Decode(_))),
    {
        match entry_parameters(&self.module, entry) {
            Ok(v) => Ok(v),
            Err(e) => Err(Error::Execute(e)),
        }
    }

    /// Runs `entry` with `args` to completion, returning its results, exit
    /// status, and executed-step count.
    pub fn call(&mut self, entry: &Entry, args: &[Word]) -> (r: Result<Execution, Error>)
        ensures
            final(self).module_view() == old(self).module_view(),
            !info_fits(old(self).module_view().sections_view()) || !image_supported(old(self).module_view().sections_view())
                ==> r is Err,
            entry_target(*entry, old(self).module_view().sections_view()) is Err ==> (r matches Err(Error::Execute(e))
                && (e is Lift || e is Decode || e is UndefinedEntry)),
            r matches Ok(res) ==> run_fits_entry(as_result(res), *entry, args@, old(self).module_view().sections_view()),
            r matches Ok(res) ==> (res.exit is Some ==> res.returns@.len() == 0),
            r matches Err(e) ==> e is Execute,
            entry_outcome::<H>(
                call_results(r),
                *entry,
                args@,
                old(self).module_view().sections_view(),
                old(self).host_view()@,
                final(self).host_view()@,
            ),
    {
        let mut observer = ();
        match execute(&self.module, entry, args, &mut self.host, &mut observer) {
            Ok(res) => Ok(res),
            Err(e) => Err(Error::Execute(e)),
        }
    }
}

impl Runtime<NoHost> {
    /// Decodes `bytes` into a runtime that rejects every import---for modules
    /// that import nothing.
    pub fn instantiate(bytes: &[u8], sections: ModuleSections) -> (r: Result<Self, Error>)
        ensures
            !wasm_valid(bytes@, ALLOWED_FEATURES) ==> (r matches Err(Error::Decode(e)) && e is ValidationFailed),
            wasm_valid(bytes@, ALLOWED_FEATURES) && r is Err ==> exists|k: int|
                0 <= k < sections.imports@.len() && !import_allowed(sections.imports@[k]) && (forall|j: int|
                    0 <= j < k ==> import_allowed(#[trigger] sections.imports@[j])) && r == Err::<
                    Self,
                    Error,
                >(Error::Decode(import_error(sections.imports@[k]))),
            decodes(bytes@, sections) <==> r is Ok,
            r matches Ok(rt) ==> rt.module_view().bytes_view() == bytes@ && rt.module_view().sections_view() == sections,
    {
        Self::instantiate_with_host(bytes, sections, NoHost)
    }
}

impl Runtime<WasiSnapshotPreview1> {
    /// Decodes `bytes` into a runtime backed by the deterministic minimal WASI
    /// host, so a module calling `fd_write` / `proc_exit` journals its output
    /// (readable afterward through [`host`](Runtime::host)).
    pub fn instantiate_with_wasi(bytes: &[u8], sections: ModuleSections) -> (r: Result<Self, Error>)
        ensures
            !wasm_valid(bytes@, ALLOWED_FEATURES) ==> (r matches Err(Error::Decode(e)) && e is ValidationFailed),
            wasm_valid(bytes@, ALLOWED_FEATURES) && r is Err ==> exists|k: int|
                0 <= k < sections.imports@.len() && !import_allowed(sections.imports@[k]) && (forall|j: int|
                    0 <= j < k ==> import_allowed(#[trigger] sections.imports@[j])) && r == Err::<
                    Self,
                    Error,
                >(Error::Decode(import_error(sections.imports@[k]))),
            decodes(bytes@, sections) <==> r is Ok,
            r matches Ok(rt) ==> rt.module_view().bytes_view() == bytes@ && rt.module_view().sections_view() == sections
                && rt.host_view().journal_view() == Seq::<u8>::empty(),
    {
        Self::instantiate_with_host(bytes, sections, WasiSnapshotPreview1::new())
    }
}

} // verus!
