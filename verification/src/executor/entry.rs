//! Where execution begins: entry-point resolution and argument checking.

use vstd::prelude::*;
use crate::decoder::image::{Image, func_exports_of, image_of, image_supported, params_of};
use crate::decoder::module::{func_types_of, imported_func_types};
use crate::decoder::sections::ModuleSections;
use crate::decoder::module::Module;
use crate::decoder::types::{Word, WordType, zero_of};
use crate::executor::error::ExecuteError;

verus! {

/// Where execution begins.
#[derive(Clone, Debug, PartialEq, Eq)]
pub enum Entry {
    /// Run the exported `_start`, else the first exported function, else the
    /// first defined function; a module with no defined function runs nothing.
    Auto,
    /// Run the function at this index in the module function index space.
    Function(u32),
    /// Run the function exported under this name.
    Export(String),
}

/// The index of the first function export named `name`, if any.
pub open spec fn export_index(exports: Seq<(String, u32)>, name: Seq<char>) -> Option<u32>
    decreases exports.len(),
{
    if exports.len() == 0 {
        None
    } else if exports[0].0@ == name {
        Some(exports[0].1)
    } else {
        export_index(exports.drop_first(), name)
    }
}

/// The function an entry resolves to in `image`: `Ok(None)` when an automatic
/// entry finds nothing to run, `Err(())` when a named export is missing.
pub open spec fn resolved_entry(entry: Entry, image: Image) -> Result<Option<u32>, ()> {
    match entry {
        Entry::Function(idx) => Ok(Some(idx)),
        Entry::Export(name) => match export_index(image.func_exports@, name@) {
            Some(idx) => Ok(Some(idx)),
            None => Err(()),
        },
        Entry::Auto => match export_index(image.func_exports@, "_start"@) {
            Some(idx) => Ok(Some(idx)),
            None => if image.func_exports@.len() > 0 {
                Ok(Some(image.func_exports@[0].1))
            } else if image.funcs@.len() > 0 {
                Ok(Some(image.num_imported))
            } else {
                Ok(None)
            },
        },
    }
}

/// The function an entry resolves to in a module with sections `s`: the
/// resolution of [`resolved_entry`] read off the sections the image is built
/// from.
pub open spec fn entry_target(entry: Entry, s: ModuleSections) -> Result<Option<u32>, ()> {
    let exports = func_exports_of(s.exports@);
    match entry {
        Entry::Function(idx) => Ok(Some(idx)),
        Entry::Export(name) => match export_index(exports, name@) {
            Some(idx) => Ok(Some(idx)),
            None => Err(()),
        },
        Entry::Auto => match export_index(exports, "_start"@) {
            Some(idx) => Ok(Some(idx)),
            None => if exports.len() > 0 {
                Ok(Some(exports[0].1))
            } else if s.bodies@.len() > 0 {
                Ok(Some(imported_func_types(s.imports@).len() as u32))
            } else {
                Ok(None)
            },
        },
    }
}

/// An image of `s` resolves every entry as `s` does.
pub proof fn lemma_resolved_entry_of_image(entry: Entry, img: Image, s: ModuleSections)
    requires
        image_of(img, s),
    ensures
        resolved_entry(entry, img) == entry_target(entry, s),
{
}

/// The parameter types of the function `entry` resolves to in a module with
/// sections `s`: none when an automatic entry finds nothing to run, and
/// [`ExecuteError::UndefinedEntry`] when the export, the function or its type
/// is missing.
pub open spec fn entry_params_spec(entry: Entry, s: ModuleSections) -> Result<Seq<WordType>, ExecuteError> {
    let fts = func_types_of(s);
    match entry_target(entry, s) {
        Err(()) => Err(ExecuteError::UndefinedEntry),
        Ok(None) => Ok(Seq::empty()),
        Ok(Some(idx)) => if idx < fts.len() && fts[idx as int] < s.types@.len() {
            Ok(params_of(s.types@[fts[idx as int] as int]))
        } else {
            Err(ExecuteError::UndefinedEntry)
        },
    }
}

/// A parameter-type result taken by its view.
pub open spec fn params_view(r: Result<Vec<WordType>, ExecuteError>) -> Result<Seq<WordType>, ExecuteError> {
    match r {
        Ok(v) => Ok(v@),
        Err(e) => Err(e),
    }
}

fn find_export(exports: &Vec<(String, u32)>, name: &String) -> (r: Option<u32>)
    ensures
        r == export_index(exports@, name@),
{
    let mut i: usize = 0;
    assert(exports@.subrange(0, exports@.len() as int) =~= exports@);
    while i < exports.len()
        invariant
            i <= exports@.len(),
            export_index(exports@.subrange(i as int, exports@.len() as int), name@) == export_index(exports@, name@),
        decreases exports.len() - i,
    {
        let ghost rest = exports@.subrange(i as int, exports@.len() as int);
        assert(rest[0] == exports@[i as int]);
        if exports[i].0 == *name {
            return Some(exports[i].1);
        }
        assert(rest.drop_first() =~= exports@.subrange(i + 1, exports@.len() as int));
        i = i + 1;
    }
    None
}

/// The arguments a call of `func_index` runs on: `args` when it holds
/// `params` values; the zero of each parameter type when `args` is empty and
/// the function takes parameters; else an argument-count error.
pub fn validate_args(image: &Image, func_index: u32, params: u32, args: &[Word]) -> (r: Result<Vec<Word>, ExecuteError>)
    requires
        func_index < image.func_types@.len(),
        image.func_types@[func_index as int] < image.types@.len(),
    ensures
        args@.len() == 0 && params > 0 ==> (r matches Ok(v) && v@ == image.types@[image.func_types@[func_index as int] as int].params@.map_values(
            |t: WordType| zero_of(t),
        )),
        !(args@.len() == 0 && params > 0) && args@.len() != params ==> r == Err::<Vec<Word>, ExecuteError>(
            ExecuteError::ArgumentCountMismatch { expected: params as usize, actual: args@.len() as usize },
        ),
        !(args@.len() == 0 && params > 0) && args@.len() == params ==> (r matches Ok(v) && v@ == args@),
{
    if args.len() == 0 && params > 0 {
        let ty = &image.types[image.func_types[func_index as usize] as usize];
        let mut out: Vec<Word> = Vec::new();
        let mut i: usize = 0;
        while i < ty.params.len()
            invariant
                i <= ty.params@.len(),
                out@ == ty.params@.subrange(0, i as int).map_values(|t: WordType| zero_of(t)),
            decreases ty.params.len() - i,
        {
            out.push(ty.params[i].zero());
            i = i + 1;
            assert(out@ =~= ty.params@.subrange(0, i as int).map_values(|t: WordType| zero_of(t)));
        }
        assert(ty.params@.subrange(0, i as int) =~= ty.params@);
        return Ok(out);
    }
    if args.len() != params as usize {
        return Err(ExecuteError::ArgumentCountMismatch { expected: params as usize, actual: args.len() });
    }
    let mut out: Vec<Word> = Vec::new();
    let mut i: usize = 0;
    while i < args.len()
        invariant
            i <= args@.len(),
            out@ == args@.subrange(0, i as int),
        decreases args.len() - i,
    {
        out.push(args[i]);
        i = i + 1;
        assert(out@ =~= args@.subrange(0, i as int));
    }
    assert(args@.subrange(0, i as int) =~= args@);
    Ok(out)
}

impl Entry {
    /// Resolves the entry against `image` to a function index; `None` when an
    /// automatic entry finds nothing to run.
    pub fn resolve(&self, image: &Image) -> (r: Result<Option<u32>, ExecuteError>)
        ensures
            match resolved_entry(*self, *image) {
                Ok(o) => r == Ok::<Option<u32>, ExecuteError>(o),
                Err(()) => r == Err::<Option<u32>, ExecuteError>(ExecuteError::UndefinedEntry),
            },
    {
        match self {
            Entry::Function(idx) => Ok(Some(*idx)),
            Entry::Export(name) => match find_export(&image.func_exports, name) {
                Some(idx) => Ok(Some(idx)),
                None => Err(ExecuteError::UndefinedEntry),
            },
            Entry::Auto => {
                let start = "_start".to_owned();
                match find_export(&image.func_exports, &start) {
                    Some(idx) => Ok(Some(idx)),
                    None => {
                        if image.func_exports.len() > 0 {
                            Ok(Some(image.func_exports[0].1))
                        } else if image.funcs.len() > 0 {
                            Ok(Some(image.num_imported))
                        } else {
                            Ok(None)
                        }
                    },
                }
            },
        }
    }

    /// The parameter types of the function the entry resolves to in `module`;
    /// none when an automatic entry finds nothing to run.
    pub fn params(&self, module: &Module) -> (r: Result<Vec<WordType>, ExecuteError>)
        ensures
            image_supported(module.sections_view()) ==> params_view(r) == entry_params_spec(*self, module.sections_view()),
            !image_supported(module.sections_view()) ==> r matches Err(ExecuteError::Decode(_)),
    {
        entry_parameters(module, self)
    }
}

/// The parameter types of the function `entry` resolves to in `module`; none
/// when an automatic entry finds nothing to run, and
/// [`ExecuteError::UndefinedEntry`] when the function or its type is missing.
pub fn entry_parameters(module: &Module, entry: &Entry) -> (r: Result<Vec<WordType>, ExecuteError>)
    ensures
        image_supported(module.sections_view()) ==> params_view(r) == entry_params_spec(*entry, module.sections_view()),
        !image_supported(module.sections_view()) ==> r matches Err(ExecuteError::Decode(_)),
{
    let image = match Image::parse(module.sections()) {
        Ok(i) => i,
        Err(e) => {
            return Err(ExecuteError::Decode(e));
        },
    };
    proof {
        lemma_resolved_entry_of_image(*entry, image, module.sections_view());
    }
    let func_index = match entry.resolve(&image)? {
        Some(i) => i,
        None => {
            return Ok(Vec::new());
        },
    };
    if func_index as usize >= image.func_types.len() {
        return Err(ExecuteError::UndefinedEntry);
    }
    let type_idx = image.func_types[func_index as usize];
    if type_idx as usize >= image.types.len() {
        return Err(ExecuteError::UndefinedEntry);
    }
    let ty = &image.types[type_idx as usize];
    let mut out: Vec<WordType> = Vec::new();
    let mut i: usize = 0;
    while i < ty.params.len()
        invariant
            i <= ty.params@.len(),
            out@ == ty.params@.subrange(0, i as int),
        decreases ty.params.len() - i,
    {
        out.push(ty.params[i]);
        i = i + 1;
        assert(out@ =~= ty.params@.subrange(0, i as int));
    }
    assert(out@ =~= ty.params@);
    Ok(out)
}

} // verus!
