//! The executable image of a module: the types, functions, globals, exports
//! and initial linear memory the executor runs against.

use vstd::prelude::*;
use crate::decoder::WASM32_PAGE_SIZE;
use crate::decoder::error::DecodeError;
use crate::decoder::instruction::{BlockType, Instruction};
use crate::decoder::module::{imported_func_types, func_types_of};
use crate::decoder::sections::{BodyDecl, DataDecl, DataMode, ExportDecl, ImportDecl, MemoryDecl, ModuleSections, TypeDecl, ValueKind};
use crate::decoder::types::{ExportKind, FnType, ImportEntry, Word, WordType, word_bits};
use crate::executor::runtime::memory::overwrite;

verus! {

/// The integer word type a declared value type denotes, if it is one.
pub open spec fn word_type_of(k: ValueKind) -> Option<WordType> {
    match k {
        ValueKind::I32 => Some(WordType::I32),
        ValueKind::I64 => Some(WordType::I64),
        ValueKind::Other => None,
    }
}

/// Whether a type entry lies in the integer subset: a non-function entry, or a
/// function type over `i32`/`i64` parameters with a `u32` result count.
pub open spec fn type_supported(t: TypeDecl) -> bool {
    t.is_func ==> (forall|i: int| 0 <= i < t.params@.len() ==> #[trigger] word_type_of(t.params@[i]) is Some)
        && t.results@.len() <= u32::MAX
}

/// The parameter types of a supported type entry.
pub open spec fn params_of(t: TypeDecl) -> Seq<WordType> {
    if t.is_func {
        t.params@.map_values(|k: ValueKind| word_type_of(k)->0)
    } else {
        Seq::empty()
    }
}

/// The result count of a supported type entry.
pub open spec fn results_of(t: TypeDecl) -> u32 {
    if t.is_func {
        t.results@.len() as u32
    } else {
        0
    }
}

/// Whether `f` is the function type a supported type entry declares.
pub open spec fn fn_type_matches(f: FnType, t: TypeDecl) -> bool {
    f.params@ == params_of(t) && f.results == results_of(t)
}

/// Whether a memory entry's initial size fits in the address space.
pub open spec fn memory_fits(m: MemoryDecl) -> bool {
    m.initial * (WASM32_PAGE_SIZE as int) <= usize::MAX
}

/// The status of writing data segments: still going, stopped at an
/// unsupported offset expression, or stopped at a segment outside memory.
#[derive(Clone, Copy, Debug, PartialEq, Eq, Structural)]
pub enum DataStatus {
    Written,
    Unsupported,
    OutOfBounds,
}

/// Writes the first `n` data segments over `mem`, in order, stopping at the
/// first one that cannot be written.
pub open spec fn data_applied(mem: Seq<u8>, data: Seq<DataDecl>, n: nat) -> (Seq<u8>, DataStatus)
    decreases n,
{
    if n == 0 {
        (mem, DataStatus::Written)
    } else {
        let (m, st) = data_applied(mem, data, (n - 1) as nat);
        if st != DataStatus::Written {
            (m, st)
        } else {
            let d = data[n - 1];
            match d.mode {
                DataMode::Passive => (m, DataStatus::Written),
                DataMode::Active(None) => (m, DataStatus::Unsupported),
                DataMode::Active(Some(w)) => {
                    let off = word_bits(w) as int;
                    if off > usize::MAX {
                        (m, DataStatus::Unsupported)
                    } else if off + d.bytes@.len() > m.len() {
                        (m, DataStatus::OutOfBounds)
                    } else {
                        (overwrite(m, off, d.bytes@), DataStatus::Written)
                    }
                },
            }
        }
    }
}

/// The linear memory a module starts with, before data: the last memory
/// entry's initial pages, zeroed, and its page limit.
pub open spec fn initial_memory(mems: Seq<MemoryDecl>) -> (Seq<u8>, Option<u64>) {
    if mems.len() == 0 {
        (Seq::empty(), None)
    } else {
        (Seq::new((mems.last().initial * (WASM32_PAGE_SIZE as int)) as nat, |i: int| 0u8), mems.last().maximum)
    }
}

/// The `(name, index)` pairs of the function exports, in declaration order.
pub open spec fn func_exports_of(exports: Seq<ExportDecl>) -> Seq<(String, u32)>
    decreases exports.len(),
{
    if exports.len() == 0 {
        Seq::empty()
    } else {
        let rest = func_exports_of(exports.drop_last());
        let e = exports.last();
        if e.kind == Some(ExportKind::Function) {
            rest.push((e.name, e.index))
        } else {
            rest
        }
    }
}

/// The declared locals a body's runs expand to, if all are integer typed.
pub open spec fn expanded_locals(runs: Seq<(u32, ValueKind)>) -> Option<Seq<WordType>>
    decreases runs.len(),
{
    if runs.len() == 0 {
        Some(Seq::empty())
    } else {
        match (expanded_locals(runs.drop_last()), word_type_of(runs.last().1)) {
            (Some(rest), Some(t)) => Some(rest + Seq::new(runs.last().0 as nat, |i: int| t)),
            _ => None,
        }
    }
}

/// Whether an operator opens a structured block.
pub open spec fn opens_block(i: Instruction) -> bool {
    i is Block || i is Loop || i is If
}

/// Runs the bracket matcher over the first `n` operators: the `end` program
/// point recorded at each block opening so far (`0` elsewhere), the openings
/// still unmatched, innermost last, and whether every match so far had an
/// `end` point that fits in `u32`.
pub open spec fn ends_after(instrs: Seq<Instruction>, n: nat) -> (Seq<u32>, Seq<int>, bool)
    decreases n,
{
    if n == 0 {
        (Seq::new(instrs.len(), |i: int| 0u32), Seq::empty(), true)
    } else {
        let (ends, open, ok) = ends_after(instrs, (n - 1) as nat);
        let pc = n - 1;
        if !ok {
            (ends, open, ok)
        } else if opens_block(instrs[pc]) {
            (ends, open.push(pc), true)
        } else if instrs[pc] is End && open.len() > 0 {
            if pc > u32::MAX {
                (ends, open, false)
            } else {
                (ends.update(open.last(), pc as u32), open.drop_last(), true)
            }
        } else {
            (ends, open, true)
        }
    }
}

/// A defined function's executable image.
pub struct FuncImage<'a> {
    /// The function's index in the module function index space.
    pub func_index: u32,
    /// The function's type index.
    pub type_idx: u32,
    /// The declared locals, after the parameters.
    pub declared: Vec<WordType>,
    /// The body's operators in program order.
    pub instructions: &'a [Instruction],
    /// `ends[pc]` is the `end` program point of the `block` / `loop` / `if` that
    /// opens at `pc`; `0` for every other program point.
    pub ends: Vec<u32>,
}

/// Whether `f` is the image of body `body` for function `index` of a module
/// whose function types are `func_types`.
pub open spec fn func_image_of(f: FuncImage, index: u32, func_types: Seq<u32>, body: BodyDecl) -> bool {
    &&& f.func_index == index
    &&& f.type_idx == func_types[index as int]
    &&& Some(f.declared@) == expanded_locals(body.locals@)
    &&& f.instructions@ == body.instructions@
    &&& f.ends@ == ends_after(body.instructions@, body.instructions@.len()).0
}

/// Whether body `body` of function `index` can be imaged.
pub open spec fn body_supported(index: u32, func_types: Seq<u32>, body: BodyDecl) -> bool {
    &&& (index as int) < func_types.len()
    &&& expanded_locals(body.locals@) is Some
    &&& ends_after(body.instructions@, body.instructions@.len()).2
}

/// Maps each structured block opening to its matching `end` program point.
pub fn block_ends(instructions: &[Instruction]) -> (r: Result<Vec<u32>, DecodeError>)
    ensures
        ends_after(instructions@, instructions@.len()).2 ==> (r matches Ok(e) && e@ == ends_after(
            instructions@,
            instructions@.len(),
        ).0),
        !ends_after(instructions@, instructions@.len()).2 ==> (r matches Err(e) && e is InvalidBinary),
{
    let mut ends: Vec<u32> = vec![0u32; instructions.len()];
    let mut open: Vec<usize> = Vec::new();
    let mut pc: usize = 0;
    assert(ends@ =~= ends_after(instructions@, 0).0);
    while pc < instructions.len()
        invariant
            pc <= instructions@.len(),
            ends_after(instructions@, pc as nat).2,
            ends@ == ends_after(instructions@, pc as nat).0,
            open@.map_values(|o: usize| o as int) == ends_after(instructions@, pc as nat).1,
            ends@.len() == instructions@.len(),
            forall|j: int| 0 <= j < open@.len() ==> #[trigger] open@[j] < pc,
        decreases instructions.len() - pc,
    {
        proof {
            lemma_ends_len(instructions@, pc as nat);
        }
        match &instructions[pc] {
            Instruction::Block { .. } | Instruction::Loop { .. } | Instruction::If { .. } => {
                open.push(pc);
                assert(open@.map_values(|o: usize| o as int) =~= ends_after(instructions@, (pc + 1) as nat).1);
            },
            Instruction::End => {
                if open.len() > 0 {
                    if pc > u32::MAX as usize {
                        proof {
                            lemma_ends_stuck(instructions@, (pc + 1) as nat, instructions@.len());
                        }
                        return Err(DecodeError::internal("function body too large"));
                    }
                    let start = open.pop().unwrap();
                    ends.set(start, pc as u32);
                    assert(open@.map_values(|o: usize| o as int) =~= ends_after(instructions@, (pc + 1) as nat).1);
                }
            },
            _ => {},
        }
        pc = pc + 1;
    }
    Ok(ends)
}

proof fn lemma_ends_len(instrs: Seq<Instruction>, n: nat)
    requires
        n <= instrs.len(),
    ensures
        ends_after(instrs, n).0.len() == instrs.len(),
        forall|j: int| 0 <= j < ends_after(instrs, n).1.len() ==> 0 <= #[trigger] ends_after(instrs, n).1[j] < n,
    decreases n,
{
    if n > 0 {
        lemma_ends_len(instrs, (n - 1) as nat);
    }
}

proof fn lemma_ends_stuck(instrs: Seq<Instruction>, m: nat, n: nat)
    requires
        m <= n,
        !ends_after(instrs, m).2,
    ensures
        !ends_after(instrs, n).2,
    decreases n,
{
    if m < n {
        lemma_ends_stuck(instrs, m, (n - 1) as nat);
    }
}

impl<'a> FuncImage<'a> {
    /// Images body `body` of function `index`, reading its type from
    /// `func_types`.
    pub fn new(index: u32, func_types: &[u32], body: &'a BodyDecl) -> (r: Result<FuncImage<'a>, DecodeError>)
        ensures
            body_supported(index, func_types@, *body) ==> (r matches Ok(f) && func_image_of(f, index, func_types@, *body)),
            !body_supported(index, func_types@, *body) ==> (r matches Err(e) && e is InvalidBinary),
    {
        if index as usize >= func_types.len() {
            return Err(DecodeError::internal("function references an undeclared type"));
        }
        let type_idx = func_types[index as usize];
        let mut declared: Vec<WordType> = Vec::new();
        let mut i: usize = 0;
        while i < body.locals.len()
            invariant
                i <= body.locals@.len(),
                expanded_locals(body.locals@.subrange(0, i as int)) == Some(declared@),
            decreases body.locals.len() - i,
        {
            let ghost prefix = body.locals@.subrange(0, i + 1);
            assert(prefix.drop_last() =~= body.locals@.subrange(0, i as int));
            let (count, kind) = body.locals[i];
            let t = match kind {
                ValueKind::I32 => WordType::I32,
                ValueKind::I64 => WordType::I64,
                ValueKind::Other => {
                    proof {
                        lemma_locals_stuck(body.locals@, (i + 1) as nat, body.locals@.len());
                        assert(body.locals@.subrange(0, body.locals@.len() as int) =~= body.locals@);
                    }
                    return Err(DecodeError::internal("value type outside the integer subset"));
                },
            };
            let ghost before = declared@;
            let mut c: u32 = 0;
            while c < count
                invariant
                    c <= count,
                    declared@ == before + Seq::new(c as nat, |j: int| t),
                decreases count - c,
            {
                declared.push(t);
                c = c + 1;
                assert(declared@ =~= before + Seq::new(c as nat, |j: int| t));
            }
            i = i + 1;
        }
        assert(body.locals@.subrange(0, i as int) =~= body.locals@);
        let ends = block_ends(body.instructions.as_slice())?;
        Ok(FuncImage { func_index: index, type_idx, declared, instructions: body.instructions.as_slice(), ends })
    }
}

proof fn lemma_locals_stuck(runs: Seq<(u32, ValueKind)>, m: nat, n: nat)
    requires
        m <= n <= runs.len(),
        expanded_locals(runs.subrange(0, m as int)) is None,
    ensures
        expanded_locals(runs.subrange(0, n as int)) is None,
    decreases n,
{
    if m < n {
        lemma_locals_stuck(runs, m, (n - 1) as nat);
        assert(runs.subrange(0, n as int).drop_last() =~= runs.subrange(0, n - 1));
    }
}


/// An executable view of a validated module.
pub struct Image<'a> {
    /// The function types, by type index.
    pub types: Vec<FnType>,
    /// The type index of every function, imported functions first.
    pub func_types: Vec<u32>,
    /// The number of imported functions.
    pub num_imported: u32,
    /// The imported functions, by function index.
    pub imports: Vec<ImportEntry>,
    /// The initial value of every global.
    pub globals: Vec<Word>,
    /// The defined functions, in code-section order.
    pub funcs: Vec<FuncImage<'a>>,
    /// The function exports as `(name, function index)`, in declaration order.
    pub func_exports: Vec<(String, u32)>,
    /// The initial linear memory, data segments written.
    pub memory: Vec<u8>,
    /// The memory's page limit, if declared.
    pub max_pages: Option<u64>,
}

/// The function imports, in import order.
pub open spec fn func_imports_of(imports: Seq<ImportDecl>) -> Seq<ImportEntry>
    decreases imports.len(),
{
    if imports.len() == 0 {
        Seq::empty()
    } else {
        let rest = func_imports_of(imports.drop_last());
        let i = imports.last();
        if i.func_type is Some {
            rest.push(ImportEntry { module: i.module, name: i.name })
        } else {
            rest
        }
    }
}

/// Whether a module's sections can be imaged: every stage succeeds.
pub open spec fn image_supported(s: ModuleSections) -> bool {
    let n = imported_func_types(s.imports@).len();
    &&& forall|i: int| 0 <= i < s.types@.len() ==> type_supported(#[trigger] s.types@[i])
    &&& n <= u32::MAX
    &&& forall|i: int| 0 <= i < s.memories@.len() ==> memory_fits(#[trigger] s.memories@[i])
    &&& forall|i: int| 0 <= i < s.globals@.len() ==> (#[trigger] s.globals@[i]) is Some
    &&& data_applied(initial_memory(s.memories@).0, s.data@, s.data@.len()).1 == DataStatus::Written
    &&& n + s.bodies@.len() <= u32::MAX + 1
    &&& forall|i: int| 0 <= i < s.bodies@.len() ==> body_supported((n + i) as u32, func_types_of(s), #[trigger] s.bodies@[i])
}

/// Whether the data stage stops at a segment outside memory, the earlier
/// stages, the function bodies among them, having succeeded.
pub open spec fn data_out_of_bounds(s: ModuleSections) -> bool {
    let n = imported_func_types(s.imports@).len();
    &&& forall|i: int| 0 <= i < s.types@.len() ==> type_supported(#[trigger] s.types@[i])
    &&& imported_func_types(s.imports@).len() <= u32::MAX
    &&& n + s.bodies@.len() <= u32::MAX + 1
    &&& forall|i: int| 0 <= i < s.bodies@.len() ==> body_supported((n + i) as u32, func_types_of(s), #[trigger] s.bodies@[i])
    &&& forall|i: int| 0 <= i < s.memories@.len() ==> memory_fits(#[trigger] s.memories@[i])
    &&& forall|i: int| 0 <= i < s.globals@.len() ==> (#[trigger] s.globals@[i]) is Some
    &&& data_applied(initial_memory(s.memories@).0, s.data@, s.data@.len()).1 == DataStatus::OutOfBounds
}

/// Whether `img` is the image of `s`.
pub open spec fn image_of(img: Image, s: ModuleSections) -> bool {
    let n = imported_func_types(s.imports@).len();
    &&& img.types@.len() == s.types@.len()
    &&& forall|i: int| 0 <= i < s.types@.len() ==> fn_type_matches(#[trigger] img.types@[i], s.types@[i])
    &&& img.func_types@ == func_types_of(s)
    &&& img.num_imported == n
    &&& img.imports@ == func_imports_of(s.imports@)
    &&& img.globals@ == s.globals@.map_values(|g: Option<Word>| g->0)
    &&& img.func_exports@ == func_exports_of(s.exports@)
    &&& img.memory@ == data_applied(initial_memory(s.memories@).0, s.data@, s.data@.len()).0
    &&& img.max_pages == initial_memory(s.memories@).1
    &&& img.funcs@.len() == s.bodies@.len()
    &&& forall|i: int| 0 <= i < s.bodies@.len() ==> func_image_of(#[trigger] img.funcs@[i], (n + i) as u32, func_types_of(s), s.bodies@[i])
}

impl<'a> Image<'a> {
    /// Images a module from its sections: function types, imported and defined
    /// functions, globals, function exports, and the initial memory with every
    /// active data segment written.
    ///
    /// The function bodies are imaged before the data segments are written.
    /// Fails with [`DecodeError::MemoryOutOfBounds`] when a data segment lies
    /// outside memory, and with an internal error when a declaration falls
    /// outside the integer subset or a count leaves its index type.
    pub fn parse(s: &'a ModuleSections) -> (r: Result<Image<'a>, DecodeError>)
        ensures
            image_supported(*s) ==> (r matches Ok(img) && image_of(img, *s)),
            !image_supported(*s) ==> r is Err,
            r matches Err(e) ==> (e is MemoryOutOfBounds <==> data_out_of_bounds(*s)),
            r matches Err(e) ==> (e is MemoryOutOfBounds || e is InvalidBinary),
    {
        let types = fn_types(s.types.as_slice())?;
        let (func_types, imports, num_imported) = import_stage(s)?;
        let (memory0, max_pages) = memory_stage(s.memories.as_slice())?;
        let globals = global_stage(s.globals.as_slice())?;
        let func_exports = export_stage(s.exports.as_slice());
        let mut funcs: Vec<FuncImage<'a>> = Vec::new();
        let ghost n = num_imported as int;
        let mut i: usize = 0;
        while i < s.bodies.len()
            invariant
                i <= s.bodies@.len(),
                n == imported_func_types(s.imports@).len(),
                num_imported == n,
                func_types@ == func_types_of(*s),
                funcs@.len() == i,
                n + i <= u32::MAX + 1,
                forall|j: int| 0 <= j < i ==> body_supported((n + j) as u32, func_types_of(*s), #[trigger] s.bodies@[j]),
                forall|j: int| 0 <= j < i ==> func_image_of(#[trigger] funcs@[j], (n + j) as u32, func_types_of(*s), s.bodies@[j]),
            decreases s.bodies.len() - i,
        {
            if i > (u32::MAX - num_imported) as usize {
                return Err(DecodeError::internal("too many functions"));
            }
            let index = num_imported + i as u32;
            let f = FuncImage::new(index, func_types.as_slice(), &s.bodies[i])?;
            funcs.push(f);
            i = i + 1;
        }
        let mut memory = memory0;
        data_stage(&mut memory, s.data.as_slice())?;
        Ok(Image { types, func_types, num_imported, imports, globals, funcs, func_exports, memory, max_pages })
    }

    /// The `(parameter count, result count)` of a function by index.
    pub fn func_arity(&self, func_idx: u32) -> (r: Option<(u32, u32)>)
        ensures
            r == (if func_idx < self.func_types@.len() && self.func_types@[func_idx as int] < self.types@.len()
                && self.types@[self.func_types@[func_idx as int] as int].params@.len() <= u32::MAX {
                Some(
                    (
                        self.types@[self.func_types@[func_idx as int] as int].params@.len() as u32,
                        self.types@[self.func_types@[func_idx as int] as int].results,
                    ),
                )
            } else {
                None
            }),
    {
        if func_idx as usize >= self.func_types.len() {
            return None;
        }
        let t = self.func_types[func_idx as usize];
        if t as usize >= self.types.len() {
            return None;
        }
        let ty = &self.types[t as usize];
        if ty.params.len() > u32::MAX as usize {
            return None;
        }
        Some((ty.params.len() as u32, ty.results))
    }

    /// The `(input arity, result arity)` of a block type.
    pub fn block_arity(&self, ty: &BlockType) -> (r: Result<(u32, u32), DecodeError>)
        ensures
            match *ty {
                BlockType::Empty => r == Ok::<(u32, u32), DecodeError>((0, 0)),
                BlockType::Type => r == Ok::<(u32, u32), DecodeError>((0, 1)),
                BlockType::FuncType(idx) => if idx < self.types@.len() && self.types@[idx as int].params@.len()
                    <= u32::MAX {
                    r == Ok::<(u32, u32), DecodeError>(
                        (self.types@[idx as int].params@.len() as u32, self.types@[idx as int].results),
                    )
                } else {
                    r is Err
                },
            },
    {
        match ty {
            BlockType::Empty => Ok((0, 0)),
            BlockType::Type => Ok((0, 1)),
            BlockType::FuncType(idx) => {
                if *idx as usize >= self.types.len() {
                    return Err(DecodeError::internal("block references an undeclared type"));
                }
                let t = &self.types[*idx as usize];
                if t.params.len() > u32::MAX as usize {
                    return Err(DecodeError::internal("block parameter count overflows"));
                }
                Ok((t.params.len() as u32, t.results))
            },
        }
    }
}

fn fn_types(types: &[TypeDecl]) -> (r: Result<Vec<FnType>, DecodeError>)
    ensures
        (forall|i: int| 0 <= i < types@.len() ==> type_supported(#[trigger] types@[i])) ==> (r matches Ok(v)
            && v@.len() == types@.len() && forall|i: int| 0 <= i < types@.len() ==> fn_type_matches(#[trigger] v@[i], types@[i])),
        !(forall|i: int| 0 <= i < types@.len() ==> type_supported(#[trigger] types@[i])) ==> (r matches Err(e) && e is InvalidBinary),
{
    let mut out: Vec<FnType> = Vec::new();
    let mut i: usize = 0;
    while i < types.len()
        invariant
            i <= types@.len(),
            out@.len() == i,
            forall|j: int| 0 <= j < i ==> type_supported(#[trigger] types@[j]),
            forall|j: int| 0 <= j < i ==> fn_type_matches(#[trigger] out@[j], types@[j]),
        decreases types.len() - i,
    {
        let t = &types[i];
        if t.is_func {
            let mut params: Vec<WordType> = Vec::new();
            let mut k: usize = 0;
            while k < t.params.len()
                invariant
                    k <= t.params@.len(),
                    i < types@.len(),
                    *t == types@[i as int],
                    t.is_func,
                    forall|j: int| 0 <= j < k ==> #[trigger] word_type_of(t.params@[j]) is Some,
                    params@ == t.params@.subrange(0, k as int).map_values(|p: ValueKind| word_type_of(p)->0),
                decreases t.params.len() - k,
            {
                let w = match t.params[k] {
                    ValueKind::I32 => WordType::I32,
                    ValueKind::I64 => WordType::I64,
                    ValueKind::Other => {
                        assert(word_type_of(types@[i as int].params@[k as int]) is None);
                        assert(!type_supported(types@[i as int]));
                        return Err(DecodeError::internal("value type outside the integer subset"));
                    },
                };
                params.push(w);
                k = k + 1;
                assert(params@ =~= t.params@.subrange(0, k as int).map_values(|p: ValueKind| word_type_of(p)->0));
            }
            assert(t.params@.subrange(0, k as int) =~= t.params@);
            if t.results.len() > u32::MAX as usize {
                return Err(DecodeError::internal("result count overflows"));
            }
            out.push(FnType { params, results: t.results.len() as u32 });
        } else {
            out.push(FnType { params: Vec::new(), results: 0 });
        }
        i = i + 1;
    }
    Ok(out)
}

fn import_stage(s: &ModuleSections) -> (r: Result<(Vec<u32>, Vec<ImportEntry>, u32), DecodeError>)
    ensures
        imported_func_types(s.imports@).len() <= u32::MAX ==> (r matches Ok((ft, im, n)) && ft@ == func_types_of(*s)
            && im@ == func_imports_of(s.imports@) && n == imported_func_types(s.imports@).len()),
        imported_func_types(s.imports@).len() > u32::MAX ==> (r matches Err(e) && e is InvalidBinary),
{
    let mut func_types: Vec<u32> = Vec::new();
    let mut imports: Vec<ImportEntry> = Vec::new();
    let mut num: u32 = 0;
    let mut k: usize = 0;
    while k < s.imports.len()
        invariant
            k <= s.imports@.len(),
            func_types@ == imported_func_types(s.imports@.subrange(0, k as int)),
            imports@ == func_imports_of(s.imports@.subrange(0, k as int)),
            num == func_types@.len(),
        decreases s.imports.len() - k,
    {
        let ghost prefix = s.imports@.subrange(0, k + 1);
        assert(prefix.drop_last() =~= s.imports@.subrange(0, k as int));
        let decl = &s.imports[k];
        match decl.func_type {
            Some(t) => {
                if num == u32::MAX {
                    proof {
                        lemma_imported_prefix(s.imports@, (k + 1) as nat);
                    }
                    return Err(DecodeError::internal("too many imported functions"));
                }
                func_types.push(t);
                imports.push(ImportEntry { module: decl.module.clone(), name: decl.name.clone() });
                num = num + 1;
            },
            None => {},
        }
        k = k + 1;
    }
    assert(s.imports@.subrange(0, k as int) =~= s.imports@);
    let ghost imported = func_types@;
    let mut f: usize = 0;
    while f < s.functions.len()
        invariant
            f <= s.functions@.len(),
            func_types@ == imported + s.functions@.subrange(0, f as int),
        decreases s.functions.len() - f,
    {
        func_types.push(s.functions[f]);
        f = f + 1;
        assert(func_types@ =~= imported + s.functions@.subrange(0, f as int));
    }
    assert(s.functions@.subrange(0, f as int) =~= s.functions@);
    Ok((func_types, imports, num))
}

proof fn lemma_imported_prefix(imports: Seq<ImportDecl>, n: nat)
    requires
        n <= imports.len(),
    ensures
        imported_func_types(imports.subrange(0, n as int)).len() <= imported_func_types(imports).len(),
    decreases imports.len() - n,
{
    if n < imports.len() {
        lemma_imported_prefix(imports, n + 1);
        assert(imports.subrange(0, n + 1 as int).drop_last() =~= imports.subrange(0, n as int));
    } else {
        assert(imports.subrange(0, n as int) =~= imports);
    }
}

fn memory_stage(mems: &[MemoryDecl]) -> (r: Result<(Vec<u8>, Option<u64>), DecodeError>)
    ensures
        (forall|i: int| 0 <= i < mems@.len() ==> memory_fits(#[trigger] mems@[i])) ==> (r matches Ok((m, mx))
            && (m@, mx) == initial_memory(mems@)),
        !(forall|i: int| 0 <= i < mems@.len() ==> memory_fits(#[trigger] mems@[i])) ==> (r matches Err(e)
            && e is InvalidBinary),
{
    let mut memory: Vec<u8> = Vec::new();
    let mut max_pages: Option<u64> = None;
    let mut i: usize = 0;
    while i < mems.len()
        invariant
            i <= mems@.len(),
            forall|j: int| 0 <= j < i ==> memory_fits(#[trigger] mems@[j]),
            (memory@, max_pages) == initial_memory(mems@.subrange(0, i as int)),
        decreases mems.len() - i,
    {
        let m = mems[i];
        if m.initial > (usize::MAX / WASM32_PAGE_SIZE) as u64 {
            assert(!memory_fits(mems@[i as int])) by (nonlinear_arith)
                requires
                    m == mems@[i as int],
                    m.initial > usize::MAX / 65536,
            ;
            return Err(DecodeError::internal("initial memory size overflows"));
        }
        proof {
            assert(m.initial * 65536 <= usize::MAX) by (nonlinear_arith)
                requires
                    m.initial <= usize::MAX / 65536,
            ;
        }
        let bytes = m.initial as usize * WASM32_PAGE_SIZE;
        memory = vec![0u8; bytes];
        max_pages = m.maximum;
        i = i + 1;
        assert(mems@.subrange(0, i as int).last() == m);
        assert(memory@ =~= initial_memory(mems@.subrange(0, i as int)).0);
    }
    assert(mems@.subrange(0, i as int) =~= mems@);
    Ok((memory, max_pages))
}

fn global_stage(globals: &[Option<Word>]) -> (r: Result<Vec<Word>, DecodeError>)
    ensures
        (forall|i: int| 0 <= i < globals@.len() ==> (#[trigger] globals@[i]) is Some) ==> (r matches Ok(v) && v@
            == globals@.map_values(|g: Option<Word>| g->0)),
        !(forall|i: int| 0 <= i < globals@.len() ==> (#[trigger] globals@[i]) is Some) ==> (r matches Err(e)
            && e is InvalidBinary),
{
    let mut out: Vec<Word> = Vec::new();
    let mut i: usize = 0;
    while i < globals.len()
        invariant
            i <= globals@.len(),
            forall|j: int| 0 <= j < i ==> (#[trigger] globals@[j]) is Some,
            out@ == globals@.subrange(0, i as int).map_values(|g: Option<Word>| g->0),
        decreases globals.len() - i,
    {
        match globals[i] {
            Some(w) => out.push(w),
            None => {
                return Err(DecodeError::internal("unsupported constant initializer"));
            },
        }
        i = i + 1;
        assert(out@ =~= globals@.subrange(0, i as int).map_values(|g: Option<Word>| g->0));
    }
    assert(globals@.subrange(0, i as int) =~= globals@);
    Ok(out)
}

fn export_stage(exports: &[ExportDecl]) -> (r: Vec<(String, u32)>)
    ensures
        r@ == func_exports_of(exports@),
{
    let mut out: Vec<(String, u32)> = Vec::new();
    let mut i: usize = 0;
    while i < exports.len()
        invariant
            i <= exports@.len(),
            out@ == func_exports_of(exports@.subrange(0, i as int)),
        decreases exports.len() - i,
    {
        let e = &exports[i];
        assert(exports@.subrange(0, i + 1 as int).drop_last() =~= exports@.subrange(0, i as int));
        if e.kind == Some(ExportKind::Function) {
            out.push((e.name.clone(), e.index));
        }
        i = i + 1;
    }
    assert(exports@.subrange(0, i as int) =~= exports@);
    out
}

fn data_stage(memory: &mut Vec<u8>, data: &[DataDecl]) -> (r: Result<(), DecodeError>)
    ensures
        data_applied(old(memory)@, data@, data@.len()).1 == DataStatus::Written ==> r is Ok && final(memory)@
            == data_applied(old(memory)@, data@, data@.len()).0,
        data_applied(old(memory)@, data@, data@.len()).1 == DataStatus::OutOfBounds ==> (r matches Err(e)
            && e is MemoryOutOfBounds),
        data_applied(old(memory)@, data@, data@.len()).1 == DataStatus::Unsupported ==> (r matches Err(e)
            && e is InvalidBinary),
{
    let ghost mem0 = memory@;
    let mut i: usize = 0;
    while i < data.len()
        invariant
            i <= data@.len(),
            mem0 == old(memory)@,
            data_applied(mem0, data@, i as nat).1 == DataStatus::Written,
            memory@ == data_applied(mem0, data@, i as nat).0,
        decreases data.len() - i,
    {
        let d = &data[i];
        match d.mode {
            DataMode::Passive => {},
            DataMode::Active(None) => {
                proof {
                    lemma_data_stuck(mem0, data@, (i + 1) as nat, data@.len());
                }
                return Err(DecodeError::internal("unsupported constant initializer"));
            },
            DataMode::Active(Some(w)) => {
                let offset: usize = match w {
                    Word::I32(v) => v as usize,
                    Word::I64(v) => {
                        if v > usize::MAX as u64 {
                            proof {
                                lemma_data_stuck(mem0, data@, (i + 1) as nat, data@.len());
                            }
                            return Err(DecodeError::internal("data offset overflows"));
                        }
                        v as usize
                    },
                };
                if d.bytes.len() > memory.len() || offset > memory.len() - d.bytes.len() {
                    proof {
                        lemma_data_stuck(mem0, data@, (i + 1) as nat, data@.len());
                    }
                    return Err(DecodeError::MemoryOutOfBounds);
                }
                let ghost before = memory@;
                let mut k: usize = 0;
                while k < d.bytes.len()
                    invariant
                        k <= d.bytes@.len(),
                        offset + d.bytes@.len() <= before.len(),
                        memory.len() == before.len(),
                        memory@.len() == before.len(),
                        forall|j: int| 0 <= j < offset || offset + d.bytes@.len() <= j < before.len() ==> #[trigger] memory@[j] == before[j],
                        forall|j: int| offset <= j < offset + k ==> #[trigger] memory@[j] == d.bytes@[j - offset],
                        forall|j: int| offset + k <= j < offset + d.bytes@.len() ==> #[trigger] memory@[j] == before[j],
                    decreases d.bytes.len() - k,
                {
                    memory.set(offset + k, d.bytes[k]);
                    k = k + 1;
                }
                assert(memory@ =~= overwrite(before, offset as int, d.bytes@));
            },
        }
        i = i + 1;
    }
    Ok(())
}

proof fn lemma_data_stuck(mem: Seq<u8>, data: Seq<DataDecl>, m: nat, n: nat)
    requires
        m <= n,
        data_applied(mem, data, m).1 != DataStatus::Written,
    ensures
        data_applied(mem, data, n) == data_applied(mem, data, m),
    decreases n,
{
    if m < n {
        lemma_data_stuck(mem, data, m, (n - 1) as nat);
    }
}

} // verus!
