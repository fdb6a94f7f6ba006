use vstd::prelude::*;

verus! {

/// A WebAssembly integer value, held as its unsigned bit pattern.
#[derive(Clone, Copy, Debug, PartialEq, Eq, Hash, Structural)]
pub enum Word {
    /// A 32-bit value, stored as its unsigned bit pattern.
    I32(u32),
    /// A 64-bit value, stored as its unsigned bit pattern.
    I64(u64),
}

/// The bit pattern of a word widened to 64 bits.
pub open spec fn word_bits(w: Word) -> u64 {
    match w {
        Word::I32(b) => b as u64,
        Word::I64(b) => b,
    }
}

/// The bit width of a word: 32 or 64.
pub open spec fn word_width(w: Word) -> u32 {
    match w {
        Word::I32(_) => 32,
        Word::I64(_) => 64,
    }
}

impl Word {
    /// Whether this value is non-zero, the WebAssembly truth value used by
    /// `if`, `br_if`, and `select`.
    pub fn is_true(self) -> (r: bool)
        ensures
            r == (word_bits(self) != 0),
    {
        match self {
            Word::I32(bits) => bits != 0,
            Word::I64(bits) => bits != 0,
        }
    }

    /// The bit pattern widened to `u64` together with the value's bit width.
    pub fn raw(self) -> (r: (u64, u32))
        ensures
            r == (word_bits(self), word_width(self)),
    {
        match self {
            Word::I32(bits) => (bits as u64, 32),
            Word::I64(bits) => (bits, 64),
        }
    }

    /// Returns the bit pattern of this value as `u32`: the low 32 bits.
    pub fn as_u32(self) -> (r: u32)
        ensures
            r == word_bits(self) as u32,
            r as int == word_bits(self) as int % 0x1_0000_0000,
    {
        match self {
            Word::I32(bits) => bits,
            Word::I64(bits) => {
                assert(bits as u32 == bits % 0x1_0000_0000) by (bit_vector);
                bits as u32
            },
        }
    }

    /// The value's little-endian 32-bit limbs `(lo, hi)`, as the canonical
    /// values of the Goldilocks residues the trace carries, with the value
    /// equal to `lo + hi * 2^32`.
    pub fn to_limbs(self) -> (r: (u64, u64))
        ensures
            r.0 == word_bits(self) as int % 0x1_0000_0000,
            r.1 == word_bits(self) as int / 0x1_0000_0000,
            word_bits(self) == r.0 + r.1 * 0x1_0000_0000,
    {
        let bits = match self {
            Word::I32(bits) => bits as u64,
            Word::I64(bits) => bits,
        };
        assert(bits & 0xFFFF_FFFF == bits % 0x1_0000_0000) by (bit_vector);
        assert(bits >> 32 == bits / 0x1_0000_0000) by (bit_vector);
        (bits & 0xFFFF_FFFF, bits >> 32)
    }
}

/// A value type in Ananse's integer subset.
#[derive(Clone, Copy, Debug, PartialEq, Eq, Structural)]
pub enum WordType {
    I32,
    I64,
}

/// The zero value of a word type.
pub open spec fn zero_of(t: WordType) -> Word {
    match t {
        WordType::I32 => Word::I32(0),
        WordType::I64 => Word::I64(0),
    }
}

impl WordType {
    /// The zero value of this word type.
    pub fn zero(self) -> (r: Word)
        ensures
            r == zero_of(self),
    {
        match self {
            WordType::I32 => Word::I32(0),
            WordType::I64 => Word::I64(0),
        }
    }
}

/// A function type: its parameter types and its number of results.
#[derive(Clone, Debug, PartialEq, Eq)]
pub struct FnType {
    /// List of parameters.
    pub params: Vec<WordType>,
    /// Number of return values.
    pub results: u32,
}

/// A single `(module, name)` import declared by a module.
#[derive(Debug, Clone, PartialEq, Eq)]
pub struct ImportEntry {
    /// The import's module namespace.
    pub module: String,
    /// The imported item's name.
    pub name: String,
}

/// The kind of item an [`ExportEntry`] refers to.
#[derive(Debug, Clone, Copy, PartialEq, Eq, Structural)]
pub enum ExportKind {
    /// A function export.
    Function,
    /// A table export.
    Table,
    /// A linear-memory export.
    Memory,
    /// A global export.
    Global,
}

/// A single export declared by a module.
#[derive(Debug, Clone, PartialEq, Eq)]
pub struct ExportEntry {
    /// The export's name.
    pub name: String,
    /// The kind of item being exported.
    pub kind: ExportKind,
    /// The index of the exported item within its index space.
    pub index: u32,
}

} // verus!
