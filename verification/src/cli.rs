//! The command-line surface's own logic: spotting a WASI command module and
//! reading integer arguments into the words an entry expects.

pub mod text;

use vstd::prelude::*;
use vstd::string::StringSliceAdditionalSpecFns;
use vstd::utf8::encode_utf8;
use crate::decoder::image::image_supported;
use crate::decoder::module::Module;
use crate::decoder::types::{ExportKind, Word, WordType};
use crate::executor::entry::{Entry, entry_params_spec};
use crate::executor::error::ExecuteError;
use crate::runtime::{Error, Runtime};
use crate::wasi::WasiSnapshotPreview1;

verus! {

/// Why a command-line argument could not be read.
#[derive(Debug, Clone, PartialEq, Eq)]
pub enum ArgumentError {
    /// The entry's parameters could not be determined.
    Parameters(Error),
    /// The entry expects these parameters, but this many arguments were given.
    Count { parameters: Vec<WordType>, actual: usize },
    /// The text is no valid argument of this type.
    Invalid { ty: WordType, text: String },
    /// The hexadecimal text is no valid number.
    InvalidHex { text: String },
    /// The hexadecimal text denotes a number too large for an `i32`.
    OutOfRange { text: String },
}

/// Whether the module exports a `_start` function---the WASI command entry a
/// bare run targets, whose result is not a returned value.
pub fn exports_start(module: &Module) -> (r: bool)
    ensures
        r == exists|i: int|
            0 <= i < module.exports_view().len() && (#[trigger] module.exports_view()[i]).name@ == "_start"@
                && module.exports_view()[i].kind == ExportKind::Function,
{
    let exports = module.exports();
    let start = "_start".to_owned();
    let mut i: usize = 0;
    while i < exports.len()
        invariant
            i <= exports@.len(),
            exports@ == module.exports_view(),
            start@ == "_start"@,
            forall|j: int| 0 <= j < i ==> !((#[trigger] exports@[j]).name@ == "_start"@ && exports@[j].kind == ExportKind::Function),
        decreases exports.len() - i,
    {
        if exports[i].name == start && exports[i].kind == ExportKind::Function {
            return true;
        }
        i = i + 1;
    }
    false
}

/// The value of an ASCII digit in base `radix` (10 or 16), if it is one.
pub open spec fn digit_of(b: u8, radix: nat) -> Option<nat> {
    if 48 <= b <= 57 {
        Some((b - 48) as nat)
    } else if radix == 16 && 97 <= b <= 102 {
        Some((b - 87) as nat)
    } else if radix == 16 && 65 <= b <= 70 {
        Some((b - 55) as nat)
    } else {
        None
    }
}

/// Whether every byte of `s` is a digit in base `radix`.
pub open spec fn all_digits(s: Seq<u8>, radix: nat) -> bool {
    forall|i: int| 0 <= i < s.len() ==> (#[trigger] digit_of(s[i], radix)) is Some
}

/// The number a string of digits denotes in base `radix`.
pub open spec fn digits_value(s: Seq<u8>, radix: nat) -> nat
    decreases s.len(),
{
    if s.len() == 0 {
        0
    } else {
        digits_value(s.drop_last(), radix) * radix + digit_of(s.last(), radix)->0
    }
}

/// The number an unsigned text denotes: an optional `+` and at least one
/// digit.
pub open spec fn unsigned_text(s: Seq<u8>, radix: nat) -> Option<nat> {
    let body = if s.len() > 0 && s[0] == 43 { s.drop_first() } else { s };
    if body.len() > 0 && all_digits(body, radix) {
        Some(digits_value(body, radix))
    } else {
        None
    }
}

/// The number a signed decimal text denotes: an optional `+` or `-` and at
/// least one digit.
pub open spec fn signed_text(s: Seq<u8>) -> Option<int> {
    if s.len() > 0 && s[0] == 45 {
        let body = s.drop_first();
        if body.len() > 0 && all_digits(body, 10) {
            Some(-(digits_value(body, 10) as int))
        } else {
            None
        }
    } else {
        match unsigned_text(s, 10) {
            Some(v) => Some(v as int),
            None => None,
        }
    }
}

/// Whether `s` carries a `0x` or `0X` prefix.
pub open spec fn hex_prefixed(s: Seq<u8>) -> bool {
    s.len() >= 2 && s[0] == 48 && (s[1] == 120 || s[1] == 88)
}

/// Reads digits `s[start..]` in base `radix`: `None` when they are empty or not
/// all digits, `Some(None)` when their value leaves `u64`.
fn parse_digits(s: &[u8], start: usize, radix: u64) -> (r: Option<Option<u64>>)
    requires
        start <= s@.len(),
        radix == 10 || radix == 16,
    ensures
        ({
            let body = s@.subrange(start as int, s@.len() as int);
            if body.len() > 0 && all_digits(body, radix as nat) {
                if digits_value(body, radix as nat) <= u64::MAX {
                    r == Some(Some(digits_value(body, radix as nat) as u64))
                } else {
                    r == Some(None::<u64>)
                }
            } else {
                r is None
            }
        }),
{
    let ghost body = s@.subrange(start as int, s@.len() as int);
    if start == s.len() {
        return None;
    }
    let mut acc: u64 = 0;
    let mut overflow = false;
    let mut i: usize = start;
    assert(s@.subrange(start as int, start as int).len() == 0);
    while i < s.len()
        invariant
            start <= i <= s@.len(),
            body == s@.subrange(start as int, s@.len() as int),
            radix == 10 || radix == 16,
            all_digits(s@.subrange(start as int, i as int), radix as nat),
            overflow <==> digits_value(s@.subrange(start as int, i as int), radix as nat) > u64::MAX,
            !overflow ==> acc == digits_value(s@.subrange(start as int, i as int), radix as nat),
        decreases s.len() - i,
    {
        let b = s[i];
        let d: u64 = if 48 <= b && b <= 57 {
            (b - 48) as u64
        } else if radix == 16 && 97 <= b && b <= 102 {
            (b - 87) as u64
        } else if radix == 16 && 65 <= b && b <= 70 {
            (b - 55) as u64
        } else {
            assert(body[i - start] == b);
            assert(!all_digits(body, radix as nat));
            return None;
        };
        let ghost prefix = s@.subrange(start as int, i + 1);
        assert(prefix.drop_last() =~= s@.subrange(start as int, i as int));
        assert(prefix.last() == b);
        assert(digit_of(b, radix as nat) == Some(d as nat));
        if !overflow {
            if acc > (u64::MAX - d) / radix {
                overflow = true;
                proof {
                    assert(acc * radix + d > u64::MAX) by (nonlinear_arith)
                        requires
                            acc > (u64::MAX - d) as int / radix as int,
                            radix > 0,
                            d <= u64::MAX,
                    ;
                }
            } else {
                proof {
                    assert(acc * radix + d <= u64::MAX) by (nonlinear_arith)
                        requires
                            acc <= (u64::MAX - d) as int / radix as int,
                            radix > 0,
                            d <= u64::MAX,
                    ;
                }
                acc = acc * radix + d;
            }
        } else {
            proof {
                let v = digits_value(s@.subrange(start as int, i as int), radix as nat);
                assert(v * radix + d > u64::MAX) by (nonlinear_arith)
                    requires
                        v > u64::MAX,
                        radix >= 1,
                ;
            }
        }
        i = i + 1;
        assert forall|j: int| 0 <= j < s@.subrange(start as int, i as int).len() implies (#[trigger] digit_of(
            s@.subrange(start as int, i as int)[j],
            radix as nat,
        )) is Some by {
            if j < i - 1 - start {
                assert(s@.subrange(start as int, i as int)[j] == s@.subrange(start as int, i - 1)[j]);
            }
        }
    }
    assert(s@.subrange(start as int, i as int) =~= body);
    if overflow {
        Some(None)
    } else {
        Some(Some(acc))
    }
}

/// Reads a `0x`/`0X` hexadecimal literal: `None` when `text` carries no such
/// prefix, `Some(None)` when the rest is no hexadecimal `u64`.
pub fn parse_hex(text: &str) -> (r: Option<Option<u64>>)
    ensures
        !hex_prefixed(text.spec_bytes()) ==> r is None,
        hex_prefixed(text.spec_bytes()) ==> r == Some(
            match unsigned_text(text.spec_bytes().subrange(2, text.spec_bytes().len() as int), 16) {
                Some(v) => if v <= u64::MAX {
                    Some(v as u64)
                } else {
                    None
                },
                None => None,
            },
        ),
{
    let s = text.as_bytes();
    if s.len() < 2 || s[0] != 48 || (s[1] != 120 && s[1] != 88) {
        return None;
    }
    let ghost rest = s@.subrange(2, s@.len() as int);
    let start: usize = if s.len() > 2 && s[2] == 43 {
        3
    } else {
        2
    };
    proof {
        if start == 3 {
            assert(rest.drop_first() =~= s@.subrange(3, s@.len() as int));
        }
    }
    match parse_digits(s, start, 16) {
        Some(v) => Some(v),
        None => Some(None),
    }
}

/// The 32-bit pattern of a signed decimal, or `None` outside `i32`.
pub open spec fn i32_bits(v: int) -> Option<u32> {
    if -0x8000_0000 <= v < 0x8000_0000 {
        Some(if v < 0 { (v + 0x1_0000_0000) as u32 } else { v as u32 })
    } else {
        None
    }
}

/// The 64-bit pattern of a signed decimal, or `None` outside `i64`.
pub open spec fn i64_bits(v: int) -> Option<u64> {
    if -0x8000_0000_0000_0000 <= v < 0x8000_0000_0000_0000 {
        Some(if v < 0 { (v + 0x1_0000_0000_0000_0000) as u64 } else { v as u64 })
    } else {
        None
    }
}

/// Reads a signed decimal text whose magnitude fits in `u64`.
fn parse_signed(s: &[u8]) -> (r: Option<(bool, u64)>)
    ensures
        r matches Some((neg, m)) ==> signed_text(s@) == Some(if neg { -(m as int) } else { m as int }),
        r is None ==> signed_text(s@) is None || (signed_text(s@) matches Some(v) && (v > u64::MAX || v < -(u64::MAX as int))),
{
    if s.len() > 0 && s[0] == 45 {
        assert(s@.drop_first() =~= s@.subrange(1, s@.len() as int));
        match parse_digits(s, 1, 10) {
            Some(Some(m)) => Some((true, m)),
            _ => None,
        }
    } else {
        let start: usize = if s.len() > 0 && s[0] == 43 {
            1
        } else {
            0
        };
        assert(s@.subrange(0, s@.len() as int) =~= s@);
        if start == 1 {
            assert(s@.drop_first() =~= s@.subrange(1, s@.len() as int));
        }
        match parse_digits(s, start, 10) {
            Some(Some(m)) => Some((false, m)),
            _ => None,
        }
    }
}

/// Reads an unsigned decimal text whose value fits in `u64`.
fn parse_unsigned(s: &[u8]) -> (r: Option<u64>)
    ensures
        r matches Some(v) ==> unsigned_text(s@, 10) == Some(v as nat),
        r is None ==> unsigned_text(s@, 10) is None || (unsigned_text(s@, 10) matches Some(v) && v > u64::MAX),
{
    let start: usize = if s.len() > 0 && s[0] == 43 {
        1
    } else {
        0
    };
    assert(s@.subrange(0, s@.len() as int) =~= s@);
    if start == 1 {
        assert(s@.drop_first() =~= s@.subrange(1, s@.len() as int));
    }
    match parse_digits(s, start, 10) {
        Some(Some(v)) => Some(v),
        _ => None,
    }
}

/// The `i32` bit pattern an argument text denotes: a signed or unsigned
/// decimal, or a `0x` hexadecimal literal.
pub open spec fn i32_argument(s: Seq<u8>) -> Option<u32> {
    match signed_text(s) {
        Some(v) => match i32_bits(v) {
            Some(b) => Some(b),
            None => match unsigned_text(s, 10) {
                Some(u) => if u <= u32::MAX { Some(u as u32) } else { None },
                None => None,
            },
        },
        None => None,
    }
}

/// The `i64` bit pattern an argument text denotes: a signed or unsigned
/// decimal, or a `0x` hexadecimal literal.
pub open spec fn i64_argument(s: Seq<u8>) -> Option<u64> {
    match signed_text(s) {
        Some(v) => match i64_bits(v) {
            Some(b) => Some(b),
            None => match unsigned_text(s, 10) {
                Some(u) => if u <= u64::MAX { Some(u as u64) } else { None },
                None => None,
            },
        },
        None => None,
    }
}

/// Parses an `i32` argument from a signed or unsigned decimal, or a `0x` hex
/// literal, keeping its 32-bit two's-complement bit pattern.
pub fn parse_u32(text: &str) -> (r: Result<u32, ArgumentError>)
    ensures
        hex_prefixed(text.spec_bytes()) ==> match unsigned_text(text.spec_bytes().subrange(2, text.spec_bytes().len() as int), 16) {
            Some(v) => if v <= u32::MAX {
                r == Ok::<u32, ArgumentError>(v as u32)
            } else if v <= u64::MAX {
                r matches Err(ArgumentError::OutOfRange { .. })
            } else {
                r matches Err(ArgumentError::InvalidHex { .. })
            },
            None => r matches Err(ArgumentError::InvalidHex { .. }),
        },
        !hex_prefixed(text.spec_bytes()) ==> match i32_argument(text.spec_bytes()) {
            Some(b) => r == Ok::<u32, ArgumentError>(b),
            None => r matches Err(ArgumentError::Invalid { ty: WordType::I32, .. }),
        },
{
    match parse_hex(text) {
        Some(Some(bits)) => {
            if bits > u32::MAX as u64 {
                return Err(ArgumentError::OutOfRange { text: text.to_owned() });
            }
            return Ok(bits as u32);
        },
        Some(None) => {
            return Err(ArgumentError::InvalidHex { text: text.to_owned() });
        },
        None => {},
    }
    let s = text.as_bytes();
    match parse_signed(s) {
        Some((neg, m)) => {
            if !neg && m < 0x8000_0000 {
                return Ok(m as u32);
            }
            if neg && m <= 0x8000_0000 {
                if m == 0 {
                    return Ok(0);
                }
                return Ok((0x1_0000_0000u64 - m) as u32);
            }
        },
        None => {},
    }
    match parse_unsigned(s) {
        Some(v) => {
            if v <= u32::MAX as u64 && !(s.len() > 0 && s[0] == 45) {
                return Ok(v as u32);
            }
        },
        None => {},
    }
    proof {
        if s@.len() > 0 && s@[0] == 45 {
            assert(digit_of(s@[0], 10) is None);
            assert(!all_digits(s@, 10));
        }
    }
    Err(ArgumentError::Invalid { ty: WordType::I32, text: text.to_owned() })
}

/// Parses an `i64` argument from a signed or unsigned decimal, or a `0x` hex
/// literal, keeping its 64-bit two's-complement bit pattern.
pub fn parse_u64(text: &str) -> (r: Result<u64, ArgumentError>)
    ensures
        hex_prefixed(text.spec_bytes()) ==> match unsigned_text(text.spec_bytes().subrange(2, text.spec_bytes().len() as int), 16) {
            Some(v) => if v <= u64::MAX {
                r == Ok::<u64, ArgumentError>(v as u64)
            } else {
                r matches Err(ArgumentError::InvalidHex { .. })
            },
            None => r matches Err(ArgumentError::InvalidHex { .. }),
        },
        !hex_prefixed(text.spec_bytes()) ==> match i64_argument(text.spec_bytes()) {
            Some(b) => r == Ok::<u64, ArgumentError>(b),
            None => r matches Err(ArgumentError::Invalid { ty: WordType::I64, .. }),
        },
{
    match parse_hex(text) {
        Some(Some(bits)) => {
            return Ok(bits);
        },
        Some(None) => {
            return Err(ArgumentError::InvalidHex { text: text.to_owned() });
        },
        None => {},
    }
    let s = text.as_bytes();
    match parse_signed(s) {
        Some((neg, m)) => {
            if !neg && m < 0x8000_0000_0000_0000 {
                return Ok(m);
            }
            if neg && m <= 0x8000_0000_0000_0000 {
                if m == 0 {
                    return Ok(0);
                }
                return Ok(u64::MAX - m + 1);
            }
        },
        None => {},
    }
    match parse_unsigned(s) {
        Some(v) => {
            if !(s.len() > 0 && s[0] == 45) {
                return Ok(v);
            }
        },
        None => {},
    }
    proof {
        if s@.len() > 0 && s@[0] == 45 {
            assert(digit_of(s@[0], 10) is None);
            assert(!all_digits(s@, 10));
        }
    }
    Err(ArgumentError::Invalid { ty: WordType::I64, text: text.to_owned() })
}

/// The value an `i32` argument text with bytes `s` parses to, or `Err(())`.
pub open spec fn u32_argument(s: Seq<u8>) -> Result<u32, ()> {
    if hex_prefixed(s) {
        match unsigned_text(s.subrange(2, s.len() as int), 16) {
            Some(v) => if v <= u32::MAX { Ok(v as u32) } else { Err(()) },
            None => Err(()),
        }
    } else {
        match i32_argument(s) {
            Some(b) => Ok(b),
            None => Err(()),
        }
    }
}

/// The value an `i64` argument text with bytes `s` parses to, or `Err(())`.
pub open spec fn u64_argument(s: Seq<u8>) -> Result<u64, ()> {
    if hex_prefixed(s) {
        match unsigned_text(s.subrange(2, s.len() as int), 16) {
            Some(v) => if v <= u64::MAX { Ok(v as u64) } else { Err(()) },
            None => Err(()),
        }
    } else {
        match i64_argument(s) {
            Some(b) => Ok(b),
            None => Err(()),
        }
    }
}

/// The word an argument text with bytes `s` denotes as a value of type `ty`,
/// or `Err(())`.
pub open spec fn word_argument(ty: WordType, s: Seq<u8>) -> Result<Word, ()> {
    match ty {
        WordType::I32 => match u32_argument(s) {
            Ok(b) => Ok(Word::I32(b)),
            Err(()) => Err(()),
        },
        WordType::I64 => match u64_argument(s) {
            Ok(b) => Ok(Word::I64(b)),
            Err(()) => Err(()),
        },
    }
}

/// Reads an argument text as a word of type `ty`.
pub fn coerce_word(ty: WordType, text: &str) -> (r: Result<Word, ArgumentError>)
    ensures
        match word_argument(ty, text.spec_bytes()) {
            Ok(w) => r == Ok::<Word, ArgumentError>(w),
            Err(()) => r is Err,
        },
{
    match ty {
        WordType::I32 => {
            let b = parse_u32(text)?;
            Ok(Word::I32(b))
        },
        WordType::I64 => {
            let b = parse_u64(text)?;
            Ok(Word::I64(b))
        },
    }
}

/// Whether every argument text of `raw` reads as a word of its parameter's
/// type.
pub open spec fn all_arguments_read(parameters: Seq<WordType>, raw: Seq<String>) -> bool {
    forall|i: int| 0 <= i < raw.len() ==> (#[trigger] word_argument(parameters[i], encode_utf8(raw[i]@))) is Ok
}

/// Coerces the raw string arguments to the word each parameter of `entry`
/// expects, rejecting an argument count or value that does not fit.
pub fn coerce_arguments(runtime: &Runtime<WasiSnapshotPreview1>, entry: &Entry, raw: &[String]) -> (r: Result<Vec<Word>, ArgumentError>)
    ensures
        ({
            let s = runtime.module_view().sections_view();
            &&& !image_supported(s) ==> (r matches Err(ArgumentError::Parameters(_)))
            &&& image_supported(s) ==> match entry_params_spec(*entry, s) {
                Err(e) => r == Err::<Vec<Word>, ArgumentError>(ArgumentError::Parameters(Error::Execute(e))),
                Ok(p) => if raw@.len() != p.len() {
                    (r matches Err(ArgumentError::Count { parameters, actual }) && parameters@ == p && actual == raw@.len())
                } else if all_arguments_read(p, raw@) {
                    (r matches Ok(v) && v@.len() == raw@.len() && forall|i: int|
                        0 <= i < raw@.len() ==> Ok::<Word, ()>(#[trigger] v@[i]) == word_argument(p[i], encode_utf8(raw@[i]@)))
                } else {
                    r is Err
                },
            }
        }),
{
    let parameters = match runtime.parameters(entry) {
        Ok(p) => p,
        Err(e) => {
            return Err(ArgumentError::Parameters(e));
        },
    };
    if raw.len() != parameters.len() {
        return Err(ArgumentError::Count { parameters, actual: raw.len() });
    }
    let mut out: Vec<Word> = Vec::new();
    let mut i: usize = 0;
    while i < raw.len()
        invariant
            i <= raw@.len(),
            raw@.len() == parameters@.len(),
            image_supported(runtime.module_view().sections_view()),
            entry_params_spec(*entry, runtime.module_view().sections_view()) == Ok::<Seq<WordType>, ExecuteError>(parameters@),
            out@.len() == i,
            forall|j: int| 0 <= j < i ==> (#[trigger] word_argument(parameters@[j], encode_utf8(raw@[j]@))) is Ok,
            forall|j: int|
                0 <= j < i ==> Ok::<Word, ()>(#[trigger] out@[j]) == word_argument(parameters@[j], encode_utf8(raw@[j]@)),
        decreases raw.len() - i,
    {
        let text = raw[i].as_str();
        let w = match coerce_word(parameters[i], text) {
            Ok(w) => w,
            Err(e) => {
                assert(!all_arguments_read(parameters@, raw@)) by {
                    assert(word_argument(parameters@[i as int], encode_utf8(raw@[i as int]@)) is Err);
                }
                return Err(e);
            },
        };
        out.push(w);
        i = i + 1;
    }
    Ok(out)
}

} // verus!
