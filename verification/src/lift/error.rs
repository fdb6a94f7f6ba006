use vstd::prelude::*;
use crate::decoder::DecodeError;
use crate::decoder::error::{parser_error_offset, parser_error_text};

verus! {

/// An error produced while lifting a validated module to the static register form.
#[derive(Debug, Clone, PartialEq, Eq)]
pub enum LiftError {
    /// The module's description could not be read as a validated module.
    Decode(DecodeError),
    /// An operator outside the allowed integer subset of WASM was encountered.
    UnsupportedOperator {
        /// Byte offset of the rejected operator.
        offset: usize,
    },
    /// A function's register-file width (locals + globals + maximum operand-stack
    /// height) exceeds the supported maximum, or the operand stack grows past the
    /// representable range.
    RegisterFileOverflow {
        /// The offending function's index in the module function index space.
        func_index: u32,
        /// The computed register-file width that breached the limit.
        width: u64,
    },
    /// A function body has more operators than can be indexed as program points.
    FunctionTooLarge {
        /// The offending function's index in the module function index space.
        func_index: u32,
    },
}

impl LiftError {
    /// Reports that the module's bytes could not be parsed, at the parser's
    /// offset and with its text. Indicates an inconsistency between the
    /// decoder's validation and a later re-parse.
    pub fn malformed(e: wasmparser::BinaryReaderError) -> (r: Self)
        ensures
            r matches LiftError::Decode(d) && d is InvalidBinary,
    {
        let offset = parser_error_offset(&e);
        let message = parser_error_text(&e);
        LiftError::Decode(DecodeError::InvalidBinary { offset, message })
    }

    /// Builds an internal-inconsistency error. A validated module never
    /// triggers these paths; they keep the lift total instead of panicking.
    pub fn internal(message: &str) -> (r: Self)
        ensures
            r matches LiftError::Decode(DecodeError::InvalidBinary { offset, message: m })
                && offset == 0 && m@ == message@,
    {
        LiftError::Decode(DecodeError::InvalidBinary { offset: 0, message: message.to_owned() })
    }
}

} // verus!
