use vstd::prelude::*;

verus! {

/// An error produced while decoding or validating a WASM module.
#[derive(Debug, Clone, PartialEq, Eq)]
pub enum DecodeError {
    /// The byte stream is not a well-formed WASM binary.
    InvalidBinary {
        /// The byte offset at which the malformed input was detected.
        offset: usize,
        /// The underlying parser error message.
        message: String,
    },
    /// The module is well-formed but fails validation under the allowed
    /// WASM feature set.
    ValidationFailed {
        /// The byte offset at which validation failed.
        offset: usize,
        /// The underlying validation error message.
        message: String,
    },
    /// An operator outside the supported subset was reached.
    UnsupportedOperator {
        /// Byte offset of the rejected operator.
        offset: usize,
        /// Which operator was rejected.
        operator: String,
    },
    /// An import references a WASM module other than `wasi_snapshot_preview1`.
    ForbiddenImportModule {
        /// The rejected import module namespace.
        module: String,
    },
    /// An import references a WASI function outside the supported set.
    ForbiddenWasiImport {
        /// The rejected import module namespace.
        module: String,
        /// The rejected WASI function name.
        name: String,
    },
    /// A function or index space is larger than can be indexed.
    FunctionTooLarge {
        /// The offending function's index.
        func_index: u32,
    },
    /// An active data segment does not fit in the initial linear memory.
    MemoryOutOfBounds,
}

/// `wasmparser`'s error type, carried as an opaque value.
#[verifier::external_type_specification]
#[verifier::external_body]
pub struct ExParserError(wasmparser::BinaryReaderError);

/// The byte offset `wasmparser::BinaryReaderError::offset` reports for `e`. The value is a
/// field of the opaque error; nothing is claimed of it.
#[verifier::external_body]
pub(crate) fn parser_error_offset(e: &wasmparser::BinaryReaderError) -> usize {
    e.offset() as usize
}

/// The text `wasmparser::BinaryReaderError`'s `Display` impl writes for `e`: its message
/// followed by the offset. The text comes from the opaque error; nothing is
/// claimed of it.
#[verifier::external_body]
pub(crate) fn parser_error_text(e: &wasmparser::BinaryReaderError) -> String {
    e.to_string()
}

impl DecodeError {
    /// Reports that the module is well-formed but fails validation under the
    /// allowed WASM feature set, at the validator's offset and with its text.
    pub fn validation_failed(e: wasmparser::BinaryReaderError) -> (r: Self)
        ensures
            r is ValidationFailed,
    {
        let offset = parser_error_offset(&e);
        let message = parser_error_text(&e);
        DecodeError::ValidationFailed { offset, message }
    }

    /// Builds an internal-inconsistency error: a validated module never
    /// reaches it.
    pub fn internal(message: &str) -> (r: Self)
        ensures
            r matches DecodeError::InvalidBinary { offset, message: m } && offset == 0
                && m@ == message@,
    {
        DecodeError::InvalidBinary { offset: 0, message: message.to_owned() }
    }
}

} // verus!
