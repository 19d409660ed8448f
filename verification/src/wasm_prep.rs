//! The bytecode preprocessor: structural validation of a module.
use vstd::prelude::*;
use parity_wasm::elements::Module;

verus! {

/// `parity_wasm::elements::Module`: a decoded module. It is carried from
/// the decoder to the interpreter and never looked into.
#[verifier::external_type_specification]
#[verifier::external_body]
pub struct ExModule(parity_wasm::elements::Module);

/// `parity_wasm::SerializationError`: why a buffer is no module. Only its
/// text is used.
#[verifier::external_type_specification]
#[verifier::external_body]
pub struct ExSerializationError(parity_wasm::SerializationError);

/// What `parity_wasm::deserialize_buffer` makes of a buffer: the module it
/// decodes to, or the decoder's error.
pub uninterp spec fn decoded(bytes: Seq<u8>) -> Result<Module, parity_wasm::SerializationError>;

/// The text that a decoder error displays as.
pub uninterp spec fn error_text(error: parity_wasm::SerializationError) -> Seq<char>;

/// Whether `bytes` begins with the magic number and the version that every
/// module begins with.
pub open spec fn has_module_header(bytes: Seq<u8>) -> bool {
    bytes.len() >= 8 && bytes.subrange(0, 8) == seq![0u8, 0x61u8, 0x73u8, 0x6du8, 1u8, 0u8, 0u8, 0u8]
}

/// The outcome of preprocessing `bytes`: the validated module, or the
/// decoder's error as text.
pub open spec fn preprocessed(bytes: Seq<u8>) -> Result<Module, Seq<char>> {
    match decoded(bytes) {
        Ok(module) => Ok(module),
        Err(error) => Err(error_text(error)),
    }
}

/// Calls `parity_wasm::deserialize_buffer` for a `Module`. The decoder is a
/// function of the buffer alone, so its result is given the name
/// [`decoded`]. It reads the four bytes of the magic number and the four of
/// the version first and fails unless they are the expected ones; that much
/// is claimed of it here, and nothing else.
#[verifier::external_body]
fn deserialize_module(bytes: &[u8]) -> (result: Result<Module, parity_wasm::SerializationError>)
    ensures
        result == decoded(bytes@),
        !has_module_header(bytes@) ==> result is Err,
{
    parity_wasm::deserialize_buffer::<Module>(bytes)
}

/// Calls `to_string` on a decoder error, which goes through its `Display`
/// impl. The text depends on the error alone and is named [`error_text`].
#[verifier::external_body]
fn describe(error: &parity_wasm::SerializationError) -> (text: String)
    ensures
        text@ == error_text(*error),
{
    error.to_string()
}

/// Validates raw bytecode and returns the module ready for execution, or
/// the reason why it is no module.
pub fn process(module_bytes: &[u8]) -> (result: Result<Module, String>)
    ensures
        match preprocessed(module_bytes@) {
            Ok(module) => result == Ok::<Module, String>(module),
            Err(text) => result matches Err(message) && message@ == text,
        },
        !has_module_header(module_bytes@) ==> result is Err,
{
    match deserialize_module(module_bytes) {
        Ok(module) => Ok(module),
        Err(error) => Err(describe(&error)),
    }
}

} // verus!
