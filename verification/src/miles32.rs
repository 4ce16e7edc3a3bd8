//! Loading the Miles Sound System library (`miles32.dll`) that the game's audio
//! proxy forwards to: the errors of that load and how they read.
use vstd::prelude::*;
use vstd::utf8::{decode_utf8, valid_utf8};
use crate::text::utf8_to_string;

verus! {

/// The file name of the Miles Sound System library, next to the game executable.
pub const MILES32_DLL_NAME: &'static str = "miles32.dll";

/// Why the Miles Sound System library could not be loaded.
#[derive(Debug)]
pub enum Miles32LoadError {
    /// The library file could not be loaded.
    ModuleNotFound,
    /// The library lacks the procedure of this name.
    MissingProcedure(String),
}

/// The text of a `Miles32LoadError` with the given contents.
pub open spec fn load_error_text(e: Miles32LoadError) -> Seq<char> {
    match e {
        Miles32LoadError::ModuleNotFound => "Miles32 DLL not found"@,
        Miles32LoadError::MissingProcedure(name) => "Missing Miles32 procedure '"@ + name@ + "'"@,
    }
}

impl Miles32LoadError {
    /// The text shown to the user for this error.
    pub fn message(&self) -> (text: String)
        ensures
            text@ == load_error_text(*self),
    {
        match self {
            Miles32LoadError::ModuleNotFound => String::from_str("Miles32 DLL not found"),
            Miles32LoadError::MissingProcedure(name) => {
                let mut text = String::from_str("Missing Miles32 procedure '");
                text.append(name.as_str());
                text.append("'");
                text
            },
        }
    }
}

/// The text that `bytes` encode in UTF-8, or the error when they are not UTF-8.
pub fn convert_bytes_to_string(bytes: &[u8]) -> (text: Result<String, std::str::Utf8Error>)
    ensures
        text is Ok <==> valid_utf8(bytes@),
        text matches Ok(t) ==> t@ == decode_utf8(bytes@),
{
    utf8_to_string(bytes)
}

/// The error for a procedure that the library lacks, given the procedure's name as
/// the bytes of its C string; a name that is not UTF-8 reads `"<Error>"`.
pub fn missing_procedure(name: &[u8]) -> (error: Miles32LoadError)
    ensures
        error matches Miles32LoadError::MissingProcedure(text) && text@ == if valid_utf8(name@) {
            decode_utf8(name@)
        } else {
            "<Error>"@
        },
{
    match convert_bytes_to_string(name) {
        Ok(text) => Miles32LoadError::MissingProcedure(text),
        Err(_) => Miles32LoadError::MissingProcedure(String::from_str("<Error>")),
    }
}

} // verus!
