//! The crate's error taxonomy.  Every failure of the generation pipeline is
//! one of these; file-system errors stay with the binary around the library.

use vstd::prelude::*;
use crate::codegen::json::Key;
use crate::text::spec_dec;

verus! {

/// Why a generation run failed.
#[derive(Debug)]
pub enum ExtractError {
    /// The extraction-spec document is malformed.
    SpecParse,
    /// The concrete input is not a JSON document.
    JsonParse,
    /// A selector of the path does not resolve against the concrete input;
    /// carries the offending selector.
    PathNotFound(Key),
    /// The resolved terminal value does not have the declared value kind.
    TypeMismatch,
    /// The start line or header block of an HTTP message does not parse.
    MalformedHttp,
    /// An existing registry document is not valid.
    RegistryCorrupt,
}

impl ExtractError {
    /// The descriptive message for this error.
    pub open spec fn spec_message(&self) -> Seq<char> {
        match self {
            ExtractError::SpecParse => "provided lockfile is not a valid extraction spec"@,
            ExtractError::JsonParse => "provided input is not valid JSON"@,
            ExtractError::PathNotFound(key) => match key {
                Key::String(name) => "provided key not present in input JSON: "@ + name@,
                Key::Num(index) => "provided index not present in input JSON: "@ + spec_dec(
                    *index as int,
                ),
            },
            ExtractError::TypeMismatch => "value type doesn't match"@,
            ExtractError::MalformedHttp => "input is not a well-formed HTTP message"@,
            ExtractError::RegistryCorrupt => "existing registry document is not valid"@,
        }
    }

    /// Renders the descriptive message.
    pub fn message(&self) -> (r: String)
        ensures
            r@ == self.spec_message(),
    {
        match self {
            ExtractError::SpecParse => String::from_str(
                "provided lockfile is not a valid extraction spec",
            ),
            ExtractError::JsonParse => String::from_str("provided input is not valid JSON"),
            ExtractError::PathNotFound(key) => {
                match key {
                    Key::String(name) => {
                        let mut s = String::from_str("provided key not present in input JSON: ");
                        s.append(name.as_str());
                        s
                    },
                    Key::Num(index) => {
                        let mut s = String::from_str("provided index not present in input JSON: ");
                        crate::text::append_dec(&mut s, *index);
                        s
                    },
                }
            },
            ExtractError::TypeMismatch => String::from_str("value type doesn't match"),
            ExtractError::MalformedHttp => String::from_str(
                "input is not a well-formed HTTP message",
            ),
            ExtractError::RegistryCorrupt => String::from_str(
                "existing registry document is not valid",
            ),
        }
    }
}

} // verus!
