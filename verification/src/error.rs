use vstd::prelude::*;

verus! {

/// Why a line could not be dispatched. Every kind is recoverable: the line is
/// dropped and neither the world nor the registries change.
#[derive(Clone, Copy, Debug, PartialEq, Eq, Structural)]
pub enum DevToolParseError {
    /// The line is empty, or its first word names no command and no tool.
    InvalidName,
    /// A position past the last field, a name the target does not declare,
    /// or a value that no `--name` precedes once names are in use.
    InvalidFieldReference,
    /// No registered codec accepted the text for the field it was meant for.
    InvalidValue,
    /// A field was addressed by name on a shape that has no names.
    UnsupportedField,
}

impl DevToolParseError {
    /// A one-line description for the host's log.
    pub fn message(&self) -> (text: &'static str)
        ensures
            text@ == self.spec_message(),
    {
        match self {
            DevToolParseError::InvalidName => "unknown command or tool",
            DevToolParseError::InvalidFieldReference => "invalid field reference",
            DevToolParseError::InvalidValue => "no codec accepted the value",
            DevToolParseError::UnsupportedField => "named fields are not supported by this shape",
        }
    }

    pub open spec fn spec_message(&self) -> Seq<char> {
        match self {
            DevToolParseError::InvalidName => "unknown command or tool"@,
            DevToolParseError::InvalidFieldReference => "invalid field reference"@,
            DevToolParseError::InvalidValue => "no codec accepted the value"@,
            DevToolParseError::UnsupportedField => "named fields are not supported by this shape"@,
        }
    }
}

} // verus!
