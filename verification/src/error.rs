//! The ways in which a rewrite can fail.

use vstd::prelude::*;

verus! {

/// Why a declaration was not rewritten. Every failure is final: nothing is
/// emitted once one of these is returned.
#[derive(Clone, Copy, Debug, PartialEq, Eq, Structural)]
pub enum RecordError {
    /// The arguments of the invoking attribute are not a comma-separated list
    /// of meta items.
    MalformedArguments,
    /// The input is not a struct declaration.
    MalformedDeclaration,
    /// The declaration has no field list at all.
    UnitStruct,
    /// A directive attribute on a field does not hold exactly one meta item
    /// in parentheses.
    MalformedDirective,
    /// A directive is neither a bare flag nor a group of directives.
    UnsupportedArgument,
}

impl RecordError {
    /// The fixed text that describes this failure.
    pub open spec fn message_spec(self) -> Seq<char> {
        match self {
            RecordError::MalformedArguments => "Malformed attribute arguments"@,
            RecordError::MalformedDeclaration => "Expected a struct declaration"@,
            RecordError::UnitStruct => "Unit structs are not supported by `recorder::record`"@,
            RecordError::MalformedDirective => "Malformed directive argument"@,
            RecordError::UnsupportedArgument => "Unsupported argument"@,
        }
    }

    /// Renders the failure for the caller that has to report it.
    pub fn message(&self) -> (text: String)
        ensures
            text@ == self.message_spec(),
    {
        match self {
            RecordError::MalformedArguments => String::from_str("Malformed attribute arguments"),
            RecordError::MalformedDeclaration => String::from_str("Expected a struct declaration"),
            RecordError::UnitStruct => String::from_str(
                "Unit structs are not supported by `recorder::record`",
            ),
            RecordError::MalformedDirective => String::from_str("Malformed directive argument"),
            RecordError::UnsupportedArgument => String::from_str("Unsupported argument"),
        }
    }
}

} // verus!
