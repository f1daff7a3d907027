//! Why no conversion could be generated for a declaration.
use vstd::prelude::*;

verus! {

/// The failures of generation. Each one aborts generation for the whole
/// declaration.
#[derive(Debug, PartialEq, Eq)]
pub enum ConvertError {
    /// The declaration is a union.
    UnsupportedShapeKind,
    /// No `from` or `into` attribute is attached to the declaration.
    MissingDirective,
    /// The attribute at this position among the declaration's attributes is
    /// `from` or `into`, but its argument is not one type path.
    MalformedDirectiveArgument { attribute: usize, message: String },
}

} // verus!
