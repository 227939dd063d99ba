//! The errors of the transformation.

use vstd::prelude::*;

verus! {

/// Why a declaration cannot be turned into a kernel.
#[derive(Clone, Copy, Debug, PartialEq, Eq, Structural)]
pub enum TransformError {
    /// The tokens are not a function declaration with a readable parameter
    /// list.
    MalformedSignature,
    /// A return type is declared but the body holds no `return <expr>;`.
    MissingReturnStatement,
    /// A return type is declared and a parameter is already called `output`.
    BindingNameCollision,
    /// The declaration already carries the tag of a device entry point.
    AlreadyRebound,
}

/// The mathematical value of an outcome: the value of what was made, or the
/// error as it is.
pub open spec fn value_of<T: DeepView>(outcome: Result<T, TransformError>) -> Result<
    T::V,
    TransformError,
> {
    match outcome {
        Ok(made) => Ok(made.deep_view()),
        Err(error) => Err(error),
    }
}

} // verus!
