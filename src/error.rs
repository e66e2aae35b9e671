use vstd::prelude::*;

verus! {

/// Why an invocation could not be compiled.
#[derive(Clone, Copy, Debug, PartialEq, Eq, Structural)]
pub enum CompileError {
    /// The conversion-function bracket is missing, a target has no type
    /// expression, or a target is empty where one is required.
    MalformedInvocation,
    /// A field name is not followed by `:`, or a value is missing.
    MalformedField,
    /// `@` is not followed by the name of an effect.
    MalformedEffect,
    /// A `>` closes a generic-argument list that was never opened.
    UnbalancedGenerics,
}

impl CompileError {
    /// A short description of the error, for diagnostics.
    pub fn message(&self) -> (r: &'static str)
        ensures
            r@ == match self {
                CompileError::MalformedInvocation => "expected `[conversion]` followed by one or more `Type { .. }` targets"@,
                CompileError::MalformedField => "expected `name: value`"@,
                CompileError::MalformedEffect => "expected the name of an effect after '@'"@,
                CompileError::UnbalancedGenerics => "unbalanced `>` in generic arguments"@,
            },
    {
        match self {
            CompileError::MalformedInvocation => "expected `[conversion]` followed by one or more `Type { .. }` targets",
            CompileError::MalformedField => "expected `name: value`",
            CompileError::MalformedEffect => "expected the name of an effect after '@'",
            CompileError::UnbalancedGenerics => "unbalanced `>` in generic arguments",
        }
    }
}

} // verus!
