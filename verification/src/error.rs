use vstd::prelude::*;

verus! {

/// Why evaluation stopped, or what it reported on the way.
#[derive(Debug, PartialEq, Eq, Structural, Clone, Copy)]
pub enum EvalError {
    /// An operator met operands of the wrong kinds, or a condition was no
    /// truth value.
    TypeError,
    /// A name that no environment of the chain defines.
    UndefinedVariable,
    /// A call with a number of arguments other than the number of
    /// parameters. It is reported and the call goes on.
    Arity,
    /// An operation that is not defined on its operands.
    UnsupportedOperation,
    /// The evaluation ran deeper or longer than its budget allows.
    ResourceExhausted,
}

} // verus!
