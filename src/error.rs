use vstd::prelude::*;
use vstd::string::StringExecFns;

verus! {

/// Why an evaluation stopped.
#[derive(Clone, Debug, PartialEq)]
pub enum EvalError {
    /// An operation needed more values than the stack held.
    StackUnderflow,
    /// A call named a word that the dictionary does not define.
    NotFound(String),
    /// A popped term was not of the kind the operation required.
    TypeMismatch,
    /// Calls, applications and conditionals were nested deeper than the
    /// evaluator allows.
    DepthExceeded,
    /// Integer overflow, or division or remainder by zero.
    Arithmetic,
}

/// The mathematical model of an [`EvalError`].
pub ghost enum ErrorV {
    StackUnderflow,
    NotFound(Seq<char>),
    TypeMismatch,
    DepthExceeded,
    Arithmetic,
}

impl View for EvalError {
    type V = ErrorV;

    open spec fn view(&self) -> ErrorV {
        match self {
            EvalError::StackUnderflow => ErrorV::StackUnderflow,
            EvalError::NotFound(name) => ErrorV::NotFound(name@),
            EvalError::TypeMismatch => ErrorV::TypeMismatch,
            EvalError::DepthExceeded => ErrorV::DepthExceeded,
            EvalError::Arithmetic => ErrorV::Arithmetic,
        }
    }
}

/// The message that describes an error.
pub open spec fn error_text(e: ErrorV) -> Seq<char> {
    match e {
        ErrorV::StackUnderflow => "stack underflow"@,
        ErrorV::NotFound(name) => "could not find `"@ + name + "`"@,
        ErrorV::TypeMismatch => "type mismatch"@,
        ErrorV::DepthExceeded => "evaluation nested too deeply"@,
        ErrorV::Arithmetic => "arithmetic overflow or division by zero"@,
    }
}

impl EvalError {
    /// A message that describes this error.
    pub fn to_string(&self) -> (r: String)
        ensures
            r@ == error_text(self@),
    {
        match self {
            EvalError::StackUnderflow => "stack underflow".to_owned(),
            EvalError::NotFound(name) => "could not find `".to_owned().concat(name.as_str()).concat("`"),
            EvalError::TypeMismatch => "type mismatch".to_owned(),
            EvalError::DepthExceeded => "evaluation nested too deeply".to_owned(),
            EvalError::Arithmetic => "arithmetic overflow or division by zero".to_owned(),
        }
    }
}

} // verus!
