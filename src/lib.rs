//! An interpreter for a small concatenative, stack-based language.
//!
//! Programs are sequences of terms that transform a data stack; quotations
//! are first-class programs held on that same stack.

pub mod error;
pub mod eval;
pub mod laws;
pub mod render;
pub mod semantics;
pub mod term;
pub mod words;

pub use error::{ErrorV, EvalError};
pub use eval::{eval, EvalResult};
pub use term::{Prim, PrimFn, Stack, Term, TermV, Value};
pub use words::Words;
pub use semantics::MAX_DEPTH;
