use vstd::prelude::*;

use crate::error::ErrorV;
use crate::term::{PrimFn, TermV, Value};

verus! {

/// The outcome of evaluation, in the model: a stack or an error.
pub type Outcome = Result<Seq<TermV>, ErrorV>;

/// How deeply calls, applications and conditionals may nest within one
/// evaluation before it fails with a depth error.
pub const MAX_DEPTH: usize = 1000;

/// Removes the top term.
pub open spec fn pop_spec(s: Seq<TermV>) -> Result<(Seq<TermV>, TermV), ErrorV> {
    if s.len() == 0 {
        Err(ErrorV::StackUnderflow)
    } else {
        Ok((s.drop_last(), s.last()))
    }
}

/// Removes the top term, which must push a boolean.
pub open spec fn pop_bool_spec(s: Seq<TermV>) -> Result<(Seq<TermV>, bool), ErrorV> {
    match pop_spec(s) {
        Err(e) => Err(e),
        Ok((rest, TermV::Push(Value::Bool(b)))) => Ok((rest, b)),
        Ok(_) => Err(ErrorV::TypeMismatch),
    }
}

/// Removes the top term, which must push a number.
pub open spec fn pop_number_spec(s: Seq<TermV>) -> Result<(Seq<TermV>, i32), ErrorV> {
    match pop_spec(s) {
        Err(e) => Err(e),
        Ok((rest, TermV::Push(Value::Number(n)))) => Ok((rest, n)),
        Ok(_) => Err(ErrorV::TypeMismatch),
    }
}

/// Removes the top term, which must be a quotation.
pub open spec fn pop_quote_spec(s: Seq<TermV>) -> Result<(Seq<TermV>, Seq<TermV>), ErrorV> {
    match pop_spec(s) {
        Err(e) => Err(e),
        Ok((rest, TermV::Quote(q))) => Ok((rest, q)),
        Ok(_) => Err(ErrorV::TypeMismatch),
    }
}

/// The result of an arithmetic primitive on `x` (below) and `y` (on top);
/// `None` where it overflows or divides by zero. Division truncates toward
/// zero and the remainder takes the sign of `x`.
pub open spec fn arith_spec(p: PrimFn, x: i32, y: i32) -> Option<i32> {
    match p {
        PrimFn::Add => x.checked_add(y),
        PrimFn::Sub => x.checked_sub(y),
        PrimFn::Mul => x.checked_mul(y),
        PrimFn::Div => x.checked_div(y),
        _ => x.checked_rem(y),
    }
}

/// Whether `p` is one of the arithmetic primitives.
pub open spec fn is_arith(p: PrimFn) -> bool {
    p is Add || p is Sub || p is Mul || p is Div || p is Rem
}

/// Applies the arithmetic primitive `p` to the top two numbers of `s`.
pub open spec fn arith_step(s: Seq<TermV>, p: PrimFn) -> Outcome {
    match pop_number_spec(s) {
        Err(e) => Err(e),
        Ok((s1, y)) => match pop_number_spec(s1) {
            Err(e) => Err(e),
            Ok((s2, x)) => match arith_spec(p, x, y) {
                Some(z) => Ok(s2.push(TermV::Push(Value::Number(z)))),
                None => Err(ErrorV::Arithmetic),
            },
        },
    }
}

/// Applies a boolean connective to the top two booleans of `s`.
pub open spec fn logic_step(s: Seq<TermV>, conj: bool) -> Outcome {
    match pop_bool_spec(s) {
        Err(e) => Err(e),
        Ok((s1, y)) => match pop_bool_spec(s1) {
            Err(e) => Err(e),
            Ok((s2, x)) => Ok(
                s2.push(TermV::Push(Value::Bool(if conj { x && y } else { x || y }))),
            ),
        },
    }
}

/// The primitive `p` applied to the stack `s` with dictionary `w`, where
/// nested evaluation may go `depth` levels deep.
pub open spec fn prim_spec(s: Seq<TermV>, w: Map<Seq<char>, TermV>, p: PrimFn, depth: nat) -> Outcome
    decreases depth, 0int, 0int,
{
    match p {
        PrimFn::Words => Ok(s),
        PrimFn::Dup => match pop_spec(s) {
            Err(e) => Err(e),
            Ok((_, b)) => Ok(s.push(b)),
        },
        PrimFn::Pop => match pop_spec(s) {
            Err(e) => Err(e),
            Ok((rest, _)) => Ok(rest),
        },
        PrimFn::Swap => match pop_spec(s) {
            Err(e) => Err(e),
            Ok((s1, c)) => match pop_spec(s1) {
                Err(e) => Err(e),
                Ok((s2, b)) => Ok(s2.push(c).push(b)),
            },
        },
        PrimFn::Quote => match pop_spec(s) {
            Err(e) => Err(e),
            Ok((rest, b)) => Ok(rest.push(TermV::Quote(seq![b]))),
        },
        PrimFn::Compose => match pop_quote_spec(s) {
            Err(e) => Err(e),
            Ok((s1, q2)) => match pop_quote_spec(s1) {
                Err(e) => Err(e),
                Ok((s2, q1)) => Ok(s2.push(TermV::Quote(q1 + q2))),
            },
        },
        PrimFn::Apply => match pop_quote_spec(s) {
            Err(e) => Err(e),
            Ok((rest, q)) => if depth == 0 {
                Err(ErrorV::DepthExceeded)
            } else {
                eval_seq_spec(rest, w, q, (depth - 1) as nat)
            },
        },
        PrimFn::If => match pop_quote_spec(s) {
            Err(e) => Err(e),
            Ok((s1, otherwise)) => match pop_quote_spec(s1) {
                Err(e) => Err(e),
                Ok((s2, then)) => match pop_bool_spec(s2) {
                    Err(e) => Err(e),
                    Ok((rest, c)) => if depth == 0 {
                        Err(ErrorV::DepthExceeded)
                    } else {
                        eval_seq_spec(rest, w, if c { then } else { otherwise }, (depth - 1) as nat)
                    },
                },
            },
        },
        PrimFn::Eq => match pop_number_spec(s) {
            Err(e) => Err(e),
            Ok((s1, y)) => match pop_number_spec(s1) {
                Err(e) => Err(e),
                Ok((s2, x)) => Ok(s2.push(TermV::Push(Value::Bool(x == y)))),
            },
        },
        PrimFn::And => logic_step(s, true),
        PrimFn::Or => logic_step(s, false),
        PrimFn::Not => match pop_bool_spec(s) {
            Err(e) => Err(e),
            Ok((rest, b)) => Ok(rest.push(TermV::Push(Value::Bool(!b)))),
        },
        _ => arith_step(s, p),
    }
}

/// One term evaluated against the stack `s`.
pub open spec fn eval_term_spec(s: Seq<TermV>, w: Map<Seq<char>, TermV>, t: TermV, depth: nat) -> Outcome
    decreases depth, 1int, 0int,
{
    match t {
        TermV::Push(_) => Ok(s.push(t)),
        TermV::Quote(_) => Ok(s.push(t)),
        TermV::Call(name) => if !w.contains_key(name) {
            Err(ErrorV::NotFound(name))
        } else if depth == 0 {
            Err(ErrorV::DepthExceeded)
        } else {
            eval_term_spec(s, w, w[name], (depth - 1) as nat)
        },
        TermV::Prim(p) => prim_spec(s, w, p, depth),
    }
}

/// The terms of `prog` evaluated in order against the stack `s`, stopping at
/// the first error.
pub open spec fn eval_seq_spec(s: Seq<TermV>, w: Map<Seq<char>, TermV>, prog: Seq<TermV>, depth: nat) -> Outcome
    decreases depth, 2int, prog.len(),
{
    if prog.len() == 0 {
        Ok(s)
    } else {
        match eval_seq_spec(s, w, prog.drop_last(), depth) {
            Err(e) => Err(e),
            Ok(s1) => eval_term_spec(s1, w, prog.last(), depth),
        }
    }
}

/// A program evaluated against an empty stack, with the evaluator's nesting
/// bound.
pub open spec fn eval_program(prog: Seq<TermV>, w: Map<Seq<char>, TermV>) -> Outcome {
    eval_seq_spec(Seq::empty(), w, prog, MAX_DEPTH as nat)
}

} // verus!
