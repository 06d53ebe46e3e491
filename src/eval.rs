use vstd::prelude::*;

use crate::error::{ErrorV, EvalError};
use crate::semantics::{
    eval_program, eval_seq_spec, eval_term_spec, pop_bool_spec, pop_number_spec, pop_quote_spec,
    pop_spec, prim_spec, Outcome, MAX_DEPTH,
};
use crate::term::{
    copy_term, lemma_terms_view_drop_last, lemma_terms_view_index, lemma_terms_view_push,
    terms_view, PrimFn, Stack, Term, TermV, Value,
};
use crate::words::Words;

verus! {

/// The result of evaluating a program: the final stack or the first error.
pub type EvalResult = Result<Stack, EvalError>;

/// The model of an evaluation result.
pub open spec fn outcome(r: EvalResult) -> Outcome {
    match r {
        Ok(s) => Ok(s@),
        Err(e) => Err(e@),
    }
}

/// A failure of evaluating a prefix of a program is the failure of the
/// whole program.
proof fn lemma_prefix_error(s: Seq<TermV>, w: Map<Seq<char>, TermV>, prog: Seq<TermV>, i: int, d: nat)
    requires
        0 <= i <= prog.len(),
        eval_seq_spec(s, w, prog.take(i), d) is Err,
    ensures
        eval_seq_spec(s, w, prog, d) == eval_seq_spec(s, w, prog.take(i), d),
    decreases prog.len(),
{
    if i < prog.len() {
        assert(prog.drop_last().take(i) == prog.take(i));
        lemma_prefix_error(s, w, prog.drop_last(), i, d);
    } else {
        assert(prog.take(i) == prog);
    }
}

impl Stack {
    /// A stack holding `terms`, the last of them on top.
    pub fn new(terms: Vec<Term>) -> (r: Stack)
        ensures
            r.terms@ == terms@,
    {
        Stack { terms }
    }

    /// A stack with no terms.
    pub fn empty() -> (r: Stack)
        ensures
            r@ == Seq::<TermV>::empty(),
    {
        Stack { terms: Vec::new() }
    }

    /// The number of terms on the stack.
    pub fn len(&self) -> (r: usize)
        ensures
            r == self@.len(),
    {
        proof {
            lemma_terms_view_index(self.terms@);
        }
        self.terms.len()
    }

    fn push(self, term: Term) -> (r: Stack)
        ensures
            r@ == self@.push(term@),
    {
        let mut s = self;
        proof {
            lemma_terms_view_push(s.terms@, term);
        }
        s.terms.push(term);
        s
    }

    fn pop(self) -> (r: Result<(Stack, Term), EvalError>)
        ensures
            r matches Ok((s, t)) ==> pop_spec(self@) == Ok::<_, ErrorV>((s@, t@)),
            r matches Err(e) ==> pop_spec(self@) == Err::<(Seq<TermV>, TermV), _>(e@),
    {
        let mut s = self;
        proof {
            lemma_terms_view_index(s.terms@);
        }
        if s.terms.len() == 0 {
            return Err(EvalError::StackUnderflow);
        }
        proof {
            lemma_terms_view_drop_last(s.terms@);
        }
        match s.terms.pop() {
            Some(term) => Ok((s, term)),
            None => Err(EvalError::StackUnderflow),
        }
    }

    fn pop_bool(self) -> (r: Result<(Stack, bool), EvalError>)
        ensures
            r matches Ok((s, b)) ==> pop_bool_spec(self@) == Ok::<_, ErrorV>((s@, b)),
            r matches Err(e) ==> pop_bool_spec(self@) == Err::<(Seq<TermV>, bool), _>(e@),
    {
        let (stack, term) = match self.pop() {
            Ok(p) => p,
            Err(e) => return Err(e),
        };
        match term {
            Term::Push(Value::Bool(x)) => Ok((stack, x)),
            _ => Err(EvalError::TypeMismatch),
        }
    }

    fn pop_number(self) -> (r: Result<(Stack, i32), EvalError>)
        ensures
            r matches Ok((s, n)) ==> pop_number_spec(self@) == Ok::<_, ErrorV>((s@, n)),
            r matches Err(e) ==> pop_number_spec(self@) == Err::<(Seq<TermV>, i32), _>(e@),
    {
        let (stack, term) = match self.pop() {
            Ok(p) => p,
            Err(e) => return Err(e),
        };
        match term {
            Term::Push(Value::Number(x)) => Ok((stack, x)),
            _ => Err(EvalError::TypeMismatch),
        }
    }

    fn pop_quote(self) -> (r: Result<(Stack, Stack), EvalError>)
        ensures
            r matches Ok((s, q)) ==> pop_quote_spec(self@) == Ok::<_, ErrorV>((s@, q@)),
            r matches Err(e) ==> pop_quote_spec(self@) == Err::<(Seq<TermV>, Seq<TermV>), _>(e@),
    {
        let (stack, term) = match self.pop() {
            Ok(p) => p,
            Err(e) => return Err(e),
        };
        match term {
            Term::Quote(quoted) => Ok((stack, quoted)),
            _ => Err(EvalError::TypeMismatch),
        }
    }

    fn peek(&self) -> (r: Result<&Term, EvalError>)
        ensures
            r matches Ok(t) ==> self@.len() > 0 && t@ == self@.last(),
            r matches Err(e) ==> self@.len() == 0 && e@ == ErrorV::StackUnderflow,
    {
        proof {
            lemma_terms_view_index(self.terms@);
        }
        match self.terms.last() {
            Some(term) => Ok(term),
            None => Err(EvalError::StackUnderflow),
        }
    }

    /// Applies the primitive `p` to this stack.
    fn run_prim(self, words: &Words, p: PrimFn, depth: usize) -> (r: EvalResult)
        ensures
            outcome(r) == prim_spec(self@, words@, p, depth as nat),
        decreases depth, 0int, 0int,
    {
        match p {
            PrimFn::Words => Ok(self),
            PrimFn::Dup => {
                let top = match self.peek() {
                    Ok(t) => t.clone(),
                    Err(e) => return Err(e),
                };
                Ok(self.push(top))
            },
            PrimFn::Pop => match self.pop() {
                Ok((rest, _)) => Ok(rest),
                Err(e) => Err(e),
            },
            PrimFn::Swap => {
                let (s1, c) = match self.pop() {
                    Ok(p) => p,
                    Err(e) => return Err(e),
                };
                let (s2, b) = match s1.pop() {
                    Ok(p) => p,
                    Err(e) => return Err(e),
                };
                Ok(s2.push(c).push(b))
            },
            PrimFn::Quote => {
                let (rest, b) = match self.pop() {
                    Ok(p) => p,
                    Err(e) => return Err(e),
                };
                let ghost bv = b@;
                let q = Stack::empty().push(b);
                assert(q@ == seq![bv]);
                Ok(rest.push(Term::Quote(q)))
            },
            PrimFn::Compose => {
                let (s1, q2) = match self.pop_quote() {
                    Ok(p) => p,
                    Err(e) => return Err(e),
                };
                let (s2, q1) = match s1.pop_quote() {
                    Ok(p) => p,
                    Err(e) => return Err(e),
                };
                let q = q1.append(q2);
                Ok(s2.push(Term::Quote(q)))
            },
            PrimFn::Apply => {
                let (rest, q) = match self.pop_quote() {
                    Ok(p) => p,
                    Err(e) => return Err(e),
                };
                if depth == 0 {
                    return Err(EvalError::DepthExceeded);
                }
                rest.eval_stack(words, &q, depth - 1)
            },
            PrimFn::If => {
                let (s1, otherwise) = match self.pop_quote() {
                    Ok(p) => p,
                    Err(e) => return Err(e),
                };
                let (s2, then) = match s1.pop_quote() {
                    Ok(p) => p,
                    Err(e) => return Err(e),
                };
                let (rest, c) = match s2.pop_bool() {
                    Ok(p) => p,
                    Err(e) => return Err(e),
                };
                if depth == 0 {
                    return Err(EvalError::DepthExceeded);
                }
                if c {
                    rest.eval_stack(words, &then, depth - 1)
                } else {
                    rest.eval_stack(words, &otherwise, depth - 1)
                }
            },
            PrimFn::Eq => {
                let (s1, y) = match self.pop_number() {
                    Ok(p) => p,
                    Err(e) => return Err(e),
                };
                let (s2, x) = match s1.pop_number() {
                    Ok(p) => p,
                    Err(e) => return Err(e),
                };
                Ok(s2.push(Term::Push(Value::Bool(x == y))))
            },
            PrimFn::And | PrimFn::Or => {
                let (s1, y) = match self.pop_bool() {
                    Ok(p) => p,
                    Err(e) => return Err(e),
                };
                let (s2, x) = match s1.pop_bool() {
                    Ok(p) => p,
                    Err(e) => return Err(e),
                };
                let z = match p {
                    PrimFn::And => x && y,
                    _ => x || y,
                };
                Ok(s2.push(Term::Push(Value::Bool(z))))
            },
            PrimFn::Not => {
                let (rest, b) = match self.pop_bool() {
                    Ok(p) => p,
                    Err(e) => return Err(e),
                };
                Ok(rest.push(Term::Push(Value::Bool(!b))))
            },
            PrimFn::Add | PrimFn::Sub | PrimFn::Mul | PrimFn::Div | PrimFn::Rem => {
                let (s1, y) = match self.pop_number() {
                    Ok(p) => p,
                    Err(e) => return Err(e),
                };
                let (s2, x) = match s1.pop_number() {
                    Ok(p) => p,
                    Err(e) => return Err(e),
                };
                let z = match p {
                    PrimFn::Add => x.checked_add(y),
                    PrimFn::Sub => x.checked_sub(y),
                    PrimFn::Mul => x.checked_mul(y),
                    PrimFn::Div => x.checked_div(y),
                    _ => x.checked_rem(y),
                };
                match z {
                    Some(z) => Ok(s2.push(Term::Push(Value::Number(z)))),
                    None => Err(EvalError::Arithmetic),
                }
            },
        }
    }

    /// Evaluates one term against this stack.
    fn eval_term(self, words: &Words, term: Term, depth: usize) -> (r: EvalResult)
        ensures
            outcome(r) == eval_term_spec(self@, words@, term@, depth as nat),
        decreases depth, 1int, 0int,
    {
        match term {
            Term::Push(value) => Ok(self.push(Term::Push(value))),
            Term::Quote(stack) => Ok(self.push(Term::Quote(stack))),
            Term::Call(name) => {
                match words.lookup(&name) {
                    Some(t) => {
                        if depth == 0 {
                            return Err(EvalError::DepthExceeded);
                        }
                        let t = copy_term(t);
                        self.eval_term(words, t, depth - 1)
                    },
                    None => Err(EvalError::NotFound(name)),
                }
            },
            Term::Prim(p) => self.run_prim(words, p.f, depth),
        }
    }

    /// Evaluates the terms of `program` in order against this stack.
    fn eval_stack(self, words: &Words, program: &Stack, depth: usize) -> (r: EvalResult)
        ensures
            outcome(r) == eval_seq_spec(self@, words@, program@, depth as nat),
        decreases depth, 2int, 0int,
    {
        let ghost s0 = self@;
        let ghost prog = program@;
        proof {
            lemma_terms_view_index(program.terms@);
            assert(prog.take(0) == Seq::<TermV>::empty());
        }
        let mut st = self;
        let mut i: usize = 0;
        while i < program.terms.len()
            invariant
                0 <= i <= program.terms@.len(),
                prog == program@,
                s0 == self@,
                prog.len() == program.terms@.len(),
                forall|j: int| 0 <= j < prog.len() ==> #[trigger] prog[j] == program.terms@[j]@,
                eval_seq_spec(s0, words@, prog.take(i as int), depth as nat) == Ok::<_, ErrorV>(st@),
            decreases program.terms@.len() - i,
        {
            let t = copy_term(&program.terms[i]);
            proof {
                assert(prog.take(i + 1).drop_last() == prog.take(i as int));
                assert(prog.take(i + 1).last() == prog[i as int]);
            }
            let ghost before = st@;
            match st.eval_term(words, t, depth) {
                Ok(next) => st = next,
                Err(e) => {
                    proof {
                        assert(eval_seq_spec(s0, words@, prog.take(i + 1), depth as nat)
                            == eval_term_spec(before, words@, prog[i as int], depth as nat));
                        lemma_prefix_error(s0, words@, prog, i + 1, depth as nat);
                    }
                    return Err(e);
                },
            }
            i = i + 1;
        }
        proof {
            assert(prog.take(i as int) == prog);
        }
        Ok(st)
    }

    /// This stack's terms followed by those of `other`.
    fn append(self, other: Stack) -> (r: Stack)
        ensures
            r@ == self@ + other@,
    {
        let ghost a = self.terms@;
        let ghost b = other.terms@;
        let mut s = self;
        let mut o = other;
        s.terms.append(&mut o.terms);
        proof {
            lemma_terms_view_index(a);
            lemma_terms_view_index(b);
            lemma_terms_view_index(s.terms@);
            assert(s@ =~= terms_view(a) + terms_view(b));
        }
        s
    }
}

/// Evaluates `stack` as a program against an initially empty stack, using
/// `words` to resolve calls.
pub fn eval(stack: Stack, words: &Words) -> (r: EvalResult)
    ensures
        outcome(r) == eval_program(stack@, words@),
{
    Stack::empty().eval_stack(words, &stack, MAX_DEPTH)
}

} // verus!
