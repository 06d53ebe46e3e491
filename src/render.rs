//! The textual form of terms and stacks, for display and debugging.

use vstd::prelude::*;

use crate::term::{lemma_terms_view_push, terms_view, Stack, Term, TermV, Value};

verus! {

broadcast use {vstd::seq::group_seq_axioms, vstd::std_specs::vec::group_vec_axioms};

/// The decimal digits of `n`, most significant first.
pub open spec fn digits(n: nat) -> Seq<char>
    decreases n,
{
    let d = seq!['0', '1', '2', '3', '4', '5', '6', '7', '8', '9'][(n % 10) as int];
    if n < 10 {
        seq![d]
    } else {
        digits(n / 10).push(d)
    }
}

/// The decimal form of `n`, with a leading minus sign where it is negative.
pub open spec fn decimal(n: int) -> Seq<char> {
    if n < 0 {
        seq!['-'] + digits((-n) as nat)
    } else {
        digits(n as nat)
    }
}

/// The strings of `parts` with one space between neighbours.
pub open spec fn joined(parts: Seq<Seq<char>>) -> Seq<char>
    decreases parts.len(),
{
    if parts.len() == 0 {
        Seq::empty()
    } else if parts.len() == 1 {
        parts[0]
    } else {
        joined(parts.drop_last()) + seq![' '] + parts.last()
    }
}

/// The text of a term: a literal as its value, a quotation as its terms
/// between brackets, a call as its name, and a primitive as a placeholder.
pub open spec fn term_text(t: TermV) -> Seq<char>
    decreases t,
{
    match t {
        TermV::Push(Value::Bool(b)) => if b {
            seq!['t', 'r', 'u', 'e']
        } else {
            seq!['f', 'a', 'l', 's', 'e']
        },
        TermV::Push(Value::Number(n)) => decimal(n as int),
        TermV::Quote(q) => joined(seq![seq!['[']] + parts_text(q) + seq![seq![']']]),
        TermV::Call(name) => name,
        TermV::Prim(_) => seq!['<', 'p', 'r', 'i', 'm', '>'],
    }
}

/// The text of each term of `q`, in order.
pub open spec fn parts_text(q: Seq<TermV>) -> Seq<Seq<char>>
    decreases q,
{
    if q.len() == 0 {
        Seq::empty()
    } else {
        parts_text(q.drop_last()).push(term_text(q.last()))
    }
}

/// The text of a stack: its terms' texts separated by spaces.
pub open spec fn stack_text(s: Seq<TermV>) -> Seq<char> {
    joined(parts_text(s))
}

/// The contents of each string of `v`.
pub open spec fn strings_view(v: Seq<String>) -> Seq<Seq<char>> {
    v.map_values(|p: String| p@)
}

/// Relies on `<i32 as ToString>::to_string`: the decimal form of the number.
#[verifier::external_body]
fn number_text(n: i32) -> (r: String)
    ensures
        r@ == decimal(n as int),
{
    n.to_string()
}

/// Relies on `itertools::join`: the parts in order, a space between each two.
#[verifier::external_body]
fn join_spaced(parts: &Vec<String>) -> (r: String)
    ensures
        r@ == joined(strings_view(parts@)),
{
    itertools::join(parts.iter(), " ")
}

proof fn lemma_strings_push(v: Seq<String>, x: String)
    ensures
        strings_view(v.push(x)) == strings_view(v).push(x@),
{
    assert(strings_view(v.push(x)) =~= strings_view(v).push(x@));
}

/// The texts of the terms of `v`, in order.
fn render_parts(v: &Vec<Term>) -> (r: Vec<String>)
    ensures
        strings_view(r@) == parts_text(terms_view(v@)),
    decreases v,
{
    let mut r: Vec<String> = Vec::new();
    let mut i: usize = 0;
    proof {
        assert(v@.take(0) == Seq::<Term>::empty());
        assert(strings_view(r@) =~= Seq::<Seq<char>>::empty());
    }
    while i < v.len()
        invariant
            0 <= i <= v.len(),
            strings_view(r@) == parts_text(terms_view(v@.take(i as int))),
        decreases v.len() - i,
    {
        let text = v[i].to_string();
        proof {
            lemma_strings_push(r@, text);
            assert(v@.take(i + 1) == v@.take(i as int).push(v@[i as int]));
            lemma_terms_view_push(v@.take(i as int), v@[i as int]);
            let tv = terms_view(v@.take(i + 1));
            assert(tv.drop_last() == terms_view(v@.take(i as int)));
        }
        r.push(text);
        i = i + 1;
    }
    assert(v@.take(v.len() as int) == v@);
    r
}

impl Value {
    /// This value's text: `true`, `false` or the number in decimal.
    pub fn to_string(&self) -> (r: String)
        ensures
            r@ == term_text(TermV::Push(*self)),
    {
        Term::Push(*self).to_string()
    }
}

impl Term {
    /// This term's text.
    pub fn to_string(&self) -> (r: String)
        ensures
            r@ == term_text(self@),
        decreases self,
    {
        match self {
            Term::Push(Value::Bool(b)) => if *b {
                proof {
                    reveal_strlit("true");
                    assert("true"@ =~= seq!['t', 'r', 'u', 'e']);
                }
                "true".to_owned()
            } else {
                proof {
                    reveal_strlit("false");
                    assert("false"@ =~= seq!['f', 'a', 'l', 's', 'e']);
                }
                "false".to_owned()
            },
            Term::Push(Value::Number(n)) => number_text(*n),
            Term::Quote(st) => {
                proof {
                    reveal_strlit("[");
                    reveal_strlit("]");
                    assert("["@ =~= seq!['[']);
                    assert("]"@ =~= seq![']']);
                }
                let mut parts: Vec<String> = Vec::new();
                parts.push("[".to_owned());
                let mut inner = render_parts(&st.terms);
                let ghost middle = inner@;
                let ghost first = parts@;
                parts.append(&mut inner);
                let ghost before = parts@;
                parts.push("]".to_owned());
                proof {
                    assert(before == first + middle);
                    assert(strings_view(before) =~= strings_view(first) + strings_view(middle));
                    lemma_strings_push(before, parts@.last());
                    assert(parts@ == before.push(parts@.last()));
                    assert(strings_view(first) =~= seq![seq!['[']]);
                    assert(strings_view(parts@) =~= seq![seq!['[']] + parts_text(terms_view(st.terms@))
                        + seq![seq![']']]);
                }
                join_spaced(&parts)
            },
            Term::Call(name) => name.clone(),
            Term::Prim(_) => {
                proof {
                    reveal_strlit("<prim>");
                    assert("<prim>"@ =~= seq!['<', 'p', 'r', 'i', 'm', '>']);
                }
                "<prim>".to_owned()
            },
        }
    }
}

impl Stack {
    /// This stack's text: its terms' texts, bottom first, separated by spaces.
    pub fn to_string(&self) -> (r: String)
        ensures
            r@ == stack_text(self@),
    {
        let parts = render_parts(&self.terms);
        join_spaced(&parts)
    }
}

} // verus!
