use vstd::prelude::*;

verus! {

broadcast use {vstd::seq::group_seq_axioms, vstd::std_specs::vec::group_vec_axioms};

/// A literal value: a boolean or a 32-bit signed integer.
#[derive(Clone, Copy, Debug, PartialEq, Eq, Structural)]
pub enum Value {
    Bool(bool),
    Number(i32),
}

/// The host-implemented operations of the language.
#[derive(Clone, Copy, Debug, PartialEq, Eq, Structural)]
pub enum PrimFn {
    Words,
    Dup,
    Pop,
    Swap,
    Apply,
    Quote,
    Compose,
    If,
    Eq,
    And,
    Or,
    Not,
    Add,
    Sub,
    Mul,
    Div,
    Rem,
}

/// A primitive operation as it stands in a term; two are equal exactly when
/// they name the same operation.
#[derive(Clone, Copy, Debug, PartialEq, Eq, Structural)]
pub struct Prim {
    pub f: PrimFn,
}

/// One element of a program or of the runtime stack.
#[derive(Debug, PartialEq)]
pub enum Term {
    /// Pushes a literal.
    Push(Value),
    /// A quotation: an unevaluated program, pushed as it is.
    Quote(Stack),
    /// A word resolved in the dictionary when it is evaluated.
    Call(String),
    /// A primitive operation.
    Prim(Prim),
}

/// A sequence of terms whose top is its last element. It serves both as a
/// program and as the runtime stack of values.
#[derive(Debug, PartialEq)]
pub struct Stack {
    pub terms: Vec<Term>,
}

/// The mathematical model of a [`Term`].
pub ghost enum TermV {
    Push(Value),
    Quote(Seq<TermV>),
    Call(Seq<char>),
    Prim(PrimFn),
}

/// The model of a term.
pub open spec fn term_view(t: Term) -> TermV
    decreases t,
{
    match t {
        Term::Push(v) => TermV::Push(v),
        Term::Quote(st) => TermV::Quote(terms_view(st.terms@)),
        Term::Call(name) => TermV::Call(name@),
        Term::Prim(p) => TermV::Prim(p.f),
    }
}

/// The model of a sequence of terms, element by element.
pub open spec fn terms_view(s: Seq<Term>) -> Seq<TermV>
    decreases s,
{
    if s.len() == 0 {
        Seq::empty()
    } else {
        terms_view(s.drop_last()).push(term_view(s.last()))
    }
}

/// The model of a sequence has one element for each term, in order.
pub proof fn lemma_terms_view_index(s: Seq<Term>)
    ensures
        terms_view(s).len() == s.len(),
        forall|i: int| 0 <= i < s.len() ==> #[trigger] terms_view(s)[i] == term_view(s[i]),
    decreases s.len(),
{
    if s.len() > 0 {
        lemma_terms_view_index(s.drop_last());
    }
}

/// Taking the model commutes with dropping the last element.
pub proof fn lemma_terms_view_drop_last(s: Seq<Term>)
    requires
        s.len() > 0,
    ensures
        terms_view(s.drop_last()) == terms_view(s).drop_last(),
        terms_view(s).last() == term_view(s.last()),
{
}

/// Taking the model commutes with pushing one element.
pub proof fn lemma_terms_view_push(s: Seq<Term>, t: Term)
    ensures
        terms_view(s.push(t)) == terms_view(s).push(term_view(t)),
{
    assert(s.push(t).drop_last() == s);
}

impl View for Term {
    type V = TermV;

    open spec fn view(&self) -> TermV {
        term_view(*self)
    }
}

impl View for Stack {
    type V = Seq<TermV>;

    open spec fn view(&self) -> Seq<TermV> {
        terms_view(self.terms@)
    }
}

/// A deep copy of a term.
pub fn copy_term(t: &Term) -> (r: Term)
    ensures
        r@ == t@,
    decreases t,
{
    match t {
        Term::Push(v) => Term::Push(*v),
        Term::Quote(st) => Term::Quote(Stack { terms: copy_terms(&st.terms) }),
        Term::Call(name) => Term::Call(name.clone()),
        Term::Prim(p) => Term::Prim(*p),
    }
}

/// A deep copy of a vector of terms.
pub fn copy_terms(v: &Vec<Term>) -> (r: Vec<Term>)
    ensures
        terms_view(r@) == terms_view(v@),
    decreases v,
{
    let mut r: Vec<Term> = Vec::new();
    let mut i: usize = 0;
    while i < v.len()
        invariant
            0 <= i <= v.len(),
            terms_view(r@) == terms_view(v@.take(i as int)),
        decreases v.len() - i,
    {
        let t = copy_term(&v[i]);
        let ghost before = r@;
        r.push(t);
        assert(r@.drop_last() == before);
        assert(v@.take(i as int + 1).drop_last() == v@.take(i as int));
        i = i + 1;
    }
    assert(v@.take(v.len() as int) == v@);
    r
}

impl Term {
    /// A call of the word `name`.
    pub fn call(name: &str) -> (r: Term)
        ensures
            r@ == TermV::Call(name@),
    {
        Term::Call(name.to_owned())
    }

    /// The primitive operation `f` as a term.
    pub fn prim(f: PrimFn) -> (r: Term)
        ensures
            r@ == TermV::Prim(f),
    {
        Term::Prim(Prim { f })
    }
}

impl Clone for Term {
    fn clone(&self) -> (r: Term)
        ensures
            r@ == self@,
    {
        copy_term(self)
    }
}

impl Clone for Stack {
    fn clone(&self) -> (r: Stack)
        ensures
            r@ == self@,
    {
        Stack { terms: copy_terms(&self.terms) }
    }
}

} // verus!
