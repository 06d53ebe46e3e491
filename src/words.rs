use vstd::prelude::*;

use crate::term::{PrimFn, Term, TermV};

verus! {

/// The dictionary: a mapping from names to the terms that define them.
///
/// Entries are kept in the order in which they were first defined; where a
/// name occurs more than once the last entry holds its definition.
pub struct Words {
    defs: Vec<(String, Term)>,
}

/// The mapping that a sequence of entries defines: each entry, in order,
/// overrides what came before it under its name.
pub open spec fn defs_map(s: Seq<(String, Term)>) -> Map<Seq<char>, TermV>
    decreases s.len(),
{
    if s.len() == 0 {
        Map::empty()
    } else {
        defs_map(s.drop_last()).insert(s.last().0@, s.last().1@)
    }
}

/// No entry at `j` or after it is named `k`.
pub open spec fn absent_from(s: Seq<(String, Term)>, k: Seq<char>, j: int) -> bool {
    forall|i: int| j <= i < s.len() ==> (#[trigger] s[i]).0@ != k
}

proof fn lemma_defs_absent(s: Seq<(String, Term)>, k: Seq<char>)
    requires
        absent_from(s, k, 0),
    ensures
        !defs_map(s).contains_key(k),
    decreases s.len(),
{
    if s.len() > 0 {
        lemma_defs_absent(s.drop_last(), k);
    }
}

proof fn lemma_defs_last(s: Seq<(String, Term)>, k: Seq<char>, j: int)
    requires
        0 <= j < s.len(),
        s[j].0@ == k,
        absent_from(s, k, j + 1),
    ensures
        defs_map(s).contains_key(k),
        defs_map(s)[k] == s[j].1@,
    decreases s.len(),
{
    if j < s.len() - 1 {
        lemma_defs_last(s.drop_last(), k, j);
    }
}

proof fn lemma_defs_update(s: Seq<(String, Term)>, k: Seq<char>, j: int, e: (String, Term))
    requires
        0 <= j < s.len(),
        s[j].0@ == k,
        e.0@ == k,
        absent_from(s, k, j + 1),
    ensures
        defs_map(s.update(j, e)) == defs_map(s).insert(k, e.1@),
    decreases s.len(),
{
    let u = s.update(j, e);
    if j == s.len() - 1 {
        assert(u.drop_last() == s.drop_last());
    } else {
        assert(u.drop_last() == s.drop_last().update(j, e));
        lemma_defs_update(s.drop_last(), k, j, e);
    }
}

/// The standard library: each primitive under its canonical name.
pub open spec fn standard_map() -> Map<Seq<char>, TermV> {
    Map::empty()
        .insert("words"@, TermV::Prim(PrimFn::Words))
        .insert("dup"@, TermV::Prim(PrimFn::Dup))
        .insert("pop"@, TermV::Prim(PrimFn::Pop))
        .insert("swap"@, TermV::Prim(PrimFn::Swap))
        .insert("apply"@, TermV::Prim(PrimFn::Apply))
        .insert("quote"@, TermV::Prim(PrimFn::Quote))
        .insert("compose"@, TermV::Prim(PrimFn::Compose))
        .insert("if"@, TermV::Prim(PrimFn::If))
        .insert("eq"@, TermV::Prim(PrimFn::Eq))
        .insert("and"@, TermV::Prim(PrimFn::And))
        .insert("or"@, TermV::Prim(PrimFn::Or))
        .insert("not"@, TermV::Prim(PrimFn::Not))
        .insert("+"@, TermV::Prim(PrimFn::Add))
        .insert("-"@, TermV::Prim(PrimFn::Sub))
        .insert("*"@, TermV::Prim(PrimFn::Mul))
        .insert("/"@, TermV::Prim(PrimFn::Div))
        .insert("%"@, TermV::Prim(PrimFn::Rem))
}

/// Every name that the entries of `s` define is the name of one of them, and
/// the other way round.
proof fn lemma_defs_domain(s: Seq<(String, Term)>, k: Seq<char>)
    ensures
        defs_map(s).contains_key(k) <==> exists|i: int| 0 <= i < s.len() && (#[trigger] s[i]).0@ == k,
    decreases s.len(),
{
    if s.len() > 0 {
        lemma_defs_domain(s.drop_last(), k);
        if defs_map(s.drop_last()).contains_key(k) {
            let i = choose|i: int| 0 <= i < s.len() - 1 && (#[trigger] s.drop_last()[i]).0@ == k;
            assert(s[i] == s.drop_last()[i]);
        }
        if exists|i: int| 0 <= i < s.len() && (#[trigger] s[i]).0@ == k {
            let i = choose|i: int| 0 <= i < s.len() && (#[trigger] s[i]).0@ == k;
            if i < s.len() - 1 {
                assert(s.drop_last()[i] == s[i]);
            }
        }
    }
}

impl View for Words {
    type V = Map<Seq<char>, TermV>;

    closed spec fn view(&self) -> Map<Seq<char>, TermV> {
        defs_map(self.defs@)
    }
}

impl Words {
    /// A dictionary with no entries.
    pub fn empty() -> (r: Words)
        ensures
            r@ == Map::<Seq<char>, TermV>::empty(),
    {
        Words { defs: Vec::new() }
    }

    /// A dictionary holding the standard primitives under their names.
    pub fn standard() -> (r: Words)
        ensures
            r@ == standard_map(),
    {
        let mut words = Words::empty();
        words.define("words", Term::prim(PrimFn::Words));
        words.define("dup", Term::prim(PrimFn::Dup));
        words.define("pop", Term::prim(PrimFn::Pop));
        words.define("swap", Term::prim(PrimFn::Swap));
        words.define("apply", Term::prim(PrimFn::Apply));
        words.define("quote", Term::prim(PrimFn::Quote));
        words.define("compose", Term::prim(PrimFn::Compose));
        words.define("if", Term::prim(PrimFn::If));
        words.define("eq", Term::prim(PrimFn::Eq));
        words.define("and", Term::prim(PrimFn::And));
        words.define("or", Term::prim(PrimFn::Or));
        words.define("not", Term::prim(PrimFn::Not));
        words.define("+", Term::prim(PrimFn::Add));
        words.define("-", Term::prim(PrimFn::Sub));
        words.define("*", Term::prim(PrimFn::Mul));
        words.define("/", Term::prim(PrimFn::Div));
        words.define("%", Term::prim(PrimFn::Rem));
        words
    }

    /// Inserts or replaces the definition of `name`.
    pub fn define(&mut self, name: &str, x: Term)
        ensures
            final(self)@ == old(self)@.insert(name@, x@),
    {
        let key = name.to_owned();
        match self.find(&key) {
            Some(j) => {
                let ghost s = self.defs@;
                proof {
                    lemma_defs_update(s, name@, j as int, (key, x));
                }
                self.defs.set(j, (key, x));
            },
            None => {
                let ghost s = self.defs@;
                self.defs.push((key, x));
                assert(self.defs@.drop_last() == s);
            },
        }
    }

    /// The index of the last entry named `name`, if there is one.
    fn find(&self, name: &String) -> (r: Option<usize>)
        ensures
            r matches Some(j) ==> j < self.defs@.len() && self.defs@[j as int].0@ == name@
                && absent_from(self.defs@, name@, j + 1),
            r is None ==> absent_from(self.defs@, name@, 0),
    {
        let mut i: usize = self.defs.len();
        while i > 0
            invariant
                i <= self.defs@.len(),
                absent_from(self.defs@, name@, i as int),
            decreases i,
        {
            if self.defs[i - 1].0 == *name {
                return Some(i - 1);
            }
            i = i - 1;
        }
        None
    }

    /// The names that this dictionary defines.
    pub fn names(&self) -> (r: Vec<String>)
        ensures
            forall|k: Seq<char>| self@.contains_key(k) <==> exists|i: int| 0 <= i < r@.len() && (#[trigger] r@[i])@ == k,
    {
        let mut r: Vec<String> = Vec::new();
        let mut i: usize = 0;
        while i < self.defs.len()
            invariant
                i <= self.defs@.len(),
                r@.len() == i,
                forall|j: int| 0 <= j < i ==> (#[trigger] r@[j])@ == self.defs@[j].0@,
            decreases self.defs@.len() - i,
        {
            r.push(self.defs[i].0.clone());
            i = i + 1;
        }
        proof {
            assert forall|k: Seq<char>| self@.contains_key(k) <==> exists|i: int| 0 <= i < r@.len() && (#[trigger] r@[i])@ == k by {
                lemma_defs_domain(self.defs@, k);
                if exists|i: int| 0 <= i < r@.len() && (#[trigger] r@[i])@ == k {
                    let i = choose|i: int| 0 <= i < r@.len() && (#[trigger] r@[i])@ == k;
                    assert(self.defs@[i].0@ == k);
                }
                if exists|i: int| 0 <= i < self.defs@.len() && (#[trigger] self.defs@[i]).0@ == k {
                    let i = choose|i: int| 0 <= i < self.defs@.len() && (#[trigger] self.defs@[i]).0@ == k;
                    assert(r@[i]@ == k);
                }
            }
        }
        r
    }

    /// The definition of `name`, if it has one.
    pub fn lookup(&self, name: &str) -> (r: Option<&Term>)
        ensures
            r matches Some(t) ==> self@.contains_key(name@) && t@ == self@[name@],
            r is None ==> !self@.contains_key(name@),
    {
        let key = name.to_owned();
        match self.find(&key) {
            Some(j) => {
                proof {
                    lemma_defs_last(self.defs@, name@, j as int);
                }
                Some(&self.defs[j].1)
            },
            None => {
                proof {
                    lemma_defs_absent(self.defs@, name@);
                }
                None
            },
        }
    }
}

} // verus!
