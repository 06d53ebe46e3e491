//! Algebraic laws of evaluation.

use vstd::prelude::*;

use crate::error::ErrorV;
use crate::semantics::{eval_program, eval_seq_spec, Outcome, MAX_DEPTH};
use crate::term::{PrimFn, TermV, Value};

verus! {

/// Evaluating `q` after the stack that a prior outcome left, or passing its
/// error on.
pub open spec fn then_eval(o: Outcome, w: Map<Seq<char>, TermV>, q: Seq<TermV>, d: nat) -> Outcome {
    match o {
        Ok(s1) => eval_seq_spec(s1, w, q, d),
        Err(e) => Err(e),
    }
}

/// Evaluating the concatenation of two programs is evaluating the first and
/// then the second on what the first left.
pub proof fn law_concat(s: Seq<TermV>, w: Map<Seq<char>, TermV>, p: Seq<TermV>, q: Seq<TermV>, d: nat)
    ensures
        eval_seq_spec(s, w, p + q, d) == then_eval(eval_seq_spec(s, w, p, d), w, q, d),
    decreases q.len(),
{
    if q.len() == 0 {
        assert(p + q == p);
    } else {
        assert((p + q).drop_last() == p + q.drop_last());
        assert((p + q).last() == q.last());
        law_concat(s, w, p, q.drop_last(), d);
    }
}

/// Following any program that leaves a non-empty stack by `dup pop` leaves
/// the same stack.
pub proof fn law_dup_pop(p: Seq<TermV>, w: Map<Seq<char>, TermV>)
    requires
        eval_program(p, w) matches Ok(s) && s.len() > 0,
    ensures
        eval_program(p + seq![TermV::Prim(PrimFn::Dup), TermV::Prim(PrimFn::Pop)], w)
            == eval_program(p, w),
{
    reveal_with_fuel(eval_seq_spec, 5);
    let q = seq![TermV::Prim(PrimFn::Dup), TermV::Prim(PrimFn::Pop)];
    let d = MAX_DEPTH as nat;
    law_concat(Seq::empty(), w, p, q, d);
    let s = eval_program(p, w)->Ok_0;
    assert(q.drop_last().drop_last() == Seq::<TermV>::empty());
    assert(s.push(s.last()).drop_last() == s);
}

/// Following any program that leaves at least two terms by `swap swap`
/// leaves the same stack.
pub proof fn law_swap_swap(p: Seq<TermV>, w: Map<Seq<char>, TermV>)
    requires
        eval_program(p, w) matches Ok(s) && s.len() >= 2,
    ensures
        eval_program(p + seq![TermV::Prim(PrimFn::Swap), TermV::Prim(PrimFn::Swap)], w)
            == eval_program(p, w),
{
    reveal_with_fuel(eval_seq_spec, 5);
    let q = seq![TermV::Prim(PrimFn::Swap), TermV::Prim(PrimFn::Swap)];
    let d = MAX_DEPTH as nat;
    law_concat(Seq::empty(), w, p, q, d);
    let s = eval_program(p, w)->Ok_0;
    assert(q.drop_last().drop_last() == Seq::<TermV>::empty());
    let c = s.last();
    let b = s.drop_last().last();
    let base = s.drop_last().drop_last();
    let s1 = base.push(c).push(b);
    assert(s1.drop_last() == base.push(c));
    assert(base.push(c).drop_last() == base);
    assert(base.push(b).push(c) == s);
}

/// Quoting a literal and applying the quotation pushes the literal, as the
/// literal alone does.
pub proof fn law_quote_apply(v: Value, w: Map<Seq<char>, TermV>)
    ensures
        eval_program(seq![TermV::Push(v), TermV::Prim(PrimFn::Quote), TermV::Prim(PrimFn::Apply)], w)
            == eval_program(seq![TermV::Push(v)], w),
        eval_program(seq![TermV::Push(v)], w) == Ok::<_, ErrorV>(seq![TermV::Push(v)]),
{
    reveal_with_fuel(eval_seq_spec, 5);
    let t = TermV::Push(v);
    let p = seq![t, TermV::Prim(PrimFn::Quote), TermV::Prim(PrimFn::Apply)];
    let e = Seq::<TermV>::empty();
    let d = MAX_DEPTH as nat;
    assert(p.drop_last().drop_last().drop_last() == e);
    assert(p.drop_last().drop_last() == seq![t]);
    assert(seq![t].drop_last() == e);
    assert(e.push(t) == seq![t]);
    assert(seq![t].drop_last() == e);
    let qt = TermV::Quote(seq![t]);
    assert(e.push(qt) == seq![qt]);
    assert(seq![qt].drop_last() == e);
    assert(eval_seq_spec(e, w, p.drop_last(), d) == Ok::<_, ErrorV>(seq![qt]));
    assert(eval_seq_spec(e, w, seq![t], (d - 1) as nat) == Ok::<_, ErrorV>(seq![t]));
}

/// Applying the composition of two quotations is applying the first and then
/// the second.
pub proof fn law_compose_apply(
    s: Seq<TermV>,
    w: Map<Seq<char>, TermV>,
    q1: Seq<TermV>,
    q2: Seq<TermV>,
    d: nat,
)
    requires
        d > 0,
    ensures
        eval_seq_spec(
            s,
            w,
            seq![TermV::Quote(q1), TermV::Quote(q2), TermV::Prim(PrimFn::Compose), TermV::Prim(PrimFn::Apply)],
            d,
        ) == then_eval(
            eval_seq_spec(s, w, seq![TermV::Quote(q1), TermV::Prim(PrimFn::Apply)], d),
            w,
            seq![TermV::Quote(q2), TermV::Prim(PrimFn::Apply)],
            d,
        ),
{
    reveal_with_fuel(eval_seq_spec, 5);
    let a = TermV::Prim(PrimFn::Apply);
    let p = seq![TermV::Quote(q1), TermV::Quote(q2), TermV::Prim(PrimFn::Compose), a];
    let e = Seq::<TermV>::empty();
    assert(p.drop_last().drop_last().drop_last().drop_last() == e);
    assert(p.drop_last().drop_last().drop_last() == seq![TermV::Quote(q1)]);
    assert(p.drop_last().drop_last() == seq![TermV::Quote(q1), TermV::Quote(q2)]);
    let p1 = seq![TermV::Quote(q1), a];
    assert(p1.drop_last() == seq![TermV::Quote(q1)]);
    assert(seq![TermV::Quote(q1)].drop_last() == e);
    let p2 = seq![TermV::Quote(q2), a];
    assert(p2.drop_last() == seq![TermV::Quote(q2)]);
    assert(seq![TermV::Quote(q2)].drop_last() == e);
    let s1 = s.push(TermV::Quote(q1));
    let s2 = s1.push(TermV::Quote(q2));
    assert(s2.drop_last() == s1);
    assert(s1.drop_last() == s);
    let s3 = s.push(TermV::Quote(q1 + q2));
    assert(s3.drop_last() == s);
    law_concat(s, w, q1, q2, (d - 1) as nat);
    match eval_seq_spec(s, w, q1, (d - 1) as nat) {
        Ok(r1) => {
            assert(r1.push(TermV::Quote(q2)).drop_last() == r1);
        },
        Err(_) => {},
    }
}

/// A conditional evaluates only the quotation that its boolean selects: the
/// other one plays no part in the outcome.
pub proof fn law_if_selects(
    s: Seq<TermV>,
    w: Map<Seq<char>, TermV>,
    c: bool,
    then: Seq<TermV>,
    otherwise: Seq<TermV>,
    d: nat,
)
    requires
        d > 0,
    ensures
        eval_seq_spec(
            s,
            w,
            seq![TermV::Push(Value::Bool(c)), TermV::Quote(then), TermV::Quote(otherwise), TermV::Prim(PrimFn::If)],
            d,
        ) == eval_seq_spec(s, w, if c { then } else { otherwise }, (d - 1) as nat),
{
    reveal_with_fuel(eval_seq_spec, 5);
    let b = TermV::Push(Value::Bool(c));
    let p = seq![b, TermV::Quote(then), TermV::Quote(otherwise), TermV::Prim(PrimFn::If)];
    let e = Seq::<TermV>::empty();
    assert(p.drop_last().drop_last().drop_last().drop_last() == e);
    assert(p.drop_last().drop_last().drop_last() == seq![b]);
    assert(p.drop_last().drop_last() == seq![b, TermV::Quote(then)]);
    let s1 = s.push(b);
    let s2 = s1.push(TermV::Quote(then));
    let s3 = s2.push(TermV::Quote(otherwise));
    assert(s3.drop_last() == s2);
    assert(s2.drop_last() == s1);
    assert(s1.drop_last() == s);
}

} // verus!
