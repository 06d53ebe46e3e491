use concat_eval::{eval, EvalError, Stack, Term, Value, Words};

fn num(n: i32) -> Term {
    Term::Push(Value::Number(n))
}

fn boolean(b: bool) -> Term {
    Term::Push(Value::Bool(b))
}

fn call(name: &str) -> Term {
    Term::call(name)
}

fn quote(terms: Vec<Term>) -> Term {
    Term::Quote(Stack::new(terms))
}

fn run(terms: Vec<Term>) -> Result<Stack, EvalError> {
    eval(Stack::new(terms), &Words::standard())
}

#[test]
fn push_push_add_gives_seven() {
    let r = run(vec![num(3), num(4), call("+")]);
    assert_eq!(r, Ok(Stack::new(vec![num(7)])));
}

#[test]
fn empty_program_gives_empty_stack() {
    assert_eq!(run(vec![]), Ok(Stack::empty()));
}

#[test]
fn literals_stay_in_order() {
    let r = run(vec![num(1), boolean(false), num(2)]).unwrap();
    assert_eq!(r, Stack::new(vec![num(1), boolean(false), num(2)]));
    assert_eq!(r.len(), 3);
}

#[test]
fn dup_pop_is_identity() {
    let p = vec![num(5), boolean(true)];
    let mut q = p.clone();
    q.push(call("dup"));
    q.push(call("pop"));
    assert_eq!(run(q), run(p));
}

#[test]
fn dup_copies_top() {
    let r = run(vec![num(1), quote(vec![num(2)]), call("dup")]);
    assert_eq!(
        r,
        Ok(Stack::new(vec![num(1), quote(vec![num(2)]), quote(vec![num(2)])]))
    );
}

#[test]
fn swap_exchanges_and_swap_twice_is_identity() {
    assert_eq!(
        run(vec![num(1), num(2), call("swap")]),
        Ok(Stack::new(vec![num(2), num(1)]))
    );
    assert_eq!(
        run(vec![num(1), num(2), call("swap"), call("swap")]),
        Ok(Stack::new(vec![num(1), num(2)]))
    );
}

#[test]
fn swap_with_one_element_underflows() {
    assert_eq!(run(vec![num(1), call("swap")]), Err(EvalError::StackUnderflow));
}

#[test]
fn quote_apply_round_trip() {
    for v in [Value::Number(42), Value::Bool(true), Value::Number(-3)] {
        let r = run(vec![Term::Push(v), call("quote"), call("apply")]);
        assert_eq!(r, Ok(Stack::new(vec![Term::Push(v)])));
    }
}

#[test]
fn quote_wraps_top_term() {
    let r = run(vec![num(9), call("quote")]);
    assert_eq!(r, Ok(Stack::new(vec![quote(vec![num(9)])])));
}

#[test]
fn apply_runs_against_remaining_stack() {
    let r = run(vec![num(10), quote(vec![num(5), call("-")]), call("apply")]);
    assert_eq!(r, Ok(Stack::new(vec![num(5)])));
}

#[test]
fn compose_concatenates_and_applies_in_sequence() {
    let q1 = vec![num(2), call("*")];
    let q2 = vec![num(1), call("+")];
    let composed = run(vec![quote(q1.clone()), quote(q2.clone()), call("compose")]);
    let mut both = q1.clone();
    both.extend(q2.clone());
    assert_eq!(composed, Ok(Stack::new(vec![quote(both)])));

    let a = run(vec![num(5), quote(q1.clone()), quote(q2.clone()), call("compose"), call("apply")]);
    let b = run(vec![num(5), quote(q1), call("apply"), quote(q2), call("apply")]);
    assert_eq!(a, Ok(Stack::new(vec![num(11)])));
    assert_eq!(a, b);
}

#[test]
fn compose_needs_quotations() {
    assert_eq!(
        run(vec![quote(vec![]), num(1), call("compose")]),
        Err(EvalError::TypeMismatch)
    );
}

#[test]
fn if_true_takes_first_quotation() {
    let r = run(vec![boolean(true), quote(vec![num(1)]), quote(vec![num(2)]), call("if")]);
    assert_eq!(r, Ok(Stack::new(vec![num(1)])));
}

#[test]
fn if_false_takes_second_quotation() {
    let r = run(vec![boolean(false), quote(vec![num(1)]), quote(vec![num(2)]), call("if")]);
    assert_eq!(r, Ok(Stack::new(vec![num(2)])));
}

#[test]
fn if_never_evaluates_other_branch() {
    let failing = quote(vec![call("pop")]);
    let r = run(vec![boolean(true), quote(vec![num(1)]), failing.clone(), call("if")]);
    assert_eq!(r, Ok(Stack::new(vec![num(1)])));
    let r = run(vec![boolean(false), failing, quote(vec![num(2)]), call("if")]);
    assert_eq!(r, Ok(Stack::new(vec![num(2)])));
}

#[test]
fn if_needs_boolean() {
    let r = run(vec![num(0), quote(vec![]), quote(vec![]), call("if")]);
    assert_eq!(r, Err(EvalError::TypeMismatch));
}

#[test]
fn pop_on_empty_underflows() {
    assert_eq!(run(vec![call("pop")]), Err(EvalError::StackUnderflow));
}

#[test]
fn unknown_word_is_not_found() {
    assert_eq!(
        run(vec![call("frobnicate")]),
        Err(EvalError::NotFound("frobnicate".to_string()))
    );
}

#[test]
fn adding_a_boolean_is_a_type_mismatch() {
    assert_eq!(run(vec![boolean(true), num(1), call("+")]), Err(EvalError::TypeMismatch));
}

#[test]
fn first_error_stops_evaluation() {
    assert_eq!(
        run(vec![call("pop"), call("frobnicate")]),
        Err(EvalError::StackUnderflow)
    );
}

#[test]
fn arithmetic_operand_order() {
    assert_eq!(run(vec![num(10), num(3), call("-")]), Ok(Stack::new(vec![num(7)])));
    assert_eq!(run(vec![num(6), num(7), call("*")]), Ok(Stack::new(vec![num(42)])));
    assert_eq!(run(vec![num(7), num(2), call("/")]), Ok(Stack::new(vec![num(3)])));
    assert_eq!(run(vec![num(7), num(2), call("%")]), Ok(Stack::new(vec![num(1)])));
}

#[test]
fn division_truncates_toward_zero() {
    assert_eq!(run(vec![num(-7), num(2), call("/")]), Ok(Stack::new(vec![num(-3)])));
    assert_eq!(run(vec![num(-7), num(2), call("%")]), Ok(Stack::new(vec![num(-1)])));
    assert_eq!(run(vec![num(7), num(-2), call("%")]), Ok(Stack::new(vec![num(1)])));
}

#[test]
fn division_by_zero_is_an_arithmetic_error() {
    assert_eq!(run(vec![num(1), num(0), call("/")]), Err(EvalError::Arithmetic));
    assert_eq!(run(vec![num(1), num(0), call("%")]), Err(EvalError::Arithmetic));
}

#[test]
fn overflow_is_an_arithmetic_error() {
    assert_eq!(run(vec![num(i32::MAX), num(1), call("+")]), Err(EvalError::Arithmetic));
    assert_eq!(run(vec![num(i32::MIN), num(1), call("-")]), Err(EvalError::Arithmetic));
    assert_eq!(run(vec![num(i32::MAX), num(2), call("*")]), Err(EvalError::Arithmetic));
    assert_eq!(run(vec![num(i32::MIN), num(-1), call("/")]), Err(EvalError::Arithmetic));
    assert_eq!(run(vec![num(i32::MIN), num(-1), call("%")]), Err(EvalError::Arithmetic));
    assert_eq!(
        run(vec![num(i32::MAX - 1), num(1), call("+")]),
        Ok(Stack::new(vec![num(i32::MAX)]))
    );
}

#[test]
fn comparison_and_logic() {
    assert_eq!(run(vec![num(3), num(3), call("eq")]), Ok(Stack::new(vec![boolean(true)])));
    assert_eq!(run(vec![num(3), num(4), call("eq")]), Ok(Stack::new(vec![boolean(false)])));
    assert_eq!(
        run(vec![boolean(true), boolean(false), call("and")]),
        Ok(Stack::new(vec![boolean(false)]))
    );
    assert_eq!(
        run(vec![boolean(true), boolean(false), call("or")]),
        Ok(Stack::new(vec![boolean(true)]))
    );
    assert_eq!(run(vec![boolean(false), call("not")]), Ok(Stack::new(vec![boolean(true)])));
    assert_eq!(run(vec![boolean(true), num(1), call("eq")]), Err(EvalError::TypeMismatch));
    assert_eq!(run(vec![num(1), call("not")]), Err(EvalError::TypeMismatch));
}

#[test]
fn words_leaves_stack_alone() {
    assert_eq!(run(vec![num(1), call("words")]), Ok(Stack::new(vec![num(1)])));
}

#[test]
fn self_reference_exceeds_depth() {
    let mut words = Words::standard();
    words.define("forever", call("forever"));
    assert_eq!(
        eval(Stack::new(vec![call("forever")]), &words),
        Err(EvalError::DepthExceeded)
    );
}

#[test]
fn defined_word_is_substituted() {
    let mut words = Words::standard();
    words.define("square", quote(vec![call("dup"), call("*")]));
    words.define("sq", call("square"));
    let r = eval(Stack::new(vec![num(6), call("sq"), call("apply")]), &words);
    assert_eq!(r, Ok(Stack::new(vec![num(36)])));
}

#[test]
fn empty_dictionary_knows_nothing() {
    let r = eval(Stack::new(vec![num(1), num(2), call("+")]), &Words::empty());
    assert_eq!(r, Err(EvalError::NotFound("+".to_string())));
}

#[test]
fn prim_terms_run_without_dictionary() {
    let r = eval(
        Stack::new(vec![num(1), num(2), Term::prim(concat_eval::PrimFn::Add)]),
        &Words::empty(),
    );
    assert_eq!(r, Ok(Stack::new(vec![num(3)])));
}

#[test]
fn unbounded_apply_recursion_exceeds_depth() {
    let mut words = Words::standard();
    words.define("again", quote(vec![call("again"), call("apply")]));
    let r = eval(Stack::new(vec![call("again"), call("apply")]), &words);
    assert_eq!(r, Err(EvalError::DepthExceeded));
}

#[test]
fn unbounded_if_recursion_exceeds_depth() {
    let mut words = Words::standard();
    words.define(
        "spin",
        quote(vec![boolean(true), call("spin"), quote(vec![]), call("if")]),
    );
    let r = eval(
        Stack::new(vec![boolean(true), call("spin"), quote(vec![]), call("if")]),
        &words,
    );
    assert_eq!(r, Err(EvalError::DepthExceeded));
}
