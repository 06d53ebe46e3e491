use concat_eval::{PrimFn, Term, Value, Words};

#[test]
fn empty_has_no_entries() {
    let w = Words::empty();
    assert!(w.lookup("dup").is_none());
}

#[test]
fn standard_has_primitives() {
    let w = Words::standard();
    let names = [
        ("words", PrimFn::Words),
        ("dup", PrimFn::Dup),
        ("pop", PrimFn::Pop),
        ("swap", PrimFn::Swap),
        ("apply", PrimFn::Apply),
        ("quote", PrimFn::Quote),
        ("compose", PrimFn::Compose),
        ("if", PrimFn::If),
        ("eq", PrimFn::Eq),
        ("and", PrimFn::And),
        ("or", PrimFn::Or),
        ("not", PrimFn::Not),
        ("+", PrimFn::Add),
        ("-", PrimFn::Sub),
        ("*", PrimFn::Mul),
        ("/", PrimFn::Div),
        ("%", PrimFn::Rem),
    ];
    for (name, f) in names {
        assert_eq!(w.lookup(name), Some(&Term::prim(f)));
    }
    assert!(w.lookup("frobnicate").is_none());
}

#[test]
fn define_inserts_and_replaces() {
    let mut w = Words::empty();
    w.define("x", Term::Push(Value::Number(1)));
    assert_eq!(w.lookup("x"), Some(&Term::Push(Value::Number(1))));
    w.define("y", Term::call("x"));
    w.define("x", Term::Push(Value::Bool(true)));
    assert_eq!(w.lookup("x"), Some(&Term::Push(Value::Bool(true))));
    assert_eq!(w.lookup("y"), Some(&Term::call("x")));
}

#[test]
fn names_lists_every_definition() {
    let mut w = Words::empty();
    assert!(w.names().is_empty());
    w.define("a", Term::call("b"));
    w.define("b", Term::Push(Value::Number(2)));
    w.define("a", Term::Push(Value::Number(1)));
    let mut names = w.names();
    names.sort();
    assert_eq!(names, vec!["a".to_string(), "b".to_string()]);
    assert_eq!(Words::standard().names().len(), 17);
}
