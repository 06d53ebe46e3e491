use concat_eval::{Prim, PrimFn};

#[test]
fn test_same() {
    assert_eq!(Prim { f: PrimFn::Eq }, Prim { f: PrimFn::Eq });
    assert_eq!(Prim { f: PrimFn::Add }, Prim { f: PrimFn::Add });
}

#[test]
fn test_different() {
    assert!(Prim { f: PrimFn::Eq } != Prim { f: PrimFn::Add });
    assert!(Prim { f: PrimFn::Add } != Prim { f: PrimFn::Eq });
}
