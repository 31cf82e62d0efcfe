use qsc_rca::fir::Functor;
use qsc_rca::selector::SpecializationSelector;

#[test]
fn adjoint_applied_twice_restores_the_selector() {
    for adjoint in [false, true] {
        for controlled in [false, true] {
            let selector = SpecializationSelector { adjoint, controlled };
            let once = selector.apply(Functor::Adj);
            assert_eq!(once.adjoint, !adjoint);
            assert_eq!(once.controlled, controlled);
            assert_eq!(once.apply(Functor::Adj), selector);
        }
    }
}

#[test]
fn controlled_is_set_and_never_cleared() {
    let body = SpecializationSelector::default();
    assert_eq!(body, SpecializationSelector { adjoint: false, controlled: false });
    let mut selector = body.apply(Functor::Ctl);
    assert!(selector.controlled);
    for functor in [Functor::Ctl, Functor::Adj, Functor::Ctl, Functor::Adj, Functor::Adj] {
        selector = selector.apply(functor);
        assert!(selector.controlled);
    }
    assert!(selector.adjoint);
}
