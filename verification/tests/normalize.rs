use welkin_core::analysis::Empty;
use welkin_core::term::eq::NullCache;
use welkin_core::term::parse::parse_str;
use welkin_core::term::Term;

const FUEL: u64 = 1_000_000;

fn parse(s: &str) -> Term {
    parse_str(s.trim()).unwrap()
}

fn assert_equivalent(a: Term, b: Term) {
    assert!(a.equivalent(&b, &Empty, &mut NullCache, FUEL).unwrap());
}

#[test]
fn simple_application() {
    let term = parse(r#"(\x ^0 ^1)"#);
    let term = term.normalize(&Empty, FUEL).unwrap();
    assert_equivalent(term, parse(r#"^1"#));
}

#[test]
fn simple_duplication() {
    let term = parse(
        r#"
        : X = . ^1
        (^0 ^0)
    "#,
    );
    let term = term.normalize(&Empty, FUEL).unwrap();
    assert_equivalent(term, parse(r#"(^1 ^1)"#));
}

#[test]
fn nested_duplication() {
    let term = parse(
        r#"
        : X = . ^1
        : X = . ^0
        (^0 ^0)
    "#,
    );
    let term = term.normalize(&Empty, FUEL).unwrap();
    assert_equivalent(term, parse(r#"(^1 ^1)"#));
}
