use welkin_core::analysis::Empty;
use welkin_core::term::eq::NullCache;
use welkin_core::term::parse::parse_str;
use welkin_core::term::{Index, Term};

const FUEL: u64 = 1_000_000;

fn parse(s: &str) -> Term {
    parse_str(s.trim()).unwrap()
}

fn assert_equivalent(a: Term, b: Term) {
    assert!(a.equivalent(&b, &Empty, &mut NullCache, FUEL).unwrap());
}

#[test]
fn substitute_trivial() {
    let term = parse("^0");
    let other = parse(r#"\x ^2"#);
    let term = term.substitute(Index::top(), &other);
    assert_equivalent(term, other);

    let term = parse("(^0 ^1)");
    let other = parse(r#"\x ^2"#);
    let term = term.substitute(Index::top().child(), &other);
    assert_equivalent(term, parse(r#"(^0 \x ^2)"#));
}

#[test]
fn multiple() {
    let mut term = parse("(^0 ^1)");
    let other = parse(r#"\x ^0"#);
    for _ in 0..2 {
        term = term.substitute(Index::top(), &other);
    }
    assert_equivalent(term, parse(r#"(\x ^0 \x ^0)"#));
}

#[test]
fn substitute_in_lambda() {
    let term = parse(r#"(\x ^1 ^0)"#);
    let other = parse(r#"\x ^0"#);
    let term = term.substitute(Index::top(), &other);
    assert_equivalent(term, parse(r#"(\x ^0 \x ^0)"#));
}
