use welkin_core::analysis::Empty;
use welkin_core::term::eq::NullCache;
use welkin_core::term::parse::parse_str;
use welkin_core::term::{Index, Term};

const FUEL: u64 = 1_000_000;

fn parse(s: &str) -> Term {
    parse_str(s.trim()).unwrap()
}

fn assert_equivalent(a: Term, b: Term) {
    assert!(a.equivalent(&b, &Empty, &mut NullCache, FUEL).unwrap());
}

#[test]
fn bare_variable() {
    let term = parse("^0");
    let term = term.shift(Index::top());
    assert_equivalent(term, parse("^1"));

    let term = parse("^0");
    let term = term.shift(Index::top().child());
    assert_equivalent(term, parse("^0"));

    let term = parse("^1");
    let term = term.shift(Index::top().child().child());
    assert_equivalent(term, parse("^1"));
}

#[test]
fn shift_in_lambda() {
    let term = parse(r#"\x ^0"#);
    let term = term.shift(Index::top());
    assert_equivalent(term, parse(r#"\x ^0"#));

    let term = parse(r#"\x ^1"#);
    let term = term.shift(Index::top());
    assert_equivalent(term, parse(r#"\x ^2"#));
}
