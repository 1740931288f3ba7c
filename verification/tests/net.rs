use welkin_core::analysis::Definitions as _;
use welkin_core::net::Index;
use welkin_core::term::parse::untyped::Definitions;

const FUEL: u64 = 1_000_000;

fn round_trip(source: &str) {
    let definitions = Definitions::from_source(source.trim()).unwrap();
    let entry = definitions
        .get(&"entry".to_string())
        .unwrap()
        .as_ref()
        .deep_copy();
    let normalized = entry.normalize(&definitions, FUEL).unwrap();
    let stratified = entry.stratified(&definitions, FUEL).unwrap();
    let mut net = stratified.into_net(FUEL).unwrap();
    net.reduce_all();
    let boundary = net.get(Index(0)).ports().principal;
    let read = net.read_term(boundary, FUEL).unwrap();
    assert!(normalized.equals(&read));
}

#[test]
fn mod_trivial() {
    round_trip(
        r#"
entry = \x x
"#,
    );
}

#[test]
fn identity() {
    round_trip(
        r#"
id    = \x x
entry = (id id)
"#,
    );
}

#[test]
fn negation() {
    round_trip(
        r#"
true  = \t \f t
false = \t \f f
not   = \a \t \f (a f t)
entry = (not (not (not true)))
"#,
    );
}

#[test]
fn duplication() {
    round_trip(
        r#"
id    = \x x
entry =
  : Id = . id
  . (Id (Id Id))
"#,
    );
}

#[test]
fn epsilon() {
    round_trip(
        r#"
id    = \x \x x
entry =
  : Id = . id
  . (Id (Id Id))
"#,
    );
}

#[test]
fn unused_duplication() {
    round_trip(
        r#"
entry =
  : X = \x x
  \x x
"#,
    );
}
