use welkin_core::analysis::{AnalysisError, Definitions as _, Empty};
use welkin_core::convert::NetError;
use welkin_core::term::eq::NullCache;
use welkin_core::term::parse::untyped::Definitions;
use welkin_core::term::parse::parse_str;
use welkin_core::term::stratified::StratificationError;
use welkin_core::term::Term;

const FUEL: u64 = 1_000_000;

fn parse(s: &str) -> Term {
    parse_str(s.trim()).unwrap()
}

#[test]
fn erasure_mismatch_is_reported() {
    let term = parse("\\x ^0");
    let ty = parse("_,:* *");
    assert!(matches!(
        term.check(&ty, &Empty, &mut NullCache, FUEL),
        Err(AnalysisError::ErasureMismatch { .. })
    ));
}

#[test]
fn non_function_application_is_reported() {
    let term = parse("(* *)");
    assert!(matches!(
        term.infer(&Empty, &mut NullCache, FUEL),
        Err(AnalysisError::NonFunctionApplication(_))
    ));
}

#[test]
fn unboxed_duplication_is_reported() {
    let term = parse(": x = * ^0");
    let ty = Term::Universe;
    assert!(matches!(
        term.check(&ty, &Empty, &mut NullCache, FUEL),
        Err(AnalysisError::UnboxedDuplication { .. })
    ));
}

#[test]
fn impossible_inference_is_reported() {
    let term = parse("\\x ^0");
    assert!(matches!(
        term.infer(&Empty, &mut NullCache, FUEL),
        Err(AnalysisError::Impossible(_))
    ));
}

#[test]
fn expected_wrap_is_reported() {
    let term = parse(". *");
    let ty = Term::Universe;
    assert!(matches!(
        term.check(&ty, &Empty, &mut NullCache, FUEL),
        Err(AnalysisError::ExpectedWrap { .. })
    ));
}

#[test]
fn invalid_wrap_is_reported() {
    let term = parse("! . *");
    assert!(matches!(
        term.infer(&Empty, &mut NullCache, FUEL),
        Err(AnalysisError::InvalidWrap { .. })
    ));
}

#[test]
fn recursion_check_fuel_is_reported() {
    let definitions = Definitions::from_source("id = \\x x\nentry = (id id)\n").unwrap();
    let entry = definitions
        .get(&"entry".to_string())
        .unwrap()
        .as_ref()
        .deep_copy();
    assert!(matches!(
        entry.stratified(&definitions, 0),
        Err(StratificationError::OutOfFuel)
    ));
}

#[test]
fn typed_term_is_refused_by_the_net() {
    let definitions = Definitions::from_source("entry = \\x *\n").unwrap();
    let term = parse("\\x *");
    let stratified = term.stratified(&definitions, FUEL).unwrap();
    assert!(matches!(
        stratified.into_net(FUEL),
        Err(NetError::TypedTerm(_))
    ));
}

#[test]
fn undefined_reference_is_refused_by_the_net() {
    let term = parse("nowhere");
    let stratified = term.stratified(&Empty, FUEL).unwrap();
    assert!(matches!(
        stratified.into_net(FUEL),
        Err(NetError::UndefinedReference(name)) if name == "nowhere"
    ));
}

#[test]
fn unbound_index_is_refused_by_the_net() {
    let term = parse("^5");
    let stratified = term.stratified(&Empty, FUEL).unwrap();
    assert!(matches!(
        stratified.into_net(FUEL),
        Err(NetError::UnboundIndex)
    ));
}

#[test]
fn malformed_input_is_a_parse_error() {
    assert!(parse_str("(").is_err());
    assert!(parse_str("").is_err());
    assert!(parse_str("\\x").is_err());
    assert!(parse_str("* *").is_err());
    assert!(parse_str("{* *}").is_err());
}
