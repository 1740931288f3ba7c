use welkin_core::analysis::{Definitions as _, AnalysisError, Empty};
use welkin_core::net::Index as NetIndex;
use welkin_core::term::eq::{MapCache, NullCache};
use welkin_core::term::normalize::NormalizationError;
use welkin_core::term::parse::typed;
use welkin_core::term::parse::untyped;
use welkin_core::term::parse::parse_str;
use welkin_core::term::stratified::StratificationError;
use welkin_core::term::{Index, Term};

const FUEL: u64 = 1_000_000;

fn parse(s: &str) -> Term {
    parse_str(s.trim()).unwrap()
}

#[test]
fn identity_on_identity() {
    let definitions = untyped::Definitions::from_source(
        "
id    = \\x x
entry = (id id)
",
    )
    .unwrap();
    let entry = definitions
        .get(&"entry".to_string())
        .unwrap()
        .as_ref()
        .deep_copy();
    let normalized = entry.normalize(&definitions, FUEL).unwrap();
    assert!(normalized.equals(&parse("\\x x")));
}

#[test]
fn double_negation_of_true() {
    let definitions = untyped::Definitions::from_source(
        "
true  = \\t \\f t
false = \\t \\f f
not   = \\a \\t \\f (a f t)
entry = (not (not true))
",
    )
    .unwrap();
    let entry = definitions
        .get(&"entry".to_string())
        .unwrap()
        .as_ref()
        .deep_copy();
    let normalized = entry.normalize(&definitions, FUEL).unwrap();
    let truth = definitions
        .get(&"true".to_string())
        .unwrap()
        .as_ref()
        .deep_copy();
    assert!(normalized
        .equivalent(&truth, &definitions, &mut NullCache, FUEL)
        .unwrap());
}

#[test]
fn church_duplication() {
    let definitions = untyped::Definitions::from_source(
        "
id    = \\x x
entry =
  : Id = . id
  . (Id (Id Id))
",
    )
    .unwrap();
    let entry = definitions
        .get(&"entry".to_string())
        .unwrap()
        .as_ref()
        .deep_copy();
    let normalized = entry.normalize(&definitions, FUEL).unwrap();
    assert!(normalized.equals(&parse("\\x x")));
}

#[test]
fn self_dependent_unit_check() {
    let definitions = typed::Definitions::from_source(
        "
Unit : * = _unit,prop: +,:Unit * +,:(prop /prop \\x x) (prop unit)
",
    )
    .unwrap();
    let body = definitions.terms[0].1 .1.deep_copy();
    let universe = Term::Universe;
    body.check(&universe, &definitions, &mut NullCache, FUEL)
        .unwrap();
}

#[test]
fn stratification_rejects_duplicate_use() {
    let term = parse("\\x (^0 ^0)");
    assert!(matches!(
        term.is_stratified(),
        Err(StratificationError::MultiplicityMismatch)
    ));
}

#[test]
fn stratification_box_levels() {
    let boxed_use = parse("\\x . ^0");
    assert!(matches!(
        boxed_use.is_stratified(),
        Err(StratificationError::AffineUsedInBox)
    ));

    let unboxed_dup = parse(": x = . ^1 (^0 ^0)");
    assert!(matches!(
        unboxed_dup.is_stratified(),
        Err(StratificationError::DupNonUnitBoxMultiplicity)
    ));

    let good = parse(": x = . ^1 . (^0 ^0)");
    assert!(good.is_stratified().is_ok());
}

#[test]
fn net_round_trip_church_two() {
    let definitions = untyped::Definitions::from_source(
        "
succ = \\x \\x
    : X = ^0
    : X = (^2 . ^0)
    . \\x (^2 (^1 ^0))
zero = \\x . \\x ^0
entry = (succ (succ zero))
",
    )
    .unwrap();
    let entry = definitions
        .get(&"entry".to_string())
        .unwrap()
        .as_ref()
        .deep_copy();
    let normalized = entry.normalize(&definitions, FUEL).unwrap();
    let stratified = entry.stratified(&definitions, FUEL).unwrap();
    let mut net = stratified.into_net(FUEL).unwrap();
    net.reduce_all();
    let boundary = net.get(NetIndex(0)).ports().principal;
    let read = net.read_term(boundary, FUEL).unwrap();
    assert!(normalized.equals(&read));
}

#[test]
fn rewriter_drains_active_pairs() {
    let definitions = untyped::Definitions::from_source("entry = (\\x x \\y y)\n").unwrap();
    let entry = definitions
        .get(&"entry".to_string())
        .unwrap()
        .as_ref()
        .deep_copy();
    let stratified = entry.stratified(&definitions, FUEL).unwrap();
    let mut net = stratified.into_net(FUEL).unwrap();
    let count = net.reduce_all();
    assert!(count > 0);
    assert_eq!(net.reduce_all(), 0);
}

#[test]
fn rewriter_bounded_execution() {
    let definitions = untyped::Definitions::from_source("entry = (\\x x \\y y)\n").unwrap();
    let entry = definitions
        .get(&"entry".to_string())
        .unwrap()
        .as_ref()
        .deep_copy();
    let stratified = entry.stratified(&definitions, FUEL).unwrap();
    let mut net = stratified.into_net(FUEL).unwrap();
    assert_eq!(net.reduce(Some(1)), 1);
}

#[test]
fn check_against_inferred_type() {
    let cases = ["*", ". *", "! *", "+,:* *"];
    for source in cases {
        let term = parse(source);
        let ty = term.infer(&Empty, &mut NullCache, FUEL).unwrap();
        term.check(&ty, &Empty, &mut NullCache, FUEL).unwrap();
    }
}

#[test]
fn normalize_is_idempotent_on_examples() {
    let cases = ["(\\x ^0 \\y ^0)", "\\x ^0", ": X = . \\x ^0 . (^0 *)"];
    for source in cases {
        let term = parse(source);
        let once = term.normalize(&Empty, FUEL).unwrap();
        let twice = once.normalize(&Empty, FUEL).unwrap();
        assert!(once.equals(&twice));
    }
}

#[test]
fn equivalence_commutes_with_normalization() {
    let t = parse("(\\x ^0 \\y ^0)");
    let u = parse("\\y ^0");
    let direct = t.equivalent(&u, &Empty, &mut NullCache, FUEL).unwrap();
    let tn = t.normalize(&Empty, FUEL).unwrap();
    let un = u.normalize(&Empty, FUEL).unwrap();
    let after = tn.equivalent(&un, &Empty, &mut NullCache, FUEL).unwrap();
    assert_eq!(direct, after);
    assert!(direct);
}

#[test]
fn stratified_terms_normalize() {
    let cases = ["\\x ^0", ": X = . \\x ^0 . (^0 ^0)", "(\\x ^0 \\y ^0)"];
    for source in cases {
        let term = parse(source);
        term.is_stratified().unwrap();
        term.normalize(&Empty, FUEL).unwrap();
    }
}

#[test]
fn shift_then_substitute_recovers() {
    let cases = ["(^0 ^1)", "\\x (^0 ^2)", ". (^1 \\x ^0)"];
    let value = parse("\\x ^0");
    for source in cases {
        let term = parse(source);
        let shifted = term.shift(Index(1));
        let recovered = shifted.substitute(Index(1), &value);
        assert!(recovered.equals(&term));
    }
}

#[test]
fn substitute_top_identity() {
    let value = parse("(\\x ^0 *)");
    let hole = Term::Variable(Index::top());
    let result = hole.substitute_top(&value);
    assert!(result.equals(&value));
}

#[test]
fn weak_head_commutes_with_extraction() {
    let annotated = parse("{(\\x ^0 *) : *}");
    let plain = parse("(\\x ^0 *)");
    let via_extraction = annotated
        .deep_copy()
        .extract_from_annotation()
        .weak_normalize(&Empty, FUEL)
        .unwrap();
    let direct = annotated.weak_normalize(&Empty, FUEL).unwrap();
    let expected = plain.weak_normalize(&Empty, FUEL).unwrap();
    assert!(via_extraction.equals(&direct));
    assert!(direct.equals(&expected));
}

#[test]
fn invalid_application_is_reported() {
    let term = parse("(. * *)");
    assert!(matches!(
        term.weak_normalize(&Empty, FUEL),
        Err(NormalizationError::InvalidApplication)
    ));
}

#[test]
fn fuel_exhaustion_is_reported() {
    let term = parse("(\\x ^0 \\y ^0)");
    assert!(matches!(
        term.normalize(&Empty, 0),
        Err(NormalizationError::OutOfFuel)
    ));
}

#[test]
fn unbound_reference_is_reported() {
    let term = parse("missing");
    assert!(matches!(
        term.infer(&Empty, &mut NullCache, FUEL),
        Err(AnalysisError::UnboundReference(name)) if name == "missing"
    ));
}

#[test]
fn non_function_lambda_is_reported() {
    let term = parse("\\x ^0");
    let universe = Term::Universe;
    assert!(matches!(
        term.check(&universe, &Empty, &mut NullCache, FUEL),
        Err(AnalysisError::NonFunctionLambda { .. })
    ));
}

#[test]
fn type_error_is_reported() {
    let term = Term::Universe;
    let ty = parse("+,:* *");
    assert!(matches!(
        term.check(&ty, &Empty, &mut NullCache, FUEL),
        Err(AnalysisError::TypeError { .. })
    ));
}

#[test]
fn map_cache_agrees_with_null_cache() {
    let t = parse("(\\x ^0 \\y ^0)");
    let u = parse("\\y ^0");
    let with_null = t.equivalent(&u, &Empty, &mut NullCache, FUEL).unwrap();
    let mut cache = MapCache::new();
    let first = t.equivalent(&u, &Empty, &mut cache, FUEL).unwrap();
    let second = t.equivalent(&u, &Empty, &mut cache, FUEL).unwrap();
    assert_eq!(with_null, first);
    assert_eq!(first, second);
}

#[test]
fn hash_code_is_structural() {
    let a = parse("\\x (^0 name)");
    let b = parse("\\x (^0 name)");
    let c = parse("\\x (^0 other)");
    assert_eq!(a.hash_code(), b.hash_code());
    assert_ne!(a.hash_code(), c.hash_code());
    assert!(a.equals(&b));
    assert!(!a.equals(&c));
}

#[test]
fn erased_structure_vanishes_in_normal_forms() {
    let term = parse("[/t \\x ^0 *]");
    let normalized = term.normalize(&Empty, FUEL).unwrap();
    assert!(normalized.equals(&parse("\\x ^0")));
}

#[test]
fn is_sound_accepts_what_stratification_rejects() {
    let term = parse("\\x (^0 ^0)");
    assert!(term.is_sound().is_ok());
    assert!(term.is_stratified().is_err());

    let erased_use = parse("/x ^0");
    assert!(matches!(
        erased_use.is_sound(),
        Err(StratificationError::MultiplicityMismatch)
    ));
}

#[test]
fn recursive_definitions_are_rejected() {
    let definitions = untyped::Definitions::from_source(
        "
loop = (loop loop)
entry = loop
",
    )
    .unwrap();
    let entry = definitions
        .get(&"entry".to_string())
        .unwrap()
        .as_ref()
        .deep_copy();
    assert!(matches!(
        entry.stratified(&definitions, FUEL),
        Err(StratificationError::RecursiveDefinition)
    ));
}

#[test]
fn references_can_be_rewritten() {
    let term = parse("(\\x ^0 name)");
    let mapped = term.map_reference(&|_n: String| Term::Universe);
    assert!(mapped.equals(&parse("(\\x ^0 *)")));

    let term = parse("(\\x ^0 name)");
    let failed: Result<Term, u32> = term.try_map_reference(&|_n: String| Err(7u32));
    assert!(matches!(failed, Err(7)));
}

#[test]
fn stratified_wrapper_normalizes_in_place() {
    let definitions = untyped::Definitions::from_source("id = \\x x\nentry = (id id)\n").unwrap();
    let entry = definitions
        .get(&"entry".to_string())
        .unwrap()
        .as_ref()
        .deep_copy();
    let mut stratified = entry.stratified(&definitions, FUEL).unwrap();
    stratified.normalize(FUEL).unwrap();
    assert!(stratified.into_inner().equals(&parse("\\x x")));
}

#[test]
fn function_opening_substitutes_both_binders() {
    let return_type = parse("(^1 ^0)");
    let own = parse("s");
    let argument = parse("a");
    let opened = return_type.substitute_function_in(&own, &argument);
    assert!(opened.equals(&parse("(s a)")));
}
