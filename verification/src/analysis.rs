use vstd::prelude::*;

use crate::term::{Index, Term, TermView};
use crate::term::eq::{spec_equivalent, spec_equivalent_cache, EqualityCache};
use crate::term::normalize::{spec_shift, spec_subst, spec_whnf, NormalizationError};

verus! {

/// A definition looked up by name: either borrowed from the store or built
/// on demand and handed over by value.
pub enum DefinitionResult<'a, T> {
    Borrowed(&'a T),
    Owned(T),
}

impl<'a, T> DefinitionResult<'a, T> {
    /// The definition itself, whichever way it is held.
    pub open spec fn value(self) -> T {
        match self {
            DefinitionResult::Borrowed(t) => *t,
            DefinitionResult::Owned(t) => t,
        }
    }

    /// Borrow the definition, whichever way it is held.
    pub fn as_ref<'b>(&'b self) -> (r: &'b T)
        ensures
            *r == self.value(),
    {
        match self {
            DefinitionResult::Borrowed(t) => t,
            DefinitionResult::Owned(t) => t,
        }
    }
}

/// A store of untyped global definitions.
///
/// `defs` is the store's mathematical content; `get` must answer exactly
/// according to it.
pub trait Definitions {
    /// The names defined, with the term each names.
    spec fn defs(&self) -> Map<Seq<char>, TermView>;

    /// Look a name up.
    fn get(&self, name: &String) -> (r: Option<DefinitionResult<Term>>)
        ensures
            match r {
                Some(d) => self.defs().contains_key(name@) && d.value()@ == self.defs()[name@],
                None => !self.defs().contains_key(name@),
            },
    ;
}

/// A store of typed global definitions: each name carries its declared type
/// and its body.
pub trait TypedDefinitions {
    /// The names defined, each with (type, body).
    spec fn typed_defs(&self) -> Map<Seq<char>, (TermView, TermView)>;

    /// Look a name up.
    fn get_typed(&self, name: &String) -> (r: Option<DefinitionResult<(Term, Term)>>)
        ensures
            match r {
                Some(d) => self.typed_defs().contains_key(name@)
                    && d.value().0@ == self.typed_defs()[name@].0
                    && d.value().1@ == self.typed_defs()[name@].1,
                None => !self.typed_defs().contains_key(name@),
            },
    ;
}

/// The store with no definitions at all.
pub struct Empty;

impl TypedDefinitions for Empty {
    open spec fn typed_defs(&self) -> Map<Seq<char>, (TermView, TermView)> {
        Map::empty()
    }

    fn get_typed(&self, name: &String) -> (r: Option<DefinitionResult<(Term, Term)>>) {
        None
    }
}

/// The bodies of a typed store, seen as an untyped store.
pub open spec fn bodies_of(m: Map<Seq<char>, (TermView, TermView)>) -> Map<Seq<char>, TermView> {
    m.map_values(|p: (TermView, TermView)| p.1)
}

impl<D: TypedDefinitions> Definitions for D {
    open spec fn defs(&self) -> Map<Seq<char>, TermView> {
        bodies_of(self.typed_defs())
    }

    fn get(&self, name: &String) -> (r: Option<DefinitionResult<Term>>) {
        match self.get_typed(name) {
            None => None,
            Some(DefinitionResult::Borrowed(pair)) => Some(DefinitionResult::Borrowed(&pair.1)),
            Some(DefinitionResult::Owned(pair)) => Some(DefinitionResult::Owned(pair.1)),
        }
    }
}

/// Why checking or inference failed.
#[derive(Debug)]
pub enum AnalysisError {
    NormalizationError(NormalizationError),
    NonFunctionLambda { term: Term, ty: Term },
    TypeError { expected: Term, got: Term },
    ErasureMismatch { lambda: Term, ty: Term },
    UnboundReference(String),
    NonFunctionApplication(Term),
    UnboxedDuplication { term: Term, ty: Term },
    Impossible(Term),
    ExpectedWrap { term: Term, ty: Term },
    InvalidWrap { wrap: Term, got: Term },
}

/// The view of an analysis error, with term payloads as views.
pub enum AnalysisErrorView {
    NormalizationError(NormalizationError),
    NonFunctionLambda { term: TermView, ty: TermView },
    TypeError { expected: TermView, got: TermView },
    ErasureMismatch { lambda: TermView, ty: TermView },
    UnboundReference(Seq<char>),
    NonFunctionApplication(TermView),
    UnboxedDuplication { term: TermView, ty: TermView },
    Impossible(TermView),
    ExpectedWrap { term: TermView, ty: TermView },
    InvalidWrap { wrap: TermView, got: TermView },
}

/// The view of an analysis error.
pub open spec fn aerr_view(e: AnalysisError) -> AnalysisErrorView {
    match e {
        AnalysisError::NormalizationError(n) => AnalysisErrorView::NormalizationError(n),
        AnalysisError::NonFunctionLambda { term, ty } => AnalysisErrorView::NonFunctionLambda {
            term: term@,
            ty: ty@,
        },
        AnalysisError::TypeError { expected, got } => AnalysisErrorView::TypeError {
            expected: expected@,
            got: got@,
        },
        AnalysisError::ErasureMismatch { lambda, ty } => AnalysisErrorView::ErasureMismatch {
            lambda: lambda@,
            ty: ty@,
        },
        AnalysisError::UnboundReference(name) => AnalysisErrorView::UnboundReference(name@),
        AnalysisError::NonFunctionApplication(t) => AnalysisErrorView::NonFunctionApplication(t@),
        AnalysisError::UnboxedDuplication { term, ty } => AnalysisErrorView::UnboxedDuplication {
            term: term@,
            ty: ty@,
        },
        AnalysisError::Impossible(t) => AnalysisErrorView::Impossible(t@),
        AnalysisError::ExpectedWrap { term, ty } => AnalysisErrorView::ExpectedWrap {
            term: term@,
            ty: ty@,
        },
        AnalysisError::InvalidWrap { wrap, got } => AnalysisErrorView::InvalidWrap {
            wrap: wrap@,
            got: got@,
        },
    }
}

/// The typed annotation that binds a variable during checking.
pub open spec fn spec_var_annotation(i: nat, ty: TermView) -> TermView {
    TermView::Annotation {
        checked: true,
        expression: Box::new(TermView::Variable(i)),
        ty: Box::new(ty),
    }
}

/// Open a self-dependent return type: substitute the function itself at
/// index 1 and its argument at index 0; `shift` tells whether the argument
/// substitution closes over the hole.
pub open spec fn spec_open(
    return_type: TermView,
    self_ann: TermView,
    arg_ann: TermView,
    shift: bool,
) -> TermView {
    spec_subst(spec_subst(return_type, 1, spec_shift(self_ann, 0), true), 0, arg_ann, shift)
}

/// Bidirectionally check `t` against `ty`, mirroring `Term::check_in`:
/// the result and the equality cache it leaves behind.
pub open spec fn spec_check(
    t: TermView,
    ty: TermView,
    defs: Map<Seq<char>, (TermView, TermView)>,
    cache: Map<(u64, u64), bool>,
    retains: bool,
    fuel: nat,
) -> (Result<(), AnalysisErrorView>, Map<(u64, u64), bool>)
    decreases fuel, 0int,
{
    if fuel == 0 {
        (
            Err(AnalysisErrorView::NormalizationError(NormalizationError::OutOfFuel)),
            cache,
        )
    } else {
        let f1 = (fuel - 1) as nat;
        match spec_whnf(ty, bodies_of(defs), false, fuel) {
            Err(e) => (Err(AnalysisErrorView::NormalizationError(e)), cache),
            Ok(reduced) => match t {
                TermView::Lambda { erased, body } => match reduced {
                    TermView::Function {
                        erased: function_erased,
                        argument_type,
                        return_type,
                    } => if erased != function_erased {
                        (Err(AnalysisErrorView::ErasureMismatch { lambda: t, ty }), cache)
                    } else {
                        let self_ann = TermView::Annotation {
                            checked: true,
                            expression: Box::new(t),
                            ty: Box::new(ty),
                        };
                        let arg_ann = spec_var_annotation(0, *argument_type);
                        let opened = spec_open(*return_type, self_ann, arg_ann, true);
                        let body2 = spec_subst(*body, 0, arg_ann, true);
                        spec_check(body2, opened, defs, cache, retains, f1)
                    },
                    _ => (Err(AnalysisErrorView::NonFunctionLambda { term: t, ty }), cache),
                },
                TermView::Duplicate { expression, body } => match spec_infer(
                    *expression,
                    defs,
                    cache,
                    retains,
                    f1,
                ) {
                    (Err(e), c2) => (Err(e), c2),
                    (Ok(ety), c2) => match spec_whnf(ety, bodies_of(defs), false, fuel) {
                        Err(e) => (Err(AnalysisErrorView::NormalizationError(e)), c2),
                        Ok(etyr) => match etyr {
                            TermView::Wrap(inner) => {
                                let arg_ann = spec_var_annotation(0, *inner);
                                let body2 = spec_subst(*body, 0, arg_ann, true);
                                spec_check(body2, reduced, defs, c2, retains, f1)
                            },
                            _ => (
                                Err(AnalysisErrorView::UnboxedDuplication { term: t, ty: etyr }),
                                c2,
                            ),
                        },
                    },
                },
                TermView::Put(inner) => match reduced {
                    TermView::Wrap(wrapped) => spec_check(
                        *inner,
                        *wrapped,
                        defs,
                        cache,
                        retains,
                        f1,
                    ),
                    _ => (Err(AnalysisErrorView::ExpectedWrap { term: t, ty: reduced }), cache),
                },
                _ => match spec_infer(t, defs, cache, retains, f1) {
                    (Err(e), c2) => (Err(e), c2),
                    (Ok(inferred), c2) => {
                        let verdict = spec_equivalent(inferred, reduced, bodies_of(defs), c2, fuel);
                        let c3 = spec_equivalent_cache(
                            inferred,
                            reduced,
                            bodies_of(defs),
                            c2,
                            fuel,
                            retains,
                        );
                        match verdict {
                            Err(e) => (Err(AnalysisErrorView::NormalizationError(e)), c3),
                            Ok(true) => (Ok(()), c3),
                            Ok(false) => (
                                Err(
                                    AnalysisErrorView::TypeError {
                                        expected: reduced,
                                        got: inferred,
                                    },
                                ),
                                c3,
                            ),
                        }
                    },
                },
            },
        }
    }
}

/// Infer the type of `t`, mirroring `Term::infer_in`: the result and the
/// equality cache it leaves behind.
pub open spec fn spec_infer(
    t: TermView,
    defs: Map<Seq<char>, (TermView, TermView)>,
    cache: Map<(u64, u64), bool>,
    retains: bool,
    fuel: nat,
) -> (Result<TermView, AnalysisErrorView>, Map<(u64, u64), bool>)
    decreases fuel, 1int,
{
    if fuel == 0 {
        (
            Err(AnalysisErrorView::NormalizationError(NormalizationError::OutOfFuel)),
            cache,
        )
    } else {
        let f1 = (fuel - 1) as nat;
        match t {
            TermView::Universe => (Ok(TermView::Universe), cache),
            TermView::Annotation { checked, expression, ty } => if !checked {
                match spec_check(*expression, *ty, defs, cache, retains, f1) {
                    (Err(e), c2) => (Err(e), c2),
                    (Ok(_), c2) => (Ok(*ty), c2),
                }
            } else {
                (Ok(*ty), cache)
            },
            TermView::Reference(name) => if defs.contains_key(name) {
                (Ok(defs[name].0), cache)
            } else {
                (Err(AnalysisErrorView::UnboundReference(name)), cache)
            },
            TermView::Function { erased, argument_type, return_type } => {
                let self_ann = TermView::Annotation {
                    checked: true,
                    expression: Box::new(TermView::Variable(1)),
                    ty: Box::new(t),
                };
                let arg_ann = spec_var_annotation(0, *argument_type);
                match spec_check(*argument_type, TermView::Universe, defs, cache, retains, f1) {
                    (Err(e), c2) => (Err(e), c2),
                    (Ok(_), c2) => {
                        let opened = spec_open(*return_type, self_ann, arg_ann, true);
                        match spec_check(opened, TermView::Universe, defs, c2, retains, f1) {
                            (Err(e), c3) => (Err(e), c3),
                            (Ok(_), c3) => (Ok(TermView::Universe), c3),
                        }
                    },
                }
            },
            TermView::Apply { erased, function, argument } => match spec_infer(
                *function,
                defs,
                cache,
                retains,
                f1,
            ) {
                (Err(e), c2) => (Err(e), c2),
                (Ok(function_type), c2) => match spec_whnf(
                    function_type,
                    bodies_of(defs),
                    false,
                    fuel,
                ) {
                    Err(e) => (Err(AnalysisErrorView::NormalizationError(e)), c2),
                    Ok(fty) => match fty {
                        TermView::Function {
                            erased: function_erased,
                            argument_type,
                            return_type,
                        } => if erased != function_erased {
                            (Err(AnalysisErrorView::ErasureMismatch { lambda: t, ty: fty }), c2)
                        } else {
                            let self_ann = TermView::Annotation {
                                checked: true,
                                expression: function,
                                ty: Box::new(fty),
                            };
                            let arg_ann = TermView::Annotation {
                                checked: true,
                                expression: argument,
                                ty: argument_type,
                            };
                            match spec_check(*argument, *argument_type, defs, c2, retains, f1) {
                                (Err(e), c3) => (Err(e), c3),
                                (Ok(_), c3) => {
                                    let opened = spec_open(*return_type, self_ann, arg_ann, true);
                                    match spec_whnf(opened, bodies_of(defs), false, fuel) {
                                        Err(e) => (
                                            Err(AnalysisErrorView::NormalizationError(e)),
                                            c3,
                                        ),
                                        Ok(result) => (Ok(result), c3),
                                    }
                                },
                            }
                        },
                        _ => (Err(AnalysisErrorView::NonFunctionApplication(*function)), c2),
                    },
                },
            },
            TermView::Variable(_) => (Ok(t), cache),
            TermView::Wrap(expression) => match spec_infer(*expression, defs, cache, retains, f1) {
                (Err(e), c2) => (Err(e), c2),
                (Ok(ety), c2) => match ety {
                    TermView::Universe => (Ok(TermView::Universe), c2),
                    _ => (Err(AnalysisErrorView::InvalidWrap { wrap: t, got: ety }), c2),
                },
            },
            TermView::Put(expression) => match spec_infer(*expression, defs, cache, retains, f1) {
                (Err(e), c2) => (Err(e), c2),
                (Ok(ety), c2) => (Ok(TermView::Wrap(Box::new(ety))), c2),
            },
            _ => (Err(AnalysisErrorView::Impossible(t)), cache),
        }
    }
}

impl Term {
    /// Check this term against expected type `ty`, mirroring `spec_check`.
    /// `fuel` bounds the checking and reduction steps taken.
    #[verifier::rlimit(100)]
    pub fn check_in<U: TypedDefinitions, C: EqualityCache>(
        &self,
        ty: &Term,
        definitions: &U,
        cache: &mut C,
        fuel: u64,
    ) -> (r: Result<(), AnalysisError>)
        ensures
            ({
                let (sr, sc) = spec_check(
                    self@,
                    ty@,
                    definitions.typed_defs(),
                    old(cache).contents(),
                    C::retains(),
                    fuel as nat,
                );
                &&& match r {
                    Ok(_) => sr == Ok::<(), AnalysisErrorView>(()),
                    Err(e) => sr == Err::<(), AnalysisErrorView>(aerr_view(e)),
                }
                &&& final(cache).contents() == sc
            }),
        decreases fuel, 0int,
    {
        if fuel == 0 {
            return Err(AnalysisError::NormalizationError(NormalizationError::OutOfFuel));
        }
        let reduced = match ty.weak_normalize_in(definitions, fuel) {
            Ok(t) => t,
            Err(e) => {
                return Err(AnalysisError::NormalizationError(e));
            },
        };
        match self {
            Term::Lambda { body, erased } => {
                match reduced {
                    Term::Function { argument_type, return_type, erased: function_erased } => {
                        if *erased != function_erased {
                            Err(
                                AnalysisError::ErasureMismatch {
                                    lambda: self.deep_copy(),
                                    ty: ty.deep_copy(),
                                },
                            )
                        } else {
                            let self_ann = Term::Annotation {
                                checked: true,
                                expression: Box::new(self.deep_copy()),
                                ty: Box::new(ty.deep_copy()),
                            };
                            let var = Term::Variable(Index::top());
                            proof {
                                assert(var@ == TermView::Variable(0));
                            }
                            let arg_ann = Term::Annotation {
                                checked: true,
                                expression: Box::new(var),
                                ty: argument_type,
                            };
                            proof {
                                assert(self_ann@ matches TermView::Annotation { .. });
                                assert(arg_ann@ matches TermView::Annotation { .. });
                            }
                            let opened = return_type.substitute_function_in(&self_ann, &arg_ann);
                            let body2 = body.substitute_top_in(&arg_ann);
                            body2.check_in(&opened, definitions, cache, fuel - 1)
                        }
                    },
                    _ => Err(
                        AnalysisError::NonFunctionLambda {
                            term: self.deep_copy(),
                            ty: ty.deep_copy(),
                        },
                    ),
                }
            },
            Term::Duplicate { expression, body } => {
                let expression_ty = match expression.infer_in(definitions, cache, fuel - 1) {
                    Ok(t) => t,
                    Err(e) => {
                        return Err(e);
                    },
                };
                let expression_ty = match expression_ty.weak_normalize_in(definitions, fuel) {
                    Ok(t) => t,
                    Err(e) => {
                        return Err(AnalysisError::NormalizationError(e));
                    },
                };
                match expression_ty {
                    Term::Wrap(inner) => {
                        let var = Term::Variable(Index::top());
                        proof {
                            assert(var@ == TermView::Variable(0));
                        }
                        let arg_ann = Term::Annotation {
                            checked: true,
                            expression: Box::new(var),
                            ty: inner,
                        };
                        proof {
                            assert(arg_ann@ matches TermView::Annotation { .. });
                        }
                        let body2 = body.substitute_top_in(&arg_ann);
                        body2.check_in(&reduced, definitions, cache, fuel - 1)
                    },
                    other => Err(
                        AnalysisError::UnboxedDuplication { term: self.deep_copy(), ty: other },
                    ),
                }
            },
            Term::Put(inner) => {
                match reduced {
                    Term::Wrap(wrapped) => inner.check_in(&wrapped, definitions, cache, fuel - 1),
                    other => Err(
                        AnalysisError::ExpectedWrap { term: self.deep_copy(), ty: other },
                    ),
                }
            },
            _ => {
                let inferred = match self.infer_in(definitions, cache, fuel - 1) {
                    Ok(t) => t,
                    Err(e) => {
                        return Err(e);
                    },
                };
                let verdict = match inferred.equivalent_in(&reduced, definitions, cache, fuel) {
                    Ok(v) => v,
                    Err(e) => {
                        return Err(AnalysisError::NormalizationError(e));
                    },
                };
                if verdict {
                    Ok(())
                } else {
                    Err(AnalysisError::TypeError { expected: reduced, got: inferred })
                }
            },
        }
    }

    /// Infer this term's type, mirroring `spec_infer`.  `fuel` bounds the
    /// checking and reduction steps taken.
    #[verifier::rlimit(100)]
    pub fn infer_in<U: TypedDefinitions, C: EqualityCache>(
        &self,
        definitions: &U,
        cache: &mut C,
        fuel: u64,
    ) -> (r: Result<Term, AnalysisError>)
        ensures
            ({
                let (sr, sc) = spec_infer(
                    self@,
                    definitions.typed_defs(),
                    old(cache).contents(),
                    C::retains(),
                    fuel as nat,
                );
                &&& match r {
                    Ok(t) => sr == Ok::<TermView, AnalysisErrorView>(t@),
                    Err(e) => sr == Err::<TermView, AnalysisErrorView>(aerr_view(e)),
                }
                &&& final(cache).contents() == sc
            }),
        decreases fuel, 1int,
    {
        if fuel == 0 {
            return Err(AnalysisError::NormalizationError(NormalizationError::OutOfFuel));
        }
        match self {
            Term::Universe => Ok(Term::Universe),
            Term::Annotation { checked, expression, ty } => {
                if !*checked {
                    match expression.check_in(ty, definitions, cache, fuel - 1) {
                        Ok(_) => Ok(ty.deep_copy()),
                        Err(e) => Err(e),
                    }
                } else {
                    Ok(ty.deep_copy())
                }
            },
            Term::Reference(name) => {
                match definitions.get_typed(name) {
                    Some(dr) => Ok(dr.as_ref().0.deep_copy()),
                    None => Err(AnalysisError::UnboundReference(name.clone())),
                }
            },
            Term::Function { argument_type, return_type, erased } => {
                let var1 = Term::Variable(Index::top().child());
                proof {
                    assert(var1@ == TermView::Variable(1));
                }
                let self_ann = Term::Annotation {
                    checked: true,
                    expression: Box::new(var1),
                    ty: Box::new(self.deep_copy()),
                };
                let var0 = Term::Variable(Index::top());
                proof {
                    assert(var0@ == TermView::Variable(0));
                }
                let arg_ann = Term::Annotation {
                    checked: true,
                    expression: Box::new(var0),
                    ty: Box::new(argument_type.deep_copy()),
                };
                proof {
                    assert(self_ann@ matches TermView::Annotation { .. });
                    assert(arg_ann@ matches TermView::Annotation { .. });
                }
                let universe = Term::Universe;
                match argument_type.check_in(&universe, definitions, cache, fuel - 1) {
                    Ok(_) => {},
                    Err(e) => {
                        return Err(e);
                    },
                }
                let opened = return_type.substitute_function_in(&self_ann, &arg_ann);
                match opened.check_in(&universe, definitions, cache, fuel - 1) {
                    Ok(_) => Ok(Term::Universe),
                    Err(e) => Err(e),
                }
            },
            Term::Apply { function, argument, erased } => {
                let function_type = match function.infer_in(definitions, cache, fuel - 1) {
                    Ok(t) => t,
                    Err(e) => {
                        return Err(e);
                    },
                };
                let function_type = match function_type.weak_normalize_in(definitions, fuel) {
                    Ok(t) => t,
                    Err(e) => {
                        return Err(AnalysisError::NormalizationError(e));
                    },
                };
                match &function_type {
                    Term::Function { argument_type, return_type, erased: function_erased } => {
                        if *erased != *function_erased {
                            return Err(
                                AnalysisError::ErasureMismatch {
                                    lambda: self.deep_copy(),
                                    ty: function_type.deep_copy(),
                                },
                            );
                        }
                        let self_ann = Term::Annotation {
                            checked: true,
                            expression: Box::new(function.deep_copy()),
                            ty: Box::new(function_type.deep_copy()),
                        };
                        let arg_ann = Term::Annotation {
                            checked: true,
                            expression: Box::new(argument.deep_copy()),
                            ty: Box::new(argument_type.deep_copy()),
                        };
                        proof {
                            assert(self_ann@ matches TermView::Annotation { .. });
                            assert(arg_ann@ matches TermView::Annotation { .. });
                        }
                        match argument.check_in(argument_type, definitions, cache, fuel - 1) {
                            Ok(_) => {},
                            Err(e) => {
                                return Err(e);
                            },
                        }
                        let opened = return_type.substitute_function_in(&self_ann, &arg_ann);
                        match opened.weak_normalize_in(definitions, fuel) {
                            Ok(t) => Ok(t),
                            Err(e) => Err(AnalysisError::NormalizationError(e)),
                        }
                    },
                    _ => Err(AnalysisError::NonFunctionApplication(function.deep_copy())),
                }
            },
            Term::Variable(_) => Ok(self.deep_copy()),
            Term::Wrap(expression) => {
                let expression_ty = match expression.infer_in(definitions, cache, fuel - 1) {
                    Ok(t) => t,
                    Err(e) => {
                        return Err(e);
                    },
                };
                match expression_ty {
                    Term::Universe => Ok(Term::Universe),
                    other => {
                        proof {
                            crate::term::eq::lemma_view_shape(other);
                        }
                        Err(AnalysisError::InvalidWrap { wrap: self.deep_copy(), got: other })
                    },
                }
            },
            Term::Put(expression) => {
                match expression.infer_in(definitions, cache, fuel - 1) {
                    Ok(t) => Ok(Term::Wrap(Box::new(t))),
                    Err(e) => Err(e),
                }
            },
            _ => Err(AnalysisError::Impossible(self.deep_copy())),
        }
    }

    /// Check this term against expected type `ty`.
    pub fn check<U: TypedDefinitions, C: EqualityCache>(
        &self,
        ty: &Term,
        definitions: &U,
        cache: &mut C,
        fuel: u64,
    ) -> (r: Result<(), AnalysisError>)
        ensures
            ({
                let (sr, sc) = spec_check(
                    self@,
                    ty@,
                    definitions.typed_defs(),
                    old(cache).contents(),
                    C::retains(),
                    fuel as nat,
                );
                &&& match r {
                    Ok(_) => sr == Ok::<(), AnalysisErrorView>(()),
                    Err(e) => sr == Err::<(), AnalysisErrorView>(aerr_view(e)),
                }
                &&& final(cache).contents() == sc
            }),
    {
        self.check_in(ty, definitions, cache, fuel)
    }

    /// Infer this term's type and strip the annotations inference left
    /// behind.
    pub fn infer<U: TypedDefinitions, C: EqualityCache>(
        &self,
        definitions: &U,
        cache: &mut C,
        fuel: u64,
    ) -> (r: Result<Term, AnalysisError>)
        ensures
            ({
                let (sr, sc) = spec_infer(
                    self@,
                    definitions.typed_defs(),
                    old(cache).contents(),
                    C::retains(),
                    fuel as nat,
                );
                &&& match r {
                    Ok(t) => sr matches Ok(tv) && t@ == crate::term::normalize::spec_extract(tv),
                    Err(e) => sr == Err::<TermView, AnalysisErrorView>(aerr_view(e)),
                }
                &&& final(cache).contents() == sc
            }),
    {
        match self.infer_in(definitions, cache, fuel) {
            Ok(t) => Ok(t.extract_from_annotation()),
            Err(e) => Err(e),
        }
    }
}

} // verus!