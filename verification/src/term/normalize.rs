use vstd::prelude::*;

use crate::analysis::Definitions;
use crate::term::{bump, Index, Term, TermView};

verus! {

/// Why reduction stopped short of a value.
///
/// `OutOfFuel` reports that the caller's step bound ran out before the term
/// reached its result; the two other cases are genuinely stuck terms.
#[derive(Debug, Clone, Copy, PartialEq, Eq, Structural)]
pub enum NormalizationError {
    InvalidDuplication,
    InvalidApplication,
    OutOfFuel,
}

/// The view of a reduction outcome.
pub open spec fn res_view(r: Result<Term, NormalizationError>) -> Result<
    TermView,
    NormalizationError,
> {
    match r {
        Ok(t) => Ok(t@),
        Err(e) => Err(e),
    }
}

/// Increment every free index at or above `c` in `t`, saturating at the
/// machine limit as `bump` does.
pub open spec fn spec_shift(t: TermView, c: nat) -> TermView
    decreases t,
{
    match t {
        TermView::Variable(i) => TermView::Variable(
            if i >= c {
                bump(i)
            } else {
                i
            },
        ),
        TermView::Lambda { erased, body } => TermView::Lambda {
            erased,
            body: Box::new(spec_shift(*body, bump(c))),
        },
        TermView::Apply { erased, function, argument } => TermView::Apply {
            erased,
            function: Box::new(spec_shift(*function, c)),
            argument: Box::new(spec_shift(*argument, c)),
        },
        TermView::Put(inner) => TermView::Put(Box::new(spec_shift(*inner, c))),
        TermView::Duplicate { expression, body } => TermView::Duplicate {
            expression: Box::new(spec_shift(*expression, c)),
            body: Box::new(spec_shift(*body, bump(c))),
        },
        TermView::Reference(name) => TermView::Reference(name),
        TermView::Universe => TermView::Universe,
        TermView::Function { erased, argument_type, return_type } => TermView::Function {
            erased,
            argument_type: Box::new(spec_shift(*argument_type, c)),
            return_type: Box::new(spec_shift(*return_type, bump(bump(c)))),
        },
        TermView::Annotation { checked, expression, ty } => TermView::Annotation {
            checked,
            expression: Box::new(spec_shift(*expression, c)),
            ty: Box::new(spec_shift(*ty, c)),
        },
        TermView::Wrap(inner) => TermView::Wrap(Box::new(spec_shift(*inner, c))),
    }
}

/// Replace index `v` in `t` by `s`.  When `shift` holds, free indices above
/// `v` close over the hole and drop by one.  Descending under a binder
/// shifts `s` and raises `v`.
pub open spec fn spec_subst(t: TermView, v: nat, s: TermView, shift: bool) -> TermView
    decreases t,
{
    match t {
        TermView::Variable(i) => if i == v {
            s
        } else if i > v && shift {
            TermView::Variable((i - 1) as nat)
        } else {
            TermView::Variable(i)
        },
        TermView::Lambda { erased, body } => TermView::Lambda {
            erased,
            body: Box::new(spec_subst(*body, bump(v), spec_shift(s, 0), shift)),
        },
        TermView::Apply { erased, function, argument } => TermView::Apply {
            erased,
            function: Box::new(spec_subst(*function, v, s, shift)),
            argument: Box::new(spec_subst(*argument, v, s, shift)),
        },
        TermView::Put(inner) => TermView::Put(Box::new(spec_subst(*inner, v, s, shift))),
        TermView::Duplicate { expression, body } => TermView::Duplicate {
            expression: Box::new(spec_subst(*expression, v, s, shift)),
            body: Box::new(spec_subst(*body, bump(v), spec_shift(s, 0), shift)),
        },
        TermView::Reference(name) => TermView::Reference(name),
        TermView::Universe => TermView::Universe,
        TermView::Function { erased, argument_type, return_type } => TermView::Function {
            erased,
            argument_type: Box::new(spec_subst(*argument_type, v, s, shift)),
            return_type: Box::new(
                spec_subst(*return_type, bump(bump(v)), spec_shift(spec_shift(s, 0), 0), shift),
            ),
        },
        TermView::Annotation { checked, expression, ty } => TermView::Annotation {
            checked,
            expression: Box::new(spec_subst(*expression, v, s, shift)),
            ty: Box::new(spec_subst(*ty, v, s, shift)),
        },
        TermView::Wrap(inner) => TermView::Wrap(Box::new(spec_subst(*inner, v, s, shift))),
    }
}

impl Term {
    /// Increment every free index at or above `replaced` by one.
    pub fn shift(&self, replaced: Index) -> (r: Term)
        ensures
            r@ == spec_shift(self@, replaced.0 as nat),
        decreases self,
    {
        match self {
            Term::Variable(index) => {
                if !index.is_below(replaced) {
                    Term::Variable(index.child())
                } else {
                    Term::Variable(*index)
                }
            },
            Term::Lambda { body, erased } => Term::Lambda {
                body: Box::new(body.shift(replaced.child())),
                erased: *erased,
            },
            Term::Apply { function, argument, erased } => Term::Apply {
                function: Box::new(function.shift(replaced)),
                argument: Box::new(argument.shift(replaced)),
                erased: *erased,
            },
            Term::Put(inner) => Term::Put(Box::new(inner.shift(replaced))),
            Term::Duplicate { expression, body } => Term::Duplicate {
                expression: Box::new(expression.shift(replaced)),
                body: Box::new(body.shift(replaced.child())),
            },
            Term::Reference(name) => Term::Reference(name.clone()),
            Term::Universe => Term::Universe,
            Term::Function { argument_type, return_type, erased } => Term::Function {
                argument_type: Box::new(argument_type.shift(replaced)),
                return_type: Box::new(return_type.shift(replaced.child().child())),
                erased: *erased,
            },
            Term::Annotation { checked, expression, ty } => Term::Annotation {
                checked: *checked,
                expression: Box::new(expression.shift(replaced)),
                ty: Box::new(ty.shift(replaced)),
            },
            Term::Wrap(inner) => Term::Wrap(Box::new(inner.shift(replaced))),
        }
    }

    /// Shift at the innermost threshold.
    pub fn shift_top(&self) -> (r: Term)
        ensures
            r@ == spec_shift(self@, 0),
    {
        self.shift(Index::top())
    }

    /// Substitute `term` for index `variable`; `shift` tells whether indices
    /// above the hole close over it.
    pub fn substitute_in(&self, variable: Index, term: &Term, shift: bool) -> (r: Term)
        ensures
            r@ == spec_subst(self@, variable.0 as nat, term@, shift),
        decreases self,
    {
        match self {
            Term::Variable(idx) => {
                if variable == *idx {
                    term.deep_copy()
                } else if idx.is_above(variable) && shift {
                    Term::Variable(idx.parent())
                } else {
                    Term::Variable(*idx)
                }
            },
            Term::Lambda { body, erased } => {
                let shifted = term.shift_top();
                Term::Lambda {
                    body: Box::new(body.substitute_in(variable.child(), &shifted, shift)),
                    erased: *erased,
                }
            },
            Term::Apply { function, argument, erased } => Term::Apply {
                function: Box::new(function.substitute_in(variable, term, shift)),
                argument: Box::new(argument.substitute_in(variable, term, shift)),
                erased: *erased,
            },
            Term::Put(inner) => Term::Put(Box::new(inner.substitute_in(variable, term, shift))),
            Term::Duplicate { expression, body } => {
                let shifted = term.shift_top();
                Term::Duplicate {
                    expression: Box::new(expression.substitute_in(variable, term, shift)),
                    body: Box::new(body.substitute_in(variable.child(), &shifted, shift)),
                }
            },
            Term::Reference(name) => Term::Reference(name.clone()),
            Term::Universe => Term::Universe,
            Term::Function { argument_type, return_type, erased } => {
                let shifted = term.shift_top().shift_top();
                Term::Function {
                    argument_type: Box::new(argument_type.substitute_in(variable, term, shift)),
                    return_type: Box::new(
                        return_type.substitute_in(variable.child().child(), &shifted, shift),
                    ),
                    erased: *erased,
                }
            },
            Term::Annotation { checked, expression, ty } => Term::Annotation {
                checked: *checked,
                expression: Box::new(expression.substitute_in(variable, term, shift)),
                ty: Box::new(ty.substitute_in(variable, term, shift)),
            },
            Term::Wrap(inner) => Term::Wrap(Box::new(inner.substitute_in(variable, term, shift))),
        }
    }

    /// Substitute for the innermost index, closing over the hole.
    pub fn substitute_top_in(&self, term: &Term) -> (r: Term)
        ensures
            r@ == spec_subst(self@, 0, term@, true),
    {
        self.substitute_in(Index::top(), term, true)
    }

    /// Substitute for the innermost index without closing over the hole.
    pub fn substitute_top_in_unshifted(&self, term: &Term) -> (r: Term)
        ensures
            r@ == spec_subst(self@, 0, term@, false),
    {
        self.substitute_in(Index::top(), term, false)
    }

    /// Open the return type of a self-dependent function: bind the function
    /// itself at index 1 and its argument at index 0.
    pub fn substitute_function_in(&self, self_binding: &Term, argument_binding: &Term) -> (r: Term)
        ensures
            r@ == spec_subst(
                spec_subst(self@, 1, spec_shift(self_binding@, 0), true),
                0,
                argument_binding@,
                true,
            ),
    {
        let shifted = self_binding.shift_top();
        let opened = self.substitute_in(Index::top().child(), &shifted, true);
        opened.substitute_in(Index::top(), argument_binding, true)
    }

    /// As `substitute_function_in`, but the argument substitution leaves the
    /// hole open.
    pub fn substitute_function_in_unshifted(
        &self,
        self_binding: &Term,
        argument_binding: &Term,
    ) -> (r: Term)
        ensures
            r@ == spec_subst(
                spec_subst(self@, 1, spec_shift(self_binding@, 0), true),
                0,
                argument_binding@,
                false,
            ),
    {
        let shifted = self_binding.shift_top();
        let opened = self.substitute_in(Index::top().child(), &shifted, true);
        opened.substitute_in(Index::top(), argument_binding, false)
    }

    /// Substitute `term` for `variable`, closing over the hole.
    pub fn substitute(&self, variable: Index, term: &Term) -> (r: Term)
        ensures
            r@ == spec_subst(self@, variable.0 as nat, term@, true),
    {
        self.substitute_in(variable, term, true)
    }

    /// Substitute for the innermost index, closing over the hole.
    pub fn substitute_top(&self, term: &Term) -> (r: Term)
        ensures
            r@ == spec_subst(self@, 0, term@, true),
    {
        self.substitute_top_in(term)
    }

    /// Strip outer annotations, yielding the underlying expression.
    pub fn extract_from_annotation(self) -> (r: Term)
        ensures
            r@ == spec_extract(self@),
        decreases self,
    {
        match self {
            Term::Annotation { expression, .. } => (*expression).extract_from_annotation(),
            other => other,
        }
    }
}

/// Strip outer annotations.
pub open spec fn spec_extract(t: TermView) -> TermView
    decreases t,
{
    match t {
        TermView::Annotation { expression, .. } => spec_extract(*expression),
        _ => t,
    }
}

/// Weak-head reduction: reduce the outermost redex until the head is a
/// value.  With `erase`, boxes are invisible: `Put` is stripped and
/// `Duplicate` substitutes its expression directly.  `fuel` bounds the
/// non-structural steps (definition expansion and work on freshly built
/// terms); when it runs out the answer is `Err(OutOfFuel)`.
pub open spec fn spec_whnf(
    t: TermView,
    defs: Map<Seq<char>, TermView>,
    erase: bool,
    fuel: nat,
) -> Result<TermView, NormalizationError>
    decreases fuel, t,
{
    match t {
        TermView::Reference(name) => if defs.contains_key(name) {
            if fuel == 0 {
                Err(NormalizationError::OutOfFuel)
            } else {
                spec_whnf(defs[name], defs, erase, (fuel - 1) as nat)
            }
        } else {
            t_ok(t)
        },
        TermView::Apply { function, argument, erased } => match spec_whnf(
            *function,
            defs,
            erase,
            fuel,
        ) {
            Err(e) => Err(e),
            Ok(f) => match f {
                TermView::Put(_) => Err(NormalizationError::InvalidApplication),
                TermView::Duplicate { expression, body } => t_ok(
                    TermView::Duplicate {
                        expression,
                        body: Box::new(
                            TermView::Apply {
                                function: body,
                                argument: Box::new(spec_shift(*argument, 0)),
                                erased,
                            },
                        ),
                    },
                ),
                TermView::Lambda { body, .. } => if fuel == 0 {
                    Err(NormalizationError::OutOfFuel)
                } else {
                    spec_whnf(spec_subst(*body, 0, *argument, true), defs, erase, (fuel - 1) as nat)
                },
                _ => t_ok(TermView::Apply { function: Box::new(f), argument, erased }),
            },
        },
        TermView::Put(inner) => if erase {
            spec_whnf(*inner, defs, erase, fuel)
        } else {
            t_ok(t)
        },
        TermView::Duplicate { expression, body } => if erase {
            if fuel == 0 {
                Err(NormalizationError::OutOfFuel)
            } else {
                spec_whnf(spec_subst(*body, 0, *expression, true), defs, erase, (fuel - 1) as nat)
            }
        } else {
            match spec_whnf(*expression, defs, erase, fuel) {
                Err(e) => Err(e),
                Ok(e) => match e {
                    TermView::Put(inner) => if fuel == 0 {
                        Err(NormalizationError::OutOfFuel)
                    } else {
                        spec_whnf(
                            spec_subst(*body, 0, *inner, true),
                            defs,
                            erase,
                            (fuel - 1) as nat,
                        )
                    },
                    TermView::Duplicate { expression: sub_expression, body: sub_body } => t_ok(
                        TermView::Duplicate {
                            expression: sub_expression,
                            body: Box::new(
                                TermView::Duplicate {
                                    expression: sub_body,
                                    body: Box::new(spec_shift(*body, 1)),
                                },
                            ),
                        },
                    ),
                    _ => t_ok(TermView::Duplicate { expression: Box::new(e), body }),
                },
            }
        },
        TermView::Annotation { expression, .. } => spec_whnf(*expression, defs, erase, fuel),
        _ => t_ok(t),
    }
}

/// A successful reduction outcome.
pub open spec fn t_ok(t: TermView) -> Result<TermView, NormalizationError> {
    Ok(t)
}

/// Full normalization: weak-head steps plus recursive normalization under
/// values, with erased structure removed: erased lambdas drop their binder,
/// erased applications drop their argument, boxes are dissolved.
pub open spec fn spec_normalize(
    t: TermView,
    defs: Map<Seq<char>, TermView>,
    fuel: nat,
) -> Result<TermView, NormalizationError>
    decreases fuel, t,
{
    match t {
        TermView::Reference(name) => if defs.contains_key(name) {
            if fuel == 0 {
                Err(NormalizationError::OutOfFuel)
            } else {
                spec_normalize(defs[name], defs, (fuel - 1) as nat)
            }
        } else {
            t_ok(t)
        },
        TermView::Lambda { body, erased } => match spec_normalize(*body, defs, fuel) {
            Err(e) => Err(e),
            Ok(b) => if erased {
                t_ok(spec_subst(b, 0, TermView::Variable(0), true))
            } else {
                t_ok(TermView::Lambda { erased, body: Box::new(b) })
            },
        },
        TermView::Put(inner) => spec_normalize(*inner, defs, fuel),
        TermView::Duplicate { expression, body } => if fuel == 0 {
            Err(NormalizationError::OutOfFuel)
        } else {
            spec_normalize(spec_subst(*body, 0, *expression, true), defs, (fuel - 1) as nat)
        },
        TermView::Apply { function, argument, erased } => match spec_normalize(
            *function,
            defs,
            fuel,
        ) {
            Err(e) => Err(e),
            Ok(f) => if erased {
                t_ok(f)
            } else {
                match f {
                    TermView::Put(_) => Err(NormalizationError::InvalidApplication),
                    TermView::Lambda { body, .. } => if fuel == 0 {
                        Err(NormalizationError::OutOfFuel)
                    } else {
                        spec_normalize(
                            spec_subst(*body, 0, *argument, true),
                            defs,
                            (fuel - 1) as nat,
                        )
                    },
                    _ => match spec_normalize(*argument, defs, fuel) {
                        Err(e) => Err(e),
                        Ok(a) => t_ok(
                            TermView::Apply {
                                function: Box::new(f),
                                argument: Box::new(a),
                                erased,
                            },
                        ),
                    },
                }
            },
        },
        TermView::Annotation { expression, .. } => spec_normalize(*expression, defs, fuel),
        _ => t_ok(t),
    }
}

impl Term {
    /// Weak-head normalization, optionally erasure-aware.  `fuel` bounds the
    /// reduction steps taken.
    #[verifier::rlimit(100)]
    pub fn weak_normalize_in_erased<D: Definitions>(
        &self,
        definitions: &D,
        erase: bool,
        fuel: u64,
    ) -> (r: Result<Term, NormalizationError>)
        ensures
            res_view(r) == spec_whnf(self@, definitions.defs(), erase, fuel as nat),
        decreases fuel, self,
    {
        match self {
            Term::Reference(name) => {
                match definitions.get(name) {
                    Some(def) => {
                        if fuel == 0 {
                            Err(NormalizationError::OutOfFuel)
                        } else {
                            let term = def.as_ref().deep_copy();
                            term.weak_normalize_in_erased(definitions, erase, fuel - 1)
                        }
                    },
                    None => Ok(self.deep_copy()),
                }
            },
            Term::Apply { function, argument, erased } => {
                let f = match function.weak_normalize_in_erased(definitions, erase, fuel) {
                    Ok(f) => f,
                    Err(e) => {
                        return Err(e);
                    },
                };
                match f {
                    Term::Put(_) => Err(NormalizationError::InvalidApplication),
                    Term::Duplicate { expression, body } => {
                        let shifted = argument.shift_top();
                        let pushed = Term::Apply {
                            function: body,
                            argument: Box::new(shifted),
                            erased: *erased,
                        };
                        proof {
                            assert(pushed@ matches TermView::Apply { .. });
                        }
                        Ok(Term::Duplicate { expression, body: Box::new(pushed) })
                    },
                    Term::Lambda { body, .. } => {
                        if fuel == 0 {
                            Err(NormalizationError::OutOfFuel)
                        } else {
                            let redex = body.substitute_top_in(argument);
                            redex.weak_normalize_in_erased(definitions, erase, fuel - 1)
                        }
                    },
                    other => Ok(
                        Term::Apply {
                            function: Box::new(other),
                            argument: Box::new(argument.deep_copy()),
                            erased: *erased,
                        },
                    ),
                }
            },
            Term::Put(inner) => {
                if erase {
                    inner.weak_normalize_in_erased(definitions, erase, fuel)
                } else {
                    Ok(self.deep_copy())
                }
            },
            Term::Duplicate { expression, body } => {
                if erase {
                    if fuel == 0 {
                        Err(NormalizationError::OutOfFuel)
                    } else {
                        let redex = body.substitute_top_in(expression);
                        redex.weak_normalize_in_erased(definitions, erase, fuel - 1)
                    }
                } else {
                    let e = match expression.weak_normalize_in_erased(definitions, erase, fuel) {
                        Ok(e) => e,
                        Err(err) => {
                            return Err(err);
                        },
                    };
                    match e {
                        Term::Put(inner) => {
                            if fuel == 0 {
                                Err(NormalizationError::OutOfFuel)
                            } else {
                                let redex = body.substitute_top_in(&inner);
                                redex.weak_normalize_in_erased(definitions, erase, fuel - 1)
                            }
                        },
                        Term::Duplicate { expression: sub_expression, body: sub_body } => {
                            let shifted = body.shift(Index::top().child());
                            let inner = Term::Duplicate {
                                expression: sub_body,
                                body: Box::new(shifted),
                            };
                            proof {
                                assert(inner@ matches TermView::Duplicate { .. });
                            }
                            Ok(Term::Duplicate { expression: sub_expression, body: Box::new(inner) })
                        },
                        other => Ok(
                            Term::Duplicate {
                                expression: Box::new(other),
                                body: Box::new(body.deep_copy()),
                            },
                        ),
                    }
                }
            },
            Term::Annotation { expression, .. } => expression.weak_normalize_in_erased(
                definitions,
                erase,
                fuel,
            ),
            _ => Ok(self.deep_copy()),
        }
    }

    /// Weak-head normalization with boxes kept.
    pub fn weak_normalize_in<D: Definitions>(&self, definitions: &D, fuel: u64) -> (r: Result<
        Term,
        NormalizationError,
    >)
        ensures
            res_view(r) == spec_whnf(self@, definitions.defs(), false, fuel as nat),
    {
        self.weak_normalize_in_erased(definitions, false, fuel)
    }

    /// Weak-head normalization with boxes kept.
    pub fn weak_normalize<D: Definitions>(&self, definitions: &D, fuel: u64) -> (r: Result<
        Term,
        NormalizationError,
    >)
        ensures
            res_view(r) == spec_whnf(self@, definitions.defs(), false, fuel as nat),
    {
        self.weak_normalize_in_erased(definitions, false, fuel)
    }

    /// Full normalization.  `fuel` bounds the reduction steps taken.
    pub fn normalize_in<D: Definitions>(&self, definitions: &D, fuel: u64) -> (r: Result<
        Term,
        NormalizationError,
    >)
        ensures
            res_view(r) == spec_normalize(self@, definitions.defs(), fuel as nat),
        decreases fuel, self,
    {
        match self {
            Term::Reference(name) => {
                match definitions.get(name) {
                    Some(def) => {
                        if fuel == 0 {
                            Err(NormalizationError::OutOfFuel)
                        } else {
                            let term = def.as_ref().deep_copy();
                            term.normalize_in(definitions, fuel - 1)
                        }
                    },
                    None => Ok(self.deep_copy()),
                }
            },
            Term::Lambda { body, erased } => {
                let b = match body.normalize_in(definitions, fuel) {
                    Ok(b) => b,
                    Err(e) => {
                        return Err(e);
                    },
                };
                if *erased {
                    let var = Term::Variable(Index::top());
                    Ok(b.substitute_top_in(&var))
                } else {
                    Ok(Term::Lambda { erased: *erased, body: Box::new(b) })
                }
            },
            Term::Put(inner) => inner.normalize_in(definitions, fuel),
            Term::Duplicate { expression, body } => {
                if fuel == 0 {
                    Err(NormalizationError::OutOfFuel)
                } else {
                    let redex = body.substitute_top_in(expression);
                    redex.normalize_in(definitions, fuel - 1)
                }
            },
            Term::Apply { function, argument, erased } => {
                let f = match function.normalize_in(definitions, fuel) {
                    Ok(f) => f,
                    Err(e) => {
                        return Err(e);
                    },
                };
                if *erased {
                    Ok(f)
                } else {
                    match f {
                        Term::Put(_) => Err(NormalizationError::InvalidApplication),
                        Term::Lambda { body, .. } => {
                            if fuel == 0 {
                                Err(NormalizationError::OutOfFuel)
                            } else {
                                let redex = body.substitute_top_in(argument);
                                redex.normalize_in(definitions, fuel - 1)
                            }
                        },
                        other => {
                            let a = match argument.normalize_in(definitions, fuel) {
                                Ok(a) => a,
                                Err(e) => {
                                    return Err(e);
                                },
                            };
                            Ok(
                                Term::Apply {
                                    function: Box::new(other),
                                    argument: Box::new(a),
                                    erased: *erased,
                                },
                            )
                        },
                    }
                }
            },
            Term::Annotation { expression, .. } => expression.normalize_in(definitions, fuel),
            _ => Ok(self.deep_copy()),
        }
    }

    /// Full normalization.  `fuel` bounds the reduction steps taken.
    pub fn normalize<D: Definitions>(&self, definitions: &D, fuel: u64) -> (r: Result<
        Term,
        NormalizationError,
    >)
        ensures
            res_view(r) == spec_normalize(self@, definitions.defs(), fuel as nat),
    {
        self.normalize_in(definitions, fuel)
    }
}

} // verus!
