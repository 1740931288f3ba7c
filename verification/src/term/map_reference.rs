use vstd::prelude::*;

use crate::term::{Term, TermView};

verus! {

/// Whether `b` is `a` with every `Reference` node replaced by some term
/// and everything else kept: same constructors, same flags, same indices.
pub open spec fn references_rewritten(a: TermView, b: TermView) -> bool
    decreases a,
{
    match a {
        TermView::Variable(i) => b == a,
        TermView::Lambda { erased, body } => b matches TermView::Lambda {
            erased: be,
            body: bb,
        } && be == erased && references_rewritten(*body, *bb),
        TermView::Apply { erased, function, argument } => b matches TermView::Apply {
            erased: be,
            function: bf,
            argument: ba,
        } && be == erased && references_rewritten(*function, *bf) && references_rewritten(
            *argument,
            *ba,
        ),
        TermView::Put(inner) => b matches TermView::Put(bi) && references_rewritten(*inner, *bi),
        TermView::Duplicate { expression, body } => b matches TermView::Duplicate {
            expression: be,
            body: bb,
        } && references_rewritten(*expression, *be) && references_rewritten(*body, *bb),
        TermView::Reference(_) => true,
        TermView::Universe => b == a,
        TermView::Function { erased, argument_type, return_type } => b matches TermView::Function {
            erased: be,
            argument_type: bat,
            return_type: brt,
        } && be == erased && references_rewritten(*argument_type, *bat) && references_rewritten(
            *return_type,
            *brt,
        ),
        TermView::Annotation { checked, expression, ty } => b matches TermView::Annotation {
            checked: bc,
            expression: be,
            ty: bt,
        } && bc == checked && references_rewritten(*expression, *be) && references_rewritten(
            *ty,
            *bt,
        ),
        TermView::Wrap(inner) => b matches TermView::Wrap(bi) && references_rewritten(*inner, *bi),
    }
}

impl Term {
    /// Rewrite every reference with `f`, propagating the first failure.
    /// Everything but the `Reference` nodes is kept as it stands.
    pub fn try_map_reference_in<E, F: Fn(String) -> Result<Term, E>>(self, f: &F) -> (r: Result<
        Term,
        E,
    >)
        requires
            forall|name: String| #[trigger] f.requires((name,)),
        ensures
            r matches Ok(t) ==> references_rewritten(self@, t@),
        decreases self,
    {
        match self {
            Term::Variable(index) => Ok(Term::Variable(index)),
            Term::Lambda { body, erased } => {
                match (*body).try_map_reference_in(f) {
                    Ok(b) => Ok(Term::Lambda { body: Box::new(b), erased }),
                    Err(e) => Err(e),
                }
            },
            Term::Apply { function, argument, erased } => {
                let function = match (*function).try_map_reference_in(f) {
                    Ok(t) => t,
                    Err(e) => {
                        return Err(e);
                    },
                };
                match (*argument).try_map_reference_in(f) {
                    Ok(argument) => Ok(
                        Term::Apply {
                            function: Box::new(function),
                            argument: Box::new(argument),
                            erased,
                        },
                    ),
                    Err(e) => Err(e),
                }
            },
            Term::Put(inner) => {
                match (*inner).try_map_reference_in(f) {
                    Ok(t) => Ok(Term::Put(Box::new(t))),
                    Err(e) => Err(e),
                }
            },
            Term::Duplicate { expression, body } => {
                let expression = match (*expression).try_map_reference_in(f) {
                    Ok(t) => t,
                    Err(e) => {
                        return Err(e);
                    },
                };
                match (*body).try_map_reference_in(f) {
                    Ok(body) => Ok(
                        Term::Duplicate { expression: Box::new(expression), body: Box::new(body) },
                    ),
                    Err(e) => Err(e),
                }
            },
            Term::Reference(reference) => f(reference),
            Term::Universe => Ok(Term::Universe),
            Term::Function { argument_type, return_type, erased } => {
                let argument_type = match (*argument_type).try_map_reference_in(f) {
                    Ok(t) => t,
                    Err(e) => {
                        return Err(e);
                    },
                };
                match (*return_type).try_map_reference_in(f) {
                    Ok(return_type) => Ok(
                        Term::Function {
                            argument_type: Box::new(argument_type),
                            return_type: Box::new(return_type),
                            erased,
                        },
                    ),
                    Err(e) => Err(e),
                }
            },
            Term::Annotation { checked, expression, ty } => {
                let expression = match (*expression).try_map_reference_in(f) {
                    Ok(t) => t,
                    Err(e) => {
                        return Err(e);
                    },
                };
                match (*ty).try_map_reference_in(f) {
                    Ok(ty) => Ok(
                        Term::Annotation {
                            checked,
                            expression: Box::new(expression),
                            ty: Box::new(ty),
                        },
                    ),
                    Err(e) => Err(e),
                }
            },
            Term::Wrap(inner) => {
                match (*inner).try_map_reference_in(f) {
                    Ok(t) => Ok(Term::Wrap(Box::new(t))),
                    Err(e) => Err(e),
                }
            },
        }
    }

    /// Rewrite every reference with `f`.
    pub fn try_map_reference<E, F: Fn(String) -> Result<Term, E>>(self, f: &F) -> (r: Result<
        Term,
        E,
    >)
        requires
            forall|name: String| #[trigger] f.requires((name,)),
        ensures
            r matches Ok(t) ==> references_rewritten(self@, t@),
    {
        self.try_map_reference_in(f)
    }

    /// Rewrite every reference with `f`.  Everything but the `Reference`
    /// nodes is kept as it stands.
    pub fn map_reference_in<F: Fn(String) -> Term>(self, f: &F) -> (r: Term)
        requires
            forall|name: String| #[trigger] f.requires((name,)),
        ensures
            references_rewritten(self@, r@),
        decreases self,
    {
        match self {
            Term::Variable(index) => Term::Variable(index),
            Term::Lambda { body, erased } => Term::Lambda {
                body: Box::new((*body).map_reference_in(f)),
                erased,
            },
            Term::Apply { function, argument, erased } => Term::Apply {
                function: Box::new((*function).map_reference_in(f)),
                argument: Box::new((*argument).map_reference_in(f)),
                erased,
            },
            Term::Put(inner) => Term::Put(Box::new((*inner).map_reference_in(f))),
            Term::Duplicate { expression, body } => Term::Duplicate {
                expression: Box::new((*expression).map_reference_in(f)),
                body: Box::new((*body).map_reference_in(f)),
            },
            Term::Reference(reference) => f(reference),
            Term::Universe => Term::Universe,
            Term::Function { argument_type, return_type, erased } => Term::Function {
                argument_type: Box::new((*argument_type).map_reference_in(f)),
                return_type: Box::new((*return_type).map_reference_in(f)),
                erased,
            },
            Term::Annotation { checked, expression, ty } => Term::Annotation {
                checked,
                expression: Box::new((*expression).map_reference_in(f)),
                ty: Box::new((*ty).map_reference_in(f)),
            },
            Term::Wrap(inner) => Term::Wrap(Box::new((*inner).map_reference_in(f))),
        }
    }

    /// Rewrite every reference with `f`.
    pub fn map_reference<F: Fn(String) -> Term>(self, f: &F) -> (r: Term)
        requires
            forall|name: String| #[trigger] f.requires((name,)),
        ensures
            references_rewritten(self@, r@),
    {
        self.map_reference_in(f)
    }
}

} // verus!
