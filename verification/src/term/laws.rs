use vstd::prelude::*;

use crate::term::{bump, TermView};
use crate::term::normalize::{
    spec_extract, spec_normalize, spec_shift, spec_subst, spec_whnf, NormalizationError,
};

verus! {

/// Every variable index written anywhere in `t` is below `b`.
///
/// Index arithmetic saturates at the machine limit; below that limit the
/// shift and substitution laws hold exactly.
pub open spec fn vars_below(t: TermView, b: nat) -> bool
    decreases t,
{
    match t {
        TermView::Variable(i) => i < b,
        TermView::Lambda { body, .. } => vars_below(*body, b),
        TermView::Apply { function, argument, .. } => vars_below(*function, b) && vars_below(
            *argument,
            b,
        ),
        TermView::Put(inner) => vars_below(*inner, b),
        TermView::Duplicate { expression, body } => vars_below(*expression, b) && vars_below(
            *body,
            b,
        ),
        TermView::Reference(_) => true,
        TermView::Universe => true,
        TermView::Function { argument_type, return_type, .. } => vars_below(*argument_type, b)
            && vars_below(*return_type, b),
        TermView::Annotation { expression, ty, .. } => vars_below(*expression, b) && vars_below(
            *ty,
            b,
        ),
        TermView::Wrap(inner) => vars_below(*inner, b),
    }
}

/// Substituting into the bare innermost variable yields the substituted term
/// itself: `substitute_top` on `Variable(0)` is the identity substitution.
pub proof fn lemma_substitute_top_identity(t: TermView)
    ensures
        spec_subst(TermView::Variable(0), 0, t, true) == t,
{
}

/// Substituting at an index that `shift` just vacated recovers the original
/// term, whatever is substituted: the shifted term does not contain the
/// index, and closing the hole undoes the shift.
pub proof fn lemma_substitute_shift(t: TermView, c: nat, v: TermView)
    requires
        vars_below(t, usize::MAX as nat),
    ensures
        spec_subst(spec_shift(t, c), c, v, true) == t,
    decreases t,
{
    match t {
        TermView::Variable(i) => {
        },
        TermView::Lambda { body, .. } => {
            lemma_substitute_shift(*body, bump(c), spec_shift(v, 0));
        },
        TermView::Apply { function, argument, .. } => {
            lemma_substitute_shift(*function, c, v);
            lemma_substitute_shift(*argument, c, v);
        },
        TermView::Put(inner) => {
            lemma_substitute_shift(*inner, c, v);
        },
        TermView::Duplicate { expression, body } => {
            lemma_substitute_shift(*expression, c, v);
            lemma_substitute_shift(*body, bump(c), spec_shift(v, 0));
        },
        TermView::Reference(_) => {
        },
        TermView::Universe => {
        },
        TermView::Function { argument_type, return_type, .. } => {
            lemma_substitute_shift(*argument_type, c, v);
            lemma_substitute_shift(*return_type, bump(bump(c)), spec_shift(spec_shift(v, 0), 0));
        },
        TermView::Annotation { expression, ty, .. } => {
            lemma_substitute_shift(*expression, c, v);
            lemma_substitute_shift(*ty, c, v);
        },
        TermView::Wrap(inner) => {
            lemma_substitute_shift(*inner, c, v);
        },
    }
}

/// `shift` is injective on terms whose indices stay below the saturation
/// limit: equal shifted terms came from equal terms.
pub proof fn lemma_shift_injective(t1: TermView, t2: TermView, c: nat)
    requires
        vars_below(t1, usize::MAX as nat),
        vars_below(t2, usize::MAX as nat),
        spec_shift(t1, c) == spec_shift(t2, c),
    ensures
        t1 == t2,
{
    lemma_substitute_shift(t1, c, TermView::Universe);
    lemma_substitute_shift(t2, c, TermView::Universe);
}

/// A fully normal term: no redex, no box structure, no annotation, no
/// erased construct, and no reference that `defs` could expand.  `Wrap`
/// and `Function` count as normal whole: full normalization does not look
/// inside type formers.
pub open spec fn is_normal(t: TermView, defs: Map<Seq<char>, TermView>) -> bool
    decreases t,
{
    match t {
        TermView::Variable(_) => true,
        TermView::Universe => true,
        TermView::Wrap(_) => true,
        TermView::Function { .. } => true,
        TermView::Reference(name) => !defs.contains_key(name),
        TermView::Lambda { erased, body } => !erased && is_normal(*body, defs),
        TermView::Apply { erased, function, argument } => !erased && is_normal(*function, defs)
            && is_normal(*argument, defs) && !(*function matches TermView::Lambda { .. }) && !(
        *function matches TermView::Put(_)),
        TermView::Put(_) => false,
        TermView::Duplicate { .. } => false,
        TermView::Annotation { .. } => false,
    }
}

/// Substituting one variable for another preserves normality: the
/// substituted term keeps its shape, with variables staying variables.
proof fn lemma_normal_subst_var(b: TermView, v: nat, j: nat, defs: Map<Seq<char>, TermView>)
    requires
        is_normal(b, defs),
    ensures
        is_normal(spec_subst(b, v, TermView::Variable(j), true), defs),
    decreases b,
{
    match b {
        TermView::Lambda { erased, body } => {
            lemma_normal_subst_var(*body, bump(v), bump(j), defs);
        },
        TermView::Apply { erased, function, argument } => {
            lemma_normal_subst_var(*function, v, j, defs);
            lemma_normal_subst_var(*argument, v, j, defs);
        },
        _ => {
        },
    }
}

/// Full normalization yields a normal term.
proof fn lemma_normalize_normalizes(t: TermView, defs: Map<Seq<char>, TermView>, fuel: nat)
    ensures
        spec_normalize(t, defs, fuel) matches Ok(nf) ==> is_normal(nf, defs),
    decreases fuel, t,
{
    match t {
        TermView::Reference(name) => {
            if defs.contains_key(name) && fuel > 0 {
                lemma_normalize_normalizes(defs[name], defs, (fuel - 1) as nat);
            }
        },
        TermView::Lambda { body, erased } => {
            lemma_normalize_normalizes(*body, defs, fuel);
            match spec_normalize(*body, defs, fuel) {
                Ok(b) => {
                    if erased {
                        lemma_normal_subst_var(b, 0, 0, defs);
                    }
                },
                Err(_) => {
                },
            }
        },
        TermView::Put(inner) => {
            lemma_normalize_normalizes(*inner, defs, fuel);
        },
        TermView::Duplicate { expression, body } => {
            if fuel > 0 {
                lemma_normalize_normalizes(
                    spec_subst(*body, 0, *expression, true),
                    defs,
                    (fuel - 1) as nat,
                );
            }
        },
        TermView::Apply { function, argument, erased } => {
            lemma_normalize_normalizes(*function, defs, fuel);
            match spec_normalize(*function, defs, fuel) {
                Ok(f) => {
                    if !erased {
                        match f {
                            TermView::Lambda { body, .. } => {
                                if fuel > 0 {
                                    lemma_normalize_normalizes(
                                        spec_subst(*body, 0, *argument, true),
                                        defs,
                                        (fuel - 1) as nat,
                                    );
                                }
                            },
                            TermView::Put(_) => {
                            },
                            _ => {
                                lemma_normalize_normalizes(*argument, defs, fuel);
                            },
                        }
                    }
                },
                Err(_) => {
                },
            }
        },
        TermView::Annotation { expression, .. } => {
            lemma_normalize_normalizes(*expression, defs, fuel);
        },
        _ => {
        },
    }
}

/// Full normalization leaves a normal term exactly as it stands, whatever
/// the step bound: a normal term holds nothing that consumes a step.
proof fn lemma_normal_fixed(t: TermView, defs: Map<Seq<char>, TermView>, fuel: nat)
    requires
        is_normal(t, defs),
    ensures
        spec_normalize(t, defs, fuel) == Ok::<TermView, NormalizationError>(t),
    decreases t,
{
    match t {
        TermView::Lambda { body, erased } => {
            lemma_normal_fixed(*body, defs, fuel);
        },
        TermView::Apply { function, argument, erased } => {
            lemma_normal_fixed(*function, defs, fuel);
            lemma_normal_fixed(*argument, defs, fuel);
        },
        _ => {
        },
    }
}

/// Normalization is idempotent: normalizing a normalized term yields the
/// same term again, under any step bound.
pub proof fn lemma_normalize_idempotent(
    t: TermView,
    defs: Map<Seq<char>, TermView>,
    fuel: nat,
    fuel2: nat,
    nf: TermView,
)
    requires
        spec_normalize(t, defs, fuel) == Ok::<TermView, NormalizationError>(nf),
    ensures
        spec_normalize(nf, defs, fuel2) == Ok::<TermView, NormalizationError>(nf),
{
    lemma_normalize_normalizes(t, defs, fuel);
    lemma_normal_fixed(nf, defs, fuel2);
}

/// Weak-head normalization commutes with stripping outer annotations:
/// annotations are transparent to reduction, so the result and the fuel
/// spent agree whether or not they are stripped first.
pub proof fn lemma_whnf_extract_commutes(
    t: TermView,
    defs: Map<Seq<char>, TermView>,
    erase: bool,
    fuel: nat,
)
    ensures
        spec_whnf(spec_extract(t), defs, erase, fuel) == spec_whnf(t, defs, erase, fuel),
    decreases t,
{
    match t {
        TermView::Annotation { expression, .. } => {
            lemma_whnf_extract_commutes(*expression, defs, erase, fuel);
        },
        _ => {
        },
    }
}

} // verus!
