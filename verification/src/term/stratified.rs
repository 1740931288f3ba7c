use vstd::prelude::*;

use crate::analysis::Definitions;
use crate::term::{bump, Index, Term, TermView};
use crate::term::normalize::{spec_normalize, NormalizationError};

verus! {

/// Why a term fails the affine/boxing discipline.
///
/// `OutOfFuel` reports that the recursion check's step bound ran out.
#[derive(Debug, Clone, PartialEq, Eq)]
pub enum StratificationError {
    MultiplicityMismatch,
    AffineUsedInBox,
    DupNonUnitBoxMultiplicity,
    RecursiveDefinition,
    UndefinedReference(String),
    ErasedUsed,
    OutOfFuel,
}

/// Count the free occurrences of index `v` in `t`.  Erased lambdas and the
/// erased side of applications contribute nothing.
pub open spec fn spec_uses(t: TermView, v: nat) -> nat
    decreases t,
{
    match t {
        TermView::Variable(i) => if i == v {
            1
        } else {
            0
        },
        TermView::Reference(_) => 0,
        TermView::Function { .. } => 0,
        TermView::Universe => 0,
        TermView::Lambda { erased, body } => if erased {
            0
        } else {
            spec_uses(*body, bump(v))
        },
        TermView::Apply { erased, function, argument } => spec_uses(*function, v) + if erased {
            0
        } else {
            spec_uses(*argument, v)
        },
        TermView::Put(inner) => spec_uses(*inner, v),
        TermView::Duplicate { expression, body } => spec_uses(*expression, v) + spec_uses(
            *body,
            bump(v),
        ),
        TermView::Wrap(inner) => spec_uses(*inner, v),
        TermView::Annotation { expression, ty, .. } => spec_uses(*expression, v) + spec_uses(
            *ty,
            v,
        ),
    }
}

/// Whether every free occurrence of index `v` in `t` sits under exactly
/// `n` boxes, counting from `current`.  References, universes and function
/// types short-circuit to true.
pub open spec fn spec_boxed(t: TermView, v: nat, n: nat, current: nat) -> bool
    decreases t,
{
    match t {
        TermView::Reference(_) => true,
        TermView::Universe => true,
        TermView::Function { .. } => true,
        TermView::Variable(i) => i != v || n == current,
        TermView::Lambda { body, .. } => spec_boxed(*body, bump(v), n, current),
        TermView::Apply { erased, function, argument } => spec_boxed(*function, v, n, current) && (
        erased || spec_boxed(*argument, v, n, current)),
        TermView::Put(inner) => spec_boxed(*inner, v, n, bump(current)),
        TermView::Duplicate { expression, body } => spec_boxed(*expression, v, n, current)
            && spec_boxed(*body, bump(v), n, current),
        TermView::Wrap(inner) => spec_boxed(*inner, v, n, current),
        TermView::Annotation { expression, .. } => spec_boxed(*expression, v, n, current),
    }
}

/// Whether `t` reaches a reference cycle through `defs`, with `seen` the
/// names on the current path.  `None` means the step bound ran out.
/// Erased argument positions are not traversed.
pub open spec fn spec_recursive(
    t: TermView,
    defs: Map<Seq<char>, TermView>,
    seen: Seq<Seq<char>>,
    fuel: nat,
) -> Option<bool>
    decreases fuel, t,
{
    match t {
        TermView::Variable(_) => Some(false),
        TermView::Universe => Some(false),
        TermView::Lambda { body, .. } => spec_recursive(*body, defs, seen, fuel),
        TermView::Apply { erased, function, argument } => {
            let ar: Option<bool> = if erased {
                Some(false)
            } else {
                spec_recursive(*argument, defs, seen, fuel)
            };
            match ar {
                None => None,
                Some(true) => Some(true),
                Some(false) => spec_recursive(*function, defs, seen, fuel),
            }
        },
        TermView::Put(inner) => spec_recursive(*inner, defs, seen, fuel),
        TermView::Duplicate { expression, body } => match spec_recursive(
            *expression,
            defs,
            seen,
            fuel,
        ) {
            None => None,
            Some(true) => Some(true),
            Some(false) => spec_recursive(*body, defs, seen, fuel),
        },
        TermView::Reference(name) => if seen.contains(name) {
            Some(true)
        } else if defs.contains_key(name) {
            if fuel == 0 {
                None
            } else {
                spec_recursive(defs[name], defs, seen.push(name), (fuel - 1) as nat)
            }
        } else {
            Some(false)
        },
        TermView::Function { argument_type, return_type, .. } => match spec_recursive(
            *argument_type,
            defs,
            seen,
            fuel,
        ) {
            None => None,
            Some(false) => Some(false),
            Some(true) => spec_recursive(*return_type, defs, seen, fuel),
        },
        TermView::Annotation { expression, .. } => spec_recursive(*expression, defs, seen, fuel),
        TermView::Wrap(inner) => spec_recursive(*inner, defs, seen, fuel),
    }
}

/// The weaker discipline: erased lambda parameters are never used.
pub open spec fn spec_sound(t: TermView) -> Result<(), StratificationError>
    decreases t,
{
    match t {
        TermView::Lambda { erased, body } => if erased && spec_uses(*body, 0) > 0 {
            Err(StratificationError::MultiplicityMismatch)
        } else {
            spec_sound(*body)
        },
        TermView::Apply { erased, function, argument } => match spec_sound(*function) {
            Err(e) => Err(e),
            Ok(_) => if !erased {
                spec_sound(*argument)
            } else {
                Ok(())
            },
        },
        TermView::Put(inner) => spec_sound(*inner),
        TermView::Duplicate { expression, body } => match spec_sound(*expression) {
            Err(e) => Err(e),
            Ok(_) => spec_sound(*body),
        },
        TermView::Variable(_) => Ok(()),
        TermView::Reference(_) => Ok(()),
        TermView::Function { .. } => Ok(()),
        TermView::Universe => Ok(()),
        TermView::Wrap(inner) => spec_sound(*inner),
        TermView::Annotation { expression, .. } => spec_sound(*expression),
    }
}

/// The affine/boxing discipline: a lambda's parameter is used at most once
/// (never, if erased) at box level zero, and a duplicate's parameter always
/// sits under exactly one box.
pub open spec fn spec_stratified(t: TermView) -> Result<(), StratificationError>
    decreases t,
{
    match t {
        TermView::Lambda { erased, body } => if spec_uses(*body, 0) > (if erased {
            0int
        } else {
            1int
        }) {
            Err(StratificationError::MultiplicityMismatch)
        } else if !spec_boxed(*body, 0, 0, 0) {
            Err(StratificationError::AffineUsedInBox)
        } else {
            spec_stratified(*body)
        },
        TermView::Apply { erased, function, argument } => match spec_stratified(*function) {
            Err(e) => Err(e),
            Ok(_) => if !erased {
                spec_stratified(*argument)
            } else {
                Ok(())
            },
        },
        TermView::Put(inner) => spec_stratified(*inner),
        TermView::Duplicate { expression, body } => if !spec_boxed(*body, 0, 1, 0) {
            Err(StratificationError::DupNonUnitBoxMultiplicity)
        } else {
            match spec_stratified(*expression) {
                Err(e) => Err(e),
                Ok(_) => spec_stratified(*body),
            }
        },
        TermView::Variable(_) => Ok(()),
        TermView::Reference(_) => Ok(()),
        TermView::Function { .. } => Ok(()),
        TermView::Universe => Ok(()),
        TermView::Wrap(inner) => spec_stratified(*inner),
        TermView::Annotation { expression, .. } => spec_stratified(*expression),
    }
}

/// The combined stratification check: the affine/boxing discipline first,
/// then absence of reference cycles.
pub open spec fn spec_stratified_in(
    t: TermView,
    defs: Map<Seq<char>, TermView>,
    fuel: nat,
) -> Result<(), StratificationError> {
    match spec_stratified(t) {
        Err(e) => Err(e),
        Ok(_) => match spec_recursive(t, defs, Seq::empty(), fuel) {
            Some(true) => Err(StratificationError::RecursiveDefinition),
            Some(false) => Ok(()),
            None => Err(StratificationError::OutOfFuel),
        },
    }
}

impl Term {
    /// Count free occurrences of `variable`, saturating at the machine
    /// limit.
    fn uses_in(&self, variable: Index) -> (r: usize)
        ensures
            r == if spec_uses(self@, variable.0 as nat) <= usize::MAX {
                spec_uses(self@, variable.0 as nat)
            } else {
                usize::MAX as nat
            },
        decreases self,
    {
        match self {
            Term::Variable(index) => {
                if index.0 == variable.0 {
                    1
                } else {
                    0
                }
            },
            Term::Reference(_) => 0,
            Term::Function { .. } => 0,
            Term::Universe => 0,
            Term::Lambda { body, erased } => {
                if *erased {
                    0
                } else {
                    body.uses_in(variable.child())
                }
            },
            Term::Apply { function, argument, erased } => {
                let f = function.uses_in(variable);
                if *erased {
                    f
                } else {
                    f.saturating_add(argument.uses_in(variable))
                }
            },
            Term::Put(inner) => inner.uses_in(variable),
            Term::Duplicate { expression, body } => expression.uses_in(variable).saturating_add(
                body.uses_in(variable.child()),
            ),
            Term::Wrap(inner) => inner.uses_in(variable),
            Term::Annotation { expression, ty, .. } => expression.uses_in(variable).saturating_add(
                ty.uses_in(variable),
            ),
        }
    }

    /// Count uses of the innermost binder's variable.
    pub fn uses(&self) -> (r: usize)
        ensures
            r == if spec_uses(self@, 0) <= usize::MAX {
                spec_uses(self@, 0)
            } else {
                usize::MAX as nat
            },
    {
        self.uses_in(Index::top())
    }

    /// Whether every free occurrence of `variable` sits under exactly
    /// `nestings` boxes beyond `current`.
    fn n_boxes_helper(&self, variable: Index, nestings: usize, current: Index) -> (r: bool)
        ensures
            r == spec_boxed(self@, variable.0 as nat, nestings as nat, current.0 as nat),
        decreases self,
    {
        match self {
            Term::Reference(_) => true,
            Term::Universe => true,
            Term::Function { .. } => true,
            Term::Variable(index) => index.0 != variable.0 || nestings == current.0,
            Term::Lambda { body, .. } => body.n_boxes_helper(variable.child(), nestings, current),
            Term::Apply { function, argument, erased } => function.n_boxes_helper(
                variable,
                nestings,
                current,
            ) && (*erased || argument.n_boxes_helper(variable, nestings, current)),
            Term::Put(inner) => inner.n_boxes_helper(variable, nestings, current.child()),
            Term::Duplicate { expression, body } => expression.n_boxes_helper(
                variable,
                nestings,
                current,
            ) && body.n_boxes_helper(variable.child(), nestings, current),
            Term::Wrap(inner) => inner.n_boxes_helper(variable, nestings, current),
            Term::Annotation { expression, .. } => expression.n_boxes_helper(
                variable,
                nestings,
                current,
            ),
        }
    }

    /// Whether the innermost binder's variable always sits under exactly
    /// `nestings` boxes.
    pub fn is_boxed_n_times(&self, nestings: usize) -> (r: bool)
        ensures
            r == spec_boxed(self@, 0, nestings as nat, 0),
    {
        self.n_boxes_helper(Index::top(), nestings, Index::top())
    }

    /// Depth-first search for a reference cycle.  `seen` holds the names on
    /// the current path and is restored before returning.
    fn is_recursive_in_helper<D: Definitions>(
        &self,
        seen: &mut Vec<String>,
        definitions: &D,
        fuel: u64,
    ) -> (r: Option<bool>)
        ensures
            r == spec_recursive(self@, definitions.defs(), old(seen).deep_view(), fuel as nat),
            final(seen).deep_view() == old(seen).deep_view(),
        decreases fuel, self,
    {
        match self {
            Term::Variable(_) => Some(false),
            Term::Universe => Some(false),
            Term::Lambda { body, .. } => body.is_recursive_in_helper(seen, definitions, fuel),
            Term::Apply { function, argument, erased } => {
                let ar: Option<bool> = if *erased {
                    Some(false)
                } else {
                    argument.is_recursive_in_helper(seen, definitions, fuel)
                };
                match ar {
                    None => None,
                    Some(true) => Some(true),
                    Some(false) => function.is_recursive_in_helper(seen, definitions, fuel),
                }
            },
            Term::Put(inner) => inner.is_recursive_in_helper(seen, definitions, fuel),
            Term::Duplicate { expression, body } => {
                match expression.is_recursive_in_helper(seen, definitions, fuel) {
                    None => None,
                    Some(true) => Some(true),
                    Some(false) => body.is_recursive_in_helper(seen, definitions, fuel),
                }
            },
            Term::Reference(name) => {
                if contains_name(seen, name) {
                    Some(true)
                } else {
                    match definitions.get(name) {
                        Some(def) => {
                            if fuel == 0 {
                                None
                            } else {
                                let term = def.as_ref().deep_copy();
                                seen.push(name.clone());
                                proof {
                                    assert(seen.deep_view() =~= old(seen).deep_view().push(name@));
                                }
                                let r = term.is_recursive_in_helper(seen, definitions, fuel - 1);
                                proof {
                                    assert(seen.deep_view().drop_last() =~= old(seen).deep_view());
                                }
                                seen.pop();
                                proof {
                                    assert(final(seen).deep_view() =~= old(seen).deep_view());
                                }
                                r
                            }
                        },
                        None => Some(false),
                    }
                }
            },
            Term::Function { argument_type, return_type, .. } => {
                match argument_type.is_recursive_in_helper(seen, definitions, fuel) {
                    None => None,
                    Some(false) => Some(false),
                    Some(true) => return_type.is_recursive_in_helper(seen, definitions, fuel),
                }
            },
            Term::Annotation { expression, .. } => expression.is_recursive_in_helper(
                seen,
                definitions,
                fuel,
            ),
            Term::Wrap(inner) => inner.is_recursive_in_helper(seen, definitions, fuel),
        }
    }

    /// Whether this term reaches a reference cycle through `definitions`.
    /// `None` means the step bound ran out before an answer was found.
    pub fn is_recursive_in<D: Definitions>(&self, definitions: &D, fuel: u64) -> (r: Option<bool>)
        ensures
            r == spec_recursive(self@, definitions.defs(), Seq::empty(), fuel as nat),
    {
        let mut seen: Vec<String> = Vec::new();
        proof {
            assert(seen.deep_view() =~= Seq::<Seq<char>>::empty());
        }
        self.is_recursive_in_helper(&mut seen, definitions, fuel)
    }

    /// The weaker discipline: erased lambda parameters are never used.
    pub fn is_sound(&self) -> (r: Result<(), StratificationError>)
        ensures
            r == spec_sound(self@),
        decreases self,
    {
        match self {
            Term::Lambda { body, erased } => {
                if *erased && body.uses() > 0 {
                    Err(StratificationError::MultiplicityMismatch)
                } else {
                    body.is_sound()
                }
            },
            Term::Apply { function, argument, erased } => {
                match function.is_sound() {
                    Err(e) => Err(e),
                    Ok(_) => {
                        if !*erased {
                            argument.is_sound()
                        } else {
                            Ok(())
                        }
                    },
                }
            },
            Term::Put(inner) => inner.is_sound(),
            Term::Duplicate { expression, body } => {
                match expression.is_sound() {
                    Err(e) => Err(e),
                    Ok(_) => body.is_sound(),
                }
            },
            Term::Variable(_) => Ok(()),
            Term::Reference(_) => Ok(()),
            Term::Function { .. } => Ok(()),
            Term::Universe => Ok(()),
            Term::Wrap(inner) => inner.is_sound(),
            Term::Annotation { expression, .. } => expression.is_sound(),
        }
    }

    /// The affine/boxing discipline that guarantees strong normalization.
    pub fn is_stratified(&self) -> (r: Result<(), StratificationError>)
        ensures
            r == spec_stratified(self@),
        decreases self,
    {
        match self {
            Term::Lambda { body, erased } => {
                let limit: usize = if *erased {
                    0
                } else {
                    1
                };
                if body.uses() > limit {
                    Err(StratificationError::MultiplicityMismatch)
                } else if !body.is_boxed_n_times(0) {
                    Err(StratificationError::AffineUsedInBox)
                } else {
                    body.is_stratified()
                }
            },
            Term::Apply { function, argument, erased } => {
                match function.is_stratified() {
                    Err(e) => Err(e),
                    Ok(_) => {
                        if !*erased {
                            argument.is_stratified()
                        } else {
                            Ok(())
                        }
                    },
                }
            },
            Term::Put(inner) => inner.is_stratified(),
            Term::Duplicate { expression, body } => {
                if !body.is_boxed_n_times(1) {
                    Err(StratificationError::DupNonUnitBoxMultiplicity)
                } else {
                    match expression.is_stratified() {
                        Err(e) => Err(e),
                        Ok(_) => body.is_stratified(),
                    }
                }
            },
            Term::Variable(_) => Ok(()),
            Term::Reference(_) => Ok(()),
            Term::Function { .. } => Ok(()),
            Term::Universe => Ok(()),
            Term::Wrap(inner) => inner.is_stratified(),
            Term::Annotation { expression, .. } => expression.is_stratified(),
        }
    }

    /// Validate this term and wrap it as stratified: the term must pass the
    /// affine/boxing discipline and must not be recursive through
    /// `definitions`.
    pub fn stratified_in<'a, U: Definitions>(self, definitions: &'a U, fuel: u64) -> (r: Result<
        Stratified<'a, U>,
        StratificationError,
    >)
        ensures
            match r {
                Ok(s) => spec_stratified_in(self@, definitions.defs(), fuel as nat) == Ok::<
                    (),
                    StratificationError,
                >(()) && s.term@ == self@,
                Err(e) => spec_stratified_in(self@, definitions.defs(), fuel as nat) == Err::<
                    (),
                    StratificationError,
                >(e),
            },
    {
        match self.is_stratified() {
            Err(e) => Err(e),
            Ok(_) => {
                match self.is_recursive_in(definitions, fuel) {
                    Some(true) => Err(StratificationError::RecursiveDefinition),
                    Some(false) => Ok(Stratified { term: self, definitions }),
                    None => Err(StratificationError::OutOfFuel),
                }
            },
        }
    }

    /// Validate this term and wrap it as stratified.
    pub fn stratified<'a, U: Definitions>(self, definitions: &'a U, fuel: u64) -> (r: Result<
        Stratified<'a, U>,
        StratificationError,
    >)
        ensures
            match r {
                Ok(s) => spec_stratified_in(self@, definitions.defs(), fuel as nat) == Ok::<
                    (),
                    StratificationError,
                >(()) && s.term@ == self@,
                Err(e) => spec_stratified_in(self@, definitions.defs(), fuel as nat) == Err::<
                    (),
                    StratificationError,
                >(e),
            },
    {
        self.stratified_in(definitions, fuel)
    }
}

/// Whether `seen` holds `name`.
fn contains_name(seen: &Vec<String>, name: &String) -> (r: bool)
    ensures
        r == seen.deep_view().contains(name@),
{
    let n = seen.len();
    let mut i: usize = 0;
    while i < n
        invariant
            0 <= i <= n,
            n == seen.len(),
            forall|j: int| 0 <= j < i ==> seen.deep_view()[j] != name@,
        decreases n - i,
    {
        if seen[i].eq(name) {
            proof {
                assert(seen.deep_view()[i as int] == name@);
            }
            return true;
        }
        i = i + 1;
    }
    false
}

/// A term that passed the stratification checks, kept with the definitions
/// it was validated against.
pub struct Stratified<'a, U: Definitions> {
    pub term: Term,
    pub definitions: &'a U,
}

impl<'a, U: Definitions> Stratified<'a, U> {
    /// Fully normalize the wrapped term in place.
    pub fn normalize(&mut self, fuel: u64) -> (r: Result<(), NormalizationError>)
        ensures
            final(self).definitions == old(self).definitions,
            match r {
                Ok(_) => spec_normalize(
                    old(self).term@,
                    old(self).definitions.defs(),
                    fuel as nat,
                ) == Ok::<TermView, NormalizationError>(final(self).term@),
                Err(e) => spec_normalize(
                    old(self).term@,
                    old(self).definitions.defs(),
                    fuel as nat,
                ) == Err::<TermView, NormalizationError>(e) && final(self).term@ == old(
                    self,
                ).term@,
            },
    {
        match self.term.normalize_in(self.definitions, fuel) {
            Ok(t) => {
                self.term = t;
                Ok(())
            },
            Err(e) => Err(e),
        }
    }

    /// Give the wrapped term back.
    pub fn into_inner(self) -> (r: Term)
        ensures
            r@ == self.term@,
    {
        self.term
    }
}

} // verus!
