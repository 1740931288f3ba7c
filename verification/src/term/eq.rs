use vstd::prelude::*;

use crate::analysis::Definitions;
use crate::term::{Term, TermView};
use crate::term::normalize::{spec_whnf, NormalizationError};

verus! {

/// The multiplier of the hash mix step.
pub const HASH_PRIME: u64 = 0x100000001b3;

/// The starting value of every hash.
pub const HASH_SEED: u64 = 0xcbf29ce484222325;

/// One mix step: fold `x` into the running hash `h`.
pub open spec fn spec_mix(h: u64, x: u64) -> u64 {
    vstd::wrapping::u64_specs::wrapping_mul(h ^ x, HASH_PRIME)
}

/// Fold the characters of `s` from position `i` on into `h`.
pub open spec fn spec_mix_chars(s: Seq<char>, i: nat, h: u64) -> u64
    decreases s.len() - i,
{
    if i >= s.len() {
        h
    } else {
        spec_mix_chars(s, i + 1, spec_mix(h, s[i as int] as u64))
    }
}

/// The structural hash of a term: a pure function of its view.
pub open spec fn spec_hash(t: TermView) -> u64
    decreases t,
{
    match t {
        TermView::Variable(i) => spec_mix(
            spec_mix(HASH_SEED, 1),
            (i % 0x10000000000000000) as u64,
        ),
        TermView::Lambda { erased, body } => spec_mix(
            spec_mix(
                spec_mix(HASH_SEED, 2),
                if erased {
                    1
                } else {
                    0
                },
            ),
            spec_hash(*body),
        ),
        TermView::Apply { erased, function, argument } => spec_mix(
            spec_mix(
                spec_mix(
                    spec_mix(HASH_SEED, 3),
                    if erased {
                        1
                    } else {
                        0
                    },
                ),
                spec_hash(*function),
            ),
            spec_hash(*argument),
        ),
        TermView::Put(inner) => spec_mix(spec_mix(HASH_SEED, 4), spec_hash(*inner)),
        TermView::Duplicate { expression, body } => spec_mix(
            spec_mix(spec_mix(HASH_SEED, 5), spec_hash(*expression)),
            spec_hash(*body),
        ),
        TermView::Reference(name) => spec_mix_chars(name, 0, spec_mix(HASH_SEED, 6)),
        TermView::Universe => spec_mix(HASH_SEED, 7),
        TermView::Function { erased, argument_type, return_type } => spec_mix(
            spec_mix(
                spec_mix(
                    spec_mix(HASH_SEED, 8),
                    if erased {
                        1
                    } else {
                        0
                    },
                ),
                spec_hash(*argument_type),
            ),
            spec_hash(*return_type),
        ),
        TermView::Annotation { checked, expression, ty } => spec_mix(
            spec_mix(
                spec_mix(
                    spec_mix(HASH_SEED, 9),
                    if checked {
                        1
                    } else {
                        0
                    },
                ),
                spec_hash(*expression),
            ),
            spec_hash(*ty),
        ),
        TermView::Wrap(inner) => spec_mix(spec_mix(HASH_SEED, 10), spec_hash(*inner)),
    }
}

/// One mix step, executable.
fn mix(h: u64, x: u64) -> (r: u64)
    ensures
        r == spec_mix(h, x),
{
    (h ^ x).wrapping_mul(HASH_PRIME)
}

/// Fold a name's characters into `h`.
fn mix_name(name: &String, h: u64) -> (r: u64)
    ensures
        r == spec_mix_chars(name@, 0, h),
{
    let s = name.as_str();
    let n = s.unicode_len();
    let mut h = h;
    let ghost h0 = h;
    let mut i: usize = 0;
    while i < n
        invariant
            0 <= i <= n,
            n == name@.len(),
            s@ == name@,
            spec_mix_chars(name@, i as nat, h) == spec_mix_chars(name@, 0, h0),
        decreases n - i,
    {
        let c = s.get_char(i);
        h = mix(h, c as u64);
        i = i + 1;
    }
    h
}

impl Term {
    /// A deterministic structural hash of this term.  Equal views hash
    /// equally, on every machine and in every process.
    pub fn hash_code(&self) -> (r: u64)
        ensures
            r == spec_hash(self@),
        decreases self,
    {
        match self {
            Term::Variable(i) => mix(mix(HASH_SEED, 1), i.0 as u64),
            Term::Lambda { body, erased } => mix(
                mix(
                    mix(HASH_SEED, 2),
                    if *erased {
                        1
                    } else {
                        0
                    },
                ),
                body.hash_code(),
            ),
            Term::Apply { function, argument, erased } => mix(
                mix(
                    mix(
                        mix(HASH_SEED, 3),
                        if *erased {
                            1
                        } else {
                            0
                        },
                    ),
                    function.hash_code(),
                ),
                argument.hash_code(),
            ),
            Term::Put(inner) => mix(mix(HASH_SEED, 4), inner.hash_code()),
            Term::Duplicate { expression, body } => mix(
                mix(mix(HASH_SEED, 5), expression.hash_code()),
                body.hash_code(),
            ),
            Term::Reference(name) => mix_name(name, mix(HASH_SEED, 6)),
            Term::Universe => mix(HASH_SEED, 7),
            Term::Function { argument_type, return_type, erased } => mix(
                mix(
                    mix(
                        mix(HASH_SEED, 8),
                        if *erased {
                            1
                        } else {
                            0
                        },
                    ),
                    argument_type.hash_code(),
                ),
                return_type.hash_code(),
            ),
            Term::Annotation { checked, expression, ty } => mix(
                mix(
                    mix(
                        mix(HASH_SEED, 9),
                        if *checked {
                            1
                        } else {
                            0
                        },
                    ),
                    expression.hash_code(),
                ),
                ty.hash_code(),
            ),
            Term::Wrap(inner) => mix(mix(HASH_SEED, 10), inner.hash_code()),
        }
    }

    /// Syntactic equality: whether the two terms have the same view.
    pub fn equals(&self, other: &Term) -> (r: bool)
        ensures
            r == (self@ == other@),
        decreases self,
    {
        match (self, other) {
            (Term::Variable(a), Term::Variable(b)) => a.0 == b.0,
            (
                Term::Lambda { body, erased },
                Term::Lambda { body: b_body, erased: b_erased },
            ) => body.equals(b_body) && erased == b_erased,
            (
                Term::Apply { function, argument, erased },
                Term::Apply { function: b_function, argument: b_argument, erased: b_erased },
            ) => function.equals(b_function) && argument.equals(b_argument) && erased == b_erased,
            (Term::Put(a), Term::Put(b)) => a.equals(b),
            (
                Term::Duplicate { expression, body },
                Term::Duplicate { expression: b_expression, body: b_body },
            ) => expression.equals(b_expression) && body.equals(b_body),
            (Term::Reference(a), Term::Reference(b)) => a.eq(b),
            (Term::Universe, Term::Universe) => true,
            (
                Term::Function { argument_type, return_type, erased },
                Term::Function {
                    argument_type: b_argument_type,
                    return_type: b_return_type,
                    erased: b_erased,
                },
            ) => argument_type.equals(b_argument_type) && return_type.equals(b_return_type)
                && erased == b_erased,
            (
                Term::Annotation { checked, expression, ty },
                Term::Annotation { checked: b_checked, expression: b_expression, ty: b_ty },
            ) => expression.equals(b_expression) && ty.equals(b_ty) && checked == b_checked,
            (Term::Wrap(a), Term::Wrap(b)) => a.equals(b),
            _ => {
                proof {
                    lemma_view_shape(*self);
                    lemma_view_shape(*other);
                }
                false
            },
        }
    }
}

/// A term's view has the same outer constructor as the term.
pub proof fn lemma_view_shape(x: Term)
    ensures
        (x matches Term::Variable(..)) <==> (crate::term::view_of(x) matches TermView::Variable(
            ..,
        )),
        (x matches Term::Lambda { .. }) <==> (crate::term::view_of(x) matches TermView::Lambda {
            ..
        }),
        (x matches Term::Apply { .. }) <==> (crate::term::view_of(x) matches TermView::Apply {
            ..
        }),
        (x matches Term::Put(..)) <==> (crate::term::view_of(x) matches TermView::Put(..)),
        (x matches Term::Duplicate { .. }) <==> (crate::term::view_of(x)
            matches TermView::Duplicate { .. }),
        (x matches Term::Reference(..)) <==> (crate::term::view_of(x) matches TermView::Reference(
            ..,
        )),
        (x matches Term::Universe) <==> (crate::term::view_of(x) matches TermView::Universe),
        (x matches Term::Function { .. }) <==> (crate::term::view_of(x)
            matches TermView::Function { .. }),
        (x matches Term::Annotation { .. }) <==> (crate::term::view_of(x)
            matches TermView::Annotation { .. }),
        (x matches Term::Wrap(..)) <==> (crate::term::view_of(x) matches TermView::Wrap(..)),
{
    match x {
        Term::Variable(_) => {
        },
        Term::Lambda { .. } => {
        },
        Term::Apply { .. } => {
        },
        Term::Put(_) => {
        },
        Term::Duplicate { .. } => {
        },
        Term::Reference(_) => {
        },
        Term::Universe => {
        },
        Term::Function { .. } => {
        },
        Term::Annotation { .. } => {
        },
        Term::Wrap(_) => {
        },
    }
}

/// A memo table for equivalence verdicts, keyed by the hashes of the two
/// sides after erasure-aware weak-head normalization.
///
/// `contents` is the table's mathematical content; `check` must answer
/// exactly according to it, while `register` may record the new verdict or
/// drop it.
pub trait EqualityCache {
    /// The verdicts held.
    spec fn contents(&self) -> Map<(u64, u64), bool>;

    /// Whether this cache keeps what is registered with it.
    spec fn retains() -> bool;

    /// Record a verdict.  A retaining cache keeps it; any other drops it.
    fn register(&mut self, a: u64, b: u64, checks: bool)
        ensures
            final(self).contents() == if Self::retains() {
                old(self).contents().insert((a, b), checks)
            } else {
                old(self).contents()
            },
    ;

    /// Consult the table.
    fn check(&self, a: u64, b: u64) -> (r: Option<bool>)
        ensures
            r == if self.contents().contains_key((a, b)) {
                Some(self.contents()[(a, b)])
            } else {
                None::<bool>
            },
    ;
}

/// The cache that remembers nothing.
#[derive(Clone, Copy)]
pub struct NullCache;

impl EqualityCache for NullCache {
    open spec fn contents(&self) -> Map<(u64, u64), bool> {
        Map::empty()
    }

    open spec fn retains() -> bool {
        false
    }

    fn register(&mut self, a: u64, b: u64, checks: bool) {
    }

    fn check(&self, a: u64, b: u64) -> (r: Option<bool>) {
        None
    }
}

/// The key of a verdict, with both hashes packed into one word.
pub open spec fn spec_pack(a: u64, b: u64) -> u128 {
    (a * 0x10000000000000000 + b) as u128
}

/// A hash-table-backed cache.
pub struct MapCache {
    data: std::collections::HashMap<u128, bool>,
}

/// Packing two hashes into one key is injective.
proof fn lemma_pack_injective(a1: u64, b1: u64, a2: u64, b2: u64)
    requires
        spec_pack(a1, b1) == spec_pack(a2, b2),
    ensures
        a1 == a2 && b1 == b2,
{
}

/// Pack both hashes into one key.
fn pack(a: u64, b: u64) -> (r: u128)
    ensures
        r == spec_pack(a, b),
{
    let r = ((a as u128) << 64) | (b as u128);
    proof {
        assert(((a as u128) << 64) | (b as u128) == a as u128 * 0x10000000000000000 + b as u128)
            by (bit_vector);
    }
    r
}

impl MapCache {
    /// An empty cache.
    pub fn new() -> (r: MapCache)
        ensures
            r.contents() == Map::<(u64, u64), bool>::empty(),
    {
        let data = std::collections::HashMap::new();
        let r = MapCache { data };
        proof {
            assert(r.contents() =~= Map::<(u64, u64), bool>::empty());
        }
        r
    }
}

impl EqualityCache for MapCache {
    closed spec fn contents(&self) -> Map<(u64, u64), bool> {
        Map::new(
            |k: (u64, u64)| self.data@.contains_key(spec_pack(k.0, k.1)),
            |k: (u64, u64)| self.data@[spec_pack(k.0, k.1)],
        )
    }

    open spec fn retains() -> bool {
        true
    }

    fn register(&mut self, a: u64, b: u64, checks: bool) {
        let key = pack(a, b);
        self.data.insert(key, checks);
        proof {
            assert forall|k: (u64, u64)|
                final(self).contents().contains_key(k) == old(self).contents().insert(
                    (a, b),
                    checks,
                ).contains_key(k) && (final(self).contents().contains_key(k)
                ==> final(self).contents()[k] == old(self).contents().insert((a, b), checks)[k]) by {
                if k != (a, b) && spec_pack(k.0, k.1) == spec_pack(a, b) {
                    lemma_pack_injective(k.0, k.1, a, b);
                }
            }
            assert(final(self).contents() =~= old(self).contents().insert((a, b), checks));
        }
    }

    fn check(&self, a: u64, b: u64) -> (r: Option<bool>) {
        let key = pack(a, b);
        let r = self.data.get(&key);
        match r {
            Some(v) => Some(*v),
            None => None,
        }
    }
}

/// A tree of pending equality goals: leaves are settled verdicts, `Equal`
/// nodes are goals still to resolve, and `And` / `Or` combine them.
pub enum EqualityTree {
    Equal(Term, Term),
    Or(Box<EqualityTree>, Box<EqualityTree>),
    And(Box<EqualityTree>, Box<EqualityTree>),
    Leaf(bool),
}

/// The view of an equality tree.
pub enum EqTreeView {
    Equal(TermView, TermView),
    Or(Box<EqTreeView>, Box<EqTreeView>),
    And(Box<EqTreeView>, Box<EqTreeView>),
    Leaf(bool),
}

/// The view of an equality tree.
pub open spec fn tree_view(t: EqualityTree) -> EqTreeView
    decreases t,
{
    match t {
        EqualityTree::Equal(a, b) => EqTreeView::Equal(a@, b@),
        EqualityTree::Or(a, b) => EqTreeView::Or(
            Box::new(tree_view(*a)),
            Box::new(tree_view(*b)),
        ),
        EqualityTree::And(a, b) => EqTreeView::And(
            Box::new(tree_view(*a)),
            Box::new(tree_view(*b)),
        ),
        EqualityTree::Leaf(v) => EqTreeView::Leaf(v),
    }
}

/// The view of one rewriting pass over an equality tree.
pub open spec fn eq_res_view(r: Result<EqualityTree, NormalizationError>) -> Result<
    EqTreeView,
    NormalizationError,
> {
    match r {
        Ok(t) => Ok(tree_view(t)),
        Err(e) => Err(e),
    }
}

/// One pass over the equality tree: collapse settled `And` / `Or` nodes and
/// expand each `Equal` goal one layer, as `equivalence_helper` does.
#[verifier::opaque]
pub open spec fn spec_eq_step(
    tree: EqTreeView,
    defs: Map<Seq<char>, TermView>,
    cache: Map<(u64, u64), bool>,
    fuel: nat,
) -> Result<EqTreeView, NormalizationError>
    decreases tree,
{
    match tree {
        EqTreeView::Leaf(_) => Ok(tree),
        EqTreeView::And(a, b) => {
            if (*a matches EqTreeView::Leaf(false)) || (*b matches EqTreeView::Leaf(false)) {
                Ok(EqTreeView::Leaf(false))
            } else if (*a matches EqTreeView::Leaf(true)) && (*b matches EqTreeView::Leaf(true)) {
                Ok(EqTreeView::Leaf(true))
            } else {
                match spec_eq_step(*a, defs, cache, fuel) {
                    Err(e) => Err(e),
                    Ok(a2) => match spec_eq_step(*b, defs, cache, fuel) {
                        Err(e) => Err(e),
                        Ok(b2) => Ok(EqTreeView::And(Box::new(a2), Box::new(b2))),
                    },
                }
            }
        },
        EqTreeView::Or(a, b) => {
            if (*a matches EqTreeView::Leaf(true)) || (*b matches EqTreeView::Leaf(true)) {
                Ok(EqTreeView::Leaf(true))
            } else if (*a matches EqTreeView::Leaf(false)) && (*b matches EqTreeView::Leaf(false)) {
                Ok(EqTreeView::Leaf(false))
            } else {
                match spec_eq_step(*a, defs, cache, fuel) {
                    Err(e) => Err(e),
                    Ok(a2) => match spec_eq_step(*b, defs, cache, fuel) {
                        Err(e) => Err(e),
                        Ok(b2) => Ok(EqTreeView::Or(Box::new(a2), Box::new(b2))),
                    },
                }
            }
        },
        EqTreeView::Equal(av, bv) => match spec_whnf(av, Map::empty(), true, fuel) {
            Err(e) => Err(e),
            Ok(a1) => match spec_whnf(bv, Map::empty(), true, fuel) {
                Err(e) => Err(e),
                Ok(b1) => {
                    let ha = spec_hash(a1);
                    let hb = spec_hash(b1);
                    if ha == hb {
                        Ok(EqTreeView::Leaf(true))
                    } else if cache.contains_key((ha, hb)) {
                        Ok(EqTreeView::Leaf(cache[(ha, hb)]))
                    } else {
                        let ret_a = spec_fast_path(a1, b1);
                        match spec_whnf(a1, defs, true, fuel) {
                            Err(e) => Err(e),
                            Ok(a2) => match spec_whnf(b1, defs, true, fuel) {
                                Err(e) => Err(e),
                                Ok(b2) => {
                                    let ret_b = spec_fan_out(a2, b2);
                                    match ret_a {
                                        Some(x) => Ok(
                                            EqTreeView::Or(Box::new(x), Box::new(ret_b)),
                                        ),
                                        None => Ok(ret_b),
                                    }
                                },
                            },
                        }
                    }
                },
            },
        },
    }
}

/// The fast path of an equality goal: compare heads before expanding
/// definitions.  Matching applications split into subgoals; identical
/// references settle the goal.
pub open spec fn spec_fast_path(a: TermView, b: TermView) -> Option<EqTreeView> {
    match (a, b) {
        (
            TermView::Apply { erased: ae, function: af, argument: aa },
            TermView::Apply { erased: be, function: bf, argument: ba },
        ) => Some(
            if ae != be {
                EqTreeView::Leaf(false)
            } else {
                EqTreeView::And(
                    Box::new(EqTreeView::Equal(*af, *bf)),
                    Box::new(EqTreeView::Equal(*aa, *ba)),
                )
            },
        ),
        (TermView::Reference(an), TermView::Reference(bn)) => if an == bn {
            Some(EqTreeView::Leaf(true))
        } else {
            None
        },
        _ => None,
    }
}

/// The slow path of an equality goal, after definition expansion: decompose
/// matching heads into subgoals; different heads settle the goal as false.
pub open spec fn spec_fan_out(a: TermView, b: TermView) -> EqTreeView {
    match (a, b) {
        (TermView::Universe, TermView::Universe) => EqTreeView::Leaf(true),
        (
            TermView::Function { erased: ae, argument_type: aat, return_type: art },
            TermView::Function { erased: be, argument_type: bat, return_type: brt },
        ) => if ae != be {
            EqTreeView::Leaf(false)
        } else {
            EqTreeView::And(
                Box::new(EqTreeView::Equal(*aat, *bat)),
                Box::new(EqTreeView::Equal(*art, *brt)),
            )
        },
        (
            TermView::Lambda { erased: ae, body: ab },
            TermView::Lambda { erased: be, body: bb },
        ) => if ae != be {
            EqTreeView::Leaf(false)
        } else {
            EqTreeView::Equal(*ab, *bb)
        },
        (
            TermView::Apply { erased: ae, function: af, argument: aa },
            TermView::Apply { erased: be, function: bf, argument: ba },
        ) => if ae != be {
            EqTreeView::Leaf(false)
        } else {
            EqTreeView::And(
                Box::new(EqTreeView::Equal(*aa, *ba)),
                Box::new(EqTreeView::Equal(*af, *bf)),
            )
        },
        (TermView::Variable(ai), TermView::Variable(bi)) => EqTreeView::Leaf(ai == bi),
        (TermView::Wrap(aw), TermView::Wrap(bw)) => EqTreeView::Equal(*aw, *bw),
        (TermView::Put(ap), TermView::Put(bp)) => EqTreeView::Equal(*ap, *bp),
        (
            TermView::Duplicate { expression: ae, body: ab },
            TermView::Duplicate { expression: be, body: bb },
        ) => EqTreeView::And(
            Box::new(EqTreeView::Equal(*ae, *be)),
            Box::new(EqTreeView::Equal(*ab, *bb)),
        ),
        _ => EqTreeView::Leaf(false),
    }
}

/// Iterate `spec_eq_step` until the tree is a single leaf, for at most
/// `iters` passes.
pub open spec fn spec_eq_loop(
    tree: EqTreeView,
    defs: Map<Seq<char>, TermView>,
    cache: Map<(u64, u64), bool>,
    fuel: nat,
    iters: nat,
) -> Result<bool, NormalizationError>
    decreases iters,
{
    match tree {
        EqTreeView::Leaf(v) => Ok(v),
        _ => if iters == 0 {
            Err(NormalizationError::OutOfFuel)
        } else {
            match spec_eq_step(tree, defs, cache, fuel) {
                Err(e) => Err(e),
                Ok(t2) => spec_eq_loop(t2, defs, cache, fuel, (iters - 1) as nat),
            }
        },
    }
}

/// Equality modulo reduction: erasure-aware weak-head normalize both sides,
/// try the hash and the cache, then resolve the equality tree.
#[verifier::opaque]
pub open spec fn spec_equivalent(
    av: TermView,
    bv: TermView,
    defs: Map<Seq<char>, TermView>,
    cache: Map<(u64, u64), bool>,
    fuel: nat,
) -> Result<bool, NormalizationError> {
    match spec_whnf(av, defs, true, fuel) {
        Err(e) => Err(e),
        Ok(a) => match spec_whnf(bv, defs, true, fuel) {
            Err(e) => Err(e),
            Ok(b) => {
                let ha = spec_hash(a);
                let hb = spec_hash(b);
                if ha == hb {
                    Ok(true)
                } else if cache.contains_key((ha, hb)) {
                    Ok(cache[(ha, hb)])
                } else {
                    spec_eq_loop(EqTreeView::Equal(a, b), defs, cache, fuel, fuel)
                }
            },
        },
    }
}

/// Resolve one `Equal` goal, as the `Equal` case of `spec_eq_step` does.
#[verifier::rlimit(100)]
fn resolve_equal<D: Definitions, C: EqualityCache>(
    a: Term,
    b: Term,
    definitions: &D,
    cache: &C,
    fuel: u64,
) -> (r: Result<EqualityTree, NormalizationError>)
    ensures
        eq_res_view(r) == spec_eq_step(
            EqTreeView::Equal(a@, b@),
            definitions.defs(),
            cache.contents(),
            fuel as nat,
        ),
{
    proof {
        reveal(spec_eq_step);
        assert(crate::analysis::Empty.defs() =~= Map::<Seq<char>, TermView>::empty());
    }
    let a1 = match a.weak_normalize_in_erased(&crate::analysis::Empty, true, fuel) {
        Ok(t) => t,
        Err(e) => {
            return Err(e);
        },
    };
    let b1 = match b.weak_normalize_in_erased(&crate::analysis::Empty, true, fuel) {
        Ok(t) => t,
        Err(e) => {
            return Err(e);
        },
    };
    let a_hash = a1.hash_code();
    let b_hash = b1.hash_code();
    if a_hash == b_hash {
        return Ok(EqualityTree::Leaf(true));
    }
    match cache.check(a_hash, b_hash) {
        Some(leaf) => {
            return Ok(EqualityTree::Leaf(leaf));
        },
        None => {},
    }
    let ret_a: Option<EqualityTree> = match (&a1, &b1) {
        (
            Term::Apply { function: af, argument: aa, erased: ae },
            Term::Apply { function: bf, argument: ba, erased: be },
        ) => {
            if ae != be {
                Some(EqualityTree::Leaf(false))
            } else {
                let functions = EqualityTree::Equal(af.deep_copy(), bf.deep_copy());
                let arguments = EqualityTree::Equal(aa.deep_copy(), ba.deep_copy());
                proof {
                    assert(tree_view(functions) matches EqTreeView::Equal { .. });
                    assert(tree_view(arguments) matches EqTreeView::Equal { .. });
                }
                Some(EqualityTree::And(Box::new(functions), Box::new(arguments)))
            }
        },
        (Term::Reference(an), Term::Reference(bn)) => {
            if an.eq(bn) {
                Some(EqualityTree::Leaf(true))
            } else {
                None
            }
        },
        _ => {
            proof {
                lemma_view_shape(a1);
                lemma_view_shape(b1);
            }
            None
        },
    };
    let a2 = match a1.weak_normalize_in_erased(definitions, true, fuel) {
        Ok(t) => t,
        Err(e) => {
            return Err(e);
        },
    };
    let b2 = match b1.weak_normalize_in_erased(definitions, true, fuel) {
        Ok(t) => t,
        Err(e) => {
            return Err(e);
        },
    };
    let ghost a2v = a2@;
    let ghost b2v = b2@;
    let ret_b: EqualityTree = match (a2, b2) {
        (Term::Universe, Term::Universe) => EqualityTree::Leaf(true),
        (
            Term::Function { argument_type: aat, return_type: art, erased: ae },
            Term::Function { argument_type: bat, return_type: brt, erased: be },
        ) => {
            if ae != be {
                EqualityTree::Leaf(false)
            } else {
                let argument_types = EqualityTree::Equal(*aat, *bat);
                let return_types = EqualityTree::Equal(*art, *brt);
                proof {
                    assert(tree_view(argument_types) matches EqTreeView::Equal { .. });
                    assert(tree_view(return_types) matches EqTreeView::Equal { .. });
                }
                EqualityTree::And(Box::new(argument_types), Box::new(return_types))
            }
        },
        (
            Term::Lambda { body: ab, erased: ae },
            Term::Lambda { body: bb, erased: be },
        ) => {
            if ae != be {
                EqualityTree::Leaf(false)
            } else {
                EqualityTree::Equal(*ab, *bb)
            }
        },
        (
            Term::Apply { function: af, argument: aa, erased: ae },
            Term::Apply { function: bf, argument: ba, erased: be },
        ) => {
            if ae != be {
                EqualityTree::Leaf(false)
            } else {
                let arguments = EqualityTree::Equal(*aa, *ba);
                let functions = EqualityTree::Equal(*af, *bf);
                proof {
                    assert(tree_view(arguments) matches EqTreeView::Equal { .. });
                    assert(tree_view(functions) matches EqTreeView::Equal { .. });
                }
                EqualityTree::And(Box::new(arguments), Box::new(functions))
            }
        },
        (Term::Variable(ai), Term::Variable(bi)) => EqualityTree::Leaf(ai.0 == bi.0),
        (Term::Wrap(aw), Term::Wrap(bw)) => EqualityTree::Equal(*aw, *bw),
        (Term::Put(ap), Term::Put(bp)) => EqualityTree::Equal(*ap, *bp),
        (
            Term::Duplicate { expression: aex, body: ab },
            Term::Duplicate { expression: bex, body: bb },
        ) => {
            let expressions = EqualityTree::Equal(*aex, *bex);
            let bodies = EqualityTree::Equal(*ab, *bb);
            proof {
                assert(tree_view(expressions) matches EqTreeView::Equal { .. });
                assert(tree_view(bodies) matches EqTreeView::Equal { .. });
            }
            EqualityTree::And(Box::new(expressions), Box::new(bodies))
        },
        (x, y) => {
            proof {
                lemma_view_shape(x);
                lemma_view_shape(y);
            }
            EqualityTree::Leaf(false)
        },
    };
    proof {
        assert(tree_view(ret_b) == spec_fan_out(a2v, b2v));
    }
    match ret_a {
        Some(x) => {
            proof {
                assert(tree_view(x) == spec_fast_path((a1@), (b1@)).unwrap());
            }
            Ok(EqualityTree::Or(Box::new(x), Box::new(ret_b)))
        },
        None => Ok(ret_b),
    }
}

impl Term {
    /// Equality modulo reduction, with memoization.  The result mirrors
    /// `spec_equivalent` on the cache's prior contents; at most one new
    /// verdict, the result itself, is recorded in the cache.
    #[verifier::rlimit(100)]
    pub fn equivalent_in<D: Definitions, C: EqualityCache>(
        &self,
        other: &Term,
        definitions: &D,
        cache: &mut C,
        fuel: u64,
    ) -> (r: Result<bool, NormalizationError>)
        ensures
            match r {
                Ok(v) => spec_equivalent(
                    self@,
                    other@,
                    definitions.defs(),
                    old(cache).contents(),
                    fuel as nat,
                ) == Ok::<bool, NormalizationError>(v),
                Err(e) => spec_equivalent(
                    self@,
                    other@,
                    definitions.defs(),
                    old(cache).contents(),
                    fuel as nat,
                ) == Err::<bool, NormalizationError>(e),
            },
            final(cache).contents() == spec_equivalent_cache(
                self@,
                other@,
                definitions.defs(),
                old(cache).contents(),
                fuel as nat,
                C::retains(),
            ),
    {
        proof {
            reveal(spec_equivalent);
            reveal(spec_equivalent_cache);
        }
        let ghost goal = spec_equivalent(
            self@,
            other@,
            definitions.defs(),
            cache.contents(),
            fuel as nat,
        );
        let ghost defsv = definitions.defs();
        let ghost cachev = cache.contents();
        let a = match self.weak_normalize_in_erased(definitions, true, fuel) {
            Ok(t) => t,
            Err(e) => {
                return Err(e);
            },
        };
        let b = match other.weak_normalize_in_erased(definitions, true, fuel) {
            Ok(t) => t,
            Err(e) => {
                return Err(e);
            },
        };
        let a_hash = a.hash_code();
        let b_hash = b.hash_code();
        if a_hash == b_hash {
            return Ok(true);
        }
        match cache.check(a_hash, b_hash) {
            Some(leaf) => {
                return Ok(leaf);
            },
            None => {},
        }
        let ghost m = spec_eq_loop(
            EqTreeView::Equal(a@, b@),
            defsv,
            cachev,
            fuel as nat,
            fuel as nat,
        );
        let ghost cgoal = spec_equivalent_cache(
            self@,
            other@,
            defsv,
            cachev,
            fuel as nat,
            C::retains(),
        );
        proof {
            assert(m == goal);
        }
        let mut tree = EqualityTree::Equal(a, b);
        let mut iters: u64 = fuel;
        loop
            invariant
                spec_eq_loop(tree_view(tree), defsv, cachev, fuel as nat, iters as nat) == goal,
                defsv == definitions.defs(),
                cachev == cache.contents(),
                cachev == old(cache).contents(),
                goal == spec_equivalent(self@, other@, defsv, cachev, fuel as nat),
                cgoal == spec_equivalent_cache(self@, other@, defsv, cachev, fuel as nat, C::retains()),
                cgoal == (match goal {
                    Ok(v) => if C::retains() {
                        cachev.insert((a_hash, b_hash), v)
                    } else {
                        cachev
                    },
                    Err(_) => cachev,
                }),
                !cachev.contains_key((a_hash, b_hash)),
                iters <= fuel,
            decreases iters,
        {
            proof {
                lemma_tree_shape(tree);
            }
            if let EqualityTree::Leaf(v) = &tree {
                let leaf = *v;
                cache.register(a_hash, b_hash, leaf);
                return Ok(leaf);
            }
            if iters == 0 {
                return Err(NormalizationError::OutOfFuel);
            }
            tree = match equivalence_helper(tree, definitions, cache, fuel) {
                Ok(t) => t,
                Err(e) => {
                    return Err(e);
                },
            };
            iters = iters - 1;
        }
    }

    /// Equality modulo reduction, with memoization.
    pub fn equivalent<D: Definitions, C: EqualityCache>(
        &self,
        other: &Term,
        definitions: &D,
        cache: &mut C,
        fuel: u64,
    ) -> (r: Result<bool, NormalizationError>)
        ensures
            match r {
                Ok(v) => spec_equivalent(
                    self@,
                    other@,
                    definitions.defs(),
                    old(cache).contents(),
                    fuel as nat,
                ) == Ok::<bool, NormalizationError>(v),
                Err(e) => spec_equivalent(
                    self@,
                    other@,
                    definitions.defs(),
                    old(cache).contents(),
                    fuel as nat,
                ) == Err::<bool, NormalizationError>(e),
            },
            final(cache).contents() == spec_equivalent_cache(
                self@,
                other@,
                definitions.defs(),
                old(cache).contents(),
                fuel as nat,
                C::retains(),
            ),
    {
        self.equivalent_in(other, definitions, cache, fuel)
    }
}

/// An equality tree's view has the same outer constructor, and a settled
/// leaf keeps its verdict.
proof fn lemma_tree_shape(x: EqualityTree)
    ensures
        (x matches EqualityTree::Equal(..)) <==> (tree_view(x) matches EqTreeView::Equal(..)),
        (x matches EqualityTree::Or(..)) <==> (tree_view(x) matches EqTreeView::Or(..)),
        (x matches EqualityTree::And(..)) <==> (tree_view(x) matches EqTreeView::And(..)),
        (x matches EqualityTree::Leaf(..)) <==> (tree_view(x) matches EqTreeView::Leaf(..)),
        forall|v: bool| (x matches EqualityTree::Leaf(w) && w == v) <==> tree_view(x)
            == EqTreeView::Leaf(v),
{
    match x {
        EqualityTree::Equal(..) => {
        },
        EqualityTree::Or(..) => {
        },
        EqualityTree::And(..) => {
        },
        EqualityTree::Leaf(_) => {
        },
    }
}

/// How one equivalence query changes the cache: the verdict of a resolved
/// goal is recorded under the two hashes when the cache retains entries;
/// early answers record nothing.
#[verifier::opaque]
pub open spec fn spec_equivalent_cache(
    av: TermView,
    bv: TermView,
    defs: Map<Seq<char>, TermView>,
    cache: Map<(u64, u64), bool>,
    fuel: nat,
    retains: bool,
) -> Map<(u64, u64), bool> {
    match spec_whnf(av, defs, true, fuel) {
        Err(_) => cache,
        Ok(a) => match spec_whnf(bv, defs, true, fuel) {
            Err(_) => cache,
            Ok(b) => {
                let ha = spec_hash(a);
                let hb = spec_hash(b);
                if ha == hb {
                    cache
                } else if cache.contains_key((ha, hb)) {
                    cache
                } else {
                    match spec_eq_loop(EqTreeView::Equal(a, b), defs, cache, fuel, fuel) {
                        Ok(v) => if retains {
                            cache.insert((ha, hb), v)
                        } else {
                            cache
                        },
                        Err(_) => cache,
                    }
                }
            },
        },
    }
}

/// One rewriting pass over the equality tree, mirrored by `spec_eq_step`.
#[verifier::rlimit(100)]
fn equivalence_helper<D: Definitions, C: EqualityCache>(
    tree: EqualityTree,
    definitions: &D,
    cache: &C,
    fuel: u64,
) -> (r: Result<EqualityTree, NormalizationError>)
    ensures
        eq_res_view(r) == spec_eq_step(
            tree_view(tree),
            definitions.defs(),
            cache.contents(),
            fuel as nat,
        ),
    decreases tree,
{
    proof {
        reveal(spec_eq_step);
    }
    match tree {
        EqualityTree::Leaf(v) => Ok(EqualityTree::Leaf(v)),
        EqualityTree::And(a, b) => {
            proof {
                lemma_tree_shape(*a);
                lemma_tree_shape(*b);
            }
            let a_false = matches!(*a, EqualityTree::Leaf(false));
            let b_false = matches!(*b, EqualityTree::Leaf(false));
            let a_true = matches!(*a, EqualityTree::Leaf(true));
            let b_true = matches!(*b, EqualityTree::Leaf(true));
            if a_false || b_false {
                Ok(EqualityTree::Leaf(false))
            } else if a_true && b_true {
                Ok(EqualityTree::Leaf(true))
            } else {
                let a2 = match equivalence_helper(*a, definitions, cache, fuel) {
                    Ok(t) => t,
                    Err(e) => {
                        return Err(e);
                    },
                };
                let b2 = match equivalence_helper(*b, definitions, cache, fuel) {
                    Ok(t) => t,
                    Err(e) => {
                        return Err(e);
                    },
                };
                let r = EqualityTree::And(Box::new(a2), Box::new(b2));
                proof {
                    assert(tree_view(r) matches EqTreeView::And { .. });
                }
                Ok(r)
            }
        },
        EqualityTree::Or(a, b) => {
            proof {
                lemma_tree_shape(*a);
                lemma_tree_shape(*b);
            }
            let a_false = matches!(*a, EqualityTree::Leaf(false));
            let b_false = matches!(*b, EqualityTree::Leaf(false));
            let a_true = matches!(*a, EqualityTree::Leaf(true));
            let b_true = matches!(*b, EqualityTree::Leaf(true));
            if a_true || b_true {
                Ok(EqualityTree::Leaf(true))
            } else if a_false && b_false {
                Ok(EqualityTree::Leaf(false))
            } else {
                let a2 = match equivalence_helper(*a, definitions, cache, fuel) {
                    Ok(t) => t,
                    Err(e) => {
                        return Err(e);
                    },
                };
                let b2 = match equivalence_helper(*b, definitions, cache, fuel) {
                    Ok(t) => t,
                    Err(e) => {
                        return Err(e);
                    },
                };
                let r = EqualityTree::Or(Box::new(a2), Box::new(b2));
                proof {
                    assert(tree_view(r) matches EqTreeView::Or { .. });
                }
                Ok(r)
            }
        },
        EqualityTree::Equal(a, b) => resolve_equal(a, b, definitions, cache, fuel),
    }
}

} // verus!
