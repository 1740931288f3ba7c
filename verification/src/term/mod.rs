use vstd::prelude::*;

pub mod eq;
pub mod laws;
pub mod map_reference;
pub mod normalize;
pub mod parse;
pub mod stratified;

verus! {

/// A de Bruijn index: 0 names the innermost enclosing binder.
#[derive(Clone, Copy, PartialEq, Eq, Structural, Debug, Hash)]
pub struct Index(pub usize);

impl Index {
    /// The innermost index.
    pub fn top() -> (r: Index)
        ensures
            r.0 == 0,
    {
        Index(0)
    }

    /// The index one binder further out, saturating at the machine limit.
    pub fn child(&self) -> (r: Index)
        ensures
            r.0 == bump(self.0 as nat),
    {
        if self.0 < usize::MAX {
            Index(self.0 + 1)
        } else {
            Index(self.0)
        }
    }

    /// The index one binder closer in.
    pub fn parent(&self) -> (r: Index)
        requires
            self.0 >= 1,
        ensures
            r.0 == self.0 - 1,
    {
        Index(self.0 - 1)
    }

    /// Whether this index is bound more deeply than `other`.
    pub fn within(&self, other: Index) -> (r: bool)
        ensures
            r == (self.0 > other.0),
    {
        self.0 > other.0
    }

    /// Whether this index is bound more deeply than `other`.
    pub fn is_above(&self, other: Index) -> (r: bool)
        ensures
            r == (self.0 > other.0),
    {
        self.0 > other.0
    }

    /// Whether this index is bound less deeply than `other`.
    pub fn is_below(&self, other: Index) -> (r: bool)
        ensures
            r == (self.0 < other.0),
    {
        self.0 < other.0
    }

    /// The raw numeric value.
    pub fn value(self) -> (r: usize)
        ensures
            r == self.0,
    {
        self.0
    }
}

/// Successor on index values, saturating at the machine limit so that index
/// arithmetic is total.  Terms that anyone can build in memory never come
/// near the limit, and the shift and substitution laws hold below it.
pub open spec fn bump(i: nat) -> nat {
    if i < usize::MAX as nat {
        i + 1
    } else {
        i
    }
}

/// The mathematical shape of a term: what contracts and proofs speak about.
/// Reference names appear as character sequences.
pub enum TermView {
    Variable(nat),
    Lambda { erased: bool, body: Box<TermView> },
    Apply { erased: bool, function: Box<TermView>, argument: Box<TermView> },
    Put(Box<TermView>),
    Duplicate { expression: Box<TermView>, body: Box<TermView> },
    Reference(Seq<char>),
    Universe,
    Function { erased: bool, argument_type: Box<TermView>, return_type: Box<TermView> },
    Annotation { checked: bool, expression: Box<TermView>, ty: Box<TermView> },
    Wrap(Box<TermView>),
}

/// A term of the calculus, with de Bruijn indices.
///
/// `Lambda` and `Duplicate` bodies sit under one extra binder; the
/// `return_type` of `Function` sits under two (index 1 is the function
/// itself, index 0 its argument).
#[derive(Debug)]
pub enum Term {
    Variable(Index),
    Lambda { body: Box<Term>, erased: bool },
    Apply { function: Box<Term>, argument: Box<Term>, erased: bool },
    Put(Box<Term>),
    Duplicate { expression: Box<Term>, body: Box<Term> },
    Reference(String),
    Universe,
    Function { argument_type: Box<Term>, return_type: Box<Term>, erased: bool },
    Annotation { checked: bool, expression: Box<Term>, ty: Box<Term> },
    Wrap(Box<Term>),
}

/// The view of a term: the same tree with `nat` indices and names as
/// character sequences.
pub open spec fn view_of(t: Term) -> TermView
    decreases t,
{
    match t {
        Term::Variable(i) => TermView::Variable(i.0 as nat),
        Term::Lambda { body, erased } => TermView::Lambda {
            erased: erased,
            body: Box::new(view_of(*body)),
        },
        Term::Apply { function, argument, erased } => TermView::Apply {
            erased: erased,
            function: Box::new(view_of(*function)),
            argument: Box::new(view_of(*argument)),
        },
        Term::Put(inner) => TermView::Put(Box::new(view_of(*inner))),
        Term::Duplicate { expression, body } => TermView::Duplicate {
            expression: Box::new(view_of(*expression)),
            body: Box::new(view_of(*body)),
        },
        Term::Reference(name) => TermView::Reference(name@),
        Term::Universe => TermView::Universe,
        Term::Function { argument_type, return_type, erased } => TermView::Function {
            erased: erased,
            argument_type: Box::new(view_of(*argument_type)),
            return_type: Box::new(view_of(*return_type)),
        },
        Term::Annotation { checked, expression, ty } => TermView::Annotation {
            checked: checked,
            expression: Box::new(view_of(*expression)),
            ty: Box::new(view_of(*ty)),
        },
        Term::Wrap(inner) => TermView::Wrap(Box::new(view_of(*inner))),
    }
}

impl View for Term {
    type V = TermView;

    open spec fn view(&self) -> TermView {
        view_of(*self)
    }
}

impl Term {
    /// A deep copy whose view equals this term's view.
    pub fn deep_copy(&self) -> (r: Term)
        ensures
            r@ == self@,
        decreases self,
    {
        match self {
            Term::Variable(i) => Term::Variable(*i),
            Term::Lambda { body, erased } => Term::Lambda {
                body: Box::new(body.deep_copy()),
                erased: *erased,
            },
            Term::Apply { function, argument, erased } => Term::Apply {
                function: Box::new(function.deep_copy()),
                argument: Box::new(argument.deep_copy()),
                erased: *erased,
            },
            Term::Put(t) => Term::Put(Box::new(t.deep_copy())),
            Term::Duplicate { expression, body } => Term::Duplicate {
                expression: Box::new(expression.deep_copy()),
                body: Box::new(body.deep_copy()),
            },
            Term::Reference(name) => Term::Reference(name.clone()),
            Term::Universe => Term::Universe,
            Term::Function { argument_type, return_type, erased } => Term::Function {
                argument_type: Box::new(argument_type.deep_copy()),
                return_type: Box::new(return_type.deep_copy()),
                erased: *erased,
            },
            Term::Annotation { checked, expression, ty } => Term::Annotation {
                checked: *checked,
                expression: Box::new(expression.deep_copy()),
                ty: Box::new(ty.deep_copy()),
            },
            Term::Wrap(t) => Term::Wrap(Box::new(t.deep_copy())),
        }
    }
}

} // verus!
