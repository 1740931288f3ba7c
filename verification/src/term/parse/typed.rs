use vstd::prelude::*;

use crate::analysis::{DefinitionResult, TypedDefinitions};
use crate::term::{Term, TermView};
use crate::term::parse::{expect, parse_name, parse_term, skip_spaces, strip_comments, Context, ParseError};
use crate::term::parse::untyped;

verus! {

/// Typed global definitions: each name with its declared type and body,
/// in the order written.  A later record for the same name shadows an
/// earlier one.
pub struct Definitions {
    pub terms: Vec<(String, (Term, Term))>,
}

/// The record list as a map, later records shadowing earlier ones.
pub open spec fn assoc_typed(s: Seq<(String, (Term, Term))>) -> Map<Seq<char>, (TermView, TermView)>
    decreases s.len(),
{
    if s.len() == 0 {
        Map::empty()
    } else {
        assoc_typed(s.drop_last()).insert(s.last().0@, (s.last().1.0@, s.last().1.1@))
    }
}

/// A record that no later record shadows decides the map's entry.
proof fn lemma_assoc_found(s: Seq<(String, (Term, Term))>, name: Seq<char>, k: int)
    requires
        0 <= k < s.len(),
        s[k].0@ == name,
        forall|j: int| k < j < s.len() ==> (#[trigger] s[j]).0@ != name,
    ensures
        assoc_typed(s).contains_key(name),
        assoc_typed(s)[name] == (s[k].1.0@, s[k].1.1@),
    decreases s.len(),
{
    if k == s.len() - 1 {
    } else {
        assert(s.drop_last()[k] == s[k]);
        lemma_assoc_found(s.drop_last(), name, k);
    }
}

/// A name no record carries is absent from the map.
proof fn lemma_assoc_absent(s: Seq<(String, (Term, Term))>, name: Seq<char>)
    requires
        forall|j: int| 0 <= j < s.len() ==> (#[trigger] s[j]).0@ != name,
    ensures
        !assoc_typed(s).contains_key(name),
    decreases s.len(),
{
    if s.len() > 0 {
        lemma_assoc_absent(s.drop_last(), name);
    }
}

impl TypedDefinitions for Definitions {
    open spec fn typed_defs(&self) -> Map<Seq<char>, (TermView, TermView)> {
        assoc_typed(self.terms@)
    }

    fn get_typed(&self, name: &String) -> (r: Option<DefinitionResult<(Term, Term)>>) {
        let n = self.terms.len();
        let mut k = n;
        while k > 0
            invariant
                0 <= k <= n,
                n == self.terms@.len(),
                forall|j: int| k <= j < n ==> (#[trigger] self.terms@[j]).0@ != name@,
            decreases k,
        {
            k = k - 1;
            if self.terms[k].0.eq(name) {
                let pair = (self.terms[k].1.0.deep_copy(), self.terms[k].1.1.deep_copy());
                proof {
                    lemma_assoc_found(self.terms@, name@, k as int);
                }
                return Some(DefinitionResult::Owned(pair));
            }
        }
        proof {
            lemma_assoc_absent(self.terms@, name@);
        }
        None
    }
}

impl Definitions {
    /// Parse a definition file: `name : type = body` records, with empty
    /// lines and lines starting with `-` skipped.
    pub fn from_source(source: &str) -> (r: Result<Definitions, ParseError>) {
        let filtered = strip_comments(source);
        let s = filtered.as_str();
        let n = s.unicode_len();
        if n >= 1000000 {
            return Err(ParseError { position: 0 });
        }
        let fuel: u64 = (n + 1) as u64;
        let ctx = Context::new();
        let mut terms: Vec<(String, (Term, Term))> = Vec::new();
        let mut i: usize = 0;
        loop
            invariant
                i <= n,
                n == s@.len(),
            decreases n - i,
        {
            i = skip_spaces(s, n, i);
            if i >= n {
                break ;
            }
            let (name, j) = parse_name(s, n, i);
            if name.unicode_len() == 0 {
                return Err(ParseError { position: j });
            }
            let j = match expect(s, n, j, ':') {
                Ok(j) => j,
                Err(e) => {
                    return Err(e);
                },
            };
            let (ty, j) = match parse_term(s, n, j, &ctx, fuel) {
                Ok(p) => p,
                Err(e) => {
                    return Err(e);
                },
            };
            let j = match expect(s, n, j, '=') {
                Ok(j) => j,
                Err(e) => {
                    return Err(e);
                },
            };
            let (body, j) = match parse_term(s, n, j, &ctx, fuel) {
                Ok(p) => p,
                Err(e) => {
                    return Err(e);
                },
            };
            terms.push((name, (ty, body)));
            i = j;
        }
        Ok(Definitions { terms })
    }

    /// Forget the declared types, keeping each name's body.
    pub fn untyped(&self) -> (r: untyped::Definitions) {
        let mut terms: Vec<(String, Term)> = Vec::new();
        let n = self.terms.len();
        let mut i: usize = 0;
        while i < n
            invariant
                0 <= i <= n,
                n == self.terms@.len(),
            decreases n - i,
        {
            terms.push((self.terms[i].0.clone(), self.terms[i].1.1.deep_copy()));
            i = i + 1;
        }
        untyped::Definitions { terms }
    }
}

} // verus!
