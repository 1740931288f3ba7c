use vstd::prelude::*;

pub mod typed;
pub mod untyped;

use crate::term::{Index, Term};

verus! {

/// Where parsing stopped: a character position in the input.
#[derive(Debug, Clone, Copy, PartialEq, Eq, Structural)]
pub struct ParseError {
    pub position: usize,
}

/// The names of the binders in scope, outermost first.
pub struct Context {
    pub names: Vec<String>,
}

impl Context {
    /// The empty scope.
    pub fn new() -> (r: Context)
        ensures
            r.names@.len() == 0,
    {
        Context { names: Vec::new() }
    }

    /// The scope extended with one more binder.
    pub fn with(&self, name: String) -> (r: Context)
        ensures
            r.names@ == self.names@.push(name),
    {
        let mut names: Vec<String> = Vec::new();
        let n = self.names.len();
        let mut i: usize = 0;
        while i < n
            invariant
                0 <= i <= n,
                n == self.names@.len(),
                names@ == self.names@.take(i as int),
            decreases n - i,
        {
            names.push(self.names[i].clone());
            proof {
                assert(names@ =~= self.names@.take(i + 1));
            }
            i = i + 1;
        }
        names.push(name);
        proof {
            assert(self.names@.take(n as int) =~= self.names@);
        }
        Context { names }
    }

    /// Resolve a name against the binders in scope, innermost first: the
    /// index of the nearest binder of that name, as a de Bruijn distance.
    pub fn resolve(&self, name: &String) -> (r: Option<Index>)
        ensures
            match r {
                Some(ix) => ix.0 < self.names@.len() && self.names@[self.names@.len() - 1
                    - ix.0].view() == name@ && forall|k: int|
                    self.names@.len() - 1 - ix.0 < k < self.names@.len() ==> (
                    #[trigger] self.names@[k]).view() != name@,
                None => forall|k: int|
                    0 <= k < self.names@.len() ==> (#[trigger] self.names@[k]).view() != name@,
            },
    {
        let n = self.names.len();
        let mut idx: usize = 0;
        while idx < n
            invariant
                0 <= idx <= n,
                n == self.names@.len(),
                forall|k: int| n - idx <= k < n ==> (#[trigger] self.names@[k]).view() != name@,
            decreases n - idx,
        {
            if self.names[n - 1 - idx].eq(name) {
                return Some(Index(idx));
            }
            idx = idx + 1;
        }
        None
    }

    /// Look a name up without consuming the scope.
    pub fn lookup(&self, name: &String) -> (r: Option<Index>)
        ensures
            match r {
                Some(ix) => ix.0 < self.names@.len() && self.names@[self.names@.len() - 1
                    - ix.0].view() == name@ && forall|k: int|
                    self.names@.len() - 1 - ix.0 < k < self.names@.len() ==> (
                    #[trigger] self.names@[k]).view() != name@,
                None => forall|k: int|
                    0 <= k < self.names@.len() ==> (#[trigger] self.names@[k]).view() != name@,
            },
    {
        self.resolve(name)
    }
}

/// Whether a character can appear in a name.
fn is_name_char(c: char) -> (r: bool) {
    (c >= 'a' && c <= 'z') || (c >= 'A' && c <= 'Z') || (c >= '0' && c <= '9')
}

/// Whether a character is blank.
fn is_space(c: char) -> (r: bool) {
    c == ' ' || c == '\n' || c == '\t' || c == '\r'
}

/// The first non-blank position at or after `i`.
pub fn skip_spaces(s: &str, n: usize, i: usize) -> (r: usize)
    requires
        n == s@.len(),
        i <= n,
    ensures
        i <= r <= n,
{
    let mut j = i;
    while j < n
        invariant
            i <= j <= n,
            n == s@.len(),
        decreases n - j,
    {
        if !is_space(s.get_char(j)) {
            return j;
        }
        j = j + 1;
    }
    j
}

/// The name starting at `i`: its characters and the position after them.
pub fn parse_name(s: &str, n: usize, i: usize) -> (r: (String, usize))
    requires
        n == s@.len(),
        i <= n,
    ensures
        i <= r.1 <= n,
{
    let mut j = i;
    while j < n
        invariant
            i <= j <= n,
            n == s@.len(),
        decreases n - j,
    {
        if !is_name_char(s.get_char(j)) {
            break ;
        }
        j = j + 1;
    }
    let name = String::from_str(s.substring_char(i, j));
    (name, j)
}

/// Demand the character `c` after any blanks; the position after it.
pub fn expect(s: &str, n: usize, i: usize, c: char) -> (r: Result<usize, ParseError>)
    requires
        n == s@.len(),
        i <= n,
    ensures
        match r {
            Ok(j) => i < j <= n,
            Err(_) => true,
        },
{
    let j = skip_spaces(s, n, i);
    if j < n && s.get_char(j) == c {
        Ok(j + 1)
    } else {
        Err(ParseError { position: j })
    }
}

/// Parse one term of the surface syntax starting at `i`, resolving names
/// against `ctx`: the term and the position after it.  `fuel` bounds the
/// recursion depth; the input's length plus one always suffices, since
/// every descent first consumes a character.
pub fn parse_term(s: &str, n: usize, i: usize, ctx: &Context, fuel: u64) -> (r: Result<
    (Term, usize),
    ParseError,
>)
    requires
        n == s@.len(),
        i <= n,
    ensures
        match r {
            Ok(p) => i < p.1 <= n,
            Err(_) => true,
        },
    decreases fuel,
{
    if fuel == 0 {
        return Err(ParseError { position: i });
    }
    let i = skip_spaces(s, n, i);
    if i >= n {
        return Err(ParseError { position: i });
    }
    let c = s.get_char(i);
    if c == '\\' || c == '/' {
        let erased = c == '/';
        let (name, j) = parse_name(s, n, skip_spaces(s, n, i + 1));
        if name.unicode_len() == 0 {
            return Err(ParseError { position: j });
        }
        let inner = ctx.with(name);
        let (body, j) = match parse_term(s, n, j, &inner, fuel - 1) {
            Ok(p) => p,
            Err(e) => {
                return Err(e);
            },
        };
        Ok((Term::Lambda { body: Box::new(body), erased }, j))
    } else if c == '(' || c == '[' {
        let erased = c == '[';
        let close = if erased {
            ']'
        } else {
            ')'
        };
        let (function, j) = match parse_term(s, n, i + 1, ctx, fuel - 1) {
            Ok(p) => p,
            Err(e) => {
                return Err(e);
            },
        };
        let (argument, j) = match parse_term(s, n, j, ctx, fuel - 1) {
            Ok(p) => p,
            Err(e) => {
                return Err(e);
            },
        };
        let mut term = Term::Apply {
            function: Box::new(function),
            argument: Box::new(argument),
            erased,
        };
        let mut j = j;
        loop
            invariant
                n == s@.len(),
                i < j <= n,
                fuel >= 1,
            ensures
                i < j <= n,
            decreases n - j,
        {
            let k = skip_spaces(s, n, j);
            if k >= n {
                return Err(ParseError { position: k });
            }
            if s.get_char(k) == close {
                j = k + 1;
                break ;
            }
            let (argument, k2) = match parse_term(s, n, k, ctx, fuel - 1) {
                Ok(p) => p,
                Err(e) => {
                    return Err(e);
                },
            };
            term = Term::Apply {
                function: Box::new(term),
                argument: Box::new(argument),
                erased,
            };
            j = k2;
        }
        Ok((term, j))
    } else if c == '{' {
        let (expression, j) = match parse_term(s, n, i + 1, ctx, fuel - 1) {
            Ok(p) => p,
            Err(e) => {
                return Err(e);
            },
        };
        let j = match expect(s, n, j, ':') {
            Ok(j) => j,
            Err(e) => {
                return Err(e);
            },
        };
        let (ty, j) = match parse_term(s, n, j, ctx, fuel - 1) {
            Ok(p) => p,
            Err(e) => {
                return Err(e);
            },
        };
        let j = match expect(s, n, j, '}') {
            Ok(j) => j,
            Err(e) => {
                return Err(e);
            },
        };
        Ok(
            (
                Term::Annotation {
                    checked: false,
                    expression: Box::new(expression),
                    ty: Box::new(ty),
                },
                j,
            ),
        )
    } else if c == '.' {
        let (inner, j) = match parse_term(s, n, i + 1, ctx, fuel - 1) {
            Ok(p) => p,
            Err(e) => {
                return Err(e);
            },
        };
        Ok((Term::Put(Box::new(inner)), j))
    } else if c == '!' {
        let (inner, j) = match parse_term(s, n, i + 1, ctx, fuel - 1) {
            Ok(p) => p,
            Err(e) => {
                return Err(e);
            },
        };
        Ok((Term::Wrap(Box::new(inner)), j))
    } else if c == ':' {
        let (name, j) = parse_name(s, n, skip_spaces(s, n, i + 1));
        if name.unicode_len() == 0 {
            return Err(ParseError { position: j });
        }
        let j = match expect(s, n, j, '=') {
            Ok(j) => j,
            Err(e) => {
                return Err(e);
            },
        };
        let (expression, j) = match parse_term(s, n, j, ctx, fuel - 1) {
            Ok(p) => p,
            Err(e) => {
                return Err(e);
            },
        };
        let inner = ctx.with(name);
        let (body, j) = match parse_term(s, n, j, &inner, fuel - 1) {
            Ok(p) => p,
            Err(e) => {
                return Err(e);
            },
        };
        Ok(
            (
                Term::Duplicate { expression: Box::new(expression), body: Box::new(body) },
                j,
            ),
        )
    } else if c == '+' || c == '_' {
        let erased = c == '_';
        let (self_name, j) = parse_name(s, n, skip_spaces(s, n, i + 1));
        let j = match expect(s, n, j, ',') {
            Ok(j) => j,
            Err(e) => {
                return Err(e);
            },
        };
        let (argument_name, j) = parse_name(s, n, skip_spaces(s, n, j));
        let j = match expect(s, n, j, ':') {
            Ok(j) => j,
            Err(e) => {
                return Err(e);
            },
        };
        let (argument_type, j) = match parse_term(s, n, j, ctx, fuel - 1) {
            Ok(p) => p,
            Err(e) => {
                return Err(e);
            },
        };
        let inner = ctx.with(self_name).with(argument_name);
        let (return_type, j) = match parse_term(s, n, j, &inner, fuel - 1) {
            Ok(p) => p,
            Err(e) => {
                return Err(e);
            },
        };
        Ok(
            (
                Term::Function {
                    argument_type: Box::new(argument_type),
                    return_type: Box::new(return_type),
                    erased,
                },
                j,
            ),
        )
    } else if c == '*' {
        Ok((Term::Universe, i + 1))
    } else if c == '^' {
        let mut j = i + 1;
        let mut value: usize = 0;
        let mut any = false;
        while j < n
            invariant
                i < j <= n,
                n == s@.len(),
            decreases n - j,
        {
            let d = s.get_char(j);
            if d >= '0' && d <= '9' {
                let digit = (d as u32 - '0' as u32) as usize;
                if value > (usize::MAX - digit) / 10 {
                    return Err(ParseError { position: j });
                }
                value = value * 10 + digit;
                any = true;
                j = j + 1;
            } else {
                break ;
            }
        }
        if !any {
            return Err(ParseError { position: j });
        }
        Ok((Term::Variable(Index(value)), j))
    } else if is_name_char(c) {
        let (name, j) = parse_name(s, n, i);
        if j <= i {
            return Err(ParseError { position: i });
        }
        match ctx.resolve(&name) {
            Some(index) => Ok((Term::Variable(index), j)),
            None => Ok((Term::Reference(name), j)),
        }
    } else {
        Err(ParseError { position: i })
    }
}

/// Parse a whole input as one term: trailing blanks allowed, nothing else.
pub fn parse_str(s: &str) -> (r: Result<Term, ParseError>) {
    let n = s.unicode_len();
    if n == usize::MAX {
        return Err(ParseError { position: 0 });
    }
    let fuel: u64 = if n < 1000000 {
        (n + 1) as u64
    } else {
        1000001
    };
    let ctx = Context::new();
    let (term, j) = match parse_term(s, n, 0, &ctx, fuel) {
        Ok(p) => p,
        Err(e) => {
            return Err(e);
        },
    };
    let j = skip_spaces(s, n, j);
    if j < n {
        return Err(ParseError { position: j });
    }
    Ok(term)
}

/// The input with empty lines and lines starting with `-` removed.
pub fn strip_comments(s: &str) -> (r: String) {
    let n = s.unicode_len();
    let mut out = String::new();
    let mut i: usize = 0;
    while i < n
        invariant
            0 <= i <= n,
            n == s@.len(),
        decreases n - i,
    {
        let start = i;
        let mut j = i;
        while j < n
            invariant
                start <= j <= n,
                n == s@.len(),
            decreases n - j,
        {
            if s.get_char(j) == '\n' {
                break ;
            }
            j = j + 1;
        }
        let keep = if start < j {
            s.get_char(start) != '-'
        } else {
            false
        };
        if keep {
            out.append(s.substring_char(start, j));
            out.append("\n");
        }
        i = if j < n {
            j + 1
        } else {
            j
        };
    }
    out
}

} // verus!
