use vstd::prelude::*;

use crate::analysis::Definitions;
use crate::net::{
    spec_add, spec_connect, spec_follow, spec_port, wf_net, Agent, AgentType, Index, Net, NetModel,
    Port, Slot, MAX_NODES,
};
use crate::term::{Term, TermView};
use crate::term::normalize::spec_subst;
use crate::term::stratified::Stratified;

verus! {

/// Why a term could not be compiled to a net.
///
/// `TypedTerm` reports a type-level construct that erasure should have
/// removed; the other cases report an unbound name or index, an arena
/// grown past the packed address width, or an exhausted step bound.
#[derive(Debug)]
pub enum NetError {
    TypedTerm(Term),
    UndefinedReference(String),
    UnboundIndex,
    OutOfSpace,
    OutOfFuel,
}

/// The view of a net-compilation error.
pub enum NetErrorView {
    TypedTerm(TermView),
    UndefinedReference(Seq<char>),
    UnboundIndex,
    OutOfSpace,
    OutOfFuel,
}

/// The view of a net-compilation error.
pub open spec fn net_err_view(e: NetError) -> NetErrorView {
    match e {
        NetError::TypedTerm(t) => NetErrorView::TypedTerm(t@),
        NetError::UndefinedReference(n) => NetErrorView::UndefinedReference(n@),
        NetError::UnboundIndex => NetErrorView::UnboundIndex,
        NetError::OutOfSpace => NetErrorView::OutOfSpace,
        NetError::OutOfFuel => NetErrorView::OutOfFuel,
    }
}

/// Whether every port of `vp` addresses an agent among the first `n`.
pub open spec fn ports_ok(vp: Seq<Port>, n: int) -> bool {
    forall|i: int| 0 <= i < vp.len() ==> (#[trigger] vp[i]).wf() && vp[i].spec_address() < n
}

/// Whether the arena can take one more agent.
pub open spec fn can_add(m: NetModel) -> bool {
    m.freed.len() > 0 || m.agents.len() < 0x40000000
}

/// Compile a term into the net, mirroring `Term::build_net_in`: the final
/// net and the port that stands for the term.  `vp` holds the ports of the
/// lambda parameters in scope, innermost last.
///
/// A variable used a second time takes over its previous user's port
/// through a fresh duplication agent; erased structure vanishes;
/// references inline the definition's net; type-level constructs are
/// refused.
pub open spec fn spec_build(
    t: TermView,
    m: NetModel,
    vp: Seq<Port>,
    defs: Map<Seq<char>, TermView>,
    fuel: nat,
) -> Result<(NetModel, Port), NetErrorView>
    decreases fuel, t,
{
    match t {
        TermView::Variable(i) => if i >= vp.len() {
            Err(NetErrorView::UnboundIndex)
        } else {
            let ptr = vp[vp.len() - 1 - i];
            let target = spec_follow(m, ptr);
            if target.spec_address() == 0 || target == ptr {
                Ok((m, ptr))
            } else if !can_add(m) {
                Err(NetErrorView::OutOfSpace)
            } else {
                let (m1, z) = spec_add(m, AgentType::Zeta);
                let m2 = spec_connect(m1, spec_port(z, Slot::Principal), ptr);
                let m3 = spec_connect(m2, spec_port(z, Slot::Left), target);
                Ok((m3, spec_port(z, Slot::Right)))
            }
        },
        TermView::Put(inner) => spec_build(*inner, m, vp, defs, fuel),
        TermView::Reference(name) => if !defs.contains_key(name) {
            Err(NetErrorView::UndefinedReference(name))
        } else if fuel == 0 {
            Err(NetErrorView::OutOfFuel)
        } else {
            spec_build(defs[name], m, vp, defs, (fuel - 1) as nat)
        },
        TermView::Lambda { erased, body } => if erased {
            if fuel == 0 {
                Err(NetErrorView::OutOfFuel)
            } else {
                spec_build(
                    spec_subst(*body, 0, TermView::Variable(0), true),
                    m,
                    vp,
                    defs,
                    (fuel - 1) as nat,
                )
            }
        } else if !can_add(m) {
            Err(NetErrorView::OutOfSpace)
        } else {
            let (m1, d) = spec_add(m, AgentType::Delta);
            match spec_build(*body, m1, vp.push(spec_port(d, Slot::Left)), defs, fuel) {
                Err(e) => Err(e),
                Ok((m2, bodyp)) => {
                    let m3 = spec_connect(m2, spec_port(d, Slot::Right), bodyp);
                    Ok((m3, spec_port(d, Slot::Principal)))
                },
            }
        },
        TermView::Duplicate { expression, body } => match spec_build(
            *expression,
            m,
            vp,
            defs,
            fuel,
        ) {
            Err(e) => Err(e),
            Ok((m1, ep)) => spec_build(*body, m1, vp.push(ep), defs, fuel),
        },
        TermView::Apply { erased, function, argument } => if erased {
            spec_build(*function, m, vp, defs, fuel)
        } else if !can_add(m) {
            Err(NetErrorView::OutOfSpace)
        } else {
            let (m1, d) = spec_add(m, AgentType::Delta);
            match spec_build(*function, m1, vp, defs, fuel) {
                Err(e) => Err(e),
                Ok((m2, fp)) => {
                    let m3 = spec_connect(m2, spec_port(d, Slot::Principal), fp);
                    match spec_build(*argument, m3, vp, defs, fuel) {
                        Err(e) => Err(e),
                        Ok((m4, ap)) => {
                            let m5 = spec_connect(m4, spec_port(d, Slot::Left), ap);
                            Ok((m5, spec_port(d, Slot::Right)))
                        },
                    }
                },
            }
        },
        TermView::Annotation { expression, .. } => spec_build(*expression, m, vp, defs, fuel),
        _ => Err(NetErrorView::TypedTerm(t)),
    }
}

impl Term {
    /// Compile this term into `net`, mirroring `spec_build`.  On an error
    /// the net may hold partial work; the parameter stack is always
    /// restored.
    #[verifier::rlimit(100)]
    pub fn build_net_in<D: Definitions>(
        &self,
        net: &mut Net,
        definitions: &D,
        var_ptrs: &mut Vec<Port>,
        fuel: u64,
    ) -> (r: Result<Port, NetError>)
        requires
            wf_net(old(net)@),
            ports_ok(old(var_ptrs)@, old(net)@.agents.len() as int),
        ensures
            wf_net(final(net)@),
            final(var_ptrs)@ == old(var_ptrs)@,
            final(net)@.agents.len() >= old(net)@.agents.len(),
            match r {
                Ok(p) => spec_build(
                    self@,
                    old(net)@,
                    old(var_ptrs)@,
                    definitions.defs(),
                    fuel as nat,
                ) == Ok::<(NetModel, Port), NetErrorView>((final(net)@, p)) && p.wf()
                    && p.spec_address() < final(net)@.agents.len(),
                Err(e) => spec_build(
                    self@,
                    old(net)@,
                    old(var_ptrs)@,
                    definitions.defs(),
                    fuel as nat,
                ) == Err::<(NetModel, Port), NetErrorView>(net_err_view(e)),
            },
        decreases fuel, self,
    {
        match self {
            Term::Variable(symbol) => {
                if symbol.0 >= var_ptrs.len() {
                    return Err(NetError::UnboundIndex);
                }
                let ptr = var_ptrs[var_ptrs.len() - 1 - symbol.0];
                let target = net.follow(ptr);
                if target.address().is_root() || target == ptr {
                    Ok(ptr)
                } else if !(net.freed.len() > 0 || net.agents.len() < MAX_NODES) {
                    Err(NetError::OutOfSpace)
                } else {
                    let z = net.add(AgentType::Zeta).ports();
                    net.connect(z.principal, ptr);
                    net.connect(z.left, target);
                    Ok(z.right)
                }
            },
            Term::Put(inner) => inner.build_net_in(net, definitions, var_ptrs, fuel),
            Term::Reference(name) => {
                match definitions.get(name) {
                    None => Err(NetError::UndefinedReference(name.clone())),
                    Some(def) => {
                        if fuel == 0 {
                            Err(NetError::OutOfFuel)
                        } else {
                            let term = def.as_ref().deep_copy();
                            term.build_net_in(net, definitions, var_ptrs, fuel - 1)
                        }
                    },
                }
            },
            Term::Lambda { body, erased } => {
                if *erased {
                    if fuel == 0 {
                        Err(NetError::OutOfFuel)
                    } else {
                        let var = Term::Variable(crate::term::Index(0));
                        proof {
                            assert(var@ == TermView::Variable(0));
                        }
                        let body2 = body.substitute_top_in(&var);
                        body2.build_net_in(net, definitions, var_ptrs, fuel - 1)
                    }
                } else if !(net.freed.len() > 0 || net.agents.len() < MAX_NODES) {
                    Err(NetError::OutOfSpace)
                } else {
                    let d = net.add(AgentType::Delta).ports();
                    var_ptrs.push(d.left);
                    let body_port = match body.build_net_in(net, definitions, var_ptrs, fuel) {
                        Ok(p) => p,
                        Err(e) => {
                            var_ptrs.pop();
                            proof {
                                assert(var_ptrs@ =~= old(var_ptrs)@);
                            }
                            return Err(e);
                        },
                    };
                    var_ptrs.pop();
                    proof {
                        assert(var_ptrs@ =~= old(var_ptrs)@);
                    }
                    net.connect(d.right, body_port);
                    Ok(d.principal)
                }
            },
            Term::Duplicate { expression, body } => {
                let ep = match expression.build_net_in(net, definitions, var_ptrs, fuel) {
                    Ok(p) => p,
                    Err(e) => {
                        return Err(e);
                    },
                };
                var_ptrs.push(ep);
                let bp = match body.build_net_in(net, definitions, var_ptrs, fuel) {
                    Ok(p) => p,
                    Err(e) => {
                        var_ptrs.pop();
                        proof {
                            assert(var_ptrs@ =~= old(var_ptrs)@);
                        }
                        return Err(e);
                    },
                };
                var_ptrs.pop();
                proof {
                    assert(var_ptrs@ =~= old(var_ptrs)@);
                }
                Ok(bp)
            },
            Term::Apply { function, argument, erased } => {
                if *erased {
                    function.build_net_in(net, definitions, var_ptrs, fuel)
                } else if !(net.freed.len() > 0 || net.agents.len() < MAX_NODES) {
                    Err(NetError::OutOfSpace)
                } else {
                    let d = net.add(AgentType::Delta).ports();
                    let fp = match function.build_net_in(net, definitions, var_ptrs, fuel) {
                        Ok(p) => p,
                        Err(e) => {
                            return Err(e);
                        },
                    };
                    net.connect(d.principal, fp);
                    let ap = match argument.build_net_in(net, definitions, var_ptrs, fuel) {
                        Ok(p) => p,
                        Err(e) => {
                            return Err(e);
                        },
                    };
                    net.connect(d.left, ap);
                    Ok(d.right)
                }
            },
            Term::Annotation { expression, .. } => expression.build_net_in(
                net,
                definitions,
                var_ptrs,
                fuel,
            ),
            _ => Err(NetError::TypedTerm(self.deep_copy())),
        }
    }
}

/// The last position of `p` in `vp`, or -1 when absent.
pub open spec fn spec_last_index(vp: Seq<Port>, p: Port) -> int
    decreases vp.len(),
{
    if vp.len() == 0 {
        -1
    } else if vp.last() == p {
        vp.len() - 1
    } else {
        spec_last_index(vp.drop_last(), p)
    }
}

/// The last position of `p` in `vp`.
fn find_last(vp: &Vec<Port>, p: Port) -> (r: Option<usize>)
    ensures
        match r {
            Some(j) => spec_last_index(vp@, p) == j && j < vp@.len(),
            None => spec_last_index(vp@, p) == -1,
        },
{
    let mut k = vp.len();
    proof {
        assert(vp@.take(vp@.len() as int) =~= vp@);
    }
    while k > 0
        invariant
            0 <= k <= vp@.len(),
            spec_last_index(vp@, p) == spec_last_index(vp@.take(k as int), p),
        decreases k,
    {
        k = k - 1;
        if vp[k] == p {
            proof {
                assert(vp@.take(k as int + 1).last() == vp@[k as int]);
            }
            return Some(k);
        }
        proof {
            assert(vp@.take(k as int + 1).last() == vp@[k as int]);
            assert(vp@.take(k as int + 1).drop_last() =~= vp@.take(k as int));
        }
    }
    proof {
        assert(vp@.take(0) =~= Seq::<Port>::empty());
    }
    None
}

/// Read the term a port stands for, mirroring `build_term`: a depth-first
/// walk from the port.  `vp` holds the left ports of the lambdas in scope;
/// `dup_exit` remembers which side of each duplication agent the walk
/// entered through.  `None` means the step bound ran out or the walk met a
/// shape no term produces.
pub open spec fn spec_read(
    m: NetModel,
    p: Port,
    vp: Seq<Port>,
    dup_exit: Seq<Slot>,
    fuel: nat,
) -> Option<TermView>
    decreases fuel,
{
    if fuel == 0 {
        None
    } else {
        let f1 = (fuel - 1) as nat;
        let addr = Index(p.spec_address() as u32);
        let agent = m.agents[p.spec_address()];
        if agent.ty == AgentType::Delta {
            match p.spec_slot() {
                Slot::Principal => match spec_read(
                    m,
                    spec_follow(m, spec_port(addr, Slot::Right)),
                    vp.push(spec_port(addr, Slot::Left)),
                    dup_exit,
                    f1,
                ) {
                    None => None,
                    Some(body) => Some(TermView::Lambda { erased: false, body: Box::new(body) }),
                },
                Slot::Left => {
                    let j = spec_last_index(vp, p);
                    if j < 0 {
                        None
                    } else {
                        Some(TermView::Variable((vp.len() - 1 - j) as nat))
                    }
                },
                Slot::Right => match spec_read(
                    m,
                    spec_follow(m, spec_port(addr, Slot::Left)),
                    vp,
                    dup_exit,
                    f1,
                ) {
                    None => None,
                    Some(argument) => match spec_read(
                        m,
                        spec_follow(m, spec_port(addr, Slot::Principal)),
                        vp,
                        dup_exit,
                        f1,
                    ) {
                        None => None,
                        Some(function) => Some(
                            TermView::Apply {
                                erased: false,
                                function: Box::new(function),
                                argument: Box::new(argument),
                            },
                        ),
                    },
                },
            }
        } else {
            match p.spec_slot() {
                Slot::Principal => if dup_exit.len() == 0 {
                    None
                } else {
                    spec_read(
                        m,
                        spec_follow(m, spec_port(addr, dup_exit.last())),
                        vp,
                        dup_exit.drop_last(),
                        f1,
                    )
                },
                _ => spec_read(
                    m,
                    spec_follow(m, spec_port(addr, Slot::Principal)),
                    vp,
                    dup_exit.push(p.spec_slot()),
                    f1,
                ),
            }
        }
    }
}

/// Read the term a port stands for, walking the net depth-first.
#[verifier::rlimit(100)]
pub fn build_term(
    net: &Net,
    port: Port,
    var_ptrs: &mut Vec<Port>,
    dup_exit: &mut Vec<Slot>,
    fuel: u64,
) -> (r: Option<Term>)
    requires
        wf_net(net@),
        port.wf(),
        port.spec_address() < net@.agents.len(),
        ports_ok(old(var_ptrs)@, net@.agents.len() as int),
    ensures
        final(var_ptrs)@ == old(var_ptrs)@,
        final(dup_exit)@ == old(dup_exit)@,
        match r {
            Some(t) => spec_read(net@, port, old(var_ptrs)@, old(dup_exit)@, fuel as nat)
                == Some(t@),
            None => spec_read(net@, port, old(var_ptrs)@, old(dup_exit)@, fuel as nat) == None::<
                TermView,
            >,
        },
    decreases fuel,
{
    if fuel == 0 {
        return None;
    }
    let addr = port.address();
    let agent = *net.get(addr);
    if agent.ty() == AgentType::Delta {
        match port.slot() {
            Slot::Principal => {
                let left = Port::new(addr, Slot::Left);
                let right = Port::new(addr, Slot::Right);
                var_ptrs.push(left);
                let b_port = net.follow(right);
                let body = match build_term(net, b_port, var_ptrs, dup_exit, fuel - 1) {
                    Some(t) => t,
                    None => {
                        var_ptrs.pop();
                        proof {
                            assert(var_ptrs@ =~= old(var_ptrs)@);
                        }
                        return None;
                    },
                };
                var_ptrs.pop();
                proof {
                    assert(var_ptrs@ =~= old(var_ptrs)@);
                }
                Some(Term::Lambda { body: Box::new(body), erased: false })
            },
            Slot::Left => {
                match find_last(var_ptrs, port) {
                    None => None,
                    Some(j) => Some(
                        Term::Variable(crate::term::Index(var_ptrs.len() - 1 - j)),
                    ),
                }
            },
            Slot::Right => {
                let a_port = net.follow(Port::new(addr, Slot::Left));
                let argument = match build_term(net, a_port, var_ptrs, dup_exit, fuel - 1) {
                    Some(t) => t,
                    None => {
                        return None;
                    },
                };
                let f_port = net.follow(Port::new(addr, Slot::Principal));
                let function = match build_term(net, f_port, var_ptrs, dup_exit, fuel - 1) {
                    Some(t) => t,
                    None => {
                        return None;
                    },
                };
                Some(
                    Term::Apply {
                        function: Box::new(function),
                        argument: Box::new(argument),
                        erased: false,
                    },
                )
            },
        }
    } else {
        match port.slot() {
            Slot::Principal => {
                let exit = match dup_exit.pop() {
                    Some(e) => e,
                    None => {
                        return None;
                    },
                };
                let next = net.follow(Port::new(addr, exit));
                let term = build_term(net, next, var_ptrs, dup_exit, fuel - 1);
                dup_exit.push(exit);
                proof {
                    assert(dup_exit@ =~= old(dup_exit)@);
                }
                term
            },
            other => {
                dup_exit.push(other);
                let next = net.follow(Port::new(addr, Slot::Principal));
                let term = build_term(net, next, var_ptrs, dup_exit, fuel - 1);
                dup_exit.pop();
                proof {
                    assert(dup_exit@ =~= old(dup_exit)@);
                }
                term
            },
        }
    }
}

impl Net {
    /// Read the term the given port stands for.  `None` means the step
    /// bound ran out or the net is not the image of a term.
    pub fn read_term(&self, port: Port, fuel: u64) -> (r: Option<Term>)
        requires
            wf_net(self@),
            port.wf(),
            port.spec_address() < self@.agents.len(),
        ensures
            match r {
                Some(t) => spec_read(self@, port, Seq::empty(), Seq::empty(), fuel as nat) == Some(
                    t@,
                ),
                None => spec_read(self@, port, Seq::empty(), Seq::empty(), fuel as nat) == None::<
                    TermView,
                >,
            },
    {
        let mut var_ptrs: Vec<Port> = Vec::new();
        let mut dup_exit: Vec<Slot> = Vec::new();
        proof {
            assert(var_ptrs@ =~= Seq::<Port>::empty());
            assert(dup_exit@ =~= Seq::<Slot>::empty());
        }
        build_term(self, port, &mut var_ptrs, &mut dup_exit, fuel)
    }
}

/// The net that `Net::new` yields: the lone root agent, its left and right
/// slots joined, its principal exposed.
pub open spec fn spec_initial_net() -> NetModel {
    NetModel {
        agents: seq![
            Agent {
                principal: spec_port(Index(0), Slot::Principal),
                left: spec_port(Index(0), Slot::Right),
                right: spec_port(Index(0), Slot::Left),
                ty: AgentType::Root,
            },
        ],
        freed: Seq::empty(),
        active: Seq::empty(),
    }
}

/// Drop each queue entry that repeats its immediate predecessor, keeping
/// the accumulated result `acc`.
pub open spec fn spec_dedup_rec(s: Seq<Index>, i: int, acc: Seq<Index>) -> Seq<Index>
    decreases s.len() - i,
{
    if i < 0 || i >= s.len() {
        acc
    } else if acc.len() > 0 && acc.last() == s[i] {
        spec_dedup_rec(s, i + 1, acc)
    } else {
        spec_dedup_rec(s, i + 1, acc.push(s[i]))
    }
}

/// The queue with consecutive repeats dropped.
pub open spec fn spec_dedup(s: Seq<Index>) -> Seq<Index> {
    spec_dedup_rec(s, 0, Seq::empty())
}

/// Compiling a stratified term to a finished net: build into a fresh net,
/// wire the root's principal slot to the entry, bind unused binders to
/// erasers, and drop repeated active entries.
pub open spec fn spec_into_net(
    t: TermView,
    defs: Map<Seq<char>, TermView>,
    fuel: nat,
) -> Result<NetModel, NetErrorView> {
    let m0 = spec_initial_net();
    match spec_build(t, m0, Seq::empty(), defs, fuel) {
        Err(e) => Err(e),
        Ok((m1, entry)) => {
            let m2 = spec_connect(m1, m1.agents[0].principal, entry);
            let m3 = Net::spec_bind(m2, 0, m2.agents.len());
            Ok(NetModel { active: spec_dedup(m3.active), ..m3 })
        },
    }
}

/// Every address in the deduplicated queue stays below the bound that the
/// whole queue and the accumulator satisfied.
proof fn lemma_dedup_bound(s: Seq<Index>, i: int, acc: Seq<Index>, n: int)
    requires
        forall|j: int| 0 <= j < s.len() ==> (#[trigger] s[j]).0 < n,
        forall|j: int| 0 <= j < acc.len() ==> (#[trigger] acc[j]).0 < n,
    ensures
        forall|j: int|
            0 <= j < spec_dedup_rec(s, i, acc).len() ==> (#[trigger] spec_dedup_rec(s, i, acc)[j]).0
                < n,
    decreases s.len() - i,
{
    if i < 0 || i >= s.len() {
    } else if acc.len() > 0 && acc.last() == s[i] {
        lemma_dedup_bound(s, i + 1, acc, n);
        assert(spec_dedup_rec(s, i, acc) == spec_dedup_rec(s, i + 1, acc));
    } else {
        assert(forall|j: int|
            0 <= j < acc.push(s[i]).len() ==> (#[trigger] acc.push(s[i])[j]).0 < n);
        lemma_dedup_bound(s, i + 1, acc.push(s[i]), n);
        assert(spec_dedup_rec(s, i, acc) == spec_dedup_rec(s, i + 1, acc.push(s[i])));
    }
}

impl Net {
    /// Drop every active entry that repeats its immediate predecessor.
    fn dedup_active(&mut self)
        ensures
            final(self)@ == (NetModel { active: spec_dedup(old(self)@.active), ..old(self)@ }),
            wf_net(old(self)@) ==> wf_net(final(self)@),
    {
        let n = self.active.len();
        let mut acc: Vec<Index> = Vec::new();
        proof {
            assert(acc@ =~= Seq::<Index>::empty());
        }
        let mut i: usize = 0;
        while i < n
            invariant
                0 <= i <= n,
                n == self@.active.len(),
                spec_dedup_rec(self@.active, i as int, acc@) == spec_dedup(self@.active),
            decreases n - i,
        {
            let entry = self.active[i];
            let keep = if acc.len() > 0 {
                let last = acc[acc.len() - 1];
                last != entry
            } else {
                true
            };
            if keep {
                acc.push(entry);
            }
            i = i + 1;
        }
        self.active = acc;
        proof {
            if wf_net(old(self)@) {
                lemma_dedup_bound(old(self)@.active, 0, Seq::empty(), old(self)@.agents.len() as int);
            }
        }
    }
}

impl<'a, U: Definitions> Stratified<'a, U> {
    /// Compile the wrapped term to an interaction net.  The net's external
    /// boundary is the root agent's principal port.
    pub fn into_net(self, fuel: u64) -> (r: Result<Net, NetError>)
        ensures
            match r {
                Ok(net) => wf_net(net@) && spec_into_net(
                    self.term@,
                    self.definitions.defs(),
                    fuel as nat,
                ) == Ok::<NetModel, NetErrorView>(net@),
                Err(e) => spec_into_net(self.term@, self.definitions.defs(), fuel as nat) == Err::<
                    NetModel,
                    NetErrorView,
                >(net_err_view(e)),
            },
    {
        let (mut net, _boundary) = Net::new();
        proof {
            assert(net@.agents =~= spec_initial_net().agents);
            assert(net@.freed =~= spec_initial_net().freed);
            assert(net@.active =~= spec_initial_net().active);
            assert(net@ == spec_initial_net());
        }
        let mut var_ptrs: Vec<Port> = Vec::new();
        proof {
            assert(var_ptrs@ =~= Seq::<Port>::empty());
        }
        let entry = match self.term.build_net_in(&mut net, self.definitions, &mut var_ptrs, fuel) {
            Ok(p) => p,
            Err(e) => {
                return Err(e);
            },
        };
        let root_principal = net.get(Index(0)).ports().principal;
        net.connect(root_principal, entry);
        net.bind_unbound();
        net.dedup_active();
        Ok(net)
    }
}

} // verus!
