use vstd::prelude::*;

verus! {

/// The role of an agent in the net.
///
/// Equal types annihilate; different types commute.  `Root` marks the net's
/// boundary and never takes part in rewrites.
#[derive(Debug, Clone, Copy, PartialEq, Eq, Structural)]
pub enum AgentType {
    Epsilon,
    Delta,
    Zeta,
    Root,
}

/// One of the three ports of an agent.
#[derive(Debug, Clone, Copy, PartialEq, Eq, Structural)]
pub enum Slot {
    Principal,
    Left,
    Right,
}

/// A port, packed as `address << 2 | slot` in one word.
#[derive(Debug, Clone, Copy, PartialEq, Eq, Structural, Hash)]
pub struct Port(pub u32);

/// An agent's address in the net.
#[derive(Debug, Clone, Copy, PartialEq, Eq, Structural, Hash, PartialOrd, Ord)]
pub struct Index(pub u32);

/// The greatest number of agents a net can address: ports pack the address
/// into the upper bits of one 32-bit word.
pub const MAX_NODES: usize = 0x40000000;

impl Index {
    /// Whether this is the root agent's address.
    pub fn is_root(&self) -> (r: bool)
        ensures
            r == (self.0 == 0),
    {
        self.0 == 0
    }
}

impl Port {
    /// The packed port's address bits.
    pub open spec fn spec_address(self) -> int {
        (self.0 >> 2) as int
    }

    /// The packed port's slot bits decoded; the bit pattern of a slot code
    /// above `Right` decodes as `Right`.
    pub open spec fn spec_slot(self) -> Slot {
        if self.0 & 3 == 0 {
            Slot::Principal
        } else if self.0 & 3 == 1 {
            Slot::Left
        } else {
            Slot::Right
        }
    }

    /// Whether the slot bits hold a real slot code.
    pub open spec fn wf(self) -> bool {
        self.0 & 3 != 3
    }

    /// Pack an address and a slot into a port.
    pub fn new(node: Index, slot: Slot) -> (r: Port)
        requires
            node.0 < 0x40000000,
        ensures
            r == spec_port(node, slot),
            r.spec_address() == node.0,
            r.spec_slot() == slot,
            r.wf(),
    {
        let code: u32 = match slot {
            Slot::Principal => 0,
            Slot::Left => 1,
            Slot::Right => 2,
        };
        let packed = (node.0 << 2u32) | code;
        proof {
            let n = node.0;
            let c = code;
            assert(n < 0x40000000 && c < 3 ==> ((n << 2u32) | c) >> 2 == n && ((n << 2u32) | c) & 3
                == c) by (bit_vector);
        }
        Port(packed)
    }

    /// The port's address.
    pub fn address(&self) -> (r: Index)
        ensures
            r.0 == self.spec_address(),
    {
        Index(self.0 >> 2u32)
    }

    /// The port's slot.
    pub fn slot(&self) -> (r: Slot)
        requires
            self.wf(),
        ensures
            r == self.spec_slot(),
    {
        match self.0 & 3 {
            0 => Slot::Principal,
            1 => Slot::Left,
            _ => Slot::Right,
        }
    }

    /// Whether the port belongs to the root agent.
    pub fn is_root(&self) -> (r: bool)
        ensures
            r == (self.spec_address() == 0),
    {
        self.address().is_root()
    }
}

/// An agent: three ports and a type.
#[derive(Debug, Clone, Copy, PartialEq, Eq, Structural)]
pub struct Agent {
    pub principal: Port,
    pub left: Port,
    pub right: Port,
    pub ty: AgentType,
}

/// The three ports of an agent, unpacked.
pub struct Ports {
    pub left: Port,
    pub right: Port,
    pub principal: Port,
}

impl Ports {
    /// Read an agent's three ports.
    fn new(agent: &Agent) -> (r: Ports)
        ensures
            r.principal == agent.principal,
            r.left == agent.left,
            r.right == agent.right,
    {
        Ports { left: agent.left(), right: agent.right(), principal: agent.principal() }
    }
}

/// The port stored in the given slot of an agent.
pub open spec fn spec_slot_of(a: Agent, slot: Slot) -> Port {
    match slot {
        Slot::Principal => a.principal,
        Slot::Left => a.left,
        Slot::Right => a.right,
    }
}

/// The agent with the given slot replaced.
pub open spec fn spec_set_slot(a: Agent, slot: Slot, port: Port) -> Agent {
    match slot {
        Slot::Principal => Agent { principal: port, ..a },
        Slot::Left => Agent { left: port, ..a },
        Slot::Right => Agent { right: port, ..a },
    }
}

impl Agent {
    /// A fresh agent with the given ports.
    fn new(principal: Port, left: Port, right: Port, ty: AgentType) -> (r: Agent)
        ensures
            r == (Agent { principal, left, right, ty }),
    {
        Agent { left, right, principal, ty }
    }

    /// The left port.
    pub fn left(&self) -> (r: Port)
        ensures
            r == self.left,
    {
        self.left
    }

    /// The right port.
    pub fn right(&self) -> (r: Port)
        ensures
            r == self.right,
    {
        self.right
    }

    /// The principal port.
    pub fn principal(&self) -> (r: Port)
        ensures
            r == self.principal,
    {
        self.principal
    }

    /// All three ports.
    pub fn ports(&self) -> (r: Ports)
        ensures
            r.principal == self.principal,
            r.left == self.left,
            r.right == self.right,
    {
        Ports::new(self)
    }

    /// The port in the given slot.
    pub fn slot(&self, slot: Slot) -> (r: Port)
        ensures
            r == spec_slot_of(*self, slot),
    {
        match slot {
            Slot::Left => self.left(),
            Slot::Right => self.right(),
            Slot::Principal => self.principal(),
        }
    }

    /// Replace the port in the given slot.
    pub fn update_slot(&mut self, slot: Slot, port: Port)
        ensures
            *final(self) == spec_set_slot(*old(self), slot, port),
    {
        match slot {
            Slot::Left => {
                self.left = port;
            },
            Slot::Right => {
                self.right = port;
            },
            Slot::Principal => {
                self.principal = port;
            },
        }
    }

    /// The agent's type.
    pub fn ty(&self) -> (r: AgentType)
        ensures
            r == self.ty,
    {
        self.ty
    }
}

/// The mathematical content of a net.
pub struct NetModel {
    pub agents: Seq<Agent>,
    pub freed: Seq<Index>,
    pub active: Seq<Index>,
}

/// An interaction net: an arena of agents, a free list, and the queue of
/// active pairs (agents joined principal-to-principal).
#[derive(Debug, Clone)]
pub struct Net {
    pub agents: Vec<Agent>,
    pub freed: Vec<Index>,
    pub active: Vec<Index>,
}

impl View for Net {
    type V = NetModel;

    open spec fn view(&self) -> NetModel {
        NetModel { agents: self.agents@, freed: self.freed@, active: self.active@ }
    }
}

/// Whether an agent's ports all address agents inside the net.
pub open spec fn wf_agent(a: Agent, n: int) -> bool {
    &&& a.principal.wf() && a.principal.spec_address() < n
    &&& a.left.wf() && a.left.spec_address() < n
    &&& a.right.wf() && a.right.spec_address() < n
}

/// The net's structural invariant: every stored port and index addresses an
/// agent of the net, and the arena fits the packed address width.
pub open spec fn wf_net(m: NetModel) -> bool {
    &&& m.agents.len() <= 0x40000000
    &&& forall|i: int| 0 <= i < m.agents.len() ==> wf_agent(#[trigger] m.agents[i], m.agents.len() as int)
    &&& forall|i: int| 0 <= i < m.freed.len() ==> (#[trigger] m.freed[i]).0 < m.agents.len()
    &&& forall|i: int|
        0 <= i < m.active.len() ==> (#[trigger] m.active[i]).0 < m.agents.len()
}

/// Adding an agent: reuse the newest freed slot, else append.  Yields the
/// new model and the new agent's address.
pub open spec fn spec_add(m: NetModel, ty: AgentType) -> (NetModel, Index) {
    let (idx, freed, extant) = if m.freed.len() > 0 {
        (m.freed.last(), m.freed.drop_last(), true)
    } else {
        (Index(m.agents.len() as u32), m.freed, false)
    };
    let agent = spec_fresh_agent(idx, ty);
    let agents = if extant {
        m.agents.update(idx.0 as int, agent)
    } else {
        m.agents.push(agent)
    };
    (NetModel { agents, freed, active: m.active }, idx)
}

/// A fresh agent at `idx`: all three ports loop back to itself.
pub open spec fn spec_fresh_agent(idx: Index, ty: AgentType) -> Agent {
    Agent {
        principal: spec_port(idx, Slot::Principal),
        left: spec_port(idx, Slot::Left),
        right: spec_port(idx, Slot::Right),
        ty,
    }
}

/// The packed port for an address and slot.
pub open spec fn spec_port(idx: Index, slot: Slot) -> Port {
    Port(
        (idx.0 << 2u32) | (match slot {
            Slot::Principal => 0u32,
            Slot::Left => 1u32,
            Slot::Right => 2u32,
        }),
    )
}

/// A packed port decodes to the address and slot it was packed from.
pub proof fn lemma_spec_port(idx: Index, slot: Slot)
    requires
        idx.0 < 0x40000000,
    ensures
        spec_port(idx, slot).spec_address() == idx.0,
        spec_port(idx, slot).spec_slot() == slot,
        spec_port(idx, slot).wf(),
{
    let n = idx.0;
    assert(n < 0x40000000 ==> ((n << 2u32) | 0u32) >> 2 == n && ((n << 2u32) | 0u32) & 3 == 0
        && ((n << 2u32) | 1u32) >> 2 == n && ((n << 2u32) | 1u32) & 3 == 1 && ((n << 2u32)
        | 2u32) >> 2 == n && ((n << 2u32) | 2u32) & 3 == 2) by (bit_vector);
}

/// Following a port: the port written in its slot of its agent.
pub open spec fn spec_follow(m: NetModel, p: Port) -> Port {
    spec_slot_of(m.agents[p.spec_address()], p.spec_slot())
}

/// Connecting two ports writes each into the other's slot; a new
/// principal-to-principal pair away from the root marks the lower address
/// active.
pub open spec fn spec_connect(m: NetModel, a: Port, b: Port) -> NetModel {
    let active = if a.spec_slot() == Slot::Principal && b.spec_slot() == Slot::Principal && !(
    a.spec_address() == 0 || b.spec_address() == 0) {
        if a.spec_address() < b.spec_address() {
            m.active.push(Index(a.spec_address() as u32))
        } else {
            m.active.push(Index(b.spec_address() as u32))
        }
    } else {
        m.active
    };
    let agents1 = m.agents.update(
        a.spec_address(),
        spec_set_slot(m.agents[a.spec_address()], a.spec_slot(), b),
    );
    let agents2 = agents1.update(
        b.spec_address(),
        spec_set_slot(agents1[b.spec_address()], b.spec_slot(), a),
    );
    NetModel { agents: agents2, freed: m.freed, active }
}

impl Net {
    /// The empty net with its root agent, and the root's principal port:
    /// the net's external boundary.
    pub fn new() -> (r: (Net, Port))
        ensures
            wf_net(r.0@),
            r.0@.agents.len() == 1,
            r.0@.agents[0].ty == AgentType::Root,
            r.0@.agents[0].principal == spec_port(Index(0), Slot::Principal),
            r.0@.agents[0].left == spec_port(Index(0), Slot::Right),
            r.0@.agents[0].right == spec_port(Index(0), Slot::Left),
            r.0@.freed.len() == 0,
            r.0@.active.len() == 0,
            r.1 == spec_port(Index(0), Slot::Principal),
    {
        let mut net = Net { agents: Vec::new(), freed: Vec::new(), active: Vec::new() };
        proof {
            assert(net@.agents =~= Seq::<Agent>::empty());
            assert(net@.freed =~= Seq::<Index>::empty());
        }
        let root = net.add(AgentType::Root).ports();
        proof {
            assert(net@.agents.len() == 1);
            assert(net@.agents[0] == spec_fresh_agent(Index(0), AgentType::Root));
            assert(root.left == spec_port(Index(0), Slot::Left));
            assert(root.right == spec_port(Index(0), Slot::Right));
            lemma_spec_port(Index(0), Slot::Principal);
            lemma_spec_port(Index(0), Slot::Left);
            lemma_spec_port(Index(0), Slot::Right);
        }
        net.connect(root.left, root.right);
        let p = root.principal;
        (net, p)
    }

    /// Add an agent of the given type, reusing a freed slot when one is
    /// available.  The new agent's ports loop back to itself.
    pub fn add(&mut self, ty: AgentType) -> (r: Agent)
        requires
            wf_net(old(self)@),
            old(self)@.freed.len() > 0 || old(self)@.agents.len() < 0x40000000,
        ensures
            wf_net(final(self)@),
            final(self)@ == spec_add(old(self)@, ty).0,
            r == spec_fresh_agent(spec_add(old(self)@, ty).1, ty),
            final(self)@.agents[spec_add(old(self)@, ty).1.0 as int] == r,
            spec_add(old(self)@, ty).1.0 < final(self)@.agents.len(),
            final(self)@.active == old(self)@.active,
            r.principal == spec_port(spec_add(old(self)@, ty).1, Slot::Principal),
            r.principal.spec_address() == spec_add(old(self)@, ty).1.0,
            r.principal.spec_slot() == Slot::Principal,
            r.left.spec_address() == spec_add(old(self)@, ty).1.0,
            r.left.spec_slot() == Slot::Left,
            r.right.spec_address() == spec_add(old(self)@, ty).1.0,
            r.right.spec_slot() == Slot::Right,
            final(self)@.agents.len() <= old(self)@.agents.len() + 1,
    {
        let (idx, extant) = match self.freed.pop() {
            Some(idx) => (idx, true),
            None => (Index(self.agents.len() as u32), false),
        };
        let principal = Port::new(idx, Slot::Principal);
        let left = Port::new(idx, Slot::Left);
        let right = Port::new(idx, Slot::Right);
        let agent = Agent::new(principal, left, right, ty);
        proof {
            assert(agent == spec_fresh_agent(idx, ty));
        }
        if extant {
            self.agents.set(idx.0 as usize, agent);
        } else {
            self.agents.push(agent);
        }
        proof {
            lemma_spec_port(idx, Slot::Principal);
            lemma_spec_port(idx, Slot::Left);
            lemma_spec_port(idx, Slot::Right);
            assert(wf_net(self@));
        }
        agent
    }

    /// The agent at an address.
    pub fn get(&self, index: Index) -> (r: &Agent)
        requires
            index.0 < self@.agents.len(),
        ensures
            *r == self@.agents[index.0 as int],
    {
        &self.agents[index.0 as usize]
    }

    /// Replace the agent at an address.
    pub fn set_agent(&mut self, index: Index, agent: Agent)
        requires
            index.0 < old(self)@.agents.len(),
        ensures
            final(self)@.agents == old(self)@.agents.update(index.0 as int, agent),
            final(self)@.freed == old(self)@.freed,
            final(self)@.active == old(self)@.active,
    {
        self.agents.set(index.0 as usize, agent);
    }

    /// The port written in `port`'s slot of its agent.
    pub fn follow(&self, port: Port) -> (r: Port)
        requires
            wf_net(self@),
            port.wf(),
            port.spec_address() < self@.agents.len(),
        ensures
            r == spec_follow(self@, port),
            r.wf(),
            r.spec_address() < self@.agents.len(),
    {
        let agent = self.get(port.address());
        agent.slot(port.slot())
    }

    /// Remember an address whose principal pair became active.
    fn mark_active(&mut self, index: Index)
        ensures
            final(self)@ == (NetModel { active: old(self)@.active.push(index), ..old(self)@ }),
    {
        self.active.push(index);
    }

    /// Connect two ports: write each into the other's slot, and mark a new
    /// principal pair active unless the root takes part in it.
    pub fn connect(&mut self, a: Port, b: Port)
        requires
            wf_net(old(self)@),
            a.wf(),
            b.wf(),
            a.spec_address() < old(self)@.agents.len(),
            b.spec_address() < old(self)@.agents.len(),
        ensures
            wf_net(final(self)@),
            final(self)@ == spec_connect(old(self)@, a, b),
            final(self)@.agents.len() == old(self)@.agents.len(),
    {
        let a_slot = a.slot();
        let b_slot = b.slot();
        if a_slot == Slot::Principal && b_slot == Slot::Principal && !(a.address().is_root()
            || b.address().is_root()) {
            if a.address().0 < b.address().0 {
                self.mark_active(a.address());
            } else {
                self.mark_active(b.address());
            }
        }
        let a_addr = a.address();
        let b_addr = b.address();
        let mut a_agent = *self.get(a_addr);
        a_agent.update_slot(a_slot, b);
        self.agents.set(a_addr.0 as usize, a_agent);
        let mut b_agent = *self.get(b_addr);
        b_agent.update_slot(b_slot, a);
        self.agents.set(b_addr.0 as usize, b_agent);
        proof {
            assert(self@.agents =~= spec_connect(old(self)@, a, b).agents);
            assert(self@ == spec_connect(old(self)@, a, b));
        }
    }

    /// Break the edge at `a` if it is reciprocal: both endpoints become
    /// self-loops.
    pub fn disconnect(&mut self, a: Port)
        requires
            wf_net(old(self)@),
            a.wf(),
            a.spec_address() < old(self)@.agents.len(),
        ensures
            wf_net(final(self)@),
            final(self)@.agents.len() == old(self)@.agents.len(),
            final(self)@.freed == old(self)@.freed,
            final(self)@.active == old(self)@.active,
            ({
                let b = spec_follow(old(self)@, a);
                if spec_follow(old(self)@, b) == a {
                    final(self)@.agents == old(self)@.agents.update(
                        a.spec_address(),
                        spec_set_slot(old(self)@.agents[a.spec_address()], a.spec_slot(), a),
                    ).update(
                        b.spec_address(),
                        spec_set_slot(
                            old(self)@.agents.update(
                                a.spec_address(),
                                spec_set_slot(
                                    old(self)@.agents[a.spec_address()],
                                    a.spec_slot(),
                                    a,
                                ),
                            )[b.spec_address()],
                            b.spec_slot(),
                            b,
                        ),
                    )
                } else {
                    final(self)@.agents == old(self)@.agents
                }
            }),
    {
        let b = self.follow(a);
        let back = self.follow(b);
        if back == a {
            let aa = a.address();
            let ba = b.address();
            let mut a_agent = *self.get(aa);
            a_agent.update_slot(a.slot(), a);
            self.agents.set(aa.0 as usize, a_agent);
            let mut b_agent = *self.get(ba);
            b_agent.update_slot(b.slot(), b);
            self.agents.set(ba.0 as usize, b_agent);
            proof {
                assert(self@.agents =~= old(self)@.agents.update(
                    a.spec_address(),
                    spec_set_slot(old(self)@.agents[a.spec_address()], a.spec_slot(), a),
                ).update(
                    b.spec_address(),
                    spec_set_slot(
                        old(self)@.agents.update(
                            a.spec_address(),
                            spec_set_slot(old(self)@.agents[a.spec_address()], a.spec_slot(), a),
                        )[b.spec_address()],
                        b.spec_slot(),
                        b,
                    ),
                ));
                assert forall|i: int|
                    0 <= i < self@.agents.len() implies wf_agent(
                    #[trigger] self@.agents[i],
                    self@.agents.len() as int,
                ) by {
                    if i != a.spec_address() && i != b.spec_address() {
                        assert(self@.agents[i] == old(self)@.agents[i]);
                    }
                }
                assert forall|i: int|
                    0 <= i < self@.freed.len() implies (#[trigger] self@.freed[i]).0
                    < self@.agents.len() by {
                    assert(self@.freed[i] == old(self)@.freed[i]);
                }
                assert forall|i: int|
                    0 <= i < self@.active.len() implies (#[trigger] self@.active[i]).0
                    < self@.agents.len() by {
                    assert(self@.active[i] == old(self)@.active[i]);
                }
                assert(wf_net(self@));
            }
        }
    }

    /// Put an address on the free list for reuse.
    fn free(&mut self, address: Index)
        requires
            address.0 < old(self)@.agents.len(),
        ensures
            final(self)@ == (NetModel { freed: old(self)@.freed.push(address), ..old(self)@ }),
    {
        self.freed.push(address);
    }

    /// The agent a port belongs to.
    fn get_agent(&self, x: &Port) -> (r: &Agent)
        requires
            x.spec_address() < self@.agents.len(),
        ensures
            *r == self@.agents[x.spec_address()],
    {
        self.get(x.address())
    }
}

/// One interaction step between the agents at `x` and `y`, assumed joined
/// principal-to-principal: annihilation when the types agree (wire the two
/// left ends together and the two right ends together; erasers just
/// vanish), erasure when exactly one is an eraser (two fresh erasers take
/// over its partner's ends), and commutation otherwise (four fresh agents
/// wired crosswise).  The two old agents go to the free list.
#[verifier::opaque]
pub open spec fn spec_rewrite(m: NetModel, x: Index, y: Index) -> NetModel {
    let x_ty = m.agents[x.0 as int].ty;
    let y_ty = m.agents[y.0 as int].ty;
    if x_ty == y_ty {
        let m1 = if x_ty != AgentType::Epsilon {
            let p0 = spec_follow(m, spec_port(x, Slot::Left));
            let p1 = spec_follow(m, spec_port(y, Slot::Left));
            let ma = spec_connect(m, p0, p1);
            let q0 = spec_follow(ma, spec_port(x, Slot::Right));
            let q1 = spec_follow(ma, spec_port(y, Slot::Right));
            spec_connect(ma, q0, q1)
        } else {
            m
        };
        let m2 = NetModel { freed: m1.freed.push(x), ..m1 };
        NetModel { freed: m2.freed.push(y), ..m2 }
    } else if x_ty == AgentType::Epsilon || y_ty == AgentType::Epsilon {
        let xe = if x_ty == AgentType::Epsilon {
            x
        } else {
            y
        };
        let yn = if x_ty == AgentType::Epsilon {
            y
        } else {
            x
        };
        let (ma, p) = spec_add(m, AgentType::Epsilon);
        let (mb, q) = spec_add(ma, AgentType::Epsilon);
        let mc = spec_connect(
            mb,
            spec_port(p, Slot::Principal),
            spec_follow(mb, spec_port(yn, Slot::Left)),
        );
        let md = spec_connect(
            mc,
            spec_port(q, Slot::Principal),
            spec_follow(mc, spec_port(yn, Slot::Right)),
        );
        let me = NetModel { freed: md.freed.push(xe), ..md };
        NetModel { freed: me.freed.push(yn), ..me }
    } else {
        let (ma, p) = spec_add(m, y_ty);
        let (mb, q) = spec_add(ma, y_ty);
        let (mc, rr) = spec_add(mb, x_ty);
        let (md, ss) = spec_add(mc, x_ty);
        let c1 = spec_connect(md, spec_port(rr, Slot::Left), spec_port(p, Slot::Left));
        let c2 = spec_connect(c1, spec_port(ss, Slot::Left), spec_port(p, Slot::Right));
        let c3 = spec_connect(c2, spec_port(rr, Slot::Right), spec_port(q, Slot::Left));
        let c4 = spec_connect(c3, spec_port(ss, Slot::Right), spec_port(q, Slot::Right));
        let c5 = spec_connect(
            c4,
            spec_port(p, Slot::Principal),
            spec_follow(c4, spec_port(x, Slot::Left)),
        );
        let c6 = spec_connect(
            c5,
            spec_port(q, Slot::Principal),
            spec_follow(c5, spec_port(x, Slot::Right)),
        );
        let c7 = spec_connect(
            c6,
            spec_port(rr, Slot::Principal),
            spec_follow(c6, spec_port(y, Slot::Left)),
        );
        let c8 = spec_connect(
            c7,
            spec_port(ss, Slot::Principal),
            spec_follow(c7, spec_port(y, Slot::Right)),
        );
        let c9 = NetModel { freed: c8.freed.push(x), ..c8 };
        NetModel { freed: c9.freed.push(y), ..c9 }
    }
}

/// The rewrite bound that an optional cap denotes: an explicit positive
/// cap is itself; no cap, or a cap of zero, means as many rewrites as the
/// count can hold.
pub open spec fn spec_limit(max_rewrites: Option<usize>) -> nat {
    match max_rewrites {
        Some(m) => if m == 0 {
            usize::MAX as nat
        } else {
            m as nat
        },
        None => usize::MAX as nat,
    }
}

/// Drain the active queue, newest pair first, for at most `remaining`
/// rewrites: the final net and the number of pairs popped, each of which
/// is one rewrite.  Stops early only when the queue is empty or the arena
/// is about to outgrow the packed address width.
pub open spec fn spec_reduce(m: NetModel, remaining: nat) -> (NetModel, nat)
    decreases remaining,
{
    if remaining == 0 || m.active.len() == 0 || m.agents.len() + 4 > 0x40000000 {
        (m, 0)
    } else {
        let a = m.active.last();
        let m1 = NetModel { active: m.active.drop_last(), ..m };
        let b = Index(spec_follow(m1, spec_port(a, Slot::Principal)).spec_address() as u32);
        let m2 = spec_rewrite(m1, a, b);
        let (m3, c) = spec_reduce(m2, (remaining - 1) as nat);
        (m3, (c + 1) as nat)
    }
}

impl Net {
    /// Perform one interaction between the agents at `x` and `y`.
    #[verifier::rlimit(100)]
    fn rewrite(&mut self, x: Index, y: Index)
        requires
            wf_net(old(self)@),
            x.0 < old(self)@.agents.len(),
            y.0 < old(self)@.agents.len(),
            old(self)@.agents.len() + 4 <= 0x40000000,
        ensures
            wf_net(final(self)@),
            final(self)@ == spec_rewrite(old(self)@, x, y),
    {
        proof {
            reveal(spec_rewrite);
        }
        let x_ty = self.get(x).ty();
        let y_ty = self.get(y).ty();
        if x_ty == y_ty {
            if x_ty != AgentType::Epsilon {
                let p0 = self.follow(Port::new(x, Slot::Left));
                let p1 = self.follow(Port::new(y, Slot::Left));
                self.connect(p0, p1);
                let q0 = self.follow(Port::new(x, Slot::Right));
                let q1 = self.follow(Port::new(y, Slot::Right));
                self.connect(q0, q1);
            }
            self.free(x);
            self.free(y);
        } else if x_ty == AgentType::Epsilon || y_ty == AgentType::Epsilon {
            let (xe, yn) = if x_ty == AgentType::Epsilon {
                (x, y)
            } else {
                (y, x)
            };
            let p = self.add(AgentType::Epsilon).ports().principal.address();
            let q = self.add(AgentType::Epsilon).ports().principal.address();
            let t1 = self.follow(Port::new(yn, Slot::Left));
            self.connect(Port::new(p, Slot::Principal), t1);
            let t2 = self.follow(Port::new(yn, Slot::Right));
            self.connect(Port::new(q, Slot::Principal), t2);
            self.free(xe);
            self.free(yn);
        } else {
            let p = self.add(y_ty).ports().principal.address();
            let q = self.add(y_ty).ports().principal.address();
            let rr = self.add(x_ty).ports().principal.address();
            let ss = self.add(x_ty).ports().principal.address();
            self.connect(Port::new(rr, Slot::Left), Port::new(p, Slot::Left));
            self.connect(Port::new(ss, Slot::Left), Port::new(p, Slot::Right));
            self.connect(Port::new(rr, Slot::Right), Port::new(q, Slot::Left));
            self.connect(Port::new(ss, Slot::Right), Port::new(q, Slot::Right));
            let t1 = self.follow(Port::new(x, Slot::Left));
            self.connect(Port::new(p, Slot::Principal), t1);
            let t2 = self.follow(Port::new(x, Slot::Right));
            self.connect(Port::new(q, Slot::Principal), t2);
            let t3 = self.follow(Port::new(y, Slot::Left));
            self.connect(Port::new(rr, Slot::Principal), t3);
            let t4 = self.follow(Port::new(y, Slot::Right));
            self.connect(Port::new(ss, Slot::Principal), t4);
            self.free(x);
            self.free(y);
        }
    }

    /// Drain active pairs, newest first, performing one rewrite per pair
    /// popped; an explicit positive cap bounds the count.  The result is
    /// the number of rewrites performed; when it is below the bound, the
    /// queue was drained (or the arena was about to outgrow its address
    /// width, which no reachable net does).
    pub fn reduce(&mut self, max_rewrites: Option<usize>) -> (r: usize)
        requires
            wf_net(old(self)@),
        ensures
            wf_net(final(self)@),
            ({
                let (m2, c) = spec_reduce(old(self)@, spec_limit(max_rewrites));
                final(self)@ == m2 && r == c
            }),
    {
        let limit: usize = match max_rewrites {
            Some(m) => if m == 0 {
                usize::MAX
            } else {
                m
            },
            None => usize::MAX,
        };
        let ghost (mf, cf) = spec_reduce(old(self)@, spec_limit(max_rewrites));
        proof {
            lemma_reduce_drains(old(self)@, spec_limit(max_rewrites));
        }
        let mut rewrites: usize = 0;
        loop
            invariant_except_break
                rewrites < limit,
            invariant
                wf_net(self@),
                rewrites <= cf,
                cf <= limit,
                1 <= limit,
                limit as nat == spec_limit(max_rewrites),
                spec_reduce(self@, (limit - rewrites) as nat) == (mf, (cf - rewrites) as nat),
            ensures
                wf_net(self@),
                self@ == mf,
                rewrites == cf,
            decreases limit - rewrites,
        {
            if self.agents.len() + 4 > MAX_NODES {
                break ;
            }
            let a = match self.active.pop() {
                Some(a) => a,
                None => {
                    break ;
                },
            };
            let b = self.follow(Port::new(a, Slot::Principal)).address();
            self.rewrite(a, b);
            rewrites = rewrites + 1;
            if rewrites == limit {
                proof {
                    assert(spec_reduce(self@, 0) == (self@, 0nat));
                }
                break ;
            }
        }
        rewrites
    }

    /// Connect every still self-looping left slot among the first `n`
    /// agents to a fresh eraser, one agent at a time from address `i` up:
    /// this models weakening for unused binders.
    pub open spec fn spec_bind(m: NetModel, i: nat, n: nat) -> NetModel
        decreases n - i,
    {
        if i >= n || i >= m.agents.len() {
            m
        } else {
            let a = m.agents[i as int];
            let m2 = if spec_follow(m, a.left) == a.left && (m.freed.len() > 0 || m.agents.len()
                < 0x40000000) {
                let (ma, e) = spec_add(m, AgentType::Epsilon);
                spec_connect(ma, a.left, spec_port(e, Slot::Principal))
            } else {
                m
            };
            Net::spec_bind(m2, i + 1, n)
        }
    }

    /// Wire every unused binder (an agent whose left slot still loops to
    /// itself) to a fresh eraser.  Only the agents present at entry are
    /// scanned.
    pub fn bind_unbound(&mut self)
        requires
            wf_net(old(self)@),
        ensures
            wf_net(final(self)@),
            final(self)@ == Net::spec_bind(old(self)@, 0, old(self)@.agents.len()),
    {
        let n = self.agents.len();
        let mut i: usize = 0;
        while i < n
            invariant
                wf_net(self@),
                0 <= i <= n,
                n <= self@.agents.len(),
                Net::spec_bind(self@, i as nat, n as nat) == Net::spec_bind(
                    old(self)@,
                    0,
                    n as nat,
                ),
            decreases n - i,
        {
            let ports = self.get(Index(i as u32)).ports();
            let looped = {
                let f = self.follow(ports.left);
                f == ports.left
            };
            if looped {
                if self.freed.len() > 0 || self.agents.len() < MAX_NODES {
                    let era = self.add(AgentType::Epsilon).ports();
                    self.connect(ports.left, era.principal);
                }
            }
            i = i + 1;
        }
    }

    /// Drain the active queue completely; the result counts the rewrites.
    pub fn reduce_all(&mut self) -> (r: usize)
        requires
            wf_net(old(self)@),
        ensures
            wf_net(final(self)@),
            ({
                let (m2, c) = spec_reduce(old(self)@, spec_limit(None));
                final(self)@ == m2 && r == c
            }),
    {
        self.reduce(None)
    }
}

/// The rewrite count never exceeds the bound, and a count below the bound
/// means the active queue was drained, unless the arena ran out of packed
/// addresses.
pub proof fn lemma_reduce_drains(m: NetModel, remaining: nat)
    ensures
        spec_reduce(m, remaining).1 <= remaining,
        spec_reduce(m, remaining).1 < remaining ==> spec_reduce(m, remaining).0.active.len() == 0
            || spec_reduce(m, remaining).0.agents.len() + 4 > 0x40000000,
    decreases remaining,
{
    if !(remaining == 0 || m.active.len() == 0 || m.agents.len() + 4 > 0x40000000) {
        let a = m.active.last();
        let m1 = NetModel { active: m.active.drop_last(), ..m };
        let b = Index(spec_follow(m1, spec_port(a, Slot::Principal)).spec_address() as u32);
        let m2 = spec_rewrite(m1, a, b);
        lemma_reduce_drains(m2, (remaining - 1) as nat);
    }
}

} // verus!
