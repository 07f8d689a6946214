//! Peer discovery and synchronisation: registration with a seed, gossip of
//! new peers, position broadcasts and inbound updates. The node decides; the
//! caller carries the messages it returns.
use vstd::prelude::*;
use crate::geometry::Vec3;
use crate::registry::{
    PeerAddr, PeerState, Registry, after_register, after_report, distinct_addrs, knows,
    fresh_peer, lemma_after_register,
};

verus! {

/// An entry of a peer list: an address and where that peer was.
#[derive(Clone, Copy, Debug, PartialEq, Eq, Structural)]
pub struct PeerInfo {
    pub addr: PeerAddr,
    pub position: Vec3,
}

/// The messages nodes exchange.
pub enum Message {
    /// The sender's current position.
    MoveQuery(Vec3),
    /// The sender asks to join, from the given position.
    RegisterQuery(Vec3),
    /// The sender was hit.
    Killed,
    /// Known peers: the reply to a registration, or a notice of a new peer.
    Peers(Vec<PeerInfo>),
}

/// What a [`Message`] holds, as mathematical values.
pub enum MessageView {
    MoveQuery(Vec3),
    RegisterQuery(Vec3),
    Killed,
    Peers(Seq<PeerInfo>),
}

impl View for Message {
    type V = MessageView;

    open spec fn view(&self) -> MessageView {
        match self {
            Message::MoveQuery(p) => MessageView::MoveQuery(*p),
            Message::RegisterQuery(p) => MessageView::RegisterQuery(*p),
            Message::Killed => MessageView::Killed,
            Message::Peers(v) => MessageView::Peers(v@),
        }
    }
}

/// A message to send, and to whom.
pub struct Outgoing {
    pub to: PeerAddr,
    pub message: Message,
}

impl View for Outgoing {
    type V = (PeerAddr, MessageView);

    open spec fn view(&self) -> (PeerAddr, MessageView) {
        (self.to, self.message@)
    }
}

pub open spec fn outgoing_view(v: Seq<Outgoing>) -> Seq<(PeerAddr, MessageView)> {
    v.map_values(|o: Outgoing| o@)
}

/// Where a node is in joining the session.
#[derive(Clone, Copy, Debug, PartialEq, Eq, Structural)]
pub enum SyncState {
    Unregistered,
    /// Waiting for the peer list from this seed.
    Registering(PeerAddr),
    Synced,
}

/// One node of the session: its own address, where it is in joining, and
/// its registry of the others.
pub struct Node {
    pub addr: PeerAddr,
    pub state: SyncState,
    pub registry: Registry,
}

/// What a [`Node`] holds, as mathematical values.
pub struct NodeView {
    pub addr: PeerAddr,
    pub state: SyncState,
    pub registry: Seq<PeerState>,
}

impl View for Node {
    type V = NodeView;

    open spec fn view(&self) -> NodeView {
        NodeView { addr: self.addr, state: self.state, registry: self.registry@ }
    }
}

pub open spec fn info_of(e: PeerState) -> PeerInfo {
    PeerInfo { addr: e.addr, position: e.position }
}

/// The known peers other than `skip`, in registry order.
pub open spec fn peer_list(s: Seq<PeerState>, skip: PeerAddr) -> Seq<PeerInfo>
    decreases s.len(),
{
    if s.len() == 0 {
        Seq::empty()
    } else {
        let rest = peer_list(s.drop_last(), skip);
        if s.last().addr != skip {
            rest.push(info_of(s.last()))
        } else {
            rest
        }
    }
}

/// The notice of `joiner` to every known peer other than the joiner.
pub open spec fn gossip(s: Seq<PeerState>, joiner: PeerInfo) -> Seq<(PeerAddr, MessageView)>
    decreases s.len(),
{
    if s.len() == 0 {
        Seq::empty()
    } else {
        let rest = gossip(s.drop_last(), joiner);
        if s.last().addr != joiner.addr {
            rest.push((s.last().addr, MessageView::Peers(seq![joiner])))
        } else {
            rest
        }
    }
}

/// The same message to every known peer.
pub open spec fn to_all(s: Seq<PeerState>, m: MessageView) -> Seq<(PeerAddr, MessageView)>
    decreases s.len(),
{
    if s.len() == 0 {
        Seq::empty()
    } else {
        to_all(s.drop_last(), m).push((s.last().addr, m))
    }
}

/// The registry after taking in a peer list: each listed peer but the node
/// itself gets a fresh snapshot at its listed position, replacing any entry
/// it had.
pub open spec fn learn_all(s: Seq<PeerState>, list: Seq<PeerInfo>, me: PeerAddr) -> Seq<PeerState>
    decreases list.len(),
{
    if list.len() == 0 {
        s
    } else {
        let r = learn_all(s, list.drop_last(), me);
        if list.last().addr != me {
            after_register(r, list.last().addr, list.last().position)
        } else {
            r
        }
    }
}

/// Registrations with every listed peer but the node itself and `seed`.
pub open spec fn direct_registrations(list: Seq<PeerInfo>, me: PeerAddr, seed: PeerAddr, own: Vec3) -> Seq<(PeerAddr, MessageView)>
    decreases list.len(),
{
    if list.len() == 0 {
        Seq::empty()
    } else {
        let rest = direct_registrations(list.drop_last(), me, seed, own);
        let a = list.last().addr;
        if a != me && a != seed {
            rest.push((a, MessageView::RegisterQuery(own)))
        } else {
            rest
        }
    }
}

/// The reply to a registration from `joiner`: every other known peer, then
/// the node itself.
pub open spec fn registration_reply(n: NodeView, joiner: PeerAddr, own: Vec3) -> MessageView {
    MessageView::Peers(peer_list(n.registry, joiner).push(PeerInfo { addr: n.addr, position: own }))
}

/// The node's answer to `msg` from `from`, when its own position is `own`:
/// its next state and the messages to send.
pub open spec fn handle_spec(n: NodeView, from: PeerAddr, msg: MessageView, own: Vec3) -> (NodeView, Seq<(PeerAddr, MessageView)>) {
    match msg {
        MessageView::MoveQuery(p) => (NodeView { registry: after_report(n.registry, from, p), ..n }, Seq::empty()),
        MessageView::RegisterQuery(p) => (
            NodeView { registry: after_register(n.registry, from, p), ..n },
            seq![(from, registration_reply(n, from, own))] + gossip(n.registry, PeerInfo { addr: from, position: p }),
        ),
        MessageView::Killed => (n, Seq::empty()),
        MessageView::Peers(list) => {
            let reg = learn_all(n.registry, list, n.addr);
            if n.state == SyncState::Registering(from) {
                (NodeView { state: SyncState::Synced, registry: reg, ..n }, direct_registrations(list, n.addr, from, own))
            } else {
                (NodeView { registry: reg, ..n }, Seq::empty())
            }
        },
    }
}

/// Every known peer other than `skip` is in the peer list.
pub proof fn lemma_peer_list_has(s: Seq<PeerState>, skip: PeerAddr, i: int)
    requires
        0 <= i < s.len(),
        s[i].addr != skip,
    ensures
        peer_list(s, skip).contains(info_of(s[i])),
    decreases s.len(),
{
    let rest = peer_list(s.drop_last(), skip);
    if i == s.len() - 1 {
        assert(peer_list(s, skip)[rest.len() as int] == info_of(s[i]));
    } else {
        lemma_peer_list_has(s.drop_last(), skip, i);
        let j = choose|j: int| 0 <= j < rest.len() && rest[j] == info_of(s[i]);
        assert(peer_list(s, skip)[j] == info_of(s[i]));
    }
}

/// Every known peer other than the joiner gets the notice.
pub proof fn lemma_gossip_reaches(s: Seq<PeerState>, joiner: PeerInfo, i: int)
    requires
        0 <= i < s.len(),
        s[i].addr != joiner.addr,
    ensures
        gossip(s, joiner).contains((s[i].addr, MessageView::Peers(seq![joiner]))),
    decreases s.len(),
{
    let rest = gossip(s.drop_last(), joiner);
    let m = (s[i].addr, MessageView::Peers(seq![joiner]));
    if i == s.len() - 1 {
        assert(gossip(s, joiner)[rest.len() as int] == m);
    } else {
        lemma_gossip_reaches(s.drop_last(), joiner, i);
        let j = choose|j: int| 0 <= j < rest.len() && rest[j] == m;
        assert(gossip(s, joiner)[j] == m);
    }
}

/// Taking in a peer list keeps every known peer, holds every listed peer
/// but the node itself, and repeats no address.
pub proof fn lemma_learn_all(s: Seq<PeerState>, list: Seq<PeerInfo>, me: PeerAddr)
    requires
        distinct_addrs(s),
    ensures
        distinct_addrs(learn_all(s, list, me)),
        forall|x: PeerAddr| knows(s, x) ==> knows(learn_all(s, list, me), x),
        forall|k: int| 0 <= k < list.len() && list[k].addr != me ==> knows(learn_all(s, list, me), #[trigger] list[k].addr),
    decreases list.len(),
{
    if list.len() > 0 {
        let init = list.drop_last();
        lemma_learn_all(s, init, me);
        let r = learn_all(s, init, me);
        if list.last().addr != me {
            lemma_after_register(r, list.last().addr, list.last().position);
        }
        assert forall|k: int| 0 <= k < list.len() && list[k].addr != me implies knows(
            learn_all(s, list, me),
            #[trigger] list[k].addr,
        ) by {
            if k < list.len() - 1 {
                assert(list[k] == init[k]);
            }
        }
    }
}

/// Registration through a seed: when A joins through seed B, which knows
/// C, then B knows both A (at A's position) and C, A (now synced) knows B
/// (at B's position) and C, and C knows A at A's position once B's notice
/// reaches it; no registry holds an address twice.
pub proof fn lemma_registration_mesh(a: NodeView, b: NodeView, c: NodeView, pa: Vec3, pb: Vec3, pc: Vec3)
    requires
        a.addr != b.addr,
        a.addr != c.addr,
        b.addr != c.addr,
        a.state == SyncState::Registering(b.addr),
        distinct_addrs(a.registry),
        distinct_addrs(b.registry),
        distinct_addrs(c.registry),
        knows(b.registry, c.addr),
    ensures
        ({
            let (b2, out) = handle_spec(b, a.addr, MessageView::RegisterQuery(pa), pb);
            let reply = registration_reply(b, a.addr, pb);
            let notice = MessageView::Peers(seq![PeerInfo { addr: a.addr, position: pa }]);
            let a2 = handle_spec(a, b.addr, reply, pa).0;
            let c2 = handle_spec(c, b.addr, notice, pc).0;
            &&& out[0] == (a.addr, reply)
            &&& out.contains((c.addr, notice))
            &&& knows(b2.registry, a.addr) && knows(b2.registry, c.addr) && distinct_addrs(b2.registry)
            &&& b2.registry.contains(fresh_peer(a.addr, pa))
            &&& a2.state == SyncState::Synced
            &&& knows(a2.registry, b.addr) && knows(a2.registry, c.addr) && distinct_addrs(a2.registry)
            &&& a2.registry.contains(fresh_peer(b.addr, pb))
            &&& knows(c2.registry, a.addr) && distinct_addrs(c2.registry)
            &&& c2.registry.contains(fresh_peer(a.addr, pa))
        }),
{
    let joiner = PeerInfo { addr: a.addr, position: pa };
    let notice = MessageView::Peers(seq![joiner]);
    let out = handle_spec(b, a.addr, MessageView::RegisterQuery(pa), pb).1;
    let g = gossip(b.registry, joiner);
    let i = choose|i: int| 0 <= i < b.registry.len() && b.registry[i].addr == c.addr;
    // B's registry
    lemma_after_register(b.registry, a.addr, pa);
    // B's notice to C
    lemma_gossip_reaches(b.registry, joiner, i);
    let j = choose|j: int| 0 <= j < g.len() && g[j] == (c.addr, notice);
    assert(out[j + 1] == (c.addr, notice));
    // A's registry, from B's reply
    let list = peer_list(b.registry, a.addr).push(PeerInfo { addr: b.addr, position: pb });
    lemma_peer_list_has(b.registry, a.addr, i);
    let k = choose|k: int| 0 <= k < peer_list(b.registry, a.addr).len() && peer_list(b.registry, a.addr)[k] == info_of(b.registry[i]);
    assert(list[k].addr == c.addr);
    assert(list[list.len() - 1].addr == b.addr);
    lemma_learn_all(a.registry, list, a.addr);
    lemma_learn_all(a.registry, list.drop_last(), a.addr);
    lemma_after_register(learn_all(a.registry, list.drop_last(), a.addr), b.addr, pb);
    assert(list.last() == PeerInfo { addr: b.addr, position: pb });
    assert(learn_all(a.registry, list, a.addr) == after_register(
        learn_all(a.registry, list.drop_last(), a.addr),
        b.addr,
        pb,
    ));
    // C's registry, from the notice
    lemma_learn_all(c.registry, seq![joiner], c.addr);
    assert(seq![joiner][0].addr == a.addr);
    assert(seq![joiner].drop_last() =~= Seq::<PeerInfo>::empty());
    lemma_after_register(c.registry, a.addr, pa);
    assert(learn_all(c.registry, seq![joiner].drop_last(), c.addr) == c.registry);
    assert(learn_all(c.registry, seq![joiner], c.addr) == after_register(c.registry, a.addr, pa));
}

/// Two joins through one seed: A joins through B, then C joins through B.
/// Once the replies and B's notice of C are delivered, A knows B and C, B
/// knows A and C, and C knows B (and A); no registry holds an address twice.
pub proof fn lemma_three_node_mesh(a: NodeView, b: NodeView, c: NodeView, pa: Vec3, pb: Vec3, pc: Vec3)
    requires
        a.addr != b.addr,
        a.addr != c.addr,
        b.addr != c.addr,
        a.state == SyncState::Registering(b.addr),
        c.state == SyncState::Registering(b.addr),
        distinct_addrs(a.registry),
        distinct_addrs(b.registry),
        distinct_addrs(c.registry),
    ensures
        ({
            let b1 = handle_spec(b, a.addr, MessageView::RegisterQuery(pa), pb).0;
            let a1 = handle_spec(a, b.addr, registration_reply(b, a.addr, pb), pa).0;
            let (b2, out) = handle_spec(b1, c.addr, MessageView::RegisterQuery(pc), pb);
            let c1 = handle_spec(c, b.addr, registration_reply(b1, c.addr, pb), pc).0;
            let notice = MessageView::Peers(seq![PeerInfo { addr: c.addr, position: pc }]);
            let a2 = handle_spec(a1, b.addr, notice, pa).0;
            &&& out.contains((a.addr, notice))
            &&& knows(a2.registry, b.addr) && knows(a2.registry, c.addr) && distinct_addrs(a2.registry)
            &&& knows(b2.registry, a.addr) && knows(b2.registry, c.addr) && distinct_addrs(b2.registry)
            &&& knows(c1.registry, b.addr) && knows(c1.registry, a.addr) && distinct_addrs(c1.registry)
        }),
{
    let b1 = handle_spec(b, a.addr, MessageView::RegisterQuery(pa), pb).0;
    let a1 = handle_spec(a, b.addr, registration_reply(b, a.addr, pb), pa).0;
    // First join: B registers A; A takes in B's list, which ends with B.
    lemma_after_register(b.registry, a.addr, pa);
    let list = peer_list(b.registry, a.addr).push(PeerInfo { addr: b.addr, position: pb });
    lemma_learn_all(a.registry, list, a.addr);
    assert(list[list.len() - 1].addr == b.addr);
    assert(a1.state == SyncState::Synced);
    // Second join, through a seed that now knows A.
    lemma_registration_mesh(c, b1, a1, pc, pb, pa);
    let joiner = PeerInfo { addr: c.addr, position: pc };
    lemma_learn_all(a1.registry, seq![joiner], a.addr);
}

/// The known peers other than `skip`, in registry order.
fn peers_except(reg: &Registry, skip: PeerAddr) -> (r: Vec<PeerInfo>)
    ensures
        r@ == peer_list(reg@, skip),
{
    let mut out: Vec<PeerInfo> = Vec::new();
    let n = reg.len();
    let mut i: usize = 0;
    while i < n
        invariant
            0 <= i <= n,
            n == reg@.len(),
            out@ == peer_list(reg@.take(i as int), skip),
        decreases n - i,
    {
        let (a, p, _) = reg.entry(i);
        proof {
            assert(reg@.take(i + 1).drop_last() =~= reg@.take(i as int));
        }
        if a != skip {
            out.push(PeerInfo { addr: a, position: p });
        }
        i = i + 1;
    }
    proof {
        assert(reg@.take(n as int) =~= reg@);
    }
    out
}

/// Appends to `out` the notice of `joiner` for every other known peer.
fn push_gossip(out: &mut Vec<Outgoing>, reg: &Registry, joiner: PeerInfo)
    ensures
        outgoing_view(final(out)@) == outgoing_view(old(out)@) + gossip(reg@, joiner),
{
    let ghost start = outgoing_view(out@);
    let n = reg.len();
    let mut i: usize = 0;
    while i < n
        invariant
            0 <= i <= n,
            n == reg@.len(),
            outgoing_view(out@) == start + gossip(reg@.take(i as int), joiner),
        decreases n - i,
    {
        let (a, _, _) = reg.entry(i);
        proof {
            assert(reg@.take(i + 1).drop_last() =~= reg@.take(i as int));
        }
        if a != joiner.addr {
            let ghost prev = out@;
            let notice = vec![joiner];
            out.push(Outgoing { to: a, message: Message::Peers(notice) });
            proof {
                assert(notice@ =~= seq![joiner]);
                assert(outgoing_view(out@) =~= outgoing_view(prev).push((a, MessageView::Peers(seq![joiner]))));
                assert(start + gossip(reg@.take(i + 1), joiner) =~= (start + gossip(reg@.take(i as int), joiner)).push(
                    (a, MessageView::Peers(seq![joiner])),
                ));
            }
        }
        i = i + 1;
    }
    proof {
        assert(reg@.take(n as int) =~= reg@);
    }
}

/// Takes a peer list into the registry as registrations, skipping the
/// node's own entry.
fn learn_list(reg: &mut Registry, list: &Vec<PeerInfo>, me: PeerAddr)
    requires
        old(reg).wf(),
    ensures
        final(reg).wf(),
        final(reg)@ == learn_all(old(reg)@, list@, me),
{
    let n = list.len();
    let mut i: usize = 0;
    while i < n
        invariant
            0 <= i <= n,
            n == list@.len(),
            reg.wf(),
            reg@ == learn_all(old(reg)@, list@.take(i as int), me),
        decreases n - i,
    {
        let e = list[i];
        proof {
            assert(list@.take(i + 1).drop_last() =~= list@.take(i as int));
        }
        if e.addr != me {
            reg.register(e.addr, e.position);
        }
        i = i + 1;
    }
    proof {
        assert(list@.take(n as int) =~= list@);
    }
}

/// Registrations with every listed peer but the node itself and `seed`.
fn registrations(list: &Vec<PeerInfo>, me: PeerAddr, seed: PeerAddr, own: Vec3) -> (r: Vec<Outgoing>)
    ensures
        outgoing_view(r@) == direct_registrations(list@, me, seed, own),
{
    let mut out: Vec<Outgoing> = Vec::new();
    let n = list.len();
    let mut i: usize = 0;
    while i < n
        invariant
            0 <= i <= n,
            n == list@.len(),
            outgoing_view(out@) == direct_registrations(list@.take(i as int), me, seed, own),
        decreases n - i,
    {
        let a = list[i].addr;
        proof {
            assert(list@.take(i + 1).drop_last() =~= list@.take(i as int));
        }
        if a != me && a != seed {
            let ghost prev = out@;
            out.push(Outgoing { to: a, message: Message::RegisterQuery(own) });
            proof {
                assert(outgoing_view(out@) =~= outgoing_view(prev).push((a, MessageView::RegisterQuery(own))));
            }
        }
        i = i + 1;
    }
    proof {
        assert(list@.take(n as int) =~= list@);
    }
    out
}

impl Node {
    pub open spec fn wf(&self) -> bool {
        self.registry.wf()
    }

    /// A node that knows no one yet.
    pub fn new(addr: PeerAddr) -> (r: Node)
        ensures
            r@ == (NodeView { addr, state: SyncState::Unregistered, registry: Seq::empty() }),
            r.wf(),
    {
        Node { addr, state: SyncState::Unregistered, registry: Registry::new() }
    }

    /// Starts joining through `seed`: returns the registration to send it.
    pub fn join(&mut self, seed: PeerAddr, own: Vec3) -> (r: Outgoing)
        requires
            old(self).wf(),
        ensures
            final(self)@ == (NodeView { state: SyncState::Registering(seed), ..old(self)@ }),
            final(self).wf(),
            r@ == (seed, MessageView::RegisterQuery(own)),
    {
        self.state = SyncState::Registering(seed);
        Outgoing { to: seed, message: Message::RegisterQuery(own) }
    }

    /// Handles `msg` from `from`; `own` is this node's current position.
    /// Returns the messages to send in answer.
    pub fn handle(&mut self, from: PeerAddr, msg: Message, own: Vec3) -> (out: Vec<Outgoing>)
        requires
            old(self).wf(),
        ensures
            final(self).wf(),
            (final(self)@, outgoing_view(out@)) == handle_spec(old(self)@, from, msg@, own),
    {
        match msg {
            Message::MoveQuery(p) => {
                self.registry.report(from, p);
                proof {
                    assert(outgoing_view(Seq::<Outgoing>::empty()) =~= Seq::empty());
                }
                Vec::new()
            },
            Message::RegisterQuery(p) => {
                let mut list = peers_except(&self.registry, from);
                list.push(PeerInfo { addr: self.addr, position: own });
                let mut out: Vec<Outgoing> = Vec::new();
                out.push(Outgoing { to: from, message: Message::Peers(list) });
                proof {
                    assert(outgoing_view(out@) =~= seq![(from, registration_reply(old(self)@, from, own))]);
                }
                push_gossip(&mut out, &self.registry, PeerInfo { addr: from, position: p });
                self.registry.register(from, p);
                out
            },
            Message::Killed => {
                proof {
                    assert(outgoing_view(Seq::<Outgoing>::empty()) =~= Seq::empty());
                }
                Vec::new()
            },
            Message::Peers(list) => {
                let me = self.addr;
                learn_list(&mut self.registry, &list, me);
                if self.state == SyncState::Registering(from) {
                    self.state = SyncState::Synced;
                    registrations(&list, me, from, own)
                } else {
                    proof {
                        assert(outgoing_view(Seq::<Outgoing>::empty()) =~= Seq::empty());
                    }
                    Vec::new()
                }
            },
        }
    }

    /// The position update to every known peer, sent once per tick.
    pub fn broadcast(&self, own: Vec3) -> (r: Vec<Outgoing>)
        ensures
            outgoing_view(r@) == to_all(self.registry@, MessageView::MoveQuery(own)),
    {
        let mut out: Vec<Outgoing> = Vec::new();
        let n = self.registry.len();
        let mut i: usize = 0;
        while i < n
            invariant
                0 <= i <= n,
                n == self.registry@.len(),
                outgoing_view(out@) == to_all(self.registry@.take(i as int), MessageView::MoveQuery(own)),
            decreases n - i,
        {
            let (a, _, _) = self.registry.entry(i);
            let ghost prev = out@;
            out.push(Outgoing { to: a, message: Message::MoveQuery(own) });
            proof {
                assert(self.registry@.take(i + 1).drop_last() =~= self.registry@.take(i as int));
                assert(outgoing_view(out@) =~= outgoing_view(prev).push((a, MessageView::MoveQuery(own))));
            }
            i = i + 1;
        }
        proof {
            assert(self.registry@.take(n as int) =~= self.registry@);
        }
        out
    }
}

} // verus!
