//! The peer registry: what this node knows of every other node.
use vstd::prelude::*;
use crate::geometry::{Ray, Vec3};
use crate::history::{TickHistory, TICKS_PER_SECOND, window_after};

verus! {

/// A peer's network address: an IPv4 or IPv6 address and a port.
#[derive(Clone, Copy, Debug, PartialEq, Eq, Structural)]
pub struct PeerAddr {
    /// The address bits; an IPv4 address uses the low 32.
    pub ip: u128,
    pub port: u16,
    pub v6: bool,
}

/// The replicated snapshot of one peer.
pub struct Peer {
    pub addr: PeerAddr,
    pub position: Vec3,
    pub ticks: TickHistory,
    pub killed: bool,
}

/// What a [`Peer`] holds, as mathematical values.
pub struct PeerState {
    pub addr: PeerAddr,
    pub position: Vec3,
    pub ticks: Seq<Option<Vec3>>,
    pub killed: bool,
}

impl View for Peer {
    type V = PeerState;

    open spec fn view(&self) -> PeerState {
        PeerState { addr: self.addr, position: self.position, ticks: self.ticks@, killed: self.killed }
    }
}

/// A peer first heard of at `position`: alive, with no history.
pub open spec fn fresh_peer(addr: PeerAddr, position: Vec3) -> PeerState {
    PeerState { addr, position, ticks: Seq::empty(), killed: false }
}

/// Floor of the mean of two coordinates: half-way smoothing.
pub open spec fn midpoint(a: int, b: int) -> int {
    (a + b) / 2
}

/// The stored position moved half-way toward the report, except the height,
/// which is taken from the report as it is.
pub open spec fn blended(stored: Vec3, reported: Vec3) -> Vec3 {
    Vec3 {
        x: midpoint(stored.x as int, reported.x as int) as i64,
        y: reported.y,
        z: midpoint(stored.z as int, reported.z as int) as i64,
    }
}

/// A peer after a position report: blended position, recorded in its window.
pub open spec fn after_move(p: PeerState, reported: Vec3) -> PeerState {
    let pos = blended(p.position, reported);
    PeerState { position: pos, ticks: window_after(p.ticks, Some(pos)), ..p }
}

/// Index of the entry for `addr` in a registry view.
pub open spec fn position_of(s: Seq<PeerState>, addr: PeerAddr) -> Option<int> {
    if exists|i: int| 0 <= i < s.len() && s[i].addr == addr {
        Some(choose|i: int| 0 <= i < s.len() && s[i].addr == addr)
    } else {
        None
    }
}

pub open spec fn knows(s: Seq<PeerState>, addr: PeerAddr) -> bool {
    exists|i: int| 0 <= i < s.len() && s[i].addr == addr
}

/// No address appears twice.
pub open spec fn distinct_addrs(s: Seq<PeerState>) -> bool {
    forall|i: int, j: int| 0 <= i < j < s.len() ==> s[i].addr != s[j].addr
}

/// The entries after registering `addr` at `position`: a fresh snapshot
/// replaces the old one, or is appended.
pub open spec fn after_register(s: Seq<PeerState>, addr: PeerAddr, position: Vec3) -> Seq<PeerState> {
    match position_of(s, addr) {
        Some(i) => s.update(i, fresh_peer(addr, position)),
        None => s.push(fresh_peer(addr, position)),
    }
}

/// The entries after `addr` reported `reported`; an unknown sender is first
/// added at the reported position.
pub open spec fn after_report(s: Seq<PeerState>, addr: PeerAddr, reported: Vec3) -> Seq<PeerState> {
    match position_of(s, addr) {
        Some(i) => s.update(i, after_move(s[i], reported)),
        None => s.push(after_move(fresh_peer(addr, reported), reported)),
    }
}

/// Some recorded sample of the peer made `hit` answer true.
pub open spec fn hit_at_some_tick<H: Fn(Ray, Vec3) -> bool>(a: PeerState, ray: Ray, hit: H) -> bool {
    exists|k: int| 0 <= k < a.ticks.len() && a.ticks[k] is Some && call_ensures(hit, (ray, a.ticks[k].unwrap()), true)
}

/// `hit` answered false at every recorded sample of the peer.
pub open spec fn missed_at_all_ticks<H: Fn(Ray, Vec3) -> bool>(a: PeerState, ray: Ray, hit: H) -> bool {
    forall|k: int| 0 <= k < a.ticks.len() && a.ticks[k] is Some ==> call_ensures(hit, (ray, a.ticks[k].unwrap()), false)
}

/// `b` is `a` with each peer marked killed that `hit` found at some
/// recorded sample; a peer stays alive only if every sample missed.
pub open spec fn hits_marked<H: Fn(Ray, Vec3) -> bool>(a: Seq<PeerState>, b: Seq<PeerState>, ray: Ray, hit: H) -> bool {
    &&& b.len() == a.len()
    &&& forall|i: int| 0 <= i < a.len() ==> {
        let x = #[trigger] a[i];
        let y = b[i];
        &&& y.addr == x.addr
        &&& y.position == x.position
        &&& y.ticks == x.ticks
        &&& (y.killed ==> x.killed || hit_at_some_tick(x, ray, hit))
        &&& (!y.killed ==> !x.killed && missed_at_all_ticks(x, ray, hit))
    }
}

/// Lag compensation: a shot that hits a peer at any sample still in its
/// window kills it, whatever the test says of its latest position.
pub proof fn lemma_lag_compensated_hit<H: Fn(Ray, Vec3) -> bool>(
    a: Seq<PeerState>,
    b: Seq<PeerState>,
    ray: Ray,
    hit: H,
    i: int,
    k: int,
)
    requires
        hits_marked(a, b, ray, hit),
        0 <= i < a.len(),
        0 <= k < a[i].ticks.len(),
        a[i].ticks[k] is Some,
        forall|r: bool| call_ensures(hit, (ray, a[i].ticks[k].unwrap()), r) ==> r,
    ensures
        b[i].killed,
{
    let x = a[i];
    if !b[i].killed {
        assert(missed_at_all_ticks(x, ray, hit));
        assert(call_ensures(hit, (ray, x.ticks[k].unwrap()), false));
    }
}

/// After registering `addr`, the registry holds a fresh snapshot of it at
/// `position`, still knows every peer it knew, and still holds no address
/// twice.
pub proof fn lemma_after_register(s: Seq<PeerState>, addr: PeerAddr, position: Vec3)
    requires
        distinct_addrs(s),
    ensures
        knows(after_register(s, addr, position), addr),
        after_register(s, addr, position).contains(fresh_peer(addr, position)),
        forall|x: PeerAddr| knows(s, x) ==> knows(after_register(s, addr, position), x),
        distinct_addrs(after_register(s, addr, position)),
{
    let r = after_register(s, addr, position);
    match position_of(s, addr) {
        Some(i) => {
            assert(r[i].addr == addr);
            assert forall|x: PeerAddr| knows(s, x) implies knows(r, x) by {
                let j = choose|j: int| 0 <= j < s.len() && s[j].addr == x;
                assert(r[j].addr == x);
            }
        },
        None => {
            assert(r[s.len() as int].addr == addr);
            assert forall|x: PeerAddr| knows(s, x) implies knows(r, x) by {
                let j = choose|j: int| 0 <= j < s.len() && s[j].addr == x;
                assert(r[j] == s[j]);
            }
        },
    }
}

pub struct Registry {
    peers: Vec<Peer>,
}

impl View for Registry {
    type V = Seq<PeerState>;

    closed spec fn view(&self) -> Seq<PeerState> {
        self.peers@.map_values(|p: Peer| p@)
    }
}

fn midpoint_exec(a: i64, b: i64) -> (r: i64)
    ensures
        r == midpoint(a as int, b as int),
{
    let s: i128 = a as i128 + b as i128;
    let h: i128 = if s >= 0 {
        s / 2
    } else {
        -((-s + 1) / 2)
    };
    h as i64
}

impl Registry {
    pub open spec fn wf(&self) -> bool {
        &&& distinct_addrs(self@)
        &&& forall|i: int| 0 <= i < self@.len() ==> #[trigger] self@[i].ticks.len() <= TICKS_PER_SECOND
    }

    pub fn new() -> (r: Registry)
        ensures
            r@ == Seq::<PeerState>::empty(),
            r.wf(),
    {
        Registry { peers: Vec::new() }
    }

    pub fn len(&self) -> (r: usize)
        ensures
            r == self@.len(),
    {
        self.peers.len()
    }

    /// The address and position of the entry at `i`.
    pub fn entry(&self, i: usize) -> (r: (PeerAddr, Vec3, bool))
        requires
            i < self@.len(),
        ensures
            r == (self@[i as int].addr, self@[i as int].position, self@[i as int].killed),
    {
        let p = &self.peers[i];
        (p.addr, p.position, p.killed)
    }

    /// The recorded window of the entry at `i`.
    pub fn ticks(&self, i: usize) -> (r: &TickHistory)
        requires
            i < self@.len(),
        ensures
            r@ == self@[i as int].ticks,
    {
        &self.peers[i].ticks
    }

    /// Registers `addr` at `position`: a fresh snapshot replaces any entry
    /// it had.
    pub fn register(&mut self, addr: PeerAddr, position: Vec3)
        requires
            old(self).wf(),
        ensures
            final(self)@ == after_register(old(self)@, addr, position),
            final(self).wf(),
            knows(final(self)@, addr),
    {
        let fresh = Peer { addr, position, ticks: TickHistory::new(), killed: false };
        match self.find(addr) {
            Some(i) => {
                self.peers.set(i, fresh);
                proof {
                    assert(self@ =~= old(self)@.update(i as int, fresh_peer(addr, position)));
                    assert(self@[i as int].addr == addr);
                }
            },
            None => {
                self.peers.push(fresh);
                proof {
                    assert(self@ =~= old(self)@.push(fresh_peer(addr, position)));
                    assert(self@[old(self)@.len() as int].addr == addr);
                }
            },
        }
    }

    /// Applies a position report from `addr`: the position is smoothed
    /// half-way toward the report (the height is taken as reported) and
    /// recorded in the peer's window. An unknown sender is added first.
    pub fn report(&mut self, addr: PeerAddr, reported: Vec3)
        requires
            old(self).wf(),
        ensures
            final(self)@ == after_report(old(self)@, addr, reported),
            final(self).wf(),
            knows(final(self)@, addr),
    {
        let i = match self.find(addr) {
            Some(i) => i,
            None => {
                self.peers.push(Peer { addr, position: reported, ticks: TickHistory::new(), killed: false });
                proof {
                    assert(self@ =~= old(self)@.push(fresh_peer(addr, reported)));
                    assert(self@[old(self)@.len() as int].addr == addr);
                }
                self.peers.len() - 1
            },
        };
        let ghost mid = self@;
        let stored = self.peers[i].position;
        let pos = Vec3 {
            x: midpoint_exec(stored.x, reported.x),
            y: reported.y,
            z: midpoint_exec(stored.z, reported.z),
        };
        assert(mid[i as int].ticks.len() <= TICKS_PER_SECOND);
        self.peers[i].position = pos;
        assert(self.peers@[i as int].ticks@ == mid[i as int].ticks);
        self.peers[i].ticks.record(Some(pos));
        proof {
            assert(self@ =~= mid.update(i as int, after_move(mid[i as int], reported)));
            assert(self@[i as int].addr == addr);
        }
    }

    /// Marks killed each peer for which `hit` holds at some recorded sample.
    pub fn mark_hits<H: Fn(Ray, Vec3) -> bool>(&mut self, ray: Ray, hit: H)
        requires
            old(self).wf(),
            forall|p: Vec3| call_requires(hit, (ray, p)),
        ensures
            final(self).wf(),
            hits_marked(old(self)@, final(self)@, ray, hit),
    {
        let mut i: usize = 0;
        while i < self.peers.len()
            invariant
                self.wf(),
                old(self).wf(),
                forall|p: Vec3| call_requires(hit, (ray, p)),
                0 <= i <= self@.len(),
                self@.len() == old(self)@.len(),
                forall|j: int| 0 <= j < self@.len() ==> {
                    let a = #[trigger] old(self)@[j];
                    let b = self@[j];
                    &&& b.addr == a.addr
                    &&& b.position == a.position
                    &&& b.ticks == a.ticks
                },
                forall|j: int| i <= j < self@.len() ==> self@[j].killed == #[trigger] old(self)@[j].killed,
                forall|j: int| 0 <= j < i ==> {
                    let a = #[trigger] old(self)@[j];
                    let b = self@[j];
                    &&& (b.killed ==> a.killed || exists|k: int| 0 <= k < a.ticks.len() && a.ticks[k] is Some
                        && call_ensures(hit, (ray, a.ticks[k].unwrap()), true))
                    &&& (!b.killed ==> !a.killed && forall|k: int| 0 <= k < a.ticks.len() && a.ticks[k] is Some
                        ==> call_ensures(hit, (ray, a.ticks[k].unwrap()), false))
                },
            decreases self@.len() - i,
        {
            let n = self.peers[i].ticks.len();
            let mut k: usize = 0;
            let ghost a = old(self)@[i as int];
            while k < n
                invariant
                    self.wf(),
                    old(self).wf(),
                    forall|p: Vec3| call_requires(hit, (ray, p)),
                    0 <= i < self@.len(),
                    0 <= k <= n,
                    n == a.ticks.len(),
                    a == old(self)@[i as int],
                    self@.len() == old(self)@.len(),
                    forall|j: int| 0 <= j < self@.len() ==> {
                        let a = #[trigger] old(self)@[j];
                        let b = self@[j];
                        &&& b.addr == a.addr
                        &&& b.position == a.position
                        &&& b.ticks == a.ticks
                    },
                    forall|j: int| i < j < self@.len() ==> self@[j].killed == #[trigger] old(self)@[j].killed,
                    forall|j: int| 0 <= j < i ==> {
                        let a = #[trigger] old(self)@[j];
                        let b = self@[j];
                        &&& (b.killed ==> a.killed || exists|k: int| 0 <= k < a.ticks.len() && a.ticks[k] is Some
                            && call_ensures(hit, (ray, a.ticks[k].unwrap()), true))
                        &&& (!b.killed ==> !a.killed && forall|k: int| 0 <= k < a.ticks.len() && a.ticks[k] is Some
                            ==> call_ensures(hit, (ray, a.ticks[k].unwrap()), false))
                    },
                    self@[i as int].killed ==> a.killed || exists|m: int| 0 <= m < k && a.ticks[m] is Some
                        && call_ensures(hit, (ray, a.ticks[m].unwrap()), true),
                    !self@[i as int].killed ==> !a.killed && forall|m: int| 0 <= m < k && a.ticks[m] is Some
                        ==> call_ensures(hit, (ray, a.ticks[m].unwrap()), false),
                decreases n - k,
            {
                match self.peers[i].ticks.get(k) {
                    Some(p) => {
                        if hit(ray, p) {
                            self.peers[i].killed = true;
                        }
                    },
                    None => {},
                }
                proof {
                    assert forall|x: int, y: int| 0 <= x < y < self@.len() implies self@[x].addr
                        != self@[y].addr by {
                        assert(self@[x].addr == old(self)@[x].addr);
                        assert(self@[y].addr == old(self)@[y].addr);
                    }
                    assert forall|x: int| 0 <= x < self@.len() implies #[trigger] self@[x].ticks.len()
                        <= TICKS_PER_SECOND by {
                        assert(self@[x].ticks == old(self)@[x].ticks);
                    }
                }
                k = k + 1;
            }
            i = i + 1;
        }
    }

    /// Finds the entry for `addr`.
    pub fn find(&self, addr: PeerAddr) -> (r: Option<usize>)
        requires
            self.wf(),
        ensures
            r == (match position_of(self@, addr) {
                Some(i) => Some(i as usize),
                None => None::<usize>,
            }),
            r matches Some(i) ==> i < self@.len() && self@[i as int].addr == addr,
            r is None <==> !knows(self@, addr),
    {
        let mut i: usize = 0;
        while i < self.peers.len()
            invariant
                self.wf(),
                0 <= i <= self@.len(),
                forall|j: int| 0 <= j < i ==> self@[j].addr != addr,
            decreases self@.len() - i,
        {
            if self.peers[i].addr == addr {
                proof {
                    lemma_position_of(self@, addr, i as int);
                }
                return Some(i);
            }
            i = i + 1;
        }
        None
    }
}

/// In a registry without repeated addresses, the entry for an address is
/// where it was found.
pub proof fn lemma_position_of(s: Seq<PeerState>, addr: PeerAddr, i: int)
    requires
        distinct_addrs(s),
        0 <= i < s.len(),
        s[i].addr == addr,
    ensures
        position_of(s, addr) == Some(i),
{
    let j = choose|j: int| 0 <= j < s.len() && s[j].addr == addr;
    if j < i {
        assert(s[j].addr != s[i].addr);
    } else if i < j {
        assert(s[i].addr != s[j].addr);
    }
}

} // verus!
