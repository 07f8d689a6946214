use librego::geometry::Vec3;
use librego::history::TickHistory;
use librego::protocol::{Message, Node, Outgoing, PeerInfo, SyncState};
use librego::registry::{PeerAddr, Registry};

fn v(x: i64, y: i64, z: i64) -> Vec3 {
    Vec3 { x, y, z }
}

fn addr(port: u16) -> PeerAddr {
    PeerAddr { ip: 0x7f00_0001, port, v6: false }
}

fn known(node: &Node) -> Vec<PeerAddr> {
    let mut r = Vec::new();
    for i in 0..node.registry.len() {
        r.push(node.registry.entry(i).0);
    }
    r
}

fn count(node: &Node, a: PeerAddr) -> usize {
    known(node).into_iter().filter(|x| *x == a).count()
}

/// Delivers every queued message, and what they cause, until none is left.
fn settle(nodes: &mut Vec<(Node, Vec3)>, mut queue: Vec<(PeerAddr, Outgoing)>) {
    let mut steps = 0;
    while let Some((from, out)) = queue.pop() {
        steps += 1;
        assert!(steps < 1_000);
        let (node, own) = nodes.iter_mut().find(|(n, _)| n.addr == out.to).unwrap();
        let me = node.addr;
        for next in node.handle(from, out.message, *own) {
            queue.insert(0, (me, next));
        }
    }
}

#[test]
fn seed_replies_and_gossips() {
    let (a, b, c) = (addr(1), addr(2), addr(3));
    let mut seed = Node::new(b);
    seed.handle(c, Message::RegisterQuery(v(30, 0, 0)), v(20, 0, 0));
    let out = seed.handle(a, Message::RegisterQuery(v(10, 0, 0)), v(20, 0, 0));
    assert_eq!(out.len(), 2);
    assert_eq!(out[0].to, a);
    match &out[0].message {
        Message::Peers(list) => assert_eq!(
            list,
            &vec![PeerInfo { addr: c, position: v(30, 0, 0) }, PeerInfo { addr: b, position: v(20, 0, 0) }]
        ),
        _ => panic!("the reply is a peer list"),
    }
    assert_eq!(out[1].to, c);
    match &out[1].message {
        Message::Peers(list) => assert_eq!(list, &vec![PeerInfo { addr: a, position: v(10, 0, 0) }]),
        _ => panic!("the notice is a peer list"),
    }
    assert_eq!(known(&seed), vec![c, a]);
}

#[test]
fn registration_reaches_known_peers() {
    let (a, b, c) = (addr(1), addr(2), addr(3));
    let mut na = Node::new(a);
    let mut nb = Node::new(b);
    let mut nc = Node::new(c);
    let join_c = nc.join(b, v(3, 0, 0));
    for o in nb.handle(c, join_c.message, v(2, 0, 0)) {
        assert_eq!(o.to, c);
        nc.handle(b, o.message, v(3, 0, 0));
    }
    let join = na.join(b, v(1, 0, 0));
    assert_eq!(na.state, SyncState::Registering(b));
    assert_eq!(join.to, b);
    let out = nb.handle(a, join.message, v(2, 0, 0));
    for o in out {
        if o.to == a {
            for back in na.handle(b, o.message, v(1, 0, 0)) {
                assert_eq!(back.to, c);
            }
        } else {
            assert_eq!(o.to, c);
            nc.handle(b, o.message, v(3, 0, 0));
        }
    }
    assert_eq!(na.state, SyncState::Synced);
    assert_eq!(count(&na, b), 1);
    assert_eq!(count(&na, c), 1);
    assert_eq!(na.registry.len(), 2);
    assert_eq!(count(&nc, a), 1);
    assert_eq!(count(&nb, a), 1);
    assert_eq!(count(&nb, c), 1);
}

#[test]
fn three_nodes_settle_into_a_mesh() {
    let (a, b, c) = (addr(1), addr(2), addr(3));
    let mut nodes = vec![(Node::new(a), v(1, 0, 0)), (Node::new(b), v(2, 0, 0)), (Node::new(c), v(3, 0, 0))];
    let join_a = nodes[0].0.join(b, v(1, 0, 0));
    settle(&mut nodes, vec![(a, join_a)]);
    let join_c = nodes[2].0.join(b, v(3, 0, 0));
    settle(&mut nodes, vec![(c, join_c)]);
    let (na, nb, nc) = (&nodes[0].0, &nodes[1].0, &nodes[2].0);
    assert_eq!(count(na, b), 1);
    assert_eq!(count(na, c), 1);
    assert_eq!(count(nb, a), 1);
    assert_eq!(count(nb, c), 1);
    assert_eq!(count(nc, b), 1);
    assert!(count(nc, a) <= 1);
    assert_eq!(count(na, a) + count(nb, b) + count(nc, c), 0);
    assert_eq!(na.state, SyncState::Synced);
    assert_eq!(nc.state, SyncState::Synced);
}

#[test]
fn broadcast_goes_to_every_peer() {
    let mut n = Node::new(addr(9));
    n.handle(addr(1), Message::RegisterQuery(v(0, 0, 0)), v(0, 0, 0));
    n.handle(addr(2), Message::RegisterQuery(v(0, 0, 0)), v(0, 0, 0));
    let out = n.broadcast(v(7, 8, 9));
    assert_eq!(out.len(), 2);
    assert_eq!(out[0].to, addr(1));
    assert_eq!(out[1].to, addr(2));
    for o in out {
        match o.message {
            Message::MoveQuery(p) => assert_eq!(p, v(7, 8, 9)),
            _ => panic!("a broadcast carries the position"),
        }
    }
}

#[test]
fn move_updates_blend_and_record() {
    let mut n = Node::new(addr(9));
    n.handle(addr(1), Message::RegisterQuery(v(0, 0, 0)), v(0, 0, 0));
    n.handle(addr(1), Message::MoveQuery(v(101, 50, -101)), v(0, 0, 0));
    assert_eq!(n.registry.entry(0), (addr(1), v(50, 50, -51), false));
    assert_eq!(n.registry.ticks(0).len(), 1);
    assert_eq!(n.registry.ticks(0).get(0), Some(v(50, 50, -51)));
}

#[test]
fn move_from_unknown_sender_is_added() {
    let mut n = Node::new(addr(9));
    n.handle(addr(4), Message::MoveQuery(v(10, 20, 30)), v(0, 0, 0));
    assert_eq!(n.registry.len(), 1);
    assert_eq!(n.registry.entry(0), (addr(4), v(10, 20, 30), false));
    assert_eq!(n.registry.find(addr(4)), Some(0));
    assert_eq!(n.registry.find(addr(5)), None);
}

#[test]
fn killed_message_changes_nothing() {
    let mut n = Node::new(addr(9));
    n.handle(addr(1), Message::RegisterQuery(v(0, 0, 0)), v(0, 0, 0));
    let out = n.handle(addr(1), Message::Killed, v(0, 0, 0));
    assert!(out.is_empty());
    assert_eq!(n.registry.len(), 1);
    assert_eq!(n.state, SyncState::Unregistered);
}

#[test]
fn notice_does_not_duplicate() {
    let mut n = Node::new(addr(9));
    let list = vec![PeerInfo { addr: addr(1), position: v(1, 0, 0) }, PeerInfo { addr: addr(9), position: v(0, 0, 0) }];
    let out = n.handle(addr(2), Message::Peers(list.clone()), v(0, 0, 0));
    assert!(out.is_empty());
    n.handle(addr(2), Message::Peers(list), v(0, 0, 0));
    assert_eq!(n.registry.len(), 1);
    assert_eq!(n.registry.entry(0).0, addr(1));
}

#[test]
fn peer_list_refreshes_known_peer() {
    let mut n = Node::new(addr(9));
    n.handle(addr(1), Message::RegisterQuery(v(0, 0, 0)), v(0, 0, 0));
    n.handle(addr(1), Message::MoveQuery(v(10, 0, 0)), v(0, 0, 0));
    let list = vec![PeerInfo { addr: addr(1), position: v(40, 5, 6) }];
    n.handle(addr(2), Message::Peers(list), v(0, 0, 0));
    assert_eq!(n.registry.len(), 1);
    assert_eq!(n.registry.entry(0), (addr(1), v(40, 5, 6), false));
    assert_eq!(n.registry.ticks(0).len(), 0);
}

#[test]
fn registration_order_does_not_matter() {
    let (a, b, c) = (addr(1), addr(2), addr(3));
    let mut results = Vec::new();
    for first_a in [true, false] {
        let mut nodes = vec![(Node::new(a), v(1, 0, 0)), (Node::new(b), v(2, 0, 0)), (Node::new(c), v(3, 0, 0))];
        let order = if first_a { [0, 2] } else { [2, 0] };
        for i in order {
            let me = nodes[i].0.addr;
            let own = nodes[i].1;
            let join = nodes[i].0.join(b, own);
            settle(&mut nodes, vec![(me, join)]);
        }
        let mut keys = Vec::new();
        for (n, _) in &nodes {
            let mut k = known(n);
            k.sort_by_key(|x| x.port);
            for x in &k {
                assert_eq!(count(n, *x), 1);
            }
            keys.push(k);
        }
        assert_eq!(keys, vec![vec![b, c], vec![a, c], vec![a, b]]);
        results.push(keys);
    }
    assert_eq!(results[0], results[1]);
}

#[test]
fn reregistration_replaces_snapshot() {
    let mut r = Registry::new();
    r.register(addr(1), v(5, 5, 5));
    r.report(addr(1), v(7, 7, 7));
    r.register(addr(1), v(0, 0, 0));
    assert_eq!(r.len(), 1);
    assert_eq!(r.entry(0), (addr(1), v(0, 0, 0), false));
    assert_eq!(r.ticks(0).len(), 0);
}

#[test]
fn tick_window_clears_when_full() {
    let mut h = TickHistory::new();
    for i in 0..64 {
        h.record(Some(v(i, 0, 0)));
    }
    assert_eq!(h.len(), 64);
    assert_eq!(h.get(63), Some(v(63, 0, 0)));
    h.record(Some(v(64, 0, 0)));
    assert_eq!(h.len(), 1);
    assert_eq!(h.get(0), Some(v(64, 0, 0)));
    h.record(None);
    assert_eq!(h.len(), 2);
    assert_eq!(h.get(1), None);
}
