use lumina::assoc::StrMap;
use lumina::cluster::election::{ElectionState, NodeRole};
use lumina::cluster::gossip::{GossipLayer, GossipMessage, GossipMessageKind, PeerHealth};
use lumina::cluster::node::{peer_identity, ClusterConfig, ClusterNode, NodeState};
use lumina::cluster::state_mesh::{ClusterStateMesh, MeshEntry, VersionVector};
use lumina::cluster::wal::{WalEntry, WriteAheadLog};

fn s(x: &str) -> String {
    x.to_string()
}

// ---- election ----

#[test]
fn single_node_cluster_leads_at_once() {
    let mut e = ElectionState::new(1000, 0);
    e.init(&s("n1"), 1);
    assert_eq!(e.role, NodeRole::Leader);
    assert_eq!(e.current_term, 1);
    assert_eq!(e.leader_id, Some(s("n1")));
    assert!(e.should_send_heartbeat());
}

#[test]
fn follower_starts_election_after_timeout() {
    let mut e = ElectionState::new(1000, 0);
    e.init(&s("n1"), 3);
    e.tick(999);
    assert_eq!(e.role, NodeRole::Follower);
    assert_eq!(e.current_term, 0);
    e.tick(1000);
    assert_eq!(e.role, NodeRole::Candidate);
    assert_eq!(e.current_term, 1);
    assert_eq!(e.voted_for, Some(s("n1")));
    assert_eq!(e.vote_count, 1);
}

#[test]
fn candidate_wins_with_majority() {
    let mut e = ElectionState::new(10, 0);
    e.init(&s("n1"), 3);
    e.tick(10);
    assert!(!e.receive_vote(&s("n2"), 1, false));
    assert!(!e.receive_vote(&s("n2"), 0, true));
    assert!(e.receive_vote(&s("n2"), 1, true));
    assert_eq!(e.role, NodeRole::Leader);
    assert_eq!(e.leader_id, Some(s("n1")));
}

#[test]
fn vote_granted_once_per_term() {
    let mut e = ElectionState::new(10, 0);
    e.init(&s("n1"), 3);
    assert!(e.handle_vote_request(&s("n2"), 1, 5));
    assert!(!e.handle_vote_request(&s("n3"), 1, 6));
    assert_eq!(e.voted_for, Some(s("n2")));
    // a later term resets the vote
    assert!(e.handle_vote_request(&s("n3"), 2, 7));
    assert_eq!(e.current_term, 2);
    // an older term is refused
    assert!(!e.handle_vote_request(&s("n2"), 1, 8));
}

#[test]
fn heartbeat_makes_follower() {
    let mut e = ElectionState::new(10, 0);
    e.init(&s("n1"), 3);
    e.tick(10);
    assert_eq!(e.role, NodeRole::Candidate);
    e.heartbeat_received(1, &s("n2"), 12);
    assert_eq!(e.role, NodeRole::Follower);
    assert_eq!(e.leader_id, Some(s("n2")));
    assert_eq!(e.last_heartbeat, 12);
    // a stale heartbeat changes nothing
    e.heartbeat_received(0, &s("n3"), 20);
    assert_eq!(e.leader_id, Some(s("n2")));
    assert_eq!(e.last_heartbeat, 12);
}

// ---- gossip ----

#[test]
fn peer_health_goes_suspect_then_dead() {
    let mut g = GossipLayer::new();
    g.add_peer(s("p1"), 0);
    assert_eq!(g.alive_peer_count(), 1);
    g.check_peer_health(g.suspect_timeout_ms);
    assert_eq!(g.alive_peer_count(), 1);
    g.check_peer_health(g.suspect_timeout_ms + 1);
    assert_eq!(g.peer_statuses()[0].health, PeerHealth::Suspect);
    g.check_peer_health(g.dead_timeout_ms + 1);
    assert_eq!(g.peer_statuses()[0].health, PeerHealth::Dead);
    assert_eq!(g.alive_peer_count(), 0);
    assert_eq!(g.total_peer_count(), 1);
    g.mark_alive(&s("p1"), g.dead_timeout_ms + 2);
    assert_eq!(g.alive_peer_count(), 1);
}

#[test]
fn broadcast_and_receive_queue_messages() {
    let mut g = GossipLayer::new();
    g.broadcast(s("me"), GossipMessageKind::Heartbeat { term: 3, leader_id: s("me") }, 7);
    let out = g.drain_outbox();
    assert_eq!(out.len(), 1);
    assert_eq!(out[0].sender, "me");
    assert_eq!(out[0].timestamp, 7);
    assert!(g.drain_outbox().is_empty());

    g.add_peer(s("p"), 0);
    let msg = GossipMessage {
        sender: s("p"),
        kind: GossipMessageKind::VoteRequest { candidate_id: s("p"), term: 1 },
        timestamp: 9,
    };
    g.receive(msg, 50);
    assert_eq!(g.drain_inbox().len(), 1);
    assert_eq!(g.peer_statuses()[0].last_seen, 50);
}

// ---- version vectors and mesh ----

#[test]
fn version_vector_increment_and_dominate() {
    let mut a = VersionVector::new();
    let b = VersionVector::new();
    assert!(!a.dominates(&b));
    a.increment(&s("n1"));
    assert_eq!(a.get(&s("n1")), 1);
    assert_eq!(a.get(&s("n2")), 0);
    assert!(a.dominates(&b));
    assert!(!b.dominates(&a));
    assert!(!a.dominates(&a));
}

#[test]
fn version_vector_merge_takes_max() {
    let mut a = VersionVector::new();
    a.increment(&s("n1"));
    a.increment(&s("n1"));
    let mut b = VersionVector::new();
    b.increment(&s("n1"));
    b.increment(&s("n2"));
    a.merge(&b);
    assert_eq!(a.get(&s("n1")), 2);
    assert_eq!(a.get(&s("n2")), 1);
    assert!(!b.dominates(&a));
}

#[test]
fn concurrent_vectors_do_not_dominate() {
    let mut a = VersionVector::new();
    a.increment(&s("n1"));
    let mut b = VersionVector::new();
    b.increment(&s("n2"));
    assert!(!a.dominates(&b));
    assert!(!b.dominates(&a));
}

#[test]
fn mesh_local_update_then_read() {
    let mut m = ClusterStateMesh::new();
    m.update_local(&s("n1"), &s("temp"), vec![1, 2, 3]);
    assert_eq!(m.get_field(&s("n1"), &s("temp")), Some(vec![1, 2, 3]));
    assert_eq!(m.get_field(&s("n1"), &s("other")), None);
    assert_eq!(m.get_field(&s("n2"), &s("temp")), None);
    assert_eq!(m.node_count(), 1);
    m.update_local(&s("n1"), &s("temp"), vec![9]);
    assert_eq!(m.get_field(&s("n1"), &s("temp")), Some(vec![9]));
    let snap = m.snapshot_node(&s("n1")).unwrap();
    assert_eq!(snap.get("temp").unwrap().version.get(&s("n1")), 2);
}

#[test]
fn mesh_merge_keeps_newer_remote() {
    let mut local = ClusterStateMesh::new();
    local.update_local(&s("n1"), &s("x"), vec![1]);

    let mut remote = ClusterStateMesh::new();
    remote.update_local(&s("n1"), &s("x"), vec![1]);
    remote.update_local(&s("n1"), &s("x"), vec![2]);
    let remote_state = remote.snapshot_node(&s("n1")).unwrap();

    local.merge_remote_state(&s("n1"), &remote_state);
    assert_eq!(local.get_field(&s("n1"), &s("x")), Some(vec![2]));
}

#[test]
fn mesh_values_across_nodes() {
    let mut m = ClusterStateMesh::new();
    m.update_local(&s("a"), &s("load"), vec![1]);
    m.update_local(&s("b"), &s("load"), vec![2]);
    m.update_local(&s("b"), &s("mem"), vec![3]);
    let all = m.get_all_field_values(&s("load"));
    assert_eq!(all.len(), 2);
    assert_eq!(m.node_ids().len(), 2);
    let mut state: StrMap<Vec<u8>> = StrMap::new();
    state.insert(s("cpu"), vec![7]);
    m.update_node_state(&s("c"), &state);
    assert_eq!(m.get_field(&s("c"), &s("cpu")), Some(vec![7]));
    let mem: Option<MeshEntry> = None;
    assert!(mem.is_none());
}

// ---- write-ahead log ----

#[test]
fn wal_append_assigns_consecutive_indices() {
    let mut w = WriteAheadLog::new(s("/tmp/x.wal"));
    assert!(w.is_empty());
    assert_eq!(w.last_index(), 0);
    assert_eq!(w.append(1, vec![1]), 1);
    assert_eq!(w.append(1, vec![2]), 2);
    assert_eq!(w.append(2, vec![3]), 3);
    assert_eq!(w.last_index(), 3);
    assert_eq!(w.last_term(), 2);
    assert_eq!(w.len(), 3);
    assert_eq!(w.entries()[1].data, vec![2]);
}

#[test]
fn wal_truncate_keeps_later_entries() {
    let mut w = WriteAheadLog::new(s("/tmp/x.wal"));
    w.append(1, vec![1]);
    w.append(1, vec![2]);
    w.append(1, vec![3]);
    w.truncate_before(2);
    assert_eq!(w.len(), 1);
    assert_eq!(w.entries()[0].index, 3);
    assert_eq!(w.append(1, vec![4]), 4);
}

#[test]
fn wal_replay_skips_unreadable_and_continues_numbering() {
    let mut w = WriteAheadLog::new(s("/tmp/x.wal"));
    w.replay(vec![
        Some(WalEntry { term: 1, index: 1, data: vec![1] }),
        None,
        Some(WalEntry { term: 2, index: 5, data: vec![2] }),
    ]);
    assert_eq!(w.len(), 2);
    assert_eq!(w.last_index(), 5);
    assert_eq!(w.append(2, vec![]), 6);
}

// ---- node ----

fn config(peers: Vec<String>) -> ClusterConfig {
    ClusterConfig {
        node_id: s("n1"),
        bind_addr: s("127.0.0.1:7000"),
        peers,
        quorum: 2,
        election_timeout: 1000,
    }
}

#[test]
fn peer_identity_splits_at_at_sign() {
    assert_eq!(peer_identity(&s("n2@10.0.0.2:7000")), (s("n2"), s("10.0.0.2:7000")));
    assert_eq!(peer_identity(&s("10.0.0.3:7000")), (s("10.0.0.3:7000"), s("10.0.0.3:7000")));
}

#[test]
fn node_initialize_registers_valid_peers() {
    let peers = vec![s("n2@10.0.0.2:7000"), s("bad@???")];
    let mut node = ClusterNode::new(config(peers), 0);
    assert_eq!(node.state, NodeState::Starting);
    node.initialize(&vec![true, false], None, 0);
    assert_eq!(node.state, NodeState::Active);
    let st = node.status();
    assert_eq!(st.node_id, "n1");
    assert_eq!(st.peers_total, 1);
    assert_eq!(st.peers_alive, 1);
    assert_eq!(st.mesh_nodes, 1);
    assert_eq!(st.role, "Follower");
    assert_eq!(st.state, "Active");
    assert!(!node.is_leader());
}

#[test]
fn lone_node_leads_and_logs_updates() {
    let mut node = ClusterNode::new(config(vec![]), 0);
    node.initialize(&vec![], Some(WriteAheadLog::new(s("/tmp/n1.wal"))), 0);
    assert!(node.is_leader());
    assert_eq!(node.role(), NodeRole::Leader);
    assert_eq!(node.apply_state_update(&s("temp"), vec![42]), Some(1));
    assert_eq!(node.apply_state_update(&s("temp"), vec![43]), Some(2));
    let st = node.status();
    assert_eq!(st.wal_entries, 2);
    assert_eq!(st.leader_id, Some(s("n1")));
    let all = node.collect_cluster_state();
    assert_eq!(all.get("n1").unwrap().get("temp"), Some(&vec![43]));
}

#[test]
fn update_without_log_returns_none() {
    let mut node = ClusterNode::new(config(vec![]), 0);
    node.initialize(&vec![], None, 0);
    assert_eq!(node.apply_state_update(&s("x"), vec![1]), None);
    assert!(node.drain_orchestration().is_empty());
}

#[test]
fn health_checks_repeat_and_recover() {
    let mut g = GossipLayer::new();
    g.add_peer(s("p"), 0);
    g.check_peer_health(g.dead_timeout_ms + 5);
    g.check_peer_health(g.dead_timeout_ms + 5);
    assert_eq!(g.peer_statuses()[0].health, PeerHealth::Dead);
    assert_eq!(g.alive_peer_count(), 0);
    g.mark_alive(&s("p"), 20_000);
    g.check_peer_health(20_000 + g.suspect_timeout_ms);
    assert_eq!(g.peer_statuses()[0].health, PeerHealth::Alive);
    assert_eq!(g.alive_peer_count(), 1);
}

#[test]
fn repeated_grants_count_once() {
    let mut e = ElectionState::new(10, 0);
    e.init(&s("n1"), 5);
    e.tick(10);
    assert!(!e.receive_vote(&s("a"), 1, true));
    assert!(!e.receive_vote(&s("a"), 1, true));
    assert!(!e.receive_vote(&s("n1"), 1, true));
    assert_eq!(e.vote_count, 2);
    assert_eq!(e.role, NodeRole::Candidate);
    assert!(e.receive_vote(&s("b"), 1, true));
    assert_eq!(e.role, NodeRole::Leader);
    assert_eq!(e.vote_count, 3);
}
