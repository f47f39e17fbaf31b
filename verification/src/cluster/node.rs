use vstd::prelude::*;
use crate::assoc::{StrMap, keys_where};
use crate::text::{split_once_char, first_index_of};
use crate::cluster::election::{
    ElectionState,
    ElectionView,
    NodeRole,
    spec_heartbeat,
    spec_handle_vote,
    spec_receive_vote,
    spec_init,
    spec_tick,
    spec_new,
    opt_view,
};
use crate::cluster::gossip::{
    GossipLayer,
    GossipMessage,
    GossipMessageKind,
    PeerHealth,
    PeerInfo,
    alive_pred,
    checked_health,
};
use crate::cluster::state_mesh::{
    ClusterStateMesh,
    MeshEntryView,
    node_fields,
    synced_fields,
    prior_version,
    written_entry,
    raw_view,
    values_view,
    inner_view,
};
use crate::cluster::wal::{WriteAheadLog, WalEntry};

verus! {

/// Runtime configuration of a cluster node; the election timeout is in milliseconds.
pub struct ClusterConfig {
    pub node_id: String,
    pub bind_addr: String,
    pub peers: Vec<String>,
    pub quorum: u32,
    pub election_timeout: u64,
}

/// Node lifecycle state.
#[derive(Debug, Clone, Copy, PartialEq, Eq, Structural)]
pub enum NodeState {
    Starting,
    Joining,
    Active,
    Isolated,
}

/// Summary of the cluster node's current status.
pub struct ClusterStatus {
    pub node_id: String,
    pub role: String,
    pub state: String,
    pub term: u64,
    pub leader_id: Option<String>,
    pub peers_total: usize,
    pub peers_alive: usize,
    pub mesh_nodes: usize,
    pub wal_entries: usize,
}

/// What processing messages changes in a node.
pub struct NodeView {
    pub election: ElectionView,
    pub mesh: Map<Seq<char>, Map<Seq<char>, MeshEntryView>>,
    pub peers: Map<Seq<char>, PeerInfo>,
    pub outbox: Seq<GossipMessage>,
    pub orchestration: Seq<GossipMessageKind>,
}

/// How one incoming message changes the node `me`.
pub open spec fn spec_process(v: NodeView, me: String, msg: GossipMessage, now: u64) -> NodeView {
    match msg.kind {
        GossipMessageKind::Heartbeat { term, leader_id } => NodeView {
            election: spec_heartbeat(v.election, term, leader_id@, now),
            ..v
        },
        GossipMessageKind::VoteRequest { candidate_id, term } => {
            let (e, granted) = spec_handle_vote(v.election, candidate_id@, term, now);
            NodeView {
                election: e,
                outbox: v.outbox.push(
                    GossipMessage {
                        sender: me,
                        kind: GossipMessageKind::VoteResponse {
                            voter_id: me,
                            term: e.current_term,
                            granted,
                        },
                        timestamp: now,
                    },
                ),
                ..v
            }
        },
        GossipMessageKind::VoteResponse { voter_id, term, granted } => NodeView {
            election: spec_receive_vote(v.election, voter_id@, term, granted).0,
            ..v
        },
        GossipMessageKind::StateSync { node_id, state } => NodeView {
            mesh: v.mesh.insert(
                node_id@,
                synced_fields(node_fields(v.mesh, node_id@), node_id@, state@),
            ),
            ..v
        },
        GossipMessageKind::Join { node_id } => NodeView {
            peers: v.peers.insert(
                node_id@,
                PeerInfo { peer_id: node_id, health: PeerHealth::Alive, last_seen: now },
            ),
            ..v
        },
        _ => NodeView { orchestration: v.orchestration.push(msg.kind), ..v },
    }
}

/// The message can be processed without a counter overflowing.
pub open spec fn process_ok(v: NodeView, msg: GossipMessage) -> bool {
    match msg.kind {
        GossipMessageKind::VoteResponse { .. } => v.election.vote_count < u32::MAX,
        GossipMessageKind::StateSync { node_id, state } => state.wf() && forall|f: Seq<char>|
            #[trigger] state@.contains_key(f) ==> prior_version(
                node_fields(v.mesh, node_id@).get(f),
                node_id@,
            ) < u64::MAX,
        _ => true,
    }
}

/// The messages processed in order.
pub open spec fn spec_process_all(v: NodeView, me: String, msgs: Seq<GossipMessage>, now: u64) -> NodeView
    decreases msgs.len(),
{
    if msgs.len() == 0 {
        v
    } else {
        spec_process_all(spec_process(v, me, msgs[0], now), me, msgs.drop_first(), now)
    }
}

/// Every message in turn can be processed without overflow.
pub open spec fn all_ok(v: NodeView, me: String, msgs: Seq<GossipMessage>, now: u64) -> bool
    decreases msgs.len(),
{
    msgs.len() == 0 || (process_ok(v, msgs[0]) && all_ok(
        spec_process(v, me, msgs[0], now),
        me,
        msgs.drop_first(),
        now,
    ))
}

/// The peer's node id and address: `id@addr`, or the whole string for both.
pub open spec fn spec_peer_identity(peer: Seq<char>) -> (Seq<char>, Seq<char>) {
    match first_index_of(peer, '@') {
        Some(i) => (peer.subrange(0, i), peer.subrange(i + 1, peer.len() as int)),
        None => (peer, peer),
    }
}

/// Splits a peer entry into its node id and its address.
pub fn peer_identity(peer: &String) -> (r: (String, String))
    ensures
        (r.0@, r.1@) == spec_peer_identity(peer@),
{
    match split_once_char(peer.as_str(), '@') {
        Some((id, addr)) => (id, addr),
        None => (peer.clone(), peer.clone()),
    }
}

/// The node ids of the peers whose address is valid.
pub open spec fn valid_peer_ids(peers: Seq<String>, valid: Seq<bool>) -> Set<Seq<char>> {
    Set::new(
        |k: Seq<char>|
            exists|i: int|
                0 <= i < peers.len() && i < valid.len() && valid[i] && #[trigger] spec_peer_identity(
                    peers[i]@,
                ).0 == k,
    )
}

pub open spec fn role_name(r: NodeRole) -> Seq<char> {
    match r {
        NodeRole::Leader => "Leader"@,
        NodeRole::Follower => "Follower"@,
        NodeRole::Candidate => "Candidate"@,
    }
}

pub open spec fn state_name(s: NodeState) -> Seq<char> {
    match s {
        NodeState::Starting => "Starting"@,
        NodeState::Joining => "Joining"@,
        NodeState::Active => "Active"@,
        NodeState::Isolated => "Isolated"@,
    }
}

/// Connectivity decides the state: no live peer out of some makes the node
/// isolated; an isolated node with a live peer is active again.
pub open spec fn connectivity_state(s: NodeState, alive: nat, total: nat) -> NodeState {
    if total > 0 && alive == 0 {
        NodeState::Isolated
    } else if s == NodeState::Isolated && alive > 0 {
        NodeState::Active
    } else {
        s
    }
}

pub struct ClusterNode {
    pub config: ClusterConfig,
    pub state: NodeState,
    pub gossip: GossipLayer,
    pub election: ElectionState,
    pub state_mesh: ClusterStateMesh,
    pub wal: Option<WriteAheadLog>,
    pub orchestration_queue: Vec<GossipMessageKind>,
    pub tick_count: u64,
}

impl ClusterNode {
    pub open spec fn wf(&self) -> bool {
        self.gossip.wf() && self.state_mesh.wf()
    }

    pub open spec fn node_view(&self) -> NodeView {
        NodeView {
            election: self.election@,
            mesh: self.state_mesh@,
            peers: self.gossip.peers@,
            outbox: self.gossip.outbox@,
            orchestration: self.orchestration_queue@,
        }
    }

    /// A node that is starting: no peers, an empty mesh, no log, clock at `now`.
    pub fn new(config: ClusterConfig, now: u64) -> (n: Self)
        ensures
            n.wf(),
            n.config == config,
            n.state == NodeState::Starting,
            n.election@ == spec_new(config.election_timeout, now),
            n.gossip.peers@ == Map::<Seq<char>, PeerInfo>::empty(),
            n.gossip.inbox@.len() == 0,
            n.gossip.outbox@.len() == 0,
            n.state_mesh@ == Map::<Seq<char>, Map<Seq<char>, MeshEntryView>>::empty(),
            n.wal is None,
            n.orchestration_queue@.len() == 0,
            n.tick_count == 0,
    {
        let election = ElectionState::new(config.election_timeout, now);
        ClusterNode {
            config,
            state: NodeState::Starting,
            gossip: GossipLayer::new(),
            election,
            state_mesh: ClusterStateMesh::new(),
            wal: None,
            orchestration_queue: Vec::new(),
            tick_count: 0,
        }
    }

    /// Register the peers whose address is valid (`addr_valid[i]` for
    /// `config.peers[i]`), set up the election for the peers and this node,
    /// take the log, announce this node and register it in the mesh; the
    /// node is then active.
    pub fn initialize(&mut self, addr_valid: &Vec<bool>, wal: Option<WriteAheadLog>, now: u64)
        requires
            old(self).wf(),
            addr_valid@.len() == old(self).config.peers@.len(),
            old(self).config.peers@.len() < u32::MAX,
        ensures
            final(self).wf(),
            final(self).config == old(self).config,
            final(self).gossip.peers@.dom() == old(self).gossip.peers@.dom().union(
                valid_peer_ids(old(self).config.peers@, addr_valid@),
            ),
            forall|k: Seq<char>|
                #[trigger] final(self).gossip.peers@.contains_key(k) ==> if valid_peer_ids(
                    old(self).config.peers@,
                    addr_valid@,
                ).contains(k) {
                    final(self).gossip.peers@[k].health == PeerHealth::Alive
                        && final(self).gossip.peers@[k].last_seen == now
                        && final(self).gossip.peers@[k].peer_id@ == k
                } else {
                    final(self).gossip.peers@[k] == old(self).gossip.peers@[k]
                },
            final(self).election@ == spec_init(
                old(self).election@,
                old(self).config.node_id@,
                (old(self).config.peers@.len() + 1) as u32,
            ),
            final(self).wal == wal,
            final(self).gossip.outbox@ == old(self).gossip.outbox@.push(
                GossipMessage {
                    sender: old(self).config.node_id,
                    kind: GossipMessageKind::Join { node_id: old(self).config.node_id },
                    timestamp: now,
                },
            ),
            final(self).state_mesh@ == old(self).state_mesh@.insert(
                old(self).config.node_id@,
                node_fields(old(self).state_mesh@, old(self).config.node_id@),
            ),
            final(self).state == NodeState::Active,
            final(self).orchestration_queue == old(self).orchestration_queue,
            final(self).tick_count == old(self).tick_count,
    {
        let total_nodes = (self.config.peers.len() + 1) as u32;
        let n = self.config.peers.len();
        let ghost start = self.gossip.peers@;
        let mut i: usize = 0;
        while i < n
            invariant
                self.gossip.wf(),
                n == self.config.peers@.len(),
                n == addr_valid@.len(),
                i <= n,
                self.config == old(self).config,
                self.gossip.outbox == old(self).gossip.outbox,
                self.election == old(self).election,
                self.state_mesh == old(self).state_mesh,
                self.state_mesh.wf(),
                self.orchestration_queue == old(self).orchestration_queue,
                self.tick_count == old(self).tick_count,
                self.gossip.peers@.dom() == start.dom().union(
                    valid_peer_ids(self.config.peers@.take(i as int), addr_valid@.take(i as int)),
                ),
                forall|k: Seq<char>|
                    #[trigger] self.gossip.peers@.contains_key(k) ==> if valid_peer_ids(
                        self.config.peers@.take(i as int),
                        addr_valid@.take(i as int),
                    ).contains(k) {
                        self.gossip.peers@[k].health == PeerHealth::Alive
                            && self.gossip.peers@[k].last_seen == now
                            && self.gossip.peers@[k].peer_id@ == k
                    } else {
                        self.gossip.peers@[k] == start[k]
                    },
            decreases n - i,
        {
            let ghost ps = self.config.peers@.take(i + 1);
            let ghost vs = addr_valid@.take(i + 1);
            assert(ps.drop_last() =~= self.config.peers@.take(i as int));
            assert(vs.drop_last() =~= addr_valid@.take(i as int));
            let (id, _addr) = peer_identity(&self.config.peers[i]);
            let ghost before = self.gossip.peers@;
            if addr_valid[i] {
                self.gossip.add_peer(id, now);
            }
            proof {
                let s0 = valid_peer_ids(self.config.peers@.take(i as int), addr_valid@.take(i as int));
                let s1 = valid_peer_ids(ps, vs);
                assert forall|k: Seq<char>| s1.contains(k) <==> (s0.contains(k) || (addr_valid@[i as int]
                    && k == id@)) by {
                    if s1.contains(k) {
                        let j = choose|j: int|
                            0 <= j < ps.len() && j < vs.len() && vs[j] && #[trigger] spec_peer_identity(
                                ps[j]@,
                            ).0 == k;
                        if j < i {
                            assert(ps[j] == self.config.peers@.take(i as int)[j]);
                            assert(s0.contains(k));
                        }
                    }
                    if s0.contains(k) {
                        let j = choose|j: int|
                            0 <= j < i && j < i && addr_valid@.take(i as int)[j]
                                && #[trigger] spec_peer_identity(self.config.peers@.take(i as int)[j]@).0
                                == k;
                        assert(ps[j] == self.config.peers@.take(i as int)[j]);
                        assert(s1.contains(k));
                    }
                    if addr_valid@[i as int] && k == id@ {
                        assert(ps[i as int] == self.config.peers@[i as int]);
                        assert(spec_peer_identity(ps[i as int]@).0 == k);
                        assert(s1.contains(k));
                    }
                }
                assert(self.gossip.peers@.dom() =~= start.dom().union(s1));
            }
            i += 1;
        }
        assert(self.config.peers@.take(n as int) =~= self.config.peers@);
        assert(addr_valid@.take(n as int) =~= addr_valid@);
        self.election.init(&self.config.node_id, total_nodes);
        self.wal = wal;
        let me = self.config.node_id.clone();
        let kind = GossipMessageKind::Join { node_id: self.config.node_id.clone() };
        self.gossip.broadcast(me, kind, now);
        let empty: StrMap<Vec<u8>> = StrMap::new();
        self.state_mesh.update_node_state(&self.config.node_id, &empty);
        assert(synced_fields(
            node_fields(old(self).state_mesh@, old(self).config.node_id@),
            old(self).config.node_id@,
            empty@,
        ) =~= node_fields(old(self).state_mesh@, old(self).config.node_id@));
        self.state = NodeState::Active;
    }

    /// Process one incoming message.
    fn process_message(&mut self, msg: GossipMessage, now: u64)
        requires
            old(self).wf(),
            process_ok(old(self).node_view(), msg),
        ensures
            final(self).wf(),
            final(self).node_view() == spec_process(
                old(self).node_view(),
                old(self).config.node_id,
                msg,
                now,
            ),
            final(self).config == old(self).config,
            final(self).state == old(self).state,
            final(self).wal == old(self).wal,
            final(self).tick_count == old(self).tick_count,
            final(self).gossip.inbox == old(self).gossip.inbox,
            final(self).gossip.suspect_timeout_ms == old(self).gossip.suspect_timeout_ms,
            final(self).gossip.dead_timeout_ms == old(self).gossip.dead_timeout_ms,
    {
        let ghost v = self.node_view();
        match msg.kind {
            GossipMessageKind::Heartbeat { term, leader_id } => {
                self.election.heartbeat_received(term, &leader_id, now);
            },
            GossipMessageKind::VoteRequest { candidate_id, term } => {
                let granted = self.election.handle_vote_request(&candidate_id, term, now);
                let kind = GossipMessageKind::VoteResponse {
                    voter_id: self.config.node_id.clone(),
                    term: self.election.current_term,
                    granted,
                };
                self.gossip.broadcast(self.config.node_id.clone(), kind, now);
            },
            GossipMessageKind::VoteResponse { voter_id, term, granted } => {
                self.election.receive_vote(&voter_id, term, granted);
            },
            GossipMessageKind::StateSync { node_id, state } => {
                self.state_mesh.update_node_state(&node_id, &state);
            },
            GossipMessageKind::Join { node_id } => {
                self.gossip.add_peer(node_id, now);
            },
            GossipMessageKind::WorkloadMove { target_node, workload } => {
                self.orchestration_queue.push(
                    GossipMessageKind::WorkloadMove { target_node, workload },
                );
            },
            GossipMessageKind::WorkloadHandoff { target_node, instances } => {
                self.orchestration_queue.push(
                    GossipMessageKind::WorkloadHandoff { target_node, instances },
                );
            },
            GossipMessageKind::WorkloadDeploy { target_node, spec_id, instances } => {
                self.orchestration_queue.push(
                    GossipMessageKind::WorkloadDeploy { target_node, spec_id, instances },
                );
            },
        }
    }

    /// Main tick: check peer health, process the inbox in order, run the
    /// election clock, send a heartbeat every 10th tick while leading,
    /// gossip this node's state every 5th tick, and update connectivity.
    pub fn tick(&mut self, now: u64)
        requires
            old(self).wf(),
            old(self).tick_count < u64::MAX,
            all_ok(
                NodeView {
                    peers: old(self).gossip.peers@.map_values(
                        |p: PeerInfo|
                            PeerInfo {
                                health: checked_health(
                                    p,
                                    now,
                                    old(self).gossip.suspect_timeout_ms,
                                    old(self).gossip.dead_timeout_ms,
                                ),
                                ..p
                            },
                    ),
                    ..old(self).node_view()
                },
                old(self).config.node_id,
                old(self).gossip.inbox@,
                now,
            ),
            spec_process_all(
                NodeView {
                    peers: old(self).gossip.peers@.map_values(
                        |p: PeerInfo|
                            PeerInfo {
                                health: checked_health(
                                    p,
                                    now,
                                    old(self).gossip.suspect_timeout_ms,
                                    old(self).gossip.dead_timeout_ms,
                                ),
                                ..p
                            },
                    ),
                    ..old(self).node_view()
                },
                old(self).config.node_id,
                old(self).gossip.inbox@,
                now,
            ).election.current_term < u64::MAX,
        ensures
            final(self).wf(),
            ({
                let checked = NodeView {
                    peers: old(self).gossip.peers@.map_values(
                        |p: PeerInfo|
                            PeerInfo {
                                health: checked_health(
                                    p,
                                    now,
                                    old(self).gossip.suspect_timeout_ms,
                                    old(self).gossip.dead_timeout_ms,
                                ),
                                ..p
                            },
                    ),
                    ..old(self).node_view()
                };
                let processed = spec_process_all(
                    checked,
                    old(self).config.node_id,
                    old(self).gossip.inbox@,
                    now,
                );
                let count = (old(self).tick_count + 1) as u64;
                let e = spec_tick(processed.election, now);
                let heartbeat = e.role == NodeRole::Leader && count % 10 == 0;
                let outbox1 = if heartbeat {
                    processed.outbox.push(
                        GossipMessage {
                            sender: old(self).config.node_id,
                            kind: GossipMessageKind::Heartbeat {
                                term: e.current_term,
                                leader_id: old(self).config.node_id,
                            },
                            timestamp: now,
                        },
                    )
                } else {
                    processed.outbox
                };
                let sync = count % 5 == 0 && processed.mesh.contains_key(
                    old(self).config.node_id@,
                );
                &&& final(self).tick_count == count
                &&& final(self).election@ == e
                &&& final(self).state_mesh@ == processed.mesh
                &&& final(self).gossip.peers@ == processed.peers
                &&& final(self).orchestration_queue@ == processed.orchestration
                &&& final(self).gossip.inbox@.len() == 0
                &&& sync ==> final(self).gossip.outbox@.len() == outbox1.len() + 1
                    && final(self).gossip.outbox@.drop_last() == outbox1 && (
                final(self).gossip.outbox@.last() matches GossipMessage {
                    sender,
                    kind: GossipMessageKind::StateSync { node_id, state },
                    timestamp,
                } && sender == old(self).config.node_id && node_id == old(self).config.node_id
                    && timestamp == now && raw_view(state) == values_view(
                    processed.mesh[old(self).config.node_id@],
                ))
                &&& !sync ==> final(self).gossip.outbox@ == outbox1
                &&& final(self).state == connectivity_state(
                    old(self).state,
                    keys_where(processed.peers, alive_pred()).len(),
                    processed.peers.dom().len(),
                )
            }),
            final(self).config == old(self).config,
            final(self).wal == old(self).wal,
    {
        self.tick_count = self.tick_count + 1;
        let ghost before_check = self.gossip.peers@;
        self.gossip.check_peer_health(now);
        proof {
            assert(self.gossip.peers@ =~= before_check.map_values(
                |p: PeerInfo|
                    PeerInfo {
                        health: checked_health(
                            p,
                            now,
                            self.gossip.suspect_timeout_ms,
                            self.gossip.dead_timeout_ms,
                        ),
                        ..p
                    },
            ));
        }
        let ghost v0 = self.node_view();
        let ghost me = self.config.node_id;
        let mut messages = self.gossip.drain_inbox();
        let ghost all = messages@;
        while messages.len() > 0
            invariant
                self.wf(),
                self.config.node_id == me,
                self.tick_count == old(self).tick_count + 1,
                self.config == old(self).config,
                self.wal == old(self).wal,
                self.state == old(self).state,
                self.gossip.inbox@.len() == 0,
                self.gossip.suspect_timeout_ms == old(self).gossip.suspect_timeout_ms,
                self.gossip.dead_timeout_ms == old(self).gossip.dead_timeout_ms,
                all_ok(self.node_view(), me, messages@, now),
                spec_process_all(self.node_view(), me, messages@, now) == spec_process_all(
                    v0,
                    me,
                    all,
                    now,
                ),
            decreases messages@.len(),
        {
            let ghost before = messages@;
            let msg = messages.remove(0);
            assert(messages@ =~= before.drop_first());
            self.process_message(msg, now);
        }
        self.election.tick(now);
        if self.election.should_send_heartbeat() && self.tick_count % 10 == 0 {
            let kind = GossipMessageKind::Heartbeat {
                term: self.election.current_term,
                leader_id: self.config.node_id.clone(),
            };
            self.gossip.broadcast(self.config.node_id.clone(), kind, now);
        }
        if self.tick_count % 5 == 0 {
            match self.state_mesh.mesh.get(&self.config.node_id) {
                Some(local_state) => {
                    let raw = ClusterStateMesh::values_of(local_state);
                    let kind = GossipMessageKind::StateSync {
                        node_id: self.config.node_id.clone(),
                        state: raw,
                    };
                    self.gossip.broadcast(self.config.node_id.clone(), kind, now);
                },
                None => {},
            }
        }
        let alive = self.gossip.alive_peer_count();
        let total = self.gossip.total_peer_count();
        if total > 0 && alive == 0 {
            self.state = NodeState::Isolated;
        } else if self.state == NodeState::Isolated && alive > 0 {
            self.state = NodeState::Active;
        }
    }

    /// Push a local state update into the mesh and record it in the log;
    /// returns the log index it got, if there is a log.
    pub fn apply_state_update(&mut self, field: &String, value: Vec<u8>) -> (r: Option<u64>)
        requires
            old(self).wf(),
            prior_version(
                node_fields(old(self).state_mesh@, old(self).config.node_id@).get(field@),
                old(self).config.node_id@,
            ) < u64::MAX,
            old(self).wal matches Some(w) ==> w.next() < u64::MAX,
        ensures
            final(self).wf(),
            final(self).state_mesh@ == old(self).state_mesh@.insert(
                old(self).config.node_id@,
                node_fields(old(self).state_mesh@, old(self).config.node_id@).insert(
                    field@,
                    written_entry(
                        node_fields(old(self).state_mesh@, old(self).config.node_id@).get(field@),
                        old(self).config.node_id@,
                        value@,
                    ),
                ),
            ),
            match old(self).wal {
                Some(w) => r == Some(w.next()) && (final(self).wal matches Some(w2)
                    && w2.next() == w.next() + 1 && w2.log() == w.log().push(
                    WalEntry { term: old(self).election.current_term, index: w.next(), data: value },
                ) && w2.file() == w.file()),
                None => r is None && final(self).wal is None,
            },
            final(self).election == old(self).election,
            final(self).config == old(self).config,
            final(self).gossip == old(self).gossip,
    {
        let copy = value.clone();
        self.state_mesh.update_local(&self.config.node_id, field, copy);
        let term = self.election.current_term;
        match &mut self.wal {
            Some(w) => Some(w.append(term, value)),
            None => None,
        }
    }

    /// Collect the full cluster state from the mesh.
    pub fn collect_cluster_state(&self) -> (r: StrMap<StrMap<Vec<u8>>>)
        requires
            self.wf(),
        ensures
            r.wf(),
            r@.dom() == self.state_mesh@.dom(),
            forall|n: Seq<char>|
                #[trigger] r@.contains_key(n) ==> r@[n].wf() && raw_view(r@[n]) == values_view(
                    self.state_mesh@[n],
                ),
    {
        self.state_mesh.snapshot_raw()
    }

    /// Current node role.
    pub fn role(&self) -> (r: NodeRole)
        ensures
            r == self.election.role,
    {
        self.election.role
    }

    /// Whether this node leads.
    pub fn is_leader(&self) -> (b: bool)
        ensures
            b == (self.election.role == NodeRole::Leader),
    {
        self.role() == NodeRole::Leader
    }

    /// A full status summary.
    pub fn status(&self) -> (s: ClusterStatus)
        requires
            self.wf(),
        ensures
            s.node_id@ == self.config.node_id@,
            s.role@ == role_name(self.election.role),
            s.state@ == state_name(self.state),
            s.term == self.election.current_term,
            opt_view(s.leader_id) == opt_view(self.election.leader_id),
            s.peers_total == self.gossip.peers@.dom().len(),
            s.peers_alive == keys_where(self.gossip.peers@, alive_pred()).len(),
            s.mesh_nodes == self.state_mesh@.dom().len(),
            s.wal_entries == match self.wal {
                Some(w) => w.log().len(),
                None => 0,
            },
    {
        let role_str = match self.election.role {
            NodeRole::Leader => "Leader",
            NodeRole::Follower => "Follower",
            NodeRole::Candidate => "Candidate",
        };
        let state_str = match self.state {
            NodeState::Starting => "Starting",
            NodeState::Joining => "Joining",
            NodeState::Active => "Active",
            NodeState::Isolated => "Isolated",
        };
        proof {
            reveal_strlit("Leader");
            reveal_strlit("Follower");
            reveal_strlit("Candidate");
            reveal_strlit("Starting");
            reveal_strlit("Joining");
            reveal_strlit("Active");
            reveal_strlit("Isolated");
        }
        ClusterStatus {
            node_id: self.config.node_id.clone(),
            role: String::from_str(role_str),
            state: String::from_str(state_str),
            term: self.election.current_term,
            leader_id: self.election.leader_id.clone(),
            peers_total: self.gossip.total_peer_count(),
            peers_alive: self.gossip.alive_peer_count(),
            mesh_nodes: self.state_mesh.node_count(),
            wal_entries: match &self.wal {
                Some(w) => w.len(),
                None => 0,
            },
        }
    }

    /// Take the orchestration messages received so far.
    pub fn drain_orchestration(&mut self) -> (r: Vec<GossipMessageKind>)
        ensures
            r == old(self).orchestration_queue,
            final(self).orchestration_queue@.len() == 0,
            final(self).config == old(self).config,
            final(self).gossip == old(self).gossip,
            final(self).election == old(self).election,
            final(self).state_mesh == old(self).state_mesh,
    {
        let mut out: Vec<GossipMessageKind> = Vec::new();
        std::mem::swap(&mut out, &mut self.orchestration_queue);
        out
    }
}

} // verus!
