use vstd::prelude::*;
use crate::assoc::{
    StrMap,
    count_matching,
    keys_where,
    lemma_count_matching,
    lemma_key_index,
    lemma_pair_in_map,
    key_index,
};

verus! {

/// Types of gossip messages exchanged between nodes.
pub enum GossipMessageKind {
    /// Leader heartbeat with current term.
    Heartbeat { term: u64, leader_id: String },
    /// State synchronization payload (field to value bytes) of one node.
    StateSync { node_id: String, state: StrMap<Vec<u8>> },
    /// Election vote request.
    VoteRequest { candidate_id: String, term: u64 },
    /// Election vote response.
    VoteResponse { voter_id: String, term: u64, granted: bool },
    /// Node announcing itself to the cluster.
    Join { node_id: String },
    /// Orchestration: request that a workload moves to another node.
    WorkloadMove { target_node: String, workload: Vec<String> },
    /// Orchestration: transfer of instance data (name, entity, data).
    WorkloadHandoff { target_node: String, instances: Vec<(String, String, Vec<u8>)> },
    /// Orchestration: deploy a new workload.
    WorkloadDeploy { target_node: String, spec_id: String, instances: Vec<(String, String, Vec<u8>)> },
}

/// A gossip message with sender metadata; `timestamp` is in milliseconds.
pub struct GossipMessage {
    pub sender: String,
    pub kind: GossipMessageKind,
    pub timestamp: u64,
}

/// Health status of a peer node.
#[derive(Debug, Clone, Copy, PartialEq, Eq, Structural)]
pub enum PeerHealth {
    Alive,
    Suspect,
    Dead,
}

/// Tracked state for a known peer; `last_seen` is in milliseconds.
#[derive(Debug)]
pub struct PeerInfo {
    pub peer_id: String,
    pub health: PeerHealth,
    pub last_seen: u64,
}

/// Milliseconds from `since` to `now`, zero when `now` is earlier.
pub open spec fn elapsed_ms(now: u64, since: u64) -> u64 {
    if now >= since {
        (now - since) as u64
    } else {
        0
    }
}

/// Health after a check at `now`: silent past the dead timeout is dead,
/// past the suspect timeout is suspect; otherwise the health stays.
pub open spec fn checked_health(p: PeerInfo, now: u64, suspect: u64, dead: u64) -> PeerHealth {
    let e = elapsed_ms(now, p.last_seen);
    if e > dead {
        PeerHealth::Dead
    } else if e > suspect {
        PeerHealth::Suspect
    } else {
        p.health
    }
}

/// A peer heard from within the suspect timeout keeps its health through a
/// check: an alive peer stays alive until it falls silent.
pub proof fn law_recent_peer_keeps_health(p: PeerInfo, now: u64, suspect: u64, dead: u64)
    requires
        elapsed_ms(now, p.last_seen) <= suspect,
        suspect <= dead,
    ensures
        checked_health(p, now, suspect, dead) == p.health,
{
}

/// A peer silent past the dead timeout is dead after a check, whatever it was.
pub proof fn law_silent_peer_is_dead(p: PeerInfo, now: u64, suspect: u64, dead: u64)
    requires
        elapsed_ms(now, p.last_seen) > dead,
    ensures
        checked_health(p, now, suspect, dead) == PeerHealth::Dead,
{
}

/// Checking twice at one time is checking once.
pub proof fn law_health_check_idempotent(p: PeerInfo, now: u64, suspect: u64, dead: u64)
    ensures
        checked_health(
            PeerInfo { health: checked_health(p, now, suspect, dead), ..p },
            now,
            suspect,
            dead,
        ) == checked_health(p, now, suspect, dead),
{
}

pub open spec fn is_alive(p: PeerInfo) -> bool {
    p.health == PeerHealth::Alive
}

pub open spec fn alive_pred() -> spec_fn(PeerInfo) -> bool {
    |p: PeerInfo| is_alive(p)
}

/// Gossip layer: peer health tracking and message queues.
pub struct GossipLayer {
    pub peers: StrMap<PeerInfo>,
    pub inbox: Vec<GossipMessage>,
    pub outbox: Vec<GossipMessage>,
    pub suspect_timeout_ms: u64,
    pub dead_timeout_ms: u64,
}

impl GossipLayer {
    pub open spec fn wf(&self) -> bool {
        self.peers.wf()
    }

    /// No peers, empty queues, suspect after 5 s and dead after 15 s of silence.
    pub fn new() -> (g: Self)
        ensures
            g.wf(),
            g.peers@ == Map::<Seq<char>, PeerInfo>::empty(),
            g.inbox@ == Seq::<GossipMessage>::empty(),
            g.outbox@ == Seq::<GossipMessage>::empty(),
            g.suspect_timeout_ms == 5000,
            g.dead_timeout_ms == 15000,
    {
        GossipLayer {
            peers: StrMap::new(),
            inbox: Vec::new(),
            outbox: Vec::new(),
            suspect_timeout_ms: 5000,
            dead_timeout_ms: 15000,
        }
    }

    /// Register a peer as alive, seen at `now`.
    pub fn add_peer(&mut self, peer_id: String, now: u64)
        requires
            old(self).wf(),
        ensures
            final(self).wf(),
            final(self).peers@ == old(self).peers@.insert(
                peer_id@,
                PeerInfo { peer_id, health: PeerHealth::Alive, last_seen: now },
            ),
            final(self).inbox == old(self).inbox,
            final(self).outbox == old(self).outbox,
            final(self).suspect_timeout_ms == old(self).suspect_timeout_ms,
            final(self).dead_timeout_ms == old(self).dead_timeout_ms,
    {
        let id = peer_id.clone();
        self.peers.insert(id, PeerInfo { peer_id, health: PeerHealth::Alive, last_seen: now });
    }

    /// Record that we heard from a known peer at `now`.
    pub fn mark_alive(&mut self, peer_id: &String, now: u64)
        requires
            old(self).wf(),
        ensures
            final(self).wf(),
            final(self).peers@ == if old(self).peers@.contains_key(peer_id@) {
                old(self).peers@.insert(
                    peer_id@,
                    PeerInfo {
                        health: PeerHealth::Alive,
                        last_seen: now,
                        ..old(self).peers@[peer_id@]
                    },
                )
            } else {
                old(self).peers@
            },
            final(self).inbox == old(self).inbox,
            final(self).outbox == old(self).outbox,
            final(self).suspect_timeout_ms == old(self).suspect_timeout_ms,
            final(self).dead_timeout_ms == old(self).dead_timeout_ms,
    {
        match self.peers.find(peer_id) {
            Some(i) => {
                let old_info = self.peers.value_at(i);
                let info = PeerInfo {
                    peer_id: old_info.peer_id.clone(),
                    health: PeerHealth::Alive,
                    last_seen: now,
                };
                self.peers.set_value_at(i, info);
            },
            None => {},
        }
    }

    /// Queue an outgoing message to all peers.
    pub fn broadcast(&mut self, sender: String, kind: GossipMessageKind, now: u64)
        ensures
            final(self).outbox@ == old(self).outbox@.push(
                GossipMessage { sender, kind, timestamp: now },
            ),
            final(self).peers == old(self).peers,
            final(self).inbox == old(self).inbox,
            final(self).suspect_timeout_ms == old(self).suspect_timeout_ms,
            final(self).dead_timeout_ms == old(self).dead_timeout_ms,
    {
        self.outbox.push(GossipMessage { sender, kind, timestamp: now });
    }

    /// Push an incoming message into the inbox and mark its sender alive at `now`.
    pub fn receive(&mut self, msg: GossipMessage, now: u64)
        requires
            old(self).wf(),
        ensures
            final(self).wf(),
            final(self).inbox@ == old(self).inbox@.push(msg),
            final(self).peers@ == if old(self).peers@.contains_key(msg.sender@) {
                old(self).peers@.insert(
                    msg.sender@,
                    PeerInfo {
                        health: PeerHealth::Alive,
                        last_seen: now,
                        ..old(self).peers@[msg.sender@]
                    },
                )
            } else {
                old(self).peers@
            },
            final(self).outbox == old(self).outbox,
    {
        self.mark_alive(&msg.sender, now);
        self.inbox.push(msg);
    }

    /// Drain all incoming messages for processing.
    pub fn drain_inbox(&mut self) -> (msgs: Vec<GossipMessage>)
        ensures
            msgs == old(self).inbox,
            final(self).inbox@ == Seq::<GossipMessage>::empty(),
            final(self).outbox == old(self).outbox,
            final(self).peers == old(self).peers,
            final(self).suspect_timeout_ms == old(self).suspect_timeout_ms,
            final(self).dead_timeout_ms == old(self).dead_timeout_ms,
    {
        let mut out: Vec<GossipMessage> = Vec::new();
        std::mem::swap(&mut out, &mut self.inbox);
        out
    }

    /// Drain all outgoing messages for transmission.
    pub fn drain_outbox(&mut self) -> (msgs: Vec<GossipMessage>)
        ensures
            msgs == old(self).outbox,
            final(self).outbox@ == Seq::<GossipMessage>::empty(),
            final(self).inbox == old(self).inbox,
            final(self).peers == old(self).peers,
            final(self).suspect_timeout_ms == old(self).suspect_timeout_ms,
            final(self).dead_timeout_ms == old(self).dead_timeout_ms,
    {
        let mut out: Vec<GossipMessage> = Vec::new();
        std::mem::swap(&mut out, &mut self.outbox);
        out
    }

    /// Check peer health based on the time since last contact.
    pub fn check_peer_health(&mut self, now: u64)
        requires
            old(self).wf(),
        ensures
            final(self).wf(),
            final(self).peers@.dom() == old(self).peers@.dom(),
            forall|k: Seq<char>|
                #[trigger] final(self).peers@.contains_key(k) ==> final(self).peers@[k] == (PeerInfo {
                    health: checked_health(
                        old(self).peers@[k],
                        now,
                        old(self).suspect_timeout_ms,
                        old(self).dead_timeout_ms,
                    ),
                    ..old(self).peers@[k]
                }),
            final(self).inbox == old(self).inbox,
            final(self).outbox == old(self).outbox,
            final(self).suspect_timeout_ms == old(self).suspect_timeout_ms,
            final(self).dead_timeout_ms == old(self).dead_timeout_ms,
    {
        let ghost start = self.peers@;
        let ghost start_pairs = self.peers.pairs();
        let n = self.peers.len();
        let mut i: usize = 0;
        while i < n
            invariant
                self.wf(),
                n == self.peers.pairs().len(),
                n == start_pairs.len(),
                i <= n,
                start == crate::assoc::pairs_to_map(start_pairs),
                crate::assoc::keys_unique(start_pairs),
                forall|j: int| 0 <= j < n ==> #[trigger] self.peers.pairs()[j].0 == start_pairs[j].0,
                forall|j: int| i <= j < n ==> #[trigger] self.peers.pairs()[j] == start_pairs[j],
                forall|j: int|
                    0 <= j < i ==> #[trigger] self.peers.pairs()[j].1 == (PeerInfo {
                        health: checked_health(
                            start_pairs[j].1,
                            now,
                            self.suspect_timeout_ms,
                            self.dead_timeout_ms,
                        ),
                        ..start_pairs[j].1
                    }),
                self.suspect_timeout_ms == old(self).suspect_timeout_ms,
                self.dead_timeout_ms == old(self).dead_timeout_ms,
                self.inbox == old(self).inbox,
                self.outbox == old(self).outbox,
            decreases n - i,
        {
            let p = self.peers.value_at(i);
            let elapsed = if now >= p.last_seen {
                now - p.last_seen
            } else {
                0
            };
            let health = if elapsed > self.dead_timeout_ms {
                PeerHealth::Dead
            } else if elapsed > self.suspect_timeout_ms {
                PeerHealth::Suspect
            } else {
                p.health
            };
            let info = PeerInfo { peer_id: p.peer_id.clone(), health, last_seen: p.last_seen };
            self.peers.set_value_at(i, info);
            i += 1;
        }
        proof {
            assert forall|k: Seq<char>| #[trigger]
                self.peers@.contains_key(k) <==> start.contains_key(k) by {
                lemma_key_index(self.peers.pairs(), k);
                lemma_key_index(start_pairs, k);
                if self.peers@.contains_key(k) {
                    let j = key_index(self.peers.pairs(), k);
                    assert(start_pairs[j].0@ == k);
                }
                if start.contains_key(k) {
                    let j = key_index(start_pairs, k);
                    assert(self.peers.pairs()[j].0@ == k);
                }
            }
            assert(self.peers@.dom() =~= start.dom());
            assert forall|k: Seq<char>| #[trigger] self.peers@.contains_key(k) implies self.peers@[k]
                == (PeerInfo {
                health: checked_health(
                    start[k],
                    now,
                    self.suspect_timeout_ms,
                    self.dead_timeout_ms,
                ),
                ..start[k]
            }) by {
                lemma_key_index(self.peers.pairs(), k);
                let j = key_index(self.peers.pairs(), k);
                lemma_pair_in_map(self.peers.pairs(), j);
                assert(start_pairs[j].0@ == k);
                lemma_pair_in_map(start_pairs, j);
            }
        }
    }

    /// The current record of every peer, in the order the peers were added.
    pub fn peer_statuses(&self) -> (r: Vec<PeerInfo>)
        requires
            self.wf(),
        ensures
            r@.len() == self.peers@.dom().len(),
            r@.len() == self.peers.pairs().len(),
            forall|i: int|
                0 <= i < r@.len() ==> #[trigger] r@[i].health == self.peers.pairs()[i].1.health
                    && r@[i].last_seen == self.peers.pairs()[i].1.last_seen && r@[i].peer_id@
                    == self.peers.pairs()[i].1.peer_id@ && self.peers@.contains_key(
                    self.peers.pairs()[i].0@,
                ) && self.peers@[self.peers.pairs()[i].0@] == self.peers.pairs()[i].1,
    {
        let n = self.peers.len();
        let mut out: Vec<PeerInfo> = Vec::new();
        let mut i: usize = 0;
        while i < n
            invariant
                self.wf(),
                n == self.peers.pairs().len(),
                i <= n,
                out@.len() == i,
                forall|j: int|
                    0 <= j < i ==> #[trigger] out@[j].health == self.peers.pairs()[j].1.health
                        && out@[j].last_seen == self.peers.pairs()[j].1.last_seen
                        && out@[j].peer_id@ == self.peers.pairs()[j].1.peer_id@
                        && self.peers@.contains_key(self.peers.pairs()[j].0@)
                        && self.peers@[self.peers.pairs()[j].0@] == self.peers.pairs()[j].1,
            decreases n - i,
        {
            proof {
                lemma_pair_in_map(self.peers.pairs(), i as int);
            }
            let p = self.peers.value_at(i);
            out.push(PeerInfo { peer_id: p.peer_id.clone(), health: p.health, last_seen: p.last_seen });
            i += 1;
        }
        out
    }

    /// Count of alive peers.
    pub fn alive_peer_count(&self) -> (n: usize)
        requires
            self.wf(),
        ensures
            n == keys_where(self.peers@, alive_pred()).len(),
    {
        let ghost pred = alive_pred();
        let n = self.peers.len();
        let mut count: usize = 0;
        let mut i: usize = 0;
        while i < n
            invariant
                self.wf(),
                n == self.peers.pairs().len(),
                i <= n,
                pred == alive_pred(),
                count == count_matching(self.peers.pairs().take(i as int), pred),
                count <= i,
            decreases n - i,
        {
            let ghost t = self.peers.pairs().take(i + 1);
            assert(t.drop_last() =~= self.peers.pairs().take(i as int));
            assert(t.last() == self.peers.pairs()[i as int]);
            let v = self.peers.value_at(i);
            let alive = match v.health {
                PeerHealth::Alive => true,
                _ => false,
            };
            assert(alive == is_alive(*v));
            assert(pred(t.last().1) == alive);
            if alive {
                count += 1;
            }
            assert(count == count_matching(t, pred));
            i += 1;
        }
        proof {
            assert(self.peers.pairs().take(n as int) =~= self.peers.pairs());
            lemma_count_matching(self.peers.pairs(), pred);
        }
        count
    }

    /// Count of all registered peers.
    pub fn total_peer_count(&self) -> (n: usize)
        requires
            self.wf(),
        ensures
            n == self.peers@.dom().len(),
    {
        self.peers.len()
    }
}

/// Messages received after the inbox was emptied are drained in the order
/// they came: if each state's inbox is the previous one's with one received
/// message added, the last inbox holds exactly those messages, in order.
pub proof fn law_receive_then_drain(inboxes: Seq<Seq<GossipMessage>>, msgs: Seq<GossipMessage>)
    requires
        inboxes.len() == msgs.len() + 1,
        inboxes[0] == Seq::<GossipMessage>::empty(),
        forall|i: int| 0 <= i < msgs.len() ==> #[trigger] inboxes[i + 1] == inboxes[i].push(msgs[i]),
    ensures
        inboxes[msgs.len() as int] == msgs,
    decreases msgs.len(),
{
    if msgs.len() > 0 {
        let k = msgs.len() - 1;
        law_receive_then_drain(inboxes.take(k + 1), msgs.take(k));
        assert(inboxes.take(k + 1)[k] == inboxes[k]);
        assert(inboxes[k + 1] == inboxes[k].push(msgs[k]));
        assert(msgs.take(k).push(msgs[k]) =~= msgs);
    }
}

/// The inbox law over the layer itself: after the inbox was emptied, each
/// `receive` of a message adds it, so draining gives every message in the
/// order received, and leaves the inbox empty.
pub proof fn law_inbox_drains_in_receipt_order(layers: Seq<GossipLayer>, msgs: Seq<GossipMessage>)
    requires
        layers.len() == msgs.len() + 1,
        layers[0].inbox@ == Seq::<GossipMessage>::empty(),
        forall|i: int|
            0 <= i < msgs.len() ==> #[trigger] layers[i + 1].inbox@ == layers[i].inbox@.push(msgs[i]),
    ensures
        layers[msgs.len() as int].inbox@ == msgs,
{
    let inboxes = Seq::new(layers.len(), |i: int| layers[i].inbox@);
    assert forall|i: int| 0 <= i < msgs.len() implies #[trigger] inboxes[i + 1] == inboxes[i].push(msgs[i]) by {
        assert(layers[i + 1].inbox@ == layers[i].inbox@.push(msgs[i]));
    }
    law_receive_then_drain(inboxes, msgs);
}

} // verus!
