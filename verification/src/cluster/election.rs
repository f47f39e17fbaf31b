use vstd::prelude::*;

verus! {

#[derive(Debug, Clone, Copy, PartialEq, Eq, Structural)]
pub enum NodeRole {
    Follower,
    Candidate,
    Leader,
}

/// What an election state holds. Times are counts of one fixed clock unit
/// since one fixed origin, as the caller measures them.
pub struct ElectionView {
    pub role: NodeRole,
    pub current_term: u64,
    pub voted_for: Option<Seq<char>>,
    pub leader_id: Option<Seq<char>>,
    pub vote_count: u32,
    /// The distinct nodes whose votes this node holds in its current
    /// candidacy, itself included.
    pub voters: Seq<Seq<char>>,
    pub total_nodes: u32,
    pub last_heartbeat: u64,
    pub election_timeout: u64,
    pub node_id: Seq<char>,
}

pub open spec fn opt_view(o: Option<String>) -> Option<Seq<char>> {
    match o {
        Some(s) => Some(s@),
        None => None,
    }
}

/// A fresh follower of term 0 with the given timeout, clock at `now`.
pub open spec fn spec_new(election_timeout: u64, now: u64) -> ElectionView {
    ElectionView {
        role: NodeRole::Follower,
        current_term: 0,
        voted_for: None,
        leader_id: None,
        vote_count: 0,
        voters: Seq::empty(),
        total_nodes: 1,
        last_heartbeat: now,
        election_timeout,
        node_id: Seq::empty(),
    }
}

/// A majority of the cluster has voted for this node.
pub open spec fn spec_quorum(s: ElectionView) -> bool {
    s.vote_count > s.total_nodes / 2
}

pub open spec fn spec_promote(s: ElectionView) -> ElectionView {
    ElectionView { role: NodeRole::Leader, leader_id: Some(s.node_id), ..s }
}

/// Initialize with node identity and cluster size; a single-node cluster
/// leads at once, in term 1.
pub open spec fn spec_init(s: ElectionView, node_id: Seq<char>, total_nodes: u32) -> ElectionView {
    let s1 = ElectionView { node_id, total_nodes, ..s };
    if total_nodes <= 1 {
        ElectionView {
            role: NodeRole::Leader,
            current_term: 1,
            leader_id: Some(node_id),
            voted_for: Some(node_id),
            vote_count: 1,
            voters: seq![node_id],
            ..s1
        }
    } else {
        s1
    }
}

/// A new term in which this node is a candidate that voted for itself.
pub open spec fn spec_start_election(s: ElectionView, now: u64) -> ElectionView {
    let s1 = ElectionView {
        current_term: (s.current_term + 1) as u64,
        role: NodeRole::Candidate,
        voted_for: Some(s.node_id),
        vote_count: 1,
        voters: seq![s.node_id],
        last_heartbeat: now,
        ..s
    };
    if spec_quorum(s1) {
        spec_promote(s1)
    } else {
        s1
    }
}

/// Time since the last heartbeat (zero when the clock reads earlier).
pub open spec fn elapsed(now: u64, since: u64) -> u64 {
    if now >= since {
        (now - since) as u64
    } else {
        0
    }
}

/// A follower or candidate whose heartbeat is overdue starts an election.
pub open spec fn spec_tick(s: ElectionView, now: u64) -> ElectionView {
    if s.role != NodeRole::Leader && elapsed(now, s.last_heartbeat) >= s.election_timeout {
        spec_start_election(s, now)
    } else {
        s
    }
}

/// A vote counts only for a candidate in the vote's term, and only once per
/// voter: a repeated grant from a node already counted changes nothing.
pub open spec fn spec_receive_vote(s: ElectionView, from: Seq<char>, term: u64, granted: bool) -> (
    ElectionView,
    bool,
) {
    if term != s.current_term || s.role != NodeRole::Candidate || !granted || s.voters.contains(
        from,
    ) {
        (s, false)
    } else {
        let s1 = ElectionView {
            vote_count: (s.vote_count + 1) as u32,
            voters: s.voters.push(from),
            ..s
        };
        if spec_quorum(s1) {
            (spec_promote(s1), true)
        } else {
            (s1, false)
        }
    }
}

/// A heartbeat of the current or a later term makes this node follow its sender.
pub open spec fn spec_heartbeat(s: ElectionView, term: u64, leader_id: Seq<char>, now: u64) -> ElectionView {
    if term >= s.current_term {
        ElectionView {
            current_term: term,
            role: NodeRole::Follower,
            leader_id: Some(leader_id),
            last_heartbeat: now,
            vote_count: 0,
            voters: Seq::empty(),
            ..s
        }
    } else {
        s
    }
}

/// A vote request: a later term makes this node a follower with no vote
/// cast; the vote is granted when the term is current and no vote was cast.
pub open spec fn spec_handle_vote(s: ElectionView, candidate: Seq<char>, term: u64, now: u64) -> (
    ElectionView,
    bool,
) {
    let s1 = if term > s.current_term {
        ElectionView {
            current_term: term,
            role: NodeRole::Follower,
            voted_for: None,
            last_heartbeat: now,
            ..s
        }
    } else {
        s
    };
    if term == s1.current_term && s1.voted_for is None {
        (ElectionView { voted_for: Some(candidate), last_heartbeat: now, ..s1 }, true)
    } else {
        (s1, false)
    }
}

/// Leader election state of one node.
pub struct ElectionState {
    pub role: NodeRole,
    pub current_term: u64,
    pub voted_for: Option<String>,
    pub leader_id: Option<String>,
    pub vote_count: u32,
    /// The distinct nodes whose votes are held in the current candidacy.
    pub voters: Vec<String>,
    pub total_nodes: u32,
    pub last_heartbeat: u64,
    pub election_timeout: u64,
    pub node_id: String,
}

impl View for ElectionState {
    type V = ElectionView;

    open spec fn view(&self) -> ElectionView {
        ElectionView {
            role: self.role,
            current_term: self.current_term,
            voted_for: opt_view(self.voted_for),
            leader_id: opt_view(self.leader_id),
            vote_count: self.vote_count,
            voters: crate::text::views(self.voters@),
            total_nodes: self.total_nodes,
            last_heartbeat: self.last_heartbeat,
            election_timeout: self.election_timeout,
            node_id: self.node_id@,
        }
    }
}

impl ElectionState {
    /// A follower of term 0 that has heard nothing, with the given timeout,
    /// whose clock starts at `now`.
    pub fn new(election_timeout: u64, now: u64) -> (s: Self)
        ensures
            s@ == spec_new(election_timeout, now),
    {
        let s = ElectionState {
            role: NodeRole::Follower,
            current_term: 0,
            voted_for: None,
            leader_id: None,
            vote_count: 0,
            voters: Vec::new(),
            total_nodes: 1,
            last_heartbeat: now,
            election_timeout,
            node_id: String::new(),
        };
        assert(crate::text::views(s.voters@) =~= Seq::<Seq<char>>::empty());
        s
    }

    /// Initialize with node identity and cluster size.
    pub fn init(&mut self, node_id: &String, total_nodes: u32)
        ensures
            final(self)@ == spec_init(old(self)@, node_id@, total_nodes),
    {
        self.node_id = node_id.clone();
        self.total_nodes = total_nodes;
        if total_nodes <= 1 {
            self.role = NodeRole::Leader;
            self.current_term = 1;
            self.leader_id = Some(node_id.clone());
            self.voted_for = Some(node_id.clone());
            self.vote_count = 1;
            self.voters = vec![node_id.clone()];
            assert(crate::text::views(self.voters@) =~= seq![node_id@]);
        }
    }

    pub fn tick(&mut self, now: u64)
        requires
            old(self).role != NodeRole::Leader && elapsed(now, old(self).last_heartbeat)
                >= old(self).election_timeout ==> old(self).current_term < u64::MAX,
        ensures
            final(self)@ == spec_tick(old(self)@, now),
    {
        match self.role {
            NodeRole::Leader => {},
            NodeRole::Follower | NodeRole::Candidate => {
                let elapsed = if now >= self.last_heartbeat {
                    now - self.last_heartbeat
                } else {
                    0
                };
                if elapsed >= self.election_timeout {
                    self.start_election(now);
                }
            },
        }
    }

    fn start_election(&mut self, now: u64)
        requires
            old(self).current_term < u64::MAX,
        ensures
            final(self)@ == spec_start_election(old(self)@, now),
    {
        self.current_term = self.current_term + 1;
        self.role = NodeRole::Candidate;
        self.voted_for = Some(self.node_id.clone());
        self.vote_count = 1;
        self.voters = vec![self.node_id.clone()];
        assert(crate::text::views(self.voters@) =~= seq![self.node_id@]);
        self.last_heartbeat = now;
        if self.quorum_reached() {
            self.promote_to_leader();
        }
    }

    /// Receive a vote from a peer. Returns true if quorum is now reached.
    pub fn receive_vote(&mut self, from_node: &String, term: u64, granted: bool) -> (r: bool)
        requires
            old(self).vote_count < u32::MAX,
        ensures
            (final(self)@, r) == spec_receive_vote(old(self)@, from_node@, term, granted),
    {
        if term != self.current_term || self.role != NodeRole::Candidate {
            return false;
        }
        if granted && !self.has_voter(from_node) {
            let ghost before = self.voters@;
            self.voters.push(from_node.clone());
            assert(crate::text::views(self.voters@) =~= crate::text::views(before).push(from_node@));
            self.vote_count = self.vote_count + 1;
            if self.quorum_reached() {
                self.promote_to_leader();
                return true;
            }
        }
        false
    }

    /// Whether `node` is among the voters already counted.
    fn has_voter(&self, node: &String) -> (b: bool)
        ensures
            b == self@.voters.contains(node@),
    {
        let n = self.voters.len();
        let mut i: usize = 0;
        while i < n
            invariant
                n == self.voters@.len(),
                i <= n,
                forall|j: int| 0 <= j < i ==> self.voters@[j]@ != node@,
            decreases n - i,
        {
            if crate::text::str_eq(self.voters[i].as_str(), node.as_str()) {
                assert(self@.voters[i as int] == node@);
                return true;
            }
            i += 1;
        }
        assert(!self@.voters.contains(node@)) by {
            if self@.voters.contains(node@) {
                let j = choose|j: int| 0 <= j < self@.voters.len() && self@.voters[j] == node@;
                assert(self.voters@[j]@ == node@);
            }
        }
        false
    }

    /// Check if we have enough votes for quorum (majority).
    fn quorum_reached(&self) -> (b: bool)
        ensures
            b == spec_quorum(self@),
    {
        self.vote_count > self.total_nodes / 2
    }

    fn promote_to_leader(&mut self)
        ensures
            final(self)@ == spec_promote(old(self)@),
    {
        self.role = NodeRole::Leader;
        self.leader_id = Some(self.node_id.clone());
    }

    /// Handle an incoming heartbeat from a leader.
    pub fn heartbeat_received(&mut self, term: u64, leader_id: &String, now: u64)
        ensures
            final(self)@ == spec_heartbeat(old(self)@, term, leader_id@, now),
    {
        if term >= self.current_term {
            self.current_term = term;
            self.role = NodeRole::Follower;
            self.leader_id = Some(leader_id.clone());
            self.last_heartbeat = now;
            self.vote_count = 0;
            self.voters = Vec::new();
            assert(crate::text::views(self.voters@) =~= Seq::<Seq<char>>::empty());
        }
    }

    /// Handle a vote request from a candidate; true when the vote is granted.
    pub fn handle_vote_request(&mut self, candidate_id: &String, term: u64, now: u64) -> (r: bool)
        ensures
            (final(self)@, r) == spec_handle_vote(old(self)@, candidate_id@, term, now),
    {
        if term > self.current_term {
            self.current_term = term;
            self.role = NodeRole::Follower;
            self.voted_for = None;
            self.last_heartbeat = now;
        }
        if term == self.current_term && self.voted_for.is_none() {
            self.voted_for = Some(candidate_id.clone());
            self.last_heartbeat = now;
            true
        } else {
            false
        }
    }

    /// A leader sends heartbeats.
    pub fn should_send_heartbeat(&self) -> (b: bool)
        ensures
            b == (self@.role == NodeRole::Leader),
    {
        self.role == NodeRole::Leader
    }
}

/// A leader holds a majority of the votes of its term.
pub open spec fn leader_has_quorum(s: ElectionView) -> bool {
    s.role == NodeRole::Leader ==> spec_quorum(s)
}

/// Terms never go back: no step of the election lowers the current term.
pub proof fn law_term_monotonic(
    s: ElectionView,
    now: u64,
    term: u64,
    granted: bool,
    peer: Seq<char>,
    voter: Seq<char>,
)
    requires
        s.current_term < u64::MAX,
        s.vote_count < u32::MAX,
    ensures
        spec_tick(s, now).current_term >= s.current_term,
        spec_receive_vote(s, voter, term, granted).0.current_term == s.current_term,
        spec_heartbeat(s, term, peer, now).current_term >= s.current_term,
        spec_handle_vote(s, peer, term, now).0.current_term >= s.current_term,
{
}

/// A node grants at most one vote per term: after a granted request, any
/// further request of the same term is refused.
pub proof fn law_one_vote_per_term(
    s: ElectionView,
    c1: Seq<char>,
    c2: Seq<char>,
    term: u64,
    now1: u64,
    now2: u64,
)
    ensures
        spec_handle_vote(s, c1, term, now1).1 ==> !spec_handle_vote(
            spec_handle_vote(s, c1, term, now1).0,
            c2,
            term,
            now2,
        ).1,
        spec_handle_vote(s, c1, term, now1).1 ==> spec_handle_vote(s, c1, term, now1).0.voted_for
            == Some(c1),
{
}

/// Every step keeps a leader backed by a majority of votes; a fresh node
/// (a follower) initialized for any cluster size satisfies it.
pub proof fn law_leader_has_quorum(
    s: ElectionView,
    now: u64,
    term: u64,
    granted: bool,
    peer: Seq<char>,
    voter: Seq<char>,
    total: u32,
)
    requires
        leader_has_quorum(s),
        s.vote_count < u32::MAX,
    ensures
        s.current_term < u64::MAX ==> leader_has_quorum(spec_tick(s, now)),
        leader_has_quorum(spec_receive_vote(s, voter, term, granted).0),
        leader_has_quorum(spec_heartbeat(s, term, peer, now)),
        leader_has_quorum(spec_handle_vote(s, peer, term, now).0),
        s.role == NodeRole::Follower ==> leader_has_quorum(spec_init(s, peer, total)),
{
}

/// A vote only turns a candidate into a leader, and only when a voter not
/// yet counted brings the distinct voters past half the cluster.
pub proof fn law_vote_wins_only_with_quorum(s: ElectionView, voter: Seq<char>, term: u64, granted: bool)
    requires
        s.vote_count < u32::MAX,
        votes_counted(s),
    ensures
        spec_receive_vote(s, voter, term, granted).1 <==> (s.role == NodeRole::Candidate
            && term == s.current_term && granted && !s.voters.contains(voter)
            && s.voters.len() + 1 > s.total_nodes / 2),
        spec_receive_vote(s, voter, term, granted).1 ==> {
            let t = spec_receive_vote(s, voter, term, granted).0;
            &&& t.role == NodeRole::Leader
            &&& t.leader_id == Some(s.node_id)
            &&& forall|x: Seq<char>| #[trigger] t.voters.contains(x) <==> (s.voters.contains(x) || x == voter)
        },
{
    if spec_receive_vote(s, voter, term, granted).1 {
        let t = spec_receive_vote(s, voter, term, granted).0;
        assert(t.voters == s.voters.push(voter));
        assert forall|x: Seq<char>| #[trigger] t.voters.contains(x) <==> (s.voters.contains(x)
            || x == voter) by {
            if t.voters.contains(x) {
                let j = choose|j: int| 0 <= j < t.voters.len() && t.voters[j] == x;
                if j < s.voters.len() {
                    assert(s.voters[j] == x);
                }
            }
            if s.voters.contains(x) {
                let j = choose|j: int| 0 <= j < s.voters.len() && s.voters[j] == x;
                assert(t.voters[j] == x);
            }
            if x == voter {
                assert(t.voters[s.voters.len() as int] == x);
            }
        }
    }
}

/// The vote count is the number of distinct voters held.
pub open spec fn votes_counted(s: ElectionView) -> bool {
    &&& s.vote_count == s.voters.len()
    &&& s.voters.no_duplicates()
}

/// Every step keeps the vote count equal to the number of distinct voters,
/// so a repeated grant never counts twice; a fresh node starts so.
pub proof fn law_votes_are_distinct_voters(
    s: ElectionView,
    now: u64,
    term: u64,
    granted: bool,
    peer: Seq<char>,
    voter: Seq<char>,
    total: u32,
    timeout: u64,
)
    requires
        votes_counted(s),
        s.vote_count < u32::MAX,
    ensures
        votes_counted(spec_new(timeout, now)),
        s.current_term < u64::MAX ==> votes_counted(spec_tick(s, now)),
        votes_counted(spec_receive_vote(s, voter, term, granted).0),
        votes_counted(spec_heartbeat(s, term, peer, now)),
        votes_counted(spec_handle_vote(s, peer, term, now).0),
        votes_counted(spec_init(s, peer, total)),
{
    assert(seq![peer].no_duplicates());
    assert(seq![s.node_id].no_duplicates());
    assert(Seq::<Seq<char>>::empty().no_duplicates());
    let t = spec_receive_vote(s, voter, term, granted).0;
    if t.voters != s.voters {
        assert(t.voters == s.voters.push(voter));
        assert forall|i: int, j: int| 0 <= i < t.voters.len() && 0 <= j < t.voters.len() && i != j implies t.voters[i] != t.voters[j] by {
            if j == s.voters.len() as int {
                assert(s.voters[i] == t.voters[i]);
            } else if i == s.voters.len() as int {
                assert(s.voters[j] == t.voters[j]);
            }
        }
    }
}

/// A heartbeat of the current term or later leaves this node following the sender.
pub proof fn law_heartbeat_follows(s: ElectionView, term: u64, leader: Seq<char>, now: u64)
    requires
        term >= s.current_term,
    ensures
        spec_heartbeat(s, term, leader, now).role == NodeRole::Follower,
        spec_heartbeat(s, term, leader, now).leader_id == Some(leader),
        spec_heartbeat(s, term, leader, now).current_term == term,
{
}

} // verus!
