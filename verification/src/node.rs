//! The Node State Machine: the central consensus engine. One event at a
//! time — an election timeout, a heartbeat tick, an incoming RPC, a client
//! command — is processed to completion, mutating the node and yielding the
//! messages to send and the entries that became committed. The node never
//! performs I/O: timers, transport, persistence and the application are
//! collaborators of the caller. The returned messages are the
//! persist-before-respond boundary: the caller durably records the node's
//! term, vote and log before handing any of them to the transport.

use vstd::prelude::*;
use vstd::pervasive::VecAdditionalExecFns;

use crate::log::{
    conflict_offset, lemma_merged_at_conflict, lemma_merged_basic, matches_at, merged, term_at, Log,
};
use crate::types::{
    AppendEntriesArgs, AppendEntriesResponseArgs, EntryV, LogEntry, LogIndex, Message, NodeState,
    Outbound, RequestVoteArgs, RequestVoteResponseArgs, ServerId, StepOutput, SubmitError, Term,
};

verus! {

/// The "at least as up-to-date" order on log endings, compared
/// lexicographically: last term first, then last index.
pub open spec fn up_to_date(
    cand_last_term: Term,
    cand_last_index: int,
    my_last_term: Term,
    my_last_index: int,
) -> bool {
    cand_last_term > my_last_term || (cand_last_term == my_last_term && cand_last_index
        >= my_last_index)
}

/// Whether `k` members are a majority of a cluster of `cluster` members.
pub open spec fn is_majority(k: int, cluster: int) -> bool {
    2 * k > cluster
}

/// How many acknowledged indices in `acks` are at least `n`.
pub open spec fn count_ge(acks: Seq<LogIndex>, n: int) -> int
    decreases acks.len(),
{
    if acks.len() == 0 {
        0
    } else {
        count_ge(acks.drop_last(), n) + if acks.last() >= n {
            1int
        } else {
            0int
        }
    }
}

/// Whether a leader of `term` with log `log`, peer acknowledgements `acks`
/// and `cluster` members may commit index `n`: a majority of the cluster
/// (the leader itself plus every peer whose acknowledged index reaches `n`)
/// stores the entry, and the entry carries the leader's own term — an entry
/// of an earlier term is never committed by counting replicas alone.
pub open spec fn committable(
    log: Seq<EntryV>,
    term: Term,
    acks: Seq<LogIndex>,
    cluster: int,
    n: int,
) -> bool {
    &&& 1 <= n <= log.len()
    &&& log[n - 1].term == term
    &&& is_majority(1 + count_ge(acks, n), cluster)
}

/// The largest index in `(floor, hi]` that is committable, or `floor` when
/// none is: the new commit index of a leader whose commit index was
/// `floor`. Commitment never regresses.
pub open spec fn best_commit(
    log: Seq<EntryV>,
    term: Term,
    acks: Seq<LogIndex>,
    cluster: int,
    floor: int,
    hi: int,
) -> int
    decreases hi,
{
    if hi <= floor || hi <= 0 {
        floor
    } else if committable(log, term, acks, cluster, hi) {
        hi
    } else {
        best_commit(log, term, acks, cluster, floor, hi - 1)
    }
}

/// A single Raft node: its identity, the fixed set of its peers, its
/// current role, its log, and how far that log is known committed and
/// delivered.
pub struct RaftNode {
    pub id: ServerId,
    pub peers: Vec<ServerId>,
    pub role: NodeState,
    pub log: Log,
    pub commit_index: LogIndex,
    pub last_applied: LogIndex,
}

impl RaftNode {
    /// The node's current term.
    pub open spec fn current_term(self) -> Term {
        self.role.term()
    }

    /// All members of the cluster, the node itself included.
    pub open spec fn members(self) -> Set<ServerId> {
        self.peers@.to_set().insert(self.id)
    }

    /// Number of cluster members, the node itself included.
    pub open spec fn cluster_size(self) -> int {
        self.peers@.len() as int + 1
    }

    /// Term of the last log entry, 0 for an empty log.
    pub open spec fn last_log_term(self) -> Term {
        term_at(self.log@, self.log@.len() as int)
    }

    /// Well-formedness: the configuration is a set, commitment never runs
    /// past the log nor delivery past commitment, a candidate's votes are
    /// distinct members including its own, and a leader's replication
    /// progress covers exactly its peers with indices inside the log.
    pub open spec fn wf(self) -> bool {
        &&& !self.peers@.contains(self.id)
        &&& self.peers@.no_duplicates()
        &&& self.last_applied <= self.commit_index <= self.log@.len()
        &&& (self.role matches NodeState::Candidate { votes_received, .. } ==> {
            &&& votes_received@.no_duplicates()
            &&& votes_received@.contains(self.id)
            &&& forall|v: ServerId| votes_received@.contains(v) ==> self.members().contains(v)
        })
        &&& (self.role matches NodeState::Leader { next_index, match_index, .. } ==> {
            &&& next_index@.len() == self.peers@.len()
            &&& match_index@.len() == self.peers@.len()
            &&& (forall|i: int|
                0 <= i < next_index@.len() ==> 1 <= #[trigger] next_index@[i] <= self.log@.len()
                    + 1)
            &&& (forall|i: int|
                0 <= i < match_index@.len() ==> #[trigger] match_index@[i] <= self.log@.len())
        })
    }

    /// The parts of a node no event may change: who it is and whom it
    /// talks to.
    pub open spec fn same_config(pre: RaftNode, post: RaftNode) -> bool {
        &&& post.id == pre.id
        &&& post.peers@ == pre.peers@
    }
}

/// `msgs` is a `RequestVote` for the candidate `n`'s current term and log
/// ending, one per peer, in peer order.
pub open spec fn broadcast_request_vote(n: RaftNode, msgs: Seq<Outbound>) -> bool {
    &&& msgs.len() == n.peers@.len()
    &&& forall|i: int|
        0 <= i < msgs.len() ==> {
            &&& (#[trigger] msgs[i]).to == n.peers@[i]
            &&& msgs[i].msg matches Message::RequestVote(a) && a.term == n.current_term()
                && a.candidate_id == n.id && a.last_log_index == n.log@.len() && a.last_log_term
                == n.last_log_term()
        }
}

/// `msgs` is an `AppendEntries` from the leader `n` to each peer, in peer
/// order, carrying exactly the log suffix that peer still misses according
/// to `next_index`.
pub open spec fn broadcast_append_entries(n: RaftNode, msgs: Seq<Outbound>) -> bool {
    &&& n.role is Leader
    &&& msgs.len() == n.peers@.len()
    &&& forall|i: int|
        0 <= i < msgs.len() ==> {
            let next = n.role->Leader_next_index@[i];
            &&& (#[trigger] msgs[i]).to == n.peers@[i]
            &&& msgs[i].msg matches Message::AppendEntries(a) && a.term == n.current_term()
                && a.leader_id == n.id && a.prev_log_index == next - 1 && a.prev_log_term
                == term_at(n.log@, next - 1) && a.entries.deep_view() == n.log@.skip(next - 1)
                && a.leader_commit == n.commit_index
        }
}


/// Everything `election_timeout` does.
pub open spec fn election_timeout_post(
    pre: RaftNode,
    post: RaftNode,
    msgs: Seq<Outbound>,
    committed: Seq<EntryV>,
) -> bool {
    &&& post.wf()
    &&& RaftNode::same_config(pre, post)
    &&& post.log@ == pre.log@
    &&& post.commit_index == pre.commit_index
    &&& post.last_applied == pre.last_applied
    &&& committed.len() == 0
    &&& (pre.role is Leader ==> post == pre && msgs.len() == 0)
    &&& (!(pre.role is Leader) ==> post.current_term() == pre.current_term() + 1)
    &&& (!(pre.role is Leader) && pre.peers@.len() > 0 ==> {
        &&& post.role matches NodeState::Candidate { term, votes_received } && term
            == pre.current_term() + 1 && votes_received@ == seq![pre.id]
        &&& broadcast_request_vote(post, msgs)
    })
    &&& (!(pre.role is Leader) && pre.peers@.len() == 0 ==> {
        &&& post.role matches NodeState::Leader { term, .. } && term == pre.current_term() + 1
        &&& msgs.len() == 0
    })
}

impl RaftNode {
    /// A freshly started node: Follower at term 0 with an empty log.
    pub fn new(id: ServerId, peers: Vec<ServerId>) -> (n: RaftNode)
        requires
            !peers@.contains(id),
            peers@.no_duplicates(),
        ensures
            n.wf(),
            n.id == id,
            n.peers@ == peers@,
            n.role == (NodeState::Follower { term: 0u64, voted_for: Option::<ServerId>::None }),
            n.log@.len() == 0,
            n.commit_index == 0,
            n.last_applied == 0,
    {
        RaftNode {
            id,
            peers,
            role: NodeState::Follower { term: 0, voted_for: None },
            log: Log::new(),
            commit_index: 0,
            last_applied: 0,
        }
    }

    /// Becomes Leader of the current term: fresh replication progress for
    /// every peer (`next_index` one past the own log, `match_index` 0),
    /// never inherited from an earlier tenure.
    fn promote_to_leader(&mut self)
        requires
            old(self).wf(),
            old(self).log@.len() < u64::MAX,
        ensures
            final(self).wf(),
            RaftNode::same_config(*old(self), *final(self)),
            final(self).log@ == old(self).log@,
            final(self).commit_index == old(self).commit_index,
            final(self).last_applied == old(self).last_applied,
            final(self).role matches NodeState::Leader { term, next_index, match_index }
                && term == old(self).current_term() && next_index@.len() == old(self).peers@.len()
                && match_index@.len() == old(self).peers@.len() && (forall|i: int|
                0 <= i < old(self).peers@.len() ==> #[trigger] next_index@[i] == old(
                    self,
                ).log@.len() + 1) && (forall|i: int|
                0 <= i < old(self).peers@.len() ==> #[trigger] match_index@[i] == 0),
    {
        let term = self.role.current_term();
        let next = self.log.last_index() + 1;
        let n = self.peers.len();
        let mut next_index: Vec<LogIndex> = Vec::new();
        let mut match_index: Vec<LogIndex> = Vec::new();
        let mut i: usize = 0;
        while i < n
            invariant
                next_index@.len() == i,
                match_index@.len() == i,
                i <= n,
                forall|j: int| 0 <= j < i ==> #[trigger] next_index@[j] == next,
                forall|j: int| 0 <= j < i ==> #[trigger] match_index@[j] == 0,
            decreases n - i,
        {
            next_index.push(next);
            match_index.push(0);
            i += 1;
        }
        self.role = NodeState::Leader { term, next_index, match_index };
    }

    /// One `AppendEntries` per peer, each starting at that peer's
    /// `next_index`: the heartbeat and replication broadcast.
    fn replicate_all(&self) -> (msgs: Vec<Outbound>)
        requires
            self.wf(),
            self.role is Leader,
        ensures
            broadcast_append_entries(*self, msgs@),
    {
        let mut msgs: Vec<Outbound> = Vec::new();
        let term = self.role.current_term();
        match &self.role {
            NodeState::Leader { next_index, .. } => {
                let mut i: usize = 0;
                while i < self.peers.len()
                    invariant
                        self.wf(),
                        self.role is Leader,
                        next_index@ == self.role->Leader_next_index@,
                        term == self.current_term(),
                        i <= self.peers@.len(),
                        msgs@.len() == i,
                        forall|j: int|
                            0 <= j < i ==> {
                                let next = self.role->Leader_next_index@[j];
                                &&& (#[trigger] msgs@[j]).to == self.peers@[j]
                                &&& msgs@[j].msg matches Message::AppendEntries(a) && a.term
                                    == self.current_term() && a.leader_id == self.id
                                    && a.prev_log_index == next - 1 && a.prev_log_term == term_at(
                                    self.log@,
                                    next - 1,
                                ) && a.entries.deep_view() == self.log@.skip(next - 1)
                                    && a.leader_commit == self.commit_index
                            },
                    decreases self.peers@.len() - i,
                {
                    let next = next_index[i];
                    let prev = next - 1;
                    let prev_term = self.log.term_of(prev);
                    let entries = self.log.suffix(next);
                    msgs.push(
                        Outbound {
                            to: self.peers[i],
                            msg: Message::AppendEntries(
                                AppendEntriesArgs {
                                    term,
                                    leader_id: self.id,
                                    prev_log_index: prev,
                                    prev_log_term: prev_term,
                                    entries,
                                    leader_commit: self.commit_index,
                                },
                            ),
                        },
                    );
                    i += 1;
                }
                msgs
            },
            _ => {
                proof {
                    assert(false);
                }
                msgs
            },
        }
    }

    /// The election timer fired with no word from a leader: a Follower or
    /// Candidate starts a new election — next term, a vote for itself, a
    /// `RequestVote` to every peer. A Leader ignores its election timer. In
    /// a cluster of one the self-vote is already a majority and the node
    /// becomes Leader at once.
    pub fn election_timeout(&mut self) -> (out: StepOutput)
        requires
            old(self).wf(),
            old(self).current_term() < u64::MAX,
            old(self).log@.len() < u64::MAX,
        ensures
            election_timeout_post(
                *old(self),
                *final(self),
                out.messages@,
                out.committed.deep_view(),
            ),
    {
        if let NodeState::Leader { .. } = &self.role {
            return StepOutput::empty();
        }
        let new_term = self.role.current_term() + 1;
        let mut votes_received: Vec<ServerId> = Vec::new();
        votes_received.push(self.id);
        proof {
            assert(votes_received@ =~= seq![self.id]);
        }
        self.role = NodeState::Candidate { term: new_term, votes_received };
        proof {
            let v = self.role->Candidate_votes_received@;
            assert(v =~= seq![self.id]);
            assert(v[0] == self.id);
            assert(v.contains(self.id));
            assert(v.no_duplicates());
            assert forall|x: ServerId| v.contains(x) implies self.members().contains(x) by {
                assert(x == self.id);
                assert(self.members().contains(self.id));
            }
        }
        if self.peers.len() == 0 {
            self.promote_to_leader();
            return StepOutput::empty();
        }
        let (last_log_index, last_log_term) = self.log.last_index_and_term();
        let mut messages: Vec<Outbound> = Vec::new();
        let mut i: usize = 0;
        while i < self.peers.len()
            invariant
                i <= self.peers@.len(),
                messages@.len() == i,
                new_term == self.current_term(),
                self.id == old(self).id,
                self.peers@ == old(self).peers@,
                self.log@ == old(self).log@,
                last_log_index == self.log@.len(),
                last_log_term == self.last_log_term(),
                forall|j: int|
                    0 <= j < i ==> {
                        &&& (#[trigger] messages@[j]).to == self.peers@[j]
                        &&& messages@[j].msg matches Message::RequestVote(a) && a.term
                            == self.current_term() && a.candidate_id == self.id && a.last_log_index
                            == self.log@.len() && a.last_log_term == self.last_log_term()
                    },
            decreases self.peers@.len() - i,
        {
            messages.push(
                Outbound {
                    to: self.peers[i],
                    msg: Message::RequestVote(
                        RequestVoteArgs {
                            term: new_term,
                            candidate_id: self.id,
                            last_log_index,
                            last_log_term,
                        },
                    ),
                },
            );
            i += 1;
        }
        StepOutput { messages, committed: Vec::new() }
    }
}


/// Everything `handle_request_vote` does: how `post` and the reply relate
/// to `pre` and the request.
pub open spec fn request_vote_post(
    pre: RaftNode,
    post: RaftNode,
    from: ServerId,
    args: RequestVoteArgs,
    msgs: Seq<Outbound>,
    committed: Seq<EntryV>,
) -> bool {
    &&& post.wf()
    &&& RaftNode::same_config(pre, post)
    &&& post.log@ == pre.log@
    &&& post.commit_index == pre.commit_index
    &&& post.last_applied == pre.last_applied
    &&& committed.len() == 0
    &&& post.current_term() == (if args.term > pre.current_term() {
        args.term
    } else {
        pre.current_term()
    })
    &&& (pre.would_grant(args) ==> post.role == (NodeState::Follower {
        term: args.term,
        voted_for: Some(args.candidate_id),
    }))
    &&& (!pre.would_grant(args) && args.term > pre.current_term() ==> post.role == (
    NodeState::Follower { term: args.term, voted_for: Option::<ServerId>::None }))
    &&& (!pre.would_grant(args) && args.term <= pre.current_term() ==> post.role == pre.role)
    &&& msgs.len() == 1 && msgs[0].to == from && (msgs[0].msg matches
        Message::RequestVoteResponse(r) && r.term == post.current_term() && r.vote_granted
        == pre.would_grant(args))
}

/// Everything `handle_request_vote_response` does.
pub open spec fn request_vote_response_post(
    pre: RaftNode,
    post: RaftNode,
    from: ServerId,
    args: RequestVoteResponseArgs,
    msgs: Seq<Outbound>,
    committed: Seq<EntryV>,
) -> bool {
    &&& post.wf()
    &&& RaftNode::same_config(pre, post)
    &&& post.log@ == pre.log@
    &&& post.commit_index == pre.commit_index
    &&& post.last_applied == pre.last_applied
    &&& committed.len() == 0
    &&& (args.term > pre.current_term() ==> post.role == (NodeState::Follower {
        term: args.term,
        voted_for: Option::<ServerId>::None,
    }) && msgs.len() == 0)
    &&& (args.term <= pre.current_term() && !pre.counts_vote(from, args) ==> post == pre
        && msgs.len() == 0)
    &&& (pre.counts_vote(from, args) && !is_majority(
        tally(pre.role->Candidate_votes_received@, from).len() as int,
        pre.cluster_size(),
    ) ==> (post.role matches NodeState::Candidate { term, votes_received } && term
        == pre.current_term() && votes_received@ == tally(
        pre.role->Candidate_votes_received@,
        from,
    )) && msgs.len() == 0)
    &&& (pre.counts_vote(from, args) && is_majority(
        tally(pre.role->Candidate_votes_received@, from).len() as int,
        pre.cluster_size(),
    ) ==> (post.role matches NodeState::Leader { term, next_index, match_index } && term
        == pre.current_term() && next_index@.len() == pre.peers@.len() && match_index@.len()
        == pre.peers@.len() && (forall|i: int|
        0 <= i < pre.peers@.len() ==> #[trigger] next_index@[i] == pre.log@.len() + 1) && (
    forall|i: int| 0 <= i < pre.peers@.len() ==> #[trigger] match_index@[i] == 0))
        && broadcast_append_entries(post, msgs))
}

impl RaftNode {
    /// Whether this node would grant `args`: the candidate's term must not
    /// be behind, the node must not already have voted for someone else in
    /// that term (a Candidate or Leader has voted for itself), and the
    /// candidate's log must be at least as up-to-date as the node's own.
    pub open spec fn would_grant(self, args: RequestVoteArgs) -> bool {
        &&& args.term >= self.current_term()
        &&& (args.term > self.current_term() || (self.role matches NodeState::Follower {
            voted_for,
            ..
        } && (voted_for is None || voted_for == Some(args.candidate_id))))
        &&& up_to_date(
            args.last_log_term,
            args.last_log_index as int,
            self.last_log_term(),
            self.log@.len() as int,
        )
    }

    /// Where `id` sits in the peer list, if it is a peer.
    fn peer_position(&self, id: ServerId) -> (r: Option<usize>)
        ensures
            r matches Some(i) ==> 0 <= i < self.peers@.len() && self.peers@[i as int] == id,
            r is None ==> !self.peers@.contains(id),
    {
        let mut i: usize = 0;
        while i < self.peers.len()
            invariant
                i <= self.peers@.len(),
                forall|j: int| 0 <= j < i ==> self.peers@[j] != id,
            decreases self.peers@.len() - i,
        {
            if self.peers[i] == id {
                return Some(i);
            }
            i += 1;
        }
        None
    }

    /// Reverts to Follower in `term`, with no vote cast there yet: the
    /// reaction to seeing any message of a strictly greater term.
    fn step_down(&mut self, term: Term)
        requires
            old(self).wf(),
        ensures
            final(self).wf(),
            RaftNode::same_config(*old(self), *final(self)),
            final(self).log@ == old(self).log@,
            final(self).commit_index == old(self).commit_index,
            final(self).last_applied == old(self).last_applied,
            final(self).role == (NodeState::Follower {
                term,
                voted_for: Option::<ServerId>::None,
            }),
    {
        self.role = NodeState::Follower { term, voted_for: None };
    }

    /// Handles a `RequestVote` from `from`, replying with a grant or a
    /// denial. A greater term is adopted first (reverting to Follower);
    /// granting records the vote so it can never be cast twice in the same
    /// term.
    pub fn handle_request_vote(&mut self, from: ServerId, args: RequestVoteArgs) -> (out:
        StepOutput)
        requires
            old(self).wf(),
        ensures
            request_vote_post(
                *old(self),
                *final(self),
                from,
                args,
                out.messages@,
                out.committed.deep_view(),
            ),
    {
        let my_term = self.role.current_term();
        if args.term > my_term {
            self.step_down(args.term);
        }
        let cur = self.role.current_term();
        let can_vote: bool = if args.term < cur {
            false
        } else {
            match &self.role {
                NodeState::Follower { voted_for, .. } => match voted_for {
                    None => true,
                    Some(v) => *v == args.candidate_id,
                },
                _ => false,
            }
        };
        let (my_last_index, my_last_term) = self.log.last_index_and_term();
        let log_ok: bool = args.last_log_term > my_last_term || (args.last_log_term == my_last_term
            && args.last_log_index >= my_last_index);
        let granted = can_vote && log_ok;
        if granted {
            self.role = NodeState::Follower { term: cur, voted_for: Some(args.candidate_id) };
        }
        let reply = Message::RequestVoteResponse(
            RequestVoteResponseArgs { term: cur, vote_granted: granted },
        );
        let mut messages: Vec<Outbound> = Vec::new();
        messages.push(Outbound { to: from, msg: reply });
        StepOutput { messages, committed: Vec::new() }
    }
}

/// `votes` with the voter `from` recorded once.
pub open spec fn tally(votes: Seq<ServerId>, from: ServerId) -> Seq<ServerId> {
    if votes.contains(from) {
        votes
    } else {
        votes.push(from)
    }
}

impl RaftNode {
    /// Whether a vote response from `from` counts for this candidate: right
    /// role, right term, granted, and from an actual peer.
    pub open spec fn counts_vote(self, from: ServerId, args: RequestVoteResponseArgs) -> bool {
        &&& self.role is Candidate
        &&& args.term == self.current_term()
        &&& args.vote_granted
        &&& self.peers@.contains(from)
    }

    /// Handles a `RequestVoteResponse`. A granted vote of the current term
    /// from a peer is recorded once; when the recorded votes reach a
    /// majority of the cluster the candidate becomes Leader and immediately
    /// broadcasts `AppendEntries` to assert authority. A greater term
    /// reverts the node to Follower.
    pub fn handle_request_vote_response(&mut self, from: ServerId, args: RequestVoteResponseArgs)
        -> (out: StepOutput)
        requires
            old(self).wf(),
            old(self).log@.len() < u64::MAX,
        ensures
            request_vote_response_post(
                *old(self),
                *final(self),
                from,
                args,
                out.messages@,
                out.committed.deep_view(),
            ),
    {
        let my_term = self.role.current_term();
        if args.term > my_term {
            self.step_down(args.term);
            return StepOutput::empty();
        }
        let is_candidate: bool = match &self.role {
            NodeState::Candidate { .. } => true,
            _ => false,
        };
        let from_is_peer = self.peer_position(from).is_some();
        if !(is_candidate && args.term == my_term && args.vote_granted && from_is_peer) {
            return StepOutput::empty();
        }
        let ghost pre_votes = self.role->Candidate_votes_received@;
        match &mut self.role {
            NodeState::Candidate { votes_received, .. } => {
                let mut seen = false;
                let mut i: usize = 0;
                while i < votes_received.len()
                    invariant
                        i <= votes_received@.len(),
                        seen == exists|j: int| 0 <= j < i && votes_received@[j] == from,
                    decreases votes_received@.len() - i,
                {
                    if votes_received[i] == from {
                        seen = true;
                    }
                    i += 1;
                }
                if !seen {
                    votes_received.push(from);
                }
            },
            _ => {},
        }
        proof {
            assert(self.role->Candidate_votes_received@ == tally(pre_votes, from));
            assert(self.wf()) by {
                let v = self.role->Candidate_votes_received@;
                if !pre_votes.contains(from) {
                    assert(forall|j: int| 0 <= j < pre_votes.len() ==> v[j] == pre_votes[j]);
                    assert(v.no_duplicates());
                    assert(v.contains(self.id)) by {
                        let w = choose|j: int|
                            0 <= j < pre_votes.len() && pre_votes[j] == old(self).id;
                        assert(v[w] == self.id);
                    }
                    assert forall|x: ServerId| v.contains(x) implies self.members().contains(x) by {
                        if x != from {
                            let w = choose|j: int| 0 <= j < v.len() && v[j] == x;
                            assert(pre_votes[w] == x);
                            assert(pre_votes.contains(x));
                        } else {
                            assert(self.members().contains(from));
                        }
                    }
                }
            }
        }
        let vote_count = match &self.role {
            NodeState::Candidate { votes_received, .. } => votes_received.len(),
            _ => 0,
        };
        let threshold = self.peers.len() / 2 + self.peers.len() % 2;
        proof {
            assert(vote_count > threshold <==> is_majority(
                vote_count as int,
                self.cluster_size(),
            ));
        }
        if vote_count > threshold {
            self.promote_to_leader();
            let messages = self.replicate_all();
            StepOutput { messages, committed: Vec::new() }
        } else {
            StepOutput::empty()
        }
    }
}

impl RaftNode {
    /// How many peers acknowledge at least index `n`.
    fn count_acks_ge(&self, n: LogIndex) -> (cnt: usize)
        requires
            self.role is Leader,
        ensures
            cnt == count_ge(self.role->Leader_match_index@, n as int),
            cnt <= self.role->Leader_match_index@.len(),
    {
        match &self.role {
            NodeState::Leader { match_index, .. } => {
                let ghost acks = match_index@;
                let mut cnt: usize = 0;
                let mut i: usize = 0;
                proof {
                    assert(acks.take(0) =~= Seq::<LogIndex>::empty());
                }
                while i < match_index.len()
                    invariant
                        acks == self.role->Leader_match_index@,
                        acks == match_index@,
                        i <= acks.len(),
                        cnt <= i,
                        cnt == count_ge(acks.take(i as int), n as int),
                    decreases acks.len() - i,
                {
                    proof {
                        assert(acks.take(i + 1).drop_last() =~= acks.take(i as int));
                        assert(acks.take(i + 1).last() == acks[i as int]);
                    }
                    if match_index[i] >= n {
                        cnt += 1;
                    }
                    i += 1;
                }
                proof {
                    assert(acks.take(acks.len() as int) =~= acks);
                }
                cnt
            },
            _ => {
                proof {
                    assert(false);
                }
                0
            },
        }
    }

    /// Whether this leader may commit index `n` now.
    fn is_committable(&self, n: LogIndex) -> (b: bool)
        requires
            self.wf(),
            self.role is Leader,
            1 <= n <= self.log@.len(),
        ensures
            b == committable(
                self.log@,
                self.current_term(),
                self.role->Leader_match_index@,
                self.cluster_size(),
                n as int,
            ),
    {
        let term = self.role.current_term();
        if self.log.term_of(n) != term {
            return false;
        }
        let cnt = self.count_acks_ge(n);
        let threshold = self.peers.len() / 2 + self.peers.len() % 2;
        proof {
            assert(cnt >= threshold <==> is_majority(1 + cnt as int, self.cluster_size()));
        }
        cnt >= threshold
    }

    /// Recomputes the commit index from the peers' acknowledged indices
    /// (the Commit Pipeline), and hands back the entries that just became
    /// committed, in ascending index order.
    fn advance_commit(&mut self) -> (newly: Vec<LogEntry>)
        requires
            old(self).wf(),
            old(self).role is Leader,
        ensures
            final(self).wf(),
            final(self).id == old(self).id,
            final(self).peers@ == old(self).peers@,
            final(self).role == old(self).role,
            final(self).log@ == old(self).log@,
            final(self).commit_index == best_commit(
                old(self).log@,
                old(self).current_term(),
                old(self).role->Leader_match_index@,
                old(self).cluster_size(),
                old(self).commit_index as int,
                old(self).log@.len() as int,
            ),
            final(self).commit_index >= old(self).commit_index,
            final(self).last_applied == final(self).commit_index,
            newly.deep_view() == old(self).log@.subrange(
                old(self).last_applied as int,
                final(self).commit_index as int,
            ),
    {
        let ghost g_log = self.log@;
        let ghost g_term = self.current_term();
        let ghost g_acks = self.role->Leader_match_index@;
        let ghost g_cluster = self.cluster_size();
        let ghost g_floor = self.commit_index as int;
        let len = self.log.last_index();
        let mut c = len;
        while c > self.commit_index && !self.is_committable(c)
            invariant
                self == old(self),
                g_log == self.log@,
                g_term == self.current_term(),
                g_acks == self.role->Leader_match_index@,
                g_cluster == self.cluster_size(),
                g_floor == self.commit_index as int,
                self.wf(),
                self.role is Leader,
                len == self.log@.len(),
                self.commit_index <= c <= len,
                best_commit(g_log, g_term, g_acks, g_cluster, g_floor, len as int) == best_commit(
                    g_log,
                    g_term,
                    g_acks,
                    g_cluster,
                    g_floor,
                    c as int,
                ),
            decreases c,
        {
            c -= 1;
        }
        let newly = self.log.range(self.last_applied, c);
        self.commit_index = c;
        self.last_applied = c;
        newly
    }

    /// The heartbeat / replication tick of a Leader: recomputes the commit
    /// index, delivers what just became committed, and sends every peer an
    /// `AppendEntries` starting at that peer's `next_index` (an empty one —
    /// a pure heartbeat — when the peer is up to date). Any other role
    /// ignores the tick.
    pub fn heartbeat_tick(&mut self) -> (out: StepOutput)
        requires
            old(self).wf(),
        ensures
            final(self).wf(),
            RaftNode::same_config(*old(self), *final(self)),
            final(self).log@ == old(self).log@,
            final(self).commit_index >= old(self).commit_index,
            !(old(self).role is Leader) ==> *final(self) == *old(self) && out.messages@.len() == 0
                && out.committed@.len() == 0,
            old(self).role is Leader ==> {
                &&& final(self).role == old(self).role
                &&& final(self).commit_index == best_commit(
                    old(self).log@,
                    old(self).current_term(),
                    old(self).role->Leader_match_index@,
                    old(self).cluster_size(),
                    old(self).commit_index as int,
                    old(self).log@.len() as int,
                )
                &&& final(self).last_applied == final(self).commit_index
                &&& out.committed.deep_view() == old(self).log@.subrange(
                    old(self).last_applied as int,
                    final(self).commit_index as int,
                )
                &&& broadcast_append_entries(*final(self), out.messages@)
            },
    {
        match &self.role {
            NodeState::Leader { .. } => {},
            _ => {
                return StepOutput::empty();
            },
        }
        let committed = self.advance_commit();
        let messages = self.replicate_all();
        StepOutput { messages, committed }
    }

    /// Submits a client command. Only a Leader accepts: it appends the
    /// command to its own log under its current term and returns the
    /// assigned index at once — the entry is not yet committed; replication
    /// and the Commit Pipeline decide that later. Every other role answers
    /// `NotLeader` and the caller should redirect.
    pub fn client_submit(&mut self, command: Vec<u8>) -> (r: Result<LogIndex, SubmitError>)
        requires
            old(self).wf(),
            old(self).log@.len() < u64::MAX,
        ensures
            final(self).wf(),
            RaftNode::same_config(*old(self), *final(self)),
            final(self).role == old(self).role,
            final(self).commit_index == old(self).commit_index,
            final(self).last_applied == old(self).last_applied,
            old(self).role is Leader ==> final(self).log@ == old(self).log@.push(
                (EntryV { term: old(self).current_term(), command: command@ }),
            ) && r == Ok::<LogIndex, SubmitError>((old(self).log@.len() + 1) as u64),
            !(old(self).role is Leader) ==> *final(self) == *old(self) && r == Err::<
                LogIndex,
                SubmitError,
            >(SubmitError::NotLeader),
    {
        let term = match &self.role {
            NodeState::Leader { term, .. } => *term,
            _ => {
                return Err(SubmitError::NotLeader);
            },
        };
        self.log.push(LogEntry { term, command });
        Ok(self.log.last_index())
    }
}


/// Everything `handle_append_entries` does.
pub open spec fn append_entries_post(
    pre: RaftNode,
    post: RaftNode,
    from: ServerId,
    args: AppendEntriesArgs,
    msgs: Seq<Outbound>,
    committed: Seq<EntryV>,
) -> bool {
    &&& (post.wf())
    &&& (RaftNode::same_config(pre, post))
    &&& (post.commit_index >= pre.commit_index)
    &&& (msgs.len() == 1 && msgs[0].to == from)
    &&& (pre.ae_stale(args) ==> post == pre && committed.len() == 0
                && msgs[0].msg == Message::AppendEntriesResponse(
                (AppendEntriesResponseArgs {
                    term: pre.current_term(),
                    success: false,
                    match_index: 0,
                }),
            ))
    &&& (!pre.ae_stale(args) ==> post.role == (NodeState::Follower {
                term: args.term,
                voted_for: pre.adopted_vote(args),
            }))
    &&& (!pre.ae_stale(args) && !pre.ae_log_ok(args) ==> {
                &&& post.log@ == pre.log@
                &&& post.commit_index == pre.commit_index
                &&& post.last_applied == pre.last_applied
                &&& committed.len() == 0
                &&& msgs[0].msg matches Message::AppendEntriesResponse(r) && r.term
                    == args.term && !r.success && {
                    ||| (args.prev_log_index > pre.log@.len() && r.match_index == pre.log@.len() + 1)
                    ||| (args.prev_log_index <= pre.log@.len() && 1 <= r.match_index
                        <= args.prev_log_index && pre.log@[r.match_index - 1].term == pre.log@[args.prev_log_index - 1].term && (forall|j: int|
                        0 <= j < r.match_index - 1 ==> (#[trigger] pre.log@[j]).term != pre.log@[args.prev_log_index - 1].term))
                }
            })
    &&& (!pre.ae_stale(args) && pre.ae_log_ok(args) && !pre.ae_guard_ok(args)
                ==> {
                &&& post.log@ == pre.log@
                &&& post.commit_index == pre.commit_index
                &&& post.last_applied == pre.last_applied
                &&& committed.len() == 0
                &&& msgs[0].msg == Message::AppendEntriesResponse(
                    (AppendEntriesResponseArgs { term: args.term, success: false, match_index: 0 }),
                )
            })
    &&& (!pre.ae_stale(args) && pre.ae_log_ok(args) && pre.ae_guard_ok(args)
                ==> {
                &&& post.log@ == merged(
                    pre.log@,
                    args.prev_log_index as int,
                    args.entries.deep_view(),
                )
                &&& post.commit_index == pre.ae_new_commit(args)
                &&& post.last_applied == post.commit_index
                &&& committed == post.log@.subrange(
                    pre.last_applied as int,
                    post.commit_index as int,
                )
                &&& msgs[0].msg == Message::AppendEntriesResponse(
                    (AppendEntriesResponseArgs {
                        term: args.term,
                        success: true,
                        match_index: (args.prev_log_index + args.entries@.len()) as u64,
                    }),
                )
            })
}

/// Everything `handle_append_entries_response` does.
pub open spec fn append_entries_response_post(
    pre: RaftNode,
    post: RaftNode,
    from: ServerId,
    args: AppendEntriesResponseArgs,
    msgs: Seq<Outbound>,
    committed: Seq<EntryV>,
) -> bool {
    &&& (post.wf())
    &&& (RaftNode::same_config(pre, post))
    &&& (post.log@ == pre.log@)
    &&& (post.commit_index >= pre.commit_index)
    &&& (msgs.len() == 0)
    &&& (args.term > pre.current_term() ==> post.role == (NodeState::Follower {
                term: args.term,
                voted_for: Option::<ServerId>::None,
            }) && post.commit_index == pre.commit_index && post.last_applied == pre.last_applied
        && committed.len() == 0)
    &&& (args.term <= pre.current_term() && !pre.aer_relevant(from, args)
                ==> post == pre && committed.len() == 0)
    &&& (args.term <= pre.current_term() && pre.aer_relevant(from, args)
                && args.success && args.match_index > pre.log@.len() ==> post
                == pre && committed.len() == 0)
    &&& (args.term <= pre.current_term() && pre.aer_relevant(from, args)
                && args.success && args.match_index <= pre.log@.len() ==> {
                let idx = pre.peers@.index_of(from);
                let acks = pre.role->Leader_match_index@.update(idx, args.match_index);
                &&& post.role matches NodeState::Leader { term, next_index, match_index }
                    && term == pre.current_term() && match_index@ == acks && next_index@
                    == pre.role->Leader_next_index@.update(
                    idx,
                    (args.match_index + 1) as u64,
                )
                &&& post.commit_index == best_commit(
                    pre.log@,
                    pre.current_term(),
                    acks,
                    pre.cluster_size(),
                    pre.commit_index as int,
                    pre.log@.len() as int,
                )
                &&& post.last_applied == post.commit_index
                &&& committed == pre.log@.subrange(
                    pre.last_applied as int,
                    post.commit_index as int,
                )
            })
    &&& (args.term <= pre.current_term() && pre.aer_relevant(from, args)
                && !args.success ==> {
                let idx = pre.peers@.index_of(from);
                let hint = args.match_index as int;
                let backoff = if hint < 1 {
                    1int
                } else if hint > pre.log@.len() + 1 {
                    pre.log@.len() + 1int
                } else {
                    hint
                };
                &&& post.role matches NodeState::Leader { term, next_index, match_index }
                    && term == pre.current_term() && match_index@ == pre.role->Leader_match_index@ && next_index@ == pre.role->Leader_next_index@.update(idx, backoff as u64)
                &&& post.commit_index == pre.commit_index
                &&& post.last_applied == pre.last_applied
                &&& committed.len() == 0
            })
}

/// A `StepOutput` with nothing committed and one message, for `to`.
fn reply_to(to: ServerId, msg: Message) -> (out: StepOutput)
    ensures
        out.messages@.len() == 1,
        out.messages@[0].to == to,
        out.messages@[0].msg == msg,
        out.committed@.len() == 0,
{
    let mut messages: Vec<Outbound> = Vec::new();
    messages.push(Outbound { to, msg });
    StepOutput { messages, committed: Vec::new() }
}

impl RaftNode {
    /// An `AppendEntries` that carries no authority here: its term is
    /// behind, or it claims the term this node is itself Leader of.
    pub open spec fn ae_stale(self, args: AppendEntriesArgs) -> bool {
        args.term < self.current_term() || (args.term == self.current_term()
            && self.role is Leader)
    }

    /// The vote record this node keeps when it accepts `args`'s sender as
    /// the leader of `args.term`: a strictly newer term clears the vote; in
    /// the same term a Follower keeps its vote and a Candidate keeps the
    /// vote it cast for itself.
    pub open spec fn adopted_vote(self, args: AppendEntriesArgs) -> Option<ServerId> {
        if args.term > self.current_term() {
            None
        } else {
            match self.role {
                NodeState::Follower { voted_for, .. } => voted_for,
                NodeState::Candidate { .. } => Some(self.id),
                NodeState::Leader { .. } => None,
            }
        }
    }

    /// The consistency check of `AppendEntries` against this node's log.
    pub open spec fn ae_log_ok(self, args: AppendEntriesArgs) -> bool {
        matches_at(self.log@, args.prev_log_index as int, args.prev_log_term)
    }

    /// Entries at or below the commit index are immutable: an
    /// `AppendEntries` whose first conflict would truncate below it
    /// violates the protocol and is refused whole.
    pub open spec fn ae_guard_ok(self, args: AppendEntriesArgs) -> bool {
        let k = conflict_offset(
            self.log@,
            args.prev_log_index as int,
            args.entries.deep_view(),
        );
        k == args.entries@.len() || args.prev_log_index + k >= self.commit_index
    }

    /// The commit index after accepting `args`: the leader's commit
    /// bounded by the last entry the message covered, and never below the
    /// old commit index.
    pub open spec fn ae_new_commit(self, args: AppendEntriesArgs) -> int {
        let ack = args.prev_log_index + args.entries@.len();
        let nc = if args.leader_commit < ack {
            args.leader_commit as int
        } else {
            ack as int
        };
        if nc > self.commit_index {
            nc
        } else {
            self.commit_index as int
        }
    }

    /// Handles an `AppendEntries` from a leader. A stale term is refused
    /// without any state change. Otherwise the sender's term and authority
    /// are adopted (Candidate and Leader revert to Follower), the log
    /// consistency check runs, and on success the entries are appended
    /// positionally — truncating a conflicting suffix, leaving entries that
    /// already match untouched — and the commit index advances to what the
    /// leader says is committed, delivering those entries outward. A failed
    /// consistency check is answered with a back-off hint: the first index
    /// of the conflicting entry's term, or just past this log's end when
    /// the log is too short.
    pub fn handle_append_entries(&mut self, from: ServerId, args: AppendEntriesArgs) -> (out:
        StepOutput)
        requires
            old(self).wf(),
            old(self).log@.len() + args.entries@.len() < u64::MAX,
        ensures
            append_entries_post(
                *old(self),
                *final(self),
                from,
                args,
                out.messages@,
                out.committed.deep_view(),
            ),
    {
        let my_term = self.role.current_term();
        let is_leader: bool = match &self.role {
            NodeState::Leader { .. } => true,
            _ => false,
        };
        if args.term < my_term || (args.term == my_term && is_leader) {
            return reply_to(
                from,
                Message::AppendEntriesResponse(
                    AppendEntriesResponseArgs { term: my_term, success: false, match_index: 0 },
                ),
            );
        }
        let voted_for: Option<ServerId> = if args.term > my_term {
            None
        } else {
            match &self.role {
                NodeState::Follower { voted_for, .. } => *voted_for,
                NodeState::Candidate { .. } => Some(self.id),
                NodeState::Leader { .. } => None,
            }
        };
        self.role = NodeState::Follower { term: args.term, voted_for };
        if !self.log.matches_at(args.prev_log_index, args.prev_log_term) {
            let last = self.log.last_index();
            let hint: LogIndex = if args.prev_log_index > last {
                last + 1
            } else {
                let conflict_term = self.log.term_of(args.prev_log_index);
                proof {
                    assert(self.log@[args.prev_log_index - 1].term == conflict_term);
                }
                self.log.first_index_of_term(conflict_term)
            };
            return reply_to(
                from,
                Message::AppendEntriesResponse(
                    AppendEntriesResponseArgs { term: args.term, success: false, match_index: hint },
                ),
            );
        }
        let k = self.log.find_conflict(args.prev_log_index + 1, &args.entries);
        if k < args.entries.len() && args.prev_log_index + (k as u64) < self.commit_index {
            return reply_to(
                from,
                Message::AppendEntriesResponse(
                    AppendEntriesResponseArgs { term: args.term, success: false, match_index: 0 },
                ),
            );
        }
        let ghost pre_log = self.log@;
        let ghost p = args.prev_log_index as int;
        let ghost ev = args.entries.deep_view();
        self.log.append_from(args.prev_log_index + 1, &args.entries);
        proof {
            lemma_merged_basic(pre_log, p, ev);
            lemma_merged_at_conflict(pre_log, p, ev);
        }
        let ack = args.prev_log_index + args.entries.len() as u64;
        let nc = if args.leader_commit < ack {
            args.leader_commit
        } else {
            ack
        };
        if nc > self.commit_index {
            self.commit_index = nc;
        }
        let committed = self.log.range(self.last_applied, self.commit_index);
        self.last_applied = self.commit_index;
        let mut out = reply_to(
            from,
            Message::AppendEntriesResponse(
                AppendEntriesResponseArgs { term: args.term, success: true, match_index: ack },
            ),
        );
        out.committed = committed;
        out
    }
}

impl RaftNode {
    /// Whether an `AppendEntriesResponse` from `from` matters to this
    /// node: it is Leader, the response is of its own term, and the sender
    /// is one of its peers.
    pub open spec fn aer_relevant(self, from: ServerId, args: AppendEntriesResponseArgs) -> bool {
        &&& self.role is Leader
        &&& args.term == self.current_term()
        &&& self.peers@.contains(from)
    }

    /// Handles an `AppendEntriesResponse` as Leader. A success moves the
    /// peer's `match_index` to the acknowledged index (`next_index` right
    /// past it) and recomputes the commit index, delivering entries that a
    /// majority now stores under the current term. A failure moves the
    /// peer's `next_index` back to the response's hint — never below 1 —
    /// so the next tick retries from there. A greater term reverts the
    /// node to Follower; an acknowledgement beyond the log's end is
    /// malformed and ignored whole.
    pub fn handle_append_entries_response(
        &mut self,
        from: ServerId,
        args: AppendEntriesResponseArgs,
    ) -> (out: StepOutput)
        requires
            old(self).wf(),
            old(self).log@.len() < u64::MAX,
        ensures
            append_entries_response_post(
                *old(self),
                *final(self),
                from,
                args,
                out.messages@,
                out.committed.deep_view(),
            ),
    {
        let my_term = self.role.current_term();
        if args.term > my_term {
            self.step_down(args.term);
            return StepOutput::empty();
        }
        let is_leader: bool = match &self.role {
            NodeState::Leader { .. } => true,
            _ => false,
        };
        if !(is_leader && args.term == my_term) {
            return StepOutput::empty();
        }
        let pos = match self.peer_position(from) {
            Some(i) => i,
            None => {
                return StepOutput::empty();
            },
        };
        proof {
            let gidx = self.peers@.index_of(from);
            assert(self.peers@.contains(from)) by {
                assert(self.peers@[pos as int] == from);
            }
            assert(0 <= gidx < self.peers@.len() && self.peers@[gidx] == from);
            assert(gidx == pos as int);
        }
        let len = self.log.last_index();
        if args.success {
            if args.match_index > len {
                return StepOutput::empty();
            }
            match &mut self.role {
                NodeState::Leader { next_index, match_index, .. } => {
                    match_index.set(pos, args.match_index);
                    next_index.set(pos, args.match_index + 1);
                },
                _ => {},
            }
            let committed = self.advance_commit();
            StepOutput { messages: Vec::new(), committed }
        } else {
            let backoff: LogIndex = if args.match_index < 1 {
                1
            } else if args.match_index > len + 1 {
                len + 1
            } else {
                args.match_index
            };
            match &mut self.role {
                NodeState::Leader { next_index, .. } => {
                    next_index.set(pos, backoff);
                },
                _ => {},
            }
            StepOutput::empty()
        }
    }
}

impl RaftNode {
    /// The single entry point for the transport collaborator: dispatches
    /// an incoming message from `from` to the matching handler. Everything
    /// each case does is pinned down by the per-message postcondition
    /// predicates.
    pub fn handle_message(&mut self, from: ServerId, msg: Message) -> (out: StepOutput)
        requires
            old(self).wf(),
            old(self).log@.len() < u64::MAX,
            msg matches Message::AppendEntries(a) ==> old(self).log@.len() + a.entries@.len()
                < u64::MAX,
        ensures
            final(self).wf(),
            msg matches Message::RequestVote(a) ==> request_vote_post(
                *old(self),
                *final(self),
                from,
                a,
                out.messages@,
                out.committed.deep_view(),
            ),
            msg matches Message::RequestVoteResponse(a) ==> request_vote_response_post(
                *old(self),
                *final(self),
                from,
                a,
                out.messages@,
                out.committed.deep_view(),
            ),
            msg matches Message::AppendEntries(a) ==> append_entries_post(
                *old(self),
                *final(self),
                from,
                a,
                out.messages@,
                out.committed.deep_view(),
            ),
            msg matches Message::AppendEntriesResponse(a) ==> append_entries_response_post(
                *old(self),
                *final(self),
                from,
                a,
                out.messages@,
                out.committed.deep_view(),
            ),
    {
        match msg {
            Message::RequestVote(args) => self.handle_request_vote(from, args),
            Message::RequestVoteResponse(args) => self.handle_request_vote_response(from, args),
            Message::AppendEntries(args) => self.handle_append_entries(from, args),
            Message::AppendEntriesResponse(args) => self.handle_append_entries_response(
                from,
                args,
            ),
        }
    }
}

} // verus!
