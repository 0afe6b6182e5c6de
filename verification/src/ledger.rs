//! The vote ledger: a ghost record of who voted for whom in each term,
//! the invariant tying every node's state to it, preservation of that
//! invariant by every event of the engine, and Election Safety proved on
//! top — at most one node can believe itself Leader of a term.
//!
//! The ledger is what the durable `voted_for` records of all nodes,
//! past and present, add up to. No node stores it; it exists only in the
//! proof. Its one assumption about the network is stated where it is
//! needed ([`lemma_inv_request_vote_response`]): a counted vote response
//! reports a grant that really happened, i.e. the ledger backs it.

use vstd::prelude::*;
use vstd::seq_lib::seq_to_set_is_finite;

use crate::node::{
    append_entries_post, append_entries_response_post, election_timeout_post, request_vote_post,
    request_vote_response_post, tally, RaftNode,
};
use crate::safety::{is_quorum, lemma_election_safety, lemma_new_leader_has_vote_quorum,
    quorum_voted_for};
use crate::types::{
    AppendEntriesArgs, AppendEntriesResponseArgs, EntryV, NodeState, Outbound, RequestVoteArgs,
    RequestVoteResponseArgs, ServerId, Term,
};

verus! {

/// For each pair of a term and a voter, the candidate that voter voted
/// for in that term — if it ever voted there.
pub type VoteLedger = Map<(Term, ServerId), ServerId>;

/// `l2` keeps every vote `l1` holds, unchanged: the ledger only ever
/// grows, a cast vote is never taken back or rewritten.
pub open spec fn ledger_extends(l2: VoteLedger, l1: VoteLedger) -> bool {
    forall|k: (Term, ServerId)| #[trigger]
        l1.contains_key(k) ==> l2.contains_key(k) && l2[k] == l1[k]
}

/// Every vote in `l2` that is not in `l1` was cast by `voter`: one event
/// adds at most one node's votes.
pub open spec fn new_keys_voted_by(l2: VoteLedger, l1: VoteLedger, voter: ServerId) -> bool {
    forall|k: (Term, ServerId)|
        #[trigger] l2.contains_key(k) && !l1.contains_key(k) ==> k.1 == voter
}

/// Every member of `q` voted for candidate `c` in term `t`.
pub open spec fn quorum_votes_for(
    ledger: VoteLedger,
    t: Term,
    q: Set<ServerId>,
    c: ServerId,
) -> bool {
    forall|v: ServerId| #[trigger]
        q.contains(v) ==> ledger.contains_key((t, v)) && ledger[(t, v)] == c
}

/// The node's own vote in its current term is exactly what the ledger
/// says: a Follower's `voted_for` if any (and none recorded when it is
/// `None`), and the self-vote of a Candidate or Leader.
pub open spec fn vote_recorded(n: RaftNode, ledger: VoteLedger) -> bool {
    match n.role {
        NodeState::Follower { term, voted_for } => match voted_for {
            Some(c) => ledger.contains_key((term, n.id)) && ledger[(term, n.id)] == c,
            None => !ledger.contains_key((term, n.id)),
        },
        NodeState::Candidate { term, .. } => ledger.contains_key((term, n.id)) && ledger[(
            term,
            n.id,
        )] == n.id,
        NodeState::Leader { term, .. } => ledger.contains_key((term, n.id)) && ledger[(
            term,
            n.id,
        )] == n.id,
    }
}

/// The node has cast no vote in any term beyond its current one: terms
/// are entered before they are voted in.
pub open spec fn no_future_votes(n: RaftNode, ledger: VoteLedger) -> bool {
    forall|t: Term| t > n.current_term() ==> !(#[trigger] ledger.contains_key((t, n.id)))
}

/// Every vote a Candidate has collected is a vote the ledger really
/// records for it.
pub open spec fn candidate_votes_backed(n: RaftNode, ledger: VoteLedger) -> bool {
    n.role is Candidate ==> forall|v: ServerId| #[trigger]
        n.role->Candidate_votes_received@.contains(v) ==> ledger.contains_key((
            n.current_term(),
            v,
        )) && ledger[(n.current_term(), v)] == n.id
}

/// A Leader owes its title to a quorum of ledger-recorded votes of its
/// term.
pub open spec fn leader_backed(n: RaftNode, ledger: VoteLedger) -> bool {
    n.role is Leader ==> exists|q: Set<ServerId>|
        is_quorum(q, n.members()) && quorum_votes_for(ledger, n.current_term(), q, n.id)
}

/// The whole per-node invariant against the ledger.
pub open spec fn node_inv(n: RaftNode, ledger: VoteLedger) -> bool {
    &&& n.wf()
    &&& vote_recorded(n, ledger)
    &&& no_future_votes(n, ledger)
    &&& candidate_votes_backed(n, ledger)
    &&& leader_backed(n, ledger)
}

/// A node's invariant survives other nodes' votes being added to the
/// ledger.
pub proof fn lemma_node_inv_stable(n: RaftNode, l1: VoteLedger, l2: VoteLedger, voter: ServerId)
    requires
        node_inv(n, l1),
        ledger_extends(l2, l1),
        new_keys_voted_by(l2, l1, voter),
        voter != n.id,
    ensures
        node_inv(n, l2),
{
    assert forall|t: Term| t > n.current_term() implies !(#[trigger] l2.contains_key((
        t,
        n.id,
    ))) by {
        if l2.contains_key((t, n.id)) {
            assert(!l1.contains_key((t, n.id)));
        }
    }
    match n.role {
        NodeState::Follower { term, voted_for } => {
            if voted_for is None {
                if l2.contains_key((term, n.id)) {
                    assert(!l1.contains_key((term, n.id)));
                    assert(false);
                }
            }
        },
        _ => {},
    }
    if n.role is Leader {
        let q = choose|q: Set<ServerId>|
            is_quorum(q, n.members()) && quorum_votes_for(l1, n.current_term(), q, n.id);
        assert(quorum_votes_for(l2, n.current_term(), q, n.id));
    }
}

/// An election timeout preserves the invariant: the node enters the next
/// term and casts (at most) one new vote — for itself.
pub proof fn lemma_inv_election_timeout(
    pre: RaftNode,
    post: RaftNode,
    msgs: Seq<Outbound>,
    committed: Seq<EntryV>,
    ledger: VoteLedger,
)
    requires
        node_inv(pre, ledger),
        election_timeout_post(pre, post, msgs, committed),
    ensures
        pre.role is Leader ==> node_inv(post, ledger),
        !(pre.role is Leader) ==> {
            let l2 = ledger.insert((post.current_term(), pre.id), pre.id);
            &&& node_inv(post, l2)
            &&& ledger_extends(l2, ledger)
            &&& new_keys_voted_by(l2, ledger, pre.id)
        },
{
    if !(pre.role is Leader) {
        let t2 = post.current_term();
        let l2 = ledger.insert((t2, pre.id), pre.id);
        assert(t2 > pre.current_term());
        assert(!ledger.contains_key((t2, pre.id)));
        assert(ledger_extends(l2, ledger));
        assert forall|t: Term| t > t2 implies !(#[trigger] l2.contains_key((t, post.id))) by {
            assert(!ledger.contains_key((t, pre.id)));
        }
        if pre.peers@.len() > 0 {
            let votes = post.role->Candidate_votes_received@;
            assert forall|v: ServerId| #[trigger] votes.contains(v) implies l2.contains_key((
                t2,
                v,
            )) && l2[(t2, v)] == post.id by {
                assert(votes =~= seq![pre.id]);
                assert(v == pre.id);
            }
        } else {
            let q = Set::<ServerId>::empty().insert(pre.id);
            assert(pre.peers@.to_set() =~= Set::<ServerId>::empty());
            assert(post.members() =~= q);
            assert(q.len() == 1) by {
                assert(Set::<ServerId>::empty().len() == 0);
            }
            assert(is_quorum(q, post.members()));
            assert(quorum_votes_for(l2, t2, q, post.id));
        }
    }
}

/// Handling a `RequestVote` preserves the invariant: a grant records one
/// vote of the node's (new) current term, consistent with anything it had
/// already recorded there; a denial records nothing.
pub proof fn lemma_inv_request_vote(
    pre: RaftNode,
    post: RaftNode,
    from: ServerId,
    args: RequestVoteArgs,
    msgs: Seq<Outbound>,
    committed: Seq<EntryV>,
    ledger: VoteLedger,
)
    requires
        node_inv(pre, ledger),
        request_vote_post(pre, post, from, args, msgs, committed),
    ensures
        pre.would_grant(args) ==> {
            let l2 = ledger.insert((args.term, pre.id), args.candidate_id);
            &&& node_inv(post, l2)
            &&& ledger_extends(l2, ledger)
            &&& new_keys_voted_by(l2, ledger, pre.id)
        },
        !pre.would_grant(args) ==> node_inv(post, ledger),
{
    if pre.would_grant(args) {
        let l2 = ledger.insert((args.term, pre.id), args.candidate_id);
        assert(args.term >= pre.current_term());
        if ledger.contains_key((args.term, pre.id)) {
            assert(args.term == pre.current_term());
            assert(ledger[(args.term, pre.id)] == args.candidate_id);
        }
        assert(ledger_extends(l2, ledger));
        assert forall|t: Term| t > post.current_term() implies !(#[trigger] l2.contains_key((
            t,
            post.id,
        ))) by {
            assert(!ledger.contains_key((t, pre.id)));
        }
    } else {
        if args.term > pre.current_term() {
            assert(!ledger.contains_key((args.term, pre.id)));
        } else {
            assert(post.role == pre.role);
            if post.role is Leader {
                let q = choose|q: Set<ServerId>|
                    is_quorum(q, pre.members()) && quorum_votes_for(
                        ledger,
                        pre.current_term(),
                        q,
                        pre.id,
                    );
                assert(post.members() =~= pre.members());
                assert(is_quorum(q, post.members()));
                assert(quorum_votes_for(ledger, post.current_term(), q, post.id));
            }
            if post.role is Candidate {
                assert forall|v: ServerId| #[trigger]
                    post.role->Candidate_votes_received@.contains(v) implies ledger.contains_key(
                    (post.current_term(), v),
                ) && ledger[(post.current_term(), v)] == post.id by {
                    assert(pre.role->Candidate_votes_received@.contains(v));
                }
            }
        }
    }
}

/// Handling a `RequestVoteResponse` preserves the invariant, under the
/// one fact the transport owes the proof: a counted response reports a
/// vote the ledger really records for this candidate (it was produced by
/// a grant, which recorded exactly that, and the ledger only grows). The
/// ledger itself is untouched: tallying reads votes, it casts none.
pub proof fn lemma_inv_request_vote_response(
    pre: RaftNode,
    post: RaftNode,
    from: ServerId,
    args: RequestVoteResponseArgs,
    msgs: Seq<Outbound>,
    committed: Seq<EntryV>,
    ledger: VoteLedger,
)
    requires
        node_inv(pre, ledger),
        request_vote_response_post(pre, post, from, args, msgs, committed),
        pre.counts_vote(from, args) ==> ledger.contains_key((pre.current_term(), from))
            && ledger[(pre.current_term(), from)] == pre.id,
    ensures
        node_inv(post, ledger),
{
    if args.term > pre.current_term() {
        assert(!ledger.contains_key((args.term, pre.id)));
    } else if pre.counts_vote(from, args) {
        let t = pre.current_term();
        let votes = pre.role->Candidate_votes_received@;
        let t_votes = tally(votes, from);
        assert forall|v: ServerId| #[trigger] t_votes.contains(v) implies ledger.contains_key((
            t,
            v,
        )) && ledger[(t, v)] == pre.id by {
            if votes.contains(v) {
            } else {
                let w = choose|j: int| 0 <= j < t_votes.len() && t_votes[j] == v;
                if w < votes.len() {
                    assert(votes.contains(v));
                } else {
                    assert(v == from);
                }
            }
        }
        if post.role is Leader {
            lemma_new_leader_has_vote_quorum(pre, post, from, args, msgs, committed);
            let q = t_votes.to_set();
            assert forall|v: ServerId| #[trigger] q.contains(v) implies ledger.contains_key((
                t,
                v,
            )) && ledger[(t, v)] == post.id by {
                assert(t_votes.contains(v));
            }
            assert(is_quorum(q, post.members()));
            assert(quorum_votes_for(ledger, post.current_term(), q, post.id));
        } else {
            assert(post.role is Candidate);
            assert(post.role->Candidate_votes_received@ == t_votes);
        }
    }
}

/// Handling an `AppendEntries` preserves the invariant: adopting a leader
/// never casts or changes a vote — a fresh term starts unvoted, and in
/// the same term the node keeps exactly the vote it had (a Candidate its
/// own).
pub proof fn lemma_inv_append_entries(
    pre: RaftNode,
    post: RaftNode,
    from: ServerId,
    args: AppendEntriesArgs,
    msgs: Seq<Outbound>,
    committed: Seq<EntryV>,
    ledger: VoteLedger,
)
    requires
        node_inv(pre, ledger),
        append_entries_post(pre, post, from, args, msgs, committed),
    ensures
        node_inv(post, ledger),
{
    if !pre.ae_stale(args) {
        if args.term > pre.current_term() {
            assert(!ledger.contains_key((args.term, pre.id)));
        }
    }
}

/// Handling an `AppendEntriesResponse` preserves the invariant: a leader
/// stays the leader the same quorum elected, and a greater term reverts
/// the node to an unvoted Follower.
pub proof fn lemma_inv_append_entries_response(
    pre: RaftNode,
    post: RaftNode,
    from: ServerId,
    args: AppendEntriesResponseArgs,
    msgs: Seq<Outbound>,
    committed: Seq<EntryV>,
    ledger: VoteLedger,
)
    requires
        node_inv(pre, ledger),
        append_entries_response_post(pre, post, from, args, msgs, committed),
    ensures
        node_inv(post, ledger),
{
    if args.term > pre.current_term() {
        assert(!ledger.contains_key((args.term, pre.id)));
    } else if pre.aer_relevant(from, args) {
        let q = choose|q: Set<ServerId>|
            is_quorum(q, pre.members()) && quorum_votes_for(
                ledger,
                pre.current_term(),
                q,
                pre.id,
            );
        assert(post.members() =~= pre.members());
        assert(is_quorum(q, post.members()));
        assert(quorum_votes_for(ledger, post.current_term(), q, post.id));
    }
}

/// Events that leave the node's role alone — a heartbeat tick, a client
/// submission — preserve the invariant with the ledger untouched.
pub proof fn lemma_inv_role_preserved(pre: RaftNode, post: RaftNode, ledger: VoteLedger)
    requires
        node_inv(pre, ledger),
        post.wf(),
        post.role == pre.role,
        post.id == pre.id,
        post.peers@ == pre.peers@,
    ensures
        node_inv(post, ledger),
{
    if post.role is Leader {
        let q = choose|q: Set<ServerId>|
            is_quorum(q, pre.members()) && quorum_votes_for(
                ledger,
                pre.current_term(),
                q,
                pre.id,
            );
        assert(post.members() =~= pre.members());
        assert(is_quorum(q, post.members()));
        assert(quorum_votes_for(ledger, post.current_term(), q, post.id));
    }
}

/// Election safety, on whole nodes: two nodes of one cluster that both
/// believe themselves Leader of the same term are the same node. Each owes
/// its title to a quorum of votes of that term recorded in the one ledger
/// every event preserves; quorums overlap, and the common voter voted
/// once.
pub proof fn theorem_at_most_one_leader_per_term(
    n1: RaftNode,
    n2: RaftNode,
    ledger: VoteLedger,
)
    requires
        node_inv(n1, ledger),
        node_inv(n2, ledger),
        n1.role is Leader,
        n2.role is Leader,
        n1.current_term() == n2.current_term(),
        n1.members() == n2.members(),
    ensures
        n1.id == n2.id,
{
    let t = n1.current_term();
    let q1 = choose|q: Set<ServerId>|
        is_quorum(q, n1.members()) && quorum_votes_for(ledger, t, q, n1.id);
    let q2 = choose|q: Set<ServerId>|
        is_quorum(q, n2.members()) && quorum_votes_for(ledger, t, q, n2.id);
    let votes = Map::<ServerId, ServerId>::new(
        |v: ServerId| ledger.contains_key((t, v)),
        |v: ServerId| ledger[(t, v)],
    );
    seq_to_set_is_finite(n1.peers@);
    assert(n1.members().finite());
    assert(quorum_voted_for(votes, n1.id, q1));
    assert(quorum_voted_for(votes, n2.id, q2));
    lemma_election_safety(votes, n1.members(), n1.id, q1, n2.id, q2);
}

} // verus!
