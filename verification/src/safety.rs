//! The safety laws of the consensus core, stated over the same spec
//! functions the engine's contracts use and proved from them: quorum
//! intersection, election safety, single votes, log matching, leader
//! append-only behaviour and commit monotonicity.

use vstd::prelude::*;
use vstd::seq_lib::seq_to_set_is_finite;
use vstd::set_lib::{lemma_len_subset, lemma_set_disjoint_lens};

use crate::log::{conflict_offset, lemma_merged_at_conflict, lemma_merged_basic, merged};
use crate::node::{
    append_entries_post, append_entries_response_post, best_commit, committable, count_ge,
    is_majority, request_vote_post, request_vote_response_post, tally, up_to_date, RaftNode,
};
use crate::log::term_at;
use crate::types::{EntryV, Message, NodeState, Outbound, RequestVoteArgs, ServerId};

verus! {

/// `q` is a quorum of `members`: a subset counting more than half of them.
pub open spec fn is_quorum(q: Set<ServerId>, members: Set<ServerId>) -> bool {
    &&& q.subset_of(members)
    &&& q.finite()
    &&& 2 * q.len() > members.len()
}

/// Two quorums of one finite membership always share a member: the pigeonhole
/// fact every agreement argument below rests on.
pub proof fn lemma_quorums_intersect(a: Set<ServerId>, b: Set<ServerId>, members: Set<ServerId>)
    requires
        members.finite(),
        is_quorum(a, members),
        is_quorum(b, members),
    ensures
        exists|s: ServerId| a.contains(s) && b.contains(s),
{
    if a.disjoint(b) {
        lemma_set_disjoint_lens(a, b);
        assert((a + b).subset_of(members));
        lemma_len_subset(a + b, members);
        assert(false);
    }
}

/// Every member of `q` has voted for candidate `c` in `votes`, the record
/// of who voted for whom within one term.
pub open spec fn quorum_voted_for(
    votes: Map<ServerId, ServerId>,
    c: ServerId,
    q: Set<ServerId>,
) -> bool {
    forall|v: ServerId| #[trigger]
        q.contains(v) ==> votes.contains_key(v) && votes[v] == c
}

/// Election safety: for any one term, at most one node can believe itself
/// Leader. A node becomes Leader only on a quorum of granted votes of its
/// term (`request_vote_response_post`), and a node's vote in a term is
/// recorded in `voted_for` and never handed to a second candidate
/// (`lemma_one_vote_per_term`); so the votes of a term form a map from
/// voter to candidate, and two leaders of the term would both own quorums
/// of it — which must overlap in a voter who voted for both.
pub proof fn lemma_election_safety(
    votes: Map<ServerId, ServerId>,
    members: Set<ServerId>,
    c1: ServerId,
    q1: Set<ServerId>,
    c2: ServerId,
    q2: Set<ServerId>,
)
    requires
        members.finite(),
        is_quorum(q1, members),
        is_quorum(q2, members),
        quorum_voted_for(votes, c1, q1),
        quorum_voted_for(votes, c2, q2),
    ensures
        c1 == c2,
{
    lemma_quorums_intersect(q1, q2, members);
    let w = choose|s: ServerId| q1.contains(s) && q2.contains(s);
    assert(votes[w] == c1 && votes[w] == c2);
}

/// A node grants at most one candidate per term: granting in its own
/// current term is only possible while it is a Follower whose recorded
/// vote is empty or already names that same candidate — a Candidate or
/// Leader has voted for itself and grants nobody in its term. Granting
/// records the vote (`request_vote_post`), closing the term.
pub proof fn lemma_one_vote_per_term(pre: RaftNode, args: RequestVoteArgs)
    requires
        pre.would_grant(args),
        args.term == pre.current_term(),
    ensures
        pre.role is Follower,
        pre.role matches NodeState::Follower { voted_for: Some(c), .. } ==> c
            == args.candidate_id,
{
}

/// A vote is granted only to a candidate whose log is at least as
/// up-to-date as the voter's own: the half of Leader Completeness that the
/// vote rule contributes.
pub proof fn lemma_granted_vote_is_up_to_date(pre: RaftNode, args: RequestVoteArgs)
    requires
        pre.would_grant(args),
    ensures
        up_to_date(
            args.last_log_term,
            args.last_log_index as int,
            pre.last_log_term(),
            pre.log@.len() as int,
        ),
{
}

/// The quorum half of Leader Completeness: a committed entry is stored by
/// a commit quorum, a new leader is elected by a vote quorum, and the two
/// quorums share a voter — so some node that elected the new leader stores
/// the committed entry.
pub proof fn lemma_commit_quorum_meets_election_quorum(
    stored: Set<ServerId>,
    commit_q: Set<ServerId>,
    vote_q: Set<ServerId>,
    members: Set<ServerId>,
)
    requires
        members.finite(),
        is_quorum(commit_q, members),
        is_quorum(vote_q, members),
        commit_q.subset_of(stored),
    ensures
        exists|w: ServerId| vote_q.contains(w) && stored.contains(w),
{
    lemma_quorums_intersect(commit_q, vote_q, members);
}

/// The Log Matching property between two logs: wherever they carry the
/// same term at the same position, they are identical up through that
/// position.
pub open spec fn logs_match(a: Seq<EntryV>, b: Seq<EntryV>) -> bool {
    forall|i: int| #![trigger a[i].term, b[i].term]
        0 <= i < a.len() && i < b.len() && a[i].term == b[i].term ==> a.take(i + 1) == b.take(
            i + 1,
        )
}

/// Log Matching is preserved by a successful `AppendEntries`: when a
/// follower whose log matches the leader's passes the consistency check at
/// `p` and merges in `entries` cut from the leader's log, the merged log
/// matches the leader's again — and agrees with it outright through the
/// last entry the message covered.
pub proof fn lemma_log_matching_preserved(
    follower: Seq<EntryV>,
    leader: Seq<EntryV>,
    p: int,
    entries: Seq<EntryV>,
)
    requires
        logs_match(follower, leader),
        0 <= p <= follower.len(),
        p + entries.len() <= leader.len(),
        entries == leader.subrange(p, p + entries.len()),
        p > 0 ==> p <= leader.len() && follower[p - 1].term == leader[p - 1].term,
    ensures
        merged(follower, p, entries).take(p + entries.len()) == leader.take(p + entries.len()),
        logs_match(merged(follower, p, entries), leader),
{
    let m = merged(follower, p, entries);
    let k = conflict_offset(follower, p, entries);
    let e = p + entries.len() as int;
    lemma_merged_basic(follower, p, entries);
    lemma_merged_at_conflict(follower, p, entries);
    if p > 0 {
        assert(follower.take(p) == leader.take(p));
    }
    assert forall|i: int| 0 <= i < e implies m[i] == leader[i] by {
        if i < p {
            assert(follower.take(p)[i] == leader.take(p)[i]);
            assert(m[i] == follower[i]);
        } else if i < p + k {
            assert(follower[p + (i - p)].term == entries[i - p].term);
            assert(entries[i - p] == leader.subrange(p, e)[i - p]);
            assert(follower[i].term == leader[i].term);
            assert(follower.take(i + 1) == leader.take(i + 1));
            assert(follower.take(i + 1)[i] == leader.take(i + 1)[i]);
            if k < entries.len() {
                assert(m[i] == (follower.take(p + k) + entries.skip(k))[i]);
                assert(m[i] == follower.take(p + k)[i]);
            } else {
                assert(m[i] == follower[i]);
            }
        } else {
            assert(k < entries.len());
            assert(m[i] == (follower.take(p + k) + entries.skip(k))[i]);
            assert(m[i] == entries.skip(k)[i - p - k]);
            assert(m[i] == entries[i - p]);
            assert(entries[i - p] == leader.subrange(p, e)[i - p]);
        }
    }
    assert(m.take(e) =~= leader.take(e));
    assert forall|i: int|
        0 <= i < m.len() && i < leader.len() && m[i].term == leader[i].term implies m.take(i + 1)
        == leader.take(i + 1) by {
        if i < e {
            assert forall|j: int| 0 <= j < i + 1 implies #[trigger] m.take(i + 1)[j]
                == leader.take(i + 1)[j] by {
                assert(m[j] == leader[j]);
            }
            assert(m.take(i + 1) =~= leader.take(i + 1));
        } else {
            assert(k == entries.len());
            assert(m == follower);
            assert(follower.take(i + 1) == leader.take(i + 1));
        }
    }
}

/// Log Matching, at the engine level: when a follower whose log matches
/// some leader's accepts an `AppendEntries` whose fields were really cut
/// from that leader's log — the shape every replication broadcast of this
/// engine has — its new log matches the leader's again, and agrees with
/// it outright through the acknowledged index.
pub proof fn lemma_replication_preserves_log_matching(
    leader_log: Seq<EntryV>,
    pre: RaftNode,
    post: RaftNode,
    from: ServerId,
    args: crate::types::AppendEntriesArgs,
    msgs: Seq<Outbound>,
    committed: Seq<EntryV>,
)
    requires
        pre.wf(),
        append_entries_post(pre, post, from, args, msgs, committed),
        logs_match(pre.log@, leader_log),
        args.prev_log_index + args.entries@.len() <= leader_log.len(),
        args.prev_log_term == term_at(leader_log, args.prev_log_index as int),
        args.entries.deep_view() == leader_log.subrange(
            args.prev_log_index as int,
            args.prev_log_index + args.entries@.len(),
        ),
        !pre.ae_stale(args),
        pre.ae_log_ok(args),
        pre.ae_guard_ok(args),
    ensures
        logs_match(post.log@, leader_log),
        post.log@.take(args.prev_log_index + args.entries@.len()) == leader_log.take(
            args.prev_log_index + args.entries@.len(),
        ),
{
    let p = args.prev_log_index as int;
    let ev = args.entries.deep_view();
    assert(p == 0 || (1 <= p <= pre.log@.len() && pre.log@[p - 1].term == args.prev_log_term));
    lemma_log_matching_preserved(pre.log@, leader_log, p, ev);
}

/// Leader append-only: no incoming message makes a node that stays Leader
/// change its log at all — only its own `client_submit` extends it, and
/// that appends one entry at the end (its postcondition). Truncation can
/// only happen to a node that has already ceased to be Leader.
pub proof fn lemma_leader_append_only(
    pre: RaftNode,
    post: RaftNode,
    from: ServerId,
    msg: Message,
    msgs: Seq<Outbound>,
    committed: Seq<EntryV>,
)
    requires
        pre.wf(),
        match msg {
            Message::RequestVote(a) => request_vote_post(pre, post, from, a, msgs, committed),
            Message::RequestVoteResponse(a) => request_vote_response_post(
                pre,
                post,
                from,
                a,
                msgs,
                committed,
            ),
            Message::AppendEntries(a) => append_entries_post(pre, post, from, a, msgs, committed),
            Message::AppendEntriesResponse(a) => append_entries_response_post(
                pre,
                post,
                from,
                a,
                msgs,
                committed,
            ),
        },
    ensures
        pre.role is Leader && post.role is Leader ==> post.log@ == pre.log@,
{
}

/// Commit monotonicity: no incoming message ever lowers a node's commit
/// index (timer ticks, elections and client submissions keep it or raise
/// it by their own postconditions).
pub proof fn lemma_commit_monotonic(
    pre: RaftNode,
    post: RaftNode,
    from: ServerId,
    msg: Message,
    msgs: Seq<Outbound>,
    committed: Seq<EntryV>,
)
    requires
        match msg {
            Message::RequestVote(a) => request_vote_post(pre, post, from, a, msgs, committed),
            Message::RequestVoteResponse(a) => request_vote_response_post(
                pre,
                post,
                from,
                a,
                msgs,
                committed,
            ),
            Message::AppendEntries(a) => append_entries_post(pre, post, from, a, msgs, committed),
            Message::AppendEntriesResponse(a) => append_entries_response_post(
                pre,
                post,
                from,
                a,
                msgs,
                committed,
            ),
        },
    ensures
        post.commit_index >= pre.commit_index,
{
}

/// A node's current term never decreases: every message either leaves it
/// or raises it (timer ticks and client submissions leave it, by their own
/// postconditions).
pub proof fn lemma_term_monotonic(
    pre: RaftNode,
    post: RaftNode,
    from: ServerId,
    msg: Message,
    msgs: Seq<Outbound>,
    committed: Seq<EntryV>,
)
    requires
        match msg {
            Message::RequestVote(a) => request_vote_post(pre, post, from, a, msgs, committed),
            Message::RequestVoteResponse(a) => request_vote_response_post(
                pre,
                post,
                from,
                a,
                msgs,
                committed,
            ),
            Message::AppendEntries(a) => append_entries_post(pre, post, from, a, msgs, committed),
            Message::AppendEntriesResponse(a) => append_entries_response_post(
                pre,
                post,
                from,
                a,
                msgs,
                committed,
            ),
        },
    ensures
        post.current_term() >= pre.current_term(),
{
}

/// Committed entries leave the node in strictly increasing index order
/// with no gap and no repetition: each event delivers exactly the log
/// entries between the old and the new delivery mark.
pub proof fn lemma_delivery_in_order(
    pre: RaftNode,
    post: RaftNode,
    from: ServerId,
    msg: Message,
    msgs: Seq<Outbound>,
    committed: Seq<EntryV>,
)
    requires
        pre.wf(),
        match msg {
            Message::RequestVote(a) => request_vote_post(pre, post, from, a, msgs, committed),
            Message::RequestVoteResponse(a) => request_vote_response_post(
                pre,
                post,
                from,
                a,
                msgs,
                committed,
            ),
            Message::AppendEntries(a) => append_entries_post(pre, post, from, a, msgs, committed),
            Message::AppendEntriesResponse(a) => append_entries_response_post(
                pre,
                post,
                from,
                a,
                msgs,
                committed,
            ),
        },
    ensures
        post.last_applied >= pre.last_applied,
        committed == post.log@.subrange(pre.last_applied as int, post.last_applied as int),
{
    match msg {
        Message::RequestVote(_) | Message::RequestVoteResponse(_) => {
            assert(committed =~= post.log@.subrange(
                pre.last_applied as int,
                post.last_applied as int,
            ));
        },
        Message::AppendEntries(a) => {
            if !(!pre.ae_stale(a) && pre.ae_log_ok(a) && pre.ae_guard_ok(a)) {
                assert(committed =~= post.log@.subrange(
                    pre.last_applied as int,
                    post.last_applied as int,
                ));
            }
        },
        Message::AppendEntriesResponse(a) => {
            if !(a.term <= pre.current_term() && pre.aer_relevant(from, a) && a.success
                && a.match_index <= pre.log@.len()) {
                assert(committed =~= post.log@.subrange(
                    pre.last_applied as int,
                    post.last_applied as int,
                ));
            }
        },
    }
}

/// A node that wins an election holds granted votes from a full quorum of
/// the cluster: the recorded voters are distinct members, they include the
/// candidate itself, and they outnumber half the membership. This is the
/// engine-level fact that instantiates `lemma_election_safety`.
pub proof fn lemma_new_leader_has_vote_quorum(
    pre: RaftNode,
    post: RaftNode,
    from: ServerId,
    args: crate::types::RequestVoteResponseArgs,
    msgs: Seq<Outbound>,
    committed: Seq<EntryV>,
)
    requires
        pre.wf(),
        request_vote_response_post(pre, post, from, args, msgs, committed),
        pre.role is Candidate,
        post.role is Leader,
    ensures
        is_quorum(
            tally(pre.role->Candidate_votes_received@, from).to_set(),
            post.members(),
        ),
{
    let votes = pre.role->Candidate_votes_received@;
    let t = tally(votes, from);
    assert(pre.counts_vote(from, args) && is_majority(t.len() as int, pre.cluster_size()));
    assert(t.no_duplicates()) by {
        if !votes.contains(from) {
            assert(forall|j: int| 0 <= j < votes.len() ==> t[j] == votes[j]);
        }
    }
    assert forall|x: ServerId| t.to_set().contains(x) implies pre.members().contains(x) by {
        assert(t.contains(x));
        if !votes.contains(from) && x == from {
            assert(pre.members().contains(from));
        } else {
            let w = choose|j: int| 0 <= j < t.len() && t[j] == x;
            if w < votes.len() {
                assert(votes.contains(x));
            } else {
                assert(x == from);
                assert(pre.members().contains(from));
            }
        }
    }
    t.unique_seq_to_set();
    seq_to_set_is_finite(pre.peers@);
    assert(pre.members().finite());
    pre.peers@.lemma_cardinality_of_set();
    assert(pre.members().len() <= pre.peers@.len() + 1);
    assert(post.members() =~= pre.members());
}

/// The terms along a log never decrease: a leader only appends entries of
/// its own, highest, term.
pub open spec fn terms_nondecreasing(log: Seq<EntryV>) -> bool {
    forall|i: int, j: int|
        0 <= i <= j < log.len() ==> (#[trigger] log[i]).term <= (#[trigger] log[j]).term
}

/// The remaining step of Leader Completeness: a voter that stores an entry
/// and grants a candidate forces the candidate's last log term at least up
/// to the entry's term — the candidate cannot be ignorant of that term's
/// existence.
pub proof fn lemma_voter_entry_bounds_candidate_term(
    voter_log: Seq<EntryV>,
    i: int,
    cand_last_term: crate::types::Term,
    cand_last_index: int,
)
    requires
        terms_nondecreasing(voter_log),
        1 <= i <= voter_log.len(),
        up_to_date(
            cand_last_term,
            cand_last_index,
            term_at(voter_log, voter_log.len() as int),
            voter_log.len() as int,
        ),
    ensures
        cand_last_term >= voter_log[i - 1].term,
{
    assert(voter_log[i - 1].term <= voter_log[voter_log.len() - 1].term);
}

/// Whatever the commit search returns beyond its floor satisfies the
/// commit rule: majority replication of an entry of the leader's own term.
pub proof fn lemma_best_commit_is_committable(
    log: Seq<EntryV>,
    term: crate::types::Term,
    acks: Seq<crate::types::LogIndex>,
    cluster: int,
    floor: int,
    hi: int,
)
    ensures
        best_commit(log, term, acks, cluster, floor, hi) == floor || committable(
            log,
            term,
            acks,
            cluster,
            best_commit(log, term, acks, cluster, floor, hi),
        ),
    decreases hi,
{
    if hi <= floor || hi <= 0 {
    } else if committable(log, term, acks, cluster, hi) {
    } else {
        lemma_best_commit_is_committable(log, term, acks, cluster, floor, hi - 1);
    }
}

/// The peers whose acknowledged index reaches `n`, as a set.
pub open spec fn acked_peers(
    peers: Seq<ServerId>,
    acks: Seq<crate::types::LogIndex>,
    n: int,
) -> Set<ServerId>
    decreases acks.len(),
{
    if acks.len() == 0 || peers.len() == 0 {
        Set::empty()
    } else {
        let rest = acked_peers(peers.drop_last(), acks.drop_last(), n);
        if acks.last() >= n {
            rest.insert(peers.last())
        } else {
            rest
        }
    }
}

/// For distinct peers, the set of acknowledgers is exactly as large as
/// the acknowledgement count, and each of its members really acknowledged.
pub proof fn lemma_acked_peers_props(
    peers: Seq<ServerId>,
    acks: Seq<crate::types::LogIndex>,
    n: int,
)
    requires
        peers.len() == acks.len(),
        peers.no_duplicates(),
    ensures
        acked_peers(peers, acks, n).finite(),
        acked_peers(peers, acks, n).len() == count_ge(acks, n),
        forall|v: ServerId| #[trigger]
            acked_peers(peers, acks, n).contains(v) ==> exists|i: int|
                0 <= i < peers.len() && peers[i] == v && acks[i] >= n,
    decreases acks.len(),
{
    if acks.len() == 0 {
    } else {
        let ps = peers.drop_last();
        let as_ = acks.drop_last();
        assert(ps.no_duplicates());
        lemma_acked_peers_props(ps, as_, n);
        let rest = acked_peers(ps, as_, n);
        assert forall|v: ServerId| #[trigger]
            acked_peers(peers, acks, n).contains(v) implies exists|i: int|
            0 <= i < peers.len() && peers[i] == v && acks[i] >= n by {
            if rest.contains(v) {
                let i = choose|i: int| 0 <= i < ps.len() && ps[i] == v && as_[i] >= n;
                assert(peers[i] == v && acks[i] >= n);
            } else {
                assert(acks.last() >= n && v == peers.last());
                assert(peers[peers.len() - 1] == v && acks[acks.len() - 1] >= n);
            }
        }
        if acks.last() >= n {
            assert(!rest.contains(peers.last())) by {
                if rest.contains(peers.last()) {
                    let i = choose|i: int| 0 <= i < ps.len() && ps[i] == peers.last() && as_[i]
                        >= n;
                    assert(peers[i] == peers[peers.len() - 1]);
                    assert(false);
                }
            }
        }
    }
}

/// Which peers of leader `n` it knows store the log at least through `c`.
pub open spec fn peer_acked(n: RaftNode, v: ServerId, c: int) -> bool {
    exists|i: int|
        0 <= i < n.peers@.len() && n.peers@[i] == v && n.role->Leader_match_index@[i] >= c
}

/// Behind every committable index stands a real commit quorum: the leader
/// itself plus the peers whose acknowledged indices reach it — more than
/// half the cluster — and the entry carries the leader's own term. This
/// is the engine-level fact that instantiates
/// `lemma_commit_quorum_meets_election_quorum`.
pub proof fn lemma_committable_has_quorum(n: RaftNode, c: int)
    requires
        n.wf(),
        n.role is Leader,
        committable(
            n.log@,
            n.current_term(),
            n.role->Leader_match_index@,
            n.cluster_size(),
            c,
        ),
    ensures
        n.log@[c - 1].term == n.current_term(),
        exists|q: Set<ServerId>|
            is_quorum(q, n.members()) && q.contains(n.id) && (forall|v: ServerId|
                #[trigger] q.contains(v) && v != n.id ==> peer_acked(n, v, c)),
{
    let acks = n.role->Leader_match_index@;
    lemma_acked_peers_props(n.peers@, acks, c);
    let q0 = acked_peers(n.peers@, acks, c);
    let q = q0.insert(n.id);
    assert(!q0.contains(n.id)) by {
        if q0.contains(n.id) {
            let i = choose|i: int| 0 <= i < n.peers@.len() && n.peers@[i] == n.id && acks[i] >= c;
            assert(n.peers@.contains(n.id));
        }
    }
    assert(q.len() == count_ge(acks, c) + 1);
    assert(q.subset_of(n.members())) by {
        assert forall|v: ServerId| #[trigger] q.contains(v) implies n.members().contains(v) by {
            if v != n.id {
                let i = choose|i: int|
                    0 <= i < n.peers@.len() && n.peers@[i] == v && acks[i] >= c;
                assert(n.peers@.contains(v));
            }
        }
    }
    seq_to_set_is_finite(n.peers@);
    n.peers@.lemma_cardinality_of_set();
    assert(n.members().len() <= n.peers@.len() + 1);
    assert(is_quorum(q, n.members()));
    assert forall|v: ServerId| #[trigger] q.contains(v) && v != n.id implies peer_acked(
        n,
        v,
        c,
    ) by {
        let i = choose|i: int| 0 <= i < n.peers@.len() && n.peers@[i] == v && acks[i] >= c;
        assert(0 <= i < n.peers@.len() && n.peers@[i] == v && n.role->Leader_match_index@[i]
            >= c);
    }
}

/// When handling an `AppendEntriesResponse` advances the leader's commit
/// index, the newly committed index is replicated on a majority — the
/// leader plus peers whose acknowledged indices reach it — and its entry
/// carries the leader's own term.
pub proof fn lemma_advanced_commit_is_quorum_replicated(
    pre: RaftNode,
    post: RaftNode,
    from: ServerId,
    args: crate::types::AppendEntriesResponseArgs,
    msgs: Seq<Outbound>,
    committed: Seq<EntryV>,
)
    requires
        pre.wf(),
        append_entries_response_post(pre, post, from, args, msgs, committed),
        post.commit_index > pre.commit_index,
    ensures
        post.role is Leader,
        post.log@[post.commit_index - 1].term == post.current_term(),
        exists|q: Set<ServerId>|
            is_quorum(q, post.members()) && q.contains(post.id) && (forall|v: ServerId|
                #[trigger] q.contains(v) && v != post.id ==> peer_acked(
                    post,
                    v,
                    post.commit_index as int,
                )),
{
    assert(args.term <= pre.current_term() && pre.aer_relevant(from, args) && args.success
        && args.match_index <= pre.log@.len());
    let acks = pre.role->Leader_match_index@.update(pre.peers@.index_of(from), args.match_index);
    lemma_best_commit_is_committable(
        pre.log@,
        pre.current_term(),
        acks,
        pre.cluster_size(),
        pre.commit_index as int,
        pre.log@.len() as int,
    );
    assert(committable(
        post.log@,
        post.current_term(),
        post.role->Leader_match_index@,
        post.cluster_size(),
        post.commit_index as int,
    ));
    lemma_committable_has_quorum(post, post.commit_index as int);
}

} // verus!
