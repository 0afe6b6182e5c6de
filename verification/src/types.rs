//! The vocabulary of the consensus core: terms, log entries, roles and the
//! RPC messages exchanged between cluster members.

use vstd::prelude::*;

verus! {

/// Logical election epoch; never decreases on a node.
pub type Term = u64;

/// 1-based position in the log; 0 denotes "no entry".
pub type LogIndex = u64;

/// Identifier of a cluster member, unique within the fixed configuration.
pub type ServerId = u64;

/// A single replicated log entry: the command bytes tagged with the term of
/// the leader that created the entry. Its index is its 1-based position in
/// the owning log, which is contiguous from 1.
pub struct LogEntry {
    pub term: Term,
    pub command: Vec<u8>,
}

/// Mathematical abstraction of a [`LogEntry`]: the term together with the
/// command bytes as a sequence.
pub struct EntryV {
    pub term: Term,
    pub command: Seq<u8>,
}

impl View for LogEntry {
    type V = EntryV;

    open spec fn view(&self) -> EntryV {
        EntryV { term: self.term, command: self.command@ }
    }
}

impl DeepView for LogEntry {
    type V = EntryV;

    open spec fn deep_view(&self) -> EntryV {
        self@
    }
}

impl LogEntry {
    /// An explicit copy with a contract (a derived `Clone` would carry none).
    pub fn duplicate(&self) -> (e: LogEntry)
        ensures
            e@ == self@,
    {
        let command = self.command.clone();
        proof {
            assert(command@ =~= self.command@);
        }
        LogEntry { term: self.term, command }
    }
}

/// The role a node currently plays. Exactly one variant is active; the
/// fields that only make sense for a role live inside its variant, so no
/// illegal combination is representable.
///
/// A `Candidate` has voted for itself in `term`; a `Leader` was elected in
/// `term`. `next_index` and `match_index` run parallel to the node's peer
/// list: `next_index[p]` is the next log index to send to peer `p`, and
/// `match_index[p]` the highest index known replicated on `p`.
pub enum NodeState {
    Follower { term: Term, voted_for: Option<ServerId> },
    Candidate { term: Term, votes_received: Vec<ServerId> },
    Leader { term: Term, next_index: Vec<LogIndex>, match_index: Vec<LogIndex> },
}

impl NodeState {
    /// The current term, whatever the role.
    pub open spec fn term(self) -> Term {
        match self {
            NodeState::Follower { term, .. } => term,
            NodeState::Candidate { term, .. } => term,
            NodeState::Leader { term, .. } => term,
        }
    }

    /// Reads the current term out of whichever variant is active.
    pub fn current_term(&self) -> (t: Term)
        ensures
            t == self.term(),
    {
        match self {
            NodeState::Follower { term, .. } => *term,
            NodeState::Candidate { term, .. } => *term,
            NodeState::Leader { term, .. } => *term,
        }
    }
}

/// Arguments of the `RequestVote` RPC: a candidate asks for a vote in
/// `term`, advertising the position of the last entry of its own log.
pub struct RequestVoteArgs {
    pub term: Term,
    pub candidate_id: ServerId,
    pub last_log_index: LogIndex,
    pub last_log_term: Term,
}

/// Reply to `RequestVote`: the responder's term and whether it granted.
pub struct RequestVoteResponseArgs {
    pub term: Term,
    pub vote_granted: bool,
}

/// Arguments of the `AppendEntries` RPC: the leader asks a follower to
/// append `entries` right after position `prev_log_index`, whose term must
/// be `prev_log_term` (0 at the very front of the log). An empty `entries`
/// is a heartbeat. `leader_commit` lets the follower advance its own commit
/// index.
pub struct AppendEntriesArgs {
    pub term: Term,
    pub leader_id: ServerId,
    pub prev_log_index: LogIndex,
    pub prev_log_term: Term,
    pub entries: Vec<LogEntry>,
    pub leader_commit: LogIndex,
}

/// Reply to `AppendEntries`. On success, `match_index` acknowledges the
/// index of the last entry covered by the request. On failure it is a
/// back-off hint: the first index the leader should try next (the first
/// index of the conflicting entry's term, or one past the follower's log
/// when the log was too short), never below 1.
pub struct AppendEntriesResponseArgs {
    pub term: Term,
    pub success: bool,
    pub match_index: LogIndex,
}

/// A message between cluster members, exchanged by value.
pub enum Message {
    RequestVote(RequestVoteArgs),
    RequestVoteResponse(RequestVoteResponseArgs),
    AppendEntries(AppendEntriesArgs),
    AppendEntriesResponse(AppendEntriesResponseArgs),
}

/// An outbound message together with its destination.
pub struct Outbound {
    pub to: ServerId,
    pub msg: Message,
}

/// Everything a single event produces: RPC messages to send (fire and
/// forget) and log entries that became committed by this event, in
/// ascending index order, each delivered exactly once over the node's
/// lifetime.
pub struct StepOutput {
    pub messages: Vec<Outbound>,
    pub committed: Vec<LogEntry>,
}

impl StepOutput {
    /// An output with nothing to send and nothing newly committed.
    pub fn empty() -> (r: StepOutput)
        ensures
            r.messages@.len() == 0,
            r.committed@.len() == 0,
    {
        StepOutput { messages: Vec::new(), committed: Vec::new() }
    }
}

/// Why a client command was not accepted.
#[derive(Debug)]
pub enum SubmitError {
    /// Only the leader accepts commands; the caller should redirect.
    NotLeader,
}

} // verus!
