//! A deterministic Raft consensus core, verified with Verus.
//!
//! The heart of the crate is [`node::RaftNode`]: a single-node consensus
//! engine driven purely by explicit events — election timeouts, heartbeat
//! ticks, incoming RPC messages, client commands — and producing explicit
//! outputs: the RPC messages to send and the log entries that became
//! committed. The core never performs I/O and never blocks; networking,
//! persistence, timers and the application consuming committed commands
//! are collaborators of the caller.
//!
//! Each event handler carries a postcondition that pins its behaviour
//! down exactly; [`safety`] and [`ledger`] state and prove the protocol's
//! laws on top of those postconditions: election safety over a ghost vote
//! ledger, single votes per term, log matching, leader append-only
//! behaviour, commit monotonicity and in-order delivery.
//!
//! A few small, self-contained verified modules accompany the core:
//! numeric routines, a dispatch trait, summarising and text formatting,
//! and a sensor-reading decoder.

pub mod types;
pub mod log;
pub mod node;
pub mod safety;
pub mod ledger;
pub mod numeric;
pub mod dispatch;
pub mod summary;
pub mod textfmt;
pub mod sensor;
pub mod users;
pub mod telemetry;
pub mod decision;
