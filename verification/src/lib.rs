//! A user-space TCP engine: wrapping sequence-number arithmetic, the
//! per-connection protocol state machine, a connection table keyed by
//! four-tuples, and the dispatch logic that routes decoded segments to
//! connections and produces reply segments.

pub mod seqnum;
pub mod conn;
pub mod table;
pub mod dispatch;
pub mod codec;
