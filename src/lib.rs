// A bounded-concurrency load generator for a chat protocol and a two-player
// game protocol: wire codecs, per-session state machines, admission control
// and the aggregation of session outcomes.

pub mod admission;
pub mod chat;
pub mod chat_session;
pub mod decimal;
pub mod game;
pub mod outcome;
pub mod report;
