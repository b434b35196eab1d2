//! Event-triggered fee race: the decision logic of a bot that, on each watched
//! event, races priced variants of one transaction, keeps at most one winner,
//! and reconnects its event stream after failures.

pub mod fees;
pub mod handle;
pub mod gate;
pub mod filter;
pub mod fanout;
pub mod stream;
pub mod decode;
pub mod cycle;
