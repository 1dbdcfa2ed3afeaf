//! Snapshot of the machine's sockets, attributed to the processes that own
//! them, with a conjunctive filter over the attributed records.
//!
//! The kernel's per-protocol tables are decoded row by row ([`table`]), joined
//! with a handle-to-process index ([`resolver`]) and filtered ([`filter`]).
//! The flags of the command line are read by [`cli`].

pub mod text;
pub mod schemas;
pub mod table;
pub mod resolver;
pub mod filter;
pub mod cli;
pub mod select;
