//! Agenda governance for a validator node: a per-height tally of signed
//! votes, the admission rule for a vote, and the height-fenced advance.
pub mod crypto;
pub mod state;
pub mod governance;
