//! A budgeted conversational relay between a chat transport and a language model.
//!
//! The library holds the decisions: whether a chat is engaged, what the bounded
//! conversation remembers, what a moderation verdict says to the user, how much a
//! request is estimated to cost, and the persistent credit ledger that caps spending.
//! The transport, the HTTP calls and the file on disk live with the caller.

pub mod access;
pub mod ledger;
pub mod moderation;
pub mod relay;
pub mod session;
