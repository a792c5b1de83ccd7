//! Verified core of an interactive two-way classifier: candidates are read
//! one per line, an operator picks one of two labels for each, and every
//! decision is routed to the sink configured for its label.

pub mod lines;
pub mod config;
pub mod sink;
pub mod dispatch;
pub mod session;
pub mod laws;
