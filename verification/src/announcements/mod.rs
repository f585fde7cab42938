//! Owner-managed announcements that expire at a chosen block height.
//!
//! The sender of instantiation becomes the owner. Only the owner publishes
//! (an id, a title, a body and an expiration height), archives and hands
//! ownership over. Anyone reads an announcement or lists them, optionally
//! only the active ones: those neither archived nor past their expiration
//! height.

pub mod contract;
pub mod error;
pub mod laws;
pub mod msg;
pub mod state;
