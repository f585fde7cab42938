//! Reminders that fall due at a block height.
//!
//! Anyone creates a reminder with a unique id, a due height and a short note.
//! Its creator may cancel it; once the chain reaches the due height anyone
//! may mark it complete. Anyone reads a reminder or lists all reminder ids.

pub mod contract;
pub mod error;
pub mod laws;
pub mod msg;
pub mod state;
