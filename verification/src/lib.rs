//! Two block-height driven record contracts, written as verified state
//! machines: owner-managed expiring announcements and user-created height
//! reminders. Storage, message decoding and host calls stay with the caller;
//! every decision the contracts take is made and proved here.

pub mod announcements;
pub mod chain;
pub mod ordering;
pub mod reminders;
pub mod store;
pub mod text;
