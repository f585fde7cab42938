use vstd::prelude::*;
use super::state::Announcement;

verus! {

/// Instantiation takes no parameters: the sender becomes the owner.
#[derive(Clone, Debug, PartialEq)]
pub struct InstantiateMsg {}

/// The executions the contract offers.
#[derive(Clone, Debug, PartialEq)]
pub enum ExecuteMsg {
    /// Stores a new announcement (owner only).
    Publish { id: String, title: String, body: String, expires_at: u64 },
    /// Marks an announcement as archived (owner only).
    Archive { id: String },
    /// Makes another address the owner (owner only).
    TransferOwnership { new_owner: String },
}

/// The queries the contract answers.
#[derive(Clone, Debug, PartialEq)]
pub enum QueryMsg {
    /// The current owner.
    Config {},
    /// One announcement, with whether it is active.
    Announcement { id: String },
    /// All announcements in ascending id order; only the active ones where
    /// `active_only` is `Some(true)`.
    List { active_only: Option<bool> },
}

/// The answer to `QueryMsg::Config`.
#[derive(Clone, Debug, PartialEq)]
pub struct ConfigResponse {
    pub owner: String,
}

/// An announcement and whether it is active at the queried height.
#[derive(Clone, Debug, PartialEq)]
pub struct AnnouncementResponse {
    pub announcement: Announcement,
    pub active: bool,
}

/// The answer to `QueryMsg::List`.
#[derive(Clone, Debug, PartialEq)]
pub struct ListAnnouncementsResponse {
    pub announcements: Vec<AnnouncementResponse>,
}

/// The answer to any query.
#[derive(Clone, Debug, PartialEq)]
pub enum QueryAnswer {
    Config(ConfigResponse),
    Announcement(AnnouncementResponse),
    List(ListAnnouncementsResponse),
}

} // verus!
