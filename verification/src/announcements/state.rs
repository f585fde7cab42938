use vstd::prelude::*;
use crate::store::RecordMap;

verus! {

/// The storage namespace under which the announcements are kept by id.
pub const ANNOUNCEMENTS_NAMESPACE: &'static str = "announcements";

/// The path of the stored announcement type, as a failed load names it.
pub const ANNOUNCEMENT_TYPE: &'static str = "height_contracts::announcements::state::Announcement";

/// Who may manage the announcements.
#[derive(Clone, Debug, PartialEq)]
pub struct Config {
    pub owner: String,
}

/// A stored announcement.
#[derive(Clone, Debug, PartialEq)]
pub struct Announcement {
    pub id: String,
    pub title: String,
    pub body: String,
    pub expires_at: u64,
    pub archived: bool,
}

/// An announcement as plain values.
pub struct AnnouncementView {
    pub id: Seq<char>,
    pub title: Seq<char>,
    pub body: Seq<char>,
    pub expires_at: u64,
    pub archived: bool,
}

impl View for Announcement {
    type V = AnnouncementView;

    open spec fn view(&self) -> AnnouncementView {
        AnnouncementView {
            id: self.id@,
            title: self.title@,
            body: self.body@,
            expires_at: self.expires_at,
            archived: self.archived,
        }
    }
}

impl Announcement {
    /// A copy of this announcement.
    pub fn duplicate(&self) -> (r: Self)
        ensures
            r@ == self@,
    {
        Announcement {
            id: self.id.clone(),
            title: self.title.clone(),
            body: self.body.clone(),
            expires_at: self.expires_at,
            archived: self.archived,
        }
    }
}

/// The whole state of the contract: its configuration and its announcements
/// keyed by id.
pub struct State {
    pub config: Config,
    pub announcements: RecordMap<Announcement>,
}

/// The state as plain values.
pub struct StateView {
    pub owner: Seq<char>,
    pub announcements: Map<Seq<char>, AnnouncementView>,
}

/// Every announcement is stored under its own id.
pub open spec fn keys_match_ids(m: Map<Seq<char>, AnnouncementView>) -> bool {
    forall|k: Seq<char>| #[trigger] m.contains_key(k) ==> m[k].id == k
}

impl View for State {
    type V = StateView;

    open spec fn view(&self) -> StateView {
        StateView { owner: self.config.owner@, announcements: self.announcements@ }
    }
}

impl State {
    /// The store is well formed and every announcement sits under its id.
    pub open spec fn wf(&self) -> bool {
        self.announcements.wf() && keys_match_ids(self.announcements@)
    }
}

} // verus!
