use vstd::prelude::*;
use crate::store::RecordMap;

verus! {

/// The storage namespace under which the reminders are kept by id.
pub const REMINDERS_NAMESPACE: &'static str = "reminders";

/// The path of the stored reminder type, as a failed load names it.
pub const REMINDER_TYPE: &'static str = "height_contracts::reminders::state::Reminder";

/// The address that instantiated the contract.
#[derive(Clone, Debug, PartialEq)]
pub struct Config {
    pub owner: String,
}

/// A stored reminder.
#[derive(Clone, Debug, PartialEq)]
pub struct Reminder {
    pub id: String,
    pub creator: String,
    pub due_height: u64,
    pub note: String,
    pub completed: bool,
}

/// A reminder as plain values.
pub struct ReminderView {
    pub id: Seq<char>,
    pub creator: Seq<char>,
    pub due_height: u64,
    pub note: Seq<char>,
    pub completed: bool,
}

impl View for Reminder {
    type V = ReminderView;

    open spec fn view(&self) -> ReminderView {
        ReminderView {
            id: self.id@,
            creator: self.creator@,
            due_height: self.due_height,
            note: self.note@,
            completed: self.completed,
        }
    }
}

impl Reminder {
    /// A copy of this reminder.
    pub fn duplicate(&self) -> (r: Self)
        ensures
            r@ == self@,
    {
        Reminder {
            id: self.id.clone(),
            creator: self.creator.clone(),
            due_height: self.due_height,
            note: self.note.clone(),
            completed: self.completed,
        }
    }
}

/// The whole state of the contract: its configuration and its reminders
/// keyed by id.
pub struct State {
    pub config: Config,
    pub reminders: RecordMap<Reminder>,
}

/// The state as plain values.
pub struct StateView {
    pub owner: Seq<char>,
    pub reminders: Map<Seq<char>, ReminderView>,
}

/// Every reminder is stored under its own id.
pub open spec fn keys_match_ids(m: Map<Seq<char>, ReminderView>) -> bool {
    forall|k: Seq<char>| #[trigger] m.contains_key(k) ==> m[k].id == k
}

impl View for State {
    type V = StateView;

    open spec fn view(&self) -> StateView {
        StateView { owner: self.config.owner@, reminders: self.reminders@ }
    }
}

impl State {
    /// The store is well formed and every reminder sits under its id.
    pub open spec fn wf(&self) -> bool {
        self.reminders.wf() && keys_match_ids(self.reminders@)
    }
}

} // verus!
