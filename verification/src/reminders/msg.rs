use vstd::prelude::*;
use super::state::Reminder;

verus! {

/// Instantiation takes no parameters: the sender is recorded as the owner.
#[derive(Clone, Debug, PartialEq)]
pub struct InstantiateMsg {}

/// The executions the contract offers.
#[derive(Clone, Debug, PartialEq)]
pub enum ExecuteMsg {
    /// Stores a new reminder created by the sender.
    CreateReminder { id: String, due_height: u64, note: String },
    /// Marks a due reminder as completed (anyone).
    CompleteReminder { id: String },
    /// Removes a reminder (its creator only).
    CancelReminder { id: String },
}

/// The queries the contract answers.
#[derive(Clone, Debug, PartialEq)]
pub enum QueryMsg {
    /// One reminder.
    Reminder { id: String },
    /// The ids of all reminders in ascending order.
    ListReminders {},
    /// The owner recorded at instantiation.
    Config {},
}

/// The answer to `QueryMsg::Reminder`.
#[derive(Clone, Debug, PartialEq)]
pub struct ReminderResponse {
    pub reminder: Reminder,
}

/// The answer to `QueryMsg::ListReminders`.
#[derive(Clone, Debug, PartialEq)]
pub struct ListRemindersResponse {
    pub ids: Vec<String>,
}

/// The answer to `QueryMsg::Config`.
#[derive(Clone, Debug, PartialEq)]
pub struct ConfigResponse {
    pub owner: String,
}

/// The answer to any query.
#[derive(Clone, Debug, PartialEq)]
pub enum QueryAnswer {
    Reminder(ReminderResponse),
    ListReminders(ListRemindersResponse),
    Config(ConfigResponse),
}

} // verus!
