use vstd::prelude::*;

verus! {

/// Why an execution was refused.
#[derive(Debug, PartialEq)]
pub enum ContractError {
    /// An error of the chain's standard library.
    Std(cosmwasm_std::StdError),
    /// A reminder with this id is already stored.
    ReminderExists {},
    /// No reminder is stored under this id.
    ReminderNotFound {},
    /// The block height is below the reminder's due height.
    NotDue {},
    /// The sender did not create this reminder.
    Unauthorized {},
    /// The id or the note is blank.
    EmptyField {},
}

} // verus!
