use vstd::prelude::*;

verus! {

/// Why an execution was refused.
#[derive(Debug, PartialEq)]
pub enum ContractError {
    /// An error of the chain's standard library, such as an invalid address.
    Std(cosmwasm_std::StdError),
    /// The sender is not the owner.
    Unauthorized {},
    /// An announcement with this id is already stored.
    AnnouncementExists {},
    /// No announcement is stored under this id.
    AnnouncementNotFound {},
    /// The id, the title or the body is blank.
    EmptyField {},
    /// The expiration height is not above the current block height.
    InvalidExpiration {},
}

} // verus!
