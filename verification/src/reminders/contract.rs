use vstd::prelude::*;
use cosmwasm_std::{Response, StdError};
use crate::chain::{add_attribute, missing_record, missing_record_kind, new_response, not_found_error, response_attributes, response_is_bare};
use crate::ordering::key_lt;
use crate::store::{is_listing_of, RecordMap};
use crate::text::{decimal, decimal_text, trim, trimmed};
use super::error::ContractError;
use super::msg::{
    ConfigResponse, ExecuteMsg, InstantiateMsg, ListRemindersResponse, QueryAnswer, QueryMsg,
    ReminderResponse,
};
use super::state::{REMINDER_TYPE, REMINDERS_NAMESPACE, keys_match_ids, Config, Reminder, ReminderView, State, StateView};

verus! {

/// The one change to contract storage that a successful execution makes.
#[derive(Debug)]
pub enum StoreWrite {
    /// The reminder is saved under its id.
    SaveReminder(Reminder),
    /// The reminder under this id is removed.
    RemoveReminder(String),
}

/// The state after `w` is written.
pub open spec fn apply_write(s: StateView, w: StoreWrite) -> StateView {
    match w {
        StoreWrite::SaveReminder(r) => StateView { reminders: s.reminders.insert(r.id@, r@), ..s },
        StoreWrite::RemoveReminder(id) => StateView { reminders: s.reminders.remove(id@), ..s },
    }
}

/// What creating a reminder does to the state, or why it is refused.
pub open spec fn create_outcome(
    s: StateView,
    sender: Seq<char>,
    id: Seq<char>,
    due_height: u64,
    note: Seq<char>,
) -> Result<StateView, ContractError> {
    let id = trimmed(id);
    let note = trimmed(note);
    if id.len() == 0 || note.len() == 0 {
        Err(ContractError::EmptyField {})
    } else if s.reminders.contains_key(id) {
        Err(ContractError::ReminderExists {})
    } else {
        Ok(StateView {
            reminders: s.reminders.insert(
                id,
                ReminderView { id, creator: sender, due_height, note, completed: false },
            ),
            ..s
        })
    }
}

/// What completing a reminder at `block_height` does to the state, or why
/// it is refused.
pub open spec fn complete_outcome(s: StateView, block_height: u64, id: Seq<char>) -> Result<StateView, ContractError> {
    if !s.reminders.contains_key(id) {
        Err(ContractError::ReminderNotFound {})
    } else if block_height < s.reminders[id].due_height {
        Err(ContractError::NotDue {})
    } else {
        Ok(StateView {
            reminders: s.reminders.insert(id, ReminderView { completed: true, ..s.reminders[id] }),
            ..s
        })
    }
}

/// What cancelling a reminder does to the state, or why it is refused.
pub open spec fn cancel_outcome(s: StateView, sender: Seq<char>, id: Seq<char>) -> Result<StateView, ContractError> {
    if !s.reminders.contains_key(id) {
        Err(ContractError::ReminderNotFound {})
    } else if s.reminders[id].creator != sender {
        Err(ContractError::Unauthorized {})
    } else {
        Ok(StateView { reminders: s.reminders.remove(id), ..s })
    }
}

/// `r` is what an execution promised by `outcome` answers: on success the
/// state becomes the outcome, the write produces it and the response carries
/// `attributes` and nothing else; on refusal the error is the outcome's and
/// nothing changes.
pub open spec fn executed_as(
    old_state: StateView,
    new_state: StateView,
    outcome: Result<StateView, ContractError>,
    r: Result<(Response, StoreWrite), ContractError>,
    attributes: Seq<(Seq<char>, Seq<char>)>,
) -> bool {
    match outcome {
        Ok(next) => r is Ok && new_state == next && apply_write(old_state, r->Ok_0.1) == next
            && response_attributes(r->Ok_0.0) == attributes && response_is_bare(r->Ok_0.0),
        Err(e) => r is Err && r->Err_0 == e && new_state == old_state,
    }
}

/// Sets up the contract: the sender is recorded as the owner and no
/// reminder is stored.
pub fn instantiate(sender: &str, msg: InstantiateMsg) -> (r: (State, Response))
    ensures
        r.0.wf(),
        r.0@ == (StateView { owner: sender@, reminders: Map::empty() }),
        response_attributes(r.1) == seq![("method"@, "instantiate"@), ("owner"@, sender@)],
        response_is_bare(r.1),
{
    let owner = sender.to_owned();
    proof {
        reveal_strlit("method");
        reveal_strlit("owner");
    }
    let resp = new_response();
    let resp = add_attribute(resp, "method", "instantiate".to_owned());
    let resp = add_attribute(resp, "owner", owner.clone());
    assert(response_attributes(resp) =~= seq![("method"@, "instantiate"@), ("owner"@, sender@)]);
    let state = State { config: Config { owner }, reminders: RecordMap::new() };
    (state, resp)
}

/// Rebuilds the state from the stored owner and the stored reminders listed
/// in ascending id order; `None` where the listing is not ascending or a
/// reminder is not listed under its own id.
pub fn restore(owner: String, entries: Vec<(String, Reminder)>) -> (r: Option<State>)
    ensures
        r is Some <==> (forall|i: int, j: int| 0 <= i < j < entries@.len()
            ==> key_lt(#[trigger] entries@[i].0@, #[trigger] entries@[j].0@))
            && (forall|i: int| 0 <= i < entries@.len() ==> #[trigger] entries@[i].1.id@ == entries@[i].0@),
        r matches Some(s) ==> s.wf() && s@.owner == owner@ && is_listing_of(entries@, s@.reminders),
{
    let n = entries.len();
    let mut i: usize = 0;
    while i < n
        invariant
            n == entries@.len(),
            i <= n,
            forall|j: int| 0 <= j < i ==> #[trigger] entries@[j].1.id@ == entries@[j].0@,
        decreases n - i,
    {
        if entries[i].1.id != entries[i].0 {
            return None;
        }
        i = i + 1;
    }
    let ghost listing = entries@;
    match RecordMap::from_entries(entries) {
        None => None,
        Some(reminders) => {
            proof {
                let m = reminders@;
                assert forall|k: Seq<char>| #[trigger] m.contains_key(k) implies m[k].id == k by {
                    let j = choose|j: int| 0 <= j < listing.len() && listing[j].0@ == k;
                    assert(m[listing[j].0@] == listing[j].1@);
                }
            }
            Some(State { config: Config { owner }, reminders })
        }
    }
}

/// Creates a reminder with its id and note trimmed; the sender is its
/// creator.
pub fn execute_create_reminder(
    state: &mut State,
    sender: &str,
    id: String,
    due_height: u64,
    note: String,
) -> (r: Result<(Response, StoreWrite), ContractError>)
    requires
        old(state).wf(),
    ensures
        final(state).wf(),
        executed_as(
            old(state)@,
            final(state)@,
            create_outcome(old(state)@, sender@, id@, due_height, note@),
            r,
            seq![("action"@, "create_reminder"@), ("id"@, trimmed(id@)), ("due_height"@, decimal(due_height as nat))],
        ),
{
    let key = trim(id.as_str());
    let note = trim(note.as_str());
    if key.as_str().is_empty() || note.as_str().is_empty() {
        return Err(ContractError::EmptyField {});
    }
    if state.reminders.has(&key) {
        return Err(ContractError::ReminderExists {});
    }
    let reminder = Reminder {
        id: key.clone(),
        creator: sender.to_owned(),
        due_height,
        note,
        completed: false,
    };
    let saved = reminder.duplicate();
    state.reminders.save(key.clone(), reminder);
    proof {
        reveal_strlit("action");
        reveal_strlit("id");
        reveal_strlit("due_height");
    }
    let resp = new_response();
    let resp = add_attribute(resp, "action", "create_reminder".to_owned());
    let resp = add_attribute(resp, "id", key);
    let resp = add_attribute(resp, "due_height", decimal_text(due_height));
    assert(response_attributes(resp) =~= seq![("action"@, "create_reminder"@), ("id"@, trimmed(id@)), ("due_height"@, decimal(due_height as nat))]);
    Ok((resp, StoreWrite::SaveReminder(saved)))
}

/// Marks a reminder completed, by anyone, once `block_height` reaches its
/// due height; the id is taken as given.
pub fn execute_complete_reminder(state: &mut State, block_height: u64, id: String) -> (r: Result<(Response, StoreWrite), ContractError>)
    requires
        old(state).wf(),
    ensures
        final(state).wf(),
        executed_as(
            old(state)@,
            final(state)@,
            complete_outcome(old(state)@, block_height, id@),
            r,
            seq![("action"@, "complete_reminder"@), ("id"@, id@)],
        ),
{
    let mut reminder = match state.reminders.get(&id) {
        None => return Err(ContractError::ReminderNotFound {}),
        Some(found) => found.duplicate(),
    };
    if block_height < reminder.due_height {
        return Err(ContractError::NotDue {});
    }
    reminder.completed = true;
    let saved = reminder.duplicate();
    state.reminders.save(id.clone(), reminder);
    proof {
        reveal_strlit("action");
        reveal_strlit("id");
    }
    let resp = new_response();
    let resp = add_attribute(resp, "action", "complete_reminder".to_owned());
    let resp = add_attribute(resp, "id", id);
    assert(response_attributes(resp) =~= seq![("action"@, "complete_reminder"@), ("id"@, id@)]);
    Ok((resp, StoreWrite::SaveReminder(saved)))
}

/// Removes a reminder at the request of its creator; the id is taken as
/// given.
pub fn execute_cancel_reminder(state: &mut State, sender: &str, id: String) -> (r: Result<(Response, StoreWrite), ContractError>)
    requires
        old(state).wf(),
    ensures
        final(state).wf(),
        executed_as(
            old(state)@,
            final(state)@,
            cancel_outcome(old(state)@, sender@, id@),
            r,
            seq![("action"@, "cancel_reminder"@), ("id"@, id@)],
        ),
{
    let sender = sender.to_owned();
    match state.reminders.get(&id) {
        None => return Err(ContractError::ReminderNotFound {}),
        Some(found) => {
            if found.creator != sender {
                return Err(ContractError::Unauthorized {});
            }
        },
    }
    state.reminders.remove(&id);
    proof {
        reveal_strlit("action");
        reveal_strlit("id");
    }
    let resp = new_response();
    let resp = add_attribute(resp, "action", "cancel_reminder".to_owned());
    let resp = add_attribute(resp, "id", id.clone());
    assert(response_attributes(resp) =~= seq![("action"@, "cancel_reminder"@), ("id"@, id@)]);
    Ok((resp, StoreWrite::RemoveReminder(id)))
}

/// The outcome that an execute message asks for.
pub open spec fn execute_outcome(s: StateView, block_height: u64, sender: Seq<char>, msg: ExecuteMsg) -> Result<StateView, ContractError> {
    match msg {
        ExecuteMsg::CreateReminder { id, due_height, note } => create_outcome(s, sender, id@, due_height, note@),
        ExecuteMsg::CompleteReminder { id } => complete_outcome(s, block_height, id@),
        ExecuteMsg::CancelReminder { id } => cancel_outcome(s, sender, id@),
    }
}

/// The response attributes of a successful execution of `msg`.
pub open spec fn execute_attributes(msg: ExecuteMsg) -> Seq<(Seq<char>, Seq<char>)> {
    match msg {
        ExecuteMsg::CreateReminder { id, due_height, .. } =>
            seq![("action"@, "create_reminder"@), ("id"@, trimmed(id@)), ("due_height"@, decimal(due_height as nat))],
        ExecuteMsg::CompleteReminder { id } => seq![("action"@, "complete_reminder"@), ("id"@, id@)],
        ExecuteMsg::CancelReminder { id } => seq![("action"@, "cancel_reminder"@), ("id"@, id@)],
    }
}

/// Executes `msg` sent by `sender` at `block_height`.
pub fn execute(state: &mut State, block_height: u64, sender: &str, msg: ExecuteMsg) -> (r: Result<(Response, StoreWrite), ContractError>)
    requires
        old(state).wf(),
    ensures
        final(state).wf(),
        executed_as(
            old(state)@,
            final(state)@,
            execute_outcome(old(state)@, block_height, sender@, msg),
            r,
            execute_attributes(msg),
        ),
{
    match msg {
        ExecuteMsg::CreateReminder { id, due_height, note } =>
            execute_create_reminder(state, sender, id, due_height, note),
        ExecuteMsg::CompleteReminder { id } => execute_complete_reminder(state, block_height, id),
        ExecuteMsg::CancelReminder { id } => execute_cancel_reminder(state, sender, id),
    }
}

/// One reminder; the not-found error of a `Reminder` where none is stored
/// under `id`.
pub fn query_reminder(state: &State, id: &String) -> (r: Result<ReminderResponse, StdError>)
    requires
        state.wf(),
    ensures
        r is Ok <==> state@.reminders.contains_key(id@),
        r matches Ok(found) ==> found.reminder@ == state@.reminders[id@],
        r matches Err(e) ==> e == not_found_error(missing_record_kind(REMINDER_TYPE@, REMINDERS_NAMESPACE@, id@)),
{
    match state.reminders.get(id) {
        None => Err(missing_record(REMINDER_TYPE, REMINDERS_NAMESPACE, id)),
        Some(found) => Ok(ReminderResponse { reminder: found.duplicate() }),
    }
}

/// `ids` lists every key of `m` once, in ascending order.
pub open spec fn is_id_listing(m: Map<Seq<char>, ReminderView>, ids: Seq<String>) -> bool {
    &&& forall|i: int, j: int| 0 <= i < j < ids.len() ==> key_lt(#[trigger] ids[i]@, #[trigger] ids[j]@)
    &&& forall|i: int| 0 <= i < ids.len() ==> m.contains_key(#[trigger] ids[i]@)
    &&& forall|k: Seq<char>| #[trigger] m.contains_key(k) ==> exists|i: int| 0 <= i < ids.len() && ids[i]@ == k
}

/// The ids of all reminders in ascending order.
pub fn query_reminders(state: &State) -> (r: ListRemindersResponse)
    requires
        state.wf(),
    ensures
        is_id_listing(state@.reminders, r.ids@),
{
    let entries = state.reminders.entries();
    let n = entries.len();
    let mut ids: Vec<String> = Vec::new();
    let mut i: usize = 0;
    while i < n
        invariant
            n == entries@.len(),
            i <= n,
            ids@.len() == i,
            forall|t: int| 0 <= t < i ==> (#[trigger] ids@[t])@ == entries@[t].0@,
        decreases n - i,
    {
        ids.push(entries[i].0.clone());
        i = i + 1;
    }
    proof {
        let m = state@.reminders;
        assert forall|a: int, b: int| 0 <= a < b < ids@.len() implies key_lt(#[trigger] ids@[a]@, #[trigger] ids@[b]@) by {
            assert(ids@[a]@ == entries@[a].0@ && ids@[b]@ == entries@[b].0@);
        }
        assert forall|a: int| 0 <= a < ids@.len() implies m.contains_key(#[trigger] ids@[a]@) by {
            assert(ids@[a]@ == entries@[a].0@);
        }
        assert forall|k: Seq<char>| #[trigger] m.contains_key(k) implies exists|a: int| 0 <= a < ids@.len() && ids@[a]@ == k by {
            let a = choose|a: int| 0 <= a < entries@.len() && entries@[a].0@ == k;
            assert(ids@[a]@ == entries@[a].0@);
        }
    }
    ListRemindersResponse { ids }
}

/// The owner recorded at instantiation.
pub fn query_config(state: &State) -> (r: ConfigResponse)
    ensures
        r.owner@ == state@.owner,
{
    ConfigResponse { owner: state.config.owner.clone() }
}

/// Answers `msg`. Only a reminder query for an id with nothing stored under
/// it fails, with the not-found error of a `Reminder`.
pub fn query(state: &State, msg: QueryMsg) -> (r: Result<QueryAnswer, StdError>)
    requires
        state.wf(),
    ensures
        (msg is Reminder) ==> {
            &&& r is Err <==> !state@.reminders.contains_key(msg->id@)
            &&& r is Err ==> r->Err_0 == not_found_error(missing_record_kind(REMINDER_TYPE@, REMINDERS_NAMESPACE@, msg->id@))
            &&& r is Ok ==> (r->Ok_0 matches QueryAnswer::Reminder(found)
                && found.reminder@ == state@.reminders[msg->id@])
        },
        (msg is ListReminders) ==> (r matches Ok(QueryAnswer::ListReminders(l))
            && is_id_listing(state@.reminders, l.ids@)),
        (msg is Config) ==> (r matches Ok(QueryAnswer::Config(c)) && c.owner@ == state@.owner),
{
    match msg {
        QueryMsg::Reminder { id } => match query_reminder(state, &id) {
            Ok(found) => Ok(QueryAnswer::Reminder(found)),
            Err(e) => Err(e),
        },
        QueryMsg::ListReminders {} => Ok(QueryAnswer::ListReminders(query_reminders(state))),
        QueryMsg::Config {} => Ok(QueryAnswer::Config(query_config(state))),
    }
}

} // verus!
