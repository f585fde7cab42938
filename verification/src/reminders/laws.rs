//! Properties of the reminder contract that span its operations.

use vstd::prelude::*;
use cosmwasm_std::Response;
use crate::chain::{response_attributes, response_is_bare};
use crate::ordering::{key_lt, keys_ascending, lemma_ascending_keys_unique, lemma_key_lt_irreflexive};
use crate::text::{is_blank, lemma_trimmed_empty, trimmed};
use super::contract::{apply_write, cancel_outcome, complete_outcome, create_outcome, executed_as, is_id_listing, StoreWrite};
use super::error::ContractError;
use super::state::{keys_match_ids, Reminder, ReminderView, StateView};
use crate::store::is_listing_of;

verus! {

/// A created reminder is then stored under its trimmed id, with the sender
/// as creator, its due height, its trimmed note and not completed; nothing
/// else changes.
pub proof fn law_create_then_read(s: StateView, sender: Seq<char>, id: Seq<char>, due_height: u64, note: Seq<char>)
    requires
        create_outcome(s, sender, id, due_height, note) is Ok,
    ensures
        ({
            let t = create_outcome(s, sender, id, due_height, note)->Ok_0;
            &&& !s.reminders.contains_key(trimmed(id))
            &&& t.reminders.contains_key(trimmed(id))
            &&& t.reminders[trimmed(id)] == (ReminderView {
                id: trimmed(id),
                creator: sender,
                due_height,
                note: trimmed(note),
                completed: false,
            })
            &&& t.owner == s.owner
            &&& forall|k: Seq<char>| k != trimmed(id) ==> (#[trigger] t.reminders.contains_key(k)
                == s.reminders.contains_key(k)) && (s.reminders.contains_key(k) ==> t.reminders[k] == s.reminders[k])
        }),
{
}

/// Creating a reminder is refused with `EmptyField` exactly when its id or
/// its note holds nothing but white space.
pub proof fn law_blank_fields_are_refused(s: StateView, sender: Seq<char>, id: Seq<char>, due_height: u64, note: Seq<char>)
    ensures
        create_outcome(s, sender, id, due_height, note) == Err::<StateView, ContractError>(ContractError::EmptyField {})
            <==> (is_blank(id) || is_blank(note)),
{
    lemma_trimmed_empty(id);
    lemma_trimmed_empty(note);
}

/// Creating a reminder succeeds exactly when neither the id nor the note is
/// blank and the trimmed id is free, whoever the sender is; the sender
/// becomes the creator.
pub proof fn law_create_succeeds_exactly_when(s: StateView, sender: Seq<char>, id: Seq<char>, due_height: u64, note: Seq<char>)
    ensures
        create_outcome(s, sender, id, due_height, note) is Ok
            <==> !is_blank(id) && !is_blank(note) && !s.reminders.contains_key(trimmed(id)),
        create_outcome(s, sender, id, due_height, note) is Ok ==> create_outcome(s, sender, id, due_height, note)->Ok_0
            .reminders[trimmed(id)].creator == sender,
{
    lemma_trimmed_empty(id);
    lemma_trimmed_empty(note);
}

/// Completing or cancelling an absent id is refused with
/// `ReminderNotFound`; cancelling succeeds exactly when the creator asks for
/// a stored id.
pub proof fn law_absent_reminders_are_not_found(s: StateView, block_height: u64, sender: Seq<char>, id: Seq<char>)
    ensures
        !s.reminders.contains_key(id) ==> complete_outcome(s, block_height, id)
            == Err::<StateView, ContractError>(ContractError::ReminderNotFound {}),
        !s.reminders.contains_key(id) ==> cancel_outcome(s, sender, id)
            == Err::<StateView, ContractError>(ContractError::ReminderNotFound {}),
        cancel_outcome(s, sender, id) is Ok <==> s.reminders.contains_key(id) && s.reminders[id].creator == sender,
        complete_outcome(s, block_height, id) is Ok
            <==> s.reminders.contains_key(id) && s.reminders[id].due_height <= block_height,
{
}

/// Creating never replaces a stored reminder: a taken id is refused with
/// `ReminderExists` once the id and note are not blank.
pub proof fn law_ids_are_never_reused(s: StateView, sender: Seq<char>, id: Seq<char>, due_height: u64, note: Seq<char>)
    requires
        s.reminders.contains_key(trimmed(id)),
        trimmed(id).len() > 0,
        trimmed(note).len() > 0,
    ensures
        create_outcome(s, sender, id, due_height, note) == Err::<StateView, ContractError>(ContractError::ReminderExists {}),
{
}

/// A stored reminder can be completed exactly when the block height has
/// reached its due height; completing it changes nothing but its flag.
pub proof fn law_complete_exactly_when_due(s: StateView, block_height: u64, id: Seq<char>)
    requires
        s.reminders.contains_key(id),
    ensures
        complete_outcome(s, block_height, id) is Ok <==> s.reminders[id].due_height <= block_height,
        complete_outcome(s, block_height, id) is Err ==> complete_outcome(s, block_height, id)
            == Err::<StateView, ContractError>(ContractError::NotDue {}),
        complete_outcome(s, block_height, id) is Ok ==> complete_outcome(s, block_height, id)->Ok_0.reminders
            == s.reminders.insert(id, ReminderView { completed: true, ..s.reminders[id] }),
{
}

/// Once a reminder is due it stays due: a completion that succeeds at some
/// height succeeds at every later height.
pub proof fn law_due_stays_due(s: StateView, block_height: u64, later: u64, id: Seq<char>)
    requires
        complete_outcome(s, block_height, id) is Ok,
        block_height <= later,
    ensures
        complete_outcome(s, later, id) == complete_outcome(s, block_height, id),
{
}

/// Completing a reminder twice leaves the state as completing it once.
pub proof fn law_complete_is_idempotent(s: StateView, block_height: u64, id: Seq<char>)
    requires
        complete_outcome(s, block_height, id) is Ok,
    ensures
        complete_outcome(complete_outcome(s, block_height, id)->Ok_0, block_height, id)
            == complete_outcome(s, block_height, id),
{
    let t = complete_outcome(s, block_height, id)->Ok_0;
    assert(t.reminders.insert(id, ReminderView { completed: true, ..t.reminders[id] }) =~= t.reminders);
}

/// Only the creator cancels a reminder; a cancelled reminder is gone, and
/// every other reminder stays as it was.
pub proof fn law_only_creator_cancels(s: StateView, sender: Seq<char>, id: Seq<char>)
    requires
        s.reminders.contains_key(id),
    ensures
        sender != s.reminders[id].creator ==> cancel_outcome(s, sender, id)
            == Err::<StateView, ContractError>(ContractError::Unauthorized {}),
        sender == s.reminders[id].creator ==> cancel_outcome(s, sender, id) is Ok,
        cancel_outcome(s, sender, id) is Ok ==> ({
            let t = cancel_outcome(s, sender, id)->Ok_0;
            &&& !t.reminders.contains_key(id)
            &&& forall|k: Seq<char>| k != id ==> (#[trigger] t.reminders.contains_key(k)
                == s.reminders.contains_key(k)) && (s.reminders.contains_key(k) ==> t.reminders[k] == s.reminders[k])
        }),
{
}

/// Every operation keeps each reminder stored under its own id.
pub proof fn law_records_keyed_by_id(
    s: StateView,
    block_height: u64,
    sender: Seq<char>,
    id: Seq<char>,
    due_height: u64,
    note: Seq<char>,
)
    requires
        keys_match_ids(s.reminders),
    ensures
        create_outcome(s, sender, id, due_height, note) is Ok
            ==> keys_match_ids(create_outcome(s, sender, id, due_height, note)->Ok_0.reminders),
        complete_outcome(s, block_height, id) is Ok ==> keys_match_ids(complete_outcome(s, block_height, id)->Ok_0.reminders),
        cancel_outcome(s, sender, id) is Ok ==> keys_match_ids(cancel_outcome(s, sender, id)->Ok_0.reminders),
{
}

/// The id listing has one answer: any two listings of the same reminders
/// hold the same ids in the same order.
pub proof fn law_id_listing_is_unique(m: Map<Seq<char>, ReminderView>, ids1: Seq<String>, ids2: Seq<String>)
    requires
        is_id_listing(m, ids1),
        is_id_listing(m, ids2),
    ensures
        ids1.len() == ids2.len(),
        forall|i: int| 0 <= i < ids1.len() ==> (#[trigger] ids1[i])@ == ids2[i]@,
{
    let k1 = ids1.map_values(|s: String| s@);
    let k2 = ids2.map_values(|s: String| s@);
    assert(keys_ascending(k1)) by {
        assert forall|i: int, j: int| 0 <= i < j < k1.len() implies key_lt(#[trigger] k1[i], #[trigger] k1[j]) by {
            assert(k1[i] == ids1[i]@ && k1[j] == ids1[j]@);
        }
    }
    assert(keys_ascending(k2)) by {
        assert forall|i: int, j: int| 0 <= i < j < k2.len() implies key_lt(#[trigger] k2[i], #[trigger] k2[j]) by {
            assert(k2[i] == ids2[i]@ && k2[j] == ids2[j]@);
        }
    }
    assert forall|k: Seq<char>| k1.contains(k) <==> k2.contains(k) by {
        if k1.contains(k) {
            let i = choose|i: int| 0 <= i < k1.len() && k1[i] == k;
            assert(m.contains_key(ids1[i]@));
            let j = choose|j: int| 0 <= j < ids2.len() && ids2[j]@ == k;
            assert(k2[j] == k);
        }
        if k2.contains(k) {
            let j = choose|j: int| 0 <= j < k2.len() && k2[j] == k;
            assert(m.contains_key(ids2[j]@));
            let i = choose|i: int| 0 <= i < ids1.len() && ids1[i]@ == k;
            assert(k1[i] == k);
        }
    }
    lemma_ascending_keys_unique(k1, k2);
    assert forall|i: int| 0 <= i < ids1.len() implies (#[trigger] ids1[i])@ == ids2[i]@ by {
        assert(k1[i] == k2[i]);
    }
}

/// The id listing has one entry per stored reminder.
pub proof fn law_id_listing_counts_reminders(m: Map<Seq<char>, ReminderView>, ids: Seq<String>)
    requires
        is_id_listing(m, ids),
    ensures
        ids.len() == m.dom().len(),
{
    let keys = ids.map_values(|s: String| s@);
    assert(keys.no_duplicates()) by {
        assert forall|i: int, j: int| 0 <= i < keys.len() && 0 <= j < keys.len() && i != j implies keys[i] != keys[j] by {
            lemma_key_lt_irreflexive(keys[i]);
            if i < j {
                assert(key_lt(ids[i]@, ids[j]@));
            } else {
                assert(key_lt(ids[j]@, ids[i]@));
            }
        }
    }
    assert(keys.to_set() =~= m.dom()) by {
        assert forall|k: Seq<char>| keys.to_set().contains(k) implies m.dom().contains(k) by {
            let i = choose|i: int| 0 <= i < keys.len() && keys[i] == k;
            assert(m.contains_key(ids[i]@));
        }
        assert forall|k: Seq<char>| m.dom().contains(k) implies keys.to_set().contains(k) by {
            assert(m.contains_key(k));
            let i = choose|i: int| 0 <= i < ids.len() && ids[i]@ == k;
            assert(keys[i] == k);
        }
    }
    keys.unique_seq_to_set();
}

/// A refused execution returns the refusal and leaves the state as it was;
/// a successful one reaches the promised state, whose one storage write
/// rebuilds it from the old state, and answers with exactly the promised
/// attributes and nothing else.
pub proof fn law_execution_reports_and_persists(
    old_state: StateView,
    new_state: StateView,
    outcome: Result<StateView, ContractError>,
    r: Result<(Response, StoreWrite), ContractError>,
    attributes: Seq<(Seq<char>, Seq<char>)>,
)
    requires
        executed_as(old_state, new_state, outcome, r, attributes),
    ensures
        outcome is Err ==> new_state == old_state && r is Err && r->Err_0 == outcome->Err_0,
        outcome is Ok ==> ({
            &&& r is Ok
            &&& new_state == outcome->Ok_0
            &&& apply_write(old_state, r->Ok_0.1) == new_state
            &&& response_attributes(r->Ok_0.0) == attributes
            &&& response_is_bare(r->Ok_0.0)
        }),
{
}

/// Saving a reminder stores it under its id and removing one deletes just
/// that id; neither touches anything else.
pub proof fn law_writes_touch_one_place(s: StateView, r: Reminder, id: String)
    ensures
        apply_write(s, StoreWrite::SaveReminder(r)).reminders[r.id@] == r@,
        apply_write(s, StoreWrite::SaveReminder(r)).reminders.dom() == s.reminders.dom().insert(r.id@),
        forall|k: Seq<char>| k != r.id@ && #[trigger] s.reminders.contains_key(k)
            ==> apply_write(s, StoreWrite::SaveReminder(r)).reminders[k] == s.reminders[k],
        apply_write(s, StoreWrite::RemoveReminder(id)).reminders.dom() == s.reminders.dom().remove(id@),
        forall|k: Seq<char>| k != id@ && #[trigger] s.reminders.contains_key(k)
            ==> apply_write(s, StoreWrite::RemoveReminder(id)).reminders[k] == s.reminders[k],
        apply_write(s, StoreWrite::SaveReminder(r)).owner == s.owner,
        apply_write(s, StoreWrite::RemoveReminder(id)).owner == s.owner,
{
    assert(apply_write(s, StoreWrite::SaveReminder(r)).reminders.dom() =~= s.reminders.dom().insert(r.id@));
    assert(apply_write(s, StoreWrite::RemoveReminder(id)).reminders.dom() =~= s.reminders.dom().remove(id@));
}

/// The id listing gives the stored ids in the order the store ranges over
/// them, ascending by their bytes.
pub proof fn law_id_listing_follows_store_order(
    m: Map<Seq<char>, ReminderView>,
    ids: Seq<String>,
    entries: Seq<(String, Reminder)>,
)
    requires
        is_id_listing(m, ids),
        is_listing_of(entries, m),
    ensures
        ids.len() == entries.len(),
        forall|i: int| 0 <= i < ids.len() ==> (#[trigger] ids[i])@ == entries[i].0@,
{
    let k1 = ids.map_values(|s: String| s@);
    let k2 = entries.map_values(|e: (String, Reminder)| e.0@);
    assert(keys_ascending(k1)) by {
        assert forall|i: int, j: int| 0 <= i < j < k1.len() implies key_lt(#[trigger] k1[i], #[trigger] k1[j]) by {
            assert(k1[i] == ids[i]@ && k1[j] == ids[j]@);
        }
    }
    assert(keys_ascending(k2)) by {
        assert forall|i: int, j: int| 0 <= i < j < k2.len() implies key_lt(#[trigger] k2[i], #[trigger] k2[j]) by {
            assert(k2[i] == entries[i].0@ && k2[j] == entries[j].0@);
        }
    }
    assert forall|k: Seq<char>| k1.contains(k) <==> k2.contains(k) by {
        if k1.contains(k) {
            let i = choose|i: int| 0 <= i < k1.len() && k1[i] == k;
            assert(m.contains_key(ids[i]@));
            let j = choose|j: int| 0 <= j < entries.len() && entries[j].0@ == k;
            assert(k2[j] == k);
        }
        if k2.contains(k) {
            let j = choose|j: int| 0 <= j < k2.len() && k2[j] == k;
            assert(m.contains_key(entries[j].0@));
            let i = choose|i: int| 0 <= i < ids.len() && ids[i]@ == k;
            assert(k1[i] == k);
        }
    }
    lemma_ascending_keys_unique(k1, k2);
    assert(k1.len() == ids.len() && k2.len() == entries.len());
    assert forall|i: int| 0 <= i < ids.len() implies (#[trigger] ids[i])@ == entries[i].0@ by {
        assert(k1[i] == k2[i]);
    }
}

} // verus!
