//! Properties of the announcement contract that span its operations.

use vstd::prelude::*;
use cosmwasm_std::{Response, StdError};
use crate::chain::{response_attributes, response_is_bare};
use crate::ordering::{key_lt, keys_ascending, lemma_ascending_keys_unique, lemma_key_lt_irreflexive};
use crate::text::{is_blank, lemma_trimmed_empty, trimmed};
use super::contract::{
    active_at, apply_write, archive_outcome, executed_as, is_list_answer, publish_outcome, transfer_outcome, StoreWrite,
};
use super::error::ContractError;
use super::msg::AnnouncementResponse;
use super::state::{keys_match_ids, Announcement, AnnouncementView, Config, StateView};
use crate::store::is_listing_of;

verus! {

/// Anyone but the owner is refused, with `Unauthorized`, whatever they ask.
pub proof fn law_only_owner_manages(
    s: StateView,
    block_height: u64,
    sender: Seq<char>,
    id: Seq<char>,
    title: Seq<char>,
    body: Seq<char>,
    expires_at: u64,
    new_owner: Seq<char>,
    validation: Result<(), StdError>,
)
    requires
        sender != s.owner,
    ensures
        publish_outcome(s, block_height, sender, id, title, body, expires_at) == Err::<StateView, ContractError>(ContractError::Unauthorized {}),
        archive_outcome(s, sender, id) == Err::<StateView, ContractError>(ContractError::Unauthorized {}),
        transfer_outcome(s, sender, new_owner, validation) == Err::<StateView, ContractError>(ContractError::Unauthorized {}),
{
}

/// A published announcement is then stored under its trimmed id with its
/// trimmed title and body, not archived, and active from the publishing
/// height up to its expiration height; nothing else changes.
pub proof fn law_publish_then_read(
    s: StateView,
    block_height: u64,
    sender: Seq<char>,
    id: Seq<char>,
    title: Seq<char>,
    body: Seq<char>,
    expires_at: u64,
    later: u64,
)
    requires
        publish_outcome(s, block_height, sender, id, title, body, expires_at) is Ok,
        block_height <= later < expires_at,
    ensures
        ({
            let t = publish_outcome(s, block_height, sender, id, title, body, expires_at)->Ok_0;
            let a = t.announcements[trimmed(id)];
            &&& !s.announcements.contains_key(trimmed(id))
            &&& t.announcements.contains_key(trimmed(id))
            &&& a == (AnnouncementView {
                id: trimmed(id),
                title: trimmed(title),
                body: trimmed(body),
                expires_at,
                archived: false,
            })
            &&& active_at(a, later)
            &&& t.owner == s.owner
            &&& forall|k: Seq<char>| k != trimmed(id) ==> (#[trigger] t.announcements.contains_key(k)
                == s.announcements.contains_key(k)) && (s.announcements.contains_key(k) ==> t.announcements[k] == s.announcements[k])
        }),
{
}

/// The owner's publication is refused with `EmptyField` exactly when, the
/// expiration aside, one of the id, the title and the body holds nothing but
/// white space.
pub proof fn law_blank_fields_are_refused(
    s: StateView,
    block_height: u64,
    id: Seq<char>,
    title: Seq<char>,
    body: Seq<char>,
    expires_at: u64,
)
    ensures
        publish_outcome(s, block_height, s.owner, id, title, body, expires_at)
            == Err::<StateView, ContractError>(ContractError::EmptyField {})
            <==> (is_blank(id) || is_blank(title) || is_blank(body)),
{
    lemma_trimmed_empty(id);
    lemma_trimmed_empty(title);
    lemma_trimmed_empty(body);
}

/// Publishing never replaces a stored announcement: an id that is taken is
/// refused with `AnnouncementExists` once the other checks pass.
pub proof fn law_ids_are_never_reused(
    s: StateView,
    block_height: u64,
    id: Seq<char>,
    title: Seq<char>,
    body: Seq<char>,
    expires_at: u64,
)
    requires
        s.announcements.contains_key(trimmed(id)),
        trimmed(id).len() > 0,
        trimmed(title).len() > 0,
        trimmed(body).len() > 0,
        block_height < expires_at,
    ensures
        publish_outcome(s, block_height, s.owner, id, title, body, expires_at) == Err::<StateView, ContractError>(ContractError::AnnouncementExists {}),
{
}

/// An archived announcement is never active again, at any height; archiving
/// keeps its id, title, body and expiration height.
pub proof fn law_archived_is_never_active(s: StateView, sender: Seq<char>, id: Seq<char>, block_height: u64)
    requires
        archive_outcome(s, sender, id) is Ok,
    ensures
        ({
            let t = archive_outcome(s, sender, id)->Ok_0;
            let a = t.announcements[id];
            &&& !active_at(a, block_height)
            &&& a.id == s.announcements[id].id
            &&& a.title == s.announcements[id].title
            &&& a.body == s.announcements[id].body
            &&& a.expires_at == s.announcements[id].expires_at
        }),
{
}

/// Once an announcement is inactive it stays inactive at every later height.
pub proof fn law_inactive_stays_inactive(a: AnnouncementView, block_height: u64, later: u64)
    requires
        !active_at(a, block_height),
        block_height <= later,
    ensures
        !active_at(a, later),
{
}

/// After a transfer the trimmed new owner manages the announcements and the
/// previous owner, unless it is the same address, is refused.
pub proof fn law_transfer_hands_over(
    s: StateView,
    new_owner: Seq<char>,
    validation: Result<(), StdError>,
    block_height: u64,
    id: Seq<char>,
    title: Seq<char>,
    body: Seq<char>,
    expires_at: u64,
)
    requires
        transfer_outcome(s, s.owner, new_owner, validation) is Ok,
    ensures
        ({
            let t = transfer_outcome(s, s.owner, new_owner, validation)->Ok_0;
            &&& t.owner == trimmed(new_owner)
            &&& t.announcements == s.announcements
            &&& s.owner != trimmed(new_owner) ==> publish_outcome(t, block_height, s.owner, id, title, body, expires_at)
                == Err::<StateView, ContractError>(ContractError::Unauthorized {})
            &&& publish_outcome(t, block_height, trimmed(new_owner), id, title, body, expires_at)
                != Err::<StateView, ContractError>(ContractError::Unauthorized {})
        }),
{
}

/// Every operation keeps each announcement stored under its own id.
pub proof fn law_records_keyed_by_id(
    s: StateView,
    block_height: u64,
    sender: Seq<char>,
    id: Seq<char>,
    title: Seq<char>,
    body: Seq<char>,
    expires_at: u64,
    new_owner: Seq<char>,
    validation: Result<(), StdError>,
)
    requires
        keys_match_ids(s.announcements),
    ensures
        publish_outcome(s, block_height, sender, id, title, body, expires_at) is Ok
            ==> keys_match_ids(publish_outcome(s, block_height, sender, id, title, body, expires_at)->Ok_0.announcements),
        archive_outcome(s, sender, id) is Ok ==> keys_match_ids(archive_outcome(s, sender, id)->Ok_0.announcements),
        transfer_outcome(s, sender, new_owner, validation) is Ok
            ==> keys_match_ids(transfer_outcome(s, sender, new_owner, validation)->Ok_0.announcements),
{
}

/// Publishing succeeds exactly when the sender is the owner, none of the
/// id, the title and the body is blank, the expiration height is above the
/// current block height and the trimmed id is free.
pub proof fn law_publish_succeeds_exactly_when(
    s: StateView,
    block_height: u64,
    sender: Seq<char>,
    id: Seq<char>,
    title: Seq<char>,
    body: Seq<char>,
    expires_at: u64,
)
    ensures
        publish_outcome(s, block_height, sender, id, title, body, expires_at) is Ok <==> {
            &&& sender == s.owner
            &&& !is_blank(id)
            &&& !is_blank(title)
            &&& !is_blank(body)
            &&& block_height < expires_at
            &&& !s.announcements.contains_key(trimmed(id))
        },
{
    lemma_trimmed_empty(id);
    lemma_trimmed_empty(title);
    lemma_trimmed_empty(body);
}

/// When the owner publishes non-blank fields, the publication is refused
/// for its expiration exactly when the expiration height is at or below the
/// current block height.
pub proof fn law_publish_needs_future_expiration(
    s: StateView,
    block_height: u64,
    id: Seq<char>,
    title: Seq<char>,
    body: Seq<char>,
    expires_at: u64,
)
    requires
        !is_blank(id),
        !is_blank(title),
        !is_blank(body),
    ensures
        (publish_outcome(s, block_height, s.owner, id, title, body, expires_at)
            == Err::<StateView, ContractError>(ContractError::InvalidExpiration {})) <==> expires_at <= block_height,
        expires_at <= block_height ==> publish_outcome(s, block_height, s.owner, id, title, body, expires_at) is Err,
{
    lemma_trimmed_empty(id);
    lemma_trimmed_empty(title);
    lemma_trimmed_empty(body);
}

/// When the owner publishes non-blank fields that expire above the current
/// height, the only refusal is `AnnouncementExists`, and it comes exactly
/// when the trimmed id is taken; titles and bodies may repeat freely.
pub proof fn law_publish_refused_only_for_taken_id(
    s: StateView,
    block_height: u64,
    id: Seq<char>,
    title: Seq<char>,
    body: Seq<char>,
    expires_at: u64,
)
    requires
        !is_blank(id),
        !is_blank(title),
        !is_blank(body),
        block_height < expires_at,
    ensures
        s.announcements.contains_key(trimmed(id)) ==> publish_outcome(s, block_height, s.owner, id, title, body, expires_at)
            == Err::<StateView, ContractError>(ContractError::AnnouncementExists {}),
        !s.announcements.contains_key(trimmed(id)) ==> publish_outcome(s, block_height, s.owner, id, title, body, expires_at) is Ok,
{
    lemma_trimmed_empty(id);
    lemma_trimmed_empty(title);
    lemma_trimmed_empty(body);
}

/// Archiving succeeds exactly when the owner asks for a stored id, archived
/// or not. The owner asking for an absent id gets `AnnouncementNotFound`.
/// The archived announcement keeps every field but the flag, the rest of the
/// state is unchanged, and archiving it again changes nothing.
pub proof fn law_archive_succeeds_exactly_when(s: StateView, sender: Seq<char>, id: Seq<char>)
    ensures
        archive_outcome(s, sender, id) is Ok <==> sender == s.owner && s.announcements.contains_key(id),
        sender == s.owner && !s.announcements.contains_key(id) ==> archive_outcome(s, sender, id)
            == Err::<StateView, ContractError>(ContractError::AnnouncementNotFound {}),
        archive_outcome(s, sender, id) is Ok ==> ({
            let t = archive_outcome(s, sender, id)->Ok_0;
            &&& t.owner == s.owner
            &&& t.announcements.dom() == s.announcements.dom()
            &&& t.announcements[id].archived
            &&& t.announcements[id].id == s.announcements[id].id
            &&& t.announcements[id].title == s.announcements[id].title
            &&& t.announcements[id].body == s.announcements[id].body
            &&& t.announcements[id].expires_at == s.announcements[id].expires_at
            &&& forall|k: Seq<char>| k != id && #[trigger] s.announcements.contains_key(k)
                ==> t.announcements[k] == s.announcements[k]
            &&& archive_outcome(t, sender, id) == Ok::<StateView, ContractError>(t)
        }),
{
    if archive_outcome(s, sender, id) is Ok {
        let t = archive_outcome(s, sender, id)->Ok_0;
        assert(t.announcements.dom() =~= s.announcements.dom());
        let u = archive_outcome(t, sender, id)->Ok_0;
        assert(u.announcements =~= t.announcements);
    }
}

/// A transfer succeeds exactly when the owner asks and the chain accepts the
/// address, whatever announcements are stored. The new owner is the trimmed
/// address and the announcements are untouched. A rejected address is
/// reported with the chain's own error.
pub proof fn law_transfer_succeeds_exactly_when(
    s: StateView,
    sender: Seq<char>,
    new_owner: Seq<char>,
    validation: Result<(), StdError>,
)
    ensures
        transfer_outcome(s, sender, new_owner, validation) is Ok <==> sender == s.owner && validation is Ok,
        transfer_outcome(s, sender, new_owner, validation) is Ok ==> ({
            let t = transfer_outcome(s, sender, new_owner, validation)->Ok_0;
            &&& t.owner == trimmed(new_owner)
            &&& t.announcements == s.announcements
        }),
        sender == s.owner && validation is Err ==> transfer_outcome(s, sender, new_owner, validation)
            == Err::<StateView, ContractError>(ContractError::Std(validation->Err_0)),
{
}

/// An announcement that is not archived is active below its expiration
/// height and inactive from it on; an archived one is never active.
pub proof fn law_activity_follows_expiration(a: AnnouncementView, block_height: u64)
    ensures
        !a.archived && block_height < a.expires_at ==> active_at(a, block_height),
        a.expires_at <= block_height ==> !active_at(a, block_height),
        a.archived ==> !active_at(a, block_height),
{
}

/// A refused execution returns the refusal and leaves the state as it was;
/// a successful one reaches the promised state, whose one storage write
/// rebuilds it from the old state, and answers with exactly the promised
/// attributes and nothing else.
pub proof fn law_execution_reports_and_persists(
    old_state: StateView,
    new_state: StateView,
    outcome: Result<StateView, ContractError>,
    r: Result<(Response, StoreWrite), ContractError>,
    attributes: Seq<(Seq<char>, Seq<char>)>,
)
    requires
        executed_as(old_state, new_state, outcome, r, attributes),
    ensures
        outcome is Err ==> new_state == old_state && r is Err && r->Err_0 == outcome->Err_0,
        outcome is Ok ==> ({
            &&& r is Ok
            &&& new_state == outcome->Ok_0
            &&& apply_write(old_state, r->Ok_0.1) == new_state
            &&& response_attributes(r->Ok_0.0) == attributes
            &&& response_is_bare(r->Ok_0.0)
        }),
{
}

/// Saving an announcement stores it under its id and changes nothing else;
/// saving the configuration changes only the owner.
pub proof fn law_writes_touch_one_place(s: StateView, a: Announcement, c: Config)
    ensures
        apply_write(s, StoreWrite::SaveAnnouncement(a)).announcements[a.id@] == a@,
        apply_write(s, StoreWrite::SaveAnnouncement(a)).announcements.dom() == s.announcements.dom().insert(a.id@),
        apply_write(s, StoreWrite::SaveAnnouncement(a)).owner == s.owner,
        forall|k: Seq<char>| k != a.id@ && #[trigger] s.announcements.contains_key(k)
            ==> apply_write(s, StoreWrite::SaveAnnouncement(a)).announcements[k] == s.announcements[k],
        apply_write(s, StoreWrite::SaveConfig(c)).owner == c.owner@,
        apply_write(s, StoreWrite::SaveConfig(c)).announcements == s.announcements,
{
    assert(apply_write(s, StoreWrite::SaveAnnouncement(a)).announcements.dom() =~= s.announcements.dom().insert(a.id@));
}

/// An entry of a listing as plain values: the announcement and whether it
/// is active.
pub open spec fn entry_view(r: AnnouncementResponse) -> (AnnouncementView, bool) {
    (r.announcement@, r.active)
}

/// The entries of `s` that are active, in their order.
pub open spec fn active_entries(s: Seq<AnnouncementResponse>) -> Seq<AnnouncementResponse> {
    s.filter(|r: AnnouncementResponse| r.active)
}

/// Keeping the active entries of an ascending listing keeps it ascending,
/// keeps only entries of the listing, and keeps every active one.
#[verifier::spinoff_prover]
#[verifier::rlimit(40)]
proof fn lemma_active_entries(s: Seq<AnnouncementResponse>)
    requires
        forall|i: int, j: int| 0 <= i < j < s.len()
            ==> key_lt(#[trigger] s[i].announcement.id@, #[trigger] s[j].announcement.id@),
    ensures
        ({
            let f = active_entries(s);
            &&& forall|i: int, j: int| 0 <= i < j < f.len()
                ==> key_lt(#[trigger] f[i].announcement.id@, #[trigger] f[j].announcement.id@)
            &&& forall|i: int| 0 <= i < f.len() ==> (#[trigger] f[i]).active
                && exists|j: int| 0 <= j < s.len() && s[j] == f[i]
            &&& forall|j: int| 0 <= j < s.len() && (#[trigger] s[j]).active
                ==> exists|i: int| 0 <= i < f.len() && f[i] == s[j]
        }),
    decreases s.len(),
{
    let f = active_entries(s);
    if s.len() > 0 {
        let t = s.drop_last();
        let last = s.last();
        assert forall|i: int, j: int| 0 <= i < j < t.len()
            implies key_lt(#[trigger] t[i].announcement.id@, #[trigger] t[j].announcement.id@) by {
            assert(t[i] == s[i] && t[j] == s[j]);
        }
        lemma_active_entries(t);
        let ft = active_entries(t);
        assert(f == (if last.active { ft.push(last) } else { ft })) by {
            reveal_with_fuel(Seq::<AnnouncementResponse>::filter, 1);
        }
        if last.active {
            assert forall|i: int| 0 <= i < ft.len() implies key_lt(#[trigger] ft[i].announcement.id@, last.announcement.id@) by {
                let j = choose|j: int| 0 <= j < t.len() && t[j] == ft[i];
                assert(s[j] == t[j]);
                assert(key_lt(s[j].announcement.id@, s[s.len() - 1].announcement.id@));
            }
            assert forall|i: int, j: int| 0 <= i < j < f.len()
                implies key_lt(#[trigger] f[i].announcement.id@, #[trigger] f[j].announcement.id@) by {
                assert(f[i] == ft[i]);
                if j < ft.len() {
                    assert(f[j] == ft[j]);
                }
            }
            assert forall|i: int| 0 <= i < f.len() implies (#[trigger] f[i]).active
                && exists|j: int| 0 <= j < s.len() && s[j] == f[i] by {
                if i == ft.len() {
                    assert(s[s.len() - 1] == f[i]);
                } else {
                    assert(f[i] == ft[i]);
                    let j = choose|j: int| 0 <= j < t.len() && t[j] == ft[i];
                    assert(s[j] == t[j]);
                }
            }
            assert forall|j: int| 0 <= j < s.len() && (#[trigger] s[j]).active
                implies exists|i: int| 0 <= i < f.len() && f[i] == s[j] by {
                if j == s.len() - 1 {
                    assert(f[f.len() - 1] == s[j]);
                } else {
                    assert(t[j] == s[j]);
                    let i = choose|i: int| 0 <= i < ft.len() && ft[i] == t[j];
                    assert(f[i] == ft[i]);
                }
            }
        } else {
            assert forall|i: int| 0 <= i < f.len() implies (#[trigger] f[i]).active
                && exists|j: int| 0 <= j < s.len() && s[j] == f[i] by {
                let j = choose|j: int| 0 <= j < t.len() && t[j] == ft[i];
                assert(s[j] == t[j]);
            }
            assert forall|j: int| 0 <= j < s.len() && (#[trigger] s[j]).active
                implies exists|i: int| 0 <= i < f.len() && f[i] == s[j] by {
                assert(j != s.len() - 1);
                assert(t[j] == s[j]);
            }
        }
    } else {
        assert(f == s) by {
            reveal_with_fuel(Seq::<AnnouncementResponse>::filter, 1);
        }
    }
}

/// The active entries of a full listing answer the active-only query.
proof fn lemma_active_entries_answer(m: Map<Seq<char>, AnnouncementView>, block_height: u64, full: Seq<AnnouncementResponse>)
    requires
        is_list_answer(m, block_height, false, full),
    ensures
        is_list_answer(m, block_height, true, active_entries(full)),
{
    lemma_active_entries(full);
    let f = active_entries(full);
    assert forall|i: int| 0 <= i < f.len() implies {
        &&& m.contains_key(#[trigger] f[i].announcement.id@)
        &&& m[f[i].announcement.id@] == f[i].announcement@
        &&& f[i].active == active_at(f[i].announcement@, block_height)
    } by {
        let j = choose|j: int| 0 <= j < full.len() && full[j] == f[i];
        assert(m.contains_key(full[j].announcement.id@));
    }
    assert forall|k: Seq<char>| #[trigger] m.contains_key(k) && active_at(m[k], block_height)
        implies exists|i: int| 0 <= i < f.len() && f[i].announcement.id@ == k by {
        let j = choose|j: int| 0 <= j < full.len() && full[j].announcement.id@ == k;
        assert(m.contains_key(full[j].announcement.id@));
        assert(full[j].active);
        let i = choose|i: int| 0 <= i < f.len() && f[i] == full[j];
    }
}

/// A full listing has one entry per stored announcement.
proof fn lemma_full_listing_len(m: Map<Seq<char>, AnnouncementView>, block_height: u64, full: Seq<AnnouncementResponse>)
    requires
        is_list_answer(m, block_height, false, full),
    ensures
        full.len() == m.dom().len(),
{
    let ids = full.map_values(|r: AnnouncementResponse| r.announcement.id@);
    assert(ids.no_duplicates()) by {
        assert forall|i: int, j: int| 0 <= i < ids.len() && 0 <= j < ids.len() && i != j implies ids[i] != ids[j] by {
            lemma_key_lt_irreflexive(ids[i]);
            if i < j {
                assert(key_lt(full[i].announcement.id@, full[j].announcement.id@));
            } else {
                assert(key_lt(full[j].announcement.id@, full[i].announcement.id@));
            }
        }
    }
    assert(ids.to_set() =~= m.dom()) by {
        assert forall|k: Seq<char>| ids.to_set().contains(k) implies m.dom().contains(k) by {
            let i = choose|i: int| 0 <= i < ids.len() && ids[i] == k;
            assert(m.contains_key(full[i].announcement.id@));
        }
        assert forall|k: Seq<char>| m.dom().contains(k) implies ids.to_set().contains(k) by {
            assert(m.contains_key(k));
            let i = choose|i: int| 0 <= i < full.len() && full[i].announcement.id@ == k;
            assert(ids[i] == k);
        }
    }
    ids.unique_seq_to_set();
}

/// The active-only listing is the full listing with its inactive entries
/// left out, in the same order; the full listing has one entry per stored
/// announcement.
pub proof fn law_active_listing_is_filtered_full_listing(
    m: Map<Seq<char>, AnnouncementView>,
    block_height: u64,
    active: Seq<AnnouncementResponse>,
    full: Seq<AnnouncementResponse>,
)
    requires
        is_list_answer(m, block_height, true, active),
        is_list_answer(m, block_height, false, full),
    ensures
        active.map_values(|r: AnnouncementResponse| entry_view(r))
            == active_entries(full).map_values(|r: AnnouncementResponse| entry_view(r)),
        full.len() == m.dom().len(),
{
    lemma_active_entries_answer(m, block_height, full);
    let f = active_entries(full);
    law_list_answer_is_unique(m, block_height, true, active, f);
    assert(active.map_values(|r: AnnouncementResponse| entry_view(r))
        =~= f.map_values(|r: AnnouncementResponse| entry_view(r)));
    lemma_full_listing_len(m, block_height, full);
}

/// A list query has one answer: any two answers to the same query hold the
/// same announcements, with the same activity, in the same order.
pub proof fn law_list_answer_is_unique(
    m: Map<Seq<char>, AnnouncementView>,
    block_height: u64,
    active_only: bool,
    s1: Seq<AnnouncementResponse>,
    s2: Seq<AnnouncementResponse>,
)
    requires
        is_list_answer(m, block_height, active_only, s1),
        is_list_answer(m, block_height, active_only, s2),
    ensures
        s1.len() == s2.len(),
        forall|i: int| 0 <= i < s1.len() ==> (#[trigger] s1[i]).announcement@ == s2[i].announcement@
            && s1[i].active == s2[i].active,
{
    let k1 = s1.map_values(|r: AnnouncementResponse| r.announcement.id@);
    let k2 = s2.map_values(|r: AnnouncementResponse| r.announcement.id@);
    assert(keys_ascending(k1)) by {
        assert forall|i: int, j: int| 0 <= i < j < k1.len() implies key_lt(#[trigger] k1[i], #[trigger] k1[j]) by {
            assert(k1[i] == s1[i].announcement.id@ && k1[j] == s1[j].announcement.id@);
        }
    }
    assert(keys_ascending(k2)) by {
        assert forall|i: int, j: int| 0 <= i < j < k2.len() implies key_lt(#[trigger] k2[i], #[trigger] k2[j]) by {
            assert(k2[i] == s2[i].announcement.id@ && k2[j] == s2[j].announcement.id@);
        }
    }
    assert forall|k: Seq<char>| k1.contains(k) <==> k2.contains(k) by {
        if k1.contains(k) {
            let i = choose|i: int| 0 <= i < k1.len() && k1[i] == k;
            assert(s1[i].announcement.id@ == k);
            assert(m.contains_key(k) && (!active_only || active_at(m[k], block_height)));
            let j = choose|j: int| 0 <= j < s2.len() && s2[j].announcement.id@ == k;
            assert(k2[j] == k);
        }
        if k2.contains(k) {
            let j = choose|j: int| 0 <= j < k2.len() && k2[j] == k;
            assert(s2[j].announcement.id@ == k);
            assert(m.contains_key(k) && (!active_only || active_at(m[k], block_height)));
            let i = choose|i: int| 0 <= i < s1.len() && s1[i].announcement.id@ == k;
            assert(k1[i] == k);
        }
    }
    lemma_ascending_keys_unique(k1, k2);
    assert(k1.len() == s1.len() && k2.len() == s2.len());
    assert forall|i: int| 0 <= i < s1.len() implies (#[trigger] s1[i]).announcement@ == s2[i].announcement@
        && s1[i].active == s2[i].active by {
        assert(k1[i] == k2[i]);
        assert(s1[i].announcement.id@ == s2[i].announcement.id@);
    }
}

/// The full listing gives the stored announcements in the order the store
/// ranges over them, ascending by the bytes of their ids.
pub proof fn law_full_listing_follows_store_order(
    m: Map<Seq<char>, AnnouncementView>,
    block_height: u64,
    full: Seq<AnnouncementResponse>,
    entries: Seq<(String, Announcement)>,
)
    requires
        is_list_answer(m, block_height, false, full),
        is_listing_of(entries, m),
    ensures
        full.len() == entries.len(),
        forall|i: int| 0 <= i < full.len() ==> (#[trigger] full[i]).announcement@ == entries[i].1@
            && full[i].announcement.id@ == entries[i].0@,
{
    let k1 = full.map_values(|r: AnnouncementResponse| r.announcement.id@);
    let k2 = entries.map_values(|e: (String, Announcement)| e.0@);
    assert(keys_ascending(k1)) by {
        assert forall|i: int, j: int| 0 <= i < j < k1.len() implies key_lt(#[trigger] k1[i], #[trigger] k1[j]) by {
            assert(k1[i] == full[i].announcement.id@ && k1[j] == full[j].announcement.id@);
        }
    }
    assert(keys_ascending(k2)) by {
        assert forall|i: int, j: int| 0 <= i < j < k2.len() implies key_lt(#[trigger] k2[i], #[trigger] k2[j]) by {
            assert(k2[i] == entries[i].0@ && k2[j] == entries[j].0@);
        }
    }
    assert forall|k: Seq<char>| k1.contains(k) <==> k2.contains(k) by {
        if k1.contains(k) {
            let i = choose|i: int| 0 <= i < k1.len() && k1[i] == k;
            assert(m.contains_key(full[i].announcement.id@));
            let j = choose|j: int| 0 <= j < entries.len() && entries[j].0@ == k;
            assert(k2[j] == k);
        }
        if k2.contains(k) {
            let j = choose|j: int| 0 <= j < k2.len() && k2[j] == k;
            assert(m.contains_key(entries[j].0@));
            let i = choose|i: int| 0 <= i < full.len() && full[i].announcement.id@ == k;
            assert(k1[i] == k);
        }
    }
    lemma_ascending_keys_unique(k1, k2);
    assert(k1.len() == full.len() && k2.len() == entries.len());
    assert forall|i: int| 0 <= i < full.len() implies (#[trigger] full[i]).announcement@ == entries[i].1@
        && full[i].announcement.id@ == entries[i].0@ by {
        assert(k1[i] == k2[i]);
        assert(m.contains_key(entries[i].0@));
    }
}

} // verus!
