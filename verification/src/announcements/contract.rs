use vstd::prelude::*;
use cosmwasm_std::{Response, StdError};
use crate::chain::{add_attribute, missing_record, missing_record_kind, new_response, not_found_error, response_attributes, response_is_bare};
use crate::ordering::key_lt;
use crate::store::{is_listing_of, RecordMap};
use crate::text::{decimal, decimal_text, trim, trimmed};
use super::error::ContractError;
use super::msg::{
    AnnouncementResponse, ConfigResponse, ExecuteMsg, InstantiateMsg, ListAnnouncementsResponse,
    QueryAnswer, QueryMsg,
};
use super::state::{ANNOUNCEMENT_TYPE, ANNOUNCEMENTS_NAMESPACE, keys_match_ids, Announcement, AnnouncementView, Config, State, StateView};

verus! {

/// The one change to contract storage that a successful execution makes.
#[derive(Debug)]
pub enum StoreWrite {
    /// The configuration is saved.
    SaveConfig(Config),
    /// The announcement is saved under its id.
    SaveAnnouncement(Announcement),
}

/// The state after `w` is written.
pub open spec fn apply_write(s: StateView, w: StoreWrite) -> StateView {
    match w {
        StoreWrite::SaveConfig(c) => StateView { owner: c.owner@, ..s },
        StoreWrite::SaveAnnouncement(a) => StateView {
            announcements: s.announcements.insert(a.id@, a@),
            ..s
        },
    }
}

/// An announcement is active while it is not archived and the block height
/// is below its expiration height.
pub open spec fn active_at(a: AnnouncementView, block_height: u64) -> bool {
    !a.archived && block_height < a.expires_at
}

/// What publishing does to the state, or why it is refused.
pub open spec fn publish_outcome(
    s: StateView,
    block_height: u64,
    sender: Seq<char>,
    id: Seq<char>,
    title: Seq<char>,
    body: Seq<char>,
    expires_at: u64,
) -> Result<StateView, ContractError> {
    let id = trimmed(id);
    let title = trimmed(title);
    let body = trimmed(body);
    if sender != s.owner {
        Err(ContractError::Unauthorized {})
    } else if id.len() == 0 || title.len() == 0 || body.len() == 0 {
        Err(ContractError::EmptyField {})
    } else if expires_at <= block_height {
        Err(ContractError::InvalidExpiration {})
    } else if s.announcements.contains_key(id) {
        Err(ContractError::AnnouncementExists {})
    } else {
        Ok(StateView {
            announcements: s.announcements.insert(
                id,
                AnnouncementView { id, title, body, expires_at, archived: false },
            ),
            ..s
        })
    }
}

/// What archiving does to the state, or why it is refused.
pub open spec fn archive_outcome(s: StateView, sender: Seq<char>, id: Seq<char>) -> Result<StateView, ContractError> {
    if sender != s.owner {
        Err(ContractError::Unauthorized {})
    } else if !s.announcements.contains_key(id) {
        Err(ContractError::AnnouncementNotFound {})
    } else {
        Ok(StateView {
            announcements: s.announcements.insert(id, AnnouncementView { archived: true, ..s.announcements[id] }),
            ..s
        })
    }
}

/// What a transfer of ownership does to the state, or why it is refused;
/// `validation` is the chain's verdict on the trimmed new owner address.
pub open spec fn transfer_outcome(
    s: StateView,
    sender: Seq<char>,
    new_owner: Seq<char>,
    validation: Result<(), StdError>,
) -> Result<StateView, ContractError> {
    if sender != s.owner {
        Err(ContractError::Unauthorized {})
    } else {
        match validation {
            Err(e) => Err(ContractError::Std(e)),
            Ok(_) => Ok(StateView { owner: trimmed(new_owner), ..s }),
        }
    }
}

/// `r` is what an execution promised by `outcome` answers: on success the
/// state becomes the outcome, the write produces it and the response carries
/// `attributes` and nothing else; on refusal the error is the outcome's and
/// nothing changes.
pub open spec fn executed_as(
    old_state: StateView,
    new_state: StateView,
    outcome: Result<StateView, ContractError>,
    r: Result<(Response, StoreWrite), ContractError>,
    attributes: Seq<(Seq<char>, Seq<char>)>,
) -> bool {
    match outcome {
        Ok(next) => r is Ok && new_state == next && apply_write(old_state, r->Ok_0.1) == next
            && response_attributes(r->Ok_0.0) == attributes && response_is_bare(r->Ok_0.0),
        Err(e) => r is Err && r->Err_0 == e && new_state == old_state,
    }
}

/// Sets up the contract: the sender becomes the owner and no announcement is
/// stored.
pub fn instantiate(sender: &str, msg: InstantiateMsg) -> (r: (State, Response))
    ensures
        r.0.wf(),
        r.0@ == (StateView { owner: sender@, announcements: Map::empty() }),
        response_attributes(r.1) == seq![("method"@, "instantiate"@), ("owner"@, sender@)],
        response_is_bare(r.1),
{
    let owner = sender.to_owned();
    proof {
        reveal_strlit("method");
        reveal_strlit("owner");
    }
    let resp = new_response();
    let resp = add_attribute(resp, "method", "instantiate".to_owned());
    let resp = add_attribute(resp, "owner", owner.clone());
    assert(response_attributes(resp) =~= seq![("method"@, "instantiate"@), ("owner"@, sender@)]);
    let state = State { config: Config { owner }, announcements: RecordMap::new() };
    (state, resp)
}

/// Rebuilds the state from the stored owner and the stored announcements
/// listed in ascending id order; `None` where the listing is not ascending or
/// an announcement is not listed under its own id.
pub fn restore(owner: String, entries: Vec<(String, Announcement)>) -> (r: Option<State>)
    ensures
        r is Some <==> (forall|i: int, j: int| 0 <= i < j < entries@.len()
            ==> key_lt(#[trigger] entries@[i].0@, #[trigger] entries@[j].0@))
            && (forall|i: int| 0 <= i < entries@.len() ==> #[trigger] entries@[i].1.id@ == entries@[i].0@),
        r matches Some(s) ==> s.wf() && s@.owner == owner@ && is_listing_of(entries@, s@.announcements),
{
    let n = entries.len();
    let mut i: usize = 0;
    while i < n
        invariant
            n == entries@.len(),
            i <= n,
            forall|j: int| 0 <= j < i ==> #[trigger] entries@[j].1.id@ == entries@[j].0@,
        decreases n - i,
    {
        if entries[i].1.id != entries[i].0 {
            return None;
        }
        i = i + 1;
    }
    let ghost listing = entries@;
    match RecordMap::from_entries(entries) {
        None => None,
        Some(announcements) => {
            proof {
                let m = announcements@;
                assert forall|k: Seq<char>| #[trigger] m.contains_key(k) implies m[k].id == k by {
                    let j = choose|j: int| 0 <= j < listing.len() && listing[j].0@ == k;
                    assert(m[listing[j].0@] == listing[j].1@);
                }
            }
            Some(State { config: Config { owner }, announcements })
        }
    }
}

/// Refuses every sender but the owner.
fn assert_owner(state: &State, sender: &str) -> (r: Result<(), ContractError>)
    ensures
        r is Ok <==> sender@ == state@.owner,
        r is Err ==> r->Err_0 == (ContractError::Unauthorized {}),
{
    let sender = sender.to_owned();
    if state.config.owner != sender {
        return Err(ContractError::Unauthorized {});
    }
    Ok(())
}

/// Publishes a new announcement, with its id, title and body trimmed.
pub fn execute_publish(
    state: &mut State,
    block_height: u64,
    sender: &str,
    id: String,
    title: String,
    body: String,
    expires_at: u64,
) -> (r: Result<(Response, StoreWrite), ContractError>)
    requires
        old(state).wf(),
    ensures
        final(state).wf(),
        executed_as(
            old(state)@,
            final(state)@,
            publish_outcome(old(state)@, block_height, sender@, id@, title@, body@, expires_at),
            r,
            seq![("action"@, "publish"@), ("id"@, trimmed(id@)), ("expires_at"@, decimal(expires_at as nat))],
        ),
{
    if let Err(e) = assert_owner(state, sender) {
        return Err(e);
    }
    let key = trim(id.as_str());
    let title = trim(title.as_str());
    let body = trim(body.as_str());
    if key.as_str().is_empty() || title.as_str().is_empty() || body.as_str().is_empty() {
        return Err(ContractError::EmptyField {});
    }
    if expires_at <= block_height {
        return Err(ContractError::InvalidExpiration {});
    }
    if state.announcements.has(&key) {
        return Err(ContractError::AnnouncementExists {});
    }
    let announcement = Announcement {
        id: key.clone(),
        title,
        body,
        expires_at,
        archived: false,
    };
    let saved = announcement.duplicate();
    state.announcements.save(key.clone(), announcement);
    proof {
        reveal_strlit("action");
        reveal_strlit("id");
        reveal_strlit("expires_at");
    }
    let resp = new_response();
    let resp = add_attribute(resp, "action", "publish".to_owned());
    let resp = add_attribute(resp, "id", key);
    let resp = add_attribute(resp, "expires_at", decimal_text(expires_at));
    assert(response_attributes(resp) =~= seq![("action"@, "publish"@), ("id"@, trimmed(id@)), ("expires_at"@, decimal(expires_at as nat))]);
    Ok((resp, StoreWrite::SaveAnnouncement(saved)))
}

/// Archives an announcement; the id is taken as given.
pub fn execute_archive(state: &mut State, sender: &str, id: String) -> (r: Result<(Response, StoreWrite), ContractError>)
    requires
        old(state).wf(),
    ensures
        final(state).wf(),
        executed_as(
            old(state)@,
            final(state)@,
            archive_outcome(old(state)@, sender@, id@),
            r,
            seq![("action"@, "archive"@), ("id"@, id@)],
        ),
{
    if let Err(e) = assert_owner(state, sender) {
        return Err(e);
    }
    let mut announcement = match state.announcements.get(&id) {
        None => return Err(ContractError::AnnouncementNotFound {}),
        Some(a) => a.duplicate(),
    };
    announcement.archived = true;
    let saved = announcement.duplicate();
    state.announcements.save(id.clone(), announcement);
    proof {
        reveal_strlit("action");
        reveal_strlit("id");
    }
    let resp = new_response();
    let resp = add_attribute(resp, "action", "archive".to_owned());
    let resp = add_attribute(resp, "id", id);
    assert(response_attributes(resp) =~= seq![("action"@, "archive"@), ("id"@, id@)]);
    Ok((resp, StoreWrite::SaveAnnouncement(saved)))
}

/// The address that a transfer of ownership to `new_owner` hands over to,
/// and that the chain is asked to validate: `new_owner` trimmed.
pub fn transfer_target(new_owner: &str) -> (r: String)
    ensures
        r@ == trimmed(new_owner@),
{
    trim(new_owner)
}

/// Hands ownership to `new_owner`, trimmed. `validation` is the chain's
/// verdict on the trimmed address, consulted only for the owner.
pub fn execute_transfer_ownership(
    state: &mut State,
    sender: &str,
    new_owner: String,
    validation: Result<(), StdError>,
) -> (r: Result<(Response, StoreWrite), ContractError>)
    requires
        old(state).wf(),
    ensures
        final(state).wf(),
        executed_as(
            old(state)@,
            final(state)@,
            transfer_outcome(old(state)@, sender@, new_owner@, validation),
            r,
            seq![("action"@, "transfer_ownership"@), ("new_owner"@, trimmed(new_owner@))],
        ),
{
    if let Err(e) = assert_owner(state, sender) {
        return Err(e);
    }
    let new_owner = transfer_target(new_owner.as_str());
    match validation {
        Err(e) => return Err(ContractError::Std(e)),
        Ok(()) => {},
    }
    state.config.owner = new_owner.clone();
    proof {
        reveal_strlit("action");
        reveal_strlit("new_owner");
    }
    let resp = new_response();
    let resp = add_attribute(resp, "action", "transfer_ownership".to_owned());
    let resp = add_attribute(resp, "new_owner", new_owner.clone());
    assert(response_attributes(resp) =~= seq![("action"@, "transfer_ownership"@), ("new_owner"@, new_owner@)]);
    Ok((resp, StoreWrite::SaveConfig(Config { owner: new_owner })))
}

/// The outcome that an execute message asks for.
pub open spec fn execute_outcome(
    s: StateView,
    block_height: u64,
    sender: Seq<char>,
    msg: ExecuteMsg,
    validation: Result<(), StdError>,
) -> Result<StateView, ContractError> {
    match msg {
        ExecuteMsg::Publish { id, title, body, expires_at } =>
            publish_outcome(s, block_height, sender, id@, title@, body@, expires_at),
        ExecuteMsg::Archive { id } => archive_outcome(s, sender, id@),
        ExecuteMsg::TransferOwnership { new_owner } => transfer_outcome(s, sender, new_owner@, validation),
    }
}

/// The response attributes of a successful execution of `msg`.
pub open spec fn execute_attributes(msg: ExecuteMsg) -> Seq<(Seq<char>, Seq<char>)> {
    match msg {
        ExecuteMsg::Publish { id, expires_at, .. } =>
            seq![("action"@, "publish"@), ("id"@, trimmed(id@)), ("expires_at"@, decimal(expires_at as nat))],
        ExecuteMsg::Archive { id } => seq![("action"@, "archive"@), ("id"@, id@)],
        ExecuteMsg::TransferOwnership { new_owner } =>
            seq![("action"@, "transfer_ownership"@), ("new_owner"@, trimmed(new_owner@))],
    }
}

/// Executes `msg` sent by `sender` at `block_height`. `validation` is the
/// chain's verdict on the trimmed new owner address of a transfer; the other
/// messages ignore it.
pub fn execute(
    state: &mut State,
    block_height: u64,
    sender: &str,
    msg: ExecuteMsg,
    validation: Result<(), StdError>,
) -> (r: Result<(Response, StoreWrite), ContractError>)
    requires
        old(state).wf(),
    ensures
        final(state).wf(),
        executed_as(
            old(state)@,
            final(state)@,
            execute_outcome(old(state)@, block_height, sender@, msg, validation),
            r,
            execute_attributes(msg),
        ),
{
    match msg {
        ExecuteMsg::Publish { id, title, body, expires_at } =>
            execute_publish(state, block_height, sender, id, title, body, expires_at),
        ExecuteMsg::Archive { id } => execute_archive(state, sender, id),
        ExecuteMsg::TransferOwnership { new_owner } =>
            execute_transfer_ownership(state, sender, new_owner, validation),
    }
}

/// Whether an announcement is active at `block_height`.
pub fn is_active(announcement: &Announcement, block_height: u64) -> (r: bool)
    ensures
        r == active_at(announcement@, block_height),
{
    !announcement.archived && block_height < announcement.expires_at
}

/// The current owner.
pub fn query_config(state: &State) -> (r: ConfigResponse)
    ensures
        r.owner@ == state@.owner,
{
    ConfigResponse { owner: state.config.owner.clone() }
}

/// One announcement and whether it is active at `block_height`; the
/// not-found error of an `Announcement` where none is stored under `id`.
pub fn query_announcement(state: &State, block_height: u64, id: &String) -> (r: Result<AnnouncementResponse, StdError>)
    requires
        state.wf(),
    ensures
        r is Ok <==> state@.announcements.contains_key(id@),
        r matches Ok(a) ==> a.announcement@ == state@.announcements[id@]
            && a.active == active_at(a.announcement@, block_height),
        r matches Err(e) ==> e == not_found_error(missing_record_kind(ANNOUNCEMENT_TYPE@, ANNOUNCEMENTS_NAMESPACE@, id@)),
{
    match state.announcements.get(id) {
        None => Err(missing_record(ANNOUNCEMENT_TYPE, ANNOUNCEMENTS_NAMESPACE, id)),
        Some(a) => {
            let announcement = a.duplicate();
            let active = is_active(&announcement, block_height);
            Ok(AnnouncementResponse { announcement, active })
        },
    }
}

/// `s` answers a list query on `m` at `block_height`: in ascending id order,
/// every announcement of `m` (only the active ones where `active_only`), each
/// with whether it is active.
pub open spec fn is_list_answer(
    m: Map<Seq<char>, AnnouncementView>,
    block_height: u64,
    active_only: bool,
    s: Seq<AnnouncementResponse>,
) -> bool {
    &&& forall|i: int, j: int| 0 <= i < j < s.len()
        ==> key_lt(#[trigger] s[i].announcement.id@, #[trigger] s[j].announcement.id@)
    &&& forall|i: int| 0 <= i < s.len() ==> {
        &&& m.contains_key(#[trigger] s[i].announcement.id@)
        &&& m[s[i].announcement.id@] == s[i].announcement@
        &&& s[i].active == active_at(s[i].announcement@, block_height)
        &&& active_only ==> s[i].active
    }
    &&& forall|k: Seq<char>| #[trigger] m.contains_key(k) && (!active_only || active_at(m[k], block_height))
        ==> exists|i: int| 0 <= i < s.len() && s[i].announcement.id@ == k
}

/// Whether a list query keeps `a`.
pub open spec fn wanted(a: AnnouncementView, block_height: u64, active_only: bool) -> bool {
    !active_only || active_at(a, block_height)
}

/// All announcements in ascending id order with whether each is active at
/// `block_height`; only the active ones where `active_only`.
pub fn query_list(state: &State, block_height: u64, active_only: bool) -> (r: ListAnnouncementsResponse)
    requires
        state.wf(),
    ensures
        is_list_answer(state@.announcements, block_height, active_only, r.announcements@),
{
    let entries = state.announcements.entries();
    let ghost m = state@.announcements;
    let n = entries.len();
    let mut out: Vec<AnnouncementResponse> = Vec::new();
    let ghost mut picked: Seq<int> = Seq::empty();
    let mut i: usize = 0;
    while i < n
        invariant
            n == entries@.len(),
            i <= n,
            is_listing_of(entries@, m),
            keys_match_ids(m),
            picked.len() == out@.len(),
            forall|t: int| 0 <= t < picked.len() ==> 0 <= #[trigger] picked[t] < i,
            forall|t: int, u: int| 0 <= t < u < picked.len() ==> #[trigger] picked[t] < #[trigger] picked[u],
            forall|t: int| 0 <= t < picked.len() ==> {
                &&& (#[trigger] out@[t]).announcement@ == entries@[picked[t]].1@
                &&& out@[t].active == active_at(out@[t].announcement@, block_height)
                &&& active_only ==> out@[t].active
            },
            forall|j: int| #![trigger entries@[j]] 0 <= j < i && wanted(entries@[j].1@, block_height, active_only)
                ==> picked.contains(j),
        decreases n - i,
    {
        let ghost prev = picked;
        let announcement = entries[i].1.duplicate();
        let active = is_active(&announcement, block_height);
        if !active_only || active {
            out.push(AnnouncementResponse { announcement, active });
            proof {
                picked = picked.push(i as int);
            }
        }
        proof {
            assert forall|j: int| #![trigger entries@[j]] 0 <= j < i + 1 && wanted(entries@[j].1@, block_height, active_only)
                implies picked.contains(j) by {
                if j == i {
                    assert(picked[picked.len() - 1] == j);
                } else {
                    assert(prev.contains(j));
                    let t = choose|t: int| 0 <= t < prev.len() && prev[t] == j;
                    assert(picked[t] == j);
                }
            }
        }
        i = i + 1;
    }
    proof {
        let s = out@;
        assert forall|t: int| 0 <= t < s.len() implies s[t].announcement.id@ == entries@[picked[t]].0@ by {
            assert(m[entries@[picked[t]].0@] == entries@[picked[t]].1@);
        }
        assert forall|t: int, u: int| 0 <= t < u < s.len()
            implies key_lt(#[trigger] s[t].announcement.id@, #[trigger] s[u].announcement.id@) by {
            assert(s[t].announcement.id@ == entries@[picked[t]].0@);
            assert(s[u].announcement.id@ == entries@[picked[u]].0@);
            assert(picked[t] < picked[u]);
        }
        assert forall|t: int| 0 <= t < s.len() implies m.contains_key(#[trigger] s[t].announcement.id@)
            && m[s[t].announcement.id@] == s[t].announcement@ by {
            assert(s[t].announcement.id@ == entries@[picked[t]].0@);
        }
        assert forall|k: Seq<char>| #[trigger] m.contains_key(k) && (!active_only || active_at(m[k], block_height))
            implies exists|t: int| 0 <= t < s.len() && s[t].announcement.id@ == k by {
            let j = choose|j: int| 0 <= j < entries@.len() && entries@[j].0@ == k;
            assert(m[entries@[j].0@] == entries@[j].1@);
            assert(!active_only || active_at(entries@[j].1@, block_height));
            assert(picked.contains(j));
            let t = choose|t: int| 0 <= t < picked.len() && picked[t] == j;
            assert(s[t].announcement.id@ == entries@[picked[t]].0@);
        }
    }
    ListAnnouncementsResponse { announcements: out }
}

/// Answers `msg` at `block_height`. Only an announcement query for an id
/// with nothing stored under it fails, with the not-found error of an
/// `Announcement`.
pub fn query(state: &State, block_height: u64, msg: QueryMsg) -> (r: Result<QueryAnswer, StdError>)
    requires
        state.wf(),
    ensures
        (msg is Config) ==> (r matches Ok(QueryAnswer::Config(c)) && c.owner@ == state@.owner),
        (msg is Announcement) ==> {
            &&& r is Err <==> !state@.announcements.contains_key(msg->id@)
            &&& r is Err ==> r->Err_0 == not_found_error(missing_record_kind(ANNOUNCEMENT_TYPE@, ANNOUNCEMENTS_NAMESPACE@, msg->id@))
            &&& r is Ok ==> (r->Ok_0 matches QueryAnswer::Announcement(a)
                && a.announcement@ == state@.announcements[msg->id@]
                && a.active == active_at(a.announcement@, block_height))
        },
        (msg is List) ==> (r matches Ok(QueryAnswer::List(l))
            && is_list_answer(state@.announcements, block_height, msg->active_only == Some(true), l.announcements@)),
{
    match msg {
        QueryMsg::Config {} => Ok(QueryAnswer::Config(query_config(state))),
        QueryMsg::Announcement { id } => match query_announcement(state, block_height, &id) {
            Ok(a) => Ok(QueryAnswer::Announcement(a)),
            Err(e) => Err(e),
        },
        QueryMsg::List { active_only } => {
            let only_active = match active_only {
                Some(b) => b,
                None => false,
            };
            Ok(QueryAnswer::List(query_list(state, block_height, only_active)))
        },
    }
}

} // verus!
