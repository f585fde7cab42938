use cosmwasm_std::testing::MockApi;
use cosmwasm_std::{Api, Response, StdError};
use height_contracts::announcements::contract::{
    execute, instantiate, is_active, query, restore, transfer_target, StoreWrite,
};
use height_contracts::announcements::error::ContractError;
use height_contracts::announcements::msg::{ExecuteMsg, InstantiateMsg, QueryAnswer, QueryMsg};
use height_contracts::announcements::state::{Announcement, State};

/// The block height of a default test environment.
const DEFAULT_HEIGHT: u64 = 12_345;

fn init() -> State {
    instantiate("owner", InstantiateMsg {}).0
}

fn publish(id: &str, expires_at: u64) -> ExecuteMsg {
    ExecuteMsg::Publish {
        id: id.to_string(),
        title: format!("Title {id}"),
        body: format!("Body {id}"),
        expires_at,
    }
}

/// Executes `msg`, asking a mock chain to validate a new owner address the
/// way the contract entry point does.
fn run(
    state: &mut State,
    height: u64,
    sender: &str,
    msg: ExecuteMsg,
) -> Result<(Response, StoreWrite), ContractError> {
    let validation: Result<(), StdError> = match &msg {
        ExecuteMsg::TransferOwnership { new_owner } => {
            MockApi::default().addr_validate(new_owner.trim()).map(|_| ())
        }
        _ => Ok(()),
    };
    execute(state, height, sender, msg, validation)
}

fn attributes(res: &Response) -> Vec<(String, String)> {
    res.attributes
        .iter()
        .map(|a| (a.key.clone(), a.value.clone()))
        .collect()
}

fn pair(k: &str, v: &str) -> (String, String) {
    (k.to_string(), v.to_string())
}

#[test]
fn owner_can_publish_and_query_active_announcement() {
    let mut deps = init();
    run(&mut deps, 10, "owner", publish("maintenance", 20)).unwrap();

    let res = query(
        &deps,
        10,
        QueryMsg::Announcement {
            id: "maintenance".to_string(),
        },
    )
    .unwrap();
    let value = match res {
        QueryAnswer::Announcement(v) => v,
        other => panic!("unexpected answer {other:?}"),
    };
    assert_eq!(value.announcement.id, "maintenance");
    assert!(value.active);
}

#[test]
fn rejects_unauthorized_or_invalid_publish() {
    let mut deps = init();

    let err = run(&mut deps, 10, "intruder", publish("notice", 20)).unwrap_err();
    assert_eq!(err, ContractError::Unauthorized {});

    let err = run(&mut deps, 10, "owner", publish("notice", 10)).unwrap_err();
    assert_eq!(err, ContractError::InvalidExpiration {});

    let err = run(
        &mut deps,
        10,
        "owner",
        ExecuteMsg::Publish {
            id: " ".to_string(),
            title: "title".to_string(),
            body: "body".to_string(),
            expires_at: 20,
        },
    )
    .unwrap_err();
    assert_eq!(err, ContractError::EmptyField {});
}

#[test]
fn blocks_duplicate_ids() {
    let mut deps = init();
    run(&mut deps, 10, "owner", publish("notice", 20)).unwrap();
    let err = run(&mut deps, 10, "owner", publish("notice", 25)).unwrap_err();
    assert_eq!(err, ContractError::AnnouncementExists {});
}

#[test]
fn active_filter_omits_expired_and_archived_announcements() {
    let mut deps = init();
    for (id, expires_at) in [("active", 30), ("expired", 15), ("archived", 30)] {
        run(&mut deps, 10, "owner", publish(id, expires_at)).unwrap();
    }
    run(
        &mut deps,
        10,
        "owner",
        ExecuteMsg::Archive {
            id: "archived".to_string(),
        },
    )
    .unwrap();

    let res = query(
        &deps,
        20,
        QueryMsg::List {
            active_only: Some(true),
        },
    )
    .unwrap();
    let value = match res {
        QueryAnswer::List(v) => v,
        other => panic!("unexpected answer {other:?}"),
    };
    assert_eq!(value.announcements.len(), 1);
    assert_eq!(value.announcements[0].announcement.id, "active");
    assert!(value.announcements[0].active);
}

#[test]
fn ownership_can_be_transferred() {
    let mut deps = init();
    run(
        &mut deps,
        DEFAULT_HEIGHT,
        "owner",
        ExecuteMsg::TransferOwnership {
            new_owner: "new-owner".to_string(),
        },
    )
    .unwrap();

    let res = query(&deps, DEFAULT_HEIGHT, QueryMsg::Config {}).unwrap();
    let value = match res {
        QueryAnswer::Config(v) => v,
        other => panic!("unexpected answer {other:?}"),
    };
    assert_eq!(value.owner, "new-owner");

    let err = run(&mut deps, DEFAULT_HEIGHT, "owner", publish("old-owner-notice", 20)).unwrap_err();
    assert_eq!(err, ContractError::Unauthorized {});
}

#[test]
fn instantiate_records_sender_as_owner() {
    let (state, res) = instantiate("creator", InstantiateMsg {});
    assert_eq!(state.config.owner, "creator");
    assert_eq!(
        attributes(&res),
        vec![pair("method", "instantiate"), pair("owner", "creator")]
    );
    assert!(res.messages.is_empty());
    assert!(res.events.is_empty());
    assert!(res.data.is_none());
}

#[test]
fn publish_trims_fields_and_reports_attributes() {
    let mut deps = init();
    let (res, write) = run(
        &mut deps,
        10,
        "owner",
        ExecuteMsg::Publish {
            id: "  launch\u{3000}".to_string(),
            title: "\tRelease day \n".to_string(),
            body: " Doors open at noon ".to_string(),
            expires_at: 120,
        },
    )
    .unwrap();
    assert_eq!(
        attributes(&res),
        vec![
            pair("action", "publish"),
            pair("id", "launch"),
            pair("expires_at", "120")
        ]
    );
    let expected = Announcement {
        id: "launch".to_string(),
        title: "Release day".to_string(),
        body: "Doors open at noon".to_string(),
        expires_at: 120,
        archived: false,
    };
    match write {
        StoreWrite::SaveAnnouncement(a) => assert_eq!(a, expected),
        other => panic!("unexpected write {other:?}"),
    }
    match query(&deps, 10, QueryMsg::Announcement { id: "launch".to_string() }).unwrap() {
        QueryAnswer::Announcement(v) => assert_eq!(v.announcement, expected),
        other => panic!("unexpected answer {other:?}"),
    }
}

#[test]
fn blank_title_or_body_is_an_empty_field() {
    let mut deps = init();
    let err = run(
        &mut deps,
        10,
        "owner",
        ExecuteMsg::Publish {
            id: "x".to_string(),
            title: "\u{a0}\u{2003}".to_string(),
            body: "body".to_string(),
            expires_at: 20,
        },
    )
    .unwrap_err();
    assert_eq!(err, ContractError::EmptyField {});
    let err = run(
        &mut deps,
        10,
        "owner",
        ExecuteMsg::Publish {
            id: "x".to_string(),
            title: "t".to_string(),
            body: "".to_string(),
            expires_at: 20,
        },
    )
    .unwrap_err();
    assert_eq!(err, ContractError::EmptyField {});
}

#[test]
fn unauthorized_comes_before_other_checks() {
    let mut deps = init();
    let err = run(&mut deps, 10, "intruder", publish(" ", 5)).unwrap_err();
    assert_eq!(err, ContractError::Unauthorized {});
    let err = run(
        &mut deps,
        10,
        "intruder",
        ExecuteMsg::Archive { id: "missing".to_string() },
    )
    .unwrap_err();
    assert_eq!(err, ContractError::Unauthorized {});
}

#[test]
fn archive_of_unknown_id_is_not_found() {
    let mut deps = init();
    let err = run(
        &mut deps,
        10,
        "owner",
        ExecuteMsg::Archive { id: "missing".to_string() },
    )
    .unwrap_err();
    assert_eq!(err, ContractError::AnnouncementNotFound {});
}

#[test]
fn archive_keeps_fields_and_deactivates() {
    let mut deps = init();
    run(&mut deps, 10, "owner", publish("notice", 50)).unwrap();
    let (res, write) = run(
        &mut deps,
        10,
        "owner",
        ExecuteMsg::Archive { id: "notice".to_string() },
    )
    .unwrap();
    assert_eq!(attributes(&res), vec![pair("action", "archive"), pair("id", "notice")]);
    match write {
        StoreWrite::SaveAnnouncement(a) => {
            assert!(a.archived);
            assert_eq!(a.title, "Title notice");
            assert_eq!(a.expires_at, 50);
            assert!(!is_active(&a, 0));
        }
        other => panic!("unexpected write {other:?}"),
    }
    match query(&deps, 10, QueryMsg::Announcement { id: "notice".to_string() }).unwrap() {
        QueryAnswer::Announcement(v) => assert!(!v.active),
        other => panic!("unexpected answer {other:?}"),
    }
}

#[test]
fn expired_announcement_is_inactive_at_and_after_expiry() {
    let a = Announcement {
        id: "n".to_string(),
        title: "t".to_string(),
        body: "b".to_string(),
        expires_at: 20,
        archived: false,
    };
    assert!(is_active(&a, 19));
    assert!(!is_active(&a, 20));
    assert!(!is_active(&a, 21));
}

#[test]
fn missing_announcement_query_is_not_found() {
    let deps = init();
    let err = query(&deps, 10, QueryMsg::Announcement { id: "nothing".to_string() }).unwrap_err();
    assert!(err.to_string().contains("not found"));
    let mut key: Vec<u8> = vec![0, 13];
    key.extend_from_slice(b"announcements");
    key.extend_from_slice(b"nothing");
    let kind = format!(
        "type: {}; key: {:02X?}",
        "height_contracts::announcements::state::Announcement",
        key
    );
    assert_eq!(err, StdError::not_found(kind));
    assert_eq!(
        err.to_string(),
        "type: height_contracts::announcements::state::Announcement; key: [00, 0D, 61, 6E, 6E, 6F, 75, 6E, 63, 65, 6D, 65, 6E, 74, 73, 6E, 6F, 74, 68, 69, 6E, 67] not found"
    );
}

#[test]
fn missing_key_with_wide_characters_is_listed_in_utf8_bytes() {
    let deps = init();
    let err = query(&deps, 10, QueryMsg::Announcement { id: "\u{e9}\u{1f600}".to_string() }).unwrap_err();
    let mut key: Vec<u8> = vec![0, 13];
    key.extend_from_slice(b"announcements");
    key.extend_from_slice("\u{e9}\u{1f600}".as_bytes());
    let kind = format!(
        "type: {}; key: {:02X?}",
        "height_contracts::announcements::state::Announcement",
        key
    );
    assert_eq!(err, StdError::not_found(kind));
}

#[test]
fn transfer_target_is_trimmed_address() {
    assert_eq!(transfer_target("\t next-owner \u{2029}"), "next-owner");
    assert_eq!(transfer_target("plain"), "plain");
}

#[test]
fn execute_responses_carry_only_attributes() {
    let mut deps = init();
    let (res, _) = run(&mut deps, 10, "owner", publish("n", 20)).unwrap();
    assert!(res.messages.is_empty() && res.events.is_empty() && res.data.is_none());
    let (res, _) = run(&mut deps, 10, "owner", ExecuteMsg::Archive { id: "n".to_string() }).unwrap();
    assert!(res.messages.is_empty() && res.events.is_empty() && res.data.is_none());
    let (res, _) = run(
        &mut deps,
        10,
        "owner",
        ExecuteMsg::TransferOwnership { new_owner: "heir".to_string() },
    )
    .unwrap();
    assert!(res.messages.is_empty() && res.events.is_empty() && res.data.is_none());
}

#[test]
fn active_listing_is_full_listing_filtered() {
    let mut deps = init();
    for (id, expires_at) in [("d", 30), ("c", 15), ("b", 30), ("a", 12)] {
        run(&mut deps, 10, "owner", publish(id, expires_at)).unwrap();
    }
    run(&mut deps, 10, "owner", ExecuteMsg::Archive { id: "b".to_string() }).unwrap();
    let list = |active_only: Option<bool>| match query(&deps, 14, QueryMsg::List { active_only }).unwrap() {
        QueryAnswer::List(v) => v.announcements,
        other => panic!("unexpected answer {other:?}"),
    };
    let full = list(None);
    let active = list(Some(true));
    assert_eq!(full.len(), 4);
    let filtered: Vec<_> = full.into_iter().filter(|r| r.active).collect();
    assert_eq!(active, filtered);
    let ids: Vec<&str> = active.iter().map(|r| r.announcement.id.as_str()).collect();
    assert_eq!(ids, vec!["c", "d"]);
}

#[test]
fn full_listing_is_in_byte_order_with_activity() {
    let mut deps = init();
    for id in ["b", "a", "B", "\u{e9}", "ab"] {
        run(&mut deps, 10, "owner", publish(id, 30)).unwrap();
    }
    run(&mut deps, 10, "owner", ExecuteMsg::Archive { id: "a".to_string() }).unwrap();
    let list = match query(&deps, 10, QueryMsg::List { active_only: None }).unwrap() {
        QueryAnswer::List(v) => v,
        other => panic!("unexpected answer {other:?}"),
    };
    let ids: Vec<&str> = list.announcements.iter().map(|r| r.announcement.id.as_str()).collect();
    assert_eq!(ids, vec!["B", "a", "ab", "b", "\u{e9}"]);
    let active: Vec<bool> = list.announcements.iter().map(|r| r.active).collect();
    assert_eq!(active, vec![true, false, true, true, true]);

    let only = match query(&deps, 10, QueryMsg::List { active_only: Some(false) }).unwrap() {
        QueryAnswer::List(v) => v,
        other => panic!("unexpected answer {other:?}"),
    };
    assert_eq!(only, list);
}

#[test]
fn transfer_trims_and_reports_new_owner() {
    let mut deps = init();
    let (res, write) = run(
        &mut deps,
        10,
        "owner",
        ExecuteMsg::TransferOwnership { new_owner: "  successor ".to_string() },
    )
    .unwrap();
    assert_eq!(
        attributes(&res),
        vec![pair("action", "transfer_ownership"), pair("new_owner", "successor")]
    );
    match write {
        StoreWrite::SaveConfig(c) => assert_eq!(c.owner, "successor"),
        other => panic!("unexpected write {other:?}"),
    }
    run(&mut deps, 10, "successor", publish("fresh", 20)).unwrap();
}

#[test]
fn invalid_new_owner_is_a_standard_error() {
    let mut deps = init();
    let err = run(
        &mut deps,
        10,
        "owner",
        ExecuteMsg::TransferOwnership { new_owner: "Xy".to_string() },
    )
    .unwrap_err();
    assert!(matches!(err, ContractError::Std(_)));
    assert_eq!(deps.config.owner, "owner");

    let refused = execute(
        &mut deps,
        10,
        "owner",
        ExecuteMsg::TransferOwnership { new_owner: "whoever".to_string() },
        Err(StdError::generic_err("rejected")),
    )
    .unwrap_err();
    assert_eq!(refused, ContractError::Std(StdError::generic_err("rejected")));
    assert_eq!(deps.config.owner, "owner");
}

#[test]
fn restore_accepts_only_ascending_listings_keyed_by_id() {
    let a = Announcement {
        id: "a".to_string(),
        title: "t".to_string(),
        body: "b".to_string(),
        expires_at: 9,
        archived: false,
    };
    let mut b = a.clone();
    b.id = "b".to_string();
    let state = restore(
        "owner".to_string(),
        vec![("a".to_string(), a.clone()), ("b".to_string(), b.clone())],
    )
    .unwrap();
    match query(&state, 1, QueryMsg::Announcement { id: "b".to_string() }).unwrap() {
        QueryAnswer::Announcement(v) => assert_eq!(v.announcement, b),
        other => panic!("unexpected answer {other:?}"),
    }
    assert!(restore(
        "owner".to_string(),
        vec![("b".to_string(), b.clone()), ("a".to_string(), a.clone())]
    )
    .is_none());
    assert!(restore("owner".to_string(), vec![("c".to_string(), a.clone())]).is_none());
    assert!(restore(
        "owner".to_string(),
        vec![("a".to_string(), a.clone()), ("a".to_string(), a)]
    )
    .is_none());
}
