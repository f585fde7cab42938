use cosmwasm_std::{Response, StdError};
use height_contracts::reminders::contract::{execute, instantiate, query, restore, StoreWrite};
use height_contracts::reminders::error::ContractError;
use height_contracts::reminders::msg::{ExecuteMsg, InstantiateMsg, QueryAnswer, QueryMsg};
use height_contracts::reminders::state::{Reminder, State};

/// The block height of a default test environment.
const DEFAULT_HEIGHT: u64 = 12_345;

fn init() -> State {
    instantiate("owner", InstantiateMsg {}).0
}

fn reminder_of(state: &State, id: &str) -> Reminder {
    match query(state, QueryMsg::Reminder { id: id.to_string() }).unwrap() {
        QueryAnswer::Reminder(v) => v.reminder,
        other => panic!("unexpected answer {other:?}"),
    }
}

fn attributes(res: &Response) -> Vec<(String, String)> {
    res.attributes
        .iter()
        .map(|a| (a.key.clone(), a.value.clone()))
        .collect()
}

fn pair(k: &str, v: &str) -> (String, String) {
    (k.to_string(), v.to_string())
}

#[test]
fn creates_and_queries_reminder() {
    let mut deps = init();
    execute(
        &mut deps,
        DEFAULT_HEIGHT,
        "alice",
        ExecuteMsg::CreateReminder {
            id: "renewal".to_string(),
            due_height: 100,
            note: "Renew validator delegation".to_string(),
        },
    )
    .unwrap();

    let value = reminder_of(&deps, "renewal");
    assert_eq!(value.creator, "alice");
    assert_eq!(value.due_height, 100);
    assert!(!value.completed);
}

#[test]
fn blocks_duplicate_and_empty_reminders() {
    let mut deps = init();
    let msg = ExecuteMsg::CreateReminder {
        id: "renewal".to_string(),
        due_height: 100,
        note: "Renew validator delegation".to_string(),
    };
    execute(&mut deps, DEFAULT_HEIGHT, "alice", msg.clone()).unwrap();
    let err = execute(&mut deps, DEFAULT_HEIGHT, "alice", msg).unwrap_err();
    assert_eq!(err, ContractError::ReminderExists {});

    let err = execute(
        &mut deps,
        DEFAULT_HEIGHT,
        "alice",
        ExecuteMsg::CreateReminder {
            id: " ".to_string(),
            due_height: 100,
            note: "note".to_string(),
        },
    )
    .unwrap_err();
    assert_eq!(err, ContractError::EmptyField {});
}

#[test]
fn completes_only_after_due_height() {
    let mut deps = init();
    execute(
        &mut deps,
        DEFAULT_HEIGHT,
        "alice",
        ExecuteMsg::CreateReminder {
            id: "go-live".to_string(),
            due_height: 25,
            note: "Launch checklist".to_string(),
        },
    )
    .unwrap();

    let err = execute(
        &mut deps,
        24,
        "bob",
        ExecuteMsg::CompleteReminder {
            id: "go-live".to_string(),
        },
    )
    .unwrap_err();
    assert_eq!(err, ContractError::NotDue {});

    execute(
        &mut deps,
        25,
        "bob",
        ExecuteMsg::CompleteReminder {
            id: "go-live".to_string(),
        },
    )
    .unwrap();

    let value = reminder_of(&deps, "go-live");
    assert!(value.completed);
}

#[test]
fn only_creator_can_cancel() {
    let mut deps = init();
    execute(
        &mut deps,
        DEFAULT_HEIGHT,
        "alice",
        ExecuteMsg::CreateReminder {
            id: "tax".to_string(),
            due_height: 30,
            note: "Prepare report".to_string(),
        },
    )
    .unwrap();

    let err = execute(
        &mut deps,
        DEFAULT_HEIGHT,
        "bob",
        ExecuteMsg::CancelReminder {
            id: "tax".to_string(),
        },
    )
    .unwrap_err();
    assert_eq!(err, ContractError::Unauthorized {});

    execute(
        &mut deps,
        DEFAULT_HEIGHT,
        "alice",
        ExecuteMsg::CancelReminder {
            id: "tax".to_string(),
        },
    )
    .unwrap();

    let err = query(
        &deps,
        QueryMsg::Reminder {
            id: "tax".to_string(),
        },
    )
    .unwrap_err();
    assert!(err.to_string().contains("not found"));
}

#[test]
fn lists_reminder_ids() {
    let mut deps = init();
    for id in ["b", "a"] {
        execute(
            &mut deps,
            DEFAULT_HEIGHT,
            "alice",
            ExecuteMsg::CreateReminder {
                id: id.to_string(),
                due_height: 10,
                note: format!("note {id}"),
            },
        )
        .unwrap();
    }

    let value = match query(&deps, QueryMsg::ListReminders {}).unwrap() {
        QueryAnswer::ListReminders(v) => v,
        other => panic!("unexpected answer {other:?}"),
    };
    assert_eq!(value.ids, vec!["a".to_string(), "b".to_string()]);
}

#[test]
fn create_trims_and_reports_attributes() {
    let mut deps = init();
    let (res, write) = execute(
        &mut deps,
        5,
        "carol",
        ExecuteMsg::CreateReminder {
            id: "\u{2028} vote ".to_string(),
            due_height: 1_000_000,
            note: "\nCast governance vote\t".to_string(),
        },
    )
    .unwrap();
    assert_eq!(
        attributes(&res),
        vec![
            pair("action", "create_reminder"),
            pair("id", "vote"),
            pair("due_height", "1000000")
        ]
    );
    let expected = Reminder {
        id: "vote".to_string(),
        creator: "carol".to_string(),
        due_height: 1_000_000,
        note: "Cast governance vote".to_string(),
        completed: false,
    };
    match write {
        StoreWrite::SaveReminder(r) => assert_eq!(r, expected),
        other => panic!("unexpected write {other:?}"),
    }
    assert_eq!(reminder_of(&deps, "vote"), expected);
}

#[test]
fn blank_note_is_an_empty_field() {
    let mut deps = init();
    let err = execute(
        &mut deps,
        5,
        "carol",
        ExecuteMsg::CreateReminder {
            id: "id".to_string(),
            due_height: 1,
            note: " \u{85} ".to_string(),
        },
    )
    .unwrap_err();
    assert_eq!(err, ContractError::EmptyField {});
}

#[test]
fn complete_and_cancel_of_unknown_id_are_not_found() {
    let mut deps = init();
    let err = execute(&mut deps, 5, "a", ExecuteMsg::CompleteReminder { id: "x".to_string() }).unwrap_err();
    assert_eq!(err, ContractError::ReminderNotFound {});
    let err = execute(&mut deps, 5, "a", ExecuteMsg::CancelReminder { id: "x".to_string() }).unwrap_err();
    assert_eq!(err, ContractError::ReminderNotFound {});
}

#[test]
fn completion_is_idempotent_and_anyone_may_complete() {
    let mut deps = init();
    execute(
        &mut deps,
        1,
        "alice",
        ExecuteMsg::CreateReminder { id: "r".to_string(), due_height: 7, note: "n".to_string() },
    )
    .unwrap();
    let (res, _) = execute(&mut deps, 7, "bob", ExecuteMsg::CompleteReminder { id: "r".to_string() }).unwrap();
    assert_eq!(attributes(&res), vec![pair("action", "complete_reminder"), pair("id", "r")]);
    let first = reminder_of(&deps, "r");
    execute(&mut deps, 9, "dave", ExecuteMsg::CompleteReminder { id: "r".to_string() }).unwrap();
    assert_eq!(reminder_of(&deps, "r"), first);
    assert!(first.completed);
}

#[test]
fn cancel_reports_removal() {
    let mut deps = init();
    execute(
        &mut deps,
        1,
        "alice",
        ExecuteMsg::CreateReminder { id: "r".to_string(), due_height: 7, note: "n".to_string() },
    )
    .unwrap();
    let (res, write) = execute(&mut deps, 1, "alice", ExecuteMsg::CancelReminder { id: "r".to_string() }).unwrap();
    assert_eq!(attributes(&res), vec![pair("action", "cancel_reminder"), pair("id", "r")]);
    match write {
        StoreWrite::RemoveReminder(id) => assert_eq!(id, "r"),
        other => panic!("unexpected write {other:?}"),
    }
    let err = query(&deps, QueryMsg::Reminder { id: "r".to_string() }).unwrap_err();
    let mut key: Vec<u8> = vec![0, 9];
    key.extend_from_slice(b"reminders");
    key.extend_from_slice(b"r");
    let kind = format!("type: {}; key: {:02X?}", "height_contracts::reminders::state::Reminder", key);
    assert_eq!(err, StdError::not_found(kind));
    assert!(res.messages.is_empty() && res.events.is_empty() && res.data.is_none());
    // The id is free again.
    execute(
        &mut deps,
        1,
        "bob",
        ExecuteMsg::CreateReminder { id: "r".to_string(), due_height: 3, note: "m".to_string() },
    )
    .unwrap();
    assert_eq!(reminder_of(&deps, "r").creator, "bob");
}

#[test]
fn config_reports_instantiating_owner() {
    let deps = init();
    match query(&deps, QueryMsg::Config {}).unwrap() {
        QueryAnswer::Config(c) => assert_eq!(c.owner, "owner"),
        other => panic!("unexpected answer {other:?}"),
    }
}

#[test]
fn restore_rebuilds_listing() {
    let r = |id: &str| Reminder {
        id: id.to_string(),
        creator: "c".to_string(),
        due_height: 1,
        note: "n".to_string(),
        completed: false,
    };
    let state = restore(
        "owner".to_string(),
        vec![("a".to_string(), r("a")), ("b".to_string(), r("b"))],
    )
    .unwrap();
    match query(&state, QueryMsg::ListReminders {}).unwrap() {
        QueryAnswer::ListReminders(v) => assert_eq!(v.ids, vec!["a".to_string(), "b".to_string()]),
        other => panic!("unexpected answer {other:?}"),
    }
    assert!(restore("owner".to_string(), vec![("b".to_string(), r("b")), ("a".to_string(), r("a"))]).is_none());
    assert!(restore("owner".to_string(), vec![("a".to_string(), r("b"))]).is_none());
}
