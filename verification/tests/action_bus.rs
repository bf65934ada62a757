use cwlogs_viewer::action::{action_from_name, Action, ActionBus, ComponentPayload};
use cwlogs_viewer::log_group_list::{FetchLogGroups, SelectLogGroup};
use cwlogs_viewer::outer_layout::ReceiveNewLog;

#[test]
fn test_action_from_name() {
    assert_eq!(action_from_name("Tick"), Some(Action::Tick));
    assert_eq!(action_from_name("Render"), Some(Action::Render));
    assert_eq!(action_from_name("Resize"), Some(Action::Resize(0, 0)));
    assert_eq!(action_from_name("Suspend"), Some(Action::Suspend));
    assert_eq!(action_from_name("Resume"), Some(Action::Resume));
    assert_eq!(action_from_name("Quit"), Some(Action::Quit));
    assert_eq!(action_from_name("ClearScreen"), Some(Action::ClearScreen));
    assert_eq!(action_from_name("Error"), Some(Action::Error(String::new())));
    assert_eq!(action_from_name("Help"), Some(Action::Help));
    assert_eq!(action_from_name("NoSuchAction"), None);
    assert_eq!(action_from_name(""), None);
}

#[test]
fn test_action_equality() {
    assert_eq!(Action::Tick, Action::Tick);
    assert_ne!(Action::Tick, Action::Render);
    assert_eq!(Action::Resize(3, 4), Action::Resize(3, 4));
    assert_ne!(Action::Resize(3, 4), Action::Resize(4, 3));
    assert_eq!(Action::Error("x".to_string()), Action::Error("x".to_string()));
    assert_ne!(Action::Error("x".to_string()), Action::Error("y".to_string()));
    // component payloads compare by tag alone
    let a = Action::ComponentAction(ComponentPayload::FetchLogGroups(FetchLogGroups {
        log_groups: Vec::new(),
    }));
    let b = Action::ComponentAction(ComponentPayload::FetchLogGroups(FetchLogGroups {
        log_groups: Vec::new(),
    }));
    let c = Action::ComponentAction(ComponentPayload::SelectLogGroup(SelectLogGroup {
        log_groups: Vec::new(),
    }));
    assert_eq!(a, b);
    assert_ne!(a, c);
}

#[test]
fn test_payload_names() {
    let fetch = ComponentPayload::FetchLogGroups(FetchLogGroups { log_groups: Vec::new() });
    let select = ComponentPayload::SelectLogGroup(SelectLogGroup { log_groups: Vec::new() });
    let batch = ComponentPayload::ReceiveNewLog(ReceiveNewLog {
        session_epoch: 0,
        new_messages: Vec::new(),
    });
    assert_eq!(fetch.name(), "FetchLogGroups");
    assert_eq!(select.name(), "SelectLogGroup");
    assert_eq!(batch.name(), "ReceiveNewLog");
}

#[test]
fn test_bus_is_fifo() {
    let mut bus = ActionBus::new();
    bus.send(Action::Tick);
    bus.send_all(vec![Action::Render, Action::Quit]);
    bus.send(Action::Help);
    assert_eq!(bus.recv(), Some(Action::Tick));
    assert_eq!(bus.recv(), Some(Action::Render));
    assert_eq!(bus.recv(), Some(Action::Quit));
    assert_eq!(bus.recv(), Some(Action::Help));
    assert_eq!(bus.recv(), None);
}
