use cwlogs_viewer::action::{Action, ComponentPayload, Effect, KeyInput};
use cwlogs_viewer::log_group_list::{
    sort_groups_newest_first, FetchLogGroups, LogGroup, LogGroupList,
};

fn group(name: &str, creation_time: i64) -> LogGroup {
    LogGroup {
        name: name.to_string(),
        arn: format!("arn:{}", name),
        creation_time,
    }
}

fn list_with_groups(n: usize) -> LogGroupList {
    let mut list = LogGroupList::default();
    list.loaded_log_groups = (0..n).map(|i| group(&format!("g{}", i), i as i64)).collect();
    list
}

#[test]
fn test_toggle_involution() {
    let mut list = list_with_groups(12);
    list.toggle(4);
    list.toggle(2);
    let before = list.selected_log_groups.clone();
    list.toggle(7);
    list.toggle(7);
    assert_eq!(list.selected_log_groups, before);
    // and for an index that was already selected
    list.toggle(4);
    list.toggle(4);
    assert_eq!(list.selected_log_groups, before);
}

#[test]
fn test_selection_cap_rejects_eleventh() {
    let mut list = list_with_groups(12);
    for i in 0..10 {
        assert!(list.toggle(i));
    }
    assert_eq!(list.selected_log_groups.len(), 10);
    let before = list.selected_log_groups.clone();
    // an eleventh toggle-add is rejected: no state change, no error
    assert!(!list.toggle(10));
    assert_eq!(list.selected_log_groups, before);
    // toggling a selected index still works: the cap is on additions only
    assert!(list.toggle(3));
    assert_eq!(list.selected_log_groups.len(), 9);
}

#[test]
fn test_selection_kept_in_ascending_order() {
    let mut list = list_with_groups(8);
    list.toggle(5);
    list.toggle(1);
    list.toggle(3);
    assert_eq!(list.selected_log_groups, vec![1, 3, 5]);
}

#[test]
fn test_restore_drops_unmatched_names() {
    let mut list = LogGroupList::default();
    list.persisted = Some("B\nD".to_string());
    let fetched = vec![group("A", 3), group("B", 2), group("C", 1)];
    let acts = list.update(Action::ComponentAction(ComponentPayload::FetchLogGroups(
        FetchLogGroups { log_groups: fetched },
    )));
    // B matched at index 1; D silently dropped
    assert_eq!(list.selected_log_groups, vec![1]);
    assert_eq!(acts.len(), 1);
    match &acts[0] {
        Action::ComponentAction(ComponentPayload::SelectLogGroup(p)) => {
            assert_eq!(p.log_groups.len(), 1);
            assert_eq!(p.log_groups[0].name, "B");
        }
        other => panic!("unexpected action: {:?}", other),
    }
}

#[test]
fn test_restore_without_matches_announces_nothing() {
    let mut list = LogGroupList::default();
    list.persisted = Some("X\nY".to_string());
    let acts = list.update(Action::ComponentAction(ComponentPayload::FetchLogGroups(
        FetchLogGroups { log_groups: vec![group("A", 1)] },
    )));
    assert!(list.selected_log_groups.is_empty());
    assert!(acts.is_empty());
}

#[test]
fn test_restore_ignores_blank_lines_and_caps_at_ten() {
    let mut list = LogGroupList::default();
    let names: Vec<String> = (0..12).map(|i| format!("g{}", i)).collect();
    list.persisted = Some(format!("   \n{}\n\n\t\n", names.join("\n")));
    let fetched: Vec<LogGroup> = (0..12).map(|i| group(&format!("g{}", i), i as i64)).collect();
    list.update(Action::ComponentAction(ComponentPayload::FetchLogGroups(
        FetchLogGroups { log_groups: fetched },
    )));
    assert_eq!(list.selected_log_groups, (0..10).collect::<Vec<usize>>());
}

#[test]
fn test_toggle_key_persists_and_announces() {
    let mut list = list_with_groups(3);
    list.cursor = 2;
    let (acts, effs) = list.handle_key_event(KeyInput::Toggle);
    assert_eq!(list.selected_log_groups, vec![2]);
    assert_eq!(effs.len(), 1);
    match &effs[0] {
        Effect::PersistSelection(content) => assert_eq!(content, "g2"),
        other => panic!("unexpected effect: {:?}", other),
    }
    assert_eq!(acts.len(), 1);
    match &acts[0] {
        Action::ComponentAction(ComponentPayload::SelectLogGroup(p)) => {
            assert_eq!(p.log_groups.len(), 1);
            assert_eq!(p.log_groups[0].name, "g2");
        }
        other => panic!("unexpected action: {:?}", other),
    }
}

#[test]
fn test_persisted_content_joins_names_with_newlines() {
    let mut list = list_with_groups(5);
    list.toggle(0);
    list.toggle(4);
    list.toggle(2);
    assert_eq!(list.save_selected_log_groups(), "g0\ng2\ng4");
}

#[test]
fn test_rejected_toggle_key_is_silent() {
    let mut list = list_with_groups(12);
    for i in 0..10 {
        list.toggle(i);
    }
    list.cursor = 11;
    let (acts, effs) = list.handle_key_event(KeyInput::Toggle);
    assert!(acts.is_empty());
    assert!(effs.is_empty());
    assert_eq!(list.selected_log_groups.len(), 10);
}

#[test]
fn test_sort_newest_first() {
    let groups = vec![group("old", 10), group("newest", 40), group("mid", 25), group("tie", 25)];
    let sorted = sort_groups_newest_first(groups);
    let times: Vec<i64> = sorted.iter().map(|g| g.creation_time).collect();
    assert_eq!(times, vec![40, 25, 25, 10]);
    assert_eq!(sorted[0].name, "newest");
    assert_eq!(sorted[3].name, "old");
}
