use cwlogs_viewer::action::{Action, ComponentPayload, KeyInput};
use cwlogs_viewer::log_detail::LogDetail;
use cwlogs_viewer::log_group_list::{FetchLogGroups, LogGroup};
use cwlogs_viewer::log_stream::SelectLog;
use cwlogs_viewer::outer_layout::{Cursor, Message, NewRecord, OuterLayout, ReceiveNewLog};

#[test]
fn test_focus_switch_routes_keys() {
    let mut layout = OuterLayout::new();
    layout.update(Action::ComponentAction(ComponentPayload::FetchLogGroups(
        FetchLogGroups {
            log_groups: vec![
                LogGroup { name: "a".to_string(), arn: "arn:a".to_string(), creation_time: 0 },
                LogGroup { name: "b".to_string(), arn: "arn:b".to_string(), creation_time: 0 },
            ],
        },
    )));
    layout.update(Action::ComponentAction(ComponentPayload::ReceiveNewLog(ReceiveNewLog {
        session_epoch: 0,
        new_messages: vec![NewRecord {
            content: "x".to_string(),
            datetime: 0,
            url: String::new(),
        }],
    })));

    // group list focused: Down moves the group highlight, not the stream
    assert_eq!(layout.cursor, Cursor::LogGroupList);
    layout.handle_key_event(KeyInput::Down);
    assert_eq!(layout.log_group_list.cursor, 1);

    layout.handle_key_event(KeyInput::SwitchFocus);
    assert_eq!(layout.cursor, Cursor::LogStream);
    layout.handle_key_event(KeyInput::Up);
    assert_eq!(layout.log_group_list.cursor, 1);

    layout.handle_key_event(KeyInput::SwitchFocus);
    assert_eq!(layout.cursor, Cursor::LogGroupList);
}

#[test]
fn test_detail_remembers_highlight() {
    let mut detail = LogDetail::new();
    assert!(detail.message.is_none());

    detail.update(&Action::Tick);
    assert!(detail.message.is_none());

    let message = Message {
        id: 9,
        content: "payload".to_string(),
        datetime: 123,
        url: "https://example.invalid/9".to_string(),
    };
    detail.update(&Action::ComponentAction(ComponentPayload::SelectLog(SelectLog {
        selected_log: message.clone(),
    })));
    assert_eq!(detail.message, Some(message));
}
