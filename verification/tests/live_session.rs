use cwlogs_viewer::action::{Action, ComponentPayload, Effect};
use cwlogs_viewer::log_group_list::{LogGroup, SelectLogGroup};
use cwlogs_viewer::outer_layout::{NewRecord, OuterLayout, ReceiveNewLog};
use cwlogs_viewer::session::{
    translate_batch, LiveTailEvent, LiveTailSession, SessionState,
};
use cwlogs_viewer::url::UrlConfig;

fn group(name: &str) -> LogGroup {
    LogGroup {
        name: name.to_string(),
        arn: format!("arn:{}", name),
        creation_time: 0,
    }
}

fn select(groups: Vec<LogGroup>) -> Action {
    Action::ComponentAction(ComponentPayload::SelectLogGroup(SelectLogGroup {
        log_groups: groups,
    }))
}

fn receive(epoch: u64, tags: Vec<u64>) -> Action {
    Action::ComponentAction(ComponentPayload::ReceiveNewLog(ReceiveNewLog {
        session_epoch: epoch,
        new_messages: tags
            .into_iter()
            .map(|t| NewRecord {
                content: format!("record-{}", t),
                datetime: t as i64,
                url: String::new(),
            })
            .collect(),
    }))
}

#[test]
fn test_session_lifecycle() {
    let mut session = LiveTailSession::new();
    assert_eq!(session.state, SessionState::Idle);

    // an empty identifier set is a no-op that leaves the session idle
    let effs = session.start_live_tail(Vec::new());
    assert!(effs.is_empty());
    assert_eq!(session.state, SessionState::Idle);
    assert_eq!(session.epoch, 0);

    let effs = session.start_live_tail(vec!["arn:a".to_string()]);
    assert_eq!(session.state, SessionState::Starting);
    assert_eq!(session.epoch, 1);
    assert_eq!(effs.len(), 1);
    assert!(matches!(effs[0], Effect::StartStream { epoch: 1 }));

    session.on_stream_opened(1);
    assert_eq!(session.state, SessionState::Streaming);

    // replacing while streaming cancels first, then starts the new session
    let effs = session.start_live_tail(vec!["arn:b".to_string()]);
    assert_eq!(effs.len(), 2);
    assert!(matches!(effs[0], Effect::CancelStream { epoch: 1 }));
    assert!(matches!(effs[1], Effect::StartStream { epoch: 2 }));
    assert_eq!(session.epoch, 2);

    // the transport ending the stream is terminal until a new start
    session.on_stream_opened(2);
    session.on_stream_closed(2);
    assert_eq!(session.state, SessionState::Failed);
    assert!(!session.accepts(2));

    let eff = session.stop_live_tail();
    assert!(eff.is_none());
}

#[test]
fn test_stop_cancels_active_session() {
    let mut session = LiveTailSession::new();
    session.start_live_tail(vec!["arn:a".to_string()]);
    let eff = session.stop_live_tail();
    assert!(matches!(eff, Some(Effect::CancelStream { epoch: 1 })));
    assert_eq!(session.state, SessionState::Cancelled);
    assert!(!session.accepts(1));
}

#[test]
fn test_replaced_session_batches_are_dropped() {
    let mut layout = OuterLayout::new();

    // select group a: session epoch 1
    layout.update(select(vec![group("a")]));
    layout.session.on_stream_opened(1);
    layout.update(receive(1, vec![1, 2]));
    assert_eq!(layout.log_stream.received_logs.len(), 2);

    // replace the session while streaming: epoch 2
    let (_, effs) = layout.update(select(vec![group("b")]));
    assert!(matches!(effs[0], Effect::CancelStream { epoch: 1 }));
    assert!(matches!(effs[1], Effect::StartStream { epoch: 2 }));

    // the old session's in-flight batch arrives after the replacement and
    // after the new session's first batch: both times it is dropped
    layout.update(receive(1, vec![90]));
    assert_eq!(layout.log_stream.received_logs.len(), 2);

    layout.update(receive(2, vec![3]));
    assert_eq!(layout.log_stream.received_logs.len(), 3);
    assert_eq!(layout.log_stream.received_logs[2].content, "record-3");

    layout.update(receive(1, vec![91, 92]));
    assert_eq!(layout.log_stream.received_logs.len(), 3);
    for m in layout.log_stream.received_logs.iter() {
        assert!(!m.content.starts_with("record-9"));
    }
}

#[test]
fn test_empty_selection_stops_session() {
    let mut layout = OuterLayout::new();
    layout.update(select(vec![group("a")]));
    assert_eq!(layout.session.state, SessionState::Starting);
    let (_, effs) = layout.update(select(Vec::new()));
    assert_eq!(effs.len(), 1);
    assert!(matches!(effs[0], Effect::CancelStream { epoch: 1 }));
    assert_eq!(layout.session.state, SessionState::Idle);
    // batches from the cancelled session no longer land anywhere
    layout.update(receive(1, vec![5]));
    assert!(layout.log_stream.received_logs.is_empty());
}

#[test]
fn test_translate_batch() {
    let cfg = UrlConfig {
        region: "eu-west-1".to_string(),
        account_id: "123456789012".to_string(),
    };
    let none = translate_batch(3, &Vec::new(), &cfg);
    assert!(none.is_none());

    let events = vec![LiveTailEvent {
        message: "hello".to_string(),
        timestamp: 42,
        log_group_identifier: "123456789012:/aws/lambda/app".to_string(),
        log_stream_name: "2025/01/01/[$LATEST]abc".to_string(),
    }];
    match translate_batch(3, &events, &cfg) {
        Some(Action::ComponentAction(ComponentPayload::ReceiveNewLog(rn))) => {
            assert_eq!(rn.session_epoch, 3);
            assert_eq!(rn.new_messages.len(), 1);
            assert_eq!(rn.new_messages[0].content, "hello");
            assert_eq!(rn.new_messages[0].datetime, 42);
            assert!(rn.new_messages[0].url.contains("eu-west-1"));
            assert!(rn.new_messages[0].url.contains("%252Faws%252Flambda%252Fapp"));
        }
        other => panic!("unexpected translation: {:?}", other),
    }
}
