use std::collections::VecDeque;

use cwlogs_viewer::action::{Action, ComponentPayload, Effect, KeyInput};
use cwlogs_viewer::log_stream::LogStream;
use cwlogs_viewer::outer_layout::{NewRecord, ReceiveNewLog};

fn rec(tag: u64) -> NewRecord {
    NewRecord {
        content: format!("record-{}", tag),
        datetime: tag as i64,
        url: format!("https://example.invalid/{}", tag),
    }
}

fn receive(epoch: u64, records: Vec<NewRecord>) -> Action {
    Action::ComponentAction(ComponentPayload::ReceiveNewLog(ReceiveNewLog {
        session_epoch: epoch,
        new_messages: records,
    }))
}

#[test]
fn test_dequeue() {
    let mut a: VecDeque<i32> = VecDeque::new();
    a.extend([1, 2, 3]);
    a.extend([4, 5, 6]);
    a.extend([7, 8, 9]);

    assert_eq!(a.len(), 9);

    a.drain(0..3);

    assert_eq!(a.len(), 6);
    assert_eq!(a[0], 4);
    assert_eq!(a[1], 5);
    assert_eq!(a[2], 6);
    a.extend([10, 11]);
    a.drain(0..2);

    assert_eq!(a.len(), 6);
    assert_eq!(a[0], 6);
    assert_eq!(a[1], 7);
}

#[test]
fn test_buffer_cap_and_fifo_eviction() {
    let mut stream = LogStream::default();
    for batch_start in (0..1200).step_by(100) {
        let batch: Vec<NewRecord> = (batch_start..batch_start + 100).map(rec).collect();
        stream.update(&receive(0, batch));
        assert!(stream.received_logs.len() <= 1000);
    }
    assert_eq!(stream.received_logs.len(), 1000);
    // the 200 oldest records were evicted, strictly in arrival order
    assert_eq!(stream.received_logs[0].content, "record-200");
    assert_eq!(stream.received_logs[0].id, 200);
    assert_eq!(stream.received_logs[999].content, "record-1199");
    assert_eq!(stream.received_logs[999].id, 1199);
}

#[test]
fn test_follow_cursor_repins_to_tail() {
    let mut stream = LogStream::default();
    // the empty buffer's cursor sits at the tail sentinel
    assert!(stream.is_follow_log());
    stream.update(&receive(0, vec![rec(1), rec(2), rec(3)]));
    // still at the (new) tail sentinel after an append of k records
    assert_eq!(stream.cursor, 3);
    assert!(stream.is_follow_log());
    stream.update(&receive(0, vec![rec(4), rec(5)]));
    assert_eq!(stream.cursor, 5);
    assert!(stream.is_follow_log());
}

#[test]
fn test_scrolled_back_cursor_stays_put() {
    let mut stream = LogStream::default();
    stream.update(&receive(0, vec![rec(1), rec(2), rec(3)]));
    stream.handle_key_event(KeyInput::Up);
    assert_eq!(stream.cursor, 2);
    stream.update(&receive(0, vec![rec(4), rec(5)]));
    // the reader inspecting history is not yanked forward
    assert_eq!(stream.cursor, 2);
    assert!(!stream.is_follow_log());
}

#[test]
fn test_scroll_announces_highlighted_record() {
    let mut stream = LogStream::default();
    stream.update(&receive(0, vec![rec(1), rec(2)]));
    let (acts, effs) = stream.handle_key_event(KeyInput::Up);
    assert!(effs.is_empty());
    assert_eq!(acts.len(), 1);
    match &acts[0] {
        Action::ComponentAction(ComponentPayload::SelectLog(p)) => {
            assert_eq!(p.selected_log.content, "record-2");
        }
        other => panic!("unexpected action: {:?}", other),
    }
    // scrolling down from the last record returns to the tail sentinel: no
    // record is highlighted there, so nothing is announced
    let (acts, _) = stream.handle_key_event(KeyInput::Down);
    assert!(acts.is_empty());
    assert!(stream.is_follow_log());
}

#[test]
fn test_star_toggle_and_export_order() {
    let mut stream = LogStream::default();
    stream.update(&receive(0, vec![rec(1), rec(2), rec(3)]));
    // star record-3, then record-1: export keeps the starring order
    stream.handle_key_event(KeyInput::Up);
    stream.handle_key_event(KeyInput::Toggle);
    stream.handle_key_event(KeyInput::Up);
    stream.handle_key_event(KeyInput::Up);
    stream.handle_key_event(KeyInput::Toggle);
    assert_eq!(stream.saved_logs.len(), 2);
    assert_eq!(stream.saved_logs[0].content, "record-3");
    assert_eq!(stream.saved_logs[1].content, "record-1");
    assert_eq!(stream.export_content(), "record-3\nrecord-1\n");

    let (_, effs) = stream.handle_key_event(KeyInput::Export);
    assert_eq!(effs.len(), 1);
    match &effs[0] {
        Effect::ExportContent(content) => {
            assert_eq!(content, "record-3\nrecord-1\n");
        }
        other => panic!("unexpected effect: {:?}", other),
    }

    // unstar the highlighted record-1 again
    stream.handle_key_event(KeyInput::Toggle);
    assert_eq!(stream.saved_logs.len(), 1);
    assert_eq!(stream.saved_logs[0].content, "record-3");
}

#[test]
fn test_export_without_stars_is_silent() {
    let mut stream = LogStream::default();
    stream.update(&receive(0, vec![rec(1)]));
    let (acts, effs) = stream.handle_key_event(KeyInput::Export);
    assert!(acts.is_empty());
    assert!(effs.is_empty());
}

#[test]
fn test_copy_url_effect() {
    let mut stream = LogStream::default();
    stream.update(&receive(0, vec![rec(7)]));
    stream.handle_key_event(KeyInput::Up);
    let (_, effs) = stream.handle_key_event(KeyInput::CopyUrl);
    assert_eq!(effs.len(), 1);
    match &effs[0] {
        Effect::CopyUrl(url) => assert_eq!(url, "https://example.invalid/7"),
        other => panic!("unexpected effect: {:?}", other),
    }
    // at the tail sentinel there is nothing to copy
    stream.handle_key_event(KeyInput::Down);
    let (_, effs) = stream.handle_key_event(KeyInput::CopyUrl);
    assert!(effs.is_empty());
}
