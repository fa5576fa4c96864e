use flv_remuxer::manager::contains_string;
use flv_remuxer::request::requested_source;
use flv_remuxer::subscriber::{stream_item, StreamError, StreamErrorKind, StreamItem};
use flv_remuxer::{Message, RemuxManager, RemuxerState, TranscoderOptions};

#[test]
fn a_new_manager_runs_until_stopped() {
    let mut m: RemuxManager<u32> = RemuxManager::new();
    assert!(m.is_running());
    assert_eq!(m.len(), 0);
    m.stop();
    assert!(!m.is_running());
}

#[test]
fn remuxers_are_created_with_the_manager_settings() {
    let m: RemuxManager<u32> = RemuxManager::with_timeout_and_options(5_000_000, Some(TranscoderOptions::new()));
    let r = m.new_remuxer("rtmp://x/y");
    assert_eq!(r.rw_timeout(), Some(5_000_000));
    assert_eq!(r.state(), RemuxerState::Idle);
    assert_eq!(r.transcoder().source(), "rtmp://x/y");
    let plain: RemuxManager<u32> = RemuxManager::new();
    assert_eq!(plain.new_remuxer("a").rw_timeout(), None);
}

#[test]
fn a_remuxer_reads_back_as_written() {
    let mut m: RemuxManager<u32> = RemuxManager::new();
    assert!(m.find("a").is_none());
    m.insert("a", 1);
    m.insert("b", 2);
    assert_eq!(m.find("a"), Some(&1));
    assert_eq!(m.find("b"), Some(&2));
    m.insert("a", 3);
    assert_eq!(m.find("a"), Some(&3));
    assert_eq!(m.len(), 2);
    assert_eq!(m.position("b"), Some(1));
    let (source, handle) = m.entry(0);
    assert_eq!(source, "a");
    assert_eq!(*handle, 3);
}

#[test]
fn a_round_starts_idle_remuxers_and_reports_dead_ones() {
    let mut m: RemuxManager<u32> = RemuxManager::new();
    m.insert("a", 1);
    m.insert("b", 2);
    m.insert("c", 3);
    m.insert("d", 4);
    let observed = vec![
        Some(RemuxerState::Idle),
        Some(RemuxerState::Dead),
        None,
        Some(RemuxerState::Idle),
    ];
    let plan = m.plan_round(&observed);
    assert_eq!(plan.start, vec![0, 3]);
    assert_eq!(plan.dead, vec!["b".to_string()]);
    assert!(!plan.sleep);

    let busy = vec![Some(RemuxerState::Pending), None, None, None];
    let plan = m.plan_round(&busy);
    assert!(plan.start.is_empty());
    assert!(plan.sleep);
}

#[test]
fn an_empty_manager_sleeps() {
    let m: RemuxManager<u32> = RemuxManager::new();
    let plan = m.plan_round(&Vec::new());
    assert!(plan.sleep);
}

#[test]
fn dead_sources_are_dropped() {
    let mut m: RemuxManager<u32> = RemuxManager::new();
    m.insert("a", 1);
    m.insert("b", 2);
    m.insert("c", 3);
    m.remove_sources(&vec!["b".to_string(), "z".to_string()]);
    assert_eq!(m.len(), 2);
    assert!(m.find("b").is_none());
    assert_eq!(m.find("a"), Some(&1));
    assert_eq!(m.find("c"), Some(&3));
}

#[test]
fn contains_string_finds_members() {
    let list = vec!["x".to_string(), "y".to_string()];
    assert!(contains_string(&list, &"y".to_string()));
    assert!(!contains_string(&list, &"z".to_string()));
}

#[test]
fn the_url_parameter_names_the_source() {
    assert_eq!(
        requested_source("/stream?url=rtmp%3A%2F%2Fhost%2Flive", Some("/stream")),
        Some("rtmp://host/live".to_string())
    );
    assert_eq!(
        requested_source("/stream?a=1&url=x&url=y", Some("/stream")),
        Some("x".to_string())
    );
    assert_eq!(requested_source("/other?url=x", Some("/stream")), None);
    assert_eq!(requested_source("/other?url=x", None), Some("x".to_string()));
    assert_eq!(requested_source("/stream", Some("/stream")), None);
}

#[test]
fn messages_become_stream_items() {
    assert!(matches!(stream_item(Some(Message::Data(vec![1, 2]))), StreamItem::Chunk(d) if d == vec![1, 2]));
    assert!(matches!(stream_item(Some(Message::Eof)), StreamItem::End));
    assert!(matches!(stream_item(None), StreamItem::End));
    let e = StreamError::new(StreamErrorKind::Other, "x".to_string());
    assert!(matches!(stream_item(Some(Message::Error(e))), StreamItem::Failure(f) if f.message == "x"));
}

#[test]
fn a_new_subscribed_remuxer_has_one_listener() {
    let m: RemuxManager<u32> = RemuxManager::with_timeout_and_options(7, None);
    let (mut r, mut rx) = m.new_subscribed_remuxer("rtmp://x/y", "client");
    assert_eq!(r.subscriber_count(), 1);
    assert_eq!(r.rw_timeout(), Some(7));
    assert_eq!(r.transcoder().source(), "rtmp://x/y");
    r.dispatch_eof();
    assert!(matches!(rx.try_recv(), Ok(Message::Eof)));
}
