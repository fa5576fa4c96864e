use flv_remuxer::subscriber::{StreamError, StreamErrorKind, Subscriber};
use flv_remuxer::Message;

#[test]
fn a_new_subscriber_has_been_sent_nothing() {
    let (tx, _rx) = tokio::sync::mpsc::unbounded_channel();
    let s = Subscriber::new(tx, "127.0.0.1:5000");
    assert_eq!(s.id, "127.0.0.1:5000");
    assert!(s.active);
    assert_eq!(s.pre_tag_size, 0);
    assert!(s.video_start_timestamp.is_none());
    assert!(s.audio_start_timestamp.is_none());
    assert!(!s.header_script_sended);
    assert!(!s.audio_codec_tag_sended);
    assert!(!s.video_codec_tag_sended);
}

#[test]
fn send_reaches_the_receiver_until_it_is_gone() {
    let (tx, mut rx) = tokio::sync::mpsc::unbounded_channel();
    let mut s = Subscriber::new(tx, "a");
    assert!(s.send(Message::Data(vec![1, 2, 3])).is_ok());
    assert!(matches!(rx.try_recv(), Ok(Message::Data(d)) if d == vec![1, 2, 3]));
    drop(rx);
    assert!(s.send(Message::Eof).is_err());
}

#[test]
fn deliver_sends_pieces_in_order() {
    let (tx, mut rx) = tokio::sync::mpsc::unbounded_channel();
    let mut s = Subscriber::new(tx, "a");
    assert!(s.deliver(vec![vec![1], vec![2, 3]]));
    assert!(matches!(rx.try_recv(), Ok(Message::Data(d)) if d == vec![1]));
    assert!(matches!(rx.try_recv(), Ok(Message::Data(d)) if d == vec![2, 3]));
    assert!(rx.try_recv().is_err());
    drop(rx);
    assert!(!s.deliver(vec![vec![4]]));
    assert!(s.deliver(Vec::new()));
}

#[test]
fn a_duplicated_error_is_equal() {
    let e = StreamError::new(StreamErrorKind::TimedOut, "deadline has elapsed".to_string());
    let d = e.duplicate();
    assert_eq!(d.kind, StreamErrorKind::TimedOut);
    assert_eq!(d.message, "deadline has elapsed");
}

#[test]
fn deliver_stops_at_the_first_refused_piece() {
    let (tx, rx) = tokio::sync::mpsc::unbounded_channel();
    let mut s = Subscriber::new(tx, "a");
    drop(rx);
    assert!(!s.deliver(vec![vec![1], vec![2]]));
    assert!(s.active);
}

#[test]
fn a_duplicated_message_says_the_same() {
    let m = Message::Error(StreamError::new(StreamErrorKind::BrokenPipe, "pipe".to_string()));
    match m.duplicate() {
        Message::Error(e) => {
            assert_eq!(e.kind, StreamErrorKind::BrokenPipe);
            assert_eq!(e.message, "pipe");
        }
        _ => panic!("not an error"),
    }
    assert!(matches!(Message::Data(vec![7, 8]).duplicate(), Message::Data(d) if d == vec![7, 8]));
    assert!(matches!(Message::Eof.duplicate(), Message::Eof));
}
