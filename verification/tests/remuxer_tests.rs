use flv_remuxer::flv::{u32_be_bytes, FlvHeader, FlvTag, ParseResult, TAG_TYPE_AUDIO, TAG_TYPE_SCRIPT, TAG_TYPE_VIDEO};
use flv_remuxer::remuxer::{Ending, PullOutcome, PullStep};
use flv_remuxer::subscriber::{StreamError, StreamErrorKind};
use flv_remuxer::{Message, Remuxer, RemuxerState};
use tokio::sync::mpsc::UnboundedReceiver;

fn header() -> FlvHeader {
    FlvHeader { version: 1, has_audio: true, has_video: true, data_offset: 9 }
}

fn script() -> FlvTag {
    FlvTag::new(TAG_TYPE_SCRIPT, 0, 0, vec![2, 0, 10]).unwrap()
}

fn avc_record(ts: u32) -> FlvTag {
    FlvTag::new(TAG_TYPE_VIDEO, ts, 0, vec![0x17, 0x00, 0, 0, 0, 1]).unwrap()
}

fn aac_config(ts: u32) -> FlvTag {
    FlvTag::new(TAG_TYPE_AUDIO, ts, 0, vec![0xaf, 0x00, 0x12, 0x10]).unwrap()
}

fn keyframe(ts: u32) -> FlvTag {
    FlvTag::new(TAG_TYPE_VIDEO, ts, 0, vec![0x17, 0x01, 0, 0, 0, 9]).unwrap()
}

fn interframe(ts: u32) -> FlvTag {
    FlvTag::new(TAG_TYPE_VIDEO, ts, 0, vec![0x27, 0x01, 0, 0, 0, 5]).unwrap()
}

fn audio(ts: u32) -> FlvTag {
    FlvTag::new(TAG_TYPE_AUDIO, ts, 0, vec![0xaf, 0x01, 0x21]).unwrap()
}

fn drain(rx: &mut UnboundedReceiver<Message>) -> Vec<Vec<u8>> {
    let mut out = Vec::new();
    while let Ok(m) = rx.try_recv() {
        match m {
            Message::Data(d) => out.push(d),
            other => panic!("unexpected message {:?}", other),
        }
    }
    out
}

fn with_ts(tag: &FlvTag, ts: u32) -> Vec<u8> {
    tag.bytes_with_timestamp(ts)
}

fn size(tag: &FlvTag) -> Vec<u8> {
    u32_be_bytes(tag.into_bytes().len() as u32)
}

#[test]
fn new_remuxer_is_idle_without_subscribers() {
    let r = Remuxer::new_with_timeout_and_options("rtmp://host/live", Some(5_000_000), None);
    assert_eq!(r.state(), RemuxerState::Idle);
    assert_eq!(r.subscriber_count(), 0);
    assert_eq!(r.rw_timeout(), Some(5_000_000));
    assert_eq!(r.transcoder().source(), "rtmp://host/live");
}

#[test]
fn set_state_is_read_back() {
    let mut r = Remuxer::new_with_timeout_and_options("a", None, None);
    r.set_state(RemuxerState::Pending);
    assert_eq!(r.state(), RemuxerState::Pending);
    r.set_state(RemuxerState::Dead);
    assert_eq!(r.state(), RemuxerState::Dead);
}

#[test]
fn more_data_required_is_the_only_result_that_stops_parsing() {
    let mut r = Remuxer::new_with_timeout_and_options("a", None, None);
    assert!(r.handle_flv_parser_result(ParseResult::MoreDataRequired(4)));
    assert!(!r.handle_flv_parser_result(ParseResult::PreTagSize(0)));
    assert!(!r.handle_flv_parser_result(ParseResult::Header(header())));
    assert!(!r.handle_flv_parser_result(ParseResult::Tag(script())));
}

#[test]
fn classification_of_configuration_records_and_key_frames() {
    let r = Remuxer::new_with_timeout_and_options("a", None, None);
    assert!(r.is_avc_decoder_configuration_record(&avc_record(0)));
    assert!(!r.is_avc_decoder_configuration_record(&keyframe(0)));
    assert!(!r.is_avc_decoder_configuration_record(&aac_config(0)));
    assert!(r.is_audio_specific_config(&aac_config(0)));
    assert!(!r.is_audio_specific_config(&audio(0)));
    assert!(Remuxer::is_video_tag_keyframe(&keyframe(0)));
    assert!(Remuxer::is_video_tag_keyframe(&avc_record(0)));
    assert!(!Remuxer::is_video_tag_keyframe(&interframe(0)));
    assert!(!Remuxer::is_video_tag_keyframe(&audio(0)));
    let short = FlvTag::new(TAG_TYPE_VIDEO, 0, 0, vec![0x17]).unwrap();
    assert!(!Remuxer::is_video_tag_keyframe(&short));
    assert!(!r.is_avc_decoder_configuration_record(&short));
}

#[test]
fn a_subscriber_gets_a_complete_stream_starting_at_zero() {
    let mut r = Remuxer::new_with_timeout_and_options("a", None, None);
    let mut rx = r.subscribe("client");
    r.handle_flv_parser_result(ParseResult::Header(header()));
    r.handle_flv_parser_result(ParseResult::Tag(script()));
    // Nothing sent yet: header and script go out with the first other tag.
    assert!(drain(&mut rx).is_empty());
    r.handle_flv_parser_result(ParseResult::Tag(avc_record(1000)));
    assert_eq!(
        drain(&mut rx),
        vec![header().into_bytes(), u32_be_bytes(0), script().into_bytes()]
    );
    r.handle_flv_parser_result(ParseResult::Tag(aac_config(1000)));
    assert!(drain(&mut rx).is_empty());

    // Audio waits for video: the stream has video and an AVC record; the codec
    // records go out first.
    r.handle_flv_parser_result(ParseResult::Tag(audio(1010)));
    assert_eq!(
        drain(&mut rx),
        vec![
            size(&script()),
            with_ts(&avc_record(1000), 0),
            size(&avc_record(1000)),
            with_ts(&aac_config(1000), 0),
        ]
    );

    // A non-key frame before any key frame is not sent.
    r.handle_flv_parser_result(ParseResult::Tag(interframe(1020)));
    assert!(drain(&mut rx).is_empty());

    // The first key frame starts the video at timestamp 0.
    r.handle_flv_parser_result(ParseResult::Tag(keyframe(1040)));
    assert_eq!(
        drain(&mut rx),
        vec![size(&aac_config(1000)), with_ts(&keyframe(1040), 0)]
    );

    // Later video is relative to the key frame.
    r.handle_flv_parser_result(ParseResult::Tag(interframe(1080)));
    assert_eq!(
        drain(&mut rx),
        vec![size(&keyframe(1040)), with_ts(&interframe(1080), 40)]
    );

    // The first audio after video started is at 0, later audio relative to it.
    r.handle_flv_parser_result(ParseResult::Tag(audio(1090)));
    assert_eq!(
        drain(&mut rx),
        vec![size(&interframe(1080)), with_ts(&audio(1090), 0)]
    );
    r.handle_flv_parser_result(ParseResult::Tag(audio(1113)));
    assert_eq!(
        drain(&mut rx),
        vec![size(&audio(1090)), with_ts(&audio(1113), 23)]
    );
    assert_eq!(r.subscriber_count(), 1);
}

#[test]
fn a_late_subscriber_gets_header_and_codec_records_first() {
    let mut r = Remuxer::new_with_timeout_and_options("a", None, None);
    let mut first = r.subscribe("first");
    r.handle_flv_parser_result(ParseResult::Header(header()));
    r.handle_flv_parser_result(ParseResult::Tag(script()));
    r.handle_flv_parser_result(ParseResult::Tag(avc_record(0)));
    r.handle_flv_parser_result(ParseResult::Tag(keyframe(500)));
    drain(&mut first);

    let mut late = r.subscribe("late");
    r.handle_flv_parser_result(ParseResult::Tag(interframe(600)));
    // The late subscriber waits for a key frame, but is brought up to date.
    assert_eq!(
        drain(&mut late),
        vec![
            header().into_bytes(),
            u32_be_bytes(0),
            script().into_bytes(),
            size(&script()),
            with_ts(&avc_record(0), 0),
        ]
    );
    assert_eq!(drain(&mut first), vec![size(&keyframe(500)), with_ts(&interframe(600), 100)]);

    r.handle_flv_parser_result(ParseResult::Tag(keyframe(700)));
    assert_eq!(drain(&mut late), vec![size(&avc_record(0)), with_ts(&keyframe(700), 0)]);
    assert_eq!(drain(&mut first), vec![size(&interframe(600)), with_ts(&keyframe(700), 200)]);
}

#[test]
fn audio_only_stream_is_sent_at_once() {
    let mut r = Remuxer::new_with_timeout_and_options("a", None, None);
    let mut rx = r.subscribe("client");
    let h = FlvHeader { version: 1, has_audio: true, has_video: false, data_offset: 9 };
    r.handle_flv_parser_result(ParseResult::Header(h));
    r.handle_flv_parser_result(ParseResult::Tag(script()));
    r.handle_flv_parser_result(ParseResult::Tag(audio(300)));
    assert_eq!(
        drain(&mut rx),
        vec![
            h.into_bytes(),
            u32_be_bytes(0),
            script().into_bytes(),
            size(&script()),
            with_ts(&audio(300), 0),
        ]
    );
}

#[test]
fn timestamps_before_the_start_wrap_around() {
    let mut r = Remuxer::new_with_timeout_and_options("a", None, None);
    let mut rx = r.subscribe("client");
    r.handle_flv_parser_result(ParseResult::Tag(keyframe(100)));
    drain(&mut rx);
    r.handle_flv_parser_result(ParseResult::Tag(interframe(90)));
    assert_eq!(
        drain(&mut rx),
        vec![size(&keyframe(100)), with_ts(&interframe(90), 90u32.wrapping_sub(100))]
    );
}

#[test]
fn configuration_records_are_kept_from_the_first() {
    let mut r = Remuxer::new_with_timeout_and_options("a", None, None);
    let mut rx = r.subscribe("client");
    r.handle_flv_parser_result(ParseResult::Tag(avc_record(1)));
    // A second AVC record is a media tag: codec record first, then the key frame
    // (the record is a key frame too).
    r.handle_flv_parser_result(ParseResult::Tag(avc_record(7)));
    assert_eq!(
        drain(&mut rx),
        vec![
            u32_be_bytes(0),
            with_ts(&avc_record(1), 0),
            size(&avc_record(1)),
            with_ts(&avc_record(7), 0),
        ]
    );
}

#[test]
fn a_subscriber_whose_receiver_is_gone_is_dropped() {
    let mut r = Remuxer::new_with_timeout_and_options("a", None, None);
    let rx = r.subscribe("gone");
    let mut kept = r.subscribe("kept");
    drop(rx);
    r.handle_flv_parser_result(ParseResult::Tag(keyframe(0)));
    assert_eq!(r.subscriber_count(), 1);
    assert_eq!(drain(&mut kept), vec![u32_be_bytes(0), with_ts(&keyframe(0), 0)]);
}

#[test]
fn a_subscriber_due_nothing_is_kept_even_when_gone() {
    let mut r = Remuxer::new_with_timeout_and_options("a", None, None);
    let rx = r.subscribe("gone");
    drop(rx);
    r.handle_flv_parser_result(ParseResult::Tag(interframe(0)));
    assert_eq!(r.subscriber_count(), 1);
}

#[test]
fn no_subscriber_makes_the_remuxer_dead() {
    let mut r = Remuxer::new_with_timeout_and_options("a", None, None);
    let e = r.check_subscribers().unwrap_err();
    assert_eq!(e.kind, StreamErrorKind::NotConnected);
    assert_eq!(e.message, "no subscriber");
    assert_eq!(r.state(), RemuxerState::Dead);

    let mut r = Remuxer::new_with_timeout_and_options("a", None, None);
    let _rx = r.subscribe("c");
    assert!(r.check_subscribers().is_ok());
    assert_eq!(r.state(), RemuxerState::Idle);
}

#[test]
fn end_of_stream_tells_every_subscriber() {
    let mut r = Remuxer::new_with_timeout_and_options("a", None, None);
    let mut a = r.subscribe("a");
    let mut b = r.subscribe("b");
    assert!(matches!(r.on_pull_result(PullOutcome::Data(10)), PullStep::Parse));
    assert_eq!(r.state(), RemuxerState::Idle);
    let step = r.on_pull_result(PullOutcome::Data(0));
    assert_eq!(r.state(), RemuxerState::Dead);
    let ending = match step {
        PullStep::Stop(e) => e,
        PullStep::Parse => panic!("end of stream must stop"),
    };
    assert!(matches!(ending, Ending::EndOfStream));
    let err = r.finish(&ending);
    assert_eq!(err.kind, StreamErrorKind::UnexpectedEof);
    assert_eq!(err.message, "End of stream");
    assert_eq!(r.subscriber_count(), 0);
    assert!(matches!(a.try_recv(), Ok(Message::Eof)));
    assert!(matches!(b.try_recv(), Ok(Message::Eof)));
}

#[test]
fn a_read_failure_is_passed_to_every_subscriber() {
    let mut r = Remuxer::new_with_timeout_and_options("a", None, None);
    let mut a = r.subscribe("a");
    let failure = StreamError::new(StreamErrorKind::BrokenPipe, "ffmpeg output pipe broken".to_string());
    let step = r.on_pull_result(PullOutcome::Failed(failure));
    assert_eq!(r.state(), RemuxerState::Dead);
    let ending = match step {
        PullStep::Stop(e) => e,
        PullStep::Parse => panic!("failure must stop"),
    };
    let err = r.finish(&ending);
    assert_eq!(err.kind, StreamErrorKind::BrokenPipe);
    assert_eq!(err.message, "ffmpeg output pipe broken");
    match a.try_recv() {
        Ok(Message::Error(e)) => {
            assert_eq!(e.kind, StreamErrorKind::BrokenPipe);
            assert_eq!(e.message, "ffmpeg output pipe broken");
        }
        other => panic!("expected an error, got {:?}", other),
    }
    assert_eq!(r.subscriber_count(), 0);
}

#[test]
fn dispatch_error_and_eof_clear_subscribers() {
    let mut r = Remuxer::new_with_timeout_and_options("a", None, None);
    let mut a = r.subscribe("a");
    r.dispatch_error(&StreamError::new(StreamErrorKind::TimedOut, "t".to_string()));
    assert_eq!(r.subscriber_count(), 0);
    assert!(matches!(a.try_recv(), Ok(Message::Error(_))));
    let mut b = r.subscribe("b");
    r.dispatch_eof();
    assert_eq!(r.subscriber_count(), 0);
    assert!(matches!(b.try_recv(), Ok(Message::Eof)));
}

#[test]
fn video_waits_for_a_key_frame_and_starts_at_zero() {
    let mut r = Remuxer::new_with_timeout_and_options("rtmp://h/live", None, None);
    let mut rx = r.subscribe("a");
    let inter = FlvTag::new(TAG_TYPE_VIDEO, 40, 0, vec![0x27, 0x01, 0, 0, 0]).unwrap();
    assert!(!r.handle_flv_parser_result(ParseResult::Tag(inter)));
    assert!(drain(&mut rx).is_empty());
    let key = FlvTag::new(TAG_TYPE_VIDEO, 80, 0, vec![0x17, 0x01, 0, 0, 0]).unwrap();
    let expected = with_ts(&key, 0);
    assert!(!r.handle_flv_parser_result(ParseResult::Tag(key)));
    assert_eq!(drain(&mut rx), vec![vec![0, 0, 0, 0], expected.clone()]);
    let next = FlvTag::new(TAG_TYPE_VIDEO, 120, 0, vec![0x27, 0x01, 0, 0, 0]).unwrap();
    let rebased = with_ts(&next, 40);
    assert!(!r.handle_flv_parser_result(ParseResult::Tag(next)));
    assert_eq!(drain(&mut rx), vec![u32_be_bytes(expected.len() as u32), rebased]);
    assert_eq!(r.subscriber_count(), 1);
}
