use flv_remuxer::flv::{u32_be_bytes, FlvHeader, FlvTag, MAX_TAG_DATA_LEN, TAG_TYPE_AUDIO, TAG_TYPE_SCRIPT, TAG_TYPE_VIDEO};

#[test]
fn u32_is_written_most_significant_first() {
    assert_eq!(u32_be_bytes(0x0102_0304), vec![1, 2, 3, 4]);
    assert_eq!(u32_be_bytes(0), vec![0, 0, 0, 0]);
    assert_eq!(u32_be_bytes(u32::MAX), vec![0xff, 0xff, 0xff, 0xff]);
}

#[test]
fn header_encoding_has_signature_flags_and_offset() {
    let h = FlvHeader { version: 1, has_audio: true, has_video: true, data_offset: 9 };
    assert_eq!(h.into_bytes(), vec![0x46, 0x4c, 0x56, 1, 5, 0, 0, 0, 9]);
    let video_only = FlvHeader { version: 1, has_audio: false, has_video: true, data_offset: 9 };
    assert_eq!(video_only.into_bytes()[4], 1);
    assert!(video_only.has_video());
    assert!(!video_only.has_audio());
    let audio_only = FlvHeader { version: 1, has_audio: true, has_video: false, data_offset: 9 };
    assert_eq!(audio_only.into_bytes()[4], 4);
}

#[test]
fn tag_encoding_splits_timestamp_into_low_and_extended_bytes() {
    let tag = FlvTag::new(TAG_TYPE_VIDEO, 0x0102_0304, 0, vec![0x17, 0x00, 7, 8]).unwrap();
    assert_eq!(
        tag.into_bytes(),
        vec![9, 0, 0, 4, 0x02, 0x03, 0x04, 0x01, 0, 0, 0, 0x17, 0x00, 7, 8]
    );
}

#[test]
fn tag_encoding_with_another_timestamp_keeps_the_tag() {
    let tag = FlvTag::new(TAG_TYPE_AUDIO, 5000, 0x010203, vec![0xaf, 0x01]).unwrap();
    assert_eq!(
        tag.bytes_with_timestamp(40),
        vec![8, 0, 0, 2, 0, 0, 40, 0, 1, 2, 3, 0xaf, 0x01]
    );
    assert_eq!(tag.timestamp(), 5000);
    assert_eq!(tag.stream_id(), 0x010203);
}

#[test]
fn tag_size_is_header_plus_data() {
    let tag = FlvTag::new(TAG_TYPE_SCRIPT, 0, 0, vec![0; 300]).unwrap();
    assert_eq!(tag.into_bytes().len(), 11 + 300);
    assert!(tag.is_script_tag());
    assert!(!tag.is_audio_tag());
    assert!(!tag.is_video_tag());
}

#[test]
fn tag_that_does_not_fit_its_fields_is_refused() {
    assert!(FlvTag::new(TAG_TYPE_VIDEO, 0, 0, vec![0; MAX_TAG_DATA_LEN + 1]).is_none());
    assert!(FlvTag::new(TAG_TYPE_VIDEO, 0, 0x0100_0000, vec![1, 2]).is_none());
    assert!(FlvTag::new(TAG_TYPE_VIDEO, 0, 0x00ff_ffff, vec![1, 2]).is_some());
}

#[test]
fn set_timestamp_changes_only_the_timestamp() {
    let mut tag = FlvTag::new(TAG_TYPE_VIDEO, 10, 0, vec![0x27, 0x01]).unwrap();
    tag.set_timestamp(99);
    assert_eq!(tag.timestamp(), 99);
    assert_eq!(tag.data(), &vec![0x27, 0x01]);
    assert_eq!(tag.tag_type(), TAG_TYPE_VIDEO);
}
