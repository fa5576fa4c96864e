use flv_remuxer::transcoder::Transcoder;
use flv_remuxer::{OptionItem, TranscoderOptions};

fn strings(v: &[&str]) -> Vec<String> {
    v.iter().map(|s| s.to_string()).collect()
}

fn rtmp_item() -> OptionItem {
    OptionItem {
        global: Some(strings(&["-loglevel", "quiet"])),
        input: Some(strings(&["-rw_timeout", "5000000"])),
        output: Some(strings(&["-c", "copy", "-f", "flv"])),
    }
}

#[test]
fn default_arguments_without_options() {
    let t = Transcoder::with_option("rtmp://host/live", None);
    assert_eq!(
        t.ffmpeg_args(),
        strings(&["-re", "-i", "rtmp://host/live", "-c:v", "copy", "-c:a", "copy", "-f", "flv", "-"])
    );
}

#[test]
fn protocol_options_are_placed_around_the_input() {
    let mut options = TranscoderOptions::new();
    options.insert("rtmp".to_string(), rtmp_item());
    let t = Transcoder::with_option("rtmp://host/live", Some(options));
    assert_eq!(
        t.ffmpeg_args(),
        strings(&[
            "-loglevel", "quiet", "-rw_timeout", "5000000", "-i", "rtmp://host/live", "-c", "copy",
            "-f", "flv", "-"
        ])
    );
}

#[test]
fn default_options_apply_to_other_protocols() {
    let mut options = TranscoderOptions::new();
    options.insert("rtmp".to_string(), rtmp_item());
    options.insert(
        "default".to_string(),
        OptionItem { global: None, input: Some(strings(&["-re"])), output: None },
    );
    let t = Transcoder::with_option("http://host/a.flv", Some(options));
    assert_eq!(t.ffmpeg_args(), strings(&["-re", "-i", "http://host/a.flv", "-"]));
    assert!(t.find_options("rtsp").is_some());
    assert_eq!(t.find_options("rtmp").unwrap().global, Some(strings(&["-loglevel", "quiet"])));
}

#[test]
fn a_source_that_is_no_url_uses_the_default_arguments() {
    let mut options = TranscoderOptions::new();
    options.insert("default".to_string(), rtmp_item());
    let t = Transcoder::with_option("/tmp/video.mp4", Some(options));
    assert_eq!(
        t.ffmpeg_args(),
        strings(&["-re", "-i", "/tmp/video.mp4", "-c:v", "copy", "-c:a", "copy", "-f", "flv", "-"])
    );
}

#[test]
fn no_options_for_an_unknown_protocol_without_default() {
    let mut options = TranscoderOptions::new();
    options.insert("rtmp".to_string(), rtmp_item());
    let t = Transcoder::with_option("rtsp://cam/1", Some(options));
    assert!(t.find_options("rtsp").is_none());
    assert_eq!(t.ffmpeg_args()[0], "-re");
}

#[test]
fn options_read_back_as_written_and_later_writes_win() {
    let mut options = TranscoderOptions::new();
    assert!(options.get("rtmp").is_none());
    options.insert("rtmp".to_string(), rtmp_item());
    options.insert("rtmp".to_string(), OptionItem { global: None, input: None, output: None });
    assert_eq!(options.get("rtmp").unwrap().global, None);
    let copy = options.duplicate();
    assert!(copy.get("rtmp").is_some());
    assert!(copy.get("http").is_none());
}

#[test]
fn option_item_duplicate_is_equal() {
    let item = rtmp_item();
    let d = item.duplicate();
    assert_eq!(d.global, item.global);
    assert_eq!(d.input, item.input);
    assert_eq!(d.output, item.output);
}
