//! The remuxer: it takes the items an FLV parser reads from the transcoder's
//! output and sends each subscriber a well-formed FLV stream of its own.

use vstd::prelude::*;
use tokio::sync::mpsc::UnboundedReceiver;
use crate::flv::{
    MAX_TAG_DATA_LEN, u32_be_bytes, be32, header_bytes, tag_bytes, FlvHeader, FlvTag, ParseResult, TagView, TAG_HEADER_LEN,
};
use crate::transcoder::{Transcoder, TranscoderOptions, TranscoderView};
use crate::subscriber::{
    accepted_data, fresh_subscriber, open_channel, pieces_view, refused_at, Handed, Message,
    message_view, MessageView, StreamError, StreamErrorKind, Subscriber, SubscriberView,
};

verus! {

/// Where a remuxer stands in the manager's round: ready for its next read, busy
/// with one, or finished.
#[derive(Debug, Clone, Copy, PartialEq, Eq, Structural)]
pub enum RemuxerState {
    Idle,
    Pending,
    Dead,
}

/// The stream facts that decide what each subscriber is sent: the file header, the
/// first script tag, and the first AVC and AAC configuration records.
pub struct StreamInfo {
    pub header: Option<FlvHeader>,
    pub script: Option<TagView>,
    pub avc: Option<TagView>,
    pub asc: Option<TagView>,
}

/// The three ways the remuxer sends to its subscribers: the stream header with the
/// script tag, the codec configuration records, and one media tag.
pub enum Pass {
    HeaderScript,
    CodecTags,
    Media(TagView),
}

/// An AVC decoder configuration record: a video tag whose codec id (low nibble of
/// its first byte) is 7 and whose AVC packet type (second byte) is 0.
pub open spec fn is_avc_config(t: TagView) -> bool {
    t.is_video() && t.data.len() >= 2 && t.data[0] % 16 == 7 && t.data[1] == 0
}

/// A video key frame: a video tag whose frame type (high nibble of its first byte)
/// is 1.
pub open spec fn is_keyframe(t: TagView) -> bool {
    t.is_video() && t.data.len() >= 2 && t.data[0] / 16 == 1
}

/// An AAC audio specific config: an audio tag whose sound format (high nibble of
/// its first byte) is 10 and whose AAC packet type (second byte) is 0.
pub open spec fn is_audio_config(t: TagView) -> bool {
    t.is_audio() && t.data.len() >= 2 && t.data[0] / 16 == 10 && t.data[1] == 0
}

/// `ts - start`, wrapping modulo 2^32.
pub open spec fn rebase(ts: u32, start: u32) -> u32 {
    if ts >= start {
        (ts - start) as u32
    } else {
        (ts + 0x1_0000_0000 - start) as u32
    }
}

/// A timestamp rebased on the subscriber's start: 0 before the start is known.
pub open spec fn rebase_from(ts: u32, start: Option<u32>) -> u32 {
    match start {
        Some(s) => rebase(ts, s),
        None => 0,
    }
}

/// Size of the encoding of tag `t`.
pub open spec fn encoded_len(t: TagView) -> u32 {
    (TAG_HEADER_LEN + t.data.len()) as u32
}

// ---- header and script tag --------------------------------------------------

/// The header and the script tag are due to `s` once both are known and until it
/// has been sent them.
pub open spec fn header_script_due(info: StreamInfo, s: SubscriberView) -> bool {
    !s.header_script_sended && info.header is Some && info.script is Some
}

pub open spec fn header_script_messages(info: StreamInfo, s: SubscriberView) -> Seq<Seq<u8>> {
    if header_script_due(info, s) {
        let script = info.script.unwrap();
        seq![header_bytes(info.header.unwrap()), be32(0), tag_bytes(script, script.timestamp)]
    } else {
        seq![]
    }
}

pub open spec fn header_script_next(info: StreamInfo, s: SubscriberView) -> SubscriberView {
    if header_script_due(info, s) {
        SubscriberView {
            pre_tag_size: encoded_len(info.script.unwrap()),
            header_script_sended: true,
            ..s
        }
    } else {
        s
    }
}

// ---- codec configuration records -------------------------------------------

pub open spec fn video_codec_due(info: StreamInfo, s: SubscriberView) -> bool {
    !s.video_codec_tag_sended && info.avc is Some
}

pub open spec fn video_codec_messages(info: StreamInfo, s: SubscriberView) -> Seq<Seq<u8>> {
    if video_codec_due(info, s) {
        let t = info.avc.unwrap();
        seq![be32(s.pre_tag_size), tag_bytes(t, rebase_from(t.timestamp, s.video_start_timestamp))]
    } else {
        seq![]
    }
}

pub open spec fn video_codec_next(info: StreamInfo, s: SubscriberView) -> SubscriberView {
    if video_codec_due(info, s) {
        SubscriberView {
            pre_tag_size: encoded_len(info.avc.unwrap()),
            video_codec_tag_sended: true,
            ..s
        }
    } else {
        s
    }
}

pub open spec fn audio_codec_due(info: StreamInfo, s: SubscriberView) -> bool {
    !s.audio_codec_tag_sended && info.asc is Some
}

pub open spec fn audio_codec_messages(info: StreamInfo, s: SubscriberView) -> Seq<Seq<u8>> {
    if audio_codec_due(info, s) {
        let t = info.asc.unwrap();
        seq![be32(s.pre_tag_size), tag_bytes(t, rebase_from(t.timestamp, s.audio_start_timestamp))]
    } else {
        seq![]
    }
}

pub open spec fn audio_codec_next(info: StreamInfo, s: SubscriberView) -> SubscriberView {
    if audio_codec_due(info, s) {
        SubscriberView {
            pre_tag_size: encoded_len(info.asc.unwrap()),
            audio_codec_tag_sended: true,
            ..s
        }
    } else {
        s
    }
}

pub open spec fn codec_messages(info: StreamInfo, s: SubscriberView) -> Seq<Seq<u8>> {
    video_codec_messages(info, s) + audio_codec_messages(info, video_codec_next(info, s))
}

pub open spec fn codec_next(info: StreamInfo, s: SubscriberView) -> SubscriberView {
    audio_codec_next(info, video_codec_next(info, s))
}

// ---- media tags --------------------------------------------------------------

/// Audio goes out once video has started for the subscriber, or when the stream
/// has no video to wait for: no header announcing video, or no AVC record.
pub open spec fn audio_allowed(info: StreamInfo, s: SubscriberView) -> bool {
    s.video_start_timestamp is Some || info.avc is None || !(info.header is Some
        && info.header.unwrap().has_video)
}

pub open spec fn media_messages(info: StreamInfo, t: TagView, s: SubscriberView) -> Seq<Seq<u8>> {
    if t.is_audio() {
        if audio_allowed(info, s) {
            seq![be32(s.pre_tag_size), tag_bytes(t, rebase_from(t.timestamp, s.audio_start_timestamp))]
        } else {
            seq![]
        }
    } else if t.is_video() {
        match s.video_start_timestamp {
            None => if is_keyframe(t) {
                seq![be32(s.pre_tag_size), tag_bytes(t, 0)]
            } else {
                seq![]
            },
            Some(start) => seq![be32(s.pre_tag_size), tag_bytes(t, rebase(t.timestamp, start))],
        }
    } else {
        seq![]
    }
}

pub open spec fn media_next(info: StreamInfo, t: TagView, s: SubscriberView) -> SubscriberView {
    if t.is_audio() {
        if audio_allowed(info, s) {
            SubscriberView {
                audio_start_timestamp: match s.audio_start_timestamp {
                    None => Some(t.timestamp),
                    Some(a) => Some(a),
                },
                pre_tag_size: encoded_len(t),
                ..s
            }
        } else {
            s
        }
    } else if t.is_video() {
        match s.video_start_timestamp {
            None => if is_keyframe(t) {
                SubscriberView {
                    video_start_timestamp: Some(t.timestamp),
                    pre_tag_size: encoded_len(t),
                    ..s
                }
            } else {
                s
            },
            Some(_) => SubscriberView { pre_tag_size: encoded_len(t), ..s },
        }
    } else {
        s
    }
}

// ---- passes over all subscribers -------------------------------------------

/// The byte strings that `pass` hands to subscriber `s`, in order.
pub open spec fn pass_messages(info: StreamInfo, pass: Pass, s: SubscriberView) -> Seq<Seq<u8>> {
    match pass {
        Pass::HeaderScript => header_script_messages(info, s),
        Pass::CodecTags => codec_messages(info, s),
        Pass::Media(t) => media_messages(info, t, s),
    }
}

/// What `pass` records of subscriber `s`, apart from what it hands to the channel.
pub open spec fn pass_state(info: StreamInfo, pass: Pass, s: SubscriberView) -> SubscriberView {
    match pass {
        Pass::HeaderScript => header_script_next(info, s),
        Pass::CodecTags => codec_next(info, s),
        Pass::Media(t) => media_next(info, t, s),
    }
}

/// Subscriber `s` after a pass whose messages its channel all took: its next
/// state, with the messages of the pass added to its outbox, in order.
pub open spec fn pass_next(info: StreamInfo, pass: Pass, s: SubscriberView) -> SubscriberView {
    SubscriberView {
        outbox: s.outbox + accepted_data(pass_messages(info, pass, s)),
        ..pass_state(info, pass, s)
    }
}

/// `m` is subscriber `o` after a pass whose message `j` its channel refused: the
/// messages before it were taken, none after it was handed, and `m` is inactive.
pub open spec fn failed_at(info: StreamInfo, pass: Pass, o: SubscriberView, m: SubscriberView, j: int) -> bool {
    let msgs = pass_messages(info, pass, o);
    &&& 0 <= j < msgs.len()
    &&& m == (SubscriberView {
        active: false,
        outbox: o.outbox + refused_at(msgs, j),
        ..pass_state(info, pass, o)
    })
}

/// `m` is subscriber `o` after a pass, whichever of its sends failed.
pub open spec fn delivered_or_failed(info: StreamInfo, pass: Pass, o: SubscriberView, m: SubscriberView) -> bool {
    m == pass_next(info, pass, o) || exists|j: int| #[trigger] failed_at(info, pass, o, m, j)
}

/// The states of a sequence of subscribers.
pub open spec fn views(s: Seq<Subscriber>) -> Seq<SubscriberView> {
    s.map_values(|x: Subscriber| x@)
}

/// The active subscribers, in order.
pub open spec fn active_only(s: Seq<SubscriberView>) -> Seq<SubscriberView>
    decreases s.len(),
{
    if s.len() == 0 {
        seq![]
    } else {
        let r = active_only(s.drop_last());
        if s.last().active {
            r.push(s.last())
        } else {
            r
        }
    }
}

/// The inactive subscribers, in order.
pub open spec fn inactive_only(s: Seq<SubscriberView>) -> Seq<SubscriberView>
    decreases s.len(),
{
    if s.len() == 0 {
        seq![]
    } else {
        let r = inactive_only(s.drop_last());
        if s.last().active {
            r
        } else {
            r.push(s.last())
        }
    }
}

/// `mid` is what a pass makes of subscribers `old`, each on its own; the active
/// ones stay, in order, and the inactive ones join those dropped before.
pub open spec fn pass_outcome(
    info: StreamInfo,
    pass: Pass,
    old: Seq<SubscriberView>,
    old_gone: Seq<SubscriberView>,
    mid: Seq<SubscriberView>,
    new: Seq<SubscriberView>,
    new_gone: Seq<SubscriberView>,
) -> bool {
    &&& mid.len() == old.len()
    &&& forall|i: int| 0 <= i < old.len() ==> #[trigger] delivered_or_failed(info, pass, old[i], mid[i])
    &&& new == active_only(mid)
    &&& new_gone == old_gone + inactive_only(mid)
}

/// `new` is what a pass over subscribers `old` can leave, whichever sends fail, and
/// `new_gone` what it adds to the dropped ones `old_gone`: each subscriber is
/// handed the messages of the pass, in order, up to the first its channel refuses;
/// one whose channel took them all moves to its next state and stays (unless it was
/// inactive already), one whose channel refused one is dropped.
pub open spec fn after_pass(
    info: StreamInfo,
    pass: Pass,
    old: Seq<SubscriberView>,
    old_gone: Seq<SubscriberView>,
    new: Seq<SubscriberView>,
    new_gone: Seq<SubscriberView>,
) -> bool {
    exists|mid: Seq<SubscriberView>| #[trigger] pass_outcome(info, pass, old, old_gone, mid, new, new_gone)
}

/// `after` is `before` followed by each of `subs`, handed message `m` as its last.
pub open spec fn told_all(
    subs: Seq<SubscriberView>,
    before: Seq<SubscriberView>,
    after: Seq<SubscriberView>,
    m: MessageView,
) -> bool {
    &&& after.len() == before.len() + subs.len()
    &&& after.take(before.len() as int) == before
    &&& each_told(subs, after.skip(before.len() as int), m)
}

/// `told` is each of `subs` handed message `m` as its last, and otherwise unchanged.
pub open spec fn each_told(subs: Seq<SubscriberView>, told: Seq<SubscriberView>, m: MessageView) -> bool {
    &&& told.len() == subs.len()
    &&& forall|i: int| 0 <= i < subs.len() ==> #[trigger] told[i] == (SubscriberView {
        outbox: subs[i].outbox.push(Handed { message: m, accepted: told[i].outbox.last().accepted }),
        ..subs[i]
    })
}

/// What a remuxer holds: its subscribers, the ones it has dropped (in the state
/// they were dropped in), what it knows of the stream, and its settings.
pub struct RemuxerView {
    pub subscribers: Seq<SubscriberView>,
    pub departed: Seq<SubscriberView>,
    pub header: Option<FlvHeader>,
    pub script: Option<TagView>,
    pub avc: Option<TagView>,
    pub asc: Option<TagView>,
    pub rw_timeout: Option<u64>,
    pub state: RemuxerState,
    pub transcoder: TranscoderView,
}

pub open spec fn opt_tag_view(t: Option<FlvTag>) -> Option<TagView> {
    match t {
        Some(t) => Some(t@),
        None => None,
    }
}

pub open spec fn stream_info(v: RemuxerView) -> StreamInfo {
    StreamInfo { header: v.header, script: v.script, avc: v.avc, asc: v.asc }
}

/// The passes that one tag sets off, with the subscribers `s1` left (and `g1`
/// dropped) after the header pass, and `s2` left (and `g2` dropped) after the codec
/// pass.
pub open spec fn tag_steps(
    old: RemuxerView,
    t: TagView,
    s1: Seq<SubscriberView>,
    g1: Seq<SubscriberView>,
    s2: Seq<SubscriberView>,
    g2: Seq<SubscriberView>,
    new: RemuxerView,
) -> bool {
    let info = stream_info(old);
    &&& if old.header is Some && old.script is Some {
        after_pass(info, Pass::HeaderScript, old.subscribers, old.departed, s1, g1)
    } else {
        s1 == old.subscribers && g1 == old.departed
    }
    &&& if is_avc_config(t) && old.avc is None {
        new == RemuxerView { avc: Some(t), subscribers: s1, departed: g1, ..old }
    } else if is_audio_config(t) && old.asc is None {
        new == RemuxerView { asc: Some(t), subscribers: s1, departed: g1, ..old }
    } else {
        &&& after_pass(info, Pass::CodecTags, s1, g1, s2, g2)
        &&& after_pass(info, Pass::Media(t), s2, g2, new.subscribers, new.departed)
        &&& new == RemuxerView { subscribers: new.subscribers, departed: new.departed, ..old }
    }
}

/// What handling tag `t` does: the first script tag is kept; any other tag first
/// brings the subscribers up to date with the header and script tag (once both are
/// known); then the first AVC record and the first AAC config are kept, and every
/// other tag is sent, after the codec records the subscribers still lack.
pub open spec fn tag_handled(old: RemuxerView, t: TagView, new: RemuxerView) -> bool {
    if t.is_script() && old.script is None {
        new == RemuxerView { script: Some(t), ..old }
    } else {
        exists|s1: Seq<SubscriberView>, g1: Seq<SubscriberView>, s2: Seq<SubscriberView>, g2: Seq<SubscriberView>|
            #[trigger] tag_steps(old, t, s1, g1, s2, g2, new)
    }
}

/// What handling one parser result does.
pub open spec fn handled(old: RemuxerView, event: ParseResult, new: RemuxerView) -> bool {
    match event {
        ParseResult::MoreDataRequired(_) => new == old,
        ParseResult::PreTagSize(_) => new == old,
        ParseResult::Header(h) => new == RemuxerView { header: Some(h), ..old },
        ParseResult::Tag(t) => tag_handled(old, t@, new),
    }
}

/// What a read from the transcoder gave: a number of bytes (0 at the end of the
/// stream), or a failure.
pub enum PullOutcome {
    Data(usize),
    Failed(StreamError),
}

/// How a stream ended.
pub enum Ending {
    EndOfStream,
    Failure(StreamError),
}

/// What to do after a read: parse what was read, or stop the transcoder and then
/// finish the stream.
pub enum PullStep {
    Parse,
    Stop(Ending),
}

enum PassKind {
    HeaderScript,
    CodecTags,
    Media,
}

/// Turns the output of one transcoder into a stream for each of its subscribers.
pub struct Remuxer {
    transcoder: Transcoder,
    subscribers: Vec<Subscriber>,
    /// The subscribers dropped so far, in the state they were dropped in.
    departed: Ghost<Seq<SubscriberView>>,
    flv_header: Option<FlvHeader>,
    flv_script_tag: Option<FlvTag>,
    avc_decoder_configuration_record: Option<FlvTag>,
    audio_specific_config: Option<FlvTag>,
    rw_timeout: Option<u64>,
    state: RemuxerState,
}

impl View for Remuxer {
    type V = RemuxerView;

    closed spec fn view(&self) -> RemuxerView {
        RemuxerView {
            subscribers: views(self.subscribers@),
            departed: self.departed@,
            header: self.flv_header,
            script: opt_tag_view(self.flv_script_tag),
            avc: opt_tag_view(self.avc_decoder_configuration_record),
            asc: opt_tag_view(self.audio_specific_config),
            rw_timeout: self.rw_timeout,
            state: self.state,
            transcoder: self.transcoder@,
        }
    }
}

spec fn pass_of(kind: PassKind, media: Option<&FlvTag>) -> Pass {
    match kind {
        PassKind::HeaderScript => Pass::HeaderScript,
        PassKind::CodecTags => Pass::CodecTags,
        PassKind::Media => Pass::Media(media.unwrap()@),
    }
}

proof fn lemma_views_push(s: Seq<Subscriber>, x: Subscriber)
    ensures
        views(s.push(x)) == views(s).push(x@),
{
    assert(views(s.push(x)) =~= views(s).push(x@));
}

proof fn lemma_active_only_step(s: Seq<SubscriberView>, k: int)
    requires
        0 <= k < s.len(),
    ensures
        active_only(s.take(k + 1)) == if s[k].active {
            active_only(s.take(k)).push(s[k])
        } else {
            active_only(s.take(k))
        },
        inactive_only(s.take(k + 1)) == if s[k].active {
            inactive_only(s.take(k))
        } else {
            inactive_only(s.take(k)).push(s[k])
        },
{
    assert(s.take(k + 1).drop_last() =~= s.take(k));
}

impl Remuxer {
    /// A remuxer of `source` with no subscriber and nothing read yet, in state
    /// `Idle`.
    pub fn new_with_timeout_and_options(
        source: &str,
        rw_timeout_micros: Option<u64>,
        transcoder_options: Option<TranscoderOptions>,
    ) -> (r: Self)
        ensures
            r@.subscribers == Seq::<SubscriberView>::empty(),
            r@.departed == Seq::<SubscriberView>::empty(),
            r@.header is None,
            r@.script is None,
            r@.avc is None,
            r@.asc is None,
            r@.rw_timeout == rw_timeout_micros,
            r@.state == RemuxerState::Idle,
            r@.transcoder.source == source@,
            r@.transcoder.options == match transcoder_options {
                Some(o) => Some(o@),
                None => None::<Seq<(Seq<char>, crate::transcoder::OptionItemView)>>,
            },
    {
        let r = Remuxer {
            transcoder: Transcoder::with_option(source, transcoder_options),
            subscribers: Vec::new(),
            departed: Ghost(Seq::empty()),
            flv_header: None,
            flv_script_tag: None,
            avc_decoder_configuration_record: None,
            audio_specific_config: None,
            rw_timeout: rw_timeout_micros,
            state: RemuxerState::Idle,
        };
        assert(views(r.subscribers@) =~= seq![]);
        r
    }

    /// The transcoder configuration.
    pub fn transcoder(&self) -> (r: &Transcoder)
        ensures
            r@ == self@.transcoder,
    {
        &self.transcoder
    }

    /// Adds a subscriber named `address` and returns the end of its channel.
    pub fn subscribe(&mut self, address: &str) -> (rx: UnboundedReceiver<Message>)
        ensures
            final(self)@ == (RemuxerView {
                subscribers: old(self)@.subscribers.push(
                    fresh_subscriber(address@, final(self)@.subscribers.last().tx),
                ),
                ..old(self)@
            }),
    {
        let (tx, rx) = open_channel();
        let s = Subscriber::new(tx, address);
        proof {
            lemma_views_push(self.subscribers@, s);
        }
        self.subscribers.push(s);
        rx
    }

    pub fn state(&self) -> (r: RemuxerState)
        ensures
            r == self@.state,
    {
        self.state
    }

    pub fn set_state(&mut self, state: RemuxerState)
        ensures
            final(self)@ == (RemuxerView { state, ..old(self)@ }),
    {
        self.state = state;
    }

    /// The read timeout, in microseconds.
    pub fn rw_timeout(&self) -> (r: Option<u64>)
        ensures
            r == self@.rw_timeout,
    {
        self.rw_timeout
    }

    /// The number of subscribers.
    pub fn subscriber_count(&self) -> (r: usize)
        ensures
            r == self@.subscribers.len(),
    {
        self.subscribers.len()
    }

    pub fn is_avc_decoder_configuration_record(&self, tag: &FlvTag) -> (r: bool)
        ensures
            r == is_avc_config(tag@),
    {
        if tag.is_video_tag() {
            let tag_data = tag.data();
            if tag_data.len() < 2 {
                return false;
            }
            let codec = tag_data[0] % 16;
            if codec != 0x07 {
                return false;
            }
            return tag_data[1] == 0x00;
        }
        false
    }

    pub fn is_video_tag_keyframe(tag: &FlvTag) -> (r: bool)
        ensures
            r == is_keyframe(tag@),
    {
        if tag.is_video_tag() {
            let tag_data = tag.data();
            if tag_data.len() < 2 {
                return false;
            }
            let frame_type = tag_data[0] / 16;
            return frame_type == 0x01;
        }
        false
    }

    pub fn is_audio_specific_config(&self, tag: &FlvTag) -> (r: bool)
        ensures
            r == is_audio_config(tag@),
    {
        if tag.is_audio_tag() {
            let tag_data = tag.data();
            if tag_data.len() < 2 {
                return false;
            }
            let sound_format = tag_data[0] / 16;
            if sound_format != 0x0a {
                return false;
            }
            return tag_data[1] == 0x00;
        }
        false
    }

    /// Brings `s` up to date with the header and the script tag: returns what it
    /// must be sent and moves it to the state it has once that is sent.
    fn plan_header_script(&self, s: &mut Subscriber) -> (pieces: Vec<Vec<u8>>)
        ensures
            pieces_view(pieces@) == header_script_messages(stream_info(self@), old(s)@),
            final(s)@ == header_script_next(stream_info(self@), old(s)@),
    {
        let mut pieces: Vec<Vec<u8>> = Vec::new();
        if s.header_script_sended {
            assert(pieces_view(pieces@) =~= seq![]);
            return pieces;
        }
        match (&self.flv_header, &self.flv_script_tag) {
            (Some(header), Some(script)) => {
                let header_data = header.into_bytes();
                pieces.push(header_data);
                pieces.push(u32_be_bytes(0));
                let data = script.into_bytes();
                s.pre_tag_size = data.len() as u32;
                pieces.push(data);
                s.header_script_sended = true;
                assert(pieces_view(pieces@) =~= header_script_messages(stream_info(self@), old(s)@));
            },
            _ => {},
        }
        pieces
    }

    /// Brings `s` up to date with the codec configuration records: the AVC record,
    /// then the AAC config, each where it is known and not yet sent.
    fn plan_codec(&self, s: &mut Subscriber) -> (pieces: Vec<Vec<u8>>)
        ensures
            pieces_view(pieces@) == codec_messages(stream_info(self@), old(s)@),
            final(s)@ == codec_next(stream_info(self@), old(s)@),
    {
        let ghost info = stream_info(self@);
        let mut pieces: Vec<Vec<u8>> = Vec::new();
        if !s.video_codec_tag_sended {
            match &self.avc_decoder_configuration_record {
                Some(tag) => {
                    let tag_timestamp = tag.timestamp();
                    let ts = match s.video_start_timestamp {
                        None => 0,
                        Some(start) => tag_timestamp.wrapping_sub(start),
                    };
                    pieces.push(u32_be_bytes(s.pre_tag_size));
                    let tag_data = tag.bytes_with_timestamp(ts);
                    s.pre_tag_size = tag_data.len() as u32;
                    pieces.push(tag_data);
                    s.video_codec_tag_sended = true;
                },
                None => {},
            }
        }
        let ghost mid = s@;
        assert(mid == video_codec_next(info, old(s)@));
        assert(pieces_view(pieces@) =~= video_codec_messages(info, old(s)@));
        let ghost first = pieces@;
        if !s.audio_codec_tag_sended {
            match &self.audio_specific_config {
                Some(tag) => {
                    let tag_timestamp = tag.timestamp();
                    let ts = match s.audio_start_timestamp {
                        None => 0,
                        Some(start) => tag_timestamp.wrapping_sub(start),
                    };
                    pieces.push(u32_be_bytes(s.pre_tag_size));
                    let tag_data = tag.bytes_with_timestamp(ts);
                    s.pre_tag_size = tag_data.len() as u32;
                    pieces.push(tag_data);
                    s.audio_codec_tag_sended = true;
                },
                None => {},
            }
        }
        assert(pieces_view(pieces@) =~= pieces_view(first) + audio_codec_messages(info, mid));
        pieces
    }

    /// What `s` is sent of media tag `tag`: an audio tag once video has started for
    /// it or when there is no video to wait for; a video tag from the first key
    /// frame on. Timestamps are rebased on the subscriber's first tag of each kind.
    fn plan_media(&self, tag: &FlvTag, s: &mut Subscriber) -> (pieces: Vec<Vec<u8>>)
        ensures
            pieces_view(pieces@) == media_messages(stream_info(self@), tag@, old(s)@),
            final(s)@ == media_next(stream_info(self@), tag@, old(s)@),
    {
        let tag_timestamp: u32 = tag.timestamp();
        let mut pieces: Vec<Vec<u8>> = Vec::new();
        if tag.is_audio_tag() {
            let has_video = match &self.flv_header {
                Some(header) => header.has_video(),
                None => false,
            };
            let has_video_codec = self.avc_decoder_configuration_record.is_some();
            let video_transmission_started = s.video_start_timestamp.is_some();
            if video_transmission_started || !has_video_codec || !has_video {
                let ts = match s.audio_start_timestamp {
                    None => {
                        s.audio_start_timestamp = Some(tag_timestamp);
                        0
                    },
                    Some(start) => tag_timestamp.wrapping_sub(start),
                };
                pieces.push(u32_be_bytes(s.pre_tag_size));
                let tag_data = tag.bytes_with_timestamp(ts);
                s.pre_tag_size = tag_data.len() as u32;
                pieces.push(tag_data);
            }
        } else if tag.is_video_tag() {
            match s.video_start_timestamp {
                None => {
                    if Self::is_video_tag_keyframe(tag) {
                        s.video_start_timestamp = Some(tag_timestamp);
                        pieces.push(u32_be_bytes(s.pre_tag_size));
                        let tag_data = tag.bytes_with_timestamp(0);
                        s.pre_tag_size = tag_data.len() as u32;
                        pieces.push(tag_data);
                    }
                },
                Some(start) => {
                    pieces.push(u32_be_bytes(s.pre_tag_size));
                    let tag_data = tag.bytes_with_timestamp(tag_timestamp.wrapping_sub(start));
                    s.pre_tag_size = tag_data.len() as u32;
                    pieces.push(tag_data);
                },
            }
        }
        assert(pieces_view(pieces@) =~= media_messages(stream_info(self@), tag@, old(s)@));
        pieces
    }

    /// Runs one pass over all subscribers: each is sent what the pass has for it,
    /// in order, up to the first send that fails; a subscriber for which a send
    /// fails is dropped.
    fn run_pass(&mut self, kind: PassKind, media: Option<&FlvTag>)
        requires
            kind is Media ==> media is Some,
        ensures
            after_pass(
                stream_info(old(self)@),
                pass_of(kind, media),
                old(self)@.subscribers,
                old(self)@.departed,
                final(self)@.subscribers,
                final(self)@.departed,
            ),
            final(self)@ == (RemuxerView {
                subscribers: final(self)@.subscribers,
                departed: final(self)@.departed,
                ..old(self)@
            }),
    {
        let ghost info = stream_info(old(self)@);
        let ghost pass = pass_of(kind, media);
        let mut subs: Vec<Subscriber> = Vec::new();
        std::mem::swap(&mut subs, &mut self.subscribers);
        let ghost old_views = views(subs@);
        let ghost frozen = self@;
        let n = subs.len();
        let mut i: usize = 0;
        while i < n
            invariant
                subs@.len() == n,
                old_views.len() == n,
                0 <= i <= n,
                self@ == frozen,
                info == stream_info(self@),
                kind is Media ==> media is Some,
                pass == pass_of(kind, media),
                forall|j: int|
                    0 <= j < i ==> #[trigger] delivered_or_failed(
                        info,
                        pass,
                        old_views[j],
                        subs@[j]@,
                    ),
                forall|j: int| i <= j < n ==> (#[trigger] subs@[j])@ == old_views[j],
            decreases n - i,
        {
            let ghost before = subs@;
            let ghost o = subs@[i as int]@;
            let pieces = match kind {
                PassKind::HeaderScript => self.plan_header_script(&mut subs[i]),
                PassKind::CodecTags => self.plan_codec(&mut subs[i]),
                PassKind::Media => match media {
                    Some(tag) => self.plan_media(tag, &mut subs[i]),
                    None => Vec::new(),
                },
            };
            let ghost pv = pieces_view(pieces@);
            assert(pv == pass_messages(info, pass, o));
            assert(subs@[i as int]@ == pass_state(info, pass, o));
            let delivered = subs[i].deliver(pieces);
            if !delivered {
                let ghost k = choose|k: int|
                    0 <= k < pv.len() && subs@[i as int]@.outbox == o.outbox + #[trigger] refused_at(pv, k);
                subs[i].active = false;
                assert(failed_at(info, pass, o, subs@[i as int]@, k));
            } else {
                assert(subs@[i as int]@ == pass_next(info, pass, o));
            }
            assert(delivered_or_failed(info, pass, o, subs@[i as int]@));
            assert forall|j: int| 0 <= j < n && j != i implies subs@[j] == before[j] by {}
            i = i + 1;
        }
        let ghost mid = views(subs@);
        assert forall|j: int| 0 <= j < n implies #[trigger] delivered_or_failed(info, pass, old_views[j], mid[j]) by {
            assert(delivered_or_failed(info, pass, old_views[j], subs@[j]@));
        }
        self.subscribers = subs;
        self.clean_subscriber();
        assert(pass_outcome(info, pass, old_views, frozen.departed, mid, self@.subscribers, self@.departed));
    }

    /// Sends the header and the script tag to every subscriber that lacks them, once
    /// both are known.
    fn dispatch_flv_header_script(&mut self)
        ensures
            after_pass(
                stream_info(old(self)@),
                Pass::HeaderScript,
                old(self)@.subscribers,
                old(self)@.departed,
                final(self)@.subscribers,
                final(self)@.departed,
            ),
            final(self)@ == (RemuxerView {
                subscribers: final(self)@.subscribers,
                departed: final(self)@.departed,
                ..old(self)@
            }),
    {
        self.run_pass(PassKind::HeaderScript, None);
    }

    /// Sends the known codec configuration records to every subscriber that lacks
    /// them.
    fn dispatch_audio_video_codec_tag(&mut self)
        ensures
            after_pass(
                stream_info(old(self)@),
                Pass::CodecTags,
                old(self)@.subscribers,
                old(self)@.departed,
                final(self)@.subscribers,
                final(self)@.departed,
            ),
            final(self)@ == (RemuxerView {
                subscribers: final(self)@.subscribers,
                departed: final(self)@.departed,
                ..old(self)@
            }),
    {
        self.run_pass(PassKind::CodecTags, None);
    }

    /// Sends media tag `tag` to every subscriber that is ready for it.
    fn dispatch_tag(&mut self, tag: &FlvTag)
        ensures
            after_pass(
                stream_info(old(self)@),
                Pass::Media(tag@),
                old(self)@.subscribers,
                old(self)@.departed,
                final(self)@.subscribers,
                final(self)@.departed,
            ),
            final(self)@ == (RemuxerView {
                subscribers: final(self)@.subscribers,
                departed: final(self)@.departed,
                ..old(self)@
            }),
    {
        self.run_pass(PassKind::Media, Some(tag));
    }

    /// Hands `message` to each of `subs`, in order, whether or not the channels take
    /// it.
    fn tell_each(subs: &mut Vec<Subscriber>, message: &Message)
        ensures
            each_told(views(old(subs)@), views(final(subs)@), message_view(*message)),
    {
        let ghost start = views(subs@);
        let n = subs.len();
        let mut i: usize = 0;
        while i < n
            invariant
                subs@.len() == n,
                start.len() == n,
                0 <= i <= n,
                forall|j: int| 0 <= j < i ==> #[trigger] subs@[j]@ == (SubscriberView {
                    outbox: start[j].outbox.push(
                        Handed { message: message_view(*message), accepted: subs@[j]@.outbox.last().accepted },
                    ),
                    ..start[j]
                }),
                forall|j: int| i <= j < n ==> (#[trigger] subs@[j])@ == start[j],
            decreases n - i,
        {
            let ghost before = subs@;
            let copy = message.duplicate();
            let _ = subs[i].send(copy);
            assert forall|j: int| 0 <= j < n && j != i implies subs@[j] == before[j] by {}
            i = i + 1;
        }
        assert(views(subs@).len() == n);
    }

    /// Hands `message` to every subscriber and drops them all.
    fn tell_all(&mut self, message: &Message)
        ensures
            final(self)@ == (RemuxerView {
                subscribers: seq![],
                departed: final(self)@.departed,
                ..old(self)@
            }),
            told_all(old(self)@.subscribers, old(self)@.departed, final(self)@.departed, message_view(*message)),
    {
        let mut subs: Vec<Subscriber> = Vec::new();
        std::mem::swap(&mut subs, &mut self.subscribers);
        Self::tell_each(&mut subs, message);
        let ghost before = self.departed@;
        self.departed = Ghost(self.departed@ + views(subs@));
        assert(self.departed@.take(before.len() as int) =~= before);
        assert(self.departed@.skip(before.len() as int) =~= views(subs@));
        assert(views(self.subscribers@) =~= seq![]);
    }

    /// Tells every subscriber that the stream ended, and drops them all: each is
    /// handed one `Eof`, whether or not its channel takes it.
    pub fn dispatch_eof(&mut self)
        ensures
            final(self)@ == (RemuxerView {
                subscribers: seq![],
                departed: final(self)@.departed,
                ..old(self)@
            }),
            told_all(old(self)@.subscribers, old(self)@.departed, final(self)@.departed, MessageView::Eof),
    {
        self.tell_all(&Message::Eof);
    }

    /// Tells every subscriber that the stream failed with `error`, and drops them
    /// all: each is handed one `Error` with the kind and description of `error`,
    /// whether or not its channel takes it.
    pub fn dispatch_error(&mut self, error: &StreamError)
        ensures
            final(self)@ == (RemuxerView {
                subscribers: seq![],
                departed: final(self)@.departed,
                ..old(self)@
            }),
            told_all(
                old(self)@.subscribers,
                old(self)@.departed,
                final(self)@.departed,
                MessageView::Error(error.kind, error.message@),
            ),
    {
        self.tell_all(&Message::Error(error.duplicate()));
    }

    /// Handles one result of the FLV parser. True when the parser needs more data.
    pub fn handle_flv_parser_result(&mut self, parse_result: ParseResult) -> (more_data_required:
        bool)
        ensures
            more_data_required == (parse_result is MoreDataRequired),
            handled(old(self)@, parse_result, final(self)@),
    {
        match parse_result {
            ParseResult::MoreDataRequired(_) => {
                return true;
            },
            ParseResult::Header(header) => {
                self.flv_header = Some(header);
            },
            ParseResult::Tag(tag) => {
                let ghost old_view = self@;
                let ghost t = tag@;
                if tag.is_script_tag() && self.flv_script_tag.is_none() {
                    self.flv_script_tag = Some(tag);
                } else {
                    if self.flv_script_tag.is_some() && self.flv_header.is_some() {
                        self.dispatch_flv_header_script();
                    }
                    let ghost s1 = self@.subscribers;
                    let ghost g1 = self@.departed;
                    if self.is_avc_decoder_configuration_record(&tag)
                        && self.avc_decoder_configuration_record.is_none() {
                        self.avc_decoder_configuration_record = Some(tag);
                        assert(tag_steps(old_view, t, s1, g1, s1, g1, self@));
                    } else if self.is_audio_specific_config(&tag)
                        && self.audio_specific_config.is_none() {
                        self.audio_specific_config = Some(tag);
                        assert(tag_steps(old_view, t, s1, g1, s1, g1, self@));
                    } else {
                        self.dispatch_audio_video_codec_tag();
                        let ghost s2 = self@.subscribers;
                        let ghost g2 = self@.departed;
                        self.dispatch_tag(&tag);
                        assert(tag_steps(old_view, t, s1, g1, s2, g2, self@));
                    }
                }
            },
            ParseResult::PreTagSize(_) => {},
        }
        false
    }

    /// Checks that someone still listens: with no subscriber the remuxer is `Dead`
    /// and the error says so.
    pub fn check_subscribers(&mut self) -> (r: Result<(), StreamError>)
        ensures
            r is Err <==> old(self)@.subscribers.len() == 0,
            r is Ok ==> final(self)@ == old(self)@,
            r matches Err(e) ==> final(self)@ == (RemuxerView {
                state: RemuxerState::Dead,
                ..old(self)@
            }) && e.kind == StreamErrorKind::NotConnected && e.message@ == "no subscriber"@,
    {
        if self.subscribers.len() == 0 {
            self.state = RemuxerState::Dead;
            return Err(StreamError::new(StreamErrorKind::NotConnected, "no subscriber".to_owned()));
        }
        Ok(())
    }

    /// Decides what follows a read from the transcoder: bytes are parsed; the end of
    /// the stream or a failure makes the remuxer `Dead`, and the transcoder is then
    /// to be stopped before the stream is finished.
    pub fn on_pull_result(&mut self, outcome: PullOutcome) -> (step: PullStep)
        ensures
            match outcome {
                PullOutcome::Data(size) => if size > 0 {
                    step is Parse && final(self)@ == old(self)@
                } else {
                    step matches PullStep::Stop(Ending::EndOfStream) && final(self)@ == (
                    RemuxerView { state: RemuxerState::Dead, ..old(self)@ })
                },
                PullOutcome::Failed(e) => (step matches PullStep::Stop(Ending::Failure(f)) && f.kind
                    == e.kind && f.message@ == e.message@) && final(self)@ == (RemuxerView {
                    state: RemuxerState::Dead,
                    ..old(self)@
                }),
            },
    {
        match outcome {
            PullOutcome::Data(size) => {
                if size > 0 {
                    PullStep::Parse
                } else {
                    self.state = RemuxerState::Dead;
                    PullStep::Stop(Ending::EndOfStream)
                }
            },
            PullOutcome::Failed(e) => {
                self.state = RemuxerState::Dead;
                PullStep::Stop(Ending::Failure(e))
            },
        }
    }

    /// Finishes the stream once the transcoder is stopped: every subscriber is told
    /// of the end or of the failure and dropped. Returns the error that ends the
    /// read: `UnexpectedEof` with "End of stream", or the failure itself.
    pub fn finish(&mut self, ending: &Ending) -> (err: StreamError)
        ensures
            final(self)@ == (RemuxerView {
                subscribers: seq![],
                departed: final(self)@.departed,
                ..old(self)@
            }),
            told_all(
                old(self)@.subscribers,
                old(self)@.departed,
                final(self)@.departed,
                match ending {
                    Ending::EndOfStream => MessageView::Eof,
                    Ending::Failure(e) => MessageView::Error(e.kind, e.message@),
                },
            ),
            match ending {
                Ending::EndOfStream => err.kind == StreamErrorKind::UnexpectedEof && err.message@
                    == "End of stream"@,
                Ending::Failure(e) => err.kind == e.kind && err.message@ == e.message@,
            },
    {
        match ending {
            Ending::EndOfStream => {
                self.dispatch_eof();
                StreamError::new(StreamErrorKind::UnexpectedEof, "End of stream".to_owned())
            },
            Ending::Failure(e) => {
                self.dispatch_error(e);
                e.duplicate()
            },
        }
    }

    /// Drops the subscribers that a failed send made inactive.
    fn clean_subscriber(&mut self)
        ensures
            final(self)@ == (RemuxerView {
                subscribers: active_only(old(self)@.subscribers),
                departed: old(self)@.departed + inactive_only(old(self)@.subscribers),
                ..old(self)@
            }),
    {
        let mut rest: Vec<Subscriber> = Vec::new();
        std::mem::swap(&mut rest, &mut self.subscribers);
        let ghost all = views(rest@);
        let ghost before = *self;
        let n = rest.len();
        let mut k: usize = 0;
        assert(views(self.subscribers@) =~= active_only(all.take(0)));
        assert(before.departed@ + inactive_only(all.take(0)) =~= before.departed@);
        while rest.len() > 0
            invariant
                all.len() == n,
                0 <= k <= n,
                rest@.len() == n - k,
                forall|j: int| 0 <= j < n - k ==> (#[trigger] rest@[j])@ == all[k + j],
                views(self.subscribers@) == active_only(all.take(k as int)),
                self.departed@ == before.departed@ + inactive_only(all.take(k as int)),
                self.flv_header == before.flv_header,
                self.flv_script_tag == before.flv_script_tag,
                self.avc_decoder_configuration_record == before.avc_decoder_configuration_record,
                self.audio_specific_config == before.audio_specific_config,
                self.rw_timeout == before.rw_timeout,
                self.state == before.state,
                self.transcoder == before.transcoder,
            decreases rest@.len(),
        {
            let ghost prev = rest@;
            let s = rest.remove(0);
            proof {
                lemma_active_only_step(all, k as int);
                assert(s@ == all[k as int]);
            }
            if s.active {
                proof {
                    lemma_views_push(self.subscribers@, s);
                }
                self.subscribers.push(s);
            } else {
                self.departed = Ghost(self.departed@.push(s@));
                assert(self.departed@ =~= before.departed@ + inactive_only(all.take(k + 1)));
            }
            k = k + 1;
            assert forall|j: int| 0 <= j < n - k implies (#[trigger] rest@[j])@ == all[k + j] by {
                assert(rest@[j] == prev[j + 1]);
            }
        }
        assert(all.take(n as int) =~= all);
    }
}


// ---- laws ------------------------------------------------------------------

/// Whether every subscriber in `s` is active.
pub open spec fn all_active(s: Seq<SubscriberView>) -> bool {
    forall|i: int| 0 <= i && i < s.len() ==> (#[trigger] s[i]).active
}

/// Whether `n` is subscriber `o` later on: same id and channel; its outbox begins
/// with what `o` had been handed; start timestamps, once set, unchanged; the header,
/// script tag and codec records, once sent, still counted as sent.
pub open spec fn progressed(o: SubscriberView, n: SubscriberView) -> bool {
    &&& n.id == o.id
    &&& n.tx == o.tx
    &&& o.outbox.is_prefix_of(n.outbox)
    &&& (o.video_start_timestamp is Some ==> n.video_start_timestamp == o.video_start_timestamp)
    &&& (o.audio_start_timestamp is Some ==> n.audio_start_timestamp == o.audio_start_timestamp)
    &&& (o.header_script_sended ==> n.header_script_sended)
    &&& (o.video_codec_tag_sended ==> n.video_codec_tag_sended)
    &&& (o.audio_codec_tag_sended ==> n.audio_codec_tag_sended)
}

/// Whether subscriber `k` of `new` is some subscriber of `old` later on.
pub open spec fn has_origin(old: Seq<SubscriberView>, new: Seq<SubscriberView>, k: int) -> bool {
    exists|i: int| 0 <= i && i < old.len() && #[trigger] progressed(old[i], new[k])
}

/// Whether every subscriber of `new` is a subscriber of `old` later on.
pub open spec fn continues(old: Seq<SubscriberView>, new: Seq<SubscriberView>) -> bool {
    forall|k: int| 0 <= k && k < new.len() ==> #[trigger] has_origin(old, new, k)
}

/// Whether element `k` of `active_only(s)` is an active element of `s`.
spec fn kept_from(s: Seq<SubscriberView>, k: int) -> bool {
    exists|i: int| 0 <= i && i < s.len() && s[i].active && #[trigger] s[i] == active_only(s)[k]
}

/// Whether element `k` of `inactive_only(s)` is an inactive element of `s`.
spec fn dropped_from(s: Seq<SubscriberView>, k: int) -> bool {
    exists|i: int| 0 <= i && i < s.len() && !s[i].active && #[trigger] s[i] == inactive_only(s)[k]
}

proof fn lemma_prefix_trans<A>(a: Seq<A>, b: Seq<A>, c: Seq<A>)
    requires
        a.is_prefix_of(b),
        b.is_prefix_of(c),
    ensures
        a.is_prefix_of(c),
{
    assert(a =~= c.subrange(0, a.len() as int)) by {
        assert forall|i: int| 0 <= i && i < a.len() implies a[i] == c[i] by {
            assert(a[i] == b.subrange(0, a.len() as int)[i]);
            assert(b[i] == c.subrange(0, b.len() as int)[i]);
        }
    }
}

/// Whether the tags that `info` holds fit their 24-bit size fields, as every tag does.
pub open spec fn info_fits(info: StreamInfo) -> bool {
    &&& (info.script matches Some(t) ==> t.data.len() <= MAX_TAG_DATA_LEN)
    &&& (info.avc matches Some(t) ==> t.data.len() <= MAX_TAG_DATA_LEN)
    &&& (info.asc matches Some(t) ==> t.data.len() <= MAX_TAG_DATA_LEN)
}

proof fn lemma_active_only_facts(s: Seq<SubscriberView>)
    ensures
        all_active(active_only(s)),
        active_only(s).len() <= s.len(),
        forall|k: int| 0 <= k && k < active_only(s).len() ==> #[trigger] kept_from(s, k),
        forall|k: int| 0 <= k && k < inactive_only(s).len() ==> #[trigger] dropped_from(s, k),
    decreases s.len(),
{
    if s.len() > 0 {
        let d = s.drop_last();
        let r = active_only(d);
        let q = inactive_only(d);
        lemma_active_only_facts(d);
        assert forall|k: int| 0 <= k && k < active_only(s).len() implies #[trigger] kept_from(s, k) by {
            if k < r.len() {
                assert(kept_from(d, k));
                let i = choose|i: int| 0 <= i && i < d.len() && d[i].active && #[trigger] d[i] == r[k];
                assert(s[i] == d[i]);
                assert(active_only(s)[k] == r[k]);
                assert(s[i] == active_only(s)[k]);
            } else {
                assert(active_only(s)[k] == s[s.len() - 1]);
                assert(s[s.len() - 1] == active_only(s)[k]);
            }
        }
        assert forall|k: int| 0 <= k && k < inactive_only(s).len() implies #[trigger] dropped_from(s, k) by {
            if k < q.len() {
                assert(dropped_from(d, k));
                let i = choose|i: int| 0 <= i && i < d.len() && !d[i].active && #[trigger] d[i] == q[k];
                assert(s[i] == d[i]);
                assert(inactive_only(s)[k] == q[k]);
                assert(s[i] == inactive_only(s)[k]);
            } else {
                assert(inactive_only(s)[k] == s[s.len() - 1]);
                assert(s[s.len() - 1] == inactive_only(s)[k]);
            }
        }
    }
}

proof fn lemma_pass_next_progressed(info: StreamInfo, pass: Pass, s: SubscriberView)
    ensures
        progressed(s, pass_next(info, pass, s)),
        pass_next(info, pass, s).active == s.active,
{
    let n = pass_next(info, pass, s);
    assert(s.outbox =~= n.outbox.subrange(0, s.outbox.len() as int));
}

/// A subscriber that is active after a pass was served in full.
proof fn lemma_active_delivered(info: StreamInfo, pass: Pass, o: SubscriberView, m: SubscriberView)
    requires
        delivered_or_failed(info, pass, o, m),
        m.active,
    ensures
        m == pass_next(info, pass, o),
{
    if m != pass_next(info, pass, o) {
        let j = choose|j: int| #[trigger] failed_at(info, pass, o, m, j);
    }
}

proof fn lemma_after_pass_facts(
    info: StreamInfo,
    pass: Pass,
    old: Seq<SubscriberView>,
    old_gone: Seq<SubscriberView>,
    new: Seq<SubscriberView>,
    new_gone: Seq<SubscriberView>,
)
    requires
        after_pass(info, pass, old, old_gone, new, new_gone),
    ensures
        all_active(new),
        new.len() <= old.len(),
        continues(old, new),
        old_gone.is_prefix_of(new_gone),
{
    let mid = choose|mid: Seq<SubscriberView>| #[trigger] pass_outcome(info, pass, old, old_gone, mid, new, new_gone);
    lemma_active_only_facts(mid);
    assert forall|k: int| 0 <= k && k < new.len() implies #[trigger] has_origin(old, new, k) by {
        assert(kept_from(mid, k));
        let i = choose|i: int|
            0 <= i && i < mid.len() && mid[i].active && #[trigger] mid[i] == active_only(mid)[k];
        assert(delivered_or_failed(info, pass, old[i], mid[i]));
        lemma_active_delivered(info, pass, old[i], mid[i]);
        lemma_pass_next_progressed(info, pass, old[i]);
        assert(progressed(old[i], new[k]));
    }
    assert(old_gone =~= new_gone.subrange(0, old_gone.len() as int));
}

proof fn lemma_continues_refl(s: Seq<SubscriberView>)
    ensures
        continues(s, s),
{
    assert forall|k: int| 0 <= k && k < s.len() implies #[trigger] has_origin(s, s, k) by {
        assert(s[k].outbox =~= s[k].outbox.subrange(0, s[k].outbox.len() as int));
        assert(progressed(s[k], s[k]));
    }
}

proof fn lemma_continues_trans(a: Seq<SubscriberView>, b: Seq<SubscriberView>, c: Seq<SubscriberView>)
    requires
        continues(a, b),
        continues(b, c),
    ensures
        continues(a, c),
{
    assert forall|k: int| 0 <= k && k < c.len() implies #[trigger] has_origin(a, c, k) by {
        assert(has_origin(b, c, k));
        let j = choose|j: int| 0 <= j && j < b.len() && #[trigger] progressed(b[j], c[k]);
        assert(has_origin(a, b, j));
        let i = choose|i: int| 0 <= i && i < a.len() && #[trigger] progressed(a[i], b[j]);
        lemma_prefix_trans(a[i].outbox, b[j].outbox, c[k].outbox);
        assert(progressed(a[i], c[k]));
    }
}

/// Handling a parser result changes the subscribers only by passes: they stay
/// active where they were, never grow in number, and each one left is an earlier
/// subscriber later on (same id and channel, what it was handed before still at the
/// head of its outbox, start timestamps kept once set, what was sent still counted
/// as sent); the dropped ones are only added to.
pub proof fn law_handled_subscribers(old: RemuxerView, event: ParseResult, new: RemuxerView)
    requires
        handled(old, event, new),
    ensures
        all_active(old.subscribers) ==> all_active(new.subscribers),
        new.subscribers.len() <= old.subscribers.len(),
        continues(old.subscribers, new.subscribers),
        old.departed.is_prefix_of(new.departed),
{
    lemma_continues_refl(old.subscribers);
    assert(old.departed =~= old.departed.subrange(0, old.departed.len() as int));
    match event {
        ParseResult::Tag(t) => {
            let t = t@;
            if !(t.is_script() && old.script is None) {
                let (s1, g1, s2, g2) = choose|
                    s1: Seq<SubscriberView>,
                    g1: Seq<SubscriberView>,
                    s2: Seq<SubscriberView>,
                    g2: Seq<SubscriberView>,
                | #[trigger] tag_steps(old, t, s1, g1, s2, g2, new);
                let info = stream_info(old);
                if old.header is Some && old.script is Some {
                    lemma_after_pass_facts(info, Pass::HeaderScript, old.subscribers, old.departed, s1, g1);
                }
                if !((is_avc_config(t) && old.avc is None) || (is_audio_config(t) && old.asc
                    is None)) {
                    lemma_after_pass_facts(info, Pass::CodecTags, s1, g1, s2, g2);
                    lemma_after_pass_facts(info, Pass::Media(t), s2, g2, new.subscribers, new.departed);
                    lemma_continues_trans(s1, s2, new.subscribers);
                    lemma_continues_trans(old.subscribers, s1, new.subscribers);
                    lemma_prefix_trans(g1, g2, new.departed);
                    lemma_prefix_trans(old.departed, g1, new.departed);
                }
            }
        },
        _ => {},
    }
}

/// The stream facts only grow: the header is the last one read; the first script
/// tag, the first AVC record and the first AAC config, once known, are never
/// replaced; the state, timeout and transcoder are left alone.
pub proof fn law_stream_info_kept(old: RemuxerView, event: ParseResult, new: RemuxerView)
    requires
        handled(old, event, new),
    ensures
        old.header is Some ==> new.header is Some,
        old.script is Some ==> new.script == old.script,
        old.avc is Some ==> new.avc == old.avc,
        old.asc is Some ==> new.asc == old.asc,
        new.state == old.state,
        new.rw_timeout == old.rw_timeout,
        new.transcoder == old.transcoder,
{
    match event {
        ParseResult::Tag(t) => {
            let t = t@;
            if !(t.is_script() && old.script is None) {
                let (s1, g1, s2, g2) = choose|
                    s1: Seq<SubscriberView>,
                    g1: Seq<SubscriberView>,
                    s2: Seq<SubscriberView>,
                    g2: Seq<SubscriberView>,
                | #[trigger] tag_steps(old, t, s1, g1, s2, g2, new);
            }
        },
        _ => {},
    }
}

/// A subscriber's stream is a chain of tags, each followed by its size: a pass
/// that sends anything sends, after the header and a zero previous-tag-size for the
/// header pass, pairs of a previous-tag-size field and a tag, where each size field
/// holds the size of the tag sent just before it; the subscriber then records the
/// size of the last tag it was sent.
pub proof fn law_tag_sizes_chain(info: StreamInfo, pass: Pass, s: SubscriberView)
    requires
        info_fits(info),
        pass matches Pass::Media(t) ==> t.data.len() <= MAX_TAG_DATA_LEN,
        pass_messages(info, pass, s).len() > 0,
    ensures
        ({
            let m = pass_messages(info, pass, s);
            let n = pass_next(info, pass, s);
            &&& n.pre_tag_size as int == m.last().len()
            &&& if pass is HeaderScript {
                m.len() == 3 && m[0] == header_bytes(info.header.unwrap()) && m[1] == be32(0)
            } else {
                &&& m.len() % 2 == 0
                &&& m[0] == be32(s.pre_tag_size)
                &&& forall|k: int|
                    0 < k < m.len() && k % 2 == 0 ==> m[k] == be32((#[trigger] m[k - 1]).len() as u32)
            }
        }),
{
    let m = pass_messages(info, pass, s);
    match pass {
        Pass::CodecTags => {
            let mid = video_codec_next(info, s);
            if video_codec_due(info, s) {
                if audio_codec_due(info, mid) {
                    assert(m[2] == be32(m[1].len() as u32));
                }
            }
        },
        _ => {},
    }
}

/// A subscriber's video begins with a key frame, at timestamp 0: until its video
/// has started, a video tag that is not a key frame is not sent to it, and a key
/// frame is sent as its previous-tag-size field and the tag rebased to 0.
pub proof fn law_video_starts_with_keyframe(info: StreamInfo, t: TagView, s: SubscriberView)
    requires
        t.is_video(),
        s.video_start_timestamp is None,
    ensures
        media_messages(info, t, s).len() > 0 <==> is_keyframe(t),
        is_keyframe(t) ==> media_messages(info, t, s)[1] == tag_bytes(t, 0)
            && media_next(info, t, s).video_start_timestamp == Some(t.timestamp),
        !is_keyframe(t) ==> pass_next(info, Pass::Media(t), s) == s,
        is_keyframe(t) ==> pass_next(info, Pass::Media(t), s).outbox == s.outbox + accepted_data(
            seq![be32(s.pre_tag_size), tag_bytes(t, 0)],
        ),
{
    if !is_keyframe(t) {
        assert(s.outbox + accepted_data(seq![]) =~= s.outbox);
    }
}

/// Audio waits for video: when the header announces video and the AVC record is
/// known, a subscriber whose video has not started is sent no audio; otherwise its
/// first audio tag goes out at timestamp 0 and later ones relative to it.
pub proof fn law_audio_waits_for_video(info: StreamInfo, t: TagView, s: SubscriberView)
    requires
        t.is_audio(),
    ensures
        (info.header matches Some(h) && h.has_video && info.avc is Some
            && s.video_start_timestamp is None) ==> media_messages(info, t, s).len() == 0,
        audio_allowed(info, s) ==> media_messages(info, t, s)[1] == tag_bytes(
            t,
            rebase_from(t.timestamp, s.audio_start_timestamp),
        ),
        audio_allowed(info, s) && s.audio_start_timestamp is None ==> media_messages(info, t, s)[1]
            == tag_bytes(t, 0),
        !audio_allowed(info, s) ==> pass_next(info, Pass::Media(t), s) == s,
{
    if !audio_allowed(info, s) {
        assert(s.outbox + accepted_data(seq![]) =~= s.outbox);
    }
}

/// The header with the script tag, and each codec record, go to a subscriber at
/// most once: after its pass, the same pass sends it nothing more, and a second
/// codec pass leaves it exactly as it is.
pub proof fn law_sent_once(info: StreamInfo, s: SubscriberView)
    ensures
        header_script_messages(info, header_script_next(info, s)).len() == 0,
        codec_messages(info, codec_next(info, s)).len() == 0,
        ({
            let n = pass_next(info, Pass::CodecTags, s);
            pass_next(info, Pass::CodecTags, n) == n
        }),
{
    let n = pass_next(info, Pass::CodecTags, s);
    assert(n.outbox + accepted_data(seq![]) =~= n.outbox);
}

/// Rebasing undoes the offset: a tag sent with timestamp `rebase(ts, start)` is the
/// tag `start` later in the source, modulo 2^32.
pub proof fn law_rebase_offset(ts: u32, start: u32)
    ensures
        (rebase(ts, start) as int + start as int) % 0x1_0000_0000 == ts as int,
        rebase(start, start) == 0,
{
}

/// Whether subscriber `k` of `new` is some subscriber of `old` served in full by
/// the pass.
pub open spec fn passed_from(
    info: StreamInfo,
    pass: Pass,
    old: Seq<SubscriberView>,
    new: Seq<SubscriberView>,
    k: int,
) -> bool {
    exists|i: int| 0 <= i && i < old.len() && #[trigger] pass_next(info, pass, old[i]) == new[k]
}

/// Whether `m` is subscriber `o` dropped by a pass: inactive already, or refused
/// one of the messages of the pass.
pub open spec fn left_in_pass(info: StreamInfo, pass: Pass, o: SubscriberView, m: SubscriberView) -> bool {
    (!o.active && m == pass_next(info, pass, o)) || exists|j: int| #[trigger] failed_at(info, pass, o, m, j)
}

/// Whether subscriber `k` of `gone` is some subscriber of `old` dropped by the pass.
pub open spec fn departed_from(
    info: StreamInfo,
    pass: Pass,
    old: Seq<SubscriberView>,
    gone: Seq<SubscriberView>,
    k: int,
) -> bool {
    exists|i: int| 0 <= i && i < old.len() && #[trigger] left_in_pass(info, pass, old[i], gone[k])
}

/// What a pass sends: every subscriber left after it is a subscriber from before,
/// moved to its next state, whose channel was handed exactly the messages of the
/// pass, in order, and took each of them.
pub proof fn law_pass_survivors(
    info: StreamInfo,
    pass: Pass,
    old: Seq<SubscriberView>,
    old_gone: Seq<SubscriberView>,
    new: Seq<SubscriberView>,
    new_gone: Seq<SubscriberView>,
)
    requires
        after_pass(info, pass, old, old_gone, new, new_gone),
    ensures
        forall|k: int| 0 <= k && k < new.len() ==> #[trigger] passed_from(info, pass, old, new, k),
        forall|k: int| 0 <= k && k < new.len() ==> (#[trigger] new[k]).active,
{
    let mid = choose|mid: Seq<SubscriberView>| #[trigger] pass_outcome(info, pass, old, old_gone, mid, new, new_gone);
    lemma_active_only_facts(mid);
    assert forall|k: int| 0 <= k && k < new.len() implies #[trigger] passed_from(
        info,
        pass,
        old,
        new,
        k,
    ) by {
        assert(kept_from(mid, k));
        let i = choose|i: int|
            0 <= i && i < mid.len() && mid[i].active && #[trigger] mid[i] == active_only(mid)[k];
        assert(delivered_or_failed(info, pass, old[i], mid[i]));
        lemma_active_delivered(info, pass, old[i], mid[i]);
        assert(pass_next(info, pass, old[i]) == new[k]);
    }
}

/// Who a pass drops: the dropped ones are only added to, and each added one is a
/// subscriber from before that was inactive already, or whose channel refused a
/// message of the pass (after which it was handed nothing more). A subscriber whose
/// channel takes every message is never dropped.
pub proof fn law_pass_departures(
    info: StreamInfo,
    pass: Pass,
    old: Seq<SubscriberView>,
    old_gone: Seq<SubscriberView>,
    new: Seq<SubscriberView>,
    new_gone: Seq<SubscriberView>,
)
    requires
        after_pass(info, pass, old, old_gone, new, new_gone),
    ensures
        old_gone.is_prefix_of(new_gone),
        forall|k: int|
            0 <= k && k < new_gone.len() - old_gone.len() ==> #[trigger] departed_from(
                info,
                pass,
                old,
                new_gone.skip(old_gone.len() as int),
                k,
            ),
{
    let mid = choose|mid: Seq<SubscriberView>| #[trigger] pass_outcome(info, pass, old, old_gone, mid, new, new_gone);
    lemma_active_only_facts(mid);
    let gone = new_gone.skip(old_gone.len() as int);
    assert(gone =~= inactive_only(mid));
    assert(old_gone =~= new_gone.subrange(0, old_gone.len() as int));
    assert forall|k: int| 0 <= k && k < new_gone.len() - old_gone.len() implies #[trigger] departed_from(
        info,
        pass,
        old,
        gone,
        k,
    ) by {
        assert(dropped_from(mid, k));
        let i = choose|i: int|
            0 <= i && i < mid.len() && !mid[i].active && #[trigger] mid[i] == inactive_only(mid)[k];
        assert(delivered_or_failed(info, pass, old[i], mid[i]));
        if mid[i] == pass_next(info, pass, old[i]) {
            lemma_pass_next_progressed(info, pass, old[i]);
        }
        assert(left_in_pass(info, pass, old[i], gone[k]));
    }
}

/// Audio timestamps start at zero for each subscriber and then run on: when an
/// audio tag is sent to a subscriber, it goes as the previous-tag-size field and
/// the tag; the subscriber's audio start is afterwards the start it had, or this
/// tag's own timestamp when it had none (whether or not its video has started);
/// the tag is sent relative to that start, and its size is recorded.
pub proof fn law_audio_start_recorded(info: StreamInfo, t: TagView, s: SubscriberView)
    requires
        t.is_audio(),
        media_messages(info, t, s).len() > 0,
    ensures
        ({
            let start: u32 = match s.audio_start_timestamp {
                Some(a) => a,
                None => t.timestamp,
            };
            let n = media_next(info, t, s);
            &&& n.audio_start_timestamp == Some(start)
            &&& media_messages(info, t, s) == seq![be32(s.pre_tag_size), tag_bytes(t, rebase(t.timestamp, start))]
            &&& n.pre_tag_size == encoded_len(t)
            &&& n.video_start_timestamp == s.video_start_timestamp
        }),
        s.audio_start_timestamp is None ==> media_messages(info, t, s)[1] == tag_bytes(t, 0),
{
    if s.audio_start_timestamp is None {
        assert(rebase(t.timestamp, t.timestamp) == 0);
    }
}

/// Once a subscriber's video has started at source timestamp `v`, every video tag,
/// key frame or not, is sent to it as the previous-tag-size field and the tag at
/// its distance from `v` (modulo 2^32); the start stays `v`, and the tag's size
/// is recorded.
pub proof fn law_video_follows_start(info: StreamInfo, t: TagView, s: SubscriberView, v: u32)
    requires
        t.is_video(),
        s.video_start_timestamp == Some(v),
    ensures
        media_messages(info, t, s) == seq![be32(s.pre_tag_size), tag_bytes(t, rebase(t.timestamp, v))],
        media_next(info, t, s).video_start_timestamp == Some(v),
        media_next(info, t, s).audio_start_timestamp == s.audio_start_timestamp,
        media_next(info, t, s).pre_tag_size == encoded_len(t),
{
}

/// The stream of each subscriber opens with the FLV header, a zero
/// previous-tag-size field and the script tag at its own timestamp, handed once
/// both are known and never again; before that it is handed nothing of them.
pub proof fn law_header_script_sent(info: StreamInfo, s: SubscriberView)
    ensures
        (!s.header_script_sended && info.header is Some && info.script is Some) ==> {
            &&& header_script_messages(info, s) == seq![
                header_bytes(info.header.unwrap()),
                be32(0),
                tag_bytes(info.script.unwrap(), info.script.unwrap().timestamp),
            ]
            &&& header_script_next(info, s).header_script_sended
            &&& header_script_next(info, s).pre_tag_size == encoded_len(info.script.unwrap())
        },
        (s.header_script_sended || info.header is None || info.script is None) ==> {
            &&& header_script_messages(info, s).len() == 0
            &&& header_script_next(info, s) == s
        },
{
}

/// Two audio tags sent one after the other to a subscriber that had no audio start
/// yet: the first goes at timestamp 0 and the second at its distance from the
/// first, modulo 2^32.
pub proof fn law_audio_follows_first(info: StreamInfo, t1: TagView, t2: TagView, s: SubscriberView)
    requires
        t1.is_audio(),
        t2.is_audio(),
        s.audio_start_timestamp is None,
        media_messages(info, t1, s).len() > 0,
    ensures
        media_messages(info, t1, s)[1] == tag_bytes(t1, 0),
        media_messages(info, t2, media_next(info, t1, s)) == seq![
            be32(encoded_len(t1)),
            tag_bytes(t2, rebase(t2.timestamp, t1.timestamp)),
        ],
{
    law_audio_start_recorded(info, t1, s);
    let s1 = media_next(info, t1, s);
    assert(audio_allowed(info, s1));
    law_audio_start_recorded(info, t2, s1);
}

/// The codec pass hands each subscriber every configuration record that is known
/// and that it has not been sent, each on its own and whatever else is known: the
/// AVC record first, as the previous-tag-size field and the record at its rebased
/// timestamp, then the AAC config in the same way. A subscriber counts a record as
/// sent afterwards exactly when it had been sent it before or is handed it now.
pub proof fn law_codec_records_sent(info: StreamInfo, s: SubscriberView)
    ensures
        ({
            let m = codec_messages(info, s);
            let n = codec_next(info, s);
            let video_now = !s.video_codec_tag_sended && info.avc is Some;
            let audio_now = !s.audio_codec_tag_sended && info.asc is Some;
            &&& n.video_codec_tag_sended == (s.video_codec_tag_sended || info.avc is Some)
            &&& n.audio_codec_tag_sended == (s.audio_codec_tag_sended || info.asc is Some)
            &&& m.len() == (if video_now { 2int } else { 0int }) + (if audio_now { 2int } else { 0int })
            &&& (video_now ==> m[0] == be32(s.pre_tag_size) && m[1] == tag_bytes(
                info.avc.unwrap(),
                rebase_from(info.avc.unwrap().timestamp, s.video_start_timestamp),
            ))
            &&& (audio_now ==> m[m.len() - 2] == be32(
                if video_now { encoded_len(info.avc.unwrap()) } else { s.pre_tag_size },
            ) && m[m.len() - 1] == tag_bytes(
                info.asc.unwrap(),
                rebase_from(info.asc.unwrap().timestamp, s.audio_start_timestamp),
            ))
            &&& n.video_start_timestamp == s.video_start_timestamp
            &&& n.audio_start_timestamp == s.audio_start_timestamp
        }),
{
}

/// The first AVC record and the first AAC config are kept, whatever else is known:
/// handling such a tag while no record of its kind is known makes it the stream's
/// record, leaves the other facts alone, and hands no subscriber anything but the
/// header and script tag still due to it, so no subscriber gets the record as
/// media.
pub proof fn law_config_records_kept(old: RemuxerView, t: FlvTag, new: RemuxerView)
    requires
        handled(old, ParseResult::Tag(t), new),
        (is_avc_config(t@) && old.avc is None) || (is_audio_config(t@) && old.asc is None),
    ensures
        is_avc_config(t@) ==> new.avc == Some(t@) && new.asc == old.asc,
        is_audio_config(t@) ==> new.asc == Some(t@) && new.avc == old.avc,
        new.header == old.header,
        new.script == old.script,
        if old.header is Some && old.script is Some {
            after_pass(
                stream_info(old),
                Pass::HeaderScript,
                old.subscribers,
                old.departed,
                new.subscribers,
                new.departed,
            )
        } else {
            new.subscribers == old.subscribers && new.departed == old.departed
        },
{
    let (s1, g1, s2, g2) = choose|
        s1: Seq<SubscriberView>,
        g1: Seq<SubscriberView>,
        s2: Seq<SubscriberView>,
        g2: Seq<SubscriberView>,
    | #[trigger] tag_steps(old, t@, s1, g1, s2, g2, new);
}

proof fn lemma_all_active_kept(s: Seq<SubscriberView>)
    requires
        all_active(s),
    ensures
        active_only(s) == s,
        inactive_only(s) == Seq::<SubscriberView>::empty(),
    decreases s.len(),
{
    if s.len() > 0 {
        let d = s.drop_last();
        assert(all_active(d)) by {
            assert forall|i: int| 0 <= i && i < d.len() implies (#[trigger] d[i]).active by {
                assert(d[i] == s[i]);
            }
        }
        lemma_all_active_kept(d);
        assert(s.last().active);
        assert(d.push(s.last()) =~= s);
    }
}

/// The header pass and the codec pass are done once: run again right after
/// themselves, on what they left, they hand nobody anything, drop nobody and
/// change no subscriber.
pub proof fn law_second_pass_is_idle(
    info: StreamInfo,
    pass: Pass,
    old: Seq<SubscriberView>,
    old_gone: Seq<SubscriberView>,
    new: Seq<SubscriberView>,
    new_gone: Seq<SubscriberView>,
    again: Seq<SubscriberView>,
    again_gone: Seq<SubscriberView>,
)
    requires
        pass is HeaderScript || pass is CodecTags,
        after_pass(info, pass, old, old_gone, new, new_gone),
        after_pass(info, pass, new, new_gone, again, again_gone),
    ensures
        again == new,
        again_gone == new_gone,
{
    law_pass_survivors(info, pass, old, old_gone, new, new_gone);
    let mid = choose|mid: Seq<SubscriberView>| #[trigger] pass_outcome(info, pass, new, new_gone, mid, again, again_gone);
    assert forall|k: int| 0 <= k && k < new.len() implies #[trigger] mid[k] == new[k] by {
        assert(passed_from(info, pass, old, new, k));
        let i = choose|i: int| 0 <= i && i < old.len() && #[trigger] pass_next(info, pass, old[i]) == new[k];
        law_sent_once(info, old[i]);
        assert(pass_messages(info, pass, new[k]).len() == 0);
        assert(delivered_or_failed(info, pass, new[k], mid[k]));
        if mid[k] != pass_next(info, pass, new[k]) {
            let j = choose|j: int| #[trigger] failed_at(info, pass, new[k], mid[k], j);
        }
        assert(new[k].outbox + accepted_data(seq![]) =~= new[k].outbox);
    }
    assert(mid =~= new);
    assert(all_active(new));
    lemma_all_active_kept(new);
    assert(again_gone =~= new_gone);
}

/// The header and the script tag come first: after the header pass, when both are
/// known, every subscriber left has been sent them.
pub proof fn law_header_pass_complete(
    info: StreamInfo,
    old: Seq<SubscriberView>,
    old_gone: Seq<SubscriberView>,
    new: Seq<SubscriberView>,
    new_gone: Seq<SubscriberView>,
)
    requires
        info.header is Some,
        info.script is Some,
        after_pass(info, Pass::HeaderScript, old, old_gone, new, new_gone),
    ensures
        forall|k: int| 0 <= k && k < new.len() ==> (#[trigger] new[k]).header_script_sended,
{
    law_pass_survivors(info, Pass::HeaderScript, old, old_gone, new, new_gone);
    assert forall|k: int| 0 <= k && k < new.len() implies (#[trigger] new[k]).header_script_sended by {
        assert(passed_from(info, Pass::HeaderScript, old, new, k));
    }
}

/// The codec records come before media: after the codec pass, every subscriber
/// left has been sent each codec record that is known.
pub proof fn law_codec_pass_complete(
    info: StreamInfo,
    old: Seq<SubscriberView>,
    old_gone: Seq<SubscriberView>,
    new: Seq<SubscriberView>,
    new_gone: Seq<SubscriberView>,
)
    requires
        after_pass(info, Pass::CodecTags, old, old_gone, new, new_gone),
    ensures
        forall|k: int|
            0 <= k && k < new.len() ==> (info.avc is Some ==> (#[trigger] new[k]).video_codec_tag_sended)
                && (info.asc is Some ==> new[k].audio_codec_tag_sended),
{
    law_pass_survivors(info, Pass::CodecTags, old, old_gone, new, new_gone);
    assert forall|k: int| 0 <= k && k < new.len() implies (info.avc is Some ==> (
    #[trigger] new[k]).video_codec_tag_sended) && (info.asc is Some ==> new[k].audio_codec_tag_sended) by {
        assert(passed_from(info, Pass::CodecTags, old, new, k));
    }
}

} // verus!
