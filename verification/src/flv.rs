//! FLV values as the remuxer reads and writes them: the file header, tags, and
//! their byte encodings.

use vstd::prelude::*;

verus! {

/// Tag type byte of an audio tag.
pub const TAG_TYPE_AUDIO: u8 = 8;

/// Tag type byte of a video tag.
pub const TAG_TYPE_VIDEO: u8 = 9;

/// Tag type byte of a script data tag.
pub const TAG_TYPE_SCRIPT: u8 = 18;

/// Length of the fixed part of an encoded tag (type, size, timestamp, stream id).
pub const TAG_HEADER_LEN: usize = 11;

/// Largest payload a tag can carry: its size field has 24 bits.
pub const MAX_TAG_DATA_LEN: usize = 0xff_ffff;

/// Largest stream id: the field has 24 bits.
pub const MAX_STREAM_ID: u32 = 0xff_ffff;

/// The low 24 bits of `v`, most significant byte first.
pub open spec fn be24(v: int) -> Seq<u8> {
    seq![((v / 0x10000) % 0x100) as u8, ((v / 0x100) % 0x100) as u8, (v % 0x100) as u8]
}

/// The four bytes of `v`, most significant byte first.
pub open spec fn be32(v: u32) -> Seq<u8> {
    seq![
        (v / 0x100_0000) as u8,
        ((v / 0x10000) % 0x100) as u8,
        ((v / 0x100) % 0x100) as u8,
        (v % 0x100) as u8,
    ]
}

/// Big-endian encoding of a `u32`, as used for the previous-tag-size fields.
pub fn u32_be_bytes(v: u32) -> (r: Vec<u8>)
    ensures
        r@ == be32(v),
{
    let mut r: Vec<u8> = Vec::with_capacity(4);
    r.push((v / 0x100_0000) as u8);
    r.push(((v / 0x10000) % 0x100) as u8);
    r.push(((v / 0x100) % 0x100) as u8);
    r.push((v % 0x100) as u8);
    assert(r@ =~= be32(v));
    r
}

/// Pushes the low 24 bits of `v`, most significant byte first.
fn push_be24(out: &mut Vec<u8>, v: u32)
    ensures
        final(out)@ == old(out)@ + be24(v as int),
{
    out.push(((v / 0x10000) % 0x100) as u8);
    out.push(((v / 0x100) % 0x100) as u8);
    out.push((v % 0x100) as u8);
    assert(final(out)@ =~= old(out)@ + be24(v as int));
}

/// The FLV file header.
#[derive(Clone, Copy, Debug)]
pub struct FlvHeader {
    pub version: u8,
    pub has_audio: bool,
    pub has_video: bool,
    pub data_offset: u32,
}

/// The type-flags byte of a header: bit 2 for audio, bit 0 for video.
pub open spec fn header_flags(h: FlvHeader) -> u8 {
    ((if h.has_audio { 4int } else { 0int }) + (if h.has_video { 1int } else { 0int })) as u8
}

/// The encoding of a header: the signature "FLV", the version, the type flags and
/// the data offset.
pub open spec fn header_bytes(h: FlvHeader) -> Seq<u8> {
    seq![0x46u8, 0x4cu8, 0x56u8, h.version, header_flags(h)] + be32(h.data_offset)
}

impl FlvHeader {
    /// Whether the stream announces video.
    pub fn has_video(&self) -> (r: bool)
        ensures
            r == self.has_video,
    {
        self.has_video
    }

    /// Whether the stream announces audio.
    pub fn has_audio(&self) -> (r: bool)
        ensures
            r == self.has_audio,
    {
        self.has_audio
    }

    /// The encoded header.
    pub fn into_bytes(&self) -> (r: Vec<u8>)
        ensures
            r@ == header_bytes(*self),
    {
        let flags: u8 = if self.has_audio { 4 } else { 0 } + if self.has_video { 1 } else { 0 };
        let mut r: Vec<u8> = Vec::with_capacity(9);
        r.push(0x46);
        r.push(0x4c);
        r.push(0x56);
        r.push(self.version);
        r.push(flags);
        let offset = u32_be_bytes(self.data_offset);
        let mut i: usize = 0;
        while i < 4
            invariant
                offset@ == be32(self.data_offset),
                0 <= i <= 4,
                r@ == seq![0x46u8, 0x4cu8, 0x56u8, self.version, header_flags(*self)] + offset@.take(i as int),
            decreases 4 - i,
        {
            r.push(offset[i]);
            assert(offset@.take(i + 1) =~= offset@.take(i as int).push(offset@[i as int]));
            i = i + 1;
        }
        assert(offset@.take(4) =~= offset@);
        r
    }
}

/// What a tag holds.
pub struct TagView {
    pub tag_type: u8,
    pub timestamp: u32,
    pub stream_id: u32,
    pub data: Seq<u8>,
}

impl TagView {
    pub open spec fn is_audio(self) -> bool {
        self.tag_type == TAG_TYPE_AUDIO
    }

    pub open spec fn is_video(self) -> bool {
        self.tag_type == TAG_TYPE_VIDEO
    }

    pub open spec fn is_script(self) -> bool {
        self.tag_type == TAG_TYPE_SCRIPT
    }
}

/// The encoding of tag `t` written with timestamp `ts`: type, 24-bit data size,
/// the low 24 bits of the timestamp, its high 8 bits, the 24-bit stream id, then
/// the data.
pub open spec fn tag_bytes(t: TagView, ts: u32) -> Seq<u8> {
    seq![t.tag_type] + be24(t.data.len() as int) + be24(ts as int) + seq![(ts / 0x100_0000) as u8]
        + be24(t.stream_id as int) + t.data
}

/// An FLV tag. Its data size and stream id fit their 24-bit fields.
pub struct FlvTag {
    tag_type: u8,
    timestamp: u32,
    stream_id: u32,
    data: Vec<u8>,
}

impl View for FlvTag {
    type V = TagView;

    closed spec fn view(&self) -> TagView {
        TagView {
            tag_type: self.tag_type,
            timestamp: self.timestamp,
            stream_id: self.stream_id,
            data: self.data@,
        }
    }
}

impl FlvTag {
    #[verifier::type_invariant]
    spec fn fits_fields(self) -> bool {
        self.data.len() <= MAX_TAG_DATA_LEN && self.stream_id <= MAX_STREAM_ID
    }

    /// A tag from its parts; `None` where the data or the stream id does not fit
    /// its 24-bit field.
    pub fn new(tag_type: u8, timestamp: u32, stream_id: u32, data: Vec<u8>) -> (r: Option<FlvTag>)
        ensures
            r is Some <==> (data@.len() <= MAX_TAG_DATA_LEN && stream_id <= MAX_STREAM_ID),
            r matches Some(t) ==> t@ == (TagView { tag_type, timestamp, stream_id, data: data@ }),
    {
        if data.len() <= MAX_TAG_DATA_LEN && stream_id <= MAX_STREAM_ID {
            Some(FlvTag { tag_type, timestamp, stream_id, data })
        } else {
            None
        }
    }

    pub fn tag_type(&self) -> (r: u8)
        ensures
            r == self@.tag_type,
    {
        self.tag_type
    }

    pub fn timestamp(&self) -> (r: u32)
        ensures
            r == self@.timestamp,
    {
        self.timestamp
    }

    pub fn stream_id(&self) -> (r: u32)
        ensures
            r == self@.stream_id,
    {
        self.stream_id
    }

    pub fn data(&self) -> (r: &Vec<u8>)
        ensures
            r@ == self@.data,
    {
        &self.data
    }

    pub fn set_timestamp(&mut self, timestamp: u32)
        ensures
            final(self)@ == (TagView { timestamp, ..old(self)@ }),
    {
        proof {
            use_type_invariant(&*self);
        }
        self.timestamp = timestamp;
    }

    pub fn is_audio_tag(&self) -> (r: bool)
        ensures
            r == self@.is_audio(),
    {
        self.tag_type == TAG_TYPE_AUDIO
    }

    pub fn is_video_tag(&self) -> (r: bool)
        ensures
            r == self@.is_video(),
    {
        self.tag_type == TAG_TYPE_VIDEO
    }

    pub fn is_script_tag(&self) -> (r: bool)
        ensures
            r == self@.is_script(),
    {
        self.tag_type == TAG_TYPE_SCRIPT
    }

    /// The tag encoded with timestamp `ts` in place of its own.
    pub fn bytes_with_timestamp(&self, ts: u32) -> (r: Vec<u8>)
        ensures
            r@ == tag_bytes(self@, ts),
            r@.len() == TAG_HEADER_LEN + self@.data.len(),
            r@.len() <= TAG_HEADER_LEN + MAX_TAG_DATA_LEN,
    {
        proof {
            use_type_invariant(self);
        }
        let n = self.data.len();
        let mut r: Vec<u8> = Vec::with_capacity(TAG_HEADER_LEN + n);
        r.push(self.tag_type);
        push_be24(&mut r, n as u32);
        push_be24(&mut r, ts);
        r.push((ts / 0x100_0000) as u8);
        push_be24(&mut r, self.stream_id);
        let ghost head = r@;
        let mut i: usize = 0;
        while i < n
            invariant
                n == self.data@.len(),
                0 <= i <= n,
                r@ == head + self.data@.take(i as int),
            decreases n - i,
        {
            r.push(self.data[i]);
            assert(self.data@.take(i + 1) =~= self.data@.take(i as int).push(self.data@[i as int]));
            i = i + 1;
        }
        assert(self.data@.take(n as int) =~= self.data@);
        assert(r@ =~= tag_bytes(self@, ts));
        r
    }

    /// The tag encoded with its own timestamp.
    pub fn into_bytes(&self) -> (r: Vec<u8>)
        ensures
            r@ == tag_bytes(self@, self@.timestamp),
            r@.len() == TAG_HEADER_LEN + self@.data.len(),
    {
        self.bytes_with_timestamp(self.timestamp)
    }
}

/// One step of an incremental FLV parser: more input is needed, or the header, a
/// tag, or a previous-tag-size field was read.
pub enum ParseResult {
    MoreDataRequired(usize),
    Header(FlvHeader),
    Tag(FlvTag),
    PreTagSize(u32),
}

/// The value of three bytes read most significant first.
pub open spec fn read_be24(b: Seq<u8>, at: int) -> int {
    b[at] * 0x10000 + b[at + 1] * 0x100 + b[at + 2]
}

/// The value of four bytes read most significant first.
pub open spec fn read_be32(b: Seq<u8>, at: int) -> int {
    b[at] * 0x100_0000 + b[at + 1] * 0x10000 + b[at + 2] * 0x100 + b[at + 3]
}

/// Reading back a big-endian `u32` gives the value written.
pub proof fn law_be32_roundtrip(v: u32)
    ensures
        be32(v).len() == 4,
        read_be32(be32(v), 0) == v,
{
}

/// An encoded tag reads back as the tag: its type, its data size, its timestamp
/// (low 24 bits, then the high 8), its stream id, and its data after the 11 bytes of
/// the fixed part.
pub proof fn law_tag_encoding(t: TagView, ts: u32)
    requires
        t.data.len() <= MAX_TAG_DATA_LEN,
        t.stream_id <= MAX_STREAM_ID,
    ensures
        tag_bytes(t, ts).len() == TAG_HEADER_LEN + t.data.len(),
        tag_bytes(t, ts)[0] == t.tag_type,
        read_be24(tag_bytes(t, ts), 1) == t.data.len(),
        read_be24(tag_bytes(t, ts), 4) + tag_bytes(t, ts)[7] * 0x100_0000 == ts,
        read_be24(tag_bytes(t, ts), 8) == t.stream_id,
        tag_bytes(t, ts).subrange(TAG_HEADER_LEN as int, tag_bytes(t, ts).len() as int) == t.data,
{
    let b = tag_bytes(t, ts);
    assert(b.subrange(TAG_HEADER_LEN as int, b.len() as int) =~= t.data);
}

/// An encoded header is nine bytes that read back as the header: the signature
/// "FLV", the version, the audio and video flags, the data offset.
pub proof fn law_header_encoding(h: FlvHeader)
    ensures
        header_bytes(h).len() == 9,
        header_bytes(h)[0] == 0x46 && header_bytes(h)[1] == 0x4c && header_bytes(h)[2] == 0x56,
        header_bytes(h)[3] == h.version,
        (header_bytes(h)[4] / 4) % 2 == 1 <==> h.has_audio,
        header_bytes(h)[4] % 2 == 1 <==> h.has_video,
        read_be32(header_bytes(h), 5) == h.data_offset,
{
}

} // verus!
