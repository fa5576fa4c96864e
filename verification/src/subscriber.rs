//! The receiving end of a remuxed stream: what the remuxer has sent to one
//! subscriber so far, and the channel it sends on.

use vstd::prelude::*;
use tokio::sync::mpsc::error::SendError;
use tokio::sync::mpsc::{UnboundedReceiver, UnboundedSender};

verus! {

#[verifier::external_type_specification]
#[verifier::external_body]
#[verifier::reject_recursive_types(T)]
pub struct ExUnboundedSender<T>(UnboundedSender<T>);

#[verifier::external_type_specification]
#[verifier::external_body]
#[verifier::reject_recursive_types(T)]
pub struct ExUnboundedReceiver<T>(UnboundedReceiver<T>);

#[verifier::external_type_specification]
#[verifier::external_body]
#[verifier::reject_recursive_types(T)]
pub struct ExSendError<T>(SendError<T>);

/// The kinds of stream failure that a subscriber can be told about.
#[derive(Clone, Copy, Debug, PartialEq, Eq)]
pub enum StreamErrorKind {
    NotFound,
    PermissionDenied,
    ConnectionRefused,
    ConnectionReset,
    ConnectionAborted,
    NotConnected,
    BrokenPipe,
    WouldBlock,
    InvalidInput,
    InvalidData,
    TimedOut,
    Interrupted,
    UnexpectedEof,
    HostUnreachable,
    NetworkUnreachable,
    AddrInUse,
    AddrNotAvailable,
    NetworkDown,
    AlreadyExists,
    NotADirectory,
    IsADirectory,
    DirectoryNotEmpty,
    ReadOnlyFilesystem,
    StaleNetworkFileHandle,
    WriteZero,
    StorageFull,
    NotSeekable,
    QuotaExceeded,
    FileTooLarge,
    ResourceBusy,
    ExecutableFileBusy,
    Deadlock,
    CrossesDevices,
    TooManyLinks,
    InvalidFilename,
    ArgumentListTooLong,
    Unsupported,
    OutOfMemory,
    Other,
}

/// A stream failure: its kind and its description.
#[derive(Debug)]
pub struct StreamError {
    pub kind: StreamErrorKind,
    pub message: String,
}

impl StreamError {
    pub fn new(kind: StreamErrorKind, message: String) -> (r: StreamError)
        ensures
            r.kind == kind,
            r.message@ == message@,
    {
        StreamError { kind, message }
    }

    /// A copy with the same kind and description.
    pub fn duplicate(&self) -> (r: StreamError)
        ensures
            r.kind == self.kind,
            r.message@ == self.message@,
    {
        StreamError { kind: self.kind, message: self.message.clone() }
    }
}

/// What a subscriber receives: a piece of the FLV stream, the end of the stream,
/// or the failure that ended it.
#[derive(Debug)]
pub enum Message {
    Eof,
    Error(StreamError),
    Data(Vec<u8>),
}

impl Message {
    /// A copy of the message.
    pub fn duplicate(&self) -> (r: Message)
        ensures
            message_view(r) == message_view(*self),
    {
        match self {
            Message::Eof => Message::Eof,
            Message::Error(e) => Message::Error(e.duplicate()),
            Message::Data(d) => Message::Data(d.clone()),
        }
    }
}

/// What a receiver of the stream gets next: bytes to pass on, the failure that
/// ended the stream, or the end.
#[derive(Debug)]
pub enum StreamItem {
    Chunk(Vec<u8>),
    Failure(StreamError),
    End,
}

/// What a received message, or a closed channel (`None`), means for the stream:
/// data is passed on, an error ends it with that error, the end of the stream or a
/// closed channel ends it.
pub fn stream_item(message: Option<Message>) -> (r: StreamItem)
    ensures
        match message {
            None => r is End,
            Some(Message::Eof) => r is End,
            Some(Message::Data(d)) => r matches StreamItem::Chunk(c) && c@ == d@,
            Some(Message::Error(e)) => r matches StreamItem::Failure(f) && f.kind == e.kind
                && f.message@ == e.message@,
        },
{
    match message {
        Some(Message::Data(data)) => StreamItem::Chunk(data),
        Some(Message::Eof) => StreamItem::End,
        Some(Message::Error(e)) => StreamItem::Failure(e),
        None => StreamItem::End,
    }
}

/// Opens the channel on which a subscriber receives its stream.
#[verifier::external_body]
pub(crate) fn open_channel() -> (UnboundedSender<Message>, UnboundedReceiver<Message>) {
    tokio::sync::mpsc::unbounded_channel()
}

/// What a message says: the end of the stream, a failure with its kind and
/// description, or bytes.
pub enum MessageView {
    Eof,
    Error(StreamErrorKind, Seq<char>),
    Data(Seq<u8>),
}

pub open spec fn message_view(m: Message) -> MessageView {
    match m {
        Message::Eof => MessageView::Eof,
        Message::Error(e) => MessageView::Error(e.kind, e.message@),
        Message::Data(d) => MessageView::Data(d@),
    }
}

/// One message handed to a subscriber's channel, and whether the channel took it.
pub struct Handed {
    pub message: MessageView,
    pub accepted: bool,
}

/// The pieces of a vector of byte vectors.
pub open spec fn pieces_view(v: Seq<Vec<u8>>) -> Seq<Seq<u8>> {
    v.map_values(|p: Vec<u8>| p@)
}

/// Each piece handed as data and taken.
pub open spec fn accepted_data(pieces: Seq<Seq<u8>>) -> Seq<Handed> {
    pieces.map_values(|p: Seq<u8>| Handed { message: MessageView::Data(p), accepted: true })
}

/// The hand-offs of a delivery of `pieces` that stopped at piece `j`: the pieces
/// before it handed and taken, piece `j` handed and refused.
pub open spec fn refused_at(pieces: Seq<Seq<u8>>, j: int) -> Seq<Handed> {
    accepted_data(pieces.take(j)).push(Handed { message: MessageView::Data(pieces[j]), accepted: false })
}

/// The state of a subscriber: its channel, what it has been handed, and what the
/// remuxer keeps for it.
pub struct SubscriberView {
    pub id: Seq<char>,
    pub video_start_timestamp: Option<u32>,
    pub audio_start_timestamp: Option<u32>,
    pub active: bool,
    pub tx: UnboundedSender<Message>,
    pub outbox: Seq<Handed>,
    pub header_script_sended: bool,
    pub audio_codec_tag_sended: bool,
    pub video_codec_tag_sended: bool,
    pub pre_tag_size: u32,
}

/// A subscriber on channel `tx` that has been sent nothing yet.
pub open spec fn fresh_subscriber(id: Seq<char>, tx: UnboundedSender<Message>) -> SubscriberView {
    SubscriberView {
        id,
        video_start_timestamp: None,
        audio_start_timestamp: None,
        active: true,
        tx,
        outbox: seq![],
        header_script_sended: false,
        audio_codec_tag_sended: false,
        video_codec_tag_sended: false,
        pre_tag_size: 0,
    }
}

/// One receiver of the remuxed stream.
pub struct Subscriber {
    pub id: String,
    /// Source timestamp of the first video tag sent; video timestamps are rebased on it.
    pub video_start_timestamp: Option<u32>,
    /// Source timestamp of the first audio tag sent; audio timestamps are rebased on it.
    pub audio_start_timestamp: Option<u32>,
    /// False once a send to this subscriber failed.
    pub active: bool,
    /// The sending end of the subscriber's channel.
    pub tx: UnboundedSender<Message>,
    /// Every message handed to the channel so far, in order, with whether it was taken.
    pub outbox: Ghost<Seq<Handed>>,
    pub header_script_sended: bool,
    pub audio_codec_tag_sended: bool,
    pub video_codec_tag_sended: bool,
    /// Size of the last tag sent, to be written as the next previous-tag-size field.
    pub pre_tag_size: u32,
}

impl View for Subscriber {
    type V = SubscriberView;

    open spec fn view(&self) -> SubscriberView {
        SubscriberView {
            id: self.id@,
            video_start_timestamp: self.video_start_timestamp,
            audio_start_timestamp: self.audio_start_timestamp,
            active: self.active,
            tx: self.tx,
            outbox: self.outbox@,
            header_script_sended: self.header_script_sended,
            audio_codec_tag_sended: self.audio_codec_tag_sended,
            video_codec_tag_sended: self.video_codec_tag_sended,
            pre_tag_size: self.pre_tag_size,
        }
    }
}

impl Subscriber {
    /// A subscriber that receives on the other end of `tx` and has been sent nothing.
    pub fn new(tx: UnboundedSender<Message>, id: &str) -> (s: Self)
        ensures
            s@ == fresh_subscriber(id@, tx),
    {
        Subscriber {
            video_start_timestamp: None,
            audio_start_timestamp: None,
            tx,
            outbox: Ghost(Seq::empty()),
            header_script_sended: false,
            active: true,
            pre_tag_size: 0,
            audio_codec_tag_sended: false,
            video_codec_tag_sended: false,
            id: id.to_owned(),
        }
    }

    /// Sends `message` on this subscriber's channel, through
    /// `tokio::sync::mpsc::UnboundedSender::send`. The call is recorded in the
    /// subscriber's outbox, with whether the channel took it (`Ok`); nothing else of
    /// the subscriber changes. Whether it is taken depends on whether the receiving
    /// end is still open, so that is left open.
    #[verifier::external_body]
    pub fn send(&mut self, message: Message) -> (r: Result<(), SendError<Message>>)
        ensures
            final(self)@ == (SubscriberView {
                outbox: old(self)@.outbox.push(
                    Handed { message: message_view(message), accepted: r is Ok },
                ),
                ..old(self)@
            }),
    {
        self.tx.send(message)
    }

    /// Sends each of `pieces` as a `Message::Data`, in order, and stops at the first
    /// send that fails. True when every piece was taken: the outbox then grew by the
    /// pieces, in order. False when piece `j` was refused: the outbox grew by the
    /// pieces before it, taken, and piece `j`, refused. Nothing else changes.
    pub fn deliver(&mut self, pieces: Vec<Vec<u8>>) -> (delivered: bool)
        ensures
            final(self)@ == (SubscriberView { outbox: final(self)@.outbox, ..old(self)@ }),
            delivered ==> final(self)@.outbox == old(self)@.outbox + accepted_data(
                pieces_view(pieces@),
            ),
            !delivered ==> exists|j: int|
                0 <= j < pieces@.len() && final(self)@.outbox == old(self)@.outbox
                    + #[trigger] refused_at(pieces_view(pieces@), j),
    {
        let ghost pv = pieces_view(pieces@);
        let n: usize = pieces.len();
        let mut queue = pieces;
        let mut k: usize = 0;
        assert(pieces_view(queue@) =~= pv.subrange(0, n as int));
        assert(accepted_data(pv.take(0)) =~= seq![]);
        while queue.len() > 0
            invariant
                n == pv.len(),
                n == pieces@.len(),
                pv == pieces_view(pieces@),
                0 <= k <= n,
                queue@.len() == n - k,
                pieces_view(queue@) == pv.subrange(k as int, n as int),
                self@ == (SubscriberView {
                    outbox: old(self)@.outbox + accepted_data(pv.take(k as int)),
                    ..old(self)@
                }),
            decreases queue@.len(),
        {
            let ghost before = queue@;
            let piece = queue.remove(0);
            assert(piece@ == pv[k as int]) by {
                assert(pieces_view(before)[0] == pv.subrange(k as int, n as int)[0]);
            }
            assert(pieces_view(queue@) =~= pv.subrange(k + 1, n as int)) by {
                assert forall|j: int| 0 <= j < queue@.len() implies pieces_view(queue@)[j]
                    == pv.subrange(k + 1, n as int)[j] by {
                    assert(queue@[j] == before[j + 1]);
                    assert(pieces_view(before)[j + 1] == pv.subrange(k as int, n as int)[j + 1]);
                }
            }
            let r = self.send(Message::Data(piece));
            if r.is_err() {
                assert(self@.outbox =~= old(self)@.outbox + refused_at(pv, k as int));
                assert(0 <= k < pieces@.len());
                return false;
            }
            assert(accepted_data(pv.take(k + 1)) =~= accepted_data(pv.take(k as int)).push(
                Handed { message: MessageView::Data(pv[k as int]), accepted: true },
            ));
            k = k + 1;
        }
        assert(pv.take(n as int) =~= pv);
        true
    }
}

} // verus!
