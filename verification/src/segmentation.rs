//! Messages that are too long for one transport message: how they are split,
//! and how the segments are put together again.
use crate::errors::DecodeError;
use crate::wire::{
    be_bytes, be_value, bytes_field, push_be, push_bytes_field, read_be, read_bytes_field,
    read_bytes_field_at,
};
use dlc_messages::segmentation as dlc_segmentation;
use dlc_messages::segmentation::segment_reader::Error as ReaderError;
use dlc_messages::segmentation::segment_reader::SegmentReader;
use vstd::prelude::*;

verus! {

/// The type prefix of a [`SegmentStart`].
pub const SEGMENT_START_TYPE: u16 = 42900;

/// The type prefix of a [`SegmentChunk`].
pub const SEGMENT_CHUNK_TYPE: u16 = 42902;

/// The number of bytes in the first segment.
pub const MAX_START_DATA_SIZE: usize = 65526;

/// The number of bytes in every later segment but the last.
pub const MAX_CHUNK_SIZE: usize = 65528;

/// The number of segments up to which a message is put together again.
pub const MAX_SEGMENTS: u16 = 1000;

/// The number of bytes that fit in a transport message.
pub const MAX_WIRE_SIZE: usize = 65535;

/// The longest message whose segments can be counted in the first segment.
pub const MAX_SEGMENTED_SIZE: usize = 4294377476;

/// The first segment of a message.
#[derive(Clone, Debug, PartialEq, Eq)]
pub struct SegmentStart {
    /// The number of segments, this one among them.
    pub nb_segments: u16,
    /// The type prefix of the message and the bytes that fit behind it.
    pub data: Vec<u8>,
}

/// A later segment of a message.
#[derive(Clone, Debug, PartialEq, Eq)]
pub struct SegmentChunk {
    /// The next bytes of the message.
    pub data: Vec<u8>,
}

/// The bytes that a first segment is written with.
pub open spec fn start_bytes(nb_segments: u16, data: Seq<u8>) -> Seq<u8> {
    be_bytes(nb_segments as nat, 2) + bytes_field(data)
}

/// What reading a first segment gives: the number of segments and the data.
pub open spec fn read_start(bytes: Seq<u8>) -> Result<(u16, Seq<u8>), DecodeError> {
    if bytes.len() < 2 {
        Err(DecodeError::ShortRead)
    } else {
        match read_bytes_field(bytes.skip(2)) {
            Ok(data) => Ok((be_value(bytes.take(2)) as u16, data)),
            Err(e) => Err(e),
        }
    }
}

impl SegmentStart {
    /// The bytes that the segment is written with, without a type prefix.
    pub fn encode(&self) -> (r: Vec<u8>)
        ensures
            r@ == start_bytes(self.nb_segments, self.data@),
    {
        let mut out: Vec<u8> = Vec::new();
        push_be(&mut out, self.nb_segments as u64, 2);
        push_bytes_field(&mut out, &self.data);
        assert(out@ =~= start_bytes(self.nb_segments, self.data@));
        out
    }

    /// Reads a first segment off the front of `bytes`.
    pub fn read(bytes: &[u8]) -> (r: Result<SegmentStart, DecodeError>)
        ensures
            (match r {
                Ok(s) => read_start(bytes@) == Ok::<(u16, Seq<u8>), DecodeError>(
                    (s.nb_segments, s.data@),
                ),
                Err(e) => read_start(bytes@) == Err::<(u16, Seq<u8>), DecodeError>(e),
            }),
    {
        if bytes.len() < 2 {
            return Err(DecodeError::ShortRead);
        }
        let nb_segments: u64 = read_be(bytes, 0, 2);
        assert(bytes@.take(2) =~= bytes@.subrange(0, 2));
        match read_bytes_field_at(bytes, 2) {
            Ok(data) => Ok(SegmentStart { nb_segments: nb_segments as u16, data }),
            Err(e) => Err(e),
        }
    }
}

impl SegmentChunk {
    /// The bytes that the segment is written with, without a type prefix.
    pub fn encode(&self) -> (r: Vec<u8>)
        ensures
            r@ == bytes_field(self.data@),
    {
        let mut out: Vec<u8> = Vec::new();
        push_bytes_field(&mut out, &self.data);
        assert(out@ =~= bytes_field(self.data@));
        out
    }

    /// Reads a later segment off the front of `bytes`.
    pub fn read(bytes: &[u8]) -> (r: Result<SegmentChunk, DecodeError>)
        ensures
            (match r {
                Ok(c) => read_bytes_field(bytes@) == Ok::<Seq<u8>, DecodeError>(c.data@),
                Err(e) => read_bytes_field(bytes@) == Err::<Seq<u8>, DecodeError>(e),
            }),
    {
        assert(bytes@.skip(0) =~= bytes@);
        match read_bytes_field_at(bytes, 0) {
            Ok(data) => Ok(SegmentChunk { data }),
            Err(e) => Err(e),
        }
    }
}

/// The number of chunks that follow the first segment of a message of `len`
/// bytes: the first holds the type prefix, and each but the last is full.
pub open spec fn chunk_count(len: nat) -> nat {
    ((len - (MAX_START_DATA_SIZE - 2) + (MAX_CHUNK_SIZE - 1)) / MAX_CHUNK_SIZE as int) as nat
}

/// Where the bytes of chunk `i` of a message start.
pub open spec fn chunk_start(i: int) -> int {
    (MAX_START_DATA_SIZE - 2) + i * MAX_CHUNK_SIZE
}

/// The bytes of chunk `i` of a message.
pub open spec fn chunk_data(message: Seq<u8>, i: int) -> Seq<u8> {
    message.subrange(
        chunk_start(i),
        if chunk_start(i + 1) <= message.len() {
            chunk_start(i + 1)
        } else {
            message.len() as int
        },
    )
}

/// The bytes of the first segment of a message with the given type prefix.
pub open spec fn start_data(message: Seq<u8>, msg_type: u16) -> Seq<u8> {
    be_bytes(msg_type as nat, 2) + message.take(MAX_START_DATA_SIZE - 2)
}

/// `dlc_messages::segmentation::get_segments`: splits a message into a first
/// segment, which starts with the type prefix and is full, and chunks, each full
/// but for the last. It is claimed what each segment holds. A message must be too
/// long for one transport message, and its segments must be so few that the first
/// segment can count them.
#[verifier::external_body]
pub(crate) fn get_segments(data: Vec<u8>, msg_type: u16) -> (r: (SegmentStart, Vec<SegmentChunk>))
    requires
        MAX_WIRE_SIZE < data@.len() <= MAX_SEGMENTED_SIZE,
    ensures
        r.0.nb_segments == chunk_count(data@.len()) + 1,
        r.0.data@ == start_data(data@, msg_type),
        r.1@.len() == chunk_count(data@.len()),
        forall|i: int|
            0 <= i < r.1@.len() ==> (#[trigger] r.1@[i]).data@ == chunk_data(data@, i),
{
    let (start, chunks) = dlc_segmentation::get_segments(data, msg_type);
    (
        SegmentStart { nb_segments: start.nb_segments, data: start.data },
        chunks.into_iter().map(|chunk| SegmentChunk { data: chunk.data }).collect(),
    )
}

/// Why a segment was refused.
#[derive(Clone, Debug, PartialEq, Eq)]
pub enum SegmentError {
    /// The reader was not in a state to take the segment.
    InvalidState(String),
    /// The segment does not fit the state of the reader.
    InvalidParameter(String),
}

/// The mathematical view of a [`SegmentError`].
pub enum SegmentErrorView {
    InvalidState(Seq<char>),
    InvalidParameter(Seq<char>),
}

impl View for SegmentError {
    type V = SegmentErrorView;

    open spec fn view(&self) -> SegmentErrorView {
        match self {
            SegmentError::InvalidState(s) => SegmentErrorView::InvalidState(s@),
            SegmentError::InvalidParameter(s) => SegmentErrorView::InvalidParameter(s@),
        }
    }
}

impl SegmentErrorView {
    /// The text that the refusal is shown with.
    pub open spec fn text(self) -> Seq<char> {
        match self {
            SegmentErrorView::InvalidState(s) => "Invalid state "@ + s,
            SegmentErrorView::InvalidParameter(s) => "Invalid parameters were provided: "@ + s,
        }
    }
}

impl SegmentError {
    /// The text that the refusal is shown with.
    pub fn text(&self) -> (r: String)
        ensures
            r@ == self@.text(),
    {
        match self {
            SegmentError::InvalidState(s) => {
                let mut out: String = "Invalid state ".to_owned();
                out.append(s.as_str());
                out
            },
            SegmentError::InvalidParameter(s) => {
                let mut out: String = "Invalid parameters were provided: ".to_owned();
                out.append(s.as_str());
                out
            },
        }
    }
}

/// `dlc_messages::segmentation::segment_reader::SegmentReader`, which collects
/// the bytes of a message from its segments.
#[verifier::external_type_specification]
#[verifier::external_body]
pub struct ExSegmentReader(SegmentReader);

/// The bytes that a reader has collected.
pub uninterp spec fn reader_data(reader: SegmentReader) -> Seq<u8>;

/// The number of chunks that a reader still waits for.
pub uninterp spec fn reader_remaining(reader: SegmentReader) -> nat;

/// The mathematical view of a reader.
#[verifier::ext_equal]
pub struct ReaderView {
    /// The bytes collected.
    pub data: Seq<u8>,
    /// The number of chunks waited for.
    pub remaining: nat,
}

/// The view of a reader.
pub open spec fn reader_view(reader: SegmentReader) -> ReaderView {
    ReaderView { data: reader_data(reader), remaining: reader_remaining(reader) }
}

impl ReaderView {
    /// A reader that waits for nothing.
    pub open spec fn idle() -> ReaderView {
        ReaderView { data: Seq::empty(), remaining: 0 }
    }

    /// A reader waits for chunks exactly while it holds bytes, and the bytes of a
    /// message of at most [`MAX_SEGMENTS`] transport messages have room in it.
    pub open spec fn wf(self) -> bool {
        &&& self.remaining == 0 <==> self.data.len() == 0
        &&& self.data.len() + self.remaining * MAX_WIRE_SIZE <= MAX_SEGMENTS * MAX_WIRE_SIZE
    }
}

/// Why a reader refuses a first segment, if it does.
pub open spec fn start_refusal(reader: ReaderView, nb_segments: u16, data: Seq<u8>) -> Option<
    SegmentErrorView,
> {
    if reader.data.len() > 0 {
        Some(
            SegmentErrorView::InvalidState(
                "Received segment start while cur data buffer is not empty."@,
            ),
        )
    } else if nb_segments < 2 || nb_segments > MAX_SEGMENTS {
        Some(
            SegmentErrorView::InvalidParameter(
                "Segment start must specify at least two chunks and maximum a thousand."@,
            ),
        )
    } else if data.len() < MAX_START_DATA_SIZE {
        Some(
            SegmentErrorView::InvalidParameter(
                "Segment start data should be filled to its maximum capacity."@,
            ),
        )
    } else {
        None
    }
}

/// Why a reader refuses a chunk, if it does.
pub open spec fn chunk_refusal(reader: ReaderView, data: Seq<u8>) -> Option<SegmentErrorView> {
    if reader.data.len() == 0 {
        Some(
            SegmentErrorView::InvalidState(
                "Received segment chunk while cur data buffer is empty."@,
            ),
        )
    } else if reader.remaining > 1 && data.len() != MAX_CHUNK_SIZE {
        Some(
            SegmentErrorView::InvalidParameter(
                "Receive non final segment chunk that was not not filled."@,
            ),
        )
    } else {
        None
    }
}

/// `SegmentReader::new`: a reader that holds no bytes and waits for no chunk.
#[verifier::external_body]
pub(crate) fn new_reader() -> (r: SegmentReader)
    ensures
        reader_data(r) == Seq::<u8>::empty(),
        reader_remaining(r) == 0,
{
    SegmentReader::new()
}

/// `SegmentReader::expecting_chunk`: whether the reader waits for a chunk.
#[verifier::external_body]
pub(crate) fn expecting_chunk(reader: &SegmentReader) -> (r: bool)
    ensures
        r == (reader_remaining(*reader) != 0),
{
    reader.expecting_chunk()
}

/// `SegmentReader::reset`: the reader drops its bytes and waits for no chunk.
#[verifier::external_body]
pub(crate) fn reset_reader(reader: &mut SegmentReader)
    ensures
        reader_data(*final(reader)) == Seq::<u8>::empty(),
        reader_remaining(*final(reader)) == 0,
{
    reader.reset()
}

/// `SegmentReader::process_segment_start`: the reader refuses the segment and
/// stays as it is, or holds its bytes and waits for the segments announced.
#[verifier::external_body]
pub(crate) fn process_segment_start(reader: &mut SegmentReader, start: SegmentStart) -> (r: Result<
    (),
    SegmentError,
>)
    ensures
        (match r {
            Ok(_) => {
                &&& start_refusal(reader_view(*old(reader)), start.nb_segments, start.data@) is None
                &&& reader_data(*final(reader)) == start.data@
                &&& reader_remaining(*final(reader)) == start.nb_segments - 1
            },
            Err(e) => {
                &&& start_refusal(reader_view(*old(reader)), start.nb_segments, start.data@)
                    == Some(e@)
                &&& reader_view(*final(reader)) == reader_view(*old(reader))
            },
        }),
{
    let SegmentStart { nb_segments, data } = start;
    match reader.process_segment_start(dlc_segmentation::SegmentStart { nb_segments, data }) {
        Ok(_) => Ok(()),
        Err(ReaderError::InvalidState(s)) => Err(SegmentError::InvalidState(s)),
        Err(ReaderError::InvalidParameter(s)) => Err(SegmentError::InvalidParameter(s)),
    }
}

/// `SegmentReader::process_segment_chunk`: the reader refuses the chunk and stays
/// as it is, or appends its bytes; with the last chunk it gives all the bytes
/// away and holds none. A reader that holds bytes must be waiting for a chunk.
#[verifier::external_body]
pub(crate) fn process_segment_chunk(reader: &mut SegmentReader, chunk: SegmentChunk) -> (r: Result<
    Option<Vec<u8>>,
    SegmentError,
>)
    requires
        reader_data(*old(reader)).len() > 0 ==> reader_remaining(*old(reader)) > 0,
    ensures
        (match r {
            Ok(Some(message)) => {
                &&& chunk_refusal(reader_view(*old(reader)), chunk.data@) is None
                &&& reader_remaining(*old(reader)) == 1
                &&& message@ == reader_data(*old(reader)) + chunk.data@
                &&& reader_view(*final(reader)) == ReaderView::idle()
            },
            Ok(None) => {
                &&& chunk_refusal(reader_view(*old(reader)), chunk.data@) is None
                &&& reader_remaining(*old(reader)) > 1
                &&& reader_data(*final(reader)) == reader_data(*old(reader)) + chunk.data@
                &&& reader_remaining(*final(reader)) == reader_remaining(*old(reader)) - 1
            },
            Err(e) => {
                &&& chunk_refusal(reader_view(*old(reader)), chunk.data@) == Some(e@)
                &&& reader_view(*final(reader)) == reader_view(*old(reader))
            },
        }),
{
    match reader.process_segment_chunk(dlc_segmentation::SegmentChunk { data: chunk.data }) {
        Ok(message) => Ok(message),
        Err(ReaderError::InvalidState(s)) => Err(SegmentError::InvalidState(s)),
        Err(ReaderError::InvalidParameter(s)) => Err(SegmentError::InvalidParameter(s)),
    }
}

} // verus!
