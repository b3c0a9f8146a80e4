//! The multiplexed stdio framing of an upgraded connection.
//!
//! Each frame is an 8-byte header, `[tag][0][0][0][length: 4 bytes big-endian]`, followed by
//! `length` bytes of payload. The tag is 0 for stdin, 1 for stdout and 2 for stderr.
use vstd::prelude::*;
use crate::conn::Error;

verus! {

/// Length of a frame header.
pub const HEADER_LEN: usize = 8;

/// A chunk of stdio text read from a multiplexed stream.
#[derive(Debug, Clone)]
pub enum TtyChunk {
    StdIn(Vec<u8>),
    StdOut(Vec<u8>),
    StdErr(Vec<u8>),
}

/// A frame as a value: its stream tag and its payload.
pub type FrameModel = (u8, Seq<u8>);

impl TtyChunk {
    /// The stream tag of the chunk on the wire.
    pub open spec fn tag(&self) -> u8 {
        match self {
            TtyChunk::StdIn(_) => 0,
            TtyChunk::StdOut(_) => 1,
            TtyChunk::StdErr(_) => 2,
        }
    }

    /// The bytes the chunk carries.
    pub open spec fn payload(&self) -> Seq<u8> {
        match self {
            TtyChunk::StdIn(b) => b@,
            TtyChunk::StdOut(b) => b@,
            TtyChunk::StdErr(b) => b@,
        }
    }

    pub open spec fn model(&self) -> FrameModel {
        (self.tag(), self.payload())
    }

    /// The bytes the chunk carries.
    pub fn as_bytes(&self) -> (r: &Vec<u8>)
        ensures
            r@ == self.payload(),
    {
        match self {
            TtyChunk::StdIn(b) => b,
            TtyChunk::StdOut(b) => b,
            TtyChunk::StdErr(b) => b,
        }
    }

    /// Takes the bytes out of the chunk.
    pub fn into_bytes(self) -> (r: Vec<u8>)
        ensures
            r@ == self.payload(),
            r == match self {
                TtyChunk::StdIn(b) => b,
                TtyChunk::StdOut(b) => b,
                TtyChunk::StdErr(b) => b,
            },
    {
        match self {
            TtyChunk::StdIn(b) => b,
            TtyChunk::StdOut(b) => b,
            TtyChunk::StdErr(b) => b,
        }
    }

    /// The stream tag of the chunk on the wire.
    pub fn stream_tag(&self) -> (r: u8)
        ensures
            r == self.tag(),
    {
        match self {
            TtyChunk::StdIn(_) => 0,
            TtyChunk::StdOut(_) => 1,
            TtyChunk::StdErr(_) => 2,
        }
    }
}

impl AsRef<Vec<u8>> for TtyChunk {
    fn as_ref(&self) -> &Vec<u8> {
        self.as_bytes()
    }
}

impl std::ops::Deref for TtyChunk {
    type Target = Vec<u8>;

    fn deref(&self) -> &Vec<u8> {
        self.as_bytes()
    }
}

impl std::ops::DerefMut for TtyChunk {
    fn deref_mut(&mut self) -> &mut Vec<u8> {
        match self {
            TtyChunk::StdIn(b) => b,
            TtyChunk::StdOut(b) => b,
            TtyChunk::StdErr(b) => b,
        }
    }
}

impl From<TtyChunk> for Vec<u8> {
    fn from(chunk: TtyChunk) -> (r: Vec<u8>) {
        chunk.into_bytes()
    }
}

impl vstd::std_specs::convert::FromSpecImpl<TtyChunk> for Vec<u8> {
    open spec fn obeys_from_spec() -> bool {
        true
    }

    open spec fn from_spec(chunk: TtyChunk) -> Vec<u8> {
        match chunk {
            TtyChunk::StdIn(b) => b,
            TtyChunk::StdOut(b) => b,
            TtyChunk::StdErr(b) => b,
        }
    }
}

/// Whether a tag names stdin, stdout or stderr.
pub open spec fn valid_tag(t: u8) -> bool {
    t <= 2
}

/// The big-endian 32-bit number in bytes 4 to 7 of a header.
pub open spec fn be_u32(b4: u8, b5: u8, b6: u8, b7: u8) -> u32 {
    ((b4 as u32) << 24u32) | ((b5 as u32) << 16u32) | ((b6 as u32) << 8u32) | (b7 as u32)
}

/// The payload length a header announces.
pub open spec fn frame_len(buf: Seq<u8>) -> nat
    recommends
        buf.len() >= 8,
{
    be_u32(buf[4], buf[5], buf[6], buf[7]) as nat
}

/// Whether `buf` does not yet hold a whole frame.
pub open spec fn incomplete(buf: Seq<u8>) -> bool {
    buf.len() < 8 || buf.len() < 8 + frame_len(buf)
}

/// How a whole stream of frames ends.
#[derive(Debug, Clone, Copy, PartialEq, Eq)]
pub enum StreamEnd {
    /// At a frame boundary.
    Clean,
    /// Inside a header or a payload.
    Truncated,
    /// At a frame with this unknown tag.
    UnknownTag(u8),
}

/// The frames of a complete byte stream, and how it ends.
pub open spec fn decode_stream(bytes: Seq<u8>) -> (Seq<FrameModel>, StreamEnd)
    decreases bytes.len(),
{
    if bytes.len() == 0 {
        (Seq::empty(), StreamEnd::Clean)
    } else if !valid_tag(bytes[0]) {
        (Seq::empty(), StreamEnd::UnknownTag(bytes[0]))
    } else if incomplete(bytes) {
        (Seq::empty(), StreamEnd::Truncated)
    } else {
        let n = 8 + frame_len(bytes);
        let rest = decode_stream(bytes.subrange(n as int, bytes.len() as int));
        (seq![(bytes[0], bytes.subrange(8, n as int))] + rest.0, rest.1)
    }
}

/// The wire form of one frame.
pub open spec fn encode_frame(f: FrameModel) -> Seq<u8> {
    let len = f.1.len() as u32;
    seq![
        f.0,
        0u8,
        0u8,
        0u8,
        (len >> 24u32) as u8,
        ((len >> 16u32) & 0xffu32) as u8,
        ((len >> 8u32) & 0xffu32) as u8,
        (len & 0xffu32) as u8,
    ] + f.1
}

/// The wire form of a sequence of frames.
pub open spec fn encode_frames(frames: Seq<FrameModel>) -> Seq<u8>
    decreases frames.len(),
{
    if frames.len() == 0 {
        Seq::empty()
    } else {
        encode_frame(frames[0]) + encode_frames(frames.drop_first())
    }
}

/// What one decoding step over the bytes received so far gives.
#[derive(Debug)]
pub enum TtyStep {
    /// A whole frame, which took this many bytes from the front of the buffer.
    Chunk(TtyChunk, usize),
    /// The buffer holds part of a frame; more bytes are needed.
    NeedMore,
    /// The stream ended at a frame boundary.
    End,
    /// The stream is broken; no frame follows.
    Failed(Error),
}

/// Whether `r` is the decoding step for the bytes `buf` received so far, where `at_eof`
/// says that the stream has ended after them.
pub open spec fn is_step_for(buf: Seq<u8>, at_eof: bool, r: TtyStep) -> bool {
    match r {
        TtyStep::End => buf.len() == 0 && at_eof,
        TtyStep::NeedMore => !at_eof && (buf.len() == 0 || (valid_tag(buf[0]) && incomplete(
            buf,
        ))),
        TtyStep::Chunk(c, n) => {
            &&& buf.len() > 0 && valid_tag(buf[0]) && !incomplete(buf)
            &&& n == 8 + frame_len(buf)
            &&& c.tag() == buf[0]
            &&& c.payload() == buf.subrange(8, n as int)
        },
        TtyStep::Failed(e) => match e {
            Error::UnknownStreamTag(t) => buf.len() > 0 && !valid_tag(buf[0]) && t == buf[0],
            Error::TruncatedFrame => at_eof && buf.len() > 0 && valid_tag(buf[0])
                && incomplete(buf),
            _ => false,
        },
    }
}

/// Decodes the frame at the front of `buf`, the bytes received so far; `at_eof` says that
/// the stream has ended after them.
///
/// An end of stream at a frame boundary ends the sequence cleanly; inside a header or a
/// payload it is an error, as is an unknown stream tag.
pub fn decode_chunk(buf: &[u8], at_eof: bool) -> (r: TtyStep)
    ensures
        is_step_for(buf@, at_eof, r),
{
    if buf.len() == 0 {
        return if at_eof {
            TtyStep::End
        } else {
            TtyStep::NeedMore
        };
    }
    let tag = buf[0];
    if tag > 2 {
        return TtyStep::Failed(Error::UnknownStreamTag(tag));
    }
    if buf.len() < HEADER_LEN {
        return if at_eof {
            TtyStep::Failed(Error::TruncatedFrame)
        } else {
            TtyStep::NeedMore
        };
    }
    let len: u32 = ((buf[4] as u32) << 24u32) | ((buf[5] as u32) << 16u32) | ((buf[6] as u32)
        << 8u32) | (buf[7] as u32);
    let avail: usize = buf.len() - HEADER_LEN;
    if (len as usize) > avail {
        return if at_eof {
            TtyStep::Failed(Error::TruncatedFrame)
        } else {
            TtyStep::NeedMore
        };
    }
    let end: usize = HEADER_LEN + len as usize;
    let mut data: Vec<u8> = Vec::with_capacity(len as usize);
    let mut i: usize = HEADER_LEN;
    while i < end
        invariant
            HEADER_LEN <= i <= end <= buf@.len(),
            data@ == buf@.subrange(8, i as int),
        decreases end - i,
    {
        data.push(buf[i]);
        proof {
            assert(buf@.subrange(8, i + 1 as int) =~= buf@.subrange(8, i as int).push(buf@[i as int]));
        }
        i += 1;
    }
    let chunk = if tag == 0 {
        TtyChunk::StdIn(data)
    } else if tag == 1 {
        TtyChunk::StdOut(data)
    } else {
        TtyChunk::StdErr(data)
    };
    TtyStep::Chunk(chunk, end)
}

/// Decodes a multiplexed stdio stream as its bytes arrive: it keeps the bytes that no frame
/// has used yet.
#[derive(Debug)]
pub struct TtyDecoder {
    buf: Vec<u8>,
}

impl View for TtyDecoder {
    type V = Seq<u8>;

    /// The bytes received that no frame has used yet.
    closed spec fn view(&self) -> Seq<u8> {
        self.buf@
    }
}

impl TtyDecoder {
    /// A decoder that has received nothing.
    pub fn new() -> (r: TtyDecoder)
        ensures
            r@ == Seq::<u8>::empty(),
    {
        TtyDecoder { buf: Vec::new() }
    }

    /// Takes bytes read from the stream.
    pub fn feed(&mut self, bytes: &[u8])
        ensures
            final(self)@ == old(self)@ + bytes@,
    {
        let ghost start = self.buf@;
        let mut i: usize = 0;
        while i < bytes.len()
            invariant
                i <= bytes@.len(),
                self.buf@ == start + bytes@.subrange(0, i as int),
            decreases bytes@.len() - i,
        {
            self.buf.push(bytes[i]);
            assert(bytes@.subrange(0, i + 1 as int) =~= bytes@.subrange(0, i as int).push(
                bytes@[i as int],
            ));
            i += 1;
        }
        assert(bytes@.subrange(0, bytes@.len() as int) =~= bytes@);
    }

    /// The next decoding step over the bytes kept; a whole frame is taken off their front.
    pub fn next_chunk(&mut self, at_eof: bool) -> (r: TtyStep)
        ensures
            is_step_for(old(self)@, at_eof, r),
            r matches TtyStep::Chunk(_, n) ==> final(self)@ == old(self)@.subrange(
                n as int,
                old(self)@.len() as int,
            ),
            !(r is Chunk) ==> final(self)@ == old(self)@,
    {
        let step = decode_chunk(self.buf.as_slice(), at_eof);
        if let TtyStep::Chunk(_, n) = &step {
            let n = *n;
            let len = self.buf.len();
            let mut rest: Vec<u8> = Vec::new();
            let mut i: usize = n;
            while i < len
                invariant
                    n <= i <= len == self.buf@.len(),
                    rest@ == self.buf@.subrange(n as int, i as int),
                decreases len - i,
            {
                rest.push(self.buf[i]);
                assert(self.buf@.subrange(n as int, i + 1 as int) =~= self.buf@.subrange(
                    n as int,
                    i as int,
                ).push(self.buf@[i as int]));
                i += 1;
            }
            self.buf = rest;
        }
        step
    }
}

/// The frames a list of chunks stands for.
pub open spec fn chunk_models(chunks: Seq<TtyChunk>) -> Seq<FrameModel> {
    chunks.map_values(|c: TtyChunk| c.model())
}

/// Whether an error reports the given end of a stream.
pub open spec fn reports_end(e: Option<Error>, end: StreamEnd) -> bool {
    match end {
        StreamEnd::Clean => e is None,
        StreamEnd::Truncated => e matches Some(Error::TruncatedFrame),
        StreamEnd::UnknownTag(t) => e matches Some(Error::UnknownStreamTag(x)) && x == t,
    }
}

/// Decodes a complete stream: every frame in order, then the error that ended it, if any.
pub fn decode_all(bytes: &[u8]) -> (r: (Vec<TtyChunk>, Option<Error>))
    ensures
        chunk_models(r.0@) == decode_stream(bytes@).0,
        reports_end(r.1, decode_stream(bytes@).1),
{
    let mut out: Vec<TtyChunk> = Vec::new();
    let mut pos: usize = 0;
    let len = bytes.len();
    assert(bytes@.subrange(0, len as int) =~= bytes@);
    loop
        invariant
            pos <= len == bytes@.len(),
            decode_stream(bytes@).0 == chunk_models(out@) + decode_stream(
                bytes@.subrange(pos as int, len as int),
            ).0,
            decode_stream(bytes@).1 == decode_stream(bytes@.subrange(pos as int, len as int)).1,
        decreases len - pos,
    {
        let rest = vstd::slice::slice_subrange(bytes, pos, len);
        let ghost sub = bytes@.subrange(pos as int, len as int);
        assert(rest@ == sub);
        match decode_chunk(rest, true) {
            TtyStep::Chunk(c, n) => {
                proof {
                    assert(sub.subrange(n as int, sub.len() as int) =~= bytes@.subrange(
                        pos + n,
                        len as int,
                    ));
                    let m = c.model();
                    assert(chunk_models(out@.push(c)) =~= chunk_models(out@).push(m));
                    assert(seq![m] + decode_stream(bytes@.subrange(pos + n, len as int)).0
                        == decode_stream(sub).0);
                    assert(chunk_models(out@) + decode_stream(sub).0 =~= chunk_models(out@).push(m)
                        + decode_stream(bytes@.subrange(pos + n, len as int)).0);
                }
                out.push(c);
                pos = pos + n;
            },
            TtyStep::End => {
                proof {
                    assert(chunk_models(out@) + decode_stream(sub).0 =~= chunk_models(out@));
                }
                return (out, None);
            },
            TtyStep::NeedMore => {
                return (out, None);
            },
            TtyStep::Failed(e) => {
                proof {
                    assert(chunk_models(out@) + decode_stream(sub).0 =~= chunk_models(out@));
                }
                return (out, Some(e));
            },
        }
    }
}

/// The four bytes of a big-endian 32-bit number give that number back.
pub proof fn lemma_be_u32_bytes(x: u32)
    ensures
        be_u32(
            (x >> 24u32) as u8,
            ((x >> 16u32) & 0xffu32) as u8,
            ((x >> 8u32) & 0xffu32) as u8,
            (x & 0xffu32) as u8,
        ) == x,
{
    assert(((((x >> 24u32) as u8) as u32) << 24u32) | (((((x >> 16u32) & 0xffu32) as u8) as u32)
        << 16u32) | (((((x >> 8u32) & 0xffu32) as u8) as u32) << 8u32) | (((x & 0xffu32) as u8)
        as u32) == x) by (bit_vector);
}

/// Writes a chunk as one frame: the header, then the payload.
pub fn encode_chunk(chunk: &TtyChunk) -> (r: Vec<u8>)
    requires
        chunk.payload().len() <= u32::MAX,
    ensures
        r@ == encode_frame(chunk.model()),
{
    let data = chunk.as_bytes();
    let len: u32 = data.len() as u32;
    let mut r: Vec<u8> = Vec::new();
    assert(len >> 24u32 <= 0xffu32) by (bit_vector);
    r.push(chunk.stream_tag());
    r.push(0u8);
    r.push(0u8);
    r.push(0u8);
    r.push((len >> 24u32) as u8);
    r.push(((len >> 16u32) & 0xffu32) as u8);
    r.push(((len >> 8u32) & 0xffu32) as u8);
    r.push((len & 0xffu32) as u8);
    let ghost header = r@;
    let mut i: usize = 0;
    while i < data.len()
        invariant
            i <= data@.len(),
            r@ == header + data@.subrange(0, i as int),
        decreases data@.len() - i,
    {
        r.push(data[i]);
        proof {
            assert(data@.subrange(0, i + 1 as int) =~= data@.subrange(0, i as int).push(
                data@[i as int],
            ));
        }
        i += 1;
    }
    proof {
        assert(data@.subrange(0, data@.len() as int) =~= data@);
        assert(r@ =~= encode_frame(chunk.model()));
    }
    r
}

/// Round trip: decoding the wire form of frames with valid tags and payloads of at most
/// `u32::MAX` bytes gives back exactly those frames, in order, and ends cleanly.
pub proof fn lemma_round_trip(frames: Seq<FrameModel>)
    requires
        forall|i: int| 0 <= i < frames.len() ==> valid_tag(#[trigger] frames[i].0) && frames[i].1.len()
            <= u32::MAX,
    ensures
        decode_stream(encode_frames(frames)) == (frames, StreamEnd::Clean),
    decreases frames.len(),
{
    if frames.len() > 0 {
        let f = frames[0];
        let rest = frames.drop_first();
        assert forall|i: int| 0 <= i < rest.len() implies valid_tag(#[trigger] rest[i].0)
            && rest[i].1.len() <= u32::MAX by {
            assert(rest[i] == frames[i + 1]);
        }
        lemma_round_trip(rest);
        let head = encode_frame(f);
        let bytes = encode_frames(frames);
        assert(bytes == head + encode_frames(rest));
        let len = f.1.len() as u32;
        lemma_be_u32_bytes(len);
        assert(bytes[4] == head[4] && bytes[5] == head[5] && bytes[6] == head[6] && bytes[7]
            == head[7]);
        assert(frame_len(bytes) == f.1.len());
        let n = 8 + f.1.len();
        assert(bytes.subrange(8, n as int) =~= f.1);
        assert(bytes.subrange(n as int, bytes.len() as int) =~= encode_frames(rest));
        assert(seq![f] + rest =~= frames);
    } else {
        assert(encode_frames(frames) =~= Seq::<u8>::empty());
    }
}

/// A stream that ends right after a whole frame ends cleanly; one that ends inside the
/// next header ends with a truncation error.
pub proof fn lemma_end_of_stream(frame: FrameModel, partial: Seq<u8>)
    requires
        valid_tag(frame.0),
        frame.1.len() <= u32::MAX,
        0 < partial.len() < 8,
        valid_tag(partial[0]),
    ensures
        decode_stream(encode_frame(frame)) == (seq![frame], StreamEnd::Clean),
        decode_stream(encode_frame(frame) + partial) == (seq![frame], StreamEnd::Truncated),
{
    let frames = seq![frame];
    assert(encode_frames(frames.drop_first()) =~= Seq::<u8>::empty());
    assert(encode_frames(frames) =~= encode_frame(frame));
    lemma_round_trip(frames);
    let bytes = encode_frame(frame) + partial;
    let len = frame.1.len() as u32;
    lemma_be_u32_bytes(len);
    let n = 8 + frame.1.len();
    assert(frame_len(bytes) == frame.1.len());
    assert(bytes.subrange(8, n as int) =~= frame.1);
    assert(bytes.subrange(n as int, bytes.len() as int) =~= partial);
    assert(incomplete(partial));
    assert(decode_stream(partial) == (Seq::<FrameModel>::empty(), StreamEnd::Truncated));
    assert(bytes[0] == frame.0);
    assert(!incomplete(bytes));
    assert(seq![(bytes[0], bytes.subrange(8, n as int))] + Seq::<FrameModel>::empty() =~= seq![
        frame,
    ]);
}

} // verus!
