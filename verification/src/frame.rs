//! The frame framer: extracts one logical frame at a time from the recorded
//! byte stream, using the recording's fixed container layout.
//!
//! A frame starts with an opaque fifteen-byte prefix, then a type tag byte,
//! then further opaque header bytes, then a two-byte big-endian payload
//! length, then the payload. Audio frames have a 26-byte header, video
//! frames a 30-byte header.

use vstd::prelude::*;

verus! {

/// Offset of the frame-type tag byte within a frame header.
pub const TAG_OFFSET: usize = 15;

/// Tag value that marks an audio frame.
pub const AUDIO_TAG: u8 = 0x30;

/// Tag value that marks a video key frame.
pub const VIDEO_KEY_TAG: u8 = 0x00;

/// Header length of an audio frame, payload-length field included.
pub const AUDIO_HEADER_LEN: usize = 26;

/// Header length of a video frame, payload-length field included.
pub const VIDEO_HEADER_LEN: usize = 30;

/// The three logical frame kinds distinguished by the container's tag byte.
#[derive(Clone, Copy, Debug, PartialEq, Eq, Structural)]
pub enum FrameKind {
    Audio,
    VideoKey,
    VideoDelta,
}

/// Why the recorded stream could not be framed at the cursor.
#[derive(Clone, Copy, Debug, PartialEq, Eq, Structural)]
pub enum StreamError {
    /// Fewer bytes remain than the fixed header layout requires.
    TruncatedHeader,
    /// The declared payload length would run past the end of the buffer.
    PayloadOverrun,
}

/// The frame kind that a tag byte encodes: `0x00` is a video key frame,
/// `0x30` an audio frame, anything else a video delta frame.
pub open spec fn kind_of_tag(tag: u8) -> FrameKind {
    if tag == AUDIO_TAG {
        FrameKind::Audio
    } else if tag == VIDEO_KEY_TAG {
        FrameKind::VideoKey
    } else {
        FrameKind::VideoDelta
    }
}

/// Header length for a frame of the given kind.
pub open spec fn spec_header_len(kind: FrameKind) -> int {
    match kind {
        FrameKind::Audio => AUDIO_HEADER_LEN as int,
        FrameKind::VideoKey => VIDEO_HEADER_LEN as int,
        FrameKind::VideoDelta => VIDEO_HEADER_LEN as int,
    }
}

/// One extracted frame: a view into the recording identified by its offset
/// and lengths, never an owned copy of the bytes.
#[derive(Clone, Copy, Debug, PartialEq, Eq, Structural)]
pub struct Frame {
    /// The frame's logical kind.
    pub kind: FrameKind,
    /// Byte offset of the frame's header in the recording.
    pub offset: usize,
    /// Payload length in bytes, as declared by the header.
    pub payload_len: usize,
}

impl Frame {
    /// The payload length fits the two-byte field it was read from.
    pub open spec fn wf(self) -> bool {
        self.payload_len < 0x10000
    }

    /// Header plus payload: how many bytes this frame occupies.
    pub open spec fn spec_total_len(self) -> int {
        spec_header_len(self.kind) + self.payload_len
    }

    /// Offset just past the header, where the payload begins.
    pub open spec fn spec_payload_start(self) -> int {
        self.offset + spec_header_len(self.kind)
    }

    /// Header length of this frame.
    pub fn header_len(&self) -> (n: usize)
        ensures
            n == spec_header_len(self.kind),
    {
        match self.kind {
            FrameKind::Audio => AUDIO_HEADER_LEN,
            FrameKind::VideoKey => VIDEO_HEADER_LEN,
            FrameKind::VideoDelta => VIDEO_HEADER_LEN,
        }
    }

    /// How many bytes of the recording this frame occupies; the cursor
    /// advances by exactly this amount.
    pub fn total_len(&self) -> (n: usize)
        requires
            self.wf(),
        ensures
            n == self.spec_total_len(),
    {
        self.header_len() + self.payload_len
    }
}

/// Map the tag byte to its frame kind.
pub fn classify_tag(tag: u8) -> (k: FrameKind)
    ensures
        k == kind_of_tag(tag),
{
    if tag == AUDIO_TAG {
        FrameKind::Audio
    } else if tag == VIDEO_KEY_TAG {
        FrameKind::VideoKey
    } else {
        FrameKind::VideoDelta
    }
}

/// The kind of the frame that starts at offset `o` (meaningful only when the
/// tag byte lies within the buffer).
pub open spec fn spec_kind_at(s: Seq<u8>, o: int) -> FrameKind {
    kind_of_tag(s[o + TAG_OFFSET])
}

/// Enough bytes remain at offset `o` for the whole fixed header of the frame
/// that starts there.
pub open spec fn header_fits(s: Seq<u8>, o: int) -> bool {
    &&& 0 <= o
    &&& o + TAG_OFFSET + 1 <= s.len()
    &&& o + spec_header_len(spec_kind_at(s, o)) <= s.len()
}

/// The payload length declared at offset `o`: the last two header bytes,
/// big-endian.
pub open spec fn spec_payload_len_at(s: Seq<u8>, o: int) -> int {
    let hl = spec_header_len(spec_kind_at(s, o));
    256 * (s[o + hl - 2] as int) + (s[o + hl - 1] as int)
}

/// Header plus declared payload of the frame at offset `o`.
pub open spec fn spec_total_len_at(s: Seq<u8>, o: int) -> int {
    spec_header_len(spec_kind_at(s, o)) + spec_payload_len_at(s, o)
}

/// A whole frame, header and payload, lies within the buffer at offset `o`.
pub open spec fn frame_ok_at(s: Seq<u8>, o: int) -> bool {
    &&& header_fits(s, o)
    &&& o + spec_total_len_at(s, o) <= s.len()
}

/// The frame that starts at offset `o` (meaningful when `frame_ok_at` holds).
pub open spec fn spec_frame_at(s: Seq<u8>, o: int) -> Frame {
    Frame {
        kind: spec_kind_at(s, o),
        offset: o as usize,
        payload_len: spec_payload_len_at(s, o) as usize,
    }
}

/// Parse one frame at `offset`: read the tag byte and the declared payload
/// length, and report how far the cursor must advance. Fails with a
/// malformed-stream error when fewer bytes remain than the header layout
/// requires, or when the declared payload would run past the buffer end.
pub fn parse_frame(data: &Vec<u8>, offset: usize) -> (r: Result<Frame, StreamError>)
    ensures
        r is Ok <==> frame_ok_at(data@, offset as int),
        (match r {
            Ok(f) => f == spec_frame_at(data@, offset as int) && f.wf(),
            Err(StreamError::TruncatedHeader) => !header_fits(data@, offset as int),
            Err(StreamError::PayloadOverrun) => header_fits(data@, offset as int)
                && !frame_ok_at(data@, offset as int),
        }),
{
    if data.len() < TAG_OFFSET + 1 || offset > data.len() - (TAG_OFFSET + 1) {
        return Err(StreamError::TruncatedHeader);
    }
    let tag = data[offset + TAG_OFFSET];
    let kind = classify_tag(tag);
    let header_len: usize = if tag == AUDIO_TAG {
        AUDIO_HEADER_LEN
    } else {
        VIDEO_HEADER_LEN
    };
    if data.len() - offset < header_len {
        return Err(StreamError::TruncatedHeader);
    }
    let hi = data[offset + header_len - 2];
    let lo = data[offset + header_len - 1];
    let payload_len: usize = 256 * (hi as usize) + (lo as usize);
    if payload_len > data.len() - (offset + header_len) {
        return Err(StreamError::PayloadOverrun);
    }
    Ok(Frame { kind, offset, payload_len })
}

/// Copy one frame's bytes, header and payload, exactly as they stand in
/// the recording; this is the unit the delivery sink sends.
pub fn frame_bytes(data: &Vec<u8>, f: &Frame) -> (r: Vec<u8>)
    requires
        f.wf(),
        frame_ok_at(data@, f.offset as int),
        *f == spec_frame_at(data@, f.offset as int),
    ensures
        r@ == data@.subrange(f.offset as int, f.offset + f.spec_total_len()),
{
    proof {
        assert(spec_payload_len_at(data@, f.offset as int) <= 0xffff);
        assert(data@.len() == data.len());
    }
    let total = f.total_len();
    let mut out: Vec<u8> = Vec::new();
    let mut i: usize = 0;
    while i < total
        invariant
            i <= total,
            data@.len() <= usize::MAX,
            f.offset + total <= data@.len(),
            total == f.spec_total_len(),
            out@ =~= data@.subrange(f.offset as int, f.offset + i),
        decreases total - i,
    {
        out.push(data[f.offset + i]);
        i = i + 1;
    }
    out
}

/// The sequence of frames that tiles the buffer from offset `o` to its end,
/// or `None` when a malformed frame is met before the end is reached.
pub open spec fn spec_frames_from(s: Seq<u8>, o: int) -> Option<Seq<Frame>>
    decreases s.len() - o
        when 0 <= o <= s.len()
{
    if o == s.len() {
        Option::Some(Seq::empty())
    } else if frame_ok_at(s, o) {
        match spec_frames_from(s, o + spec_total_len_at(s, o)) {
            Option::Some(rest) => Option::Some(seq![spec_frame_at(s, o)] + rest),
            Option::None => Option::None,
        }
    } else {
        Option::None
    }
}

/// The error that framing reports for the first malformed frame at or after
/// offset `o` (meaningful when `spec_frames_from` is `None` there).
pub open spec fn spec_stream_error_from(s: Seq<u8>, o: int) -> StreamError
    decreases s.len() - o
        when 0 <= o <= s.len()
{
    if o == s.len() {
        StreamError::TruncatedHeader
    } else if frame_ok_at(s, o) {
        spec_stream_error_from(s, o + spec_total_len_at(s, o))
    } else if header_fits(s, o) {
        StreamError::PayloadOverrun
    } else {
        StreamError::TruncatedHeader
    }
}

/// Total byte length of a sequence of frames.
pub open spec fn sum_total_lens(fs: Seq<Frame>) -> int
    decreases fs.len(),
{
    if fs.len() == 0 {
        0
    } else {
        fs[0].spec_total_len() + sum_total_lens(fs.drop_first())
    }
}

/// Extract every frame of the recording, walking the cursor from offset 0
/// to the end. Returns the frames in stream order, or the error of the
/// first malformed frame met on the way.
pub fn parse_all(data: &Vec<u8>) -> (r: Result<Vec<Frame>, StreamError>)
    ensures
        r is Ok <==> spec_frames_from(data@, 0) is Some,
        (match r {
            Ok(fs) => Option::Some(fs@) == spec_frames_from(data@, 0),
            Err(e) => e == spec_stream_error_from(data@, 0),
        }),
{
    let mut frames: Vec<Frame> = Vec::new();
    let mut cursor: usize = 0;
    while cursor < data.len()
        invariant
            cursor <= data.len(),
            (match spec_frames_from(data@, cursor as int) {
                Option::Some(rest) => spec_frames_from(data@, 0) == Option::Some(frames@ + rest),
                Option::None => spec_frames_from(data@, 0) is None
                    && spec_stream_error_from(data@, 0) == spec_stream_error_from(
                        data@,
                        cursor as int,
                    ),
            }),
        decreases data.len() - cursor,
    {
        match parse_frame(data, cursor) {
            Err(e) => {
                return Err(e);
            },
            Ok(f) => {
                proof {
                    assert(spec_payload_len_at(data@, cursor as int) <= 0xffff);
                    assert(f.spec_total_len() == spec_total_len_at(data@, cursor as int));
                }
                let t = f.total_len();
                let ghost pre = cursor as int;
                let ghost pre_frames = frames@;
                frames.push(f);
                cursor = cursor + t;
                proof {
                    match spec_frames_from(data@, cursor as int) {
                        Option::Some(rest) => {
                            assert(spec_frames_from(data@, pre) == Option::Some(
                                seq![f] + rest,
                            ));
                            assert(pre_frames + (seq![f] + rest) =~= frames@ + rest);
                        },
                        Option::None => {
                            assert(spec_frames_from(data@, pre) is None);
                        },
                    }
                }
            },
        }
    }
    proof {
        assert(spec_frames_from(data@, cursor as int) == Option::Some(Seq::<Frame>::empty()));
        assert(frames@ + Seq::<Frame>::empty() =~= frames@);
    }
    Ok(frames)
}

/// Frames produced from a buffer tile it without gap or overlap: each frame
/// starts where the previous one ended, and their total lengths sum to the
/// span they cover.
proof fn lemma_frames_tile_buffer(s: Seq<u8>, o: int, fs: Seq<Frame>)
    requires
        0 <= o <= s.len(),
        s.len() <= usize::MAX,
        spec_frames_from(s, o) == Option::Some(fs),
    ensures
        sum_total_lens(fs) == s.len() - o,
        fs.len() > 0 ==> fs[0].offset == o,
        forall|i: int|
            0 <= i < fs.len() - 1 ==> #[trigger] fs[i + 1].offset == fs[i].offset
                + fs[i].spec_total_len(),
    decreases s.len() - o,
{
    if o == s.len() {
        assert(fs =~= Seq::<Frame>::empty());
    } else {
        let total = spec_total_len_at(s, o);
        let head = spec_frame_at(s, o);
        let rest = spec_frames_from(s, o + total)->Some_0;
        lemma_frames_tile_buffer(s, o + total, rest);
        assert(fs =~= seq![head] + rest);
        assert(fs.drop_first() =~= rest);
        assert(spec_payload_len_at(s, o) <= 0xffff);
        assert(head.spec_total_len() == total);
        assert(sum_total_lens(fs) == head.spec_total_len() + sum_total_lens(rest));
        assert forall|i: int| 0 <= i < fs.len() - 1 implies #[trigger] fs[i + 1].offset == fs[i].offset
            + fs[i].spec_total_len() by {
            if i == 0 {
                assert(rest.len() > 0);
                assert(fs[1] == rest[0]);
                assert(rest[0].offset == o + total);
            } else {
                assert(fs[i] == rest[i - 1]);
                assert(fs[i + 1] == rest[i]);
            }
        }
    }
}

/// Walking the framer from offset 0 of a well-formed recording consumes
/// every byte exactly once, with no overlap and no gap: the first frame
/// starts at offset 0, each later frame starts exactly where the previous
/// one ended, and the frames' total byte lengths sum to the recording's
/// length.
pub proof fn lemma_framer_consumes_every_byte(s: Seq<u8>, fs: Seq<Frame>)
    requires
        s.len() <= usize::MAX,
        spec_frames_from(s, 0) == Option::Some(fs),
    ensures
        sum_total_lens(fs) == s.len(),
        fs.len() > 0 ==> fs[0].offset == 0,
        forall|i: int|
            0 <= i < fs.len() - 1 ==> #[trigger] fs[i + 1].offset == fs[i].offset
                + fs[i].spec_total_len(),
{
    lemma_frames_tile_buffer(s, 0, fs);
}

} // verus!
