use jts_core::frame::parse_all;
use jts_core::frame::parse_frame;
use jts_core::frame::frame_bytes;
use jts_core::frame::AUDIO_HEADER_LEN;
use jts_core::frame::VIDEO_HEADER_LEN;
use jts_core::FrameKind;
use jts_core::StreamError;

fn audio_frame(payload: &[u8]) -> Vec<u8> {
    let mut v = vec![0u8; 15];
    v.push(0x30);
    v.extend_from_slice(&[0u8; 8]);
    v.push((payload.len() >> 8) as u8);
    v.push((payload.len() & 0xff) as u8);
    v.extend_from_slice(payload);
    v
}

fn video_frame(tag: u8, payload: &[u8]) -> Vec<u8> {
    let mut v = vec![0u8; 15];
    v.push(tag);
    v.extend_from_slice(&[0u8; 12]);
    v.push((payload.len() >> 8) as u8);
    v.push((payload.len() & 0xff) as u8);
    v.extend_from_slice(payload);
    v
}

#[test]
fn parses_audio_frame() {
    let data = audio_frame(&[1, 2, 3]);
    let f = parse_frame(&data, 0).unwrap();
    assert_eq!(f.kind, FrameKind::Audio);
    assert_eq!(f.offset, 0);
    assert_eq!(f.payload_len, 3);
    assert_eq!(f.total_len(), AUDIO_HEADER_LEN + 3);
    assert_eq!(data.len(), AUDIO_HEADER_LEN + 3);
}

#[test]
fn parses_video_key_frame() {
    let data = video_frame(0x00, &[9; 300]);
    let f = parse_frame(&data, 0).unwrap();
    assert_eq!(f.kind, FrameKind::VideoKey);
    assert_eq!(f.payload_len, 300);
    assert_eq!(f.total_len(), VIDEO_HEADER_LEN + 300);
}

#[test]
fn parses_video_delta_frame() {
    // any tag other than 0x00 and 0x30 is a video delta frame
    let data = video_frame(0x10, &[7, 8]);
    let f = parse_frame(&data, 0).unwrap();
    assert_eq!(f.kind, FrameKind::VideoDelta);
    assert_eq!(f.payload_len, 2);
    assert_eq!(f.total_len(), VIDEO_HEADER_LEN + 2);
}

#[test]
fn framer_consumes_every_byte() {
    let mut data = audio_frame(&[1, 2, 3]);
    data.extend_from_slice(&video_frame(0x00, &[4, 5, 6, 7]));
    data.extend_from_slice(&video_frame(0x42, &[8]));
    data.extend_from_slice(&audio_frame(&[]));
    let frames = parse_all(&data).unwrap();
    assert_eq!(frames.len(), 4);
    let mut cursor = 0usize;
    let mut total = 0usize;
    for f in &frames {
        assert_eq!(f.offset, cursor, "each frame starts where the last ended");
        cursor += f.total_len();
        total += f.total_len();
    }
    assert_eq!(total, data.len(), "total byte lengths sum to the buffer length");
    assert_eq!(cursor, data.len());
}

#[test]
fn empty_recording_has_no_frames() {
    let data: Vec<u8> = vec![];
    let frames = parse_all(&data).unwrap();
    assert_eq!(frames.len(), 0);
}

#[test]
fn truncated_header_is_rejected() {
    // fewer bytes than even the tag byte needs
    let data = vec![0u8; 10];
    assert_eq!(parse_frame(&data, 0), Err(StreamError::TruncatedHeader));
    // tag says video, but fewer than 30 header bytes remain
    let mut short = vec![0u8; 15];
    short.push(0x00);
    short.extend_from_slice(&[0u8; 5]);
    assert_eq!(parse_frame(&short, 0), Err(StreamError::TruncatedHeader));
    assert_eq!(parse_all(&short), Err(StreamError::TruncatedHeader));
}

#[test]
fn payload_past_buffer_end_is_rejected() {
    // the header declares four payload bytes but only two follow
    let mut data = audio_frame(&[1, 2, 3, 4]);
    data.truncate(data.len() - 2);
    assert_eq!(parse_frame(&data, 0), Err(StreamError::PayloadOverrun));
    assert_eq!(parse_all(&data), Err(StreamError::PayloadOverrun));
}

#[test]
fn malformed_tail_fails_whole_walk() {
    // one good frame, then a header whose declared payload overruns the end
    let mut data = video_frame(0x00, &[1, 1]);
    let good_len = data.len();
    data.extend_from_slice(&audio_frame(&[2, 2, 2]));
    data.truncate(data.len() - 1);
    assert!(parse_frame(&data, 0).is_ok());
    assert_eq!(parse_frame(&data, good_len), Err(StreamError::PayloadOverrun));
    assert_eq!(parse_all(&data), Err(StreamError::PayloadOverrun));
}

#[test]
fn frame_bytes_are_the_exact_slice() {
    let mut data = audio_frame(&[10, 20, 30]);
    let video_at = data.len();
    data.extend_from_slice(&video_frame(0x00, &[40, 50]));
    let f = parse_frame(&data, video_at).unwrap();
    let bytes = frame_bytes(&data, &f);
    assert_eq!(bytes.as_slice(), &data[video_at..video_at + f.total_len()]);
    assert_eq!(*bytes.last().unwrap(), 50);
}
