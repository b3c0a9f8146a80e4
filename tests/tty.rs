use containers_api::conn::tty::{decode_all, decode_chunk, encode_chunk, TtyChunk, TtyDecoder, TtyStep};
use containers_api::conn::Error;

fn frame(tag: u8, payload: &[u8]) -> Vec<u8> {
    let len = payload.len() as u32;
    let mut v = vec![tag, 0, 0, 0];
    v.extend_from_slice(&len.to_be_bytes());
    v.extend_from_slice(payload);
    v
}

#[test]
fn decodes_one_stdout_frame() {
    let mut bytes = vec![1u8, 0, 0, 0, 0, 0, 0, 5];
    bytes.extend_from_slice(b"hello");
    let (chunks, err) = decode_all(&bytes);
    assert!(err.is_none());
    assert_eq!(chunks.len(), 1);
    assert!(matches!(&chunks[0], TtyChunk::StdOut(b) if b.as_slice() == b"hello"));
}

#[test]
fn unknown_tag_is_a_protocol_violation() {
    let mut bytes = vec![9u8, 0, 0, 0, 0, 0, 0, 5];
    bytes.extend_from_slice(b"hello");
    let (chunks, err) = decode_all(&bytes);
    assert!(chunks.is_empty());
    assert!(matches!(err, Some(Error::UnknownStreamTag(9))));
    assert!(matches!(decode_chunk(&bytes, false), TtyStep::Failed(Error::UnknownStreamTag(9))));
}

#[test]
fn end_after_whole_frame_is_clean() {
    let bytes = frame(2, b"oops");
    let (chunks, err) = decode_all(&bytes);
    assert!(err.is_none());
    assert_eq!(chunks.len(), 1);
    assert!(matches!(&chunks[0], TtyChunk::StdErr(b) if b.as_slice() == b"oops"));
    assert!(matches!(decode_chunk(&[], true), TtyStep::End));
}

#[test]
fn end_inside_header_is_an_error() {
    let mut bytes = frame(1, b"ab");
    bytes.extend_from_slice(&[1, 0, 0]);
    let (chunks, err) = decode_all(&bytes);
    assert_eq!(chunks.len(), 1);
    assert!(matches!(err, Some(Error::TruncatedFrame)));
}

#[test]
fn end_inside_payload_is_an_error() {
    let bytes = vec![0u8, 0, 0, 0, 0, 0, 0, 10, b'x'];
    let (chunks, err) = decode_all(&bytes);
    assert!(chunks.is_empty());
    assert!(matches!(err, Some(Error::TruncatedFrame)));
}

#[test]
fn partial_frame_needs_more_bytes() {
    assert!(matches!(decode_chunk(&[], false), TtyStep::NeedMore));
    assert!(matches!(decode_chunk(&[1, 0, 0], false), TtyStep::NeedMore));
    assert!(matches!(decode_chunk(&[1, 0, 0, 0, 0, 0, 0, 3, b'a'], false), TtyStep::NeedMore));
    let bytes = frame(0, b"abc");
    match decode_chunk(&bytes, false) {
        TtyStep::Chunk(TtyChunk::StdIn(b), n) => {
            assert_eq!(b, b"abc".to_vec());
            assert_eq!(n, 11);
        }
        other => panic!("unexpected step {:?}", other),
    }
}

#[test]
fn empty_payload_frame() {
    let bytes = frame(1, b"");
    let (chunks, err) = decode_all(&bytes);
    assert!(err.is_none());
    assert_eq!(chunks.len(), 1);
    assert!(chunks[0].as_bytes().is_empty());
}

#[test]
fn encodes_header_and_payload() {
    let chunk = TtyChunk::StdOut(b"hello".to_vec());
    let mut want = vec![1u8, 0, 0, 0, 0, 0, 0, 5];
    want.extend_from_slice(b"hello");
    assert_eq!(encode_chunk(&chunk), want);
    let big = TtyChunk::StdErr(vec![7u8; 70000]);
    let enc = encode_chunk(&big);
    assert_eq!(&enc[..8], &[2u8, 0, 0, 0, 0, 1, 0x11, 0x70]);
}

#[test]
fn round_trip_of_many_frames() {
    let mut seed: u64 = 0x2545_f491_4f6c_dd1d;
    let mut chunks = Vec::new();
    for i in 0..40usize {
        seed = seed.wrapping_mul(6364136223846793005).wrapping_add(1442695040888963407);
        let len = ((seed >> 33) % 65536) as usize;
        let payload: Vec<u8> = (0..len).map(|j| (j as u8) ^ (i as u8)).collect();
        let chunk = match i % 3 {
            0 => TtyChunk::StdIn(payload),
            1 => TtyChunk::StdOut(payload),
            _ => TtyChunk::StdErr(payload),
        };
        chunks.push(chunk);
    }
    chunks.push(TtyChunk::StdOut(Vec::new()));
    let mut wire = Vec::new();
    for c in &chunks {
        wire.extend(encode_chunk(c));
    }
    let (decoded, err) = decode_all(&wire);
    assert!(err.is_none());
    assert_eq!(decoded.len(), chunks.len());
    for (a, b) in decoded.iter().zip(chunks.iter()) {
        assert_eq!(a.stream_tag(), b.stream_tag());
        assert_eq!(a.as_bytes(), b.as_bytes());
    }
}

#[test]
fn chunk_gives_up_its_bytes() {
    let chunk = TtyChunk::StdErr(vec![1, 2, 3]);
    assert_eq!(chunk.stream_tag(), 2);
    let v: Vec<u8> = chunk.clone().into();
    assert_eq!(v, vec![1, 2, 3]);
    assert_eq!(chunk.into_bytes(), vec![1, 2, 3]);
}

#[test]
fn streaming_decoder_handles_any_split() {
    let mut wire = frame(1, b"hello");
    wire.extend(frame(2, b""));
    wire.extend(frame(0, b"in"));
    for split in 1..wire.len() {
        let mut dec = TtyDecoder::new();
        let mut got: Vec<(u8, Vec<u8>)> = Vec::new();
        for piece in wire.chunks(split) {
            dec.feed(piece);
            while let TtyStep::Chunk(c, _) = dec.next_chunk(false) {
                got.push((c.stream_tag(), c.into_bytes()));
            }
        }
        assert!(matches!(dec.next_chunk(true), TtyStep::End));
        let want = vec![(1u8, b"hello".to_vec()), (2, vec![]), (0, b"in".to_vec())];
        assert_eq!(got, want);
    }
}

#[test]
fn streaming_decoder_reports_truncation_at_end() {
    let mut dec = TtyDecoder::new();
    dec.feed(&[1, 0, 0, 0, 0, 0]);
    assert!(matches!(dec.next_chunk(false), TtyStep::NeedMore));
    assert!(matches!(dec.next_chunk(true), TtyStep::Failed(Error::TruncatedFrame)));
}

#[test]
fn chunk_derefs_to_its_bytes() {
    let chunk = TtyChunk::StdOut(b"abc".to_vec());
    assert_eq!(chunk.len(), 3);
    let r: &Vec<u8> = chunk.as_ref();
    assert_eq!(r, &b"abc".to_vec());
}

#[test]
fn chunk_bytes_can_be_changed_in_place() {
    let mut chunk = TtyChunk::StdIn(Vec::new());
    chunk.push(7);
    chunk.extend_from_slice(b"ab");
    assert_eq!(chunk.as_bytes(), &vec![7u8, b'a', b'b']);
    assert_eq!(chunk.stream_tag(), 0);
}
