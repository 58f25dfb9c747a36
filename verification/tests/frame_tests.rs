use bytes::{Bytes, BytesMut};
use collab_client::frame::{decode_frame, encode_frame, FrameReader};
use collab_client::message::ErrorKind;
use tokio_util::codec::{Decoder, Encoder, LengthDelimitedCodec};

#[test]
fn frame_of_three_bytes() {
    assert_eq!(encode_frame(&[7, 8, 9]), Ok(vec![0, 0, 0, 3, 7, 8, 9]));
}

#[test]
fn frame_of_nothing_is_a_bare_header() {
    assert_eq!(encode_frame(&[]), Ok(vec![0, 0, 0, 0]));
}

#[test]
fn header_is_big_endian() {
    let payload = vec![1u8; 0x0102];
    let frame = encode_frame(&payload).unwrap();
    assert_eq!(&frame[..4], &[0, 0, 1, 2]);
    assert_eq!(frame.len(), 4 + 0x0102);
    let large = vec![0u8; 0x01_02_03];
    assert_eq!(&encode_frame(&large).unwrap()[..4], &[0, 1, 2, 3]);
}

#[test]
fn payload_reads_back_from_its_frame() {
    let payload = vec![0u8, 255, 17, 42, 0];
    let frame = encode_frame(&payload).unwrap();
    assert_eq!(decode_frame(&frame), Ok(payload));
}

#[test]
fn decode_refuses_a_short_header() {
    assert_eq!(decode_frame(&[]), Err(ErrorKind::Framing));
    assert_eq!(decode_frame(&[0, 0, 0]), Err(ErrorKind::Framing));
}

#[test]
fn decode_refuses_a_truncated_payload() {
    assert_eq!(decode_frame(&[0, 0, 0, 3, 7, 8]), Err(ErrorKind::Framing));
}

#[test]
fn decode_refuses_trailing_bytes() {
    assert_eq!(decode_frame(&[0, 0, 0, 1, 7, 8]), Err(ErrorKind::Framing));
}

#[test]
fn encode_agrees_with_the_length_delimited_codec() {
    for payload in [vec![], vec![1u8], vec![9u8; 300], vec![0u8; 70_000]] {
        let mut codec = LengthDelimitedCodec::new();
        let mut written = BytesMut::new();
        codec.encode(Bytes::from(payload.clone()), &mut written).unwrap();
        assert_eq!(encode_frame(&payload).unwrap(), written.to_vec());
    }
}

#[test]
fn reader_agrees_with_the_length_delimited_codec() {
    let mut stream = Vec::new();
    for payload in [vec![5u8, 6], vec![], vec![1u8; 1000]] {
        stream.extend(encode_frame(&payload).unwrap());
    }
    let mut codec = LengthDelimitedCodec::new();
    let mut source = BytesMut::from(&stream[..]);
    let mut reader = FrameReader::new(8 * 1024 * 1024);
    reader.push(&stream);
    loop {
        let theirs = codec.decode(&mut source).unwrap().map(|b| b.to_vec());
        let ours = reader.next_frame().unwrap();
        assert_eq!(ours, theirs);
        if ours.is_none() {
            break;
        }
    }
    assert!(reader.is_idle());
}

#[test]
fn reader_waits_for_the_rest_of_a_frame() {
    let mut reader = FrameReader::new(1024);
    reader.push(&[0, 0]);
    assert_eq!(reader.next_frame(), Ok(None));
    reader.push(&[0, 2, 10]);
    assert_eq!(reader.next_frame(), Ok(None));
    assert!(!reader.is_idle());
    reader.push(&[11]);
    assert_eq!(reader.next_frame(), Ok(Some(vec![10, 11])));
    assert_eq!(reader.next_frame(), Ok(None));
    assert!(reader.is_idle());
}

#[test]
fn reader_splits_frames_that_arrive_together() {
    let mut reader = FrameReader::new(1024);
    reader.push(&[0, 0, 0, 1, 42, 0, 0, 0, 2, 43, 44, 0]);
    assert_eq!(reader.next_frame(), Ok(Some(vec![42])));
    assert_eq!(reader.next_frame(), Ok(Some(vec![43, 44])));
    assert_eq!(reader.next_frame(), Ok(None));
    assert!(!reader.is_idle());
}

#[test]
fn reader_refuses_a_frame_over_its_limit() {
    let mut reader = FrameReader::new(4);
    reader.push(&[0, 0, 0, 5, 1, 2, 3, 4, 5]);
    assert_eq!(reader.next_frame(), Err(ErrorKind::Framing));
    let mut exact = FrameReader::new(4);
    exact.push(&[0, 0, 0, 4, 1, 2, 3, 4]);
    assert_eq!(exact.next_frame(), Ok(Some(vec![1, 2, 3, 4])));
}
