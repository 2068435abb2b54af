use freight_train::framing::{FrameError, TunnelCodec, MAX_FRAME_LENGTH};

#[test]
fn encode_prefixes_the_big_endian_length() {
    let mut codec = TunnelCodec::new();
    let mut dst = vec![9u8];
    codec.encode(vec![1, 2, 3], &mut dst).unwrap();
    assert_eq!(dst, vec![9, 0, 0, 0, 3, 1, 2, 3]);
}

#[test]
fn encode_refuses_a_payload_over_the_limit() {
    let mut codec = TunnelCodec::new();
    let mut dst = vec![7u8];
    let r = codec.encode(vec![0u8; MAX_FRAME_LENGTH + 1], &mut dst);
    assert_eq!(r, Err(FrameError::TooLong));
    assert_eq!(dst, vec![7]);
    let mut dst = Vec::new();
    assert!(codec.encode(vec![0u8; MAX_FRAME_LENGTH], &mut dst).is_ok());
    assert_eq!(dst.len(), MAX_FRAME_LENGTH + 4);
    assert_eq!(&dst[..4], &[0, 0x80, 0, 0]);
}

#[test]
fn decode_gives_back_what_was_encoded() {
    let mut codec = TunnelCodec::new();
    let mut wire = Vec::new();
    codec.encode(vec![0xA1, 0x64, 0x50], &mut wire).unwrap();
    codec.encode(vec![], &mut wire).unwrap();
    codec.encode(b"second".to_vec(), &mut wire).unwrap();
    assert_eq!(codec.decode(&mut wire), Ok(Some(vec![0xA1, 0x64, 0x50])));
    assert_eq!(codec.decode(&mut wire), Ok(Some(vec![])));
    assert_eq!(codec.decode(&mut wire), Ok(Some(b"second".to_vec())));
    assert_eq!(codec.decode(&mut wire), Ok(None));
    assert!(wire.is_empty());
}

#[test]
fn decode_waits_for_a_whole_frame() {
    let mut codec = TunnelCodec::new();
    let mut buf = vec![0, 0];
    assert_eq!(codec.decode(&mut buf), Ok(None));
    assert_eq!(buf, vec![0, 0]);
    buf.extend_from_slice(&[0, 3, 5]);
    assert_eq!(codec.decode(&mut buf), Ok(None));
    assert_eq!(buf, vec![0, 0, 0, 3, 5]);
    buf.extend_from_slice(&[6, 7, 8]);
    assert_eq!(codec.decode(&mut buf), Ok(Some(vec![5, 6, 7])));
    assert_eq!(buf, vec![8]);
}

#[test]
fn decode_refuses_a_head_over_the_limit() {
    let mut codec = TunnelCodec::new();
    let mut buf = vec![0, 0x80, 0, 1, 1, 2];
    assert_eq!(codec.decode(&mut buf), Err(FrameError::TooLong));
    assert_eq!(buf, vec![0, 0x80, 0, 1, 1, 2]);
}
