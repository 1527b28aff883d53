use gm_tty::protocol::{Frame, FrameType, ProtocolError, HEADER_LEN};

#[test]
fn test_encode_decode_data() {
    let data = b"hello world";
    let frame = Frame::new_data(data);
    let encoded = frame.encode();
    let decoded = Frame::decode(&encoded).unwrap();
    assert_eq!(decoded.frame_type, FrameType::Data);
    assert_eq!(decoded.payload, data);
}

#[test]
fn test_encode_decode_resize() {
    let frame = Frame::new_resize(120, 40);
    let encoded = frame.encode();
    let decoded = Frame::decode(&encoded).unwrap();
    assert_eq!(decoded.frame_type, FrameType::Resize);
    let (cols, rows) = decoded.parse_resize().unwrap();
    assert_eq!(cols, 120);
    assert_eq!(rows, 40);
}

#[test]
fn test_insufficient_data() {
    assert!(matches!(
        Frame::decode(&[0x01, 0x00]),
        Err(ProtocolError::InsufficientData)
    ));
}

#[test]
fn test_unknown_frame_type() {
    let data = [0xFF, 0x00, 0x00, 0x00, 0x00];
    assert!(matches!(
        Frame::decode(&data),
        Err(ProtocolError::UnknownFrameType(0xFF))
    ));
}

#[test]
fn data_frame_bytes() {
    assert_eq!(
        Frame::new_data(b"hi").encode(),
        vec![0x01, 0x00, 0x00, 0x00, 0x02, b'h', b'i']
    );
}

#[test]
fn resize_frame_bytes() {
    assert_eq!(
        Frame::new_resize(0x0102, 0xfffe).encode(),
        vec![0x02, 0x00, 0x00, 0x00, 0x04, 0x01, 0x02, 0xff, 0xfe]
    );
}

#[test]
fn control_frame_bytes() {
    assert_eq!(Frame::heartbeat().encode(), vec![0x03, 0, 0, 0, 0]);
    assert_eq!(Frame::heartbeat_ack().encode(), vec![0x04, 0, 0, 0, 0]);
    assert_eq!(Frame::close().encode(), vec![0x05, 0, 0, 0, 0]);
}

#[test]
fn length_field_is_big_endian() {
    let encoded = Frame::new(FrameType::Data, vec![7u8; 0x0001_0203]).encode();
    assert_eq!(encoded[..HEADER_LEN], [0x01, 0x00, 0x01, 0x02, 0x03]);
    assert_eq!(encoded.len(), HEADER_LEN + 0x0001_0203);
    let decoded = Frame::decode(&encoded).unwrap();
    assert_eq!(decoded.payload, vec![7u8; 0x0001_0203]);
}

#[test]
fn bytes_behind_the_frame_are_ignored() {
    let mut bytes = Frame::new_data(b"abc").encode();
    bytes.extend_from_slice(&[9, 9, 9]);
    let decoded = Frame::decode(&bytes).unwrap();
    assert_eq!(decoded.payload, b"abc");
    assert_eq!(decoded.encode(), bytes[..8]);
}

#[test]
fn every_cut_is_incomplete() {
    let bytes = Frame::new_data(b"abc").encode();
    for cut in 0..bytes.len() {
        assert!(matches!(
            Frame::decode(&bytes[..cut]),
            Err(ProtocolError::InsufficientData)
        ));
    }
}

#[test]
fn short_input_is_incomplete_whatever_its_type() {
    assert!(matches!(
        Frame::decode(&[0xff, 0, 0, 0]),
        Err(ProtocolError::InsufficientData)
    ));
    assert!(matches!(Frame::decode(&[]), Err(ProtocolError::InsufficientData)));
}

#[test]
fn type_is_judged_before_length() {
    assert!(matches!(
        Frame::decode(&[0x06, 0xff, 0xff, 0xff, 0xff]),
        Err(ProtocolError::UnknownFrameType(0x06))
    ));
    assert!(matches!(
        Frame::decode(&[0x01, 0xff, 0xff, 0xff, 0xff]),
        Err(ProtocolError::InsufficientData)
    ));
}

#[test]
fn frame_types_and_bytes_name_each_other() {
    for value in 0..=255u8 {
        match FrameType::try_from(value) {
            Ok(frame_type) => {
                assert!((1..=5).contains(&value));
                assert_eq!(frame_type.code(), value);
            }
            Err(ProtocolError::UnknownFrameType(v)) => {
                assert_eq!(v, value);
                assert!(value == 0 || value > 5);
            }
            Err(ProtocolError::InsufficientData) => panic!("wrong error"),
        }
    }
}

#[test]
fn only_long_enough_resize_frames_have_a_window() {
    assert_eq!(Frame::new(FrameType::Resize, vec![0, 80, 0]).parse_resize(), None);
    assert_eq!(Frame::new(FrameType::Data, vec![0, 80, 0, 24]).parse_resize(), None);
    assert_eq!(
        Frame::new(FrameType::Resize, vec![0, 80, 0, 24, 1, 1]).parse_resize(),
        Some((80, 24))
    );
}

#[test]
fn errors_describe_themselves() {
    assert_eq!(ProtocolError::InsufficientData.to_string(), "insufficient data");
    assert_eq!(
        ProtocolError::UnknownFrameType(0xff).to_string(),
        "unknown frame type: 0xff"
    );
    for value in 0..=255u8 {
        assert_eq!(
            ProtocolError::UnknownFrameType(value).to_string(),
            format!("unknown frame type: 0x{value:02x}")
        );
    }
}

#[test]
fn frames_in_a_stream_split_in_one_way() {
    let frames = [
        Frame::new_data(b"a"),
        Frame::new_data(b""),
        Frame::new_resize(1, 2),
        Frame::heartbeat(),
        Frame::close(),
    ];
    for (i, a) in frames.iter().enumerate() {
        for (j, b) in frames.iter().enumerate() {
            assert_eq!(b.encode().starts_with(&a.encode()), i == j);
        }
    }
}
