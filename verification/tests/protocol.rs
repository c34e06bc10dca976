use syncr::protocol::{
    frame_length, read_message, write_message, FileMetadata, Message, ProtocolError,
};
use syncr::varint::put_varint;

fn sample_messages() -> Vec<Message> {
    vec![
        Message::Handshake { version: 1 },
        Message::Handshake { version: u32::MAX },
        Message::FileRequest { path: "/data/a.txt".to_string() },
        Message::FileData {
            path: "/data/a.txt".to_string(),
            data: b"hello\n".to_vec(),
            offset: 0,
            is_last: true,
        },
        Message::FileData {
            path: String::new(),
            data: vec![0u8; 300],
            offset: u64::MAX,
            is_last: false,
        },
        Message::FileSignature { path: "a".to_string(), signature: vec![1, 2, 3] },
        Message::FileDelta { path: "a".to_string(), delta: vec![] },
        Message::ListRequest { path: "/r".to_string() },
        Message::ListResponse { files: vec![] },
        Message::ListResponse {
            files: vec![
                FileMetadata { path: "/r".to_string(), len: 0, modified: 1_700_000_000, is_dir: true },
                FileMetadata {
                    path: "/r/sub/x".to_string(),
                    len: 1 << 40,
                    modified: 0,
                    is_dir: false,
                },
            ],
        },
        Message::FileUpdateNotification { path: "/r/sub/x".to_string() },
        Message::StartSync { path: "/data/a.txt".to_string() },
        Message::Error { message: "File not found: /nope \u{00e9}\u{4e2d}\u{1f600}".to_string() },
    ]
}

#[test]
fn decode_inverts_encode_for_every_variant() {
    for msg in sample_messages() {
        let bytes = msg.encode();
        assert_eq!(Message::decode(&bytes), Ok(msg));
    }
}

#[test]
fn read_inverts_write_for_every_variant() {
    for msg in sample_messages() {
        let frame = write_message(&msg).unwrap();
        let used = frame.len();
        let mut stream = frame.clone();
        stream.extend_from_slice(&[0xff, 0xff, 0xff]);
        assert_eq!(read_message(&stream), Ok((msg, used)));
    }
}

#[test]
fn handshake_has_the_expected_bytes() {
    assert_eq!(Message::Handshake { version: 1 }.encode(), vec![0, 1]);
    assert_eq!(write_message(&Message::Handshake { version: 1 }), Ok(vec![0, 0, 0, 2, 0, 1]));
}

#[test]
fn file_data_has_the_expected_bytes() {
    let msg = Message::FileData {
        path: "a".to_string(),
        data: vec![9, 8],
        offset: 300,
        is_last: true,
    };
    assert_eq!(msg.encode(), vec![2, 1, b'a', 2, 9, 8, 0xac, 0x02, 1]);
}

#[test]
fn encoding_agrees_with_postcard_on_the_same_fields() {
    let path = "/data/\u{00e9}.txt".to_string();
    let data: Vec<u8> = (0..200u16).map(|i| (i % 251) as u8).collect();
    let msg = Message::FileData { path: path.clone(), data: data.clone(), offset: 1 << 33, is_last: true };
    let expected = postcard::to_stdvec(&(2u32, &path, &data, 1u64 << 33, true)).unwrap();
    assert_eq!(msg.encode(), expected);

    let sig = Message::FileSignature { path: path.clone(), signature: data.clone() };
    assert_eq!(sig.encode(), postcard::to_stdvec(&(3u32, &path, &data)).unwrap());

    let err = Message::Error { message: path.clone() };
    assert_eq!(err.encode(), postcard::to_stdvec(&(9u32, &path)).unwrap());

    let hs = Message::Handshake { version: 70_000 };
    assert_eq!(hs.encode(), postcard::to_stdvec(&(0u32, 70_000u32)).unwrap());
}

#[test]
fn listing_agrees_with_postcard_on_the_same_fields() {
    let files = vec![
        FileMetadata { path: "/r/a".to_string(), len: 5, modified: 1_700_000_000, is_dir: false },
        FileMetadata { path: "/r/d".to_string(), len: 0, modified: 7, is_dir: true },
    ];
    let plain: Vec<(String, u64, u64, bool)> =
        files.iter().map(|f| (f.path.clone(), f.len, f.modified, f.is_dir)).collect();
    let expected = postcard::to_stdvec(&(6u32, plain)).unwrap();
    assert_eq!(Message::ListResponse { files }.encode(), expected);
}

#[test]
fn decoding_agrees_with_postcard_on_padded_integers() {
    // A zero-padded varint is accepted, as long as it stays within five bytes.
    let padded = [0u8, 0x81, 0x80, 0x00];
    assert_eq!(postcard::from_bytes::<(u32, u32)>(&padded), Ok((0, 1)));
    assert_eq!(Message::decode(&padded), Ok(Message::Handshake { version: 1 }));
    let too_wide = [0u8, 0xff, 0xff, 0xff, 0xff, 0x1f];
    assert!(postcard::from_bytes::<(u32, u32)>(&too_wide).is_err());
    assert_eq!(Message::decode(&too_wide), Err(ProtocolError::ProtocolDecode));
    let widest = [0u8, 0xff, 0xff, 0xff, 0xff, 0x0f];
    assert_eq!(Message::decode(&widest), Ok(Message::Handshake { version: u32::MAX }));
}

#[test]
fn trailing_bytes_after_a_message_are_ignored() {
    assert_eq!(Message::decode(&[0, 1, 7, 7, 7]), Ok(Message::Handshake { version: 1 }));
}

#[test]
fn malformed_payloads_are_decode_errors() {
    let cases: Vec<Vec<u8>> = vec![
        vec![],
        vec![10, 0],
        vec![0],
        vec![1, 5, b'a'],
        vec![1, 2, 0xff, 0xfe],
        vec![2, 1, b'a', 0, 0, 2],
        vec![6, 1, 1, b'a', 0, 0],
        vec![0x80],
        vec![0x80, 0x80, 0x80, 0x80, 0x80, 0x00],
    ];
    for bytes in cases {
        assert_eq!(Message::decode(&bytes), Err(ProtocolError::ProtocolDecode), "{:?}", bytes);
    }
}

#[test]
fn short_reads_are_truncation_errors() {
    assert_eq!(read_message(&[]), Err(ProtocolError::ProtocolTruncated));
    assert_eq!(read_message(&[0, 0, 0]), Err(ProtocolError::ProtocolTruncated));
    assert_eq!(read_message(&[0, 0, 0, 2, 0]), Err(ProtocolError::ProtocolTruncated));
    assert_eq!(read_message(&[0, 0, 0, 2, 10, 0]), Err(ProtocolError::ProtocolDecode));
    assert_eq!(read_message(&[0, 0, 0, 0]), Err(ProtocolError::ProtocolDecode));
}

#[test]
fn frame_length_is_big_endian() {
    assert_eq!(frame_length(&[0, 0, 0, 0]), 0);
    assert_eq!(frame_length(&[0, 0, 1, 2]), 258);
    assert_eq!(frame_length(&[0x12, 0x34, 0x56, 0x78]), 0x1234_5678);
    assert_eq!(frame_length(&[0xff, 0xff, 0xff, 0xff]), u32::MAX);
}

#[test]
fn varints_have_the_expected_bytes() {
    let cases: Vec<(u64, Vec<u8>)> = vec![
        (0, vec![0]),
        (127, vec![0x7f]),
        (128, vec![0x80, 0x01]),
        (300, vec![0xac, 0x02]),
        (16_383, vec![0xff, 0x7f]),
        (16_384, vec![0x80, 0x80, 0x01]),
        (u64::MAX, vec![0xff, 0xff, 0xff, 0xff, 0xff, 0xff, 0xff, 0xff, 0xff, 0x01]),
    ];
    for (value, bytes) in cases {
        let mut out = vec![0xaa];
        put_varint(&mut out, value);
        assert_eq!(&out[1..], &bytes[..]);
        assert_eq!(postcard::to_stdvec(&value).unwrap(), bytes);
        let mut framed = vec![2, 0, 0];
        framed.extend_from_slice(&bytes);
        framed.push(1);
        assert_eq!(
            Message::decode(&framed),
            Ok(Message::FileData { path: String::new(), data: vec![], offset: value, is_last: true })
        );
    }
}
