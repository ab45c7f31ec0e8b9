use mc_wake_proxy::error::{ErrorClass, ProtocolError};
use mc_wake_proxy::handshake::{
    has_overflowing_address, parse_handshake, Handshake, HandshakeReader,
};
use mc_wake_proxy::packet::{frame_packet, string_packet, PacketReader};
use mc_wake_proxy::probe::{probe_handshake_packet, status_request_packet};
use mc_wake_proxy::varint::{read_varint_slice, write_varint, VarintReader};

fn encoded(v: i32) -> Vec<u8> {
    let mut buf = Vec::new();
    write_varint(&mut buf, v);
    buf
}

fn streamed(bytes: &[u8]) -> (Result<Option<i32>, ProtocolError>, Vec<u8>) {
    let mut reader = VarintReader::new();
    let mut last = Ok(None);
    for b in bytes {
        last = reader.read_varint_stream(*b);
    }
    (last, reader.into_raw())
}

#[test]
fn varint_known_encodings() {
    let cases: Vec<(i32, Vec<u8>)> = vec![
        (0, vec![0x00]),
        (1, vec![0x01]),
        (127, vec![0x7f]),
        (128, vec![0x80, 0x01]),
        (255, vec![0xff, 0x01]),
        (25565, vec![0xdd, 0xc7, 0x01]),
        (2097151, vec![0xff, 0xff, 0x7f]),
        (2147483647, vec![0xff, 0xff, 0xff, 0xff, 0x07]),
        (-1, vec![0xff, 0xff, 0xff, 0xff, 0x0f]),
        (-2147483648, vec![0x80, 0x80, 0x80, 0x80, 0x08]),
    ];
    for (value, bytes) in cases {
        assert_eq!(encoded(value), bytes);
        let mut idx = 0;
        assert_eq!(read_varint_slice(&bytes, &mut idx), Ok(value));
        assert_eq!(idx, bytes.len());
        assert_eq!(streamed(&bytes), (Ok(Some(value)), bytes.clone()));
    }
}

#[test]
fn varint_is_appended() {
    let mut buf = vec![9, 9];
    write_varint(&mut buf, 300);
    assert_eq!(buf, vec![9, 9, 0xac, 0x02]);
}

#[test]
fn varint_read_stops_at_its_end() {
    let mut idx = 1;
    assert_eq!(read_varint_slice(&[7, 0x80, 0x01, 5], &mut idx), Ok(128));
    assert_eq!(idx, 3);
    assert_eq!(read_varint_slice(&[7, 0x80, 0x01, 5], &mut idx), Ok(5));
    assert_eq!(idx, 4);
}

#[test]
fn varint_longer_than_needed_is_read() {
    let mut idx = 0;
    assert_eq!(read_varint_slice(&[0x80, 0x80, 0x00], &mut idx), Ok(0));
    assert_eq!(idx, 3);
    let mut idx = 0;
    assert_eq!(read_varint_slice(&[0xff, 0xff, 0xff, 0xff, 0x7f], &mut idx), Ok(-1));
    assert_eq!(idx, 5);
}

#[test]
fn varint_truncated() {
    let mut idx = 0;
    assert_eq!(read_varint_slice(&[], &mut idx), Err(ProtocolError::TruncatedVarint));
    assert_eq!(idx, 0);
    assert_eq!(read_varint_slice(&[0x80, 0x80], &mut idx), Err(ProtocolError::TruncatedVarint));
    assert_eq!(idx, 2);
    let mut idx = 9;
    assert_eq!(read_varint_slice(&[1, 2], &mut idx), Err(ProtocolError::TruncatedVarint));
    assert_eq!(idx, 9);
    assert_eq!(streamed(&[0x80, 0x80, 0x80, 0x80]).0, Ok(None));
}

#[test]
fn varint_too_long() {
    let mut idx = 0;
    let bytes = [0x80, 0x80, 0x80, 0x80, 0x80, 0x01];
    assert_eq!(read_varint_slice(&bytes, &mut idx), Err(ProtocolError::VarintTooLong));
    assert_eq!(idx, 5);
    assert_eq!(streamed(&bytes[..5]).0, Err(ProtocolError::VarintTooLong));
}

fn read_packet(stream: &[u8], max_len: i32) -> Result<(Vec<u8>, usize), ProtocolError> {
    let mut reader = PacketReader::new(max_len);
    let mut used = 0;
    loop {
        let step = reader.read(stream[used]);
        used += 1;
        if let Some(len) = step? {
            return Ok((stream[used..used + len].to_vec(), used + len));
        }
    }
}

#[test]
fn packet_round_trip() {
    let body: Vec<u8> = (0..200u8).collect();
    let mut stream = frame_packet(&body);
    assert_eq!(&stream[..2], &[0xc8, 0x01]);
    assert_eq!(stream.len(), 202);
    stream.extend_from_slice(&[1, 2, 3]);
    assert_eq!(read_packet(&stream, 200), Ok((body, 202)));
}

#[test]
fn packet_length_out_of_bounds() {
    assert_eq!(read_packet(&frame_packet(&[]), 128), Err(ProtocolError::BadPacketLength(0)));
    assert_eq!(read_packet(&[0x81, 0x01], 128), Err(ProtocolError::BadPacketLength(129)));
    assert_eq!(read_packet(&encoded(-1), 128), Err(ProtocolError::BadPacketLength(-1)));
    assert_eq!(read_packet(&[0x80; 5], 128), Err(ProtocolError::VarintTooLong));
}

#[test]
fn string_packet_holds_utf8_length() {
    assert_eq!(string_packet(0, "hi"), vec![4, 0, 2, b'h', b'i']);
    assert_eq!(string_packet(0, "\u{26a1}"), vec![5, 0, 3, 0xe2, 0x9a, 0xa1]);
    assert_eq!(string_packet(300, ""), vec![3, 0xac, 0x02, 0]);
}

fn payload(protocol: i32, address: &[u8], next_state: i32) -> Vec<u8> {
    let mut p = vec![0];
    write_varint(&mut p, protocol);
    write_varint(&mut p, address.len() as i32);
    p.extend_from_slice(address);
    p.extend_from_slice(&[0x63, 0xdd]);
    write_varint(&mut p, next_state);
    p
}

fn read_handshake(stream: &[u8]) -> Result<(Handshake, usize), ProtocolError> {
    let mut reader = HandshakeReader::new();
    let mut used = 0;
    loop {
        let step = reader.read(stream[used]);
        used += 1;
        if let Some(len) = step? {
            let hs = reader.finish(&stream[used..used + len])?;
            return Ok((hs, used + len));
        }
    }
}

fn refused(stream: &[u8]) -> ProtocolError {
    match read_handshake(stream) {
        Ok(_) => panic!("accepted"),
        Err(e) => e,
    }
}

#[test]
fn handshake_is_read_and_kept() {
    let sent = frame_packet(&payload(763, b"play.example.org", 2));
    let mut stream = sent.clone();
    stream.extend_from_slice(b"login start");
    let (hs, used) = read_handshake(&stream).ok().unwrap();
    assert_eq!(hs.raw, sent);
    assert_eq!(hs.protocol, 763);
    assert_eq!(hs.next_state, 2);
    assert_eq!(used, sent.len());
}

#[test]
fn handshake_with_padded_length_is_kept_verbatim() {
    let p = payload(47, b"x", 1);
    let mut stream = vec![0x80 | p.len() as u8, 0x00];
    stream.extend_from_slice(&p);
    let (hs, _) = read_handshake(&stream).ok().unwrap();
    assert_eq!(hs.raw, stream);
    assert_eq!(hs.protocol, 47);
}

#[test]
fn handshake_trailing_bytes_are_ignored() {
    let mut p = payload(5, b"a", 3);
    p.extend_from_slice(&[9, 9]);
    let (hs, _) = read_handshake(&frame_packet(&p)).ok().unwrap();
    assert_eq!(hs.next_state, 3);
    assert_eq!(hs.raw, frame_packet(&p));
}

#[test]
fn legacy_ping_is_refused_at_once() {
    assert_eq!(refused(&[0xfe]), ProtocolError::LegacyPing);
    // A handshake of 254 bytes starts with the same byte.
    assert_eq!(refused(&frame_packet(&payload(5, &[b'a'; 247], 1))), ProtocolError::LegacyPing);
    assert_eq!(payload(5, &[b'a'; 247], 1).len(), 254);
}

#[test]
fn handshake_length_bounds() {
    assert_eq!(refused(&[0x00]), ProtocolError::BadHandshakeLength(0));
    assert_eq!(refused(&encoded(1025)), ProtocolError::BadHandshakeLength(1025));
    assert_eq!(refused(&encoded(-5)), ProtocolError::BadHandshakeLength(-5));
    assert_eq!(refused(&[0xff; 5]), ProtocolError::VarintTooLong);
    let p = payload(5, &[b'a'; 1017], 1);
    assert_eq!(p.len(), 1024);
    assert!(read_handshake(&frame_packet(&p)).is_ok());
}

#[test]
fn handshake_fields_are_checked_in_order() {
    assert_eq!(refused(&frame_packet(&[0x01, 0x80])), ProtocolError::NotAHandshake(1));
    assert_eq!(refused(&frame_packet(&[0x00])), ProtocolError::TruncatedVarint);
    assert_eq!(refused(&frame_packet(&[0x00, 5])), ProtocolError::TruncatedVarint);
    assert_eq!(refused(&frame_packet(&[0x00, 5, 3, b'a'])), ProtocolError::TruncatedHandshake);
    assert_eq!(refused(&frame_packet(&[0x00, 5, 0, 0, 0])), ProtocolError::TruncatedVarint);
    assert_eq!(refused(&frame_packet(&[0x80; 6])), ProtocolError::VarintTooLong);
}

#[test]
fn handshake_negative_address_length() {
    for (len, overflows) in
        vec![(-1, true), (-2, true), (-3, false), (i32::MIN, false), (i32::MAX, false), (8, false)]
    {
        let mut p = vec![0, 0];
        write_varint(&mut p, len);
        p.extend_from_slice(&[0; 8]);
        assert_eq!(has_overflowing_address(&p), overflows);
        if !overflows {
            let error = parse_handshake(Vec::new(), &p).err();
            assert_eq!(error, Some(ProtocolError::TruncatedHandshake));
        }
    }
}

#[test]
fn address_length_counts_only_in_a_handshake() {
    let mut p = vec![1, 0];
    write_varint(&mut p, -1);
    assert!(!has_overflowing_address(&p));
    assert_eq!(parse_handshake(Vec::new(), &p).err(), Some(ProtocolError::NotAHandshake(1)));
    assert!(!has_overflowing_address(&[0, 0, 0xff]));
    assert!(!has_overflowing_address(&payload(763, b"localhost", 2)));
}

#[test]
fn probe_opens_a_status_exchange() {
    assert_eq!(
        probe_handshake_packet(),
        vec![11, 0, 0, 5, b'p', b'r', b'o', b'b', b'e', 0, 0, 1]
    );
    assert_eq!(status_request_packet(), vec![1, 0]);
    let (hs, _) = read_handshake(&probe_handshake_packet()).ok().unwrap();
    assert_eq!((hs.protocol, hs.next_state), (0, 1));
}

#[test]
fn errors_in_words() {
    let cases = vec![
        (ProtocolError::TruncatedVarint, ErrorClass::UnexpectedEof, "truncated varint"),
        (ProtocolError::VarintTooLong, ErrorClass::InvalidData, "varint too long"),
        (ProtocolError::LegacyPing, ErrorClass::InvalidData, "legacy ping ignored"),
        (
            ProtocolError::BadHandshakeLength(-2147483648),
            ErrorClass::InvalidData,
            "bad handshake length -2147483648",
        ),
        (
            ProtocolError::NotAHandshake(7),
            ErrorClass::InvalidData,
            "expected handshake packet, got id 7",
        ),
        (ProtocolError::TruncatedHandshake, ErrorClass::InvalidData, "truncated handshake"),
        (ProtocolError::BadPacketLength(0), ErrorClass::InvalidData, "bad packet length 0"),
        (
            ProtocolError::UnexpectedStatusPacket(1024),
            ErrorClass::InvalidData,
            "unexpected status packet id 1024",
        ),
        (
            ProtocolError::UnexpectedNextState(-10),
            ErrorClass::InvalidData,
            "unexpected next_state -10",
        ),
        (ProtocolError::HandshakeTimeout, ErrorClass::TimedOut, "handshake timeout"),
        (ProtocolError::StatusTimeout, ErrorClass::TimedOut, "status timeout"),
    ];
    for (error, class, words) in cases {
        assert_eq!(error.class(), class);
        assert_eq!(error.message(), words);
    }
}
