use arena::net::{NetworkError, Packet};

#[test]
fn it_works() {
}

#[test]
fn string_packet_round_trip() {
    let s = String::from("hello, arena");
    let bytes = s.to_bytes().to_vec();
    assert_eq!(bytes, s.as_bytes());
    let back = <String as Packet>::from_bytes(&bytes);
    assert_eq!(back, Some(s));
}

#[test]
fn string_packet_rejects_invalid_utf8() {
    assert_eq!(<String as Packet>::from_bytes(&[0xff, 0xfe, 0x61]), None);
    assert_eq!(<String as Packet>::from_bytes(&[0xc3]), None);
}

#[test]
fn string_packet_accepts_multibyte() {
    let s = String::from("\u{1F3AE} ok");
    let bytes = s.to_bytes().to_vec();
    assert_eq!(<String as Packet>::from_bytes(&bytes), Some(s));
}

#[test]
fn string_packet_empty() {
    let s = String::new();
    assert_eq!(s.to_bytes().len(), 0);
    assert_eq!(<String as Packet>::from_bytes(&[]), Some(String::new()));
}

#[test]
fn string_packet_max_size() {
    assert_eq!(<String as Packet>::MAX_SIZE, 1080);
}

#[test]
fn network_error_messages() {
    assert_eq!(NetworkError::InvalidPacket.describe(), "Could not parse packet");
    assert_eq!(NetworkError::PacketTooLarge.describe(), "Packet is too large");
    assert_eq!(NetworkError::BufferTooSmall.describe(), "Buffer is too small");
    assert_eq!(NetworkError::NoConnection.describe(), "No connection");
    let e = NetworkError::UnableToConnect(String::from("127.0.0.1:8000"));
    assert_eq!(e.describe(), "Unable to connect");
}

#[test]
fn network_error_wraps_io() {
    let io = std::io::Error::new(std::io::ErrorKind::NotFound, "gone");
    let e = NetworkError::from(io);
    assert!(matches!(e, NetworkError::Io(_)));
    assert_eq!(e.describe(), "A network error occured");
}
