use isotope::error::{NetworkError, ProtocolError};
use isotope::network::http::{content_length, push_header_byte, wrap_request, wrap_response, HeaderStep};
use isotope::protocol::{IsotopePacket, PROTOCOL_VERSION_MAJOR, PROTOCOL_VERSION_MINOR};
use isotope::PLAINTEXT_SIZE;

#[test]
fn packets_are_padded_to_the_plaintext_size_and_read_back() {
    let packet = IsotopePacket::new(b"Hello World").unwrap();
    let bytes = packet.to_bytes().unwrap();
    assert_eq!(bytes.len(), PLAINTEXT_SIZE);
    assert_eq!(&bytes[..6], &[PROTOCOL_VERSION_MAJOR, PROTOCOL_VERSION_MINOR, 0, 0, 0, 11]);
    let back = IsotopePacket::from_bytes(&bytes).unwrap();
    assert_eq!(back.payload, b"Hello World".to_vec());
    assert_eq!(back.version_major, 4);
    assert_eq!(back.version_minor, 0);
}

#[test]
fn oversized_payloads_are_rejected() {
    let huge = vec![0u8; PLAINTEXT_SIZE + 1000];
    assert_eq!(IsotopePacket::new(&huge).err(), Some(ProtocolError::PayloadTooLarge(PLAINTEXT_SIZE + 1000, PLAINTEXT_SIZE)));
    let full = IsotopePacket::new(&vec![1u8; PLAINTEXT_SIZE]).unwrap();
    assert_eq!(full.to_bytes(), Err(ProtocolError::PacketOverflow(PLAINTEXT_SIZE + 6, PLAINTEXT_SIZE)));
    let fits = IsotopePacket::new(&vec![1u8; PLAINTEXT_SIZE - 6]).unwrap();
    assert_eq!(fits.to_bytes().unwrap().len(), PLAINTEXT_SIZE);
}

#[test]
fn malformed_packets_are_refused() {
    assert_eq!(IsotopePacket::from_bytes(&[4, 0, 0]).err(), Some(ProtocolError::TruncatedPacket));
    assert_eq!(IsotopePacket::from_bytes(&[3, 1, 0, 0, 0, 0]).err(), Some(ProtocolError::UnsupportedVersion(3, 1)));
    assert_eq!(IsotopePacket::from_bytes(&[4, 0, 0, 0, 0, 9, 1, 2]).err(), Some(ProtocolError::TruncatedPacket));
    let empty = IsotopePacket::from_bytes(&[4, 7, 0, 0, 0, 0]).unwrap();
    assert!(empty.payload.is_empty());
    assert_eq!(empty.version_minor, 7);
}

fn split_http(message: &[u8]) -> (Vec<u8>, Vec<u8>) {
    let mut header = Vec::new();
    let mut i = 0;
    loop {
        let step = push_header_byte(&mut header, message[i]);
        i += 1;
        match step {
            HeaderStep::Continue => {}
            HeaderStep::Complete => break,
            HeaderStep::TooLarge => panic!("header too large"),
        }
    }
    (header, message[i..].to_vec())
}

#[test]
fn wrapped_packets_are_read_back() {
    let body = vec![7u8; 4096];
    let request = wrap_request(&body);
    assert!(request.starts_with(b"POST / HTTP/1.1\r\nContent-Length: 4096\r\n\r\n"));
    let (header, rest) = split_http(&request);
    assert_eq!(content_length(&header), Ok(4096));
    assert_eq!(rest, body);

    let response = wrap_response(b"xyz");
    assert_eq!(response, b"HTTP/1.1 200 OK\r\nContent-Length: 3\r\n\r\nxyz".to_vec());
    let (header, rest) = split_http(&response);
    assert_eq!(content_length(&header), Ok(3));
    assert_eq!(rest, b"xyz".to_vec());

    let (header, _) = split_http(&wrap_request(&[]));
    assert_eq!(content_length(&header), Ok(0));
}

#[test]
fn headers_without_a_length_are_refused() {
    assert_eq!(content_length(b"GET / HTTP/1.1\r\nHost: x\r\n\r\n"), Err(NetworkError::InvalidContentLength));
    assert_eq!(content_length(b"GET / HTTP/1.1\r\ncontent-LENGTH:  12 \r\n\r\n"), Ok(12));
    assert_eq!(content_length(b"X\r\nContent-Length: abc\r\n\r\n"), Err(NetworkError::InvalidContentLength));
}
