use isotope::error::NetworkError;
use isotope::network::address::{parse_onion_address, AddressError};
use isotope::network::http::{content_length, push_header_byte, HeaderStep, MAX_HEADER_SIZE};
use isotope::network::socks5::{
    check_auth_reply, connect_domain_request, connect_ip_request, domain_tail_len, greeting, plan_chain,
    reply_tail, ChainPlan, Hop, ReplyTail,
};

#[test]
fn onion_address_errors() {
    assert_eq!(parse_onion_address("abc.onion"), Err(AddressError::BadFormat));
    assert_eq!(parse_onion_address("a:b:c"), Err(AddressError::BadFormat));
    assert_eq!(parse_onion_address("abc.onion:"), Err(AddressError::InvalidPort));
    assert_eq!(parse_onion_address("abc.onion:65536"), Err(AddressError::InvalidPort));
    assert_eq!(parse_onion_address("abc.onion:-1"), Err(AddressError::InvalidPort));
    assert_eq!(parse_onion_address("abc.onion:+"), Err(AddressError::InvalidPort));
    assert_eq!(parse_onion_address("onion:80"), Err(AddressError::NotOnion));
    assert_eq!(parse_onion_address("example.com:7878"), Err(AddressError::NotOnion));
}

#[test]
fn onion_address_port_forms() {
    assert_eq!(parse_onion_address("x.onion:+80").unwrap(), ("x.onion".to_string(), 80));
    assert_eq!(parse_onion_address("x.onion:0065535").unwrap(), ("x.onion".to_string(), 65535));
    assert_eq!(parse_onion_address(".onion:1").unwrap(), (".onion".to_string(), 1));
}

#[test]
fn socks5_requests() {
    assert_eq!(greeting(), vec![5, 1, 0]);
    assert_eq!(connect_domain_request("ab.onion", 7878), {
        let mut v = vec![5, 1, 0, 3, 8];
        v.extend_from_slice(b"ab.onion");
        v.extend_from_slice(&7878u16.to_be_bytes());
        v
    });
    assert_eq!(connect_ip_request(&[127, 0, 0, 1], 9050), vec![5, 1, 0, 1, 127, 0, 0, 1, 0x23, 0x5a]);
    let v6 = [0u8; 16];
    let req = connect_ip_request(&v6, 1);
    assert_eq!(req[3], 4);
    assert_eq!(req.len(), 4 + 16 + 2);
    // A host name longer than 255 bytes keeps only the low byte of its length.
    let long = "a".repeat(300);
    assert_eq!(connect_domain_request(&long, 1)[4], (300 % 256) as u8);
}

#[test]
fn socks5_replies() {
    assert_eq!(check_auth_reply(&[5, 0]), Ok(()));
    assert_eq!(check_auth_reply(&[5, 2]), Err(NetworkError::Socks5AuthRejected));
    assert_eq!(check_auth_reply(&[4, 0]), Err(NetworkError::Socks5AuthRejected));
    assert_eq!(reply_tail(&[5, 0, 0, 1], Hop::Final), Ok(ReplyTail::Fixed(6)));
    assert_eq!(reply_tail(&[5, 0, 0, 4], Hop::Intermediate), Ok(ReplyTail::Fixed(18)));
    assert_eq!(reply_tail(&[5, 0, 0, 3], Hop::Final), Ok(ReplyTail::Domain));
    assert_eq!(reply_tail(&[5, 0, 0, 3], Hop::Intermediate), Err(NetworkError::UnknownAtyp(3)));
    assert_eq!(reply_tail(&[5, 0, 0, 9], Hop::Final), Err(NetworkError::UnknownAtyp(9)));
    assert_eq!(reply_tail(&[5, 4, 0, 1], Hop::Final), Err(NetworkError::Socks5Error(4)));
    assert_eq!(domain_tail_len(10), 12);
    assert_eq!(plan_chain(0), Err(NetworkError::EmptyProxyChain));
    assert_eq!(plan_chain(1), Ok(ChainPlan::Direct));
    assert_eq!(plan_chain(3), Ok(ChainPlan::Chained));
}

#[test]
fn http_header_reading() {
    let mut buf = Vec::new();
    let header = b"POST / HTTP/1.1\r\nContent-Length: 5\r\n\r\n";
    let mut last = HeaderStep::Continue;
    for (i, b) in header.iter().enumerate() {
        last = push_header_byte(&mut buf, *b);
        if i + 1 < header.len() {
            assert_eq!(last, HeaderStep::Continue);
        }
    }
    assert_eq!(last, HeaderStep::Complete);
    assert_eq!(content_length(&buf), Ok(5));

    let mut big = vec![b'a'; MAX_HEADER_SIZE];
    assert_eq!(push_header_byte(&mut big, b'a'), HeaderStep::TooLarge);
}

#[test]
fn http_content_length_forms() {
    assert_eq!(content_length(b"GET / HTTP/1.1\r\ncontent-length:12\r\n\r\n"), Ok(12));
    assert_eq!(content_length(b"GET / HTTP/1.1\r\nCONTENT-LENGTH:   7  \r\n\r\n"), Ok(7));
    assert_eq!(content_length(b"HTTP/1.1 200 OK\r\nContent-Length: 3:9\r\n\r\n"), Ok(3));
    assert_eq!(content_length(b"A: b\r\nContent-Length: 1\r\nContent-Length: 2\r\n\r\n"), Ok(1));
    assert_eq!(content_length(b"A: b\r\n\r\n"), Err(NetworkError::InvalidContentLength));
    assert_eq!(content_length(b"Content-Length: x\r\nContent-Length: 2\r\n\r\n"), Err(NetworkError::InvalidContentLength));
    assert_eq!(content_length(b"Content-Length: -1\r\n\r\n"), Err(NetworkError::InvalidContentLength));
    assert_eq!(content_length(b"Content-Length: 4"), Ok(4));
}
