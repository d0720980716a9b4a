//! SOCKS5 (RFC 1928) messages for CONNECT through one or more proxies.
//!
//! The application sends the requests built here and hands each reply back
//! to the checks here; these decide how many more bytes a reply holds.

use vstd::prelude::*;
use vstd::string::StringSliceAdditionalSpecFns;
use crate::bytes::push_all;
use crate::error::NetworkError;

verus! {

/// Big-endian bytes of a port.
pub open spec fn be16(port: u16) -> Seq<u8> {
    seq![(port / 256) as u8, (port % 256) as u8]
}

/// Version 5, one method, "no authentication".
pub open spec fn greeting_spec() -> Seq<u8> {
    seq![5u8, 1, 0]
}

/// CONNECT to a host name: the length byte is the name's length modulo 256.
pub open spec fn domain_request_spec(host: Seq<u8>, port: u16) -> Seq<u8> {
    seq![5u8, 1, 0, 3, (host.len() % 256) as u8] + host + be16(port)
}

/// CONNECT to an IPv4 (4 bytes) or IPv6 (16 bytes) address.
pub open spec fn ip_request_spec(ip: Seq<u8>, port: u16) -> Seq<u8> {
    seq![5u8, 1, 0, if ip.len() == 4 { 1u8 } else { 4u8 }] + ip + be16(port)
}

/// How much more of a CONNECT reply follows its 4-byte head.
#[derive(Debug, Clone, Copy, PartialEq, Eq)]
pub enum ReplyTail {
    /// This many bytes (address and port).
    Fixed(usize),
    /// One length byte, then that many bytes and a 2-byte port.
    Domain,
}

/// Which hop of a chain a reply comes from.
#[derive(Debug, Clone, Copy, PartialEq, Eq)]
pub enum Hop {
    /// A proxy in the middle of a chain: the reply must carry an IP address.
    Intermediate,
    /// The proxy that reaches the target.
    Final,
}

/// What a reply head means.
pub open spec fn reply_tail_spec(head: Seq<u8>, hop: Hop) -> Result<ReplyTail, NetworkError> {
    if head[1] != 0 {
        Err(NetworkError::Socks5Error(head[1]))
    } else if head[3] == 1 {
        Ok(ReplyTail::Fixed(6))
    } else if head[3] == 4 {
        Ok(ReplyTail::Fixed(18))
    } else if head[3] == 3 && matches!(hop, Hop::Final) {
        Ok(ReplyTail::Domain)
    } else {
        Err(NetworkError::UnknownAtyp(head[3]))
    }
}

/// The method-selection message.
pub fn greeting() -> (g: Vec<u8>)
    ensures
        g@ == greeting_spec(),
{
    let g = vec![5u8, 1, 0];
    assert(g@ =~= greeting_spec());
    g
}

/// Accepts the proxy's method choice only when it is "no authentication".
pub fn check_auth_reply(reply: &[u8]) -> (r: Result<(), NetworkError>)
    requires
        reply@.len() == 2,
    ensures
        r is Ok <==> (reply@[0] == 5 && reply@[1] == 0),
        r is Err ==> r == Err::<(), NetworkError>(NetworkError::Socks5AuthRejected),
{
    if reply[0] == 5 && reply[1] == 0 {
        Ok(())
    } else {
        Err(NetworkError::Socks5AuthRejected)
    }
}

fn push_port(v: &mut Vec<u8>, port: u16)
    ensures
        final(v)@ == old(v)@ + be16(port),
{
    let ghost before = v@;
    v.push((port / 256) as u8);
    v.push((port % 256) as u8);
    assert(v@ =~= before + be16(port));
}

/// The CONNECT request for a host name (as the target of an onion service).
pub fn connect_domain_request(host: &str, port: u16) -> (req: Vec<u8>)
    ensures
        req@ == domain_request_spec(host.spec_bytes(), port),
{
    let bytes = host.as_bytes();
    let len_byte = (bytes.len() % 256) as u8;
    let mut req: Vec<u8> = vec![5u8, 1, 0, 3, len_byte];
    push_all(&mut req, bytes);
    push_port(&mut req, port);
    assert(req@ =~= domain_request_spec(host.spec_bytes(), port));
    req
}

/// The CONNECT request for the next proxy of a chain, by IP address.
pub fn connect_ip_request(ip: &[u8], port: u16) -> (req: Vec<u8>)
    requires
        ip@.len() == 4 || ip@.len() == 16,
    ensures
        req@ == ip_request_spec(ip@, port),
{
    let atyp: u8 = if ip.len() == 4 { 1 } else { 4 };
    let mut req: Vec<u8> = vec![5u8, 1, 0, atyp];
    push_all(&mut req, ip);
    push_port(&mut req, port);
    assert(req@ =~= ip_request_spec(ip@, port));
    req
}

/// Checks a reply head and says what follows it.
pub fn reply_tail(head: &[u8], hop: Hop) -> (r: Result<ReplyTail, NetworkError>)
    requires
        head@.len() == 4,
    ensures
        r == reply_tail_spec(head@, hop),
{
    if head[1] != 0 {
        return Err(NetworkError::Socks5Error(head[1]));
    }
    if head[3] == 1 {
        Ok(ReplyTail::Fixed(6))
    } else if head[3] == 4 {
        Ok(ReplyTail::Fixed(18))
    } else if head[3] == 3 && matches!(hop, Hop::Final) {
        Ok(ReplyTail::Domain)
    } else {
        Err(NetworkError::UnknownAtyp(head[3]))
    }
}

/// Bytes that follow the length byte of a host name in a reply.
pub fn domain_tail_len(len_byte: u8) -> (n: usize)
    ensures
        n == len_byte + 2,
{
    len_byte as usize + 2
}

/// How a chain of proxies is used.
#[derive(Debug, Clone, Copy, PartialEq, Eq)]
pub enum ChainPlan {
    /// One proxy: connect through it directly.
    Direct,
    /// Connect to the first proxy, then ask each one for the next.
    Chained,
}

/// A chain needs at least one proxy.
pub fn plan_chain(num_proxies: usize) -> (r: Result<ChainPlan, NetworkError>)
    ensures
        num_proxies == 0 ==> r == Err::<ChainPlan, NetworkError>(NetworkError::EmptyProxyChain),
        num_proxies == 1 ==> r == Ok::<ChainPlan, NetworkError>(ChainPlan::Direct),
        num_proxies > 1 ==> r == Ok::<ChainPlan, NetworkError>(ChainPlan::Chained),
{
    if num_proxies == 0 {
        Err(NetworkError::EmptyProxyChain)
    } else if num_proxies == 1 {
        Ok(ChainPlan::Direct)
    } else {
        Ok(ChainPlan::Chained)
    }
}

} // verus!
