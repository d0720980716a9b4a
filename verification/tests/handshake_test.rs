use isotope::crypto::handshake::{check_peer, client_finish, client_hello, peer_fingerprint, server_finish, server_reply,
    start_initiator, start_responder};
use isotope::crypto::identity::{key_fingerprint, Identity};
use isotope::crypto::kem::{pq_offer, pq_accept, pq_respond};
use isotope::crypto::noise::NoiseSession;
use isotope::error::CryptoError;
use isotope::protocol::IsotopePacket;

fn sessions() -> (NoiseSession, NoiseSession, Identity, Identity) {
    let client_id = Identity::generate("ops").unwrap();
    let hub_id = Identity::generate("ops").unwrap();
    let mut client = start_initiator(&client_id.keypair.private).unwrap();
    let mut hub = start_responder(&hub_id.keypair.private).unwrap();
    let hello = client_hello(&mut client).unwrap();
    let reply = server_reply(&mut hub, &hello).unwrap();
    let last = client_finish(&mut client, &reply).unwrap();
    server_finish(&mut hub, &last).unwrap();
    (NoiseSession::new(client).unwrap(), NoiseSession::new(hub).unwrap(), client_id, hub_id)
}

fn plaintext(data: &[u8]) -> Vec<u8> {
    IsotopePacket::new(data).unwrap().to_bytes().unwrap()
}

#[test]
fn handshake_names_each_peer_by_its_key() {
    let (client, hub, client_id, hub_id) = sessions();
    assert_eq!(peer_fingerprint(hub.remote_static()).unwrap(), client_id.fingerprint());
    assert_eq!(check_peer(client.remote_static(), &hub_id.fingerprint()).unwrap(), hub_id.fingerprint());
    assert_eq!(check_peer(client.remote_static(), &client_id.fingerprint()), Err(CryptoError::FingerprintMismatch));
    assert_eq!(peer_fingerprint(None), Err(CryptoError::MissingRemoteKey));
    assert_eq!(key_fingerprint(&hub_id.keypair.public), hub_id.fingerprint());
}

#[test]
fn out_of_order_handshake_messages_fail() {
    let id = Identity::generate("ops").unwrap();
    let mut hub = start_responder(&id.keypair.private).unwrap();
    assert!(matches!(server_reply(&mut hub, &[1, 2, 3]), Err(CryptoError::NoiseHandshakeFailed(_))));
    assert!(matches!(server_reply(&mut hub, &vec![0u8; 70000]), Err(CryptoError::NoiseHandshakeFailed(_))));
}

#[test]
fn packets_cross_both_layers_in_both_directions() {
    let (mut client, mut hub, _, _) = sessions();
    let wire = client.encrypt(&plaintext(b"before upgrade")).unwrap();
    assert_eq!(wire.len(), 4096);
    let got = IsotopePacket::from_bytes(&hub.decrypt(&wire).unwrap()).unwrap();
    assert_eq!(got.payload, b"before upgrade".to_vec());

    let (pk, sk) = pq_offer();
    let (ss_client, ct) = pq_respond(&pk).unwrap();
    let ss_hub = pq_accept(&ct, &sk).unwrap();
    assert_eq!(ss_client, ss_hub);
    client.upgrade_to_pq(&ss_client, true);
    hub.upgrade_to_pq(&ss_hub, false);
    assert_eq!(client.pq_tx_key, hub.pq_rx_key);
    assert_eq!(client.pq_rx_key, hub.pq_tx_key);

    for i in 0..3u8 {
        let wire = client.encrypt(&plaintext(&[i; 10])).unwrap();
        assert_eq!(wire.len(), 4096);
        let got = IsotopePacket::from_bytes(&hub.decrypt(&wire).unwrap()).unwrap();
        assert_eq!(got.payload, vec![i; 10]);
        let back = hub.encrypt(&plaintext(b"ack")).unwrap();
        let got = IsotopePacket::from_bytes(&client.decrypt(&back).unwrap()).unwrap();
        assert_eq!(got.payload, b"ack".to_vec());
    }
    assert_eq!(client.pq_send_nonce, 3);
    assert_eq!(hub.pq_recv_nonce, 3);
}

#[test]
fn kyber_exchange_checks_lengths() {
    let (_, sk) = pq_offer();
    assert_eq!(pq_respond(&[1, 2, 3]).err(), Some(CryptoError::PqExchangeFailed));
    assert_eq!(pq_accept(&[1, 2, 3], &sk).err(), Some(CryptoError::PqExchangeFailed));
}

#[test]
fn wiping_a_session_clears_its_secrets() {
    let (mut client, _, _, _) = sessions();
    client.upgrade_to_pq(&[9u8; 32], true);
    client.wipe();
    assert!(client.buf.is_empty());
    assert!(client.pq_tx_key.is_none());
    assert!(client.pq_rx_key.is_none());
    assert_eq!(client.pq_send_nonce, 0);
}
