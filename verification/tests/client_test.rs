use isotope::protocol::WireMessage;
use isotope::client::connect::{connect_step, ConnectAction, ConnectEvent, ConnectStage};
use isotope::crypto::identity::key_fingerprint;
use isotope::crypto::kem::{pq_offer, KYBER_CIPHERTEXT_BYTES};
use isotope::client::transfers::{ChunkAction, Transfers};
use isotope::crypto::anomaly::{averaged_duration, extended_session, unusual_active_hour};
use isotope::client::commands::{parse_command, ClientCommand};
use isotope::client::session::{
    dead_man_triggered, decide_offer, expand_home, may_offer, retry_delay_secs, upload_chunk_count, OfferDecision,
};
use isotope::config::Config;

#[test]
fn file_and_vault_commands() {
    assert!(matches!(parse_command("  /send  notes.txt "), ClientCommand::Send(p) if p == "notes.txt"));
    assert!(matches!(parse_command("/send"), ClientCommand::Send(p) if p.is_empty()));
    assert!(matches!(parse_command("/get 42"), ClientCommand::Get(42)));
    assert!(matches!(parse_command("/get /get 7"), ClientCommand::Get(7)));
    assert!(matches!(parse_command("/get x"), ClientCommand::Ignore));
    assert!(matches!(parse_command("/get 4294967296"), ClientCommand::Ignore));
    assert!(matches!(parse_command("/vault_put  a.txt"), ClientCommand::VaultPut(p) if p == "a.txt"));
    assert!(matches!(parse_command("/vault_get b"), ClientCommand::VaultGet(p) if p == "b"));
    assert!(matches!(parse_command("/vault_list"), ClientCommand::VaultList));
}

#[test]
fn session_commands() {
    assert!(matches!(parse_command("/quit"), ClientCommand::Quit));
    assert!(matches!(parse_command(" /nuke "), ClientCommand::Nuke));
    assert!(matches!(parse_command("/voice_sim"), ClientCommand::VoiceSim));
    assert!(matches!(parse_command("/quitter"), ClientCommand::Chat(c) if c == "/quitter"));
    assert!(matches!(parse_command("  hello world "), ClientCommand::Chat(c) if c == "hello world"));
}

#[test]
fn messaging_commands() {
    assert!(matches!(parse_command("/msg bob hello there"),
        ClientCommand::DirectMessage { target, content } if target == "bob" && content == "hello there"));
    assert!(matches!(parse_command("/msg bob"), ClientCommand::MsgUsage));
    assert!(matches!(parse_command("/ttl bob 10 secret note"),
        ClientCommand::Ttl { target, seconds: 10, content } if target == "bob" && content == "secret note"));
    assert!(matches!(parse_command("/ttl bob soon secret"),
        ClientCommand::Ttl { seconds: 30, .. }));
    assert!(matches!(parse_command("/ttl bob 10"), ClientCommand::TtlUsage));
    assert!(matches!(parse_command("/ttl bob"), ClientCommand::TtlUsage));
}

#[test]
fn admin_commands() {
    assert!(matches!(parse_command("/kick  bob "), ClientCommand::Kick(t) if t == "bob"));
    assert!(matches!(parse_command("/ban eve"), ClientCommand::Ban(t) if t == "eve"));
    assert!(matches!(parse_command("/kick /kick "), ClientCommand::Kick(t) if t == "/kick"));
    assert!(matches!(parse_command("/kick"), ClientCommand::Chat(c) if c == "/kick"));
}

#[test]
fn reconnect_backoff_is_capped() {
    assert_eq!(retry_delay_secs(0), 0);
    assert_eq!(retry_delay_secs(1), 2);
    assert_eq!(retry_delay_secs(4), 8);
    assert_eq!(retry_delay_secs(5), 10);
    assert_eq!(retry_delay_secs(u64::MAX), 10);
}

#[test]
fn dead_man_switch_fires_after_five_minutes() {
    assert!(!dead_man_triggered(300_000));
    assert!(dead_man_triggered(300_001));
}

#[test]
fn offers_are_limited_to_ten_mebibytes() {
    let me = "me".to_string();
    let other = "you".to_string();
    assert_eq!(decide_offer(10 * 1024 * 1024 + 1, &other, &me), OfferDecision::TooLarge);
    assert_eq!(decide_offer(10 * 1024 * 1024, &other, &me), OfferDecision::Remember);
    assert_eq!(decide_offer(5, &me, &me), OfferDecision::OwnOffer);
    assert!(may_offer(10 * 1024 * 1024));
    assert!(!may_offer(10 * 1024 * 1024 + 1));
}

#[test]
fn uploads_are_cut_into_kibibyte_chunks() {
    assert_eq!(upload_chunk_count(0), 0);
    assert_eq!(upload_chunk_count(1), 1);
    assert_eq!(upload_chunk_count(1024), 1);
    assert_eq!(upload_chunk_count(1025), 2);
    assert_eq!(upload_chunk_count(10 * 1024 * 1024), 10 * 1024);
}

#[test]
fn home_is_expanded() {
    assert_eq!(expand_home(" ~/docs/a.txt ", Some("/home/u")), "/home/u/docs/a.txt");
    assert_eq!(expand_home("~docs", Some("/home/u")), "/home/u/docs");
    assert_eq!(expand_home("~/x", None), "~/x");
    assert_eq!(expand_home("/abs/path", Some("/home/u")), "/abs/path");
}

#[test]
fn default_config() {
    let c = Config::default();
    assert_eq!(c.network.socks_proxy, "127.0.0.1:9050");
    assert_eq!(c.network.handshake_timeout_sec, 30);
    assert_eq!(c.network.read_timeout_sec, 300);
    assert_eq!(c.crypto.wire_packet_size, 4096);
    assert_eq!(c.crypto.plaintext_size, 4064);
    assert_eq!(c.crypto.default_id_file, "isotope.id");
    assert_eq!(c.ui.max_messages, 10_000);
}

#[test]
fn downloads_follow_accepted_offers() {
    let mut t = Transfers::new();
    assert!(matches!(t.on_chunk(7, 0, 2), ChunkAction::Ignore));
    assert_eq!(t.accept(7), None);
    t.remember_offer(7, "notes.txt".to_string(), "bob".to_string());
    assert_eq!(t.accept(7), Some("bob".to_string()));
    assert!(matches!(t.on_chunk(7, 0, 2), ChunkAction::Append { name, complete: false } if name == "notes.txt"));
    assert!(matches!(t.on_chunk(7, 1, 2), ChunkAction::Append { name, complete: true } if name == "notes.txt"));
    assert!(matches!(t.on_chunk(7, 1, 2), ChunkAction::Ignore));
    t.download_whitelist.insert(9);
    assert!(matches!(t.on_chunk(9, 0, 1), ChunkAction::Append { name, complete: true } if name == "file_9.bin"));
    t.download_whitelist.insert(1234567);
    assert!(matches!(t.on_chunk(1234567, 0, 3), ChunkAction::Append { name, complete: false } if name == "file_1234567.bin"));
}

#[test]
fn uploads_are_found_by_id() {
    let mut t = Transfers::new();
    t.offer_upload(4321, "/tmp/a.bin".to_string());
    assert_eq!(t.upload_for(4321), Some("/tmp/a.bin".to_string()));
    assert_eq!(t.upload_for(1), None);
}

#[test]
fn behaviour_checks() {
    let mut hours = [5u32; 24];
    hours[5] = 0;
    assert!(unusual_active_hour(&hours, 5, 10));
    assert!(!unusual_active_hour(&hours, 5, 9));
    assert!(!unusual_active_hour(&hours, 6, 10));
    assert!(!unusual_active_hour(&hours, 24, 10));
    let few = [2u32; 24];
    let mut few0 = few;
    few0[0] = 0;
    assert!(!unusual_active_hour(&few0, 0, 10));
    assert!(extended_session(301, 100, 5));
    assert!(!extended_session(300, 100, 5));
    assert!(!extended_session(1000, 100, 4));
    assert_eq!(averaged_duration(0, 0, 42), 42);
    assert_eq!(averaged_duration(100, 3, 200), 125);
}

#[test]
fn chunks_claiming_no_total_do_not_complete() {
    let mut t = Transfers::new();
    t.remember_offer(3, "z.bin".to_string(), "eve".to_string());
    assert_eq!(t.accept(3), Some("eve".to_string()));
    assert!(matches!(t.on_chunk(3, 0, 0), ChunkAction::Append { name, complete: false } if name == "z.bin"));
    assert!(matches!(t.on_chunk(3, u32::MAX, 0), ChunkAction::Append { complete: false, .. }));
}

#[test]
fn chunk_counts_saturate() {
    assert_eq!(upload_chunk_count(usize::MAX), u32::MAX);
    assert_eq!(upload_chunk_count(1024 * 4096 + 1), 4097);
}

fn hub_key() -> Vec<u8> {
    vec![9u8; 32]
}

#[test]
fn connection_comes_up_in_order() {
    let fp = key_fingerprint(&hub_key());
    let (stage, action) = connect_step(ConnectStage::Connecting, &fp, ConnectEvent::Connected);
    assert!(matches!(stage, ConnectStage::Handshaking) && matches!(action, ConnectAction::RunHandshake));
    let (stage, action) = connect_step(stage, &fp, ConnectEvent::NoiseComplete { remote_static: Some(hub_key()) });
    assert!(matches!(stage, ConnectStage::Secured) && matches!(action, ConnectAction::AwaitPqInit));
    let (public_key, _secret) = pq_offer();
    let (stage, action) = connect_step(stage, &fp, ConnectEvent::Received(WireMessage::PQInit { public_key }));
    assert!(matches!(stage, ConnectStage::Upgrading));
    match action {
        ConnectAction::SendPqFinish { ciphertext, shared_secret } => {
            assert_eq!(ciphertext.len(), KYBER_CIPHERTEXT_BYTES);
            assert_eq!(shared_secret.len(), 32);
        }
        _ => panic!("expected PQFinish"),
    }
    let (stage, action) = connect_step(stage, &fp, ConnectEvent::Upgraded);
    assert!(matches!(stage, ConnectStage::Online) && matches!(action, ConnectAction::SendJoin));
    let (stage, action) = connect_step(stage, &fp, ConnectEvent::Failed);
    assert!(matches!(stage, ConnectStage::Dropped) && matches!(action, ConnectAction::Drop));
}

#[test]
fn connection_is_dropped_on_a_wrong_hub_or_message() {
    let fp = key_fingerprint(&hub_key());
    let (stage, action) = connect_step(ConnectStage::Handshaking, &fp, ConnectEvent::NoiseComplete { remote_static: Some(vec![1u8; 32]) });
    assert!(matches!(stage, ConnectStage::Dropped) && matches!(action, ConnectAction::Drop));
    let (stage, action) = connect_step(ConnectStage::Handshaking, &fp, ConnectEvent::NoiseComplete { remote_static: None });
    assert!(matches!(stage, ConnectStage::Dropped) && matches!(action, ConnectAction::Drop));
    let (stage, action) = connect_step(ConnectStage::Secured, &fp, ConnectEvent::Received(WireMessage::PQInit { public_key: vec![0u8; 10] }));
    assert!(matches!(stage, ConnectStage::Dropped) && matches!(action, ConnectAction::Drop));
    let (stage, action) = connect_step(ConnectStage::Secured, &fp, ConnectEvent::Received(WireMessage::Heartbeat));
    assert!(matches!(stage, ConnectStage::Dropped) && matches!(action, ConnectAction::Drop));
    // No Join before the upgrade.
    let (stage, action) = connect_step(ConnectStage::Secured, &fp, ConnectEvent::Upgraded);
    assert!(matches!(stage, ConnectStage::Dropped) && matches!(action, ConnectAction::Drop));
    let (stage, action) = connect_step(ConnectStage::Dropped, &fp, ConnectEvent::Connected);
    assert!(matches!(stage, ConnectStage::Dropped) && matches!(action, ConnectAction::Wait));
}
