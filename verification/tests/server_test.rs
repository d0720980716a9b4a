use isotope::server::state::count_connection;
use isotope::protocol::{Timestamp, WireMessage};
use isotope::server::admin::{decide_admin, AdminOutcome};
use isotope::server::router::{
    admit_join, deliverable, kicks, peer_list, relay_incoming, sanitize_username, should_send, JoinError, Relay,
};
use isotope::server::state::{ConnectionTable, DiskState, StoredMessage, UserSession};

fn ts() -> Timestamp {
    Timestamp { secs: 1_700_000_000, nanos: 5 }
}

fn session(name: &str, group: &str) -> UserSession {
    UserSession { username: name.to_string(), group: group.to_string() }
}

#[test]
fn sanitize_keeps_allowed_characters_only() {
    assert_eq!(sanitize_username("al ice!_9"), "alice_9");
    assert_eq!(sanitize_username("ünïcode"), "ncode");
    assert_eq!(sanitize_username(""), "");
    let long = "a".repeat(40);
    assert_eq!(sanitize_username(&long), "a".repeat(32));
}

#[test]
fn join_is_refused_for_empty_or_banned_names() {
    let banned = vec!["mallory".to_string()];
    assert_eq!(admit_join("!!!", &banned), Err(JoinError::InvalidUsername));
    assert_eq!(admit_join("mal lory", &banned), Err(JoinError::Banned));
    assert_eq!(admit_join(" bob ", &banned), Ok("bob".to_string()));
}

#[test]
fn expired_offline_messages_are_dropped() {
    let mk = |content: &str, expires_at: Option<u64>| StoredMessage {
        msg: WireMessage::System { content: content.to_string() },
        expires_at,
    };
    let stored = vec![mk("a", None), mk("b", Some(100)), mk("c", Some(101)), mk("d", Some(50))];
    let (kept, dropped) = deliverable(stored, 100);
    assert_eq!(dropped, 2);
    assert_eq!(kept.len(), 2);
    assert!(matches!(&kept[0], WireMessage::System { content } if content == "a"));
    assert!(matches!(&kept[1], WireMessage::System { content } if content == "c"));
}

#[test]
fn chat_is_stamped_with_the_connection_name() {
    let me = "alice".to_string();
    let msg = WireMessage::Chat { sender: "spoofed".to_string(), content: "hi".to_string(), timestamp: Timestamp { secs: 0, nanos: 0 } };
    match relay_incoming(msg, &me, ts(), 0, &[]) {
        Relay::Broadcast(WireMessage::Chat { sender, content, timestamp }) => {
            assert_eq!(sender, "alice");
            assert_eq!(content, "hi");
            assert_eq!(timestamp, ts());
        }
        _ => panic!("chat not broadcast"),
    }
}

#[test]
fn heartbeats_versions_and_others_are_dropped() {
    let me = "alice".to_string();
    assert!(matches!(relay_incoming(WireMessage::Heartbeat, &me, ts(), 0, &[]), Relay::Drop));
    assert!(matches!(relay_incoming(WireMessage::Version { major: 1, minor: 0 }, &me, ts(), 0, &[]), Relay::Drop));
    assert!(matches!(relay_incoming(WireMessage::System { content: "x".to_string() }, &me, ts(), 0, &[]), Relay::Drop));
}

#[test]
fn oversized_chunks_are_dropped() {
    let me = "alice".to_string();
    let big = WireMessage::FileChunk { file_id: 1, chunk_index: 0, total_chunks: 1, data: vec![0u8; 65537] };
    assert!(matches!(relay_incoming(big, &me, ts(), 0, &[]), Relay::Drop));
    let ok = WireMessage::FileChunk { file_id: 1, chunk_index: 0, total_chunks: 1, data: vec![0u8; 65536] };
    assert!(matches!(relay_incoming(ok, &me, ts(), 0, &[]), Relay::Broadcast(WireMessage::FileChunk { data, .. }) if data.len() == 65536));
}

#[test]
fn file_offers_and_requests_are_relayed() {
    let me = "alice".to_string();
    let offer = WireMessage::FileOffer { sender: "x".to_string(), file_name: "f.txt".to_string(), file_size: 10, id: 7 };
    assert!(matches!(relay_incoming(offer, &me, ts(), 0, &[]),
        Relay::Broadcast(WireMessage::FileOffer { sender, file_name, file_size: 10, id: 7 }) if sender == "alice" && file_name == "f.txt"));
    let req = WireMessage::FileRequest { file_id: 7, receiver: "bob".to_string() };
    assert!(matches!(relay_incoming(req, &me, ts(), 0, &[]),
        Relay::Broadcast(WireMessage::FileRequest { file_id: 7, receiver }) if receiver == "bob"));
    let voice = WireMessage::VoicePacket { data: vec![1, 2] };
    assert!(matches!(relay_incoming(voice, &me, ts(), 0, &[]), Relay::Broadcast(WireMessage::VoicePacket { data }) if data == vec![1, 2]));
    let admin = WireMessage::AdminCommand { command: "kick".to_string(), target: "bob".to_string() };
    assert!(matches!(relay_incoming(admin, &me, ts(), 0, &[]), Relay::Admin { command, target } if command == "kick" && target == "bob"));
}

#[test]
fn direct_messages_to_offline_users_are_stored_with_expiry() {
    let me = "alice".to_string();
    let online = vec!["carol".to_string()];
    let dm = |ttl| WireMessage::DirectMessage {
        sender: "x".to_string(), target: "bob".to_string(), content: "psst".to_string(), timestamp: ts(), ttl,
    };
    match relay_incoming(dm(Some(30)), &me, ts(), 1_000, &online) {
        Relay::Store { target, stored } => {
            assert_eq!(target, "bob");
            assert_eq!(stored.expires_at, Some(31_000));
            assert!(matches!(stored.msg, WireMessage::DirectMessage { sender, .. } if sender == "alice"));
        }
        _ => panic!("not stored"),
    }
    assert!(matches!(relay_incoming(dm(None), &me, ts(), 1_000, &online), Relay::Store { stored: StoredMessage { expires_at: None, .. }, .. }));
    assert!(matches!(relay_incoming(dm(Some(u64::MAX)), &me, ts(), 1_000, &online),
        Relay::Store { stored: StoredMessage { expires_at: Some(u64::MAX), .. }, .. }));
    let online = vec!["bob".to_string()];
    assert!(matches!(relay_incoming(dm(Some(30)), &me, ts(), 1_000, &online),
        Relay::Broadcast(WireMessage::DirectMessage { sender, ttl: Some(30), .. }) if sender == "alice"));
}

#[test]
fn delivery_follows_groups_and_targets() {
    let users = vec![
        ("fp-a".to_string(), session("alice", "red")),
        ("fp-b".to_string(), session("bob", "blue")),
        ("fp-c".to_string(), session("carol", "red")),
    ];
    let red = "red".to_string();
    let carol = "carol".to_string();
    let chat = |s: &str| WireMessage::Chat { sender: s.to_string(), content: "hi".to_string(), timestamp: ts() };
    assert!(should_send(&chat("alice"), &red, &carol, &users));
    assert!(!should_send(&chat("bob"), &red, &carol, &users));
    assert!(!should_send(&chat("nobody"), &red, &carol, &users));
    let join = |g: &str| WireMessage::Join { username: "d".to_string(), did: "did".to_string(), group: g.to_string() };
    assert!(should_send(&join("red"), &red, &carol, &users));
    assert!(!should_send(&join("blue"), &red, &carol, &users));
    let offer = |s: &str| WireMessage::FileOffer { sender: s.to_string(), file_name: "f".to_string(), file_size: 1, id: 1 };
    assert!(should_send(&offer("alice"), &red, &carol, &users));
    assert!(!should_send(&offer("carol"), &red, &carol, &users));
    let dm = |t: &str| WireMessage::DirectMessage { sender: "a".to_string(), target: t.to_string(), content: "c".to_string(), timestamp: ts(), ttl: None };
    assert!(should_send(&dm("carol"), &red, &carol, &users));
    assert!(!should_send(&dm("bob"), &red, &carol, &users));
    let req = |r: &str| WireMessage::FileRequest { file_id: 1, receiver: r.to_string() };
    assert!(should_send(&req("carol"), &red, &carol, &users));
    assert!(!should_send(&req("alice"), &red, &carol, &users));
    assert!(!should_send(&WireMessage::Heartbeat, &red, &carol, &users));
    assert!(should_send(&WireMessage::System { content: "s".to_string() }, &red, &carol, &users));
}

#[test]
fn peer_list_is_the_group_without_self() {
    let users = vec![
        ("fp-a".to_string(), session("alice", "red")),
        ("fp-b".to_string(), session("bob", "blue")),
        ("fp-c".to_string(), session("carol", "red")),
    ];
    assert_eq!(peer_list(&users, &"red".to_string(), &"fp-c".to_string()), vec!["alice".to_string()]);
    assert_eq!(peer_list(&users, &"red".to_string(), &"fp-x".to_string()), vec!["alice".to_string(), "carol".to_string()]);
    assert!(peer_list(&users, &"green".to_string(), &"fp-x".to_string()).is_empty());
}

#[test]
fn kick_command_closes_only_the_target() {
    let me = "bob".to_string();
    let cmd = |c: &str, t: &str| WireMessage::AdminCommand { command: c.to_string(), target: t.to_string() };
    assert!(kicks(&cmd("kick", "bob"), &me));
    assert!(!kicks(&cmd("kick", "alice"), &me));
    assert!(!kicks(&cmd("ban", "bob"), &me));
    assert!(!kicks(&WireMessage::Heartbeat, &me));
}

#[test]
fn admin_commands_are_checked_and_rate_limited() {
    let bob = "bob".to_string();
    assert!(matches!(decide_admin(false, None, &"kick".to_string(), &bob), AdminOutcome::NotAdmin));
    assert!(matches!(decide_admin(true, Some(1999), &"kick".to_string(), &bob), AdminOutcome::RateLimited));
    assert!(matches!(decide_admin(true, Some(2000), &"kick".to_string(), &bob),
        AdminOutcome::Kick { announcement, target } if announcement == "bob was kicked by admin." && target == "bob"));
    assert!(matches!(decide_admin(true, None, &"ban".to_string(), &bob),
        AdminOutcome::Ban { announcement, target } if announcement == "bob was BANNED by admin." && target == "bob"));
    assert!(matches!(decide_admin(true, None, &"mute".to_string(), &bob), AdminOutcome::Unknown));
}

#[test]
fn disk_state_starts_empty() {
    let d = DiskState::default();
    assert!(d.blacklist.is_empty());
    assert!(d.admins.is_empty());
}

#[test]
fn connections_are_throttled_per_window() {
    let first = count_connection(None);
    assert_eq!((first.count, first.new_window, first.allowed), (1, true, true));
    let c = count_connection(Some((19, 1_000)));
    assert_eq!((c.count, c.new_window, c.allowed), (20, false, true));
    let c = count_connection(Some((20, 60_000_000_000)));
    assert_eq!((c.count, c.new_window, c.allowed), (21, false, false));
    let c = count_connection(Some((500, 60_000_000_001)));
    assert_eq!((c.count, c.new_window, c.allowed), (1, true, true));
    let c = count_connection(Some((u32::MAX, 5)));
    assert_eq!((c.count, c.allowed), (u32::MAX, false));
}

#[test]
fn twenty_connections_a_minute_per_address() {
    let mut table = ConnectionTable::new();
    let addr: u128 = 0xffff_7f00_0001;
    let other: u128 = 0xffff_0a00_0001;
    for k in 1..=25u64 {
        let served = table.register(addr, 1_000_000_000 + k * 100_000_000);
        assert_eq!(served, k <= 20, "connection {}", k);
    }
    assert_eq!(table.windows.get(&addr), Some(&(25, 1_100_000_000)));
    // Another address has its own window.
    assert!(table.register(other, 2_000_000_000));
    assert_eq!(table.windows.get(&other), Some(&(1, 2_000_000_000)));
    // Exactly a minute after the window opened it still counts; after that a new window opens.
    assert!(!table.register(addr, 1_100_000_000 + 60_000_000_000));
    // A nanosecond past the minute is past the window.
    assert!(table.register(addr, 1_100_000_000 + 60_000_000_001));
    assert_eq!(table.windows.get(&addr), Some(&(1, 61_100_000_001)));
}
