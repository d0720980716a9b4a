//! The hub's routing rules: who may join, what is relayed, to whom, and
//! which offline messages are still delivered.

use vstd::prelude::*;
use crate::protocol::{WireMessage, Timestamp};
use crate::server::state::{UserSession, StoredMessage};
use crate::text::chars_of;
use crate::text::string_of;

verus! {

/// Largest file chunk the hub relays.
pub const MAX_RELAYED_CHUNK: usize = 65536;
/// Longest username kept.
pub const MAX_USERNAME_CHARS: usize = 32;

/// Characters allowed in a username.
pub open spec fn username_char(c: char) -> bool {
    ('0' <= c && c <= '9') || ('a' <= c && c <= 'z') || ('A' <= c && c <= 'Z') || c == '_'
}

/// The allowed characters of a string, in order.
pub open spec fn username_chars(s: Seq<char>) -> Seq<char>
    decreases s.len(),
{
    if s.len() == 0 {
        Seq::empty()
    } else if username_char(s.last()) {
        username_chars(s.drop_last()).push(s.last())
    } else {
        username_chars(s.drop_last())
    }
}

/// A username as the hub keeps it: its allowed characters, at most 32 of them.
pub open spec fn sanitized_username(s: Seq<char>) -> Seq<char> {
    let k = username_chars(s);
    if k.len() <= MAX_USERNAME_CHARS { k } else { k.take(MAX_USERNAME_CHARS as int) }
}

proof fn lemma_username_chars_prefix(s: Seq<char>, i: int, j: int)
    requires
        0 <= i <= j <= s.len(),
    ensures
        username_chars(s.take(j)).len() >= username_chars(s.take(i)).len(),
        username_chars(s.take(j)).take(username_chars(s.take(i)).len() as int) == username_chars(s.take(i)),
    decreases j - i,
{
    if i < j {
        lemma_username_chars_prefix(s, i, j - 1);
        assert(s.take(j).drop_last() =~= s.take(j - 1));
        let a = username_chars(s.take(i));
        let b = username_chars(s.take(j - 1));
        let c = username_chars(s.take(j));
        assert(c.take(a.len() as int) =~= b.take(a.len() as int));
    } else {
        assert(username_chars(s.take(j)).take(username_chars(s.take(i)).len() as int) =~= username_chars(s.take(i)));
    }
}

/// Keeps ASCII letters, digits and `_`, and at most 32 of them.
pub fn sanitize_username(raw: &str) -> (u: String)
    ensures
        u@ == sanitized_username(raw@),
        forall|i: int| 0 <= i < u@.len() ==> ascii_name_char(#[trigger] u@[i]),
        u@.len() <= MAX_USERNAME_CHARS,
        (forall|i: int| 0 <= i < raw@.len() ==> ascii_name_char(#[trigger] raw@[i])) && raw@.len() <= MAX_USERNAME_CHARS
            ==> u@ == raw@,
{
    proof {
        lemma_sanitize_keeps_ascii_names('_', raw@);
    }
    let chars = chars_of(raw);
    let mut out: Vec<char> = Vec::new();
    let mut i: usize = 0;
    while i < chars.len() && out.len() < MAX_USERNAME_CHARS
        invariant
            i <= chars@.len(),
            chars@ == raw@,
            out@ == username_chars(chars@.take(i as int)),
            out@.len() <= MAX_USERNAME_CHARS,
        decreases chars@.len() - i,
    {
        let c = chars[i];
        assert(chars@.take(i + 1).drop_last() =~= chars@.take(i as int));
        if ('0' <= c && c <= '9') || ('a' <= c && c <= 'z') || ('A' <= c && c <= 'Z') || c == '_' {
            out.push(c);
        }
        i = i + 1;
    }
    proof {
        let n = chars@.len() as int;
        lemma_username_chars_prefix(chars@, i as int, n);
        assert(chars@.take(n) =~= chars@);
    }
    string_of(out.as_slice())
}

/// Why a join was refused.
#[derive(Debug, Clone, Copy, PartialEq, Eq)]
pub enum JoinError {
    /// Nothing is left of the username.
    InvalidUsername,
    /// The username is banned.
    Banned,
}

/// Admits a join: the sanitised name must not be empty nor banned.
pub fn admit_join(raw_username: &str, banned: &[String]) -> (r: Result<String, JoinError>)
    ensures
        sanitized_username(raw_username@).len() == 0 ==> r == Err::<String, JoinError>(JoinError::InvalidUsername),
        sanitized_username(raw_username@).len() > 0 && (exists|i: int| 0 <= i < banned@.len() && banned@[i]@ == sanitized_username(raw_username@))
            ==> r == Err::<String, JoinError>(JoinError::Banned),
        sanitized_username(raw_username@).len() > 0 && !(exists|i: int| 0 <= i < banned@.len() && banned@[i]@ == sanitized_username(raw_username@))
            ==> (r matches Ok(u) && u@ == sanitized_username(raw_username@)),
{
    let username = sanitize_username(raw_username);
    if username.as_str().is_empty() {
        return Err(JoinError::InvalidUsername);
    }
    let mut i: usize = 0;
    while i < banned.len()
        invariant
            i <= banned@.len(),
            username@ == sanitized_username(raw_username@),
            username@.len() > 0,
            forall|j: int| 0 <= j < i ==> banned@[j]@ != username@,
        decreases banned@.len() - i,
    {
        if banned[i] == username {
            return Err(JoinError::Banned);
        }
        i = i + 1;
    }
    Ok(username)
}

/// A message is still deliverable at `now_ms` when it never expires or expires later.
pub open spec fn still_valid(expires_at: Option<u64>, now_ms: u64) -> bool {
    match expires_at {
        None => true,
        Some(t) => t > now_ms,
    }
}

/// When a message stored at `now_ms` with a time-to-live (in seconds)
/// expires: `ttl` seconds later, or at the end of the clock.
pub open spec fn expiry_of(ttl: Option<u64>, now_ms: u64) -> Option<u64> {
    match ttl {
        Some(secs) => Some(if now_ms + secs * 1000 > u64::MAX { u64::MAX } else { (now_ms + secs * 1000) as u64 }),
        None => None,
    }
}

/// A message stored for an offline user is delivered when the user joins
/// while its time-to-live has not run out (and always without one).
pub proof fn lemma_mailbox_expiry(ttl: Option<u64>, stored_at_ms: u64, join_ms: u64)
    ensures
        still_valid(expiry_of(ttl, stored_at_ms), join_ms) <==> match ttl {
            None => true,
            Some(secs) => join_ms < stored_at_ms + secs * 1000 && join_ms < u64::MAX,
        },
{
}

/// Splits a mailbox into the messages still deliverable, in order, and the number dropped.
pub fn deliverable(stored: Vec<StoredMessage>, now_ms: u64) -> (r: (Vec<WireMessage>, usize))
    ensures
        r.0@.len() + r.1 == stored@.len(),
        r.0@ == stored@.filter(|m: StoredMessage| still_valid(m.expires_at, now_ms)).map_values(|m: StoredMessage| m.msg),
{
    let ghost orig = stored@;
    let n = stored.len();
    let mut kept: Vec<WireMessage> = Vec::new();
    let mut dropped: usize = 0;
    let mut rest = stored;
    let mut i: usize = 0;
    while i < n
        invariant
            i <= n,
            n == orig.len(),
            rest@ == orig.skip(i as int),
            kept@ == orig.take(i as int).filter(|m: StoredMessage| still_valid(m.expires_at, now_ms)).map_values(|m: StoredMessage| m.msg),
            kept@.len() + dropped == i,
        decreases n - i,
    {
        let sm = rest.remove(0);
        assert(sm == orig[i as int]);
        assert(rest@ =~= orig.skip(i + 1));
        assert(orig.take(i + 1).drop_last() =~= orig.take(i as int));
        let valid = match sm.expires_at {
            None => true,
            Some(t) => t > now_ms,
        };
        let ghost before = kept@;
        if valid {
            kept.push(sm.msg);
        } else {
            dropped = dropped + 1;
        }
        proof {
            let f = |m: StoredMessage| still_valid(m.expires_at, now_ms);
            let g = |m: StoredMessage| m.msg;
            reveal(Seq::filter);
            assert(orig.take(i + 1).filter(f) == if f(orig[i as int]) {
                orig.take(i as int).filter(f).push(orig[i as int])
            } else {
                orig.take(i as int).filter(f)
            });
            assert(kept@ =~= orig.take(i + 1).filter(f).map_values(g));
        }
        i = i + 1;
    }
    assert(orig.take(n as int) =~= orig);
    (kept, dropped)
}

/// What the hub does with a message from a joined user.
pub enum Relay {
    /// Nothing.
    Drop,
    /// Broadcast it to the other connections.
    Broadcast(WireMessage),
    /// Keep it for an offline user.
    Store { target: String, stored: StoredMessage },
    /// Run an admin command.
    Admin { command: String, target: String },
}

/// Whether someone with this name is online.
pub open spec fn is_online(online: Seq<String>, name: Seq<char>) -> bool {
    exists|i: int| 0 <= i < online.len() && online[i]@ == name
}

fn any_named(online: &[String], name: &String) -> (b: bool)
    ensures
        b == is_online(online@, name@),
{
    let mut i: usize = 0;
    while i < online.len()
        invariant
            i <= online@.len(),
            forall|j: int| 0 <= j < i ==> online@[j]@ != name@,
        decreases online@.len() - i,
    {
        if online[i] == *name {
            return true;
        }
        i = i + 1;
    }
    false
}

/// Decides what to do with a message that `my_username` sent: chats and file
/// offers are stamped with the sender's name, direct messages go out when the
/// target is online and are kept (with their time to live) otherwise, chunks
/// over 64 KiB are dropped.
pub fn relay_incoming(msg: WireMessage, my_username: &String, now: Timestamp, now_ms: u64, online: &[String]) -> (r: Relay)
    ensures
        match msg {
            WireMessage::Heartbeat => r is Drop,
            WireMessage::Version { .. } => r is Drop,
            WireMessage::Chat { content, .. } => r matches Relay::Broadcast(WireMessage::Chat { sender, content: c, timestamp })
                && sender@ == my_username@ && c == content && timestamp == now,
            WireMessage::FileOffer { file_name, file_size, id, .. } =>
                r matches Relay::Broadcast(WireMessage::FileOffer { sender, file_name: f, file_size: s, id: i })
                && sender@ == my_username@ && f == file_name && s == file_size && i == id,
            WireMessage::FileRequest { file_id, receiver } =>
                r matches Relay::Broadcast(WireMessage::FileRequest { file_id: f, receiver: v }) && f == file_id && v == receiver,
            WireMessage::FileChunk { file_id, chunk_index, total_chunks, data } =>
                if data@.len() > MAX_RELAYED_CHUNK { r is Drop } else {
                    r matches Relay::Broadcast(WireMessage::FileChunk { file_id: a, chunk_index: b, total_chunks: c, data: d })
                    && a == file_id && b == chunk_index && c == total_chunks && d == data
                },
            WireMessage::DirectMessage { target, content, timestamp, ttl, .. } =>
                if is_online(online@, target@) {
                    r matches Relay::Broadcast(WireMessage::DirectMessage { sender, target: t, content: c, timestamp: ts, ttl: l })
                    && sender@ == my_username@ && t == target && c == content && ts == timestamp && l == ttl
                } else {
                    r matches Relay::Store { target: t, stored } && t@ == target@
                    && (stored.msg matches WireMessage::DirectMessage { sender, target: t2, content: c, timestamp: ts, ttl: l }
                        && sender@ == my_username@ && t2 == target && c == content && ts == timestamp && l == ttl)
                    && stored.expires_at == expiry_of(ttl, now_ms)
                },
            WireMessage::AdminCommand { command, target } => r matches Relay::Admin { command: c, target: t }
                && c == command && t == target,
            WireMessage::VoicePacket { data } => r matches Relay::Broadcast(WireMessage::VoicePacket { data: d }) && d == data,
            _ => r is Drop,
        },
{
    match msg {
        WireMessage::Heartbeat => Relay::Drop,
        WireMessage::Version { .. } => Relay::Drop,
        WireMessage::Chat { content, .. } => Relay::Broadcast(WireMessage::Chat {
            sender: my_username.clone(), content, timestamp: now,
        }),
        WireMessage::FileOffer { file_name, file_size, id, .. } => Relay::Broadcast(WireMessage::FileOffer {
            sender: my_username.clone(), file_name, file_size, id,
        }),
        WireMessage::FileRequest { file_id, receiver } => Relay::Broadcast(WireMessage::FileRequest { file_id, receiver }),
        WireMessage::FileChunk { file_id, chunk_index, total_chunks, data } => {
            if data.len() > MAX_RELAYED_CHUNK {
                Relay::Drop
            } else {
                Relay::Broadcast(WireMessage::FileChunk { file_id, chunk_index, total_chunks, data })
            }
        },
        WireMessage::DirectMessage { target, content, timestamp, ttl, .. } => {
            if any_named(online, &target) {
                Relay::Broadcast(WireMessage::DirectMessage {
                    sender: my_username.clone(), target, content, timestamp, ttl,
                })
            } else {
                let expires_at = match ttl {
                    Some(secs) => Some(
                        if secs > (u64::MAX - now_ms) / 1000 { u64::MAX } else { now_ms + secs * 1000 }
                    ),
                    None => None,
                };
                let t2 = target.clone();
                Relay::Store {
                    target: t2,
                    stored: StoredMessage {
                        msg: WireMessage::DirectMessage { sender: my_username.clone(), target, content, timestamp, ttl },
                        expires_at,
                    },
                }
            }
        },
        WireMessage::AdminCommand { command, target } => Relay::Admin { command, target },
        WireMessage::VoicePacket { data } => Relay::Broadcast(WireMessage::VoicePacket { data }),
        _ => Relay::Drop,
    }
}

/// The group of the first connected user with this name, if any.
pub open spec fn group_of(users: Seq<(String, UserSession)>, name: Seq<char>) -> Option<Seq<char>> {
    if exists|i: int| 0 <= i < users.len() && users[i].1.username@ == name {
        let i = choose|i: int| 0 <= i < users.len() && users[i].1.username@ == name
            && forall|j: int| 0 <= j < i ==> users[j].1.username@ != name;
        Some(users[i].1.group@)
    } else {
        None
    }
}

fn find_group<'a>(users: &'a [(String, UserSession)], name: &String) -> (g: Option<&'a String>)
    ensures
        match g {
            Some(g) => group_of(users@, name@) == Some(g@),
            None => group_of(users@, name@) is None,
        },
{
    let mut i: usize = 0;
    while i < users.len()
        invariant
            i <= users@.len(),
            forall|j: int| 0 <= j < i ==> users@[j].1.username@ != name@,
        decreases users@.len() - i,
    {
        if users[i].1.username == *name {
            proof {
                let k = choose|k: int| 0 <= k < users@.len() && users@[k].1.username@ == name@
                    && forall|j: int| 0 <= j < k ==> users@[j].1.username@ != name@;
                assert(k == i) by {
                    if k < i { } else if k > i { assert(users@[i as int].1.username@ == name@); }
                }
            }
            return Some(&users[i].1.group);
        }
        i = i + 1;
    }
    None
}

/// Whether a broadcast message goes to the connection of `my_username` in `my_group`.
pub open spec fn should_send_spec(msg: WireMessage, my_group: Seq<char>, my_username: Seq<char>,
    users: Seq<(String, UserSession)>) -> bool {
    match msg {
        WireMessage::Join { group, .. } => group@ == my_group,
        WireMessage::Chat { sender, .. } => group_of(users, sender@) == Some(my_group),
        WireMessage::FileOffer { sender, .. } => sender@ != my_username && group_of(users, sender@) == Some(my_group),
        WireMessage::FileRequest { receiver, .. } => receiver@ == my_username,
        WireMessage::DirectMessage { target, .. } => target@ == my_username,
        WireMessage::Heartbeat => false,
        _ => true,
    }
}

/// Decides whether a broadcast message is written to this connection.
pub fn should_send(msg: &WireMessage, my_group: &String, my_username: &String, users: &[(String, UserSession)]) -> (b: bool)
    ensures
        b == should_send_spec(*msg, my_group@, my_username@, users@),
        msg is DirectMessage ==> (b <==> msg->DirectMessage_target@ == my_username@),
{
    proof {
        if msg is DirectMessage {
            lemma_direct_message_only_to_target(*msg, my_group@, my_username@, users@);
        }
    }
    match msg {
        WireMessage::Join { group, .. } => *group == *my_group,
        WireMessage::Chat { sender, .. } => match find_group(users, sender) {
            Some(g) => *g == *my_group,
            None => false,
        },
        WireMessage::FileOffer { sender, .. } => {
            if *sender == *my_username {
                false
            } else {
                match find_group(users, sender) {
                    Some(g) => *g == *my_group,
                    None => false,
                }
            }
        },
        WireMessage::FileRequest { receiver, .. } => *receiver == *my_username,
        WireMessage::DirectMessage { target, .. } => *target == *my_username,
        WireMessage::Heartbeat => false,
        _ => true,
    }
}

/// The names of the other users of a group, as sent in a peer list.
pub open spec fn peers_of(users: Seq<(String, UserSession)>, my_group: Seq<char>, my_fp: Seq<char>) -> Seq<Seq<char>>
    decreases users.len(),
{
    if users.len() == 0 {
        Seq::empty()
    } else {
        let rest = peers_of(users.drop_last(), my_group, my_fp);
        let u = users.last();
        if u.1.group@ == my_group && u.0@ != my_fp { rest.push(u.1.username@) } else { rest }
    }
}

/// The peer list for a connection: users of its group other than itself.
pub fn peer_list(users: &[(String, UserSession)], my_group: &String, my_fp: &String) -> (peers: Vec<String>)
    ensures
        peers@.map_values(|s: String| s@) == peers_of(users@, my_group@, my_fp@),
        peers@.map_values(|s: String| s@) == users@.filter(other_member(my_group@, my_fp@)).map_values(user_name()),
{
    proof {
        lemma_peer_list_is_group_members(users@, my_group@, my_fp@);
    }
    let mut peers: Vec<String> = Vec::new();
    let mut i: usize = 0;
    while i < users.len()
        invariant
            i <= users@.len(),
            peers@.map_values(|s: String| s@) == peers_of(users@.take(i as int), my_group@, my_fp@),
        decreases users@.len() - i,
    {
        assert(users@.take(i + 1).drop_last() =~= users@.take(i as int));
        if users[i].1.group == *my_group && users[i].0 != *my_fp {
            let ghost before = peers@;
            peers.push(users[i].1.username.clone());
            assert(peers@.map_values(|s: String| s@) =~= before.map_values(|s: String| s@).push(users@[i as int].1.username@));
        }
        i = i + 1;
    }
    assert(users@.take(users@.len() as int) =~= users@);
    peers
}

/// Whether a broadcast kicks the user of this connection.
pub fn kicks(msg: &WireMessage, my_username: &String) -> (b: bool)
    ensures
        b == (msg matches WireMessage::AdminCommand { command, target }
            && command@ == seq!['k', 'i', 'c', 'k'] && target@ == my_username@),
{
    match msg {
        WireMessage::AdminCommand { command, target } => {
            let kick = kick_word().to_owned();
            *command == kick && *target == *my_username
        },
        _ => false,
    }
}

fn kick_word() -> (s: &'static str)
    ensures
        s@ == seq!['k', 'i', 'c', 'k'],
{
    proof { reveal_strlit("kick"); }
    "kick"
}

/// A character a username keeps: an ASCII digit, an ASCII letter of either
/// case, or `_`.
pub open spec fn ascii_name_char(c: char) -> bool {
    ('0' <= c && c <= '9') || ('a' <= c && c <= 'z') || ('A' <= c && c <= 'Z') || c == '_'
}

/// Sanitising keeps exactly the ASCII letters (upper and lower case), digits
/// and `_`: a one-character name made of one of them is kept as it is, any
/// other character leaves nothing; a name made only of such characters and
/// at most 32 long is kept whole; every character of a result is one of them,
/// and a result is at most 32 characters long.
pub proof fn lemma_sanitize_keeps_ascii_names(c: char, s: Seq<char>)
    ensures
        ascii_name_char(c) ==> sanitized_username(seq![c]) == seq![c],
        !ascii_name_char(c) ==> sanitized_username(seq![c]).len() == 0,
        ('A' <= c && c <= 'Z') ==> sanitized_username(seq![c]) == seq![c],
        (forall|i: int| 0 <= i < s.len() ==> ascii_name_char(#[trigger] s[i])) && s.len() <= MAX_USERNAME_CHARS
            ==> sanitized_username(s) == s,
        forall|i: int| 0 <= i < sanitized_username(s).len() ==> ascii_name_char(#[trigger] sanitized_username(s)[i]),
        sanitized_username(s).len() <= MAX_USERNAME_CHARS,
{
    assert(seq![c].drop_last() =~= Seq::<char>::empty());
    assert(seq![c].last() == c);
    assert(username_chars(Seq::<char>::empty()) =~= Seq::<char>::empty());
    if ascii_name_char(c) {
        assert(username_chars(seq![c]) =~= seq![c]);
    }
    lemma_username_chars_allowed(s);
    if (forall|i: int| 0 <= i < s.len() ==> ascii_name_char(#[trigger] s[i])) {
        lemma_username_chars_all_kept(s);
    }
}

/// Appending a character to the raw name: one of the kept characters is
/// added to the end of the kept ones, any other character changes nothing;
/// so a kept character is in the result while fewer than 32 came before it.
pub proof fn lemma_sanitize_append(s: Seq<char>, c: char)
    ensures
        ascii_name_char(c) ==> username_chars(s.push(c)) == username_chars(s).push(c),
        !ascii_name_char(c) ==> username_chars(s.push(c)) == username_chars(s),
        ascii_name_char(c) && username_chars(s).len() < MAX_USERNAME_CHARS
            ==> sanitized_username(s.push(c)) == username_chars(s).push(c),
        !ascii_name_char(c) ==> sanitized_username(s.push(c)) == sanitized_username(s),
{
    assert(s.push(c).drop_last() =~= s);
    assert(s.push(c).last() == c);
}

proof fn lemma_username_chars_allowed(s: Seq<char>)
    ensures
        forall|i: int| 0 <= i < username_chars(s).len() ==> ascii_name_char(#[trigger] username_chars(s)[i]),
        username_chars(s).len() <= s.len(),
    decreases s.len(),
{
    if s.len() > 0 {
        lemma_username_chars_allowed(s.drop_last());
    }
}

proof fn lemma_username_chars_all_kept(s: Seq<char>)
    requires
        forall|i: int| 0 <= i < s.len() ==> ascii_name_char(#[trigger] s[i]),
    ensures
        username_chars(s) == s,
    decreases s.len(),
{
    if s.len() > 0 {
        let t = s.drop_last();
        assert forall|i: int| 0 <= i < t.len() implies ascii_name_char(#[trigger] t[i]) by {
            assert(t[i] == s[i]);
        }
        lemma_username_chars_all_kept(t);
        assert(s.last() == s[s.len() - 1]);
        assert(t.push(s.last()) =~= s);
    }
}

/// A direct message goes only to the connection of its target: whatever the
/// groups, it is sent exactly when the connection's username is the target.
pub proof fn lemma_direct_message_only_to_target(msg: WireMessage, my_group: Seq<char>, my_username: Seq<char>,
    users: Seq<(String, UserSession)>)
    requires
        msg is DirectMessage,
    ensures
        should_send_spec(msg, my_group, my_username, users) <==> msg->DirectMessage_target@ == my_username,
{
}

/// A user of the table in `my_group` that is not the connection `my_fp`.
pub open spec fn other_member(my_group: Seq<char>, my_fp: Seq<char>) -> spec_fn((String, UserSession)) -> bool {
    |u: (String, UserSession)| u.1.group@ == my_group && u.0@ != my_fp
}

/// The username of a user of the table.
pub open spec fn user_name() -> spec_fn((String, UserSession)) -> Seq<char> {
    |u: (String, UserSession)| u.1.username@
}

/// The peer list of a connection is exactly the usernames of the users of its
/// group other than itself, in table order, wherever they stand in the table.
pub proof fn lemma_peer_list_is_group_members(users: Seq<(String, UserSession)>, my_group: Seq<char>, my_fp: Seq<char>)
    ensures
        peers_of(users, my_group, my_fp) == users.filter(other_member(my_group, my_fp)).map_values(user_name()),
        forall|i: int| 0 <= i < users.len() && (#[trigger] users[i]).1.group@ == my_group && users[i].0@ != my_fp
            ==> peers_of(users, my_group, my_fp).contains(users[i].1.username@),
    decreases users.len(),
{
    let pred = other_member(my_group, my_fp);
    let name = user_name();
    reveal_with_fuel(Seq::filter, 1);
    if users.len() == 0 {
        assert(users.filter(pred) =~= Seq::<(String, UserSession)>::empty());
        assert(users.filter(pred).map_values(name) =~= Seq::<Seq<char>>::empty());
        assert(peers_of(users, my_group, my_fp).len() == 0);
    } else {
        let t = users.drop_last();
        lemma_peer_list_is_group_members(t, my_group, my_fp);
        let u = users.last();
        assert(users.filter(pred) == if pred(u) { t.filter(pred).push(u) } else { t.filter(pred) });
        if pred(u) {
            assert(t.filter(pred).push(u).map_values(name) =~= t.filter(pred).map_values(name).push(name(u)));
        }
        assert forall|i: int| 0 <= i < users.len() && (#[trigger] users[i]).1.group@ == my_group && users[i].0@ != my_fp
            implies peers_of(users, my_group, my_fp).contains(users[i].1.username@) by {
            if i < t.len() {
                assert(t[i] == users[i]);
                let k = choose|k: int| 0 <= k < peers_of(t, my_group, my_fp).len() && peers_of(t, my_group, my_fp)[k] == users[i].1.username@;
                assert(peers_of(users, my_group, my_fp)[k] == peers_of(t, my_group, my_fp)[k]);
            } else {
                assert(users[i] == u);
                assert(peers_of(users, my_group, my_fp)[peers_of(users, my_group, my_fp).len() - 1] == u.1.username@);
            }
        }
    }
}

/// Every name in the peer list is that of a user of the group other than the connection itself.
pub proof fn lemma_peer_list_only_group_members(users: Seq<(String, UserSession)>, my_group: Seq<char>, my_fp: Seq<char>, k: int)
    requires
        0 <= k < peers_of(users, my_group, my_fp).len(),
    ensures
        exists|i: int| #[trigger] member_named(users, my_group, my_fp, i, peers_of(users, my_group, my_fp)[k]),
{
    let i = peer_source(users, my_group, my_fp, k);
    assert(member_named(users, my_group, my_fp, i, peers_of(users, my_group, my_fp)[k]));
}

/// User `i` of the table is in `my_group`, is not the connection `my_fp`, and is called `name`.
pub open spec fn member_named(users: Seq<(String, UserSession)>, my_group: Seq<char>, my_fp: Seq<char>, i: int,
    name: Seq<char>) -> bool {
    0 <= i < users.len() && users[i].1.group@ == my_group && users[i].0@ != my_fp && users[i].1.username@ == name
}

proof fn peer_source(users: Seq<(String, UserSession)>, my_group: Seq<char>, my_fp: Seq<char>, k: int) -> (i: int)
    requires
        0 <= k < peers_of(users, my_group, my_fp).len(),
    ensures
        0 <= i < users.len(),
        users[i].1.group@ == my_group && users[i].0@ != my_fp,
        users[i].1.username@ == peers_of(users, my_group, my_fp)[k],
    decreases users.len(),
{
    let t = users.drop_last();
    let u = users.last();
    if k < peers_of(t, my_group, my_fp).len() {
        let i = peer_source(t, my_group, my_fp, k);
        assert(t[i] == users[i]);
        i
    } else {
        assert(users[users.len() - 1] == u);
        users.len() - 1
    }
}

} // verus!
