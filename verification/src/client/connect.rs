//! The order in which a client brings up a connection to the hub: the Noise
//! handshake, the check of the hub's static key against the fingerprint the
//! user gave, the Kyber upgrade, and only then the Join. The client's loop
//! performs each action and reports what happened as the next event.

use vstd::prelude::*;
use crate::crypto::handshake::check_peer;
use crate::crypto::identity::fingerprint_of;
use crate::crypto::kem::{pq_respond, KYBER_PUBLIC_KEY_BYTES, KYBER_CIPHERTEXT_BYTES, KYBER_SHARED_SECRET_BYTES};
use crate::protocol::WireMessage;

verus! {

/// How far a connection has come.
pub enum ConnectStage {
    /// Waiting for the transport to the hub.
    Connecting,
    /// Running the Noise handshake.
    Handshaking,
    /// The hub's key matched; waiting for its PQInit.
    Secured,
    /// PQFinish is being sent and the session upgraded.
    Upgrading,
    /// The Join was sent.
    Online,
    /// The connection is given up (the client retries with a new one).
    Dropped,
}

/// What happened on the connection.
pub enum ConnectEvent {
    /// The transport to the hub is open.
    Connected,
    /// The Noise handshake finished; the hub's static key, if it sent one.
    NoiseComplete { remote_static: Option<Vec<u8>> },
    /// A message arrived on the secured session.
    Received(WireMessage),
    /// PQFinish was written and the session upgraded.
    Upgraded,
    /// A read, a write or the handshake failed, or a timeout passed.
    Failed,
}

/// What the client does next.
pub enum ConnectAction {
    /// Run the Noise handshake as initiator.
    RunHandshake,
    /// Wait for the hub's PQInit.
    AwaitPqInit,
    /// Send PQFinish with this ciphertext, then upgrade the session with this secret.
    SendPqFinish { ciphertext: Vec<u8>, shared_secret: Vec<u8> },
    /// Send the Join.
    SendJoin,
    /// Close the connection.
    Drop,
    /// Nothing.
    Wait,
}

/// The hub's static key is there and has the expected fingerprint.
pub open spec fn peer_matches(remote_static: Option<Vec<u8>>, expected: Seq<char>) -> bool {
    remote_static matches Some(k) && fingerprint_of(k@) == expected
}

/// A PQInit with a Kyber-1024 public key of the right length.
pub open spec fn valid_pq_init(msg: WireMessage) -> bool {
    msg matches WireMessage::PQInit { public_key } && public_key@.len() == KYBER_PUBLIC_KEY_BYTES
}

/// The stage after an event.
pub open spec fn next_stage(stage: ConnectStage, expected: Seq<char>, event: ConnectEvent) -> ConnectStage {
    match stage {
        ConnectStage::Connecting => if event is Connected { ConnectStage::Handshaking } else { ConnectStage::Dropped },
        ConnectStage::Handshaking => match event {
            ConnectEvent::NoiseComplete { remote_static } => if peer_matches(remote_static, expected) {
                ConnectStage::Secured
            } else {
                ConnectStage::Dropped
            },
            _ => ConnectStage::Dropped,
        },
        ConnectStage::Secured => match event {
            ConnectEvent::Received(msg) => if valid_pq_init(msg) { ConnectStage::Upgrading } else { ConnectStage::Dropped },
            _ => ConnectStage::Dropped,
        },
        ConnectStage::Upgrading => if event is Upgraded { ConnectStage::Online } else { ConnectStage::Dropped },
        ConnectStage::Online => if event is Failed { ConnectStage::Dropped } else { ConnectStage::Online },
        ConnectStage::Dropped => ConnectStage::Dropped,
    }
}

/// Whether `action` is what the client does on `event` in `stage`.
pub open spec fn action_fits(stage: ConnectStage, expected: Seq<char>, event: ConnectEvent, action: ConnectAction) -> bool {
    match next_stage(stage, expected, event) {
        ConnectStage::Handshaking => action is RunHandshake,
        ConnectStage::Secured => action is AwaitPqInit,
        ConnectStage::Upgrading => action matches ConnectAction::SendPqFinish { ciphertext, shared_secret }
            && ciphertext@.len() == KYBER_CIPHERTEXT_BYTES && shared_secret@.len() == KYBER_SHARED_SECRET_BYTES,
        ConnectStage::Online => if stage is Upgrading { action is SendJoin } else { action is Wait },
        ConnectStage::Dropped => if stage is Dropped { action is Wait } else { action is Drop },
        ConnectStage::Connecting => action is Wait,
    }
}

/// One step of bringing up a connection whose hub must have the fingerprint
/// `expected`: the next stage and what to do.
pub fn connect_step(stage: ConnectStage, expected: &str, event: ConnectEvent) -> (r: (ConnectStage, ConnectAction))
    ensures
        r.0 == next_stage(stage, expected@, event),
        action_fits(stage, expected@, event, r.1),
{
    match stage {
        ConnectStage::Connecting => match event {
            ConnectEvent::Connected => (ConnectStage::Handshaking, ConnectAction::RunHandshake),
            _ => (ConnectStage::Dropped, ConnectAction::Drop),
        },
        ConnectStage::Handshaking => match event {
            ConnectEvent::NoiseComplete { remote_static } => {
                match check_peer(remote_static, expected) {
                    Ok(_) => (ConnectStage::Secured, ConnectAction::AwaitPqInit),
                    Err(_) => (ConnectStage::Dropped, ConnectAction::Drop),
                }
            },
            _ => (ConnectStage::Dropped, ConnectAction::Drop),
        },
        ConnectStage::Secured => match event {
            ConnectEvent::Received(WireMessage::PQInit { public_key }) => {
                match pq_respond(public_key.as_slice()) {
                    Ok((shared_secret, ciphertext)) => {
                        (ConnectStage::Upgrading, ConnectAction::SendPqFinish { ciphertext, shared_secret })
                    },
                    Err(_) => (ConnectStage::Dropped, ConnectAction::Drop),
                }
            },
            _ => (ConnectStage::Dropped, ConnectAction::Drop),
        },
        ConnectStage::Upgrading => match event {
            ConnectEvent::Upgraded => (ConnectStage::Online, ConnectAction::SendJoin),
            _ => (ConnectStage::Dropped, ConnectAction::Drop),
        },
        ConnectStage::Online => match event {
            ConnectEvent::Failed => (ConnectStage::Dropped, ConnectAction::Drop),
            _ => (ConnectStage::Online, ConnectAction::Wait),
        },
        ConnectStage::Dropped => (ConnectStage::Dropped, ConnectAction::Wait),
    }
}

/// The stage of a connection after the events `events`, from its start.
pub open spec fn stage_after(expected: Seq<char>, events: Seq<ConnectEvent>) -> ConnectStage
    decreases events.len(),
{
    if events.len() == 0 {
        ConnectStage::Connecting
    } else {
        next_stage(stage_after(expected, events.drop_last()), expected, events.last())
    }
}

/// Event `j` completed the handshake with a hub whose key matched.
pub open spec fn peer_verified_at(expected: Seq<char>, events: Seq<ConnectEvent>, j: int) -> bool {
    &&& stage_after(expected, events.take(j)) is Handshaking
    &&& events[j] matches ConnectEvent::NoiseComplete { remote_static }
    &&& peer_matches(remote_static, expected)
}

/// Event `k` was a valid PQInit on a secured session, answered with PQFinish.
pub open spec fn upgraded_at(expected: Seq<char>, events: Seq<ConnectEvent>, k: int) -> bool {
    &&& stage_after(expected, events.take(k)) is Secured
    &&& events[k] matches ConnectEvent::Received(msg)
    &&& valid_pq_init(msg)
}

/// Event `i` makes the client send its Join.
pub open spec fn join_at(expected: Seq<char>, events: Seq<ConnectEvent>, i: int) -> bool {
    stage_after(expected, events.take(i)) is Upgrading && events[i] is Upgraded
}

proof fn lemma_stage_history(expected: Seq<char>, events: Seq<ConnectEvent>, n: int)
    requires
        0 <= n <= events.len(),
    ensures
        (stage_after(expected, events.take(n)) is Secured || stage_after(expected, events.take(n)) is Upgrading
            || stage_after(expected, events.take(n)) is Online)
            ==> exists|j: int| 0 <= j < n && #[trigger] peer_verified_at(expected, events, j),
        (stage_after(expected, events.take(n)) is Upgrading || stage_after(expected, events.take(n)) is Online)
            ==> exists|k: int| 0 <= k < n && #[trigger] upgraded_at(expected, events, k),
    decreases n,
{
    if n > 0 {
        lemma_stage_history(expected, events, n - 1);
        let prev = events.take(n - 1);
        assert(events.take(n).drop_last() =~= prev);
        assert(events.take(n).last() == events[n - 1]);
        let before = stage_after(expected, prev);
        let now = stage_after(expected, events.take(n));
        assert(now == next_stage(before, expected, events[n - 1]));
        if now is Secured {
            assert(peer_verified_at(expected, events, n - 1));
        }
        if now is Upgrading {
            assert(upgraded_at(expected, events, n - 1));
        }
    }
}

/// The Join is sent only after the hub's static key matched the expected
/// fingerprint and, after that, a valid PQInit was answered and the session
/// upgraded: in any run of events, the event that sends the Join comes after
/// one that verified the peer, which comes before one that upgraded.
pub proof fn lemma_join_after_verified_upgrade(expected: Seq<char>, events: Seq<ConnectEvent>, i: int)
    requires
        0 <= i < events.len(),
        join_at(expected, events, i),
    ensures
        exists|j: int, k: int| 0 <= j < k < i && #[trigger] peer_verified_at(expected, events, j)
            && #[trigger] upgraded_at(expected, events, k),
{
    lemma_stage_history(expected, events, i);
    let k = choose|k: int| 0 <= k < i && #[trigger] upgraded_at(expected, events, k);
    lemma_stage_history(expected, events, k);
    let j = choose|j: int| 0 <= j < k && #[trigger] peer_verified_at(expected, events, j);
    assert(peer_verified_at(expected, events, j) && upgraded_at(expected, events, k));
}

/// Event `i` makes the client send its PQFinish.
pub open spec fn pq_finish_at(expected: Seq<char>, events: Seq<ConnectEvent>, i: int) -> bool {
    upgraded_at(expected, events, i)
}

/// Nothing is sent on the session before the hub's key is checked: the event
/// that sends the PQFinish (the first message the client writes on the
/// secured session) comes after one that verified the hub's key.
pub proof fn lemma_pq_finish_after_verified_peer(expected: Seq<char>, events: Seq<ConnectEvent>, i: int)
    requires
        0 <= i < events.len(),
        pq_finish_at(expected, events, i),
    ensures
        exists|j: int| 0 <= j < i && #[trigger] peer_verified_at(expected, events, j),
{
    lemma_stage_history(expected, events, i);
}

} // verus!
