//! What the hub remembers about users, offline messages and bans.

use vstd::prelude::*;
use crate::protocol::WireMessage;
use std::collections::HashMap;

verus! {

broadcast use vstd::std_specs::hash::group_hash_axioms;

/// A connected user.
pub struct UserSession {
    pub username: String,
    pub group: String,
}

/// A direct message kept for an offline user, with the time (in milliseconds
/// of the hub's monotonic clock) after which it is dropped.
pub struct StoredMessage {
    pub msg: WireMessage,
    pub expires_at: Option<u64>,
}

/// The bans and admins saved between runs.
pub struct DiskState {
    pub blacklist: Vec<(String, String)>,
    pub admins: Vec<(String, bool)>,
}

impl Default for DiskState {
    fn default() -> (d: Self)
        ensures
            d.blacklist@.len() == 0,
            d.admins@.len() == 0,
    {
        DiskState { blacklist: Vec::new(), admins: Vec::new() }
    }
}

/// Connections one address may open within a window.
pub const MAX_CONNECTIONS_PER_WINDOW: u32 = 20;
/// Length of a connection-counting window, in nanoseconds (one minute).
pub const CONNECTION_WINDOW_NS: u64 = 60_000_000_000;

/// An address's connection count after one more connection arrives.
pub struct ConnectionCount {
    /// Connections counted in the current window.
    pub count: u32,
    /// The window starts now.
    pub new_window: bool,
    /// The connection is served.
    pub allowed: bool,
}

/// Counts a connection from an address whose earlier count (if any) is
/// `previous`: the count and the nanoseconds since its window opened. A
/// window older than a minute starts over; past 20 connections in a window,
/// connections are refused.
pub fn count_connection(previous: Option<(u32, u64)>) -> (r: ConnectionCount)
    ensures
        match previous {
            None => r.count == 1 && r.new_window && r.allowed,
            Some((c, elapsed)) => if elapsed > CONNECTION_WINDOW_NS {
                r.count == 1 && r.new_window && r.allowed
            } else {
                r.count == (if c == u32::MAX { c as int } else { c + 1 }) && !r.new_window
                    && r.allowed == (r.count <= MAX_CONNECTIONS_PER_WINDOW)
            },
        },
{
    match previous {
        None => ConnectionCount { count: 1, new_window: true, allowed: true },
        Some((c, elapsed)) => {
            if elapsed > CONNECTION_WINDOW_NS {
                ConnectionCount { count: 1, new_window: true, allowed: true }
            } else {
                let count = c.saturating_add(1);
                ConnectionCount { count, new_window: false, allowed: count <= MAX_CONNECTIONS_PER_WINDOW }
            }
        },
    }
}


/// Nanoseconds from `start` to `now`, or 0 when `now` is earlier.
pub open spec fn elapsed_ns(start: u64, now: u64) -> int {
    if now >= start { now - start } else { 0 }
}

/// The count after one more connection in a window that held `c`.
pub open spec fn next_count(c: u32) -> u32 {
    if c == u32::MAX { c } else { (c + 1) as u32 }
}

/// One connection from an address at time `now` (ns): the address's new
/// window (its count and the time it opened) and whether the connection is
/// served, given its window before (if any).
pub open spec fn window_step(prior: Option<(u32, u64)>, now: u64) -> ((u32, u64), bool) {
    match prior {
        None => ((1u32, now), true),
        Some((c, start)) => if elapsed_ns(start, now) > CONNECTION_WINDOW_NS {
            ((1u32, now), true)
        } else {
            ((next_count(c), start), next_count(c) <= MAX_CONNECTIONS_PER_WINDOW)
        },
    }
}

/// The window an address has in a table, if any.
pub open spec fn window_of(table: Map<u128, (u32, u64)>, addr: u128) -> Option<(u32, u64)> {
    if table.contains_key(addr) { Some(table[addr]) } else { None }
}

/// A table after connections from one address at the times `times`, and
/// which of them were served.
pub open spec fn connect_all(table: Map<u128, (u32, u64)>, addr: u128, times: Seq<u64>)
    -> (Map<u128, (u32, u64)>, Seq<bool>)
    decreases times.len(),
{
    if times.len() == 0 {
        (table, Seq::empty())
    } else {
        let (t, served) = connect_all(table, addr, times.drop_last());
        let (w, ok) = window_step(window_of(t, addr), times.last());
        (t.insert(addr, w), served.push(ok))
    }
}

/// The connection windows of the hub, by address. An address is a 128-bit
/// number: an IPv6 address, or an IPv4 address in its IPv6-mapped form.
pub struct ConnectionTable {
    /// For each address: the connections counted in its window, and the time
    /// (ns of the hub's clock) at which the window opened.
    pub windows: HashMap<u128, (u32, u64)>,
}

impl ConnectionTable {
    pub fn new() -> (t: ConnectionTable)
        ensures
            t.windows@ == Map::<u128, (u32, u64)>::empty(),
    {
        ConnectionTable { windows: HashMap::new() }
    }

    /// A connection from `addr` at `now` (ns): whether it is served. The
    /// address's window is updated; other addresses are untouched.
    pub fn register(&mut self, addr: u128, now: u64) -> (served: bool)
        ensures
            final(self).windows@ == old(self).windows@.insert(addr,
                window_step(window_of(old(self).windows@, addr), now).0),
            served == window_step(window_of(old(self).windows@, addr), now).1,
    {
        let before = match self.windows.get(&addr) {
            Some(w) => Some(*w),
            None => None,
        };
        let previous = match before {
            Some((c, start)) => Some((c, if now >= start { now - start } else { 0 })),
            None => None,
        };
        let counted = count_connection(previous);
        let start = match before {
            Some((_, s)) => if counted.new_window { now } else { s },
            None => now,
        };
        self.windows.insert(addr, (counted.count, start));
        counted.allowed
    }
}

/// Within one window: when an address with no open window (none yet, or one
/// older than a minute at `times[0]`) connects at the times `times`, all
/// within a minute of the first, the first 20 are served and the rest are
/// refused; its window then opened at `times[0]` and counts every connection
/// (up to `u32::MAX`). The first connection more than a minute after
/// `times[0]` opens a new window with count 1 and is served.
pub proof fn lemma_connection_window(table: Map<u128, (u32, u64)>, addr: u128, times: Seq<u64>, later: u64)
    requires
        times.len() > 0,
        !table.contains_key(addr) || elapsed_ns(table[addr].1, times[0]) > CONNECTION_WINDOW_NS,
        forall|i: int| 0 <= i < times.len() ==> times[0] <= #[trigger] times[i] <= times[0] + CONNECTION_WINDOW_NS,
    ensures
        forall|k: int| 0 <= k < times.len() ==> #[trigger] connect_all(table, addr, times).1[k] == (k < MAX_CONNECTIONS_PER_WINDOW),
        connect_all(table, addr, times).1.len() == times.len(),
        connect_all(table, addr, times).0[addr] == (
            (if times.len() <= u32::MAX { times.len() as u32 } else { u32::MAX }, times[0])),
        forall|other: u128| other != addr ==> #[trigger] window_of(connect_all(table, addr, times).0, other)
            == window_of(table, other),
        later > times[0] + CONNECTION_WINDOW_NS ==> window_step(window_of(connect_all(table, addr, times).0, addr), later)
            == ((1u32, later), true),
    decreases times.len(),
{
    if times.len() == 1 {
        assert(times.drop_last() =~= Seq::<u64>::empty());
        assert(connect_all(table, addr, times.drop_last()).0 == table);
    } else {
        let prefix = times.drop_last();
        assert forall|i: int| 0 <= i < prefix.len() implies prefix[0] <= #[trigger] prefix[i]
            <= prefix[0] + CONNECTION_WINDOW_NS by {
            assert(prefix[i] == times[i]);
        }
        lemma_connection_window(table, addr, prefix, later);
        let (t, served) = connect_all(table, addr, prefix);
        assert(times.last() == times[times.len() - 1]);
        assert(window_of(t, addr) == Some(t[addr]));
        let (w, ok) = window_step(window_of(t, addr), times.last());
        assert(connect_all(table, addr, times).1 == served.push(ok));
        assert forall|k: int| 0 <= k < times.len() implies #[trigger] connect_all(table, addr, times).1[k]
            == (k < MAX_CONNECTIONS_PER_WINDOW) by {
            if k < prefix.len() {
                assert(served.push(ok)[k] == served[k]);
            }
        }
        assert forall|other: u128| other != addr implies #[trigger] window_of(connect_all(table, addr, times).0, other)
            == window_of(table, other) by {
            assert(window_of(t, other) == window_of(table, other));
        }
    }
}

} // verus!
