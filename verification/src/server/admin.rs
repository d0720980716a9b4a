//! Admin commands on the hub: who may run them, how often, and what they do.

use vstd::prelude::*;
use crate::text::concat_str;

verus! {

/// Milliseconds an admin must wait between two commands.
pub const ADMIN_RATE_LIMIT_MS: u64 = 2000;

/// What an admin command leads to.
pub enum AdminOutcome {
    /// The sender is not an admin.
    NotAdmin,
    /// The sender's previous command was less than two seconds ago.
    RateLimited,
    /// Announce the kick, then tell the target's connection to close.
    Kick { announcement: String, target: String },
    /// Ban the target (and save the ban list), announce it, then kick.
    Ban { announcement: String, target: String },
    /// Accepted, but not a known command.
    Unknown,
}

/// " was kicked by admin."
pub open spec fn kicked_suffix() -> Seq<char> {
    seq![' ', 'w', 'a', 's', ' ', 'k', 'i', 'c', 'k', 'e', 'd', ' ', 'b', 'y', ' ', 'a', 'd', 'm', 'i', 'n', '.']
}

/// " was BANNED by admin."
pub open spec fn banned_suffix() -> Seq<char> {
    seq![' ', 'w', 'a', 's', ' ', 'B', 'A', 'N', 'N', 'E', 'D', ' ', 'b', 'y', ' ', 'a', 'd', 'm', 'i', 'n', '.']
}

/// Whether a command may run: the sender's last accepted command (if any) was
/// at least two seconds ago.
pub open spec fn admin_allowed(last_elapsed_ms: Option<u64>) -> bool {
    match last_elapsed_ms {
        None => true,
        Some(e) => e >= ADMIN_RATE_LIMIT_MS,
    }
}

/// Decides an admin command. When the result is neither `NotAdmin` nor
/// `RateLimited`, the sender's last-command time becomes now.
pub fn decide_admin(is_admin: bool, last_elapsed_ms: Option<u64>, command: &String, target: &String) -> (r: AdminOutcome)
    ensures
        !is_admin ==> r is NotAdmin,
        is_admin && !admin_allowed(last_elapsed_ms) ==> r is RateLimited,
        is_admin && admin_allowed(last_elapsed_ms) ==> {
            if command@ == seq!['k', 'i', 'c', 'k'] {
                r matches AdminOutcome::Kick { announcement, target: t }
                    && announcement@ == target@ + kicked_suffix() && t@ == target@
            } else if command@ == seq!['b', 'a', 'n'] {
                r matches AdminOutcome::Ban { announcement, target: t }
                    && announcement@ == target@ + banned_suffix() && t@ == target@
            } else {
                r is Unknown
            }
        },
{
    if !is_admin {
        return AdminOutcome::NotAdmin;
    }
    let allowed = match last_elapsed_ms {
        None => true,
        Some(e) => e >= ADMIN_RATE_LIMIT_MS,
    };
    if !allowed {
        return AdminOutcome::RateLimited;
    }
    let kick = word_kick().to_owned();
    let ban = word_ban().to_owned();
    if *command == kick {
        AdminOutcome::Kick { announcement: concat_str(target.as_str(), kicked_text()), target: target.clone() }
    } else if *command == ban {
        AdminOutcome::Ban { announcement: concat_str(target.as_str(), banned_text()), target: target.clone() }
    } else {
        AdminOutcome::Unknown
    }
}

fn word_kick() -> (s: &'static str)
    ensures
        s@ == seq!['k', 'i', 'c', 'k'],
{
    proof { reveal_strlit("kick"); }
    "kick"
}

fn word_ban() -> (s: &'static str)
    ensures
        s@ == seq!['b', 'a', 'n'],
{
    proof { reveal_strlit("ban"); }
    "ban"
}

fn kicked_text() -> (s: &'static str)
    ensures
        s@ == kicked_suffix(),
{
    proof { reveal_strlit(" was kicked by admin."); }
    " was kicked by admin."
}

fn banned_text() -> (s: &'static str)
    ensures
        s@ == banned_suffix(),
{
    proof { reveal_strlit(" was BANNED by admin."); }
    " was BANNED by admin."
}

} // verus!
