//! The client's slash commands.

use vstd::prelude::*;
use crate::text::{chars_of, string_of, trim_chars, trim_spec, starts_with, starts_with_chars, strip_repeated,
    strip_repeated_chars, chars_eq, char_range, find_space, space_from, parse_u32, parse_u32_spec,
    parse_u64, parse_u64_spec};

verus! {

/// Seconds a self-destructing message lives when its count does not parse.
pub const DEFAULT_TTL_SECS: u64 = 30;

/// What a line typed into the client asks for.
pub enum ClientCommand {
    /// Offer a file: its path as typed.
    Send(String),
    /// Accept the offered file with this id.
    Get(u32),
    Quit,
    Nuke,
    VaultPut(String),
    VaultGet(String),
    VaultList,
    DirectMessage { target: String, content: String },
    MsgUsage,
    Ttl { target: String, seconds: u64, content: String },
    TtlUsage,
    Kick(String),
    Ban(String),
    VoiceSim,
    Chat(String),
    /// Nothing to do.
    Ignore,
}

pub open spec fn kw_send() -> Seq<char> { seq!['/', 's', 'e', 'n', 'd'] }
pub open spec fn kw_get() -> Seq<char> { seq!['/', 'g', 'e', 't', ' '] }
pub open spec fn kw_quit() -> Seq<char> { seq!['/', 'q', 'u', 'i', 't'] }
pub open spec fn kw_nuke() -> Seq<char> { seq!['/', 'n', 'u', 'k', 'e'] }
pub open spec fn kw_vault_put() -> Seq<char> { seq!['/', 'v', 'a', 'u', 'l', 't', '_', 'p', 'u', 't', ' '] }
pub open spec fn kw_vault_get() -> Seq<char> { seq!['/', 'v', 'a', 'u', 'l', 't', '_', 'g', 'e', 't', ' '] }
pub open spec fn kw_vault_list() -> Seq<char> { seq!['/', 'v', 'a', 'u', 'l', 't', '_', 'l', 'i', 's', 't'] }
pub open spec fn kw_msg() -> Seq<char> { seq!['/', 'm', 's', 'g', ' '] }
pub open spec fn kw_ttl() -> Seq<char> { seq!['/', 't', 't', 'l', ' '] }
pub open spec fn kw_kick() -> Seq<char> { seq!['/', 'k', 'i', 'c', 'k', ' '] }
pub open spec fn kw_ban() -> Seq<char> { seq!['/', 'b', 'a', 'n', ' '] }
pub open spec fn kw_voice_sim() -> Seq<char> { seq!['/', 'v', 'o', 'i', 'c', 'e', '_', 's', 'i', 'm'] }

/// The argument of a one-argument command: every leading copy of the keyword removed, then trimmed.
pub open spec fn argument(cmd: Seq<char>, kw: Seq<char>) -> Seq<char> {
    trim_spec(strip_repeated(cmd, kw))
}

/// The seconds of a `/ttl` command.
pub open spec fn ttl_seconds(s: Seq<char>) -> u64 {
    match parse_u64_spec(s) {
        Some(v) => v,
        None => DEFAULT_TTL_SECS,
    }
}

/// What `parse_command` returns, for the trimmed line `cmd`.
pub open spec fn command_matches(cmd: Seq<char>, r: ClientCommand) -> bool {
    if starts_with(cmd, kw_send()) {
        r matches ClientCommand::Send(p) && p@ == argument(cmd, kw_send())
    } else if starts_with(cmd, kw_get()) {
        match parse_u32_spec(strip_repeated(cmd, kw_get())) {
            Some(id) => r matches ClientCommand::Get(i) && i == id,
            None => r is Ignore,
        }
    } else if cmd == kw_quit() {
        r is Quit
    } else if cmd == kw_nuke() {
        r is Nuke
    } else if starts_with(cmd, kw_vault_put()) {
        r matches ClientCommand::VaultPut(p) && p@ == argument(cmd, kw_vault_put())
    } else if starts_with(cmd, kw_vault_get()) {
        r matches ClientCommand::VaultGet(p) && p@ == argument(cmd, kw_vault_get())
    } else if cmd == kw_vault_list() {
        r is VaultList
    } else if starts_with(cmd, kw_msg()) {
        match space_from(cmd, 5) {
            Some(j) => r matches ClientCommand::DirectMessage { target, content }
                && target@ == cmd.subrange(5, j) && content@ == cmd.skip(j + 1),
            None => r is MsgUsage,
        }
    } else if starts_with(cmd, kw_ttl()) {
        match space_from(cmd, 5) {
            Some(j1) => match space_from(cmd, j1 + 1) {
                Some(j2) => r matches ClientCommand::Ttl { target, seconds, content }
                    && target@ == cmd.subrange(5, j1) && seconds == ttl_seconds(cmd.subrange(j1 + 1, j2))
                    && content@ == cmd.skip(j2 + 1),
                None => r is TtlUsage,
            },
            None => r is TtlUsage,
        }
    } else if starts_with(cmd, kw_kick()) {
        if argument(cmd, kw_kick()).len() > 0 {
            r matches ClientCommand::Kick(t) && t@ == argument(cmd, kw_kick())
        } else {
            r is Ignore
        }
    } else if starts_with(cmd, kw_ban()) {
        if argument(cmd, kw_ban()).len() > 0 {
            r matches ClientCommand::Ban(t) && t@ == argument(cmd, kw_ban())
        } else {
            r is Ignore
        }
    } else if cmd == kw_voice_sim() {
        r is VoiceSim
    } else {
        r matches ClientCommand::Chat(c) && c@ == cmd
    }
}

fn argument_of(cmd: &Vec<char>, kw: &[char]) -> (s: Vec<char>)
    requires
        kw@.len() > 0,
    ensures
        s@ == argument(cmd@, kw@),
{
    let stripped = strip_repeated_chars(cmd, kw);
    trim_chars(&stripped)
}

/// Messaging commands: `/msg` and `/ttl`.
fn parse_messaging(cmd: &Vec<char>) -> (r: ClientCommand)
    requires
        starts_with(cmd@, kw_msg()) || starts_with(cmd@, kw_ttl()),
    ensures
        starts_with(cmd@, kw_msg()) ==> match space_from(cmd@, 5) {
            Some(j) => r matches ClientCommand::DirectMessage { target, content }
                && target@ == cmd@.subrange(5, j) && content@ == cmd@.skip(j + 1),
            None => r is MsgUsage,
        },
        !starts_with(cmd@, kw_msg()) ==> match space_from(cmd@, 5) {
            Some(j1) => match space_from(cmd@, j1 + 1) {
                Some(j2) => r matches ClientCommand::Ttl { target, seconds, content }
                    && target@ == cmd@.subrange(5, j1) && seconds == ttl_seconds(cmd@.subrange(j1 + 1, j2))
                    && content@ == cmd@.skip(j2 + 1),
                None => r is TtlUsage,
            },
            None => r is TtlUsage,
        },
{
    let kw_msg_c = ['/', 'm', 's', 'g', ' '];
    assert(kw_msg_c@ =~= kw_msg());
    let n = cmd.len();
    if starts_with_chars(cmd, &kw_msg_c) {
        return match find_space(cmd, 5) {
            Some(j) => {
                let target = char_range(cmd, 5, j);
                let content = char_range(cmd, j + 1, n);
                assert(content@ =~= cmd@.skip(j + 1));
                ClientCommand::DirectMessage {
                    target: string_of(target.as_slice()),
                    content: string_of(content.as_slice()),
                }
            },
            None => ClientCommand::MsgUsage,
        };
    }
    let j1 = match find_space(cmd, 5) {
        Some(j) => j,
        None => { return ClientCommand::TtlUsage; },
    };
    let j2 = match find_space(cmd, j1 + 1) {
        Some(j) => j,
        None => { return ClientCommand::TtlUsage; },
    };
    let secs_chars = char_range(cmd, j1 + 1, j2);
    let seconds = match parse_u64(secs_chars.as_slice()) {
        Some(v) => v,
        None => DEFAULT_TTL_SECS,
    };
    let target = char_range(cmd, 5, j1);
    let content = char_range(cmd, j2 + 1, n);
    assert(content@ =~= cmd@.skip(j2 + 1));
    ClientCommand::Ttl { target: string_of(target.as_slice()), seconds, content: string_of(content.as_slice()) }
}

/// Commands after the file and vault ones.
fn parse_rest(cmd: &Vec<char>) -> (r: ClientCommand)
    ensures
        if starts_with(cmd@, kw_msg()) || starts_with(cmd@, kw_ttl()) {
            true
        } else if starts_with(cmd@, kw_kick()) {
            if argument(cmd@, kw_kick()).len() > 0 {
                r matches ClientCommand::Kick(t) && t@ == argument(cmd@, kw_kick())
            } else {
                r is Ignore
            }
        } else if starts_with(cmd@, kw_ban()) {
            if argument(cmd@, kw_ban()).len() > 0 {
                r matches ClientCommand::Ban(t) && t@ == argument(cmd@, kw_ban())
            } else {
                r is Ignore
            }
        } else if cmd@ == kw_voice_sim() {
            r is VoiceSim
        } else {
            r matches ClientCommand::Chat(c) && c@ == cmd@
        },
        starts_with(cmd@, kw_msg()) || starts_with(cmd@, kw_ttl()) ==> {
            starts_with(cmd@, kw_msg()) ==> match space_from(cmd@, 5) {
                Some(j) => r matches ClientCommand::DirectMessage { target, content }
                    && target@ == cmd@.subrange(5, j) && content@ == cmd@.skip(j + 1),
                None => r is MsgUsage,
            }
        },
        starts_with(cmd@, kw_ttl()) && !starts_with(cmd@, kw_msg()) ==> match space_from(cmd@, 5) {
            Some(j1) => match space_from(cmd@, j1 + 1) {
                Some(j2) => r matches ClientCommand::Ttl { target, seconds, content }
                    && target@ == cmd@.subrange(5, j1) && seconds == ttl_seconds(cmd@.subrange(j1 + 1, j2))
                    && content@ == cmd@.skip(j2 + 1),
                None => r is TtlUsage,
            },
            None => r is TtlUsage,
        },
{
    let kw_msg_c = ['/', 'm', 's', 'g', ' '];
    let kw_ttl_c = ['/', 't', 't', 'l', ' '];
    let kw_kick_c = ['/', 'k', 'i', 'c', 'k', ' '];
    let kw_ban_c = ['/', 'b', 'a', 'n', ' '];
    let kw_voice_sim_c = ['/', 'v', 'o', 'i', 'c', 'e', '_', 's', 'i', 'm'];
    assert(kw_msg_c@ =~= kw_msg());
    assert(kw_ttl_c@ =~= kw_ttl());
    assert(kw_kick_c@ =~= kw_kick());
    assert(kw_ban_c@ =~= kw_ban());
    assert(kw_voice_sim_c@ =~= kw_voice_sim());
    if starts_with_chars(cmd, &kw_msg_c) || starts_with_chars(cmd, &kw_ttl_c) {
        return parse_messaging(cmd);
    }
    if starts_with_chars(cmd, &kw_kick_c) {
        let t = argument_of(cmd, &kw_kick_c);
        if t.len() > 0 {
            return ClientCommand::Kick(string_of(t.as_slice()));
        }
        return ClientCommand::Ignore;
    }
    if starts_with_chars(cmd, &kw_ban_c) {
        let t = argument_of(cmd, &kw_ban_c);
        if t.len() > 0 {
            return ClientCommand::Ban(string_of(t.as_slice()));
        }
        return ClientCommand::Ignore;
    }
    if chars_eq(cmd, &kw_voice_sim_c) {
        return ClientCommand::VoiceSim;
    }
    ClientCommand::Chat(string_of(cmd.as_slice()))
}

/// Reads a line typed into the client (after trimming it).
pub fn parse_command(raw: &str) -> (r: ClientCommand)
    ensures
        command_matches(trim_spec(raw@), r),
{
    let chars = chars_of(raw);
    let cmd = trim_chars(&chars);
    let kw_send_c = ['/', 's', 'e', 'n', 'd'];
    let kw_get_c = ['/', 'g', 'e', 't', ' '];
    let kw_quit_c = ['/', 'q', 'u', 'i', 't'];
    let kw_nuke_c = ['/', 'n', 'u', 'k', 'e'];
    let kw_vault_put_c = ['/', 'v', 'a', 'u', 'l', 't', '_', 'p', 'u', 't', ' '];
    let kw_vault_get_c = ['/', 'v', 'a', 'u', 'l', 't', '_', 'g', 'e', 't', ' '];
    let kw_vault_list_c = ['/', 'v', 'a', 'u', 'l', 't', '_', 'l', 'i', 's', 't'];
    assert(kw_send_c@ =~= kw_send());
    assert(kw_get_c@ =~= kw_get());
    assert(kw_quit_c@ =~= kw_quit());
    assert(kw_nuke_c@ =~= kw_nuke());
    assert(kw_vault_put_c@ =~= kw_vault_put());
    assert(kw_vault_get_c@ =~= kw_vault_get());
    assert(kw_vault_list_c@ =~= kw_vault_list());

    if starts_with_chars(&cmd, &kw_send_c) {
        let p = argument_of(&cmd, &kw_send_c);
        return ClientCommand::Send(string_of(p.as_slice()));
    }
    if starts_with_chars(&cmd, &kw_get_c) {
        let rest = strip_repeated_chars(&cmd, &kw_get_c);
        return match parse_u32(rest.as_slice()) {
            Some(id) => ClientCommand::Get(id),
            None => ClientCommand::Ignore,
        };
    }
    if chars_eq(&cmd, &kw_quit_c) {
        return ClientCommand::Quit;
    }
    if chars_eq(&cmd, &kw_nuke_c) {
        return ClientCommand::Nuke;
    }
    if starts_with_chars(&cmd, &kw_vault_put_c) {
        let p = argument_of(&cmd, &kw_vault_put_c);
        return ClientCommand::VaultPut(string_of(p.as_slice()));
    }
    if starts_with_chars(&cmd, &kw_vault_get_c) {
        let p = argument_of(&cmd, &kw_vault_get_c);
        return ClientCommand::VaultGet(string_of(p.as_slice()));
    }
    if chars_eq(&cmd, &kw_vault_list_c) {
        return ClientCommand::VaultList;
    }
    parse_rest(&cmd)
}

} // verus!
