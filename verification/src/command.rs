//! Command recognition: decides whether a chat line addresses the bot
//! directly — any private message, or "botnick: text" in a channel — and, for
//! the one recognized command, builds the reply to send.

use vstd::prelude::*;
use vstd::string::StrSliceExecFns;
use crate::ingest::is_channel;
use crate::text::{has_prefix, push_str, str_eq, trim, trim_spec};

verus! {

/// A chat line addressed to the bot: the command body, where to reply, and
/// the nick to address the reply to when it goes back into a channel.
pub struct ChatCommand {
    pub message: String,
    pub response_target: String,
    pub response_address: Option<String>,
}

/// Whether the trimmed message `m` addresses the bot by its nick, in the
/// channel form "nick: text".
pub open spec fn is_addressed(me: Seq<char>, m: Seq<char>) -> bool {
    m.len() > me.len() + 1 && m.subrange(0, me.len() as int) == me && m[me.len() as int] == ':'
}

/// The command body of a channel message that addresses the bot: what
/// follows "nick:", trimmed.
pub open spec fn addressed_body(me: Seq<char>, m: Seq<char>) -> Seq<char> {
    trim_spec(m.subrange(me.len() as int + 1, m.len() as int))
}

/// Decides whether a chat line speaks to the bot. A private message always
/// does, with the reply going back to the sender. A channel message does
/// only in the form "me: text", with the reply going to the channel and
/// addressed to the sender. Anything else is an ordinary line.
pub fn extract_command(me: &str, target: &str, nick: &str, msg: &str) -> (r: Option<ChatCommand>)
    ensures
        ({
            let m = trim_spec(msg@);
            if !is_channel(target@) {
                &&& r matches Some(c)
                &&& c.message@ == m
                &&& c.response_target@ == nick@
                &&& c.response_address is None
            } else if is_addressed(me@, m) {
                &&& r matches Some(c)
                &&& c.message@ == addressed_body(me@, m)
                &&& c.response_target@ == target@
                &&& (c.response_address matches Some(a) && a@ == nick@)
            } else {
                r is None
            }
        }),
{
    let m = trim(msg);
    let target_len = target.unicode_len();
    if target_len == 0 || target.get_char(0) != '#' {
        return Some(
            ChatCommand {
                message: m.to_owned(),
                response_target: nick.to_owned(),
                response_address: None,
            },
        );
    }
    let me_len = me.unicode_len();
    let m_len = m.unicode_len();
    if m_len >= 2 && me_len <= m_len - 2 && m.get_char(me_len) == ':' && has_prefix(m, me) {
        assert(is_addressed(me@, m@));
        let body = trim(m.substring_char(me_len + 1, m_len));
        return Some(
            ChatCommand {
                message: body.to_owned(),
                response_target: target.to_owned(),
                response_address: Some(nick.to_owned()),
            },
        );
    }
    assert(!is_addressed(me@, m@));
    None
}

/// The one recognized command: a body that is exactly "help" draws the
/// configured help text, prefixed with the sender's nick when the reply goes
/// back into a channel; any other body draws no reply.
pub fn help_reply(command: &ChatCommand, help_msg: &str) -> (r: Option<(String, String)>)
    ensures
        ({
            if command.message@ == "help"@ {
                &&& r matches Some(p)
                &&& p.0@ == command.response_target@
                &&& p.1@ == (match command.response_address {
                    Some(a) => a@ + ": "@ + help_msg@,
                    None => help_msg@,
                })
            } else {
                r is None
            }
        }),
{
    if !str_eq(command.message.as_str(), "help") {
        return None;
    }
    let mut reply = String::new();
    match &command.response_address {
        Some(a) => {
            push_str(&mut reply, a.as_str());
            push_str(&mut reply, ": ");
        },
        None => {},
    }
    push_str(&mut reply, help_msg);
    Some((command.response_target.clone(), reply))
}

} // verus!
