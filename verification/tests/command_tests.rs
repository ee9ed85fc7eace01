//! Command recognition and the help reply.

use irctweets::command::{extract_command, help_reply, ChatCommand};

#[test]
fn private_message_always_addresses_the_bot() {
    let c = extract_command("bot", "alice", "alice", "  help  ").unwrap();
    assert_eq!(c.message, "help");
    assert_eq!(c.response_target, "alice");
    assert_eq!(c.response_address, None);
}

#[test]
fn channel_message_with_nick_prefix_addresses_the_bot() {
    let c = extract_command("bot", "#chan", "alice", "bot: help").unwrap();
    assert_eq!(c.message, "help");
    assert_eq!(c.response_target, "#chan");
    assert_eq!(c.response_address, Some(String::from("alice")));
}

#[test]
fn channel_message_without_prefix_is_ordinary() {
    assert!(extract_command("bot", "#chan", "alice", "hello world").is_none());
    assert!(extract_command("bot", "#chan", "alice", "other: help").is_none());
    assert!(extract_command("bot", "#chan", "alice", "bot:").is_none());
    assert!(extract_command("bot", "#chan", "alice", "botling: help").is_none());
}

#[test]
fn help_reply_in_channel_addresses_the_sender() {
    let c = ChatCommand {
        message: String::from("help"),
        response_target: String::from("#chan"),
        response_address: Some(String::from("alice")),
    };
    let (target, text) = help_reply(&c, "I collect links.").unwrap();
    assert_eq!(target, "#chan");
    assert_eq!(text, "alice: I collect links.");
}

#[test]
fn help_reply_in_private_is_bare() {
    let c = ChatCommand {
        message: String::from("help"),
        response_target: String::from("alice"),
        response_address: None,
    };
    let (target, text) = help_reply(&c, "I collect links.").unwrap();
    assert_eq!(target, "alice");
    assert_eq!(text, "I collect links.");
}

#[test]
fn other_commands_draw_no_reply() {
    let c = ChatCommand {
        message: String::from("stats"),
        response_target: String::from("alice"),
        response_address: None,
    };
    assert!(help_reply(&c, "I collect links.").is_none());
}
