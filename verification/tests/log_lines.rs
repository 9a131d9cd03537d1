use cracktorio_bot::bridge::{bridge_actions, Outgoing};
use cracktorio_bot::Signal;
use cracktorio_bot::factorio::read_log;
use cracktorio_bot::log_line::{classify_log_line, log_line_is_accepted, LogLine};
use cracktorio_bot::tasks::factorio::parse_log_line;

fn parse(line: &str) -> Option<(String, String)> {
    assert!(log_line_is_accepted(line));
    parse_log_line(line.to_string())
}

fn pair(user: &str, message: &str) -> Option<(String, String)> {
    Some((user.to_string(), message.to_string()))
}

#[test]
fn chat_line_is_forwarded_with_its_sender() {
    assert_eq!(parse("2024-05-19 10:22:17 [CHAT] alice: hello there"), pair("alice", "hello there"));
}

#[test]
fn chat_message_keeps_colons_and_spaces() {
    assert_eq!(
        parse("2024-05-19 10:22:17 [CHAT] bob: see: the  base"),
        pair("bob", "see: the  base")
    );
}

#[test]
fn chat_with_non_ascii_name_and_text() {
    assert_eq!(
        parse("2024-05-19 10:22:17 [CHAT] Łukasz: cześć wszystkim"),
        pair("Łukasz", "cześć wszystkim")
    );
}

#[test]
fn server_chat_is_not_forwarded() {
    assert_eq!(parse("2024-05-19 10:22:17 [CHAT] <server>: alice: hi"), None);
}

#[test]
fn server_chat_without_message_is_not_forwarded() {
    assert_eq!(parse("2024-05-19 10:22:17 [CHAT] <server>:"), None);
}

#[test]
fn gps_ping_is_not_forwarded() {
    assert_eq!(parse("2024-05-19 10:22:17 [CHAT] alice: [gps=10,20]"), None);
}

#[test]
fn join_line() {
    assert_eq!(
        parse("2024-05-19 10:22:17 [JOIN] alice joined the game"),
        pair("[server]", "alice joined the game")
    );
}

#[test]
fn leave_line() {
    assert_eq!(
        parse("2024-05-19 10:22:17 [LEAVE] alice left the game"),
        pair("[server]", "alice left the game")
    );
}

#[test]
fn join_name_runs_to_end_of_line() {
    assert_eq!(parse("2024-05-19 10:22:17 [JOIN] alice"), pair("[server]", "alice joined the game"));
}

#[test]
fn log_opened_and_closed() {
    assert_eq!(
        parse("=== Log opened 2024-05-19 10:00:00 ==="),
        pair("[server]", "Starting...")
    );
    assert_eq!(
        parse("=== Log closed 2024-05-19 11:00:00 ==="),
        pair("[server]", "Stopping...")
    );
}

#[test]
fn other_lines_are_ignored() {
    assert_eq!(parse("2024-05-19 10:22:17 [COMMAND] alice (command): /time"), None);
    assert_eq!(parse(""), None);
    assert_eq!(parse("   0.000 Info main.cpp:1: Factorio"), None);
}

#[test]
fn join_before_chat_in_order_of_checks() {
    assert_eq!(
        parse("2024-05-19 10:22:17 [JOIN] bob [CHAT] x"),
        pair("[server]", "bob joined the game")
    );
}

#[test]
fn lines_that_cannot_be_cut_are_refused() {
    assert!(!log_line_is_accepted("[CHAT] short"));
    assert!(!log_line_is_accepted("[JOIN]"));
    assert!(!log_line_is_accepted("2024-05-19 10:22:17 [CHAT]  x"));
    assert!(!log_line_is_accepted("2024-05-19 10:22:17 [CHAT] abcŁ"));
    assert!(!log_line_is_accepted("2024-05-19 10:22:17 [CHAT] alice:"));
    assert!(log_line_is_accepted("2024-05-19 10:22:17 [CHAT] alice: "));
    assert!(log_line_is_accepted("[CHAT] short [gps=1,1]"));
    assert!(log_line_is_accepted("nothing here"));
}

#[test]
fn chat_with_empty_message() {
    assert_eq!(parse("2024-05-19 10:22:17 [CHAT] alice: "), pair("alice", ""));
}

#[test]
fn classify_gives_the_parts() {
    match classify_log_line("2024-05-19 10:22:17 [CHAT] carol: gg") {
        LogLine::Chat { user, message } => {
            assert_eq!(user, "carol");
            assert_eq!(message, "gg");
        }
        _ => panic!("not a chat line"),
    }
    assert!(matches!(classify_log_line("x"), LogLine::Ignored));
}

#[test]
fn read_log_announces_single_lines() {
    assert_eq!(read_log("=== Log opened x"), Some("=== Server Started ===".to_string()));
    assert_eq!(read_log("=== Log closed x"), Some("=== Server Stopped ===".to_string()));
    assert_eq!(
        read_log("2024-05-19 10:22:17 [JOIN] dave joined the game"),
        Some("dave joined the game".to_string())
    );
    assert_eq!(
        read_log("2024-05-19 10:22:17 [LEAVE] dave left the game"),
        Some("dave left the game".to_string())
    );
    assert_eq!(
        read_log("2024-05-19 10:22:17 [CHAT] dave: hi all"),
        Some("dave: hi all".to_string())
    );
    assert_eq!(read_log("2024-05-19 10:22:17 [CHAT] <server>: hi"), None);
    assert_eq!(read_log("nothing"), None);
}

#[test]
fn announced_chat_line_is_what_the_bridge_sends() {
    let line = "2024-05-19 10:22:17 [CHAT] erin: to the moon";
    let (username, message) = parse(line).unwrap();
    let sent = bridge_actions(Signal::MessageFromFactorio { username, message });
    match &sent[..] {
        [Outgoing::Telegram(text)] => assert_eq!(Some(text.clone()), read_log(line)),
        _ => panic!("expected one message to Telegram"),
    }
}
