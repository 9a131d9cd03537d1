use cracktorio_bot::tasks::telegram::{message_signals, sender_username, TelegramMessage, TelegramUser};
use cracktorio_bot::telegram::chat_lines;
use cracktorio_bot::Signal;

fn msg(
    from: Option<Option<&str>>,
    text: Option<&str>,
    caption: Option<&str>,
    photo: bool,
    video: bool,
) -> TelegramMessage {
    TelegramMessage {
        from: from.map(|u| TelegramUser { username: u.map(|s| s.to_string()) }),
        text: text.map(|s| s.to_string()),
        caption: caption.map(|s| s.to_string()),
        has_photo: photo,
        has_video: video,
    }
}

fn pairs(signals: Vec<Signal>) -> Vec<(String, String)> {
    signals
        .into_iter()
        .map(|s| match s {
            Signal::MessageFromTelegram { username, message } => (username, message),
            _ => panic!("unexpected signal"),
        })
        .collect()
}

fn p(u: &str, m: &str) -> (String, String) {
    (u.to_string(), m.to_string())
}

#[test]
fn text_message_is_forwarded() {
    let out = message_signals(&msg(Some(Some("alice")), Some("hi"), None, false, false));
    assert_eq!(pairs(out), vec![p("alice", "hi")]);
}

#[test]
fn message_without_sender_is_dropped() {
    let out = message_signals(&msg(None, Some("hi"), Some("c"), true, true));
    assert!(out.is_empty());
    assert!(chat_lines(&msg(None, Some("hi"), None, false, false)).is_empty());
}

#[test]
fn sender_without_username() {
    let out = message_signals(&msg(Some(None), Some("hi"), None, false, false));
    assert_eq!(pairs(out), vec![p("[TELEGRAM]", "hi")]);
    assert_eq!(sender_username(&TelegramUser { username: None }), "[TELEGRAM]");
}

#[test]
fn photo_with_caption_in_order() {
    let out = message_signals(&msg(Some(Some("bob")), None, Some("look"), true, false));
    assert_eq!(pairs(out), vec![p("bob", "[img]"), p("bob", "look")]);
}

#[test]
fn video_text_and_caption_in_order() {
    let out = message_signals(&msg(Some(Some("bob")), Some("t"), Some("c"), false, true));
    assert_eq!(pairs(out), vec![p("bob", "[img]"), p("bob", "t"), p("bob", "c")]);
}

#[test]
fn empty_message_is_dropped() {
    assert!(message_signals(&msg(Some(Some("bob")), None, None, false, false)).is_empty());
}

#[test]
fn chat_lines_prefix_the_sender() {
    let lines = chat_lines(&msg(Some(Some("eve")), Some("hey"), Some("cap"), true, false));
    assert_eq!(lines, vec!["eve: [img]".to_string(), "eve: hey".to_string(), "eve: cap".to_string()]);
}
