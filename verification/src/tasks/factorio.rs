//! Turning Factorio console log lines into chat messages for Telegram.
use vstd::prelude::*;
use crate::log_line::{classify_log_line, log_line_accepted, log_line_kind, LogLine, LogLineView};
use crate::text::{contains, find_byte, starts_with, text_between};
use vstd::utf8::encode_utf8;

verus! {

/// The sender and text that a log line of the given kind is reported with.
pub open spec fn parsed_message(kind: LogLineView) -> Option<(Seq<char>, Seq<char>)> {
    match kind {
        LogLineView::ServerStarted => Some(("[server]"@, "Starting..."@)),
        LogLineView::ServerStopped => Some(("[server]"@, "Stopping..."@)),
        LogLineView::Joined(name) => Some(("[server]"@, name + " joined the game"@)),
        LogLineView::Left(name) => Some(("[server]"@, name + " left the game"@)),
        LogLineView::Chat(user, message) => Some((user, message)),
        LogLineView::Ignored => None,
    }
}

/// Every chat line is reported, whatever its text holds (item tags, brackets, anything
/// else), unless an earlier kind (start, stop, join, leave) takes it, it holds a map ping
/// `[gps=`, or `<server>` said it: with the word at byte 27 without its colon as the
/// sender, and everything after the space that ends that word as the message.
pub proof fn law_chat_lines_are_forwarded(line: Seq<char>)
    requires
        !starts_with(encode_utf8(line), encode_utf8("=== Log opened"@)),
        !starts_with(encode_utf8(line), encode_utf8("=== Log closed"@)),
        !contains(encode_utf8(line), encode_utf8("[JOIN]"@)),
        !contains(encode_utf8(line), encode_utf8("[LEAVE]"@)),
        contains(encode_utf8(line), encode_utf8("[CHAT]"@)),
        !contains(encode_utf8(line), encode_utf8("[gps="@)),
        text_between(encode_utf8(line), 27, find_byte(encode_utf8(line), 27, 32) - 1) != "<server>"@,
    ensures
        ({
            let b = encode_utf8(line);
            let e = find_byte(b, 27, 32);
            &&& log_line_kind(line) == LogLineView::Chat(text_between(b, 27, e - 1), text_between(b, e + 1, b.len() as int))
            &&& parsed_message(log_line_kind(line)) == Some((text_between(b, 27, e - 1), text_between(b, e + 1, b.len() as int)))
        }),
{
}

/// The views of a sender and a text.
pub open spec fn message_view(m: Option<(String, String)>) -> Option<(Seq<char>, Seq<char>)> {
    match m {
        Some((u, t)) => Some((u@, t@)),
        None => None,
    }
}

/// The sender and text to forward for a console log line, if the line is one the bridge
/// forwards. Lines that the server itself said in chat are never forwarded.
pub fn parse_log_line(line: String) -> (r: Option<(String, String)>)
    requires
        log_line_accepted(line@),
    ensures
        message_view(r) == parsed_message(log_line_kind(line@)),
        r matches Some((user, _)) ==> user@ != "<server>"@,
        ({
            &&& !starts_with(encode_utf8(line@), encode_utf8("=== Log opened"@))
            &&& !starts_with(encode_utf8(line@), encode_utf8("=== Log closed"@))
            &&& !contains(encode_utf8(line@), encode_utf8("[JOIN]"@))
            &&& !contains(encode_utf8(line@), encode_utf8("[LEAVE]"@))
            &&& contains(encode_utf8(line@), encode_utf8("[CHAT]"@))
            &&& !contains(encode_utf8(line@), encode_utf8("[gps="@))
            &&& text_between(encode_utf8(line@), 27, find_byte(encode_utf8(line@), 27, 32) - 1) != "<server>"@
        }) ==> message_view(r) == Some(
            (
                text_between(encode_utf8(line@), 27, find_byte(encode_utf8(line@), 27, 32) - 1),
                text_between(
                    encode_utf8(line@),
                    find_byte(encode_utf8(line@), 27, 32) + 1,
                    encode_utf8(line@).len() as int,
                ),
            ),
        ),
{
    proof {
        let b = encode_utf8(line@);
        if !starts_with(b, encode_utf8("=== Log opened"@)) && !starts_with(b, encode_utf8("=== Log closed"@))
            && !contains(b, encode_utf8("[JOIN]"@)) && !contains(b, encode_utf8("[LEAVE]"@))
            && contains(b, encode_utf8("[CHAT]"@)) && !contains(b, encode_utf8("[gps="@))
            && text_between(b, 27, find_byte(b, 27, 32) - 1) != "<server>"@ {
            law_chat_lines_are_forwarded(line@);
        }
        reveal_strlit("[server]");
        reveal_strlit("<server>");
        assert("[server]"@[0] != "<server>"@[0]);
    }
    match classify_log_line(line.as_str()) {
        LogLine::ServerStarted => Some((String::from_str("[server]"), String::from_str("Starting..."))),
        LogLine::ServerStopped => Some((String::from_str("[server]"), String::from_str("Stopping..."))),
        LogLine::Joined(name) => Some((String::from_str("[server]"), name.concat(" joined the game"))),
        LogLine::Left(name) => Some((String::from_str("[server]"), name.concat(" left the game"))),
        LogLine::Chat { user, message } => Some((user, message)),
        LogLine::Ignored => None,
    }
}

} // verus!
