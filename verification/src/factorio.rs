//! Announcing Factorio console log lines as single chat lines.
use vstd::prelude::*;
use crate::bridge::{deliveries, OutgoingView, SignalView};
use crate::log_line::{classify_log_line, log_line_accepted, log_line_kind, LogLine, LogLineView};
use crate::tasks::factorio::parsed_message;

verus! {

/// The chat line that a log line of the given kind is announced with.
pub open spec fn announcement(kind: LogLineView) -> Option<Seq<char>> {
    match kind {
        LogLineView::ServerStarted => Some("=== Server Started ==="@),
        LogLineView::ServerStopped => Some("=== Server Stopped ==="@),
        LogLineView::Joined(name) => Some(name + " joined the game"@),
        LogLineView::Left(name) => Some(name + " left the game"@),
        LogLineView::Chat(user, message) => Some(user + ": "@ + message),
        LogLineView::Ignored => None,
    }
}

/// The chat line to announce for a console log line, if the line is one the bridge forwards.
pub fn read_log(line: &str) -> (r: Option<String>)
    requires
        log_line_accepted(line@),
    ensures
        match r {
            Some(text) => announcement(log_line_kind(line@)) == Some(text@),
            None => announcement(log_line_kind(line@)) is None,
        },
{
    match classify_log_line(line) {
        LogLine::ServerStarted => Some(String::from_str("=== Server Started ===")),
        LogLine::ServerStopped => Some(String::from_str("=== Server Stopped ===")),
        LogLine::Joined(name) => Some(name.concat(" joined the game")),
        LogLine::Left(name) => Some(name.concat(" left the game")),
        LogLine::Chat { user, message } => Some(user.concat(": ").concat(message.as_str())),
        LogLine::Ignored => None,
    }
}

/// A log line is announced as a single chat line exactly when it is forwarded as a message,
/// and the chat line of a player's chat is what the bridge sends to Telegram for it.
pub proof fn lemma_announcement_matches_forwarding(line: Seq<char>)
    ensures
        announcement(log_line_kind(line)) is Some <==> parsed_message(log_line_kind(line)) is Some,
        log_line_kind(line) is Chat ==> ({
            let (username, message) = parsed_message(log_line_kind(line))->Some_0;
            deliveries(SignalView::MessageFromFactorio { username, message }) == seq![
                OutgoingView::Telegram(announcement(log_line_kind(line))->Some_0),
            ]
        }),
{
}

} // verus!
