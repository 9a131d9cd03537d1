//! The lines of Factorio's console log that the bridge reacts to.
//!
//! A line is read as UTF-8 bytes, the way `str` searches and cuts it: a chat line
//! `2024-01-01 12:00:00 [CHAT] alice: hello` names the player at byte 27, a join line
//! at byte 27 and a leave line at byte 28.
use vstd::prelude::*;
use vstd::utf8::*;
use crate::text::{
    bytes_contain, bytes_start_with, contains, cut, find_byte, find_byte_from, lemma_ascii_boundaries,
    lemma_find_byte, starts_with, text_between,
};

verus! {

/// Byte at which the player's name starts in join and chat lines.
pub const NAME_START: usize = 27;

/// Byte at which the player's name starts in leave lines.
pub const LEAVE_NAME_START: usize = 28;

/// The space that ends a player's name.
pub const SPACE: u8 = 32;

pub open spec fn opened_marker() -> Seq<u8> {
    encode_utf8("=== Log opened"@)
}

pub open spec fn closed_marker() -> Seq<u8> {
    encode_utf8("=== Log closed"@)
}

pub open spec fn join_tag() -> Seq<u8> {
    encode_utf8("[JOIN]"@)
}

pub open spec fn leave_tag() -> Seq<u8> {
    encode_utf8("[LEAVE]"@)
}

pub open spec fn chat_tag() -> Seq<u8> {
    encode_utf8("[CHAT]"@)
}

pub open spec fn gps_tag() -> Seq<u8> {
    encode_utf8("[gps="@)
}

/// End of the first word that starts at byte `from`.
pub open spec fn word_end(b: Seq<u8>, from: int) -> int {
    find_byte(b, from, SPACE)
}

/// The first word that starts at byte `from`.
pub open spec fn word_at(b: Seq<u8>, from: int) -> Seq<char> {
    text_between(b, from, word_end(b, from))
}

/// Name in a chat line: the first word after the tag, without its last byte (the colon).
pub open spec fn chat_user(b: Seq<u8>) -> Seq<char> {
    text_between(b, NAME_START as int, word_end(b, NAME_START as int) - 1)
}

/// Message in a chat line: everything after the space that ends the name.
pub open spec fn chat_message(b: Seq<u8>) -> Seq<char> {
    text_between(b, word_end(b, NAME_START as int) + 1, b.len() as int)
}

/// A chat line whose message the bridge forwards: not a map ping, not said by the server.
pub open spec fn is_forwarded_chat(b: Seq<u8>) -> bool {
    contains(b, chat_tag()) && !contains(b, gps_tag()) && chat_user(b) != "<server>"@
}

/// What a log line means to the bridge.
pub enum LogLineView {
    ServerStarted,
    ServerStopped,
    Joined(Seq<char>),
    Left(Seq<char>),
    Chat(Seq<char>, Seq<char>),
    Ignored,
}

/// The meaning of `line`; the checks are made in this order.
pub open spec fn log_line_kind(line: Seq<char>) -> LogLineView {
    let b = encode_utf8(line);
    if starts_with(b, opened_marker()) {
        LogLineView::ServerStarted
    } else if starts_with(b, closed_marker()) {
        LogLineView::ServerStopped
    } else if contains(b, join_tag()) {
        LogLineView::Joined(word_at(b, NAME_START as int))
    } else if contains(b, leave_tag()) {
        LogLineView::Left(word_at(b, LEAVE_NAME_START as int))
    } else if is_forwarded_chat(b) {
        LogLineView::Chat(chat_user(b), chat_message(b))
    } else {
        LogLineView::Ignored
    }
}

/// The lines that can be cut where the log format says: the name starts on a character
/// boundary, a chat name is not empty and ends on one, and a forwarded chat name is followed
/// by a space. On other lines `str` slicing panics.
pub open spec fn log_line_accepted(line: Seq<char>) -> bool {
    let b = encode_utf8(line);
    if starts_with(b, opened_marker()) || starts_with(b, closed_marker()) {
        true
    } else if contains(b, join_tag()) {
        is_char_boundary(b, NAME_START as int)
    } else if contains(b, leave_tag()) {
        is_char_boundary(b, LEAVE_NAME_START as int)
    } else if contains(b, chat_tag()) && !contains(b, gps_tag()) {
        &&& is_char_boundary(b, NAME_START as int)
        &&& word_end(b, NAME_START as int) > NAME_START
        &&& is_char_boundary(b, word_end(b, NAME_START as int) - 1)
        &&& chat_user(b) != "<server>"@ ==> word_end(b, NAME_START as int) < b.len()
    } else {
        true
    }
}

/// A log line, classified.
pub enum LogLine {
    ServerStarted,
    ServerStopped,
    Joined(String),
    Left(String),
    Chat { user: String, message: String },
    Ignored,
}

impl View for LogLine {
    type V = LogLineView;

    open spec fn view(&self) -> LogLineView {
        match self {
            LogLine::ServerStarted => LogLineView::ServerStarted,
            LogLine::ServerStopped => LogLineView::ServerStopped,
            LogLine::Joined(name) => LogLineView::Joined(name@),
            LogLine::Left(name) => LogLineView::Left(name@),
            LogLine::Chat { user, message } => LogLineView::Chat(user@, message@),
            LogLine::Ignored => LogLineView::Ignored,
        }
    }
}

/// The first word of `line` that starts at byte `from`.
fn word_from(line: &str, from: usize) -> (r: String)
    requires
        is_char_boundary(encode_utf8(line@), from as int),
    ensures
        r@ == word_at(encode_utf8(line@), from as int),
{
    let b = line.as_bytes();
    let ghost bs = encode_utf8(line@);
    proof {
        encode_utf8_valid_utf8(line@);
    }
    let e = find_byte_from(b, from, SPACE);
    proof {
        lemma_find_byte(bs, from as int, SPACE);
        if e < bs.len() {
            lemma_ascii_boundaries(bs, e as int);
        } else {
            is_char_boundary_start_end_of_seq(bs);
        }
    }
    cut(line, from, e)
}

/// Whether `line` is one of those that `classify_log_line` accepts.
pub fn log_line_is_accepted(line: &str) -> (r: bool)
    ensures
        r == log_line_accepted(line@),
{
    let b = line.as_bytes();
    let ghost bs = encode_utf8(line@);
    proof {
        encode_utf8_valid_utf8(line@);
    }
    if bytes_start_with(b, "=== Log opened".as_bytes()) || bytes_start_with(
        b,
        "=== Log closed".as_bytes(),
    ) {
        return true;
    }
    if bytes_contain(b, "[JOIN]".as_bytes()) {
        return line.is_char_boundary(NAME_START);
    }
    if bytes_contain(b, "[LEAVE]".as_bytes()) {
        return line.is_char_boundary(LEAVE_NAME_START);
    }
    if bytes_contain(b, "[CHAT]".as_bytes()) && !bytes_contain(b, "[gps=".as_bytes()) {
        if !line.is_char_boundary(NAME_START) {
            return false;
        }
        let e = find_byte_from(b, NAME_START, SPACE);
        if e <= NAME_START || !line.is_char_boundary(e - 1) {
            return false;
        }
        proof {
            lemma_find_byte(bs, NAME_START as int, SPACE);
            is_char_boundary_start_end_of_seq(bs);
        }
        let user = cut(line, NAME_START, e - 1);
        let server = String::from_str("<server>");
        if user == server {
            return true;
        }
        return e < b.len();
    }
    true
}

/// Classifies a console log line.
pub fn classify_log_line(line: &str) -> (r: LogLine)
    requires
        log_line_accepted(line@),
    ensures
        r@ == log_line_kind(line@),
{
    let b = line.as_bytes();
    let ghost bs = encode_utf8(line@);
    proof {
        encode_utf8_valid_utf8(line@);
    }
    if bytes_start_with(b, "=== Log opened".as_bytes()) {
        return LogLine::ServerStarted;
    }
    if bytes_start_with(b, "=== Log closed".as_bytes()) {
        return LogLine::ServerStopped;
    }
    if bytes_contain(b, "[JOIN]".as_bytes()) {
        return LogLine::Joined(word_from(line, NAME_START));
    }
    if bytes_contain(b, "[LEAVE]".as_bytes()) {
        return LogLine::Left(word_from(line, LEAVE_NAME_START));
    }
    if bytes_contain(b, "[CHAT]".as_bytes()) && !bytes_contain(b, "[gps=".as_bytes()) {
        let e = find_byte_from(b, NAME_START, SPACE);
        proof {
            lemma_find_byte(bs, NAME_START as int, SPACE);
            is_char_boundary_start_end_of_seq(bs);
        }
        let user = cut(line, NAME_START, e - 1);
        let server = String::from_str("<server>");
        if !(user == server) {
            proof {
                assert(e < b.len());
                lemma_ascii_boundaries(bs, e as int);
            }
            let message = cut(line, e + 1, b.len());
            return LogLine::Chat { user, message };
        }
    }
    LogLine::Ignored
}

/// The server's own chat lines are never taken for chat: what the bridge itself sends to the
/// game comes back in the log as chat of `<server>`, and is not sent back.
pub proof fn lemma_server_chat_not_forwarded(line: Seq<char>)
    ensures
        log_line_kind(line) matches LogLineView::Chat(user, _) ==> user != "<server>"@,
{
}

/// A chat line with a map ping (`[gps=`) is never taken for chat.
pub proof fn lemma_map_pings_not_forwarded(line: Seq<char>)
    ensures
        contains(encode_utf8(line), gps_tag()) ==> !(log_line_kind(line) is Chat),
{
}

} // verus!
