//! Turning messages of the Telegram chat into single chat lines for Factorio.
use vstd::prelude::*;
use crate::tasks::telegram::{forwarded_texts, sender_name, sender_username, TelegramMessage};
use crate::text::texts;

verus! {

/// The chat lines a message is forwarded as; a message without a sender is not forwarded.
pub open spec fn telegram_lines(msg: TelegramMessage) -> Seq<Seq<char>> {
    match msg.from {
        None => Seq::empty(),
        Some(user) => forwarded_texts(msg).map_values(
            |text: Seq<char>| sender_name(user) + ": "@ + text,
        ),
    }
}

/// What a message with a sender is sent to Factorio as, over all messages: one line
/// `name: part` per part, in order: `[img]` when it has a photo or a video, then its text
/// (whether or not it has a picture), then its caption, with the sender's user name or
/// `[TELEGRAM]`. A message without a sender gives no line.
pub proof fn law_telegram_lines(msg: TelegramMessage)
    ensures
        msg.from is None ==> telegram_lines(msg).len() == 0,
        msg.from matches Some(user) ==> ({
            let name = match user.username {
                Some(n) => n@,
                None => "[TELEGRAM]"@,
            };
            let img = msg.has_photo || msg.has_video;
            let k = (if img { 1int } else { 0int }) + (if msg.text is Some { 1int } else { 0int })
                + (if msg.caption is Some { 1int } else { 0int });
            &&& telegram_lines(msg).len() == k
            &&& img ==> telegram_lines(msg)[0] == name + ": "@ + "[img]"@
            &&& (msg.text matches Some(t) ==> telegram_lines(msg)[if img { 1int } else { 0int }] == name + ": "@ + t@)
            &&& (msg.caption matches Some(c) ==> telegram_lines(msg)[k - 1] == name + ": "@ + c@)
        }),
{
}

/// The chat lines, `name: text`, to send to Factorio for a message of the Telegram chat.
pub fn chat_lines(msg: &TelegramMessage) -> (r: Vec<String>)
    ensures
        texts(r@) == telegram_lines(*msg),
        msg.from is None ==> r@.len() == 0,
        msg.from matches Some(user) ==> ({
            let name = match user.username {
                Some(n) => n@,
                None => "[TELEGRAM]"@,
            };
            let img = msg.has_photo || msg.has_video;
            let k = (if img { 1int } else { 0int }) + (if msg.text is Some { 1int } else { 0int })
                + (if msg.caption is Some { 1int } else { 0int });
            &&& texts(r@).len() == k
            &&& img ==> texts(r@)[0] == name + ": "@ + "[img]"@
            &&& (msg.text matches Some(t) ==> texts(r@)[if img { 1int } else { 0int }] == name + ": "@ + t@)
            &&& (msg.caption matches Some(c) ==> texts(r@)[k - 1] == name + ": "@ + c@)
        }),
{
    let mut r: Vec<String> = Vec::new();
    let user = match &msg.from {
        None => {
            assert(texts(r@) =~= telegram_lines(*msg));
            return r;
        },
        Some(user) => user,
    };
    let prefix = sender_username(user).concat(": ");
    if msg.has_photo || msg.has_video {
        r.push(prefix.clone().concat("[img]"));
    }
    if let Some(text) = &msg.text {
        r.push(prefix.clone().concat(text.as_str()));
    }
    if let Some(caption) = &msg.caption {
        r.push(prefix.clone().concat(caption.as_str()));
    }
    assert(texts(r@) =~= telegram_lines(*msg));
    proof {
        law_telegram_lines(*msg);
    }
    r
}

} // verus!
