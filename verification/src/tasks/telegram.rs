//! Turning messages of the Telegram chat into signals for Factorio.
use vstd::prelude::*;
use crate::bridge::{signal_views, Signal, SignalView};

verus! {

/// The sender of a Telegram message, as far as the bridge reads it.
pub struct TelegramUser {
    pub username: Option<String>,
}

/// A Telegram message, as far as the bridge reads it.
pub struct TelegramMessage {
    pub from: Option<TelegramUser>,
    pub text: Option<String>,
    pub caption: Option<String>,
    pub has_photo: bool,
    pub has_video: bool,
}

/// The name a sender is shown with in Factorio.
pub open spec fn sender_name(user: TelegramUser) -> Seq<char> {
    match user.username {
        Some(name) => name@,
        None => "[TELEGRAM]"@,
    }
}

/// The texts a message is forwarded as, in order: a marker for a picture or video, the
/// text, the caption.
pub open spec fn forwarded_texts(msg: TelegramMessage) -> Seq<Seq<char>> {
    (if msg.has_photo || msg.has_video {
        seq!["[img]"@]
    } else {
        Seq::empty()
    }) + match msg.text {
        Some(text) => seq![text@],
        None => Seq::empty(),
    } + match msg.caption {
        Some(caption) => seq![caption@],
        None => Seq::empty(),
    }
}

/// The signals a message is forwarded as; a message without a sender is not forwarded.
pub open spec fn telegram_signals(msg: TelegramMessage) -> Seq<SignalView> {
    match msg.from {
        None => Seq::empty(),
        Some(user) => forwarded_texts(msg).map_values(
            |text: Seq<char>|
                SignalView::MessageFromTelegram { username: sender_name(user), message: text },
        ),
    }
}

/// The name of the sender of a message.
pub fn sender_username(user: &TelegramUser) -> (r: String)
    ensures
        r@ == sender_name(*user),
{
    match &user.username {
        Some(name) => name.clone(),
        None => String::from_str("[TELEGRAM]"),
    }
}

/// The signals to report for a message of the Telegram chat.
pub fn message_signals(msg: &TelegramMessage) -> (r: Vec<Signal>)
    ensures
        signal_views(r@) == telegram_signals(*msg),
        msg.from is None ==> r@.len() == 0,
        msg.from matches Some(user) ==> ({
            let name = match user.username {
                Some(n) => n@,
                None => "[TELEGRAM]"@,
            };
            let img = msg.has_photo || msg.has_video;
            let k = (if img { 1int } else { 0int }) + (if msg.text is Some { 1int } else { 0int })
                + (if msg.caption is Some { 1int } else { 0int });
            &&& signal_views(r@).len() == k
            &&& img ==> signal_views(r@)[0] == (SignalView::MessageFromTelegram { username: name, message: "[img]"@ })
            &&& (msg.text matches Some(t) ==> signal_views(r@)[if img { 1int } else { 0int }] == (
                SignalView::MessageFromTelegram { username: name, message: t@ }))
            &&& (msg.caption matches Some(c) ==> signal_views(r@)[k - 1] == (SignalView::MessageFromTelegram {
                username: name,
                message: c@,
            }))
        }),
{
    let mut r: Vec<Signal> = Vec::new();
    let user = match &msg.from {
        None => {
            assert(signal_views(r@) =~= telegram_signals(*msg));
            return r;
        },
        Some(user) => user,
    };
    let username = sender_username(user);
    if msg.has_photo || msg.has_video {
        r.push(
            Signal::MessageFromTelegram {
                username: username.clone(),
                message: String::from_str("[img]"),
            },
        );
    }
    if let Some(text) = &msg.text {
        r.push(Signal::MessageFromTelegram { username: username.clone(), message: text.clone() });
    }
    if let Some(caption) = &msg.caption {
        r.push(Signal::MessageFromTelegram { username: username.clone(), message: caption.clone() });
    }
    assert(signal_views(r@) =~= telegram_signals(*msg));
    proof {
        law_telegram_message_parts(*msg);
    }
    r
}

/// What a message with a sender is forwarded as, over all messages: one signal per part, in
/// order: `[img]` when it has a photo or a video (whether or not it has text), then its text,
/// then its caption, each under the sender's user name or `[TELEGRAM]`. A message without a
/// sender gives nothing.
pub proof fn law_telegram_message_parts(msg: TelegramMessage)
    ensures
        msg.from is None ==> telegram_signals(msg).len() == 0,
        msg.from matches Some(user) ==> ({
            let name = match user.username {
                Some(n) => n@,
                None => "[TELEGRAM]"@,
            };
            let img = msg.has_photo || msg.has_video;
            let k = (if img { 1int } else { 0int }) + (if msg.text is Some { 1int } else { 0int })
                + (if msg.caption is Some { 1int } else { 0int });
            &&& telegram_signals(msg).len() == k
            &&& img ==> telegram_signals(msg)[0] == (SignalView::MessageFromTelegram { username: name, message: "[img]"@ })
            &&& (msg.text matches Some(t) ==> telegram_signals(msg)[if img { 1int } else { 0int }] == (
                SignalView::MessageFromTelegram { username: name, message: t@ }))
            &&& (msg.caption matches Some(c) ==> telegram_signals(msg)[k - 1] == (SignalView::MessageFromTelegram {
                username: name,
                message: c@,
            }))
        }),
{
}

/// A message without a sender is never forwarded, and every forwarded text carries the
/// sender's name.
pub proof fn lemma_forwarded_with_sender(msg: TelegramMessage)
    ensures
        msg.from is None ==> telegram_signals(msg).len() == 0,
        msg.from matches Some(user) ==> forall|i: int|
            0 <= i < telegram_signals(msg).len() ==> (#[trigger] telegram_signals(msg)[i] matches
                SignalView::MessageFromTelegram { username, .. } && username == sender_name(user)),
{
}

} // verus!
