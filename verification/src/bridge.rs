//! The events that the tasks report, and where the bridge sends each of them.
use vstd::prelude::*;

verus! {

/// An event reported by one of the tasks.
pub enum Signal {
    MessageFromFactorio { username: String, message: String },
    MessageFromTelegram { username: String, message: String },
    FffUpdate { title: String, link: String },
    VersionUpdate(String),
}

/// A `Signal` with its texts as character sequences.
pub enum SignalView {
    MessageFromFactorio { username: Seq<char>, message: Seq<char> },
    MessageFromTelegram { username: Seq<char>, message: Seq<char> },
    FffUpdate { title: Seq<char>, link: Seq<char> },
    VersionUpdate(Seq<char>),
}

impl View for Signal {
    type V = SignalView;

    open spec fn view(&self) -> SignalView {
        match self {
            Signal::MessageFromFactorio { username, message } => SignalView::MessageFromFactorio {
                username: username@,
                message: message@,
            },
            Signal::MessageFromTelegram { username, message } => SignalView::MessageFromTelegram {
                username: username@,
                message: message@,
            },
            Signal::FffUpdate { title, link } => SignalView::FffUpdate {
                title: title@,
                link: link@,
            },
            Signal::VersionUpdate(version) => SignalView::VersionUpdate(version@),
        }
    }
}

/// The views of a list of signals.
pub open spec fn signal_views(list: Seq<Signal>) -> Seq<SignalView> {
    list.map_values(|s: Signal| s@)
}

/// A message to deliver: to the Telegram chat, or to the Factorio server through RCON.
pub enum Outgoing {
    Telegram(String),
    Factorio(String),
}

/// An `Outgoing` with its text as a character sequence.
pub enum OutgoingView {
    Telegram(Seq<char>),
    Factorio(Seq<char>),
}

impl View for Outgoing {
    type V = OutgoingView;

    open spec fn view(&self) -> OutgoingView {
        match self {
            Outgoing::Telegram(text) => OutgoingView::Telegram(text@),
            Outgoing::Factorio(text) => OutgoingView::Factorio(text@),
        }
    }
}

/// The views of a list of outgoing messages.
pub open spec fn outgoing_views(list: Seq<Outgoing>) -> Seq<OutgoingView> {
    list.map_values(|o: Outgoing| o@)
}

/// The messages that the bridge sends for a signal, in the order it sends them.
pub open spec fn deliveries(signal: SignalView) -> Seq<OutgoingView> {
    match signal {
        SignalView::MessageFromFactorio { username, message } => seq![
            OutgoingView::Telegram(username + ": "@ + message),
        ],
        SignalView::MessageFromTelegram { username, message } => seq![
            OutgoingView::Factorio(username + ": "@ + message),
        ],
        SignalView::FffUpdate { title, link } => seq![
            OutgoingView::Telegram(title + "\n\n"@ + link),
            OutgoingView::Factorio("FFF: "@ + title),
        ],
        SignalView::VersionUpdate(version) => seq![
            OutgoingView::Telegram(
                "Factorio "@ + version + " is released! @wvffle update the server."@,
            ),
        ],
    }
}

/// Where each signal goes and with which text, over all signals: chat said in Factorio goes
/// to Telegram, and chat said in Telegram to Factorio, each once as `name: message` with the
/// whole message; a Friday Facts post goes to Telegram as title, blank line, link and to
/// Factorio as `FFF: title`; a release goes to Telegram once.
pub proof fn law_signal_routes(signal: SignalView)
    ensures
        signal matches SignalView::MessageFromFactorio { username, message } ==> deliveries(signal)
            == seq![OutgoingView::Telegram(username + ": "@ + message)],
        signal matches SignalView::MessageFromTelegram { username, message } ==> deliveries(signal)
            == seq![OutgoingView::Factorio(username + ": "@ + message)],
        signal matches SignalView::FffUpdate { title, link } ==> deliveries(signal) == seq![
            OutgoingView::Telegram(title + "\n\n"@ + link),
            OutgoingView::Factorio("FFF: "@ + title),
        ],
        signal matches SignalView::VersionUpdate(version) ==> deliveries(signal) == seq![
            OutgoingView::Telegram("Factorio "@ + version + " is released! @wvffle update the server."@),
        ],
{
}

/// The messages that the bridge sends for `signal`. A chat message goes only to the other
/// side: what was said in Factorio to Telegram, what was said in Telegram to Factorio.
pub fn bridge_actions(signal: Signal) -> (r: Vec<Outgoing>)
    ensures
        outgoing_views(r@) == deliveries(signal@),
        signal@ is MessageFromFactorio ==> forall|i: int|
            0 <= i < r@.len() ==> r@[i] is Telegram,
        signal@ is MessageFromTelegram ==> forall|i: int|
            0 <= i < r@.len() ==> r@[i] is Factorio,
        signal@ matches SignalView::MessageFromFactorio { username, message } ==> r@.len() == 1
            && r@[0]@ == OutgoingView::Telegram(username + ": "@ + message),
        signal@ matches SignalView::MessageFromTelegram { username, message } ==> r@.len() == 1
            && r@[0]@ == OutgoingView::Factorio(username + ": "@ + message),
        signal@ matches SignalView::FffUpdate { title, link } ==> r@.len() == 2
            && r@[0]@ == OutgoingView::Telegram(title + "\n\n"@ + link)
            && r@[1]@ == OutgoingView::Factorio("FFF: "@ + title),
        signal@ matches SignalView::VersionUpdate(version) ==> r@.len() == 1 && r@[0]@
            == OutgoingView::Telegram("Factorio "@ + version + " is released! @wvffle update the server."@),
{
    let mut r: Vec<Outgoing> = Vec::new();
    match signal {
        Signal::MessageFromFactorio { username, message } => {
            r.push(Outgoing::Telegram(username.concat(": ").concat(message.as_str())));
        },
        Signal::MessageFromTelegram { username, message } => {
            r.push(Outgoing::Factorio(username.concat(": ").concat(message.as_str())));
        },
        Signal::FffUpdate { title, link } => {
            let to_telegram = title.clone().concat("\n\n").concat(link.as_str());
            let to_factorio = String::from_str("FFF: ").concat(title.as_str());
            r.push(Outgoing::Telegram(to_telegram));
            r.push(Outgoing::Factorio(to_factorio));
        },
        Signal::VersionUpdate(version) => {
            let text = String::from_str("Factorio ").concat(version.as_str()).concat(
                " is released! @wvffle update the server.",
            );
            r.push(Outgoing::Telegram(text));
        },
    }
    assert(outgoing_views(r@) =~= deliveries(signal@));
    proof {
        law_signal_routes(signal@);
        assert(outgoing_views(r@).len() == r@.len());
    }
    r
}

} // verus!
