use cracktorio_bot::bridge::{bridge_actions, Outgoing};
use cracktorio_bot::Signal;

fn texts(out: Vec<Outgoing>) -> Vec<(char, String)> {
    out.into_iter()
        .map(|o| match o {
            Outgoing::Telegram(t) => ('T', t),
            Outgoing::Factorio(t) => ('F', t),
        })
        .collect()
}

#[test]
fn factorio_chat_goes_to_telegram_only() {
    let out = bridge_actions(Signal::MessageFromFactorio {
        username: "alice".to_string(),
        message: "hi".to_string(),
    });
    assert_eq!(texts(out), vec![('T', "alice: hi".to_string())]);
}

#[test]
fn telegram_chat_goes_to_factorio_only() {
    let out = bridge_actions(Signal::MessageFromTelegram {
        username: "bob".to_string(),
        message: "hello".to_string(),
    });
    assert_eq!(texts(out), vec![('F', "bob: hello".to_string())]);
}

#[test]
fn fff_goes_to_both_sides() {
    let out = bridge_actions(Signal::FffUpdate {
        title: "Friday Facts #400".to_string(),
        link: "https://www.factorio.com/blog/post/fff-400".to_string(),
    });
    assert_eq!(
        texts(out),
        vec![
            ('T', "Friday Facts #400\n\nhttps://www.factorio.com/blog/post/fff-400".to_string()),
            ('F', "FFF: Friday Facts #400".to_string()),
        ]
    );
}

#[test]
fn version_update_goes_to_telegram() {
    let out = bridge_actions(Signal::VersionUpdate("2.0.55".to_string()));
    assert_eq!(
        texts(out),
        vec![('T', "Factorio 2.0.55 is released! @wvffle update the server.".to_string())]
    );
}
