use std::cell::RefCell;
use std::rc::Rc;

use cracktorio_bot::feed_admission::feed_is_admitted;
use cracktorio_bot::fff::feed_message;
use cracktorio_bot::state::{PersistedState, State};
use cracktorio_bot::tasks::scrapper::{
    check_fff, check_version, latest_post, record_fff, record_version, release_selector,
    version_of, FeedPost,
};
use cracktorio_bot::Signal;

const RSS: &str = r#"<?xml version="1.0" encoding="UTF-8"?>
<rss version="2.0"><channel><title>Factorio</title><link>https://www.factorio.com/blog/</link>
<description>News</description>
<item><title>Friday Facts #400 - Ten years</title><link>https://www.factorio.com/blog/post/fff-400</link></item>
<item><title>Friday Facts #399</title><link>https://www.factorio.com/blog/post/fff-399</link></item>
</channel></rss>"#;

const HOME: &str = r#"<html><body>
<div class="box-releases">
<dl><dt>Stable:</dt><dd> 2.0.55 </dd></dl>
<dl><dt>Experimental:</dt><dd>2.0.<b>60</b></dd></dl>
</div></body></html>"#;

type Saves = Rc<RefCell<Vec<(String, String)>>>;

fn state(current: &str, latest: &str, fff: &str) -> (PersistedState<State, impl Fn(&State)>, Saves) {
    let saves: Saves = Rc::new(RefCell::new(Vec::new()));
    let log = saves.clone();
    let s = State {
        current_factorio_version: current.to_string(),
        latest_factorio_version: latest.to_string(),
        last_chat_message: String::new(),
        latest_fff: fff.to_string(),
    };
    let st = PersistedState::new(s, move |s: &State| {
        log.borrow_mut().push((s.latest_factorio_version.clone(), s.latest_fff.clone()))
    });
    (st, saves)
}

#[test]
fn new_fff_post_is_announced_once() {
    let (mut st, saves) = state("", "", "Friday Facts #399");
    match check_fff(&mut st, RSS.as_bytes()) {
        Some(Signal::FffUpdate { title, link }) => {
            assert_eq!(title, "Friday Facts #400 - Ten years");
            assert_eq!(link, "https://www.factorio.com/blog/post/fff-400");
        }
        _ => panic!("expected an FFF update"),
    }
    assert_eq!(st.latest_fff, "Friday Facts #400 - Ten years");
    assert_eq!(saves.borrow().len(), 1);
    assert!(check_fff(&mut st, RSS.as_bytes()).is_none());
    assert_eq!(saves.borrow().len(), 1);
}

#[test]
fn unparsable_feed_changes_nothing() {
    let (mut st, saves) = state("", "", "old");
    assert!(check_fff(&mut st, b"not a feed").is_none());
    assert_eq!(st.latest_fff, "old");
    assert!(saves.borrow().is_empty());
}

#[test]
fn latest_post_needs_title_and_link() {
    let posts = vec![FeedPost { title: Some("t".to_string()), links: vec![] }];
    assert!(latest_post(&posts).is_none());
    let posts = vec![FeedPost { title: None, links: vec!["l".to_string()] }];
    assert!(latest_post(&posts).is_none());
    assert!(latest_post(&Vec::new()).is_none());
    let posts = vec![
        FeedPost { title: Some("t".to_string()), links: vec!["l1".to_string(), "l2".to_string()] },
        FeedPost { title: Some("u".to_string()), links: vec!["m".to_string()] },
    ];
    assert_eq!(latest_post(&posts), Some(("t".to_string(), "l1".to_string())));
}

#[test]
fn record_fff_only_for_new_titles() {
    let (mut st, saves) = state("", "", "a");
    assert!(record_fff(&mut st, "a".to_string(), "l".to_string()).is_none());
    assert!(matches!(
        record_fff(&mut st, "b".to_string(), "l".to_string()),
        Some(Signal::FffUpdate { .. })
    ));
    assert_eq!(st.latest_fff, "b");
    assert_eq!(*saves.borrow(), vec![("".to_string(), "b".to_string())]);
}

#[test]
fn stable_release_is_announced_once() {
    let (mut st, saves) = state("2.0.50", "2.0.50", "");
    match check_version(&mut st, false, HOME) {
        Some(Signal::VersionUpdate(v)) => assert_eq!(v, "2.0.55"),
        _ => panic!("expected a version update"),
    }
    assert_eq!(st.latest_factorio_version, "2.0.55");
    assert!(check_version(&mut st, false, HOME).is_none());
    assert_eq!(saves.borrow().len(), 1);
}

#[test]
fn experimental_release_joins_text_pieces() {
    let (mut st, _) = state("", "", "");
    match check_version(&mut st, true, HOME) {
        Some(Signal::VersionUpdate(v)) => assert_eq!(v, "2.0. 60"),
        _ => panic!("expected a version update"),
    }
}

#[test]
fn running_release_is_not_announced() {
    let (mut st, saves) = state("2.0.55", "2.0.40", "");
    assert!(check_version(&mut st, false, HOME).is_none());
    assert_eq!(st.latest_factorio_version, "2.0.40");
    assert!(saves.borrow().is_empty());
}

#[test]
fn page_without_releases_changes_nothing() {
    let (mut st, _) = state("", "", "");
    assert!(check_version(&mut st, false, "<html></html>").is_none());
}

#[test]
fn selector_and_version_text() {
    assert_eq!(release_selector(false), ".box-releases dl:nth-of-type(1) dd");
    assert_eq!(release_selector(true), ".box-releases dl:nth-of-type(2) dd");
    let sel = vec![vec![" 1.1".to_string(), "x ".to_string()], vec!["2".to_string()]];
    assert_eq!(version_of(&sel), Some("1.1 x".to_string()));
    assert_eq!(version_of(&Vec::new()), None);
}

#[test]
fn record_version_rules() {
    let (mut st, _) = state("1", "2", "");
    assert!(record_version(&mut st, "1".to_string()).is_none());
    assert!(record_version(&mut st, "2".to_string()).is_none());
    assert!(matches!(record_version(&mut st, "3".to_string()), Some(Signal::VersionUpdate(_))));
    assert_eq!(st.latest_factorio_version, "3");
    assert_eq!(st.current_factorio_version, "1");
}

#[test]
fn fff_feed_message() {
    let r = feed_message("Friday Facts #399", RSS.as_bytes());
    assert_eq!(
        r,
        Some((
            "Friday Facts #400 - Ten years".to_string(),
            "Factorio Friday Facts #400 - Ten years\nhttps://www.factorio.com/blog/post/fff-400"
                .to_string()
        ))
    );
    assert_eq!(feed_message("Friday Facts #400 - Ten years", RSS.as_bytes()), None);
    assert_eq!(feed_message("", b""), None);
}

const PODCAST: &str = r#"<?xml version="1.0" encoding="UTF-8"?>
<rss version="2.0" xmlns:itunes="http://www.itunes.com/dtds/podcast-1.0.dtd"><channel><title>P</title>
<item><title>Episode</title><link>https://example.com/e</link>
<itunes:duration>123456789012345678901234567890</itunes:duration></item>
</channel></rss>"#;

const MEDIA_TIME: &str = r#"<?xml version="1.0" encoding="UTF-8"?>
<rss version="2.0" xmlns:media="http://search.yahoo.com/mrss/"><channel><title>M</title>
<item><title>Post</title><link>https://example.com/p</link>
<media:thumbnail url="https://example.com/t.png" time = "99999999999999999999999"/></item>
</channel></rss>"#;

const MEDIA_PLAIN: &str = r#"<?xml version="1.0" encoding="UTF-8"?>
<rss version="2.0" xmlns:media="http://search.yahoo.com/mrss/"><channel><title>M</title>
<item><title>Post</title><link>https://example.com/p</link>
<media:thumbnail url="https://example.com/t.png" width="10"/></item>
</channel></rss>"#;

#[test]
fn feeds_feed_rs_may_panic_on_are_not_read() {
    assert!(feed_is_admitted(RSS.as_bytes()));
    assert!(!feed_is_admitted(PODCAST.as_bytes()));
    assert!(!feed_is_admitted(MEDIA_TIME.as_bytes()));
    assert!(feed_is_admitted(MEDIA_PLAIN.as_bytes()));

    let (mut st, saves) = state("", "", "");
    assert!(check_fff(&mut st, PODCAST.as_bytes()).is_none());
    assert!(check_fff(&mut st, MEDIA_TIME.as_bytes()).is_none());
    assert_eq!(st.latest_fff, "");
    assert!(saves.borrow().is_empty());
    assert_eq!(feed_message("", PODCAST.as_bytes()), None);
}

#[test]
fn media_feed_without_time_attributes_is_read() {
    let (mut st, _) = state("", "", "");
    match check_fff(&mut st, MEDIA_PLAIN.as_bytes()) {
        Some(Signal::FffUpdate { title, link }) => {
            assert_eq!(title, "Post");
            assert_eq!(link, "https://example.com/p");
        }
        _ => panic!("expected an FFF update"),
    }
}

const PODCAST_PLAIN: &str = r#"<?xml version="1.0" encoding="UTF-8"?>
<rss version="2.0" xmlns:itunes="http://www.itunes.com/dtds/podcast-1.0.dtd"><channel><title>P</title>
<item><title>Episode 12</title><link>https://example.com/e12</link>
<itunes:duration>01:02:03.5</itunes:duration><itunes:author>Ann «Host»</itunes:author>
<author>ann@example.com (Ann)</author></item>
</channel></rss>"#;

const MEDIA_TIMED: &str = r#"<?xml version="1.0" encoding="UTF-8"?>
<rss version="2.0" xmlns:media="http://search.yahoo.com/mrss/"><channel><title>M</title>
<item><title>Clip</title><link>https://example.com/c</link>
<media:content url="https://example.com/c.mp4"><media:text start="00:00:03.000" end="12.5">Hi</media:text>
<media:thumbnail url="https://example.com/t.png" time="12:05:35"/></media:content></item>
</channel></rss>"#;

#[test]
fn podcast_and_media_feeds_are_read() {
    assert!(feed_is_admitted(PODCAST_PLAIN.as_bytes()));
    assert!(feed_is_admitted(MEDIA_TIMED.as_bytes()));
    let (mut st, saves) = state("", "", "");
    match check_fff(&mut st, PODCAST_PLAIN.as_bytes()) {
        Some(Signal::FffUpdate { title, link }) => {
            assert_eq!(title, "Episode 12");
            assert_eq!(link, "https://example.com/e12");
        }
        _ => panic!("expected an FFF update"),
    }
    match check_fff(&mut st, MEDIA_TIMED.as_bytes()) {
        Some(Signal::FffUpdate { title, .. }) => assert_eq!(title, "Clip"),
        _ => panic!("expected an FFF update"),
    }
    assert_eq!(saves.borrow().len(), 2);
    assert_eq!(
        feed_message("", PODCAST_PLAIN.as_bytes()),
        Some(("Episode 12".to_string(), "Factorio Episode 12\nhttps://example.com/e12".to_string()))
    );
}

const AUTHOR_IN_QUOTES: &str = r#"<?xml version="1.0" encoding="UTF-8"?>
<rss version="2.0"><channel><title>A</title>
<item><title>Post</title><link>https://example.com/p</link><author>«foo@bar.com»</author></item>
</channel></rss>"#;

#[test]
fn address_next_to_wide_character_is_not_read() {
    assert!(!feed_is_admitted(AUTHOR_IN_QUOTES.as_bytes()));
    let (mut st, saves) = state("", "", "");
    assert!(check_fff(&mut st, AUTHOR_IN_QUOTES.as_bytes()).is_none());
    assert_eq!(st.latest_fff, "");
    assert!(saves.borrow().is_empty());
    assert_eq!(feed_message("", AUTHOR_IN_QUOTES.as_bytes()), None);
}
