use cracktorio_bot::feed_admission::feed_is_admitted;

fn rss(item: &str) -> String {
    format!(
        "<?xml version=\"1.0\" encoding=\"UTF-8\"?>\n<rss version=\"2.0\"><channel><title>T</title><item>{}</item></channel></rss>",
        item
    )
}

fn podcast(item: &str) -> String {
    format!(
        "<rss version=\"2.0\" xmlns:itunes=\"http://www.itunes.com/dtds/podcast-1.0.dtd\"><channel><item>{}</item></channel></rss>",
        item
    )
}

#[test]
fn plain_feeds_are_admitted() {
    assert!(feed_is_admitted(rss("<title>Friday Facts #400</title>").as_bytes()));
    assert!(feed_is_admitted(b""));
    assert!(feed_is_admitted(b"<rss>\0</rss>"));
    assert!(feed_is_admitted(rss("<title>It&#8217;s &#8220;done&#8221;</title>").as_bytes()));
    assert!(feed_is_admitted(rss("<description>&lt;p&gt;Hello&lt;/p&gt;</description>").as_bytes()));
    assert!(feed_is_admitted(rss("<title>Ünïcödé «text»</title>").as_bytes()));
}

#[test]
fn addresses_in_names() {
    assert!(feed_is_admitted(rss("<author>foo@bar.com (Foo)</author>").as_bytes()));
    assert!(feed_is_admitted(rss("<author>Jörg foo@bar.com</author>").as_bytes()));
    assert!(feed_is_admitted(rss("<dc:creator><![CDATA[foo@bar.com]]></dc:creator>").as_bytes()));
    assert!(!feed_is_admitted(rss("<author>«foo@bar.com»</author>").as_bytes()));
    assert!(!feed_is_admitted(rss("<author>—foo@bar.com</author>").as_bytes()));
    assert!(!feed_is_admitted(rss("<author>&#171;foo@bar.com</author>").as_bytes()));
    assert!(!feed_is_admitted(rss("<author>foo&#64;bar.com»</author>").as_bytes()));
    assert!(!feed_is_admitted(rss("<author>foo@bar.com<!-- x -->»</author>").as_bytes()));
    assert!(!feed_is_admitted(rss("<author>«<!-- x -->foo@bar.com</author>").as_bytes()));
    assert!(!feed_is_admitted(b"{\"version\":\"x\",\"authors\":[{\"name\":\"\\u00abfoo@bar.com\"}]}"));
    assert!(feed_is_admitted(b"{\"version\":\"x\",\"authors\":[{\"name\":\"foo@bar.com\"}]}"));
}

#[test]
fn encodings() {
    assert!(!feed_is_admitted(b"\xfe\xff\x00<"));
    assert!(!feed_is_admitted(b"\xff\xfe<\x00"));
    assert!(!feed_is_admitted(b"\x00<\x00?\x00x"));
    assert!(!feed_is_admitted(b"<\x00?\x00x\x00"));
    assert!(feed_is_admitted(b"\xef\xbb\xbf<rss/>"));
    assert!(!feed_is_admitted(b"<?xml version=\"1.0\" encoding=\"ISO-8859-1\"?><rss/>"));
    assert!(feed_is_admitted(b"<?xml version='1.0' encoding='utf-8'?><rss/>"));
    assert!(feed_is_admitted(b"<?xml version=\"1.0\"?><rss/>"));
    assert!(!feed_is_admitted(b"<rss><?xml version=\"1.0\" encoding=\"windows-1252\"?></rss>"));
    assert!(feed_is_admitted(b"<?xml-stylesheet href=\"encoding\"?><rss/>"));
}

#[test]
fn document_types() {
    assert!(feed_is_admitted(b"<!DOCTYPE rss><rss/>"));
    assert!(!feed_is_admitted(b"<rss><!DOCTYPE rss></rss>"));
}

#[test]
fn play_times() {
    assert!(feed_is_admitted(podcast("<itunes:duration>3600</itunes:duration>").as_bytes()));
    assert!(feed_is_admitted(podcast("<itunes:duration>999999999999999:59:59.999</itunes:duration>").as_bytes()));
    assert!(!feed_is_admitted(podcast("<itunes:duration>1000000000000000:00:00</itunes:duration>").as_bytes()));
    assert!(!feed_is_admitted(podcast("<itunes:duration>&#49;2</itunes:duration>").as_bytes()));
    assert!(!feed_is_admitted(podcast("<itunes:duration>\u{663}</itunes:duration>").as_bytes()));
    assert!(!feed_is_admitted(podcast("<itunes:duration>12<!-- -->34</itunes:duration>").as_bytes()));
    assert!(!feed_is_admitted(podcast("<itunes:duration><![CDATA[12]]>34</itunes:duration>").as_bytes()));
    assert!(feed_is_admitted(podcast("<itunes:duration><![CDATA[1234]]></itunes:duration>").as_bytes()));
    assert!(feed_is_admitted(rss("<title>\u{663} 1000000000000000000</title>").as_bytes()));
    assert!(!feed_is_admitted(
        "<rss xmlns:media=\"http://search.yahoo.com/mrss/\"><media:text start=\"&#x663;\">a</media:text></rss>".as_bytes()
    ));
}
