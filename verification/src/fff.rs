//! Announcing new Friday Facts posts as chat lines, given the title announced last.
use vstd::prelude::*;
use crate::feed_admission::{feed_admitted, feed_is_admitted};
use crate::tasks::scrapper::{feed_posts, first_post, latest_post, parse_feed, FEED_URL};

verus! {

/// The chat line that announces a Friday Facts post.
pub open spec fn fff_line(title: Seq<char>, link: Seq<char>) -> Seq<char> {
    "Factorio "@ + title + "\n"@ + link
}

/// What reading the feed `posts` gives when `last_title` was announced last: the title to
/// cache and the chat line for a first post with a new title, else nothing.
pub open spec fn feed_news(last_title: Seq<char>, posts: Option<Seq<(Option<Seq<char>>, Seq<Seq<char>>)>>) -> Option<(Seq<char>, Seq<char>)> {
    match posts {
        Some(p) => match first_post(p) {
            Some((title, link)) => if title != last_title {
                Some((title, fff_line(title, link)))
            } else {
                None
            },
            None => None,
        },
        None => None,
    }
}

/// Reads the Factorio blog feed `xml`; when its latest post has a title other than
/// `last_title`, gives the title to cache and the chat line that announces the post. A feed
/// that `feed_admitted` leaves out (every feed on which feed-rs could panic, and a few more)
/// is not read, and gives nothing.
pub fn feed_message(last_title: &str, xml: &[u8]) -> (r: Option<(String, String)>)
    ensures
        !feed_admitted(xml@) ==> r is None,
        feed_admitted(xml@) ==> match r {
            Some((title, line)) => feed_news(last_title@, feed_posts(xml@, FEED_URL@)) == Some(
                (title@, line@),
            ),
            None => feed_news(last_title@, feed_posts(xml@, FEED_URL@)) is None,
        },
{
    if !feed_is_admitted(xml) {
        return None;
    }
    let posts = match parse_feed(xml, FEED_URL) {
        Some(posts) => posts,
        None => return None,
    };
    let (title, link) = match latest_post(&posts) {
        Some(post) => post,
        None => return None,
    };
    if title == last_title.to_owned() {
        return None;
    }
    let line = String::from_str("Factorio ").concat(title.as_str()).concat("\n").concat(link.as_str());
    Some((title, line))
}

} // verus!
