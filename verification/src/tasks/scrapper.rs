//! Deciding, from the Factorio web pages, when to announce a new release or a new Friday
//! Facts post, and remembering what was announced.
use vstd::prelude::*;
use crate::bridge::{Signal, SignalView};
use crate::state::{PersistedState, State, StateView};
use crate::feed_admission::{feed_admitted, feed_is_admitted};
use crate::text::{join, join_texts, texts, trim, trim_text};

verus! {

/// The news feed of the Factorio blog.
pub const FEED_URL: &'static str = "https://www.factorio.com/blog/rss";

/// The Factorio home page, which lists the current releases.
pub const FACTORIO_URL: &'static str = "https://www.factorio.com/";

/// A post of a news feed: its title, if it has one, and its links.
pub struct FeedPost {
    pub title: Option<String>,
    pub links: Vec<String>,
}

/// A post with its texts as character sequences.
pub open spec fn post_view(p: FeedPost) -> (Option<Seq<char>>, Seq<Seq<char>>) {
    (
        match p.title {
            Some(t) => Some(t@),
            None => None,
        },
        texts(p.links@),
    )
}

/// The views of the posts of a feed, or `None` for a feed that did not parse.
pub open spec fn posts_view(r: Option<Vec<FeedPost>>) -> Option<Seq<(Option<Seq<char>>, Seq<Seq<char>>)>> {
    match r {
        Some(posts) => Some(posts@.map_values(|p: FeedPost| post_view(p))),
        None => None,
    }
}

/// The posts (title, links) that feed-rs reads from `xml` with `base_uri`, or `None` when it
/// does not read a feed there.
pub uninterp spec fn feed_posts(xml: Seq<u8>, base_uri: Seq<char>) -> Option<Seq<(Option<Seq<char>>, Seq<Seq<char>>)>>;

/// Parses a feed with `feed_rs::parser::Builder` (base URI set) and `Parser::parse`, and
/// keeps of each entry its title text and the targets of its links. Trusted: the result is
/// `feed_posts` of the arguments; nothing is said of what that is. `feed_admitted` leaves
/// out every feed on which feed-rs can panic.
#[verifier::external_body]
pub(crate) fn parse_feed(xml: &[u8], base_uri: &str) -> (r: Option<Vec<FeedPost>>)
    requires
        feed_admitted(xml@),
    ensures
        posts_view(r) == feed_posts(xml@, base_uri@),
{
    let parser = feed_rs::parser::Builder::new().base_uri(Some(base_uri)).build();
    match parser.parse(xml) {
        Ok(feed) => Some(feed.entries.into_iter().map(|e| FeedPost {
            title: e.title.map(|t| t.content),
            links: e.links.into_iter().map(|l| l.href).collect(),
        }).collect()),
        Err(_) => None,
    }
}

/// The title and first link of the first post, when it has both.
pub open spec fn first_post(posts: Seq<(Option<Seq<char>>, Seq<Seq<char>>)>) -> Option<(Seq<char>, Seq<char>)> {
    if posts.len() == 0 {
        None
    } else {
        match posts[0].0 {
            Some(title) => if posts[0].1.len() > 0 {
                Some((title, posts[0].1[0]))
            } else {
                None
            },
            None => None,
        }
    }
}

/// The title and first link of the first post of a feed, when it has both.
pub fn latest_post(posts: &Vec<FeedPost>) -> (r: Option<(String, String)>)
    ensures
        match r {
            Some((title, link)) => first_post(posts@.map_values(|p: FeedPost| post_view(p)))
                == Some((title@, link@)),
            None => first_post(posts@.map_values(|p: FeedPost| post_view(p))) is None,
        },
{
    if posts.len() == 0 {
        return None;
    }
    let post = &posts[0];
    match &post.title {
        Some(title) => {
            if post.links.len() > 0 {
                assert(texts(post.links@)[0] == post.links@[0]@);
                Some((title.clone(), post.links[0].clone()))
            } else {
                None
            }
        },
        None => None,
    }
}

/// The view of a reported signal, if any.
pub open spec fn reported(r: Option<Signal>) -> Option<SignalView> {
    match r {
        Some(s) => Some(s@),
        None => None,
    }
}

/// The state after seeing the Friday Facts post `title` at `link`, and what is announced:
/// a post whose title differs from the last one announced is announced and remembered.
pub open spec fn fff_step(s: StateView, title: Seq<char>, link: Seq<char>) -> (StateView, Option<SignalView>) {
    if s.latest_fff != title {
        (StateView { latest_fff: title, ..s }, Some(SignalView::FffUpdate { title, link }))
    } else {
        (s, None)
    }
}

/// Announces the Friday Facts post `title` at `link` if it is new, and remembers it; a change
/// of the state is handed to its save function once, and nothing is saved otherwise.
pub fn record_fff<F: Fn(&State)>(state: &mut PersistedState<State, F>, title: String, link: String) -> (r: Option<Signal>)
    ensures
        title@ != old(state).value().latest_fff@ ==> ({
            &&& r matches Some(Signal::FffUpdate { title: t, link: l }) && t@ == title@ && l@ == link@
            &&& final(state).value()@ == (StateView { latest_fff: title@, ..old(state).value()@ })
        }),
        title@ == old(state).value().latest_fff@ ==> r is None && final(state).value()@ == old(state).value()@,
        (final(state).value()@, reported(r)) == fff_step(old(state).value()@, title@, link@),
        final(state).save_fn() == old(state).save_fn(),
        r is Some ==> call_ensures(old(state).save_fn(), (&final(state).value(),), ()),
        final(state).saves() == if r is Some {
            old(state).saves().push(final(state).value())
        } else {
            old(state).saves()
        },
{
    let last = core::ops::Deref::deref(&*state);
    if last.latest_fff == title {
        return None;
    }
    let mut guard = state.write();
    guard.deref_mut().latest_fff = title.clone();
    guard.drop();
    Some(Signal::FffUpdate { title, link })
}

/// What reading the feed `posts` does: the first post is announced as `fff_step` says; a
/// feed that did not parse, or whose first post lacks a title or a link, changes nothing.
pub open spec fn feed_outcome(s: StateView, posts: Option<Seq<(Option<Seq<char>>, Seq<Seq<char>>)>>) -> (StateView, Option<SignalView>) {
    match posts {
        Some(p) => match first_post(p) {
            Some((title, link)) => fff_step(s, title, link),
            None => (s, None),
        },
        None => (s, None),
    }
}

/// What reading the blog feed `xml` does: an admitted feed is read as `feed_outcome` says;
/// one that is not admitted (`feed_admitted`) changes nothing.
pub open spec fn fff_check_outcome(s: StateView, xml: Seq<u8>) -> (StateView, Option<SignalView>) {
    if feed_admitted(xml) {
        feed_outcome(s, feed_posts(xml, FEED_URL@))
    } else {
        (s, None)
    }
}

/// Reads the Factorio blog feed `xml` and announces its latest post if it is new. A feed that
/// `feed_admitted` leaves out (every feed on which feed-rs could panic, and a few more) is
/// not read, and nothing is announced. The state is saved exactly when a post is announced.
pub fn check_fff<F: Fn(&State)>(state: &mut PersistedState<State, F>, xml: &[u8]) -> (r: Option<Signal>)
    ensures
        (final(state).value()@, reported(r)) == fff_check_outcome(old(state).value()@, xml@),
        final(state).save_fn() == old(state).save_fn(),
        r is Some ==> call_ensures(old(state).save_fn(), (&final(state).value(),), ()),
        final(state).saves() == if r is Some {
            old(state).saves().push(final(state).value())
        } else {
            old(state).saves()
        },
{
    if !feed_is_admitted(xml) {
        return None;
    }
    let posts = match parse_feed(xml, FEED_URL) {
        Some(posts) => posts,
        None => return None,
    };
    match latest_post(&posts) {
        Some((title, link)) => record_fff(state, title, link),
        None => None,
    }
}

/// The CSS selector of the version text on the home page: the first release list for the
/// stable version, the second for the experimental one.
pub open spec fn selector_for(experimental: bool) -> Seq<char> {
    if experimental {
        ".box-releases dl:nth-of-type(2) dd"@
    } else {
        ".box-releases dl:nth-of-type(1) dd"@
    }
}

/// The CSS selector of the version text on the home page.
pub fn release_selector(experimental: bool) -> (r: String)
    ensures
        r@ == selector_for(experimental),
{
    if experimental {
        String::from_str(".box-releases dl:nth-of-type(2) dd")
    } else {
        String::from_str(".box-releases dl:nth-of-type(1) dd")
    }
}

/// The views of the text pieces of each selected element.
pub open spec fn selection_view(r: Option<Vec<Vec<String>>>) -> Option<Seq<Seq<Seq<char>>>> {
    match r {
        Some(m) => Some(m@.map_values(|e: Vec<String>| texts(e@))),
        None => None,
    }
}

/// The text pieces of each element of the HTML document `html` that the CSS selector
/// `selector` selects, in the order in which scraper's parser created the elements' nodes,
/// as scraper finds them; `None` when the selector does not parse.
pub uninterp spec fn html_selection(html: Seq<char>, selector: Seq<char>) -> Option<Seq<Seq<Seq<char>>>>;

/// Parses `selector` with `scraper::Selector::parse` and `html` with
/// `scraper::Html::parse_document`, and returns the text nodes (`ElementRef::text`) of every
/// selected element. Trusted: the result is `html_selection` of the arguments; nothing is
/// said of what that is.
#[verifier::external_body]
fn select_texts(html: &str, selector: &str) -> (r: Option<Vec<Vec<String>>>)
    ensures
        selection_view(r) == html_selection(html@, selector@),
{
    let selector = scraper::Selector::parse(selector).ok()?;
    let document = scraper::Html::parse_document(html);
    Some(document.select(&selector).map(|e| e.text().map(|t| t.to_string()).collect()).collect())
}

/// The version named by a selection: the text pieces of the first selected element, joined
/// with spaces and trimmed.
pub open spec fn released_version(selection: Seq<Seq<Seq<char>>>) -> Option<Seq<char>> {
    if selection.len() == 0 {
        None
    } else {
        Some(trim(join(selection[0], " "@)))
    }
}

/// The version that the selected elements of the home page name.
pub fn version_of(selection: &Vec<Vec<String>>) -> (r: Option<String>)
    ensures
        match r {
            Some(v) => released_version(selection@.map_values(|e: Vec<String>| texts(e@)))
                == Some(v@),
            None => released_version(selection@.map_values(|e: Vec<String>| texts(e@))) is None,
        },
{
    if selection.len() == 0 {
        return None;
    }
    let joined = join_texts(&selection[0], " ");
    Some(trim_text(joined.as_str()))
}

/// The state after seeing release `latest`, and what is announced: a release that is neither
/// the one last announced nor the one the server runs is announced and remembered.
pub open spec fn version_step(s: StateView, latest: Seq<char>) -> (StateView, Option<SignalView>) {
    if s.latest_factorio_version != latest && s.current_factorio_version != latest {
        (StateView { latest_factorio_version: latest, ..s }, Some(SignalView::VersionUpdate(latest)))
    } else {
        (s, None)
    }
}

/// Announces release `latest` if it is new, and remembers it; a change of the state is
/// handed to its save function once, and nothing is saved otherwise.
pub fn record_version<F: Fn(&State)>(state: &mut PersistedState<State, F>, latest: String) -> (r: Option<Signal>)
    ensures
        latest@ != old(state).value().latest_factorio_version@ && latest@
            != old(state).value().current_factorio_version@ ==> ({
            &&& r matches Some(Signal::VersionUpdate(v)) && v@ == latest@
            &&& final(state).value()@ == (StateView { latest_factorio_version: latest@, ..old(state).value()@ })
        }),
        latest@ == old(state).value().latest_factorio_version@ || latest@
            == old(state).value().current_factorio_version@ ==> r is None && final(state).value()@
            == old(state).value()@,
        (final(state).value()@, reported(r)) == version_step(old(state).value()@, latest@),
        final(state).save_fn() == old(state).save_fn(),
        r is Some ==> call_ensures(old(state).save_fn(), (&final(state).value(),), ()),
        final(state).saves() == if r is Some {
            old(state).saves().push(final(state).value())
        } else {
            old(state).saves()
        },
{
    let current = core::ops::Deref::deref(&*state);
    if current.latest_factorio_version == latest || current.current_factorio_version == latest {
        return None;
    }
    let mut guard = state.write();
    guard.deref_mut().latest_factorio_version = latest.clone();
    guard.drop();
    Some(Signal::VersionUpdate(latest))
}

/// What reading the home page does: the release it names is announced as `version_step`
/// says; a page that names none changes nothing.
pub open spec fn version_outcome(s: StateView, selection: Option<Seq<Seq<Seq<char>>>>) -> (StateView, Option<SignalView>) {
    match selection {
        Some(m) => match released_version(m) {
            Some(v) => version_step(s, v),
            None => (s, None),
        },
        None => (s, None),
    }
}

/// Reads the Factorio home page `html` and announces the release it lists (stable, or
/// experimental when `experimental`) if it is new. Should scraper refuse the selector (it
/// accepts both that `release_selector` gives), nothing is announced. The state is saved
/// exactly when a release is announced.
pub fn check_version<F: Fn(&State)>(state: &mut PersistedState<State, F>, experimental: bool, html: &str) -> (r: Option<Signal>)
    ensures
        html_selection(html@, selector_for(experimental)) matches Some(m) ==> (m.len() > 0 ==> ({
            let v = trim(join(m[0], " "@));
            &&& v != old(state).value().latest_factorio_version@ && v != old(state).value().current_factorio_version@
                ==> (r matches Some(Signal::VersionUpdate(x)) && x@ == v
                && final(state).value()@ == (StateView { latest_factorio_version: v, ..old(state).value()@ }))
            &&& v == old(state).value().latest_factorio_version@ || v == old(state).value().current_factorio_version@
                ==> r is None && final(state).value()@ == old(state).value()@
        })),
        (final(state).value()@, reported(r)) == version_outcome(
            old(state).value()@,
            html_selection(html@, selector_for(experimental)),
        ),
        final(state).save_fn() == old(state).save_fn(),
        r is Some ==> call_ensures(old(state).save_fn(), (&final(state).value(),), ()),
        final(state).saves() == if r is Some {
            old(state).saves().push(final(state).value())
        } else {
            old(state).saves()
        },
{
    let selector = release_selector(experimental);
    let selection = match select_texts(html, selector.as_str()) {
        Some(selection) => selection,
        None => return None,
    };
    match version_of(&selection) {
        Some(latest) => record_version(state, latest),
        None => None,
    }
}

/// A release is announced and remembered exactly when it differs from both the release last
/// announced and the one the server runs, whatever the versions look like (no ordering of
/// version texts is involved); otherwise nothing changes.
pub proof fn law_release_announced_when_new(s: StateView, latest: Seq<char>)
    ensures
        latest != s.latest_factorio_version && latest != s.current_factorio_version ==> version_step(s, latest)
            == (StateView { latest_factorio_version: latest, ..s }, Some(SignalView::VersionUpdate(latest))),
        latest == s.latest_factorio_version || latest == s.current_factorio_version ==> version_step(s, latest)
            == (s, None::<SignalView>),
{
}

/// A page whose first selected element names a release announces it exactly when it differs
/// from the release last announced and from the one the server runs.
pub proof fn law_page_release_announced_when_new(s: StateView, selection: Seq<Seq<Seq<char>>>)
    requires
        selection.len() > 0,
    ensures
        ({
            let v = trim(join(selection[0], " "@));
            &&& v != s.latest_factorio_version && v != s.current_factorio_version ==> version_outcome(s, Some(selection))
                == (StateView { latest_factorio_version: v, ..s }, Some(SignalView::VersionUpdate(v)))
            &&& v == s.latest_factorio_version || v == s.current_factorio_version ==> version_outcome(s, Some(selection))
                == (s, None::<SignalView>)
        }),
{
}

/// A Friday Facts post is announced and remembered exactly when its title differs from the
/// one last announced; otherwise nothing changes.
pub proof fn law_post_announced_when_new(s: StateView, title: Seq<char>, link: Seq<char>)
    ensures
        title != s.latest_fff ==> fff_step(s, title, link) == (StateView { latest_fff: title, ..s }, Some(
            SignalView::FffUpdate { title, link },
        )),
        title == s.latest_fff ==> fff_step(s, title, link) == (s, None::<SignalView>),
{
}

/// A Friday Facts post is announced at most once in a row: after it was announced, seeing it
/// again announces nothing and changes nothing.
pub proof fn lemma_fff_announced_once(s: StateView, title: Seq<char>, link: Seq<char>)
    ensures
        fff_step(fff_step(s, title, link).0, title, link) == (fff_step(s, title, link).0, None::<SignalView>),
{
}

/// A release is announced at most once in a row: after it was announced, seeing it again
/// announces nothing and changes nothing.
pub proof fn lemma_version_announced_once(s: StateView, latest: Seq<char>)
    ensures
        version_step(version_step(s, latest).0, latest) == (version_step(s, latest).0, None::<SignalView>),
{
}

/// The release the server already runs is never announced.
pub proof fn lemma_current_version_not_announced(s: StateView)
    ensures
        version_step(s, s.current_factorio_version) == (s, None::<SignalView>),
{
}

/// Reading the same page twice announces at most once.
pub proof fn lemma_same_page_announced_once(s: StateView, selection: Option<Seq<Seq<Seq<char>>>>)
    ensures
        version_outcome(version_outcome(s, selection).0, selection).1 is None,
{
}

/// Reading the same feed twice announces at most once.
pub proof fn lemma_same_feed_announced_once(s: StateView, xml: Seq<u8>)
    ensures
        fff_check_outcome(fff_check_outcome(s, xml).0, xml).1 is None,
{
}

} // verus!
