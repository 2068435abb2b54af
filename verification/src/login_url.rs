//! The URL under which a login records a server: the URL the user gave, with
//! the `/` characters at the end of its path trimmed and its query and
//! fragment removed. Parsing and rewriting URLs is the `url` crate's work.
use vstd::prelude::*;

use crate::commands::{trim_trailing_slashes, without_trailing_slashes};

verus! {

/// The longest URL text, and the longest path, in characters, that
/// `login_url` rewrites. Under it every offset into a rewritten URL stays far
/// below `u32::MAX`, where the `url` crate, which keeps its offsets as `u32`,
/// would panic.
pub const URL_CHAR_LIMIT: usize = 0x0040_0000;

/// Whether `text` parses as a URL that cannot be a base (such as
/// `data:text/plain,x`); `None` where it does not parse.
pub uninterp spec fn url_cannot_be_a_base(text: Seq<char>) -> Option<bool>;

/// The path of the URL that `text` parses as; `None` where it does not parse.
pub uninterp spec fn url_path(text: Seq<char>) -> Option<Seq<char>>;

/// The URL that `text` parses as, with its path set to `path`; `None` where
/// `text` does not parse.
pub uninterp spec fn url_with_path(text: Seq<char>, path: Seq<char>) -> Option<Seq<char>>;

/// The URL that `text` parses as, without its fragment; `None` where `text`
/// does not parse.
pub uninterp spec fn url_without_fragment(text: Seq<char>) -> Option<Seq<char>>;

/// The URL that `text` parses as, without its query; `None` where `text` does
/// not parse.
pub uninterp spec fn url_without_query(text: Seq<char>) -> Option<Seq<char>>;

/// `url::Url::parse` of `text`, then `Url::cannot_be_a_base`. The result is
/// claimed to be the named value for `text`: `None` where the parse fails.
#[verifier::external_body]
fn url_text_cannot_be_a_base(text: &str) -> (r: Option<bool>)
    ensures
        r == url_cannot_be_a_base(text@),
{
    match url::Url::parse(text) {
        Ok(u) => Some(u.cannot_be_a_base()),
        Err(_) => None,
    }
}

/// `url::Url::parse` of `text`, then `Url::path`. The result is claimed to be
/// the named value for `text`: `None` where the parse fails.
#[verifier::external_body]
fn url_text_path(text: &str) -> (r: Option<String>)
    ensures
        r is Some == url_path(text@) is Some,
        r is Some ==> url_path(text@) == Some(r->Some_0@),
{
    match url::Url::parse(text) {
        Ok(u) => Some(u.path().to_string()),
        Err(_) => None,
    }
}

/// `url::Url::parse` of `text`, then `Url::set_path` with `path`, then the
/// URL's text. The result is claimed to be the named value for `text` and
/// `path`: `None` where the parse fails. `set_path` panics where an offset
/// outgrows `u32`; the length bounds keep far from that.
#[verifier::external_body]
fn url_text_with_path(text: &str, path: &str) -> (r: Option<String>)
    requires
        text@.len() <= URL_CHAR_LIMIT,
        path@.len() <= URL_CHAR_LIMIT,
    ensures
        r is Some == url_with_path(text@, path@) is Some,
        r is Some ==> url_with_path(text@, path@) == Some(r->Some_0@),
{
    match url::Url::parse(text) {
        Ok(mut u) => {
            u.set_path(path);
            Some(u.to_string())
        },
        Err(_) => None,
    }
}

/// `url::Url::parse` of `text`, then `Url::set_fragment(None)`, then the URL's
/// text. The result is claimed to be the named value for `text`: `None` where
/// the parse fails.
#[verifier::external_body]
fn url_text_without_fragment(text: &str) -> (r: Option<String>)
    ensures
        r is Some == url_without_fragment(text@) is Some,
        r is Some ==> url_without_fragment(text@) == Some(r->Some_0@),
{
    match url::Url::parse(text) {
        Ok(mut u) => {
            u.set_fragment(None);
            Some(u.to_string())
        },
        Err(_) => None,
    }
}

/// `url::Url::parse` of `text`, then `Url::set_query(None)`, then the URL's
/// text. The result is claimed to be the named value for `text`: `None` where
/// the parse fails.
#[verifier::external_body]
fn url_text_without_query(text: &str) -> (r: Option<String>)
    ensures
        r is Some == url_without_query(text@) is Some,
        r is Some ==> url_without_query(text@) == Some(r->Some_0@),
{
    match url::Url::parse(text) {
        Ok(mut u) => {
            u.set_query(None);
            Some(u.to_string())
        },
        Err(_) => None,
    }
}

/// What a login records as the server's URL, given the URL text: `None` where
/// the text is no URL, is one that cannot be a base, or is longer (or has a
/// path longer) than `URL_CHAR_LIMIT`; otherwise the URL with its path
/// trimmed of trailing `/`, then without its fragment, then without its query.
pub open spec fn stored_login_url(text: Seq<char>) -> Option<Seq<char>> {
    if text.len() > URL_CHAR_LIMIT {
        None
    } else {
        match (url_cannot_be_a_base(text), url_path(text)) {
            (Some(false), Some(path)) => {
                let trimmed = without_trailing_slashes(path);
                if trimmed.len() > URL_CHAR_LIMIT {
                    None
                } else {
                    match url_with_path(text, trimmed) {
                        Some(with_path) => match url_without_fragment(with_path) {
                            Some(no_fragment) => url_without_query(no_fragment),
                            None => None,
                        },
                        None => None,
                    }
                }
            },
            _ => None,
        }
    }
}

/// The URL that a login to the server at `url` records, or `None` where
/// `url` is no URL fit to log in to (see `stored_login_url`).
pub fn login_url(url: &str) -> (r: Option<String>)
    ensures
        r is Some == stored_login_url(url@) is Some,
        r is Some ==> stored_login_url(url@) == Some(r->Some_0@),
{
    if url.unicode_len() > URL_CHAR_LIMIT {
        return None;
    }
    match url_text_cannot_be_a_base(url) {
        Some(false) => {},
        _ => return None,
    }
    let path = match url_text_path(url) {
        Some(p) => p,
        None => return None,
    };
    let trimmed = trim_trailing_slashes(path.as_str());
    if trimmed.unicode_len() > URL_CHAR_LIMIT {
        return None;
    }
    let with_path = match url_text_with_path(url, trimmed.as_str()) {
        Some(u) => u,
        None => return None,
    };
    let no_fragment = match url_text_without_fragment(with_path.as_str()) {
        Some(u) => u,
        None => return None,
    };
    url_text_without_query(no_fragment.as_str())
}

} // verus!
