//! URLs.

use vstd::prelude::*;
use vstd::string::*;
use crate::text::{begins_with, is_white, opt_text};

verus! {

/// The parts of a URL that decide which provider it belongs to.
pub struct UrlParts {
    pub scheme: String,
    pub host: Option<String>,
    pub path: String,
}

/// The model of [`UrlParts`].
pub struct UrlPartsView {
    pub scheme: Seq<char>,
    pub host: Option<Seq<char>>,
    pub path: Seq<char>,
}

impl UrlParts {
    pub open spec fn view(&self) -> UrlPartsView {
        UrlPartsView { scheme: self.scheme@, host: opt_text(self.host), path: self.path@ }
    }
}

/// The longest text, in characters, that is rewritten as a URL: the positions in
/// a URL are numbers of 32 bits, and each character may take up twelve bytes.
pub const MAX_URL_LEN: usize = 0x1500_0000;

/// The longest scheme, host and path, in characters, that a URL is rewritten with.
pub const MAX_URL_PART_LEN: usize = 0x1_0000;

/// The parts of the URL that `url::Url::parse` reads from a text, if it is one.
pub uninterp spec fn url_parts(text: Seq<char>) -> Option<UrlPartsView>;

/// The text of a URL after `url::Url::set_scheme` and `url::Url::set_path`, if
/// the text is a URL that can have the scheme.
pub uninterp spec fn url_with(text: Seq<char>, scheme: Seq<char>, path: Seq<char>) -> Option<
    Seq<char>,
>;

/// Whether a host that may be missing holds no white space.
pub open spec fn is_unbroken(host: Option<Seq<char>>) -> bool {
    host matches Some(h) ==> forall|i: int| 0 <= i < h.len() ==> !is_white(#[trigger] h[i])
}

/// `url::Url::parse`, with the scheme, host and path of its result: they are
/// named. No host holds white space: it is refused or encoded.
#[verifier::external_body]
pub(crate) fn parse_url(text: &str) -> (r: Option<UrlParts>)
    ensures
        match r {
            Some(parts) => url_parts(text@) == Some(parts@) && is_unbroken(parts@.host),
            None => url_parts(text@) is None,
        },
{
    let url = url::Url::parse(text).ok()?;
    Some(UrlParts {
        scheme: url.scheme().to_owned(),
        host: url.host_str().map(|host| host.to_owned()),
        path: url.path().to_owned(),
    })
}

/// `url::Url::parse`, then `set_scheme` and `set_path`: the resulting text is
/// named. It is there whenever an `http` or `https` URL with a host is given the
/// scheme `ws` or `wss`.
#[verifier::external_body]
pub(crate) fn rewrite_url(text: &str, scheme: &str, path: &str) -> (r: Option<String>)
    requires
        text@.len() <= MAX_URL_LEN,
        url_parts(text@) matches Some(parts) ==> (parts.host matches Some(host) ==> host.len()
            <= MAX_URL_PART_LEN),
        scheme@.len() <= MAX_URL_PART_LEN,
        path@.len() <= MAX_URL_PART_LEN,
    ensures
        opt_text(r) == url_with(text@, scheme@, path@),
        (url_parts(text@) matches Some(parts) && parts.host is Some && (parts.scheme == "http"@
            || parts.scheme == "https"@) && (scheme@ == "ws"@ || scheme@ == "wss"@)) ==> r is Some,
{
    let mut url = url::Url::parse(text).ok()?;
    url.set_scheme(scheme).ok()?;
    url.set_path(path);
    Some(url.into())
}

/// The names and values of a query.
pub open spec fn query_pairs(pairs: Seq<(String, String)>) -> Seq<(Seq<char>, Seq<char>)> {
    pairs.map_values(|p: (String, String)| (p.0@, p.1@))
}

/// The text of a URL after names and values were appended to its query by
/// `url::Url::query_pairs_mut`, if the text is a URL.
pub uninterp spec fn url_with_query(text: Seq<char>, pairs: Seq<(Seq<char>, Seq<char>)>) -> Option<
    Seq<char>,
>;

/// Whether the character is a lower-case letter.
pub open spec fn is_letter(c: char) -> bool {
    'a' <= c <= 'z'
}

/// Whether a text is an `https` URL of the plainest kind: a host and a path made
/// of lower-case letters, and of dots and slashes that each stand between two
/// letters.
pub open spec fn is_plain_url(text: Seq<char>) -> bool {
    &&& 8 < text.len() <= MAX_URL_LEN
    &&& begins_with(text, "https://"@)
    &&& is_letter(text[8])
    &&& is_letter(text.last())
    &&& forall|i: int|
        8 < i < text.len() - 1 && !is_letter(#[trigger] text[i]) ==> (text[i] == '.' || text[i]
            == '/') && is_letter(text[i - 1]) && is_letter(text[i + 1])
}

/// `url::Url::parse`, then `query_pairs_mut` and `extend_pairs`, on a plain URL:
/// the resulting text is named. It is always there.
#[verifier::external_body]
pub(crate) fn append_query(text: &str, pairs: &Vec<(String, String)>) -> (r: Option<String>)
    requires
        is_plain_url(text@),
    ensures
        opt_text(r) == url_with_query(text@, query_pairs(pairs@)),
        r is Some,
{
    let mut url = url::Url::parse(text).ok()?;
    url.query_pairs_mut().extend_pairs(pairs);
    Some(url.into())
}

/// A name and a value.
pub(crate) fn pair(name: &str, value: &str) -> (r: (String, String))
    ensures
        r.0@ == name@,
        r.1@ == value@,
{
    (name.to_owned(), value.to_owned())
}

} // verus!
