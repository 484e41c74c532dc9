//! URLs as the `url` crate reads them.

use vstd::prelude::*;

verus! {

/// What `url::Url::parse` makes of a text: the scheme and host of the URL, or the text
/// of the parse error.
pub uninterp spec fn url_parse(input: Seq<char>) -> Result<(Seq<char>, Option<Seq<char>>), Seq<char>>;

/// The parts of a URL that the library reads.
#[derive(Debug, Clone)]
pub struct UrlParts {
    pub scheme: String,
    pub host: Option<String>,
}

/// Parses `input` by `url::Url::parse`, keeping the URL's `scheme()` and `host_str()`,
/// or the `Display` text of the `ParseError`. Which texts parse is the WHATWG URL
/// standard's business and is not stated: the result is named.
#[verifier::external_body]
pub(crate) fn parse_url(input: &str) -> (r: Result<UrlParts, String>)
    ensures
        match r {
            Ok(p) => url_parse(input@) == Ok::<(Seq<char>, Option<Seq<char>>), Seq<char>>(
                (
                    p.scheme@,
                    match p.host {
                        Some(h) => Some(h@),
                        None => None,
                    },
                ),
            ),
            Err(e) => url_parse(input@) == Err::<(Seq<char>, Option<Seq<char>>), Seq<char>>(e@),
        },
{
    match url::Url::parse(input) {
        Ok(u) => Ok(UrlParts { scheme: u.scheme().to_string(), host: u.host_str().map(str::to_string) }),
        Err(e) => Err(e.to_string()),
    }
}

/// `url::Url::parse` accepts the text.
pub open spec fn url_accepts(input: Seq<char>) -> bool {
    url_parse(input) is Ok
}

} // verus!
