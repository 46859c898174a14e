//! URLs that have passed validation.

use vstd::prelude::*;
use crate::pair::{ParseError, ParseErrorView};

verus! {

/// Whether `token` is a well-formed absolute URL; the judgement is that of
/// the URL parser of the `url` crate, which `reqwest` hands on as
/// `reqwest::Url`.
pub uninterp spec fn url_well_formed(token: Seq<char>) -> bool;

/// Asks `reqwest::Url`'s `FromStr` (`url::Url::parse`) whether it accepts
/// `token`.
///
/// Trusted: the answer is the parser's own and depends on the characters of
/// `token` alone, so it is given the name [`url_well_formed`]. Nothing is
/// claimed about which tokens the parser accepts.
#[verifier::external_body]
fn url_parses(token: &str) -> (accepted: bool)
    ensures
        accepted == url_well_formed(token@),
{
    token.parse::<reqwest::Url>().is_ok()
}

/// A URL, kept letter for letter as it was given.
#[derive(Debug, Clone)]
pub struct ValidatedUrl {
    text: String,
}

impl View for ValidatedUrl {
    type V = Seq<char>;

    closed spec fn view(&self) -> Seq<char> {
        self.text@
    }
}

impl ValidatedUrl {
    /// The text is a well-formed absolute URL.
    pub open spec fn wf(&self) -> bool {
        url_well_formed(self@)
    }

    /// The URL as text.
    pub fn as_str(&self) -> (s: &str)
        ensures
            s@ == self@,
    {
        self.text.as_str()
    }

    /// The URL as owned text.
    pub fn into_string(self) -> (s: String)
        ensures
            s@ == self@,
    {
        self.text
    }
}

/// Turns the URL parser's verdict on `token` into a value: the token itself,
/// unchanged, where the verdict was that it is well formed, and else the error
/// that carries it.
pub fn url_from_verdict(token: &str, well_formed: bool) -> (r: Result<ValidatedUrl, ParseError>)
    ensures
        well_formed ==> r is Ok && r->Ok_0@ == token@,
        !well_formed ==> r is Err && r->Err_0@ == ParseErrorView::InvalidUrl(token@),
{
    if well_formed {
        Ok(ValidatedUrl { text: token.to_owned() })
    } else {
        Err(ParseError::InvalidUrl(token.to_owned()))
    }
}

/// Validates a URL argument.
///
/// A well-formed absolute URL comes back unchanged: nothing is normalised.
/// Any other token is handed back inside the error.
pub fn parse_url(s: &str) -> (r: Result<ValidatedUrl, ParseError>)
    ensures
        url_well_formed(s@) ==> r is Ok && r->Ok_0@ == s@ && r->Ok_0.wf(),
        !url_well_formed(s@) ==> r is Err && r->Err_0@ == ParseErrorView::InvalidUrl(s@),
{
    let accepted = url_parses(s);
    url_from_verdict(s, accepted)
}

} // verus!
