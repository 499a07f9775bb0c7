use vstd::prelude::*;

use url::ParseError;

verus! {

#[verifier::external_type_specification]
#[verifier::external_body]
pub struct ExParseError(url::ParseError);

/// The serialization of the URL that `url::Url::parse` reads from a text, or `None` where it
/// refuses the text.
pub uninterp spec fn url_parse(input: Seq<char>) -> Option<Seq<char>>;

/// The serialization of the URL that `url::Url::join` makes of `input` against the URL whose
/// serialization is `base`, or `None` where either step refuses its text.
pub uninterp spec fn url_join(base: Seq<char>, input: Seq<char>) -> Option<Seq<char>>;

/// Calls `url::Url::parse` and takes the serialization of the URL it returns
/// (`From<Url> for String`). The contract claims that success and the serialization are a
/// function of the text alone; which texts are URLs and how they are normalized is not modelled.
#[verifier::external_body]
fn parse_serialization(input: &str) -> (r: Result<String, ParseError>)
    ensures
        match r {
            Ok(s) => url_parse(input@) == Some(s@),
            Err(_) => url_parse(input@) is None,
        },
{
    match url::Url::parse(input) {
        Ok(u) => Ok(String::from(u)),
        Err(e) => Err(e),
    }
}

/// Calls `url::Url::join` on the URL that `url::Url::parse` reads from `base`, and takes the
/// serialization of the result. A `url::Url` cannot be named in a contract, so the base is
/// passed as text and parsed here. The contract claims that success and the serialization are
/// a function of the two texts alone, and that a base that `url::Url::parse` refuses gives an
/// error; how relative references resolve is not modelled.
#[verifier::external_body]
fn join_serialization(base: &str, input: &str) -> (r: Result<String, ParseError>)
    ensures
        url_parse(base@) is None ==> r is Err,
        match r {
            Ok(s) => url_join(base@, input@) == Some(s@),
            Err(_) => url_join(base@, input@) is None,
        },
{
    match url::Url::parse(base) {
        Ok(u) => match u.join(input) {
            Ok(j) => Ok(String::from(j)),
            Err(e) => Err(e),
        },
        Err(e) => Err(e),
    }
}

/// A text that is not a URL, with the reason the URL parser gave.
pub struct InvalidUrl(pub ParseError);

/// Parses a URL and returns its serialization, or the parser's reason for refusing the text.
pub fn parse_url(input: &str) -> (r: Result<String, InvalidUrl>)
    ensures
        match r {
            Ok(s) => url_parse(input@) == Some(s@),
            Err(_) => url_parse(input@) is None,
        },
{
    match parse_serialization(input) {
        Ok(s) => Ok(s),
        Err(e) => Err(InvalidUrl(e)),
    }
}

/// Resolves `input` against the URL whose serialization is `base` and returns the
/// serialization of the result, or the parser's reason for refusing either text.
pub fn join_url(base: &str, input: &str) -> (r: Result<String, InvalidUrl>)
    ensures
        url_parse(base@) is None ==> r is Err,
        match r {
            Ok(s) => url_join(base@, input@) == Some(s@),
            Err(_) => url_join(base@, input@) is None,
        },
{
    match join_serialization(base, input) {
        Ok(s) => Ok(s),
        Err(e) => Err(InvalidUrl(e)),
    }
}

} // verus!
