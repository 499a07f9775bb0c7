use vstd::prelude::*;

use crate::new_object_schemes::{NewLinkScheme, RecordPayload};
use crate::routes::{record_type_name, record_type_route_prefix, RecordType, API_DIFFICULTY};
use crate::text::{decimal, format_u64, parse_unsigned, parse_usize};
use crate::urls::{join_url, parse_url, url_join, url_parse, InvalidUrl};

verus! {

/// The short link that the client shows for a stored record: the server's URL, the record
/// type's name, `/` and the record's id, written one after the other.
pub fn short_link(backend_url: &str, record_type: RecordType, index: &str) -> (r: String)
    ensures
        r@ == backend_url@ + record_type_name(record_type) + "/"@ + index@,
{
    let mut s = backend_url.to_owned();
    s.append(record_type.name());
    s.append("/");
    s.append(index);
    s
}

/// The path, relative to the server's URL, under which a record is read back: the record
/// type's name, `/` and the id in decimal.
pub fn record_path(record_type: RecordType, id: u32) -> (r: String)
    ensures
        r@ == record_type_name(record_type) + "/"@ + decimal(id as nat),
{
    let mut s = record_type.name().to_owned();
    s.append("/");
    let digits = format_u64(id as u64);
    s.append(digits.as_str());
    s
}

/// The URL under which a record is read back from the server.
pub fn record_url(backend_url: &str, record_type: RecordType, id: u32) -> (r: Result<
    String,
    InvalidUrl,
>)
    ensures
        match r {
            Ok(u) => url_join(backend_url@, record_type_name(record_type) + "/"@ + decimal(id as nat))
                == Some(u@),
            Err(_) => url_join(
                backend_url@,
                record_type_name(record_type) + "/"@ + decimal(id as nat),
            ) is None,
        },
{
    let path = record_path(record_type, id);
    join_url(backend_url, path.as_str())
}

/// The URL of the server's difficulty route.
pub fn difficulty_url(backend_url: &str) -> (r: Result<String, InvalidUrl>)
    ensures
        match r {
            Ok(u) => url_join(backend_url@, API_DIFFICULTY@) == Some(u@),
            Err(_) => url_join(backend_url@, API_DIFFICULTY@) is None,
        },
{
    join_url(backend_url, API_DIFFICULTY)
}

/// Reads the difficulty from the body of the server's answer, as `str::parse::<usize>` does.
pub fn parse_difficulty(body: &str) -> (r: Option<usize>)
    ensures
        match r {
            Some(v) => parse_unsigned(body@, usize::MAX as nat) == Some(v as nat),
            None => parse_unsigned(body@, usize::MAX as nat) is None,
        },
{
    parse_usize(body)
}

/// The URL to which a request of type `T` is posted: the record type's route prefix resolved
/// against the server's URL.
pub fn submission_url<T: RecordPayload>(backend_url: &str) -> (r: Result<String, InvalidUrl>)
    ensures
        match r {
            Ok(u) => url_join(backend_url@, record_type_route_prefix(T::kind())) == Some(u@),
            Err(_) => url_join(backend_url@, record_type_route_prefix(T::kind())) is None,
        },
{
    join_url(backend_url, T::record_type().route_prefix())
}

/// The link that the web page shows for a stored record: the record type's route prefix, `/`
/// and the id that the server answered, resolved against the server's URL.
pub fn shared_link_url(backend_url: &str, record_type: RecordType, id: &str) -> (r: Result<
    String,
    InvalidUrl,
>)
    ensures
        match r {
            Ok(u) => url_join(backend_url@, record_type_route_prefix(record_type) + "/"@ + id@)
                == Some(u@),
            Err(_) => url_join(
                backend_url@,
                record_type_route_prefix(record_type) + "/"@ + id@,
            ) is None,
        },
{
    let mut path = record_type.route_prefix().to_owned();
    path.append("/");
    path.append(id);
    join_url(backend_url, path.as_str())
}

/// Why a link submission could not be prepared.
pub enum SubmissionError {
    /// The server's URL is not a URL.
    InvalidBackendUrl(InvalidUrl),
    /// The link is not a URL.
    InvalidLinkUrl(InvalidUrl),
}

/// Prepares a link submission from the web page: the server's URL is read first, then the
/// link; the result holds the serialization of the server's URL and the request to post.
pub fn prepare_link_submission(backend_url: &str, payload: String, challenge: String) -> (r: Result<
    (String, NewLinkScheme),
    SubmissionError,
>)
    ensures
        r matches Err(SubmissionError::InvalidBackendUrl(_)) <==> url_parse(backend_url@) is None,
        r matches Err(SubmissionError::InvalidLinkUrl(_)) <==> url_parse(backend_url@) is Some
            && url_parse(payload@) is None,
        r matches Ok((base, link)) ==> {
            &&& base@ == url_parse(backend_url@)->0
            &&& link.payload@ == url_parse(payload@)->0
            &&& link.challenge@ == challenge@
        },
{
    let base = match parse_url(backend_url) {
        Ok(b) => b,
        Err(e) => {
            return Err(SubmissionError::InvalidBackendUrl(e));
        },
    };
    match NewLinkScheme::parse_parts(payload, challenge) {
        Ok(link) => Ok((base, link)),
        Err(e) => Err(SubmissionError::InvalidLinkUrl(e)),
    }
}

} // verus!
