use vstd::prelude::*;

use crate::routes::RecordType;
use crate::urls::{parse_url, url_parse, InvalidUrl};

verus! {

/// A request to store a link: the serialization of the URL, and the proof-of-work challenge.
pub struct NewLinkScheme {
    pub payload: String,
    pub challenge: String,
}

/// A request to store a note: its text, and the proof-of-work challenge.
pub struct NewNoteScheme {
    pub payload: String,
    pub challenge: String,
}

/// What a request to store a record carries.
pub trait RecordPayload: Sized {
    /// The payload text that a request carries.
    spec fn payload_text(&self) -> Seq<char>;

    /// The challenge that a request carries.
    spec fn challenge_text(&self) -> Seq<char>;

    /// The kind of record that requests of this type create.
    spec fn kind() -> RecordType;

    /// Whether `from_parts` takes this payload text.
    spec fn takes_payload(payload: Seq<char>) -> bool;

    /// The payload text of a request built by `from_parts` from this payload text.
    spec fn payload_from(payload: Seq<char>) -> Seq<char>;

    /// Builds a request from its payload text and its challenge.
    fn from_parts(payload: String, challenge: String) -> (r: Self)
        requires
            Self::takes_payload(payload@),
        ensures
            r.payload_text() == Self::payload_from(payload@),
            r.challenge_text() == challenge@,
    ;

    /// The payload text.
    fn payload(&self) -> (r: &str)
        ensures
            r@ == self.payload_text(),
    ;

    /// The kind of record that this request creates.
    fn record_type() -> (r: RecordType)
        ensures
            r == Self::kind(),
    ;

    /// The proof-of-work challenge.
    fn challenge(&self) -> (r: &str)
        ensures
            r@ == self.challenge_text(),
    ;
}

impl RecordPayload for NewNoteScheme {
    open spec fn payload_text(&self) -> Seq<char> {
        self.payload@
    }

    open spec fn challenge_text(&self) -> Seq<char> {
        self.challenge@
    }

    open spec fn kind() -> RecordType {
        RecordType::Note
    }

    open spec fn takes_payload(payload: Seq<char>) -> bool {
        true
    }

    open spec fn payload_from(payload: Seq<char>) -> Seq<char> {
        payload
    }

    fn from_parts(payload: String, challenge: String) -> (r: Self) {
        NewNoteScheme { payload, challenge }
    }

    fn payload(&self) -> (r: &str) {
        self.payload.as_str()
    }

    fn record_type() -> (r: RecordType) {
        RecordType::Note
    }

    fn challenge(&self) -> (r: &str) {
        self.challenge.as_str()
    }
}

impl RecordPayload for NewLinkScheme {
    open spec fn payload_text(&self) -> Seq<char> {
        self.payload@
    }

    open spec fn challenge_text(&self) -> Seq<char> {
        self.challenge@
    }

    open spec fn kind() -> RecordType {
        RecordType::Link
    }

    /// A link request is built only from a text that is a URL.
    open spec fn takes_payload(payload: Seq<char>) -> bool {
        url_parse(payload) is Some
    }

    /// A link request holds the serialization of the URL read from the text.
    open spec fn payload_from(payload: Seq<char>) -> Seq<char> {
        url_parse(payload)->0
    }

    fn from_parts(payload: String, challenge: String) -> (r: Self) {
        match parse_url(payload.as_str()) {
            Ok(url) => NewLinkScheme { payload: url, challenge },
            Err(_) => {
                proof {
                    assert(false);
                }
                NewLinkScheme { payload, challenge }
            },
        }
    }

    fn payload(&self) -> (r: &str) {
        self.payload.as_str()
    }

    fn record_type() -> (r: RecordType) {
        RecordType::Link
    }

    fn challenge(&self) -> (r: &str) {
        self.challenge.as_str()
    }
}

impl NewLinkScheme {
    /// Builds a link request from a text and a challenge, or gives the URL parser's reason when
    /// the text is not a URL.
    pub fn parse_parts(payload: String, challenge: String) -> (r: Result<NewLinkScheme, InvalidUrl>)
        ensures
            r is Ok <==> url_parse(payload@) is Some,
            r matches Ok(link) ==> link.payload@ == url_parse(payload@)->0 && link.challenge@
                == challenge@,
    {
        match parse_url(payload.as_str()) {
            Ok(_) => Ok(<NewLinkScheme as RecordPayload>::from_parts(payload, challenge)),
            Err(e) => Err(e),
        }
    }
}

} // verus!
