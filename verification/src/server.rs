use vstd::prelude::*;
use vstd::std_specs::convert::FromSpecImpl;
use vstd::utf8::encode_utf8;

use crate::new_object_schemes::{NewLinkScheme, RecordPayload};
use crate::proof_of_work::{
    challenge_accepted, challenge_digest, challenge_meets_difficulty, zero_byte_prefix,
};
use crate::routes::{lemma_record_type_name_injective, record_type_name, RecordType};
use crate::text::{
    lemma_contains_at_any_position,
    lemma_parse_i32_signed_decimal, parse_signed_i32,
    contains_seq, contains_str, decimal, format_i32, format_u64, signed_decimal, str_equal,
    trim_end_char, trim_end_slashes,
};

verus! {

// ---------------------------------------------------------------------------
// Stored records
// ---------------------------------------------------------------------------

/// The record type as it is kept in the database, where it is written as its name.
#[derive(Debug, Clone, Copy, PartialEq, Eq, Structural)]
pub struct DbRecordType(pub RecordType);

impl From<RecordType> for DbRecordType {
    fn from(rt: RecordType) -> (r: Self) {
        DbRecordType(rt)
    }
}

impl FromSpecImpl<RecordType> for DbRecordType {
    open spec fn obeys_from_spec() -> bool {
        true
    }

    open spec fn from_spec(v: RecordType) -> Self {
        DbRecordType(v)
    }
}

impl From<DbRecordType> for RecordType {
    fn from(db: DbRecordType) -> (r: Self) {
        db.0
    }
}

impl FromSpecImpl<DbRecordType> for RecordType {
    open spec fn obeys_from_spec() -> bool {
        true
    }

    open spec fn from_spec(v: DbRecordType) -> Self {
        v.0
    }
}

/// The record type that a name stands for in the database, if any.
pub open spec fn record_type_named(s: Seq<char>) -> Option<RecordType> {
    if s == record_type_name(RecordType::Link) {
        Some(RecordType::Link)
    } else if s == record_type_name(RecordType::Note) {
        Some(RecordType::Note)
    } else {
        None
    }
}

impl DbRecordType {
    /// The text that the database holds for this record type: its name.
    pub fn to_text(&self) -> (r: String)
        ensures
            r@ == record_type_name(self.0),
    {
        self.0.to_string()
    }

    /// Reads a record type from the text the database holds: `link` or `note`; any other text
    /// is refused with `unknown record type: ` followed by the text.
    pub fn from_text(s: &str) -> (r: Result<DbRecordType, String>)
        ensures
            match r {
                Ok(t) => record_type_named(s@) == Some(t.0),
                Err(msg) => record_type_named(s@) is None && msg@ == "unknown record type: "@
                    + s@,
            },
    {
        if str_equal(s, RecordType::Link.name()) {
            Ok(DbRecordType(RecordType::Link))
        } else if str_equal(s, RecordType::Note.name()) {
            Ok(DbRecordType(RecordType::Note))
        } else {
            let mut msg = "unknown record type: ".to_owned();
            msg.append(s);
            Err(msg)
        }
    }
}

/// What the database is given for a record type reads back as that record type: the text that
/// `DbRecordType::to_text` writes is read by `DbRecordType::from_text` as the same type.
pub proof fn lemma_record_type_text_roundtrip(t: RecordType)
    ensures
        record_type_named(record_type_name(t)) == Some(t),
{
    lemma_record_type_name_injective(t, RecordType::Link);
    lemma_record_type_name_injective(t, RecordType::Note);
}

/// A record about to be inserted.
pub struct NewRecord {
    pub payload: String,
    pub challenge_proof: String,
    pub record_type: DbRecordType,
}

/// A record read back from the database.
pub struct Record {
    pub id: i32,
    pub payload: String,
    pub record_type: DbRecordType,
}

// ---------------------------------------------------------------------------
// Replies
// ---------------------------------------------------------------------------

/// An HTTP reply: its status, an optional `Location` header and its body.
pub struct HttpReply {
    pub status: u16,
    pub location: Option<String>,
    pub body: Vec<u8>,
}

/// Whether a reply has the given status, no `Location` header and the UTF-8 bytes of `text` as
/// its body.
pub open spec fn is_text_reply(r: HttpReply, status: u16, text: Seq<char>) -> bool {
    r.status == status && r.location is None && r.body@ == encode_utf8(text)
}

/// A reply with the given status whose body is the UTF-8 bytes of `text`.
pub fn text_reply(status: u16, text: &str) -> (r: HttpReply)
    ensures
        is_text_reply(r, status, text@),
{
    HttpReply { status, location: None, body: text.as_bytes_vec() }
}

// ---------------------------------------------------------------------------
// Creating a record
// ---------------------------------------------------------------------------

/// Checks the proof of work of a submission against the server's difficulty. `None` lets the
/// submission through; otherwise the reply is a `400` that says `Hash does not compute!`. A
/// submission passes exactly when the digest of its challenge begins with `difficulty` bytes
/// `0x30`, so every submission is refused at a difficulty above 32.
pub fn check_submission(challenge: &str, difficulty: u32) -> (r: Option<HttpReply>)
    ensures
        r is None <==> challenge_accepted(challenge@, difficulty as nat),
        r is None <==> zero_byte_prefix(challenge_digest(challenge@), difficulty as nat),
        difficulty > 32 ==> r is Some,
        r matches Some(rep) ==> is_text_reply(rep, 400, "Hash does not compute!"@),
{
    if challenge_meets_difficulty(challenge, difficulty as usize) {
        None
    } else {
        Some(text_reply(400, "Hash does not compute!"))
    }
}

impl NewRecord {
    /// The record to insert for a submission whose payload has been stored as `payload`: it
    /// keeps the submission's challenge as the proof and the submission's record type.
    pub fn from_submission<T: RecordPayload>(body: &T, payload: String) -> (r: NewRecord)
        ensures
            r.payload@ == payload@,
            r.challenge_proof@ == body.challenge_text(),
            r.record_type == DbRecordType(T::kind()),
    {
        NewRecord {
            payload,
            challenge_proof: body.challenge().to_owned(),
            record_type: DbRecordType(T::record_type()),
        }
    }
}

/// How inserting a record ended, apart from a database failure.
pub enum InsertOutcome {
    /// The record was inserted under this id.
    Inserted(i32),
    /// A record with the same proof already exists.
    ProofAlreadyUsed,
}

/// The reply to an insertion: `200` with the new id in decimal, or `409` with
/// `Proof already used, try again!`.
pub fn insert_reply(outcome: InsertOutcome) -> (r: HttpReply)
    ensures
        match outcome {
            InsertOutcome::Inserted(id) => is_text_reply(r, 200, signed_decimal(id as int)),
            InsertOutcome::ProofAlreadyUsed => is_text_reply(
                r,
                409,
                "Proof already used, try again!"@,
            ),
        },
{
    match outcome {
        InsertOutcome::Inserted(id) => {
            let text = format_i32(id);
            text_reply(200, text.as_str())
        },
        InsertOutcome::ProofAlreadyUsed => text_reply(409, "Proof already used, try again!"),
    }
}

// ---------------------------------------------------------------------------
// Fetching a record
// ---------------------------------------------------------------------------

/// The message for an id under which nothing is stored.
pub open spec fn not_found_text(id: Seq<char>) -> Seq<char> {
    "record with id "@ + id + " not found"@
}

/// What a route that serves one record type says and expects.
pub trait RecordHandler {
    /// The record type that the route serves.
    spec fn handled_type() -> RecordType;

    /// The message for an id whose record has the other type.
    spec fn wrong_type_text(id: Seq<char>) -> Seq<char>;

    /// The name of the record type that the route serves.
    fn record_type() -> (r: &'static str)
        ensures
            r@ == record_type_name(Self::handled_type()),
    ;

    /// The message for an id under which nothing is stored.
    fn not_found_message(id: &str) -> (r: String)
        ensures
            r@ == not_found_text(id@),
    ;

    /// The message for an id whose record has the other type.
    fn wrong_type_message(id: &str) -> (r: String)
        ensures
            r@ == Self::wrong_type_text(id@),
    ;
}

fn record_message(id: &str, tail: &str) -> (r: String)
    ensures
        r@ == "record with id "@ + id@ + tail@,
{
    let mut s = "record with id ".to_owned();
    s.append(id);
    s.append(tail);
    s
}

/// The route that serves links.
pub struct LinkHandler;

/// The route that serves notes.
pub struct NoteHandler;

impl RecordHandler for LinkHandler {
    open spec fn handled_type() -> RecordType {
        RecordType::Link
    }

    open spec fn wrong_type_text(id: Seq<char>) -> Seq<char> {
        "record with id "@ + id + " is a note, not a link"@
    }

    fn record_type() -> (r: &'static str) {
        RecordType::Link.name()
    }

    fn not_found_message(id: &str) -> (r: String) {
        record_message(id, " not found")
    }

    fn wrong_type_message(id: &str) -> (r: String) {
        record_message(id, " is a note, not a link")
    }
}

impl RecordHandler for NoteHandler {
    open spec fn handled_type() -> RecordType {
        RecordType::Note
    }

    open spec fn wrong_type_text(id: Seq<char>) -> Seq<char> {
        "record with id "@ + id + " is a link and not a note"@
    }

    fn record_type() -> (r: &'static str) {
        RecordType::Note.name()
    }

    fn not_found_message(id: &str) -> (r: String) {
        record_message(id, " not found")
    }

    fn wrong_type_message(id: &str) -> (r: String) {
        record_message(id, " is a link and not a note")
    }
}

/// What to do with the result of looking a record up.
pub enum FetchStep {
    /// Answer with this reply.
    Reply(HttpReply),
    /// The record has the route's type: let the route's handler answer.
    Handle,
}

/// Decides what the lookup of `id` gives: `404` with the not-found message when nothing is
/// stored, `404` with the wrong-type message when the record has the other type, and the
/// route's handler otherwise.
pub fn fetch_step<T: RecordHandler>(id: &str, rec: Option<&Record>) -> (r: FetchStep)
    ensures
        match rec {
            None => r matches FetchStep::Reply(rep) && is_text_reply(rep, 404, not_found_text(id@)),
            Some(x) => if x.record_type.0 == T::handled_type() {
                r is Handle
            } else {
                r matches FetchStep::Reply(rep) && is_text_reply(
                    rep,
                    404,
                    T::wrong_type_text(id@),
                )
            },
        },
{
    match rec {
        Some(x) => {
            let stored = x.record_type.to_text();
            proof {
                lemma_record_type_name_injective(x.record_type.0, T::handled_type());
            }
            if !str_equal(stored.as_str(), T::record_type()) {
                let msg = T::wrong_type_message(id);
                return FetchStep::Reply(text_reply(404, msg.as_str()));
            }
            FetchStep::Handle
        },
        None => {
            let msg = T::not_found_message(id);
            FetchStep::Reply(text_reply(404, msg.as_str()))
        },
    }
}

/// The parts of a reply: status, `Location` header and body.
pub open spec fn reply_view(r: HttpReply) -> (u16, Option<Seq<char>>, Seq<u8>) {
    (
        r.status,
        match r.location {
            Some(l) => Some(l@),
            None => None,
        },
        r.body@,
    )
}

/// The texts of an optional header.
pub open spec fn header_view(h: Option<&str>) -> Option<Seq<char>> {
    match h {
        Some(a) => Some(a@),
        None => None,
    }
}

/// The reply of the link route for a stored payload: a `302` redirect to it when the `Accept`
/// header mentions `text/html`, and the payload as a `200` text body otherwise.
pub open spec fn link_reply(payload: Seq<char>, accept: Option<Seq<char>>) -> (
    u16,
    Option<Seq<char>>,
    Seq<u8>,
) {
    match accept {
        Some(a) if contains_seq(a, "text/html"@) => (302, Some(payload), Seq::empty()),
        _ => (200, None, encode_utf8(payload)),
    }
}

/// A created link reads back: when the database gives back, under the id it assigned, the record
/// that `NewRecord::from_submission` made for a link request, then the decimal id that
/// `insert_reply` answers with reads as that id again, the record has the type that the link
/// route serves (so `fetch_step` hands it to the handler), and the handler's reply redirects to,
/// or answers with, the URL of the link request. That the database gives the record back is the
/// premise; the database itself lies outside the library.
pub proof fn lemma_created_link_reads_back(
    link: NewLinkScheme,
    submitted: NewRecord,
    stored: Record,
    accept: Option<Seq<char>>,
)
    requires
        submitted.record_type == DbRecordType(<NewLinkScheme as RecordPayload>::kind()),
        submitted.payload@ == link.payload_text(),
        stored.payload@ == submitted.payload@,
        stored.record_type == submitted.record_type,
    ensures
        parse_signed_i32(signed_decimal(stored.id as int)) == Some(stored.id as int),
        stored.record_type.0 == LinkHandler::handled_type(),
        link_reply(stored.payload@, accept) == (match accept {
            Some(a) if contains_seq(a, "text/html"@) => (302u16, Some(link.payload@), Seq::empty()),
            _ => (200u16, None, encode_utf8(link.payload@)),
        }),
{
    lemma_parse_i32_signed_decimal(stored.id as int);
}

impl LinkHandler {
    /// Answers with a stored link: a `302` redirect to it when the `Accept` header mentions
    /// `text/html`, and the link as a `200` text body otherwise.
    pub fn handle_record(rec: &Record, accept: Option<&str>) -> (r: HttpReply)
        ensures
            match accept {
                Some(a) if contains_seq(a@, "text/html"@) => {
                    &&& r.status == 302
                    &&& r.location matches Some(l) && l@ == rec.payload@
                    &&& r.body@.len() == 0
                },
                _ => is_text_reply(r, 200, rec.payload@),
            },
            reply_view(r) == link_reply(rec.payload@, header_view(accept)),
            forall|i: int|
                #![trigger accept->0@.subrange(i, i + "text/html"@.len())]
                accept is Some && 0 <= i && i + "text/html"@.len() <= accept->0@.len()
                    && accept->0@.subrange(i, i + "text/html"@.len()) == "text/html"@ ==> (r.status == 302 && (r.location matches Some(l) && l@
                    == rec.payload@)),
    {
        proof {
            reveal_strlit("text/html");
            if accept is Some {
                lemma_contains_at_any_position(accept->0@, "text/html"@);
            }
        }
        match accept {
            Some(a) => {
                if contains_str(a, "text/html") {
                    return HttpReply {
                        status: 302,
                        location: Some(rec.payload.clone()),
                        body: Vec::new(),
                    };
                }
            },
            None => {},
        }
        text_reply(200, rec.payload.as_str())
    }
}

impl NoteHandler {
    /// Answers with the stored content of a note as a `200` body.
    pub fn handle_record(data: Vec<u8>) -> (r: HttpReply)
        ensures
            r.status == 200,
            r.location is None,
            r.body@ == data@,
    {
        HttpReply { status: 200, location: None, body: data }
    }
}

// ---------------------------------------------------------------------------
// Other pages
// ---------------------------------------------------------------------------

/// What the main page shows: the difficulty, and the server's URL without trailing slashes.
pub struct MainPage {
    pub difficulty: u32,
    pub url: String,
}

impl MainPage {
    /// The main page for a difficulty and the serialization of the server's URL.
    pub fn new(difficulty: u32, url: &str) -> (r: MainPage)
        ensures
            r.difficulty == difficulty,
            r.url@ == trim_end_char(url@, '/'),
    {
        MainPage { difficulty, url: trim_end_slashes(url) }
    }
}

/// The body of the difficulty route: the difficulty in decimal.
pub fn difficulty_text(difficulty: u32) -> (r: String)
    ensures
        r@ == decimal(difficulty as nat),
{
    format_u64(difficulty as u64)
}

} // verus!
