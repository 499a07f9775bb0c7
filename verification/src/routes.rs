use vstd::prelude::*;

verus! {

/// Prefix shared by the API routes of the server.
pub const API_PREFIX: &'static str = "/api";

/// Route that answers with the current difficulty of the proof of work.
pub const API_DIFFICULTY: &'static str = "/api/difficulty";

/// The two kinds of record that the server stores.
#[derive(Debug, Clone, Copy, PartialEq, Eq, Structural)]
pub enum RecordType {
    Link,
    Note,
}

/// The lower-case name of a record type, as it is written in the database and in URLs.
pub open spec fn record_type_name(t: RecordType) -> Seq<char> {
    match t {
        RecordType::Link => seq!['l', 'i', 'n', 'k'],
        RecordType::Note => seq!['n', 'o', 't', 'e'],
    }
}

/// The route prefix under which records of a type are created.
pub open spec fn record_type_route_prefix(t: RecordType) -> Seq<char> {
    match t {
        RecordType::Link => seq!['/', 'l'],
        RecordType::Note => seq!['/', 'n'],
    }
}

impl RecordType {
    /// The route prefix of this record type: `/l` for links, `/n` for notes.
    pub fn route_prefix(self) -> (r: &'static str)
        ensures
            r@ == record_type_route_prefix(self),
    {
        match self {
            RecordType::Link => {
                let r = "/l";
                proof {
                    reveal_strlit("/l");
                }
                r
            },
            RecordType::Note => {
                let r = "/n";
                proof {
                    reveal_strlit("/n");
                }
                r
            },
        }
    }

    /// The lower-case name of this record type: `link` or `note`.
    pub fn name(self) -> (r: &'static str)
        ensures
            r@ == record_type_name(self),
    {
        match self {
            RecordType::Link => {
                let r = "link";
                proof {
                    reveal_strlit("link");
                }
                r
            },
            RecordType::Note => {
                let r = "note";
                proof {
                    reveal_strlit("note");
                }
                r
            },
        }
    }

    /// The displayed form of this record type: its lower-case name.
    pub fn to_string(&self) -> (r: String)
        ensures
            r@ == record_type_name(*self),
    {
        self.name().to_owned()
    }
}

/// Distinct record types have distinct names.
pub proof fn lemma_record_type_name_injective(a: RecordType, b: RecordType)
    ensures
        record_type_name(a) == record_type_name(b) <==> a == b,
{
    if a != b {
        assert(record_type_name(a)[0] != record_type_name(b)[0]);
    }
}

} // verus!
