use interlinked::new_object_schemes::{NewLinkScheme, NewNoteScheme, RecordPayload};
use interlinked::proof_of_work::solve_pow_challenge;
use interlinked::routes::RecordType;
use interlinked::server::{
    check_submission, difficulty_text, fetch_step, insert_reply, text_reply, DbRecordType,
    FetchStep, HttpReply, InsertOutcome, LinkHandler, MainPage, NewRecord, NoteHandler, Record,
    RecordHandler,
};

fn body_text(r: &HttpReply) -> String {
    String::from_utf8(r.body.clone()).unwrap()
}

#[test]
fn record_type_text_round_trips() {
    for t in [RecordType::Link, RecordType::Note] {
        let db = DbRecordType(t);
        let text = db.to_text();
        match DbRecordType::from_text(&text) {
            Ok(back) => assert_eq!(back, db),
            Err(_) => panic!("refused {text}"),
        }
    }
    assert_eq!(DbRecordType(RecordType::Link).to_text(), "link");
    assert_eq!(DbRecordType(RecordType::Note).to_text(), "note");
}

#[test]
fn unknown_record_type_text_is_refused() {
    match DbRecordType::from_text("photo") {
        Ok(_) => panic!("accepted"),
        Err(msg) => assert_eq!(msg, "unknown record type: photo"),
    }
    assert!(DbRecordType::from_text("Link").is_err());
}

#[test]
fn record_type_conversions() {
    let db: DbRecordType = RecordType::Note.into();
    assert_eq!(db, DbRecordType(RecordType::Note));
    let back: RecordType = db.into();
    assert_eq!(back, RecordType::Note);
}

#[test]
fn submission_without_enough_zeros_is_refused() {
    let rep = check_submission("hello", 1).expect("refused");
    assert_eq!(rep.status, 400);
    assert!(rep.location.is_none());
    assert_eq!(body_text(&rep), "Hash does not compute!");
}

#[test]
fn solved_submission_is_let_through() {
    let (attempt, _) = solve_pow_challenge(1, 99).expect("a solution");
    assert!(check_submission(&attempt, 1).is_none());
    assert!(check_submission("hello", 0).is_none());
}

#[test]
fn new_record_keeps_the_proof_and_type() {
    let note = NewNoteScheme { payload: "hello!\n".to_string(), challenge: "abc".to_string() };
    let rec = NewRecord::from_submission(&note, "objects/key".to_string());
    assert_eq!(rec.payload, "objects/key");
    assert_eq!(rec.challenge_proof, "abc");
    assert_eq!(rec.record_type, DbRecordType(RecordType::Note));
    let link = NewLinkScheme { payload: "http://github.com/".to_string(), challenge: "xyz".to_string() };
    let rec = NewRecord::from_submission(&link, link.payload().to_string());
    assert_eq!(rec.payload, "http://github.com/");
    assert_eq!(rec.record_type, DbRecordType(RecordType::Link));
}

#[test]
fn insertion_replies() {
    let ok = insert_reply(InsertOutcome::Inserted(1));
    assert_eq!(ok.status, 200);
    assert_eq!(body_text(&ok), "1");
    let big = insert_reply(InsertOutcome::Inserted(40213));
    assert_eq!(body_text(&big), "40213");
    let used = insert_reply(InsertOutcome::ProofAlreadyUsed);
    assert_eq!(used.status, 409);
    assert_eq!(body_text(&used), "Proof already used, try again!");
}

#[test]
fn handler_messages() {
    assert_eq!(LinkHandler::record_type(), "link");
    assert_eq!(NoteHandler::record_type(), "note");
    assert_eq!(LinkHandler::not_found_message("3"), "record with id 3 not found");
    assert_eq!(NoteHandler::not_found_message("3"), "record with id 3 not found");
    assert_eq!(LinkHandler::wrong_type_message("3"), "record with id 3 is a note, not a link");
    assert_eq!(NoteHandler::wrong_type_message("3"), "record with id 3 is a link and not a note");
}

fn link_record() -> Record {
    Record { id: 1, payload: "http://gitlab.com/".to_string(), record_type: DbRecordType(RecordType::Link) }
}

#[test]
fn missing_record_is_not_found() {
    match fetch_step::<LinkHandler>("5", None) {
        FetchStep::Reply(rep) => {
            assert_eq!(rep.status, 404);
            assert_eq!(body_text(&rep), "record with id 5 not found");
        }
        FetchStep::Handle => panic!("handled"),
    }
}

#[test]
fn record_of_the_other_type_is_not_served() {
    let rec = link_record();
    match fetch_step::<NoteHandler>("1", Some(&rec)) {
        FetchStep::Reply(rep) => {
            assert_eq!(rep.status, 404);
            assert_eq!(body_text(&rep), "record with id 1 is a link and not a note");
        }
        FetchStep::Handle => panic!("handled"),
    }
    assert!(matches!(fetch_step::<LinkHandler>("1", Some(&rec)), FetchStep::Handle));
}

#[test]
fn link_is_redirected_for_browsers() {
    let rec = link_record();
    let rep = LinkHandler::handle_record(&rec, Some("text/html,application/xhtml+xml"));
    assert_eq!(rep.status, 302);
    assert_eq!(rep.location.as_deref(), Some("http://gitlab.com/"));
    assert!(rep.body.is_empty());
}

#[test]
fn link_is_text_for_other_clients() {
    let rec = link_record();
    for accept in [None, Some("*/*"), Some("application/json")] {
        let rep = LinkHandler::handle_record(&rec, accept);
        assert_eq!(rep.status, 200);
        assert!(rep.location.is_none());
        assert_eq!(body_text(&rep), "http://gitlab.com/");
    }
}

#[test]
fn note_is_served_as_stored() {
    let rep = NoteHandler::handle_record(b"hello!\n".to_vec());
    assert_eq!(rep.status, 200);
    assert_eq!(rep.body, b"hello!\n".to_vec());
}

#[test]
fn text_reply_is_utf8() {
    let rep = text_reply(201, "héllo");
    assert_eq!(rep.body, "héllo".as_bytes().to_vec());
}

#[test]
fn main_page_drops_trailing_slashes() {
    let page = MainPage::new(3, "http://localhost:8080/");
    assert_eq!(page.difficulty, 3);
    assert_eq!(page.url, "http://localhost:8080");
}

#[test]
fn difficulty_route_body() {
    assert_eq!(difficulty_text(1), "1");
    assert_eq!(difficulty_text(32), "32");
}

#[test]
fn every_submission_is_refused_above_difficulty_32() {
    let (attempt, _) = solve_pow_challenge(1, 5).expect("a solution");
    for c in ["x", "hello", attempt.as_str()] {
        let rep = check_submission(c, 33).expect("refused");
        assert_eq!(rep.status, 400);
        assert_eq!(body_text(&rep), "Hash does not compute!");
    }
}
