use interlinked::client::{
    difficulty_url, parse_difficulty, prepare_link_submission, record_path, record_url,
    shared_link_url, short_link, submission_url, SubmissionError,
};
use interlinked::new_object_schemes::{NewLinkScheme, NewNoteScheme, RecordPayload};
use interlinked::routes::RecordType;
use interlinked::urls::{join_url, parse_url};

fn ok<T, E>(r: Result<T, E>) -> T {
    match r {
        Ok(v) => v,
        Err(_) => panic!("unexpected error"),
    }
}

#[test]
fn link_payload_is_normalized() {
    let link = ok(NewLinkScheme::parse_parts("http://github.com".to_string(), "c".to_string()));
    assert_eq!(link.payload(), "http://github.com/");
    assert_eq!(link.challenge(), "c");
    assert_eq!(NewLinkScheme::record_type(), RecordType::Link);
    assert!(NewLinkScheme::parse_parts("github".to_string(), "c".to_string()).is_err());
}

#[test]
fn from_parts_builds_requests() {
    let link = NewLinkScheme::from_parts("http://gitlab.com".to_string(), "c".to_string());
    assert_eq!(link.payload, "http://gitlab.com/");
    let note = NewNoteScheme::from_parts("hello!\n".to_string(), "d".to_string());
    assert_eq!(note.payload(), "hello!\n");
    assert_eq!(note.challenge(), "d");
    assert_eq!(NewNoteScheme::record_type(), RecordType::Note);
}

#[test]
fn short_link_text() {
    assert_eq!(short_link("http://localhost:3000/", RecordType::Link, "1"), "http://localhost:3000/link/1");
}

#[test]
fn record_paths_and_urls() {
    assert_eq!(record_path(RecordType::Note, 7), "note/7");
    assert_eq!(ok(record_url("http://localhost:3000", RecordType::Link, 1)), "http://localhost:3000/link/1");
    assert!(record_url("nowhere", RecordType::Link, 1).is_err());
}

#[test]
fn difficulty_route_url_and_body() {
    assert_eq!(ok(difficulty_url("http://localhost:3000/x/")), "http://localhost:3000/api/difficulty");
    assert_eq!(parse_difficulty("3"), Some(3));
    assert_eq!(parse_difficulty("three"), None);
}

#[test]
fn submission_urls() {
    assert_eq!(ok(submission_url::<NewLinkScheme>("http://localhost:3000/")), "http://localhost:3000/l");
    assert_eq!(ok(submission_url::<NewNoteScheme>("http://localhost:3000/")), "http://localhost:3000/n");
}

#[test]
fn shared_link() {
    assert_eq!(ok(shared_link_url("http://h.example/", RecordType::Note, "5")), "http://h.example/n/5");
}

#[test]
fn link_submission_checks_both_urls() {
    let (base, link) = ok(prepare_link_submission("http://localhost:3000", "http://github.com".to_string(), "c".to_string()));
    assert_eq!(base, "http://localhost:3000/");
    assert_eq!(link.payload, "http://github.com/");
    assert!(matches!(
        prepare_link_submission("bad", "http://github.com".to_string(), "c".to_string()),
        Err(SubmissionError::InvalidBackendUrl(_))
    ));
    assert!(matches!(
        prepare_link_submission("http://localhost:3000", "bad".to_string(), "c".to_string()),
        Err(SubmissionError::InvalidLinkUrl(_))
    ));
}

#[test]
fn url_parse_and_join() {
    assert_eq!(ok(parse_url("HTTP://Example.COM")), "http://example.com/");
    assert!(parse_url("").is_err());
    assert_eq!(ok(join_url("https://example.net/a/b.html", "c.png")), "https://example.net/a/c.png");
}

#[test]
fn served_difficulty_reads_back() {
    for d in [0u32, 1, 5, 32, u32::MAX] {
        let body = interlinked::server::difficulty_text(d);
        assert_eq!(parse_difficulty(&body), Some(d as usize));
    }
}
