//! One exchange end to end: envelope, classification, commit, transcript.

use terminator::context::{initialize_context, Content, InlineData, Part, Role};
use terminator::exchange::{
    build_request_body, complete_exchange, is_success, next_phase, render_entry, request_url,
    run_exchange, ExchangeEvent, ExchangePhase,
};
use terminator::json::parse_context;
use terminator::session::{make_session, SessionFiles};
use terminator::CoreError;

fn b(s: &str) -> Vec<u8> {
    s.as_bytes().to_vec()
}

fn s(v: Vec<u8>) -> String {
    String::from_utf8(v).unwrap()
}

fn mock_body(reply: &str) -> Vec<u8> {
    let mut body = String::from("{\"candidates\":[{\"content\":{\"parts\":[{\"text\":\"");
    body.push_str(reply);
    body.push_str("\"}]}}]}");
    body.into_bytes()
}

#[test]
fn only_2xx_counts_as_success() {
    assert!(is_success(200));
    assert!(is_success(204));
    assert!(is_success(299));
    assert!(!is_success(199));
    assert!(!is_success(300));
    assert!(!is_success(404));
    assert!(!is_success(500));
}

#[test]
fn url_carries_the_key_as_query_credential() {
    let url = s(request_url(&b("SECRET-REDACTED")));
    assert!(url.starts_with("https://generativelanguage.googleapis.com/"));
    assert!(url.ends_with(":generateContent?key=SECRET-REDACTED"));
}

#[test]
fn request_body_holds_history_plus_pending_turn() {
    let mut context = initialize_context(None);
    terminator::context::add_user_context_without_image(&mut context, b("q1"));
    terminator::context::add_model_context(&mut context, b("a1"));
    let body = build_request_body(&context, b("q2"), None);
    assert_eq!(
        s(body),
        "{\"contents\":[{\"parts\":[{\"text\":\"q1\"}],\"role\":\"user\"},{\"parts\":[{\"text\":\"a1\"}],\"role\":\"model\"},{\"parts\":[{\"text\":\"q2\"}],\"role\":\"user\"}]}"
    );
}

#[test]
fn request_body_inlines_the_attachment() {
    let context = initialize_context(None);
    let body = build_request_body(
        &context,
        b("see image"),
        Some(InlineData { mimeType: b("image/png"), data: b("QQ==") }),
    );
    assert_eq!(
        s(body),
        "{\"contents\":[{\"parts\":[{\"text\":\"see image\"},{\"inlineData\":{\"mimeType\":\"image/png\",\"data\":\"QQ==\"}}],\"role\":\"user\"}]}"
    );
}

#[test]
fn end_to_end_demo_session() {
    // session "demo" does not exist: ensure creates an empty log
    let mut files = SessionFiles { context_doc: None, response_doc: None, result_doc: None };
    assert!(make_session(&mut files, None));
    assert_eq!(s(files.context_doc.clone().unwrap()), "{\"contents\":[]}");

    // the endpoint answers 200 with reply text "hi there"
    let body = mock_body("hi there");
    let shown = run_exchange(&mut files, b("hello"), None, None, 200, body.clone())
        .expect("a successful exchange commits");
    assert_eq!(s(shown), "hi there\n");

    // the log now holds exactly the two turns, in order; the model turn
    // carries the touch-up-normalized text, without the line fold the
    // rendered artifact adds
    let log = parse_context(files.context_doc.as_ref().unwrap()).unwrap();
    assert_eq!(log.contents.len(), 2);
    match &log.contents[0] {
        Content { parts, role: Role::User } => match &parts[0] {
            Part::Text { text } => assert_eq!(text, &b("hello")),
            _ => panic!("user part must be text"),
        },
        _ => panic!("first turn must be the user turn"),
    }
    match &log.contents[1] {
        Content { parts, role: Role::Model } => match &parts[0] {
            Part::Text { text } => assert_eq!(text, &b("hi there")),
            _ => panic!("model part must be text"),
        },
        _ => panic!("second turn must be the model turn"),
    }

    // the snapshot holds the raw body; the transcript holds the entry
    assert_eq!(files.response_doc.as_ref().unwrap(), &body);
    let transcript = s(files.result_doc.clone().unwrap());
    assert!(transcript.contains("# Prompt : hello"));
    assert!(transcript.contains("hi there\n"));
}

#[test]
fn context_log_alternates_after_successive_exchanges() {
    let mut files = SessionFiles { context_doc: None, response_doc: None, result_doc: None };
    make_session(&mut files, None);
    for (q, a) in [("q1", "a1"), ("q2", "a2"), ("q3", "a3")] {
        run_exchange(&mut files, b(q), None, None, 200, mock_body(a)).unwrap();
    }
    let log = parse_context(files.context_doc.as_ref().unwrap()).unwrap();
    assert_eq!(log.contents.len(), 6);
    for (i, turn) in log.contents.iter().enumerate() {
        if i % 2 == 0 {
            assert_eq!(turn.role, Role::User);
        } else {
            assert_eq!(turn.role, Role::Model);
        }
    }
}

#[test]
fn failed_exchange_leaves_every_file_byte_identical() {
    let mut files = SessionFiles { context_doc: None, response_doc: None, result_doc: None };
    make_session(&mut files, None);
    run_exchange(&mut files, b("first"), None, None, 200, mock_body("ok")).unwrap();
    let context_before = files.context_doc.clone();
    let response_before = files.response_doc.clone();
    let result_before = files.result_doc.clone();

    let err = run_exchange(&mut files, b("second"), None, None, 500, mock_body("ignored"))
        .expect_err("a non-2xx outcome is a failure");
    assert_eq!(err, CoreError::HTTPFailure);
    assert_eq!(files.context_doc, context_before);
    assert_eq!(files.response_doc, response_before);
    assert_eq!(files.result_doc, result_before);
}

#[test]
fn missing_log_fails_but_still_records_the_snapshot() {
    let mut files = SessionFiles { context_doc: None, response_doc: None, result_doc: None };
    let body = mock_body("a");
    let err = run_exchange(&mut files, b("q"), None, None, 200, body.clone()).unwrap_err();
    assert_eq!(err, CoreError::NotFound);
    assert!(files.context_doc.is_none());
    assert_eq!(files.response_doc, Some(body));
    assert!(files.result_doc.is_none());
}

#[test]
fn loading_an_absent_log_is_not_found() {
    assert_eq!(
        terminator::json::load_context(&None).unwrap_err(),
        CoreError::NotFound
    );
    assert_eq!(
        terminator::json::load_context(&Some(b("nonsense"))).unwrap_err(),
        CoreError::ParseError
    );
    let loaded = terminator::json::load_context(&Some(b("{\"contents\":[]}"))).unwrap();
    assert_eq!(loaded.contents.len(), 0);
}

#[test]
fn corrupt_log_is_a_parse_error() {
    let mut files = SessionFiles {
        context_doc: Some(b("not json at all")),
        response_doc: None,
        result_doc: None,
    };
    let err = complete_exchange(&mut files, b("q"), None, None, 200, mock_body("a"), b("a"))
        .unwrap_err();
    assert_eq!(err, CoreError::ParseError);
    assert_eq!(s(files.context_doc.unwrap()), "not json at all");
    assert_eq!(files.response_doc, Some(mock_body("a")));
    assert!(files.result_doc.is_none());
}

#[test]
fn bodyless_reply_fails_but_the_snapshot_holds_the_body() {
    let mut files = SessionFiles { context_doc: None, response_doc: None, result_doc: None };
    make_session(&mut files, None);
    let before = files.context_doc.clone();
    let err = run_exchange(&mut files, b("q"), None, None, 200, b("{\"candidates\":[]}"))
        .unwrap_err();
    assert_eq!(err, CoreError::ParseError);
    assert_eq!(files.context_doc, before);
    assert_eq!(files.response_doc, Some(b("{\"candidates\":[]}")));
    assert!(files.result_doc.is_none());
}

#[test]
fn escaped_reply_is_normalized_into_the_transcript() {
    let mut files = SessionFiles { context_doc: None, response_doc: None, result_doc: None };
    make_session(&mut files, None);
    // the wire text holds: Use\ncode — an escaped newline in the raw body
    let shown = run_exchange(
        &mut files,
        b("how"),
        None,
        None,
        200,
        mock_body("Use\\ncode"),
    )
    .unwrap();
    assert_eq!(s(shown), "Use\ncode\n");

    // the stored model turn carries the touch-up text, unfolded
    let log = parse_context(files.context_doc.as_ref().unwrap()).unwrap();
    match &log.contents[1] {
        Content { parts, .. } => match &parts[0] {
            Part::Text { text } => assert_eq!(text, &b("Use\ncode")),
            _ => panic!("model part must be text"),
        },
    }
}

#[test]
fn transcript_entry_with_image_reference() {
    let entry = render_entry(&b("what"), &Some(b("./images/abc.png")), &b("a cat\n"));
    assert_eq!(
        s(entry),
        "\n# Prompt : what\n## Image :\n![uploaded image](./images/abc.png)\n\na cat\n\n\n"
    );
    let plain = render_entry(&b("what"), &None, &b("a cat\n"));
    assert_eq!(s(plain), "\n# Prompt : what\n\na cat\n\n\n");
}

#[test]
fn transcript_accumulates_across_exchanges() {
    let mut files = SessionFiles { context_doc: None, response_doc: None, result_doc: None };
    make_session(&mut files, None);
    run_exchange(&mut files, b("one"), None, None, 200, mock_body("first")).unwrap();
    run_exchange(&mut files, b("two"), None, None, 200, mock_body("second")).unwrap();
    let transcript = s(files.result_doc.unwrap());
    let first = transcript.find("# Prompt : one").expect("first entry kept");
    let second = transcript.find("# Prompt : two").expect("second entry appended");
    assert!(first < second);
    assert!(transcript.contains("first\n"));
    assert!(transcript.contains("second\n"));
}

#[test]
fn exchange_phases_step_as_specified() {
    assert_eq!(
        next_phase(ExchangePhase::Idle, ExchangeEvent::Dispatch),
        ExchangePhase::Sending
    );
    assert_eq!(
        next_phase(ExchangePhase::Sending, ExchangeEvent::Finished(200)),
        ExchangePhase::Persisting
    );
    assert_eq!(
        next_phase(ExchangePhase::Sending, ExchangeEvent::Finished(500)),
        ExchangePhase::Idle
    );
    assert_eq!(
        next_phase(ExchangePhase::Persisting, ExchangeEvent::Persisted),
        ExchangePhase::Idle
    );
    assert_eq!(
        next_phase(ExchangePhase::Idle, ExchangeEvent::Persisted),
        ExchangePhase::Idle
    );
}
