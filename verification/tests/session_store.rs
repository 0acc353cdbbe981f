//! The session store: paths, idempotent initialization, gated deletion.

use terminator::session::{
    confirm_deletion, context_path, copy_image_paths, delete_session, extension_of, images_dir,
    make_session, mime_for, resolve, response_path, result_path, DeleteOutcome, SessionFiles,
};

fn b(s: &str) -> Vec<u8> {
    s.as_bytes().to_vec()
}

fn s(v: Vec<u8>) -> String {
    String::from_utf8(v).unwrap()
}

#[test]
fn resolve_strips_whitespace_from_the_session_name() {
    assert_eq!(s(resolve(&b("/base"), &b("my session"))), "/base/mysession");
    assert_eq!(s(resolve(&b("."), &b("demo"))), "./demo");
    assert_eq!(s(resolve(&b("."), &b("a\tb c\n"))), "./abc");
}

#[test]
fn session_file_paths_are_fixed() {
    let root = b("./demo");
    assert_eq!(s(context_path(&root)), "./demo/context.json");
    assert_eq!(s(response_path(&root)), "./demo/response.json");
    assert_eq!(s(result_path(&root)), "./demo/result.md");
    assert_eq!(s(images_dir(&root)), "./demo/images");
}

#[test]
fn extension_is_the_suffix_after_the_last_dot() {
    assert_eq!(s(extension_of(&b("photo.png"))), "png");
    assert_eq!(s(extension_of(&b("archive.tar.gz"))), "gz");
    assert_eq!(s(extension_of(&b("noext"))), "noext");
    assert_eq!(s(mime_for(&b("photo.jpeg"))), "image/jpeg");
}

#[test]
fn image_paths_follow_the_id_and_extension() {
    let (dest, reference) = copy_image_paths(&b("/tmp/cat.png"), &b("./demo"), &b("abc123"));
    assert_eq!(s(dest), "./demo/images/abc123.png");
    assert_eq!(s(reference), "./images/abc123.png");
}

#[test]
fn distinct_ids_give_distinct_destinations() {
    let (d1, _) = copy_image_paths(&b("cat.png"), &b("./demo"), &b("id-one"));
    let (d2, _) = copy_image_paths(&b("cat.png"), &b("./demo"), &b("id-two"));
    assert_ne!(d1, d2);
    let (d3, _) = copy_image_paths(&b("cat.png"), &b("./demo"), &b("id"));
    assert_ne!(d1, d3);
}

#[test]
fn make_session_initializes_an_absent_log() {
    let mut files = SessionFiles { context_doc: None, response_doc: None, result_doc: None };
    let created = make_session(&mut files, None);
    assert!(created);
    assert_eq!(s(files.context_doc.clone().unwrap()), "{\"contents\":[]}");
    assert!(files.response_doc.is_none());
    assert!(files.result_doc.is_none());
}

#[test]
fn make_session_is_idempotent_and_never_resets_the_log() {
    let mut files = SessionFiles {
        context_doc: Some(b("{\"contents\":[{\"parts\":[{\"text\":\"q\"}],\"role\":\"user\"}]}")),
        response_doc: Some(b("{}")),
        result_doc: Some(b("earlier")),
    };
    let before_context = files.context_doc.clone();
    let before_response = files.response_doc.clone();
    let before_result = files.result_doc.clone();
    let created = make_session(&mut files, None);
    assert!(!created);
    assert_eq!(files.context_doc, before_context);
    assert_eq!(files.response_doc, before_response);
    assert_eq!(files.result_doc, before_result);
    let created_again = make_session(&mut files, None);
    assert!(!created_again);
    assert_eq!(files.context_doc, before_context);
}

#[test]
fn make_session_with_persona_seeds_the_log() {
    let mut files = SessionFiles { context_doc: None, response_doc: None, result_doc: None };
    make_session(&mut files, Some(b("be brief")));
    assert_eq!(
        s(files.context_doc.unwrap()),
        "{\"contents\":[{\"parts\":[{\"text\":\"be brief\"}],\"role\":\"user\"}]}"
    );
}

#[test]
fn only_y_confirms_deletion() {
    assert!(confirm_deletion(&b("Y")));
    assert!(confirm_deletion(&b("y\n")));
    assert!(confirm_deletion(&b("  y  ")));
    assert!(!confirm_deletion(&b("yes")));
    assert!(!confirm_deletion(&b("N")));
    assert!(!confirm_deletion(&b("")));
    assert!(!confirm_deletion(&b("Y y")));
}

#[test]
fn declined_deletion_leaves_the_session_untouched() {
    let files = SessionFiles {
        context_doc: Some(b("{\"contents\":[]}")),
        response_doc: Some(b("raw")),
        result_doc: Some(b("entry")),
    };
    let (kept, outcome) = delete_session(Some(files), &b("n\n"));
    assert_eq!(outcome, DeleteOutcome::Declined);
    let kept = kept.expect("the session must survive");
    assert_eq!(s(kept.context_doc.unwrap()), "{\"contents\":[]}");
    assert_eq!(s(kept.response_doc.unwrap()), "raw");
    assert_eq!(s(kept.result_doc.unwrap()), "entry");
}

#[test]
fn confirmed_deletion_removes_the_session() {
    let files = SessionFiles {
        context_doc: Some(b("{\"contents\":[]}")),
        response_doc: None,
        result_doc: None,
    };
    let (kept, outcome) = delete_session(Some(files), &b("Y\n"));
    assert_eq!(outcome, DeleteOutcome::Deleted);
    assert!(kept.is_none());
}

#[test]
fn deleting_a_missing_session_reports_it() {
    let (kept, outcome) = delete_session(None, &b("Y"));
    assert_eq!(outcome, DeleteOutcome::Missing);
    assert!(kept.is_none());
}
