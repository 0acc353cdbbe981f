//! The context log: serialization, parsing, and the shape of the history.

use terminator::context::{
    add_model_context, add_user_context_with_image, add_user_context_without_image,
    initialize_context, Content, Context, InlineData, Part, Role,
};
use terminator::json::{parse_context, serialize_context, serialize_context_with_extra};

fn b(s: &str) -> Vec<u8> {
    s.as_bytes().to_vec()
}

fn text(s: &str) -> String {
    String::from_utf8(s.as_bytes().to_vec()).unwrap()
}

#[test]
fn empty_context_serializes_to_empty_document() {
    let context = Context { contents: Vec::new() };
    let doc = serialize_context(&context);
    assert_eq!(String::from_utf8(doc).unwrap(), "{\"contents\":[]}");
}

#[test]
fn one_exchange_serializes_in_order() {
    let mut context = initialize_context(None);
    add_user_context_without_image(&mut context, b("hello"));
    add_model_context(&mut context, b("hi there"));
    let doc = serialize_context(&context);
    assert_eq!(
        String::from_utf8(doc).unwrap(),
        "{\"contents\":[{\"parts\":[{\"text\":\"hello\"}],\"role\":\"user\"},{\"parts\":[{\"text\":\"hi there\"}],\"role\":\"model\"}]}"
    );
}

#[test]
fn image_turn_serializes_both_parts() {
    let mut context = Context { contents: Vec::new() };
    add_user_context_with_image(
        &mut context,
        b("what is this"),
        InlineData { mimeType: b("image/png"), data: b("AAAA") },
    );
    let doc = serialize_context(&context);
    assert_eq!(
        String::from_utf8(doc).unwrap(),
        "{\"contents\":[{\"parts\":[{\"text\":\"what is this\"},{\"inlineData\":{\"mimeType\":\"image/png\",\"data\":\"AAAA\"}}],\"role\":\"user\"}]}"
    );
}

#[test]
fn string_escapes_are_written_canonically() {
    let mut context = Context { contents: Vec::new() };
    add_user_context_without_image(&mut context, b("he\"ll\\o\n\tx\r").into_iter().chain(vec![1u8]).collect());
    let doc = String::from_utf8(serialize_context(&context)).unwrap();
    assert_eq!(
        doc,
        "{\"contents\":[{\"parts\":[{\"text\":\"he\\\"ll\\\\o\\n\\tx\\r\\u0001\"}],\"role\":\"user\"}]}"
    );
}

#[test]
fn parse_recovers_serialized_context() {
    let mut context = Context { contents: Vec::new() };
    add_user_context_with_image(
        &mut context,
        b("look \"here\"\nnow"),
        InlineData { mimeType: b("image/jpg"), data: b("QUJD") },
    );
    add_model_context(&mut context, b("an \\escaped\\ reply\twith\rcontrol"));
    let doc = serialize_context(&context);
    let parsed = parse_context(&doc).expect("canonical document must parse");
    assert_eq!(parsed.contents.len(), 2);
    match &parsed.contents[0] {
        Content { parts, role: Role::User } => {
            assert_eq!(parts.len(), 2);
            match &parts[0] {
                Part::Text { text } => assert_eq!(text, &b("look \"here\"\nnow")),
                _ => panic!("first part must be text"),
            }
            match &parts[1] {
                Part::InlineData { inlineData } => {
                    assert_eq!(inlineData.mimeType, b("image/jpg"));
                    assert_eq!(inlineData.data, b("QUJD"));
                }
                _ => panic!("second part must be the attachment"),
            }
        }
        _ => panic!("first turn must be the user turn"),
    }
    match &parsed.contents[1] {
        Content { parts, role: Role::Model } => match &parts[0] {
            Part::Text { text } => {
                assert_eq!(text, &b("an \\escaped\\ reply\twith\rcontrol"))
            }
            _ => panic!("model part must be text"),
        },
        _ => panic!("second turn must be the model turn"),
    }
}

#[test]
fn parse_round_trips_control_bytes() {
    let mut context = Context { contents: Vec::new() };
    let mut payload = b("a");
    payload.push(1);
    payload.push(31);
    payload.push(9);
    add_model_context(&mut context, payload.clone());
    let doc = serialize_context(&context);
    let parsed = parse_context(&doc).unwrap();
    match &parsed.contents[0] {
        Content { parts, .. } => match &parts[0] {
            Part::Text { text } => assert_eq!(text, &payload),
            _ => panic!("expected text"),
        },
    }
}

#[test]
fn parse_rejects_malformed_documents() {
    assert!(parse_context(&b("")).is_none());
    assert!(parse_context(&b("{}")).is_none());
    assert!(parse_context(&b("{\"contents\":[")).is_none());
    assert!(parse_context(&b("{\"contents\":[]} ")).is_none());
    assert!(parse_context(&b("{\"contents\":[{\"parts\":[],\"role\":\"other\"}]}")).is_none());
    assert!(parse_context(&b("{\"contents\": []}")).is_none());
}

#[test]
fn persona_seeds_a_single_user_turn() {
    let context = initialize_context(Some(b("act as a terminal")));
    assert_eq!(context.contents.len(), 1);
    match &context.contents[0] {
        Content { parts, role: Role::User } => match &parts[0] {
            Part::Text { text } => assert_eq!(text, &b("act as a terminal")),
            _ => panic!("persona part must be text"),
        },
        _ => panic!("persona turn must be a user turn"),
    }
}

#[test]
fn request_body_appends_pending_turn_without_mutating_log() {
    let mut context = initialize_context(None);
    add_user_context_without_image(&mut context, b("q1"));
    add_model_context(&mut context, b("a1"));
    let before = serialize_context(&context);
    let pending = Content {
        parts: vec![Part::Text { text: b("q2") }],
        role: Role::User,
    };
    let body = serialize_context_with_extra(&context, &pending);
    assert_eq!(serialize_context(&context), before);
    let body_text = text(std::str::from_utf8(&body).unwrap());
    assert!(body_text.ends_with("{\"parts\":[{\"text\":\"q2\"}],\"role\":\"user\"}]}"));
    let parsed = parse_context(&body).unwrap();
    assert_eq!(parsed.contents.len(), 3);
}
