//! Attachment ingestion: encoding and content-address generation.

use terminator::attach::{generate_random_hash, read_image};
use terminator::session::copy_image_paths;

fn b(s: &str) -> Vec<u8> {
    s.as_bytes().to_vec()
}

#[test]
fn payload_is_standard_base64_of_the_file() {
    let (_, encoded) = read_image(&b("hello"));
    assert_eq!(String::from_utf8(encoded).unwrap(), "aGVsbG8=");
    let (_, empty) = read_image(&Vec::new());
    assert_eq!(empty.len(), 0);
    let (_, padded) = read_image(&b("hi"));
    assert_eq!(String::from_utf8(padded).unwrap(), "aGk=");
}

#[test]
fn ids_are_sixty_four_hex_characters() {
    let id = generate_random_hash();
    assert_eq!(id.len(), 64);
    for byte in &id {
        assert!(byte.is_ascii_hexdigit() && !byte.is_ascii_uppercase());
    }
}

#[test]
fn reingesting_the_same_file_gives_two_distinct_copies() {
    let source = b("the same image bytes");
    let (id1, enc1) = read_image(&source);
    let (id2, enc2) = read_image(&source);
    assert_eq!(enc1, enc2);
    assert_ne!(id1, id2, "content addresses are random, never derived from content");
    let (dest1, ref1) = copy_image_paths(&b("cat.png"), &b("./demo"), &id1);
    let (dest2, ref2) = copy_image_paths(&b("cat.png"), &b("./demo"), &id2);
    assert_ne!(dest1, dest2, "the second copy never overwrites the first");
    assert_ne!(ref1, ref2);
}
