use roundnet::instruction::Errors;
use roundnet::set_buffer::{str_buf_add, str_buf_rm};

fn token(text: &str) -> [u8; 128] {
    let mut t = [0u8; 128];
    t[..text.len()].copy_from_slice(text.as_bytes());
    t
}

fn text_of(region: &[u8]) -> String {
    let end = region.iter().rposition(|b| *b != 0).map(|i| i + 1).unwrap_or(0);
    String::from_utf8(region[..end].to_vec()).unwrap()
}

#[test]
fn add_appends_separator_and_token() {
    let mut region = [0u8; 512];
    assert_eq!(str_buf_add(&mut region, &token("peer1:1234")), Ok(()));
    assert_eq!(text_of(&region), ";peer1:1234");
    assert!(region[11..].iter().all(|b| *b == 0));
    assert_eq!(str_buf_add(&mut region, &token("peer2:99")), Ok(()));
    assert_eq!(text_of(&region), ";peer1:1234;peer2:99");
}

#[test]
fn add_twice_fails_with_entry_already_exists() {
    let mut region = [0u8; 512];
    assert_eq!(str_buf_add(&mut region, &token("x")), Ok(()));
    let before = region;
    assert_eq!(str_buf_add(&mut region, &token("x")), Err(Errors::EntryAlreadyExists));
    assert_eq!(region, before);
}

#[test]
fn add_substring_of_held_token_fails() {
    let mut region = [0u8; 512];
    assert_eq!(str_buf_add(&mut region, &token("ab")), Ok(()));
    assert_eq!(str_buf_add(&mut region, &token("a")), Err(Errors::EntryAlreadyExists));
    assert_eq!(text_of(&region), ";ab");
}

#[test]
fn add_empty_token_fails() {
    let mut region = [0u8; 512];
    assert_eq!(str_buf_add(&mut region, &[0u8; 128]), Err(Errors::EntryAlreadyExists));
}

#[test]
fn add_overflow_leaves_region_unchanged() {
    let mut region = [0u8; 8];
    assert_eq!(str_buf_add(&mut region, b"abcdef"), Ok(()));
    assert_eq!(text_of(&region), ";abcdef");
    let before = region;
    assert_eq!(str_buf_add(&mut region, b"g"), Err(Errors::BufferOverflow));
    assert_eq!(region, before);
}

#[test]
fn add_exactly_fills_region() {
    let mut region = [0u8; 4];
    assert_eq!(str_buf_add(&mut region, b"abc"), Ok(()));
    assert_eq!(&region, b";abc");
}

#[test]
fn remove_missing_fails_with_entry_doesnt_exist() {
    let mut region = [0u8; 512];
    assert_eq!(str_buf_add(&mut region, &token("one")), Ok(()));
    let before = region;
    assert_eq!(str_buf_rm(&mut region, &token("two")), Err(Errors::EntryDoesntExist));
    assert_eq!(region, before);
}

#[test]
fn remove_cuts_one_token() {
    let mut region = [0u8; 512];
    for t in ["a1", "b2", "c3"] {
        assert_eq!(str_buf_add(&mut region, &token(t)), Ok(()));
    }
    assert_eq!(str_buf_rm(&mut region, &token("b2")), Ok(()));
    assert_eq!(text_of(&region), ";a1;c3");
    assert!(region[6..].iter().all(|b| *b == 0));
}

#[test]
fn remove_cuts_only_first_occurrence() {
    let mut region = [0u8; 16];
    region[..8].copy_from_slice(b";ab;ab;c");
    assert_eq!(str_buf_rm(&mut region, b"ab"), Ok(()));
    assert_eq!(text_of(&region), ";ab;c");
}

#[test]
fn remove_substring_without_separator_keeps_text() {
    let mut region = [0u8; 16];
    assert_eq!(str_buf_add(&mut region, b"ab"), Ok(()));
    assert_eq!(str_buf_rm(&mut region, b"b"), Ok(()));
    assert_eq!(text_of(&region), ";ab");
}

#[test]
fn add_then_remove_restores_empty_region() {
    let mut region = [0u8; 512];
    assert_eq!(str_buf_add(&mut region, &token("peer")), Ok(()));
    assert_eq!(str_buf_rm(&mut region, &token("peer")), Ok(()));
    assert_eq!(region, [0u8; 512]);
}
