use ferris_elf::input::stabilize;

#[test]
fn stabilize_keeps_the_bytes() {
    let stable = stabilize(vec![72, 105]);
    assert_eq!(stable.as_bytes(), &b"Hi"[..]);
}

#[test]
fn ascii_input_has_a_text_view() {
    let stable = stabilize(b"Valve AA".to_vec());
    assert!(stable.is_ascii_text());
    assert_eq!(stable.as_text(), Some("Valve AA"));
}

#[test]
fn non_ascii_input_is_flagged() {
    let stable = stabilize(vec![0xC8]);
    assert!(!stable.is_ascii_text());
    assert_eq!(stable.as_text(), None);
}

#[test]
fn empty_input_is_ascii() {
    let stable = stabilize(Vec::new());
    assert!(stable.is_ascii_text());
    assert_eq!(stable.as_text(), Some(""));
}
