use memos_app::text::{hex_of_bytes, trimmed};

#[test]
fn hex_text_of_bytes() {
    assert_eq!(hex_of_bytes(&vec![0, 255, 16, 0xab]), "00ff10ab");
    assert_eq!(hex_of_bytes(&vec![]), "");
}

#[test]
fn trimming() {
    assert_eq!(trimmed("  a b \n"), "a b");
    assert_eq!(trimmed("\u{3000}x\u{3000}"), "x");
}
