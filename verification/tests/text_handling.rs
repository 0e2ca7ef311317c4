use ankora::text::{contains_text, push_decimal, text_is, trim_text};

#[test]
fn trim_removes_unicode_white_space() {
    assert_eq!(trim_text("\u{3000} \t hello world \u{a0}\n"), "hello world");
    assert_eq!(trim_text("   "), "");
    assert_eq!(trim_text(trim_text("  x  ").as_str()), "x");
}

#[test]
fn trim_agrees_with_the_standard_library() {
    for s in ["", " a ", "\u{85}b\u{2029}", "a b", "\u{200b}c"] {
        assert_eq!(trim_text(s), s.trim());
    }
}

#[test]
fn contains_and_equality() {
    assert!(contains_text("haystack", "st"));
    assert!(contains_text("haystack", ""));
    assert!(!contains_text("hay", "hays"));
    assert!(text_is("pdf", "pdf"));
    assert!(!text_is("pdf", "PDF"));
}

#[test]
fn decimals() {
    let mut s = String::from("n=");
    push_decimal(&mut s, 0);
    assert_eq!(s, "n=0");
    let mut t = String::new();
    push_decimal(&mut t, u64::MAX);
    assert_eq!(t, u64::MAX.to_string());
}

#[test]
fn white_space_matches_the_standard_library_for_every_character() {
    for code in 0u32..=0x10FFFF {
        if let Some(c) = char::from_u32(code) {
            let s = format!("a{}", c);
            assert_eq!(trim_text(&s), s.trim(), "character U+{:04X}", code);
        }
    }
}
