use llama_mesh::text::{is_all_digits, is_white_space, join, same_text, to_decimal, trim};

#[test]
fn decimal_numerals() {
    assert_eq!(to_decimal(0), "0");
    assert_eq!(to_decimal(9), "9");
    assert_eq!(to_decimal(10), "10");
    assert_eq!(to_decimal(50052), "50052");
    assert_eq!(to_decimal(1234567890), "1234567890");
    assert_eq!(to_decimal(u64::MAX), "18446744073709551615");
}

#[test]
fn joining() {
    let none: Vec<String> = Vec::new();
    assert_eq!(join(&none, ","), "");
    assert_eq!(join(&vec!["a".to_string()], ","), "a");
    assert_eq!(join(&vec!["a".to_string(), "".to_string(), "c".to_string()], ", "), "a, , c");
}

#[test]
fn white_space_is_that_of_unicode() {
    for c in '\u{0}'..=char::MAX {
        assert_eq!(is_white_space(c), c.is_whitespace());
    }
}

#[test]
fn trimming() {
    for s in ["", " ", "\n", "node\n", "  a b\t", "\u{a0}x\u{3000}", "x", " \u{2028}\u{205f}"] {
        assert_eq!(trim(s), s.trim());
    }
}

#[test]
fn digits() {
    assert!(is_all_digits("0123456789"));
    assert!(is_all_digits(""));
    assert!(!is_all_digits("12a"));
    assert!(!is_all_digits("-1"));
    assert!(!is_all_digits("\u{663}"));
}

#[test]
fn comparing() {
    assert!(same_text("cuda", "cuda"));
    assert!(!same_text("cuda", "Cuda"));
    assert!(!same_text("cud", "cuda"));
}
