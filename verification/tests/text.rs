use target_cpp::text::{byte_length, decimal_text, push_decimal, same_text, tail_from, text_less};

#[test]
fn decimal_of_small_and_large_numbers() {
    assert_eq!(decimal_text(0), "0");
    assert_eq!(decimal_text(7), "7");
    assert_eq!(decimal_text(10), "10");
    assert_eq!(decimal_text(109), "109");
    assert_eq!(decimal_text(12345), "12345");
    assert_eq!(decimal_text(usize::MAX), usize::MAX.to_string());
}

#[test]
fn push_decimal_appends() {
    let mut out = "case ".to_string();
    push_decimal(&mut out, 42);
    assert_eq!(out, "case 42");
}

#[test]
fn same_text_compares_contents() {
    assert!(same_text("abc", "abc"));
    assert!(same_text("", ""));
    assert!(!same_text("abc", "abd"));
    assert!(!same_text("abc", "ab"));
}

#[test]
fn text_less_is_lexicographic() {
    assert!(text_less("<array>", "<format>"));
    assert!(text_less("<span>", "<string_view>"));
    assert!(text_less("<string>", "<string_view>"));
    assert!(text_less("", "a"));
    assert!(!text_less("a", ""));
    assert!(!text_less("abc", "abc"));
    assert!(!text_less("b", "a"));
    assert!(text_less("Z", "a"));
}

#[test]
fn text_less_agrees_with_the_order_of_strings() {
    let samples = ["", "a", "ab", "b", "<map>", "<memory>", "é", "e", "z", "日本", "~"];
    for a in samples {
        for b in samples {
            assert_eq!(text_less(a, b), a < b);
        }
    }
}

#[test]
fn tail_and_byte_length() {
    assert_eq!(byte_length("Shape"), 5);
    assert_eq!(byte_length("é"), 2);
    assert_eq!(tail_from("ShapeCircle", 5), "Circle");
    assert_eq!(tail_from("Shape", 5), "");
    assert_eq!(tail_from("Shape", 0), "Shape");
}
