use dsh_launcher::text;
use dsh_launcher::text::Class;

#[test]
fn white_space_and_control_characters_are_those_of_unicode() {
    for code in 0..0x11_0000u32 {
        if let Some(ch) = char::from_u32(code) {
            assert_eq!(text::white(ch), ch.is_whitespace(), "{:x}", code);
            assert_eq!(text::control(ch), ch.is_control(), "{:x}", code);
        }
    }
}

#[test]
fn trimming_takes_white_space_off_both_ends() {
    for sample in ["", " ", "a", " a b ", "\u{3000}启动\t\n", "x \u{a0}"] {
        assert_eq!(text::trim(sample), sample.trim());
        assert_eq!(text::is_blank(sample), sample.trim().is_empty());
    }
    assert_eq!(text::trim_matches("..a.b..", Class::OneOf(".")), "a.b");
    assert_eq!(text::trim_start_matches("vV1v", Class::OneOf("vV")), "1v");
}

#[test]
fn splitting_keeps_empty_pieces() {
    assert_eq!(text::split("a..b", Class::OneOf(".")), vec!["a", "", "b"]);
    assert_eq!(text::split("", Class::OneOf(".")), vec![""]);
    assert_eq!(text::split("1.2-3+4", Class::OneOf(".-+")), vec!["1", "2", "3", "4"]);
}

#[test]
fn numbers_are_written_and_read_in_decimal() {
    for value in [0u64, 7, 10, 999, 3080, u64::MAX] {
        assert_eq!(text::decimal_text(value), value.to_string());
        assert_eq!(text::parse_u64(&text::decimal_text(value)), Some(value));
    }
    for sample in ["", "+", "+5", "-1", "1a", " 1", "18446744073709551616", "000", "٣"] {
        assert_eq!(text::parse_u64(sample), sample.parse::<u64>().ok(), "{}", sample);
    }
}

#[test]
fn searching_and_lowering() {
    assert!(text::contains_text("a dsh b", "dsh"));
    assert!(text::contains_text("dsh", "dsh"));
    assert!(text::contains_text("x", ""));
    assert!(!text::contains_text("ds", "dsh"));
    assert!(!text::contains_text("d s h", "dsh"));
    assert_eq!(text::to_small("DSH-Ü插A"), "DSH-Ü插A".to_ascii_lowercase());
    assert!(text::starts_with("https://a", "https://"));
    assert!(!text::starts_with("http", "https://"));
    assert!(text::same_text("a", "a"));
    assert!(!text::same_text("a", "A"));
}
