use tupi_voice::text::truncate_chars;

#[test]
fn truncate_chars_keeps_short_strings_intact() {
    assert_eq!(truncate_chars("1.4.0", 64), "1.4.0");
    assert_eq!(truncate_chars("", 64), "");
}

#[test]
fn truncate_chars_caps_long_strings_at_the_limit() {
    let s = "v".repeat(10_000);
    assert_eq!(truncate_chars(&s, 64).chars().count(), 64);
}

#[test]
fn truncate_chars_never_splits_a_multibyte_char() {
    let s = "é".repeat(50); // 2 bytes per char
    let out = truncate_chars(&s, 10);
    assert_eq!(out.chars().count(), 10);
    assert_eq!(out, "é".repeat(10));
}
