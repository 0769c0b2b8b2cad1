use heap_oracle::text::{
    dec_string, push_dec, push_dec_fill, push_dec_int, push_hex, push_hex0x, push_hex0x_fill,
    push_hex_wide, push_line, push_lines, push_padded, push_run, same_text,
};

fn built(write: impl Fn(&mut String)) -> String {
    let mut out = "<".to_string();
    write(&mut out);
    out
}

#[test]
fn decimal_numbers() {
    assert_eq!(dec_string(0), "0");
    assert_eq!(dec_string(u64::MAX), u64::MAX.to_string());
    assert_eq!(built(|out| push_dec(out, 1090)), "<1090");
    assert_eq!(built(|out| push_dec_int(out, -17)), "<-17");
    assert_eq!(built(|out| push_dec_int(out, 17)), "<17");
    assert_eq!(built(|out| push_dec_fill(out, 7, 2)), "<07");
    assert_eq!(built(|out| push_dec_fill(out, 123, 2)), "<123");
}

#[test]
fn hexadecimal_numbers() {
    assert_eq!(built(|out| push_hex(out, 0)), "<0");
    assert_eq!(built(|out| push_hex(out, 0x0123_4567_89ab_cdef)), "<123456789abcdef");
    assert_eq!(built(|out| push_hex_wide(out, u128::MAX)), format!("<{:x}", u128::MAX));
    assert_eq!(built(|out| push_hex0x(out, 0x10)), "<0x10");
    assert_eq!(built(|out| push_hex0x_fill(out, 0x18, 6)), "<0x0018");
    assert_eq!(built(|out| push_hex0x_fill(out, 0x12345, 6)), "<0x12345");
    assert_eq!(built(|out| push_hex0x_fill(out, 0, 14)), "<0x000000000000");
}

#[test]
fn padding_counts_characters() {
    assert_eq!(built(|out| push_padded(out, "é", 3)), "<é  ");
    assert_eq!(built(|out| push_padded(out, "abcd", 3)), "<abcd");
    assert_eq!(built(|out| push_run(out, "─", 3)), "<───");
    assert_eq!(built(|out| push_run(out, "x", 0)), "<");
}

#[test]
fn texts_and_lines() {
    assert!(same_text("a", "a") && !same_text("a", "b") && !same_text("a", "aa"));
    let mut lines: Vec<String> = Vec::new();
    push_line(&mut lines, "one".to_string());
    push_lines(&mut lines, vec!["two".to_string(), "three".to_string()]);
    assert_eq!(lines, vec!["one", "two", "three"]);
}
