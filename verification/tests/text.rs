use sdf_text_view::text::{chars_of, split_chars, split_lines, str_eq, string_of};

#[test]
fn strings_compare_by_their_characters() {
    assert!(str_eq("vs_micros", "vs_micros"));
    assert!(str_eq("", ""));
    assert!(!str_eq("vs_micros", "vs_micro"));
    assert!(!str_eq("fs_micros", "vs_micros"));
    assert!(str_eq("héllo", "héllo"));
    assert!(!str_eq("héllo", "hello"));
}

#[test]
fn lines_and_pieces() {
    let lines = split_lines(&chars_of("a\r\nb\n\nc"));
    let lines: Vec<String> = lines.iter().map(|l| string_of(l)).collect();
    assert_eq!(lines, vec!["a", "b", "", "c"]);
    let pieces = split_chars(&chars_of("#include a,,b"), 9, ',');
    let pieces: Vec<String> = pieces.iter().map(|l| string_of(l)).collect();
    assert_eq!(pieces, vec!["a", "", "b"]);
}
