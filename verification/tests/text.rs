use go2_runner::text::{
    chars_of, context, indent_count, parse_u16, same_text, split_lines, string_of, tail_after,
    to_decimal, white,
};

#[test]
fn lines_are_cut_as_std_cuts_them() {
    for text in [
        "", "\n", "a", "a\n", "a\nb", "a\r\nb\r\n", "a\r", "\r\n", "a\n\nb", "a\r\r\nb", "日\n本",
    ] {
        let ours: Vec<String> = split_lines(&chars_of(text)).iter().map(string_of).collect();
        let theirs: Vec<String> = text.lines().map(|l| l.to_string()).collect();
        assert_eq!(ours, theirs, "{text:?}");
    }
}

#[test]
fn white_space_is_what_std_calls_white_space() {
    for u in 0..0x11_0000u32 {
        if let Some(c) = char::from_u32(u) {
            assert_eq!(white(c), c.is_whitespace(), "{u:x}");
        }
    }
}

#[test]
fn small_numbers_are_read_as_std_reads_them() {
    for text in [
        "", "0", "7447", "65535", "65536", "99999999999", "+1", "+", "++1", "-1", "-0", " 1", "1 ",
        "1a", "007", "0000000000000000000000012",
    ] {
        assert_eq!(parse_u16(&chars_of(text)), text.parse::<u16>().ok(), "{text:?}");
    }
}

#[test]
fn numbers_are_printed_in_decimal() {
    for n in [0u64, 9, 10, 7448, 65535, u64::MAX] {
        assert_eq!(to_decimal(n), n.to_string());
    }
}

#[test]
fn texts_are_compared_whole() {
    assert!(same_text("", ""));
    assert!(same_text("go2", "go2"));
    assert!(!same_text("go2", "go"));
    assert!(!same_text("go2", "gp2"));
}

#[test]
fn indents_and_tails() {
    assert_eq!(indent_count(&chars_of("\t  x ")), 3);
    assert_eq!(indent_count(&chars_of("   ")), 3);
    assert_eq!(string_of(&tail_after(&chars_of("[::1]:80"), ':')), "80");
    assert_eq!(string_of(&tail_after(&chars_of("none"), ':')), "none");
}

#[test]
fn errors_are_put_in_context() {
    assert_eq!(context("writer", "gone"), "writer: gone");
}
