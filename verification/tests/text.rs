use rdesk::text::{contains_char, cut_after_last, cut_before_first, cut_line_end, decimal, parse_u32, same};

#[test]
fn decimals_are_written_and_read() {
    for n in [0, 7, 10, 30, 999, 65535, u32::MAX] {
        assert_eq!(decimal(n), format!("{}", n));
        assert_eq!(parse_u32(&decimal(n)), Some(n));
    }
}

#[test]
fn numbers_are_read_as_std_reads_them() {
    for s in ["", "+", "+5", "-5", "007", "4294967295", "4294967296", "12x", " 1", "1 ", "++1"] {
        assert_eq!(parse_u32(s), s.parse::<u32>().ok());
    }
}

#[test]
fn strings_are_cut() {
    assert_eq!(cut_after_last("A\\B\\c", '\\'), "c");
    assert_eq!(cut_after_last("abc", '\\'), "abc");
    assert_eq!(cut_after_last("abc\\", '\\'), "");
    assert_eq!(cut_before_first("u@d@e", '@'), "u");
    assert_eq!(cut_before_first("abc", '@'), "abc");
    assert_eq!(cut_before_first("@abc", '@'), "");
}

#[test]
fn strings_are_compared_and_searched() {
    assert!(same("a\u{e5}", "a\u{e5}"));
    assert!(!same("a", "b"));
    assert!(contains_char("host:1", ':'));
    assert!(!contains_char("host", ':'));
}

#[test]
fn line_ends_are_cut() {
    assert_eq!(cut_line_end("pass\r\n"), "pass");
    assert_eq!(cut_line_end("pa\nss\n\n\r"), "pa\nss");
    assert_eq!(cut_line_end(" pass "), " pass ");
    assert_eq!(cut_line_end("\n"), "");
    assert_eq!(cut_line_end(""), "");
}
