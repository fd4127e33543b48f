use asd::text::{
    chars_of, decimal_text, find_last, is_whitespace, port_of, same_text, starts_with, tail_after,
    trimmed, trimmed_end,
};

#[test]
fn chars_of_lists_every_character() {
    assert_eq!(chars_of("a\u{e9}b"), vec!['a', '\u{e9}', 'b']);
    assert_eq!(chars_of(""), Vec::<char>::new());
}

#[test]
fn whitespace_is_what_the_standard_library_calls_whitespace() {
    let mut code: u32 = 0;
    while code <= 0x3100 {
        if let Some(c) = char::from_u32(code) {
            assert_eq!(is_whitespace(c), c.is_whitespace(), "U+{:04X}", code);
        }
        code += 1;
    }
    assert!(!is_whitespace('\u{feff}'));
    assert!(!is_whitespace('\u{200b}'));
}

#[test]
fn trimmed_drops_whitespace_at_both_ends() {
    assert_eq!(trimmed("  secret \n"), "secret");
    assert_eq!(trimmed("\t a b \u{a0}"), "a b");
    assert_eq!(trimmed("plain"), "plain");
    assert_eq!(trimmed(" \n\t "), "");
    assert_eq!(trimmed(""), "");
}

#[test]
fn trimmed_agrees_with_the_standard_library() {
    for s in ["", " ", "a", " a", "a ", " a b ", "\n\na\r\n", "\u{3000}x\u{2003}", "  \u{e9}t\u{e9}  "] {
        assert_eq!(trimmed(s), s.trim());
        assert_eq!(trimmed_end(s), s.trim_end());
    }
}

#[test]
fn trimmed_end_keeps_leading_whitespace() {
    assert_eq!(trimmed_end("  secret \n"), "  secret");
    assert_eq!(trimmed_end("secret"), "secret");
    assert_eq!(trimmed_end("\n"), "");
}

#[test]
fn find_last_gives_the_last_occurrence() {
    assert_eq!(find_last(&chars_of("a@b@c"), '@'), Some(3));
    assert_eq!(find_last(&chars_of("@"), '@'), Some(0));
    assert_eq!(find_last(&chars_of("abc"), '@'), None);
    assert_eq!(find_last(&chars_of(""), '@'), None);
}

#[test]
fn tail_after_is_what_follows_the_last_separator() {
    assert_eq!(tail_after("/state/alice@host:22", '/'), "alice@host:22");
    assert_eq!(tail_after("alice@host:22", '/'), "alice@host:22");
    assert_eq!(tail_after("dir/", '/'), "");
    assert_eq!(tail_after("a\nb\nc", '\n'), "c");
}

#[test]
fn starts_with_compares_the_head() {
    assert!(starts_with("alice@host:22", "alice@"));
    assert!(!starts_with("bob@host:22", "alice@"));
    assert!(!starts_with("ali", "alice@"));
    assert!(starts_with("anything", ""));
    assert!(starts_with("alice@", "alice@"));
}

#[test]
fn same_text_is_equality() {
    assert!(same_text("", ""));
    assert!(same_text("abc", "abc"));
    assert!(!same_text("abc", "abd"));
    assert!(!same_text("abc", "ab"));
}

#[test]
fn decimal_text_has_no_leading_zeros() {
    assert_eq!(decimal_text(0), "0");
    assert_eq!(decimal_text(9), "9");
    assert_eq!(decimal_text(10), "10");
    assert_eq!(decimal_text(22), "22");
    assert_eq!(decimal_text(2200), "2200");
    assert_eq!(decimal_text(65535), "65535");
    assert_eq!(decimal_text(4294967295), "4294967295");
}

#[test]
fn port_of_reads_decimal_numbers() {
    assert_eq!(port_of("22"), Some(22));
    assert_eq!(port_of("0"), Some(0));
    assert_eq!(port_of("65535"), Some(65535));
    assert_eq!(port_of("0022"), Some(22));
    assert_eq!(port_of("+22"), Some(22));
    assert_eq!(port_of("000000000000000000000000065535"), Some(65535));
}

#[test]
fn port_of_refuses_what_is_no_port() {
    assert_eq!(port_of(""), None);
    assert_eq!(port_of("+"), None);
    assert_eq!(port_of("-1"), None);
    assert_eq!(port_of("65536"), None);
    assert_eq!(port_of("99999999999999999999"), None);
    assert_eq!(port_of("22 "), None);
    assert_eq!(port_of(" 22"), None);
    assert_eq!(port_of("2a"), None);
    assert_eq!(port_of("++2"), None);
    assert_eq!(port_of("\u{662}\u{662}"), None);
}

#[test]
fn port_of_agrees_with_the_standard_library() {
    for s in ["", "+", "-", "0", "+0", "-0", "1", "65535", "65536", "070000", "12a", "a12", "1 2", "+65535", "+65536"] {
        assert_eq!(port_of(s), s.parse::<u16>().ok(), "{:?}", s);
    }
}

#[test]
fn port_of_reads_back_what_decimal_text_wrote() {
    for port in [0u16, 1, 9, 10, 22, 99, 100, 2200, 9999, 10000, 65534, 65535] {
        assert_eq!(port_of(&decimal_text(port as u32)), Some(port));
    }
}
