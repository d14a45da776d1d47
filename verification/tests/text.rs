use collabrustator::text::{chars_of, count_lines, replace_char, replace_str, string_from_chars};

#[test]
fn replace_char_escapes_quotes() {
    assert_eq!(replace_char("say \"hi\"", '"', "\\\""), "say \\\"hi\\\"");
    assert_eq!(replace_char("a\nb\n", '\n', ""), "ab");
    assert_eq!(replace_char("", 'x', "yy"), "");
}

#[test]
fn replace_str_matches_std() {
    for (s, p, t) in [
        ("http://localhost:8000", "http", "ws"),
        ("https://example.org", "http", "ws"),
        ("httphttp", "http", "ws"),
        ("aaaa", "aa", "b"),
        ("no match", "xyz", "q"),
    ] {
        assert_eq!(replace_str(s, p, t), s.replace(p, t));
    }
}

#[test]
fn count_lines_matches_std_lines() {
    for s in ["", "a", "a\n", "a\nb", "\n\n", "x\r\ny\r\n", "<pre>\n<span>a\n</span></pre>\n"] {
        assert_eq!(count_lines(s), s.lines().count(), "{:?}", s);
    }
}

#[test]
fn chars_round_trip() {
    let cs = chars_of("añb");
    assert_eq!(cs, vec!['a', 'ñ', 'b']);
    assert_eq!(string_from_chars(&cs, 1, 3), "ñb");
}
