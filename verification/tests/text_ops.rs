use add_crypto_core::primitives::{str_parse_u16, str_replace, str_without_spaces};

#[test]
fn replace_matches_std() {
    for (s, pat, rep) in [
        ("http://host:9000", "http://", "ws://"),
        ("https://host", "https://", "wss://"),
        ("aaa", "aa", "b"),
        ("abcabc", "bc", ""),
        ("short", "longer pattern", "x"),
        ("", "a", "b"),
        ("ﬀaﬀ", "ﬀ", "ff"),
    ] {
        assert_eq!(str_replace(s, pat, rep), s.replace(pat, rep));
    }
    assert_eq!(str_replace("aaa", "aa", "b"), "ba");
}

#[test]
fn parse_u16_matches_std() {
    for s in ["", "+", "0", "+80", "007", "65535", "65536", "99999999", "12a", "-1", " 1", "٣", "+-1"] {
        assert_eq!(str_parse_u16(s), s.parse::<u16>().ok(), "input {:?}", s);
    }
    assert_eq!(str_parse_u16("+80"), Some(80));
    assert_eq!(str_parse_u16("65536"), None);
}

#[test]
fn without_spaces_matches_std() {
    for s in ["a b  c", "", "   ", "ﬀ ﬀ", "no-spaces"] {
        assert_eq!(str_without_spaces(s), s.replace(' ', ""));
    }
    assert_eq!(str_without_spaces(" 96BC 6B20 "), "96BC6B20");
}
