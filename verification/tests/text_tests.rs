use backend::text::{
    chars_of, extract_comment, parse_u32, push_decimal, push_signed_decimal, split_nonempty, trim,
};

#[test]
fn decimal_formatting_matches_display() {
    for n in [0u64, 7, 10, 99, 20000, 4294967295, u64::MAX] {
        let mut s = String::new();
        push_decimal(&mut s, n);
        assert_eq!(s, n.to_string());
    }
    for i in [0i64, -1, 42, -9000, i64::MIN, i64::MAX] {
        let mut s = String::from("x=");
        push_signed_decimal(&mut s, i);
        assert_eq!(s, format!("x={}", i));
    }
}

#[test]
fn parse_u32_matches_std() {
    for s in ["0", "20000", "+5", "007", "4294967295", "4294967296", "", "+", "-1", "12a", " 1", "-0"] {
        assert_eq!(parse_u32(s), s.parse::<u32>().ok(), "input {:?}", s);
    }
}

#[test]
fn trim_matches_std() {
    for s in ["  abc  ", "\t\nx y\r\n", "", "   ", "\u{3000}name\u{a0}", "plain"] {
        assert_eq!(trim(s), s.trim(), "input {:?}", s);
    }
}

#[test]
fn chars_of_lists_characters() {
    assert_eq!(chars_of("aé$"), vec!['a', 'é', '$']);
}

#[test]
fn comment_extraction() {
    assert_eq!(
        extract_comment("CREATE DATABASE `db` COMMENT 'hello world'"),
        Some("hello world".to_string())
    );
    assert_eq!(extract_comment("CREATE TABLE t (a int) COMMENT ''"), Some(String::new()));
    assert_eq!(extract_comment("CREATE DATABASE `db`"), None);
    assert_eq!(extract_comment("COMMENT 'unterminated"), None);
    assert_eq!(extract_comment("x 'a' COMMENT 'b' 'c'"), Some("b".to_string()));
}

#[test]
fn split_keeps_nonempty_pieces() {
    assert_eq!(split_nonempty("$1$ab$cd", '$'), vec!["1", "ab", "cd"]);
    assert_eq!(split_nonempty("$$a$$", '$'), vec!["a"]);
    assert!(split_nonempty("", '$').is_empty());
    assert!(split_nonempty("$$$", '$').is_empty());
    assert_eq!(split_nonempty("abc", '$'), vec!["abc"]);
}
