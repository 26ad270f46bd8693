use vertx_http_gateway_connector::text::{
    chars_of, decimal_text, part_of, split_chars, split_once_chars, string_of, trim_chars,
};

fn split(s: &str, sep: &str) -> Vec<String> {
    split_chars(&chars_of(s), &chars_of(sep)).iter().map(string_of).collect()
}

#[test]
fn splitting_agrees_with_str() {
    let texts = ["", "a", "a b", " a  b ", "\r\n", "a\r\nb\r\n", "\r\r\n\n", "aaaa", "\u{e4} \u{1f600}"];
    for s in texts {
        for sep in [" ", "\r\n", "aa", "a"] {
            let expected: Vec<String> = s.split(sep).map(|part| part.to_string()).collect();
            assert_eq!(split(s, sep), expected);
            assert_eq!(split(s, sep).join(sep), s);
            let once = split_once_chars(&chars_of(s), &chars_of(sep))
                .map(|(before, after)| (string_of(&before), string_of(&after)));
            let expected = s.split_once(sep).map(|(a, b)| (a.to_string(), b.to_string()));
            assert_eq!(once, expected);
        }
    }
}

#[test]
fn trimming_agrees_with_str() {
    for s in ["", " ", "a", " a ", "\t\n a b \u{3000}", "\u{200b}x"] {
        let trimmed = string_of(&trim_chars(&chars_of(s)));
        assert_eq!(trimmed, s.trim());
        assert_eq!(string_of(&trim_chars(&chars_of(&trimmed))), trimmed);
    }
}

#[test]
fn parts_are_cut_out() {
    let chars = chars_of("h\u{e9}llo");
    assert_eq!(string_of(&part_of(&chars, 1, 3)), "\u{e9}l");
    assert_eq!(string_of(&part_of(&chars, 2, 2)), "");
}

#[test]
fn numbers_are_written_in_decimal() {
    for n in 0..=u16::MAX {
        assert_eq!(decimal_text(n), n.to_string());
    }
}
